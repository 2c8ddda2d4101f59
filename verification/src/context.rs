//! The generation context and the builder facade: typed helpers that append
//! instructions to the module under construction.

use crate::ir::{
    object_pointer, Args, BaseType, Block, BlockName, Builder, Entry, Function, FunctionKind,
    FunctionType, Inst, IrType, Module, ReturnType, RuntimeFunctions, Value, ValueKind,
};
use crate::ast::names_of;
use crate::scope::{bound, top, ExprCode, LocalVariables};
use crate::state::{
    advanced, code_added, is_apply, lemma_code_added_advances, lemma_advanced_trans, keys, lemma_intern, lemma_position, lemma_position_found, position, registered, result_type,
    runtime_function, runtime_type, State,
};
use crate::types::{
    closure_layout, control_block_fields, control_block_layout, control_block_type,
    ptr_to_control_block_type, ptr_to_object_type, ObjectFieldType, ObjectType,
};
use vstd::prelude::*;

verus! {

/// The layouts of `v` as sequences of field kinds.
pub open spec fn layouts_of(v: Seq<ObjectType>) -> Seq<Seq<ObjectFieldType>> {
    Seq::new(v.len(), |i: int| v[i]@)
}

/// What a compilation fixes once: its options and the struct types of the
/// object layouts it has met.
pub struct Context {
    /// Whether allocations are reported to the runtime for leak tracking.
    pub sanitize_memory: bool,
    pub layouts: Vec<ObjectType>,
}

impl Context {
    /// A context that has met no layout yet.
    pub fn new(sanitize_memory: bool) -> (r: Context)
        ensures
            r.sanitize_memory == sanitize_memory,
            r.layouts@.len() == 0,
    {
        Context { sanitize_memory, layouts: Vec::new() }
    }
}

/// What a compilation works on: the module it fills, the insertion point of
/// the builder, the scope, and the runtime functions and destructors that are
/// declared.
pub struct GenerationContext {
    pub context: Context,
    pub module: Module,
    pub builder: Builder,
    pub scope: LocalVariables,
    pub runtimes: Vec<(RuntimeFunctions, usize)>,
}

impl View for GenerationContext {
    type V = State;

    open spec fn view(&self) -> State {
        State {
            sanitize: self.context.sanitize_memory,
            layouts: layouts_of(self.context.layouts@),
            functions: self.module.functions@,
            blocks: self.module.blocks@,
            strings: names_of(self.module.strings@),
            code: self.module.code@,
            cursor: self.builder.block,
            scope: self.scope@,
            runtimes: self.runtimes@,
        }
    }
}

/// The tables of a context fit the machine's index type.
pub proof fn lemma_sizes(gc: &GenerationContext)
    ensures
        gc@.layouts.len() <= usize::MAX,
        gc@.functions.len() <= usize::MAX,
        gc@.blocks.len() <= usize::MAX,
        gc@.strings.len() <= usize::MAX,
        gc@.code.len() <= usize::MAX,
        gc@.runtimes.len() <= usize::MAX,
{
    assert(gc.context.layouts.len() == gc.context.layouts@.len());
    assert(gc.module.functions.len() == gc.module.functions@.len());
    assert(gc.module.blocks.len() == gc.module.blocks@.len());
    assert(gc.module.strings.len() == gc.module.strings@.len());
    assert(gc.module.code.len() == gc.module.code@.len());
    assert(gc.runtimes.len() == gc.runtimes@.len());
}

/// The state before anything is emitted.
pub open spec fn initial_state(sanitize: bool) -> State {
    State {
        sanitize,
        layouts: Seq::empty(),
        functions: Seq::empty(),
        blocks: Seq::empty(),
        strings: Seq::empty(),
        code: Seq::empty(),
        cursor: None,
        scope: Seq::empty(),
        runtimes: Seq::empty(),
    }
}

/// The type of what a function of type `ty` returns, if it returns anything.
pub fn function_result_type(ty: FunctionType) -> (r: Option<IrType>)
    ensures
        r == result_type(ty),
{
    match ty.ret {
        ReturnType::Void => None,
        ReturnType::Int64 => Some(IrType { base: BaseType::Int64, depth: 0 }),
        ReturnType::ObjectPtr => Some(ptr_to_object_type()),
    }
}

/// The type of each runtime function.
pub fn runtime_function_type(func: RuntimeFunctions) -> (ty: FunctionType)
    ensures
        ty == runtime_type(func),
{
    match func {
        RuntimeFunctions::RetainObj => FunctionType { ret: ReturnType::Void, params: 1 },
        RuntimeFunctions::ReleaseObj => FunctionType { ret: ReturnType::Void, params: 1 },
        RuntimeFunctions::ReportMalloc => FunctionType { ret: ReturnType::Int64, params: 2 },
        RuntimeFunctions::CheckLeak => FunctionType { ret: ReturnType::Void, params: 0 },
        RuntimeFunctions::Dtor(_) => FunctionType { ret: ReturnType::Void, params: 1 },
        RuntimeFunctions::ArrayNew => FunctionType { ret: ReturnType::ObjectPtr, params: 2 },
        RuntimeFunctions::ArrayRead => FunctionType { ret: ReturnType::ObjectPtr, params: 2 },
        RuntimeFunctions::ArrayWrite => FunctionType { ret: ReturnType::ObjectPtr, params: 3 },
        RuntimeFunctions::ArrayWriteUnique => FunctionType {
            ret: ReturnType::ObjectPtr,
            params: 3,
        },
    }
}

impl ObjectType {
    /// The struct type of the layout: the one it has in `context` already,
    /// or a new one.
    pub fn to_struct_type(&self, context: &mut Context) -> (ty: IrType)
        ensures
            final(context).sanitize_memory == old(context).sanitize_memory,
            ty == (IrType {
                base: BaseType::Object(
                    position(layouts_of(old(context).layouts@), self@) as usize,
                ),
                depth: 0,
            }),
            position(layouts_of(old(context).layouts@), self@) < old(context).layouts@.len()
                ==> final(context).layouts == old(context).layouts,
            position(layouts_of(old(context).layouts@), self@) == old(context).layouts@.len()
                ==> layouts_of(final(context).layouts@) == layouts_of(
                old(context).layouts@,
            ).push(self@),
    {
        let mut i: usize = 0;
        while i < context.layouts.len()
            invariant
                i <= context.layouts@.len(),
                *context == *old(context),
                forall|j: int| 0 <= j < i ==> layouts_of(context.layouts@)[j] != self@,
            decreases context.layouts@.len() - i,
        {
            if context.layouts[i].same(self) {
                proof {
                    lemma_position(layouts_of(context.layouts@), self@, i as int);
                }
                return IrType { base: BaseType::Object(i), depth: 0 };
            }
            i += 1;
        }
        proof {
            lemma_position(layouts_of(context.layouts@), self@, i as int);
        }
        context.layouts.push(self.clone());
        assert(layouts_of(context.layouts@) =~= layouts_of(old(context).layouts@).push(self@));
        IrType { base: BaseType::Object(i), depth: 0 }
    }
}

impl GenerationContext {
    /// A context with an empty module, an empty scope and no insertion point.
    pub fn new(sanitize_memory: bool) -> (gc: GenerationContext)
        ensures
            gc@ == initial_state(sanitize_memory),
    {
        let gc = GenerationContext {
            context: Context::new(sanitize_memory),
            module: Module::new(),
            builder: Builder { block: None },
            scope: LocalVariables::new(),
            runtimes: Vec::new(),
        };
        assert(gc@.layouts =~= Seq::empty());
        assert(gc@.strings =~= Seq::empty());
        assert(gc@.functions =~= Seq::empty());
        assert(gc@.blocks =~= Seq::empty());
        assert(gc@.code =~= Seq::empty());
        assert(gc@.runtimes =~= Seq::empty());
        gc
    }

    /// Appends `inst` at the insertion point and returns its position.
    pub fn emit(&mut self, inst: Inst) -> (id: usize)
        ensures
            final(self)@ == old(self)@.emit(inst),
            id == old(self)@.code.len(),
            (is_apply(inst) ==> inst->tail) ==> code_added(old(self)@, final(self)@),
    {
        let id = self.module.code.len();
        self.module.code.push(Entry { block: self.builder.block, inst });
        proof {
            if is_apply(inst) ==> inst->tail {
                crate::state::lemma_emit(old(self)@, inst);
            }
        }
        id
    }

    /// The struct type of `layout`.
    pub fn struct_type(&mut self, layout: &ObjectType) -> (ty: IrType)
        ensures
            final(self)@ == old(self)@.intern(layout@).0,
            advanced(old(self)@, final(self)@),
            final(self)@.scope == old(self)@.scope,
            final(self)@.cursor == old(self)@.cursor,
            final(self)@.runtimes == old(self)@.runtimes,
            ty == old(self)@.intern(layout@).1,
    {
        proof {
            lemma_position_found(old(self)@.layouts, layout@);
        }
        let ty = layout.to_struct_type(&mut self.context);
        proof {
            assert(self@.layouts =~= old(self)@.intern(layout@).0.layouts);
            lemma_sizes(old(self));
            lemma_intern(old(self)@, layout@);
            crate::state::lemma_advanced_frame(old(self)@, self@);
        }
        ty
    }

    /// Declares a function and returns its number.
    pub fn add_function(&mut self, kind: FunctionKind, ty: FunctionType) -> (function: usize)
        ensures
            final(self)@ == old(self)@.add_function(kind, ty).0,
            function == old(self)@.add_function(kind, ty).1,
    {
        let function = self.module.functions.len();
        self.module.functions.push(Function { kind, ty });
        function
    }

    /// Appends a basic block to `function` and returns its number.
    pub fn append_basic_block(&mut self, function: usize, name: BlockName) -> (block: usize)
        ensures
            final(self)@ == old(self)@.append_block(function, name).0,
            block == old(self)@.append_block(function, name).1,
    {
        let block = self.module.blocks.len();
        self.module.blocks.push(Block { function, name });
        block
    }

    /// Moves the insertion point to the end of `block`.
    pub fn position_at_end(&mut self, block: usize)
        ensures
            final(self)@ == old(self)@.position_at_end(block),
    {
        self.builder = Builder { block: Some(block) };
    }

    /// Puts `builder` in place of the current one and returns the current
    /// one, for it to be put back later.
    pub fn push_builder(&mut self, builder: Builder) -> (previous: Builder)
        ensures
            final(self)@ == old(self)@.with_cursor(builder.block),
            previous.block == old(self)@.cursor,
    {
        let previous = self.builder;
        self.builder = builder;
        previous
    }

    /// Registers `function` as the runtime function `func`.
    pub fn register_runtime(&mut self, func: RuntimeFunctions, function: usize)
        ensures
            final(self)@ == old(self)@.register(func, function),
    {
        self.runtimes.push((func, function));
    }

    /// The function that `func` is registered with, if it is registered.
    pub fn runtime(&self, func: RuntimeFunctions) -> (r: Option<usize>)
        ensures
            r is Some == registered(self@.runtimes, func),
            r matches Some(f) ==> f == runtime_function(self@.runtimes, func),
    {
        let mut i: usize = 0;
        while i < self.runtimes.len()
            invariant
                i <= self.runtimes@.len(),
                forall|j: int| 0 <= j < i ==> keys(self.runtimes@)[j] != func,
            decreases self.runtimes@.len() - i,
        {
            if self.runtimes[i].0 == func {
                proof {
                    lemma_position(keys(self.runtimes@), func, i as int);
                }
                return Some(self.runtimes[i].1);
            }
            i += 1;
        }
        proof {
            lemma_position(keys(self.runtimes@), func, i as int);
        }
        None
    }

    /// The value of a variable, retained if the variable is used again
    /// later.
    pub fn get_var_retained_if_used_later(&mut self, var_name: &str) -> (code: ExprCode)
        requires
            bound(old(self)@.scope, var_name@),
            top(old(self)@.scope, var_name@).used_later > 0 ==> registered(
                old(self)@.runtimes,
                RuntimeFunctions::RetainObj,
            ) && top(old(self)@.scope, var_name@).code.ptr.ty == object_pointer(),
        ensures
            final(self)@ == old(self)@.var_retained_if_used_later(var_name@).0,
            code_added(old(self)@, final(self)@),
            code == old(self)@.var_retained_if_used_later(var_name@).1,
    {
        let var = self.scope.get(var_name);
        let code = var.code;
        if var.used_later > 0 {
            self.build_retain(code.ptr);
        }
        code
    }

    /// The pointer `from` as a pointer of type `to`: `from` itself if it has
    /// that type, a cast otherwise.
    pub fn build_pointer_cast(&mut self, from: Value, to: IrType) -> (ptr: Value)
        ensures
            final(self)@ == old(self)@.pointer_cast(from, to).0,
            code_added(old(self)@, final(self)@),
            ptr == old(self)@.pointer_cast(from, to).1,
            ptr.ty == to,
    {
        if from.ty == to {
            from
        } else {
            let id = self.emit(Inst::PointerCast { value: from, to });
            Value { kind: ValueKind::Inst(id), ty: to }
        }
    }

    /// The type of field `index` of the struct `ty`.
    pub fn field_type(&self, ty: IrType, index: usize) -> (field: IrType)
        requires
            self@.has_field(ty, index as int),
        ensures
            field == self@.fields(ty)[index as int],
            field.depth <= 1,
    {
        match ty.base {
            BaseType::ControlBlock => {
                let fields = control_block_fields(self.context.sanitize_memory);
                fields[index]
            },
            BaseType::Object(l) => {
                self.context.layouts[l].field_types[index].to_basic_type()
            },
            _ => vstd::pervasive::unreached(),
        }
    }

    /// The address of field `index` of the struct that `ptr` points to.
    pub fn build_struct_gep(&mut self, ptr: Value, index: usize) -> (field: Value)
        requires
            ptr.ty.depth == 1,
            old(self)@.has_field(ptr.ty.pointee(), index as int),
        ensures
            final(self)@ == old(self)@.struct_gep(ptr, index).0,
            code_added(old(self)@, final(self)@),
            field == old(self)@.struct_gep(ptr, index).1,
    {
        let field_ty = self.field_type(IrType { base: ptr.ty.base, depth: 0 }, index);
        let id = self.emit(Inst::StructGep { ptr, index });
        Value { kind: ValueKind::Inst(id), ty: IrType { base: field_ty.base, depth: field_ty.depth + 1 } }
    }

    /// The value that `ptr` points to.
    pub fn build_load(&mut self, ptr: Value) -> (value: Value)
        requires
            ptr.ty.is_pointer(),
        ensures
            final(self)@ == old(self)@.load(ptr).0,
            code_added(old(self)@, final(self)@),
            value == old(self)@.load(ptr).1,
    {
        let id = self.emit(Inst::Load { ptr });
        Value { kind: ValueKind::Inst(id), ty: IrType { base: ptr.ty.base, depth: ptr.ty.depth - 1 } }
    }

    /// Stores `value` where `ptr` points to.
    pub fn build_store(&mut self, ptr: Value, value: Value)
        ensures
            final(self)@ == old(self)@.store(ptr, value),
            code_added(old(self)@, final(self)@),
    {
        self.emit(Inst::Store { ptr, value });
    }

    /// Frees the record that `obj` points to.
    pub fn build_free(&mut self, obj: Value)
        ensures
            final(self)@ == old(self)@.free(obj),
            code_added(old(self)@, final(self)@),
    {
        self.emit(Inst::Free { ptr: obj });
    }

    /// A pointer to the control block of the object.
    pub fn build_ptr_to_control_block(&mut self, obj: Value) -> (ptr: Value)
        ensures
            final(self)@ == old(self)@.ptr_to_control_block(obj).0,
            code_added(old(self)@, final(self)@),
            ptr == old(self)@.ptr_to_control_block(obj).1,
    {
        self.build_pointer_cast(obj, ptr_to_control_block_type())
    }

    /// A pointer to the reference counter of the object.
    pub fn build_ptr_to_refcnt(&mut self, obj: Value) -> (ptr: Value)
        ensures
            final(self)@ == old(self)@.ptr_to_refcnt(obj).0,
            code_added(old(self)@, final(self)@),
            ptr == old(self)@.ptr_to_refcnt(obj).1,
    {
        let ptr_control_block = self.build_ptr_to_control_block(obj);
        self.build_struct_gep(ptr_control_block, 0)
    }

    /// Calls the destructor of the object.
    pub fn build_call_dtor(&mut self, obj: Value)
        ensures
            final(self)@ == old(self)@.call_dtor(obj),
            code_added(old(self)@, final(self)@),
    {
        let ptr_to_dtor = self.build_load_field_of_obj(obj, control_block_type(), 1);
        self.emit(Inst::Call { callee: ptr_to_dtor, args: Args::One(obj), tail: false });
    }

    /// The value of field `index` of the object, seen as a struct `ty`.
    pub fn build_load_field_of_obj(&mut self, obj: Value, ty: IrType, index: usize) -> (value:
        Value)
        requires
            old(self)@.has_field(ty, index as int),
        ensures
            final(self)@ == old(self)@.load_field(obj, ty, index).0,
            code_added(old(self)@, final(self)@),
            value == old(self)@.load_field(obj, ty, index).1,
            value.ty == old(self)@.fields(ty)[index as int],
    {
        let ptr = self.build_pointer_cast(obj, IrType { base: ty.base, depth: 1 });
        let ptr_to_field = self.build_struct_gep(ptr, index);
        self.build_load(ptr_to_field)
    }

    /// Stores `value` into field `index` of the object, seen as a struct
    /// `ty`.
    pub fn build_set_field(&mut self, obj: Value, ty: IrType, index: usize, value: Value)
        requires
            old(self)@.has_field(ty, index as int),
        ensures
            final(self)@ == old(self)@.set_field(obj, ty, index, value),
            code_added(old(self)@, final(self)@),
    {
        let ptr = self.build_pointer_cast(obj, IrType { base: ty.base, depth: 1 });
        let ptr_to_field = self.build_struct_gep(ptr, index);
        self.build_store(ptr_to_field, value);
    }

    /// The pointer to the code of a closure.
    pub fn build_ptr_to_func_of_lambda(&mut self, obj: Value) -> (func: Value)
        ensures
            final(self)@ == old(self)@.ptr_to_func_of_lambda(obj).0,
            advanced(old(self)@, final(self)@),
            final(self)@.scope == old(self)@.scope,
            final(self)@.cursor == old(self)@.cursor,
            final(self)@.runtimes == old(self)@.runtimes,
            func == old(self)@.ptr_to_func_of_lambda(obj).1,
            func.kind is Inst,
            func.ty == ObjectFieldType::LambdaFunction.basic_type(),
    {
        let lam_obj = ObjectType::lam_obj_type();
        let lam_obj_ty = self.struct_type(&lam_obj);
        proof {
            lemma_sizes(old(self));
            lemma_intern(old(self)@, closure_layout(0));
            assert(closure_layout(0).len() == 2);
            assert(closure_layout(0)[1] == ObjectFieldType::LambdaFunction);
            assert(self@.has_field(lam_obj_ty, 1));
        }
        let ghost mid = self@;
        let func = self.build_load_field_of_obj(obj, lam_obj_ty, 1);
        proof {
            lemma_code_added_advances(mid, self@);
            lemma_advanced_trans(old(self)@, mid, self@);
        }
        func
    }

    /// Applies a closure to an argument. Both handles pass to the call.
    pub fn build_app(&mut self, ptr_to_lambda: Value, ptr_to_arg: Value) -> (code: ExprCode)
        ensures
            final(self)@ == old(self)@.app(ptr_to_lambda, ptr_to_arg).0,
            advanced(old(self)@, final(self)@),
            final(self)@.scope == old(self)@.scope,
            final(self)@.cursor == old(self)@.cursor,
            final(self)@.runtimes == old(self)@.runtimes,
            code.ptr == old(self)@.app(ptr_to_lambda, ptr_to_arg).1,
            code.ptr.ty == object_pointer(),
    {
        let ptr_to_func = self.build_ptr_to_func_of_lambda(ptr_to_lambda);
        let ghost mid = self@;
        let id = self.emit(
            Inst::Call { callee: ptr_to_func, args: Args::Two(ptr_to_arg, ptr_to_lambda), tail: true },
        );
        proof {
            lemma_code_added_advances(mid, self@);
            lemma_advanced_trans(old(self)@, mid, self@);
        }
        ExprCode { ptr: Value { kind: ValueKind::Inst(id), ty: ptr_to_object_type() } }
    }

    /// Retains the object.
    pub fn build_retain(&mut self, ptr_to_obj: Value)
        requires
            ptr_to_obj.ty == object_pointer(),
            registered(old(self)@.runtimes, RuntimeFunctions::RetainObj),
        ensures
            final(self)@ == old(self)@.retain(ptr_to_obj),
            code_added(old(self)@, final(self)@),
    {
        self.call_runtime(RuntimeFunctions::RetainObj, Args::One(ptr_to_obj));
    }

    /// Releases the object.
    pub fn build_release(&mut self, ptr_to_obj: Value)
        requires
            ptr_to_obj.ty == object_pointer(),
            registered(old(self)@.runtimes, RuntimeFunctions::ReleaseObj),
        ensures
            final(self)@ == old(self)@.release(ptr_to_obj),
            code_added(old(self)@, final(self)@),
    {
        self.call_runtime(RuntimeFunctions::ReleaseObj, Args::One(ptr_to_obj));
    }

    /// The id under which the object was reported to the runtime.
    pub fn build_get_obj_id(&mut self, ptr_to_obj: Value) -> (id: Value)
        requires
            old(self)@.sanitize,
        ensures
            final(self)@ == old(self)@.get_obj_id(ptr_to_obj).0,
            code_added(old(self)@, final(self)@),
            id == old(self)@.get_obj_id(ptr_to_obj).1,
    {
        assert(control_block_layout(true).len() == 3);
        self.build_load_field_of_obj(ptr_to_obj, control_block_type(), 2)
    }

    /// Calls a runtime function.
    pub fn call_runtime(&mut self, func: RuntimeFunctions, args: Args) -> (result: Option<Value>)
        requires
            registered(old(self)@.runtimes, func),
        ensures
            final(self)@ == old(self)@.call_runtime(func, args).0,
            code_added(old(self)@, final(self)@),
            result == old(self)@.call_runtime(func, args).1,
    {
        let function = match self.runtime(func) {
            Some(f) => f,
            None => 0,
        };
        let ty = runtime_function_type(func);
        let callee = Value {
            kind: ValueKind::Function(function),
            ty: IrType { base: BaseType::Function(ty), depth: 1 },
        };
        let id = self.emit(Inst::Call { callee, args, tail: false });
        match function_result_type(ty) {
            Some(result_ty) => Some(Value { kind: ValueKind::Inst(id), ty: result_ty }),
            None => None,
        }
    }
}

impl LocalVariables {
    /// The value of field `field_idx` of the object that `var_name` stands
    /// for, seen as a struct `ty`. The load is emitted in `gc`.
    pub fn get_field(
        &self,
        var_name: &str,
        field_idx: usize,
        ty: IrType,
        gc: &mut GenerationContext,
    ) -> (value: Value)
        requires
            bound(self@, var_name@),
            old(gc)@.has_field(ty, field_idx as int),
        ensures
            final(gc)@ == old(gc)@.load_field(top(self@, var_name@).code.ptr, ty, field_idx).0,
            value == old(gc)@.load_field(top(self@, var_name@).code.ptr, ty, field_idx).1,
            code_added(old(gc)@, final(gc)@),
    {
        let expr = self.get(var_name);
        gc.build_load_field_of_obj(expr.code.ptr, ty, field_idx)
    }
}

} // verus!
