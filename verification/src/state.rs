//! What a compilation has produced so far, as mathematics sees it, and what
//! each step of emission does to it.
//!
//! `State` is the view of a `GenerationContext`. Every operation of the
//! builder facade is a function from states to states here, and the facade's
//! executable functions are proved to compute exactly these.

use crate::ir::{
    object_pointer, Args, BaseType, Block, BlockName, Entry, Function, FunctionKind, FunctionType,
    Inst, IrType, ReturnType, RuntimeFunctions, Value, ValueKind,
};
use crate::names::Name;
use crate::scope::{top, Bound, ExprCode, LocalVariable};
use crate::types::{control_block_layout, ObjectFieldType};
use vstd::prelude::*;

verus! {

/// The first position of `x` in `s`, or the length of `s` if there is none.
pub open spec fn position<T>(s: Seq<T>, x: T) -> int
    decreases s.len(),
{
    if s.len() == 0 {
        0
    } else {
        let p = position(s.drop_last(), x);
        if p < s.len() - 1 {
            p
        } else if s.last() == x {
            s.len() - 1
        } else {
            s.len() as int
        }
    }
}

/// `position` is the first position that holds `x`.
pub proof fn lemma_position<T>(s: Seq<T>, x: T, i: int)
    requires
        0 <= i <= s.len(),
        forall|j: int| 0 <= j < i ==> s[j] != x,
        i < s.len() ==> s[i] == x,
    ensures
        position(s, x) == i,
    decreases s.len(),
{
    if s.len() > 0 {
        let t = s.drop_last();
        if i < s.len() - 1 {
            lemma_position(t, x, i);
        } else if i == s.len() - 1 {
            lemma_position(t, x, i);
        } else {
            lemma_position(t, x, t.len() as int);
        }
    }
}

/// What `position` returns: within bounds it is a first occurrence, at the
/// length there is none.
pub proof fn lemma_position_found<T>(s: Seq<T>, x: T)
    ensures
        0 <= position(s, x) <= s.len(),
        position(s, x) < s.len() ==> s[position(s, x)] == x,
        forall|j: int| 0 <= j < position(s, x) ==> s[j] != x,
    decreases s.len(),
{
    if s.len() > 0 {
        lemma_position_found(s.drop_last(), x);
        let p = position(s.drop_last(), x);
        assert forall|j: int| 0 <= j < position(s, x) implies s[j] != x by {
            if j < s.len() - 1 {
                assert(s.drop_last()[j] == s[j]);
            }
        }
    }
}

/// Appending to a sequence moves no first occurrence.
pub proof fn lemma_position_push<T>(s: Seq<T>, y: T, x: T)
    ensures
        position(s, x) < s.len() ==> position(s.push(y), x) == position(s, x),
        position(s, x) == s.len() && y == x ==> position(s.push(y), x) == s.len(),
        position(s, x) == s.len() && y != x ==> position(s.push(y), x) == s.len() + 1,
{
    lemma_position_found(s, x);
    assert(s.push(y).drop_last() =~= s);
}

/// Every variable of the scope stands for an object pointer.
#[verifier::opaque]
pub open spec fn typed(scope: Seq<Bound>) -> bool {
    forall|i: int| 0 <= i < scope.len() ==> (#[trigger] scope[i]).var.code.ptr.ty == object_pointer()
}

/// The keys of a registry of runtime functions.
pub open spec fn keys(runtimes: Seq<(RuntimeFunctions, usize)>) -> Seq<RuntimeFunctions> {
    Seq::new(runtimes.len(), |i: int| runtimes[i].0)
}

/// Whether `func` is registered.
pub open spec fn registered(runtimes: Seq<(RuntimeFunctions, usize)>, func: RuntimeFunctions)
    -> bool {
    position(keys(runtimes), func) < runtimes.len()
}

/// The function that `func` is registered with.
pub open spec fn runtime_function(
    runtimes: Seq<(RuntimeFunctions, usize)>,
    func: RuntimeFunctions,
) -> usize {
    runtimes[position(keys(runtimes), func)].1
}

/// The type of each runtime function.
pub open spec fn runtime_type(func: RuntimeFunctions) -> FunctionType {
    match func {
        RuntimeFunctions::RetainObj => FunctionType { ret: ReturnType::Void, params: 1 },
        RuntimeFunctions::ReleaseObj => FunctionType { ret: ReturnType::Void, params: 1 },
        RuntimeFunctions::ReportMalloc => FunctionType { ret: ReturnType::Int64, params: 2 },
        RuntimeFunctions::CheckLeak => FunctionType { ret: ReturnType::Void, params: 0 },
        RuntimeFunctions::Dtor(_) => FunctionType { ret: ReturnType::Void, params: 1 },
        RuntimeFunctions::ArrayNew => FunctionType { ret: ReturnType::ObjectPtr, params: 2 },
        RuntimeFunctions::ArrayRead => FunctionType { ret: ReturnType::ObjectPtr, params: 2 },
        RuntimeFunctions::ArrayWrite => FunctionType { ret: ReturnType::ObjectPtr, params: 3 },
        RuntimeFunctions::ArrayWriteUnique => FunctionType {
            ret: ReturnType::ObjectPtr,
            params: 3,
        },
    }
}

/// The type of what a function of type `ty` returns, if it returns anything.
pub open spec fn result_type(ty: FunctionType) -> Option<IrType> {
    match ty.ret {
        ReturnType::Void => None,
        ReturnType::Int64 => Some(IrType { base: BaseType::Int64, depth: 0 }),
        ReturnType::ObjectPtr => Some(object_pointer()),
    }
}

/// The type of the code of a lambda.
pub open spec fn lambda_type() -> FunctionType {
    FunctionType { ret: ReturnType::ObjectPtr, params: 2 }
}

/// A call through a loaded pointer to the code of a lambda: the call that
/// applies a closure to an argument.
pub open spec fn is_apply(inst: Inst) -> bool {
    inst matches Inst::Call { callee, args, tail } && callee.kind is Inst && callee.ty == (IrType {
        base: BaseType::Function(lambda_type()),
        depth: 1,
    })
}

/// From position `n` on, every call that applies a closure is marked as a
/// tail call.
#[verifier::opaque]
pub open spec fn shape_from(code: Seq<Entry>, n: int) -> bool {
    forall|i: int|
        n <= i < code.len() && 0 <= i && is_apply(#[trigger] code[i].inst) ==> code[i].inst->tail
}

/// Every call that applies a closure is marked as a tail call.
pub open spec fn tail_call_shape(code: Seq<Entry>) -> bool {
    shape_from(code, 0)
}

/// The code `b`, which starts with `a`, has the tail-call shape from every
/// position on from which `a` has it. So what `b` adds to `a` has the shape.
pub open spec fn shape_kept(a: Seq<Entry>, b: Seq<Entry>) -> bool {
    forall|n: int| 0 <= n <= a.len() && #[trigger] shape_from(a, n) ==> shape_from(b, n)
}

/// The state of a compilation.
pub struct State {
    /// Whether allocations are reported to the runtime for leak tracking.
    pub sanitize: bool,
    /// The object layouts that have a struct type, by number.
    pub layouts: Seq<Seq<ObjectFieldType>>,
    pub functions: Seq<Function>,
    pub blocks: Seq<Block>,
    pub strings: Seq<Seq<char>>,
    /// The instructions in the order of emission.
    pub code: Seq<Entry>,
    /// The block that the builder stands in.
    pub cursor: Option<usize>,
    pub scope: Seq<Bound>,
    /// The runtime functions and destructors that have been declared.
    pub runtimes: Seq<(RuntimeFunctions, usize)>,
}

impl State {
    /// The state after `inst` was appended at the insertion point.
    pub open spec fn emit(self, inst: Inst) -> State {
        State { code: self.code.push(Entry { block: self.cursor, inst }), ..self }
    }

    /// The value that the next instruction yields, if it has type `ty`.
    pub open spec fn next_value(self, ty: IrType) -> Value {
        Value { kind: ValueKind::Inst(self.code.len() as usize), ty }
    }

    /// The struct type of `layout`: the one it has already, or a new one.
    pub open spec fn intern(self, layout: Seq<ObjectFieldType>) -> (State, IrType) {
        let i = position(self.layouts, layout);
        let ty = IrType { base: BaseType::Object(i as usize), depth: 0 };
        if i < self.layouts.len() {
            (self, ty)
        } else {
            (State { layouts: self.layouts.push(layout), ..self }, ty)
        }
    }

    /// The types of the fields of the struct `ty`.
    pub open spec fn fields(self, ty: IrType) -> Seq<IrType> {
        match ty.base {
            BaseType::ControlBlock => control_block_layout(self.sanitize),
            BaseType::Object(l) => if l < self.layouts.len() {
                Seq::new(self.layouts[l as int].len(), |i: int| self.layouts[l as int][i].basic_type())
            } else {
                Seq::empty()
            },
            _ => Seq::empty(),
        }
    }

    /// `ty` is a struct that has a field `index`.
    pub open spec fn has_field(self, ty: IrType, index: int) -> bool {
        ty.depth == 0 && 0 <= index < self.fields(ty).len()
    }

    /// The state after a function was declared, and the number of the function.
    pub open spec fn add_function(self, kind: FunctionKind, ty: FunctionType) -> (State, usize) {
        (
            State { functions: self.functions.push(Function { kind, ty }), ..self },
            self.functions.len() as usize,
        )
    }

    /// The state after a basic block was appended to `function`, and the number
    /// of the block.
    pub open spec fn append_block(self, function: usize, name: BlockName) -> (State, usize) {
        (
            State { blocks: self.blocks.push(Block { function, name }), ..self },
            self.blocks.len() as usize,
        )
    }

    /// The state after the builder moved to the end of `block`.
    pub open spec fn position_at_end(self, block: usize) -> State {
        State { cursor: Some(block), ..self }
    }

    /// The state with the insertion point replaced.
    pub open spec fn with_cursor(self, cursor: Option<usize>) -> State {
        State { cursor, ..self }
    }

    /// The state with the scope replaced.
    pub open spec fn with_scope(self, scope: Seq<Bound>) -> State {
        State { scope, ..self }
    }

    /// The state after `function` was registered as the runtime function `func`.
    pub open spec fn register(self, func: RuntimeFunctions, function: usize) -> State {
        State { runtimes: self.runtimes.push((func, function)), ..self }
    }

    /// Binds `name` to `ptr` in the scope.
    pub open spec fn bind(self, name: Name, ptr: Value) -> State {
        State {
            scope: self.scope.push(
                Bound { name, var: LocalVariable { code: ExprCode { ptr }, used_later: 0 } },
            ),
            ..self
        }
    }

    /// A cast is emitted unless the pointer has the type already.
    pub open spec fn pointer_cast(self, from: Value, to: IrType) -> (State, Value) {
        if from.ty == to {
            (self, from)
        } else {
            (self.emit(Inst::PointerCast { value: from, to }), self.next_value(to))
        }
    }

    /// The address of field `index` of the struct that `ptr` points to.
    pub open spec fn struct_gep(self, ptr: Value, index: usize) -> (State, Value) {
        (
            self.emit(Inst::StructGep { ptr, index }),
            self.next_value(self.fields(ptr.ty.pointee())[index as int].pointer_to()),
        )
    }

    /// The value that `ptr` points to.
    pub open spec fn load(self, ptr: Value) -> (State, Value) {
        (self.emit(Inst::Load { ptr }), self.next_value(ptr.ty.pointee()))
    }

    /// The state after `value` was stored where `ptr` points to.
    pub open spec fn store(self, ptr: Value, value: Value) -> State {
        self.emit(Inst::Store { ptr, value })
    }

    /// The state after the record that `obj` points to was freed.
    pub open spec fn free(self, obj: Value) -> State {
        self.emit(Inst::Free { ptr: obj })
    }

    /// The address of field `index` of the object `obj`, seen as a struct
    /// `ty`.
    pub open spec fn field_address(self, obj: Value, ty: IrType, index: usize) -> (State, Value) {
        let (s1, ptr) = self.pointer_cast(obj, ty.pointer_to());
        s1.struct_gep(ptr, index)
    }

    /// Cast to a pointer to the struct, take the field's address, load.
    pub open spec fn load_field(self, obj: Value, ty: IrType, index: usize) -> (State, Value) {
        let (s1, field) = self.field_address(obj, ty, index);
        s1.load(field)
    }

    /// Cast to a pointer to the struct, take the field's address, store.
    pub open spec fn set_field(self, obj: Value, ty: IrType, index: usize, value: Value) -> State {
        let (s1, field) = self.field_address(obj, ty, index);
        s1.store(field, value)
    }

    /// A pointer to the control block of the object: the object pointer, cast.
    pub open spec fn ptr_to_control_block(self, obj: Value) -> (State, Value) {
        self.pointer_cast(obj, IrType { base: BaseType::ControlBlock, depth: 1 })
    }

    /// A pointer to the reference counter of the object: field 0 of the control
    /// block.
    pub open spec fn ptr_to_refcnt(self, obj: Value) -> (State, Value) {
        let (s1, cb) = self.ptr_to_control_block(obj);
        s1.struct_gep(cb, 0)
    }

    /// A direct call of the runtime function `func`.
    pub open spec fn call_runtime(self, func: RuntimeFunctions, args: Args) -> (
        State,
        Option<Value>,
    ) {
        let callee = Value {
            kind: ValueKind::Function(runtime_function(self.runtimes, func)),
            ty: IrType { base: BaseType::Function(runtime_type(func)), depth: 1 },
        };
        (
            self.emit(Inst::Call { callee, args, tail: false }),
            match result_type(runtime_type(func)) {
                Some(ty) => Some(self.next_value(ty)),
                None => None,
            },
        )
    }

    /// The state after a call of the runtime that retains the object.
    pub open spec fn retain(self, obj: Value) -> State {
        self.call_runtime(RuntimeFunctions::RetainObj, Args::One(obj)).0
    }

    /// The state after a call of the runtime that releases the object.
    pub open spec fn release(self, obj: Value) -> State {
        self.call_runtime(RuntimeFunctions::ReleaseObj, Args::One(obj)).0
    }

    /// The destructor is loaded from field 1 of the control block and called
    /// with the object.
    pub open spec fn call_dtor(self, obj: Value) -> State {
        let (s1, dtor) = self.load_field(obj, IrType { base: BaseType::ControlBlock, depth: 0 }, 1);
        s1.emit(Inst::Call { callee: dtor, args: Args::One(obj), tail: false })
    }

    /// The id of the object: field 2 of the control block.
    pub open spec fn get_obj_id(self, obj: Value) -> (State, Value) {
        self.load_field(obj, IrType { base: BaseType::ControlBlock, depth: 0 }, 2)
    }

    /// The code of the closure is loaded from its field 1.
    pub open spec fn ptr_to_func_of_lambda(self, obj: Value) -> (State, Value) {
        let (s1, lam_ty) = self.intern(crate::types::closure_layout(0));
        s1.load_field(obj, lam_ty, 1)
    }

    /// The closure's code is called with the argument and the closure
    /// itself, as a tail call.
    pub open spec fn app(self, lambda: Value, arg: Value) -> (State, Value) {
        let (s1, func) = self.ptr_to_func_of_lambda(lambda);
        (
            s1.emit(Inst::Call { callee: func, args: Args::Two(arg, lambda), tail: true }),
            s1.next_value(object_pointer()),
        )
    }

    /// The value of a variable, retained if the variable is used again
    /// later; otherwise the variable's own handle passes to the user.
    pub open spec fn var_retained_if_used_later(self, name: Name) -> (State, ExprCode) {
        let var = top(self.scope, name);
        (
            if var.used_later > 0 {
                self.retain(var.code.ptr)
            } else {
                self
            },
            var.code,
        )
    }

    /// Every variable in scope stands for an object pointer.
    pub open spec fn scope_typed(self) -> bool {
        typed(self.scope)
    }

    /// The functions that emitted code relies on are declared.
    pub open spec fn has_runtime(self) -> bool {
        &&& registered(self.runtimes, RuntimeFunctions::RetainObj)
        &&& registered(self.runtimes, RuntimeFunctions::ReleaseObj)
        &&& registered(self.runtimes, RuntimeFunctions::ReportMalloc)
        &&& registered(self.runtimes, RuntimeFunctions::CheckLeak)
        &&& registered(self.runtimes, RuntimeFunctions::ArrayNew)
        &&& registered(self.runtimes, RuntimeFunctions::ArrayRead)
        &&& registered(self.runtimes, RuntimeFunctions::ArrayWrite)
        &&& registered(self.runtimes, RuntimeFunctions::ArrayWriteUnique)
    }

    /// The builder stands in a block of the module.
    pub open spec fn positioned(self) -> bool {
        self.cursor matches Some(b) && b < self.blocks.len()
    }
}

/// What interning yields: a struct type whose fields are those of the
/// layout, in a state that only gained at most that layout.
pub proof fn lemma_intern(st: State, layout: Seq<ObjectFieldType>)
    requires
        st.layouts.len() <= usize::MAX,
    ensures
        ({
            let (s1, ty) = st.intern(layout);
            &&& ty.depth == 0
            &&& ty.base matches BaseType::Object(l) && l < s1.layouts.len() && s1.layouts[l as int]
                == layout && l == position(st.layouts, layout)
            &&& s1.fields(ty).len() == layout.len()
            &&& forall|i: int|
                0 <= i < layout.len() ==> (#[trigger] s1.fields(ty)[i]) == layout[i].basic_type()
            &&& forall|i: int| 0 <= i < layout.len() ==> s1.has_field(ty, i)
            &&& grows(st, s1)
            &&& s1 == State { layouts: s1.layouts, ..st }
            &&& s1.intern(layout) == (s1, ty)
        }),
{
    lemma_position_found(st.layouts, layout);
    lemma_position_push(st.layouts, layout, layout);
    let (s1, ty) = st.intern(layout);
    assert(s1.intern(layout).0.layouts =~= s1.layouts);
}

/// `b` is `a` after more was emitted: nothing that `a` holds was changed or
/// taken away.
pub open spec fn grows(a: State, b: State) -> bool {
    &&& a.sanitize == b.sanitize
    &&& a.layouts.is_prefix_of(b.layouts)
    &&& a.functions.is_prefix_of(b.functions)
    &&& a.blocks.is_prefix_of(b.blocks)
    &&& a.strings.is_prefix_of(b.strings)
    &&& a.code.is_prefix_of(b.code)
    &&& a.runtimes.is_prefix_of(b.runtimes)
}

/// `b` is `a` with more code and nothing else changed, and no call was added
/// that applies a closure without being a tail call.
pub open spec fn code_added(a: State, b: State) -> bool {
    &&& b == State { code: b.code, ..a }
    &&& a.code.is_prefix_of(b.code)
    &&& shape_kept(a.code, b.code)
}

/// Every runtime function that `a` has registered, `b` has registered with
/// the same function.
#[verifier::opaque]
pub open spec fn registry_kept(
    a: Seq<(RuntimeFunctions, usize)>,
    b: Seq<(RuntimeFunctions, usize)>,
) -> bool {
    forall|f: RuntimeFunctions| #[trigger]
        registered(a, f) ==> registered(b, f) && runtime_function(b, f) == runtime_function(a, f)
}

/// The number of destructors among the functions.
pub open spec fn destructors(functions: Seq<Function>) -> nat
    decreases functions.len(),
{
    if functions.len() == 0 {
        0
    } else {
        destructors(functions.drop_last()) + (if functions.last().kind is Dtor {
            1nat
        } else {
            0nat
        })
    }
}

/// The number of layouts that have a destructor registered.
pub open spec fn destructor_keys(runtimes: Seq<(RuntimeFunctions, usize)>) -> nat
    decreases runtimes.len(),
{
    if runtimes.len() == 0 {
        0
    } else {
        destructor_keys(runtimes.drop_last()) + (if runtimes.last().0 is Dtor {
            1nat
        } else {
            0nat
        })
    }
}

/// Nothing is registered twice, and the module holds as many destructors
/// as there are layouts with a destructor registered. So every destructor
/// of the module is the registered destructor of one layout, and no layout
/// has two.
pub open spec fn one_destructor_per_layout(
    functions: Seq<Function>,
    runtimes: Seq<(RuntimeFunctions, usize)>,
) -> bool {
    &&& forall|i: int, j: int|
        0 <= i < j < runtimes.len() ==> (#[trigger] runtimes[i]).0 != (#[trigger] runtimes[j]).0
    &&& destructors(functions) == destructor_keys(runtimes)
}

/// `b` is `a` after more was emitted, with the tail-call shape, the
/// registry and the one destructor of each layout kept.
#[verifier::opaque]
pub open spec fn advanced(a: State, b: State) -> bool {
    &&& grows(a, b)
    &&& shape_kept(a.code, b.code)
    &&& registry_kept(a.runtimes, b.runtimes)
    &&& one_destructor_per_layout(a.functions, a.runtimes) ==> one_destructor_per_layout(
        b.functions,
        b.runtimes,
    )
}

/// A first occurrence in a sequence is the first occurrence in every
/// sequence that starts with it.
pub proof fn lemma_position_prefix<T>(a: Seq<T>, b: Seq<T>, x: T)
    requires
        a.is_prefix_of(b),
        position(a, x) < a.len(),
    ensures
        position(b, x) == position(a, x),
{
    lemma_position_found(a, x);
    let p = position(a, x);
    assert(b[p] == a[p]);
    assert forall|j: int| 0 <= j < p implies b[j] != x by {
        assert(b[j] == a[j]);
    }
    lemma_position(b, x, p);
}

/// A registry that only gained entries kept what it had.
pub proof fn lemma_registry_kept(
    a: Seq<(RuntimeFunctions, usize)>,
    b: Seq<(RuntimeFunctions, usize)>,
)
    requires
        a.is_prefix_of(b),
    ensures
        registry_kept(a, b),
{
    reveal(registry_kept);
    assert forall|f: RuntimeFunctions| #[trigger] registered(a, f) implies registered(b, f)
        && runtime_function(b, f) == runtime_function(a, f) by {
        assert(keys(a).is_prefix_of(keys(b))) by {
            assert forall|i: int| 0 <= i < keys(a).len() implies keys(a)[i] == keys(b)[i] by {
                assert(a[i] == b[i]);
            }
        }
        lemma_position_found(keys(a), f);
        lemma_position_prefix(keys(a), keys(b), f);
        assert(b[position(keys(a), f)] == a[position(keys(a), f)]);
    }
}

/// Emitting an instruction adds code and nothing else.
pub proof fn lemma_emit(st: State, inst: Inst)
    requires
        is_apply(inst) ==> inst->tail,
    ensures
        code_added(st, st.emit(inst)),
{
    reveal(shape_from);
}

/// Adding code keeps everything else, so it advances the state.
pub proof fn lemma_code_added_advances(a: State, b: State)
    requires
        code_added(a, b),
    ensures
        advanced(a, b),
        b.has_runtime() == a.has_runtime(),
        b.scope == a.scope,
        b.cursor == a.cursor,
{
    reveal(advanced);
    lemma_registry_kept(a.runtimes, b.runtimes);
}

/// Advancing twice is advancing.
pub proof fn lemma_advanced_trans(a: State, b: State, c: State)
    requires
        advanced(a, b),
        advanced(b, c),
    ensures
        advanced(a, c),
{
    reveal(advanced);
    reveal(registry_kept);
    assert forall|f: RuntimeFunctions| #[trigger] registered(a.runtimes, f) implies registered(
        c.runtimes,
        f,
    ) && runtime_function(c.runtimes, f) == runtime_function(a.runtimes, f) by {
        assert(registered(b.runtimes, f));
    }
}

/// A struct type that `a` knows has the same fields in every state that `a`
/// grows to.
pub proof fn lemma_fields_grow(a: State, b: State, ty: IrType)
    requires
        grows(a, b),
        ty.base matches BaseType::Object(l) ==> l < a.layouts.len(),
    ensures
        b.fields(ty) == a.fields(ty),
        forall|i: int| a.has_field(ty, i) ==> b.has_field(ty, i),
{
    match ty.base {
        BaseType::Object(l) => {
            assert(b.layouts[l as int] == a.layouts[l as int]);
            assert(b.fields(ty) =~= a.fields(ty));
        },
        _ => {},
    }
}

/// What is registered stays registered, with the same function, while the
/// state advances.
pub proof fn lemma_advanced_keeps(a: State, b: State)
    requires
        advanced(a, b),
    ensures
        a.has_runtime() ==> b.has_runtime(),
        forall|f: RuntimeFunctions| #[trigger]
            registered(a.runtimes, f) ==> registered(b.runtimes, f) && runtime_function(
                b.runtimes,
                f,
            ) == runtime_function(a.runtimes, f),
        grows(a, b),
        tail_call_shape(a.code) ==> tail_call_shape(b.code),
        shape_from(b.code, a.code.len() as int),
        one_destructor_per_layout(a.functions, a.runtimes) ==> one_destructor_per_layout(
            b.functions,
            b.runtimes,
        ),
{
    reveal(advanced);
    reveal(registry_kept);
    assert(shape_from(a.code, a.code.len() as int)) by {
        reveal(shape_from);
    }
}

/// A state that gained layouts, blocks or strings and nothing else has
/// advanced.
pub proof fn lemma_advanced_frame(a: State, b: State)
    requires
        grows(a, b),
        b.code == a.code,
        b.functions == a.functions,
        b.runtimes == a.runtimes,
    ensures
        advanced(a, b),
{
    reveal(advanced);
    lemma_registry_kept(a.runtimes, b.runtimes);
}

/// A state that gained a function that is no destructor has advanced.
pub proof fn lemma_function_added(a: State, b: State, f: Function)
    requires
        grows(a, b),
        b.code == a.code,
        b.runtimes == a.runtimes,
        b.functions == a.functions.push(f),
        !(f.kind is Dtor),
    ensures
        advanced(a, b),
{
    reveal(advanced);
    lemma_registry_kept(a.runtimes, b.runtimes);
    assert(b.functions.drop_last() =~= a.functions);
}

/// A state that gained the registration of a runtime function that was not
/// registered, and that is no destructor, has advanced.
pub proof fn lemma_runtime_registered(a: State, b: State, func: RuntimeFunctions, function: usize)
    requires
        grows(a, b),
        b.code == a.code,
        b.functions == a.functions,
        b.runtimes == a.runtimes.push((func, function)),
        !registered(a.runtimes, func),
        !(func is Dtor),
    ensures
        advanced(a, b),
{
    reveal(advanced);
    lemma_registry_kept(a.runtimes, b.runtimes);
    lemma_registration_is_new(a.runtimes, func, function);
    assert(b.runtimes.drop_last() =~= a.runtimes);
}

/// A registry in which nothing is registered twice stays so when something
/// that was not registered is registered.
pub proof fn lemma_registration_is_new(
    runtimes: Seq<(RuntimeFunctions, usize)>,
    func: RuntimeFunctions,
    function: usize,
)
    requires
        !registered(runtimes, func),
    ensures
        (forall|i: int, j: int|
            0 <= i < j < runtimes.len() ==> (#[trigger] runtimes[i]).0 != (
            #[trigger] runtimes[j]).0) ==> (forall|i: int, j: int|
            0 <= i < j < runtimes.len() + 1 ==> (#[trigger] runtimes.push((func, function))[i]).0
                != (#[trigger] runtimes.push((func, function))[j]).0),
{
    lemma_position_found(keys(runtimes), func);
    let after = runtimes.push((func, function));
    if forall|i: int, j: int|
        0 <= i < j < runtimes.len() ==> (#[trigger] runtimes[i]).0 != (#[trigger] runtimes[j]).0 {
        assert forall|i: int, j: int| 0 <= i < j < runtimes.len() + 1 implies (
        #[trigger] after[i]).0 != (#[trigger] after[j]).0 by {
            if j == runtimes.len() {
                assert(keys(runtimes)[i] != func);
            } else {
                assert(after[i] == runtimes[i] && after[j] == runtimes[j]);
            }
        }
    }
}

/// A state that gained a destructor and its registration under a layout
/// that had none, and code that has the tail-call shape, has advanced.
pub proof fn lemma_destructor_added(a: State, b: State, f: Function, l: usize, function: usize)
    requires
        grows(a, b),
        shape_kept(a.code, b.code),
        b.functions == a.functions.push(f),
        f.kind is Dtor,
        b.runtimes == a.runtimes.push((RuntimeFunctions::Dtor(l), function)),
        !registered(a.runtimes, RuntimeFunctions::Dtor(l)),
    ensures
        advanced(a, b),
{
    reveal(advanced);
    lemma_registry_kept(a.runtimes, b.runtimes);
    lemma_registration_is_new(a.runtimes, RuntimeFunctions::Dtor(l), function);
    assert(b.runtimes.drop_last() =~= a.runtimes);
    assert(b.functions.drop_last() =~= a.functions);
}

/// An application is one call: the code that `app` adds ends in a call of
/// the closure's code with the argument and the closure, marked as a tail
/// call, whose value is the value of the application; and nothing else that
/// it adds applies a closure.
pub proof fn lemma_app_is_one_tail_call(st: State, lambda: Value, arg: Value)
    requires
        st.layouts.len() <= usize::MAX,
        st.code.len() < usize::MAX,
    ensures
        ({
            let (s, v) = st.app(lambda, arg);
            let last = s.code.len() - 1;
            &&& st.code.is_prefix_of(s.code)
            &&& st.code.len() <= last
            &&& is_apply(s.code[last].inst)
            &&& s.code[last].inst matches Inst::Call { callee, args, tail } && tail && args
                == Args::Two(arg, lambda)
            &&& v == (Value { kind: ValueKind::Inst(last as usize), ty: object_pointer() })
            &&& forall|i: int| st.code.len() <= i < last ==> !is_apply(#[trigger] s.code[i].inst)
        }),
{
    lemma_intern(st, crate::types::closure_layout(0));
    let (s1, lam_ty) = st.intern(crate::types::closure_layout(0));
    assert(crate::types::closure_layout(0)[1] == ObjectFieldType::LambdaFunction);
    assert(s1.fields(lam_ty)[1] == ObjectFieldType::LambdaFunction.basic_type());
    let (s2, ptr) = s1.pointer_cast(lambda, lam_ty.pointer_to());
    let (s3, field) = s2.struct_gep(ptr, 1);
    let (s4, func) = s3.load(field);
    assert(s2.fields(lam_ty) == s1.fields(lam_ty));
    assert(func.ty == ObjectFieldType::LambdaFunction.basic_type());
    let (s, v) = st.app(lambda, arg);
    assert(s == s4.emit(Inst::Call { callee: func, args: Args::Two(arg, lambda), tail: true }));
}

} // verus!
