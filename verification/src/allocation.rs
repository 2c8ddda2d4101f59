//! Allocation of heap objects and the destructors of their layouts.

use crate::context::{lemma_sizes, GenerationContext};
use crate::emission::parameter;
use crate::ir::{
    object_pointer, Args, BaseType, BlockName, Builder, FunctionKind, Inst, IrType,
    RuntimeFunctions, Value, ValueKind,
};
use crate::state::{
    advanced, code_added, grows, keys, lemma_advanced_frame, lemma_advanced_keeps,
    lemma_advanced_trans, lemma_code_added_advances, lemma_intern, lemma_position_found,
    lemma_position_push, lemma_registry_kept, position, registered, registry_kept,
    runtime_function, State,
};
use crate::types::{
    dtor_type, obj_id_type, ptr_to_object_type, refcnt_type, ObjectFieldType, ObjectType,
};
use vstd::prelude::*;
use vstd::string::StringExecFns;

verus! {

/// The name of an allocation as specifications see it.
pub open spec fn name_view(name: Option<&str>) -> Option<Seq<char>> {
    match name {
        Some(s) => Some(s@),
        None => None,
    }
}

/// A new registration leaves the earlier ones as they were.
pub proof fn lemma_register(st: State, func: RuntimeFunctions, function: usize)
    ensures
        registry_kept(st.runtimes, st.register(func, function).runtimes),
        !registered(st.runtimes, func) ==> registered(st.register(func, function).runtimes, func)
            && runtime_function(st.register(func, function).runtimes, func) == function,
{
    let after = st.register(func, function).runtimes;
    lemma_registry_kept(st.runtimes, after);
    reveal(registry_kept);
    assert(keys(after) =~= keys(st.runtimes).push(func));
    lemma_position_push(keys(st.runtimes), func, func);
    lemma_position_found(keys(st.runtimes), func);
}

/// The load of a field and the release of what was loaded add code and
/// nothing else.
proof fn lemma_release_field(st: State, obj: Value, ty: IrType, index: usize)
    ensures
        code_added(st, st.load_field(obj, ty, index).0.release(st.load_field(obj, ty, index).1)),
{
    let (s1, ptr) = st.pointer_cast(obj, ty.pointer_to());
    if obj.ty != ty.pointer_to() {
        crate::state::lemma_emit(st, Inst::PointerCast { value: obj, to: ty.pointer_to() });
    }
    crate::state::lemma_emit(s1, Inst::StructGep { ptr, index });
    let (s2, field) = s1.struct_gep(ptr, index);
    crate::state::lemma_emit(s2, Inst::Load { ptr: field });
    let (s3, sub) = s2.load(field);
    let callee = Value {
        kind: ValueKind::Function(runtime_function(s3.runtimes, RuntimeFunctions::ReleaseObj)),
        ty: IrType {
            base: BaseType::Function(crate::state::runtime_type(RuntimeFunctions::ReleaseObj)),
            depth: 1,
        },
    };
    crate::state::lemma_emit(s3, Inst::Call { callee, args: Args::One(sub), tail: false });
}

/// The body of a destructor adds code and nothing else.
pub proof fn lemma_dtor_body(
    st: State,
    obj: Value,
    ty: IrType,
    layout: Seq<ObjectFieldType>,
    from: int,
)
    ensures
        code_added(st, st.dtor_body(obj, ty, layout, from)),
    decreases layout.len() - from,
{
    if 0 <= from < layout.len() {
        let next = if layout[from] == ObjectFieldType::SubObject {
            lemma_release_field(st, obj, ty, from as usize);
            let (loaded, sub) = st.load_field(obj, ty, from as usize);
            loaded.release(sub)
        } else {
            st
        };
        lemma_dtor_body(next, obj, ty, layout, from + 1);
    }
}

/// A layout has one destructor: once the destructor of a layout has been
/// asked for, asking again yields the same function and emits nothing, in
/// that state and in every state that it advances to. So all objects of one
/// layout, wherever in the program they are allocated, share a destructor.
pub proof fn lemma_destructor_is_shared(a: State, b: State, layout: Seq<ObjectFieldType>)
    requires
        a.layouts.len() < usize::MAX,
        a.functions.len() <= usize::MAX,
        advanced(a.func_dtor(layout).0, b),
    ensures
        b.func_dtor(layout) == (b, a.func_dtor(layout).1),
        a.func_dtor(layout).0.func_dtor(layout) == a.func_dtor(layout),
{
    let (interned, ty) = a.intern(layout);
    let l = ty.base->Object_0;
    let key = RuntimeFunctions::Dtor(l);
    let (first, f) = a.func_dtor(layout);
    lemma_intern(a, layout);
    // After the first request the layout has its struct type and its
    // destructor is registered.
    assert(first.layouts == interned.layouts && registered(first.runtimes, key)
        && runtime_function(first.runtimes, key) == f) by {
        if !registered(interned.runtimes, key) {
            let (declared, func) = interned.add_function(
                FunctionKind::Dtor,
                crate::ir::FunctionType { ret: crate::ir::ReturnType::Void, params: 1 },
            );
            let (appended, bb) = declared.append_block(func, BlockName::Entry);
            let entered = appended.position_at_end(bb);
            lemma_dtor_body(entered, parameter(func, 0), ty, layout, 0);
            let body = entered.dtor_body(parameter(func, 0), ty, layout, 0);
            let done = body.free(parameter(func, 0)).emit(Inst::Ret { result: None }).with_cursor(
                a.cursor,
            );
            lemma_register(done, key, func);
        }
    }
    lemma_shared_in(first, first, layout, l, f);
    lemma_advanced_keeps(first, b);
    lemma_shared_in(first, b, layout, l, f);
}

/// The destructor that is registered for a layout is the one that every
/// later request gets: in a state that grew from one where the layout has
/// number `l`, and in which `f` is registered as its destructor, a request
/// for the destructor of the layout yields `f` and emits nothing. So an
/// allocation of the layout, wherever it stands, stores `f`.
pub proof fn lemma_shared_in(
    first: State,
    b: State,
    layout: Seq<ObjectFieldType>,
    l: usize,
    f: usize,
)
    requires
        grows(first, b),
        l < first.layouts.len(),
        l == position(first.layouts, layout),
        registered(b.runtimes, RuntimeFunctions::Dtor(l)),
        runtime_function(b.runtimes, RuntimeFunctions::Dtor(l)) == f,
    ensures
        b.func_dtor(layout) == (b, f),
{
    crate::state::lemma_position_prefix(first.layouts, b.layouts, layout);
    assert(b.intern(layout).0.layouts =~= b.layouts);
}

impl ObjectType {
    /// The destructor of the layout. It releases every sub-object field of
    /// the object it is given and then frees the record. A layout has one
    /// destructor: it is emitted when first asked for, and found again
    /// afterwards.
    pub fn generate_func_dtor(&self, gc: &mut GenerationContext) -> (func: usize)
        requires
            old(gc)@.dtor_releases(self@) ==> registered(
                old(gc)@.runtimes,
                RuntimeFunctions::ReleaseObj,
            ),
        ensures
            final(gc)@ == old(gc)@.func_dtor(self@).0,
            func == old(gc)@.func_dtor(self@).1,
            advanced(old(gc)@, final(gc)@),
            final(gc)@.scope == old(gc)@.scope,
            final(gc)@.cursor == old(gc)@.cursor,
            final(gc)@.layouts == old(gc)@.intern(self@).0.layouts,
            registered(
                final(gc)@.runtimes,
                RuntimeFunctions::Dtor(old(gc)@.intern(self@).1.base->Object_0),
            ),
    {
        proof {
            lemma_sizes(gc);
            lemma_intern(gc@, self@);
        }
        let struct_type = gc.struct_type(self);
        let layout_number = match struct_type.base {
            BaseType::Object(l) => l,
            _ => 0,
        };
        let key = RuntimeFunctions::Dtor(layout_number);
        match gc.runtime(key) {
            Some(func) => {
                return func;
            },
            None => {},
        }
        let ghost interned = gc@;
        let func = gc.add_function(FunctionKind::Dtor, dtor_type());
        let bb = gc.append_basic_block(func, BlockName::Entry);
        let previous = gc.push_builder(Builder { block: Some(bb) });
        let ptr_to_obj = Value {
            kind: ValueKind::Param { function: func, index: 0 },
            ty: ptr_to_object_type(),
        };
        let ghost start = gc@;
        let mut i: usize = 0;
        while i < self.field_types.len()
            invariant
                i <= self@.len(),
                code_added(start, gc@),
                gc@.dtor_body(ptr_to_obj, struct_type, self@, i as int) == start.dtor_body(
                    ptr_to_obj,
                    struct_type,
                    self@,
                    0,
                ),
                self@.contains(ObjectFieldType::SubObject) ==> registered(
                    start.runtimes,
                    RuntimeFunctions::ReleaseObj,
                ),
                struct_type.depth == 0,
                start.fields(struct_type).len() == self@.len(),
                forall|k: int|
                    0 <= k < self@.len() ==> (#[trigger] start.fields(struct_type)[k])
                        == self@[k].basic_type(),
            decreases self@.len() - i,
        {
            match self.field_types[i] {
                ObjectFieldType::SubObject => {
                    assert(self@[i as int] == ObjectFieldType::SubObject);
                    assert(gc@.fields(struct_type) == start.fields(struct_type));
                    assert(start.fields(struct_type)[i as int] == object_pointer());
                    let ptr_to_subobj = gc.build_load_field_of_obj(ptr_to_obj, struct_type, i);
                    gc.build_release(ptr_to_subobj);
                },
                _ => {},
            }
            i += 1;
        }
        let ghost body = gc@;
        gc.build_free(ptr_to_obj);
        gc.emit(Inst::Ret { result: None });
        let ghost returned = gc@;
        gc.push_builder(previous);
        let ghost restored = gc@;
        gc.register_runtime(key, func);
        proof {
            lemma_register(restored, key, func);
            assert(code_added(start, returned));
            assert(grows(interned, gc@));
            crate::state::lemma_destructor_added(
                interned,
                gc@,
                crate::ir::Function {
                    kind: FunctionKind::Dtor,
                    ty: crate::ir::FunctionType { ret: crate::ir::ReturnType::Void, params: 1 },
                },
                layout_number,
                func,
            );
            lemma_advanced_trans(old(gc)@, interned, gc@);
        }
        func
    }

    /// Emits the allocation of an object of the layout: the struct is
    /// allocated, its reference counter set to one and its destructor
    /// stored. With the sanitizer the allocation is reported to the runtime
    /// under `name`, and the id that the runtime gives is stored too.
    pub fn build_allocate_shared_obj(&self, gc: &mut GenerationContext, name: Option<&str>) -> (ptr:
        Value)
        requires
            old(gc)@.sanitize ==> registered(old(gc)@.runtimes, RuntimeFunctions::ReportMalloc),
            self@.contains(ObjectFieldType::ControlBlock) && old(gc)@.dtor_releases(self@)
                ==> registered(old(gc)@.runtimes, RuntimeFunctions::ReleaseObj),
        ensures
            final(gc)@ == old(gc)@.allocate(self@, name_view(name)).0,
            ptr == old(gc)@.allocate(self@, name_view(name)).1,
            ptr.ty == old(gc)@.intern(self@).1.pointer_to(),
            ptr.ty.depth == 1,
            ptr.ty != object_pointer(),
            advanced(old(gc)@, final(gc)@),
            final(gc)@.scope == old(gc)@.scope,
            final(gc)@.cursor == old(gc)@.cursor,
            final(gc)@.layouts == old(gc)@.intern(self@).0.layouts,
            old(gc)@.has_runtime() ==> final(gc)@.has_runtime(),
            self@.contains(ObjectFieldType::ControlBlock) ==> registered(
                final(gc)@.runtimes,
                RuntimeFunctions::Dtor(old(gc)@.intern(self@).1.base->Object_0),
            ) && final(gc)@.func_dtor(self@) == (
                final(gc)@,
                runtime_function(
                    final(gc)@.runtimes,
                    RuntimeFunctions::Dtor(old(gc)@.intern(self@).1.base->Object_0),
                ),
            ),
    {
        proof {
            lemma_sizes(gc);
            lemma_intern(gc@, self@);
        }
        let struct_type = gc.struct_type(self);
        let ghost interned = gc@;
        let id = gc.emit(Inst::Malloc { ty: struct_type });
        let ptr_to_obj = Value {
            kind: ValueKind::Inst(id),
            ty: IrType { base: struct_type.base, depth: 1 },
        };
        let ghost allocated = gc@;
        let mut object_id = Value { kind: ValueKind::ConstInt(0), ty: obj_id_type() };
        if gc.context.sanitize_memory {
            let text = match name {
                Some(s) => s,
                None => "N/A",
            };
            let string = gc.module.strings.len();
            gc.module.strings.push(String::from_str(text));
            assert(gc@.strings =~= allocated.strings.push(text@));
            let string_id = gc.emit(Inst::GlobalString { string });
            let string_ptr = Value { kind: ValueKind::Inst(string_id), ty: ptr_to_object_type() };
            let cast_id = gc.emit(Inst::PointerCast { value: string_ptr, to: ptr_to_object_type() });
            let string_ptr_i8 = Value { kind: ValueKind::Inst(cast_id), ty: ptr_to_object_type() };
            let ptr = gc.build_pointer_cast(ptr_to_obj, ptr_to_object_type());
            let obj_id = gc.call_runtime(
                RuntimeFunctions::ReportMalloc,
                Args::Two(ptr, string_ptr_i8),
            );
            object_id = match obj_id {
                Some(v) => v,
                None => object_id,
            };
        }
        let ghost reported = gc@;
        proof {
            lemma_sizes(gc);
            assert(reported == allocated.report_malloc(ptr_to_obj, name_view(name)).0);
            assert(grows(interned, reported));
            lemma_registry_kept(interned.runtimes, reported.runtimes);
            assert(advanced(interned, reported)) by {
                reveal(advanced);
                reveal(crate::state::shape_from);
            }
            lemma_advanced_trans(old(gc)@, interned, reported);
            lemma_advanced_frame(reported, reported);
            crate::state::lemma_advanced_keeps(old(gc)@, reported);
            assert(reported.runtimes == old(gc)@.runtimes);
            assert(position(reported.layouts, self@) == position(old(gc)@.layouts, self@));
        }
        let mut i: usize = 0;
        while i < self.field_types.len()
            invariant
                i <= self@.len(),
                advanced(reported, gc@),
                gc@.scope == reported.scope,
                gc@.cursor == reported.cursor,
                gc@.layouts == reported.layouts,
                gc@.sanitize == reported.sanitize,
                old(gc)@.has_runtime() ==> gc@.has_runtime(),
                self@.take(i as int).contains(ObjectFieldType::ControlBlock) ==> registered(
                    gc@.runtimes,
                    RuntimeFunctions::Dtor(struct_type.base->Object_0),
                ),
                self@.contains(ObjectFieldType::ControlBlock) && gc@.dtor_releases(self@)
                    ==> registered(gc@.runtimes, RuntimeFunctions::ReleaseObj),
                gc@.init_fields(ptr_to_obj, self@, object_id, i as int) == reported.init_fields(
                    ptr_to_obj,
                    self@,
                    object_id,
                    0,
                ),
                ptr_to_obj.ty == struct_type.pointer_to(),
                struct_type.depth == 0,
                (reported, struct_type) == reported.intern(self@),
                reported.layouts.len() <= usize::MAX,
                reported.fields(struct_type).len() == self@.len(),
                forall|k: int|
                    0 <= k < self@.len() ==> (#[trigger] reported.fields(struct_type)[k])
                        == self@[k].basic_type(),
            decreases self@.len() - i,
        {
            match self.field_types[i] {
                ObjectFieldType::ControlBlock => {
                    let ghost before = gc@;
                    assert(self@[i as int] == ObjectFieldType::ControlBlock);
                    assert(gc@.fields(struct_type) == reported.fields(struct_type));
                    assert(reported.fields(struct_type)[i as int]
                        == ObjectFieldType::ControlBlock.basic_type());
                    let ptr_to_control_block = gc.build_struct_gep(ptr_to_obj, i);
                    let ptr_to_refcnt = gc.build_struct_gep(ptr_to_control_block, 0);
                    gc.build_store(
                        ptr_to_refcnt,
                        Value { kind: ValueKind::ConstInt(1), ty: refcnt_type() },
                    );
                    let ptr_to_dtor_field = gc.build_struct_gep(ptr_to_control_block, 1);
                    let ghost s4 = gc@;
                    proof {
                        lemma_code_added_advances(before, s4);
                        assert((s4, struct_type) == s4.intern(self@));
                    }
                    let dtor = self.generate_func_dtor(gc);
                    let ghost s5 = gc@;
                    gc.build_store(
                        ptr_to_dtor_field,
                        Value {
                            kind: ValueKind::Function(dtor),
                            ty: IrType { base: BaseType::Function(dtor_type()), depth: 1 },
                        },
                    );
                    if gc.context.sanitize_memory {
                        let ptr_to_obj_id = gc.build_struct_gep(ptr_to_control_block, 2);
                        gc.build_store(ptr_to_obj_id, object_id);
                    }
                    proof {
                        lemma_code_added_advances(s5, gc@);
                        lemma_advanced_trans(before, s4, s5);
                        lemma_advanced_trans(before, s5, gc@);
                        lemma_advanced_trans(reported, before, gc@);
                        crate::state::lemma_advanced_keeps(before, gc@);
                        assert(gc@ == before.init_control_block(ptr_to_obj, self@, object_id, i));
                    }
                },
                _ => {},
            }
            proof {
                assert(self@.take(i as int + 1) =~= self@.take(i as int).push(self@[i as int]));
                vstd::seq_lib::lemma_seq_contains_after_push(
                    self@.take(i as int),
                    self@[i as int],
                    ObjectFieldType::ControlBlock,
                );
            }
            i += 1;
        }
        proof {
            lemma_advanced_trans(old(gc)@, reported, gc@);
            assert(self@.take(i as int) =~= self@);
            if self@.contains(ObjectFieldType::ControlBlock) {
                let l = struct_type.base->Object_0;
                lemma_shared_in(
                    gc@,
                    gc@,
                    self@,
                    l,
                    runtime_function(gc@.runtimes, RuntimeFunctions::Dtor(l)),
                );
            }
        }
        ptr_to_obj
    }
}

} // verus!
