//! The compilation scheme: what is emitted for each form of expression, as a
//! function from the state before to the state after and the value yielded.
//!
//! The executable compiler is proved to compute exactly these functions. The
//! placement of retains and releases is the substance:
//!
//! - a variable is retained where it is used again later, and hands over its
//!   own handle at its last use;
//! - while the first part of an application, a `let` or a conditional is
//!   compiled, the variables that the later parts use count as used later;
//! - an application hands both handles to the call;
//! - a `let` whose body does not use the bound name releases the bound value
//!   at once;
//! - the code of a lambda retains what it captured, and releases the closure
//!   and the argument if its body does not use them;
//! - each branch of a conditional releases first the variables that only the
//!   other branch uses and that are not used later.

use crate::ast::{text, Expr, ExprInfo, LiteralGenerator, Term, SELF_NAME, names_of};
use crate::ir::{
    object_pointer, Args, BaseType, BlockName, FunctionKind, FunctionType, Inst, IrType,
    ReturnType, RuntimeFunctions, Value, ValueKind,
};
use crate::names::{without, Name};
use crate::scope::{bumped, popped, top};
use crate::state::{lambda_type, registered, runtime_function, State};
use crate::types::{bool_layout, closure_layout, int_layout, ObjectFieldType};
use vstd::prelude::*;

verus! {

/// A 64-bit integer constant.
pub open spec fn const_int64(bits: u64) -> Value {
    Value { kind: ValueKind::ConstInt(bits), ty: IrType { base: BaseType::Int64, depth: 0 } }
}

/// An 8-bit integer constant.
pub open spec fn const_int8(bits: u64) -> Value {
    Value { kind: ValueKind::ConstInt(bits), ty: IrType { base: BaseType::Int8, depth: 0 } }
}

/// The address of the function with the given number and type.
pub open spec fn function_address(function: usize, ty: FunctionType) -> Value {
    Value { kind: ValueKind::Function(function), ty: IrType { base: BaseType::Function(ty), depth: 1 } }
}

/// A parameter of a function. Every parameter is an object pointer.
pub open spec fn parameter(function: usize, index: usize) -> Value {
    Value { kind: ValueKind::Param { function, index }, ty: object_pointer() }
}

/// The text that an allocation is reported under when it has no name.
pub open spec fn anonymous() -> Seq<char> {
    "N/A"@
}

impl State {
    /// The body of a destructor, from field `from` on: every sub-object
    /// field is loaded and released, in order.
    pub open spec fn dtor_body(
        self,
        obj: Value,
        ty: IrType,
        layout: Seq<ObjectFieldType>,
        from: int,
    ) -> State
        decreases layout.len() - from,
    {
        if from < 0 || from >= layout.len() {
            self
        } else {
            let next = if layout[from] == ObjectFieldType::SubObject {
                let (loaded, sub) = self.load_field(obj, ty, from as usize);
                loaded.release(sub)
            } else {
                self
            };
            next.dtor_body(obj, ty, layout, from + 1)
        }
    }

    /// Whether a request for the destructor of `layout` emits a release: no
    /// destructor is registered for the layout yet, and the layout has a
    /// sub-object.
    pub open spec fn dtor_releases(self, layout: Seq<ObjectFieldType>) -> bool {
        &&& layout.contains(ObjectFieldType::SubObject)
        &&& !registered(
            self.runtimes,
            RuntimeFunctions::Dtor(crate::state::position(self.layouts, layout) as usize),
        )
    }

    /// The destructor of `layout`: the one that is registered for it, or a
    /// new function that is emitted and registered. A destructor releases
    /// the sub-objects of the object it is given, frees the record and
    /// returns.
    pub open spec fn func_dtor(self, layout: Seq<ObjectFieldType>) -> (State, usize) {
        let (interned, ty) = self.intern(layout);
        let key = RuntimeFunctions::Dtor(ty.base->Object_0);
        if registered(interned.runtimes, key) {
            (interned, runtime_function(interned.runtimes, key))
        } else {
            let (declared, func) = interned.add_function(
                FunctionKind::Dtor,
                FunctionType { ret: ReturnType::Void, params: 1 },
            );
            let (appended, bb) = declared.append_block(func, BlockName::Entry);
            let body = appended.position_at_end(bb).dtor_body(parameter(func, 0), ty, layout, 0);
            let done = body.free(parameter(func, 0)).emit(Inst::Ret { result: None }).with_cursor(
                self.cursor,
            );
            (done.register(key, func), func)
        }
    }

    /// With the sanitizer, the allocation is reported to the runtime under
    /// its name, and the runtime's answer is the object's id. Without it the
    /// id is zero and nothing is emitted.
    pub open spec fn report_malloc(self, ptr_to_obj: Value, name: Option<Seq<char>>) -> (
        State,
        Value,
    ) {
        if !self.sanitize {
            (self, const_int64(0))
        } else {
            let text = match name {
                Some(t) => t,
                None => anonymous(),
            };
            let named = State { strings: self.strings.push(text), ..self };
            let string_ptr = named.next_value(object_pointer());
            let global = named.emit(Inst::GlobalString { string: self.strings.len() as usize });
            let string_ptr_i8 = global.next_value(object_pointer());
            let cast = global.emit(Inst::PointerCast { value: string_ptr, to: object_pointer() });
            let (generic, ptr) = cast.pointer_cast(ptr_to_obj, object_pointer());
            let (called, id) = generic.call_runtime(
                RuntimeFunctions::ReportMalloc,
                Args::Two(ptr, string_ptr_i8),
            );
            (called, id->Some_0)
        }
    }

    /// The control block at field `index` of a fresh object is set up: the
    /// reference counter starts at one, the destructor is that of the
    /// layout, and with the sanitizer the object id is stored.
    pub open spec fn init_control_block(
        self,
        ptr_to_obj: Value,
        layout: Seq<ObjectFieldType>,
        object_id: Value,
        index: usize,
    ) -> State {
        let (s1, control_block) = self.struct_gep(ptr_to_obj, index);
        let (s2, refcnt) = s1.struct_gep(control_block, 0);
        let s3 = s2.store(refcnt, const_int64(1));
        let (s4, dtor_field) = s3.struct_gep(control_block, 1);
        let (s5, dtor) = s4.func_dtor(layout);
        let s6 = s5.store(
            dtor_field,
            function_address(dtor, FunctionType { ret: ReturnType::Void, params: 1 }),
        );
        if self.sanitize {
            let (s7, id_field) = s6.struct_gep(control_block, 2);
            s7.store(id_field, object_id)
        } else {
            s6
        }
    }

    /// The fields of a fresh object are set up, from field `from` on.
    pub open spec fn init_fields(
        self,
        ptr_to_obj: Value,
        layout: Seq<ObjectFieldType>,
        object_id: Value,
        from: int,
    ) -> State
        decreases layout.len() - from,
    {
        if from < 0 || from >= layout.len() {
            self
        } else {
            let next = if layout[from] == ObjectFieldType::ControlBlock {
                self.init_control_block(ptr_to_obj, layout, object_id, from as usize)
            } else {
                self
            };
            next.init_fields(ptr_to_obj, layout, object_id, from + 1)
        }
    }

    /// A fresh object of the given layout, with a reference count of one.
    pub open spec fn allocate(self, layout: Seq<ObjectFieldType>, name: Option<Seq<char>>) -> (
        State,
        Value,
    ) {
        let (interned, ty) = self.intern(layout);
        let ptr_to_obj = interned.next_value(ty.pointer_to());
        let allocated = interned.emit(Inst::Malloc { ty });
        let (reported, object_id) = allocated.report_malloc(ptr_to_obj, name);
        (reported.init_fields(ptr_to_obj, layout, object_id, 0), ptr_to_obj)
    }

    /// The counters of `names` moved by `by`.
    pub open spec fn bump(self, names: Set<Name>, by: int) -> State {
        self.with_scope(bumped(self.scope, names, by))
    }

    /// In a lambda's code: the captured objects are loaded from the
    /// closure's fields 2 and up, and bound to their names.
    pub open spec fn load_captures(
        self,
        closure: Value,
        closure_ty: IrType,
        captured: Seq<Name>,
        from: int,
    ) -> State
        decreases captured.len() - from,
    {
        if from < 0 || from >= captured.len() {
            self
        } else {
            let (loaded, cap) = self.load_field(closure, closure_ty, (from + 2) as usize);
            loaded.bind(captured[from], cap).load_captures(closure, closure_ty, captured, from + 1)
        }
    }

    /// In a lambda's code: every captured object is retained once.
    pub open spec fn retain_captures(self, captured: Seq<Name>, from: int) -> State
        decreases captured.len() - from,
    {
        if from < 0 || from >= captured.len() {
            self
        } else {
            self.retain(top(self.scope, captured[from]).code.ptr).retain_captures(
                captured,
                from + 1,
            )
        }
    }

    /// Where a closure is made: each captured variable is stored into the
    /// closure's fields 2 and up, retained if it is used later.
    pub open spec fn store_captures(
        self,
        obj: Value,
        closure_ty: IrType,
        captured: Seq<Name>,
        from: int,
    ) -> State
        decreases captured.len() - from,
    {
        if from < 0 || from >= captured.len() {
            self
        } else {
            let (got, code) = self.var_retained_if_used_later(captured[from]);
            got.set_field(obj, closure_ty, (from + 2) as usize, code.ptr).store_captures(
                obj,
                closure_ty,
                captured,
                from + 1,
            )
        }
    }

    /// At the start of a branch: the variables of `names` that the branch
    /// itself (`used`) does not use and that are not used later are
    /// released.
    pub open spec fn release_unused(self, names: Seq<Name>, used: Seq<Name>, from: int) -> State
        decreases names.len() - from,
    {
        if from < 0 || from >= names.len() {
            self
        } else {
            let next = if !used.contains(names[from]) && top(self.scope, names[from]).used_later
                == 0 {
                self.release(top(self.scope, names[from]).code.ptr)
            } else {
                self
            };
            next.release_unused(names, used, from + 1)
        }
    }

    /// The block that the builder stands in.
    pub open spec fn current_block(self) -> usize {
        self.cursor->Some_0
    }

    /// The function that the builder stands in.
    pub open spec fn current_function(self) -> usize {
        self.blocks[self.cursor->Some_0 as int].function
    }

    /// A fresh object of a two-field layout whose field 1 holds `value`.
    pub open spec fn constant(self, layout: Seq<ObjectFieldType>, name: Name, value: Value) -> (
        State,
        Value,
    ) {
        let (allocated, obj) = self.allocate(layout, Some(name));
        let (s1, ty) = allocated.intern(layout);
        (s1.set_field(obj, ty, 1, value), obj)
    }

    /// The two integer operands of a literal are taken from the scope and
    /// their values loaded. Yields the two objects and the two values.
    pub open spec fn int_operands(self, names: Seq<Name>) -> (State, Value, Value, Value, Value) {
        let (s1, lhs) = self.var_retained_if_used_later(names[0]);
        let (s2, rhs) = s1.var_retained_if_used_later(names[1]);
        let (s3, ty) = s2.intern(int_layout());
        let (s4, l) = s3.load_field(lhs.ptr, ty, 1);
        let (s5, r) = s4.load_field(rhs.ptr, ty, 1);
        (s5, lhs.ptr, rhs.ptr, l, r)
    }

    /// What a literal emits.
    pub open spec fn literal(self, generator: LiteralGenerator, names: Seq<Name>, name: Name) -> (
        State,
        Value,
    ) {
        match generator {
            LiteralGenerator::Int(v) => self.constant(int_layout(), name, const_int64(v as u64)),
            LiteralGenerator::Bool(v) => self.constant(
                bool_layout(),
                name,
                const_int8(if v { 1 } else { 0 }),
            ),
            LiteralGenerator::IntAdd => {
                let (s1, lhs, rhs, l, r) = self.int_operands(names);
                let sum = s1.next_value(IrType { base: BaseType::Int64, depth: 0 });
                let s2 = s1.emit(Inst::IntAdd { lhs: l, rhs: r });
                let (s3, obj) = s2.constant(int_layout(), name, sum);
                (s3.release(lhs).release(rhs), obj)
            },
            LiteralGenerator::IntEq => {
                let (s1, lhs, rhs, l, r) = self.int_operands(names);
                let bit = s1.next_value(IrType { base: BaseType::Int1, depth: 0 });
                let s2 = s1.emit(Inst::IntEq { lhs: l, rhs: r });
                let byte = s2.next_value(IrType { base: BaseType::Int8, depth: 0 });
                let s3 = s2.emit(
                    Inst::IntCast { value: bit, to: IrType { base: BaseType::Int8, depth: 0 } },
                );
                let (s4, obj) = s3.constant(bool_layout(), name, byte);
                (s4.release(lhs).release(rhs), obj)
            },
            LiteralGenerator::Fix => {
                let (s1, fixf) = self.var_retained_if_used_later(names[0]);
                let (s2, x) = s1.var_retained_if_used_later(names[2]);
                let (s3, f) = s2.var_retained_if_used_later(names[1]);
                let (s4, f_fixf) = s3.app(f.ptr, fixf.ptr);
                s4.app(f_fixf, x.ptr)
            },
            LiteralGenerator::NewArray => self.runtime_literal(
                RuntimeFunctions::ArrayNew,
                names,
            ),
            LiteralGenerator::ReadArray => self.runtime_literal(
                RuntimeFunctions::ArrayRead,
                names,
            ),
            LiteralGenerator::WriteArray => self.runtime_literal(
                RuntimeFunctions::ArrayWrite,
                names,
            ),
            LiteralGenerator::WriteArrayUnique => self.runtime_literal(
                RuntimeFunctions::ArrayWriteUnique,
                names,
            ),
        }
    }

    /// A literal that hands its operands to a runtime function of two or
    /// three parameters and yields what the function returns.
    pub open spec fn runtime_literal(self, func: RuntimeFunctions, names: Seq<Name>) -> (
        State,
        Value,
    ) {
        let (s1, a) = self.var_retained_if_used_later(names[0]);
        let (s2, b) = s1.var_retained_if_used_later(names[1]);
        if crate::state::runtime_type(func).params == 2 {
            let (s3, r) = s2.call_runtime(func, Args::Two(a.ptr, b.ptr));
            (s3, r->Some_0)
        } else {
            let (s3, c) = s2.var_retained_if_used_later(names[2]);
            let (s4, r) = s3.call_runtime(func, Args::Three(a.ptr, b.ptr, c.ptr));
            (s4, r->Some_0)
        }
    }
}

/// The names that a lambda captures: the free variables of its body other
/// than its parameter and the closure itself, in the body's order.
pub open spec fn captured_names(body_free_vars: Seq<Name>, param: Name) -> Seq<Name> {
    without(without(body_free_vars, param), SELF_NAME@)
}

/// The names that are in `a` or in `b`.
pub open spec fn either(a: Seq<Name>, b: Seq<Name>) -> Set<Name> {
    a.to_set().union(b.to_set())
}

/// The number of nodes of a term.
pub open spec fn size(t: Term) -> nat
    decreases t,
{
    match t {
        Term::Var { name, term } => 1,
        Term::Lit { generator, free_vars, name } => 1,
        Term::App(f, a) => 1 + size(*f) + size(*a),
        Term::Lam(x, b) => 1 + size(*b),
        Term::Let(x, b, v) => 1 + size(*b) + size(*v),
        Term::If(c, t, e) => 1 + size(*c) + size(*t) + size(*e),
        Term::Type => 1,
    }
}

impl State {
    /// The start of a lambda's code: the builder moves to the entry block,
    /// the scope holds the parameter, the closure itself and what the
    /// closure captured, every captured object is retained, and the closure
    /// and the argument are released if the body does not use them.
    pub open spec fn lambda_entry(
        self,
        lam_fn: usize,
        bb: usize,
        closure_ty: IrType,
        param: Name,
        body_free_vars: Seq<Name>,
    ) -> State {
        let captured = captured_names(body_free_vars, param);
        let arg = parameter(lam_fn, 0);
        let closure = parameter(lam_fn, 1);
        let i0 = self.position_at_end(bb).with_scope(Seq::empty()).bind(param, arg).bind(
            SELF_NAME@,
            closure,
        );
        let i1 = i0.load_captures(closure, closure_ty, captured, 0);
        let i2 = i1.retain_captures(captured, 0);
        let i3 = if !body_free_vars.contains(SELF_NAME@) {
            i2.release(closure)
        } else {
            i2
        };
        if !body_free_vars.contains(param) {
            i3.release(arg)
        } else {
            i3
        }
    }

    /// The end of a lambda's code: the body's value is returned.
    pub open spec fn lambda_return(self, val: Value) -> State {
        let (s, ptr) = self.pointer_cast(val, object_pointer());
        s.emit(Inst::Ret { result: Some(ptr) })
    }

    /// The closure object: allocated, its code stored in field 1 and the
    /// captured variables in the fields after it.
    pub open spec fn closure(
        self,
        closure_ty: IrType,
        lam_fn: usize,
        captured: Seq<Name>,
        name: Seq<char>,
    ) -> (State, Value) {
        let (o1, obj) = self.allocate(closure_layout(captured.len()), Some(name));
        let o2 = o1.set_field(obj, closure_ty, 1, function_address(lam_fn, lambda_type()));
        (o2.store_captures(obj, closure_ty, captured, 0), obj)
    }

    /// The test of a conditional: the boolean is loaded from the condition
    /// object, the object is released, and control branches on the boolean
    /// to one of two new blocks. Yields the blocks of the two branches and
    /// the block where they meet again.
    pub open spec fn branch_on(self, cond_obj: Value) -> (State, usize, usize, usize) {
        let (s3, bool_ty) = self.intern(bool_layout());
        let (s4, cond_val) = s3.load_field(cond_obj, bool_ty, 1);
        let s5 = s4.release(cond_obj);
        let cond = s5.next_value(IrType { base: BaseType::Int1, depth: 0 });
        let s6 = s5.emit(
            Inst::IntCast { value: cond_val, to: IrType { base: BaseType::Int1, depth: 0 } },
        );
        let func = s6.current_function();
        let (s7, then_bb) = s6.append_block(func, BlockName::Then);
        let (s8, else_bb) = s7.append_block(func, BlockName::Else);
        let (s9, cont_bb) = s8.append_block(func, BlockName::Cont);
        (
            s9.emit(Inst::CondBr { cond, then_block: then_bb, else_block: else_bb }),
            then_bb,
            else_bb,
            cont_bb,
        )
    }

    /// The start of a branch: the builder moves to the branch's block, and
    /// the variables that only the other branch uses are released unless
    /// they are used later.
    pub open spec fn enter_branch(self, bb: usize, other: Seq<Name>, own: Seq<Name>) -> State {
        self.position_at_end(bb).release_unused(other, own, 0)
    }

    /// Where the branches meet: the value of the conditional is that of the
    /// branch that was taken. `then_bb` and `else_bb` are the blocks in which
    /// the branches end, from which control comes to the meeting block.
    pub open spec fn join(
        self,
        cont_bb: usize,
        then_val: Value,
        then_bb: usize,
        else_val: Value,
        else_bb: usize,
    ) -> (State, Value) {
        let c0 = self.position_at_end(cont_bb);
        (
            c0.emit(
                Inst::Phi {
                    ty: object_pointer(),
                    first: then_val,
                    first_block: then_bb,
                    second: else_val,
                    second_block: else_bb,
                },
            ),
            c0.next_value(object_pointer()),
        )
    }
}

/// What is emitted for a variable.
pub open spec fn emit_var(name: Name, st: State) -> (State, Value) {
    let (s, code) = st.var_retained_if_used_later(name);
    (s, code.ptr)
}

/// What is emitted for an application. While the function is compiled, the
/// variables of the argument count as used later.
pub open spec fn emit_app(f: ExprInfo, a: ExprInfo, st: State) -> (State, Value)
    decreases 2 * (size(f@) + size(a@)) + 1,
{
    let later = a.free_vars@.to_set();
    let (s1, lambda) = emit_expr(f, st.bump(later, 1));
    let (s2, arg) = emit_expr(a, s1.bump(later, -1));
    s2.app(lambda, arg)
}

/// What is emitted for a lambda: a new function that holds the body's code,
/// and, where the lambda stands, the closure object.
pub open spec fn emit_lam(param: Name, b: ExprInfo, st: State) -> (State, Value)
    decreases 2 * size(b@) + 1,
{
    let captured = captured_names(b.free_vars@, param);
    let (s1, closure_ty) = st.intern(closure_layout(captured.len()));
    let (s2, lam_fn) = s1.add_function(FunctionKind::Lambda, lambda_type());
    let (s3, bb) = s2.append_block(lam_fn, BlockName::Entry);
    let entered = s3.lambda_entry(lam_fn, bb, closure_ty, param, b.free_vars@);
    let (body, val) = emit_expr(b, entered);
    let outside = body.lambda_return(val).with_cursor(st.cursor).with_scope(st.scope);
    outside.closure(closure_ty, lam_fn, captured, text(Term::Lam(param, Box::new(b@))))
}

/// What is emitted for a `let`. While the bound expression is compiled, the
/// variables of the body other than the bound name count as used later. The
/// bound expression does not see the name it is bound to.
pub open spec fn emit_let(name: Name, b: ExprInfo, v: ExprInfo, st: State) -> (State, Value)
    decreases 2 * (size(b@) + size(v@)) + 1,
{
    let later = v.free_vars@.to_set().remove(name);
    let (s1, bound) = emit_expr(b, st.bump(later, 1));
    let s2 = s1.bump(later, -1).bind(name, bound);
    let s3 = if !v.free_vars@.contains(name) {
        s2.release(bound)
    } else {
        s2
    };
    let (s4, val) = emit_expr(v, s3);
    (s4.with_scope(popped(s4.scope, name)), val)
}

/// What is emitted for a conditional. While the condition is compiled, the
/// variables of both branches count as used later. Each branch jumps to the
/// meeting block from the block in which its code ends, which is not the
/// block in which it starts where the branch holds a conditional itself.
pub open spec fn emit_if(c: ExprInfo, t: ExprInfo, e: ExprInfo, st: State) -> (State, Value)
    decreases 2 * (size(c@) + size(t@) + size(e@)) + 1,
{
    let later = either(t.free_vars@, e.free_vars@);
    let (s1, cond_obj) = emit_expr(c, st.bump(later, 1));
    let (s2, then_bb, else_bb, cont_bb) = s1.bump(later, -1).branch_on(cond_obj);
    let (t1, then_val) = emit_expr(t, s2.enter_branch(then_bb, e.free_vars@, t.free_vars@));
    let t2 = t1.emit(Inst::Br { block: cont_bb });
    let (e1, else_val) = emit_expr(e, t2.enter_branch(else_bb, t.free_vars@, e.free_vars@));
    let e2 = e1.emit(Inst::Br { block: cont_bb });
    e2.join(cont_bb, then_val, t1.current_block(), else_val, e1.current_block())
}

/// What is emitted for an expression, and the value it yields: always an
/// object pointer.
pub open spec fn emit_expr(e: ExprInfo, st: State) -> (State, Value)
    decreases 2 * size(e@),
{
    let (emitted, value) = match *e.expr {
        Expr::Var(v) => emit_var(v.spec_name(), st),
        Expr::Lit(l) => st.literal(l.generator, names_of(l.free_vars@), l.name@),
        Expr::App(f, a) => emit_app(*f, *a, st),
        Expr::Lam(x, b) => emit_lam(x.spec_name(), *b, st),
        Expr::Let(x, b, v) => emit_let(x.spec_name(), *b, *v, st),
        Expr::If(c, t, e) => emit_if(*c, *t, *e, st),
        Expr::Type(_) => (st, parameter(0, 0)),
    };
    emitted.pointer_cast(value, object_pointer())
}

} // verus!
