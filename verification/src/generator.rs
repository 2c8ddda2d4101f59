//! The expression compiler: code is emitted for each form of expression,
//! with retains and releases placed so that every object is freed exactly
//! once.

use crate::ast::{
    annotated, free_vars, lam, names_of, text, type_free, Expr, ExprInfo, Term, Var, SELF_NAME,
};
use crate::builtin::{generate_literal, operands_bound};
use crate::context::{lemma_sizes, GenerationContext};
use crate::emission::{
    captured_names, either, emit_app, emit_expr, emit_if, emit_lam, emit_let, emit_var, size,
};
use crate::ir::{
    object_pointer, BaseType, BlockName, Builder, FunctionKind, Inst, IrType, Value, ValueKind,
};
use crate::names::{distinct, lemma_merged, lemma_without, merged, without, Name, NameSet};
use crate::scope::{
    bound, bump_fits, bumped, is_top, lemma_bump_back, lemma_bumped_lookup, lemma_push_pop,
    lemma_top_index, popped, top, Bound, ExprCode, LocalVariable, LocalVariables,
};
use crate::state::{
    advanced, code_added, grows, lambda_type, lemma_advanced_frame, lemma_advanced_keeps,
    lemma_advanced_trans, lemma_code_added_advances, lemma_fields_grow, lemma_intern,
    one_destructor_per_layout, shape_from, tail_call_shape, typed, State,
};
use crate::types::{
    bool_layout, closure_layout, lambda_function_type, ptr_to_object_type, ObjectFieldType,
    ObjectType,
};
use std::sync::Arc;
use vstd::prelude::*;

verus! {

/// Every name of `names` is bound.
#[verifier::opaque]
pub open spec fn covered(scope: Seq<Bound>, names: Seq<Name>) -> bool {
    forall|i: int| 0 <= i < names.len() ==> bound(scope, #[trigger] names[i])
}

/// Every counter can still grow by `n`.
#[verifier::opaque]
pub open spec fn headroom(scope: Seq<Bound>, n: nat) -> bool {
    forall|i: int| 0 <= i < scope.len() ==> (#[trigger] scope[i]).var.used_later + n <= u32::MAX
}

/// The term can be compiled: its variables are term variables, its literals
/// name the operands that their generators read, and it holds no type node.
pub open spec fn compilable(t: Term) -> bool
    decreases t,
{
    match t {
        Term::Var { name, term } => term,
        Term::Lit { generator, free_vars, name } => free_vars.len() >= generator.arity(),
        Term::App(f, a) => compilable(*f) && compilable(*a),
        Term::Lam(x, b) => compilable(*b),
        Term::Let(x, b, v) => compilable(*b) && compilable(*v),
        Term::If(c, t, e) => compilable(*c) && compilable(*t) && compilable(*e),
        Term::Type => false,
    }
}

/// The state allows the emission of `n` nested expressions: the runtime
/// functions are declared, the builder stands in a block, the variables in
/// scope are object pointers and their counters have room.
pub open spec fn fit(st: State, n: nat) -> bool {
    &&& st.has_runtime()
    &&& st.positioned()
    &&& st.scope_typed()
    &&& headroom(st.scope, n)
    &&& n <= u32::MAX
}

/// The expression can be compiled in the state.
pub open spec fn ready(st: State, e: ExprInfo) -> bool {
    &&& annotated(e)
    &&& compilable(e@)
    &&& fit(st, size(e@))
    &&& covered(st.scope, e.free_vars@)
}

/// What the compilation of an expression leaves: more code, the scope as it
/// was, the builder in a block, and an object pointer as the value.
pub open spec fn compiled(a: State, b: State, v: Value) -> bool {
    &&& advanced(a, b)
    &&& b.scope == a.scope
    &&& b.positioned()
    &&& b.has_runtime()
    &&& v.ty == object_pointer()
}

/// A term that can be compiled has a text.
pub proof fn lemma_compilable_type_free(t: Term)
    requires
        compilable(t),
    ensures
        type_free(t),
    decreases t,
{
    match t {
        Term::App(f, a) => {
            lemma_compilable_type_free(*f);
            lemma_compilable_type_free(*a);
        },
        Term::Lam(x, b) => {
            lemma_compilable_type_free(*b);
        },
        Term::Let(x, b, v) => {
            lemma_compilable_type_free(*b);
            lemma_compilable_type_free(*v);
        },
        Term::If(c, t, e) => {
            lemma_compilable_type_free(*c);
            lemma_compilable_type_free(*t);
            lemma_compilable_type_free(*e);
        },
        _ => {},
    }
}

/// A covered name is bound.
pub proof fn lemma_covered_get(scope: Seq<Bound>, names: Seq<Name>, i: int)
    requires
        covered(scope, names),
        0 <= i < names.len(),
    ensures
        bound(scope, names[i]),
{
    reveal(covered);
}

/// A scope that covers a set of names covers each of its subsets.
pub proof fn lemma_covered_subset(scope: Seq<Bound>, big: Seq<Name>, small: Seq<Name>)
    requires
        covered(scope, big),
        small.to_set().subset_of(big.to_set()),
    ensures
        covered(scope, small),
{
    reveal(covered);
    assert forall|i: int| 0 <= i < small.len() implies bound(scope, #[trigger] small[i]) by {
        assert(small.to_set().contains(small[i]));
        assert(big.to_set().contains(small[i]));
        let j = choose|j: int| 0 <= j < big.len() && big[j] == small[i];
        assert(bound(scope, big[j]));
    }
}

/// What a bump by one does to a scope whose counters have room.
pub proof fn lemma_bump_up(scope: Seq<Bound>, names: Set<Name>, n: nat, covers: Seq<Name>)
    requires
        headroom(scope, n + 1),
        covered(scope, covers),
    ensures
        bump_fits(scope, names, 1),
        headroom(bumped(scope, names, 1), n),
        typed(scope) ==> typed(bumped(scope, names, 1)),
        covered(bumped(scope, names, 1), covers),
        bump_fits(bumped(scope, names, 1), names, -1),
        bumped(bumped(scope, names, 1), names, -1) == scope,
{
    reveal(headroom);
    reveal(covered);
    reveal(typed);
    let b = bumped(scope, names, 1);
    assert forall|i: int|
        0 <= i < scope.len() && names.contains(#[trigger] scope[i].name) && is_top(
            scope,
            i,
        ) implies 0 <= scope[i].var.used_later + 1 <= u32::MAX by {}
    lemma_bump_back(scope, names, 1);
    assert forall|i: int| 0 <= i < b.len() implies (#[trigger] b[i]).var.used_later + n
        <= u32::MAX by {
        assert(scope[i].var.used_later + (n + 1) <= u32::MAX);
    }
    assert forall|i: int| 0 <= i < covers.len() implies bound(b, #[trigger] covers[i]) by {
        lemma_bumped_lookup(scope, names, 1, covers[i]);
    }
    if typed(scope) {
        assert forall|i: int| 0 <= i < b.len() implies (#[trigger] b[i]).var.code.ptr.ty
            == object_pointer() by {
            assert(scope[i].var.code.ptr.ty == object_pointer());
        }
    }
}

/// A scope whose variables are object pointers yields an object pointer for
/// every bound name.
pub proof fn lemma_typed_top(scope: Seq<Bound>, name: Name)
    requires
        typed(scope),
        bound(scope, name),
    ensures
        top(scope, name).code.ptr.ty == object_pointer(),
{
    reveal(typed);
    lemma_top_index(scope, name);
}

/// The empty scope has every property of a scope.
pub proof fn lemma_empty_scope(n: nat)
    ensures
        typed(Seq::<Bound>::empty()),
        headroom(Seq::<Bound>::empty(), n),
{
    reveal(typed);
    reveal(headroom);
}

/// What a new binding does to a scope.
pub proof fn lemma_bind(scope: Seq<Bound>, name: Name, ptr: Value, n: nat, covers: Seq<Name>)
    requires
        ptr.ty == object_pointer(),
        n <= u32::MAX,
        covered(scope, covers),
    ensures
        ({
            let b = Bound { name, var: LocalVariable { code: ExprCode { ptr }, used_later: 0 } };
            &&& typed(scope) ==> typed(scope.push(b))
            &&& headroom(scope, n) ==> headroom(scope.push(b), n)
            &&& bound(scope.push(b), name)
            &&& covered(scope.push(b), covers)
            &&& popped(scope.push(b), name) == scope
        }),
{
    reveal(typed);
    reveal(headroom);
    reveal(covered);
    let b = Bound { name, var: LocalVariable { code: ExprCode { ptr }, used_later: 0 } };
    lemma_push_pop(scope, b);
    let p = scope.push(b);
    if typed(scope) {
        assert forall|i: int| 0 <= i < p.len() implies (#[trigger] p[i]).var.code.ptr.ty
            == object_pointer() by {
            if i < scope.len() {
                assert(scope[i].var.code.ptr.ty == object_pointer());
            }
        }
    }
    if headroom(scope, n) {
        assert forall|i: int| 0 <= i < p.len() implies (#[trigger] p[i]).var.used_later + n
            <= u32::MAX by {
            if i < scope.len() {
                assert(scope[i].var.used_later + n <= u32::MAX);
            }
        }
    }
}

/// Counters with room for `n` have room for less.
pub proof fn lemma_headroom_less(scope: Seq<Bound>, n: nat, m: nat)
    requires
        headroom(scope, n),
        m <= n,
    ensures
        headroom(scope, m),
{
    reveal(headroom);
    assert forall|i: int| 0 <= i < scope.len() implies (#[trigger] scope[i]).var.used_later + m
        <= u32::MAX by {
        assert(scope[i].var.used_later + n <= u32::MAX);
    }
}

/// What the readiness of an expression gives for its parts.
pub proof fn lemma_ready_parts(st: State, e: &ExprInfo)
    requires
        ready(st, *e),
    ensures
        match *e.expr {
            Expr::Var(v) => v.is_term() && bound(st.scope, v.spec_name()) && fit(st, 1),
            Expr::Lit(l) => operands_bound(st, names_of(l.free_vars@), l.generator.arity()),
            Expr::App(f, a) => {
                &&& annotated(*f) && annotated(*a) && compilable(f@) && compilable(a@)
                &&& fit(st, 1 + size(f@) + size(a@))
                &&& covered(st.scope, f.free_vars@)
                &&& covered(st.scope, a.free_vars@)
            },
            Expr::Lam(x, b) => {
                &&& annotated(*b) && compilable(b@)
                &&& fit(st, 1 + size(b@))
                &&& covered(st.scope, captured_names(b.free_vars@, x.spec_name()))
            },
            Expr::Let(x, b, v) => {
                &&& annotated(*b) && annotated(*v) && compilable(b@) && compilable(v@)
                &&& fit(st, 1 + size(b@) + size(v@))
                &&& covered(st.scope, b.free_vars@)
                &&& covered(st.scope, without(v.free_vars@, x.spec_name()))
            },
            Expr::If(c, t, el) => {
                &&& annotated(*c) && annotated(*t) && annotated(*el)
                &&& compilable(c@) && compilable(t@) && compilable(el@)
                &&& fit(st, 1 + size(c@) + size(t@) + size(el@))
                &&& covered(st.scope, c.free_vars@)
                &&& covered(st.scope, t.free_vars@)
                &&& covered(st.scope, el.free_vars@)
            },
            Expr::Type(_) => false,
        },
{
    assert(e.free_vars.as_set() == free_vars(e@));
    match *e.expr {
        Expr::Var(v) => {
            assert(e.free_vars.as_set().contains(v.spec_name()));
            let j = choose|j: int| 0 <= j < e.free_vars@.len() && e.free_vars@[j] == v.spec_name();
            lemma_covered_get(st.scope, e.free_vars@, j);
            lemma_headroom_less(st.scope, size(e@), 1);
        },
        Expr::Lit(l) => {
            let names = names_of(l.free_vars@);
            assert forall|i: int| 0 <= i < l.generator.arity() implies bound(
                st.scope,
                #[trigger] names[i],
            ) && top(st.scope, names[i]).code.ptr.ty == object_pointer() by {
                assert(names.to_set().contains(names[i]));
                assert(e.free_vars.as_set().contains(names[i]));
                let j = choose|j: int| 0 <= j < e.free_vars@.len() && e.free_vars@[j] == names[i];
                lemma_covered_get(st.scope, e.free_vars@, j);
                lemma_typed_top(st.scope, names[i]);
            }
        },
        Expr::App(f, a) => {
            assert(e@ == Term::App(Box::new(f@), Box::new(a@)));
            assert(annotated(*f));
            assert(annotated(*a));
            assert(free_vars(e@) == free_vars(f@).union(free_vars(a@)));
            assert(f.free_vars@.to_set().subset_of(e.free_vars@.to_set()));
            assert(a.free_vars@.to_set().subset_of(e.free_vars@.to_set()));
            lemma_covered_subset(st.scope, e.free_vars@, f.free_vars@);
            lemma_covered_subset(st.scope, e.free_vars@, a.free_vars@);
        },
        Expr::Lam(x, b) => {
            assert(e@ == Term::Lam(x.spec_name(), Box::new(b@)));
            assert(annotated(*b));
            assert(free_vars(e@) == free_vars(b@).remove(x.spec_name()).remove(SELF_NAME@));
            let captured = captured_names(b.free_vars@, x.spec_name());
            lemma_without(b.free_vars@, x.spec_name());
            lemma_without(without(b.free_vars@, x.spec_name()), SELF_NAME@);
            assert(captured.to_set() =~= e.free_vars.as_set());
            lemma_covered_subset(st.scope, e.free_vars@, captured);
        },
        Expr::Let(x, b, v) => {
            assert(e@ == Term::Let(x.spec_name(), Box::new(b@), Box::new(v@)));
            assert(annotated(*b));
            assert(annotated(*v));
            assert(free_vars(e@) == free_vars(v@).remove(x.spec_name()).union(free_vars(b@)));
            let rest = without(v.free_vars@, x.spec_name());
            lemma_without(v.free_vars@, x.spec_name());
            assert(b.free_vars@.to_set().subset_of(e.free_vars@.to_set()));
            assert(rest.to_set().subset_of(e.free_vars@.to_set()));
            lemma_covered_subset(st.scope, e.free_vars@, b.free_vars@);
            lemma_covered_subset(st.scope, e.free_vars@, rest);
        },
        Expr::If(c, t, el) => {
            assert(e@ == Term::If(Box::new(c@), Box::new(t@), Box::new(el@)));
            assert(annotated(*c));
            assert(annotated(*t));
            assert(annotated(*el));
            assert(free_vars(e@) == free_vars(c@).union(free_vars(t@)).union(free_vars(el@)));
            assert(c.free_vars@.to_set().subset_of(e.free_vars@.to_set()));
            assert(t.free_vars@.to_set().subset_of(e.free_vars@.to_set()));
            assert(el.free_vars@.to_set().subset_of(e.free_vars@.to_set()));
            lemma_covered_subset(st.scope, e.free_vars@, c.free_vars@);
            lemma_covered_subset(st.scope, e.free_vars@, t.free_vars@);
            lemma_covered_subset(st.scope, e.free_vars@, el.free_vars@);
        },
        Expr::Type(_) => {},
    }
}

/// A scope that covers the free variables of a `let`'s body other than the
/// bound name covers all of them once the name is bound.
pub proof fn lemma_let_body_covered(scope: Seq<Bound>, names: Seq<Name>, b: Bound)
    requires
        covered(scope, without(names, b.name)),
    ensures
        covered(scope.push(b), names),
{
    reveal(covered);
    lemma_without(names, b.name);
    lemma_push_pop(scope, b);
    assert forall|i: int| 0 <= i < names.len() implies bound(scope.push(b), #[trigger] names[i]) by {
        let n = names[i];
        if n != b.name {
            assert(names.contains(n));
            assert(without(names, b.name).contains(n));
            let j = choose|j: int|
                0 <= j < without(names, b.name).len() && without(names, b.name)[j] == n;
            assert(bound(scope, without(names, b.name)[j]));
        }
    }
}

/// A scope that covers two sets of names covers their union.
pub proof fn lemma_either_covered(scope: Seq<Bound>, a: Seq<Name>, b: Seq<Name>)
    requires
        covered(scope, a),
        covered(scope, b),
    ensures
        covered(scope, merged(a, b)),
        merged(a, b).to_set() == either(a, b),
        distinct(a) ==> distinct(merged(a, b)),
{
    reveal(covered);
    let both = merged(a, b);
    lemma_merged(a, b);
    assert(both.to_set() =~= either(a, b));
    assert forall|i: int| 0 <= i < both.len() implies bound(scope, #[trigger] both[i]) by {
        let n = both[i];
        assert(both.contains(n));
        if a.contains(n) {
            let j = choose|j: int| 0 <= j < a.len() && a[j] == n;
            assert(bound(scope, a[j]));
        } else {
            let j = choose|j: int| 0 <= j < b.len() && b[j] == n;
            assert(bound(scope, b[j]));
        }
    }
}

/// The scope at the start of a lambda's code covers the free variables of
/// the body.
pub proof fn lemma_lambda_scope_covers(scope: Seq<Bound>, names: Seq<Name>, param: Name)
    requires
        bound(scope, param),
        bound(scope, SELF_NAME@),
        forall|k: int|
            0 <= k < captured_names(names, param).len() ==> bound(
                scope,
                #[trigger] captured_names(names, param)[k],
            ),
    ensures
        covered(scope, names),
        covered(scope, captured_names(names, param)),
{
    reveal(covered);
    let captured = captured_names(names, param);
    lemma_without(names, param);
    lemma_without(without(names, param), SELF_NAME@);
    assert forall|j: int| 0 <= j < names.len() implies bound(scope, #[trigger] names[j]) by {
        let n = names[j];
        if n != param && n != SELF_NAME@ {
            assert(names.contains(n));
            assert(without(names, param).contains(n));
            assert(captured.contains(n));
            let c = choose|c: int| 0 <= c < captured.len() && captured[c] == n;
            assert(bound(scope, captured[c]));
        }
    }
}

/// Moves the counters of `names` up by one, for the time in which code is
/// emitted that comes before the uses of `names`.
fn used_later(
    gc: &mut GenerationContext,
    names: &NameSet,
    Ghost(n): Ghost<nat>,
    Ghost(covers): Ghost<Seq<Name>>,
)
    requires
        names.wf(),
        covered(old(gc)@.scope, names@),
        covered(old(gc)@.scope, covers),
        fit(old(gc)@, n + 1),
    ensures
        final(gc)@ == old(gc)@.bump(names.as_set(), 1),
        fit(final(gc)@, n),
        covered(final(gc)@.scope, covers),
        advanced(old(gc)@, final(gc)@),
        bump_fits(old(gc)@.scope, names.as_set(), 1),
{
    proof {
        lemma_bump_up(gc@.scope, names.as_set(), n, covers);
        reveal(covered);
    }
    gc.scope.increment_used_later(names);
    proof {
        lemma_advanced_frame(old(gc)@, gc@);
    }
}

/// Moves the counters of `names` down again.
fn used_now(gc: &mut GenerationContext, names: &NameSet, Ghost(before): Ghost<Seq<Bound>>)
    requires
        names.wf(),
        covered(before, names@),
        bump_fits(before, names.as_set(), 1),
        old(gc)@.scope == bumped(before, names.as_set(), 1),
    ensures
        final(gc)@ == old(gc)@.bump(names.as_set(), -1),
        final(gc)@.scope == before,
        advanced(old(gc)@, final(gc)@),
{
    proof {
        reveal(covered);
        lemma_bump_back(before, names.as_set(), 1);
        assert forall|i: int| 0 <= i < names@.len() implies bound(gc@.scope, names@[i]) by {
            lemma_bumped_lookup(before, names.as_set(), 1, names@[i]);
        }
    }
    gc.scope.decrement_used_later(names);
    proof {
        lemma_advanced_frame(old(gc)@, gc@);
    }
}

/// Emits the code of an expression. The value it yields is an object
/// pointer.
///
/// The tree must carry its free variables and be well formed, every free
/// variable of it must be bound in the scope to an object pointer, and the
/// counters of the scope must have room for the size of the tree. The code
/// that is emitted is exactly that of the compilation scheme; it leaves the
/// scope as it was, in it every call that applies a closure is marked as a
/// tail call, and it leaves every layout with at most one destructor.
pub fn generate_expr(expr: Arc<ExprInfo>, gc: &mut GenerationContext) -> (code: ExprCode)
    requires
        ready(old(gc)@, *expr),
    ensures
        final(gc)@ == emit_expr(*expr, old(gc)@).0,
        code.ptr == emit_expr(*expr, old(gc)@).1,
        compiled(old(gc)@, final(gc)@, code.ptr),
        shape_from(final(gc)@.code, old(gc)@.code.len() as int),
        tail_call_shape(old(gc)@.code) ==> tail_call_shape(final(gc)@.code),
        one_destructor_per_layout(old(gc)@.functions, old(gc)@.runtimes)
            ==> one_destructor_per_layout(final(gc)@.functions, final(gc)@.runtimes),
    decreases 3 * size(expr@),
{
    let ghost start = gc@;
    proof {
        lemma_ready_parts(gc@, &expr);
    }
    let ret = match &*expr.expr {
        Expr::Var(var) => generate_var(var.clone(), gc),
        Expr::Lit(lit) => generate_literal(lit.clone(), gc),
        Expr::App(lambda, arg) => generate_app(lambda.clone(), arg.clone(), gc),
        Expr::Lam(arg, val) => generate_lam(arg.clone(), val.clone(), gc),
        Expr::Let(var, bound_expr, val) => generate_let(
            var.clone(),
            bound_expr.clone(),
            val.clone(),
            gc,
        ),
        Expr::If(cond_expr, then_expr, else_expr) => generate_if(
            cond_expr.clone(),
            then_expr.clone(),
            else_expr.clone(),
            gc,
        ),
        Expr::Type(_) => vstd::pervasive::unreached(),
    };
    let ghost emitted = gc@;
    let ptr = gc.build_pointer_cast(ret.ptr, ptr_to_object_type());
    proof {
        lemma_advanced_keeps(start, emitted);
        lemma_code_added_advances(emitted, gc@);
        lemma_advanced_trans(start, emitted, gc@);
        lemma_advanced_keeps(start, gc@);
    }
    ExprCode { ptr }
}

/// Emits the code of a variable: its value, retained if the variable is
/// used again later.
fn generate_var(var: Arc<Var>, gc: &mut GenerationContext) -> (code: ExprCode)
    requires
        var.is_term(),
        fit(old(gc)@, 1),
        bound(old(gc)@.scope, var.spec_name()),
    ensures
        final(gc)@ == emit_var(var.spec_name(), old(gc)@).0,
        code.ptr == emit_var(var.spec_name(), old(gc)@).1,
        advanced(old(gc)@, final(gc)@),
        final(gc)@.scope == old(gc)@.scope,
        final(gc)@.cursor == old(gc)@.cursor,
        final(gc)@.has_runtime(),
        code.ptr.ty == object_pointer(),
{
    proof {
        lemma_typed_top(gc@.scope, var.spec_name());
    }
    let code = gc.get_var_retained_if_used_later(var.name().as_str());
    proof {
        lemma_code_added_advances(old(gc)@, gc@);
    }
    code
}

/// Emits the code of an application.
fn generate_app(lambda: Arc<ExprInfo>, arg: Arc<ExprInfo>, gc: &mut GenerationContext) -> (code:
    ExprCode)
    requires
        annotated(*lambda),
        annotated(*arg),
        compilable(lambda@),
        compilable(arg@),
        fit(old(gc)@, 1 + size(lambda@) + size(arg@)),
        covered(old(gc)@.scope, lambda.free_vars@),
        covered(old(gc)@.scope, arg.free_vars@),
    ensures
        final(gc)@ == emit_app(*lambda, *arg, old(gc)@).0,
        code.ptr == emit_app(*lambda, *arg, old(gc)@).1,
        advanced(old(gc)@, final(gc)@),
        final(gc)@.scope == old(gc)@.scope,
        final(gc)@.cursor is Some,
        final(gc)@.positioned(),
        final(gc)@.has_runtime(),
        code.ptr.ty == object_pointer(),
    decreases 3 * (size(lambda@) + size(arg@)) + 1,
{
    let ghost start = gc@;
    proof {
        lemma_headroom_less(gc@.scope, 1 + size(lambda@) + size(arg@), size(lambda@) + 1);
        lemma_headroom_less(gc@.scope, 1 + size(lambda@) + size(arg@), size(arg@));
    }
    used_later(gc, &arg.free_vars, Ghost(size(lambda@)), Ghost(lambda.free_vars@));
    let ghost s0 = gc@;
    let lambda_code = generate_expr(lambda, gc);
    let ghost s1 = gc@;
    used_now(gc, &arg.free_vars, Ghost(start.scope));
    let ghost s2 = gc@;
    let arg_code = generate_expr(arg, gc);
    let ghost s3 = gc@;
    let code = gc.build_app(lambda_code.ptr, arg_code.ptr);
    proof {
        lemma_advanced_trans(start, s0, s1);
        lemma_advanced_trans(start, s1, s2);
        lemma_advanced_trans(start, s2, s3);
        lemma_advanced_trans(start, s3, gc@);
        lemma_advanced_keeps(s3, gc@);
    }
    code
}

/// Emits the code of a `let`.
fn generate_let(
    var: Arc<Var>,
    bound_expr: Arc<ExprInfo>,
    val: Arc<ExprInfo>,
    gc: &mut GenerationContext,
) -> (code: ExprCode)
    requires
        annotated(*bound_expr),
        annotated(*val),
        compilable(bound_expr@),
        compilable(val@),
        fit(old(gc)@, 1 + size(bound_expr@) + size(val@)),
        covered(old(gc)@.scope, bound_expr.free_vars@),
        covered(old(gc)@.scope, without(val.free_vars@, var.spec_name())),
    ensures
        final(gc)@ == emit_let(var.spec_name(), *bound_expr, *val, old(gc)@).0,
        code.ptr == emit_let(var.spec_name(), *bound_expr, *val, old(gc)@).1,
        advanced(old(gc)@, final(gc)@),
        final(gc)@.scope == old(gc)@.scope,
        final(gc)@.positioned(),
        final(gc)@.has_runtime(),
        code.ptr.ty == object_pointer(),
    decreases 3 * (size(bound_expr@) + size(val@)) + 2,
{
    let ghost start = gc@;
    let ghost name = var.spec_name();
    let var_name = var.name();
    let mut used_in_val_except_var = val.free_vars.clone();
    used_in_val_except_var.remove(var_name.as_str());
    proof {
        lemma_without(val.free_vars@, name);
        assert(used_in_val_except_var.as_set() =~= val.free_vars@.to_set().remove(name));
        lemma_headroom_less(gc@.scope, 1 + size(bound_expr@) + size(val@), size(bound_expr@) + 1);
        lemma_headroom_less(gc@.scope, 1 + size(bound_expr@) + size(val@), size(val@));
    }
    used_later(gc, &used_in_val_except_var, Ghost(size(bound_expr@)), Ghost(bound_expr.free_vars@));
    let ghost s0 = gc@;
    let bound_code = generate_expr(bound_expr, gc);
    let ghost s1 = gc@;
    used_now(gc, &used_in_val_except_var, Ghost(start.scope));
    let ghost s1b = gc@;
    let val_code = generate_let_body(var, bound_code, val, gc);
    proof {
        lemma_advanced_trans(start, s0, s1);
        lemma_advanced_trans(start, s1, s1b);
        lemma_advanced_trans(start, s1b, gc@);
    }
    val_code
}

/// Emits the body of a `let` with the bound name in scope. A bound value
/// that the body does not use is released at once.
fn generate_let_body(
    var: Arc<Var>,
    bound_code: ExprCode,
    val: Arc<ExprInfo>,
    gc: &mut GenerationContext,
) -> (code: ExprCode)
    requires
        annotated(*val),
        compilable(val@),
        fit(old(gc)@, size(val@)),
        covered(old(gc)@.scope, without(val.free_vars@, var.spec_name())),
        bound_code.ptr.ty == object_pointer(),
    ensures
        final(gc)@ == ({
            let s2 = old(gc)@.bind(var.spec_name(), bound_code.ptr);
            let s3 = if !val.free_vars@.contains(var.spec_name()) {
                s2.release(bound_code.ptr)
            } else {
                s2
            };
            let (s4, v) = emit_expr(*val, s3);
            s4.with_scope(popped(s4.scope, var.spec_name()))
        }),
        code.ptr == ({
            let s2 = old(gc)@.bind(var.spec_name(), bound_code.ptr);
            let s3 = if !val.free_vars@.contains(var.spec_name()) {
                s2.release(bound_code.ptr)
            } else {
                s2
            };
            emit_expr(*val, s3).1
        }),
        advanced(old(gc)@, final(gc)@),
        final(gc)@.scope == old(gc)@.scope,
        final(gc)@.positioned(),
        final(gc)@.has_runtime(),
        code.ptr.ty == object_pointer(),
    decreases 3 * size(val@) + 1,
{
    let ghost start = gc@;
    bind_variable(&var, bound_code, Ghost(size(val@)), Ghost(val.free_vars@), gc);
    let ghost s2 = gc@;
    if !val.free_vars.contains(var.name().as_str()) {
        gc.build_release(bound_code.ptr);
    }
    let ghost s3 = gc@;
    let val_code = generate_expr(val, gc);
    let ghost s4 = gc@;
    unbind_variable(&var, Ghost(start.scope), Ghost(bound_code), gc);
    proof {
        lemma_code_added_advances(s2, s3);
        lemma_advanced_trans(start, s2, s3);
        lemma_advanced_trans(start, s3, s4);
        lemma_advanced_trans(start, s4, gc@);
    }
    val_code
}

/// Binds the name of a `let` to the value of the bound expression.
fn bind_variable(
    var: &Arc<Var>,
    bound_code: ExprCode,
    Ghost(n): Ghost<nat>,
    Ghost(names): Ghost<Seq<Name>>,
    gc: &mut GenerationContext,
)
    requires
        fit(old(gc)@, n),
        covered(old(gc)@.scope, without(names, var.spec_name())),
        bound_code.ptr.ty == object_pointer(),
    ensures
        final(gc)@ == old(gc)@.bind(var.spec_name(), bound_code.ptr),
        final(gc)@.scope == old(gc)@.scope.push(
            Bound { name: var.spec_name(), var: LocalVariable { code: bound_code, used_later: 0 } },
        ),
        fit(final(gc)@, n),
        covered(final(gc)@.scope, names),
        advanced(old(gc)@, final(gc)@),
{
    let ghost start = gc@;
    let ghost name = var.spec_name();
    gc.scope.push(var.name().as_str(), &bound_code);
    proof {
        assert(covered(start.scope, Seq::<Name>::empty())) by {
            reveal(covered);
        }
        lemma_bind(start.scope, name, bound_code.ptr, n, Seq::empty());
        lemma_let_body_covered(
            start.scope,
            names,
            Bound { name, var: LocalVariable { code: bound_code, used_later: 0 } },
        );
        lemma_advanced_frame(start, gc@);
    }
}

/// Takes the name of a `let` out of the scope again.
fn unbind_variable(
    var: &Arc<Var>,
    Ghost(before): Ghost<Seq<Bound>>,
    Ghost(bound_code): Ghost<ExprCode>,
    gc: &mut GenerationContext,
)
    requires
        bound_code.ptr.ty == object_pointer(),
        old(gc)@.scope == before.push(
            Bound { name: var.spec_name(), var: LocalVariable { code: bound_code, used_later: 0 } },
        ),
    ensures
        final(gc)@ == old(gc)@.with_scope(popped(old(gc)@.scope, var.spec_name())),
        final(gc)@.scope == before,
        advanced(old(gc)@, final(gc)@),
{
    proof {
        assert(covered(before, Seq::<Name>::empty())) by {
            reveal(covered);
        }
        lemma_bind(before, var.spec_name(), bound_code.ptr, 0, Seq::empty());
    }
    gc.scope.pop(var.name().as_str());
    proof {
        lemma_advanced_frame(old(gc)@, gc@);
    }
}

/// Emits the test of a conditional and the blocks of its branches.
fn build_branch(cond_obj: Value, gc: &mut GenerationContext) -> (blocks: (usize, usize, usize))
    requires
        cond_obj.ty == object_pointer(),
        old(gc)@.has_runtime(),
        old(gc)@.positioned(),
    ensures
        final(gc)@ == old(gc)@.branch_on(cond_obj).0,
        blocks.0 == old(gc)@.branch_on(cond_obj).1,
        blocks.1 == old(gc)@.branch_on(cond_obj).2,
        blocks.2 == old(gc)@.branch_on(cond_obj).3,
        blocks.0 < final(gc)@.blocks.len(),
        blocks.1 < final(gc)@.blocks.len(),
        blocks.2 < final(gc)@.blocks.len(),
        advanced(old(gc)@, final(gc)@),
        final(gc)@.scope == old(gc)@.scope,
        final(gc)@.has_runtime(),
{
    let ghost start = gc@;
    proof {
        lemma_sizes(gc);
        lemma_intern(gc@, bool_layout());
    }
    let bool_obj = ObjectType::bool_obj_type();
    let bool_ty = gc.struct_type(&bool_obj);
    let ghost s3 = gc@;
    assert(gc@.has_field(bool_ty, 1));
    let cond_val = gc.build_load_field_of_obj(cond_obj, bool_ty, 1);
    gc.build_release(cond_obj);
    let id = gc.emit(
        Inst::IntCast { value: cond_val, to: IrType { base: BaseType::Int1, depth: 0 } },
    );
    let cond = Value { kind: ValueKind::Inst(id), ty: IrType { base: BaseType::Int1, depth: 0 } };
    let ghost s6 = gc@;
    let func = match gc.builder.block {
        Some(bb) => gc.module.blocks[bb].function,
        None => 0,
    };
    let then_bb = gc.append_basic_block(func, BlockName::Then);
    let else_bb = gc.append_basic_block(func, BlockName::Else);
    let cont_bb = gc.append_basic_block(func, BlockName::Cont);
    let ghost s9 = gc@;
    gc.emit(Inst::CondBr { cond, then_block: then_bb, else_block: else_bb });
    proof {
        lemma_code_added_advances(s3, s6);
        lemma_advanced_trans(start, s3, s6);
        lemma_advanced_frame(s6, s9);
        lemma_code_added_advances(s9, gc@);
        lemma_advanced_trans(start, s6, s9);
        lemma_advanced_trans(start, s9, gc@);
    }
    (then_bb, else_bb, cont_bb)
}

/// Starts a branch of a conditional: moves the builder to the branch's
/// block and releases the variables that only the other branch uses, unless
/// they are used later.
fn enter_branch(bb: usize, other: &NameSet, own: &NameSet, gc: &mut GenerationContext)
    requires
        bb < old(gc)@.blocks.len(),
        old(gc)@.has_runtime(),
        old(gc)@.scope_typed(),
        covered(old(gc)@.scope, other@),
    ensures
        final(gc)@ == old(gc)@.enter_branch(bb, other@, own@),
        advanced(old(gc)@, final(gc)@),
        final(gc)@.scope == old(gc)@.scope,
        final(gc)@.cursor == Some(bb),
        final(gc)@.blocks == old(gc)@.blocks,
        final(gc)@.has_runtime(),
{
    let ghost start = gc@;
    gc.position_at_end(bb);
    let ghost entered = gc@;
    let mut i: usize = 0;
    while i < other.len()
        invariant
            i <= other@.len(),
            code_added(entered, gc@),
            entered.has_runtime(),
            entered.scope_typed(),
            covered(entered.scope, other@),
            gc@.release_unused(other@, own@, i as int) == entered.release_unused(other@, own@, 0),
        decreases other@.len() - i,
    {
        let var_name = other.get(i);
        proof {
            lemma_covered_get(gc@.scope, other@, i as int);
            lemma_typed_top(gc@.scope, other@[i as int]);
        }
        if !own.contains(var_name.as_str()) && gc.scope.get(var_name.as_str()).used_later == 0 {
            let ptr = gc.scope.get(var_name.as_str()).code.ptr;
            gc.build_release(ptr);
        }
        i += 1;
    }
    proof {
        lemma_code_added_advances(entered, gc@);
        lemma_advanced_frame(start, entered);
        lemma_advanced_trans(start, entered, gc@);
    }
}

/// Emits one branch of a conditional, up to the jump to where the branches
/// meet. Yields the value of the branch and the block in which the branch
/// ends.
fn generate_branch(
    bb: usize,
    cont_bb: usize,
    own: Arc<ExprInfo>,
    other: &NameSet,
    gc: &mut GenerationContext,
) -> (r: (ExprCode, usize))
    requires
        annotated(*own),
        compilable(own@),
        bb < old(gc)@.blocks.len(),
        old(gc)@.has_runtime(),
        old(gc)@.scope_typed(),
        headroom(old(gc)@.scope, size(own@)),
        size(own@) <= u32::MAX,
        covered(old(gc)@.scope, other@),
        covered(old(gc)@.scope, own.free_vars@),
    ensures
        final(gc)@ == emit_expr(*own, old(gc)@.enter_branch(bb, other@, own.free_vars@)).0.emit(
            Inst::Br { block: cont_bb },
        ),
        r.0.ptr == emit_expr(*own, old(gc)@.enter_branch(bb, other@, own.free_vars@)).1,
        r.1 == emit_expr(
            *own,
            old(gc)@.enter_branch(bb, other@, own.free_vars@),
        ).0.current_block(),
        advanced(old(gc)@, final(gc)@),
        final(gc)@.scope == old(gc)@.scope,
        final(gc)@.has_runtime(),
        r.0.ptr.ty == object_pointer(),
    decreases 3 * size(own@) + 1,
{
    let ghost start = gc@;
    enter_branch(bb, other, &own.free_vars, gc);
    let ghost entered = gc@;
    let code = generate_expr(own, gc);
    let ghost generated = gc@;
    let end = match gc.builder.block {
        Some(block) => block,
        None => vstd::pervasive::unreached(),
    };
    gc.emit(Inst::Br { block: cont_bb });
    proof {
        lemma_advanced_trans(start, entered, generated);
        lemma_code_added_advances(generated, gc@);
        lemma_advanced_trans(start, generated, gc@);
    }
    (code, end)
}

/// Emits the code of a conditional.
fn generate_if(
    cond_expr: Arc<ExprInfo>,
    then_expr: Arc<ExprInfo>,
    else_expr: Arc<ExprInfo>,
    gc: &mut GenerationContext,
) -> (code: ExprCode)
    requires
        annotated(*cond_expr),
        annotated(*then_expr),
        annotated(*else_expr),
        compilable(cond_expr@),
        compilable(then_expr@),
        compilable(else_expr@),
        fit(old(gc)@, 1 + size(cond_expr@) + size(then_expr@) + size(else_expr@)),
        covered(old(gc)@.scope, cond_expr.free_vars@),
        covered(old(gc)@.scope, then_expr.free_vars@),
        covered(old(gc)@.scope, else_expr.free_vars@),
    ensures
        final(gc)@ == emit_if(*cond_expr, *then_expr, *else_expr, old(gc)@).0,
        code.ptr == emit_if(*cond_expr, *then_expr, *else_expr, old(gc)@).1,
        advanced(old(gc)@, final(gc)@),
        final(gc)@.scope == old(gc)@.scope,
        final(gc)@.positioned(),
        final(gc)@.has_runtime(),
        code.ptr.ty == object_pointer(),
    decreases 3 * (size(cond_expr@) + size(then_expr@) + size(else_expr@)) + 2,
{
    let ghost start = gc@;
    let ghost total = 1 + size(cond_expr@) + size(then_expr@) + size(else_expr@);
    let mut used_then_or_else = then_expr.free_vars.clone();
    used_then_or_else.extend(&else_expr.free_vars);
    proof {
        lemma_either_covered(gc@.scope, then_expr.free_vars@, else_expr.free_vars@);
        lemma_headroom_less(gc@.scope, total, size(cond_expr@) + 1);
        lemma_headroom_less(gc@.scope, total, size(then_expr@));
        lemma_headroom_less(gc@.scope, total, size(else_expr@));
    }
    used_later(gc, &used_then_or_else, Ghost(size(cond_expr@)), Ghost(cond_expr.free_vars@));
    let ghost s0 = gc@;
    let cond_code = generate_expr(cond_expr, gc);
    let ghost s1 = gc@;
    used_now(gc, &used_then_or_else, Ghost(start.scope));
    let ghost s1b = gc@;
    let (then_bb, else_bb, cont_bb) = build_branch(cond_code.ptr, gc);
    let ghost s2 = gc@;
    let (then_code, then_end) = generate_branch(
        then_bb,
        cont_bb,
        then_expr.clone(),
        &else_expr.free_vars,
        gc,
    );
    let ghost t2 = gc@;
    proof {
        lemma_advanced_keeps(s2, t2);
    }
    let (else_code, else_end) = generate_branch(
        else_bb,
        cont_bb,
        else_expr,
        &then_expr.free_vars,
        gc,
    );
    let ghost e2 = gc@;
    proof {
        lemma_advanced_keeps(t2, e2);
    }
    let code = build_join(cont_bb, then_code.ptr, then_end, else_code.ptr, else_end, gc);
    proof {
        lemma_advanced_trans(start, s0, s1);
        lemma_advanced_trans(start, s1, s1b);
        lemma_advanced_trans(start, s1b, s2);
        lemma_advanced_trans(start, s2, t2);
        lemma_advanced_trans(start, t2, e2);
        lemma_advanced_trans(start, e2, gc@);
    }
    code
}

/// Emits the meeting of the branches of a conditional: the builder moves to
/// the meeting block, and a phi takes the value of the branch from whose
/// last block control came.
fn build_join(
    cont_bb: usize,
    then_val: Value,
    then_end: usize,
    else_val: Value,
    else_end: usize,
    gc: &mut GenerationContext,
) -> (code: ExprCode)
    requires
        cont_bb < old(gc)@.blocks.len(),
    ensures
        final(gc)@ == old(gc)@.join(cont_bb, then_val, then_end, else_val, else_end).0,
        code.ptr == old(gc)@.join(cont_bb, then_val, then_end, else_val, else_end).1,
        advanced(old(gc)@, final(gc)@),
        final(gc)@.scope == old(gc)@.scope,
        final(gc)@.runtimes == old(gc)@.runtimes,
        final(gc)@.positioned(),
        code.ptr.ty == object_pointer(),
{
    gc.position_at_end(cont_bb);
    let ghost moved = gc@;
    let id = gc.emit(
        Inst::Phi {
            ty: ptr_to_object_type(),
            first: then_val,
            first_block: then_end,
            second: else_val,
            second_block: else_end,
        },
    );
    proof {
        lemma_advanced_frame(old(gc)@, moved);
        lemma_code_added_advances(moved, gc@);
        lemma_advanced_trans(old(gc)@, moved, gc@);
    }
    ExprCode { ptr: Value { kind: ValueKind::Inst(id), ty: ptr_to_object_type() } }
}

/// The layout of a closure that captures `captures` objects.
fn closure_obj_type(captures: usize) -> (r: ObjectType)
    ensures
        r@ == closure_layout(captures as nat),
        r.field_types@.len() == captures + 2,
{
    let mut field_types: Vec<ObjectFieldType> = Vec::new();
    field_types.push(ObjectFieldType::ControlBlock);
    field_types.push(ObjectFieldType::LambdaFunction);
    let mut i: usize = 0;
    while i < captures
        invariant
            i <= captures,
            field_types@ =~= closure_layout(i as nat),
        decreases captures - i,
    {
        field_types.push(ObjectFieldType::SubObject);
        i += 1;
    }
    ObjectType { field_types }
}

/// Emits the start of a lambda's code.
fn enter_lambda(
    lam_fn: usize,
    bb: usize,
    closure_ty: IrType,
    arg: &Arc<Var>,
    val: &Arc<ExprInfo>,
    captures: &NameSet,
    gc: &mut GenerationContext,
)
    requires
        bb < old(gc)@.blocks.len(),
        old(gc)@.has_runtime(),
        old(gc)@.scope == Seq::<Bound>::empty(),
        captures@ == captured_names(val.free_vars@, arg.spec_name()),
        closure_ty.depth == 0,
        captures@.len() + 2 <= usize::MAX,
        old(gc)@.fields(closure_ty).len() == captures@.len() + 2,
        forall|k: int|
            2 <= k < captures@.len() + 2 ==> (#[trigger] old(gc)@.fields(closure_ty)[k])
                == object_pointer(),
        size(val@) <= u32::MAX,
    ensures
        final(gc)@ == old(gc)@.lambda_entry(
            lam_fn,
            bb,
            closure_ty,
            arg.spec_name(),
            val.free_vars@,
        ),
        advanced(old(gc)@, final(gc)@),
        fit(final(gc)@, size(val@)),
        covered(final(gc)@.scope, val.free_vars@),
{
    let ghost start = gc@;
    let ghost param = arg.spec_name();
    let ghost captured = captures@;
    gc.position_at_end(bb);
    let arg_ptr = Value {
        kind: ValueKind::Param { function: lam_fn, index: 0 },
        ty: ptr_to_object_type(),
    };
    let closure_obj = Value {
        kind: ValueKind::Param { function: lam_fn, index: 1 },
        ty: ptr_to_object_type(),
    };
    bind_parameters(arg, arg_ptr, closure_obj, Ghost(size(val@)), gc);
    let ghost i0 = gc@;
    load_captures(closure_obj, closure_ty, captures, Ghost(param), Ghost(size(val@)), gc);
    let ghost i1 = gc@;
    proof {
        lemma_lambda_scope_covers(i1.scope, val.free_vars@, param);
    }
    retain_captures(captures, gc);
    let ghost i2 = gc@;
    if !val.free_vars.contains(SELF_NAME) {
        gc.build_release(closure_obj);
    }
    if !val.free_vars.contains(arg.name().as_str()) {
        gc.build_release(arg_ptr);
    }
    proof {
        lemma_advanced_frame(start, i0);
        lemma_advanced_trans(start, i0, i1);
        lemma_advanced_trans(start, i1, i2);
        lemma_code_added_advances(i2, gc@);
        lemma_advanced_trans(start, i2, gc@);
    }
}

/// Binds the parameter of a lambda and the closure itself in a fresh scope.
fn bind_parameters(
    arg: &Arc<Var>,
    arg_ptr: Value,
    closure_obj: Value,
    Ghost(n): Ghost<nat>,
    gc: &mut GenerationContext,
)
    requires
        old(gc)@.scope == Seq::<Bound>::empty(),
        arg_ptr.ty == object_pointer(),
        closure_obj.ty == object_pointer(),
        n <= u32::MAX,
    ensures
        final(gc)@ == old(gc)@.with_scope(Seq::empty()).bind(arg.spec_name(), arg_ptr).bind(
            SELF_NAME@,
            closure_obj,
        ),
        final(gc)@.scope_typed(),
        headroom(final(gc)@.scope, n),
        bound(final(gc)@.scope, arg.spec_name()),
        bound(final(gc)@.scope, SELF_NAME@),
{
    let ghost param = arg.spec_name();
    gc.scope.push(arg.name().as_str(), &ExprCode { ptr: arg_ptr });
    let ghost first = gc@.scope;
    gc.scope.push(SELF_NAME, &ExprCode { ptr: closure_obj });
    proof {
        reveal(covered);
        lemma_empty_scope(n);
        let names = seq![param];
        lemma_bind(Seq::<Bound>::empty(), param, arg_ptr, n, Seq::empty());
        assert(covered(first, names)) by {
            assert(names[0] == param);
        }
        lemma_bind(first, SELF_NAME@, closure_obj, n, names);
        assert(bound(gc@.scope, names[0]));
    }
}

/// Loads what a closure captured from its fields and binds it.
fn load_captures(
    closure_obj: Value,
    closure_ty: IrType,
    captures: &NameSet,
    Ghost(param): Ghost<Name>,
    Ghost(n): Ghost<nat>,
    gc: &mut GenerationContext,
)
    requires
        old(gc)@.has_runtime(),
        old(gc)@.scope_typed(),
        headroom(old(gc)@.scope, n),
        n <= u32::MAX,
        bound(old(gc)@.scope, param),
        bound(old(gc)@.scope, SELF_NAME@),
        closure_ty.depth == 0,
        captures@.len() + 2 <= usize::MAX,
        old(gc)@.fields(closure_ty).len() == captures@.len() + 2,
        forall|k: int|
            2 <= k < captures@.len() + 2 ==> (#[trigger] old(gc)@.fields(closure_ty)[k])
                == object_pointer(),
    ensures
        final(gc)@ == old(gc)@.load_captures(closure_obj, closure_ty, captures@, 0),
        advanced(old(gc)@, final(gc)@),
        final(gc)@.cursor == old(gc)@.cursor,
        final(gc)@.blocks == old(gc)@.blocks,
        final(gc)@.has_runtime(),
        final(gc)@.scope_typed(),
        headroom(final(gc)@.scope, n),
        bound(final(gc)@.scope, param),
        bound(final(gc)@.scope, SELF_NAME@),
        forall|k: int| 0 <= k < captures@.len() ==> bound(final(gc)@.scope, #[trigger] captures@[k]),
{
    let ghost start = gc@;
    let ghost captured = captures@;
    let mut i: usize = 0;
    while i < captures.len()
        invariant
            i <= captured.len(),
            captured == captures@,
            code_added(start.with_scope(gc@.scope), gc@),
            start.has_runtime(),
            closure_ty.depth == 0,
            captured.len() + 2 <= usize::MAX,
            start.fields(closure_ty).len() == captured.len() + 2,
            forall|k: int|
                2 <= k < captured.len() + 2 ==> (#[trigger] start.fields(closure_ty)[k])
                    == object_pointer(),
            gc@.load_captures(closure_obj, closure_ty, captured, i as int) == start.load_captures(
                closure_obj,
                closure_ty,
                captured,
                0,
            ),
            gc@.scope_typed(),
            headroom(gc@.scope, n),
            n <= u32::MAX,
            bound(gc@.scope, param),
            bound(gc@.scope, SELF_NAME@),
            forall|k: int| 0 <= k < i ==> bound(gc@.scope, #[trigger] captured[k]),
        decreases captured.len() - i,
    {
        let cap_name = captures.get(i);
        let ghost before = gc@;
        assert(gc@.fields(closure_ty) == start.fields(closure_ty));
        let cap_obj = gc.build_load_field_of_obj(closure_obj, closure_ty, i + 2);
        gc.scope.push(cap_name.as_str(), &ExprCode { ptr: cap_obj });
        proof {
            reveal(covered);
            let known = seq![param, SELF_NAME@] + captured.take(i as int);
            assert(covered(before.scope, known)) by {
                assert forall|j: int| 0 <= j < known.len() implies bound(
                    before.scope,
                    #[trigger] known[j],
                ) by {
                    if j >= 2 {
                        assert(known[j] == captured[j - 2]);
                    }
                }
            }
            lemma_bind(before.scope, captured[i as int], cap_obj, n, known);
            assert(bound(gc@.scope, known[0]));
            assert(bound(gc@.scope, known[1]));
            assert forall|k: int| 0 <= k < i + 1 implies bound(gc@.scope, #[trigger] captured[k]) by {
                if k < i {
                    assert(known[k + 2] == captured[k]);
                    assert(bound(gc@.scope, known[k + 2]));
                }
            }
        }
        i += 1;
    }
    proof {
        assert(advanced(start, gc@)) by {
            reveal(advanced);
            crate::state::lemma_registry_kept(start.runtimes, gc@.runtimes);
        }
    }
}

/// Retains what a closure captured.
fn retain_captures(captures: &NameSet, gc: &mut GenerationContext)
    requires
        old(gc)@.has_runtime(),
        old(gc)@.scope_typed(),
        covered(old(gc)@.scope, captures@),
    ensures
        final(gc)@ == old(gc)@.retain_captures(captures@, 0),
        code_added(old(gc)@, final(gc)@),
        advanced(old(gc)@, final(gc)@),
{
    let ghost start = gc@;
    let mut k: usize = 0;
    while k < captures.len()
        invariant
            k <= captures@.len(),
            code_added(start, gc@),
            start.has_runtime(),
            start.scope_typed(),
            covered(start.scope, captures@),
            gc@.retain_captures(captures@, k as int) == start.retain_captures(captures@, 0),
        decreases captures@.len() - k,
    {
        let cap_name = captures.get(k);
        proof {
            lemma_covered_get(gc@.scope, captures@, k as int);
            lemma_typed_top(gc@.scope, captures@[k as int]);
        }
        let ptr = gc.scope.get(cap_name.as_str()).code.ptr;
        gc.build_retain(ptr);
        k += 1;
    }
    proof {
        lemma_code_added_advances(start, gc@);
    }
}

/// Emits the closure object where a lambda stands.
fn build_closure(
    obj_type: &ObjectType,
    closure_ty: IrType,
    lam_fn: usize,
    captures: &NameSet,
    name: &str,
    gc: &mut GenerationContext,
) -> (code: ExprCode)
    requires
        obj_type@ == closure_layout(captures@.len()),
        captures@.len() + 2 <= usize::MAX,
        (old(gc)@, closure_ty) == old(gc)@.intern(obj_type@),
        old(gc)@.has_runtime(),
        old(gc)@.scope_typed(),
        covered(old(gc)@.scope, captures@),
    ensures
        final(gc)@ == old(gc)@.closure(closure_ty, lam_fn, captures@, name@).0,
        code.ptr == old(gc)@.closure(closure_ty, lam_fn, captures@, name@).1,
        code.ptr.ty.depth == 1,
        advanced(old(gc)@, final(gc)@),
        final(gc)@.scope == old(gc)@.scope,
        final(gc)@.cursor == old(gc)@.cursor,
        final(gc)@.has_runtime(),
{
    let ghost start = gc@;
    let ghost captured = captures@;
    proof {
        lemma_sizes(gc);
        lemma_intern(gc@, obj_type@);
    }
    let obj = obj_type.build_allocate_shared_obj(gc, Some(name));
    let ghost o1 = gc@;
    proof {
        lemma_advanced_keeps(start, o1);
        lemma_fields_grow(start, o1, closure_ty);
        assert(o1.has_field(closure_ty, 1));
    }
    gc.build_set_field(
        obj,
        closure_ty,
        1,
        Value {
            kind: ValueKind::Function(lam_fn),
            ty: IrType { base: BaseType::Function(lambda_function_type()), depth: 1 },
        },
    );
    let ghost o2 = gc@;
    let mut i: usize = 0;
    while i < captures.len()
        invariant
            i <= captured.len(),
            captured == captures@,
            code_added(o2, gc@),
            o2.has_runtime(),
            o2.scope_typed(),
            covered(o2.scope, captured),
            closure_ty.depth == 0,
            captured.len() + 2 <= usize::MAX,
            o2.fields(closure_ty).len() == captured.len() + 2,
            gc@.store_captures(obj, closure_ty, captured, i as int) == o2.store_captures(
                obj,
                closure_ty,
                captured,
                0,
            ),
        decreases captured.len() - i,
    {
        let cap = captures.get(i);
        proof {
            lemma_covered_get(gc@.scope, captured, i as int);
            lemma_typed_top(gc@.scope, captured[i as int]);
        }
        let ptr = gc.get_var_retained_if_used_later(cap.as_str()).ptr;
        assert(gc@.fields(closure_ty) == o2.fields(closure_ty));
        gc.build_set_field(obj, closure_ty, i + 2, ptr);
        i += 1;
    }
    proof {
        lemma_code_added_advances(o1, o2);
        lemma_code_added_advances(o2, gc@);
        lemma_advanced_trans(start, o1, o2);
        lemma_advanced_trans(start, o2, gc@);
    }
    ExprCode { ptr: obj }
}

/// Emits the function that holds the code of a lambda's body. The builder
/// and the scope of the place where the lambda stands are put aside while
/// the body is compiled, and put back afterwards.
fn generate_lam_function(
    lam_fn: usize,
    bb: usize,
    closure_ty: IrType,
    arg: &Arc<Var>,
    val: &Arc<ExprInfo>,
    captures: &NameSet,
    gc: &mut GenerationContext,
)
    requires
        annotated(**val),
        compilable(val@),
        bb < old(gc)@.blocks.len(),
        old(gc)@.has_runtime(),
        captures@ == captured_names(val.free_vars@, arg.spec_name()),
        closure_ty.depth == 0,
        captures@.len() + 2 <= usize::MAX,
        old(gc)@.fields(closure_ty).len() == captures@.len() + 2,
        forall|k: int|
            2 <= k < captures@.len() + 2 ==> (#[trigger] old(gc)@.fields(closure_ty)[k])
                == object_pointer(),
        size(val@) <= u32::MAX,
    ensures
        final(gc)@ == ({
            let entered = old(gc)@.lambda_entry(
                lam_fn,
                bb,
                closure_ty,
                arg.spec_name(),
                val.free_vars@,
            );
            let (body, v) = emit_expr(**val, entered);
            body.lambda_return(v).with_cursor(old(gc)@.cursor).with_scope(old(gc)@.scope)
        }),
        advanced(old(gc)@, final(gc)@),
        final(gc)@.scope == old(gc)@.scope,
        final(gc)@.cursor == old(gc)@.cursor,
        final(gc)@.has_runtime(),
    decreases 3 * size(val@) + 1,
{
    let ghost start = gc@;
    let (previous, outer_scope) = enter_function(bb, gc);
    let ghost inside = gc@;
    enter_lambda(lam_fn, bb, closure_ty, arg, val, captures, gc);
    let ghost entered = gc@;
    proof {
        assert(inside.lambda_entry(lam_fn, bb, closure_ty, arg.spec_name(), val.free_vars@)
            == start.lambda_entry(lam_fn, bb, closure_ty, arg.spec_name(), val.free_vars@));
    }
    let body = generate_expr(val.clone(), gc);
    let ghost generated = gc@;
    build_lambda_return(body.ptr, gc);
    let ghost returned = gc@;
    leave_function(previous, outer_scope, gc);
    proof {
        lemma_advanced_trans(start, inside, entered);
        lemma_advanced_trans(start, entered, generated);
        lemma_advanced_trans(start, generated, returned);
        lemma_advanced_trans(start, returned, gc@);
        lemma_advanced_keeps(start, gc@);
    }
}

/// Puts the builder and the scope aside and starts afresh in block `bb`.
fn enter_function(bb: usize, gc: &mut GenerationContext) -> (saved: (Builder, LocalVariables))
    ensures
        final(gc)@ == old(gc)@.with_cursor(Some(bb)).with_scope(Seq::empty()),
        saved.0.block == old(gc)@.cursor,
        saved.1@ == old(gc)@.scope,
        advanced(old(gc)@, final(gc)@),
{
    let previous = gc.push_builder(Builder { block: Some(bb) });
    let mut outer_scope = LocalVariables::new();
    std::mem::swap(&mut gc.scope, &mut outer_scope);
    proof {
        lemma_advanced_frame(old(gc)@, gc@);
    }
    (previous, outer_scope)
}

/// Puts back the builder and the scope that were put aside.
fn leave_function(previous: Builder, outer_scope: LocalVariables, gc: &mut GenerationContext)
    ensures
        final(gc)@ == old(gc)@.with_cursor(previous.block).with_scope(outer_scope@),
        advanced(old(gc)@, final(gc)@),
{
    let mut outer_scope = outer_scope;
    gc.push_builder(previous);
    std::mem::swap(&mut gc.scope, &mut outer_scope);
    proof {
        lemma_advanced_frame(old(gc)@, gc@);
    }
}

/// Emits the end of a lambda's code: the body's value is returned.
fn build_lambda_return(val: Value, gc: &mut GenerationContext)
    ensures
        final(gc)@ == old(gc)@.lambda_return(val),
        advanced(old(gc)@, final(gc)@),
        code_added(old(gc)@, final(gc)@),
{
    let ptr = gc.build_pointer_cast(val, ptr_to_object_type());
    gc.emit(Inst::Ret { result: Some(ptr) });
    proof {
        lemma_code_added_advances(old(gc)@, gc@);
    }
}

/// The names that a lambda captures, in the order of the free variables of
/// its body.
fn captures_of(arg: &Arc<Var>, val: &Arc<ExprInfo>) -> (captures: NameSet)
    ensures
        captures@ == captured_names(val.free_vars@, arg.spec_name()),
{
    let mut captures = val.free_vars.clone();
    captures.remove(arg.name().as_str());
    captures.remove(SELF_NAME);
    captures
}

/// Declares the function of a lambda with its entry block, and the struct
/// type of its closure.
fn declare_lambda(obj_type: &ObjectType, Ghost(captures): Ghost<nat>, gc: &mut GenerationContext) -> (r:
    (IrType, usize, usize))
    requires
        obj_type@ == closure_layout(captures),
    ensures
        final(gc)@ == ({
            let (s1, closure_ty) = old(gc)@.intern(closure_layout(captures));
            let (s2, lam_fn) = s1.add_function(FunctionKind::Lambda, lambda_type());
            s2.append_block(lam_fn, BlockName::Entry).0
        }),
        r.0 == old(gc)@.intern(closure_layout(captures)).1,
        r.1 == old(gc)@.intern(closure_layout(captures)).0.functions.len(),
        r.2 == old(gc)@.blocks.len(),
        r.2 < final(gc)@.blocks.len(),
        r.0.depth == 0,
        (final(gc)@, r.0) == final(gc)@.intern(closure_layout(captures)),
        final(gc)@.fields(r.0).len() == captures + 2,
        forall|k: int|
            2 <= k < captures + 2 ==> (#[trigger] final(gc)@.fields(r.0)[k]) == object_pointer(),
        advanced(old(gc)@, final(gc)@),
        final(gc)@.scope == old(gc)@.scope,
        final(gc)@.cursor == old(gc)@.cursor,
        final(gc)@.has_runtime() == old(gc)@.has_runtime(),
{
    let ghost start = gc@;
    proof {
        lemma_sizes(gc);
        lemma_intern(gc@, closure_layout(captures));
    }
    let closure_ty = gc.struct_type(obj_type);
    let ghost s1 = gc@;
    let lam_fn = gc.add_function(FunctionKind::Lambda, lambda_function_type());
    let bb = gc.append_basic_block(lam_fn, BlockName::Entry);
    proof {
        assert(grows(s1, gc@));
        lemma_fields_grow(s1, gc@, closure_ty);
        assert forall|k: int| 2 <= k < captures + 2 implies (#[trigger] gc@.fields(closure_ty)[k])
            == object_pointer() by {
            assert(closure_layout(captures)[k] == ObjectFieldType::SubObject);
        }
        crate::state::lemma_function_added(
            s1,
            gc@,
            crate::ir::Function { kind: FunctionKind::Lambda, ty: lambda_type() },
        );
        lemma_advanced_trans(start, s1, gc@);
        assert(gc@.intern(closure_layout(captures)).0.layouts =~= gc@.layouts);
    }
    (closure_ty, lam_fn, bb)
}

/// The text of a lambda, under which its closures are reported.
fn lambda_name(arg: Arc<Var>, val: Arc<ExprInfo>) -> (name: String)
    requires
        type_free(val@),
    ensures
        name@ == text(Term::Lam(arg.spec_name(), Box::new(val@))),
{
    lam(arg, val).expr.to_string()
}

/// A struct type keeps its layout while the state advances.
pub proof fn lemma_interned_stays(a: State, b: State, layout: Seq<ObjectFieldType>, ty: IrType)
    requires
        advanced(a, b),
        (a, ty) == a.intern(layout),
    ensures
        (b, ty) == b.intern(layout),
{
    lemma_advanced_keeps(a, b);
    crate::state::lemma_position_found(a.layouts, layout);
    crate::state::lemma_position_prefix(a.layouts, b.layouts, layout);
    assert(b.intern(layout).0.layouts =~= b.layouts);
}

/// Emits the code of a lambda: a new function for the body and, where the
/// lambda stands, the closure object.
fn generate_lam(arg: Arc<Var>, val: Arc<ExprInfo>, gc: &mut GenerationContext) -> (code: ExprCode)
    requires
        annotated(*val),
        compilable(val@),
        fit(old(gc)@, 1 + size(val@)),
        covered(old(gc)@.scope, captured_names(val.free_vars@, arg.spec_name())),
    ensures
        final(gc)@ == emit_lam(arg.spec_name(), *val, old(gc)@).0,
        code.ptr == emit_lam(arg.spec_name(), *val, old(gc)@).1,
        code.ptr.ty.depth == 1,
        advanced(old(gc)@, final(gc)@),
        final(gc)@.scope == old(gc)@.scope,
        final(gc)@.cursor == old(gc)@.cursor,
        final(gc)@.has_runtime(),
    decreases 3 * size(val@) + 2,
{
    let ghost start = gc@;
    let captures = captures_of(&arg, &val);
    let obj_type = closure_obj_type(captures.len());
    assert(obj_type.field_types.len() == captures@.len() + 2);
    let (closure_ty, lam_fn, bb) = declare_lambda(&obj_type, Ghost(captures@.len()), gc);
    let ghost declared = gc@;
    generate_lam_function(lam_fn, bb, closure_ty, &arg, &val, &captures, gc);
    let ghost outside = gc@;
    proof {
        lemma_compilable_type_free(val@);
        lemma_interned_stays(declared, outside, obj_type@, closure_ty);
    }
    let name = lambda_name(arg, val);
    let code = build_closure(&obj_type, closure_ty, lam_fn, &captures, name.as_str(), gc);
    proof {
        lemma_advanced_trans(start, declared, outside);
        lemma_advanced_trans(start, outside, gc@);
    }
    code
}

} // verus!
