//! The expression tree of the core calculus and its free-variable analysis.
//!
//! Every node sits in an `ExprInfo` envelope that carries the set of term
//! variables free in the node's subtree. The constructors leave that set
//! empty; `calculate_free_vars` fills it in for a whole tree.

use crate::names::{distinct, lemma_merged, lemma_without, merged, without, Name, NameSet};
use std::sync::Arc;
use vstd::prelude::*;
use vstd::string::StringExecFns;

verus! {

/// The name that denotes, inside a lambda's body, the closure itself.
pub const SELF_NAME: &'static str = "%SELF%";

/// How a literal leaf produces its value when it is compiled.
///
/// A generator that reads variables finds their names in the literal's
/// `free_vars`, by position.
#[derive(Clone, Copy, PartialEq, Eq, Structural, Debug)]
pub enum LiteralGenerator {
    /// A fresh integer object holding the given value.
    Int(i64),
    /// A fresh boolean object holding the given value.
    Bool(bool),
    /// The sum of the integer objects bound to the first two names.
    IntAdd,
    /// Whether the integer objects bound to the first two names are equal.
    IntEq,
    /// With names `[self, f, x]`: applies `f` to the enclosing closure and
    /// the result to `x`.
    Fix,
    /// With names `[size, value]`: a fresh array of `size` copies of `value`.
    NewArray,
    /// With names `[array, index]`: the element at `index`.
    ReadArray,
    /// With names `[array, index, value]`: the array with the element at
    /// `index` replaced, copying the array if it is shared.
    WriteArray,
    /// As `WriteArray`, for an array that is known not to be shared.
    WriteArrayUnique,
}

impl LiteralGenerator {
    /// The number of names the generator reads.
    pub open spec fn arity(self) -> nat {
        match self {
            LiteralGenerator::Int(_) => 0,
            LiteralGenerator::Bool(_) => 0,
            LiteralGenerator::IntAdd => 2,
            LiteralGenerator::IntEq => 2,
            LiteralGenerator::Fix => 3,
            LiteralGenerator::NewArray => 2,
            LiteralGenerator::ReadArray => 2,
            LiteralGenerator::WriteArray => 3,
            LiteralGenerator::WriteArrayUnique => 3,
        }
    }
}

/// An opaque leaf: it emits its own code when asked.
pub struct Literal {
    pub generator: LiteralGenerator,
    /// The names the literal consumes from the enclosing scope.
    pub free_vars: Vec<String>,
    pub name: String,
}

/// The views of the strings of `v`, in order.
pub open spec fn names_of(v: Seq<String>) -> Seq<Name> {
    Seq::new(v.len(), |i: int| v[i]@)
}

/// A variable: of terms, or of types.
#[derive(PartialEq, Eq)]
pub enum Var {
    TermVar { name: String },
    TyVar { name: String },
}

impl Var {
    /// The name of the variable.
    pub open spec fn spec_name(&self) -> Name {
        match self {
            Var::TermVar { name } => name@,
            Var::TyVar { name } => name@,
        }
    }

    /// Whether the variable stands for a term.
    pub open spec fn is_term(&self) -> bool {
        self is TermVar
    }

    /// The name of the variable.
    pub fn name(&self) -> (name: &String)
        ensures
            name@ == self.spec_name(),
    {
        match self {
            Var::TermVar { name } => name,
            Var::TyVar { name } => name,
        }
    }
}

/// The kind of a type.
#[derive(PartialEq, Eq)]
pub enum Kind {
    Star,
    Arrow(Arc<Kind>, Arc<Kind>),
}

/// A literal type.
#[derive(PartialEq, Eq)]
pub struct TyLit {
    pub value: String,
}

/// A type constructor.
#[derive(PartialEq, Eq)]
pub enum TyCon {
    Pair,
}

/// Types are carried as inert annotations.
#[derive(PartialEq, Eq)]
pub enum Type {
    TyVar(Arc<Var>),
    LitTy(Arc<TyLit>),
    AppTy(Arc<Type>, Arc<Type>),
    TyConApp(Arc<TyCon>, Vec<Type>),
    FunTy(Arc<Type>, Arc<Type>),
    ForAllTy(Arc<Var>, Arc<Type>),
}

/// A node of the expression tree.
#[derive(Clone)]
pub enum Expr {
    Var(Arc<Var>),
    Lit(Arc<Literal>),
    App(Arc<ExprInfo>, Arc<ExprInfo>),
    Lam(Arc<Var>, Arc<ExprInfo>),
    Let(Arc<Var>, Arc<ExprInfo>, Arc<ExprInfo>),
    If(Arc<ExprInfo>, Arc<ExprInfo>, Arc<ExprInfo>),
    Type(Arc<Type>),
}

/// A node in its envelope, which carries the free variables of the node's
/// subtree.
pub struct ExprInfo {
    pub expr: Arc<Expr>,
    pub free_vars: NameSet,
}

/// An expression as mathematics sees it: the tree without its envelopes.
pub enum Term {
    Var { name: Name, term: bool },
    Lit { generator: LiteralGenerator, free_vars: Seq<Name>, name: Name },
    App(Box<Term>, Box<Term>),
    Lam(Name, Box<Term>),
    Let(Name, Box<Term>, Box<Term>),
    If(Box<Term>, Box<Term>, Box<Term>),
    Type,
}

/// The term that the tree under `e` stands for.
pub open spec fn term_of(e: Expr) -> Term
    decreases e,
{
    match e {
        Expr::Var(v) => Term::Var { name: v.spec_name(), term: v.is_term() },
        Expr::Lit(l) => Term::Lit {
            generator: l.generator,
            free_vars: names_of(l.free_vars@),
            name: l.name@,
        },
        Expr::App(f, a) => Term::App(Box::new(term_of(*f.expr)), Box::new(term_of(*a.expr))),
        Expr::Lam(x, b) => Term::Lam(x.spec_name(), Box::new(term_of(*b.expr))),
        Expr::Let(x, b, v) => Term::Let(
            x.spec_name(),
            Box::new(term_of(*b.expr)),
            Box::new(term_of(*v.expr)),
        ),
        Expr::If(c, t, e) => Term::If(
            Box::new(term_of(*c.expr)),
            Box::new(term_of(*t.expr)),
            Box::new(term_of(*e.expr)),
        ),
        Expr::Type(_) => Term::Type,
    }
}

impl View for Expr {
    type V = Term;

    open spec fn view(&self) -> Term {
        term_of(*self)
    }
}

impl View for ExprInfo {
    type V = Term;

    open spec fn view(&self) -> Term {
        term_of(*self.expr)
    }
}

/// The term variables that occur free in `t`.
pub open spec fn free_vars(t: Term) -> Set<Name>
    decreases t,
{
    match t {
        Term::Var { name, term } => set![name],
        Term::Lit { generator, free_vars, name } => free_vars.to_set(),
        Term::App(f, a) => free_vars(*f).union(free_vars(*a)),
        Term::Lam(x, b) => free_vars(*b).remove(x).remove(SELF_NAME@),
        Term::Let(x, b, v) => free_vars(*v).remove(x).union(free_vars(*b)),
        Term::If(c, t, e) => free_vars(*c).union(free_vars(*t)).union(free_vars(*e)),
        Term::Type => Set::empty(),
    }
}

/// The free variables of a term, each once, in the order in which the
/// analysis lists them: that of their first occurrence, with the variables
/// of the body of a `let` before those of the bound expression.
pub open spec fn free_var_list(t: Term) -> Seq<Name>
    decreases t,
{
    match t {
        Term::Var { name, term } => seq![name],
        Term::Lit { generator, free_vars, name } => merged(Seq::empty(), free_vars),
        Term::App(f, a) => merged(free_var_list(*f), free_var_list(*a)),
        Term::Lam(x, b) => without(without(free_var_list(*b), x), SELF_NAME@),
        Term::Let(x, b, v) => merged(without(free_var_list(*v), x), free_var_list(*b)),
        Term::If(c, t, e) => merged(
            merged(free_var_list(*c), free_var_list(*t)),
            free_var_list(*e),
        ),
        Term::Type => Seq::empty(),
    }
}

/// The list of the free variables of a term holds exactly the free
/// variables of the term, each once.
pub proof fn lemma_free_var_list(t: Term)
    ensures
        distinct(free_var_list(t)),
        free_var_list(t).to_set() == free_vars(t),
    decreases t,
{
    match t {
        Term::Var { name, term } => {
            assert(free_var_list(t).to_set() =~= set![name]) by {
                assert(free_var_list(t)[0] == name);
            }
        },
        Term::Lit { generator, free_vars, name } => {
            lemma_merged(Seq::empty(), free_vars);
            assert(free_var_list(t).to_set() =~= free_vars.to_set());
        },
        Term::App(f, a) => {
            lemma_free_var_list(*f);
            lemma_free_var_list(*a);
            lemma_merged(free_var_list(*f), free_var_list(*a));
            assert(free_var_list(t).to_set() =~= free_vars(t));
        },
        Term::Lam(x, b) => {
            lemma_free_var_list(*b);
            lemma_without(free_var_list(*b), x);
            lemma_without(without(free_var_list(*b), x), SELF_NAME@);
            assert(free_var_list(t).to_set() =~= free_vars(t));
        },
        Term::Let(x, b, v) => {
            lemma_free_var_list(*b);
            lemma_free_var_list(*v);
            lemma_without(free_var_list(*v), x);
            lemma_merged(without(free_var_list(*v), x), free_var_list(*b));
            assert(free_var_list(t).to_set() =~= free_vars(t));
        },
        Term::If(c, th, e) => {
            lemma_free_var_list(*c);
            lemma_free_var_list(*th);
            lemma_free_var_list(*e);
            lemma_merged(free_var_list(*c), free_var_list(*th));
            lemma_merged(merged(free_var_list(*c), free_var_list(*th)), free_var_list(*e));
            assert(free_var_list(t).to_set() =~= free_vars(t));
        },
        Term::Type => {
            assert(free_var_list(t).to_set() =~= free_vars(t));
        },
    }
}

/// Every envelope of the tree carries the list of the free variables of its
/// subtree.
pub open spec fn listed(ei: ExprInfo) -> bool
    decreases ei,
{
    &&& ei.free_vars@ == free_var_list(ei@)
    &&& match *ei.expr {
        Expr::Var(_) => true,
        Expr::Lit(_) => true,
        Expr::App(f, a) => listed(*f) && listed(*a),
        Expr::Lam(_, b) => listed(*b),
        Expr::Let(_, b, v) => listed(*b) && listed(*v),
        Expr::If(c, t, e) => listed(*c) && listed(*t) && listed(*e),
        Expr::Type(_) => true,
    }
}

/// Every envelope of the tree carries exactly the free variables of its
/// subtree, each once.
pub open spec fn annotated(ei: ExprInfo) -> bool
    decreases ei,
{
    &&& ei.free_vars.wf()
    &&& ei.free_vars.as_set() == free_vars(ei@)
    &&& match *ei.expr {
        Expr::Var(_) => true,
        Expr::Lit(_) => true,
        Expr::App(f, a) => annotated(*f) && annotated(*a),
        Expr::Lam(_, b) => annotated(*b),
        Expr::Let(_, b, v) => annotated(*b) && annotated(*v),
        Expr::If(c, t, e) => annotated(*c) && annotated(*t) && annotated(*e),
        Expr::Type(_) => true,
    }
}

/// The text of a term. A term that holds a type node has none.
pub open spec fn text(t: Term) -> Seq<char>
    decreases t,
{
    match t {
        Term::Var { name, term } => name,
        Term::Lit { generator, free_vars, name } => name,
        Term::App(f, a) => "("@ + text(*f) + ") ("@ + text(*a) + ")"@,
        Term::Lam(x, b) => "\\"@ + x + "->("@ + text(*b) + ")"@,
        Term::Let(x, b, v) => "let "@ + x + "="@ + text(*b) + " in ("@ + text(*v) + ")"@,
        Term::If(c, t, e) => "if "@ + text(*c) + " then "@ + text(*t) + " else ("@ + text(*e)
            + ")"@,
        Term::Type => Seq::empty(),
    }
}

/// No type node occurs in the term.
pub open spec fn type_free(t: Term) -> bool
    decreases t,
{
    match t {
        Term::Var { name, term } => true,
        Term::Lit { generator, free_vars, name } => true,
        Term::App(f, a) => type_free(*f) && type_free(*a),
        Term::Lam(x, b) => type_free(*b),
        Term::Let(x, b, v) => type_free(*b) && type_free(*v),
        Term::If(c, t, e) => type_free(*c) && type_free(*t) && type_free(*e),
        Term::Type => false,
    }
}

impl ExprInfo {
    /// The same node under an envelope that carries `free_vars`.
    pub fn with_free_vars(ei: &Arc<ExprInfo>, free_vars: NameSet) -> (r: Arc<ExprInfo>)
        ensures
            r.expr == ei.expr,
            r.free_vars == free_vars,
    {
        Arc::new(ExprInfo { expr: ei.expr.clone(), free_vars })
    }
}

impl Expr {
    /// The node under an envelope with no free variables recorded.
    pub fn into_expr_info(e: &Arc<Expr>) -> (r: Arc<ExprInfo>)
        ensures
            r.expr == *e,
            r.free_vars@ == Seq::<Name>::empty(),
    {
        Arc::new(ExprInfo { expr: e.clone(), free_vars: NameSet::new() })
    }

    /// The expression as text.
    pub fn to_string(&self) -> (s: String)
        requires
            type_free(self@),
        ensures
            s@ == text(self@),
        decreases self,
    {
        match self {
            Expr::Var(v) => v.name().clone(),
            Expr::Lit(l) => l.name.clone(),
            Expr::App(f, a) => {
                let mut s = String::from_str("(");
                s.append(f.expr.to_string().as_str());
                s.append(") (");
                s.append(a.expr.to_string().as_str());
                s.append(")");
                s
            },
            Expr::Lam(x, fx) => {
                let mut s = String::from_str("\\");
                s.append(x.name().as_str());
                s.append("->(");
                s.append(fx.expr.to_string().as_str());
                s.append(")");
                s
            },
            Expr::Let(x, b, v) => {
                let mut s = String::from_str("let ");
                s.append(x.name().as_str());
                s.append("=");
                s.append(b.expr.to_string().as_str());
                s.append(" in (");
                s.append(v.expr.to_string().as_str());
                s.append(")");
                s
            },
            Expr::If(c, t, e) => {
                let mut s = String::from_str("if ");
                s.append(c.expr.to_string().as_str());
                s.append(" then ");
                s.append(t.expr.to_string().as_str());
                s.append(" else (");
                s.append(e.expr.to_string().as_str());
                s.append(")");
                s
            },
            Expr::Type(_) => vstd::pervasive::unreached(),
        }
    }
}

/// The kind of the types of values.
pub fn star_kind() -> (k: Arc<Kind>)
    ensures
        *k is Star,
{
    Arc::new(Kind::Star)
}

/// The type of the functions from `src` to `dst`.
pub fn lambda_ty(src: Arc<Type>, dst: Arc<Type>) -> (t: Arc<Type>)
    ensures
        *t == Type::FunTy(src, dst),
{
    Arc::new(Type::FunTy(src, dst))
}

/// A type variable.
pub fn tyvar_var(var_name: &str) -> (v: Arc<Var>)
    ensures
        !v.is_term(),
        v.spec_name() == var_name@,
{
    Arc::new(Var::TyVar { name: String::from_str(var_name) })
}

/// The type that a type variable stands for.
pub fn tyvar_ty(var_name: &str) -> (t: Arc<Type>)
    ensures
        *t matches Type::TyVar(v) && !v.is_term() && v.spec_name() == var_name@,
{
    Arc::new(Type::TyVar(tyvar_var(var_name)))
}

/// A type that is polymorphic in a type variable.
pub fn forall_ty(var_name: &str, ty: Arc<Type>) -> (t: Arc<Type>)
    ensures
        *t matches Type::ForAllTy(v, body) && !v.is_term() && v.spec_name() == var_name@ && body
            == ty,
{
    Arc::new(Type::ForAllTy(tyvar_var(var_name), ty))
}

/// A term variable.
pub fn var_var(var_name: &str) -> (v: Arc<Var>)
    ensures
        v.is_term(),
        v.spec_name() == var_name@,
{
    Arc::new(Var::TermVar { name: String::from_str(var_name) })
}

/// A literal that produces its value as `generator` says, reads the variables
/// `free_vars` and is shown as `name`.
pub fn lit(generator: LiteralGenerator, free_vars: Vec<String>, name: String) -> (r: Arc<ExprInfo>)
    ensures
        r@ == (Term::Lit { generator, free_vars: names_of(free_vars@), name: name@ }),
        r.free_vars@ == Seq::<Name>::empty(),
{
    Expr::into_expr_info(&Arc::new(Expr::Lit(Arc::new(Literal { generator, free_vars, name }))))
}

/// `let var = bound in expr`.
pub fn let_in(var: Arc<Var>, bound: Arc<ExprInfo>, expr: Arc<ExprInfo>) -> (r: Arc<ExprInfo>)
    ensures
        *r.expr == Expr::Let(var, bound, expr),
        r@ == Term::Let(var.spec_name(), Box::new(bound@), Box::new(expr@)),
        r.free_vars@ == Seq::<Name>::empty(),
{
    Expr::into_expr_info(&Arc::new(Expr::Let(var, bound, expr)))
}

/// `\\var -> val`.
pub fn lam(var: Arc<Var>, val: Arc<ExprInfo>) -> (r: Arc<ExprInfo>)
    ensures
        *r.expr == Expr::Lam(var, val),
        r@ == Term::Lam(var.spec_name(), Box::new(val@)),
        r.free_vars@ == Seq::<Name>::empty(),
{
    Expr::into_expr_info(&Arc::new(Expr::Lam(var, val)))
}

/// `lam` applied to `arg`.
pub fn app(lam: Arc<ExprInfo>, arg: Arc<ExprInfo>) -> (r: Arc<ExprInfo>)
    ensures
        *r.expr == Expr::App(lam, arg),
        r@ == Term::App(Box::new(lam@), Box::new(arg@)),
        r.free_vars@ == Seq::<Name>::empty(),
{
    Expr::into_expr_info(&Arc::new(Expr::App(lam, arg)))
}

/// A reference to a term variable.
pub fn var(var_name: &str) -> (r: Arc<ExprInfo>)
    ensures
        r@ == (Term::Var { name: var_name@, term: true }),
        r.free_vars@ == Seq::<Name>::empty(),
{
    Expr::into_expr_info(&Arc::new(Expr::Var(var_var(var_name))))
}

/// `if cond then then_expr else else_expr`.
pub fn conditional(cond: Arc<ExprInfo>, then_expr: Arc<ExprInfo>, else_expr: Arc<ExprInfo>) -> (r:
    Arc<ExprInfo>)
    ensures
        *r.expr == Expr::If(cond, then_expr, else_expr),
        r@ == Term::If(Box::new(cond@), Box::new(then_expr@), Box::new(else_expr@)),
        r.free_vars@ == Seq::<Name>::empty(),
{
    Expr::into_expr_info(&Arc::new(Expr::If(cond, then_expr, else_expr)))
}

/// The set of the names in `v`, as a `NameSet`.
fn name_set_of(v: &Vec<String>) -> (r: NameSet)
    ensures
        r.wf(),
        r@ == merged(Seq::empty(), names_of(v@)),
        r.as_set() == names_of(v@).to_set(),
{
    let mut r = NameSet::new();
    let mut i: usize = 0;
    while i < v.len()
        invariant
            i <= v@.len(),
            r.wf(),
            r@ == merged(Seq::empty(), names_of(v@).take(i as int)),
        decreases v@.len() - i,
    {
        r.insert(v[i].clone());
        proof {
            let seen = names_of(v@).take(i as int);
            let next = names_of(v@).take(i as int + 1);
            assert(next.drop_last() =~= seen);
            assert(next.last() == v@[i as int]@);
        }
        i += 1;
    }
    proof {
        assert(names_of(v@).take(i as int) =~= names_of(v@));
        lemma_merged(Seq::empty(), names_of(v@));
        assert(r.as_set() =~= names_of(v@).to_set());
    }
    r
}

/// Rebuilds the tree with every envelope carrying the free variables of its
/// subtree. A type node stays as it is and gets the empty set.
pub fn calculate_free_vars(ei: Arc<ExprInfo>) -> (r: Arc<ExprInfo>)
    ensures
        r@ == ei@,
        annotated(*r),
        listed(*r),
        *ei.expr is Type ==> r.expr == ei.expr,
    decreases ei,
{
    match &*ei.expr {
        Expr::Var(var) => {
            let mut free_vars = NameSet::new();
            free_vars.insert(var.name().clone());
            assert(free_vars@ =~= seq![var.spec_name()]);
            assert(free_vars.as_set() =~= set![var.spec_name()]) by {
                assert(free_vars@[0] == var.spec_name());
            }
            let r = ExprInfo::with_free_vars(&ei, free_vars);
            assert(annotated(*r));
            assert(listed(*r));
            r
        },
        Expr::Lit(lit) => {
            let free_vars = name_set_of(&lit.free_vars);
            let r = ExprInfo::with_free_vars(&ei, free_vars);
            assert(annotated(*r));
            assert(listed(*r));
            r
        },
        Expr::App(func, arg) => {
            let func = calculate_free_vars(func.clone());
            let arg = calculate_free_vars(arg.clone());
            let mut free_vars = func.free_vars.clone();
            free_vars.extend(&arg.free_vars);
            proof {
                lemma_merged(func.free_vars@, arg.free_vars@);
                assert(free_vars.as_set() =~= func.free_vars.as_set().union(
                    arg.free_vars.as_set(),
                ));
            }
            let r = ExprInfo::with_free_vars(&app(func, arg), free_vars);
            assert(annotated(*r));
            assert(listed(*r));
            r
        },
        Expr::Lam(arg, val) => {
            let val = calculate_free_vars(val.clone());
            let mut free_vars = val.free_vars.clone();
            free_vars.remove(arg.name().as_str());
            let ghost mid = free_vars@;
            free_vars.remove(SELF_NAME);
            proof {
                lemma_without(val.free_vars@, arg.spec_name());
                lemma_without(mid, SELF_NAME@);
                assert(free_vars.as_set() =~= val.free_vars.as_set().remove(
                    arg.spec_name(),
                ).remove(SELF_NAME@));
            }
            let r = ExprInfo::with_free_vars(&lam(arg.clone(), val), free_vars);
            assert(annotated(*r));
            assert(listed(*r));
            r
        },
        Expr::Let(var, bound, val) => {
            let bound = calculate_free_vars(bound.clone());
            let val = calculate_free_vars(val.clone());
            let mut free_vars = val.free_vars.clone();
            free_vars.remove(var.name().as_str());
            let ghost mid = free_vars@;
            free_vars.extend(&bound.free_vars);
            proof {
                lemma_without(val.free_vars@, var.spec_name());
                lemma_merged(mid, bound.free_vars@);
                assert(free_vars.as_set() =~= val.free_vars.as_set().remove(
                    var.spec_name(),
                ).union(bound.free_vars.as_set()));
            }
            let r = ExprInfo::with_free_vars(&let_in(var.clone(), bound, val), free_vars);
            assert(annotated(*r));
            assert(listed(*r));
            r
        },
        Expr::If(cond, then_expr, else_expr) => {
            let cond = calculate_free_vars(cond.clone());
            let then_expr = calculate_free_vars(then_expr.clone());
            let else_expr = calculate_free_vars(else_expr.clone());
            let mut free_vars = cond.free_vars.clone();
            free_vars.extend(&then_expr.free_vars);
            let ghost mid = free_vars@;
            free_vars.extend(&else_expr.free_vars);
            proof {
                lemma_merged(cond.free_vars@, then_expr.free_vars@);
                lemma_merged(mid, else_expr.free_vars@);
                assert(free_vars.as_set() =~= cond.free_vars.as_set().union(
                    then_expr.free_vars.as_set(),
                ).union(else_expr.free_vars.as_set()));
            }
            let r = ExprInfo::with_free_vars(&conditional(cond, then_expr, else_expr), free_vars);
            assert(annotated(*r));
            assert(listed(*r));
            r
        },
        Expr::Type(_) => {
            let r = ExprInfo::with_free_vars(&ei, NameSet::new());
            assert(r.free_vars.as_set() =~= Set::<Name>::empty());
            assert(listed(*r));
            r
        },
    }
}

/// A `let` is not recursive: what is free in the bound expression is free in
/// the whole `let`, the bound name included, and the body contributes its
/// free variables other than the bound name.
pub proof fn lemma_let_is_not_recursive(x: Name, bound: Term, body: Term)
    ensures
        free_vars(Term::Let(x, Box::new(bound), Box::new(body))) == free_vars(body).remove(
            x,
        ).union(free_vars(bound)),
        free_vars(bound).subset_of(free_vars(Term::Let(x, Box::new(bound), Box::new(body)))),
        free_vars(bound).contains(x) ==> free_vars(
            Term::Let(x, Box::new(bound), Box::new(body)),
        ).contains(x),
        !free_vars(bound).contains(x) ==> !free_vars(
            Term::Let(x, Box::new(bound), Box::new(body)),
        ).contains(x),
{
}

} // verus!
