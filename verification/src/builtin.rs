//! The literals: integer and boolean constants and the bodies of the
//! primitive operators.

use crate::ast::{
    lam, lit, names_of, var_var, ExprInfo, Literal, LiteralGenerator, Term, SELF_NAME,
};
use crate::context::{lemma_sizes, GenerationContext};
use crate::ir::{object_pointer, Args, BaseType, Inst, IrType, RuntimeFunctions, Value, ValueKind};
use crate::names::Name;
use crate::scope::{bound, top, ExprCode};
use crate::state::{
    advanced, lemma_advanced_trans, lemma_code_added_advances, lemma_intern, State,
};
use crate::types::{int_layout, ObjectType};
use std::sync::Arc;
use vstd::prelude::*;
use vstd::string::StringExecFns;

verus! {

/// The first `n` of `names` are bound to object pointers.
pub open spec fn operands_bound(st: State, names: Seq<Name>, n: nat) -> bool {
    &&& names.len() >= n
    &&& forall|i: int|
        0 <= i < n ==> bound(st.scope, #[trigger] names[i]) && top(st.scope, names[i]).code.ptr.ty
            == object_pointer()
}

/// Takes the operand `index` of a literal from the scope.
fn operand(lit: &Literal, index: usize, gc: &mut GenerationContext) -> (code: ExprCode)
    requires
        index < lit.free_vars@.len(),
        old(gc)@.has_runtime(),
        bound(old(gc)@.scope, names_of(lit.free_vars@)[index as int]),
        top(old(gc)@.scope, names_of(lit.free_vars@)[index as int]).code.ptr.ty == object_pointer(),
    ensures
        final(gc)@ == old(gc)@.var_retained_if_used_later(names_of(lit.free_vars@)[index as int]).0,
        code == old(gc)@.var_retained_if_used_later(names_of(lit.free_vars@)[index as int]).1,
        code.ptr.ty == object_pointer(),
        advanced(old(gc)@, final(gc)@),
        final(gc)@.scope == old(gc)@.scope,
        final(gc)@.cursor == old(gc)@.cursor,
        final(gc)@.has_runtime(),
{
    let code = gc.get_var_retained_if_used_later(lit.free_vars[index].as_str());
    proof {
        lemma_code_added_advances(old(gc)@, gc@);
    }
    code
}

/// Emits a literal that hands its operands to a runtime function and yields
/// what the function returns.
fn generate_runtime_literal(lit: &Literal, func: RuntimeFunctions, gc: &mut GenerationContext) -> (code:
    ExprCode)
    requires
        old(gc)@.has_runtime(),
        func is ArrayNew || func is ArrayRead || func is ArrayWrite || func is ArrayWriteUnique,
        operands_bound(old(gc)@, names_of(lit.free_vars@), crate::state::runtime_type(func).params as nat),
    ensures
        final(gc)@ == old(gc)@.runtime_literal(func, names_of(lit.free_vars@)).0,
        code.ptr == old(gc)@.runtime_literal(func, names_of(lit.free_vars@)).1,
        code.ptr.ty == object_pointer(),
        advanced(old(gc)@, final(gc)@),
        final(gc)@.scope == old(gc)@.scope,
        final(gc)@.cursor == old(gc)@.cursor,
        final(gc)@.has_runtime(),
{
    let ghost names = names_of(lit.free_vars@);
    assert(bound(gc@.scope, names[0]));
    assert(bound(gc@.scope, names[1]));
    let a = operand(lit, 0, gc);
    let ghost s1 = gc@;
    let b = operand(lit, 1, gc);
    let ghost s2 = gc@;
    proof {
        lemma_advanced_trans(old(gc)@, s1, s2);
    }
    let args = match func {
        RuntimeFunctions::ArrayNew | RuntimeFunctions::ArrayRead => Args::Two(a.ptr, b.ptr),
        _ => {
            assert(bound(gc@.scope, names[2]));
            let c = operand(lit, 2, gc);
            proof {
                lemma_advanced_trans(old(gc)@, s2, gc@);
            }
            Args::Three(a.ptr, b.ptr, c.ptr)
        },
    };
    let ghost s3 = gc@;
    let result = gc.call_runtime(func, args);
    proof {
        lemma_code_added_advances(s3, gc@);
        lemma_advanced_trans(old(gc)@, s3, gc@);
    }
    match result {
        Some(ptr) => ExprCode { ptr },
        None => a,
    }
}

/// Emits an integer or boolean constant: a fresh object whose field 1 holds
/// the value.
fn generate_constant(lit: &Literal, layout: ObjectType, value: Value, gc: &mut GenerationContext) -> (code:
    ExprCode)
    requires
        old(gc)@.has_runtime(),
        layout@.len() == 2,
    ensures
        final(gc)@ == old(gc)@.constant(layout@, lit.name@, value).0,
        code.ptr == old(gc)@.constant(layout@, lit.name@, value).1,
        code.ptr.ty.depth == 1,
        advanced(old(gc)@, final(gc)@),
        final(gc)@.scope == old(gc)@.scope,
        final(gc)@.cursor == old(gc)@.cursor,
        final(gc)@.has_runtime(),
{
    let obj = layout.build_allocate_shared_obj(gc, Some(lit.name.as_str()));
    let ghost allocated = gc@;
    proof {
        lemma_sizes(gc);
        lemma_intern(gc@, layout@);
    }
    let ty = gc.struct_type(&layout);
    let ghost s1 = gc@;
    gc.build_set_field(obj, ty, 1, value);
    proof {
        lemma_code_added_advances(s1, gc@);
        lemma_advanced_trans(allocated, s1, gc@);
        lemma_advanced_trans(old(gc)@, allocated, gc@);
    }
    ExprCode { ptr: obj }
}

/// Takes the two integer operands of a literal from the scope and loads
/// their values.
fn generate_int_operands(lit: &Literal, gc: &mut GenerationContext) -> (r: (Value, Value, Value, Value))
    requires
        old(gc)@.has_runtime(),
        operands_bound(old(gc)@, names_of(lit.free_vars@), 2),
    ensures
        final(gc)@ == old(gc)@.int_operands(names_of(lit.free_vars@)).0,
        r.0 == old(gc)@.int_operands(names_of(lit.free_vars@)).1,
        r.1 == old(gc)@.int_operands(names_of(lit.free_vars@)).2,
        r.2 == old(gc)@.int_operands(names_of(lit.free_vars@)).3,
        r.3 == old(gc)@.int_operands(names_of(lit.free_vars@)).4,
        r.0.ty == object_pointer(),
        r.1.ty == object_pointer(),
        advanced(old(gc)@, final(gc)@),
        final(gc)@.scope == old(gc)@.scope,
        final(gc)@.cursor == old(gc)@.cursor,
        final(gc)@.has_runtime(),
{
    let ghost names = names_of(lit.free_vars@);
    assert(bound(gc@.scope, names[0]));
    assert(bound(gc@.scope, names[1]));
    let lhs = operand(lit, 0, gc);
    let ghost s1 = gc@;
    let rhs = operand(lit, 1, gc);
    let ghost s2 = gc@;
    proof {
        lemma_advanced_trans(old(gc)@, s1, s2);
        lemma_sizes(gc);
        lemma_intern(gc@, int_layout());
    }
    let int_obj = ObjectType::int_obj_type();
    let int_ty = gc.struct_type(&int_obj);
    let ghost s3 = gc@;
    assert(gc@.has_field(int_ty, 1));
    let l = gc.build_load_field_of_obj(lhs.ptr, int_ty, 1);
    let r = gc.build_load_field_of_obj(rhs.ptr, int_ty, 1);
    proof {
        lemma_advanced_trans(old(gc)@, s2, s3);
        lemma_code_added_advances(s3, gc@);
        lemma_advanced_trans(old(gc)@, s3, gc@);
    }
    (lhs.ptr, rhs.ptr, l, r)
}

/// Releases the two operands of a literal.
fn release_operands(lhs: Value, rhs: Value, gc: &mut GenerationContext)
    requires
        old(gc)@.has_runtime(),
        lhs.ty == object_pointer(),
        rhs.ty == object_pointer(),
    ensures
        final(gc)@ == old(gc)@.release(lhs).release(rhs),
        advanced(old(gc)@, final(gc)@),
        final(gc)@.scope == old(gc)@.scope,
        final(gc)@.cursor == old(gc)@.cursor,
        final(gc)@.has_runtime(),
{
    gc.build_release(lhs);
    gc.build_release(rhs);
    proof {
        lemma_code_added_advances(old(gc)@, gc@);
    }
}

/// Emits the sum of two integer objects.
fn generate_int_add(lit: &Literal, gc: &mut GenerationContext) -> (code: ExprCode)
    requires
        old(gc)@.has_runtime(),
        operands_bound(old(gc)@, names_of(lit.free_vars@), 2),
    ensures
        final(gc)@ == old(gc)@.literal(LiteralGenerator::IntAdd, names_of(lit.free_vars@), lit.name@).0,
        code.ptr == old(gc)@.literal(LiteralGenerator::IntAdd, names_of(lit.free_vars@), lit.name@).1,
        code.ptr.ty.depth == 1,
        advanced(old(gc)@, final(gc)@),
        final(gc)@.scope == old(gc)@.scope,
        final(gc)@.cursor == old(gc)@.cursor,
        final(gc)@.has_runtime(),
{
    let (lhs, rhs, l, r) = generate_int_operands(lit, gc);
    let ghost s1 = gc@;
    let id = gc.emit(Inst::IntAdd { lhs: l, rhs: r });
    let sum = Value { kind: ValueKind::Inst(id), ty: IrType { base: BaseType::Int64, depth: 0 } };
    let ghost s2 = gc@;
    let obj = generate_constant(lit, ObjectType::int_obj_type(), sum, gc);
    let ghost s3 = gc@;
    release_operands(lhs, rhs, gc);
    proof {
        lemma_code_added_advances(s1, s2);
        lemma_advanced_trans(old(gc)@, s1, s2);
        lemma_advanced_trans(old(gc)@, s2, s3);
        lemma_advanced_trans(old(gc)@, s3, gc@);
    }
    obj
}

/// Emits the comparison of two integer objects.
fn generate_int_eq(lit: &Literal, gc: &mut GenerationContext) -> (code: ExprCode)
    requires
        old(gc)@.has_runtime(),
        operands_bound(old(gc)@, names_of(lit.free_vars@), 2),
    ensures
        final(gc)@ == old(gc)@.literal(LiteralGenerator::IntEq, names_of(lit.free_vars@), lit.name@).0,
        code.ptr == old(gc)@.literal(LiteralGenerator::IntEq, names_of(lit.free_vars@), lit.name@).1,
        code.ptr.ty.depth == 1,
        advanced(old(gc)@, final(gc)@),
        final(gc)@.scope == old(gc)@.scope,
        final(gc)@.cursor == old(gc)@.cursor,
        final(gc)@.has_runtime(),
{
    let (lhs, rhs, l, r) = generate_int_operands(lit, gc);
    let ghost s1 = gc@;
    let id = gc.emit(Inst::IntEq { lhs: l, rhs: r });
    let bit = Value { kind: ValueKind::Inst(id), ty: IrType { base: BaseType::Int1, depth: 0 } };
    let byte_id = gc.emit(
        Inst::IntCast { value: bit, to: IrType { base: BaseType::Int8, depth: 0 } },
    );
    let byte = Value { kind: ValueKind::Inst(byte_id), ty: IrType { base: BaseType::Int8, depth: 0 } };
    let ghost s2 = gc@;
    let obj = generate_constant(lit, ObjectType::bool_obj_type(), byte, gc);
    let ghost s3 = gc@;
    release_operands(lhs, rhs, gc);
    proof {
        lemma_code_added_advances(s1, s2);
        lemma_advanced_trans(old(gc)@, s1, s2);
        lemma_advanced_trans(old(gc)@, s2, s3);
        lemma_advanced_trans(old(gc)@, s3, gc@);
    }
    obj
}

/// Emits the body of the fixed-point operator: `f` applied to the enclosing
/// closure, and the result applied to `x`.
fn generate_fix(lit: &Literal, gc: &mut GenerationContext) -> (code: ExprCode)
    requires
        old(gc)@.has_runtime(),
        operands_bound(old(gc)@, names_of(lit.free_vars@), 3),
    ensures
        final(gc)@ == old(gc)@.literal(LiteralGenerator::Fix, names_of(lit.free_vars@), lit.name@).0,
        code.ptr == old(gc)@.literal(LiteralGenerator::Fix, names_of(lit.free_vars@), lit.name@).1,
        code.ptr.ty == object_pointer(),
        advanced(old(gc)@, final(gc)@),
        final(gc)@.scope == old(gc)@.scope,
        final(gc)@.cursor == old(gc)@.cursor,
        final(gc)@.has_runtime(),
{
    let ghost names = names_of(lit.free_vars@);
    assert(bound(gc@.scope, names[0]));
    assert(bound(gc@.scope, names[1]));
    assert(bound(gc@.scope, names[2]));
    let fixf = operand(lit, 0, gc);
    let ghost s1 = gc@;
    let x = operand(lit, 2, gc);
    let ghost s2 = gc@;
    let f = operand(lit, 1, gc);
    let ghost s3 = gc@;
    let f_fixf = gc.build_app(f.ptr, fixf.ptr);
    let ghost s4 = gc@;
    let f_fixf_x = gc.build_app(f_fixf.ptr, x.ptr);
    proof {
        lemma_advanced_trans(old(gc)@, s1, s2);
        lemma_advanced_trans(old(gc)@, s2, s3);
        lemma_advanced_trans(old(gc)@, s3, s4);
        lemma_advanced_trans(old(gc)@, s4, gc@);
    }
    f_fixf_x
}

/// Emits the code of a literal.
pub fn generate_literal(lit: Arc<Literal>, gc: &mut GenerationContext) -> (code: ExprCode)
    requires
        old(gc)@.has_runtime(),
        operands_bound(old(gc)@, names_of(lit.free_vars@), lit.generator.arity()),
    ensures
        final(gc)@ == old(gc)@.literal(lit.generator, names_of(lit.free_vars@), lit.name@).0,
        code.ptr == old(gc)@.literal(lit.generator, names_of(lit.free_vars@), lit.name@).1,
        code.ptr.ty.depth == 1,
        advanced(old(gc)@, final(gc)@),
        final(gc)@.scope == old(gc)@.scope,
        final(gc)@.cursor == old(gc)@.cursor,
        final(gc)@.has_runtime(),
{
    match lit.generator {
        LiteralGenerator::Int(v) => {
            let value = Value {
                kind: ValueKind::ConstInt(v as u64),
                ty: IrType { base: BaseType::Int64, depth: 0 },
            };
            generate_constant(&lit, ObjectType::int_obj_type(), value, gc)
        },
        LiteralGenerator::Bool(v) => {
            let value = Value {
                kind: ValueKind::ConstInt(if v { 1 } else { 0 }),
                ty: IrType { base: BaseType::Int8, depth: 0 },
            };
            generate_constant(&lit, ObjectType::bool_obj_type(), value, gc)
        },
        LiteralGenerator::IntAdd => generate_int_add(&lit, gc),
        LiteralGenerator::IntEq => generate_int_eq(&lit, gc),
        LiteralGenerator::Fix => generate_fix(&lit, gc),
        LiteralGenerator::NewArray => generate_runtime_literal(&lit, RuntimeFunctions::ArrayNew, gc),
        LiteralGenerator::ReadArray => generate_runtime_literal(
            &lit,
            RuntimeFunctions::ArrayRead,
            gc,
        ),
        LiteralGenerator::WriteArray => generate_runtime_literal(
            &lit,
            RuntimeFunctions::ArrayWrite,
            gc,
        ),
        LiteralGenerator::WriteArrayUnique => generate_runtime_literal(
            &lit,
            RuntimeFunctions::ArrayWriteUnique,
            gc,
        ),
    }
}

/// A primitive of two arguments: `\a -> \b -> literal`, where the literal
/// reads `a` and `b`.
pub open spec fn binary_term(generator: LiteralGenerator, a: Name, b: Name, name: Name) -> Term {
    Term::Lam(
        a,
        Box::new(Term::Lam(b, Box::new(Term::Lit { generator, free_vars: seq![a, b], name }))),
    )
}

/// A primitive of three arguments.
pub open spec fn ternary_term(generator: LiteralGenerator, a: Name, b: Name, c: Name, name: Name)
    -> Term {
    Term::Lam(
        a,
        Box::new(
            Term::Lam(
                b,
                Box::new(
                    Term::Lam(c, Box::new(Term::Lit { generator, free_vars: seq![a, b, c], name })),
                ),
            ),
        ),
    )
}

/// The sum of two integers.
pub open spec fn add_term() -> Term {
    binary_term(LiteralGenerator::IntAdd, "lhs"@, "rhs"@, "add lhs rhs"@)
}

/// Whether two integers are equal.
pub open spec fn eq_term() -> Term {
    binary_term(LiteralGenerator::IntEq, "lhs"@, "rhs"@, "eq lhs rhs"@)
}

/// The fixed-point operator: `fix f x` is `f (fix f) x`. Inside `\x -> ..`
/// the closure itself is `fix f`.
pub open spec fn fix_term() -> Term {
    Term::Lam(
        "f"@,
        Box::new(
            Term::Lam(
                "x"@,
                Box::new(
                    Term::Lit {
                        generator: LiteralGenerator::Fix,
                        free_vars: seq![SELF_NAME@, "f"@, "x"@],
                        name: "fix f x"@,
                    },
                ),
            ),
        ),
    )
}

/// An array of a given size whose elements are all a given value.
pub open spec fn new_array_term() -> Term {
    binary_term(LiteralGenerator::NewArray, "size"@, "value"@, "newArray size value"@)
}

/// The element of an array at an index.
pub open spec fn read_array_term() -> Term {
    binary_term(LiteralGenerator::ReadArray, "array"@, "idx"@, "readArray array idx"@)
}

/// An array with one element replaced, copied if it is shared.
pub open spec fn write_array_term() -> Term {
    ternary_term(
        LiteralGenerator::WriteArray,
        "array"@,
        "idx"@,
        "value"@,
        "writeArray array idx value"@,
    )
}

/// An array with one element replaced in place.
pub open spec fn write_array_unique_term() -> Term {
    ternary_term(
        LiteralGenerator::WriteArrayUnique,
        "array"@,
        "idx"@,
        "value"@,
        "writeArray! array idx value"@,
    )
}

fn binary_primitive(generator: LiteralGenerator, a: &str, b: &str, name: &str) -> (r: Arc<ExprInfo>)
    ensures
        r@ == binary_term(generator, a@, b@, name@),
{
    let mut names: Vec<String> = Vec::new();
    names.push(String::from_str(a));
    names.push(String::from_str(b));
    assert(names_of(names@) =~= seq![a@, b@]);
    lam(var_var(a), lam(var_var(b), lit(generator, names, String::from_str(name))))
}

fn ternary_primitive(generator: LiteralGenerator, a: &str, b: &str, c: &str, name: &str) -> (r:
    Arc<ExprInfo>)
    ensures
        r@ == ternary_term(generator, a@, b@, c@, name@),
{
    let mut names: Vec<String> = Vec::new();
    names.push(String::from_str(a));
    names.push(String::from_str(b));
    names.push(String::from_str(c));
    assert(names_of(names@) =~= seq![a@, b@, c@]);
    lam(
        var_var(a),
        lam(var_var(b), lam(var_var(c), lit(generator, names, String::from_str(name)))),
    )
}

/// The sum of two integers.
pub fn add() -> (r: Arc<ExprInfo>)
    ensures
        r@ == add_term(),
{
    binary_primitive(LiteralGenerator::IntAdd, "lhs", "rhs", "add lhs rhs")
}

/// Whether two integers are equal.
pub fn eq() -> (r: Arc<ExprInfo>)
    ensures
        r@ == eq_term(),
{
    binary_primitive(LiteralGenerator::IntEq, "lhs", "rhs", "eq lhs rhs")
}

/// The fixed-point operator.
pub fn fix() -> (r: Arc<ExprInfo>)
    ensures
        r@ == fix_term(),
{
    let mut names: Vec<String> = Vec::new();
    names.push(String::from_str(SELF_NAME));
    names.push(String::from_str("f"));
    names.push(String::from_str("x"));
    assert(names_of(names@) =~= seq![SELF_NAME@, "f"@, "x"@]);
    lam(
        var_var("f"),
        lam(var_var("x"), lit(LiteralGenerator::Fix, names, String::from_str("fix f x"))),
    )
}

/// An array of a given size whose elements are all a given value.
pub fn new_array() -> (r: Arc<ExprInfo>)
    ensures
        r@ == new_array_term(),
{
    binary_primitive(LiteralGenerator::NewArray, "size", "value", "newArray size value")
}

/// The element of an array at an index.
pub fn read_array() -> (r: Arc<ExprInfo>)
    ensures
        r@ == read_array_term(),
{
    binary_primitive(LiteralGenerator::ReadArray, "array", "idx", "readArray array idx")
}

/// An array with one element replaced. An array that is shared is copied.
pub fn write_array() -> (r: Arc<ExprInfo>)
    ensures
        r@ == write_array_term(),
{
    ternary_primitive(
        LiteralGenerator::WriteArray,
        "array",
        "idx",
        "value",
        "writeArray array idx value",
    )
}

/// An array with one element replaced in place. The array must not be
/// shared.
pub fn write_array_unique() -> (r: Arc<ExprInfo>)
    ensures
        r@ == write_array_unique_term(),
{
    ternary_primitive(
        LiteralGenerator::WriteArrayUnique,
        "array",
        "idx",
        "value",
        "writeArray! array idx value",
    )
}

} // verus!
