use lambda_jit::ast::{
    app, calculate_free_vars, conditional, lam, let_in, lit, var, var_var, Expr, ExprInfo,
    LiteralGenerator, Type, SELF_NAME,
};
use lambda_jit::backend::{verdict, verify_module, BackendError};
use lambda_jit::context::GenerationContext;
use lambda_jit::ir::{
    Args, BaseType, BlockName, FunctionKind, FunctionType, Inst, IrType, ReturnType,
    RuntimeFunctions, Value, ValueKind,
};
use lambda_jit::machine::{execute, find_main, ExecutionError};
use lambda_jit::names::NameSet;
use lambda_jit::parser::{characters, parse_source, tokenize, ParseError, Token};
use lambda_jit::runner::{
    compile, run_ast, run_source, CompileError, OptimizationLevel, RunError,
};
use lambda_jit::runtime::build_runtime;
use lambda_jit::scope::{add_i32_to_u32, ExprCode, LocalVariables};
use lambda_jit::text::{render_decimal, render_inst, render_module, render_signed, render_type};
use lambda_jit::types::{
    control_block_fields, control_block_type, dtor_type, lambda_function_type, obj_id_type,
    ptr_to_control_block_type, ptr_to_object_type, ptr_type, refcnt_type, ObjectFieldType,
    ObjectType,
};
use std::sync::Arc;

fn names(list: &[&str]) -> NameSet {
    let mut set = NameSet::new();
    for name in list {
        set.insert(name.to_string());
    }
    set
}

fn members(set: &NameSet) -> Vec<String> {
    let mut v = Vec::new();
    for i in 0..set.len() {
        v.push(set.get(i).clone());
    }
    v
}

fn annotated(source: &str) -> Arc<ExprInfo> {
    calculate_free_vars(parse_source(source).unwrap())
}

fn object_value(id: usize) -> Value {
    Value { kind: ValueKind::Inst(id), ty: ptr_to_object_type() }
}

#[test]
fn name_set_keeps_first_insertion_order() {
    let mut set = names(&["b", "a", "b", "c"]);
    assert_eq!(members(&set), vec!["b", "a", "c"]);
    assert!(set.contains("a"));
    assert!(!set.contains("d"));
    set.remove("a");
    assert_eq!(members(&set), vec!["b", "c"]);
    set.remove("zzz");
    assert_eq!(members(&set), vec!["b", "c"]);
    set.extend(&names(&["c", "x", "b", "y"]));
    assert_eq!(members(&set), vec!["b", "c", "x", "y"]);
    assert_eq!(set.clone().len(), 4);
}

#[test]
fn free_vars_of_each_form() {
    let e = annotated("f x");
    assert_eq!(members(&e.free_vars), vec!["f", "x"]);
    let e = annotated("\\x -> f x y");
    assert_eq!(members(&e.free_vars), vec!["f", "y"]);
    let e = annotated("if c then t else e");
    assert_eq!(members(&e.free_vars), vec!["c", "t", "e"]);
    let e = annotated("5");
    assert_eq!(e.free_vars.len(), 0);
    let e = annotated("let y = a in y b");
    assert_eq!(members(&e.free_vars), vec!["b", "a"]);
}

#[test]
fn free_vars_annotate_every_node() {
    let e = annotated("let y = g 1 in \\x -> y x z");
    match &*e.expr {
        Expr::Let(_, bound, body) => {
            assert_eq!(members(&bound.free_vars), vec!["g"]);
            assert_eq!(members(&body.free_vars), vec!["y", "z"]);
            match &*body.expr {
                Expr::Lam(_, inner) => assert_eq!(members(&inner.free_vars), vec!["y", "x", "z"]),
                _ => panic!("a lambda was expected"),
            }
        },
        _ => panic!("a let was expected"),
    }
    assert_eq!(members(&e.free_vars), vec!["z", "g"]);
}

#[test]
fn let_is_not_recursive() {
    // The `x` of the bound expression is the outer one: it stays free.
    let e = annotated("let x = f x in g x");
    assert_eq!(members(&e.free_vars), vec!["g", "f", "x"]);
    let e = annotated("let x = 1 in g x");
    assert_eq!(members(&e.free_vars), vec!["g"]);
    assert_eq!(
        run_source("let x = 2 in let x = add x 3 in x", OptimizationLevel::Default),
        Ok(5)
    );
}

#[test]
fn lambda_does_not_capture_itself() {
    let body = lit(
        LiteralGenerator::Fix,
        vec![SELF_NAME.to_string(), "f".to_string(), "x".to_string()],
        "fix f x".to_string(),
    );
    let e = calculate_free_vars(lam(var_var("x"), body));
    assert_eq!(members(&e.free_vars), vec!["f"]);
}

#[test]
fn type_node_has_no_free_vars() {
    let ty = Arc::new(Type::TyVar(lambda_jit::ast::tyvar_var("a")));
    let node = Arc::new(ExprInfo { expr: Arc::new(Expr::Type(ty)), free_vars: names(&["stale"]) });
    let e = calculate_free_vars(node);
    assert_eq!(e.free_vars.len(), 0);
}

#[test]
fn shadowing_takes_the_inner_binding() {
    for a in ["-5", "0", "77", "add 1 2"] {
        let source = format!("let x = {} in let x = 5 in x", a);
        assert_eq!(run_source(&source, OptimizationLevel::Default), Ok(5));
    }
}

#[test]
fn text_of_expressions() {
    let e = parse_source("let f = \\x -> add x 3 in if f 5 then 1 else f -2").unwrap();
    assert_eq!(
        e.expr.to_string(),
        "let f=\\x->(((add) (x)) (3)) in (if (f) (5) then 1 else ((f) (-2)))"
    );
    assert_eq!(var("abc").expr.to_string(), "abc");
    assert_eq!(app(var("f"), var("x")).expr.to_string(), "(f) (x)");
    assert_eq!(lam(var_var("x"), var("x")).expr.to_string(), "\\x->(x)");
    assert_eq!(let_in(var_var("x"), var("a"), var("b")).expr.to_string(), "let x=a in (b)");
    assert_eq!(
        conditional(var("c"), var("t"), var("e")).expr.to_string(),
        "if c then t else (e)"
    );
}

#[test]
fn object_layouts() {
    assert_eq!(
        ObjectType::int_obj_type().field_types,
        vec![ObjectFieldType::ControlBlock, ObjectFieldType::Int]
    );
    assert_eq!(
        ObjectType::bool_obj_type().field_types,
        vec![ObjectFieldType::ControlBlock, ObjectFieldType::Bool]
    );
    assert_eq!(
        ObjectType::lam_obj_type().field_types,
        vec![ObjectFieldType::ControlBlock, ObjectFieldType::LambdaFunction]
    );
    assert_eq!(
        ObjectType::shared_obj_type(vec![ObjectFieldType::SubObject, ObjectFieldType::Int])
            .field_types,
        vec![ObjectFieldType::ControlBlock, ObjectFieldType::SubObject, ObjectFieldType::Int]
    );
    let a = ObjectType::int_obj_type();
    assert!(a.same(&a.clone()));
    assert!(!a.same(&ObjectType::bool_obj_type()));
    assert!(!a.same(&ObjectType { field_types: vec![ObjectFieldType::ControlBlock] }));
}

#[test]
fn types_of_the_emitted_code() {
    let i64_ty = IrType { base: BaseType::Int64, depth: 0 };
    assert_eq!(refcnt_type(), i64_ty);
    assert_eq!(obj_id_type(), i64_ty);
    assert_eq!(ptr_to_object_type(), IrType { base: BaseType::Int8, depth: 1 });
    assert_eq!(control_block_type(), IrType { base: BaseType::ControlBlock, depth: 0 });
    assert_eq!(ptr_to_control_block_type(), IrType { base: BaseType::ControlBlock, depth: 1 });
    assert_eq!(ptr_type(i64_ty), IrType { base: BaseType::Int64, depth: 1 });
    assert_eq!(dtor_type(), FunctionType { ret: ReturnType::Void, params: 1 });
    assert_eq!(lambda_function_type(), FunctionType { ret: ReturnType::ObjectPtr, params: 2 });
    let dtor_ptr = IrType { base: BaseType::Function(dtor_type()), depth: 1 };
    assert_eq!(control_block_fields(false), vec![i64_ty, dtor_ptr]);
    assert_eq!(control_block_fields(true), vec![i64_ty, dtor_ptr, i64_ty]);
    assert_eq!(ObjectFieldType::SubObject.to_basic_type(), ptr_to_object_type());
    assert_eq!(ObjectFieldType::ControlBlock.to_basic_type(), control_block_type());
    assert_eq!(ObjectFieldType::Int.to_basic_type(), i64_ty);
    assert_eq!(ObjectFieldType::Bool.to_basic_type(), IrType { base: BaseType::Int8, depth: 0 });
    assert_eq!(
        ObjectFieldType::LambdaFunction.to_basic_type(),
        IrType { base: BaseType::Function(lambda_function_type()), depth: 1 }
    );
}

#[test]
fn struct_types_are_shared_by_layout() {
    let mut gc = GenerationContext::new(false);
    let a = ObjectType::int_obj_type().to_struct_type(&mut gc.context);
    let b = ObjectType::bool_obj_type().to_struct_type(&mut gc.context);
    let c = ObjectType::int_obj_type().to_struct_type(&mut gc.context);
    assert_eq!(a, IrType { base: BaseType::Object(0), depth: 0 });
    assert_eq!(b, IrType { base: BaseType::Object(1), depth: 0 });
    assert_eq!(c, a);
    assert_eq!(gc.context.layouts.len(), 2);
}

#[test]
fn scope_is_a_stack_per_name() {
    let mut scope = LocalVariables::new();
    scope.push("x", &ExprCode { ptr: object_value(1) });
    scope.push("y", &ExprCode { ptr: object_value(2) });
    scope.push("x", &ExprCode { ptr: object_value(3) });
    assert_eq!(scope.get("x").code.ptr, object_value(3));
    assert_eq!(scope.get("x").used_later, 0);
    scope.modify_used_later(&names(&["x", "y"]), 1);
    scope.increment_used_later(&names(&["x"]));
    assert_eq!(scope.get("x").used_later, 2);
    assert_eq!(scope.get("y").used_later, 1);
    scope.pop("x");
    // The shadowed binding was not touched.
    assert_eq!(scope.get("x").code.ptr, object_value(1));
    assert_eq!(scope.get("x").used_later, 0);
    scope.decrement_used_later(&names(&["y"]));
    assert_eq!(scope.get("y").used_later, 0);
    scope.pop("x");
    assert!(!scope.contains("x"));
    assert!(scope.contains("y"));
}

#[test]
fn field_of_a_variable_is_loaded() {
    let mut gc = GenerationContext::new(false);
    let f = gc.add_function(FunctionKind::Main, FunctionType { ret: ReturnType::Int64, params: 0 });
    let bb = gc.append_basic_block(f, BlockName::Entry);
    gc.position_at_end(bb);
    let mut scope = LocalVariables::new();
    scope.push("x", &ExprCode { ptr: object_value(5) });
    let v = scope.get_field("x", 1, control_block_type(), &mut gc);
    assert_eq!(v.ty, IrType { base: BaseType::Function(dtor_type()), depth: 1 });
    assert_eq!(
        gc.module.code[0].inst,
        Inst::PointerCast { value: object_value(5), to: ptr_to_control_block_type() }
    );
    assert!(matches!(gc.module.code[1].inst, Inst::StructGep { index: 1, .. }));
    assert!(matches!(gc.module.code[2].inst, Inst::Load { .. }));
}

#[test]
fn signed_steps_on_unsigned_counters() {
    assert_eq!(add_i32_to_u32(5, 1), 6);
    assert_eq!(add_i32_to_u32(5, -1), 4);
    assert_eq!(add_i32_to_u32(5, -5), 0);
    assert_eq!(add_i32_to_u32(0, i32::MAX), 2147483647);
    assert_eq!(add_i32_to_u32(2147483648, i32::MIN), 0);
    assert_eq!(add_i32_to_u32(u32::MAX - 1, 1), u32::MAX);
}

#[test]
fn facade_emits_cast_gep_and_load() {
    let mut gc = GenerationContext::new(false);
    build_runtime(&mut gc);
    let f = gc.add_function(FunctionKind::Main, FunctionType { ret: ReturnType::Int64, params: 0 });
    let bb = gc.append_basic_block(f, BlockName::Entry);
    gc.position_at_end(bb);
    let obj = Value { kind: ValueKind::Param { function: f, index: 0 }, ty: ptr_to_object_type() };
    // A pointer that has the type already is not cast.
    assert_eq!(gc.build_pointer_cast(obj, ptr_to_object_type()), obj);
    assert_eq!(gc.module.code.len(), 0);
    let v = gc.build_load_field_of_obj(obj, control_block_type(), 0);
    assert_eq!(v, Value { kind: ValueKind::Inst(2), ty: refcnt_type() });
    let cast = Value { kind: ValueKind::Inst(0), ty: ptr_to_control_block_type() };
    let field = Value { kind: ValueKind::Inst(1), ty: IrType { base: BaseType::Int64, depth: 1 } };
    let code: Vec<Inst> = gc.module.code.iter().map(|e| e.inst).collect();
    assert_eq!(
        code,
        vec![
            Inst::PointerCast { value: obj, to: ptr_to_control_block_type() },
            Inst::StructGep { ptr: cast, index: 0 },
            Inst::Load { ptr: field },
        ]
    );
    assert!(gc.module.code.iter().all(|e| e.block == Some(bb)));
}

#[test]
fn facade_marks_apply_as_tail_call() {
    let mut gc = GenerationContext::new(false);
    build_runtime(&mut gc);
    let f = gc.add_function(FunctionKind::Lambda, lambda_function_type());
    let bb = gc.append_basic_block(f, BlockName::Entry);
    gc.position_at_end(bb);
    let lambda = Value { kind: ValueKind::Param { function: f, index: 1 }, ty: ptr_to_object_type() };
    let arg = Value { kind: ValueKind::Param { function: f, index: 0 }, ty: ptr_to_object_type() };
    let code = gc.build_app(lambda, arg);
    assert_eq!(code.ptr.ty, ptr_to_object_type());
    match gc.module.code.last().unwrap().inst {
        Inst::Call { callee, args, tail } => {
            assert!(tail);
            assert_eq!(args, Args::Two(arg, lambda));
            assert_eq!(callee.ty, ObjectFieldType::LambdaFunction.to_basic_type());
        },
        other => panic!("a call was expected, not {:?}", other),
    }
    gc.build_retain(arg);
    gc.build_release(arg);
    let n = gc.module.code.len();
    let retain = gc.runtime(RuntimeFunctions::RetainObj).unwrap();
    let release = gc.runtime(RuntimeFunctions::ReleaseObj).unwrap();
    let callee = |function: usize| Value {
        kind: ValueKind::Function(function),
        ty: IrType { base: BaseType::Function(dtor_type()), depth: 1 },
    };
    assert_eq!(
        gc.module.code[n - 2].inst,
        Inst::Call { callee: callee(retain), args: Args::One(arg), tail: false }
    );
    assert_eq!(
        gc.module.code[n - 1].inst,
        Inst::Call { callee: callee(release), args: Args::One(arg), tail: false }
    );
}

#[test]
fn variable_is_retained_only_if_used_later() {
    let mut gc = GenerationContext::new(false);
    build_runtime(&mut gc);
    gc.scope.push("x", &ExprCode { ptr: object_value(7) });
    let code = gc.get_var_retained_if_used_later("x");
    assert_eq!(code.ptr, object_value(7));
    assert_eq!(gc.module.code.len(), 0);
    gc.scope.increment_used_later(&names(&["x"]));
    let code = gc.get_var_retained_if_used_later("x");
    assert_eq!(code.ptr, object_value(7));
    assert_eq!(gc.module.code.len(), 1);
}

fn is_apply(inst: &Inst) -> Option<bool> {
    match inst {
        Inst::Call { callee, tail, .. } => match (callee.kind, callee.ty.base) {
            (ValueKind::Inst(_), BaseType::Function(ty)) if ty == lambda_function_type() => {
                Some(*tail)
            },
            _ => None,
        },
        _ => None,
    }
}

#[test]
fn every_apply_is_a_tail_call() {
    let source = "let g = fix \\f -> \\x -> if eq x 0 then 0 else add x (f (add x -1)); g 10";
    let compiled = compile(parse_source(source).unwrap(), true).ok().unwrap();
    let applies: Vec<bool> =
        compiled.gc.module.code.iter().filter_map(|e| is_apply(&e.inst)).collect();
    assert!(applies.len() >= 6);
    assert!(applies.iter().all(|tail| *tail));
    // The calls of the runtime are not tail calls.
    assert!(compiled.gc.module.code.iter().any(|e| matches!(
        e.inst,
        Inst::Call { tail: false, .. }
    )));
}

#[test]
fn one_destructor_per_layout() {
    let source = "let a = 1 in let b = 2 in let f = \\x -> add x a in let g = \\y -> add y b in add (f 1) (g 2)";
    let compiled = compile(parse_source(source).unwrap(), true).ok().unwrap();
    let module = &compiled.gc.module;
    let dtors =
        module.functions.iter().filter(|f| matches!(f.kind, FunctionKind::Dtor)).count();
    let mut layouts: Vec<usize> = Vec::new();
    let mut stored: Vec<(usize, usize)> = Vec::new();
    let mut current: Option<usize> = None;
    for entry in module.code.iter() {
        match entry.inst {
            Inst::Malloc { ty } => match ty.base {
                BaseType::Object(l) => {
                    current = Some(l);
                    if !layouts.contains(&l) {
                        layouts.push(l);
                    }
                },
                _ => panic!("an object is allocated"),
            },
            Inst::Store { value, .. } => {
                if let (ValueKind::Function(f), BaseType::Function(ty)) =
                    (value.kind, value.ty.base)
                {
                    if ty == dtor_type() {
                        stored.push((current.unwrap(), f));
                    }
                }
            },
            _ => {},
        }
    }
    // Integers are allocated many times, closures of one capture twice.
    assert!(stored.len() > layouts.len());
    assert_eq!(dtors, layouts.len());
    for (layout, dtor) in stored.iter() {
        for (other_layout, other_dtor) in stored.iter() {
            assert_eq!(layout == other_layout, dtor == other_dtor);
        }
    }
    // Every destructor is registered under its layout, once.
    let registered = compiled
        .gc
        .runtimes
        .iter()
        .filter(|(k, _)| matches!(k, RuntimeFunctions::Dtor(_)))
        .count();
    assert_eq!(registered, dtors);
}

#[test]
fn destructor_is_found_again() {
    let mut gc = GenerationContext::new(false);
    build_runtime(&mut gc);
    let layout = ObjectType::shared_obj_type(vec![ObjectFieldType::SubObject]);
    let first = layout.generate_func_dtor(&mut gc);
    let emitted = gc.module.code.len();
    let functions = gc.module.functions.len();
    let second = layout.generate_func_dtor(&mut gc);
    assert_eq!(first, second);
    assert_eq!(gc.module.code.len(), emitted);
    assert_eq!(gc.module.functions.len(), functions);
    let before = gc.module.code.len();
    let other = ObjectType::int_obj_type().generate_func_dtor(&mut gc);
    assert!(other != first);
    // The destructor of a layout without sub-objects frees the record and
    // returns.
    let object = Value {
        kind: ValueKind::Param { function: other, index: 0 },
        ty: ptr_to_object_type(),
    };
    let code: Vec<Inst> = gc.module.code[before..].iter().map(|e| e.inst).collect();
    assert_eq!(code, vec![Inst::Free { ptr: object }, Inst::Ret { result: None }]);
    // That of the layout with a sub-object ends in the same way, after the
    // release.
    let code: Vec<Inst> = gc.module.code[..before].iter().map(|e| e.inst).collect();
    let object = Value {
        kind: ValueKind::Param { function: first, index: 0 },
        ty: ptr_to_object_type(),
    };
    assert_eq!(code.len(), 6);
    assert!(matches!(code[3], Inst::Call { args: Args::One(_), tail: false, .. }));
    assert_eq!(code[4..], [Inst::Free { ptr: object }, Inst::Ret { result: None }]);
    // The destructor of a layout with one sub-object loads it and releases it.
    let releases = gc
        .module
        .code
        .iter()
        .filter(|e| matches!(e.inst, Inst::Call { args: Args::One(_), tail: false, .. }))
        .count();
    assert_eq!(releases, 1);
}

#[test]
fn allocation_sets_up_the_control_block() {
    for sanitize in [false, true] {
        let mut gc = GenerationContext::new(sanitize);
        build_runtime(&mut gc);
        let f =
            gc.add_function(FunctionKind::Main, FunctionType { ret: ReturnType::Int64, params: 0 });
        let bb = gc.append_basic_block(f, BlockName::Entry);
        gc.position_at_end(bb);
        let ptr = ObjectType::int_obj_type().build_allocate_shared_obj(&mut gc, Some("five"));
        assert_eq!(ptr.ty, IrType { base: BaseType::Object(0), depth: 1 });
        let here: Vec<Inst> = gc
            .module
            .code
            .iter()
            .filter(|e| e.block == Some(bb))
            .map(|e| e.inst)
            .collect();
        assert_eq!(here[0], Inst::Malloc { ty: IrType { base: BaseType::Object(0), depth: 0 } });
        let one = Value { kind: ValueKind::ConstInt(1), ty: refcnt_type() };
        assert!(here.iter().any(|i| matches!(i, Inst::Store { value, .. } if *value == one)));
        let reports = here
            .iter()
            .filter(|i| matches!(i, Inst::Call { args: Args::Two(_, _), .. }))
            .count();
        assert_eq!(reports, if sanitize { 1 } else { 0 });
        assert_eq!(gc.module.strings, if sanitize { vec!["five".to_string()] } else { vec![] });
    }
    let mut gc = GenerationContext::new(true);
    build_runtime(&mut gc);
    ObjectType::int_obj_type().build_allocate_shared_obj(&mut gc, None);
    assert_eq!(gc.module.strings, vec!["N/A".to_string()]);
}

#[test]
fn parser_reads_the_forms() {
    let e = parse_source("f -3 (g x) \\y -> y").unwrap();
    assert_eq!(e.expr.to_string(), "(((f) (-3)) ((g) (x))) (\\y->(y))");
    let e = parse_source("let a = 1; let b = 2 in writeArray! a b").unwrap();
    assert_eq!(e.expr.to_string(), "let a=1 in (let b=2 in (((writeArray!) (a)) (b)))");
    let e = parse_source("if true then false else x'").unwrap();
    assert_eq!(e.expr.to_string(), "if true then false else (x')");
    let e = parse_source("-9223372036854775808").unwrap();
    match &*e.expr {
        Expr::Lit(l) => assert_eq!(l.generator, LiteralGenerator::Int(i64::MIN)),
        _ => panic!("a literal was expected"),
    }
}

#[test]
fn parser_reports_each_error() {
    assert_eq!(parse_source("1 + 2").err(), Some(ParseError::UnexpectedCharacter(2)));
    assert_eq!(
        parse_source("x 9223372036854775808").err(),
        Some(ParseError::IntegerTooLarge(2))
    );
    assert_eq!(parse_source("let x 5 in x").err(), Some(ParseError::UnexpectedToken(2)));
    assert_eq!(parse_source("(f x) )").err(), Some(ParseError::UnexpectedToken(4)));
    assert_eq!(parse_source("let x = 5").err(), Some(ParseError::UnexpectedEnd));
    assert_eq!(parse_source("").err(), Some(ParseError::UnexpectedEnd));
    let deep = format!("{}1{}", "(".repeat(20000), ")".repeat(20000));
    assert_eq!(parse_source(&deep).err(), Some(ParseError::TooDeep));
}

#[test]
fn compiler_reports_each_error() {
    assert_eq!(
        run_source("y", OptimizationLevel::Default),
        Err(RunError::Compile(CompileError::UnboundVariable))
    );
    assert_eq!(
        run_source("1 ?", OptimizationLevel::Default),
        Err(RunError::Parse(ParseError::UnexpectedCharacter(2)))
    );
    let ty = Arc::new(Type::TyVar(lambda_jit::ast::tyvar_var("a")));
    let node = Arc::new(ExprInfo { expr: Arc::new(Expr::Type(ty)), free_vars: NameSet::new() });
    assert_eq!(
        run_ast(node, OptimizationLevel::Default),
        Err(RunError::Compile(CompileError::MalformedAst))
    );
    let type_variable = Arc::new(ExprInfo {
        expr: Arc::new(Expr::Var(lambda_jit::ast::tyvar_var("a"))),
        free_vars: NameSet::new(),
    });
    assert_eq!(
        compile(type_variable, true).err(),
        Some(CompileError::MalformedAst)
    );
    let short = lit(LiteralGenerator::IntAdd, vec!["x".to_string()], "add".to_string());
    assert_eq!(compile(short, true).err(), Some(CompileError::MalformedAst));
}

#[test]
fn programs_run_from_trees() {
    let five = lit(LiteralGenerator::Int(5), vec![], "5".to_string());
    let two = lit(LiteralGenerator::Int(2), vec![], "2".to_string());
    let sum = app(app(var("add"), five), two);
    assert_eq!(run_ast(sum, OptimizationLevel::Off), Ok(7));
    let yes = lit(LiteralGenerator::Bool(true), vec![], "true".to_string());
    let one = lit(LiteralGenerator::Int(1), vec![], "1".to_string());
    let zero = lit(LiteralGenerator::Int(0), vec![], "0".to_string());
    assert_eq!(run_ast(conditional(yes, one, zero), OptimizationLevel::Aggressive), Ok(1));
}

#[test]
fn arithmetic_wraps() {
    assert_eq!(
        run_source("add 9223372036854775807 1", OptimizationLevel::Default),
        Ok(i64::MIN)
    );
    assert_eq!(run_source("add -7 7", OptimizationLevel::Default), Ok(0));
    assert_eq!(run_source("if eq -1 -1 then 10 else 20", OptimizationLevel::Default), Ok(10));
}

#[test]
fn captured_variables_are_kept_alive() {
    let source = "
        let a = 10;
        let b = 20;
        let f = \\x -> \\y -> add (add a x) (add b y);
        let g = f 1;
        add (g 2) (g 3)";
    assert_eq!(run_source(source, OptimizationLevel::Default), Ok(67));
    let source = "let f = \\x -> if eq x 0 then \\y -> y else \\y -> add x y in add (f 0 5) (f 2 5)";
    assert_eq!(run_source(source, OptimizationLevel::Default), Ok(12));
}

#[test]
fn unused_values_are_released() {
    // Without the releases of what a branch or a body does not use, the leak
    // check at the end of the program fails.
    let source = "
        let a = 1;
        let b = 2;
        let c = 3;
        let unused = \\x -> add a b;
        if eq a 1 then add a 10 else add b c";
    assert_eq!(run_source(source, OptimizationLevel::Default), Ok(11));
    assert_eq!(run_source("(\\x -> \\y -> 9) 1 2", OptimizationLevel::Default), Ok(9));
}

#[test]
fn arrays_are_copied_when_shared() {
    let source = "
        let a = newArray 3 7;
        let b = writeArray a 1 8;
        add (readArray a 1) (readArray b 1)";
    assert_eq!(run_source(source, OptimizationLevel::Default), Ok(15));
    let source = "
        let a = newArray 3 7;
        let b = writeArray! a 0 1;
        add (readArray b 0) (readArray b 2)";
    assert_eq!(run_source(source, OptimizationLevel::Default), Ok(8));
}

#[test]
fn machine_reports_memory_errors() {
    assert_eq!(
        run_source("readArray (newArray 3 7) 3", OptimizationLevel::Default),
        Err(RunError::Execution(ExecutionError::MemoryError))
    );
    let shared = "let a = newArray 3 7; let b = writeArray! a 0 1; add (readArray a 0) (readArray b 0)";
    assert_eq!(
        run_source(shared, OptimizationLevel::Default),
        Err(RunError::Execution(ExecutionError::MemoryError))
    );
}

#[test]
fn machine_stops_at_the_step_limit() {
    let source = "let g = fix \\f -> \\x -> f x; g 1";
    let compiled = compile(parse_source(source).unwrap(), true).ok().unwrap();
    assert_eq!(
        execute(&compiled.gc.module, &compiled.gc.context, 100000),
        Err(ExecutionError::StepLimit)
    );
    let compiled = compile(parse_source("add 1 2").unwrap(), true).ok().unwrap();
    assert_eq!(execute(&compiled.gc.module, &compiled.gc.context, 3), Err(ExecutionError::StepLimit));
    assert_eq!(execute(&compiled.gc.module, &compiled.gc.context, 100000), Ok(3));
}

fn leaking_module(release: bool) -> GenerationContext {
    let mut gc = GenerationContext::new(true);
    build_runtime(&mut gc);
    let f = gc.add_function(FunctionKind::Main, FunctionType { ret: ReturnType::Int64, params: 0 });
    let bb = gc.append_basic_block(f, BlockName::Entry);
    gc.position_at_end(bb);
    let int_obj = ObjectType::int_obj_type();
    let obj = int_obj.build_allocate_shared_obj(&mut gc, Some("forgotten"));
    let ty = int_obj.to_struct_type(&mut gc.context);
    let value = Value { kind: ValueKind::ConstInt(42), ty: refcnt_type() };
    gc.build_set_field(obj, ty, 1, value);
    let result = gc.build_load_field_of_obj(obj, ty, 1);
    if release {
        let generic = gc.build_pointer_cast(obj, ptr_to_object_type());
        gc.build_release(generic);
    }
    gc.call_runtime(RuntimeFunctions::CheckLeak, Args::Zero);
    gc.emit(Inst::Ret { result: Some(result) });
    gc
}

#[test]
fn machine_finds_leaks() {
    let gc = leaking_module(false);
    assert_eq!(verify_module(&gc), Ok(()));
    assert_eq!(execute(&gc.module, &gc.context, 1000), Err(ExecutionError::Leak));
    let gc = leaking_module(true);
    assert_eq!(verify_module(&gc), Ok(()));
    assert_eq!(execute(&gc.module, &gc.context, 1000), Ok(42));
}

#[test]
fn machine_rejects_malformed_modules() {
    let gc = GenerationContext::new(false);
    assert_eq!(execute(&gc.module, &gc.context, 1000), Err(ExecutionError::MalformedModule));
    let mut gc = GenerationContext::new(false);
    let f = gc.add_function(FunctionKind::Main, FunctionType { ret: ReturnType::Int64, params: 0 });
    let bb = gc.append_basic_block(f, BlockName::Entry);
    gc.position_at_end(bb);
    // A value that no instruction defines.
    gc.emit(Inst::Ret { result: Some(object_value(99)) });
    assert_eq!(execute(&gc.module, &gc.context, 1000), Err(ExecutionError::MalformedModule));
}

#[test]
fn backend_accepts_what_the_compiler_emits() {
    for sanitize in [false, true] {
        for source in [
            "5",
            "let x = 5 in x",
            "(\\x -> x) 6",
            "if eq 3 3 then 1 else 0",
            "let g = fix \\f -> \\x -> if eq x 0 then 0 else add x (f (add x -1)); g 100",
            "if eq 1 1 then (if eq 1 2 then 1 else 2) else let y = if true then 3 else 4 in y",
            "let arr = newArray 3 0; let arr = writeArray! arr 0 4; readArray (writeArray arr 1 2) 0",
        ] {
            let compiled = compile(parse_source(source).unwrap(), sanitize).ok().unwrap();
            assert_eq!(verify_module(&compiled.gc), Ok(()), "{}", source);
        }
    }
}

#[test]
fn backend_rejects_a_block_without_end() {
    let mut gc = GenerationContext::new(false);
    build_runtime(&mut gc);
    let f = gc.add_function(FunctionKind::Main, FunctionType { ret: ReturnType::Int64, params: 0 });
    let bb = gc.append_basic_block(f, BlockName::Entry);
    gc.position_at_end(bb);
    let a = Value { kind: ValueKind::ConstInt(1), ty: refcnt_type() };
    gc.emit(Inst::IntAdd { lhs: a, rhs: a });
    match verify_module(&gc) {
        Err(BackendError::Rejected(message)) => assert!(!message.is_empty()),
        other => panic!("a rejection was expected, not {:?}", other),
    }
    // With the return the same module is accepted.
    gc.emit(Inst::Ret { result: Some(Value { kind: ValueKind::Inst(0), ty: refcnt_type() }) });
    assert_eq!(verify_module(&gc), Ok(()));
    assert_eq!(execute(&gc.module, &gc.context, 10), Ok(2));
}

#[test]
fn backend_rejects_a_wrong_type() {
    let mut gc = GenerationContext::new(false);
    let f = gc.add_function(FunctionKind::Main, FunctionType { ret: ReturnType::Int64, params: 0 });
    let bb = gc.append_basic_block(f, BlockName::Entry);
    gc.position_at_end(bb);
    // An 8-bit constant is returned where 64 bits are due.
    let byte = Value { kind: ValueKind::ConstInt(1), ty: IrType { base: BaseType::Int8, depth: 0 } };
    gc.emit(Inst::Ret { result: Some(byte) });
    assert!(matches!(verify_module(&gc), Err(BackendError::Rejected(_))));
}

#[test]
fn verdict_of_a_diagnosis() {
    assert_eq!(verdict(None), Ok(()));
    assert_eq!(
        verdict(Some("bad".to_string())),
        Err(BackendError::Rejected("bad".to_string()))
    );
}

#[test]
fn text_of_numbers_and_types() {
    assert_eq!(render_decimal(0), "0");
    assert_eq!(render_decimal(7), "7");
    assert_eq!(render_decimal(1234567890), "1234567890");
    assert_eq!(render_decimal(u64::MAX), "18446744073709551615");
    assert_eq!(render_signed(5), "5");
    assert_eq!(render_signed(u64::MAX), "-1");
    assert_eq!(render_signed(1 << 63), "-9223372036854775808");
    assert_eq!(render_type(ptr_to_object_type()), "i8*");
    assert_eq!(render_type(IrType { base: BaseType::Object(12), depth: 1 }), "%object.12*");
    assert_eq!(render_type(control_block_type()), "%control");
    assert_eq!(
        render_type(IrType { base: BaseType::Function(lambda_function_type()), depth: 2 }),
        "i8* (i8*, i8*)**"
    );
    assert_eq!(
        render_type(IrType { base: BaseType::Function(dtor_type()), depth: 1 }),
        "void (i8*)*"
    );
    assert_eq!(
        render_type(IrType {
            base: BaseType::Function(FunctionType { ret: ReturnType::Int64, params: 0 }),
            depth: 0
        }),
        "i64 ()"
    );
}

#[test]
fn text_of_instructions() {
    let mut gc = GenerationContext::new(false);
    build_runtime(&mut gc);
    let functions = &gc.module.functions;
    let strings = vec!["hé".to_string()];
    let obj = object_value(3);
    let cb = Value { kind: ValueKind::Inst(4), ty: ptr_to_control_block_type() };
    let n = Value { kind: ValueKind::ConstInt(u64::MAX), ty: refcnt_type() };
    let bit = Value { kind: ValueKind::Inst(9), ty: IrType { base: BaseType::Int1, depth: 0 } };
    let release = Value {
        kind: ValueKind::Function(1),
        ty: IrType { base: BaseType::Function(dtor_type()), depth: 1 },
    };
    let code = Value {
        kind: ValueKind::Inst(6),
        ty: IrType { base: BaseType::Function(lambda_function_type()), depth: 1 },
    };
    let text = |i: usize, inst: Inst| render_inst(functions, &strings, i, inst);
    assert_eq!(
        text(4, Inst::PointerCast { value: obj, to: ptr_to_control_block_type() }),
        "  %v4 = bitcast i8* %v3 to %control*\n"
    );
    assert_eq!(
        text(5, Inst::StructGep { ptr: cb, index: 1 }),
        "  %v5 = getelementptr inbounds %control, %control* %v4, i32 0, i32 1\n"
    );
    assert_eq!(text(6, Inst::Load { ptr: cb }), "  %v6 = load %control, %control* %v4\n");
    assert_eq!(
        text(7, Inst::Store { ptr: cb, value: n }),
        "  store i64 -1, %control* %v4\n"
    );
    assert_eq!(
        text(8, Inst::Call { callee: release, args: Args::One(obj), tail: false }),
        "  call void @release_obj(i8* %v3)\n"
    );
    assert_eq!(
        text(8, Inst::Call { callee: code, args: Args::Two(obj, obj), tail: true }),
        "  %v8 = tail call i8* %v6(i8* %v3, i8* %v3)\n"
    );
    assert_eq!(
        text(2, Inst::Malloc { ty: IrType { base: BaseType::Object(0), depth: 0 } }),
        "  %m2 = call i8* @malloc(i64 ptrtoint (%object.0* getelementptr (%object.0, %object.0* null, i32 1) to i64))\n  %v2 = bitcast i8* %m2 to %object.0*\n"
    );
    assert_eq!(
        text(10, Inst::IntCast { value: bit, to: IrType { base: BaseType::Int8, depth: 0 } }),
        "  %v10 = zext i1 %v9 to i8\n"
    );
    assert_eq!(
        text(10, Inst::IntCast { value: n, to: IrType { base: BaseType::Int1, depth: 0 } }),
        "  %v10 = trunc i64 -1 to i1\n"
    );
    assert_eq!(text(11, Inst::IntAdd { lhs: n, rhs: n }), "  %v11 = add i64 -1, -1\n");
    assert_eq!(text(12, Inst::IntEq { lhs: n, rhs: n }), "  %v12 = icmp eq i64 -1, -1\n");
    assert_eq!(
        text(13, Inst::GlobalString { string: 0 }),
        "  %v13 = getelementptr inbounds [4 x i8], [4 x i8]* @s.0, i32 0, i32 0\n"
    );
    assert_eq!(
        text(14, Inst::CondBr { cond: bit, then_block: 1, else_block: 2 }),
        "  br i1 %v9, label %b1, label %b2\n"
    );
    assert_eq!(text(15, Inst::Br { block: 3 }), "  br label %b3\n");
    assert_eq!(
        text(
            16,
            Inst::Phi {
                ty: ptr_to_object_type(),
                first: obj,
                first_block: 1,
                second: obj,
                second_block: 2
            }
        ),
        "  %v16 = phi i8* [ %v3, %b1 ], [ %v3, %b2 ]\n"
    );
    assert_eq!(
        text(18, Inst::Free { ptr: obj }),
        "  %f18 = bitcast i8* %v3 to i8*\n  call void @free(i8* %f18)\n"
    );
    assert_eq!(text(17, Inst::Ret { result: Some(n) }), "  ret i64 -1\n");
    assert_eq!(text(17, Inst::Ret { result: None }), "  ret void\n");
}

#[test]
fn text_of_a_module() {
    let mut gc = GenerationContext::new(true);
    let f = gc.add_function(FunctionKind::Main, FunctionType { ret: ReturnType::Int64, params: 0 });
    let retain = gc.add_function(
        FunctionKind::Runtime(RuntimeFunctions::RetainObj),
        FunctionType { ret: ReturnType::Void, params: 1 },
    );
    assert_eq!(retain, 1);
    let lambda = gc.add_function(FunctionKind::Lambda, lambda_function_type());
    ObjectType::int_obj_type().to_struct_type(&mut gc.context);
    gc.module.strings.push("A\"".to_string());
    let bb = gc.append_basic_block(f, BlockName::Entry);
    let inner = gc.append_basic_block(lambda, BlockName::Entry);
    gc.position_at_end(bb);
    let zero = Value { kind: ValueKind::ConstInt(0), ty: refcnt_type() };
    gc.emit(Inst::IntAdd { lhs: zero, rhs: zero });
    gc.position_at_end(inner);
    gc.emit(Inst::Ret {
        result: Some(Value {
            kind: ValueKind::Param { function: lambda, index: 1 },
            ty: ptr_to_object_type(),
        }),
    });
    gc.position_at_end(bb);
    gc.emit(Inst::Ret { result: Some(Value { kind: ValueKind::Inst(0), ty: refcnt_type() }) });
    let expected = "%control = type { i64, void (i8*)*, i64 }
%object.0 = type { %control, i64 }
@s.0 = private unnamed_addr constant [3 x i8] c\"\\41\\22\\00\"
declare i8* @malloc(i64)
declare void @free(i8*)
define i64 @main() {
b0:
  %v0 = add i64 0, 0
  ret i64 %v0
}
declare void @retain_obj(i8*)
define i8* @lambda.2(i8* %a0, i8* %a1) {
b1:
  ret i8* %a1
}
";
    assert_eq!(render_module(&gc), Some(expected.to_string()));
    assert_eq!(verify_module(&gc), Ok(()));
}

#[test]
fn emitted_code_of_a_let_whose_body_ignores_the_name() {
    // The bound value is released before the body is compiled.
    let compiled = compile(parse_source("let x = 5 in 3").unwrap(), false).ok().unwrap();
    let module = &compiled.gc.module;
    let main = module.functions.iter().position(|f| matches!(f.kind, FunctionKind::Main)).unwrap();
    let entry = module.blocks.iter().position(|b| b.function == main).unwrap();
    let code: Vec<Inst> =
        module.code.iter().filter(|e| e.block == Some(entry)).map(|e| e.inst).collect();
    let int_layout = compiled
        .gc
        .context
        .layouts
        .iter()
        .position(|l| l.same(&ObjectType::int_obj_type()))
        .unwrap();
    let mallocs: Vec<usize> = code
        .iter()
        .enumerate()
        .filter(|(_, i)| matches!(i, Inst::Malloc { ty } if ty.base == BaseType::Object(int_layout)))
        .map(|(k, _)| k)
        .collect();
    let release = compiled.gc.runtime(RuntimeFunctions::ReleaseObj).unwrap();
    let releases: Vec<usize> = code
        .iter()
        .enumerate()
        .filter(|(_, i)| {
            matches!(i, Inst::Call { callee, .. } if callee.kind == ValueKind::Function(release))
        })
        .map(|(k, _)| k)
        .collect();
    // Two integers are allocated in `main`; the first is released before
    // the second is allocated, the second after its value was loaded. The
    // closures of the primitives that the program does not use are released
    // before that.
    assert_eq!(mallocs.len(), 2);
    assert_eq!(releases.len(), 9);
    assert!(releases[6] < mallocs[0]);
    assert!(mallocs[0] < releases[7] && releases[7] < mallocs[1] && mallocs[1] < releases[8]);
    assert!(matches!(code.last(), Some(Inst::Ret { result: Some(_) })));
}

#[test]
fn tokens_of_a_text() {
    let chars = characters("let x' = -5;\n f! \\y->(if true then false else in)");
    assert_eq!(chars.len(), 49);
    assert_eq!(
        tokenize(&chars),
        Ok(vec![
            Token::Let,
            Token::Name { start: 4, end: 6 },
            Token::Equals,
            Token::Int { value: -5, start: 9, end: 11 },
            Token::In,
            Token::Name { start: 14, end: 16 },
            Token::Backslash,
            Token::Name { start: 18, end: 19 },
            Token::Arrow,
            Token::LParen,
            Token::If,
            Token::True,
            Token::Then,
            Token::False,
            Token::Else,
            Token::In,
            Token::RParen,
        ])
    );
    assert_eq!(tokenize(&characters("a - b")), Err(ParseError::UnexpectedCharacter(2)));
    assert_eq!(tokenize(&characters("é")), Err(ParseError::UnexpectedCharacter(0)));
}

#[test]
fn entry_point_is_the_first_main() {
    let mut gc = GenerationContext::new(false);
    assert_eq!(find_main(&gc.module), None);
    build_runtime(&mut gc);
    assert_eq!(find_main(&gc.module), None);
    let first = gc.add_function(FunctionKind::Main, FunctionType { ret: ReturnType::Int64, params: 0 });
    gc.add_function(FunctionKind::Main, FunctionType { ret: ReturnType::Int64, params: 0 });
    assert_eq!(find_main(&gc.module), Some(first));
}

#[test]
fn tail_calls_run_in_constant_space() {
    // A loop of many turns: every turn ends in a tail call.
    let source = "
        let count = fix \\f -> \\n -> if eq n 0 then 7 else f (add n -1);
        count 200000";
    assert_eq!(run_source(source, OptimizationLevel::Default), Ok(7));
}

#[test]
fn conditionals_nest() {
    let source = "
        let pick = \\a -> \\b ->
            if eq a 1 then
                if eq b 1 then 11 else 12
            else
                let c = if eq b 1 then 21 else 22 in
                if eq c 21 then add c 100 else c;
        add (add (pick 1 1) (pick 1 2)) (add (pick 2 1) (pick 2 2))";
    assert_eq!(run_source(source, OptimizationLevel::Default), Ok(11 + 12 + 121 + 22));
    let source = "if (if true then false else true) then 1 else (if false then 2 else 3)";
    assert_eq!(run_source(source, OptimizationLevel::Default), Ok(3));
}

#[test]
fn phi_names_the_blocks_in_which_the_branches_end() {
    let source = "if true then (if false then 1 else 2) else 3";
    let compiled = compile(parse_source(source).unwrap(), false).ok().unwrap();
    let module = &compiled.gc.module;
    let jumps_to = |target: usize| -> Vec<usize> {
        module
            .code
            .iter()
            .filter(|e| matches!(e.inst, Inst::Br { block } if block == target))
            .map(|e| e.block.unwrap())
            .collect()
    };
    let mut phis = 0;
    for entry in module.code.iter() {
        if let Inst::Phi { first_block, second_block, .. } = entry.inst {
            phis += 1;
            assert_eq!(jumps_to(entry.block.unwrap()), vec![first_block, second_block]);
        }
    }
    assert_eq!(phis, 2);
}

#[test]
fn type_node_stays_the_same() {
    let ty = Arc::new(Type::TyVar(lambda_jit::ast::tyvar_var("a")));
    let expr = Arc::new(Expr::Type(ty));
    let node = Arc::new(ExprInfo { expr: expr.clone(), free_vars: names(&["stale"]) });
    let e = calculate_free_vars(node);
    assert!(Arc::ptr_eq(&e.expr, &expr));
}

#[test]
fn layouts_without_sub_objects_need_no_runtime() {
    let mut gc = GenerationContext::new(false);
    let f = gc.add_function(FunctionKind::Main, FunctionType { ret: ReturnType::Int64, params: 0 });
    let bb = gc.append_basic_block(f, BlockName::Entry);
    gc.position_at_end(bb);
    let int_obj = ObjectType::int_obj_type();
    let obj = int_obj.build_allocate_shared_obj(&mut gc, None);
    let ty = int_obj.to_struct_type(&mut gc.context);
    gc.build_set_field(obj, ty, 1, Value { kind: ValueKind::ConstInt(9), ty: refcnt_type() });
    let result = gc.build_load_field_of_obj(obj, ty, 1);
    let generic = gc.build_pointer_cast(obj, ptr_to_object_type());
    gc.build_call_dtor(generic);
    gc.emit(Inst::Ret { result: Some(result) });
    assert_eq!(gc.runtimes.len(), 1);
    assert_eq!(verify_module(&gc), Ok(()));
    assert_eq!(execute(&gc.module, &gc.context, 1000), Ok(9));
}

#[test]
fn machine_finds_the_use_of_a_freed_object() {
    let mut gc = GenerationContext::new(false);
    let f = gc.add_function(FunctionKind::Main, FunctionType { ret: ReturnType::Int64, params: 0 });
    let bb = gc.append_basic_block(f, BlockName::Entry);
    gc.position_at_end(bb);
    let int_obj = ObjectType::int_obj_type();
    let obj = int_obj.build_allocate_shared_obj(&mut gc, None);
    let ty = int_obj.to_struct_type(&mut gc.context);
    gc.build_set_field(obj, ty, 1, Value { kind: ValueKind::ConstInt(9), ty: refcnt_type() });
    gc.build_free(obj);
    let result = gc.build_load_field_of_obj(obj, ty, 1);
    gc.emit(Inst::Ret { result: Some(result) });
    assert_eq!(execute(&gc.module, &gc.context, 1000), Err(ExecutionError::MemoryError));
    // Freed twice.
    let mut gc = GenerationContext::new(false);
    let f = gc.add_function(FunctionKind::Main, FunctionType { ret: ReturnType::Int64, params: 0 });
    let bb = gc.append_basic_block(f, BlockName::Entry);
    gc.position_at_end(bb);
    let obj = ObjectType::int_obj_type().build_allocate_shared_obj(&mut gc, None);
    gc.build_free(obj);
    gc.build_free(obj);
    gc.emit(Inst::Ret { result: Some(Value { kind: ValueKind::ConstInt(0), ty: refcnt_type() }) });
    assert_eq!(execute(&gc.module, &gc.context, 1000), Err(ExecutionError::MemoryError));
}

#[test]
fn runtime_is_declared_once() {
    let mut gc = GenerationContext::new(true);
    build_runtime(&mut gc);
    assert_eq!(gc.module.functions.len(), 8);
    assert_eq!(gc.runtimes.len(), 8);
    build_runtime(&mut gc);
    assert_eq!(gc.module.functions.len(), 8);
    assert_eq!(gc.runtimes.len(), 8);
    for (k, (func, function)) in gc.runtimes.iter().enumerate() {
        assert_eq!(*function, k);
        assert_eq!(gc.module.functions[k].kind, FunctionKind::Runtime(*func));
    }
}

#[test]
fn every_destructor_is_registered_for_one_layout() {
    let source = "
        let pair = \\a -> \\b -> \\pick -> pick a b;
        let first = \\a -> \\b -> a;
        let p = pair 1 2;
        let q = pair (newArray 2 p) 4;
        add (p first) (readArray (q first) 1 first)";
    let compiled = compile(parse_source(source).unwrap(), true).ok().unwrap();
    assert_eq!(verify_module(&compiled.gc), Ok(()));
    assert_eq!(execute(&compiled.gc.module, &compiled.gc.context, 1000000), Ok(2));
    let module = &compiled.gc.module;
    let dtor_functions: Vec<usize> = module
        .functions
        .iter()
        .enumerate()
        .filter(|(_, f)| matches!(f.kind, FunctionKind::Dtor))
        .map(|(k, _)| k)
        .collect();
    let mut registered: Vec<(usize, usize)> = Vec::new();
    for (key, function) in compiled.gc.runtimes.iter() {
        if let RuntimeFunctions::Dtor(layout) = key {
            registered.push((*layout, *function));
        }
    }
    assert_eq!(registered.len(), dtor_functions.len());
    for function in dtor_functions.iter() {
        assert_eq!(registered.iter().filter(|(_, f)| f == function).count(), 1);
    }
    for (layout, _) in registered.iter() {
        assert_eq!(registered.iter().filter(|(l, _)| l == layout).count(), 1);
    }
}

#[test]
fn trees_types_and_layouts_compare_and_copy() {
    let e = parse_source("f x").unwrap();
    let copy: Expr = Expr::clone(&e.expr);
    assert_eq!(copy.to_string(), "(f) (x)");
    let a = || Type::FunTy(lambda_jit::ast::tyvar_ty("a"), lambda_jit::ast::tyvar_ty("b"));
    assert!(a() == a());
    assert!(a() != Type::FunTy(lambda_jit::ast::tyvar_ty("a"), lambda_jit::ast::tyvar_ty("c")));
    assert!(*lambda_jit::ast::star_kind() == lambda_jit::ast::Kind::Star);
    assert!(ObjectType::int_obj_type() == ObjectType::int_obj_type());
    assert!(ObjectType::int_obj_type() != ObjectType::bool_obj_type());
    let layout = ObjectType::lam_obj_type();
    assert!(Clone::clone(&layout) == layout);
}

#[test]
fn backend_gives_the_same_answer_for_the_same_module() {
    let mut gc = GenerationContext::new(false);
    let f = gc.add_function(FunctionKind::Main, FunctionType { ret: ReturnType::Int64, params: 0 });
    let bb = gc.append_basic_block(f, BlockName::Entry);
    gc.position_at_end(bb);
    let byte = Value { kind: ValueKind::ConstInt(1), ty: IrType { base: BaseType::Int8, depth: 0 } };
    gc.emit(Inst::Ret { result: Some(byte) });
    let first = verify_module(&gc);
    assert!(matches!(first, Err(BackendError::Rejected(_))));
    assert_eq!(verify_module(&gc), first);
    let compiled = compile(parse_source("add 1 2").unwrap(), true).ok().unwrap();
    assert_eq!(verify_module(&compiled.gc), Ok(()));
    assert_eq!(verify_module(&compiled.gc), Ok(()));
}
