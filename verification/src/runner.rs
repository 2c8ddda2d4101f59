//! The program driver: a program is put under the bindings of the primitive
//! operators, its free variables are calculated, and its code is emitted as
//! the body of `main`.

use crate::ast::{
    annotated, calculate_free_vars, free_vars, let_in, listed, var_var, Expr, ExprInfo, Term,
};
use crate::builtin::{
    add_term, eq, eq_term, fix, fix_term, new_array, new_array_term, read_array,
    read_array_term, write_array, write_array_term, write_array_unique, write_array_unique_term,
};
use crate::context::{initial_state, lemma_sizes, GenerationContext};
use crate::emission::{emit_expr, size};
use crate::generator::{compilable, covered, generate_expr, lemma_empty_scope};
use crate::ir::{
    Args, BlockName, FunctionKind, FunctionType, Inst, ReturnType, RuntimeFunctions,
};
use crate::backend::{llvm_diagnosis, verify_module, BackendError};
use crate::machine::{execute, image_of, run_of, ExecutionError, Image};
use crate::text::{module_text, strings_fit};
use crate::names::Name;
use crate::parser::{parse_source, program_of, ParseError};
use crate::runtime::build_runtime;
use crate::state::{
    advanced, is_apply, lemma_advanced_keeps, lemma_advanced_trans, one_destructor_per_layout,
    lemma_code_added_advances, lemma_intern, shape_from, State,
};
use crate::types::{int_layout, ObjectType};
use std::sync::Arc;
use vstd::prelude::*;

verus! {

/// Why a program was not compiled.
#[derive(Clone, Copy, PartialEq, Eq, Structural, Debug)]
pub enum CompileError {
    /// The tree holds a type node or a type variable in the place of a term,
    /// or a literal that does not name its operands.
    MalformedAst,
    /// A variable of the program is bound nowhere.
    UnboundVariable,
    /// The program has more nodes than the counters of the scope can count.
    TooLarge,
}

/// The program under the bindings of the primitive operators. The binding
/// of `add` is the innermost.
pub open spec fn with_primitives(program: Term) -> Term {
    let p1 = Term::Let("add"@, Box::new(add_term()), Box::new(program));
    let p2 = Term::Let("eq"@, Box::new(eq_term()), Box::new(p1));
    let p3 = Term::Let("fix"@, Box::new(fix_term()), Box::new(p2));
    let p4 = Term::Let("newArray"@, Box::new(new_array_term()), Box::new(p3));
    let p5 = Term::Let("readArray"@, Box::new(read_array_term()), Box::new(p4));
    let p6 = Term::Let("writeArray"@, Box::new(write_array_term()), Box::new(p5));
    Term::Let("writeArray!"@, Box::new(write_array_unique_term()), Box::new(p6))
}

/// Puts a program under the bindings of the primitive operators.
pub fn add_primitives(program: Arc<ExprInfo>) -> (r: Arc<ExprInfo>)
    ensures
        r@ == with_primitives(program@),
{
    let program = let_in(var_var("add"), crate::builtin::add(), program);
    let program = let_in(var_var("eq"), eq(), program);
    let program = let_in(var_var("fix"), fix(), program);
    let program = let_in(var_var("newArray"), new_array(), program);
    let program = let_in(var_var("readArray"), read_array(), program);
    let program = let_in(var_var("writeArray"), write_array(), program);
    let_in(var_var("writeArray!"), write_array_unique(), program)
}

/// Whether the tree can be compiled.
pub fn is_compilable(e: &Arc<ExprInfo>) -> (b: bool)
    ensures
        b == compilable(e@),
    decreases **e,
{
    match &*e.expr {
        Expr::Var(v) => match &**v {
            crate::ast::Var::TermVar { name } => true,
            crate::ast::Var::TyVar { name } => false,
        },
        Expr::Lit(l) => {
            let needed: usize = match l.generator {
                crate::ast::LiteralGenerator::Int(_) => 0,
                crate::ast::LiteralGenerator::Bool(_) => 0,
                crate::ast::LiteralGenerator::IntAdd => 2,
                crate::ast::LiteralGenerator::IntEq => 2,
                crate::ast::LiteralGenerator::Fix => 3,
                crate::ast::LiteralGenerator::NewArray => 2,
                crate::ast::LiteralGenerator::ReadArray => 2,
                crate::ast::LiteralGenerator::WriteArray => 3,
                crate::ast::LiteralGenerator::WriteArrayUnique => 3,
            };
            l.free_vars.len() >= needed
        },
        Expr::App(f, a) => is_compilable(f) && is_compilable(a),
        Expr::Lam(x, b) => is_compilable(b),
        Expr::Let(x, b, v) => is_compilable(b) && is_compilable(v),
        Expr::If(c, t, el) => is_compilable(c) && is_compilable(t) && is_compilable(el),
        Expr::Type(_) => false,
    }
}

/// The number of nodes of the tree, if it is at most `limit`.
pub fn node_count(e: &Arc<ExprInfo>, limit: u32) -> (r: Option<u32>)
    ensures
        r == (if size(e@) <= limit {
            Some(size(e@) as u32)
        } else {
            None
        }),
    decreases **e,
{
    if limit == 0 {
        return None;
    }
    let mut total: u32 = 1;
    match &*e.expr {
        Expr::Var(_) => {},
        Expr::Lit(_) => {},
        Expr::Type(_) => {},
        Expr::App(f, a) => {
            match node_count(f, limit - total) {
                Some(n) => {
                    total = total + n;
                },
                None => {
                    return None;
                },
            }
            match node_count(a, limit - total) {
                Some(n) => {
                    total = total + n;
                },
                None => {
                    return None;
                },
            }
        },
        Expr::Lam(x, b) => {
            match node_count(b, limit - total) {
                Some(n) => {
                    total = total + n;
                },
                None => {
                    return None;
                },
            }
        },
        Expr::Let(x, b, v) => {
            match node_count(b, limit - total) {
                Some(n) => {
                    total = total + n;
                },
                None => {
                    return None;
                },
            }
            match node_count(v, limit - total) {
                Some(n) => {
                    total = total + n;
                },
                None => {
                    return None;
                },
            }
        },
        Expr::If(c, t, el) => {
            match node_count(c, limit - total) {
                Some(n) => {
                    total = total + n;
                },
                None => {
                    return None;
                },
            }
            match node_count(t, limit - total) {
                Some(n) => {
                    total = total + n;
                },
                None => {
                    return None;
                },
            }
            match node_count(el, limit - total) {
                Some(n) => {
                    total = total + n;
                },
                None => {
                    return None;
                },
            }
        },
    }
    Some(total)
}

/// The type of `main`: it takes nothing and returns a 64-bit integer.
pub open spec fn main_type() -> FunctionType {
    FunctionType { ret: ReturnType::Int64, params: 0 }
}

/// The module of a program: the runtime functions are declared, and `main`
/// holds the program's code, loads the integer from the program's value,
/// releases the value, checks for leaks if the sanitizer is on, and returns
/// the integer.
pub open spec fn emit_main(program: ExprInfo, sanitize: bool) -> State {
    let (s4, result_obj) = emit_expr(program, main_start(sanitize));
    s4.finish_main(result_obj)
}

impl State {
    /// The end of `main`.
    pub open spec fn finish_main(self, result_obj: crate::ir::Value) -> State {
        let (s5, int_ty) = self.intern(int_layout());
        let (s6, result) = s5.load_field(result_obj, int_ty, 1);
        let s7 = s6.release(result_obj);
        let s8 = if self.sanitize {
            s7.call_runtime(RuntimeFunctions::CheckLeak, Args::Zero).0
        } else {
            s7
        };
        s8.emit(Inst::Ret { result: Some(result) })
    }
}

/// Emits the end of `main`.
fn finish_main(result_obj: crate::ir::Value, gc: &mut GenerationContext)
    requires
        old(gc)@.has_runtime(),
        result_obj.ty == crate::ir::object_pointer(),
    ensures
        final(gc)@ == old(gc)@.finish_main(result_obj),
        advanced(old(gc)@, final(gc)@),
{
    proof {
        lemma_sizes(gc);
        lemma_intern(gc@, int_layout());
    }
    let int_obj = ObjectType::int_obj_type();
    let int_ty = gc.struct_type(&int_obj);
    let ghost interned = gc@;
    assert(gc@.has_field(int_ty, 1));
    let result = gc.build_load_field_of_obj(result_obj, int_ty, 1);
    gc.build_release(result_obj);
    if gc.context.sanitize_memory {
        gc.call_runtime(RuntimeFunctions::CheckLeak, Args::Zero);
    }
    gc.emit(Inst::Ret { result: Some(result) });
    proof {
        lemma_code_added_advances(interned, gc@);
        lemma_advanced_trans(old(gc)@, interned, gc@);
    }
}

/// A program with its free variables calculated, and the module that was
/// emitted for it.
pub struct Compiled {
    pub program: Arc<ExprInfo>,
    pub gc: GenerationContext,
}

/// Compiles a program: puts it under the bindings of the primitive
/// operators, calculates the free variables and emits the module.
///
/// A program is compiled if and only if it is well formed, every variable
/// of it is bound, and it is not too large. In the module of a compiled
/// program every call that applies a closure is marked as a tail call, and
/// every destructor is the registered destructor of one layout: no layout
/// has two.
pub fn compile(program: Arc<ExprInfo>, sanitize_memory: bool) -> (r: Result<Compiled, CompileError>)
    ensures
        match r {
            Ok(c) => {
                &&& c.program@ == with_primitives(program@)
                &&& annotated(*c.program)
                &&& listed(*c.program)
                &&& compilable(c.program@)
                &&& free_vars(c.program@) == Set::<Name>::empty()
                &&& size(c.program@) <= u32::MAX
                &&& c.gc@ == emit_main(*c.program, sanitize_memory)
                &&& forall|i: int|
                    0 <= i < c.gc@.code.len() && is_apply(#[trigger] c.gc@.code[i].inst)
                        ==> c.gc@.code[i].inst->tail
                &&& one_destructor_per_layout(c.gc@.functions, c.gc@.runtimes)
            },
            Err(CompileError::MalformedAst) => !compilable(with_primitives(program@)),
            Err(CompileError::UnboundVariable) => compilable(with_primitives(program@))
                && free_vars(with_primitives(program@)) != Set::<Name>::empty(),
            Err(CompileError::TooLarge) => compilable(with_primitives(program@)) && free_vars(
                with_primitives(program@),
            ) == Set::<Name>::empty() && size(with_primitives(program@)) > u32::MAX,
        },
{
    let program = match prepare(program) {
        Ok(program) => program,
        Err(e) => {
            return Err(e);
        },
    };
    let mut gc = start_main(sanitize_memory);
    let ghost started = gc@;
    proof {
        lemma_empty_scope(size(program@));
        assert(covered(gc@.scope, program.free_vars@)) by {
            reveal(covered);
        }
    }
    let program_result = generate_expr(program.clone(), &mut gc);
    let ghost generated = gc@;
    finish_main(program_result.ptr, &mut gc);
    proof {
        lemma_advanced_trans(initial_state(sanitize_memory), started, generated);
        lemma_advanced_trans(initial_state(sanitize_memory), generated, gc@);
        lemma_module_laws(sanitize_memory, gc@);
    }
    Ok(Compiled { program, gc })
}

/// Puts a program under the bindings of the primitive operators, lists its
/// free variables, and checks that it can be compiled: that it is well
/// formed, closed and not too large.
fn prepare(program: Arc<ExprInfo>) -> (r: Result<Arc<ExprInfo>, CompileError>)
    ensures
        match r {
            Ok(p) => {
                &&& p@ == with_primitives(program@)
                &&& annotated(*p)
                &&& listed(*p)
                &&& compilable(p@)
                &&& free_vars(p@) == Set::<Name>::empty()
                &&& p.free_vars@.len() == 0
                &&& size(p@) <= u32::MAX
            },
            Err(CompileError::MalformedAst) => !compilable(with_primitives(program@)),
            Err(CompileError::UnboundVariable) => compilable(with_primitives(program@))
                && free_vars(with_primitives(program@)) != Set::<Name>::empty(),
            Err(CompileError::TooLarge) => compilable(with_primitives(program@)) && free_vars(
                with_primitives(program@),
            ) == Set::<Name>::empty() && size(with_primitives(program@)) > u32::MAX,
        },
{
    let program = add_primitives(program);
    let program = calculate_free_vars(program);
    if !is_compilable(&program) {
        return Err(CompileError::MalformedAst);
    }
    if program.free_vars.len() != 0 {
        proof {
            assert(program.free_vars.as_set().contains(program.free_vars@[0]));
        }
        return Err(CompileError::UnboundVariable);
    }
    assert(program.free_vars.as_set() =~= Set::<Name>::empty());
    if node_count(&program, u32::MAX).is_none() {
        return Err(CompileError::TooLarge);
    }
    Ok(program)
}

/// The state in which the code of a program is emitted: the runtime
/// functions are declared, and the builder stands in the entry block of
/// `main`.
pub open spec fn main_start(sanitize: bool) -> State {
    let s0 = initial_state(sanitize).with_runtime();
    let (s1, main_fn) = s0.add_function(FunctionKind::Main, main_type());
    let (s2, entry) = s1.append_block(main_fn, BlockName::Entry);
    s2.position_at_end(entry)
}

/// Starts a module: declares the runtime functions and `main`, and moves
/// the builder to the entry block of `main`.
fn start_main(sanitize_memory: bool) -> (gc: GenerationContext)
    ensures
        gc@ == main_start(sanitize_memory),
        advanced(initial_state(sanitize_memory), gc@),
        gc@.has_runtime(),
        gc@.positioned(),
        gc@.scope == Seq::<crate::scope::Bound>::empty(),
{
    let mut gc = GenerationContext::new(sanitize_memory);
    build_runtime(&mut gc);
    let ghost declared = gc@;
    let main_function = gc.add_function(
        FunctionKind::Main,
        FunctionType { ret: ReturnType::Int64, params: 0 },
    );
    let entry_bb = gc.append_basic_block(main_function, BlockName::Entry);
    gc.position_at_end(entry_bb);
    proof {
        crate::state::lemma_function_added(
            declared,
            gc@,
            crate::ir::Function { kind: FunctionKind::Main, ty: main_type() },
        );
        lemma_advanced_trans(initial_state(sanitize_memory), declared, gc@);
    }
    gc
}

/// What holds of every module that a compilation reaches from the empty
/// state: every call that applies a closure is a tail call, and every
/// destructor is the registered destructor of one layout.
pub proof fn lemma_module_laws(sanitize: bool, st: State)
    requires
        advanced(initial_state(sanitize), st),
    ensures
        forall|i: int|
            0 <= i < st.code.len() && is_apply(#[trigger] st.code[i].inst) ==> st.code[i].inst->tail,
        one_destructor_per_layout(st.functions, st.runtimes),
{
    lemma_advanced_keeps(initial_state(sanitize), st);
    reveal(shape_from);
}

/// How hard a backend that generates native code works on it. The machine
/// of this library runs the code as it was emitted, whatever the level.
#[derive(Clone, Copy, PartialEq, Eq, Structural, Debug)]
pub enum OptimizationLevel {
    Off,
    Less,
    Default,
    Aggressive,
}

/// Why a program yielded no result.
#[derive(Clone, PartialEq, Eq, Debug)]
pub enum RunError {
    Parse(ParseError),
    Compile(CompileError),
    /// The backend does not take the emitted module.
    Backend(BackendError),
    Execution(ExecutionError),
}

/// Whether emitted code reports its allocations to the runtime and checks
/// for leaks when the program ends.
pub const SANITIZE_MEMORY: bool = true;

/// The number of steps that a run may take.
pub const STEP_LIMIT: u64 = 1000000000000;

/// The emitted module as the machine sees it.
pub open spec fn state_image(st: State) -> Image {
    Image {
        code: st.code,
        functions: st.functions,
        blocks: st.blocks,
        strings: st.strings.len(),
        layouts: st.layouts,
        sanitize: st.sanitize,
    }
}

/// `r` is the result of handing the module `st` to the backend and running
/// it: the rejection by LLVM with LLVM's message if LLVM finds something
/// wrong with the text of the module, and else exactly what the machine
/// yields within the step limit. A module with a string that is too long is
/// not handed on.
pub open spec fn outcome_of(st: State, r: Result<i64, RunError>) -> bool {
    if !strings_fit(st.strings) {
        r == Err::<i64, RunError>(RunError::Backend(BackendError::StringTooLong))
    } else {
        match llvm_diagnosis(module_text(st)) {
            Some(message) => r matches Err(RunError::Backend(BackendError::Rejected(m))) && m@
                == message,
            None => match run_of(state_image(st), STEP_LIMIT as nat) {
                Ok(v) => r == Ok::<i64, RunError>(v),
                Err(e) => r == Err::<i64, RunError>(RunError::Execution(e)),
            },
        }
    }
}

/// `r` is the result of compiling and running `program`: the error of the
/// compiler if the program, under the bindings of the primitive operators,
/// is malformed, not closed or too large, and else the outcome of the module
/// that is emitted for it with its free variables listed.
pub open spec fn ran(program: Term, r: Result<i64, RunError>) -> bool {
    let t = with_primitives(program);
    if !compilable(t) {
        r == Err::<i64, RunError>(RunError::Compile(CompileError::MalformedAst))
    } else if free_vars(t) != Set::<Name>::empty() {
        r == Err::<i64, RunError>(RunError::Compile(CompileError::UnboundVariable))
    } else if size(t) > u32::MAX {
        r == Err::<i64, RunError>(RunError::Compile(CompileError::TooLarge))
    } else {
        exists|p: ExprInfo|
            p@ == t && #[trigger] annotated(p) && listed(p) && outcome_of(
                emit_main(p, SANITIZE_MEMORY),
                r,
            )
    }
}

/// Compiles a program, has LLVM check the module, and runs the module on
/// the machine of this library. The result is the integer that the machine
/// yields; native code is not run, and the optimization level plays no
/// part.
pub fn run_ast(program: Arc<ExprInfo>, opt_level: OptimizationLevel) -> (r: Result<i64, RunError>)
    ensures
        ran(program@, r),
{
    let compiled = match compile(program, SANITIZE_MEMORY) {
        Ok(compiled) => compiled,
        Err(e) => {
            return Err(RunError::Compile(e));
        },
    };
    proof {
        assert(state_image(compiled.gc@) =~= image_of(&compiled.gc.module, &compiled.gc.context));
    }
    let r = match verify_module(&compiled.gc) {
        Ok(()) => match execute(&compiled.gc.module, &compiled.gc.context, STEP_LIMIT) {
            Ok(value) => Ok(value),
            Err(e) => Err(RunError::Execution(e)),
        },
        Err(e) => Err(RunError::Backend(e)),
    };
    proof {
        assert(annotated(*compiled.program) && listed(*compiled.program) && outcome_of(
            emit_main(*compiled.program, SANITIZE_MEMORY),
            r,
        ));
    }
    r
}

/// Parses a source text, compiles the program and runs it.
///
/// A text that is no program gives the error of the parser. For a text that
/// is a program the result is that of compiling and running the program.
pub fn run_source(source: &str, opt_level: OptimizationLevel) -> (r: Result<i64, RunError>)
    ensures
        match program_of(source@) {
            Some(program) => ran(program, r),
            None => r matches Err(RunError::Parse(_)),
        },
{
    let ast = match parse_source(source) {
        Ok(ast) => ast,
        Err(e) => {
            return Err(RunError::Parse(e));
        },
    };
    run_ast(ast, opt_level)
}

/// The bindings of the primitive operators are well formed.
pub proof fn lemma_primitives_compilable(program: Term)
    ensures
        compilable(with_primitives(program)) == compilable(program),
{
    assert(compilable(add_term())) by {
        reveal_with_fuel(compilable, 4);
    }
    assert(compilable(eq_term())) by {
        reveal_with_fuel(compilable, 4);
    }
    assert(compilable(fix_term())) by {
        reveal_with_fuel(compilable, 4);
    }
    assert(compilable(new_array_term())) by {
        reveal_with_fuel(compilable, 4);
    }
    assert(compilable(read_array_term())) by {
        reveal_with_fuel(compilable, 4);
    }
    assert(compilable(write_array_term())) by {
        reveal_with_fuel(compilable, 5);
    }
    assert(compilable(write_array_unique_term())) by {
        reveal_with_fuel(compilable, 5);
    }
    reveal_with_fuel(compilable, 8);
}

} // verus!
