//! The textual form of an emitted module, in the assembly language of LLVM.
//!
//! Struct types are written by name: `%control` is the control block and
//! `%object.N` the struct of layout `N`. The value of the instruction at
//! position `N` of the module's record is `%vN`, parameter `N` of a function
//! is `%aN`, block `N` is `bN`, and string `N` is `@s.N`.

use crate::ast::names_of;
use crate::context::GenerationContext;
use crate::ir::{
    Args, BaseType, Function, FunctionKind, FunctionType, Inst, IrType, ReturnType,
    RuntimeFunctions, Value, ValueKind,
};
use crate::state::State;
use crate::types::ObjectFieldType;
use vstd::prelude::*;
use vstd::string::{StringExecFns, StringSliceAdditionalSpecFns};
use vstd::utf8::encode_utf8;

verus! {

/// One of the sixteen digits.
pub open spec fn digit_text(d: nat) -> Seq<char> {
    if d == 0 {
        "0"@
    } else if d == 1 {
        "1"@
    } else if d == 2 {
        "2"@
    } else if d == 3 {
        "3"@
    } else if d == 4 {
        "4"@
    } else if d == 5 {
        "5"@
    } else if d == 6 {
        "6"@
    } else if d == 7 {
        "7"@
    } else if d == 8 {
        "8"@
    } else if d == 9 {
        "9"@
    } else if d == 10 {
        "A"@
    } else if d == 11 {
        "B"@
    } else if d == 12 {
        "C"@
    } else if d == 13 {
        "D"@
    } else if d == 14 {
        "E"@
    } else {
        "F"@
    }
}

fn digit(d: u64) -> (s: &'static str)
    ensures
        s@ == digit_text(d as nat),
{
    if d == 0 {
        "0"
    } else if d == 1 {
        "1"
    } else if d == 2 {
        "2"
    } else if d == 3 {
        "3"
    } else if d == 4 {
        "4"
    } else if d == 5 {
        "5"
    } else if d == 6 {
        "6"
    } else if d == 7 {
        "7"
    } else if d == 8 {
        "8"
    } else if d == 9 {
        "9"
    } else if d == 10 {
        "A"
    } else if d == 11 {
        "B"
    } else if d == 12 {
        "C"
    } else if d == 13 {
        "D"
    } else if d == 14 {
        "E"
    } else {
        "F"
    }
}

/// A number in decimal.
pub open spec fn decimal(n: nat) -> Seq<char>
    decreases n,
{
    if n < 10 {
        digit_text(n)
    } else {
        decimal(n / 10) + digit_text(n % 10)
    }
}

/// A number in decimal.
pub fn render_decimal(n: u64) -> (s: String)
    ensures
        s@ == decimal(n as nat),
    decreases n,
{
    if n < 10 {
        String::from_str(digit(n))
    } else {
        let mut s = render_decimal(n / 10);
        s.append(digit(n % 10));
        s
    }
}

/// An integer constant, given by its bits, as a signed number in decimal.
pub open spec fn signed_decimal(bits: u64) -> Seq<char> {
    if bits >= 0x8000_0000_0000_0000 {
        "-"@ + decimal((0x1_0000_0000_0000_0000 - bits) as nat)
    } else {
        decimal(bits as nat)
    }
}

/// An integer constant as a signed number in decimal.
pub fn render_signed(bits: u64) -> (s: String)
    ensures
        s@ == signed_decimal(bits),
{
    if bits >= 0x8000_0000_0000_0000 {
        let mut s = String::from_str("-");
        s.append(render_decimal((u64::MAX - bits) + 1).as_str());
        s
    } else {
        render_decimal(bits)
    }
}

/// `text` after `prefix`.
fn prefixed(prefix: &str, text: String) -> (s: String)
    ensures
        s@ == prefix@ + text@,
{
    let mut s = String::from_str(prefix);
    s.append(text.as_str());
    s
}

/// `n` asterisks.
pub open spec fn stars(n: nat) -> Seq<char>
    decreases n,
{
    if n == 0 {
        Seq::empty()
    } else {
        stars((n - 1) as nat) + "*"@
    }
}

/// The types of `n` parameters.
pub open spec fn object_params(n: nat) -> Seq<char>
    decreases n,
{
    if n == 0 {
        Seq::empty()
    } else if n == 1 {
        "i8*"@
    } else {
        object_params((n - 1) as nat) + ", i8*"@
    }
}

fn render_object_params(n: usize) -> (s: String)
    ensures
        s@ == object_params(n as nat),
{
    let mut s = String::new();
    let mut i: usize = 0;
    while i < n
        invariant
            i <= n,
            s@ == object_params(i as nat),
        decreases n - i,
    {
        if i == 0 {
            s.append("i8*");
            assert(s@ =~= object_params(1));
        } else {
            s.append(", i8*");
        }
        i += 1;
    }
    s
}

/// The parameters of a function that is defined, with their names.
pub open spec fn named_params(n: nat) -> Seq<char>
    decreases n,
{
    if n == 0 {
        Seq::empty()
    } else if n == 1 {
        "i8* %a0"@
    } else {
        named_params((n - 1) as nat) + ", i8* %a"@ + decimal((n - 1) as nat)
    }
}

fn render_named_params(n: usize) -> (s: String)
    ensures
        s@ == named_params(n as nat),
{
    let mut s = String::new();
    let mut i: usize = 0;
    while i < n
        invariant
            i <= n,
            s@ == named_params(i as nat),
        decreases n - i,
    {
        if i == 0 {
            s.append("i8* %a0");
            assert(s@ =~= named_params(1));
        } else {
            s.append(", i8* %a");
            s.append(render_decimal(i as u64).as_str());
        }
        i += 1;
    }
    s
}

/// What a function returns.
pub open spec fn return_text(ret: ReturnType) -> Seq<char> {
    match ret {
        ReturnType::Void => "void"@,
        ReturnType::Int64 => "i64"@,
        ReturnType::ObjectPtr => "i8*"@,
    }
}

fn render_return(ret: ReturnType) -> (s: &'static str)
    ensures
        s@ == return_text(ret),
{
    match ret {
        ReturnType::Void => "void",
        ReturnType::Int64 => "i64",
        ReturnType::ObjectPtr => "i8*",
    }
}

/// The type of a function.
pub open spec fn function_type_text(ty: FunctionType) -> Seq<char> {
    return_text(ty.ret) + " ("@ + object_params(ty.params as nat) + ")"@
}

fn render_function_type(ty: FunctionType) -> (s: String)
    ensures
        s@ == function_type_text(ty),
{
    let mut s = String::from_str(render_return(ty.ret));
    s.append(" (");
    s.append(render_object_params(ty.params).as_str());
    s.append(")");
    s
}

/// A base type.
pub open spec fn base_text(base: BaseType) -> Seq<char> {
    match base {
        BaseType::Int1 => "i1"@,
        BaseType::Int8 => "i8"@,
        BaseType::Int64 => "i64"@,
        BaseType::ControlBlock => "%control"@,
        BaseType::Object(l) => "%object."@ + decimal(l as nat),
        BaseType::Function(ty) => function_type_text(ty),
    }
}

fn render_base(base: BaseType) -> (s: String)
    ensures
        s@ == base_text(base),
{
    match base {
        BaseType::Int1 => String::from_str("i1"),
        BaseType::Int8 => String::from_str("i8"),
        BaseType::Int64 => String::from_str("i64"),
        BaseType::ControlBlock => String::from_str("%control"),
        BaseType::Object(l) => prefixed("%object.", render_decimal(l as u64)),
        BaseType::Function(ty) => render_function_type(ty),
    }
}

/// A type: the base type and an asterisk for each level of pointer.
pub open spec fn type_text(ty: IrType) -> Seq<char> {
    base_text(ty.base) + stars(ty.depth as nat)
}

/// A type as text.
pub fn render_type(ty: IrType) -> (s: String)
    ensures
        s@ == type_text(ty),
{
    let mut s = render_base(ty.base);
    let ghost base = s@;
    let mut i: usize = 0;
    assert(s@ =~= base + stars(0));
    while i < ty.depth
        invariant
            i <= ty.depth,
            s@ == base + stars(i as nat),
        decreases ty.depth - i,
    {
        s.append("*");
        assert(s@ =~= base + stars((i + 1) as nat));
        i += 1;
    }
    s
}

/// The type that a pointer of type `ty` points to.
pub open spec fn pointee_text(ty: IrType) -> Seq<char> {
    if ty.depth > 0 {
        type_text(ty.pointee())
    } else {
        type_text(ty)
    }
}

fn render_pointee(ty: IrType) -> (s: String)
    ensures
        s@ == pointee_text(ty),
{
    if ty.depth > 0 {
        render_type(IrType { base: ty.base, depth: ty.depth - 1 })
    } else {
        render_type(ty)
    }
}

/// The name of a function of the runtime.
pub open spec fn runtime_name(func: RuntimeFunctions) -> Seq<char> {
    match func {
        RuntimeFunctions::RetainObj => "retain_obj"@,
        RuntimeFunctions::ReleaseObj => "release_obj"@,
        RuntimeFunctions::ReportMalloc => "report_malloc"@,
        RuntimeFunctions::CheckLeak => "check_leak"@,
        RuntimeFunctions::Dtor(_) => "dtor"@,
        RuntimeFunctions::ArrayNew => "array_new"@,
        RuntimeFunctions::ArrayRead => "array_read"@,
        RuntimeFunctions::ArrayWrite => "array_write"@,
        RuntimeFunctions::ArrayWriteUnique => "array_write_unique"@,
    }
}

fn render_runtime_name(func: RuntimeFunctions) -> (s: &'static str)
    ensures
        s@ == runtime_name(func),
{
    match func {
        RuntimeFunctions::RetainObj => "retain_obj",
        RuntimeFunctions::ReleaseObj => "release_obj",
        RuntimeFunctions::ReportMalloc => "report_malloc",
        RuntimeFunctions::CheckLeak => "check_leak",
        RuntimeFunctions::Dtor(_) => "dtor",
        RuntimeFunctions::ArrayNew => "array_new",
        RuntimeFunctions::ArrayRead => "array_read",
        RuntimeFunctions::ArrayWrite => "array_write",
        RuntimeFunctions::ArrayWriteUnique => "array_write_unique",
    }
}

/// The name of the function with the given number.
pub open spec fn function_name(functions: Seq<Function>, f: usize) -> Seq<char> {
    if f < functions.len() {
        match functions[f as int].kind {
            FunctionKind::Main => "main"@,
            FunctionKind::Lambda => "lambda."@ + decimal(f as nat),
            FunctionKind::Dtor => "dtor."@ + decimal(f as nat),
            FunctionKind::Runtime(func) => runtime_name(func),
        }
    } else {
        "unknown."@ + decimal(f as nat)
    }
}

fn render_function_name(functions: &Vec<Function>, f: usize) -> (s: String)
    ensures
        s@ == function_name(functions@, f),
{
    if f < functions.len() {
        match functions[f].kind {
            FunctionKind::Main => String::from_str("main"),
            FunctionKind::Lambda => prefixed("lambda.", render_decimal(f as u64)),
            FunctionKind::Dtor => prefixed("dtor.", render_decimal(f as u64)),
            FunctionKind::Runtime(func) => String::from_str(render_runtime_name(func)),
        }
    } else {
        prefixed("unknown.", render_decimal(f as u64))
    }
}

/// A value.
pub open spec fn value_text(functions: Seq<Function>, v: Value) -> Seq<char> {
    match v.kind {
        ValueKind::Inst(i) => "%v"@ + decimal(i as nat),
        ValueKind::Param { function, index } => "%a"@ + decimal(index as nat),
        ValueKind::Function(f) => "@"@ + function_name(functions, f),
        ValueKind::ConstInt(bits) => signed_decimal(bits),
    }
}

fn render_value(functions: &Vec<Function>, v: Value) -> (s: String)
    ensures
        s@ == value_text(functions@, v),
{
    match v.kind {
        ValueKind::Inst(i) => prefixed("%v", render_decimal(i as u64)),
        ValueKind::Param { function, index } => prefixed("%a", render_decimal(index as u64)),
        ValueKind::Function(f) => prefixed("@", render_function_name(functions, f)),
        ValueKind::ConstInt(bits) => render_signed(bits),
    }
}

/// A value after its type.
pub open spec fn typed_text(functions: Seq<Function>, v: Value) -> Seq<char> {
    type_text(v.ty) + " "@ + value_text(functions, v)
}

fn render_typed(functions: &Vec<Function>, v: Value) -> (s: String)
    ensures
        s@ == typed_text(functions@, v),
{
    let mut s = render_type(v.ty);
    s.append(" ");
    s.append(render_value(functions, v).as_str());
    s
}

/// The arguments of a call, each after its type.
pub open spec fn args_text(functions: Seq<Function>, args: Args) -> Seq<char> {
    match args {
        Args::Zero => Seq::empty(),
        Args::One(a) => typed_text(functions, a),
        Args::Two(a, b) => typed_text(functions, a) + ", "@ + typed_text(functions, b),
        Args::Three(a, b, c) => typed_text(functions, a) + ", "@ + typed_text(functions, b)
            + ", "@ + typed_text(functions, c),
    }
}

fn render_args(functions: &Vec<Function>, args: Args) -> (s: String)
    ensures
        s@ == args_text(functions@, args),
{
    match args {
        Args::Zero => String::new(),
        Args::One(a) => render_typed(functions, a),
        Args::Two(a, b) => {
            let mut s = render_typed(functions, a);
            s.append(", ");
            s.append(render_typed(functions, b).as_str());
            s
        },
        Args::Three(a, b, c) => {
            let mut s = render_typed(functions, a);
            s.append(", ");
            s.append(render_typed(functions, b).as_str());
            s.append(", ");
            s.append(render_typed(functions, c).as_str());
            s
        },
    }
}

/// The width of an integer type in bits.
pub open spec fn width(ty: IrType) -> nat {
    match ty.base {
        BaseType::Int1 => 1,
        BaseType::Int8 => 8,
        _ => 64,
    }
}

fn width_of(ty: IrType) -> (w: u8)
    ensures
        w == width(ty),
{
    match ty.base {
        BaseType::Int1 => 1,
        BaseType::Int8 => 8,
        _ => 64,
    }
}

/// The operation that brings an integer of type `from` to type `to`.
pub open spec fn cast_text(from: IrType, to: IrType) -> Seq<char> {
    if width(to) < width(from) {
        "trunc"@
    } else if width(to) > width(from) {
        "zext"@
    } else {
        "bitcast"@
    }
}

fn render_cast(from: IrType, to: IrType) -> (s: &'static str)
    ensures
        s@ == cast_text(from, to),
{
    if width_of(to) < width_of(from) {
        "trunc"
    } else if width_of(to) > width_of(from) {
        "zext"
    } else {
        "bitcast"
    }
}

/// What a call returns: the return type of the function that the callee
/// points to.
pub open spec fn callee_return(callee: Value) -> ReturnType {
    match callee.ty.base {
        BaseType::Function(ty) => ty.ret,
        _ => ReturnType::Void,
    }
}

fn return_of(callee: Value) -> (r: ReturnType)
    ensures
        r == callee_return(callee),
{
    match callee.ty.base {
        BaseType::Function(ty) => ty.ret,
        _ => ReturnType::Void,
    }
}

/// The type of an array of `n` bytes.
pub open spec fn bytes_type_text(n: nat) -> Seq<char> {
    "["@ + decimal(n) + " x i8]"@
}

fn render_bytes_type(n: u64) -> (s: String)
    ensures
        s@ == bytes_type_text(n as nat),
{
    let mut s = String::from_str("[");
    s.append(render_decimal(n).as_str());
    s.append(" x i8]");
    s
}

/// The number of bytes of the string with the given number, the final zero
/// included, or zero if there is no such string.
pub open spec fn string_size(strings: Seq<Seq<char>>, k: usize) -> nat {
    if k < strings.len() {
        encode_utf8(strings[k as int]).len() + 1
    } else {
        0
    }
}

fn size_of_string(strings: &Vec<String>, k: usize) -> (n: u64)
    requires
        strings_fit(names_of(strings@)),
    ensures
        n == string_size(names_of(strings@), k),
{
    if k < strings.len() {
        let bytes = strings[k].as_str().as_bytes();
        assert(encode_utf8(names_of(strings@)[k as int]).len() < u64::MAX);
        bytes.len() as u64 + 1
    } else {
        0
    }
}

/// The result of the instruction at position `i`.
pub open spec fn result_text(i: usize) -> Seq<char> {
    "  %v"@ + decimal(i as nat) + " = "@
}

fn render_result(i: usize) -> (s: String)
    ensures
        s@ == result_text(i),
{
    let mut s = String::from_str("  %v");
    s.append(render_decimal(i as u64).as_str());
    s.append(" = ");
    s
}

/// A reference to the block with the given number.
pub open spec fn label_text(block: usize) -> Seq<char> {
    "label %b"@ + decimal(block as nat)
}

fn render_label(block: usize) -> (s: String)
    ensures
        s@ == label_text(block),
{
    prefixed("label %b", render_decimal(block as u64))
}

/// The text of the instruction at position `i` of the module's record.
pub open spec fn inst_text(functions: Seq<Function>, strings: Seq<Seq<char>>, i: usize, inst: Inst)
    -> Seq<char> {
    match inst {
        Inst::PointerCast { value, to } => result_text(i) + "bitcast "@ + typed_text(
            functions,
            value,
        ) + " to "@ + type_text(to) + "\n"@,
        Inst::StructGep { ptr, index } => result_text(i) + "getelementptr inbounds "@
            + pointee_text(ptr.ty) + ", "@ + typed_text(functions, ptr) + ", i32 0, i32 "@
            + decimal(index as nat) + "\n"@,
        Inst::Load { ptr } => result_text(i) + "load "@ + pointee_text(ptr.ty) + ", "@
            + typed_text(functions, ptr) + "\n"@,
        Inst::Store { ptr, value } => "  store "@ + typed_text(functions, value) + ", "@
            + typed_text(functions, ptr) + "\n"@,
        Inst::Call { callee, args, tail } => (if callee_return(callee) is Void {
            "  "@
        } else {
            result_text(i)
        }) + (if tail {
            "tail call "@
        } else {
            "call "@
        }) + return_text(callee_return(callee)) + " "@ + value_text(functions, callee) + "("@
            + args_text(functions, args) + ")\n"@,
        Inst::Malloc { ty } => "  %m"@ + decimal(i as nat)
            + " = call i8* @malloc(i64 ptrtoint ("@ + type_text(ty) + "* getelementptr ("@
            + type_text(ty) + ", "@ + type_text(ty) + "* null, i32 1) to i64))\n"@ + result_text(
            i,
        ) + "bitcast i8* %m"@ + decimal(i as nat) + " to "@ + type_text(ty) + "*\n"@,
        Inst::Free { ptr } => "  %f"@ + decimal(i as nat) + " = bitcast "@ + typed_text(
            functions,
            ptr,
        ) + " to i8*\n  call void @free(i8* %f"@ + decimal(i as nat) + ")\n"@,
        Inst::IntCast { value, to } => result_text(i) + cast_text(value.ty, to) + " "@
            + typed_text(functions, value) + " to "@ + type_text(to) + "\n"@,
        Inst::IntAdd { lhs, rhs } => result_text(i) + "add "@ + typed_text(functions, lhs)
            + ", "@ + value_text(functions, rhs) + "\n"@,
        Inst::IntEq { lhs, rhs } => result_text(i) + "icmp eq "@ + typed_text(functions, lhs)
            + ", "@ + value_text(functions, rhs) + "\n"@,
        Inst::GlobalString { string } => result_text(i) + "getelementptr inbounds "@
            + bytes_type_text(string_size(strings, string)) + ", "@ + bytes_type_text(
            string_size(strings, string),
        ) + "* @s."@ + decimal(string as nat) + ", i32 0, i32 0\n"@,
        Inst::CondBr { cond, then_block, else_block } => "  br "@ + typed_text(functions, cond)
            + ", "@ + label_text(then_block) + ", "@ + label_text(else_block) + "\n"@,
        Inst::Br { block } => "  br "@ + label_text(block) + "\n"@,
        Inst::Phi { ty, first, first_block, second, second_block } => result_text(i) + "phi "@
            + type_text(ty) + " [ "@ + value_text(functions, first) + ", %b"@ + decimal(
            first_block as nat,
        ) + " ], [ "@ + value_text(functions, second) + ", %b"@ + decimal(second_block as nat)
            + " ]\n"@,
        Inst::Ret { result } => match result {
            Some(v) => "  ret "@ + typed_text(functions, v) + "\n"@,
            None => "  ret void\n"@,
        },
    }
}

/// The instruction at position `i` of the module's record as text.
pub fn render_inst(functions: &Vec<Function>, strings: &Vec<String>, i: usize, inst: Inst) -> (s:
    String)
    requires
        strings_fit(names_of(strings@)),
    ensures
        s@ == inst_text(functions@, names_of(strings@), i, inst),
{
    match inst {
        Inst::PointerCast { value, to } => {
            let mut s = render_result(i);
            s.append("bitcast ");
            s.append(render_typed(functions, value).as_str());
            s.append(" to ");
            s.append(render_type(to).as_str());
            s.append("\n");
            s
        },
        Inst::StructGep { ptr, index } => {
            let mut s = render_result(i);
            s.append("getelementptr inbounds ");
            s.append(render_pointee(ptr.ty).as_str());
            s.append(", ");
            s.append(render_typed(functions, ptr).as_str());
            s.append(", i32 0, i32 ");
            s.append(render_decimal(index as u64).as_str());
            s.append("\n");
            s
        },
        Inst::Load { ptr } => {
            let mut s = render_result(i);
            s.append("load ");
            s.append(render_pointee(ptr.ty).as_str());
            s.append(", ");
            s.append(render_typed(functions, ptr).as_str());
            s.append("\n");
            s
        },
        Inst::Store { ptr, value } => {
            let mut s = String::from_str("  store ");
            s.append(render_typed(functions, value).as_str());
            s.append(", ");
            s.append(render_typed(functions, ptr).as_str());
            s.append("\n");
            s
        },
        Inst::Call { callee, args, tail } => {
            let ret = return_of(callee);
            let mut s = match ret {
                ReturnType::Void => String::from_str("  "),
                _ => render_result(i),
            };
            if tail {
                s.append("tail call ");
            } else {
                s.append("call ");
            }
            s.append(render_return(ret));
            s.append(" ");
            s.append(render_value(functions, callee).as_str());
            s.append("(");
            s.append(render_args(functions, args).as_str());
            s.append(")\n");
            s
        },
        Inst::Malloc { ty } => {
            let number = render_decimal(i as u64);
            let t = render_type(ty);
            let mut s = String::from_str("  %m");
            s.append(number.as_str());
            s.append(" = call i8* @malloc(i64 ptrtoint (");
            s.append(t.as_str());
            s.append("* getelementptr (");
            s.append(t.as_str());
            s.append(", ");
            s.append(t.as_str());
            s.append("* null, i32 1) to i64))\n");
            s.append(render_result(i).as_str());
            s.append("bitcast i8* %m");
            s.append(number.as_str());
            s.append(" to ");
            s.append(t.as_str());
            s.append("*\n");
            s
        },
        Inst::Free { ptr } => {
            let number = render_decimal(i as u64);
            let mut s = String::from_str("  %f");
            s.append(number.as_str());
            s.append(" = bitcast ");
            s.append(render_typed(functions, ptr).as_str());
            s.append(" to i8*\n  call void @free(i8* %f");
            s.append(number.as_str());
            s.append(")\n");
            s
        },
        Inst::IntCast { value, to } => {
            let mut s = render_result(i);
            s.append(render_cast(value.ty, to));
            s.append(" ");
            s.append(render_typed(functions, value).as_str());
            s.append(" to ");
            s.append(render_type(to).as_str());
            s.append("\n");
            s
        },
        Inst::IntAdd { lhs, rhs } => {
            let mut s = render_result(i);
            s.append("add ");
            s.append(render_typed(functions, lhs).as_str());
            s.append(", ");
            s.append(render_value(functions, rhs).as_str());
            s.append("\n");
            s
        },
        Inst::IntEq { lhs, rhs } => {
            let mut s = render_result(i);
            s.append("icmp eq ");
            s.append(render_typed(functions, lhs).as_str());
            s.append(", ");
            s.append(render_value(functions, rhs).as_str());
            s.append("\n");
            s
        },
        Inst::GlobalString { string } => {
            let t = render_bytes_type(size_of_string(strings, string));
            let mut s = render_result(i);
            s.append("getelementptr inbounds ");
            s.append(t.as_str());
            s.append(", ");
            s.append(t.as_str());
            s.append("* @s.");
            s.append(render_decimal(string as u64).as_str());
            s.append(", i32 0, i32 0\n");
            s
        },
        Inst::CondBr { cond, then_block, else_block } => {
            let mut s = String::from_str("  br ");
            s.append(render_typed(functions, cond).as_str());
            s.append(", ");
            s.append(render_label(then_block).as_str());
            s.append(", ");
            s.append(render_label(else_block).as_str());
            s.append("\n");
            s
        },
        Inst::Br { block } => {
            let mut s = String::from_str("  br ");
            s.append(render_label(block).as_str());
            s.append("\n");
            s
        },
        Inst::Phi { ty, first, first_block, second, second_block } => {
            let mut s = render_result(i);
            s.append("phi ");
            s.append(render_type(ty).as_str());
            s.append(" [ ");
            s.append(render_value(functions, first).as_str());
            s.append(", %b");
            s.append(render_decimal(first_block as u64).as_str());
            s.append(" ], [ ");
            s.append(render_value(functions, second).as_str());
            s.append(", %b");
            s.append(render_decimal(second_block as u64).as_str());
            s.append(" ]\n");
            s
        },
        Inst::Ret { result } => match result {
            Some(v) => {
                let mut s = String::from_str("  ret ");
                s.append(render_typed(functions, v).as_str());
                s.append("\n");
                s
            },
            None => String::from_str("  ret void\n"),
        },
    }
}

/// The first `n` fields of a struct, separated by commas.
pub open spec fn fields_text(layout: Seq<ObjectFieldType>, n: int) -> Seq<char>
    decreases n,
{
    if n <= 0 {
        Seq::empty()
    } else if n == 1 {
        type_text(layout[0].basic_type())
    } else {
        fields_text(layout, n - 1) + ", "@ + type_text(layout[n - 1].basic_type())
    }
}

/// The definition of the struct type of the layout with number `l`.
pub open spec fn layout_text(l: usize, layout: Seq<ObjectFieldType>) -> Seq<char> {
    "%object."@ + decimal(l as nat) + " = type { "@ + fields_text(layout, layout.len() as int)
        + " }\n"@
}

fn render_layout(l: usize, layout: &Vec<ObjectFieldType>) -> (s: String)
    ensures
        s@ == layout_text(l, layout@),
{
    let mut s = String::from_str("%object.");
    s.append(render_decimal(l as u64).as_str());
    s.append(" = type { ");
    let ghost head = s@;
    let mut i: usize = 0;
    assert(s@ =~= head + fields_text(layout@, 0));
    while i < layout.len()
        invariant
            i <= layout@.len(),
            s@ == head + fields_text(layout@, i as int),
        decreases layout@.len() - i,
    {
        if i > 0 {
            s.append(", ");
        }
        s.append(render_type(layout[i].to_basic_type()).as_str());
        assert(s@ =~= head + fields_text(layout@, i + 1));
        i += 1;
    }
    s.append(" }\n");
    s
}

/// The definitions of the first `n` struct types.
pub open spec fn layouts_text(layouts: Seq<Seq<ObjectFieldType>>, n: int) -> Seq<char>
    decreases n,
{
    if n <= 0 {
        Seq::empty()
    } else {
        layouts_text(layouts, n - 1) + layout_text((n - 1) as usize, layouts[n - 1])
    }
}

/// The definition of the control block.
pub open spec fn control_text(sanitize: bool) -> Seq<char> {
    if sanitize {
        "%control = type { i64, void (i8*)*, i64 }\n"@
    } else {
        "%control = type { i64, void (i8*)* }\n"@
    }
}

/// The first `n` bytes, each as a backslash and two hexadecimal digits.
pub open spec fn escaped(bytes: Seq<u8>, n: int) -> Seq<char>
    decreases n,
{
    if n <= 0 {
        Seq::empty()
    } else {
        escaped(bytes, n - 1) + "\\"@ + digit_text((bytes[n - 1] / 16) as nat) + digit_text(
            (bytes[n - 1] % 16) as nat,
        )
    }
}

/// The definition of the string with number `k`.
pub open spec fn string_text(k: usize, string: Seq<char>) -> Seq<char> {
    "@s."@ + decimal(k as nat) + " = private unnamed_addr constant "@ + bytes_type_text(
        encode_utf8(string).len() + 1,
    ) + " c\""@ + escaped(encode_utf8(string), encode_utf8(string).len() as int) + "\\00\"\n"@
}

fn render_string(k: usize, string: &String) -> (s: String)
    requires
        encode_utf8(string@).len() < u64::MAX,
    ensures
        s@ == string_text(k, string@),
{
    let bytes = string.as_str().as_bytes();
    let mut s = String::from_str("@s.");
    s.append(render_decimal(k as u64).as_str());
    s.append(" = private unnamed_addr constant ");
    s.append(render_bytes_type(bytes.len() as u64 + 1).as_str());
    s.append(" c\"");
    let ghost head = s@;
    let mut i: usize = 0;
    assert(s@ =~= head + escaped(bytes@, 0));
    while i < bytes.len()
        invariant
            i <= bytes@.len(),
            s@ == head + escaped(bytes@, i as int),
        decreases bytes@.len() - i,
    {
        let b = bytes[i];
        s.append("\\");
        s.append(digit((b / 16) as u64));
        s.append(digit((b % 16) as u64));
        assert(s@ =~= head + escaped(bytes@, i + 1));
        i += 1;
    }
    s.append("\\00\"\n");
    s
}

/// The definitions of the first `n` strings.
pub open spec fn strings_text(strings: Seq<Seq<char>>, n: int) -> Seq<char>
    decreases n,
{
    if n <= 0 {
        Seq::empty()
    } else {
        strings_text(strings, n - 1) + string_text((n - 1) as usize, strings[n - 1])
    }
}

/// The instructions of block `block` among the first `n` entries.
pub open spec fn block_text(st: State, block: usize, n: int) -> Seq<char>
    decreases n,
{
    if n <= 0 {
        Seq::empty()
    } else {
        block_text(st, block, n - 1) + (if st.code[n - 1].block == Some(block) {
            inst_text(st.functions, st.strings, (n - 1) as usize, st.code[n - 1].inst)
        } else {
            Seq::empty()
        })
    }
}

/// The blocks of function `f` among the first `n` blocks, each with its
/// label and its instructions.
pub open spec fn blocks_text(st: State, f: usize, n: int) -> Seq<char>
    decreases n,
{
    if n <= 0 {
        Seq::empty()
    } else {
        blocks_text(st, f, n - 1) + (if st.blocks[n - 1].function == f {
            "b"@ + decimal((n - 1) as nat) + ":\n"@ + block_text(
                st,
                (n - 1) as usize,
                st.code.len() as int,
            )
        } else {
            Seq::empty()
        })
    }
}

/// The function with number `f`: a declaration for a function of the
/// runtime, a definition for every other.
pub open spec fn function_text(st: State, f: usize) -> Seq<char> {
    let function = st.functions[f as int];
    match function.kind {
        FunctionKind::Runtime(_) => "declare "@ + return_text(function.ty.ret) + " @"@
            + function_name(st.functions, f) + "("@ + object_params(function.ty.params as nat)
            + ")\n"@,
        _ => "define "@ + return_text(function.ty.ret) + " @"@ + function_name(st.functions, f)
            + "("@ + named_params(function.ty.params as nat) + ") {\n"@ + blocks_text(
            st,
            f,
            st.blocks.len() as int,
        ) + "}\n"@,
    }
}

/// The first `n` functions.
pub open spec fn functions_text(st: State, n: int) -> Seq<char>
    decreases n,
{
    if n <= 0 {
        Seq::empty()
    } else {
        functions_text(st, n - 1) + function_text(st, (n - 1) as usize)
    }
}

/// The module: the struct types, the strings, the allocator with its free,
/// and the functions.
pub open spec fn module_text(st: State) -> Seq<char> {
    control_text(st.sanitize) + layouts_text(st.layouts, st.layouts.len() as int) + strings_text(
        st.strings,
        st.strings.len() as int,
    ) + "declare i8* @malloc(i64)\ndeclare void @free(i8*)\n"@ + functions_text(
        st,
        st.functions.len() as int,
    )
}

/// No string of the module is too long for its size to be written.
pub open spec fn strings_fit(strings: Seq<Seq<char>>) -> bool {
    forall|k: int| 0 <= k < strings.len() ==> encode_utf8(#[trigger] strings[k]).len() < u64::MAX
}

fn render_block(gc: &GenerationContext, block: usize) -> (s: String)
    requires
        strings_fit(gc@.strings),
    ensures
        s@ == block_text(gc@, block, gc@.code.len() as int),
{
    let mut s = String::new();
    let mut i: usize = 0;
    while i < gc.module.code.len()
        invariant
            i <= gc.module.code@.len(),
            strings_fit(gc@.strings),
            s@ == block_text(gc@, block, i as int),
        decreases gc.module.code@.len() - i,
    {
        let entry = gc.module.code[i];
        match entry.block {
            Some(b) => {
                if b == block {
                    s.append(
                        render_inst(&gc.module.functions, &gc.module.strings, i, entry.inst).as_str(),
                    );
                } else {
                    assert(s@ =~= s@ + Seq::<char>::empty());
                }
            },
            None => {
                assert(s@ =~= s@ + Seq::<char>::empty());
            },
        }
        i += 1;
    }
    s
}

fn render_blocks(gc: &GenerationContext, f: usize) -> (s: String)
    requires
        strings_fit(gc@.strings),
    ensures
        s@ == blocks_text(gc@, f, gc@.blocks.len() as int),
{
    let mut s = String::new();
    let mut b: usize = 0;
    while b < gc.module.blocks.len()
        invariant
            b <= gc.module.blocks@.len(),
            strings_fit(gc@.strings),
            s@ == blocks_text(gc@, f, b as int),
        decreases gc.module.blocks@.len() - b,
    {
        let ghost before = s@;
        if gc.module.blocks[b].function == f {
            s.append("b");
            s.append(render_decimal(b as u64).as_str());
            s.append(":\n");
            s.append(render_block(gc, b).as_str());
            assert(s@ =~= before + ("b"@ + decimal(b as nat) + ":\n"@ + block_text(
                gc@,
                b,
                gc@.code.len() as int,
            )));
        } else {
            assert(s@ =~= before + Seq::<char>::empty());
        }
        b += 1;
    }
    s
}

fn render_function(gc: &GenerationContext, f: usize) -> (s: String)
    requires
        f < gc@.functions.len(),
        strings_fit(gc@.strings),
    ensures
        s@ == function_text(gc@, f),
{
    let function = gc.module.functions[f];
    match function.kind {
        FunctionKind::Runtime(_) => {
            let mut s = String::from_str("declare ");
            s.append(render_return(function.ty.ret));
            s.append(" @");
            s.append(render_function_name(&gc.module.functions, f).as_str());
            s.append("(");
            s.append(render_object_params(function.ty.params).as_str());
            s.append(")\n");
            s
        },
        _ => {
            let mut s = String::from_str("define ");
            s.append(render_return(function.ty.ret));
            s.append(" @");
            s.append(render_function_name(&gc.module.functions, f).as_str());
            s.append("(");
            s.append(render_named_params(function.ty.params).as_str());
            s.append(") {\n");
            s.append(render_blocks(gc, f).as_str());
            s.append("}\n");
            s
        },
    }
}

/// Whether no string of the module is too long.
fn check_strings(strings: &Vec<String>) -> (b: bool)
    ensures
        b == strings_fit(names_of(strings@)),
{
    let mut k: usize = 0;
    while k < strings.len()
        invariant
            k <= strings@.len(),
            forall|j: int|
                0 <= j < k ==> encode_utf8(#[trigger] names_of(strings@)[j]).len() < u64::MAX,
        decreases strings@.len() - k,
    {
        if strings[k].as_str().as_bytes().len() as u64 == u64::MAX {
            assert(encode_utf8(names_of(strings@)[k as int]).len() == u64::MAX);
            return false;
        }
        k += 1;
    }
    true
}

/// The module as text, unless a string of it is too long for its size to be
/// written.
pub fn render_module(gc: &GenerationContext) -> (r: Option<String>)
    ensures
        r is Some == strings_fit(gc@.strings),
        r matches Some(s) ==> s@ == module_text(gc@),
{
    if !check_strings(&gc.module.strings) {
        return None;
    }
    let mut s = String::from_str(
        if gc.context.sanitize_memory {
            "%control = type { i64, void (i8*)*, i64 }\n"
        } else {
            "%control = type { i64, void (i8*)* }\n"
        },
    );
    let ghost head = s@;
    let mut l: usize = 0;
    assert(s@ =~= head + layouts_text(gc@.layouts, 0));
    while l < gc.context.layouts.len()
        invariant
            l <= gc.context.layouts@.len(),
            s@ == head + layouts_text(gc@.layouts, l as int),
        decreases gc.context.layouts@.len() - l,
    {
        s.append(render_layout(l, &gc.context.layouts[l].field_types).as_str());
        assert(s@ =~= head + layouts_text(gc@.layouts, l + 1));
        l += 1;
    }
    let ghost head = s@;
    let mut k: usize = 0;
    assert(s@ =~= head + strings_text(gc@.strings, 0));
    while k < gc.module.strings.len()
        invariant
            k <= gc.module.strings@.len(),
            strings_fit(gc@.strings),
            s@ == head + strings_text(gc@.strings, k as int),
        decreases gc.module.strings@.len() - k,
    {
        assert(encode_utf8(gc@.strings[k as int]).len() < u64::MAX);
        s.append(render_string(k, &gc.module.strings[k]).as_str());
        assert(s@ =~= head + strings_text(gc@.strings, k + 1));
        k += 1;
    }
    s.append("declare i8* @malloc(i64)\ndeclare void @free(i8*)\n");
    let ghost head = s@;
    let mut f: usize = 0;
    assert(s@ =~= head + functions_text(gc@, 0));
    while f < gc.module.functions.len()
        invariant
            f <= gc.module.functions@.len(),
            strings_fit(gc@.strings),
            s@ == head + functions_text(gc@, f as int),
        decreases gc.module.functions@.len() - f,
    {
        s.append(render_function(gc, f).as_str());
        assert(s@ =~= head + functions_text(gc@, f + 1));
        f += 1;
    }
    Some(s)
}

} // verus!
