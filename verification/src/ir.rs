//! The intermediate representation: types, values and instructions in SSA
//! form, and the module that a compilation fills.
//!
//! A module records its instructions in the order in which they were emitted.
//! Each entry names the basic block it was appended to, so the instructions
//! of one block are the entries that name it, in order. The value that an
//! instruction yields is identified by the instruction's position in that
//! record.

use vstd::prelude::*;

verus! {

/// What a function returns.
#[derive(Clone, Copy, PartialEq, Eq, Structural, Debug)]
pub enum ReturnType {
    Void,
    Int64,
    ObjectPtr,
}

/// The type of a function. Every parameter is an object pointer.
#[derive(Clone, Copy, PartialEq, Eq, Structural, Debug)]
pub struct FunctionType {
    pub ret: ReturnType,
    pub params: usize,
}

/// What a type is before any pointer is taken to it.
#[derive(Clone, Copy, PartialEq, Eq, Structural, Debug)]
pub enum BaseType {
    Int1,
    Int8,
    Int64,
    /// The control block that starts every heap object.
    ControlBlock,
    /// The struct of the object layout with the given number.
    Object(usize),
    Function(FunctionType),
}

/// A type: a base type under `depth` levels of pointer.
#[derive(Clone, Copy, PartialEq, Eq, Structural, Debug)]
pub struct IrType {
    pub base: BaseType,
    pub depth: usize,
}

impl IrType {
    /// Whether the type is a pointer.
    pub open spec fn is_pointer(self) -> bool {
        self.depth > 0
    }

    /// The type of a pointer to this type.
    pub open spec fn pointer_to(self) -> IrType {
        IrType { base: self.base, depth: (self.depth + 1) as usize }
    }

    /// The type that a pointer of this type points to.
    pub open spec fn pointee(self) -> IrType {
        IrType { base: self.base, depth: (self.depth - 1) as usize }
    }
}

/// The generic object pointer: a pointer to a byte.
pub open spec fn object_pointer() -> IrType {
    IrType { base: BaseType::Int8, depth: 1 }
}

/// Where a value comes from.
#[derive(Clone, Copy, PartialEq, Eq, Structural, Debug)]
pub enum ValueKind {
    /// The result of the instruction at this position of the module's record.
    Inst(usize),
    /// A parameter of a function.
    Param { function: usize, index: usize },
    /// The address of a function.
    Function(usize),
    /// An integer constant, as its two's complement bits.
    ConstInt(u64),
}

/// A value with its type.
#[derive(Clone, Copy, PartialEq, Eq, Structural, Debug)]
pub struct Value {
    pub kind: ValueKind,
    pub ty: IrType,
}

/// The arguments of a call.
#[derive(Clone, Copy, PartialEq, Eq, Structural, Debug)]
pub enum Args {
    Zero,
    One(Value),
    Two(Value, Value),
    Three(Value, Value, Value),
}

impl Args {
    /// The number of arguments.
    pub open spec fn count(self) -> nat {
        match self {
            Args::Zero => 0,
            Args::One(_) => 1,
            Args::Two(_, _) => 2,
            Args::Three(_, _, _) => 3,
        }
    }
}

/// An instruction.
#[derive(Clone, Copy, PartialEq, Eq, Structural, Debug)]
pub enum Inst {
    /// The pointer `value` seen as a pointer of type `to`.
    PointerCast { value: Value, to: IrType },
    /// The address of field `index` of the struct that `ptr` points to.
    StructGep { ptr: Value, index: usize },
    Load { ptr: Value },
    Store { ptr: Value, value: Value },
    Call { callee: Value, args: Args, tail: bool },
    /// A fresh allocation of the struct `ty`.
    Malloc { ty: IrType },
    /// The end of the allocation that `ptr` points to.
    Free { ptr: Value },
    /// The integer `value` brought to the width of `to`.
    IntCast { value: Value, to: IrType },
    IntAdd { lhs: Value, rhs: Value },
    /// Whether two integers are equal, as one bit.
    IntEq { lhs: Value, rhs: Value },
    /// The address of the module's string with the given number.
    GlobalString { string: usize },
    CondBr { cond: Value, then_block: usize, else_block: usize },
    Br { block: usize },
    /// The first value when control came from the first block, the second
    /// when it came from the second.
    Phi { ty: IrType, first: Value, first_block: usize, second: Value, second_block: usize },
    Ret { result: Option<Value> },
}

/// One emitted instruction and the block it was appended to, if the builder
/// stood in one.
#[derive(Clone, Copy, PartialEq, Eq, Structural, Debug)]
pub struct Entry {
    pub block: Option<usize>,
    pub inst: Inst,
}

/// What a function of the module is.
#[derive(Clone, Copy, PartialEq, Eq, Structural, Debug)]
pub enum FunctionKind {
    /// The program's entry point.
    Main,
    /// The code of a source lambda.
    Lambda,
    /// The destructor of an object layout.
    Dtor,
    /// A function of the runtime support library, declared and not defined.
    Runtime(RuntimeFunctions),
}

/// The functions that emitted code calls by kind.
#[derive(Clone, Copy, PartialEq, Eq, Structural, Debug)]
pub enum RuntimeFunctions {
    RetainObj,
    ReleaseObj,
    ReportMalloc,
    CheckLeak,
    /// The destructor of the object layout with the given number.
    Dtor(usize),
    ArrayNew,
    ArrayRead,
    ArrayWrite,
    ArrayWriteUnique,
}

/// A function of the module.
#[derive(Clone, Copy, PartialEq, Eq, Structural, Debug)]
pub struct Function {
    pub kind: FunctionKind,
    pub ty: FunctionType,
}

/// What a basic block is for.
#[derive(Clone, Copy, PartialEq, Eq, Structural, Debug)]
pub enum BlockName {
    Entry,
    Then,
    Else,
    Cont,
}

/// A basic block.
#[derive(Clone, Copy, PartialEq, Eq, Structural, Debug)]
pub struct Block {
    /// The function the block belongs to.
    pub function: usize,
    pub name: BlockName,
}

/// The code under construction.
pub struct Module {
    pub functions: Vec<Function>,
    pub blocks: Vec<Block>,
    pub strings: Vec<String>,
    pub code: Vec<Entry>,
}

/// The builder's insertion point: the block that the next instruction is
/// appended to.
#[derive(Clone, Copy, PartialEq, Eq, Structural, Debug)]
pub struct Builder {
    pub block: Option<usize>,
}

impl Module {
    /// The empty module.
    pub fn new() -> (m: Module)
        ensures
            m.functions@.len() == 0,
            m.blocks@.len() == 0,
            m.strings@.len() == 0,
            m.code@.len() == 0,
    {
        Module { functions: Vec::new(), blocks: Vec::new(), strings: Vec::new(), code: Vec::new() }
    }
}

} // verus!
