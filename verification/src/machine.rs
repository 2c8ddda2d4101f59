//! A machine that runs a compiled module.
//!
//! The machine executes the instructions of the module one by one on a heap
//! of reference-counted objects. It implements the functions of the runtime
//! support library itself: retain and release, the registration of
//! allocations and the leak check, and the arrays. A call that is marked as a
//! tail call and whose value the caller returns at once replaces the caller's
//! frame, so that loops written as tail recursion run in constant space.
//!
//! The machine is this library's own account of what a module does. It is
//! not the backend: a backend turns the module into native code and links it
//! with a runtime support library of its own, and nothing in this library
//! relates what that code returns to what the machine returns.

use crate::context::Context;
use crate::ir::{
    Args, BaseType, Block, Entry, Function, FunctionKind, Inst, IrType, Module, RuntimeFunctions,
    Value, ValueKind,
};
use crate::types::ObjectFieldType;
use vstd::prelude::*;

verus! {

/// Why a run did not yield a result.
#[derive(Clone, Copy, PartialEq, Eq, Structural, Debug)]
pub enum ExecutionError {
    /// The module is not well formed: a number refers to nothing, a value is
    /// used before it is defined or as what it is not, or there is no `main`.
    MalformedModule,
    /// The run took more steps than it was given.
    StepLimit,
    /// An object was used after it was freed, a reference count left its
    /// range, an array was indexed outside its bounds, or an array that is
    /// shared was written to in place.
    MemoryError,
    /// Objects were still alive when the leak check ran.
    Leak,
}

/// The part of an object that a pointer points to.
#[derive(Clone, Copy, PartialEq, Eq, Structural, Debug)]
pub enum Place {
    /// The object itself.
    Whole,
    /// The control block.
    Control,
    /// A field of the control block.
    ControlField(usize),
    /// A field of the object.
    Field(usize),
}

/// A value at run time.
#[derive(Clone, Copy, PartialEq, Eq, Structural, Debug)]
pub enum RtValue {
    Undefined,
    /// An integer, as its bits.
    Int(u64),
    Pointer { object: usize, place: Place },
    Function(usize),
    Text(usize),
}

/// The integer `bits` at the width of `ty`.
pub open spec fn truncated(bits: u64, ty: IrType) -> u64 {
    match ty.base {
        BaseType::Int1 => bits & 1,
        BaseType::Int8 => bits & 0xff,
        _ => bits,
    }
}

/// The integer `bits` at the width of `ty`.
pub fn truncate(bits: u64, ty: IrType) -> (r: u64)
    ensures
        r == truncated(bits, ty),
{
    match ty.base {
        BaseType::Int1 => bits & 1,
        BaseType::Int8 => bits & 0xff,
        _ => bits,
    }
}

/// The place of field `index` of the struct that a pointer of type `ty` to
/// `place` points to, if there is such a field. `control` tells whether the
/// field is a control block.
pub open spec fn field_place(ty: IrType, place: Place, index: usize, control: bool) -> Option<
    Place,
> {
    match ty.base {
        BaseType::ControlBlock => match place {
            Place::Whole => Some(Place::ControlField(index)),
            Place::Control => Some(Place::ControlField(index)),
            _ => None,
        },
        BaseType::Object(_) => match place {
            Place::Whole => Some(
                if control {
                    Place::Control
                } else {
                    Place::Field(index)
                },
            ),
            _ => None,
        },
        _ => None,
    }
}

/// The place of a field of a struct.
pub fn place_of_field(ty: IrType, place: Place, index: usize, control: bool) -> (r: Option<Place>)
    ensures
        r == field_place(ty, place, index, control),
{
    match ty.base {
        BaseType::ControlBlock => match place {
            Place::Whole => Some(Place::ControlField(index)),
            Place::Control => Some(Place::ControlField(index)),
            _ => None,
        },
        BaseType::Object(_) => match place {
            Place::Whole => Some(
                if control {
                    Place::Control
                } else {
                    Place::Field(index)
                },
            ),
            _ => None,
        },
        _ => None,
    }
}

/// The value that a phi takes when control came from `previous`.
pub open spec fn phi_choice(
    previous: Option<usize>,
    first: Value,
    first_block: usize,
    second: Value,
    second_block: usize,
) -> Option<Value> {
    if previous == Some(first_block) {
        Some(first)
    } else if previous == Some(second_block) {
        Some(second)
    } else {
        None
    }
}

/// The value that a phi takes.
pub fn choose_phi(
    previous: Option<usize>,
    first: Value,
    first_block: usize,
    second: Value,
    second_block: usize,
) -> (r: Option<Value>)
    ensures
        r == phi_choice(previous, first, first_block, second, second_block),
{
    match previous {
        Some(p) => {
            if p == first_block {
                Some(first)
            } else if p == second_block {
                Some(second)
            } else {
                None
            }
        },
        None => None,
    }
}

/// What the machine knows of one object.
#[derive(Clone, Copy, PartialEq, Eq, Structural, Debug)]
pub struct Header {
    pub refcount: u64,
    pub dtor: RtValue,
    pub id: u64,
    pub live: bool,
    pub reported: bool,
    pub array: bool,
    /// Where the object's fields start among the cells.
    pub base: usize,
    /// The number of the object's fields.
    pub len: usize,
}

/// One activation of a function.
#[derive(Clone, Copy, PartialEq, Eq, Structural, Debug)]
pub struct Frame {
    pub function: usize,
    pub block: usize,
    /// The block that control came from.
    pub previous: Option<usize>,
    /// The position of the next instruction in the block.
    pub pc: usize,
    /// Where the frame's registers start.
    pub base: usize,
    pub arg0: RtValue,
    pub arg1: RtValue,
    pub arg2: RtValue,
    /// The register of the caller that takes the result.
    pub result: Option<usize>,
}

/// The module laid out for execution.
pub struct Program {
    /// The positions of the instructions, block by block.
    pub order: Vec<usize>,
    /// Where each block starts in `order`.
    pub block_start: Vec<usize>,
    /// The number of instructions of each block.
    pub block_len: Vec<usize>,
    /// The register of each instruction within its function's frame.
    pub slot_of: Vec<usize>,
    /// The number of registers of each function.
    pub slots: Vec<usize>,
    /// The entry block of each function, if it has one.
    pub entry: Vec<Option<usize>>,
}

/// The state of a run: the heap, the activations with their registers, and
/// the bookkeeping of the runtime.
pub struct Machine {
    pub headers: Vec<Header>,
    pub cells: Vec<RtValue>,
    pub frames: Vec<Frame>,
    pub registers: Vec<RtValue>,
    /// Objects whose reference count is still to be lowered.
    pub pending: Vec<usize>,
    pub next_id: u64,
    /// The number of reported objects that are alive.
    pub reported_live: u64,
}

/// A module as the machine sees it.
pub struct Image {
    pub code: Seq<Entry>,
    pub functions: Seq<Function>,
    pub blocks: Seq<Block>,
    /// The number of strings.
    pub strings: nat,
    pub layouts: Seq<Seq<ObjectFieldType>>,
    pub sanitize: bool,
}

/// The module and the context of a compilation as the machine sees them.
pub open spec fn image_of(module: &Module, context: &Context) -> Image {
    Image {
        code: module.code@,
        functions: module.functions@,
        blocks: module.blocks@,
        strings: module.strings@.len(),
        layouts: crate::context::layouts_of(context.layouts@),
        sanitize: context.sanitize_memory,
    }
}

/// The layout of a module as specifications see it.
pub struct Layout {
    pub order: Seq<usize>,
    pub block_start: Seq<usize>,
    pub block_len: Seq<usize>,
    pub slot_of: Seq<usize>,
    pub slots: Seq<usize>,
    pub entry: Seq<Option<usize>>,
}

impl View for Program {
    type V = Layout;

    open spec fn view(&self) -> Layout {
        Layout {
            order: self.order@,
            block_start: self.block_start@,
            block_len: self.block_len@,
            slot_of: self.slot_of@,
            slots: self.slots@,
            entry: self.entry@,
        }
    }
}

fn vec_of<T: Copy>(value: T, n: usize) -> (v: Vec<T>)
    ensures
        v@ == Seq::new(n as nat, |i: int| value),
{
    let mut v: Vec<T> = Vec::new();
    let mut i: usize = 0;
    assert(v@ =~= Seq::new(0, |k: int| value));
    while i < n
        invariant
            i <= n,
            v@ == Seq::new(i as nat, |k: int| value),
        decreases n - i,
    {
        v.push(value);
        assert(v@ =~= Seq::new((i + 1) as nat, |k: int| value));
        i += 1;
    }
    v
}

/// `n` times no block.
pub open spec fn no_entries(n: nat) -> Seq<Option<usize>> {
    Seq::new(n, |i: int| None)
}

/// `n` zeros.
pub open spec fn zeros(n: nat) -> Seq<usize> {
    Seq::new(n, |i: int| 0usize)
}

/// The entry block of each function: the first block that belongs to it.
/// `entry` holds what the blocks before `b` gave.
pub open spec fn entries_from(blocks: Seq<Block>, b: int, entry: Seq<Option<usize>>) -> Result<
    Seq<Option<usize>>,
    ExecutionError,
>
    decreases blocks.len() - b,
{
    if b < 0 || b >= blocks.len() {
        Ok(entry)
    } else {
        let f = blocks[b].function;
        if f >= entry.len() {
            Err(ExecutionError::MalformedModule)
        } else {
            entries_from(
                blocks,
                b + 1,
                if entry[f as int] is None {
                    entry.update(f as int, Some(b as usize))
                } else {
                    entry
                },
            )
        }
    }
}

fn find_entries(module: &Module) -> (r: Result<Vec<Option<usize>>, ExecutionError>)
    ensures
        match r {
            Ok(entry) => entries_from(module.blocks@, 0, no_entries(module.functions@.len()))
                == Ok::<Seq<Option<usize>>, ExecutionError>(entry@) && entry@.len()
                == module.functions@.len(),
            Err(e) => entries_from(module.blocks@, 0, no_entries(module.functions@.len()))
                == Err::<Seq<Option<usize>>, ExecutionError>(e),
        },
{
    let n_functions = module.functions.len();
    let mut entry: Vec<Option<usize>> = vec_of(None, n_functions);
    assert(entry@ =~= no_entries(n_functions as nat));
    let mut b: usize = 0;
    while b < module.blocks.len()
        invariant
            b <= module.blocks@.len(),
            n_functions == module.functions@.len(),
            entry@.len() == n_functions,
            entries_from(module.blocks@, b as int, entry@) == entries_from(
                module.blocks@,
                0,
                no_entries(n_functions as nat),
            ),
        decreases module.blocks@.len() - b,
    {
        let f = module.blocks[b].function;
        if f >= n_functions {
            return Err(ExecutionError::MalformedModule);
        }
        if entry[f].is_none() {
            entry.set(f, Some(b));
        }
        b += 1;
    }
    Ok(entry)
}

/// What the entries of the code before `i` gave: the length of each block,
/// the number of registers of each function, and the register of each
/// instruction.
pub struct Counts {
    pub block_len: Seq<usize>,
    pub slots: Seq<usize>,
    pub slot_of: Seq<usize>,
}

/// Every instruction gets the next register of its function and takes the
/// next place in its block.
pub open spec fn counts_from(code: Seq<Entry>, blocks: Seq<Block>, i: int, counts: Counts) -> Result<
    Counts,
    ExecutionError,
>
    decreases code.len() - i,
{
    if i < 0 || i >= code.len() {
        Ok(counts)
    } else {
        match code[i].block {
            None => Err(ExecutionError::MalformedModule),
            Some(block) => {
                if block >= blocks.len() || block >= counts.block_len.len() {
                    Err(ExecutionError::MalformedModule)
                } else {
                    let f = blocks[block as int].function;
                    if f >= counts.slots.len() {
                        Err(ExecutionError::MalformedModule)
                    } else {
                        counts_from(
                            code,
                            blocks,
                            i + 1,
                            Counts {
                                block_len: counts.block_len.update(
                                    block as int,
                                    (counts.block_len[block as int] + 1) as usize,
                                ),
                                slots: counts.slots.update(
                                    f as int,
                                    (counts.slots[f as int] + 1) as usize,
                                ),
                                slot_of: counts.slot_of.push(counts.slots[f as int]),
                            },
                        )
                    }
                }
            },
        }
    }
}

/// The counts before any entry.
pub open spec fn no_counts(blocks: nat, functions: nat) -> Counts {
    Counts { block_len: zeros(blocks), slots: zeros(functions), slot_of: Seq::empty() }
}

fn count(module: &Module) -> (r: Result<(Vec<usize>, Vec<usize>, Vec<usize>), ExecutionError>)
    ensures
        match r {
            Ok(t) => counts_from(
                module.code@,
                module.blocks@,
                0,
                no_counts(module.blocks@.len(), module.functions@.len()),
            ) == Ok::<Counts, ExecutionError>(Counts { block_len: t.0@, slots: t.1@, slot_of: t.2@ })
                && t.0@.len() == module.blocks@.len() && t.1@.len() == module.functions@.len()
                && t.2@.len() == module.code@.len(),
            Err(e) => counts_from(
                module.code@,
                module.blocks@,
                0,
                no_counts(module.blocks@.len(), module.functions@.len()),
            ) == Err::<Counts, ExecutionError>(e),
        },
{
    let n_code = module.code.len();
    let n_blocks = module.blocks.len();
    let n_functions = module.functions.len();
    let mut block_len: Vec<usize> = vec_of(0usize, n_blocks);
    let mut slots: Vec<usize> = vec_of(0usize, n_functions);
    let mut slot_of: Vec<usize> = Vec::new();
    let ghost start = no_counts(n_blocks as nat, n_functions as nat);
    assert(slot_of@ =~= start.slot_of);
    assert(block_len@ =~= start.block_len);
    assert(slots@ =~= start.slots);
    let mut i: usize = 0;
    while i < n_code
        invariant
            i <= n_code,
            n_code == module.code@.len(),
            n_blocks == module.blocks@.len(),
            n_functions == module.functions@.len(),
            start == no_counts(n_blocks as nat, n_functions as nat),
            block_len@.len() == n_blocks,
            slots@.len() == n_functions,
            slot_of@.len() == i,
            forall|k: int| 0 <= k < n_blocks ==> block_len@[k] <= i,
            forall|k: int| 0 <= k < n_functions ==> slots@[k] <= i,
            counts_from(
                module.code@,
                module.blocks@,
                i as int,
                Counts { block_len: block_len@, slots: slots@, slot_of: slot_of@ },
            ) == counts_from(module.code@, module.blocks@, 0, start),
        decreases n_code - i,
    {
        let block = match module.code[i].block {
            Some(block) => block,
            None => {
                return Err(ExecutionError::MalformedModule);
            },
        };
        if block >= n_blocks {
            return Err(ExecutionError::MalformedModule);
        }
        let f = module.blocks[block].function;
        if f >= n_functions {
            return Err(ExecutionError::MalformedModule);
        }
        slot_of.push(slots[f]);
        let next_slot = slots[f] + 1;
        slots.set(f, next_slot);
        let next_len = block_len[block] + 1;
        block_len.set(block, next_len);
        i += 1;
    }
    Ok((block_len, slots, slot_of))
}

/// Where each block starts when the blocks stand one after the other.
/// `block_start` holds the starts of the blocks before `b`, which take
/// `total` places together.
pub open spec fn starts_from(
    block_len: Seq<usize>,
    limit: usize,
    b: int,
    total: usize,
    block_start: Seq<usize>,
) -> Result<Seq<usize>, ExecutionError>
    decreases block_len.len() - b,
{
    if b < 0 || b >= block_len.len() {
        Ok(block_start)
    } else if total > limit || block_len[b] > limit - total {
        Err(ExecutionError::MalformedModule)
    } else {
        starts_from(
            block_len,
            limit,
            b + 1,
            (total + block_len[b]) as usize,
            block_start.push(total),
        )
    }
}

fn starts(block_len: &Vec<usize>, limit: usize) -> (r: Result<Vec<usize>, ExecutionError>)
    ensures
        match r {
            Ok(block_start) => starts_from(block_len@, limit, 0, 0, Seq::empty()) == Ok::<
                Seq<usize>,
                ExecutionError,
            >(block_start@) && block_start@.len() == block_len@.len(),
            Err(e) => starts_from(block_len@, limit, 0, 0, Seq::empty()) == Err::<
                Seq<usize>,
                ExecutionError,
            >(e),
        },
{
    let mut block_start: Vec<usize> = Vec::new();
    let mut total: usize = 0;
    let mut b: usize = 0;
    while b < block_len.len()
        invariant
            b <= block_len@.len(),
            block_start@.len() == b,
            total <= limit,
            starts_from(block_len@, limit, b as int, total, block_start@) == starts_from(
                block_len@,
                limit,
                0,
                0,
                Seq::empty(),
            ),
        decreases block_len@.len() - b,
    {
        if block_len[b] > limit - total {
            return Err(ExecutionError::MalformedModule);
        }
        block_start.push(total);
        total = total + block_len[b];
        b += 1;
    }
    Ok(block_start)
}

/// The instructions in the order of their blocks. `filled` tells how many
/// instructions of each block the entries before `i` gave, and `order`
/// holds them.
pub open spec fn order_from(
    code: Seq<Entry>,
    block_start: Seq<usize>,
    i: int,
    filled: Seq<usize>,
    order: Seq<usize>,
) -> Result<Seq<usize>, ExecutionError>
    decreases code.len() - i,
{
    if i < 0 || i >= code.len() {
        Ok(order)
    } else {
        match code[i].block {
            None => Err(ExecutionError::MalformedModule),
            Some(block) => {
                if block >= block_start.len() || block >= filled.len() {
                    Err(ExecutionError::MalformedModule)
                } else {
                    let start = block_start[block as int];
                    let offset = filled[block as int];
                    if start >= order.len() || offset >= order.len() - start {
                        Err(ExecutionError::MalformedModule)
                    } else {
                        order_from(
                            code,
                            block_start,
                            i + 1,
                            filled.update(block as int, (offset + 1) as usize),
                            order.update(start + offset, i as usize),
                        )
                    }
                }
            },
        }
    }
}

fn order(module: &Module, block_start: &Vec<usize>) -> (r: Result<Vec<usize>, ExecutionError>)
    requires
        block_start@.len() == module.blocks@.len(),
    ensures
        match r {
            Ok(order) => order_from(
                module.code@,
                block_start@,
                0,
                zeros(module.blocks@.len()),
                zeros(module.code@.len()),
            ) == Ok::<Seq<usize>, ExecutionError>(order@) && order@.len() == module.code@.len(),
            Err(e) => order_from(
                module.code@,
                block_start@,
                0,
                zeros(module.blocks@.len()),
                zeros(module.code@.len()),
            ) == Err::<Seq<usize>, ExecutionError>(e),
        },
{
    let n_code = module.code.len();
    let n_blocks = module.blocks.len();
    let mut filled: Vec<usize> = vec_of(0usize, n_blocks);
    let mut order: Vec<usize> = vec_of(0usize, n_code);
    assert(filled@ =~= zeros(n_blocks as nat));
    assert(order@ =~= zeros(n_code as nat));
    let mut i: usize = 0;
    while i < n_code
        invariant
            i <= n_code,
            n_code == module.code@.len(),
            n_blocks == module.blocks@.len(),
            filled@.len() == n_blocks,
            block_start@.len() == n_blocks,
            order@.len() == n_code,
            order_from(module.code@, block_start@, i as int, filled@, order@) == order_from(
                module.code@,
                block_start@,
                0,
                zeros(n_blocks as nat),
                zeros(n_code as nat),
            ),
        decreases n_code - i,
    {
        let block = match module.code[i].block {
            Some(block) => block,
            None => {
                return Err(ExecutionError::MalformedModule);
            },
        };
        if block >= n_blocks {
            return Err(ExecutionError::MalformedModule);
        }
        let start = block_start[block];
        let offset = filled[block];
        if start >= n_code || offset >= n_code - start {
            return Err(ExecutionError::MalformedModule);
        }
        order.set(start + offset, i);
        filled.set(block, offset + 1);
        i += 1;
    }
    Ok(order)
}

/// The layout of a module: the entry block of each function, a register
/// for each instruction, and the instructions in the order of their blocks.
pub open spec fn layout_of(image: Image) -> Result<Layout, ExecutionError> {
    match entries_from(image.blocks, 0, no_entries(image.functions.len())) {
        Ok(entry) => match counts_from(
            image.code,
            image.blocks,
            0,
            no_counts(image.blocks.len(), image.functions.len()),
        ) {
            Ok(counts) => match starts_from(
                counts.block_len,
                image.code.len() as usize,
                0,
                0,
                Seq::empty(),
            ) {
                Ok(block_start) => match order_from(
                    image.code,
                    block_start,
                    0,
                    zeros(image.blocks.len()),
                    zeros(image.code.len()),
                ) {
                    Ok(order) => Ok(
                        Layout {
                            order,
                            block_start,
                            block_len: counts.block_len,
                            slot_of: counts.slot_of,
                            slots: counts.slots,
                            entry,
                        },
                    ),
                    Err(e) => Err(e),
                },
                Err(e) => Err(e),
            },
            Err(e) => Err(e),
        },
        Err(e) => Err(e),
    }
}

/// Lays the module out for execution.
fn link(module: &Module, context: &Context) -> (r: Result<Program, ExecutionError>)
    ensures
        match r {
            Ok(p) => layout_of(image_of(module, context)) == Ok::<Layout, ExecutionError>(p@),
            Err(e) => layout_of(image_of(module, context)) == Err::<Layout, ExecutionError>(e),
        },
{
    let entry = find_entries(module)?;
    let (block_len, slots, slot_of) = count(module)?;
    let block_start = starts(&block_len, module.code.len())?;
    let order = order(module, &block_start)?;
    Ok(Program { order, block_start, block_len, slot_of, slots, entry })
}

/// The state of the machine as specifications see it.
pub struct MachineState {
    pub headers: Seq<Header>,
    pub cells: Seq<RtValue>,
    pub frames: Seq<Frame>,
    pub registers: Seq<RtValue>,
    pub pending: Seq<usize>,
    pub next_id: u64,
    pub reported_live: u64,
}

impl View for Machine {
    type V = MachineState;

    open spec fn view(&self) -> MachineState {
        MachineState {
            headers: self.headers@,
            cells: self.cells@,
            frames: self.frames@,
            registers: self.registers@,
            pending: self.pending@,
            next_id: self.next_id,
            reported_live: self.reported_live,
        }
    }
}

/// The outcome of a step that changes the machine: the state after it and
/// what it yields, or the error that stopped it.
pub open spec fn outcome<T>(r: Result<T, ExecutionError>, after: MachineState) -> Result<
    (MachineState, T),
    ExecutionError,
> {
    match r {
        Ok(v) => Ok((after, v)),
        Err(e) => Err(e),
    }
}

/// The largest number of fields of an object.
pub const MAX_FIELDS: usize = 16777216;

impl MachineState {
    /// The header of a live object.
    pub open spec fn header(self, object: usize) -> Result<Header, ExecutionError> {
        if object >= self.headers.len() {
            Err(ExecutionError::MalformedModule)
        } else if !self.headers[object as int].live {
            Err(ExecutionError::MemoryError)
        } else {
            Ok(self.headers[object as int])
        }
    }

    /// The live object that a pointer points to.
    pub open spec fn object_of(self, value: RtValue) -> Result<usize, ExecutionError> {
        match value {
            RtValue::Pointer { object, place } => match self.header(object) {
                Ok(_) => Ok(object),
                Err(e) => Err(e),
            },
            _ => Err(ExecutionError::MalformedModule),
        }
    }

    /// A fresh object with `len` fields that hold `fill`. The reference
    /// count of an array starts at one; that of another object is set by the
    /// code that allocates it.
    pub open spec fn allocate(self, len: usize, fill: RtValue, array: bool) -> Result<
        (MachineState, usize),
        ExecutionError,
    > {
        if len > MAX_FIELDS {
            Err(ExecutionError::MemoryError)
        } else {
            Ok(
                (
                    MachineState {
                        cells: self.cells + Seq::new(len as nat, |i: int| fill),
                        headers: self.headers.push(
                            Header {
                                refcount: if array {
                                    1
                                } else {
                                    0
                                },
                                dtor: RtValue::Undefined,
                                id: 0,
                                live: true,
                                reported: false,
                                array,
                                base: self.cells.len() as usize,
                                len,
                            },
                        ),
                        ..self
                    },
                    self.headers.len() as usize,
                ),
            )
        }
    }

    /// The cell of field `index` of an object.
    pub open spec fn cell(self, h: Header, index: usize) -> Result<usize, ExecutionError> {
        if index >= h.len {
            Err(ExecutionError::MemoryError)
        } else if h.base >= self.cells.len() || index >= self.cells.len() - h.base {
            Err(ExecutionError::MalformedModule)
        } else {
            Ok((h.base + index) as usize)
        }
    }

    /// What is stored where `ptr` points to. The first three fields of the
    /// control block are the reference count, the destructor and the id.
    pub open spec fn load(self, ptr: RtValue) -> Result<RtValue, ExecutionError> {
        match ptr {
            RtValue::Pointer { object, place } => match self.header(object) {
                Ok(h) => match place {
                    Place::ControlField(field) => if field == 0 {
                        Ok(RtValue::Int(h.refcount))
                    } else if field == 1 {
                        Ok(h.dtor)
                    } else if field == 2 {
                        Ok(RtValue::Int(h.id))
                    } else {
                        Err(ExecutionError::MalformedModule)
                    },
                    Place::Field(index) => match self.cell(h, index) {
                        Ok(c) => Ok(self.cells[c as int]),
                        Err(e) => Err(e),
                    },
                    _ => Err(ExecutionError::MalformedModule),
                },
                Err(e) => Err(e),
            },
            _ => Err(ExecutionError::MalformedModule),
        }
    }

    /// The state with the header of an object replaced.
    pub open spec fn with_header(self, object: usize, h: Header) -> MachineState {
        MachineState { headers: self.headers.update(object as int, h), ..self }
    }

    /// The state with a cell replaced.
    pub open spec fn with_cell(self, cell: usize, value: RtValue) -> MachineState {
        MachineState { cells: self.cells.update(cell as int, value), ..self }
    }

    /// The state after `value` was stored where `ptr` points to.
    pub open spec fn store(self, ptr: RtValue, value: RtValue) -> Result<
        (MachineState, ()),
        ExecutionError,
    > {
        match ptr {
            RtValue::Pointer { object, place } => match self.header(object) {
                Ok(h) => match place {
                    Place::ControlField(field) => if field == 0 {
                        match value {
                            RtValue::Int(bits) => Ok(
                                (self.with_header(object, Header { refcount: bits, ..h }), ()),
                            ),
                            _ => Err(ExecutionError::MalformedModule),
                        }
                    } else if field == 1 {
                        Ok((self.with_header(object, Header { dtor: value, ..h }), ()))
                    } else if field == 2 {
                        match value {
                            RtValue::Int(bits) => Ok(
                                (self.with_header(object, Header { id: bits, ..h }), ()),
                            ),
                            _ => Err(ExecutionError::MalformedModule),
                        }
                    } else {
                        Err(ExecutionError::MalformedModule)
                    },
                    Place::Field(index) => match self.cell(h, index) {
                        Ok(c) => Ok((self.with_cell(c, value), ())),
                        Err(e) => Err(e),
                    },
                    _ => Err(ExecutionError::MalformedModule),
                },
                Err(e) => Err(e),
            },
            _ => Err(ExecutionError::MalformedModule),
        }
    }

    /// The state after the reference count of an object was raised by `by`.
    pub open spec fn retain(self, value: RtValue, by: u64) -> Result<
        (MachineState, ()),
        ExecutionError,
    > {
        match self.object_of(value) {
            Ok(object) => {
                let h = self.headers[object as int];
                if h.refcount > u64::MAX - by {
                    Err(ExecutionError::MemoryError)
                } else {
                    Ok(
                        (
                            self.with_header(
                                object,
                                Header { refcount: (h.refcount + by) as u64, ..h },
                            ),
                            (),
                        ),
                    )
                }
            },
            Err(e) => Err(e),
        }
    }

    /// The state after an object was put among those whose reference count
    /// is to be lowered.
    pub open spec fn release(self, value: RtValue) -> Result<(MachineState, ()), ExecutionError> {
        match self.object_of(value) {
            Ok(object) => Ok((MachineState { pending: self.pending.push(object), ..self }, ())),
            Err(e) => Err(e),
        }
    }

    /// The state after an object was freed.
    pub open spec fn free(self, object: usize) -> Result<(MachineState, ()), ExecutionError> {
        match self.header(object) {
            Ok(h) => {
                if h.reported && self.reported_live == 0 {
                    Err(ExecutionError::MemoryError)
                } else {
                    Ok(
                        (
                            MachineState {
                                reported_live: if h.reported {
                                    (self.reported_live - 1) as u64
                                } else {
                                    self.reported_live
                                },
                                ..self
                            }.with_header(object, Header { live: false, ..h }),
                            (),
                        ),
                    )
                }
            },
            Err(e) => Err(e),
        }
    }

    /// The state after an object was registered for leak tracking, and the
    /// id it was given.
    pub open spec fn report(self, object: usize) -> Result<(MachineState, u64), ExecutionError> {
        match self.header(object) {
            Ok(h) => {
                if self.next_id == u64::MAX || self.reported_live == u64::MAX {
                    Err(ExecutionError::MemoryError)
                } else {
                    Ok(
                        (
                            MachineState {
                                next_id: (self.next_id + 1) as u64,
                                reported_live: (self.reported_live + 1) as u64,
                                ..self
                            }.with_header(object, Header { reported: true, id: self.next_id, ..h }),
                            self.next_id,
                        ),
                    )
                }
            },
            Err(e) => Err(e),
        }
    }

    /// The integer that an integer object holds: its field 1.
    pub open spec fn int_of(self, value: RtValue) -> Result<u64, ExecutionError> {
        match self.object_of(value) {
            Ok(object) => {
                let h = self.headers[object as int];
                if h.array {
                    Err(ExecutionError::MalformedModule)
                } else {
                    match self.cell(h, 1) {
                        Ok(c) => match self.cells[c as int] {
                            RtValue::Int(bits) => Ok(bits),
                            _ => Err(ExecutionError::MalformedModule),
                        },
                        Err(e) => Err(e),
                    }
                }
            },
            Err(e) => Err(e),
        }
    }

    /// An array, its header and the cell of its element at `index`, an
    /// integer object.
    pub open spec fn element(self, array: RtValue, index: RtValue) -> Result<
        (usize, Header, usize),
        ExecutionError,
    > {
        match self.object_of(array) {
            Ok(object) => {
                let h = self.headers[object as int];
                if !h.array {
                    Err(ExecutionError::MalformedModule)
                } else {
                    match self.int_of(index) {
                        Ok(i) => {
                            if i >= h.len as u64 {
                                Err(ExecutionError::MemoryError)
                            } else {
                                match self.cell(h, i as usize) {
                                    Ok(c) => Ok((object, h, c)),
                                    Err(e) => Err(e),
                                }
                            }
                        },
                        Err(e) => Err(e),
                    }
                }
            },
            Err(e) => Err(e),
        }
    }

    /// The elements of the array `h` from `j` on are copied into the array
    /// `ch`. Each is retained but the one at cell `skip`.
    pub open spec fn copy_elements(self, h: Header, ch: Header, skip: usize, j: int) -> Result<
        (MachineState, ()),
        ExecutionError,
    >
        decreases h.len - j,
    {
        if j < 0 || j >= h.len {
            Ok((self, ()))
        } else {
            match self.cell(h, j as usize) {
                Ok(from) => match self.cell(ch, j as usize) {
                    Ok(to) => {
                        let element = self.cells[from as int];
                        let retained = if from != skip {
                            self.retain(element, 1)
                        } else {
                            Ok((self, ()))
                        };
                        match retained {
                            Ok((m, _)) => m.with_cell(to, element).copy_elements(h, ch, skip, j + 1),
                            Err(e) => Err(e),
                        }
                    },
                    Err(e) => Err(e),
                },
                Err(e) => Err(e),
            }
        }
    }

    /// A copy of the array `h`, which holds a reference to every element but
    /// the one at cell `skip` of the original.
    pub open spec fn copy_array(self, h: Header, skip: usize) -> Result<
        (MachineState, usize),
        ExecutionError,
    > {
        match self.allocate(h.len, RtValue::Undefined, true) {
            Ok((m, copy)) => match m.header(copy) {
                Ok(ch) => match m.copy_elements(h, ch, skip, 0) {
                    Ok((copied, _)) => Ok((copied, copy)),
                    Err(e) => Err(e),
                },
                Err(e) => Err(e),
            },
            Err(e) => Err(e),
        }
    }

    /// The state after `first` and then `second` were released.
    pub open spec fn release_two(self, first: RtValue, second: RtValue) -> Result<
        (MachineState, ()),
        ExecutionError,
    > {
        match self.release(first) {
            Ok((m, _)) => m.release(second),
            Err(e) => Err(e),
        }
    }

    /// A new array of as many elements as the integer object `size` says,
    /// each of them `element`. The array holds a reference for each.
    pub open spec fn array_new(self, size: RtValue, element: RtValue, sanitize: bool) -> Result<
        (MachineState, RtValue),
        ExecutionError,
    > {
        match self.int_of(size) {
            Ok(n) => {
                if n > MAX_FIELDS {
                    Err(ExecutionError::MemoryError)
                } else {
                    match self.object_of(element) {
                        Ok(_) => match self.allocate(n as usize, element, true) {
                            Ok((m1, array)) => {
                                let reported = if sanitize {
                                    m1.report(array)
                                } else {
                                    Ok((m1, 0))
                                };
                                match reported {
                                    Ok((m2, _)) => match m2.retain(element, n) {
                                        Ok((m3, _)) => match m3.release_two(size, element) {
                                            Ok((m4, _)) => Ok(
                                                (
                                                    m4,
                                                    RtValue::Pointer {
                                                        object: array,
                                                        place: Place::Whole,
                                                    },
                                                ),
                                            ),
                                            Err(e) => Err(e),
                                        },
                                        Err(e) => Err(e),
                                    },
                                    Err(e) => Err(e),
                                }
                            },
                            Err(e) => Err(e),
                        },
                        Err(e) => Err(e),
                    }
                }
            },
            Err(e) => Err(e),
        }
    }

    /// The element of an array at an index, retained.
    pub open spec fn array_read(self, array: RtValue, index: RtValue) -> Result<
        (MachineState, RtValue),
        ExecutionError,
    > {
        match self.element(array, index) {
            Ok((object, h, cell)) => {
                let element = self.cells[cell as int];
                match self.retain(element, 1) {
                    Ok((m1, _)) => match m1.release_two(array, index) {
                        Ok((m2, _)) => Ok((m2, element)),
                        Err(e) => Err(e),
                    },
                    Err(e) => Err(e),
                }
            },
            Err(e) => Err(e),
        }
    }

    /// An array with the element at an index replaced. An array with one
    /// reference is changed in place. An array with more is copied, unless
    /// the write is one that must be in place: then it is an error.
    pub open spec fn array_write(
        self,
        array: RtValue,
        index: RtValue,
        value: RtValue,
        in_place: bool,
        sanitize: bool,
    ) -> Result<(MachineState, RtValue), ExecutionError> {
        match self.element(array, index) {
            Ok((object, h, cell)) => match self.object_of(value) {
                Ok(_) => {
                    if h.refcount == 1 {
                        let old_element = self.cells[cell as int];
                        match self.with_cell(cell, value).release_two(old_element, index) {
                            Ok((m, _)) => Ok((m, array)),
                            Err(e) => Err(e),
                        }
                    } else if in_place {
                        Err(ExecutionError::MemoryError)
                    } else {
                        match self.copy_array(h, cell) {
                            Ok((m1, copy)) => match m1.header(copy) {
                                Ok(ch) => match m1.cell(ch, (cell - h.base) as usize) {
                                    Ok(to) => {
                                        let m2 = m1.with_cell(to, value);
                                        let reported = if sanitize {
                                            m2.report(copy)
                                        } else {
                                            Ok((m2, 0))
                                        };
                                        match reported {
                                            Ok((m3, _)) => match m3.release_two(array, index) {
                                                Ok((m4, _)) => Ok(
                                                    (
                                                        m4,
                                                        RtValue::Pointer {
                                                            object: copy,
                                                            place: Place::Whole,
                                                        },
                                                    ),
                                                ),
                                                Err(e) => Err(e),
                                            },
                                            Err(e) => Err(e),
                                        }
                                    },
                                    Err(e) => Err(e),
                                },
                                Err(e) => Err(e),
                            },
                            Err(e) => Err(e),
                        }
                    }
                },
                Err(e) => Err(e),
            },
            Err(e) => Err(e),
        }
    }

    /// What a function of the runtime support library does.
    pub open spec fn call_runtime(
        self,
        func: RuntimeFunctions,
        a: RtValue,
        b: RtValue,
        c: RtValue,
        sanitize: bool,
    ) -> Result<(MachineState, RtValue), ExecutionError> {
        match func {
            RuntimeFunctions::RetainObj => match self.retain(a, 1) {
                Ok((m, _)) => Ok((m, RtValue::Undefined)),
                Err(e) => Err(e),
            },
            RuntimeFunctions::ReleaseObj => match self.release(a) {
                Ok((m, _)) => Ok((m, RtValue::Undefined)),
                Err(e) => Err(e),
            },
            RuntimeFunctions::ReportMalloc => match self.object_of(a) {
                Ok(object) => match self.report(object) {
                    Ok((m, id)) => Ok((m, RtValue::Int(id))),
                    Err(e) => Err(e),
                },
                Err(e) => Err(e),
            },
            RuntimeFunctions::CheckLeak => {
                if self.reported_live != 0 || self.pending.len() != 0 {
                    Err(ExecutionError::Leak)
                } else {
                    Ok((self, RtValue::Undefined))
                }
            },
            RuntimeFunctions::Dtor(_) => Err(ExecutionError::MalformedModule),
            RuntimeFunctions::ArrayNew => self.array_new(a, b, sanitize),
            RuntimeFunctions::ArrayRead => self.array_read(a, b),
            RuntimeFunctions::ArrayWrite => self.array_write(a, b, c, false, sanitize),
            RuntimeFunctions::ArrayWriteUnique => self.array_write(a, b, c, true, sanitize),
        }
    }
}

impl Machine {
    /// The machine before a run.
    pub fn new() -> (m: Machine)
        ensures
            m@ == (MachineState {
                headers: Seq::empty(),
                cells: Seq::empty(),
                frames: Seq::empty(),
                registers: Seq::empty(),
                pending: Seq::empty(),
                next_id: 1,
                reported_live: 0,
            }),
    {
        Machine {
            headers: Vec::new(),
            cells: Vec::new(),
            frames: Vec::new(),
            registers: Vec::new(),
            pending: Vec::new(),
            next_id: 1,
            reported_live: 0,
        }
    }

    /// The header of a live object.
    fn header(&self, object: usize) -> (r: Result<Header, ExecutionError>)
        ensures
            r == self@.header(object),
    {
        if object >= self.headers.len() {
            return Err(ExecutionError::MalformedModule);
        }
        let h = self.headers[object];
        if !h.live {
            return Err(ExecutionError::MemoryError);
        }
        Ok(h)
    }

    /// The object that a pointer value points to.
    fn object_of(&self, value: RtValue) -> (r: Result<usize, ExecutionError>)
        ensures
            r == self@.object_of(value),
            r matches Ok(o) ==> o < self.headers@.len(),
    {
        match value {
            RtValue::Pointer { object, place } => {
                let h = self.header(object)?;
                Ok(object)
            },
            _ => Err(ExecutionError::MalformedModule),
        }
    }

    /// A fresh object with `len` fields, each holding `fill`.
    fn allocate(&mut self, len: usize, fill: RtValue, array: bool) -> (r: Result<
        usize,
        ExecutionError,
    >)
        ensures
            outcome(r, final(self)@) == old(self)@.allocate(len, fill, array),
    {
        if len > MAX_FIELDS {
            return Err(ExecutionError::MemoryError);
        }
        let base = self.cells.len();
        let mut i: usize = 0;
        assert(self.cells@ =~= old(self).cells@ + Seq::new(0, |k: int| fill));
        while i < len
            invariant
                i <= len,
                self.cells@ == old(self).cells@ + Seq::new(i as nat, |k: int| fill),
                self.headers == old(self).headers,
                self.frames == old(self).frames,
                self.registers == old(self).registers,
                self.pending == old(self).pending,
                self.next_id == old(self).next_id,
                self.reported_live == old(self).reported_live,
            decreases len - i,
        {
            self.cells.push(fill);
            assert(self.cells@ =~= old(self).cells@ + Seq::new((i + 1) as nat, |k: int| fill));
            i += 1;
        }
        let object = self.headers.len();
        self.headers.push(
            Header {
                refcount: if array {
                    1
                } else {
                    0
                },
                dtor: RtValue::Undefined,
                id: 0,
                live: true,
                reported: false,
                array,
                base,
                len,
            },
        );
        Ok(object)
    }

    /// The cell of field `index` of an object.
    fn cell(&self, h: Header, index: usize) -> (r: Result<usize, ExecutionError>)
        ensures
            r == self@.cell(h, index),
            r matches Ok(c) ==> c < self.cells@.len() && c == h.base + index && index < h.len,
    {
        if index >= h.len {
            return Err(ExecutionError::MemoryError);
        }
        if h.base >= self.cells.len() || index >= self.cells.len() - h.base {
            return Err(ExecutionError::MalformedModule);
        }
        Ok(h.base + index)
    }

    /// What is stored where `ptr` points to.
    fn load(&self, ptr: RtValue) -> (r: Result<RtValue, ExecutionError>)
        ensures
            r == self@.load(ptr),
    {
        match ptr {
            RtValue::Pointer { object, place } => {
                let h = self.header(object)?;
                match place {
                    Place::ControlField(field) => {
                        if field == 0 {
                            Ok(RtValue::Int(h.refcount))
                        } else if field == 1 {
                            Ok(h.dtor)
                        } else if field == 2 {
                            Ok(RtValue::Int(h.id))
                        } else {
                            Err(ExecutionError::MalformedModule)
                        }
                    },
                    Place::Field(index) => {
                        let c = self.cell(h, index)?;
                        Ok(self.cells[c])
                    },
                    _ => Err(ExecutionError::MalformedModule),
                }
            },
            _ => Err(ExecutionError::MalformedModule),
        }
    }

    /// Stores `value` where `ptr` points to.
    fn store(&mut self, ptr: RtValue, value: RtValue) -> (r: Result<(), ExecutionError>)
        ensures
            outcome(r, final(self)@) == old(self)@.store(ptr, value),
    {
        match ptr {
            RtValue::Pointer { object, place } => {
                let h = self.header(object)?;
                match place {
                    Place::ControlField(field) => {
                        if field == 0 {
                            match value {
                                RtValue::Int(bits) => {
                                    self.headers.set(object, Header { refcount: bits, ..h });
                                    Ok(())
                                },
                                _ => Err(ExecutionError::MalformedModule),
                            }
                        } else if field == 1 {
                            self.headers.set(object, Header { dtor: value, ..h });
                            Ok(())
                        } else if field == 2 {
                            match value {
                                RtValue::Int(bits) => {
                                    self.headers.set(object, Header { id: bits, ..h });
                                    Ok(())
                                },
                                _ => Err(ExecutionError::MalformedModule),
                            }
                        } else {
                            Err(ExecutionError::MalformedModule)
                        }
                    },
                    Place::Field(index) => {
                        let c = self.cell(h, index)?;
                        self.cells.set(c, value);
                        Ok(())
                    },
                    _ => Err(ExecutionError::MalformedModule),
                }
            },
            _ => Err(ExecutionError::MalformedModule),
        }
    }

    /// Raises the reference count of an object by `by`.
    fn retain(&mut self, value: RtValue, by: u64) -> (r: Result<(), ExecutionError>)
        ensures
            outcome(r, final(self)@) == old(self)@.retain(value, by),
    {
        let object = self.object_of(value)?;
        let h = self.headers[object];
        if h.refcount > u64::MAX - by {
            return Err(ExecutionError::MemoryError);
        }
        self.headers.set(object, Header { refcount: h.refcount + by, ..h });
        Ok(())
    }

    /// Notes that the reference count of an object is to be lowered.
    fn release(&mut self, value: RtValue) -> (r: Result<(), ExecutionError>)
        ensures
            outcome(r, final(self)@) == old(self)@.release(value),
    {
        let object = self.object_of(value)?;
        self.pending.push(object);
        Ok(())
    }

    /// Releases `first` and then `second`.
    fn release_two(&mut self, first: RtValue, second: RtValue) -> (r: Result<(), ExecutionError>)
        ensures
            outcome(r, final(self)@) == old(self)@.release_two(first, second),
    {
        self.release(first)?;
        self.release(second)
    }

    /// Frees an object.
    fn free(&mut self, object: usize) -> (r: Result<(), ExecutionError>)
        ensures
            outcome(r, final(self)@) == old(self)@.free(object),
    {
        let h = self.header(object)?;
        if h.reported {
            if self.reported_live == 0 {
                return Err(ExecutionError::MemoryError);
            }
            self.reported_live = self.reported_live - 1;
        }
        self.headers.set(object, Header { live: false, ..h });
        Ok(())
    }

    /// Registers an object for leak tracking and gives it an id.
    fn report(&mut self, object: usize) -> (r: Result<u64, ExecutionError>)
        ensures
            outcome(r, final(self)@) == old(self)@.report(object),
    {
        let h = self.header(object)?;
        if self.next_id == u64::MAX || self.reported_live == u64::MAX {
            return Err(ExecutionError::MemoryError);
        }
        let id = self.next_id;
        self.next_id = self.next_id + 1;
        self.reported_live = self.reported_live + 1;
        self.headers.set(object, Header { reported: true, id, ..h });
        Ok(id)
    }

    /// Registers an object if the sanitizer is on.
    fn report_if(&mut self, sanitize: bool, object: usize) -> (r: Result<u64, ExecutionError>)
        ensures
            outcome(r, final(self)@) == (if sanitize {
                old(self)@.report(object)
            } else {
                Ok((old(self)@, 0))
            }),
    {
        if sanitize {
            self.report(object)
        } else {
            Ok(0)
        }
    }

    /// The integer that an integer object holds.
    fn int_of(&self, value: RtValue) -> (r: Result<u64, ExecutionError>)
        ensures
            r == self@.int_of(value),
    {
        let object = self.object_of(value)?;
        let h = self.headers[object];
        if h.array {
            return Err(ExecutionError::MalformedModule);
        }
        let c = self.cell(h, 1)?;
        match self.cells[c] {
            RtValue::Int(bits) => Ok(bits),
            _ => Err(ExecutionError::MalformedModule),
        }
    }

    /// The header of an array and the cell of its element `index`.
    fn element(&self, array: RtValue, index: RtValue) -> (r: Result<
        (usize, Header, usize),
        ExecutionError,
    >)
        ensures
            r == self@.element(array, index),
            r matches Ok(t) ==> t.0 < self.headers@.len() && t.2 < self.cells@.len()
                && t.1.base <= t.2 && t.2 - t.1.base < t.1.len,
    {
        let object = self.object_of(array)?;
        let h = self.headers[object];
        if !h.array {
            return Err(ExecutionError::MalformedModule);
        }
        let i = self.int_of(index)?;
        if i >= h.len as u64 {
            return Err(ExecutionError::MemoryError);
        }
        let c = self.cell(h, i as usize)?;
        Ok((object, h, c))
    }

    /// A copy of an array. The copy holds a reference to every element but
    /// the one at cell `skip` of the original.
    fn copy_array(&mut self, h: Header, skip: usize) -> (r: Result<usize, ExecutionError>)
        ensures
            outcome(r, final(self)@) == old(self)@.copy_array(h, skip),
    {
        let copy = self.allocate(h.len, RtValue::Undefined, true)?;
        let ch = self.header(copy)?;
        let ghost start = self@;
        let mut j: usize = 0;
        while j < h.len
            invariant
                j <= h.len,
                self@.copy_elements(h, ch, skip, j as int) == start.copy_elements(h, ch, skip, 0),
                old(self)@.copy_array(h, skip) == (match start.copy_elements(h, ch, skip, 0) {
                    Ok((copied, _)) => Ok((copied, copy)),
                    Err(e) => Err(e),
                }),
            decreases h.len - j,
        {
            let ghost before = self@;
            let from = match self.cell(h, j) {
                Ok(from) => from,
                Err(e) => {
                    return Err(e);
                },
            };
            let to = match self.cell(ch, j) {
                Ok(to) => to,
                Err(e) => {
                    return Err(e);
                },
            };
            let element = self.cells[from];
            if from != skip {
                match self.retain(element, 1) {
                    Ok(()) => {},
                    Err(e) => {
                        return Err(e);
                    },
                }
            }
            self.cells.set(to, element);
            j += 1;
        }
        Ok(copy)
    }

    /// Runs a function of the runtime support library.
    fn call_runtime(&mut self, func: RuntimeFunctions, a: RtValue, b: RtValue, c: RtValue, sanitize: bool) -> (r:
        Result<RtValue, ExecutionError>)
        ensures
            outcome(r, final(self)@) == old(self)@.call_runtime(func, a, b, c, sanitize),
    {
        match func {
            RuntimeFunctions::RetainObj => {
                self.retain(a, 1)?;
                Ok(RtValue::Undefined)
            },
            RuntimeFunctions::ReleaseObj => {
                self.release(a)?;
                Ok(RtValue::Undefined)
            },
            RuntimeFunctions::ReportMalloc => {
                let object = self.object_of(a)?;
                let id = self.report(object)?;
                Ok(RtValue::Int(id))
            },
            RuntimeFunctions::CheckLeak => {
                if self.reported_live != 0 || self.pending.len() != 0 {
                    Err(ExecutionError::Leak)
                } else {
                    Ok(RtValue::Undefined)
                }
            },
            RuntimeFunctions::Dtor(_) => Err(ExecutionError::MalformedModule),
            RuntimeFunctions::ArrayNew => self.array_new(a, b, sanitize),
            RuntimeFunctions::ArrayRead => self.array_read(a, b),
            RuntimeFunctions::ArrayWrite => self.array_write(a, b, c, false, sanitize),
            RuntimeFunctions::ArrayWriteUnique => self.array_write(a, b, c, true, sanitize),
        }
    }

    /// Makes a new array.
    fn array_new(&mut self, size: RtValue, element: RtValue, sanitize: bool) -> (r: Result<
        RtValue,
        ExecutionError,
    >)
        ensures
            outcome(r, final(self)@) == old(self)@.array_new(size, element, sanitize),
    {
        let n = self.int_of(size)?;
        if n > MAX_FIELDS as u64 {
            return Err(ExecutionError::MemoryError);
        }
        self.object_of(element)?;
        let array = self.allocate(n as usize, element, true)?;
        self.report_if(sanitize, array)?;
        self.retain(element, n)?;
        self.release_two(size, element)?;
        Ok(RtValue::Pointer { object: array, place: Place::Whole })
    }

    /// Reads an element of an array.
    fn array_read(&mut self, array: RtValue, index: RtValue) -> (r: Result<
        RtValue,
        ExecutionError,
    >)
        ensures
            outcome(r, final(self)@) == old(self)@.array_read(array, index),
    {
        let (object, h, cell) = self.element(array, index)?;
        let element = self.cells[cell];
        self.retain(element, 1)?;
        self.release_two(array, index)?;
        Ok(element)
    }

    /// Replaces an element of an array.
    fn array_write(
        &mut self,
        array: RtValue,
        index: RtValue,
        value: RtValue,
        in_place: bool,
        sanitize: bool,
    ) -> (r: Result<RtValue, ExecutionError>)
        ensures
            outcome(r, final(self)@) == old(self)@.array_write(
                array,
                index,
                value,
                in_place,
                sanitize,
            ),
    {
        let (object, h, cell) = self.element(array, index)?;
        self.object_of(value)?;
        if h.refcount == 1 {
            let old_element = self.cells[cell];
            self.cells.set(cell, value);
            self.release_two(old_element, index)?;
            Ok(array)
        } else if in_place {
            Err(ExecutionError::MemoryError)
        } else {
            let copy = self.copy_array(h, cell)?;
            let ch = self.header(copy)?;
            let to = self.cell(ch, cell - h.base)?;
            self.cells.set(to, value);
            self.report_if(sanitize, copy)?;
            self.release_two(array, index)?;
            Ok(RtValue::Pointer { object: copy, place: Place::Whole })
        }
    }
}

/// The instruction at position `pc` of a block, with its position in the
/// module's record.
pub open spec fn instruction_at(image: Image, layout: Layout, block: usize, pc: usize) -> Result<
    (usize, Inst),
    ExecutionError,
> {
    if block >= layout.block_start.len() || block >= layout.block_len.len() {
        Err(ExecutionError::MalformedModule)
    } else if pc >= layout.block_len[block as int] {
        Err(ExecutionError::MalformedModule)
    } else {
        let start = layout.block_start[block as int];
        if start >= layout.order.len() || pc >= layout.order.len() - start {
            Err(ExecutionError::MalformedModule)
        } else {
            let index = layout.order[start + pc];
            if index >= image.code.len() {
                Err(ExecutionError::MalformedModule)
            } else {
                Ok((index, image.code[index as int].inst))
            }
        }
    }
}

fn fetch(module: &Module, context: &Context, program: &Program, block: usize, pc: usize) -> (r:
    Result<(usize, Inst), ExecutionError>)
    ensures
        r == instruction_at(image_of(module, context), program@, block, pc),
{
    if block >= program.block_start.len() || block >= program.block_len.len() {
        return Err(ExecutionError::MalformedModule);
    }
    let start = program.block_start[block];
    if pc >= program.block_len[block] {
        return Err(ExecutionError::MalformedModule);
    }
    if start >= program.order.len() || pc >= program.order.len() - start {
        return Err(ExecutionError::MalformedModule);
    }
    let index = program.order[start + pc];
    if index >= module.code.len() {
        return Err(ExecutionError::MalformedModule);
    }
    Ok((index, module.code[index].inst))
}

/// Whether the value of the instruction at `index` is what the instruction
/// returns.
pub open spec fn returns_value(inst: Result<(usize, Inst), ExecutionError>, index: usize) -> bool {
    inst matches Ok((_, Inst::Ret { result: Some(v) })) && v.kind == ValueKind::Inst(index)
}

/// Whether the call at `index`, the instruction before position `pc` of
/// `block`, is in tail position: its value is returned at once, directly or
/// through the phi of the block that follows.
pub open spec fn tail_position(image: Image, layout: Layout, block: usize, pc: usize, index: usize)
    -> bool {
    let next = instruction_at(image, layout, block, pc);
    if returns_value(next, index) {
        true
    } else {
        match next {
            Ok((_, Inst::Br { block: target })) => match instruction_at(image, layout, target, 0) {
                Ok((phi, Inst::Phi { ty, first, first_block, second, second_block })) => {
                    match phi_choice(Some(block), first, first_block, second, second_block) {
                        Some(v) => v.kind == ValueKind::Inst(index) && returns_value(
                            instruction_at(image, layout, target, 1),
                            phi,
                        ),
                        None => false,
                    }
                },
                _ => false,
            },
            _ => false,
        }
    }
}

fn is_return_of(inst: Result<(usize, Inst), ExecutionError>, index: usize) -> (b: bool)
    ensures
        b == returns_value(inst, index),
{
    match inst {
        Ok((_, Inst::Ret { result: Some(v) })) => v.kind == ValueKind::Inst(index),
        _ => false,
    }
}

fn in_tail_position(
    module: &Module,
    context: &Context,
    program: &Program,
    block: usize,
    pc: usize,
    index: usize,
) -> (r: bool)
    ensures
        r == tail_position(image_of(module, context), program@, block, pc, index),
{
    let next = fetch(module, context, program, block, pc);
    if is_return_of(next, index) {
        return true;
    }
    match next {
        Ok((_, Inst::Br { block: target })) => {
            match fetch(module, context, program, target, 0) {
                Ok((phi, Inst::Phi { ty, first, first_block, second, second_block })) => {
                    match choose_phi(Some(block), first, first_block, second, second_block) {
                        Some(v) => v.kind == ValueKind::Inst(index) && is_return_of(
                            fetch(module, context, program, target, 1),
                            phi,
                        ),
                        None => false,
                    }
                },
                _ => false,
            }
        },
        _ => false,
    }
}

/// The bits of an integer as a signed number.
pub open spec fn signed(bits: u64) -> i64 {
    if bits < 0x8000_0000_0000_0000 {
        bits as i64
    } else {
        (bits - 0x1_0000_0000_0000_0000) as i64
    }
}

fn to_signed(bits: u64) -> (r: i64)
    ensures
        r == signed(bits),
{
    if bits < 0x8000_0000_0000_0000 {
        bits as i64
    } else {
        ((bits - 0x8000_0000_0000_0000) as i64) + i64::MIN
    }
}

impl MachineState {
    /// The frame that is running.
    pub open spec fn top(self) -> Result<Frame, ExecutionError> {
        if self.frames.len() == 0 {
            Err(ExecutionError::MalformedModule)
        } else {
            Ok(self.frames[self.frames.len() - 1])
        }
    }

    /// The register of the instruction at `index` in a frame.
    pub open spec fn register(self, layout: Layout, frame: Frame, index: usize) -> Result<
        usize,
        ExecutionError,
    > {
        if index >= layout.slot_of.len() {
            Err(ExecutionError::MalformedModule)
        } else {
            let slot = layout.slot_of[index as int];
            if frame.base >= self.registers.len() || slot >= self.registers.len() - frame.base {
                Err(ExecutionError::MalformedModule)
            } else {
                Ok((frame.base + slot) as usize)
            }
        }
    }

    /// What a value of the code stands for in a frame.
    pub open spec fn value(self, layout: Layout, frame: Frame, v: Value) -> Result<
        RtValue,
        ExecutionError,
    > {
        match v.kind {
            ValueKind::Inst(index) => match self.register(layout, frame, index) {
                Ok(i) => if self.registers[i as int] is Undefined {
                    Err(ExecutionError::MalformedModule)
                } else {
                    Ok(self.registers[i as int])
                },
                Err(e) => Err(e),
            },
            ValueKind::Param { function, index } => {
                if function != frame.function {
                    Err(ExecutionError::MalformedModule)
                } else if index == 0 {
                    Ok(frame.arg0)
                } else if index == 1 {
                    Ok(frame.arg1)
                } else if index == 2 {
                    Ok(frame.arg2)
                } else {
                    Err(ExecutionError::MalformedModule)
                }
            },
            ValueKind::Function(function) => Ok(RtValue::Function(function)),
            ValueKind::ConstInt(bits) => Ok(RtValue::Int(truncated(bits, v.ty))),
        }
    }

    /// The state after the instruction at `index` yielded `value`.
    pub open spec fn define(self, layout: Layout, frame: Frame, index: usize, value: RtValue)
        -> Result<(MachineState, ()), ExecutionError> {
        match self.register(layout, frame, index) {
            Ok(i) => Ok(
                (MachineState { registers: self.registers.update(i as int, value), ..self }, ()),
            ),
            Err(e) => Err(e),
        }
    }

    /// The state after an activation of `function` started.
    pub open spec fn enter(
        self,
        layout: Layout,
        function: usize,
        arg0: RtValue,
        arg1: RtValue,
        arg2: RtValue,
        result: Option<usize>,
    ) -> Result<(MachineState, ()), ExecutionError> {
        if function >= layout.entry.len() || function >= layout.slots.len() {
            Err(ExecutionError::MalformedModule)
        } else {
            match layout.entry[function as int] {
                Some(block) => Ok(
                    (
                        MachineState {
                            registers: self.registers + Seq::new(
                                layout.slots[function as int] as nat,
                                |i: int| RtValue::Undefined,
                            ),
                            frames: self.frames.push(
                                Frame {
                                    function,
                                    block,
                                    previous: None,
                                    pc: 0,
                                    base: self.registers.len() as usize,
                                    arg0,
                                    arg1,
                                    arg2,
                                    result,
                                },
                            ),
                            ..self
                        },
                        (),
                    ),
                ),
                None => Err(ExecutionError::MalformedModule),
            }
        }
    }

    /// The state without the running frame and its registers.
    pub open spec fn drop_frame(self, frame: Frame) -> MachineState {
        MachineState {
            frames: self.frames.drop_last(),
            registers: self.registers.subrange(0, frame.base as int),
            ..self
        }
    }

    /// The state after the running activation ended with `value`, and the
    /// value if it was the last activation.
    pub open spec fn leave(self, value: RtValue) -> Result<
        (MachineState, Option<RtValue>),
        ExecutionError,
    > {
        match self.top() {
            Ok(frame) => {
                if frame.base > self.registers.len() {
                    Err(ExecutionError::MalformedModule)
                } else {
                    let m = self.drop_frame(frame);
                    if m.frames.len() == 0 {
                        Ok((m, Some(value)))
                    } else {
                        match frame.result {
                            Some(register) => {
                                if register >= m.registers.len() {
                                    Err(ExecutionError::MalformedModule)
                                } else {
                                    Ok(
                                        (
                                            MachineState {
                                                registers: m.registers.update(register as int, value),
                                                ..m
                                            },
                                            None,
                                        ),
                                    )
                                }
                            },
                            None => Ok((m, None)),
                        }
                    }
                }
            },
            Err(e) => Err(e),
        }
    }

    /// The elements of an array from `j` on are put among the objects whose
    /// reference count is to be lowered.
    pub open spec fn release_elements(self, h: Header, j: int) -> Result<
        (MachineState, ()),
        ExecutionError,
    >
        decreases h.len - j,
    {
        if j < 0 || j >= h.len {
            Ok((self, ()))
        } else {
            match self.cell(h, j as usize) {
                Ok(c) => match self.cells[c as int] {
                    RtValue::Pointer { object, place } => MachineState {
                        pending: self.pending.push(object),
                        ..self
                    }.release_elements(h, j + 1),
                    _ => Err(ExecutionError::MalformedModule),
                },
                Err(e) => Err(e),
            }
        }
    }

    /// The state after the reference count of the last of the waiting
    /// objects was lowered. An object whose count reaches zero is destroyed:
    /// an array releases its elements and is freed, another object has its
    /// destructor started, whose code frees it.
    pub open spec fn lower(self, layout: Layout) -> Result<(MachineState, ()), ExecutionError> {
        if self.pending.len() == 0 {
            Ok((self, ()))
        } else {
            let object = self.pending.last();
            let popped = MachineState { pending: self.pending.drop_last(), ..self };
            match popped.header(object) {
                Ok(h) => {
                    if h.refcount == 0 {
                        Err(ExecutionError::MemoryError)
                    } else {
                        let refcount = (h.refcount - 1) as u64;
                        let lowered = popped.with_header(object, Header { refcount, ..h });
                        if refcount > 0 {
                            Ok((lowered, ()))
                        } else if h.array {
                            match lowered.release_elements(h, 0) {
                                Ok((m, _)) => m.free(object),
                                Err(e) => Err(e),
                            }
                        } else {
                            match h.dtor {
                                RtValue::Function(dtor) => lowered.enter(
                                    layout,
                                    dtor,
                                    RtValue::Pointer { object, place: Place::Whole },
                                    RtValue::Undefined,
                                    RtValue::Undefined,
                                    None,
                                ),
                                _ => Err(ExecutionError::MalformedModule),
                            }
                        }
                    }
                },
                Err(e) => Err(e),
            }
        }
    }

    /// The state with the running frame replaced.
    pub open spec fn with_top(self, frame: Frame) -> MachineState {
        MachineState { frames: self.frames.update(self.frames.len() - 1, frame), ..self }
    }

    /// The state after the running frame moved to the start of `block`.
    pub open spec fn jump(self, block: usize) -> Result<(MachineState, ()), ExecutionError> {
        match self.top() {
            Ok(frame) => Ok(
                (self.with_top(Frame { block, previous: Some(frame.block), pc: 0, ..frame }), ()),
            ),
            Err(e) => Err(e),
        }
    }

    /// The values of the arguments of a call. An argument that the call does
    /// not have is undefined.
    pub open spec fn arguments(self, layout: Layout, frame: Frame, args: Args) -> Result<
        (RtValue, RtValue, RtValue),
        ExecutionError,
    > {
        match args {
            Args::Zero => Ok((RtValue::Undefined, RtValue::Undefined, RtValue::Undefined)),
            Args::One(a) => match self.value(layout, frame, a) {
                Ok(a) => Ok((a, RtValue::Undefined, RtValue::Undefined)),
                Err(e) => Err(e),
            },
            Args::Two(a, b) => match self.value(layout, frame, a) {
                Ok(a) => match self.value(layout, frame, b) {
                    Ok(b) => Ok((a, b, RtValue::Undefined)),
                    Err(e) => Err(e),
                },
                Err(e) => Err(e),
            },
            Args::Three(a, b, c) => match self.value(layout, frame, a) {
                Ok(a) => match self.value(layout, frame, b) {
                    Ok(b) => match self.value(layout, frame, c) {
                        Ok(c) => Ok((a, b, c)),
                        Err(e) => Err(e),
                    },
                    Err(e) => Err(e),
                },
                Err(e) => Err(e),
            },
        }
    }

    /// The state after a call. A function of the runtime runs at once. A
    /// function of the module starts an activation, which takes the place of
    /// the caller's if the call is a tail call in tail position.
    pub open spec fn call(
        self,
        image: Image,
        layout: Layout,
        frame: Frame,
        index: usize,
        callee: Value,
        args: Args,
        tail: bool,
    ) -> Result<(MachineState, ()), ExecutionError> {
        match self.value(layout, frame, callee) {
            Ok(RtValue::Function(function)) => {
                if function >= image.functions.len() {
                    Err(ExecutionError::MalformedModule)
                } else {
                    match self.arguments(layout, frame, args) {
                        Ok((a, b, c)) => match image.functions[function as int].kind {
                            FunctionKind::Runtime(func) => match self.call_runtime(
                                func,
                                a,
                                b,
                                c,
                                image.sanitize,
                            ) {
                                Ok((m, result)) => {
                                    if result is Undefined {
                                        Ok((m, ()))
                                    } else {
                                        m.define(layout, frame, index, result)
                                    }
                                },
                                Err(e) => Err(e),
                            },
                            _ => {
                                if frame.pc == usize::MAX {
                                    Err(ExecutionError::MalformedModule)
                                } else if tail && tail_position(
                                    image,
                                    layout,
                                    frame.block,
                                    (frame.pc + 1) as usize,
                                    index,
                                ) {
                                    if self.frames.len() == 0 || frame.base > self.registers.len() {
                                        Err(ExecutionError::MalformedModule)
                                    } else {
                                        self.drop_frame(frame).enter(
                                            layout,
                                            function,
                                            a,
                                            b,
                                            c,
                                            frame.result,
                                        )
                                    }
                                } else {
                                    match self.register(layout, frame, index) {
                                        Ok(register) => self.enter(
                                            layout,
                                            function,
                                            a,
                                            b,
                                            c,
                                            Some(register),
                                        ),
                                        Err(e) => Err(e),
                                    }
                                }
                            },
                        },
                        Err(e) => Err(e),
                    }
                }
            },
            Ok(_) => Err(ExecutionError::MalformedModule),
            Err(e) => Err(e),
        }
    }

    /// Whether field `field` of the struct that `ptr` points to is a control
    /// block, if the struct has such a field.
    pub open spec fn is_control(image: Image, ptr: Value, field: usize) -> Result<
        bool,
        ExecutionError,
    > {
        match ptr.ty.base {
            BaseType::Object(l) => {
                if l >= image.layouts.len() || field >= image.layouts[l as int].len() {
                    Err(ExecutionError::MalformedModule)
                } else {
                    Ok(image.layouts[l as int][field as int] is ControlBlock)
                }
            },
            _ => Ok(false),
        }
    }

    /// The state after an instruction that neither calls nor moves control.
    pub open spec fn compute(self, image: Image, layout: Layout, frame: Frame, index: usize, inst: Inst)
        -> Result<(MachineState, ()), ExecutionError> {
        match inst {
            Inst::PointerCast { value, to } => match self.value(layout, frame, value) {
                Ok(v) => self.define(layout, frame, index, v),
                Err(e) => Err(e),
            },
            Inst::StructGep { ptr, index: field } => match self.value(layout, frame, ptr) {
                Ok(RtValue::Pointer { object, place }) => match Self::is_control(
                    image,
                    ptr,
                    field,
                ) {
                    Ok(control) => match field_place(ptr.ty, place, field, control) {
                        Some(p) => self.define(
                            layout,
                            frame,
                            index,
                            RtValue::Pointer { object, place: p },
                        ),
                        None => Err(ExecutionError::MalformedModule),
                    },
                    Err(e) => Err(e),
                },
                Ok(_) => Err(ExecutionError::MalformedModule),
                Err(e) => Err(e),
            },
            Inst::Load { ptr } => match self.value(layout, frame, ptr) {
                Ok(p) => match self.load(p) {
                    Ok(v) => self.define(layout, frame, index, v),
                    Err(e) => Err(e),
                },
                Err(e) => Err(e),
            },
            Inst::Store { ptr, value } => match self.value(layout, frame, ptr) {
                Ok(p) => match self.value(layout, frame, value) {
                    Ok(v) => self.store(p, v),
                    Err(e) => Err(e),
                },
                Err(e) => Err(e),
            },
            Inst::Malloc { ty } => match ty.base {
                BaseType::Object(l) => {
                    if l >= image.layouts.len() || image.layouts[l as int].len() > usize::MAX {
                        Err(ExecutionError::MalformedModule)
                    } else {
                        match self.allocate(
                            image.layouts[l as int].len() as usize,
                            RtValue::Undefined,
                            false,
                        ) {
                            Ok((m, object)) => m.define(
                                layout,
                                frame,
                                index,
                                RtValue::Pointer { object, place: Place::Whole },
                            ),
                            Err(e) => Err(e),
                        }
                    }
                },
                _ => Err(ExecutionError::MalformedModule),
            },
            Inst::Free { ptr } => match self.value(layout, frame, ptr) {
                Ok(RtValue::Pointer { object, place }) => {
                    if place is Whole {
                        self.free(object)
                    } else {
                        Err(ExecutionError::MalformedModule)
                    }
                },
                Ok(_) => Err(ExecutionError::MalformedModule),
                Err(e) => Err(e),
            },
            Inst::IntCast { value, to } => match self.value(layout, frame, value) {
                Ok(RtValue::Int(bits)) => self.define(
                    layout,
                    frame,
                    index,
                    RtValue::Int(truncated(bits, to)),
                ),
                Ok(_) => Err(ExecutionError::MalformedModule),
                Err(e) => Err(e),
            },
            Inst::IntAdd { lhs, rhs } => match self.value(layout, frame, lhs) {
                Ok(l) => match self.value(layout, frame, rhs) {
                    Ok(r) => match (l, r) {
                        (RtValue::Int(a), RtValue::Int(b)) => self.define(
                            layout,
                            frame,
                            index,
                            RtValue::Int(vstd::wrapping::u64_specs::wrapping_add(a, b)),
                        ),
                        _ => Err(ExecutionError::MalformedModule),
                    },
                    Err(e) => Err(e),
                },
                Err(e) => Err(e),
            },
            Inst::IntEq { lhs, rhs } => match self.value(layout, frame, lhs) {
                Ok(l) => match self.value(layout, frame, rhs) {
                    Ok(r) => match (l, r) {
                        (RtValue::Int(a), RtValue::Int(b)) => self.define(
                            layout,
                            frame,
                            index,
                            RtValue::Int(
                                if a == b {
                                    1
                                } else {
                                    0
                                },
                            ),
                        ),
                        _ => Err(ExecutionError::MalformedModule),
                    },
                    Err(e) => Err(e),
                },
                Err(e) => Err(e),
            },
            Inst::GlobalString { string } => {
                if string >= image.strings {
                    Err(ExecutionError::MalformedModule)
                } else {
                    self.define(layout, frame, index, RtValue::Text(string))
                }
            },
            Inst::Phi { ty, first, first_block, second, second_block } => match phi_choice(
                frame.previous,
                first,
                first_block,
                second,
                second_block,
            ) {
                Some(v) => match self.value(layout, frame, v) {
                    Ok(value) => self.define(layout, frame, index, value),
                    Err(e) => Err(e),
                },
                None => Err(ExecutionError::MalformedModule),
            },
            _ => Err(ExecutionError::MalformedModule),
        }
    }

    /// The state after the next instruction of the running frame, and the
    /// value of the program if the instruction ended the last activation.
    pub open spec fn step(self, image: Image, layout: Layout) -> Result<
        (MachineState, Option<RtValue>),
        ExecutionError,
    > {
        match self.top() {
            Ok(frame) => match instruction_at(image, layout, frame.block, frame.pc) {
                Ok((index, inst)) => {
                    if frame.pc == usize::MAX {
                        Err(ExecutionError::MalformedModule)
                    } else {
                        let advanced = self.with_top(Frame { pc: (frame.pc + 1) as usize, ..frame });
                        match inst {
                            Inst::Call { callee, args, tail } => match advanced.call(
                                image,
                                layout,
                                frame,
                                index,
                                callee,
                                args,
                                tail,
                            ) {
                                Ok((m, _)) => Ok((m, None)),
                                Err(e) => Err(e),
                            },
                            Inst::Ret { result } => {
                                let value = match result {
                                    Some(v) => self.value(layout, frame, v),
                                    None => Ok(RtValue::Undefined),
                                };
                                match value {
                                    Ok(value) => self.leave(value),
                                    Err(e) => Err(e),
                                }
                            },
                            Inst::Br { block } => match self.jump(block) {
                                Ok((m, _)) => Ok((m, None)),
                                Err(e) => Err(e),
                            },
                            Inst::CondBr { cond, then_block, else_block } => match self.value(
                                layout,
                                frame,
                                cond,
                            ) {
                                Ok(RtValue::Int(bits)) => match self.jump(
                                    if bits & 1 == 1 {
                                        then_block
                                    } else {
                                        else_block
                                    },
                                ) {
                                    Ok((m, _)) => Ok((m, None)),
                                    Err(e) => Err(e),
                                },
                                Ok(_) => Err(ExecutionError::MalformedModule),
                                Err(e) => Err(e),
                            },
                            _ => match advanced.compute(image, layout, frame, index, inst) {
                                Ok((m, _)) => Ok((m, None)),
                                Err(e) => Err(e),
                            },
                        }
                    }
                },
                Err(e) => Err(e),
            },
            Err(e) => Err(e),
        }
    }

    /// The result of a run of at most `steps` steps. A step lowers a
    /// waiting reference count if there is one, and executes an instruction
    /// otherwise. The run ends when `main` returns; what it returns must be
    /// an integer.
    pub open spec fn run(self, image: Image, layout: Layout, steps: nat) -> Result<
        i64,
        ExecutionError,
    >
        decreases steps,
    {
        if steps == 0 {
            Err(ExecutionError::StepLimit)
        } else if self.pending.len() > 0 {
            match self.lower(layout) {
                Ok((m, _)) => m.run(image, layout, (steps - 1) as nat),
                Err(e) => Err(e),
            }
        } else {
            match self.step(image, layout) {
                Ok((m, Some(RtValue::Int(bits)))) => Ok(signed(bits)),
                Ok((m, Some(_))) => Err(ExecutionError::MalformedModule),
                Ok((m, None)) => m.run(image, layout, (steps - 1) as nat),
                Err(e) => Err(e),
            }
        }
    }
}

impl Machine {
    /// The frame that is running.
    fn top(&self) -> (r: Result<Frame, ExecutionError>)
        ensures
            r == self@.top(),
            r is Ok ==> self.frames@.len() > 0,
    {
        let n = self.frames.len();
        if n == 0 {
            return Err(ExecutionError::MalformedModule);
        }
        Ok(self.frames[n - 1])
    }

    /// The register of the instruction at `index` in the frame.
    fn register(&self, program: &Program, frame: Frame, index: usize) -> (r: Result<
        usize,
        ExecutionError,
    >)
        ensures
            r == self@.register(program@, frame, index),
            r matches Ok(i) ==> i < self.registers@.len(),
    {
        if index >= program.slot_of.len() {
            return Err(ExecutionError::MalformedModule);
        }
        let slot = program.slot_of[index];
        if frame.base >= self.registers.len() || slot >= self.registers.len() - frame.base {
            return Err(ExecutionError::MalformedModule);
        }
        Ok(frame.base + slot)
    }

    /// What a value of the code stands for in the frame.
    fn value(&self, program: &Program, frame: Frame, v: Value) -> (r: Result<
        RtValue,
        ExecutionError,
    >)
        ensures
            r == self@.value(program@, frame, v),
    {
        match v.kind {
            ValueKind::Inst(index) => {
                let i = self.register(program, frame, index)?;
                match self.registers[i] {
                    RtValue::Undefined => Err(ExecutionError::MalformedModule),
                    value => Ok(value),
                }
            },
            ValueKind::Param { function, index } => {
                if function != frame.function {
                    return Err(ExecutionError::MalformedModule);
                }
                if index == 0 {
                    Ok(frame.arg0)
                } else if index == 1 {
                    Ok(frame.arg1)
                } else if index == 2 {
                    Ok(frame.arg2)
                } else {
                    Err(ExecutionError::MalformedModule)
                }
            },
            ValueKind::Function(function) => Ok(RtValue::Function(function)),
            ValueKind::ConstInt(bits) => Ok(RtValue::Int(truncate(bits, v.ty))),
        }
    }

    /// Stores the result of the instruction at `index`.
    fn define(&mut self, program: &Program, frame: Frame, index: usize, value: RtValue) -> (r:
        Result<(), ExecutionError>)
        ensures
            outcome(r, final(self)@) == old(self)@.define(program@, frame, index, value),
    {
        let i = self.register(program, frame, index)?;
        self.registers.set(i, value);
        Ok(())
    }

    /// Starts an activation of `function`.
    fn enter(
        &mut self,
        program: &Program,
        function: usize,
        arg0: RtValue,
        arg1: RtValue,
        arg2: RtValue,
        result: Option<usize>,
    ) -> (r: Result<(), ExecutionError>)
        ensures
            outcome(r, final(self)@) == old(self)@.enter(
                program@,
                function,
                arg0,
                arg1,
                arg2,
                result,
            ),
    {
        if function >= program.entry.len() || function >= program.slots.len() {
            return Err(ExecutionError::MalformedModule);
        }
        let block = match program.entry[function] {
            Some(block) => block,
            None => {
                return Err(ExecutionError::MalformedModule);
            },
        };
        let base = self.registers.len();
        let slots = program.slots[function];
        let mut i: usize = 0;
        assert(self.registers@ =~= old(self).registers@ + Seq::new(0, |k: int| RtValue::Undefined));
        while i < slots
            invariant
                i <= slots,
                self.registers@ == old(self).registers@ + Seq::new(
                    i as nat,
                    |k: int| RtValue::Undefined,
                ),
                self.headers == old(self).headers,
                self.cells == old(self).cells,
                self.frames == old(self).frames,
                self.pending == old(self).pending,
                self.next_id == old(self).next_id,
                self.reported_live == old(self).reported_live,
            decreases slots - i,
        {
            self.registers.push(RtValue::Undefined);
            assert(self.registers@ =~= old(self).registers@ + Seq::new(
                (i + 1) as nat,
                |k: int| RtValue::Undefined,
            ));
            i += 1;
        }
        self.frames.push(
            Frame {
                function,
                block,
                previous: None,
                pc: 0,
                base,
                arg0,
                arg1,
                arg2,
                result,
            },
        );
        Ok(())
    }

    /// Takes the running frame and its registers away.
    fn drop_frame(&mut self, frame: Frame)
        requires
            old(self).frames@.len() > 0,
            frame.base <= old(self).registers@.len(),
        ensures
            final(self)@ == old(self)@.drop_frame(frame),
    {
        self.frames.pop();
        self.registers.truncate(frame.base);
    }

    /// Ends the running activation with `value`. Yields the value if it was
    /// the last activation.
    fn leave(&mut self, value: RtValue) -> (r: Result<Option<RtValue>, ExecutionError>)
        ensures
            outcome(r, final(self)@) == old(self)@.leave(value),
    {
        let frame = self.top()?;
        if frame.base > self.registers.len() {
            return Err(ExecutionError::MalformedModule);
        }
        self.drop_frame(frame);
        if self.frames.len() == 0 {
            return Ok(Some(value));
        }
        match frame.result {
            Some(register) => {
                if register >= self.registers.len() {
                    return Err(ExecutionError::MalformedModule);
                }
                self.registers.set(register, value);
            },
            None => {},
        }
        Ok(None)
    }

    /// Puts the elements of an array among the objects whose reference
    /// count is to be lowered.
    fn release_elements(&mut self, h: Header) -> (r: Result<(), ExecutionError>)
        ensures
            outcome(r, final(self)@) == old(self)@.release_elements(h, 0),
    {
        let mut j: usize = 0;
        while j < h.len
            invariant
                j <= h.len,
                self@.release_elements(h, j as int) == old(self)@.release_elements(h, 0),
            decreases h.len - j,
        {
            let c = match self.cell(h, j) {
                Ok(c) => c,
                Err(e) => {
                    return Err(e);
                },
            };
            match self.cells[c] {
                RtValue::Pointer { object: element, place } => {
                    self.pending.push(element);
                },
                _ => {
                    return Err(ExecutionError::MalformedModule);
                },
            }
            j += 1;
        }
        Ok(())
    }

    /// Lowers the reference count of one object that is waiting for it.
    fn lower(&mut self, program: &Program) -> (r: Result<(), ExecutionError>)
        ensures
            outcome(r, final(self)@) == old(self)@.lower(program@),
    {
        let object = match self.pending.pop() {
            Some(object) => object,
            None => {
                return Ok(());
            },
        };
        let h = self.header(object)?;
        if h.refcount == 0 {
            return Err(ExecutionError::MemoryError);
        }
        let refcount = h.refcount - 1;
        self.headers.set(object, Header { refcount, ..h });
        if refcount > 0 {
            return Ok(());
        }
        if h.array {
            self.release_elements(h)?;
            self.free(object)
        } else {
            match h.dtor {
                RtValue::Function(dtor) => self.enter(
                    program,
                    dtor,
                    RtValue::Pointer { object, place: Place::Whole },
                    RtValue::Undefined,
                    RtValue::Undefined,
                    None,
                ),
                _ => Err(ExecutionError::MalformedModule),
            }
        }
    }

    /// Replaces the running frame.
    fn set_top(&mut self, frame: Frame)
        requires
            old(self).frames@.len() > 0,
        ensures
            final(self)@ == old(self)@.with_top(frame),
    {
        let n = self.frames.len();
        self.frames.set(n - 1, frame);
    }

    /// Moves the running frame to the start of `block`.
    fn jump(&mut self, block: usize) -> (r: Result<(), ExecutionError>)
        ensures
            outcome(r, final(self)@) == old(self)@.jump(block),
    {
        let frame = self.top()?;
        self.set_top(Frame { block, previous: Some(frame.block), pc: 0, ..frame });
        Ok(())
    }

    /// The values of the arguments of a call.
    fn arguments(&self, program: &Program, frame: Frame, args: Args) -> (r: Result<
        (RtValue, RtValue, RtValue),
        ExecutionError,
    >)
        ensures
            r == self@.arguments(program@, frame, args),
    {
        match args {
            Args::Zero => Ok((RtValue::Undefined, RtValue::Undefined, RtValue::Undefined)),
            Args::One(a) => {
                let a = self.value(program, frame, a)?;
                Ok((a, RtValue::Undefined, RtValue::Undefined))
            },
            Args::Two(a, b) => {
                let a = self.value(program, frame, a)?;
                let b = self.value(program, frame, b)?;
                Ok((a, b, RtValue::Undefined))
            },
            Args::Three(a, b, c) => {
                let a = self.value(program, frame, a)?;
                let b = self.value(program, frame, b)?;
                let c = self.value(program, frame, c)?;
                Ok((a, b, c))
            },
        }
    }

    /// Executes a call.
    fn call(
        &mut self,
        module: &Module,
        context: &Context,
        program: &Program,
        frame: Frame,
        index: usize,
        callee: Value,
        args: Args,
        tail: bool,
    ) -> (r: Result<(), ExecutionError>)
        ensures
            outcome(r, final(self)@) == old(self)@.call(
                image_of(module, context),
                program@,
                frame,
                index,
                callee,
                args,
                tail,
            ),
    {
        let function = match self.value(program, frame, callee)? {
            RtValue::Function(function) => function,
            _ => {
                return Err(ExecutionError::MalformedModule);
            },
        };
        if function >= module.functions.len() {
            return Err(ExecutionError::MalformedModule);
        }
        let (a, b, c) = self.arguments(program, frame, args)?;
        match module.functions[function].kind {
            FunctionKind::Runtime(func) => {
                let result = self.call_runtime(func, a, b, c, context.sanitize_memory)?;
                match result {
                    RtValue::Undefined => Ok(()),
                    value => self.define(program, frame, index, value),
                }
            },
            _ => {
                if frame.pc == usize::MAX {
                    return Err(ExecutionError::MalformedModule);
                }
                if tail && in_tail_position(
                    module,
                    context,
                    program,
                    frame.block,
                    frame.pc + 1,
                    index,
                ) {
                    // The callee takes the place of the caller.
                    if self.frames.len() == 0 || frame.base > self.registers.len() {
                        return Err(ExecutionError::MalformedModule);
                    }
                    self.drop_frame(frame);
                    self.enter(program, function, a, b, c, frame.result)
                } else {
                    let register = self.register(program, frame, index)?;
                    self.enter(program, function, a, b, c, Some(register))
                }
            },
        }
    }

    /// Whether a field of a struct is a control block.
    fn is_control(context: &Context, ptr: Value, field: usize) -> (r: Result<bool, ExecutionError>)
        ensures
            r == MachineState::is_control(
                Image {
                    code: Seq::empty(),
                    functions: Seq::empty(),
                    blocks: Seq::empty(),
                    strings: 0,
                    layouts: crate::context::layouts_of(context.layouts@),
                    sanitize: context.sanitize_memory,
                },
                ptr,
                field,
            ),
    {
        match ptr.ty.base {
            BaseType::Object(l) => {
                if l >= context.layouts.len() || field >= context.layouts[l].field_types.len() {
                    return Err(ExecutionError::MalformedModule);
                }
                match context.layouts[l].field_types[field] {
                    ObjectFieldType::ControlBlock => Ok(true),
                    _ => Ok(false),
                }
            },
            _ => Ok(false),
        }
    }

    /// Executes an instruction that neither calls nor moves control.
    fn compute(
        &mut self,
        module: &Module,
        context: &Context,
        program: &Program,
        frame: Frame,
        index: usize,
        inst: Inst,
    ) -> (r: Result<(), ExecutionError>)
        ensures
            outcome(r, final(self)@) == old(self)@.compute(
                image_of(module, context),
                program@,
                frame,
                index,
                inst,
            ),
    {
        match inst {
            Inst::PointerCast { value, to } => {
                let v = self.value(program, frame, value)?;
                self.define(program, frame, index, v)
            },
            Inst::StructGep { ptr, index: field } => {
                match self.value(program, frame, ptr)? {
                    RtValue::Pointer { object, place } => {
                        let control = Self::is_control(context, ptr, field)?;
                        match place_of_field(ptr.ty, place, field, control) {
                            Some(p) => self.define(
                                program,
                                frame,
                                index,
                                RtValue::Pointer { object, place: p },
                            ),
                            None => Err(ExecutionError::MalformedModule),
                        }
                    },
                    _ => Err(ExecutionError::MalformedModule),
                }
            },
            Inst::Load { ptr } => {
                let p = self.value(program, frame, ptr)?;
                let v = self.load(p)?;
                self.define(program, frame, index, v)
            },
            Inst::Store { ptr, value } => {
                let p = self.value(program, frame, ptr)?;
                let v = self.value(program, frame, value)?;
                self.store(p, v)
            },
            Inst::Malloc { ty } => {
                match ty.base {
                    BaseType::Object(l) => {
                        if l >= context.layouts.len() {
                            return Err(ExecutionError::MalformedModule);
                        }
                        let len = context.layouts[l].field_types.len();
                        let object = self.allocate(len, RtValue::Undefined, false)?;
                        self.define(
                            program,
                            frame,
                            index,
                            RtValue::Pointer { object, place: Place::Whole },
                        )
                    },
                    _ => Err(ExecutionError::MalformedModule),
                }
            },
            Inst::Free { ptr } => {
                match self.value(program, frame, ptr)? {
                    RtValue::Pointer { object, place: Place::Whole } => self.free(object),
                    _ => Err(ExecutionError::MalformedModule),
                }
            },
            Inst::IntCast { value, to } => {
                match self.value(program, frame, value)? {
                    RtValue::Int(bits) => self.define(
                        program,
                        frame,
                        index,
                        RtValue::Int(truncate(bits, to)),
                    ),
                    _ => Err(ExecutionError::MalformedModule),
                }
            },
            Inst::IntAdd { lhs, rhs } => {
                let l = self.value(program, frame, lhs)?;
                let r = self.value(program, frame, rhs)?;
                match (l, r) {
                    (RtValue::Int(a), RtValue::Int(b)) => self.define(
                        program,
                        frame,
                        index,
                        RtValue::Int(a.wrapping_add(b)),
                    ),
                    _ => Err(ExecutionError::MalformedModule),
                }
            },
            Inst::IntEq { lhs, rhs } => {
                let l = self.value(program, frame, lhs)?;
                let r = self.value(program, frame, rhs)?;
                match (l, r) {
                    (RtValue::Int(a), RtValue::Int(b)) => self.define(
                        program,
                        frame,
                        index,
                        RtValue::Int(if a == b { 1 } else { 0 }),
                    ),
                    _ => Err(ExecutionError::MalformedModule),
                }
            },
            Inst::GlobalString { string } => {
                if string >= module.strings.len() {
                    return Err(ExecutionError::MalformedModule);
                }
                self.define(program, frame, index, RtValue::Text(string))
            },
            Inst::Phi { ty, first, first_block, second, second_block } => {
                match choose_phi(frame.previous, first, first_block, second, second_block) {
                    Some(v) => {
                        let value = self.value(program, frame, v)?;
                        self.define(program, frame, index, value)
                    },
                    None => Err(ExecutionError::MalformedModule),
                }
            },
            _ => Err(ExecutionError::MalformedModule),
        }
    }

    /// Executes the next instruction of the running frame. Yields the value
    /// of the program if the instruction ended the last activation.
    fn step(&mut self, module: &Module, context: &Context, program: &Program) -> (r: Result<
        Option<RtValue>,
        ExecutionError,
    >)
        ensures
            outcome(r, final(self)@) == old(self)@.step(image_of(module, context), program@),
    {
        let frame = self.top()?;
        let (index, inst) = fetch(module, context, program, frame.block, frame.pc)?;
        if frame.pc == usize::MAX {
            return Err(ExecutionError::MalformedModule);
        }
        match inst {
            Inst::Call { callee, args, tail } => {
                self.set_top(Frame { pc: frame.pc + 1, ..frame });
                self.call(module, context, program, frame, index, callee, args, tail)?;
                Ok(None)
            },
            Inst::Ret { result } => {
                let value = match result {
                    Some(v) => self.value(program, frame, v)?,
                    None => RtValue::Undefined,
                };
                self.leave(value)
            },
            Inst::Br { block } => {
                self.jump(block)?;
                Ok(None)
            },
            Inst::CondBr { cond, then_block, else_block } => {
                match self.value(program, frame, cond)? {
                    RtValue::Int(bits) => {
                        self.jump(
                            if bits & 1 == 1 {
                                then_block
                            } else {
                                else_block
                            },
                        )?;
                        Ok(None)
                    },
                    _ => Err(ExecutionError::MalformedModule),
                }
            },
            _ => {
                self.set_top(Frame { pc: frame.pc + 1, ..frame });
                self.compute(module, context, program, frame, index, inst)?;
                Ok(None)
            },
        }
    }
}

/// `f` is the first function that is an entry point.
pub open spec fn is_first_main(functions: Seq<Function>, f: int) -> bool {
    &&& 0 <= f < functions.len()
    &&& functions[f].kind is Main
    &&& forall|k: int| 0 <= k < f ==> !((#[trigger] functions[k]).kind is Main)
}

/// The entry point of a module: the first function that is one, if any.
pub open spec fn main_of(functions: Seq<Function>) -> Option<usize> {
    if exists|f: int| is_first_main(functions, f) {
        Some((choose|f: int| is_first_main(functions, f)) as usize)
    } else {
        None
    }
}

/// The function of the module that is its entry point, if it has one.
pub fn find_main(module: &Module) -> (r: Option<usize>)
    ensures
        r == main_of(module.functions@),
{
    let mut f: usize = 0;
    while f < module.functions.len()
        invariant
            f <= module.functions@.len(),
            forall|k: int| 0 <= k < f ==> !((#[trigger] module.functions@[k]).kind is Main),
        decreases module.functions@.len() - f,
    {
        match module.functions[f].kind {
            FunctionKind::Main => {
                proof {
                    assert(is_first_main(module.functions@, f as int));
                    let c = choose|c: int| is_first_main(module.functions@, c);
                    assert(is_first_main(module.functions@, c));
                    if c < f {
                        assert(!(module.functions@[c].kind is Main));
                    }
                    if f < c {
                        assert(!(module.functions@[f as int].kind is Main));
                    }
                }
                return Some(f);
            },
            _ => {},
        }
        f += 1;
    }
    proof {
        if exists|c: int| is_first_main(module.functions@, c) {
            let c = choose|c: int| is_first_main(module.functions@, c);
            assert(!(module.functions@[c].kind is Main));
        }
    }
    None
}

/// The machine before a run.
pub open spec fn initial_machine() -> MachineState {
    MachineState {
        headers: Seq::empty(),
        cells: Seq::empty(),
        frames: Seq::empty(),
        registers: Seq::empty(),
        pending: Seq::empty(),
        next_id: 1,
        reported_live: 0,
    }
}

/// The result of running the `main` function of a module for at most
/// `step_limit` steps.
pub open spec fn run_of(image: Image, step_limit: nat) -> Result<i64, ExecutionError> {
    match layout_of(image) {
        Ok(layout) => match main_of(image.functions) {
            Some(main) => match initial_machine().enter(
                layout,
                main,
                RtValue::Undefined,
                RtValue::Undefined,
                RtValue::Undefined,
                None,
            ) {
                Ok((m, _)) => m.run(image, layout, step_limit),
                Err(e) => Err(e),
            },
            None => Err(ExecutionError::MalformedModule),
        },
        Err(e) => Err(e),
    }
}

/// Runs the `main` function of a module and yields the integer it returns.
/// The run ends with `StepLimit` after `step_limit` steps.
pub fn execute(module: &Module, context: &Context, step_limit: u64) -> (r: Result<
    i64,
    ExecutionError,
>)
    ensures
        r == run_of(image_of(module, context), step_limit as nat),
{
    let program = link(module, context)?;
    let main = match find_main(module) {
        Some(main) => main,
        None => {
            return Err(ExecutionError::MalformedModule);
        },
    };
    let mut machine = Machine::new();
    machine.enter(
        &program,
        main,
        RtValue::Undefined,
        RtValue::Undefined,
        RtValue::Undefined,
        None,
    )?;
    let ghost image = image_of(module, context);
    let ghost start = machine@;
    let mut steps: u64 = 0;
    while steps < step_limit
        invariant
            steps <= step_limit,
            image == image_of(module, context),
            machine@.run(image, program@, (step_limit - steps) as nat) == start.run(
                image,
                program@,
                step_limit as nat,
            ),
            run_of(image, step_limit as nat) == start.run(image, program@, step_limit as nat),
        decreases step_limit - steps,
    {
        if machine.pending.len() > 0 {
            match machine.lower(&program) {
                Ok(()) => {},
                Err(e) => {
                    return Err(e);
                },
            }
        } else {
            match machine.step(module, context, &program) {
                Ok(Some(RtValue::Int(bits))) => {
                    return Ok(to_signed(bits));
                },
                Ok(Some(_)) => {
                    return Err(ExecutionError::MalformedModule);
                },
                Ok(None) => {},
                Err(e) => {
                    return Err(e);
                },
            }
        }
        steps += 1;
    }
    Err(ExecutionError::StepLimit)
}

} // verus!
