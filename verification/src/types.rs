//! Object layouts and the types of the emitted code.

use crate::ir::{BaseType, FunctionType, IrType, ReturnType};
use vstd::prelude::*;

verus! {

/// The kind of one field of a heap object.
#[derive(Clone, Copy, PartialEq, Eq, Structural, Debug, Hash)]
pub enum ObjectFieldType {
    ControlBlock,
    LambdaFunction,
    SubObject,
    Int,
    Bool,
}

impl ObjectFieldType {
    /// The type of a field of this kind.
    pub open spec fn basic_type(self) -> IrType {
        match self {
            ObjectFieldType::ControlBlock => IrType { base: BaseType::ControlBlock, depth: 0 },
            ObjectFieldType::LambdaFunction => IrType {
                base: BaseType::Function(FunctionType { ret: ReturnType::ObjectPtr, params: 2 }),
                depth: 1,
            },
            ObjectFieldType::SubObject => IrType { base: BaseType::Int8, depth: 1 },
            ObjectFieldType::Int => IrType { base: BaseType::Int64, depth: 0 },
            ObjectFieldType::Bool => IrType { base: BaseType::Int8, depth: 0 },
        }
    }

    /// The type of a field of this kind.
    pub fn to_basic_type(&self) -> (ty: IrType)
        ensures
            ty == self.basic_type(),
    {
        match self {
            ObjectFieldType::ControlBlock => control_block_type(),
            ObjectFieldType::LambdaFunction => ptr_to_lambda_function_type(),
            ObjectFieldType::SubObject => ptr_to_object_type(),
            ObjectFieldType::Int => IrType { base: BaseType::Int64, depth: 0 },
            ObjectFieldType::Bool => IrType { base: BaseType::Int8, depth: 0 },
        }
    }
}

/// The type of the reference counter: 64 bits.
pub fn refcnt_type() -> (ty: IrType)
    ensures
        ty == (IrType { base: BaseType::Int64, depth: 0 }),
{
    IrType { base: BaseType::Int64, depth: 0 }
}

/// A pointer to a reference counter.
pub fn ptr_to_refcnt_type() -> (ty: IrType)
    ensures
        ty == (IrType { base: BaseType::Int64, depth: 1 }),
{
    ptr_type(refcnt_type())
}

/// The type of an object id: 64 bits.
pub fn obj_id_type() -> (ty: IrType)
    ensures
        ty == (IrType { base: BaseType::Int64, depth: 0 }),
{
    IrType { base: BaseType::Int64, depth: 0 }
}

/// The generic object pointer: a pointer to a byte.
pub fn ptr_to_object_type() -> (ty: IrType)
    ensures
        ty == crate::ir::object_pointer(),
{
    ptr_type(IrType { base: BaseType::Int8, depth: 0 })
}

/// A destructor takes the object and returns nothing.
pub fn dtor_type() -> (ty: FunctionType)
    ensures
        ty == (FunctionType { ret: ReturnType::Void, params: 1 }),
{
    FunctionType { ret: ReturnType::Void, params: 1 }
}

/// A pointer to a destructor.
pub fn ptr_to_dtor_type() -> (ty: IrType)
    ensures
        ty == (IrType { base: BaseType::Function(FunctionType { ret: ReturnType::Void, params: 1 }), depth: 1 }),
{
    ptr_type(IrType { base: BaseType::Function(dtor_type()), depth: 0 })
}

/// The struct of the control block.
pub fn control_block_type() -> (ty: IrType)
    ensures
        ty == (IrType { base: BaseType::ControlBlock, depth: 0 }),
{
    IrType { base: BaseType::ControlBlock, depth: 0 }
}

/// The fields of the control block: the reference counter, the pointer to
/// the destructor and, with the sanitizer, the object id.
pub open spec fn control_block_layout(sanitize_memory: bool) -> Seq<IrType> {
    let fields = seq![
        IrType { base: BaseType::Int64, depth: 0 },
        IrType { base: BaseType::Function(FunctionType { ret: ReturnType::Void, params: 1 }), depth: 1 },
    ];
    if sanitize_memory {
        fields.push(IrType { base: BaseType::Int64, depth: 0 })
    } else {
        fields
    }
}

/// The types of the fields of the control block.
pub fn control_block_fields(sanitize_memory: bool) -> (fields: Vec<IrType>)
    ensures
        fields@ == control_block_layout(sanitize_memory),
{
    let mut fields: Vec<IrType> = Vec::new();
    fields.push(refcnt_type());
    fields.push(ptr_to_dtor_type());
    if sanitize_memory {
        fields.push(obj_id_type());
    }
    assert(fields@ =~= control_block_layout(sanitize_memory));
    fields
}

/// A pointer to a control block.
pub fn ptr_to_control_block_type() -> (ty: IrType)
    ensures
        ty == (IrType { base: BaseType::ControlBlock, depth: 1 }),
{
    ptr_type(control_block_type())
}

/// The code of a lambda takes the argument and the closure itself, and
/// returns an object.
pub fn lambda_function_type() -> (ty: FunctionType)
    ensures
        ty == (FunctionType { ret: ReturnType::ObjectPtr, params: 2 }),
{
    FunctionType { ret: ReturnType::ObjectPtr, params: 2 }
}

/// A pointer to the code of a lambda.
pub fn ptr_to_lambda_function_type() -> (ty: IrType)
    ensures
        ty == ObjectFieldType::LambdaFunction.basic_type(),
{
    ptr_type(IrType { base: BaseType::Function(lambda_function_type()), depth: 0 })
}

/// The type of a pointer to a struct, an integer or a function.
pub fn ptr_type(ty: IrType) -> (ptr: IrType)
    requires
        ty.depth == 0,
    ensures
        ptr == ty.pointer_to(),
{
    IrType { base: ty.base, depth: 1 }
}

/// The layout of a heap object: the kinds of its fields, in order.
#[derive(Debug, Hash, PartialEq, Eq, Clone)]
pub struct ObjectType {
    pub field_types: Vec<ObjectFieldType>,
}

impl View for ObjectType {
    type V = Seq<ObjectFieldType>;

    open spec fn view(&self) -> Seq<ObjectFieldType> {
        self.field_types@
    }
}

/// The layout of an integer object.
pub open spec fn int_layout() -> Seq<ObjectFieldType> {
    seq![ObjectFieldType::ControlBlock, ObjectFieldType::Int]
}

/// The layout of a boolean object.
pub open spec fn bool_layout() -> Seq<ObjectFieldType> {
    seq![ObjectFieldType::ControlBlock, ObjectFieldType::Bool]
}

/// The layout of a closure that captures `captures` objects.
pub open spec fn closure_layout(captures: nat) -> Seq<ObjectFieldType> {
    seq![ObjectFieldType::ControlBlock, ObjectFieldType::LambdaFunction] + Seq::new(
        captures,
        |i: int| ObjectFieldType::SubObject,
    )
}

impl ObjectType {
    /// A control block followed by the given fields.
    pub fn shared_obj_type(field_types: Vec<ObjectFieldType>) -> (r: ObjectType)
        ensures
            r@ == seq![ObjectFieldType::ControlBlock] + field_types@,
    {
        let mut field_types = field_types;
        let mut fields: Vec<ObjectFieldType> = Vec::new();
        fields.push(ObjectFieldType::ControlBlock);
        fields.append(&mut field_types);
        ObjectType { field_types: fields }
    }

    /// The layout of an integer object: the control block and the integer.
    pub fn int_obj_type() -> (r: ObjectType)
        ensures
            r@ == int_layout(),
    {
        let mut fields: Vec<ObjectFieldType> = Vec::new();
        fields.push(ObjectFieldType::Int);
        let r = Self::shared_obj_type(fields);
        assert(r@ =~= int_layout());
        r
    }

    /// The layout of a boolean object: the control block and the boolean, a byte.
    pub fn bool_obj_type() -> (r: ObjectType)
        ensures
            r@ == bool_layout(),
    {
        let mut fields: Vec<ObjectFieldType> = Vec::new();
        fields.push(ObjectFieldType::Bool);
        let r = Self::shared_obj_type(fields);
        assert(r@ =~= bool_layout());
        r
    }

    /// The start of every closure: the control block and the pointer to the
    /// code. The captured objects follow.
    pub fn lam_obj_type() -> (r: ObjectType)
        ensures
            r@ == closure_layout(0),
    {
        let mut field_types: Vec<ObjectFieldType> = Vec::new();
        field_types.push(ObjectFieldType::ControlBlock);
        field_types.push(ObjectFieldType::LambdaFunction);
        let r = ObjectType { field_types };
        assert(r@ =~= closure_layout(0));
        r
    }

    /// A copy of the layout.
    pub fn clone(&self) -> (r: ObjectType)
        ensures
            r@ == self@,
    {
        let mut field_types: Vec<ObjectFieldType> = Vec::new();
        let mut i: usize = 0;
        while i < self.field_types.len()
            invariant
                i <= self.field_types@.len(),
                field_types@ == self.field_types@.take(i as int),
            decreases self.field_types@.len() - i,
        {
            field_types.push(self.field_types[i]);
            assert(self.field_types@.take(i as int + 1) =~= self.field_types@.take(i as int).push(
                self.field_types@[i as int],
            ));
            i += 1;
        }
        assert(self.field_types@.take(i as int) =~= self.field_types@);
        ObjectType { field_types }
    }

    /// Whether two layouts have the same fields in the same order.
    pub fn same(&self, other: &ObjectType) -> (b: bool)
        ensures
            b == (self@ == other@),
    {
        if self.field_types.len() != other.field_types.len() {
            return false;
        }
        let mut i: usize = 0;
        while i < self.field_types.len()
            invariant
                i <= self.field_types@.len(),
                self.field_types@.len() == other.field_types@.len(),
                forall|k: int| 0 <= k < i ==> self@[k] == other@[k],
            decreases self.field_types@.len() - i,
        {
            if self.field_types[i] != other.field_types[i] {
                return false;
            }
            i += 1;
        }
        assert(self@ =~= other@);
        true
    }
}

} // verus!
