//! The messages of a model file, as plain values.
//!
//! Each type holds the fields of one message of the container format that the
//! loader reads, under the names that the format gives them. Floats are held
//! as their bit patterns.

use vstd::prelude::*;
use crate::model::element::F32;

verus! {

/// The operator set that a model was written for, within one domain.
#[derive(Debug, Clone, Default)]
pub struct OperatorSetIdProto {
    pub domain: String,
    pub version: i64,
}

/// A key with its value.
#[derive(Debug, Clone, Default)]
pub struct StringStringEntryProto {
    pub key: String,
    pub value: String,
}

/// Where the data of a tensor is kept.
#[derive(Debug, Clone, Copy, PartialEq, Eq, Structural)]
pub enum DataLocation {
    /// In the message itself.
    Default,
    /// In files beside the model file.
    External,
}

impl DataLocation {
    /// The number that stands for this place in a message.
    pub open spec fn code(self) -> i32 {
        match self {
            DataLocation::Default => 0,
            DataLocation::External => 1,
        }
    }

    pub fn get_code(&self) -> (r: i32)
        ensures
            r == self.code(),
    {
        match self {
            DataLocation::Default => 0,
            DataLocation::External => 1,
        }
    }
}

/// A tensor with its data.
#[derive(Debug, Clone, Default)]
pub struct TensorProto {
    pub dims: Vec<i64>,
    pub data_type: i32,
    pub float_data: Vec<F32>,
    pub int32_data: Vec<i32>,
    pub int64_data: Vec<i64>,
    pub name: String,
    pub raw_data: Vec<u8>,
    pub external_data: Vec<StringStringEntryProto>,
    pub data_location: Option<i32>,
}

/// The size of one dimension: a number, or the name of a size that is not
/// known yet.
#[derive(Debug, Clone)]
pub enum DimensionValue {
    DimValue(i64),
    DimParam(String),
}

/// One dimension of a shape.
#[derive(Debug, Clone, Default)]
pub struct Dimension {
    pub value: Option<DimensionValue>,
}

/// A shape as a message declares it.
#[derive(Debug, Clone, Default)]
pub struct TensorShapeProto {
    pub dim: Vec<Dimension>,
}

/// The type of a tensor: the type of its elements, and its shape if declared.
#[derive(Debug, Clone, Default)]
pub struct TensorTypeProto {
    pub elem_type: i32,
    pub shape: Option<TensorShapeProto>,
}

/// What a declared type is. Tensors are the only types that the loader reads.
#[derive(Debug, Clone)]
pub enum TypeValue {
    TensorType(TensorTypeProto),
}

/// A declared type.
#[derive(Debug, Clone, Default)]
pub struct TypeProto {
    pub value: Option<TypeValue>,
}

/// The declaration of a value: its name, and its type if declared.
#[derive(Debug, Clone, Default)]
pub struct ValueInfoProto {
    pub name: String,
    pub value_type: Option<TypeProto>,
}

/// An attribute of a node. `kind` says which of the other fields holds the
/// value.
#[derive(Debug, Clone, Default)]
pub struct AttributeProto {
    pub name: String,
    pub kind: i32,
    pub f: F32,
    pub i: i64,
    pub s: Vec<u8>,
    pub floats: Vec<F32>,
    pub ints: Vec<i64>,
    pub strings: Vec<Vec<u8>>,
}

/// A node: an operation with the names of the values that it reads and
/// writes.
#[derive(Debug, Clone, Default)]
pub struct NodeProto {
    pub input: Vec<String>,
    pub output: Vec<String>,
    pub name: String,
    pub op_type: String,
    pub attribute: Vec<AttributeProto>,
}

/// A graph as a model file holds it.
#[derive(Debug, Clone, Default)]
pub struct GraphProto {
    pub node: Vec<NodeProto>,
    pub name: String,
    pub initializer: Vec<TensorProto>,
    pub input: Vec<ValueInfoProto>,
    pub output: Vec<ValueInfoProto>,
    pub value_info: Vec<ValueInfoProto>,
}

/// A model file: the operator sets it was written for, and its graph.
#[derive(Debug, Clone, Default)]
pub struct ModelProto {
    pub opset_import: Vec<OperatorSetIdProto>,
    pub graph: Option<GraphProto>,
}

} // verus!
