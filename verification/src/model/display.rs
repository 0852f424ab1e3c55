//! Tensors written out as text.

use vstd::prelude::*;
use super::tensor::{shape_text, DType, Format, Location, Tensor, TensorView, Type};

verus! {

impl Format {
    /// The name of the variant.
    pub open spec fn label(self) -> Seq<char> {
        match self {
            Format::NCHW => "NCHW"@,
            Format::NHWC => "NHWC"@,
            Format::CHWN => "CHWN"@,
            Format::HWCN => "HWCN"@,
            Format::NDHWC => "NDHWC"@,
            Format::NCDHW => "NCDHW"@,
        }
    }

    /// The name of the variant.
    pub fn to_label(&self) -> (r: &'static str)
        ensures
            r@ == self.label(),
    {
        match self {
            Format::NCHW => "NCHW",
            Format::NHWC => "NHWC",
            Format::CHWN => "CHWN",
            Format::HWCN => "HWCN",
            Format::NDHWC => "NDHWC",
            Format::NCDHW => "NCDHW",
        }
    }
}

impl DType {
    /// The name of the variant.
    pub open spec fn label(self) -> Seq<char> {
        match self {
            DType::Undefined => "Undefined"@,
            DType::Float32 => "Float32"@,
            DType::Uint8 => "Uint8"@,
            DType::Int8 => "Int8"@,
            DType::Uint16 => "Uint16"@,
            DType::Int16 => "Int16"@,
            DType::Int32 => "Int32"@,
            DType::Int64 => "Int64"@,
            DType::String => "String"@,
            DType::Bool => "Bool"@,
            DType::Float16 => "Float16"@,
            DType::Float64 => "Float64"@,
            DType::Uint32 => "Uint32"@,
            DType::Uint64 => "Uint64"@,
            DType::Complex64 => "Complex64"@,
            DType::Complex128 => "Complex128"@,
            DType::Bfloat16 => "Bfloat16"@,
        }
    }

    /// The name of the variant.
    pub fn to_label(&self) -> (r: &'static str)
        ensures
            r@ == self.label(),
    {
        match self {
            DType::Undefined => "Undefined",
            DType::Float32 => "Float32",
            DType::Uint8 => "Uint8",
            DType::Int8 => "Int8",
            DType::Uint16 => "Uint16",
            DType::Int16 => "Int16",
            DType::Int32 => "Int32",
            DType::Int64 => "Int64",
            DType::String => "String",
            DType::Bool => "Bool",
            DType::Float16 => "Float16",
            DType::Float64 => "Float64",
            DType::Uint32 => "Uint32",
            DType::Uint64 => "Uint64",
            DType::Complex64 => "Complex64",
            DType::Complex128 => "Complex128",
            DType::Bfloat16 => "Bfloat16",
        }
    }
}

impl Location {
    /// The name of the variant.
    pub open spec fn label(self) -> Seq<char> {
        match self {
            Location::Host => "Host"@,
            Location::Device => "Device"@,
        }
    }

    /// The name of the variant.
    pub fn to_label(&self) -> (r: &'static str)
        ensures
            r@ == self.label(),
    {
        match self {
            Location::Host => "Host",
            Location::Device => "Device",
        }
    }
}

impl Type {
    /// The name of the variant.
    pub open spec fn label(self) -> Seq<char> {
        match self {
            Type::Variable => "Variable"@,
            Type::Constant => "Constant"@,
        }
    }

    /// The name of the variant.
    pub fn to_label(&self) -> (r: &'static str)
        ensures
            r@ == self.label(),
    {
        match self {
            Type::Variable => "Variable",
            Type::Constant => "Constant",
        }
    }
}

impl TensorView {
    /// The tensor written out: its name, its shape, its layout, its element
    /// type, its storage and its kind.
    pub open spec fn text(self) -> Seq<char> {
        "Tensor { name: \""@ + self.name + "\", shape: "@ + shape_text(self.shape) + ", format: "@
            + self.format.label() + ", dtype: "@ + self.dtype.label() + ", data: "@
            + self.data.text() + ", type: "@ + self.kind.label() + " }"@
    }
}

impl Tensor {
    /// The tensor written out, as in `Tensor { name: "x", shape: [2, 2],
    /// format: NCHW, dtype: Int32, data: {location: Host, ptr: 0x0, length:
    /// 0}, type: Variable }`.
    pub fn to_string(&self) -> (r: String)
        ensures
            r@ == self@.text(),
    {
        let mut out = String::from_str("Tensor { name: \"");
        out.append(self.name().as_str());
        out.append("\", shape: ");
        out.append(self.shape().to_string().as_str());
        out.append(", format: ");
        out.append(self.format().to_label());
        out.append(", dtype: ");
        out.append(self.dtype().to_label());
        out.append(", data: ");
        out.append(self.data().to_string().as_str());
        out.append(", type: ");
        out.append(self.kind().to_label());
        out.append(" }");
        out
    }
}

} // verus!
