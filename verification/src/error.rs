//! Why a model could not be loaded.

use vstd::prelude::*;
use crate::text::{decimal, decimal_text, signed_decimal, signed_decimal_text};

verus! {

/// Why a model could not be loaded. A model is loaded whole or not at all.
#[derive(Debug, Clone, PartialEq, Eq)]
pub enum LoadError {
    /// There is no file at `path`.
    FileNotFound { path: String },
    /// The bytes of the model file are not a well-formed message.
    DecodeError { reason: String },
    /// The model file holds no graph.
    MissingGraph,
    /// The operator reads a tensor that is neither an initializer that is
    /// still to be had nor a declared value.
    UnresolvedInput { operator: String, tensor: String },
    /// The operator writes a tensor that is not a declared value.
    UnresolvedOutput { operator: String, tensor: String },
    /// The tensor has an element type that is unknown, or whose data cannot
    /// be taken from the typed fields of the message.
    UnsupportedDType { tensor: String, code: i32 },
    /// The attribute has a kind of value that cannot be read.
    UnsupportedAttributeType { attribute: String, code: i32 },
    /// The data of the tensor is kept in files beside the model file, and
    /// the directory of the model file is not known.
    MissingExternalDataContext { tensor: String },
    /// The tensor has more dimensions than a shape can hold.
    TooManyDimensions { tensor: String, rank: usize },
}

/// What a `LoadError` says.
pub enum LoadErrorView {
    FileNotFound { path: Seq<char> },
    DecodeError { reason: Seq<char> },
    MissingGraph,
    UnresolvedInput { operator: Seq<char>, tensor: Seq<char> },
    UnresolvedOutput { operator: Seq<char>, tensor: Seq<char> },
    UnsupportedDType { tensor: Seq<char>, code: i32 },
    UnsupportedAttributeType { attribute: Seq<char>, code: i32 },
    MissingExternalDataContext { tensor: Seq<char> },
    TooManyDimensions { tensor: Seq<char>, rank: usize },
}

impl LoadErrorView {
    /// The error in words, with the names of what failed.
    pub open spec fn text(self) -> Seq<char> {
        match self {
            LoadErrorView::FileNotFound { path } => "file not found: "@ + path,
            LoadErrorView::DecodeError { reason } => "malformed model file: "@ + reason,
            LoadErrorView::MissingGraph => "the model holds no graph"@,
            LoadErrorView::UnresolvedInput { operator, tensor } => "operator "@ + operator
                + " reads tensor "@ + tensor
                + ", which is neither an initializer nor a declared value"@,
            LoadErrorView::UnresolvedOutput { operator, tensor } => "operator "@ + operator
                + " writes tensor "@ + tensor + ", which is not a declared value"@,
            LoadErrorView::UnsupportedDType { tensor, code } => "tensor "@ + tensor
                + " has the unsupported element type "@ + signed_decimal(code as int),
            LoadErrorView::UnsupportedAttributeType { attribute, code } => "attribute "@
                + attribute + " has the unsupported type "@ + signed_decimal(code as int),
            LoadErrorView::MissingExternalDataContext { tensor } => "tensor "@ + tensor
                + " keeps its data in files, and the directory of the model is not known"@,
            LoadErrorView::TooManyDimensions { tensor, rank } => "tensor "@ + tensor + " has "@
                + decimal(rank as nat) + " dimensions, and 8 is the most"@,
        }
    }
}

impl LoadError {
    /// The error in words, with the names of what failed.
    pub fn to_string(&self) -> (r: String)
        ensures
            r@ == self@.text(),
    {
        match self {
            LoadError::FileNotFound { path } => String::from_str("file not found: ").concat(
                path.as_str(),
            ),
            LoadError::DecodeError { reason } => String::from_str("malformed model file: ").concat(
                reason.as_str(),
            ),
            LoadError::MissingGraph => String::from_str("the model holds no graph"),
            LoadError::UnresolvedInput { operator, tensor } => String::from_str(
                "operator ",
            ).concat(operator.as_str()).concat(" reads tensor ").concat(tensor.as_str()).concat(
                ", which is neither an initializer nor a declared value",
            ),
            LoadError::UnresolvedOutput { operator, tensor } => String::from_str(
                "operator ",
            ).concat(operator.as_str()).concat(" writes tensor ").concat(tensor.as_str()).concat(
                ", which is not a declared value",
            ),
            LoadError::UnsupportedDType { tensor, code } => String::from_str("tensor ").concat(
                tensor.as_str(),
            ).concat(" has the unsupported element type ").concat(
                signed_decimal_text(*code as i64).as_str(),
            ),
            LoadError::UnsupportedAttributeType { attribute, code } => String::from_str(
                "attribute ",
            ).concat(attribute.as_str()).concat(" has the unsupported type ").concat(
                signed_decimal_text(*code as i64).as_str(),
            ),
            LoadError::MissingExternalDataContext { tensor } => String::from_str(
                "tensor ",
            ).concat(tensor.as_str()).concat(
                " keeps its data in files, and the directory of the model is not known",
            ),
            LoadError::TooManyDimensions { tensor, rank } => String::from_str("tensor ").concat(
                tensor.as_str(),
            ).concat(" has ").concat(decimal_text(*rank as u64).as_str()).concat(
                " dimensions, and 8 is the most",
            ),
        }
    }
}

impl View for LoadError {
    type V = LoadErrorView;

    open spec fn view(&self) -> LoadErrorView {
        match self {
            LoadError::FileNotFound { path } => LoadErrorView::FileNotFound { path: path@ },
            LoadError::DecodeError { reason } => LoadErrorView::DecodeError { reason: reason@ },
            LoadError::MissingGraph => LoadErrorView::MissingGraph,
            LoadError::UnresolvedInput { operator, tensor } => LoadErrorView::UnresolvedInput {
                operator: operator@,
                tensor: tensor@,
            },
            LoadError::UnresolvedOutput { operator, tensor } => LoadErrorView::UnresolvedOutput {
                operator: operator@,
                tensor: tensor@,
            },
            LoadError::UnsupportedDType { tensor, code } => LoadErrorView::UnsupportedDType {
                tensor: tensor@,
                code: *code,
            },
            LoadError::UnsupportedAttributeType {
                attribute,
                code,
            } => LoadErrorView::UnsupportedAttributeType { attribute: attribute@, code: *code },
            LoadError::MissingExternalDataContext {
                tensor,
            } => LoadErrorView::MissingExternalDataContext { tensor: tensor@ },
            LoadError::TooManyDimensions { tensor, rank } => LoadErrorView::TooManyDimensions {
                tensor: tensor@,
                rank: *rank,
            },
        }
    }
}

} // verus!
