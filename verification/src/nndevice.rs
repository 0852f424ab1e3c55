//! What goes to and comes from the engine that runs a graph, as plain values.
//!
//! The engine answers with numbers and with descriptions of tensors. Here
//! they become errors and tensors; calling the engine is not done here.

use vstd::prelude::*;
use crate::model::data::{Content, DataView};
use crate::model::table::Table;
use crate::model::tensor::{element_count, DType, Format, Location, Tensor, TensorView, Type};

verus! {

/// What can go wrong in the engine.
#[derive(Debug, Clone, Copy, PartialEq, Eq, Structural)]
pub enum Error {
    UnknowErr,
    InvalidParam,
    LoadSoErr,
    SoNotExist,
    NnDeviceCloseErr,
    NnDeviceDriverErr,
}

impl Error {
    /// What the error says.
    pub open spec fn text(self) -> Seq<char> {
        match self {
            Error::UnknowErr => "未知错误"@,
            Error::InvalidParam => "参数错误"@,
            Error::LoadSoErr => "加载动态库错误"@,
            Error::SoNotExist => "动态库不存在"@,
            Error::NnDeviceCloseErr => "NnDevice关闭失败"@,
            Error::NnDeviceDriverErr => "后端调用错误"@,
        }
    }

    /// What the error says.
    pub fn to_string(&self) -> (r: String)
        ensures
            r@ == self.text(),
    {
        String::from_str(
            match self {
                Error::UnknowErr => "未知错误",
                Error::InvalidParam => "参数错误",
                Error::LoadSoErr => "加载动态库错误",
                Error::SoNotExist => "动态库不存在",
                Error::NnDeviceCloseErr => "NnDevice关闭失败",
                Error::NnDeviceDriverErr => "后端调用错误",
            },
        )
    }
}

/// The error that a return code of the engine stands for; none for 0, which
/// stands for success.
pub open spec fn error_of_code(rc: i32) -> Option<Error> {
    if rc == 0 {
        None
    } else if rc == -1 {
        Some(Error::InvalidParam)
    } else if rc == -2 {
        Some(Error::LoadSoErr)
    } else if rc == -3 {
        Some(Error::SoNotExist)
    } else if rc == -201 {
        Some(Error::NnDeviceDriverErr)
    } else if rc == -202 {
        Some(Error::NnDeviceCloseErr)
    } else {
        Some(Error::UnknowErr)
    }
}

/// The error that a return code of the engine stands for.
pub fn parser_error_from_code(rc: i32) -> (r: Option<Error>)
    ensures
        r == error_of_code(rc),
{
    match rc {
        0 => None,
        -1 => Some(Error::InvalidParam),
        -2 => Some(Error::LoadSoErr),
        -3 => Some(Error::SoNotExist),
        -201 => Some(Error::NnDeviceDriverErr),
        -202 => Some(Error::NnDeviceCloseErr),
        _ => Some(Error::UnknowErr),
    }
}

/// The number that `str::parse::<i32>` of std reads from a text, if it reads
/// one.
pub uninterp spec fn parsed_i32(text: Seq<char>) -> Option<i32>;

/// `str::parse::<i32>` of std: the number that `what` is, or `None` where it
/// is no number that an `i32` holds. The contract only gives the result its
/// name.
#[verifier::external_body]
fn parse_code(what: &str) -> (r: Option<i32>)
    ensures
        r == parsed_i32(what@),
{
    what.parse::<i32>().ok()
}

/// The error that the engine reports with an exception that says `what`: the
/// error of the return code that `what` is, and `UnknowErr` where it is no
/// number.
pub fn parser_error(what: &str) -> (r: Option<Error>)
    ensures
        r == match parsed_i32(what@) {
            Some(rc) => error_of_code(rc),
            None => Some(Error::UnknowErr),
        },
{
    match parse_code(what) {
        Some(rc) => parser_error_from_code(rc),
        None => Some(Error::UnknowErr),
    }
}

/// Options for the engine: the `i`-th key with the `i`-th value.
#[derive(Debug)]
pub struct RustOptions {
    pub keys: Vec<String>,
    pub values: Vec<String>,
}

/// The options of a table, in the order of the table.
pub fn rust_options(opts: &Table<String>) -> (r: RustOptions)
    ensures
        r.keys@.len() == opts.keys().len(),
        r.values@.len() == opts.keys().len(),
        forall|i: int|
            0 <= i < opts.keys().len() ==> (#[trigger] r.keys@[i])@ == opts.keys()[i]
                && r.values@[i] == opts@[opts.keys()[i]],
{
    let n = opts.len();
    let mut keys: Vec<String> = Vec::new();
    let mut values: Vec<String> = Vec::new();
    let mut i: usize = 0;
    while i < n
        invariant
            n == opts.keys().len(),
            i <= n,
            keys@.len() == i,
            values@.len() == i,
            forall|j: int|
                0 <= j < i ==> (#[trigger] keys@[j])@ == opts.keys()[j] && values@[j]
                    == opts@[opts.keys()[j]],
        decreases n - i,
    {
        keys.push(opts.name_at(i).clone());
        values.push(opts.value_at(i).clone());
        i = i + 1;
    }
    RustOptions { keys, values }
}

/// A tensor as the engine describes it: codes for element type and layout,
/// and the region that holds the elements.
#[derive(Debug)]
pub struct RustTensor {
    pub name: String,
    pub dtype: u32,
    pub dims: Vec<u32>,
    pub layout: u32,
    pub data: usize,
    pub len: usize,
}

/// The tensor that a description of the engine stands for: an edge of the
/// graph that points to the region on the host. None where a code stands for
/// nothing, where there are more than 8 sizes, or where the region is not as
/// long as the elements of the shape together.
pub open spec fn output_view(t: RustTensor) -> Option<TensorView> {
    match (Format::of_code(t.layout), DType::of_code(t.dtype)) {
        (Some(format), Some(dtype)) => if t.dims@.len() <= 8 && dtype.is_numeric()
            && element_count(t.dims@) * dtype.width() == t.len {
            Some(
                TensorView {
                    name: t.name@,
                    shape: t.dims@,
                    format,
                    dtype,
                    kind: Type::Variable,
                    data: DataView {
                        location: Location::Host,
                        content: Content::Borrowed { addr: t.data, length: t.len },
                    },
                },
            )
        } else {
            None
        },
        _ => None,
    }
}

/// The tensor that a description of the engine stands for.
pub fn output_tensor(t: &RustTensor) -> (r: Option<Tensor>)
    ensures
        match output_view(*t) {
            Some(view) => r matches Some(x) && x@ == view,
            None => r is None,
        },
{
    let format = match Format::try_from_code(t.layout) {
        Some(f) => f,
        None => {
            return None;
        },
    };
    let dtype = match DType::try_from_code(t.dtype) {
        Some(d) => d,
        None => {
            return None;
        },
    };
    if t.dims.len() > 8 || !dtype.numeric() {
        return None;
    }
    let mut tensor = Tensor::new_with_shape(
        t.name.as_str(),
        t.dims.as_slice(),
        format,
        dtype,
        Type::Variable,
    );
    let count = match tensor.shape().checked_len() {
        Some(n) => n,
        None => {
            assert(element_count(t.dims@) * dtype.width() > usize::MAX) by (nonlinear_arith)
                requires
                    element_count(t.dims@) > usize::MAX,
                    dtype.width() >= 1,
            ;
            return None;
        },
    };
    match count.checked_mul(dtype.size_of()) {
        Some(bytes) => {
            if bytes != t.len {
                return None;
            }
        },
        None => {
            return None;
        },
    }
    tensor.set_data(t.data, t.len, Location::Host);
    Some(tensor)
}

} // verus!
