//! Tensors and their descriptive metadata: shape, layout, element type.

use vstd::prelude::*;
use vstd::array::array_as_slice;
use vstd::slice::slice_subrange;
use super::data::{Content, Data, DataView};
use super::element::{decode_seq, encode_seq, lemma_round_trip, Element};
use crate::text::{decimal, decimal_text};

verus! {

/// Memory layout of a tensor. Descriptive only: nothing here interprets it.
#[derive(Debug, Clone, Copy, PartialEq, Eq, Structural)]
pub enum Format {
    NCHW,
    NHWC,
    CHWN,
    HWCN,
    NDHWC,
    NCDHW,
}

impl Format {
    /// The number that stands for this layout.
    pub open spec fn code(self) -> u32 {
        match self {
            Format::NCHW => 1,
            Format::NHWC => 2,
            Format::CHWN => 3,
            Format::HWCN => 4,
            Format::NDHWC => 5,
            Format::NCDHW => 6,
        }
    }

    /// The layout that `code` stands for, if there is one.
    pub open spec fn of_code(code: u32) -> Option<Format> {
        if code == 1 {
            Some(Format::NCHW)
        } else if code == 2 {
            Some(Format::NHWC)
        } else if code == 3 {
            Some(Format::CHWN)
        } else if code == 4 {
            Some(Format::HWCN)
        } else if code == 5 {
            Some(Format::NDHWC)
        } else if code == 6 {
            Some(Format::NCDHW)
        } else {
            None
        }
    }

    /// Every layout is found again from its code.
    pub proof fn lemma_code_round_trip(self)
        ensures
            Self::of_code(self.code()) == Some(self),
    {
    }

    pub fn get_code(&self) -> (code: u32)
        ensures
            code == self.code(),
    {
        match self {
            Format::NCHW => 1,
            Format::NHWC => 2,
            Format::CHWN => 3,
            Format::HWCN => 4,
            Format::NDHWC => 5,
            Format::NCDHW => 6,
        }
    }

    /// The layout for `code`, or `None` where no layout has that code.
    pub fn try_from_code(code: u32) -> (r: Option<Self>)
        ensures
            r == Self::of_code(code),
    {
        if code == 1 {
            Some(Format::NCHW)
        } else if code == 2 {
            Some(Format::NHWC)
        } else if code == 3 {
            Some(Format::CHWN)
        } else if code == 4 {
            Some(Format::HWCN)
        } else if code == 5 {
            Some(Format::NDHWC)
        } else if code == 6 {
            Some(Format::NCDHW)
        } else {
            None
        }
    }

    pub fn from_code(code: u32) -> (r: Self)
        requires
            Self::of_code(code) is Some,
        ensures
            Some(r) == Self::of_code(code),
    {
        match Self::try_from_code(code) {
            Some(r) => r,
            None => Format::NCHW,
        }
    }
}

impl Default for Format {
    fn default() -> (r: Self)
        ensures
            r == Format::NCHW,
    {
        Format::NCHW
    }
}

/// Element type of a tensor.
#[derive(Debug, Clone, Copy, PartialEq, Eq, Structural)]
pub enum DType {
    Undefined,
    Float32,
    Uint8,
    Int8,
    Uint16,
    Int16,
    Int32,
    Int64,
    String,
    Bool,
    Float16,
    Float64,
    Uint32,
    Uint64,
    Complex64,
    Complex128,
    Bfloat16,
}

impl DType {
    /// The number that stands for this element type.
    pub open spec fn code(self) -> u32 {
        match self {
            DType::Undefined => 0,
            DType::Float32 => 1,
            DType::Uint8 => 2,
            DType::Int8 => 3,
            DType::Uint16 => 4,
            DType::Int16 => 5,
            DType::Int32 => 6,
            DType::Int64 => 7,
            DType::String => 8,
            DType::Bool => 9,
            DType::Float16 => 10,
            DType::Float64 => 11,
            DType::Uint32 => 12,
            DType::Uint64 => 13,
            DType::Complex64 => 14,
            DType::Complex128 => 15,
            DType::Bfloat16 => 16,
        }
    }

    /// The element type that `code` stands for, if there is one.
    pub open spec fn of_code(code: u32) -> Option<DType> {
        if code == 0 {
            Some(DType::Undefined)
        } else if code == 1 {
            Some(DType::Float32)
        } else if code == 2 {
            Some(DType::Uint8)
        } else if code == 3 {
            Some(DType::Int8)
        } else if code == 4 {
            Some(DType::Uint16)
        } else if code == 5 {
            Some(DType::Int16)
        } else if code == 6 {
            Some(DType::Int32)
        } else if code == 7 {
            Some(DType::Int64)
        } else if code == 8 {
            Some(DType::String)
        } else if code == 9 {
            Some(DType::Bool)
        } else if code == 10 {
            Some(DType::Float16)
        } else if code == 11 {
            Some(DType::Float64)
        } else if code == 12 {
            Some(DType::Uint32)
        } else if code == 13 {
            Some(DType::Uint64)
        } else if code == 14 {
            Some(DType::Complex64)
        } else if code == 15 {
            Some(DType::Complex128)
        } else if code == 16 {
            Some(DType::Bfloat16)
        } else {
            None
        }
    }

    /// Every element type is found again from its code.
    pub proof fn lemma_code_round_trip(self)
        ensures
            Self::of_code(self.code()) == Some(self),
    {
    }

    /// Whether values of this type are numbers of a fixed width: the floats
    /// and the integers of 8 to 64 bits.
    pub open spec fn is_numeric(self) -> bool {
        match self {
            DType::Float16 | DType::Float32 | DType::Float64 => true,
            DType::Uint8 | DType::Uint16 | DType::Uint32 | DType::Uint64 => true,
            DType::Int8 | DType::Int16 | DType::Int32 | DType::Int64 => true,
            _ => false,
        }
    }

    /// Bytes per element, for the numeric types; 0 for the others.
    pub open spec fn width(self) -> nat {
        match self {
            DType::Uint8 | DType::Int8 => 1,
            DType::Float16 | DType::Uint16 | DType::Int16 => 2,
            DType::Float32 | DType::Uint32 | DType::Int32 => 4,
            DType::Float64 | DType::Uint64 | DType::Int64 => 8,
            _ => 0,
        }
    }

    /// The canonical name of the element type, for the numeric types; empty
    /// for the others.
    pub open spec fn name(self) -> Seq<char> {
        match self {
            DType::Float16 => "f16"@,
            DType::Float32 => "f32"@,
            DType::Float64 => "f64"@,
            DType::Uint8 => "u8"@,
            DType::Uint16 => "u16"@,
            DType::Uint32 => "u32"@,
            DType::Uint64 => "u64"@,
            DType::Int8 => "i8"@,
            DType::Int16 => "i16"@,
            DType::Int32 => "i32"@,
            DType::Int64 => "i64"@,
            _ => Seq::empty(),
        }
    }

    pub fn get_code(&self) -> (code: u32)
        ensures
            code == self.code(),
    {
        match self {
            DType::Undefined => 0,
            DType::Float32 => 1,
            DType::Uint8 => 2,
            DType::Int8 => 3,
            DType::Uint16 => 4,
            DType::Int16 => 5,
            DType::Int32 => 6,
            DType::Int64 => 7,
            DType::String => 8,
            DType::Bool => 9,
            DType::Float16 => 10,
            DType::Float64 => 11,
            DType::Uint32 => 12,
            DType::Uint64 => 13,
            DType::Complex64 => 14,
            DType::Complex128 => 15,
            DType::Bfloat16 => 16,
        }
    }

    /// The element type for `code`, or `None` where no type has that code.
    pub fn try_from_code(code: u32) -> (r: Option<Self>)
        ensures
            r == Self::of_code(code),
    {
        if code == 0 {
            Some(DType::Undefined)
        } else if code == 1 {
            Some(DType::Float32)
        } else if code == 2 {
            Some(DType::Uint8)
        } else if code == 3 {
            Some(DType::Int8)
        } else if code == 4 {
            Some(DType::Uint16)
        } else if code == 5 {
            Some(DType::Int16)
        } else if code == 6 {
            Some(DType::Int32)
        } else if code == 7 {
            Some(DType::Int64)
        } else if code == 8 {
            Some(DType::String)
        } else if code == 9 {
            Some(DType::Bool)
        } else if code == 10 {
            Some(DType::Float16)
        } else if code == 11 {
            Some(DType::Float64)
        } else if code == 12 {
            Some(DType::Uint32)
        } else if code == 13 {
            Some(DType::Uint64)
        } else if code == 14 {
            Some(DType::Complex64)
        } else if code == 15 {
            Some(DType::Complex128)
        } else if code == 16 {
            Some(DType::Bfloat16)
        } else {
            None
        }
    }

    pub fn from_code(code: u32) -> (r: Self)
        requires
            Self::of_code(code) is Some,
        ensures
            Some(r) == Self::of_code(code),
    {
        match Self::try_from_code(code) {
            Some(r) => r,
            None => DType::Undefined,
        }
    }

    /// Whether this is one of the numeric types, which alone have a width
    /// and a name.
    pub fn numeric(&self) -> (r: bool)
        ensures
            r == self.is_numeric(),
    {
        match self {
            DType::Float16 | DType::Float32 | DType::Float64 => true,
            DType::Uint8 | DType::Uint16 | DType::Uint32 | DType::Uint64 => true,
            DType::Int8 | DType::Int16 | DType::Int32 | DType::Int64 => true,
            _ => false,
        }
    }

    /// Bytes per element.
    pub fn size_of(&self) -> (r: usize)
        requires
            self.is_numeric(),
        ensures
            r == self.width(),
            1 <= r <= 8,
    {
        match self {
            DType::Float16 => 2,
            DType::Float32 => 4,
            DType::Float64 => 8,
            DType::Uint8 => 1,
            DType::Uint16 => 2,
            DType::Uint32 => 4,
            DType::Uint64 => 8,
            DType::Int8 => 1,
            DType::Int16 => 2,
            DType::Int32 => 4,
            DType::Int64 => 8,
            _ => 0,
        }
    }

    /// The canonical name of the element type, as in `"f32"` or `"i64"`.
    pub fn to_type_name(&self) -> (r: &'static str)
        requires
            self.is_numeric(),
        ensures
            r@ == self.name(),
    {
        match self {
            DType::Float16 => "f16",
            DType::Float32 => "f32",
            DType::Float64 => "f64",
            DType::Uint8 => "u8",
            DType::Uint16 => "u16",
            DType::Uint32 => "u32",
            DType::Uint64 => "u64",
            DType::Int8 => "i8",
            DType::Int16 => "i16",
            DType::Int32 => "i32",
            DType::Int64 => "i64",
            _ => "",
        }
    }
}

/// Where the bytes of a tensor live.
#[derive(Debug, Clone, Copy, PartialEq, Eq, Structural)]
pub enum Location {
    Host,
    Device,
}

impl Location {
    /// The number that stands for this location.
    pub open spec fn code(self) -> u32 {
        match self {
            Location::Host => 0,
            Location::Device => 1,
        }
    }

    /// The location that `code` stands for, if there is one.
    pub open spec fn of_code(code: u32) -> Option<Location> {
        if code == 0 {
            Some(Location::Host)
        } else if code == 1 {
            Some(Location::Device)
        } else {
            None
        }
    }

    /// Every location is found again from its code.
    pub proof fn lemma_code_round_trip(self)
        ensures
            Self::of_code(self.code()) == Some(self),
    {
    }

    pub fn get_code(&self) -> (code: u32)
        ensures
            code == self.code(),
    {
        match self {
            Location::Host => 0,
            Location::Device => 1,
        }
    }

    /// The location for `code`, or `None` where no location has that code.
    pub fn try_from_code(code: u32) -> (r: Option<Self>)
        ensures
            r == Self::of_code(code),
    {
        if code == 0 {
            Some(Location::Host)
        } else if code == 1 {
            Some(Location::Device)
        } else {
            None
        }
    }

    pub fn from_code(code: u32) -> (r: Self)
        requires
            Self::of_code(code) is Some,
        ensures
            Some(r) == Self::of_code(code),
    {
        match Self::try_from_code(code) {
            Some(r) => r,
            None => Location::Host,
        }
    }
}

/// Whether a tensor is an edge of the graph or data that came with the model.
#[derive(Debug, Clone, Copy, PartialEq, Eq, Structural)]
pub enum Type {
    /// An edge of the graph: metadata, and data only once a run binds it.
    Variable,
    /// Data that the model file carries.
    Constant,
}

impl Type {
    /// The number that stands for this kind.
    pub open spec fn code(self) -> u32 {
        match self {
            Type::Variable => 0,
            Type::Constant => 1,
        }
    }

    /// The kind that `code` stands for, if there is one.
    pub open spec fn of_code(code: u32) -> Option<Type> {
        if code == 0 {
            Some(Type::Variable)
        } else if code == 1 {
            Some(Type::Constant)
        } else {
            None
        }
    }

    /// Every kind is found again from its code.
    pub proof fn lemma_code_round_trip(self)
        ensures
            Self::of_code(self.code()) == Some(self),
    {
    }

    pub fn get_code(&self) -> (code: u32)
        ensures
            code == self.code(),
    {
        match self {
            Type::Variable => 0,
            Type::Constant => 1,
        }
    }

    /// The kind for `code`, or `None` where no kind has that code.
    pub fn try_from_code(code: u32) -> (r: Option<Self>)
        ensures
            r == Self::of_code(code),
    {
        if code == 0 {
            Some(Type::Variable)
        } else if code == 1 {
            Some(Type::Constant)
        } else {
            None
        }
    }

    pub fn from_code(code: u32) -> (r: Self)
        requires
            Self::of_code(code) is Some,
        ensures
            Some(r) == Self::of_code(code),
    {
        match Self::try_from_code(code) {
            Some(r) => r,
            None => Type::Variable,
        }
    }
}

/// The product of the sizes in `s`; 1 for no sizes.
pub open spec fn product(s: Seq<u32>) -> nat
    decreases s.len(),
{
    if s.len() == 0 {
        1
    } else {
        product(s.drop_last()) * (s.last() as nat)
    }
}

/// How many elements a tensor of the sizes `dims` has: their product, and 0
/// where there are no sizes.
pub open spec fn element_count(dims: Seq<u32>) -> nat {
    if dims.len() == 0 {
        0
    } else {
        product(dims)
    }
}

/// The sizes in `s` in decimal, with `", "` between them.
pub open spec fn list_text(s: Seq<u32>) -> Seq<char>
    decreases s.len(),
{
    if s.len() == 0 {
        Seq::empty()
    } else if s.len() == 1 {
        decimal(s[0] as nat)
    } else {
        list_text(s.drop_last()) + ", "@ + decimal(s.last() as nat)
    }
}

/// A shape written out, as in `[2, 2, 3]`.
pub open spec fn shape_text(dims: Seq<u32>) -> Seq<char> {
    "["@ + list_text(dims) + "]"@
}

/// Where one size is 0, the product is 0.
pub proof fn lemma_product_zero(s: Seq<u32>, i: int)
    requires
        0 <= i < s.len(),
        s[i] == 0,
    ensures
        product(s) == 0,
    decreases s.len(),
{
    if i == s.len() - 1 {
        assert(product(s.drop_last()) * 0 == 0) by (nonlinear_arith);
    } else {
        lemma_product_zero(s.drop_last(), i);
        assert(0 * (s.last() as nat) == 0) by (nonlinear_arith);
    }
}

/// Where no size is 0, the product of the first `i` sizes is at most the
/// product of all, and at least 1.
pub proof fn lemma_product_prefix(s: Seq<u32>, i: int)
    requires
        0 <= i <= s.len(),
        forall|j: int| 0 <= j < s.len() ==> s[j] >= 1,
    ensures
        1 <= product(s.take(i)) <= product(s),
    decreases s.len() - i,
{
    if i == s.len() {
        assert(s.take(i) =~= s);
        lemma_product_positive(s);
    } else {
        lemma_product_prefix(s, i + 1);
        assert(s.take(i + 1).drop_last() =~= s.take(i));
        let p = product(s.take(i));
        let d = s[i] as nat;
        assert(product(s.take(i + 1)) == p * d);
        lemma_product_positive(s.take(i));
        assert(p <= p * d) by (nonlinear_arith)
            requires
                d >= 1,
        ;
    }
}

/// Where no size is 0, the product is at least 1.
pub proof fn lemma_product_positive(s: Seq<u32>)
    requires
        forall|j: int| 0 <= j < s.len() ==> s[j] >= 1,
    ensures
        product(s) >= 1,
    decreases s.len(),
{
    if s.len() > 0 {
        lemma_product_positive(s.drop_last());
        let p = product(s.drop_last());
        let d = s.last() as nat;
        assert(p * d >= 1) by (nonlinear_arith)
            requires
                p >= 1,
                d >= 1,
        ;
    }
}

/// The sizes of a tensor along each of its dimensions, 8 at most.
#[derive(Debug)]
pub struct Shape {
    dim: usize,
    data: [u32; 8],
}

impl View for Shape {
    type V = Seq<u32>;

    closed spec fn view(&self) -> Seq<u32> {
        self.data@.subrange(0, self.dim as int)
    }
}

impl Clone for Shape {
    fn clone(&self) -> (r: Self)
        ensures
            r@ == self@,
    {
        proof {
            use_type_invariant(self);
        }
        Shape { dim: self.dim, data: self.data }
    }
}

impl Shape {
    #[verifier::type_invariant]
    spec fn well_formed(&self) -> bool {
        self.dim <= 8
    }

    /// The shape of no dimensions.
    pub fn new() -> (r: Self)
        ensures
            r@ == Seq::<u32>::empty(),
    {
        let r = Shape { dim: 0, data: [0; 8] };
        assert(r@ =~= Seq::<u32>::empty());
        r
    }

    /// The shape of the sizes in `data`.
    pub fn from(data: &[u32]) -> (r: Self)
        requires
            data@.len() <= 8,
        ensures
            r@ == data@,
    {
        let mut shape = Self::new();
        shape.set_data(data);
        shape
    }

    /// The number of dimensions.
    pub fn dim(&self) -> (r: usize)
        ensures
            r == self@.len(),
            r <= 8,
    {
        proof {
            use_type_invariant(self);
        }
        self.dim
    }

    /// The sizes, one for each dimension.
    pub fn data(&self) -> (r: &[u32])
        ensures
            r@ == self@,
    {
        proof {
            use_type_invariant(self);
        }
        slice_subrange(array_as_slice(&self.data), 0, self.dim)
    }

    /// Replaces the sizes by those in `data`.
    pub fn set_data(&mut self, data: &[u32])
        requires
            data@.len() <= 8,
        ensures
            final(self)@ == data@,
    {
        let n = data.len();
        let mut sizes: [u32; 8] = [0; 8];
        let mut i: usize = 0;
        while i < n
            invariant
                n == data@.len(),
                n <= 8,
                i <= n,
                forall|j: int| 0 <= j < i ==> sizes@[j] == data@[j],
            decreases n - i,
        {
            sizes[i] = data[i];
            i = i + 1;
        }
        self.dim = n;
        self.data = sizes;
        assert(self@ =~= data@);
    }

    /// The number of elements, or `None` where it is more than `usize` holds.
    pub fn checked_len(&self) -> (r: Option<usize>)
        ensures
            match r {
                Some(n) => n == element_count(self@),
                None => element_count(self@) > usize::MAX,
            },
    {
        let d = self.data();
        let n = d.len();
        if n == 0 {
            return Some(0);
        }
        let mut i: usize = 0;
        while i < n
            invariant
                d@ == self@,
                n == d@.len(),
                n > 0,
                i <= n,
                forall|j: int| 0 <= j < i ==> d@[j] >= 1,
            decreases n - i,
        {
            if d[i] == 0 {
                proof {
                    lemma_product_zero(d@, i as int);
                }
                return Some(0);
            }
            i = i + 1;
        }
        let mut acc: usize = 1;
        i = 0;
        while i < n
            invariant
                d@ == self@,
                n == d@.len(),
                n > 0,
                i <= n,
                forall|j: int| 0 <= j < n ==> d@[j] >= 1,
                acc == product(d@.take(i as int)),
            decreases n - i,
        {
            proof {
                assert(d@.take(i + 1).drop_last() =~= d@.take(i as int));
                assert(product(d@.take(i + 1)) == acc * d@[i as int]);
                lemma_product_prefix(d@, i + 1);
            }
            match acc.checked_mul(d[i] as usize) {
                Some(v) => {
                    acc = v;
                },
                None => {
                    return None;
                },
            }
            i = i + 1;
        }
        assert(d@.take(n as int) =~= d@);
        Some(acc)
    }

    /// The number of elements: the product of the sizes, and 0 for the shape
    /// of no dimensions.
    pub fn len(&self) -> (r: usize)
        requires
            element_count(self@) <= usize::MAX,
        ensures
            r == element_count(self@),
    {
        match self.checked_len() {
            Some(n) => n,
            None => 0,
        }
    }

    /// The shape written out, as in `[2, 2, 3]`.
    pub fn to_string(&self) -> (r: String)
        ensures
            r@ == shape_text(self@),
    {
        let d = self.data();
        let n = d.len();
        let mut out = String::from_str("[");
        let mut i: usize = 0;
        while i < n
            invariant
                n == d@.len(),
                i <= n,
                out@ == "["@ + list_text(d@.take(i as int)),
            decreases n - i,
        {
            if i > 0 {
                out.append(", ");
            }
            let size = decimal_text(d[i] as u64);
            out.append(size.as_str());
            proof {
                let before = d@.take(i as int);
                let now = d@.take(i + 1);
                assert(now.drop_last() =~= before);
                assert(now.last() == d@[i as int]);
                if i == 0 {
                    assert(before =~= Seq::<u32>::empty());
                    assert(list_text(now) == decimal(d@[0] as nat));
                    assert(out@ =~= "["@ + list_text(now));
                } else {
                    assert(out@ =~= "["@ + list_text(now));
                }
            }
            i = i + 1;
        }
        assert(d@.take(n as int) =~= d@);
        out.append("]");
        out
    }
}

/// What a tensor is: its name, its metadata and its storage.
pub struct TensorView {
    pub name: Seq<char>,
    pub shape: Seq<u32>,
    pub format: Format,
    pub dtype: DType,
    pub kind: Type,
    pub data: DataView,
}

impl TensorView {
    /// How many elements the shape announces.
    pub open spec fn element_count(self) -> nat {
        element_count(self.shape)
    }

    /// This tensor with another shape and with storage that owns `bytes`.
    pub open spec fn filled(self, shape: Seq<u32>, bytes: Seq<u8>) -> TensorView {
        TensorView { shape, data: DataView::owned(bytes), ..self }
    }
}

/// The numbers that a tensor was filled with are read back unchanged from its
/// bytes, for each type of number that a tensor can hold.
pub proof fn lemma_filled_tensor_round_trip<T: Element>(t: TensorView, shape: Seq<u32>, a: Seq<T>)
    ensures
        t.filled(shape, encode_seq(a)).data.is_owned(),
        decode_seq::<T>(t.filled(shape, encode_seq(a)).data.bytes()) == a,
{
    lemma_round_trip::<T>(a);
}

/// A named tensor: metadata, and the storage for its elements.
#[derive(Debug)]
pub struct Tensor {
    name: String,
    shape: Shape,
    format: Format,
    dtype: DType,
    data: Data,
    kind: Type,
}

impl View for Tensor {
    type V = TensorView;

    closed spec fn view(&self) -> TensorView {
        TensorView {
            name: self.name@,
            shape: self.shape@,
            format: self.format,
            dtype: self.dtype,
            kind: self.kind,
            data: self.data@,
        }
    }
}

impl Clone for Tensor {
    fn clone(&self) -> (r: Self)
        ensures
            r@ == self@,
    {
        Tensor {
            name: self.name.clone(),
            shape: self.shape.clone(),
            format: self.format,
            dtype: self.dtype,
            data: self.data.clone(),
            kind: self.kind,
        }
    }
}

impl Tensor {
    /// A tensor without shape and without data.
    pub fn new(name: &str, format: Format, dtype: DType, kind: Type) -> (r: Self)
        ensures
            r@ == (TensorView {
                name: name@,
                shape: Seq::empty(),
                format,
                dtype,
                kind,
                data: DataView::empty(),
            }),
    {
        Tensor {
            name: String::from_str(name),
            shape: Shape::new(),
            format,
            dtype,
            data: Data::new(),
            kind,
        }
    }

    /// A tensor of the given shape, without data.
    pub fn new_with_shape(
        name: &str,
        shape: &[u32],
        format: Format,
        dtype: DType,
        kind: Type,
    ) -> (r: Self)
        requires
            shape@.len() <= 8,
        ensures
            r@ == (TensorView {
                name: name@,
                shape: shape@,
                format,
                dtype,
                kind,
                data: DataView::empty(),
            }),
    {
        Tensor {
            name: String::from_str(name),
            shape: Shape::from(shape),
            format,
            dtype,
            data: Data::new(),
            kind,
        }
    }

    /// Whether `T` is the type of this tensor's elements.
    pub fn type_match<T: Element>(&self) -> (r: bool)
        ensures
            r == (self@.dtype == T::element_type()),
    {
        self.dtype == T::dtype()
    }

    /// Fills the tensor from a row of numbers: the shape becomes the length
    /// of the row, the storage its bytes.
    pub fn set_array1<T: Element>(&mut self, vs: &[T])
        requires
            old(self)@.dtype == T::element_type(),
            vs@.len() <= u32::MAX,
        ensures
            final(self)@ == old(self)@.filled(seq![vs@.len() as u32], encode_seq(vs@)),
    {
        let dims: [u32; 1] = [vs.len() as u32];
        self.shape = Shape::from(array_as_slice(&dims));
        self.data = Data::from_array(vs);
        assert(dims@ =~= seq![vs@.len() as u32]);
    }

    /// Fills the tensor from rows of numbers, row after row.
    pub fn set_array2<T: Element, const B: usize>(&mut self, vs: &[[T; B]])
        requires
            old(self)@.dtype == T::element_type(),
            vs@.len() <= u32::MAX,
            B <= u32::MAX,
        ensures
            final(self)@ == old(self)@.filled(
                seq![vs@.len() as u32, B as u32],
                encode_seq(vs@),
            ),
    {
        let dims: [u32; 2] = [vs.len() as u32, B as u32];
        self.shape = Shape::from(array_as_slice(&dims));
        self.data = Data::from_array(vs);
        assert(dims@ =~= seq![vs@.len() as u32, B as u32]);
    }

    /// Fills the tensor from a block of numbers of three dimensions, in
    /// row-major order.
    pub fn set_array3<T: Element, const B: usize, const C: usize>(&mut self, vs: &[[[T; C]; B]])
        requires
            old(self)@.dtype == T::element_type(),
            vs@.len() <= u32::MAX,
            B <= u32::MAX,
            C <= u32::MAX,
        ensures
            final(self)@ == old(self)@.filled(
                seq![vs@.len() as u32, B as u32, C as u32],
                encode_seq(vs@),
            ),
    {
        let dims: [u32; 3] = [vs.len() as u32, B as u32, C as u32];
        self.shape = Shape::from(array_as_slice(&dims));
        self.data = Data::from_array(vs);
        assert(dims@ =~= seq![vs@.len() as u32, B as u32, C as u32]);
    }

    /// Fills the tensor from a block of numbers of four dimensions, in
    /// row-major order.
    pub fn set_array4<T: Element, const B: usize, const C: usize, const D: usize>(
        &mut self,
        vs: &[[[[T; D]; C]; B]],
    )
        requires
            old(self)@.dtype == T::element_type(),
            vs@.len() <= u32::MAX,
            B <= u32::MAX,
            C <= u32::MAX,
            D <= u32::MAX,
        ensures
            final(self)@ == old(self)@.filled(
                seq![vs@.len() as u32, B as u32, C as u32, D as u32],
                encode_seq(vs@),
            ),
    {
        let dims: [u32; 4] = [vs.len() as u32, B as u32, C as u32, D as u32];
        self.shape = Shape::from(array_as_slice(&dims));
        self.data = Data::from_array(vs);
        assert(dims@ =~= seq![vs@.len() as u32, B as u32, C as u32, D as u32]);
    }

    /// Fills the tensor from a block of numbers of five dimensions, in
    /// row-major order.
    pub fn set_array5<
        T: Element,
        const B: usize,
        const C: usize,
        const D: usize,
        const E: usize,
    >(&mut self, vs: &[[[[[T; E]; D]; C]; B]])
        requires
            old(self)@.dtype == T::element_type(),
            vs@.len() <= u32::MAX,
            B <= u32::MAX,
            C <= u32::MAX,
            D <= u32::MAX,
            E <= u32::MAX,
        ensures
            final(self)@ == old(self)@.filled(
                seq![vs@.len() as u32, B as u32, C as u32, D as u32, E as u32],
                encode_seq(vs@),
            ),
    {
        let dims: [u32; 5] = [vs.len() as u32, B as u32, C as u32, D as u32, E as u32];
        self.shape = Shape::from(array_as_slice(&dims));
        self.data = Data::from_array(vs);
        assert(dims@ =~= seq![vs@.len() as u32, B as u32, C as u32, D as u32, E as u32]);
    }

    /// Gives the tensor its elements, one number for each place of its shape.
    pub fn set_vec<T: Element>(&mut self, data: Vec<T>)
        requires
            old(self)@.dtype == T::element_type(),
            data@.len() == old(self)@.element_count(),
        ensures
            final(self)@ == old(self)@.filled(old(self)@.shape, encode_seq(data@)),
    {
        self.data = Data::from_vec(data);
    }

    /// Gives the tensor its bytes as they are, to be read as `dtype`.
    pub fn set_vec_u8(&mut self, data: Vec<u8>, dtype: DType)
        requires
            dtype == old(self)@.dtype,
        ensures
            final(self)@ == old(self)@.filled(old(self)@.shape, data@),
    {
        self.data = Data::from(data);
    }

    /// Points the tensor to `length` bytes at `addr`, which it will not own:
    /// the region has to stay alive for as long as anybody reads the tensor.
    pub fn set_data(&mut self, addr: usize, length: usize, location: Location)
        requires
            old(self)@.dtype.is_numeric(),
            old(self)@.element_count() * old(self)@.dtype.width() == length,
        ensures
            final(self)@ == (TensorView {
                data: DataView { location, content: Content::Borrowed { addr, length } },
                ..old(self)@
            }),
    {
        self.data = Data::from_ptr(addr, length, location);
    }

    /// Gives up the bytes of the tensor. `None` where it owns none.
    pub fn into_vec(self) -> (r: Option<Vec<u8>>)
        ensures
            r is Some == self@.data.is_owned(),
            r matches Some(v) ==> v@ == self@.data.bytes(),
    {
        self.data.try_into_own_data()
    }

    pub fn name(&self) -> (r: &String)
        ensures
            r@ == self@.name,
    {
        &self.name
    }

    pub fn shape(&self) -> (r: &Shape)
        ensures
            r@ == self@.shape,
    {
        &self.shape
    }

    pub fn format(&self) -> (r: Format)
        ensures
            r == self@.format,
    {
        self.format
    }

    pub fn dtype(&self) -> (r: DType)
        ensures
            r == self@.dtype,
    {
        self.dtype
    }

    /// Whether the tensor is an edge of the graph or data of the model.
    pub fn kind(&self) -> (r: Type)
        ensures
            r == self@.kind,
    {
        self.kind
    }

    /// The storage of the tensor, left in place.
    pub fn data(&self) -> (r: &Data)
        ensures
            r@ == self@.data,
    {
        &self.data
    }

    /// How many bytes the tensor owns or points to.
    pub fn data_len(&self) -> (r: usize)
        ensures
            r == self@.data.len(),
    {
        self.data.len()
    }

    /// The address of the region that the tensor points to; 0 where it owns
    /// its bytes.
    pub fn data_ptr(&self) -> (r: usize)
        ensures
            r == self@.data.addr(),
    {
        self.data.ptr()
    }

    pub fn location(&self) -> (r: Location)
        ensures
            r == self@.data.location,
    {
        self.data.location()
    }
}

} // verus!
