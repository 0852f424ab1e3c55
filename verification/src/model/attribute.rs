//! Attributes of an operator: a tagged value kept in type-erased storage.

use vstd::prelude::*;
use vstd::slice::slice_subrange;
use vstd::std_specs::convert::FromSpecImpl;
use vstd::utf8::{decode_utf8, encode_utf8, valid_utf8};
use super::data::{Data, DataView};
use super::element::{decode_seq, decode_slice, encode_seq, Element, Encode, F32};
use crate::text::same;

verus! {

/// The kind of value that an attribute holds.
#[derive(Debug, Clone, Copy, PartialEq, Eq, Structural)]
pub enum AttType {
    Undefined,
    Float,
    Int,
    String,
    Floats,
    Ints,
    Strings,
}

impl AttType {
    /// The number that stands for this kind.
    pub open spec fn code(self) -> u32 {
        match self {
            AttType::Undefined => 0,
            AttType::Float => 1,
            AttType::Int => 2,
            AttType::String => 3,
            AttType::Floats => 4,
            AttType::Ints => 7,
            AttType::Strings => 8,
        }
    }

    /// The kind that `code` stands for, if there is one.
    pub open spec fn of_code(code: u32) -> Option<AttType> {
        if code == 0 {
            Some(AttType::Undefined)
        } else if code == 1 {
            Some(AttType::Float)
        } else if code == 2 {
            Some(AttType::Int)
        } else if code == 3 {
            Some(AttType::String)
        } else if code == 4 {
            Some(AttType::Floats)
        } else if code == 7 {
            Some(AttType::Ints)
        } else if code == 8 {
            Some(AttType::Strings)
        } else {
            None
        }
    }

    /// Every kind is found again from its code.
    pub proof fn lemma_code_round_trip(self)
        ensures
            Self::of_code(self.code()) == Some(self),
    {
    }

    /// The name of the type of the values of this kind; empty for
    /// `Undefined`.
    pub open spec fn name(self) -> Seq<char> {
        match self {
            AttType::Float => "f32"@,
            AttType::Floats => "&[f32]"@,
            AttType::Int => "i64"@,
            AttType::Ints => "&[i64]"@,
            AttType::String => "alloc::string::String"@,
            AttType::Strings => "&[alloc::string::String]"@,
            AttType::Undefined => Seq::empty(),
        }
    }

    /// The kind whose values have the type called `name`, if there is one.
    pub open spec fn of_name(name: Seq<char>) -> Option<AttType> {
        if name == "f32"@ {
            Some(AttType::Float)
        } else if name == "&[f32]"@ {
            Some(AttType::Floats)
        } else if name == "i64"@ {
            Some(AttType::Int)
        } else if name == "&[i64]"@ {
            Some(AttType::Ints)
        } else if name == "alloc::string::String"@ {
            Some(AttType::String)
        } else if name == "&[alloc::string::String]"@ {
            Some(AttType::Strings)
        } else {
            None
        }
    }

    pub fn get_code(&self) -> (code: u32)
        ensures
            code == self.code(),
    {
        match self {
            AttType::Undefined => 0,
            AttType::Float => 1,
            AttType::Int => 2,
            AttType::String => 3,
            AttType::Floats => 4,
            AttType::Ints => 7,
            AttType::Strings => 8,
        }
    }

    /// The kind for `code`, or `None` where no kind has that code.
    pub fn try_from_code(code: u32) -> (r: Option<Self>)
        ensures
            r == Self::of_code(code),
    {
        if code == 0 {
            Some(AttType::Undefined)
        } else if code == 1 {
            Some(AttType::Float)
        } else if code == 2 {
            Some(AttType::Int)
        } else if code == 3 {
            Some(AttType::String)
        } else if code == 4 {
            Some(AttType::Floats)
        } else if code == 7 {
            Some(AttType::Ints)
        } else if code == 8 {
            Some(AttType::Strings)
        } else {
            None
        }
    }

    pub fn from_code(code: u32) -> (r: Self)
        requires
            Self::of_code(code) is Some,
        ensures
            Some(r) == Self::of_code(code),
    {
        match Self::try_from_code(code) {
            Some(r) => r,
            None => AttType::Undefined,
        }
    }

    /// The kind whose values have the type called `name`, or `None` where no
    /// kind has such values.
    pub fn try_from_type_name(name: &str) -> (r: Option<Self>)
        ensures
            r == Self::of_name(name@),
    {
        if same(name, "f32") {
            Some(AttType::Float)
        } else if same(name, "&[f32]") {
            Some(AttType::Floats)
        } else if same(name, "i64") {
            Some(AttType::Int)
        } else if same(name, "&[i64]") {
            Some(AttType::Ints)
        } else if same(name, "alloc::string::String") {
            Some(AttType::String)
        } else if same(name, "&[alloc::string::String]") {
            Some(AttType::Strings)
        } else {
            None
        }
    }

    /// The kind whose values have the type called `name`.
    pub fn from_type_name(name: &str) -> (r: Self)
        requires
            Self::of_name(name@) is Some,
        ensures
            Some(r) == Self::of_name(name@),
    {
        match Self::try_from_type_name(name) {
            Some(r) => r,
            None => AttType::Undefined,
        }
    }

    /// The name of the type of the values of this kind.
    pub fn to_type_name(&self) -> (r: &'static str)
        requires
            *self != AttType::Undefined,
        ensures
            r@ == self.name(),
    {
        match self {
            AttType::Float => "f32",
            AttType::Floats => "&[f32]",
            AttType::Int => "i64",
            AttType::Ints => "&[i64]",
            AttType::String => "alloc::string::String",
            AttType::Strings => "&[alloc::string::String]",
            AttType::Undefined => "",
        }
    }
}

/// What an attribute holds. Text is held as bytes: whether they are UTF-8
/// shows when somebody asks for a `String`.
pub enum Value {
    Float(F32),
    Int(i64),
    String(Seq<u8>),
    Floats(Seq<F32>),
    Ints(Seq<i64>),
    Strings(Seq<Seq<u8>>),
}

impl Value {
    /// The kind of this value.
    pub open spec fn kind(self) -> AttType {
        match self {
            Value::Float(_) => AttType::Float,
            Value::Int(_) => AttType::Int,
            Value::String(_) => AttType::String,
            Value::Floats(_) => AttType::Floats,
            Value::Ints(_) => AttType::Ints,
            Value::Strings(_) => AttType::Strings,
        }
    }

    /// The bytes that stand for this value in storage: numbers in
    /// little-endian order, one after the other; text as it is, the texts of
    /// a list one after the other.
    pub open spec fn bytes(self) -> Seq<u8> {
        match self {
            Value::Float(x) => x.encode(),
            Value::Int(x) => x.encode(),
            Value::String(b) => b,
            Value::Floats(s) => encode_seq(s),
            Value::Ints(s) => encode_seq(s),
            Value::Strings(parts) => concat(parts),
        }
    }
}

/// Why an attribute did not give the value asked for.
#[derive(Debug, Clone, Copy, PartialEq, Eq, Structural)]
pub enum AttributeError {
    /// The attribute holds a value of the kind `found`, not of the kind
    /// `wanted`.
    Mismatch { wanted: AttType, found: AttType },
    /// The attribute holds text that is not UTF-8.
    InvalidUtf8,
}

/// The parts of a list of byte strings, one after the other.
pub open spec fn concat(parts: Seq<Seq<u8>>) -> Seq<u8>
    decreases parts.len(),
{
    if parts.len() == 0 {
        Seq::empty()
    } else {
        concat(parts.drop_last()) + parts.last()
    }
}

/// The sum of the lengths in `lens`.
pub open spec fn total(lens: Seq<usize>) -> nat
    decreases lens.len(),
{
    if lens.len() == 0 {
        0
    } else {
        total(lens.drop_last()) + lens.last() as nat
    }
}

/// `bytes` cut into parts of the lengths in `lens`.
pub open spec fn split(bytes: Seq<u8>, lens: Seq<usize>) -> Seq<Seq<u8>>
    decreases lens.len(),
{
    if lens.len() == 0 {
        Seq::empty()
    } else {
        split(bytes, lens.drop_last()).push(
            bytes.subrange(total(lens.drop_last()) as int, total(lens) as int),
        )
    }
}

/// Whether each of the byte strings is valid UTF-8.
pub open spec fn all_valid_utf8(parts: Seq<Seq<u8>>) -> bool {
    forall|i: int| 0 <= i < parts.len() ==> valid_utf8(#[trigger] parts[i])
}

/// The byte strings that a list of buffers holds.
pub open spec fn parts_of(v: Seq<Vec<u8>>) -> Seq<Seq<u8>> {
    Seq::new(v.len(), |i: int| v[i]@)
}

/// The bytes of the texts of a list.
pub open spec fn texts_of(v: Seq<String>) -> Seq<Seq<u8>> {
    Seq::new(v.len(), |i: int| encode_utf8(v[i]@))
}

/// Whether `lens` are the lengths of `parts`.
pub open spec fn measures(lens: Seq<usize>, parts: Seq<Seq<u8>>) -> bool {
    &&& lens.len() == parts.len()
    &&& forall|i: int| 0 <= i < lens.len() ==> lens[i] == parts[i].len()
}

/// Parts put one after the other are as long as their lengths together, and
/// cutting at those lengths gives the parts again.
pub proof fn lemma_split_concat(parts: Seq<Seq<u8>>, lens: Seq<usize>)
    requires
        measures(lens, parts),
    ensures
        total(lens) == concat(parts).len(),
        split(concat(parts), lens) == parts,
    decreases parts.len(),
{
    if parts.len() > 0 {
        let p = parts.drop_last();
        let l = lens.drop_last();
        lemma_split_concat(p, l);
        lemma_split_prefix(concat(p), parts.last(), l);
        assert(concat(parts).subrange(total(l) as int, total(lens) as int) =~= parts.last());
        assert(split(concat(parts), lens) =~= parts);
    } else {
        assert(split(concat(parts), lens) =~= parts);
    }
}

/// Cutting at lengths that end within the first bytes does not look at what
/// comes after them.
pub proof fn lemma_split_prefix(head: Seq<u8>, rest: Seq<u8>, lens: Seq<usize>)
    requires
        total(lens) <= head.len(),
    ensures
        split(head + rest, lens) == split(head, lens),
    decreases lens.len(),
{
    if lens.len() > 0 {
        let l = lens.drop_last();
        lemma_split_prefix(head, rest, l);
        assert((head + rest).subrange(total(l) as int, total(lens) as int) =~= head.subrange(
            total(l) as int,
            total(lens) as int,
        ));
    }
}

/// Cutting gives as many parts as there are lengths.
pub proof fn lemma_split_len(bytes: Seq<u8>, lens: Seq<usize>)
    ensures
        split(bytes, lens).len() == lens.len(),
    decreases lens.len(),
{
    if lens.len() > 0 {
        lemma_split_len(bytes, lens.drop_last());
    }
}

/// The `i`-th part of a cut lies between the sums of the lengths before it
/// and up to it.
pub proof fn lemma_split_at(bytes: Seq<u8>, lens: Seq<usize>, i: int)
    requires
        0 <= i < lens.len(),
    ensures
        split(bytes, lens).len() == lens.len(),
        total(lens.take(i)) + lens[i] == total(lens.take(i + 1)),
        total(lens.take(i + 1)) <= total(lens),
        split(bytes, lens)[i] == bytes.subrange(
            total(lens.take(i)) as int,
            total(lens.take(i + 1)) as int,
        ),
    decreases lens.len(),
{
    lemma_split_len(bytes, lens);
    lemma_split_len(bytes, lens.drop_last());
    assert(lens.take(i + 1).drop_last() =~= lens.take(i));
    if i == lens.len() - 1 {
        assert(lens.take(i + 1) =~= lens);
        assert(lens.take(i) =~= lens.drop_last());
    } else {
        lemma_split_at(bytes, lens.drop_last(), i);
        assert(lens.drop_last().take(i) =~= lens.take(i));
        assert(lens.drop_last().take(i + 1) =~= lens.take(i + 1));
    }
}

/// `String::from_utf8` of std: the text that `bytes` are in UTF-8. The result
/// is `Some` exactly where the bytes are valid UTF-8, and then the text's own
/// bytes are the ones given.
#[verifier::external_body]
fn text_of(bytes: Vec<u8>) -> (r: Option<String>)
    ensures
        r is Some == valid_utf8(bytes@),
        r matches Some(s) ==> encode_utf8(s@) == bytes@,
{
    String::from_utf8(bytes).ok()
}

/// A value of an operator's attribute, with its kind.
#[derive(Debug)]
pub struct Attribute {
    kind: AttType,
    data: Data,
    lens: Vec<usize>,
}

impl View for Attribute {
    type V = Value;

    closed spec fn view(&self) -> Value {
        let bytes = self.data@.bytes();
        match self.kind {
            AttType::Float => Value::Float(F32::decode(bytes.subrange(0, 4))),
            AttType::Int => Value::Int(i64::decode(bytes.subrange(0, 8))),
            AttType::Floats => Value::Floats(decode_seq::<F32>(bytes)),
            AttType::Ints => Value::Ints(decode_seq::<i64>(bytes)),
            AttType::Strings => Value::Strings(split(bytes, self.lens@)),
            _ => Value::String(bytes),
        }
    }
}

impl Clone for Attribute {
    fn clone(&self) -> (r: Self)
        ensures
            r@ == self@,
            r.stored() == self.stored(),
    {
        proof {
            use_type_invariant(self);
        }
        Attribute { kind: self.kind, data: self.data.clone(), lens: self.lens.clone() }
    }
}

impl Attribute {
    #[verifier::type_invariant]
    spec fn well_formed(&self) -> bool {
        &&& self.data@ == DataView::owned(self.data@.bytes())
        &&& match self.kind {
            AttType::Undefined => false,
            AttType::Float => self.data@.bytes().len() == 4,
            AttType::Int => self.data@.bytes().len() == 8,
            AttType::Strings => total(self.lens@) == self.data@.bytes().len(),
            _ => true,
        }
    }

    /// The bytes in the storage of the attribute.
    pub closed spec fn stored(&self) -> Seq<u8> {
        self.data@.bytes()
    }

    /// The kind of value that the attribute holds.
    pub fn kind(&self) -> (r: AttType)
        ensures
            r == self@.kind(),
    {
        proof {
            use_type_invariant(self);
        }
        self.kind
    }

    /// An attribute that holds one integer.
    pub fn from_int(value: i64) -> (r: Self)
        ensures
            r@ == Value::Int(value),
            r.stored() == r@.bytes(),
    {
        let one: [i64; 1] = [value];
        let data = Data::from_array(vstd::array::array_as_slice(&one));
        proof {
            let none = Seq::<i64>::empty();
            super::element::lemma_encode_seq_push(none, value);
            assert(one@ =~= none.push(value));
            assert(encode_seq(none) =~= Seq::<u8>::empty());
            assert(encode_seq(one@) =~= value.encode());
            value.lemma_encode_len();
            i64::lemma_element(value);
            assert(value.encode().subrange(0, 8) =~= value.encode());
        }
        Attribute { kind: AttType::Int, data, lens: Vec::new() }
    }

    /// An attribute that holds a list of integers.
    pub fn from_ints(value: &[i64]) -> (r: Self)
        ensures
            r@ == Value::Ints(value@),
            r.stored() == r@.bytes(),
    {
        proof {
            super::element::lemma_round_trip::<i64>(value@);
        }
        Attribute { kind: AttType::Ints, data: Data::from_array(value), lens: Vec::new() }
    }

    /// An attribute that holds one 32-bit float.
    pub fn from_float(value: F32) -> (r: Self)
        ensures
            r@ == Value::Float(value),
            r.stored() == r@.bytes(),
    {
        let one: [F32; 1] = [value];
        let data = Data::from_array(vstd::array::array_as_slice(&one));
        proof {
            let none = Seq::<F32>::empty();
            super::element::lemma_encode_seq_push(none, value);
            assert(one@ =~= none.push(value));
            assert(encode_seq(none) =~= Seq::<u8>::empty());
            assert(encode_seq(one@) =~= value.encode());
            value.lemma_encode_len();
            F32::lemma_element(value);
            assert(value.encode().subrange(0, 4) =~= value.encode());
        }
        Attribute { kind: AttType::Float, data, lens: Vec::new() }
    }

    /// An attribute that holds a list of 32-bit floats.
    pub fn from_floats(value: &[F32]) -> (r: Self)
        ensures
            r@ == Value::Floats(value@),
            r.stored() == r@.bytes(),
    {
        proof {
            super::element::lemma_round_trip::<F32>(value@);
        }
        Attribute { kind: AttType::Floats, data: Data::from_array(value), lens: Vec::new() }
    }

    /// An attribute that holds the text `value`.
    pub fn from_str(value: &str) -> (r: Self)
        ensures
            r@ == Value::String(encode_utf8(value@)),
            r.stored() == r@.bytes(),
    {
        Self::from_vec_u8_as_string(value.as_bytes_vec())
    }

    /// An attribute that holds the texts in `value`.
    pub fn from_strings(value: &[String]) -> (r: Self)
        ensures
            r@ == Value::Strings(texts_of(value@)),
            r.stored() == r@.bytes(),
    {
        let n = value.len();
        let mut parts: Vec<Vec<u8>> = Vec::new();
        let mut i: usize = 0;
        while i < n
            invariant
                n == value@.len(),
                i <= n,
                parts@.len() == i,
                forall|j: int| 0 <= j < i ==> (#[trigger] parts@[j])@ == encode_utf8(value@[j]@),
            decreases n - i,
        {
            parts.push(value[i].as_str().as_bytes_vec());
            i = i + 1;
        }
        let ghost held = parts@;
        let r = Self::from_vec_u8_as_strings(parts);
        assert(parts_of(held) =~= texts_of(value@));
        r
    }

    /// An attribute that holds the text whose bytes are `v`.
    pub fn from_vec_u8_as_string(v: Vec<u8>) -> (r: Self)
        ensures
            r@ == Value::String(v@),
            r.stored() == v@,
    {
        Attribute { kind: AttType::String, data: Data::from(v), lens: Vec::new() }
    }

    /// An attribute that holds the texts whose bytes are the parts of `v`.
    /// Its storage holds the parts one after the other.
    pub fn from_vec_u8_as_strings(v: Vec<Vec<u8>>) -> (r: Self)
        ensures
            r@ == Value::Strings(parts_of(v@)),
            r.stored() == concat(parts_of(v@)),
    {
        let ghost parts = parts_of(v@);
        let n = v.len();
        let mut bytes: Vec<u8> = Vec::new();
        let mut lens: Vec<usize> = Vec::new();
        let mut i: usize = 0;
        while i < n
            invariant
                n == v@.len(),
                parts == parts_of(v@),
                parts.len() == n,
                i <= n,
                lens@.len() == i,
                measures(lens@, parts.take(i as int)),
                bytes@ == concat(parts.take(i as int)),
            decreases n - i,
        {
            let part = &v[i];
            assert(part@ == parts[i as int]);
            lens.push(part.len());
            bytes.extend_from_slice(part.as_slice());
            proof {
                assert(parts.take(i + 1).drop_last() =~= parts.take(i as int));
                assert(parts.take(i + 1).last() == parts[i as int]);
            }
            i = i + 1;
        }
        proof {
            assert(parts.take(n as int) =~= parts);
            lemma_split_concat(parts, lens@);
        }
        Attribute { kind: AttType::Strings, data: Data::from(bytes), lens }
    }

    /// The storage of the attribute.
    pub fn into_data(self) -> (r: Data)
        ensures
            r@ == DataView::owned(self.stored()),
    {
        proof {
            use_type_invariant(&self);
        }
        self.data
    }

    /// The integer that the attribute holds.
    pub fn into_int(self) -> (r: Result<i64, AttributeError>)
        ensures
            r == match self@ {
                Value::Int(x) => Ok::<i64, AttributeError>(x),
                _ => Err(AttributeError::Mismatch { wanted: AttType::Int, found: self@.kind() }),
            },
    {
        proof {
            use_type_invariant(&self);
        }
        match self.kind {
            AttType::Int => {
                match self.data.owned_bytes() {
                    Some(bytes) => {
                        Ok(i64::get(bytes, 0))
                    },
                    None => Err(AttributeError::Mismatch { wanted: AttType::Int, found: self.kind }),
                }
            },
            _ => Err(AttributeError::Mismatch { wanted: AttType::Int, found: self.kind }),
        }
    }

    /// The integers that the attribute holds.
    pub fn into_ints(self) -> (r: Result<Vec<i64>, AttributeError>)
        ensures
            match self@ {
                Value::Ints(s) => r matches Ok(v) && v@ == s,
                _ => r == Err::<Vec<i64>, AttributeError>(
                    AttributeError::Mismatch { wanted: AttType::Ints, found: self@.kind() },
                ),
            },
    {
        proof {
            use_type_invariant(&self);
        }
        match self.kind {
            AttType::Ints => {
                match self.data.owned_bytes() {
                    Some(bytes) => Ok(decode_slice(bytes)),
                    None => Err(
                        AttributeError::Mismatch { wanted: AttType::Ints, found: self.kind },
                    ),
                }
            },
            _ => Err(AttributeError::Mismatch { wanted: AttType::Ints, found: self.kind }),
        }
    }

    /// The float that the attribute holds.
    pub fn into_float(self) -> (r: Result<F32, AttributeError>)
        ensures
            r == match self@ {
                Value::Float(x) => Ok::<F32, AttributeError>(x),
                _ => Err(AttributeError::Mismatch { wanted: AttType::Float, found: self@.kind() }),
            },
    {
        proof {
            use_type_invariant(&self);
        }
        match self.kind {
            AttType::Float => {
                match self.data.owned_bytes() {
                    Some(bytes) => {
                        Ok(F32::get(bytes, 0))
                    },
                    None => Err(
                        AttributeError::Mismatch { wanted: AttType::Float, found: self.kind },
                    ),
                }
            },
            _ => Err(AttributeError::Mismatch { wanted: AttType::Float, found: self.kind }),
        }
    }

    /// The floats that the attribute holds.
    pub fn into_floats(self) -> (r: Result<Vec<F32>, AttributeError>)
        ensures
            match self@ {
                Value::Floats(s) => r matches Ok(v) && v@ == s,
                _ => r == Err::<Vec<F32>, AttributeError>(
                    AttributeError::Mismatch { wanted: AttType::Floats, found: self@.kind() },
                ),
            },
    {
        proof {
            use_type_invariant(&self);
        }
        match self.kind {
            AttType::Floats => {
                match self.data.owned_bytes() {
                    Some(bytes) => Ok(decode_slice(bytes)),
                    None => Err(
                        AttributeError::Mismatch { wanted: AttType::Floats, found: self.kind },
                    ),
                }
            },
            _ => Err(AttributeError::Mismatch { wanted: AttType::Floats, found: self.kind }),
        }
    }

    /// The text that the attribute holds.
    pub fn into_string(self) -> (r: Result<String, AttributeError>)
        ensures
            match self@ {
                Value::String(b) => if valid_utf8(b) {
                    r matches Ok(s) && s@ == decode_utf8(b)
                } else {
                    r == Err::<String, AttributeError>(AttributeError::InvalidUtf8)
                },
                _ => r == Err::<String, AttributeError>(
                    AttributeError::Mismatch { wanted: AttType::String, found: self@.kind() },
                ),
            },
    {
        proof {
            use_type_invariant(&self);
        }
        match self.kind {
            AttType::String => {
                match self.data.try_into_own_data() {
                    Some(bytes) => {
                        match text_of(bytes) {
                            Some(s) => {
                                proof {
                                    vstd::utf8::encode_utf8_decode_utf8(s@);
                                }
                                Ok(s)
                            },
                            None => Err(AttributeError::InvalidUtf8),
                        }
                    },
                    None => Err(AttributeError::InvalidUtf8),
                }
            },
            _ => Err(AttributeError::Mismatch { wanted: AttType::String, found: self.kind }),
        }
    }

    /// The texts that the attribute holds.
    pub fn into_strings(self) -> (r: Result<Vec<String>, AttributeError>)
        ensures
            match self@ {
                Value::Strings(parts) => if all_valid_utf8(parts) {
                    &&& r matches Ok(v)
                    &&& v@.len() == parts.len()
                    &&& forall|i: int|
                        0 <= i < parts.len() ==> (#[trigger] v@[i])@ == decode_utf8(parts[i])
                } else {
                    r == Err::<Vec<String>, AttributeError>(AttributeError::InvalidUtf8)
                },
                _ => r == Err::<Vec<String>, AttributeError>(
                    AttributeError::Mismatch { wanted: AttType::Strings, found: self@.kind() },
                ),
            },
    {
        proof {
            use_type_invariant(&self);
        }
        match self.kind {
            AttType::Strings => {},
            _ => {
                return Err(AttributeError::Mismatch { wanted: AttType::Strings, found: self.kind });
            },
        }
        let bytes = match self.data.owned_bytes() {
            Some(bytes) => bytes,
            None => {
                return Err(AttributeError::InvalidUtf8);
            },
        };
        let ghost parts = split(bytes@, self.lens@);
        let n = self.lens.len();
        let size = bytes.len();
        let mut out: Vec<String> = Vec::new();
        let mut at: usize = 0;
        let mut i: usize = 0;
        proof {
            lemma_split_len(bytes@, self.lens@);
            assert(self.lens@.take(0) =~= Seq::<usize>::empty());
        }
        while i < n
            invariant
                n == self.lens@.len(),
                parts == split(bytes@, self.lens@),
                parts.len() == n,
                self@ == Value::Strings(parts),
                size == bytes@.len(),
                total(self.lens@) == size,
                i <= n,
                at == total(self.lens@.take(i as int)),
                out@.len() == i,
                forall|j: int| 0 <= j < i ==> valid_utf8(#[trigger] parts[j]),
                forall|j: int| 0 <= j < i ==> (#[trigger] out@[j])@ == decode_utf8(parts[j]),
            decreases n - i,
        {
            proof {
                lemma_split_at(bytes@, self.lens@, i as int);
            }
            let len = self.lens[i];
            let part = slice_subrange(bytes, at, at + len);
            assert(part@ == parts[i as int]);
            match text_of(vstd::slice::slice_to_vec(part)) {
                Some(s) => {
                    proof {
                        vstd::utf8::encode_utf8_decode_utf8(s@);
                    }
                    out.push(s);
                },
                None => {
                    assert(!valid_utf8(parts[i as int]));
                    return Err(AttributeError::InvalidUtf8);
                },
            }
            at = at + len;
            i = i + 1;
        }
        Ok(out)
    }
}

impl From<i64> for Attribute {
    fn from(value: i64) -> (r: Self)
        ensures
            r@ == Value::Int(value),
            r.stored() == r@.bytes(),
    {
        Attribute::from_int(value)
    }
}

impl FromSpecImpl<i64> for Attribute {
    open spec fn obeys_from_spec() -> bool {
        false
    }

    open spec fn from_spec(v: i64) -> Self {
        arbitrary()
    }
}

impl<'a> From<&'a [i64]> for Attribute {
    fn from(value: &'a [i64]) -> (r: Self)
        ensures
            r@ == Value::Ints(value@),
            r.stored() == r@.bytes(),
    {
        Attribute::from_ints(value)
    }
}

impl<'a> FromSpecImpl<&'a [i64]> for Attribute {
    open spec fn obeys_from_spec() -> bool {
        false
    }

    open spec fn from_spec(v: &'a [i64]) -> Self {
        arbitrary()
    }
}

impl From<F32> for Attribute {
    fn from(value: F32) -> (r: Self)
        ensures
            r@ == Value::Float(value),
            r.stored() == r@.bytes(),
    {
        Attribute::from_float(value)
    }
}

impl FromSpecImpl<F32> for Attribute {
    open spec fn obeys_from_spec() -> bool {
        false
    }

    open spec fn from_spec(v: F32) -> Self {
        arbitrary()
    }
}

impl<'a> From<&'a [F32]> for Attribute {
    fn from(value: &'a [F32]) -> (r: Self)
        ensures
            r@ == Value::Floats(value@),
            r.stored() == r@.bytes(),
    {
        Attribute::from_floats(value)
    }
}

impl<'a> FromSpecImpl<&'a [F32]> for Attribute {
    open spec fn obeys_from_spec() -> bool {
        false
    }

    open spec fn from_spec(v: &'a [F32]) -> Self {
        arbitrary()
    }
}

impl<'a> From<&'a str> for Attribute {
    fn from(value: &'a str) -> (r: Self)
        ensures
            r@ == Value::String(encode_utf8(value@)),
            r.stored() == r@.bytes(),
    {
        Attribute::from_str(value)
    }
}

impl<'a> FromSpecImpl<&'a str> for Attribute {
    open spec fn obeys_from_spec() -> bool {
        false
    }

    open spec fn from_spec(v: &'a str) -> Self {
        arbitrary()
    }
}

impl<'a> From<&'a [String]> for Attribute {
    fn from(value: &'a [String]) -> (r: Self)
        ensures
            r@ == Value::Strings(texts_of(value@)),
            r.stored() == r@.bytes(),
    {
        Attribute::from_strings(value)
    }
}

impl<'a> FromSpecImpl<&'a [String]> for Attribute {
    open spec fn obeys_from_spec() -> bool {
        false
    }

    open spec fn from_spec(v: &'a [String]) -> Self {
        arbitrary()
    }
}

/// Text that went into an attribute comes out of it unchanged.
pub proof fn lemma_text_round_trip(text: Seq<char>)
    ensures
        valid_utf8(encode_utf8(text)),
        decode_utf8(encode_utf8(text)) == text,
{
    vstd::utf8::encode_utf8_valid_utf8(text);
    vstd::utf8::encode_utf8_decode_utf8(text);
}

} // verus!
