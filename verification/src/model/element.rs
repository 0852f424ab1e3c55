//! Values that a storage buffer can hold, and how they are laid out in bytes.
//!
//! Every value is written in little-endian order. The floating-point types
//! are carried as their bit patterns: `F32` holds what `f32::to_bits` gives.

use vstd::prelude::*;
use vstd::bytes::*;
use vstd::slice::*;
use super::tensor::DType;

verus! {

/// A value that can be written out as a fixed number of bytes.
pub trait Encode: Sized {
    /// How many bytes one value takes.
    spec fn width() -> nat;

    /// The bytes of this value.
    spec fn encode(self) -> Seq<u8>;

    /// A value takes exactly `width()` bytes.
    proof fn lemma_encode_len(self)
        ensures
            self.encode().len() == Self::width(),
    ;

    /// Appends the bytes of this value to `out`.
    fn put(&self, out: &mut Vec<u8>)
        ensures
            final(out)@ == old(out)@ + self.encode(),
    ;
}

/// A number of one of the numeric element types, which can also be read back
/// from its bytes.
pub trait Element: Encode + Copy {
    /// The element type that values of this type belong to.
    spec fn element_type() -> DType;

    /// The value that `bytes` hold.
    spec fn decode(bytes: Seq<u8>) -> Self;

    /// The element type is numeric and as wide as the value's bytes, and
    /// reading back what was written gives the same value.
    proof fn lemma_element(x: Self)
        ensures
            Self::element_type().is_numeric(),
            Self::width() == Self::element_type().width(),
            Self::decode(x.encode()) == x,
    ;

    /// The element type that values of this type belong to.
    fn dtype() -> (d: DType)
        ensures
            d == Self::element_type(),
    ;

    /// Reads the value that starts at byte `at`.
    fn get(bytes: &[u8], at: usize) -> (x: Self)
        requires
            at + Self::width() <= bytes@.len(),
        ensures
            x == Self::decode(bytes@.subrange(at as int, at + Self::width())),
    ;
}

/// A 16-bit float, held as its bit pattern. Two are equal when their bits are.
#[derive(Debug, Clone, Copy, PartialEq, Eq, Structural, Default)]
pub struct F16 {
    bits: u16,
}

/// A 32-bit float, held as its bit pattern. Two are equal when their bits are.
#[derive(Debug, Clone, Copy, PartialEq, Eq, Structural, Default)]
pub struct F32 {
    bits: u32,
}

/// A 64-bit float, held as its bit pattern. Two are equal when their bits are.
#[derive(Debug, Clone, Copy, PartialEq, Eq, Structural, Default)]
pub struct F64 {
    bits: u64,
}

impl F16 {
    pub closed spec fn bits(self) -> u16 {
        self.bits
    }

    pub fn from_bits(bits: u16) -> (r: Self)
        ensures
            r.bits() == bits,
    {
        F16 { bits }
    }

    pub fn to_bits(&self) -> (r: u16)
        ensures
            r == self.bits(),
    {
        self.bits
    }

    /// Two values with the same bits are the same value.
    pub proof fn lemma_same_bits(a: Self, b: Self)
        requires
            a.bits() == b.bits(),
        ensures
            a == b,
    {
    }
}

impl F32 {
    pub closed spec fn bits(self) -> u32 {
        self.bits
    }

    pub fn from_bits(bits: u32) -> (r: Self)
        ensures
            r.bits() == bits,
    {
        F32 { bits }
    }

    pub fn to_bits(&self) -> (r: u32)
        ensures
            r == self.bits(),
    {
        self.bits
    }

    /// Two values with the same bits are the same value.
    pub proof fn lemma_same_bits(a: Self, b: Self)
        requires
            a.bits() == b.bits(),
        ensures
            a == b,
    {
    }
}

impl F64 {
    pub closed spec fn bits(self) -> u64 {
        self.bits
    }

    pub fn from_bits(bits: u64) -> (r: Self)
        ensures
            r.bits() == bits,
    {
        F64 { bits }
    }

    pub fn to_bits(&self) -> (r: u64)
        ensures
            r == self.bits(),
    {
        self.bits
    }

    /// Two values with the same bits are the same value.
    pub proof fn lemma_same_bits(a: Self, b: Self)
        requires
            a.bits() == b.bits(),
        ensures
            a == b,
    {
    }
}

impl Encode for u8 {
    open spec fn width() -> nat {
        1
    }

    open spec fn encode(self) -> Seq<u8> {
        seq![self]
    }

    proof fn lemma_encode_len(self) {
    }

    fn put(&self, out: &mut Vec<u8>) {
        out.push(*self);
    }
}

impl Element for u8 {
    open spec fn element_type() -> DType {
        DType::Uint8
    }

    open spec fn decode(bytes: Seq<u8>) -> Self {
        bytes[0]
    }

    proof fn lemma_element(x: Self) {
    }

    fn dtype() -> (d: DType) {
        DType::Uint8
    }

    fn get(bytes: &[u8], at: usize) -> (x: Self) {
        bytes[at]
    }
}

impl Encode for i8 {
    open spec fn width() -> nat {
        1
    }

    open spec fn encode(self) -> Seq<u8> {
        seq![self as u8]
    }

    proof fn lemma_encode_len(self) {
    }

    fn put(&self, out: &mut Vec<u8>) {
        out.push(*self as u8);
    }
}

impl Element for i8 {
    open spec fn element_type() -> DType {
        DType::Int8
    }

    open spec fn decode(bytes: Seq<u8>) -> Self {
        bytes[0] as i8
    }

    proof fn lemma_element(x: Self) {
        assert((x as u8) as i8 == x) by (bit_vector);
    }

    fn dtype() -> (d: DType) {
        DType::Int8
    }

    fn get(bytes: &[u8], at: usize) -> (x: Self) {
        bytes[at] as i8
    }
}

impl Encode for u16 {
    open spec fn width() -> nat {
        2
    }

    open spec fn encode(self) -> Seq<u8> {
        spec_u16_to_le_bytes(self)
    }

    proof fn lemma_encode_len(self) {
        lemma_auto_spec_u16_to_from_le_bytes();
        assert(spec_u16_to_le_bytes(self).len() == 2);
    }

    fn put(&self, out: &mut Vec<u8>) {
        let mut b = u16_to_le_bytes(*self);
        out.append(&mut b);
    }
}

impl Element for u16 {
    open spec fn element_type() -> DType {
        DType::Uint16
    }

    open spec fn decode(bytes: Seq<u8>) -> Self {
        spec_u16_from_le_bytes(bytes)
    }

    proof fn lemma_element(x: Self) {
        lemma_auto_spec_u16_to_from_le_bytes();
        assert(spec_u16_to_le_bytes(x).len() == 2);
    }

    fn dtype() -> (d: DType) {
        DType::Uint16
    }

    fn get(bytes: &[u8], at: usize) -> (x: Self) {
        let n = bytes.len();
        u16_from_le_bytes(slice_subrange(bytes, at, at + 2))
    }
}

impl Encode for i16 {
    open spec fn width() -> nat {
        2
    }

    open spec fn encode(self) -> Seq<u8> {
        spec_u16_to_le_bytes(self as u16)
    }

    proof fn lemma_encode_len(self) {
        lemma_auto_spec_u16_to_from_le_bytes();
        assert(spec_u16_to_le_bytes(self as u16).len() == 2);
    }

    fn put(&self, out: &mut Vec<u8>) {
        let mut b = u16_to_le_bytes(*self as u16);
        out.append(&mut b);
    }
}

impl Element for i16 {
    open spec fn element_type() -> DType {
        DType::Int16
    }

    open spec fn decode(bytes: Seq<u8>) -> Self {
        spec_u16_from_le_bytes(bytes) as i16
    }

    proof fn lemma_element(x: Self) {
        lemma_auto_spec_u16_to_from_le_bytes();
        assert(spec_u16_to_le_bytes(x as u16).len() == 2);
        assert((x as u16) as i16 == x) by (bit_vector);
    }

    fn dtype() -> (d: DType) {
        DType::Int16
    }

    fn get(bytes: &[u8], at: usize) -> (x: Self) {
        let n = bytes.len();
        u16_from_le_bytes(slice_subrange(bytes, at, at + 2)) as i16
    }
}

impl Encode for u32 {
    open spec fn width() -> nat {
        4
    }

    open spec fn encode(self) -> Seq<u8> {
        spec_u32_to_le_bytes(self)
    }

    proof fn lemma_encode_len(self) {
        lemma_auto_spec_u32_to_from_le_bytes();
        assert(spec_u32_to_le_bytes(self).len() == 4);
    }

    fn put(&self, out: &mut Vec<u8>) {
        let mut b = u32_to_le_bytes(*self);
        out.append(&mut b);
    }
}

impl Element for u32 {
    open spec fn element_type() -> DType {
        DType::Uint32
    }

    open spec fn decode(bytes: Seq<u8>) -> Self {
        spec_u32_from_le_bytes(bytes)
    }

    proof fn lemma_element(x: Self) {
        lemma_auto_spec_u32_to_from_le_bytes();
        assert(spec_u32_to_le_bytes(x).len() == 4);
    }

    fn dtype() -> (d: DType) {
        DType::Uint32
    }

    fn get(bytes: &[u8], at: usize) -> (x: Self) {
        let n = bytes.len();
        u32_from_le_bytes(slice_subrange(bytes, at, at + 4))
    }
}

impl Encode for i32 {
    open spec fn width() -> nat {
        4
    }

    open spec fn encode(self) -> Seq<u8> {
        spec_u32_to_le_bytes(self as u32)
    }

    proof fn lemma_encode_len(self) {
        lemma_auto_spec_u32_to_from_le_bytes();
        assert(spec_u32_to_le_bytes(self as u32).len() == 4);
    }

    fn put(&self, out: &mut Vec<u8>) {
        let mut b = u32_to_le_bytes(*self as u32);
        out.append(&mut b);
    }
}

impl Element for i32 {
    open spec fn element_type() -> DType {
        DType::Int32
    }

    open spec fn decode(bytes: Seq<u8>) -> Self {
        spec_u32_from_le_bytes(bytes) as i32
    }

    proof fn lemma_element(x: Self) {
        lemma_auto_spec_u32_to_from_le_bytes();
        assert(spec_u32_to_le_bytes(x as u32).len() == 4);
        assert((x as u32) as i32 == x) by (bit_vector);
    }

    fn dtype() -> (d: DType) {
        DType::Int32
    }

    fn get(bytes: &[u8], at: usize) -> (x: Self) {
        let n = bytes.len();
        u32_from_le_bytes(slice_subrange(bytes, at, at + 4)) as i32
    }
}

impl Encode for u64 {
    open spec fn width() -> nat {
        8
    }

    open spec fn encode(self) -> Seq<u8> {
        spec_u64_to_le_bytes(self)
    }

    proof fn lemma_encode_len(self) {
        lemma_auto_spec_u64_to_from_le_bytes();
        assert(spec_u64_to_le_bytes(self).len() == 8);
    }

    fn put(&self, out: &mut Vec<u8>) {
        let mut b = u64_to_le_bytes(*self);
        out.append(&mut b);
    }
}

impl Element for u64 {
    open spec fn element_type() -> DType {
        DType::Uint64
    }

    open spec fn decode(bytes: Seq<u8>) -> Self {
        spec_u64_from_le_bytes(bytes)
    }

    proof fn lemma_element(x: Self) {
        lemma_auto_spec_u64_to_from_le_bytes();
        assert(spec_u64_to_le_bytes(x).len() == 8);
    }

    fn dtype() -> (d: DType) {
        DType::Uint64
    }

    fn get(bytes: &[u8], at: usize) -> (x: Self) {
        let n = bytes.len();
        u64_from_le_bytes(slice_subrange(bytes, at, at + 8))
    }
}

impl Encode for i64 {
    open spec fn width() -> nat {
        8
    }

    open spec fn encode(self) -> Seq<u8> {
        spec_u64_to_le_bytes(self as u64)
    }

    proof fn lemma_encode_len(self) {
        lemma_auto_spec_u64_to_from_le_bytes();
        assert(spec_u64_to_le_bytes(self as u64).len() == 8);
    }

    fn put(&self, out: &mut Vec<u8>) {
        let mut b = u64_to_le_bytes(*self as u64);
        out.append(&mut b);
    }
}

impl Element for i64 {
    open spec fn element_type() -> DType {
        DType::Int64
    }

    open spec fn decode(bytes: Seq<u8>) -> Self {
        spec_u64_from_le_bytes(bytes) as i64
    }

    proof fn lemma_element(x: Self) {
        lemma_auto_spec_u64_to_from_le_bytes();
        assert(spec_u64_to_le_bytes(x as u64).len() == 8);
        assert((x as u64) as i64 == x) by (bit_vector);
    }

    fn dtype() -> (d: DType) {
        DType::Int64
    }

    fn get(bytes: &[u8], at: usize) -> (x: Self) {
        let n = bytes.len();
        u64_from_le_bytes(slice_subrange(bytes, at, at + 8)) as i64
    }
}

impl Encode for F16 {
    open spec fn width() -> nat {
        2
    }

    open spec fn encode(self) -> Seq<u8> {
        spec_u16_to_le_bytes(self.bits())
    }

    proof fn lemma_encode_len(self) {
        lemma_auto_spec_u16_to_from_le_bytes();
        assert(spec_u16_to_le_bytes(self.bits()).len() == 2);
    }

    fn put(&self, out: &mut Vec<u8>) {
        let mut b = u16_to_le_bytes(self.bits);
        out.append(&mut b);
    }
}

impl Element for F16 {
    open spec fn element_type() -> DType {
        DType::Float16
    }

    closed spec fn decode(bytes: Seq<u8>) -> Self {
        F16 { bits: spec_u16_from_le_bytes(bytes) }
    }

    proof fn lemma_element(x: Self) {
        lemma_auto_spec_u16_to_from_le_bytes();
        assert(spec_u16_to_le_bytes(x.bits()).len() == 2);
    }

    fn dtype() -> (d: DType) {
        DType::Float16
    }

    fn get(bytes: &[u8], at: usize) -> (x: Self) {
        let n = bytes.len();
        F16 { bits: u16_from_le_bytes(slice_subrange(bytes, at, at + 2)) }
    }
}

impl Encode for F32 {
    open spec fn width() -> nat {
        4
    }

    open spec fn encode(self) -> Seq<u8> {
        spec_u32_to_le_bytes(self.bits())
    }

    proof fn lemma_encode_len(self) {
        lemma_auto_spec_u32_to_from_le_bytes();
        assert(spec_u32_to_le_bytes(self.bits()).len() == 4);
    }

    fn put(&self, out: &mut Vec<u8>) {
        let mut b = u32_to_le_bytes(self.bits);
        out.append(&mut b);
    }
}

impl Element for F32 {
    open spec fn element_type() -> DType {
        DType::Float32
    }

    closed spec fn decode(bytes: Seq<u8>) -> Self {
        F32 { bits: spec_u32_from_le_bytes(bytes) }
    }

    proof fn lemma_element(x: Self) {
        lemma_auto_spec_u32_to_from_le_bytes();
        assert(spec_u32_to_le_bytes(x.bits()).len() == 4);
    }

    fn dtype() -> (d: DType) {
        DType::Float32
    }

    fn get(bytes: &[u8], at: usize) -> (x: Self) {
        let n = bytes.len();
        F32 { bits: u32_from_le_bytes(slice_subrange(bytes, at, at + 4)) }
    }
}

impl Encode for F64 {
    open spec fn width() -> nat {
        8
    }

    open spec fn encode(self) -> Seq<u8> {
        spec_u64_to_le_bytes(self.bits())
    }

    proof fn lemma_encode_len(self) {
        lemma_auto_spec_u64_to_from_le_bytes();
        assert(spec_u64_to_le_bytes(self.bits()).len() == 8);
    }

    fn put(&self, out: &mut Vec<u8>) {
        let mut b = u64_to_le_bytes(self.bits);
        out.append(&mut b);
    }
}

impl Element for F64 {
    open spec fn element_type() -> DType {
        DType::Float64
    }

    closed spec fn decode(bytes: Seq<u8>) -> Self {
        F64 { bits: spec_u64_from_le_bytes(bytes) }
    }

    proof fn lemma_element(x: Self) {
        lemma_auto_spec_u64_to_from_le_bytes();
        assert(spec_u64_to_le_bytes(x.bits()).len() == 8);
    }

    fn dtype() -> (d: DType) {
        DType::Float64
    }

    fn get(bytes: &[u8], at: usize) -> (x: Self) {
        let n = bytes.len();
        F64 { bits: u64_from_le_bytes(slice_subrange(bytes, at, at + 8)) }
    }
}

/// The bytes of a row of values, one value after the other.
pub open spec fn encode_seq<T: Encode>(s: Seq<T>) -> Seq<u8>
    decreases s.len(),
{
    if s.len() == 0 {
        Seq::empty()
    } else {
        encode_seq(s.drop_last()) + s.last().encode()
    }
}

/// The values that `bytes` hold: as many as fit whole, in order.
pub open spec fn decode_seq<T: Element>(bytes: Seq<u8>) -> Seq<T> {
    Seq::new(
        (bytes.len() / T::width()) as nat,
        |i: int| T::decode(bytes.subrange(i * T::width(), (i + 1) * T::width())),
    )
}

/// A fixed-size row is written as its values, one after the other.
impl<T: Encode, const N: usize> Encode for [T; N] {
    open spec fn width() -> nat {
        N as nat * T::width()
    }

    open spec fn encode(self) -> Seq<u8> {
        encode_seq(self@)
    }

    proof fn lemma_encode_len(self) {
        lemma_encode_seq_len(self@);
    }

    fn put(&self, out: &mut Vec<u8>) {
        let mut i: usize = 0;
        while i < N
            invariant
                i <= N,
                self@.len() == N,
                out@ == old(out)@ + encode_seq(self@.take(i as int)),
            decreases N - i,
        {
            self[i].put(out);
            proof {
                lemma_encode_seq_push(self@.take(i as int), self@[i as int]);
                assert(self@.take(i as int).push(self@[i as int]) =~= self@.take(i + 1));
            }
            i = i + 1;
        }
        assert(self@.take(N as int) =~= self@);
    }
}

/// Writing one more value appends its bytes.
pub proof fn lemma_encode_seq_push<T: Encode>(s: Seq<T>, x: T)
    ensures
        encode_seq(s.push(x)) == encode_seq(s) + x.encode(),
{
    assert(s.push(x).drop_last() =~= s);
}

/// A row of `n` values takes `n` times the width of one.
pub proof fn lemma_encode_seq_len<T: Encode>(s: Seq<T>)
    ensures
        encode_seq(s).len() == s.len() * T::width(),
    decreases s.len(),
{
    if s.len() > 0 {
        lemma_encode_seq_len(s.drop_last());
        s.last().lemma_encode_len();
        assert(s.len() * T::width() == (s.len() - 1) * T::width() + T::width())
            by (nonlinear_arith);
    } else {
        assert(0 * T::width() == 0) by (nonlinear_arith);
    }
}

/// The bytes of a row, read between the places of its `i`-th value, are the
/// bytes of that value.
pub proof fn lemma_encode_seq_at<T: Encode>(s: Seq<T>, i: int)
    requires
        0 <= i < s.len(),
    ensures
        0 <= i * T::width() <= (i + 1) * T::width() <= encode_seq(s).len(),
        encode_seq(s).subrange(i * T::width(), (i + 1) * T::width()) == s[i].encode(),
    decreases s.len(),
{
    let w = T::width() as int;
    lemma_encode_seq_len(s);
    lemma_encode_seq_len(s.drop_last());
    s.last().lemma_encode_len();
    assert(0 <= i * w <= (i + 1) * w <= s.len() * w) by (nonlinear_arith)
        requires
            0 <= i < s.len(),
            0 <= w,
    ;
    assert((s.len() - 1) * w + w == s.len() * w) by (nonlinear_arith);
    if i == s.len() - 1 {
        assert(encode_seq(s).subrange(i * w, (i + 1) * w) =~= s[i].encode());
    } else {
        lemma_encode_seq_at(s.drop_last(), i);
        assert((i + 1) * w <= (s.len() - 1) * w) by (nonlinear_arith)
            requires
                i + 1 <= s.len() - 1,
                0 <= w,
        ;
        assert(encode_seq(s).subrange(i * w, (i + 1) * w) =~= encode_seq(
            s.drop_last(),
        ).subrange(i * w, (i + 1) * w));
    }
}

/// Reading back the bytes of a row of numbers gives the same row: nothing is
/// lost between a typed array and its bytes.
pub proof fn lemma_round_trip<T: Element>(s: Seq<T>)
    ensures
        decode_seq::<T>(encode_seq(s)) == s,
{
    let bytes = encode_seq(s);
    let w = T::width() as int;
    lemma_encode_seq_len(s);
    T::lemma_element(arbitrary());
    assert(w > 0);
    assert((s.len() * w) / w == s.len()) by (nonlinear_arith)
        requires
            w > 0,
    ;
    assert(decode_seq::<T>(bytes).len() == s.len());
    assert forall|i: int| 0 <= i < s.len() implies decode_seq::<T>(bytes)[i] == s[i] by {
        lemma_encode_seq_at(s, i);
        T::lemma_element(s[i]);
    }
    assert(decode_seq::<T>(bytes) =~= s);
}

/// Writes out a row of values.
pub fn encode_slice<T: Encode>(xs: &[T]) -> (r: Vec<u8>)
    ensures
        r@ == encode_seq(xs@),
{
    let mut out: Vec<u8> = Vec::new();
    let n = xs.len();
    let mut i: usize = 0;
    while i < n
        invariant
            n == xs@.len(),
            i <= n,
            out@ == encode_seq(xs@.take(i as int)),
        decreases n - i,
    {
        xs[i].put(&mut out);
        proof {
            lemma_encode_seq_push(xs@.take(i as int), xs@[i as int]);
            assert(xs@.take(i as int).push(xs@[i as int]) =~= xs@.take(i + 1));
        }
        i = i + 1;
    }
    assert(xs@.take(n as int) =~= xs@);
    out
}

/// Reads the numbers that `bytes` hold, as many as fit whole.
pub fn decode_slice<T: Element>(bytes: &[u8]) -> (r: Vec<T>)
    ensures
        r@ == decode_seq::<T>(bytes@),
{
    let d = T::dtype();
    let w = d.size_of_element::<T>();
    let len = bytes.len();
    let count = len / w;
    let mut out: Vec<T> = Vec::new();
    let mut i: usize = 0;
    let mut at: usize = 0;
    proof {
        assert(count * w <= len) by (nonlinear_arith)
            requires
                count == len / w,
                w > 0,
        ;
    }
    while i < count
        invariant
            w == T::width(),
            w > 0,
            len == bytes@.len(),
            count == len / w,
            count * w <= len,
            i <= count,
            at == i * w,
            out@.len() == i,
            forall|j: int|
                0 <= j < i ==> out@[j] == T::decode(
                    #[trigger] bytes@.subrange(j * T::width(), (j + 1) * T::width()),
                ),
        decreases count - i,
    {
        proof {
            assert((i + 1) * w <= count * w) by (nonlinear_arith)
                requires
                    i + 1 <= count,
                    w > 0,
            ;
            assert((i + 1) * w == i * w + w) by (nonlinear_arith);
        }
        let x = T::get(bytes, at);
        out.push(x);
        at = at + w;
        i = i + 1;
    }
    assert(out@ =~= decode_seq::<T>(bytes@));
    out
}

impl DType {
    /// Bytes per value of the number type `T`, whose element type this is.
    fn size_of_element<T: Element>(&self) -> (r: usize)
        requires
            *self == T::element_type(),
        ensures
            r == T::width(),
            r > 0,
    {
        proof {
            let x: T = arbitrary();
            T::lemma_element(x);
        }
        self.size_of()
    }
}

} // verus!
