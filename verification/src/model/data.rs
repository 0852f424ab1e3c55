//! Type-erased storage for the bytes of a tensor or an attribute.
//!
//! A `Data` either holds its bytes, or names a region of memory that somebody
//! else keeps alive. It never looks inside such a region: it only carries the
//! address and the length to whoever is entitled to read there.

use vstd::prelude::*;
use super::element::{decode_seq, decode_slice, encode_seq, encode_slice, Element, Encode};
use super::tensor::Location;
use crate::text::{decimal, decimal_text, hex, hex_text};

verus! {

/// What a storage holds.
pub enum Content {
    /// Bytes that the storage owns.
    Owned(Seq<u8>),
    /// A region that the storage only points to: `length` bytes at `addr`.
    Borrowed { addr: usize, length: usize },
}

/// What a storage is: where its bytes live, and what it holds.
pub struct DataView {
    pub location: Location,
    pub content: Content,
}

impl DataView {
    /// A storage that holds nothing: a region of no bytes at address 0, on
    /// the host.
    pub open spec fn empty() -> DataView {
        DataView { location: Location::Host, content: Content::Borrowed { addr: 0, length: 0 } }
    }

    /// A storage on the host that owns `bytes`.
    pub open spec fn owned(bytes: Seq<u8>) -> DataView {
        DataView { location: Location::Host, content: Content::Owned(bytes) }
    }

    pub open spec fn is_owned(self) -> bool {
        self.content is Owned
    }

    /// The bytes that the storage owns; none where it only points to a region.
    pub open spec fn bytes(self) -> Seq<u8> {
        match self.content {
            Content::Owned(bytes) => bytes,
            Content::Borrowed { .. } => Seq::empty(),
        }
    }

    /// How many bytes the storage owns or points to.
    pub open spec fn len(self) -> nat {
        match self.content {
            Content::Owned(bytes) => bytes.len(),
            Content::Borrowed { length, .. } => length as nat,
        }
    }

    /// The address of the region pointed to; 0 where the storage owns its
    /// bytes.
    pub open spec fn addr(self) -> usize {
        match self.content {
            Content::Owned(_) => 0,
            Content::Borrowed { addr, .. } => addr,
        }
    }

    /// The storage written out: its location, its address in hexadecimal and
    /// its length.
    pub open spec fn text(self) -> Seq<char> {
        "{location: "@ + self.location.label() + ", ptr: 0x"@ + hex(self.addr() as nat)
            + ", length: "@ + decimal(self.len()) + "}"@
    }
}

#[derive(Debug)]
enum Buffer {
    Owned(Vec<u8>),
    Borrowed { addr: usize, length: usize },
}

/// A byte buffer with the place it lives in.
#[derive(Debug)]
pub struct Data {
    location: Location,
    buffer: Buffer,
}

impl View for Data {
    type V = DataView;

    closed spec fn view(&self) -> DataView {
        DataView {
            location: self.location,
            content: match self.buffer {
                Buffer::Owned(v) => Content::Owned(v@),
                Buffer::Borrowed { addr, length } => Content::Borrowed { addr, length },
            },
        }
    }
}

impl Clone for Data {
    fn clone(&self) -> (r: Self)
        ensures
            r@ == self@,
    {
        let buffer = match &self.buffer {
            Buffer::Owned(v) => Buffer::Owned(v.clone()),
            Buffer::Borrowed { addr, length } => Buffer::Borrowed { addr: *addr, length: *length },
        };
        Data { location: self.location, buffer }
    }
}

impl Data {
    /// A storage that holds nothing.
    pub fn new() -> (r: Self)
        ensures
            r@ == DataView::empty(),
    {
        Data { location: Location::Host, buffer: Buffer::Borrowed { addr: 0, length: 0 } }
    }

    /// A storage on the host that owns `vs`.
    pub fn from(vs: Vec<u8>) -> (r: Self)
        ensures
            r@ == DataView::owned(vs@),
    {
        Self::from_location(vs, Location::Host)
    }

    /// A storage on the host that owns the bytes of the values in `xs`.
    pub fn from_array<T: Encode>(xs: &[T]) -> (r: Self)
        ensures
            r@ == DataView::owned(encode_seq(xs@)),
    {
        Data::from(encode_slice(xs))
    }

    /// A storage on the host that owns the bytes of the values in `v`.
    pub fn from_vec<T: Encode>(v: Vec<T>) -> (r: Self)
        ensures
            r@ == DataView::owned(encode_seq(v@)),
    {
        Data::from(encode_slice(v.as_slice()))
    }

    /// A storage that points to `length` bytes at `addr`, which it does not
    /// own: whoever reads there has to know that the region is still alive.
    pub fn from_ptr(addr: usize, length: usize, location: Location) -> (r: Self)
        ensures
            r@ == (DataView { location, content: Content::Borrowed { addr, length } }),
    {
        Data { location, buffer: Buffer::Borrowed { addr, length } }
    }

    /// A storage at `location` that owns `vs`.
    pub fn from_location(vs: Vec<u8>, location: Location) -> (r: Self)
        ensures
            r@ == (DataView { location, content: Content::Owned(vs@) }),
    {
        let mut data = Data::new();
        data.set_data(vs);
        data.set_location(location);
        data
    }

    /// Gives up the bytes as numbers of type `T`, as many as fit whole.
    /// `None` where the storage owns no bytes.
    pub fn try_into<T: Element>(self) -> (r: Option<Vec<T>>)
        ensures
            r is Some == self@.is_owned(),
            r matches Some(v) ==> v@ == decode_seq::<T>(self@.bytes()),
    {
        match self.buffer {
            Buffer::Owned(v) => Some(decode_slice(v.as_slice())),
            Buffer::Borrowed { .. } => None,
        }
    }

    /// Makes the storage own `vs`. The location stays.
    pub fn set_data(&mut self, vs: Vec<u8>)
        ensures
            final(self)@ == (DataView {
                location: old(self)@.location,
                content: Content::Owned(vs@),
            }),
    {
        self.buffer = Buffer::Owned(vs);
    }

    pub fn set_location(&mut self, location: Location)
        ensures
            final(self)@ == (DataView { location, content: old(self)@.content }),
    {
        self.location = location;
    }

    pub fn location(&self) -> (r: Location)
        ensures
            r == self@.location,
    {
        self.location
    }

    /// How many bytes the storage owns or points to.
    pub fn len(&self) -> (r: usize)
        ensures
            r == self@.len(),
    {
        match &self.buffer {
            Buffer::Owned(v) => v.len(),
            Buffer::Borrowed { length, .. } => *length,
        }
    }

    /// The address of the region pointed to; 0 where the storage owns its
    /// bytes, which `owned_bytes` hands out.
    pub fn ptr(&self) -> (r: usize)
        ensures
            r == self@.addr(),
    {
        match &self.buffer {
            Buffer::Owned(_) => 0,
            Buffer::Borrowed { addr, .. } => *addr,
        }
    }

    /// The bytes that the storage owns, left in place.
    pub fn owned_bytes(&self) -> (r: Option<&[u8]>)
        ensures
            r is Some == self@.is_owned(),
            r matches Some(b) ==> b@ == self@.bytes(),
    {
        match &self.buffer {
            Buffer::Owned(v) => Some(v.as_slice()),
            Buffer::Borrowed { .. } => None,
        }
    }

    /// The storage written out, as in `{location: Host, ptr: 0x1f00, length:
    /// 16}`.
    pub fn to_string(&self) -> (r: String)
        ensures
            r@ == self@.text(),
    {
        let mut out = String::from_str("{location: ");
        out.append(self.location.to_label());
        out.append(", ptr: 0x");
        out.append(hex_text(self.ptr() as u64).as_str());
        out.append(", length: ");
        out.append(decimal_text(self.len() as u64).as_str());
        out.append("}");
        out
    }

    /// Gives up the bytes. `None` where the storage owns none.
    pub fn try_into_own_data(self) -> (r: Option<Vec<u8>>)
        ensures
            r is Some == self@.is_owned(),
            r matches Some(v) ==> v@ == self@.bytes(),
    {
        match self.buffer {
            Buffer::Owned(v) => Some(v),
            Buffer::Borrowed { .. } => None,
        }
    }
}

} // verus!
