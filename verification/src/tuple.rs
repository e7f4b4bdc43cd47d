//! The bytes of a tuple.
use vstd::prelude::*;
use bytes::Bytes;

verus! {

#[verifier::external_type_specification]
#[verifier::external_body]
pub struct ExBytes(bytes::Bytes);

/// The bytes that a `bytes::Bytes` buffer holds, in order.
pub uninterp spec fn bytes_view(bytes: Bytes) -> Seq<u8>;

/// `Bytes::from` for a `Vec<u8>`: the buffer takes over the vector and holds
/// exactly its bytes, in the same order.
#[verifier::external_body]
pub(crate) fn bytes_from_vec(data: Vec<u8>) -> (bytes: Bytes)
    ensures
        bytes_view(bytes) == data@,
{
    Bytes::from(data)
}

/// `Clone::clone` of `Bytes`: the new handle shares the buffer, so it holds
/// the same bytes.
#[verifier::external_body]
pub(crate) fn bytes_clone(bytes: &Bytes) -> (copy: Bytes)
    ensures
        bytes_view(copy) == bytes_view(*bytes),
{
    bytes.clone()
}

/// `Bytes::len`: the number of bytes that the buffer holds.
#[verifier::external_body]
pub(crate) fn bytes_len(bytes: &Bytes) -> (len: usize)
    ensures
        len == bytes_view(*bytes).len(),
{
    bytes.len()
}

/// `AsRef<[u8]>::as_ref` of `Bytes`: the bytes that the buffer holds, as a slice.
#[verifier::external_body]
pub(crate) fn bytes_as_slice(bytes: &Bytes) -> (slice: &[u8])
    ensures
        slice@ == bytes_view(*bytes),
{
    bytes.as_ref()
}

/// The bytes of one row of a table.
#[derive(Debug)]
pub struct Tuple {
    data: Bytes,
}

impl View for Tuple {
    type V = Seq<u8>;

    closed spec fn view(&self) -> Seq<u8> {
        bytes_view(self.data)
    }
}

impl Tuple {
    pub fn new(data: Bytes) -> (tuple: Tuple)
        ensures
            tuple@ == bytes_view(data),
    {
        Tuple { data }
    }

    /// Makes a tuple that holds the given bytes.
    pub fn from_vec(data: Vec<u8>) -> (tuple: Tuple)
        ensures
            tuple@ == data@,
    {
        Tuple { data: bytes_from_vec(data) }
    }

    /// The tuple's bytes. This does not copy them: it returns another handle
    /// to the same buffer.
    pub fn data(&self) -> (data: Bytes)
        ensures
            bytes_view(data) == self@,
    {
        bytes_clone(&self.data)
    }

    /// The tuple's bytes as a slice.
    pub fn as_slice(&self) -> (slice: &[u8])
        ensures
            slice@ == self@,
    {
        bytes_as_slice(&self.data)
    }

    pub fn tuple_size(&self) -> (size: usize)
        ensures
            size == self@.len(),
    {
        bytes_len(&self.data)
    }
}

} // verus!
