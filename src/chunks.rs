//! The byte containers of the `bytes` and `chunked_bytes` crates, as the
//! library uses them: a copied slice, and a rope of such slices.
use vstd::prelude::*;

verus! {

#[verifier::external_type_specification]
#[verifier::external_body]
pub struct ExBytes(bytes::Bytes);

#[verifier::external_type_specification]
#[verifier::external_body]
pub struct ExChunkedBytes(chunked_bytes::ChunkedBytes);

/// The bytes that a `Bytes` handle refers to.
pub uninterp spec fn bytes_contents(b: bytes::Bytes) -> Seq<u8>;

/// The chunks of a `ChunkedBytes`, in the order in which `into_chunks`
/// yields them.
pub uninterp spec fn chunks_of(c: chunked_bytes::ChunkedBytes) -> Seq<Seq<u8>>;

/// Relies on `bytes::Bytes::copy_from_slice`: a new handle to a copy of the
/// slice.
#[verifier::external_body]
pub(crate) fn copy_from_slice(data: &[u8]) -> (r: bytes::Bytes)
    ensures
        bytes_contents(r) == data@,
{
    bytes::Bytes::copy_from_slice(data)
}

/// Relies on `chunked_bytes::ChunkedBytes::with_profile`: a container with no
/// chunks and an empty staging buffer. The capacity is only reserved.
#[verifier::external_body]
pub(crate) fn with_profile(chunk_size: usize, chunking_capacity: usize) -> (r:
    chunked_bytes::ChunkedBytes)
    requires
        chunking_capacity <= i32::MAX,
    ensures
        chunks_of(r) == Seq::<Seq<u8>>::empty(),
{
    chunked_bytes::ChunkedBytes::with_profile(chunk_size, chunking_capacity)
}

/// Relies on `chunked_bytes::ChunkedBytes::put_bytes`: an empty slice is
/// ignored; any other becomes the next chunk, after whatever was staged.
#[verifier::external_body]
pub(crate) fn put_bytes(c: &mut chunked_bytes::ChunkedBytes, chunk: bytes::Bytes)
    ensures
        chunks_of(*final(c)) == if bytes_contents(chunk).len() == 0 {
            chunks_of(*old(c))
        } else {
            chunks_of(*old(c)).push(bytes_contents(chunk))
        },
{
    c.put_bytes(chunk)
}

/// Relies on `chunked_bytes::ChunkedBytes::into_chunks`: the chunks in order,
/// each copied out of its `Bytes` handle into a vector.
#[verifier::external_body]
pub(crate) fn into_chunk_vecs(c: chunked_bytes::ChunkedBytes) -> (r: Vec<Vec<u8>>)
    ensures
        r@.len() == chunks_of(c).len(),
        forall|i: int| 0 <= i < r@.len() ==> (#[trigger] r@[i])@ == chunks_of(c)[i],
{
    c.into_chunks().map(Vec::from).collect()
}

} // verus!
