//! Bounded append-only accumulator for one scan response.
//!
//! The scan response arrives in chunks from a byte stream. The buffer
//! collects them verbatim up to a fixed capacity; an append that would not
//! fit fails whole and leaves the contents untouched, so a cycle can be
//! abandoned cleanly rather than truncated silently.

use vstd::prelude::*;
use vstd::string::StringSliceAdditionalSpecFns;
use vstd::utf8::valid_utf8;

verus! {

/// Error reported by the accumulator.
#[derive(Clone, Copy, PartialEq, Eq, Structural, Debug)]
pub enum BufferError {
    /// The chunk would push the contents past the fixed capacity.
    Overflow,
    /// The accumulated bytes are not valid text.
    TextDecode,
}

/// What one `append` leaves in a buffer of capacity `cap` that held
/// `contents`: the chunk is taken whole when it fits and not at all
/// otherwise.
pub open spec fn append_result(contents: Seq<u8>, chunk: Seq<u8>, cap: nat) -> Seq<u8> {
    if contents.len() + chunk.len() <= cap {
        contents + chunk
    } else {
        contents
    }
}

/// What a run of `append` calls, one per chunk in order, leaves behind.
pub open spec fn append_all(contents: Seq<u8>, chunks: Seq<Seq<u8>>, cap: nat) -> Seq<u8>
    decreases chunks.len(),
{
    if chunks.len() == 0 {
        contents
    } else {
        append_all(append_result(contents, chunks[0], cap), chunks.skip(1), cap)
    }
}

/// Total length of a sequence of chunks.
pub open spec fn total_len(chunks: Seq<Seq<u8>>) -> nat
    decreases chunks.len(),
{
    if chunks.len() == 0 {
        0
    } else {
        chunks[0].len() + total_len(chunks.skip(1))
    }
}

/// Concatenation of a sequence of chunks.
pub open spec fn concat_all(chunks: Seq<Seq<u8>>) -> Seq<u8>
    decreases chunks.len(),
{
    if chunks.len() == 0 {
        Seq::empty()
    } else {
        chunks[0] + concat_all(chunks.skip(1))
    }
}

/// Every append in the run fits at the moment it is made, so each one
/// succeeds.
pub open spec fn all_appends_fit(contents: Seq<u8>, chunks: Seq<Seq<u8>>, cap: nat) -> bool
    decreases chunks.len(),
{
    chunks.len() == 0 || (contents.len() + chunks[0].len() <= cap && all_appends_fit(
        contents + chunks[0],
        chunks.skip(1),
        cap,
    ))
}

/// A run of appends whose total length fits in the remaining capacity
/// succeeds chunk by chunk and accumulates the concatenation.
pub proof fn lemma_appends_within_capacity(contents: Seq<u8>, chunks: Seq<Seq<u8>>, cap: nat)
    requires
        contents.len() + total_len(chunks) <= cap,
    ensures
        all_appends_fit(contents, chunks, cap),
        append_all(contents, chunks, cap) == contents + concat_all(chunks),
    decreases chunks.len(),
{
    if chunks.len() == 0 {
        assert(contents + concat_all(chunks) =~= contents);
    } else {
        assert(contents.len() + chunks[0].len() <= cap);
        lemma_appends_within_capacity(contents + chunks[0], chunks.skip(1), cap);
        assert((contents + chunks[0]) + concat_all(chunks.skip(1)) =~= contents + concat_all(
            chunks,
        ));
    }
}

/// A buffer emptied by `clear` takes any single chunk up to its full
/// capacity in one append.
pub proof fn lemma_fresh_capacity_after_clear(chunk: Seq<u8>, cap: nat)
    requires
        chunk.len() <= cap,
    ensures
        append_result(Seq::empty(), chunk, cap) == chunk,
{
    assert(Seq::<u8>::empty() + chunk =~= chunk);
}

/// Fixed-capacity text accumulator with overflow detection.
pub struct Buffer {
    data: Vec<u8>,
    capacity: usize,
}

impl View for Buffer {
    type V = Seq<u8>;

    closed spec fn view(&self) -> Seq<u8> {
        self.data@
    }
}

impl Buffer {
    /// The contents never exceed the fixed capacity.
    pub open spec fn wf(&self) -> bool {
        self@.len() <= self.cap()
    }

    /// The capacity the buffer was made with.
    pub closed spec fn cap(&self) -> nat {
        self.capacity as nat
    }

    /// An empty buffer of the given capacity.
    pub fn new(capacity: usize) -> (r: Buffer)
        ensures
            r.wf(),
            r@ == Seq::<u8>::empty(),
            r.cap() == capacity,
    {
        Buffer { data: Vec::new(), capacity }
    }

    /// Current length of the contents.
    pub fn len(&self) -> (r: usize)
        ensures
            r == self@.len(),
    {
        self.data.len()
    }

    /// The fixed capacity.
    pub fn capacity(&self) -> (r: usize)
        ensures
            r == self.cap(),
    {
        self.capacity
    }

    /// Appends the chunk verbatim when it fits in the remaining capacity;
    /// otherwise fails with `Overflow` and leaves the contents unchanged.
    pub fn append(&mut self, chunk: &[u8]) -> (r: Result<(), BufferError>)
        requires
            old(self).wf(),
        ensures
            final(self).wf(),
            final(self).cap() == old(self).cap(),
            final(self)@ == append_result(old(self)@, chunk@, old(self).cap()),
            r is Ok <==> old(self)@.len() + chunk@.len() <= old(self).cap(),
            r is Err ==> r == Err::<(), BufferError>(BufferError::Overflow),
    {
        let n = self.data.len();
        if chunk.len() <= self.capacity - n {
            let mut i: usize = 0;
            while i < chunk.len()
                invariant
                    i <= chunk@.len(),
                    self.data@ == old(self).data@ + chunk@.take(i as int),
                    self.capacity == old(self).capacity,
                decreases chunk@.len() - i,
            {
                self.data.push(chunk[i]);
                assert(self.data@ =~= old(self).data@ + chunk@.take(i + 1));
                i += 1;
            }
            assert(self.data@ =~= old(self).data@ + chunk@);
            Ok(())
        } else {
            Err(BufferError::Overflow)
        }
    }

    /// The accumulated contents as raw bytes.
    pub fn bytes(&self) -> (r: &[u8])
        ensures
            r@ == self@,
    {
        self.data.as_slice()
    }

    /// The accumulated contents as text; fails with `TextDecode` when the
    /// bytes are not valid UTF-8.
    pub fn as_str(&self) -> (r: Result<&str, BufferError>)
        ensures
            r is Ok <==> valid_utf8(self@),
            r is Ok ==> r->Ok_0.spec_bytes() == self@,
            r is Err ==> r == Err::<&str, BufferError>(BufferError::TextDecode),
    {
        match decode_bytes(self.data.as_slice()) {
            Some(s) => Ok(s),
            None => Err(BufferError::TextDecode),
        }
    }

    /// Resets the contents to empty; the capacity stays.
    pub fn clear(&mut self)
        ensures
            final(self).wf(),
            final(self)@ == Seq::<u8>::empty(),
            final(self).cap() == old(self).cap(),
    {
        self.data.clear();
    }
}

/// Relies on `core::str::from_utf8`: it returns `Ok` exactly when the bytes
/// are valid UTF-8, and the returned slice is a view of those same bytes.
#[verifier::external_body]
fn decode_bytes(b: &[u8]) -> (r: Option<&str>)
    ensures
        r is Some <==> valid_utf8(b@),
        r is Some ==> r->0.spec_bytes() == b@,
{
    core::str::from_utf8(b).ok()
}

} // verus!
