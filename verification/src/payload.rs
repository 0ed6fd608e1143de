//! The request body handle: a take-once stream of byte chunks supplied
//! by the transport at context construction, plus a buffering hint.
use vstd::prelude::*;

verus! {

/// Default read-buffer capacity of the body stream, in bytes.
pub const DEFAULT_BUFFER_CAPACITY: usize = 32768;

/// The mathematical value of a payload: its chunk contents and its
/// read-buffer capacity.
pub struct PayloadV {
    pub chunks: Seq<Seq<u8>>,
    pub capacity: nat,
}

/// The views of a list of byte chunks.
pub open spec fn chunk_views(s: Seq<Vec<u8>>) -> Seq<Seq<u8>> {
    Seq::new(s.len(), |i: int| s[i]@)
}

/// A body stream handle. Once taken from its context it cannot be
/// obtained again; an exhausted marker takes its place.
pub struct Payload {
    chunks: Vec<Vec<u8>>,
    buffer_capacity: usize,
}

impl View for Payload {
    type V = PayloadV;

    closed spec fn view(&self) -> PayloadV {
        PayloadV { chunks: chunk_views(self.chunks@), capacity: self.buffer_capacity as nat }
    }
}

impl Payload {
    /// The exhausted stream: no chunks will ever come out of it.
    pub fn empty() -> (r: Payload)
        ensures
            r@.chunks.len() == 0,
            r@.capacity == DEFAULT_BUFFER_CAPACITY,
    {
        let r = Payload { chunks: Vec::new(), buffer_capacity: DEFAULT_BUFFER_CAPACITY };
        proof {
            assert(r@.chunks =~= Seq::<Seq<u8>>::empty());
        }
        r
    }

    /// A stream over the given chunks, with the default buffer capacity.
    pub fn from_chunks(chunks: Vec<Vec<u8>>) -> (r: Payload)
        ensures
            r@.chunks == chunk_views(chunks@),
            r@.capacity == DEFAULT_BUFFER_CAPACITY,
    {
        Payload { chunks, buffer_capacity: DEFAULT_BUFFER_CAPACITY }
    }

    /// Whether the stream has no data at all.
    pub fn is_empty(&self) -> (r: bool)
        ensures
            r == (self@.chunks.len() == 0),
    {
        self.chunks.len() == 0
    }

    /// How many chunks remain in the stream.
    pub fn chunk_count(&self) -> (r: usize)
        ensures
            r == self@.chunks.len(),
    {
        self.chunks.len()
    }

    /// Read one chunk without consuming it.
    pub fn chunk_at(&self, i: usize) -> (r: &Vec<u8>)
        requires
            i < self@.chunks.len(),
        ensures
            r@ == self@.chunks[i as int],
    {
        &self.chunks[i]
    }

    /// Record a buffering hint for the transport that fills the stream.
    pub fn set_read_buffer_capacity(&mut self, cap: usize)
        ensures
            final(self)@.chunks == old(self)@.chunks,
            final(self)@.capacity == cap,
    {
        self.buffer_capacity = cap;
    }

    /// The current buffering hint.
    pub fn read_buffer_capacity(&self) -> (r: usize)
        ensures
            r == self@.capacity,
    {
        self.buffer_capacity
    }
}

} // verus!
