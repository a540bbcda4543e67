//! The buffer that takes in a request body piece by piece and turns away
//! a body that is longer than the service accepts.

use crate::error::{too_large_message, ErrorView, TypedError};
use vstd::prelude::*;

verus! {

/// A body in the making. The chunk that would take it over its limit is
/// not stored, what was stored before is let go, and every later chunk is
/// turned away too: a buffer that starts empty never holds more bytes than
/// its limit.
#[derive(Clone, Debug, PartialEq, Eq)]
pub struct BodyBuffer {
    limit: usize,
    bytes: Vec<u8>,
    refused: bool,
}

/// A buffer, as contracts speak of it.
pub struct BodyBufferView {
    pub limit: usize,
    pub bytes: Seq<u8>,
    pub refused: bool,
}

impl View for BodyBuffer {
    type V = BodyBufferView;

    closed spec fn view(&self) -> BodyBufferView {
        BodyBufferView { limit: self.limit, bytes: self.bytes@, refused: self.refused }
    }
}

impl BodyBufferView {
    /// Whether the buffer takes in a chunk of `count` bytes.
    pub open spec fn admits(self, count: nat) -> bool {
        !self.refused && self.bytes.len() + count <= self.limit
    }

    /// The buffer after `chunk` was handed to it.
    pub open spec fn fed(self, chunk: Seq<u8>) -> BodyBufferView {
        if self.admits(chunk.len()) {
            BodyBufferView { limit: self.limit, bytes: self.bytes + chunk, refused: false }
        } else {
            BodyBufferView { limit: self.limit, bytes: Seq::empty(), refused: true }
        }
    }

    /// The buffer after each of `chunks` was handed to it, in order.
    pub open spec fn fed_all(self, chunks: Seq<Seq<u8>>) -> BodyBufferView
        decreases chunks.len(),
    {
        if chunks.len() == 0 {
            self
        } else {
            self.fed_all(chunks.drop_last()).fed(chunks.last())
        }
    }
}

/// A body that arrives in chunks is stored whole if it is within the
/// limit, and turned away if it is longer, wherever the chunks are cut.
pub proof fn lemma_buffer_holds_bodies_within_limit(limit: usize, chunks: Seq<Seq<u8>>)
    ensures
        ({
            let start = BodyBufferView { limit, bytes: Seq::empty(), refused: false };
            let body = chunks.flatten();
            start.fed_all(chunks) == if body.len() <= limit {
                BodyBufferView { limit, bytes: body, refused: false }
            } else {
                BodyBufferView { limit, bytes: Seq::empty(), refused: true }
            }
        }),
    decreases chunks.len(),
{
    if chunks.len() > 0 {
        let front = chunks.drop_last();
        lemma_buffer_holds_bodies_within_limit(limit, front);
        assert(chunks =~= front.push(chunks.last()));
        front.lemma_flatten_push(chunks.last());
    }
}

impl BodyBuffer {
    /// An empty buffer that accepts up to `limit` bytes.
    pub fn new(limit: usize) -> (buffer: BodyBuffer)
        ensures
            buffer@ == (BodyBufferView { limit, bytes: Seq::empty(), refused: false }),
    {
        BodyBuffer { limit, bytes: Vec::new(), refused: false }
    }

    /// The number of bytes that are stored.
    pub fn len(&self) -> (n: usize)
        ensures
            n == self@.bytes.len(),
    {
        self.bytes.len()
    }

    /// Takes in the next chunk of the body. It is stored where the body
    /// stays within the limit with it; else the body is turned away.
    pub fn push(&mut self, chunk: &[u8]) -> (outcome: Result<(), TypedError>)
        ensures
            final(self)@ == old(self)@.fed(chunk@),
            final(self)@.bytes.len() <= final(self)@.limit,
            outcome is Ok <==> old(self)@.admits(chunk@.len()),
            outcome is Err ==> outcome->Err_0@ == ErrorView::PayloadTooLarge(too_large_message()),
    {
        let fits = match self.bytes.len().checked_add(chunk.len()) {
            Some(total) => total <= self.limit,
            None => false,
        };
        if self.refused || !fits {
            self.refused = true;
            self.bytes = Vec::new();
            Err(TypedError::too_large())
        } else {
            self.bytes.extend_from_slice(chunk);
            assert(self.bytes@ =~= old(self).bytes@ + chunk@);
            Ok(())
        }
    }

    /// Hands over the body, or reports that it was turned away.
    pub fn finish(self) -> (outcome: Result<Vec<u8>, TypedError>)
        ensures
            match outcome {
                Ok(bytes) => !self@.refused && bytes@ == self@.bytes,
                Err(error) => self@.refused && error@ == ErrorView::PayloadTooLarge(
                    too_large_message(),
                ),
            },
    {
        if self.refused {
            Err(TypedError::too_large())
        } else {
            Ok(self.bytes)
        }
    }
}

} // verus!
