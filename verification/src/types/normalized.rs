//! The provider-neutral shapes of chat messages, replies and stream deltas.
use vstd::prelude::*;

verus! {

/// One chat message.
#[derive(Debug)]
pub struct Message {
    pub role: String,
    pub content: String,
}

/// A provider's complete reply.
#[derive(Debug)]
pub struct NormalizedChatResponse {
    pub content: String,
    pub finish_reason: String,
}

/// One piece of a streamed reply.
#[derive(Debug)]
pub struct StreamChunk {
    pub content_delta: String,
}

} // verus!
