//! Requests to the key-value store that holds the snapshots, and how they
//! are spread over its workers.
use vstd::prelude::*;

verus! {

/// A request to the store, keyed by submission id.
#[derive(Clone, Debug)]
pub enum KeyDbMessage {
    /// Store the serialized snapshot under the id, overwriting.
    Insert(u128, String),
    /// Read the serialized snapshot of the id.
    Get(u128),
}

/// The store's answer. A read that fails for any reason is `Missing`.
#[derive(Clone, Debug)]
pub enum KeyDbResponse {
    /// The value stored under the id.
    Data(String),
    /// Nothing is stored under the id, or the read failed.
    Missing,
    /// The write went through.
    Stored,
    /// The write failed; the store keeps serving.
    NotStored,
}

impl KeyDbResponse {
    /// Whether this acknowledges a durable write: only then may the new
    /// snapshot be broadcast.
    pub fn is_stored(&self) -> (r: bool)
        ensures
            r == (self is Stored),
    {
        match self {
            KeyDbResponse::Stored => true,
            _ => false,
        }
    }
}

impl KeyDbMessage {
    pub open spec fn spec_key(&self) -> u128 {
        match self {
            KeyDbMessage::Insert(id, _) => *id,
            KeyDbMessage::Get(id) => *id,
        }
    }

    /// The submission id the request is about.
    #[verifier::when_used_as_spec(spec_key)]
    pub fn key(&self) -> (r: u128)
        ensures
            r == self.spec_key(),
    {
        match self {
            KeyDbMessage::Insert(id, _) => *id,
            KeyDbMessage::Get(id) => *id,
        }
    }
}

/// The worker, out of `workers`, that serves every request on `id`. All
/// requests on one id go to one worker, which keeps them in order.
pub fn shard_of(id: u128, workers: usize) -> (r: usize)
    requires
        workers > 0,
    ensures
        r < workers,
        r == id % (workers as u128),
{
    (id % (workers as u128)) as usize
}

/// The worker that serves request `msg`.
pub fn route(msg: &KeyDbMessage, workers: usize) -> (r: usize)
    requires
        workers > 0,
    ensures
        r < workers,
        r == msg.spec_key() % (workers as u128),
{
    shard_of(msg.key(), workers)
}

} // verus!
