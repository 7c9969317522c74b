//! A replicated mutable-entity model for a peer-to-peer pong game.
//!
//! Logically mutable objects (games, player profiles) are represented as
//! chains of immutable, content-addressed records connected by index links.
//! The crate provides the record store model, the latest-version resolution
//! algorithm, the per-entity validation state machines that every peer runs
//! before accepting a write, anchor-based discovery indexes, and the
//! construction of ephemeral real-time signals.

use vstd::prelude::*;

pub mod chat;
pub mod entity;
pub mod game;
pub mod invitations;
pub mod laws;
pub mod player;
pub mod presence;
pub mod score;
pub mod signals;
pub mod statistics;
pub mod store;
pub mod types;
pub mod validation;

verus! {

/// Failure taxonomy for durable operations. Relay/transport failures are
/// swallowed at the relay boundary and never surface through this type.
#[derive(Clone, Copy, Debug, PartialEq, Eq, Structural)]
pub enum Error {
    /// A referenced hash or entity is absent from the store.
    NotFound,
    /// The operation is not legal for the entity's current lifecycle state.
    InvalidState,
    /// The author or caller does not match the required identity.
    Unauthorized,
    /// A uniqueness rule is violated (duplicate name, already in a game).
    Conflict,
    /// The referenced record does not carry the expected kind of payload.
    MalformedData,
}

impl Error {
    /// A short cause string, as surfaced to callers of the operation surface.
    pub fn cause(&self) -> (r: String)
        ensures
            r@ == self.spec_cause(),
    {
        proof {
            reveal_strlit("not found");
            reveal_strlit("invalid state");
            reveal_strlit("unauthorized");
            reveal_strlit("conflict");
            reveal_strlit("malformed data");
        }
        match self {
            Error::NotFound => "not found".to_owned(),
            Error::InvalidState => "invalid state".to_owned(),
            Error::Unauthorized => "unauthorized".to_owned(),
            Error::Conflict => "conflict".to_owned(),
            Error::MalformedData => "malformed data".to_owned(),
        }
    }

    /// The cause string of each failure kind.
    pub open spec fn spec_cause(self) -> Seq<char> {
        match self {
            Error::NotFound => "not found"@,
            Error::InvalidState => "invalid state"@,
            Error::Unauthorized => "unauthorized"@,
            Error::Conflict => "conflict"@,
            Error::MalformedData => "malformed data"@,
        }
    }
}

} // verus!
