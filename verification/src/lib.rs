//! Delta distribution protocol for a monitored collection of named
//! entities (subreddits): how state transitions are encoded, persisted,
//! filtered, rate-limited and published to a broadcast topic, and how the
//! current snapshot is reconstructed from the durable store.
//!
//! The store itself is an external key-value/pub-sub service; all traffic
//! to it is plain text computed and checked by the verified functions of
//! this crate.

use vstd::prelude::*;

pub mod codec;
pub mod limiter;
pub mod publish;
pub mod reddit;
pub mod sections;

verus! {

/// Broadcast topic every delta notification is published on.
pub const UPDATES_TOPIC: &'static str = "subreddit_updates";

/// Name of the keyed collection holding one encoded record per entity.
pub const SUBREDDIT_COLLECTION: &'static str = "subreddit";

/// Key under which the category label list is stored.
pub const SECTIONS_KEY: &'static str = "sections";

/// A stored or received payload does not parse as the expected structure.
#[derive(Clone, Copy, Debug, PartialEq, Eq, Structural)]
pub enum DecodeError {
    /// A record or delta payload is empty.
    EmptyPayload,
    /// The leading state tag of a record or delta is not a known state.
    UnknownStateTag,
    /// A record has no delimiter terminating the name field.
    MissingDelimiter,
    /// The label list text does not end a label with a delimiter.
    UnterminatedLabel,
}

/// An outgoing value cannot be serialized: a field holds the text
/// delimiter the encoding reserves.
#[derive(Clone, Copy, Debug, PartialEq, Eq, Structural)]
pub enum EncodeError {
    /// An entity name contains the delimiter character.
    NameContainsDelimiter,
    /// A category label contains the delimiter character.
    LabelContainsDelimiter,
}

} // verus!
