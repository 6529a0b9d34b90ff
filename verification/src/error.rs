//! What can go wrong, by kind.

use vstd::prelude::*;

verus! {

/// A mapping entry of the configuration that does not follow the grammar.
/// Such an entry is passed over; the others are still read.
#[derive(Clone, Copy, Debug, PartialEq, Eq)]
pub enum ConfigParseError {
    /// Fewer than two fields, more than four, or options that do not fit together.
    FieldCount,
    /// The first field is not an unsigned 64-bit number.
    SourceId,
    /// The second field is not an unsigned 64-bit number.
    DestinationId,
}

/// A command names a source that no mapping exists for.
#[derive(Clone, Copy, Debug, PartialEq, Eq)]
pub struct NotBound {
    pub source_id: u64,
}

/// A replay of the source is under way already; the new request is dropped.
#[derive(Clone, Copy, Debug, PartialEq, Eq)]
pub struct AlreadyRunning {
    pub source_id: u64,
}

/// The address given for impersonation does not have the shape of one.
#[derive(Clone, Copy, Debug, PartialEq, Eq)]
pub struct InvalidEndpoint;

/// A send or a fetch failed. After a recoverable failure another way of
/// sending may be tried; a fatal one ends the attempt.
#[derive(Clone, Copy, Debug, PartialEq, Eq)]
pub enum TransportError {
    Recoverable,
    Fatal,
}

} // verus!
