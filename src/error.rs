use vstd::prelude::*;

verus! {

/// Errors surfaced by session negotiation and the registry.
#[derive(Clone, Debug)]
pub enum Error {
    /// No registered backend could satisfy the query.
    NoMatchingDevice,
    /// A channel could not be set up, or a round trip over it failed.
    CommunicationError,
    /// A required feature was neither default-granted nor supported.
    UnsupportedFeature(String),
    /// An opaque failure reported by a device or graphics backend.
    BackendSpecific(String),
}

} // verus!
