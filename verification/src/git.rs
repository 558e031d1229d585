//! The provider of references that a query is expanded against.

use vstd::prelude::*;

pub mod cli;

verus! {

/// What a provider hands out for each reference: its name, or why that one
/// name could not be read.
pub type RefResult<E> = Result<String, E>;

/// A provider of reference names.
///
/// Nothing is promised of what an implementation returns; the expansion of
/// a query accounts for every outcome.
pub trait Git {
    /// Why a listing could not be started.
    type QueryInitError;

    /// Why one reference of a listing could not be read.
    type QueryResultIterError;

    /// Lists the local references, in the order in which they are to be
    /// emitted.
    fn locals(&self) -> Result<Vec<RefResult<Self::QueryResultIterError>>, Self::QueryInitError>;
}

} // verus!
