//! Why a resolution gave no result.

use vstd::prelude::*;

verus! {

/// The runtime queries whose failure ends a resolution.
#[derive(Clone, Copy, Debug, PartialEq, Eq, Structural)]
pub enum QueryKind {
    /// The refresh of the runtime's action state over the active sets.
    Refresh,
    /// The list of the action's origins.
    Origins,
    /// The binding information of the action.
    BindingInfo,
}

/// Why a resolution gave no result.
#[derive(Clone, Copy, Debug, PartialEq, Eq, Structural)]
pub enum ResolveError {
    /// No action set is registered under the given name.
    UnknownActionSet,
    /// No action is registered under the given name.
    UnknownAction,
    /// The runtime is not connected.
    RuntimeUnavailable,
    /// The runtime reported an error for this query.
    QueryFailed(QueryKind),
    /// The lists of metadata do not all have one entry for each origin.
    Misaligned,
    /// A text buffer of the binding information is not valid text.
    DecodeFailed,
    /// The answer handed in does not belong to the pending query.
    UnexpectedResponse,
}

} // verus!
