//! Resolution of the physical binding origins of a VR input action.
//!
//! The library holds the decisions of the resolver: looking up the handles of
//! an action set and an action by name, choosing the queries to put to the VR
//! runtime and their order, filtering and aligning what comes back, and
//! decoding the runtime's fixed-capacity text buffers. The caller performs the
//! queries and hands the answers back.

pub mod decode;
pub mod error;
pub mod laws;
pub mod record;
pub mod registry;
pub mod resolver;
pub mod status;
pub mod transcript;
