//! An interactive SSH host launcher: configuration parsing, host registry,
//! fuzzy search, command templates and the session state machine.
use vstd::prelude::*;

pub mod text;
pub mod host;
pub mod config;
pub mod registry;
pub mod search;
pub mod template;
pub mod session;

verus! {

} // verus!
