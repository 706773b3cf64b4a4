//! A verified HTTP stub-server core: a stub data model, a request-matching
//! engine, a response resolver, a structural verification comparator, and the
//! capture-to-stub pipeline of a recording proxy.

pub mod cli;
pub mod engine;
pub mod json;
pub mod laws;
pub mod matcher;
pub mod model;
pub mod pattern;
pub mod record;
pub mod repository;
pub mod resolve;
pub mod template;
pub mod text;
pub mod verify;

use vstd::prelude::*;

verus! {

/// Smaller priority value means higher precedence among matching stubs.
pub const DEFAULT_PRIORITY: u8 = 5;

} // verus!
