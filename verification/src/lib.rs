//! Session-aware conversational gateway: a verified orchestration core.
//!
//! The crate holds the logic of the gateway: the error taxonomy with its
//! status/code mapping, the persisted message format and its codec, prompt
//! validation, history folding, the session transcript store, and the
//! tool-calling control loop. Network transport (HTTP, the model backend,
//! the redis deployment of the store) lives outside the library.

use vstd::prelude::*;

pub mod errors;
pub mod messages;
pub mod codec;
pub mod validate;
pub mod history;
pub mod store;
pub mod tools;
pub mod orchestrator;
pub mod api;

verus! {

/// Body of the health probe: the gateway answers this text when it is up.
pub fn health_body() -> (r: &'static str)
    ensures
        r@ == "OK"@,
{
    "OK"
}

} // verus!
