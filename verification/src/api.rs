//! The request boundary of the gateway: the values that cross it and the
//! per-request decisions that do not touch the network.
//!
//! A request carries a prompt and an optional session id; a missing id is
//! replaced by a fresh one. The answered exchange is persisted as exactly
//! two messages, the user's prompt and the assistant's reply, in that
//! order. Transport, parsing of request bodies, and configuration loading
//! happen outside the library.

use vstd::prelude::*;
use vstd::string::*;
use crate::messages::{ChatMessage, MessageView, Role};

verus! {

/// A chat request: the prompt, and the session to continue, if any.
#[derive(Debug, Clone)]
pub struct ChatRequest {
    pub prompt: String,
    pub session_id: Option<String>,
}

/// A chat response: the answer, and the session it belongs to.
#[derive(Debug, Clone)]
pub struct ChatResponse {
    pub response: String,
    pub session_id: String,
}

/// The process configuration, built once at startup and passed along;
/// nothing in the library reads it from the environment.
#[derive(Debug, Clone)]
pub struct EnvConfig {
    pub port: u16,
    pub service_name: String,
    pub debug_level: String,
    pub project_id: String,
    pub redis_base_path: String,
    pub redis_url: String,
    pub session_ttl: u64,
    pub openai_api_key: String,
    pub anthropic_api_key: String,
    pub gemini_api_key: String,
}

impl Default for EnvConfig {
    /// The values used where the environment sets nothing.
    fn default() -> (r: EnvConfig)
        ensures
            r.port == 8080,
            r.service_name@ == "rustlant-agent-local"@,
            r.debug_level@ == "INFO"@,
            r.project_id@ == "local"@,
            r.redis_base_path@ == "LCL"@,
            r.redis_url@ == "redis://default@localhost:6379"@,
            r.session_ttl == 86400,
            r.openai_api_key@ == ""@,
            r.anthropic_api_key@ == ""@,
            r.gemini_api_key@ == ""@,
    {
        proof {
            reveal_strlit("");
            assert(""@ =~= Seq::<char>::empty());
        }
        EnvConfig {
            port: 8080,
            service_name: String::from_str("rustlant-agent-local"),
            debug_level: String::from_str("INFO"),
            project_id: String::from_str("local"),
            redis_base_path: String::from_str("LCL"),
            redis_url: String::from_str("redis://default@localhost:6379"),
            session_ttl: 86400,
            openai_api_key: String::new(),
            anthropic_api_key: String::new(),
            gemini_api_key: String::new(),
        }
    }
}

/// Relies on uuid::Uuid::new_v4 and its Display form: a fresh random
/// version-4 id, rendered hyphenated as 36 characters. Nothing more is
/// assumed of the value, which is random.
#[verifier::external_body]
fn fresh_uuid() -> (r: String)
    ensures
        r@.len() == 36,
{
    uuid::Uuid::new_v4().to_string()
}

/// The session the request belongs to: the id the caller sent, or a fresh
/// 36-character one where the caller sent none.
pub fn resolve_session_id(requested: Option<String>) -> (r: String)
    ensures
        match requested {
            Some(id) => r@ == id@,
            None => r@.len() == 36,
        },
{
    match requested {
        Some(id) => id,
        None => fresh_uuid(),
    }
}

/// The two messages an answered request appends to its session: the
/// user's prompt, then the assistant's reply.
pub fn exchange_messages(prompt: &str, response: &str) -> (r: Vec<ChatMessage>)
    ensures
        r.deep_view() =~= seq![
            (MessageView { role: Role::User, content: prompt@ }),
            (MessageView { role: Role::Assistant, content: response@ }),
        ],
{
    let mut out: Vec<ChatMessage> = Vec::new();
    out.push(ChatMessage::new(Role::User, prompt));
    out.push(ChatMessage::new(Role::Assistant, response));
    out
}

} // verus!
