//! What an interactive client and the hub hand each other when the client runs
//! a session.

use crate::hub::extract_prompt_text as prompt_said;
use crate::json::Json;
use crate::model::prompt_text;
use crate::text::or_empty;
use vstd::prelude::*;

verus! {

/// What the hub hands the client.
pub enum GtmHubInbound {
    Prompt { rpc_id: Json, session_id: String, text: String },
    Cancel { session_id: String },
}

/// What the client hands the hub.
pub enum GtmHubOutbound {
    Host { session_id: String, cwd: String, title: String },
    Unhost { session_id: String },
    SessionUpdate { session_id: String, params: Json },
    PromptResult { rpc_id: Json, result: Json, error: Option<String> },
}

/// What a prompt says, nothing if it says nothing.
pub fn extract_prompt_text(params: &Json) -> (r: String)
    ensures
        r@ == or_empty(prompt_text(params@)),
{
    match prompt_said(params) {
        Some(s) => s,
        None => String::new(),
    }
}

} // verus!
