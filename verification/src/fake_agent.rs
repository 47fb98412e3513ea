//! A stand-in for an agent: it greets, begins sessions, and answers every
//! prompt with the same words, after a question for permission if the prompt
//! says so.

use crate::codec::{parse_json, parsed};
use crate::hub::opt_value;
use crate::json::{obj, trees, Json, Tree};
use crate::model::{number, prompt_blocks, string, update_notice};
use crate::numeral::{decimal, to_decimal};
use crate::rpc::{request_message, result_message, rpc_notice, rpc_request, rpc_result};
use crate::server::{method_in, params_in};
use crate::text::{concat, contains, occurs, own, text_eq, text_or, trim, trimmed};
use vstd::prelude::*;

verus! {

/// A stand-in for an agent: its session, and the prompt that waits for
/// permission.
pub struct FakeAgent {
    sid: String,
    pending: Option<Json>,
}

/// A stand-in for an agent, as mathematics.
pub struct FakeState {
    pub sid: Seq<char>,
    pub pending: Option<Tree>,
}

impl View for FakeAgent {
    type V = FakeState;

    closed spec fn view(&self) -> FakeState {
        FakeState { sid: self.sid@, pending: opt_value(self.pending) }
    }
}

/// What a prompt's blocks say.
pub open spec fn blocks_text(params: Tree) -> Seq<char> {
    match params.get("prompt"@) {
        Some(Tree::Array(blocks)) => prompt_blocks(blocks),
        _ => Seq::empty(),
    }
}

/// What the stand-in says of itself.
pub open spec fn fake_introduction() -> Tree {
    obj().with("protocolVersion"@, number(1)).with(
        "agentInfo"@,
        obj().with("name"@, string("gtm-hub-fake-agent"@)).with("version"@, string("0.0.0"@)),
    ).with(
        "agentCapabilities"@,
        obj().with("loadSession"@, Tree::Bool(true)).with("resumeSession"@, Tree::Bool(true)),
    )
}

/// The words with which every prompt is answered.
pub open spec fn fake_words(sid: Seq<char>) -> Tree {
    update_notice(
        obj().with("sessionId"@, string(sid)).with(
            "update"@,
            obj().with("sessionUpdate"@, string("agent_message_chunk"@)).with(
                "content"@,
                obj().with("type"@, string("text"@)).with("text"@, string("hello from hub"@)),
            ),
        ),
    )
}

/// What a prompt is answered.
pub open spec fn fake_answer(sid: Seq<char>, id: Tree) -> Seq<Tree> {
    seq![
        fake_words(sid),
        result_message(id, obj().with("stopReason"@, string("end_turn"@))),
    ]
}

/// The stand-in's question for permission.
pub open spec fn fake_question(sid: Seq<char>) -> Tree {
    request_message(
        string("perm-1"@),
        "session/request_permission"@,
        obj().with("sessionId"@, string(sid)).with(
            "toolCall"@,
            obj().with("toolCallId"@, string("t1"@)).with("title"@, string("echo"@)),
        ),
    )
}

/// An answer, if one is wanted.
pub open spec fn fake_reply(id: Option<Tree>, result: Tree) -> Seq<Tree> {
    match id {
        Some(t) => seq![result_message(t, result)],
        None => Seq::empty(),
    }
}

impl FakeState {
    /// What a message does, and what is said to it.
    pub open spec fn told(self, msg: Tree) -> (FakeState, Seq<Tree>) {
        let method = method_in(msg);
        let id = msg.get("id"@);
        let params = params_in(msg);
        if self.pending is Some && msg.get("method"@) is None && id is Some {
            (FakeState { pending: None, ..self }, fake_answer(self.sid, self.pending->0))
        } else if method == "initialize"@ {
            (self, fake_reply(id, fake_introduction()))
        } else if method == "session/new"@ {
            (self, fake_reply(id, obj().with("sessionId"@, string(self.sid))))
        } else if method == "session/load"@ || method == "session/resume"@ {
            let sid = match params.get_str("sessionId"@) {
                Some(s) => s,
                None => self.sid,
            };
            (FakeState { sid, ..self }, fake_reply(id, obj().with("sessionId"@, string(sid))))
        } else if method == "session/prompt"@ {
            if occurs(blocks_text(params), "NEED_PERM"@) {
                (FakeState { pending: id, ..self }, seq![fake_question(self.sid)])
            } else {
                match id {
                    Some(t) => (self, fake_answer(self.sid, t)),
                    None => (self, Seq::empty()),
                }
            }
        } else if method == "session/cancel"@ {
            (self, Seq::empty())
        } else {
            (self, fake_reply(id, obj()))
        }
    }

    /// What a line does. A line that is not JSON does nothing.
    pub open spec fn read(self, line: Seq<char>) -> (FakeState, Seq<Tree>) {
        match parsed(line) {
            Some(msg) => if trimmed(line).len() == 0 {
                (self, Seq::empty())
            } else {
                self.told(msg)
            },
            None => (self, Seq::empty()),
        }
    }
}

/// What a prompt's blocks say.
fn blocks_said(params: &Json) -> (r: String)
    ensures
        r@ == blocks_text(params@),
{
    let mut out: String = String::new();
    proof {
        assert(out@ =~= Seq::empty());
    }
    if let Some(Json::Array(blocks)) = params.get("prompt") {
        proof {
            crate::json::lemma_array_view(*blocks);
        }
        let ghost all = trees(blocks@);
        let mut i: usize = 0;
        proof {
            assert(all.take(0) =~= Seq::empty());
        }
        while i < blocks.len()
            invariant
                i <= blocks@.len(),
                all == trees(blocks@),
                out@ == prompt_blocks(all.take(i as int)),
            decreases blocks@.len() - i,
        {
            proof {
                assert(all.take(i + 1).drop_last() =~= all.take(i as int));
                assert(all.take(i + 1).last() == blocks@[i as int]@);
                assert(out@ + Seq::<char>::empty() =~= out@);
            }
            if let Some(t) = blocks[i].get_str("text") {
                out.push_str(t);
            }
            i = i + 1;
        }
        proof {
            assert(all.take(i as int) =~= all);
        }
    }
    out
}

/// A list of one message.
fn one(msg: Json) -> (r: Vec<Json>)
    ensures
        trees(r@) == seq![msg@],
{
    let mut out: Vec<Json> = Vec::new();
    out.push(msg);
    proof {
        assert(trees(out@) =~= seq![msg@]);
    }
    out
}

/// No message.
fn nothing() -> (r: Vec<Json>)
    ensures
        trees(r@) == Seq::<Tree>::empty(),
{
    let out: Vec<Json> = Vec::new();
    proof {
        assert(trees(out@) =~= Seq::empty());
    }
    out
}

/// An answer, if one is wanted.
fn reply(id: Option<&Json>, result: Json) -> (r: Vec<Json>)
    ensures
        trees(r@) == fake_reply(
            match id {
                Some(j) => Some(j@),
                None => None,
            },
            result@,
        ),
{
    match id {
        Some(t) => one(rpc_result(t.copy(), result)),
        None => nothing(),
    }
}

/// What a prompt is answered.
fn finish_prompt(sid: &str, id: Json) -> (r: Vec<Json>)
    ensures
        trees(r@) == fake_answer(sid@, id@),
{
    let content: Json = Json::object().with("type", Json::text("text")).with(
        "text",
        Json::text("hello from hub"),
    );
    let update: Json = Json::object().with("sessionUpdate", Json::text("agent_message_chunk")).with(
        "content",
        content,
    );
    let words: Json = rpc_notice(
        "session/update",
        Json::object().with("sessionId", Json::text(sid)).with("update", update),
    );
    let end: Json = rpc_result(id, Json::object().with("stopReason", Json::text("end_turn")));
    let mut out: Vec<Json> = Vec::new();
    out.push(words);
    out.push(end);
    proof {
        assert(trees(out@) =~= fake_answer(sid@, id@));
    }
    out
}

/// What the stand-in says of itself.
fn introduce() -> (r: Json)
    ensures
        r@ == fake_introduction(),
{
    Json::object().with("protocolVersion", Json::Uint(1)).with(
        "agentInfo",
        Json::object().with("name", Json::text("gtm-hub-fake-agent")).with(
            "version",
            Json::text("0.0.0"),
        ),
    ).with(
        "agentCapabilities",
        Json::object().with("loadSession", Json::Bool(true)).with(
            "resumeSession",
            Json::Bool(true),
        ),
    )
}

/// The stand-in's question for permission.
fn question(sid: &str) -> (r: Json)
    ensures
        r@ == fake_question(sid@),
{
    let tool: Json = Json::object().with("toolCallId", Json::text("t1")).with(
        "title",
        Json::text("echo"),
    );
    rpc_request(
        Json::text("perm-1"),
        "session/request_permission",
        Json::object().with("sessionId", Json::text(sid)).with("toolCall", tool),
    )
}

impl FakeAgent {
    /// A stand-in in a process.
    pub fn new(pid: u32) -> (r: FakeAgent)
        ensures
            r@ == (FakeState { sid: "fake-"@ + decimal(pid as nat), pending: None }),
    {
        FakeAgent { sid: concat("fake-", to_decimal(pid as u64).as_str()), pending: None }
    }

    /// Takes a message.
    pub fn handle(&mut self, msg: &Json) -> (r: Vec<Json>)
        ensures
            (final(self)@, trees(r@)) == old(self)@.told(msg@),
    {
        proof {
            reveal_strlit("");
            assert(""@ =~= Seq::<char>::empty());
        }
        let id: Option<&Json> = msg.get("id");
        if self.pending.is_some() && msg.get("method").is_none() && id.is_some() {
            match self.pending.take() {
                Some(prompt) => {
                    return finish_prompt(self.sid.as_str(), prompt);
                },
                None => {},
            }
        }
        let method: &str = text_or(msg.get_str("method"), "");
        let params: Json = match msg.get("params") {
            Some(p) => p.copy(),
            None => Json::object(),
        };
        if text_eq(method, "initialize") {
            reply(id, introduce())
        } else if text_eq(method, "session/new") {
            reply(id, Json::object().with("sessionId", Json::text(self.sid.as_str())))
        } else if text_eq(method, "session/load") || text_eq(method, "session/resume") {
            if let Some(s) = params.get_str("sessionId") {
                self.sid = own(s);
            }
            reply(id, Json::object().with("sessionId", Json::text(self.sid.as_str())))
        } else if text_eq(method, "session/prompt") {
            if contains(blocks_said(&params).as_str(), "NEED_PERM") {
                self.pending = match id {
                    Some(t) => Some(t.copy()),
                    None => None,
                };
                one(question(self.sid.as_str()))
            } else {
                match id {
                    Some(t) => finish_prompt(self.sid.as_str(), t.copy()),
                    None => nothing(),
                }
            }
        } else if text_eq(method, "session/cancel") {
            nothing()
        } else {
            reply(id, Json::object())
        }
    }

    /// Takes a line.
    pub fn handle_line(&mut self, line: &str) -> (r: Vec<Json>)
        ensures
            (final(self)@, trees(r@)) == old(self)@.read(line@),
    {
        if trim(line).as_str().is_empty() {
            return nothing();
        }
        match parse_json(line) {
            Some(msg) => self.handle(&msg),
            None => nothing(),
        }
    }
}

} // verus!
