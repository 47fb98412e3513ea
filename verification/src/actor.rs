//! One agent process per session: what it is sent, and what is made of what it
//! says.

use crate::codec::{json_text, parse_json, parsed, printed};
use crate::frame::MAX_FRAME;
use crate::hub::{opt_value, ActorCmd, Hub, Waiting};
use crate::json::{obj, same, Json, Tree};
use crate::model::{naming, number, string, Cmd, HubState, Start, VERSION, Waiter};
use crate::order::views;
use crate::rpc::{
    error_message, message, notice_message, request_message, result_message, rpc_error, rpc_notice,
    rpc_request, rpc_result, Fault, RpcError,
};
use crate::sessions::{disk_title, lookup_title, opt_stored, DiskSession, Stored};
use crate::table::{
    lemma_filter_none, lemma_filter_step, lemma_filter_unique, lemma_take_more, lookup, pairs, put,
    without, Table,
};
use crate::text::{
    ascii_lower, begins, concat, concat3, contains, filled, occurs, opt_str, opt_text, or_empty,
    or_text, own, strip_prefix, text_eq, text_or, texts, trim, trimmed,
};
use std::collections::VecDeque;
use vstd::prelude::*;
use vstd::utf8::{decode_utf8, valid_utf8};

verus! {

/// The code of a failure to start or reach an agent.
pub const SPAWN_FAILED: i64 = -32011;

/// The code of an answer that came too late or may not count.
pub const ALREADY_RESOLVED: i64 = -32013;

/// The method that an agent knows a client's method by.
pub open spec fn agent_method(method: Seq<char>) -> Seq<char> {
    if begins(method, "x.ai/"@) {
        "_x.ai/"@ + method.skip("x.ai/"@.len() as int)
    } else {
        method
    }
}

/// The method that an agent knows a client's method by.
pub fn to_agent_method(method: &str) -> (r: String)
    ensures
        r@ == agent_method(method@),
{
    match strip_prefix(method, "x.ai/") {
        Some(rest) => concat("_x.ai/", rest.as_str()),
        None => own(method),
    }
}

/// A message with another id, and with the mark of the protocol.
pub open spec fn with_id(msg: Tree, id: Tree) -> Tree {
    if msg is Object {
        if msg.get("jsonrpc"@) is None {
            msg.with("id"@, id).with("jsonrpc"@, string("2.0"@))
        } else {
            msg.with("id"@, id)
        }
    } else {
        msg
    }
}

/// A message with another id, and with the mark of the protocol.
pub fn attach_id(msg: &Json, id: Json) -> (r: Json)
    ensures
        r@ == with_id(msg@, id@),
{
    if msg.is_object() {
        let changed: Json = msg.copy().with("id", id);
        if msg.get("jsonrpc").is_none() {
            changed.with("jsonrpc", Json::text("2.0"))
        } else {
            changed
        }
    } else {
        msg.copy()
    }
}

/// The lower case of a text, by Unicode.
pub uninterp spec fn lowercase(s: Seq<char>) -> Seq<char>;

/// `str::to_lowercase`: a function of the text alone. Of a text in ASCII it is
/// the text with every capital letter replaced by the small one.
#[verifier::external_body]
fn to_lower(s: &str) -> (r: String)
    ensures
        r@ == lowercase(s@),
        vstd::utf8::is_ascii_chars(s@) ==> r@ == ascii_lower(s@),
{
    s.to_lowercase()
}

/// Whether a tool's description in lower case names something that cannot be
/// undone.
pub open spec fn names_danger(lower: Seq<char>) -> bool {
    ||| occurs(lower, "delete"@)
    ||| occurs(lower, "force"@)
    ||| occurs(lower, "push"@)
    ||| occurs(lower, "wipe"@)
    ||| occurs(lower, "drop "@)
    ||| occurs(lower, "remove"@)
    ||| occurs(lower, "rm -rf"@)
}

/// Whether a tool's description in lower case names something that cannot be
/// undone.
pub fn tells_danger(lower: &str) -> (r: bool)
    ensures
        r == names_danger(lower@),
{
    contains(lower, "delete") || contains(lower, "force") || contains(lower, "push") || contains(
        lower,
        "wipe",
    ) || contains(lower, "drop ") || contains(lower, "remove") || contains(lower, "rm -rf")
}

/// How a question for permission describes the tool.
pub open spec fn tool_description(params: Tree) -> Seq<char> {
    let title = match params.get_in("toolCall"@, "title"@) {
        Some(t) => or_empty(t.as_text()),
        None => Seq::empty(),
    };
    let kind = match params.get_in("toolCall"@, "kind"@) {
        Some(t) => or_empty(t.as_text()),
        None => Seq::empty(),
    };
    title + " "@ + kind
}

/// Whether a question for permission is about something that cannot be undone.
pub open spec fn dangerous(params: Tree) -> bool {
    names_danger(lowercase(tool_description(params)))
}

/// The text of an optional value, or nothing.
fn text_at<'a>(params: &'a Json, outer: &str, inner: &str) -> (r: &'a str)
    ensures
        r@ == match params@.get_in(outer@, inner@) {
            Some(t) => or_empty(t.as_text()),
            None => Seq::empty(),
        },
{
    proof {
        reveal_strlit("");
        assert(""@ =~= Seq::<char>::empty());
    }
    match params.get_in(outer, inner) {
        Some(t) => text_or(t.as_str(), ""),
        None => "",
    }
}

/// Whether a question for permission is about something that cannot be undone.
pub fn is_dangerous_permission(params: &Json) -> (r: bool)
    ensures
        r == dangerous(params@),
{
    let title: &str = text_at(params, "toolCall", "title");
    let kind: &str = text_at(params, "toolCall", "kind");
    let blob: String = concat3(title, " ", kind);
    tells_danger(to_lower(blob.as_str()).as_str())
}

/// What an agent's output is read as.
pub enum Line {
    /// Nothing of use.
    Skip,
    /// The end of what is read: the agent is gone, or says too much at once.
    End(String),
    /// A message.
    Message(Json),
}

/// What an agent's output is read as, as mathematics.
pub enum Heard {
    Skip,
    End(Seq<char>),
    Message(Tree),
}

impl View for Line {
    type V = Heard;

    open spec fn view(&self) -> Heard {
        match self {
            Line::Skip => Heard::Skip,
            Line::End(s) => Heard::End(s@),
            Line::Message(j) => Heard::Message(j@),
        }
    }
}

/// The text that std makes of bytes, whatever they are.
pub uninterp spec fn lossy(bytes: Seq<u8>) -> Seq<char>;

/// `String::from_utf8_lossy`: the text of bytes, with what is no UTF-8
/// replaced. It is a function of the bytes alone, and of valid UTF-8 the text
/// that it encodes.
#[verifier::external_body]
fn lossy_text(bytes: &Vec<u8>) -> (r: String)
    ensures
        r@ == lossy(bytes@),
        valid_utf8(bytes@) ==> r@ == decode_utf8(bytes@),
{
    String::from_utf8_lossy(bytes).into_owned()
}

/// What an agent's line is read as, given its text.
pub open spec fn heard_text(text: Seq<char>) -> Heard {
    if trimmed(text).len() == 0 {
        Heard::Skip
    } else {
        match parsed(trimmed(text)) {
            Some(t) => Heard::Message(t),
            None => Heard::Skip,
        }
    }
}

/// What an agent's line is read as.
pub open spec fn heard(bytes: Seq<u8>) -> Heard {
    if bytes.len() == 0 {
        Heard::End("agent closed stdout"@)
    } else if bytes.len() > MAX_FRAME {
        Heard::End("agent line too large"@)
    } else {
        heard_text(lossy(bytes))
    }
}

/// What an agent's line is read as, given its text.
pub fn read_text(text: &str) -> (r: Line)
    ensures
        r@ == heard_text(text@),
{
    let t: String = trim(text);
    if t.as_str().is_empty() {
        Line::Skip
    } else {
        match parse_json(t.as_str()) {
            Some(j) => Line::Message(j),
            None => Line::Skip,
        }
    }
}

/// What an agent's line is read as: all the bytes up to the end of the line,
/// none if the agent is gone.
pub fn read_msg(bytes: &Vec<u8>) -> (r: Line)
    ensures
        r@ == heard(bytes@),
{
    if bytes.len() == 0 {
        Line::End(own("agent closed stdout"))
    } else if bytes.len() > MAX_FRAME as usize {
        Line::End(own("agent line too large"))
    } else {
        read_text(lossy_text(bytes).as_str())
    }
}

/// The line by which an agent is sent a message.
pub open spec fn agent_line(msg: Tree) -> Seq<char> {
    printed(msg) + "\n"@
}

/// The line by which an agent is sent a message.
pub fn write_msg(msg: &Json) -> (r: String)
    ensures
        r@ == agent_line(msg@),
{
    concat(json_text(msg).as_str(), "\n")
}

/// A request that an agent has not answered yet.
pub struct Pending {
    client_id: u64,
    rpc_id: Json,
    prompt: bool,
}

/// A request that an agent has not answered yet, as mathematics.
pub struct Owed {
    pub client: u64,
    pub id: Tree,
    pub prompt: bool,
}

impl View for Pending {
    type V = Owed;

    closed spec fn view(&self) -> Owed {
        Owed { client: self.client_id, id: self.rpc_id@, prompt: self.prompt }
    }
}

/// A prompt that waits for the one before it to end.
pub struct QueuedPrompt {
    client_id: u64,
    rpc_id: Json,
    params: Json,
}

/// A prompt that waits, as mathematics.
pub struct Queued {
    pub client: u64,
    pub id: Tree,
    pub params: Tree,
}

impl View for QueuedPrompt {
    type V = Queued;

    closed spec fn view(&self) -> Queued {
        Queued { client: self.client_id, id: self.rpc_id@, params: self.params@ }
    }
}

/// A question for permission, and whom it was put to.
pub struct PermState {
    agent_id: Json,
    session_id: String,
    client_ids: Table<String, u64>,
    resolved: bool,
    dangerous: bool,
}

/// A question for permission, as mathematics.
pub struct Question {
    pub agent_id: Tree,
    pub sid: Seq<char>,
    pub asked: Seq<(Seq<char>, u64)>,
    pub resolved: bool,
    pub dangerous: bool,
}

impl View for PermState {
    type V = Question;

    closed spec fn view(&self) -> Question {
        Question {
            agent_id: self.agent_id@,
            sid: self.session_id@,
            asked: self.client_ids@,
            resolved: self.resolved,
            dangerous: self.dangerous,
        }
    }
}

/// A request on its way to an agent.
pub struct Forward {
    agent_id: i64,
    client_id: u64,
    rpc_id: Json,
    kind: Passage,
}

/// Why a request is on its way: a prompt that came just now, one that had
/// waited, a request to stop, or anything else.
#[derive(Clone, Copy, PartialEq, Eq, Structural, Debug)]
pub enum Passage {
    Prompt,
    NextPrompt,
    Cancel,
    Other,
}

/// A request on its way to an agent, as mathematics.
pub struct Passing {
    pub agent_id: i64,
    pub client: u64,
    pub id: Tree,
    pub kind: Passage,
}

impl View for Forward {
    type V = Passing;

    closed spec fn view(&self) -> Passing {
        Passing {
            agent_id: self.agent_id,
            client: self.client_id,
            id: self.rpc_id@,
            kind: self.kind,
        }
    }
}

/// What an actor does next.
pub enum Step {
    /// Waits for what comes.
    Idle,
    /// Ends.
    Stop,
    /// Sends the agent a message, and goes on whether it arrives or not.
    Write(Json),
    /// Sends the agent a message, and takes note of whether it arrived.
    Forward(Json, Forward),
}

/// What an actor does next, as mathematics.
pub enum Move {
    Idle,
    Stop,
    Write(Tree),
    Forward(Tree, Passing),
}

impl View for Step {
    type V = Move;

    open spec fn view(&self) -> Move {
        match self {
            Step::Idle => Move::Idle,
            Step::Stop => Move::Stop,
            Step::Write(j) => Move::Write(j@),
            Step::Forward(j, f) => Move::Forward(j@, f@),
        }
    }
}

/// The actor of a session.
pub struct Actor {
    sid: String,
    next_id: i64,
    pending: Table<i64, Pending>,
    prompt_queue: VecDeque<QueuedPrompt>,
    prompt_inflight: bool,
    perm: Option<PermState>,
}

/// The actor of a session, as mathematics.
pub struct ActorState {
    pub sid: Seq<char>,
    pub next_id: i64,
    pub pending: Seq<(i64, Owed)>,
    pub queue: Seq<Queued>,
    pub inflight: bool,
    pub perm: Option<Question>,
}

impl View for Actor {
    type V = ActorState;

    closed spec fn view(&self) -> ActorState {
        ActorState {
            sid: self.sid@,
            next_id: self.next_id,
            pending: self.pending@,
            queue: views(self.prompt_queue@),
            inflight: self.prompt_inflight,
            perm: match self.perm {
                Some(p) => Some(p@),
                None => None,
            },
        }
    }
}

/// The answer to a question for permission that nobody was there for.
pub open spec fn cancelled() -> Tree {
    obj().with("outcome"@, obj().with("outcome"@, string("cancelled"@)))
}

/// The notice that a question for permission is settled.
pub open spec fn settled_notice(details: Tree) -> Tree {
    notice_message("gtm/permission.resolved"@, details)
}

/// A question for permission put to clients, each under an id of its own.
pub open spec fn asked_each(
    h: HubState,
    sid: Seq<char>,
    params: Tree,
    clients: Seq<u64>,
) -> (HubState, Seq<(Seq<char>, u64)>)
    decreases clients.len(),
{
    if clients.len() == 0 {
        (h, Seq::empty())
    } else {
        let (before, asked) = asked_each(h, sid, params, clients.drop_last());
        let hid = before.perm_id();
        (
            before.perm_taken().routed(hid, sid).sent(
                clients.last(),
                request_message(string(hid), "session/request_permission"@, params),
            ),
            put(asked, hid, clients.last()),
        )
    }
}

/// Those told that their answer comes too late: all who were asked but one.
pub open spec fn told_late(
    h: HubState,
    asked: Seq<(Seq<char>, u64)>,
    winner: Seq<char>,
) -> HubState
    decreases asked.len(),
{
    if asked.len() == 0 {
        h
    } else {
        let before = told_late(h, asked.drop_last(), winner);
        let (hid, client) = asked.last();
        if hid == winner {
            before
        } else {
            before.sent(
                client,
                error_message(string(hid), ALREADY_RESOLVED as int, "already_resolved"@),
            )
        }
    }
}

/// Those told that their requests failed.
pub open spec fn told_closed(h: HubState, pending: Seq<(i64, Owed)>, text: Seq<char>) -> HubState
    decreases pending.len(),
{
    if pending.len() == 0 {
        h
    } else {
        let p = pending.last().1;
        told_closed(h, pending.drop_last(), text).sent(
            p.client,
            error_message(p.id, SPAWN_FAILED as int, text),
        )
    }
}

impl ActorState {
    /// A new actor, whose next message to the agent has a number.
    pub open spec fn start(sid: Seq<char>, next_id: i64) -> ActorState {
        ActorState {
            sid,
            next_id,
            pending: Seq::empty(),
            queue: Seq::empty(),
            inflight: false,
            perm: None,
        }
    }

    /// With a request on its way to the agent.
    pub open spec fn passing(
        self,
        client: u64,
        id: Tree,
        method: Seq<char>,
        params: Tree,
        kind: Passage,
    ) -> (ActorState, Move) {
        let msg = if method == "session/cancel"@ {
            notice_message("session/cancel"@, params)
        } else {
            request_message(number(self.next_id as int), agent_method(method), params)
        };
        (
            ActorState { next_id: (self.next_id + 1) as i64, ..self },
            Move::Forward(msg, Passing { agent_id: self.next_id, client, id, kind }),
        )
    }

    /// What a client's request does.
    pub open spec fn asked(
        self,
        client: u64,
        id: Tree,
        method: Seq<char>,
        params: Tree,
    ) -> (ActorState, Move) {
        if method == "session/prompt"@ {
            if self.inflight {
                (
                    ActorState { queue: self.queue.push(Queued { client, id, params }), ..self },
                    Move::Idle,
                )
            } else {
                ActorState { inflight: true, ..self }.passing(
                    client,
                    id,
                    method,
                    params,
                    Passage::Prompt,
                )
            }
        } else if method == "session/cancel"@ {
            self.passing(client, id, method, params, Passage::Cancel)
        } else {
            self.passing(client, id, method, params, Passage::Other)
        }
    }

    /// With a request noted that the agent got.
    pub open spec fn owing(self, f: Passing, prompt: bool) -> ActorState {
        ActorState {
            pending: put(self.pending, f.agent_id, Owed { client: f.client, id: f.id, prompt }),
            ..self
        }
    }

    /// What follows once a request was sent to the agent, or could not be.
    pub open spec fn passed(
        self,
        h: HubState,
        f: Passing,
        failure: Option<Seq<char>>,
    ) -> (ActorState, HubState) {
        match failure {
            Some(text) => {
                let told = h.sent(f.client, error_message(f.id, SPAWN_FAILED as int, text));
                match f.kind {
                    Passage::Prompt => (ActorState { inflight: false, ..self }, told),
                    Passage::NextPrompt => (self, h),
                    _ => (self, told),
                }
            },
            None => match f.kind {
                Passage::Cancel => (
                    ActorState {
                        pending: self.pending.filter(|e: (i64, Owed)| !same(e.1.id, f.id)),
                        ..self
                    },
                    h.sent(f.client, result_message(f.id, obj())),
                ),
                Passage::Other => (self.owing(f, false), h),
                _ => (self.owing(f, true), h),
            },
        }
    }

    /// What a client's answer to a question for permission does.
    pub open spec fn answered(
        self,
        h: HubState,
        id: Tree,
        result: Option<Tree>,
        error: Option<Tree>,
    ) -> (ActorState, HubState, Move) {
        let key = or_empty(id.as_text());
        match self.perm {
            None => (self, h, Move::Idle),
            Some(q) => match lookup(q.asked, key) {
                None => (self, h, Move::Idle),
                Some(client) => if q.resolved {
                    (self, h, Move::Idle)
                } else if q.dangerous && h.on_lan(client) {
                    (
                        self,
                        h.sent(
                            client,
                            error_message(
                                id,
                                ALREADY_RESOLVED as int,
                                "dangerous tools need a local Mac/TUI confirmation"@,
                            ),
                        ),
                        Move::Idle,
                    )
                } else {
                    let reply = match (result, error) {
                        (Some(r), _) => result_message(q.agent_id, r),
                        (None, Some(e)) => message().with("id"@, q.agent_id).with("error"@, e),
                        (None, None) => result_message(q.agent_id, cancelled()),
                    };
                    (
                        ActorState { perm: Some(Question { resolved: true, ..q }), ..self },
                        told_late(h, q.asked, key).told_followers(
                            q.sid,
                            settled_notice(obj().with("sessionId"@, string(q.sid))),
                        ).unrouted(q.asked.map_values(|e: (Seq<char>, u64)| e.0)),
                        Move::Write(reply),
                    )
                },
            },
        }
    }

    /// Whether there is someone local among some clients.
    pub open spec fn has_local(h: HubState, clients: Seq<u64>) -> bool {
        exists|i: int| 0 <= i < clients.len() && !h.on_lan(#[trigger] clients[i])
    }

    /// What an agent's question for permission does.
    pub open spec fn questioned(
        self,
        h: HubState,
        agent_id: Tree,
        params: Tree,
    ) -> (ActorState, HubState, Move) {
        let clients = h.followers(self.sid);
        if dangerous(params) && !Self::has_local(h, clients) {
            (
                self,
                h.told_followers(
                    self.sid,
                    settled_notice(
                        obj().with("sessionId"@, string(self.sid)).with(
                            "reason"@,
                            string("no_local_client"@),
                        ),
                    ),
                ),
                Move::Write(result_message(agent_id, cancelled())),
            )
        } else if clients.len() == 0 {
            (self, h, Move::Write(result_message(agent_id, cancelled())))
        } else {
            let (after, asked) = asked_each(h, self.sid, params, clients);
            (
                ActorState {
                    perm: Some(
                        Question {
                            agent_id,
                            sid: self.sid,
                            asked,
                            resolved: false,
                            dangerous: dangerous(params),
                        },
                    ),
                    ..self
                },
                after,
                Move::Idle,
            )
        }
    }

    /// What an agent's message does.
    pub open spec fn told(self, h: HubState, msg: Tree) -> (ActorState, HubState, Move) {
        let method = or_empty(msg.get_str("method"@));
        let id = msg.get("id"@);
        if method.len() > 0 {
            match id {
                Some(agent_id) => if method == "session/request_permission"@ || method
                    == "session/requestPermission"@ {
                    self.questioned(
                        h,
                        agent_id,
                        match msg.get("params"@) {
                            Some(p) => p,
                            None => obj(),
                        },
                    )
                } else {
                    (self, h, Move::Write(result_message(agent_id, obj())))
                },
                None => (self, h.told_followers(self.sid, self.shown(msg)), Move::Idle),
            }
        } else {
            match id {
                Some(t) => match t.sint() {
                    Some(n) => self.settled(h, n as i64, msg),
                    None => (self, h, Move::Idle),
                },
                None => (self, h, Move::Idle),
            }
        }
    }

    /// An agent's notice as those who follow the session see it.
    pub open spec fn shown(self, msg: Tree) -> Tree {
        match msg.get("params"@) {
            Some(p) => msg.with("params"@, naming(p, self.sid)),
            None => msg,
        }
    }

    /// What an agent's answer does.
    pub open spec fn settled(
        self,
        h: HubState,
        agent_id: i64,
        msg: Tree,
    ) -> (ActorState, HubState, Move) {
        match lookup(self.pending, agent_id) {
            None => (self, h, Move::Idle),
            Some(p) => {
                let rest = ActorState { pending: without(self.pending, agent_id), ..self };
                let told = h.sent(p.client, with_id(msg, p.id));
                if !p.prompt {
                    (rest, told, Move::Idle)
                } else if self.queue.len() == 0 {
                    (ActorState { inflight: false, ..rest }, told, Move::Idle)
                } else {
                    let next = self.queue[0];
                    let (a, m) = ActorState {
                        inflight: true,
                        queue: self.queue.drop_first(),
                        ..rest
                    }.passing(
                        next.client,
                        next.id,
                        "session/prompt"@,
                        next.params,
                        Passage::NextPrompt,
                    );
                    (a, told, m)
                }
            },
        }
    }

    /// What a word from the hub does.
    pub open spec fn ordered(self, h: HubState, cmd: Cmd) -> (ActorState, HubState, Move) {
        match cmd {
            Cmd::Shutdown => (self, h, Move::Stop),
            Cmd::Notify { method, params } => (
                self,
                h,
                Move::Write(notice_message(agent_method(method), params)),
            ),
            Cmd::Reply { id, result, error } => self.answered(h, id, result, error),
            Cmd::Rpc { client, id, method, params } => {
                let (a, m) = self.asked(client, id, method, params);
                (a, h, m)
            },
        }
    }

    /// What the end of the agent does to the hub.
    pub open spec fn closed(self, h: HubState) -> HubState {
        told_closed(h, self.pending, "agent process closed"@).removed(self.sid)
    }
}

/// The answer to a question for permission that nobody was there for.
fn cancelled_value() -> (r: Json)
    ensures
        r@ == cancelled(),
{
    Json::object().with("outcome", Json::object().with("outcome", Json::text("cancelled")))
}

/// The notice that a question for permission is settled.
fn settled_msg(details: Json) -> (r: Json)
    ensures
        r@ == settled_notice(details@),
{
    rpc_notice("gtm/permission.resolved", details)
}

/// Whether there is someone local among some clients.
fn any_local(hub: &Hub, clients: &Vec<u64>) -> (r: bool)
    ensures
        r == ActorState::has_local(hub@, clients@),
{
    let mut i: usize = 0;
    while i < clients.len()
        invariant
            i <= clients@.len(),
            forall|j: int| 0 <= j < i ==> hub@.on_lan(#[trigger] clients@[j]),
        decreases clients@.len() - i,
    {
        if !hub.is_lan(clients[i]) {
            proof {
                assert(!hub@.on_lan(clients@[i as int]));
            }
            return true;
        }
        i = i + 1;
    }
    false
}

impl Actor {
    /// A new actor, whose next message to the agent has a number.
    fn new(sid: String, next_id: i64) -> (r: Actor)
        ensures
            r@ == ActorState::start(sid@, next_id),
    {
        let a: Actor = Actor {
            sid,
            next_id,
            pending: Table::new(),
            prompt_queue: VecDeque::new(),
            prompt_inflight: false,
            perm: None,
        };
        proof {
            assert(a@.queue =~= Seq::empty());
        }
        a
    }

    /// The session.
    pub fn session_id(&self) -> (r: &str)
        ensures
            r@ == self@.sid,
    {
        self.sid.as_str()
    }

    /// Whether the actor can number one more message to the agent.
    pub fn can_go_on(&self) -> (r: bool)
        ensures
            r == (self@.next_id < i64::MAX),
    {
        self.next_id < i64::MAX
    }

    /// Puts a request on its way to the agent.
    fn forward_rpc(
        &mut self,
        client_id: u64,
        rpc_id: Json,
        method: &str,
        params: Json,
        kind: Passage,
    ) -> (r: Step)
        requires
            old(self)@.next_id < i64::MAX,
        ensures
            (final(self)@, r@) == old(self)@.passing(
                client_id,
                rpc_id@,
                method@,
                params@,
                kind,
            ),
    {
        let agent_id: i64 = self.next_id;
        self.next_id = agent_id + 1;
        let msg: Json = if text_eq(method, "session/cancel") {
            rpc_notice("session/cancel", params)
        } else {
            rpc_request(Json::Int(agent_id), to_agent_method(method).as_str(), params)
        };
        Step::Forward(msg, Forward { agent_id, client_id, rpc_id, kind })
    }

    /// Takes a client's request.
    fn ask(&mut self, client_id: u64, id: Json, method: &str, params: Json) -> (r: Step)
        requires
            old(self)@.next_id < i64::MAX,
        ensures
            (final(self)@, r@) == old(self)@.asked(client_id, id@, method@, params@),
    {
        if text_eq(method, "session/prompt") {
            if self.prompt_inflight {
                let ghost before = self@;
                let queued: QueuedPrompt = QueuedPrompt { client_id, rpc_id: id, params };
                self.prompt_queue.push_back(queued);
                proof {
                    assert(self@.queue =~= before.queue.push(queued@));
                }
                Step::Idle
            } else {
                self.prompt_inflight = true;
                self.forward_rpc(client_id, id, method, params, Passage::Prompt)
            }
        } else if text_eq(method, "session/cancel") {
            self.forward_rpc(client_id, id, method, params, Passage::Cancel)
        } else {
            self.forward_rpc(client_id, id, method, params, Passage::Other)
        }
    }

    /// Forgets every request with an id.
    fn forget(&mut self, id: &Json)
        ensures
            final(self)@ == (ActorState {
                pending: old(self)@.pending.filter(|e: (i64, Owed)| !same(e.1.id, id@)),
                ..old(self)@
            }),
    {
        let ghost before = self@;
        let ghost all = before.pending;
        let ghost stays = |e: (i64, Owed)| !same(e.1.id, id@);
        let rest: Vec<(i64, Pending)> = self.pending.drain();
        let ghost items = rest@;
        let mut kept: Vec<(i64, Pending)> = Vec::new();
        proof {
            lemma_filter_none(all, stays);
            assert(pairs(kept@) =~= Seq::<(i64, Owed)>::empty());
        }
        for e in it: rest
            invariant
                it.seq() == items,
                pairs(items) == all,
                stays == (|e: (i64, Owed)| !same(e.1.id, id@)),
                pairs(kept@) == all.take(it.index()).filter(stays),
        {
            let ghost k = it.index();
            let ghost so_far = pairs(kept@);
            proof {
                assert(all[k] == (e.0, e.1@));
                lemma_filter_step(all, stays, k);
            }
            if !e.1.rpc_id.same(id) {
                kept.push(e);
                proof {
                    assert(pairs(kept@) =~= so_far.push(all[k]));
                }
            }
        }
        proof {
            assert(all.take(items.len() as int) =~= all);
            lemma_filter_unique(all, stays);
        }
        self.pending = Table::of(kept);
    }

    /// Takes note of whether a request reached the agent: why not, if it did
    /// not.
    pub fn forwarded(&mut self, hub: &mut Hub, forward: Forward, failure: Option<&str>)
        ensures
            (final(self)@, final(hub)@) == old(self)@.passed(
                old(hub)@,
                forward@,
                opt_str(failure),
            ),
    {
        match failure {
            Some(text) => {
                if forward.kind != Passage::NextPrompt {
                    hub.send_to(
                        forward.client_id,
                        rpc_error(forward.rpc_id, SPAWN_FAILED, text),
                    );
                }
                if forward.kind == Passage::Prompt {
                    self.prompt_inflight = false;
                }
            },
            None => {
                if forward.kind == Passage::Cancel {
                    self.forget(&forward.rpc_id);
                    hub.send_to(
                        forward.client_id,
                        rpc_result(forward.rpc_id, Json::object()),
                    );
                } else {
                    let owed: Pending = Pending {
                        client_id: forward.client_id,
                        rpc_id: forward.rpc_id,
                        prompt: forward.kind != Passage::Other,
                    };
                    self.pending.set(forward.agent_id, owed);
                }
            },
        }
    }

    /// Takes a client's answer to a question for permission. The first answer
    /// that may count settles it.
    fn handle_perm_reply(
        &mut self,
        hub: &mut Hub,
        id: Json,
        result: Option<Json>,
        error: Option<Json>,
    ) -> (r: Step)
        ensures
            (final(self)@, final(hub)@, r@) == old(self)@.answered(
                old(hub)@,
                id@,
                opt_value(result),
                opt_value(error),
            ),
    {
        proof {
            reveal_strlit("");
            assert(""@ =~= Seq::<char>::empty());
        }
        let ghost before = self@;
        let state: &PermState = match &self.perm {
            Some(p) => p,
            None => {
                return Step::Idle;
            },
        };
        let key: String = own(text_or(id.as_str(), ""));
        let client_id: u64 = match state.client_ids.get(&key) {
            Some(c) => *c,
            None => {
                return Step::Idle;
            },
        };
        if state.resolved {
            return Step::Idle;
        }
        if state.dangerous && hub.is_lan(client_id) {
            hub.send_to(
                client_id,
                rpc_error(
                    id,
                    ALREADY_RESOLVED,
                    "dangerous tools need a local Mac/TUI confirmation",
                ),
            );
            return Step::Idle;
        }
        let reply: Json = match (result, error) {
            (Some(r), _) => rpc_result(state.agent_id.copy(), r),
            (None, Some(e)) => Json::object().with("jsonrpc", Json::text("2.0")).with(
                "id",
                state.agent_id.copy(),
            ).with("error", e),
            (None, None) => rpc_result(state.agent_id.copy(), cancelled_value()),
        };
        tell_late(hub, &state.client_ids, key.as_str());
        let sid: &str = state.session_id.as_str();
        hub.broadcast_session(
            sid,
            &settled_msg(Json::object().with("sessionId", Json::text(sid))),
        );
        let hids: Vec<String> = keys(&state.client_ids);
        hub.clear_perm_routes(&hids);
        match self.perm.take() {
            Some(p) => {
                self.perm = Some(
                    PermState {
                        agent_id: p.agent_id,
                        session_id: p.session_id,
                        client_ids: p.client_ids,
                        resolved: true,
                        dangerous: p.dangerous,
                    },
                );
            },
            None => {},
        }
        Step::Write(reply)
    }

    /// Takes an agent's question for permission, and puts it to everyone who
    /// follows the session.
    fn start_permission(&mut self, hub: &mut Hub, agent_id: Json, params: &Json) -> (r: Step)
        ensures
            (final(self)@, final(hub)@, r@) == old(self)@.questioned(
                old(hub)@,
                agent_id@,
                params@,
            ),
    {
        let danger: bool = is_dangerous_permission(params);
        let clients: Vec<u64> = hub.subscribers(self.sid.as_str());
        if danger && !any_local(hub, &clients) {
            let details: Json = Json::object().with(
                "sessionId",
                Json::text(self.sid.as_str()),
            ).with("reason", Json::text("no_local_client"));
            hub.broadcast_session(self.sid.as_str(), &settled_msg(details));
            return Step::Write(rpc_result(agent_id, cancelled_value()));
        }
        if clients.len() == 0 {
            return Step::Write(rpc_result(agent_id, cancelled_value()));
        }
        let asked: Table<String, u64> = ask_each(hub, self.sid.as_str(), params, &clients);
        self.perm = Some(
            PermState {
                agent_id,
                session_id: own(self.sid.as_str()),
                client_ids: asked,
                resolved: false,
                dangerous: danger,
            },
        );
        Step::Idle
    }

    /// An agent's notice as those who follow the session see it.
    fn show(&self, msg: &Json) -> (r: Json)
        ensures
            r@ == self@.shown(msg@),
    {
        if let Some(p) = msg.get("params") {
            let params: Json = if p.is_object() && p.get("sessionId").is_none() {
                p.copy().with("sessionId", Json::text(self.sid.as_str()))
            } else {
                p.copy()
            };
            msg.copy().with("params", params)
        } else {
            msg.copy()
        }
    }

    /// Takes an agent's answer, and sends the next prompt if it was a prompt's.
    fn settle(&mut self, hub: &mut Hub, agent_id: i64, msg: &Json) -> (r: Step)
        requires
            old(self)@.next_id < i64::MAX,
        ensures
            (final(self)@, final(hub)@, r@) == old(self)@.settled(old(hub)@, agent_id, msg@),
    {
        let ghost before = self@;
        let found: Option<(u64, Json, bool)> = match self.pending.get(&agent_id) {
            Some(p) => Some((p.client_id, p.rpc_id.copy(), p.prompt)),
            None => None,
        };
        match found {
            None => Step::Idle,
            Some((client_id, rpc_id, prompt)) => {
                self.pending.unset(&agent_id);
                hub.send_to(client_id, attach_id(msg, rpc_id));
                if !prompt {
                    return Step::Idle;
                }
                proof {
                    assert(self@.queue == before.queue);
                }
                let next: QueuedPrompt = match self.prompt_queue.pop_front() {
                    Some(next) => next,
                    None => {
                        self.prompt_inflight = false;
                        return Step::Idle;
                    },
                };
                self.prompt_inflight = true;
                proof {
                    assert(next@ == before.queue[0]);
                    assert(self@.queue =~= before.queue.drop_first());
                }
                self.forward_rpc(
                    next.client_id,
                    next.rpc_id,
                    "session/prompt",
                    next.params,
                    Passage::NextPrompt,
                )
            },
        }
    }

    /// Takes an agent's message.
    pub fn handle_agent_msg(&mut self, hub: &mut Hub, msg: &Json) -> (r: Step)
        requires
            old(self)@.next_id < i64::MAX,
        ensures
            (final(self)@, final(hub)@, r@) == old(self)@.told(old(hub)@, msg@),
    {
        proof {
            reveal_strlit("");
            assert(""@ =~= Seq::<char>::empty());
        }
        let method: &str = text_or(msg.get_str("method"), "");
        let id: Option<&Json> = msg.get("id");
        if !method.is_empty() {
            match id {
                Some(agent_id) => {
                    if text_eq(method, "session/request_permission") || text_eq(
                        method,
                        "session/requestPermission",
                    ) {
                        match msg.get("params") {
                            Some(p) => self.start_permission(hub, agent_id.copy(), p),
                            None => self.start_permission(hub, agent_id.copy(), &Json::object()),
                        }
                    } else {
                        Step::Write(rpc_result(agent_id.copy(), Json::object()))
                    }
                },
                None => {
                    let shown: Json = self.show(msg);
                    hub.broadcast_session(self.sid.as_str(), &shown);
                    Step::Idle
                },
            }
        } else {
            match id {
                Some(t) => match t.as_i64() {
                    Some(n) => self.settle(hub, n, msg),
                    None => Step::Idle,
                },
                None => Step::Idle,
            }
        }
    }

    /// Takes a word from the hub.
    pub fn handle_command(&mut self, hub: &mut Hub, cmd: ActorCmd) -> (r: Step)
        requires
            old(self)@.next_id < i64::MAX,
        ensures
            (final(self)@, final(hub)@, r@) == old(self)@.ordered(old(hub)@, cmd@),
    {
        match cmd {
            ActorCmd::Shutdown => Step::Stop,
            ActorCmd::Notify { method, params } => Step::Write(
                rpc_notice(to_agent_method(method.as_str()).as_str(), params),
            ),
            ActorCmd::ClientReply { id, result, error } => self.handle_perm_reply(
                hub,
                id,
                result,
                error,
            ),
            ActorCmd::Rpc { client_id, id, method, params } => self.ask(
                client_id,
                id,
                method.as_str(),
                params,
            ),
        }
    }

    /// Takes note that the agent is gone: what it owes fails, and its session
    /// ends.
    pub fn agent_closed(&self, hub: &mut Hub)
        ensures
            final(hub)@ == self@.closed(old(hub)@),
    {
        let ghost start = hub@;
        let ghost all = self@.pending;
        let mut i: usize = 0;
        proof {
            assert(all.take(0) =~= Seq::empty());
        }
        while i < self.pending.len()
            invariant
                i <= self.pending@.len(),
                all == self.pending@,
                hub@ == told_closed(start, all.take(i as int), "agent process closed"@),
            decreases self.pending@.len() - i,
        {
            proof {
                lemma_take_more(all, i as int);
            }
            let p: &Pending = self.pending.value_at(i);
            hub.send_to(
                p.client_id,
                rpc_error(p.rpc_id.copy(), SPAWN_FAILED, "agent process closed"),
            );
            i = i + 1;
        }
        proof {
            assert(all.take(i as int) =~= all);
        }
        hub.remove_session(self.sid.as_str());
    }
}

/// The keys of those who were asked.
fn keys(asked: &Table<String, u64>) -> (r: Vec<String>)
    ensures
        texts(r@) == asked@.map_values(|e: (Seq<char>, u64)| e.0),
{
    let mut r: Vec<String> = Vec::new();
    let mut i: usize = 0;
    while i < asked.len()
        invariant
            i <= asked@.len(),
            r@.len() == i,
            forall|j: int| 0 <= j < i ==> (#[trigger] r@[j])@ == asked@[j].0,
        decreases asked@.len() - i,
    {
        r.push(own(asked.key_at(i).as_str()));
        i = i + 1;
    }
    proof {
        assert(texts(r@) =~= asked@.map_values(|e: (Seq<char>, u64)| e.0));
    }
    r
}

/// Tells all who were asked but one that their answer comes too late.
fn tell_late(hub: &mut Hub, asked: &Table<String, u64>, winner: &str)
    ensures
        final(hub)@ == told_late(old(hub)@, asked@, winner@),
{
    let ghost start = hub@;
    let ghost all = asked@;
    let mut i: usize = 0;
    proof {
        assert(all.take(0) =~= Seq::empty());
    }
    while i < asked.len()
        invariant
            i <= asked@.len(),
            all == asked@,
            hub@ == told_late(start, all.take(i as int), winner@),
        decreases asked@.len() - i,
    {
        proof {
            lemma_take_more(all, i as int);
        }
        let hid: &str = asked.key_at(i).as_str();
        if !text_eq(hid, winner) {
            hub.send_to(
                *asked.value_at(i),
                rpc_error(Json::text(hid), ALREADY_RESOLVED, "already_resolved"),
            );
        }
        i = i + 1;
    }
    proof {
        assert(all.take(i as int) =~= all);
    }
}

/// Puts a question for permission to clients, each under an id of its own.
fn ask_each(hub: &mut Hub, sid: &str, params: &Json, clients: &Vec<u64>) -> (r: Table<
    String,
    u64,
>)
    ensures
        (final(hub)@, r@) == asked_each(old(hub)@, sid@, params@, clients@),
{
    let ghost start = hub@;
    let mut asked: Table<String, u64> = Table::new();
    let mut i: usize = 0;
    proof {
        assert(clients@.take(0) =~= Seq::empty());
    }
    while i < clients.len()
        invariant
            i <= clients@.len(),
            (hub@, asked@) == asked_each(start, sid@, params@, clients@.take(i as int)),
        decreases clients@.len() - i,
    {
        proof {
            lemma_take_more(clients@, i as int);
        }
        let hid: String = hub.next_perm_id();
        hub.register_perm_route(own(hid.as_str()), sid);
        hub.send_to(
            clients[i],
            rpc_request(
                Json::text(hid.as_str()),
                "session/request_permission",
                params.copy(),
            ),
        );
        asked.set(hid, clients[i]);
        i = i + 1;
    }
    proof {
        assert(clients@.take(i as int) =~= clients@);
    }
    asked
}

/// An agent that is being started for a client's request.
pub struct Boot {
    start: Start,
    client_id: u64,
    id: Json,
    params: Json,
    greeted: bool,
    session_id: Option<String>,
    buffered: Vec<Json>,
}

/// An agent that is being started, as mathematics.
pub struct BootState {
    pub start: Start,
    pub client: u64,
    pub id: Tree,
    pub params: Tree,
    pub greeted: bool,
    pub sid: Option<Seq<char>>,
    pub buffered: Seq<Tree>,
}

impl View for Boot {
    type V = BootState;

    closed spec fn view(&self) -> BootState {
        BootState {
            start: self.start,
            client: self.client_id,
            id: self.id@,
            params: self.params@,
            greeted: self.greeted,
            sid: opt_text(self.session_id),
            buffered: views(self.buffered@),
        }
    }
}

/// What starting an agent calls for next.
pub enum BootStep {
    /// Waits for what the agent says.
    Wait,
    /// Sends the agent a message.
    Write(Json),
    /// Gives up.
    Failed(String),
    /// The session is there, under an id and with what the agent says of it.
    Ready { sid: String, result: Json },
}

/// What starting an agent calls for next, as mathematics.
pub enum BootMove {
    Wait,
    Write(Tree),
    Failed(Seq<char>),
    Ready { sid: Seq<char>, result: Tree },
}

impl View for BootStep {
    type V = BootMove;

    open spec fn view(&self) -> BootMove {
        match self {
            BootStep::Wait => BootMove::Wait,
            BootStep::Write(j) => BootMove::Write(j@),
            BootStep::Failed(s) => BootMove::Failed(s@),
            BootStep::Ready { sid, result } => BootMove::Ready { sid: sid@, result: result@ },
        }
    }
}

/// The method by which an agent begins a session.
pub open spec fn start_method(start: Start) -> Seq<char> {
    match start {
        Start::New => "session/new"@,
        Start::Load => "session/load"@,
        Start::Resume => "session/resume"@,
    }
}

/// The method by which an agent begins a session.
pub fn method_of(start: Start) -> (r: &'static str)
    ensures
        r@ == start_method(start),
{
    match start {
        Start::New => "session/new",
        Start::Load => "session/load",
        Start::Resume => "session/resume",
    }
}

/// How an agent is greeted.
pub open spec fn agent_greeting() -> Tree {
    request_message(
        number(1),
        "initialize"@,
        obj().with("protocolVersion"@, number(1)).with(
            "clientCapabilities"@,
            obj().with(
                "fs"@,
                obj().with("readTextFile"@, Tree::Bool(false)).with(
                    "writeTextFile"@,
                    Tree::Bool(false),
                ),
            ),
        ).with(
            "clientInfo"@,
            obj().with("name"@, string("gtm-hub"@)).with(
                "title"@,
                string("Grok to Mars hub"@),
            ).with("version"@, string(VERSION@)),
        ),
    )
}

/// Whether a message answers a numbered one.
pub open spec fn answers(msg: Tree, n: int) -> bool {
    match msg.get("id"@) {
        Some(t) => same(t, number(n)),
        None => false,
    }
}

/// Why an answer is a failure, if it is.
pub open spec fn failure_in(msg: Tree, otherwise: Seq<char>) -> Option<Seq<char>> {
    match msg.get("error"@) {
        Some(e) => Some(or_text(e.get_str("message"@), otherwise)),
        None => None,
    }
}

/// What an answer brings.
pub open spec fn result_in(msg: Tree) -> Tree {
    match msg.get("result"@) {
        Some(r) => r,
        None => obj(),
    }
}

impl BootState {
    /// An agent that was only just started.
    pub open spec fn begin(start: Start, client: u64, id: Tree, params: Tree) -> BootState {
        BootState {
            start,
            client,
            id,
            params,
            greeted: false,
            sid: params.get_str("sessionId"@),
            buffered: Seq::empty(),
        }
    }

    /// What an agent's message does while it starts.
    pub open spec fn heard(self, h: HubState, msg: Tree) -> (BootState, HubState, BootMove) {
        if !self.greeted {
            if answers(msg, 1) {
                match failure_in(msg, "agent error"@) {
                    Some(text) => (self, h, BootMove::Failed(text)),
                    None => (
                        BootState { greeted: true, ..self },
                        match self.sid {
                            Some(s) => h.following(self.client, s),
                            None => h,
                        },
                        BootMove::Write(
                            request_message(number(2), start_method(self.start), self.params),
                        ),
                    ),
                }
            } else {
                (self, h, BootMove::Wait)
            }
        } else if answers(msg, 2) {
            match failure_in(msg, "session boot failed"@) {
                Some(text) => (self, h, BootMove::Failed(text)),
                None => (
                    self,
                    h,
                    match (self.sid, result_in(msg).get_str("sessionId"@)) {
                        (Some(s), _) => BootMove::Ready { sid: s, result: result_in(msg) },
                        (None, Some(s)) => BootMove::Ready { sid: s, result: result_in(msg) },
                        (None, None) => BootMove::Failed(
                            "agent "@ + start_method(self.start) + " missing sessionId"@,
                        ),
                    },
                ),
            }
        } else if msg.get_str("method"@) == Some("session/update"@) {
            (
                BootState {
                    sid: match self.sid {
                        Some(s) => Some(s),
                        None => match msg.get_in("params"@, "sessionId"@) {
                            Some(t) => t.as_text(),
                            None => None,
                        },
                    },
                    buffered: self.buffered.push(msg),
                    ..self
                },
                h,
                BootMove::Wait,
            )
        } else {
            (self, h, BootMove::Wait)
        }
    }

    /// What an agent said while it started, shown to those who follow the
    /// session.
    pub open spec fn replayed(h: HubState, sid: Seq<char>, msgs: Seq<Tree>) -> HubState
        decreases msgs.len(),
    {
        if msgs.len() == 0 {
            h
        } else {
            Self::replayed(h, sid, msgs.drop_last()).told_followers(sid, msgs.last())
        }
    }

    /// The one who is answered apart from those who wait: who asked for a new
    /// session.
    pub open spec fn origin(self) -> Option<Waiter> {
        match self.start {
            Start::New => Some(Waiter { client: self.client, id: self.id }),
            _ => None,
        }
    }

    /// What a session's being there does to the hub.
    pub open spec fn opened(
        self,
        h: HubState,
        sid: Seq<char>,
        result: Tree,
        actor: u64,
        disk: Option<Stored>,
    ) -> HubState {
        let title = or_empty(
            match filled(result.get_str("title"@)) {
                Some(s) => Some(s),
                None => disk_title(disk),
            },
        );
        Self::replayed(
            h.completed(
                sid,
                self.params.get_str("cwd"@),
                title,
                result,
                actor,
                self.origin(),
            ),
            sid,
            self.buffered,
        )
    }

    /// What an agent's failure to start does to the hub.
    pub open spec fn failed(self, h: HubState, text: Seq<char>) -> HubState {
        h.failed(
            self.params.get_str("sessionId"@),
            Waiter { client: self.client, id: self.id },
            Fault { code: SPAWN_FAILED as int, text },
        )
    }
}

/// Whether a message answers a numbered one.
fn is_answer(msg: &Json, n: u64) -> (r: bool)
    ensures
        r == answers(msg@, n as int),
{
    match msg.get("id") {
        Some(t) => t.same(&Json::Uint(n)),
        None => false,
    }
}

/// Why an answer is a failure, if it is.
fn failure_of(msg: &Json, otherwise: &str) -> (r: Option<String>)
    ensures
        opt_text(r) == failure_in(msg@, otherwise@),
{
    match msg.get("error") {
        Some(e) => Some(own(text_or(e.get_str("message"), otherwise))),
        None => None,
    }
}

/// An optional text of its own.
fn own_str(o: Option<&str>) -> (r: Option<String>)
    ensures
        opt_text(r) == opt_str(o),
{
    match o {
        Some(s) => Some(own(s)),
        None => None,
    }
}

impl Boot {
    /// An agent that was only just started.
    pub fn new(start: Start, client_id: u64, id: Json, params: Json) -> (r: Boot)
        ensures
            r@ == BootState::begin(start, client_id, id@, params@),
    {
        let session_id: Option<String> = own_str(params.get_str("sessionId"));
        let b: Boot = Boot {
            start,
            client_id,
            id,
            params,
            greeted: false,
            session_id,
            buffered: Vec::new(),
        };
        proof {
            assert(b@.buffered =~= Seq::empty());
        }
        b
    }

    /// The first message to the agent.
    pub fn greeting(&self) -> (r: Json)
        ensures
            r@ == agent_greeting(),
    {
        let fs: Json = Json::object().with("readTextFile", Json::Bool(false)).with(
            "writeTextFile",
            Json::Bool(false),
        );
        let me: Json = Json::object().with("name", Json::text("gtm-hub")).with(
            "title",
            Json::text("Grok to Mars hub"),
        ).with("version", Json::text(VERSION));
        let params: Json = Json::object().with("protocolVersion", Json::Uint(1)).with(
            "clientCapabilities",
            Json::object().with("fs", fs),
        ).with("clientInfo", me);
        rpc_request(Json::Uint(1), "initialize", params)
    }

    /// Takes the answer to the request that begins the session.
    fn open(&self, msg: &Json) -> (r: BootStep)
        ensures
            r@ == (match (self@.sid, result_in(msg@).get_str("sessionId"@)) {
                (Some(s), _) => BootMove::Ready { sid: s, result: result_in(msg@) },
                (None, Some(s)) => BootMove::Ready { sid: s, result: result_in(msg@) },
                (None, None) => BootMove::Failed(
                    "agent "@ + start_method(self@.start) + " missing sessionId"@,
                ),
            }),
    {
        let result: Json = match msg.get("result") {
            Some(r) => r.copy(),
            None => Json::object(),
        };
        let sid: Option<String> = match &self.session_id {
            Some(s) => Some(own(s.as_str())),
            None => own_str(result.get_str("sessionId")),
        };
        match sid {
            Some(s) => BootStep::Ready { sid: s, result },
            None => BootStep::Failed(
                concat3("agent ", method_of(self.start), " missing sessionId"),
            ),
        }
    }

    /// Takes an agent's message.
    pub fn handle_msg(&mut self, hub: &mut Hub, msg: &Json) -> (r: BootStep)
        ensures
            (final(self)@, final(hub)@, r@) == old(self)@.heard(old(hub)@, msg@),
    {
        if !self.greeted {
            if !is_answer(msg, 1) {
                return BootStep::Wait;
            }
            if let Some(text) = failure_of(msg, "agent error") {
                return BootStep::Failed(text);
            }
            self.greeted = true;
            if let Some(sid) = &self.session_id {
                hub.subscribe(self.client_id, sid.as_str());
            }
            return BootStep::Write(
                rpc_request(Json::Uint(2), method_of(self.start), self.params.copy()),
            );
        }
        if is_answer(msg, 2) {
            if let Some(text) = failure_of(msg, "session boot failed") {
                return BootStep::Failed(text);
            }
            return self.open(msg);
        }
        let update: bool = match msg.get_str("method") {
            Some(m) => text_eq(m, "session/update"),
            None => false,
        };
        if update {
            if self.session_id.is_none() {
                if let Some(t) = msg.get_in("params", "sessionId") {
                    self.session_id = own_str(t.as_str());
                }
            }
            let ghost before = self@.buffered;
            let kept: Json = msg.copy();
            self.buffered.push(kept);
            proof {
                assert(self@.buffered =~= before.push(kept@));
            }
        }
        BootStep::Wait
    }

    /// Tells the hub that the session is there, and goes on as its actor.
    pub fn complete(
        self,
        hub: &mut Hub,
        sid: String,
        result: Json,
        actor: u64,
        disk: Option<&DiskSession>,
    ) -> (r: Actor)
        ensures
            final(hub)@ == self@.opened(old(hub)@, sid@, result@, actor, opt_stored(disk)),
            r@ == ActorState::start(sid@, 3),
    {
        let title: String = match result.get_str("title") {
            Some(s) => if s.is_empty() {
                text_of_title(disk)
            } else {
                own(s)
            },
            None => text_of_title(disk),
        };
        let origin: Option<Waiting> = match self.start {
            Start::New => Some(Waiting { client_id: self.client_id, id: self.id.copy() }),
            _ => None,
        };
        let cwd: Option<String> = own_str(self.params.get_str("cwd"));
        hub.complete_session(sid.as_str(), cwd, title, result, actor, origin);
        let ghost ready = hub@;
        let ghost all = views(self.buffered@);
        let mut i: usize = 0;
        proof {
            assert(all.take(0) =~= Seq::empty());
        }
        while i < self.buffered.len()
            invariant
                i <= self.buffered@.len(),
                all == views(self.buffered@),
                hub@ == BootState::replayed(ready, sid@, all.take(i as int)),
            decreases self.buffered@.len() - i,
        {
            proof {
                lemma_take_more(all, i as int);
            }
            hub.broadcast_session(sid.as_str(), &self.buffered[i]);
            i = i + 1;
        }
        proof {
            assert(all.take(i as int) =~= all);
        }
        Actor::new(sid, 3)
    }

    /// Tells the hub that the agent could not be started, and why.
    pub fn fail(&self, hub: &mut Hub, text: &str)
        ensures
            final(hub)@ == self@.failed(old(hub)@, text@),
    {
        hub.fail_session(
            self.params.get_str("sessionId"),
            Waiting { client_id: self.client_id, id: self.id.copy() },
            &RpcError::new(SPAWN_FAILED, text),
        );
    }
}

/// The title that the disk gives a session, or none.
fn text_of_title(disk: Option<&DiskSession>) -> (r: String)
    ensures
        r@ == or_empty(disk_title(opt_stored(disk))),
{
    match lookup_title(disk) {
        Some(t) => t,
        None => String::new(),
    }
}

} // verus!
