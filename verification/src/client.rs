//! A client of the hub: the requests it makes, and the answers it waits for
//! while other messages come in.

use crate::actor::answers;
use crate::json::{obj, same, trees, Json, Tree};
use crate::model::{number, string, PROTOCOL_VERSION};
use crate::numeral::{signed_decimal, to_signed_decimal};
use crate::order::views;
use crate::rpc::{message, request_message, result_message, rpc_request, rpc_result, Fault};
use crate::text::{concat, or_text, own, text_eq, text_or};
use std::collections::VecDeque;
use vstd::prelude::*;

verus! {

/// A client of the hub: the number of its next request, and the messages that
/// came in while it waited for others.
pub struct HubClient {
    next_id: i64,
    inbox: VecDeque<Json>,
}

/// A client of the hub, as mathematics.
pub struct ClientState {
    pub next_id: i64,
    pub inbox: Seq<Tree>,
}

impl View for HubClient {
    type V = ClientState;

    closed spec fn view(&self) -> ClientState {
        ClientState { next_id: self.next_id, inbox: views(self.inbox@) }
    }
}

/// A request: its number, and the message to send.
pub struct Call {
    pub id: i64,
    pub msg: Json,
}

/// A request, as mathematics.
pub struct Request {
    pub id: i64,
    pub msg: Tree,
}

impl View for Call {
    type V = Request;

    open spec fn view(&self) -> Request {
        Request { id: self.id, msg: self.msg@ }
    }
}

/// Why the hub refused a request.
pub struct HubError {
    pub code: i64,
    pub message: String,
}

impl View for HubError {
    type V = Fault;

    open spec fn view(&self) -> Fault {
        Fault { code: self.code as int, text: self.message@ }
    }
}

impl HubError {
    /// What is said of it.
    pub fn text(&self) -> (r: String)
        ensures
            r@ == "hub error "@ + signed_decimal(self.code as int) + ": "@ + self.message@,
    {
        let mut out: String = concat("hub error ", to_signed_decimal(self.code).as_str());
        out.push_str(": ");
        out.push_str(self.message.as_str());
        out
    }
}

/// What an answer says: a result, or why there is none.
pub open spec fn outcome(msg: Tree) -> Result<Tree, Fault> {
    match msg.get("error"@) {
        Some(e) => Err(
            Fault {
                code: match e.get("code"@) {
                    Some(c) => match c.sint() {
                        Some(n) => n,
                        None => -1,
                    },
                    None => -1,
                },
                text: or_text(e.get_str("message"@), "?"@),
            },
        ),
        None => Ok(
            match msg.get("result"@) {
                Some(r) => r,
                None => obj(),
            },
        ),
    }
}

/// What an answer says: a result, or why there is none.
pub fn read_outcome(msg: &Json) -> (r: Result<Json, HubError>)
    ensures
        match r {
            Ok(j) => outcome(msg@) == Ok::<Tree, Fault>(j@),
            Err(e) => outcome(msg@) == Err::<Tree, Fault>(e@),
        },
{
    match msg.get("error") {
        Some(e) => {
            let code: i64 = match e.get("code") {
                Some(c) => match c.as_i64() {
                    Some(n) => n,
                    None => -1,
                },
                None => -1,
            };
            Err(HubError { code, message: own(text_or(e.get_str("message"), "?")) })
        },
        None => Ok(
            match msg.get("result") {
                Some(r) => r.copy(),
                None => Json::object(),
            },
        ),
    }
}

/// Whether a message has an id.
pub open spec fn has_id(msg: Tree, id: Tree) -> bool {
    match msg.get("id"@) {
        Some(t) => same(t, id),
        None => false,
    }
}

/// Whether a message has a method.
pub open spec fn has_method(msg: Tree, method: Seq<char>) -> bool {
    msg.get_str("method"@) == Some(method)
}

/// The first message that has an id.
pub open spec fn first_with_id(inbox: Seq<Tree>, id: Tree, i: int) -> Option<int>
    decreases inbox.len() - i,
{
    if i < 0 || i >= inbox.len() {
        None
    } else if has_id(inbox[i], id) {
        Some(i)
    } else {
        first_with_id(inbox, id, i + 1)
    }
}

/// The first message that has a method.
pub open spec fn first_with_method(inbox: Seq<Tree>, method: Seq<char>, i: int) -> Option<int>
    decreases inbox.len() - i,
{
    if i < 0 || i >= inbox.len() {
        None
    } else if has_method(inbox[i], method) {
        Some(i)
    } else {
        first_with_method(inbox, method, i + 1)
    }
}

/// Whether a message has an id.
fn id_is(msg: &Json, id: &Json) -> (r: bool)
    ensures
        r == has_id(msg@, id@),
{
    match msg.get("id") {
        Some(t) => t.same(id),
        None => false,
    }
}

/// Whether a message has a method.
fn method_is(msg: &Json, method: &str) -> (r: bool)
    ensures
        r == has_method(msg@, method@),
{
    match msg.get_str("method") {
        Some(m) => text_eq(m, method),
        None => false,
    }
}

impl ClientState {
    /// With one more request made.
    pub open spec fn called(self, method: Seq<char>, params: Tree) -> (ClientState, Request) {
        (
            ClientState { next_id: (self.next_id + 1) as i64, ..self },
            Request {
                id: self.next_id,
                msg: request_message(number(self.next_id as int), method, params),
            },
        )
    }

    /// With a message kept for later.
    pub open spec fn keeping(self, msg: Tree) -> ClientState {
        ClientState { inbox: self.inbox.push(msg), ..self }
    }
}

/// The parameters of a greeting.
pub open spec fn greeting(kind: Seq<char>, name: Seq<char>, version: Seq<char>) -> Tree {
    obj().with("protocolVersion"@, number(PROTOCOL_VERSION as int)).with(
        "client"@,
        obj().with("kind"@, string(kind)).with("name"@, string(name)).with(
            "version"@,
            string(version),
        ),
    ).with(
        "capabilities"@,
        obj().with("permissionUi"@, Tree::Bool(true)).with("yolo"@, Tree::Bool(false)),
    )
}

/// The parameters of a prompt.
pub open spec fn prompt_params(sid: Seq<char>, text: Seq<char>) -> Tree {
    obj().with("sessionId"@, string(sid)).with(
        "prompt"@,
        Tree::Array(
            seq![obj().with("type"@, string("text"@)).with("text"@, string(text))],
        ),
    )
}

/// An empty list as JSON.
fn empty_list() -> (r: Json)
    ensures
        r@ == Tree::Array(Seq::empty()),
{
    let v: Vec<Json> = Vec::new();
    proof {
        assert(trees(v@) =~= Seq::empty());
    }
    Json::array(v)
}

impl HubClient {
    /// A client that has not said anything yet.
    pub fn new() -> (r: HubClient)
        ensures
            r@ == (ClientState { next_id: 1, inbox: Seq::empty() }),
    {
        let c: HubClient = HubClient { next_id: 1, inbox: VecDeque::new() };
        proof {
            assert(c@.inbox =~= Seq::empty());
        }
        c
    }

    /// Whether the client can number one more request.
    pub fn can_go_on(&self) -> (r: bool)
        ensures
            r == (self@.next_id < i64::MAX),
    {
        self.next_id < i64::MAX
    }

    /// Makes a request.
    pub fn send_request(&mut self, method: &str, params: Json) -> (r: Call)
        requires
            old(self)@.next_id < i64::MAX,
        ensures
            (final(self)@, r@) == old(self)@.called(method@, params@),
    {
        let id: i64 = self.next_id;
        self.next_id = id + 1;
        Call { id, msg: rpc_request(Json::Int(id), method, params) }
    }

    /// Greets the hub.
    pub fn hello(&mut self, kind: &str, name: &str, version: &str) -> (r: Call)
        requires
            old(self)@.next_id < i64::MAX,
        ensures
            (final(self)@, r@) == old(self)@.called("gtm/hello"@, greeting(kind@, name@, version@)),
    {
        let client: Json = Json::object().with("kind", Json::text(kind)).with(
            "name",
            Json::text(name),
        ).with("version", Json::text(version));
        let can: Json = Json::object().with("permissionUi", Json::Bool(true)).with(
            "yolo",
            Json::Bool(false),
        );
        let params: Json = Json::object().with(
            "protocolVersion",
            Json::Uint(PROTOCOL_VERSION),
        ).with("client", client).with("capabilities", can);
        self.send_request("gtm/hello", params)
    }

    /// Asks what the hub says of itself.
    pub fn hub_info(&mut self) -> (r: Call)
        requires
            old(self)@.next_id < i64::MAX,
        ensures
            (final(self)@, r@) == old(self)@.called("gtm/hub.info"@, obj()),
    {
        self.send_request("gtm/hub.info", Json::object())
    }

    /// Asks for the sessions to pick from.
    pub fn sessions_list(&mut self) -> (r: Call)
        requires
            old(self)@.next_id < i64::MAX,
        ensures
            (final(self)@, r@) == old(self)@.called("gtm/sessions.list"@, obj()),
    {
        self.send_request("gtm/sessions.list", Json::object())
    }

    /// Asks for a sign of life.
    pub fn ping(&mut self) -> (r: Call)
        requires
            old(self)@.next_id < i64::MAX,
        ensures
            (final(self)@, r@) == old(self)@.called("gtm/ping"@, obj()),
    {
        self.send_request("gtm/ping", Json::object())
    }

    /// Asks for the network listener to be closed.
    pub fn remote_off(&mut self) -> (r: Call)
        requires
            old(self)@.next_id < i64::MAX,
        ensures
            (final(self)@, r@) == old(self)@.called("gtm/remote.off"@, obj()),
    {
        self.send_request("gtm/remote.off", Json::object())
    }

    /// Asks what the hub says of its network listener.
    pub fn remote_status(&mut self) -> (r: Call)
        requires
            old(self)@.next_id < i64::MAX,
        ensures
            (final(self)@, r@) == old(self)@.called("gtm/remote.status"@, obj()),
    {
        self.send_request("gtm/remote.status", Json::object())
    }

    /// Asks what the hub can do.
    pub fn initialize(&mut self) -> (r: Call)
        requires
            old(self)@.next_id < i64::MAX,
        ensures
            (final(self)@, r@) == old(self)@.called("initialize"@, obj()),
    {
        self.send_request("initialize", Json::object())
    }

    /// Asks for the network listener to be opened.
    pub fn remote_on(&mut self, port: Option<u16>) -> (r: Call)
        requires
            old(self)@.next_id < i64::MAX,
        ensures
            (final(self)@, r@) == old(self)@.called(
                "gtm/remote.on"@,
                match port {
                    Some(p) => obj().with("port"@, number(p as int)),
                    None => obj(),
                },
            ),
    {
        let params: Json = match port {
            Some(p) => Json::object().with("port", Json::Uint(p as u64)),
            None => Json::object(),
        };
        self.send_request("gtm/remote.on", params)
    }

    /// Asks for a device's access to be taken away.
    pub fn remote_revoke(&mut self, device_id: &str) -> (r: Call)
        requires
            old(self)@.next_id < i64::MAX,
        ensures
            (final(self)@, r@) == old(self)@.called(
                "gtm/remote.revoke"@,
                obj().with("deviceId"@, string(device_id@)),
            ),
    {
        self.send_request(
            "gtm/remote.revoke",
            Json::object().with("deviceId", Json::text(device_id)),
        )
    }

    /// The message by which a client leaves.
    pub fn bye(&self) -> (r: Json)
        ensures
            r@ == message().with("method"@, string("gtm/bye"@)),
    {
        Json::object().with("jsonrpc", Json::text("2.0")).with("method", Json::text("gtm/bye"))
    }

    /// Asks for a new session.
    pub fn session_new(&mut self, cwd: &str) -> (r: Call)
        requires
            old(self)@.next_id < i64::MAX,
        ensures
            (final(self)@, r@) == old(self)@.called(
                "session/new"@,
                obj().with("cwd"@, string(cwd@)).with("mcpServers"@, Tree::Array(Seq::empty())),
            ),
    {
        self.send_request(
            "session/new",
            Json::object().with("cwd", Json::text(cwd)).with("mcpServers", empty_list()),
        )
    }

    /// Asks for a session that there is already.
    pub fn session_load(&mut self, session_id: &str, cwd: &str) -> (r: Call)
        requires
            old(self)@.next_id < i64::MAX,
        ensures
            (final(self)@, r@) == old(self)@.called(
                "session/load"@,
                obj().with("sessionId"@, string(session_id@)).with("cwd"@, string(cwd@)).with(
                    "mcpServers"@,
                    Tree::Array(Seq::empty()),
                ),
            ),
    {
        self.send_request(
            "session/load",
            Json::object().with("sessionId", Json::text(session_id)).with(
                "cwd",
                Json::text(cwd),
            ).with("mcpServers", empty_list()),
        )
    }

    /// Sends a prompt.
    pub fn session_prompt(&mut self, session_id: &str, text: &str) -> (r: Call)
        requires
            old(self)@.next_id < i64::MAX,
        ensures
            (final(self)@, r@) == old(self)@.called(
                "session/prompt"@,
                prompt_params(session_id@, text@),
            ),
    {
        let mut blocks: Vec<Json> = Vec::new();
        let block: Json = Json::object().with("type", Json::text("text")).with(
            "text",
            Json::text(text),
        );
        blocks.push(block);
        proof {
            assert(trees(blocks@) =~= seq![block@]);
        }
        self.send_request(
            "session/prompt",
            Json::object().with("sessionId", Json::text(session_id)).with(
                "prompt",
                Json::array(blocks),
            ),
        )
    }

    /// Asks to follow a session.
    pub fn subscribe(&mut self, session_id: &str) -> (r: Call)
        requires
            old(self)@.next_id < i64::MAX,
        ensures
            (final(self)@, r@) == old(self)@.called(
                "gtm/sessions.subscribe"@,
                obj().with("sessionId"@, string(session_id@)),
            ),
    {
        self.send_request(
            "gtm/sessions.subscribe",
            Json::object().with("sessionId", Json::text(session_id)),
        )
    }

    /// Asks for a session's transcript.
    pub fn session_history(&mut self, session_id: &str, limit: u64) -> (r: Call)
        requires
            old(self)@.next_id < i64::MAX,
        ensures
            (final(self)@, r@) == old(self)@.called(
                "gtm/session.history"@,
                obj().with("sessionId"@, string(session_id@)).with(
                    "limit"@,
                    number(limit as int),
                ),
            ),
    {
        self.send_request(
            "gtm/session.history",
            Json::object().with("sessionId", Json::text(session_id)).with(
                "limit",
                Json::Uint(limit),
            ),
        )
    }

    /// The message by which a client answers what it was asked.
    pub fn send_response(&self, id: Json, result: Json) -> (r: Json)
        ensures
            r@ == result_message(id@, result@),
    {
        rpc_result(id, result)
    }

    /// Keeps a message for later.
    fn keep(&mut self, msg: Json)
        ensures
            final(self)@ == old(self)@.keeping(msg@),
    {
        let ghost before = self@.inbox;
        self.inbox.push_back(msg);
        proof {
            assert(self@.inbox =~= before.push(msg@));
        }
    }

    /// Takes a message that came in while the answer to a request is awaited:
    /// the answer is read, anything else is kept.
    pub fn take_result(&mut self, id: i64, msg: Json) -> (r: Option<Result<Json, HubError>>)
        ensures
            if answers(msg@, id as int) {
                &&& final(self)@ == old(self)@
                &&& match r {
                    Some(Ok(j)) => outcome(msg@) == Ok::<Tree, Fault>(j@),
                    Some(Err(e)) => outcome(msg@) == Err::<Tree, Fault>(e@),
                    None => false,
                }
            } else {
                r is None && final(self)@ == old(self)@.keeping(msg@)
            },
    {
        if id_is(&msg, &Json::Int(id)) {
            Some(read_outcome(&msg))
        } else {
            self.keep(msg);
            None
        }
    }

    /// Takes a message that came in while one with an id is awaited.
    pub fn take_id(&mut self, id: &Json, msg: Json) -> (r: Option<Json>)
        ensures
            match r {
                Some(m) => has_id(msg@, id@) && m@ == msg@ && final(self)@ == old(self)@,
                None => !has_id(msg@, id@) && final(self)@ == old(self)@.keeping(msg@),
            },
    {
        if id_is(&msg, id) {
            Some(msg)
        } else {
            self.keep(msg);
            None
        }
    }

    /// Takes a message that came in while one with a method is awaited.
    pub fn take_method(&mut self, method: &str, msg: Json) -> (r: Option<Json>)
        ensures
            match r {
                Some(m) => has_method(msg@, method@) && m@ == msg@ && final(self)@ == old(self)@,
                None => !has_method(msg@, method@) && final(self)@ == old(self)@.keeping(msg@),
            },
    {
        if method_is(&msg, method) {
            Some(msg)
        } else {
            self.keep(msg);
            None
        }
    }

    /// Takes a kept message out, if there are so many.
    fn pick(&mut self, i: usize) -> (r: Option<Json>)
        ensures
            if i < old(self)@.inbox.len() {
                &&& r matches Some(m) && m@ == old(self)@.inbox[i as int]
                &&& final(self)@ == (ClientState {
                    inbox: old(self)@.inbox.remove(i as int),
                    ..old(self)@
                })
            } else {
                r is None && final(self)@ == old(self)@
            },
    {
        let ghost before = self@.inbox;
        let m: Option<Json> = self.inbox.remove(i);
        proof {
            if i < before.len() {
                assert(self@.inbox =~= before.remove(i as int));
            }
        }
        m
    }

    /// The first kept message with an id.
    pub fn kept_id(&mut self, id: &Json) -> (r: Option<Json>)
        ensures
            match first_with_id(old(self)@.inbox, id@, 0) {
                Some(i) => {
                    &&& 0 <= i < old(self)@.inbox.len()
                    &&& r matches Some(m) && m@ == old(self)@.inbox[i]
                    &&& final(self)@ == (ClientState {
                        inbox: old(self)@.inbox.remove(i),
                        ..old(self)@
                    })
                },
                None => r is None && final(self)@ == old(self)@,
            },
    {
        let mut i: usize = 0;
        while i < self.inbox.len()
            invariant
                i <= self.inbox.len(),
                self@ == old(self)@,
                first_with_id(self@.inbox, id@, 0) == first_with_id(self@.inbox, id@, i as int),
            decreases self.inbox.len() - i,
        {
            if id_is(&self.inbox[i], id) {
                return self.pick(i);
            }
            i = i + 1;
        }
        None
    }

    /// The first kept message with a method.
    pub fn kept_method(&mut self, method: &str) -> (r: Option<Json>)
        ensures
            match first_with_method(old(self)@.inbox, method@, 0) {
                Some(i) => {
                    &&& 0 <= i < old(self)@.inbox.len()
                    &&& r matches Some(m) && m@ == old(self)@.inbox[i]
                    &&& final(self)@ == (ClientState {
                        inbox: old(self)@.inbox.remove(i),
                        ..old(self)@
                    })
                },
                None => r is None && final(self)@ == old(self)@,
            },
    {
        let mut i: usize = 0;
        while i < self.inbox.len()
            invariant
                i <= self.inbox.len(),
                self@ == old(self)@,
                first_with_method(self@.inbox, method@, 0) == first_with_method(
                    self@.inbox,
                    method@,
                    i as int,
                ),
            decreases self.inbox.len() - i,
        {
            if method_is(&self.inbox[i], method) {
                return self.pick(i);
            }
            i = i + 1;
        }
        None
    }

    /// The oldest kept message.
    pub fn recv(&mut self) -> (r: Option<Json>)
        ensures
            if old(self)@.inbox.len() == 0 {
                r is None && final(self)@ == old(self)@
            } else {
                &&& r matches Some(m) && m@ == old(self)@.inbox[0]
                &&& final(self)@ == (ClientState {
                    inbox: old(self)@.inbox.remove(0),
                    ..old(self)@
                })
            },
    {
        self.pick(0)
    }
}

/// Two requests of a client never have the same number.
pub proof fn request_numbers_differ(
    c: ClientState,
    first: Seq<char>,
    params: Tree,
    second: Seq<char>,
    more: Tree,
)
    requires
        c.next_id < i64::MAX - 1,
    ensures
        c.called(first, params).1.id < c.called(first, params).0.called(second, more).1.id,
{
}

/// How long a hub that was started is given to answer, in milliseconds.
pub const CONNECT_MS: u64 = 5000;

/// How long to wait between two attempts to connect, in milliseconds.
pub const RETRY_MS: u64 = 50;

/// What is done next to connect to the hub.
#[derive(Clone, Copy, PartialEq, Eq, Structural, Debug)]
pub enum ConnectStep {
    /// Nothing: there is a connection.
    Done,
    /// Remove what a hub that is gone has left, and start one.
    Start,
    /// Wait so many milliseconds, and try again.
    Wait { ms: u64 },
    /// Say that the hub does not answer.
    GiveUp,
}

/// What is done next to connect to the hub: given whether the last attempt
/// gave a connection, and how long ago a hub was started if one was.
pub fn connect_step(connected: bool, started_ms: Option<u64>) -> (r: ConnectStep)
    ensures
        r == (match (connected, started_ms) {
            (true, _) => ConnectStep::Done,
            (false, None) => ConnectStep::Start,
            (false, Some(ms)) => if ms >= CONNECT_MS {
                ConnectStep::GiveUp
            } else {
                ConnectStep::Wait { ms: RETRY_MS }
            },
        }),
{
    if connected {
        return ConnectStep::Done;
    }
    match started_ms {
        None => ConnectStep::Start,
        Some(ms) => if ms >= CONNECT_MS {
            ConnectStep::GiveUp
        } else {
            ConnectStep::Wait { ms: RETRY_MS }
        },
    }
}

/// What is said of a hub that does not answer.
pub fn timed_out_text(socket: &str) -> (r: String)
    ensures
        r@ == "timed out waiting for gtm hub at "@ + socket@,
{
    concat("timed out waiting for gtm hub at ", socket)
}

} // verus!
