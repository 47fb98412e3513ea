//! A connection to the hub: a greeting first, then requests, notices and
//! answers until one side leaves.

use crate::hub::{opt_value, Dispatch, Facts, Hub, Lookup};
use crate::json::{obj, Json, Tree};
use crate::model::{Answer, Errand, HubState, LanWant, World};
use crate::numeral::{decimal, to_decimal};
use crate::rpc::{error_message, result_message, rpc_error, rpc_result, Fault};
use crate::sessions::own_opt;
use crate::text::{concat3, opt_text, or_empty, own, text_eq, text_or};
use vstd::prelude::*;

verus! {

/// How long a connection may be silent, in milliseconds.
pub const IDLE_MS: u64 = 90000;

/// A connection to the hub.
pub struct Conn {
    lan: bool,
    device_fp: Option<String>,
    client_id: Option<u64>,
}

/// A connection to the hub, as mathematics.
pub struct ConnState {
    pub lan: bool,
    pub fp: Option<Seq<char>>,
    pub client: Option<u64>,
}

impl View for Conn {
    type V = ConnState;

    closed spec fn view(&self) -> ConnState {
        ConnState { lan: self.lan, fp: opt_text(self.device_fp), client: self.client_id }
    }
}

/// What is done about a message that came in.
pub enum ConnStep {
    /// Nothing.
    Nothing,
    /// A message is sent at once.
    Write(Json),
    /// A message is sent behind those that are already on their way.
    Queue(Json),
    /// The connection ends.
    Bye,
    /// The connection breaks off, perhaps with a last message.
    Fail { last: Option<Json>, text: String },
}

/// What is done about a message that came in, as mathematics.
pub enum ConnMove {
    Nothing,
    Write(Tree),
    Queue(Tree),
    Bye,
    Fail { last: Option<Tree>, text: Seq<char> },
}

impl View for ConnStep {
    type V = ConnMove;

    open spec fn view(&self) -> ConnMove {
        match self {
            ConnStep::Nothing => ConnMove::Nothing,
            ConnStep::Write(j) => ConnMove::Write(j@),
            ConnStep::Queue(j) => ConnMove::Queue(j@),
            ConnStep::Bye => ConnMove::Bye,
            ConnStep::Fail { last, text } => ConnMove::Fail {
                last: opt_value(*last),
                text: text@,
            },
        }
    }
}

/// The method of a message.
pub open spec fn method_in(msg: Tree) -> Seq<char> {
    or_empty(msg.get_str("method"@))
}

/// The parameters of a message.
pub open spec fn params_in(msg: Tree) -> Tree {
    match msg.get("params"@) {
        Some(p) => p,
        None => obj(),
    }
}

/// The answer to a request, as a message.
pub open spec fn answer_message(id: Tree, a: Answer) -> ConnMove {
    match a {
        Answer::Done(v) => ConnMove::Queue(result_message(id, v)),
        Answer::Refused(f) => ConnMove::Queue(error_message(id, f.code, f.text)),
        Answer::Pending => ConnMove::Nothing,
    }
}

impl ConnState {
    /// What the first message does: it has to be a greeting.
    pub open spec fn greeted(
        self,
        h: HubState,
        msg: Tree,
        w: World,
        now: u64,
    ) -> (ConnState, HubState, ConnMove) {
        let id = msg.get("id"@);
        if method_in(msg) != "gtm/hello"@ {
            (
                self,
                h,
                ConnMove::Fail {
                    last: match id {
                        Some(t) => Some(
                            error_message(t, -32000, "first request must be gtm/hello"@),
                        ),
                        None => None,
                    },
                    text: "first request must be gtm/hello"@,
                },
            )
        } else {
            let (s, r) = h.greeted(params_in(msg), self.lan, self.fp, w.devices, now);
            match r {
                Ok((client, welcome)) => (
                    ConnState { client: Some(client), ..self },
                    s,
                    match id {
                        Some(t) => ConnMove::Write(result_message(t, welcome)),
                        None => ConnMove::Nothing,
                    },
                ),
                Err(f) => (
                    self,
                    s,
                    ConnMove::Fail {
                        last: match id {
                            Some(t) => Some(error_message(t, f.code, f.text)),
                            None => None,
                        },
                        text: "gtm/hello rejected"@,
                    },
                ),
            }
        }
    }

    /// What a message does.
    pub open spec fn handled(
        self,
        h: HubState,
        msg: Tree,
        w: World,
        now: u64,
    ) -> (ConnState, HubState, ConnMove) {
        let method = method_in(msg);
        match self.client {
            None => self.greeted(h, msg, w, now),
            Some(client) => if method == "gtm/bye"@ {
                (self, h, ConnMove::Bye)
            } else if method.len() == 0 {
                (
                    self,
                    match msg.get("id"@) {
                        Some(id) => h.replied(id, msg.get("result"@), msg.get("error"@)),
                        None => h,
                    },
                    ConnMove::Nothing,
                )
            } else {
                match msg.get("id"@) {
                    None => (
                        self,
                        h.notified(client, method, params_in(msg)),
                        ConnMove::Nothing,
                    ),
                    Some(id) => {
                        let (s, a) = h.requested(client, id, method, params_in(msg), w);
                        (self, s, answer_message(id, a))
                    },
                }
            },
        }
    }

    /// What a message calls for outside the hub before it can be handled.
    pub open spec fn errand(self, h: HubState, msg: Tree) -> Errand {
        let method = method_in(msg);
        match self.client {
            None => if self.lan && method == "gtm/hello"@ {
                Errand::Remote
            } else {
                Errand::Nothing
            },
            Some(client) => if method.len() > 0 && method != "gtm/bye"@ && msg.get(
                "id"@,
            ) is Some {
                h.errand(client, method, params_in(msg))
            } else {
                Errand::Nothing
            },
        }
    }

    /// What the end of a connection does to the hub.
    pub open spec fn ended(self, h: HubState) -> HubState {
        match self.client {
            Some(client) => h.left(client),
            None => h,
        }
    }
}

/// The method of a message.
fn method_of(msg: &Json) -> (r: &str)
    ensures
        r@ == method_in(msg@),
{
    proof {
        reveal_strlit("");
        assert(""@ =~= Seq::<char>::empty());
    }
    text_or(msg.get_str("method"), "")
}

/// The parameters of a message.
fn params_of(msg: &Json) -> (r: Json)
    ensures
        r@ == params_in(msg@),
{
    match msg.get("params") {
        Some(p) => p.copy(),
        None => Json::object(),
    }
}

/// An optional value of its own.
fn own_value(o: Option<&Json>) -> (r: Option<Json>)
    ensures
        opt_value(r) == (match o {
            Some(j) => Some(j@),
            None => None,
        }),
{
    match o {
        Some(j) => Some(j.copy()),
        None => None,
    }
}

impl Conn {
    /// A new connection: how it came in, and the fingerprint of the device's
    /// certificate if it has one.
    pub fn new(lan: bool, device_fp: Option<String>) -> (r: Conn)
        ensures
            r@ == (ConnState { lan, fp: opt_text(device_fp), client: None }),
    {
        Conn { lan, device_fp, client_id: None }
    }

    /// The client, once it was let in.
    pub fn client(&self) -> (r: Option<u64>)
        ensures
            r == self@.client,
    {
        self.client_id
    }

    /// Takes the first message.
    fn greet(&mut self, hub: &mut Hub, msg: &Json, facts: &Facts, now: u64) -> (r: ConnStep)
        ensures
            (final(self)@, final(hub)@, r@) == old(self)@.greeted(
                old(hub)@,
                msg@,
                facts@,
                now,
            ),
    {
        let id: Option<&Json> = msg.get("id");
        if !text_eq(method_of(msg), "gtm/hello") {
            let last: Option<Json> = match id {
                Some(t) => Some(rpc_error(t.copy(), -32000, "first request must be gtm/hello")),
                None => None,
            };
            return ConnStep::Fail { last, text: own("first request must be gtm/hello") };
        }
        match hub.hello(
            &params_of(msg),
            self.lan,
            own_opt(&self.device_fp),
            &facts.devices,
            now,
        ) {
            Ok((client, welcome)) => {
                self.client_id = Some(client);
                match id {
                    Some(t) => ConnStep::Write(rpc_result(t.copy(), welcome)),
                    None => ConnStep::Nothing,
                }
            },
            Err(e) => {
                let last: Option<Json> = match id {
                    Some(t) => Some(e.to_msg(t.copy())),
                    None => None,
                };
                ConnStep::Fail { last, text: own("gtm/hello rejected") }
            },
        }
    }

    /// Takes a message.
    pub fn handle(&mut self, hub: &mut Hub, msg: &Json, facts: &Facts, now: u64) -> (r: ConnStep)
        ensures
            (final(self)@, final(hub)@, r@) == old(self)@.handled(
                old(hub)@,
                msg@,
                facts@,
                now,
            ),
    {
        let client: u64 = match self.client_id {
            Some(c) => c,
            None => {
                return self.greet(hub, msg, facts, now);
            },
        };
        let method: &str = method_of(msg);
        if text_eq(method, "gtm/bye") {
            return ConnStep::Bye;
        }
        let id: Option<&Json> = msg.get("id");
        if method.is_empty() {
            if let Some(t) = id {
                hub.handle_client_reply(
                    t.copy(),
                    own_value(msg.get("result")),
                    own_value(msg.get("error")),
                );
            }
            return ConnStep::Nothing;
        }
        let params: Json = params_of(msg);
        match id {
            None => {
                hub.handle_notification(client, method, &params);
                ConnStep::Nothing
            },
            Some(t) => match hub.handle_request(client, t, method, &params, facts) {
                Dispatch::Pending => ConnStep::Nothing,
                Dispatch::Reply(Ok(value)) => ConnStep::Queue(rpc_result(t.copy(), value)),
                Dispatch::Reply(Err(e)) => ConnStep::Queue(e.to_msg(t.copy())),
            },
        }
    }

    /// What a message calls for outside the hub before it can be handled.
    pub fn lookup(&self, hub: &Hub, msg: &Json) -> (r: Lookup)
        ensures
            r@ == self@.errand(hub@, msg@),
    {
        let method: &str = method_of(msg);
        match self.client_id {
            None => if self.lan && text_eq(method, "gtm/hello") {
                Lookup::Remote
            } else {
                Lookup::Nothing
            },
            Some(client) => if !method.is_empty() && !text_eq(method, "gtm/bye") && msg.get(
                "id",
            ).is_some() {
                hub.lookup(client, method, &params_of(msg))
            } else {
                Lookup::Nothing
            },
        }
    }

    /// Ends the connection: what the client ran ends with it.
    pub fn close(&self, hub: &mut Hub)
        ensures
            final(hub)@ == self@.ended(old(hub)@),
    {
        if let Some(client) = self.client_id {
            hub.disconnect(client);
        }
    }
}

/// Whether a message to a client is the last one.
pub fn is_farewell(msg: &Json) -> (r: bool)
    ensures
        r == (msg@.get_str("method"@) == Some("gtm/hub.shutdown"@)),
{
    match msg.get_str("method") {
        Some(m) => text_eq(m, "gtm/hub.shutdown"),
        None => false,
    }
}

/// How much longer a connection may be silent, in milliseconds.
pub fn idle_left(silent_ms: u64) -> (r: u64)
    ensures
        r == (if silent_ms >= IDLE_MS {
            0
        } else {
            (IDLE_MS - silent_ms) as u64
        }),
{
    if silent_ms >= IDLE_MS {
        0
    } else {
        IDLE_MS - silent_ms
    }
}

/// Why a hub cannot begin on a socket, if it cannot: another one holds the
/// lock, or the socket is there.
pub fn refuse_start(lock_held: bool, socket_there: bool, socket: &str) -> (r: Option<String>)
    ensures
        opt_text(r) == (if lock_held {
            Some("gtm hub already running"@)
        } else if socket_there {
            Some("gtm hub already running (socket "@ + socket@ + ")"@)
        } else {
            None
        }),
{
    if lock_held {
        Some(own("gtm hub already running"))
    } else if socket_there {
        Some(concat3("gtm hub already running (socket ", socket, ")"))
    } else {
        None
    }
}

/// What a hub says when it begins.
pub fn listening_line(socket: &str, pid: u32) -> (r: String)
    ensures
        r@ == "gtm hub listening on "@ + socket@ + " (pid "@ + decimal(pid as nat) + ")"@,
{
    let mut out: String = concat3("gtm hub listening on ", socket, " (pid ");
    out.push_str(to_decimal(pid as u64).as_str());
    out.push_str(")");
    out
}

/// Nothing but a greeting does anything on a new connection: any other first
/// message leaves the hub as it is, and the connection breaks off.
pub proof fn nothing_comes_before_a_greeting(
    c: ConnState,
    h: HubState,
    msg: Tree,
    w: World,
    now: u64,
)
    requires
        c.client is None,
        method_in(msg) != "gtm/hello"@,
    ensures
        c.handled(h, msg, w, now).0 == c,
        c.handled(h, msg, w, now).1 == h,
        c.handled(h, msg, w, now).2 is Fail,
        c.errand(h, msg) == Errand::Nothing,
        c.ended(h) == h,
{
}

/// A greeting that is refused leaves the connection without a client, and it
/// breaks off with the reason under the greeting's id.
pub proof fn refused_greeting_is_answered(
    c: ConnState,
    h: HubState,
    msg: Tree,
    w: World,
    now: u64,
    id: Tree,
    fault: Fault,
)
    requires
        c.client is None,
        method_in(msg) == "gtm/hello"@,
        msg.get("id"@) == Some(id),
        h.greeted(params_in(msg), c.lan, c.fp, w.devices, now).1 == Err::<(u64, Tree), Fault>(
            fault,
        ),
    ensures
        c.handled(h, msg, w, now).0 == c,
        c.handled(h, msg, w, now).2 == (ConnMove::Fail {
            last: Some(error_message(id, fault.code, fault.text)),
            text: "gtm/hello rejected"@,
        }),
{
}

/// A request is answered at once, under its own id, unless its answer is still
/// to come.
pub proof fn request_is_answered_under_its_id(
    c: ConnState,
    h: HubState,
    msg: Tree,
    w: World,
    now: u64,
    client: u64,
    id: Tree,
)
    requires
        c.client == Some(client),
        method_in(msg).len() > 0,
        method_in(msg) != "gtm/bye"@,
        msg.get("id"@) == Some(id),
    ensures
        c.handled(h, msg, w, now).2 == (match h.requested(
            client,
            id,
            method_in(msg),
            params_in(msg),
            w,
        ).1 {
            Answer::Done(v) => ConnMove::Queue(result_message(id, v)),
            Answer::Refused(f) => ConnMove::Queue(error_message(id, f.code, f.text)),
            Answer::Pending => ConnMove::Nothing,
        }),
{
}

/// How long to wait before a network listener that has stopped is started
/// again, in milliseconds.
pub const LAN_PAUSE_MS: u64 = 200;

/// What has happened to the network listener.
#[derive(Clone, Copy, PartialEq, Eq, Structural, Debug)]
pub enum LanEvent {
    /// Nothing yet, or a pause is over.
    Ready,
    /// It has stopped by itself.
    Stopped,
    /// What the hub wants of it may have changed.
    Changed,
    /// The hub wants nothing of it any more.
    Closed,
}

/// What is done next about the network listener.
#[derive(Clone, Copy, PartialEq, Eq, Structural, Debug)]
pub enum LanStep {
    /// Listen on a port until it stops or what the hub wants changes.
    Listen { port: u16 },
    /// Wait until what the hub wants changes.
    Wait,
    /// Wait so many milliseconds.
    Pause { ms: u64 },
    /// Stop for good.
    End,
}

/// What is done next about the network listener: given what the hub wants of
/// it, and what has happened to it.
pub fn lan_step(want: LanWant, event: LanEvent) -> (r: LanStep)
    ensures
        r == (match event {
            LanEvent::Closed => LanStep::End,
            LanEvent::Stopped => LanStep::Pause { ms: LAN_PAUSE_MS },
            _ => if want.enabled {
                LanStep::Listen { port: want.port }
            } else {
                LanStep::Wait
            },
        }),
{
    match event {
        LanEvent::Closed => LanStep::End,
        LanEvent::Stopped => LanStep::Pause { ms: LAN_PAUSE_MS },
        _ => if want.enabled {
            LanStep::Listen { port: want.port }
        } else {
            LanStep::Wait
        },
    }
}

} // verus!
