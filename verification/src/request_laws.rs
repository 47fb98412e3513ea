//! What each request to the hub is for: what it changes, whom it tells, and what
//! it is answered.

use crate::json::Tree;
use crate::model::{
    lan_allowed, Act, Answer, Cmd, Errand, HostedPrompt, HubState, LanWant, Member, Place, Start,
    Waiter, World,
};
use crate::numeral::decimal;
use crate::rpc::{error_message, notice_message, request_message, result_message, Fault};
use crate::table::{lemma_lookup_put, lookup};
use crate::text::begins;
use vstd::prelude::*;

verus! {

/// Messages hold exactly what they are made of: an answer the id and the result,
/// a refusal the id and the error's code and text, a request its id, method and
/// parameters, and a notice its method and parameters.
pub proof fn messages_hold_what_they_are_made_of(
    id: Tree,
    method: Seq<char>,
    params: Tree,
    result: Tree,
    code: int,
    text: Seq<char>,
)
    ensures
        result_message(id, result) == Tree::Object(
            map!["jsonrpc"@ => Tree::Str("2.0"@), "id"@ => id, "result"@ => result],
        ),
        error_message(id, code, text) == Tree::Object(
            map![
                "jsonrpc"@ => Tree::Str("2.0"@),
                "id"@ => id,
                "error"@ => Tree::Object(
                    map!["code"@ => Tree::Int(code), "message"@ => Tree::Str(text)],
                ),
            ],
        ),
        request_message(id, method, params) == Tree::Object(
            map![
                "jsonrpc"@ => Tree::Str("2.0"@),
                "id"@ => id,
                "method"@ => Tree::Str(method),
                "params"@ => params,
            ],
        ),
        notice_message(method, params) == Tree::Object(
            map![
                "jsonrpc"@ => Tree::Str("2.0"@),
                "method"@ => Tree::Str(method),
                "params"@ => params,
            ],
        ),
{
}

/// No two of the methods that the hub knows by name have the same name.
pub proof fn method_names_differ()
    ensures
        "gtm/hello"@ != "gtm/ping"@,
        "gtm/hello"@ != "gtm/hub.info"@,
        "gtm/hello"@ != "gtm/remote.status"@,
        "gtm/hello"@ != "gtm/remote.on"@,
        "gtm/hello"@ != "gtm/remote.off"@,
        "gtm/hello"@ != "gtm/remote.revoke"@,
        "gtm/hello"@ != "gtm/sessions.list"@,
        "gtm/hello"@ != "gtm/sessions.subscribe"@,
        "gtm/hello"@ != "gtm/sessions.unsubscribe"@,
        "gtm/hello"@ != "gtm/sessions.host"@,
        "gtm/hello"@ != "gtm/sessions.unhost"@,
        "gtm/hello"@ != "gtm/session.history"@,
        "gtm/hello"@ != "initialize"@,
        "gtm/hello"@ != "session/new"@,
        "gtm/hello"@ != "session/load"@,
        "gtm/hello"@ != "session/resume"@,
        "gtm/hello"@ != "session/prompt"@,
        "gtm/hello"@ != "session/cancel"@,
        "gtm/ping"@ != "gtm/hub.info"@,
        "gtm/ping"@ != "gtm/remote.status"@,
        "gtm/ping"@ != "gtm/remote.on"@,
        "gtm/ping"@ != "gtm/remote.off"@,
        "gtm/ping"@ != "gtm/remote.revoke"@,
        "gtm/ping"@ != "gtm/sessions.list"@,
        "gtm/ping"@ != "gtm/sessions.subscribe"@,
        "gtm/ping"@ != "gtm/sessions.unsubscribe"@,
        "gtm/ping"@ != "gtm/sessions.host"@,
        "gtm/ping"@ != "gtm/sessions.unhost"@,
        "gtm/ping"@ != "gtm/session.history"@,
        "gtm/ping"@ != "initialize"@,
        "gtm/ping"@ != "session/new"@,
        "gtm/ping"@ != "session/load"@,
        "gtm/ping"@ != "session/resume"@,
        "gtm/ping"@ != "session/prompt"@,
        "gtm/ping"@ != "session/cancel"@,
        "gtm/hub.info"@ != "gtm/remote.status"@,
        "gtm/hub.info"@ != "gtm/remote.on"@,
        "gtm/hub.info"@ != "gtm/remote.off"@,
        "gtm/hub.info"@ != "gtm/remote.revoke"@,
        "gtm/hub.info"@ != "gtm/sessions.list"@,
        "gtm/hub.info"@ != "gtm/sessions.subscribe"@,
        "gtm/hub.info"@ != "gtm/sessions.unsubscribe"@,
        "gtm/hub.info"@ != "gtm/sessions.host"@,
        "gtm/hub.info"@ != "gtm/sessions.unhost"@,
        "gtm/hub.info"@ != "gtm/session.history"@,
        "gtm/hub.info"@ != "initialize"@,
        "gtm/hub.info"@ != "session/new"@,
        "gtm/hub.info"@ != "session/load"@,
        "gtm/hub.info"@ != "session/resume"@,
        "gtm/hub.info"@ != "session/prompt"@,
        "gtm/hub.info"@ != "session/cancel"@,
        "gtm/remote.status"@ != "gtm/remote.on"@,
        "gtm/remote.status"@ != "gtm/remote.off"@,
        "gtm/remote.status"@ != "gtm/remote.revoke"@,
        "gtm/remote.status"@ != "gtm/sessions.list"@,
        "gtm/remote.status"@ != "gtm/sessions.subscribe"@,
        "gtm/remote.status"@ != "gtm/sessions.unsubscribe"@,
        "gtm/remote.status"@ != "gtm/sessions.host"@,
        "gtm/remote.status"@ != "gtm/sessions.unhost"@,
        "gtm/remote.status"@ != "gtm/session.history"@,
        "gtm/remote.status"@ != "initialize"@,
        "gtm/remote.status"@ != "session/new"@,
        "gtm/remote.status"@ != "session/load"@,
        "gtm/remote.status"@ != "session/resume"@,
        "gtm/remote.status"@ != "session/prompt"@,
        "gtm/remote.status"@ != "session/cancel"@,
        "gtm/remote.on"@ != "gtm/remote.off"@,
        "gtm/remote.on"@ != "gtm/remote.revoke"@,
        "gtm/remote.on"@ != "gtm/sessions.list"@,
        "gtm/remote.on"@ != "gtm/sessions.subscribe"@,
        "gtm/remote.on"@ != "gtm/sessions.unsubscribe"@,
        "gtm/remote.on"@ != "gtm/sessions.host"@,
        "gtm/remote.on"@ != "gtm/sessions.unhost"@,
        "gtm/remote.on"@ != "gtm/session.history"@,
        "gtm/remote.on"@ != "initialize"@,
        "gtm/remote.on"@ != "session/new"@,
        "gtm/remote.on"@ != "session/load"@,
        "gtm/remote.on"@ != "session/resume"@,
        "gtm/remote.on"@ != "session/prompt"@,
        "gtm/remote.on"@ != "session/cancel"@,
        "gtm/remote.off"@ != "gtm/remote.revoke"@,
        "gtm/remote.off"@ != "gtm/sessions.list"@,
        "gtm/remote.off"@ != "gtm/sessions.subscribe"@,
        "gtm/remote.off"@ != "gtm/sessions.unsubscribe"@,
        "gtm/remote.off"@ != "gtm/sessions.host"@,
        "gtm/remote.off"@ != "gtm/sessions.unhost"@,
        "gtm/remote.off"@ != "gtm/session.history"@,
        "gtm/remote.off"@ != "initialize"@,
        "gtm/remote.off"@ != "session/new"@,
        "gtm/remote.off"@ != "session/load"@,
        "gtm/remote.off"@ != "session/resume"@,
        "gtm/remote.off"@ != "session/prompt"@,
        "gtm/remote.off"@ != "session/cancel"@,
        "gtm/remote.revoke"@ != "gtm/sessions.list"@,
        "gtm/remote.revoke"@ != "gtm/sessions.subscribe"@,
        "gtm/remote.revoke"@ != "gtm/sessions.unsubscribe"@,
        "gtm/remote.revoke"@ != "gtm/sessions.host"@,
        "gtm/remote.revoke"@ != "gtm/sessions.unhost"@,
        "gtm/remote.revoke"@ != "gtm/session.history"@,
        "gtm/remote.revoke"@ != "initialize"@,
        "gtm/remote.revoke"@ != "session/new"@,
        "gtm/remote.revoke"@ != "session/load"@,
        "gtm/remote.revoke"@ != "session/resume"@,
        "gtm/remote.revoke"@ != "session/prompt"@,
        "gtm/remote.revoke"@ != "session/cancel"@,
        "gtm/sessions.list"@ != "gtm/sessions.subscribe"@,
        "gtm/sessions.list"@ != "gtm/sessions.unsubscribe"@,
        "gtm/sessions.list"@ != "gtm/sessions.host"@,
        "gtm/sessions.list"@ != "gtm/sessions.unhost"@,
        "gtm/sessions.list"@ != "gtm/session.history"@,
        "gtm/sessions.list"@ != "initialize"@,
        "gtm/sessions.list"@ != "session/new"@,
        "gtm/sessions.list"@ != "session/load"@,
        "gtm/sessions.list"@ != "session/resume"@,
        "gtm/sessions.list"@ != "session/prompt"@,
        "gtm/sessions.list"@ != "session/cancel"@,
        "gtm/sessions.subscribe"@ != "gtm/sessions.unsubscribe"@,
        "gtm/sessions.subscribe"@ != "gtm/sessions.host"@,
        "gtm/sessions.subscribe"@ != "gtm/sessions.unhost"@,
        "gtm/sessions.subscribe"@ != "gtm/session.history"@,
        "gtm/sessions.subscribe"@ != "initialize"@,
        "gtm/sessions.subscribe"@ != "session/new"@,
        "gtm/sessions.subscribe"@ != "session/load"@,
        "gtm/sessions.subscribe"@ != "session/resume"@,
        "gtm/sessions.subscribe"@ != "session/prompt"@,
        "gtm/sessions.subscribe"@ != "session/cancel"@,
        "gtm/sessions.unsubscribe"@ != "gtm/sessions.host"@,
        "gtm/sessions.unsubscribe"@ != "gtm/sessions.unhost"@,
        "gtm/sessions.unsubscribe"@ != "gtm/session.history"@,
        "gtm/sessions.unsubscribe"@ != "initialize"@,
        "gtm/sessions.unsubscribe"@ != "session/new"@,
        "gtm/sessions.unsubscribe"@ != "session/load"@,
        "gtm/sessions.unsubscribe"@ != "session/resume"@,
        "gtm/sessions.unsubscribe"@ != "session/prompt"@,
        "gtm/sessions.unsubscribe"@ != "session/cancel"@,
        "gtm/sessions.host"@ != "gtm/sessions.unhost"@,
        "gtm/sessions.host"@ != "gtm/session.history"@,
        "gtm/sessions.host"@ != "initialize"@,
        "gtm/sessions.host"@ != "session/new"@,
        "gtm/sessions.host"@ != "session/load"@,
        "gtm/sessions.host"@ != "session/resume"@,
        "gtm/sessions.host"@ != "session/prompt"@,
        "gtm/sessions.host"@ != "session/cancel"@,
        "gtm/sessions.unhost"@ != "gtm/session.history"@,
        "gtm/sessions.unhost"@ != "initialize"@,
        "gtm/sessions.unhost"@ != "session/new"@,
        "gtm/sessions.unhost"@ != "session/load"@,
        "gtm/sessions.unhost"@ != "session/resume"@,
        "gtm/sessions.unhost"@ != "session/prompt"@,
        "gtm/sessions.unhost"@ != "session/cancel"@,
        "gtm/session.history"@ != "initialize"@,
        "gtm/session.history"@ != "session/new"@,
        "gtm/session.history"@ != "session/load"@,
        "gtm/session.history"@ != "session/resume"@,
        "gtm/session.history"@ != "session/prompt"@,
        "gtm/session.history"@ != "session/cancel"@,
        "initialize"@ != "session/new"@,
        "initialize"@ != "session/load"@,
        "initialize"@ != "session/resume"@,
        "initialize"@ != "session/prompt"@,
        "initialize"@ != "session/cancel"@,
        "session/new"@ != "session/load"@,
        "session/new"@ != "session/resume"@,
        "session/new"@ != "session/prompt"@,
        "session/new"@ != "session/cancel"@,
        "session/load"@ != "session/resume"@,
        "session/load"@ != "session/prompt"@,
        "session/load"@ != "session/cancel"@,
        "session/resume"@ != "session/prompt"@,
        "session/resume"@ != "session/cancel"@,
        "session/prompt"@ != "session/cancel"@,
{
    reveal_strlit("gtm/hello");
    assert("gtm/hello"@.len() == 9);
    reveal_strlit("gtm/ping");
    assert("gtm/ping"@.len() == 8);
    reveal_strlit("gtm/hub.info");
    assert("gtm/hub.info"@.len() == 12);
    reveal_strlit("gtm/remote.status");
    assert("gtm/remote.status"@.len() == 17);
    reveal_strlit("gtm/remote.on");
    assert("gtm/remote.on"@.len() == 13);
    reveal_strlit("gtm/remote.off");
    assert("gtm/remote.off"@.len() == 14);
    reveal_strlit("gtm/remote.revoke");
    assert("gtm/remote.revoke"@.len() == 17);
    reveal_strlit("gtm/sessions.list");
    assert("gtm/sessions.list"@.len() == 17);
    reveal_strlit("gtm/sessions.subscribe");
    assert("gtm/sessions.subscribe"@.len() == 22);
    reveal_strlit("gtm/sessions.unsubscribe");
    assert("gtm/sessions.unsubscribe"@.len() == 24);
    reveal_strlit("gtm/sessions.host");
    assert("gtm/sessions.host"@.len() == 17);
    reveal_strlit("gtm/sessions.unhost");
    assert("gtm/sessions.unhost"@.len() == 19);
    reveal_strlit("gtm/session.history");
    assert("gtm/session.history"@.len() == 19);
    reveal_strlit("initialize");
    assert("initialize"@.len() == 10);
    reveal_strlit("session/new");
    assert("session/new"@.len() == 11);
    reveal_strlit("session/load");
    assert("session/load"@.len() == 12);
    reveal_strlit("session/resume");
    assert("session/resume"@.len() == 14);
    reveal_strlit("session/prompt");
    assert("session/prompt"@.len() == 14);
    reveal_strlit("session/cancel");
    assert("session/cancel"@.len() == 14);
    assert("gtm/hub.info"@[0] != "session/load"@[0]);
    assert("gtm/remote.status"@[11] != "gtm/remote.revoke"@[11]);
    assert("gtm/remote.status"@[4] != "gtm/sessions.list"@[4]);
    assert("gtm/remote.status"@[4] != "gtm/sessions.host"@[4]);
    assert("gtm/remote.off"@[0] != "session/resume"@[0]);
    assert("gtm/remote.off"@[0] != "session/prompt"@[0]);
    assert("gtm/remote.off"@[0] != "session/cancel"@[0]);
    assert("gtm/remote.revoke"@[4] != "gtm/sessions.list"@[4]);
    assert("gtm/remote.revoke"@[4] != "gtm/sessions.host"@[4]);
    assert("gtm/sessions.list"@[13] != "gtm/sessions.host"@[13]);
    assert("gtm/sessions.unhost"@[11] != "gtm/session.history"@[11]);
    assert("session/resume"@[8] != "session/prompt"@[8]);
    assert("session/resume"@[8] != "session/cancel"@[8]);
    assert("session/prompt"@[8] != "session/cancel"@[8]);
}

/// A client that is connected is answered whether the hub is there, and what it
/// can do; such a request changes nothing.
pub proof fn ping_and_initialize_are_answered(
    h: HubState,
    client: u64,
    id: Tree,
    params: Tree,
    w: World,
)
    ensures
        h.requested(client, id, "gtm/ping"@, params, w) == (
            h,
            Answer::Done(Tree::Object(map!["ok"@ => Tree::Bool(true)])),
        ),
        h.requested(client, id, "initialize"@, params, w) == (
            h,
            Answer::Done(
                Tree::Object(
                    map![
                        "protocolVersion"@ => Tree::Int(1),
                        "serverInfo"@ => Tree::Object(
                            map![
                                "name"@ => Tree::Str("gtm-hub"@),
                                "version"@ => Tree::Str("0.1.0"@),
                            ],
                        ),
                        "agentInfo"@ => Tree::Object(
                            map![
                                "name"@ => Tree::Str("gtm-hub"@),
                                "version"@ => Tree::Str("0.1.0"@),
                            ],
                        ),
                        "agentCapabilities"@ => Tree::Object(
                            map![
                                "loadSession"@ => Tree::Bool(true),
                                "resumeSession"@ => Tree::Bool(true),
                            ],
                        ),
                    ],
                ),
            ),
        ),
        !h.on_lan(client) ==> h.requested(client, id, "gtm/hello"@, params, w) == (
            h,
            Answer::Refused(Fault { code: -32000, text: "gtm/hello already completed"@ }),
        ),
{
    method_names_differ();
}

/// A request to stop a prompt of a session that a client runs goes to that
/// client, as it came, and is answered at once; nothing else is sent or changes.
/// Of a session that an agent of the hub runs it goes to the agent's actor, and
/// of one that nobody runs it is refused.
pub proof fn cancel_reaches_whoever_runs_the_session(
    h: HubState,
    client: u64,
    id: Tree,
    params: Tree,
    w: World,
    sid: Seq<char>,
)
    requires
        params.get("sessionId"@) == Some(Tree::Str(sid)),
    ensures
        ({
            let (g, a) = h.requested(client, id, "session/cancel"@, params, w);
            match h.place(sid) {
                Some(Place::Hosted { client: host, .. }) => {
                    &&& a == Answer::Done(Tree::Object(map![]))
                    &&& h.member(host) is Some ==> g == (HubState {
                        out: h.out.push(
                            Act::Send(host, notice_message("session/cancel"@, params)),
                        ),
                        ..h
                    })
                    &&& h.member(host) is None ==> g == h
                },
                Some(Place::Live { actor, .. }) => {
                    &&& a == Answer::Pending
                    &&& g == (HubState {
                        out: h.out.push(
                            Act::Order(
                                actor,
                                Cmd::Rpc { client, id, method: "session/cancel"@, params },
                            ),
                        ),
                        ..h
                    })
                },
                _ => g == h && a == Answer::Refused(
                    Fault { code: -32012, text: "no live session "@ + sid },
                ),
            }
        }),
{
    method_names_differ();
}

/// What the hub says of itself: the process and the socket that it runs on, the
/// protocol, its network listener, and each session that it knows of, with what
/// it is called, where it works and who runs it. Nothing changes.
pub proof fn hub_says_what_it_is(h: HubState, client: u64, id: Tree, params: Tree, w: World)
    ensures
        h.requested(client, id, "gtm/hub.info"@, params, w) == (
            h,
            Answer::Done(
                Tree::Object(
                    map![
                        "pid"@ => Tree::Int(w.pid as int),
                        "socket"@ => Tree::Str(w.socket),
                        "protocolVersion"@ => Tree::Int(1),
                        "running"@ => Tree::Bool(true),
                        "lan"@ => Tree::Bool(h.lan.enabled),
                        "lanBind"@ => if h.lan.enabled {
                            Tree::Str("0.0.0.0:"@ + decimal(h.lan.port as nat))
                        } else {
                            Tree::Null
                        },
                        "live"@ => Tree::Array(
                            h.sessions.map_values(
                                |e: (Seq<char>, Place)|
                                    match e.1 {
                                        Place::Live { cwd, title, .. } => Tree::Object(
                                            map![
                                                "id"@ => Tree::Str(e.0),
                                                "hosted"@ => Tree::Bool(false),
                                                "title"@ => Tree::Str(title),
                                                "cwd"@ => text_or_null(cwd),
                                            ],
                                        ),
                                        Place::Hosted { cwd, title, .. } => Tree::Object(
                                            map![
                                                "id"@ => Tree::Str(e.0),
                                                "hosted"@ => Tree::Bool(true),
                                                "title"@ => Tree::Str(title),
                                                "cwd"@ => text_or_null(cwd),
                                            ],
                                        ),
                                        Place::Starting(_) => Tree::Object(
                                            map![
                                                "id"@ => Tree::Str(e.0),
                                                "hosted"@ => Tree::Bool(false),
                                                "starting"@ => Tree::Bool(true),
                                            ],
                                        ),
                                    },
                            ),
                        ),
                    ],
                ),
            ),
        ),
{
    method_names_differ();
    let live = h.requested(client, id, "gtm/hub.info"@, params, w).1->Done_0.get("live"@)->0;
    assert(live->Array_0 =~= h.sessions.map_values(
        |e: (Seq<char>, Place)|
            match e.1 {
                Place::Live { cwd, title, .. } => Tree::Object(
                    map![
                        "id"@ => Tree::Str(e.0),
                        "hosted"@ => Tree::Bool(false),
                        "title"@ => Tree::Str(title),
                        "cwd"@ => text_or_null(cwd),
                    ],
                ),
                Place::Hosted { cwd, title, .. } => Tree::Object(
                    map![
                        "id"@ => Tree::Str(e.0),
                        "hosted"@ => Tree::Bool(true),
                        "title"@ => Tree::Str(title),
                        "cwd"@ => text_or_null(cwd),
                    ],
                ),
                Place::Starting(_) => Tree::Object(
                    map![
                        "id"@ => Tree::Str(e.0),
                        "hosted"@ => Tree::Bool(false),
                        "starting"@ => Tree::Bool(true),
                    ],
                ),
            },
    ));
}

/// What a local client learns of the network listener: whether it is open, where,
/// for how many devices and on which host. Nothing changes.
pub proof fn listener_is_told_of(h: HubState, client: u64, id: Tree, params: Tree, w: World)
    requires
        !h.on_lan(client),
    ensures
        h.requested(client, id, "gtm/remote.status"@, params, w) == (
            h,
            Answer::Done(
                Tree::Object(
                    map![
                        "lan"@ => Tree::Bool(h.lan.enabled),
                        "port"@ => Tree::Int(h.lan.port as int),
                        "bind"@ => if h.lan.enabled {
                            Tree::Str("0.0.0.0:"@ + decimal(h.lan.port as nat))
                        } else {
                            Tree::Null
                        },
                        "devices"@ => Tree::Int(w.devices.len() as int),
                        "host"@ => Tree::Str(w.host),
                    ],
                ),
            ),
        ),
{
    method_names_differ();
}

/// A local client opens the network listener, on the port that it names if that
/// is one and otherwise on the usual one, and is told where it is; without a
/// certificate it stays as it is and the client is told why. Nothing else
/// changes.
pub proof fn local_client_opens_the_listener(
    h: HubState,
    client: u64,
    id: Tree,
    params: Tree,
    w: World,
)
    requires
        !h.on_lan(client),
    ensures
        ({
            let (g, a) = h.requested(client, id, "gtm/remote.on"@, params, w);
            match w.materials {
                Some(err) => g == h && a == Answer::Refused(Fault { code: -32011, text: err }),
                None => {
                    &&& g == (HubState { lan: LanWant { enabled: true, port: g.lan.port }, ..h })
                    &&& g.lan.port as int == match params.get("port"@) {
                        Some(Tree::Int(n)) => if 0 < n <= 65535 {
                            n
                        } else {
                            w.lan_port as int
                        },
                        _ => w.lan_port as int,
                    }
                    &&& a == Answer::Done(
                        Tree::Object(
                            map![
                                "lan"@ => Tree::Bool(true),
                                "port"@ => Tree::Int(g.lan.port as int),
                                "bind"@ => Tree::Str("0.0.0.0:"@ + decimal(g.lan.port as nat)),
                                "host"@ => Tree::Str(w.host),
                                "alpn"@ => Tree::Str("gtm-hub"@),
                            ],
                        ),
                    )
                },
            }
        }),
{
    method_names_differ();
}

/// A local client closes the network listener; its port is kept, and nothing else
/// changes.
pub proof fn local_client_closes_the_listener(
    h: HubState,
    client: u64,
    id: Tree,
    params: Tree,
    w: World,
)
    requires
        !h.on_lan(client),
    ensures
        h.requested(client, id, "gtm/remote.off"@, params, w) == (
            HubState { lan: LanWant { enabled: false, port: h.lan.port }, ..h },
            Answer::Done(Tree::Object(map!["lan"@ => Tree::Bool(false)])),
        ),
{
    method_names_differ();
}

/// A text as JSON, or null where there is none.
pub open spec fn text_or_null(o: Option<Seq<char>>) -> Tree {
    if o is Some {
        Tree::Str(o->0)
    } else {
        Tree::Null
    }
}

/// A client that asks to follow a session follows it, besides what it followed
/// before, and is told whether somebody runs the session; one that asks to follow
/// it no more follows all the rest. Nobody else follows more or less, nothing is
/// sent, and nothing else changes.
pub proof fn clients_follow_what_they_ask_for(
    h: HubState,
    client: u64,
    id: Tree,
    params: Tree,
    w: World,
    sid: Seq<char>,
    other: u64,
)
    requires
        params.get("sessionId"@) == Some(Tree::Str(sid)),
        h.member(client) is Some,
    ensures
        ({
            let m = h.member(client)->0;
            let (g, a) = h.requested(client, id, "gtm/sessions.subscribe"@, params, w);
            &&& g.member(client) == Some(
                Member { subs: m.subs.insert(sid), lan: m.lan, fp: m.fp },
            )
            &&& other != client ==> g.member(other) == h.member(other)
            &&& g == (HubState { clients: g.clients, ..h })
            &&& a == Answer::Done(
                Tree::Object(
                    map![
                        "ok"@ => Tree::Bool(true),
                        "live"@ => Tree::Bool(
                            match h.place(sid) {
                                Some(Place::Live { .. }) => true,
                                Some(Place::Hosted { .. }) => true,
                                _ => false,
                            },
                        ),
                    ],
                ),
            )
        }),
        ({
            let m = h.member(client)->0;
            let (g, a) = h.requested(client, id, "gtm/sessions.unsubscribe"@, params, w);
            &&& g.member(client) == Some(
                Member { subs: m.subs.remove(sid), lan: m.lan, fp: m.fp },
            )
            &&& other != client ==> g.member(other) == h.member(other)
            &&& g == (HubState { clients: g.clients, ..h })
            &&& a == Answer::Done(Tree::Object(map!["ok"@ => Tree::Bool(true)]))
        }),
{
    method_names_differ();
    crate::laws::following_is_per_client(h, client, sid, other);
}

/// A request that has to name a session, and does not, changes nothing and is
/// told so.
pub proof fn session_has_to_be_named(h: HubState, client: u64, id: Tree, params: Tree, w: World)
    requires
        !(params.get("sessionId"@) matches Some(Tree::Str(_))),
    ensures
        h.requested(client, id, "gtm/sessions.subscribe"@, params, w) == (
            h,
            Answer::Refused(Fault { code: -32602, text: "subscribe requires sessionId"@ }),
        ),
        h.requested(client, id, "gtm/sessions.unsubscribe"@, params, w) == (
            h,
            Answer::Refused(Fault { code: -32602, text: "unsubscribe requires sessionId"@ }),
        ),
        h.requested(client, id, "gtm/session.history"@, params, w) == (
            h,
            Answer::Refused(Fault { code: -32602, text: "sessionId required"@ }),
        ),
        h.requested(client, id, "session/load"@, params, w) == (
            h,
            Answer::Refused(Fault { code: -32602, text: "session/load requires sessionId"@ }),
        ),
        h.requested(client, id, "session/resume"@, params, w) == (
            h,
            Answer::Refused(Fault { code: -32602, text: "session/load requires sessionId"@ }),
        ),
        h.requested(client, id, "session/prompt"@, params, w) == (
            h,
            Answer::Refused(Fault { code: -32602, text: "session/prompt requires sessionId"@ }),
        ),
        h.requested(client, id, "session/cancel"@, params, w) == (
            h,
            Answer::Refused(Fault { code: -32602, text: "session/cancel requires sessionId"@ }),
        ),
        !h.on_lan(client) ==> h.requested(client, id, "gtm/sessions.host"@, params, w) == (
            h,
            Answer::Refused(Fault { code: -32602, text: "sessionId required"@ }),
        ),
        !h.on_lan(client) ==> h.requested(client, id, "gtm/sessions.unhost"@, params, w) == (
            h,
            Answer::Refused(Fault { code: -32602, text: "sessionId required"@ }),
        ),
{
    method_names_differ();
}

/// An empty name names no session where one is to be opened, run or shown, and a
/// request that goes to an agent has to name one too.
pub proof fn empty_name_names_no_session(
    h: HubState,
    client: u64,
    id: Tree,
    params: Tree,
    w: World,
    method: Seq<char>,
)
    ensures
        params.get("sessionId"@) == Some(Tree::Str(Seq::empty())) ==> {
            &&& h.requested(client, id, "gtm/session.history"@, params, w) == (
                h,
                Answer::Refused(Fault { code: -32602, text: "sessionId required"@ }),
            )
            &&& h.requested(client, id, "session/load"@, params, w) == (
                h,
                Answer::Refused(Fault { code: -32602, text: "session/load requires sessionId"@ }),
            )
            &&& h.requested(client, id, "session/resume"@, params, w) == (
                h,
                Answer::Refused(Fault { code: -32602, text: "session/load requires sessionId"@ }),
            )
            &&& !h.on_lan(client) ==> h.requested(client, id, "gtm/sessions.host"@, params, w) == (
                h,
                Answer::Refused(Fault { code: -32602, text: "sessionId required"@ }),
            )
            &&& !h.on_lan(client) ==> h.requested(client, id, "gtm/sessions.unhost"@, params, w)
                == (h, Answer::Refused(Fault { code: -32602, text: "sessionId required"@ }))
        },
        !(params.get("sessionId"@) matches Some(Tree::Str(_))) && (begins(method, "session/"@)
            || begins(method, "x.ai/"@) || begins(method, "_x.ai/"@)) && method != "session/new"@
            && method != "session/load"@ && method != "session/resume"@ && (!h.on_lan(client)
            || lan_allowed(method)) ==> h.requested(client, id, method, params, w) == (
            h,
            Answer::Refused(Fault { code: -32602, text: method + " requires sessionId"@ }),
        ),
{
    method_names_differ();
    if begins(method, "session/"@) || begins(method, "x.ai/"@) || begins(method, "_x.ai/"@) {
        lemma_session_methods(method);
        reveal_strlit("session/prompt");
        reveal_strlit("session/cancel");
        reveal_strlit(" requires sessionId");
        reveal_strlit("session/prompt requires sessionId");
        reveal_strlit("session/cancel requires sessionId");
        assert("session/prompt"@ + " requires sessionId"@ =~= "session/prompt requires sessionId"@);
        assert("session/cancel"@ + " requires sessionId"@ =~= "session/cancel requires sessionId"@);
    }
}

/// A local client that asks for a new session in a directory gets an agent
/// started for it, with the parameters that it gave, under a number of the
/// agent's own; it is answered once the session is there. Without a directory it
/// is refused.
pub proof fn new_session_starts_an_agent(
    h: HubState,
    client: u64,
    id: Tree,
    params: Tree,
    w: World,
)
    requires
        !h.on_lan(client),
    ensures
        ({
            let (g, a) = h.requested(client, id, "session/new"@, params, w);
            if params.get("cwd"@) matches Some(Tree::Str(cwd)) && cwd.len() > 0 {
                &&& a == Answer::Pending
                &&& g == (HubState {
                    next_actor: g.next_actor,
                    out: h.out.push(
                        Act::Spawn { actor: h.next_actor, start: Start::New, client, id, params },
                    ),
                    ..h
                })
                &&& h.next_actor < u64::MAX ==> g.next_actor == h.next_actor + 1
            } else {
                g == h && a == Answer::Refused(
                    Fault { code: -32602, text: "session/new requires cwd"@ },
                )
            }
        }),
{
    method_names_differ();
}

/// The parameters by which an agent is asked for a session that there is already:
/// those that the client gave, with the session's directory put in where the
/// client gave none and the disk knows one.
pub open spec fn full_params(params: Tree, disk_cwd: Option<Seq<char>>) -> Tree {
    match (params.get("cwd"@), params, disk_cwd) {
        (Some(Tree::Str(s)), _, _) if s.len() > 0 => params,
        (_, Tree::Object(m), Some(cwd)) => Tree::Object(m.insert("cwd"@, Tree::Str(cwd))),
        (_, _, Some(cwd)) => Tree::Object(map!["cwd"@ => Tree::Str(cwd)]),
        _ => params,
    }
}

/// A client that asks for a session that there is already, and whose directory is
/// known, is let in on it. Where an agent of the hub runs it, or another client
/// does, the client follows it from then on and is answered at once: with what the
/// agent said of it, or with its title and directory. Where an agent is being
/// started for it the client waits with the others. Otherwise an agent is started
/// for it and the client waits. Where the directory is not known the client is
/// refused.
pub proof fn attaching_joins_or_starts_the_session(
    h: HubState,
    client: u64,
    id: Tree,
    params: Tree,
    w: World,
    sid: Seq<char>,
    resume: bool,
    other: Seq<char>,
    one: u64,
)
    requires
        params.get("sessionId"@) == Some(Tree::Str(sid)),
        sid.len() > 0,
        h.member(client) is Some,
    ensures
        ({
            let method = if resume {
                "session/resume"@
            } else {
                "session/load"@
            };
            let (g, a) = h.requested(client, id, method, params, w);
            let full = full_params(params, crate::sessions::disk_cwd(w.disk));
            let m = h.member(client)->0;
            let follows = {
                &&& g.member(client) == Some(
                    Member { subs: m.subs.insert(sid), lan: m.lan, fp: m.fp },
                )
                &&& one != client ==> g.member(one) == h.member(one)
                &&& g == (HubState { clients: g.clients, ..h })
            };
            if !(full.get("cwd"@) matches Some(Tree::Str(cwd)) && cwd.len() > 0) {
                g == h && a == Answer::Refused(
                    Fault { code: -32602, text: "session/load "@ + sid + " is missing cwd"@ },
                )
            } else {
                match h.place(sid) {
                    Some(Place::Live { result, .. }) => follows && a == Answer::Done(result),
                    Some(Place::Hosted { cwd, title, .. }) => follows && a == Answer::Done(
                        Tree::Object(
                            map![
                                "sessionId"@ => Tree::Str(sid),
                                "title"@ => Tree::Str(title),
                                "cwd"@ => text_or_null(cwd),
                                "hosted"@ => Tree::Bool(true),
                            ],
                        ),
                    ),
                    Some(Place::Starting(waiting)) => {
                        &&& a == Answer::Pending
                        &&& g.place(sid) == Some(
                            Place::Starting(waiting.push(Waiter { client, id })),
                        )
                        &&& other != sid ==> g.place(other) == h.place(other)
                        &&& g == (HubState { sessions: g.sessions, ..h })
                    },
                    None => {
                        &&& a == Answer::Pending
                        &&& g.place(sid) == Some(Place::Starting(seq![Waiter { client, id }]))
                        &&& other != sid ==> g.place(other) == h.place(other)
                        &&& g == (HubState {
                            sessions: g.sessions,
                            next_actor: g.next_actor,
                            out: h.out.push(
                                Act::Spawn {
                                    actor: h.next_actor,
                                    start: if resume {
                                        Start::Resume
                                    } else {
                                        Start::Load
                                    },
                                    client,
                                    id,
                                    params: full,
                                },
                            ),
                            ..h
                        })
                        &&& h.next_actor < u64::MAX ==> g.next_actor == h.next_actor + 1
                    },
                }
            }
        }),
{
    method_names_differ();
    crate::laws::following_is_per_client(h, client, sid, one);
    crate::sessions::disk_cwd_is_not_empty(w.disk);
    let joining = match h.place(sid) {
        Some(Place::Starting(waiting)) => Place::Starting(waiting.push(Waiter { client, id })),
        _ => Place::Starting(seq![Waiter { client, id }]),
    };
    lemma_lookup_put(h.sessions, sid, joining, sid);
    lemma_lookup_put(h.sessions, sid, joining, other);
}

/// What shows a prompt to those who follow the session.
pub open spec fn shown_prompt(sid: Seq<char>, text: Seq<char>) -> Tree {
    notice_message(
        "session/update"@,
        Tree::Object(
            map![
                "sessionId"@ => Tree::Str(sid),
                "update"@ => Tree::Object(
                    map![
                        "sessionUpdate"@ => Tree::Str("user_message_chunk"@),
                        "content"@ => Tree::Object(
                            map!["type"@ => Tree::Str("text"@), "text"@ => Tree::Str(text)],
                        ),
                    ],
                ),
            ],
        ),
    )
}

/// A prompt for a session that another client runs is handed to that client as it
/// came, under the id that it came under, last of all; before that it is shown to
/// everyone who follows the session, the sender among them from then on. The hub
/// notes whom the answer is for. Nothing else is sent or changes.
pub proof fn hosted_prompt_goes_to_its_host(
    h: HubState,
    client: u64,
    id: Tree,
    params: Tree,
    w: World,
    sid: Seq<char>,
    host: u64,
    other: u64,
)
    requires
        params.get("sessionId"@) == Some(Tree::Str(sid)),
        h.place(sid) matches Some(Place::Hosted { client: c, .. }) && c == host,
        h.member(client) is Some,
        h.member(host) is Some,
    ensures
        ({
            let (g, a) = h.requested(client, id, "session/prompt"@, params, w);
            let m = h.member(client)->0;
            if host == client {
                g == h && a == Answer::Refused(
                    Fault { code: -32000, text: "host client already owns this session"@ },
                )
            } else {
                &&& a == Answer::Pending
                &&& g.member(client) == Some(
                    Member { subs: m.subs.insert(sid), lan: m.lan, fp: m.fp },
                )
                &&& other != client ==> g.member(other) == h.member(other)
                &&& lookup(g.prompts, crate::codec::printed(id)) == Some(
                    HostedPrompt { origin: client, host },
                )
                &&& g.out == h.out + (match crate::model::prompt_text(params) {
                    Some(text) => g.followers(sid).map_values(
                        |c: u64| Act::Send(c, shown_prompt(sid, text)),
                    ),
                    None => Seq::empty(),
                }) + seq![Act::Send(host, request_message(id, "session/prompt"@, params))]
                &&& g == (HubState {
                    clients: g.clients,
                    prompts: g.prompts,
                    out: g.out,
                    ..h
                })
            }
        }),
{
    method_names_differ();
    crate::laws::following_is_per_client(h, client, sid, other);
    crate::laws::following_is_per_client(h, client, sid, host);
    let f = h.following(client, sid);
    let key = crate::codec::printed(id);
    lemma_lookup_put(f.prompts, key, HostedPrompt { origin: client, host }, key);
    let (g, a) = h.requested(client, id, "session/prompt"@, params, w);
    if host != client {
        assert(g.clients == f.clients);
        assert(g.followers(sid) == f.followers(sid));
        match crate::model::prompt_text(params) {
            Some(text) => {
                let shown = g.followers(sid).map_values(
                    |c: u64| Act::Send(c, shown_prompt(sid, text)),
                );
                assert(shown =~= f.followers(sid).map_values(
                    |c: u64| Act::Send(c, crate::model::prompt_echo(sid, text)),
                ));
                assert(g.out =~= h.out + shown + seq![
                    Act::Send(host, request_message(id, "session/prompt"@, params)),
                ]);
            },
            None => {
                assert(g.out =~= h.out + Seq::<Act>::empty() + seq![
                    Act::Send(host, request_message(id, "session/prompt"@, params)),
                ]);
            },
        }
    }
}

/// What a prompt says is the text of it, or of its blocks one behind the other,
/// without white space round it; one that then says nothing says nothing.
pub proof fn prompt_says_its_text(params: Tree, s: Seq<char>, blocks: Seq<Tree>)
    ensures
        params.get("prompt"@) == Some(Tree::Str(s)) ==> crate::model::prompt_text(params) == if crate::text::trimmed(
            s,
        ).len() == 0 {
            None
        } else {
            Some(crate::text::trimmed(s))
        },
        params.get("prompt"@) == Some(Tree::Array(blocks)) ==> crate::model::prompt_text(params)
            == if crate::text::trimmed(texts_of(blocks).flatten()).len() == 0 {
            None
        } else {
            Some(crate::text::trimmed(texts_of(blocks).flatten()))
        },
        !(params.get("prompt"@) matches Some(Tree::Str(_)))
            && !(params.get("prompt"@) matches Some(Tree::Array(_)))
            ==> crate::model::prompt_text(params) is None,
{
    lemma_prompt_blocks(blocks);
}

/// The texts of some blocks, nothing for one without.
pub open spec fn texts_of(blocks: Seq<Tree>) -> Seq<Seq<char>> {
    blocks.map_values(
        |b: Tree|
            match b.get("text"@) {
                Some(Tree::Str(s)) => s,
                _ => Seq::empty(),
            },
    )
}

pub proof fn lemma_prompt_blocks(blocks: Seq<Tree>)
    ensures
        crate::model::prompt_blocks(blocks) == texts_of(blocks).flatten(),
    decreases blocks.len(),
{
    if blocks.len() > 0 {
        lemma_prompt_blocks(blocks.drop_last());
        assert(texts_of(blocks).drop_last() =~= texts_of(blocks.drop_last()));
        texts_of(blocks).lemma_flatten_and_flatten_alt_are_equivalent();
        texts_of(blocks.drop_last()).lemma_flatten_and_flatten_alt_are_equivalent();
    } else {
        assert(texts_of(blocks) =~= Seq::empty());
    }
}

/// A request about a session that an agent of the hub runs goes to the agent's
/// actor as it came: the client, the id, the method and the parameters. Prompts
/// do, and so does any other method about a session that the hub does not answer
/// by itself. Nothing else is sent or changes. Where no agent runs the session it
/// is refused.
pub proof fn requests_about_a_live_session_reach_its_actor(
    h: HubState,
    client: u64,
    id: Tree,
    method: Seq<char>,
    params: Tree,
    w: World,
    sid: Seq<char>,
)
    requires
        begins(method, "session/"@) || begins(method, "x.ai/"@) || begins(method, "_x.ai/"@),
        method != "session/new"@,
        method != "session/load"@,
        method != "session/resume"@,
        params.get("sessionId"@) == Some(Tree::Str(sid)),
        !h.on_lan(client) || lan_allowed(method),
        method == "session/prompt"@ || method == "session/cancel"@ ==> !(h.place(
            sid,
        ) matches Some(Place::Hosted { .. })),
    ensures
        ({
            let (g, a) = h.requested(client, id, method, params, w);
            match h.place(sid) {
                Some(Place::Live { actor, .. }) => {
                    &&& a == Answer::Pending
                    &&& g == (HubState {
                        out: h.out.push(Act::Order(actor, Cmd::Rpc { client, id, method, params })),
                        ..h
                    })
                },
                _ => g == h && a == Answer::Refused(
                    Fault { code: -32012, text: "no live session "@ + sid },
                ),
            }
        }),
{
    lemma_session_methods(method);
}

/// A method about a session is none of the hub's own.
proof fn lemma_session_methods(method: Seq<char>)
    requires
        begins(method, "session/"@) || begins(method, "x.ai/"@) || begins(method, "_x.ai/"@),
    ensures
        method != "gtm/hello"@,
        method != "gtm/ping"@,
        method != "gtm/hub.info"@,
        method != "gtm/remote.status"@,
        method != "gtm/remote.on"@,
        method != "gtm/remote.off"@,
        method != "gtm/remote.revoke"@,
        method != "gtm/sessions.list"@,
        method != "gtm/sessions.subscribe"@,
        method != "gtm/sessions.unsubscribe"@,
        method != "gtm/sessions.host"@,
        method != "gtm/sessions.unhost"@,
        method != "gtm/session.history"@,
        method != "initialize"@,
{
    reveal_strlit("session/");
    reveal_strlit("x.ai/");
    reveal_strlit("_x.ai/");
    reveal_strlit("gtm/hello");
    reveal_strlit("gtm/ping");
    reveal_strlit("gtm/hub.info");
    reveal_strlit("gtm/remote.status");
    reveal_strlit("gtm/remote.on");
    reveal_strlit("gtm/remote.off");
    reveal_strlit("gtm/remote.revoke");
    reveal_strlit("gtm/sessions.list");
    reveal_strlit("gtm/sessions.subscribe");
    reveal_strlit("gtm/sessions.unsubscribe");
    reveal_strlit("gtm/sessions.host");
    reveal_strlit("gtm/sessions.unhost");
    reveal_strlit("gtm/session.history");
    reveal_strlit("initialize");
    assert(method[0] == 's' || method[0] == 'x' || method[0] == '_') by {
        if begins(method, "session/"@) {
            assert(method.take(8)[0] == method[0]);
        } else if begins(method, "x.ai/"@) {
            assert(method.take(5)[0] == method[0]);
        } else {
            assert(method.take(6)[0] == method[0]);
        }
    }
    assert("gtm/hello"@[0] == 'g');
    assert("gtm/ping"@[0] == 'g');
    assert("gtm/hub.info"@[0] == 'g');
    assert("gtm/remote.status"@[0] == 'g');
    assert("gtm/remote.on"@[0] == 'g');
    assert("gtm/remote.off"@[0] == 'g');
    assert("gtm/remote.revoke"@[0] == 'g');
    assert("gtm/sessions.list"@[0] == 'g');
    assert("gtm/sessions.subscribe"@[0] == 'g');
    assert("gtm/sessions.unsubscribe"@[0] == 'g');
    assert("gtm/sessions.host"@[0] == 'g');
    assert("gtm/sessions.unhost"@[0] == 'g');
    assert("gtm/session.history"@[0] == 'g');
    assert("initialize"@[0] == 'i');
}

/// A local client that uses a method that there is not is told so.
pub proof fn unknown_methods_are_refused(
    h: HubState,
    client: u64,
    id: Tree,
    method: Seq<char>,
    params: Tree,
    w: World,
)
    requires
        !h.on_lan(client),
        !begins(method, "session/"@),
        !begins(method, "x.ai/"@),
        !begins(method, "_x.ai/"@),
        method != "gtm/hello"@,
        method != "gtm/ping"@,
        method != "gtm/hub.info"@,
        method != "gtm/remote.status"@,
        method != "gtm/remote.on"@,
        method != "gtm/remote.off"@,
        method != "gtm/remote.revoke"@,
        method != "gtm/sessions.list"@,
        method != "gtm/sessions.subscribe"@,
        method != "gtm/sessions.unsubscribe"@,
        method != "gtm/sessions.host"@,
        method != "gtm/sessions.unhost"@,
        method != "gtm/session.history"@,
        method != "initialize"@,
    ensures
        h.requested(client, id, method, params, w) == (
            h,
            Answer::Refused(Fault { code: -32601, text: "method not found: "@ + method }),
        ),
{
    reveal_strlit("session/");
    reveal_strlit("session/new");
    reveal_strlit("session/load");
    reveal_strlit("session/resume");
    reveal_strlit("session/prompt");
    reveal_strlit("session/cancel");
    assert("session/new"@.take(8) =~= "session/"@);
    assert("session/load"@.take(8) =~= "session/"@);
    assert("session/resume"@.take(8) =~= "session/"@);
    assert("session/prompt"@.take(8) =~= "session/"@);
    assert("session/cancel"@.take(8) =~= "session/"@);
}

/// A client on the network may look at sessions, follow them, open those that
/// there are, and talk to their agents. Whatever else it asks for changes nothing
/// and is refused, and nothing outside the hub is done for it.
pub proof fn network_clients_may_use_their_methods_only(
    h: HubState,
    client: u64,
    id: Tree,
    method: Seq<char>,
    params: Tree,
    w: World,
)
    requires
        h.on_lan(client),
        !begins(method, "x.ai/"@),
        !begins(method, "_x.ai/"@),
        method != "initialize"@,
        method != "gtm/ping"@,
        method != "gtm/hub.info"@,
        method != "gtm/sessions.list"@,
        method != "gtm/sessions.subscribe"@,
        method != "gtm/sessions.unsubscribe"@,
        method != "gtm/session.history"@,
        method != "session/load"@,
        method != "session/resume"@,
        method != "session/prompt"@,
        method != "session/cancel"@,
        method != "session/set_mode"@,
        method != "session/set_model"@,
    ensures
        h.requested(client, id, method, params, w) == (
            h,
            Answer::Refused(Fault { code: -32000, text: method + " is not allowed on LAN"@ }),
        ),
        h.errand(client, method, params) == Errand::Nothing,
{
}

/// The methods about a session that a client on the network may use.
pub proof fn network_clients_may_talk_to_agents(method: Seq<char>)
    requires
        begins(method, "x.ai/"@) || begins(method, "_x.ai/"@) || method == "session/prompt"@
            || method == "session/cancel"@ || method == "session/set_mode"@ || method
            == "session/set_model"@ || method == "session/load"@ || method == "session/resume"@,
    ensures
        lan_allowed(method),
{
}

/// What a request needs from outside the hub: one about a session that may be on
/// disk what the disk holds of that session, one for a transcript the session's
/// transcript, one for the list of sessions all that are on disk, one about the
/// network listener the devices or the certificate, and one to take a device's
/// access away just that. The rest need nothing.
pub proof fn requests_fetch_what_they_need(
    h: HubState,
    client: u64,
    params: Tree,
    s: Seq<char>,
)
    ensures
        h.errand(client, "gtm/sessions.list"@, params) == Errand::Listing,
        params.get("sessionId"@) == Some(Tree::Str(s)) && s.len() > 0 ==> {
            &&& h.errand(client, "gtm/session.history"@, params) == Errand::Transcript(s)
            &&& h.errand(client, "session/load"@, params) == Errand::Disk(s)
            &&& h.errand(client, "session/resume"@, params) == Errand::Disk(s)
            &&& !h.on_lan(client) ==> h.errand(client, "gtm/sessions.host"@, params)
                == Errand::Disk(s)
        },
        !h.on_lan(client) ==> {
            &&& h.errand(client, "gtm/remote.status"@, params) == Errand::Remote
            &&& h.errand(client, "gtm/remote.on"@, params) == Errand::Materials
            &&& params.get("deviceId"@) == Some(Tree::Str(s)) ==> h.errand(
                client,
                "gtm/remote.revoke"@,
                params,
            ) == Errand::Revoke(s)
        },
        h.errand(client, "gtm/ping"@, params) == Errand::Nothing,
        h.errand(client, "gtm/hub.info"@, params) == Errand::Nothing,
        h.errand(client, "session/prompt"@, params) == Errand::Nothing,
        h.errand(client, "session/cancel"@, params) == Errand::Nothing,
{
    method_names_differ();
}

} // verus!
