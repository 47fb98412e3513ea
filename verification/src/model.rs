//! The hub as mathematics: who is connected, which sessions there are, and what
//! each event does to them. What the hub decides to do is written down in
//! order, as acts.

use crate::codec::{parsed, printed};
use crate::history::{transcript, HISTORY_DEFAULT, Row};
use crate::json::{obj, same, Tree};
use crate::numeral::decimal;
use crate::order::arranged;
use crate::rpc::{error_message, message, notice_message, request_message, result_message, Fault};
use crate::sessions::{
    disk_cards, disk_cwd, disk_title, merged, opt_tree, Card, SessionCard, Stored,
};
use crate::table::{lookup, put, without};
use crate::text::{begins, filled, or_empty, trimmed};
use crate::tls::{device_named, enrolled, ALPN, Device};
use vstd::prelude::*;

verus! {

/// The version of the hub.
pub const VERSION: &'static str = "0.1.0";

/// The version of the protocol that clients speak.
pub const PROTOCOL_VERSION: u64 = 1;

/// The most local connections at a time.
pub const LOCAL_CONN_MAX: usize = 8;

/// The most network connections at a time.
pub const LAN_CONN_MAX: usize = 2;

/// How an agent's session begins.
#[derive(Clone, Copy, PartialEq, Eq, Structural, Debug)]
pub enum Start {
    New,
    Load,
    Resume,
}

/// Whether there is to be a network listener, and on which port.
#[derive(Clone, Copy, PartialEq, Eq, Structural, Debug)]
pub struct LanWant {
    pub enabled: bool,
    pub port: u16,
}

/// A client that waits for the answer to a request.
pub struct Waiter {
    pub client: u64,
    pub id: Tree,
}

/// A connected client.
pub struct Member {
    pub subs: Set<Seq<char>>,
    pub lan: bool,
    pub fp: Option<Seq<char>>,
}

/// A session that the hub knows of: its agent starts, its agent runs here, or
/// a client runs it.
pub enum Place {
    Starting(Seq<Waiter>),
    Live { cwd: Option<Seq<char>>, title: Seq<char>, result: Tree, actor: u64 },
    Hosted { client: u64, cwd: Option<Seq<char>>, title: Seq<char> },
}

/// A prompt that was handed to the client that runs the session.
#[derive(Clone, Copy, PartialEq, Eq, Structural, Debug)]
pub struct HostedPrompt {
    pub origin: u64,
    pub host: u64,
}

impl View for HostedPrompt {
    type V = HostedPrompt;

    open spec fn view(&self) -> HostedPrompt {
        *self
    }
}

/// What a session's actor is told.
pub enum Cmd {
    Rpc { client: u64, id: Tree, method: Seq<char>, params: Tree },
    Notify { method: Seq<char>, params: Tree },
    Reply { id: Tree, result: Option<Tree>, error: Option<Tree> },
    Shutdown,
}

/// What the hub does.
pub enum Act {
    /// Sends a message to a client.
    Send(u64, Tree),
    /// Lets go of a client's connection.
    Close(u64),
    /// Starts an actor for a client's request.
    Spawn { actor: u64, start: Start, client: u64, id: Tree, params: Tree },
    /// Tells an actor something.
    Order(u64, Cmd),
}

/// What a request gets at once.
pub enum Answer {
    Done(Tree),
    Refused(Fault),
    Pending,
}

/// What became of a device whose access was to be taken away.
pub enum Fate {
    Gone,
    Unknown,
    Failed(Seq<char>),
}

/// What a request finds outside the hub.
pub struct World {
    pub disk: Option<Stored>,
    pub stored: Seq<Stored>,
    pub chat: Option<Seq<char>>,
    pub updates: Option<Seq<char>>,
    pub devices: Seq<Device>,
    pub host: Seq<char>,
    pub lan_port: u16,
    pub materials: Option<Seq<char>>,
    pub fate: Fate,
    pub pid: u32,
    pub socket: Seq<char>,
}

/// What a request calls for outside the hub before it can be answered.
pub enum Errand {
    /// Nothing.
    Nothing,
    /// What the disk holds of a session.
    Disk(Seq<char>),
    /// The transcript files of a session.
    Transcript(Seq<char>),
    /// All sessions on disk.
    Listing,
    /// The devices, and the host's own address.
    Remote,
    /// A certificate for the network listener, made if there is none.
    Materials,
    /// The devices, and a device's access taken away.
    Revoke(Seq<char>),
}

/// Everything that the hub keeps, and all it has decided to do so far.
pub struct HubState {
    pub clients: Seq<(u64, Member)>,
    pub sessions: Seq<(Seq<char>, Place)>,
    pub routes: Seq<(Seq<char>, Seq<char>)>,
    pub prompts: Seq<(Seq<char>, HostedPrompt)>,
    pub next_client: u64,
    pub next_perm: u64,
    pub next_actor: u64,
    pub lan: LanWant,
    pub out: Seq<Act>,
}

/// The number after `n`, round to zero at the end.
pub open spec fn after(n: u64) -> u64 {
    if n == u64::MAX {
        0
    } else {
        (n + 1) as u64
    }
}

/// A refusal.
pub open spec fn refused(code: int, text: Seq<char>) -> Answer {
    Answer::Refused(Fault { code, text })
}

/// Text as JSON.
pub open spec fn string(s: Seq<char>) -> Tree {
    Tree::Str(s)
}

/// A number as JSON.
pub open spec fn number(n: int) -> Tree {
    Tree::Int(n)
}

/// An answer that says only that all is well.
pub open spec fn all_well() -> Tree {
    obj().with("ok"@, Tree::Bool(true))
}

/// The notice that tells a client to go.
pub open spec fn farewell(reason: Seq<char>) -> Tree {
    notice_message("gtm/hub.shutdown"@, obj().with("reason"@, string(reason)))
}

/// The acts by which clients are sent off: each is told why and let go of.
pub open spec fn sent_off(gone: Seq<(u64, Member)>, reason: Seq<char>) -> Seq<Act>
    decreases gone.len(),
{
    if gone.len() == 0 {
        Seq::empty()
    } else {
        sent_off(gone.drop_last(), reason).push(
            Act::Send(gone.last().0, farewell(reason)),
        ).push(Act::Close(gone.last().0))
    }
}

/// Whether a kind of client is known.
pub open spec fn known_kind(kind: Seq<char>) -> bool {
    kind == "macos"@ || kind == "tui"@ || kind == "stdio"@ || mobile_kind(kind)
}

/// Whether a kind of client comes in over the network.
pub open spec fn mobile_kind(kind: Seq<char>) -> bool {
    kind == "ios"@ || kind == "android"@
}

/// The kind of client that a greeting names.
pub open spec fn greeting_kind(params: Tree) -> Seq<char> {
    match params.get_in("client"@, "kind"@) {
        Some(t) => or_empty(t.as_text()),
        None => Seq::empty(),
    }
}

/// The version of the protocol that a greeting names.
pub open spec fn greeting_version(params: Tree) -> int {
    match params.get("protocolVersion"@) {
        Some(t) => match t.uint() {
            Some(n) => n,
            None => 0,
        },
        None => 0,
    }
}

/// Why a greeting is turned away whoever else is connected, if it is.
pub open spec fn turned_away(
    params: Tree,
    lan: bool,
    fp: Option<Seq<char>>,
    devices: Seq<Device>,
    now: u64,
) -> Option<Fault> {
    let kind = greeting_kind(params);
    if !known_kind(kind) {
        Some(Fault { code: -32602, text: "unknown client kind "@ + kind })
    } else if lan && !mobile_kind(kind) {
        Some(Fault { code: -32000, text: "LAN listener only accepts ios/android clients"@ })
    } else if !lan && mobile_kind(kind) {
        Some(Fault { code: -32000, text: "mobile clients must use the TLS listener"@ })
    } else if lan && fp is None {
        Some(Fault { code: -32000, text: "missing device certificate"@ })
    } else if lan && enrolled(devices, fp->0, now) is None {
        Some(Fault { code: -32000, text: "device not enrolled or expired"@ })
    } else if greeting_version(params) != PROTOCOL_VERSION {
        Some(
            Fault {
                code: -32000,
                text: "unsupported protocolVersion "@ + decimal(greeting_version(params) as nat),
            },
        )
    } else {
        None
    }
}

/// The answer to a greeting.
pub open spec fn welcome(id: u64, lan: bool, kind: Seq<char>) -> Tree {
    obj().with("clientId"@, number(id as int)).with("hubVersion"@, string(VERSION@)).with(
        "protocolVersion"@,
        number(PROTOCOL_VERSION as int),
    ).with(
        "transport"@,
        string(
            if lan {
                "lan"@
            } else {
                "unix"@
            },
        ),
    ).with("kind"@, string(kind))
}

/// Whether a method is about a session.
pub open spec fn session_method(method: Seq<char>) -> bool {
    begins(method, "session/"@) || begins(method, "x.ai/"@) || begins(method, "_x.ai/"@)
}

/// Whether a client on the network may use a method.
pub open spec fn lan_allowed(method: Seq<char>) -> bool {
    ||| method == "initialize"@
    ||| method == "gtm/ping"@
    ||| method == "gtm/hub.info"@
    ||| method == "gtm/sessions.list"@
    ||| method == "gtm/sessions.subscribe"@
    ||| method == "gtm/sessions.unsubscribe"@
    ||| method == "gtm/session.history"@
    ||| method == "session/load"@
    ||| method == "session/resume"@
    ||| method == "session/prompt"@
    ||| method == "session/cancel"@
    ||| method == "session/set_mode"@
    ||| method == "session/set_model"@
    ||| begins(method, "x.ai/"@)
    ||| begins(method, "_x.ai/"@)
}

/// The notice that a session changed.
pub open spec fn change_notice(details: Tree) -> Tree {
    notice_message("gtm/sessions.changed"@, details)
}

/// The notice of a session's new output.
pub open spec fn update_notice(params: Tree) -> Tree {
    notice_message("session/update"@, params)
}

/// Parameters that name the session: those given, with the name put in if it
/// is missing and there is a place for it.
pub open spec fn naming(params: Tree, sid: Seq<char>) -> Tree {
    if params is Object && params.get("sessionId"@) is None {
        params.with("sessionId"@, string(sid))
    } else {
        params
    }
}

/// The texts of a prompt's blocks, one behind the other.
pub open spec fn prompt_blocks(blocks: Seq<Tree>) -> Seq<char>
    decreases blocks.len(),
{
    if blocks.len() == 0 {
        Seq::empty()
    } else {
        prompt_blocks(blocks.drop_last()) + or_empty(blocks.last().get_str("text"@))
    }
}

/// What a prompt says, if it says anything.
pub open spec fn prompt_text(params: Tree) -> Option<Seq<char>> {
    match params.get("prompt"@) {
        Some(Tree::Str(s)) => filled(Some(trimmed(s))),
        Some(Tree::Array(blocks)) => filled(Some(trimmed(prompt_blocks(blocks)))),
        _ => None,
    }
}

/// What shows a prompt to those who follow the session.
pub open spec fn prompt_echo(sid: Seq<char>, text: Seq<char>) -> Tree {
    update_notice(
        obj().with("sessionId"@, string(sid)).with(
            "update"@,
            obj().with("sessionUpdate"@, string("user_message_chunk"@)).with(
                "content"@,
                obj().with("type"@, string("text"@)).with("text"@, string(text)),
            ),
        ),
    )
}

/// The session that parameters name.
pub open spec fn named_session(params: Tree) -> Option<Seq<char>> {
    params.get_str("sessionId"@)
}

/// The address that the network listener binds.
pub open spec fn bind_text(port: u16) -> Seq<char> {
    "0.0.0.0:"@ + decimal(port as nat)
}

/// The address that the network listener binds, if there is one.
pub open spec fn bind_tree(lan: LanWant) -> Tree {
    if lan.enabled {
        string(bind_text(lan.port))
    } else {
        Tree::Null
    }
}

/// The port that a request asks for, if it is one.
pub open spec fn wanted_port(params: Tree, usual: u16) -> u16 {
    match params.get("port"@) {
        Some(t) => match t.uint() {
            Some(n) => if 0 < n <= u16::MAX {
                n as u16
            } else {
                usual
            },
            None => usual,
        },
        None => usual,
    }
}

/// How many rows a request for a transcript asks for.
pub open spec fn wanted_rows(params: Tree) -> nat {
    match params.get("limit"@) {
        Some(t) => match t.uint() {
            Some(n) => n as nat,
            None => HISTORY_DEFAULT as nat,
        },
        None => HISTORY_DEFAULT as nat,
    }
}

/// The answer to `initialize`.
pub open spec fn introduction() -> Tree {
    let me = obj().with("name"@, string("gtm-hub"@)).with("version"@, string(VERSION@));
    obj().with("protocolVersion"@, number(1)).with("serverInfo"@, me).with(
        "agentInfo"@,
        me,
    ).with(
        "agentCapabilities"@,
        obj().with("loadSession"@, Tree::Bool(true)).with("resumeSession"@, Tree::Bool(true)),
    )
}

impl Place {
    /// The card of a live session.
    pub open spec fn card(self, id: Seq<char>) -> Card {
        match self {
            Place::Live { cwd, title, .. } => Card {
                id,
                title,
                live: true,
                hosted: Some(false),
                cwd,
            },
            Place::Hosted { cwd, title, .. } => Card {
                id,
                title,
                live: true,
                hosted: Some(true),
                cwd,
            },
            Place::Starting(_) => Card {
                id,
                title: ""@,
                live: true,
                hosted: None,
                cwd: None,
            },
        }
    }

    /// The line of a live session in what the hub says of itself.
    pub open spec fn info(self, id: Seq<char>) -> Tree {
        match self {
            Place::Live { cwd, title, .. } => obj().with("id"@, string(id)).with(
                "hosted"@,
                Tree::Bool(false),
            ).with("title"@, string(title)).with("cwd"@, opt_tree(cwd)),
            Place::Hosted { cwd, title, .. } => obj().with("id"@, string(id)).with(
                "hosted"@,
                Tree::Bool(true),
            ).with("title"@, string(title)).with("cwd"@, opt_tree(cwd)),
            Place::Starting(_) => obj().with("id"@, string(id)).with(
                "hosted"@,
                Tree::Bool(false),
            ).with("starting"@, Tree::Bool(true)),
        }
    }
}

impl HubState {
    /// A hub to which nothing has happened.
    pub open spec fn start(lan_port: u16) -> HubState {
        HubState {
            clients: Seq::empty(),
            sessions: Seq::empty(),
            routes: Seq::empty(),
            prompts: Seq::empty(),
            next_client: 1,
            next_perm: 1,
            next_actor: 1,
            lan: LanWant { enabled: false, port: lan_port },
            out: Seq::empty(),
        }
    }

    /// A connected client.
    pub open spec fn member(self, id: u64) -> Option<Member> {
        lookup(self.clients, id)
    }

    /// A session that the hub knows of.
    pub open spec fn place(self, sid: Seq<char>) -> Option<Place> {
        lookup(self.sessions, sid)
    }

    /// Whether a client came in over the network.
    pub open spec fn on_lan(self, id: u64) -> bool {
        match self.member(id) {
            Some(m) => m.lan,
            None => false,
        }
    }

    /// The actor of a session whose agent runs here.
    pub open spec fn actor_of(self, sid: Seq<char>) -> Option<u64> {
        match self.place(sid) {
            Some(Place::Live { actor, .. }) => Some(actor),
            _ => None,
        }
    }

    /// The client that runs a session.
    pub open spec fn host_of(self, sid: Seq<char>) -> Option<u64> {
        match self.place(sid) {
            Some(Place::Hosted { client, .. }) => Some(client),
            _ => None,
        }
    }

    /// How many clients came in one way.
    pub open spec fn count(self, lan: bool) -> nat {
        self.clients.filter(|c: (u64, Member)| c.1.lan == lan).len()
    }

    /// The clients that follow a session.
    pub open spec fn followers(self, sid: Seq<char>) -> Seq<u64> {
        self.clients.filter(|c: (u64, Member)| c.1.subs.contains(sid)).map_values(
            |c: (u64, Member)| c.0,
        )
    }

    /// With one more act.
    pub open spec fn acting(self, act: Act) -> HubState {
        HubState { out: self.out.push(act), ..self }
    }

    /// With a message sent to a client, if it is connected.
    pub open spec fn sent(self, id: u64, msg: Tree) -> HubState {
        if self.member(id) is Some {
            self.acting(Act::Send(id, msg))
        } else {
            self
        }
    }

    /// With a message sent to each of some clients.
    pub open spec fn sent_each(self, ids: Seq<u64>, msg: Tree) -> HubState {
        HubState { out: self.out + ids.map_values(|id: u64| Act::Send(id, msg)), ..self }
    }

    /// With a message sent to everyone who follows a session.
    pub open spec fn told_followers(self, sid: Seq<char>, msg: Tree) -> HubState {
        self.sent_each(self.followers(sid), msg)
    }

    /// With a message sent to everyone.
    pub open spec fn told_all(self, msg: Tree) -> HubState {
        self.sent_each(self.clients.map_values(|c: (u64, Member)| c.0), msg)
    }

    /// With a client following a session.
    pub open spec fn following(self, id: u64, sid: Seq<char>) -> HubState {
        match self.member(id) {
            Some(m) => HubState {
                clients: put(self.clients, id, Member { subs: m.subs.insert(sid), ..m }),
                ..self
            },
            None => self,
        }
    }

    /// With a client no longer following a session.
    pub open spec fn not_following(self, id: u64, sid: Seq<char>) -> HubState {
        match self.member(id) {
            Some(m) => HubState {
                clients: put(self.clients, id, Member { subs: m.subs.remove(sid), ..m }),
                ..self
            },
            None => self,
        }
    }

    /// With every client of a device sent off.
    pub open spec fn evicting(self, fp: Seq<char>, reason: Seq<char>) -> HubState {
        HubState {
            clients: self.clients.filter(|c: (u64, Member)| c.1.fp != Some(fp)),
            out: self.out + sent_off(
                self.clients.filter(|c: (u64, Member)| c.1.fp == Some(fp)),
                reason,
            ),
            ..self
        }
    }

    /// With what stands in a greeting's way removed: an older connection of the
    /// same device.
    pub open spec fn cleared_for(self, lan: bool, fp: Option<Seq<char>>) -> HubState {
        match fp {
            Some(f) => if lan {
                self.evicting(f, "replaced"@)
            } else {
                self
            },
            None => self,
        }
    }

    /// With one more client.
    pub open spec fn joined(self, lan: bool, fp: Option<Seq<char>>) -> HubState {
        HubState {
            clients: put(self.clients, self.next_client, Member { subs: Set::empty(), lan, fp }),
            next_client: after(self.next_client),
            ..self
        }
    }

    /// What a greeting does, and what it is answered.
    pub open spec fn greeted(
        self,
        params: Tree,
        lan: bool,
        fp: Option<Seq<char>>,
        devices: Seq<Device>,
        now: u64,
    ) -> (HubState, Result<(u64, Tree), Fault>) {
        let max = if lan {
            LAN_CONN_MAX
        } else {
            LOCAL_CONN_MAX
        };
        let s = self.cleared_for(lan, fp);
        match turned_away(params, lan, fp, devices, now) {
            Some(fault) => (self, Err(fault)),
            None => if s.count(lan) >= max {
                (s, Err(Fault { code: -32001, text: "too many connections"@ }))
            } else {
                (
                    s.joined(lan, fp),
                    Ok((s.next_client, welcome(s.next_client, lan, greeting_kind(params)))),
                )
            },
        }
    }

    /// With those who waited for a session following it and answered.
    pub open spec fn welcomed(
        self,
        waiters: Seq<Waiter>,
        sid: Seq<char>,
        result: Tree,
    ) -> HubState
        decreases waiters.len(),
    {
        if waiters.len() == 0 {
            self
        } else {
            let w = waiters.last();
            self.welcomed(waiters.drop_last(), sid, result).following(w.client, sid).sent(
                w.client,
                result_message(w.id, result),
            )
        }
    }

    /// With those told whose prompts went to a client that runs them no more.
    pub open spec fn prompts_failed(self, pending: Seq<(Seq<char>, HostedPrompt)>) -> HubState
        decreases pending.len(),
    {
        if pending.len() == 0 {
            self
        } else {
            let (key, p) = pending.last();
            let id = match parsed(key) {
                Some(t) => t,
                None => Tree::Null,
            };
            self.prompts_failed(pending.drop_last()).sent(
                p.origin,
                error_message(id, -32012, "TUI session host disconnected"@),
            )
        }
    }

    /// With the prompts dropped that went to a host, and their askers told.
    pub open spec fn host_lost(self, host: u64) -> HubState {
        let kept = HubState {
            prompts: self.prompts.filter(|e: (Seq<char>, HostedPrompt)| e.1.host != host),
            ..self
        };
        kept.prompts_failed(
            self.prompts.filter(|e: (Seq<char>, HostedPrompt)| e.1.host == host),
        )
    }

    /// With a session run by a client, whoever ran it before.
    pub open spec fn taken(
        self,
        client: u64,
        sid: Seq<char>,
        cwd: Option<Seq<char>>,
        title: Seq<char>,
    ) -> HubState {
        let result = obj().with("sessionId"@, string(sid)).with("title"@, string(title)).with(
            "cwd"@,
            opt_tree(cwd),
        );
        let placed = HubState {
            sessions: put(self.sessions, sid, Place::Hosted { client, cwd, title }),
            ..self
        };
        let settled = match self.place(sid) {
            Some(Place::Hosted { client: old, .. }) => if old != client {
                placed.host_lost(old)
            } else {
                placed
            },
            Some(Place::Live { actor, .. }) => placed.acting(Act::Order(actor, Cmd::Shutdown)),
            Some(Place::Starting(waiters)) => placed.welcomed(waiters, sid, result),
            None => placed,
        };
        settled.told_all(
            change_notice(
                obj().with("id"@, string(sid)).with("live"@, Tree::Bool(true)).with(
                    "hosted"@,
                    Tree::Bool(true),
                ),
            ),
        )
    }

    /// A request to run a session.
    pub open spec fn host_request(self, client: u64, params: Tree, w: World) -> (HubState, Answer) {
        if self.on_lan(client) {
            (self, refused(-32000, "gtm/sessions.host is local-only"@))
        } else {
            match filled(named_session(params)) {
                None => (self, refused(-32602, "sessionId required"@)),
                Some(sid) => {
                    let cwd = match filled(params.get_str("cwd"@)) {
                        Some(s) => Some(s),
                        None => disk_cwd(w.disk),
                    };
                    let title = or_empty(
                        match filled(params.get_str("title"@)) {
                            Some(s) => Some(s),
                            None => disk_title(w.disk),
                        },
                    );
                    (
                        self.taken(client, sid, cwd, title),
                        Answer::Done(
                            all_well().with("sessionId"@, string(sid)).with(
                                "cwd"@,
                                opt_tree(cwd),
                            ).with("title"@, string(title)).with(
                                "tookOver"@,
                                Tree::Bool(self.actor_of(sid) is Some),
                            ),
                        ),
                    )
                },
            }
        }
    }

    /// With a session run no more, if the client ran it.
    pub open spec fn unhosted(self, client: u64, sid: Seq<char>) -> HubState {
        if self.host_of(sid) == Some(client) {
            let gone = HubState { sessions: without(self.sessions, sid), ..self };
            gone.host_lost(client).told_all(
                change_notice(
                    obj().with("id"@, string(sid)).with("live"@, Tree::Bool(false)).with(
                        "reason"@,
                        string("unhost"@),
                    ),
                ),
            )
        } else {
            self
        }
    }

    /// With each of some sessions run no more by a client.
    pub open spec fn unhosted_each(self, client: u64, sids: Seq<Seq<char>>) -> HubState
        decreases sids.len(),
    {
        if sids.len() == 0 {
            self
        } else {
            self.unhosted_each(client, sids.drop_last()).unhosted(client, sids.last())
        }
    }

    /// The sessions that a client runs.
    pub open spec fn run_by(self, client: u64) -> Seq<Seq<char>> {
        self.sessions.filter(
            |e: (Seq<char>, Place)|
                match e.1 {
                    Place::Hosted { client: c, .. } => c == client,
                    _ => false,
                },
        ).map_values(|e: (Seq<char>, Place)| e.0)
    }

    /// With a client gone.
    pub open spec fn left(self, client: u64) -> HubState {
        let gone = HubState {
            clients: without(self.clients, client),
            out: if self.member(client) is Some {
                self.out.push(Act::Close(client))
            } else {
                self.out
            },
            ..self
        };
        gone.unhosted_each(client, gone.run_by(client)).host_lost(client)
    }

    /// A request to run a session no more.
    pub open spec fn unhost_request(self, client: u64, params: Tree) -> (HubState, Answer) {
        match filled(named_session(params)) {
            None => (self, refused(-32602, "sessionId required"@)),
            Some(sid) => (
                self.unhosted(client, sid),
                Answer::Done(all_well().with("sessionId"@, string(sid))),
            ),
        }
    }

    /// With a request handed to the actor of its session.
    pub open spec fn forwarded(
        self,
        client: u64,
        id: Tree,
        method: Seq<char>,
        params: Tree,
    ) -> (HubState, Answer) {
        match named_session(params) {
            None => (self, refused(-32602, method + " requires sessionId"@)),
            Some(sid) => match self.actor_of(sid) {
                None => (self, refused(-32012, "no live session "@ + sid)),
                Some(actor) => (
                    self.acting(Act::Order(actor, Cmd::Rpc { client, id, method, params })),
                    Answer::Pending,
                ),
            },
        }
    }

    /// With a prompt handed to the client that runs the session.
    pub open spec fn prompted(
        self,
        client: u64,
        id: Tree,
        params: Tree,
        sid: Seq<char>,
        host: u64,
    ) -> HubState {
        let s = self.following(client, sid);
        let noted = HubState {
            prompts: put(s.prompts, printed(id), HostedPrompt { origin: client, host }),
            ..s
        };
        let echoed = match prompt_text(params) {
            Some(text) => noted.told_followers(sid, prompt_echo(sid, text)),
            None => noted,
        };
        echoed.sent(host, request_message(id, "session/prompt"@, params))
    }

    /// A prompt.
    pub open spec fn prompt_request(
        self,
        client: u64,
        id: Tree,
        params: Tree,
    ) -> (HubState, Answer) {
        match named_session(params) {
            None => (self, refused(-32602, "session/prompt requires sessionId"@)),
            Some(sid) => match self.host_of(sid) {
                None => self.forwarded(client, id, "session/prompt"@, params),
                Some(host) => if host == client {
                    (self, refused(-32000, "host client already owns this session"@))
                } else {
                    (self.prompted(client, id, params, sid, host), Answer::Pending)
                },
            },
        }
    }

    /// A request to stop a prompt.
    pub open spec fn cancel_request(
        self,
        client: u64,
        id: Tree,
        params: Tree,
    ) -> (HubState, Answer) {
        match named_session(params) {
            None => (self, refused(-32602, "session/cancel requires sessionId"@)),
            Some(sid) => match self.host_of(sid) {
                None => self.forwarded(client, id, "session/cancel"@, params),
                Some(host) => (
                    self.sent(host, notice_message("session/cancel"@, params)),
                    Answer::Done(obj()),
                ),
            },
        }
    }

    /// A request for a transcript.
    pub open spec fn history_request(self, params: Tree, w: World) -> (HubState, Answer) {
        match filled(named_session(params)) {
            None => (self, refused(-32602, "sessionId required"@)),
            Some(sid) => (
                self,
                Answer::Done(
                    obj().with("sessionId"@, string(sid)).with(
                        "messages"@,
                        Tree::Array(
                            transcript(w.chat, w.updates, wanted_rows(params)).map_values(
                                |r: Row| r.json(),
                            ),
                        ),
                    ),
                ),
            ),
        }
    }

    /// A request to follow a session.
    pub open spec fn subscribe_request(self, client: u64, params: Tree) -> (HubState, Answer) {
        match named_session(params) {
            None => (self, refused(-32602, "subscribe requires sessionId"@)),
            Some(sid) => (
                self.following(client, sid),
                Answer::Done(
                    all_well().with(
                        "live"@,
                        Tree::Bool(self.actor_of(sid) is Some || self.host_of(sid) is Some),
                    ),
                ),
            ),
        }
    }

    /// A request to follow a session no more.
    pub open spec fn unsubscribe_request(self, client: u64, params: Tree) -> (HubState, Answer) {
        match named_session(params) {
            None => (self, refused(-32602, "unsubscribe requires sessionId"@)),
            Some(sid) => (self.not_following(client, sid), Answer::Done(all_well())),
        }
    }

    /// With an actor started.
    pub open spec fn spawned(
        self,
        start: Start,
        client: u64,
        id: Tree,
        params: Tree,
    ) -> HubState {
        HubState {
            next_actor: after(self.next_actor),
            ..self.acting(Act::Spawn { actor: self.next_actor, start, client, id, params })
        }
    }

    /// A request for a new session.
    pub open spec fn new_request(self, client: u64, id: Tree, params: Tree) -> (HubState, Answer) {
        if or_empty(params.get_str("cwd"@)).len() == 0 {
            (self, refused(-32602, "session/new requires cwd"@))
        } else {
            (self.spawned(Start::New, client, id, params), Answer::Pending)
        }
    }

    /// Parameters that name a working directory: those given, or with the one
    /// that the disk knows.
    pub open spec fn placed_params(params: Tree, w: World) -> Tree {
        match disk_cwd(w.disk) {
            Some(cwd) => if or_empty(params.get_str("cwd"@)).len() == 0 {
                params.with("cwd"@, string(cwd))
            } else {
                params
            },
            None => params,
        }
    }

    /// A request for a session that there is already.
    pub open spec fn attach_request(
        self,
        client: u64,
        id: Tree,
        start: Start,
        params: Tree,
        w: World,
    ) -> (HubState, Answer) {
        match filled(named_session(params)) {
            None => (self, refused(-32602, "session/load requires sessionId"@)),
            Some(sid) => {
                let full = Self::placed_params(params, w);
                if or_empty(full.get_str("cwd"@)).len() == 0 {
                    (self, refused(-32602, "session/load "@ + sid + " is missing cwd"@))
                } else {
                    match self.place(sid) {
                        Some(Place::Live { result, .. }) => (
                            self.following(client, sid),
                            Answer::Done(result),
                        ),
                        Some(Place::Hosted { cwd, title, .. }) => (
                            self.following(client, sid),
                            Answer::Done(
                                obj().with("sessionId"@, string(sid)).with(
                                    "title"@,
                                    string(title),
                                ).with("cwd"@, opt_tree(cwd)).with("hosted"@, Tree::Bool(true)),
                            ),
                        ),
                        Some(Place::Starting(waiters)) => (
                            HubState {
                                sessions: put(
                                    self.sessions,
                                    sid,
                                    Place::Starting(waiters.push(Waiter { client, id })),
                                ),
                                ..self
                            },
                            Answer::Pending,
                        ),
                        None => (
                            HubState {
                                sessions: put(
                                    self.sessions,
                                    sid,
                                    Place::Starting(seq![Waiter { client, id }]),
                                ),
                                ..self
                            }.spawned(start, client, id, full),
                            Answer::Pending,
                        ),
                    }
                }
            },
        }
    }

    /// The sessions that a client can pick from.
    pub open spec fn listing(self, w: World) -> Seq<Card> {
        merged(
            self.sessions.map_values(|e: (Seq<char>, Place)| e.1.card(e.0)),
            arranged::<SessionCard>(disk_cards(w.stored)),
        )
    }

    /// What the hub says of itself.
    pub open spec fn hub_info(self, w: World) -> Tree {
        obj().with("pid"@, number(w.pid as int)).with("socket"@, string(w.socket)).with(
            "protocolVersion"@,
            number(PROTOCOL_VERSION as int),
        ).with("running"@, Tree::Bool(true)).with("lan"@, Tree::Bool(self.lan.enabled)).with(
            "lanBind"@,
            bind_tree(self.lan),
        ).with(
            "live"@,
            Tree::Array(self.sessions.map_values(|e: (Seq<char>, Place)| e.1.info(e.0))),
        )
    }

    /// What the hub says of its network listener.
    pub open spec fn remote_status(self, w: World) -> Tree {
        obj().with("lan"@, Tree::Bool(self.lan.enabled)).with(
            "port"@,
            number(self.lan.port as int),
        ).with("bind"@, bind_tree(self.lan)).with(
            "devices"@,
            number(w.devices.len() as int),
        ).with("host"@, string(w.host))
    }

    /// A request to open the network listener.
    pub open spec fn remote_on(self, client: u64, params: Tree, w: World) -> (HubState, Answer) {
        if self.on_lan(client) {
            (self, refused(-32000, "gtm/remote.on is local-only"@))
        } else {
            let port = wanted_port(params, w.lan_port);
            match w.materials {
                Some(err) => (self, refused(-32011, err)),
                None => (
                    HubState { lan: LanWant { enabled: true, port }, ..self },
                    Answer::Done(
                        obj().with("lan"@, Tree::Bool(true)).with(
                            "port"@,
                            number(port as int),
                        ).with("bind"@, string(bind_text(port))).with(
                            "host"@,
                            string(w.host),
                        ).with("alpn"@, string(ALPN@)),
                    ),
                ),
            }
        }
    }

    /// A request to close the network listener.
    pub open spec fn remote_off(self, client: u64) -> (HubState, Answer) {
        if self.on_lan(client) {
            (self, refused(-32000, "gtm/remote.off is local-only"@))
        } else {
            (
                HubState { lan: LanWant { enabled: false, ..self.lan }, ..self },
                Answer::Done(obj().with("lan"@, Tree::Bool(false))),
            )
        }
    }

    /// A request to take a device's access away.
    pub open spec fn remote_revoke(
        self,
        client: u64,
        params: Tree,
        w: World,
    ) -> (HubState, Answer) {
        if self.on_lan(client) {
            (self, refused(-32000, "gtm/remote.revoke is local-only"@))
        } else {
            match params.get_str("deviceId"@) {
                None => (self, refused(-32602, "deviceId required"@)),
                Some(id) => match w.fate {
                    Fate::Gone => (
                        match device_named(w.devices, id) {
                            Some(d) => self.evicting(d.fp, "revoked"@),
                            None => self,
                        },
                        Answer::Done(all_well().with("deviceId"@, string(id))),
                    ),
                    Fate::Unknown => (self, refused(-32602, "unknown device"@)),
                    Fate::Failed(err) => (self, refused(-32011, err)),
                },
            }
        }
    }

    /// Whether a request is refused because it came in over the network.
    pub open spec fn barred(self, client: u64, method: Seq<char>) -> bool {
        self.on_lan(client) && !lan_allowed(method)
    }

    /// What a request calls for outside the hub before it can be answered.
    pub open spec fn errand(self, client: u64, method: Seq<char>, params: Tree) -> Errand {
        if self.barred(client, method) {
            Errand::Nothing
        } else if method == "gtm/remote.status"@ {
            Errand::Remote
        } else if method == "gtm/remote.on"@ {
            Errand::Materials
        } else if method == "gtm/remote.revoke"@ {
            match params.get_str("deviceId"@) {
                Some(id) => Errand::Revoke(id),
                None => Errand::Nothing,
            }
        } else if method == "gtm/sessions.list"@ {
            Errand::Listing
        } else if method == "gtm/session.history"@ {
            match filled(named_session(params)) {
                Some(sid) => Errand::Transcript(sid),
                None => Errand::Nothing,
            }
        } else if method == "gtm/sessions.host"@ || method == "session/load"@ || method
            == "session/resume"@ {
            match filled(named_session(params)) {
                Some(sid) => Errand::Disk(sid),
                None => Errand::Nothing,
            }
        } else {
            Errand::Nothing
        }
    }

    /// What a request does, and what it is answered at once.
    pub open spec fn requested(
        self,
        client: u64,
        id: Tree,
        method: Seq<char>,
        params: Tree,
        w: World,
    ) -> (HubState, Answer) {
        if self.barred(client, method) {
            (self, refused(-32000, method + " is not allowed on LAN"@))
        } else if method == "gtm/hello"@ {
            (self, refused(-32000, "gtm/hello already completed"@))
        } else if method == "gtm/ping"@ {
            (self, Answer::Done(all_well()))
        } else if method == "gtm/hub.info"@ {
            (self, Answer::Done(self.hub_info(w)))
        } else if method == "gtm/remote.status"@ {
            (self, Answer::Done(self.remote_status(w)))
        } else if method == "gtm/remote.on"@ {
            self.remote_on(client, params, w)
        } else if method == "gtm/remote.off"@ {
            self.remote_off(client)
        } else if method == "gtm/remote.revoke"@ {
            self.remote_revoke(client, params, w)
        } else if method == "gtm/sessions.list"@ {
            (
                self,
                Answer::Done(
                    obj().with(
                        "sessions"@,
                        Tree::Array(self.listing(w).map_values(|c: Card| c.json())),
                    ),
                ),
            )
        } else if method == "gtm/sessions.subscribe"@ {
            self.subscribe_request(client, params)
        } else if method == "gtm/sessions.unsubscribe"@ {
            self.unsubscribe_request(client, params)
        } else if method == "gtm/sessions.host"@ {
            self.host_request(client, params, w)
        } else if method == "gtm/sessions.unhost"@ {
            self.unhost_request(client, params)
        } else if method == "gtm/session.history"@ {
            self.history_request(params, w)
        } else if method == "initialize"@ {
            (self, Answer::Done(introduction()))
        } else if method == "session/new"@ {
            self.new_request(client, id, params)
        } else if method == "session/load"@ {
            self.attach_request(client, id, Start::Load, params, w)
        } else if method == "session/resume"@ {
            self.attach_request(client, id, Start::Resume, params, w)
        } else if method == "session/prompt"@ {
            self.prompt_request(client, id, params)
        } else if method == "session/cancel"@ {
            self.cancel_request(client, id, params)
        } else if session_method(method) {
            self.forwarded(client, id, method, params)
        } else {
            (self, refused(-32601, "method not found: "@ + method))
        }
    }

    /// The session that a client runs, if it runs exactly one.
    pub open spec fn only_session(self, client: u64) -> Option<Seq<char>> {
        if self.run_by(client).len() == 1 {
            Some(self.run_by(client)[0])
        } else {
            None
        }
    }

    /// The session that a client's notice of new output is about.
    pub open spec fn noticed_session(self, client: u64, params: Tree) -> Option<Seq<char>> {
        match params.either_str("sessionId"@, "session_id"@) {
            Some(s) => Some(s),
            None => self.only_session(client),
        }
    }

    /// Whether a client may show new output to those who follow a session: it
    /// runs it, or another one does and the client is local.
    pub open spec fn may_show(self, client: u64, sid: Seq<char>) -> bool {
        self.host_of(sid) == Some(client) || (self.host_of(sid) is Some && !self.on_lan(client))
    }

    /// What a notice does.
    pub open spec fn notified(self, client: u64, method: Seq<char>, params: Tree) -> HubState {
        let shows = method == "session/update"@ || method == "x.ai/session/update"@ || method
            == "x.ai/session_notification"@;
        let shown = self.noticed_session(client, params);
        if shows && shown is Some && self.may_show(client, shown->0) {
            self.told_followers(shown->0, update_notice(naming(params, shown->0)))
        } else if method == "session/cancel"@ || session_method(method) {
            match named_session(params) {
                Some(sid) => match self.actor_of(sid) {
                    Some(actor) => self.acting(Act::Order(actor, Cmd::Notify { method, params })),
                    None => self,
                },
                None => self,
            }
        } else {
            self
        }
    }

    /// What a client's answer does: it goes to whoever sent the prompt, or to
    /// the actor that asked for permission.
    pub open spec fn replied(
        self,
        id: Tree,
        result: Option<Tree>,
        error: Option<Tree>,
    ) -> HubState {
        match lookup(self.prompts, printed(id)) {
            Some(p) => {
                let kept = HubState { prompts: without(self.prompts, printed(id)), ..self };
                kept.sent(
                    p.origin,
                    match (error, result) {
                        (Some(e), _) => message().with("id"@, id).with("error"@, e),
                        (None, Some(r)) => result_message(id, r),
                        (None, None) => result_message(id, obj()),
                    },
                )
            },
            None => match lookup(self.routes, or_empty(id.as_text())) {
                Some(sid) => match self.actor_of(sid) {
                    Some(actor) => self.acting(
                        Act::Order(actor, Cmd::Reply { id, result, error }),
                    ),
                    None => self,
                },
                None => self,
            },
        }
    }

    /// The acts by which every actor is told to stop.
    pub open spec fn stops(sessions: Seq<(Seq<char>, Place)>) -> Seq<Act>
        decreases sessions.len(),
    {
        if sessions.len() == 0 {
            Seq::empty()
        } else {
            match sessions.last().1 {
                Place::Live { actor, .. } => Self::stops(sessions.drop_last()).push(
                    Act::Order(actor, Cmd::Shutdown),
                ),
                _ => Self::stops(sessions.drop_last()),
            }
        }
    }

    /// With everyone gone and every actor told to stop.
    pub open spec fn ended(self) -> HubState {
        HubState {
            sessions: Seq::empty(),
            clients: Seq::empty(),
            out: self.out + Self::stops(self.sessions) + self.clients.map_values(
                |c: (u64, Member)| Act::Close(c.0),
            ),
            ..self
        }
    }

    /// Whether one waits already for the answer that another waits for.
    pub open spec fn waits(waiters: Seq<Waiter>, w: Waiter) -> bool {
        exists|i: int|
            0 <= i < waiters.len() && (#[trigger] waiters[i]).client == w.client && same(
                waiters[i].id,
                w.id,
            )
    }

    /// Those who are answered when a session is ready: those who waited, and
    /// the one who began it.
    pub open spec fn answered(waiters: Seq<Waiter>, origin: Option<Waiter>) -> Seq<Waiter> {
        match origin {
            Some(o) => if Self::waits(waiters, o) {
                waiters
            } else {
                waiters.push(o)
            },
            None => waiters,
        }
    }

    /// What an actor's readiness does. Where a client runs the session by then,
    /// the actor is told to stop and nothing else changes.
    pub open spec fn completed(
        self,
        sid: Seq<char>,
        cwd: Option<Seq<char>>,
        title: Seq<char>,
        result: Tree,
        actor: u64,
        origin: Option<Waiter>,
    ) -> HubState {
        if self.host_of(sid) is Some {
            self.acting(Act::Order(actor, Cmd::Shutdown))
        } else {
            let waiters = match self.place(sid) {
                Some(Place::Starting(w)) => w,
                _ => Seq::empty(),
            };
            let live = HubState {
                sessions: put(self.sessions, sid, Place::Live { cwd, title, result, actor }),
                ..self
            };
            live.welcomed(Self::answered(waiters, origin), sid, result).told_all(
                change_notice(obj().with("id"@, string(sid)).with("live"@, Tree::Bool(true))),
            )
        }
    }

    /// What tells one who waits from another.
    pub open spec fn waiter_key(w: Waiter) -> Seq<char> {
        decimal(w.client as nat) + ":"@ + printed(w.id)
    }

    /// The keys of some who wait.
    pub open spec fn waiter_keys(waiters: Seq<Waiter>) -> Set<Seq<char>> {
        waiters.map_values(|w: Waiter| Self::waiter_key(w)).to_set()
    }

    /// With those who waited told that a session failed, each once.
    pub open spec fn told_failure(self, waiters: Seq<Waiter>, err: Fault) -> HubState
        decreases waiters.len(),
    {
        if waiters.len() == 0 {
            self
        } else {
            let before = self.told_failure(waiters.drop_last(), err);
            let w = waiters.last();
            if Self::waiter_keys(waiters.drop_last()).contains(Self::waiter_key(w)) {
                before
            } else {
                before.sent(w.client, error_message(w.id, err.code, err.text))
            }
        }
    }

    /// What the failure of an actor to begin does.
    pub open spec fn failed(self, sid: Option<Seq<char>>, origin: Waiter, err: Fault) -> HubState {
        let waiters = match sid {
            Some(s) => match self.place(s) {
                Some(Place::Starting(w)) => w,
                _ => seq![origin],
            },
            None => seq![origin],
        };
        let gone = match sid {
            Some(s) => HubState { sessions: without(self.sessions, s), ..self },
            None => self,
        };
        gone.told_failure(waiters, err)
    }

    /// What the end of an agent does.
    pub open spec fn removed(self, sid: Seq<char>) -> HubState {
        let gone = HubState { sessions: without(self.sessions, sid), ..self };
        gone.told_all(
            change_notice(
                obj().with("id"@, string(sid)).with("live"@, Tree::Bool(false)).with(
                    "reason"@,
                    string("actor_exit"@),
                ),
            ),
        )
    }

    /// The id of the next question for permission.
    pub open spec fn perm_id(self) -> Seq<char> {
        "hp-"@ + decimal(self.next_perm as nat)
    }

    /// With that id used.
    pub open spec fn perm_taken(self) -> HubState {
        HubState { next_perm: after(self.next_perm), ..self }
    }

    /// With answers to a question routed to a session.
    pub open spec fn routed(self, hid: Seq<char>, sid: Seq<char>) -> HubState {
        HubState { routes: put(self.routes, hid, sid), ..self }
    }

    /// With some questions routed nowhere.
    pub open spec fn unrouted(self, hids: Seq<Seq<char>>) -> HubState
        decreases hids.len(),
    {
        if hids.len() == 0 {
            self
        } else {
            let before = self.unrouted(hids.drop_last());
            HubState { routes: without(before.routes, hids.last()), ..before }
        }
    }
}

} // verus!
