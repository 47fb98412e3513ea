//! The hub: it knows the clients and the sessions, routes what each sends, and
//! writes down in order what is to be done about it.

use crate::codec::{json_text, parse_json};
use crate::history::{row_limit, session_history_in, HISTORY_MAX, HistoryRow, Row};
use crate::json::{obj, same, trees, Json, Tree};
use crate::model::{
    after, all_well, bind_text, bind_tree, greeting_kind, introduction, known_kind, lan_allowed,
    mobile_kind, named_session, naming, prompt_blocks, prompt_echo, prompt_text, refused, sent_off,
    session_method, turned_away, wanted_port, wanted_rows, Act, Answer, Cmd, Errand, Fate,
    HostedPrompt, HubState, LAN_CONN_MAX, LOCAL_CONN_MAX, LanWant, Member, PROTOCOL_VERSION, Place,
    Start, VERSION, Waiter, World,
};
use crate::numeral::to_decimal;
use crate::order::views;
use crate::rpc::{rpc_error, rpc_notice, rpc_request, rpc_result, Fault, RpcError};
use crate::sessions::{
    list_disk_sessions_in, lookup_cwd, lookup_title, merge_live, opt_json, own_opt, Card,
    DiskSession, SessionCard,
};
use crate::table::{
    lemma_filter_none, lemma_filter_step, lemma_filter_unique, lemma_take_more, lookup, pairs,
    Table,
};
use crate::text::{
    concat, concat3, filled, opt_str, opt_text, or_empty, own, starts_with, text_eq, text_or, texts,
    trim, words, words_of,
};
use crate::tls::{find_device, lookup_device_fp, ALPN, DeviceRecord};
use vstd::prelude::*;

verus! {

/// The program that serves a session, and its arguments.
pub struct AgentSpawn {
    pub program: String,
    pub args: Vec<String>,
}

impl AgentSpawn {
    /// The agent to run: what the settings name, otherwise this program itself
    /// in its role of agent.
    pub fn from_env(bin: Option<&str>, args: Option<&str>, exe: Option<&str>) -> (r: AgentSpawn)
        ensures
            r.program@ == match (bin, exe) {
                (Some(b), _) => b@,
                (None, Some(e)) => e@,
                (None, None) => "gtm"@,
            },
            texts(r.args@) == match (bin, args) {
                (Some(_), Some(a)) => words_of(a@),
                (Some(_), None) => Seq::empty(),
                (None, _) => seq!["agent"@, "--no-leader"@, "stdio"@],
            },
    {
        match bin {
            Some(b) => {
                let list: Vec<String> = match args {
                    Some(a) => words(a),
                    None => Vec::new(),
                };
                proof {
                    if args is None {
                        assert(texts(list@) =~= Seq::empty());
                    }
                }
                AgentSpawn { program: own(b), args: list }
            },
            None => {
                let mut list: Vec<String> = Vec::new();
                list.push(own("agent"));
                list.push(own("--no-leader"));
                list.push(own("stdio"));
                proof {
                    assert(texts(list@) =~= seq!["agent"@, "--no-leader"@, "stdio"@]);
                }
                AgentSpawn { program: own(text_or(exe, "gtm")), args: list }
            },
        }
    }
}

/// What an optional value holds.
pub open spec fn opt_value(o: Option<Json>) -> Option<Tree> {
    match o {
        Some(j) => Some(j@),
        None => None,
    }
}

/// A client that waits for the answer to a request.
pub struct Waiting {
    pub client_id: u64,
    pub id: Json,
}

impl View for Waiting {
    type V = Waiter;

    open spec fn view(&self) -> Waiter {
        Waiter { client: self.client_id, id: self.id@ }
    }
}

/// What a session's actor is told.
pub enum ActorCmd {
    Rpc { client_id: u64, id: Json, method: String, params: Json },
    Notify { method: String, params: Json },
    ClientReply { id: Json, result: Option<Json>, error: Option<Json> },
    Shutdown,
}

impl View for ActorCmd {
    type V = Cmd;

    open spec fn view(&self) -> Cmd {
        match self {
            ActorCmd::Rpc { client_id, id, method, params } => Cmd::Rpc {
                client: *client_id,
                id: id@,
                method: method@,
                params: params@,
            },
            ActorCmd::Notify { method, params } => Cmd::Notify {
                method: method@,
                params: params@,
            },
            ActorCmd::ClientReply { id, result, error } => Cmd::Reply {
                id: id@,
                result: opt_value(*result),
                error: opt_value(*error),
            },
            ActorCmd::Shutdown => Cmd::Shutdown,
        }
    }
}

/// What the hub does.
pub enum Effect {
    /// Sends a message to a client.
    Send { client_id: u64, msg: Json },
    /// Lets go of a client's connection.
    Close { client_id: u64 },
    /// Starts an actor for a client's request.
    Spawn { actor: u64, start: Start, client_id: u64, id: Json, params: Json },
    /// Tells an actor something.
    Order { actor: u64, cmd: ActorCmd },
}

impl View for Effect {
    type V = Act;

    open spec fn view(&self) -> Act {
        match self {
            Effect::Send { client_id, msg } => Act::Send(*client_id, msg@),
            Effect::Close { client_id } => Act::Close(*client_id),
            Effect::Spawn { actor, start, client_id, id, params } => Act::Spawn {
                actor: *actor,
                start: *start,
                client: *client_id,
                id: id@,
                params: params@,
            },
            Effect::Order { actor, cmd } => Act::Order(*actor, cmd@),
        }
    }
}

/// What a request gets at once: an answer, or nothing yet.
pub enum Dispatch {
    Reply(Result<Json, RpcError>),
    Pending,
}

impl View for Dispatch {
    type V = Answer;

    open spec fn view(&self) -> Answer {
        match self {
            Dispatch::Reply(Ok(j)) => Answer::Done(j@),
            Dispatch::Reply(Err(e)) => Answer::Refused(e@),
            Dispatch::Pending => Answer::Pending,
        }
    }
}

/// What became of a device whose access was to be taken away.
pub enum Revoked {
    Gone,
    Unknown,
    Failed(String),
}

impl View for Revoked {
    type V = Fate;

    open spec fn view(&self) -> Fate {
        match self {
            Revoked::Gone => Fate::Gone,
            Revoked::Unknown => Fate::Unknown,
            Revoked::Failed(s) => Fate::Failed(s@),
        }
    }
}

/// What a request finds outside the hub.
pub struct Facts {
    /// What the disk holds of the session that the request names.
    pub disk: Option<DiskSession>,
    /// All sessions on disk.
    pub stored: Vec<DiskSession>,
    /// The chat history of the session that the request names.
    pub chat: Option<String>,
    /// The record of updates of the session that the request names.
    pub updates: Option<String>,
    /// The devices that were let in.
    pub devices: Vec<DeviceRecord>,
    /// The host's own address.
    pub host: String,
    /// The port that the network listener takes if nothing says otherwise.
    pub lan_port: u16,
    /// Why there is no certificate for the network listener, if there is none.
    pub materials: Option<String>,
    /// What became of the device that the request names.
    pub revoked: Revoked,
    /// The hub's process.
    pub pid: u32,
    /// The hub's socket.
    pub socket: String,
}

impl View for Facts {
    type V = World;

    open spec fn view(&self) -> World {
        World {
            disk: match self.disk {
                Some(d) => Some(d@),
                None => None,
            },
            stored: views(self.stored@),
            chat: opt_text(self.chat),
            updates: opt_text(self.updates),
            devices: views(self.devices@),
            host: self.host@,
            lan_port: self.lan_port,
            materials: opt_text(self.materials),
            fate: self.revoked@,
            pid: self.pid,
            socket: self.socket@,
        }
    }
}

impl Facts {
    /// What is known of the surroundings before anything is looked up.
    pub fn new(pid: u32, socket: &str, lan_port: u16) -> (r: Facts)
        ensures
            r@ == (World {
                disk: None,
                stored: Seq::empty(),
                chat: None,
                updates: None,
                devices: Seq::empty(),
                host: Seq::empty(),
                lan_port,
                materials: None,
                fate: Fate::Unknown,
                pid,
                socket: socket@,
            }),
    {
        let f: Facts = Facts {
            disk: None,
            stored: Vec::new(),
            chat: None,
            updates: None,
            devices: Vec::new(),
            host: String::new(),
            lan_port,
            materials: None,
            revoked: Revoked::Unknown,
            pid,
            socket: own(socket),
        };
        proof {
            assert(f@.stored =~= Seq::empty());
            assert(f@.devices =~= Seq::empty());
            assert(f@.host =~= Seq::empty());
        }
        f
    }
}

/// What a request calls for outside the hub before it can be answered.
pub enum Lookup {
    Nothing,
    /// What the disk holds of a session.
    Disk(String),
    /// The transcript files of a session.
    Transcript(String),
    /// All sessions on disk.
    Listing,
    /// The devices, and the host's own address.
    Remote,
    /// A certificate for the network listener, made if there is none, and the
    /// host's own address.
    Materials,
    /// The devices, and a device's access taken away.
    Revoke(String),
}

impl View for Lookup {
    type V = Errand;

    open spec fn view(&self) -> Errand {
        match self {
            Lookup::Nothing => Errand::Nothing,
            Lookup::Disk(s) => Errand::Disk(s@),
            Lookup::Transcript(s) => Errand::Transcript(s@),
            Lookup::Listing => Errand::Listing,
            Lookup::Remote => Errand::Remote,
            Lookup::Materials => Errand::Materials,
            Lookup::Revoke(s) => Errand::Revoke(s@),
        }
    }
}

/// A connected client. No session occurs twice among those that it follows.
pub struct Client {
    subs: Vec<String>,
    lan: bool,
    device_fp: Option<String>,
}

impl View for Client {
    type V = Member;

    closed spec fn view(&self) -> Member {
        Member {
            subs: texts(self.subs@).to_set(),
            lan: self.lan,
            fp: opt_text(self.device_fp),
        }
    }
}

/// The position of a text in a list.
fn index_of(list: &Vec<String>, text: &str) -> (r: Option<usize>)
    ensures
        match r {
            Some(i) => i < list@.len() && list@[i as int]@ == text@,
            None => forall|j: int| 0 <= j < list@.len() ==> (#[trigger] list@[j])@ != text@,
        },
{
    let mut i: usize = 0;
    while i < list.len()
        invariant
            i <= list@.len(),
            forall|j: int| 0 <= j < i ==> (#[trigger] list@[j])@ != text@,
        decreases list@.len() - i,
    {
        if text_eq(list[i].as_str(), text) {
            return Some(i);
        }
        i = i + 1;
    }
    None
}

/// Whether a text stands in a list.
fn in_list(list: &Vec<String>, text: &str) -> (r: bool)
    ensures
        r == texts(list@).to_set().contains(text@),
{
    match index_of(list, text) {
        Some(i) => {
            proof {
                assert(texts(list@)[i as int] == text@);
            }
            true
        },
        None => {
            proof {
                assert forall|j: int| 0 <= j < list@.len() implies texts(list@)[j] != text@ by {
                    assert(list@[j]@ != text@);
                }
            }
            false
        },
    }
}

impl Client {
    #[verifier::type_invariant]
    closed spec fn follows_once(self) -> bool {
        texts(self.subs@).no_duplicates()
    }

    /// A client that follows nothing yet.
    fn new(lan: bool, device_fp: Option<String>) -> (r: Client)
        ensures
            r@ == (Member { subs: Set::empty(), lan, fp: opt_text(device_fp) }),
    {
        let c: Client = Client { subs: Vec::new(), lan, device_fp };
        proof {
            assert(c@.subs =~= Set::empty());
        }
        c
    }

    /// Whether the client follows a session.
    fn follows(&self, sid: &str) -> (r: bool)
        ensures
            r == self@.subs.contains(sid@),
    {
        in_list(&self.subs, sid)
    }

    /// Whether the client is of a device.
    fn is_device(&self, fp: &str) -> (r: bool)
        ensures
            r == (self@.fp == Some(fp@)),
    {
        match &self.device_fp {
            Some(f) => text_eq(f.as_str(), fp),
            None => false,
        }
    }

    /// The client following one more session.
    fn following(&self, sid: &str) -> (r: Client)
        ensures
            r@ == (Member { subs: self@.subs.insert(sid@), ..self@ }),
    {
        proof {
            use_type_invariant(self);
        }
        let mut subs: Vec<String> = Vec::new();
        let mut i: usize = 0;
        while i < self.subs.len()
            invariant
                i <= self.subs@.len(),
                texts(subs@) == texts(self.subs@).take(i as int),
            decreases self.subs@.len() - i,
        {
            let ghost so_far = texts(subs@);
            subs.push(own(self.subs[i].as_str()));
            proof {
                assert(texts(subs@) =~= so_far.push(self.subs@[i as int]@));
                assert(texts(self.subs@).take(i + 1) =~= so_far.push(self.subs@[i as int]@));
            }
            i = i + 1;
        }
        let ghost all = texts(subs@);
        proof {
            assert(all =~= texts(self.subs@));
        }
        if in_list(&subs, sid) {
            proof {
                assert(all.to_set().insert(sid@) =~= all.to_set());
            }
        } else {
            subs.push(own(sid));
            proof {
                assert(texts(subs@) =~= all.push(sid@));
                all.lemma_push_to_set_commute(sid@);
                assert(!all.contains(sid@)) by {
                    assert(all.contains(sid@) ==> all.to_set().contains(sid@));
                }
            }
        }
        Client { subs, lan: self.lan, device_fp: crate::sessions::own_opt(&self.device_fp) }
    }

    /// The client following a session no more.
    fn not_following(&self, sid: &str) -> (r: Client)
        ensures
            r@ == (Member { subs: self@.subs.remove(sid@), ..self@ }),
    {
        proof {
            use_type_invariant(self);
        }
        let ghost all = texts(self.subs@);
        let mut subs: Vec<String> = Vec::new();
        let mut i: usize = 0;
        proof {
            assert(texts(subs@).to_set() =~= all.take(0).to_set().remove(sid@));
        }
        while i < self.subs.len()
            invariant
                i <= self.subs@.len(),
                all == texts(self.subs@),
                all.no_duplicates(),
                texts(subs@).no_duplicates(),
                texts(subs@).to_set() == all.take(i as int).to_set().remove(sid@),
            decreases self.subs@.len() - i,
        {
            let ghost so_far = texts(subs@);
            let ghost next = all[i as int];
            proof {
                assert(all.take(i + 1) =~= all.take(i as int).push(next));
                all.take(i as int).lemma_push_to_set_commute(next);
            }
            if !text_eq(self.subs[i].as_str(), sid) {
                subs.push(own(self.subs[i].as_str()));
                proof {
                    assert(texts(subs@) =~= so_far.push(next));
                    so_far.lemma_push_to_set_commute(next);
                    if so_far.contains(next) {
                        assert(so_far.to_set().contains(next));
                        let k = choose|k: int| 0 <= k < i && all.take(i as int)[k] == next;
                        assert(all[k] == all[i as int]);
                    }
                }
            }
            proof {
                assert(texts(subs@).to_set() =~= all.take(i + 1).to_set().remove(sid@));
            }
            i = i + 1;
        }
        proof {
            assert(all.take(i as int) =~= all);
        }
        Client { subs, lan: self.lan, device_fp: crate::sessions::own_opt(&self.device_fp) }
    }
}

/// A session that the hub knows of.
pub enum Entry {
    /// Its agent starts.
    Starting { waiters: Vec<Waiting> },
    /// Its agent runs here.
    Live { cwd: Option<String>, title: String, new_result: Json, actor: u64 },
    /// A client runs it, and the hub only passes on.
    Hosted { client_id: u64, cwd: Option<String>, title: String },
}

impl View for Entry {
    type V = Place;

    open spec fn view(&self) -> Place {
        match self {
            Entry::Starting { waiters } => Place::Starting(views(waiters@)),
            Entry::Live { cwd, title, new_result, actor } => Place::Live {
                cwd: opt_text(*cwd),
                title: title@,
                result: new_result@,
                actor: *actor,
            },
            Entry::Hosted { client_id, cwd, title } => Place::Hosted {
                client: *client_id,
                cwd: opt_text(*cwd),
                title: title@,
            },
        }
    }
}

/// The hub.
pub struct Hub {
    clients: Table<u64, Client>,
    sessions: Table<String, Entry>,
    perm_routes: Table<String, String>,
    hosted_prompts: Table<String, HostedPrompt>,
    next_client: u64,
    next_perm: u64,
    next_actor: u64,
    lan: LanWant,
    out: Vec<Effect>,
}

impl View for Hub {
    type V = HubState;

    closed spec fn view(&self) -> HubState {
        HubState {
            clients: self.clients@,
            sessions: self.sessions@,
            routes: self.perm_routes@,
            prompts: self.hosted_prompts@,
            next_client: self.next_client,
            next_perm: self.next_perm,
            next_actor: self.next_actor,
            lan: self.lan,
            out: views(self.out@),
        }
    }
}

/// The number after `n`, round to zero at the end.
fn next(n: u64) -> (r: u64)
    ensures
        r == after(n),
{
    if n == u64::MAX {
        0
    } else {
        n + 1
    }
}

impl Hub {
    /// A hub to which nothing has happened.
    pub fn new(lan_port: u16) -> (r: Hub)
        ensures
            r@ == HubState::start(lan_port),
    {
        let h: Hub = Hub {
            clients: Table::new(),
            sessions: Table::new(),
            perm_routes: Table::new(),
            hosted_prompts: Table::new(),
            next_client: 1,
            next_perm: 1,
            next_actor: 1,
            lan: LanWant { enabled: false, port: lan_port },
            out: Vec::new(),
        };
        proof {
            assert(h@.out =~= Seq::empty());
        }
        h
    }

    /// What the hub has decided to do since this was last asked, in order.
    pub fn take_effects(&mut self) -> (r: Vec<Effect>)
        ensures
            views(r@) == old(self)@.out,
            final(self)@ == (HubState { out: Seq::empty(), ..old(self)@ }),
    {
        let mut r: Vec<Effect> = Vec::new();
        r.append(&mut self.out);
        proof {
            assert(views(self.out@) =~= Seq::empty());
            assert(views(r@) =~= old(self)@.out);
        }
        r
    }

    /// Whether there is to be a network listener, and on which port.
    pub fn lan_want(&self) -> (r: LanWant)
        ensures
            r == self@.lan,
    {
        self.lan
    }

    /// Whether a client came in over the network.
    pub fn is_lan(&self, client_id: u64) -> (r: bool)
        ensures
            r == self@.on_lan(client_id),
    {
        match self.clients.get(&client_id) {
            Some(c) => c.lan,
            None => false,
        }
    }

    /// Whether a client is connected.
    pub fn has_client(&self, client_id: u64) -> (r: bool)
        ensures
            r == (self@.member(client_id) is Some),
    {
        self.clients.has(&client_id)
    }

    /// How many clients came in one way.
    fn count(&self, lan: bool) -> (r: usize)
        ensures
            r == self@.count(lan),
    {
        let ghost all = self.clients@;
        let ghost f = |c: (u64, Member)| c.1.lan == lan;
        let mut n: usize = 0;
        let mut i: usize = 0;
        proof {
            lemma_filter_none(all, f);
        }
        while i < self.clients.len()
            invariant
                i <= self.clients@.len(),
                n <= i,
                all == self.clients@,
                f == (|c: (u64, Member)| c.1.lan == lan),
                n == all.take(i as int).filter(f).len(),
            decreases self.clients@.len() - i,
        {
            proof {
                lemma_filter_step(all, f, i as int);
            }
            if self.clients.value_at(i).lan == lan {
                n = n + 1;
            }
            i = i + 1;
        }
        proof {
            assert(all.take(i as int) =~= all);
        }
        n
    }

    /// How many clients came in over the network.
    pub fn lan_clients(&self) -> (r: usize)
        ensures
            r == self@.count(true),
    {
        self.count(true)
    }

    /// Writes down one more thing to do.
    fn act(&mut self, effect: Effect)
        ensures
            final(self)@ == old(self)@.acting(effect@),
    {
        let ghost before = self@;
        self.out.push(effect);
        proof {
            assert(self@.out =~= before.out.push(effect@));
        }
    }

    /// Sends a message to a client, if it is connected.
    pub fn send_to(&mut self, client_id: u64, msg: Json)
        ensures
            final(self)@ == old(self)@.sent(client_id, msg@),
    {
        if self.clients.has(&client_id) {
            self.act(Effect::Send { client_id, msg });
        }
    }

    /// Sends a message to each of some clients.
    fn send_each(&mut self, ids: &Vec<u64>, msg: &Json)
        ensures
            final(self)@ == old(self)@.sent_each(ids@, msg@),
    {
        let ghost before = self@;
        let ghost g = |id: u64| Act::Send(id, msg@);
        let mut i: usize = 0;
        proof {
            assert(before.out + ids@.take(0).map_values(g) =~= before.out);
        }
        while i < ids.len()
            invariant
                i <= ids@.len(),
                g == (|id: u64| Act::Send(id, msg@)),
                self@ == (HubState {
                    out: before.out + ids@.take(i as int).map_values(g),
                    ..before
                }),
            decreases ids@.len() - i,
        {
            let ghost so_far = self@;
            self.act(Effect::Send { client_id: ids[i], msg: msg.copy() });
            proof {
                assert(ids@.take(i + 1).map_values(g) =~= ids@.take(i as int).map_values(g).push(
                    g(ids@[i as int]),
                ));
                assert(so_far.out.push(g(ids@[i as int])) =~= before.out + ids@.take(
                    i + 1,
                ).map_values(g));
            }
            i = i + 1;
        }
        proof {
            assert(ids@.take(i as int) =~= ids@);
        }
    }

    /// The clients that follow a session.
    pub fn subscribers(&self, session_id: &str) -> (r: Vec<u64>)
        ensures
            r@ == self@.followers(session_id@),
    {
        let ghost all = self.clients@;
        let ghost f = |c: (u64, Member)| c.1.subs.contains(session_id@);
        let ghost g = |c: (u64, Member)| c.0;
        let mut r: Vec<u64> = Vec::new();
        let mut i: usize = 0;
        proof {
            lemma_filter_none(all, f);
        }
        while i < self.clients.len()
            invariant
                i <= self.clients@.len(),
                all == self.clients@,
                f == (|c: (u64, Member)| c.1.subs.contains(session_id@)),
                g == (|c: (u64, Member)| c.0),
                r@ =~= all.take(i as int).filter(f).map_values(g),
            decreases self.clients@.len() - i,
        {
            proof {
                lemma_filter_step(all, f, i as int);
            }
            if self.clients.value_at(i).follows(session_id) {
                r.push(*self.clients.key_at(i));
                proof {
                    assert(all.take(i as int).filter(f).push(all[i as int]).map_values(g)
                        =~= all.take(i as int).filter(f).map_values(g).push(all[i as int].0));
                }
            }
            i = i + 1;
        }
        proof {
            assert(all.take(i as int) =~= all);
        }
        r
    }

    /// Sends a message to everyone who follows a session.
    pub fn broadcast_session(&mut self, session_id: &str, msg: &Json)
        ensures
            final(self)@ == old(self)@.told_followers(session_id@, msg@),
    {
        let ids: Vec<u64> = self.subscribers(session_id);
        self.send_each(&ids, msg);
    }

    /// Everyone who is connected.
    fn everyone(&self) -> (r: Vec<u64>)
        ensures
            r@ == self@.clients.map_values(|c: (u64, Member)| c.0),
    {
        let ghost g = |c: (u64, Member)| c.0;
        let mut r: Vec<u64> = Vec::new();
        let mut i: usize = 0;
        while i < self.clients.len()
            invariant
                i <= self.clients@.len(),
                r@.len() == i,
                forall|j: int| 0 <= j < i ==> #[trigger] r@[j] == self.clients@[j].0,
            decreases self.clients@.len() - i,
        {
            r.push(*self.clients.key_at(i));
            i = i + 1;
        }
        proof {
            assert(r@ =~= self.clients@.map_values(g));
        }
        r
    }

    /// Sends a message to everyone.
    pub fn broadcast_all(&mut self, msg: &Json)
        ensures
            final(self)@ == old(self)@.told_all(msg@),
    {
        let ids: Vec<u64> = self.everyone();
        self.send_each(&ids, msg);
    }

    /// Lets a client follow a session.
    pub fn subscribe(&mut self, client_id: u64, session_id: &str)
        ensures
            final(self)@ == old(self)@.following(client_id, session_id@),
    {
        let changed: Option<Client> = match self.clients.get(&client_id) {
            Some(c) => Some(c.following(session_id)),
            None => None,
        };
        if let Some(c) = changed {
            self.clients.set(client_id, c);
        }
    }

    /// Lets a client follow a session no more.
    pub fn unsubscribe(&mut self, client_id: u64, session_id: &str)
        ensures
            final(self)@ == old(self)@.not_following(client_id, session_id@),
    {
        let changed: Option<Client> = match self.clients.get(&client_id) {
            Some(c) => Some(c.not_following(session_id)),
            None => None,
        };
        if let Some(c) = changed {
            self.clients.set(client_id, c);
        }
    }

    /// Sends every client of a device off.
    fn evict_fp(&mut self, fp: &str, reason: &str)
        ensures
            final(self)@ == old(self)@.evicting(fp@, reason@),
    {
        let ghost before = self@;
        let ghost stays = |c: (u64, Member)| c.1.fp != Some(fp@);
        let ghost goes = |c: (u64, Member)| c.1.fp == Some(fp@);
        let rest: Vec<(u64, Client)> = self.clients.drain();
        let ghost items = rest@;
        let mut kept: Vec<(u64, Client)> = Vec::new();
        proof {
            lemma_filter_none(before.clients, stays);
            lemma_filter_none(before.clients, goes);
            assert(pairs(kept@) =~= Seq::<(u64, Member)>::empty());
            assert(before.out + Seq::<Act>::empty() =~= before.out);
        }
        for c in it: rest
            invariant
                it.seq() == items,
                pairs(items) == before.clients,
                stays == (|c: (u64, Member)| c.1.fp != Some(fp@)),
                goes == (|c: (u64, Member)| c.1.fp == Some(fp@)),
                pairs(kept@) == before.clients.take(it.index()).filter(stays),
                self@ == (HubState {
                    clients: Seq::empty(),
                    out: before.out + sent_off(
                        before.clients.take(it.index()).filter(goes),
                        reason@,
                    ),
                    ..before
                }),
        {
            let ghost k = it.index();
            let ghost so_far = pairs(kept@);
            proof {
                assert(before.clients[k] == (c.0, c.1@));
                lemma_filter_step(before.clients, stays, k);
                lemma_filter_step(before.clients, goes, k);
            }
            if c.1.is_device(fp) {
                let id: u64 = c.0;
                let params: Json = Json::object().with("reason", Json::text(reason));
                self.act(
                    Effect::Send { client_id: id, msg: rpc_notice("gtm/hub.shutdown", params) },
                );
                self.act(Effect::Close { client_id: id });
                proof {
                    let gone = before.clients.take(k).filter(goes);
                    assert(gone.push(before.clients[k]).drop_last() =~= gone);
                    assert(self@.out =~= before.out + sent_off(
                        gone.push(before.clients[k]),
                        reason@,
                    ));
                }
            } else {
                kept.push(c);
                proof {
                    assert(pairs(kept@) =~= so_far.push((c.0, c.1@)));
                }
            }
        }
        proof {
            assert(before.clients.take(items.len() as int) =~= before.clients);
            lemma_filter_unique(before.clients, stays);
        }
        self.clients = Table::of(kept);
    }

    /// Sends every client of a device off whose access was taken away.
    pub fn drop_device(&mut self, fp: &str)
        ensures
            final(self)@ == old(self)@.evicting(fp@, "revoked"@),
    {
        self.evict_fp(fp, "revoked");
    }
}

/// The kind of client that a greeting names.
fn kind_of(params: &Json) -> (r: &str)
    ensures
        r@ == greeting_kind(params@),
{
    proof {
        reveal_strlit("");
        assert(""@ =~= Seq::<char>::empty());
    }
    match params.get_in("client", "kind") {
        Some(t) => text_or(t.as_str(), ""),
        None => "",
    }
}

/// Whether a kind of client comes in over the network.
fn is_mobile(kind: &str) -> (r: bool)
    ensures
        r == mobile_kind(kind@),
{
    text_eq(kind, "ios") || text_eq(kind, "android")
}

/// Whether a kind of client is known.
fn is_known(kind: &str) -> (r: bool)
    ensures
        r == known_kind(kind@),
{
    text_eq(kind, "macos") || text_eq(kind, "tui") || text_eq(kind, "stdio") || is_mobile(kind)
}

/// Why a greeting is turned away whoever else is connected, if it is.
fn turn_away(
    params: &Json,
    lan: bool,
    device_fp: &Option<String>,
    devices: &Vec<DeviceRecord>,
    now: u64,
) -> (r: Option<RpcError>)
    ensures
        match r {
            Some(e) => turned_away(params@, lan, opt_text(*device_fp), views(devices@), now)
                == Some(e@),
            None => turned_away(
                params@,
                lan,
                opt_text(*device_fp),
                views(devices@),
                now,
            ) is None,
        },
{
    let kind: &str = kind_of(params);
    if !is_known(kind) {
        return Some(RpcError::new(-32602, concat("unknown client kind ", kind).as_str()));
    }
    if lan && !is_mobile(kind) {
        return Some(RpcError::new(-32000, "LAN listener only accepts ios/android clients"));
    }
    if !lan && is_mobile(kind) {
        return Some(RpcError::new(-32000, "mobile clients must use the TLS listener"));
    }
    if lan {
        match device_fp {
            None => {
                return Some(RpcError::new(-32000, "missing device certificate"));
            },
            Some(fp) => {
                if lookup_device_fp(devices, fp.as_str(), now).is_none() {
                    return Some(RpcError::new(-32000, "device not enrolled or expired"));
                }
            },
        }
    }
    let version: u64 = match params.get("protocolVersion") {
        Some(t) => match t.as_u64() {
            Some(n) => n,
            None => 0,
        },
        None => 0,
    };
    if version != PROTOCOL_VERSION {
        let text: String = concat(
            "unsupported protocolVersion ",
            to_decimal(version).as_str(),
        );
        return Some(RpcError::new(-32000, text.as_str()));
    }
    None
}

impl Hub {
    /// Lets a client in, or says why not. An older connection of the same
    /// device over the network makes way first.
    pub fn hello(
        &mut self,
        params: &Json,
        lan: bool,
        device_fp: Option<String>,
        devices: &Vec<DeviceRecord>,
        now: u64,
    ) -> (r: Result<(u64, Json), RpcError>)
        ensures
            ({
                let (s, a) = old(self)@.greeted(
                    params@,
                    lan,
                    opt_text(device_fp),
                    views(devices@),
                    now,
                );
                &&& final(self)@ == s
                &&& match r {
                    Ok((id, j)) => a == Ok::<(u64, Tree), Fault>((id, j@)),
                    Err(e) => a == Err::<(u64, Tree), Fault>(e@),
                }
            }),
    {
        if let Some(e) = turn_away(params, lan, &device_fp, devices, now) {
            return Err(e);
        }
        let kind: &str = kind_of(params);
        if lan {
            if let Some(fp) = &device_fp {
                self.evict_fp(fp.as_str(), "replaced");
            }
        }
        let max: usize = if lan {
            LAN_CONN_MAX
        } else {
            LOCAL_CONN_MAX
        };
        if self.count(lan) >= max {
            return Err(RpcError::new(-32001, "too many connections"));
        }
        let id: u64 = self.next_client;
        self.next_client = next(id);
        self.clients.set(id, Client::new(lan, device_fp));
        let transport: &str = if lan {
            "lan"
        } else {
            "unix"
        };
        let welcome: Json = Json::object().with("clientId", Json::Uint(id)).with(
            "hubVersion",
            Json::text(VERSION),
        ).with("protocolVersion", Json::Uint(PROTOCOL_VERSION)).with(
            "transport",
            Json::text(transport),
        ).with("kind", Json::text(kind));
        Ok((id, welcome))
    }

    /// The actor of a session whose agent runs here.
    pub fn actor_for(&self, sid: &str) -> (r: Option<u64>)
        ensures
            r == self@.actor_of(sid@),
    {
        match self.sessions.get(&own(sid)) {
            Some(Entry::Live { actor, .. }) => Some(*actor),
            _ => None,
        }
    }

    /// The client that runs a session.
    pub fn host_client(&self, sid: &str) -> (r: Option<u64>)
        ensures
            r == self@.host_of(sid@),
    {
        match self.sessions.get(&own(sid)) {
            Some(Entry::Hosted { client_id, .. }) => Some(*client_id),
            _ => None,
        }
    }

    /// Whether a client runs a session.
    pub fn is_host(&self, client_id: u64, sid: &str) -> (r: bool)
        ensures
            r == (self@.host_of(sid@) == Some(client_id)),
    {
        match self.host_client(sid) {
            Some(c) => c == client_id,
            None => false,
        }
    }

    /// Tells an actor something.
    fn order(&mut self, actor: u64, cmd: ActorCmd)
        ensures
            final(self)@ == old(self)@.acting(Act::Order(actor, cmd@)),
    {
        self.act(Effect::Order { actor, cmd });
    }

    /// Answers those who waited for a session, and lets them follow it.
    fn welcome(&mut self, waiters: Vec<Waiting>, sid: &str, result: &Json)
        ensures
            final(self)@ == old(self)@.welcomed(views(waiters@), sid@, result@),
    {
        let ghost before = self@;
        let ghost items = waiters@;
        let ghost all = views(items);
        proof {
            assert(all.take(0) =~= Seq::empty());
        }
        for w in it: waiters
            invariant
                it.seq() == items,
                all == views(items),
                self@ == before.welcomed(all.take(it.index()), sid@, result@),
        {
            proof {
                lemma_take_more(all, it.index());
                assert(all[it.index()] == w@);
            }
            self.subscribe(w.client_id, sid);
            self.send_to(w.client_id, rpc_result(w.id, result.copy()));
        }
        proof {
            assert(all.take(items.len() as int) =~= all);
        }
    }

    /// Those who wait for a session to begin.
    fn waiters_for(&self, sid: &str) -> (r: Vec<Waiting>)
        ensures
            views(r@) == (match self@.place(sid@) {
                Some(Place::Starting(w)) => w,
                _ => Seq::empty(),
            }),
    {
        let mut out: Vec<Waiting> = Vec::new();
        proof {
            assert(views(out@) =~= Seq::empty());
        }
        if let Some(Entry::Starting { waiters }) = self.sessions.get(&own(sid)) {
            let mut i: usize = 0;
            while i < waiters.len()
                invariant
                    i <= waiters@.len(),
                    views(out@) == views(waiters@).take(i as int),
                decreases waiters@.len() - i,
            {
                let ghost so_far = views(out@);
                let w: Waiting = Waiting {
                    client_id: waiters[i].client_id,
                    id: waiters[i].id.copy(),
                };
                out.push(w);
                proof {
                    assert(views(out@) =~= so_far.push(w@));
                    assert(views(waiters@).take(i + 1) =~= so_far.push(views(waiters@)[i as int]));
                }
                i = i + 1;
            }
            proof {
                assert(views(waiters@).take(i as int) =~= views(waiters@));
            }
        }
        out
    }

    /// Drops the prompts that went to a host, and tells their askers.
    fn fail_hosted_prompts_for_host(&mut self, host: u64)
        ensures
            final(self)@ == old(self)@.host_lost(host),
    {
        let ghost before = self@;
        let ghost all = before.prompts;
        let ghost stays = |e: (Seq<char>, HostedPrompt)| e.1.host != host;
        let ghost goes = |e: (Seq<char>, HostedPrompt)| e.1.host == host;
        let rest: Vec<(String, HostedPrompt)> = self.hosted_prompts.drain();
        let mut kept: Vec<(String, HostedPrompt)> = Vec::new();
        let mut gone: Vec<(String, HostedPrompt)> = Vec::new();
        let ghost items = rest@;
        proof {
            lemma_filter_none(all, stays);
            lemma_filter_none(all, goes);
            assert(pairs(kept@) =~= Seq::<(Seq<char>, HostedPrompt)>::empty());
            assert(pairs(gone@) =~= Seq::<(Seq<char>, HostedPrompt)>::empty());
        }
        for e in it: rest
            invariant
                it.seq() == items,
                pairs(items) == all,
                stays == (|e: (Seq<char>, HostedPrompt)| e.1.host != host),
                goes == (|e: (Seq<char>, HostedPrompt)| e.1.host == host),
                pairs(kept@) == all.take(it.index()).filter(stays),
                pairs(gone@) == all.take(it.index()).filter(goes),
        {
            let ghost k = it.index();
            let ghost kept_so_far = pairs(kept@);
            let ghost gone_so_far = pairs(gone@);
            proof {
                assert(all[k] == (e.0@, e.1));
                lemma_filter_step(all, stays, k);
                lemma_filter_step(all, goes, k);
            }
            if e.1.host == host {
                gone.push(e);
                proof {
                    assert(pairs(gone@) =~= gone_so_far.push(all[k]));
                }
            } else {
                kept.push(e);
                proof {
                    assert(pairs(kept@) =~= kept_so_far.push(all[k]));
                }
            }
        }
        proof {
            assert(all.take(items.len() as int) =~= all);
            lemma_filter_unique(all, stays);
        }
        self.hosted_prompts = Table::of(kept);
        let ghost settled = self@;
        let ghost pending = pairs(gone@);
        let mut i: usize = 0;
        proof {
            assert(pending.take(0) =~= Seq::empty());
        }
        while i < gone.len()
            invariant
                i <= gone@.len(),
                pending == pairs(gone@),
                self@ == settled.prompts_failed(pending.take(i as int)),
            decreases gone@.len() - i,
        {
            proof {
                lemma_take_more(pending, i as int);
            }
            let id: Json = match parse_json(gone[i].0.as_str()) {
                Some(j) => j,
                None => Json::Null,
            };
            self.send_to(
                gone[i].1.origin,
                rpc_error(id, -32012, "TUI session host disconnected"),
            );
            i = i + 1;
        }
        proof {
            assert(pending.take(i as int) =~= pending);
        }
    }
}

/// The session that parameters name.
fn session_named(params: &Json) -> (r: Option<&str>)
    ensures
        opt_str(r) == named_session(params@),
{
    params.get_str("sessionId")
}

/// The text under a key, if it is there and not empty.
fn text_filled<'a>(params: &'a Json, key: &str) -> (r: Option<&'a str>)
    ensures
        opt_str(r) == filled(params@.get_str(key@)),
{
    match params.get_str(key) {
        Some(s) => if s.is_empty() {
            None
        } else {
            Some(s)
        },
        None => None,
    }
}

/// A refusal.
fn refuse(code: i64, text: &str) -> (r: Dispatch)
    ensures
        r@ == refused(code as int, text@),
{
    Dispatch::Reply(Err(RpcError::new(code, text)))
}

/// An answer.
fn done(value: Json) -> (r: Dispatch)
    ensures
        r@ == Answer::Done(value@),
{
    Dispatch::Reply(Ok(value))
}

/// An answer that says only that all is well.
fn ok_value() -> (r: Json)
    ensures
        r@ == all_well(),
{
    Json::object().with("ok", Json::Bool(true))
}

/// What shows a prompt to those who follow the session.
fn echo(sid: &str, text: &str) -> (r: Json)
    ensures
        r@ == prompt_echo(sid@, text@),
{
    let content: Json = Json::object().with("type", Json::text("text")).with(
        "text",
        Json::text(text),
    );
    let update: Json = Json::object().with("sessionUpdate", Json::text("user_message_chunk")).with(
        "content",
        content,
    );
    rpc_notice(
        "session/update",
        Json::object().with("sessionId", Json::text(sid)).with("update", update),
    )
}

/// What a prompt says, if it says anything.
pub fn extract_prompt_text(params: &Json) -> (r: Option<String>)
    ensures
        opt_text(r) == prompt_text(params@),
{
    let said: String = match params.get("prompt") {
        Some(Json::Str(s)) => trim(s.as_str()),
        Some(Json::Array(blocks)) => {
            proof {
                crate::json::lemma_array_view(*blocks);
            }
            let ghost all = trees(blocks@);
            let mut out: String = String::new();
            let mut i: usize = 0;
            proof {
                assert(all.take(0) =~= Seq::empty());
                assert(out@ =~= Seq::empty());
            }
            while i < blocks.len()
                invariant
                    i <= blocks@.len(),
                    all == trees(blocks@),
                    out@ == prompt_blocks(all.take(i as int)),
                decreases blocks@.len() - i,
            {
                proof {
                    lemma_take_more(all, i as int);
                    assert(out@ + Seq::<char>::empty() =~= out@);
                }
                if let Some(t) = blocks[i].get_str("text") {
                    out.push_str(t);
                }
                i = i + 1;
            }
            proof {
                assert(all.take(i as int) =~= all);
            }
            trim(out.as_str())
        },
        _ => {
            return None;
        },
    };
    if said.as_str().is_empty() {
        None
    } else {
        Some(said)
    }
}

impl Hub {
    /// Lets a client run a session, whoever ran it before.
    fn host_req(&mut self, client_id: u64, params: &Json, facts: &Facts) -> (r: Dispatch)
        ensures
            (final(self)@, r@) == old(self)@.host_request(client_id, params@, facts@),
    {
        if self.is_lan(client_id) {
            return refuse(-32000, "gtm/sessions.host is local-only");
        }
        let sid: &str = match text_filled(params, "sessionId") {
            Some(s) => s,
            None => {
                return refuse(-32602, "sessionId required");
            },
        };
        let cwd: Option<String> = match text_filled(params, "cwd") {
            Some(s) => Some(own(s)),
            None => lookup_cwd(facts.disk.as_ref()),
        };
        let title: String = match text_filled(params, "title") {
            Some(s) => own(s),
            None => match lookup_title(facts.disk.as_ref()) {
                Some(t) => t,
                None => String::new(),
            },
        };
        let waiters: Vec<Waiting> = self.waiters_for(sid);
        let takeover: Option<u64> = self.actor_for(sid);
        let replaced: Option<u64> = self.host_client(sid);
        let ghost place = self@.place(sid@);
        self.sessions.set(
            own(sid),
            Entry::Hosted { client_id, cwd: own_opt(&cwd), title: own(title.as_str()) },
        );
        if let Some(old) = replaced {
            if old != client_id {
                self.fail_hosted_prompts_for_host(old);
            }
        }
        if let Some(actor) = takeover {
            self.order(actor, ActorCmd::Shutdown);
        }
        let result: Json = Json::object().with("sessionId", Json::text(sid)).with(
            "title",
            Json::text(title.as_str()),
        ).with("cwd", opt_json(&cwd));
        self.welcome(waiters, sid, &result);
        self.broadcast_all(
            &rpc_notice(
                "gtm/sessions.changed",
                Json::object().with("id", Json::text(sid)).with("live", Json::Bool(true)).with(
                    "hosted",
                    Json::Bool(true),
                ),
            ),
        );
        done(
            ok_value().with("sessionId", Json::text(sid)).with("cwd", opt_json(&cwd)).with(
                "title",
                Json::text(title.as_str()),
            ).with("tookOver", Json::Bool(takeover.is_some())),
        )
    }

    /// Lets a client run a session no more, if it runs it.
    fn unhost_if_owner(&mut self, client_id: u64, sid: &str)
        ensures
            final(self)@ == old(self)@.unhosted(client_id, sid@),
    {
        if self.is_host(client_id, sid) {
            self.sessions.unset(&own(sid));
            self.fail_hosted_prompts_for_host(client_id);
            self.broadcast_all(
                &rpc_notice(
                    "gtm/sessions.changed",
                    Json::object().with("id", Json::text(sid)).with(
                        "live",
                        Json::Bool(false),
                    ).with("reason", Json::text("unhost")),
                ),
            );
        }
    }

    /// A request to run a session no more.
    fn unhost_req(&mut self, client_id: u64, params: &Json) -> (r: Dispatch)
        ensures
            (final(self)@, r@) == old(self)@.unhost_request(client_id, params@),
    {
        match text_filled(params, "sessionId") {
            None => refuse(-32602, "sessionId required"),
            Some(sid) => {
                self.unhost_if_owner(client_id, sid);
                done(ok_value().with("sessionId", Json::text(sid)))
            },
        }
    }

    /// The sessions that a client runs.
    fn hosted_by(&self, client_id: u64) -> (r: Vec<String>)
        ensures
            texts(r@) == self@.run_by(client_id),
    {
        let ghost all = self.sessions@;
        let ghost f = |e: (Seq<char>, Place)|
            match e.1 {
                Place::Hosted { client: c, .. } => c == client_id,
                _ => false,
            };
        let ghost g = |e: (Seq<char>, Place)| e.0;
        let mut r: Vec<String> = Vec::new();
        let mut i: usize = 0;
        proof {
            lemma_filter_none(all, f);
            assert(texts(r@) =~= all.take(0).filter(f).map_values(g));
        }
        while i < self.sessions.len()
            invariant
                i <= self.sessions@.len(),
                all == self.sessions@,
                f == (|e: (Seq<char>, Place)|
                    match e.1 {
                        Place::Hosted { client: c, .. } => c == client_id,
                        _ => false,
                    }),
                g == (|e: (Seq<char>, Place)| e.0),
                texts(r@) == all.take(i as int).filter(f).map_values(g),
            decreases self.sessions@.len() - i,
        {
            let ghost so_far = all.take(i as int).filter(f);
            proof {
                lemma_filter_step(all, f, i as int);
            }
            let mine: bool = match self.sessions.value_at(i) {
                Entry::Hosted { client_id: c, .. } => *c == client_id,
                _ => false,
            };
            if mine {
                let ghost before = texts(r@);
                r.push(own(self.sessions.key_at(i).as_str()));
                proof {
                    assert(texts(r@) =~= before.push(all[i as int].0));
                    assert(so_far.push(all[i as int]).map_values(g) =~= so_far.map_values(g).push(
                        all[i as int].0,
                    ));
                }
            }
            i = i + 1;
        }
        proof {
            assert(all.take(i as int) =~= all);
        }
        r
    }

    /// The session that a client runs, if it runs exactly one.
    fn hosted_sid_for_client(&self, client_id: u64) -> (r: Option<String>)
        ensures
            opt_text(r) == self@.only_session(client_id),
    {
        let sids: Vec<String> = self.hosted_by(client_id);
        proof {
            assert(texts(sids@).len() == sids@.len());
        }
        if sids.len() == 1 {
            proof {
                assert(texts(sids@)[0] == sids@[0]@);
            }
            Some(own(sids[0].as_str()))
        } else {
            None
        }
    }

    /// Lets a client run nothing any more.
    fn drop_host_client(&mut self, client_id: u64)
        ensures
            final(self)@ == old(self)@.unhosted_each(
                client_id,
                old(self)@.run_by(client_id),
            ).host_lost(client_id),
    {
        let ghost before = self@;
        let sids: Vec<String> = self.hosted_by(client_id);
        let ghost all = texts(sids@);
        let mut i: usize = 0;
        proof {
            assert(all.take(0) =~= Seq::empty());
        }
        while i < sids.len()
            invariant
                i <= sids@.len(),
                all == texts(sids@),
                self@ == before.unhosted_each(client_id, all.take(i as int)),
            decreases sids@.len() - i,
        {
            proof {
                lemma_take_more(all, i as int);
            }
            self.unhost_if_owner(client_id, sids[i].as_str());
            i = i + 1;
        }
        proof {
            assert(all.take(i as int) =~= all);
        }
        self.fail_hosted_prompts_for_host(client_id);
    }

    /// Lets go of a client: what it ran ends, and the prompts that went to it
    /// fail.
    pub fn disconnect(&mut self, client_id: u64)
        ensures
            final(self)@ == old(self)@.left(client_id),
    {
        if self.clients.has(&client_id) {
            self.act(Effect::Close { client_id });
        }
        self.clients.unset(&client_id);
        self.drop_host_client(client_id);
    }

    /// Hands a request to the actor of its session.
    fn forward_to_actor(&mut self, client_id: u64, id: &Json, method: &str, params: &Json) -> (r:
        Dispatch)
        ensures
            (final(self)@, r@) == old(self)@.forwarded(client_id, id@, method@, params@),
    {
        match session_named(params) {
            None => refuse(-32602, concat(method, " requires sessionId").as_str()),
            Some(sid) => match self.actor_for(sid) {
                None => refuse(-32012, concat("no live session ", sid).as_str()),
                Some(actor) => {
                    self.order(
                        actor,
                        ActorCmd::Rpc {
                            client_id,
                            id: id.copy(),
                            method: own(method),
                            params: params.copy(),
                        },
                    );
                    Dispatch::Pending
                },
            },
        }
    }

    /// A prompt: to the client that runs the session, or to its actor.
    fn session_prompt(&mut self, client_id: u64, id: &Json, params: &Json) -> (r: Dispatch)
        ensures
            (final(self)@, r@) == old(self)@.prompt_request(client_id, id@, params@),
    {
        let sid: &str = match session_named(params) {
            Some(s) => s,
            None => {
                return refuse(-32602, "session/prompt requires sessionId");
            },
        };
        match self.host_client(sid) {
            None => self.forward_to_actor(client_id, id, "session/prompt", params),
            Some(host) => {
                if host == client_id {
                    return refuse(-32000, "host client already owns this session");
                }
                self.subscribe(client_id, sid);
                self.hosted_prompts.set(
                    json_text(id),
                    HostedPrompt { origin: client_id, host },
                );
                if let Some(text) = extract_prompt_text(params) {
                    self.broadcast_session(sid, &echo(sid, text.as_str()));
                }
                self.send_to(host, rpc_request(id.copy(), "session/prompt", params.copy()));
                Dispatch::Pending
            },
        }
    }

    /// A request to stop a prompt.
    fn session_cancel(&mut self, client_id: u64, id: &Json, params: &Json) -> (r: Dispatch)
        ensures
            (final(self)@, r@) == old(self)@.cancel_request(client_id, id@, params@),
    {
        let sid: &str = match session_named(params) {
            Some(s) => s,
            None => {
                return refuse(-32602, "session/cancel requires sessionId");
            },
        };
        match self.host_client(sid) {
            None => self.forward_to_actor(client_id, id, "session/cancel", params),
            Some(host) => {
                self.send_to(host, rpc_notice("session/cancel", params.copy()));
                done(Json::object())
            },
        }
    }

    /// A request to follow a session.
    fn subscribe_req(&mut self, client_id: u64, params: &Json) -> (r: Dispatch)
        ensures
            (final(self)@, r@) == old(self)@.subscribe_request(client_id, params@),
    {
        match session_named(params) {
            None => refuse(-32602, "subscribe requires sessionId"),
            Some(sid) => {
                let live: bool = self.actor_for(sid).is_some() || self.host_client(sid).is_some();
                self.subscribe(client_id, sid);
                done(ok_value().with("live", Json::Bool(live)))
            },
        }
    }

    /// A request to follow a session no more.
    fn unsubscribe_req(&mut self, client_id: u64, params: &Json) -> (r: Dispatch)
        ensures
            (final(self)@, r@) == old(self)@.unsubscribe_request(client_id, params@),
    {
        match session_named(params) {
            None => refuse(-32602, "unsubscribe requires sessionId"),
            Some(sid) => {
                self.unsubscribe(client_id, sid);
                done(ok_value())
            },
        }
    }
}

/// Whether parameters leave the working directory open.
fn cwd_missing(params: &Json) -> (r: bool)
    ensures
        r == (or_empty(params@.get_str("cwd"@)).len() == 0),
{
    match params.get_str("cwd") {
        Some(s) => s.is_empty(),
        None => true,
    }
}

/// The cards of the sessions that the hub knows of.
fn card_of(id: &str, entry: &Entry) -> (r: SessionCard)
    ensures
        r@ == entry@.card(id@),
{
    match entry {
        Entry::Live { cwd, title, .. } => SessionCard {
            id: own(id),
            title: own(title.as_str()),
            live: true,
            hosted: Some(false),
            cwd: own_opt(cwd),
        },
        Entry::Hosted { cwd, title, .. } => SessionCard {
            id: own(id),
            title: own(title.as_str()),
            live: true,
            hosted: Some(true),
            cwd: own_opt(cwd),
        },
        Entry::Starting { .. } => SessionCard {
            id: own(id),
            title: own(""),
            live: true,
            hosted: None,
            cwd: None,
        },
    }
}

/// The line of a session in what the hub says of itself.
fn info_of(id: &str, entry: &Entry) -> (r: Json)
    ensures
        r@ == entry@.info(id@),
{
    match entry {
        Entry::Live { cwd, title, .. } => Json::object().with("id", Json::text(id)).with(
            "hosted",
            Json::Bool(false),
        ).with("title", Json::text(title.as_str())).with("cwd", opt_json(cwd)),
        Entry::Hosted { cwd, title, .. } => Json::object().with("id", Json::text(id)).with(
            "hosted",
            Json::Bool(true),
        ).with("title", Json::text(title.as_str())).with("cwd", opt_json(cwd)),
        Entry::Starting { .. } => Json::object().with("id", Json::text(id)).with(
            "hosted",
            Json::Bool(false),
        ).with("starting", Json::Bool(true)),
    }
}

/// The address that the network listener binds.
fn bind_address(port: u16) -> (r: String)
    ensures
        r@ == bind_text(port),
{
    concat("0.0.0.0:", to_decimal(port as u64).as_str())
}

/// The address that the network listener binds, if there is one.
fn bind_value(lan: LanWant) -> (r: Json)
    ensures
        r@ == bind_tree(lan),
{
    if lan.enabled {
        Json::text(bind_address(lan.port).as_str())
    } else {
        Json::Null
    }
}

/// The port that a request asks for, if it is one.
fn port_in(params: &Json, usual: u16) -> (r: u16)
    ensures
        r == wanted_port(params@, usual),
{
    match params.get("port") {
        Some(t) => match t.as_u64() {
            Some(n) => if 0 < n && n <= 65535 {
                n as u16
            } else {
                usual
            },
            None => usual,
        },
        None => usual,
    }
}

/// How many rows a request for a transcript asks for, up to one more than the
/// most it gets.
fn rows_in(params: &Json) -> (r: usize)
    ensures
        row_limit(r as nat) == row_limit(wanted_rows(params@)),
{
    let n: u64 = match params.get("limit") {
        Some(t) => match t.as_u64() {
            Some(n) => n,
            None => 200,
        },
        None => 200,
    };
    if n > 500 {
        HISTORY_MAX
    } else {
        n as usize
    }
}

/// Whether a method is about a session.
pub fn is_session_method(method: &str) -> (r: bool)
    ensures
        r == session_method(method@),
{
    starts_with(method, "session/") || starts_with(method, "x.ai/") || starts_with(
        method,
        "_x.ai/",
    )
}

/// Whether a client on the network may use a method.
pub fn lan_method_allowed(method: &str) -> (r: bool)
    ensures
        r == lan_allowed(method@),
{
    text_eq(method, "initialize") || text_eq(method, "gtm/ping") || text_eq(
        method,
        "gtm/hub.info",
    ) || text_eq(method, "gtm/sessions.list") || text_eq(method, "gtm/sessions.subscribe")
        || text_eq(method, "gtm/sessions.unsubscribe") || text_eq(method, "gtm/session.history")
        || text_eq(method, "session/load") || text_eq(method, "session/resume") || text_eq(
        method,
        "session/prompt",
    ) || text_eq(method, "session/cancel") || text_eq(method, "session/set_mode") || text_eq(
        method,
        "session/set_model",
    ) || starts_with(method, "x.ai/") || starts_with(method, "_x.ai/")
}

impl Hub {
    /// Starts an actor for a client's request.
    fn spawn(&mut self, start: Start, client_id: u64, id: &Json, params: Json)
        ensures
            final(self)@ == old(self)@.spawned(start, client_id, id@, params@),
    {
        let actor: u64 = self.next_actor;
        self.act(Effect::Spawn { actor, start, client_id, id: id.copy(), params });
        self.next_actor = next(actor);
    }

    /// A request for a new session.
    fn session_new(&mut self, client_id: u64, id: &Json, params: &Json) -> (r: Dispatch)
        ensures
            (final(self)@, r@) == old(self)@.new_request(client_id, id@, params@),
    {
        if cwd_missing(params) {
            return refuse(-32602, "session/new requires cwd");
        }
        self.spawn(Start::New, client_id, id, params.copy());
        Dispatch::Pending
    }

    /// A request for a session that there is already: where it lives its
    /// client joins it, where it starts the client waits, and otherwise it
    /// starts.
    fn session_attach(
        &mut self,
        client_id: u64,
        id: &Json,
        start: Start,
        params: &Json,
        facts: &Facts,
    ) -> (r: Dispatch)
        ensures
            (final(self)@, r@) == old(self)@.attach_request(
                client_id,
                id@,
                start,
                params@,
                facts@,
            ),
    {
        let sid: &str = match text_filled(params, "sessionId") {
            Some(s) => s,
            None => {
                return refuse(-32602, "session/load requires sessionId");
            },
        };
        let mut full: Json = params.copy();
        if cwd_missing(params) {
            if let Some(cwd) = lookup_cwd(facts.disk.as_ref()) {
                full = full.with("cwd", Json::text(cwd.as_str()));
            }
        }
        if cwd_missing(&full) {
            return refuse(-32602, concat3("session/load ", sid, " is missing cwd").as_str());
        }
        let known: Option<Dispatch> = match self.sessions.get(&own(sid)) {
            Some(Entry::Live { new_result, .. }) => Some(done(new_result.copy())),
            Some(Entry::Hosted { cwd, title, .. }) => Some(
                done(
                    Json::object().with("sessionId", Json::text(sid)).with(
                        "title",
                        Json::text(title.as_str()),
                    ).with("cwd", opt_json(cwd)).with("hosted", Json::Bool(true)),
                ),
            ),
            _ => None,
        };
        if let Some(answer) = known {
            self.subscribe(client_id, sid);
            return answer;
        }
        let starting: bool = self.sessions.has(&own(sid));
        let mut waiters: Vec<Waiting> = self.waiters_for(sid);
        let ghost before = views(waiters@);
        let me: Waiting = Waiting { client_id, id: id.copy() };
        waiters.push(me);
        proof {
            assert(views(waiters@) =~= before.push(me@));
            assert(Seq::<Waiter>::empty().push(me@) =~= seq![me@]);
        }
        self.sessions.set(own(sid), Entry::Starting { waiters });
        if !starting {
            self.spawn(start, client_id, id, full);
        }
        Dispatch::Pending
    }

    /// The sessions that a client can pick from.
    fn list_sessions(&self, facts: &Facts) -> (r: Vec<SessionCard>)
        ensures
            views(r@) == self@.listing(facts@),
    {
        let ghost g = |e: (Seq<char>, Place)| e.1.card(e.0);
        let mut live: Vec<SessionCard> = Vec::new();
        let mut i: usize = 0;
        while i < self.sessions.len()
            invariant
                i <= self.sessions@.len(),
                live@.len() == i,
                forall|j: int|
                    0 <= j < i ==> (#[trigger] live@[j])@ == self.sessions@[j].1.card(
                        self.sessions@[j].0,
                    ),
            decreases self.sessions@.len() - i,
        {
            live.push(card_of(self.sessions.key_at(i).as_str(), self.sessions.value_at(i)));
            i = i + 1;
        }
        proof {
            assert(views(live@) =~= self.sessions@.map_values(g));
        }
        merge_live(live, list_disk_sessions_in(&facts.stored))
    }

    /// The answer to a request for the list of sessions.
    fn sessions_value(&self, facts: &Facts) -> (r: Json)
        ensures
            r@ == obj().with(
                "sessions"@,
                Tree::Array(self@.listing(facts@).map_values(|c: Card| c.json())),
            ),
    {
        let cards: Vec<SessionCard> = self.list_sessions(facts);
        let mut out: Vec<Json> = Vec::new();
        let mut i: usize = 0;
        while i < cards.len()
            invariant
                i <= cards@.len(),
                out@.len() == i,
                forall|j: int| 0 <= j < i ==> (#[trigger] out@[j])@ == cards@[j]@.json(),
            decreases cards@.len() - i,
        {
            out.push(cards[i].to_json());
            i = i + 1;
        }
        proof {
            assert(trees(out@) =~= views(cards@).map_values(|c: Card| c.json()));
        }
        Json::object().with("sessions", Json::array(out))
    }

    /// What the hub says of itself.
    fn hub_info_value(&self, facts: &Facts) -> (r: Json)
        ensures
            r@ == self@.hub_info(facts@),
    {
        let mut live: Vec<Json> = Vec::new();
        let mut i: usize = 0;
        while i < self.sessions.len()
            invariant
                i <= self.sessions@.len(),
                live@.len() == i,
                forall|j: int|
                    0 <= j < i ==> (#[trigger] live@[j])@ == self.sessions@[j].1.info(
                        self.sessions@[j].0,
                    ),
            decreases self.sessions@.len() - i,
        {
            live.push(info_of(self.sessions.key_at(i).as_str(), self.sessions.value_at(i)));
            i = i + 1;
        }
        proof {
            assert(trees(live@) =~= self.sessions@.map_values(
                |e: (Seq<char>, Place)| e.1.info(e.0),
            ));
        }
        Json::object().with("pid", Json::Uint(facts.pid as u64)).with(
            "socket",
            Json::text(facts.socket.as_str()),
        ).with("protocolVersion", Json::Uint(PROTOCOL_VERSION)).with(
            "running",
            Json::Bool(true),
        ).with("lan", Json::Bool(self.lan.enabled)).with("lanBind", bind_value(self.lan)).with(
            "live",
            Json::array(live),
        )
    }

    /// What the hub says of its network listener.
    fn remote_status_value(&self, facts: &Facts) -> (r: Json)
        ensures
            r@ == self@.remote_status(facts@),
    {
        Json::object().with("lan", Json::Bool(self.lan.enabled)).with(
            "port",
            Json::Uint(self.lan.port as u64),
        ).with("bind", bind_value(self.lan)).with(
            "devices",
            Json::Uint(facts.devices.len() as u64),
        ).with("host", Json::text(facts.host.as_str()))
    }

    /// A request to open the network listener.
    fn remote_on(&mut self, client_id: u64, params: &Json, facts: &Facts) -> (r: Dispatch)
        ensures
            (final(self)@, r@) == old(self)@.remote_on(client_id, params@, facts@),
    {
        if self.is_lan(client_id) {
            return refuse(-32000, "gtm/remote.on is local-only");
        }
        let port: u16 = port_in(params, facts.lan_port);
        if let Some(err) = &facts.materials {
            return refuse(-32011, err.as_str());
        }
        self.lan = LanWant { enabled: true, port };
        done(
            Json::object().with("lan", Json::Bool(true)).with(
                "port",
                Json::Uint(port as u64),
            ).with("bind", Json::text(bind_address(port).as_str())).with(
                "host",
                Json::text(facts.host.as_str()),
            ).with("alpn", Json::text(ALPN)),
        )
    }

    /// A request to close the network listener.
    fn remote_off(&mut self, client_id: u64) -> (r: Dispatch)
        ensures
            (final(self)@, r@) == old(self)@.remote_off(client_id),
    {
        if self.is_lan(client_id) {
            return refuse(-32000, "gtm/remote.off is local-only");
        }
        self.lan = LanWant { enabled: false, port: self.lan.port };
        done(Json::object().with("lan", Json::Bool(false)))
    }

    /// A request to take a device's access away.
    fn remote_revoke(&mut self, client_id: u64, params: &Json, facts: &Facts) -> (r: Dispatch)
        ensures
            (final(self)@, r@) == old(self)@.remote_revoke(client_id, params@, facts@),
    {
        if self.is_lan(client_id) {
            return refuse(-32000, "gtm/remote.revoke is local-only");
        }
        let id: &str = match params.get_str("deviceId") {
            Some(s) => s,
            None => {
                return refuse(-32602, "deviceId required");
            },
        };
        match &facts.revoked {
            Revoked::Gone => {
                if let Some(rec) = find_device(&facts.devices, id) {
                    self.drop_device(rec.cert_sha256.as_str());
                }
                done(ok_value().with("deviceId", Json::text(id)))
            },
            Revoked::Unknown => refuse(-32602, "unknown device"),
            Revoked::Failed(err) => refuse(-32011, err.as_str()),
        }
    }

    /// A request for a transcript.
    fn session_history_req(&self, params: &Json, facts: &Facts) -> (r: Dispatch)
        ensures
            (self@, r@) == self@.history_request(params@, facts@),
    {
        let sid: &str = match text_filled(params, "sessionId") {
            Some(s) => s,
            None => {
                return refuse(-32602, "sessionId required");
            },
        };
        let chat: Option<&str> = match &facts.chat {
            Some(t) => Some(t.as_str()),
            None => None,
        };
        let updates: Option<&str> = match &facts.updates {
            Some(t) => Some(t.as_str()),
            None => None,
        };
        let rows: Vec<HistoryRow> = session_history_in(chat, updates, rows_in(params));
        let ghost all = crate::history::rows(rows@);
        let mut out: Vec<Json> = Vec::new();
        let mut i: usize = 0;
        while i < rows.len()
            invariant
                i <= rows@.len(),
                out@.len() == i,
                forall|j: int| 0 <= j < i ==> (#[trigger] out@[j])@ == rows@[j]@.json(),
            decreases rows@.len() - i,
        {
            out.push(rows[i].to_json());
            i = i + 1;
        }
        proof {
            assert(trees(out@) =~= all.map_values(|r: Row| r.json()));
        }
        done(
            Json::object().with("sessionId", Json::text(sid)).with("messages", Json::array(out)),
        )
    }

    /// What a request calls for outside the hub before it can be answered.
    pub fn lookup(&self, client_id: u64, method: &str, params: &Json) -> (r: Lookup)
        ensures
            r@ == self@.errand(client_id, method@, params@),
    {
        if self.is_lan(client_id) && !lan_method_allowed(method) {
            Lookup::Nothing
        } else if text_eq(method, "gtm/remote.status") {
            Lookup::Remote
        } else if text_eq(method, "gtm/remote.on") {
            Lookup::Materials
        } else if text_eq(method, "gtm/remote.revoke") {
            match params.get_str("deviceId") {
                Some(id) => Lookup::Revoke(own(id)),
                None => Lookup::Nothing,
            }
        } else if text_eq(method, "gtm/sessions.list") {
            Lookup::Listing
        } else if text_eq(method, "gtm/session.history") {
            match text_filled(params, "sessionId") {
                Some(sid) => Lookup::Transcript(own(sid)),
                None => Lookup::Nothing,
            }
        } else if text_eq(method, "gtm/sessions.host") || text_eq(method, "session/load")
            || text_eq(method, "session/resume") {
            match text_filled(params, "sessionId") {
                Some(sid) => Lookup::Disk(own(sid)),
                None => Lookup::Nothing,
            }
        } else {
            Lookup::Nothing
        }
    }

    /// Does what a client asks for, and answers or leaves the answer for later.
    pub fn handle_request(
        &mut self,
        client_id: u64,
        id: &Json,
        method: &str,
        params: &Json,
        facts: &Facts,
    ) -> (r: Dispatch)
        ensures
            (final(self)@, r@) == old(self)@.requested(
                client_id,
                id@,
                method@,
                params@,
                facts@,
            ),
    {
        if self.is_lan(client_id) && !lan_method_allowed(method) {
            refuse(-32000, concat(method, " is not allowed on LAN").as_str())
        } else if text_eq(method, "gtm/hello") {
            refuse(-32000, "gtm/hello already completed")
        } else if text_eq(method, "gtm/ping") {
            done(ok_value())
        } else if text_eq(method, "gtm/hub.info") {
            done(self.hub_info_value(facts))
        } else if text_eq(method, "gtm/remote.status") {
            done(self.remote_status_value(facts))
        } else if text_eq(method, "gtm/remote.on") {
            self.remote_on(client_id, params, facts)
        } else if text_eq(method, "gtm/remote.off") {
            self.remote_off(client_id)
        } else if text_eq(method, "gtm/remote.revoke") {
            self.remote_revoke(client_id, params, facts)
        } else if text_eq(method, "gtm/sessions.list") {
            done(self.sessions_value(facts))
        } else if text_eq(method, "gtm/sessions.subscribe") {
            self.subscribe_req(client_id, params)
        } else if text_eq(method, "gtm/sessions.unsubscribe") {
            self.unsubscribe_req(client_id, params)
        } else if text_eq(method, "gtm/sessions.host") {
            self.host_req(client_id, params, facts)
        } else if text_eq(method, "gtm/sessions.unhost") {
            self.unhost_req(client_id, params)
        } else if text_eq(method, "gtm/session.history") {
            self.session_history_req(params, facts)
        } else if text_eq(method, "initialize") {
            done(introduce())
        } else if text_eq(method, "session/new") {
            self.session_new(client_id, id, params)
        } else if text_eq(method, "session/load") {
            self.session_attach(client_id, id, Start::Load, params, facts)
        } else if text_eq(method, "session/resume") {
            self.session_attach(client_id, id, Start::Resume, params, facts)
        } else if text_eq(method, "session/prompt") {
            self.session_prompt(client_id, id, params)
        } else if text_eq(method, "session/cancel") {
            self.session_cancel(client_id, id, params)
        } else if is_session_method(method) {
            self.forward_to_actor(client_id, id, method, params)
        } else {
            refuse(-32601, concat("method not found: ", method).as_str())
        }
    }
}

/// The answer to `initialize`.
fn introduce() -> (r: Json)
    ensures
        r@ == introduction(),
{
    let me: Json = Json::object().with("name", Json::text("gtm-hub")).with(
        "version",
        Json::text(VERSION),
    );
    Json::object().with("protocolVersion", Json::Uint(1)).with("serverInfo", me.copy()).with(
        "agentInfo",
        me,
    ).with(
        "agentCapabilities",
        Json::object().with("loadSession", Json::Bool(true)).with(
            "resumeSession",
            Json::Bool(true),
        ),
    )
}

/// Parameters that name the session.
fn name_session(params: &Json, sid: &str) -> (r: Json)
    ensures
        r@ == naming(params@, sid@),
{
    if params.is_object() && params.get("sessionId").is_none() {
        params.copy().with("sessionId", Json::text(sid))
    } else {
        params.copy()
    }
}

/// What tells one who waits from another.
fn key_of(client_id: u64, id: &Json) -> (r: String)
    ensures
        r@ == HubState::waiter_key(Waiter { client: client_id, id: id@ }),
{
    concat3(to_decimal(client_id).as_str(), ":", json_text(id).as_str())
}

impl Hub {
    /// Takes a client's notice: new output goes to those who follow the
    /// session, anything else about a session to its actor.
    pub fn handle_notification(&mut self, client_id: u64, method: &str, params: &Json)
        ensures
            final(self)@ == old(self)@.notified(client_id, method@, params@),
    {
        if text_eq(method, "session/update") || text_eq(method, "x.ai/session/update") || text_eq(
            method,
            "x.ai/session_notification",
        ) {
            let shown: Option<String> = match params.either_str("sessionId", "session_id") {
                Some(s) => Some(own(s)),
                None => self.hosted_sid_for_client(client_id),
            };
            if let Some(sid) = shown {
                if self.is_host(client_id, sid.as_str()) || (self.host_client(
                    sid.as_str(),
                ).is_some() && !self.is_lan(client_id)) {
                    let msg: Json = rpc_notice(
                        "session/update",
                        name_session(params, sid.as_str()),
                    );
                    self.broadcast_session(sid.as_str(), &msg);
                    return;
                }
            }
        }
        if text_eq(method, "session/cancel") || is_session_method(method) {
            if let Some(sid) = session_named(params) {
                if let Some(actor) = self.actor_for(sid) {
                    self.order(
                        actor,
                        ActorCmd::Notify { method: own(method), params: params.copy() },
                    );
                }
            }
        }
    }

    /// Takes a client's answer to what it was asked.
    pub fn handle_client_reply(&mut self, id: Json, result: Option<Json>, error: Option<Json>)
        ensures
            final(self)@ == old(self)@.replied(id@, opt_value(result), opt_value(error)),
    {
        let key: String = json_text(&id);
        let origin: Option<u64> = match self.hosted_prompts.get(&key) {
            Some(p) => Some(p.origin),
            None => None,
        };
        if let Some(client_id) = origin {
            self.hosted_prompts.unset(&key);
            let start: Json = Json::object().with("jsonrpc", Json::text("2.0"));
            let msg: Json = match (error, result) {
                (Some(e), _) => start.with("id", id).with("error", e),
                (None, Some(r)) => rpc_result(id, r),
                (None, None) => rpc_result(id, Json::object()),
            };
            self.send_to(client_id, msg);
            return;
        }
        proof {
            reveal_strlit("");
            assert(""@ =~= Seq::<char>::empty());
        }
        let asked: String = own(text_or(id.as_str(), ""));
        let sid: Option<String> = match self.perm_routes.get(&asked) {
            Some(s) => Some(own(s.as_str())),
            None => None,
        };
        if let Some(sid) = sid {
            if let Some(actor) = self.actor_for(sid.as_str()) {
                self.order(actor, ActorCmd::ClientReply { id, result, error });
            }
        }
    }

    /// Tells every actor to stop, and lets go of everyone.
    pub fn shutdown(&mut self)
        ensures
            final(self)@ == old(self)@.ended(),
    {
        let ghost before = self@;
        let entries: Vec<(String, Entry)> = self.sessions.drain();
        let ghost all = pairs(entries@);
        let mut i: usize = 0;
        proof {
            assert(all.take(0) =~= Seq::empty());
            assert(before.out + Seq::<Act>::empty() =~= before.out);
        }
        while i < entries.len()
            invariant
                i <= entries@.len(),
                all == pairs(entries@),
                self@ == (HubState {
                    sessions: Seq::empty(),
                    out: before.out + HubState::stops(all.take(i as int)),
                    ..before
                }),
            decreases entries@.len() - i,
        {
            let ghost so_far = self@.out;
            proof {
                lemma_take_more(all, i as int);
                assert(all[i as int].1 == entries@[i as int].1@);
            }
            if let Entry::Live { actor, .. } = &entries[i].1 {
                let a: u64 = *actor;
                self.order(a, ActorCmd::Shutdown);
                proof {
                    assert(self@.out =~= before.out + HubState::stops(all.take(i as int)).push(
                        Act::Order(a, Cmd::Shutdown),
                    ));
                }
            }
            i = i + 1;
        }
        proof {
            assert(all.take(i as int) =~= all);
        }
        let ghost stopped = self@.out;
        let ids: Vec<u64> = self.everyone();
        let ghost members = self@.clients;
        let ghost g = |c: (u64, Member)| Act::Close(c.0);
        self.clients = Table::new();
        let mut k: usize = 0;
        proof {
            assert(stopped + members.take(0).map_values(g) =~= stopped);
        }
        while k < ids.len()
            invariant
                k <= ids@.len(),
                members == before.clients,
                ids@ == members.map_values(|c: (u64, Member)| c.0),
                g == (|c: (u64, Member)| Act::Close(c.0)),
                self@ == (HubState {
                    sessions: Seq::empty(),
                    clients: Seq::empty(),
                    out: stopped + members.take(k as int).map_values(g),
                    ..before
                }),
            decreases ids@.len() - k,
        {
            self.act(Effect::Close { client_id: ids[k] });
            proof {
                assert(members.take(k + 1).map_values(g) =~= members.take(k as int).map_values(
                    g,
                ).push(g(members[k as int])));
                assert(self@.out =~= stopped + members.take(k + 1).map_values(g));
            }
            k = k + 1;
        }
        proof {
            assert(members.take(k as int) =~= members);
        }
    }

    /// Takes an actor's word that its session is ready.
    pub fn complete_session(
        &mut self,
        sid: &str,
        cwd: Option<String>,
        title: String,
        result: Json,
        actor: u64,
        origin: Option<Waiting>,
    )
        ensures
            final(self)@ == old(self)@.completed(
                sid@,
                opt_text(cwd),
                title@,
                result@,
                actor,
                match origin {
                    Some(w) => Some(w@),
                    None => None,
                },
            ),
    {
        if self.host_client(sid).is_some() {
            self.order(actor, ActorCmd::Shutdown);
            return;
        }
        let mut replies: Vec<Waiting> = self.waiters_for(sid);
        let ghost waiters = views(replies@);
        self.sessions.set(
            own(sid),
            Entry::Live { cwd, title, new_result: result.copy(), actor },
        );
        if let Some(o) = origin {
            let mut there: bool = false;
            let mut i: usize = 0;
            while i < replies.len()
                invariant
                    i <= replies@.len(),
                    waiters == views(replies@),
                    there == HubState::waits(waiters.take(i as int), o@),
                decreases replies@.len() - i,
            {
                proof {
                    let next = waiters.take(i + 1);
                    assert(next[i as int] == replies@[i as int]@);
                    if HubState::waits(waiters.take(i as int), o@) {
                        let j = choose|j: int|
                            0 <= j < i && (#[trigger] waiters.take(i as int)[j]).client
                                == o@.client && same(waiters.take(i as int)[j].id, o@.id);
                        assert(next[j] == waiters.take(i as int)[j]);
                    }
                    if HubState::waits(next, o@) {
                        let j = choose|j: int|
                            0 <= j < next.len() && (#[trigger] next[j]).client == o@.client
                                && same(next[j].id, o@.id);
                        if j < i {
                            assert(waiters.take(i as int)[j] == next[j]);
                        }
                    }
                }
                if replies[i].client_id == o.client_id && replies[i].id.same(&o.id) {
                    there = true;
                }
                i = i + 1;
            }
            proof {
                assert(waiters.take(i as int) =~= waiters);
            }
            if !there {
                replies.push(o);
                proof {
                    assert(views(replies@) =~= waiters.push(o@));
                }
            }
        }
        self.welcome(replies, sid, &result);
        self.broadcast_all(
            &rpc_notice(
                "gtm/sessions.changed",
                Json::object().with("id", Json::text(sid)).with("live", Json::Bool(true)),
            ),
        );
    }

    /// Takes an actor's word that its session could not begin, and tells those
    /// who waited.
    pub fn fail_session(&mut self, sid: Option<&str>, origin: Waiting, err: &RpcError)
        ensures
            final(self)@ == old(self)@.failed(opt_str(sid), origin@, err@),
    {
        let mut waiters: Vec<Waiting> = Vec::new();
        let mut waited: bool = false;
        if let Some(s) = sid {
            waited = match self.sessions.get(&own(s)) {
                Some(Entry::Starting { .. }) => true,
                _ => false,
            };
            if waited {
                waiters = self.waiters_for(s);
            }
            self.sessions.unset(&own(s));
        }
        if !waited {
            waiters.push(origin);
            proof {
                assert(views(waiters@) =~= seq![origin@]);
            }
        }
        let ghost gone = self@;
        let ghost items = waiters@;
        let ghost all = views(items);
        let mut seen: Vec<String> = Vec::new();
        proof {
            assert(all.take(0) =~= Seq::empty());
            assert(texts(seen@) =~= all.take(0).map_values(|w: Waiter| HubState::waiter_key(w)));
        }
        for w in it: waiters
            invariant
                it.seq() == items,
                all == views(items),
                texts(seen@) == all.take(it.index()).map_values(
                    |w: Waiter| HubState::waiter_key(w),
                ),
                self@ == gone.told_failure(all.take(it.index()), err@),
        {
            let ghost k = it.index();
            let ghost so_far = texts(seen@);
            proof {
                lemma_take_more(all, k);
                assert(all[k] == w@);
            }
            let key: String = key_of(w.client_id, &w.id);
            let again: bool = in_list(&seen, key.as_str());
            seen.push(key);
            proof {
                assert(texts(seen@) =~= so_far.push(key@));
                assert(all.take(k + 1).map_values(|w: Waiter| HubState::waiter_key(w))
                    =~= so_far.push(HubState::waiter_key(all[k])));
            }
            if !again {
                self.send_to(w.client_id, err.to_msg(w.id));
            }
        }
        proof {
            assert(all.take(items.len() as int) =~= all);
        }
    }

    /// Forgets a session whose agent ended.
    pub fn remove_session(&mut self, sid: &str)
        ensures
            final(self)@ == old(self)@.removed(sid@),
    {
        self.sessions.unset(&own(sid));
        self.broadcast_all(
            &rpc_notice(
                "gtm/sessions.changed",
                Json::object().with("id", Json::text(sid)).with("live", Json::Bool(false)).with(
                    "reason",
                    Json::text("actor_exit"),
                ),
            ),
        );
    }

    /// A new id for a question for permission.
    pub fn next_perm_id(&mut self) -> (r: String)
        ensures
            r@ == old(self)@.perm_id(),
            final(self)@ == old(self)@.perm_taken(),
    {
        let n: u64 = self.next_perm;
        self.next_perm = next(n);
        concat("hp-", to_decimal(n).as_str())
    }

    /// Routes answers to a question to a session.
    pub fn register_perm_route(&mut self, hid: String, session_id: &str)
        ensures
            final(self)@ == old(self)@.routed(hid@, session_id@),
    {
        self.perm_routes.set(hid, own(session_id));
    }

    /// Routes answers to some questions nowhere.
    pub fn clear_perm_routes(&mut self, ids: &Vec<String>)
        ensures
            final(self)@ == old(self)@.unrouted(texts(ids@)),
    {
        let ghost before = self@;
        let ghost all = texts(ids@);
        let mut i: usize = 0;
        proof {
            assert(all.take(0) =~= Seq::empty());
        }
        while i < ids.len()
            invariant
                i <= ids@.len(),
                all == texts(ids@),
                self@ == before.unrouted(all.take(i as int)),
            decreases ids@.len() - i,
        {
            proof {
                lemma_take_more(all, i as int);
            }
            self.perm_routes.unset(&own(ids[i].as_str()));
            i = i + 1;
        }
        proof {
            assert(all.take(i as int) =~= all);
        }
    }
}

} // verus!
