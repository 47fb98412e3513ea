use gtm_hub::actor::{read_msg, write_msg, Actor, Boot, BootStep, Line, Step};
use gtm_hub::client::{Call, HubClient, HubError};
use gtm_hub::codec::{json_bytes, json_text, parse_bytes, parse_json};
use gtm_hub::fake_agent::FakeAgent;
use gtm_hub::frame::{read_frame, write_frame, Arrived};
use gtm_hub::hub::{ActorCmd, Effect, Facts, Hub};
use gtm_hub::json::Json;
use gtm_hub::server::{Conn, ConnStep};
use gtm_hub::tls::DeviceRecord;
use std::collections::{HashMap, VecDeque};

fn j(text: &str) -> Json {
    parse_json(text).expect("test JSON")
}

fn field<'a>(v: &'a Json, path: &str) -> &'a Json {
    let mut at = v;
    for key in path.split('.') {
        at = at.get(key).unwrap_or_else(|| panic!("no {key} in {}", json_text(v)));
    }
    at
}

enum Running {
    Booting(Boot, FakeAgent),
    Live(Actor, FakeAgent),
}

struct Peer {
    conn: Conn,
    client: HubClient,
    stream: Vec<u8>,
}

struct Net {
    hub: Hub,
    facts: Facts,
    peers: Vec<Peer>,
    actors: HashMap<u64, Running>,
    effects: VecDeque<Effect>,
}

impl Net {
    fn new() -> Net {
        Net {
            hub: Hub::new(27420),
            facts: Facts::new(7, "/tmp/hub.sock", 27420),
            peers: Vec::new(),
            actors: HashMap::new(),
            effects: VecDeque::new(),
        }
    }

    fn connect(&mut self, lan: bool, fp: Option<String>) -> usize {
        self.peers.push(Peer {
            conn: Conn::new(lan, fp),
            client: HubClient::new(),
            stream: Vec::new(),
        });
        self.peers.len() - 1
    }

    fn hello(&mut self) -> usize {
        let p = self.connect(false, None);
        let call = self.peers[p].client.hello("macos", "test", "0.0.0");
        self.call(p, call).ok().expect("hello");
        let call = self.peers[p].client.initialize();
        self.call(p, call).ok().expect("initialize");
        p
    }

    fn deliver(&mut self, p: usize, msg: &Json) {
        let frame = write_frame(&json_bytes(msg)).ok().expect("frame");
        self.peers[p].stream.extend_from_slice(&frame);
    }

    fn send(&mut self, p: usize, msg: &Json) {
        let step = self.peers[p].conn.handle(&mut self.hub, msg, &self.facts, 200);
        self.collect();
        match step {
            ConnStep::Write(m) => self.deliver(p, &m),
            ConnStep::Queue(m) => {
                let client_id = self.peers[p].conn.client().unwrap();
                self.effects.push_back(Effect::Send { client_id, msg: m });
            }
            ConnStep::Nothing => {}
            ConnStep::Bye => self.peers[p].conn.close(&mut self.hub),
            ConnStep::Fail { text, .. } => panic!("{text}"),
        }
        self.settle();
    }

    fn collect(&mut self) {
        for e in self.hub.take_effects() {
            self.effects.push_back(e);
        }
    }

    fn settle(&mut self) {
        loop {
            self.collect();
            match self.effects.pop_front() {
                None => return,
                Some(Effect::Send { client_id, msg }) => {
                    let found = self
                        .peers
                        .iter()
                        .position(|p| p.conn.client() == Some(client_id));
                    if let Some(p) = found {
                        self.deliver(p, &msg);
                    }
                }
                Some(Effect::Close { .. }) => {}
                Some(Effect::Spawn { actor, start, client_id, id, params }) => {
                    let boot = Boot::new(start, client_id, id, params);
                    let greeting = boot.greeting();
                    self.actors
                        .insert(actor, Running::Booting(boot, FakeAgent::new(99)));
                    self.to_agent(actor, &greeting);
                }
                Some(Effect::Order { actor, cmd }) => {
                    let step = match self.actors.get_mut(&actor) {
                        Some(Running::Live(a, _)) => {
                            assert!(a.can_go_on());
                            a.handle_command(&mut self.hub, cmd)
                        }
                        _ => continue,
                    };
                    self.step(actor, step);
                }
            }
        }
    }

    fn step(&mut self, actor: u64, step: Step) {
        match step {
            Step::Idle => {}
            Step::Stop => {
                self.actors.remove(&actor);
            }
            Step::Write(m) => self.to_agent(actor, &m),
            Step::Forward(m, f) => {
                if let Some(Running::Live(a, _)) = self.actors.get_mut(&actor) {
                    a.forwarded(&mut self.hub, f, None);
                }
                self.to_agent(actor, &m);
            }
        }
    }

    fn to_agent(&mut self, actor: u64, msg: &Json) {
        let line = write_msg(msg);
        let said = match self.actors.get_mut(&actor) {
            Some(Running::Booting(_, agent)) => agent.handle_line(&line),
            Some(Running::Live(_, agent)) => agent.handle_line(&line),
            None => return,
        };
        for m in said {
            match read_msg(&write_msg(&m).into_bytes()) {
                Line::Message(m) => self.from_agent(actor, &m),
                _ => panic!("agents write messages"),
            }
        }
    }

    fn from_agent(&mut self, actor: u64, msg: &Json) {
        match self.actors.remove(&actor) {
            None => {}
            Some(Running::Live(mut a, agent)) => {
                assert!(a.can_go_on());
                let step = a.handle_agent_msg(&mut self.hub, msg);
                self.actors.insert(actor, Running::Live(a, agent));
                self.step(actor, step);
            }
            Some(Running::Booting(mut boot, agent)) => {
                let step = boot.handle_msg(&mut self.hub, msg);
                match step {
                    BootStep::Wait => {
                        self.actors.insert(actor, Running::Booting(boot, agent));
                    }
                    BootStep::Write(m) => {
                        self.actors.insert(actor, Running::Booting(boot, agent));
                        self.to_agent(actor, &m);
                    }
                    BootStep::Failed(text) => boot.fail(&mut self.hub, &text),
                    BootStep::Ready { sid, result } => {
                        let live = boot.complete(&mut self.hub, sid, result, actor, None);
                        self.actors.insert(actor, Running::Live(live, agent));
                    }
                }
            }
        }
    }

    fn next(&mut self, p: usize) -> Json {
        let stream = &mut self.peers[p].stream;
        match read_frame(stream) {
            Arrived::Message { data, used } => {
                stream.drain(..used);
                parse_bytes(data).expect("hub writes JSON")
            }
            Arrived::Partial => panic!("nothing more arrives"),
            Arrived::TooLong(e) => panic!("{}", e.text()),
        }
    }

    fn wait_result(&mut self, p: usize, id: i64) -> Result<Json, HubError> {
        loop {
            let msg = self.next(p);
            if let Some(r) = self.peers[p].client.take_result(id, msg) {
                return r;
            }
        }
    }

    fn call(&mut self, p: usize, call: Call) -> Result<Json, HubError> {
        self.send(p, &call.msg);
        self.wait_result(p, call.id)
    }

    fn wait_method(&mut self, p: usize, method: &str) -> Json {
        if let Some(m) = self.peers[p].client.kept_method(method) {
            return m;
        }
        loop {
            let msg = self.next(p);
            if let Some(m) = self.peers[p].client.take_method(method, msg) {
                return m;
            }
        }
    }

    fn wait_id_message(&mut self, p: usize, id: &Json) -> Json {
        if let Some(m) = self.peers[p].client.kept_id(id) {
            return m;
        }
        loop {
            let msg = self.next(p);
            if let Some(m) = self.peers[p].client.take_id(id, msg) {
                return m;
            }
        }
    }

    fn session_new(&mut self, p: usize) -> String {
        let call = self.peers[p].client.session_new("/tmp/proj");
        let created = self.call(p, call).ok().expect("new");
        field(&created, "sessionId").as_str().expect("sid").to_string()
    }

    fn bye(&mut self, p: usize) {
        let msg = self.peers[p].client.bye();
        self.send(p, &msg);
    }
}

#[test]
fn session_new_prompt_and_list_live() {
    let mut net = Net::new();
    let a = net.hello();
    let sid = net.session_new(a);
    let call = net.peers[a].client.session_prompt(&sid, "hi");
    let prompted = net.call(a, call).ok().expect("prompt");
    assert_eq!(field(&prompted, "stopReason").as_str(), Some("end_turn"));
    let update = net.wait_method(a, "session/update");
    assert_eq!(field(&update, "params.sessionId").as_str(), Some(sid.as_str()));
    let call = net.peers[a].client.sessions_list();
    let list = net.call(a, call).ok().expect("list");
    let sessions = field(&list, "sessions").as_array().unwrap();
    assert!(
        sessions.iter().any(|s| field(s, "id").as_str() == Some(sid.as_str())
            && field(s, "live").as_bool() == Some(true)),
        "live session missing: {}",
        json_text(&list)
    );
    net.bye(a);
    assert!(net.hub.actor_for(&sid).is_some(), "the session outlives its asker");
}

#[test]
fn second_client_gets_fanout() {
    let mut net = Net::new();
    let a = net.hello();
    let sid = net.session_new(a);

    let b = net.hello();
    let call = net.peers[b].client.subscribe(&sid);
    let sub = net.call(b, call).ok().expect("sub");
    assert_eq!(field(&sub, "live").as_bool(), Some(true));

    let call = net.peers[a].client.session_prompt(&sid, "hi");
    let prompted = net.call(a, call).ok().expect("prompt");
    assert_eq!(field(&prompted, "stopReason").as_str(), Some("end_turn"));
    let update = net.wait_method(b, "session/update");
    assert_eq!(field(&update, "params.sessionId").as_str(), Some(sid.as_str()));

    let call = net.peers[b].client.session_load(&sid, "/tmp/proj");
    let loaded = net.call(b, call).ok().expect("load live");
    assert_eq!(field(&loaded, "sessionId").as_str(), Some(sid.as_str()));

    net.bye(a);
    net.bye(b);
}

#[test]
fn prompt_without_session_errors() {
    let mut net = Net::new();
    let a = net.hello();
    let call = net.peers[a].client.session_prompt("missing", "hi");
    let err = net.call(a, call);
    assert!(err.err().unwrap().text().contains("-32012"));
    net.bye(a);
}

#[test]
fn permission_first_reply_wins() {
    let mut net = Net::new();
    let a = net.hello();
    let sid = net.session_new(a);
    let b = net.hello();
    let call = net.peers[b].client.subscribe(&sid);
    net.call(b, call).ok().expect("sub");

    let call = net.peers[a].client.send_request(
        "session/prompt",
        j(&format!(
            r#"{{"sessionId":"{sid}","prompt":[{{"type":"text","text":"NEED_PERM"}}]}}"#
        )),
    );
    let prompt_id = call.id;
    net.send(a, &call.msg);

    let perm_a = net.wait_method(a, "session/request_permission");
    let perm_b = net.wait_method(b, "session/request_permission");

    let id_a = field(&perm_a, "id").copy();
    let id_b = field(&perm_b, "id").copy();
    let response = net.peers[a].client.send_response(
        id_a,
        j(r#"{"outcome":{"outcome":"selected","optionId":"allow"}}"#),
    );
    net.send(a, &response);

    let result = net.wait_result(a, prompt_id).ok().expect("prompt result");
    assert_eq!(field(&result, "stopReason").as_str(), Some("end_turn"));

    let resolved = net.wait_id_message(b, &id_b);
    assert_eq!(field(&resolved, "error.code").as_i64(), Some(-32013));
    let note = net.wait_method(b, "gtm/permission.resolved");
    assert_eq!(field(&note, "params.sessionId").as_str(), Some(sid.as_str()));

    net.peers[b].stream.clear();
    let late = net.peers[b].client.send_response(id_b, j("{}"));
    net.send(b, &late);
    assert!(net.peers[b].stream.is_empty(), "a late answer changes nothing");

    net.bye(a);
    net.bye(b);
}

#[test]
fn danger_asks_for_someone_local() {
    let mut net = Net::new();
    net.facts.devices = vec![DeviceRecord {
        device_id: "d0".to_string(),
        issued: 100,
        expires: 500,
        cert_sha256: "fp".to_string(),
    }];
    let mac = net.hello();
    let sid = net.session_new(mac);
    let phone = net.connect(true, Some("fp".to_string()));
    let call = net.peers[phone].client.hello("ios", "phone", "0");
    net.call(phone, call).ok().expect("hello");
    let call = net.peers[phone].client.subscribe(&sid);
    net.call(phone, call).ok().expect("sub");

    let actor = net.hub.actor_for(&sid).unwrap();
    let ask = j(r#"{"jsonrpc":"2.0","id":"q","method":"session/request_permission","params":{"toolCall":{"title":"rm -rf /"}}}"#);
    net.from_agent(actor, &ask);
    net.settle();
    let to_phone = net.wait_method(phone, "session/request_permission");
    let to_mac = net.wait_method(mac, "session/request_permission");
    let yes = j(r#"{"outcome":{"outcome":"selected","optionId":"allow"}}"#);
    let response = net.peers[phone]
        .client
        .send_response(field(&to_phone, "id").copy(), yes.copy());
    net.send(phone, &response);
    let refused = net.wait_id_message(phone, field(&to_phone, "id"));
    assert_eq!(field(&refused, "error.code").as_i64(), Some(-32013));
    assert_eq!(
        field(&refused, "error.message").as_str(),
        Some("dangerous tools need a local Mac/TUI confirmation")
    );
    assert!(net.peers[phone].stream.is_empty());
    assert!(net.peers[mac].stream.is_empty(), "still open for the local client");
    let response = net.peers[mac]
        .client
        .send_response(field(&to_mac, "id").copy(), yes);
    net.send(mac, &response);
    let note = net.wait_method(phone, "gtm/permission.resolved");
    assert_eq!(field(&note, "params.sessionId").as_str(), Some(sid.as_str()));
}

#[test]
fn the_agent_gets_one_answer_to_its_question() {
    let answers = [
        (Some(r#"{"ok":1}"#), Some(r#"{"code":7}"#), r#""result":{"ok":1}"#),
        (None, Some(r#"{"code":7}"#), r#""error":{"code":7}"#),
        (None, None, r#""result":{"outcome":{"outcome":"cancelled"}}"#),
    ];
    for (result, error, answer) in answers {
        let mut net = Net::new();
        let a = net.hello();
        let sid = net.session_new(a);
        let actor = net.hub.actor_for(&sid).unwrap();
        let ask = j(r#"{"jsonrpc":"2.0","id":"q","method":"session/request_permission","params":{}}"#);
        net.from_agent(actor, &ask);
        net.settle();
        let id = field(&net.wait_method(a, "session/request_permission"), "id").copy();
        let Some(Running::Live(live, _)) = net.actors.get_mut(&actor) else {
            panic!("the actor is live");
        };
        let reply = |id: Json| ActorCmd::ClientReply {
            id,
            result: result.map(j),
            error: error.map(j),
        };
        assert!(matches!(
            live.handle_command(&mut net.hub, reply(j(r#""nobody""#))),
            Step::Idle
        ));
        match live.handle_command(&mut net.hub, reply(id.copy())) {
            Step::Write(m) => {
                let want = j(&format!(r#"{{"jsonrpc":"2.0","id":"q",{answer}}}"#));
                assert_eq!(json_text(&m), json_text(&want));
            }
            _ => panic!("the agent is answered"),
        }
        assert!(matches!(live.handle_command(&mut net.hub, reply(id)), Step::Idle));
    }
}

#[test]
fn prompts_wait_for_their_turn() {
    let mut net = Net::new();
    let a = net.hello();
    let sid = net.session_new(a);
    let first = net.peers[a].client.session_prompt(&sid, "NEED_PERM");
    net.send(a, &first.msg);
    let second = net.peers[a].client.session_prompt(&sid, "hi");
    net.send(a, &second.msg);
    let perm = net.wait_method(a, "session/request_permission");
    assert!(net.peers[a].stream.is_empty(), "the second prompt waits");
    let response = net.peers[a].client.send_response(
        field(&perm, "id").copy(),
        j(r#"{"outcome":{"outcome":"selected","optionId":"allow"}}"#),
    );
    net.send(a, &response);
    net.wait_result(a, first.id).ok().expect("first");
    net.wait_result(a, second.id).ok().expect("second");
}

#[test]
fn a_closed_agent_is_reported() {
    let mut net = Net::new();
    let a = net.hello();
    let sid = net.session_new(a);
    let call = net.peers[a].client.session_prompt(&sid, "NEED_PERM");
    net.send(a, &call.msg);
    let actor = net.hub.actor_for(&sid).unwrap();
    match net.actors.remove(&actor) {
        Some(Running::Live(live, _)) => live.agent_closed(&mut net.hub),
        _ => panic!("the actor is live"),
    }
    net.settle();
    let e = net.wait_result(a, call.id).err().expect("prompt fails");
    assert!(e.text().contains("-32011"), "{}", e.text());
    let note = net.wait_method(a, "gtm/sessions.changed");
    assert_eq!(field(&note, "params.live").as_bool(), Some(true));
    let note = net.wait_method(a, "gtm/sessions.changed");
    assert_eq!(
        json_text(field(&note, "params")),
        format!(r#"{{"id":"{sid}","live":false,"reason":"actor_exit"}}"#)
    );
    assert_eq!(net.hub.actor_for(&sid), None);
}

#[test]
fn an_agent_that_refuses_fails_the_start() {
    let mut net = Net::new();
    let a = net.hello();
    let call = net.peers[a].client.session_new("/tmp/proj");
    let step = net.peers[a].conn.handle(&mut net.hub, &call.msg, &net.facts, 200);
    assert!(matches!(step, ConnStep::Nothing));
    let effects = net.hub.take_effects();
    let mut boot = match &effects[0] {
        Effect::Spawn { start, client_id, id, params, .. } => {
            Boot::new(*start, *client_id, id.copy(), params.copy())
        }
        _ => panic!("expected a spawn"),
    };
    let greeting = boot.greeting();
    assert_eq!(field(&greeting, "method").as_str(), Some("initialize"));
    let refusal = j(r#"{"jsonrpc":"2.0","id":1,"error":{"code":1,"message":"no"}}"#);
    match boot.handle_msg(&mut net.hub, &refusal) {
        BootStep::Failed(text) => {
            boot.fail(&mut net.hub, &text);
        }
        _ => panic!("expected a failure"),
    }
    net.settle();
    let e = net.wait_result(a, call.id).err().expect("refused");
    assert_eq!(e.code, -32011);
}
