use gtm_hub::codec::{json_text, parse_json};
use gtm_hub::hub::{
    extract_prompt_text, is_session_method, lan_method_allowed, ActorCmd, AgentSpawn, Dispatch,
    Effect, Facts, Hub, Lookup, Revoked, Waiting,
};
use gtm_hub::json::Json;
use gtm_hub::model::{LanWant, Start};
use gtm_hub::rpc::RpcError;
use gtm_hub::sessions::DiskSession;
use gtm_hub::tls::DeviceRecord;

fn j(text: &str) -> Json {
    parse_json(text).expect("test JSON")
}

fn text(v: &Json) -> String {
    json_text(v)
}

fn field<'a>(v: &'a Json, path: &str) -> &'a Json {
    let mut at = v;
    for key in path.split('.') {
        at = at.get(key).unwrap_or_else(|| panic!("no {key} in {}", json_text(v)));
    }
    at
}

fn facts() -> Facts {
    Facts::new(42, "/tmp/hub.sock", 27420)
}

fn device(id: &str, fp: &str) -> DeviceRecord {
    DeviceRecord {
        device_id: id.to_string(),
        issued: 100,
        expires: 86_500,
        cert_sha256: fp.to_string(),
    }
}

fn ios_hello() -> Json {
    j(r#"{"protocolVersion":1,"client":{"kind":"ios","name":"phone","version":"0"}}"#)
}

fn hello(hub: &mut Hub, kind: &str) -> u64 {
    let params = j(&format!(
        r#"{{"protocolVersion":1,"client":{{"kind":"{kind}","name":"x","version":"0"}}}}"#
    ));
    match hub.hello(&params, false, None, &Vec::new(), 0) {
        Ok((id, _)) => id,
        Err(e) => panic!("hello: {}", e.message),
    }
}

fn answer(hub: &mut Hub, client: u64, id: u64, method: &str, params: &str) -> Result<Json, RpcError> {
    match hub.handle_request(client, &Json::Uint(id), method, &j(params), &facts()) {
        Dispatch::Reply(r) => r,
        Dispatch::Pending => panic!("{method} pending"),
    }
}

fn ok(hub: &mut Hub, client: u64, id: u64, method: &str, params: &str) -> Json {
    match answer(hub, client, id, method, params) {
        Ok(v) => v,
        Err(e) => panic!("{method}: {} {}", e.code, e.message),
    }
}

fn refused(hub: &mut Hub, client: u64, method: &str, params: &str) -> RpcError {
    match answer(hub, client, 1, method, params) {
        Ok(v) => panic!("{method} answered {}", text(&v)),
        Err(e) => e,
    }
}

fn pending(hub: &mut Hub, client: u64, id: u64, method: &str, params: &str) {
    match hub.handle_request(client, &Json::Uint(id), method, &j(params), &facts()) {
        Dispatch::Pending => {}
        Dispatch::Reply(Ok(v)) => panic!("{method} should be pending: {}", text(&v)),
        Dispatch::Reply(Err(e)) => panic!("{method}: {}", e.message),
    }
}

fn mail(effects: &[Effect], client: u64) -> Vec<Json> {
    let mut out = Vec::new();
    for e in effects {
        if let Effect::Send { client_id, msg } = e {
            if *client_id == client {
                out.push(msg.copy());
            }
        }
    }
    out
}

fn method_of(v: &Json) -> &str {
    v.get_str("method").unwrap_or("")
}

fn has_shutdown(effects: &[Effect], actor: u64) -> bool {
    effects.iter().any(
        |e| matches!(e, Effect::Order { actor: a, cmd: ActorCmd::Shutdown } if *a == actor),
    )
}

#[test]
fn lan_same_device_hello_replaces_stale_connection() {
    let devices = vec![device("d0", "fp0")];
    let mut hub = Hub::new(27420);
    let params = ios_hello();
    let (a, _) = hub
        .hello(&params, true, Some("fp0".to_string()), &devices, 200)
        .ok()
        .expect("first hello");
    let _ = hub.take_effects();
    let (b, _) = hub
        .hello(&params, true, Some("fp0".to_string()), &devices, 200)
        .ok()
        .expect("replace hello");
    assert_ne!(a, b);
    let effects = hub.take_effects();
    let msgs = mail(&effects, a);
    let msg = msgs.first().expect("replaced notify");
    assert_eq!(method_of(msg), "gtm/hub.shutdown");
    assert_eq!(field(msg, "params.reason").as_str(), Some("replaced"));
    assert!(matches!(effects.last(), Some(Effect::Close { client_id }) if *client_id == a));
    assert_eq!(hub.lan_clients(), 1);
    for _ in 0..5 {
        hub.hello(&params, true, Some("fp0".to_string()), &devices, 200)
            .ok()
            .expect("repeat replace");
    }
    assert_eq!(hub.lan_clients(), 1);
}

#[test]
fn lan_cap_still_applies_across_distinct_devices() {
    let devices = vec![device("d0", "fp0"), device("d1", "fp1"), device("d2", "fp2")];
    let mut hub = Hub::new(27420);
    let params = ios_hello();
    hub.hello(&params, true, Some("fp0".to_string()), &devices, 200)
        .ok()
        .expect("device 0");
    hub.hello(&params, true, Some("fp1".to_string()), &devices, 200)
        .ok()
        .expect("device 1");
    let err = hub
        .hello(&params, true, Some("fp2".to_string()), &devices, 200)
        .err()
        .expect("device 2 over cap");
    assert_eq!(err.code, -32001);
    assert_eq!(err.message, "too many connections");
    let _ = hub.take_effects();
    let (again, _) = hub
        .hello(&params, true, Some("fp0".to_string()), &devices, 200)
        .ok()
        .expect("device 0 replace still allowed");
    assert!(mail(&hub.take_effects(), again).is_empty());
    assert_eq!(hub.lan_clients(), 2);
}

#[test]
fn local_cap_is_eight() {
    let mut hub = Hub::new(27420);
    for _ in 0..8 {
        hello(&mut hub, "macos");
    }
    let params = j(r#"{"protocolVersion":1,"client":{"kind":"tui"}}"#);
    let err = hub.hello(&params, false, None, &Vec::new(), 0).err().unwrap();
    assert_eq!(err.code, -32001);
    hub.disconnect(3);
    assert!(hub.hello(&params, false, None, &Vec::new(), 0).is_ok());
}

#[test]
fn greetings_are_refused_for_their_reasons() {
    let mut hub = Hub::new(27420);
    let devices = vec![device("d0", "fp0")];
    let cases: Vec<(&str, bool, Option<&str>, u64, i64, &str)> = vec![
        (r#"{}"#, false, None, 0, -32602, "unknown client kind "),
        (
            r#"{"client":{"kind":"web"}}"#,
            false,
            None,
            0,
            -32602,
            "unknown client kind web",
        ),
        (
            r#"{"client":{"kind":"tui"}}"#,
            true,
            None,
            0,
            -32000,
            "LAN listener only accepts ios/android clients",
        ),
        (
            r#"{"client":{"kind":"android"}}"#,
            false,
            None,
            0,
            -32000,
            "mobile clients must use the TLS listener",
        ),
        (
            r#"{"client":{"kind":"ios"}}"#,
            true,
            None,
            0,
            -32000,
            "missing device certificate",
        ),
        (
            r#"{"client":{"kind":"ios"}}"#,
            true,
            Some("other"),
            200,
            -32000,
            "device not enrolled or expired",
        ),
        (
            r#"{"client":{"kind":"ios"}}"#,
            true,
            Some("fp0"),
            86_500,
            -32000,
            "device not enrolled or expired",
        ),
        (
            r#"{"client":{"kind":"ios"},"protocolVersion":7}"#,
            true,
            Some("fp0"),
            200,
            -32000,
            "unsupported protocolVersion 7",
        ),
        (
            r#"{"client":{"kind":"macos"}}"#,
            false,
            None,
            0,
            -32000,
            "unsupported protocolVersion 0",
        ),
    ];
    for (params, lan, fp, now, code, message) in cases {
        let err = hub
            .hello(&j(params), lan, fp.map(|s| s.to_string()), &devices, now)
            .err()
            .expect(message);
        assert_eq!(err.code, code, "{message}");
        assert_eq!(err.message, message);
    }
    let (id, welcome) = hub
        .hello(&ios_hello(), true, Some("fp0".to_string()), &devices, 200)
        .ok()
        .unwrap();
    assert_eq!(id, 1);
    assert_eq!(
        text(&welcome),
        r#"{"clientId":1,"hubVersion":"0.1.0","kind":"ios","protocolVersion":1,"transport":"lan"}"#
    );
}

#[test]
fn hosted_tui_gets_phone_prompt_and_fans_out_updates() {
    let mut hub = Hub::new(27420);
    let tui = hello(&mut hub, "tui");
    let v = ok(
        &mut hub,
        tui,
        1,
        "gtm/sessions.host",
        r#"{"sessionId":"sess-1","cwd":"/tmp","title":"Live"}"#,
    );
    assert_eq!(field(&v, "ok").as_bool(), Some(true));
    let phone = hello(&mut hub, "macos");
    let v = ok(
        &mut hub,
        phone,
        2,
        "session/resume",
        r#"{"sessionId":"sess-1","cwd":"/tmp","mcpServers":[]}"#,
    );
    assert_eq!(field(&v, "sessionId").as_str(), Some("sess-1"));
    let _ = hub.take_effects();
    pending(
        &mut hub,
        phone,
        3,
        "session/prompt",
        r#"{"sessionId":"sess-1","prompt":[{"type":"text","text":"hello from phone"}]}"#,
    );
    let effects = hub.take_effects();
    let seen = mail(&effects, phone);
    assert_eq!(seen.len(), 1, "phone should see user_message_chunk");
    assert_eq!(method_of(&seen[0]), "session/update");
    assert_eq!(
        field(&seen[0], "params.update.content.text").as_str(),
        Some("hello from phone")
    );
    let to_tui = mail(&effects, tui);
    let req = to_tui
        .iter()
        .find(|m| method_of(m) == "session/prompt")
        .expect("tui should receive session/prompt");
    assert_eq!(field(req, "id").as_u64(), Some(3));
    hub.handle_notification(
        tui,
        "session/update",
        &j(r#"{"sessionId":"sess-1","update":{"sessionUpdate":"agent_message_chunk","text":"hi"}}"#),
    );
    let seen = mail(&hub.take_effects(), phone);
    assert_eq!(seen.len(), 1, "phone should see TUI agent chunks");
    assert_eq!(
        field(&seen[0], "params.update.sessionUpdate").as_str(),
        Some("agent_message_chunk")
    );
    hub.handle_client_reply(Json::Uint(3), Some(j(r#"{"stopReason":"end_turn"}"#)), None);
    let seen = mail(&hub.take_effects(), phone);
    let done = seen.first().expect("phone prompt result");
    assert_eq!(field(done, "id").as_u64(), Some(3));
    assert_eq!(field(done, "result.stopReason").as_str(), Some("end_turn"));
    hub.handle_client_reply(Json::Uint(3), Some(j("{}")), None);
    assert!(hub.take_effects().is_empty(), "an answer counts once");
}

#[test]
fn tui_host_takes_over_existing_actor() {
    let mut hub = Hub::new(27420);
    hub.complete_session(
        "sess-1",
        Some("/tmp".to_string()),
        "live".to_string(),
        j(r#"{"sessionId":"sess-1"}"#),
        9,
        None,
    );
    assert_eq!(hub.actor_for("sess-1"), Some(9));
    let tui = hello(&mut hub, "tui");
    let _ = hub.take_effects();
    let v = ok(
        &mut hub,
        tui,
        1,
        "gtm/sessions.host",
        r#"{"sessionId":"sess-1","cwd":"/tmp"}"#,
    );
    assert_eq!(field(&v, "ok").as_bool(), Some(true));
    assert_eq!(field(&v, "tookOver").as_bool(), Some(true));
    assert!(hub.is_host(tui, "sess-1"));
    assert!(has_shutdown(&hub.take_effects(), 9));
    let phone = hello(&mut hub, "macos");
    let v = ok(
        &mut hub,
        phone,
        2,
        "session/resume",
        r#"{"sessionId":"sess-1","cwd":"/tmp","mcpServers":[]}"#,
    );
    assert_eq!(field(&v, "hosted").as_bool(), Some(true));
    pending(
        &mut hub,
        phone,
        3,
        "session/prompt",
        r#"{"sessionId":"sess-1","prompt":[{"type":"text","text":"hi"}]}"#,
    );
    let saw = mail(&hub.take_effects(), tui)
        .iter()
        .any(|m| method_of(m) == "session/prompt");
    assert!(saw, "TUI host must receive the phone prompt after takeover");
}

#[test]
fn second_tui_host_replaces_the_first() {
    let mut hub = Hub::new(27420);
    let a = hello(&mut hub, "tui");
    let v = ok(
        &mut hub,
        a,
        1,
        "gtm/sessions.host",
        r#"{"sessionId":"sess-1","cwd":"/tmp"}"#,
    );
    assert_eq!(field(&v, "ok").as_bool(), Some(true));
    let b = hello(&mut hub, "tui");
    let v = ok(
        &mut hub,
        b,
        1,
        "gtm/sessions.host",
        r#"{"sessionId":"sess-1","cwd":"/tmp"}"#,
    );
    assert_eq!(field(&v, "ok").as_bool(), Some(true));
    assert_eq!(field(&v, "tookOver").as_bool(), Some(false));
    let phone = hello(&mut hub, "macos");
    ok(
        &mut hub,
        phone,
        2,
        "session/resume",
        r#"{"sessionId":"sess-1","cwd":"/tmp","mcpServers":[]}"#,
    );
    let _ = hub.take_effects();
    pending(
        &mut hub,
        phone,
        3,
        "session/prompt",
        r#"{"sessionId":"sess-1","prompt":[{"type":"text","text":"after resume"}]}"#,
    );
    let effects = hub.take_effects();
    let saw = mail(&effects, b).iter().any(|m| method_of(m) == "session/prompt");
    assert!(saw, "new TUI must receive prompts after replacing the old host");
    assert!(mail(&effects, a).is_empty());
}

#[test]
fn complete_session_does_not_overwrite_tui_host() {
    let mut hub = Hub::new(27420);
    let tui = hello(&mut hub, "tui");
    ok(
        &mut hub,
        tui,
        1,
        "gtm/sessions.host",
        r#"{"sessionId":"sess-1","cwd":"/tmp"}"#,
    );
    let _ = hub.take_effects();
    hub.complete_session(
        "sess-1",
        Some("/tmp".to_string()),
        "boot".to_string(),
        j(r#"{"sessionId":"sess-1"}"#),
        5,
        None,
    );
    assert_eq!(hub.host_client("sess-1"), Some(tui));
    let effects = hub.take_effects();
    assert_eq!(effects.len(), 1);
    assert!(has_shutdown(&effects, 5));
}

#[test]
fn network_clients_are_refused_what_is_local() {
    let mut hub = Hub::new(27420);
    let devices = vec![device("d0", "fp0")];
    let (phone, _) = hub
        .hello(&ios_hello(), true, Some("fp0".to_string()), &devices, 200)
        .ok()
        .unwrap();
    assert!(hub.is_lan(phone));
    for method in [
        "session/new",
        "gtm/sessions.host",
        "gtm/sessions.unhost",
        "gtm/remote.on",
        "gtm/remote.off",
        "gtm/remote.revoke",
        "gtm/remote.status",
    ] {
        assert!(!lan_method_allowed(method));
        let e = refused(&mut hub, phone, method, r#"{"cwd":"/tmp","sessionId":"s","deviceId":"d0"}"#);
        assert_eq!(e.code, -32000);
        assert_eq!(e.message, format!("{method} is not allowed on LAN"));
        assert!(matches!(
            hub.lookup(phone, method, &j(r#"{"deviceId":"d0","sessionId":"s"}"#)),
            Lookup::Nothing
        ));
    }
    assert!(lan_method_allowed("x.ai/anything"));
    assert!(lan_method_allowed("_x.ai/anything"));
    assert!(lan_method_allowed("session/set_mode"));
    assert!(!lan_method_allowed("session/set_models"));
    assert!(is_session_method("session/anything"));
    assert!(!is_session_method("gtm/ping"));
    assert_eq!(text(&ok(&mut hub, phone, 1, "gtm/ping", "{}")), r#"{"ok":true}"#);
}

#[test]
fn requests_are_refused_for_their_reasons() {
    let mut hub = Hub::new(27420);
    let c = hello(&mut hub, "macos");
    let cases: Vec<(&str, &str, i64, &str)> = vec![
        ("gtm/hello", "{}", -32000, "gtm/hello already completed"),
        ("gtm/nothing", "{}", -32601, "method not found: gtm/nothing"),
        ("gtm/sessions.host", "{}", -32602, "sessionId required"),
        ("gtm/sessions.host", r#"{"sessionId":""}"#, -32602, "sessionId required"),
        ("gtm/sessions.unhost", "{}", -32602, "sessionId required"),
        ("gtm/session.history", "{}", -32602, "sessionId required"),
        ("gtm/sessions.subscribe", "{}", -32602, "subscribe requires sessionId"),
        ("gtm/sessions.unsubscribe", "{}", -32602, "unsubscribe requires sessionId"),
        ("gtm/remote.revoke", "{}", -32602, "deviceId required"),
        ("gtm/remote.revoke", r#"{"deviceId":"d"}"#, -32602, "unknown device"),
        ("session/new", "{}", -32602, "session/new requires cwd"),
        ("session/load", "{}", -32602, "session/load requires sessionId"),
        (
            "session/resume",
            r#"{"sessionId":"s"}"#,
            -32602,
            "session/load s is missing cwd",
        ),
        ("session/prompt", "{}", -32602, "session/prompt requires sessionId"),
        ("session/cancel", "{}", -32602, "session/cancel requires sessionId"),
        ("session/set_mode", "{}", -32602, "session/set_mode requires sessionId"),
        ("session/prompt", r#"{"sessionId":"s"}"#, -32012, "no live session s"),
    ];
    for (method, params, code, message) in cases {
        let e = refused(&mut hub, c, method, params);
        assert_eq!((e.code, e.message.as_str()), (code, message), "{method}");
    }
    ok(&mut hub, c, 1, "gtm/sessions.host", r#"{"sessionId":"s"}"#);
    let e = refused(&mut hub, c, "session/prompt", r#"{"sessionId":"s"}"#);
    assert_eq!(e.message, "host client already owns this session");
}

#[test]
fn attaching_starts_once_and_everyone_who_waits_is_answered() {
    let mut hub = Hub::new(27420);
    let a = hello(&mut hub, "macos");
    let b = hello(&mut hub, "stdio");
    pending(&mut hub, a, 5, "session/load", r#"{"sessionId":"s","cwd":"/w"}"#);
    pending(&mut hub, b, 6, "session/resume", r#"{"sessionId":"s","cwd":"/w"}"#);
    let effects = hub.take_effects();
    assert_eq!(effects.len(), 1);
    match &effects[0] {
        Effect::Spawn { actor, start, client_id, id, params } => {
            assert_eq!(*actor, 1);
            assert_eq!(*start, Start::Load);
            assert_eq!(*client_id, a);
            assert_eq!(text(id), "5");
            assert_eq!(text(params), r#"{"cwd":"/w","sessionId":"s"}"#);
        }
        _ => panic!("expected a spawn"),
    }
    let info = ok(&mut hub, a, 1, "gtm/hub.info", "{}");
    assert_eq!(
        text(field(&info, "live")),
        r#"[{"hosted":false,"id":"s","starting":true}]"#
    );
    hub.complete_session("s", None, "T".to_string(), j(r#"{"x":1}"#), 1, None);
    let effects = hub.take_effects();
    let seen = mail(&effects, a);
    assert_eq!(text(&seen[0]), r#"{"id":5,"jsonrpc":"2.0","result":{"x":1}}"#);
    assert_eq!(
        text(&seen[1]),
        r#"{"jsonrpc":"2.0","method":"gtm/sessions.changed","params":{"id":"s","live":true}}"#
    );
    assert_eq!(text(&mail(&effects, b)[0]), r#"{"id":6,"jsonrpc":"2.0","result":{"x":1}}"#);
    assert_eq!(hub.subscribers("s"), vec![a, b]);
    let v = ok(&mut hub, b, 7, "session/load", r#"{"sessionId":"s","cwd":"/w"}"#);
    assert_eq!(text(&v), r#"{"x":1}"#);
}

#[test]
fn new_session_answers_its_asker_and_not_twice() {
    let mut hub = Hub::new(27420);
    let a = hello(&mut hub, "macos");
    pending(&mut hub, a, 5, "session/new", r#"{"cwd":"/w"}"#);
    let _ = hub.take_effects();
    let origin = Waiting { client_id: a, id: Json::Uint(5) };
    hub.complete_session("s", None, String::new(), j("{}"), 1, Some(origin));
    let seen = mail(&hub.take_effects(), a);
    assert_eq!(seen.len(), 2);
    assert_eq!(text(&seen[0]), r#"{"id":5,"jsonrpc":"2.0","result":{}}"#);
    pending(&mut hub, a, 6, "session/load", r#"{"sessionId":"t","cwd":"/w"}"#);
    let _ = hub.take_effects();
    let origin = Waiting { client_id: a, id: Json::Uint(6) };
    hub.complete_session("t", None, String::new(), j("{}"), 2, Some(origin));
    let seen = mail(&hub.take_effects(), a);
    assert_eq!(seen.len(), 2, "one answer and one change");
}

#[test]
fn a_failed_start_is_told_to_each_waiter_once() {
    let mut hub = Hub::new(27420);
    let a = hello(&mut hub, "macos");
    let b = hello(&mut hub, "macos");
    pending(&mut hub, a, 5, "session/load", r#"{"sessionId":"s","cwd":"/w"}"#);
    pending(&mut hub, a, 5, "session/load", r#"{"sessionId":"s","cwd":"/w"}"#);
    pending(&mut hub, b, 5, "session/load", r#"{"sessionId":"s","cwd":"/w"}"#);
    let _ = hub.take_effects();
    let origin = Waiting { client_id: a, id: Json::Uint(5) };
    hub.fail_session(Some("s"), origin, &RpcError::new(-32011, "no agent"));
    let effects = hub.take_effects();
    assert_eq!(effects.len(), 2);
    assert_eq!(
        text(&mail(&effects, a)[0]),
        r#"{"error":{"code":-32011,"message":"no agent"},"id":5,"jsonrpc":"2.0"}"#
    );
    assert_eq!(mail(&effects, b).len(), 1);
    pending(&mut hub, a, 6, "session/load", r#"{"sessionId":"s","cwd":"/w"}"#);
    assert_eq!(hub.take_effects().len(), 1, "it can be tried again");
    let origin = Waiting { client_id: b, id: Json::Uint(9) };
    hub.fail_session(None, origin, &RpcError::new(-32011, "x"));
    assert_eq!(field(&mail(&hub.take_effects(), b)[0], "id").as_u64(), Some(9));
}

#[test]
fn a_lost_host_fails_its_prompts_and_ends_its_sessions() {
    let mut hub = Hub::new(27420);
    let tui = hello(&mut hub, "tui");
    let phone = hello(&mut hub, "macos");
    ok(&mut hub, tui, 1, "gtm/sessions.host", r#"{"sessionId":"s"}"#);
    pending(&mut hub, phone, 8, "session/prompt", r#"{"sessionId":"s","prompt":"hi"}"#);
    let _ = hub.take_effects();
    hub.disconnect(tui);
    let effects = hub.take_effects();
    let seen = mail(&effects, phone);
    assert_eq!(
        text(&seen[0]),
        r#"{"error":{"code":-32012,"message":"TUI session host disconnected"},"id":8,"jsonrpc":"2.0"}"#
    );
    assert_eq!(
        text(&seen[1]),
        r#"{"jsonrpc":"2.0","method":"gtm/sessions.changed","params":{"id":"s","live":false,"reason":"unhost"}}"#
    );
    assert!(!hub.has_client(tui));
    assert_eq!(hub.host_client("s"), None);
    hub.handle_client_reply(Json::Uint(8), Some(j("{}")), None);
    assert!(hub.take_effects().is_empty());
}

#[test]
fn following_is_what_fan_out_goes_by() {
    let mut hub = Hub::new(27420);
    let a = hello(&mut hub, "macos");
    let b = hello(&mut hub, "macos");
    let v = ok(&mut hub, a, 1, "gtm/sessions.subscribe", r#"{"sessionId":"s"}"#);
    assert_eq!(text(&v), r#"{"live":false,"ok":true}"#);
    ok(&mut hub, a, 1, "gtm/sessions.subscribe", r#"{"sessionId":"s"}"#);
    ok(&mut hub, b, 1, "gtm/sessions.subscribe", r#"{"sessionId":"t"}"#);
    hub.broadcast_session("s", &Json::Uint(1));
    let effects = hub.take_effects();
    assert_eq!(mail(&effects, a).len(), 1);
    assert_eq!(mail(&effects, b).len(), 0);
    ok(&mut hub, a, 1, "gtm/sessions.unsubscribe", r#"{"sessionId":"s"}"#);
    hub.broadcast_session("s", &Json::Uint(2));
    assert!(hub.take_effects().is_empty());
    hub.broadcast_all(&Json::Uint(3));
    assert_eq!(hub.take_effects().len(), 2);
}

#[test]
fn notices_name_the_session_when_the_host_runs_one() {
    let mut hub = Hub::new(27420);
    let tui = hello(&mut hub, "tui");
    let phone = hello(&mut hub, "macos");
    ok(&mut hub, tui, 1, "gtm/sessions.host", r#"{"sessionId":"s"}"#);
    ok(&mut hub, phone, 1, "gtm/sessions.subscribe", r#"{"sessionId":"s"}"#);
    let _ = hub.take_effects();
    hub.handle_notification(tui, "x.ai/session/update", &j(r#"{"update":1}"#));
    assert_eq!(
        text(&mail(&hub.take_effects(), phone)[0]),
        r#"{"jsonrpc":"2.0","method":"session/update","params":{"sessionId":"s","update":1}}"#
    );
    ok(&mut hub, tui, 1, "gtm/sessions.host", r#"{"sessionId":"t"}"#);
    let _ = hub.take_effects();
    hub.handle_notification(tui, "session/update", &j(r#"{"update":1}"#));
    assert!(hub.take_effects().is_empty(), "two sessions: the notice names neither");
    hub.complete_session("u", None, String::new(), j("{}"), 4, None);
    let _ = hub.take_effects();
    hub.handle_notification(phone, "session/cancel", &j(r#"{"sessionId":"u"}"#));
    match &hub.take_effects()[0] {
        Effect::Order { actor, cmd: ActorCmd::Notify { method, .. } } => {
            assert_eq!(*actor, 4);
            assert_eq!(method, "session/cancel");
        }
        _ => panic!("expected a notice to the actor"),
    }
}

#[test]
fn remote_requests_move_the_listener() {
    let mut hub = Hub::new(27420);
    let c = hello(&mut hub, "macos");
    let mut f = facts();
    f.host = "10.0.0.5".to_string();
    f.devices = vec![device("d0", "fp0")];
    assert!(matches!(hub.lookup(c, "gtm/remote.on", &j("{}")), Lookup::Materials));
    let on = |hub: &mut Hub, params: &str, f: &Facts| match hub.handle_request(
        c,
        &Json::Uint(1),
        "gtm/remote.on",
        &j(params),
        f,
    ) {
        Dispatch::Reply(r) => r,
        Dispatch::Pending => panic!("pending"),
    };
    let v = on(&mut hub, r#"{"port":5000}"#, &f).ok().unwrap();
    assert_eq!(
        text(&v),
        r#"{"alpn":"gtm-hub","bind":"0.0.0.0:5000","host":"10.0.0.5","lan":true,"port":5000}"#
    );
    assert_eq!(hub.lan_want(), LanWant { enabled: true, port: 5000 });
    for bad in [r#"{"port":0}"#, r#"{"port":65536}"#, r#"{"port":-1}"#, r#"{"port":"x"}"#, "{}"] {
        on(&mut hub, bad, &f).ok().unwrap();
        assert_eq!(hub.lan_want().port, 27420);
    }
    let st = match hub.handle_request(c, &Json::Uint(1), "gtm/remote.status", &j("{}"), &f) {
        Dispatch::Reply(Ok(v)) => v,
        _ => panic!("status"),
    };
    assert_eq!(
        text(&st),
        r#"{"bind":"0.0.0.0:27420","devices":1,"host":"10.0.0.5","lan":true,"port":27420}"#
    );
    assert_eq!(text(&ok(&mut hub, c, 1, "gtm/remote.off", "{}")), r#"{"lan":false}"#);
    assert_eq!(hub.lan_want(), LanWant { enabled: false, port: 27420 });
    f.materials = Some("no key".to_string());
    let e = on(&mut hub, "{}", &f).err().unwrap();
    assert_eq!((e.code, e.message.as_str()), (-32011, "no key"));
    assert!(!hub.lan_want().enabled);
}

#[test]
fn revoking_a_device_sends_its_client_off() {
    let mut hub = Hub::new(27420);
    let devices = vec![device("d0", "fp0")];
    let (phone, _) = hub
        .hello(&ios_hello(), true, Some("fp0".to_string()), &devices, 200)
        .ok()
        .unwrap();
    let c = hello(&mut hub, "macos");
    let mut f = facts();
    f.devices = devices;
    f.revoked = Revoked::Gone;
    let params = j(r#"{"deviceId":"d0"}"#);
    assert!(matches!(
        hub.lookup(c, "gtm/remote.revoke", &params),
        Lookup::Revoke(id) if id == "d0"
    ));
    match hub.handle_request(c, &Json::Uint(1), "gtm/remote.revoke", &params, &f) {
        Dispatch::Reply(Ok(v)) => assert_eq!(text(&v), r#"{"deviceId":"d0","ok":true}"#),
        _ => panic!("revoke"),
    }
    let seen = mail(&hub.take_effects(), phone);
    assert_eq!(field(&seen[0], "params.reason").as_str(), Some("revoked"));
    assert!(!hub.has_client(phone));
    f.revoked = Revoked::Failed("disk full".to_string());
    match hub.handle_request(c, &Json::Uint(1), "gtm/remote.revoke", &params, &f) {
        Dispatch::Reply(Err(e)) => assert_eq!((e.code, e.message.as_str()), (-32011, "disk full")),
        _ => panic!("revoke"),
    }
}

#[test]
fn the_disk_fills_in_what_a_request_leaves_open() {
    let mut hub = Hub::new(27420);
    let c = hello(&mut hub, "tui");
    let mut f = facts();
    f.disk = Some(DiskSession {
        group: "g".to_string(),
        group_cwd: Some(" /from/disk \n".to_string()),
        id: "s".to_string(),
        summary: r#"{"title":"Kept"}"#.to_string(),
    });
    assert!(matches!(
        hub.lookup(c, "session/load", &j(r#"{"sessionId":"s"}"#)),
        Lookup::Disk(id) if id == "s"
    ));
    match hub.handle_request(
        c,
        &Json::Uint(1),
        "gtm/sessions.host",
        &j(r#"{"sessionId":"s"}"#),
        &f,
    ) {
        Dispatch::Reply(Ok(v)) => assert_eq!(
            text(&v),
            r#"{"cwd":"/from/disk","ok":true,"sessionId":"s","title":"Kept","tookOver":false}"#
        ),
        _ => panic!("host"),
    }
    match hub.handle_request(c, &Json::Uint(1), "session/load", &j(r#"{"sessionId":"t"}"#), &f) {
        Dispatch::Pending => {}
        _ => panic!("load"),
    }
    match hub.take_effects().last() {
        Some(Effect::Spawn { params, .. }) => {
            assert_eq!(text(params), r#"{"cwd":"/from/disk","sessionId":"t"}"#)
        }
        _ => panic!("expected a spawn"),
    }
}

#[test]
fn lists_put_live_sessions_first_and_history_is_read() {
    let mut hub = Hub::new(27420);
    let c = hello(&mut hub, "tui");
    ok(&mut hub, c, 1, "gtm/sessions.host", r#"{"sessionId":"s","cwd":"/w"}"#);
    let mut f = facts();
    f.stored = vec![
        DiskSession {
            group: "g".to_string(),
            group_cwd: None,
            id: "old".to_string(),
            summary: r#"{"title":"Old"}"#.to_string(),
        },
        DiskSession {
            group: "g".to_string(),
            group_cwd: None,
            id: "s".to_string(),
            summary: r#"{"title":"Titled"}"#.to_string(),
        },
    ];
    let v = match hub.handle_request(c, &Json::Uint(1), "gtm/sessions.list", &j("{}"), &f) {
        Dispatch::Reply(Ok(v)) => v,
        _ => panic!("list"),
    };
    assert_eq!(
        text(&v),
        r#"{"sessions":[{"cwd":"/w","hosted":true,"id":"s","live":true,"title":"Titled"},{"cwd":null,"id":"old","live":false,"title":"Old"}]}"#
    );
    f.chat = Some("{\"type\":\"user\",\"content\":\"one\"}\n{\"type\":\"user\",\"content\":\"two\"}".to_string());
    let v = match hub.handle_request(
        c,
        &Json::Uint(1),
        "gtm/session.history",
        &j(r#"{"sessionId":"s","limit":1}"#),
        &f,
    ) {
        Dispatch::Reply(Ok(v)) => v,
        _ => panic!("history"),
    };
    assert_eq!(
        text(&v),
        r#"{"messages":[{"role":"user","text":"two"}],"sessionId":"s"}"#
    );
}

#[test]
fn shutdown_stops_actors_and_lets_everyone_go() {
    let mut hub = Hub::new(27420);
    let a = hello(&mut hub, "macos");
    hub.complete_session("s", None, String::new(), j("{}"), 7, None);
    let _ = hub.take_effects();
    hub.shutdown();
    let effects = hub.take_effects();
    assert!(has_shutdown(&effects, 7));
    assert!(matches!(effects.last(), Some(Effect::Close { client_id }) if *client_id == a));
    assert_eq!(hub.actor_for("s"), None);
    hub.send_to(a, Json::Null);
    assert!(hub.take_effects().is_empty());
}

#[test]
fn removal_is_told_to_everyone() {
    let mut hub = Hub::new(27420);
    let a = hello(&mut hub, "macos");
    hub.complete_session("s", None, String::new(), j("{}"), 7, None);
    let _ = hub.take_effects();
    hub.remove_session("s");
    assert_eq!(
        text(&mail(&hub.take_effects(), a)[0]),
        r#"{"jsonrpc":"2.0","method":"gtm/sessions.changed","params":{"id":"s","live":false,"reason":"actor_exit"}}"#
    );
    assert_eq!(hub.actor_for("s"), None);
}

#[test]
fn prompts_are_read_from_text_or_blocks() {
    assert_eq!(extract_prompt_text(&j(r#"{"prompt":"  hi "}"#)).as_deref(), Some("hi"));
    assert_eq!(extract_prompt_text(&j(r#"{"prompt":"  "}"#)), None);
    assert_eq!(
        extract_prompt_text(&j(r#"{"prompt":[{"text":" a"},{"x":1},{"text":"b "}]}"#)).as_deref(),
        Some("ab")
    );
    assert_eq!(extract_prompt_text(&j("{}")), None);
    assert_eq!(extract_prompt_text(&j(r#"{"prompt":5}"#)), None);
    assert_eq!(gtm_hub::bridge::extract_prompt_text(&j(r#"{"prompt":" x "}"#)), "x");
    assert_eq!(gtm_hub::bridge::extract_prompt_text(&j("{}")), "");
}

#[test]
fn agents_come_from_the_settings_or_from_this_program() {
    let a = AgentSpawn::from_env(Some("/bin/agent"), Some(" a  b\tc "), Some("/bin/me"));
    assert_eq!(a.program, "/bin/agent");
    assert_eq!(a.args, ["a", "b", "c"]);
    let b = AgentSpawn::from_env(Some("/bin/agent"), None, None);
    assert!(b.args.is_empty());
    let c = AgentSpawn::from_env(None, Some("x"), Some("/bin/me"));
    assert_eq!(c.program, "/bin/me");
    assert_eq!(c.args, ["agent", "--no-leader", "stdio"]);
    assert_eq!(AgentSpawn::from_env(None, None, None).program, "gtm");
}

#[test]
fn permission_ids_count_up() {
    let mut hub = Hub::new(27420);
    assert_eq!(hub.next_perm_id(), "hp-1");
    assert_eq!(hub.next_perm_id(), "hp-2");
    hub.complete_session("s", None, String::new(), j("{}"), 7, None);
    hub.register_perm_route("hp-1".to_string(), "s");
    let _ = hub.take_effects();
    hub.handle_client_reply(Json::text("hp-1"), None, Some(j(r#"{"code":1}"#)));
    match &hub.take_effects()[0] {
        Effect::Order { actor, cmd: ActorCmd::ClientReply { id, result, error } } => {
            assert_eq!(*actor, 7);
            assert_eq!(text(id), "\"hp-1\"");
            assert!(result.is_none());
            assert_eq!(text(error.as_ref().unwrap()), r#"{"code":1}"#);
        }
        _ => panic!("expected the actor to be told"),
    }
    hub.clear_perm_routes(&vec!["hp-1".to_string()]);
    hub.handle_client_reply(Json::text("hp-1"), None, None);
    assert!(hub.take_effects().is_empty());
}

#[test]
fn a_replaced_host_fails_its_prompts() {
    let mut hub = Hub::new(27420);
    let first = hello(&mut hub, "tui");
    let second = hello(&mut hub, "tui");
    let phone = hello(&mut hub, "macos");
    ok(&mut hub, first, 1, "gtm/sessions.host", r#"{"sessionId":"s"}"#);
    pending(&mut hub, phone, 8, "session/prompt", r#"{"sessionId":"s","prompt":"hi"}"#);
    let _ = hub.take_effects();
    ok(&mut hub, second, 1, "gtm/sessions.host", r#"{"sessionId":"s"}"#);
    let seen = mail(&hub.take_effects(), phone);
    assert_eq!(field(&seen[0], "error.code").as_i64(), Some(-32012));
    assert_eq!(field(&seen[0], "id").as_u64(), Some(8));
    assert_eq!(hub.host_client("s"), Some(second));
}

#[test]
fn taking_a_session_that_starts_answers_those_who_wait() {
    let mut hub = Hub::new(27420);
    let tui = hello(&mut hub, "tui");
    let phone = hello(&mut hub, "macos");
    pending(&mut hub, phone, 4, "session/load", r#"{"sessionId":"s","cwd":"/w"}"#);
    let _ = hub.take_effects();
    ok(&mut hub, tui, 1, "gtm/sessions.host", r#"{"sessionId":"s","cwd":"/w","title":"T"}"#);
    let seen = mail(&hub.take_effects(), phone);
    assert_eq!(
        text(&seen[0]),
        r#"{"id":4,"jsonrpc":"2.0","result":{"cwd":"/w","sessionId":"s","title":"T"}}"#
    );
    assert_eq!(hub.subscribers("s"), vec![phone]);
    hub.complete_session("s", None, String::new(), j("{}"), 1, None);
    assert!(has_shutdown(&hub.take_effects(), 1));
}

#[test]
fn network_clients_change_no_listener_and_no_host() {
    let mut hub = Hub::new(27420);
    let devices = vec![device("d0", "fp0")];
    let tui = hello(&mut hub, "tui");
    ok(&mut hub, tui, 1, "gtm/sessions.host", r#"{"sessionId":"s"}"#);
    let (phone, _) = hub
        .hello(&ios_hello(), true, Some("fp0".to_string()), &devices, 200)
        .ok()
        .unwrap();
    let before = hub.lan_want();
    for method in ["gtm/remote.on", "gtm/sessions.host", "session/load", "session/prompt", "x.ai/y"] {
        let _ = hub.handle_request(
            phone,
            &Json::Uint(1),
            method,
            &j(r#"{"sessionId":"s","cwd":"/w","prompt":"p"}"#),
            &facts(),
        );
        assert_eq!(hub.lan_want(), before);
        assert_eq!(hub.host_client("s"), Some(tui));
    }
}
