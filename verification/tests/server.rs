use gtm_hub::client::{connect_step, read_outcome, timed_out_text, ConnectStep, HubClient};
use gtm_hub::codec::{json_text, parse_json};
use gtm_hub::hub::{Facts, Hub, Lookup};
use gtm_hub::json::Json;
use gtm_hub::model::{LanWant, PROTOCOL_VERSION};
use gtm_hub::server::{
    idle_left, is_farewell, lan_step, listening_line, refuse_start, Conn, ConnStep, LanEvent,
    LanStep,
};
use gtm_hub::tls::{cert_fingerprint, create_ca, create_device, device_record};

fn j(text: &str) -> Json {
    parse_json(text).expect("test JSON")
}

fn field<'a>(v: &'a Json, path: &str) -> &'a Json {
    let mut at = v;
    for key in path.split('.') {
        at = at.get(key).unwrap_or_else(|| panic!("no {key} in {}", json_text(v)));
    }
    at
}

fn facts() -> Facts {
    Facts::new(42, "/tmp/hub.sock", 27420)
}

fn reply(step: ConnStep) -> Json {
    match step {
        ConnStep::Write(m) => m,
        ConnStep::Queue(m) => m,
        _ => panic!("expected a reply"),
    }
}

#[test]
fn hello_then_info() {
    let mut hub = Hub::new(27420);
    let mut conn = Conn::new(false, None);
    let mut client = HubClient::new();
    let f = facts();
    let call = client.hello("macos", "test", "0.0.0");
    let hello = client
        .take_result(call.id, reply(conn.handle(&mut hub, &call.msg, &f, 0)))
        .unwrap()
        .ok()
        .expect("hello");
    assert_eq!(field(&hello, "protocolVersion").as_u64(), Some(PROTOCOL_VERSION));
    assert_eq!(field(&hello, "transport").as_str(), Some("unix"));
    let call = client.hub_info();
    let info = client
        .take_result(call.id, reply(conn.handle(&mut hub, &call.msg, &f, 0)))
        .unwrap()
        .ok()
        .expect("info");
    assert_eq!(field(&info, "running").as_bool(), Some(true));
    let call = client.sessions_list();
    let list = client
        .take_result(call.id, reply(conn.handle(&mut hub, &call.msg, &f, 0)))
        .unwrap()
        .ok()
        .expect("list");
    assert!(list.get("sessions").and_then(|v| v.as_array()).is_some());
    assert!(matches!(conn.handle(&mut hub, &client.bye(), &f, 0), ConnStep::Bye));
}

#[test]
fn rejects_bad_first_method() {
    let mut hub = Hub::new(27420);
    let mut conn = Conn::new(false, None);
    let msg = j(r#"{"jsonrpc":"2.0","id":1,"method":"gtm/hub.info","params":{}}"#);
    match conn.handle(&mut hub, &msg, &facts(), 0) {
        ConnStep::Fail { last: Some(m), .. } => {
            assert_eq!(field(&m, "error.code").as_i64(), Some(-32000));
            assert!(read_outcome(&m).is_err());
        }
        _ => panic!("expected a refusal"),
    }
    assert_eq!(conn.client(), None);
}

#[test]
fn lan_mtls_ios_hello_session_new_denied() {
    let mut hub = Hub::new(27420);
    let mut f = facts();
    let mut local = Conn::new(false, None);
    let mut client = HubClient::new();
    let call = client.hello("macos", "test", "0.0.0");
    reply(local.handle(&mut hub, &call.msg, &f, 200));

    let ca = create_ca().ok().expect("ca");
    let device = create_device("phone", &ca).ok().expect("device");
    f.devices = vec![device_record("phone", 100, 86_400, &device.cert_pem).expect("record")];
    let call = client.remote_on(Some(40_000));
    let on = read_outcome(&reply(local.handle(&mut hub, &call.msg, &f, 200)))
        .ok()
        .expect("remote.on");
    assert_eq!(field(&on, "lan").as_bool(), Some(true));

    let mut conn = Conn::new(true, cert_fingerprint(&device.cert_pem));
    let hello = j(r#"{
        "jsonrpc": "2.0",
        "id": 1,
        "method": "gtm/hello",
        "params": {
            "protocolVersion": 1,
            "client": { "kind": "ios", "name": "phone", "version": "0" },
            "capabilities": { "permissionUi": true, "yolo": true }
        }
    }"#);
    let r = reply(conn.handle(&mut hub, &hello, &f, 200));
    assert_eq!(field(&r, "result.transport").as_str(), Some("lan"));
    assert_eq!(field(&r, "result.kind").as_str(), Some("ios"));

    let new_sess = j(r#"{"jsonrpc":"2.0","id":2,"method":"session/new","params":{"cwd":"/tmp"}}"#);
    let r = reply(conn.handle(&mut hub, &new_sess, &f, 200));
    assert_eq!(field(&r, "error.code").as_i64(), Some(-32000));

    let call = client.remote_off();
    reply(local.handle(&mut hub, &call.msg, &f, 200));
    assert!(!hub.lan_want().enabled);
    local.close(&mut hub);
    conn.close(&mut hub);
}

#[test]
fn other_messages_pass_through() {
    let mut hub = Hub::new(27420);
    let mut conn = Conn::new(false, None);
    let mut client = HubClient::new();
    let call = client.hello("tui", "t", "1");
    assert!(matches!(conn.lookup(&hub, &call.msg), Lookup::Nothing));
    reply(conn.handle(&mut hub, &call.msg, &facts(), 0));
    let id = conn.client().unwrap();
    assert!(hub.has_client(id));
    let ask = j(r#"{"id":9,"method":"gtm/session.history","params":{"sessionId":"s"}}"#);
    assert!(matches!(conn.lookup(&hub, &ask), Lookup::Transcript(s) if s == "s"));
    let notice = j(r#"{"method":"session/update","params":{"sessionId":"s"}}"#);
    assert!(matches!(conn.handle(&mut hub, &notice, &facts(), 0), ConnStep::Nothing));
    let answer = j(r#"{"id":4,"result":{}}"#);
    assert!(matches!(conn.handle(&mut hub, &answer, &facts(), 0), ConnStep::Nothing));
    assert!(matches!(
        conn.handle(&mut hub, &j(r#"{"method":"gtm/bye"}"#), &facts(), 0),
        ConnStep::Bye
    ));
    conn.close(&mut hub);
    assert!(!hub.has_client(id));
}

#[test]
fn farewells_are_shutdown_notices() {
    let note = |reason: &str| {
        j(&format!(
            r#"{{"jsonrpc":"2.0","method":"gtm/hub.shutdown","params":{{"reason":"{reason}"}}}}"#
        ))
    };
    assert!(is_farewell(&note("revoked")));
    assert!(is_farewell(&note("replaced")));
    assert!(!is_farewell(&j(r#"{"method":"gtm/sessions.changed","params":{"reason":"revoked"}}"#)));
    assert!(!is_farewell(&j("{}")));
}

#[test]
fn silence_runs_out_after_ninety_seconds() {
    assert_eq!(idle_left(0), 90_000);
    assert_eq!(idle_left(60_000), 30_000);
    assert_eq!(idle_left(90_000), 0);
    assert_eq!(idle_left(u64::MAX), 0);
}

#[test]
fn a_second_hub_does_not_start() {
    assert_eq!(refuse_start(false, false, "/s"), None);
    assert_eq!(
        refuse_start(true, false, "/s").as_deref(),
        Some("gtm hub already running")
    );
    assert_eq!(
        refuse_start(false, true, "/s").as_deref(),
        Some("gtm hub already running (socket /s)")
    );
    assert_eq!(listening_line("/s", 7), "gtm hub listening on /s (pid 7)");
}

#[test]
fn a_hub_is_started_and_waited_for() {
    assert_eq!(connect_step(true, None), ConnectStep::Done);
    assert_eq!(connect_step(false, None), ConnectStep::Start);
    assert_eq!(connect_step(false, Some(0)), ConnectStep::Wait { ms: 50 });
    assert_eq!(connect_step(false, Some(4_999)), ConnectStep::Wait { ms: 50 });
    assert_eq!(connect_step(false, Some(5_000)), ConnectStep::GiveUp);
    assert_eq!(connect_step(true, Some(5_000)), ConnectStep::Done);
    assert_eq!(timed_out_text("/s"), "timed out waiting for gtm hub at /s");
}

#[test]
fn the_network_listener_does_what_the_hub_wants() {
    let on = LanWant { enabled: true, port: 5000 };
    let off = LanWant { enabled: false, port: 5000 };
    assert_eq!(lan_step(on, LanEvent::Ready), LanStep::Listen { port: 5000 });
    assert_eq!(lan_step(on, LanEvent::Changed), LanStep::Listen { port: 5000 });
    assert_eq!(lan_step(off, LanEvent::Ready), LanStep::Wait);
    assert_eq!(lan_step(off, LanEvent::Changed), LanStep::Wait);
    assert_eq!(lan_step(on, LanEvent::Stopped), LanStep::Pause { ms: 200 });
    assert_eq!(lan_step(off, LanEvent::Stopped), LanStep::Pause { ms: 200 });
    assert_eq!(lan_step(on, LanEvent::Closed), LanStep::End);
    assert_eq!(lan_step(off, LanEvent::Closed), LanStep::End);
}
