use gtm_hub::codec::parse_json;
use gtm_hub::json::Json;
use gtm_hub::remote::{
    device_lines, parse_ttl, print_enroll_hint, print_on, remote_status_line, remote_task,
    revoke_line, status_lines, stop_step, stopped_line, RemoteArgs, RemoteCommand, RemoteTask,
    StopStep, TtlError,
};
use gtm_hub::tls::{DeviceRecord, EnrollFile};

fn j(text: &str) -> Json {
    parse_json(text).expect("test JSON")
}

#[test]
fn times_to_live_are_days_hours_or_seconds() {
    assert_eq!(parse_ttl("30d").ok(), Some(2_592_000));
    assert_eq!(parse_ttl("2h").ok(), Some(7_200));
    assert_eq!(parse_ttl(" 15 ").ok(), Some(15));
    assert_eq!(parse_ttl("213503982334602d").ok(), Some(u64::MAX));
    assert_eq!(parse_ttl("xd").err(), Some(TtlError::Days));
    assert_eq!(parse_ttl("h").err(), Some(TtlError::Hours));
    assert_eq!(parse_ttl("soon").err(), Some(TtlError::Seconds));
    assert_ne!(TtlError::Days.text(), TtlError::Hours.text());
    assert_ne!(TtlError::Hours.text(), TtlError::Seconds.text());
}

#[test]
fn arguments_become_tasks() {
    let task = |lan: bool, command: Option<RemoteCommand>| remote_task(RemoteArgs { lan, command });
    assert!(matches!(task(true, None), Ok(RemoteTask::Open)));
    assert!(matches!(task(false, None), Ok(RemoteTask::Show)));
    assert!(matches!(task(false, Some(RemoteCommand::List)), Ok(RemoteTask::List)));
    assert!(matches!(task(false, Some(RemoteCommand::Off)), Ok(RemoteTask::Off)));
    assert!(matches!(
        task(false, Some(RemoteCommand::Status { json: true })),
        Ok(RemoteTask::Status { json: true })
    ));
    assert!(matches!(
        task(false, Some(RemoteCommand::Revoke { device_id: "d".to_string() })),
        Ok(RemoteTask::Revoke(id)) if id == "d"
    ));
    assert!(matches!(
        task(false, Some(RemoteCommand::Enroll { ttl: "1d".to_string(), out: None })),
        Ok(RemoteTask::Enroll { secs: 86_400, out: None })
    ));
    assert_eq!(
        task(false, Some(RemoteCommand::Enroll { ttl: "?".to_string(), out: None })).err(),
        Some(TtlError::Seconds)
    );
}

#[test]
fn lines_say_what_is_so() {
    assert_eq!(
        print_on(&j(r#"{"host":"10.0.0.1","port":5000}"#)),
        "LAN TLS 10.0.0.1:5000  alpn gtm-hub"
    );
    assert_eq!(print_on(&j("{}")), "LAN TLS -:0  alpn gtm-hub");
    assert_eq!(
        remote_status_line(&j(r#"{"lan":true,"host":"h","port":1,"devices":2}"#)),
        "lan true  h:1  devices 2"
    );
    assert_eq!(device_lines(&Vec::new()), ["No enrolled devices."]);
    let d = DeviceRecord {
        device_id: "d".to_string(),
        issued: 1,
        expires: 9,
        cert_sha256: "ff".to_string(),
    };
    assert_eq!(device_lines(&vec![d]), ["d  expires 9  fp ff"]);
    assert_eq!(revoke_line("d", true, false).ok().as_deref(), Some("revoked d"));
    assert_eq!(
        revoke_line("d", false, true).ok().as_deref(),
        Some("revoked d (hub offline; file removed)")
    );
    assert_eq!(
        revoke_line("d", false, false).err().as_deref(),
        Some("unknown device d")
    );
    assert_eq!(stopped_line(3), "Stopped gtm hub (pid 3).");
}

#[test]
fn enrollment_is_explained() {
    let t = |s: &str| s.to_string();
    let e = EnrollFile {
        host: t("h"),
        port: 5,
        alpn: t("gtm-hub"),
        server_cert_sha256: t("s"),
        ca_cert_pem: t("c"),
        device_cert_pem: t("dc"),
        device_key_pem: t("dk"),
        device_id: t("d"),
        issued: 1,
        expires: 2,
        hub_id: t("hub-1"),
    };
    assert_eq!(
        print_enroll_hint(&e, "/p"),
        [
            "wrote /p",
            "device d  hub hub-1  connect h:5",
            "Copy /p to the phone (file mode 0600). The CA private key is not in this file.",
        ]
    );
}

#[test]
fn status_lists_what_is_live() {
    let hello = j(r#"{"protocolVersion":1}"#);
    let info = j(r#"{"pid":3,"socket":"/s","live":[]}"#);
    assert_eq!(
        status_lines(&info, &hello),
        [
            "gtm hub pid 3  socket /s  protocol 1",
            "live sessions: none (TUI is not hosting; phone turns spawn a private agent)",
        ]
    );
    let info = j(r#"{"pid":3,"socket":"/s","live":[{"id":"a","hosted":true,"title":"T"},{"id":"b"}]}"#);
    assert_eq!(
        status_lines(&info, &hello)[1..],
        ["live sessions:", "  a  [TUI host]  T", "  b  [hub actor]  "]
    );
    assert_eq!(status_lines(&j("{}"), &j("{}")), ["gtm hub pid 0  socket -  protocol 0"]);
}

#[test]
fn stopping_asks_waits_and_forces() {
    assert_eq!(stop_step(None, false, None, false), StopStep::NoneRuns);
    assert_eq!(stop_step(Some(1), false, None, false), StopStep::Clean);
    assert_eq!(stop_step(Some(1), true, None, false), StopStep::Ask);
    assert_eq!(stop_step(Some(1), true, Some(2_999), false), StopStep::Wait);
    assert_eq!(stop_step(Some(1), true, Some(3_000), false), StopStep::Force);
    assert_eq!(stop_step(Some(1), true, Some(3_000), true), StopStep::Done);
    assert_eq!(stop_step(Some(1), false, Some(10), false), StopStep::Done);
}
