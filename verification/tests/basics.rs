use gtm_hub::actor::{
    attach_id, is_dangerous_permission, read_msg, tells_danger, to_agent_method, write_msg, Line,
};
use gtm_hub::client::{read_outcome, HubClient};
use gtm_hub::codec::{json_bytes, json_text, parse_bytes, parse_json, pretty_text};
use gtm_hub::fake_agent::FakeAgent;
use gtm_hub::json::Json;
use gtm_hub::numeral::{parse_number, to_decimal, to_hexadecimal, to_signed_decimal};
use gtm_hub::order::in_order;
use gtm_hub::rpc::{rpc_error, rpc_notice, rpc_request, rpc_result, RpcError};
use gtm_hub::table::Table;
use gtm_hub::text::{
    byte_len, chars_of, contains, ends_with, find, fit_prefix, join, lines, space, starts_with,
    strip_prefix, strip_suffix, to_ascii_lower, trim, words,
};

fn j(text: &str) -> Json {
    parse_json(text).expect("test JSON")
}

#[test]
fn white_space_is_what_unicode_says() {
    for c in '\0'..=char::MAX {
        assert_eq!(space(c), c.is_whitespace(), "{}", c as u32);
    }
}

#[test]
fn texts_are_taken_apart_as_usual() {
    let samples = [
        "", " ", "a", " a b\u{a0}", "\u{3000}x\u{85}", "a\nb\r\nc\r", "\n", "a\n\n", "\r\n\r",
        "x\u{e4}\u{20ac}\u{1f600}y", "ABC \u{c4}", "aab aab",
    ];
    for s in samples {
        assert_eq!(trim(s), s.trim());
        assert_eq!(byte_len(s), s.len());
        assert_eq!(to_ascii_lower(s), s.to_ascii_lowercase());
        let expected: Vec<&str> = s.lines().map(str::trim).filter(|l| !l.is_empty()).collect();
        assert_eq!(lines(s), expected);
        let expected: Vec<&str> = s.split_whitespace().collect();
        assert_eq!(words(s), expected);
        for p in ["", "a", "aab", "\u{e4}", "b ", "c\r"] {
            assert_eq!(contains(s, p), s.contains(p));
            assert_eq!(starts_with(s, p), s.starts_with(p));
            assert_eq!(ends_with(s, p), s.ends_with(p));
            assert_eq!(strip_prefix(s, p).as_deref(), s.strip_prefix(p));
            assert_eq!(strip_suffix(s, p).as_deref(), s.strip_suffix(p));
            let at = s.find(p).map(|b| s[..b].chars().count());
            assert_eq!(find(&chars_of(s), p), at);
        }
        for n in 0..s.len() + 2 {
            let mut end = n.min(s.len());
            while !s.is_char_boundary(end) {
                end -= 1;
            }
            assert_eq!(fit_prefix(s, n), s[..end]);
        }
    }
    let parts = vec!["a".to_string(), String::new(), "b".to_string()];
    assert_eq!(join(&parts, ", "), "a, , b");
    assert_eq!(join(&Vec::new(), ", "), "");
}

#[test]
fn numbers_are_written_and_read() {
    for n in [0, 1, 9, 10, 42, 255, 4_096, u64::MAX] {
        assert_eq!(to_decimal(n), n.to_string());
        assert_eq!(to_hexadecimal(n), format!("{n:x}"));
        assert_eq!(parse_number(&to_decimal(n), u64::MAX), Some(n));
    }
    for n in [0, -1, 7, i64::MIN, i64::MAX] {
        assert_eq!(to_signed_decimal(n), n.to_string());
    }
    for s in ["", "+", "+5", "-5", "007", " 5", "5 ", "18446744073709551616", "x", "1_000"] {
        assert_eq!(parse_number(s, u64::MAX), s.parse::<u64>().ok(), "{s}");
        assert_eq!(
            parse_number(s, u16::MAX as u64),
            s.parse::<u16>().ok().map(|n| n as u64),
            "{s}"
        );
    }
    assert_eq!(parse_number("65535", 65_535), Some(65_535));
    assert_eq!(parse_number("65536", 65_535), None);
}

#[test]
fn texts_are_ordered_as_usual() {
    let samples = ["", "a", "aa", "b", "\u{e4}", "\u{ffff}", "\u{10000}", "Z"];
    for a in samples {
        for b in samples {
            assert_eq!(in_order(a, b), a <= b, "{a} {b}");
        }
    }
}

#[test]
fn json_is_read_and_printed() {
    let text = r#"{"b":[1,-2,18446744073709551615,true,null,"ä\n\""],"a":{"x":1.5},"b2":[]}"#;
    let v = j(text);
    assert_eq!(
        json_text(&v),
        "{\"a\":{\"x\":1.5},\"b\":[1,-2,18446744073709551615,true,null,\"\u{e4}\\n\\\"\"],\"b2\":[]}"
    );
    assert!(v.same(&j(&json_text(&v))));
    assert!(v.copy().same(&v));
    assert!(!v.same(&j("{}")));
    assert_eq!(pretty_text(&j(r#"{"a":[1]}"#)), "{\n  \"a\": [\n    1\n  ]\n}");
    assert!(parse_json("").is_none());
    assert!(parse_json("{} x").is_none());
    assert!(parse_json("[1,]").is_none());
    assert!(parse_bytes(vec![0xff]).is_none());
    assert!(parse_bytes(json_bytes(&v)).unwrap().same(&v));
    let deep = format!("{}{}", "[".repeat(127), "]".repeat(127));
    assert!(parse_json(&deep).is_some());
    let deeper = format!("{}{}", "[".repeat(128), "]".repeat(128));
    assert!(parse_json(&deeper).is_none());
    for f in ["1.0", "-0.5", "1e300", "0.1", "123456789.25"] {
        let v = j(f);
        assert!(matches!(v, Json::Float(_)), "{f}");
        assert!(v.same(&j(&json_text(&v))), "{f}");
    }
    assert_eq!(json_text(&j("1e2")), "100.0");
    assert_eq!(json_text(&j("-0")), "-0.0");
    assert!(j(r#"{"a":1,"a":2}"#).same(&j(r#"{"a":2}"#)));
}

#[test]
fn json_is_looked_into() {
    let v = j(r#"{"a":1,"s":"t","n":{"k":[true]},"i":-1}"#);
    assert_eq!(v.get("a").unwrap().as_u64(), Some(1));
    assert_eq!(v.get("a").unwrap().as_i64(), Some(1));
    assert_eq!(v.get("i").unwrap().as_i64(), Some(-1));
    assert_eq!(v.get("i").unwrap().as_u64(), None);
    assert_eq!(v.get_str("s"), Some("t"));
    assert_eq!(v.get_str("a"), None);
    assert_eq!(v.get_in("n", "k").unwrap().as_array().unwrap()[0].as_bool(), Some(true));
    assert!(v.get("z").is_none());
    assert!(Json::Null.get("a").is_none());
    assert!(v.is_object() && !Json::Null.is_object());
    assert_eq!(v.either_str("z", "s"), Some("t"));
    let w = Json::object().with("k", Json::Uint(1)).with("k", Json::text("x"));
    assert_eq!(json_text(&w), r#"{"k":"x"}"#);
    assert_eq!(Json::Uint(u64::MAX).as_i64(), None);
    assert!(Json::Int(5).same(&Json::Uint(5)));
}

#[test]
fn messages_have_their_shape() {
    assert_eq!(
        json_text(&rpc_result(Json::Uint(1), Json::Null)),
        r#"{"id":1,"jsonrpc":"2.0","result":null}"#
    );
    assert_eq!(
        json_text(&rpc_error(Json::Null, -1, "m")),
        r#"{"error":{"code":-1,"message":"m"},"id":null,"jsonrpc":"2.0"}"#
    );
    assert_eq!(
        json_text(&rpc_request(Json::Uint(1), "m", Json::object())),
        r#"{"id":1,"jsonrpc":"2.0","method":"m","params":{}}"#
    );
    assert_eq!(
        json_text(&rpc_notice("m", Json::object())),
        r#"{"jsonrpc":"2.0","method":"m","params":{}}"#
    );
    assert_eq!(
        json_text(&RpcError::new(5, "e").to_msg(Json::Uint(2))),
        r#"{"error":{"code":5,"message":"e"},"id":2,"jsonrpc":"2.0"}"#
    );
}

#[test]
fn tables_hold_one_value_per_key() {
    let mut t: Table<String, u8> = Table::new();
    t.set("a".to_string(), 1);
    t.set("b".to_string(), 2);
    t.set("a".to_string(), 3);
    assert_eq!(t.len(), 2);
    assert_eq!(t.get(&"a".to_string()), Some(&3));
    t.unset(&"a".to_string());
    assert!(!t.has(&"a".to_string()));
    assert_eq!(t.len(), 1);
}

#[test]
fn danger_is_told_by_words() {
    for w in ["delete", "force", "push", "wipe", "drop ", "remove", "rm -rf"] {
        assert!(tells_danger(&format!("x{w}y")), "{w}");
    }
    assert!(!tells_danger("raindrop"));
    let p = |title: &str, kind: &str| {
        j(&format!(r#"{{"toolCall":{{"title":"{title}","kind":"{kind}"}}}}"#))
    };
    assert!(is_dangerous_permission(&p("Git PUSH", "execute")));
    assert!(is_dangerous_permission(&p("x", "DELETE")));
    assert!(is_dangerous_permission(&p("drop", "it")));
    assert!(!is_dangerous_permission(&p("echo", "execute")));
    assert!(!is_dangerous_permission(&j("{}")));
    assert!(is_dangerous_permission(&p("W\u{130}PE wipe", "")));
}

#[test]
fn agent_lines_are_messages_or_nothing() {
    assert!(matches!(read_msg(&Vec::new()), Line::End(s) if s == "agent closed stdout"));
    assert!(matches!(read_msg(&b"  \n".to_vec()), Line::Skip));
    assert!(matches!(read_msg(&b"oops\n".to_vec()), Line::Skip));
    match read_msg(&b"{\"a\":\"\xff\"}\n".to_vec()) {
        Line::Message(m) => assert_eq!(m.get_str("a"), Some("\u{fffd}")),
        _ => panic!("expected a message"),
    }
    let long = vec![b' '; 16 * 1024 * 1024 + 1];
    assert!(matches!(read_msg(&long), Line::End(s) if s == "agent line too large"));
    assert_eq!(write_msg(&j(r#"{"a": 1}"#)), "{\"a\":1}\n");
}

#[test]
fn methods_and_ids_are_mapped_for_the_agent() {
    assert_eq!(to_agent_method("session/prompt"), "session/prompt");
    let m = attach_id(&j(r#"{"method":"x","id":1}"#), Json::text("hp-1"));
    assert_eq!(m.get_str("id"), Some("hp-1"));
    assert_eq!(m.get_str("jsonrpc"), Some("2.0"));
    assert!(attach_id(&Json::Uint(5), Json::Null).same(&Json::Uint(5)));
}

#[test]
fn clients_number_their_requests_and_keep_the_rest() {
    let mut c = HubClient::new();
    assert!(c.can_go_on());
    let a = c.ping();
    let b = c.hub_info();
    assert_ne!(a.id, b.id);
    assert_eq!(a.msg.get_str("method"), Some("gtm/ping"));
    let note = j(r#"{"method":"n","params":{}}"#);
    assert!(c.take_result(a.id, note.copy()).is_none());
    let reply = rpc_result(Json::Int(b.id), j(r#"{"x":1}"#));
    assert!(c.take_result(a.id, reply).is_none());
    assert!(c.kept_method("other").is_none());
    assert!(c.kept_method("n").unwrap().same(&note));
    assert!(c.kept_method("n").is_none());
    assert!(c.kept_id(&Json::Int(b.id)).is_some());
    assert!(c.recv().is_none());
    let e = read_outcome(&rpc_error(Json::Uint(1), -5, "bad")).err().unwrap();
    assert_eq!(e.text(), "hub error -5: bad");
    let e = read_outcome(&j(r#"{"error":{}}"#)).err().unwrap();
    assert_eq!(e.text(), "hub error -1: ?");
    assert_eq!(json_text(&read_outcome(&j("{}")).ok().unwrap()), "{}");
    assert_eq!(
        json_text(&c.session_history("s", 5).msg.get("params").unwrap().copy()),
        r#"{"limit":5,"sessionId":"s"}"#
    );
    assert_eq!(
        json_text(c.remote_on(Some(9)).msg.get("params").unwrap()),
        r#"{"port":9}"#
    );
    assert_eq!(
        json_text(c.remote_revoke("d").msg.get("params").unwrap()),
        r#"{"deviceId":"d"}"#
    );
    assert_eq!(c.remote_status().msg.get_str("method"), Some("gtm/remote.status"));
}

#[test]
fn the_stand_in_answers_as_an_agent() {
    let mut a = FakeAgent::new(5);
    let out = a.handle_line(r#"{"id":1,"method":"initialize"}"#);
    assert_eq!(out.len(), 1);
    let out = a.handle_line(r#"{"id":2,"method":"session/load","params":{"sessionId":"s"}}"#);
    assert_eq!(
        json_text(&out[0]),
        r#"{"id":2,"jsonrpc":"2.0","result":{"sessionId":"s"}}"#
    );
    let out = a.handle(&j(r#"{"id":3,"method":"session/prompt","params":{"prompt":[{"text":"hi"}]}}"#));
    assert_eq!(out.len(), 2);
    assert_eq!(
        json_text(&out[1]),
        r#"{"id":3,"jsonrpc":"2.0","result":{"stopReason":"end_turn"}}"#
    );
    assert!(a.handle_line(r#"{"method":"session/cancel"}"#).is_empty());
    assert!(a.handle_line("junk").is_empty());
}
