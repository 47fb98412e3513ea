use gtm_hub::codec::json_text;
use gtm_hub::codec::parse_json;
use gtm_hub::history::{
    chat_entry, extract_diff, extract_reasoning, extract_user_text, parse_updates,
    session_history_in, strip_env_noise, take_last, tool_args_diff, truncate, HistoryRow, Role,
};
use gtm_hub::json::Json;
use gtm_hub::order::sort;
use gtm_hub::sessions::{
    is_subagent, list_disk_sessions_in, lookup_cwd, lookup_title, merge_live, percent_decode,
    session_title, DiskSession, SessionCard,
};

fn j(text: &str) -> Json {
    parse_json(text).expect("test JSON")
}

fn stored(group: &str, id: &str, summary: &str) -> DiskSession {
    DiskSession {
        group: group.to_string(),
        group_cwd: None,
        id: id.to_string(),
        summary: summary.to_string(),
    }
}

fn card(id: &str, title: &str, live: bool) -> SessionCard {
    SessionCard {
        id: id.to_string(),
        title: title.to_string(),
        live,
        hosted: None,
        cwd: None,
    }
}

fn role(row: &HistoryRow) -> &str {
    row.role.name()
}

#[test]
fn reads_summary_cards() {
    let mut found = vec![stored(
        "encoded-cwd",
        "abc-123",
        r#"{"generated_title":"Hello","info":{"cwd":"/tmp/proj"}}"#,
    )];
    let list = list_disk_sessions_in(&found);
    assert_eq!(list.len(), 1);
    assert_eq!(list[0].id, "abc-123");
    assert_eq!(list[0].title, "Hello");
    assert_eq!(list[0].live, false);
    assert_eq!(list[0].cwd.as_deref(), Some("/tmp/proj"));

    found.push(stored("%2FUsers%2Fme%2Fapp", "sess-2", r#"{"title":"From group"}"#));
    let list = list_disk_sessions_in(&found);
    let card = list.iter().find(|c| c.id == "sess-2").unwrap();
    assert_eq!(card.cwd.as_deref(), Some("/Users/me/app"));
    assert_eq!(
        json_text(&card.to_json()),
        r#"{"cwd":"/Users/me/app","id":"sess-2","live":false,"title":"From group"}"#
    );
}

#[test]
fn merge_prefers_live() {
    let live = vec![card("abc-123", "Hello", true)];
    let disk = vec![card("abc-123", "Hello", false), card("cold", "Old", false)];
    let merged = merge_live(live, disk);
    assert_eq!(merged.len(), 2);
    assert_eq!(merged[0].id, "abc-123");
    assert_eq!(merged[0].live, true);
    assert_eq!(merged[1].id, "cold");
}

#[test]
fn merge_keeps_disk_title_when_live_title_blank() {
    let live = vec![card("abc-123", "", true)];
    let disk = vec![card("abc-123", "Hello", false)];
    let merged = merge_live(live, disk);
    assert_eq!(merged.len(), 1);
    assert_eq!(merged[0].title, "Hello");
    assert_eq!(merged[0].live, true);
}

#[test]
fn history_reads_chat_history_and_strips_user_query() {
    let chat = [
        r#"{"type":"system","content":"ignore"}"#,
        "\n",
        r#"{"type":"user","content":[{"type":"text","text":"noise <user_query>hello mars</user_query>"}]}"#,
        "\n",
        r#"{"type":"assistant","content":"ack","tool_calls":[{"name":"shell","arguments":"ls"}]}"#,
        "\n",
    ]
    .concat();
    let msgs = session_history_in(Some(&chat), None, 50);
    assert_eq!(msgs.len(), 3);
    assert_eq!(role(&msgs[0]), "user");
    assert_eq!(msgs[0].text, "hello mars");
    assert_eq!(role(&msgs[1]), "tool");
    assert_eq!(msgs[1].tool_title.as_deref(), Some("shell"));
    assert_eq!(role(&msgs[2]), "assistant");
    assert_eq!(msgs[2].text, "ack");
}

#[test]
fn history_falls_back_to_updates_jsonl() {
    let updates = [
        r#"{"method":"session/update","params":{"update":{"sessionUpdate":"user_message_chunk","text":"hi"}}}"#,
        "\n",
        r#"{"method":"session/update","params":{"update":{"sessionUpdate":"agent_message_chunk","content":{"text":"there"}}}}"#,
        "\n",
    ]
    .concat();
    let msgs = session_history_in(None, Some(&updates), 50);
    assert_eq!(msgs.len(), 2);
    assert_eq!(role(&msgs[0]), "user");
    assert_eq!(msgs[0].text, "hi");
    assert_eq!(role(&msgs[1]), "assistant");
    assert_eq!(msgs[1].text, "there");
}

#[test]
fn history_keeps_tool_diff_from_updates() {
    let updates = [
        r#"{"method":"session/update","params":{"update":{"sessionUpdate":"tool_call","title":"Edit","status":"pending"}}}"#,
        "\n",
        r#"{"method":"session/update","params":{"update":{"sessionUpdate":"tool_call_update","status":"completed","content":[{"type":"diff","path":"A.swift","oldText":"old","newText":"new"}]}}}"#,
        "\n",
    ]
    .concat();
    let msgs = session_history_in(None, Some(&updates), 50);
    assert_eq!(msgs.len(), 1);
    assert_eq!(role(&msgs[0]), "tool");
    assert_eq!(msgs[0].tool_title.as_deref(), Some("Edit"));
    let shown = msgs[0].to_json();
    assert_eq!(shown.get_str("diffPath"), Some("A.swift"));
    assert_eq!(shown.get_str("oldText"), Some("old"));
    assert_eq!(shown.get_str("newText"), Some("new"));
    assert_eq!(msgs[0].text, "completed");
}

#[test]
fn history_keeps_tail_when_over_limit() {
    let mut body = String::new();
    for i in 0..10 {
        body.push_str(&format!("{{\"type\":\"user\",\"content\":\"msg-{i}\"}}\n"));
    }
    let msgs = session_history_in(Some(&body), None, 3);
    assert_eq!(msgs.len(), 3);
    assert_eq!(msgs[0].text, "msg-7");
    assert_eq!(msgs[2].text, "msg-9");
}

#[test]
fn history_is_bounded() {
    let mut body = String::new();
    for i in 0..600 {
        body.push_str(&format!("{{\"type\":\"user\",\"content\":\"msg-{i}\"}}\n"));
    }
    assert_eq!(session_history_in(Some(&body), None, 10_000).len(), 500);
    assert_eq!(session_history_in(Some(&body), None, 0).len(), 200);
    assert!(session_history_in(None, None, 5).is_empty());
    assert!(session_history_in(Some("\n\nnot json\n"), None, 5).is_empty());
}

#[test]
fn blank_chat_falls_back_to_updates() {
    let updates = r#"{"method":"x.ai/session/update","params":{"update":{"sessionUpdate":"user_message_chunk","text":"hi"}}}"#;
    let msgs = session_history_in(Some("{\"type\":\"system\"}\n"), Some(updates), 5);
    assert_eq!(msgs.len(), 1);
    assert_eq!(msgs[0].text, "hi");
}

#[test]
fn long_texts_are_cut_between_characters() {
    assert_eq!(truncate("abc", 3), "abc");
    assert_eq!(truncate("abcd", 3), "ab\u{2026}");
    assert_eq!(truncate("a\u{e4}b", 3), "a\u{2026}");
    assert_eq!(truncate("\u{20ac}\u{20ac}", 4), "\u{20ac}\u{2026}");
    assert_eq!(truncate("abc", 0), "\u{2026}");
}

#[test]
fn the_query_is_found_in_the_noise() {
    assert_eq!(strip_env_noise("a <user_query> q </user_query> b"), "q");
    assert_eq!(strip_env_noise(" plain "), "plain");
    assert_eq!(strip_env_noise("</user_query> x <user_query>"), "</user_query> x <user_query>");
    assert_eq!(strip_env_noise("<user_query> </user_query>"), "<user_query> </user_query>");
    let long = format!("{}{}", "x".repeat(3_000), "y".repeat(2_000));
    assert_eq!(strip_env_noise(&long), format!("\u{2026}{}", "y".repeat(2_000)));
    let fits = "x".repeat(4_000);
    assert_eq!(strip_env_noise(&fits), fits);
}

#[test]
fn diffs_are_found_where_tools_put_them() {
    let d = tool_args_diff(r#"{"file_path":"f","old_string":"a","new_string":"b"}"#).unwrap();
    assert_eq!((d.path.as_str(), d.old.as_str(), d.new.as_str()), ("f", "a", "b"));
    assert!(tool_args_diff("not json").is_none());
    assert!(tool_args_diff("{}").is_none());
    let u = j(r#"{"rawInput":{"path":"g","oldText":"1","newText":"2"}}"#);
    let d = extract_diff(&u).unwrap();
    assert_eq!((d.path.as_str(), d.old.as_str(), d.new.as_str()), ("g", "1", "2"));
}

#[test]
fn user_text_comes_as_text_or_parts() {
    assert_eq!(extract_user_text(Some(&j(r#""hi""#))), "hi");
    assert_eq!(extract_user_text(Some(&j(r#"[{"text":"a"},{"text":"b"}]"#))), "a\nb");
    assert_eq!(extract_user_text(None), "");
    assert_eq!(extract_reasoning(&j("{}")), "");
}

#[test]
fn thoughts_and_tools_become_rows() {
    let rows = chat_entry(&j(r#"{"type":"tool_result","content":"done","name":"shell"}"#));
    assert!(rows.iter().all(|r| r.role == Role::Tool));
    let rows = chat_entry(&j(r#"{"type":"system","content":"x"}"#));
    assert!(rows.is_empty());
    let text = [
        r#"{"method":"session/update","params":{"update":{"sessionUpdate":"agent_thought_chunk","text":"hm"}}}"#,
        "\n",
        r#"{"method":"session/update","params":{"update":{"sessionUpdate":"agent_thought_chunk","text":"m"}}}"#,
        "\n",
        r#"{"method":"session/update","params":{"update":{"sessionUpdate":"agent_message_chunk","text":"so"}}}"#,
    ]
    .concat();
    let rows = parse_updates(&text);
    assert_eq!(rows.len(), 2);
    assert_eq!(rows[0].role, Role::Thought);
    assert_eq!(rows[0].text, "hmm");
    assert_eq!(rows[1].text, "so");
    assert_eq!(take_last(rows, 1).len(), 1);
}

#[test]
fn titles_fall_back() {
    assert_eq!(session_title(&j(r#"{"generated_title":"a","title":"b"}"#)), "a");
    assert_eq!(session_title(&j(r#"{"title":"b"}"#)), "b");
    assert_eq!(session_title(&j(r#"{"generated_title":5,"title":"b"}"#)), "");
    assert_eq!(session_title(&j(r#"{"sessionSummary":"c"}"#)), "c");
    assert!(is_subagent(&j(r#"{"sessionKind":"SubAgent-1"}"#)));
    assert!(!is_subagent(&j("{}")));
    let s = stored("g", "s", r#"{"title":"T","info":{"cwd":"/w"}}"#);
    assert_eq!(lookup_title(Some(&s)).as_deref(), Some("T"));
    assert_eq!(lookup_cwd(Some(&s)).as_deref(), Some("/w"));
    assert_eq!(lookup_title(None), None);
    assert_eq!(lookup_cwd(None), None);
}

#[test]
fn percent_signs_are_decoded() {
    assert_eq!(percent_decode("%2Fa%20b").as_deref(), Some("/a b"));
    assert_eq!(percent_decode("plain").as_deref(), Some("plain"));
    assert_eq!(percent_decode("%c3%a4").as_deref(), Some("\u{e4}"));
    assert_eq!(percent_decode("%ff"), None);
    assert_eq!(percent_decode("%zz"), None);
    assert_eq!(percent_decode("%2").as_deref(), Some("%2"));
    assert_eq!(percent_decode("%+f").as_deref(), Some("\u{f}"));
}

#[test]
fn cards_are_sorted_by_title_and_stay_in_order() {
    let cards = vec![
        card("1", "b", false),
        card("2", "a", false),
        card("3", "b", false),
        card("4", "\u{e4}", false),
        card("5", "", false),
    ];
    let sorted = sort(cards);
    let ids: Vec<&str> = sorted.iter().map(|c| c.id.as_str()).collect();
    assert_eq!(ids, ["5", "2", "1", "3", "4"]);
    let list = list_disk_sessions_in(&vec![
        stored("g", "1", r#"{"title":"z"}"#),
        stored("g", "2", r#"{"title":"a"}"#),
        stored("g", "3", r#"{"title":"m","session_kind":"subagent"}"#),
    ]);
    let ids: Vec<&str> = list.iter().map(|c| c.id.as_str()).collect();
    assert_eq!(ids, ["2", "1"]);
}
