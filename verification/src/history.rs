//! Transcripts: the rows that a client shows for a session, from the agent's
//! chat history or from its recorded updates.

use crate::codec::{json_text, parse_json, parsed, printed};
use crate::json::{obj, trees, Json, Tree};
use crate::text::{
    ascii_lower, byte_len, chars_of, ends, ends_with, filled, find, find_in, fit, fit_prefix, join,
    joined, lemma_find_from, lines, lines_of, opt_str, opt_text, or_empty, or_text, own, size,
    stands_at, string_of, text_eq, text_or, texts, to_ascii_lower, trim, trim_part, trimmed,
};
use vstd::prelude::*;

verus! {

/// How many rows a client gets that names no number.
pub const HISTORY_DEFAULT: usize = 200;

/// How many rows a client gets at most.
pub const HISTORY_MAX: usize = 500;

/// The most bytes of a message in a row.
pub const HISTORY_TEXT_MAX: usize = 8000;

/// The most bytes of a tool's arguments or result in a row.
pub const TOOL_TEXT_MAX: usize = 240;

/// The most bytes of either side of a diff in a row.
pub const DIFF_TEXT_MAX: usize = 4000;

/// The most bytes of a user's message that is shown whole.
pub const NOISE_MAX: usize = 4000;

/// How many characters are shown of a longer one.
pub const NOISE_TAIL: usize = 2000;

/// A change to a file.
pub struct Diff {
    pub path: String,
    pub old: String,
    pub new: String,
}

/// A change to a file, as mathematics.
pub struct Change {
    pub path: Seq<char>,
    pub old: Seq<char>,
    pub new: Seq<char>,
}

impl View for Diff {
    type V = Change;

    open spec fn view(&self) -> Change {
        Change { path: self.path@, old: self.old@, new: self.new@ }
    }
}

/// Who a row is from.
#[derive(Clone, Copy, PartialEq, Eq, Structural, Debug)]
pub enum Role {
    User,
    Assistant,
    Thought,
    Tool,
}

impl Role {
    /// The name of the role.
    pub open spec fn label(self) -> Seq<char> {
        match self {
            Role::User => "user"@,
            Role::Assistant => "assistant"@,
            Role::Thought => "thought"@,
            Role::Tool => "tool"@,
        }
    }

    /// The name of the role.
    pub fn name(self) -> (r: &'static str)
        ensures
            r@ == self.label(),
    {
        match self {
            Role::User => "user",
            Role::Assistant => "assistant",
            Role::Thought => "thought",
            Role::Tool => "tool",
        }
    }
}

/// One row of a transcript.
pub struct HistoryRow {
    pub role: Role,
    pub text: String,
    pub tool_title: Option<String>,
    pub diff: Option<Diff>,
}

/// One row of a transcript, as mathematics.
pub struct Row {
    pub role: Role,
    pub text: Seq<char>,
    pub title: Option<Seq<char>>,
    pub diff: Option<Change>,
}

/// What an optional diff holds.
pub open spec fn opt_diff(o: Option<Diff>) -> Option<Change> {
    match o {
        Some(d) => Some(d@),
        None => None,
    }
}

impl View for HistoryRow {
    type V = Row;

    open spec fn view(&self) -> Row {
        Row {
            role: self.role,
            text: self.text@,
            title: opt_text(self.tool_title),
            diff: opt_diff(self.diff),
        }
    }
}

/// What a list of rows holds.
pub open spec fn rows(s: Seq<HistoryRow>) -> Seq<Row> {
    s.map_values(|r: HistoryRow| r@)
}

/// `s` if it takes at most `max` bytes, otherwise as much of its start as one
/// byte less holds, and an ellipsis.
pub open spec fn clipped(s: Seq<char>, max: nat) -> Seq<char> {
    if size(s) <= max {
        s
    } else {
        fit(s, if max == 0 { 0 } else { max - 1 }).push('\u{2026}')
    }
}

/// `s` if it takes at most `max` bytes, otherwise as much of its start as one
/// byte less holds, and an ellipsis.
pub fn truncate(s: &str, max: usize) -> (r: String)
    ensures
        r@ == clipped(s@, max as nat),
{
    if byte_len(s) <= max {
        return own(s);
    }
    let room: usize = if max == 0 {
        0
    } else {
        max - 1
    };
    let mut out: String = fit_prefix(s, room);
    out.push('\u{2026}');
    out
}

/// What is shown of a user's message: what stands between the query marks, if
/// they are there in order and not empty, otherwise the message, of a long one
/// the end.
pub open spec fn without_noise(raw: Seq<char>) -> Seq<char> {
    match (find_in(raw, "<user_query>"@), find_in(raw, "</user_query>"@)) {
        (Some(a), Some(b)) => {
            let inner = trimmed(raw.subrange(a + "<user_query>"@.len(), b));
            if b > a && inner.len() > 0 {
                inner
            } else {
                shown_end(trimmed(raw))
            }
        },
        _ => shown_end(trimmed(raw)),
    }
}

/// `t`, or the end of it if it is long.
pub open spec fn shown_end(t: Seq<char>) -> Seq<char> {
    if size(t) > NOISE_MAX {
        let k = if t.len() > NOISE_TAIL {
            t.len() - NOISE_TAIL
        } else {
            0
        };
        seq!['\u{2026}'] + t.skip(k)
    } else {
        t
    }
}

/// The closing mark cannot begin inside the opening one.
proof fn lemma_marks(raw: Seq<char>, a: int, b: int)
    requires
        stands_at(raw, "<user_query>"@, a),
        stands_at(raw, "</user_query>"@, b),
        a < b,
    ensures
        a + "<user_query>"@.len() <= b,
{
    reveal_strlit("<user_query>");
    reveal_strlit("</user_query>");
    if b < a + "<user_query>"@.len() {
        let i = b - a;
        assert(raw.subrange(a, a + "<user_query>"@.len())[i] == raw[b]);
        assert(raw.subrange(b, b + "</user_query>"@.len())[0] == raw[b]);
        assert(raw[b] == '<');
        assert("<user_query>"@[i] != '<');
    }
}

/// What is shown of a user's message.
pub fn strip_env_noise(raw: &str) -> (r: String)
    ensures
        r@ == without_noise(raw@),
{
    let v: Vec<char> = chars_of(raw);
    proof {
        reveal_strlit("<user_query>");
        lemma_find_from(raw@, "<user_query>"@, 0);
        lemma_find_from(raw@, "</user_query>"@, 0);
    }
    if let Some(a) = find(&v, "<user_query>") {
        if let Some(b) = find(&v, "</user_query>") {
            if b > a {
                proof {
                    lemma_marks(raw@, a as int, b as int);
                }
                let inner: String = trim_part(&v, a + 12, b);
                if !inner.as_str().is_empty() {
                    return inner;
                }
            }
        }
    }
    let t: String = trim(raw);
    if byte_len(t.as_str()) > NOISE_MAX {
        let w: Vec<char> = chars_of(t.as_str());
        let k: usize = if w.len() > NOISE_TAIL {
            w.len() - NOISE_TAIL
        } else {
            0
        };
        let tail: String = string_of(&w, k, w.len());
        let mut out: String = String::new();
        out.push('\u{2026}');
        out.push_str(tail.as_str());
        proof {
            assert(t@.subrange(k as int, t@.len() as int) =~= t@.skip(k as int));
            assert(Seq::<char>::empty().push('\u{2026}') =~= seq!['\u{2026}']);
        }
        return out;
    }
    t
}

/// The value under the first of three keys that an object has.
pub open spec fn first_of_three(
    t: Tree,
    a: Seq<char>,
    b: Seq<char>,
    c: Seq<char>,
) -> Option<Tree> {
    match t.either(a, b) {
        Some(x) => Some(x),
        None => t.get(c),
    }
}

/// The text of an optional value.
pub open spec fn text_of(o: Option<Tree>) -> Option<Seq<char>> {
    match o {
        Some(t) => t.as_text(),
        None => None,
    }
}

/// The change that a tool's arguments describe: they name a file, and what to
/// take out or put in.
pub open spec fn args_change(raw: Tree) -> Option<Change> {
    let path = filled(text_of(first_of_three(raw, "file_path"@, "filePath"@, "path"@)));
    let old = or_empty(text_of(first_of_three(raw, "old_string"@, "oldString"@, "oldText"@)));
    let new = or_empty(
        text_of(
            match first_of_three(raw, "new_string"@, "newString"@, "newText"@) {
                Some(x) => Some(x),
                None => raw.get("content"@),
            },
        ),
    );
    match path {
        Some(p) => if old.len() == 0 && new.len() == 0 {
            None
        } else {
            Some(Change { path: p, old, new })
        },
        None => None,
    }
}

/// The value under the first of three keys that an object has.
fn one_of_three<'a>(j: &'a Json, a: &str, b: &str, c: &str) -> (r: Option<&'a Json>)
    ensures
        match r {
            Some(x) => first_of_three(j@, a@, b@, c@) == Some(x@),
            None => first_of_three(j@, a@, b@, c@) is None,
        },
{
    match j.either(a, b) {
        Some(x) => Some(x),
        None => j.get(c),
    }
}

/// The text of an optional value, or nothing.
fn text_in(o: Option<&Json>) -> (r: &str)
    ensures
        o matches Some(j) ==> r@ == or_empty(j@.as_text()),
        o is None ==> r@ == Seq::<char>::empty(),
{
    proof {
        reveal_strlit("");
        assert(""@ =~= Seq::<char>::empty());
    }
    match o {
        Some(j) => text_or(j.as_str(), ""),
        None => "",
    }
}

/// The change that a tool's arguments describe.
pub fn tool_args_diff_value(raw: &Json) -> (r: Option<Diff>)
    ensures
        opt_diff(r) == args_change(raw@),
{
    let path: &str = text_in(one_of_three(raw, "file_path", "filePath", "path"));
    if path.is_empty() {
        return None;
    }
    let old: &str = text_in(one_of_three(raw, "old_string", "oldString", "oldText"));
    let new: &str = text_in(
        match one_of_three(raw, "new_string", "newString", "newText") {
            Some(x) => Some(x),
            None => raw.get("content"),
        },
    );
    if old.is_empty() && new.is_empty() {
        return None;
    }
    Some(Diff { path: own(path), old: own(old), new: own(new) })
}

/// The change that the text of a tool's arguments describes.
pub open spec fn args_text_change(args: Seq<char>) -> Option<Change> {
    match parsed(args) {
        Some(t) => args_change(t),
        None => None,
    }
}

/// The change that the text of a tool's arguments describes.
pub fn tool_args_diff(args: &str) -> (r: Option<Diff>)
    ensures
        opt_diff(r) == args_text_change(args@),
{
    match parse_json(args) {
        Some(j) => tool_args_diff_value(&j),
        None => None,
    }
}

/// The first change found in the content of an update.
pub open spec fn content_change(t: Tree) -> Option<Change>
    decreases t, 0int,
{
    match t {
        Tree::Array(s) => first_change(s, 0),
        Tree::Object(m) => if ascii_lower(or_empty(t.get_str("type"@))) == "diff"@ {
            match filled(t.either_str("path"@, "filePath"@)) {
                Some(p) => Some(
                    Change {
                        path: p,
                        old: or_empty(t.either_str("oldText"@, "old_text"@)),
                        new: or_empty(t.either_str("newText"@, "new_text"@)),
                    },
                ),
                None => None,
            }
        } else if m.contains_key("content"@) {
            content_change(m["content"@])
        } else {
            None
        },
        _ => None,
    }
}

/// The first change found from the `i`th item on.
pub open spec fn first_change(s: Seq<Tree>, i: int) -> Option<Change>
    decreases s, s.len() - i,
{
    if i < 0 || i >= s.len() {
        None
    } else {
        match content_change(s[i]) {
            Some(c) => Some(c),
            None => first_change(s, i + 1),
        }
    }
}

/// The first change found in the content of an update.
pub fn content_diff(content: &Json) -> (r: Option<Diff>)
    ensures
        opt_diff(r) == content_change(content@),
    decreases content,
{
    match content {
        Json::Array(v) => {
            proof {
                crate::json::lemma_array_view(*v);
            }
            let mut i: usize = 0;
            while i < v.len()
                invariant
                    *content == Json::Array(*v),
                    content@ == Tree::Array(trees(v@)),
                    i <= v@.len(),
                    content_change(content@) == first_change(trees(v@), i as int),
                decreases v@.len() - i,
            {
                proof {
                    assert(decreases_to!(*content => content->Array_0));
                    assert(decreases_to!(*v => v@));
                    assert(decreases_to!(v@ => v@[i as int]));
                    assert(trees(v@)[i as int] == v@[i as int]@);
                }
                let found: Option<Diff> = content_diff(&v[i]);
                if found.is_some() {
                    return found;
                }
                i = i + 1;
            }
            None
        },
        Json::Object(_) => {
            let kind: String = to_ascii_lower(text_or(content.get_str("type"), ""));
            proof {
                reveal_strlit("");
                assert(""@ =~= Seq::<char>::empty());
            }
            if text_eq(kind.as_str(), "diff") {
                let path: &str = text_or(content.either_str("path", "filePath"), "");
                if path.is_empty() {
                    return None;
                }
                let old: &str = text_or(content.either_str("oldText", "old_text"), "");
                let new: &str = text_or(content.either_str("newText", "new_text"), "");
                Some(Diff { path: own(path), old: own(old), new: own(new) })
            } else {
                match content.get("content") {
                    Some(inner) => content_diff(inner),
                    None => None,
                }
            }
        },
        _ => None,
    }
}

/// The change that a tool update describes: in its content, otherwise in the
/// tool's arguments.
pub open spec fn update_change(update: Tree) -> Option<Change> {
    let found = match update.get("content"@) {
        Some(c) => content_change(c),
        None => None,
    };
    match found {
        Some(c) => Some(c),
        None => match update.either("rawInput"@, "raw_input"@) {
            Some(raw) => args_change(raw),
            None => None,
        },
    }
}

/// The change that a tool update describes.
pub fn extract_diff(update: &Json) -> (r: Option<Diff>)
    ensures
        opt_diff(r) == update_change(update@),
{
    if let Some(c) = update.get("content") {
        let found: Option<Diff> = content_diff(c);
        if found.is_some() {
            return found;
        }
    }
    match update.either("rawInput", "raw_input") {
        Some(raw) => tool_args_diff_value(raw),
        None => None,
    }
}

/// A row without tool or change.
pub open spec fn plain_row(role: Role, text: Seq<char>) -> Row {
    Row { role, text, title: None, diff: None }
}

/// A change with both sides cut to what a row holds.
pub open spec fn shown_change(c: Change) -> Change {
    Change {
        path: c.path,
        old: clipped(c.old, DIFF_TEXT_MAX as nat),
        new: clipped(c.new, DIFF_TEXT_MAX as nat),
    }
}

/// The row with the change, if there is one, in place of any other.
pub open spec fn with_change(r: Row, c: Option<Change>) -> Row {
    match c {
        Some(x) => Row { diff: Some(shown_change(x)), ..r },
        None => r,
    }
}

/// A row.
pub fn history_row(role: Role, text: &str, tool_title: Option<&str>) -> (r: HistoryRow)
    ensures
        r@.role == role,
        r@.text == text@,
        r@.title == (match tool_title {
            Some(t) => Some(t@),
            None => None,
        }),
        r@.diff is None,
{
    let title: Option<String> = match tool_title {
        Some(t) => Some(own(t)),
        None => None,
    };
    HistoryRow { role, text: own(text), tool_title: title, diff: None }
}

/// The row with the change, if there is one, in place of any other.
pub fn attach_diff(row: HistoryRow, diff: Option<Diff>) -> (r: HistoryRow)
    ensures
        r@ == with_change(row@, opt_diff(diff)),
{
    match diff {
        Some(d) => {
            let old: String = truncate(d.old.as_str(), DIFF_TEXT_MAX);
            let new: String = truncate(d.new.as_str(), DIFF_TEXT_MAX);
            HistoryRow {
                role: row.role,
                text: row.text,
                tool_title: row.tool_title,
                diff: Some(Diff { path: d.path, old, new }),
            }
        },
        None => row,
    }
}

/// The texts of the blocks that have one.
pub open spec fn block_texts(blocks: Seq<Tree>) -> Seq<Seq<char>>
    decreases blocks.len(),
{
    if blocks.len() == 0 {
        Seq::empty()
    } else {
        match blocks.last().get_str("text"@) {
            Some(t) => block_texts(blocks.drop_last()).push(t),
            None => block_texts(blocks.drop_last()),
        }
    }
}

/// The texts of the blocks that have one, a line break between each two.
fn join_blocks(blocks: &Vec<Json>) -> (r: String)
    ensures
        r@ == joined(block_texts(trees(blocks@)), "\n"@),
{
    let mut parts: Vec<String> = Vec::new();
    let mut i: usize = 0;
    proof {
        assert(texts(parts@) =~= Seq::empty());
        assert(trees(blocks@).take(0) =~= Seq::empty());
    }
    while i < blocks.len()
        invariant
            i <= blocks@.len(),
            texts(parts@) == block_texts(trees(blocks@).take(i as int)),
        decreases blocks@.len() - i,
    {
        proof {
            assert(trees(blocks@).take(i + 1).drop_last() =~= trees(blocks@).take(i as int));
            assert(trees(blocks@).take(i + 1).last() == blocks@[i as int]@);
        }
        if let Some(t) = blocks[i].get_str("text") {
            let ghost before = texts(parts@);
            parts.push(own(t));
            proof {
                assert(texts(parts@) =~= before.push(t@));
            }
        }
        i = i + 1;
    }
    proof {
        assert(trees(blocks@).take(i as int) =~= trees(blocks@));
    }
    join(&parts, "\n")
}

/// What a user's message says: a text, or the texts of its blocks.
pub open spec fn user_text(content: Option<Tree>) -> Seq<char> {
    match content {
        Some(Tree::Str(s)) => s,
        Some(Tree::Array(blocks)) => joined(block_texts(blocks), "\n"@),
        _ => Seq::empty(),
    }
}

/// What a user's message says.
pub fn extract_user_text(content: Option<&Json>) -> (r: String)
    ensures
        r@ == user_text(
            match content {
                Some(j) => Some(j@),
                None => None,
            },
        ),
{
    match content {
        Some(Json::Str(s)) => own(s.as_str()),
        Some(Json::Array(blocks)) => {
            proof {
                crate::json::lemma_array_view(*blocks);
            }
            join_blocks(blocks)
        },
        _ => String::new(),
    }
}

/// What a reasoning entry says.
pub open spec fn reasoning(entry: Tree) -> Seq<char> {
    match entry.get("summary"@) {
        Some(Tree::Array(blocks)) => joined(block_texts(blocks), "\n"@),
        _ => Seq::empty(),
    }
}

/// What a reasoning entry says.
pub fn extract_reasoning(entry: &Json) -> (r: String)
    ensures
        r@ == reasoning(entry@),
{
    match entry.get("summary") {
        Some(Json::Array(blocks)) => {
            proof {
                crate::json::lemma_array_view(*blocks);
            }
            join_blocks(blocks)
        },
        _ => String::new(),
    }
}

/// The arguments of a tool, as text.
pub open spec fn args_shown(args: Option<Tree>) -> Seq<char> {
    match args {
        Some(a) => or_text(a.as_text(), printed(a)),
        None => Seq::empty(),
    }
}

/// The row of a tool that the assistant called.
pub open spec fn call_row(tool: Tree) -> Row {
    let args = tool.get("arguments"@);
    let preview = clipped(args_shown(args), TOOL_TEXT_MAX as nat);
    let row = Row {
        role: Role::Tool,
        text: if preview.len() == 0 {
            "called"@
        } else {
            preview
        },
        title: Some(or_text(tool.get_str("name"@), "tool"@)),
        diff: None,
    };
    with_change(
        row,
        match args {
            Some(a) => match a.as_text() {
                Some(s) => args_text_change(s),
                None => args_change(a),
            },
            None => None,
        },
    )
}

/// The row of a tool that the assistant called.
fn tool_row(tool: &Json) -> (r: HistoryRow)
    ensures
        r@ == call_row(tool@),
{
    let name: &str = text_or(tool.get_str("name"), "tool");
    let args: Option<&Json> = tool.get("arguments");
    let shown: String = match args {
        Some(a) => match a.as_str() {
            Some(s) => own(s),
            None => json_text(a),
        },
        None => String::new(),
    };
    let diff: Option<Diff> = match args {
        Some(a) => match a.as_str() {
            Some(s) => tool_args_diff(s),
            None => tool_args_diff_value(a),
        },
        None => None,
    };
    let preview: String = truncate(shown.as_str(), TOOL_TEXT_MAX);
    let text: &str = if preview.as_str().is_empty() {
        "called"
    } else {
        preview.as_str()
    };
    attach_diff(history_row(Role::Tool, text, Some(name)), diff)
}

/// The rows of one entry of a chat history.
pub open spec fn chat_rows(entry: Tree) -> Seq<Row> {
    let kind = or_empty(entry.get_str("type"@));
    let body = trimmed(or_empty(entry.get_str("content"@)));
    if kind == "user"@ {
        let said = without_noise(user_text(entry.get("content"@)));
        if said.len() == 0 {
            Seq::empty()
        } else {
            seq![plain_row(Role::User, said)]
        }
    } else if kind == "assistant"@ {
        let calls = match entry.get("tool_calls"@) {
            Some(Tree::Array(tools)) => tools.map_values(|t: Tree| call_row(t)),
            _ => Seq::empty(),
        };
        if body.len() == 0 {
            calls
        } else {
            calls.push(plain_row(Role::Assistant, clipped(body, HISTORY_TEXT_MAX as nat)))
        }
    } else if kind == "reasoning"@ {
        let thought = reasoning(entry);
        if thought.len() == 0 {
            Seq::empty()
        } else {
            seq![plain_row(Role::Thought, clipped(thought, HISTORY_TEXT_MAX as nat))]
        }
    } else if kind == "tool_result"@ {
        if body.len() == 0 {
            Seq::empty()
        } else {
            seq![
                Row {
                    title: Some("result"@),
                    ..plain_row(Role::Tool, clipped(body, TOOL_TEXT_MAX as nat))
                },
            ]
        }
    } else {
        Seq::empty()
    }
}

/// The rows of one entry of a chat history.
pub fn chat_entry(entry: &Json) -> (r: Vec<HistoryRow>)
    ensures
        rows(r@) == chat_rows(entry@),
{
    let mut out: Vec<HistoryRow> = Vec::new();
    let kind: &str = text_or(entry.get_str("type"), "");
    let body: String = trim(text_or(entry.get_str("content"), ""));
    proof {
        reveal_strlit("");
        assert(""@ =~= Seq::<char>::empty());
        assert(rows(out@) =~= Seq::empty());
        reveal_strlit("user");
        reveal_strlit("assistant");
        reveal_strlit("reasoning");
        reveal_strlit("tool_result");
    }
    if text_eq(kind, "user") {
        let said: String = strip_env_noise(extract_user_text(entry.get("content")).as_str());
        if !said.as_str().is_empty() {
            out.push(history_row(Role::User, said.as_str(), None));
        }
    } else if text_eq(kind, "assistant") {
        if let Some(Json::Array(tools)) = entry.get("tool_calls") {
            proof {
                crate::json::lemma_array_view(*tools);
            }
            let mut i: usize = 0;
            while i < tools.len()
                invariant
                    i <= tools@.len(),
                    rows(out@) == trees(tools@).take(i as int).map_values(|t: Tree| call_row(t)),
                decreases tools@.len() - i,
            {
                let ghost before = rows(out@);
                let row: HistoryRow = tool_row(&tools[i]);
                out.push(row);
                proof {
                    assert(rows(out@) =~= before.push(row@));
                    assert(trees(tools@)[i as int] == tools@[i as int]@);
                    assert(rows(out@) =~= trees(tools@).take(i + 1).map_values(
                        |t: Tree| call_row(t),
                    ));
                }
                i = i + 1;
            }
            proof {
                assert(trees(tools@).take(i as int) =~= trees(tools@));
            }
        }
        if !body.as_str().is_empty() {
            let ghost before = rows(out@);
            let text: String = truncate(body.as_str(), HISTORY_TEXT_MAX);
            let row: HistoryRow = history_row(Role::Assistant, text.as_str(), None);
            out.push(row);
            proof {
                assert(rows(out@) =~= before.push(row@));
            }
        }
    } else if text_eq(kind, "reasoning") {
        let thought: String = extract_reasoning(entry);
        if !thought.as_str().is_empty() {
            let text: String = truncate(thought.as_str(), HISTORY_TEXT_MAX);
            out.push(history_row(Role::Thought, text.as_str(), None));
        }
    } else if text_eq(kind, "tool_result") {
        if !body.as_str().is_empty() {
            let text: String = truncate(body.as_str(), TOOL_TEXT_MAX);
            out.push(history_row(Role::Tool, text.as_str(), Some("result")));
        }
    }
    proof {
        assert(rows(out@) =~= chat_rows(entry@));
    }
    out
}

/// The rows of the lines of a chat history. A line that is not JSON has none.
pub open spec fn chat_history(lines: Seq<Seq<char>>) -> Seq<Row>
    decreases lines.len(),
{
    if lines.len() == 0 {
        Seq::empty()
    } else {
        chat_history(lines.drop_last()) + match parsed(lines.last()) {
            Some(entry) => chat_rows(entry),
            None => Seq::empty(),
        }
    }
}

/// The rows of a chat history, of its text.
pub fn parse_chat_history(text: &str) -> (r: Vec<HistoryRow>)
    ensures
        rows(r@) == chat_history(lines_of(text@)),
{
    let all: Vec<String> = lines(text);
    let ghost whole = texts(all@);
    let mut out: Vec<HistoryRow> = Vec::new();
    let mut i: usize = 0;
    proof {
        assert(whole.take(0) =~= Seq::empty());
        assert(rows(out@) =~= Seq::empty());
    }
    while i < all.len()
        invariant
            i <= all@.len(),
            whole == texts(all@),
            rows(out@) == chat_history(whole.take(i as int)),
        decreases all@.len() - i,
    {
        proof {
            assert(whole.take(i + 1).drop_last() =~= whole.take(i as int));
            assert(whole.take(i + 1).last() == all@[i as int]@);
        }
        let ghost before = rows(out@);
        if let Some(entry) = parse_json(all[i].as_str()) {
            let mut some: Vec<HistoryRow> = chat_entry(&entry);
            out.append(&mut some);
            proof {
                assert(rows(out@) =~= before + chat_rows(entry@));
            }
        } else {
            proof {
                assert(before + Seq::<Row>::empty() =~= before);
            }
        }
        i = i + 1;
    }
    proof {
        assert(whole.take(i as int) =~= whole);
    }
    out
}

/// A transcript as it is put together from updates: the rows so far, and the
/// message that still grows.
pub struct Draft {
    pub rows: Vec<HistoryRow>,
    pub role: Option<Role>,
    pub buf: String,
}

/// A transcript as it is put together, as mathematics.
pub struct Sketch {
    pub rows: Seq<Row>,
    pub role: Option<Role>,
    pub buf: Seq<char>,
}

impl View for Draft {
    type V = Sketch;

    open spec fn view(&self) -> Sketch {
        Sketch { rows: rows(self.rows@), role: self.role, buf: self.buf@ }
    }
}

impl Sketch {
    /// Nothing yet.
    pub open spec fn start() -> Sketch {
        Sketch { rows: Seq::empty(), role: None, buf: Seq::empty() }
    }

    /// With the growing message closed: a row if it says anything.
    pub open spec fn flushed(self) -> Sketch {
        let said = trimmed(self.buf);
        Sketch {
            rows: match self.role {
                Some(r) => if said.len() == 0 {
                    self.rows
                } else {
                    self.rows.push(plain_row(r, clipped(said, HISTORY_TEXT_MAX as nat)))
                },
                None => self.rows,
            },
            role: None,
            buf: Seq::empty(),
        }
    }

    /// With a piece of a message added: to the growing one if it is from the
    /// same side, otherwise to a new one.
    pub open spec fn spoken(self, role: Role, chunk: Seq<char>) -> Sketch {
        if self.role == Some(role) {
            Sketch { buf: self.buf + chunk, ..self }
        } else {
            Sketch { rows: self.flushed().rows, role: Some(role), buf: chunk }
        }
    }

    /// With a row for a tool that was called.
    pub open spec fn called(self, update: Tree) -> Sketch {
        let row = Row {
            title: Some(or_text(update.get_str("title"@), "Tool"@)),
            ..plain_row(Role::Tool, or_text(update.get_str("status"@), "ran"@))
        };
        let f = self.flushed();
        Sketch { rows: f.rows.push(with_change(row, update_change(update))), ..f }
    }

    /// With what became of a tool, if the last row is one.
    pub open spec fn reported(self, update: Tree) -> Sketch {
        if self.rows.len() > 0 && self.rows.last().role == Role::Tool {
            let last = self.rows.last();
            let row = Row { text: or_text(update.get_str("status"@), last.text), ..last };
            Sketch {
                rows: self.rows.drop_last().push(with_change(row, update_change(update))),
                ..self
            }
        } else {
            self
        }
    }

    /// With one update.
    pub open spec fn updated(self, update: Tree) -> Sketch {
        let kind = or_empty(text_of(update.either("sessionUpdate"@, "session_update"@)));
        let chunk = or_empty(
            text_of(
                match update.get_in("content"@, "text"@) {
                    Some(t) => Some(t),
                    None => update.get("text"@),
                },
            ),
        );
        if kind == "user_message_chunk"@ {
            self.spoken(Role::User, chunk)
        } else if kind == "agent_thought_chunk"@ {
            self.spoken(Role::Thought, chunk)
        } else if kind == "agent_message_chunk"@ || kind == "agent_message"@ {
            self.spoken(Role::Assistant, chunk)
        } else if kind == "tool_call"@ {
            self.called(update)
        } else if kind == "tool_call_update"@ {
            self.reported(update)
        } else {
            self
        }
    }

    /// With one recorded message. Those that are no updates change nothing.
    pub open spec fn recorded(self, entry: Tree) -> Sketch {
        if ends(or_empty(entry.get_str("method"@)), "session/update"@) {
            self.updated(
                match entry.get_in("params"@, "update"@) {
                    Some(u) => u,
                    None => obj(),
                },
            )
        } else {
            self
        }
    }

    /// With the lines of a record. A line that is not JSON changes nothing.
    pub open spec fn read(self, lines: Seq<Seq<char>>) -> Sketch
        decreases lines.len(),
    {
        if lines.len() == 0 {
            self
        } else {
            let before = self.read(lines.drop_last());
            match parsed(lines.last()) {
                Some(entry) => before.recorded(entry),
                None => before,
            }
        }
    }
}

impl Draft {
    /// Nothing yet.
    pub fn new() -> (r: Draft)
        ensures
            r@ == Sketch::start(),
    {
        let d: Draft = Draft { rows: Vec::new(), role: None, buf: String::new() };
        proof {
            assert(d@.rows =~= Seq::empty());
            assert(d@.buf =~= Seq::empty());
        }
        d
    }

    /// Adds a row.
    fn push(&mut self, row: HistoryRow)
        ensures
            final(self)@ == (Sketch { rows: old(self)@.rows.push(row@), ..old(self)@ }),
    {
        let ghost before = self@;
        self.rows.push(row);
        proof {
            assert(self@.rows =~= before.rows.push(row@));
        }
    }

    /// Closes the growing message.
    pub fn flush(&mut self)
        ensures
            final(self)@ == old(self)@.flushed(),
    {
        let said: String = trim(self.buf.as_str());
        if let Some(r) = self.role {
            if !said.as_str().is_empty() {
                let text: String = truncate(said.as_str(), HISTORY_TEXT_MAX);
                self.push(history_row(r, text.as_str(), None));
            }
        }
        self.role = None;
        self.buf = String::new();
        proof {
            assert(self.buf@ =~= Seq::empty());
        }
    }

    /// Adds a piece of a message.
    pub fn speak(&mut self, role: Role, chunk: &str)
        ensures
            final(self)@ == old(self)@.spoken(role, chunk@),
    {
        let same: bool = match self.role {
            Some(r) => r == role,
            None => false,
        };
        if !same {
            self.flush();
            self.role = Some(role);
        }
        self.buf.push_str(chunk);
        proof {
            assert(Seq::<char>::empty() + chunk@ =~= chunk@);
        }
    }

    /// Adds a row for a tool that was called.
    pub fn call(&mut self, update: &Json)
        ensures
            final(self)@ == old(self)@.called(update@),
    {
        self.flush();
        let title: &str = text_or(update.get_str("title"), "Tool");
        let status: &str = text_or(update.get_str("status"), "ran");
        self.push(attach_diff(history_row(Role::Tool, status, Some(title)), extract_diff(update)));
    }

    /// Notes what became of a tool.
    pub fn report(&mut self, update: &Json)
        ensures
            final(self)@ == old(self)@.reported(update@),
    {
        let n: usize = self.rows.len();
        if n == 0 || self.rows[n - 1].role != Role::Tool {
            return;
        }
        let ghost before = self@;
        if let Some(last) = self.rows.pop() {
            proof {
                assert(last@ == before.rows.last());
                assert(self@.rows =~= before.rows.drop_last());
            }
            let text: String = match update.get_str("status") {
                Some(s) => own(s),
                None => last.text,
            };
            let row: HistoryRow = HistoryRow {
                role: last.role,
                text,
                tool_title: last.tool_title,
                diff: last.diff,
            };
            self.push(attach_diff(row, extract_diff(update)));
        }
    }

    /// Takes one update in.
    pub fn update(&mut self, update: &Json)
        ensures
            final(self)@ == old(self)@.updated(update@),
    {
        let kind: &str = text_in(update.either("sessionUpdate", "session_update"));
        let chunk: &str = text_in(
            match update.get_in("content", "text") {
                Some(t) => Some(t),
                None => update.get("text"),
            },
        );
        if text_eq(kind, "user_message_chunk") {
            self.speak(Role::User, chunk);
        } else if text_eq(kind, "agent_thought_chunk") {
            self.speak(Role::Thought, chunk);
        } else if text_eq(kind, "agent_message_chunk") || text_eq(kind, "agent_message") {
            self.speak(Role::Assistant, chunk);
        } else if text_eq(kind, "tool_call") {
            self.call(update);
        } else if text_eq(kind, "tool_call_update") {
            self.report(update);
        }
    }

    /// Takes one recorded message in.
    pub fn record(&mut self, entry: &Json)
        ensures
            final(self)@ == old(self)@.recorded(entry@),
    {
        let method: &str = text_in(entry.get("method"));
        if ends_with(method, "session/update") {
            match entry.get_in("params", "update") {
                Some(u) => self.update(u),
                None => self.update(&Json::object()),
            }
        }
    }
}

/// A row as it is shown: a user's message without what was wrapped round it.
pub open spec fn cleaned(r: Row) -> Row {
    if r.role == Role::User {
        Row { text: without_noise(r.text), ..r }
    } else {
        r
    }
}

/// The rows as they are shown, without those that say nothing.
pub open spec fn shown_rows(s: Seq<Row>) -> Seq<Row> {
    s.map_values(|r: Row| cleaned(r)).filter(|r: Row| r.text.len() > 0)
}

/// The rows of the lines of a record of updates.
pub open spec fn update_history(lines: Seq<Seq<char>>) -> Seq<Row> {
    shown_rows(Sketch::start().read(lines).flushed().rows)
}

/// The rows as they are shown, without those that say nothing.
fn show_rows(all: Vec<HistoryRow>) -> (r: Vec<HistoryRow>)
    ensures
        rows(r@) == shown_rows(rows(all@)),
{
    let ghost whole = rows(all@);
    let ghost elements = all@;
    let ghost wash = |r: Row| cleaned(r);
    let ghost says = |r: Row| r.text.len() > 0;
    let mut out: Vec<HistoryRow> = Vec::new();
    proof {
        assert(whole.take(0).map_values(wash).filter(says) =~= Seq::empty()) by {
            reveal(Seq::filter);
        }
        assert(rows(out@) =~= Seq::empty());
    }
    for row in it: all
        invariant
            it.seq() == elements,
            whole == rows(elements),
            wash == (|r: Row| cleaned(r)),
            says == (|r: Row| r.text.len() > 0),
            rows(out@) == whole.take(it.index()).map_values(wash).filter(says),
    {
        let ghost k = it.index();
        let ghost before = rows(out@);
        proof {
            assert(whole[k] == row@);
            let next = whole.take(k + 1).map_values(wash);
            assert(next.drop_last() =~= whole.take(k).map_values(wash));
            assert(next.last() == cleaned(row@));
            reveal(Seq::filter);
        }
        let text: String = match row.role {
            Role::User => strip_env_noise(row.text.as_str()),
            _ => row.text,
        };
        if !text.as_str().is_empty() {
            let kept: HistoryRow = HistoryRow {
                role: row.role,
                text,
                tool_title: row.tool_title,
                diff: row.diff,
            };
            out.push(kept);
            proof {
                assert(kept@ == cleaned(row@));
                assert(rows(out@) =~= before.push(kept@));
            }
        }
    }
    proof {
        assert(whole.take(elements.len() as int) =~= whole);
    }
    out
}

/// The rows of a record of updates, of its text.
pub fn parse_updates(text: &str) -> (r: Vec<HistoryRow>)
    ensures
        rows(r@) == update_history(lines_of(text@)),
{
    let all: Vec<String> = lines(text);
    let ghost whole = texts(all@);
    let mut draft: Draft = Draft::new();
    let mut i: usize = 0;
    proof {
        assert(whole.take(0) =~= Seq::empty());
    }
    while i < all.len()
        invariant
            i <= all@.len(),
            whole == texts(all@),
            draft@ == Sketch::start().read(whole.take(i as int)),
        decreases all@.len() - i,
    {
        proof {
            assert(whole.take(i + 1).drop_last() =~= whole.take(i as int));
            assert(whole.take(i + 1).last() == all@[i as int]@);
        }
        if let Some(entry) = parse_json(all[i].as_str()) {
            draft.record(&entry);
        }
        i = i + 1;
    }
    proof {
        assert(whole.take(i as int) =~= whole);
    }
    draft.flush();
    show_rows(draft.rows)
}

/// The last `n` of a sequence, or all of it.
pub open spec fn tail<A>(s: Seq<A>, n: int) -> Seq<A> {
    if s.len() > n {
        s.skip(s.len() - n)
    } else {
        s
    }
}

/// The last `limit` rows, or all of them.
pub fn take_last(msgs: Vec<HistoryRow>, limit: usize) -> (r: Vec<HistoryRow>)
    ensures
        r@ == tail(msgs@, limit as int),
{
    let n: usize = msgs.len();
    if n > limit {
        let mut all: Vec<HistoryRow> = msgs;
        let end: Vec<HistoryRow> = all.split_off(n - limit);
        proof {
            assert(end@ =~= msgs@.skip(n - limit));
        }
        end
    } else {
        msgs
    }
}

/// How many rows a client gets that asks for `limit`.
pub open spec fn row_limit(limit: nat) -> int {
    if limit == 0 {
        HISTORY_DEFAULT as int
    } else if limit > HISTORY_MAX {
        HISTORY_MAX as int
    } else {
        limit as int
    }
}

/// All the rows there are of a session, oldest first: those of its chat
/// history if that has any, otherwise those of its record of updates.
pub open spec fn all_rows(chat: Option<Seq<char>>, updates: Option<Seq<char>>) -> Seq<Row> {
    let said = match chat {
        Some(t) => chat_history(lines_of(t)),
        None => Seq::empty(),
    };
    if said.len() > 0 {
        said
    } else {
        match updates {
            Some(t) => update_history(lines_of(t)),
            None => Seq::empty(),
        }
    }
}

/// The transcript of a session: the end of its rows.
pub open spec fn transcript(
    chat: Option<Seq<char>>,
    updates: Option<Seq<char>>,
    limit: nat,
) -> Seq<Row> {
    tail(all_rows(chat, updates), row_limit(limit))
}

/// The transcript of a session, from what could be read of its chat history
/// and of its record of updates.
pub fn session_history_in(chat: Option<&str>, updates: Option<&str>, limit: usize) -> (r: Vec<
    HistoryRow,
>)
    ensures
        rows(r@) == transcript(opt_str(chat), opt_str(updates), limit as nat),
{
    let most: usize = if limit == 0 {
        HISTORY_DEFAULT
    } else if limit > HISTORY_MAX {
        HISTORY_MAX
    } else {
        limit
    };
    if let Some(text) = chat {
        let msgs: Vec<HistoryRow> = parse_chat_history(text);
        if msgs.len() > 0 {
            let end: Vec<HistoryRow> = take_last(msgs, most);
            proof {
                assert(rows(tail(msgs@, most as int)) =~= tail(rows(msgs@), most as int));
            }
            return end;
        }
    }
    match updates {
        Some(text) => {
            let msgs: Vec<HistoryRow> = parse_updates(text);
            let end: Vec<HistoryRow> = take_last(msgs, most);
            proof {
                assert(rows(tail(msgs@, most as int)) =~= tail(rows(msgs@), most as int));
            }
            end
        },
        None => {
            let none: Vec<HistoryRow> = Vec::new();
            proof {
                assert(rows(none@) =~= Seq::empty());
            }
            none
        },
    }
}

/// A transcript never has more rows than the most that a client gets, and is
/// the end of all the rows there are.
pub proof fn transcript_is_a_bounded_tail(
    chat: Option<Seq<char>>,
    updates: Option<Seq<char>>,
    limit: nat,
)
    ensures
        transcript(chat, updates, limit).len() <= HISTORY_MAX,
        limit > 0 ==> transcript(chat, updates, limit).len() <= limit,
        transcript(chat, updates, limit).is_suffix_of(all_rows(chat, updates)),
{
}

impl Row {
    /// The row as clients get it.
    pub open spec fn json(self) -> Tree {
        let plain = obj().with("role"@, Tree::Str(self.role.label())).with(
            "text"@,
            Tree::Str(self.text),
        );
        let titled = match self.title {
            Some(t) => plain.with("toolTitle"@, Tree::Str(t)),
            None => plain,
        };
        match self.diff {
            Some(c) => titled.with("diffPath"@, Tree::Str(c.path)).with(
                "oldText"@,
                Tree::Str(c.old),
            ).with("newText"@, Tree::Str(c.new)),
            None => titled,
        }
    }
}

impl HistoryRow {
    /// The row as clients get it.
    pub fn to_json(&self) -> (r: Json)
        ensures
            r@ == self@.json(),
    {
        let plain: Json = Json::object().with("role", Json::text(self.role.name())).with(
            "text",
            Json::text(self.text.as_str()),
        );
        let titled: Json = match &self.tool_title {
            Some(t) => plain.with("toolTitle", Json::text(t.as_str())),
            None => plain,
        };
        match &self.diff {
            Some(d) => titled.with("diffPath", Json::text(d.path.as_str())).with(
                "oldText",
                Json::text(d.old.as_str()),
            ).with("newText", Json::text(d.new.as_str())),
            None => titled,
        }
    }
}

} // verus!
