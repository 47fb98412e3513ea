//! Transcripts: every word of a record that is not noise is in a row, once, in
//! order, and under whoever said it.

use crate::codec::{parsed, printed};
use crate::history::{
    args_change, block_texts, call_row, chat_history, chat_rows, cleaned, clipped, content_change,
    first_change, reasoning, shown_rows, transcript, update_change, update_history, without_noise,
    Change, Role, Row, Sketch,
};
use crate::hosting_laws::lemma_same_filter;
use crate::json::Tree;
use crate::model::{Answer, HubState, World};
use crate::request_laws::method_names_differ;
use crate::text::{
    ascii_lower, ends, fit, fitting_prefix_is_longest, joined, lemma_find_from, lines_of, size,
    stands_at, trimmed,
};
use vstd::prelude::*;

verus! {

/// A text that fits is shown whole. Of one that does not, its longest beginning is
/// shown that leaves a byte free, and an ellipsis.
pub proof fn long_texts_are_cut_at_the_end(s: Seq<char>, max: nat)
    ensures
        size(s) <= max ==> clipped(s, max) == s,
        size(s) > max && max == 0 ==> clipped(s, max) == seq!['\u{2026}'],
        size(s) > max && max > 0 ==> {
            let kept = clipped(s, max).drop_last();
            &&& clipped(s, max).len() > 0
            &&& clipped(s, max).last() == '\u{2026}'
            &&& kept.len() <= s.len() && kept == s.take(kept.len() as int)
            &&& size(kept) <= max - 1
            &&& kept.len() < s.len() ==> size(s.take((kept.len() + 1) as int)) > max - 1
        },
{
    if size(s) > max && max > 0 {
        fitting_prefix_is_longest(s, max - 1);
        assert(clipped(s, max).drop_last() =~= fit(s, max - 1));
    }
    if size(s) > max && max == 0 {
        fitting_prefix_is_longest(s, 0);
        assert(fit(s, 0) =~= Seq::empty()) by {
            if fit(s, 0).len() > 0 {
                let c = fit(s, 0)[0];
                assert(crate::text::width(s[0]) > 0);
            }
        }
        assert(clipped(s, max) =~= seq!['\u{2026}']);
    }
}

/// Whether a message has something to say between its first query marks.
pub open spec fn asks(raw: Seq<char>, a: int, b: int) -> bool {
    &&& stands_at(raw, "<user_query>"@, a)
    &&& forall|k: int| 0 <= k < a ==> !#[trigger] stands_at(raw, "<user_query>"@, k)
    &&& stands_at(raw, "</user_query>"@, b)
    &&& forall|k: int| 0 <= k < b ==> !#[trigger] stands_at(raw, "</user_query>"@, k)
    &&& a < b
    &&& trimmed(raw.subrange(a + 12, b)).len() > 0
}

/// Of a user's message that is wrapped in query marks, what stands between the
/// first ones is shown, without white space round it.
pub proof fn query_is_shown_without_its_wrapping(raw: Seq<char>, a: int, b: int)
    requires
        asks(raw, a, b),
    ensures
        without_noise(raw) == trimmed(raw.subrange(a + 12, b)),
{
    reveal_strlit("<user_query>");
    reveal_strlit("</user_query>");
    lemma_find_from(raw, "<user_query>"@, 0);
    lemma_find_from(raw, "</user_query>"@, 0);
}

/// Any other message of a user is shown without white space round it; of one that
/// takes more than 4000 bytes the last 2000 characters, behind an ellipsis.
pub proof fn plain_message_is_shown(raw: Seq<char>)
    requires
        forall|a: int, b: int| !#[trigger] asks(raw, a, b),
    ensures
        size(trimmed(raw)) <= 4000 ==> without_noise(raw) == trimmed(raw),
        size(trimmed(raw)) > 4000 && trimmed(raw).len() > 2000 ==> without_noise(raw) == seq![
            '\u{2026}',
        ] + trimmed(raw).skip(trimmed(raw).len() - 2000),
        size(trimmed(raw)) > 4000 && trimmed(raw).len() <= 2000 ==> without_noise(raw) == seq![
            '\u{2026}',
        ] + trimmed(raw),
{
    reveal_strlit("<user_query>");
    lemma_find_from(raw, "<user_query>"@, 0);
    lemma_find_from(raw, "</user_query>"@, 0);
    assert(trimmed(raw).skip(0) =~= trimmed(raw));
    if let (Some(a), Some(b)) = (
        crate::text::find_in(raw, "<user_query>"@),
        crate::text::find_in(raw, "</user_query>"@),
    ) {
        assert(!asks(raw, a, b));
    }
}

/// What kind of update a side's words come as.
pub open spec fn words_kind(role: Role, kind: Seq<char>) -> bool {
    match role {
        Role::User => kind == "user_message_chunk"@,
        Role::Thought => kind == "agent_thought_chunk"@,
        Role::Assistant => kind == "agent_message_chunk"@ || kind == "agent_message"@,
        Role::Tool => false,
    }
}

/// What kind of update one is, nothing if it does not say.
pub open spec fn kind_of(update: Tree) -> Seq<char> {
    match (update.get("sessionUpdate"@), update.get("session_update"@)) {
        (Some(Tree::Str(kind)), _) => kind,
        (None, Some(Tree::Str(kind))) => kind,
        _ => Seq::empty(),
    }
}

/// The words in an update: the text of its content, or else its own.
pub open spec fn words_in(update: Tree) -> Seq<char> {
    let inner = match update.get("content"@) {
        Some(c) => c.get("text"@),
        None => None,
    };
    match (inner, update.get("text"@)) {
        (Some(Tree::Str(s)), _) => s,
        (None, Some(Tree::Str(s))) => s,
        _ => Seq::empty(),
    }
}

/// Whether an update is a piece of what a side says.
pub open spec fn says(update: Tree, role: Role, piece: Seq<char>) -> bool {
    words_kind(role, kind_of(update)) && words_in(update) == piece
}

/// Whether an update is that a tool was called.
pub open spec fn calls(update: Tree) -> bool {
    kind_of(update) == "tool_call"@
}

/// A part of a record: what one side says without a break, in pieces, or a tool's
/// call.
pub enum Turn {
    Talk(Role, Seq<Seq<char>>),
    Tool(Tree),
}

/// Whether some updates are a part of a record.
pub open spec fn told_by(turn: Turn, updates: Seq<Tree>) -> bool {
    match turn {
        Turn::Talk(role, pieces) => {
            &&& pieces.len() == updates.len()
            &&& pieces.len() > 0
            &&& forall|i: int| 0 <= i < pieces.len() ==> says(#[trigger] updates[i], role, pieces[i])
        },
        Turn::Tool(update) => updates == seq![update] && calls(update),
    }
}

/// The rows of a part of a record: one for what a side says, unless that is blank,
/// and one for a tool's call, with the tool's title and state and with the change
/// that it makes to a file.
pub open spec fn turn_rows(turn: Turn) -> Seq<Row> {
    match turn {
        Turn::Talk(role, pieces) => {
            let said = trimmed(pieces.flatten());
            if said.len() == 0 {
                Seq::empty()
            } else {
                seq![Row { role, text: clipped(said, 8000), title: None, diff: None }]
            }
        },
        Turn::Tool(update) => seq![
            Row {
                role: Role::Tool,
                text: match update.get("status"@) {
                    Some(Tree::Str(s)) => s,
                    _ => "ran"@,
                },
                title: Some(
                    match update.get("title"@) {
                        Some(Tree::Str(s)) => s,
                        _ => "Tool"@,
                    },
                ),
                diff: match update_change(update) {
                    Some(c) => Some(
                        Change {
                            path: c.path,
                            old: clipped(c.old, 4000),
                            new: clipped(c.new, 4000),
                        },
                    ),
                    None => None,
                },
            },
        ],
    }
}

/// The rows of all parts of a record, one behind the other.
pub open spec fn turns_rows(turns: Seq<Turn>) -> Seq<Row>
    decreases turns.len(),
{
    if turns.len() == 0 {
        Seq::empty()
    } else {
        turns_rows(turns.drop_last()) + turn_rows(turns.last())
    }
}

/// The side that speaks in a part of a record, if one does.
pub open spec fn speaker(turn: Turn) -> Option<Role> {
    match turn {
        Turn::Talk(role, _) => Some(role),
        Turn::Tool(_) => None,
    }
}

/// Whether no side follows itself: what it says without a break is one part.
pub open spec fn unbroken(turns: Seq<Turn>) -> bool {
    forall|i: int, j: int|
        0 <= i < j < turns.len() && j == i + 1 && speaker(#[trigger] turns[i]) is Some ==> speaker(
            turns[i],
        ) != speaker(#[trigger] turns[j])
}

/// Whether the lines of a record hold some updates, one each.
pub open spec fn hold(lines: Seq<Seq<char>>, updates: Seq<Tree>) -> bool {
    &&& lines.len() == updates.len()
    &&& forall|i: int|
        0 <= i < lines.len() ==> (parsed(#[trigger] lines[i]) matches Some(entry) && (entry.get(
            "method"@,
        ) matches Some(Tree::Str(m)) && ends(m, "session/update"@)) && (entry.get(
            "params"@,
        ) matches Some(p) && p.get("update"@) == Some(updates[i])))
}

/// A draft after some updates.
spec fn heard(s: Sketch, updates: Seq<Tree>) -> Sketch
    decreases updates.len(),
{
    if updates.len() == 0 {
        s
    } else {
        heard(s, updates.drop_last()).updated(updates.last())
    }
}

proof fn lemma_read(s: Sketch, lines: Seq<Seq<char>>, updates: Seq<Tree>)
    requires
        hold(lines, updates),
    ensures
        s.read(lines) == heard(s, updates),
    decreases lines.len(),
{
    if lines.len() > 0 {
        let front = lines.drop_last();
        assert(hold(front, updates.drop_last())) by {
            assert forall|i: int| 0 <= i < front.len() implies (parsed(
                #[trigger] front[i],
            ) matches Some(entry) && (entry.get("method"@) matches Some(Tree::Str(m)) && ends(
                m,
                "session/update"@,
            )) && (entry.get("params"@) matches Some(p) && p.get("update"@) == Some(
                updates.drop_last()[i],
            ))) by {
                assert(lines[i] == front[i]);
            }
        }
        lemma_read(s, front, updates.drop_last());
        assert(parsed(lines[lines.len() - 1]) is Some);
    }
}

proof fn lemma_heard_more(s: Sketch, a: Seq<Tree>, b: Seq<Tree>)
    ensures
        heard(s, a + b) == heard(heard(s, a), b),
    decreases b.len(),
{
    if b.len() == 0 {
        assert(a + b =~= a);
    } else {
        lemma_heard_more(s, a, b.drop_last());
        assert((a + b).drop_last() =~= a + b.drop_last());
        assert((a + b).last() == b.last());
    }
}

/// The kinds of updates differ.
proof fn lemma_kinds()
    ensures
        "user_message_chunk"@ != "agent_thought_chunk"@,
        "user_message_chunk"@ != "agent_message_chunk"@,
        "user_message_chunk"@ != "agent_message"@,
        "user_message_chunk"@ != "tool_call"@,
        "user_message_chunk"@ != "tool_call_update"@,
        "agent_thought_chunk"@ != "agent_message_chunk"@,
        "agent_thought_chunk"@ != "agent_message"@,
        "agent_thought_chunk"@ != "tool_call"@,
        "agent_thought_chunk"@ != "tool_call_update"@,
        "agent_message_chunk"@ != "tool_call"@,
        "agent_message_chunk"@ != "tool_call_update"@,
        "agent_message"@ != "tool_call"@,
        "agent_message"@ != "tool_call_update"@,
        "tool_call"@ != "tool_call_update"@,
{
    reveal_strlit("user_message_chunk");
    reveal_strlit("agent_thought_chunk");
    reveal_strlit("agent_message_chunk");
    reveal_strlit("agent_message");
    reveal_strlit("tool_call");
    reveal_strlit("tool_call_update");
    assert("user_message_chunk"@[0] == 'u');
    assert("agent_thought_chunk"@[0] == 'a');
    assert("agent_message_chunk"@[0] == 'a');
    assert("agent_message"@[0] == 'a');
    assert("tool_call"@[0] == 't');
    assert("tool_call_update"@[0] == 't');
    assert("agent_thought_chunk"@[6] == 't');
    assert("agent_message_chunk"@[6] == 'm');
    assert("agent_message"@[6] == 'm');
    assert("tool_call"@.len() == 9);
    assert("tool_call_update"@.len() == 16);
}

/// The piece that a side says goes to what it was saying, or begins a new message
/// after what the other side was saying has become a row.
pub proof fn pieces_of_one_side_belong_together(
    s: Sketch,
    update: Tree,
    role: Role,
    piece: Seq<char>,
)
    requires
        says(update, role, piece),
    ensures
        s.role == Some(role) ==> s.updated(update) == (Sketch {
            rows: s.rows,
            role: Some(role),
            buf: s.buf + piece,
        }),
        s.role != Some(role) ==> s.updated(update) == (Sketch {
            rows: s.flushed().rows,
            role: Some(role),
            buf: piece,
        }),
{
    lemma_kinds();
}

/// What a side was saying becomes a row when it ends, unless it is blank: without
/// white space round it, cut to 8000 bytes, behind the rows so far.
pub proof fn message_that_ends_is_a_row(s: Sketch)
    ensures
        s.flushed().role is None,
        s.flushed().buf == Seq::<char>::empty(),
        s.flushed().rows == match s.role {
            Some(role) => if trimmed(s.buf).len() == 0 {
                s.rows
            } else {
                s.rows.push(
                    Row { role, text: clipped(trimmed(s.buf), 8000), title: None, diff: None },
                )
            },
            None => s.rows,
        },
{
}

/// A tool's call ends what a side was saying: the rows grow by what was said,
/// unless that is blank, and then by the row of the tool.
pub proof fn tool_call_keeps_what_was_said(s: Sketch, update: Tree)
    requires
        calls(update),
    ensures
        s.updated(update).rows == (match s.role {
            Some(role) => if trimmed(s.buf).len() == 0 {
                s.rows
            } else {
                s.rows.push(
                    Row { role, text: clipped(trimmed(s.buf), 8000), title: None, diff: None },
                )
            },
            None => s.rows,
        }) + turn_rows(Turn::Tool(update)),
        s.updated(update).role is None,
        s.updated(update).buf == Seq::<char>::empty(),
{
    lemma_kinds();
    let row = turn_rows(Turn::Tool(update))[0];
    let before = s.flushed().rows;
    assert(s.updated(update).rows =~= before.push(row));
    assert(before.push(row) =~= before + turn_rows(Turn::Tool(update)));
}

/// What became of a tool changes the row of the tool, if that is the last one: its
/// state if there is a new one, and its change to a file if there is one. It stays
/// the row of the same tool, no other row changes, and what a side is saying goes
/// on.
pub proof fn tool_report_changes_the_last_row(s: Sketch, update: Tree)
    requires
        kind_of(update) == "tool_call_update"@,
    ensures
        ({
            let t = s.updated(update);
            &&& t.role == s.role && t.buf == s.buf
            &&& t.rows.len() == s.rows.len()
            &&& forall|i: int| 0 <= i < s.rows.len() - 1 ==> #[trigger] t.rows[i] == s.rows[i]
            &&& s.rows.len() > 0 ==> {
                let old = s.rows.last();
                let new = t.rows.last();
                &&& old.role != Role::Tool ==> new == old
                &&& old.role == Role::Tool ==> {
                    &&& new.role == Role::Tool
                    &&& new.title == old.title
                    &&& new.text == match update.get("status"@) {
                        Some(Tree::Str(st)) => st,
                        _ => old.text,
                    }
                    &&& new.diff == match update_change(update) {
                        Some(c) => Some(
                            Change {
                                path: c.path,
                                old: clipped(c.old, 4000),
                                new: clipped(c.new, 4000),
                            },
                        ),
                        None => old.diff,
                    }
                }
            }
        }),
{
    lemma_kinds();
}

/// An update of another kind, and a message that is no update, change nothing.
pub proof fn other_messages_are_passed_over(s: Sketch, update: Tree, entry: Tree)
    requires
        !words_kind(Role::User, kind_of(update)),
        !words_kind(Role::Thought, kind_of(update)),
        !words_kind(Role::Assistant, kind_of(update)),
        kind_of(update) != "tool_call"@,
        kind_of(update) != "tool_call_update"@,
        match entry.get("method"@) {
            Some(Tree::Str(m)) => !ends(m, "session/update"@),
            _ => true,
        },
    ensures
        s.updated(update) == s,
        s.recorded(entry) == s,
{
    reveal_strlit("session/update");
}

proof fn lemma_talk(s: Sketch, role: Role, pieces: Seq<Seq<char>>, updates: Seq<Tree>)
    requires
        told_by(Turn::Talk(role, pieces), updates),
        s.role != Some(role),
    ensures
        heard(s, updates) == (Sketch {
            rows: s.flushed().rows,
            role: Some(role),
            buf: pieces.flatten(),
        }),
    decreases pieces.len(),
{
    let front = pieces.drop_last();
    let before = updates.drop_last();
    let last = pieces.last();
    pieces.lemma_flatten_and_flatten_alt_are_equivalent();
    front.lemma_flatten_and_flatten_alt_are_equivalent();
    assert(says(updates[updates.len() - 1], role, last));
    pieces_of_one_side_belong_together(heard(s, before), updates.last(), role, last);
    if pieces.len() > 1 {
        assert forall|i: int| 0 <= i < front.len() implies says(
            #[trigger] before[i],
            role,
            front[i],
        ) by {
            assert(says(updates[i], role, pieces[i]));
        }
        lemma_talk(s, role, front, before);
    } else {
        assert(front =~= Seq::empty());
        assert(before =~= Seq::empty());
        assert(front.flatten() =~= Seq::<char>::empty());
        assert(Seq::<char>::empty() + last =~= last);
    }
}

/// A part of a record adds its rows.
proof fn lemma_turn(s: Sketch, turn: Turn, updates: Seq<Tree>)
    requires
        told_by(turn, updates),
        speaker(turn) is Some ==> s.role != speaker(turn),
    ensures
        heard(s, updates).flushed().rows == s.flushed().rows + turn_rows(turn),
        heard(s, updates).role == speaker(turn),
{
    match turn {
        Turn::Talk(role, pieces) => {
            lemma_talk(s, role, pieces, updates);
            let t = heard(s, updates);
            message_that_ends_is_a_row(t);
            assert(t.flushed().rows =~= s.flushed().rows + turn_rows(turn));
        },
        Turn::Tool(update) => {
            assert(updates.drop_last() =~= Seq::<Tree>::empty());
            assert(updates.last() == update);
            assert(heard(s, updates.drop_last()) == s);
            assert(heard(s, updates) == s.updated(update));
            tool_call_keeps_what_was_said(s, update);
            message_that_ends_is_a_row(s);
            message_that_ends_is_a_row(s.updated(update));
        },
    }
}

proof fn lemma_fewer_turns(turns: Seq<Turn>, parts: Seq<Seq<Tree>>)
    requires
        turns.len() == parts.len(),
        turns.len() > 0,
        unbroken(turns),
        forall|i: int| 0 <= i < turns.len() ==> told_by(#[trigger] turns[i], parts[i]),
    ensures
        unbroken(turns.drop_last()),
        forall|i: int|
            0 <= i < turns.len() - 1 ==> told_by(
                #[trigger] turns.drop_last()[i],
                parts.drop_last()[i],
            ),
        told_by(turns.last(), parts.last()),
        turns.len() > 1 && speaker(turns.last()) is Some ==> speaker(turns.last()) != speaker(
            turns.drop_last().last(),
        ),
{
    let front = turns.drop_last();
    let before = parts.drop_last();
    assert forall|i: int| 0 <= i < front.len() implies told_by(#[trigger] front[i], before[i]) by {
        assert(told_by(turns[i], parts[i]));
    }
    assert forall|i: int, j: int|
        0 <= i < j < front.len() && j == i + 1 && speaker(#[trigger] front[i]) is Some implies speaker(
        front[i],
    ) != speaker(#[trigger] front[j]) by {
        assert(turns[i] == front[i] && turns[j] == front[j]);
    }
    assert(told_by(turns[turns.len() - 1], parts[parts.len() - 1]));
    if front.len() > 0 {
        assert(turns[turns.len() - 2] == front.last());
        assert(turns[turns.len() - 1] == turns.last());
    }
}

proof fn lemma_turns(turns: Seq<Turn>, parts: Seq<Seq<Tree>>)
    requires
        turns.len() == parts.len(),
        unbroken(turns),
        forall|i: int| 0 <= i < turns.len() ==> told_by(#[trigger] turns[i], parts[i]),
    ensures
        heard(Sketch::start(), parts.flatten()).flushed().rows == turns_rows(turns),
        heard(Sketch::start(), parts.flatten()).role == if turns.len() == 0 {
            None
        } else {
            speaker(turns.last())
        },
    decreases turns.len(),
{
    if turns.len() == 0 {
        assert(parts =~= Seq::empty());
        assert(parts.flatten() =~= Seq::<Tree>::empty());
    } else {
        let front = turns.drop_last();
        let before = parts.drop_last();
        lemma_fewer_turns(turns, parts);
        lemma_turns(front, before);
        parts.lemma_flatten_and_flatten_alt_are_equivalent();
        before.lemma_flatten_and_flatten_alt_are_equivalent();
        let s = heard(Sketch::start(), before.flatten());
        lemma_heard_more(Sketch::start(), before.flatten(), parts.last());
        lemma_turn(s, turns.last(), parts.last());
    }
}

/// No word of a record of updates is lost. Whatever the sides say between tools'
/// calls, in however many pieces, the rows are: for each stretch that one side
/// says without a break one row with all of it, unless it is blank, and for each
/// tool's call one row, in their order. A user's row is then shown without what was
/// wrapped round it, and rows that say nothing are left out.
pub proof fn record_becomes_its_turns(
    turns: Seq<Turn>,
    parts: Seq<Seq<Tree>>,
    lines: Seq<Seq<char>>,
)
    requires
        turns.len() == parts.len(),
        unbroken(turns),
        forall|i: int| 0 <= i < turns.len() ==> told_by(#[trigger] turns[i], parts[i]),
        hold(lines, parts.flatten()),
    ensures
        update_history(lines) == turns_rows(turns).map_values(
            |r: Row|
                Row {
                    role: r.role,
                    text: if r.role == Role::User {
                        without_noise(r.text)
                    } else {
                        r.text
                    },
                    title: r.title,
                    diff: r.diff,
                },
        ).filter(|r: Row| r.text.len() > 0),
{
    lemma_turns(turns, parts);
    lemma_read(Sketch::start(), lines, parts.flatten());
    lemma_shown_rows(turns_rows(turns));
}

/// How rows are shown.
proof fn lemma_shown_rows(rows: Seq<Row>)
    ensures
        shown_rows(rows) == rows.map_values(
            |r: Row|
                Row {
                    role: r.role,
                    text: if r.role == Role::User {
                        without_noise(r.text)
                    } else {
                        r.text
                    },
                    title: r.title,
                    diff: r.diff,
                },
        ).filter(|r: Row| r.text.len() > 0),
{
    let f = |r: Row|
        Row {
            role: r.role,
            text: if r.role == Role::User {
                without_noise(r.text)
            } else {
                r.text
            },
            title: r.title,
            diff: r.diff,
        };
    assert(rows.map_values(|r: Row| cleaned(r)) =~= rows.map_values(f));
    lemma_same_filter(
        rows.map_values(f),
        |r: Row| r.text.len() > 0,
        |r: Row| r.text.len() > 0,
    );
}

/// The rows of a chat history are those of its lines one behind the other: a line
/// more adds its rows at the end, and one that is not JSON adds none.
pub proof fn chat_history_is_that_of_its_lines(
    a: Seq<Seq<char>>,
    line: Seq<char>,
)
    ensures
        chat_history(Seq::empty()) == Seq::<Row>::empty(),
        parsed(line) is None ==> chat_history(a.push(line)) == chat_history(a),
        parsed(line) matches Some(entry) ==> chat_history(a.push(line)) == chat_history(a)
            + chat_rows(entry),
{
    assert(a.push(line).drop_last() =~= a);
    assert(chat_history(a) + Seq::<Row>::empty() =~= chat_history(a));
}

/// What the blocks of a message say, one under the other.
pub open spec fn blocks_said(blocks: Seq<Tree>) -> Seq<char> {
    joined(
        blocks.filter(|b: Tree| b.get("text"@) matches Some(Tree::Str(_))).map_values(
            |b: Tree| b.get("text"@)->0->Str_0,
        ),
        "\n"@,
    )
}

proof fn lemma_blocks(blocks: Seq<Tree>)
    ensures
        joined(block_texts(blocks), "\n"@) == blocks_said(blocks),
{
    lemma_block_texts(blocks);
}

proof fn lemma_block_texts(blocks: Seq<Tree>)
    ensures
        block_texts(blocks) == blocks.filter(
            |b: Tree| b.get("text"@) matches Some(Tree::Str(_)),
        ).map_values(|b: Tree| b.get("text"@)->0->Str_0),
    decreases blocks.len(),
{
    reveal(Seq::filter);
    let p = |b: Tree| b.get("text"@) matches Some(Tree::Str(_));
    let f = |b: Tree| b.get("text"@)->0->Str_0;
    if blocks.len() > 0 {
        lemma_block_texts(blocks.drop_last());
        if p(blocks.last()) {
            assert(blocks.filter(p).map_values(f) =~= blocks.drop_last().filter(p).map_values(
                f,
            ).push(f(blocks.last())));
        }
    } else {
        assert(block_texts(blocks) =~= blocks.filter(p).map_values(f));
    }
}

/// The kinds of entries of a chat history differ.
proof fn lemma_entry_kinds()
    ensures
        "user"@ != "assistant"@,
        "user"@ != "reasoning"@,
        "user"@ != "tool_result"@,
        "assistant"@ != "reasoning"@,
        "assistant"@ != "tool_result"@,
        "reasoning"@ != "tool_result"@,
{
    reveal_strlit("user");
    reveal_strlit("assistant");
    reveal_strlit("reasoning");
    reveal_strlit("tool_result");
    assert("user"@.len() == 4 && "assistant"@.len() == 9 && "reasoning"@.len() == 9
        && "tool_result"@.len() == 11);
    assert("assistant"@[0] != "reasoning"@[0]);
}

/// What a user says is one row, of its text or of the texts of its blocks, shown
/// without what was wrapped round it; nothing if that is nothing.
pub proof fn user_entry_is_a_row(entry: Tree, said: Seq<char>)
    requires
        entry.get("type"@) == Some(Tree::Str("user"@)),
        said == match entry.get("content"@) {
            Some(Tree::Str(s)) => s,
            Some(Tree::Array(blocks)) => blocks_said(blocks),
            _ => Seq::empty(),
        },
    ensures
        chat_rows(entry) == if without_noise(said).len() == 0 {
            Seq::<Row>::empty()
        } else {
            seq![Row { role: Role::User, text: without_noise(said), title: None, diff: None }]
        },
{
    if let Some(Tree::Array(blocks)) = entry.get("content"@) {
        lemma_blocks(blocks);
    }
}

/// What the assistant says is one row, behind the rows of the tools that it calls,
/// one for each in their order. A blank text has none.
pub proof fn assistant_entry_is_its_tools_and_a_row(entry: Tree)
    requires
        entry.get("type"@) == Some(Tree::Str("assistant"@)),
    ensures
        ({
            let tools = match entry.get("tool_calls"@) {
                Some(Tree::Array(s)) => s,
                _ => Seq::empty(),
            };
            let body = match entry.get("content"@) {
                Some(Tree::Str(s)) => trimmed(s),
                _ => trimmed(Seq::empty()),
            };
            let rows = chat_rows(entry);
            &&& rows.len() == tools.len() + (if body.len() == 0 {
                0int
            } else {
                1
            })
            &&& forall|i: int| 0 <= i < tools.len() ==> #[trigger] rows[i] == call_row(tools[i])
            &&& body.len() > 0 ==> rows.last() == (Row {
                role: Role::Assistant,
                text: clipped(body, 8000),
                title: None,
                diff: None,
            })
        }),
{
    lemma_entry_kinds();
}

/// What the assistant thinks is one row, of the texts of the summary; nothing if
/// there is none.
pub proof fn reasoning_entry_is_a_row(entry: Tree, blocks: Seq<Tree>)
    requires
        entry.get("type"@) == Some(Tree::Str("reasoning"@)),
        entry.get("summary"@) == Some(Tree::Array(blocks)),
    ensures
        chat_rows(entry) == if blocks_said(blocks).len() == 0 {
            Seq::<Row>::empty()
        } else {
            seq![
                Row {
                    role: Role::Thought,
                    text: clipped(blocks_said(blocks), 8000),
                    title: None,
                    diff: None,
                },
            ]
        },
{
    lemma_entry_kinds();
    lemma_blocks(blocks);
}

/// What a tool gives back is one row, cut to 240 bytes; nothing if it is blank.
pub proof fn tool_result_is_a_row(entry: Tree, s: Seq<char>)
    requires
        entry.get("type"@) == Some(Tree::Str("tool_result"@)),
        entry.get("content"@) == Some(Tree::Str(s)),
    ensures
        chat_rows(entry) == if trimmed(s).len() == 0 {
            Seq::<Row>::empty()
        } else {
            seq![
                Row {
                    role: Role::Tool,
                    text: clipped(trimmed(s), 240),
                    title: Some("result"@),
                    diff: None,
                },
            ]
        },
{
    lemma_entry_kinds();
}

/// The row of a tool that the assistant called: its name, its arguments cut to 240
/// bytes, and the change to a file that they describe.
pub proof fn tool_call_is_a_row(tool: Tree)
    ensures
        ({
            let row = call_row(tool);
            let args = match tool.get("arguments"@) {
                Some(Tree::Str(s)) => s,
                Some(t) => printed(t),
                None => Seq::empty(),
            };
            &&& row.role == Role::Tool
            &&& row.title == Some(
                match tool.get("name"@) {
                    Some(Tree::Str(s)) => s,
                    _ => "tool"@,
                },
            )
            &&& clipped(args, 240).len() > 0 ==> row.text == clipped(args, 240)
            &&& clipped(args, 240).len() == 0 ==> row.text == "called"@
            &&& row.diff == match (match tool.get("arguments"@) {
                Some(Tree::Str(s)) => match parsed(s) {
                    Some(t) => args_change(t),
                    None => None,
                },
                Some(t) => args_change(t),
                None => None,
            }) {
                Some(c) => Some(
                    Change { path: c.path, old: clipped(c.old, 4000), new: clipped(c.new, 4000) },
                ),
                None => None,
            }
        }),
{
}

/// The text under the first of some keys that an object has.
pub open spec fn text_under(t: Tree, keys: Seq<Seq<char>>) -> Seq<char>
    decreases keys.len(),
{
    if keys.len() == 0 {
        Seq::empty()
    } else {
        match t.get(keys[0]) {
            Some(Tree::Str(s)) => s,
            Some(_) => Seq::empty(),
            None => text_under(t, keys.drop_first()),
        }
    }
}

/// A tool's arguments describe a change if they name a file, and something to take
/// out of it or to put in: exactly those.
pub proof fn arguments_describe_a_change(raw: Tree)
    ensures
        ({
            let path = text_under(raw, seq!["file_path"@, "filePath"@, "path"@]);
            let old = text_under(raw, seq!["old_string"@, "oldString"@, "oldText"@]);
            let new = text_under(
                raw,
                seq!["new_string"@, "newString"@, "newText"@, "content"@],
            );
            args_change(raw) == if path.len() > 0 && (old.len() > 0 || new.len() > 0) {
                Some(Change { path, old, new })
            } else {
                None
            }
        }),
{
    reveal_with_fuel(text_under, 5);
    let p = seq!["file_path"@, "filePath"@, "path"@];
    let o = seq!["old_string"@, "oldString"@, "oldText"@];
    let n = seq!["new_string"@, "newString"@, "newText"@, "content"@];
    assert(p.drop_first() =~= seq!["filePath"@, "path"@]);
    assert(p.drop_first().drop_first() =~= seq!["path"@]);
    assert(p.drop_first().drop_first().drop_first() =~= Seq::empty());
    assert(o.drop_first() =~= seq!["oldString"@, "oldText"@]);
    assert(o.drop_first().drop_first() =~= seq!["oldText"@]);
    assert(o.drop_first().drop_first().drop_first() =~= Seq::empty());
    assert(n.drop_first() =~= seq!["newString"@, "newText"@, "content"@]);
    assert(n.drop_first().drop_first() =~= seq!["newText"@, "content"@]);
    assert(n.drop_first().drop_first().drop_first() =~= seq!["content"@]);
    assert(n.drop_first().drop_first().drop_first().drop_first() =~= Seq::empty());
}

/// A block of an update that is a change gives that change: the file that it
/// names, what was there and what is there now; one that names no file gives none. One
/// that is no change gives what it holds gives. A list gives none if none of its
/// items does, and anything else none.
pub proof fn content_gives_its_first_change(t: Tree, items: Seq<Tree>)
    ensures
        t is Object ==> content_change(t) == (if ascii_lower(text_under(t, seq!["type"@]))
            == "diff"@ {
            let path = text_under(t, seq!["path"@, "filePath"@]);
            if path.len() > 0 {
                Some(
                    Change {
                        path,
                        old: text_under(t, seq!["oldText"@, "old_text"@]),
                        new: text_under(t, seq!["newText"@, "new_text"@]),
                    },
                )
            } else {
                None
            }
        } else {
            match t.get("content"@) {
                Some(c) => content_change(c),
                None => None,
            }
        }),
        (forall|i: int| 0 <= i < items.len() ==> content_change(#[trigger] items[i]) is None)
            ==> content_change(Tree::Array(items)) is None,
        !(t is Object) && !(t is Array) ==> content_change(t) is None,
{
    lemma_text_under_two(t, "path"@, "filePath"@);
    lemma_text_under_two(t, "oldText"@, "old_text"@);
    lemma_text_under_two(t, "newText"@, "new_text"@);
    reveal_with_fuel(text_under, 2);
    let one = seq!["type"@];
    assert(one.drop_first() =~= Seq::empty());
    if forall|i: int| 0 <= i < items.len() ==> content_change(#[trigger] items[i]) is None {
        lemma_no_change(items, 0);
    }
}

proof fn lemma_text_under_two(t: Tree, a: Seq<char>, b: Seq<char>)
    ensures
        text_under(t, seq![a, b]) == crate::text::or_empty(t.either_str(a, b)),
{
    reveal_with_fuel(text_under, 3);
    let s = seq![a, b];
    assert(s.drop_first() =~= seq![b]);
    assert(s.drop_first().drop_first() =~= Seq::empty());
}

proof fn lemma_no_change(items: Seq<Tree>, i: int)
    requires
        0 <= i <= items.len(),
        forall|k: int| 0 <= k < items.len() ==> content_change(#[trigger] items[k]) is None,
    ensures
        first_change(items, i) is None,
    decreases items.len() - i,
{
    if i < items.len() {
        lemma_no_change(items, i + 1);
    }
}

/// The first item of a list that gives a change gives the list's.
pub proof fn first_change_of_a_list_counts(items: Seq<Tree>, k: int)
    requires
        0 <= k < items.len(),
        content_change(items[k]) is Some,
        forall|i: int| 0 <= i < k ==> content_change(#[trigger] items[i]) is None,
    ensures
        content_change(Tree::Array(items)) == content_change(items[k]),
{
    lemma_first_change(items, 0, k);
}

proof fn lemma_first_change(items: Seq<Tree>, i: int, k: int)
    requires
        0 <= i <= k < items.len(),
        content_change(items[k]) is Some,
        forall|j: int| 0 <= j < k ==> content_change(#[trigger] items[j]) is None,
    ensures
        first_change(items, i) == content_change(items[k]),
    decreases k - i,
{
    if i < k {
        lemma_first_change(items, i + 1, k);
    }
}

/// The change of a tool's update is that of its content, or else that of the
/// tool's arguments.
pub proof fn update_gives_its_change(update: Tree)
    ensures
        ({
            let shown = match update.get("content"@) {
                Some(c) => content_change(c),
                None => None,
            };
            let asked = match (update.get("rawInput"@), update.get("raw_input"@)) {
                (Some(raw), _) => args_change(raw),
                (None, Some(raw)) => args_change(raw),
                (None, None) => None,
            };
            update_change(update) == if shown is Some {
                shown
            } else {
                asked
            }
        }),
{
}

/// A transcript is the end of the rows of the chat history, or of the record of
/// updates where the chat history has none: as many as were asked for, 200 if none
/// were, and 500 at most.
pub proof fn transcript_is_the_end_of_the_rows(
    chat: Option<Seq<char>>,
    updates: Option<Seq<char>>,
    limit: nat,
)
    ensures
        ({
            let said = match chat {
                Some(t) => chat_history(lines_of(t)),
                None => Seq::empty(),
            };
            let all = if said.len() > 0 {
                said
            } else {
                match updates {
                    Some(t) => update_history(lines_of(t)),
                    None => Seq::empty(),
                }
            };
            let n: int = if limit == 0 {
                200
            } else if limit > 500 {
                500
            } else {
                limit as int
            };
            transcript(chat, updates, limit) == if all.len() > n {
                all.skip(all.len() - n)
            } else {
                all
            }
        }),
{
}

/// A row as a client gets it.
pub open spec fn row_entry(r: Row) -> Tree {
    let role = match r.role {
        Role::User => "user"@,
        Role::Assistant => "assistant"@,
        Role::Thought => "thought"@,
        Role::Tool => "tool"@,
    };
    match (r.title, r.diff) {
        (None, None) => Tree::Object(
            map!["role"@ => Tree::Str(role), "text"@ => Tree::Str(r.text)],
        ),
        (Some(t), None) => Tree::Object(
            map![
                "role"@ => Tree::Str(role),
                "text"@ => Tree::Str(r.text),
                "toolTitle"@ => Tree::Str(t),
            ],
        ),
        (None, Some(c)) => Tree::Object(
            map![
                "role"@ => Tree::Str(role),
                "text"@ => Tree::Str(r.text),
                "diffPath"@ => Tree::Str(c.path),
                "oldText"@ => Tree::Str(c.old),
                "newText"@ => Tree::Str(c.new),
            ],
        ),
        (Some(t), Some(c)) => Tree::Object(
            map![
                "role"@ => Tree::Str(role),
                "text"@ => Tree::Str(r.text),
                "toolTitle"@ => Tree::Str(t),
                "diffPath"@ => Tree::Str(c.path),
                "oldText"@ => Tree::Str(c.old),
                "newText"@ => Tree::Str(c.new),
            ],
        ),
    }
}

/// A client that asks for a session's transcript gets it, with the session's name:
/// each row with its role and text, its tool's title and its change to a file if
/// it has them. As many rows as it asks for, the last ones. Nothing changes.
pub proof fn transcript_is_handed_out(
    h: HubState,
    client: u64,
    id: Tree,
    params: Tree,
    w: World,
    sid: Seq<char>,
)
    requires
        params.get("sessionId"@) == Some(Tree::Str(sid)),
        sid.len() > 0,
    ensures
        ({
            let limit: nat = match params.get("limit"@) {
                Some(Tree::Int(n)) => if 0 <= n <= u64::MAX {
                    n as nat
                } else {
                    200
                },
                _ => 200,
            };
            h.requested(client, id, "gtm/session.history"@, params, w) == (
                h,
                Answer::Done(
                    Tree::Object(
                        map![
                            "sessionId"@ => Tree::Str(sid),
                            "messages"@ => Tree::Array(
                                transcript(w.chat, w.updates, limit).map_values(
                                    |r: Row| row_entry(r),
                                ),
                            ),
                        ],
                    ),
                ),
            )
        }),
{
    method_names_differ();
    let limit: nat = match params.get("limit"@) {
        Some(Tree::Int(n)) => if 0 <= n <= u64::MAX {
            n as nat
        } else {
            200
        },
        _ => 200,
    };
    let rows = transcript(w.chat, w.updates, limit);
    assert forall|i: int| 0 <= i < rows.len() implies (#[trigger] rows[i]).json() == row_entry(
        rows[i],
    ) by {
        assert(rows[i].json() =~= row_entry(rows[i]));
    }
    assert(rows.map_values(|r: Row| r.json()) =~= rows.map_values(|r: Row| row_entry(r)));
}

/// A record is read line by line: each line that holds an update takes it in, behind
/// all before it, and a line that is not JSON changes nothing.
pub proof fn record_is_read_line_by_line(
    s: Sketch,
    lines: Seq<Seq<char>>,
    line: Seq<char>,
    entry: Tree,
    update: Tree,
    method: Seq<char>,
)
    ensures
        s.read(Seq::empty()) == s,
        parsed(line) is None ==> s.read(lines.push(line)) == s.read(lines),
        parsed(line) == Some(entry) && entry.get("method"@) == Some(Tree::Str(method)) && ends(
            method,
            "session/update"@,
        ) && (entry.get("params"@) matches Some(p) && p.get("update"@) == Some(update)) ==> s.read(
            lines.push(line),
        ) == s.read(lines).updated(update),
        Sketch::start() == (Sketch { rows: Seq::empty(), role: None, buf: Seq::empty() }),
{
    assert(lines.push(line).drop_last() =~= lines);
}

/// An entry of a chat history that is none of these has no rows.
pub proof fn other_entries_have_no_rows(entry: Tree)
    requires
        match entry.get("type"@) {
            Some(Tree::Str(kind)) => kind != "user"@ && kind != "assistant"@ && kind
                != "reasoning"@ && kind != "tool_result"@,
            _ => true,
        },
    ensures
        chat_rows(entry) == Seq::<Row>::empty(),
{
    reveal_strlit("user");
    reveal_strlit("assistant");
    reveal_strlit("reasoning");
    reveal_strlit("tool_result");
    assert("user"@.len() == 4 && "assistant"@.len() == 9 && "reasoning"@.len() == 9
        && "tool_result"@.len() == 11);
}

} // verus!
