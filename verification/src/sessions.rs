//! The sessions that a client can pick from: those kept on disk and those that
//! live.

use crate::codec::{parse_json, parsed};
use crate::history::text_of;
use crate::json::{obj, Json, Tree};
use crate::order::{arranged, sort, views, Named};
use crate::text::{
    ascii_lower, begins, filled, opt_text, or_empty, own, starts_with, text_eq, text_from_utf8,
    to_ascii_lower, trim, trimmed,
};
use vstd::utf8::{decode_utf8, encode_utf8, valid_utf8};
use vstd::prelude::*;

verus! {

/// What the disk holds of a session: the name of the group's directory, the
/// group's note of its working directory, the session's id, and the text of
/// its summary.
pub struct DiskSession {
    pub group: String,
    pub group_cwd: Option<String>,
    pub id: String,
    pub summary: String,
}

/// What the disk holds of a session, as mathematics.
pub struct Stored {
    pub group: Seq<char>,
    pub group_cwd: Option<Seq<char>>,
    pub id: Seq<char>,
    pub summary: Seq<char>,
}

impl View for DiskSession {
    type V = Stored;

    open spec fn view(&self) -> Stored {
        Stored {
            group: self.group@,
            group_cwd: opt_text(self.group_cwd),
            id: self.id@,
            summary: self.summary@,
        }
    }
}

/// A session as it is listed.
pub struct SessionCard {
    pub id: String,
    pub title: String,
    pub live: bool,
    pub hosted: Option<bool>,
    pub cwd: Option<String>,
}

/// A session as it is listed, as mathematics.
pub struct Card {
    pub id: Seq<char>,
    pub title: Seq<char>,
    pub live: bool,
    pub hosted: Option<bool>,
    pub cwd: Option<Seq<char>>,
}

impl View for SessionCard {
    type V = Card;

    open spec fn view(&self) -> Card {
        Card {
            id: self.id@,
            title: self.title@,
            live: self.live,
            hosted: self.hosted,
            cwd: opt_text(self.cwd),
        }
    }
}

impl Named for SessionCard {
    open spec fn label(v: Card) -> Seq<char> {
        v.title
    }

    fn name(&self) -> (r: &str) {
        self.title.as_str()
    }
}

/// An optional text as JSON: null if there is none.
pub open spec fn opt_tree(o: Option<Seq<char>>) -> Tree {
    match o {
        Some(s) => Tree::Str(s),
        None => Tree::Null,
    }
}

/// An optional text as JSON.
pub fn opt_json(o: &Option<String>) -> (r: Json)
    ensures
        r@ == opt_tree(opt_text(*o)),
{
    match o {
        Some(s) => Json::text(s.as_str()),
        None => Json::Null,
    }
}

/// The same optional text.
pub fn own_opt(o: &Option<String>) -> (r: Option<String>)
    ensures
        opt_text(r) == opt_text(*o),
{
    match o {
        Some(s) => Some(own(s.as_str())),
        None => None,
    }
}

impl Card {
    /// The card as clients get it.
    pub open spec fn json(self) -> Tree {
        let plain = obj().with("id"@, Tree::Str(self.id)).with(
            "title"@,
            Tree::Str(self.title),
        ).with("live"@, Tree::Bool(self.live)).with("cwd"@, opt_tree(self.cwd));
        match self.hosted {
            Some(b) => plain.with("hosted"@, Tree::Bool(b)),
            None => plain,
        }
    }
}

impl SessionCard {
    /// The card as clients get it.
    pub fn to_json(&self) -> (r: Json)
        ensures
            r@ == self@.json(),
    {
        let plain: Json = Json::object().with("id", Json::text(self.id.as_str())).with(
            "title",
            Json::text(self.title.as_str()),
        ).with("live", Json::Bool(self.live)).with("cwd", opt_json(&self.cwd));
        match self.hosted {
            Some(b) => plain.with("hosted", Json::Bool(b)),
            None => plain,
        }
    }
}

/// The title in a summary: under the first of its names that is there.
pub open spec fn title_in(summary: Tree) -> Seq<char> {
    let found = match summary.either("generated_title"@, "generatedTitle"@) {
        Some(t) => Some(t),
        None => match summary.either("session_summary"@, "sessionSummary"@) {
            Some(t) => Some(t),
            None => summary.get("title"@),
        },
    };
    or_empty(text_of(found))
}

/// The title in a summary.
pub fn session_title(summary: &Json) -> (r: String)
    ensures
        r@ == title_in(summary@),
{
    let found: Option<&Json> = match summary.either("generated_title", "generatedTitle") {
        Some(t) => Some(t),
        None => match summary.either("session_summary", "sessionSummary") {
            Some(t) => Some(t),
            None => summary.get("title"),
        },
    };
    match found {
        Some(t) => match t.as_str() {
            Some(s) => own(s),
            None => String::new(),
        },
        None => String::new(),
    }
}

/// Whether a summary is of a session that another one started.
pub open spec fn of_subagent(summary: Tree) -> bool {
    match summary.either_str("session_kind"@, "sessionKind"@) {
        Some(s) => begins(ascii_lower(s), "subagent"@),
        None => false,
    }
}

/// Whether a summary is of a session that another one started.
pub fn is_subagent(summary: &Json) -> (r: bool)
    ensures
        r == of_subagent(summary@),
{
    match summary.either_str("session_kind", "sessionKind") {
        Some(s) => starts_with(to_ascii_lower(s).as_str(), "subagent"),
        None => false,
    }
}

/// The value of a hexadecimal digit.
pub open spec fn hex_value(b: u8) -> Option<u8> {
    if 48 <= b <= 57 {
        Some((b - 48) as u8)
    } else if 65 <= b <= 70 {
        Some((b - 55) as u8)
    } else if 97 <= b <= 102 {
        Some((b - 87) as u8)
    } else {
        None
    }
}

/// The byte that two characters stand for in base sixteen. The first may be a
/// plus sign.
pub open spec fn hex_pair(a: u8, b: u8) -> Option<u8> {
    match (hex_value(a), hex_value(b)) {
        (Some(x), Some(y)) => Some((16 * x + y) as u8),
        (None, Some(y)) => if a == 43 {
            Some(y)
        } else {
            None
        },
        _ => None,
    }
}

/// The bytes from `i` on, with every percent sign that two more bytes follow
/// replaced, with them, by the byte they stand for.
pub open spec fn unescaped(b: Seq<u8>, i: int) -> Option<Seq<u8>>
    decreases b.len() - i,
{
    if i < 0 || i >= b.len() {
        Some(Seq::empty())
    } else if b[i] == 37 && i + 2 < b.len() {
        match (hex_pair(b[i + 1], b[i + 2]), unescaped(b, i + 3)) {
            (Some(x), Some(rest)) => Some(seq![x] + rest),
            _ => None,
        }
    } else {
        match unescaped(b, i + 1) {
            Some(rest) => Some(seq![b[i]] + rest),
            None => None,
        }
    }
}

/// The text that a percent-encoded name stands for, if it is one.
pub open spec fn percent_decoded(name: Seq<char>) -> Option<Seq<char>> {
    match unescaped(encode_utf8(name), 0) {
        Some(b) => if valid_utf8(b) {
            Some(decode_utf8(b))
        } else {
            None
        },
        None => None,
    }
}

/// The value of a hexadecimal digit.
fn hex_digit(b: u8) -> (r: Option<u8>)
    ensures
        r == hex_value(b),
        r matches Some(x) ==> x < 16,
{
    if 48 <= b && b <= 57 {
        Some(b - 48)
    } else if 65 <= b && b <= 70 {
        Some(b - 55)
    } else if 97 <= b && b <= 102 {
        Some(b - 87)
    } else {
        None
    }
}

/// The byte that two characters stand for in base sixteen.
fn hex_byte(a: u8, b: u8) -> (r: Option<u8>)
    ensures
        r == hex_pair(a, b),
{
    match (hex_digit(a), hex_digit(b)) {
        (Some(x), Some(y)) => Some(16 * x + y),
        (None, Some(y)) => if a == 43 {
            Some(y)
        } else {
            None
        },
        _ => None,
    }
}

/// The text that a percent-encoded name stands for, if it is one.
pub fn percent_decode(name: &str) -> (r: Option<String>)
    ensures
        opt_text(r) == percent_decoded(name@),
{
    let bytes: &[u8] = name.as_bytes();
    let ghost all = bytes@;
    let mut out: Vec<u8> = Vec::new();
    let mut i: usize = 0;
    proof {
        if unescaped(all, 0) is Some {
            assert(out@ + unescaped(all, 0)->0 =~= unescaped(all, 0)->0);
        }
    }
    while i < bytes.len()
        invariant
            i <= bytes.len(),
            all == bytes@,
            all == encode_utf8(name@),
            match (unescaped(all, 0), unescaped(all, i as int)) {
                (Some(whole), Some(rest)) => whole == out@ + rest,
                (None, None) => true,
                _ => false,
            },
        decreases bytes.len() - i,
    {
        let ghost so_far = out@;
        if bytes[i] == 37 && bytes.len() - i > 2 {
            match hex_byte(bytes[i + 1], bytes[i + 2]) {
                Some(x) => {
                    out.push(x);
                    proof {
                        if let Some(rest) = unescaped(all, i + 3) {
                            assert(so_far + (seq![x] + rest) =~= out@ + rest);
                        }
                    }
                },
                None => {
                    return None;
                },
            }
            i = i + 3;
        } else {
            out.push(bytes[i]);
            proof {
                if let Some(rest) = unescaped(all, i + 1) {
                    assert(so_far + (seq![all[i as int]] + rest) =~= out@ + rest);
                }
            }
            i = i + 1;
        }
    }
    proof {
        assert(out@ + Seq::<u8>::empty() =~= out@);
    }
    text_from_utf8(out)
}

/// The working directory of a session: what its summary says, otherwise what
/// its group notes, otherwise the path that the group's name encodes.
pub open spec fn cwd_in(
    summary: Tree,
    group_cwd: Option<Seq<char>>,
    group: Seq<char>,
) -> Option<Seq<char>> {
    let said = filled(
        text_of(
            match summary.get("cwd"@) {
                Some(t) => Some(t),
                None => summary.get_in("info"@, "cwd"@),
            },
        ),
    );
    let noted = match group_cwd {
        Some(t) => filled(Some(trimmed(t))),
        None => None,
    };
    match (said, noted) {
        (Some(s), _) => Some(s),
        (None, Some(s)) => Some(s),
        (None, None) => match percent_decoded(group) {
            Some(s) => if begins(s, "/"@) {
                Some(s)
            } else {
                None
            },
            None => None,
        },
    }
}

/// The working directory of a session.
pub fn session_cwd(summary: &Json, group_cwd: &Option<String>, group: &str) -> (r: Option<String>)
    ensures
        opt_text(r) == cwd_in(summary@, opt_text(*group_cwd), group@),
{
    let found: Option<&Json> = match summary.get("cwd") {
        Some(t) => Some(t),
        None => summary.get_in("info", "cwd"),
    };
    if let Some(t) = found {
        if let Some(s) = t.as_str() {
            if !s.is_empty() {
                return Some(own(s));
            }
        }
    }
    if let Some(t) = group_cwd {
        let noted: String = trim(t.as_str());
        if !noted.as_str().is_empty() {
            return Some(noted);
        }
    }
    match percent_decode(group) {
        Some(s) => if starts_with(s.as_str(), "/") {
            Some(s)
        } else {
            None
        },
        None => None,
    }
}

impl Stored {
    /// What the summary says: nothing if it is not JSON.
    pub open spec fn tree(self) -> Tree {
        match parsed(self.summary) {
            Some(t) => t,
            None => obj(),
        }
    }

    /// The session's working directory.
    pub open spec fn cwd(self) -> Option<Seq<char>> {
        cwd_in(self.tree(), self.group_cwd, self.group)
    }

    /// The session's card.
    pub open spec fn card(self) -> Card {
        Card {
            id: self.id,
            title: title_in(self.tree()),
            live: false,
            hosted: None,
            cwd: self.cwd(),
        }
    }
}

impl DiskSession {
    /// What the summary says: nothing if it is not JSON.
    pub fn summary_json(&self) -> (r: Json)
        ensures
            r@ == self@.tree(),
    {
        match parse_json(self.summary.as_str()) {
            Some(j) => j,
            None => Json::object(),
        }
    }
}

/// The cards of the sessions on disk, without those that another session
/// started.
pub open spec fn disk_cards(found: Seq<Stored>) -> Seq<Card>
    decreases found.len(),
{
    if found.len() == 0 {
        Seq::empty()
    } else if of_subagent(found.last().tree()) {
        disk_cards(found.drop_last())
    } else {
        disk_cards(found.drop_last()).push(found.last().card())
    }
}

/// The cards of the sessions on disk, without those that another session
/// started, sorted by title.
pub fn list_disk_sessions_in(found: &Vec<DiskSession>) -> (r: Vec<SessionCard>)
    ensures
        views(r@) == arranged::<SessionCard>(disk_cards(views(found@))),
{
    let ghost all = views(found@);
    let mut out: Vec<SessionCard> = Vec::new();
    let mut i: usize = 0;
    proof {
        assert(all.take(0) =~= Seq::empty());
        assert(views(out@) =~= Seq::empty());
    }
    while i < found.len()
        invariant
            i <= found@.len(),
            all == views(found@),
            views(out@) == disk_cards(all.take(i as int)),
        decreases found@.len() - i,
    {
        let one: &DiskSession = &found[i];
        let ghost so_far = views(out@);
        proof {
            assert(all.take(i + 1).drop_last() =~= all.take(i as int));
            assert(all.take(i + 1).last() == one@);
        }
        let summary: Json = one.summary_json();
        if !is_subagent(&summary) {
            let card: SessionCard = SessionCard {
                id: own(one.id.as_str()),
                title: session_title(&summary),
                live: false,
                hosted: None,
                cwd: session_cwd(&summary, &one.group_cwd, one.group.as_str()),
            };
            out.push(card);
            proof {
                assert(views(out@) =~= so_far.push(one@.card()));
            }
        }
        i = i + 1;
    }
    proof {
        assert(all.take(i as int) =~= all);
    }
    sort(out)
}

/// What an optional session on disk holds.
pub open spec fn opt_stored(o: Option<&DiskSession>) -> Option<Stored> {
    match o {
        Some(d) => Some(d@),
        None => None,
    }
}

/// The title that the disk gives a session, if it has one.
pub open spec fn disk_title(o: Option<Stored>) -> Option<Seq<char>> {
    match o {
        Some(d) => filled(Some(title_in(d.tree()))),
        None => None,
    }
}

/// The working directory that the disk gives a session, if it has one.
pub open spec fn disk_cwd(o: Option<Stored>) -> Option<Seq<char>> {
    match o {
        Some(d) => d.cwd(),
        None => None,
    }
}

/// The title that the disk gives a session, if it has one.
pub fn lookup_title(found: Option<&DiskSession>) -> (r: Option<String>)
    ensures
        opt_text(r) == disk_title(opt_stored(found)),
{
    match found {
        Some(d) => {
            let t: String = session_title(&d.summary_json());
            if t.as_str().is_empty() {
                None
            } else {
                Some(t)
            }
        },
        None => None,
    }
}

/// The working directory that the disk gives a session, if it has one.
pub fn lookup_cwd(found: Option<&DiskSession>) -> (r: Option<String>)
    ensures
        opt_text(r) == disk_cwd(opt_stored(found)),
{
    match found {
        Some(d) => session_cwd(&d.summary_json(), &d.group_cwd, d.group.as_str()),
        None => None,
    }
}

/// A working directory that is known is not empty.
pub proof fn disk_cwd_is_not_empty(o: Option<Stored>)
    ensures
        disk_cwd(o) matches Some(s) ==> s.len() > 0,
{
    reveal_strlit("/");
}

/// The title of the last card with an id and a title.
pub open spec fn last_title(cards: Seq<Card>, id: Seq<char>) -> Option<Seq<char>>
    decreases cards.len(),
{
    if cards.len() == 0 {
        None
    } else if cards.last().id == id && cards.last().title.len() > 0 {
        Some(cards.last().title)
    } else {
        last_title(cards.drop_last(), id)
    }
}

/// Whether a card has an id.
pub open spec fn listed(cards: Seq<Card>, id: Seq<char>) -> bool {
    exists|i: int| 0 <= i < cards.len() && (#[trigger] cards[i]).id == id
}

/// A live card: without a title of its own, with that of its card on disk.
pub open spec fn with_disk_title(card: Card, disk: Seq<Card>) -> Card {
    match last_title(disk, card.id) {
        Some(t) => if card.title.len() == 0 {
            Card { title: t, ..card }
        } else {
            card
        },
        None => card,
    }
}

/// The live cards, and behind them the cards on disk that are not live.
pub open spec fn merged(live: Seq<Card>, disk: Seq<Card>) -> Seq<Card> {
    live.map_values(|c: Card| with_disk_title(c, disk)) + disk.filter(
        |c: Card| !listed(live, c.id),
    )
}

/// The title of the last card with an id and a title.
fn find_title(cards: &Vec<SessionCard>, id: &str) -> (r: Option<String>)
    ensures
        opt_text(r) == last_title(views(cards@), id@),
{
    let ghost all = views(cards@);
    let mut i: usize = cards.len();
    proof {
        assert(all.take(i as int) =~= all);
    }
    while i > 0
        invariant
            i <= cards.len(),
            all == views(cards@),
            last_title(all, id@) == last_title(all.take(i as int), id@),
        decreases i,
    {
        proof {
            assert(all.take(i as int).last() == cards@[i - 1]@);
            assert(all.take(i as int).drop_last() =~= all.take(i - 1));
        }
        i = i - 1;
        if text_eq(cards[i].id.as_str(), id) && !cards[i].title.as_str().is_empty() {
            return Some(own(cards[i].title.as_str()));
        }
    }
    None
}

/// Whether a card has an id.
fn has_id(ids: &Vec<String>, id: &str) -> (r: bool)
    ensures
        r == (exists|i: int| 0 <= i < ids@.len() && (#[trigger] ids@[i])@ == id@),
{
    let mut i: usize = 0;
    while i < ids.len()
        invariant
            i <= ids@.len(),
            forall|j: int| 0 <= j < i ==> (#[trigger] ids@[j])@ != id@,
        decreases ids@.len() - i,
    {
        if text_eq(ids[i].as_str(), id) {
            return true;
        }
        i = i + 1;
    }
    false
}

/// Live sessions first, then those on disk that are not live.
pub fn merge_live(live: Vec<SessionCard>, disk: Vec<SessionCard>) -> (r: Vec<SessionCard>)
    ensures
        views(r@) == merged(views(live@), views(disk@)),
{
    let ghost live_cards = views(live@);
    let ghost live_items = live@;
    let ghost disk_cards = views(disk@);
    let ghost disk_items = disk@;
    let ghost fill = |c: Card| with_disk_title(c, disk_cards);
    let ghost cold = |c: Card| !listed(live_cards, c.id);
    let mut ids: Vec<String> = Vec::new();
    let mut out: Vec<SessionCard> = Vec::new();
    for card in it: live
        invariant
            it.seq() == live_items,
            live_cards == views(live_items),
            disk_cards == views(disk@),
            fill == (|c: Card| with_disk_title(c, disk_cards)),
            ids@.len() == it.index(),
            forall|j: int| 0 <= j < it.index() ==> (#[trigger] ids@[j])@ == live_cards[j].id,
            views(out@) == live_cards.take(it.index()).map_values(fill),
    {
        let ghost k = it.index();
        let ghost so_far = views(out@);
        proof {
            assert(live_cards[k] == card@);
        }
        ids.push(own(card.id.as_str()));
        let title: String = if card.title.as_str().is_empty() {
            match find_title(&disk, card.id.as_str()) {
                Some(t) => t,
                None => card.title,
            }
        } else {
            card.title
        };
        let kept: SessionCard = SessionCard {
            id: card.id,
            title,
            live: card.live,
            hosted: card.hosted,
            cwd: card.cwd,
        };
        proof {
            assert(kept@ == fill(live_cards[k]));
            assert(live_cards.take(k + 1).map_values(fill) =~= so_far.push(kept@));
        }
        out.push(kept);
        proof {
            assert(views(out@) =~= so_far.push(kept@));
        }
    }
    let ghost first = views(out@);
    proof {
        assert(live_cards.take(live_items.len() as int) =~= live_cards);
        assert(disk_cards.take(0).filter(cold) =~= Seq::empty()) by {
            reveal(Seq::filter);
        }
        assert(first + Seq::<Card>::empty() =~= first);
        assert forall|id: Seq<char>|
            listed(live_cards, id) == (exists|i: int|
                0 <= i < ids@.len() && (#[trigger] ids@[i])@ == id) by {
            if listed(live_cards, id) {
                let i = choose|i: int| 0 <= i < live_cards.len() && (#[trigger] live_cards[i]).id
                    == id;
                assert(ids@[i]@ == id);
            }
            if exists|i: int| 0 <= i < ids@.len() && (#[trigger] ids@[i])@ == id {
                let i = choose|i: int| 0 <= i < ids@.len() && (#[trigger] ids@[i])@ == id;
                assert(live_cards[i].id == id);
            }
        }
    }
    for card in it: disk
        invariant
            it.seq() == disk_items,
            disk_cards == views(disk_items),
            cold == (|c: Card| !listed(live_cards, c.id)),
            forall|id: Seq<char>|
                listed(live_cards, id) == (exists|i: int|
                    0 <= i < ids@.len() && (#[trigger] ids@[i])@ == id),
            views(out@) == first + disk_cards.take(it.index()).filter(cold),
    {
        let ghost k = it.index();
        let ghost so_far = views(out@);
        proof {
            assert(disk_cards[k] == card@);
            assert(disk_cards.take(k + 1).drop_last() =~= disk_cards.take(k));
            reveal(Seq::filter);
        }
        if !has_id(&ids, card.id.as_str()) {
            out.push(card);
            proof {
                assert(views(out@) =~= so_far.push(card@));
                assert(so_far.push(card@) =~= first + disk_cards.take(k).filter(cold).push(
                    card@,
                ));
            }
        }
    }
    proof {
        assert(disk_cards.take(disk_items.len() as int) =~= disk_cards);
    }
    out
}

/// A merged list starts with the live sessions, in their order and with their
/// state; no session on disk that is also live is listed a second time, and
/// none that is not live is left out.
pub proof fn merge_keeps_live_first(live: Seq<Card>, disk: Seq<Card>)
    ensures
        merged(live, disk).len() >= live.len(),
        forall|i: int|
            0 <= i < live.len() ==> {
                &&& (#[trigger] merged(live, disk)[i]).id == live[i].id
                &&& merged(live, disk)[i].live == live[i].live
                &&& live[i].title.len() > 0 ==> merged(live, disk)[i] == live[i]
            },
        forall|i: int|
            live.len() <= i < merged(live, disk).len() ==> !listed(
                live,
                (#[trigger] merged(live, disk)[i]).id,
            ) && disk.contains(merged(live, disk)[i]),
        forall|i: int|
            0 <= i < disk.len() && !listed(live, (#[trigger] disk[i]).id) ==> merged(
                live,
                disk,
            ).contains(disk[i]),
{
    let cold = |c: Card| !listed(live, c.id);
    let rest = disk.filter(cold);
    let m = merged(live, disk);
    assert forall|i: int| live.len() <= i < m.len() implies !listed(live, (#[trigger] m[i]).id)
        && disk.contains(m[i]) by {
        disk.lemma_filter_pred(cold, i - live.len());
        disk.lemma_filter_contains_rev(cold, rest[i - live.len()]);
        assert(m[i] == rest[i - live.len()]);
    }
    assert forall|i: int| 0 <= i < disk.len() && !listed(live, (#[trigger] disk[i]).id) implies
        m.contains(disk[i]) by {
        disk.lemma_filter_contains(cold, i);
        let k = choose|k: int| 0 <= k < rest.len() && rest[k] == disk[i];
        assert(m[live.len() + k] == disk[i]);
    }
}

} // verus!
