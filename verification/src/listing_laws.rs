//! The sessions that clients pick from, and what is said of each: all that live
//! and all that are kept on disk, each once.

use crate::codec::parsed;
use crate::hosting_laws::lemma_key_found;
use crate::json::Tree;
use crate::model::{Answer, HubState, Place, World};
use crate::order::{arranged, arranged_is_sorted, sorted, text_le};
use crate::request_laws::{method_names_differ, text_or_null};
use crate::sessions::{
    cwd_in, disk_cards, last_title, listed, of_subagent, title_in, with_disk_title, Card,
    SessionCard, Stored,
};
use crate::table::{lemma_lookup_found, lookup};
use vstd::prelude::*;

verus! {

/// What a list of sessions says of one that lives, given the title that it is
/// listed under.
pub open spec fn live_entry(sid: Seq<char>, place: Place, title: Seq<char>) -> Tree {
    match place {
        Place::Live { cwd, .. } => Tree::Object(
            map![
                "id"@ => Tree::Str(sid),
                "title"@ => Tree::Str(title),
                "live"@ => Tree::Bool(true),
                "cwd"@ => text_or_null(cwd),
                "hosted"@ => Tree::Bool(false),
            ],
        ),
        Place::Hosted { cwd, .. } => Tree::Object(
            map![
                "id"@ => Tree::Str(sid),
                "title"@ => Tree::Str(title),
                "live"@ => Tree::Bool(true),
                "cwd"@ => text_or_null(cwd),
                "hosted"@ => Tree::Bool(true),
            ],
        ),
        Place::Starting(_) => Tree::Object(
            map![
                "id"@ => Tree::Str(sid),
                "title"@ => Tree::Str(title),
                "live"@ => Tree::Bool(true),
                "cwd"@ => Tree::Null,
            ],
        ),
    }
}

/// The title that a session which lives has by itself.
pub open spec fn own_title(place: Place) -> Seq<char> {
    match place {
        Place::Live { title, .. } => title,
        Place::Hosted { title, .. } => title,
        Place::Starting(_) => Seq::empty(),
    }
}

/// What the summary of a session on disk says, nothing if it is not JSON.
pub open spec fn summary_of(s: Stored) -> Tree {
    if parsed(s.summary) is Some {
        parsed(s.summary)->0
    } else {
        Tree::Object(map![])
    }
}

/// What a list of sessions says of one that is on disk only.
pub open spec fn stored_entry(s: Stored) -> Tree {
    Tree::Object(
        map![
            "id"@ => Tree::Str(s.id),
            "title"@ => Tree::Str(title_in(summary_of(s))),
            "live"@ => Tree::Bool(false),
            "cwd"@ => text_or_null(cwd_in(summary_of(s), s.group_cwd, s.group)),
        ],
    )
}

/// Whether a session on disk is one that a client can pick and that has a title.
pub open spec fn titled(s: Stored, sid: Seq<char>, title: Seq<char>) -> bool {
    &&& s.id == sid
    &&& !of_subagent(summary_of(s))
    &&& title_in(summary_of(s)) == title
    &&& title.len() > 0
}

/// The cards of the sessions on disk are those of all that no other session
/// started.
proof fn lemma_disk_cards(found: Seq<Stored>)
    ensures
        forall|j: int|
            0 <= j < found.len() && !of_subagent((#[trigger] found[j]).tree()) ==> disk_cards(
                found,
            ).contains(found[j].card()),
        forall|k: int|
            0 <= k < disk_cards(found).len() ==> exists|j: int|
                0 <= j < found.len() && !of_subagent((#[trigger] found[j]).tree())
                    && found[j].card() == #[trigger] disk_cards(found)[k],
    decreases found.len(),
{
    if found.len() > 0 {
        let front = found.drop_last();
        let before = disk_cards(front);
        let all = disk_cards(found);
        lemma_disk_cards(front);
        assert forall|j: int|
            0 <= j < found.len() && !of_subagent((#[trigger] found[j]).tree()) implies all.contains(
            found[j].card(),
        ) by {
            if j < front.len() {
                assert(front[j] == found[j]);
                let k = choose|k: int| 0 <= k < before.len() && before[k] == front[j].card();
                assert(all[k] == found[j].card());
            } else {
                assert(all[all.len() - 1] == found[j].card());
            }
        }
        assert forall|k: int| 0 <= k < all.len() implies exists|j: int|
            0 <= j < found.len() && !of_subagent((#[trigger] found[j]).tree()) && found[j].card()
                == #[trigger] all[k] by {
            if k < before.len() {
                assert(all[k] == before[k]);
                let j = choose|j: int|
                    0 <= j < front.len() && !of_subagent((#[trigger] front[j]).tree())
                        && front[j].card() == before[k];
                assert(found[j] == front[j]);
            } else {
                assert(found[found.len() - 1] == found.last());
            }
        }
    }
}

/// Cards in order are the same cards.
proof fn lemma_arranged_contains(s: Seq<Card>, c: Card)
    ensures
        arranged::<SessionCard>(s).contains(c) == s.contains(c),
{
    broadcast use vstd::seq_lib::group_to_multiset_ensures;

    arranged_is_sorted::<SessionCard>(s);
    let t = arranged::<SessionCard>(s);
    assert(t.contains(c) == (t.to_multiset().count(c) > 0));
    assert(s.contains(c) == (s.to_multiset().count(c) > 0));
}

/// A card lives exactly if the hub knows its session.
proof fn lemma_listed(sessions: Seq<(Seq<char>, Place)>, sid: Seq<char>)
    ensures
        listed(sessions.map_values(|e: (Seq<char>, Place)| e.1.card(e.0)), sid) == lookup(
            sessions,
            sid,
        ) is Some,
    decreases sessions.len(),
{
    let cards = sessions.map_values(|e: (Seq<char>, Place)| e.1.card(e.0));
    if lookup(sessions, sid) is Some {
        let k = lemma_lookup_found(sessions, sid);
        assert(cards[k].id == sid);
    }
    if listed(cards, sid) {
        let k = choose|k: int| 0 <= k < cards.len() && (#[trigger] cards[k]).id == sid;
        lemma_key_found(sessions, k);
    }
}

/// The last title under an id is one of the titles under it.
proof fn lemma_last_title(cards: Seq<Card>, id: Seq<char>)
    ensures
        last_title(cards, id) matches Some(t) ==> t.len() > 0 && exists|k: int|
            0 <= k < cards.len() && (#[trigger] cards[k]).id == id && cards[k].title == t,
        last_title(cards, id) is None ==> forall|k: int|
            0 <= k < cards.len() && (#[trigger] cards[k]).id == id ==> cards[k].title.len() == 0,
    decreases cards.len(),
{
    if cards.len() > 0 {
        let front = cards.drop_last();
        lemma_last_title(front, id);
        if cards.last().id == id && cards.last().title.len() > 0 {
            assert(cards[cards.len() - 1] == cards.last());
        } else {
            if let Some(t) = last_title(front, id) {
                let k = choose|k: int|
                    0 <= k < front.len() && (#[trigger] front[k]).id == id && front[k].title == t;
                assert(cards[k] == front[k]);
            } else {
                assert forall|k: int|
                    0 <= k < cards.len() && (#[trigger] cards[k]).id == id implies cards[k].title.len()
                    == 0 by {
                    if k < front.len() {
                        assert(front[k] == cards[k]);
                    }
                }
            }
        }
    }
}

/// The entries of an answer to a request for the list of sessions.
pub open spec fn entries_in(a: Answer) -> Seq<Tree> {
    a->Done_0.get("sessions"@)->0->Array_0
}

/// A list of sessions begins with every session that lives in the hub, in the
/// hub's order: under its id, as live, with its directory, hosted exactly if a
/// client runs it, and under its title. One without a title is listed under one
/// that the disk has for it, if there is one. The hub does not change.
pub proof fn live_sessions_are_listed(
    h: HubState,
    client: u64,
    id: Tree,
    params: Tree,
    w: World,
    i: int,
)
    requires
        0 <= i < h.sessions.len(),
    ensures
        ({
            let (g, a) = h.requested(client, id, "gtm/sessions.list"@, params, w);
            let (sid, place) = h.sessions[i];
            let entry = entries_in(a)[i];
            let title = entry.get("title"@)->0->Str_0;
            &&& g == h
            &&& a == Answer::Done(
                Tree::Object(map!["sessions"@ => Tree::Array(entries_in(a))]),
            )
            &&& i < entries_in(a).len()
            &&& entry == live_entry(sid, place, title)
            &&& own_title(place).len() > 0 ==> title == own_title(place)
            &&& own_title(place).len() == 0 ==> {
                &&& title.len() > 0 ==> exists|j: int|
                    0 <= j < w.stored.len() && titled(#[trigger] w.stored[j], sid, title)
                &&& title.len() == 0 ==> forall|j: int|
                    0 <= j < w.stored.len() && (#[trigger] w.stored[j]).id == sid && !of_subagent(
                        summary_of(w.stored[j]),
                    ) ==> title_in(summary_of(w.stored[j])).len() == 0
            }
        }),
{
    lemma_list_request(h, client, id, params, w);
    let live = h.sessions.map_values(|e: (Seq<char>, Place)| e.1.card(e.0));
    let plain = disk_cards(w.stored);
    let disk = arranged::<SessionCard>(plain);
    let (sid, place) = h.sessions[i];
    let card = with_disk_title(place.card(sid), disk);
    assert(h.listing(w)[i] == card);
    lemma_live_entry(sid, place, disk);
    lemma_card_title(card);
    lemma_own_title(place, sid, w.stored);
}

/// The answer to a request for the list of sessions.
proof fn lemma_list_request(h: HubState, client: u64, id: Tree, params: Tree, w: World)
    ensures
        ({
            let (g, a) = h.requested(client, id, "gtm/sessions.list"@, params, w);
            &&& g == h
            &&& a == Answer::Done(Tree::Object(map!["sessions"@ => Tree::Array(entries_in(a))]))
            &&& entries_in(a) == h.listing(w).map_values(|c: Card| c.json())
        }),
{
    method_names_differ();
}

/// The entry of a session that lives.
proof fn lemma_live_entry(sid: Seq<char>, place: Place, disk: Seq<Card>)
    ensures
        ({
            let card = with_disk_title(place.card(sid), disk);
            card.json() == live_entry(sid, place, card.title)
        }),
{
    let card = with_disk_title(place.card(sid), disk);
    assert(card.json() =~= live_entry(sid, place, card.title));
}

/// The title under which a session that lives is listed.
proof fn lemma_own_title(place: Place, sid: Seq<char>, stored: Seq<Stored>)
    ensures
        ({
            let title = with_disk_title(
                place.card(sid),
                arranged::<SessionCard>(disk_cards(stored)),
            ).title;
            &&& own_title(place).len() > 0 ==> title == own_title(place)
            &&& own_title(place).len() == 0 ==> {
                &&& title.len() > 0 ==> exists|j: int|
                    0 <= j < stored.len() && titled(#[trigger] stored[j], sid, title)
                &&& title.len() == 0 ==> forall|j: int|
                    0 <= j < stored.len() && (#[trigger] stored[j]).id == sid && !of_subagent(
                        summary_of(stored[j]),
                    ) ==> title_in(summary_of(stored[j])).len() == 0
            }
        }),
{
    reveal_strlit("");
    assert(""@ =~= Seq::<char>::empty());
    let plain = disk_cards(stored);
    let disk = arranged::<SessionCard>(plain);
    let title = with_disk_title(place.card(sid), disk).title;
    lemma_last_title(disk, sid);
    lemma_disk_cards(stored);
    if own_title(place).len() == 0 {
        if title.len() > 0 {
            let k = choose|k: int|
                0 <= k < disk.len() && (#[trigger] disk[k]).id == sid && disk[k].title == title;
            assert(disk.contains(disk[k]));
            lemma_arranged_contains(plain, disk[k]);
            let p = choose|p: int| 0 <= p < plain.len() && plain[p] == disk[k];
            let j = choose|j: int|
                0 <= j < stored.len() && !of_subagent((#[trigger] stored[j]).tree())
                    && stored[j].card() == plain[p];
            assert(titled(stored[j], sid, title));
        } else {
            assert forall|j: int|
                0 <= j < stored.len() && (#[trigger] stored[j]).id == sid && !of_subagent(
                    summary_of(stored[j]),
                ) implies title_in(summary_of(stored[j])).len() == 0 by {
                assert(!of_subagent(stored[j].tree()));
                lemma_arranged_contains(plain, stored[j].card());
                let k = choose|k: int| 0 <= k < disk.len() && disk[k] == stored[j].card();
                assert(disk[k].id == sid);
            }
        }
    }
}

/// Behind the sessions that live, a list of sessions has every session on disk
/// that does not live and that no other session started, with its title and its
/// directory, in the order of the titles; and it has nothing else.
pub proof fn stored_sessions_are_listed(
    h: HubState,
    client: u64,
    id: Tree,
    params: Tree,
    w: World,
)
    ensures
        ({
            let a = h.requested(client, id, "gtm/sessions.list"@, params, w).1;
            let entries = entries_in(a);
            let n = h.sessions.len() as int;
            &&& entries.len() == n + w.stored.filter(
                |s: Stored| !of_subagent(summary_of(s)) && h.place(s.id) is None,
            ).len()
            &&& forall|j: int|
                0 <= j < w.stored.len() && !of_subagent(summary_of(#[trigger] w.stored[j]))
                    && h.place(w.stored[j].id) is None ==> exists|k: int|
                    n <= k < entries.len() && #[trigger] entries[k] == stored_entry(w.stored[j])
            &&& forall|k: int|
                n <= k < entries.len() ==> exists|j: int|
                    0 <= j < w.stored.len() && #[trigger] entries[k] == stored_entry(
                        #[trigger] w.stored[j],
                    ) && !of_subagent(summary_of(w.stored[j])) && h.place(w.stored[j].id) is None
            &&& forall|k: int, l: int|
                n <= k <= l < entries.len() ==> text_le(
                    (#[trigger] entries[k]).get("title"@)->0->Str_0,
                    (#[trigger] entries[l]).get("title"@)->0->Str_0,
                )
        }),
{
    lemma_list_request(h, client, id, params, w);
    let live = h.sessions.map_values(|e: (Seq<char>, Place)| e.1.card(e.0));
    let plain = disk_cards(w.stored);
    let disk = arranged::<SessionCard>(plain);
    let cold = |c: Card| !listed(live, c.id);
    let rest = disk.filter(cold);
    let n = h.sessions.len() as int;
    let a = h.requested(client, id, "gtm/sessions.list"@, params, w).1;
    let all = h.listing(w);
    let entries = entries_in(a);
    assert(entries == all.map_values(|c: Card| c.json()));
    arranged_is_sorted::<SessionCard>(plain);
    lemma_disk_cards(w.stored);
    assert forall|k: int| n <= k < entries.len() implies #[trigger] entries[k] == rest[k - n].json() by {
        assert(all[k] == rest[k - n]);
    }
    assert forall|j: int|
        0 <= j < w.stored.len() && !of_subagent(summary_of(#[trigger] w.stored[j])) && h.place(
            w.stored[j].id,
        ) is None implies exists|k: int|
        n <= k < entries.len() && #[trigger] entries[k] == stored_entry(w.stored[j]) by {
        let c = w.stored[j].card();
        assert(!of_subagent(w.stored[j].tree()));
        lemma_arranged_contains(plain, c);
        lemma_listed(h.sessions, c.id);
        let d = choose|d: int| 0 <= d < disk.len() && disk[d] == c;
        disk.lemma_filter_contains(cold, d);
        let r = choose|r: int| 0 <= r < rest.len() && rest[r] == c;
        assert(all[n + r] == c);
        assert(entries[n + r] == c.json());
        assert(c.json() =~= stored_entry(w.stored[j]));
    }
    assert forall|k: int| n <= k < entries.len() implies exists|j: int|
        0 <= j < w.stored.len() && #[trigger] entries[k] == stored_entry(#[trigger] w.stored[j])
            && !of_subagent(summary_of(w.stored[j])) && h.place(w.stored[j].id) is None by {
        let c = rest[k - n];
        disk.lemma_filter_pred(cold, k - n);
        assert(rest.contains(c));
        disk.lemma_filter_contains_rev(cold, c);
        lemma_arranged_contains(plain, c);
        let p = choose|p: int| 0 <= p < plain.len() && plain[p] == c;
        let j = choose|j: int|
            0 <= j < w.stored.len() && !of_subagent((#[trigger] w.stored[j]).tree())
                && w.stored[j].card() == plain[p];
        lemma_listed(h.sessions, c.id);
        assert(c.json() =~= stored_entry(w.stored[j]));
        assert(entries[k] == stored_entry(w.stored[j]));
    }
    assert forall|k: int, l: int| n <= k <= l < entries.len() implies text_le(
        (#[trigger] entries[k]).get("title"@)->0->Str_0,
        (#[trigger] entries[l]).get("title"@)->0->Str_0,
    ) by {
        lemma_filter_sorted(disk, cold, k - n, l - n);
        assert(entries[k] == rest[k - n].json());
        assert(entries[l] == rest[l - n].json());
        lemma_card_title(rest[k - n]);
        lemma_card_title(rest[l - n]);
    }
    lemma_cold_count(h, w.stored);
    lemma_same_filter_len(disk, plain, cold);
}

/// A card's entry has its title.
proof fn lemma_card_title(c: Card)
    ensures
        c.json().get("title"@) == Some(Tree::Str(c.title)),
{
    reveal_strlit("id");
    reveal_strlit("title");
    reveal_strlit("live");
    reveal_strlit("cwd");
    reveal_strlit("hosted");
    assert("title"@[0] != "hosted"@[0]);
    assert("title"@.len() == 5 && "live"@.len() == 4 && "cwd"@.len() == 3 && "hosted"@.len() == 6);
}

/// What stays of a sorted list is sorted.
proof fn lemma_filter_sorted(s: Seq<Card>, p: spec_fn(Card) -> bool, i: int, j: int)
    requires
        sorted::<SessionCard>(s),
        0 <= i <= j < s.filter(p).len(),
    ensures
        text_le(s.filter(p)[i].title, s.filter(p)[j].title),
    decreases s.len(),
{
    reveal(Seq::filter);
    let front = s.drop_last();
    let t = s.filter(p);
    let u = front.filter(p);
    assert(sorted::<SessionCard>(front)) by {
        assert forall|a: int, b: int| 0 <= a <= b < front.len() implies text_le(
            (#[trigger] front[a]).title,
            (#[trigger] front[b]).title,
        ) by {
            assert(s[a] == front[a] && s[b] == front[b]);
        }
    }
    if j < u.len() {
        lemma_filter_sorted(front, p, i, j);
    } else if i < u.len() {
        assert(t[i] == u[i]);
        assert(u.contains(u[i]));
        front.lemma_filter_contains_rev(p, u[i]);
        let a = choose|a: int| 0 <= a < front.len() && front[a] == u[i];
        assert(s[a] == t[i] && s[s.len() - 1] == t[j]);
    } else {
        crate::order::text_le_total(t[i].title, t[i].title);
    }
}

/// As many cards stay in whatever order they stand.
proof fn lemma_same_filter_len(s: Seq<Card>, t: Seq<Card>, p: spec_fn(Card) -> bool)
    requires
        s.to_multiset() == t.to_multiset(),
    ensures
        s.filter(p).len() == t.filter(p).len(),
{
    lemma_filter_multiset(s, p);
    lemma_filter_multiset(t, p);
    s.filter(p).to_multiset_ensures();
    t.filter(p).to_multiset_ensures();
}

proof fn lemma_filter_multiset(s: Seq<Card>, p: spec_fn(Card) -> bool)
    ensures
        s.filter(p).to_multiset() == s.to_multiset().filter(p),
    decreases s.len(),
{
    broadcast use {vstd::seq_lib::group_to_multiset_ensures, vstd::multiset::group_multiset_axioms};

    reveal(Seq::filter);
    if s.len() > 0 {
        let front = s.drop_last();
        lemma_filter_multiset(front, p);
        assert(s =~= front.push(s.last()));
        assert(s.filter(p).to_multiset() =~= s.to_multiset().filter(p));
    } else {
        assert(s.filter(p).to_multiset() =~= s.to_multiset().filter(p));
    }
}

/// As many cards on disk do not live as there are such sessions on disk.
proof fn lemma_cold_count(h: HubState, found: Seq<Stored>)
    ensures
        disk_cards(found).filter(
            |c: Card|
                !listed(h.sessions.map_values(|e: (Seq<char>, Place)| e.1.card(e.0)), c.id),
        ).len() == found.filter(
            |s: Stored| !of_subagent(summary_of(s)) && h.place(s.id) is None,
        ).len(),
    decreases found.len(),
{
    reveal(Seq::filter);
    let cold = |c: Card|
        !listed(h.sessions.map_values(|e: (Seq<char>, Place)| e.1.card(e.0)), c.id);
    let kept = |s: Stored| !of_subagent(summary_of(s)) && h.place(s.id) is None;
    if found.len() > 0 {
        let front = found.drop_last();
        let last = found.last();
        lemma_cold_count(h, front);
        lemma_listed(h.sessions, last.id);
        assert(last.tree() == summary_of(last));
        if !of_subagent(last.tree()) {
            let before = disk_cards(front);
            assert(disk_cards(found).drop_last() =~= before);
            assert(disk_cards(found).last() == last.card());
        }
    }
}

} // verus!
