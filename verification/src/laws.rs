//! What holds of the hub whatever happens: who may be connected at a time, who
//! gets which message, and who runs a session.

use crate::json::Tree;
use crate::model::{
    after, farewell, lan_allowed, sent_off, turned_away, Act, Answer, Cmd, Errand, HostedPrompt,
    HubState, LAN_CONN_MAX, LOCAL_CONN_MAX, Member, Place, Waiter, World,
};
use crate::server::{method_in, params_in, ConnState};
use crate::table::{
    lemma_lookup_found, lemma_lookup_put, lemma_lookup_without, lemma_no_position, lemma_position,
    lemma_without, lookup, put, without,
};
use crate::tls::Device;
use vstd::prelude::*;

verus! {

/// What does not change about a client while it is connected.
pub struct Seat {
    pub id: u64,
    pub lan: bool,
    pub fp: Option<Seq<char>>,
}

/// The seat of a client.
pub open spec fn seat(c: (u64, Member)) -> Seat {
    Seat { id: c.0, lan: c.1.lan, fp: c.1.fp }
}

/// The seats of all clients.
pub open spec fn seats(clients: Seq<(u64, Member)>) -> Seq<Seat> {
    clients.map_values(|c: (u64, Member)| seat(c))
}

/// Whether the seats are taken as they may be: no two clients have the same id,
/// each id was given out, no two network clients are of the same device, every
/// network client is of one, and no more clients came in either way than may.
pub open spec fn seated(s: Seq<Seat>, next: u64) -> bool {
    &&& forall|i: int, j: int| 0 <= i < j < s.len() ==> (#[trigger] s[i]).id != (#[trigger] s[j]).id
    &&& forall|i: int| 0 <= i < s.len() ==> (#[trigger] s[i]).id < next
    &&& forall|i: int| 0 <= i < s.len() && (#[trigger] s[i]).lan ==> s[i].fp is Some
    &&& forall|i: int, j: int|
        0 <= i < j < s.len() && (#[trigger] s[i]).lan && (#[trigger] s[j]).lan ==> s[i].fp
            != s[j].fp
    &&& s.filter(|x: Seat| x.lan == true).len() <= LAN_CONN_MAX
    &&& s.filter(|x: Seat| x.lan == false).len() <= LOCAL_CONN_MAX
}

/// Whether the hub's clients are as they may be.
pub open spec fn orderly(h: HubState) -> bool {
    seated(seats(h.clients), h.next_client)
}

/// Filtering what was mapped is mapping what was filtered.
proof fn lemma_filter_map<A, B>(
    s: Seq<A>,
    f: spec_fn(A) -> bool,
    g: spec_fn(A) -> B,
    p: spec_fn(B) -> bool,
)
    requires
        forall|x: A| #[trigger] f(x) == p(g(x)),
    ensures
        s.filter(f).map_values(g) == s.map_values(g).filter(p),
    decreases s.len(),
{
    reveal(Seq::filter);
    if s.len() > 0 {
        lemma_filter_map(s.drop_last(), f, g, p);
        assert(s.map_values(g).drop_last() =~= s.drop_last().map_values(g));
        assert(s.map_values(g).last() == g(s.last()));
        if f(s.last()) {
            assert(s.filter(f).map_values(g) =~= s.drop_last().filter(f).map_values(g).push(
                g(s.last()),
            ));
        }
    } else {
        assert(s.filter(f).map_values(g) =~= s.map_values(g).filter(p));
    }
}

/// Filtering first leaves no more.
proof fn lemma_filter_twice<A>(s: Seq<A>, p: spec_fn(A) -> bool, q: spec_fn(A) -> bool)
    ensures
        s.filter(p).filter(q).len() <= s.filter(q).len(),
    decreases s.len(),
{
    reveal(Seq::filter);
    if s.len() > 0 {
        lemma_filter_twice(s.drop_last(), p, q);
        let front = s.drop_last().filter(p);
        if p(s.last()) {
            assert(s.filter(p).drop_last() =~= front);
            assert(s.filter(p).filter(q) == if q(s.last()) {
                front.filter(q).push(s.last())
            } else {
                front.filter(q)
            });
        }
    }
}

/// Clients that leave leave the others seated as they may be.
proof fn lemma_seated_filter(s: Seq<Seat>, next: u64, p: spec_fn(Seat) -> bool)
    requires
        seated(s, next),
    ensures
        seated(s.filter(p), next),
{
    let t = s.filter(p);
    lemma_filter_twice(s, p, |x: Seat| x.lan == true);
    lemma_filter_twice(s, p, |x: Seat| x.lan == false);
    assert forall|i: int| 0 <= i < t.len() implies (#[trigger] t[i]).id < next by {
        s.lemma_filter_contains_rev(p, t[i]);
        let k = choose|k: int| 0 <= k < s.len() && s[k] == t[i];
        assert(s[k].id < next);
    }
    assert forall|i: int| 0 <= i < t.len() && (#[trigger] t[i]).lan implies t[i].fp is Some by {
        s.lemma_filter_contains_rev(p, t[i]);
        let k = choose|k: int| 0 <= k < s.len() && s[k] == t[i];
        assert(s[k].fp is Some);
    }
    assert forall|i: int, j: int| 0 <= i < j < t.len() implies (#[trigger] t[i]).id != (
    #[trigger] t[j]).id by {
        lemma_filter_pairs(s, p, i, j);
        let (a, b) = choose|a: int, b: int|
            0 <= a < b < s.len() && #[trigger] s[a] == t[i] && #[trigger] s[b] == t[j];
        assert(s[a].id != s[b].id);
    }
    assert forall|i: int, j: int|
        0 <= i < j < t.len() && (#[trigger] t[i]).lan && (#[trigger] t[j]).lan implies t[i].fp
        != t[j].fp by {
        lemma_filter_pairs(s, p, i, j);
        let (a, b) = choose|a: int, b: int|
            0 <= a < b < s.len() && #[trigger] s[a] == t[i] && #[trigger] s[b] == t[j];
        assert(s[a].fp != s[b].fp);
    }
}

/// Whether one item stands before another.
spec fn stands_before<A>(s: Seq<A>, x: A, y: A) -> bool {
    exists|a: int, b: int| 0 <= a < b < s.len() && #[trigger] s[a] == x && #[trigger] s[b] == y
}

/// What stands in order after filtering stood in order before.
proof fn lemma_filter_pairs<A>(s: Seq<A>, p: spec_fn(A) -> bool, i: int, j: int)
    requires
        0 <= i < j < s.filter(p).len(),
    ensures
        stands_before(s, s.filter(p)[i], s.filter(p)[j]),
    decreases s.len(),
{
    reveal(Seq::filter);
    let t = s.filter(p);
    let front = s.drop_last();
    let u = front.filter(p);
    if j < u.len() {
        assert(t[i] == u[i] && t[j] == u[j]);
        lemma_filter_pairs(front, p, i, j);
        let (a, b) = choose|a: int, b: int|
            0 <= a < b < front.len() && #[trigger] front[a] == u[i] && #[trigger] front[b] == u[j];
        assert(s[a] == t[i] && s[b] == t[j]);
    } else {
        assert(t[i] == u[i]);
        assert(u.contains(u[i]));
        front.lemma_filter_contains_rev(p, u[i]);
        let a = choose|a: int| 0 <= a < front.len() && front[a] == u[i];
        assert(s[a] == t[i] && s[s.len() - 1] == t[j]);
    }
}

/// Putting a client back with the same seat changes no seat.
proof fn lemma_same_seats(clients: Seq<(u64, Member)>, id: u64, m: Member)
    requires
        lookup(clients, id) matches Some(old) && old.lan == m.lan && old.fp == m.fp,
    ensures
        seats(put(clients, id, m)) == seats(clients),
    decreases clients.len(),
{
    if clients[0].0 == id {
        assert(seats(put(clients, id, m)) =~= seats(clients));
    } else {
        lemma_same_seats(clients.drop_first(), id, m);
        let rest = put(clients.drop_first(), id, m);
        assert(seats(clients.drop_first()) =~= seats(clients).drop_first());
        assert(seats(seq![clients[0]] + rest) =~= seq![seat(clients[0])] + seats(rest));
        assert(seats(clients) =~= seq![seat(clients[0])] + seats(clients).drop_first());
    }
}

/// Following a session changes no seat.
pub proof fn following_keeps_seats(h: HubState, id: u64, sid: Seq<char>)
    ensures
        seats(h.following(id, sid).clients) == seats(h.clients),
        seats(h.not_following(id, sid).clients) == seats(h.clients),
{
    if let Some(m) = h.member(id) {
        lemma_same_seats(h.clients, id, Member { subs: m.subs.insert(sid), ..m });
        lemma_same_seats(h.clients, id, Member { subs: m.subs.remove(sid), ..m });
    }
}

/// Answering those who waited changes no seat.
proof fn lemma_welcomed_keeps_seats(h: HubState, waiters: Seq<Waiter>, sid: Seq<char>, r: Tree)
    ensures
        seats(h.welcomed(waiters, sid, r).clients) == seats(h.clients),
        h.welcomed(waiters, sid, r).next_client == h.next_client,
    decreases waiters.len(),
{
    if waiters.len() > 0 {
        lemma_welcomed_keeps_seats(h, waiters.drop_last(), sid, r);
        following_keeps_seats(
            h.welcomed(waiters.drop_last(), sid, r),
            waiters.last().client,
            sid,
        );
    }
}

/// Failing prompts changes no client.
pub proof fn lemma_prompts_failed_keeps(h: HubState, pending: Seq<(Seq<char>, HostedPrompt)>)
    ensures
        ({
            let s = h.prompts_failed(pending);
            &&& s.clients == h.clients
            &&& s.sessions == h.sessions
            &&& s.prompts == h.prompts
            &&& s.routes == h.routes
            &&& s.next_client == h.next_client
            &&& s.next_perm == h.next_perm
            &&& s.next_actor == h.next_actor
            &&& s.lan == h.lan
        }),
    decreases pending.len(),
{
    if pending.len() > 0 {
        lemma_prompts_failed_keeps(h, pending.drop_last());
    }
}

/// Sending clients of a device off leaves the others seated as they may be.
proof fn lemma_evicting_orderly(h: HubState, fp: Seq<char>, reason: Seq<char>)
    requires
        orderly(h),
    ensures
        orderly(h.evicting(fp, reason)),
        seats(h.evicting(fp, reason).clients) == seats(h.clients).filter(
            |x: Seat| x.fp != Some(fp),
        ),
{
    let f = |c: (u64, Member)| c.1.fp != Some(fp);
    let g = |c: (u64, Member)| seat(c);
    let p = |x: Seat| x.fp != Some(fp);
    assert forall|c: (u64, Member)| #[trigger] f(c) == p(g(c)) by {}
    lemma_filter_map(h.clients, f, g, p);
    lemma_seated_filter(seats(h.clients), h.next_client, p);
}

/// The number of clients that came in one way, by their seats.
proof fn lemma_count(h: HubState, lan: bool)
    ensures
        h.count(lan) == seats(h.clients).filter(|x: Seat| x.lan == lan).len(),
{
    let f = |c: (u64, Member)| c.1.lan == lan;
    let g = |c: (u64, Member)| seat(c);
    let p = |x: Seat| x.lan == lan;
    assert forall|c: (u64, Member)| #[trigger] f(c) == p(g(c)) by {}
    lemma_filter_map(h.clients, f, g, p);
    assert(h.clients.filter(f).map_values(g).len() == h.clients.filter(f).len());
}

/// A hub to which nothing has happened is as it may be.
pub proof fn new_hub_is_orderly(port: u16)
    ensures
        orderly(HubState::start(port)),
{
    let s = seats(HubState::start(port).clients);
    assert(s =~= Seq::empty());
    reveal(Seq::filter);
}

/// Filtering something out that would count makes the count less.
proof fn lemma_filter_loses<A>(s: Seq<A>, p: spec_fn(A) -> bool, q: spec_fn(A) -> bool, k: int)
    requires
        0 <= k < s.len(),
        !p(s[k]),
        q(s[k]),
    ensures
        s.filter(p).filter(q).len() < s.filter(q).len(),
    decreases s.len(),
{
    reveal(Seq::filter);
    let front = s.drop_last();
    let u = front.filter(p);
    if p(s.last()) {
        assert(s.filter(p).drop_last() =~= u);
        assert(s.filter(p).filter(q) == if q(s.last()) {
            u.filter(q).push(s.last())
        } else {
            u.filter(q)
        });
    }
    if k < front.len() {
        lemma_filter_loses(front, p, q, k);
    } else {
        lemma_filter_twice(front, p, q);
    }
}

/// Counting with one more.
proof fn lemma_filter_push<A>(s: Seq<A>, x: A, q: spec_fn(A) -> bool)
    ensures
        s.push(x).filter(q) == if q(x) {
            s.filter(q).push(x)
        } else {
            s.filter(q)
        },
{
    reveal(Seq::filter);
    assert(s.push(x).drop_last() =~= s);
}

/// A client that joins where there is room, and whose device has no other
/// connection, sits as it may.
proof fn lemma_joined_orderly(h: HubState, lan: bool, fp: Option<Seq<char>>)
    requires
        orderly(h),
        h.next_client < u64::MAX,
        lan ==> fp is Some,
        lan ==> forall|i: int|
            0 <= i < seats(h.clients).len() ==> (#[trigger] seats(h.clients)[i]).fp != fp,
        lan ==> h.count(true) < LAN_CONN_MAX,
        !lan ==> h.count(false) < LOCAL_CONN_MAX,
    ensures
        orderly(h.joined(lan, fp)),
        h.joined(lan, fp).clients == h.clients.push(
            (h.next_client, Member { subs: Set::empty(), lan, fp }),
        ),
        h.member(h.next_client) is None,
{
    let me = Member { subs: Set::empty(), lan, fp };
    let s = seats(h.clients);
    assert forall|j: int| 0 <= j < h.clients.len() implies (#[trigger] h.clients[j]).0
        != h.next_client by {
        assert(s[j].id < h.next_client);
    }
    lemma_no_position(h.clients, h.next_client, me);
    let t = seats(h.joined(lan, fp).clients);
    let x = Seat { id: h.next_client, lan, fp };
    assert(t =~= s.push(x));
    lemma_count(h, true);
    lemma_count(h, false);
    lemma_filter_push(s, x, |x: Seat| x.lan == true);
    lemma_filter_push(s, x, |x: Seat| x.lan == false);
    assert forall|i: int, j: int| 0 <= i < j < t.len() implies (#[trigger] t[i]).id != (
    #[trigger] t[j]).id by {
        assert(t[i] == s[i]);
        if j < s.len() {
            assert(t[j] == s[j]);
        }
    }
    assert forall|i: int| 0 <= i < t.len() implies (#[trigger] t[i]).id < after(
        h.next_client,
    ) by {
        if i < s.len() {
            assert(t[i] == s[i]);
        }
    }
    assert forall|i: int| 0 <= i < t.len() && (#[trigger] t[i]).lan implies t[i].fp is Some by {
        if i < s.len() {
            assert(t[i] == s[i]);
        }
    }
    assert forall|i: int, j: int|
        0 <= i < j < t.len() && (#[trigger] t[i]).lan && (#[trigger] t[j]).lan implies t[i].fp
        != t[j].fp by {
        assert(t[i] == s[i]);
        if j < s.len() {
            assert(t[j] == s[j]);
        }
    }
}

/// Room made for a greeting leaves nobody of the same device.
proof fn lemma_cleared(h: HubState, lan: bool, fp: Option<Seq<char>>)
    requires
        orderly(h),
    ensures
        orderly(h.cleared_for(lan, fp)),
        h.cleared_for(lan, fp).next_client == h.next_client,
        lan && fp is Some ==> forall|i: int|
            0 <= i < seats(h.cleared_for(lan, fp).clients).len() ==> (#[trigger] seats(
                h.cleared_for(lan, fp).clients,
            )[i]).fp != fp,
{
    if lan && fp is Some {
        let f = fp->0;
        lemma_evicting_orderly(h, f, "replaced"@);
        let p = |x: Seat| x.fp != Some(f);
        let s = seats(h.clients);
        assert forall|i: int| 0 <= i < s.filter(p).len() implies (#[trigger] s.filter(p)[i]).fp
            != fp by {
            s.lemma_filter_pred(p, i);
        }
    }
}

/// Whatever greeting comes in, the hub's clients stay as they may be: at most
/// two over the network, at most eight local ones, and no two network clients
/// of the same device.
pub proof fn greeting_keeps_the_hub_orderly(
    h: HubState,
    params: Tree,
    lan: bool,
    fp: Option<Seq<char>>,
    devices: Seq<Device>,
    now: u64,
)
    requires
        orderly(h),
        h.next_client < u64::MAX,
    ensures
        orderly(h.greeted(params, lan, fp, devices, now).0),
        h.greeted(params, lan, fp, devices, now).0.count(true) <= LAN_CONN_MAX,
        h.greeted(params, lan, fp, devices, now).0.count(false) <= LOCAL_CONN_MAX,
{
    let after_greeting = h.greeted(params, lan, fp, devices, now).0;
    lemma_cleared(h, lan, fp);
    let s = h.cleared_for(lan, fp);
    if turned_away(params, lan, fp, devices, now) is None {
        let max = if lan {
            LAN_CONN_MAX
        } else {
            LOCAL_CONN_MAX
        };
        if s.count(lan) < max {
            lemma_joined_orderly(s, lan, fp);
        }
    }
    lemma_count(after_greeting, true);
    lemma_count(after_greeting, false);
}

/// A greeting that is let in adds exactly one client, under an id that nobody
/// had, and after it nobody else over the network is of the same device.
pub proof fn greeting_that_is_let_in_replaces_the_same_device(
    h: HubState,
    params: Tree,
    fp: Seq<char>,
    devices: Seq<Device>,
    now: u64,
)
    requires
        orderly(h),
        h.next_client < u64::MAX,
        h.greeted(params, true, Some(fp), devices, now).1 is Ok,
    ensures
        ({
            let (s, r) = h.greeted(params, true, Some(fp), devices, now);
            let id = (r->Ok_0).0;
            &&& h.member(id) is None
            &&& s.member(id) matches Some(m) && m.lan && m.fp == Some(fp)
            &&& forall|other: u64|
                other != id && (#[trigger] s.member(other)) is Some ==> s.member(other)->0.fp
                    != Some(fp)
        }),
{
    lemma_cleared(h, true, Some(fp));
    let s = h.cleared_for(true, Some(fp));
    lemma_joined_orderly(s, true, Some(fp));
    let id = s.next_client;
    let me = Member { subs: Set::<Seq<char>>::empty(), lan: true, fp: Some(fp) };
    let t = s.joined(true, Some(fp));
    lemma_lookup_put(s.clients, id, me, id);
    if h.member(id) is Some {
        let k = lemma_lookup_found(h.clients, id);
        assert(seats(h.clients)[k].id < h.next_client);
    }
    assert forall|other: u64| other != id && (#[trigger] t.member(other)) is Some implies t.member(
        other,
    )->0.fp != Some(fp) by {
        lemma_lookup_put(s.clients, id, me, other);
        let k = lemma_lookup_found(s.clients, other);
        assert(seats(s.clients)[k].fp != Some(fp));
    }
}

/// A device that is connected can always come back: its older connection makes
/// way before connections are counted.
pub proof fn connected_device_is_never_turned_away_for_want_of_room(
    h: HubState,
    params: Tree,
    fp: Seq<char>,
    devices: Seq<Device>,
    now: u64,
    id: u64,
)
    requires
        orderly(h),
        h.member(id) matches Some(m) && m.lan && m.fp == Some(fp),
        turned_away(params, true, Some(fp), devices, now) is None,
    ensures
        h.greeted(params, true, Some(fp), devices, now).1 is Ok,
{
    let s = h.cleared_for(true, Some(fp));
    lemma_evicting_orderly(h, fp, "replaced"@);
    let k = lemma_lookup_found(h.clients, id);
    let p = |x: Seat| x.fp != Some(fp);
    let q = |x: Seat| x.lan == true;
    lemma_filter_loses(seats(h.clients), p, q, k);
    lemma_count(s, true);
}

/// Every connection of a device that is sent off is told why, and let go of.
pub proof fn replaced_connection_is_told(h: HubState, fp: Seq<char>, reason: Seq<char>, id: u64)
    requires
        h.member(id) matches Some(m) && m.fp == Some(fp),
    ensures
        h.evicting(fp, reason).out.contains(Act::Send(id, farewell(reason))),
        h.evicting(fp, reason).out.contains(Act::Close(id)),
        h.evicting(fp, reason).member(id) matches Some(m) ==> m.fp != Some(fp),
{
    let goes = |c: (u64, Member)| c.1.fp == Some(fp);
    let stays = |c: (u64, Member)| c.1.fp != Some(fp);
    let k = lemma_lookup_found(h.clients, id);
    let gone = h.clients.filter(goes);
    h.clients.lemma_filter_contains(goes, k);
    let i = choose|i: int| 0 <= i < gone.len() && gone[i] == h.clients[k];
    lemma_sent_off(gone, reason, i);
    let acts = sent_off(gone, reason);
    let a = choose|a: int| 0 <= a < acts.len() && acts[a] == Act::Send(id, farewell(reason));
    let b = choose|b: int| 0 <= b < acts.len() && acts[b] == Act::Close(id);
    let out = h.evicting(fp, reason).out;
    assert(out[h.out.len() + a] == acts[a]);
    assert(out[h.out.len() + b] == acts[b]);
    if h.evicting(fp, reason).member(id) is Some {
        let j = lemma_lookup_found(h.evicting(fp, reason).clients, id);
        h.clients.lemma_filter_pred(stays, j);
    }
}

/// Every client that is sent off is told and let go of.
proof fn lemma_sent_off(gone: Seq<(u64, Member)>, reason: Seq<char>, i: int)
    requires
        0 <= i < gone.len(),
    ensures
        sent_off(gone, reason).contains(Act::Send(gone[i].0, farewell(reason))),
        sent_off(gone, reason).contains(Act::Close(gone[i].0)),
    decreases gone.len(),
{
    let acts = sent_off(gone, reason);
    let front = sent_off(gone.drop_last(), reason);
    let n = front.len() as int;
    assert(acts[n] == Act::Send(gone.last().0, farewell(reason)));
    assert(acts[n + 1] == Act::Close(gone.last().0));
    if i < gone.len() - 1 {
        lemma_sent_off(gone.drop_last(), reason, i);
        let a = choose|a: int|
            0 <= a < front.len() && front[a] == Act::Send(gone[i].0, farewell(reason));
        let b = choose|b: int| 0 <= b < front.len() && front[b] == Act::Close(gone[i].0);
        assert(acts[a] == front[a]);
        assert(acts[b] == front[b]);
    }
}

/// Whether two hubs have the same seats taken.
pub open spec fn same_seats(a: HubState, b: HubState) -> bool {
    seats(a.clients) == seats(b.clients) && a.next_client == b.next_client
}

/// A session changing hands changes no seat.
proof fn lemma_taken_keeps_seats(
    h: HubState,
    client: u64,
    sid: Seq<char>,
    cwd: Option<Seq<char>>,
    title: Seq<char>,
)
    ensures
        same_seats(h.taken(client, sid, cwd, title), h),
{
    let result = crate::json::obj().with("sessionId"@, Tree::Str(sid)).with(
        "title"@,
        Tree::Str(title),
    ).with("cwd"@, crate::sessions::opt_tree(cwd));
    let placed = HubState {
        sessions: put(h.sessions, sid, Place::Hosted { client, cwd, title }),
        ..h
    };
    match h.place(sid) {
        Some(Place::Hosted { client: old, .. }) => {
            let kept = HubState {
                prompts: placed.prompts.filter(|e: (Seq<char>, HostedPrompt)| e.1.host != old),
                ..placed
            };
            lemma_prompts_failed_keeps(
                kept,
                placed.prompts.filter(|e: (Seq<char>, HostedPrompt)| e.1.host == old),
            );
        },
        Some(Place::Starting(waiters)) => {
            lemma_welcomed_keeps_seats(placed, waiters, sid, result);
        },
        _ => {},
    }
}

/// Losing a host changes no client.
pub proof fn lemma_host_lost_keeps(h: HubState, host: u64)
    ensures
        ({
            let s = h.host_lost(host);
            &&& s.clients == h.clients
            &&& s.sessions == h.sessions
            &&& s.routes == h.routes
            &&& s.next_client == h.next_client
            &&& s.lan == h.lan
            &&& s.prompts == h.prompts.filter(
                |e: (Seq<char>, HostedPrompt)| e.1.host != host,
            )
        }),
{
    let kept = HubState {
        prompts: h.prompts.filter(|e: (Seq<char>, HostedPrompt)| e.1.host != host),
        ..h
    };
    lemma_prompts_failed_keeps(
        kept,
        h.prompts.filter(|e: (Seq<char>, HostedPrompt)| e.1.host == host),
    );
}

/// Sessions being run no more changes no client.
pub proof fn lemma_unhosted_keeps(h: HubState, client: u64, sids: Seq<Seq<char>>)
    ensures
        h.unhosted_each(client, sids).clients == h.clients,
        h.unhosted_each(client, sids).next_client == h.next_client,
    decreases sids.len(),
{
    if sids.len() > 0 {
        lemma_unhosted_keeps(h, client, sids.drop_last());
        lemma_unhosted_one_keeps(h.unhosted_each(client, sids.drop_last()), client, sids.last());
    }
}

/// A session being run no more changes no client.
proof fn lemma_unhosted_one_keeps(h: HubState, client: u64, sid: Seq<char>)
    ensures
        h.unhosted(client, sid).clients == h.clients,
        h.unhosted(client, sid).next_client == h.next_client,
{
    if h.host_of(sid) == Some(client) {
        lemma_host_lost_keeps(
            HubState { sessions: without(h.sessions, sid), ..h },
            client,
        );
    }
}

/// Whatever a connected client asks for, the hub's clients stay as they may
/// be.
pub proof fn request_keeps_the_hub_orderly(
    h: HubState,
    client: u64,
    id: Tree,
    method: Seq<char>,
    params: Tree,
    w: World,
)
    requires
        orderly(h),
    ensures
        orderly(h.requested(client, id, method, params, w).0),
{
    if h.barred(client, method) {
    } else if method == "gtm/remote.revoke"@ {
        if let Some(d) = params.get_str("deviceId"@) {
            if let Some(dev) = crate::tls::device_named(w.devices, d) {
                lemma_evicting_orderly(h, dev.fp, "revoked"@);
            }
        }
    } else if method == "gtm/sessions.subscribe"@ || method == "gtm/sessions.unsubscribe"@ {
        if let Some(sid) = params.get_str("sessionId"@) {
            following_keeps_seats(h, client, sid);
        }
    } else if method == "gtm/sessions.host"@ {
        if let Some(sid) = params.get_str("sessionId"@) {
            let cwd = match crate::text::filled(params.get_str("cwd"@)) {
                Some(s) => Some(s),
                None => crate::sessions::disk_cwd(w.disk),
            };
            let title = crate::text::or_empty(
                match crate::text::filled(params.get_str("title"@)) {
                    Some(s) => Some(s),
                    None => crate::sessions::disk_title(w.disk),
                },
            );
            lemma_taken_keeps_seats(h, client, sid, cwd, title);
        }
    } else if method == "gtm/sessions.unhost"@ {
        if let Some(sid) = params.get_str("sessionId"@) {
            lemma_unhosted_one_keeps(h, client, sid);
        }
    } else if method == "session/load"@ || method == "session/resume"@ || method
        == "session/prompt"@ {
        if let Some(sid) = params.get_str("sessionId"@) {
            following_keeps_seats(h, client, sid);
        }
    }
}

/// Notices, answers and news of sessions change no seat.
pub proof fn traffic_changes_no_seat(
    h: HubState,
    client: u64,
    method: Seq<char>,
    params: Tree,
    id: Tree,
    result: Option<Tree>,
    error: Option<Tree>,
    sid: Seq<char>,
)
    ensures
        same_seats(h.notified(client, method, params), h),
        same_seats(h.replied(id, result, error), h),
        same_seats(h.removed(sid), h),
{
}

/// An agent's being ready, or its failure to begin, changes no seat.
pub proof fn session_news_changes_no_seat(
    h: HubState,
    sid: Seq<char>,
    cwd: Option<Seq<char>>,
    title: Seq<char>,
    result: Tree,
    actor: u64,
    origin: Option<Waiter>,
    failed: Option<Seq<char>>,
    who: Waiter,
    err: crate::rpc::Fault,
)
    ensures
        same_seats(h.completed(sid, cwd, title, result, actor, origin), h),
        same_seats(h.failed(failed, who, err), h),
{
    let waiters = match h.place(sid) {
        Some(Place::Starting(w)) => w,
        _ => Seq::empty(),
    };
    let live = HubState {
        sessions: put(h.sessions, sid, Place::Live { cwd, title, result, actor }),
        ..h
    };
    lemma_welcomed_keeps_seats(live, HubState::answered(waiters, origin), sid, result);
    let gone = match failed {
        Some(s) => HubState { sessions: without(h.sessions, s), ..h },
        None => h,
    };
    let told = match failed {
        Some(s) => match h.place(s) {
            Some(Place::Starting(w)) => w,
            _ => seq![who],
        },
        None => seq![who],
    };
    lemma_told_failure_keeps(gone, told, err);
}

/// Telling of a failure changes nothing but what is sent.
pub proof fn lemma_told_failure_keeps(h: HubState, waiters: Seq<Waiter>, err: crate::rpc::Fault)
    ensures
        h.told_failure(waiters, err).clients == h.clients,
        h.told_failure(waiters, err).sessions == h.sessions,
        h.told_failure(waiters, err).next_client == h.next_client,
    decreases waiters.len(),
{
    if waiters.len() > 0 {
        lemma_told_failure_keeps(h, waiters.drop_last(), err);
    }
}

/// A client's leaving, and the end of the hub, leave its clients as they may
/// be.
pub proof fn leaving_keeps_the_hub_orderly(h: HubState, client: u64)
    requires
        orderly(h),
    ensures
        orderly(h.left(client)),
        orderly(h.ended()),
{
    let f = |c: (u64, Member)| c.0 != client;
    let g = |c: (u64, Member)| seat(c);
    let p = |x: Seat| x.id != client;
    assert forall|c: (u64, Member)| #[trigger] f(c) == p(g(c)) by {}
    lemma_filter_map(h.clients, f, g, p);
    lemma_seated_filter(seats(h.clients), h.next_client, p);
    let gone = HubState {
        clients: without(h.clients, client),
        out: if h.member(client) is Some {
            h.out.push(Act::Close(client))
        } else {
            h.out
        },
        ..h
    };
    lemma_unhosted_keeps(gone, client, gone.run_by(client));
    lemma_host_lost_keeps(gone.unhosted_each(client, gone.run_by(client)), client);
    lemma_without(h.clients, client, f);
    assert(seats(h.left(client).clients) == seats(h.clients).filter(p));
    assert(orderly(h.ended())) by {
        assert(seats(h.ended().clients) =~= Seq::empty());
        reveal(Seq::filter);
    }
}

/// Whatever message comes in on a connection, and when the connection ends, the
/// hub's clients stay as they may be.
pub proof fn connections_keep_the_hub_orderly(
    c: ConnState,
    h: HubState,
    msg: Tree,
    w: World,
    now: u64,
)
    requires
        orderly(h),
        h.next_client < u64::MAX,
    ensures
        orderly(c.handled(h, msg, w, now).1),
        orderly(c.ended(h)),
{
    greeting_keeps_the_hub_orderly(h, params_in(msg), c.lan, c.fp, w.devices, now);
    if let Some(client) = c.client {
        leaving_keeps_the_hub_orderly(h, client);
        let id = match msg.get("id"@) {
            Some(t) => t,
            None => Tree::Null,
        };
        let method = method_in(msg);
        request_keeps_the_hub_orderly(h, client, id, method, params_in(msg), w);
        traffic_changes_no_seat(
            h,
            client,
            method,
            params_in(msg),
            id,
            msg.get("result"@),
            msg.get("error"@),
            method,
        );
    }
}

/// The messages that a client was sent, in order.
pub open spec fn mail(acts: Seq<Act>, client: u64) -> Seq<Tree>
    decreases acts.len(),
{
    if acts.len() == 0 {
        Seq::empty()
    } else {
        match acts.last() {
            Act::Send(c, msg) => if c == client {
                mail(acts.drop_last(), client).push(msg)
            } else {
                mail(acts.drop_last(), client)
            },
            _ => mail(acts.drop_last(), client),
        }
    }
}

/// The mail of acts one behind the other.
proof fn lemma_mail_more(a: Seq<Act>, b: Seq<Act>, client: u64)
    ensures
        mail(a + b, client) == mail(a, client) + mail(b, client),
    decreases b.len(),
{
    if b.len() == 0 {
        assert(a + b =~= a);
        assert(mail(a, client) + mail(b, client) =~= mail(a, client));
    } else {
        lemma_mail_more(a, b.drop_last(), client);
        assert((a + b).drop_last() =~= a + b.drop_last());
        assert((a + b).last() == b.last());
        assert(mail(a + b, client) =~= mail(a, client) + mail(b, client));
    }
}

/// A message sent to each of some clients reaches each of them once.
proof fn lemma_mail_each(ids: Seq<u64>, msg: Tree, client: u64)
    requires
        forall|i: int, j: int|
            0 <= i < j < ids.len() ==> (#[trigger] ids[i]) != (#[trigger] ids[j]),
    ensures
        mail(ids.map_values(|id: u64| Act::Send(id, msg)), client) == if ids.contains(client) {
            seq![msg]
        } else {
            Seq::<Tree>::empty()
        },
    decreases ids.len(),
{
    let acts = ids.map_values(|id: u64| Act::Send(id, msg));
    if ids.len() > 0 {
        let front = ids.drop_last();
        assert forall|i: int, j: int| 0 <= i < j < front.len() implies (#[trigger] front[i]) != (
        #[trigger] front[j]) by {
            assert(ids[i] != ids[j]);
        }
        lemma_mail_each(front, msg, client);
        assert(acts.drop_last() =~= front.map_values(|id: u64| Act::Send(id, msg)));
        assert(acts.last() == Act::Send(ids.last(), msg));
        if ids.last() == client {
            assert(!front.contains(client)) by {
                if front.contains(client) {
                    let k = choose|k: int| 0 <= k < front.len() && front[k] == client;
                    assert(ids[k] != ids[ids.len() - 1]);
                }
            }
            assert(ids[ids.len() - 1] == client);
            assert(Seq::<Tree>::empty().push(msg) =~= seq![msg]);
        } else {
            if front.contains(client) {
                let k = choose|k: int| 0 <= k < front.len() && front[k] == client;
                assert(ids[k] == client);
            }
            if ids.contains(client) {
                let k = choose|k: int| 0 <= k < ids.len() && ids[k] == client;
                assert(front[k] == client);
            }
        }
    }
}

/// Those who follow a session are those who are connected and follow it, each
/// once.
pub proof fn lemma_followers(h: HubState, sid: Seq<char>, client: u64)
    requires
        orderly(h),
    ensures
        h.followers(sid).contains(client) <==> (h.member(client) matches Some(m)
            && m.subs.contains(sid)),
        forall|i: int, j: int|
            0 <= i < j < h.followers(sid).len() ==> (#[trigger] h.followers(sid)[i]) != (
            #[trigger] h.followers(sid)[j]),
{
    let f = |c: (u64, Member)| c.1.subs.contains(sid);
    let g = |c: (u64, Member)| c.0;
    let kept = h.clients.filter(f);
    let ids = h.followers(sid);
    let s = seats(h.clients);
    assert forall|i: int, j: int| 0 <= i < j < ids.len() implies (#[trigger] ids[i]) != (
    #[trigger] ids[j]) by {
        lemma_filter_pairs(h.clients, f, i, j);
        let (a, b) = choose|a: int, b: int|
            0 <= a < b < h.clients.len() && #[trigger] h.clients[a] == kept[i]
                && #[trigger] h.clients[b] == kept[j];
        assert(s[a].id != s[b].id);
    }
    if ids.contains(client) {
        let k = choose|k: int| 0 <= k < ids.len() && ids[k] == client;
        h.clients.lemma_filter_pred(f, k);
        assert(kept.contains(kept[k]));
        h.clients.lemma_filter_contains_rev(f, kept[k]);
        let a = choose|a: int| 0 <= a < h.clients.len() && h.clients[a] == kept[k];
        lemma_lookup_at(h, a);
    }
    if let Some(m) = h.member(client) {
        if m.subs.contains(sid) {
            let a = lemma_lookup_found(h.clients, client);
            h.clients.lemma_filter_contains(f, a);
            let k = choose|k: int| 0 <= k < kept.len() && kept[k] == h.clients[a];
            assert(ids[k] == client);
        }
    }
}

/// In an orderly hub each client is found under its id.
pub proof fn lemma_lookup_at(h: HubState, a: int)
    requires
        orderly(h),
        0 <= a < h.clients.len(),
    ensures
        h.member(h.clients[a].0) == Some(h.clients[a].1),
{
    let s = seats(h.clients);
    assert forall|j: int| 0 <= j < a implies (#[trigger] h.clients[j]).0 != h.clients[a].0 by {
        assert(s[j].id != s[a].id);
    }
    lemma_position(h.clients, h.clients[a].0, a, h.clients[a].1);
}

/// What goes to those who follow a session reaches each of them exactly once,
/// behind all that was sent before, and nobody else.
pub proof fn fan_out_reaches_followers_only(h: HubState, sid: Seq<char>, msg: Tree, client: u64)
    requires
        orderly(h),
    ensures
        mail(h.told_followers(sid, msg).out, client) == mail(h.out, client) + (if h.member(
            client,
        ) matches Some(m) && m.subs.contains(sid) {
            seq![msg]
        } else {
            Seq::<Tree>::empty()
        }),
        h.told_followers(sid, msg).clients == h.clients,
        h.told_followers(sid, msg).sessions == h.sessions,
{
    lemma_followers(h, sid, client);
    lemma_mail_each(h.followers(sid), msg, client);
    lemma_mail_more(
        h.out,
        h.followers(sid).map_values(|id: u64| Act::Send(id, msg)),
        client,
    );
}

/// What goes to everyone reaches everyone exactly once.
pub proof fn news_reaches_everyone(h: HubState, msg: Tree, client: u64)
    requires
        orderly(h),
    ensures
        mail(h.told_all(msg).out, client) == mail(h.out, client) + (if h.member(client) is Some {
            seq![msg]
        } else {
            Seq::<Tree>::empty()
        }),
{
    let ids = h.clients.map_values(|c: (u64, Member)| c.0);
    let s = seats(h.clients);
    assert forall|i: int, j: int| 0 <= i < j < ids.len() implies (#[trigger] ids[i]) != (
    #[trigger] ids[j]) by {
        assert(s[i].id != s[j].id);
    }
    if ids.contains(client) {
        let k = choose|k: int| 0 <= k < ids.len() && ids[k] == client;
        lemma_lookup_at(h, k);
    }
    if h.member(client) is Some {
        let k = lemma_lookup_found(h.clients, client);
        assert(ids[k] == client);
    }
    lemma_mail_each(ids, msg, client);
    lemma_mail_more(h.out, ids.map_values(|id: u64| Act::Send(id, msg)), client);
}

/// A client that begins to follow a session follows it, along with what it
/// followed before, and nobody else's sessions change. One that follows it no
/// more follows the rest.
pub proof fn following_is_per_client(h: HubState, client: u64, sid: Seq<char>, other: u64)
    requires
        h.member(client) is Some,
    ensures
        ({
            let m = h.member(client)->0;
            &&& h.following(client, sid).member(client) == Some(
                Member { subs: m.subs.insert(sid), ..m },
            )
            &&& h.not_following(client, sid).member(client) == Some(
                Member { subs: m.subs.remove(sid), ..m },
            )
        }),
        other != client ==> h.following(client, sid).member(other) == h.member(other),
        other != client ==> h.not_following(client, sid).member(other) == h.member(other),
{
    let m = h.member(client)->0;
    lemma_lookup_put(h.clients, client, Member { subs: m.subs.insert(sid), ..m }, client);
    lemma_lookup_put(h.clients, client, Member { subs: m.subs.insert(sid), ..m }, other);
    lemma_lookup_put(h.clients, client, Member { subs: m.subs.remove(sid), ..m }, client);
    lemma_lookup_put(h.clients, client, Member { subs: m.subs.remove(sid), ..m }, other);
}

/// A client on the network can open no session, run none and let none go, and
/// cannot touch the network listener: such a request changes nothing and is
/// refused.
pub proof fn network_clients_are_kept_to_their_methods(
    h: HubState,
    client: u64,
    id: Tree,
    method: Seq<char>,
    params: Tree,
    w: World,
)
    requires
        h.on_lan(client),
        ({
            ||| method == "session/new"@
            ||| method == "gtm/sessions.host"@
            ||| method == "gtm/sessions.unhost"@
            ||| method == "gtm/remote.on"@
            ||| method == "gtm/remote.off"@
            ||| method == "gtm/remote.revoke"@
            ||| method == "gtm/remote.status"@
        }),
    ensures
        h.requested(client, id, method, params, w) == (
            h,
            Answer::Refused(
                crate::rpc::Fault { code: -32000, text: method + " is not allowed on LAN"@ },
            ),
        ),
        h.errand(client, method, params) == Errand::Nothing,
{
    reveal_strlit("session/new");
    reveal_strlit("gtm/sessions.host");
    reveal_strlit("gtm/sessions.unhost");
    reveal_strlit("gtm/remote.on");
    reveal_strlit("gtm/remote.off");
    reveal_strlit("gtm/remote.revoke");
    reveal_strlit("gtm/remote.status");
    reveal_strlit("x.ai/");
    reveal_strlit("_x.ai/");
    assert(method[0] == 's' || method[0] == 'g');
    assert(!crate::text::begins(method, "x.ai/"@)) by {
        if crate::text::begins(method, "x.ai/"@) {
            assert(method.take(5)[0] == method[0]);
        }
    }
    assert(!crate::text::begins(method, "_x.ai/"@)) by {
        if crate::text::begins(method, "_x.ai/"@) {
            assert(method.take(6)[0] == method[0]);
        }
    }
    assert(!lan_allowed(method)) by {
        lemma_methods_differ(method);
    }
}

/// The methods that the network may not use are none of those that it may.
pub proof fn lemma_methods_differ(method: Seq<char>)
    requires
        ({
            ||| method == "session/new"@
            ||| method == "gtm/sessions.host"@
            ||| method == "gtm/sessions.unhost"@
            ||| method == "gtm/remote.on"@
            ||| method == "gtm/remote.off"@
            ||| method == "gtm/remote.revoke"@
            ||| method == "gtm/remote.status"@
        }),
    ensures
        method != "initialize"@,
        method != "gtm/ping"@,
        method != "gtm/hub.info"@,
        method != "gtm/sessions.list"@,
        method != "gtm/sessions.subscribe"@,
        method != "gtm/sessions.unsubscribe"@,
        method != "gtm/session.history"@,
        method != "session/load"@,
        method != "session/resume"@,
        method != "session/prompt"@,
        method != "session/cancel"@,
        method != "session/set_mode"@,
        method != "session/set_model"@,
{
    reveal_strlit("session/new");
    reveal_strlit("gtm/sessions.host");
    reveal_strlit("gtm/sessions.unhost");
    reveal_strlit("gtm/remote.on");
    reveal_strlit("gtm/remote.off");
    reveal_strlit("gtm/remote.revoke");
    reveal_strlit("gtm/remote.status");
    reveal_strlit("initialize");
    reveal_strlit("gtm/ping");
    reveal_strlit("gtm/hub.info");
    reveal_strlit("gtm/sessions.list");
    reveal_strlit("gtm/sessions.subscribe");
    reveal_strlit("gtm/sessions.unsubscribe");
    reveal_strlit("gtm/session.history");
    reveal_strlit("session/load");
    reveal_strlit("session/resume");
    reveal_strlit("session/prompt");
    reveal_strlit("session/cancel");
    reveal_strlit("session/set_mode");
    reveal_strlit("session/set_model");
    assert(method[4] != "gtm/ping"@[4] || method[0] != 'g' || method.len() != "gtm/ping"@.len());
    assert(method.len() == "gtm/hub.info"@.len() ==> method[4] != "gtm/hub.info"@[4]);
    assert(method.len() == "gtm/sessions.list"@.len() ==> method[13] != "gtm/sessions.list"@[13]);
    assert(method.len() == "gtm/session.history"@.len() ==> method[11]
        != "gtm/session.history"@[11]);
    assert(method.len() == "session/load"@.len() ==> method[8] != "session/load"@[8]);
    assert(method.len() == "session/resume"@.len() ==> method[0] != "session/resume"@[0]);
    assert(method.len() == "session/prompt"@.len() ==> method[0] != "session/prompt"@[0]);
    assert(method.len() == "session/cancel"@.len() ==> method[0] != "session/cancel"@[0]);
    assert(method.len() == "session/set_mode"@.len() ==> method[0] != "session/set_mode"@[0]);
    assert(method.len() == "session/set_model"@.len() ==> method[0] != "session/set_model"@[0]);
}

/// Answering those who waited changes no session.
proof fn lemma_welcomed_keeps_sessions(h: HubState, waiters: Seq<Waiter>, sid: Seq<char>, r: Tree)
    ensures
        h.welcomed(waiters, sid, r).sessions == h.sessions,
        h.welcomed(waiters, sid, r).prompts == h.prompts,
    decreases waiters.len(),
{
    if waiters.len() > 0 {
        lemma_welcomed_keeps_sessions(h, waiters.drop_last(), sid, r);
    }
}

/// A client that takes a session runs it from then on, whoever ran it before;
/// no other session changes hands, and an actor that ran it is told to stop.
pub proof fn taking_a_session_makes_its_client_the_host(
    h: HubState,
    client: u64,
    sid: Seq<char>,
    cwd: Option<Seq<char>>,
    title: Seq<char>,
    other: Seq<char>,
)
    ensures
        h.taken(client, sid, cwd, title).host_of(sid) == Some(client),
        other != sid ==> h.taken(client, sid, cwd, title).place(other) == h.place(other),
        h.actor_of(sid) matches Some(actor) ==> h.taken(client, sid, cwd, title).out.contains(
            Act::Order(actor, Cmd::Shutdown),
        ),
{
    let result = crate::json::obj().with("sessionId"@, Tree::Str(sid)).with(
        "title"@,
        Tree::Str(title),
    ).with("cwd"@, crate::sessions::opt_tree(cwd));
    let mine = Place::Hosted { client, cwd, title };
    let placed = HubState { sessions: put(h.sessions, sid, mine), ..h };
    lemma_lookup_put(h.sessions, sid, mine, sid);
    lemma_lookup_put(h.sessions, sid, mine, other);
    let t = h.taken(client, sid, cwd, title);
    match h.place(sid) {
        Some(Place::Hosted { client: old, .. }) => {
            lemma_host_lost_keeps(placed, old);
        },
        Some(Place::Starting(waiters)) => {
            lemma_welcomed_keeps_sessions(placed, waiters, sid, result);
        },
        Some(Place::Live { actor, .. }) => {
            assert(t.out[h.out.len() as int] == Act::Order(actor, Cmd::Shutdown));
        },
        None => {},
    }
    assert(t.sessions == placed.sessions);
}

/// An actor that is ready only after a client has taken the session is told to
/// stop, and the client keeps it.
pub proof fn late_actor_does_not_displace_a_host(
    h: HubState,
    sid: Seq<char>,
    cwd: Option<Seq<char>>,
    title: Seq<char>,
    result: Tree,
    actor: u64,
    origin: Option<Waiter>,
)
    requires
        h.host_of(sid) is Some,
    ensures
        h.completed(sid, cwd, title, result, actor, origin) == h.acting(
            Act::Order(actor, Cmd::Shutdown),
        ),
        h.completed(sid, cwd, title, result, actor, origin).place(sid) == h.place(sid),
{
}

/// Everyone who waited for a session is answered when it is ready, and then
/// follows it.
pub proof fn everyone_who_waited_is_answered(
    h: HubState,
    waiters: Seq<Waiter>,
    sid: Seq<char>,
    result: Tree,
    i: int,
)
    requires
        0 <= i < waiters.len(),
        h.member(waiters[i].client) is Some,
    ensures
        h.welcomed(waiters, sid, result).out.contains(
            Act::Send(
                waiters[i].client,
                crate::rpc::result_message(waiters[i].id, result),
            ),
        ),
        h.welcomed(waiters, sid, result).member(waiters[i].client) matches Some(m)
            && m.subs.contains(sid),
    decreases waiters.len(),
{
    let front = waiters.drop_last();
    let before = h.welcomed(front, sid, result);
    let w = waiters.last();
    let joined = before.following(w.client, sid);
    let t = h.welcomed(waiters, sid, result);
    lemma_welcomed_members(h, front, sid, result, waiters[i].client);
    if before.member(w.client) is Some {
        following_is_per_client(before, w.client, sid, waiters[i].client);
    }
    if i < front.len() {
        everyone_who_waited_is_answered(h, front, sid, result, i);
        let m = Act::Send(
            waiters[i].client,
            crate::rpc::result_message(waiters[i].id, result),
        );
        let k = choose|k: int| 0 <= k < before.out.len() && before.out[k] == m;
        assert(t.out[k] == m);
    } else {
        assert(joined.member(w.client) is Some);
        assert(t.out[joined.out.len() as int] == Act::Send(
            w.client,
            crate::rpc::result_message(w.id, result),
        ));
    }
}

/// Those who are connected stay connected while others are answered.
proof fn lemma_welcomed_members(
    h: HubState,
    waiters: Seq<Waiter>,
    sid: Seq<char>,
    result: Tree,
    client: u64,
)
    ensures
        h.welcomed(waiters, sid, result).member(client) is Some == h.member(client) is Some,
        h.member(client) matches Some(m) ==> m.subs.subset_of(
            h.welcomed(waiters, sid, result).member(client)->0.subs,
        ),
    decreases waiters.len(),
{
    if waiters.len() > 0 {
        let before = h.welcomed(waiters.drop_last(), sid, result);
        lemma_welcomed_members(h, waiters.drop_last(), sid, result, client);
        if before.member(waiters.last().client) is Some {
            following_is_per_client(before, waiters.last().client, sid, client);
        }
    }
}

/// A prompt for a session that a client runs goes to that client, and the
/// client's answer goes back to whoever sent the prompt, under the same id.
pub proof fn hosted_prompt_is_answered_to_its_sender(
    h: HubState,
    client: u64,
    id: Tree,
    params: Tree,
    sid: Seq<char>,
    host: u64,
    result: Tree,
)
    requires
        params.get_str("sessionId"@) == Some(sid),
        h.host_of(sid) == Some(host),
        host != client,
        h.member(client) is Some,
        h.member(host) is Some,
    ensures
        ({
            let (s, a) = h.prompt_request(client, id, params);
            let t = s.replied(id, Some(result), None);
            &&& a == Answer::Pending
            &&& s.out.last() == Act::Send(
                host,
                crate::rpc::request_message(id, "session/prompt"@, params),
            )
            &&& s.member(client)->0.subs.contains(sid)
            &&& t.out == s.out.push(
                Act::Send(client, crate::rpc::result_message(id, result)),
            )
            &&& lookup(t.prompts, crate::codec::printed(id)) is None
        }),
{
    following_is_per_client(h, client, sid, host);
    let f = h.following(client, sid);
    let key = crate::codec::printed(id);
    let p = HostedPrompt { origin: client, host };
    lemma_lookup_put(f.prompts, key, p, key);
    let (s, a) = h.prompt_request(client, id, params);
    assert(s.prompts == put(f.prompts, key, p));
    assert(s.clients == f.clients);
    lemma_lookup_without(s.prompts, key, key);
}

/// An answer to a prompt counts once: a second one for the same prompt reaches
/// nobody through it.
pub proof fn hosted_prompt_is_answered_once(
    h: HubState,
    id: Tree,
    first: Option<Tree>,
    error: Option<Tree>,
)
    requires
        lookup(h.prompts, crate::codec::printed(id)) is Some,
    ensures
        lookup(h.replied(id, first, error).prompts, crate::codec::printed(id)) is None,
{
    lemma_lookup_without(h.prompts, crate::codec::printed(id), crate::codec::printed(id));
}

/// The prompts that are dropped with a host are each reported to whoever sent
/// them.
pub proof fn lost_host_is_reported_to_senders(
    h: HubState,
    pending: Seq<(Seq<char>, HostedPrompt)>,
    i: int,
)
    requires
        0 <= i < pending.len(),
        h.member(pending[i].1.origin) is Some,
    ensures
        h.prompts_failed(pending).out.contains(
            Act::Send(
                pending[i].1.origin,
                crate::rpc::error_message(
                    match crate::codec::parsed(pending[i].0) {
                        Some(t) => t,
                        None => Tree::Null,
                    },
                    -32012,
                    "TUI session host disconnected"@,
                ),
            ),
        ),
    decreases pending.len(),
{
    let front = pending.drop_last();
    let before = h.prompts_failed(front);
    lemma_prompts_failed_keeps(h, front);
    let t = h.prompts_failed(pending);
    let m = Act::Send(
        pending[i].1.origin,
        crate::rpc::error_message(
            match crate::codec::parsed(pending[i].0) {
                Some(t) => t,
                None => Tree::Null,
            },
            -32012,
            "TUI session host disconnected"@,
        ),
    );
    if i < front.len() {
        lost_host_is_reported_to_senders(h, front, i);
        let k = choose|k: int| 0 <= k < before.out.len() && before.out[k] == m;
        assert(t.out[k] == m);
    } else {
        assert(t.out[before.out.len() as int] == m);
    }
}

/// What becomes of a session when some are run no more.
proof fn lemma_unhosted_places(
    h: HubState,
    client: u64,
    sids: Seq<Seq<char>>,
    sid: Seq<char>,
)
    ensures
        h.host_of(sid) != Some(client) ==> h.unhosted_each(client, sids).place(sid) == h.place(sid),
        h.host_of(sid) == Some(client) && sids.contains(sid) ==> h.unhosted_each(
            client,
            sids,
        ).place(sid) is None,
        h.host_of(sid) == Some(client) && !sids.contains(sid) ==> h.unhosted_each(
            client,
            sids,
        ).place(sid) == h.place(sid),
    decreases sids.len(),
{
    if sids.len() > 0 {
        let front = sids.drop_last();
        lemma_unhosted_places(h, client, front, sid);
        let before = h.unhosted_each(client, front);
        let last = sids.last();
        lemma_lookup_without(before.sessions, last, sid);
        lemma_host_lost_keeps(
            HubState { sessions: without(before.sessions, last), ..before },
            client,
        );
        if sids.contains(sid) && sid != last {
            let k = choose|k: int| 0 <= k < sids.len() && sids[k] == sid;
            assert(front[k] == sid);
        }
        if front.contains(sid) {
            let k = choose|k: int| 0 <= k < front.len() && front[k] == sid;
            assert(sids[k] == sid);
        }
        if sid == last {
            assert(sids[sids.len() - 1] == sid);
        }
    }
}

/// A client that leaves is connected no more, runs nothing any more and has no
/// prompts any more; the sessions of others stay where they are.
pub proof fn leaving_ends_what_a_client_runs(h: HubState, client: u64, sid: Seq<char>)
    ensures
        h.left(client).member(client) is None,
        h.left(client).host_of(sid) != Some(client),
        h.host_of(sid) != Some(client) ==> h.left(client).place(sid) == h.place(sid),
        forall|i: int|
            0 <= i < h.left(client).prompts.len() ==> (#[trigger] h.left(client).prompts[i]).1.host
                != client,
{
    let gone = HubState {
        clients: without(h.clients, client),
        out: if h.member(client) is Some {
            h.out.push(Act::Close(client))
        } else {
            h.out
        },
        ..h
    };
    lemma_lookup_without(h.clients, client, client);
    let sids = gone.run_by(client);
    lemma_unhosted_keeps(gone, client, sids);
    lemma_unhosted_places(gone, client, sids, sid);
    let u = gone.unhosted_each(client, sids);
    lemma_host_lost_keeps(u, client);
    let f = |e: (Seq<char>, Place)|
        match e.1 {
            Place::Hosted { client: c, .. } => c == client,
            _ => false,
        };
    if h.host_of(sid) == Some(client) {
        let k = lemma_lookup_found(h.sessions, sid);
        h.sessions.lemma_filter_contains(f, k);
        let kept = h.sessions.filter(f);
        let j = choose|j: int| 0 <= j < kept.len() && kept[j] == h.sessions[k];
        assert(sids[j] == sid);
        assert(sids.contains(sid));
    }
    let keeps = |e: (Seq<char>, HostedPrompt)| e.1.host != client;
    let left = h.left(client);
    assert(left.prompts == u.prompts.filter(keeps));
    assert forall|i: int| 0 <= i < left.prompts.len() implies (#[trigger] left.prompts[i]).1.host
        != client by {
        u.prompts.lemma_filter_pred(keeps, i);
    }
}

/// The end of the hub stops every actor of a session that lives here, and
/// leaves nobody and nothing.
pub proof fn shutdown_stops_every_actor(h: HubState, i: int)
    requires
        0 <= i < h.sessions.len(),
    ensures
        h.ended().clients.len() == 0,
        h.ended().sessions.len() == 0,
        h.sessions[i].1 matches Place::Live { actor, .. } ==> h.ended().out.contains(
            Act::Order(actor, Cmd::Shutdown),
        ),
{
    if let Place::Live { actor, .. } = h.sessions[i].1 {
        lemma_stops(h.sessions, i, actor);
        let acts = HubState::stops(h.sessions);
        let m = Act::Order(actor, Cmd::Shutdown);
        let k = choose|k: int| 0 <= k < acts.len() && acts[k] == m;
        assert(h.ended().out[h.out.len() + k] == m);
    }
}

/// Every actor of a session that lives is among those that are told to stop.
proof fn lemma_stops(sessions: Seq<(Seq<char>, Place)>, i: int, a: u64)
    requires
        0 <= i < sessions.len(),
        sessions[i].1 matches Place::Live { actor, .. } && actor == a,
    ensures
        HubState::stops(sessions).contains(Act::Order(a, Cmd::Shutdown)),
    decreases sessions.len(),
{
    let front = sessions.drop_last();
    let acts = HubState::stops(sessions);
    let m = Act::Order(a, Cmd::Shutdown);
    if i < front.len() {
        lemma_stops(front, i, a);
        let before = HubState::stops(front);
        let k = choose|k: int| 0 <= k < before.len() && before[k] == m;
        assert(acts[k] == m);
    } else {
        assert(acts[acts.len() - 1] == m);
    }
}

/// Ids of questions for permission differ as long as the hub counts on.
pub proof fn permission_ids_differ(h: HubState, g: HubState)
    requires
        h.next_perm != g.next_perm,
    ensures
        h.perm_id() != g.perm_id(),
{
    let n = h.next_perm as nat;
    let m = g.next_perm as nat;
    let a = "hp-"@ + crate::numeral::decimal(n);
    let b = "hp-"@ + crate::numeral::decimal(m);
    crate::numeral::decimal_reads_back(n, u64::MAX as nat);
    crate::numeral::decimal_reads_back(m, u64::MAX as nat);
    if a == b {
        let k = "hp-"@.len() as int;
        assert(a.skip(k) =~= crate::numeral::decimal(n));
        assert(b.skip(k) =~= crate::numeral::decimal(m));
    }
}

} // verus!
