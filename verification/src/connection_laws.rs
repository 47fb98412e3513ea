//! Connections: what each message that comes in is taken for, what it is answered,
//! and what becomes of the hub when one ends.

use crate::actor::{asked_each, ActorState};
use crate::codec::printed;
use crate::hosting_laws::news;
use crate::json::{same, Tree};
use crate::model::{Act, Answer, Cmd, Errand, HostedPrompt, HubState, LanWant, Place, Waiter, World};
use crate::numeral::{decimal, decimal_reads_back, written_is_digits};
use crate::rpc::{error_message, request_message, result_message};
use crate::server::{ConnMove, ConnState};
use crate::table::{lemma_lookup_found, lemma_lookup_without, without};
use vstd::prelude::*;

verus! {

/// The method of a message, nothing if it has none.
pub open spec fn said_method(msg: Tree) -> Seq<char> {
    match msg.get("method"@) {
        Some(Tree::Str(s)) => s,
        _ => Seq::empty(),
    }
}

/// The parameters of a message, none if it has none.
pub open spec fn said_params(msg: Tree) -> Tree {
    match msg.get("params"@) {
        Some(p) => p,
        None => Tree::Object(map![]),
    }
}

/// Whoever is not let in yet has to greet first. A greeting that is let in makes the
/// connection that client's, and is answered with the welcome under its id. One that
/// is not, and any other message, ends the connection; the client is told why under
/// the id of the message, if that has one.
pub proof fn connections_begin_with_a_greeting(
    c: ConnState,
    h: HubState,
    msg: Tree,
    w: World,
    now: u64,
)
    requires
        c.client is None,
    ensures
        ({
            let (d, g, m) = c.handled(h, msg, w, now);
            let id = msg.get("id"@);
            let (s, r) = h.greeted(said_params(msg), c.lan, c.fp, w.devices, now);
            if said_method(msg) != "gtm/hello"@ {
                &&& d == c && g == h
                &&& m == ConnMove::Fail {
                    last: match id {
                        Some(t) => Some(
                            error_message(t, -32000, "first request must be gtm/hello"@),
                        ),
                        None => None,
                    },
                    text: "first request must be gtm/hello"@,
                }
            } else {
                &&& g == s
                &&& match r {
                    Ok((client, welcome)) => {
                        &&& d == (ConnState { client: Some(client), ..c })
                        &&& m == match id {
                            Some(t) => ConnMove::Write(result_message(t, welcome)),
                            None => ConnMove::Nothing,
                        }
                    },
                    Err(f) => {
                        &&& d == c
                        &&& m == ConnMove::Fail {
                            last: match id {
                                Some(t) => Some(error_message(t, f.code, f.text)),
                                None => None,
                            },
                            text: "gtm/hello rejected"@,
                        }
                    },
                }
            }
        }),
{
}

/// A message of a client that was let in is a farewell, an answer, a notice or a
/// request: a message with a method and an id is a request, and is answered under
/// its id once the hub answers it, with the result or with the error; one without an
/// id is a notice; one without a method is an answer. Each reaches the hub with what
/// it holds. The connection stays the client's.
pub proof fn messages_are_taken_for_what_they_are(
    c: ConnState,
    h: HubState,
    msg: Tree,
    w: World,
    now: u64,
    client: u64,
)
    requires
        c.client == Some(client),
    ensures
        ({
            let (d, g, m) = c.handled(h, msg, w, now);
            let method = said_method(msg);
            let params = said_params(msg);
            &&& d == c
            &&& if method == "gtm/bye"@ {
                g == h && m == ConnMove::Bye
            } else if method.len() == 0 {
                &&& m == ConnMove::Nothing
                &&& g == match msg.get("id"@) {
                    Some(id) => h.replied(id, msg.get("result"@), msg.get("error"@)),
                    None => h,
                }
            } else {
                match msg.get("id"@) {
                    None => m == ConnMove::Nothing && g == h.notified(client, method, params),
                    Some(id) => {
                        &&& g == h.requested(client, id, method, params, w).0
                        &&& m == match h.requested(client, id, method, params, w).1 {
                            Answer::Done(v) => ConnMove::Queue(result_message(id, v)),
                            Answer::Refused(f) => ConnMove::Queue(
                                error_message(id, f.code, f.text),
                            ),
                            Answer::Pending => ConnMove::Nothing,
                        }
                    },
                }
            }
        }),
{
}

/// What a message needs from outside the hub: a greeting over the network the
/// devices, a request of a client that was let in what the request needs, and any
/// other nothing.
pub proof fn messages_fetch_what_they_need(c: ConnState, h: HubState, msg: Tree)
    ensures
        c.errand(h, msg) == match c.client {
            None => if c.lan && said_method(msg) == "gtm/hello"@ {
                Errand::Remote
            } else {
                Errand::Nothing
            },
            Some(client) => if said_method(msg).len() > 0 && said_method(msg) != "gtm/bye"@
                && msg.get("id"@) is Some {
                h.errand(client, said_method(msg), said_params(msg))
            } else {
                Errand::Nothing
            },
        },
{
}

/// When a connection ends the client that was let in over it leaves the hub; where
/// none was, nothing happens.
pub proof fn end_of_a_connection_is_its_clients(c: ConnState, h: HubState)
    ensures
        c.client is None ==> c.ended(h) == h,
        c.client matches Some(client) ==> c.ended(h) == h.left(client),
{
}

/// A new hub has nobody and no session, asks nothing, owes nothing and says nothing;
/// its network listener is closed.
pub proof fn new_hub_is_empty(port: u16)
    ensures
        ({
            let h = HubState::start(port);
            &&& h.clients.len() == 0 && h.sessions.len() == 0 && h.routes.len() == 0
            &&& h.prompts.len() == 0 && h.out.len() == 0
            &&& h.lan == (LanWant { enabled: false, port })
            &&& h.next_client == 1 && h.next_perm == 1 && h.next_actor == 1
        }),
{
}

/// A new actor owes nothing, has no prompt running or waiting and no question open.
pub proof fn new_actor_is_idle(sid: Seq<char>, next_id: i64)
    ensures
        ({
            let a = ActorState::start(sid, next_id);
            &&& a.sid == sid && a.next_id == next_id
            &&& a.pending.len() == 0 && a.queue.len() == 0
            &&& !a.inflight && a.perm is None
        }),
{
}

/// What becomes of a client's sessions, one behind the other.
proof fn lemma_left_behind(h: HubState, client: u64, sids: Seq<Seq<char>>)
    ensures
        h.unhosted_each(client, sids).clients == h.clients,
        h.unhosted_each(client, sids).routes == h.routes,
        h.unhosted_each(client, sids).lan == h.lan,
        h.out.is_prefix_of(h.unhosted_each(client, sids).out),
        forall|e: (Seq<char>, HostedPrompt)|
            h.prompts.contains(e) && e.1.host != client ==> #[trigger] h.unhosted_each(
                client,
                sids,
            ).prompts.contains(e),
    decreases sids.len(),
{
    if sids.len() > 0 {
        let front = sids.drop_last();
        let before = h.unhosted_each(client, front);
        let last = sids.last();
        let g = h.unhosted_each(client, sids);
        lemma_left_behind(h, client, front);
        crate::hosting_laws::lemma_unhosted(before, client, last, last);
        if before.host_of(last) == Some(client) {
            let keeps = |e: (Seq<char>, HostedPrompt)| e.1.host != client;
            assert forall|e: (Seq<char>, HostedPrompt)|
                h.prompts.contains(e) && e.1.host != client implies #[trigger] g.prompts.contains(
                e,
            ) by {
                assert(before.prompts.contains(e));
                let k = choose|k: int| 0 <= k < before.prompts.len() && before.prompts[k] == e;
                before.prompts.lemma_filter_contains(keeps, k);
            }
            assert(h.out =~= g.out.subrange(0, h.out.len() as int)) by {
                assert(h.out =~= before.out.subrange(0, h.out.len() as int));
            }
        }
    } else {
        assert(h.out =~= h.out.subrange(0, h.out.len() as int));
    }
}

/// A client that leaves is let go of. Nobody else is, and nobody else's
/// subscriptions, questions or prompts with others change; what was to be sent is
/// still sent. Everyone who stays is told of each session that it ran.
pub proof fn leaving_changes_nobody_else(h: HubState, client: u64, other: u64, sid: Seq<char>)
    requires
        h.member(client) is Some,
    ensures
        ({
            let g = h.left(client);
            &&& g.member(client) is None
            &&& other != client ==> g.member(other) == h.member(other)
            &&& g.out.contains(Act::Close(client))
            &&& h.out.is_prefix_of(g.out)
            &&& g.routes == h.routes && g.lan == h.lan
            &&& forall|e: (Seq<char>, HostedPrompt)|
                h.prompts.contains(e) && e.1.host != client ==> #[trigger] g.prompts.contains(e)
            &&& (h.host_of(sid) == Some(client) && other != client && h.member(other) is Some)
                ==> g.out.contains(
                Act::Send(
                    other,
                    crate::rpc::notice_message(
                        "gtm/sessions.changed"@,
                        Tree::Object(
                            map![
                                "id"@ => Tree::Str(sid),
                                "live"@ => Tree::Bool(false),
                                "reason"@ => Tree::Str("unhost"@),
                            ],
                        ),
                    ),
                ),
            )
        }),
{
    let gone = HubState {
        clients: without(h.clients, client),
        out: h.out.push(Act::Close(client)),
        ..h
    };
    lemma_lookup_without(h.clients, client, client);
    lemma_lookup_without(h.clients, client, other);
    let sids = gone.run_by(client);
    let act = Act::Close(client);
    lemma_left_behind(gone, client, sids);
    let u = gone.unhosted_each(client, sids);
    let g = h.left(client);
    lemma_host_lost(u, client);
    assert(g == u.host_lost(client));
    assert(gone.out[h.out.len() as int] == act);
    assert(gone.out.contains(act));
    crate::delivery_laws::lemma_still_said(gone, u, act);
    crate::delivery_laws::lemma_still_said(u, g, act);
    assert(h.out =~= g.out.subrange(0, h.out.len() as int)) by {
        assert(h.out =~= gone.out.subrange(0, h.out.len() as int));
        assert(gone.out =~= u.out.subrange(0, gone.out.len() as int));
        assert(u.out =~= g.out.subrange(0, u.out.len() as int));
    }
    if h.host_of(sid) == Some(client) && other != client && h.member(other) is Some {
        let f = |e: (Seq<char>, Place)|
            match e.1 {
                Place::Hosted { client: c, .. } => c == client,
                _ => false,
            };
        let k = lemma_lookup_found(h.sessions, sid);
        h.sessions.lemma_filter_contains(f, k);
        let kept = h.sessions.filter(f);
        let j = choose|j: int| 0 <= j < kept.len() && kept[j] == h.sessions[k];
        assert(sids[j] == sid);
        lemma_news_of_unhosted(gone, client, sids, other, sid, j);
        crate::delivery_laws::lemma_still_said(u, g, gone_word(other, sid));
    }
}

/// What tells a client that a session is run no more.
spec fn gone_word(one: u64, sid: Seq<char>) -> Act {
    Act::Send(
        one,
        crate::rpc::notice_message(
            "gtm/sessions.changed"@,
            Tree::Object(
                map![
                    "id"@ => Tree::Str(sid),
                    "live"@ => Tree::Bool(false),
                    "reason"@ => Tree::Str("unhost"@),
                ],
            ),
        ),
    )
}

proof fn lemma_news_of_unhosted(
    h: HubState,
    client: u64,
    sids: Seq<Seq<char>>,
    one: u64,
    sid: Seq<char>,
    j: int,
)
    requires
        0 <= j < sids.len(),
        sids[j] == sid,
        h.host_of(sid) == Some(client),
        h.member(one) is Some,
    ensures
        h.unhosted_each(client, sids).out.contains(gone_word(one, sid)),
    decreases sids.len(),
{
    let front = sids.drop_last();
    let before = h.unhosted_each(client, front);
    let last = sids.last();
    let g = h.unhosted_each(client, sids);
    lemma_left_behind(h, client, front);
    crate::hosting_laws::lemma_unhosted(before, client, last, sid);
    if front.contains(sid) {
        let i = choose|i: int| 0 <= i < front.len() && front[i] == sid;
        lemma_news_of_unhosted(h, client, front, one, sid, i);
        if before.host_of(last) == Some(client) {
            assert(before.out =~= g.out.subrange(0, before.out.len() as int));
            crate::delivery_laws::lemma_still_said(before, g, gone_word(one, sid));
        }
    } else {
        assert(j == sids.len() - 1) by {
            if j < sids.len() - 1 {
                assert(front[j] == sid);
            }
        }
        lemma_still_hosted(h, client, front, sid);
        let k = lemma_lookup_found(before.clients, one);
        let details = map![
            "id"@ => Tree::Str(sid),
            "live"@ => Tree::Bool(false),
            "reason"@ => Tree::Str("unhost"@),
        ];
        let all = news(before, details);
        assert(all[k] == gone_word(one, sid));
        assert(g.out[g.out.len() - all.len() + k] == all[k]);
    }
}

proof fn lemma_still_hosted(h: HubState, client: u64, sids: Seq<Seq<char>>, sid: Seq<char>)
    requires
        !sids.contains(sid),
    ensures
        h.unhosted_each(client, sids).place(sid) == h.place(sid),
    decreases sids.len(),
{
    if sids.len() > 0 {
        let front = sids.drop_last();
        assert(!front.contains(sid)) by {
            if front.contains(sid) {
                let i = choose|i: int| 0 <= i < front.len() && front[i] == sid;
                assert(sids[i] == sid);
            }
        }
        assert(sids[sids.len() - 1] != sid);
        lemma_still_hosted(h, client, front, sid);
        crate::hosting_laws::lemma_unhosted(
            h.unhosted_each(client, front),
            client,
            sids.last(),
            sid,
        );
    }
}

proof fn lemma_host_lost(h: HubState, host: u64)
    ensures
        ({
            let g = h.host_lost(host);
            &&& g.clients == h.clients && g.routes == h.routes && g.lan == h.lan
            &&& h.out.is_prefix_of(g.out)
            &&& forall|e: (Seq<char>, HostedPrompt)|
                h.prompts.contains(e) && e.1.host != host ==> #[trigger] g.prompts.contains(e)
        }),
{
    let keeps = |e: (Seq<char>, HostedPrompt)| e.1.host != host;
    let kept = HubState { prompts: h.prompts.filter(keeps), ..h };
    let lost = h.prompts.filter(|e: (Seq<char>, HostedPrompt)| e.1.host == host);
    crate::hosting_laws::lemma_prompts_failed(kept, lost);
    let g = h.host_lost(host);
    assert(h.out =~= g.out.subrange(0, h.out.len() as int));
    assert forall|e: (Seq<char>, HostedPrompt)|
        h.prompts.contains(e) && e.1.host != host implies #[trigger] g.prompts.contains(e) by {
        let k = choose|k: int| 0 <= k < h.prompts.len() && h.prompts[k] == e;
        h.prompts.lemma_filter_contains(keeps, k);
    }
}

/// Those who wait are told apart by who they are and what they asked under: two are
/// the same exactly if both are.
pub proof fn those_who_wait_are_told_apart(a: Waiter, b: Waiter)
    ensures
        HubState::waiter_key(a) == HubState::waiter_key(b) <==> a.client == b.client && printed(
            a.id,
        ) == printed(b.id),
{
    reveal_strlit(":");
    let x = decimal(a.client as nat);
    let y = decimal(b.client as nat);
    written_is_digits(a.client as nat, 10);
    written_is_digits(b.client as nat, 10);
    let k = HubState::waiter_key(a);
    if k == HubState::waiter_key(b) {
        assert(k[x.len() as int] == ':');
        assert(HubState::waiter_key(b)[y.len() as int] == ':');
        if x.len() < y.len() {
            assert(HubState::waiter_key(b)[x.len() as int] == y[x.len() as int]);
        }
        if y.len() < x.len() {
            assert(k[y.len() as int] == x[y.len() as int]);
        }
        assert(x =~= k.take(x.len() as int));
        assert(y =~= k.take(x.len() as int));
        decimal_reads_back(a.client as nat, u64::MAX as nat);
        decimal_reads_back(b.client as nat, u64::MAX as nat);
        assert(printed(a.id) =~= k.skip((x.len() + 1) as int));
        assert(printed(b.id) =~= k.skip((x.len() + 1) as int));
    }
}

/// A question for permission is put to clients in their order, to each who is
/// connected once, under ids that count up; nothing else is sent. The hub knows under
/// each id which session the answer is for.
pub proof fn question_is_put_to_each_once(
    h: HubState,
    sid: Seq<char>,
    params: Tree,
    clients: Seq<u64>,
)
    requires
        h.next_perm + clients.len() <= u64::MAX,
        forall|i: int| 0 <= i < clients.len() ==> h.member(#[trigger] clients[i]) is Some,
    ensures
        ({
            let (g, asked) = asked_each(h, sid, params, clients);
            &&& g.out == h.out + Seq::new(
                clients.len(),
                |i: int|
                    Act::Send(
                        clients[i],
                        request_message(
                            Tree::Str("hp-"@ + decimal((h.next_perm + i) as nat)),
                            "session/request_permission"@,
                            params,
                        ),
                    ),
            )
            &&& g.next_perm == h.next_perm + clients.len()
            &&& g == (HubState {
                routes: g.routes,
                next_perm: g.next_perm,
                out: g.out,
                ..h
            })
        }),
    decreases clients.len(),
{
    let f = |i: int|
        Act::Send(
            clients[i],
            request_message(
                Tree::Str("hp-"@ + decimal((h.next_perm + i) as nat)),
                "session/request_permission"@,
                params,
            ),
        );
    if clients.len() > 0 {
        let front = clients.drop_last();
        assert forall|i: int| 0 <= i < front.len() implies h.member(#[trigger] front[i]) is Some by {
            assert(clients[i] == front[i]);
        }
        question_is_put_to_each_once(h, sid, params, front);
        let (before, some) = asked_each(h, sid, params, front);
        let (g, asked) = asked_each(h, sid, params, clients);
        assert(h.member(clients[clients.len() - 1]) is Some);
        assert(g.out =~= h.out + Seq::new(clients.len(), f));
    } else {
        assert(h.out + Seq::new(clients.len(), f) =~= h.out);
    }
}

/// The end of the hub tells the actor of each session that lives here to stop, each
/// once and in order, and nobody else.
pub proof fn ending_stops_exactly_the_actors(sessions: Seq<(Seq<char>, Place)>)
    ensures
        HubState::stops(sessions) == sessions.filter(
            |e: (Seq<char>, Place)| e.1 is Live,
        ).map_values(|e: (Seq<char>, Place)| Act::Order(e.1->Live_actor, Cmd::Shutdown)),
    decreases sessions.len(),
{
    reveal(Seq::filter);
    let p = |e: (Seq<char>, Place)| e.1 is Live;
    let f = |e: (Seq<char>, Place)| Act::Order(e.1->Live_actor, Cmd::Shutdown);
    if sessions.len() > 0 {
        let front = sessions.drop_last();
        ending_stops_exactly_the_actors(front);
        if p(sessions.last()) {
            assert(sessions.filter(p).map_values(f) =~= front.filter(p).map_values(f).push(
                f(sessions.last()),
            ));
        }
    } else {
        assert(HubState::stops(sessions) =~= sessions.filter(p).map_values(f));
    }
}

/// Texts, integers, truth values and nothing are equal as JSON exactly if they are
/// the same, and unlike kinds never are. Lists are equal item by item and objects key
/// by key. A fractional zero has no sign.
pub proof fn json_is_equal_by_value(
    a: Seq<char>,
    b: Seq<char>,
    m: int,
    n: int,
    p: bool,
    q: bool,
    x: Seq<Tree>,
    y: Seq<Tree>,
    s: Map<Seq<char>, Tree>,
    t: Map<Seq<char>, Tree>,
)
    ensures
        same(Tree::Str(a), Tree::Str(b)) <==> a == b,
        same(Tree::Int(m), Tree::Int(n)) <==> m == n,
        same(Tree::Bool(p), Tree::Bool(q)) <==> p == q,
        same(Tree::Null, Tree::Null),
        !same(Tree::Str(a), Tree::Int(n)),
        !same(Tree::Int(n), Tree::Str(a)),
        !same(Tree::Null, Tree::Str(a)),
        same(Tree::Float(a), Tree::Float(b)) <==> a == b || ((a == "0.0"@ || a == "-0.0"@) && (b
            == "0.0"@ || b == "-0.0"@)),
        same(Tree::Array(x), Tree::Array(y)) <==> x.len() == y.len() && forall|i: int|
            0 <= i < x.len() ==> same(#[trigger] x[i], y[i]),
        same(Tree::Object(s), Tree::Object(t)) <==> s.dom() == t.dom() && forall|k: Seq<char>|
            s.contains_key(k) ==> same(#[trigger] s[k], t[k]),
{
}

/// An object gives under a key what was last put there, and under other keys what it
/// gave before. What is no object gives nothing.
pub proof fn objects_give_what_was_put(t: Tree, key: Seq<char>, other: Seq<char>, value: Tree)
    ensures
        t.with(key, value).get(key) == Some(value),
        other != key ==> t.with(key, value).get(other) == (if t is Object {
            t.get(other)
        } else {
            None
        }),
        !(t is Object) ==> t.get(key) is None,
        crate::json::obj().get(key) is None,
{
}

} // verus!
