//! Sessions that change hands, begin, fail and end, and clients that come and
//! go: what becomes of them, and exactly who is told what.

use crate::codec::parsed;
use crate::json::Tree;
use crate::model::{Act, Answer, Cmd, Fate, HostedPrompt, HubState, Member, Place, Waiter, World};
use crate::numeral::decimal;
use crate::request_laws::{method_names_differ, text_or_null};
use crate::rpc::{error_message, notice_message, result_message, Fault};
use crate::sessions::{disk_cwd, disk_title};
use crate::table::{
    lemma_lookup_found, lemma_lookup_put, lemma_lookup_without, lookup, put, without,
};
use crate::tls::{enrolled, Device};
use vstd::prelude::*;

verus! {

/// What tells whoever sent a prompt that its host will not answer it.
pub open spec fn lost_word(e: (Seq<char>, HostedPrompt)) -> Act {
    Act::Send(
        e.1.origin,
        error_message(
            if parsed(e.0) is Some {
                parsed(e.0)->0
            } else {
                Tree::Null
            },
            -32012,
            "TUI session host disconnected"@,
        ),
    )
}

/// What tells those of some clients who are connected that their prompts are
/// lost.
pub open spec fn lost_words(h: HubState, lost: Seq<(Seq<char>, HostedPrompt)>) -> Seq<Act> {
    lost.filter(|e: (Seq<char>, HostedPrompt)| h.member(e.1.origin) is Some).map_values(
        |e: (Seq<char>, HostedPrompt)| lost_word(e),
    )
}

/// What tells everyone who is connected of a change to a session.
pub open spec fn news(h: HubState, details: Map<Seq<char>, Tree>) -> Seq<Act> {
    h.clients.map_values(
        |c: (u64, Member)|
            Act::Send(c.0, notice_message("gtm/sessions.changed"@, Tree::Object(details))),
    )
}

/// What answers those of some who wait who are connected.
pub open spec fn answers_to(h: HubState, waiting: Seq<Waiter>, result: Tree) -> Seq<Act> {
    waiting.filter(|w: Waiter| h.member(w.client) is Some).map_values(
        |w: Waiter| Act::Send(w.client, result_message(w.id, result)),
    )
}

/// Whether a client is one of those who wait.
pub open spec fn waits_for(waiting: Seq<Waiter>, client: u64) -> bool {
    exists|i: int| 0 <= i < waiting.len() && (#[trigger] waiting[i]).client == client
}

/// Whether one waits already, under the same id.
pub open spec fn waits_already(waiting: Seq<Waiter>, o: Waiter) -> bool {
    exists|i: int|
        0 <= i < waiting.len() && (#[trigger] waiting[i]).client == o.client && crate::json::same(
            waiting[i].id,
            o.id,
        )
}

/// Reporting lost prompts does nothing else.
pub proof fn lemma_prompts_failed(h: HubState, lost: Seq<(Seq<char>, HostedPrompt)>)
    ensures
        h.prompts_failed(lost) == (HubState { out: h.out + lost_words(h, lost), ..h }),
    decreases lost.len(),
{
    let told = |e: (Seq<char>, HostedPrompt)| h.member(e.1.origin) is Some;
    reveal(Seq::filter);
    if lost.len() > 0 {
        let front = lost.drop_last();
        lemma_prompts_failed(h, front);
        if told(lost.last()) {
            assert(lost_words(h, lost) =~= lost_words(h, front).push(lost_word(lost.last())));
            assert(h.out + lost_words(h, lost) =~= (h.out + lost_words(h, front)).push(
                lost_word(lost.last()),
            ));
        } else {
            assert(lost_words(h, lost) =~= lost_words(h, front));
        }
    } else {
        assert(h.out + lost_words(h, lost) =~= h.out);
    }
}

/// Answering those who wait does nothing but that, and has them follow the
/// session.
proof fn lemma_welcomed(h: HubState, waiting: Seq<Waiter>, sid: Seq<char>, result: Tree, c: u64)
    ensures
        ({
            let g = h.welcomed(waiting, sid, result);
            &&& g == (HubState {
                clients: g.clients,
                out: h.out + answers_to(h, waiting, result),
                ..h
            })
            &&& g.member(c) == match h.member(c) {
                Some(m) => if waits_for(waiting, c) {
                    Some(Member { subs: m.subs.insert(sid), ..m })
                } else {
                    Some(m)
                },
                None => None,
            }
            &&& g.clients.map_values(|e: (u64, Member)| e.0) == h.clients.map_values(
                |e: (u64, Member)| e.0,
            )
        }),
    decreases waiting.len(),
{
    let told = |w: Waiter| h.member(w.client) is Some;
    reveal(Seq::filter);
    if waiting.len() > 0 {
        let front = waiting.drop_last();
        let w = waiting.last();
        let before = h.welcomed(front, sid, result);
        lemma_welcomed(h, front, sid, result, c);
        lemma_welcomed(h, front, sid, result, w.client);
        let word = Act::Send(w.client, result_message(w.id, result));
        if told(w) {
            crate::laws::following_is_per_client(before, w.client, sid, c);
            assert(answers_to(h, waiting, result) =~= answers_to(h, front, result).push(word));
            assert(h.out + answers_to(h, waiting, result) =~= (h.out + answers_to(
                h,
                front,
                result,
            )).push(word));
            let m = before.member(w.client)->0;
            lemma_same_ids(before.clients, w.client, Member { subs: m.subs.insert(sid), ..m });
            let follows = before.following(w.client, sid);
            assert(follows.member(w.client) is Some) by {
                crate::laws::following_is_per_client(before, w.client, sid, w.client);
            }
            if waits_for(front, c) {
                let i = choose|i: int| 0 <= i < front.len() && (#[trigger] front[i]).client == c;
                assert(waiting[i].client == c);
                if c == w.client {
                    let k = h.member(c)->0;
                    assert(k.subs.insert(sid).insert(sid) =~= k.subs.insert(sid));
                }
            }
            if c == w.client {
                assert(waiting[waiting.len() - 1].client == c);
            }
        } else {
            assert(answers_to(h, waiting, result) =~= answers_to(h, front, result));
        }
        if waits_for(waiting, c) && c != w.client {
            let i = choose|i: int| 0 <= i < waiting.len() && (#[trigger] waiting[i]).client == c;
            assert(front[i].client == c);
        }
        if waits_for(front, c) {
            let i = choose|i: int| 0 <= i < front.len() && (#[trigger] front[i]).client == c;
            assert(waiting[i].client == c);
        }
    } else {
        assert(h.out + answers_to(h, waiting, result) =~= h.out);
    }
}

/// Putting a client back under its id keeps all ids in their order.
proof fn lemma_same_ids(clients: Seq<(u64, Member)>, id: u64, m: Member)
    requires
        lookup(clients, id) is Some,
    ensures
        put(clients, id, m).map_values(|e: (u64, Member)| e.0) == clients.map_values(
            |e: (u64, Member)| e.0,
        ),
    decreases clients.len(),
{
    let f = |e: (u64, Member)| e.0;
    if clients[0].0 == id {
        assert(put(clients, id, m).map_values(f) =~= clients.map_values(f));
    } else {
        lemma_same_ids(clients.drop_first(), id, m);
        let rest = put(clients.drop_first(), id, m);
        assert((seq![clients[0]] + rest).map_values(f) =~= seq![clients[0].0] + rest.map_values(f));
        assert(clients.map_values(f) =~= seq![clients[0].0] + clients.drop_first().map_values(f));
    }
}

/// The news goes to the same clients as long as nobody comes or goes.
proof fn lemma_same_news(h: HubState, g: HubState, details: Map<Seq<char>, Tree>)
    requires
        g.clients.map_values(|e: (u64, Member)| e.0) == h.clients.map_values(
            |e: (u64, Member)| e.0,
        ),
    ensures
        news(g, details) == news(h, details),
{
    let f = |e: (u64, Member)| e.0;
    assert(g.clients.map_values(f).len() == h.clients.map_values(f).len());
    assert forall|i: int| 0 <= i < news(h, details).len() implies news(g, details)[i] == news(
        h,
        details,
    )[i] by {
        assert(g.clients.map_values(f)[i] == h.clients.map_values(f)[i]);
    }
    assert(news(g, details) =~= news(h, details));
}

/// The text under a key of parameters, if it says anything.
pub open spec fn said_in(params: Tree, key: Seq<char>) -> Option<Seq<char>> {
    match params.get(key) {
        Some(Tree::Str(s)) => if s.len() > 0 {
            Some(s)
        } else {
            None
        },
        _ => None,
    }
}

/// A local client that asks to run a session runs it from then on, whoever did
/// before, under the directory and the title that it gives or else those that the
/// disk knows; it is told them, and whether it took the session from an agent. An
/// agent that ran it is told to stop; another client that ran it loses the prompts
/// that it has not answered, and their senders are told; those who waited for an
/// agent to start follow the session and are answered. Then everyone is told that
/// the session is hosted. No other session changes, nothing else is sent, and
/// nothing else changes.
pub proof fn hosting_takes_the_session(
    h: HubState,
    client: u64,
    id: Tree,
    params: Tree,
    w: World,
    sid: Seq<char>,
    other: Seq<char>,
    one: u64,
)
    requires
        !h.on_lan(client),
        params.get("sessionId"@) == Some(Tree::Str(sid)),
        sid.len() > 0,
    ensures
        ({
            let (g, a) = h.requested(client, id, "gtm/sessions.host"@, params, w);
            let cwd = match said_in(params, "cwd"@) {
                Some(s) => Some(s),
                None => disk_cwd(w.disk),
            };
            let title = match (said_in(params, "title"@), disk_title(w.disk)) {
                (Some(s), _) => s,
                (None, Some(s)) => s,
                (None, None) => Seq::empty(),
            };
            let everyone = news(
                h,
                map![
                    "id"@ => Tree::Str(sid),
                    "live"@ => Tree::Bool(true),
                    "hosted"@ => Tree::Bool(true),
                ],
            );
            let lost = match h.place(sid) {
                Some(Place::Hosted { client: old, .. }) if old != client => h.prompts.filter(
                    |e: (Seq<char>, HostedPrompt)| e.1.host == old,
                ),
                _ => Seq::empty(),
            };
            let waiting = match h.place(sid) {
                Some(Place::Starting(ws)) => ws,
                _ => Seq::empty(),
            };
            let result = Tree::Object(
                map![
                    "sessionId"@ => Tree::Str(sid),
                    "title"@ => Tree::Str(title),
                    "cwd"@ => text_or_null(cwd),
                ],
            );
            &&& a == Answer::Done(
                Tree::Object(
                    map![
                        "ok"@ => Tree::Bool(true),
                        "sessionId"@ => Tree::Str(sid),
                        "cwd"@ => text_or_null(cwd),
                        "title"@ => Tree::Str(title),
                        "tookOver"@ => Tree::Bool(h.place(sid) matches Some(Place::Live { .. })),
                    ],
                ),
            )
            &&& g.place(sid) == Some(Place::Hosted { client, cwd, title })
            &&& other != sid ==> g.place(other) == h.place(other)
            &&& g.out == h.out + (match h.place(sid) {
                Some(Place::Live { actor, .. }) => seq![Act::Order(actor, Cmd::Shutdown)],
                _ => Seq::empty(),
            }) + lost_words(h, lost) + answers_to(h, waiting, result) + everyone
            &&& g.prompts == (match h.place(sid) {
                Some(Place::Hosted { client: old, .. }) if old != client => h.prompts.filter(
                    |e: (Seq<char>, HostedPrompt)| e.1.host != old,
                ),
                _ => h.prompts,
            })
            &&& g.member(one) == match h.member(one) {
                Some(m) => if waits_for(waiting, one) {
                    Some(Member { subs: m.subs.insert(sid), lan: m.lan, fp: m.fp })
                } else {
                    Some(m)
                },
                None => None,
            }
            &&& g == (HubState {
                clients: g.clients,
                sessions: g.sessions,
                prompts: g.prompts,
                out: g.out,
                ..h
            })
        }),
{
    method_names_differ();
    let cwd = match said_in(params, "cwd"@) {
        Some(s) => Some(s),
        None => disk_cwd(w.disk),
    };
    let title = match (said_in(params, "title"@), disk_title(w.disk)) {
        (Some(s), _) => s,
        (None, Some(s)) => s,
        (None, None) => Seq::empty(),
    };
    let details = map![
        "id"@ => Tree::Str(sid),
        "live"@ => Tree::Bool(true),
        "hosted"@ => Tree::Bool(true),
    ];
    let result = Tree::Object(
        map![
            "sessionId"@ => Tree::Str(sid),
            "title"@ => Tree::Str(title),
            "cwd"@ => text_or_null(cwd),
        ],
    );
    let mine = Place::Hosted { client, cwd, title };
    let placed = HubState { sessions: put(h.sessions, sid, mine), ..h };
    let (g, a) = h.requested(client, id, "gtm/sessions.host"@, params, w);
    assert(g == h.taken(client, sid, cwd, title));
    lemma_lookup_put(h.sessions, sid, mine, sid);
    lemma_lookup_put(h.sessions, sid, mine, other);
    reveal(Seq::filter);
    assert(lost_words(h, Seq::empty()) =~= Seq::empty());
    assert(answers_to(h, Seq::empty(), result) =~= Seq::empty());
    let nobody = Seq::<Waiter>::empty();
    assert(!waits_for(nobody, one));
    match h.place(sid) {
        Some(Place::Hosted { client: old, .. }) => {
            if old != client {
                let lost = h.prompts.filter(|e: (Seq<char>, HostedPrompt)| e.1.host == old);
                let kept = HubState {
                    prompts: h.prompts.filter(|e: (Seq<char>, HostedPrompt)| e.1.host != old),
                    ..placed
                };
                lemma_prompts_failed(kept, lost);
                assert(lost_words(kept, lost) =~= lost_words(h, lost)) by {
                    assert(lost.filter(|e: (Seq<char>, HostedPrompt)| kept.member(e.1.origin) is Some)
                        =~= lost.filter(|e: (Seq<char>, HostedPrompt)| h.member(e.1.origin) is Some))
                        by {
                        lemma_same_filter(
                            lost,
                            |e: (Seq<char>, HostedPrompt)| kept.member(e.1.origin) is Some,
                            |e: (Seq<char>, HostedPrompt)| h.member(e.1.origin) is Some,
                        );
                    }
                }
                assert(g.out =~= h.out + Seq::<Act>::empty() + lost_words(h, lost) + Seq::<
                    Act,
                >::empty() + news(h, details));
            } else {
                assert(g.out =~= h.out + Seq::<Act>::empty() + Seq::<Act>::empty() + Seq::<
                    Act,
                >::empty() + news(h, details));
            }
        },
        Some(Place::Live { actor, .. }) => {
            assert(g.out =~= h.out + seq![Act::Order(actor, Cmd::Shutdown)] + Seq::<Act>::empty()
                + Seq::<Act>::empty() + news(h, details));
        },
        Some(Place::Starting(ws)) => {
            lemma_welcomed(placed, ws, sid, result, one);
            let welcomed = placed.welcomed(ws, sid, result);
            lemma_same_news(h, welcomed, details);
            assert(answers_to(placed, ws, result) =~= answers_to(h, ws, result)) by {
                lemma_same_filter(
                    ws,
                    |v: Waiter| placed.member(v.client) is Some,
                    |v: Waiter| h.member(v.client) is Some,
                );
            }
            assert(g.out =~= h.out + Seq::<Act>::empty() + Seq::<Act>::empty() + answers_to(
                h,
                ws,
                result,
            ) + news(h, details));
        },
        None => {
            assert(g.out =~= h.out + Seq::<Act>::empty() + Seq::<Act>::empty() + Seq::<
                Act,
            >::empty() + news(h, details));
        },
    }
}

/// Filtering by the same condition gives the same.
pub proof fn lemma_same_filter<A>(s: Seq<A>, p: spec_fn(A) -> bool, q: spec_fn(A) -> bool)
    requires
        forall|x: A| #[trigger] p(x) == q(x),
    ensures
        s.filter(p) == s.filter(q),
    decreases s.len(),
{
    reveal(Seq::filter);
    if s.len() > 0 {
        lemma_same_filter(s.drop_last(), p, q);
    }
}

/// A client that asks to run a session no more, and does run it, lets go of it:
/// the session is known no more, the prompts that the client has not answered are
/// reported to their senders, and everyone is told. Of a session that it does not
/// run nothing changes. It is answered the same either way.
pub proof fn unhosting_lets_go_of_the_session(
    h: HubState,
    client: u64,
    id: Tree,
    params: Tree,
    w: World,
    sid: Seq<char>,
    other: Seq<char>,
)
    requires
        !h.on_lan(client),
        params.get("sessionId"@) == Some(Tree::Str(sid)),
        sid.len() > 0,
    ensures
        ({
            let (g, a) = h.requested(client, id, "gtm/sessions.unhost"@, params, w);
            let lost = h.prompts.filter(|e: (Seq<char>, HostedPrompt)| e.1.host == client);
            &&& a == Answer::Done(
                Tree::Object(map!["ok"@ => Tree::Bool(true), "sessionId"@ => Tree::Str(sid)]),
            )
            &&& if h.place(sid) matches Some(Place::Hosted { client: c, .. }) && c == client {
                &&& g.place(sid) is None
                &&& other != sid ==> g.place(other) == h.place(other)
                &&& g == (HubState {
                    sessions: g.sessions,
                    prompts: h.prompts.filter(
                        |e: (Seq<char>, HostedPrompt)| e.1.host != client,
                    ),
                    out: h.out + lost_words(h, lost) + news(
                        h,
                        map![
                            "id"@ => Tree::Str(sid),
                            "live"@ => Tree::Bool(false),
                            "reason"@ => Tree::Str("unhost"@),
                        ],
                    ),
                    ..h
                })
            } else {
                g == h
            }
        }),
{
    method_names_differ();
    lemma_unhosted(h, client, sid, other);
}

/// What letting go of a session does.
pub proof fn lemma_unhosted(h: HubState, client: u64, sid: Seq<char>, other: Seq<char>)
    ensures
        ({
            let g = h.unhosted(client, sid);
            let lost = h.prompts.filter(|e: (Seq<char>, HostedPrompt)| e.1.host == client);
            if h.place(sid) matches Some(Place::Hosted { client: c, .. }) && c == client {
                &&& g.place(sid) is None
                &&& other != sid ==> g.place(other) == h.place(other)
                &&& g == (HubState {
                    sessions: g.sessions,
                    prompts: h.prompts.filter(
                        |e: (Seq<char>, HostedPrompt)| e.1.host != client,
                    ),
                    out: h.out + lost_words(h, lost) + news(
                        h,
                        map![
                            "id"@ => Tree::Str(sid),
                            "live"@ => Tree::Bool(false),
                            "reason"@ => Tree::Str("unhost"@),
                        ],
                    ),
                    ..h
                })
            } else {
                g == h
            }
        }),
{
    let lost = h.prompts.filter(|e: (Seq<char>, HostedPrompt)| e.1.host == client);
    let gone = HubState { sessions: without(h.sessions, sid), ..h };
    let kept = HubState {
        prompts: h.prompts.filter(|e: (Seq<char>, HostedPrompt)| e.1.host != client),
        ..gone
    };
    lemma_lookup_without(h.sessions, sid, sid);
    lemma_lookup_without(h.sessions, sid, other);
    lemma_prompts_failed(kept, lost);
    lemma_same_filter(
        lost,
        |e: (Seq<char>, HostedPrompt)| kept.member(e.1.origin) is Some,
        |e: (Seq<char>, HostedPrompt)| h.member(e.1.origin) is Some,
    );
    assert(lost_words(kept, lost) =~= lost_words(h, lost));
    if h.host_of(sid) == Some(client) {
        let g = h.unhosted(client, sid);
        assert(g.out =~= h.out + lost_words(h, lost) + news(
            h,
            map![
                "id"@ => Tree::Str(sid),
                "live"@ => Tree::Bool(false),
                "reason"@ => Tree::Str("unhost"@),
            ],
        ));
    }
}

/// A session whose agent is ready lives from then on, under the directory, the
/// title and the actor that it was started with and with what the agent said of
/// it. Those who waited for it, and whoever asked for it anew, follow it and are
/// answered what the agent said; then everyone is told that it lives. No other
/// session changes, nothing else is sent, and nothing else changes.
pub proof fn ready_session_lives(
    h: HubState,
    sid: Seq<char>,
    cwd: Option<Seq<char>>,
    title: Seq<char>,
    result: Tree,
    actor: u64,
    origin: Option<Waiter>,
    other: Seq<char>,
    one: u64,
)
    requires
        !(h.place(sid) matches Some(Place::Hosted { .. })),
    ensures
        ({
            let g = h.completed(sid, cwd, title, result, actor, origin);
            let before = match h.place(sid) {
                Some(Place::Starting(ws)) => ws,
                _ => Seq::empty(),
            };
            let waiting = match origin {
                Some(o) => if waits_already(before, o) {
                    before
                } else {
                    before.push(o)
                },
                None => before,
            };
            &&& g.place(sid) == Some(Place::Live { cwd, title, result, actor })
            &&& other != sid ==> g.place(other) == h.place(other)
            &&& g.member(one) == match h.member(one) {
                Some(m) => if waits_for(waiting, one) {
                    Some(Member { subs: m.subs.insert(sid), lan: m.lan, fp: m.fp })
                } else {
                    Some(m)
                },
                None => None,
            }
            &&& g == (HubState {
                clients: g.clients,
                sessions: g.sessions,
                out: h.out + answers_to(h, waiting, result) + news(
                    h,
                    map!["id"@ => Tree::Str(sid), "live"@ => Tree::Bool(true)],
                ),
                ..h
            })
        }),
{
    let here = Place::Live { cwd, title, result, actor };
    let live = HubState { sessions: put(h.sessions, sid, here), ..h };
    let before = match h.place(sid) {
        Some(Place::Starting(ws)) => ws,
        _ => Seq::empty(),
    };
    let waiting = HubState::answered(before, origin);
    if let Some(o) = origin {
        assert(HubState::waits(before, o) == waits_already(before, o));
    }
    let details = map!["id"@ => Tree::Str(sid), "live"@ => Tree::Bool(true)];
    lemma_lookup_put(h.sessions, sid, here, sid);
    lemma_lookup_put(h.sessions, sid, here, other);
    lemma_welcomed(live, waiting, sid, result, one);
    let welcomed = live.welcomed(waiting, sid, result);
    lemma_same_news(h, welcomed, details);
    lemma_same_filter(
        waiting,
        |v: Waiter| live.member(v.client) is Some,
        |v: Waiter| h.member(v.client) is Some,
    );
    assert(answers_to(live, waiting, result) =~= answers_to(h, waiting, result));
    let g = h.completed(sid, cwd, title, result, actor, origin);
    assert(g.out =~= h.out + answers_to(h, waiting, result) + news(h, details));
}

/// A session whose agent is gone is known no more; everyone is told so, and why.
/// Nothing else is sent, and nothing else changes.
pub proof fn session_without_agent_is_gone(h: HubState, sid: Seq<char>, other: Seq<char>)
    ensures
        ({
            let g = h.removed(sid);
            &&& g.place(sid) is None
            &&& other != sid ==> g.place(other) == h.place(other)
            &&& g == (HubState {
                sessions: g.sessions,
                out: h.out + news(
                    h,
                    map![
                        "id"@ => Tree::Str(sid),
                        "live"@ => Tree::Bool(false),
                        "reason"@ => Tree::Str("actor_exit"@),
                    ],
                ),
                ..h
            })
        }),
{
    lemma_lookup_without(h.sessions, sid, sid);
    lemma_lookup_without(h.sessions, sid, other);
    assert(h.removed(sid).out =~= h.out + news(
        h,
        map![
            "id"@ => Tree::Str(sid),
            "live"@ => Tree::Bool(false),
            "reason"@ => Tree::Str("actor_exit"@),
        ],
    ));
}

/// A failure to start an agent for a new session is told to whoever asked for it,
/// under the id of the request, and changes nothing else. One for a session that
/// there was already takes that session off the hub, and leaves the others.
pub proof fn failed_start_is_told(
    h: HubState,
    sid: Seq<char>,
    origin: Waiter,
    err: Fault,
    other: Seq<char>,
)
    ensures
        h.member(origin.client) is Some ==> h.failed(None, origin, err) == (HubState {
            out: h.out.push(
                Act::Send(origin.client, error_message(origin.id, err.code, err.text)),
            ),
            ..h
        }),
        h.failed(Some(sid), origin, err).place(sid) is None,
        other != sid ==> h.failed(Some(sid), origin, err).place(other) == h.place(other),
        !(h.place(sid) matches Some(Place::Starting(_))) && h.member(origin.client) is Some
            ==> h.failed(Some(sid), origin, err).out == h.out.push(
            Act::Send(origin.client, error_message(origin.id, err.code, err.text)),
        ),
        h.failed(Some(sid), origin, err).clients == h.clients,
        h.failed(Some(sid), origin, err).prompts == h.prompts,
        h.failed(Some(sid), origin, err).routes == h.routes,
        h.failed(Some(sid), origin, err).lan == h.lan,
{
    let gone = HubState { sessions: without(h.sessions, sid), ..h };
    lemma_lookup_without(h.sessions, sid, sid);
    lemma_lookup_without(h.sessions, sid, other);
    let alone = seq![origin];
    assert(alone.drop_last() =~= Seq::empty());
    assert(alone.last() == origin);
    lemma_nobody_keyed();
    assert(h.told_failure(alone.drop_last(), err) == h);
    assert(gone.told_failure(alone.drop_last(), err) == gone);
    let waiting = match h.place(sid) {
        Some(Place::Starting(ws)) => ws,
        _ => alone,
    };
    lemma_told_failure(gone, waiting, err);
}

/// Nobody has a key among nobody.
proof fn lemma_nobody_keyed()
    ensures
        HubState::waiter_keys(Seq::empty()) == Set::<Seq<char>>::empty(),
{
    let none = Seq::<Waiter>::empty();
    let keys = none.map_values(|w: Waiter| HubState::waiter_key(w));
    assert(keys =~= Seq::empty());
    assert(keys.to_set() =~= Set::empty());
}

/// Telling of a failure does nothing else.
proof fn lemma_told_failure(h: HubState, waiting: Seq<Waiter>, err: Fault)
    ensures
        h.told_failure(waiting, err) == (HubState {
            out: h.told_failure(waiting, err).out,
            ..h
        }),
    decreases waiting.len(),
{
    if waiting.len() > 0 {
        lemma_told_failure(h, waiting.drop_last(), err);
    }
}

/// A client's answer to a prompt that it was handed goes to whoever sent the
/// prompt, under the same id: the error if it has one, or else the result, or else
/// an empty one. The prompt is then off the hub's mind, and others are not.
/// Nothing else is sent or changes.
pub proof fn hosts_answer_goes_to_the_sender(
    h: HubState,
    id: Tree,
    result: Option<Tree>,
    error: Option<Tree>,
    p: HostedPrompt,
    other: Seq<char>,
)
    requires
        lookup(h.prompts, crate::codec::printed(id)) == Some(p),
    ensures
        ({
            let g = h.replied(id, result, error);
            let answer = match (error, result) {
                (Some(e), _) => Tree::Object(
                    map!["jsonrpc"@ => Tree::Str("2.0"@), "id"@ => id, "error"@ => e],
                ),
                (None, Some(r)) => result_message(id, r),
                (None, None) => result_message(id, Tree::Object(map![])),
            };
            &&& lookup(g.prompts, crate::codec::printed(id)) is None
            &&& other != crate::codec::printed(id) ==> lookup(g.prompts, other) == lookup(
                h.prompts,
                other,
            )
            &&& g == (HubState {
                prompts: g.prompts,
                out: if h.member(p.origin) is Some {
                    h.out.push(Act::Send(p.origin, answer))
                } else {
                    h.out
                },
                ..h
            })
        }),
{
    lemma_lookup_without(h.prompts, crate::codec::printed(id), crate::codec::printed(id));
    lemma_lookup_without(h.prompts, crate::codec::printed(id), other);
}

/// A client's answer that is to no prompt goes to the actor that asked a question
/// under its id, as it came. Where there is none it does nothing.
pub proof fn answer_to_a_question_goes_to_its_actor(
    h: HubState,
    id: Tree,
    result: Option<Tree>,
    error: Option<Tree>,
)
    requires
        lookup(h.prompts, crate::codec::printed(id)) is None,
    ensures
        h.replied(id, result, error) == match id {
            Tree::Str(s) => match lookup(h.routes, s) {
                Some(sid) => match h.place(sid) {
                    Some(Place::Live { actor, .. }) => HubState {
                        out: h.out.push(Act::Order(actor, Cmd::Reply { id, result, error })),
                        ..h
                    },
                    _ => h,
                },
                None => h,
            },
            _ => match lookup(h.routes, Seq::empty()) {
                Some(sid) => match h.place(sid) {
                    Some(Place::Live { actor, .. }) => HubState {
                        out: h.out.push(Act::Order(actor, Cmd::Reply { id, result, error })),
                        ..h
                    },
                    _ => h,
                },
                None => h,
            },
        },
{
}

/// Parameters of a notice as those who follow the session see them: as they came,
/// with the session's name put in where there is room for it and none is there.
pub open spec fn with_session(params: Tree, sid: Seq<char>) -> Tree {
    match params {
        Tree::Object(m) => if m.contains_key("sessionId"@) {
            params
        } else {
            Tree::Object(m.insert("sessionId"@, Tree::Str(sid)))
        },
        _ => params,
    }
}

/// What a client that runs a session says of it goes to everyone who follows it,
/// as it was said, with the session's name put in where it is missing. Nothing
/// else is sent or changes.
pub proof fn hosts_words_reach_every_follower(
    h: HubState,
    client: u64,
    method: Seq<char>,
    params: Tree,
    sid: Seq<char>,
)
    requires
        method == "session/update"@ || method == "x.ai/session/update"@ || method
            == "x.ai/session_notification"@,
        h.place(sid) matches Some(Place::Hosted { client: c, .. }) && (c == client || !h.on_lan(
            client,
        )),
        match (params.get("sessionId"@), params.get("session_id"@)) {
            (Some(t), _) => t == Tree::Str(sid),
            (None, Some(t)) => t == Tree::Str(sid),
            (None, None) => h.run_by(client) == seq![sid],
        },
    ensures
        h.notified(client, method, params) == (HubState {
            out: h.out + h.followers(sid).map_values(
                |c: u64|
                    Act::Send(c, notice_message("session/update"@, with_session(params, sid))),
            ),
            ..h
        }),
{
    let g = h.notified(client, method, params);
    assert(g.out =~= h.out + h.followers(sid).map_values(
        |c: u64| Act::Send(c, notice_message("session/update"@, with_session(params, sid))),
    ));
}

/// A notice about a session that an agent of the hub runs goes to the agent's
/// actor, as it came; nothing else is sent or changes. One about a session that
/// nobody runs does nothing, and neither does one that is about no session.
pub proof fn notices_reach_the_actor(
    h: HubState,
    client: u64,
    method: Seq<char>,
    params: Tree,
    sid: Seq<char>,
)
    ensures
        crate::text::begins(method, "session/"@) || crate::text::begins(method, "x.ai/"@)
            || crate::text::begins(method, "_x.ai/"@) ==> (params.get("sessionId"@) == Some(
            Tree::Str(sid),
        ) ==> match h.place(sid) {
            Some(Place::Live { actor, .. }) => h.notified(client, method, params) == (HubState {
                out: h.out.push(Act::Order(actor, Cmd::Notify { method, params })),
                ..h
            }),
            None => h.notified(client, method, params) == h,
            _ => true,
        }),
        !crate::text::begins(method, "session/"@) && !crate::text::begins(method, "x.ai/"@)
            && !crate::text::begins(method, "_x.ai/"@) ==> h.notified(client, method, params) == h,
{
    reveal_strlit("session/");
    reveal_strlit("x.ai/");
    reveal_strlit("session/cancel");
    reveal_strlit("session/update");
    reveal_strlit("x.ai/session/update");
    reveal_strlit("x.ai/session_notification");
    assert("session/cancel"@.take(8) =~= "session/"@);
    assert("session/update"@.take(8) =~= "session/"@);
    assert("x.ai/session/update"@.take(5) =~= "x.ai/"@);
    assert("x.ai/session_notification"@.take(5) =~= "x.ai/"@);
}

/// Who is let in: a client of a known kind that speaks the hub's protocol, and
/// that comes in the way its kind does: phones over the network, with the
/// certificate of an enrolled device, and the others locally. Whoever is not is
/// told why, and nothing changes.
pub proof fn strangers_are_turned_away(
    h: HubState,
    params: Tree,
    lan: bool,
    fp: Option<Seq<char>>,
    devices: Seq<Device>,
    now: u64,
)
    ensures
        ({
            let (g, r) = h.greeted(params, lan, fp, devices, now);
            let kind = match params.get("client"@) {
                Some(c) => match c.get("kind"@) {
                    Some(Tree::Str(s)) => s,
                    _ => Seq::empty(),
                },
                None => Seq::empty(),
            };
            let version = match params.get("protocolVersion"@) {
                Some(Tree::Int(n)) => if 0 <= n <= u64::MAX {
                    n
                } else {
                    0
                },
                _ => 0,
            };
            let phone = kind == "ios"@ || kind == "android"@;
            let known = phone || kind == "macos"@ || kind == "tui"@ || kind == "stdio"@;
            &&& !known ==> g == h && r == Err::<(u64, Tree), Fault>(
                Fault { code: -32602, text: "unknown client kind "@ + kind },
            )
            &&& known && lan && !phone ==> g == h && r == Err::<(u64, Tree), Fault>(
                Fault { code: -32000, text: "LAN listener only accepts ios/android clients"@ },
            )
            &&& !lan && phone ==> g == h && r == Err::<(u64, Tree), Fault>(
                Fault { code: -32000, text: "mobile clients must use the TLS listener"@ },
            )
            &&& lan && phone && fp is None ==> g == h && r == Err::<(u64, Tree), Fault>(
                Fault { code: -32000, text: "missing device certificate"@ },
            )
            &&& lan && phone && fp is Some && enrolled(devices, fp->0, now) is None ==> g == h
                && r == Err::<(u64, Tree), Fault>(
                Fault { code: -32000, text: "device not enrolled or expired"@ },
            )
            &&& known && lan == phone && (lan ==> fp is Some && enrolled(devices, fp->0, now)
                is Some) ==> {
                &&& version != 1 ==> g == h && r == Err::<(u64, Tree), Fault>(
                    Fault {
                        code: -32000,
                        text: "unsupported protocolVersion "@ + decimal(version as nat),
                    },
                )
                &&& version == 1 && r is Err ==> r == Err::<(u64, Tree), Fault>(
                    Fault { code: -32001, text: "too many connections"@ },
                )
            }
        }),
{
    reveal_strlit("ios");
    reveal_strlit("android");
    reveal_strlit("macos");
    reveal_strlit("tui");
    reveal_strlit("stdio");
    assert("ios"@[0] != "tui"@[0]);
    assert("ios"@.len() == 3 && "android"@.len() == 7);
    assert("macos"@.len() == 5 && "tui"@.len() == 3 && "stdio"@.len() == 5);
}

/// A local client that is let in is connected from then on, locally and following
/// nothing, under the next id, and is told its id, the hub's version, the
/// protocol, how it came in and what kind it is. Nobody else changes and nothing
/// is sent. It is let in as long as there is room for one more local client.
pub proof fn local_client_is_let_in(
    h: HubState,
    params: Tree,
    fp: Option<Seq<char>>,
    devices: Seq<Device>,
    now: u64,
    kind: Seq<char>,
    other: u64,
)
    requires
        params.get_in("client"@, "kind"@) == Some(Tree::Str(kind)),
        kind == "macos"@ || kind == "tui"@ || kind == "stdio"@,
        params.get("protocolVersion"@) == Some(Tree::Int(1)),
    ensures
        ({
            let (g, r) = h.greeted(params, false, fp, devices, now);
            let local = h.clients.filter(|c: (u64, Member)| !c.1.lan).len();
            if local < 8 {
                &&& r == Ok::<(u64, Tree), Fault>(
                    (
                        h.next_client,
                        Tree::Object(
                            map![
                                "clientId"@ => Tree::Int(h.next_client as int),
                                "hubVersion"@ => Tree::Str("0.1.0"@),
                                "protocolVersion"@ => Tree::Int(1),
                                "transport"@ => Tree::Str("unix"@),
                                "kind"@ => Tree::Str(kind),
                            ],
                        ),
                    ),
                )
                &&& g.member(h.next_client) == Some(
                    Member { subs: Set::empty(), lan: false, fp },
                )
                &&& other != h.next_client ==> g.member(other) == h.member(other)
                &&& h.next_client < u64::MAX ==> g.next_client == h.next_client + 1
                &&& g == (HubState { clients: g.clients, next_client: g.next_client, ..h })
            } else {
                g == h && r == Err::<(u64, Tree), Fault>(
                    Fault { code: -32001, text: "too many connections"@ },
                )
            }
        }),
{
    reveal_strlit("ios");
    reveal_strlit("android");
    reveal_strlit("macos");
    reveal_strlit("tui");
    reveal_strlit("stdio");
    assert("ios"@[0] != "tui"@[0]);
    assert("ios"@.len() == 3 && "android"@.len() == 7);
    assert("macos"@.len() == 5 && "tui"@.len() == 3 && "stdio"@.len() == 5);
    let me = Member { subs: Set::<Seq<char>>::empty(), lan: false, fp };
    lemma_lookup_put(h.clients, h.next_client, me, h.next_client);
    lemma_lookup_put(h.clients, h.next_client, me, other);
    lemma_same_filter(
        h.clients,
        |c: (u64, Member)| c.1.lan == false,
        |c: (u64, Member)| !c.1.lan,
    );
}

/// A phone that is let in is connected from then on, over the network and
/// following nothing, as the enrolled device whose certificate it showed, under
/// the next id. It is told its id, the hub's version, the protocol, how it came in
/// and what kind it is. Clients of other devices stay as they are.
pub proof fn phone_is_let_in(
    h: HubState,
    params: Tree,
    fp: Seq<char>,
    devices: Seq<Device>,
    now: u64,
    kind: Seq<char>,
    other: u64,
)
    requires
        params.get_in("client"@, "kind"@) == Some(Tree::Str(kind)),
        kind == "ios"@ || kind == "android"@,
        params.get("protocolVersion"@) == Some(Tree::Int(1)),
        enrolled(devices, fp, now) is Some,
        crate::laws::orderly(h),
    ensures
        ({
            let (g, r) = h.greeted(params, true, Some(fp), devices, now);
            let rivals = h.clients.filter(|c: (u64, Member)| c.1.fp != Some(fp)).filter(
                |c: (u64, Member)| c.1.lan,
            ).len();
            &&& rivals < 2 ==> {
                &&& r == Ok::<(u64, Tree), Fault>(
                    (
                        h.next_client,
                        Tree::Object(
                            map![
                                "clientId"@ => Tree::Int(h.next_client as int),
                                "hubVersion"@ => Tree::Str("0.1.0"@),
                                "protocolVersion"@ => Tree::Int(1),
                                "transport"@ => Tree::Str("lan"@),
                                "kind"@ => Tree::Str(kind),
                            ],
                        ),
                    ),
                )
                &&& g.member(h.next_client) == Some(
                    Member { subs: Set::empty(), lan: true, fp: Some(fp) },
                )
                &&& h.next_client < u64::MAX ==> g.next_client == h.next_client + 1
            }
            &&& rivals >= 2 ==> r == Err::<(u64, Tree), Fault>(
                Fault { code: -32001, text: "too many connections"@ },
            )
            &&& (h.member(other) matches Some(m) && m.fp != Some(fp)) ==> g.member(other)
                == h.member(other)
            &&& g == (HubState {
                clients: g.clients,
                next_client: g.next_client,
                out: g.out,
                ..h
            })
            &&& h.out.is_prefix_of(g.out)
            &&& (forall|i: int|
                0 <= i < h.clients.len() ==> (#[trigger] h.clients[i]).1.fp != Some(fp)) ==> g.out
                == h.out
        }),
{
    reveal_strlit("ios");
    reveal_strlit("android");
    reveal_strlit("macos");
    reveal_strlit("tui");
    reveal_strlit("stdio");
    assert("ios"@[0] != "tui"@[0]);
    assert("ios"@.len() == 3 && "android"@.len() == 7);
    assert("macos"@.len() == 5 && "tui"@.len() == 3 && "stdio"@.len() == 5);
    let s = h.evicting(fp, "replaced"@);
    let me = Member { subs: Set::<Seq<char>>::empty(), lan: true, fp: Some(fp) };
    lemma_evicted(h, fp, "replaced"@, other);
    lemma_lookup_put(s.clients, s.next_client, me, s.next_client);
    lemma_lookup_put(s.clients, s.next_client, me, other);
    lemma_same_filter(
        s.clients,
        |c: (u64, Member)| c.1.lan == true,
        |c: (u64, Member)| c.1.lan,
    );
    if h.member(other) is Some {
        let k = lemma_lookup_found(h.clients, other);
        assert(crate::laws::seats(h.clients)[k].id < h.next_client);
    }
}

/// Sending off the clients of a device leaves the others as they are, and says
/// nothing where there is none.
proof fn lemma_evicted(h: HubState, fp: Seq<char>, reason: Seq<char>, other: u64)
    requires
        crate::laws::orderly(h),
    ensures
        ({
            let g = h.evicting(fp, reason);
            &&& (h.member(other) matches Some(m) && m.fp != Some(fp)) ==> g.member(other)
                == h.member(other)
            &&& (h.member(other) matches Some(m) && m.fp == Some(fp)) ==> g.member(other) is None
            &&& h.member(other) is None ==> g.member(other) is None
            &&& h.out.is_prefix_of(g.out)
            &&& (forall|i: int|
                0 <= i < h.clients.len() ==> (#[trigger] h.clients[i]).1.fp != Some(fp)) ==> g.out
                == h.out
        }),
{
    let goes = |c: (u64, Member)| c.1.fp == Some(fp);
    let stays = |c: (u64, Member)| c.1.fp != Some(fp);
    let g = h.evicting(fp, reason);
    let gone = h.clients.filter(goes);
    assert(h.out =~= g.out.subrange(0, h.out.len() as int));
    if forall|i: int| 0 <= i < h.clients.len() ==> (#[trigger] h.clients[i]).1.fp != Some(fp) {
        if gone.len() > 0 {
            h.clients.lemma_filter_pred(goes, 0);
            assert(gone.contains(gone[0]));
            h.clients.lemma_filter_contains_rev(goes, gone[0]);
            let a = choose|a: int| 0 <= a < h.clients.len() && h.clients[a] == gone[0];
            assert(h.clients[a].1.fp != Some(fp));
        }
        assert(g.out =~= h.out);
    }
    if g.member(other) is Some {
        let j = lemma_lookup_found(g.clients, other);
        h.clients.lemma_filter_pred(stays, j);
        assert(g.clients.contains(g.clients[j]));
        h.clients.lemma_filter_contains_rev(stays, g.clients[j]);
        let a = choose|a: int| 0 <= a < h.clients.len() && h.clients[a] == g.clients[j];
        crate::laws::lemma_lookup_at(h, a);
    }
    if let Some(m) = h.member(other) {
        if m.fp != Some(fp) {
            let a = lemma_lookup_found(h.clients, other);
            h.clients.lemma_filter_contains(stays, a);
            let k = choose|k: int| 0 <= k < g.clients.len() && g.clients[k] == h.clients[a];
            lemma_key_found(g.clients, k);
        }
    }
}

/// A key that stands in a table is found in it.
pub proof fn lemma_key_found<K, V>(s: Seq<(K, V)>, k: int)
    requires
        0 <= k < s.len(),
    ensures
        lookup(s, s[k].0) is Some,
    decreases s.len(),
{
    if s[0].0 != s[k].0 {
        lemma_key_found(s.drop_first(), k - 1);
    }
}

/// A local client that takes a device's access away, and finds it gone, is told
/// so; every client of that device is told that it is revoked and is let go of,
/// and clients of other devices stay as they are. Of an unknown device, or where
/// the access could not be taken away, nothing changes and it is told that.
pub proof fn revoked_device_is_sent_off(
    h: HubState,
    client: u64,
    id: Tree,
    params: Tree,
    w: World,
    device: Seq<char>,
    d: Device,
    one: u64,
)
    requires
        !h.on_lan(client),
        params.get("deviceId"@) == Some(Tree::Str(device)),
        crate::laws::orderly(h),
    ensures
        ({
            let (g, a) = h.requested(client, id, "gtm/remote.revoke"@, params, w);
            match w.fate {
                Fate::Gone => {
                    &&& a == Answer::Done(
                        Tree::Object(
                            map!["ok"@ => Tree::Bool(true), "deviceId"@ => Tree::Str(device)],
                        ),
                    )
                    &&& crate::tls::device_named(w.devices, device) is None ==> g == h
                    &&& crate::tls::device_named(w.devices, device) == Some(d) ==> {
                        &&& (h.member(one) matches Some(m) && m.fp == Some(d.fp)) ==> {
                            &&& g.member(one) is None
                            &&& g.out.contains(
                                Act::Send(
                                    one,
                                    notice_message(
                                        "gtm/hub.shutdown"@,
                                        Tree::Object(map!["reason"@ => Tree::Str("revoked"@)]),
                                    ),
                                ),
                            )
                            &&& g.out.contains(Act::Close(one))
                        }
                        &&& (h.member(one) matches Some(m) && m.fp != Some(d.fp)) ==> g.member(one)
                            == h.member(one)
                        &&& h.out.is_prefix_of(g.out)
                        &&& g == (HubState { clients: g.clients, out: g.out, ..h })
                    }
                },
                Fate::Unknown => g == h && a == Answer::Refused(
                    Fault { code: -32602, text: "unknown device"@ },
                ),
                Fate::Failed(err) => g == h && a == Answer::Refused(
                    Fault { code: -32011, text: err },
                ),
            }
        }),
{
    method_names_differ();
    lemma_evicted(h, d.fp, "revoked"@, one);
    if h.member(one) matches Some(m) && m.fp == Some(d.fp) {
        crate::laws::replaced_connection_is_told(h, d.fp, "revoked"@, one);
    }
}

/// A request to take a device's access away that names none changes nothing and is
/// refused.
pub proof fn device_has_to_be_named(h: HubState, client: u64, id: Tree, params: Tree, w: World)
    requires
        !h.on_lan(client),
        !(params.get("deviceId"@) matches Some(Tree::Str(_))),
    ensures
        h.requested(client, id, "gtm/remote.revoke"@, params, w) == (
            h,
            Answer::Refused(Fault { code: -32602, text: "deviceId required"@ }),
        ),
{
    method_names_differ();
}

/// The end of the hub tells every actor to stop and then lets go of everyone, in
/// order; nothing but that is done, and nobody and nothing is left.
pub proof fn ending_lets_go_of_everyone(h: HubState)
    ensures
        h.ended() == (HubState {
            clients: Seq::empty(),
            sessions: Seq::empty(),
            out: h.out + HubState::stops(h.sessions) + h.clients.map_values(
                |c: (u64, Member)| Act::Close(c.0),
            ),
            ..h
        }),
{
}

/// A client is on the network exactly if it is connected and came in over it.
pub proof fn network_clients_came_in_over_it(h: HubState, client: u64)
    ensures
        h.on_lan(client) <==> (h.member(client) matches Some(m) && m.lan),
{
}

/// The sessions that a client runs are those that the hub has it as the host of, in
/// the hub's order.
pub proof fn clients_run_what_they_host(h: HubState, client: u64)
    ensures
        h.run_by(client) == h.sessions.filter(
            |e: (Seq<char>, Place)| e.1 is Hosted && e.1->Hosted_client == client,
        ).map_values(|e: (Seq<char>, Place)| e.0),
{
    lemma_same_filter(
        h.sessions,
        |e: (Seq<char>, Place)|
            match e.1 {
                Place::Hosted { client: c, .. } => c == client,
                _ => false,
            },
        |e: (Seq<char>, Place)| e.1 is Hosted && e.1->Hosted_client == client,
    );
}

/// A notice about a session that a client runs, other than of what it says, does
/// nothing; and neither does one of what is said, from a client on the network that
/// does not run the session, or from one that names no session and does not run
/// exactly one.
pub proof fn notices_that_do_nothing(
    h: HubState,
    client: u64,
    method: Seq<char>,
    params: Tree,
    sid: Seq<char>,
)
    ensures
        ({
            let speech = method == "session/update"@ || method == "x.ai/session/update"@ || method
                == "x.ai/session_notification"@;
            let named = params.get("sessionId"@) == Some(Tree::Str(sid));
            let hosted = h.place(sid) matches Some(Place::Hosted { .. });
            &&& !speech && named && hosted ==> h.notified(client, method, params) == h
            &&& (speech && named && h.on_lan(client) && (h.place(sid) matches Some(
                Place::Hosted { client: c, .. },
            ) && c != client)) ==> h.notified(client, method, params) == h
            &&& params.get("sessionId"@) is None && params.get("session_id"@) is None && h.run_by(
                client,
            ).len() != 1 ==> h.notified(client, method, params) == h
        }),
{
}

/// Every act by which clients of a device are sent off is to one of them: that it
/// should go, or that it is let go of. The clients that stay are those of no device
/// or another, as they were and in their order.
pub proof fn only_the_devices_clients_are_sent_off(
    h: HubState,
    fp: Seq<char>,
    reason: Seq<char>,
    k: int,
)
    ensures
        ({
            let g = h.evicting(fp, reason);
            &&& g.clients == h.clients.filter(|c: (u64, Member)| c.1.fp != Some(fp))
            &&& g == (HubState { clients: g.clients, out: g.out, ..h })
            &&& h.out.len() <= k < g.out.len() ==> exists|i: int|
                0 <= i < h.clients.len() && (#[trigger] h.clients[i]).1.fp == Some(fp) && (
                g.out[k] == Act::Close(h.clients[i].0) || g.out[k] == Act::Send(
                    h.clients[i].0,
                    notice_message(
                        "gtm/hub.shutdown"@,
                        Tree::Object(map!["reason"@ => Tree::Str(reason)]),
                    ),
                ))
        }),
{
    let goes = |c: (u64, Member)| c.1.fp == Some(fp);
    let gone = h.clients.filter(goes);
    let g = h.evicting(fp, reason);
    if h.out.len() <= k < g.out.len() {
        let acts = crate::model::sent_off(gone, reason);
        lemma_sent_off(gone, reason, k - h.out.len());
        let j = choose|j: int|
            0 <= j < gone.len() && (acts[k - h.out.len()] == Act::Close((#[trigger] gone[j]).0)
                || acts[k - h.out.len()] == Act::Send(
                gone[j].0,
                crate::model::farewell(reason),
            ));
        h.clients.lemma_filter_pred(goes, j);
        assert(gone.contains(gone[j]));
        h.clients.lemma_filter_contains_rev(goes, gone[j]);
        let i = choose|i: int| 0 <= i < h.clients.len() && h.clients[i] == gone[j];
        assert(h.clients[i].1.fp == Some(fp));
    }
}

proof fn lemma_sent_off(gone: Seq<(u64, Member)>, reason: Seq<char>, k: int)
    requires
        0 <= k < crate::model::sent_off(gone, reason).len(),
    ensures
        exists|j: int|
            0 <= j < gone.len() && (crate::model::sent_off(gone, reason)[k] == Act::Close(
                (#[trigger] gone[j]).0,
            ) || crate::model::sent_off(gone, reason)[k] == Act::Send(
                gone[j].0,
                crate::model::farewell(reason),
            )),
    decreases gone.len(),
{
    let front = gone.drop_last();
    let acts = crate::model::sent_off(gone, reason);
    let before = crate::model::sent_off(front, reason);
    if k < before.len() {
        lemma_sent_off(front, reason, k);
        let j = choose|j: int|
            0 <= j < front.len() && (before[k] == Act::Close((#[trigger] front[j]).0) || before[k]
                == Act::Send(front[j].0, crate::model::farewell(reason)));
        assert(gone[j] == front[j]);
    } else {
        assert(gone[gone.len() - 1] == gone.last());
    }
}

/// When an agent fails to start, only those who waited are told, and each of them who
/// is connected once where no two are the same.
pub proof fn only_those_who_waited_are_told(
    h: HubState,
    sid: Seq<char>,
    origin: Waiter,
    err: Fault,
    waiting: Seq<Waiter>,
    k: int,
)
    requires
        h.place(sid) == Some(Place::Starting(waiting)),
    ensures
        ({
            let g = h.failed(Some(sid), origin, err);
            &&& h.out.is_prefix_of(g.out)
            &&& h.out.len() <= k < g.out.len() ==> exists|i: int|
                0 <= i < waiting.len() && g.out[k] == Act::Send(
                    (#[trigger] waiting[i]).client,
                    error_message(waiting[i].id, err.code, err.text),
                )
            &&& (forall|i: int, j: int|
                0 <= i < j < waiting.len() ==> HubState::waiter_key(#[trigger] waiting[i])
                    != HubState::waiter_key(#[trigger] waiting[j])) ==> g.out == h.out
                + waiting.filter(|w: Waiter| h.member(w.client) is Some).map_values(
                |w: Waiter| Act::Send(w.client, error_message(w.id, err.code, err.text)),
            )
        }),
{
    let gone = HubState { sessions: without(h.sessions, sid), ..h };
    lemma_failure_words(gone, waiting, err, k);
    lemma_same_filter(
        waiting,
        |w: Waiter| gone.member(w.client) is Some,
        |w: Waiter| h.member(w.client) is Some,
    );
}

proof fn lemma_failure_words(h: HubState, waiting: Seq<Waiter>, err: Fault, k: int)
    ensures
        ({
            let g = h.told_failure(waiting, err);
            &&& h.out.is_prefix_of(g.out)
            &&& h.out.len() <= k < g.out.len() ==> exists|i: int|
                0 <= i < waiting.len() && g.out[k] == Act::Send(
                    (#[trigger] waiting[i]).client,
                    error_message(waiting[i].id, err.code, err.text),
                )
            &&& (forall|i: int, j: int|
                0 <= i < j < waiting.len() ==> HubState::waiter_key(#[trigger] waiting[i])
                    != HubState::waiter_key(#[trigger] waiting[j])) ==> g.out == h.out
                + waiting.filter(|w: Waiter| h.member(w.client) is Some).map_values(
                |w: Waiter| Act::Send(w.client, error_message(w.id, err.code, err.text)),
            )
        }),
    decreases waiting.len(),
{
    reveal(Seq::filter);
    let told = |w: Waiter| h.member(w.client) is Some;
    let word = |w: Waiter| Act::Send(w.client, error_message(w.id, err.code, err.text));
    let g = h.told_failure(waiting, err);
    if waiting.len() > 0 {
        let front = waiting.drop_last();
        let before = h.told_failure(front, err);
        let last = waiting.last();
        lemma_failure_words(h, front, err, k);
        lemma_told_failure(h, front, err);
        assert(h.out =~= before.out.subrange(0, h.out.len() as int));
        assert(h.out =~= g.out.subrange(0, h.out.len() as int));
        if h.out.len() <= k < g.out.len() {
            if k < before.out.len() {
                let i = choose|i: int|
                    0 <= i < front.len() && before.out[k] == Act::Send(
                        (#[trigger] front[i]).client,
                        error_message(front[i].id, err.code, err.text),
                    );
                assert(waiting[i] == front[i]);
            } else {
                assert(waiting[waiting.len() - 1] == last);
            }
        }
        if forall|i: int, j: int|
            0 <= i < j < waiting.len() ==> HubState::waiter_key(#[trigger] waiting[i])
                != HubState::waiter_key(#[trigger] waiting[j]) {
            assert forall|i: int, j: int| 0 <= i < j < front.len() implies HubState::waiter_key(
                #[trigger] front[i],
            ) != HubState::waiter_key(#[trigger] front[j]) by {
                assert(waiting[i] == front[i] && waiting[j] == front[j]);
            }
            let keys = front.map_values(|w: Waiter| HubState::waiter_key(w));
            assert(!HubState::waiter_keys(front).contains(HubState::waiter_key(last))) by {
                if HubState::waiter_keys(front).contains(HubState::waiter_key(last)) {
                    assert(keys.contains(HubState::waiter_key(last)));
                    let i = choose|i: int|
                        0 <= i < keys.len() && keys[i] == HubState::waiter_key(last);
                    assert(waiting[i] == front[i]);
                    assert(HubState::waiter_key(waiting[i]) != HubState::waiter_key(
                        waiting[waiting.len() - 1],
                    ));
                }
            }
            if told(last) {
                assert(waiting.filter(told).map_values(word) =~= front.filter(told).map_values(
                    word,
                ).push(word(last)));
                assert(g.out =~= h.out + waiting.filter(told).map_values(word));
            } else {
                assert(g.out =~= h.out + waiting.filter(told).map_values(word));
            }
        }
    } else {
        assert(h.out =~= g.out.subrange(0, h.out.len() as int));
        assert(g.out =~= h.out + waiting.filter(told).map_values(word));
    }
}

} // verus!
