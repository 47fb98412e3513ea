//! What goes between clients and the agent of a session: each request reaches the
//! agent as it was made, each answer comes back to whoever asked, and whatever the
//! agent says reaches everyone who follows.

use crate::actor::{
    agent_greeting, agent_line, agent_method, cancelled, dangerous, heard, lossy, lowercase,
    settled_notice, told_closed, ActorState, BootMove, BootState, Heard, Move, Owed, Passage,
    Passing, Queued,
};
use crate::codec::{parsed, printed};
use crate::hosting_laws::{news, said_in, with_session};
use crate::json::{same, Tree};
use crate::model::{Act, Cmd, HubState, Start, Waiter};
use crate::rpc::{error_message, notice_message, request_message, result_message, Fault};
use crate::sessions::{disk_title, Stored};
use crate::table::{lemma_lookup_put, lemma_lookup_without, lookup};
use crate::text::{begins, occurs, trimmed};
use vstd::prelude::*;

verus! {

/// The names of the methods that an actor knows differ.
pub proof fn lemma_names()
    ensures
        "session/prompt"@ != "session/cancel"@,
        !begins("session/prompt"@, "x.ai/"@),
{
    reveal_strlit("session/prompt");
    reveal_strlit("session/cancel");
    reveal_strlit("x.ai/");
    assert("session/prompt"@[8] != "session/cancel"@[8]);
    if begins("session/prompt"@, "x.ai/"@) {
        assert("session/prompt"@.take(5)[0] == "x.ai/"@[0]);
    }
}

/// An agent knows a method of its makers by the same name behind an underscore, and
/// any other by the same name.
pub proof fn agents_know_methods_by_name(method: Seq<char>, rest: Seq<char>)
    ensures
        agent_method("x.ai/"@ + rest) == "_x.ai/"@ + rest,
        !begins(method, "x.ai/"@) ==> agent_method(method) == method,
{
    let m = "x.ai/"@ + rest;
    assert(m.take("x.ai/"@.len() as int) =~= "x.ai/"@);
    assert(m.skip("x.ai/"@.len() as int) =~= rest);
}

/// A prompt that need not wait goes to the agent at once, under the next number and
/// with the parameters that the client gave; the actor knows whose it is, and that
/// a prompt runs. One that comes while another runs waits behind those that wait
/// already, with all that the client gave, and nothing is sent.
pub proof fn prompt_goes_to_the_agent_or_waits(
    a: ActorState,
    h: HubState,
    client: u64,
    id: Tree,
    params: Tree,
)
    requires
        a.next_id < i64::MAX,
    ensures
        ({
            let (b, g, m) = a.ordered(
                h,
                Cmd::Rpc { client, id, method: "session/prompt"@, params },
            );
            &&& g == h
            &&& !a.inflight ==> {
                &&& b == (ActorState { inflight: true, next_id: (a.next_id + 1) as i64, ..a })
                &&& m == Move::Forward(
                    request_message(Tree::Int(a.next_id as int), "session/prompt"@, params),
                    Passing { agent_id: a.next_id, client, id, kind: Passage::Prompt },
                )
            }
            &&& a.inflight ==> {
                &&& b == (ActorState { queue: a.queue.push(Queued { client, id, params }), ..a })
                &&& m == Move::Idle
            }
        }),
{
    lemma_names();
}

/// A request to stop goes to the agent as a notice, with the parameters that the
/// client gave. Any other request but a prompt goes to the agent under the next
/// number, by the name that the agent knows it by and with the parameters that the
/// client gave. The actor knows whose it is, and the hub does not change.
pub proof fn other_requests_go_to_the_agent(
    a: ActorState,
    h: HubState,
    client: u64,
    id: Tree,
    method: Seq<char>,
    params: Tree,
)
    requires
        a.next_id < i64::MAX,
        method != "session/prompt"@,
    ensures
        ({
            let (b, g, m) = a.ordered(h, Cmd::Rpc { client, id, method, params });
            &&& g == h
            &&& b == (ActorState { next_id: (a.next_id + 1) as i64, ..a })
            &&& method == "session/cancel"@ ==> m == Move::Forward(
                notice_message("session/cancel"@, params),
                Passing { agent_id: a.next_id, client, id, kind: Passage::Cancel },
            )
            &&& method != "session/cancel"@ ==> m == Move::Forward(
                request_message(Tree::Int(a.next_id as int), agent_method(method), params),
                Passing { agent_id: a.next_id, client, id, kind: Passage::Other },
            )
        }),
{
}

/// A client's notice goes to the agent, by the name that the agent knows it by and
/// with the parameters that the client gave; the word to stop ends the actor. Both
/// change nothing.
pub proof fn notices_and_the_end_reach_the_actor(
    a: ActorState,
    h: HubState,
    method: Seq<char>,
    params: Tree,
)
    ensures
        a.ordered(h, Cmd::Notify { method, params }) == (
            a,
            h,
            Move::Write(notice_message(agent_method(method), params)),
        ),
        a.ordered(h, Cmd::Shutdown) == (a, h, Move::Stop),
{
}

/// Once a request has reached the agent, the actor owes its answer to the client
/// that made it, under the client's id, and knows whether it is a prompt's; what it
/// owed before it still owes. A request to stop is answered at once. Nothing else
/// changes.
pub proof fn request_that_arrived_is_owed_its_answer(
    a: ActorState,
    h: HubState,
    f: Passing,
    n: i64,
)
    ensures
        ({
            let (b, g) = a.passed(h, f, None);
            &&& f.kind == Passage::Cancel ==> {
                &&& b == (ActorState {
                    pending: a.pending.filter(|e: (i64, Owed)| !same(e.1.id, f.id)),
                    ..a
                })
                &&& g == (HubState {
                    out: if h.member(f.client) is Some {
                        h.out.push(
                            Act::Send(f.client, result_message(f.id, Tree::Object(map![]))),
                        )
                    } else {
                        h.out
                    },
                    ..h
                })
            }
            &&& f.kind != Passage::Cancel ==> {
                &&& g == h
                &&& lookup(b.pending, f.agent_id) == Some(
                    Owed {
                        client: f.client,
                        id: f.id,
                        prompt: f.kind == Passage::Prompt || f.kind == Passage::NextPrompt,
                    },
                )
                &&& n != f.agent_id ==> lookup(b.pending, n) == lookup(a.pending, n)
                &&& b == (ActorState { pending: b.pending, ..a })
            }
        }),
{
    let owed = Owed {
        client: f.client,
        id: f.id,
        prompt: f.kind == Passage::Prompt || f.kind == Passage::NextPrompt,
    };
    lemma_lookup_put(a.pending, f.agent_id, owed, f.agent_id);
    lemma_lookup_put(a.pending, f.agent_id, owed, n);
}

/// A request that could not reach the agent is told to the client that made it,
/// under the client's id and with the reason; a prompt then no longer runs. One
/// that had waited for its turn is told nothing.
pub proof fn request_that_did_not_arrive_is_told(
    a: ActorState,
    h: HubState,
    f: Passing,
    text: Seq<char>,
)
    ensures
        ({
            let (b, g) = a.passed(h, f, Some(text));
            &&& b == (ActorState {
                inflight: if f.kind == Passage::Prompt {
                    false
                } else {
                    a.inflight
                },
                ..a
            })
            &&& g == (HubState {
                out: if f.kind != Passage::NextPrompt && h.member(f.client) is Some {
                    h.out.push(Act::Send(f.client, error_message(f.id, -32011, text)))
                } else {
                    h.out
                },
                ..h
            })
        }),
{
}

/// A message with another id: in every other respect the same, and with the mark of
/// the protocol where that is missing.
pub open spec fn under_id(msg: Tree, id: Tree) -> Tree {
    match msg {
        Tree::Object(m) => if m.contains_key("jsonrpc"@) {
            Tree::Object(m.insert("id"@, id))
        } else {
            Tree::Object(m.insert("id"@, id).insert("jsonrpc"@, Tree::Str("2.0"@)))
        },
        _ => msg,
    }
}

/// The agent's answer to a request goes to the client that made it, under the
/// client's id and in every other respect as the agent gave it. The actor owes it no
/// longer, and owes the others still. When it answers a prompt, the prompt that
/// waited longest goes to the agent next, under the next number and with the
/// parameters that its client gave; where none waits, no prompt runs any more.
pub proof fn agents_answer_comes_back_and_the_next_prompt_goes(
    a: ActorState,
    h: HubState,
    msg: Tree,
    n: int,
    p: Owed,
    other: i64,
)
    requires
        a.next_id < i64::MAX,
        match msg.get("method"@) {
            Some(Tree::Str(method)) => method.len() == 0,
            _ => true,
        },
        msg.get("id"@) == Some(Tree::Int(n)),
        i64::MIN <= n <= i64::MAX,
        lookup(a.pending, n as i64) == Some(p),
    ensures
        ({
            let (b, g, m) = a.told(h, msg);
            &&& g == (HubState {
                out: if h.member(p.client) is Some {
                    h.out.push(Act::Send(p.client, under_id(msg, p.id)))
                } else {
                    h.out
                },
                ..h
            })
            &&& lookup(b.pending, n as i64) is None
            &&& other != n ==> lookup(b.pending, other) == lookup(a.pending, other)
            &&& !p.prompt ==> {
                &&& m == Move::Idle
                &&& b == (ActorState { pending: b.pending, ..a })
            }
            &&& p.prompt && a.queue.len() == 0 ==> {
                &&& m == Move::Idle
                &&& b == (ActorState { pending: b.pending, inflight: false, ..a })
            }
            &&& p.prompt && a.queue.len() > 0 ==> {
                &&& m == Move::Forward(
                    request_message(
                        Tree::Int(a.next_id as int),
                        "session/prompt"@,
                        a.queue[0].params,
                    ),
                    Passing {
                        agent_id: a.next_id,
                        client: a.queue[0].client,
                        id: a.queue[0].id,
                        kind: Passage::NextPrompt,
                    },
                )
                &&& b == (ActorState {
                    pending: b.pending,
                    queue: a.queue.skip(1),
                    inflight: true,
                    next_id: (a.next_id + 1) as i64,
                    ..a
                })
            }
        }),
{
    lemma_names();
    lemma_lookup_without(a.pending, n as i64, n as i64);
    lemma_lookup_without(a.pending, n as i64, other);
    assert(a.queue.len() > 0 ==> a.queue.drop_first() =~= a.queue.skip(1));
    assert(crate::actor::with_id(msg, p.id) == under_id(msg, p.id));
}

/// An answer of the agent that nobody is owed does nothing.
pub proof fn answer_that_nobody_is_owed_does_nothing(a: ActorState, h: HubState, msg: Tree)
    requires
        match msg.get("method"@) {
            Some(Tree::Str(method)) => method.len() == 0,
            _ => true,
        },
        match msg.get("id"@) {
            Some(Tree::Int(n)) => i64::MIN <= n <= i64::MAX ==> lookup(a.pending, n as i64) is None,
            _ => true,
        },
    ensures
        a.told(h, msg) == (a, h, Move::Idle),
{
}

/// What an agent says of its session without being asked goes to everyone who
/// follows the session, once each: the agent's message in every respect, with the
/// session's name put into the parameters where there is room for it and none is
/// there. Nothing else is sent or changes.
pub proof fn agents_words_reach_every_follower(
    a: ActorState,
    h: HubState,
    msg: Tree,
    method: Seq<char>,
)
    requires
        msg.get("method"@) == Some(Tree::Str(method)),
        method.len() > 0,
        msg.get("id"@) is None,
    ensures
        ({
            let (b, g, m) = a.told(h, msg);
            let shown = match (msg, msg.get("params"@)) {
                (Tree::Object(fields), Some(params)) => Tree::Object(
                    fields.insert("params"@, with_session(params, a.sid)),
                ),
                _ => msg,
            };
            &&& b == a && m == Move::Idle
            &&& g == (HubState {
                out: h.out + h.followers(a.sid).map_values(|c: u64| Act::Send(c, shown)),
                ..h
            })
            &&& forall|key: Seq<char>| key != "params"@ ==> #[trigger] shown.get(key) == msg.get(key)
            &&& msg.get("params"@) is None ==> shown == msg
            &&& (msg.get("params"@) matches Some(params) && (!(params is Object) || params.get(
                "sessionId"@,
            ) is Some)) ==> shown == msg
            &&& msg.get("params"@) matches Some(params) ==> {
                &&& shown.get("params"@) is Some
                &&& forall|key: Seq<char>|
                    key != "sessionId"@ ==> #[trigger] (shown.get("params"@)->0).get(key)
                        == params.get(key)
            }
        }),
{
    let shown = match (msg, msg.get("params"@)) {
        (Tree::Object(fields), Some(params)) => Tree::Object(
            fields.insert("params"@, with_session(params, a.sid)),
        ),
        _ => msg,
    };
    assert(a.shown(msg) == shown);
    assert(a.told(h, msg).1.out =~= h.out + h.followers(a.sid).map_values(
        |c: u64| Act::Send(c, shown),
    ));
    if let Some(params) = msg.get("params"@) {
        if !(params is Object) || params.get("sessionId"@) is Some {
            assert(with_session(params, a.sid) == params);
            let fields = msg->Object_0;
            assert(fields.insert("params"@, params) =~= fields);
        }
    }
}

/// What an agent asks of the hub, other than for permission, is answered with
/// nothing, under the agent's id. Nothing changes.
pub proof fn agents_other_requests_are_answered(
    a: ActorState,
    h: HubState,
    msg: Tree,
    method: Seq<char>,
    id: Tree,
)
    requires
        msg.get("method"@) == Some(Tree::Str(method)),
        method.len() > 0,
        method != "session/request_permission"@,
        method != "session/requestPermission"@,
        msg.get("id"@) == Some(id),
    ensures
        a.told(h, msg) == (a, h, Move::Write(result_message(id, Tree::Object(map![])))),
{
}

/// The answer that a question for permission gets when nobody can give one, and the
/// notice that one is settled.
pub proof fn unanswered_question_is_cancelled(details: Tree)
    ensures
        cancelled() == Tree::Object(
            map![
                "outcome"@ => Tree::Object(map!["outcome"@ => Tree::Str("cancelled"@)]),
            ],
        ),
        settled_notice(details) == notice_message("gtm/permission.resolved"@, details),
{
}

/// A question for permission about a session that nobody follows is cancelled at
/// once. One about something that cannot be undone, which nobody local follows, is
/// cancelled too, and those who follow are told why. Neither changes anything else.
pub proof fn question_for_nobody_is_cancelled(
    a: ActorState,
    h: HubState,
    msg: Tree,
    id: Tree,
)
    requires
        msg.get("method"@) == Some(Tree::Str("session/request_permission"@)) || msg.get(
            "method"@,
        ) == Some(Tree::Str("session/requestPermission"@)),
        msg.get("id"@) == Some(id),
    ensures
        ({
            let params = match msg.get("params"@) {
                Some(p) => p,
                None => Tree::Object(map![]),
            };
            let cancelled_answer = Move::Write(
                result_message(
                    id,
                    Tree::Object(
                        map![
                            "outcome"@ => Tree::Object(map!["outcome"@ => Tree::Str("cancelled"@)]),
                        ],
                    ),
                ),
            );
            &&& h.followers(a.sid).len() == 0 && !dangerous(params) ==> a.told(h, msg) == (
                a,
                h,
                cancelled_answer,
            )
            &&& (dangerous(params) && forall|i: int|
                0 <= i < h.followers(a.sid).len() ==> h.on_lan(#[trigger] h.followers(a.sid)[i]))
                ==> a.told(h, msg) == (
                a,
                HubState {
                    out: h.out + h.followers(a.sid).map_values(
                        |c: u64|
                            Act::Send(
                                c,
                                notice_message(
                                    "gtm/permission.resolved"@,
                                    Tree::Object(
                                        map![
                                            "sessionId"@ => Tree::Str(a.sid),
                                            "reason"@ => Tree::Str("no_local_client"@),
                                        ],
                                    ),
                                ),
                            ),
                    ),
                    ..h
                },
                cancelled_answer,
            )
        }),
{
    reveal_strlit("session/request_permission");
    reveal_strlit("session/requestPermission");
    assert("session/request_permission"@.len() > 0);
    assert("session/requestPermission"@.len() > 0);
    let params = match msg.get("params"@) {
        Some(p) => p,
        None => Tree::Object(map![]),
    };
    assert(a.told(h, msg) == a.questioned(h, id, params));
    if dangerous(params) && forall|i: int|
        0 <= i < h.followers(a.sid).len() ==> h.on_lan(#[trigger] h.followers(a.sid)[i]) {
        assert(!ActorState::has_local(h, h.followers(a.sid)));
        assert(a.told(h, msg).1.out =~= h.out + h.followers(a.sid).map_values(
            |c: u64|
                Act::Send(
                    c,
                    notice_message(
                        "gtm/permission.resolved"@,
                        Tree::Object(
                            map![
                                "sessionId"@ => Tree::Str(a.sid),
                                "reason"@ => Tree::Str("no_local_client"@),
                            ],
                        ),
                    ),
                ),
        ));
    }
}

/// A question for permission that is put to those who follow the session is open
/// from then on, under the agent's id, for that session, and marked if it is about
/// something that cannot be undone. The agent waits.
pub proof fn question_that_is_put_is_open(a: ActorState, h: HubState, msg: Tree, id: Tree)
    requires
        msg.get("method"@) == Some(Tree::Str("session/request_permission"@)) || msg.get(
            "method"@,
        ) == Some(Tree::Str("session/requestPermission"@)),
        msg.get("id"@) == Some(id),
        h.followers(a.sid).len() > 0,
        dangerous(
            match msg.get("params"@) {
                Some(p) => p,
                None => Tree::Object(map![]),
            },
        ) ==> exists|i: int|
            0 <= i < h.followers(a.sid).len() && !h.on_lan(#[trigger] h.followers(a.sid)[i]),
    ensures
        ({
            let (b, g, m) = a.told(h, msg);
            &&& m == Move::Idle
            &&& b.perm matches Some(q) && q.agent_id == id && q.sid == a.sid && !q.resolved
                && q.dangerous == dangerous(
                match msg.get("params"@) {
                    Some(p) => p,
                    None => Tree::Object(map![]),
                },
            )
            &&& b == (ActorState { perm: b.perm, ..a })
            &&& (g, b.perm->0.asked) == crate::actor::asked_each(
                h,
                a.sid,
                match msg.get("params"@) {
                    Some(p) => p,
                    None => Tree::Object(map![]),
                },
                h.followers(a.sid),
            )
        }),
{
    reveal_strlit("session/request_permission");
    reveal_strlit("session/requestPermission");
    assert("session/request_permission"@.len() > 0);
    assert("session/requestPermission"@.len() > 0);
    let params = match msg.get("params"@) {
        Some(p) => p,
        None => Tree::Object(map![]),
    };
    assert(a.told(h, msg) == a.questioned(h, id, params));
    assert(dangerous(params) ==> ActorState::has_local(h, h.followers(a.sid)));
}

/// A question for permission is about something that cannot be undone exactly if
/// the tool's title or kind names deleting, forcing, pushing, wiping, dropping or
/// removing something, in whatever case.
pub proof fn danger_is_named(params: Tree)
    ensures
        ({
            let text = |key: Seq<char>|
                match params.get("toolCall"@) {
                    Some(t) => match t.get(key) {
                        Some(Tree::Str(s)) => s,
                        _ => Seq::<char>::empty(),
                    },
                    None => Seq::<char>::empty(),
                };
            let lower = lowercase(text("title"@) + " "@ + text("kind"@));
            dangerous(params) <==> {
                ||| occurs(lower, "delete"@)
                ||| occurs(lower, "force"@)
                ||| occurs(lower, "push"@)
                ||| occurs(lower, "wipe"@)
                ||| occurs(lower, "drop "@)
                ||| occurs(lower, "remove"@)
                ||| occurs(lower, "rm -rf"@)
            }
        }),
{
}

/// The messages to those of some clients who are connected that their requests have
/// failed.
pub open spec fn failures(h: HubState, owed: Seq<(i64, Owed)>, text: Seq<char>) -> Seq<Act> {
    owed.filter(|e: (i64, Owed)| h.member(e.1.client) is Some).map_values(
        |e: (i64, Owed)| Act::Send(e.1.client, error_message(e.1.id, -32011, text)),
    )
}

proof fn lemma_told_closed(h: HubState, owed: Seq<(i64, Owed)>, text: Seq<char>)
    ensures
        told_closed(h, owed, text) == (HubState { out: h.out + failures(h, owed, text), ..h }),
    decreases owed.len(),
{
    reveal(Seq::filter);
    let told = |e: (i64, Owed)| h.member(e.1.client) is Some;
    if owed.len() > 0 {
        let front = owed.drop_last();
        let p = owed.last().1;
        let word = Act::Send(p.client, error_message(p.id, -32011, text));
        lemma_told_closed(h, front, text);
        if told(owed.last()) {
            assert(failures(h, owed, text) =~= failures(h, front, text).push(word));
            assert(h.out + failures(h, owed, text) =~= (h.out + failures(h, front, text)).push(
                word,
            ));
        } else {
            assert(failures(h, owed, text) =~= failures(h, front, text));
        }
    } else {
        assert(h.out + failures(h, owed, text) =~= h.out);
    }
}

/// When an agent is gone, everyone whom it owes an answer is told that their request
/// failed, under the id that they asked under; then its session is known no more,
/// and everyone is told. Nothing else is sent or changes.
pub proof fn gone_agent_fails_what_it_owes(
    a: ActorState,
    h: HubState,
    other: Seq<char>,
)
    ensures
        ({
            let g = a.closed(h);
            &&& g.place(a.sid) is None
            &&& other != a.sid ==> g.place(other) == h.place(other)
            &&& g == (HubState {
                sessions: g.sessions,
                out: h.out + failures(h, a.pending, "agent process closed"@) + news(
                    h,
                    map![
                        "id"@ => Tree::Str(a.sid),
                        "live"@ => Tree::Bool(false),
                        "reason"@ => Tree::Str("actor_exit"@),
                    ],
                ),
                ..h
            })
        }),
{
    lemma_told_closed(h, a.pending, "agent process closed"@);
    let told = told_closed(h, a.pending, "agent process closed"@);
    crate::hosting_laws::session_without_agent_is_gone(told, a.sid, other);
}

/// An agent is greeted by the hub's name and version, under number one, and told
/// that the hub reads and writes no files for it.
pub proof fn agent_is_greeted()
    ensures
        agent_greeting() == request_message(
            Tree::Int(1),
            "initialize"@,
            Tree::Object(
                map![
                    "protocolVersion"@ => Tree::Int(1),
                    "clientCapabilities"@ => Tree::Object(
                        map![
                            "fs"@ => Tree::Object(
                                map![
                                    "readTextFile"@ => Tree::Bool(false),
                                    "writeTextFile"@ => Tree::Bool(false),
                                ],
                            ),
                        ],
                    ),
                    "clientInfo"@ => Tree::Object(
                        map![
                            "name"@ => Tree::Str("gtm-hub"@),
                            "title"@ => Tree::Str("Grok to Mars hub"@),
                            "version"@ => Tree::Str("0.1.0"@),
                        ],
                    ),
                ],
            ),
        ),
{
}

/// An agent that answers the greeting is asked, under number two, to begin the
/// session the way that the client asked for, with the parameters that the client
/// gave; the client follows the session from then on if it named one. Where the
/// agent answers with an error the start fails with its text. Before that, whatever
/// else the agent says is passed over.
pub proof fn greeted_agent_begins_the_session(b: BootState, h: HubState, msg: Tree)
    requires
        !b.greeted,
    ensures
        ({
            let (c, g, m) = b.heard(h, msg);
            let method = match b.start {
                Start::New => "session/new"@,
                Start::Load => "session/load"@,
                Start::Resume => "session/resume"@,
            };
            match msg.get("id"@) {
                Some(t) => if same(t, Tree::Int(1)) {
                    match msg.get("error"@) {
                        Some(e) => {
                            &&& c == b && g == h
                            &&& m == BootMove::Failed(
                                match e.get("message"@) {
                                    Some(Tree::Str(s)) => s,
                                    _ => "agent error"@,
                                },
                            )
                        },
                        None => {
                            &&& c == (BootState { greeted: true, ..b })
                            &&& g == match b.sid {
                                Some(sid) => h.following(b.client, sid),
                                None => h,
                            }
                            &&& m == BootMove::Write(
                                request_message(Tree::Int(2), method, b.params),
                            )
                        },
                    }
                } else {
                    c == b && g == h && m == BootMove::Wait
                },
                None => c == b && g == h && m == BootMove::Wait,
            }
        }),
{
}

/// An agent that has begun the session, and says so under number two, makes it
/// ready: under the name that the client gave, or else that the agent has used or
/// gives, and with what the agent says of it. Where the agent answers with an error,
/// or gives no name and there is none, the start fails with the text for it. The hub
/// does not change.
pub proof fn agent_that_began_the_session_is_ready(
    b: BootState,
    h: HubState,
    msg: Tree,
    t: Tree,
)
    requires
        b.greeted,
        msg.get("id"@) == Some(t),
        same(t, Tree::Int(2)),
    ensures
        ({
            let (c, g, m) = b.heard(h, msg);
            let result = match msg.get("result"@) {
                Some(r) => r,
                None => Tree::Object(map![]),
            };
            &&& c == b && g == h
            &&& match msg.get("error"@) {
                Some(e) => m == BootMove::Failed(
                    match e.get("message"@) {
                        Some(Tree::Str(s)) => s,
                        _ => "session boot failed"@,
                    },
                ),
                None => match (b.sid, result.get("sessionId"@)) {
                    (Some(sid), _) => m == BootMove::Ready { sid, result },
                    (None, Some(Tree::Str(sid))) => m == BootMove::Ready { sid, result },
                    _ => m == BootMove::Failed(
                        match b.start {
                            Start::New => "agent "@ + "session/new"@ + " missing sessionId"@,
                            Start::Load => "agent "@ + "session/load"@ + " missing sessionId"@,
                            Start::Resume => "agent "@ + "session/resume"@ + " missing sessionId"@,
                        },
                    ),
                },
            }
        }),
{
}

/// What an agent says of the session before that is ready is kept, all of it and in
/// order, and the session's name is taken from it where none is known. Whatever else
/// it says is passed over.
pub proof fn early_words_are_kept(b: BootState, h: HubState, msg: Tree)
    requires
        b.greeted,
        match msg.get("id"@) {
            Some(t) => !same(t, Tree::Int(2)),
            None => true,
        },
    ensures
        ({
            let (c, g, m) = b.heard(h, msg);
            &&& g == h && m == BootMove::Wait
            &&& msg.get("method"@) == Some(Tree::Str("session/update"@)) ==> {
                &&& c.buffered == b.buffered.push(msg)
                &&& b.sid is Some ==> c.sid == b.sid
                &&& b.sid is None ==> c.sid == match msg.get("params"@) {
                    Some(p) => match p.get("sessionId"@) {
                        Some(Tree::Str(s)) => Some(s),
                        _ => None,
                    },
                    None => None,
                }
                &&& c == (BootState { buffered: c.buffered, sid: c.sid, ..b })
            }
            &&& msg.get("method"@) != Some(Tree::Str("session/update"@)) ==> c == b
        }),
{
}

/// An agent that was only just started has been asked nothing and has said nothing;
/// its session has the name that the client gave.
pub proof fn start_is_as_the_client_asked(start: Start, client: u64, id: Tree, params: Tree)
    ensures
        ({
            let b = BootState::begin(start, client, id, params);
            &&& b.start == start && b.client == client && b.id == id && b.params == params
            &&& !b.greeted
            &&& b.buffered == Seq::<Tree>::empty()
            &&& b.sid == match params.get("sessionId"@) {
                Some(Tree::Str(s)) => Some(s),
                _ => None,
            }
        }),
{
}

/// A session that is there lives in the hub in the directory that the client asked
/// for, under the title that the agent gives or else that the disk has. Whoever asked
/// for a new one is answered with those who wait. Then all that the agent said
/// before is shown to those who follow, in order.
pub proof fn session_that_is_there_is_opened(
    b: BootState,
    h: HubState,
    sid: Seq<char>,
    result: Tree,
    actor: u64,
    disk: Option<Stored>,
)
    ensures
        ({
            let g = b.opened(h, sid, result, actor, disk);
            let ready = h.completed(
                sid,
                match b.params.get("cwd"@) {
                    Some(Tree::Str(s)) => Some(s),
                    _ => None,
                },
                match (said_in(result, "title"@), disk_title(disk)) {
                    (Some(s), _) => s,
                    (None, Some(s)) => s,
                    (None, None) => Seq::empty(),
                },
                result,
                actor,
                match b.start {
                    Start::New => Some(Waiter { client: b.client, id: b.id }),
                    _ => None,
                },
            );
            &&& g == (HubState { out: g.out, ..ready })
            &&& g.out == ready.out + b.buffered.map_values(
                |msg: Tree| ready.followers(sid).map_values(|c: u64| Act::Send(c, msg)),
            ).flatten()
        }),
{
    let ready = h.completed(
        sid,
        match b.params.get("cwd"@) {
            Some(Tree::Str(s)) => Some(s),
            _ => None,
        },
        match (said_in(result, "title"@), disk_title(disk)) {
            (Some(s), _) => s,
            (None, Some(s)) => s,
            (None, None) => Seq::empty(),
        },
        result,
        actor,
        match b.start {
            Start::New => Some(Waiter { client: b.client, id: b.id }),
            _ => None,
        },
    );
    lemma_replayed(ready, sid, b.buffered);
}

proof fn lemma_replayed(h: HubState, sid: Seq<char>, msgs: Seq<Tree>)
    ensures
        BootState::replayed(h, sid, msgs) == (HubState {
            out: h.out + msgs.map_values(
                |msg: Tree| h.followers(sid).map_values(|c: u64| Act::Send(c, msg)),
            ).flatten(),
            ..h
        }),
    decreases msgs.len(),
{
    let f = |msg: Tree| h.followers(sid).map_values(|c: u64| Act::Send(c, msg));
    if msgs.len() > 0 {
        let front = msgs.drop_last();
        lemma_replayed(h, sid, front);
        let before = BootState::replayed(h, sid, front);
        assert(msgs.map_values(f).drop_last() =~= front.map_values(f));
        assert(msgs.map_values(f).last() == f(msgs.last()));
        msgs.map_values(f).lemma_flatten_and_flatten_alt_are_equivalent();
        front.map_values(f).lemma_flatten_and_flatten_alt_are_equivalent();
        assert(before.followers(sid) == h.followers(sid));
        assert(BootState::replayed(h, sid, msgs).out =~= h.out + msgs.map_values(f).flatten());
    } else {
        assert(msgs.map_values(f) =~= Seq::empty());
        assert(msgs.map_values(f).flatten() =~= Seq::<Act>::empty());
        assert(h.out + Seq::<Act>::empty() =~= h.out);
    }
}

/// A start that failed is reported to the hub for the session that the client named,
/// if it named one, with the text of the failure.
pub proof fn start_that_failed_is_reported(b: BootState, h: HubState, text: Seq<char>)
    ensures
        b.failed(h, text) == h.failed(
            match b.params.get("sessionId"@) {
                Some(Tree::Str(s)) => Some(s),
                _ => None,
            },
            Waiter { client: b.client, id: b.id },
            Fault { code: -32011, text },
        ),
{
}

/// A line of an agent is read as the message that it holds, whatever white space is
/// round it; one that holds none is passed over. The end of the output, and a line of
/// more than 16 MiB, end it. A message to an agent is a line of its own.
pub proof fn agents_lines_are_messages(bytes: Seq<u8>, msg: Tree)
    ensures
        bytes.len() == 0 ==> heard(bytes) == Heard::End("agent closed stdout"@),
        bytes.len() > 16777216 ==> heard(bytes) == Heard::End("agent line too large"@),
        0 < bytes.len() <= 16777216 ==> heard(bytes) == match parsed(trimmed(lossy(bytes))) {
            Some(t) => if trimmed(lossy(bytes)).len() == 0 {
                Heard::Skip
            } else {
                Heard::Message(t)
            },
            None => Heard::Skip,
        },
        agent_line(msg) == printed(msg) + "\n"@,
{
}

} // verus!
