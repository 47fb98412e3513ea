//! What holds of an actor whatever happens: how prompts take turns, who may
//! settle a question for permission, and who gets an agent's answer.

use crate::actor::{
    agent_method, asked_each, cancelled, dangerous, settled_notice, told_closed, told_late, with_id,
    ALREADY_RESOLVED, ActorState, BootState, Move, Owed, Passage, Passing, Question, Queued,
    SPAWN_FAILED,
};
use crate::agent_laws::lemma_names;
use crate::delivery_laws::lemma_still_said;
use crate::json::{obj, Tree};
use crate::laws::{
    everyone_who_waited_is_answered, following_keeps_seats, lemma_followers, orderly, same_seats,
    session_news_changes_no_seat,
};
use crate::model::{string, Act, Cmd, HubState, Place, Start, Waiter};
use crate::numeral::{decimal, decimal_reads_back};
use crate::rpc::{error_message, message, request_message, result_message};
use crate::sessions::Stored;
use crate::table::{lemma_lookup_put, lemma_lookup_without, lookup, put};
use crate::text::or_empty;
use vstd::prelude::*;

verus! {

/// A question for permission that is settled stays so: no later answer reaches
/// the agent, or changes anything.
pub proof fn first_answer_wins(
    a: ActorState,
    h: HubState,
    id: Tree,
    result: Option<Tree>,
    error: Option<Tree>,
)
    requires
        a.perm matches Some(q) && q.resolved,
    ensures
        a.answered(h, id, result, error) == (a, h, Move::Idle),
{
}

/// Routing questions nowhere leaves none of them routed.
proof fn lemma_unrouted(h: HubState, hids: Seq<Seq<char>>, hid: Seq<char>)
    ensures
        lookup(h.unrouted(hids).routes, hid) == if hids.contains(hid) {
            None
        } else {
            lookup(h.routes, hid)
        },
        h.unrouted(hids) == (HubState { routes: h.unrouted(hids).routes, ..h }),
    decreases hids.len(),
{
    if hids.len() > 0 {
        let front = hids.drop_last();
        let before = h.unrouted(front);
        lemma_unrouted(h, front, hid);
        lemma_lookup_without(before.routes, hids.last(), hid);
        if front.contains(hid) {
            let k = choose|k: int| 0 <= k < front.len() && front[k] == hid;
            assert(hids[k] == hid);
        }
        if hids.contains(hid) && hid != hids.last() {
            let k = choose|k: int| 0 <= k < hids.len() && hids[k] == hid;
            assert(front[k] == hid);
        }
        if hid == hids.last() {
            assert(hids[hids.len() - 1] == hid);
        }
    }
}

/// The messages to those whose answers come too late: to all who were asked but
/// one, each under the id that they were asked under.
pub open spec fn late_words(
    h: HubState,
    asked: Seq<(Seq<char>, u64)>,
    winner: Seq<char>,
) -> Seq<Act> {
    asked.filter(|e: (Seq<char>, u64)| e.0 != winner && h.member(e.1) is Some).map_values(
        |e: (Seq<char>, u64)|
            Act::Send(
                e.1,
                error_message(string(e.0), ALREADY_RESOLVED as int, "already_resolved"@),
            ),
    )
}

/// Telling those whose answers come too late does nothing else.
proof fn lemma_late_words(h: HubState, asked: Seq<(Seq<char>, u64)>, winner: Seq<char>)
    ensures
        told_late(h, asked, winner) == (HubState {
            out: h.out + late_words(h, asked, winner),
            ..h
        }),
    decreases asked.len(),
{
    let told = |e: (Seq<char>, u64)| e.0 != winner && h.member(e.1) is Some;
    reveal(Seq::filter);
    if asked.len() > 0 {
        let front = asked.drop_last();
        let (hid, client) = asked.last();
        let word = Act::Send(
            client,
            error_message(string(hid), ALREADY_RESOLVED as int, "already_resolved"@),
        );
        lemma_late_words(h, front, winner);
        if told(asked.last()) {
            assert(late_words(h, asked, winner) =~= late_words(h, front, winner).push(word));
            assert(h.out + late_words(h, asked, winner) =~= (h.out + late_words(
                h,
                front,
                winner,
            )).push(word));
        } else {
            assert(late_words(h, asked, winner) =~= late_words(h, front, winner));
        }
    } else {
        assert(h.out + late_words(h, asked, winner) =~= h.out);
    }
}

/// What the agent is sent when a client's answer settles its question, under
/// the agent's own id: what the client answers, or else what went wrong with
/// the client, or else that the question is cancelled.
pub open spec fn word_to_agent(
    agent_id: Tree,
    result: Option<Tree>,
    error: Option<Tree>,
) -> Tree {
    match (result, error) {
        (Some(r), _) => result_message(agent_id, r),
        (None, Some(e)) => message().with("id"@, agent_id).with("error"@, e),
        (None, None) => result_message(agent_id, cancelled()),
    }
}

/// The messages to everyone who follows a session that a question about it is
/// settled.
pub open spec fn settled_words(h: HubState, sid: Seq<char>) -> Seq<Act> {
    h.followers(sid).map_values(
        |c: u64| Act::Send(c, settled_notice(obj().with("sessionId"@, string(sid)))),
    )
}

/// An answer that may count settles an open question: the agent gets it, under
/// the agent's own id; everyone else who was asked is told that theirs comes too
/// late; everyone who follows the session is told that the question is settled;
/// and no further answer finds its way to the agent. Nothing else is said, and
/// nothing else changes.
pub proof fn answer_settles_an_open_question(
    a: ActorState,
    h: HubState,
    q: Question,
    id: Tree,
    result: Option<Tree>,
    error: Option<Tree>,
    client: u64,
    i: int,
    follower: int,
    other: Seq<char>,
)
    requires
        a.perm == Some(q),
        !q.resolved,
        lookup(q.asked, or_empty(id.as_text())) == Some(client),
        !(q.dangerous && h.on_lan(client)),
        0 <= i < q.asked.len(),
    ensures
        ({
            let (b, g, m) = a.answered(h, id, result, error);
            &&& m == Move::Write(word_to_agent(q.agent_id, result, error))
            &&& b == (ActorState { perm: Some(Question { resolved: true, ..q }), ..a })
            &&& q.asked[i].0 != or_empty(id.as_text()) && h.member(q.asked[i].1) is Some
                ==> g.out.contains(
                Act::Send(
                    q.asked[i].1,
                    error_message(
                        string(q.asked[i].0),
                        ALREADY_RESOLVED as int,
                        "already_resolved"@,
                    ),
                ),
            )
            &&& 0 <= follower < h.followers(q.sid).len() ==> g.out.contains(
                Act::Send(
                    h.followers(q.sid)[follower],
                    settled_notice(obj().with("sessionId"@, string(q.sid))),
                ),
            )
            &&& g == (HubState {
                out: h.out + late_words(h, q.asked, or_empty(id.as_text())) + settled_words(
                    h,
                    q.sid,
                ),
                routes: g.routes,
                ..h
            })
            &&& lookup(g.routes, q.asked[i].0) is None
            &&& (forall|k: int| 0 <= k < q.asked.len() ==> (#[trigger] q.asked[k]).0 != other)
                ==> lookup(g.routes, other) == lookup(h.routes, other)
        }),
{
    let winner = or_empty(id.as_text());
    let late = told_late(h, q.asked, winner);
    let notice = settled_notice(obj().with("sessionId"@, string(q.sid)));
    let told = late.told_followers(q.sid, notice);
    let hids = q.asked.map_values(|e: (Seq<char>, u64)| e.0);
    lemma_late_words(h, q.asked, winner);
    lemma_unrouted(told, hids, q.asked[i].0);
    lemma_unrouted(told, hids, other);
    assert(hids[i] == q.asked[i].0);
    assert(told.out =~= h.out + late_words(h, q.asked, winner) + settled_words(h, q.sid));
    assert(late.out =~= told.out.subrange(0, late.out.len() as int));
    if q.asked[i].0 != winner && h.member(q.asked[i].1) is Some {
        losers_are_told(h, q.asked, winner, i);
        lemma_still_said(
            late,
            told,
            Act::Send(
                q.asked[i].1,
                error_message(string(q.asked[i].0), ALREADY_RESOLVED as int, "already_resolved"@),
            ),
        );
    }
    if 0 <= follower < h.followers(q.sid).len() {
        assert(told.out[late.out.len() + follower] == Act::Send(
            h.followers(q.sid)[follower],
            notice,
        ));
    }
    if hids.contains(other) {
        let k = choose|k: int| 0 <= k < hids.len() && hids[k] == other;
        assert(q.asked[k].0 == other);
    }
}

/// The refusal of an answer from the network that may not count.
pub open spec fn needs_someone_local(id: Tree) -> Tree {
    error_message(
        id,
        ALREADY_RESOLVED as int,
        "dangerous tools need a local Mac/TUI confirmation"@,
    )
}

/// Something that cannot be undone is never settled from the network: whoever
/// answers from there is told that it needs someone local, nobody else is told
/// anything, and the question stays open.
pub proof fn danger_is_not_settled_from_the_network(
    a: ActorState,
    h: HubState,
    q: Question,
    id: Tree,
    result: Option<Tree>,
    error: Option<Tree>,
    client: u64,
)
    requires
        a.perm == Some(q),
        q.dangerous,
        lookup(q.asked, or_empty(id.as_text())) == Some(client),
        h.on_lan(client),
    ensures
        a.answered(h, id, result, error) == (
            a,
            if q.resolved {
                h
            } else {
                h.acting(Act::Send(client, needs_someone_local(id)))
            },
            Move::Idle,
        ),
{
}

/// A client's answer to a question for permission, and the hub as it is when
/// the answer comes.
pub struct Reply {
    pub hub: HubState,
    pub id: Tree,
    pub result: Option<Tree>,
    pub error: Option<Tree>,
}

impl Reply {
    /// What the answer does.
    pub open spec fn given_to(self, a: ActorState) -> (ActorState, HubState, Move) {
        a.ordered(
            self.hub,
            Cmd::Reply { id: self.id, result: self.result, error: self.error },
        )
    }

    /// Whether the answer may count: it comes from someone who was asked, and
    /// not from the network if something cannot be undone.
    pub open spec fn counts(self, q: Question) -> bool {
        lookup(q.asked, or_empty(self.id.as_text())) matches Some(client) && !(q.dangerous
            && self.hub.on_lan(client))
    }
}

/// An actor after some answers.
pub open spec fn after_replies(a: ActorState, replies: Seq<Reply>) -> ActorState
    decreases replies.len(),
{
    if replies.len() == 0 {
        a
    } else {
        replies.last().given_to(after_replies(a, replies.drop_last())).0
    }
}

/// Whether one of some answers may count.
pub open spec fn one_counts(q: Question, replies: Seq<Reply>) -> bool {
    exists|j: int| 0 <= j < replies.len() && (#[trigger] replies[j]).counts(q)
}

/// A question is settled once one of the answers may count, and until then
/// stays as it is.
proof fn lemma_after_replies(a: ActorState, q: Question, replies: Seq<Reply>)
    requires
        a.perm == Some(q),
        !q.resolved,
    ensures
        after_replies(a, replies) == if one_counts(q, replies) {
            ActorState { perm: Some(Question { resolved: true, ..q }), ..a }
        } else {
            a
        },
    decreases replies.len(),
{
    if replies.len() > 0 {
        let front = replies.drop_last();
        lemma_after_replies(a, q, front);
        if one_counts(q, front) {
            let j = choose|j: int| 0 <= j < front.len() && (#[trigger] front[j]).counts(q);
            assert(replies[j].counts(q));
        } else if one_counts(q, replies) {
            let j = choose|j: int| 0 <= j < replies.len() && (#[trigger] replies[j]).counts(q);
            assert(j < front.len() ==> front[j].counts(q));
            assert(replies.last().counts(q));
        } else {
            assert(!replies[replies.len() - 1].counts(q));
        }
    }
}

/// The first answer that may count wins, whatever answers come in whatever
/// order, and however the hub changes between them. Before it, the question is
/// open, the agent hears nothing, and of those who were asked only who answers
/// from the network where something cannot be undone is told so. With it, the
/// agent gets its one answer, under its own id; everyone else who was asked is
/// told that theirs comes too late, and everyone who follows the session that
/// the question is settled. After it, an answer does nothing.
pub proof fn first_answer_that_counts_wins(
    a: ActorState,
    q: Question,
    replies: Seq<Reply>,
    next: Reply,
)
    requires
        a.perm == Some(q),
        !q.resolved,
    ensures
        ({
            let before = after_replies(a, replies);
            let (b, g, m) = next.given_to(before);
            let key = or_empty(next.id.as_text());
            if one_counts(q, replies) {
                &&& before == (ActorState { perm: Some(Question { resolved: true, ..q }), ..a })
                &&& (b, g, m) == (before, next.hub, Move::Idle)
            } else if next.counts(q) {
                &&& before == a
                &&& b == (ActorState { perm: Some(Question { resolved: true, ..q }), ..a })
                &&& m == Move::Write(word_to_agent(q.agent_id, next.result, next.error))
                &&& g == (HubState {
                    out: next.hub.out + late_words(next.hub, q.asked, key) + settled_words(
                        next.hub,
                        q.sid,
                    ),
                    routes: g.routes,
                    ..next.hub
                })
                &&& forall|i: int|
                    0 <= i < q.asked.len() ==> lookup(g.routes, (#[trigger] q.asked[i]).0) is None
            } else {
                &&& before == a
                &&& b == a
                &&& m == Move::Idle
                &&& g == match lookup(q.asked, key) {
                    Some(client) => next.hub.acting(
                        Act::Send(client, needs_someone_local(next.id)),
                    ),
                    None => next.hub,
                }
            }
        }),
{
    lemma_after_replies(a, q, replies);
    if !one_counts(q, replies) && next.counts(q) {
        let client = lookup(q.asked, or_empty(next.id.as_text()))->0;
        assert forall|i: int| 0 <= i < q.asked.len() implies lookup(
            next.given_to(a).1.routes,
            (#[trigger] q.asked[i]).0,
        ) is None by {
            answer_settles_an_open_question(
                a,
                next.hub,
                q,
                next.id,
                next.result,
                next.error,
                client,
                i,
                0,
                Seq::empty(),
            );
        }
        answer_settles_an_open_question(
            a,
            next.hub,
            q,
            next.id,
            next.result,
            next.error,
            client,
            0,
            0,
            Seq::empty(),
        );
    }
}

/// Something that cannot be undone is not even asked where nobody local
/// follows the session: the agent is told at once that it may not.
pub proof fn danger_needs_someone_local(a: ActorState, h: HubState, agent_id: Tree, params: Tree)
    requires
        dangerous(params),
        forall|i: int|
            0 <= i < h.followers(a.sid).len() ==> h.on_lan(#[trigger] h.followers(a.sid)[i]),
    ensures
        a.questioned(h, agent_id, params).0 == a,
        a.questioned(h, agent_id, params).2 == Move::Write(result_message(agent_id, cancelled())),
        a.questioned(h, agent_id, params).1.routes == h.routes,
{
    assert(!ActorState::has_local(h, h.followers(a.sid)));
}

/// Putting a question changes no client.
proof fn lemma_asked_each_keeps(h: HubState, sid: Seq<char>, params: Tree, clients: Seq<u64>)
    ensures
        asked_each(h, sid, params, clients).0.clients == h.clients,
        asked_each(h, sid, params, clients).0.next_client == h.next_client,
        asked_each(h, sid, params, clients).0.sessions == h.sessions,
    decreases clients.len(),
{
    if clients.len() > 0 {
        lemma_asked_each_keeps(h, sid, params, clients.drop_last());
    }
}

/// The id of a question for permission.
pub open spec fn question_id(n: nat) -> Seq<char> {
    "hp-"@ + decimal(n)
}

/// Ids of questions differ.
proof fn lemma_question_ids(n: nat, m: nat)
    requires
        n != m,
    ensures
        question_id(n) != question_id(m),
{
    let most = if n < m {
        m
    } else {
        n
    };
    decimal_reads_back(n, most);
    decimal_reads_back(m, most);
    if question_id(n) == question_id(m) {
        let k = "hp-"@.len() as int;
        assert(question_id(n).skip(k) =~= decimal(n));
        assert(question_id(m).skip(k) =~= decimal(m));
    }
}

/// Putting a question uses one id for each who is asked.
proof fn lemma_asked_each_counts(h: HubState, sid: Seq<char>, params: Tree, clients: Seq<u64>)
    requires
        h.next_perm + clients.len() <= u64::MAX,
    ensures
        asked_each(h, sid, params, clients).0.next_perm == h.next_perm + clients.len(),
    decreases clients.len(),
{
    if clients.len() > 0 {
        lemma_asked_each_counts(h, sid, params, clients.drop_last());
    }
}

/// A question for permission is put to every client that it is meant for, each
/// under an id of its own, by which the client's answer finds its way back.
pub proof fn everyone_is_asked(
    h: HubState,
    sid: Seq<char>,
    params: Tree,
    clients: Seq<u64>,
    i: int,
)
    requires
        0 <= i < clients.len(),
        h.member(clients[i]) is Some,
        h.next_perm + clients.len() <= u64::MAX,
    ensures
        ({
            let (s, asked) = asked_each(h, sid, params, clients);
            let hid = question_id((h.next_perm + i) as nat);
            &&& s.out.contains(
                Act::Send(
                    clients[i],
                    request_message(string(hid), "session/request_permission"@, params),
                ),
            )
            &&& lookup(s.routes, hid) == Some(sid)
            &&& lookup(asked, hid) == Some(clients[i])
        }),
    decreases clients.len(),
{
    let front = clients.drop_last();
    let (before, asked) = asked_each(h, sid, params, front);
    lemma_asked_each_keeps(h, sid, params, front);
    lemma_asked_each_counts(h, sid, params, front);
    let t = asked_each(h, sid, params, clients).0;
    let hid = question_id((h.next_perm + i) as nat);
    let next = before.perm_id();
    let m = Act::Send(
        clients[i],
        request_message(string(hid), "session/request_permission"@, params),
    );
    lemma_lookup_put(before.routes, next, sid, hid);
    lemma_lookup_put(asked, next, clients.last(), hid);
    if i < front.len() {
        everyone_is_asked(h, sid, params, front, i);
        lemma_question_ids((h.next_perm + i) as nat, before.next_perm as nat);
        assert(before.out =~= t.out.subrange(0, before.out.len() as int));
        lemma_still_said(before, t, m);
    } else {
        assert(t.out[before.out.len() as int] == m);
    }
}

/// An agent's question for permission reaches everyone who follows the session,
/// unless it is about something that cannot be undone and nobody local follows:
/// each is asked under an id of their own, and the question is then open.
pub proof fn question_reaches_every_follower(
    a: ActorState,
    h: HubState,
    agent_id: Tree,
    params: Tree,
    client: u64,
)
    requires
        orderly(h),
        h.member(client) matches Some(m) && m.subs.contains(a.sid),
        dangerous(params) ==> ActorState::has_local(h, h.followers(a.sid)),
        h.next_perm + h.followers(a.sid).len() <= u64::MAX,
    ensures
        ({
            let (b, g, m) = a.questioned(h, agent_id, params);
            &&& m == Move::Idle
            &&& b.perm matches Some(q)
            &&& !q.resolved && q.agent_id == agent_id && q.dangerous == dangerous(params)
            &&& exists|hid: Seq<char>|
                {
                    &&& #[trigger] lookup(q.asked, hid) == Some(client)
                    &&& lookup(g.routes, hid) == Some(a.sid)
                    &&& g.out.contains(
                        Act::Send(
                            client,
                            request_message(
                                string(hid),
                                "session/request_permission"@,
                                params,
                            ),
                        ),
                    )
                }
        }),
{
    let clients = h.followers(a.sid);
    lemma_followers(h, a.sid, client);
    let i = choose|i: int| 0 <= i < clients.len() && clients[i] == client;
    everyone_is_asked(h, a.sid, params, clients, i);
    let hid = question_id((h.next_perm + i) as nat);
    assert(lookup(a.questioned(h, agent_id, params).0.perm->0.asked, hid) == Some(client));
}

/// Telling those who come too late changes no client.
proof fn lemma_told_late_keeps(h: HubState, asked: Seq<(Seq<char>, u64)>, winner: Seq<char>)
    ensures
        told_late(h, asked, winner).clients == h.clients,
        told_late(h, asked, winner).next_client == h.next_client,
        told_late(h, asked, winner).sessions == h.sessions,
    decreases asked.len(),
{
    if asked.len() > 0 {
        lemma_told_late_keeps(h, asked.drop_last(), winner);
    }
}

/// Everyone who was asked but did not settle the question is told so.
pub proof fn losers_are_told(
    h: HubState,
    asked: Seq<(Seq<char>, u64)>,
    winner: Seq<char>,
    i: int,
)
    requires
        0 <= i < asked.len(),
        asked[i].0 != winner,
        h.member(asked[i].1) is Some,
    ensures
        told_late(h, asked, winner).out.contains(
            Act::Send(
                asked[i].1,
                error_message(string(asked[i].0), ALREADY_RESOLVED as int, "already_resolved"@),
            ),
        ),
    decreases asked.len(),
{
    let front = asked.drop_last();
    let before = told_late(h, front, winner);
    lemma_told_late_keeps(h, front, winner);
    let t = told_late(h, asked, winner);
    let m = Act::Send(
        asked[i].1,
        error_message(string(asked[i].0), ALREADY_RESOLVED as int, "already_resolved"@),
    );
    if i < front.len() {
        losers_are_told(h, front, winner, i);
        let k = choose|k: int| 0 <= k < before.out.len() && before.out[k] == m;
        assert(t.out[k] == m);
    } else {
        assert(t.out[before.out.len() as int] == m);
    }
}

/// While a prompt is with the agent, another one waits behind those that wait
/// already, and nothing is sent.
pub proof fn prompts_take_turns(a: ActorState, client: u64, id: Tree, params: Tree)
    requires
        a.inflight,
    ensures
        a.asked(client, id, "session/prompt"@, params) == (
            ActorState { queue: a.queue.push(Queued { client, id, params }), ..a },
            Move::Idle,
        ),
{
}

/// Whether no prompt waits unless one is with the agent.
pub open spec fn in_turn(a: ActorState) -> bool {
    a.queue.len() > 0 ==> a.inflight
}

/// A prompt never waits while the agent has none: whatever happens keeps it so.
/// A request that goes to the agent counts from when it is known whether it
/// arrived.
pub proof fn waiting_prompts_wait_for_one(
    a: ActorState,
    h: HubState,
    cmd: Cmd,
    msg: Tree,
    failure: Option<Seq<char>>,
)
    requires
        in_turn(a),
    ensures
        ({
            let (b, g, m) = a.ordered(h, cmd);
            &&& in_turn(b)
            &&& m matches Move::Forward(_, f) ==> in_turn(b.passed(g, f, failure).0)
        }),
        ({
            let (b, g, m) = a.told(h, msg);
            &&& in_turn(b)
            &&& m matches Move::Forward(_, f) ==> in_turn(b.passed(g, f, failure).0)
        }),
{
}

/// When a prompt is answered, the one that waited longest goes to the agent, under
/// the next number and with the parameters that its client gave.
pub proof fn oldest_waiting_prompt_goes_next(
    a: ActorState,
    h: HubState,
    n: i64,
    msg: Tree,
    owed: Owed,
)
    requires
        lookup(a.pending, n) == Some(owed),
        owed.prompt,
        a.queue.len() > 0,
        a.next_id < i64::MAX,
    ensures
        ({
            let (b, g, m) = a.settled(h, n, msg);
            &&& b.queue == a.queue.drop_first()
            &&& b.inflight
            &&& m == Move::Forward(
                request_message(
                    Tree::Int(a.next_id as int),
                    "session/prompt"@,
                    a.queue[0].params,
                ),
                Passing {
                    agent_id: a.next_id,
                    client: a.queue[0].client,
                    id: a.queue[0].id,
                    kind: Passage::NextPrompt,
                },
            )
        }),
{
    lemma_names();
}

/// A request that reaches the agent is answered to the client that made it,
/// under the client's own id, whatever number the agent knew it by.
pub proof fn agent_answers_reach_the_asker(
    a: ActorState,
    h: HubState,
    client: u64,
    id: Tree,
    method: Seq<char>,
    params: Tree,
    msg: Tree,
)
    requires
        a.next_id < i64::MAX,
        method != "session/prompt"@,
        method != "session/cancel"@,
        h.member(client) is Some,
        or_empty(msg.get_str("method"@)).len() == 0,
        msg.get("id"@) == Some(Tree::Int(a.next_id as int)),
    ensures
        ({
            let (b, m) = a.asked(client, id, method, params);
            let (c, g) = b.passed(h, m->Forward_1, None);
            let (d, k, n) = c.told(g, msg);
            &&& m->Forward_0 == request_message(
                Tree::Int(a.next_id as int),
                agent_method(method),
                params,
            )
            &&& k == h.sent(client, with_id(msg, id))
            &&& lookup(d.pending, a.next_id) is None
        }),
{
    let (b, m) = a.asked(client, id, method, params);
    let owed = Owed { client, id, prompt: false };
    lemma_lookup_put(b.pending, a.next_id, owed, a.next_id);
    let (c, g) = b.passed(h, m->Forward_1, None);
    lemma_lookup_without(c.pending, a.next_id, a.next_id);
}

/// Telling of a closed agent changes no client.
proof fn lemma_told_closed_keeps(h: HubState, pending: Seq<(i64, Owed)>, text: Seq<char>)
    ensures
        told_closed(h, pending, text).clients == h.clients,
        told_closed(h, pending, text).next_client == h.next_client,
        told_closed(h, pending, text).sessions == h.sessions,
    decreases pending.len(),
{
    if pending.len() > 0 {
        lemma_told_closed_keeps(h, pending.drop_last(), text);
    }
}

/// Everyone to whom the agent owes an answer is told when it is gone, and its
/// session is known no more.
pub proof fn closed_agent_is_reported(a: ActorState, h: HubState, i: int)
    requires
        0 <= i < a.pending.len(),
        h.member(a.pending[i].1.client) is Some,
    ensures
        a.closed(h).out.contains(
            Act::Send(
                a.pending[i].1.client,
                error_message(
                    a.pending[i].1.id,
                    SPAWN_FAILED as int,
                    "agent process closed"@,
                ),
            ),
        ),
        a.closed(h).place(a.sid) is None,
{
    lemma_told_closed(h, a.pending, "agent process closed"@, i);
    let t = told_closed(h, a.pending, "agent process closed"@);
    let m = Act::Send(
        a.pending[i].1.client,
        error_message(a.pending[i].1.id, SPAWN_FAILED as int, "agent process closed"@),
    );
    let k = choose|k: int| 0 <= k < t.out.len() && t.out[k] == m;
    assert(a.closed(h).out[k] == m);
    lemma_lookup_without(t.sessions, a.sid, a.sid);
}

/// Everyone to whom the agent owes an answer is told.
proof fn lemma_told_closed(h: HubState, pending: Seq<(i64, Owed)>, text: Seq<char>, i: int)
    requires
        0 <= i < pending.len(),
        h.member(pending[i].1.client) is Some,
    ensures
        told_closed(h, pending, text).out.contains(
            Act::Send(
                pending[i].1.client,
                error_message(pending[i].1.id, SPAWN_FAILED as int, text),
            ),
        ),
    decreases pending.len(),
{
    let front = pending.drop_last();
    let before = told_closed(h, front, text);
    lemma_told_closed_keeps(h, front, text);
    let t = told_closed(h, pending, text);
    let m = Act::Send(
        pending[i].1.client,
        error_message(pending[i].1.id, SPAWN_FAILED as int, text),
    );
    if i < front.len() {
        lemma_told_closed(h, front, text, i);
        let k = choose|k: int| 0 <= k < before.out.len() && before.out[k] == m;
        assert(t.out[k] == m);
    } else {
        assert(t.out[before.out.len() as int] == m);
    }
}

/// Showing what an agent said changes nothing but what is sent.
proof fn lemma_replayed_keeps(h: HubState, sid: Seq<char>, msgs: Seq<Tree>)
    ensures
        BootState::replayed(h, sid, msgs).clients == h.clients,
        BootState::replayed(h, sid, msgs).next_client == h.next_client,
        BootState::replayed(h, sid, msgs).sessions == h.sessions,
        h.out.is_prefix_of(BootState::replayed(h, sid, msgs).out),
    decreases msgs.len(),
{
    if msgs.len() > 0 {
        lemma_replayed_keeps(h, sid, msgs.drop_last());
        let before = BootState::replayed(h, sid, msgs.drop_last());
        let after = BootState::replayed(h, sid, msgs);
        assert(before.out.is_prefix_of(after.out));
        assert(h.out =~= after.out.take(h.out.len() as int));
    } else {
        assert(h.out =~= h.out.take(h.out.len() as int));
    }
}

/// Routing questions nowhere changes no client.
proof fn lemma_unrouted_keeps(h: HubState, hids: Seq<Seq<char>>)
    ensures
        h.unrouted(hids).clients == h.clients,
        h.unrouted(hids).next_client == h.next_client,
    decreases hids.len(),
{
    if hids.len() > 0 {
        lemma_unrouted_keeps(h, hids.drop_last());
    }
}

/// Nothing that an actor does changes who is connected.
pub proof fn actors_change_no_seat(
    a: ActorState,
    h: HubState,
    cmd: Cmd,
    msg: Tree,
    f: Passing,
    failure: Option<Seq<char>>,
)
    ensures
        same_seats(a.ordered(h, cmd).1, h),
        same_seats(a.told(h, msg).1, h),
        same_seats(a.passed(h, f, failure).1, h),
        same_seats(a.closed(h), h),
{
    lemma_told_closed_keeps(h, a.pending, "agent process closed"@);
    if let Some(q) = a.perm {
        if let Cmd::Reply { id, result, error } = cmd {
            let key = or_empty(id.as_text());
            lemma_told_late_keeps(h, q.asked, key);
            let told = told_late(h, q.asked, key).told_followers(
                q.sid,
                crate::actor::settled_notice(obj().with("sessionId"@, string(q.sid))),
            );
            lemma_unrouted_keeps(told, q.asked.map_values(|e: (Seq<char>, u64)| e.0));
        }
    }
    let params = match msg.get("params"@) {
        Some(p) => p,
        None => obj(),
    };
    lemma_asked_each_keeps(h, a.sid, params, h.followers(a.sid));
}

/// Starting an agent changes nobody's seat either.
pub proof fn booting_changes_no_seat(
    b: BootState,
    h: HubState,
    msg: Tree,
    sid: Seq<char>,
    result: Tree,
    actor: u64,
    disk: Option<Stored>,
    text: Seq<char>,
)
    ensures
        same_seats(b.heard(h, msg).1, h),
        same_seats(b.opened(h, sid, result, actor, disk), h),
        same_seats(b.failed(h, text), h),
{
    if let Some(s) = b.sid {
        following_keeps_seats(h, b.client, s);
    }
    let title = or_empty(
        match crate::text::filled(result.get_str("title"@)) {
            Some(s) => Some(s),
            None => crate::sessions::disk_title(disk),
        },
    );
    let who = Waiter { client: b.client, id: b.id };
    session_news_changes_no_seat(
        h,
        sid,
        b.params.get_str("cwd"@),
        title,
        result,
        actor,
        b.origin(),
        b.params.get_str("sessionId"@),
        who,
        crate::rpc::Fault { code: SPAWN_FAILED as int, text },
    );
    let ready = h.completed(
        sid,
        b.params.get_str("cwd"@),
        title,
        result,
        actor,
        b.origin(),
    );
    lemma_replayed_keeps(ready, sid, b.buffered);
}

/// Whoever asked for a new session is answered once it is there, unless a
/// client has taken it meanwhile. One who waits for it already under the same
/// id is answered as one who waits.
pub proof fn new_session_is_answered_to_its_asker(
    b: BootState,
    h: HubState,
    sid: Seq<char>,
    result: Tree,
    actor: u64,
    disk: Option<Stored>,
)
    requires
        b.start == Start::New,
        h.host_of(sid) is None,
        h.member(b.client) is Some,
        h.place(sid) matches Some(Place::Starting(w)) ==> !HubState::waits(
            w,
            Waiter { client: b.client, id: b.id },
        ),
    ensures
        b.opened(h, sid, result, actor, disk).out.contains(
            Act::Send(b.client, result_message(b.id, result)),
        ),
{
    let title = or_empty(
        match crate::text::filled(result.get_str("title"@)) {
            Some(s) => Some(s),
            None => crate::sessions::disk_title(disk),
        },
    );
    let cwd = b.params.get_str("cwd"@);
    let who = Waiter { client: b.client, id: b.id };
    let live = HubState {
        sessions: put(h.sessions, sid, Place::Live { cwd, title, result, actor }),
        ..h
    };
    let waiting = match h.place(sid) {
        Some(Place::Starting(w)) => w,
        _ => Seq::empty(),
    };
    let waiters = HubState::answered(waiting, Some(who));
    assert(waiters == waiting.push(who));
    let last = waiting.len() as int;
    assert(waiters[last] == who);
    everyone_who_waited_is_answered(live, waiters, sid, result, last);
    let w = live.welcomed(waiters, sid, result);
    let m = Act::Send(b.client, result_message(b.id, result));
    let k = choose|k: int| 0 <= k < w.out.len() && w.out[k] == m;
    let ready = h.completed(sid, cwd, title, result, actor, b.origin());
    assert(ready.out[k] == m);
    lemma_replayed_keeps(ready, sid, b.buffered);
    let t = b.opened(h, sid, result, actor, disk);
    assert(t.out[k] == ready.out[k]);
}

} // verus!
