//! Who hears of what: whatever becomes of a session, those whom it concerns are
//! told.

use crate::codec::parsed;
use crate::json::{obj, Tree};
use crate::laws::{
    everyone_who_waited_is_answered, lemma_host_lost_keeps, lemma_methods_differ,
    lemma_prompts_failed_keeps, lemma_told_failure_keeps, lemma_unhosted_keeps,
    lost_host_is_reported_to_senders, orderly, replaced_connection_is_told,
};
use crate::model::{
    farewell, lan_allowed, string, turned_away, Act, HostedPrompt, HubState, Place, Waiter, World,
};
use crate::rpc::{error_message, result_message, Fault};
use crate::sessions::opt_tree;
use crate::table::{lemma_lookup_found, lemma_lookup_put, lemma_lookup_without, put, without};
use crate::tls::Device;
use vstd::prelude::*;

verus! {

/// What was decided once stays decided.
pub proof fn lemma_still_said(a: HubState, b: HubState, act: Act)
    requires
        a.out.is_prefix_of(b.out),
        a.out.contains(act),
    ensures
        b.out.contains(act),
{
    let k = choose|k: int| 0 <= k < a.out.len() && a.out[k] == act;
    assert(b.out.subrange(0, a.out.len() as int)[k] == act);
    assert(b.out[k] == act);
}

/// When a session is ready, everyone who waited for it is answered under the
/// id that they asked under, and follows it.
pub proof fn ready_session_answers_everyone_who_waited(
    h: HubState,
    sid: Seq<char>,
    cwd: Option<Seq<char>>,
    title: Seq<char>,
    result: Tree,
    actor: u64,
    origin: Option<Waiter>,
    waiters: Seq<Waiter>,
    i: int,
)
    requires
        h.place(sid) == Some(Place::Starting(waiters)),
        0 <= i < waiters.len(),
        h.member(waiters[i].client) is Some,
    ensures
        ({
            let s = h.completed(sid, cwd, title, result, actor, origin);
            &&& s.out.contains(Act::Send(waiters[i].client, result_message(waiters[i].id, result)))
            &&& s.member(waiters[i].client) matches Some(m) && m.subs.contains(sid)
        }),
{
    let live = HubState {
        sessions: put(h.sessions, sid, Place::Live { cwd, title, result, actor }),
        ..h
    };
    let all = HubState::answered(waiters, origin);
    assert(all[i] == waiters[i]);
    everyone_who_waited_is_answered(live, all, sid, result, i);
    let w = live.welcomed(all, sid, result);
    let s = h.completed(sid, cwd, title, result, actor, origin);
    assert(w.out =~= s.out.subrange(0, w.out.len() as int));
    lemma_still_said(w, s, Act::Send(waiters[i].client, result_message(waiters[i].id, result)));
}

/// When a client takes a session whose agent still starts, everyone who waited
/// for it is answered and follows it.
pub proof fn taken_session_answers_everyone_who_waited(
    h: HubState,
    client: u64,
    sid: Seq<char>,
    cwd: Option<Seq<char>>,
    title: Seq<char>,
    waiters: Seq<Waiter>,
    i: int,
)
    requires
        h.place(sid) == Some(Place::Starting(waiters)),
        0 <= i < waiters.len(),
        h.member(waiters[i].client) is Some,
    ensures
        ({
            let s = h.taken(client, sid, cwd, title);
            let result = obj().with("sessionId"@, string(sid)).with("title"@, string(title)).with(
                "cwd"@,
                opt_tree(cwd),
            );
            &&& s.out.contains(Act::Send(waiters[i].client, result_message(waiters[i].id, result)))
            &&& s.member(waiters[i].client) matches Some(m) && m.subs.contains(sid)
        }),
{
    let result = obj().with("sessionId"@, string(sid)).with("title"@, string(title)).with(
        "cwd"@,
        opt_tree(cwd),
    );
    let placed = HubState {
        sessions: put(h.sessions, sid, Place::Hosted { client, cwd, title }),
        ..h
    };
    everyone_who_waited_is_answered(placed, waiters, sid, result, i);
    let w = placed.welcomed(waiters, sid, result);
    let s = h.taken(client, sid, cwd, title);
    assert(w.out =~= s.out.subrange(0, w.out.len() as int));
    lemma_still_said(w, s, Act::Send(waiters[i].client, result_message(waiters[i].id, result)));
}

/// One who waits, and is not the same as one before, is told of a failure.
proof fn lemma_told_failure(h: HubState, waiters: Seq<Waiter>, err: Fault, i: int)
    requires
        0 <= i < waiters.len(),
        h.member(waiters[i].client) is Some,
        forall|j: int|
            0 <= j < i ==> HubState::waiter_key(#[trigger] waiters[j]) != HubState::waiter_key(
                waiters[i],
            ),
    ensures
        h.told_failure(waiters, err).out.contains(
            Act::Send(waiters[i].client, error_message(waiters[i].id, err.code, err.text)),
        ),
    decreases waiters.len(),
{
    let front = waiters.drop_last();
    let before = h.told_failure(front, err);
    let t = h.told_failure(waiters, err);
    let m = Act::Send(waiters[i].client, error_message(waiters[i].id, err.code, err.text));
    lemma_told_failure_keeps(h, front, err);
    if i < front.len() {
        assert forall|j: int| 0 <= j < i implies HubState::waiter_key(#[trigger] front[j])
            != HubState::waiter_key(front[i]) by {
            assert(front[j] == waiters[j]);
        }
        lemma_told_failure(h, front, err, i);
        assert(before.out =~= t.out.subrange(0, before.out.len() as int));
        lemma_still_said(before, t, m);
    } else {
        let keys = front.map_values(|w: Waiter| HubState::waiter_key(w));
        let key = HubState::waiter_key(waiters[i]);
        if keys.to_set().contains(key) {
            let j = choose|j: int| 0 <= j < keys.len() && keys[j] == key;
            assert(front[j] == waiters[j]);
        }
        assert(t.out[before.out.len() as int] == m);
    }
}

/// When a session cannot be started, everyone who waited for it is told, under
/// the id that they asked under, and the session can be tried again. Requests
/// of the same client under the same id are answered as one.
pub proof fn failed_start_is_told_to_everyone_who_waited(
    h: HubState,
    sid: Seq<char>,
    origin: Waiter,
    err: Fault,
    waiters: Seq<Waiter>,
    i: int,
)
    requires
        h.place(sid) == Some(Place::Starting(waiters)),
        0 <= i < waiters.len(),
        h.member(waiters[i].client) is Some,
        forall|j: int|
            0 <= j < i ==> HubState::waiter_key(#[trigger] waiters[j]) != HubState::waiter_key(
                waiters[i],
            ),
    ensures
        h.failed(Some(sid), origin, err).out.contains(
            Act::Send(waiters[i].client, error_message(waiters[i].id, err.code, err.text)),
        ),
        h.failed(Some(sid), origin, err).place(sid) is None,
{
    let gone = HubState { sessions: without(h.sessions, sid), ..h };
    lemma_told_failure(gone, waiters, err, i);
    lemma_told_failure_keeps(gone, waiters, err);
    lemma_lookup_without(h.sessions, sid, sid);
}

/// What is sent to whoever sent a prompt that its host will not answer.
pub open spec fn lost_prompt(e: (Seq<char>, HostedPrompt)) -> Act {
    Act::Send(
        e.1.origin,
        error_message(
            match parsed(e.0) {
                Some(t) => t,
                None => Tree::Null,
            },
            -32012,
            "TUI session host disconnected"@,
        ),
    )
}

/// What was decided before stays in front of the failure of prompts.
proof fn lemma_prompts_failed_grows(h: HubState, pending: Seq<(Seq<char>, HostedPrompt)>)
    ensures
        h.out.is_prefix_of(h.prompts_failed(pending).out),
    decreases pending.len(),
{
    let t = h.prompts_failed(pending);
    if pending.len() > 0 {
        lemma_prompts_failed_grows(h, pending.drop_last());
        let before = h.prompts_failed(pending.drop_last());
        assert(h.out =~= before.out.subrange(0, h.out.len() as int));
        assert(before.out =~= t.out.subrange(0, before.out.len() as int));
    }
    assert(h.out =~= t.out.subrange(0, h.out.len() as int));
}

/// Whoever sent a prompt to a host that is lost is told, and all that was
/// decided before stays decided.
proof fn lemma_host_lost_tells(h: HubState, host: u64, e: (Seq<char>, HostedPrompt))
    ensures
        h.out.is_prefix_of(h.host_lost(host).out),
        h.prompts.contains(e) && e.1.host == host && h.member(e.1.origin) is Some
            ==> h.host_lost(host).out.contains(lost_prompt(e)),
{
    let goes = |x: (Seq<char>, HostedPrompt)| x.1.host == host;
    let kept = HubState {
        prompts: h.prompts.filter(|x: (Seq<char>, HostedPrompt)| x.1.host != host),
        ..h
    };
    let pending = h.prompts.filter(goes);
    lemma_prompts_failed_grows(kept, pending);
    if h.prompts.contains(e) && e.1.host == host && h.member(e.1.origin) is Some {
        let k = choose|k: int| 0 <= k < h.prompts.len() && h.prompts[k] == e;
        h.prompts.lemma_filter_contains(goes, k);
        let i = choose|i: int| 0 <= i < pending.len() && pending[i] == e;
        lost_host_is_reported_to_senders(kept, pending, i);
    }
}

/// While a client lets its sessions go, whoever sent it a prompt is told or the
/// prompt is still there.
proof fn lemma_unhosted_each_tells(
    h: HubState,
    client: u64,
    sids: Seq<Seq<char>>,
    e: (Seq<char>, HostedPrompt),
)
    requires
        h.prompts.contains(e),
        e.1.host == client,
        h.member(e.1.origin) is Some,
    ensures
        ({
            let s = h.unhosted_each(client, sids);
            s.prompts.contains(e) || s.out.contains(lost_prompt(e))
        }),
    decreases sids.len(),
{
    if sids.len() > 0 {
        let front = sids.drop_last();
        lemma_unhosted_each_tells(h, client, front, e);
        lemma_unhosted_keeps(h, client, front);
        let before = h.unhosted_each(client, front);
        let last = sids.last();
        let s = h.unhosted_each(client, sids);
        if before.host_of(last) == Some(client) {
            let gone = HubState { sessions: without(before.sessions, last), ..before };
            lemma_host_lost_tells(gone, client, e);
            let lost = gone.host_lost(client);
            assert(lost.out =~= s.out.subrange(0, lost.out.len() as int));
            if gone.out.contains(lost_prompt(e)) {
                lemma_still_said(gone, lost, lost_prompt(e));
            }
            lemma_still_said(lost, s, lost_prompt(e));
        }
    }
}

/// When a client leaves, whoever sent it a prompt that it has not answered is
/// told so.
pub proof fn leaving_host_is_reported(h: HubState, client: u64, e: (Seq<char>, HostedPrompt))
    requires
        h.prompts.contains(e),
        e.1.host == client,
        e.1.origin != client,
        h.member(e.1.origin) is Some,
    ensures
        h.left(client).out.contains(lost_prompt(e)),
{
    let gone = HubState {
        clients: without(h.clients, client),
        out: if h.member(client) is Some {
            h.out.push(Act::Close(client))
        } else {
            h.out
        },
        ..h
    };
    lemma_lookup_without(h.clients, client, e.1.origin);
    let sids = gone.run_by(client);
    lemma_unhosted_each_tells(gone, client, sids, e);
    lemma_unhosted_keeps(gone, client, sids);
    let s = gone.unhosted_each(client, sids);
    lemma_host_lost_tells(s, client, e);
    if s.out.contains(lost_prompt(e)) {
        lemma_still_said(s, s.host_lost(client), lost_prompt(e));
    }
}

/// When a client takes a session from another one, whoever sent the other one a
/// prompt that it has not answered is told so.
pub proof fn replaced_host_is_reported(
    h: HubState,
    client: u64,
    sid: Seq<char>,
    cwd: Option<Seq<char>>,
    title: Seq<char>,
    old: u64,
    e: (Seq<char>, HostedPrompt),
)
    requires
        h.host_of(sid) == Some(old),
        old != client,
        h.prompts.contains(e),
        e.1.host == old,
        h.member(e.1.origin) is Some,
    ensures
        h.taken(client, sid, cwd, title).out.contains(lost_prompt(e)),
{
    let placed = HubState {
        sessions: put(h.sessions, sid, Place::Hosted { client, cwd, title }),
        ..h
    };
    lemma_host_lost_tells(placed, old, e);
    let lost = placed.host_lost(old);
    let s = h.taken(client, sid, cwd, title);
    assert(lost.out =~= s.out.subrange(0, lost.out.len() as int));
    lemma_still_said(lost, s, lost_prompt(e));
}

/// When a device comes back, its older connection is told that it is replaced,
/// and is let go of, whether the new one finds room or not.
pub proof fn greeting_tells_the_connection_it_replaces(
    h: HubState,
    params: Tree,
    fp: Seq<char>,
    devices: Seq<Device>,
    now: u64,
    id: u64,
)
    requires
        orderly(h),
        turned_away(params, true, Some(fp), devices, now) is None,
        h.member(id) matches Some(m) && m.fp == Some(fp),
    ensures
        ({
            let s = h.greeted(params, true, Some(fp), devices, now).0;
            &&& s.out.contains(Act::Send(id, farewell("replaced"@)))
            &&& s.out.contains(Act::Close(id))
            &&& s.member(id) is None
        }),
{
    replaced_connection_is_told(h, fp, "replaced"@, id);
    let cleared = h.evicting(fp, "replaced"@);
    let k = lemma_lookup_found(h.clients, id);
    assert(crate::laws::seats(h.clients)[k].id < h.next_client);
    if cleared.member(id) is Some {
        let j = lemma_lookup_found(cleared.clients, id);
        let stays = |c: (u64, crate::model::Member)| c.1.fp != Some(fp);
        h.clients.lemma_filter_pred(stays, j);
        assert(cleared.clients.contains(cleared.clients[j]));
        h.clients.lemma_filter_contains_rev(stays, cleared.clients[j]);
        let a = choose|a: int| 0 <= a < h.clients.len() && h.clients[a] == cleared.clients[j];
        crate::laws::lemma_lookup_at(h, a);
    }
    lemma_lookup_put(
        cleared.clients,
        cleared.next_client,
        crate::model::Member { subs: Set::empty(), lan: true, fp: Some(fp) },
        id,
    );
}

/// Whatever a client on the network asks for, the network listener stays as it
/// is and no session gets another host.
pub proof fn network_requests_change_no_listener_and_no_host(
    h: HubState,
    client: u64,
    id: Tree,
    method: Seq<char>,
    params: Tree,
    w: World,
    sid: Seq<char>,
)
    requires
        h.on_lan(client),
    ensures
        h.requested(client, id, method, params, w).0.lan == h.lan,
        h.requested(client, id, method, params, w).0.host_of(sid) == h.host_of(sid),
{
    let local = {
        ||| method == "session/new"@
        ||| method == "gtm/sessions.host"@
        ||| method == "gtm/sessions.unhost"@
        ||| method == "gtm/remote.on"@
        ||| method == "gtm/remote.off"@
        ||| method == "gtm/remote.revoke"@
        ||| method == "gtm/remote.status"@
    };
    if local {
        crate::laws::network_clients_are_kept_to_their_methods(h, client, id, method, params, w);
    } else if lan_allowed(method) {
        if let Some(named) = crate::model::named_session(params) {
            let joining = match h.place(named) {
                Some(Place::Starting(waiters)) => Place::Starting(
                    waiters.push(Waiter { client, id }),
                ),
                _ => Place::Starting(seq![Waiter { client, id }]),
            };
            lemma_lookup_put(h.sessions, named, joining, sid);
        }
    }
}

} // verus!
