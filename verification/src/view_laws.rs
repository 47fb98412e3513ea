//! What values stand for: nothing that a value holds is left out of what is said of
//! it. And the figures that everyone has agreed on.

use crate::actor::{BootMove, BootStep, Heard, Line, Move, Step, ALREADY_RESOLVED, SPAWN_FAILED};
use crate::client::{Call, HubError, CONNECT_MS, RETRY_MS};
use crate::frame::MAX_FRAME;
use crate::history::{
    Diff, Draft, HistoryRow, DIFF_TEXT_MAX, HISTORY_DEFAULT, HISTORY_MAX, HISTORY_TEXT_MAX,
    NOISE_MAX, NOISE_TAIL, TOOL_TEXT_MAX,
};
use crate::hub::{opt_value, ActorCmd, Dispatch, Effect, Facts, Lookup, Revoked, Waiting};
use crate::json::{lemma_array_view, lemma_object_view, trees, Json, Tree};
use crate::model::{
    Act, Answer, Cmd, Errand, Fate, HostedPrompt, Start, Waiter, LAN_CONN_MAX, LOCAL_CONN_MAX,
    PROTOCOL_VERSION, VERSION,
};
use crate::order::{views, Named};
use crate::paths::{Places, HOME_ENV, SOCKET_ENV};
use crate::remote::STOP_MS;
use crate::rpc::{Fault, RpcError};
use crate::server::{ConnMove, ConnStep, IDLE_MS, LAN_PAUSE_MS};
use crate::sessions::{opt_stored, opt_tree, DiskSession, SessionCard};
use crate::text::{filled, opt_str, opt_text, or_empty, or_text, texts};
use crate::tls::{DeviceRecord, EnrollFile, ListenerTls, NamePart, Profile, ALPN, DEFAULT_LAN_PORT};
use crate::version::{Semver, DISPLAY_NAME, TEST_VERSION_ENV};
use vstd::prelude::*;

verus! {

/// The limits, times and names that clients, hub and agents go by.
pub proof fn figures_are_as_agreed()
    ensures
        MAX_FRAME == 16 * 1024 * 1024,
        PROTOCOL_VERSION == 1,
        VERSION@ == "0.1.0"@,
        LOCAL_CONN_MAX == 8,
        LAN_CONN_MAX == 2,
        IDLE_MS == 90_000,
        LAN_PAUSE_MS == 200,
        CONNECT_MS == 5_000,
        RETRY_MS == 50,
        STOP_MS == 3_000,
        HISTORY_DEFAULT == 200,
        HISTORY_MAX == 500,
        HISTORY_TEXT_MAX == 8_000,
        TOOL_TEXT_MAX == 240,
        DIFF_TEXT_MAX == 4_000,
        NOISE_MAX == 4_000,
        NOISE_TAIL == 2_000,
        SPAWN_FAILED == -32011,
        ALREADY_RESOLVED == -32013,
        ALPN@ == "gtm-hub"@,
        DEFAULT_LAN_PORT == 27420,
        SOCKET_ENV@ == "GTM_HUB_SOCKET"@,
        HOME_ENV@ == "GTM_HOME"@,
        TEST_VERSION_ENV@ == "GROK_TEST_VERSION"@,
        DISPLAY_NAME@ == "Grok To Mars"@,
{
}

/// A list stands for what its items stand for, in order, and an optional value for
/// what it holds.
pub proof fn lists_and_options_stand_for_what_they_hold(
    names: Seq<String>,
    values: Seq<Json>,
    rows: Seq<HistoryRow>,
    devices: Seq<DeviceRecord>,
    text: String,
    value: Json,
    disk: DiskSession,
    part: &str,
    other: Seq<char>,
    i: int,
)
    ensures
        texts(names).len() == names.len(),
        0 <= i < names.len() ==> texts(names)[i] == names[i]@,
        trees(values).len() == values.len(),
        0 <= i < values.len() ==> trees(values)[i] == values[i]@,
        crate::history::rows(rows).len() == rows.len(),
        0 <= i < rows.len() ==> crate::history::rows(rows)[i] == rows[i]@,
        views(devices).len() == devices.len(),
        0 <= i < devices.len() ==> views(devices)[i] == devices[i]@,
        opt_text(Some(text)) == Some(text@),
        opt_text(None) is None,
        opt_str(Some(part)) == Some(part@),
        opt_str(None) is None,
        opt_value(Some(value)) == Some(value@),
        opt_value(None) is None,
        opt_stored(Some(&disk)) == Some(disk@),
        opt_stored(None) is None,
        or_text(Some(part@), other) == part@,
        or_text(None, other) == other,
        or_empty(Some(other)) == other,
        or_empty(None) == Seq::<char>::empty(),
        filled(None) is None,
        filled(Some(other)) == if other.len() > 0 {
            Some(other)
        } else {
            None
        },
        opt_tree(Some(other)) == Tree::Str(other),
        opt_tree(None) == Tree::Null,
{
}

/// A JSON value stands for what it holds: nothing, a truth value, a number, a text, a
/// list of what its items stand for, or an object with what its entries stand for,
/// the last one under a key.
pub proof fn json_stands_for_what_it_holds(
    b: bool,
    n: u64,
    k: i64,
    s: String,
    items: Vec<Json>,
    entries: Vec<(String, Json)>,
    i: int,
)
    ensures
        Json::Null@ == Tree::Null,
        Json::Bool(b)@ == Tree::Bool(b),
        Json::Uint(n)@ == Tree::Int(n as int),
        Json::Int(k)@ == Tree::Int(k as int),
        Json::Str(s)@ == Tree::Str(s@),
        Json::Array(items)@ is Array,
        (Json::Array(items)@->Array_0).len() == items@.len(),
        0 <= i < items@.len() ==> (Json::Array(items)@->Array_0)[i] == items@[i]@,
        Json::Object(entries)@ is Object,
        (0 <= i < entries@.len() && forall|j: int|
            i < j < entries@.len() ==> (#[trigger] entries@[j]).0@ != entries@[i].0@)
            ==> Json::Object(entries)@.get(entries@[i].0@) == Some(entries@[i].1@),
        (forall|j: int| 0 <= j < entries@.len() ==> (#[trigger] entries@[j]).0@ != s@)
            ==> Json::Object(entries)@.get(s@) is None,
{
    lemma_array_view(items);
    lemma_object_view(entries);
    let all = crate::json::entries(entries@);
    if 0 <= i < entries@.len() && forall|j: int|
        i < j < entries@.len() ==> (#[trigger] entries@[j]).0@ != entries@[i].0@ {
        assert forall|j: int| i < j < all.len() implies all[j].0 != entries@[i].0@ by {
            assert(entries@[j].0@ != entries@[i].0@);
        }
        crate::json::lemma_fields(all, entries@[i].0@, i);
    }
    if forall|j: int| 0 <= j < entries@.len() ==> (#[trigger] entries@[j]).0@ != s@ {
        assert forall|j: int| -1 < j < all.len() implies all[j].0 != s@ by {
            assert(entries@[j].0@ != s@);
        }
        crate::json::lemma_fields(all, s@, -1);
    }
}

/// What is found outside the hub is known to it in full.
pub proof fn surroundings_are_known_in_full(f: Facts, d: DiskSession, i: int)
    ensures
        f.disk matches Some(s) ==> f@.disk == Some(s@),
        f.disk is None ==> f@.disk is None,
        f@.stored.len() == f.stored@.len(),
        0 <= i < f.stored@.len() ==> f@.stored[i] == f.stored@[i]@,
        f.chat matches Some(s) ==> f@.chat == Some(s@),
        f.chat is None ==> f@.chat is None,
        f.updates matches Some(s) ==> f@.updates == Some(s@),
        f.updates is None ==> f@.updates is None,
        f@.devices.len() == f.devices@.len(),
        0 <= i < f.devices@.len() ==> f@.devices[i] == f.devices@[i]@,
        f@.host == f.host@,
        f@.lan_port == f.lan_port,
        f.materials matches Some(s) ==> f@.materials == Some(s@),
        f.materials is None ==> f@.materials is None,
        f@.fate == match f.revoked {
            Revoked::Gone => Fate::Gone,
            Revoked::Unknown => Fate::Unknown,
            Revoked::Failed(s) => Fate::Failed(s@),
        },
        f@.pid == f.pid,
        f@.socket == f.socket@,
        d@.group == d.group@,
        d@.id == d.id@,
        d@.summary == d.summary@,
        d.group_cwd matches Some(s) ==> d@.group_cwd == Some(s@),
        d.group_cwd is None ==> d@.group_cwd is None,
{
}

/// Devices, what they are given, cards and settings are known by all that they hold.
pub proof fn records_are_known_in_full(
    d: DeviceRecord,
    e: EnrollFile,
    c: SessionCard,
    p: Places,
    f: Profile,
    n: NamePart,
    i: int,
)
    ensures
        d@.id == d.device_id@ && d@.issued == d.issued && d@.expires == d.expires && d@.fp
            == d.cert_sha256@,
        <DeviceRecord as Named>::label(d@) == d.device_id@,
        e@.host == e.host@ && e@.port == e.port && e@.alpn == e.alpn@,
        e@.server_fp == e.server_cert_sha256@ && e@.ca_cert == e.ca_cert_pem@,
        e@.device_cert == e.device_cert_pem@ && e@.device_key == e.device_key_pem@,
        e@.device_id == e.device_id@ && e@.issued == e.issued && e@.expires == e.expires,
        e@.hub_id == e.hub_id@,
        c@.id == c.id@ && c@.title == c.title@ && c@.live == c.live && c@.hosted == c.hosted,
        c.cwd matches Some(s) ==> c@.cwd == Some(s@),
        c.cwd is None ==> c@.cwd is None,
        <SessionCard as Named>::label(c@) == c.title@,
        p.gtm_home matches Some(s) ==> p@.gtm_home == Some(s@),
        p.gtm_home is None ==> p@.gtm_home is None,
        p.socket matches Some(s) ==> p@.socket == Some(s@),
        p.socket is None ==> p@.socket is None,
        p.grok_home matches Some(s) ==> p@.grok_home == Some(s@),
        p.grok_home is None ==> p@.grok_home is None,
        p.user_home matches Some(s) ==> p@.user_home == Some(s@),
        p.user_home is None ==> p@.user_home is None,
        f@.names.len() == f.names@.len(),
        0 <= i < f.names@.len() ==> f@.names[i] == f.names@[i]@,
        f@.common_name == f.common_name@ && f@.authority == f.authority && f@.usages == f.usages@,
        n.kind matches Some(arcs) ==> n@.kind == Some(arcs@),
        n.kind is None ==> n@.kind is None,
        n.printable matches Some(s) ==> n@.printable == Some(s@),
        n.printable is None ==> n@.printable is None,
{
}

/// What an actor is told, and who waits for what, is known in full; and so is what the
/// hub does and what it answers.
pub proof fn orders_and_acts_are_known_in_full(
    client_id: u64,
    id: Json,
    method: String,
    params: Json,
    result: Option<Json>,
    error: Option<Json>,
    actor: u64,
    start: Start,
    cmd: ActorCmd,
    e: RpcError,
    s: String,
)
    ensures
        (ActorCmd::Rpc { client_id, id, method, params })@ == (Cmd::Rpc {
            client: client_id,
            id: id@,
            method: method@,
            params: params@,
        }),
        (ActorCmd::Notify { method, params })@ == (Cmd::Notify {
            method: method@,
            params: params@,
        }),
        (ActorCmd::ClientReply { id, result, error })@ == (Cmd::Reply {
            id: id@,
            result: opt_value(result),
            error: opt_value(error),
        }),
        ActorCmd::Shutdown@ == Cmd::Shutdown,
        (Waiting { client_id, id })@ == (Waiter { client: client_id, id: id@ }),
        (Effect::Send { client_id, msg: params })@ == Act::Send(client_id, params@),
        (Effect::Close { client_id })@ == Act::Close(client_id),
        (Effect::Spawn { actor, start, client_id, id, params })@ == (Act::Spawn {
            actor,
            start,
            client: client_id,
            id: id@,
            params: params@,
        }),
        (Effect::Order { actor, cmd })@ == Act::Order(actor, cmd@),
        Dispatch::Reply(Ok(params))@ == Answer::Done(params@),
        Dispatch::Reply(Err(e))@ == Answer::Refused(
            Fault { code: e.code as int, text: e.message@ },
        ),
        Dispatch::Pending@ == Answer::Pending,
        Lookup::Nothing@ == Errand::Nothing,
        Lookup::Disk(s)@ == Errand::Disk(s@),
        Lookup::Transcript(s)@ == Errand::Transcript(s@),
        Lookup::Listing@ == Errand::Listing,
        Lookup::Remote@ == Errand::Remote,
        Lookup::Materials@ == Errand::Materials,
        Lookup::Revoke(s)@ == Errand::Revoke(s@),
{
}

/// What an actor, an agent's start, a connection and a client do next, and what rows,
/// versions and listeners are, is known in full.
pub proof fn steps_and_rows_are_known_in_full(
    msg: Json,
    s: String,
    last: Option<Json>,
    r: HistoryRow,
    d: Diff,
    draft: Draft,
    call: Call,
    e: HubError,
    v: Semver,
    t: ListenerTls,
    p: HostedPrompt,
    i: int,
)
    ensures
        Step::Idle@ == Move::Idle,
        Step::Stop@ == Move::Stop,
        Step::Write(msg)@ == Move::Write(msg@),
        BootStep::Wait@ == BootMove::Wait,
        BootStep::Write(msg)@ == BootMove::Write(msg@),
        BootStep::Failed(s)@ == BootMove::Failed(s@),
        (BootStep::Ready { sid: s, result: msg })@ == (BootMove::Ready {
            sid: s@,
            result: msg@,
        }),
        Line::Skip@ == Heard::Skip,
        Line::End(s)@ == Heard::End(s@),
        Line::Message(msg)@ == Heard::Message(msg@),
        ConnStep::Nothing@ == ConnMove::Nothing,
        ConnStep::Write(msg)@ == ConnMove::Write(msg@),
        ConnStep::Queue(msg)@ == ConnMove::Queue(msg@),
        ConnStep::Bye@ == ConnMove::Bye,
        (ConnStep::Fail { last, text: s })@ == (ConnMove::Fail {
            last: opt_value(last),
            text: s@,
        }),
        r@.role == r.role && r@.text == r.text@,
        r.tool_title matches Some(x) ==> r@.title == Some(x@),
        r.tool_title is None ==> r@.title is None,
        r.diff matches Some(x) ==> r@.diff == Some(x@),
        r.diff is None ==> r@.diff is None,
        d@.path == d.path@ && d@.old == d.old@ && d@.new == d.new@,
        draft@.rows.len() == draft.rows@.len(),
        0 <= i < draft.rows@.len() ==> draft@.rows[i] == draft.rows@[i]@,
        draft@.role == draft.role && draft@.buf == draft.buf@,
        call@.id == call.id && call@.msg == call.msg@,
        e@.code == e.code && e@.text == e.message@,
        v@.major == v.major && v@.minor == v.minor && v@.patch == v.patch,
        v@.pre == v.pre@ && v@.build == v.build@,
        t@.versions == t.versions@ && t@.client_root == t.client_root@,
        t@.certificate == t.certificate@ && t@.key_form == t.key_form && t@.key == t.key@,
        t@.alpn == t.alpn@,
        p@ == p,
{
}

} // verus!
