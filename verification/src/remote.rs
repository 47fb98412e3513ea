//! The commands about the hub and its network listener: what they ask for, and
//! what they print.

use crate::json::{trees, Json, Tree};
use crate::numeral::{decimal, parse_number, read_number, to_decimal};
use crate::order::views;
use crate::text::{
    concat, concat3, ends, or_empty, or_text, own, strip_suffix, text_or, texts, trim, trimmed,
};
use crate::tls::{ALPN, Device, DeviceRecord, EnrollFile, Enrollment};
use vstd::prelude::*;

verus! {

/// What is asked of the hub's program.
pub struct HubArgs {
    pub command: Option<HubCommand>,
    pub daemon: bool,
}

/// What is asked about a hub that runs.
pub enum HubCommand {
    Stop,
    Status { json: bool },
}

/// What is asked about the network listener.
pub struct RemoteArgs {
    pub lan: bool,
    pub command: Option<RemoteCommand>,
}

/// What is asked about the network listener or the devices.
pub enum RemoteCommand {
    Enroll { ttl: String, out: Option<String> },
    List,
    Revoke { device_id: String },
    Off,
    Status { json: bool },
}

/// Which part of a time to live could not be read.
#[derive(Clone, Copy, PartialEq, Eq, Structural, Debug)]
pub enum TtlError {
    Days,
    Hours,
    Seconds,
}

impl TtlError {
    /// What is said of it.
    pub fn text(self) -> (r: &'static str)
        ensures
            r@ == match self {
                TtlError::Days => "ttl days"@,
                TtlError::Hours => "ttl hours"@,
                TtlError::Seconds => "ttl seconds"@,
            },
    {
        match self {
            TtlError::Days => "ttl days",
            TtlError::Hours => "ttl hours",
            TtlError::Seconds => "ttl seconds",
        }
    }
}

/// A product, or the greatest number there is.
pub open spec fn product(n: nat, k: nat) -> u64 {
    if n * k > u64::MAX {
        u64::MAX
    } else {
        (n * k) as u64
    }
}

/// The number of units that a text gives, in seconds.
pub open spec fn units(text: Seq<char>, seconds: nat, e: TtlError) -> Result<u64, TtlError> {
    match read_number(text, u64::MAX as nat) {
        Some(n) => Ok(product(n, seconds)),
        None => Err(e),
    }
}

/// The seconds that a text gives: a number of days or hours, or of seconds.
pub open spec fn ttl_seconds(s: Seq<char>) -> Result<u64, TtlError> {
    let t = trimmed(s);
    if ends(t, "d"@) {
        units(t.take(t.len() - 1), 86400, TtlError::Days)
    } else if ends(t, "h"@) {
        units(t.take(t.len() - 1), 3600, TtlError::Hours)
    } else {
        units(t, 1, TtlError::Seconds)
    }
}

/// The number of units that a text gives, in seconds.
fn read_units(text: &str, seconds: u64, e: TtlError) -> (r: Result<u64, TtlError>)
    requires
        seconds > 0,
    ensures
        r == units(text@, seconds as nat, e),
{
    match parse_number(text, u64::MAX) {
        Some(n) => {
            if n > u64::MAX / seconds {
                proof {
                    assert(n * seconds > u64::MAX) by (nonlinear_arith)
                        requires
                            n > u64::MAX / seconds,
                            seconds > 0,
                    ;
                }
                Ok(u64::MAX)
            } else {
                proof {
                    assert(n * seconds <= u64::MAX) by (nonlinear_arith)
                        requires
                            n <= u64::MAX / seconds,
                            seconds > 0,
                    ;
                }
                Ok(n * seconds)
            }
        },
        None => Err(e),
    }
}

/// The seconds that a text gives: a number of days or hours, or of seconds.
pub fn parse_ttl(s: &str) -> (r: Result<u64, TtlError>)
    ensures
        r == ttl_seconds(s@),
{
    let t: String = trim(s);
    proof {
        reveal_strlit("d");
        reveal_strlit("h");
    }
    if let Some(days) = strip_suffix(t.as_str(), "d") {
        return read_units(days.as_str(), 86400, TtlError::Days);
    }
    if let Some(hours) = strip_suffix(t.as_str(), "h") {
        return read_units(hours.as_str(), 3600, TtlError::Hours);
    }
    read_units(t.as_str(), 1, TtlError::Seconds)
}

/// What is to be done about the network listener.
pub enum RemoteTask {
    /// Open it.
    Open,
    /// Print what the hub says of it.
    Show,
    /// Let a device in for some seconds, and open it.
    Enroll { secs: u64, out: Option<String> },
    /// List the devices.
    List,
    /// Take a device's access away.
    Revoke(String),
    /// Close it.
    Off,
    /// Print its state.
    Status { json: bool },
}

/// What is to be done about the network listener, or which time to live could
/// not be read.
pub fn remote_task(args: RemoteArgs) -> (r: Result<RemoteTask, TtlError>)
    ensures
        match args.command {
            None => if args.lan {
                r == Ok::<RemoteTask, TtlError>(RemoteTask::Open)
            } else {
                r == Ok::<RemoteTask, TtlError>(RemoteTask::Show)
            },
            Some(RemoteCommand::Enroll { ttl, out }) => match ttl_seconds(ttl@) {
                Ok(secs) => r == Ok::<RemoteTask, TtlError>(RemoteTask::Enroll { secs, out }),
                Err(e) => r == Err::<RemoteTask, TtlError>(e),
            },
            Some(RemoteCommand::List) => r == Ok::<RemoteTask, TtlError>(RemoteTask::List),
            Some(RemoteCommand::Revoke { device_id }) => r == Ok::<RemoteTask, TtlError>(
                RemoteTask::Revoke(device_id),
            ),
            Some(RemoteCommand::Off) => r == Ok::<RemoteTask, TtlError>(RemoteTask::Off),
            Some(RemoteCommand::Status { json }) => r == Ok::<RemoteTask, TtlError>(
                RemoteTask::Status { json },
            ),
        },
{
    match args.command {
        None => if args.lan {
            Ok(RemoteTask::Open)
        } else {
            Ok(RemoteTask::Show)
        },
        Some(RemoteCommand::Enroll { ttl, out }) => match parse_ttl(ttl.as_str()) {
            Ok(secs) => Ok(RemoteTask::Enroll { secs, out }),
            Err(e) => Err(e),
        },
        Some(RemoteCommand::List) => Ok(RemoteTask::List),
        Some(RemoteCommand::Revoke { device_id }) => Ok(RemoteTask::Revoke(device_id)),
        Some(RemoteCommand::Off) => Ok(RemoteTask::Off),
        Some(RemoteCommand::Status { json }) => Ok(RemoteTask::Status { json }),
    }
}

/// The number under a key, or zero.
pub open spec fn count_in(t: Tree, key: Seq<char>) -> nat {
    match t.get(key) {
        Some(n) => match n.uint() {
            Some(k) => k as nat,
            None => 0,
        },
        None => 0,
    }
}

/// Whether something is said to be so under a key.
pub open spec fn flag_in(t: Tree, key: Seq<char>) -> bool {
    match t.get(key) {
        Some(b) => b.truth() == Some(true),
        None => false,
    }
}

/// The number under a key, or zero.
fn count_of(j: &Json, key: &str) -> (r: u64)
    ensures
        r as nat == count_in(j@, key@),
{
    match j.get(key) {
        Some(n) => match n.as_u64() {
            Some(k) => k,
            None => 0,
        },
        None => 0,
    }
}

/// Whether something is said to be so under a key.
fn flag_of(j: &Json, key: &str) -> (r: bool)
    ensures
        r == flag_in(j@, key@),
{
    match j.get(key) {
        Some(b) => match b.as_bool() {
            Some(x) => x,
            None => false,
        },
        None => false,
    }
}

/// The line about a listener that was opened.
pub open spec fn open_line(info: Tree) -> Seq<char> {
    "LAN TLS "@ + or_text(info.get_str("host"@), "-"@) + ":"@ + decimal(count_in(info, "port"@))
        + "  alpn "@ + ALPN@
}

/// The line about a listener that was opened.
pub fn print_on(info: &Json) -> (r: String)
    ensures
        r@ == open_line(info@),
{
    let mut out: String = concat("LAN TLS ", text_or(info.get_str("host"), "-"));
    out.push_str(":");
    out.push_str(to_decimal(count_of(info, "port")).as_str());
    out.push_str("  alpn ");
    out.push_str(ALPN);
    out
}

/// A truth value as text.
pub open spec fn truth_text(b: bool) -> Seq<char> {
    if b {
        "true"@
    } else {
        "false"@
    }
}

/// The line about the listener's state.
pub open spec fn remote_line(st: Tree) -> Seq<char> {
    "lan "@ + truth_text(flag_in(st, "lan"@)) + "  "@ + or_text(st.get_str("host"@), "-"@) + ":"@
        + decimal(count_in(st, "port"@)) + "  devices "@ + decimal(count_in(st, "devices"@))
}

/// The line about the listener's state.
pub fn remote_status_line(st: &Json) -> (r: String)
    ensures
        r@ == remote_line(st@),
{
    let lan: &str = if flag_of(st, "lan") {
        "true"
    } else {
        "false"
    };
    let mut out: String = concat3("lan ", lan, "  ");
    out.push_str(text_or(st.get_str("host"), "-"));
    out.push_str(":");
    out.push_str(to_decimal(count_of(st, "port")).as_str());
    out.push_str("  devices ");
    out.push_str(to_decimal(count_of(st, "devices")).as_str());
    out
}

/// The line about a device.
pub open spec fn device_text(d: Device) -> Seq<char> {
    d.id + "  expires "@ + decimal(d.expires as nat) + "  fp "@ + d.fp
}

/// The lines about the devices.
pub fn device_lines(devices: &Vec<DeviceRecord>) -> (r: Vec<String>)
    ensures
        texts(r@) == (if devices@.len() == 0 {
            seq!["No enrolled devices."@]
        } else {
            views(devices@).map_values(|d: Device| device_text(d))
        }),
{
    let mut out: Vec<String> = Vec::new();
    if devices.len() == 0 {
        out.push(own("No enrolled devices."));
        proof {
            assert(texts(out@) =~= seq!["No enrolled devices."@]);
        }
        return out;
    }
    let mut i: usize = 0;
    while i < devices.len()
        invariant
            i <= devices@.len(),
            out@.len() == i,
            forall|j: int| 0 <= j < i ==> (#[trigger] out@[j])@ == device_text(devices@[j]@),
        decreases devices@.len() - i,
    {
        let d: &DeviceRecord = &devices[i];
        let mut line: String = concat(d.device_id.as_str(), "  expires ");
        line.push_str(to_decimal(d.expires).as_str());
        line.push_str("  fp ");
        line.push_str(d.cert_sha256.as_str());
        out.push(line);
        i = i + 1;
    }
    proof {
        assert(texts(out@) =~= views(devices@).map_values(|d: Device| device_text(d)));
    }
    out
}

/// What is said once a device's access was to be taken away: by the hub, or
/// without it by the removal of its file, or not at all.
pub fn revoke_line(device_id: &str, by_hub: bool, file_removed: bool) -> (r: Result<
    String,
    String,
>)
    ensures
        match r {
            Ok(s) => {
                &&& by_hub || file_removed
                &&& s@ == if by_hub {
                    "revoked "@ + device_id@
                } else {
                    "revoked "@ + device_id@ + " (hub offline; file removed)"@
                }
            },
            Err(s) => !by_hub && !file_removed && s@ == "unknown device "@ + device_id@,
        },
{
    if by_hub {
        Ok(concat("revoked ", device_id))
    } else if file_removed {
        Ok(concat3("revoked ", device_id, " (hub offline; file removed)"))
    } else {
        Err(concat("unknown device ", device_id))
    }
}

/// The lines about a device that was let in.
pub open spec fn enroll_lines(e: Enrollment, path: Seq<char>) -> Seq<Seq<char>> {
    seq![
        "wrote "@ + path,
        "device "@ + e.device_id + "  hub "@ + e.hub_id + "  connect "@ + e.host + ":"@ + decimal(
            e.port as nat,
        ),
        "Copy "@ + path
            + " to the phone (file mode 0600). The CA private key is not in this file."@,
    ]
}

/// The lines about a device that was let in.
pub fn print_enroll_hint(enroll: &EnrollFile, path: &str) -> (r: Vec<String>)
    ensures
        texts(r@) == enroll_lines(enroll@, path@),
{
    let mut line: String = concat3("device ", enroll.device_id.as_str(), "  hub ");
    line.push_str(enroll.hub_id.as_str());
    line.push_str("  connect ");
    line.push_str(enroll.host.as_str());
    line.push_str(":");
    line.push_str(to_decimal(enroll.port as u64).as_str());
    let mut out: Vec<String> = Vec::new();
    out.push(concat("wrote ", path));
    out.push(line);
    out.push(
        concat3(
            "Copy ",
            path,
            " to the phone (file mode 0600). The CA private key is not in this file.",
        ),
    );
    proof {
        assert(texts(out@) =~= enroll_lines(enroll@, path@));
    }
    out
}

/// The line about a session in the hub's state.
pub open spec fn session_line(row: Tree) -> Seq<char> {
    let kind = if flag_in(row, "hosted"@) {
        "TUI host"@
    } else {
        "hub actor"@
    };
    "  "@ + or_text(row.get_str("id"@), "-"@) + "  ["@ + kind + "]  "@ + or_empty(
        row.get_str("title"@),
    )
}

/// The lines about the hub's state.
pub open spec fn hub_lines(info: Tree, hello: Tree) -> Seq<Seq<char>> {
    let first = "gtm hub pid "@ + decimal(count_in(info, "pid"@)) + "  socket "@ + or_text(
        info.get_str("socket"@),
        "-"@,
    ) + "  protocol "@ + decimal(count_in(hello, "protocolVersion"@));
    match info.get("live"@) {
        Some(Tree::Array(live)) => if live.len() == 0 {
            seq![
                first,
                "live sessions: none (TUI is not hosting; phone turns spawn a private agent)"@,
            ]
        } else {
            seq![first, "live sessions:"@] + live.map_values(|row: Tree| session_line(row))
        },
        _ => seq![first],
    }
}

/// The line about a session in the hub's state.
fn row_line(row: &Json) -> (r: String)
    ensures
        r@ == session_line(row@),
{
    proof {
        reveal_strlit("");
        assert(""@ =~= Seq::<char>::empty());
    }
    let kind: &str = if flag_of(row, "hosted") {
        "TUI host"
    } else {
        "hub actor"
    };
    let mut out: String = concat3("  ", text_or(row.get_str("id"), "-"), "  [");
    out.push_str(kind);
    out.push_str("]  ");
    out.push_str(text_or(row.get_str("title"), ""));
    out
}

/// The lines about the hub's state, from what it says of itself and from its
/// welcome.
pub fn status_lines(info: &Json, hello: &Json) -> (r: Vec<String>)
    ensures
        texts(r@) == hub_lines(info@, hello@),
{
    let mut first: String = concat("gtm hub pid ", to_decimal(count_of(info, "pid")).as_str());
    first.push_str("  socket ");
    first.push_str(text_or(info.get_str("socket"), "-"));
    first.push_str("  protocol ");
    first.push_str(to_decimal(count_of(hello, "protocolVersion")).as_str());
    let mut out: Vec<String> = Vec::new();
    out.push(first);
    proof {
        assert(texts(out@) =~= seq![first@]);
    }
    if let Some(Json::Array(live)) = info.get("live") {
        proof {
            crate::json::lemma_array_view(*live);
        }
        if live.len() == 0 {
            out.push(
                own("live sessions: none (TUI is not hosting; phone turns spawn a private agent)"),
            );
            proof {
                assert(texts(out@) =~= hub_lines(info@, hello@));
            }
            return out;
        }
        out.push(own("live sessions:"));
        let ghost head = texts(out@);
        let ghost g = |row: Tree| session_line(row);
        let mut i: usize = 0;
        proof {
            assert(head =~= seq![first@, "live sessions:"@]);
            assert(head + trees(live@).take(0).map_values(g) =~= head);
        }
        while i < live.len()
            invariant
                i <= live@.len(),
                g == (|row: Tree| session_line(row)),
                texts(out@) == head + trees(live@).take(i as int).map_values(g),
            decreases live@.len() - i,
        {
            let ghost before = texts(out@);
            let line: String = row_line(&live[i]);
            out.push(line);
            proof {
                assert(texts(out@) =~= before.push(line@));
                assert(trees(live@)[i as int] == live@[i as int]@);
                assert(before.push(line@) =~= head + trees(live@).take(i + 1).map_values(g));
            }
            i = i + 1;
        }
        proof {
            assert(trees(live@).take(i as int) =~= trees(live@));
        }
    }
    out
}

/// What is done next to stop a hub.
#[derive(Clone, Copy, PartialEq, Eq, Structural, Debug)]
pub enum StopStep {
    /// There is none: say so.
    NoneRuns,
    /// There is none any more: remove what it left, and say so.
    Clean,
    /// Ask it to stop.
    Ask,
    /// Wait a little, and look again.
    Wait,
    /// Stop it by force.
    Force,
    /// Remove what it left, and say that it was stopped.
    Done,
}

/// How long a hub is given to stop, in milliseconds.
pub const STOP_MS: u64 = 3000;

/// What is done next to stop a hub: given its process, whether that is alive,
/// how long ago it was asked to stop if it was, and whether it was stopped by
/// force.
pub fn stop_step(
    pid: Option<u32>,
    alive: bool,
    asked_ms: Option<u64>,
    forced: bool,
) -> (r: StopStep)
    ensures
        r == (match (pid, asked_ms) {
            (None, _) => StopStep::NoneRuns,
            (Some(_), None) => if alive {
                StopStep::Ask
            } else {
                StopStep::Clean
            },
            (Some(_), Some(ms)) => if !alive || forced {
                StopStep::Done
            } else if ms < STOP_MS {
                StopStep::Wait
            } else {
                StopStep::Force
            },
        }),
{
    match (pid, asked_ms) {
        (None, _) => StopStep::NoneRuns,
        (Some(_), None) => if alive {
            StopStep::Ask
        } else {
            StopStep::Clean
        },
        (Some(_), Some(ms)) => if !alive || forced {
            StopStep::Done
        } else if ms < STOP_MS {
            StopStep::Wait
        } else {
            StopStep::Force
        },
    }
}

/// What is said of a hub that was stopped.
pub fn stopped_line(pid: u32) -> (r: String)
    ensures
        r@ == "Stopped gtm hub (pid "@ + decimal(pid as nat) + ")."@,
{
    concat3("Stopped gtm hub (pid ", to_decimal(pid as u64).as_str(), ").")
}

/// A day's worth of a time to live is the seconds of a day, up to the greatest
/// number there is.
pub proof fn ttl_of_days(n: nat)
    requires
        n <= u64::MAX,
    ensures
        units(decimal(n), 86400, TtlError::Days) == Ok::<u64, TtlError>(product(n, 86400)),
{
    crate::numeral::decimal_reads_back(n, u64::MAX as nat);
}

} // verus!
