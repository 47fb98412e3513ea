//! What the program's commands ask for and print.

use crate::json::Tree;
use crate::number_laws::numbers_are_read_as_written;
use crate::numeral::{decimal, read_number};
use crate::remote::{
    device_text, enroll_lines, hub_lines, open_line, remote_line, ttl_seconds, TtlError,
};
use crate::text::{ends, trimmed};
use crate::tls::{Device, Enrollment};
use crate::turn_effort::{Outcome, ReasoningEffort, TurnEffortCommand};
use crate::version::{installed_text, VersionFacts};
use vstd::prelude::*;

verus! {

/// A time to live is a number of days, of hours or of seconds, as its last letter
/// says, whatever white space is round it: that many seconds, or the most there are.
/// What is no number is refused for what it was to be a number of.
pub proof fn time_to_live_is_in_its_unit(s: Seq<char>, n: nat)
    requires
        n <= u64::MAX,
    ensures
        trimmed(s) == decimal(n) + seq!['d'] ==> ttl_seconds(s) == Ok::<u64, TtlError>(
            if n * 86400 > u64::MAX {
                u64::MAX
            } else {
                (n * 86400) as u64
            },
        ),
        trimmed(s) == decimal(n) + seq!['h'] ==> ttl_seconds(s) == Ok::<u64, TtlError>(
            if n * 3600 > u64::MAX {
                u64::MAX
            } else {
                (n * 3600) as u64
            },
        ),
        trimmed(s) == decimal(n) ==> ttl_seconds(s) == Ok::<u64, TtlError>(n as u64),
{
    reveal_strlit("d");
    reveal_strlit("h");
    numbers_are_read_as_written(n, u64::MAX as nat, s, 0);
    crate::numeral::written_is_digits(n, 10);
    let t = trimmed(s);
    let k = t.len() as int;
    if t == decimal(n) + seq!['d'] {
        assert(t.skip(k - 1) =~= "d"@);
        assert(t.take(k - 1) =~= decimal(n));
    }
    if t == decimal(n) + seq!['h'] {
        assert(t.skip(k - 1) =~= "h"@);
        assert(t.skip(k - 1)[0] == 'h');
        assert("d"@[0] == 'd');
        assert(t.take(k - 1) =~= decimal(n));
    }
    if t == decimal(n) {
        lemma_not_empty(n);
        if ends(t, "d"@) {
            assert(t.skip(k - 1)[0] == "d"@[0]);
        }
        if ends(t, "h"@) {
            assert(t.skip(k - 1)[0] == "h"@[0]);
        }
        assert(n * 1 == n);
    }
}

proof fn lemma_not_empty(n: nat)
    ensures
        decimal(n).len() > 0,
{
}

/// A time to live that is no number is refused.
pub proof fn time_to_live_is_a_number(s: Seq<char>, t: Seq<char>)
    requires
        read_number(t, u64::MAX as nat) is None,
    ensures
        trimmed(s) == t + seq!['d'] ==> ttl_seconds(s) == Err::<u64, TtlError>(TtlError::Days),
        trimmed(s) == t + seq!['h'] ==> ttl_seconds(s) == Err::<u64, TtlError>(TtlError::Hours),
        trimmed(s) == t && !ends(t, "d"@) && !ends(t, "h"@) ==> ttl_seconds(s) == Err::<
            u64,
            TtlError,
        >(TtlError::Seconds),
{
    reveal_strlit("d");
    reveal_strlit("h");
    let u = trimmed(s);
    let k = u.len() as int;
    if u == t + seq!['d'] {
        assert(u.skip(k - 1) =~= "d"@);
        assert(u.take(k - 1) =~= t);
    }
    if u == t + seq!['h'] {
        assert(u.skip(k - 1) =~= "h"@);
        assert(u.skip(k - 1)[0] == 'h');
        assert("d"@[0] == 'd');
        assert(u.take(k - 1) =~= t);
    }
}

/// The number under a key of what the hub says, zero if there is none.
pub open spec fn number_at(t: Tree, key: Seq<char>) -> nat {
    match t.get(key) {
        Some(Tree::Int(n)) => if 0 <= n <= u64::MAX {
            n as nat
        } else {
            0
        },
        _ => 0,
    }
}

/// The text under a key of what the hub says, a dash if there is none.
pub open spec fn text_at(t: Tree, key: Seq<char>) -> Seq<char> {
    match t.get(key) {
        Some(Tree::Str(s)) => s,
        _ => "-"@,
    }
}

/// What is printed of the network listener: where it is once it was opened, and
/// whether it is open, where, and for how many devices.
pub proof fn listener_is_printed(t: Tree)
    ensures
        open_line(t) == "LAN TLS "@ + text_at(t, "host"@) + ":"@ + decimal(number_at(t, "port"@))
            + "  alpn "@ + "gtm-hub"@,
        remote_line(t) == "lan "@ + (if t.get("lan"@) == Some(Tree::Bool(true)) {
            "true"@
        } else {
            "false"@
        }) + "  "@ + text_at(t, "host"@) + ":"@ + decimal(number_at(t, "port"@)) + "  devices "@
            + decimal(number_at(t, "devices"@)),
{
}

/// What is printed of a device: its id, when it expires, and its fingerprint; and of
/// one that was just let in where its file is, which device and hub it is for, and
/// where to connect.
pub proof fn devices_are_printed(d: Device, e: Enrollment, path: Seq<char>)
    ensures
        device_text(d) == d.id + "  expires "@ + decimal(d.expires as nat) + "  fp "@ + d.fp,
        enroll_lines(e, path).len() == 3,
        enroll_lines(e, path)[0] == "wrote "@ + path,
        enroll_lines(e, path)[1] == "device "@ + e.device_id + "  hub "@ + e.hub_id
            + "  connect "@ + e.host + ":"@ + decimal(e.port as nat),
        enroll_lines(e, path)[2] == "Copy "@ + path
            + " to the phone (file mode 0600). The CA private key is not in this file."@,
{
}

/// What is printed of the hub: its process, its socket and its protocol, and then a
/// line for each session that it knows of, with who runs it and what it is called, or
/// one that there is none.
pub proof fn hub_is_printed(info: Tree, hello: Tree, i: int)
    ensures
        ({
            let lines = hub_lines(info, hello);
            &&& lines.len() > 0
            &&& lines[0] == "gtm hub pid "@ + decimal(number_at(info, "pid"@)) + "  socket "@
                + text_at(info, "socket"@) + "  protocol "@ + decimal(
                number_at(hello, "protocolVersion"@),
            )
            &&& match info.get("live"@) {
                Some(Tree::Array(live)) => if live.len() == 0 {
                    &&& lines.len() == 2
                    &&& lines[1]
                        == "live sessions: none (TUI is not hosting; phone turns spawn a private agent)"@
                } else {
                    &&& lines.len() == live.len() + 2
                    &&& lines[1] == "live sessions:"@
                    &&& 0 <= i < live.len() ==> lines[i + 2] == "  "@ + text_at(live[i], "id"@)
                        + "  ["@ + (if live[i].get("hosted"@) == Some(Tree::Bool(true)) {
                        "TUI host"@
                    } else {
                        "hub actor"@
                    }) + "]  "@ + (match live[i].get("title"@) {
                        Some(Tree::Str(s)) => s,
                        _ => Seq::empty(),
                    })
                },
                _ => lines.len() == 1,
            }
        }),
{
}

/// What the program says of its version: the fork's with the version that it was
/// built from, or the plain one with its channel's label. A version with its commit
/// stands in for one without once it was told.
pub proof fn versions_are_printed(v: VersionFacts, label: Seq<char>)
    ensures
        ({
            let full = match v.full {
                Some(s) => s,
                None => v.build,
            };
            let fork = match v.gtm_full {
                Some(s) => s,
                None => v.gtm,
            };
            &&& v.full_version() == full
            &&& v.gtm_full_version() == fork
            &&& v.gtm_cli ==> v.text(label) == "gtm "@ + fork + "\nGrok Build "@ + v.build + "\n"@
            &&& !v.gtm_cli ==> v.text(label) == "grok "@ + (full + label) + "\n"@
            &&& v.gtm_cli ==> v.line(label) == fork + " (Grok Build "@ + v.build + ")"@
            &&& !v.gtm_cli ==> v.line(label) == full + label
        }),
{
}

/// The installed version is what the setting says, without white space round it, or
/// else the one that the program was built as.
pub proof fn installed_version_is_set_or_built(v: VersionFacts, setting: Seq<char>)
    ensures
        installed_text(v, Some(setting)) == trimmed(setting),
        installed_text(v, None) == v.build,
{
}

/// A command for an effort needs a prompt, and says how it is used without one; then
/// it needs a model, and says so without one; then it needs the model to accept the
/// effort, and says why not where it does not. With all three it sends the prompt at
/// the effort that the model gives, and shows it behind the command.
pub proof fn effort_commands_send_a_prompt(
    c: TurnEffortCommand,
    args: Seq<char>,
    model: bool,
    effort: ReasoningEffort,
    refusal: Seq<char>,
)
    ensures
        ({
            let name = match c.level {
                ReasoningEffort::Off => "none"@,
                ReasoningEffort::Minimal => "minimal"@,
                ReasoningEffort::Low => "low"@,
                ReasoningEffort::Medium => "medium"@,
                ReasoningEffort::High => "high"@,
                ReasoningEffort::Xhigh => "xhigh"@,
                ReasoningEffort::Max => "max"@,
            };
            &&& c.level.label() == name
            &&& trimmed(args).len() == 0 ==> c.outcome(args, model, Ok(effort)) == Outcome::Error(
                "Usage: "@ + ("/"@ + name + " <prompt>"@),
            )
            &&& trimmed(args).len() == 0 ==> c.outcome(args, model, Err(refusal))
                == Outcome::Error("Usage: "@ + ("/"@ + name + " <prompt>"@))
            &&& trimmed(args).len() > 0 && !model ==> c.outcome(args, model, Ok(effort))
                == Outcome::Error("No active model"@)
            &&& trimmed(args).len() > 0 && model ==> c.outcome(args, model, Err(refusal))
                == Outcome::Error(refusal)
            &&& trimmed(args).len() > 0 && model ==> c.outcome(args, model, Ok(effort)) == (
            Outcome::Prompt {
                shown: "/"@ + name + " "@ + trimmed(args),
                text: trimmed(args),
                effort,
            })
        }),
{
}

} // verus!
