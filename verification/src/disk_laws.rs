//! What is made of the files that sessions leave on disk: their titles, their
//! directories, and which of them are a client's to pick.

use crate::json::Tree;
use crate::listing_laws::summary_of;
use crate::sessions::{
    cwd_in, disk_cwd, disk_title, hex_pair, hex_value, of_subagent, percent_decoded, title_in,
    unescaped, Stored,
};
use crate::text::{ascii_lower, trimmed};
use vstd::prelude::*;
use vstd::utf8::{encode_utf8, encode_utf8_decode_utf8, encode_utf8_valid_utf8};

verus! {

/// The text of an optional value, nothing if it is none.
pub open spec fn text_in(o: Option<Tree>) -> Seq<char> {
    match o {
        Some(Tree::Str(s)) => s,
        _ => Seq::empty(),
    }
}

/// A session's title is the one that was made for it, or else what its summary says
/// in short, or else its own: the first that is there counts, even if it says
/// nothing.
pub proof fn title_is_the_first_that_is_there(summary: Tree)
    ensures
        title_in(summary) == text_in(
            if summary.get("generated_title"@) is Some {
                summary.get("generated_title"@)
            } else if summary.get("generatedTitle"@) is Some {
                summary.get("generatedTitle"@)
            } else if summary.get("session_summary"@) is Some {
                summary.get("session_summary"@)
            } else if summary.get("sessionSummary"@) is Some {
                summary.get("sessionSummary"@)
            } else {
                summary.get("title"@)
            },
        ),
{
}

/// A session was started by another one exactly if its kind begins with the word for
/// that, in capital or small letters.
pub proof fn subagents_are_known_by_their_kind(summary: Tree)
    ensures
        ({
            let kind = if summary.get("session_kind"@) is Some {
                summary.get("session_kind"@)
            } else {
                summary.get("sessionKind"@)
            };
            of_subagent(summary) <==> (kind matches Some(Tree::Str(s)) && s.len() >= 8
                && ascii_lower(s.take(8)) == "subagent"@)
        }),
{
    reveal_strlit("subagent");
    if let Some(s) = summary.either_str("session_kind"@, "sessionKind"@) {
        if s.len() >= 8 {
            assert(ascii_lower(s).take(8) =~= ascii_lower(s.take(8)));
        }
    }
}

/// A session's directory is the one that its summary names, there or under its
/// information; or else the one that its group notes, without white space round it;
/// or else the path that the group's name stands for, if that is one from the root.
pub proof fn directory_is_the_first_that_is_known(
    summary: Tree,
    noted: Option<Seq<char>>,
    group: Seq<char>,
)
    ensures
        ({
            let said = text_in(
                match (summary.get("cwd"@), summary.get("info"@)) {
                    (Some(t), _) => Some(t),
                    (None, Some(info)) => info.get("cwd"@),
                    (None, None) => None,
                },
            );
            let note = match noted {
                Some(s) => trimmed(s),
                None => Seq::empty(),
            };
            cwd_in(summary, noted, group) == if said.len() > 0 {
                Some(said)
            } else if note.len() > 0 {
                Some(note)
            } else {
                match percent_decoded(group) {
                    Some(s) => if s.len() > 0 && s[0] == '/' {
                        Some(s)
                    } else {
                        None
                    },
                    None => None,
                }
            }
        }),
{
    reveal_strlit("/");
    if let Some(s) = percent_decoded(group) {
        if s.len() > 0 {
            assert(s.take(1)[0] == s[0]);
            if s[0] == '/' {
                assert(s.take(1) =~= "/"@);
            }
        }
    }
}

/// What the disk knows of a session: its title if it has one, and its directory.
pub proof fn disk_knows_title_and_directory(s: Stored)
    ensures
        disk_title(None) is None,
        disk_cwd(None) is None,
        disk_title(Some(s)) == if title_in(summary_of(s)).len() > 0 {
            Some(title_in(summary_of(s)))
        } else {
            None
        },
        disk_cwd(Some(s)) == cwd_in(summary_of(s), s.group_cwd, s.group),
{
}

/// A hexadecimal digit, in capital letters.
pub open spec fn hex_digit(n: int) -> u8 {
    if n < 10 {
        (48 + n) as u8
    } else {
        (55 + n) as u8
    }
}

/// Bytes with some of them written as a percent sign and two hexadecimal digits.
pub open spec fn escaped(raw: Seq<u8>, which: Seq<bool>) -> Seq<u8>
    decreases raw.len(),
{
    if raw.len() == 0 || which.len() == 0 {
        Seq::empty()
    } else {
        (if which[0] {
            seq![37u8, hex_digit(raw[0] as int / 16), hex_digit(raw[0] as int % 16)]
        } else {
            seq![raw[0]]
        }) + escaped(raw.drop_first(), which.drop_first())
    }
}

proof fn lemma_unescaped_shift(p: Seq<u8>, b: Seq<u8>, i: int)
    requires
        0 <= i <= b.len(),
    ensures
        unescaped(p + b, p.len() + i) == unescaped(b, i),
    decreases b.len() - i,
{
    let s = p + b;
    let k = p.len() + i;
    if i < b.len() {
        assert(s[k] == b[i]);
        if b[i] == 37 && i + 2 < b.len() {
            assert(s[k + 1] == b[i + 1]);
            assert(s[k + 2] == b[i + 2]);
            lemma_unescaped_shift(p, b, i + 3);
        } else {
            lemma_unescaped_shift(p, b, i + 1);
        }
    }
}

proof fn lemma_hex_pair(x: u8)
    ensures
        hex_pair(hex_digit(x as int / 16), hex_digit(x as int % 16)) == Some(x),
{
    let a = x as int / 16;
    let b = x as int % 16;
    assert(0 <= a < 16);
    assert(0 <= b < 16);
    assert(hex_value(hex_digit(a)) == Some(a as u8));
    assert(hex_value(hex_digit(b)) == Some(b as u8));
    assert(16 * a + b == x);
}

proof fn lemma_unescaped(raw: Seq<u8>, which: Seq<bool>)
    requires
        raw.len() == which.len(),
        forall|i: int| 0 <= i < raw.len() && #[trigger] raw[i] == 37 ==> which[i],
    ensures
        unescaped(escaped(raw, which), 0) == Some(raw),
    decreases raw.len(),
{
    let e = escaped(raw, which);
    if raw.len() == 0 {
        assert(raw =~= Seq::empty());
    } else {
        let rest = raw.drop_first();
        let flags = which.drop_first();
        assert forall|i: int| 0 <= i < rest.len() && #[trigger] rest[i] == 37 implies flags[i] by {
            assert(raw[i + 1] == 37);
        }
        lemma_unescaped(rest, flags);
        let tail = escaped(rest, flags);
        assert(seq![raw[0]] + rest =~= raw);
        if which[0] {
            let head = seq![37u8, hex_digit(raw[0] as int / 16), hex_digit(raw[0] as int % 16)];
            lemma_hex_pair(raw[0]);
            lemma_unescaped_shift(head, tail, 0);
            assert(e == head + tail);
            assert(e[0] == 37 && e[1] == head[1] && e[2] == head[2]);
        } else {
            let head = seq![raw[0]];
            lemma_unescaped_shift(head, tail, 0);
            assert(e == head + tail);
            assert(e[0] == raw[0]);
            assert(raw[0] != 37);
        }
    }
}

/// A path is found again in the name that stands for it, whichever of its bytes are
/// written as a percent sign and two hexadecimal digits, as long as every percent
/// sign is.
pub proof fn encoded_name_gives_its_path(path: Seq<char>, which: Seq<bool>, name: Seq<char>)
    requires
        which.len() == encode_utf8(path).len(),
        forall|i: int|
            0 <= i < encode_utf8(path).len() && #[trigger] encode_utf8(path)[i] == 37 ==> which[i],
        encode_utf8(name) == escaped(encode_utf8(path), which),
    ensures
        percent_decoded(name) == Some(path),
{
    lemma_unescaped(encode_utf8(path), which);
    encode_utf8_valid_utf8(path);
    encode_utf8_decode_utf8(path);
}

/// A name in which a percent sign stands before something that is no hexadecimal
/// number stands for no path.
pub proof fn badly_encoded_name_gives_none(b: Seq<u8>, i: int)
    requires
        0 <= i,
        i + 2 < b.len(),
        b[i] == 37,
        forall|k: int| 0 <= k < i ==> #[trigger] b[k] != 37,
        !(48 <= b[i + 2] <= 57) && !(65 <= b[i + 2] <= 70) && !(97 <= b[i + 2] <= 102),
    ensures
        unescaped(b, 0) is None,
{
    lemma_bad(b, 0, i);
}

proof fn lemma_bad(b: Seq<u8>, k: int, i: int)
    requires
        0 <= k <= i,
        i + 2 < b.len(),
        b[i] == 37,
        forall|j: int| 0 <= j < i ==> #[trigger] b[j] != 37,
        hex_value(b[i + 2]) is None,
    ensures
        unescaped(b, k) is None,
    decreases i - k,
{
    if k < i {
        lemma_bad(b, k + 1, i);
    }
}

} // verus!
