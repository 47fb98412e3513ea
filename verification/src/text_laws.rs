//! What trimming, cutting into lines and joining do to a text.

use crate::text::{
    ascii_lower, begins, ends, is_space, joined, lemma_line_end, line_end, lines_from, lines_of,
    occurs, stands_at, trim_end, trim_start, trimmed,
};
use vstd::prelude::*;

verus! {

/// Whether a text is white space all through.
pub open spec fn blank(s: Seq<char>) -> bool {
    forall|i: int| 0 <= i < s.len() ==> is_space(#[trigger] s[i])
}

proof fn lemma_trim_start(s: Seq<char>)
    ensures
        trim_start(s).len() <= s.len(),
        trim_start(s) == s.skip(s.len() - trim_start(s).len()),
        blank(s.take(s.len() - trim_start(s).len())),
        trim_start(s).len() > 0 ==> !is_space(trim_start(s)[0]),
    decreases s.len(),
{
    if s.len() > 0 && is_space(s[0]) {
        let rest = s.drop_first();
        lemma_trim_start(rest);
        let k = s.len() - trim_start(s).len();
        assert(trim_start(s) =~= s.skip(k));
        assert forall|i: int| 0 <= i < k implies is_space(#[trigger] s.take(k)[i]) by {
            if i > 0 {
                assert(rest.take(k - 1)[i - 1] == s[i]);
            }
        }
    } else {
        assert(s.skip(0) =~= s);
    }
}

proof fn lemma_trim_end(s: Seq<char>)
    ensures
        trim_end(s).len() <= s.len(),
        trim_end(s) == s.take(trim_end(s).len() as int),
        blank(s.skip(trim_end(s).len() as int)),
        trim_end(s).len() > 0 ==> !is_space(trim_end(s).last()),
    decreases s.len(),
{
    if s.len() > 0 && is_space(s.last()) {
        let front = s.drop_last();
        lemma_trim_end(front);
        let k = trim_end(s).len() as int;
        assert(trim_end(s) =~= s.take(k));
        assert forall|i: int| 0 <= i < s.len() - k implies is_space(#[trigger] s.skip(k)[i]) by {
            if k + i < front.len() {
                assert(front.skip(k)[i] == s[k + i]);
            }
        }
    } else {
        assert(s.take(s.len() as int) =~= s);
    }
}

/// Trimming takes white space off both ends, all of it, and nothing else: what it
/// took off in front and behind is blank, and what is left neither begins nor ends
/// with white space.
pub proof fn trimming_takes_the_white_space_off(s: Seq<char>) -> (k: int)
    ensures
        0 <= k <= s.len() - trimmed(s).len(),
        trimmed(s) == s.subrange(k, k + trimmed(s).len()),
        blank(s.take(k)),
        blank(s.skip(k + trimmed(s).len())),
        trimmed(s).len() > 0 ==> !is_space(trimmed(s)[0]) && !is_space(trimmed(s).last()),
{
    let t = trim_start(s);
    lemma_trim_start(s);
    lemma_trim_end(t);
    let k = s.len() - t.len();
    let n = trimmed(s).len() as int;
    assert(trimmed(s) =~= s.subrange(k, k + n));
    assert(s.skip(k + n) =~= t.skip(n));
    if n > 0 {
        assert(trimmed(s)[0] == t[0]);
    }
    k
}

/// Of ASCII, white space is the blank, the tabs, the line breaks and the form feed.
pub proof fn white_space_in_ascii(c: char)
    requires
        (c as u32) < 128,
    ensures
        is_space(c) <==> c == ' ' || c == '\t' || c == '\n' || c == '\r' || c as u32 == 11 || c
            as u32 == 12,
{
}

/// A text without a line break is one line, unless it is blank; and the lines of a
/// text are those in front of a line break, and then those behind it.
pub proof fn lines_are_what_stands_between_breaks(a: Seq<char>, b: Seq<char>)
    requires
        forall|i: int| 0 <= i < a.len() ==> #[trigger] a[i] != '\n',
    ensures
        lines_of(a) == if trimmed(a).len() == 0 {
            Seq::<Seq<char>>::empty()
        } else {
            seq![trimmed(a)]
        },
        lines_of(a + seq!['\n'] + b) == (if trimmed(a).len() == 0 {
            Seq::<Seq<char>>::empty()
        } else {
            seq![trimmed(a)]
        }) + lines_of(b),
{
    let s = a + seq!['\n'] + b;
    lemma_end_at(a, 0, a.len() as int);
    lemma_end_at(s, 0, a.len() as int);
    assert(a.subrange(0, a.len() as int) =~= a);
    assert(s.subrange(0, a.len() as int) =~= a);
    lemma_lines_shift(a + seq!['\n'], b, 0);
    assert(seq![trimmed(a)] + Seq::<Seq<char>>::empty() =~= seq![trimmed(a)]);
    assert(Seq::<Seq<char>>::empty() + lines_of(b) =~= lines_of(b));
}

proof fn lemma_end_at(s: Seq<char>, i: int, k: int)
    requires
        0 <= i <= k <= s.len(),
        forall|j: int| i <= j < k ==> #[trigger] s[j] != '\n',
        k < s.len() ==> s[k] == '\n',
    ensures
        line_end(s, i) == k,
    decreases k - i,
{
    if i < k {
        lemma_end_at(s, i + 1, k);
    }
}

proof fn lemma_end_shift(p: Seq<char>, s: Seq<char>, i: int)
    requires
        0 <= i <= s.len(),
    ensures
        line_end(p + s, p.len() + i) == p.len() + line_end(s, i),
    decreases s.len() - i,
{
    if i < s.len() {
        assert((p + s)[p.len() + i] == s[i]);
        if s[i] != '\n' {
            lemma_end_shift(p, s, i + 1);
        }
    }
}

proof fn lemma_lines_shift(p: Seq<char>, s: Seq<char>, i: int)
    requires
        0 <= i <= s.len(),
    ensures
        lines_from(p + s, p.len() + i) == lines_from(s, i),
    decreases s.len() - i,
{
    lemma_line_end(s, i);
    lemma_end_shift(p, s, i);
    let k = line_end(s, i);
    assert((p + s).subrange(p.len() + i, p.len() + k) =~= s.subrange(i, k));
    if k < s.len() {
        lemma_lines_shift(p, s, k + 1);
    }
}

/// Joining puts the separator between each two parts, and nowhere else.
pub proof fn joining_puts_the_separator_between(
    parts: Seq<Seq<char>>,
    more: Seq<char>,
    sep: Seq<char>,
)
    ensures
        joined(Seq::empty(), sep) == Seq::<char>::empty(),
        joined(seq![more], sep) == more,
        parts.len() > 0 ==> joined(parts.push(more), sep) == joined(parts, sep) + sep + more,
{
    assert(parts.push(more).drop_last() =~= parts);
}

/// A text in lower case is as long, has a small letter where it had a capital one
/// of ASCII, and is the same elsewhere.
pub proof fn lower_case_changes_capitals_only(s: Seq<char>, i: int)
    requires
        0 <= i < s.len(),
    ensures
        ascii_lower(s).len() == s.len(),
        'A' <= s[i] <= 'Z' ==> ascii_lower(s)[i] as u32 == s[i] as u32 + 32,
        !('A' <= s[i] <= 'Z') ==> ascii_lower(s)[i] == s[i],
{
}

/// What begins, ends or holds a text.
pub proof fn texts_hold_their_parts(a: Seq<char>, b: Seq<char>, c: Seq<char>)
    ensures
        begins(a + b, a),
        ends(a + b, b),
        occurs(a + b + c, b),
        begins(c, a) ==> exists|rest: Seq<char>| c == a + rest,
        ends(c, a) ==> exists|front: Seq<char>| c == front + a,
{
    assert((a + b).take(a.len() as int) =~= a);
    assert((a + b).skip(a.len() as int) =~= b);
    assert((a + b + c).subrange(a.len() as int, (a.len() + b.len()) as int) =~= b);
    assert(stands_at(a + b + c, b, a.len() as int));
    if begins(c, a) {
        assert(c =~= a + c.skip(a.len() as int));
    }
    if ends(c, a) {
        assert(c =~= c.take(c.len() - a.len()) + a);
    }
}

} // verus!
