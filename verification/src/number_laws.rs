//! Numbers as text, texts in order, and words.

use crate::numeral::{
    decimal, decimal_reads_back, digit, digits_value, hexadecimal, read_number, signed_decimal,
};
use crate::order::text_le;
use crate::text::{is_space, lemma_word_end, word_end, words_from, words_of};
use vstd::prelude::*;

verus! {

/// A number is written digit by digit: up to nine as the digit, and any other as what
/// it is written as without its last digit, and then that digit. In base sixteen the
/// digits go on with the letters from `a`.
pub proof fn numbers_are_written_digit_by_digit(n: nat, d: nat)
    ensures
        d < 10 ==> decimal(d).len() == 1 && decimal(d)[0] as u32 == 48 + d,
        d < 10 && n > 0 ==> decimal(10 * n + d) == decimal(n) + decimal(d),
        d < 10 ==> hexadecimal(d).len() == 1 && hexadecimal(d)[0] as u32 == 48 + d,
        10 <= d < 16 ==> hexadecimal(d).len() == 1 && hexadecimal(d)[0] as u32 == 87 + d,
        d < 16 && n > 0 ==> hexadecimal(16 * n + d) == hexadecimal(n) + hexadecimal(d),
{
    if d < 10 && n > 0 {
        let m = 10 * n + d;
        assert(m / 10 == n && m % 10 == d);
        assert(decimal(m) =~= decimal(n) + decimal(d));
    }
    if d < 16 && n > 0 {
        let m = 16 * n + d;
        assert(m / 16 == n && m % 16 == d);
        assert(hexadecimal(m) =~= hexadecimal(n) + hexadecimal(d));
    }
}

/// A negative number is written behind a minus sign.
pub proof fn negative_numbers_have_a_sign(n: nat)
    ensures
        signed_decimal(n as int) == decimal(n),
        n > 0 ==> signed_decimal(-(n as int)) == seq!['-'] + decimal(n),
{
}

/// A text is read as the number that it writes, with or without a plus sign, if that
/// is not too great; one with anything but digits, or without any, is no number.
pub proof fn numbers_are_read_as_written(n: nat, max: nat, s: Seq<char>, i: int)
    ensures
        read_number(decimal(n), max) == if n <= max {
            Some(n)
        } else {
            None
        },
        read_number(seq!['+'] + decimal(n), max) == if n <= max {
            Some(n)
        } else {
            None
        },
        read_number(Seq::empty(), max) is None,
        0 < i < s.len() && !('0' <= s[i] <= '9') ==> read_number(s, max) is None,
        s.len() > 0 && s[0] != '+' && !('0' <= s[0] <= '9') ==> read_number(s, max) is None,
{
    decimal_reads_back(n, if n <= max {
        max
    } else {
        n
    });
    lemma_plain(n);
    let p = seq!['+'] + decimal(n);
    assert(p.skip(1) =~= decimal(n));
    if 0 < i < s.len() && !('0' <= s[i] <= '9') {
        lemma_no_number(s, i);
        lemma_no_number(s.skip(1), i - 1);
    }
    if s.len() > 0 && s[0] != '+' && !('0' <= s[0] <= '9') {
        lemma_no_number(s, 0);
    }
}

proof fn lemma_plain(n: nat)
    ensures
        decimal(n).len() > 0,
        decimal(n)[0] != '+',
        digits_value(decimal(n)) == Some(n),
    decreases n,
{
    reveal_with_fuel(digits_value, 2);
    let s = decimal(n);
    if n < 10 {
        assert(s.drop_last() =~= Seq::<char>::empty());
        assert(s.last() == digit(n));
    } else {
        lemma_plain(n / 10);
        assert(s.drop_last() =~= decimal(n / 10));
        assert(s.last() == digit(n % 10));
        assert(s[0] == decimal(n / 10)[0]);
        assert(n == (n / 10) * 10 + n % 10);
    }
}

proof fn lemma_no_number(s: Seq<char>, i: int)
    requires
        0 <= i < s.len(),
        !('0' <= s[i] <= '9'),
    ensures
        digits_value(s) is None,
    decreases s.len(),
{
    if i < s.len() - 1 {
        lemma_no_number(s.drop_last(), i);
    }
}

/// Texts stand in the order of a dictionary: by the first character in which they
/// differ, and a text stands before those that it begins.
pub proof fn texts_stand_in_order(front: Seq<char>, a: char, b: char, x: Seq<char>, y: Seq<char>)
    ensures
        text_le(front, front + x),
        x.len() > 0 ==> !text_le(front + x, front),
        (a as u32) < (b as u32) ==> text_le(front + seq![a] + x, front + seq![b] + y)
            && !text_le(front + seq![b] + y, front + seq![a] + x),
    decreases front.len(),
{
    if front.len() > 0 {
        let rest = front.drop_first();
        texts_stand_in_order(rest, a, b, x, y);
        assert((front + x).drop_first() =~= rest + x);
        assert((front + seq![a] + x).drop_first() =~= rest + seq![a] + x);
        assert((front + seq![b] + y).drop_first() =~= rest + seq![b] + y);
        assert((front + x)[0] == front[0]);
        assert((front + seq![a] + x)[0] == front[0]);
        assert((front + seq![b] + y)[0] == front[0]);
    } else {
        assert((front + seq![a] + x)[0] == a);
        assert((front + seq![b] + y)[0] == b);
    }
}

/// Words are what stands between white space: a word, white space and a text have the
/// word and then the words of the text, and white space in front adds none.
pub proof fn words_are_what_stands_between_white_space(
    word: Seq<char>,
    space: char,
    rest: Seq<char>,
)
    requires
        is_space(space),
        forall|i: int| 0 <= i < word.len() ==> !is_space(#[trigger] word[i]),
        word.len() > 0,
    ensures
        words_of(word) == seq![word],
        words_of(word + seq![space] + rest) == seq![word] + words_of(rest),
        words_of(seq![space] + rest) == words_of(rest),
        words_of(Seq::empty()) == Seq::<Seq<char>>::empty(),
{
    let n = word.len() as int;
    let s = word + seq![space] + rest;
    lemma_end_at(word, 0, n);
    lemma_end_at(s, 0, n);
    assert(word.subrange(0, n) =~= word);
    assert(s.subrange(0, n) =~= word);
    assert(s[n] == space);
    lemma_words_shift(word + seq![space], rest, 0);
    lemma_words_shift(seq![space], rest, 0);
    assert(words_from(s, n) == words_from(s, n + 1));
    assert(words_from(word, n) == Seq::<Seq<char>>::empty());
    assert(seq![word] + Seq::<Seq<char>>::empty() =~= seq![word]);
    assert((seq![space] + rest)[0] == space);
}

proof fn lemma_end_at(s: Seq<char>, i: int, k: int)
    requires
        0 <= i <= k <= s.len(),
        forall|j: int| i <= j < k ==> !is_space(#[trigger] s[j]),
        k < s.len() ==> is_space(s[k]),
    ensures
        word_end(s, i) == k,
    decreases k - i,
{
    if i < k {
        lemma_end_at(s, i + 1, k);
    }
}

proof fn lemma_end_shift(p: Seq<char>, s: Seq<char>, i: int)
    requires
        0 <= i <= s.len(),
    ensures
        word_end(p + s, p.len() + i) == p.len() + word_end(s, i),
    decreases s.len() - i,
{
    if i < s.len() {
        assert((p + s)[p.len() + i] == s[i]);
        if !is_space(s[i]) {
            lemma_end_shift(p, s, i + 1);
        }
    }
}

proof fn lemma_words_shift(p: Seq<char>, s: Seq<char>, i: int)
    requires
        0 <= i <= s.len(),
    ensures
        words_from(p + s, p.len() + i) == words_from(s, i),
    decreases s.len() - i,
{
    if i < s.len() {
        assert((p + s)[p.len() + i] == s[i]);
        if is_space(s[i]) {
            lemma_words_shift(p, s, i + 1);
        } else {
            lemma_word_end(s, i);
            lemma_end_shift(p, s, i);
            let k = word_end(s, i);
            assert((p + s).subrange(p.len() + i, p.len() + k) =~= s.subrange(i, k));
            lemma_words_shift(p, s, k);
        }
    }
}

} // verus!
