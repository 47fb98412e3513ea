//! Numbers in text: printing in base ten and sixteen, reading in base ten.

use crate::text::chars_of;
use vstd::prelude::*;

verus! {

/// The digit for `d`, lower case above nine.
pub open spec fn digit(d: nat) -> char {
    if d < 10 {
        (48 + d) as char
    } else {
        (87 + d) as char
    }
}

/// `n` written in the given base, without leading zeros.
pub open spec fn written(n: nat, base: nat) -> Seq<char>
    decreases n,
{
    if base < 2 || n < base {
        seq![digit(n)]
    } else {
        proof {
            assert(n / base < n) by (nonlinear_arith)
                requires
                    n >= base,
                    base >= 2,
            ;
        }
        written(n / base, base).push(digit(n % base))
    }
}

/// `n` in base ten.
pub open spec fn decimal(n: nat) -> Seq<char> {
    written(n, 10)
}

/// `n` in base ten, with a minus sign if it is negative.
pub open spec fn signed_decimal(n: int) -> Seq<char> {
    if n < 0 {
        seq!['-'] + decimal((-n) as nat)
    } else {
        decimal(n as nat)
    }
}

/// `n` in base sixteen.
pub open spec fn hexadecimal(n: nat) -> Seq<char> {
    written(n, 16)
}

/// A number is written in digits alone, lower case above nine.
pub proof fn written_is_digits(n: nat, base: nat)
    requires
        2 <= base <= 16,
    ensures
        forall|i: int|
            0 <= i < written(n, base).len() ==> ('0' <= #[trigger] written(n, base)[i] <= '9') || (
            'a' <= written(n, base)[i] <= 'f'),
    decreases n,
{
    if n >= base {
        assert(n / base < n && n % base < base) by (nonlinear_arith)
            requires
                n >= base,
                base >= 2,
        ;
        written_is_digits(n / base, base);
        let front = written(n / base, base);
        assert forall|i: int| 0 <= i < written(n, base).len() implies ('0' <= #[trigger] written(
            n,
            base,
        )[i] <= '9') || ('a' <= written(n, base)[i] <= 'f') by {
            if i < front.len() {
                assert(written(n, base)[i] == front[i]);
            } else {
                assert(written(n, base)[i] == digit(n % base));
            }
        }
    }
}

/// The digit for `d`, lower case above nine.
pub fn digit_char(d: u8) -> (r: char)
    requires
        d < 16,
    ensures
        r == digit(d as nat),
{
    if d < 10 {
        (48 + d) as char
    } else {
        (87 + d) as char
    }
}

/// `n` written in a base from two to sixteen.
fn write_base(n: u64, base: u64) -> (r: String)
    requires
        2 <= base <= 16,
    ensures
        r@ == written(n as nat, base as nat),
    decreases n,
{
    if n < base {
        let mut out: String = String::new();
        out.push(digit_char(n as u8));
        proof {
            assert(out@ =~= seq![digit(n as nat)]);
        }
        out
    } else {
        proof {
            assert(n / base < n) by (nonlinear_arith)
                requires
                    n >= base,
                    base >= 2,
            ;
        }
        let mut out: String = write_base(n / base, base);
        out.push(digit_char((n % base) as u8));
        out
    }
}

/// `n` in base ten.
pub fn to_decimal(n: u64) -> (r: String)
    ensures
        r@ == decimal(n as nat),
{
    write_base(n, 10)
}

/// `n` in base ten, with a minus sign if it is negative.
pub fn to_signed_decimal(n: i64) -> (r: String)
    ensures
        r@ == signed_decimal(n as int),
{
    if n < 0 {
        let m: i128 = 0 - (n as i128);
        let mut out: String = String::new();
        out.push('-');
        out.push_str(to_decimal(m as u64).as_str());
        proof {
            assert(seq!['-'] =~= Seq::<char>::empty().push('-'));
        }
        out
    } else {
        to_decimal(n as u64)
    }
}

/// `n` in base sixteen.
pub fn to_hexadecimal(n: u64) -> (r: String)
    ensures
        r@ == hexadecimal(n as nat),
{
    write_base(n, 16)
}

/// The value of a decimal digit.
pub open spec fn digit_value(c: char) -> Option<nat> {
    if '0' <= c <= '9' {
        Some((c as u32 - 48) as nat)
    } else {
        None
    }
}

/// The number that the decimal digits `s` write, if all are digits. Nothing
/// stands for zero.
pub open spec fn digits_value(s: Seq<char>) -> Option<nat>
    decreases s.len(),
{
    if s.len() == 0 {
        Some(0)
    } else {
        match (digits_value(s.drop_last()), digit_value(s.last())) {
            (Some(n), Some(d)) => Some(n * 10 + d),
            _ => None,
        }
    }
}

/// The number of at most `max` that `s` writes in base ten: at least one
/// digit, with or without a plus sign in front.
pub open spec fn read_number(s: Seq<char>, max: nat) -> Option<nat> {
    let body = if s.len() > 0 && s[0] == '+' {
        s.skip(1)
    } else {
        s
    };
    if body.len() == 0 {
        None
    } else {
        capped(digits_value(body), max)
    }
}

/// A number if there is one and it is at most `max`.
pub open spec fn capped(n: Option<nat>, max: nat) -> Option<nat> {
    match n {
        Some(k) => if k <= max {
            Some(k)
        } else {
            None
        },
        None => None,
    }
}

/// A prefix of digits is worth no more than the whole, and no digit string
/// has a prefix that is none.
proof fn lemma_prefix_value(s: Seq<char>, k: int)
    requires
        0 <= k <= s.len(),
    ensures
        digits_value(s) is Some ==> digits_value(s.take(k)) is Some && digits_value(s.take(k))->0
            <= digits_value(s)->0,
    decreases s.len() - k,
{
    if k == s.len() {
        assert(s.take(k) =~= s);
    } else {
        lemma_prefix_value(s, k + 1);
        assert(s.take(k + 1).drop_last() =~= s.take(k));
    }
}

/// The value of a decimal digit.
fn read_digit(c: char) -> (r: Option<u64>)
    ensures
        match r {
            Some(d) => digit_value(c) == Some(d as nat) && d < 10,
            None => digit_value(c) is None,
        },
{
    let n: u32 = c as u32;
    if 48 <= n && n <= 57 {
        Some((n - 48) as u64)
    } else {
        None
    }
}

/// The number of at most `max` that `s` writes in base ten.
pub fn parse_number(s: &str, max: u64) -> (r: Option<u64>)
    ensures
        match r {
            Some(n) => read_number(s@, max as nat) == Some(n as nat),
            None => read_number(s@, max as nat) is None,
        },
{
    let v: Vec<char> = chars_of(s);
    let start: usize = if v.len() > 0 && v[0] == '+' {
        1
    } else {
        0
    };
    let ghost body = s@.skip(start as int);
    proof {
        if start == 0 {
            assert(body =~= s@);
        }
    }
    if start == v.len() {
        return None;
    }
    let mut i: usize = start;
    let mut n: u64 = 0;
    while i < v.len()
        invariant
            start <= i <= v.len(),
            v@ == s@,
            start < v.len(),
            body == s@.skip(start as int),
            read_number(s@, max as nat) == capped(digits_value(body), max as nat),
            digits_value(body.take(i - start)) == Some(n as nat),
            n <= max,
        decreases v@.len() - i,
    {
        let ghost next = body.take(i + 1 - start);
        proof {
            assert(next.drop_last() =~= body.take(i - start));
            assert(next.last() == v@[i as int]);
            lemma_prefix_value(body, i + 1 - start);
        }
        let d: u64 = match read_digit(v[i]) {
            Some(d) => d,
            None => {
                return None;
            },
        };
        let m: u128 = (n as u128) * 10 + (d as u128);
        proof {
            assert(digits_value(next) == Some(m as nat));
        }
        if m > max as u128 {
            return None;
        }
        n = m as u64;
        i = i + 1;
    }
    proof {
        assert(body.take(body.len() as int) =~= body);
    }
    Some(n)
}

/// Reading what was printed gives the number back.
pub proof fn decimal_reads_back(n: nat, max: nat)
    requires
        n <= max,
    ensures
        read_number(decimal(n), max) == Some(n),
{
    lemma_decimal_value(n);
}

/// A printed number is made of digits that are worth it.
proof fn lemma_decimal_value(n: nat)
    ensures
        digits_value(decimal(n)) == Some(n),
        decimal(n).len() > 0,
        decimal(n)[0] != '+',
    decreases n,
{
    reveal_with_fuel(digits_value, 2);
    if n < 10 {
        let s = decimal(n);
        assert(s.drop_last() =~= Seq::<char>::empty());
        assert(s.last() == digit(n));
    } else {
        lemma_decimal_value(n / 10);
        let s = decimal(n);
        assert(s.drop_last() =~= decimal(n / 10));
        assert(s.last() == digit(n % 10));
    }
}

} // verus!
