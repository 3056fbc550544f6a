//! Whole numbers written in decimal.

use vstd::prelude::*;
use vstd::string::*;

use crate::text::chars_of;

verus! {

/// The character of one decimal digit.
pub open spec fn digit(d: nat) -> char
    recommends
        d < 10,
{
    ((('0' as u32) as nat) + d) as char
}

/// A natural number in decimal, without leading zeros.
pub open spec fn digits(n: nat) -> Seq<char>
    decreases n,
{
    if n < 10 {
        seq![digit(n)]
    } else {
        digits(n / 10).push(digit(n % 10))
    }
}

/// An integer in decimal, with a minus sign where it is negative.
pub open spec fn signed(n: int) -> Seq<char> {
    if n < 0 {
        seq!['-'] + digits((-n) as nat)
    } else {
        digits(n as nat)
    }
}

/// Whether a character is a decimal digit.
pub open spec fn is_digit(c: char) -> bool {
    '0' <= c <= '9'
}

/// The number that a run of decimal digits denotes.
pub open spec fn value(s: Seq<char>) -> nat
    decreases s.len(),
{
    if s.len() == 0 {
        0
    } else {
        (value(s.drop_last()) * 10 + (s.last() as nat - '0' as nat)) as nat
    }
}

/// Whether `s` is one or more decimal digits.
pub open spec fn is_digits(s: Seq<char>) -> bool {
    s.len() > 0 && forall|i: int| 0 <= i < s.len() ==> is_digit(#[trigger] s[i])
}

/// The integer that `s` denotes, where it is a sign or none and then digits, and fits 64 bits.
pub open spec fn parsed_i64(s: Seq<char>) -> Option<int> {
    let negative = s.len() > 0 && s[0] == '-';
    let body = if negative || (s.len() > 0 && s[0] == '+') {
        s.skip(1)
    } else {
        s
    };
    if !is_digits(body) {
        None
    } else {
        let n = if negative {
            -(value(body) as int)
        } else {
            value(body) as int
        };
        if i64::MIN <= n <= i64::MAX {
            Some(n)
        } else {
            None
        }
    }
}

proof fn lemma_digits(n: nat)
    ensures
        is_digits(digits(n)),
        value(digits(n)) == n,
    decreases n,
{
    if n < 10 {
        reveal_with_fuel(value, 2);
        assert(digits(n).drop_last() =~= Seq::empty());
        assert(digits(n).last() == digit(n));
    } else {
        lemma_digits(n / 10);
        assert(digits(n).drop_last() =~= digits(n / 10));
        assert(digits(n).last() == digit(n % 10));
        assert forall|i: int| 0 <= i < digits(n).len() implies is_digit(#[trigger] digits(n)[i]) by {
            if i < digits(n / 10).len() {
                assert(digits(n)[i] == digits(n / 10)[i]);
            }
        }
    }
}

/// Different numbers are written differently, also where a colon and more follow.
pub proof fn numbers_are_told_apart(a: nat, b: nat, c: nat, d: nat)
    requires
        digits(a) + seq![':'] + digits(b) == digits(c) + seq![':'] + digits(d),
    ensures
        a == c,
        b == d,
{
    lemma_digits(a);
    lemma_digits(b);
    lemma_digits(c);
    lemma_digits(d);
    let one = digits(a) + seq![':'] + digits(b);
    let other = digits(c) + seq![':'] + digits(d);
    let m = digits(a).len() as int;
    let n = digits(c).len() as int;
    assert(one[m] == ':' && other[n] == ':');
    if m < n {
        assert(other[m] == digits(c)[m]);
        assert(is_digit(digits(c)[m]));
    }
    if n < m {
        assert(one[n] == digits(a)[n]);
        assert(is_digit(digits(a)[n]));
    }
    assert(one.take(m) =~= digits(a));
    assert(other.take(n) =~= digits(c));
    assert(one.skip(m + 1) =~= digits(b));
    assert(other.skip(n + 1) =~= digits(d));
}

/// Reading back a written number gives the number.
pub proof fn parsing_inverts_writing(n: int)
    requires
        i64::MIN <= n <= i64::MAX,
    ensures
        parsed_i64(signed(n)) == Some(n),
{
    if n < 0 {
        lemma_digits((-n) as nat);
        assert(signed(n).skip(1) =~= digits((-n) as nat));
    } else {
        lemma_digits(n as nat);
        assert(is_digit(digits(n as nat)[0]));
    }
}

fn digit_char(d: u64) -> (r: char)
    requires
        d < 10,
    ensures
        r == digit(d as nat),
{
    (('0' as u8) + (d as u8)) as char
}

/// Writes an unsigned number in decimal.
pub fn write_u64(n: u64) -> (r: String)
    ensures
        r@ == digits(n as nat),
    decreases n,
{
    if n < 10 {
        let mut s = String::new();
        s.push(digit_char(n));
        assert(s@ =~= digits(n as nat));
        s
    } else {
        let mut s = write_u64(n / 10);
        s.push(digit_char(n % 10));
        s
    }
}

/// Writes a signed number in decimal.
pub fn write_i64(n: i64) -> (r: String)
    ensures
        r@ == signed(n as int),
{
    if n < 0 {
        let magnitude: u64 = if n == i64::MIN { 9223372036854775808u64 } else { (-n) as u64 };
        let mut s = String::new();
        s.push('-');
        s.append(write_u64(magnitude).as_str());
        assert(s@ =~= signed(n as int));
        s
    } else {
        write_u64(n as u64)
    }
}

/// Reads a signed number written in decimal.
pub fn parse_i64(s: &str) -> (r: Option<i64>)
    ensures
        match r {
            Some(n) => parsed_i64(s@) == Some(n as int),
            None => parsed_i64(s@) is None,
        },
{
    let chars = chars_of(s);
    let negative = chars.len() > 0 && chars[0] == '-';
    let start: usize = if negative || (chars.len() > 0 && chars[0] == '+') { 1 } else { 0 };
    let ghost body = s@.skip(start as int);
    assert(s@.skip(0) =~= s@);
    if start == chars.len() {
        return None;
    }
    let mut total: u64 = 0;
    let mut i: usize = start;
    assert(body.take(0) =~= Seq::empty());
    while i < chars.len()
        invariant
            start <= i <= chars@.len(),
            chars@ == s@,
            body == s@.skip(start as int),
            total == value(body.take(i - start)),
            total <= 9223372036854775808,
            forall|j: int| 0 <= j < i - start ==> is_digit(#[trigger] body[j]),
            parsed_i64(s@) is Some ==> is_digits(body) && value(body) <= 9223372036854775808,
        decreases chars@.len() - i,
    {
        let c = chars[i];
        proof {
            assert(body[i - start] == c);
        }
        if !('0' <= c && c <= '9') {
            return None;
        }
        let d: u64 = ((c as u8) - ('0' as u8)) as u64;
        proof {
            assert(body.take(i - start + 1).drop_last() =~= body.take(i - start));
            assert(body.take(i - start + 1).last() == c);
        }
        if total > 922337203685477580 || total * 10 + d > 9223372036854775808 {
            proof {
                if parsed_i64(s@) is Some {
                    lemma_value_grows(body, i - start + 1);
                }
            }
            return None;
        }
        total = total * 10 + d;
        i = i + 1;
    }
    assert(body.take(body.len() as int) =~= body);
    if negative {
        if total == 9223372036854775808 {
            Some(i64::MIN)
        } else {
            Some(-(total as i64))
        }
    } else if total <= 9223372036854775807 {
        Some(total as i64)
    } else {
        None
    }
}

proof fn lemma_value_grows(s: Seq<char>, k: int)
    requires
        0 <= k <= s.len(),
        is_digits(s),
    ensures
        value(s.take(k)) <= value(s),
    decreases s.len(),
{
    if k == s.len() {
        assert(s.take(k) =~= s);
    } else {
        let t = s.drop_last();
        assert(s.take(k) =~= t.take(k));
        if t.len() > 0 {
            assert forall|i: int| 0 <= i < t.len() implies is_digit(#[trigger] t[i]) by {
                assert(t[i] == s[i]);
            }
            lemma_value_grows(t, k);
        } else {
            assert(t.take(k) =~= t);
        }
        assert(is_digit(s[s.len() - 1]));
    }
}

} // verus!
