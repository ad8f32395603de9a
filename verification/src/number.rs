//! Decimal numbers as text: writing them and reading them back.

use vstd::prelude::*;

verus! {

/// The character is one of `0` to `9`.
pub open spec fn is_digit(c: char) -> bool {
    0x30 <= c as u32 <= 0x39
}

/// The value of a decimal digit.
pub open spec fn digit_value(c: char) -> nat {
    (c as u32 - 0x30) as nat
}

/// The decimal digit with the given value.
pub open spec fn digit_char(d: nat) -> char {
    (d + 0x30) as char
}

/// The decimal form of a number, without sign or leading zeros.
pub open spec fn decimal(n: nat) -> Seq<char>
    decreases n,
{
    if n < 10 {
        seq![digit_char(n)]
    } else {
        decimal(n / 10).push(digit_char(n % 10))
    }
}

/// The number that a run of decimal digits stands for, or nothing where a
/// character is no digit. The empty run stands for zero.
pub open spec fn digits_value(s: Seq<char>) -> Option<nat>
    decreases s.len(),
{
    if s.len() == 0 {
        Some(0nat)
    } else {
        match digits_value(s.drop_last()) {
            Some(v) => if is_digit(s.last()) {
                Some(v * 10 + digit_value(s.last()))
            } else {
                None
            },
            None => None,
        }
    }
}

/// The unsigned number written in `s`, where it is at most `max`: one or more
/// decimal digits, with at most one `+` before them and nothing else.
pub open spec fn parse_unsigned(s: Seq<char>, max: nat) -> Option<nat> {
    let body = if s.len() > 0 && s[0] == '+' {
        s.drop_first()
    } else {
        s
    };
    if body.len() == 0 {
        None
    } else {
        match digits_value(body) {
            Some(v) => if v <= max {
                Some(v)
            } else {
                None
            },
            None => None,
        }
    }
}

/// The value of a run of digits does not shrink as the run grows.
pub proof fn lemma_digits_grow(s: Seq<char>, k: int)
    requires
        0 <= k <= s.len(),
        digits_value(s) is Some,
    ensures
        digits_value(s.take(k)) is Some,
        digits_value(s.take(k))->0 <= digits_value(s)->0,
    decreases s.len() - k,
{
    if k == s.len() {
        assert(s.take(k) == s);
    } else {
        lemma_digits_grow(s.drop_last(), k);
        assert(s.drop_last().take(k) == s.take(k));
    }
}

/// The decimal form of a number is made of digits and stands for the number.
pub proof fn lemma_decimal_digits(n: nat)
    ensures
        decimal(n).len() >= 1,
        forall|i: int| 0 <= i < decimal(n).len() ==> is_digit(decimal(n)[i]),
        digits_value(decimal(n)) == Some(n),
    decreases n,
{
    if n < 10 {
        let one = seq![digit_char(n)];
        assert(one.drop_last() == Seq::<char>::empty());
        assert(one.last() == digit_char(n));
        assert(digits_value(one.drop_last()) == Some(0nat));
        assert(digits_value(one) == Some(n));
    } else {
        lemma_decimal_digits(n / 10);
        let front = decimal(n / 10);
        let all = front.push(digit_char(n % 10));
        assert(all.drop_last() == front);
        assert(all.last() == digit_char(n % 10));
        assert(digits_value(all) == Some((n / 10) * 10 + n % 10));
    }
}

/// What is written is read back: the decimal form of a number within the
/// limit reads as that number.
pub proof fn lemma_decimal_round_trip(n: nat, max: nat)
    requires
        n <= max,
    ensures
        parse_unsigned(decimal(n), max) == Some(n),
{
    lemma_decimal_digits(n);
    assert(is_digit(decimal(n)[0]));
}

/// Reads an unsigned number of at most `max`.
pub fn parse_number(v: &Vec<char>, max: u64) -> (r: Option<u64>)
    ensures
        match parse_unsigned(v@, max as nat) {
            Some(n) => r == Some(n as u64),
            None => r is None,
        },
{
    let start: usize = if v.len() > 0 && v[0] == '+' {
        1
    } else {
        0
    };
    if start == v.len() {
        return None;
    }
    let ghost body = v@.skip(start as int);
    assert(body == if v@.len() > 0 && v@[0] == '+' {
        v@.drop_first()
    } else {
        v@
    });
    let mut value: u64 = 0;
    let mut i: usize = start;
    assert(body.take(0) == Seq::<char>::empty());
    while i < v.len()
        invariant
            start <= i <= v.len(),
            start < v.len(),
            body == v@.skip(start as int),
            body == (if v@.len() > 0 && v@[0] == '+' {
                v@.drop_first()
            } else {
                v@
            }),
            digits_value(body.take(i - start)) == Some(value as nat),
            value <= max,
        decreases v.len() - i,
    {
        let c = v[i];
        proof {
            let now = body.take(i - start + 1);
            assert(now.drop_last() == body.take(i - start));
            assert(now.last() == c);
        }
        let code: u32 = c as u32;
        if !(0x30 <= code && code <= 0x39) {
            proof {
                if digits_value(body) is Some {
                    lemma_digits_grow(body, i - start + 1);
                }
            }
            return None;
        }
        let d: u64 = (code - 0x30) as u64;
        if d > max || value > (max - d) / 10 {
            proof {
                assert(value * 10 + d > max);
                if digits_value(body) is Some {
                    lemma_digits_grow(body, i - start + 1);
                }
            }
            return None;
        }
        value = value * 10 + d;
        i += 1;
    }
    assert(body.take(v.len() - start) == body);
    Some(value)
}

/// The decimal form of a number.
pub fn decimal_chars(n: u64) -> (out: Vec<char>)
    ensures
        out@ == decimal(n as nat),
{
    let mut reversed: Vec<char> = Vec::new();
    let mut rest: u64 = n;
    while rest >= 10
        invariant
            decimal(n as nat) == decimal(rest as nat) + reversed@.reverse(),
        decreases rest,
    {
        let d: u8 = (rest % 10) as u8;
        let c: char = (d + 48u8) as char;
        proof {
            assert(c == digit_char((rest % 10) as nat));
            let grown = reversed@.push(c);
            assert(grown.reverse() == seq![c] + reversed@.reverse());
            assert(decimal(rest as nat) == decimal((rest / 10) as nat).push(c));
            assert(decimal((rest / 10) as nat).push(c) + reversed@.reverse() == decimal(
                (rest / 10) as nat,
            ) + (seq![c] + reversed@.reverse()));
        }
        reversed.push(c);
        rest = rest / 10;
    }
    let first: char = (rest as u8 + 48u8) as char;
    let mut out: Vec<char> = Vec::new();
    out.push(first);
    assert(out@ == decimal(rest as nat));
    let mut i: usize = reversed.len();
    while i > 0
        invariant
            i <= reversed.len(),
            out@ == decimal(rest as nat) + reversed@.reverse().take(reversed.len() - i),
        decreases i,
    {
        i -= 1;
        out.push(reversed[i]);
        proof {
            let r = reversed@.reverse();
            let k = reversed.len() - i - 1;
            assert(r[k] == reversed@[i as int]);
            assert(r.take(k + 1) == r.take(k).push(r[k]));
        }
    }
    assert(reversed@.reverse().take(reversed.len() as int) == reversed@.reverse());
    out
}

} // verus!
