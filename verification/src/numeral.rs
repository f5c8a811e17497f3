//! The numeric value of a numeral token.

use vstd::prelude::*;
use vstd::string::*;
use crate::tokenizer::Base;

verus! {

/// The largest magnitude that [`parse_numeral`] reports: `2^32`.
pub const NUMERAL_LIMIT: i64 = 0x1_0000_0000;

/// The value of one digit; characters that are no digit count as zero.
pub open spec fn digit_value(c: char) -> int {
    if '0' <= c && c <= '9' {
        c as u32 - 48
    } else if 'a' <= c && c <= 'f' {
        c as u32 - 87
    } else if 'A' <= c && c <= 'F' {
        c as u32 - 55
    } else {
        0
    }
}

/// The number that the digits `s` denote in the given radix.
pub open spec fn magnitude(s: Seq<char>, radix: int) -> int
    decreases s.len(),
{
    if s.len() == 0 {
        0
    } else {
        magnitude(s.drop_last(), radix) * radix + digit_value(s.last())
    }
}

pub open spec fn radix_of(base: Base) -> int {
    match base {
        Base::Dec => 10,
        Base::Hex => 16,
    }
}

/// Where the digits of a numeral start: behind its sign and its `0x`.
pub open spec fn digits_start(text: Seq<char>, base: Base) -> int {
    let sign: int = if text.len() > 0 && text[0] == '-' { 1 } else { 0 };
    let prefix: int = match base {
        Base::Dec => 0,
        Base::Hex => 2,
    };
    if sign + prefix <= text.len() { sign + prefix } else { text.len() as int }
}

/// The value of the numeral `text`: an optional `-`, then decimal digits,
/// or `0x` and hex digits.
pub open spec fn numeral_value(text: Seq<char>, base: Base) -> int {
    let m = magnitude(text.subrange(digits_start(text, base), text.len() as int), radix_of(base));
    if text.len() > 0 && text[0] == '-' { -m } else { m }
}

/// More digits never denote less.
pub proof fn lemma_magnitude_prefix(s: Seq<char>, k: int, radix: int)
    requires
        0 <= k <= s.len(),
        radix >= 1,
    ensures
        0 <= magnitude(s.subrange(0, k), radix) <= magnitude(s, radix),
    decreases s.len() - k,
{
    if k == s.len() {
        assert(s.subrange(0, k) =~= s);
        lemma_magnitude_nonnegative(s, radix);
    } else {
        lemma_magnitude_prefix(s, k + 1, radix);
        let longer = s.subrange(0, k + 1);
        assert(longer.drop_last() =~= s.subrange(0, k));
        lemma_magnitude_nonnegative(s.subrange(0, k), radix);
        let m = magnitude(s.subrange(0, k), radix);
        assert(m * radix >= m) by (nonlinear_arith)
            requires
                m >= 0,
                radix >= 1,
        ;
    }
}

pub proof fn lemma_magnitude_nonnegative(s: Seq<char>, radix: int)
    requires
        radix >= 1,
    ensures
        magnitude(s, radix) >= 0,
    decreases s.len(),
{
    if s.len() > 0 {
        lemma_magnitude_nonnegative(s.drop_last(), radix);
        let m = magnitude(s.drop_last(), radix);
        assert(m * radix >= 0) by (nonlinear_arith)
            requires
                m >= 0,
                radix >= 1,
        ;
    }
}

fn digit_of(c: char) -> (d: i64)
    ensures
        d == digit_value(c),
        0 <= d < 16,
{
    if '0' <= c && c <= '9' {
        (c as u32 - 48) as i64
    } else if 'a' <= c && c <= 'f' {
        (c as u32 - 87) as i64
    } else if 'A' <= c && c <= 'F' {
        (c as u32 - 55) as i64
    } else {
        0
    }
}

/// The value of a numeral, where its magnitude is at most `2^32`.
pub fn parse_numeral(text: &str, base: Base) -> (value: Option<i64>)
    ensures
        value == if -NUMERAL_LIMIT <= numeral_value(text@, base) <= NUMERAL_LIMIT {
            Some(numeral_value(text@, base) as i64)
        } else {
            None
        },
{
    let n = text.unicode_len();
    let negative = n > 0 && text.get_char(0) == '-';
    let sign: usize = if negative { 1 } else { 0 };
    let radix: i64 = match base {
        Base::Dec => 10,
        Base::Hex => 16,
    };
    let prefix: usize = match base {
        Base::Dec => 0,
        Base::Hex => 2,
    };
    let start: usize = if prefix <= n - sign { sign + prefix } else { n };
    let ghost digits = text@.subrange(start as int, n as int);
    let mut k: usize = start;
    let mut acc: i64 = 0;
    proof {
        assert(digits.subrange(0, 0) =~= Seq::<char>::empty());
    }
    while k < n
        invariant
            start <= k <= n,
            n == text@.len(),
            digits == text@.subrange(start as int, n as int),
            radix == radix_of(base),
            start == digits_start(text@, base),
            acc == magnitude(digits.subrange(0, k - start), radix as int),
            0 <= acc <= NUMERAL_LIMIT,
        decreases n - k,
    {
        let d = digit_of(text.get_char(k));
        proof {
            let longer = digits.subrange(0, k + 1 - start);
            assert(longer.drop_last() =~= digits.subrange(0, k - start));
            assert(longer.last() == text@[k as int]);
            lemma_magnitude_prefix(digits, k + 1 - start, radix as int);
            assert(magnitude(longer, radix as int) == acc * radix + d);
            assert(acc * radix <= NUMERAL_LIMIT * 16) by (nonlinear_arith)
                requires
                    0 <= acc <= NUMERAL_LIMIT,
                    1 <= radix <= 16,
            ;
            assert(acc * radix >= 0) by (nonlinear_arith)
                requires
                    0 <= acc,
                    1 <= radix,
            ;
        }
        let next = acc * radix + d;
        if next > NUMERAL_LIMIT {
            return None;
        }
        acc = next;
        k += 1;
    }
    proof {
        assert(digits.subrange(0, n - start) =~= digits);
    }
    if negative {
        Some(-acc)
    } else {
        Some(acc)
    }
}

} // verus!
