//! Decimal numerals: reading them from text and writing them out.

use vstd::prelude::*;
use crate::text::chars_of;
use crate::text::joined;
use crate::text::join;
use crate::text::concat3;

verus! {

/// The value of a decimal digit, `None` for any other character.
pub open spec fn digit_value(c: char) -> Option<int> {
    if '0' <= c && c <= '9' {
        Some(c as int - '0' as int)
    } else {
        None
    }
}

/// The number that a non-empty run of decimal digits denotes.
pub open spec fn natural(s: Seq<char>) -> Option<int>
    decreases s.len(),
{
    if s.len() == 0 {
        None
    } else if s.len() == 1 {
        digit_value(s[0])
    } else {
        match (natural(s.drop_last()), digit_value(s.last())) {
            (Some(high), Some(low)) => Some(high * 10 + low),
            _ => None,
        }
    }
}

/// The integer that a numeral with an optional sign denotes.
pub open spec fn integer(s: Seq<char>) -> Option<int> {
    if s.len() > 0 && s[0] == '-' {
        match natural(s.skip(1)) {
            Some(v) => Some(-v),
            None => None,
        }
    } else if s.len() > 0 && s[0] == '+' {
        natural(s.skip(1))
    } else {
        natural(s)
    }
}

/// The `i32` that a numeral denotes: a sign is optional, and the value must fit.
pub open spec fn i32_of(s: Seq<char>) -> Option<i32> {
    match integer(s) {
        Some(v) => if i32::MIN <= v <= i32::MAX {
            Some(v as i32)
        } else {
            None
        },
        None => None,
    }
}

/// The `u64` that a numeral denotes: `+` is the only sign accepted, and the value must fit.
pub open spec fn u64_of(s: Seq<char>) -> Option<u64> {
    if s.len() > 0 && s[0] == '-' {
        None
    } else {
        match integer(s) {
            Some(v) => if v <= u64::MAX {
                Some(v as u64)
            } else {
                None
            },
            None => None,
        }
    }
}

/// A numeral's value is never negative.
pub proof fn lemma_natural_bounds(s: Seq<char>)
    ensures
        natural(s) matches Some(v) ==> v >= 0,
    decreases s.len(),
{
    if s.len() > 1 {
        lemma_natural_bounds(s.drop_last());
    }
}

/// A numeral remains one when cut short, and its value does not grow by the cut.
pub proof fn lemma_natural_prefix(s: Seq<char>, k: int)
    requires
        1 <= k <= s.len(),
    ensures
        natural(s) matches Some(v) ==> (natural(s.take(k)) matches Some(p) && p <= v),
    decreases s.len(),
{
    if k == s.len() {
        assert(s.take(k) =~= s);
    } else {
        assert(s.drop_last().take(k) =~= s.take(k));
        lemma_natural_prefix(s.drop_last(), k);
        lemma_natural_bounds(s.drop_last());
    }
}

/// Reads the digits of `s` from `from` on. The result is the value of that
/// run of digits where it is one and the value is at most `limit`.
fn read_natural(s: &Vec<char>, from: usize, limit: u64) -> (r: Option<u64>)
    requires
        from <= s.len(),
    ensures
        r == match natural(s@.skip(from as int)) {
            Some(v) => if v <= limit {
                Some(v as u64)
            } else {
                None
            },
            None => None,
        },
{
    let ghost digits = s@.skip(from as int);
    if from == s.len() {
        return None;
    }
    let mut acc: u128 = 0;
    let mut i: usize = from;
    while i < s.len()
        invariant
            from <= i <= s.len(),
            digits == s@.skip(from as int),
            acc <= limit,
            i > from ==> natural(digits.take(i - from)) == Some(acc as int),
            i == from ==> acc == 0,
        decreases s.len() - i,
    {
        let c = s[i];
        let ghost upto = digits.take(i - from + 1);
        assert(upto.drop_last() =~= digits.take(i - from));
        assert(upto.last() == c);
        if c < '0' || c > '9' {
            proof {
                assert(natural(upto) is None);
                lemma_natural_prefix(digits, i - from + 1);
            }
            return None;
        }
        let d: u128 = (c as u32 - '0' as u32) as u128;
        let next: u128 = acc * 10 + d;
        assert(natural(upto) == Some(next as int));
        if next > limit as u128 {
            proof {
                lemma_natural_prefix(digits, i - from + 1);
            }
            return None;
        }
        acc = next;
        i += 1;
    }
    assert(digits.take(i - from) =~= digits);
    Some(acc as u64)
}

/// Reads an `i32` from a decimal numeral with an optional sign.
pub fn parse_i32(s: &str) -> (r: Option<i32>)
    ensures
        r == i32_of(s@),
{
    let v = chars_of(s);
    proof {
        lemma_natural_bounds(v@);
        lemma_natural_bounds(v@.skip(1));
        assert(v@.skip(0) =~= v@);
    }
    if v.len() > 0 && v[0] == '-' {
        match read_natural(&v, 1, 2147483648) {
            Some(m) => {
                assert(natural(v@.skip(1)) == Some(m as int) && m <= 2147483648);
                let wide: i64 = 0 - m as i64;
                Some(wide as i32)
            },
            None => None,
        }
    } else if v.len() > 0 && v[0] == '+' {
        match read_natural(&v, 1, 2147483647) {
            Some(m) => Some(m as i32),
            None => None,
        }
    } else {
        match read_natural(&v, 0, 2147483647) {
            Some(m) => Some(m as i32),
            None => None,
        }
    }
}

/// Reads a `u64` from a decimal numeral; `+` is the only sign accepted.
pub fn parse_u64(s: &str) -> (r: Option<u64>)
    ensures
        r == u64_of(s@),
{
    let v = chars_of(s);
    proof {
        lemma_natural_bounds(v@);
        lemma_natural_bounds(v@.skip(1));
        assert(v@.skip(0) =~= v@);
    }
    if v.len() > 0 && v[0] == '-' {
        None
    } else if v.len() > 0 && v[0] == '+' {
        read_natural(&v, 1, u64::MAX)
    } else {
        read_natural(&v, 0, u64::MAX)
    }
}

/// The character for a digit's value.
pub open spec fn digit_char(d: int) -> char {
    (d + 48) as char
}

/// The decimal numeral of a natural number, without leading zeros.
pub open spec fn digits(n: nat) -> Seq<char>
    decreases n,
{
    if n < 10 {
        seq![digit_char(n as int)]
    } else {
        digits(n / 10).push(digit_char((n % 10) as int))
    }
}

/// The decimal numeral of an integer, with `-` before a negative one.
pub open spec fn decimal(v: int) -> Seq<char> {
    if v < 0 {
        seq!['-'] + digits((-v) as nat)
    } else {
        digits(v as nat)
    }
}

/// The numerals of a list of numbers.
pub open spec fn decimals(v: Seq<i32>) -> Seq<Seq<char>> {
    Seq::new(v.len(), |i: int| decimal(v[i] as int))
}

/// A list of numbers in brackets, with `, ` between them.
pub open spec fn bracketed(v: Seq<i32>) -> Seq<char> {
    "["@ + joined(decimals(v), ", "@) + "]"@
}

fn push_digits(n: u64, out: &mut String)
    ensures
        final(out)@ == old(out)@ + digits(n as nat),
    decreases n,
{
    if n >= 10 {
        push_digits(n / 10, out);
    }
    let d: u8 = (n % 10) as u8;
    let c: char = (d + 48u8) as char;
    assert(c == digit_char((n % 10) as int));
    out.push(c);
    assert(out@ =~= old(out)@ + digits(n as nat));
}

/// The decimal numeral of `n`.
pub fn u64_to_string(n: u64) -> (r: String)
    ensures
        r@ == digits(n as nat),
{
    let mut out = String::new();
    push_digits(n, &mut out);
    assert(out@ =~= digits(n as nat));
    out
}

/// The decimal numeral of `v`.
pub fn i32_to_string(v: i32) -> (r: String)
    ensures
        r@ == decimal(v as int),
{
    let mut out = String::new();
    if v < 0 {
        out.push('-');
        let wide: i64 = 0 - (v as i64);
        push_digits(wide as u64, &mut out);
    } else {
        push_digits(v as u64, &mut out);
    }
    assert(out@ =~= decimal(v as int));
    out
}

/// The numbers in brackets, with `, ` between them.
pub fn bracket(v: &Vec<i32>) -> (r: String)
    ensures
        r@ == bracketed(v@),
{
    let mut parts: Vec<String> = Vec::new();
    let mut i: usize = 0;
    while i < v.len()
        invariant
            i <= v.len(),
            crate::text::views(parts@) == decimals(v@.take(i as int)),
        decreases v.len() - i,
    {
        let part = i32_to_string(v[i]);
        let ghost before = parts@;
        parts.push(part);
        assert(crate::text::views(parts@) =~= crate::text::views(before).push(part@));
        assert(decimals(v@.take(i + 1)) =~= decimals(v@.take(i as int)).push(
            decimal(v@[i as int] as int),
        ));
        i += 1;
    }
    assert(v@.take(i as int) =~= v@);
    let inner = join(&parts, ", ");
    concat3("[", inner.as_str(), "]")
}

/// The numeral of a natural number starts with a digit, and holds as many
/// characters as the number has digits.
pub proof fn lemma_digits_start(n: nat)
    ensures
        digits(n).len() >= 1,
        digit_value(digits(n)[0]) is Some,
    decreases n,
{
    if n >= 10 {
        lemma_digits_start(n / 10);
    }
}

/// The numeral of a natural number denotes that number.
pub proof fn lemma_digits_denote(n: nat)
    ensures
        natural(digits(n)) == Some(n as int),
    decreases n,
{
    if n >= 10 {
        lemma_digits_denote(n / 10);
        lemma_digits_start(n / 10);
        let s = digits(n);
        assert(s.drop_last() =~= digits(n / 10));
        assert(s.last() == digit_char((n % 10) as int));
    }
}

/// What is written for an `i32` is read back as that `i32`.
pub proof fn lemma_i32_reads_back(v: i32)
    ensures
        i32_of(decimal(v as int)) == Some(v),
{
    if v < 0 {
        let rest = digits((-v) as nat);
        lemma_digits_denote((-v) as nat);
        assert(decimal(v as int).skip(1) =~= rest);
    } else {
        lemma_digits_denote(v as nat);
        lemma_digits_start(v as nat);
    }
}

/// What is written for a `u64` is read back as that `u64`.
pub proof fn lemma_u64_reads_back(n: u64)
    ensures
        u64_of(digits(n as nat)) == Some(n),
{
    lemma_digits_denote(n as nat);
    lemma_digits_start(n as nat);
}

} // verus!
