//! Decimal text of 64-bit integers: writing, as `i64::to_string` does, and reading, as
//! `str::parse::<i64>` does, with the same four kinds of failure.
use vstd::prelude::*;
use crate::text::push_char;

verus! {

/// The character of a decimal digit.
pub open spec fn spec_digit_char(d: int) -> char {
    if d == 0 { '0' } else if d == 1 { '1' } else if d == 2 { '2' } else if d == 3 { '3' } else if d == 4 {
        '4'
    } else if d == 5 { '5' } else if d == 6 { '6' } else if d == 7 { '7' } else if d == 8 { '8' } else { '9' }
}

/// The value of a decimal digit character, if it is one.
pub open spec fn spec_digit_value(c: char) -> Option<int> {
    if '0' <= c && c <= '9' {
        Some(c as int - '0' as int)
    } else {
        None
    }
}

/// The decimal digits of a natural number, most significant first, without leading zeros.
pub open spec fn spec_digits(n: nat) -> Seq<char>
    decreases n,
{
    if n < 10 {
        seq![spec_digit_char(n as int)]
    } else {
        spec_digits(n / 10).push(spec_digit_char((n % 10) as int))
    }
}

/// The decimal text of an integer, with a leading `-` when it is negative.
pub open spec fn spec_decimal(v: int) -> Seq<char> {
    if v < 0 {
        seq!['-'] + spec_digits((-v) as nat)
    } else {
        spec_digits(v as nat)
    }
}

fn digit_char(d: u64) -> (c: char)
    requires
        d < 10,
    ensures
        c == spec_digit_char(d as int),
{
    if d == 0 { '0' } else if d == 1 { '1' } else if d == 2 { '2' } else if d == 3 { '3' } else if d == 4 {
        '4'
    } else if d == 5 { '5' } else if d == 6 { '6' } else if d == 7 { '7' } else if d == 8 { '8' } else { '9' }
}

fn push_digits(s: &mut String, n: u64)
    ensures
        final(s)@ == old(s)@ + spec_digits(n as nat),
    decreases n,
{
    if n >= 10 {
        push_digits(s, n / 10);
    }
    push_char(s, digit_char(n % 10));
    proof {
        if n >= 10 {
            assert(old(s)@ + spec_digits((n / 10) as nat) + seq![spec_digit_char((n % 10) as int)] =~= old(s)@
                + spec_digits(n as nat));
        } else {
            assert(old(s)@ + seq![spec_digit_char((n % 10) as int)] =~= old(s)@ + spec_digits(n as nat));
        }
    }
}

/// The decimal text of `v`, as `v.to_string()` writes it.
pub fn decimal_string(v: i64) -> (r: String)
    ensures
        r@ == spec_decimal(v as int),
{
    let mut s = String::new();
    if v < 0 {
        push_char(&mut s, '-');
        let m: u64 = if v == i64::MIN {
            0x8000_0000_0000_0000u64
        } else {
            (-v) as u64
        };
        push_digits(&mut s, m);
    } else {
        push_digits(&mut s, v as u64);
    }
    assert(s@ =~= spec_decimal(v as int));
    s
}

/// Why a text is not an `i64`.
#[derive(Clone, Copy, Debug, PartialEq, Eq)]
pub enum IntParseFailure {
    Empty,
    InvalidDigit,
    PosOverflow,
    NegOverflow,
}

impl IntParseFailure {
    /// The message that `ParseIntError` shows for this kind of failure.
    pub fn message(self) -> (r: &'static str)
        ensures
            r@ == spec_failure_message(self),
    {
        match self {
            IntParseFailure::Empty => "cannot parse integer from empty string",
            IntParseFailure::InvalidDigit => "invalid digit found in string",
            IntParseFailure::PosOverflow => "number too large to fit in target type",
            IntParseFailure::NegOverflow => "number too small to fit in target type",
        }
    }
}

/// The message of each kind of failure.
pub open spec fn spec_failure_message(f: IntParseFailure) -> Seq<char> {
    match f {
        IntParseFailure::Empty => "cannot parse integer from empty string"@,
        IntParseFailure::InvalidDigit => "invalid digit found in string"@,
        IntParseFailure::PosOverflow => "number too large to fit in target type"@,
        IntParseFailure::NegOverflow => "number too small to fit in target type"@,
    }
}

/// Reading the first `n` digits of `d` from the left, stopping at the first character that
/// is no digit or at the first step that leaves the `i64` range (upward for a positive
/// number, downward for a negative one).
pub open spec fn spec_accumulate(d: Seq<char>, neg: bool, n: int) -> Result<int, IntParseFailure>
    decreases n,
{
    if n <= 0 {
        Ok(0)
    } else {
        match spec_accumulate(d, neg, n - 1) {
            Err(e) => Err(e),
            Ok(a) => match spec_digit_value(d[n - 1]) {
                None => Err(IntParseFailure::InvalidDigit),
                Some(x) => {
                    let v = if neg { a * 10 - x } else { a * 10 + x };
                    if v > i64::MAX {
                        Err(IntParseFailure::PosOverflow)
                    } else if v < i64::MIN {
                        Err(IntParseFailure::NegOverflow)
                    } else {
                        Ok(v)
                    }
                },
            },
        }
    }
}

/// What `str::parse::<i64>` gives for a text: an optional `+` or `-`, then one or more
/// decimal digits.
pub open spec fn spec_parse_i64(s: Seq<char>) -> Result<int, IntParseFailure> {
    if s.len() == 0 {
        Err(IntParseFailure::Empty)
    } else {
        let neg = s[0] == '-';
        let d = if s[0] == '-' || s[0] == '+' { s.subrange(1, s.len() as int) } else { s };
        if d.len() == 0 {
            Err(IntParseFailure::InvalidDigit)
        } else {
            spec_accumulate(d, neg, d.len() as int)
        }
    }
}

/// Once reading fails, reading further fails the same way.
pub proof fn lemma_accumulate_sticky(d: Seq<char>, neg: bool, k: int, n: int)
    requires
        k <= n,
        spec_accumulate(d, neg, k).is_err(),
    ensures
        spec_accumulate(d, neg, n) == spec_accumulate(d, neg, k),
    decreases n - k,
{
    if k < n {
        lemma_accumulate_sticky(d, neg, k, n - 1);
    }
}

fn digit_value(c: char) -> (r: Option<i64>)
    ensures
        match spec_digit_value(c) {
            Some(x) => r == Some(x as i64),
            None => r.is_none(),
        },
{
    if '0' <= c && c <= '9' {
        Some((c as u32 - '0' as u32) as i64)
    } else {
        None
    }
}

/// Reads a decimal `i64` the way `str::parse::<i64>` does.
pub fn parse_i64_text(s: &str) -> (r: Result<i64, IntParseFailure>)
    ensures
        match spec_parse_i64(s@) {
            Ok(v) => r == Ok::<i64, IntParseFailure>(v as i64),
            Err(e) => r == Err::<i64, IntParseFailure>(e),
        },
{
    let cs = crate::text::chars_of(s);
    if cs.len() == 0 {
        return Err(IntParseFailure::Empty);
    }
    let neg = cs[0] == '-';
    let start: usize = if cs[0] == '-' || cs[0] == '+' { 1 } else { 0 };
    if start == cs.len() {
        return Err(IntParseFailure::InvalidDigit);
    }
    let ghost d = if s@[0] == '-' || s@[0] == '+' { s@.subrange(1, s@.len() as int) } else { s@ };
    assert(d =~= cs@.subrange(start as int, cs.len() as int));
    let mut acc: i64 = 0;
    let mut i: usize = start;
    while i < cs.len()
        invariant
            start <= i <= cs.len(),
            cs@ == s@,
            d == cs@.subrange(start as int, cs.len() as int),
            neg == (s@[0] == '-'),
            spec_accumulate(d, neg, (i - start) as int) == Ok::<int, IntParseFailure>(acc as int),
            d.len() > 0,
            spec_parse_i64(s@) == spec_accumulate(d, neg, d.len() as int),
        decreases cs.len() - i,
    {
        assert(d[(i - start) as int] == cs@[i as int]);
        let ghost k: int = (i - start) as int + 1;
        match digit_value(cs[i]) {
            None => {
                proof {
                    lemma_accumulate_sticky(d, neg, k, d.len() as int);
                }
                return Err(IntParseFailure::InvalidDigit);
            },
            Some(x) => {
                if neg {
                    let wide: i128 = (acc as i128) * 10 - (x as i128);
                    if wide < i64::MIN as i128 {
                        proof {
                            lemma_accumulate_sticky(d, neg, k, d.len() as int);
                        }
                        return Err(IntParseFailure::NegOverflow);
                    }
                    if wide > i64::MAX as i128 {
                        proof {
                            lemma_accumulate_sticky(d, neg, k, d.len() as int);
                        }
                        return Err(IntParseFailure::PosOverflow);
                    }
                    acc = wide as i64;
                } else {
                    let wide: i128 = (acc as i128) * 10 + (x as i128);
                    if wide > i64::MAX as i128 {
                        proof {
                            lemma_accumulate_sticky(d, neg, k, d.len() as int);
                        }
                        return Err(IntParseFailure::PosOverflow);
                    }
                    if wide < i64::MIN as i128 {
                        proof {
                            lemma_accumulate_sticky(d, neg, k, d.len() as int);
                        }
                        return Err(IntParseFailure::NegOverflow);
                    }
                    acc = wide as i64;
                }
            },
        }
        i = i + 1;
    }
    Ok(acc)
}

proof fn lemma_digit_roundtrip(d: int)
    requires
        0 <= d < 10,
    ensures
        spec_digit_value(spec_digit_char(d)) == Some(d),
{
}

proof fn lemma_digits_shape(n: nat)
    ensures
        spec_digits(n).len() >= 1,
        spec_digit_value(spec_digits(n)[0]).is_some(),
    decreases n,
{
    if n < 10 {
        lemma_digit_roundtrip(n as int);
    } else {
        lemma_digits_shape(n / 10);
    }
}

/// Reading a prefix does not look past it.
proof fn lemma_accumulate_prefix(d: Seq<char>, c: char, neg: bool, k: int)
    requires
        0 <= k <= d.len(),
    ensures
        spec_accumulate(d.push(c), neg, k) == spec_accumulate(d, neg, k),
    decreases k,
{
    if k > 0 {
        lemma_accumulate_prefix(d, c, neg, k - 1);
        assert(d.push(c)[k - 1] == d[k - 1]);
    }
}

proof fn lemma_accumulate_digits(n: nat, neg: bool)
    requires
        neg ==> n <= 0x8000_0000_0000_0000,
        !neg ==> n <= 0x7fff_ffff_ffff_ffff,
    ensures
        spec_accumulate(spec_digits(n), neg, spec_digits(n).len() as int) == Ok::<int, IntParseFailure>(
            if neg { -n } else { n as int },
        ),
    decreases n,
{
    if n < 10 {
        lemma_digit_roundtrip(n as int);
        assert(spec_accumulate(spec_digits(n), neg, 0) == Ok::<int, IntParseFailure>(0));
    } else {
        let q = n / 10;
        let r = n % 10;
        assert(n == q * 10 + r);
        lemma_accumulate_digits(q, neg);
        lemma_digits_shape(q);
        lemma_accumulate_prefix(spec_digits(q), spec_digit_char(r as int), neg, spec_digits(q).len() as int);
        lemma_digit_roundtrip(r as int);
        let d = spec_digits(n);
        assert(d == spec_digits(q).push(spec_digit_char(r as int)));
        assert(d[d.len() - 1] == spec_digit_char(r as int));
    }
}

/// Writing an `i64` in decimal and reading the text back gives the same number: what
/// `decimal_string` writes, `parse_i64_text` reads.
pub proof fn law_decimal_parse_roundtrip(v: i64)
    ensures
        spec_parse_i64(spec_decimal(v as int)) == Ok::<int, IntParseFailure>(v as int),
{
    if v < 0 {
        let n: nat = (-v) as nat;
        lemma_accumulate_digits(n, true);
        lemma_digits_shape(n);
        let s = spec_decimal(v as int);
        assert(s[0] == '-');
        assert(s.subrange(1, s.len() as int) =~= spec_digits(n));
    } else {
        let n: nat = v as nat;
        lemma_accumulate_digits(n, false);
        lemma_digits_shape(n);
        let s = spec_decimal(v as int);
        assert(s[0] != '-' && s[0] != '+');
    }
}

} // verus!
