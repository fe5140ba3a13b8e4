//! Decimal integer parsing with the exact semantics of the standard
//! library's `FromStr` for integers (an optional sign followed by decimal
//! digits; the first offending character decides the error).

use vstd::prelude::*;
use crate::text::{dec, dec_int, digit_char};

verus! {

/// Why a string is not a valid integer (`std::num::IntErrorKind`).
#[derive(Clone, Copy, Debug, PartialEq, Eq)]
pub enum IntErrorKind {
    /// The string is empty.
    Empty,
    /// A character is not a decimal digit (or a sign stands alone).
    InvalidDigit,
    /// The value is too large for the target type.
    PosOverflow,
    /// The value is too small for the target type.
    NegOverflow,
}

/// Whether `c` is an ASCII decimal digit.
pub open spec fn is_digit(c: char) -> bool {
    '0' <= c && c <= '9'
}

/// The value of decimal digit `c`.
pub open spec fn digit_value(c: char) -> nat {
    ((c as u32) - ('0' as u32)) as nat
}

/// Accumulate the digits `ds` onto `acc`, failing as soon as a char is not a
/// digit or the value exceeds `max` (`overflow` names that error).
pub open spec fn fold_digits(acc: nat, ds: Seq<char>, max: nat, overflow: IntErrorKind) -> Result<
    nat,
    IntErrorKind,
>
    decreases ds.len(),
{
    if ds.len() == 0 {
        Ok(acc)
    } else if !is_digit(ds[0]) {
        Err(IntErrorKind::InvalidDigit)
    } else if acc * 10 + digit_value(ds[0]) > max {
        Err(overflow)
    } else {
        fold_digits(acc * 10 + digit_value(ds[0]), ds.drop_first(), max, overflow)
    }
}

/// Parse an unsigned integer no larger than `max` (`u16::from_str`,
/// `u64::from_str`, `usize::from_str` with their maxima).
pub open spec fn parse_unsigned(s: Seq<char>, max: nat) -> Result<nat, IntErrorKind> {
    if s.len() == 0 {
        Err(IntErrorKind::Empty)
    } else if s.len() == 1 && (s[0] == '+' || s[0] == '-') {
        Err(IntErrorKind::InvalidDigit)
    } else if s[0] == '+' {
        fold_digits(0, s.drop_first(), max, IntErrorKind::PosOverflow)
    } else {
        fold_digits(0, s, max, IntErrorKind::PosOverflow)
    }
}

/// Parse a signed 64-bit integer (`i64::from_str`).
pub open spec fn parse_i64(s: Seq<char>) -> Result<int, IntErrorKind> {
    if s.len() == 0 {
        Err(IntErrorKind::Empty)
    } else if s.len() == 1 && (s[0] == '+' || s[0] == '-') {
        Err(IntErrorKind::InvalidDigit)
    } else if s[0] == '-' {
        match fold_digits(0, s.drop_first(), 0x8000_0000_0000_0000, IntErrorKind::NegOverflow) {
            Ok(m) => Ok(-m),
            Err(e) => Err(e),
        }
    } else if s[0] == '+' {
        match fold_digits(0, s.drop_first(), 0x7fff_ffff_ffff_ffff, IntErrorKind::PosOverflow) {
            Ok(m) => Ok(m as int),
            Err(e) => Err(e),
        }
    } else {
        match fold_digits(0, s, 0x7fff_ffff_ffff_ffff, IntErrorKind::PosOverflow) {
            Ok(m) => Ok(m as int),
            Err(e) => Err(e),
        }
    }
}

proof fn lemma_fold_bound(acc: nat, ds: Seq<char>, max: nat, overflow: IntErrorKind)
    requires
        acc <= max,
    ensures
        fold_digits(acc, ds, max, overflow) matches Ok(v) ==> v <= max,
    decreases ds.len(),
{
    if ds.len() > 0 && is_digit(ds[0]) && acc * 10 + digit_value(ds[0]) <= max {
        lemma_fold_bound(acc * 10 + digit_value(ds[0]), ds.drop_first(), max, overflow);
    }
}

/// Fold the digits of `s` from char position `start`.
fn fold_exec(s: &str, start: usize, max: u64, overflow: IntErrorKind) -> (r: Result<u64, IntErrorKind>)
    requires
        start <= s@.len(),
    ensures
        r == (match fold_digits(0, s@.subrange(start as int, s@.len() as int), max as nat, overflow) {
            Ok(v) => Ok(v as u64),
            Err(e) => Err(e),
        }),
        fold_digits(0, s@.subrange(start as int, s@.len() as int), max as nat, overflow) matches Ok(v) ==> v <= max,
{
    let n = s.unicode_len();
    let mut i = start;
    let mut acc: u64 = 0;
    let ghost whole = s@.subrange(start as int, n as int);
    proof {
        lemma_fold_bound(0, whole, max as nat, overflow);
    }
    while i < n
        invariant
            n == s@.len(),
            start <= i <= n,
            acc <= max,
            whole == s@.subrange(start as int, n as int),
            fold_digits(0, whole, max as nat, overflow) == fold_digits(
                acc as nat,
                s@.subrange(i as int, n as int),
                max as nat,
                overflow,
            ),
        decreases n - i,
    {
        let c = s.get_char(i);
        let ghost rest = s@.subrange(i as int, n as int);
        assert(rest[0] == c);
        if !('0' <= c && c <= '9') {
            return Err(IntErrorKind::InvalidDigit);
        }
        let d: u64 = ((c as u32) - ('0' as u32)) as u64;
        assert(d as nat == digit_value(c));
        if acc > max / 10 {
            assert(acc * 10 + d > max) by (nonlinear_arith)
                requires
                    acc > max / 10,
            ;
            return Err(overflow);
        }
        assert(acc * 10 <= max) by (nonlinear_arith)
            requires
                acc <= max / 10,
        ;
        let t = acc * 10;
        if d > max || t > max - d {
            return Err(overflow);
        }
        acc = t + d;
        assert(rest.drop_first() =~= s@.subrange(i + 1, n as int));
        i = i + 1;
    }
    assert(s@.subrange(i as int, n as int).len() == 0);
    Ok(acc)
}

/// Parse an unsigned integer no larger than `max`.
pub fn parse_unsigned_exec(s: &str, max: u64) -> (r: Result<u64, IntErrorKind>)
    ensures
        r == (match parse_unsigned(s@, max as nat) {
            Ok(v) => Ok(v as u64),
            Err(e) => Err(e),
        }),
        parse_unsigned(s@, max as nat) matches Ok(v) ==> v <= max,
{
    let n = s.unicode_len();
    if n == 0 {
        return Err(IntErrorKind::Empty);
    }
    let c0 = s.get_char(0);
    if n == 1 && (c0 == '+' || c0 == '-') {
        return Err(IntErrorKind::InvalidDigit);
    }
    if c0 == '+' {
        assert(s@.drop_first() =~= s@.subrange(1, n as int));
        fold_exec(s, 1, max, IntErrorKind::PosOverflow)
    } else {
        assert(s@ =~= s@.subrange(0, n as int));
        fold_exec(s, 0, max, IntErrorKind::PosOverflow)
    }
}

/// Parse a `u64` (`u64::from_str`).
pub fn parse_u64(s: &str) -> (r: Result<u64, IntErrorKind>)
    ensures
        r == (match parse_unsigned(s@, u64::MAX as nat) {
            Ok(v) => Ok(v as u64),
            Err(e) => Err(e),
        }),
{
    parse_unsigned_exec(s, u64::MAX)
}

/// Parse a `u16` (`u16::from_str`).
pub fn parse_u16(s: &str) -> (r: Result<u16, IntErrorKind>)
    ensures
        r == (match parse_unsigned(s@, u16::MAX as nat) {
            Ok(v) => Ok(v as u16),
            Err(e) => Err(e),
        }),
        parse_unsigned(s@, u16::MAX as nat) matches Ok(v) ==> v <= u16::MAX,
{
    match parse_unsigned_exec(s, 0xffff) {
        Ok(v) => Ok(v as u16),
        Err(e) => Err(e),
    }
}

/// Parse a `usize` (`usize::from_str`).
pub fn parse_usize(s: &str) -> (r: Result<usize, IntErrorKind>)
    ensures
        r == (match parse_unsigned(s@, usize::MAX as nat) {
            Ok(v) => Ok(v as usize),
            Err(e) => Err(e),
        }),
        parse_unsigned(s@, usize::MAX as nat) matches Ok(v) ==> v <= usize::MAX,
{
    match parse_unsigned_exec(s, usize::MAX as u64) {
        Ok(v) => Ok(v as usize),
        Err(e) => Err(e),
    }
}

/// Parse an `i64` (`i64::from_str`).
pub fn parse_i64_exec(s: &str) -> (r: Result<i64, IntErrorKind>)
    ensures
        r == (match parse_i64(s@) {
            Ok(v) => Ok(v as i64),
            Err(e) => Err(e),
        }),
        parse_i64(s@) matches Ok(v) ==> i64::MIN <= v <= i64::MAX,
{
    let n = s.unicode_len();
    if n == 0 {
        return Err(IntErrorKind::Empty);
    }
    let c0 = s.get_char(0);
    if n == 1 && (c0 == '+' || c0 == '-') {
        return Err(IntErrorKind::InvalidDigit);
    }
    if c0 == '-' {
        assert(s@.drop_first() =~= s@.subrange(1, n as int));
        match fold_exec(s, 1, 0x8000_0000_0000_0000, IntErrorKind::NegOverflow) {
            Ok(m) => {
                if m == 0x8000_0000_0000_0000 {
                    Ok(i64::MIN)
                } else {
                    Ok(-(m as i64))
                }
            },
            Err(e) => Err(e),
        }
    } else {
        let start: usize = if c0 == '+' { 1 } else { 0 };
        assert(s@.drop_first() =~= s@.subrange(1, n as int));
        assert(s@ =~= s@.subrange(0, n as int));
        match fold_exec(s, start, 0x7fff_ffff_ffff_ffff, IntErrorKind::PosOverflow) {
            Ok(m) => Ok(m as i64),
            Err(e) => Err(e),
        }
    }
}

} // verus!

verus! {

impl IntErrorKind {
    /// The standard library's description of this error.
    pub fn message(&self) -> (r: &'static str)
        ensures
            r@ == match *self {
                IntErrorKind::Empty => "cannot parse integer from empty string"@,
                IntErrorKind::InvalidDigit => "invalid digit found in string"@,
                IntErrorKind::PosOverflow => "number too large to fit in target type"@,
                IntErrorKind::NegOverflow => "number too small to fit in target type"@,
            },
    {
        match self {
            IntErrorKind::Empty => "cannot parse integer from empty string",
            IntErrorKind::InvalidDigit => "invalid digit found in string",
            IntErrorKind::PosOverflow => "number too large to fit in target type",
            IntErrorKind::NegOverflow => "number too small to fit in target type",
        }
    }
}

proof fn lemma_digit_char(d: nat)
    requires
        d < 10,
    ensures
        is_digit(digit_char(d)),
        digit_value(digit_char(d)) == d,
{
}

proof fn lemma_dec_head(n: nat)
    ensures
        dec(n).len() >= 1,
        is_digit(dec(n)[0]),
    decreases n,
{
    if n < 10 {
        lemma_digit_char(n);
    } else {
        lemma_dec_head(n / 10);
    }
}

proof fn lemma_fold_push(acc: nat, s: Seq<char>, c: char, max: nat, o: IntErrorKind, m: nat)
    requires
        fold_digits(acc, s, max, o) == Ok::<nat, IntErrorKind>(m),
        is_digit(c),
        m * 10 + digit_value(c) <= max,
    ensures
        fold_digits(acc, s.push(c), max, o) == Ok::<nat, IntErrorKind>(m * 10 + digit_value(c)),
    decreases s.len(),
{
    let t = s.push(c);
    if s.len() == 0 {
        assert(m == acc);
        assert(t.drop_first() =~= Seq::<char>::empty());
        assert(t[0] == c);
        assert(fold_digits(m * 10 + digit_value(c), t.drop_first(), max, o) == Ok::<
            nat,
            IntErrorKind,
        >(m * 10 + digit_value(c)));
    } else {
        let a2 = acc * 10 + digit_value(s[0]);
        assert(t[0] == s[0]);
        assert(t.drop_first() =~= s.drop_first().push(c));
        assert(fold_digits(a2, s.drop_first(), max, o) == Ok::<nat, IntErrorKind>(m));
        lemma_fold_push(a2, s.drop_first(), c, max, o, m);
    }
}

proof fn lemma_fold_dec(n: nat, max: nat, o: IntErrorKind)
    requires
        n <= max,
    ensures
        fold_digits(0, dec(n), max, o) == Ok::<nat, IntErrorKind>(n),
    decreases n,
{
    if n < 10 {
        lemma_digit_char(n);
        assert(dec(n).drop_first() =~= Seq::<char>::empty());
        assert(dec(n)[0] == digit_char(n));
        assert(fold_digits(n, dec(n).drop_first(), max, o) == Ok::<nat, IntErrorKind>(n));
    } else {
        vstd::arithmetic::div_mod::lemma_fundamental_div_mod(n as int, 10);
        lemma_fold_dec(n / 10, max, o);
        lemma_digit_char(n % 10);
        assert(dec(n) == dec(n / 10).push(digit_char(n % 10)));
        lemma_fold_push(0, dec(n / 10), digit_char(n % 10), max, o, n / 10);
    }
}

/// Law: reading back the decimal text of a number gives the number, for every
/// number the target type holds.
pub proof fn parse_reads_decimal(n: nat, max: nat)
    requires
        n <= max,
    ensures
        parse_unsigned(dec(n), max) == Ok::<nat, IntErrorKind>(n),
{
    lemma_dec_head(n);
    lemma_fold_dec(n, max, IntErrorKind::PosOverflow);
}


/// Law: reading back the decimal text of any `i64` value, sign included,
/// gives the value.
pub proof fn parse_i64_reads_decimal(x: int)
    requires
        -0x8000_0000_0000_0000 <= x <= 0x7fff_ffff_ffff_ffff,
    ensures
        parse_i64(dec_int(x)) == Ok::<int, IntErrorKind>(x),
{
    if x < 0 {
        let m = (-x) as nat;
        lemma_dec_head(m);
        lemma_fold_dec(m, 0x8000_0000_0000_0000, IntErrorKind::NegOverflow);
        assert(dec_int(x).drop_first() =~= dec(m));
        assert(dec_int(x)[0] == '-');
    } else {
        lemma_dec_head(x as nat);
        lemma_fold_dec(x as nat, 0x7fff_ffff_ffff_ffff, IntErrorKind::PosOverflow);
    }
}

} // verus!
