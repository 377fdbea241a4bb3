//! Decimal integer parsing with the rules of Rust's integer `from_str`: an
//! optional sign, then at least one ASCII digit, nothing else.
use vstd::prelude::*;

verus! {

/// Why a text is not an integer of the wanted type.
#[derive(PartialEq, Eq, Structural, Clone, Copy, Debug)]
pub enum IntErrorKind {
    /// The text is empty.
    Empty,
    /// A character that is not a digit, or a lone sign.
    InvalidDigit,
    /// The value is above the type's maximum.
    PosOverflow,
    /// The value is below the type's minimum.
    NegOverflow,
}

pub open spec fn is_digit(c: char) -> bool {
    '0' <= c && c <= '9'
}

pub open spec fn digit_value(c: char) -> int {
    c as int - '0' as int
}

/// Reads the digits of `s` from position `i` on, into `acc`, towards the
/// negative side when `neg`; stops at the first non-digit or at the first
/// value outside `lo..=hi`.
pub open spec fn scan_digits(s: Seq<char>, i: int, acc: int, neg: bool, lo: int, hi: int) -> Result<int, IntErrorKind>
    decreases s.len() - i,
{
    if i >= s.len() {
        Ok(acc)
    } else if !is_digit(s[i]) {
        Err(IntErrorKind::InvalidDigit)
    } else {
        let next = if neg { acc * 10 - digit_value(s[i]) } else { acc * 10 + digit_value(s[i]) };
        if next > hi {
            Err(IntErrorKind::PosOverflow)
        } else if next < lo {
            Err(IntErrorKind::NegOverflow)
        } else {
            scan_digits(s, i + 1, next, neg, lo, hi)
        }
    }
}

/// The integer that `s` denotes, in `lo..=hi`; a leading `-` is a sign only
/// for a `signed` type, and a sign alone is no number.
pub open spec fn parse_int_spec(s: Seq<char>, lo: int, hi: int, signed: bool) -> Result<int, IntErrorKind> {
    if s.len() == 0 {
        Err(IntErrorKind::Empty)
    } else if s.len() > 1 && s[0] == '+' {
        scan_digits(s, 1, 0, false, lo, hi)
    } else if s.len() > 1 && s[0] == '-' && signed {
        scan_digits(s, 1, 0, true, lo, hi)
    } else {
        scan_digits(s, 0, 0, false, lo, hi)
    }
}

/// The message Rust gives for each kind of integer parse error.
pub open spec fn int_error_message(k: IntErrorKind) -> Seq<char> {
    match k {
        IntErrorKind::Empty => "cannot parse integer from empty string"@,
        IntErrorKind::InvalidDigit => "invalid digit found in string"@,
        IntErrorKind::PosOverflow => "number too large to fit in target type"@,
        IntErrorKind::NegOverflow => "number too small to fit in target type"@,
    }
}

pub fn int_error_text(k: IntErrorKind) -> (s: String)
    ensures
        s@ == int_error_message(k),
{
    match k {
        IntErrorKind::Empty => String::from_str("cannot parse integer from empty string"),
        IntErrorKind::InvalidDigit => String::from_str("invalid digit found in string"),
        IntErrorKind::PosOverflow => String::from_str("number too large to fit in target type"),
        IntErrorKind::NegOverflow => String::from_str("number too small to fit in target type"),
    }
}

proof fn lemma_scan_in_range(s: Seq<char>, i: int, acc: int, neg: bool, lo: int, hi: int)
    requires
        lo <= acc <= hi,
    ensures
        scan_digits(s, i, acc, neg, lo, hi) matches Ok(v) ==> lo <= v <= hi,
    decreases s.len() - i,
{
    if i < s.len() && is_digit(s[i]) {
        let next = if neg { acc * 10 - digit_value(s[i]) } else { acc * 10 + digit_value(s[i]) };
        if lo <= next <= hi {
            lemma_scan_in_range(s, i + 1, next, neg, lo, hi);
        }
    }
}

/// Parses `s` as an integer in `lo..=hi`.
fn parse_int(s: &str, lo: i128, hi: i128, signed: bool) -> (r: Result<i128, IntErrorKind>)
    requires
        -0x8000_0000_0000_0000 <= lo <= 0,
        0 <= hi <= 0xffff_ffff_ffff_ffff,
    ensures
        r matches Ok(v) ==> parse_int_spec(s@, lo as int, hi as int, signed) == Ok::<int, IntErrorKind>(v as int),
        r matches Err(k) ==> parse_int_spec(s@, lo as int, hi as int, signed) == Err::<int, IntErrorKind>(k),
{
    let n = s.unicode_len();
    if n == 0 {
        return Err(IntErrorKind::Empty);
    }
    let first = s.get_char(0);
    let (neg, start): (bool, usize) = if n > 1 && first == '+' {
        (false, 1)
    } else if n > 1 && first == '-' && signed {
        (true, 1)
    } else {
        (false, 0)
    };
    let mut acc: i128 = 0;
    let mut i: usize = start;
    while i < n
        invariant
            n == s@.len(),
            start <= i <= n,
            lo <= acc <= hi,
            -0x8000_0000_0000_0000 <= lo <= 0,
            0 <= hi <= 0xffff_ffff_ffff_ffff,
            parse_int_spec(s@, lo as int, hi as int, signed) == scan_digits(s@, start as int, 0, neg, lo as int, hi as int),
            scan_digits(s@, start as int, 0, neg, lo as int, hi as int)
                == scan_digits(s@, i as int, acc as int, neg, lo as int, hi as int),
        decreases n - i,
    {
        let c = s.get_char(i);
        if !('0' <= c && c <= '9') {
            return Err(IntErrorKind::InvalidDigit);
        }
        let d: i128 = (c as u32 - '0' as u32) as i128;
        let next: i128 = if neg { acc * 10 - d } else { acc * 10 + d };
        if next > hi {
            return Err(IntErrorKind::PosOverflow);
        }
        if next < lo {
            return Err(IntErrorKind::NegOverflow);
        }
        acc = next;
        i += 1;
    }
    Ok(acc)
}

/// Parses a text as an `i64`, as Rust's `str::parse::<i64>` does.
pub fn parse_i64(s: &str) -> (r: Result<i64, IntErrorKind>)
    ensures
        r matches Ok(v) ==> parse_int_spec(s@, i64::MIN as int, i64::MAX as int, true) == Ok::<int, IntErrorKind>(v as int),
        r matches Err(k) ==> parse_int_spec(s@, i64::MIN as int, i64::MAX as int, true) == Err::<int, IntErrorKind>(k),
{
    match parse_int(s, i64::MIN as i128, i64::MAX as i128, true) {
        Ok(v) => {
            proof { lemma_parse_in_range(s@, i64::MIN as int, i64::MAX as int, true); }
            Ok(v as i64)
        },
        Err(k) => Err(k),
    }
}

/// Parses a text as a `u64`, as Rust's `str::parse::<u64>` does.
pub fn parse_u64(s: &str) -> (r: Result<u64, IntErrorKind>)
    ensures
        r matches Ok(v) ==> parse_int_spec(s@, 0, u64::MAX as int, false) == Ok::<int, IntErrorKind>(v as int),
        r matches Err(k) ==> parse_int_spec(s@, 0, u64::MAX as int, false) == Err::<int, IntErrorKind>(k),
{
    match parse_int(s, 0, u64::MAX as i128, false) {
        Ok(v) => {
            proof { lemma_parse_in_range(s@, 0, u64::MAX as int, false); }
            Ok(v as u64)
        },
        Err(k) => Err(k),
    }
}

/// A parsed integer lies within the bounds it was parsed against.
pub proof fn lemma_parse_in_range(s: Seq<char>, lo: int, hi: int, signed: bool)
    requires
        lo <= 0 <= hi,
    ensures
        parse_int_spec(s, lo, hi, signed) matches Ok(v) ==> lo <= v <= hi,
{
    if s.len() > 1 && s[0] == '+' {
        lemma_scan_in_range(s, 1, 0, false, lo, hi);
    } else if s.len() > 1 && s[0] == '-' && signed {
        lemma_scan_in_range(s, 1, 0, true, lo, hi);
    } else {
        lemma_scan_in_range(s, 0, 0, false, lo, hi);
    }
}

} // verus!
