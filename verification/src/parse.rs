//! Parsing of the request timeout given on the command line: an unsigned
//! decimal number of seconds, read as `u64::from_str` reads it.

use vstd::prelude::*;
use std::time::Duration;
use crate::text::chars_of;

verus! {

/// Why a text is not a number of seconds; the three ways in which
/// `u64::from_str` refuses a text.
#[derive(Debug, Clone, Copy, PartialEq, Eq, Structural)]
pub enum ParseTimeoutError {
    /// The text is empty.
    Empty,
    /// A character other than a decimal digit stands where a digit is due.
    InvalidDigit,
    /// The number does not fit in a `u64`.
    PosOverflow,
}

impl ParseTimeoutError {
    /// The message that `u64::from_str` gives for this kind of failure.
    pub fn message(&self) -> (m: &'static str)
        ensures
            m@ == self.spec_message(),
    {
        match self {
            ParseTimeoutError::Empty => "cannot parse integer from empty string",
            ParseTimeoutError::InvalidDigit => "invalid digit found in string",
            ParseTimeoutError::PosOverflow => "number too large to fit in target type",
        }
    }

    pub open spec fn spec_message(&self) -> Seq<char> {
        match self {
            ParseTimeoutError::Empty => "cannot parse integer from empty string"@,
            ParseTimeoutError::InvalidDigit => "invalid digit found in string"@,
            ParseTimeoutError::PosOverflow => "number too large to fit in target type"@,
        }
    }
}

pub open spec fn is_digit(c: char) -> bool {
    '0' <= c <= '9'
}

pub open spec fn digit_value(c: char) -> int {
    c as int - '0' as int
}

/// Reads the digits of `d` from left to right, as `u64::from_str` does: the
/// value read so far, or the first failure met on the way (a non-digit, or a
/// value that no longer fits in a `u64`).
pub open spec fn scan_digits(d: Seq<char>) -> Result<nat, ParseTimeoutError>
    decreases d.len(),
{
    if d.len() == 0 {
        Ok(0)
    } else {
        match scan_digits(d.drop_last()) {
            Err(e) => Err(e),
            Ok(v) => if !is_digit(d.last()) {
                Err(ParseTimeoutError::InvalidDigit)
            } else if v * 10 + digit_value(d.last()) > u64::MAX {
                Err(ParseTimeoutError::PosOverflow)
            } else {
                Ok((v * 10 + digit_value(d.last())) as nat)
            },
        }
    }
}

/// What `u64::from_str` gives for the text `s`: an optional leading `+`,
/// then at least one decimal digit, the value at most `u64::MAX`.
pub open spec fn parse_u64_spec(s: Seq<char>) -> Result<u64, ParseTimeoutError> {
    if s.len() == 0 {
        Err(ParseTimeoutError::Empty)
    } else if s.len() == 1 && (s[0] == '+' || s[0] == '-') {
        Err(ParseTimeoutError::InvalidDigit)
    } else {
        let digits = if s[0] == '+' { s.drop_first() } else { s };
        match scan_digits(digits) {
            Ok(v) => Ok(v as u64),
            Err(e) => Err(e),
        }
    }
}

/// Parses an unsigned decimal number, as `u64::from_str` does.
pub fn parse_u64(input: &str) -> (r: Result<u64, ParseTimeoutError>)
    ensures
        r == parse_u64_spec(input@),
{
    let s = chars_of(input);
    let len = s.len();
    if len == 0 {
        return Err(ParseTimeoutError::Empty);
    }
    if len == 1 && (s[0] == '+' || s[0] == '-') {
        return Err(ParseTimeoutError::InvalidDigit);
    }
    let start: usize = if s[0] == '+' { 1 } else { 0 };
    let ghost digits = s@.subrange(start as int, len as int);
    assert(digits =~= (if s@[0] == '+' { s@.drop_first() } else { s@ }));
    let mut acc: u64 = 0;
    let mut i: usize = start;
    assert(digits.take(0) =~= Seq::<char>::empty());
    while i < len
        invariant
            s@ == input@,
            len == s@.len(),
            start <= i <= len,
            digits == s@.subrange(start as int, len as int),
            len > 0,
            !(len == 1 && (s@[0] == '+' || s@[0] == '-')),
            digits == (if s@[0] == '+' { s@.drop_first() } else { s@ }),
            scan_digits(digits.take(i - start)) == Ok::<nat, ParseTimeoutError>(acc as nat),
        decreases len - i,
    {
        let c = s[i];
        let ghost prefix = digits.take(i - start + 1);
        assert(prefix.drop_last() =~= digits.take(i - start));
        assert(prefix.last() == c);
        if !('0' <= c && c <= '9') {
            assert(scan_digits(prefix) == Err::<nat, ParseTimeoutError>(ParseTimeoutError::InvalidDigit));
            proof { lemma_scan_prefix_fails(digits, (i - start) as int); }
            return Err(ParseTimeoutError::InvalidDigit);
        }
        let d: u64 = (c as u32 - '0' as u32) as u64;
        let next: u128 = acc as u128 * 10 + d as u128;
        assert(d == digit_value(c));
        if next > u64::MAX as u128 {
            assert(scan_digits(prefix) == Err::<nat, ParseTimeoutError>(ParseTimeoutError::PosOverflow));
            proof { lemma_scan_prefix_fails(digits, (i - start) as int); }
            return Err(ParseTimeoutError::PosOverflow);
        }
        acc = next as u64;
        i = i + 1;
        assert(scan_digits(digits.take(i - start)) == Ok::<nat, ParseTimeoutError>(acc as nat));
    }
    assert(digits.take(len - start) =~= digits);
    Ok(acc)
}

/// The decimal digit for `d` (below ten).
pub open spec fn digit_char(d: nat) -> char {
    ((48 + d) as u32) as char
}

/// The decimal text of `n`, as `u64::to_string` writes it: no sign, no
/// leading zero, the single digit `0` for zero.
pub open spec fn decimal_text(n: nat) -> Seq<char>
    decreases n,
{
    if n < 10 {
        seq![digit_char(n)]
    } else {
        decimal_text(n / 10).push(digit_char(n % 10))
    }
}

proof fn lemma_scan_decimal_text(n: nat)
    ensures
        scan_digits(decimal_text(n)) == Ok::<nat, ParseTimeoutError>(n) || n > u64::MAX,
        decimal_text(n).len() >= 1,
        is_digit(decimal_text(n)[0]),
    decreases n,
{
    let t = decimal_text(n);
    let c = digit_char(n % 10);
    assert(c as int == 48 + n % 10);
    assert(is_digit(c) && digit_value(c) == n % 10);
    if n < 10 {
        assert(t.drop_last() =~= Seq::<char>::empty());
    } else {
        lemma_scan_decimal_text(n / 10);
        assert(t.drop_last() =~= decimal_text(n / 10));
        assert(t[0] == decimal_text(n / 10)[0]);
        assert(t.last() == c);
        assert((n / 10) * 10 + n % 10 == n);
        if n <= u64::MAX {
            assert(scan_digits(t.drop_last()) == Ok::<nat, ParseTimeoutError>(n / 10));
            assert(scan_digits(t) == Ok::<nat, ParseTimeoutError>(n));
        }
    }
}

/// Every `u64` written in decimal reads back as itself: the text of `n`
/// parses to `n`.
pub proof fn lemma_parse_decimal_text(n: u64)
    ensures
        parse_u64_spec(decimal_text(n as nat)) == Ok::<u64, ParseTimeoutError>(n),
{
    lemma_scan_decimal_text(n as nat);
}

proof fn lemma_scan_ok_only_digits(d: Seq<char>)
    ensures
        scan_digits(d) is Ok ==> forall|i: int| 0 <= i < d.len() ==> '0' <= #[trigger] d[i] <= '9',
    decreases d.len(),
{
    if d.len() > 0 {
        lemma_scan_ok_only_digits(d.drop_last());
        if scan_digits(d) is Ok {
            assert forall|i: int| 0 <= i < d.len() implies '0' <= #[trigger] d[i] <= '9' by {
                if i < d.len() - 1 {
                    assert(d[i] == d.drop_last()[i]);
                }
            }
        }
    }
}

/// What parses: only a non-empty text of decimal digits, with at most one
/// leading `+`; the empty text is refused as empty, and a lone sign as an
/// invalid digit.
pub proof fn lemma_parse_accepts_only_digits(s: Seq<char>)
    ensures
        parse_u64_spec(s) is Ok ==> s.len() >= 1 && forall|i: int|
            0 <= i < s.len() ==> ('0' <= #[trigger] s[i] <= '9' || (i == 0 && s[i] == '+' && s.len()
                >= 2)),
        s.len() == 0 ==> parse_u64_spec(s) == Err::<u64, ParseTimeoutError>(ParseTimeoutError::Empty),
        s =~= seq!['+'] || s =~= seq!['-'] ==> parse_u64_spec(s) == Err::<u64, ParseTimeoutError>(
            ParseTimeoutError::InvalidDigit,
        ),
{
    if s.len() > 0 {
        let digits = if s[0] == '+' { s.drop_first() } else { s };
        lemma_scan_ok_only_digits(digits);
        if parse_u64_spec(s) is Ok {
            assert forall|i: int| 0 <= i < s.len() implies ('0' <= #[trigger] s[i] <= '9' || (i == 0
                && s[i] == '+' && s.len() >= 2)) by {
                if s[0] == '+' {
                    if i > 0 {
                        assert(s[i] == digits[i - 1]);
                    }
                } else {
                    assert(s[i] == digits[i]);
                }
            }
        }
    }
}

/// Once a prefix of the digits fails, the whole text fails the same way.
proof fn lemma_scan_prefix_fails(d: Seq<char>, k: int)
    requires
        0 <= k < d.len(),
        scan_digits(d.take(k + 1)) is Err,
    ensures
        scan_digits(d) == scan_digits(d.take(k + 1)),
    decreases d.len() - k,
{
    if k + 1 == d.len() {
        assert(d.take(k + 1) =~= d);
    } else {
        assert(d.take(k + 2).drop_last() =~= d.take(k + 1));
        lemma_scan_prefix_fails(d, k + 1);
    }
}

/// The `Duration` of `secs` whole seconds, as `Duration::from_secs` builds it.
pub uninterp spec fn duration_of_secs(secs: u64) -> Duration;

/// The whole seconds of `d`, as `Duration::as_secs` gives them.
pub uninterp spec fn duration_secs(d: Duration) -> u64;

/// The fraction of a second in `d`, in nanoseconds, as
/// `Duration::subsec_nanos` gives it.
pub uninterp spec fn duration_subsec_nanos(d: Duration) -> u32;

/// Calls `Duration::from_secs`; its result is a function of `secs` alone,
/// and (as its documentation says) a duration of exactly `secs` whole
/// seconds: `as_secs` gives `secs` back and `subsec_nanos` gives zero.
#[verifier::external_body]
fn duration_from_secs(secs: u64) -> (d: Duration)
    ensures
        d == duration_of_secs(secs),
        duration_secs(d) == secs,
        duration_subsec_nanos(d) == 0,
{
    Duration::from_secs(secs)
}

/// Reads a request timeout given in whole seconds.
pub fn parse_timeout(input: &str) -> (r: Result<Duration, ParseTimeoutError>)
    ensures
        match parse_u64_spec(input@) {
            Ok(secs) => {
                &&& r == Ok::<Duration, ParseTimeoutError>(duration_of_secs(secs))
                &&& duration_secs(duration_of_secs(secs)) == secs
                &&& duration_subsec_nanos(duration_of_secs(secs)) == 0
            },
            Err(e) => r == Err::<Duration, ParseTimeoutError>(e),
        },
{
    match parse_u64(input) {
        Ok(secs) => Ok(duration_from_secs(secs)),
        Err(e) => Err(e),
    }
}

} // verus!
