//! Reading numbers and durations from text.

use vstd::prelude::*;
use vstd::string::StrSliceExecFns;
use std::num::ParseIntError;
use std::time::Duration;

verus! {

/// The error that std's integer parsing reports.
#[verifier::external_type_specification]
#[verifier::external_body]
pub struct ExParseIntError(ParseIntError);

/// The duration of `secs` whole seconds, as `Duration::from_secs` makes it.
pub uninterp spec fn seconds(secs: u64) -> Duration;

/// Whether `c` is one of the ten decimal digits.
pub open spec fn is_digit(c: char) -> bool {
    '0' <= c <= '9'
}

/// Whether `s` is one or more decimal digits.
pub open spec fn all_digits(s: Seq<char>) -> bool {
    s.len() > 0 && forall|i: int| 0 <= i < s.len() ==> is_digit(#[trigger] s[i])
}

/// The number that the decimal digits `s` spell.
pub open spec fn digits_value(s: Seq<char>) -> nat
    decreases s.len(),
{
    if s.len() == 0 {
        0
    } else {
        digits_value(s.drop_last()) * 10 + (s.last() as nat - '0' as nat) as nat
    }
}

/// The number that `s` spells as digits with an optional sign in front, if
/// it spells one.
pub open spec fn signed_number(s: Seq<char>) -> Option<int> {
    if s.len() > 0 && s[0] == '-' {
        if all_digits(s.drop_first()) {
            Some(-(digits_value(s.drop_first()) as int))
        } else {
            None
        }
    } else {
        unsigned_number(s)
    }
}

/// The number that `s` spells as digits with an optional `+` in front, if it
/// spells one.
pub open spec fn unsigned_number(s: Seq<char>) -> Option<int> {
    if s.len() > 0 && s[0] == '+' {
        if all_digits(s.drop_first()) {
            Some(digits_value(s.drop_first()) as int)
        } else {
            None
        }
    } else if all_digits(s) {
        Some(digits_value(s) as int)
    } else {
        None
    }
}

/// Whether `s` spells a number that an `i64` holds.
pub open spec fn spells_i64(s: Seq<char>) -> bool {
    signed_number(s) is Some && i64::MIN <= signed_number(s)->0 <= i64::MAX
}

/// Whether `s` spells a number that a `u64` holds.
pub open spec fn spells_u64(s: Seq<char>) -> bool {
    unsigned_number(s) is Some && unsigned_number(s)->0 <= u64::MAX
}

/// The text that is read as a count of seconds: `arg` itself if it is a
/// number, else `arg` without one `s` at its end.
pub open spec fn seconds_text(arg: Seq<char>) -> Seq<char> {
    if !spells_i64(arg) && arg.len() > 0 && arg.last() == 's' {
        arg.drop_last()
    } else {
        arg
    }
}

/// `str::parse::<i64>`: succeeds exactly on an optional `+` or `-` followed
/// by decimal digits, and nothing else, whose value an `i64` holds, and then
/// returns that value.
#[verifier::external_body]
fn parse_i64(s: &str) -> (r: Result<i64, ParseIntError>)
    ensures
        r is Ok <==> spells_i64(s@),
        r is Ok ==> r->Ok_0 == signed_number(s@)->0,
{
    s.parse::<i64>()
}

/// `str::parse::<u64>`: succeeds exactly on an optional `+` followed by
/// decimal digits, and nothing else, whose value a `u64` holds, and then
/// returns that value.
#[verifier::external_body]
fn parse_u64(s: &str) -> (r: Result<u64, ParseIntError>)
    ensures
        r is Ok <==> spells_u64(s@),
        r is Ok ==> r->Ok_0 == unsigned_number(s@)->0,
{
    s.parse::<u64>()
}

/// `Duration::from_secs`: the duration of that many whole seconds.
#[verifier::external_body]
fn duration_from_secs(secs: u64) -> (r: Duration)
    ensures
        r == seconds(secs),
{
    Duration::from_secs(secs)
}

/// Whether `s` is a whole number that an `i64` holds.
pub fn is_number(s: &str) -> (r: bool)
    ensures
        r == spells_i64(s@),
{
    parse_i64(s).is_ok()
}

/// Reads a count of seconds, with or without an `s` behind it.
pub fn parse_secs(arg: &str) -> (r: Result<u64, ParseIntError>)
    ensures
        r is Ok <==> spells_u64(seconds_text(arg@)),
        r is Ok ==> r->Ok_0 == unsigned_number(seconds_text(arg@))->0,
{
    let n: usize = arg.unicode_len();
    let input: &str = if !is_number(arg) && n > 0 && arg.get_char(n - 1) == 's' {
        arg.substring_char(0, n - 1)
    } else {
        arg
    };
    assert(input@ =~= seconds_text(arg@));
    parse_u64(input)
}

/// Reads a count of seconds, with or without an `s` behind it, as a
/// duration.
pub fn parse_secs_duration(arg: &str) -> (r: Result<Duration, ParseIntError>)
    ensures
        r is Ok <==> spells_u64(seconds_text(arg@)),
        r is Ok ==> r->Ok_0 == seconds(unsigned_number(seconds_text(arg@))->0 as u64),
{
    match parse_secs(arg) {
        Ok(secs) => Ok(duration_from_secs(secs)),
        Err(e) => Err(e),
    }
}

} // verus!
