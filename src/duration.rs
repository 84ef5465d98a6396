use vstd::prelude::*;
use vstd::string::*;

use crate::text::{
    is_numeric, is_unsigned_literal, numeric_char, parse_u64, trim, trimmed, unsigned_value,
};

verus! {

#[verifier::external_type_specification]
#[verifier::external_body]
pub struct ExParseFloatError(std::num::ParseFloatError);

/// Relies on `ParseFloatError::clone`, which copies the error; nothing is
/// claimed of the copy.
pub assume_specification[ <std::num::ParseFloatError as Clone>::clone ](
    e: &std::num::ParseFloatError,
) -> std::num::ParseFloatError;

/// Nanoseconds in one millisecond.
pub const NANOS_PER_MILLI: u128 = 1_000_000;

/// Nanoseconds in one decisecond.
pub const NANOS_PER_DECI: u128 = 100_000_000;

/// A span of time given on the command line, in nanoseconds.
#[derive(Clone, Copy, Debug, PartialEq, Eq, Structural)]
pub struct DurationArgument(pub u128);

impl DurationArgument {
    /// No time at all: changes are applied at once.
    pub fn zero() -> (r: DurationArgument)
        ensures
            r.0 == 0,
    {
        DurationArgument(0)
    }
}

/// A duration literal once its unit is known.
#[derive(Clone, Debug, PartialEq)]
pub enum DurationLiteral {
    /// A whole number of milliseconds or deciseconds, as an exact duration.
    Exact(DurationArgument),
    /// A decimal number, still as text, of units that last `unit_secs` seconds each.
    Fractional { number: String, unit_secs: u32 },
}

/// Why a duration literal could not be read.
#[derive(Clone, Debug, PartialEq)]
pub enum ParseDurationError {
    MissingNumber,
    NegativeNumber,
    MissingSuffix,
    InvalidSuffix(String),
    ParseFloatError(std::num::ParseFloatError),
    ParseIntError(std::num::ParseIntError),
}

/// The length of `v` once trailing characters that are neither numeric nor
/// `.` are removed: where its unit begins.
pub open spec fn unit_start(v: Seq<char>) -> nat
    decreases v.len(),
{
    if v.len() == 0 {
        0
    } else if numeric_char(v.last()) || v.last() == '.' {
        v.len()
    } else {
        unit_start(v.drop_last())
    }
}

/// The exact duration of a whole number `number` of units of `nanos_per_unit`.
pub open spec fn whole_units(
    number: Seq<char>,
    nanos_per_unit: nat,
    r: Result<DurationLiteral, ParseDurationError>,
) -> bool {
    if number.len() == 0 {
        r == Err::<DurationLiteral, ParseDurationError>(ParseDurationError::MissingNumber)
    } else if !is_unsigned_literal(number, 0xffff_ffff_ffff_ffff) {
        r matches Err(ParseDurationError::ParseIntError(_))
    } else {
        r == Ok::<DurationLiteral, ParseDurationError>(
            DurationLiteral::Exact(DurationArgument((unsigned_value(number) * nanos_per_unit) as u128)),
        )
    }
}

/// A decimal `number` of units of `unit_secs` seconds.
pub open spec fn fractional_units(
    number: Seq<char>,
    unit_secs: u32,
    r: Result<DurationLiteral, ParseDurationError>,
) -> bool {
    if number.len() == 0 {
        r == Err::<DurationLiteral, ParseDurationError>(ParseDurationError::MissingNumber)
    } else {
        r matches Ok(DurationLiteral::Fractional { number: n, unit_secs: u }) && n@ == number && u
            == unit_secs
    }
}

/// The outcome of reading the duration literal `v`: a number followed by
/// `ms`, `ds`, `s` or `m`.
pub open spec fn parsed_duration(v: Seq<char>, r: Result<DurationLiteral, ParseDurationError>) -> bool {
    let n = v.len() as int;
    if n == 0 {
        r == Err::<DurationLiteral, ParseDurationError>(ParseDurationError::MissingNumber)
    } else if n >= 2 && v[n - 2] == 'm' && v[n - 1] == 's' {
        whole_units(v.subrange(0, n - 2), NANOS_PER_MILLI as nat, r)
    } else if n >= 2 && v[n - 2] == 'd' && v[n - 1] == 's' {
        whole_units(v.subrange(0, n - 2), NANOS_PER_DECI as nat, r)
    } else if v[n - 1] == 's' {
        fractional_units(v.drop_last(), 1, r)
    } else if v[n - 1] == 'm' {
        fractional_units(v.drop_last(), 60, r)
    } else if unit_start(v) == n {
        r == Err::<DurationLiteral, ParseDurationError>(ParseDurationError::MissingSuffix)
    } else {
        r matches Err(ParseDurationError::InvalidSuffix(s)) && s@ == v.subrange(
            unit_start(v) as int,
            n,
        )
    }
}

/// Reads a whole number of units of `nanos_per_unit` nanoseconds.
fn parse_whole_units(number: &str, nanos_per_unit: u128) -> (r: Result<
    DurationLiteral,
    ParseDurationError,
>)
    requires
        nanos_per_unit <= NANOS_PER_DECI,
    ensures
        whole_units(number@, nanos_per_unit as nat, r),
{
    if number.unicode_len() == 0 {
        return Err(ParseDurationError::MissingNumber);
    }
    match parse_u64(number) {
        Err(e) => Err(ParseDurationError::ParseIntError(e)),
        Ok(count) => {
            assert((count as nat) * (nanos_per_unit as nat) <= 0xffff_ffff_ffff_ffff_ffff_ffff_ffff_ffffnat)
                by (nonlinear_arith)
                requires
                    count <= 0xffff_ffff_ffff_ffffu64,
                    nanos_per_unit <= NANOS_PER_DECI,
            ;
            Ok(DurationLiteral::Exact(DurationArgument((count as u128) * nanos_per_unit)))
        },
    }
}

/// Keeps a decimal number of units of `unit_secs` seconds.
fn fractional(number: &str, unit_secs: u32) -> (r: Result<DurationLiteral, ParseDurationError>)
    ensures
        fractional_units(number@, unit_secs, r),
{
    if number.unicode_len() == 0 {
        Err(ParseDurationError::MissingNumber)
    } else {
        Ok(DurationLiteral::Fractional { number: number.to_owned(), unit_secs })
    }
}

/// Reads a duration literal: a number followed by `ms` (milliseconds), `ds`
/// (deciseconds), `s` (seconds) or `m` (minutes). Milliseconds and
/// deciseconds take a whole number; seconds and minutes a decimal one.
pub fn parse_duration(value: &str) -> (r: Result<DurationLiteral, ParseDurationError>)
    ensures
        parsed_duration(value@, r),
{
    let n = value.unicode_len();
    if n == 0 {
        return Err(ParseDurationError::MissingNumber);
    }
    let last = value.get_char(n - 1);
    if n >= 2 && last == 's' {
        let unit = value.get_char(n - 2);
        if unit == 'm' {
            return parse_whole_units(value.substring_char(0, n - 2), NANOS_PER_MILLI);
        } else if unit == 'd' {
            return parse_whole_units(value.substring_char(0, n - 2), NANOS_PER_DECI);
        }
    }
    if last == 's' {
        let number = value.substring_char(0, n - 1);
        assert(number@ =~= value@.drop_last());
        return fractional(number, 1);
    }
    if last == 'm' {
        let number = value.substring_char(0, n - 1);
        assert(number@ =~= value@.drop_last());
        return fractional(number, 60);
    }
    let mut i: usize = n;
    let mut at_number = false;
    assert(value@.subrange(0, n as int) =~= value@);
    while i > 0 && !at_number
        invariant
            n == value@.len(),
            i <= n,
            unit_start(value@.subrange(0, i as int)) == unit_start(value@),
            at_number ==> i > 0 && (numeric_char(value@[i - 1]) || value@[i - 1] == '.'),
        decreases i + (if at_number { 0int } else { 1int }),
    {
        let c = value.get_char(i - 1);
        if is_numeric(c) || c == '.' {
            at_number = true;
        } else {
            assert(value@.subrange(0, i as int).drop_last() =~= value@.subrange(0, i - 1));
            i = i - 1;
        }
    }
    assert(unit_start(value@) == i);
    if i == n {
        Err(ParseDurationError::MissingSuffix)
    } else {
        Err(ParseDurationError::InvalidSuffix(value.substring_char(i, n).to_owned()))
    }
}

impl DurationArgument {
    /// Reads a duration literal, ignoring surrounding white space.
    pub fn parse(value: &str) -> (r: Result<DurationLiteral, ParseDurationError>)
        ensures
            parsed_duration(trimmed(value@), r),
    {
        parse_duration(trim(value))
    }

    /// The duration in nanoseconds.
    pub fn as_nanos(&self) -> (r: u128)
        ensures
            r == self.0,
    {
        self.0
    }
}

} // verus!
