use vstd::prelude::*;
use vstd::string::*;

use crate::text::{
    is_unsigned_literal, parse_u32, parse_u8, trim, trimmed, unsigned_value,
};

verus! {

/// A brightness value: a fraction of the device maximum, or an absolute level.
///
/// A percentage is kept as the exact fraction `num / den`; it is resolved
/// against a device's maximum only when an absolute level is needed.
#[derive(Clone, Copy, Debug, PartialEq, Eq, Structural)]
pub enum Value {
    Percent { num: u32, den: u32 },
    Absolute(u32),
}

/// `n / d` rounded to the nearest integer, halves away from zero.
pub open spec fn round_div(n: nat, d: nat) -> nat
    recommends
        d > 0,
{
    (2 * n + d) / (2 * d)
}

/// The absolute level that `v` stands for on a device whose maximum is `max`:
/// a fraction is clamped to `[0, 1]`, scaled and rounded; a level is clamped
/// to `max`.
pub open spec fn absolute_of(v: Value, max: nat) -> nat {
    match v {
        Value::Percent { num, den } => if num >= den {
            max
        } else {
            round_div((num * max) as nat, den as nat)
        },
        Value::Absolute(a) => if a <= max {
            a as nat
        } else {
            max
        },
    }
}

/// The fraction `(num, den)` of `max` that `v` stands for; `0 / 1` on a
/// device whose maximum is zero.
pub open spec fn fraction_of(v: Value, max: nat) -> (u32, u32) {
    match v {
        Value::Percent { num, den } => (num, den),
        Value::Absolute(a) => if max == 0 {
            (0, 1)
        } else {
            (a, max as u32)
        },
    }
}

/// A rounded fraction of `max` never exceeds `max` while the fraction is
/// below one.
proof fn lemma_round_below_max(num: nat, den: nat, max: nat)
    requires
        num < den,
    ensures
        round_div(num * max, den) <= max,
{
    assert(2 * (num * max) + den < 2 * den * (max + 1)) by (nonlinear_arith)
        requires
            num < den,
    ;
    assert((2 * (num * max) + den) / (2 * den) < max + 1) by (nonlinear_arith)
        requires
            2 * (num * max) + den < 2 * den * (max + 1),
            den > 0,
    ;
}

impl Value {
    /// A percentage has a non-zero denominator.
    pub open spec fn wf(self) -> bool {
        match self {
            Value::Percent { den, .. } => den > 0,
            Value::Absolute(_) => true,
        }
    }

    /// The fraction `(numerator, denominator)` of `max` that this value stands for.
    pub fn to_percent(self, max: u32) -> (r: (u32, u32))
        ensures
            r == fraction_of(self, max as nat),
            r.1 > 0 || (self matches Value::Percent { den, .. } && den == 0),
    {
        match self {
            Value::Percent { num, den } => (num, den),
            Value::Absolute(abs) => if max == 0 {
                (0, 1)
            } else {
                (abs, max)
            },
        }
    }

    /// The absolute level that this value stands for on a device whose maximum is `max`.
    pub fn to_absolute(self, max: u32) -> (r: u32)
        requires
            self.wf(),
        ensures
            r as nat == absolute_of(self, max as nat),
            r <= max,
    {
        match self {
            Value::Percent { num, den } => {
                if num >= den {
                    max
                } else {
                    proof {
                        lemma_round_below_max(num as nat, den as nat, max as nat);
                    }
                    assert((num as nat) * (max as nat) <= 0xffff_ffff_ffff_ffff_ffff_ffffnat)
                        by (nonlinear_arith)
                        requires
                            num <= 0xffff_ffffu32,
                            max <= 0xffff_ffffu32,
                    ;
                    let scaled: u128 = (num as u128) * (max as u128);
                    let rounded: u128 = (2 * scaled + den as u128) / (2 * den as u128);
                    rounded as u32
                }
            },
            Value::Absolute(abs) => if abs <= max {
                abs
            } else {
                max
            },
        }
    }

    /// This value as a percentage of `max`.
    pub fn as_percent(self, max: u32) -> (r: Value)
        ensures
            r == (Value::Percent {
                num: fraction_of(self, max as nat).0,
                den: fraction_of(self, max as nat).1,
            }),
    {
        let (num, den) = self.to_percent(max);
        Value::Percent { num, den }
    }

    /// This value as an absolute level on a device whose maximum is `max`.
    pub fn as_absolute(self, max: u32) -> (r: Value)
        requires
            self.wf(),
        ensures
            r == Value::Absolute(absolute_of(self, max as nat) as u32),
    {
        Value::Absolute(self.to_absolute(max))
    }

    /// `lhs` raised by `rhs`, never above `max`.
    pub fn saturating_add(lhs: u32, rhs: Self, max: u32) -> (r: u32)
        requires
            rhs.wf(),
        ensures
            r as int == if lhs + absolute_of(rhs, max as nat) <= max {
                lhs + absolute_of(rhs, max as nat)
            } else {
                max as int
            },
    {
        let amount = rhs.to_absolute(max);
        let sum: u64 = lhs as u64 + amount as u64;
        if sum <= max as u64 {
            sum as u32
        } else {
            max
        }
    }

    /// `lhs` lowered by `rhs`, never below zero.
    pub fn saturating_sub(lhs: u32, rhs: Self, max: u32) -> (r: u32)
        requires
            rhs.wf(),
        ensures
            r as int == if lhs >= absolute_of(rhs, max as nat) {
                lhs - absolute_of(rhs, max as nat)
            } else {
                0
            },
    {
        let amount = rhs.to_absolute(max);
        if lhs >= amount {
            lhs - amount
        } else {
            0
        }
    }
}

/// Converting a level to a percentage and back gives the level again.
pub proof fn lemma_percent_round_trip(a: u32, max: u32)
    requires
        0 < max,
        a <= max,
    ensures
        absolute_of(
            Value::Percent {
                num: fraction_of(Value::Absolute(a), max as nat).0,
                den: fraction_of(Value::Absolute(a), max as nat).1,
            },
            max as nat,
        ) == a,
{
    if a < max {
        let n = a as nat;
        let m = max as nat;
        assert(2 * (n * m) + m == (2 * n + 1) * m) by (nonlinear_arith);
        assert(((2 * n + 1) * m) / (2 * m) == n) by (nonlinear_arith)
            requires
                m > 0,
        ;
    }
}

/// Resolving any value never leaves `[0, max]`.
pub proof fn lemma_absolute_within_max(v: Value, max: u32)
    requires
        v.wf(),
    ensures
        absolute_of(v, max as nat) <= max,
{
    if let Value::Percent { num, den } = v {
        if num < den {
            lemma_round_below_max(num as nat, den as nat, max as nat);
        }
    }
}

/// Why a brightness value could not be read.
#[derive(Clone, Debug, PartialEq)]
pub enum ParseValueError {
    /// A percentage above one hundred.
    PercentOutOfRange(u8),
    /// The number before `%` is malformed; the text is kept.
    ParsePercentError(std::num::ParseIntError, String),
    /// An absolute level is malformed; the text is kept.
    ParseAbsoluteError(std::num::ParseIntError, String),
}

/// The outcome of reading a value from text without surrounding white space:
/// `N%` with `N` from 0 to 100 is a percentage, `N` an absolute level.
pub open spec fn parsed_value(t: Seq<char>, r: Result<Value, ParseValueError>) -> bool {
    if t.len() > 0 && t.last() == '%' {
        let digits = t.drop_last();
        if !is_unsigned_literal(digits, 0xff) {
            r matches Err(ParseValueError::ParsePercentError(_, s)) && s@ == t
        } else if unsigned_value(digits) > 100 {
            r == Err::<Value, ParseValueError>(
                ParseValueError::PercentOutOfRange(unsigned_value(digits) as u8),
            )
        } else {
            r == Ok::<Value, ParseValueError>(
                Value::Percent { num: unsigned_value(digits) as u32, den: 100 },
            )
        }
    } else if !is_unsigned_literal(t, 0xffff_ffff) {
        r matches Err(ParseValueError::ParseAbsoluteError(_, s)) && s@ == t
    } else {
        r == Ok::<Value, ParseValueError>(Value::Absolute(unsigned_value(t) as u32))
    }
}

impl Value {
    /// Reads a value from text that has no surrounding white space.
    pub fn parse_trimmed(t: &str) -> (r: Result<Value, ParseValueError>)
        ensures
            parsed_value(t@, r),
            r matches Ok(v) ==> v.wf(),
    {
        let n = t.unicode_len();
        if n > 0 && t.get_char(n - 1) == '%' {
            let digits = t.substring_char(0, n - 1);
            assert(digits@ =~= t@.drop_last());
            match parse_u8(digits) {
                Err(e) => Err(ParseValueError::ParsePercentError(e, t.to_owned())),
                Ok(pct) => if pct > 100 {
                    Err(ParseValueError::PercentOutOfRange(pct))
                } else {
                    Ok(Value::Percent { num: pct as u32, den: 100 })
                },
            }
        } else {
            match parse_u32(t) {
                Err(e) => Err(ParseValueError::ParseAbsoluteError(e, t.to_owned())),
                Ok(abs) => Ok(Value::Absolute(abs)),
            }
        }
    }

    /// Reads a value from text, ignoring surrounding white space.
    pub fn parse(s: &str) -> (r: Result<Value, ParseValueError>)
        ensures
            parsed_value(trimmed(s@), r),
            r matches Ok(v) ==> v.wf(),
    {
        Value::parse_trimmed(trim(s))
    }
}

impl std::str::FromStr for Value {
    type Err = ParseValueError;

    fn from_str(s: &str) -> Result<Value, ParseValueError> {
        Value::parse(s)
    }
}

} // verus!
