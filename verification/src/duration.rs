//! A span of time with nanosecond precision, possibly negative.

use vstd::prelude::*;
use vstd::arithmetic::div_mod::{
    lemma_div_denominator, lemma_div_pos_is_pos, lemma_fundamental_div_mod,
    lemma_fundamental_div_mod_converse_div, lemma_fundamental_div_mod_converse_mod,
};
use vstd::arithmetic::mul::lemma_mul_strictly_positive;
use core::cmp::Ordering;
use vstd::std_specs::cmp::PartialOrdSpec;

verus! {

/// The number of nanoseconds in one second.
pub const NANOS_PER_SECOND: i32 = 1_000_000_000;

/// The number of seconds in one minute.
pub const SECONDS_PER_MINUTE: i64 = 60;

/// The number of seconds in one hour.
pub const SECONDS_PER_HOUR: i64 = 60 * SECONDS_PER_MINUTE;

/// The number of seconds in one day.
pub const SECONDS_PER_DAY: i64 = 24 * SECONDS_PER_HOUR;

/// The number of seconds in one week.
pub const SECONDS_PER_WEEK: i64 = 7 * SECONDS_PER_DAY;

/// The total nanosecond count of the largest representable duration.
pub const MAX_TOTAL_NANOS: i128 = 9_223_372_036_854_775_807i128 * 1_000_000_000 + 999_999_999;

/// The total nanosecond count of the smallest representable duration.
pub const MIN_TOTAL_NANOS: i128 = -9_223_372_036_854_775_808i128 * 1_000_000_000 - 999_999_999;

/// The magnitude of a mathematical integer.
pub open spec fn iabs(a: int) -> int {
    if a >= 0 {
        a
    } else {
        -a
    }
}

/// The quotient of division rounded toward zero, which is what Rust's `/`
/// computes on signed integers.
pub open spec fn tdiv(a: int, b: int) -> int {
    if (a >= 0) == (b >= 0) {
        iabs(a) / iabs(b)
    } else {
        -(iabs(a) / iabs(b))
    }
}

/// The remainder of division rounded toward zero, sign-matched to the
/// dividend, which is what Rust's `%` computes on signed integers.
pub open spec fn tmod(a: int, b: int) -> int {
    if a >= 0 {
        a % iabs(b)
    } else {
        -((-a) % iabs(b))
    }
}

/// A total nanosecond count clamped to the representable range.
pub open spec fn clamp_total(n: int) -> int {
    if n > MAX_TOTAL_NANOS as int {
        MAX_TOTAL_NANOS as int
    } else if n < MIN_TOTAL_NANOS as int {
        MIN_TOTAL_NANOS as int
    } else {
        n
    }
}

/// Truncating quotient and remainder reassemble the dividend; the remainder is
/// smaller in magnitude than the divisor and carries the dividend's sign, and
/// the quotient carries the dividend's sign as well.
pub proof fn lemma_tdiv_tmod(a: int, b: int)
    requires
        b > 0,
    ensures
        a == b * tdiv(a, b) + tmod(a, b),
        iabs(tmod(a, b)) < b,
        a >= 0 ==> tdiv(a, b) >= 0 && tmod(a, b) >= 0,
        a <= 0 ==> tdiv(a, b) <= 0 && tmod(a, b) <= 0,
{
    if a >= 0 {
        lemma_fundamental_div_mod(a, b);
    } else {
        lemma_fundamental_div_mod(-a, b);
        let q0 = (-a) / b;
        let r0 = (-a) % b;
        assert(a == b * (-q0) + (-r0)) by (nonlinear_arith)
            requires
                -a == b * q0 + r0,
        ;
    }
}

/// The decomposition of a dividend into a truncating quotient and remainder is
/// unique.
pub proof fn lemma_tdiv_tmod_unique(a: int, b: int, q: int, r: int)
    requires
        b > 0,
        a == b * q + r,
        a >= 0 ==> 0 <= r < b,
        a < 0 ==> -b < r <= 0,
    ensures
        q == tdiv(a, b),
        r == tmod(a, b),
{
    if a >= 0 {
        lemma_fundamental_div_mod_converse_div(a, b, q, r);
        lemma_fundamental_div_mod_converse_mod(a, b, q, r);
    } else {
        assert(-a == b * (-q) + (-r)) by (nonlinear_arith)
            requires
                a == b * q + r,
        ;
        lemma_fundamental_div_mod_converse_div(-a, b, -q, -r);
        lemma_fundamental_div_mod_converse_mod(-a, b, -q, -r);
    }
}

/// Splitting a division by a product into two successive divisions is exact
/// for truncating division as well.
pub proof fn lemma_tdiv_denominator(a: int, b: int, c: int)
    requires
        b > 0,
        c > 0,
    ensures
        tdiv(tdiv(a, b), c) == tdiv(a, b * c),
{
    lemma_mul_strictly_positive(b, c);
    if a >= 0 {
        lemma_div_pos_is_pos(a, b);
        lemma_div_denominator(a, b, c);
    } else {
        lemma_div_pos_is_pos(-a, b);
        lemma_div_denominator(-a, b, c);
    }
}

/// A span of time with nanosecond precision.
///
/// Each `Duration` is composed of a whole number of seconds and a fractional
/// part represented in nanoseconds. The fractional part always carries the
/// sign of the whole value, so the model of a duration is simply its total
/// count of nanoseconds. This representation allows for negative durations,
/// unlike the companion non-negative representation.
#[derive(Clone, Copy, Debug, PartialEq, Eq, Structural, Hash)]
pub struct Duration {
    /// Number of whole seconds.
    seconds: i64,
    /// Number of nanoseconds within the second. The sign always matches the
    /// `seconds` field.
    nanoseconds: i32,
}

impl View for Duration {
    type V = int;

    /// A duration is modelled by its total count of nanoseconds.
    closed spec fn view(&self) -> int {
        self.seconds * 1_000_000_000 + self.nanoseconds
    }
}

impl Duration {
    /// The representation invariant: the sub-second count stays strictly
    /// within one second, and its sign matches the whole-second count.
    pub closed spec fn wf(self) -> bool {
        &&& -1_000_000_000 < self.nanoseconds < 1_000_000_000
        &&& self.seconds > 0 ==> self.nanoseconds >= 0
        &&& self.seconds < 0 ==> self.nanoseconds <= 0
    }

    /// A well-formed duration's model lies in the representable range.
    pub proof fn lemma_view_in_range(self)
        requires
            self.wf(),
        ensures
            MIN_TOTAL_NANOS as int <= self@ <= MAX_TOTAL_NANOS as int,
    {
    }

    /// Well-formed durations with equal models are equal.
    pub proof fn lemma_view_injective(a: Duration, b: Duration)
        requires
            a.wf(),
            b.wf(),
            a@ == b@,
        ensures
            a == b,
    {
        lemma_tdiv_tmod_unique(a@, 1_000_000_000, a.seconds as int, a.nanoseconds as int);
        lemma_tdiv_tmod_unique(b@, 1_000_000_000, b.seconds as int, b.nanoseconds as int);
    }

    /// The maximum possible duration. Adding any positive duration to this
    /// saturates.
    pub fn max_value() -> (r: Self)
        ensures
            r.wf(),
            r@ == MAX_TOTAL_NANOS as int,
    {
        Duration { seconds: i64::MAX, nanoseconds: 999_999_999 }
    }

    /// The minimum possible duration. Adding any negative duration to this
    /// saturates.
    pub fn min_value() -> (r: Self)
        ensures
            r.wf(),
            r@ == MIN_TOTAL_NANOS as int,
    {
        Duration { seconds: i64::MIN, nanoseconds: -999_999_999 }
    }

    /// Create a new `Duration` with the given number of seconds.
    pub fn seconds(seconds: i64) -> (r: Self)
        ensures
            r.wf(),
            r@ == seconds * 1_000_000_000,
    {
        Duration { seconds, nanoseconds: 0 }
    }

    /// The single normalization entry point: decompose a total nanosecond
    /// count into the two-field form, clamping to the representable extremes.
    pub(crate) fn nanoseconds_i128(nanoseconds: i128) -> (r: Self)
        ensures
            r.wf(),
            r@ == clamp_total(nanoseconds as int),
    {
        if nanoseconds > MAX_TOTAL_NANOS {
            Self::max_value()
        } else if nanoseconds < MIN_TOTAL_NANOS {
            Self::min_value()
        } else {
            let s: i128 = nanoseconds / 1_000_000_000;
            let n: i128 = nanoseconds % 1_000_000_000;
            proof {
                lemma_tdiv_tmod(nanoseconds as int, 1_000_000_000);
            }
            Duration { seconds: s as i64, nanoseconds: n as i32 }
        }
    }

    /// Create a new `Duration` with the provided seconds and nanoseconds,
    /// folding whole seconds out of an out-of-range nanosecond component and
    /// clamping to the representable extremes if the fold overflows.
    pub fn new(seconds: i64, nanoseconds: i32) -> (r: Self)
        ensures
            r.wf(),
            r@ == clamp_total(seconds * 1_000_000_000 + nanoseconds),
    {
        Self::nanoseconds_i128(seconds as i128 * 1_000_000_000 + nanoseconds as i128)
    }

    /// The two fields of a well-formed duration are exactly the truncating
    /// quotient and remainder of its model by one second.
    proof fn lemma_fields(self)
        requires
            self.wf(),
        ensures
            self.seconds == tdiv(self@, 1_000_000_000),
            self.nanoseconds == tmod(self@, 1_000_000_000),
    {
        lemma_tdiv_tmod_unique(
            self@,
            1_000_000_000,
            self.seconds as int,
            self.nanoseconds as int,
        );
    }

    /// Create a new `Duration` with the given number of weeks. Equivalent to
    /// `Duration::seconds(weeks * 604_800)`.
    pub fn weeks(weeks: i64) -> (r: Self)
        requires
            i64::MIN <= weeks * SECONDS_PER_WEEK <= i64::MAX,
        ensures
            r.wf(),
            r@ == weeks * SECONDS_PER_WEEK * 1_000_000_000,
    {
        Self::seconds(weeks * SECONDS_PER_WEEK)
    }

    /// Get the number of whole weeks in the duration, truncated toward zero.
    pub fn whole_weeks(self) -> (r: i64)
        requires
            self.wf(),
        ensures
            r == tdiv(self@, SECONDS_PER_WEEK * 1_000_000_000),
    {
        proof {
            self.lemma_fields();
            lemma_tdiv_denominator(self@, 1_000_000_000, SECONDS_PER_WEEK as int);
        }
        self.whole_seconds() / SECONDS_PER_WEEK
    }

    /// Create a new `Duration` with the given number of days. Equivalent to
    /// `Duration::seconds(days * 86_400)`.
    pub fn days(days: i64) -> (r: Self)
        requires
            i64::MIN <= days * SECONDS_PER_DAY <= i64::MAX,
        ensures
            r.wf(),
            r@ == days * SECONDS_PER_DAY * 1_000_000_000,
    {
        Self::seconds(days * SECONDS_PER_DAY)
    }

    /// Get the number of whole days in the duration, truncated toward zero.
    pub fn whole_days(self) -> (r: i64)
        requires
            self.wf(),
        ensures
            r == tdiv(self@, SECONDS_PER_DAY * 1_000_000_000),
    {
        proof {
            self.lemma_fields();
            lemma_tdiv_denominator(self@, 1_000_000_000, SECONDS_PER_DAY as int);
        }
        self.whole_seconds() / SECONDS_PER_DAY
    }

    /// Create a new `Duration` with the given number of hours. Equivalent to
    /// `Duration::seconds(hours * 3_600)`.
    pub fn hours(hours: i64) -> (r: Self)
        requires
            i64::MIN <= hours * SECONDS_PER_HOUR <= i64::MAX,
        ensures
            r.wf(),
            r@ == hours * SECONDS_PER_HOUR * 1_000_000_000,
    {
        Self::seconds(hours * SECONDS_PER_HOUR)
    }

    /// Get the number of whole hours in the duration, truncated toward zero.
    pub fn whole_hours(self) -> (r: i64)
        requires
            self.wf(),
        ensures
            r == tdiv(self@, SECONDS_PER_HOUR * 1_000_000_000),
    {
        proof {
            self.lemma_fields();
            lemma_tdiv_denominator(self@, 1_000_000_000, SECONDS_PER_HOUR as int);
        }
        self.whole_seconds() / SECONDS_PER_HOUR
    }

    /// Create a new `Duration` with the given number of minutes. Equivalent to
    /// `Duration::seconds(minutes * 60)`.
    pub fn minutes(minutes: i64) -> (r: Self)
        requires
            i64::MIN <= minutes * SECONDS_PER_MINUTE <= i64::MAX,
        ensures
            r.wf(),
            r@ == minutes * SECONDS_PER_MINUTE * 1_000_000_000,
    {
        Self::seconds(minutes * SECONDS_PER_MINUTE)
    }

    /// Get the number of whole minutes in the duration, truncated toward zero.
    pub fn whole_minutes(self) -> (r: i64)
        requires
            self.wf(),
        ensures
            r == tdiv(self@, SECONDS_PER_MINUTE * 1_000_000_000),
    {
        proof {
            self.lemma_fields();
            lemma_tdiv_denominator(self@, 1_000_000_000, SECONDS_PER_MINUTE as int);
        }
        self.whole_seconds() / SECONDS_PER_MINUTE
    }

    /// Get the number of whole seconds in the duration, truncated toward zero.
    pub fn whole_seconds(self) -> (r: i64)
        requires
            self.wf(),
        ensures
            r == tdiv(self@, 1_000_000_000),
    {
        proof {
            self.lemma_fields();
        }
        self.seconds
    }

    /// Create a new `Duration` with the given number of milliseconds.
    pub fn milliseconds(milliseconds: i64) -> (r: Self)
        ensures
            r.wf(),
            r@ == milliseconds * 1_000_000,
    {
        proof {
            lemma_tdiv_tmod(milliseconds as int, 1_000);
        }
        Duration {
            seconds: milliseconds / 1_000,
            nanoseconds: ((milliseconds % 1_000) * 1_000_000) as i32,
        }
    }

    /// Get the number of whole milliseconds in the duration, truncated toward
    /// zero.
    pub fn whole_milliseconds(self) -> (r: i128)
        requires
            self.wf(),
        ensures
            r == tdiv(self@, 1_000_000),
    {
        proof {
            self.lemma_fields();
            lemma_tdiv_tmod(self.nanoseconds as int, 1_000_000);
            lemma_tdiv_tmod_unique(
                self@,
                1_000_000,
                self.seconds as int * 1_000 + tdiv(self.nanoseconds as int, 1_000_000),
                tmod(self.nanoseconds as int, 1_000_000),
            );
        }
        self.seconds as i128 * 1_000 + (self.nanoseconds / 1_000_000) as i128
    }

    /// Get the number of milliseconds past the number of whole seconds, in the
    /// range `-1_000..1_000` and sign-matched to the whole value.
    pub fn subsec_milliseconds(self) -> (r: i16)
        requires
            self.wf(),
        ensures
            r == tdiv(tmod(self@, 1_000_000_000), 1_000_000),
            -1_000 < r < 1_000,
    {
        proof {
            self.lemma_fields();
        }
        (self.nanoseconds / 1_000_000) as i16
    }

    /// Create a new `Duration` with the given number of microseconds.
    pub fn microseconds(microseconds: i64) -> (r: Self)
        ensures
            r.wf(),
            r@ == microseconds * 1_000,
    {
        proof {
            lemma_tdiv_tmod(microseconds as int, 1_000_000);
        }
        Duration {
            seconds: microseconds / 1_000_000,
            nanoseconds: ((microseconds % 1_000_000) * 1_000) as i32,
        }
    }

    /// Get the number of whole microseconds in the duration, truncated toward
    /// zero.
    pub fn whole_microseconds(self) -> (r: i128)
        requires
            self.wf(),
        ensures
            r == tdiv(self@, 1_000),
    {
        proof {
            self.lemma_fields();
            lemma_tdiv_tmod(self.nanoseconds as int, 1_000);
            lemma_tdiv_tmod_unique(
                self@,
                1_000,
                self.seconds as int * 1_000_000 + tdiv(self.nanoseconds as int, 1_000),
                tmod(self.nanoseconds as int, 1_000),
            );
        }
        self.seconds as i128 * 1_000_000 + (self.nanoseconds / 1_000) as i128
    }

    /// Get the number of microseconds past the number of whole seconds, in the
    /// range `-1_000_000..1_000_000` and sign-matched to the whole value.
    pub fn subsec_microseconds(self) -> (r: i32)
        requires
            self.wf(),
        ensures
            r == tdiv(tmod(self@, 1_000_000_000), 1_000),
            -1_000_000 < r < 1_000_000,
    {
        proof {
            self.lemma_fields();
        }
        self.nanoseconds / 1_000
    }

    /// Create a new `Duration` with the given number of nanoseconds.
    pub fn nanoseconds(nanoseconds: i64) -> (r: Self)
        ensures
            r.wf(),
            r@ == nanoseconds,
    {
        proof {
            lemma_tdiv_tmod(nanoseconds as int, 1_000_000_000);
        }
        Duration {
            seconds: nanoseconds / 1_000_000_000,
            nanoseconds: (nanoseconds % 1_000_000_000) as i32,
        }
    }

    /// Get the total number of nanoseconds in the duration.
    pub fn whole_nanoseconds(self) -> (r: i128)
        requires
            self.wf(),
        ensures
            r == self@,
    {
        self.seconds as i128 * 1_000_000_000 + self.nanoseconds as i128
    }

    /// Get the number of nanoseconds past the number of whole seconds, in the
    /// range `-1_000_000_000..1_000_000_000` and sign-matched to the whole
    /// value.
    pub fn subsec_nanoseconds(self) -> (r: i32)
        requires
            self.wf(),
        ensures
            r == tmod(self@, 1_000_000_000),
            -1_000_000_000 < r < 1_000_000_000,
    {
        proof {
            self.lemma_fields();
        }
        self.nanoseconds
    }

    /// Check if a duration is exactly zero.
    pub fn is_zero(self) -> (r: bool)
        requires
            self.wf(),
        ensures
            r <==> self@ == 0,
    {
        self.seconds == 0 && self.nanoseconds == 0
    }

    /// Check if a duration is strictly negative.
    pub fn is_negative(self) -> (r: bool)
        requires
            self.wf(),
        ensures
            r <==> self@ < 0,
    {
        self.seconds < 0 || self.nanoseconds < 0
    }

    /// Check if a duration is strictly positive.
    pub fn is_positive(self) -> (r: bool)
        requires
            self.wf(),
        ensures
            r <==> self@ > 0,
    {
        self.seconds > 0 || self.nanoseconds > 0
    }

    /// Get the absolute value of the duration, saturating at the maximum for
    /// the one value whose magnitude is not representable.
    pub fn abs(self) -> (r: Self)
        requires
            self.wf(),
        ensures
            r.wf(),
            r@ == clamp_total(iabs(self@)),
    {
        if self.seconds == i64::MIN {
            Self::max_value()
        } else {
            Duration {
                seconds: if self.seconds < 0 {
                    -self.seconds
                } else {
                    self.seconds
                },
                nanoseconds: if self.nanoseconds < 0 {
                    -self.nanoseconds
                } else {
                    self.nanoseconds
                },
            }
        }
    }

    /// Add two durations, saturating at the representable extremes.
    pub fn add(self, rhs: Self) -> (r: Self)
        requires
            self.wf(),
            rhs.wf(),
        ensures
            r.wf(),
            r@ == clamp_total(self@ + rhs@),
    {
        proof {
            self.lemma_view_in_range();
            rhs.lemma_view_in_range();
        }
        Self::nanoseconds_i128(self.whole_nanoseconds() + rhs.whole_nanoseconds())
    }

    /// Subtract one duration from another, saturating at the representable
    /// extremes.
    pub fn sub(self, rhs: Self) -> (r: Self)
        requires
            self.wf(),
            rhs.wf(),
        ensures
            r.wf(),
            r@ == clamp_total(self@ - rhs@),
    {
        proof {
            self.lemma_view_in_range();
            rhs.lemma_view_in_range();
        }
        Self::nanoseconds_i128(self.whole_nanoseconds() - rhs.whole_nanoseconds())
    }

    /// Negate a duration, saturating at the maximum when negating the minimum.
    pub fn neg(self) -> (r: Self)
        requires
            self.wf(),
        ensures
            r.wf(),
            r@ == clamp_total(-self@),
    {
        proof {
            self.lemma_view_in_range();
        }
        Self::nanoseconds_i128(-self.whole_nanoseconds())
    }

    /// Multiply by an integer factor drawn from any of Rust's 8-, 16- or
    /// 32-bit integer types, widened into an `i64`, saturating at the
    /// representable extremes.
    pub fn mul(self, rhs: i64) -> (r: Self)
        requires
            self.wf(),
            i32::MIN <= rhs <= u32::MAX,
        ensures
            r.wf(),
            r@ == clamp_total(self@ * rhs),
    {
        proof {
            self.lemma_view_in_range();
            assert(i128::MIN <= self@ * rhs <= i128::MAX) by (nonlinear_arith)
                requires
                    MIN_TOTAL_NANOS <= self@ <= MAX_TOTAL_NANOS,
                    i32::MIN <= rhs <= u32::MAX,
            ;
        }
        Self::nanoseconds_i128(self.whole_nanoseconds() * rhs as i128)
    }

    /// Divide by a nonzero integer divisor drawn from any of Rust's 8-, 16-
    /// or 32-bit integer types, widened into an `i64`. The quotient is
    /// truncated toward zero.
    pub fn div(self, rhs: i64) -> (r: Self)
        requires
            self.wf(),
            rhs != 0,
            i32::MIN <= rhs <= u32::MAX,
        ensures
            r.wf(),
            r@ == clamp_total(tdiv(self@, rhs as int)),
    {
        proof {
            self.lemma_view_in_range();
        }
        if rhs > 0 {
            Self::nanoseconds_i128(self.whole_nanoseconds() / rhs as i128)
        } else {
            Self::nanoseconds_i128(-(self.whole_nanoseconds() / -(rhs as i128)))
        }
    }

    /// Replace a duration by the saturating sum with another.
    pub fn add_assign(&mut self, rhs: Self)
        requires
            old(self).wf(),
            rhs.wf(),
        ensures
            final(self).wf(),
            final(self)@ == clamp_total(old(self)@ + rhs@),
    {
        *self = (*self).add(rhs);
    }

    /// Replace a duration by the saturating difference with another.
    pub fn sub_assign(&mut self, rhs: Self)
        requires
            old(self).wf(),
            rhs.wf(),
        ensures
            final(self).wf(),
            final(self)@ == clamp_total(old(self)@ - rhs@),
    {
        *self = (*self).sub(rhs);
    }

    /// Replace a duration by the saturating product with an integer factor.
    pub fn mul_assign(&mut self, rhs: i64)
        requires
            old(self).wf(),
            i32::MIN <= rhs <= u32::MAX,
        ensures
            final(self).wf(),
            final(self)@ == clamp_total(old(self)@ * rhs),
    {
        *self = (*self).mul(rhs);
    }

    /// Replace a duration by the truncated quotient with an integer divisor.
    pub fn div_assign(&mut self, rhs: i64)
        requires
            old(self).wf(),
            rhs != 0,
            i32::MIN <= rhs <= u32::MAX,
        ensures
            final(self).wf(),
            final(self)@ == clamp_total(tdiv(old(self)@, rhs as int)),
    {
        *self = (*self).div(rhs);
    }

    /// Equivalent to `Duration::seconds(0)`.
    pub fn zero() -> (r: Self)
        ensures
            r.wf(),
            r@ == 0,
    {
        Self::seconds(0)
    }

    /// Equivalent to `Duration::nanoseconds(1)`.
    pub fn nanosecond() -> (r: Self)
        ensures
            r.wf(),
            r@ == 1,
    {
        Self::nanoseconds(1)
    }

    /// Equivalent to `Duration::microseconds(1)`.
    pub fn microsecond() -> (r: Self)
        ensures
            r.wf(),
            r@ == 1_000,
    {
        Self::microseconds(1)
    }

    /// Equivalent to `Duration::milliseconds(1)`.
    pub fn millisecond() -> (r: Self)
        ensures
            r.wf(),
            r@ == 1_000_000,
    {
        Self::milliseconds(1)
    }

    /// Equivalent to `Duration::seconds(1)`.
    pub fn second() -> (r: Self)
        ensures
            r.wf(),
            r@ == 1_000_000_000,
    {
        Self::seconds(1)
    }

    /// Equivalent to `Duration::minutes(1)`.
    pub fn minute() -> (r: Self)
        ensures
            r.wf(),
            r@ == 60_000_000_000,
    {
        Self::minutes(1)
    }

    /// Equivalent to `Duration::hours(1)`.
    pub fn hour() -> (r: Self)
        ensures
            r.wf(),
            r@ == 3_600_000_000_000,
    {
        Self::hours(1)
    }

    /// Equivalent to `Duration::days(1)`.
    pub fn day() -> (r: Self)
        ensures
            r.wf(),
            r@ == 86_400_000_000_000,
    {
        Self::days(1)
    }

    /// Equivalent to `Duration::weeks(1)`.
    pub fn week() -> (r: Self)
        ensures
            r.wf(),
            r@ == 604_800_000_000_000,
    {
        Self::weeks(1)
    }
}

impl Default for Duration {
    /// The zero duration.
    fn default() -> (r: Self)
        ensures
            r.wf(),
            r@ == 0,
    {
        Duration::seconds(0)
    }
}

impl PartialOrd for Duration {
    fn partial_cmp(&self, other: &Self) -> (r: Option<Ordering>) {
        if self.seconds < other.seconds {
            Some(Ordering::Less)
        } else if self.seconds > other.seconds {
            Some(Ordering::Greater)
        } else if self.nanoseconds < other.nanoseconds {
            Some(Ordering::Less)
        } else if self.nanoseconds > other.nanoseconds {
            Some(Ordering::Greater)
        } else {
            Some(Ordering::Equal)
        }
    }
}

impl vstd::std_specs::cmp::PartialOrdSpecImpl for Duration {
    open spec fn obeys_partial_cmp_spec() -> bool {
        true
    }

    /// Durations are ordered lexicographically on their two fields.
    closed spec fn partial_cmp_spec(&self, other: &Self) -> Option<Ordering> {
        Some(
            if self.seconds < other.seconds {
                Ordering::Less
            } else if self.seconds > other.seconds {
                Ordering::Greater
            } else if self.nanoseconds < other.nanoseconds {
                Ordering::Less
            } else if self.nanoseconds > other.nanoseconds {
                Ordering::Greater
            } else {
                Ordering::Equal
            },
        )
    }
}

/// The ordering of two mathematical integers.
pub open spec fn ordering_of(x: int, y: int) -> Ordering {
    if x < y {
        Ordering::Less
    } else if x == y {
        Ordering::Equal
    } else {
        Ordering::Greater
    }
}

/// Comparison of well-formed durations is the total order of their models:
/// the lexicographic field order agrees with the order of the total
/// nanosecond counts.
pub proof fn lemma_cmp_matches_view(a: Duration, b: Duration)
    requires
        a.wf(),
        b.wf(),
    ensures
        a.partial_cmp_spec(&b) == Some(ordering_of(a@, b@)),
{
}

/// Constructing from a seconds count and a nanosecond component gives the
/// same duration as first folding the whole seconds out of the nanosecond
/// component, whenever the folded seconds count is itself representable.
pub proof fn lemma_new_fold(a: Duration, b: Duration, s: i64, n: i32)
    requires
        a.wf(),
        b.wf(),
        -2_000_000_000 < n < 2_000_000_000,
        i64::MIN <= s + tdiv(n as int, 1_000_000_000) <= i64::MAX,
        a@ == clamp_total(s * 1_000_000_000 + n),
        b@ == clamp_total(
            (s + tdiv(n as int, 1_000_000_000)) * 1_000_000_000 + tmod(n as int, 1_000_000_000),
        ),
    ensures
        a == b,
{
    lemma_tdiv_tmod(n as int, 1_000_000_000);
    Duration::lemma_view_injective(a, b);
}

/// The absolute value is invariant under negation. The minimum value, whose
/// magnitude is not representable, saturates to the maximum under both.
pub proof fn lemma_abs_neg_symmetric(x: Duration, neg_x: Duration)
    requires
        x.wf(),
        neg_x.wf(),
        neg_x@ == clamp_total(-x@),
    ensures
        clamp_total(iabs(x@)) == clamp_total(iabs(neg_x@)),
        x@ == MIN_TOTAL_NANOS as int ==> clamp_total(iabs(x@)) == MAX_TOTAL_NANOS as int,
{
    x.lemma_view_in_range();
}

/// Addition of a positive duration to the maximum saturates to the maximum,
/// and subtraction of a positive duration from the minimum saturates to the
/// minimum.
pub proof fn lemma_saturating(a: Duration, b: Duration)
    requires
        a.wf(),
        b.wf(),
        b@ > 0,
    ensures
        a@ == MAX_TOTAL_NANOS as int ==> clamp_total(a@ + b@) == MAX_TOTAL_NANOS as int,
        a@ == MIN_TOTAL_NANOS as int ==> clamp_total(a@ - b@) == MIN_TOTAL_NANOS as int,
{
}

/// Adding and then subtracting the same duration returns to the original
/// value whenever the intermediate sum does not hit a saturation boundary.
pub proof fn lemma_add_sub_cancel(a: Duration, b: Duration, sum: Duration, back: Duration)
    requires
        a.wf(),
        b.wf(),
        sum.wf(),
        back.wf(),
        MIN_TOTAL_NANOS as int <= a@ + b@ <= MAX_TOTAL_NANOS as int,
        sum@ == clamp_total(a@ + b@),
        back@ == clamp_total(sum@ - b@),
    ensures
        back == a,
{
    a.lemma_view_in_range();
    Duration::lemma_view_injective(back, a);
}

} // verus!
