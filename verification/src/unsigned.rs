//! An always-non-negative span of time, mirroring how foreign interfaces
//! represent durations, together with the fallible conversions and the mixed
//! arithmetic between it and the signed [`Duration`].

use vstd::prelude::*;
use crate::duration::{
    clamp_total, lemma_tdiv_tmod, ordering_of, tdiv, tmod, Duration, MAX_TOTAL_NANOS,
};
use crate::error::ConversionRange;
use core::cmp::Ordering;

verus! {

/// The total nanosecond count of the largest representable non-negative
/// duration.
pub const MAX_UNSIGNED_TOTAL_NANOS: u128 = 18_446_744_073_709_551_615u128 * 1_000_000_000
    + 999_999_999;

/// An always-non-negative span of time: a whole-second count and a sub-second
/// nanosecond count below one second, both unsigned.
///
/// This is the shape in which foreign interfaces hand durations over; it
/// cannot carry a sign, so conversions from the signed representation are
/// fallible.
#[derive(Clone, Copy, Debug, PartialEq, Eq, Structural, Hash)]
pub struct UnsignedDuration {
    /// Number of whole seconds.
    seconds: u64,
    /// Number of nanoseconds within the second, always below one second.
    nanoseconds: u32,
}

impl View for UnsignedDuration {
    type V = int;

    /// A non-negative duration is modelled by its total count of nanoseconds.
    closed spec fn view(&self) -> int {
        self.seconds * 1_000_000_000 + self.nanoseconds
    }
}

impl UnsignedDuration {
    /// The representation invariant: the sub-second count stays below one
    /// second.
    pub closed spec fn wf(self) -> bool {
        self.nanoseconds < 1_000_000_000
    }

    /// A well-formed non-negative duration's model lies in the representable
    /// range.
    pub proof fn lemma_view_in_range(self)
        requires
            self.wf(),
        ensures
            0 <= self@ <= MAX_UNSIGNED_TOTAL_NANOS as int,
    {
    }

    /// Well-formed non-negative durations with equal models are equal.
    pub proof fn lemma_view_injective(a: UnsignedDuration, b: UnsignedDuration)
        requires
            a.wf(),
            b.wf(),
            a@ == b@,
        ensures
            a == b,
    {
        lemma_tdiv_tmod(a@, 1_000_000_000);
        crate::duration::lemma_tdiv_tmod_unique(
            a@,
            1_000_000_000,
            a.seconds as int,
            a.nanoseconds as int,
        );
        crate::duration::lemma_tdiv_tmod_unique(
            b@,
            1_000_000_000,
            b.seconds as int,
            b.nanoseconds as int,
        );
    }

    /// Create a new non-negative duration, folding whole seconds out of an
    /// out-of-range nanosecond component. The fold must not overflow the
    /// whole-second count.
    pub fn new(seconds: u64, nanoseconds: u32) -> (r: Self)
        requires
            seconds + nanoseconds / 1_000_000_000 <= u64::MAX,
        ensures
            r.wf(),
            r@ == seconds * 1_000_000_000 + nanoseconds,
    {
        proof {
            lemma_tdiv_tmod(nanoseconds as int, 1_000_000_000);
        }
        UnsignedDuration {
            seconds: seconds + (nanoseconds / 1_000_000_000) as u64,
            nanoseconds: nanoseconds % 1_000_000_000,
        }
    }

    /// The whole-second count.
    pub fn as_secs(self) -> (r: u64)
        requires
            self.wf(),
        ensures
            r == tdiv(self@, 1_000_000_000),
    {
        proof {
            crate::duration::lemma_tdiv_tmod_unique(
                self@,
                1_000_000_000,
                self.seconds as int,
                self.nanoseconds as int,
            );
        }
        self.seconds
    }

    /// The sub-second count in nanoseconds, always below one second.
    pub fn subsec_nanos(self) -> (r: u32)
        requires
            self.wf(),
        ensures
            r == tmod(self@, 1_000_000_000),
            r < 1_000_000_000,
    {
        proof {
            crate::duration::lemma_tdiv_tmod_unique(
                self@,
                1_000_000_000,
                self.seconds as int,
                self.nanoseconds as int,
            );
        }
        self.nanoseconds
    }

    /// The total nanosecond count, exactly.
    fn total_nanos_i128(self) -> (r: i128)
        requires
            self.wf(),
        ensures
            r == self@,
    {
        self.seconds as i128 * 1_000_000_000 + self.nanoseconds as i128
    }

    /// Convert a signed duration into the non-negative representation. Fails
    /// with `ConversionRange` exactly when the duration is negative.
    pub fn try_from_duration(d: Duration) -> (r: Result<UnsignedDuration, ConversionRange>)
        requires
            d.wf(),
        ensures
            r is Ok <==> d@ >= 0,
            r matches Ok(u) ==> u.wf() && u@ == d@,
            r is Err ==> r == Err::<UnsignedDuration, ConversionRange>(ConversionRange),
    {
        proof {
            lemma_tdiv_tmod(d@, 1_000_000_000);
        }
        let seconds = d.whole_seconds();
        let nanoseconds = d.subsec_nanoseconds();
        if seconds >= 0 && nanoseconds >= 0 {
            Ok(UnsignedDuration { seconds: seconds as u64, nanoseconds: nanoseconds as u32 })
        } else {
            Err(ConversionRange)
        }
    }

    /// Add a signed duration, saturating at the signed representation's
    /// extremes.
    pub fn add_signed(self, rhs: Duration) -> (r: Duration)
        requires
            self.wf(),
            rhs.wf(),
        ensures
            r.wf(),
            r@ == clamp_total(self@ + rhs@),
    {
        rhs.add_unsigned(self)
    }

    /// Subtract a signed duration from a non-negative one, saturating at the
    /// signed representation's extremes.
    pub fn sub_signed(self, rhs: Duration) -> (r: Duration)
        requires
            self.wf(),
            rhs.wf(),
        ensures
            r.wf(),
            r@ == clamp_total(self@ - rhs@),
    {
        proof {
            self.lemma_view_in_range();
            rhs.lemma_view_in_range();
        }
        Duration::nanoseconds_i128(self.total_nanos_i128() - rhs.whole_nanoseconds())
    }
}

impl Duration {
    /// Convert a non-negative duration into the signed representation. Fails
    /// with `ConversionRange` exactly when the whole-second count exceeds the
    /// signed 64-bit range.
    pub fn try_from_unsigned(u: UnsignedDuration) -> (r: Result<Duration, ConversionRange>)
        requires
            u.wf(),
        ensures
            r is Ok <==> u@ <= MAX_TOTAL_NANOS as int,
            r matches Ok(d) ==> d.wf() && d@ == u@,
            r is Err ==> r == Err::<Duration, ConversionRange>(ConversionRange),
    {
        let seconds = u.as_secs();
        let nanoseconds = u.subsec_nanos();
        proof {
            lemma_tdiv_tmod(u@, 1_000_000_000);
        }
        if seconds <= i64::MAX as u64 {
            Ok(Duration::new(seconds as i64, nanoseconds as i32))
        } else {
            Err(ConversionRange)
        }
    }

    /// Add a non-negative duration, saturating at the representable extremes.
    pub fn add_unsigned(self, rhs: UnsignedDuration) -> (r: Duration)
        requires
            self.wf(),
            rhs.wf(),
        ensures
            r.wf(),
            r@ == clamp_total(self@ + rhs@),
    {
        proof {
            self.lemma_view_in_range();
            rhs.lemma_view_in_range();
        }
        Duration::nanoseconds_i128(self.whole_nanoseconds() + rhs.total_nanos_i128())
    }

    /// Subtract a non-negative duration, saturating at the representable
    /// extremes.
    pub fn sub_unsigned(self, rhs: UnsignedDuration) -> (r: Duration)
        requires
            self.wf(),
            rhs.wf(),
        ensures
            r.wf(),
            r@ == clamp_total(self@ - rhs@),
    {
        proof {
            self.lemma_view_in_range();
            rhs.lemma_view_in_range();
        }
        Duration::nanoseconds_i128(self.whole_nanoseconds() - rhs.total_nanos_i128())
    }

    /// Replace a duration by the saturating sum with a non-negative one.
    pub fn add_assign_unsigned(&mut self, rhs: UnsignedDuration)
        requires
            old(self).wf(),
            rhs.wf(),
        ensures
            final(self).wf(),
            final(self)@ == clamp_total(old(self)@ + rhs@),
    {
        *self = (*self).add_unsigned(rhs);
    }

    /// Replace a duration by the saturating difference with a non-negative
    /// one.
    pub fn sub_assign_unsigned(&mut self, rhs: UnsignedDuration)
        requires
            old(self).wf(),
            rhs.wf(),
        ensures
            final(self).wf(),
            final(self)@ == clamp_total(old(self)@ - rhs@),
    {
        *self = (*self).sub_unsigned(rhs);
    }

    /// Compare a signed duration with a non-negative one for equality.
    pub fn eq_unsigned(&self, rhs: &UnsignedDuration) -> (r: bool)
        requires
            self.wf(),
            rhs.wf(),
        ensures
            r <==> self@ == rhs@,
    {
        proof {
            self.lemma_view_in_range();
        }
        match Duration::try_from_unsigned(*rhs) {
            Ok(d) => {
                proof {
                    if self@ == d@ {
                        Duration::lemma_view_injective(*self, d);
                    }
                }
                *self == d
            },
            Err(_) => false,
        }
    }

    /// Order a signed duration against a non-negative one. A non-negative
    /// duration whose whole-second count exceeds the signed range is greater
    /// than every signed duration.
    pub fn cmp_unsigned(&self, rhs: &UnsignedDuration) -> (r: Ordering)
        requires
            self.wf(),
            rhs.wf(),
        ensures
            r == ordering_of(self@, rhs@),
    {
        proof {
            self.lemma_view_in_range();
            lemma_tdiv_tmod(self@, 1_000_000_000);
            lemma_tdiv_tmod(rhs@, 1_000_000_000);
        }
        let rhs_seconds = rhs.as_secs();
        if rhs_seconds > i64::MAX as u64 {
            return Ordering::Less;
        }
        let seconds = self.whole_seconds();
        let nanoseconds = self.subsec_nanoseconds();
        let rhs_nanoseconds = rhs.subsec_nanos();
        if seconds < rhs_seconds as i64 {
            Ordering::Less
        } else if seconds > rhs_seconds as i64 {
            Ordering::Greater
        } else if nanoseconds < rhs_nanoseconds as i32 {
            Ordering::Less
        } else if nanoseconds > rhs_nanoseconds as i32 {
            Ordering::Greater
        } else {
            Ordering::Equal
        }
    }
}

/// A non-negative signed duration survives the round trip through the
/// non-negative representation unchanged, and the conversion back is always
/// owed to succeed.
pub proof fn lemma_unsigned_round_trip(d: Duration, u: UnsignedDuration, back: Duration)
    requires
        d.wf(),
        u.wf(),
        back.wf(),
        d@ >= 0,
        u@ == d@,
        back@ == u@,
    ensures
        u@ <= MAX_TOTAL_NANOS as int,
        back == d,
{
    d.lemma_view_in_range();
    Duration::lemma_view_injective(back, d);
}

} // verus!
