//! Formatting and parsing of the compact five-character UTC-offset token.
//!
//! The wire form is exactly five ASCII bytes: a sign (`+` for non-negative,
//! `-` for negative) followed by two zero-padded decimal digits of hours and
//! two zero-padded decimal digits of minutes.

use vstd::prelude::*;
use crate::duration::{iabs, Duration, SECONDS_PER_MINUTE};
use crate::error::Parse;
use vstd::arithmetic::div_mod::{
    lemma_fundamental_div_mod_converse_div, lemma_fundamental_div_mod_converse_mod,
};

verus! {

/// The largest whole-minute count a UTC offset may carry: one minute short of
/// a full day in either direction.
pub const MAX_OFFSET_MINUTES: i16 = 1_439;

/// A signed count of minutes offset from UTC.
#[derive(Clone, Copy, Debug, PartialEq, Eq, Structural, Hash)]
pub struct UtcOffset {
    /// Number of minutes east (positive) or west (negative) of UTC.
    minutes: i16,
}

impl View for UtcOffset {
    type V = int;

    /// An offset is modelled by its signed minute count.
    closed spec fn view(&self) -> int {
        self.minutes as int
    }
}

impl UtcOffset {
    /// The representation invariant: the minute count stays within the valid
    /// offset range.
    pub closed spec fn wf(self) -> bool {
        -MAX_OFFSET_MINUTES <= self.minutes <= MAX_OFFSET_MINUTES
    }

    /// Construct an offset from a signed count of minutes; `None` exactly
    /// when the count is outside the valid offset range.
    pub fn minutes(minutes: i16) -> (r: Option<UtcOffset>)
        ensures
            r is Some <==> -MAX_OFFSET_MINUTES <= minutes <= MAX_OFFSET_MINUTES,
            r matches Some(o) ==> o.wf() && o@ == minutes,
    {
        if -MAX_OFFSET_MINUTES <= minutes && minutes <= MAX_OFFSET_MINUTES {
            Some(UtcOffset { minutes })
        } else {
            None
        }
    }

    /// The offset as a signed duration.
    pub fn as_duration(self) -> (r: Duration)
        requires
            self.wf(),
        ensures
            r.wf(),
            r@ == self@ * SECONDS_PER_MINUTE * 1_000_000_000,
    {
        Duration::minutes(self.minutes as i64)
    }
}

/// An accumulator for parsed fields. Parsing an offset token sets its offset
/// field on success and leaves it untouched on failure.
#[derive(Clone, Copy, Debug, PartialEq, Eq)]
pub struct ParsedItems {
    /// The parsed UTC offset, if one has been consumed.
    pub offset: Option<UtcOffset>,
}

impl ParsedItems {
    /// A fresh accumulator with no field set.
    pub fn new() -> (r: Self)
        ensures
            r.offset is None,
    {
        ParsedItems { offset: None }
    }
}

/// Whether a byte is an offset sign character.
pub open spec fn is_sign(b: u8) -> bool {
    b == 43 || b == 45
}

/// The sign encoded by an offset sign character: `+` is positive.
pub open spec fn sign_val(b: u8) -> int {
    if b == 43 {
        1
    } else {
        -1
    }
}

/// Whether a byte is the ASCII encoding of a decimal digit.
pub open spec fn is_ascii_digit(b: u8) -> bool {
    48 <= b <= 57
}

/// The numeric value of an ASCII decimal digit.
pub open spec fn digit_val(b: u8) -> int {
    b - 48
}

/// Whether the five bytes starting at `pos` form a syntactically valid offset
/// token: a sign followed by four decimal digits.
pub open spec fn token_syntax_ok(s: Seq<u8>, pos: int) -> bool {
    &&& pos + 5 <= s.len()
    &&& is_sign(s[pos])
    &&& is_ascii_digit(s[pos + 1])
    &&& is_ascii_digit(s[pos + 2])
    &&& is_ascii_digit(s[pos + 3])
    &&& is_ascii_digit(s[pos + 4])
}

/// The hour magnitude encoded by a token's first digit pair.
pub open spec fn token_hours(s: Seq<u8>, pos: int) -> int {
    digit_val(s[pos + 1]) * 10 + digit_val(s[pos + 2])
}

/// The minute magnitude encoded by a token's second digit pair.
pub open spec fn token_minute_part(s: Seq<u8>, pos: int) -> int {
    digit_val(s[pos + 3]) * 10 + digit_val(s[pos + 4])
}

/// The signed minute count a syntactically valid token encodes.
pub open spec fn token_minutes(s: Seq<u8>, pos: int) -> int {
    sign_val(s[pos]) * (token_hours(s, pos) * 60 + token_minute_part(s, pos))
}

/// The five-byte token that encodes a signed minute count: a sign and two
/// zero-padded two-digit fields for the hour and minute magnitudes.
pub open spec fn format_token(minutes: int) -> Seq<u8> {
    let magnitude = iabs(minutes);
    let h = magnitude / 60;
    let m = magnitude % 60;
    seq![
        if minutes < 0 {
            45u8
        } else {
            43u8
        },
        (48 + h / 10) as u8,
        (48 + h % 10) as u8,
        (48 + m / 10) as u8,
        (48 + m % 10) as u8,
    ]
}

/// UTC offset: write the five-character token for an offset.
pub fn fmt_z(offset: UtcOffset) -> (r: Vec<u8>)
    requires
        offset.wf(),
    ensures
        r@ == format_token(offset@),
{
    let minutes_count = offset.minutes;
    let negative = minutes_count < 0;
    let magnitude: i16 = if negative {
        -minutes_count
    } else {
        minutes_count
    };
    let hours = magnitude / 60;
    let minute_part = magnitude % 60;
    let mut token: Vec<u8> = Vec::new();
    token.push(if negative {
        45u8
    } else {
        43u8
    });
    token.push(48 + (hours / 10) as u8);
    token.push(48 + (hours % 10) as u8);
    token.push(48 + (minute_part / 10) as u8);
    token.push(48 + (minute_part % 10) as u8);
    proof {
        assert(token@ =~= format_token(offset@));
    }
    token
}

/// Consume one sign character: advance the cursor past a leading `+` or `-`
/// and return the sign it encodes, or leave the cursor unchanged.
fn try_consume_sign(s: &[u8], pos: &mut usize) -> (r: Option<i16>)
    ensures
        r is Some <==> *old(pos) < s@.len() && is_sign(s@[*old(pos) as int]),
        r matches Some(v) ==> *final(pos) == *old(pos) + 1 && v == sign_val(
            s@[*old(pos) as int],
        ),
        r is None ==> *final(pos) == *old(pos),
{
    if *pos < s.len() {
        let b = s[*pos];
        if b == 43 {
            *pos = *pos + 1;
            Some(1)
        } else if b == 45 {
            *pos = *pos + 1;
            Some(-1)
        } else {
            None
        }
    } else {
        None
    }
}

/// Consume exactly two zero-padded decimal digits: advance the cursor past
/// them and return their value, or leave the cursor unchanged.
fn try_consume_two_digits(s: &[u8], pos: &mut usize) -> (r: Option<i16>)
    ensures
        r is Some <==> *old(pos) + 2 <= s@.len() && is_ascii_digit(s@[*old(pos) as int])
            && is_ascii_digit(s@[*old(pos) as int + 1]),
        r matches Some(v) ==> *final(pos) == *old(pos) + 2 && v == digit_val(
            s@[*old(pos) as int],
        ) * 10 + digit_val(s@[*old(pos) as int + 1]),
        r is None ==> *final(pos) == *old(pos),
{
    if *pos < s.len() && *pos + 1 < s.len() {
        let b0 = s[*pos];
        let b1 = s[*pos + 1];
        if 48 <= b0 && b0 <= 57 && 48 <= b1 && b1 <= 57 {
            *pos = *pos + 2;
            Some((b0 - 48) as i16 * 10 + (b1 - 48) as i16)
        } else {
            None
        }
    } else {
        None
    }
}

/// UTC offset: parse a five-character token from the cursor.
///
/// Each of the three consumption steps (sign, hour digits, minute digits)
/// advances the cursor eagerly on its own success; a failure of a later step
/// does not roll the earlier advancement back. On success the accumulator's
/// offset field is set; on any failure it is left untouched and the error is
/// `InvalidOffset`, including when the decoded minute count lies outside the
/// valid offset range.
pub fn parse_z(items: &mut ParsedItems, s: &[u8], pos: &mut usize) -> (r: Result<(), Parse>)
    ensures
        r is Ok <==> token_syntax_ok(s@, *old(pos) as int) && -MAX_OFFSET_MINUTES
            <= token_minutes(s@, *old(pos) as int) <= MAX_OFFSET_MINUTES,
        r is Ok ==> {
            &&& *final(pos) == *old(pos) + 5
            &&& final(items).offset matches Some(o) && o.wf() && o@ == token_minutes(
                s@,
                *old(pos) as int,
            )
        },
        r is Err ==> {
            let p = *old(pos) as int;
            &&& r == Err::<(), Parse>(Parse::InvalidOffset)
            &&& *final(items) == *old(items)
            &&& if !(p < s@.len() && is_sign(s@[p])) {
                *final(pos) == p
            } else if !(p + 3 <= s@.len() && is_ascii_digit(s@[p + 1]) && is_ascii_digit(
                s@[p + 2],
            )) {
                *final(pos) == p + 1
            } else if !(p + 5 <= s@.len() && is_ascii_digit(s@[p + 3]) && is_ascii_digit(
                s@[p + 4],
            )) {
                *final(pos) == p + 3
            } else {
                *final(pos) == p + 5
            }
        },
{
    let sign = match try_consume_sign(s, pos) {
        Some(v) => v,
        None => {
            return Err(Parse::InvalidOffset);
        },
    };
    let hours = match try_consume_two_digits(s, pos) {
        Some(v) => v,
        None => {
            return Err(Parse::InvalidOffset);
        },
    };
    let minute_part = match try_consume_two_digits(s, pos) {
        Some(v) => v,
        None => {
            return Err(Parse::InvalidOffset);
        },
    };
    let signed_minutes = sign * (hours * 60 + minute_part);
    match UtcOffset::minutes(signed_minutes) {
        Some(offset) => {
            items.offset = Some(offset);
            Ok(())
        },
        None => Err(Parse::InvalidOffset),
    }
}

/// A canonical offset token: a sign followed by four digits, with a minute
/// field below sixty, an encoded offset within the valid range, and no
/// negative sign on a zero offset.
pub open spec fn canonical_token(s: Seq<u8>) -> bool {
    &&& s.len() == 5
    &&& token_syntax_ok(s, 0)
    &&& token_minute_part(s, 0) < 60
    &&& token_hours(s, 0) * 60 + token_minute_part(s, 0) <= MAX_OFFSET_MINUTES as int
    &&& s[0] == 45u8 ==> token_minutes(s, 0) != 0
}

/// Parsing a canonical token succeeds, and formatting the parsed offset
/// reproduces the token byte for byte. A token with a minute field of sixty
/// or more, or one writing a negative zero, still parses but re-formats to
/// its canonical spelling instead of itself.
pub proof fn lemma_token_round_trip(s: Seq<u8>)
    requires
        canonical_token(s),
    ensures
        token_syntax_ok(s, 0),
        -MAX_OFFSET_MINUTES <= token_minutes(s, 0) <= MAX_OFFSET_MINUTES,
        format_token(token_minutes(s, 0)) == s,
{
    let h = token_hours(s, 0);
    let m = token_minute_part(s, 0);
    let magnitude = h * 60 + m;
    lemma_fundamental_div_mod_converse_div(magnitude, 60, h, m);
    lemma_fundamental_div_mod_converse_mod(magnitude, 60, h, m);
    lemma_fundamental_div_mod_converse_div(h, 10, digit_val(s[1]), digit_val(s[2]));
    lemma_fundamental_div_mod_converse_mod(h, 10, digit_val(s[1]), digit_val(s[2]));
    lemma_fundamental_div_mod_converse_div(m, 10, digit_val(s[3]), digit_val(s[4]));
    lemma_fundamental_div_mod_converse_mod(m, 10, digit_val(s[3]), digit_val(s[4]));
    assert(format_token(token_minutes(s, 0)) =~= s);
}

} // verus!
