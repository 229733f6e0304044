//! Moments in time, and how they are written.
use crate::text::text_opt;
use vstd::prelude::*;

verus! {

/// A moment: whole seconds since the epoch, which may be negative, and nanoseconds behind them.
#[derive(Debug, Clone, Copy, PartialEq, Eq, Structural)]
pub struct Moment {
    pub secs: i64,
    pub nanos: u32,
}

impl Moment {
    /// Whether the nanoseconds are fewer than a second.
    pub open spec fn wf(self) -> bool {
        self.nanos < 1_000_000_000
    }

    /// Whether the moment is in one of the years 0 to 9999.
    pub open spec fn has_four_digit_year(self) -> bool {
        -62_167_219_200 <= self.secs <= 253_402_300_799
    }

    /// Whether the moment is on a day that `chrono` has a date for.
    pub open spec fn has_date(self) -> bool {
        self.wf() && -8_334_601_228_800 <= self.secs <= 8_210_266_876_799
    }

    /// The date of the moment: year, month and day of UTC.
    pub open spec fn date(self) -> Seq<char> {
        utc_text(self.secs, self.nanos, "%Y-%m-%d"@)
    }

    /// The nanoseconds since the epoch; none before it.
    pub open spec fn since_epoch(self) -> nat {
        if self.secs < 0 {
            0
        } else {
            (self.secs * 1_000_000_000 + self.nanos) as nat
        }
    }

    /// The nanoseconds since the epoch; none before it.
    pub fn nanos_since_epoch(self) -> (r: u128)
        ensures
            r == self.since_epoch(),
    {
        if self.secs < 0 {
            0
        } else {
            self.secs as u128 * 1_000_000_000 + self.nanos as u128
        }
    }

    /// Whether the moment can be written as a date of RFC 2822.
    pub fn can_be_written(self) -> (r: bool)
        ensures
            r == (self.wf() && self.has_four_digit_year()),
    {
        self.nanos < 1_000_000_000 && -62_167_219_200 <= self.secs && self.secs <= 253_402_300_799
    }

    /// The moment as a date of RFC 2822.
    pub fn to_rfc2822(self) -> (r: String)
        requires
            self.wf(),
            self.has_four_digit_year(),
        ensures
            r@ == rfc2822_date(self.secs, self.nanos),
    {
        match write_rfc2822(self.secs, self.nanos) {
            Some(date) => date,
            None => String::new(),
        }
    }

    /// Whether the moment can be written as a date.
    pub fn is_dated(self) -> (r: bool)
        ensures
            r == self.has_date(),
    {
        self.nanos < 1_000_000_000 && -8_334_601_228_800 <= self.secs && self.secs
            <= 8_210_266_876_799
    }

    /// The date of the moment: year, month and day of UTC, with a dash between each two.
    pub fn to_date(self) -> (r: String)
        requires
            self.has_date(),
        ensures
            r@ == self.date(),
    {
        match format_utc(self.secs, self.nanos, "%Y-%m-%d") {
            Some(date) => date,
            None => String::new(),
        }
    }
}

/// The date of RFC 2822 that `chrono` writes a moment of UTC as.
pub uninterp spec fn rfc2822_date(secs: i64, nanos: u32) -> Seq<char>;

/// `chrono::DateTime::<Utc>::to_rfc2822`, of the moment that `DateTime::from_timestamp` makes: it
/// is a fixed function of the moment in the years that the format has room for, and panics in
/// others.
#[verifier::external_body]
fn write_rfc2822(secs: i64, nanos: u32) -> (r: Option<String>)
    requires
        nanos < 1_000_000_000,
        -62_167_219_200 <= secs <= 253_402_300_799,
    ensures
        text_opt(r) == Some(rfc2822_date(secs, nanos)),
{
    chrono::DateTime::from_timestamp(secs, nanos).map(|moment| moment.to_rfc2822())
}

/// What `chrono` writes a moment of UTC as, by a pattern.
pub uninterp spec fn utc_text(secs: i64, nanos: u32, pattern: Seq<char>) -> Seq<char>;

/// `chrono::DateTime::<Utc>::format`, of the moment that `DateTime::from_timestamp` makes: it is a
/// fixed function of the moment and the pattern, for a pattern that `chrono` knows and a moment
/// that it has a date for.
#[verifier::external_body]
fn format_utc(secs: i64, nanos: u32, pattern: &str) -> (r: Option<String>)
    requires
        nanos < 1_000_000_000,
        -8_334_601_228_800 <= secs <= 8_210_266_876_799,
        pattern@ == "%Y-%m-%d"@,
    ensures
        text_opt(r) == Some(utc_text(secs, nanos, pattern@)),
{
    chrono::DateTime::from_timestamp(secs, nanos).map(|moment| moment.format(pattern).to_string())
}

/// A later moment after the epoch is more nanoseconds behind it: a thousand million for each second.
pub proof fn law_time_goes_on(m: Moment, secs: i64, nanos: u32)
    requires
        m.secs >= 0,
        secs >= 0,
        m.secs + secs <= i64::MAX,
        m.nanos + nanos <= u32::MAX,
    ensures
        (Moment { secs: (m.secs + secs) as i64, nanos: (m.nanos + nanos) as u32 }).since_epoch()
            == m.since_epoch() + secs * 1_000_000_000 + nanos,
        (Moment { secs: 0, nanos: 0 }).since_epoch() == 0,
{
}

} // verus!
