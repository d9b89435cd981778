use crate::error::ErrorKind;
use vstd::prelude::*;

verus! {

/// Seconds, counted from 1970-01-01T00:00:00Z, of the earliest instant that
/// can be held: the start of the year -262143.
pub const MIN_SECS: i64 = -8_334_601_228_800;

/// Seconds of the last second that can be held: the end of the year 262142.
pub const MAX_SECS: i64 = 8_210_266_876_799;

/// Seconds of 0000-01-01T00:00:00Z, the earliest instant whose text has a
/// year of four digits.
pub const TEXT_MIN_SECS: i64 = -62_167_219_200;

/// Seconds of 9999-12-31T23:59:59Z, the last second whose text has a year of
/// four digits.
pub const TEXT_MAX_SECS: i64 = 253_402_300_799;

/// Nanoseconds in one second.
pub const NANOS_PER_SEC: u32 = 1_000_000_000;

/// Seconds in one day.
pub const SECS_PER_DAY: i64 = 86_400;

/// Nanoseconds in one day.
pub const NANOS_PER_DAY: i128 = 86_400_000_000_000;

/// The largest number of whole days between two instants that can be held.
pub const MAX_DAY_SPAN: u64 = 191_491_528;

/// An instant in UTC: whole seconds since 1970-01-01T00:00:00Z, and the
/// nanoseconds into that second.
#[derive(Clone, Copy, Debug, PartialEq, Eq, Structural)]
pub struct Timestamp {
    pub secs: i64,
    pub nanos: u32,
}

/// The text that `chrono::DateTime::<Utc>::to_rfc3339` writes for the instant
/// `secs` seconds and `nanos` nanoseconds after 1970-01-01T00:00:00Z.
pub uninterp spec fn rfc3339_text(secs: i64, nanos: u32) -> Seq<char>;

/// The instant that `chrono::DateTime::parse_from_rfc3339` reads from `text`,
/// brought to UTC, as seconds and nanoseconds; `None` where it reads none.
pub uninterp spec fn rfc3339_value(text: Seq<char>) -> Option<(i64, u32)>;

/// The instant that `chrono::DateTime::<Utc>::checked_add_months` gives for
/// the instant (`secs`, `nanos`) and a number of calendar months; `None`
/// where it gives none.
pub uninterp spec fn months_after(secs: i64, nanos: u32, months: u32) -> Option<(i64, u32)>;

/// Reads the clock with `chrono::Utc::now`. The contract claims only that the
/// instant read lies in the range that can be held, with its nanoseconds below
/// one second, as that function builds it. (The outside function stops the
/// program on a machine whose clock stands before 1970.)
#[verifier::external_body]
fn read_clock() -> (now: Timestamp)
    ensures
        now.valid(),
{
    let d = chrono::Utc::now();
    Timestamp { secs: d.timestamp(), nanos: d.timestamp_subsec_nanos() }
}

/// Calls `chrono::DateTime::<Utc>::checked_add_months` on the instant built by
/// `chrono::DateTime::from_timestamp`, and hands back the seconds and
/// nanoseconds of what it gives. The contract names that result and claims
/// nothing more of it.
#[verifier::external_body]
fn add_months(secs: i64, nanos: u32, months: u32) -> (r: Option<(i64, u32)>)
    requires
        (Timestamp { secs, nanos }).valid(),
    ensures
        r == months_after(secs, nanos, months),
{
    let d = chrono::DateTime::from_timestamp(secs, nanos)?;
    let d = d.checked_add_months(chrono::Months::new(months))?;
    Some((d.timestamp(), d.timestamp_subsec_nanos()))
}

/// Calls `chrono::DateTime::<Utc>::to_rfc3339` on the instant built by
/// `chrono::DateTime::from_timestamp`. The contract names the text, and claims
/// that `chrono::DateTime::parse_from_rfc3339` reads the same instant back
/// from it where the year has four digits (the outside formatter writes a
/// signed year otherwise, which the outside parser does not read).
#[verifier::external_body]
fn format_rfc3339(secs: i64, nanos: u32) -> (text: String)
    requires
        (Timestamp { secs, nanos }).valid(),
    ensures
        text@ == rfc3339_text(secs, nanos),
        TEXT_MIN_SECS <= secs <= TEXT_MAX_SECS ==> rfc3339_value(text@) == Some((secs, nanos)),
{
    chrono::DateTime::from_timestamp(secs, nanos).unwrap_or_default().to_rfc3339()
}

/// Calls `chrono::DateTime::parse_from_rfc3339` and brings what it reads to
/// UTC with `with_timezone`. The contract names the result.
#[verifier::external_body]
fn parse_rfc3339(text: &str) -> (r: Option<(i64, u32)>)
    ensures
        r == rfc3339_value(text@),
{
    let d = chrono::DateTime::parse_from_rfc3339(text).ok()?.with_timezone(&chrono::Utc);
    Some((d.timestamp(), d.timestamp_subsec_nanos()))
}

impl Timestamp {
    /// Whether this instant lies in the range that can be held, with its
    /// nanoseconds below one second.
    pub open spec fn valid(self) -> bool {
        MIN_SECS <= self.secs <= MAX_SECS && self.nanos < NANOS_PER_SEC
    }

    /// Whether the text of this instant has a year of four digits, so that it
    /// can be read back.
    pub open spec fn in_text_range(self) -> bool {
        TEXT_MIN_SECS <= self.secs <= TEXT_MAX_SECS && self.nanos < NANOS_PER_SEC
    }

    /// Whether this instant comes strictly before `other`.
    pub open spec fn before(self, other: Timestamp) -> bool {
        self.secs < other.secs || (self.secs == other.secs && self.nanos < other.nanos)
    }

    /// The nanoseconds from `earlier` to this instant; negative where this
    /// instant comes first.
    pub open spec fn nanos_since(self, earlier: Timestamp) -> int {
        (self.secs - earlier.secs) * 1_000_000_000 + (self.nanos - earlier.nanos)
    }

    /// The whole days from `earlier` to this instant, rounded towards zero;
    /// negative where this instant comes first.
    pub open spec fn days_since(self, earlier: Timestamp) -> int {
        let d = self.nanos_since(earlier);
        if d >= 0 {
            d / 86_400_000_000_000
        } else {
            -((-d) / 86_400_000_000_000)
        }
    }

    /// This instant moved on by `days` days of 86400 seconds; `None` where
    /// this instant or the result cannot be held.
    pub open spec fn days_later(self, days: int) -> Option<Timestamp> {
        if self.valid() && days >= 0 && self.secs + 86_400 * days <= MAX_SECS {
            Some(Timestamp { secs: (self.secs + 86_400 * days) as i64, nanos: self.nanos })
        } else {
            None
        }
    }

    /// This instant moved on by `months` calendar months; `None` where this
    /// instant or the result cannot be held. No month leaves it as it is.
    pub open spec fn months_later(self, months: int) -> Option<Timestamp> {
        if self.valid() && months == 0 {
            Some(self)
        } else if self.valid() && 0 < months <= u32::MAX {
            match months_after(self.secs, self.nanos, months as u32) {
                Some((secs, nanos)) => if (Timestamp { secs, nanos }).valid() {
                    Some(Timestamp { secs, nanos })
                } else {
                    None
                },
                None => None,
            }
        } else {
            None
        }
    }

    /// The instant that `text` names; `None` where it names none that can be
    /// held.
    pub open spec fn parsed(text: Seq<char>) -> Option<Timestamp> {
        match rfc3339_value(text) {
            Some((secs, nanos)) => if (Timestamp { secs, nanos }).valid() {
                Some(Timestamp { secs, nanos })
            } else {
                None
            },
            None => None,
        }
    }

    /// The instant of `secs` seconds and `nanos` nanoseconds, if it can be
    /// held.
    pub fn new(secs: i64, nanos: u32) -> (r: Option<Timestamp>)
        ensures
            r == if (Timestamp { secs, nanos }).valid() {
                Some(Timestamp { secs, nanos })
            } else {
                None
            },
    {
        let t = Timestamp { secs, nanos };
        if t.is_valid() {
            Some(t)
        } else {
            None
        }
    }

    /// The present instant, as the clock gives it.
    pub fn now() -> (now: Timestamp)
        ensures
            now.valid(),
    {
        read_clock()
    }

    /// Whether this instant can be held.
    pub fn is_valid(&self) -> (r: bool)
        ensures
            r == self.valid(),
    {
        MIN_SECS <= self.secs && self.secs <= MAX_SECS && self.nanos < NANOS_PER_SEC
    }

    /// Whether this instant comes strictly before `other`.
    pub fn is_before(&self, other: &Timestamp) -> (r: bool)
        ensures
            r == self.before(*other),
    {
        self.secs < other.secs || (self.secs == other.secs && self.nanos < other.nanos)
    }

    /// The whole days from `earlier` to this instant, rounded towards zero.
    pub fn whole_days_since(&self, earlier: &Timestamp) -> (days: i64)
        ensures
            days == self.days_since(*earlier),
    {
        let secs: i128 = self.secs as i128 - earlier.secs as i128;
        let nanos: i128 = self.nanos as i128 - earlier.nanos as i128;
        let total: i128 = secs * 1_000_000_000 + nanos;
        if total >= 0 {
            (total / NANOS_PER_DAY) as i64
        } else {
            let back: i128 = -total;
            -((back / NANOS_PER_DAY) as i64)
        }
    }

    /// Moves this instant on by `days` days of 86400 seconds.
    pub fn checked_add_days(&self, days: u64) -> (r: Option<Timestamp>)
        ensures
            r == self.days_later(days as int),
    {
        if !self.is_valid() || days > MAX_DAY_SPAN {
            return None;
        }
        let secs: i64 = self.secs + SECS_PER_DAY * (days as i64);
        if secs <= MAX_SECS {
            Some(Timestamp { secs, nanos: self.nanos })
        } else {
            None
        }
    }

    /// Moves this instant on by `months` calendar months. Where the day of
    /// the month does not exist in the month reached, the outside calendar
    /// takes that month's last day.
    pub fn checked_add_months(&self, months: u32) -> (r: Option<Timestamp>)
        ensures
            r == self.months_later(months as int),
    {
        if !self.is_valid() {
            return None;
        }
        if months == 0 {
            return Some(*self);
        }
        match add_months(self.secs, self.nanos, months) {
            Some((secs, nanos)) => Timestamp::new(secs, nanos),
            None => None,
        }
    }

    /// Writes this instant as RFC 3339 text; `None` where the instant cannot
    /// be held. The text of an instant with a year of four digits is read
    /// back as the same instant.
    pub fn to_rfc3339(&self) -> (r: Option<String>)
        ensures
            match r {
                Some(text) => {
                    &&& self.valid()
                    &&& text@ == rfc3339_text(self.secs, self.nanos)
                    &&& self.in_text_range() ==> Timestamp::parsed(text@) == Some(*self)
                },
                None => !self.valid(),
            },
    {
        if self.is_valid() {
            Some(format_rfc3339(self.secs, self.nanos))
        } else {
            None
        }
    }

    /// Reads an instant from RFC 3339 text.
    pub fn from_rfc3339(text: &str) -> (r: Option<Timestamp>)
        ensures
            r == Timestamp::parsed(text@),
    {
        match parse_rfc3339(text) {
            Some((secs, nanos)) => Timestamp::new(secs, nanos),
            None => None,
        }
    }
}

/// The expiration date that lies `years` years, `months` months and `days`
/// days after `now`: the months are added by the calendar, the days as
/// multiples of 86400 seconds. `None` where the number of months does not fit
/// in 32 bits, or an instant on the way cannot be held.
pub open spec fn expiration(now: Timestamp, years: int, months: int, days: int) -> Option<
    Timestamp,
> {
    let total = years * 12 + months;
    if total > u32::MAX {
        None
    } else {
        match now.months_later(total) {
            Some(t) => t.days_later(days),
            None => None,
        }
    }
}

/// Computes the expiration date `years` years, `months` months and `days`
/// days after `now`, and fails with `InvalidTime` where that date cannot be
/// held.
pub fn compute_expiration(now: &Timestamp, years: u64, months: u64, days: u64) -> (r: Result<
    Timestamp,
    ErrorKind,
>)
    ensures
        match r {
            Ok(t) => expiration(*now, years as int, months as int, days as int) == Some(t),
            Err(e) => e == ErrorKind::InvalidTime && expiration(
                *now,
                years as int,
                months as int,
                days as int,
            ) is None,
        },
{
    let total: u64 = match years.checked_mul(12) {
        Some(in_months) => match in_months.checked_add(months) {
            Some(total) => total,
            None => return Err(ErrorKind::InvalidTime),
        },
        None => return Err(ErrorKind::InvalidTime),
    };
    if total > u32::MAX as u64 {
        return Err(ErrorKind::InvalidTime);
    }
    match now.checked_add_months(total as u32) {
        Some(t) => match t.checked_add_days(days) {
            Some(date) => Ok(date),
            None => Err(ErrorKind::InvalidTime),
        },
        None => Err(ErrorKind::InvalidTime),
    }
}

/// An instant that lies before `now` lies no whole day ahead of it, and one
/// that does not lie before `now` lies no whole day behind it: the days since
/// an instant are negative only while it is still to come.
pub proof fn lemma_days_follow_order(then: Timestamp, now: Timestamp)
    requires
        then.valid(),
        now.valid(),
    ensures
        then.before(now) ==> now.days_since(then) >= 0,
        !then.before(now) ==> now.days_since(then) <= 0,
        now.days_since(then) == -then.days_since(now),
{
}

/// An expiration date that is given can be held.
pub proof fn lemma_expiration_valid(now: Timestamp, years: int, months: int, days: int)
    requires
        expiration(now, years, months, days) is Some,
    ensures
        expiration(now, years, months, days)->0.valid(),
{
}

/// An expiration date of days alone lies that many times 86400 seconds after
/// the instant from which it is counted: it has not passed at that instant,
/// and has passed at every instant that lies later than it.
pub proof fn lemma_expiration_in_days(now: Timestamp, days: int, later: Timestamp)
    requires
        expiration(now, 0, 0, days) is Some,
    ensures
        expiration(now, 0, 0, days)->0.secs == now.secs + 86_400 * days,
        expiration(now, 0, 0, days)->0.nanos == now.nanos,
        !expiration(now, 0, 0, days)->0.before(now),
        later.secs > now.secs + 86_400 * days ==> expiration(now, 0, 0, days)->0.before(later),
{
}

} // verus!
