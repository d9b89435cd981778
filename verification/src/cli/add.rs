use crate::error::ErrorKind;
use crate::file::writer::Writer;
use crate::time::{compute_expiration, expiration, Timestamp};
use vstd::prelude::*;

verus! {

/// What the command that adds an entry is given: the path as the user wrote
/// it, and the time after which it expires, in years, months and days.
#[derive(Debug, Clone, PartialEq, Eq)]
pub struct AddArgs {
    pub path: String,
    pub year: Option<u64>,
    pub day: Option<u64>,
    pub month: Option<u64>,
}

impl AddArgs {
    /// The years given, none counting as zero.
    pub open spec fn years(&self) -> int {
        match self.year {
            Some(n) => n as int,
            None => 0,
        }
    }

    /// The months given, none counting as zero.
    pub open spec fn months(&self) -> int {
        match self.month {
            Some(n) => n as int,
            None => 0,
        }
    }

    /// The days given, none counting as zero.
    pub open spec fn days(&self) -> int {
        match self.day {
            Some(n) => n as int,
            None => 0,
        }
    }

    /// Whether any of the three was given.
    pub open spec fn exp_time_set(&self) -> bool {
        self.day is Some || self.month is Some || self.year is Some
    }

    /// The expiration date that these arguments ask for at the instant
    /// `now`; `None` where it cannot be held.
    pub open spec fn exp_date(&self, now: Timestamp) -> Option<Timestamp> {
        expiration(now, self.years(), self.months(), self.days())
    }

    /// Whether a year, a month or a day was given.
    pub fn is_exp_time_set(&self) -> (r: bool)
        ensures
            r == self.exp_time_set(),
    {
        self.day.is_some() || self.month.is_some() || self.year.is_some()
    }

    /// The expiration date that these arguments ask for at the instant `now`.
    /// Fails with `InvalidTime` where that date cannot be held.
    pub fn exp_date_at(&self, now: &Timestamp) -> (r: Result<Timestamp, ErrorKind>)
        ensures
            match r {
                Ok(date) => self.exp_date(*now) == Some(date),
                Err(e) => e == ErrorKind::InvalidTime && self.exp_date(*now) is None,
            },
    {
        let years: u64 = match self.year {
            Some(n) => n,
            None => 0,
        };
        let months: u64 = match self.month {
            Some(n) => n,
            None => 0,
        };
        let days: u64 = match self.day {
            Some(n) => n,
            None => 0,
        };
        compute_expiration(now, years, months, days)
    }

    /// The expiration date that these arguments ask for, counted from the
    /// clock. Fails with `InvalidTime` where that date cannot be held.
    pub fn get_exp_date(&self) -> (r: Result<Timestamp, ErrorKind>)
        ensures
            exists|now: Timestamp|
                now.valid() && match r {
                    Ok(date) => self.exp_date(now) == Some(date),
                    Err(e) => e == ErrorKind::InvalidTime && self.exp_date(now) is None,
                },
    {
        let now = Timestamp::now();
        self.exp_date_at(&now)
    }

    /// What `execute` has done, seen from outside: `before` is the registry
    /// as it was, `after` as it is, `r` what was returned, `now` the instant
    /// from which the expiration was counted.
    pub open spec fn executed(
        &self,
        before: &Writer,
        after: &Writer,
        abs_path: Option<&str>,
        now: Timestamp,
        r: Result<(), ErrorKind>,
    ) -> bool {
        if self.exp_time_set() {
            after.added(before, self, abs_path, now, r)
        } else {
            &&& r == Err::<(), ErrorKind>(ErrorKind::NoTimeSpecified)
            &&& after.location() == before.location()
            &&& after.log() == before.log()
        }
    }

    /// Carries the command out on the registry, counting from the instant
    /// `now`. Fails with `NoTimeSpecified`, and leaves the registry as it is,
    /// where neither a year nor a month nor a day was given; else it adds the
    /// entry, as `Writer::add_entry_at` does.
    pub fn execute_at(&self, wrt: &mut Writer, abs_path: Option<&str>, now: &Timestamp) -> (r:
        Result<(), ErrorKind>)
        ensures
            self.executed(old(wrt), final(wrt), abs_path, *now, r),
    {
        if !self.is_exp_time_set() {
            return Err(ErrorKind::NoTimeSpecified);
        }
        wrt.add_entry_at(self, abs_path, now)
    }

    /// Carries the command out on the registry, counting from the clock.
    pub fn execute(&self, wrt: &mut Writer, abs_path: Option<&str>) -> (r: Result<(), ErrorKind>)
        ensures
            exists|now: Timestamp|
                now.valid() && self.executed(old(wrt), final(wrt), abs_path, now, r),
    {
        let now = Timestamp::now();
        self.execute_at(wrt, abs_path, &now)
    }
}

} // verus!
