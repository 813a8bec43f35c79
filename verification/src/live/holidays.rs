//! Whole-day NSE closures.

use vstd::prelude::*;

verus! {

/// A calendar date (proleptic Gregorian year, month 1–12, day 1–31).
#[derive(Debug, Clone, Copy, PartialEq, Eq, Hash, Structural)]
pub struct CalendarDate {
    pub year: i32,
    pub month: u32,
    pub day: u32,
}

/// The days the NSE cash market is closed all day.
#[derive(Debug, Clone)]
pub struct NseHolidayCalendar {
    holidays: Vec<CalendarDate>,
}

impl NseHolidayCalendar {
    /// The listed holidays, in the order given.
    pub closed spec fn days(&self) -> Seq<CalendarDate> {
        self.holidays@
    }

    /// A calendar with no holidays.
    pub fn new() -> (r: NseHolidayCalendar)
        ensures
            r.days() == Seq::<CalendarDate>::empty(),
    {
        NseHolidayCalendar { holidays: Vec::new() }
    }

    /// A calendar listing exactly `holidays`.
    pub fn with_holidays(holidays: Vec<CalendarDate>) -> (r: NseHolidayCalendar)
        ensures
            r.days() == holidays@,
    {
        NseHolidayCalendar { holidays }
    }

    /// The date is a listed holiday.
    pub fn is_holiday(&self, d: CalendarDate) -> (r: bool)
        ensures
            r == self.days().contains(d),
    {
        let mut i: usize = 0;
        while i < self.holidays.len()
            invariant
                i <= self.holidays@.len(),
                forall|j: int| 0 <= j < i ==> self.holidays@[j] != d,
            decreases self.holidays.len() - i,
        {
            if self.holidays[i] == d {
                return true;
            }
            i = i + 1;
        }
        false
    }

    /// The number of listed holidays.
    pub fn len(&self) -> (r: usize)
        ensures
            r == self.days().len(),
    {
        self.holidays.len()
    }

    /// No holidays are listed.
    pub fn is_empty(&self) -> (r: bool)
        ensures
            r == (self.days().len() == 0),
    {
        self.holidays.len() == 0
    }
}

impl Default for NseHolidayCalendar {
    fn default() -> (r: NseHolidayCalendar)
        ensures
            r.days() == Seq::<CalendarDate>::empty(),
    {
        NseHolidayCalendar::new()
    }
}

} // verus!
