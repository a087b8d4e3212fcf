//! The datetime capability: the read-only view of calendar fields that any
//! formattable value must expose.

use vstd::prelude::*;

verus! {

/// Read-only calendar fields of a datetime value. Each accessor is pure; the
/// spec functions name the field values so contracts can speak about them,
/// and the accessors promise the documented ranges.
pub trait DateTimeLike {
    /// The signed year, as a mathematical value (zero and below mean BC/BCE).
    spec fn spec_full_year(&self) -> i32;

    /// The month, as a mathematical value.
    spec fn spec_month(&self) -> u32;

    /// The day of month, as a mathematical value.
    spec fn spec_day(&self) -> u32;

    /// The hour, as a mathematical value.
    spec fn spec_hour(&self) -> u32;

    /// The minute, as a mathematical value.
    spec fn spec_minute(&self) -> u32;

    /// The second, as a mathematical value.
    spec fn spec_second(&self) -> u32;

    /// The microsecond count, as a mathematical value.
    spec fn spec_microsecond(&self) -> u32;

    /// Returns the year number; zero and negative values denote BC/BCE years
    /// under astronomical numbering.
    fn full_year(&self) -> (r: i32)
        ensures
            r == self.spec_full_year(),
    ;

    /// Returns the month number, from 1 to 12.
    fn month(&self) -> (r: u32)
        ensures
            r == self.spec_month(),
            1 <= r <= 12,
    ;

    /// Returns the day of month, from 1 to 31.
    fn day(&self) -> (r: u32)
        ensures
            r == self.spec_day(),
            1 <= r <= 31,
    ;

    /// Returns the hour, from 0 to 23.
    fn hour(&self) -> (r: u32)
        ensures
            r == self.spec_hour(),
            r <= 23,
    ;

    /// Returns the minute, from 0 to 59.
    fn minute(&self) -> (r: u32)
        ensures
            r == self.spec_minute(),
            r <= 59,
    ;

    /// Returns the second, from 0 to 59.
    fn second(&self) -> (r: u32)
        ensures
            r == self.spec_second(),
            r <= 59,
    ;

    /// Returns the number of microseconds since the whole non-leap second;
    /// 1,000,000 to 1,999,999 represents a leap second.
    fn microsecond(&self) -> (r: u32)
        ensures
            r == self.spec_microsecond(),
            r <= 1_999_999,
    ;
}

/// A plain calendar value carrying its fields directly, validated on
/// construction. Adapters for concrete calendar crates can convert into this
/// type, and custom implementations of [`DateTimeLike`] work just as well.
pub struct PlainDateTime {
    year: i32,
    month: u32,
    day: u32,
    hour: u32,
    minute: u32,
    second: u32,
    microsecond: u32,
}

impl PlainDateTime {
    #[verifier::type_invariant]
    spec fn wf(self) -> bool {
        &&& 1 <= self.month <= 12
        &&& 1 <= self.day <= 31
        &&& self.hour <= 23
        &&& self.minute <= 59
        &&& self.second <= 59
        &&& self.microsecond <= 1_999_999
    }

    /// Builds a datetime from its fields; returns `None` exactly when a field
    /// is outside its documented range.
    pub fn new(
        year: i32,
        month: u32,
        day: u32,
        hour: u32,
        minute: u32,
        second: u32,
        microsecond: u32,
    ) -> (r: Option<PlainDateTime>)
        ensures
            r is Some <==> (1 <= month <= 12 && 1 <= day <= 31 && hour <= 23 && minute <= 59
                && second <= 59 && microsecond <= 1_999_999),
            r matches Some(d) ==> d.spec_full_year() == year && d.spec_month() == month
                && d.spec_day() == day && d.spec_hour() == hour && d.spec_minute() == minute
                && d.spec_second() == second && d.spec_microsecond() == microsecond,
    {
        if 1 <= month && month <= 12 && 1 <= day && day <= 31 && hour <= 23 && minute <= 59
            && second <= 59 && microsecond <= 1_999_999 {
            Some(PlainDateTime { year, month, day, hour, minute, second, microsecond })
        } else {
            None
        }
    }
}

impl DateTimeLike for PlainDateTime {
    closed spec fn spec_full_year(&self) -> i32 {
        self.year
    }

    closed spec fn spec_month(&self) -> u32 {
        self.month
    }

    closed spec fn spec_day(&self) -> u32 {
        self.day
    }

    closed spec fn spec_hour(&self) -> u32 {
        self.hour
    }

    closed spec fn spec_minute(&self) -> u32 {
        self.minute
    }

    closed spec fn spec_second(&self) -> u32 {
        self.second
    }

    closed spec fn spec_microsecond(&self) -> u32 {
        self.microsecond
    }

    fn full_year(&self) -> (r: i32) {
        self.year
    }

    fn month(&self) -> (r: u32) {
        proof {
            use_type_invariant(self);
        }
        self.month
    }

    fn day(&self) -> (r: u32) {
        proof {
            use_type_invariant(self);
        }
        self.day
    }

    fn hour(&self) -> (r: u32) {
        proof {
            use_type_invariant(self);
        }
        self.hour
    }

    fn minute(&self) -> (r: u32) {
        proof {
            use_type_invariant(self);
        }
        self.minute
    }

    fn second(&self) -> (r: u32) {
        proof {
            use_type_invariant(self);
        }
        self.second
    }

    fn microsecond(&self) -> (r: u32) {
        proof {
            use_type_invariant(self);
        }
        self.microsecond
    }
}

} // verus!
