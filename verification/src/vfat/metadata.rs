//! Attributes and timestamps of a directory entry.

use vstd::prelude::*;

verus! {

/// A date as it is stored on disk: bits 15 to 9 hold the year since 1980,
/// bits 8 to 5 the month, bits 4 to 0 the day.
#[derive(Debug, Copy, Clone, PartialEq, Eq, Structural)]
pub struct Date(pub u16);

/// A time of day as it is stored on disk: bits 15 to 11 hold the hour,
/// bits 10 to 5 the minute, bits 4 to 0 the seconds divided by two.
#[derive(Debug, Copy, Clone, PartialEq, Eq, Structural)]
pub struct Time(pub u16);

/// The attribute byte of a directory entry.
#[derive(Debug, Copy, Clone, PartialEq, Eq, Structural)]
pub struct Attributes(pub u8);

/// A date together with a time of day.
#[derive(Copy, Clone, Debug, PartialEq, Eq, Structural)]
pub struct Timestamp {
    pub date: Date,
    pub time: Time,
}

/// What a directory entry records about a file beside its name and place.
#[derive(Debug, Copy, Clone, PartialEq, Eq, Structural)]
pub struct Metadata {
    pub attr: Attributes,
    pub created: Timestamp,
    pub accessed: Timestamp,
    pub modified: Timestamp,
}

impl Default for Date {
    fn default() -> (d: Date)
        ensures
            d == Date(0),
    {
        Date(0)
    }
}

impl Default for Time {
    fn default() -> (t: Time)
        ensures
            t == Time(0),
    {
        Time(0)
    }
}

impl Default for Attributes {
    fn default() -> (a: Attributes)
        ensures
            a == Attributes(0),
    {
        Attributes(0)
    }
}

impl Default for Timestamp {
    fn default() -> (t: Timestamp)
        ensures
            t == Timestamp::zero(),
    {
        Timestamp { date: Date(0), time: Time(0) }
    }
}

impl Default for Metadata {
    fn default() -> (m: Metadata)
        ensures
            m == Metadata::zero(),
    {
        Metadata {
            attr: Attributes(0),
            created: Timestamp { date: Date(0), time: Time(0) },
            accessed: Timestamp { date: Date(0), time: Time(0) },
            modified: Timestamp { date: Date(0), time: Time(0) },
        }
    }
}

impl Date {
    /// The stored date names a month of the year and a day from the first on.
    pub open spec fn is_calendar_date(self) -> bool {
        &&& 1 <= (self.0 as int / 32) % 16 <= 12
        &&& 1 <= self.0 as int % 32
    }
}

impl Time {
    /// The stored time names an hour of the day, a minute of the hour and a
    /// second of the minute.
    pub open spec fn is_clock_time(self) -> bool {
        &&& self.0 as int / 2048 <= 23
        &&& (self.0 as int / 32) % 64 <= 59
        &&& self.0 as int % 32 <= 29
    }
}

impl Timestamp {
    /// The timestamp whose date and time are all zero bits.
    pub open spec fn zero() -> Timestamp {
        Timestamp { date: Date(0), time: Time(0) }
    }

    /// Both halves of the timestamp are in their calendar ranges.
    pub open spec fn is_valid(self) -> bool {
        self.date.is_calendar_date() && self.time.is_clock_time()
    }

    pub open spec fn spec_year(self) -> int {
        ((self.date.0 & 0xFE00) >> 9) as int + 1980
    }

    pub open spec fn spec_month(self) -> int {
        ((self.date.0 & 0x01E0) >> 5) as int
    }

    pub open spec fn spec_day(self) -> int {
        (self.date.0 & 0x001F) as int
    }

    pub open spec fn spec_hour(self) -> int {
        ((self.time.0 & 0xF800) >> 11) as int
    }

    pub open spec fn spec_minute(self) -> int {
        ((self.time.0 & 0x07E0) >> 5) as int
    }

    pub open spec fn spec_second(self) -> int {
        (self.time.0 & 0x001F) as int * 2
    }

    /// The calendar year, not offset: 2009 is 2009.
    pub fn year(&self) -> (y: usize)
        ensures
            y == self.spec_year(),
            1980 <= y <= 2107,
    {
        let d: u16 = self.date.0;
        assert((d & 0xFE00) >> 9 <= 127) by (bit_vector);
        ((d & 0xFE00) >> 9) as usize + 1980
    }

    /// The calendar month as stored; January is 1.
    pub fn month(&self) -> (m: u8)
        ensures
            m == self.spec_month(),
            m <= 15,
    {
        let d: u16 = self.date.0;
        assert((d & 0x01E0) >> 5 <= 15) by (bit_vector);
        ((d & 0x01E0) >> 5) as u8
    }

    /// The day of the month as stored; the first day is 1.
    pub fn day(&self) -> (d: u8)
        ensures
            d == self.spec_day(),
            d <= 31,
    {
        let raw: u16 = self.date.0;
        assert(raw & 0x001F <= 31) by (bit_vector);
        (raw & 0x001F) as u8
    }

    /// The hour on a 24-hour clock.
    pub fn hour(&self) -> (h: u8)
        ensures
            h == self.spec_hour(),
            h <= 31,
    {
        let t: u16 = self.time.0;
        assert((t & 0xF800) >> 11 <= 31) by (bit_vector);
        ((t & 0xF800) >> 11) as u8
    }

    /// The minute of the hour.
    pub fn minute(&self) -> (m: u8)
        ensures
            m == self.spec_minute(),
            m <= 63,
    {
        let t: u16 = self.time.0;
        assert((t & 0x07E0) >> 5 <= 63) by (bit_vector);
        ((t & 0x07E0) >> 5) as u8
    }

    /// The second of the minute; the disk keeps it to two seconds.
    pub fn second(&self) -> (s: u8)
        ensures
            s == self.spec_second(),
            s <= 62,
            s % 2 == 0,
    {
        let t: u16 = self.time.0;
        assert(t & 0x001F <= 31) by (bit_vector);
        (t & 0x001F) as u8 * 2
    }
}

/// The accessors of a timestamp whose stored fields are in their calendar
/// ranges stay in those ranges: the month from 1 to 12, the day from 1 to 31,
/// the hour up to 23, the minute up to 59 and the second up to 58.
pub proof fn lemma_valid_timestamp_ranges(t: Timestamp)
    requires
        t.is_valid(),
    ensures
        1 <= t.spec_month() <= 12,
        1 <= t.spec_day() <= 31,
        0 <= t.spec_hour() <= 23,
        0 <= t.spec_minute() <= 59,
        0 <= t.spec_second() <= 58,
{
    let d: u16 = t.date.0;
    let c: u16 = t.time.0;
    assert((d & 0x01E0) >> 5 == (d / 32) % 16) by (bit_vector);
    assert(d & 0x001F == d % 32) by (bit_vector);
    assert((c & 0xF800) >> 11 == c / 2048) by (bit_vector);
    assert((c & 0x07E0) >> 5 == (c / 32) % 64) by (bit_vector);
    assert(c & 0x001F == c % 32) by (bit_vector);
}

impl Metadata {
    /// The metadata whose every field is zero bits.
    pub open spec fn zero() -> Metadata {
        Metadata {
            attr: Attributes(0),
            created: Timestamp::zero(),
            accessed: Timestamp::zero(),
            modified: Timestamp::zero(),
        }
    }

    /// Whether the entry may not be written to.
    pub fn read_only(&self) -> (b: bool)
        ensures
            b == (self.attr.0 & 0x01 == 0x01),
    {
        self.attr.0 & 0x01 == 0x01
    }

    /// Whether the entry is to be left out of directory listings.
    pub fn hidden(&self) -> (b: bool)
        ensures
            b == (self.attr.0 & 0x02 == 0x02),
    {
        self.attr.0 & 0x02 == 0x02
    }

    /// When the entry was created.
    pub fn created(&self) -> (t: Timestamp)
        ensures
            t == self.created,
    {
        self.created
    }

    /// When the entry was last read.
    pub fn accessed(&self) -> (t: Timestamp)
        ensures
            t == self.accessed,
    {
        self.accessed
    }

    /// When the entry was last written.
    pub fn modified(&self) -> (t: Timestamp)
        ensures
            t == self.modified,
    {
        self.modified
    }
}

} // verus!
