//! What the log on the removable medium needs besides the medium itself: the
//! time stamp of a file, the name of a log file, and the cache that gathers
//! what is written into blocks.

use vstd::prelude::*;
use ds323x::{Datelike, Timelike};
use crate::board::HardwareError;
use crate::util::{push_decimal, signed_decimal};

verus! {

/// Bytes that the cache gathers before they are written out.
pub const CACHE_SIZE: usize = 100;

/// Bytes of the name of a log file: seven digits, a point, three letters.
pub const FILE_NAME_SIZE: usize = 11;

/// The largest number that names a log file.
pub const FILE_NUMBER_MASK: i64 = 9_999_999;

/// Number of files that the log may leave in the root directory of the medium.
pub const MAX_ROOT_FILES: u64 = 512;

/// Bytes of the medium that the log leaves free.
pub const RESERVED_BYTES: u64 = 100_000_000;

/// Whether the medium counts as full: the root directory holds as many files as
/// it may, or the files take more than the medium has beyond its reserve.
pub open spec fn medium_is_full(files: u64, used: u64, size: u64) -> bool {
    files >= MAX_ROOT_FILES || used + RESERVED_BYTES > size
}

/// The error to raise after the root directory of the medium was read: that
/// the storage is full, or none.
pub fn storage_fault(files: u64, used: u64, size: u64) -> (error: HardwareError)
    ensures
        error == if medium_is_full(files, used, size) {
            HardwareError::StorageFull
        } else {
            HardwareError::NoError
        },
{
    if files >= MAX_ROOT_FILES || used as u128 + RESERVED_BYTES as u128 > size as u128 {
        HardwareError::StorageFull
    } else {
        HardwareError::NoError
    }
}

/// A moment as a calendar shows it.
#[derive(Clone, Copy, Debug, PartialEq, Eq, Structural)]
pub struct CalendarTime {
    pub year: i32,
    /// 1 to 12.
    pub month: u8,
    /// 1 to 31.
    pub day: u8,
    /// 0 to 23.
    pub hour: u8,
    /// 0 to 59.
    pub minute: u8,
    /// 0 to 59.
    pub second: u8,
}

/// The time stamp that the file system keeps with a file.
#[derive(Clone, Copy, Debug, PartialEq, Eq, Structural)]
pub struct FileTimestamp {
    /// Years since 1970.
    pub year_since_1970: u8,
    /// Months since January.
    pub zero_indexed_month: u8,
    /// Days since the first of the month.
    pub zero_indexed_day: u8,
    pub hours: u8,
    pub minutes: u8,
    pub seconds: u8,
}

/// The moment that lies `epoch` seconds behind the start of 1970, in universal
/// time, as the `chrono` crate computes it by the proleptic Gregorian calendar:
/// the year, the month, the day, the hour, the minute and the second; nothing
/// for a moment that it cannot hold.
pub uninterp spec fn calendar_of(epoch: i64) -> Option<(i32, u8, u8, u8, u8, u8)>;

/// `NaiveDateTime::from_timestamp_opt` of `chrono`, as `ds323x` hands it on,
/// with the fields that `Datelike` and `Timelike` read from it. Their
/// documentation gives the ranges of the month, the day, the hour, the minute
/// and the second.
#[verifier::external_body]
fn calendar_from_epoch(epoch: i64) -> (r: Option<(i32, u8, u8, u8, u8, u8)>)
    ensures
        r == calendar_of(epoch),
        r matches Some(time) ==> 1 <= time.1 <= 12 && 1 <= time.2 <= 31 && time.3 <= 23 && time.4
            <= 59 && time.5 <= 59,
{
    let time = ds323x::NaiveDateTime::from_timestamp_opt(epoch, 0)?;
    Some((
        time.year(),
        time.month() as u8,
        time.day() as u8,
        time.hour() as u8,
        time.minute() as u8,
        time.second() as u8,
    ))
}

/// The moment that a clock shows, as a calendar shows it.
pub open spec fn calendar_time(epoch: i64) -> Option<CalendarTime> {
    match calendar_of(epoch) {
        Some(time) => Some(
            CalendarTime {
                year: time.0,
                month: time.1,
                day: time.2,
                hour: time.3,
                minute: time.4,
                second: time.5,
            },
        ),
        None => None,
    }
}

/// The time stamp of the start of 1970.
pub open spec fn first_timestamp() -> FileTimestamp {
    FileTimestamp {
        year_since_1970: 0,
        zero_indexed_month: 0,
        zero_indexed_day: 0,
        hours: 0,
        minutes: 0,
        seconds: 0,
    }
}

/// The time stamp for a moment of the calendar. The file system holds the years
/// from 1970 to 2225; a moment outside of them, or none, is stamped as the start of
/// 1970.
pub open spec fn stamped(time: Option<CalendarTime>) -> FileTimestamp {
    match time {
        Some(time) => if 1970 <= time.year <= 2225 && 1 <= time.month <= 12 && 1 <= time.day
            <= 31 && time.hour <= 23 && time.minute <= 59 && time.second <= 59 {
            FileTimestamp {
                year_since_1970: (time.year - 1970) as u8,
                zero_indexed_month: (time.month - 1) as u8,
                zero_indexed_day: (time.day - 1) as u8,
                hours: time.hour,
                minutes: time.minute,
                seconds: time.second,
            }
        } else {
            first_timestamp()
        },
        None => first_timestamp(),
    }
}

/// The time stamp for a moment of the calendar.
pub fn timestamp_from_calendar(time: Option<CalendarTime>) -> (timestamp: FileTimestamp)
    ensures
        timestamp == stamped(time),
        timestamp.year_since_1970 <= 255,
        timestamp.zero_indexed_month <= 11,
        timestamp.zero_indexed_day <= 30,
        timestamp.hours <= 23,
        timestamp.minutes <= 59,
        timestamp.seconds <= 59,
{
    let first = FileTimestamp {
        year_since_1970: 0,
        zero_indexed_month: 0,
        zero_indexed_day: 0,
        hours: 0,
        minutes: 0,
        seconds: 0,
    };
    match time {
        Some(time) => if 1970 <= time.year && time.year <= 2225 && 1 <= time.month && time.month
            <= 12 && 1 <= time.day && time.day <= 31 && time.hour <= 23 && time.minute <= 59
            && time.second <= 59 {
            FileTimestamp {
                year_since_1970: (time.year - 1970) as u8,
                zero_indexed_month: time.month - 1,
                zero_indexed_day: time.day - 1,
                hours: time.hour,
                minutes: time.minute,
                seconds: time.second,
            }
        } else {
            first
        },
        None => first,
    }
}

/// The clock that stamps the files of the log: it shows the time that the cycle
/// last set.
#[derive(Clone, Copy, Debug)]
pub struct RrivTimeSource {
    /// Seconds since the start of 1970.
    pub epoch_timestamp: i64,
}

impl RrivTimeSource {
    /// A clock that shows the start of 1970.
    pub fn new() -> (source: Self)
        ensures
            source.epoch_timestamp == 0,
    {
        RrivTimeSource { epoch_timestamp: 0 }
    }

    /// Sets the clock.
    pub fn set_timestamp(&mut self, epoch_timestamp: i64)
        ensures
            final(self).epoch_timestamp == epoch_timestamp,
    {
        self.epoch_timestamp = epoch_timestamp;
    }

    /// The time stamp for the time that the clock shows.
    pub fn get_timestamp(&self) -> (timestamp: FileTimestamp)
        ensures
            timestamp == stamped(calendar_time(self.epoch_timestamp)),
    {
        let time: Option<CalendarTime> = match calendar_from_epoch(self.epoch_timestamp) {
            Some(time) => Some(
                CalendarTime {
                    year: time.0,
                    month: time.1,
                    day: time.2,
                    hour: time.3,
                    minute: time.4,
                    second: time.5,
                },
            ),
            None => None,
        };
        timestamp_from_calendar(time)
    }
}

/// The number that names the log file started at wall-clock second `timestamp`:
/// the second itself, or, where it has more than seven digits, the bits that
/// it shares with the largest number of seven digits.
pub open spec fn file_number(timestamp: i64) -> i64 {
    if timestamp > FILE_NUMBER_MASK {
        timestamp & FILE_NUMBER_MASK
    } else {
        timestamp
    }
}

/// The name of the log file with number `number`: the number in decimal, with
/// zeros in front up to seven characters, and `.csv`. A number that takes more
/// than seven characters has no name.
pub open spec fn file_name_text(number: i64) -> Option<Seq<u8>> {
    let text = signed_decimal(number as int);
    if text.len() <= 7 {
        Some(
            Seq::new((7 - text.len()) as nat, |i: int| 0x30u8) + text + seq![
                0x2Eu8,
                0x63u8,
                0x73u8,
                0x76u8,
            ],
        )
    } else {
        None
    }
}

/// The name of the log file started at wall-clock second `timestamp`. Where the
/// number has no name, every byte of the name is `0xFF`.
pub fn log_file_name(timestamp: i64) -> (name: [u8; 11])
    ensures
        name@ == match file_name_text(file_number(timestamp)) {
            Some(text) => text,
            None => Seq::new(11, |i: int| 0xFFu8),
        },
{
    let number: i64 = if timestamp > FILE_NUMBER_MASK {
        timestamp & FILE_NUMBER_MASK
    } else {
        timestamp
    };
    let mut text: Vec<u8> = Vec::new();
    push_decimal(&mut text, number);
    let n: usize = text.len();
    if n > 7 {
        let name: [u8; 11] = [0xFF, 0xFF, 0xFF, 0xFF, 0xFF, 0xFF, 0xFF, 0xFF, 0xFF, 0xFF, 0xFF];
        assert(name@ =~= Seq::new(11, |i: int| 0xFFu8));
        return name;
    }
    let mut name: [u8; 11] = [0x30, 0x30, 0x30, 0x30, 0x30, 0x30, 0x30, 0x2E, 0x63, 0x73, 0x76];
    let mut i: usize = 0;
    while i < n
        invariant
            i <= n <= 7,
            n == text@.len(),
            forall|j: int| 0 <= j < 7 - n ==> #[trigger] name@[j] == 0x30,
            forall|j: int| 7 - n <= j < 7 - n + i ==> #[trigger] name@[j] == text@[j - (7 - n)],
            name@[7] == 0x2E,
            name@[8] == 0x63,
            name@[9] == 0x73,
            name@[10] == 0x76,
        decreases n - i,
    {
        name[7 - n + i] = text[i];
        i += 1;
    }
    assert(name@ =~= file_name_text(number)->0);
    name
}

/// The cache of the log: bytes gather in it until it is full, and leave it
/// together.
#[derive(Clone, Copy, Debug)]
pub struct StorageCache {
    pub cache: [u8; 100],
    /// Number of bytes that wait in the cache.
    pub next_position: usize,
}

impl StorageCache {
    /// What holds of the cache between calls.
    pub open spec fn well_formed(&self) -> bool {
        self.next_position <= CACHE_SIZE
    }

    /// The bytes that wait in the cache.
    pub open spec fn pending(&self) -> Seq<u8> {
        self.cache@.subrange(0, self.next_position as int)
    }

    /// An empty cache.
    pub fn new() -> (cache: Self)
        ensures
            cache.well_formed(),
            cache.pending() == Seq::<u8>::empty(),
            cache.next_position == 0,
            forall|i: int| 0 <= i < 100 ==> #[trigger] cache.cache@[i] == 0,
    {
        let cache = StorageCache {
            cache: [
                0, 0, 0, 0, 0, 0, 0, 0, 0, 0, 0, 0, 0, 0, 0, 0, 0, 0, 0, 0, 0, 0, 0, 0, 0, 0, 0, 0,
                0, 0, 0, 0, 0, 0, 0, 0, 0, 0, 0, 0, 0, 0, 0, 0, 0, 0, 0, 0, 0, 0, 0, 0, 0, 0, 0, 0,
                0, 0, 0, 0, 0, 0, 0, 0, 0, 0, 0, 0, 0, 0, 0, 0, 0, 0, 0, 0, 0, 0, 0, 0, 0, 0, 0, 0,
                0, 0, 0, 0, 0, 0, 0, 0, 0, 0, 0, 0, 0, 0, 0, 0,
            ],
            next_position: 0,
        };
        assert(cache.pending() =~= Seq::<u8>::empty());
        cache
    }

    /// Takes the bytes that wait out of the cache, to be written out.
    pub fn flush(&mut self) -> (flushed: Vec<u8>)
        requires
            old(self).well_formed(),
        ensures
            final(self).well_formed(),
            flushed@ == old(self).pending(),
            final(self).pending() == Seq::<u8>::empty(),
            final(self).next_position == 0,
    {
        let mut flushed: Vec<u8> = Vec::new();
        let mut i: usize = 0;
        while i < self.next_position
            invariant
                i <= self.next_position <= 100,
                *self == *old(self),
                flushed@ == self.cache@.subrange(0, i as int),
            decreases self.next_position - i,
        {
            flushed.push(self.cache[i]);
            i += 1;
            assert(flushed@ =~= self.cache@.subrange(0, i as int));
        }
        self.next_position = 0;
        assert(self.pending() =~= Seq::<u8>::empty());
        flushed
    }

    /// Puts `data` behind the bytes that wait. Where the cache cannot take all of
    /// it, the bytes that wait and as much of `data` as fills whole caches are
    /// handed back, in order, to be written out; the rest of `data` waits. No
    /// byte is lost and none changes its place.
    pub fn write(&mut self, data: &[u8]) -> (flushed: Vec<u8>)
        requires
            old(self).well_formed(),
        ensures
            final(self).well_formed(),
            flushed@ + final(self).pending() == old(self).pending() + data@,
            old(self).next_position + data@.len() <= CACHE_SIZE ==> flushed@.len() == 0,
            old(self).next_position + data@.len() > CACHE_SIZE ==> final(self).next_position
                == data@.len() % 100,
    {
        let n: usize = data.len();
        let mut flushed: Vec<u8> = Vec::new();
        let mut from: usize = 0;
        if n > CACHE_SIZE - self.next_position {
            flushed = self.flush();
            let keep: usize = n % CACHE_SIZE;
            assert(flushed@ =~= old(self).pending() + data@.subrange(0, 0));
            while from < n - keep
                invariant
                    from <= n - keep,
                    keep <= n,
                    n == data@.len(),
                    self.next_position == 0,
                    flushed@ == old(self).pending() + data@.subrange(0, from as int),
                decreases n - keep - from,
            {
                flushed.push(data[from]);
                from += 1;
                assert(flushed@ =~= old(self).pending() + data@.subrange(0, from as int));
            }
        } else {
            assert(flushed@ + self.pending() =~= old(self).pending() + data@.subrange(0, 0));
        }
        let ghost start = self.pending();
        let ghost first = from;
        while from < n
            invariant
                first <= from <= n,
                n == data@.len(),
                self.next_position == start.len() + (from - first),
                self.next_position + (n - from) <= 100,
                self.pending() == start + data@.subrange(first as int, from as int),
            decreases n - from,
        {
            let ghost before = self.pending();
            self.cache[self.next_position] = data[from];
            self.next_position = self.next_position + 1;
            from += 1;
            assert(self.pending() =~= before.push(data@[from - 1]));
            assert(self.pending() =~= start + data@.subrange(first as int, from as int));
        }
        assert(flushed@ + self.pending() =~= old(self).pending() + data@) by {
            assert(data@.subrange(0, first as int) + data@.subrange(first as int, n as int)
                =~= data@);
        }
        flushed
    }
}

} // verus!
