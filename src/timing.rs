//! The span of wall-clock time that the sand measures out.

use vstd::prelude::*;
use vstd::string::StringSliceAdditionalSpecFns;
use chrono::Timelike;

verus! {

/// Why a length of time such as `1h30m` was refused.
#[derive(Clone, Copy, PartialEq, Eq, Structural, Debug)]
pub enum TimeParseError {
    /// A part holds fewer than two characters.
    TooShort,
    /// The number of a part does not fit in 64 bits.
    BadNumber,
    /// A part ends in something other than `s`, `m`, `h`, `d` or `y`.
    BadUnit,
    /// The total number of seconds does not fit in 64 bits.
    TooLong,
}

pub open spec fn is_digit(c: u8) -> bool {
    48 <= c <= 57
}

/// The end of the run of decimal digits that starts at `i`.
pub open spec fn digit_end(b: Seq<u8>, i: int) -> int
    decreases b.len() - i,
{
    if 0 <= i < b.len() && is_digit(b[i]) {
        digit_end(b, i + 1)
    } else {
        i
    }
}

/// The number written by the digits `b[i..j]`.
pub open spec fn decimal(b: Seq<u8>, i: int, j: int) -> int
    decreases j - i,
{
    if j <= i {
        0
    } else {
        decimal(b, i, j - 1) * 10 + (b[j - 1] - 48)
    }
}

/// The seconds in one unit: `s`, `m`, `h`, `d` and `y` (365 days); zero for
/// any other character.
pub open spec fn unit_seconds(c: u8) -> int {
    if c == 115 {
        1
    } else if c == 109 {
        60
    } else if c == 104 {
        3600
    } else if c == 100 {
        86400
    } else if c == 121 {
        31536000
    } else {
        0
    }
}

/// Reads the parts of `b` from `i` on, each a number followed by one unit, and
/// adds their seconds to `total`. Parts are split after each non-digit; the
/// first part that fails decides the error.
pub open spec fn parse_parts(b: Seq<u8>, i: int, total: int) -> Result<int, TimeParseError>
    decreases b.len() - i,
    via parse_parts_decreases
{
    if i < 0 || i >= b.len() {
        Ok(total)
    } else {
        let end = digit_end(b, i);
        if end >= b.len() {
            if end - i < 2 {
                Err(TimeParseError::TooShort)
            } else if decimal(b, i, end - 1) > u64::MAX {
                Err(TimeParseError::BadNumber)
            } else {
                Err(TimeParseError::BadUnit)
            }
        } else if end == i {
            Err(TimeParseError::TooShort)
        } else if decimal(b, i, end) > u64::MAX {
            Err(TimeParseError::BadNumber)
        } else if unit_seconds(b[end]) == 0 {
            Err(TimeParseError::BadUnit)
        } else if total + decimal(b, i, end) * unit_seconds(b[end]) > u64::MAX {
            Err(TimeParseError::TooLong)
        } else {
            parse_parts(b, end + 1, total + decimal(b, i, end) * unit_seconds(b[end]))
        }
    }
}

#[via_fn]
proof fn parse_parts_decreases(b: Seq<u8>, i: int, total: int) {
    if 0 <= i < b.len() {
        lemma_digit_end(b, i);
    }
}

pub proof fn lemma_digit_end(b: Seq<u8>, i: int)
    requires
        0 <= i <= b.len(),
    ensures
        i <= digit_end(b, i) <= b.len(),
        forall|k: int| i <= k < digit_end(b, i) ==> is_digit(#[trigger] b[k]),
        digit_end(b, i) < b.len() ==> !is_digit(b[digit_end(b, i)]),
    decreases b.len() - i,
{
    if i < b.len() && is_digit(b[i]) {
        lemma_digit_end(b, i + 1);
    }
}

proof fn lemma_decimal_grows(b: Seq<u8>, i: int, j: int)
    requires
        0 <= i <= j < b.len(),
        is_digit(b[j]),
        forall|k: int| i <= k < j ==> is_digit(#[trigger] b[k]),
    ensures
        decimal(b, i, j + 1) == decimal(b, i, j) * 10 + (b[j] - 48),
        decimal(b, i, j) >= 0,
        decimal(b, i, j + 1) >= decimal(b, i, j),
    decreases j - i,
{
    if i < j {
        lemma_decimal_grows(b, i, j - 1);
    }
}

/// Reads the digits `b[i..j]` as a number; `None` where it does not fit in 64 bits.
fn read_decimal(b: &[u8], i: usize, j: usize) -> (r: Option<u64>)
    requires
        i <= j <= b@.len(),
        forall|k: int| i <= k < j ==> is_digit(#[trigger] b@[k]),
    ensures
        decimal(b@, i as int, j as int) >= 0,
        r is Some <==> decimal(b@, i as int, j as int) <= u64::MAX,
        r is Some ==> r.unwrap() == decimal(b@, i as int, j as int),
{
    let mut value: u64 = 0;
    let mut fits: bool = true;
    let mut k: usize = i;
    while k < j
        invariant
            i <= k <= j <= b@.len(),
            forall|q: int| i <= q < j ==> is_digit(#[trigger] b@[q]),
            decimal(b@, i as int, k as int) >= 0,
            fits <==> decimal(b@, i as int, k as int) <= u64::MAX,
            fits ==> value == decimal(b@, i as int, k as int),
        decreases j - k,
    {
        proof {
            lemma_decimal_grows(b@, i as int, k as int);
        }
        let d: u64 = (b[k] - 48) as u64;
        if fits {
            if value > (u64::MAX - d) / 10 {
                fits = false;
            } else {
                value = value * 10 + d;
            }
        }
        k = k + 1;
    }
    if fits {
        Some(value)
    } else {
        None
    }
}

/// Reads a length of time such as `90s`, `1m30s` or `1y2d3h4m5s` as a number
/// of seconds: parts of a number and a unit, `s`, `m`, `h`, `d` or `y`.
pub fn parse_time(time: &str) -> (r: Result<u64, TimeParseError>)
    ensures
        match parse_parts(time.spec_bytes(), 0, 0) {
            Ok(total) => r == Ok::<u64, TimeParseError>(total as u64),
            Err(e) => r == Err::<u64, TimeParseError>(e),
        },
{
    let b: &[u8] = time.as_bytes();
    let ghost s = b@;
    let len: usize = b.len();
    let mut total: u64 = 0;
    let mut i: usize = 0;
    while i < len
        invariant
            s == b@,
            s == time.spec_bytes(),
            len == s.len(),
            i <= len,
            parse_parts(s, 0, 0) == parse_parts(s, i as int, total as int),
        decreases len - i,
    {
        let start: usize = i;
        proof {
            lemma_digit_end(s, start as int);
        }
        while i < len && b[i] >= 48 && b[i] <= 57
            invariant
                s == b@,
                len == s.len(),
                start <= i <= len,
                digit_end(s, start as int) == digit_end(s, i as int),
                forall|k: int| start <= k < i ==> is_digit(#[trigger] s[k]),
            decreases len - i,
        {
            i = i + 1;
        }
        proof {
            lemma_digit_end(s, i as int);
        }
        if i >= len {
            if i - start < 2 {
                return Err(TimeParseError::TooShort);
            }
            return match read_decimal(b, start, i - 1) {
                Some(_) => Err(TimeParseError::BadUnit),
                None => Err(TimeParseError::BadNumber),
            };
        }
        if i == start {
            return Err(TimeParseError::TooShort);
        }
        let number: u64 = match read_decimal(b, start, i) {
            Some(n) => n,
            None => {
                return Err(TimeParseError::BadNumber);
            },
        };
        let unit: u8 = b[i];
        let multiplier: u64 = if unit == 115 {
            1
        } else if unit == 109 {
            60
        } else if unit == 104 {
            3600
        } else if unit == 100 {
            86400
        } else if unit == 121 {
            31536000
        } else {
            return Err(TimeParseError::BadUnit);
        };
        if number > (u64::MAX - total) / multiplier {
            proof {
                let m = multiplier as int;
                let t = total as int;
                let q = (u64::MAX as int - t) / m;
                assert(number as int > q);
                assert(t + (number as int) * m > u64::MAX as int) by (nonlinear_arith)
                    requires
                        number as int > q,
                        q == (u64::MAX as int - t) / m,
                        m > 0,
                        t <= u64::MAX as int,
                ;
            }
            return Err(TimeParseError::TooLong);
        }
        proof {
            let m = multiplier as int;
            let t = total as int;
            let q = (u64::MAX as int - t) / m;
            assert(number as int <= q);
            assert(t + (number as int) * m <= u64::MAX as int) by (nonlinear_arith)
                requires
                    number as int <= q,
                    q == (u64::MAX as int - t) / m,
                    m > 0,
                    0 <= t <= u64::MAX as int,
            ;
        }
        total = total + number * multiplier;
        i = i + 1;
    }
    Ok(total)
}

/// Why no span of time could be made from the arguments given.
#[derive(Clone, Copy, PartialEq, Eq, Structural, Debug)]
pub enum TimeRangeError {
    /// Neither a beginning, an end nor a length was given.
    Undefined,
    /// Only a beginning was given.
    NoDuration,
    /// The beginning, end and length given disagree.
    Mismatch,
}

/// One day in milliseconds.
pub const DAY_MILLIS: i64 = 86400000;

/// A span of wall-clock time, in milliseconds.
pub struct TimeRange {
    pub start: i128,
    pub duration: i128,
}

/// The span that a beginning, an end and a length (each perhaps absent) give,
/// with `now` standing in for a missing beginning. An end that is not after
/// the beginning falls on the next day.
pub open spec fn range_of(begin: Option<i64>, end: Option<i64>, length: Option<i64>, now: i64) -> Result<
    (int, int),
    TimeRangeError,
> {
    match (begin, end, length) {
        (None, None, None) => Err(TimeRangeError::Undefined),
        (None, None, Some(l)) => Ok((now as int, l as int)),
        (None, Some(e), None) => Ok((now as int, e - now)),
        (None, Some(e), Some(l)) => Ok((e - l, l as int)),
        (Some(_), None, None) => Err(TimeRangeError::NoDuration),
        (Some(b), None, Some(l)) => Ok((b as int, l as int)),
        (Some(b), Some(e), None) => Ok(
            (b as int, if e > b {
                e - b
            } else {
                e + DAY_MILLIS - b
            }),
        ),
        (Some(b), Some(e), Some(l)) => if e - b == l {
            Ok((b as int, l as int))
        } else {
            Err(TimeRangeError::Mismatch)
        },
    }
}

impl TimeRange {
    /// Makes the span from a beginning, an end and a length, in milliseconds;
    /// `now` stands in for a missing beginning.
    pub fn try_from_args(begin: Option<i64>, end: Option<i64>, length: Option<i64>, now: i64) -> (r:
        Result<TimeRange, TimeRangeError>)
        ensures
            match range_of(begin, end, length, now) {
                Ok((s, d)) => r is Ok && r->Ok_0.start == s && r->Ok_0.duration == d,
                Err(e) => r == Err::<TimeRange, TimeRangeError>(e),
            },
    {
        let now: i128 = now as i128;
        let day: i128 = DAY_MILLIS as i128;
        match (begin, end, length) {
            (None, None, None) => Err(TimeRangeError::Undefined),
            (None, None, Some(length)) => Ok(TimeRange { start: now, duration: length as i128 }),
            (None, Some(end), None) => Ok(TimeRange { start: now, duration: end as i128 - now }),
            (None, Some(end), Some(length)) => Ok(
                TimeRange { start: end as i128 - length as i128, duration: length as i128 },
            ),
            (Some(_), None, None) => Err(TimeRangeError::NoDuration),
            (Some(begin), None, Some(length)) => Ok(
                TimeRange { start: begin as i128, duration: length as i128 },
            ),
            (Some(begin), Some(end), None) => Ok(
                TimeRange {
                    start: begin as i128,
                    duration: if end > begin {
                        end as i128 - begin as i128
                    } else {
                        end as i128 + day - begin as i128
                    },
                },
            ),
            (Some(begin), Some(end), Some(length)) => if end as i128 - begin as i128 == length as i128 {
                Ok(TimeRange { start: begin as i128, duration: length as i128 })
            } else {
                Err(TimeRangeError::Mismatch)
            },
        }
    }
}

/// The seconds from midnight of the time of day that chrono reads from a
/// text in a format, if it reads one.
pub uninterp spec fn time_of_day_in(text: Seq<char>, format: Seq<char>) -> Option<u32>;

/// Relies on `chrono::NaiveTime::parse_from_str`: what it reads depends on
/// the text and the format alone; and on `Timelike::num_seconds_from_midnight`,
/// which maps every time of day into `0..86400`.
#[verifier::external_body]
fn read_time_of_day(text: &str, format: &str) -> (r: Option<u32>)
    ensures
        r == time_of_day_in(text@, format@),
        r is Some ==> r->Some_0 < 86400,
{
    chrono::NaiveTime::parse_from_str(text, format).ok().map(|t| t.num_seconds_from_midnight())
}

/// The moment, in milliseconds, that a time of day read as `%H:%M:%S`, or
/// failing that as `%H:%M`, names on the day that starts at `day_start`.
pub open spec fn moment_on(day_start: i64, with_seconds: Option<u32>, without_seconds: Option<u32>) -> Option<int> {
    match with_seconds {
        Some(t) => Some(day_start + t * 1000),
        None => match without_seconds {
            Some(t) => Some(day_start + t * 1000),
            None => None,
        },
    }
}

/// Places a time of day, read both ways, on the day that starts at `day_start`.
pub fn place_on_day(day_start: i64, with_seconds: Option<u32>, without_seconds: Option<u32>) -> (r: Option<i64>)
    requires
        day_start <= i64::MAX - DAY_MILLIS,
        with_seconds is Some ==> with_seconds->Some_0 < 86400,
        without_seconds is Some ==> without_seconds->Some_0 < 86400,
    ensures
        match moment_on(day_start, with_seconds, without_seconds) {
            Some(m) => r == Some(m as i64),
            None => r is None,
        },
{
    match with_seconds {
        Some(t) => Some(day_start + t as i64 * 1000),
        None => match without_seconds {
            Some(t) => Some(day_start + t as i64 * 1000),
            None => None,
        },
    }
}

/// Reads a time of day such as `14:30:00` or `14:30` and places it on the
/// day that starts at `day_start`, in milliseconds.
pub fn parse_timestamp(timestamp: &str, day_start: i64) -> (r: Option<i64>)
    requires
        day_start <= i64::MAX - DAY_MILLIS,
    ensures
        match moment_on(
            day_start,
            time_of_day_in(timestamp@, "%H:%M:%S"@),
            time_of_day_in(timestamp@, "%H:%M"@),
        ) {
            Some(m) => r == Some(m as i64),
            None => r is None,
        },
{
    let with_seconds = read_time_of_day(timestamp, "%H:%M:%S");
    let without_seconds = read_time_of_day(timestamp, "%H:%M");
    place_on_day(day_start, with_seconds, without_seconds)
}

} // verus!
