//! Points in time, written as a date and a time of day.

use crate::text::chars_of;
use vstd::prelude::*;

verus! {

/// Whether a character is a decimal digit.
pub open spec fn is_digit(c: char) -> bool {
    '0' <= c <= '9'
}

/// The number that the `n` digits from position `i` on make.
pub open spec fn number_at(s: Seq<char>, i: int, n: nat) -> Option<int>
    decreases n,
{
    if n == 0 {
        Some(0)
    } else {
        match number_at(s, i, (n - 1) as nat) {
            Some(v) => if i + n <= s.len() && is_digit(s[i + n - 1]) {
                Some(10 * v + (s[i + n - 1] as int - 48))
            } else {
                None
            },
            None => None,
        }
    }
}

/// Where the digits from position `i` on end.
pub open spec fn digits_end(s: Seq<char>, i: int) -> int
    decreases s.len() - i,
{
    if 0 <= i < s.len() && is_digit(s[i]) {
        digits_end(s, i + 1)
    } else {
        i
    }
}

/// The digit at a position before `end`, zero from there on.
pub open spec fn digit_before(s: Seq<char>, i: int, end: int) -> int {
    if i < end {
        s[i] as int - 48
    } else {
        0
    }
}

/// The minutes that the zone from position `i` on is ahead of UTC: none where there
/// is nothing left, or the mark of UTC, else those of a sign, hours, a colon and
/// minutes.
pub open spec fn zone_minutes(s: Seq<char>, i: int) -> Option<int> {
    if i == s.len() || (i + 1 == s.len() && s[i] == 'Z') {
        Some(0)
    } else if i + 6 == s.len() && (s[i] == '+' || s[i] == '-') && s[i + 3] == ':' {
        match (number_at(s, i + 1, 2), number_at(s, i + 4, 2)) {
            (Some(h), Some(m)) => if h <= 23 && m <= 59 {
                Some(
                    if s[i] == '+' {
                        60 * h + m
                    } else {
                        -(60 * h + m)
                    },
                )
            } else {
                None
            },
            _ => None,
        }
    } else {
        None
    }
}

/// The milliseconds in a fraction of a second that may stand from position `i`
/// on, and the minutes of the zone behind it.
pub open spec fn fraction_at(s: Seq<char>, i: int) -> Option<(int, int)> {
    if zone_minutes(s, i) is Some {
        Some((0, zone_minutes(s, i)->0))
    } else if i < s.len() && s[i] == '.' {
        let end = digits_end(s, i + 1);
        if end > i + 1 && zone_minutes(s, end) is Some {
            Some(
                (
                    100 * digit_before(s, i + 1, end) + 10 * digit_before(s, i + 2, end)
                        + digit_before(s, i + 3, end),
                    zone_minutes(s, end)->0,
                ),
            )
        } else {
            None
        }
    } else {
        None
    }
}

/// Whether a year has a leap day.
pub open spec fn is_leap(year: int) -> bool {
    year % 4 == 0 && (year % 100 != 0 || year % 400 == 0)
}

/// The days of a month.
pub open spec fn days_in_month(year: int, month: int) -> int {
    if month == 2 {
        if is_leap(year) {
            29
        } else {
            28
        }
    } else if month == 4 || month == 6 || month == 9 || month == 11 {
        30
    } else {
        31
    }
}

/// The days of a year before a month.
pub open spec fn days_before_month(year: int, month: int) -> int
    decreases month,
{
    if month <= 1 {
        0
    } else {
        days_before_month(year, month - 1) + days_in_month(year, month - 1)
    }
}

/// The days from the beginning of the year one to that of a year.
pub open spec fn days_before_year(year: int) -> int {
    365 * (year - 1) + (year - 1) / 4 - (year - 1) / 100 + (year - 1) / 400
}

/// The days from the first of January 1970 to a date.
pub open spec fn days_since_epoch(year: int, month: int, day: int) -> int {
    days_before_year(year) + days_before_month(year, month) + (day - 1) - 719162
}

/// Whether the marks between the numbers of a date and a time of day stand
/// where they should.
pub open spec fn has_marks(s: Seq<char>) -> bool {
    &&& s.len() >= 19
    &&& s[4] == '-'
    &&& s[7] == '-'
    &&& (s[10] == 'T' || s[10] == ' ')
    &&& s[13] == ':'
    &&& s[16] == ':'
}

/// The milliseconds from 1970 to a time, zero where the text is none: a date and
/// a time of day, a letter or a blank between them, then a fraction of the
/// second and the zone, each of which may be missing.
pub open spec fn utc_ms(s: Seq<char>) -> int {
    match (
        number_at(s, 0, 4),
        number_at(s, 5, 2),
        number_at(s, 8, 2),
        number_at(s, 11, 2),
        number_at(s, 14, 2),
        number_at(s, 17, 2),
        fraction_at(s, 19),
    ) {
        (Some(y), Some(mo), Some(d), Some(h), Some(mi), Some(sec), Some(rest)) => if has_marks(s) && y
            >= 1 && 1 <= mo <= 12 && 1 <= d <= days_in_month(y, mo) && h <= 23 && mi <= 59 && sec
            <= 59 {
            ((days_since_epoch(y, mo, d) * 24 + h) * 60 + mi - rest.1) * 60000 + sec * 1000 + rest.0
        } else {
            0
        },
        _ => 0,
    }
}

fn read_two(s: &[char], i: usize) -> (r: Option<i64>)
    requires
        i + 2 <= s@.len(),
    ensures
        match r {
            Some(v) => number_at(s@, i as int, 2) == Some(v as int) && 0 <= v <= 99,
            None => number_at(s@, i as int, 2) is None,
        },
{
    reveal_with_fuel(number_at, 3);
    let a = s[i];
    let b = s[i + 1];
    if '0' <= a && a <= '9' && '0' <= b && b <= '9' {
        Some((a as i64 - 48) * 10 + (b as i64 - 48))
    } else {
        None
    }
}

fn read_four(s: &[char]) -> (r: Option<i64>)
    requires
        4 <= s@.len(),
    ensures
        match r {
            Some(v) => number_at(s@, 0, 4) == Some(v as int) && 0 <= v <= 9999,
            None => number_at(s@, 0, 4) is None,
        },
{
    reveal_with_fuel(number_at, 5);
    match (read_two(s, 0), read_two(s, 2)) {
        (Some(a), Some(b)) => Some(a * 100 + b),
        _ => None,
    }
}

fn read_zone(s: &[char], i: usize) -> (r: Option<i64>)
    requires
        i <= s@.len(),
    ensures
        match r {
            Some(v) => zone_minutes(s@, i as int) == Some(v as int) && -1440 < v < 1440,
            None => zone_minutes(s@, i as int) is None,
        },
{
    let left: usize = s.len() - i;
    if left == 0 || (left == 1 && s[i] == 'Z') {
        return Some(0);
    }
    if left != 6 || (s[i] != '+' && s[i] != '-') || s[i + 3] != ':' {
        return None;
    }
    match (read_two(s, i + 1), read_two(s, i + 4)) {
        (Some(h), Some(m)) => if h <= 23 && m <= 59 {
            if s[i] == '+' {
                Some(60 * h + m)
            } else {
                Some(-(60 * h + m))
            }
        } else {
            None
        },
        _ => None,
    }
}

fn read_fraction(s: &[char], i: usize) -> (r: Option<(i64, i64)>)
    requires
        i <= s@.len(),
    ensures
        match r {
            Some(v) => {
                &&& fraction_at(s@, i as int) == Some((v.0 as int, v.1 as int))
                &&& 0 <= v.0 <= 999
                &&& -1440 < v.1 < 1440
            },
            None => fraction_at(s@, i as int) is None,
        },
{
    match read_zone(s, i) {
        Some(minutes) => {
            return Some((0, minutes));
        },
        None => {},
    }
    if s[i] != '.' {
        return None;
    }
    let len: usize = s.len();
    let start: usize = i + 1;
    let mut end: usize = start;
    while end < len && '0' <= s[end] && s[end] <= '9'
        invariant
            len == s@.len(),
            start <= end <= len,
            forall|j: int| start <= j < end ==> is_digit(s@[j]),
            digits_end(s@, start as int) == digits_end(s@, end as int),
        decreases len - end,
    {
        end = end + 1;
    }
    if end == start {
        return None;
    }
    let minutes: i64 = match read_zone(s, end) {
        Some(minutes) => minutes,
        None => {
            return None;
        },
    };
    let a: i64 = s[start] as i64 - 48;
    let b: i64 = if end - start > 1 {
        s[start + 1] as i64 - 48
    } else {
        0
    };
    let c: i64 = if end - start > 2 {
        s[start + 2] as i64 - 48
    } else {
        0
    };
    Some((a * 100 + b * 10 + c, minutes))
}

fn month_days(year: i64, month: i64) -> (r: i64)
    requires
        1 <= year <= 9999,
    ensures
        r == days_in_month(year as int, month as int),
        28 <= r <= 31,
{
    if month == 2 {
        if year % 4 == 0 && (year % 100 != 0 || year % 400 == 0) {
            29
        } else {
            28
        }
    } else if month == 4 || month == 6 || month == 9 || month == 11 {
        30
    } else {
        31
    }
}

fn month_start(year: i64, month: i64) -> (r: i64)
    requires
        1 <= year <= 9999,
        1 <= month <= 12,
    ensures
        r == days_before_month(year as int, month as int),
        0 <= r <= 31 * (month - 1),
    decreases month,
{
    if month <= 1 {
        0
    } else {
        month_start(year, month - 1) + month_days(year, month - 1)
    }
}

/// The milliseconds from 1970 to a time, zero where the text is none.
pub fn timestamp_ms(text: &str) -> (r: i64)
    ensures
        r == utc_ms(text@),
{
    let chars = chars_of(text);
    let s = chars.as_slice();
    if s.len() < 19 || s[4] != '-' || s[7] != '-' || (s[10] != 'T' && s[10] != ' ') || s[13] != ':'
        || s[16] != ':' {
        return 0;
    }
    match (
        read_four(s),
        read_two(s, 5),
        read_two(s, 8),
        read_two(s, 11),
        read_two(s, 14),
        read_two(s, 17),
        read_fraction(s, 19),
    ) {
        (Some(y), Some(mo), Some(d), Some(h), Some(mi), Some(sec), Some(rest)) => {
            if y >= 1 && 1 <= mo && mo <= 12 && 1 <= d && d <= month_days(y, mo) && h <= 23 && mi
                <= 59 && sec <= 59 {
                let years: i64 = 365 * (y - 1) + (y - 1) / 4 - (y - 1) / 100 + (y - 1) / 400;
                let days: i64 = years + month_start(y, mo) + (d - 1) - 719162;
                ((days * 24 + h) * 60 + mi - rest.1) * 60000 + sec * 1000 + rest.0
            } else {
                0
            }
        },
        _ => 0,
    }
}

} // verus!
