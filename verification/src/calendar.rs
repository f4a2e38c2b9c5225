//! Time stamps: the calendar date and time of day of a Unix time in UTC.

use crate::text;
use vstd::prelude::*;
use vstd::string::*;

verus! {

/// The number of seconds in a day.
pub const SECONDS_PER_DAY: u64 = 86_400;

/// The number of days from 1970-01-01 to the end of the last year that an `i32` holds.
pub const LAST_CALENDAR_DAYS: u64 = 784_351_576_777;

/// Whether `year` is a leap year of the Gregorian calendar.
pub open spec fn is_leap_year(year: int) -> bool {
    year % 4 == 0 && (year % 100 != 0 || year % 400 == 0)
}

/// The number of days in a month.
pub open spec fn days_in_month(year: int, month: int) -> int {
    if month == 2 {
        if is_leap_year(year) {
            29
        } else {
            28
        }
    } else if month == 4 || month == 6 || month == 9 || month == 11 {
        30
    } else {
        31
    }
}

/// The number of days from 0001-01-01 to the first day of `year`.
pub open spec fn days_before_year(year: int) -> int {
    365 * (year - 1) + (year - 1) / 4 - (year - 1) / 100 + (year - 1) / 400
}

/// The number of days from the first day of `year` to the first day of `month`.
pub open spec fn days_before_month(year: int, month: int) -> int
    decreases month,
{
    if month <= 1 {
        0
    } else {
        days_before_month(year, month - 1) + days_in_month(year, month - 1)
    }
}

/// The number of days from 1970-01-01 to the given date.
pub open spec fn days_since_epoch(year: int, month: int, day: int) -> int {
    days_before_year(year) + days_before_month(year, month) + day - 1 - days_before_year(1970)
}

/// Whether the numbers are a date of the calendar.
pub open spec fn is_date(year: int, month: int, day: int) -> bool {
    1 <= month <= 12 && 1 <= day <= days_in_month(year, month)
}

/// A year is as long as its months: 366 days in a leap year, 365 days in any other.
pub proof fn year_length(year: int)
    ensures
        days_before_year(year + 1) - days_before_year(year) == days_before_month(year, 13),
        days_before_month(year, 13) == (if is_leap_year(year) {
            366int
        } else {
            365
        }),
{
    assert(days_before_month(year, 13) == 337 + days_in_month(year, 2)) by {
        reveal_with_fuel(days_before_month, 14);
    }
    let before = year - 1;
    assert(year / 4 - before / 4 == (if year % 4 == 0 { 1int } else { 0 }));
    assert(year / 100 - before / 100 == (if year % 100 == 0 { 1int } else { 0 }));
    assert(year / 400 - before / 400 == (if year % 400 == 0 { 1int } else { 0 }));
    assert(year % 100 == 0 ==> year % 4 == 0);
    assert(year % 400 == 0 ==> year % 100 == 0);
}

/// Different dates have different day numbers.
pub proof fn dates_are_distinct(
    year: int,
    month: int,
    day: int,
    other_year: int,
    other_month: int,
    other_day: int,
)
    requires
        is_date(year, month, day),
        is_date(other_year, other_month, other_day),
        days_since_epoch(year, month, day) == days_since_epoch(other_year, other_month, other_day),
    ensures
        year == other_year,
        month == other_month,
        day == other_day,
{
    day_of_year_bound(year, month, day);
    day_of_year_bound(other_year, other_month, other_day);
    if year < other_year {
        years_increase(year + 1, other_year);
    } else if other_year < year {
        years_increase(other_year + 1, year);
    }
    assert(year == other_year);
    reveal_with_fuel(days_before_month, 14);
}

/// The day of a date within its year is less than the length of the year.
proof fn day_of_year_bound(year: int, month: int, day: int)
    requires
        is_date(year, month, day),
    ensures
        0 <= days_before_month(year, month) + day - 1 < days_before_year(year + 1)
            - days_before_year(year),
{
    reveal_with_fuel(days_before_month, 14);
    year_length(year);
}

/// Later years start later.
proof fn years_increase(year: int, later: int)
    requires
        year <= later,
    ensures
        days_before_year(year) <= days_before_year(later),
    decreases later - year,
{
    if year < later {
        years_increase(year, later - 1);
        year_length(later - 1);
    }
}

/// Whether the year, month, day, hour, minute and second are those of a Unix time in UTC.
pub open spec fn is_utc_time(parts: (i32, u32, u32, u32, u32, u32), seconds: u64) -> bool {
    &&& parts.0 >= 1970
    &&& is_date(parts.0 as int, parts.1 as int, parts.2 as int)
    &&& days_since_epoch(parts.0 as int, parts.1 as int, parts.2 as int) == seconds as int
        / SECONDS_PER_DAY as int
    &&& parts.3 < 24
    &&& parts.4 < 60
    &&& parts.5 < 60
    &&& parts.3 * 3_600 + parts.4 * 60 + parts.5 == seconds as int % SECONDS_PER_DAY as int
}

/// A Unix time has one date and time of day.
pub proof fn utc_time_is_unique(
    first: (i32, u32, u32, u32, u32, u32),
    second: (i32, u32, u32, u32, u32, u32),
    seconds: u64,
)
    requires
        is_utc_time(first, seconds),
        is_utc_time(second, seconds),
    ensures
        first == second,
{
    dates_are_distinct(
        first.0 as int,
        first.1 as int,
        first.2 as int,
        second.0 as int,
        second.1 as int,
        second.2 as int,
    );
}

/// A date and time of day comes before another.
pub open spec fn is_earlier(
    first: (i32, u32, u32, u32, u32, u32),
    second: (i32, u32, u32, u32, u32, u32),
) -> bool {
    ||| first.0 < second.0
    ||| first.0 == second.0 && first.1 < second.1
    ||| (first.0, first.1) == (second.0, second.1) && first.2 < second.2
    ||| (first.0, first.1, first.2) == (second.0, second.1, second.2) && first.3 < second.3
    ||| (first.0, first.1, first.2, first.3) == (second.0, second.1, second.2, second.3) && first.4
        < second.4
    ||| (first.0, first.1, first.2, first.3, first.4) == (
        second.0,
        second.1,
        second.2,
        second.3,
        second.4,
    ) && first.5 < second.5
}

/// A lesser Unix time has an earlier date and time of day.
pub proof fn utc_time_increases(
    first: (i32, u32, u32, u32, u32, u32),
    second: (i32, u32, u32, u32, u32, u32),
    seconds: u64,
    later: u64,
)
    requires
        seconds < later,
        is_utc_time(first, seconds),
        is_utc_time(second, later),
    ensures
        is_earlier(first, second),
{
    let day = seconds as int / SECONDS_PER_DAY as int;
    let later_day = later as int / SECONDS_PER_DAY as int;
    if day == later_day {
        utc_date_is_unique(first, second);
    } else {
        assert(day < later_day);
        earlier_day(first, second);
    }
}

/// One day has one date.
proof fn utc_date_is_unique(
    first: (i32, u32, u32, u32, u32, u32),
    second: (i32, u32, u32, u32, u32, u32),
)
    requires
        is_date(first.0 as int, first.1 as int, first.2 as int),
        is_date(second.0 as int, second.1 as int, second.2 as int),
        days_since_epoch(first.0 as int, first.1 as int, first.2 as int) == days_since_epoch(
            second.0 as int,
            second.1 as int,
            second.2 as int,
        ),
    ensures
        (first.0, first.1, first.2) == (second.0, second.1, second.2),
{
    dates_are_distinct(
        first.0 as int,
        first.1 as int,
        first.2 as int,
        second.0 as int,
        second.1 as int,
        second.2 as int,
    );
}

/// An earlier day has an earlier date.
proof fn earlier_day(
    first: (i32, u32, u32, u32, u32, u32),
    second: (i32, u32, u32, u32, u32, u32),
)
    requires
        is_date(first.0 as int, first.1 as int, first.2 as int),
        is_date(second.0 as int, second.1 as int, second.2 as int),
        days_since_epoch(first.0 as int, first.1 as int, first.2 as int) < days_since_epoch(
            second.0 as int,
            second.1 as int,
            second.2 as int,
        ),
    ensures
        is_earlier(first, second),
{
    let year = first.0 as int;
    let later_year = second.0 as int;
    day_of_year_bound(year, first.1 as int, first.2 as int);
    day_of_year_bound(later_year, second.1 as int, second.2 as int);
    if later_year < year {
        years_increase(later_year + 1, year);
    }
    assert(year <= later_year);
    if year == later_year && second.1 < first.1 {
        months_increase(year, second.1 + 1, first.1 as int);
    }
}

/// Later months start later.
proof fn months_increase(year: int, month: int, later: int)
    requires
        1 <= month <= later,
    ensures
        days_before_month(year, month) <= days_before_month(year, later),
    decreases later - month,
{
    if month < later {
        months_increase(year, month, later - 1);
    }
}

/// The UTC date and time of day at `seconds` after 1970-01-01 00:00:00: year, month, day,
/// hour, minute and second.
pub fn utc_timestamp_parts(seconds: u64) -> (parts: (i32, u32, u32, u32, u32, u32))
    requires
        seconds / SECONDS_PER_DAY < LAST_CALENDAR_DAYS,
    ensures
        is_utc_time(parts, seconds),
{
    let days: u64 = seconds / SECONDS_PER_DAY;
    let seconds_of_day: u64 = seconds % SECONDS_PER_DAY;
    let hour: u32 = (seconds_of_day / 3_600) as u32;
    let minute: u32 = ((seconds_of_day % 3_600) / 60) as u32;
    let second: u32 = (seconds_of_day % 60) as u32;

    // Days since 0000-03-01: a leap day is the last day of a year that starts in March.
    let shifted: u64 = days + 719_468;
    let era: u64 = shifted / 146_097;
    let day_of_era: u64 = shifted % 146_097;
    let century: u64 = if day_of_era / 36_524 == 4 {
        3
    } else {
        day_of_era / 36_524
    };
    let day_of_century: u64 = day_of_era - century * 36_524;
    let quad: u64 = day_of_century / 1_461;
    let day_of_quad: u64 = day_of_century % 1_461;
    let year_of_quad: u64 = if day_of_quad / 365 == 4 {
        3
    } else {
        day_of_quad / 365
    };
    let day_of_year: u64 = day_of_quad - year_of_quad * 365;
    let march_year: u64 = era * 400 + century * 100 + quad * 4 + year_of_quad;
    let march_month: u64 = (5 * day_of_year + 2) / 153;
    let day: u64 = day_of_year - (153 * march_month + 2) / 5 + 1;
    let month: u64 = if march_month < 10 {
        march_month + 3
    } else {
        march_month - 9
    };
    let year: u64 = if month <= 2 {
        march_year + 1
    } else {
        march_year
    };
    proof {
        march_date(
            era as int,
            century as int,
            quad as int,
            year_of_quad as int,
            day_of_year as int,
            march_month as int,
        );
        if year > i32::MAX {
            years_increase(0x8000_0000, year as int);
            day_of_year_bound(year as int, month as int, day as int);
            assert(days_before_year(0x8000_0000) - days_before_year(1970) == LAST_CALENDAR_DAYS);
        }
        if year < 1970 {
            years_increase(year + 1, 1970);
            day_of_year_bound(year as int, month as int, day as int);
        }
    }
    (year as i32, month as u32, day as u32, hour, minute, second)
}

/// The date of a day that is counted in years from March.
proof fn march_date(
    era: int,
    century: int,
    quad: int,
    year_of_quad: int,
    day_of_year: int,
    march_month: int,
)
    requires
        0 <= era,
        0 <= century < 4,
        0 <= quad < 25,
        0 <= year_of_quad < 4,
        0 <= day_of_year <= 365,
        day_of_year == 365 ==> year_of_quad == 3 && (quad < 24 || century == 3),
        march_month == (5 * day_of_year + 2) / 153,
    ensures
        ({
            let march_year = era * 400 + century * 100 + quad * 4 + year_of_quad;
            let day = day_of_year - (153 * march_month + 2) / 5 + 1;
            let month = if march_month < 10 {
                march_month + 3
            } else {
                march_month - 9
            };
            let year = if month <= 2 {
                march_year + 1
            } else {
                march_year
            };
            &&& is_date(year, month, day)
            &&& days_since_epoch(year, month, day) == era * 146_097 + century * 36_524 + quad
                * 1_461 + year_of_quad * 365 + day_of_year - 719_468
        }),
{
    let march_year = era * 400 + century * 100 + quad * 4 + year_of_quad;
    // The leap day that may end the year from March belongs to the next calendar year.
    let next = march_year + 1;
    assert(next / 4 == era * 100 + century * 25 + quad + (year_of_quad + 1) / 4);
    assert(next / 100 == era * 4 + century + (quad * 4 + year_of_quad + 1) / 100);
    assert(next / 400 == era + (century * 100 + quad * 4 + year_of_quad + 1) / 400);
    assert(march_year / 4 == era * 100 + century * 25 + quad);
    assert(march_year / 100 == era * 4 + century);
    assert(march_year / 400 == era);
    year_length(march_year);
    assert(days_before_year(next) == 365 * march_year + march_year / 4 - march_year / 100
        + march_year / 400);
    assert(is_leap_year(next) ==> year_of_quad == 3);
    assert(is_leap_year(next) <==> year_of_quad == 3 && (quad < 24 || century == 3)) by {
        if year_of_quad == 3 {
            assert(next % 4 == 0);
            if quad < 24 {
                assert(next % 100 == quad * 4 + 4);
            } else {
                assert(next % 100 == 0);
                assert(next % 400 == (century * 100 + 100) % 400);
            }
        }
    }
    reveal_with_fuel(days_before_month, 14);
    assert(0 <= march_month < 12);
}

/// The digits of a time stamp that a file name holds.
pub open spec fn timestamp_text(parts: (i32, u32, u32, u32, u32, u32)) -> Seq<char> {
    text::padded_decimal(parts.0 as nat, 4) + "-"@ + text::padded_decimal(parts.1 as nat, 2) + "-"@
        + text::padded_decimal(parts.2 as nat, 2) + "-"@ + text::padded_decimal(parts.3 as nat, 2) + "-"@
        + text::padded_decimal(parts.4 as nat, 2) + "-"@ + text::padded_decimal(parts.5 as nat, 2)
}

/// The last second of the year 9999.
pub const LAST_FOUR_DIGIT_SECOND: u64 = 253_402_300_799;

/// The part of a time stamp that follows the year.
spec fn stamp_tail(parts: (i32, u32, u32, u32, u32, u32)) -> Seq<char> {
    "-"@ + (text::padded_decimal(parts.1 as nat, 2) + ("-"@ + (text::padded_decimal(
        parts.2 as nat,
        2,
    ) + ("-"@ + (text::padded_decimal(parts.3 as nat, 2) + ("-"@ + (text::padded_decimal(
        parts.4 as nat,
        2,
    ) + ("-"@ + text::padded_decimal(parts.5 as nat, 2)))))))))
}

/// A number below 100 is written with two digits.
proof fn two_digits(number: nat)
    requires
        number < 100,
    ensures
        text::padded_decimal(number, 2).len() == 2,
{
    reveal_with_fuel(text::decimal, 3);
}

/// A year of four digits is written with them.
proof fn four_digits(number: nat)
    requires
        1000 <= number < 10_000,
    ensures
        text::padded_decimal(number, 4).len() == 4,
{
    reveal_with_fuel(text::decimal, 5);
}

/// Two texts with a field each: where the fields are the same the rest decides.
proof fn field_decides(
    left: nat,
    right: nat,
    width: nat,
    rest: Seq<char>,
    other: Seq<char>,
)
    requires
        text::padded_decimal(left, width).len() == width,
        text::padded_decimal(right, width).len() == width,
        left < right || left == right && text::text_before(rest, other),
    ensures
        text::text_before(
            text::padded_decimal(left, width) + rest,
            text::padded_decimal(right, width) + other,
        ),
{
    if left < right {
        text::lesser_number_comes_before(left, right, width);
        text::less_in_front(
            text::padded_decimal(left, width),
            text::padded_decimal(right, width),
            rest,
            other,
        );
    } else {
        text::same_in_front(text::padded_decimal(left, width), rest, other);
    }
}

/// Three texts that are joined, in either order.
proof fn joined_either_way(first: Seq<char>, second: Seq<char>, third: Seq<char>)
    ensures
        first + second + third == first + (second + third),
{
    assert(first + second + third =~= first + (second + third));
}

/// A stamp is its year and what follows, and always as long.
proof fn stamp_splits(parts: (i32, u32, u32, u32, u32, u32))
    requires
        1000 <= parts.0 < 10_000,
        parts.1 < 100 && parts.2 < 100 && parts.3 < 100 && parts.4 < 100 && parts.5 < 100,
    ensures
        timestamp_text(parts) == text::padded_decimal(parts.0 as nat, 4) + stamp_tail(parts),
        timestamp_text(parts).len() == 14 + 5 * "-"@.len(),
{
    four_digits(parts.0 as nat);
    two_digits(parts.1 as nat);
    two_digits(parts.2 as nat);
    two_digits(parts.3 as nat);
    two_digits(parts.4 as nat);
    two_digits(parts.5 as nat);
    let dash = "-"@;
    let month = text::padded_decimal(parts.1 as nat, 2);
    let day = text::padded_decimal(parts.2 as nat, 2);
    let hour = text::padded_decimal(parts.3 as nat, 2);
    let minute = text::padded_decimal(parts.4 as nat, 2);
    let second = text::padded_decimal(parts.5 as nat, 2);
    let to_year = text::padded_decimal(parts.0 as nat, 4);
    let to_month = to_year + dash + month;
    let to_day = to_month + dash + day;
    let to_hour = to_day + dash + hour;
    let to_minute = to_hour + dash + minute;
    let from_second = dash + second;
    let from_minute = dash + (minute + from_second);
    let from_hour = dash + (hour + from_minute);
    let from_day = dash + (day + from_hour);
    joined_either_way(to_minute, dash, second);
    joined_either_way(to_hour + dash, minute, from_second);
    joined_either_way(to_hour, dash, minute + from_second);
    joined_either_way(to_day + dash, hour, from_minute);
    joined_either_way(to_day, dash, hour + from_minute);
    joined_either_way(to_month + dash, day, from_hour);
    joined_either_way(to_month, dash, day + from_hour);
    joined_either_way(to_year + dash, month, from_day);
    joined_either_way(to_year, dash, month + from_day);
}

/// Up to the end of the year 9999 the fields of a time have four and two digits.
proof fn fields_are_short(parts: (i32, u32, u32, u32, u32, u32), seconds: u64)
    requires
        is_utc_time(parts, seconds),
        seconds <= LAST_FOUR_DIGIT_SECOND,
    ensures
        1000 <= parts.0 < 10_000,
        parts.1 < 100 && parts.2 < 100 && parts.3 < 100 && parts.4 < 100 && parts.5 < 100,
{
    let year = parts.0 as int;
    day_of_year_bound(year, parts.1 as int, parts.2 as int);
    if year >= 10_000 {
        years_increase(10_000, year);
        assert(days_before_year(10_000) - days_before_year(1970) == 2_932_897);
        assert(seconds as int / SECONDS_PER_DAY as int <= 2_932_896);
    }
}

/// The stamp of an earlier time comes before that of a later one, up to the end of the year
/// 9999.
pub proof fn earlier_stamp_comes_before(
    first: (i32, u32, u32, u32, u32, u32),
    second: (i32, u32, u32, u32, u32, u32),
    seconds: u64,
    later: u64,
)
    requires
        seconds < later <= LAST_FOUR_DIGIT_SECOND,
        is_utc_time(first, seconds),
        is_utc_time(second, later),
    ensures
        timestamp_text(first).len() == timestamp_text(second).len(),
        text::text_before(timestamp_text(first), timestamp_text(second)),
{
    utc_time_increases(first, second, seconds, later);
    fields_are_short(first, seconds);
    fields_are_short(second, later);
    stamp_splits(first);
    stamp_splits(second);
    stamps_decide(first, second);
}

/// The stamp of an earlier time comes before that of a later one.
proof fn stamps_decide(
    first: (i32, u32, u32, u32, u32, u32),
    second: (i32, u32, u32, u32, u32, u32),
)
    requires
        is_earlier(first, second),
        1000 <= first.0 < 10_000,
        1000 <= second.0 < 10_000,
        first.1 < 100 && first.2 < 100 && first.3 < 100 && first.4 < 100 && first.5 < 100,
        second.1 < 100 && second.2 < 100 && second.3 < 100 && second.4 < 100 && second.5 < 100,
    ensures
        text::text_before(
            text::padded_decimal(first.0 as nat, 4) + stamp_tail(first),
            text::padded_decimal(second.0 as nat, 4) + stamp_tail(second),
        ),
{
    let dash = "-"@;
    four_digits(first.0 as nat);
    four_digits(second.0 as nat);
    two_digits(first.1 as nat);
    two_digits(second.1 as nat);
    two_digits(first.2 as nat);
    two_digits(second.2 as nat);
    two_digits(first.3 as nat);
    two_digits(second.3 as nat);
    two_digits(first.4 as nat);
    two_digits(second.4 as nat);
    two_digits(first.5 as nat);
    two_digits(second.5 as nat);
    let second_field = text::padded_decimal(first.5 as nat, 2);
    let other_second = text::padded_decimal(second.5 as nat, 2);
    let minute = text::padded_decimal(first.4 as nat, 2) + (dash + second_field);
    let other_minute = text::padded_decimal(second.4 as nat, 2) + (dash + other_second);
    let hour = text::padded_decimal(first.3 as nat, 2) + (dash + minute);
    let other_hour = text::padded_decimal(second.3 as nat, 2) + (dash + other_minute);
    let day = text::padded_decimal(first.2 as nat, 2) + (dash + hour);
    let other_day = text::padded_decimal(second.2 as nat, 2) + (dash + other_hour);
    let month = text::padded_decimal(first.1 as nat, 2) + (dash + day);
    let other_month = text::padded_decimal(second.1 as nat, 2) + (dash + other_day);
    assert(stamp_tail(first) == dash + month);
    assert(stamp_tail(second) == dash + other_month);
    if first.0 == second.0 {
        if first.1 == second.1 {
            if first.2 == second.2 {
                if first.3 == second.3 {
                    if first.4 == second.4 {
                        text::lesser_number_comes_before(first.5 as nat, second.5 as nat, 2);
                        text::same_in_front(dash, second_field, other_second);
                    }
                    field_decides(
                        first.4 as nat,
                        second.4 as nat,
                        2,
                        dash + second_field,
                        dash + other_second,
                    );
                    text::same_in_front(dash, minute, other_minute);
                }
                field_decides(first.3 as nat, second.3 as nat, 2, dash + minute, dash + other_minute);
                text::same_in_front(dash, hour, other_hour);
            }
            field_decides(first.2 as nat, second.2 as nat, 2, dash + hour, dash + other_hour);
            text::same_in_front(dash, day, other_day);
        }
        field_decides(first.1 as nat, second.1 as nat, 2, dash + day, dash + other_day);
        text::same_in_front(dash, month, other_month);
    }
    field_decides(first.0 as nat, second.0 as nat, 4, dash + month, dash + other_month);
}

/// Writes a time stamp as `year-month-day-hour-minute-second`.
pub fn format_timestamp(parts: (i32, u32, u32, u32, u32, u32)) -> (stamp: String)
    requires
        0 <= parts.0,
    ensures
        stamp@ == timestamp_text(parts),
{
    let mut stamp = text::padded_decimal_text(parts.0 as u64, 4);
    stamp.append("-");
    stamp.append(text::padded_decimal_text(parts.1 as u64, 2).as_str());
    stamp.append("-");
    stamp.append(text::padded_decimal_text(parts.2 as u64, 2).as_str());
    stamp.append("-");
    stamp.append(text::padded_decimal_text(parts.3 as u64, 2).as_str());
    stamp.append("-");
    stamp.append(text::padded_decimal_text(parts.4 as u64, 2).as_str());
    stamp.append("-");
    stamp.append(text::padded_decimal_text(parts.5 as u64, 2).as_str());
    stamp
}

} // verus!
