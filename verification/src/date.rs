//! Dates, from seconds of local time since the start of 1970, and timestamps.

use vstd::prelude::*;
use vstd::string::{StrSliceExecFns, StringExecFns};

use crate::text;
use crate::text::{decimal_text, join2, padded_decimal_text};

verus! {

/// Gregorian leap years.
pub open spec fn is_leap(y: int) -> bool {
    y % 4 == 0 && (y % 100 != 0 || y % 400 == 0)
}

/// Days in a year.
pub open spec fn days_in_year(y: int) -> int {
    if is_leap(y) {
        366
    } else {
        365
    }
}

/// Days in a month.
pub open spec fn days_in_month(y: int, m: int) -> int {
    if m == 2 {
        if is_leap(y) {
            29
        } else {
            28
        }
    } else if m == 4 || m == 6 || m == 9 || m == 11 {
        30
    } else {
        31
    }
}

/// Days of the year before a month.
pub open spec fn days_before_month(y: int, m: int) -> int
    decreases m,
{
    if m <= 1 {
        0
    } else {
        days_before_month(y, m - 1) + days_in_month(y, m - 1)
    }
}

/// Days from the start of 1970 to the start of a later year.
pub open spec fn days_before_year(y: int) -> int
    decreases y,
{
    if y <= 1970 {
        0
    } else {
        days_before_year(y - 1) + days_in_year(y - 1)
    }
}

/// A date from 1970 on.
pub open spec fn is_date(y: int, m: int, d: int) -> bool {
    1970 <= y && 1 <= m <= 12 && 1 <= d <= days_in_month(y, m)
}

/// Days from the start of 1970 to a date.
pub open spec fn day_number(y: int, m: int, d: int) -> int {
    days_before_year(y) + days_before_month(y, m) + d - 1
}

/// Leap years up to `y`, counted from year 1.
spec fn leaps(y: int) -> int {
    y / 4 - y / 100 + y / 400
}

proof fn lemma_leaps_step(y: int)
    requires
        1 <= y,
    ensures
        leaps(y) == leaps(y - 1) + if is_leap(y) {
            1int
        } else {
            0
        },
{
}

proof fn lemma_days_before_year(y: int)
    requires
        1970 <= y,
    ensures
        days_before_year(y) == 365 * (y - 1970) + leaps(y - 1) - 477,
    decreases y,
{
    if y > 1970 {
        lemma_days_before_year(y - 1);
        lemma_leaps_step(y - 1);
    }
}

proof fn lemma_months(y: int)
    ensures
        days_before_month(y, 1) == 0,
        days_before_month(y, 2) == 31,
        days_before_month(y, 3) == days_in_year(y) - 306,
        days_before_month(y, 4) == days_in_year(y) - 275,
        days_before_month(y, 5) == days_in_year(y) - 245,
        days_before_month(y, 6) == days_in_year(y) - 214,
        days_before_month(y, 7) == days_in_year(y) - 184,
        days_before_month(y, 8) == days_in_year(y) - 153,
        days_before_month(y, 9) == days_in_year(y) - 122,
        days_before_month(y, 10) == days_in_year(y) - 92,
        days_before_month(y, 11) == days_in_year(y) - 61,
        days_before_month(y, 12) == days_in_year(y) - 31,
        days_before_month(y, 13) == days_in_year(y),
{
    reveal_with_fuel(days_before_month, 14);
}

/// Day `doe` of a 400-year era that starts on the first of March falls into its
/// year `yoe`.
#[verifier::rlimit(40)]
proof fn lemma_year_of_era(doe: int, yoe: int)
    requires
        0 <= doe < 146097,
        yoe == (doe - doe / 1460 + doe / 36524 - doe / 146096) / 365,
    ensures
        0 <= yoe <= 399,
        0 <= doe - (365 * yoe + yoe / 4 - yoe / 100) <= 365,
        doe - (365 * yoe + yoe / 4 - yoe / 100) == 365 ==> (yoe + 1) % 4 == 0 && ((yoe + 1) % 100
            != 0 || yoe == 399),
{
}

/// The first of March of year `400 * era + yoe`, as a day number.
proof fn lemma_march_first(era: int, yoe: int)
    requires
        0 <= era,
        0 <= yoe <= 399,
        1970 <= 400 * era + yoe,
    ensures
        day_number(400 * era + yoe, 3, 1) == 146097 * era + 365 * yoe + yoe / 4 - yoe / 100 - 719468,
{
    let y = 400 * era + yoe;
    lemma_days_before_year(y);
    lemma_leaps_step(y);
    lemma_months(y);
    assert(y / 4 == 100 * era + yoe / 4);
    assert(y / 100 == 4 * era + yoe / 100);
    assert(y / 400 == era);
}

/// The month and day of day `doy` of a year that starts on the first of March.
proof fn lemma_month_of_year(doy: int, mp: int)
    requires
        0 <= doy <= 365,
        mp == (5 * doy + 2) / 153,
    ensures
        0 <= mp <= 11,
        mp == 0 ==> 0 <= doy < 31,
        mp == 1 ==> 31 <= doy < 61,
        mp == 2 ==> 61 <= doy < 92,
        mp == 3 ==> 92 <= doy < 122,
        mp == 4 ==> 122 <= doy < 153,
        mp == 5 ==> 153 <= doy < 184,
        mp == 6 ==> 184 <= doy < 214,
        mp == 7 ==> 214 <= doy < 245,
        mp == 8 ==> 245 <= doy < 275,
        mp == 9 ==> 275 <= doy < 306,
        mp == 10 ==> 306 <= doy < 337,
        mp == 11 ==> 337 <= doy <= 365,
{
}

/// The date of a day in the 400-year scheme is right.
proof fn lemma_civil(days: int, era: int, yoe: int, doy: int, mp: int, y: int, m: int, d: int)
    requires
        0 <= days,
        0 <= era,
        0 <= yoe <= 399,
        days + 719468 == 146097 * era + 365 * yoe + yoe / 4 - yoe / 100 + doy,
        0 <= doy <= 365,
        doy == 365 ==> (yoe + 1) % 4 == 0 && ((yoe + 1) % 100 != 0 || yoe == 399),
        mp == (5 * doy + 2) / 153,
        m == if mp < 10 {
            mp + 3
        } else {
            mp - 9
        },
        d == doy - (153 * mp + 2) / 5 + 1,
        y == 400 * era + yoe + if m <= 2 {
            1int
        } else {
            0
        },
    ensures
        is_date(y, m, d),
        day_number(y, m, d) == days,
{
    let y0 = 400 * era + yoe;
    lemma_month_of_year(doy, mp);
    lemma_months(y0);
    lemma_months(y0 + 1);
    assert(y0 >= 1969) by {
        assert(365 * yoe + yoe / 4 - yoe / 100 + doy <= 366 * yoe + 365);
    }
    assert(y0 >= 1970 || m <= 2) by {
        if y0 == 1969 {
            assert(era == 4 && yoe == 369);
        }
    }
    assert((yoe + 1) % 4 == 0 && ((yoe + 1) % 100 != 0 || yoe == 399) ==> is_leap(y0 + 1));
    if m <= 2 {
        lemma_days_before_year(y0 + 1);
        assert(y0 / 4 == 100 * era + yoe / 4);
        assert(y0 / 100 == 4 * era + yoe / 100);
        assert(y0 / 400 == era);
    } else {
        lemma_march_first(era, yoe);
    }
}

/// The date that is `days` days after the first of January 1970.
pub fn civil_date(days: u64) -> (date: (u64, u64, u64))
    requires
        days <= u64::MAX / 86_400,
    ensures
        is_date(date.0 as int, date.1 as int, date.2 as int),
        day_number(date.0 as int, date.1 as int, date.2 as int) == days,
{
    let z: u64 = days + 719_468;
    let era: u64 = z / 146_097;
    let doe: u64 = z % 146_097;
    let yoe: u64 = (doe - doe / 1460 + doe / 36_524 - doe / 146_096) / 365;
    proof {
        lemma_year_of_era(doe as int, yoe as int);
    }
    let doy: u64 = doe - (365 * yoe + yoe / 4 - yoe / 100);
    let mp: u64 = (5 * doy + 2) / 153;
    proof {
        lemma_month_of_year(doy as int, mp as int);
    }
    let d: u64 = doy - (153 * mp + 2) / 5 + 1;
    let m: u64 = if mp < 10 {
        mp + 3
    } else {
        mp - 9
    };
    let y: u64 = if m <= 2 {
        yoe + era * 400 + 1
    } else {
        yoe + era * 400
    };
    proof {
        lemma_civil(
            days as int,
            era as int,
            yoe as int,
            doy as int,
            mp as int,
            y as int,
            m as int,
            d as int,
        );
    }
    (y, m, d)
}

/// No two dates have the same day number: a day number names one date.
pub proof fn law_day_number_names_one_date(y1: int, m1: int, d1: int, y2: int, m2: int, d2: int)
    requires
        is_date(y1, m1, d1),
        is_date(y2, m2, d2),
        day_number(y1, m1, d1) == day_number(y2, m2, d2),
    ensures
        y1 == y2,
        m1 == m2,
        d1 == d2,
{
    lemma_day_in_year(y1, m1, d1);
    lemma_day_in_year(y2, m2, d2);
    if y1 < y2 {
        lemma_years_grow(y1 + 1, y2);
    }
    if y2 < y1 {
        lemma_years_grow(y2 + 1, y1);
    }
    lemma_months(y1);
}

proof fn lemma_day_in_year(y: int, m: int, d: int)
    requires
        is_date(y, m, d),
    ensures
        0 <= days_before_month(y, m) + d - 1 < days_in_year(y),
{
    lemma_months(y);
}

proof fn lemma_years_grow(a: int, b: int)
    requires
        1970 <= a <= b,
    ensures
        days_before_year(a) <= days_before_year(b),
    decreases b - a,
{
    if a < b {
        lemma_years_grow(a, b - 1);
    }
}

/// The text of a date: year (at least four digits), month and day (two digits).
pub open spec fn date_text(y: nat, m: nat, d: nat) -> Seq<char> {
    text::padded_decimal(y, 4) + text::padded_decimal(m, 2) + text::padded_decimal(d, 2)
}

/// `s` is the text of the date of that day.
pub open spec fn is_date_text(s: Seq<char>, days: int) -> bool {
    exists|y: nat, m: nat, d: nat|
        {
            &&& is_date(y as int, m as int, d as int)
            &&& day_number(y as int, m as int, d as int) == days
            &&& s == #[trigger] date_text(y, m, d)
        }
}

/// The text of a date consists of digits: eight of them up to the year 9999.
pub proof fn law_date_text_is_digits(s: Seq<char>, y: nat, m: nat, d: nat)
    requires
        is_date(y as int, m as int, d as int),
        s == date_text(y, m, d),
    ensures
        text::is_digits(s),
        y <= 9999 ==> s.len() == 8,
{
    text::lemma_padded_decimal(y, 4);
    text::lemma_padded_decimal(m, 2);
    text::lemma_padded_decimal(d, 2);
}

/// The date `secs` seconds of local time after the start of 1970, as "YYYYMMDD".
pub fn current_date_yyyymmdd(secs: u64) -> (s: String)
    ensures
        is_date_text(s@, secs as int / 86_400),
{
    let (y, m, d) = civil_date(secs / 86_400);
    let mut s = padded_decimal_text(y, 4);
    s.append(padded_decimal_text(m, 2).as_str());
    s.append(padded_decimal_text(d, 2).as_str());
    assert(s@ == date_text(y as nat, m as nat, d as nat));
    s
}

/// `zone` is an offset from UTC: a sign, and hours and minutes of two digits each.
pub open spec fn is_zone(zone: Seq<char>) -> bool {
    &&& zone.len() == 5
    &&& zone[0] == '+' || zone[0] == '-'
    &&& text::is_digits(zone.skip(1))
}

/// The seconds of an offset from UTC.
pub open spec fn zone_secs(zone: Seq<char>) -> int {
    let secs = 3600 * text::digits_value(zone.subrange(1, 3)) + 60 * text::digits_value(
        zone.subrange(3, 5),
    );
    if zone[0] == '-' {
        -secs
    } else {
        secs
    }
}

/// The value of a decimal digit.
fn digit_value(c: char) -> (d: Option<i64>)
    ensures
        match d {
            Some(v) => '0' <= c <= '9' && v == c as int - 48,
            None => !('0' <= c <= '9'),
        },
{
    if '0' <= c && c <= '9' {
        Some(c as u32 as i64 - 48)
    } else {
        None
    }
}

proof fn lemma_two_digits(s: Seq<char>)
    requires
        s.len() == 2,
    ensures
        text::digits_value(s) == 10 * (s[0] as int - 48) + (s[1] as int - 48),
{
    assert(s.drop_last().drop_last() =~= Seq::empty());
    assert(text::digits_value(s.drop_last().drop_last()) == 0);
    assert(text::digits_value(s.drop_last()) == s[0] as int - 48);
}

/// Read an offset from UTC, such as "+0200".
pub fn utc_offset(zone: &str) -> (secs: Option<i64>)
    ensures
        match secs {
            Some(n) => is_zone(zone@) && n == zone_secs(zone@),
            None => !is_zone(zone@),
        },
{
    if zone.unicode_len() != 5 {
        return None;
    }
    let sign: char = zone.get_char(0);
    if sign != '+' && sign != '-' {
        return None;
    }
    proof {
        assert forall|i: int| 1 <= i < 5 implies zone@.skip(1)[i - 1] == #[trigger] zone@[i] by {}
        lemma_two_digits(zone@.subrange(1, 3));
        lemma_two_digits(zone@.subrange(3, 5));
    }
    match (
        digit_value(zone.get_char(1)),
        digit_value(zone.get_char(2)),
        digit_value(zone.get_char(3)),
        digit_value(zone.get_char(4)),
    ) {
        (Some(a), Some(b), Some(c), Some(d)) => {
            let secs: i64 = 3600 * (10 * a + b) + 60 * (10 * c + d);
            assert(is_zone(zone@)) by {
                assert forall|i: int| 0 <= i < 4 implies '0' <= #[trigger] zone@.skip(1)[i]
                    <= '9' by {
                    assert(zone@.skip(1)[i] == zone@[i + 1]);
                }
            }
            if sign == '-' {
                Some(-secs)
            } else {
                Some(secs)
            }
        },
        _ => {
            assert(!is_zone(zone@)) by {
                assert(zone@.skip(1)[0] == zone@[1] && zone@.skip(1)[1] == zone@[2]);
                assert(zone@.skip(1)[2] == zone@[3] && zone@.skip(1)[3] == zone@[4]);
            }
            None
        },
    }
}

/// Seconds of local time for seconds of UTC and the offset between them, within the
/// range of the type.
pub fn local_secs(utc: u64, offset: i64) -> (secs: u64)
    ensures
        secs == if utc + offset < 0 {
            0
        } else if utc + offset > u64::MAX {
            u64::MAX as int
        } else {
            utc + offset
        },
{
    let sum: i128 = utc as i128 + offset as i128;
    if sum < 0 {
        0
    } else if sum > u64::MAX as i128 {
        u64::MAX
    } else {
        sum as u64
    }
}

/// A timestamp for the page manifest, from seconds of UTC since the start of 1970.
pub fn now_iso(secs: u64) -> (s: String)
    ensures
        s@ == "unix:"@ + text::decimal(secs as nat),
{
    join2("unix:", decimal_text(secs).as_str())
}

/// The calendar, without reference to leap years as such: four years have 1461 days but
/// for the century years that 400 does not divide, 400 years have 146097, and the first
/// day of 1970 has the number 0.
pub proof fn law_calendar_cycle(y: int, m: int, d: int)
    requires
        is_date(y, m, d),
    ensures
        day_number(1970, 1, 1) == 0,
        is_date(y + 400, m, d),
        day_number(y + 400, m, d) == day_number(y, m, d) + 146_097,
        (y + 3) / 100 == (y - 1) / 100 ==> day_number(y + 4, 1, 1) == day_number(y, 1, 1) + 1461,
        y % 400 == 0 ==> day_number(y + 1, 1, 1) == day_number(y, 1, 1) + 366,
        y % 100 == 0 && y % 400 != 0 ==> day_number(y + 1, 1, 1) == day_number(y, 1, 1) + 365,
        y % 4 == 0 && y % 100 != 0 ==> day_number(y + 1, 1, 1) == day_number(y, 1, 1) + 366,
        y % 4 != 0 ==> day_number(y + 1, 1, 1) == day_number(y, 1, 1) + 365,
{
    lemma_months(y);
    lemma_months(y + 400);
    lemma_same_months(y, m);
    lemma_four_hundred_years(y);
    lemma_four_years(y);
    lemma_days_before_year(y);
}

proof fn lemma_four_hundred_years(y: int)
    requires
        1970 <= y,
    ensures
        days_before_year(y + 400) == days_before_year(y) + 146_097,
{
    lemma_days_before_year(y);
    lemma_days_before_year(y + 400);
    let z = y - 1;
    assert((z + 400) / 4 == z / 4 + 100);
    assert((z + 400) / 100 == z / 100 + 4);
    assert((z + 400) / 400 == z / 400 + 1);
}

proof fn lemma_four_years(y: int)
    requires
        1970 <= y,
    ensures
        (y + 3) / 100 == (y - 1) / 100 ==> days_before_year(y + 4) == days_before_year(y) + 1461,
{
    lemma_days_before_year(y);
    lemma_days_before_year(y + 4);
    let z = y - 1;
    assert((z + 4) / 4 == z / 4 + 1);
    if (z + 4) / 100 == z / 100 {
        assert((z + 4) / 400 == z / 400);
    }
}

proof fn lemma_same_months(y: int, m: int)
    ensures
        days_before_month(y + 400, m) == days_before_month(y, m),
        days_in_month(y + 400, m) == days_in_month(y, m),
    decreases m,
{
    if m > 1 {
        lemma_same_months(y, m - 1);
    }
}

/// Day follows day: the day after the last of a month is the first of the next, every
/// month has 28 days at least and none 32; January, March, May, July, August, October
/// and December have 31, February 28 or 29, the others 30.
pub proof fn law_day_follows_day(y: int, m: int, d: int)
    requires
        is_date(y, m, d),
    ensures
        d < 28 ==> is_date(y, m, d + 1) && day_number(y, m, d + 1) == day_number(y, m, d) + 1,
        !is_date(y, m, 32),
        m == 1 || m == 3 || m == 5 || m == 7 || m == 8 || m == 10 || m == 12 ==> is_date(y, m, 31),
        m == 4 || m == 6 || m == 9 || m == 11 ==> is_date(y, m, 30) && !is_date(y, m, 31),
        m == 2 ==> is_date(y, m, 28) && !is_date(y, m, 30),
        m == 2 ==> (is_date(y, 2, 29) <==> day_number(y + 1, 1, 1) == day_number(y, 1, 1) + 366),
        is_date(y, m, d + 1) ==> day_number(y, m, d + 1) == day_number(y, m, d) + 1,
        !is_date(y, m, d + 1) && m < 12 ==> day_number(y, m + 1, 1) == day_number(y, m, d) + 1,
        !is_date(y, m, d + 1) && m == 12 ==> day_number(y + 1, 1, 1) == day_number(y, m, d) + 1,
{
    lemma_months(y);
    lemma_months(y + 1);
}

/// The text of a day up to the year 9999 reads back: eight digits, the year in the
/// first four, then two for the month and two for the day.
pub proof fn law_date_text_reads_back(s: Seq<char>, y: nat, m: nat, d: nat)
    requires
        is_date(y as int, m as int, d as int),
        y <= 9999,
        is_date_text(s, day_number(y as int, m as int, d as int)),
    ensures
        s.len() == 8,
        text::is_digits(s),
        ({
            let digit = |i: int| s[i] as int - 48;
            &&& 1000 * digit(0) + 100 * digit(1) + 10 * digit(2) + digit(3) == y
            &&& 10 * digit(4) + digit(5) == m
            &&& 10 * digit(6) + digit(7) == d
        }),
{
    let (y1, m1, d1) = choose|y1: nat, m1: nat, d1: nat|
        {
            &&& is_date(y1 as int, m1 as int, d1 as int)
            &&& day_number(y1 as int, m1 as int, d1 as int) == day_number(
                y as int,
                m as int,
                d as int,
            )
            &&& s == #[trigger] date_text(y1, m1, d1)
        };
    law_day_number_names_one_date(
        y1 as int,
        m1 as int,
        d1 as int,
        y as int,
        m as int,
        d as int,
    );
    law_date_text_is_digits(s, y, m, d);
    text::law_decimal_denotes_number(y, 4);
    text::law_decimal_denotes_number(m, 2);
    text::law_decimal_denotes_number(d, 2);
    text::lemma_padded_decimal(y, 4);
    text::lemma_padded_decimal(m, 2);
    text::lemma_padded_decimal(d, 2);
    let a = text::padded_decimal(y, 4);
    let b = text::padded_decimal(m, 2);
    let c = text::padded_decimal(d, 2);
    lemma_four_digits(a);
    lemma_two_digits(b);
    lemma_two_digits(c);
    assert(s[0] == a[0] && s[1] == a[1] && s[2] == a[2] && s[3] == a[3]);
    assert(s[4] == b[0] && s[5] == b[1] && s[6] == c[0] && s[7] == c[1]);
}

proof fn lemma_four_digits(s: Seq<char>)
    requires
        s.len() == 4,
    ensures
        text::digits_value(s) == 1000 * (s[0] as int - 48) + 100 * (s[1] as int - 48) + 10 * (s[2]
            as int - 48) + (s[3] as int - 48),
{
    let t = s.drop_last().drop_last();
    lemma_two_digits(t);
    assert(text::digits_value(s.drop_last()) == text::digits_value(t) * 10 + (s[2] as int - 48));
}

/// An offset from UTC reads as hours and minutes: `+hhmm` is ahead of UTC by that much,
/// `-hhmm` behind it by the same.
pub proof fn law_zone_reads_as_hours_and_minutes(zone: Seq<char>)
    requires
        is_zone(zone),
    ensures
        ({
            let digit = |i: int| zone[i] as int - 48;
            let minutes = 60 * (10 * digit(1) + digit(2)) + 10 * digit(3) + digit(4);
            &&& zone[0] == '+' ==> zone_secs(zone) == 60 * minutes
            &&& zone[0] == '-' ==> zone_secs(zone) == -60 * minutes
            &&& zone[0] == '+' || zone[0] == '-'
            &&& zone.len() == 5
            &&& forall|i: int| 1 <= i < 5 ==> '0' <= #[trigger] zone[i] <= '9'
        }),
{
    lemma_two_digits(zone.subrange(1, 3));
    lemma_two_digits(zone.subrange(3, 5));
    assert forall|i: int| 1 <= i < 5 implies '0' <= #[trigger] zone[i] <= '9' by {
        assert(zone.skip(1)[i - 1] == zone[i]);
    }
}

/// Every year from 1970 on has its twelve months, each with a first and a 28th day, and
/// nothing else is a date.
pub proof fn law_which_dates_there_are(y: int, m: int, d: int)
    ensures
        y >= 1970 && 1 <= m <= 12 && 1 <= d <= 28 ==> is_date(y, m, d),
        y < 1970 || m < 1 || m > 12 || d < 1 || d > 31 ==> !is_date(y, m, d),
{
}

/// Every sign with four digits behind it is a zone, and a text with anything else in one
/// of the five places is none.
pub proof fn law_which_zones_there_are(zone: Seq<char>, i: int)
    ensures
        zone.len() == 5 && (zone[0] == '+' || zone[0] == '-') && (forall|k: int|
            1 <= k < 5 ==> '0' <= #[trigger] zone[k] <= '9') ==> is_zone(zone),
        zone.len() != 5 ==> !is_zone(zone),
        zone[0] != '+' && zone[0] != '-' ==> !is_zone(zone),
        1 <= i < 5 && !('0' <= zone[i] <= '9') ==> !is_zone(zone),
{
    let tail = zone.skip(1);
    if zone.len() == 5 {
        assert forall|k: int| 0 <= k < 4 implies #[trigger] tail[k] == zone[k + 1] by {}
        if 1 <= i < 5 {
            assert(tail[i - 1] == zone[i]);
        }
    }
}

} // verus!
