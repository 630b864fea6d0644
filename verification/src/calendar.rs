//! Dates and times of day, in UTC, as text.

use crate::clock::{Instant, Moment};
use crate::text;
use vstd::prelude::*;

verus! {

/// A year with a leap day.
pub open spec fn leap(year: nat) -> bool {
    (year % 4 == 0 && year % 100 != 0) || year % 400 == 0
}

/// The days of a year.
pub open spec fn year_len(year: nat) -> nat {
    if leap(year) {
        366
    } else {
        365
    }
}

/// The days of a month; the first month is January.
pub open spec fn month_len(year: nat, month: nat) -> nat {
    if month == 2 {
        if leap(year) {
            29
        } else {
            28
        }
    } else if month == 4 || month == 6 || month == 9 || month == 11 {
        30
    } else {
        31
    }
}

/// The days from the start of 1970 to the start of a year.
pub open spec fn days_before_year(year: nat) -> nat
    decreases year,
{
    if year <= 1970 {
        0
    } else {
        days_before_year((year - 1) as nat) + year_len((year - 1) as nat)
    }
}

/// The days from the start of a year to the start of a month.
pub open spec fn days_before_month(year: nat, month: nat) -> nat
    decreases month,
{
    if month <= 1 {
        0
    } else {
        days_before_month(year, (month - 1) as nat) + month_len(year, (month - 1) as nat)
    }
}

/// The date that lies `days` after the first of January 1970.
pub open spec fn is_date(days: nat, year: nat, month: nat, day: nat) -> bool {
    &&& year >= 1970
    &&& 1 <= month <= 12
    &&& 1 <= day <= month_len(year, month)
    &&& days == days_before_year(year) + days_before_month(year, month) + day - 1
}

/// A date and a time of day as text.
pub open spec fn stamp(year: nat, month: nat, day: nat, hour: nat, minute: nat, second: nat) -> Seq<char> {
    text::zero_padded(text::decimal(year), 4) + "-"@ + text::zero_padded(text::decimal(month), 2)
        + "-"@ + text::zero_padded(text::decimal(day), 2) + "T"@ + text::zero_padded(
        text::decimal(hour),
        2,
    ) + ":"@ + text::zero_padded(text::decimal(minute), 2) + ":"@ + text::zero_padded(
        text::decimal(second),
        2,
    ) + "Z"@
}

/// The date that lies `days` after the first of January 1970: year, month and day.
pub open spec fn date(days: nat) -> (nat, nat, nat) {
    choose|d: (nat, nat, nat)| #[trigger] is_date(days, d.0, d.1, d.2)
}

/// The text of a time given in seconds since the Unix epoch.
pub open spec fn iso8601(secs: nat) -> Seq<char> {
    let d = date(secs / 86400);
    stamp(d.0, d.1, d.2, secs % 86400 / 3600, secs % 3600 / 60, secs % 60)
}

proof fn lemma_year_of_months(year: nat)
    ensures
        days_before_month(year, 13) == year_len(year),
{
    reveal_with_fuel(days_before_month, 14);
}

proof fn lemma_months_grow(year: nat, a: nat, b: nat)
    requires
        1 <= a < b,
    ensures
        days_before_month(year, a) + month_len(year, a) <= days_before_month(year, b),
    decreases b,
{
    if b > a + 1 {
        lemma_months_grow(year, a, (b - 1) as nat);
    }
}

proof fn lemma_years_grow(a: nat, b: nat)
    requires
        1970 <= a < b,
    ensures
        days_before_year(a) + year_len(a) <= days_before_year(b),
    decreases b,
{
    if b > a + 1 {
        lemma_years_grow(a, (b - 1) as nat);
    }
}

proof fn lemma_day_of_year(year: nat, month: nat, day: nat)
    requires
        1 <= month <= 12,
        1 <= day <= month_len(year, month),
    ensures
        days_before_month(year, month) + day - 1 < year_len(year),
{
    lemma_year_of_months(year);
    lemma_months_grow(year, month, 13);
}

/// No two dates lie the same number of days after the first of January 1970.
pub proof fn law_date_unique(days: nat, y1: nat, m1: nat, d1: nat, y2: nat, m2: nat, d2: nat)
    requires
        is_date(days, y1, m1, d1),
        is_date(days, y2, m2, d2),
    ensures
        y1 == y2,
        m1 == m2,
        d1 == d2,
{
    lemma_day_of_year(y1, m1, d1);
    lemma_day_of_year(y2, m2, d2);
    if y1 < y2 {
        lemma_years_grow(y1, y2);
    } else if y2 < y1 {
        lemma_years_grow(y2, y1);
    } else if m1 < m2 {
        lemma_months_grow(y1, m1, m2);
    } else if m2 < m1 {
        lemma_months_grow(y1, m2, m1);
    }
}

// ── The order of dates and of their texts ────────────────────────────────────

/// The leap days before a year.
spec fn leap_days(year: nat) -> int
    recommends
        year >= 1,
{
    (year - 1) / 4 - (year - 1) / 100 + (year - 1) / 400
}

proof fn lemma_days_of_years(year: nat)
    requires
        year >= 1970,
    ensures
        days_before_year(year) == 365 * (year - 1970) + leap_days(year) - leap_days(1970),
    decreases year,
{
    if year > 1970 {
        let y = (year - 1) as nat;
        lemma_days_of_years(y);
        assert(leap_days(year) - leap_days(y) == if leap(y) {
            1int
        } else {
            0
        });
    }
}

proof fn lemma_year_found(days: nat) -> (year: nat)
    ensures
        year >= 1970,
        days_before_year(year) <= days < days_before_year(year + 1),
    decreases days,
{
    if days == 0 {
        assert(days_before_year(1971) == days_before_year(1970) + year_len(1970));
        1970
    } else {
        let y = lemma_year_found((days - 1) as nat);
        if days < days_before_year(y + 1) {
            y
        } else {
            assert(days_before_year(y + 2) == days_before_year(y + 1) + year_len(y + 1));
            y + 1
        }
    }
}

proof fn lemma_month_found(year: nat, day: nat, last: nat) -> (month: nat)
    requires
        1 <= last <= 12,
        day < days_before_month(year, last + 1),
    ensures
        1 <= month <= last,
        days_before_month(year, month) <= day < days_before_month(year, month + 1),
    decreases last,
{
    if last == 1 || days_before_month(year, last) <= day {
        last
    } else {
        lemma_month_found(year, day, (last - 1) as nat)
    }
}

/// Every number of days after the first of January 1970 leads to a date.
pub proof fn law_every_day_has_date(days: nat)
    ensures
        is_date(days, date(days).0, date(days).1, date(days).2),
{
    let year = lemma_year_found(days);
    let left = (days - days_before_year(year)) as nat;
    lemma_year_of_months(year);
    let month = lemma_month_found(year, left, 12);
    let d = (year, month, (left - days_before_month(year, month) + 1) as nat);
    assert(is_date(days, d.0, d.1, d.2));
}

/// A later day has a later date.
pub proof fn law_dates_in_order(a: nat, b: nat)
    requires
        a < b,
    ensures
        ({
            let (x, y) = (date(a), date(b));
            x.0 < y.0 || (x.0 == y.0 && (x.1 < y.1 || (x.1 == y.1 && x.2 < y.2)))
        }),
{
    law_every_day_has_date(a);
    law_every_day_has_date(b);
    let (x, y) = (date(a), date(b));
    lemma_day_of_year(x.0, x.1, x.2);
    lemma_day_of_year(y.0, y.1, y.2);
    if y.0 < x.0 {
        lemma_years_grow(y.0, x.0);
    } else if x.0 == y.0 && y.1 < x.1 {
        lemma_months_grow(x.0, y.1, x.1);
    }
}

proof fn lemma_two_digits(n: nat)
    requires
        n < 100,
    ensures
        text::zero_padded(text::decimal(n), 2) == seq![text::digit(n / 10), text::digit(n % 10)],
{
    reveal_with_fuel(text::decimal, 3);
    reveal_with_fuel(text::zero_padded, 3);
}

proof fn lemma_four_digits(n: nat)
    requires
        1000 <= n < 10000,
    ensures
        text::zero_padded(text::decimal(n), 4) == seq![
            text::digit(n / 1000),
            text::digit(n / 100 % 10),
            text::digit(n / 10 % 10),
            text::digit(n % 10),
        ],
{
    reveal_with_fuel(text::decimal, 5);
    reveal_with_fuel(text::zero_padded, 2);
    assert(n / 10 / 10 == n / 100 && n / 100 / 10 == n / 1000);
}

proof fn lemma_lex_after(x: Seq<char>, s: Seq<char>, t: Seq<char>)
    ensures
        text::lex_lt(x + s, x + t) == text::lex_lt(s, t),
    decreases x.len(),
{
    if x.len() == 0 {
        assert(x + s =~= s);
        assert(x + t =~= t);
    } else {
        assert((x + s).drop_first() =~= x.drop_first() + s);
        assert((x + t).drop_first() =~= x.drop_first() + t);
        lemma_lex_after(x.drop_first(), s, t);
    }
}

proof fn lemma_lex_before(x: Seq<char>, y: Seq<char>, s: Seq<char>, t: Seq<char>)
    requires
        x.len() == y.len(),
        text::lex_lt(x, y),
    ensures
        text::lex_lt(x + s, y + t),
    decreases x.len(),
{
    if x[0] == y[0] {
        assert((x + s).drop_first() =~= x.drop_first() + s);
        assert((y + t).drop_first() =~= y.drop_first() + t);
        lemma_lex_before(x.drop_first(), y.drop_first(), s, t);
    }
}

proof fn lemma_two_in_order(a: nat, b: nat)
    requires
        a < b < 100,
    ensures
        text::lex_lt(
            text::zero_padded(text::decimal(a), 2),
            text::zero_padded(text::decimal(b), 2),
        ),
{
    lemma_two_digits(a);
    lemma_two_digits(b);
    reveal_with_fuel(text::lex_lt, 3);
    let x = seq![text::digit(a / 10), text::digit(a % 10)];
    let y = seq![text::digit(b / 10), text::digit(b % 10)];
    assert(x.drop_first() =~= seq![text::digit(a % 10)]);
    assert(y.drop_first() =~= seq![text::digit(b % 10)]);
}

proof fn lemma_four_in_order(a: nat, b: nat)
    requires
        1000 <= a < b < 10000,
    ensures
        text::lex_lt(
            text::zero_padded(text::decimal(a), 4),
            text::zero_padded(text::decimal(b), 4),
        ),
{
    lemma_four_as_two(a);
    lemma_four_as_two(b);
    let (x, y) = (
        text::zero_padded(text::decimal(a / 100), 2),
        text::zero_padded(text::decimal(b / 100), 2),
    );
    let (s, t) = (
        text::zero_padded(text::decimal(a % 100), 2),
        text::zero_padded(text::decimal(b % 100), 2),
    );
    lemma_two_digits(a / 100);
    lemma_two_digits(b / 100);
    if a / 100 < b / 100 {
        lemma_two_in_order(a / 100, b / 100);
        lemma_lex_before(x, y, s, t);
    } else {
        lemma_two_in_order(a % 100, b % 100);
        lemma_lex_after(x, s, t);
    }
}

proof fn lemma_four_as_two(n: nat)
    requires
        1000 <= n < 10000,
    ensures
        text::zero_padded(text::decimal(n), 4) == text::zero_padded(text::decimal(n / 100), 2)
            + text::zero_padded(text::decimal(n % 100), 2),
{
    lemma_four_digits(n);
    lemma_two_digits(n / 100);
    lemma_two_digits(n % 100);
    assert(n / 100 / 10 == n / 1000);
    assert(n % 100 / 10 == n / 10 % 10);
    assert(n % 100 % 10 == n % 10);
    assert(text::zero_padded(text::decimal(n), 4) =~= text::zero_padded(text::decimal(n / 100), 2)
        + text::zero_padded(text::decimal(n % 100), 2));
}

/// A year as it stands in a text.
spec fn wide(year: nat) -> Seq<char> {
    text::zero_padded(text::decimal(year), 4)
}

/// Any other part of a date or a time of day as it stands in a text.
spec fn two(n: nat) -> Seq<char> {
    text::zero_padded(text::decimal(n), 2)
}

/// Two texts that start with a part each and a mark are in the order of the parts, and where these
/// are the same in the order of the rest.
proof fn lemma_parts_in_order(
    x: Seq<char>,
    y: Seq<char>,
    mark: Seq<char>,
    s: Seq<char>,
    t: Seq<char>,
)
    requires
        x.len() == y.len(),
        text::lex_lt(x, y) || (x == y && text::lex_lt(s, t)),
    ensures
        text::lex_lt(x + mark + s, y + mark + t),
{
    assert(x + mark + s =~= x + (mark + s));
    assert(y + mark + t =~= y + (mark + t));
    if text::lex_lt(x, y) {
        lemma_lex_before(x, y, mark + s, mark + t);
    } else {
        lemma_lex_after(x + mark, s, t);
    }
}

/// A time of day as it stands in a text.
spec fn clock_text(hour: nat, minute: nat, second: nat) -> Seq<char> {
    two(hour) + ":"@ + (two(minute) + ":"@ + (two(second) + "Z"@))
}

proof fn lemma_clock_in_order(h1: nat, m1: nat, s1: nat, h2: nat, m2: nat, s2: nat)
    requires
        h1 < 100 && h2 < 100 && m1 < 100 && m2 < 100 && s1 < 100 && s2 < 100,
        h1 < h2 || (h1 == h2 && (m1 < m2 || (m1 == m2 && s1 < s2))),
    ensures
        text::lex_lt(clock_text(h1, m1, s1), clock_text(h2, m2, s2)),
{
    lemma_two_digits(h1);
    lemma_two_digits(h2);
    lemma_two_digits(m1);
    lemma_two_digits(m2);
    lemma_two_digits(s1);
    lemma_two_digits(s2);
    if h1 < h2 {
        lemma_two_in_order(h1, h2);
    } else {
        if m1 < m2 {
            lemma_two_in_order(m1, m2);
        } else {
            lemma_two_in_order(s1, s2);
            lemma_lex_before(two(s1), two(s2), "Z"@, "Z"@);
        }
        lemma_parts_in_order(two(m1), two(m2), ":"@, two(s1) + "Z"@, two(s2) + "Z"@);
    }
    lemma_parts_in_order(
        two(h1),
        two(h2),
        ":"@,
        two(m1) + ":"@ + (two(s1) + "Z"@),
        two(m2) + ":"@ + (two(s2) + "Z"@),
    );
}

proof fn lemma_stamp_parts(year: nat, month: nat, day: nat, hour: nat, minute: nat, second: nat)
    ensures
        stamp(year, month, day, hour, minute, second) == wide(year) + "-"@ + (two(month) + "-"@ + (two(
            day,
        ) + "T"@ + clock_text(hour, minute, second))),
{
    assert(stamp(year, month, day, hour, minute, second) =~= wide(year) + "-"@ + (two(month) + "-"@ + (
    two(day) + "T"@ + clock_text(hour, minute, second))));
}

proof fn lemma_stamp_in_order(x: (nat, nat, nat), y: (nat, nat, nat), c: Seq<char>, d: Seq<char>)
    requires
        1000 <= x.0 < 10000 && 1000 <= y.0 < 10000,
        x.1 < 100 && y.1 < 100 && x.2 < 100 && y.2 < 100,
        x.0 < y.0 || (x.0 == y.0 && (x.1 < y.1 || (x.1 == y.1 && x.2 < y.2))) || (x == y
            && text::lex_lt(c, d)),
    ensures
        text::lex_lt(
            wide(x.0) + "-"@ + (two(x.1) + "-"@ + (two(x.2) + "T"@ + c)),
            wide(y.0) + "-"@ + (two(y.1) + "-"@ + (two(y.2) + "T"@ + d)),
        ),
{
    let (dc, dd) = (two(x.2) + "T"@ + c, two(y.2) + "T"@ + d);
    let (mc, md) = (two(x.1) + "-"@ + dc, two(y.1) + "-"@ + dd);
    assert(wide(x.0).len() == wide(y.0).len()) by {
        lemma_four_digits(x.0);
        lemma_four_digits(y.0);
    }
    assert(two(x.1).len() == two(y.1).len() && two(x.2).len() == two(y.2).len()) by {
        lemma_two_digits(x.1);
        lemma_two_digits(y.1);
        lemma_two_digits(x.2);
        lemma_two_digits(y.2);
    }
    if x.0 < y.0 {
        lemma_four_in_order(x.0, y.0);
    } else {
        if x.1 < y.1 {
            lemma_two_in_order(x.1, y.1);
        } else {
            if x.2 < y.2 {
                lemma_two_in_order(x.2, y.2);
            }
            lemma_parts_in_order(two(x.2), two(y.2), "T"@, c, d);
        }
        lemma_parts_in_order(two(x.1), two(y.1), "-"@, dc, dd);
    }
    lemma_parts_in_order(wide(x.0), wide(y.0), "-"@, mc, md);
}

/// Before the year 10000 the text of a time has twenty characters.
pub proof fn law_text_has_twenty_characters(secs: nat)
    requires
        secs < 253402300800,
    ensures
        iso8601(secs).len() == 20,
{
    let d = date(secs / 86400);
    law_every_day_has_date(secs / 86400);
    lemma_year_in_range(secs / 86400);
    lemma_stamp_len(d.0, d.1, d.2, secs % 86400 / 3600, secs % 3600 / 60, secs % 60);
}

/// Before the year 10000, of two times the earlier one has the text that comes first.
pub proof fn law_texts_in_order(a: nat, b: nat)
    requires
        a < b < 253402300800,
    ensures
        text::lex_lt(iso8601(a), iso8601(b)),
{
    let (da, db) = (a / 86400, b / 86400);
    law_every_day_has_date(da);
    law_every_day_has_date(db);
    let (x, y) = (date(da), date(db));
    lemma_year_in_range(da);
    lemma_year_in_range(db);
    let (h1, m1, s1) = (a % 86400 / 3600, a % 3600 / 60, a % 60);
    let (h2, m2, s2) = (b % 86400 / 3600, b % 3600 / 60, b % 60);
    lemma_stamp_parts(x.0, x.1, x.2, h1, m1, s1);
    lemma_stamp_parts(y.0, y.1, y.2, h2, m2, s2);
    if da == db {
        lemma_day_in_order(a, b);
        lemma_clock_in_order(h1, m1, s1, h2, m2, s2);
    } else {
        law_dates_in_order(da, db);
    }
    lemma_stamp_in_order(x, y, clock_text(h1, m1, s1), clock_text(h2, m2, s2));
}

proof fn lemma_year_in_range(days: nat)
    requires
        days < 2932897,
    ensures
        1970 <= date(days).0 < 10000,
{
    law_every_day_has_date(days);
    let year = date(days).0;
    lemma_days_of_years(10000);
    if year > 10000 {
        lemma_years_grow(10000, year);
    }
}

proof fn lemma_stamp_len(year: nat, month: nat, day: nat, hour: nat, minute: nat, second: nat)
    requires
        1000 <= year < 10000,
        month < 100 && day < 100 && hour < 100 && minute < 100 && second < 100,
    ensures
        stamp(year, month, day, hour, minute, second).len() == 20,
{
    lemma_four_digits(year);
    lemma_two_digits(month);
    lemma_two_digits(day);
    lemma_two_digits(hour);
    lemma_two_digits(minute);
    lemma_two_digits(second);
    reveal_strlit("-");
    reveal_strlit("T");
    reveal_strlit(":");
    reveal_strlit("Z");
}

/// Two times of one day are in the order of their hours, minutes and seconds.
proof fn lemma_day_in_order(a: nat, b: nat)
    requires
        a < b,
        a / 86400 == b / 86400,
    ensures
        ({
            let (h1, m1, s1) = (a % 86400 / 3600, a % 3600 / 60, a % 60);
            let (h2, m2, s2) = (b % 86400 / 3600, b % 3600 / 60, b % 60);
            h1 < h2 || (h1 == h2 && (m1 < m2 || (m1 == m2 && s1 < s2)))
        }),
{
    let (x, y) = (a % 86400, b % 86400);
    assert(x < y);
    assert(a % 3600 == x % 3600 && b % 3600 == y % 3600);
    assert(a % 60 == x % 60 && b % 60 == y % 60);
}

/// A year with a leap day.
pub fn is_leap_year(year: u64) -> (r: bool)
    ensures
        r == leap(year as nat),
{
    (year % 4 == 0 && year % 100 != 0) || year % 400 == 0
}

fn len_of_month(year: u64, month: u64) -> (n: u64)
    ensures
        n == month_len(year as nat, month as nat),
{
    if month == 2 {
        if is_leap_year(year) {
            29
        } else {
            28
        }
    } else if month == 4 || month == 6 || month == 9 || month == 11 {
        30
    } else {
        31
    }
}

/// The date that lies `days` after the first of January 1970.
fn date_of(days: u64) -> (date: (u64, u64, u64))
    requires
        days <= u64::MAX / 86400,
    ensures
        is_date(days as nat, date.0 as nat, date.1 as nat, date.2 as nat),
{
    let mut left: u64 = days;
    let mut year: u64 = 1970;
    let mut len: u64 = 365;
    while left >= len
        invariant
            days <= u64::MAX / 86400,
            year >= 1970,
            year - 1970 + left <= days,
            len == year_len(year as nat),
            days == days_before_year(year as nat) + left,
        decreases left,
    {
        left = left - len;
        year = year + 1;
        len = if is_leap_year(year) {
            366
        } else {
            365
        };
    }
    proof {
        lemma_year_of_months(year as nat);
    }
    let mut month: u64 = 1;
    let mut span: u64 = 31;
    while left >= span
        invariant
            1 <= month <= 12,
            span == month_len(year as nat, month as nat),
            days_before_month(year as nat, 13) == year_len(year as nat),
            days_before_month(year as nat, month as nat) + left < year_len(year as nat),
            days == days_before_year(year as nat) + days_before_month(year as nat, month as nat)
                + left,
        decreases left,
    {
        left = left - span;
        month = month + 1;
        assert(month <= 12);
        span = len_of_month(year, month);
    }
    (year, month, left + 1)
}

/// The text of a time given in seconds since the Unix epoch.
pub fn epoch_secs_to_iso8601(secs: u64) -> (s: String)
    ensures
        s@ == iso8601(secs as nat),
{
    let (year, month, day) = date_of(secs / 86400);
    let hour = text::padded_decimal(secs % 86400 / 3600, 2);
    let minute = text::padded_decimal(secs % 3600 / 60, 2);
    let second = text::padded_decimal(secs % 60, 2);
    let mut s = text::padded_decimal(year, 4);
    s.push_str("-");
    let m = text::padded_decimal(month, 2);
    s.push_str(m.as_str());
    s.push_str("-");
    let d = text::padded_decimal(day, 2);
    s.push_str(d.as_str());
    s.push_str("T");
    s.push_str(hour.as_str());
    s.push_str(":");
    s.push_str(minute.as_str());
    s.push_str(":");
    s.push_str(second.as_str());
    s.push_str("Z");
    proof {
        let days = secs as nat / 86400;
        let d = date(days);
        let found = (year as nat, month as nat, day as nat);
        assert(is_date(days, found.0, found.1, found.2));
        law_date_unique(days, year as nat, month as nat, day as nat, d.0, d.1, d.2);
    }
    assert(s@ == stamp(
        year as nat,
        month as nat,
        day as nat,
        secs as nat % 86400 / 3600,
        secs as nat % 3600 / 60,
        secs as nat % 60,
    ));
    s
}

/// The Unix seconds of an instant, from the two clocks read together; as far as they are counted.
pub open spec fn instant_secs(instant: Instant, now: Moment) -> nat {
    let t = now.system + (instant - now.instant);
    if t < 0 {
        0
    } else if t / 1_000_000_000 <= u64::MAX {
        (t / 1_000_000_000) as nat
    } else {
        u64::MAX as nat
    }
}

/// The text of an instant, from the two clocks read together.
pub fn instant_to_iso8601(instant: Instant, now: Moment) -> (s: String)
    requires
        now.in_range(),
    ensures
        s@ == iso8601(instant_secs(instant, now)),
{
    let secs: u64 = if instant >= now.instant {
        let ahead: u128 = instant - now.instant;
        if now.system >= 0 {
            let base: u128 = now.system as u128;
            if ahead <= u128::MAX - base && (base + ahead) / 1_000_000_000 <= 0xffff_ffff_ffff_ffff {
                ((base + ahead) / 1_000_000_000) as u64
            } else {
                u64::MAX
            }
        } else {
            let debt: u128 = (-now.system) as u128;
            if ahead < debt {
                0
            } else if (ahead - debt) / 1_000_000_000 <= 0xffff_ffff_ffff_ffff {
                ((ahead - debt) / 1_000_000_000) as u64
            } else {
                u64::MAX
            }
        }
    } else {
        let behind: i128 = (now.instant - instant) as i128;
        let t: i128 = now.system - behind;
        if t < 0 {
            0
        } else {
            (t / 1_000_000_000) as u64
        }
    };
    assert(secs == instant_secs(instant, now));
    epoch_secs_to_iso8601(secs)
}

} // verus!
