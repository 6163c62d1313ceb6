//! Dates and times of day, in UTC.
use vstd::prelude::*;

use crate::text;

verus! {

/// Whether a year has a 29th of February.
pub open spec fn leap(y: int) -> bool {
    y % 4 == 0 && (y % 100 != 0 || y % 400 == 0)
}

/// The number of days of a month.
pub open spec fn month_days(y: int, m: int) -> int {
    if m == 2 {
        if leap(y) {
            29
        } else {
            28
        }
    } else if m == 4 || m == 6 || m == 9 || m == 11 {
        30
    } else {
        31
    }
}

/// The number of days of a year before one of its months.
pub open spec fn days_before_month(y: int, m: int) -> int
    decreases m,
{
    if m <= 1 {
        0
    } else {
        days_before_month(y, m - 1) + month_days(y, m - 1)
    }
}

/// The number of days before a year, counted from the year 1.
pub open spec fn days_before_year(y: int) -> int {
    365 * (y - 1) + (y - 1) / 4 - (y - 1) / 100 + (y - 1) / 400
}

/// The number of days from the first of January 1970 to a date.
pub open spec fn day_number(y: int, m: int, d: int) -> int {
    days_before_year(y) - days_before_year(1970) + days_before_month(y, m) + d - 1
}

/// Whether a date is one of the calendar.
pub open spec fn valid_date(y: int, m: int, d: int) -> bool {
    1 <= m <= 12 && 1 <= d <= month_days(y, m)
}

/// The year of an era of 400 years to which a day of the era belongs, where
/// years begin in March. The days are taken century by century.
#[verifier::spinoff_prover]
#[verifier::rlimit(40)]
proof fn lemma_year_of_era(doe: int, yoe: int)
    requires
        0 <= doe < 146097,
        yoe == (doe - doe / 1460 + doe / 36524 - doe / 146096) / 365,
    ensures
        0 <= yoe < 400,
        0 <= doe - (365 * yoe + yoe / 4 - yoe / 100) <= 365,
        doe - (365 * yoe + yoe / 4 - yoe / 100) == 365 ==> leap(yoe + 1),
{
    let c = doe / 36524;
    if c == 0 {
    } else if c == 1 {
    } else if c == 2 {
    } else if c == 3 {
    } else {
        assert(doe == 146096);
    }
}

/// The days before a month, counted from the first of March, by the number of
/// months since March.
proof fn lemma_months_since_march(y: int, mp: int)
    requires
        0 <= mp <= 11,
    ensures
        mp <= 9 ==> days_before_month(y, mp + 3) == days_before_month(y, 3) + (153 * mp + 2) / 5,
        mp == 10 ==> (153 * mp + 2) / 5 == 306 && days_before_month(y, 1) == 0,
        mp == 11 ==> (153 * mp + 2) / 5 == 337 && days_before_month(y, 2) == 31,
        days_before_month(y, 3) == 31 + month_days(y, 2),
        mp <= 9 ==> (153 * (mp + 1) + 2) / 5 - (153 * mp + 2) / 5 == month_days(y, mp + 3),
{
    reveal_with_fuel(days_before_month, 13);
}

/// The month of a day of a year that begins in March.
proof fn lemma_month_of_year(doy: int, mp: int)
    requires
        0 <= doy <= 365,
        mp == (5 * doy + 2) / 153,
    ensures
        0 <= mp <= 11,
        (153 * mp + 2) / 5 <= doy < (153 * (mp + 1) + 2) / 5,
{
}

/// What the leap years between two years add.
proof fn lemma_leap_days(y: int)
    ensures
        y / 4 - y / 100 + y / 400 - ((y - 1) / 4 - (y - 1) / 100 + (y - 1) / 400) == if leap(y) {
            1int
        } else {
            0int
        },
{
    assert(y % 400 == 0 ==> y % 100 == 0);
    assert(y % 100 == 0 ==> y % 4 == 0);
    assert(y / 4 - (y - 1) / 4 == if y % 4 == 0 { 1int } else { 0int });
    assert(y / 100 - (y - 1) / 100 == if y % 100 == 0 { 1int } else { 0int });
    assert(y / 400 - (y - 1) / 400 == if y % 400 == 0 { 1int } else { 0int });
}

/// The date of a day, by the year that began in the March before it, and the
/// day of that year.
proof fn lemma_date_of(y: int, doy: int, mp: int)
    requires
        0 <= doy <= 365,
        doy == 365 ==> leap(y + 1),
        mp == (5 * doy + 2) / 153,
    ensures
        ({
            let d = doy - (153 * mp + 2) / 5 + 1;
            let n = 365 * y + y / 4 - y / 100 + y / 400 + doy - 719468;
            if mp < 10 {
                valid_date(y, mp + 3, d) && day_number(y, mp + 3, d) == n
            } else {
                valid_date(y + 1, mp - 9, d) && day_number(y + 1, mp - 9, d) == n
            }
        }),
{
    lemma_month_of_year(doy, mp);
    if mp < 10 {
        lemma_months_since_march(y, mp);
        lemma_leap_days(y);
    } else {
        lemma_months_since_march(y + 1, mp);
    }
}

/// The years of an era of 400 years, counted over all eras.
#[verifier::spinoff_prover]
proof fn lemma_era(e: int, o: int)
    requires
        0 <= o < 400,
    ensures
        ({
            let y = 400 * e + o;
            365 * y + y / 4 - y / 100 + y / 400 == 146097 * e + 365 * o + o / 4 - o / 100
        }),
        leap(400 * e + o + 1) == leap(o + 1),
{
    let y = 400 * e + o;
    assert(y / 4 == 100 * e + o / 4);
    assert(y / 100 == 4 * e + o / 100);
    assert(y / 400 == e);
    assert((y + 1) % 4 == (o + 1) % 4);
    assert((y + 1) % 100 == (o + 1) % 100);
    assert((y + 1) % 400 == (o + 1) % 400);
}

/// The date of a day, given as the number of days since the first of January
/// 1970: the date of the calendar with that number.
fn civil_from_days(z: i64) -> (r: (i64, i64, i64))
    requires
        -719468 <= z <= 9223372036854056339,
    ensures
        valid_date(r.0 as int, r.1 as int, r.2 as int),
        day_number(r.0 as int, r.1 as int, r.2 as int) == z,
        r.0 >= 0,
{
    let n: i64 = z + 719468;
    let era: i64 = n / 146097;
    let doe: i64 = n - era * 146097;
    let yoe: i64 = (doe - doe / 1460 + doe / 36524 - doe / 146096) / 365;
    proof {
        lemma_year_of_era(doe as int, yoe as int);
    }
    let y: i64 = yoe + era * 400;
    let doy: i64 = doe - (365 * yoe + yoe / 4 - yoe / 100);
    let mp: i64 = (5 * doy + 2) / 153;
    let d: i64 = doy - (153 * mp + 2) / 5 + 1;
    let m: i64 = if mp < 10 {
        mp + 3
    } else {
        mp - 9
    };
    let year: i64 = if m <= 2 {
        y + 1
    } else {
        y
    };
    proof {
        lemma_era(era as int, yoe as int);
        lemma_month_of_year(doy as int, mp as int);
        lemma_date_of(y as int, doy as int, mp as int);
    }
    (year, m, d)
}

/// A number in decimal, with zeros before it up to the given number of digits.
pub open spec fn padded(n: nat, digits: nat) -> Seq<char> {
    let shown = text::decimal(n);
    Seq::new(
        if shown.len() < digits {
            (digits - shown.len()) as nat
        } else {
            0
        },
        |i: int| '0',
    ) + shown
}

/// A number in decimal, with zeros before it up to the given number of digits.
pub fn pad(n: u64, digits: usize) -> (r: String)
    ensures
        r@ == padded(n as nat, digits as nat),
{
    let shown = text::show(n);
    let len = text::chars_of(&shown).len();
    let mut out = String::new();
    let missing: usize = if len < digits {
        digits - len
    } else {
        0
    };
    let mut i: usize = 0;
    while i < missing
        invariant
            i <= missing,
            out@ =~= Seq::new(i as nat, |k: int| '0'),
        decreases missing - i,
    {
        out.push('0');
        i = i + 1;
    }
    out.append(&shown);
    out
}

/// A point in time in the form of RFC 3339, by its date and the seconds of its
/// day.
pub open spec fn timestamp(y: int, m: int, d: int, seconds: int) -> Seq<char> {
    padded(y as nat, 4) + "-"@ + padded(m as nat, 2) + "-"@ + padded(d as nat, 2) + "T"@ + padded(
        (seconds / 3600) as nat,
        2,
    ) + ":"@ + padded((seconds % 3600 / 60) as nat, 2) + ":"@ + padded((seconds % 60) as nat, 2)
        + "Z"@
}

/// Whether a text is the form of RFC 3339 of a point in time, given in seconds
/// since the first of January 1970.
pub open spec fn tells_time(secs: int, s: Seq<char>) -> bool {
    exists|y: int, m: int, d: int|
        valid_date(y, m, d) && day_number(y, m, d) == secs / 86400 && s == #[trigger] timestamp(
            y,
            m,
            d,
            secs % 86400,
        )
}

/// A point in time in the form of RFC 3339, given in seconds since the first of
/// January 1970.
pub fn rfc3339(secs: u64) -> (r: String)
    ensures
        tells_time(secs as int, r@),
{
    let days: u64 = secs / 86400;
    let rem: u64 = secs % 86400;
    let (y, m, d) = civil_from_days(days as i64);
    let mut out = pad(y as u64, 4);
    out.append("-");
    out.append(&pad(m as u64, 2));
    out.append("-");
    out.append(&pad(d as u64, 2));
    out.append("T");
    out.append(&pad(rem / 3600, 2));
    out.append(":");
    out.append(&pad(rem % 3600 / 60, 2));
    out.append(":");
    out.append(&pad(rem % 60, 2));
    out.append("Z");
    proof {
        assert(out@ == timestamp(y as int, m as int, d as int, rem as int));
    }
    out
}

/// A day has one date: no two dates have the same number.
pub proof fn law_dates_are_distinct(y1: int, m1: int, d1: int, y2: int, m2: int, d2: int)
    requires
        valid_date(y1, m1, d1),
        valid_date(y2, m2, d2),
        day_number(y1, m1, d1) == day_number(y2, m2, d2),
    ensures
        (y1, m1, d1) == (y2, m2, d2),
{
    lemma_within_year(y1, m1, d1);
    lemma_within_year(y2, m2, d2);
    if y1 < y2 {
        lemma_years_ascend(y1 + 1, y2);
    } else if y2 < y1 {
        lemma_years_ascend(y2 + 1, y1);
    } else {
        if m1 < m2 {
            lemma_months_ascend(y1, m1 + 1, m2);
        } else if m2 < m1 {
            lemma_months_ascend(y1, m2 + 1, m1);
        }
    }
}

/// A later year has at least as many days before it.
proof fn lemma_years_ascend(a: int, b: int)
    requires
        a <= b,
    ensures
        days_before_year(a) <= days_before_year(b),
    decreases b - a,
{
    if a < b {
        lemma_years_ascend(a, b - 1);
    }
}

/// A later month has at least as many days of the year before it.
proof fn lemma_months_ascend(y: int, a: int, b: int)
    requires
        1 <= a <= b,
    ensures
        days_before_month(y, a) <= days_before_month(y, b),
    decreases b - a,
{
    if a < b {
        lemma_months_ascend(y, a, b - 1);
    }
}

/// A date lies within its year.
proof fn lemma_within_year(y: int, m: int, d: int)
    requires
        valid_date(y, m, d),
    ensures
        0 <= days_before_month(y, m) + d - 1 < days_before_year(y + 1) - days_before_year(y),
{
    reveal_with_fuel(days_before_month, 14);
    lemma_months_ascend(y, m + 1, 13);
    lemma_months_ascend(y, 1, m);
    lemma_leap_days(y);
}

/// Up to the year 9999, a point in time takes twenty characters.
pub proof fn law_timestamp_length(y: int, m: int, d: int, seconds: int)
    requires
        0 <= y <= 9999,
        valid_date(y, m, d),
        0 <= seconds < 86400,
    ensures
        timestamp(y, m, d, seconds).len() == 20,
{
    reveal_with_fuel(text::decimal, 5);
    reveal_strlit("-");
    reveal_strlit("T");
    reveal_strlit(":");
    reveal_strlit("Z");
}

/// A later date has a later year, or the same year and a later month, or the
/// same month and a later day.
proof fn lemma_later_date(y1: int, m1: int, d1: int, y2: int, m2: int, d2: int)
    requires
        valid_date(y1, m1, d1),
        valid_date(y2, m2, d2),
        day_number(y1, m1, d1) < day_number(y2, m2, d2),
    ensures
        y1 < y2 || y1 == y2 && (m1 < m2 || m1 == m2 && d1 < d2),
{
    lemma_within_year(y1, m1, d1);
    lemma_within_year(y2, m2, d2);
    if y2 < y1 {
        lemma_years_ascend(y2 + 1, y1);
    } else if y1 == y2 && m2 < m1 {
        lemma_months_ascend(y1, m2 + 1, m1);
    }
}

/// The first second of the year 10000.
pub const YEAR_10000: u64 = 253402300800;

/// The years of the days before the year 10000.
proof fn lemma_four_digit_year(secs: int, y: int, m: int, d: int)
    requires
        0 <= secs < YEAR_10000,
        valid_date(y, m, d),
        day_number(y, m, d) == secs / 86400,
    ensures
        1970 <= y <= 9999,
{
    lemma_within_year(y, m, d);
    if y < 1970 {
        lemma_years_ascend(y + 1, 1970);
    } else if y > 9999 {
        lemma_years_ascend(10000, y);
        assert(days_before_year(10000) - days_before_year(1970) == 2932897);
    }
}

/// Zeros before digits do not change the number that they write.
proof fn lemma_zeros(k: nat, s: Seq<char>)
    ensures
        text::digits_value(Seq::new(k, |i: int| '0') + s) == text::digits_value(s),
    decreases k + s.len(),
{
    let z = Seq::new(k, |i: int| '0');
    if s.len() > 0 {
        assert((z + s).drop_last() =~= z + s.drop_last());
        lemma_zeros(k, s.drop_last());
    } else if k > 0 {
        let less = Seq::new((k - 1) as nat, |i: int| '0');
        assert((z + s).drop_last() =~= less + s);
        lemma_zeros((k - 1) as nat, s);
    } else {
        assert(z + s =~= s);
    }
}

/// A number that fits its digits is written with just as many, which write it.
proof fn lemma_padded(n: nat, digits: nat)
    requires
        digits == 2 && n < 100 || digits == 4 && n < 10000,
    ensures
        padded(n, digits).len() == digits,
        forall|i: int| 0 <= i < digits ==> text::is_digit(#[trigger] padded(n, digits)[i]),
        text::digits_value(padded(n, digits)) == n,
{
    reveal_with_fuel(text::decimal, 5);
    text::lemma_decimal_digits(n);
    let shown = text::decimal(n);
    assert(1 <= shown.len() <= digits);
    let k = (digits - shown.len()) as nat;
    lemma_zeros(k, shown);
    let z = Seq::new(k, |i: int| '0');
    assert(padded(n, digits) =~= z + shown);
    assert forall|i: int| 0 <= i < digits implies text::is_digit(
        #[trigger] padded(n, digits)[i],
    ) by {
        if i >= k {
            assert(padded(n, digits)[i] == shown[i - k]);
        }
    }
}

/// Two texts that begin alike, and go on with a smaller and a greater number, are
/// in the order of the numbers.
proof fn lemma_field(p: Seq<char>, a: nat, b: nat, digits: nat, s: Seq<char>, t: Seq<char>)
    requires
        a < b,
        digits == 2 && b < 100 || digits == 4 && b < 10000,
    ensures
        text::before(p + padded(a, digits) + s, p + padded(b, digits) + t),
{
    lemma_padded(a, digits);
    lemma_padded(b, digits);
    text::lemma_digits_in_order(padded(a, digits), padded(b, digits), s, t);
    text::lemma_before_prefix(p, padded(a, digits) + s, padded(b, digits) + t);
    assert(p + padded(a, digits) + s =~= p + (padded(a, digits) + s));
    assert(p + padded(b, digits) + t =~= p + (padded(b, digits) + t));
}

/// A time of day as it stands in a timestamp.
spec fn clock_text(seconds: int) -> Seq<char> {
    padded((seconds / 3600) as nat, 2) + ":"@ + padded((seconds % 3600 / 60) as nat, 2) + ":"@
        + padded((seconds % 60) as nat, 2) + "Z"@
}

/// A date as it stands in a timestamp.
spec fn date_text(y: int, m: int, d: int) -> Seq<char> {
    padded(y as nat, 4) + "-"@ + padded(m as nat, 2) + "-"@ + padded(d as nat, 2) + "T"@
}

/// A timestamp is made of a date and a time of day.
proof fn lemma_timestamp_parts(y: int, m: int, d: int, seconds: int)
    ensures
        timestamp(y, m, d, seconds) == date_text(y, m, d) + clock_text(seconds),
{
    assert(timestamp(y, m, d, seconds) =~= date_text(y, m, d) + clock_text(seconds));
}

/// Three numbers and what follows, split at each of them.
proof fn lemma_regroup(a: Seq<char>, b: Seq<char>, c: Seq<char>, sep: Seq<char>, e: Seq<char>)
    ensures
        ({
            let all = a + sep + b + sep + c + e;
            &&& all == Seq::<char>::empty() + a + (sep + b + sep + c + e)
            &&& all == a + sep + b + (sep + c + e)
        }),
{
    let all = a + sep + b + sep + c + e;
    assert(all =~= Seq::<char>::empty() + a + (sep + b + sep + c + e));
    assert(all =~= a + sep + b + (sep + c + e));
}

/// Three numbers and what follows are in the order of the first number that
/// differs.
proof fn lemma_fields_in_order(
    v: (nat, nat, nat),
    w: (nat, nat, nat),
    digits: nat,
    sep: Seq<char>,
    s: Seq<char>,
    t: Seq<char>,
)
    requires
        digits == 2 && w.0 < 100 || digits == 4 && w.0 < 10000,
        w.1 < 100,
        w.2 < 100,
        v.0 < w.0 || v.0 == w.0 && (v.1 < w.1 || v.1 == w.1 && v.2 < w.2),
    ensures
        text::before(
            padded(v.0, digits) + sep + padded(v.1, 2) + sep + padded(v.2, 2) + s,
            padded(w.0, digits) + sep + padded(w.1, 2) + sep + padded(w.2, 2) + t,
        ),
{
    let (f1, g1, h1) = (padded(v.0, digits), padded(v.1, 2), padded(v.2, 2));
    let (f2, g2, h2) = (padded(w.0, digits), padded(w.1, 2), padded(w.2, 2));
    lemma_regroup(f1, g1, h1, sep, s);
    lemma_regroup(f2, g2, h2, sep, t);
    if v.0 < w.0 {
        lemma_field(
            Seq::empty(),
            v.0,
            w.0,
            digits,
            sep + g1 + sep + h1 + s,
            sep + g2 + sep + h2 + t,
        );
    } else if v.1 < w.1 {
        lemma_field(f1 + sep, v.1, w.1, 2, sep + h1 + s, sep + h2 + t);
    } else {
        lemma_field(f1 + sep + g1 + sep, v.2, w.2, 2, s, t);
    }
}

/// A later time of day has the greater text.
proof fn lemma_clock_in_order(a: int, b: int)
    requires
        0 <= a < b < 86400,
    ensures
        text::before(clock_text(a), clock_text(b)),
{
    lemma_fields_in_order(
        ((a / 3600) as nat, (a % 3600 / 60) as nat, (a % 60) as nat),
        ((b / 3600) as nat, (b % 3600 / 60) as nat, (b % 60) as nat),
        2,
        ":"@,
        "Z"@,
        "Z"@,
    );
}

/// A later date has the greater text, whatever the times of day are.
proof fn lemma_date_in_order(
    y1: int,
    m1: int,
    d1: int,
    y2: int,
    m2: int,
    d2: int,
    s: Seq<char>,
    t: Seq<char>,
)
    requires
        0 <= y1,
        y2 <= 9999,
        valid_date(y1, m1, d1),
        valid_date(y2, m2, d2),
        y1 < y2 || y1 == y2 && (m1 < m2 || m1 == m2 && d1 < d2),
    ensures
        text::before(date_text(y1, m1, d1) + s, date_text(y2, m2, d2) + t),
{
    let v = (y1 as nat, m1 as nat, d1 as nat);
    let w = (y2 as nat, m2 as nat, d2 as nat);
    lemma_fields_in_order(v, w, 4, "-"@, "T"@ + s, "T"@ + t);
    let x = padded(v.0, 4) + "-"@ + padded(v.1, 2) + "-"@ + padded(v.2, 2);
    let y = padded(w.0, 4) + "-"@ + padded(w.1, 2) + "-"@ + padded(w.2, 2);
    assert(x + "T"@ + s =~= x + ("T"@ + s));
    assert(y + "T"@ + t =~= y + ("T"@ + t));
}

/// Up to the year 9999, a later second has the greater text, so that sorting by
/// the text is sorting by time. The text has twenty characters.
pub proof fn law_later_is_greater(t1: int, t2: int, s1: Seq<char>, s2: Seq<char>)
    requires
        0 <= t1 < t2 < YEAR_10000,
        tells_time(t1, s1),
        tells_time(t2, s2),
    ensures
        text::before(s1, s2),
        s1.len() == 20,
        s2.len() == 20,
{
    let (y1, m1, d1) = choose|y: int, m: int, d: int|
        valid_date(y, m, d) && day_number(y, m, d) == t1 / 86400 && s1 == #[trigger] timestamp(
            y,
            m,
            d,
            t1 % 86400,
        );
    let (y2, m2, d2) = choose|y: int, m: int, d: int|
        valid_date(y, m, d) && day_number(y, m, d) == t2 / 86400 && s2 == #[trigger] timestamp(
            y,
            m,
            d,
            t2 % 86400,
        );
    lemma_four_digit_year(t1, y1, m1, d1);
    lemma_four_digit_year(t2, y2, m2, d2);
    lemma_timestamp_parts(y1, m1, d1, t1 % 86400);
    lemma_timestamp_parts(y2, m2, d2, t2 % 86400);
    law_timestamp_length(y1, m1, d1, t1 % 86400);
    law_timestamp_length(y2, m2, d2, t2 % 86400);
    if t1 / 86400 < t2 / 86400 {
        lemma_later_date(y1, m1, d1, y2, m2, d2);
        lemma_date_in_order(
            y1,
            m1,
            d1,
            y2,
            m2,
            d2,
            clock_text(t1 % 86400),
            clock_text(t2 % 86400),
        );
    } else {
        law_dates_are_distinct(y1, m1, d1, y2, m2, d2);
        lemma_clock_in_order(t1 % 86400, t2 % 86400);
        text::lemma_before_prefix(
            date_text(y1, m1, d1),
            clock_text(t1 % 86400),
            clock_text(t2 % 86400),
        );
    }
}

/// A point in time is told by one text.
pub proof fn law_time_has_one_text(secs: int, s: Seq<char>, t: Seq<char>)
    requires
        tells_time(secs, s),
        tells_time(secs, t),
    ensures
        s == t,
{
    let (y1, m1, d1) = choose|y: int, m: int, d: int|
        valid_date(y, m, d) && day_number(y, m, d) == secs / 86400 && s == #[trigger] timestamp(
            y,
            m,
            d,
            secs % 86400,
        );
    let (y2, m2, d2) = choose|y: int, m: int, d: int|
        valid_date(y, m, d) && day_number(y, m, d) == secs / 86400 && t == #[trigger] timestamp(
            y,
            m,
            d,
            secs % 86400,
        );
    law_dates_are_distinct(y1, m1, d1, y2, m2, d2);
}

/// A timestamp is read back part by part: the year, the month and the day, then
/// the hours, the minutes and the seconds, each in its place.
pub proof fn law_timestamp_is_read_back(y: int, m: int, d: int, seconds: int)
    requires
        0 <= y <= 9999,
        valid_date(y, m, d),
        0 <= seconds < 86400,
    ensures
        ({
            let t = timestamp(y, m, d, seconds);
            &&& text::digits_value(t.subrange(0, 4)) == y
            &&& text::digits_value(t.subrange(5, 7)) == m
            &&& text::digits_value(t.subrange(8, 10)) == d
            &&& text::digits_value(t.subrange(11, 13)) * 3600 + text::digits_value(
                t.subrange(14, 16),
            ) * 60 + text::digits_value(t.subrange(17, 19)) == seconds
            &&& t[4] == '-' && t[7] == '-' && t[10] == 'T'
            &&& t[13] == ':' && t[16] == ':' && t[19] == 'Z'
        }),
{
    reveal_strlit("-");
    reveal_strlit("T");
    reveal_strlit(":");
    reveal_strlit("Z");
    let (h, n, s) = (seconds / 3600, seconds % 3600 / 60, seconds % 60);
    lemma_padded(y as nat, 4);
    lemma_padded(m as nat, 2);
    lemma_padded(d as nat, 2);
    lemma_padded(h as nat, 2);
    lemma_padded(n as nat, 2);
    lemma_padded(s as nat, 2);
    let t = timestamp(y, m, d, seconds);
    assert(t.subrange(0, 4) =~= padded(y as nat, 4));
    assert(t.subrange(5, 7) =~= padded(m as nat, 2));
    assert(t.subrange(8, 10) =~= padded(d as nat, 2));
    assert(t.subrange(11, 13) =~= padded(h as nat, 2));
    assert(t.subrange(14, 16) =~= padded(n as nat, 2));
    assert(t.subrange(17, 19) =~= padded(s as nat, 2));
}

/// The days are those of the calendar in use since 1582: they are counted from
/// the first of January 1970, a year has 366 of them where it is divisible by
/// four but not by a hundred, or by four hundred, and 365 otherwise, and in four
/// hundred years there are 146097.
#[verifier::spinoff_prover]
#[verifier::rlimit(40)]
pub proof fn law_days_of_the_calendar(y: int, m: int, d: int)
    ensures
        day_number(1970, 1, 1) == 0,
        day_number(y, m, d + 1) == day_number(y, m, d) + 1,
        y % 4 != 0 ==> day_number(y + 1, 1, 1) == day_number(y, 1, 1) + 365,
        y % 4 == 0 && y % 100 != 0 ==> day_number(y + 1, 1, 1) == day_number(y, 1, 1) + 366,
        y % 100 == 0 && y % 400 != 0 ==> day_number(y + 1, 1, 1) == day_number(y, 1, 1) + 365,
        y % 400 == 0 ==> day_number(y + 1, 1, 1) == day_number(y, 1, 1) + 366,
        day_number(y + 400, 1, 1) == day_number(y, 1, 1) + 146097,
{
    lemma_leap_days(y);
}

/// A year ends on the last of December, and the next one follows it.
#[verifier::spinoff_prover]
#[verifier::rlimit(40)]
pub proof fn law_years_follow_each_other(y: int)
    ensures
        day_number(y, 12, 31) + 1 == day_number(y + 1, 1, 1),
{
    lemma_leap_days(y);
    assert(days_before_month(y, 12) == days_before_month(y, 3) + 275) by {
        reveal_with_fuel(days_before_month, 11);
    }
    assert(days_before_month(y, 3) == 31 + month_days(y, 2)) by {
        reveal_with_fuel(days_before_month, 4);
    }
}

/// The months have the days that they have in the calendar, and each one follows
/// the one before it.
pub proof fn law_months_follow_each_other(y: int, m: int)
    requires
        1 <= m < 12,
    ensures
        day_number(y, m + 1, 1) == day_number(y, m, month_days(y, m)) + 1,
        m == 1 || m == 3 || m == 5 || m == 7 || m == 8 || m == 10 ==> month_days(y, m) == 31,
        m == 4 || m == 6 || m == 9 || m == 11 ==> month_days(y, m) == 30,
        m == 2 ==> month_days(y, m) == 28 || month_days(y, m) == 29,
        month_days(y, 12) == 31,
        y % 4 != 0 ==> month_days(y, 2) == 28,
        y % 4 == 0 && y % 100 != 0 ==> month_days(y, 2) == 29,
        y % 100 == 0 && y % 400 != 0 ==> month_days(y, 2) == 28,
        y % 400 == 0 ==> month_days(y, 2) == 29,
{
}

} // verus!
