//! Names of directories and files.

use vstd::prelude::*;

use crate::text;

verus! {

/// The directory for sockets and recordings where none is asked for.
pub fn default_tmp_dir() -> (r: &'static str)
    ensures
        r@ == "/tmp"@,
{
    "/tmp"
}

// ---------------------------------------------------------------------------
// Dates
// ---------------------------------------------------------------------------
/// Whether a year has a 29 February.
pub open spec fn is_leap(year: int) -> bool {
    year % 4 == 0 && (year % 100 != 0 || year % 400 == 0)
}

/// The number of days of a month.
pub open spec fn days_in_month(year: int, month: int) -> int {
    if month == 2 {
        if is_leap(year) {
            29
        } else {
            28
        }
    } else if month == 4 || month == 6 || month == 9 || month == 11 {
        30
    } else {
        31
    }
}

/// The number of days of a year before a month.
pub open spec fn days_before_month(year: int, month: int) -> int
    decreases month,
{
    if month <= 1 {
        0
    } else {
        days_before_month(year, month - 1) + days_in_month(year, month - 1)
    }
}

/// Whether a date stands in the calendar, from 1970 on.
pub open spec fn is_date(year: int, month: int, day: int) -> bool {
    1970 <= year && 1 <= month <= 12 && 1 <= day <= days_in_month(year, month)
}

/// The number of days from 1 January 1970 to a date.
pub open spec fn day_number(year: int, month: int, day: int) -> int {
    let past = year - 1;
    365 * past + past / 4 - past / 100 + past / 400 - 719162 + days_before_month(year, month) + day
        - 1
}

/// Two decimal digits of a number below 100.
pub open spec fn two_digits(n: int) -> Seq<char> {
    seq![text::digit_char((n / 10) as nat), text::digit_char((n % 10) as nat)]
}

/// A year: four digits, or a sign and all digits beyond 9999.
pub open spec fn year_text(year: int) -> Seq<char> {
    if year <= 9999 {
        two_digits(year / 100) + two_digits(year % 100)
    } else {
        seq!['+'] + text::dec(year as nat)
    }
}

/// A month, a day and a time of the day, given in seconds, in the form `mmddTHHMMSSZ`.
pub open spec fn rest_text(month: int, day: int, time: int) -> Seq<char> {
    two_digits(month) + two_digits(day) + seq!['T'] + two_digits(time / 3600) + two_digits(
        time / 60 % 60,
    ) + two_digits(time % 60) + seq!['Z']
}

/// A date and a time of the day, given in seconds, in the form `YYYYmmddTHHMMSSZ`.
pub open spec fn compact_text(year: int, month: int, day: int, time: int) -> Seq<char> {
    year_text(year) + rest_text(month, day, time)
}

/// Whether a text is the compact form of the UTC date and time of a Unix time.
pub open spec fn is_compact(s: Seq<char>, secs: i64) -> bool {
    exists|year: int, month: int, day: int|
        is_date(year, month, day) && day_number(year, month, day) == secs as int / 86400
            && s == #[trigger] compact_text(year, month, day, secs as int % 86400)
}

/// The last second that a date and time of the calendar crate can stand for.
pub const LAST_SECOND: i64 = 8_210_266_876_799;

/// Calls `chrono::DateTime::from_timestamp` and `format` with `%Y%m%dT%H%M%SZ`. It is trusted to
/// give the UTC date and time in the compact form.
#[verifier::external_body]
fn format_utc(secs: i64) -> (r: String)
    requires
        0 <= secs <= LAST_SECOND,
    ensures
        is_compact(r@, secs),
{
    let t = chrono::DateTime::from_timestamp(secs, 0).unwrap();
    t.format("%Y%m%dT%H%M%SZ").to_string()
}

// ---------------------------------------------------------------------------
// Recordings
// ---------------------------------------------------------------------------
/// The name of a recording that was started when the formatted time was `stamp`.
pub open spec fn recording_name(stamp: Seq<char>, ext: Seq<char>) -> Seq<char> {
    stamp + "_evk"@ + ext
}

/// The name of a recording started at a given formatted time.
pub fn stamped_name(stamp: &str, ext: &str) -> (r: String)
    ensures
        r@ == recording_name(stamp@, ext@),
{
    let mut r: String = stamp.to_owned();
    r.append("_evk");
    r.append(ext);
    r
}

/// Whether a text is the name of a recording started at a Unix time.
pub open spec fn is_name_at(name: Seq<char>, secs: i64, ext: Seq<char>) -> bool {
    exists|stamp: Seq<char>|
        is_compact(stamp, secs) && name == #[trigger] recording_name(stamp, ext)
}

/// The name of a recording started at a given Unix time, such as `20240315T123456Z_evk.raw`.
pub fn name_at(secs: i64, ext: &str) -> (r: String)
    requires
        0 <= secs <= LAST_SECOND,
    ensures
        is_name_at(r@, secs, ext@),
{
    let stamp = format_utc(secs);
    let r = stamped_name(stamp.as_str(), ext);
    assert(r@ == recording_name(stamp@, ext@));
    r
}

// ---------------------------------------------------------------------------
// Laws
// ---------------------------------------------------------------------------
proof fn two_digits_differ(a: int, b: int)
    requires
        0 <= a < 100,
        0 <= b < 100,
        two_digits(a) == two_digits(b),
    ensures
        a == b,
{
    assert(two_digits(a)[0] == two_digits(b)[0]);
    assert(two_digits(a)[1] == two_digits(b)[1]);
}

proof fn year_text_reads_back(a: int, b: int)
    requires
        1970 <= a,
        1970 <= b,
        year_text(a) == year_text(b),
    ensures
        a == b,
{
    let s = year_text(a);
    if a <= 9999 {
        assert(s.subrange(0, 2) =~= two_digits(a / 100));
        assert(s.subrange(2, 4) =~= two_digits(a % 100));
    } else {
        assert(s.skip(1) =~= text::dec(a as nat));
        assert(s[0] == '+');
    }
    if b <= 9999 {
        assert(s.subrange(0, 2) =~= two_digits(b / 100));
        assert(s.subrange(2, 4) =~= two_digits(b % 100));
        assert(s[0] == text::digit_char((b / 1000) as nat));
    } else {
        assert(s.skip(1) =~= text::dec(b as nat));
    }
    if a <= 9999 {
        assert(s[0] == text::digit_char((a / 1000) as nat));
    }
    if a <= 9999 && b <= 9999 {
        two_digits_differ(a / 100, b / 100);
        two_digits_differ(a % 100, b % 100);
    } else if a > 9999 && b > 9999 {
        text::dec_injective(a as nat, b as nat);
    }
}

/// The parts of the text behind a year.
proof fn rest_parts(month: int, day: int, time: int)
    ensures
        ({
            let s = rest_text(month, day, time);
            &&& s.len() == 12
            &&& s.subrange(0, 2) == two_digits(month)
            &&& s.subrange(2, 4) == two_digits(day)
            &&& s.subrange(5, 7) == two_digits(time / 3600)
            &&& s.subrange(7, 9) == two_digits(time / 60 % 60)
            &&& s.subrange(9, 11) == two_digits(time % 60)
        }),
{
    let s = rest_text(month, day, time);
    assert(s.subrange(0, 2) =~= two_digits(month));
    assert(s.subrange(2, 4) =~= two_digits(day));
    assert(s.subrange(5, 7) =~= two_digits(time / 3600));
    assert(s.subrange(7, 9) =~= two_digits(time / 60 % 60));
    assert(s.subrange(9, 11) =~= two_digits(time % 60));
}

/// A compact text tells its date and time.
proof fn compact_text_reads_back(
    a: (int, int, int),
    time_a: int,
    b: (int, int, int),
    time_b: int,
)
    requires
        is_date(a.0, a.1, a.2),
        is_date(b.0, b.1, b.2),
        0 <= time_a < 86400,
        0 <= time_b < 86400,
        compact_text(a.0, a.1, a.2, time_a) == compact_text(b.0, b.1, b.2, time_b),
    ensures
        a == b,
        time_a == time_b,
{
    let s = compact_text(a.0, a.1, a.2, time_a);
    let n = s.len() - 12;
    rest_parts(a.1, a.2, time_a);
    rest_parts(b.1, b.2, time_b);
    assert(s.take(n) =~= year_text(a.0));
    assert(s.take(n) =~= year_text(b.0));
    assert(s.skip(n) =~= rest_text(a.1, a.2, time_a));
    assert(s.skip(n) =~= rest_text(b.1, b.2, time_b));
    year_text_reads_back(a.0, b.0);
    two_digits_differ(a.1, b.1);
    two_digits_differ(a.2, b.2);
    two_digits_differ(time_a / 3600, time_b / 3600);
    two_digits_differ(time_a / 60 % 60, time_b / 60 % 60);
    two_digits_differ(time_a % 60, time_b % 60);
}

/// Recordings that were started in different seconds have different names.
pub proof fn names_of_different_seconds_differ(
    name: Seq<char>,
    secs_a: i64,
    secs_b: i64,
    ext: Seq<char>,
)
    requires
        is_name_at(name, secs_a, ext),
        is_name_at(name, secs_b, ext),
    ensures
        secs_a == secs_b,
{
    let a = choose|stamp: Seq<char>|
        is_compact(stamp, secs_a) && name == #[trigger] recording_name(stamp, ext);
    let b = choose|stamp: Seq<char>|
        is_compact(stamp, secs_b) && name == #[trigger] recording_name(stamp, ext);
    let n = name.len() - "_evk"@.len() - ext.len();
    assert(a =~= name.take(n));
    assert(b =~= name.take(n));
    let s = secs_a as int % 86400;
    let t = secs_b as int % 86400;
    let (y, m, d) = choose|year: int, month: int, day: int|
        is_date(year, month, day) && day_number(year, month, day) == secs_a as int / 86400
            && a == #[trigger] compact_text(year, month, day, s);
    let (v, w, x) = choose|year: int, month: int, day: int|
        is_date(year, month, day) && day_number(year, month, day) == secs_b as int / 86400
            && b == #[trigger] compact_text(year, month, day, t);
    compact_text_reads_back((y, m, d), s, (v, w, x), t);
}

/// The days of a year before the end of a month are at most the days before a later month.
proof fn months_follow(year: int, month: int, other: int)
    requires
        1 <= month < other <= 13,
    ensures
        days_before_month(year, month) + days_in_month(year, month) <= days_before_month(
            year,
            other,
        ),
    decreases other,
{
    if month < other - 1 {
        months_follow(year, month, other - 1);
    }
}

/// The days from 1 January 1970 to the first day of a year.
spec fn year_start(year: int) -> int {
    let past = year - 1;
    365 * past + past / 4 - past / 100 + past / 400 - 719162
}

/// The days of the months add up to 365, or 366 where there is a 29 February.
#[verifier::spinoff_prover]
proof fn months_add_up(year: int)
    ensures
        days_before_month(year, 13) == (if is_leap(year) {
            366int
        } else {
            365int
        }),
{
    assert(days_before_month(year, 1) == 0);
    let february = days_in_month(year, 2);
    assert(days_before_month(year, 2) == 31);
    assert(days_before_month(year, 3) == 31 + february);
    assert(days_before_month(year, 4) == 62 + february);
    assert(days_before_month(year, 5) == 92 + february);
    assert(days_before_month(year, 6) == 123 + february);
    assert(days_before_month(year, 7) == 153 + february);
    assert(days_before_month(year, 8) == 184 + february);
    assert(days_before_month(year, 9) == 215 + february);
    assert(days_before_month(year, 10) == 245 + february);
    assert(days_before_month(year, 11) == 276 + february);
    assert(days_before_month(year, 12) == 306 + february);
    assert(days_before_month(year, 13) == 337 + february);
}

/// A year starts 365 days after the one before, or 366 where that has a 29 February.
#[verifier::spinoff_prover]
proof fn year_starts_follow(year: int)
    requires
        year >= 1,
    ensures
        year_start(year + 1) - year_start(year) == (if is_leap(year) {
            366int
        } else {
            365int
        }),
{
    let past = year - 1;
    assert(year / 4 - past / 4 == (if year % 4 == 0 {
        1int
    } else {
        0int
    }));
    assert(year / 100 - past / 100 == (if year % 100 == 0 {
        1int
    } else {
        0int
    }));
    assert(year / 400 - past / 400 == (if year % 400 == 0 {
        1int
    } else {
        0int
    }));
    assert(year % 100 == 0 ==> year % 4 == 0);
    assert(year % 400 == 0 ==> year % 100 == 0);
}

/// A year starts where the months of the one before end.
proof fn year_length(year: int)
    requires
        year >= 1,
    ensures
        year_start(year + 1) == year_start(year) + days_before_month(year, 13),
{
    months_add_up(year);
    year_starts_follow(year);
}

proof fn years_follow(year: int, other: int)
    requires
        1 <= year < other,
    ensures
        year_start(year) + days_before_month(year, 13) <= year_start(other),
    decreases other,
{
    year_length(year);
    if year < other - 1 {
        years_follow(year, other - 1);
        year_length(other - 1);
        months_follow(other - 1, 1, 13);
    }
}

/// Earlier dates have lower numbers.
proof fn dates_follow(a: (int, int, int), b: (int, int, int))
    requires
        is_date(a.0, a.1, a.2),
        is_date(b.0, b.1, b.2),
        a.0 < b.0 || (a.0 == b.0 && (a.1 < b.1 || (a.1 == b.1 && a.2 < b.2))),
    ensures
        day_number(a.0, a.1, a.2) < day_number(b.0, b.1, b.2),
{
    assert(day_number(a.0, a.1, a.2) == year_start(a.0) + days_before_month(a.0, a.1) + a.2 - 1);
    assert(day_number(b.0, b.1, b.2) == year_start(b.0) + days_before_month(b.0, b.1) + b.2 - 1);
    if a.0 < b.0 {
        years_follow(a.0, b.0);
        months_follow(a.0, a.1, 13);
        if b.1 > 1 {
            months_follow(b.0, 1, b.1);
        }
    } else if a.1 < b.1 {
        months_follow(a.0, a.1, b.1);
    }
}

/// A recording has one name: the extension and the second in which it was started decide it.
pub proof fn name_is_determined(a: Seq<char>, b: Seq<char>, secs: i64, ext: Seq<char>)
    requires
        is_name_at(a, secs, ext),
        is_name_at(b, secs, ext),
    ensures
        a == b,
{
    let p = choose|stamp: Seq<char>|
        is_compact(stamp, secs) && a == #[trigger] recording_name(stamp, ext);
    let q = choose|stamp: Seq<char>|
        is_compact(stamp, secs) && b == #[trigger] recording_name(stamp, ext);
    let t = secs as int % 86400;
    let (y, m, d) = choose|year: int, month: int, day: int|
        is_date(year, month, day) && day_number(year, month, day) == secs as int / 86400
            && p == #[trigger] compact_text(year, month, day, t);
    let (v, w, x) = choose|year: int, month: int, day: int|
        is_date(year, month, day) && day_number(year, month, day) == secs as int / 86400
            && q == #[trigger] compact_text(year, month, day, t);
    if (y, m, d) != (v, w, x) {
        if y < v || (y == v && (m < w || (m == w && d < x))) {
            dates_follow((y, m, d), (v, w, x));
        } else {
            dates_follow((v, w, x), (y, m, d));
        }
    }
}

/// The name of a recording begins with its formatted time and ends with its extension; `_evk` stands
/// between them.
pub proof fn name_shows_time_and_extension(stamp: Seq<char>, ext: Seq<char>)
    ensures
        ({
            let name = recording_name(stamp, ext);
            let n = stamp.len() as int;
            &&& name.len() == n + 4 + ext.len()
            &&& name.take(n) == stamp
            &&& name.skip(n + 4) == ext
            &&& name[n] == '_'
            &&& name[n + 1] == 'e'
            &&& name[n + 2] == 'v'
            &&& name[n + 3] == 'k'
        }),
{
    reveal_strlit("_evk");
    let name = recording_name(stamp, ext);
    let n = stamp.len() as int;
    assert(name.take(n) =~= stamp);
    assert(name.skip(n + 4) =~= ext);
}

/// Two digits are digits and read as their number.
pub proof fn two_digits_read(n: int)
    requires
        0 <= n < 100,
    ensures
        two_digits(n).len() == 2,
        text::reads_as(two_digits(n), n as nat),
{
    let s = two_digits(n);
    let init = s.drop_last();
    assert(init.drop_last() =~= Seq::<char>::empty());
    assert(text::digits_value(init.drop_last()) == 0);
    assert(text::digits_value(init) == n / 10);
    assert(text::digits_value(s) == 10 * (n / 10) + n % 10);
}

/// The name of a recording tells a date and a time of the day, two digits for each part but the
/// year, and these make up the second in which it was started.
pub proof fn name_tells_second(name: Seq<char>, secs: i64, ext: Seq<char>)
    requires
        is_name_at(name, secs, ext),
    ensures
        exists|year: int, month: int, day: int, hour: int, minute: int, second: int|
            #![trigger compact_text(year, month, day, 3600 * hour + 60 * minute + second)]
            is_date(year, month, day) && 0 <= hour < 24 && 0 <= minute < 60 && 0 <= second < 60
                && 86400 * day_number(year, month, day) + 3600 * hour + 60 * minute + second == secs
                && name == year_text(year) + two_digits(month) + two_digits(day) + seq!['T']
                + two_digits(hour) + two_digits(minute) + two_digits(second) + seq!['Z'] + "_evk"@
                + ext,
{
    let stamp = choose|stamp: Seq<char>|
        is_compact(stamp, secs) && name == #[trigger] recording_name(stamp, ext);
    let t = secs as int % 86400;
    let (y, m, d) = choose|year: int, month: int, day: int|
        is_date(year, month, day) && day_number(year, month, day) == secs as int / 86400
            && stamp == #[trigger] compact_text(year, month, day, t);
    let hour = t / 3600;
    let minute = t / 60 % 60;
    let second = t % 60;
    assert(t == 3600 * hour + 60 * minute + second);
    assert(compact_text(y, m, d, 3600 * hour + 60 * minute + second) == stamp);
    assert(name =~= year_text(y) + two_digits(m) + two_digits(d) + seq!['T'] + two_digits(hour)
        + two_digits(minute) + two_digits(second) + seq!['Z'] + "_evk"@ + ext);
}

/// The count of days begins with 1 January 1970 and goes on by one from each day to the next, over the
/// ends of months and of years, which are those of the calendar.
pub proof fn days_are_counted(year: int, month: int, day: int)
    requires
        is_date(year, month, day),
    ensures
        day_number(1970, 1, 1) == 0,
        is_date(year, month, day + 1) ==> day_number(year, month, day + 1) == day_number(
            year,
            month,
            day,
        ) + 1,
        !is_date(year, month, day + 1) && month < 12 ==> day_number(year, month + 1, 1)
            == day_number(year, month, day) + 1,
        !is_date(year, month, day + 1) && month == 12 ==> day_number(year + 1, 1, 1) == day_number(
            year,
            month,
            day,
        ) + 1,
{
    assert(day_number(1970, 1, 1) == year_start(1970) + days_before_month(1970, 1));
    assert(day_number(year, month, day) == year_start(year) + days_before_month(year, month) + day
        - 1);
    if month < 12 {
        assert(days_before_month(year, month + 1) == days_before_month(year, month)
            + days_in_month(year, month));
        assert(day_number(year, month + 1, 1) == year_start(year) + days_before_month(
            year,
            month + 1,
        ));
    } else {
        year_length(year);
        assert(days_before_month(year, 13) == days_before_month(year, 12) + days_in_month(
            year,
            12,
        ));
        assert(day_number(year + 1, 1, 1) == year_start(year + 1) + days_before_month(year + 1, 1));
    }
}

} // verus!
