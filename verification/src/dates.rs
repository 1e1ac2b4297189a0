use vstd::prelude::*;
use vstd::string::StringExecFns;
use chrono::Datelike;

verus! {

/// A proleptic Gregorian calendar date held as plain numbers.
#[derive(Clone, Copy, Debug, PartialEq, Eq, Structural)]
pub struct Date {
    pub year: i64,
    pub month: u32,
    pub day: u32,
}

/// Field bounds that every date handled by this library satisfies. The year
/// range covers everything chrono can represent, with room to spare.
pub open spec fn date_wf(d: Date) -> bool {
    &&& -400_000 <= d.year <= 400_000
    &&& 1 <= d.month <= 12
    &&& 1 <= d.day <= 31
}

pub open spec fn is_leap_year(y: int) -> bool {
    y % 4 == 0 && (y % 100 != 0 || y % 400 == 0)
}

pub open spec fn days_in_month(y: int, m: int) -> int {
    if m == 2 {
        if is_leap_year(y) {
            29
        } else {
            28
        }
    } else if m == 4 || m == 6 || m == 9 || m == 11 {
        30
    } else {
        31
    }
}

/// A well-formed date of the common era whose day exists in its month.
pub open spec fn date_valid(d: Date) -> bool {
    &&& 1 <= d.year <= 400_000
    &&& 1 <= d.month <= 12
    &&& 1 <= d.day <= days_in_month(d.year as int, d.month as int)
}

/// Chronological order on dates is lexicographic on (year, month, day).
pub open spec fn spec_date_le(a: Date, b: Date) -> bool {
    ||| a.year < b.year
    ||| (a.year == b.year && a.month < b.month)
    ||| (a.year == b.year && a.month == b.month && a.day <= b.day)
}

pub fn date_le(a: &Date, b: &Date) -> (r: bool)
    ensures
        r == spec_date_le(*a, *b),
{
    if a.year != b.year {
        a.year < b.year
    } else if a.month != b.month {
        a.month < b.month
    } else {
        a.day <= b.day
    }
}

/// Whether `d` falls in the half-open window `[start, end)`.
pub open spec fn spec_in_window(d: Date, start: Date, end: Date) -> bool {
    spec_date_le(start, d) && !spec_date_le(end, d)
}

pub fn in_window(d: &Date, start: &Date, end: &Date) -> (r: bool)
    ensures
        r == spec_in_window(*d, *start, *end),
{
    date_le(start, d) && !date_le(end, d)
}

pub open spec fn digit_char(d: nat) -> char {
    if d == 0 {
        '0'
    } else if d == 1 {
        '1'
    } else if d == 2 {
        '2'
    } else if d == 3 {
        '3'
    } else if d == 4 {
        '4'
    } else if d == 5 {
        '5'
    } else if d == 6 {
        '6'
    } else if d == 7 {
        '7'
    } else if d == 8 {
        '8'
    } else {
        '9'
    }
}

/// The usual decimal notation of a natural number, most significant digit
/// first, without leading zeros.
pub open spec fn dec_rep(n: nat) -> Seq<char>
    decreases n,
{
    if n < 10 {
        seq![digit_char(n)]
    } else {
        dec_rep(n / 10).push(digit_char(n % 10))
    }
}

fn digit_str(d: u64) -> (r: &'static str)
    requires
        d < 10,
    ensures
        r@ == seq![digit_char(d as nat)],
{
    proof {
        reveal_strlit("0");
        reveal_strlit("1");
        reveal_strlit("2");
        reveal_strlit("3");
        reveal_strlit("4");
        reveal_strlit("5");
        reveal_strlit("6");
        reveal_strlit("7");
        reveal_strlit("8");
        reveal_strlit("9");
    }
    let r: &'static str = if d == 0 {
        "0"
    } else if d == 1 {
        "1"
    } else if d == 2 {
        "2"
    } else if d == 3 {
        "3"
    } else if d == 4 {
        "4"
    } else if d == 5 {
        "5"
    } else if d == 6 {
        "6"
    } else if d == 7 {
        "7"
    } else if d == 8 {
        "8"
    } else {
        "9"
    };
    proof {
        assert(r@ =~= seq![digit_char(d as nat)]);
    }
    r
}

/// Renders `n` in decimal.
pub fn to_dec(n: u64) -> (s: String)
    ensures
        s@ == dec_rep(n as nat),
    decreases n,
{
    if n < 10 {
        String::from_str(digit_str(n))
    } else {
        let mut s = to_dec(n / 10);
        s.append(digit_str(n % 10));
        proof {
            assert(s@ =~= dec_rep(n as nat));
        }
        s
    }
}

/// Decimal notation padded with zeros on the left to at least two digits.
pub open spec fn pad2(n: nat) -> Seq<char> {
    if n < 10 {
        seq!['0'] + dec_rep(n)
    } else {
        dec_rep(n)
    }
}

/// Decimal notation padded with zeros on the left to at least four digits.
pub open spec fn pad4(n: nat) -> Seq<char> {
    if n < 10 {
        seq!['0', '0', '0'] + dec_rep(n)
    } else if n < 100 {
        seq!['0', '0'] + dec_rep(n)
    } else if n < 1000 {
        seq!['0'] + dec_rep(n)
    } else {
        dec_rep(n)
    }
}

fn pad2_exec(n: u64) -> (s: String)
    ensures
        s@ == pad2(n as nat),
{
    proof {
        reveal_strlit("0");
    }
    if n < 10 {
        let mut s = String::from_str("0");
        s.append(digit_str(n));
        proof {
            assert(s@ =~= pad2(n as nat));
        }
        s
    } else {
        to_dec(n)
    }
}

fn pad4_exec(n: u64) -> (s: String)
    ensures
        s@ == pad4(n as nat),
{
    proof {
        reveal_strlit("0");
        reveal_strlit("00");
        reveal_strlit("000");
    }
    if n < 10 {
        let mut s = String::from_str("000");
        s.append(digit_str(n));
        proof {
            assert(s@ =~= pad4(n as nat));
        }
        s
    } else if n < 100 {
        let mut s = String::from_str("00");
        let rest = to_dec(n);
        s.append(rest.as_str());
        proof {
            assert(s@ =~= pad4(n as nat));
        }
        s
    } else if n < 1000 {
        let mut s = String::from_str("0");
        let rest = to_dec(n);
        s.append(rest.as_str());
        proof {
            assert(s@ =~= pad4(n as nat));
        }
        s
    } else {
        to_dec(n)
    }
}

/// `YYYY-MM-DD`; years beyond four digits keep all their digits, and years
/// before the common era carry a leading minus sign.
pub open spec fn date_str(d: Date) -> Seq<char> {
    let year_part = if d.year < 0 {
        seq!['-'] + pad4((-d.year) as nat)
    } else {
        pad4(d.year as nat)
    };
    year_part + seq!['-'] + pad2(d.month as nat) + seq!['-'] + pad2(d.day as nat)
}

pub fn format_date(d: &Date) -> (s: String)
    ensures
        s@ == date_str(*d),
{
    proof {
        reveal_strlit("-");
    }
    let mut s = if d.year < 0 {
        let mut y = String::from_str("-");
        let mag: u64 = if d.year == i64::MIN {
            9223372036854775808u64
        } else {
            (-d.year) as u64
        };
        let digits = pad4_exec(mag);
        y.append(digits.as_str());
        y
    } else {
        pad4_exec(d.year as u64)
    };
    s.append("-");
    let m = pad2_exec(d.month as u64);
    s.append(m.as_str());
    s.append("-");
    let day = pad2_exec(d.day as u64);
    s.append(day.as_str());
    proof {
        assert(s@ =~= date_str(*d));
    }
    s
}

/// The calendar day after `d`.
pub open spec fn next_day_spec(d: Date) -> Date {
    if d.day < days_in_month(d.year as int, d.month as int) {
        Date { year: d.year, month: d.month, day: (d.day + 1) as u32 }
    } else if d.month < 12 {
        Date { year: d.year, month: (d.month + 1) as u32, day: 1 }
    } else {
        Date { year: (d.year + 1) as i64, month: 1, day: 1 }
    }
}

/// The calendar day `n` days after `d`.
pub open spec fn plus_days_spec(d: Date, n: nat) -> Date
    decreases n,
{
    if n == 0 {
        d
    } else {
        next_day_spec(plus_days_spec(d, (n - 1) as nat))
    }
}

fn days_in_month_exec(y: i64, m: u32) -> (r: u32)
    requires
        1 <= y,
        1 <= m <= 12,
    ensures
        r as int == days_in_month(y as int, m as int),
{
    if m == 2 {
        if y % 4 == 0 && (y % 100 != 0 || y % 400 == 0) {
            29
        } else {
            28
        }
    } else if m == 4 || m == 6 || m == 9 || m == 11 {
        30
    } else {
        31
    }
}

fn next_day(d: &Date) -> (r: Date)
    requires
        date_valid(*d),
        d.year < 500_000,
    ensures
        r == next_day_spec(*d),
        date_valid(r) || r.year == d.year + 1 && r.month == 1 && r.day == 1,
        r.year <= d.year + 1,
{
    if d.day < days_in_month_exec(d.year, d.month) {
        Date { year: d.year, month: d.month, day: d.day + 1 }
    } else if d.month < 12 {
        Date { year: d.year, month: d.month + 1, day: 1 }
    } else {
        Date { year: d.year + 1, month: 1, day: 1 }
    }
}

/// Steps the calendar forward `n` days.
pub fn plus_days(d: &Date, n: u32) -> (r: Date)
    requires
        date_valid(*d),
        d.year + n <= 400_000,
    ensures
        r == plus_days_spec(*d, n as nat),
        date_valid(r),
{
    let mut cur: Date = *d;
    let mut i: u32 = 0;
    while i < n
        invariant
            i <= n,
            cur == plus_days_spec(*d, i as nat),
            date_valid(cur),
            cur.year <= d.year + i,
            d.year + n <= 400_000,
            date_valid(*d),
        decreases n - i,
    {
        cur = next_day(&cur);
        i = i + 1;
    }
    cur
}

/// What chrono reads out of an RFC 3339 timestamp: the calendar day, in the
/// timestamp's own offset, or nothing when the text does not parse.
pub uninterp spec fn rfc3339_day(s: Seq<char>) -> Option<(int, int, int)>;

/// Relies on chrono's `DateTime::parse_from_rfc3339` with `date_naive` and
/// the `Datelike` accessors: strict RFC 3339 parsing, a function of the text
/// alone; `month` is within 1..=12, `day` within 1..=31, and the year within
/// chrono's documented range.
#[verifier::external_body]
pub(crate) fn parse_rfc3339_day(s: &str) -> (r: Option<Date>)
    ensures
        r is Some <==> rfc3339_day(s@) is Some,
        r matches Some(d) ==> rfc3339_day(s@) == Some(
            (d.year as int, d.month as int, d.day as int),
        ) && date_wf(d),
{
    match chrono::DateTime::parse_from_rfc3339(s) {
        Ok(dt) => {
            let nd = dt.date_naive();
            Some(Date { year: nd.year() as i64, month: nd.month(), day: nd.day() })
        },
        Err(_) => None,
    }
}

/// Relies on chrono's `Utc::now` with `date_naive`: the current civil date in
/// UTC, a valid calendar date of the common era within chrono's documented
/// year range. Which date comes back depends on the clock, so nothing more is
/// stated.
#[verifier::external_body]
pub fn today_utc() -> (r: Date)
    ensures
        date_valid(r),
        r.year <= 262_142,
{
    let nd = chrono::Utc::now().date_naive();
    Date { year: nd.year() as i64, month: nd.month(), day: nd.day() }
}

/// The report's date window: today and the day seven days out, a half-open
/// range covering the next seven calendar days.
pub fn upcoming_window() -> (r: (Date, Date))
    ensures
        date_valid(r.0),
        r.1 == plus_days_spec(r.0, 7),
        date_valid(r.1),
{
    let today = today_utc();
    let end = plus_days(&today, 7);
    (today, end)
}

} // verus!
