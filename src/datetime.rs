//! Timestamps as they appear in WHOIS records, and their lenient parsing.
use vstd::prelude::*;

verus! {

/// A UTC instant, to the nanosecond.
#[derive(Clone, Copy, Debug, PartialEq, Eq, Structural)]
pub struct DateTime {
    pub year: u16,
    pub month: u8,
    pub day: u8,
    pub hour: u8,
    pub minute: u8,
    pub second: u8,
    pub nanosecond: u32,
}

pub open spec fn is_digit(c: char) -> bool {
    '0' <= c && c <= '9'
}

pub open spec fn digit_value(c: char) -> int {
    (c as u32) as int - 48
}

pub open spec fn all_digits(s: Seq<char>, from: int, to: int) -> bool {
    forall|i: int| from <= i < to ==> is_digit(#[trigger] s[i])
}

/// The decimal number written in `s` from `from` up to, not including, `to`.
pub open spec fn number(s: Seq<char>, from: int, to: int) -> int
    decreases to - from,
{
    if to <= from {
        0
    } else {
        number(s, from, to - 1) * 10 + digit_value(s[to - 1])
    }
}

pub open spec fn pow10(n: nat) -> int
    decreases n,
{
    if n == 0 {
        1
    } else {
        10 * pow10((n - 1) as nat)
    }
}

pub open spec fn is_leap_year(y: int) -> bool {
    y % 4 == 0 && (y % 100 != 0 || y % 400 == 0)
}

pub open spec fn days_in_month(y: int, m: int) -> int {
    if m == 2 {
        if is_leap_year(y) {
            29
        } else {
            28
        }
    } else if m == 4 || m == 6 || m == 9 || m == 11 {
        30
    } else {
        31
    }
}

/// `YYYY-MM-DD` at the start of `s`.
pub open spec fn has_date(s: Seq<char>) -> bool {
    &&& s.len() >= 10
    &&& all_digits(s, 0, 4)
    &&& s[4] == '-'
    &&& all_digits(s, 5, 7)
    &&& s[7] == '-'
    &&& all_digits(s, 8, 10)
}

/// `THH:MM:SS` right after the date.
pub open spec fn has_time(s: Seq<char>) -> bool {
    &&& s.len() >= 19
    &&& (s[10] == 'T' || s[10] == 't')
    &&& all_digits(s, 11, 13)
    &&& s[13] == ':'
    &&& all_digits(s, 14, 16)
    &&& s[16] == ':'
    &&& all_digits(s, 17, 19)
}

pub open spec fn is_utc_mark(c: char) -> bool {
    c == 'Z' || c == 'z'
}

/// `YYYY-MM-DD`, read as midnight UTC.
pub open spec fn is_plain_date(s: Seq<char>) -> bool {
    has_date(s) && s.len() == 10
}

/// The end of the run of digits that starts at `i`.
pub open spec fn digits_end(s: Seq<char>, i: int) -> int
    decreases s.len() - i,
{
    if 0 <= i < s.len() && is_digit(s[i]) {
        digits_end(s, i + 1)
    } else {
        i
    }
}

/// The fraction of a second written from index 20 up to `e`, in
/// nanoseconds; digits past the ninth are dropped.
pub open spec fn fraction_nanos(s: Seq<char>, e: int) -> int {
    let k = if e > 29 {
        29
    } else {
        e
    };
    number(s, 20, k) * pow10((29 - k) as nat)
}

/// The UTC offset, in minutes east of UTC, written from index `e` to the end
/// of `s`: `Z`, or `+hh:mm` / `-hh:mm`.
pub open spec fn zone_offset(s: Seq<char>, e: int) -> Option<int> {
    if s.len() == e + 1 && is_utc_mark(s[e]) {
        Some(0)
    } else if s.len() == e + 6 && (s[e] == '+' || s[e] == '-') && all_digits(s, e + 1, e + 3)
        && s[e + 3] == ':' && all_digits(s, e + 4, e + 6) && number(s, e + 1, e + 3) < 24
        && number(s, e + 4, e + 6) < 60 {
        let m = number(s, e + 1, e + 3) * 60 + number(s, e + 4, e + 6);
        if s[e] == '+' {
            Some(m)
        } else {
            Some(-m)
        }
    } else {
        None
    }
}

/// The calendar day before `y-m-d`.
pub open spec fn prev_day(y: int, m: int, d: int) -> (int, int, int) {
    if d > 1 {
        (y, m, d - 1)
    } else if m > 1 {
        (y, m - 1, days_in_month(y, m - 1))
    } else {
        (y - 1, 12, 31)
    }
}

/// The calendar day after `y-m-d`.
pub open spec fn next_day(y: int, m: int, d: int) -> (int, int, int) {
    if d < days_in_month(y, m) {
        (y, m, d + 1)
    } else if m < 12 {
        (y, m + 1, 1)
    } else {
        (y + 1, 1, 1)
    }
}

/// The UTC instant of the local time `h:mi:se.ns` on the date written at the
/// start of `s`, at `off` minutes east of UTC, when all of it names a real
/// instant with a four-digit year.
pub open spec fn instant(s: Seq<char>, h: int, mi: int, se: int, ns: int, off: int) -> Option<
    DateTime,
> {
    let y = number(s, 0, 4);
    let mo = number(s, 5, 7);
    let d = number(s, 8, 10);
    if 1 <= mo <= 12 && 1 <= d <= days_in_month(y, mo) && h < 24 && mi < 60 && se < 60 {
        let t = h * 60 + mi - off;
        let day = if t < 0 {
            prev_day(y, mo, d)
        } else if t >= 1440 {
            next_day(y, mo, d)
        } else {
            (y, mo, d)
        };
        let u = if t < 0 {
            t + 1440
        } else if t >= 1440 {
            t - 1440
        } else {
            t
        };
        if 0 <= day.0 <= 9999 {
            Some(
                DateTime {
                    year: day.0 as u16,
                    month: day.1 as u8,
                    day: day.2 as u8,
                    hour: (u / 60) as u8,
                    minute: (u % 60) as u8,
                    second: se as u8,
                    nanosecond: ns as u32,
                },
            )
        } else {
            None
        }
    } else {
        None
    }
}

/// The instant a WHOIS date value names. Accepted: a plain date
/// `YYYY-MM-DD`, and RFC 3339 `YYYY-MM-DDTHH:MM:SS[.f]` followed by `Z` or a
/// numeric offset `±hh:mm`, read in UTC.
pub open spec fn date_of(s: Seq<char>) -> Option<DateTime> {
    if is_plain_date(s) {
        instant(s, 0, 0, 0, 0, 0)
    } else if has_date(s) && has_time(s) && s.len() > 19 {
        let frac = s[19] == '.';
        let e = if frac {
            digits_end(s, 20)
        } else {
            19
        };
        if frac && e == 20 {
            None
        } else {
            match zone_offset(s, e) {
                None => None,
                Some(off) => instant(
                    s,
                    number(s, 11, 13),
                    number(s, 14, 16),
                    number(s, 17, 19),
                    if frac {
                        fraction_nanos(s, e)
                    } else {
                        0
                    },
                    off,
                ),
            }
        }
    } else {
        None
    }
}

proof fn lemma_number_bound(s: Seq<char>, from: int, to: int)
    requires
        from <= to,
        all_digits(s, from, to),
    ensures
        0 <= number(s, from, to) < pow10((to - from) as nat),
    decreases to - from,
{
    if to > from {
        lemma_number_bound(s, from, to - 1);
        assert(is_digit(s[to - 1]));
        assert(pow10((to - from) as nat) == 10 * pow10((to - 1 - from) as nat));
    }
}

proof fn lemma_pow10_grows(a: nat, b: nat)
    requires
        a <= b,
    ensures
        1 <= pow10(a) <= pow10(b),
    decreases b,
{
    if b > a {
        lemma_pow10_grows(a, (b - 1) as nat);
    } else if a > 0 {
        lemma_pow10_grows((a - 1) as nat, (a - 1) as nat);
    }
}

/// True when every character from `from` up to `to` is a decimal digit.
pub fn digits_between(s: &[char], from: usize, to: usize) -> (r: bool)
    requires
        from <= to <= s.len(),
    ensures
        r == all_digits(s@, from as int, to as int),
{
    let mut i = from;
    while i < to
        invariant
            from <= i <= to <= s.len(),
            all_digits(s@, from as int, i as int),
        decreases to - i,
    {
        if !('0' <= s[i] && s[i] <= '9') {
            return false;
        }
        i = i + 1;
    }
    true
}

/// The decimal number written from `from` up to `to`; at most nine digits.
pub fn number_between(s: &[char], from: usize, to: usize) -> (r: u32)
    requires
        from <= to <= s.len(),
        to - from <= 9,
        all_digits(s@, from as int, to as int),
    ensures
        r == number(s@, from as int, to as int),
{
    proof {
        lemma_pow10_grows((to - from) as nat, 9);
        { reveal_with_fuel(pow10, 10); assert(pow10(9) == 1000000000); }
    }
    let mut acc: u32 = 0;
    let mut i = from;
    while i < to
        invariant
            from <= i <= to <= s.len(),
            to - from <= 9,
            all_digits(s@, from as int, to as int),
            acc == number(s@, from as int, i as int),
            pow10(9) == 1000000000,
        decreases to - i,
    {
        proof {
            assert(all_digits(s@, from as int, i + 1)) by {
                assert forall|k: int| from <= k < i + 1 implies is_digit(#[trigger] s@[k]) by {
                    assert(is_digit(s@[k]));
                }
            }
            lemma_number_bound(s@, from as int, i + 1);
            lemma_pow10_grows((i + 1 - from) as nat, 9);
            assert(is_digit(s@[i as int]));
        }
        acc = acc * 10 + ((s[i] as u32) - 48);
        i = i + 1;
    }
    acc
}

fn month_length(y: u32, m: u32) -> (r: u32)
    ensures
        r == days_in_month(y as int, m as int),
{
    if m == 2 {
        if y % 4 == 0 && (y % 100 != 0 || y % 400 == 0) {
            29
        } else {
            28
        }
    } else if m == 4 || m == 6 || m == 9 || m == 11 {
        30
    } else {
        31
    }
}

fn make_instant(s: &[char], h: u32, mi: u32, se: u32, ns: u32, off: i32) -> (r: Option<DateTime>)
    requires
        has_date(s@),
        h < 100,
        mi < 100,
        -1440 < off < 1440,
    ensures
        r == instant(s@, h as int, mi as int, se as int, ns as int, off as int),
{
    let y = number_between(s, 0, 4);
    let mo = number_between(s, 5, 7);
    let d = number_between(s, 8, 10);
    proof {
        lemma_number_bound(s@, 0, 4);
        lemma_number_bound(s@, 5, 7);
        lemma_number_bound(s@, 8, 10);
        reveal_with_fuel(pow10, 10);
    }
    if !(1 <= mo && mo <= 12 && 1 <= d && d <= month_length(y, mo) && h < 24 && mi < 60 && se
        < 60) {
        return None;
    }
    let t: i32 = (h * 60 + mi) as i32 - off;
    let (yy, mm, dd, u): (i64, u32, u32, i32) = if t < 0 {
        if d > 1 {
            (y as i64, mo, d - 1, t + 1440)
        } else if mo > 1 {
            (y as i64, mo - 1, month_length(y, mo - 1), t + 1440)
        } else {
            (y as i64 - 1, 12, 31, t + 1440)
        }
    } else if t >= 1440 {
        if d < month_length(y, mo) {
            (y as i64, mo, d + 1, t - 1440)
        } else if mo < 12 {
            (y as i64, mo + 1, 1, t - 1440)
        } else {
            (y as i64 + 1, 1, 1, t - 1440)
        }
    } else {
        (y as i64, mo, d, t)
    };
    if 0 <= yy && yy <= 9999 {
        Some(
            DateTime {
                year: yy as u16,
                month: mm as u8,
                day: dd as u8,
                hour: (u / 60) as u8,
                minute: (u % 60) as u8,
                second: se as u8,
                nanosecond: ns,
            },
        )
    } else {
        None
    }
}

/// The end of the run of digits that starts at `i`.
fn digits_run_end(s: &[char], i: usize) -> (r: usize)
    requires
        i <= s.len(),
    ensures
        r == digits_end(s@, i as int),
        i <= r <= s.len(),
{
    let mut j = i;
    while j < s.len() && '0' <= s[j] && s[j] <= '9'
        invariant
            i <= j <= s.len(),
            digits_end(s@, i as int) == digits_end(s@, j as int),
        decreases s.len() - j,
    {
        j = j + 1;
    }
    j
}

/// The UTC offset written from index `e` to the end of `s`.
fn zone_at(s: &[char], e: usize) -> (r: Option<i32>)
    requires
        e <= s.len(),
    ensures
        match r {
            Some(v) => zone_offset(s@, e as int) == Some(v as int) && -1440 < v < 1440,
            None => zone_offset(s@, e as int) is None,
        },
{
    let n = s.len();
    if n - e == 1 && (s[e] == 'Z' || s[e] == 'z') {
        return Some(0);
    }
    if n - e == 6 && (s[e] == '+' || s[e] == '-') && digits_between(s, e + 1, e + 3) && s[e + 3]
        == ':' && digits_between(s, e + 4, e + 6) {
        let hh = number_between(s, e + 1, e + 3);
        let mm = number_between(s, e + 4, e + 6);
        if hh < 24 && mm < 60 {
            let m = (hh * 60 + mm) as i32;
            if s[e] == '+' {
                return Some(m);
            } else {
                return Some(-m);
            }
        }
    }
    None
}

fn date_at_start(s: &[char]) -> (r: bool)
    ensures
        r == has_date(s@),
{
    s.len() >= 10 && digits_between(s, 0, 4) && s[4] == '-' && digits_between(s, 5, 7) && s[7]
        == '-' && digits_between(s, 8, 10)
}

fn time_after_date(s: &[char]) -> (r: bool)
    ensures
        r == has_time(s@),
{
    s.len() >= 19 && (s[10] == 'T' || s[10] == 't') && digits_between(s, 11, 13) && s[13] == ':'
        && digits_between(s, 14, 16) && s[16] == ':' && digits_between(s, 17, 19)
}

/// Parses a WHOIS date value; `None` when it matches none of the accepted formats.
pub fn parse_datetime(s: &[char]) -> (r: Option<DateTime>)
    ensures
        r == date_of(s@),
{
    if !date_at_start(s) {
        return None;
    }
    let n = s.len();
    if n == 10 {
        return make_instant(s, 0, 0, 0, 0, 0);
    }
    if !(time_after_date(s) && n > 19) {
        return None;
    }
    let h = number_between(s, 11, 13);
    let mi = number_between(s, 14, 16);
    let se = number_between(s, 17, 19);
    proof {
        lemma_number_bound(s@, 11, 13);
        lemma_number_bound(s@, 14, 16);
        reveal_with_fuel(pow10, 3);
    }
    let frac = s[19] == '.';
    let mut e: usize = 19;
    let mut ns: u32 = 0;
    if frac {
        e = digits_run_end(s, 20);
        if e == 20 {
            return None;
        }
        let k: usize = if e > 29 {
            29
        } else {
            e
        };
        assert(all_digits(s@, 20, k as int)) by {
            lemma_digits_end(s@, 20);
        }
        let f = number_between(s, 20, k);
        let mut scale: u32 = 1;
        let mut j: usize = k;
        proof {
            lemma_number_bound(s@, 20, k as int);
        }
        while j < 29
            invariant
                21 <= k <= j <= 29,
                scale == pow10((j - k) as nat),
                f < pow10((k - 20) as nat),
            decreases 29 - j,
        {
            proof {
                assert(pow10((j + 1 - k) as nat) == 10 * pow10((j - k) as nat));
                lemma_pow10_grows((j + 1 - k) as nat, 8);
                reveal_with_fuel(pow10, 10);
            }
            scale = scale * 10;
            j = j + 1;
        }
        proof {
            assert(f * scale < pow10(9)) by {
                lemma_pow10_grows(0, (29 - k) as nat);
                lemma_pow10_add((k - 20) as nat, (29 - k) as nat);
                assert(f * scale < pow10((k - 20) as nat) * scale) by (nonlinear_arith)
                    requires
                        f < pow10((k - 20) as nat),
                        scale >= 1,
                ;
            }
            reveal_with_fuel(pow10, 10);
        }
        ns = f * scale;
    }
    match zone_at(s, e) {
        None => None,
        Some(off) => make_instant(s, h, mi, se, ns, off),
    }
}

proof fn lemma_digits_end(s: Seq<char>, i: int)
    requires
        0 <= i <= s.len(),
    ensures
        i <= digits_end(s, i) <= s.len(),
        all_digits(s, i, digits_end(s, i)),
    decreases s.len() - i,
{
    if i < s.len() && is_digit(s[i]) {
        lemma_digits_end(s, i + 1);
    }
}

proof fn lemma_pow10_add(a: nat, b: nat)
    ensures
        pow10(a) * pow10(b) == pow10(a + b),
    decreases b,
{
    if b > 0 {
        lemma_pow10_add(a, (b - 1) as nat);
        assert(pow10(b) == 10 * pow10((b - 1) as nat));
        assert(pow10(a + b) == 10 * pow10((a + b - 1) as nat));
        assert(pow10(a) * (10 * pow10((b - 1) as nat)) == 10 * (pow10(a) * pow10((b - 1) as nat)))
            by (nonlinear_arith);
    }
}

} // verus!
