//! Calendar model and the two date formats on the wire: the fixed
//! RFC2822-like pattern used by the inbound webhook (`Mon, 17 Feb 2014
//! 07:25:01 -05:00`), and the ISO-8601 timestamps of send receipts.
//! Parsed values are normalized to UTC.

use vstd::prelude::*;
use crate::text::{
    chars_to_string, dec_digits, digit_val, four_digits, is_dec_digit, push_dec_u64,
    push_str_chars, push_two_digits, str_to_chars, two_digits,
};

verus! {

/// An instant in UTC, kept as normalized calendar components.
#[derive(PartialEq, Eq, Structural, Copy, Clone, Debug)]
pub struct UtcDateTime {
    pub year: u16,
    pub month: u8,
    pub day: u8,
    pub hour: u8,
    pub minute: u8,
    pub second: u8,
    pub nanosecond: u32,
}

pub open spec fn is_leap_year(y: int) -> bool {
    (y % 4 == 0 && y % 100 != 0) || y % 400 == 0
}

pub open spec fn days_in_month(y: int, m: int) -> int {
    if m == 2 {
        if is_leap_year(y) {
            29
        } else {
            28
        }
    } else if m == 4 || m == 6 || m == 9 || m == 11 {
        30
    } else {
        31
    }
}

impl UtcDateTime {
    /// Valid calendar components in the supported range of years.
    pub open spec fn wf(self) -> bool {
        &&& 1 <= self.year <= 9999
        &&& 1 <= self.month <= 12
        &&& 1 <= self.day <= days_in_month(self.year as int, self.month as int)
        &&& self.hour < 24
        &&& self.minute < 60
        &&& self.second < 60
        &&& self.nanosecond < 1000000000
    }
}

/// Days since 0000-03-01 of the proleptic Gregorian calendar
/// (meaningful for valid dates with `y >= 1`).
pub open spec fn days_from_civil(y: int, m: int, d: int) -> int {
    let yy = if m <= 2 {
        y - 1
    } else {
        y
    };
    let era = yy / 400;
    let yoe = yy - era * 400;
    let mp = if m > 2 {
        m - 3
    } else {
        m + 9
    };
    let doy = (153 * mp + 2) / 5 + d - 1;
    let doe = yoe * 365 + yoe / 4 - yoe / 100 + doy;
    era * 146097 + doe
}

/// Weekday index of a date: 0 is Wednesday, 1 Thursday, ... 6 Tuesday.
pub open spec fn weekday_of(y: int, m: int, d: int) -> int {
    days_from_civil(y, m, d) % 7
}

pub open spec fn weekday_abbrev(w: int) -> Seq<char> {
    if w == 0 {
        "Wed"@
    } else if w == 1 {
        "Thu"@
    } else if w == 2 {
        "Fri"@
    } else if w == 3 {
        "Sat"@
    } else if w == 4 {
        "Sun"@
    } else if w == 5 {
        "Mon"@
    } else {
        "Tue"@
    }
}

pub open spec fn month_abbrev(m: int) -> Seq<char> {
    if m == 1 {
        "Jan"@
    } else if m == 2 {
        "Feb"@
    } else if m == 3 {
        "Mar"@
    } else if m == 4 {
        "Apr"@
    } else if m == 5 {
        "May"@
    } else if m == 6 {
        "Jun"@
    } else if m == 7 {
        "Jul"@
    } else if m == 8 {
        "Aug"@
    } else if m == 9 {
        "Sep"@
    } else if m == 10 {
        "Oct"@
    } else if m == 11 {
        "Nov"@
    } else {
        "Dec"@
    }
}

pub open spec fn match_weekday(c0: char, c1: char, c2: char) -> Option<int> {
    if c0 == 'W' && c1 == 'e' && c2 == 'd' {
        Some(0int)
    } else if c0 == 'T' && c1 == 'h' && c2 == 'u' {
        Some(1int)
    } else if c0 == 'F' && c1 == 'r' && c2 == 'i' {
        Some(2int)
    } else if c0 == 'S' && c1 == 'a' && c2 == 't' {
        Some(3int)
    } else if c0 == 'S' && c1 == 'u' && c2 == 'n' {
        Some(4int)
    } else if c0 == 'M' && c1 == 'o' && c2 == 'n' {
        Some(5int)
    } else if c0 == 'T' && c1 == 'u' && c2 == 'e' {
        Some(6int)
    } else {
        None
    }
}

pub open spec fn match_month(c0: char, c1: char, c2: char) -> Option<int> {
    if c0 == 'J' && c1 == 'a' && c2 == 'n' {
        Some(1int)
    } else if c0 == 'F' && c1 == 'e' && c2 == 'b' {
        Some(2int)
    } else if c0 == 'M' && c1 == 'a' && c2 == 'r' {
        Some(3int)
    } else if c0 == 'A' && c1 == 'p' && c2 == 'r' {
        Some(4int)
    } else if c0 == 'M' && c1 == 'a' && c2 == 'y' {
        Some(5int)
    } else if c0 == 'J' && c1 == 'u' && c2 == 'n' {
        Some(6int)
    } else if c0 == 'J' && c1 == 'u' && c2 == 'l' {
        Some(7int)
    } else if c0 == 'A' && c1 == 'u' && c2 == 'g' {
        Some(8int)
    } else if c0 == 'S' && c1 == 'e' && c2 == 'p' {
        Some(9int)
    } else if c0 == 'O' && c1 == 'c' && c2 == 't' {
        Some(10int)
    } else if c0 == 'N' && c1 == 'o' && c2 == 'v' {
        Some(11int)
    } else if c0 == 'D' && c1 == 'e' && c2 == 'c' {
        Some(12int)
    } else {
        None
    }
}

/// The date one day later (meaningful for valid dates).
pub open spec fn next_day(y: int, m: int, d: int) -> (int, int, int) {
    if d < days_in_month(y, m) {
        (y, m, d + 1)
    } else if m < 12 {
        (y, m + 1, 1)
    } else {
        (y + 1, 1, 1)
    }
}

/// The date one day earlier (meaningful for valid dates).
pub open spec fn prev_day(y: int, m: int, d: int) -> (int, int, int) {
    if d > 1 {
        (y, m, d - 1)
    } else if m > 1 {
        (y, m - 1, days_in_month(y, m - 1))
    } else {
        (y - 1, 12, 31)
    }
}

/// Shifts local calendar components by the offset `off_min` (minutes
/// east of UTC) to the equivalent UTC components; `None` when the
/// result leaves the supported range of years.
pub open spec fn to_utc(
    y: int,
    m: int,
    d: int,
    hh: int,
    mi: int,
    ss: int,
    nanos: int,
    off_min: int,
) -> Option<UtcDateTime> {
    let tod = hh * 3600 + mi * 60 + ss - off_min * 60;
    if 0 <= tod < 86400 {
        Some(utc_parts(y, m, d, tod, nanos))
    } else if tod < 0 {
        let (y2, m2, d2) = prev_day(y, m, d);
        if y2 < 1 {
            None
        } else {
            Some(utc_parts(y2, m2, d2, tod + 86400, nanos))
        }
    } else {
        let (y2, m2, d2) = next_day(y, m, d);
        if y2 > 9999 {
            None
        } else {
            Some(utc_parts(y2, m2, d2, tod - 86400, nanos))
        }
    }
}

pub open spec fn utc_parts(y: int, m: int, d: int, tod: int, nanos: int) -> UtcDateTime {
    UtcDateTime {
        year: y as u16,
        month: m as u8,
        day: d as u8,
        hour: (tod / 3600) as u8,
        minute: ((tod / 60) % 60) as u8,
        second: (tod % 60) as u8,
        nanosecond: nanos as u32,
    }
}

/// Everything the wire pattern carries after the day-of-month field.
pub open spec fn format_tail(t: UtcDateTime) -> Seq<char> {
    " "@ + month_abbrev(t.month as int) + " "@ + four_digits(t.year as int) + " "@ + two_digits(
        t.hour as int,
    ) + ":"@ + two_digits(t.minute as int) + ":"@ + two_digits(t.second as int) + " +00:00"@
}

/// The fixed date pattern of the inbound webhook, always emitted with a
/// `+00:00` offset since only the UTC instant is retained.
pub open spec fn format_spec(t: UtcDateTime) -> Seq<char> {
    weekday_abbrev(weekday_of(t.year as int, t.month as int, t.day as int)) + ", "@ + dec_digits(
        t.day as int,
    ) + format_tail(t)
}

/// Scan of everything after the day-of-month field: space, month name,
/// space, 4-digit year, space, `HH:MM:SS`, space, and a `+HHMM` or
/// `+HH:MM` numeric offset ending the text. The weekday name scanned
/// earlier must be well-formed but is not reconciled with the date:
/// the date fields alone decide the instant.
pub open spec fn parse_tail(rest: Seq<char>, wd: int, day: int) -> Option<UtcDateTime> {
    if rest.len() != 24 && rest.len() != 25 {
        None
    } else if rest[0] != ' ' || match_month(rest[1], rest[2], rest[3]) is None || rest[4] != ' '
        || !is_dec_digit(rest[5]) || !is_dec_digit(rest[6]) || !is_dec_digit(rest[7])
        || !is_dec_digit(rest[8]) || rest[9] != ' ' || !is_dec_digit(rest[10]) || !is_dec_digit(
        rest[11],
    ) || rest[12] != ':' || !is_dec_digit(rest[13]) || !is_dec_digit(rest[14]) || rest[15] != ':'
        || !is_dec_digit(rest[16]) || !is_dec_digit(rest[17]) || rest[18] != ' ' || !(rest[19]
        == '+' || rest[19] == '-') || !is_dec_digit(rest[20]) || !is_dec_digit(rest[21]) {
        None
    } else {
        let m = match_month(rest[1], rest[2], rest[3])->Some_0;
        let y = digit_val(rest[5]) * 1000 + digit_val(rest[6]) * 100 + digit_val(rest[7]) * 10
            + digit_val(rest[8]);
        let hh = digit_val(rest[10]) * 10 + digit_val(rest[11]);
        let mi = digit_val(rest[13]) * 10 + digit_val(rest[14]);
        let ss = digit_val(rest[16]) * 10 + digit_val(rest[17]);
        let oh = digit_val(rest[20]) * 10 + digit_val(rest[21]);
        let om = if rest.len() == 24 {
            if is_dec_digit(rest[22]) && is_dec_digit(rest[23]) {
                Some(digit_val(rest[22]) * 10 + digit_val(rest[23]))
            } else {
                None
            }
        } else {
            if rest[22] == ':' && is_dec_digit(rest[23]) && is_dec_digit(rest[24]) {
                Some(digit_val(rest[23]) * 10 + digit_val(rest[24]))
            } else {
                None
            }
        };
        if om is None {
            None
        } else {
            let omv = om->Some_0;
            if !(1 <= y <= 9999 && 1 <= day <= days_in_month(y, m) && hh < 24 && mi < 60 && ss < 60
                && oh <= 23 && omv <= 59) {
                None
            } else {
                let off = if rest[19] == '+' {
                    oh * 60 + omv
                } else {
                    -(oh * 60 + omv)
                };
                to_utc(y, m, day, hh, mi, ss, 0, off)
            }
        }
    }
}

/// Scan of the full pattern: a well-formed weekday name, `, `, day of
/// month without padding, and the tail of [`parse_tail`].
pub open spec fn parse_spec(s: Seq<char>) -> Option<UtcDateTime> {
    if s.len() < 7 {
        None
    } else if match_weekday(s[0], s[1], s[2]) is None || s[3] != ',' || s[4] != ' '
        || !is_dec_digit(s[5]) {
        None
    } else {
        let wd = match_weekday(s[0], s[1], s[2])->Some_0;
        if is_dec_digit(s[6]) {
            parse_tail(s.skip(7), wd, digit_val(s[5]) * 10 + digit_val(s[6]))
        } else {
            parse_tail(s.skip(6), wd, digit_val(s[5]))
        }
    }
}

proof fn lemma_weekday_bounds(y: int, m: int, d: int)
    requires
        1 <= y <= 9999,
        1 <= m <= 12,
        1 <= d <= 31,
    ensures
        days_from_civil(y, m, d) >= 0,
        0 <= weekday_of(y, m, d) < 7,
{
    let yy = if m <= 2 {
        y - 1
    } else {
        y
    };
    let era = yy / 400;
    vstd::arithmetic::div_mod::lemma_fundamental_div_mod(yy, 400);
    assert(yy - era * 400 >= 0);
    assert(days_from_civil(y, m, d) >= 0);
    vstd::arithmetic::div_mod::lemma_mod_bound(days_from_civil(y, m, d), 7);
}

/// Four decimal digits recombine to their value.
proof fn lemma_four_digit_split(y: int)
    requires
        0 <= y < 10000,
    ensures
        (y / 1000) * 1000 + ((y / 100) % 10) * 100 + ((y / 10) % 10) * 10 + y % 10 == y,
        0 <= y / 1000 < 10,
        0 <= (y / 100) % 10 < 10,
        0 <= (y / 10) % 10 < 10,
        0 <= y % 10 < 10,
{
    vstd::arithmetic::div_mod::lemma_fundamental_div_mod(y, 10);
    vstd::arithmetic::div_mod::lemma_fundamental_div_mod(y / 10, 10);
    vstd::arithmetic::div_mod::lemma_fundamental_div_mod(y / 100, 10);
    assert(y / 10 / 10 == y / 100) by {
        vstd::arithmetic::div_mod::lemma_div_denominator(y, 10, 10);
    }
    assert(y / 100 / 10 == y / 1000) by {
        vstd::arithmetic::div_mod::lemma_div_denominator(y, 100, 10);
    }
    vstd::arithmetic::div_mod::lemma_mod_bound(y, 10);
    vstd::arithmetic::div_mod::lemma_mod_bound(y / 10, 10);
    vstd::arithmetic::div_mod::lemma_mod_bound(y / 100, 10);
}

/// Two decimal digits recombine to their value.
proof fn lemma_two_digit_split(n: int)
    requires
        0 <= n < 100,
    ensures
        (n / 10) * 10 + n % 10 == n,
        0 <= n / 10 < 10,
        0 <= n % 10 < 10,
{
    vstd::arithmetic::div_mod::lemma_fundamental_div_mod(n, 10);
    vstd::arithmetic::div_mod::lemma_mod_bound(n, 10);
}

/// The time of day built from valid `h:mi:s` components splits back
/// into them.
proof fn lemma_tod_split(h: int, mi: int, s: int)
    requires
        0 <= h < 24,
        0 <= mi < 60,
        0 <= s < 60,
    ensures
        (h * 3600 + mi * 60 + s) / 3600 == h,
        ((h * 3600 + mi * 60 + s) / 60) % 60 == mi,
        (h * 3600 + mi * 60 + s) % 60 == s,
{
    let tod = h * 3600 + mi * 60 + s;
    vstd::arithmetic::div_mod::lemma_fundamental_div_mod_converse(tod, 3600, h, mi * 60 + s);
    vstd::arithmetic::div_mod::lemma_fundamental_div_mod_converse(tod, 60, h * 60 + mi, s);
    vstd::arithmetic::div_mod::lemma_fundamental_div_mod_converse(h * 60 + mi, 60, h, mi);
}

/// The tail scan reads back exactly what the format wrote, and the
/// `+00:00` offset leaves the components unchanged.
#[verifier::spinoff_prover]
#[verifier::rlimit(100)]
proof fn lemma_format_tail_parses(t: UtcDateTime)
    requires
        t.wf(),
        t.nanosecond == 0,
    ensures
        format_tail(t).len() == 25,
        parse_tail(
            format_tail(t),
            weekday_of(t.year as int, t.month as int, t.day as int),
            t.day as int,
        ) == Some(t),
{
    let y = t.year as int;
    let m = t.month as int;
    let d = t.day as int;
    let wd = weekday_of(y, m, d);
    reveal_strlit("Jan");
    reveal_strlit("Feb");
    reveal_strlit("Mar");
    reveal_strlit("Apr");
    reveal_strlit("May");
    reveal_strlit("Jun");
    reveal_strlit("Jul");
    reveal_strlit("Aug");
    reveal_strlit("Sep");
    reveal_strlit("Oct");
    reveal_strlit("Nov");
    reveal_strlit("Dec");
    reveal_strlit(" ");
    reveal_strlit(":");
    reveal_strlit(" +00:00");
    let tail = format_tail(t);
    assert(tail.len() == 25);
    assert(tail[0] == ' ');
    assert(match_month(tail[1], tail[2], tail[3]) == Some(m));
    assert(tail[4] == ' ');
    lemma_four_digit_split(y);
    assert(tail[5] == four_digits(y)[0] && tail[6] == four_digits(y)[1] && tail[7] == four_digits(
        y,
    )[2] && tail[8] == four_digits(y)[3]);
    assert(digit_val(tail[5]) * 1000 + digit_val(tail[6]) * 100 + digit_val(tail[7]) * 10
        + digit_val(tail[8]) == y);
    assert(tail[9] == ' ');
    lemma_two_digit_split(t.hour as int);
    lemma_two_digit_split(t.minute as int);
    lemma_two_digit_split(t.second as int);
    assert(digit_val(tail[10]) * 10 + digit_val(tail[11]) == t.hour as int);
    assert(tail[12] == ':');
    assert(digit_val(tail[13]) * 10 + digit_val(tail[14]) == t.minute as int);
    assert(tail[15] == ':');
    assert(digit_val(tail[16]) * 10 + digit_val(tail[17]) == t.second as int);
    assert(tail[18] == ' ');
    assert(tail[19] == '+');
    assert(digit_val(tail[20]) == 0 && digit_val(tail[21]) == 0);
    assert(tail[22] == ':');
    assert(digit_val(tail[23]) == 0 && digit_val(tail[24]) == 0);
    let hh = t.hour as int;
    let mi = t.minute as int;
    let ss = t.second as int;
    lemma_tod_split(hh, mi, ss);
    assert(to_utc(y, m, d, hh, mi, ss, 0, 0) == Some(t));
    assert(parse_tail(tail, wd, d) == Some(t));
}

/// Round trip of the date codec: parsing the emitted wire form of a
/// valid UTC instant yields the same instant. The pattern carries no
/// sub-second part, so this holds for whole-second instants, which is
/// everything the inbound wire format can produce.
#[verifier::spinoff_prover]
#[verifier::rlimit(100)]
pub proof fn lemma_date_round_trip(t: UtcDateTime)
    requires
        t.wf(),
        t.nanosecond == 0,
    ensures
        parse_spec(format_spec(t)) == Some(t),
{
    let y = t.year as int;
    let m = t.month as int;
    let d = t.day as int;
    let wd = weekday_of(y, m, d);
    lemma_weekday_bounds(y, m, d);
    reveal_strlit("Wed");
    reveal_strlit("Thu");
    reveal_strlit("Fri");
    reveal_strlit("Sat");
    reveal_strlit("Sun");
    reveal_strlit("Mon");
    reveal_strlit("Tue");
    reveal_strlit(", ");
    reveal_strlit(" ");
    let s = format_spec(t);
    let abbr = weekday_abbrev(wd);
    assert(abbr.len() == 3);
    lemma_two_digit_split(d);
    reveal_with_fuel(crate::text::dec_digits, 3);
    let ds = dec_digits(d);
    assert(d < 10 ==> ds =~= seq![crate::text::digit_char(d)]);
    assert(d >= 10 ==> ds =~= seq![
        crate::text::digit_char(d / 10),
        crate::text::digit_char(d % 10),
    ]);
    let dlen = ds.len() as int;
    let tail = format_tail(t);
    assert(tail.len() == 25) by {
        lemma_format_tail_parses(t);
    }
    assert(s.len() == 5 + dlen + 25);
    assert(match_weekday(s[0], s[1], s[2]) == Some(wd));
    assert(s[3] == ',' && s[4] == ' ');
    assert(s[5] == ds[0]);
    assert(is_dec_digit(ds[0]));
    if d >= 10 {
        assert(s[6] == ds[1]);
        assert(is_dec_digit(s[6]));
        assert(digit_val(s[5]) * 10 + digit_val(s[6]) == d);
    } else {
        assert(s[6] == tail[0]);
        assert(tail[0] == ' ');
        assert(!is_dec_digit(s[6]));
        assert(digit_val(s[5]) == d);
    }
    assert(s.skip(5 + dlen) =~= tail);
    lemma_format_tail_parses(t);
    assert(parse_spec(s) == Some(t));
}

pub open spec fn pow10(k: int) -> int
    decreases k,
{
    if k <= 0 {
        1
    } else {
        10 * pow10(k - 1)
    }
}

/// Consumes decimal digits from position `i` on, accumulating their
/// value and count; yields the accumulator, the count, and the first
/// position not consumed.
pub open spec fn scan_frac(s: Seq<char>, i: int, acc: int, count: int) -> (int, int, int)
    decreases s.len() - i,
{
    if 0 <= i < s.len() && is_dec_digit(s[i]) {
        scan_frac(s, i + 1, acc * 10 + digit_val(s[i]), count + 1)
    } else {
        (acc, count, i)
    }
}

/// Scan of the offset part of an ISO-8601 timestamp starting at `j`:
/// either `Z` (in either case) or a signed `+HH:MM` offset, ending
/// the text.
pub open spec fn iso_offset(s: Seq<char>, j: int) -> Option<int> {
    if j < s.len() && (s[j] == 'Z' || s[j] == 'z') && s.len() == j + 1 {
        Some(0int)
    } else if s.len() == j + 6 && (s[j] == '+' || s[j] == '-') && is_dec_digit(s[j + 1])
        && is_dec_digit(s[j + 2]) && s[j + 3] == ':' && is_dec_digit(s[j + 4]) && is_dec_digit(
        s[j + 5],
    ) {
        let oh = digit_val(s[j + 1]) * 10 + digit_val(s[j + 2]);
        let om = digit_val(s[j + 4]) * 10 + digit_val(s[j + 5]);
        if oh <= 23 && om <= 59 {
            if s[j] == '+' {
                Some(oh * 60 + om)
            } else {
                Some(-(oh * 60 + om))
            }
        } else {
            None
        }
    } else {
        None
    }
}

/// The fixed positions of an ISO-8601 timestamp: `YYYY-MM-DDTHH:MM:SS`.
pub open spec fn iso_head_ok(s: Seq<char>) -> bool {
    &&& s.len() >= 20
    &&& is_dec_digit(s[0])
    &&& is_dec_digit(s[1])
    &&& is_dec_digit(s[2])
    &&& is_dec_digit(s[3])
    &&& s[4] == '-'
    &&& is_dec_digit(s[5])
    &&& is_dec_digit(s[6])
    &&& s[7] == '-'
    &&& is_dec_digit(s[8])
    &&& is_dec_digit(s[9])
    &&& s[10] == 'T'
    &&& is_dec_digit(s[11])
    &&& is_dec_digit(s[12])
    &&& s[13] == ':'
    &&& is_dec_digit(s[14])
    &&& is_dec_digit(s[15])
    &&& s[16] == ':'
    &&& is_dec_digit(s[17])
    &&& is_dec_digit(s[18])
}

/// The numeric fields of the head: year, month, day, hour, minute, second.
pub open spec fn iso_fields(s: Seq<char>) -> (int, int, int, int, int, int) {
    (
        digit_val(s[0]) * 1000 + digit_val(s[1]) * 100 + digit_val(s[2]) * 10 + digit_val(s[3]),
        digit_val(s[5]) * 10 + digit_val(s[6]),
        digit_val(s[8]) * 10 + digit_val(s[9]),
        digit_val(s[11]) * 10 + digit_val(s[12]),
        digit_val(s[14]) * 10 + digit_val(s[15]),
        digit_val(s[17]) * 10 + digit_val(s[18]),
    )
}

/// The optional fractional-second part after the head: `None` where a
/// fraction is marked but has no digits or more than nine; otherwise
/// the nanosecond value and the position after the fraction.
pub open spec fn iso_frac(s: Seq<char>) -> Option<(int, int)> {
    if s[19] == '.' {
        let (acc, count, j) = scan_frac(s, 20, 0, 0);
        if 1 <= count <= 9 {
            Some((acc * pow10(9 - count), j))
        } else {
            None
        }
    } else {
        Some((0int, 19int))
    }
}

/// Scan of an ISO-8601 timestamp `YYYY-MM-DDTHH:MM:SS[.frac](Z|+HH:MM)`,
/// with 1 to 9 fractional digits, normalized to UTC.
pub open spec fn iso_parse_spec(s: Seq<char>) -> Option<UtcDateTime> {
    if !iso_head_ok(s) {
        None
    } else {
        let (y, mo, d, hh, mi, ss) = iso_fields(s);
        match iso_frac(s) {
            None => None,
            Some((nanos, j)) => match iso_offset(s, j) {
                None => None,
                Some(off) => {
                    if 1 <= y && 1 <= mo <= 12 && 1 <= d <= days_in_month(y, mo) && hh < 24 && mi
                        < 60 && ss < 60 && 0 <= nanos < 1000000000 {
                        to_utc(y, mo, d, hh, mi, ss, nanos, off)
                    } else {
                        None
                    }
                },
            },
        }
    }
}

/// Parses an ISO-8601 timestamp such as the `SubmittedAt` field of a
/// send receipt, per [`iso_parse_spec`], normalizing to UTC.
pub fn parse_iso_utc(s: &str) -> (r: Result<UtcDateTime, String>)
    ensures
        match r {
            Ok(t) => iso_parse_spec(s@) == Some(t) && t.wf(),
            Err(_) => iso_parse_spec(s@) is None,
        },
{
    let cs = str_to_chars(s);
    match parse_iso_chars(&cs) {
        Some(t) => Ok(t),
        None => Err(String::from_str("invalid timestamp")),
    }
}

#[verifier::spinoff_prover]
#[verifier::rlimit(100)]
fn parse_iso_chars(cs: &Vec<char>) -> (r: Option<UtcDateTime>)
    ensures
        match r {
            Some(t) => iso_parse_spec(cs@) == Some(t) && t.wf(),
            None => iso_parse_spec(cs@) is None,
        },
{
    if cs.len() < 20 {
        return None;
    }
    let y = {
        let a = match digit_at(cs, 0) {
            Some(v) => v,
            None => {
                return None;
            },
        };
        let b = match digit_at(cs, 1) {
            Some(v) => v,
            None => {
                return None;
            },
        };
        let c = match digit_at(cs, 2) {
            Some(v) => v,
            None => {
                return None;
            },
        };
        let d = match digit_at(cs, 3) {
            Some(v) => v,
            None => {
                return None;
            },
        };
        a as u16 * 1000 + b as u16 * 100 + c as u16 * 10 + d as u16
    };
    if !(cs[4] == '-') {
        return None;
    }
    let mo = {
        let a = match digit_at(cs, 5) {
            Some(v) => v,
            None => {
                return None;
            },
        };
        let b = match digit_at(cs, 6) {
            Some(v) => v,
            None => {
                return None;
            },
        };
        a * 10 + b
    };
    if !(cs[7] == '-') {
        return None;
    }
    let d = {
        let a = match digit_at(cs, 8) {
            Some(v) => v,
            None => {
                return None;
            },
        };
        let b = match digit_at(cs, 9) {
            Some(v) => v,
            None => {
                return None;
            },
        };
        a * 10 + b
    };
    if !(cs[10] == 'T') {
        return None;
    }
    let hh = {
        let a = match digit_at(cs, 11) {
            Some(v) => v,
            None => {
                return None;
            },
        };
        let b = match digit_at(cs, 12) {
            Some(v) => v,
            None => {
                return None;
            },
        };
        a * 10 + b
    };
    if !(cs[13] == ':') {
        return None;
    }
    let mi = {
        let a = match digit_at(cs, 14) {
            Some(v) => v,
            None => {
                return None;
            },
        };
        let b = match digit_at(cs, 15) {
            Some(v) => v,
            None => {
                return None;
            },
        };
        a * 10 + b
    };
    if !(cs[16] == ':') {
        return None;
    }
    let ss = {
        let a = match digit_at(cs, 17) {
            Some(v) => v,
            None => {
                return None;
            },
        };
        let b = match digit_at(cs, 18) {
            Some(v) => v,
            None => {
                return None;
            },
        };
        a * 10 + b
    };
    proof {
        assert(iso_head_ok(cs@));
        assert(iso_fields(cs@) == (
            y as int,
            mo as int,
            d as int,
            hh as int,
            mi as int,
            ss as int,
        ));
    }
    let (nanos, j): (u32, usize) = if cs[19] == '.' {
        let mut j: usize = 20;
        let mut acc: u64 = 0;
        let mut count: u8 = 0;
        loop
            invariant
                20 <= j <= cs.len(),
                cs.len() >= 20,
                count <= 9,
                acc < pow10(count as int),
                pow10(count as int) <= 1000000000,
                scan_frac(cs@, j as int, acc as int, count as int) == scan_frac(cs@, 20, 0, 0),
                cs@[19] == '.',
                iso_head_ok(cs@),
            ensures
                20 <= j <= cs.len(),
                count <= 9,
                acc < pow10(count as int),
                scan_frac(cs@, 20, 0, 0) == (acc as int, count as int, j as int),
            decreases cs.len() - j,
        {
            if j < cs.len() {
                match digit_of(cs[j]) {
                    Some(dv) => {
                        if count == 9 {
                            // a tenth digit: the spec scan counts past nine
                            proof {
                                lemma_scan_frac_counts(cs@, j as int, acc as int, count as int);
                                assert(scan_frac(cs@, 20, 0, 0).1 > 9);
                                assert(iso_frac(cs@) is None);
                            }
                            return None;
                        }
                        proof {
                            lemma_pow10_le(count as int, 8);
                            reveal_with_fuel(pow10, 11);
                            assert(pow10(8) == 100000000);
                            assert(pow10(count as int + 1) == 10 * pow10(count as int));
                        }
                        acc = acc * 10 + dv as u64;
                        count = count + 1;
                        j = j + 1;
                    },
                    None => {
                        break ;
                    },
                }
            } else {
                break ;
            }
        }
        if count < 1 {
            proof {
                assert(iso_frac(cs@) is None);
            }
            return None;
        }
        let mul: u64 = if count == 1 {
            100000000
        } else if count == 2 {
            10000000
        } else if count == 3 {
            1000000
        } else if count == 4 {
            100000
        } else if count == 5 {
            10000
        } else if count == 6 {
            1000
        } else if count == 7 {
            100
        } else if count == 8 {
            10
        } else {
            1
        };
        proof {
            reveal_with_fuel(pow10, 11);
            assert(mul as int == pow10(9 - count as int));
            lemma_pow10_add(count as int, 9 - count as int);
            assert(pow10(9) == 1000000000);
            assert((acc as int) * (mul as int) < 1000000000) by (nonlinear_arith)
                requires
                    acc < pow10(count as int),
                    pow10(count as int) * pow10(9 - count as int) == 1000000000,
                    mul as int == pow10(9 - count as int),
                    mul > 0,
            ;
        }
        proof {
            assert(iso_frac(cs@) == Some(((acc * mul) as int, j as int)));
        }
        ((acc * mul) as u32, j)
    } else {
        (0u32, 19usize)
    };
    assert(iso_frac(cs@) == Some((nanos as int, j as int)));
    let off: i32 = if j < cs.len() && (cs[j] == 'Z' || cs[j] == 'z') && cs.len() == j + 1 {
        0
    } else if cs.len() - j == 6 && (cs[j] == '+' || cs[j] == '-') {
        let a = match digit_at(cs, j + 1) {
            Some(v) => v,
            None => {
                return None;
            },
        };
        let b = match digit_at(cs, j + 2) {
            Some(v) => v,
            None => {
                return None;
            },
        };
        if !(cs[j + 3] == ':') {
            return None;
        }
        let c = match digit_at(cs, j + 4) {
            Some(v) => v,
            None => {
                return None;
            },
        };
        let e = match digit_at(cs, j + 5) {
            Some(v) => v,
            None => {
                return None;
            },
        };
        let oh = a * 10 + b;
        let om = c * 10 + e;
        if !(oh <= 23 && om <= 59) {
            return None;
        }
        if cs[j] == '+' {
            oh as i32 * 60 + om as i32
        } else {
            -(oh as i32 * 60 + om as i32)
        }
    } else {
        return None;
    };
    assert(iso_offset(cs@, j as int) == Some(off as int));
    if !(1 <= y && 1 <= mo && mo <= 12 && 1 <= d && hh < 24 && mi < 60 && ss < 60) {
        return None;
    }
    if !(d <= days_in_month_exec(y, mo)) {
        return None;
    }
    to_utc_exec(y, mo, d, hh, mi, ss, nanos, off)
}

proof fn lemma_pow10_le(a: int, b: int)
    requires
        a <= b,
    ensures
        pow10(a) <= pow10(b),
        pow10(a) >= 1,
    decreases b - a,
{
    if a < b {
        lemma_pow10_le(a, b - 1);
    } else {
        lemma_pow10_pos(a);
    }
}

proof fn lemma_pow10_pos(a: int)
    ensures
        pow10(a) >= 1,
    decreases a,
{
    if a > 0 {
        lemma_pow10_pos(a - 1);
    }
}

proof fn lemma_pow10_add(a: int, b: int)
    requires
        a >= 0,
        b >= 0,
    ensures
        pow10(a) * pow10(b) == pow10(a + b),
    decreases a,
{
    if a == 0 {
    } else {
        lemma_pow10_add(a - 1, b);
        assert(pow10(a) * pow10(b) == 10 * (pow10(a - 1) * pow10(b))) by (nonlinear_arith)
            requires
                pow10(a) == 10 * pow10(a - 1),
        ;
    }
}

/// A scan that meets one more digit counts past it.
proof fn lemma_scan_frac_counts(s: Seq<char>, i: int, acc: int, count: int)
    requires
        0 <= i < s.len(),
        is_dec_digit(s[i]),
    ensures
        scan_frac(s, i, acc, count).1 > count,
    decreases s.len() - i,
{
    let next = scan_frac(s, i + 1, acc * 10 + digit_val(s[i]), count + 1);
    if i + 1 < s.len() && is_dec_digit(s[i + 1]) {
        lemma_scan_frac_counts(s, i + 1, acc * 10 + digit_val(s[i]), count + 1);
    }
}

fn days_in_month_exec(y: u16, m: u8) -> (r: u8)
    requires
        1 <= m <= 12,
    ensures
        r as int == days_in_month(y as int, m as int),
{
    if m == 2 {
        if (y % 4 == 0 && y % 100 != 0) || y % 400 == 0 {
            29
        } else {
            28
        }
    } else if m == 4 || m == 6 || m == 9 || m == 11 {
        30
    } else {
        31
    }
}

fn weekday_exec(y: u16, m: u8, d: u8) -> (r: u8)
    requires
        1 <= y <= 9999,
        1 <= m <= 12,
        1 <= d <= 31,
    ensures
        r as int == weekday_of(y as int, m as int, d as int),
        r < 7,
{
    let yy: u64 = if m <= 2 {
        (y - 1) as u64
    } else {
        y as u64
    };
    let era: u64 = yy / 400;
    let yoe: u64 = yy - era * 400;
    let mp: u64 = if m > 2 {
        (m - 3) as u64
    } else {
        (m + 9) as u64
    };
    let doy: u64 = (153 * mp + 2) / 5 + (d - 1) as u64;
    let doe: u64 = yoe * 365 + yoe / 4 - yoe / 100 + doy;
    let days: u64 = era * 146097 + doe;
    (days % 7) as u8
}

fn push_weekday(out: &mut Vec<char>, w: u8)
    requires
        w < 7,
    ensures
        final(out)@ == old(out)@ + weekday_abbrev(w as int),
{
    if w == 0 {
        push_str_chars(out, "Wed");
    } else if w == 1 {
        push_str_chars(out, "Thu");
    } else if w == 2 {
        push_str_chars(out, "Fri");
    } else if w == 3 {
        push_str_chars(out, "Sat");
    } else if w == 4 {
        push_str_chars(out, "Sun");
    } else if w == 5 {
        push_str_chars(out, "Mon");
    } else {
        push_str_chars(out, "Tue");
    }
}

fn push_month(out: &mut Vec<char>, m: u8)
    requires
        1 <= m <= 12,
    ensures
        final(out)@ == old(out)@ + month_abbrev(m as int),
{
    if m == 1 {
        push_str_chars(out, "Jan");
    } else if m == 2 {
        push_str_chars(out, "Feb");
    } else if m == 3 {
        push_str_chars(out, "Mar");
    } else if m == 4 {
        push_str_chars(out, "Apr");
    } else if m == 5 {
        push_str_chars(out, "May");
    } else if m == 6 {
        push_str_chars(out, "Jun");
    } else if m == 7 {
        push_str_chars(out, "Jul");
    } else if m == 8 {
        push_str_chars(out, "Aug");
    } else if m == 9 {
        push_str_chars(out, "Sep");
    } else if m == 10 {
        push_str_chars(out, "Oct");
    } else if m == 11 {
        push_str_chars(out, "Nov");
    } else {
        push_str_chars(out, "Dec");
    }
}

fn push_format_tail(out: &mut Vec<char>, t: &UtcDateTime)
    requires
        t.wf(),
    ensures
        final(out)@ == old(out)@ + format_tail(*t),
{
    push_str_chars(out, " ");
    push_month(out, t.month);
    push_str_chars(out, " ");
    crate::text::push_four_digits(out, t.year);
    push_str_chars(out, " ");
    push_two_digits(out, t.hour);
    push_str_chars(out, ":");
    push_two_digits(out, t.minute);
    push_str_chars(out, ":");
    push_two_digits(out, t.second);
    push_str_chars(out, " +00:00");
    assert(out@ =~= old(out)@ + format_tail(*t));
}

/// Emits the wire form of a UTC instant, per [`format_spec`]; the
/// sub-second part is not representable in this pattern and is ignored.
pub fn serialize(t: &UtcDateTime) -> (r: String)
    requires
        t.wf(),
    ensures
        r@ == format_spec(*t),
{
    let mut out: Vec<char> = Vec::new();
    let wd = weekday_exec(t.year, t.month, t.day);
    push_weekday(&mut out, wd);
    push_str_chars(&mut out, ", ");
    push_dec_u64(&mut out, t.day as u64);
    push_format_tail(&mut out, t);
    assert(out@ =~= format_spec(*t));
    chars_to_string(&out)
}

fn digit_at(s: &Vec<char>, i: usize) -> (r: Option<u8>)
    requires
        i < s@.len(),
    ensures
        match r {
            Some(v) => is_dec_digit(s@[i as int]) && v as int == digit_val(s@[i as int]) && v < 10,
            None => !is_dec_digit(s@[i as int]),
        },
{
    digit_of(s[i])
}

fn digit_of(c: char) -> (r: Option<u8>)
    ensures
        match r {
            Some(v) => is_dec_digit(c) && v as int == digit_val(c) && v < 10,
            None => !is_dec_digit(c),
        },
{
    let x = c as u32;
    if 48 <= x && x <= 57 {
        Some((x - 48) as u8)
    } else {
        None
    }
}

fn match_month_exec(c0: char, c1: char, c2: char) -> (r: Option<u8>)
    ensures
        match r {
            Some(m) => match_month(c0, c1, c2) == Some(m as int) && 1 <= m <= 12,
            None => match_month(c0, c1, c2) is None,
        },
{
    if c0 == 'J' && c1 == 'a' && c2 == 'n' {
        Some(1)
    } else if c0 == 'F' && c1 == 'e' && c2 == 'b' {
        Some(2)
    } else if c0 == 'M' && c1 == 'a' && c2 == 'r' {
        Some(3)
    } else if c0 == 'A' && c1 == 'p' && c2 == 'r' {
        Some(4)
    } else if c0 == 'M' && c1 == 'a' && c2 == 'y' {
        Some(5)
    } else if c0 == 'J' && c1 == 'u' && c2 == 'n' {
        Some(6)
    } else if c0 == 'J' && c1 == 'u' && c2 == 'l' {
        Some(7)
    } else if c0 == 'A' && c1 == 'u' && c2 == 'g' {
        Some(8)
    } else if c0 == 'S' && c1 == 'e' && c2 == 'p' {
        Some(9)
    } else if c0 == 'O' && c1 == 'c' && c2 == 't' {
        Some(10)
    } else if c0 == 'N' && c1 == 'o' && c2 == 'v' {
        Some(11)
    } else if c0 == 'D' && c1 == 'e' && c2 == 'c' {
        Some(12)
    } else {
        None
    }
}

fn match_weekday_exec(c0: char, c1: char, c2: char) -> (r: Option<u8>)
    ensures
        match r {
            Some(w) => match_weekday(c0, c1, c2) == Some(w as int) && w < 7,
            None => match_weekday(c0, c1, c2) is None,
        },
{
    if c0 == 'W' && c1 == 'e' && c2 == 'd' {
        Some(0)
    } else if c0 == 'T' && c1 == 'h' && c2 == 'u' {
        Some(1)
    } else if c0 == 'F' && c1 == 'r' && c2 == 'i' {
        Some(2)
    } else if c0 == 'S' && c1 == 'a' && c2 == 't' {
        Some(3)
    } else if c0 == 'S' && c1 == 'u' && c2 == 'n' {
        Some(4)
    } else if c0 == 'M' && c1 == 'o' && c2 == 'n' {
        Some(5)
    } else if c0 == 'T' && c1 == 'u' && c2 == 'e' {
        Some(6)
    } else {
        None
    }
}

fn to_utc_exec(y: u16, m: u8, d: u8, hh: u8, mi: u8, ss: u8, nanos: u32, off_min: i32) -> (r:
    Option<UtcDateTime>)
    requires
        1 <= y <= 9999,
        1 <= m <= 12,
        1 <= d <= days_in_month(y as int, m as int),
        hh < 24,
        mi < 60,
        ss < 60,
        nanos < 1000000000,
        -1439 <= off_min <= 1439,
    ensures
        r == to_utc(
            y as int,
            m as int,
            d as int,
            hh as int,
            mi as int,
            ss as int,
            nanos as int,
            off_min as int,
        ),
        r matches Some(t) ==> t.wf() && t.nanosecond == nanos,
{
    let tod: i32 = hh as i32 * 3600 + mi as i32 * 60 + ss as i32 - off_min * 60;
    if 0 <= tod && tod < 86400 {
        Some(
            UtcDateTime {
                year: y,
                month: m,
                day: d,
                hour: (tod / 3600) as u8,
                minute: ((tod / 60) % 60) as u8,
                second: (tod % 60) as u8,
                nanosecond: nanos,
            },
        )
    } else if tod < 0 {
        let tod2 = tod + 86400;
        let (y2, m2, d2) = if d > 1 {
            (y, m, d - 1)
        } else if m > 1 {
            (y, m - 1, days_in_month_exec(y, m - 1))
        } else {
            (y - 1, 12, 31)
        };
        if y2 < 1 {
            None
        } else {
            Some(
                UtcDateTime {
                    year: y2,
                    month: m2,
                    day: d2,
                    hour: (tod2 / 3600) as u8,
                    minute: ((tod2 / 60) % 60) as u8,
                    second: (tod2 % 60) as u8,
                    nanosecond: nanos,
                },
            )
        }
    } else {
        let tod2 = tod - 86400;
        let dim = days_in_month_exec(y, m);
        let (y2, m2, d2) = if d < dim {
            (y, m, d + 1)
        } else if m < 12 {
            (y, m + 1, 1)
        } else {
            (y + 1, 1, 1)
        };
        if y2 > 9999 {
            None
        } else {
            Some(
                UtcDateTime {
                    year: y2,
                    month: m2,
                    day: d2,
                    hour: (tod2 / 3600) as u8,
                    minute: ((tod2 / 60) % 60) as u8,
                    second: (tod2 % 60) as u8,
                    nanosecond: nanos,
                },
            )
        }
    }
}

/// Parses the wire form of an inbound date, per [`parse_spec`], and
/// normalizes it to UTC; anything that does not match the pattern is
/// rejected. The weekday name must be well-formed but is not
/// reconciled with the date: the date fields alone decide the instant.
pub fn deserialize(s: &str) -> (r: Result<UtcDateTime, String>)
    ensures
        match r {
            Ok(t) => parse_spec(s@) == Some(t) && t.wf() && t.nanosecond == 0,
            Err(_) => parse_spec(s@) is None,
        },
{
    let cs = str_to_chars(s);
    match deserialize_chars(&cs) {
        Some(t) => Ok(t),
        None => Err(String::from_str("invalid date")),
    }
}

#[verifier::spinoff_prover]
#[verifier::rlimit(100)]
fn deserialize_chars(cs: &Vec<char>) -> (r: Option<UtcDateTime>)
    ensures
        match r {
            Some(t) => parse_spec(cs@) == Some(t) && t.wf() && t.nanosecond == 0,
            None => parse_spec(cs@) is None,
        },
{
    if cs.len() < 7 {
        return None;
    }
    let wd = match match_weekday_exec(cs[0], cs[1], cs[2]) {
        Some(w) => w,
        None => {
            return None;
        },
    };
    if !(cs[3] == ',' && cs[4] == ' ') {
        return None;
    }
    let d0 = match digit_at(cs, 5) {
        Some(v) => v,
        None => {
            return None;
        },
    };
    let (day, base): (u8, usize) = match digit_at(cs, 6) {
        Some(d1) => (d0 * 10 + d1, 7),
        None => (d0, 6),
    };
    let ghost rest = cs@.skip(base as int);
    let n = cs.len();
    if !(n == base + 24 || n == base + 25) {
        return None;
    }
    if !(cs[base] == ' ') {
        return None;
    }
    let m = match match_month_exec(cs[base + 1], cs[base + 2], cs[base + 3]) {
        Some(m) => m,
        None => {
            return None;
        },
    };
    if !(cs[base + 4] == ' ') {
        return None;
    }
    let y = {
        let a = match digit_at(cs, base + 5) {
            Some(v) => v,
            None => {
                return None;
            },
        };
        let b = match digit_at(cs, base + 6) {
            Some(v) => v,
            None => {
                return None;
            },
        };
        let c = match digit_at(cs, base + 7) {
            Some(v) => v,
            None => {
                return None;
            },
        };
        let d = match digit_at(cs, base + 8) {
            Some(v) => v,
            None => {
                return None;
            },
        };
        a as u16 * 1000 + b as u16 * 100 + c as u16 * 10 + d as u16
    };
    if !(cs[base + 9] == ' ') {
        return None;
    }
    let hh = {
        let a = match digit_at(cs, base + 10) {
            Some(v) => v,
            None => {
                return None;
            },
        };
        let b = match digit_at(cs, base + 11) {
            Some(v) => v,
            None => {
                return None;
            },
        };
        a * 10 + b
    };
    if !(cs[base + 12] == ':') {
        return None;
    }
    let mi = {
        let a = match digit_at(cs, base + 13) {
            Some(v) => v,
            None => {
                return None;
            },
        };
        let b = match digit_at(cs, base + 14) {
            Some(v) => v,
            None => {
                return None;
            },
        };
        a * 10 + b
    };
    if !(cs[base + 15] == ':') {
        return None;
    }
    let ss = {
        let a = match digit_at(cs, base + 16) {
            Some(v) => v,
            None => {
                return None;
            },
        };
        let b = match digit_at(cs, base + 17) {
            Some(v) => v,
            None => {
                return None;
            },
        };
        a * 10 + b
    };
    if !(cs[base + 18] == ' ') {
        return None;
    }
    let positive = if cs[base + 19] == '+' {
        true
    } else if cs[base + 19] == '-' {
        false
    } else {
        return None;
    };
    let oh = {
        let a = match digit_at(cs, base + 20) {
            Some(v) => v,
            None => {
                return None;
            },
        };
        let b = match digit_at(cs, base + 21) {
            Some(v) => v,
            None => {
                return None;
            },
        };
        a * 10 + b
    };
    let om = if n == base + 24 {
        let a = match digit_at(cs, base + 22) {
            Some(v) => v,
            None => {
                return None;
            },
        };
        let b = match digit_at(cs, base + 23) {
            Some(v) => v,
            None => {
                return None;
            },
        };
        a * 10 + b
    } else {
        if !(cs[base + 22] == ':') {
            return None;
        }
        let a = match digit_at(cs, base + 23) {
            Some(v) => v,
            None => {
                return None;
            },
        };
        let b = match digit_at(cs, base + 24) {
            Some(v) => v,
            None => {
                return None;
            },
        };
        a * 10 + b
    };
    if !(1 <= y && y <= 9999 && 1 <= day && hh < 24 && mi < 60 && ss < 60 && oh <= 23 && om <= 59) {
        return None;
    }
    if !(day <= days_in_month_exec(y, m)) {
        return None;
    }
    let off: i32 = if positive {
        oh as i32 * 60 + om as i32
    } else {
        -(oh as i32 * 60 + om as i32)
    };
    let r = to_utc_exec(y, m, day, hh, mi, ss, 0, off);
    proof {
        assert(parse_spec(cs@) == parse_tail(rest, wd as int, day as int));
        assert(rest.len() == cs@.len() - base);
        assert(forall|i: int| 0 <= i < rest.len() ==> rest[i] == cs@[base + i]);
        assert(parse_tail(rest, wd as int, day as int) == r);
    }
    r
}

} // verus!
