//! JSON text utilities for the wire payloads: an emitter and a scanner,
//! both with exact character-level specifications. The scan functions
//! (`ws_end`, `str_scan`, `int_scan`, `skip_value_scan`) are the
//! specification the body parsers' contracts are stated over.

use vstd::prelude::*;
use crate::text::{chars_to_string, digit_char, digit_val, is_dec_digit, str_to_chars};

verus! {

broadcast use vstd::utf8::char_u32_cast;

/// Lower-case hexadecimal digit for `d` (meaningful for `0 <= d < 16`).
pub open spec fn hex_digit(d: int) -> char {
    if d < 10 {
        digit_char(d)
    } else {
        ((87 + d) as u8) as char
    }
}

/// JSON escape of one character: quote, backslash and the common
/// control characters get two-character escapes, other control
/// characters a `\u00XX` escape, everything else stands as itself.
pub open spec fn escape_char(c: char) -> Seq<char> {
    if c == '"' {
        seq!['\\', '"']
    } else if c == '\\' {
        seq!['\\', '\\']
    } else if c == '\n' {
        seq!['\\', 'n']
    } else if c == '\r' {
        seq!['\\', 'r']
    } else if c == '\t' {
        seq!['\\', 't']
    } else if (c as u32) < 32 {
        seq!['\\', 'u', '0', '0', hex_digit(c as u32 as int / 16), hex_digit(c as u32 as int % 16)]
    } else {
        seq![c]
    }
}

/// JSON escape of a whole string body.
pub open spec fn escape_str(s: Seq<char>) -> Seq<char>
    decreases s.len(),
{
    if s.len() == 0 {
        Seq::empty()
    } else {
        escape_char(s[0]) + escape_str(s.drop_first())
    }
}

/// A JSON string token: the escaped body between double quotes.
pub open spec fn quoted(s: Seq<char>) -> Seq<char> {
    seq!['"'] + escape_str(s) + seq!['"']
}

proof fn lemma_escape_snoc(s: Seq<char>, n: int)
    requires
        0 <= n < s.len(),
    ensures
        escape_str(s.take(n + 1)) == escape_str(s.take(n)) + escape_char(s[n]),
    decreases n,
{
    if n == 0 {
        assert(s.take(1) =~= seq![s[0]]);
        assert(s.take(1).drop_first() =~= Seq::<char>::empty());
        assert(s.take(0) =~= Seq::<char>::empty());
        assert(escape_str(s.take(1)) =~= escape_str(s.take(0)) + escape_char(s[0]));
    } else {
        let s1 = s.drop_first();
        assert(s.take(n + 1).drop_first() =~= s1.take(n));
        assert(s.take(n).drop_first() =~= s1.take(n - 1));
        assert(s.take(n + 1)[0] == s[0]);
        assert(s.take(n)[0] == s[0]);
        lemma_escape_snoc(s1, n - 1);
        assert(s1[n - 1] == s[n]);
        assert(escape_char(s[0]) + (escape_str(s1.take(n - 1)) + escape_char(s[n])) =~= (escape_char(
            s[0],
        ) + escape_str(s1.take(n - 1))) + escape_char(s[n]));
    }
}

fn hex_digit_exec(d: u32) -> (c: char)
    requires
        d < 16,
    ensures
        c == hex_digit(d as int),
{
    if d < 10 {
        (48 + d as u8) as char
    } else {
        (87 + d as u8) as char
    }
}

fn push_escaped_char(out: &mut Vec<char>, c: char)
    ensures
        final(out)@ == old(out)@ + escape_char(c),
{
    if c == '"' {
        out.push('\\');
        out.push('"');
    } else if c == '\\' {
        out.push('\\');
        out.push('\\');
    } else if c == '\n' {
        out.push('\\');
        out.push('n');
    } else if c == '\r' {
        out.push('\\');
        out.push('r');
    } else if c == '\t' {
        out.push('\\');
        out.push('t');
    } else if (c as u32) < 32 {
        let x = c as u32;
        out.push('\\');
        out.push('u');
        out.push('0');
        out.push('0');
        out.push(hex_digit_exec(x / 16));
        out.push(hex_digit_exec(x % 16));
    } else {
        out.push(c);
    }
    assert(out@ =~= old(out)@ + escape_char(c));
}

/// Appends the JSON string token for `s` (quotes included).
pub fn push_quoted(out: &mut Vec<char>, s: &str)
    ensures
        final(out)@ == old(out)@ + quoted(s@),
{
    out.push('"');
    let cs = str_to_chars(s);
    let mut i: usize = 0;
    while i < cs.len()
        invariant
            i <= cs.len(),
            cs@ == s@,
            out@ == old(out)@ + seq!['"'] + escape_str(s@.take(i as int)),
        decreases cs.len() - i,
    {
        push_escaped_char(out, cs[i]);
        proof {
            lemma_escape_snoc(s@, i as int);
            assert(out@ =~= old(out)@ + seq!['"'] + escape_str(s@.take(i as int + 1)));
        }
        i += 1;
    }
    assert(s@.take(s@.len() as int) =~= s@);
    out.push('"');
    assert(out@ =~= old(out)@ + quoted(s@));
}

/// First position at or after `i` holding something other than JSON
/// whitespace.
pub open spec fn ws_end(s: Seq<char>, i: int) -> int
    decreases s.len() - i,
{
    if 0 <= i < s.len() && (s[i] == ' ' || s[i] == '\n' || s[i] == '\r' || s[i] == '\t') {
        ws_end(s, i + 1)
    } else {
        i
    }
}

/// First position at or after `i` holding something other than JSON
/// whitespace.
pub fn skip_ws(s: &Vec<char>, i: usize) -> (j: usize)
    requires
        i <= s.len(),
    ensures
        i <= j <= s.len(),
        j as int == ws_end(s@, i as int),
    decreases s.len() - i,
{
    if i < s.len() && (s[i] == ' ' || s[i] == '\n' || s[i] == '\r' || s[i] == '\t') {
        skip_ws(s, i + 1)
    } else {
        i
    }
}

fn digit_value(c: char) -> (r: Option<u8>)
    ensures
        match r {
            Some(v) => is_dec_digit(c) && v as int == digit_val(c) && v < 10,
            None => !is_dec_digit(c),
        },
{
    let x = c as u32;
    if 48 <= x && x <= 57 {
        Some((x - 48) as u8)
    } else {
        None
    }
}

/// Value of a hexadecimal digit character, upper or lower case.
pub open spec fn hex_nibble(c: char) -> Option<int> {
    if 48 <= c as int <= 57 {
        Some(c as int - 48)
    } else if 97 <= c as int <= 102 {
        Some(c as int - 97 + 10)
    } else if 65 <= c as int <= 70 {
        Some(c as int - 65 + 10)
    } else {
        None
    }
}

fn hex_val(c: char) -> (r: Option<u8>)
    ensures
        match r {
            Some(v) => hex_nibble(c) == Some(v as int) && v < 16,
            None => hex_nibble(c) is None,
        },
{
    let x = c as u32;
    if 48 <= x && x <= 57 {
        Some((x - 48) as u8)
    } else if 97 <= x && x <= 102 {
        Some((x - 97 + 10) as u8)
    } else if 65 <= x && x <= 70 {
        Some((x - 65 + 10) as u8)
    } else {
        None
    }
}

/// Value of the four hexadecimal digits at `j`.
pub open spec fn hex4(s: Seq<char>, j: int) -> Option<int> {
    if j < 0 || s.len() - j < 4 {
        None
    } else {
        let a = hex_nibble(s[j]);
        let b = hex_nibble(s[j + 1]);
        let c = hex_nibble(s[j + 2]);
        let d = hex_nibble(s[j + 3]);
        if a is Some && b is Some && c is Some && d is Some {
            Some(a->Some_0 * 4096 + b->Some_0 * 256 + c->Some_0 * 16 + d->Some_0)
        } else {
            None
        }
    }
}

fn hex4_at(s: &Vec<char>, j: usize) -> (r: Option<u32>)
    requires
        j <= s.len(),
    ensures
        match r {
            Some(v) => hex4(s@, j as int) == Some(v as int) && v < 0x10000,
            None => hex4(s@, j as int) is None,
        },
{
    if s.len() - j < 4 {
        return None;
    }
    let a = match hex_val(s[j]) {
        Some(v) => v,
        None => {
            return None;
        },
    };
    let b = match hex_val(s[j + 1]) {
        Some(v) => v,
        None => {
            return None;
        },
    };
    let c = match hex_val(s[j + 2]) {
        Some(v) => v,
        None => {
            return None;
        },
    };
    let d = match hex_val(s[j + 3]) {
        Some(v) => v,
        None => {
            return None;
        },
    };
    Some(a as u32 * 4096 + b as u32 * 256 + c as u32 * 16 + d as u32)
}

/// Relies on char::from_u32: yields the character with code `x`
/// exactly when `x` is a Unicode scalar value (not a surrogate, at
/// most 0x10FFFF), and `None` otherwise.
pub assume_specification[ char::from_u32 ](x: u32) -> (r: Option<char>)
    ensures
        r matches Some(c) ==> c as u32 == x,
        (r is Some) <==> (x < 0xD800 || (0xE000 <= x && x <= 0x10FFFF)),
;

/// Scan of a string-token body from `j` (just after the opening
/// quote) with the characters unescaped so far in `acc`: plain
/// characters and the short escapes are taken as themselves, `\uXXXX`
/// escapes cover the full range with surrogate pairs combined, and
/// raw control characters, lone surrogates and malformed escapes are
/// rejected.
pub open spec fn str_body_scan(s: Seq<char>, j: int, acc: Seq<char>) -> Option<(Seq<char>, int)>
    decreases s.len() - j,
{
    if !(0 <= j < s.len()) {
        None
    } else {
        let c = s[j];
        if c == '"' {
            Some((acc, j + 1))
        } else if c == '\\' {
            if s.len() - j <= 1 {
                None
            } else {
                let e = s[j + 1];
                if e == '"' {
                    str_body_scan(s, j + 2, acc.push('"'))
                } else if e == '\\' {
                    str_body_scan(s, j + 2, acc.push('\\'))
                } else if e == '/' {
                    str_body_scan(s, j + 2, acc.push('/'))
                } else if e == 'b' {
                    str_body_scan(s, j + 2, acc.push((8u8) as char))
                } else if e == 'f' {
                    str_body_scan(s, j + 2, acc.push((12u8) as char))
                } else if e == 'n' {
                    str_body_scan(s, j + 2, acc.push('\n'))
                } else if e == 'r' {
                    str_body_scan(s, j + 2, acc.push('\r'))
                } else if e == 't' {
                    str_body_scan(s, j + 2, acc.push('\t'))
                } else if e == 'u' {
                    match hex4(s, j + 2) {
                        None => None,
                        Some(u) => {
                            if 0xD800 <= u < 0xDC00 {
                                if s.len() - j < 12 || s[j + 6] != '\\' || s[j + 7] != 'u' {
                                    None
                                } else {
                                    match hex4(s, j + 8) {
                                        None => None,
                                        Some(u2) => {
                                            if 0xDC00 <= u2 < 0xE000 {
                                                let code = 0x10000 + (u - 0xD800) * 0x400 + (u2
                                                    - 0xDC00);
                                                str_body_scan(
                                                    s,
                                                    j + 12,
                                                    acc.push((code as u32) as char),
                                                )
                                            } else {
                                                None
                                            }
                                        },
                                    }
                                }
                            } else if 0xDC00 <= u < 0xE000 {
                                None
                            } else {
                                str_body_scan(s, j + 6, acc.push((u as u32) as char))
                            }
                        },
                    }
                } else {
                    None
                }
            }
        } else if (c as u32) < 32 {
            None
        } else {
            str_body_scan(s, j + 1, acc.push(c))
        }
    }
}

/// Scan of a whole JSON string token starting at `i`.
pub open spec fn str_scan(s: Seq<char>, i: int) -> Option<(Seq<char>, int)> {
    if 0 <= i < s.len() && s[i] == '"' {
        str_body_scan(s, i + 1, Seq::empty())
    } else {
        None
    }
}

fn str_body_at(s: &Vec<char>, j: usize, acc: Vec<char>) -> (r: Option<(String, usize)>)
    requires
        j <= s.len(),
    ensures
        match r {
            Some(p) => str_body_scan(s@, j as int, acc@) == Some((p.0@, p.1 as int)) && j < p.1
                <= s.len(),
            None => str_body_scan(s@, j as int, acc@) is None,
        },
    decreases s.len() - j,
{
    if j >= s.len() {
        return None;
    }
    let c = s[j];
    if c == '"' {
        Some((chars_to_string(&acc), j + 1))
    } else if c == '\\' {
        if s.len() - j <= 1 {
            return None;
        }
        let e = s[j + 1];
        let mut acc2 = acc;
        if e == '"' {
            acc2.push('"');
            str_body_at(s, j + 2, acc2)
        } else if e == '\\' {
            acc2.push('\\');
            str_body_at(s, j + 2, acc2)
        } else if e == '/' {
            acc2.push('/');
            str_body_at(s, j + 2, acc2)
        } else if e == 'b' {
            acc2.push((8u8) as char);
            str_body_at(s, j + 2, acc2)
        } else if e == 'f' {
            acc2.push((12u8) as char);
            str_body_at(s, j + 2, acc2)
        } else if e == 'n' {
            acc2.push('\n');
            str_body_at(s, j + 2, acc2)
        } else if e == 'r' {
            acc2.push('\r');
            str_body_at(s, j + 2, acc2)
        } else if e == 't' {
            acc2.push('\t');
            str_body_at(s, j + 2, acc2)
        } else if e == 'u' {
            let u = match hex4_at(s, j + 2) {
                Some(v) => v,
                None => {
                    return None;
                },
            };
            if 0xD800 <= u && u < 0xDC00 {
                if s.len() - j < 12 || s[j + 6] != '\\' || s[j + 7] != 'u' {
                    return None;
                }
                let u2 = match hex4_at(s, j + 8) {
                    Some(v) => v,
                    None => {
                        return None;
                    },
                };
                if !(0xDC00 <= u2 && u2 < 0xE000) {
                    return None;
                }
                let code: u32 = 0x10000 + (u - 0xD800) * 0x400 + (u2 - 0xDC00);
                let ch = match char::from_u32(code) {
                    Some(ch) => ch,
                    None => {
                        // never: a pair always combines to a scalar value
                        return None;
                    },
                };
                proof {
                    vstd::utf8::char_u32_cast(ch, code);
                }
                acc2.push(ch);
                str_body_at(s, j + 12, acc2)
            } else if 0xDC00 <= u && u < 0xE000 {
                None
            } else {
                let ch = match char::from_u32(u) {
                    Some(ch) => ch,
                    None => {
                        // never: the surrogate range was just excluded
                        return None;
                    },
                };
                proof {
                    vstd::utf8::char_u32_cast(ch, u);
                }
                acc2.push(ch);
                str_body_at(s, j + 6, acc2)
            }
        } else {
            None
        }
    } else if (c as u32) < 32 {
        None
    } else {
        let mut acc2 = acc;
        acc2.push(c);
        str_body_at(s, j + 1, acc2)
    }
}

/// Reads a JSON string token starting at `i` (which must hold the
/// opening quote), unescaping it per [`str_scan`]; yields the string
/// and the position after the closing quote.
pub fn parse_string_at(s: &Vec<char>, i: usize) -> (r: Option<(String, usize)>)
    requires
        i <= s.len(),
    ensures
        match r {
            Some(p) => str_scan(s@, i as int) == Some((p.0@, p.1 as int)) && i < p.1 <= s.len(),
            None => str_scan(s@, i as int) is None,
        },
{
    if i >= s.len() || s[i] != '"' {
        return None;
    }
    str_body_at(s, i + 1, Vec::new())
}

/// Value and end position of the run of decimal digits starting at
/// `j`, accumulated onto `acc`.
pub open spec fn digits_scan(s: Seq<char>, j: int, acc: int) -> (int, int)
    decreases s.len() - j,
{
    if 0 <= j < s.len() && is_dec_digit(s[j]) {
        digits_scan(s, j + 1, acc * 10 + digit_val(s[j]))
    } else {
        (acc, j)
    }
}

/// A digit scan never shrinks its accumulator.
proof fn lemma_digits_scan_ge(s: Seq<char>, j: int, acc: int)
    requires
        acc >= 0,
    ensures
        digits_scan(s, j, acc).0 >= acc,
        digits_scan(s, j, acc).1 >= j,
    decreases s.len() - j,
{
    if 0 <= j < s.len() && is_dec_digit(s[j]) {
        lemma_digits_scan_ge(s, j + 1, acc * 10 + digit_val(s[j]));
    }
}

fn digits_at(s: &Vec<char>, j: usize, acc: u64) -> (r: Option<(u64, usize)>)
    requires
        j <= s.len(),
        acc <= 0x8000_0000_0000_0000u64,
    ensures
        match r {
            Some(p) => digits_scan(s@, j as int, acc as int) == (p.0 as int, p.1 as int) && p.0
                <= 0x8000_0000_0000_0000u64 && j <= p.1 <= s.len(),
            None => digits_scan(s@, j as int, acc as int).0 > 0x8000_0000_0000_0000,
        },
    decreases s.len() - j,
{
    if j >= s.len() {
        return Some((acc, j));
    }
    match digit_value(s[j]) {
        Some(d) => {
            if acc > 922_337_203_685_477_580u64 {
                proof {
                    lemma_digits_scan_ge(s@, j as int + 1, acc as int * 10 + digit_val(s@[j as int]));
                }
                return None;
            }
            let acc2: u64 = acc * 10 + d as u64;
            if acc2 > 0x8000_0000_0000_0000u64 {
                proof {
                    lemma_digits_scan_ge(s@, j as int + 1, acc2 as int);
                }
                return None;
            }
            digits_at(s, j + 1, acc2)
        },
        None => Some((acc, j)),
    }
}

/// Scan of a JSON integer at `i`: an optional minus sign and decimal
/// digits, with no fraction or exponent part, whose value fits `i64`.
pub open spec fn int_scan(s: Seq<char>, i: int) -> Option<(int, int)> {
    let start = if 0 <= i < s.len() && s[i] == '-' {
        i + 1
    } else {
        i
    };
    let (v, end) = digits_scan(s, start, 0);
    if end == start {
        None
    } else if end < s.len() && (s[end] == '.' || s[end] == 'e' || s[end] == 'E') {
        None
    } else {
        let signed = if start == i {
            v
        } else {
            -v
        };
        if -0x8000_0000_0000_0000 <= signed <= 0x7FFF_FFFF_FFFF_FFFF {
            Some((signed, end))
        } else {
            None
        }
    }
}

/// Reads a JSON integer starting at `i`, per [`int_scan`]; yields the
/// value and the first position after it.
pub fn parse_int_at(s: &Vec<char>, i: usize) -> (r: Option<(i64, usize)>)
    requires
        i <= s.len(),
    ensures
        match r {
            Some(p) => int_scan(s@, i as int) == Some((p.0 as int, p.1 as int)) && i < p.1
                <= s.len(),
            None => int_scan(s@, i as int) is None,
        },
{
    let (start, negative): (usize, bool) = if i < s.len() && s[i] == '-' {
        (i + 1, true)
    } else {
        (i, false)
    };
    let (v, end) = match digits_at(s, start, 0) {
        Some(p) => p,
        None => {
            return None;
        },
    };
    if end == start {
        return None;
    }
    if end < s.len() && (s[end] == '.' || s[end] == 'e' || s[end] == 'E') {
        return None;
    }
    if negative {
        if v == 0x8000_0000_0000_0000u64 {
            Some((i64::MIN, end))
        } else {
            Some((-(v as i64), end))
        }
    } else {
        if v >= 0x8000_0000_0000_0000u64 {
            None
        } else {
            Some((v as i64, end))
        }
    }
}

pub open spec fn is_number_part_spec(c: char) -> bool {
    is_dec_digit(c) || c == '.' || c == 'e' || c == 'E' || c == '+' || c == '-'
}

fn is_number_part(c: char) -> (b: bool)
    ensures
        b == is_number_part_spec(c),
{
    let x = c as u32;
    (48 <= x && x <= 57) || c == '.' || c == 'e' || c == 'E' || c == '+' || c == '-'
}

/// First position at or after `j` past the characters a JSON number
/// may contain.
pub open spec fn number_end(s: Seq<char>, j: int) -> int
    decreases s.len() - j,
{
    if 0 <= j < s.len() && is_number_part_spec(s[j]) {
        number_end(s, j + 1)
    } else {
        j
    }
}

fn number_at(s: &Vec<char>, j: usize) -> (r: usize)
    requires
        j <= s.len(),
    ensures
        r as int == number_end(s@, j as int),
        j <= r <= s.len(),
    decreases s.len() - j,
{
    if j < s.len() && is_number_part(s[j]) {
        number_at(s, j + 1)
    } else {
        j
    }
}

pub open spec fn close_char(is_obj: bool) -> char {
    if is_obj {
        '}'
    } else {
        ']'
    }
}

/// Scan past one JSON value of any shape starting at `i`, without
/// interpreting it.
pub open spec fn skip_value_scan(s: Seq<char>, i: int) -> Option<int>
    decreases s.len() - i, 1int,
{
    if !(0 <= i < s.len()) {
        None
    } else {
        let c = s[i];
        if c == '"' {
            match str_scan(s, i) {
                Some(p) => Some(p.1),
                None => None,
            }
        } else if c == '{' || c == '[' {
            let j = ws_end(s, i + 1);
            if !(i < j <= s.len()) {
                None  // never: the whitespace scan stays in range
            } else if j < s.len() && s[j] == close_char(c == '{') {
                Some(j + 1)
            } else {
                skip_entries_scan(s, j, c == '{')
            }
        } else if c == 't' {
            if s.len() - i >= 4 && s[i + 1] == 'r' && s[i + 2] == 'u' && s[i + 3] == 'e' {
                Some(i + 4)
            } else {
                None
            }
        } else if c == 'f' {
            if s.len() - i >= 5 && s[i + 1] == 'a' && s[i + 2] == 'l' && s[i + 3] == 's' && s[i + 4]
                == 'e' {
                Some(i + 5)
            } else {
                None
            }
        } else if c == 'n' {
            if s.len() - i >= 4 && s[i + 1] == 'u' && s[i + 2] == 'l' && s[i + 3] == 'l' {
                Some(i + 4)
            } else {
                None
            }
        } else if c == '-' || is_dec_digit(c) {
            Some(number_end(s, i + 1))
        } else {
            None
        }
    }
}

/// Scan past the entries of an object or array whose first entry
/// starts at `j`, up to and past the closing brace or bracket. The
/// bound guards can never fire on the positions the sub-scans return;
/// they keep the scan well-founded.
pub open spec fn skip_entries_scan(s: Seq<char>, j: int, is_obj: bool) -> Option<int>
    decreases s.len() - j, 2int,
{
    if !(0 <= j <= s.len()) {
        None
    } else {
        let jv = if is_obj {
            match str_scan(s, j) {
                Some(p) => {
                    let k = ws_end(s, p.1);
                    if k < s.len() && s[k] == ':' {
                        ws_end(s, k + 1)
                    } else {
                        -1
                    }
                },
                None => -1,
            }
        } else {
            j
        };
        if !(j <= jv <= s.len()) {
            None  // a failed or out-of-range key scan
        } else {
            match skip_value_scan(s, jv) {
                None => None,
                Some(jv2) => {
                    if !(jv < jv2 <= s.len()) {
                        None  // never: a value scan moves forward in range
                    } else {
                        let j5 = ws_end(s, jv2);
                        if !(j5 <= s.len()) {
                            None  // never
                        } else if j5 < s.len() && s[j5] == ',' {
                            let nxt = ws_end(s, j5 + 1);
                            if nxt <= j || nxt > s.len() {
                                None
                            } else {
                                skip_entries_scan(s, nxt, is_obj)
                            }
                        } else if j5 < s.len() && s[j5] == close_char(is_obj) {
                            Some(j5 + 1)
                        } else {
                            None
                        }
                    }
                },
            }
        }
    }
}

/// Consumes one JSON value of any shape starting at `i`, per
/// [`skip_value_scan`]; yields the first position after it.
pub fn skip_value_at(s: &Vec<char>, i: usize) -> (r: Option<usize>)
    requires
        i <= s.len(),
    ensures
        match r {
            Some(j) => skip_value_scan(s@, i as int) == Some(j as int) && i < j <= s.len(),
            None => skip_value_scan(s@, i as int) is None,
        },
    decreases s.len() - i, 1int,
{
    if i >= s.len() {
        return None;
    }
    let c = s[i];
    if c == '"' {
        match parse_string_at(s, i) {
            Some((_, j)) => Some(j),
            None => None,
        }
    } else if c == '{' || c == '[' {
        let j = skip_ws(s, i + 1);
        if j < s.len() && s[j] == (if c == '{' {
            '}'
        } else {
            ']'
        }) {
            Some(j + 1)
        } else {
            skip_entries_at(s, j, c == '{')
        }
    } else if c == 't' {
        if s.len() - i >= 4 && s[i + 1] == 'r' && s[i + 2] == 'u' && s[i + 3] == 'e' {
            Some(i + 4)
        } else {
            None
        }
    } else if c == 'f' {
        if s.len() - i >= 5 && s[i + 1] == 'a' && s[i + 2] == 'l' && s[i + 3] == 's' && s[i + 4]
            == 'e' {
            Some(i + 5)
        } else {
            None
        }
    } else if c == 'n' {
        if s.len() - i >= 4 && s[i + 1] == 'u' && s[i + 2] == 'l' && s[i + 3] == 'l' {
            Some(i + 4)
        } else {
            None
        }
    } else if c == '-' || is_dec_digit_exec(c) {
        Some(number_at(s, i + 1))
    } else {
        None
    }
}

fn is_dec_digit_exec(c: char) -> (b: bool)
    ensures
        b == is_dec_digit(c),
{
    let x = c as u32;
    48 <= x && x <= 57
}

fn skip_entries_at(s: &Vec<char>, j: usize, is_obj: bool) -> (r: Option<usize>)
    requires
        j <= s.len(),
    ensures
        match r {
            Some(e) => skip_entries_scan(s@, j as int, is_obj) == Some(e as int) && j < e
                <= s.len(),
            None => skip_entries_scan(s@, j as int, is_obj) is None,
        },
    decreases s.len() - j, 2int,
{
    let jv: usize = if is_obj {
        match parse_string_at(s, j) {
            Some((_, k0)) => {
                let k = skip_ws(s, k0);
                if k < s.len() && s[k] == ':' {
                    skip_ws(s, k + 1)
                } else {
                    return None;
                }
            },
            None => {
                return None;
            },
        }
    } else {
        j
    };
    match skip_value_at(s, jv) {
        None => None,
        Some(jv2) => {
            let j5 = skip_ws(s, jv2);
            if j5 < s.len() && s[j5] == ',' {
                let nxt = skip_ws(s, j5 + 1);
                if nxt <= j {
                    return None;
                }
                skip_entries_at(s, nxt, is_obj)
            } else if j5 < s.len() && s[j5] == (if is_obj {
                '}'
            } else {
                ']'
            }) {
                Some(j5 + 1)
            } else {
                None
            }
        },
    }
}

} // verus!
