//! Base64 codec for attachment content: the wire format carries binary
//! data as base64 text (standard alphabet, `=`-padded). Decoding inverts
//! encoding byte for byte.

use vstd::prelude::*;
use crate::text::{chars_to_string, str_to_chars};

verus! {

/// The base64 alphabet character for index `v` (meaningful for `0 <= v < 64`).
pub open spec fn b64_char(v: int) -> char {
    if v < 26 {
        ((65 + v) as u8) as char
    } else if v < 52 {
        ((97 + (v - 26)) as u8) as char
    } else if v < 62 {
        ((48 + (v - 52)) as u8) as char
    } else if v == 62 {
        '+'
    } else {
        '/'
    }
}

pub open spec fn is_b64_char(c: char) -> bool {
    (65 <= c as int <= 90) || (97 <= c as int <= 122) || (48 <= c as int <= 57) || c == '+' || c
        == '/'
}

/// Alphabet index of a base64 character (meaningful when `is_b64_char(c)`).
pub open spec fn b64_val(c: char) -> int {
    if 65 <= c as int <= 90 {
        c as int - 65
    } else if 97 <= c as int <= 122 {
        c as int - 97 + 26
    } else if 48 <= c as int <= 57 {
        c as int - 48 + 52
    } else if c == '+' {
        62
    } else {
        63
    }
}

pub proof fn lemma_b64_char_val(v: int)
    requires
        0 <= v < 64,
    ensures
        is_b64_char(b64_char(v)),
        b64_val(b64_char(v)) == v,
        b64_char(v) != '=',
{
}

/// Base64 text of a byte sequence: each full 3-byte group becomes 4
/// alphabet characters; a trailing group of 1 or 2 bytes is padded
/// with `=` to a 4-character quantum.
pub open spec fn encode_spec(bytes: Seq<u8>) -> Seq<char>
    decreases bytes.len(),
{
    if bytes.len() == 0 {
        Seq::empty()
    } else if bytes.len() == 1 {
        let b0 = bytes[0] as int;
        seq![b64_char(b0 / 4), b64_char((b0 % 4) * 16), '=', '=']
    } else if bytes.len() == 2 {
        let b0 = bytes[0] as int;
        let b1 = bytes[1] as int;
        seq![b64_char(b0 / 4), b64_char((b0 % 4) * 16 + b1 / 16), b64_char((b1 % 16) * 4), '=']
    } else {
        let b0 = bytes[0] as int;
        let b1 = bytes[1] as int;
        let b2 = bytes[2] as int;
        seq![
            b64_char(b0 / 4),
            b64_char((b0 % 4) * 16 + b1 / 16),
            b64_char((b1 % 16) * 4 + b2 / 64),
            b64_char(b2 % 64),
        ] + encode_spec(bytes.skip(3))
    }
}

/// Bytes of a base64 text, or `None` where the text is not a valid
/// padded encoding: the length must be a multiple of 4, `=` may appear
/// only as final-quantum padding, and the unused low bits of the last
/// symbol before the padding must be zero.
pub open spec fn decode_spec(s: Seq<char>) -> Option<Seq<u8>>
    decreases s.len(),
{
    if s.len() == 0 {
        Some(Seq::empty())
    } else if s.len() < 4 {
        None
    } else {
        let c0 = s[0];
        let c1 = s[1];
        let c2 = s[2];
        let c3 = s[3];
        if !is_b64_char(c0) || !is_b64_char(c1) {
            None
        } else {
            let v0 = b64_val(c0);
            let v1 = b64_val(c1);
            if c2 == '=' {
                if c3 == '=' && s.len() == 4 && v1 % 16 == 0 {
                    Some(seq![(v0 * 4 + v1 / 16) as u8])
                } else {
                    None
                }
            } else if !is_b64_char(c2) {
                None
            } else {
                let v2 = b64_val(c2);
                if c3 == '=' {
                    if s.len() == 4 && v2 % 4 == 0 {
                        Some(seq![(v0 * 4 + v1 / 16) as u8, ((v1 % 16) * 16 + v2 / 4) as u8])
                    } else {
                        None
                    }
                } else if !is_b64_char(c3) {
                    None
                } else {
                    let v3 = b64_val(c3);
                    match decode_spec(s.skip(4)) {
                        Some(rest) => Some(
                            seq![
                                (v0 * 4 + v1 / 16) as u8,
                                ((v1 % 16) * 16 + v2 / 4) as u8,
                                ((v2 % 4) * 64 + v3) as u8,
                            ] + rest,
                        ),
                        None => None,
                    }
                }
            }
        }
    }
}

/// Decoding inverts encoding: every byte sequence comes back unchanged
/// from its own base64 text.
pub proof fn lemma_base64_round_trip(bytes: Seq<u8>)
    ensures
        decode_spec(encode_spec(bytes)) == Some(bytes),
    decreases bytes.len(),
{
    if bytes.len() == 0 {
        assert(decode_spec(encode_spec(bytes)) == Some(bytes));
    } else if bytes.len() == 1 {
        let b0 = bytes[0] as int;
        lemma_b64_char_val(b0 / 4);
        lemma_b64_char_val((b0 % 4) * 16);
        assert(decode_spec(encode_spec(bytes)).unwrap() =~= bytes);
    } else if bytes.len() == 2 {
        let b0 = bytes[0] as int;
        let b1 = bytes[1] as int;
        lemma_b64_char_val(b0 / 4);
        lemma_b64_char_val((b0 % 4) * 16 + b1 / 16);
        lemma_b64_char_val((b1 % 16) * 4);
        assert(decode_spec(encode_spec(bytes)).unwrap() =~= bytes);
    } else {
        let b0 = bytes[0] as int;
        let b1 = bytes[1] as int;
        let b2 = bytes[2] as int;
        lemma_b64_char_val(b0 / 4);
        lemma_b64_char_val((b0 % 4) * 16 + b1 / 16);
        lemma_b64_char_val((b1 % 16) * 4 + b2 / 64);
        lemma_b64_char_val(b2 % 64);
        lemma_base64_round_trip(bytes.skip(3));
        let s = encode_spec(bytes);
        assert(s.skip(4) =~= encode_spec(bytes.skip(3)));
        assert(decode_spec(s).unwrap() =~= bytes);
    }
}

fn b64_char_exec(v: u8) -> (c: char)
    requires
        v < 64,
    ensures
        c == b64_char(v as int),
{
    if v < 26 {
        (65 + v) as char
    } else if v < 52 {
        (97 + (v - 26)) as char
    } else if v < 62 {
        (48 + (v - 52)) as char
    } else if v == 62 {
        '+'
    } else {
        '/'
    }
}

fn b64_val_exec(c: char) -> (r: Option<u8>)
    ensures
        match r {
            Some(v) => is_b64_char(c) && v < 64 && b64_val(c) == v as int,
            None => !is_b64_char(c),
        },
{
    let x = c as u32;
    if 65 <= x && x <= 90 {
        Some((x - 65) as u8)
    } else if 97 <= x && x <= 122 {
        Some((x - 97 + 26) as u8)
    } else if 48 <= x && x <= 57 {
        Some((x - 48 + 52) as u8)
    } else if c == '+' {
        Some(62)
    } else if c == '/' {
        Some(63)
    } else {
        None
    }
}

fn encode_from(bytes: &[u8], start: usize) -> (r: Vec<char>)
    requires
        start <= bytes.len(),
    ensures
        r@ == encode_spec(bytes@.skip(start as int)),
    decreases bytes.len() - start,
{
    let ghost s = bytes@.skip(start as int);
    let n = bytes.len() - start;
    let mut r: Vec<char> = Vec::new();
    if n == 0 {
        assert(r@ =~= encode_spec(s));
    } else if n == 1 {
        let b0 = bytes[start];
        assert(s[0] == b0);
        r.push(b64_char_exec(b0 / 4));
        r.push(b64_char_exec((b0 % 4) * 16));
        r.push('=');
        r.push('=');
        assert(r@ =~= encode_spec(s));
    } else if n == 2 {
        let b0 = bytes[start];
        let b1 = bytes[start + 1];
        assert(s[0] == b0 && s[1] == b1);
        r.push(b64_char_exec(b0 / 4));
        r.push(b64_char_exec((b0 % 4) * 16 + b1 / 16));
        r.push(b64_char_exec((b1 % 16) * 4));
        r.push('=');
        assert(r@ =~= encode_spec(s));
    } else {
        let b0 = bytes[start];
        let b1 = bytes[start + 1];
        let b2 = bytes[start + 2];
        assert(s[0] == b0 && s[1] == b1 && s[2] == b2);
        r.push(b64_char_exec(b0 / 4));
        r.push(b64_char_exec((b0 % 4) * 16 + b1 / 16));
        r.push(b64_char_exec((b1 % 16) * 4 + b2 / 64));
        r.push(b64_char_exec(b2 % 64));
        let mut rest = encode_from(bytes, start + 3);
        assert(bytes@.skip(start as int + 3) =~= s.skip(3));
        r.append(&mut rest);
        assert(r@ =~= encode_spec(s));
    }
    r
}

/// Base64 text of `bytes`, per [`encode_spec`].
pub fn serialize(bytes: &Vec<u8>) -> (r: String)
    ensures
        r@ == encode_spec(bytes@),
{
    let chars = encode_from(bytes.as_slice(), 0);
    proof {
        assert(bytes@.skip(0) =~= bytes@);
    }
    chars_to_string(&chars)
}

fn decode_from(s: &Vec<char>, start: usize) -> (r: Option<Vec<u8>>)
    requires
        start <= s.len(),
    ensures
        match r {
            Some(v) => decode_spec(s@.skip(start as int)) == Some(v@),
            None => decode_spec(s@.skip(start as int)) is None,
        },
    decreases s.len() - start,
{
    let ghost sq = s@.skip(start as int);
    let n = s.len() - start;
    if n == 0 {
        let r: Vec<u8> = Vec::new();
        assert(decode_spec(sq) == Some(r@)) by {
            assert(r@ =~= Seq::<u8>::empty());
        }
        Some(r)
    } else if n < 4 {
        None
    } else {
        let c0 = s[start];
        let c1 = s[start + 1];
        let c2 = s[start + 2];
        let c3 = s[start + 3];
        assert(sq[0] == c0 && sq[1] == c1 && sq[2] == c2 && sq[3] == c3);
        let v0 = match b64_val_exec(c0) {
            Some(v) => v,
            None => {
                return None;
            },
        };
        let v1 = match b64_val_exec(c1) {
            Some(v) => v,
            None => {
                return None;
            },
        };
        if c2 == '=' {
            if c3 == '=' && n == 4 && v1 % 16 == 0 {
                let mut out: Vec<u8> = Vec::new();
                out.push(v0 * 4 + v1 / 16);
                assert(decode_spec(sq) == Some(out@)) by {
                    assert(out@ =~= decode_spec(sq).unwrap());
                }
                Some(out)
            } else {
                None
            }
        } else {
            let v2 = match b64_val_exec(c2) {
                Some(v) => v,
                None => {
                    return None;
                },
            };
            if c3 == '=' {
                if n == 4 && v2 % 4 == 0 {
                    let mut out: Vec<u8> = Vec::new();
                    out.push(v0 * 4 + v1 / 16);
                    out.push((v1 % 16) * 16 + v2 / 4);
                    assert(decode_spec(sq) == Some(out@)) by {
                        assert(out@ =~= decode_spec(sq).unwrap());
                    }
                    Some(out)
                } else {
                    None
                }
            } else {
                let v3 = match b64_val_exec(c3) {
                    Some(v) => v,
                    None => {
                        return None;
                    },
                };
                match decode_from(s, start + 4) {
                    Some(rest) => {
                        let mut out: Vec<u8> = Vec::new();
                        out.push(v0 * 4 + v1 / 16);
                        out.push((v1 % 16) * 16 + v2 / 4);
                        out.push((v2 % 4) * 64 + v3);
                        let mut tail = rest;
                        out.append(&mut tail);
                        assert(s@.skip(start as int + 4) =~= sq.skip(4));
                        assert(decode_spec(sq) == Some(out@)) by {
                            assert(out@ =~= decode_spec(sq).unwrap());
                        }
                        Some(out)
                    },
                    None => {
                        assert(s@.skip(start as int + 4) =~= sq.skip(4));
                        None
                    },
                }
            }
        }
    }
}

/// Bytes of the base64 text `s`, per [`decode_spec`]; rejects anything
/// that is not a valid padded encoding.
pub fn deserialize(s: &str) -> (r: Result<Vec<u8>, String>)
    ensures
        match r {
            Ok(v) => decode_spec(s@) == Some(v@),
            Err(_) => decode_spec(s@) is None,
        },
{
    let chars = str_to_chars(s);
    proof {
        assert(chars@.skip(0) =~= s@);
    }
    match decode_from(&chars, 0) {
        Some(v) => Ok(v),
        None => Err(String::from_str("invalid base64")),
    }
}

} // verus!
