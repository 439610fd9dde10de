//! Verified JSON scanning.
//!
//! The decoder needs to recognize the JSON-RPC envelope inside an arbitrary
//! JSON text: validate the frame, decode the strings it must read (member
//! keys, method names, error messages) and delimit the spans of the values
//! it carries along uninterpreted (call results, notification payloads,
//! error data).
//!
//! Every executable scanner mirrors a specification function over the
//! character sequence; the `ensures` clauses tie the two together exactly.

use vstd::prelude::*;

use crate::text::is_digit;
use crate::text::string_push;
use crate::text::char_from_u32;

verus! {

/// Whether `c` is JSON whitespace.
pub open spec fn is_ws(c: char) -> bool {
    c == ' ' || c == '\t' || c == '\n' || c == '\r'
}

/// First index at or after `i` holding a non-whitespace character (or the
/// end of the text).
pub open spec fn spec_skip_ws(s: Seq<char>, i: int) -> int
    decreases s.len() - i,
{
    if 0 <= i && i < s.len() && is_ws(s[i]) {
        spec_skip_ws(s, i + 1)
    } else {
        i
    }
}

/// The result of skipping whitespace stays within the text.
pub proof fn lemma_skip_ws_bounds(s: Seq<char>, i: int)
    requires
        0 <= i <= s.len(),
    ensures
        i <= spec_skip_ws(s, i) <= s.len(),
    decreases s.len() - i,
{
    if i < s.len() && is_ws(s[i]) {
        lemma_skip_ws_bounds(s, i + 1);
    }
}

/// Skip whitespace starting at `i`.
pub fn skip_ws(v: &Vec<char>, i: usize) -> (r: usize)
    requires
        i <= v@.len(),
    ensures
        r as int == spec_skip_ws(v@, i as int),
        i <= r <= v@.len(),
    decreases v@.len() - i,
{
    if i < v.len() {
        let c = v[i];
        if c == ' ' || c == '\t' || c == '\n' || c == '\r' {
            return skip_ws(v, i + 1);
        }
    }
    i
}

// === Strings ===

/// Value of a hexadecimal digit character.
pub open spec fn spec_hex_val(c: char) -> Option<int> {
    if '0' <= c && c <= '9' {
        Some(c as int - '0' as int)
    } else if 'a' <= c && c <= 'f' {
        Some(c as int - 'a' as int + 10)
    } else if 'A' <= c && c <= 'F' {
        Some(c as int - 'A' as int + 10)
    } else {
        None
    }
}

/// Value of the four hexadecimal digits at `[i, i+4)`.
pub open spec fn spec_hex4(s: Seq<char>, i: int) -> Option<int> {
    if 0 <= i && i + 4 <= s.len() {
        match (spec_hex_val(s[i]), spec_hex_val(s[i + 1]), spec_hex_val(s[i + 2]), spec_hex_val(
            s[i + 3],
        )) {
            (Some(a), Some(b), Some(c), Some(d)) => Some(a * 0x1000 + b * 0x100 + c * 0x10 + d),
            _ => None,
        }
    } else {
        None
    }
}

/// The character denoted by a single-character escape.
pub open spec fn spec_escape_char(e: char) -> Option<char> {
    if e == '"' {
        Some('"')
    } else if e == '\\' {
        Some('\\')
    } else if e == '/' {
        Some('/')
    } else if e == 'b' {
        Some(8 as char)
    } else if e == 'f' {
        Some(12 as char)
    } else if e == 'n' {
        Some('\n')
    } else if e == 'r' {
        Some('\r')
    } else if e == 't' {
        Some('\t')
    } else {
        None
    }
}

/// Scan a JSON string body beginning at `i` (just after the opening
/// quote): on success, the index just past the closing quote together with
/// the decoded characters.
///
/// Escapes follow RFC 8259: the short escapes, `\u` with four hexadecimal
/// digits, and surrogate pairs for characters beyond the basic plane; a
/// lone surrogate or an unescaped control character makes the string
/// invalid.
pub open spec fn spec_scan_string(s: Seq<char>, i: int) -> Option<(int, Seq<char>)>
    decreases s.len() - i,
{
    if i < 0 || i >= s.len() {
        None
    } else {
        let c = s[i];
        if c == '"' {
            Some((i + 1, Seq::empty()))
        } else if c == '\\' {
            if i + 2 > s.len() {
                None
            } else {
                let e = s[i + 1];
                if e == 'u' {
                    if i + 6 > s.len() {
                        None
                    } else {
                        match spec_hex4(s, i + 2) {
                            None => None,
                            Some(code) => {
                                if 0xD800 <= code && code < 0xDC00 {
                                    if i + 12 <= s.len() && s[i + 6] == '\\' && s[i + 7] == 'u' {
                                        match spec_hex4(s, i + 8) {
                                            None => None,
                                            Some(lo) => {
                                                if 0xDC00 <= lo && lo < 0xE000 {
                                                    let cp = 0x10000 + (code - 0xD800) * 0x400 + (
                                                    lo - 0xDC00);
                                                    match spec_scan_string(s, i + 12) {
                                                        None => None,
                                                        Some((e2, rest)) => Some(
                                                            (e2, seq![cp as char] + rest),
                                                        ),
                                                    }
                                                } else {
                                                    None
                                                }
                                            },
                                        }
                                    } else {
                                        None
                                    }
                                } else if 0xDC00 <= code && code < 0xE000 {
                                    None
                                } else {
                                    match spec_scan_string(s, i + 6) {
                                        None => None,
                                        Some((e2, rest)) => Some((e2, seq![code as char] + rest)),
                                    }
                                }
                            },
                        }
                    }
                } else {
                    match spec_escape_char(e) {
                        None => None,
                        Some(d) => match spec_scan_string(s, i + 2) {
                            None => None,
                            Some((e2, rest)) => Some((e2, seq![d] + rest)),
                        },
                    }
                }
            }
        } else if ' ' > c {
            None
        } else {
            match spec_scan_string(s, i + 1) {
                None => None,
                Some((e2, rest)) => Some((e2, seq![c] + rest)),
            }
        }
    }
}

/// A successful string scan ends past its starting point and within the
/// text.
pub proof fn lemma_scan_string_bounds(s: Seq<char>, i: int)
    requires
        spec_scan_string(s, i) is Some,
    ensures
        i < spec_scan_string(s, i).unwrap().0 <= s.len(),
    decreases s.len() - i,
{
    let c = s[i];
    if c == '"' {
    } else if c == '\\' {
        let e = s[i + 1];
        if e == 'u' {
            let code = spec_hex4(s, i + 2).unwrap();
            if 0xD800 <= code && code < 0xDC00 {
                lemma_scan_string_bounds(s, i + 12);
            } else {
                lemma_scan_string_bounds(s, i + 6);
            }
        } else {
            lemma_scan_string_bounds(s, i + 2);
        }
    } else {
        lemma_scan_string_bounds(s, i + 1);
    }
}

/// Value of a hexadecimal digit character.
fn hex_val(c: char) -> (r: Option<u32>)
    ensures
        match r {
            Some(x) => spec_hex_val(c) == Some(x as int) && x < 16,
            None => spec_hex_val(c) is None,
        },
{
    let u = c as u32;
    if c >= '0' && c <= '9' {
        Some(u - 48)
    } else if c >= 'a' && c <= 'f' {
        Some(u - 97 + 10)
    } else if c >= 'A' && c <= 'F' {
        Some(u - 65 + 10)
    } else {
        None
    }
}

/// Value of the four hexadecimal digits at `[i, i+4)`.
fn hex4(v: &Vec<char>, i: usize) -> (r: Option<u32>)
    requires
        i <= v@.len(),
    ensures
        match r {
            Some(x) => spec_hex4(v@, i as int) == Some(x as int) && x < 0x10000,
            None => spec_hex4(v@, i as int) is None,
        },
{
    if v.len() - i < 4 {
        return None;
    }
    match (hex_val(v[i]), hex_val(v[i + 1]), hex_val(v[i + 2]), hex_val(v[i + 3])) {
        (Some(a), Some(b), Some(c), Some(d)) => Some(a * 0x1000 + b * 0x100 + c * 0x10 + d),
        _ => None,
    }
}

/// Scan a JSON string body beginning at `i` (just after the opening
/// quote), appending the decoded characters to `out`.
///
/// When the scan fails, the characters already appended to `out` are
/// meaningless and the caller discards them.
pub fn scan_string_into(v: &Vec<char>, i: usize, out: &mut String) -> (r: Option<usize>)
    requires
        i <= v@.len(),
    ensures
        match r {
            Some(j) => {
                &&& spec_scan_string(v@, i as int) is Some
                &&& j as int == spec_scan_string(v@, i as int).unwrap().0
                &&& final(out)@ == old(out)@ + spec_scan_string(v@, i as int).unwrap().1
                &&& i < j <= v@.len()
            },
            None => spec_scan_string(v@, i as int) is None,
        },
    decreases v@.len() - i,
{
    if i >= v.len() {
        return None;
    }
    let c = v[i];
    if c == '"' {
        assert(old(out)@ + Seq::<char>::empty() =~= old(out)@);
        Some(i + 1)
    } else if c == '\\' {
        if v.len() - i < 2 {
            return None;
        }
        let e = v[i + 1];
        if e == 'u' {
            if v.len() - i < 6 {
                return None;
            }
            match hex4(v, i + 2) {
                None => None,
                Some(code) => {
                    if 0xD800 <= code && code < 0xDC00 {
                        if v.len() - i >= 12 && v[i + 6] == '\\' && v[i + 7] == 'u' {
                            match hex4(v, i + 8) {
                                None => None,
                                Some(lo) => {
                                    if 0xDC00 <= lo && lo < 0xE000 {
                                        let cp = 0x10000 + (code - 0xD800) * 0x400 + (lo - 0xDC00);
                                        let d = char_from_u32(cp).unwrap();
                                        string_push(out, d);
                                        let ghost mid = out@;
                                        match scan_string_into(v, i + 12, out) {
                                            None => None,
                                            Some(j) => {
                                                proof {
                                                    let rest = spec_scan_string(
                                                        v@,
                                                        i + 12,
                                                    ).unwrap().1;
                                                    assert(old(out)@.push(cp as char) + rest
                                                        =~= old(out)@ + (seq![cp as char] + rest));
                                                }
                                                Some(j)
                                            },
                                        }
                                    } else {
                                        None
                                    }
                                },
                            }
                        } else {
                            None
                        }
                    } else if 0xDC00 <= code && code < 0xE000 {
                        None
                    } else {
                        let d = char_from_u32(code).unwrap();
                        string_push(out, d);
                        match scan_string_into(v, i + 6, out) {
                            None => None,
                            Some(j) => {
                                proof {
                                    let rest = spec_scan_string(v@, i + 6).unwrap().1;
                                    assert(old(out)@.push(code as char) + rest =~= old(out)@ + (
                                    seq![code as char] + rest));
                                }
                                Some(j)
                            },
                        }
                    }
                },
            }
        } else {
            let d_opt = match e {
                '"' => Some('"'),
                '\\' => Some('\\'),
                '/' => Some('/'),
                'b' => char_from_u32(8),
                'f' => char_from_u32(12),
                'n' => Some('\n'),
                'r' => Some('\r'),
                't' => Some('\t'),
                _ => None,
            };
            match d_opt {
                None => {
                    assert(spec_escape_char(e) is None);
                    None
                },
                Some(d) => {
                    assert(spec_escape_char(e) == Some(d));
                    string_push(out, d);
                    match scan_string_into(v, i + 2, out) {
                        None => None,
                        Some(j) => {
                            proof {
                                let rest = spec_scan_string(v@, i + 2).unwrap().1;
                                assert(old(out)@.push(d) + rest =~= old(out)@ + (seq![d] + rest));
                            }
                            Some(j)
                        },
                    }
                },
            }
        }
    } else if ' ' > c {
        None
    } else {
        string_push(out, c);
        match scan_string_into(v, i + 1, out) {
            None => None,
            Some(j) => {
                proof {
                    let rest = spec_scan_string(v@, i + 1).unwrap().1;
                    assert(old(out)@.push(c) + rest =~= old(out)@ + (seq![c] + rest));
                }
                Some(j)
            },
        }
    }
}

// === Numbers ===

/// First index at or after `i` holding a non-digit character (or the end
/// of the text).
pub open spec fn spec_skip_digits(s: Seq<char>, i: int) -> int
    decreases s.len() - i,
{
    if 0 <= i && i < s.len() && is_digit(s[i]) {
        spec_skip_digits(s, i + 1)
    } else {
        i
    }
}

/// Skipping digits stays within the text.
pub proof fn lemma_skip_digits_bounds(s: Seq<char>, i: int)
    requires
        0 <= i <= s.len(),
    ensures
        i <= spec_skip_digits(s, i) <= s.len(),
        i < s.len() && is_digit(s[i]) ==> spec_skip_digits(s, i) > i,
    decreases s.len() - i,
{
    if i < s.len() && is_digit(s[i]) {
        lemma_skip_digits_bounds(s, i + 1);
    }
}

/// Skip decimal digits starting at `i`.
fn skip_digits(v: &Vec<char>, i: usize) -> (r: usize)
    requires
        i <= v@.len(),
    ensures
        r as int == spec_skip_digits(v@, i as int),
        i <= r <= v@.len(),
        i < v@.len() && is_digit(v@[i as int]) ==> r > i,
    decreases v@.len() - i,
{
    if i < v.len() {
        let c = v[i];
        if c >= '0' && c <= '9' {
            return skip_digits(v, i + 1);
        }
    }
    i
}

/// End of the optional fraction part beginning at `i`.
pub open spec fn spec_scan_frac(s: Seq<char>, i: int) -> Option<int> {
    if 0 <= i && i < s.len() && s[i] == '.' {
        if i + 1 < s.len() && is_digit(s[i + 1]) {
            Some(spec_skip_digits(s, i + 1))
        } else {
            None
        }
    } else {
        Some(i)
    }
}

/// End of the optional exponent part beginning at `i`.
pub open spec fn spec_scan_exp(s: Seq<char>, i: int) -> Option<int> {
    if 0 <= i && i < s.len() && (s[i] == 'e' || s[i] == 'E') {
        let j = if i + 1 < s.len() && (s[i + 1] == '+' || s[i + 1] == '-') {
            i + 2
        } else {
            i + 1
        };
        if j < s.len() && is_digit(s[j]) {
            Some(spec_skip_digits(s, j))
        } else {
            None
        }
    } else {
        Some(i)
    }
}

/// Scan a JSON number beginning at `i`: on success, the index just past
/// its last character.
pub open spec fn spec_scan_number(s: Seq<char>, i: int) -> Option<int> {
    let j = if 0 <= i && i < s.len() && s[i] == '-' {
        i + 1
    } else {
        i
    };
    if 0 <= j && j < s.len() && is_digit(s[j]) {
        let k = if s[j] == '0' {
            j + 1
        } else {
            spec_skip_digits(s, j)
        };
        match spec_scan_frac(s, k) {
            None => None,
            Some(k1) => spec_scan_exp(s, k1),
        }
    } else {
        None
    }
}

/// A successful number scan ends past its starting point and within the
/// text.
pub proof fn lemma_scan_number_bounds(s: Seq<char>, i: int)
    requires
        0 <= i <= s.len(),
        spec_scan_number(s, i) is Some,
    ensures
        i < spec_scan_number(s, i).unwrap() <= s.len(),
{
    let j = if i < s.len() && s[i] == '-' {
        i + 1
    } else {
        i
    };
    let k = if s[j] == '0' {
        j + 1
    } else {
        spec_skip_digits(s, j)
    };
    lemma_skip_digits_bounds(s, j);
    assert(k > j);
    let k1 = spec_scan_frac(s, k).unwrap();
    if k < s.len() && s[k] == '.' {
        lemma_skip_digits_bounds(s, k + 1);
    }
    let k2 = spec_scan_exp(s, k1).unwrap();
    if k1 < s.len() && (s[k1] == 'e' || s[k1] == 'E') {
        if k1 + 1 < s.len() && (s[k1 + 1] == '+' || s[k1 + 1] == '-') {
            lemma_skip_digits_bounds(s, k1 + 2);
        } else {
            lemma_skip_digits_bounds(s, k1 + 1);
        }
    }
}

/// Scan a JSON number beginning at `i`.
fn scan_number(v: &Vec<char>, i: usize) -> (r: Option<usize>)
    requires
        i <= v@.len(),
    ensures
        match r {
            Some(j) => spec_scan_number(v@, i as int) == Some(j as int) && i < j <= v@.len(),
            None => spec_scan_number(v@, i as int) is None,
        },
{
    let j = if i < v.len() && v[i] == '-' {
        i + 1
    } else {
        i
    };
    if !(j < v.len() && v[j] >= '0' && v[j] <= '9') {
        return None;
    }
    let k = if v[j] == '0' {
        j + 1
    } else {
        skip_digits(v, j)
    };
    let k1 = if k < v.len() && v[k] == '.' {
        if k + 1 < v.len() && v[k + 1] >= '0' && v[k + 1] <= '9' {
            skip_digits(v, k + 1)
        } else {
            return None;
        }
    } else {
        k
    };
    let k2 = if k1 < v.len() && (v[k1] == 'e' || v[k1] == 'E') {
        let j2 = if k1 + 1 < v.len() && (v[k1 + 1] == '+' || v[k1 + 1] == '-') {
            k1 + 2
        } else {
            k1 + 1
        };
        if j2 < v.len() && v[j2] >= '0' && v[j2] <= '9' {
            skip_digits(v, j2)
        } else {
            return None;
        }
    } else {
        k1
    };
    Some(k2)
}

// === Values, arrays and objects ===

/// One collected object member: its decoded key and the span `[start,
/// end)` of its value's text.
pub ghost struct MemberV {
    /// Decoded key.
    pub key: Seq<char>,
    /// First index of the value's text.
    pub start: int,
    /// Index just past the value's text.
    pub end: int,
}

/// Scan one JSON value beginning at `i` (no leading whitespace): on
/// success, the index just past its last character.
pub open spec fn spec_scan_value(s: Seq<char>, i: int) -> Option<int>
    decreases s.len() - i, 0int,
{
    if i < 0 || i >= s.len() {
        None
    } else {
        let c = s[i];
        if c == '"' {
            match spec_scan_string(s, i + 1) {
                None => None,
                Some((e, _)) => Some(e),
            }
        } else if c == '-' || is_digit(c) {
            spec_scan_number(s, i)
        } else if c == 't' {
            if i + 4 <= s.len() && s[i + 1] == 'r' && s[i + 2] == 'u' && s[i + 3] == 'e' {
                Some(i + 4)
            } else {
                None
            }
        } else if c == 'f' {
            if i + 5 <= s.len() && s[i + 1] == 'a' && s[i + 2] == 'l' && s[i + 3] == 's' && s[i + 4]
                == 'e' {
                Some(i + 5)
            } else {
                None
            }
        } else if c == 'n' {
            if i + 4 <= s.len() && s[i + 1] == 'u' && s[i + 2] == 'l' && s[i + 3] == 'l' {
                Some(i + 4)
            } else {
                None
            }
        } else if c == '{' {
            let j = spec_skip_ws(s, i + 1);
            if j < s.len() && s[j] == '}' {
                Some(j + 1)
            } else if j <= i || j > s.len() {
                None
            } else {
                match spec_scan_members(s, j) {
                    None => None,
                    Some((e, _)) => Some(e),
                }
            }
        } else if c == '[' {
            let j = spec_skip_ws(s, i + 1);
            if j < s.len() && s[j] == ']' {
                Some(j + 1)
            } else if j <= i || j > s.len() {
                None
            } else {
                spec_scan_elements(s, j)
            }
        } else {
            None
        }
    }
}

/// Scan the members of an object from the first key's opening quote at
/// `i` through the closing brace: on success, the index just past the
/// brace and the members collected in order.
pub open spec fn spec_scan_members(s: Seq<char>, i: int) -> Option<(int, Seq<MemberV>)>
    decreases s.len() - i, 1int,
{
    if i < 0 || i >= s.len() || s[i] != '"' {
        None
    } else {
        match spec_scan_string(s, i + 1) {
            None => None,
            Some((ke, key)) => {
                let c = spec_skip_ws(s, ke);
                if c < s.len() && s[c] == ':' {
                    let vs = spec_skip_ws(s, c + 1);
                    if vs <= i || vs > s.len() {
                        None
                    } else {
                        match spec_scan_value(s, vs) {
                            None => None,
                            Some(ve) => {
                                let m = MemberV { key: key, start: vs, end: ve };
                                let p = spec_skip_ws(s, ve);
                                if p < s.len() && s[p] == ',' {
                                    let nk = spec_skip_ws(s, p + 1);
                                    if nk <= i || nk > s.len() {
                                        None
                                    } else {
                                        match spec_scan_members(s, nk) {
                                            None => None,
                                            Some((e, ms)) => Some((e, seq![m] + ms)),
                                        }
                                    }
                                } else if p < s.len() && s[p] == '}' {
                                    Some((p + 1, seq![m]))
                                } else {
                                    None
                                }
                            },
                        }
                    }
                } else {
                    None
                }
            },
        }
    }
}

/// Scan the elements of an array from the first element at `i` through
/// the closing bracket: on success, the index just past the bracket.
pub open spec fn spec_scan_elements(s: Seq<char>, i: int) -> Option<int>
    decreases s.len() - i, 1int,
{
    if i < 0 || i >= s.len() {
        None
    } else {
        match spec_scan_value(s, i) {
            None => None,
            Some(ve) => {
                let p = spec_skip_ws(s, ve);
                if p < s.len() && s[p] == ',' {
                    let ne = spec_skip_ws(s, p + 1);
                    if ne <= i || ne > s.len() {
                        None
                    } else {
                        spec_scan_elements(s, ne)
                    }
                } else if p < s.len() && s[p] == ']' {
                    Some(p + 1)
                } else {
                    None
                }
            },
        }
    }
}

/// A successful value scan ends past its starting point and within the
/// text; member and element scans likewise, and every collected member
/// span lies within the scanned range.
pub proof fn lemma_scan_value_bounds(s: Seq<char>, i: int)
    requires
        spec_scan_value(s, i) is Some,
    ensures
        i < spec_scan_value(s, i).unwrap() <= s.len(),
    decreases s.len() - i, 0int,
{
    let c = s[i];
    if c == '"' {
        lemma_scan_string_bounds(s, i + 1);
    } else if c == '-' || is_digit(c) {
        lemma_scan_number_bounds(s, i);
    } else if c == '{' {
        let j = spec_skip_ws(s, i + 1);
        lemma_skip_ws_bounds(s, i + 1);
        if j < s.len() && s[j] == '}' {
        } else {
            lemma_scan_members_bounds(s, j);
        }
    } else if c == '[' {
        let j = spec_skip_ws(s, i + 1);
        lemma_skip_ws_bounds(s, i + 1);
        if j < s.len() && s[j] == ']' {
        } else {
            lemma_scan_elements_bounds(s, j);
        }
    }
}

/// See [`lemma_scan_value_bounds`].
pub proof fn lemma_scan_members_bounds(s: Seq<char>, i: int)
    requires
        spec_scan_members(s, i) is Some,
    ensures
        i < spec_scan_members(s, i).unwrap().0 <= s.len(),
        forall|k: int|
            0 <= k < spec_scan_members(s, i).unwrap().1.len() ==> {
                let m = #[trigger] spec_scan_members(s, i).unwrap().1[k];
                i < m.start < m.end <= s.len()
            },
    decreases s.len() - i, 1int,
{
    let (ke, key) = spec_scan_string(s, i + 1).unwrap();
    lemma_scan_string_bounds(s, i + 1);
    let c = spec_skip_ws(s, ke);
    let vs = spec_skip_ws(s, c + 1);
    let ve = spec_scan_value(s, vs).unwrap();
    lemma_scan_value_bounds(s, vs);
    let p = spec_skip_ws(s, ve);
    lemma_skip_ws_bounds(s, ve);
    if p < s.len() && s[p] == ',' {
        let nk = spec_skip_ws(s, p + 1);
        lemma_scan_members_bounds(s, nk);
    }
}

/// See [`lemma_scan_value_bounds`].
pub proof fn lemma_scan_elements_bounds(s: Seq<char>, i: int)
    requires
        spec_scan_elements(s, i) is Some,
    ensures
        i < spec_scan_elements(s, i).unwrap() <= s.len(),
    decreases s.len() - i, 1int,
{
    let ve = spec_scan_value(s, i).unwrap();
    lemma_scan_value_bounds(s, i);
    let p = spec_skip_ws(s, ve);
    lemma_skip_ws_bounds(s, ve);
    if p < s.len() && s[p] == ',' {
        let ne = spec_skip_ws(s, p + 1);
        lemma_scan_elements_bounds(s, ne);
    }
}

/// View of a vector of collected members.
pub open spec fn members_view(ms: Seq<(String, usize, usize)>) -> Seq<MemberV> {
    Seq::new(ms.len(), |k: int| MemberV { key: ms[k].0@, start: ms[k].1 as int, end: ms[k].2 as int })
}

/// Scan one JSON value beginning at `i`.
pub fn scan_value(v: &Vec<char>, i: usize) -> (r: Option<usize>)
    requires
        i <= v@.len(),
    ensures
        match r {
            Some(j) => spec_scan_value(v@, i as int) == Some(j as int) && i < j <= v@.len(),
            None => spec_scan_value(v@, i as int) is None,
        },
    decreases v@.len() - i, 0int,
{
    if i >= v.len() {
        return None;
    }
    let c = v[i];
    if c == '"' {
        let mut sink = String::new();
        match scan_string_into(v, i + 1, &mut sink) {
            None => None,
            Some(e) => Some(e),
        }
    } else if c == '-' || (c >= '0' && c <= '9') {
        scan_number(v, i)
    } else if c == 't' {
        if v.len() - i >= 4 && v[i + 1] == 'r' && v[i + 2] == 'u' && v[i + 3] == 'e' {
            Some(i + 4)
        } else {
            None
        }
    } else if c == 'f' {
        if v.len() - i >= 5 && v[i + 1] == 'a' && v[i + 2] == 'l' && v[i + 3] == 's' && v[i + 4]
            == 'e' {
            Some(i + 5)
        } else {
            None
        }
    } else if c == 'n' {
        if v.len() - i >= 4 && v[i + 1] == 'u' && v[i + 2] == 'l' && v[i + 3] == 'l' {
            Some(i + 4)
        } else {
            None
        }
    } else if c == '{' {
        let j = skip_ws(v, i + 1);
        if j < v.len() && v[j] == '}' {
            Some(j + 1)
        } else {
            match scan_members(v, j) {
                None => None,
                Some((e, _)) => Some(e),
            }
        }
    } else if c == '[' {
        let j = skip_ws(v, i + 1);
        if j < v.len() && v[j] == ']' {
            Some(j + 1)
        } else {
            scan_elements(v, j)
        }
    } else {
        None
    }
}

/// Scan the members of an object from the first key's opening quote at
/// `i` through the closing brace, collecting decoded keys and value spans.
pub fn scan_members(v: &Vec<char>, i: usize) -> (r: Option<(usize, Vec<(String, usize, usize)>)>)
    requires
        i <= v@.len(),
    ensures
        match r {
            Some((j, ms)) => {
                &&& spec_scan_members(v@, i as int) is Some
                &&& spec_scan_members(v@, i as int).unwrap().0 == j as int
                &&& spec_scan_members(v@, i as int).unwrap().1 == members_view(ms@)
                &&& i < j <= v@.len()
            },
            None => spec_scan_members(v@, i as int) is None,
        },
    decreases v@.len() - i, 1int,
{
    if i >= v.len() || v[i] != '"' {
        return None;
    }
    let mut key = String::new();
    let ke = match scan_string_into(v, i + 1, &mut key) {
        None => {
            return None;
        },
        Some(ke) => ke,
    };
    let c = skip_ws(v, ke);
    if !(c < v.len() && v[c] == ':') {
        return None;
    }
    let vs = skip_ws(v, c + 1);
    let ve = match scan_value(v, vs) {
        None => {
            return None;
        },
        Some(ve) => ve,
    };
    let p = skip_ws(v, ve);
    if p < v.len() && v[p] == ',' {
        let nk = skip_ws(v, p + 1);
        match scan_members(v, nk) {
            None => None,
            Some((e, ms)) => {
                let mut all: Vec<(String, usize, usize)> = Vec::new();
                all.push((key, vs, ve));
                let mut rest = ms;
                all.append(&mut rest);
                proof {
                    let m = MemberV { key: key@, start: vs as int, end: ve as int };
                    assert(members_view(all@) =~= seq![m] + members_view(ms@));
                }
                Some((e, all))
            },
        }
    } else if p < v.len() && v[p] == '}' {
        let mut all: Vec<(String, usize, usize)> = Vec::new();
        all.push((key, vs, ve));
        proof {
            let m = MemberV { key: key@, start: vs as int, end: ve as int };
            assert(members_view(all@) =~= seq![m]);
        }
        Some((p + 1, all))
    } else {
        None
    }
}

/// Scan the elements of an array from the first element at `i` through
/// the closing bracket.
pub fn scan_elements(v: &Vec<char>, i: usize) -> (r: Option<usize>)
    requires
        i <= v@.len(),
    ensures
        match r {
            Some(j) => spec_scan_elements(v@, i as int) == Some(j as int) && i < j <= v@.len(),
            None => spec_scan_elements(v@, i as int) is None,
        },
    decreases v@.len() - i, 1int,
{
    if i >= v.len() {
        return None;
    }
    let ve = match scan_value(v, i) {
        None => {
            return None;
        },
        Some(ve) => ve,
    };
    let p = skip_ws(v, ve);
    if p < v.len() && v[p] == ',' {
        let ne = skip_ws(v, p + 1);
        scan_elements(v, ne)
    } else if p < v.len() && v[p] == ']' {
        Some(p + 1)
    } else {
        None
    }
}

} // verus!
