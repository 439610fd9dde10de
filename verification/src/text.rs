//! Verified text utilities shared by the envelope encoder and decoder:
//! character collection, decimal printing and parsing, and small trusted
//! bridges to std string operations that vstd leaves unspecified.

use vstd::prelude::*;
use vstd::std_specs::iter::IteratorSpec;

verus! {

/// Relies on alloc::string::String::push: appends exactly the given
/// character at the end of the string.
#[verifier::external_body]
pub fn string_push(s: &mut String, c: char)
    ensures
        final(s)@ == old(s)@.push(c),
{
    s.push(c)
}

/// Relies on core::char::from_u32: yields the character for every code
/// point outside the surrogate range `0xD800..=0xDFFF` and not above
/// `0x10FFFF`, and `None` otherwise.
#[verifier::external_body]
pub fn char_from_u32(u: u32) -> (r: Option<char>)
    ensures
        r is Some <==> (u < 0xD800 || (0xE000 <= u && u <= 0x10FFFF)),
        r is Some ==> r.unwrap() == u as char,
{
    char::from_u32(u)
}

/// The code point of a character, as a number.
pub fn char_value(c: char) -> (r: u32)
    ensures
        r == c as int,
        r < 0x110000,
{
    c as u32
}

/// Collect the characters of a string slice into a vector.
pub fn str_to_chars(s: &str) -> (r: Vec<char>)
    ensures
        r@ == s@,
{
    broadcast use vstd::string::group_string_axioms;

    let mut out: Vec<char> = Vec::new();
    let mut it = s.chars();
    loop
        invariant
            it.obeys_prophetic_iter_laws(),
            it.decrease() is Some,
            out@ + it.remaining() == s@,
        decreases it.decrease()->0,
    {
        match it.next() {
            Some(c) => {
                out.push(c);
            },
            None => {
                assert(out@ =~= s@);
                return out;
            },
        }
    }
}

/// Copy the span `[from, to)` of a character vector into a fresh string.
pub fn span_to_string(v: &Vec<char>, from: usize, to: usize) -> (r: String)
    requires
        from <= to <= v@.len(),
    ensures
        r@ == v@.subrange(from as int, to as int),
{
    let mut out = String::new();
    let mut i: usize = from;
    while i < to
        invariant
            from <= i <= to <= v@.len(),
            out@ == v@.subrange(from as int, i as int),
        decreases to - i,
    {
        string_push(&mut out, v[i]);
        assert(v@.subrange(from as int, i as int).push(v@[i as int]) =~= v@.subrange(
            from as int,
            i + 1,
        ));
        i = i + 1;
    }
    out
}

/// Whether two strings hold the same characters.
pub fn string_eq(a: &String, b: &str) -> (r: bool)
    ensures
        r == (a@ == b@),
{
    let bs = String::from_str(b);
    a.eq(&bs)
}

// === Decimal digits ===

/// Whether `c` is a decimal digit.
pub open spec fn is_digit(c: char) -> bool {
    '0' <= c && c <= '9'
}

/// Numeric value of a digit character.
pub open spec fn digit_val(c: char) -> int {
    c as int - '0' as int
}

/// The digit character for a value below ten.
pub open spec fn spec_digit_char(d: int) -> char {
    (d + '0' as int) as char
}

/// Value of a string of decimal digits, most significant first.
pub open spec fn dec_val(s: Seq<char>) -> int
    decreases s.len(),
{
    if s.len() == 0 {
        0
    } else {
        dec_val(s.drop_last()) * 10 + digit_val(s.last())
    }
}

/// Whether every character of `s` is a decimal digit.
pub open spec fn all_digits(s: Seq<char>) -> bool {
    forall|i: int| 0 <= i < s.len() ==> is_digit(#[trigger] s[i])
}

/// The canonical decimal digit string of a nonnegative value.
pub open spec fn dec_digits(n: int) -> Seq<char>
    decreases n,
{
    if n < 10 {
        seq![spec_digit_char(n)]
    } else {
        dec_digits(n / 10).push(spec_digit_char(n % 10))
    }
}

/// The canonical decimal rendering of a signed value.
pub open spec fn dec_int(v: int) -> Seq<char> {
    if v < 0 {
        seq!['-'] + dec_digits(-v)
    } else {
        dec_digits(v)
    }
}

/// A digit string's value never shrinks as the string grows.
pub proof fn lemma_dec_val_nonneg(s: Seq<char>)
    requires
        all_digits(s),
    ensures
        dec_val(s) >= 0,
    decreases s.len(),
{
    if s.len() > 0 {
        assert(all_digits(s.drop_last())) by {
            assert(forall|i: int|
                0 <= i < s.len() - 1 ==> is_digit(#[trigger] s.drop_last()[i]) == is_digit(s[i]));
        }
        lemma_dec_val_nonneg(s.drop_last());
    }
}

/// Extending a digit string by one digit multiplies its value by ten and
/// adds the digit.
pub proof fn lemma_dec_val_step(s: Seq<char>, j: int)
    requires
        0 <= j < s.len(),
    ensures
        dec_val(s.subrange(0, j + 1)) == dec_val(s.subrange(0, j)) * 10 + digit_val(s[j]),
{
    let t = s.subrange(0, j + 1);
    assert(t.drop_last() =~= s.subrange(0, j));
    assert(t.last() == s[j]);
}

/// The value of a prefix of a digit string is bounded by the value of the
/// whole string.
pub proof fn lemma_dec_val_prefix(s: Seq<char>, j: int)
    requires
        all_digits(s),
        0 <= j <= s.len(),
    ensures
        dec_val(s.subrange(0, j)) <= dec_val(s),
    decreases s.len() - j,
{
    if j == s.len() {
        assert(s.subrange(0, j) =~= s);
    } else {
        lemma_dec_val_step(s, j);
        let p = dec_val(s.subrange(0, j));
        assert(all_digits(s.subrange(0, j))) by {
            assert(forall|i: int|
                0 <= i < j ==> is_digit(#[trigger] s.subrange(0, j)[i]) == is_digit(s[i]));
        }
        lemma_dec_val_nonneg(s.subrange(0, j));
        assert(dec_val(s.subrange(0, j + 1)) == p * 10 + digit_val(s[j]));
        assert(p * 10 >= p) by (nonlinear_arith)
            requires
                p >= 0,
        ;
        lemma_dec_val_prefix(s, j + 1);
    }
}

/// Append the canonical digit string of `n` to `out`.
pub fn push_dec_digits(out: &mut String, n: u64)
    ensures
        final(out)@ == old(out)@ + dec_digits(n as int),
    decreases n,
{
    if n < 10 {
        string_push(out, digit_char(n));
        assert(old(out)@.push(spec_digit_char(n as int)) =~= old(out)@ + dec_digits(n as int));
    } else {
        push_dec_digits(out, n / 10);
        string_push(out, digit_char(n % 10));
        assert((old(out)@ + dec_digits(n as int / 10)).push(spec_digit_char(n as int % 10)) =~= old(
            out,
        )@ + dec_digits(n as int));
    }
}

/// The digit character for a value below ten.
fn digit_char(d: u64) -> (r: char)
    requires
        d < 10,
    ensures
        r == spec_digit_char(d as int),
{
    (48u8 + d as u8) as char
}

/// Append the canonical decimal rendering of `n` to `out`.
pub fn push_dec_i64(out: &mut String, n: i64)
    ensures
        final(out)@ == old(out)@ + dec_int(n as int),
{
    if n < 0 {
        string_push(out, '-');
        let m: u64 = (-(n + 1)) as u64 + 1;
        assert(m == -(n as int));
        push_dec_digits(out, m);
        assert(old(out)@.push('-') + dec_digits(m as int) =~= old(out)@ + dec_int(n as int));
    } else {
        push_dec_digits(out, n as u64);
    }
}

// === Decimal parsing ===

/// Magnitude bound used when checking that a decimal fits a 64-bit signed
/// integer: `2^63`, the magnitude of the most negative value.
pub open spec fn i64_mag_bound() -> int {
    0x8000000000000000
}

/// The value of the digit span `[from, to)` of `s`, provided every
/// character in it is a digit and the value does not exceed `bound`.
pub open spec fn spec_parse_mag(s: Seq<char>, from: int, to: int, bound: int) -> Option<int> {
    let span = s.subrange(from, to);
    if all_digits(span) && from < to && dec_val(span) <= bound {
        Some(dec_val(span))
    } else {
        None
    }
}

/// Parse the digit span `[from, to)` of `v` as a magnitude no greater than
/// `bound`.
pub fn parse_mag(v: &Vec<char>, from: usize, to: usize, bound: u64) -> (r: Option<u64>)
    requires
        from <= to <= v@.len(),
        bound >= 9,
    ensures
        match r {
            Some(m) => spec_parse_mag(v@, from as int, to as int, bound as int) == Some(m as int),
            None => spec_parse_mag(v@, from as int, to as int, bound as int) is None,
        },
{
    let ghost span = v@.subrange(from as int, to as int);
    if from == to {
        return None;
    }
    let mut acc: u64 = 0;
    let mut i: usize = from;
    while i < to
        invariant
            from <= i <= to <= v@.len(),
            bound >= 9,
            all_digits(v@.subrange(from as int, i as int)),
            acc as int == dec_val(v@.subrange(from as int, i as int)),
            acc <= bound,
            span == v@.subrange(from as int, to as int),
        decreases to - i,
    {
        let c = v[i];
        if !(c >= '0' && c <= '9') {
            assert(span[i - from] == c);
            return None;
        }
        let cu: u32 = c as u32;
        assert(48 <= cu <= 57);
        let d: u64 = (cu - 48) as u64;
        assert(d == digit_val(c));
        proof {
            assert(v@.subrange(from as int, i as int) =~= span.subrange(0, i - from));
            assert(v@.subrange(from as int, i + 1) =~= span.subrange(0, i - from + 1));
            lemma_dec_val_step(span, i - from);
        }
        if acc > (bound - d) / 10 {
            // The value of the prefix read so far already exceeds the bound,
            // so the whole span is either not all digits or too large.
            proof {
                assert(acc as int * 10 + d > bound) by (nonlinear_arith)
                    requires
                        acc as int > (bound - d) / 10,
                        0 <= d <= 9,
                        bound >= 0,
                        acc >= 0,
                ;
                if all_digits(span) {
                    lemma_dec_val_prefix(span, i - from + 1);
                }
            }
            return None;
        }
        acc = acc * 10 + d;
        i = i + 1;
    }
    assert(v@.subrange(from as int, i as int) =~= span);
    Some(acc)
}

/// The decimal span `[from, to)` of `s` read as a signed 64-bit value:
/// an optional leading minus sign followed by at least one digit, with the
/// result within the `i64` range.
pub open spec fn spec_parse_i64_span(s: Seq<char>, from: int, to: int) -> Option<int> {
    if from < to && s[from] == '-' {
        match spec_parse_mag(s, from + 1, to, i64_mag_bound()) {
            Some(m) => Some(-m),
            None => None,
        }
    } else {
        match spec_parse_mag(s, from, to, i64_mag_bound() - 1) {
            Some(m) => Some(m),
            None => None,
        }
    }
}

/// Parse the span `[from, to)` of `v` as a signed 64-bit decimal.
pub fn parse_i64_span(v: &Vec<char>, from: usize, to: usize) -> (r: Option<i64>)
    requires
        from <= to <= v@.len(),
    ensures
        match r {
            Some(m) => spec_parse_i64_span(v@, from as int, to as int) == Some(m as int),
            None => spec_parse_i64_span(v@, from as int, to as int) is None,
        },
{
    if from < to && v[from] == '-' {
        match parse_mag(v, from + 1, to, 0x8000000000000000u64) {
            Some(m) => {
                let r: i64 = if m == 0x8000000000000000u64 {
                    i64::MIN
                } else {
                    -(m as i64)
                };
                Some(r)
            },
            None => None,
        }
    } else {
        match parse_mag(v, from, to, 0x7fffffffffffffffu64) {
            Some(m) => Some(m as i64),
            None => None,
        }
    }
}

} // verus!
