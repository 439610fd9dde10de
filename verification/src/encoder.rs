//! Serialization of the outgoing request envelope.
//!
//! A request is rendered as
//! `{"jsonrpc":"2.0","id":<id>,"method":"<name>","params":<input>}` —
//! the id in decimal, the method name JSON-escaped, and the already
//! serialized input text carried verbatim.

use vstd::prelude::*;

use crate::messages::Message;
use crate::messages::MethodCall;
use crate::messages::Request;
use crate::messages::Version;
use crate::text::dec_int;
use crate::text::push_dec_i64;
use crate::text::str_to_chars;
use crate::text::string_push;

verus! {

/// Lowercase hexadecimal digit character for a value below sixteen.
pub open spec fn spec_hex_digit_char(d: int) -> char {
    if d < 10 {
        (d + 48) as char
    } else {
        (d + 87) as char
    }
}

/// How one character is rendered inside a JSON string: quotes and
/// backslashes and the common control characters take their short escapes,
/// the remaining control characters a `\u00..` escape, and every other
/// character stands for itself.
pub open spec fn spec_escaped_char(c: char) -> Seq<char> {
    if c == '"' {
        seq!['\\', '"']
    } else if c == '\\' {
        seq!['\\', '\\']
    } else if c == 8 as char {
        seq!['\\', 'b']
    } else if c == 12 as char {
        seq!['\\', 'f']
    } else if c == '\n' {
        seq!['\\', 'n']
    } else if c == '\r' {
        seq!['\\', 'r']
    } else if c == '\t' {
        seq!['\\', 't']
    } else if ' ' > c {
        seq!['\\', 'u', '0', '0', spec_hex_digit_char(c as int / 16), spec_hex_digit_char(
            c as int % 16,
        )]
    } else {
        seq![c]
    }
}

/// A string's characters rendered inside a JSON string.
pub open spec fn spec_escaped(m: Seq<char>) -> Seq<char>
    decreases m.len(),
{
    if m.len() == 0 {
        Seq::empty()
    } else {
        spec_escaped(m.drop_last()) + spec_escaped_char(m.last())
    }
}

/// Lowercase hexadecimal digit character for a value below sixteen.
fn hex_digit_char(d: u32) -> (r: char)
    requires
        d < 16,
    ensures
        r == spec_hex_digit_char(d as int),
{
    if d < 10 {
        (48u8 + d as u8) as char
    } else {
        (87u8 + d as u8) as char
    }
}

/// Append the JSON-escaped rendering of `s` to `out`.
#[verifier::loop_isolation(false)]
pub fn append_escaped(out: &mut String, s: &str)
    ensures
        final(out)@ == old(out)@ + spec_escaped(s@),
{
    let v = str_to_chars(s);
    let mut i: usize = 0;
    while i < v.len()
        invariant
            i <= v@.len(),
            v@ == s@,
            out@ == old(out)@ + spec_escaped(v@.take(i as int)),
        decreases v@.len() - i,
    {
        let c = v[i];
        let ghost pre = out@;
        if c == '"' {
            string_push(out, '\\');
            string_push(out, '"');
        } else if c == '\\' {
            string_push(out, '\\');
            string_push(out, '\\');
        } else if c == '\n' {
            string_push(out, '\\');
            string_push(out, 'n');
        } else if c == '\r' {
            string_push(out, '\\');
            string_push(out, 'r');
        } else if c == '\t' {
            string_push(out, '\\');
            string_push(out, 't');
        } else if ' ' > c {
            if c == 8u8 as char {
                string_push(out, '\\');
                string_push(out, 'b');
            } else if c == 12u8 as char {
                string_push(out, '\\');
                string_push(out, 'f');
            } else {
                let u = crate::text::char_value(c);
                assert(u < 32);
                string_push(out, '\\');
                string_push(out, 'u');
                string_push(out, '0');
                string_push(out, '0');
                string_push(out, hex_digit_char(u / 16));
                string_push(out, hex_digit_char(u % 16));
            }
        } else {
            string_push(out, c);
        }
        proof {
            assert(out@ =~= pre + spec_escaped_char(c));
            assert(v@.take(i + 1).drop_last() =~= v@.take(i as int));
            assert(v@.take(i + 1).last() == c);
            assert(out@ =~= old(out)@ + spec_escaped(v@.take(i + 1)));
        }
        i = i + 1;
    }
    proof {
        assert(v@.take(v@.len() as int) =~= v@);
    }
}

/// The full request envelope for the given id, method name and serialized
/// input.
pub open spec fn spec_request_text(id: int, method: Seq<char>, params: Seq<char>) -> Seq<char> {
    "{\"jsonrpc\":\"2.0\",\"id\":"@ + dec_int(id) + ",\"method\":\""@ + spec_escaped(method)
        + "\",\"params\":"@ + params + seq!['}']
}

/// Serialize a request message to its wire text.
pub fn serialize_request(req: &Message<Request<MethodCall>>) -> (r: String)
    requires
        req.jsonrpc == Version::V2,
    ensures
        r@ == spec_request_text(req.payload.id@, req.payload.method.method@, req.payload.method.input@),
{
    let mut out = String::new();
    out.append("{\"jsonrpc\":\"2.0\",\"id\":");
    push_dec_i64(&mut out, req.payload.id.0);
    out.append(",\"method\":\"");
    append_escaped(&mut out, req.payload.method.method.as_str());
    out.append("\",\"params\":");
    out.append(req.payload.method.input.as_str());
    string_push(&mut out, '}');
    proof {
        assert(out@ =~= spec_request_text(
            req.payload.id@,
            req.payload.method.method@,
            req.payload.method.input@,
        ));
    }
    out
}

} // verus!
