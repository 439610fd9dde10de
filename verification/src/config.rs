//! Endpoint configuration for a WebSocket-based transport.
//!
//! The library does not open sockets itself; this type only assembles
//! and renders the endpoint that a host application connects to, from
//! explicit values or from the textual settings the host looked up.

use vstd::prelude::*;

use crate::text::dec_int;
use crate::text::i64_mag_bound;
use crate::text::parse_mag;
use crate::text::push_dec_i64;
use crate::text::spec_parse_mag;
use crate::text::str_to_chars;
use crate::text::string_push;

verus! {

/// Hostname used when the environment names none.
pub const DEFAULT_HOSTNAME: &'static str = "localhost";

/// Port used when the environment names none or an unreadable one.
pub const DEFAULT_PORT: i32 = 30615;

/// The text span read as a signed 32-bit decimal, as `str::parse::<i32>`
/// reads it: an optional sign, then at least one digit, the value within
/// the `i32` range.
pub open spec fn spec_parse_i32(s: Seq<char>) -> Option<int> {
    if s.len() > 0 && s[0] == '-' {
        match spec_parse_mag(s, 1, s.len() as int, 0x80000000) {
            Some(m) => Some(-m),
            None => None,
        }
    } else if s.len() > 0 && s[0] == '+' {
        match spec_parse_mag(s, 1, s.len() as int, 0x7fffffff) {
            Some(m) => Some(m),
            None => None,
        }
    } else {
        match spec_parse_mag(s, 0, s.len() as int, 0x7fffffff) {
            Some(m) => Some(m),
            None => None,
        }
    }
}

/// Parse a signed 32-bit decimal from text.
pub fn parse_i32(s: &str) -> (r: Option<i32>)
    ensures
        match r {
            Some(m) => spec_parse_i32(s@) == Some(m as int),
            None => spec_parse_i32(s@) is None,
        },
{
    let v = str_to_chars(s);
    if v.len() > 0 && v[0] == '-' {
        match parse_mag(&v, 1, v.len(), 0x80000000u64) {
            Some(m) => {
                let r: i32 = if m == 0x80000000u64 {
                    i32::MIN
                } else {
                    -(m as i32)
                };
                Some(r)
            },
            None => None,
        }
    } else if v.len() > 0 && v[0] == '+' {
        match parse_mag(&v, 1, v.len(), 0x7fffffffu64) {
            Some(m) => Some(m as i32),
            None => None,
        }
    } else {
        match parse_mag(&v, 0, v.len(), 0x7fffffffu64) {
            Some(m) => Some(m as i32),
            None => None,
        }
    }
}

/// Describes a WebSocket endpoint.
#[derive(Debug)]
pub struct Config {
    /// Hostname of the endpoint.
    pub host: String,
    /// Port of the endpoint.
    pub port: i32,
}

impl Config {
    /// Formats the URL text describing the endpoint.
    pub fn address_string(&self) -> (r: String)
        ensures
            r@ == "ws://"@ + self.host@ + seq![':'] + dec_int(self.port as int),
    {
        let mut out = String::new();
        out.append("ws://");
        out.append(self.host.as_str());
        string_push(&mut out, ':');
        push_dec_i64(&mut out, self.port as i64);
        proof {
            assert(out@ =~= "ws://"@ + self.host@ + seq![':'] + dec_int(self.port as int));
        }
        out
    }

    /// Builds the endpoint to use from the textual settings the host
    /// application found in its environment — the hostname, and the port
    /// as text — falling back to the defaults for a missing hostname and
    /// for a missing or unreadable port.
    pub fn from_env(host_var: Option<String>, port_var: Option<String>) -> (r: Config)
        ensures
            r.host@ == (match host_var {
                Some(h) => h@,
                None => "localhost"@,
            }),
            r.port as int == (match port_var {
                Some(p) => match spec_parse_i32(p@) {
                    Some(m) => m,
                    None => 30615int,
                },
                None => 30615int,
            }),
    {
        let host = match host_var {
            Some(h) => h,
            None => String::from_str(DEFAULT_HOSTNAME),
        };
        let port = match port_var {
            Some(p) => match parse_i32(p.as_str()) {
                Some(m) => m,
                None => DEFAULT_PORT,
            },
            None => DEFAULT_PORT,
        };
        Config { host, port }
    }
}

} // verus!
