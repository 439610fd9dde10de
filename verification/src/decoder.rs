//! The message decoder: classifies an inbound text frame as a
//! [`Response`](crate::messages::Response), a
//! [`Notification`](crate::messages::Notification), or a decode failure.
//!
//! A frame is a JSON object. It is a response when it carries an `id`
//! member holding a 64-bit integer together with either a `result` member
//! (success, its text carried along undecoded) or an `error` member (an
//! object with an integer `code`, a string `message` and optional `data`).
//! Otherwise it is a notification when it carries a string `method` member,
//! with an optional `params` payload. Anything else — unparsable text, a
//! non-object, or an object matching neither shape — is a decode failure.
//! When a key occurs repeatedly, the last occurrence counts. Other members
//! (such as the `jsonrpc` version tag) are ignored.

use vstd::prelude::*;

use crate::json::MemberV;
use crate::json::members_view;
use crate::json::scan_members;
use crate::json::scan_string_into;
use crate::json::skip_ws;
use crate::json::spec_scan_members;
use crate::json::spec_scan_string;
use crate::json::spec_skip_ws;
use crate::json::lemma_scan_members_bounds;
use crate::messages::Error;
use crate::messages::Id;
use crate::messages::IncomingMessage;
use crate::messages::IncomingV;
use crate::messages::Notification;
use crate::messages::NotificationV;
use crate::messages::RawResult;
use crate::messages::RawResultV;
use crate::messages::Response;
use crate::messages::ResponseV;
use crate::messages::Success;
use crate::messages::ErrorV;
use crate::text::parse_i64_span;
use crate::text::span_to_string;
use crate::text::spec_parse_i64_span;
use crate::text::str_to_chars;
use crate::text::string_eq;

verus! {

/// An inbound frame that could not be decoded.
#[derive(Clone, Copy, Debug, PartialEq, Eq, Structural)]
pub struct DecodeError;

/// The value span of the last member with the given key, if any.
pub open spec fn spec_member_lookup(ms: Seq<MemberV>, key: Seq<char>) -> Option<(int, int)>
    decreases ms.len(),
{
    if ms.len() == 0 {
        None
    } else if ms.last().key == key {
        Some((ms.last().start, ms.last().end))
    } else {
        spec_member_lookup(ms.drop_last(), key)
    }
}

/// The members of the frame, provided the whole text is one JSON object
/// with nothing but whitespace around it.
pub open spec fn spec_members_of(s: Seq<char>) -> Option<Seq<MemberV>> {
    let i = spec_skip_ws(s, 0);
    if i < s.len() && s[i] == '{' {
        let j = spec_skip_ws(s, i + 1);
        if j < s.len() && s[j] == '}' {
            if spec_skip_ws(s, j + 1) == s.len() {
                Some(Seq::empty())
            } else {
                None
            }
        } else {
            match spec_scan_members(s, j) {
                None => None,
                Some((e, ms)) => if spec_skip_ws(s, e) == s.len() {
                    Some(ms)
                } else {
                    None
                },
            }
        }
    } else {
        None
    }
}

/// The members of the object whose text begins at `a`, if the value
/// there is an object.
pub open spec fn spec_object_members_at(s: Seq<char>, a: int) -> Option<Seq<MemberV>> {
    if 0 <= a && a < s.len() && s[a] == '{' {
        let j = spec_skip_ws(s, a + 1);
        if j < s.len() && s[j] == '}' {
            Some(Seq::empty())
        } else {
            match spec_scan_members(s, j) {
                None => None,
                Some((e, ms)) => Some(ms),
            }
        }
    } else {
        None
    }
}

/// The peer's error report read from the object beginning at `a`: an
/// integer `code`, a string `message`, and optional `data` (a `data`
/// member holding `null` counts as absent).
pub open spec fn spec_parse_error(s: Seq<char>, a: int) -> Option<ErrorV> {
    match spec_object_members_at(s, a) {
        None => None,
        Some(ms) => match (spec_member_lookup(ms, "code"@), spec_member_lookup(ms, "message"@)) {
            (Some((ca, cb)), Some((ma, mb))) => match spec_parse_i64_span(s, ca, cb) {
                None => None,
                Some(code) => if 0 <= ma && ma < s.len() && s[ma] == '"' {
                    match spec_scan_string(s, ma + 1) {
                        None => None,
                        Some((_e, msg)) => Some(
                            ErrorV {
                                code: code,
                                message: msg,
                                data: match spec_member_lookup(ms, "data"@) {
                                    None => None,
                                    Some((da, db)) => if s.subrange(da, db) == seq![
                                        'n',
                                        'u',
                                        'l',
                                        'l',
                                    ] {
                                        None
                                    } else {
                                        Some(s.subrange(da, db))
                                    },
                                },
                            },
                        ),
                    }
                } else {
                    None
                },
            },
            _ => None,
        },
    }
}

/// The frame as a response, if it has that shape.
pub open spec fn spec_classify_response(s: Seq<char>, ms: Seq<MemberV>) -> Option<ResponseV> {
    match spec_member_lookup(ms, "id"@) {
        None => None,
        Some((ia, ib)) => match spec_parse_i64_span(s, ia, ib) {
            None => None,
            Some(idv) => match spec_member_lookup(ms, "result"@) {
                Some((ra, rb)) => Some(
                    ResponseV { id: idv, res: RawResultV::Success(s.subrange(ra, rb)) },
                ),
                None => match spec_member_lookup(ms, "error"@) {
                    None => None,
                    Some((ea, eb)) => match spec_parse_error(s, ea) {
                        None => None,
                        Some(ev) => Some(ResponseV { id: idv, res: RawResultV::Error(ev) }),
                    },
                },
            },
        },
    }
}

/// The frame as a notification, if it has that shape.
pub open spec fn spec_classify_notification(s: Seq<char>, ms: Seq<MemberV>) -> Option<
    NotificationV,
> {
    match spec_member_lookup(ms, "method"@) {
        None => None,
        Some((ma, mb)) => if 0 <= ma && ma < s.len() && s[ma] == '"' {
            match spec_scan_string(s, ma + 1) {
                None => None,
                Some((_e, name)) => Some(
                    NotificationV {
                        method: name,
                        params: match spec_member_lookup(ms, "params"@) {
                            None => None,
                            Some((pa, pb)) => Some(s.subrange(pa, pb)),
                        },
                    },
                ),
            }
        } else {
            None
        },
    }
}

/// What decoding the frame `s` yields: a response when the response shape
/// fits, else a notification when that shape fits, else nothing.
pub open spec fn spec_decode(s: Seq<char>) -> Option<IncomingV> {
    match spec_members_of(s) {
        None => None,
        Some(ms) => match spec_classify_response(s, ms) {
            Some(r) => Some(IncomingV::Response(r)),
            None => match spec_classify_notification(s, ms) {
                Some(n) => Some(IncomingV::Notification(n)),
                None => None,
            },
        },
    }
}

/// The value span of the last member with the given key, if any.
fn member_lookup(ms: &Vec<(String, usize, usize)>, key: &str) -> (r: Option<(usize, usize)>)
    ensures
        match r {
            Some((a, b)) => {
                &&& spec_member_lookup(members_view(ms@), key@) == Some((a as int, b as int))
                &&& exists|k: int|
                    0 <= k < ms@.len() && ms@[k].1 == a && (#[trigger] ms@[k]).2 == b
            },
            None => spec_member_lookup(members_view(ms@), key@) is None,
        },
{
    let mut i: usize = ms.len();
    proof {
        assert(members_view(ms@).subrange(0, ms@.len() as int) =~= members_view(ms@));
    }
    while i > 0
        invariant
            i <= ms@.len(),
            spec_member_lookup(members_view(ms@), key@) == spec_member_lookup(
                members_view(ms@).subrange(0, i as int),
                key@,
            ),
        decreases i,
    {
        let entry_key: &String = &ms[i - 1].0;
        proof {
            assert(members_view(ms@).subrange(0, i as int).last() == members_view(ms@)[i - 1]);
            assert(members_view(ms@).subrange(0, i as int).drop_last() =~= members_view(
                ms@,
            ).subrange(0, i - 1));
        }
        if string_eq(entry_key, key) {
            return Some((ms[i - 1].1, ms[i - 1].2));
        }
        i = i - 1;
    }
    proof {
        assert(members_view(ms@).subrange(0, 0) =~= Seq::<MemberV>::empty());
    }
    None
}

/// The members of the frame, provided the whole text is one JSON object
/// with nothing but whitespace around it.
fn members_of(v: &Vec<char>) -> (r: Option<Vec<(String, usize, usize)>>)
    ensures
        match r {
            Some(ms) => {
                &&& spec_members_of(v@) == Some(members_view(ms@))
                &&& forall|k: int|
                    0 <= k < ms@.len() ==> (#[trigger] ms@[k]).1 <= ms@[k].2 <= v@.len()
            },
            None => spec_members_of(v@) is None,
        },
{
    let i = skip_ws(v, 0);
    if !(i < v.len() && v[i] == '{') {
        return None;
    }
    let j = skip_ws(v, i + 1);
    if j < v.len() && v[j] == '}' {
        if skip_ws(v, j + 1) == v.len() {
            let ms: Vec<(String, usize, usize)> = Vec::new();
            proof {
                assert(members_view(ms@) =~= Seq::<MemberV>::empty());
            }
            Some(ms)
        } else {
            None
        }
    } else {
        match scan_members(v, j) {
            None => None,
            Some((e, ms)) => {
                if skip_ws(v, e) == v.len() {
                    proof {
                        lemma_scan_members_bounds(v@, j as int);
                        assert forall|k: int| 0 <= k < ms@.len() implies (#[trigger] ms@[k]).1
                            <= ms@[k].2 <= v@.len() by {
                            assert(spec_scan_members(v@, j as int).unwrap().1[k] == members_view(
                                ms@,
                            )[k]);
                        }
                    }
                    Some(ms)
                } else {
                    None
                }
            },
        }
    }
}

/// The peer's error report read from the object beginning at `a`.
fn parse_error(v: &Vec<char>, a: usize) -> (r: Option<Error>)
    requires
        a <= v@.len(),
    ensures
        match r {
            Some(e) => spec_parse_error(v@, a as int) == Some(e@),
            None => spec_parse_error(v@, a as int) is None,
        },
{
    if !(a < v.len() && v[a] == '{') {
        return None;
    }
    let j = skip_ws(v, a + 1);
    let ms: Vec<(String, usize, usize)> = if j < v.len() && v[j] == '}' {
        let ms: Vec<(String, usize, usize)> = Vec::new();
        proof {
            assert(members_view(ms@) =~= Seq::<MemberV>::empty());
        }
        ms
    } else {
        match scan_members(v, j) {
            None => {
                return None;
            },
            Some((_e, ms)) => {
                proof {
                    lemma_scan_members_bounds(v@, j as int);
                    assert forall|k: int| 0 <= k < ms@.len() implies (#[trigger] ms@[k]).1
                        <= ms@[k].2 <= v@.len() by {
                        assert(spec_scan_members(v@, j as int).unwrap().1[k] == members_view(
                            ms@,
                        )[k]);
                    }
                }
                ms
            },
        }
    };
    assert(spec_object_members_at(v@, a as int) == Some(members_view(ms@)));
    assert(forall|k: int| 0 <= k < ms@.len() ==> (#[trigger] ms@[k]).1 <= ms@[k].2 <= v@.len());
    let code_span = member_lookup(&ms, "code");
    let msg_span = member_lookup(&ms, "message");
    match (code_span, msg_span) {
        (Some((ca, cb)), Some((ma, mb))) => {
            match parse_i64_span(v, ca, cb) {
                None => None,
                Some(code) => {
                    if ma < v.len() && v[ma] == '"' {
                        let mut msg = String::new();
                        match scan_string_into(v, ma + 1, &mut msg) {
                            None => None,
                            Some(_e) => {
                                let data = match member_lookup(&ms, "data") {
                                    None => None,
                                    Some((da, db)) => {
                                        if db - da == 4 && v[da] == 'n' && v[da + 1] == 'u' && v[da
                                            + 2] == 'l' && v[da + 3] == 'l' {
                                            proof {
                                                assert(v@.subrange(da as int, db as int) =~= seq![
                                                    'n',
                                                    'u',
                                                    'l',
                                                    'l',
                                                ]);
                                            }
                                            None
                                        } else {
                                            proof {
                                                if v@.subrange(da as int, db as int) == seq![
                                                    'n',
                                                    'u',
                                                    'l',
                                                    'l',
                                                ] {
                                                    assert(v@.subrange(da as int, db as int).len()
                                                        == 4);
                                                    assert(v@[da as int] == 'n' && v@[da + 1] == 'u'
                                                        && v@[da + 2] == 'l' && v@[da + 3] == 'l');
                                                }
                                            }
                                            Some(span_to_string(v, da, db))
                                        }
                                    },
                                };
                                Some(Error { code, message: msg, data })
                            },
                        }
                    } else {
                        None
                    }
                },
            }
        },
        _ => None,
    }
}

/// Decode one inbound frame.
///
/// Succeeds exactly when the frame has the response or notification shape
/// described in the module documentation; the returned message is the
/// decoded form of the frame.
pub fn decode(text: &str) -> (r: Result<IncomingMessage, DecodeError>)
    ensures
        match r {
            Ok(m) => spec_decode(text@) == Some(m@),
            Err(_) => spec_decode(text@) is None,
        },
{
    let v = str_to_chars(text);
    let ms = match members_of(&v) {
        None => {
            return Err(DecodeError);
        },
        Some(ms) => ms,
    };
    // Response shape first.
    if let Some((ia, ib)) = member_lookup(&ms, "id") {
        if let Some(idv) = parse_i64_span(&v, ia, ib) {
            if let Some((ra, rb)) = member_lookup(&ms, "result") {
                let payload = span_to_string(&v, ra, rb);
                return Ok(
                    IncomingMessage::Response(
                        Response {
                            id: Id(idv),
                            res: RawResult::Success(Success { result: payload }),
                        },
                    ),
                );
            }
            if let Some((ea, eb)) = member_lookup(&ms, "error") {
                if let Some(err) = parse_error(&v, ea) {
                    return Ok(
                        IncomingMessage::Response(
                            Response { id: Id(idv), res: RawResult::Error(err) },
                        ),
                    );
                }
            }
        }
    }
    // Notification shape.
    if let Some((ma, mb)) = member_lookup(&ms, "method") {
        if ma < v.len() && v[ma] == '"' {
            let mut name = String::new();
            if let Some(_e) = scan_string_into(&v, ma + 1, &mut name) {
                let params = match member_lookup(&ms, "params") {
                    None => None,
                    Some((pa, pb)) => Some(span_to_string(&v, pa, pb)),
                };
                return Ok(
                    IncomingMessage::Notification(Notification { method: name, params }),
                );
            }
        }
    }
    Err(DecodeError)
}

} // verus!
