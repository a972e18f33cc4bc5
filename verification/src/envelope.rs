//! The collaborator calls' pure halves: the parameter lists each request
//! carries, and the uniform envelope — `{response}` or `{error}` — every
//! response is unwrapped from.

use vstd::prelude::*;
use crate::errors::{LookupError, UpstreamError};
use crate::jsontext::{
    budget_for, find_field, find_field_at, skip_value, skip_value_at, val_i64, val_i64_at,
    val_is_null, val_is_null_at, val_string, val_string_at, val_u64, val_u64_at, ws_at, ws_run,
};
use crate::numtext::{i64_dec, i64_to_dec, u64_dec, u64_to_dec};
use crate::parse::{obj_string_field, status_is_success};
use crate::session::{ServerConfig, SessionModel, User, UserModel};
use crate::store::{chars_string, str_chars};
use crate::worker::opt_str_view;

verus! {

/// The model of a parameter list: name/value pairs, in order.
pub open spec fn pairs_view(v: Seq<(String, String)>) -> Seq<(Seq<char>, Seq<char>)> {
    v.map_values(|p: (String, String)| (p.0@, p.1@))
}

fn pair(name: &str, value: String) -> (r: (String, String))
    ensures
        r.0@ == name@,
        r.1 == value,
{
    (String::from_str(name), value)
}

/// The parameters of one long-poll request: the check action, the bounded
/// server-side wait, and the session's key and cursor, replayed verbatim.
pub open spec fn poll_query_spec(key: Seq<char>, ts: Seq<char>) -> Seq<(Seq<char>, Seq<char>)> {
    seq![("act"@, "a_check"@), ("wait"@, "25"@), ("key"@, key), ("ts"@, ts)]
}

/// Build the parameters of one long-poll request against `session`.
pub fn poll_query(session: &ServerConfig) -> (r: Vec<(String, String)>)
    ensures
        pairs_view(r@) == poll_query_spec(session@.key, session@.ts),
{
    let mut r: Vec<(String, String)> = Vec::new();
    r.push(pair("act", String::from_str("a_check")));
    r.push(pair("wait", String::from_str("25")));
    r.push(pair("key", session.key.clone()));
    r.push(pair("ts", session.ts.clone()));
    proof {
        assert(pairs_view(r@) =~= poll_query_spec(session@.key, session@.ts));
    }
    r
}

/// The parameters of the session-issuing call.
pub open spec fn session_query_spec(group_id: u64, token: Seq<char>) -> Seq<
    (Seq<char>, Seq<char>),
> {
    seq![("v"@, "5.100"@), ("group_id"@, u64_dec(group_id as int)), ("access_token"@, token)]
}

/// Build the parameters of the session-issuing call.
pub fn session_query(group_id: u64, token: &str) -> (r: Vec<(String, String)>)
    ensures
        pairs_view(r@) == session_query_spec(group_id, token@),
{
    let mut r: Vec<(String, String)> = Vec::new();
    r.push(pair("v", String::from_str("5.100")));
    r.push(pair("group_id", u64_to_dec(group_id)));
    r.push(pair("access_token", String::from_str(token)));
    proof {
        assert(pairs_view(r@) =~= session_query_spec(group_id, token@));
    }
    r
}

/// The parameters of the user-lookup call.
pub open spec fn user_query_spec(user_id: int, token: Seq<char>) -> Seq<(Seq<char>, Seq<char>)> {
    seq![("v"@, "5.100"@), ("user_ids"@, i64_dec(user_id)), ("access_token"@, token)]
}

/// Build the parameters of the user-lookup call.
pub fn user_query(user_id: i64, token: &str) -> (r: Vec<(String, String)>)
    ensures
        pairs_view(r@) == user_query_spec(user_id as int, token@),
{
    let mut r: Vec<(String, String)> = Vec::new();
    r.push(pair("v", String::from_str("5.100")));
    r.push(pair("user_ids", i64_to_dec(user_id)));
    r.push(pair("access_token", String::from_str(token)));
    proof {
        assert(pairs_view(r@) =~= user_query_spec(user_id as int, token@));
    }
    r
}

/// The parameters of the relay-send call: destination, collision-avoidance
/// identifier, token, and whichever of message text and attachment the relay
/// carries.
pub open spec fn message_query_spec(
    peer_id: int,
    random_id: int,
    token: Seq<char>,
    message: Option<Seq<char>>,
    attachment: Option<Seq<char>>,
) -> Seq<(Seq<char>, Seq<char>)> {
    let base = seq![
        ("v"@, "5.100"@),
        ("peer_id"@, i64_dec(peer_id)),
        ("random_id"@, i64_dec(random_id)),
        ("access_token"@, token),
    ];
    let with_message = match message {
        Some(m) => base.push(("message"@, m)),
        None => base,
    };
    match attachment {
        Some(a) => with_message.push(("attachment"@, a)),
        None => with_message,
    }
}

/// Build the parameters of the relay-send call. At least one of `message`
/// and `attachment` must be present for the relay to carry anything.
pub fn message_query(
    peer_id: i64,
    random_id: i64,
    token: &str,
    message: Option<String>,
    attachment: Option<String>,
) -> (r: Vec<(String, String)>)
    requires
        message is Some || attachment is Some,
    ensures
        pairs_view(r@) == message_query_spec(
            peer_id as int,
            random_id as int,
            token@,
            opt_str_view(message),
            opt_str_view(attachment),
        ),
{
    let mut r: Vec<(String, String)> = Vec::new();
    r.push(pair("v", String::from_str("5.100")));
    r.push(pair("peer_id", i64_to_dec(peer_id)));
    r.push(pair("random_id", i64_to_dec(random_id)));
    r.push(pair("access_token", String::from_str(token)));
    match message {
        Some(m) => r.push(pair("message", m)),
        None => (),
    }
    match attachment {
        Some(a) => r.push(pair("attachment", a)),
        None => (),
    }
    proof {
        assert(pairs_view(r@) =~= message_query_spec(
            peer_id as int,
            random_id as int,
            token@,
            opt_str_view(message),
            opt_str_view(attachment),
        ));
    }
    r
}

/// What a response envelope carries: an explicit error payload (taken apart
/// into its code and message), a missing or `null` success payload, a
/// success payload (located by its offset into the body), or a body that is
/// not a well-formed envelope at all. An explicit error takes precedence
/// over the payload; a `null` error counts as no error.
pub enum EnvClass {
    Malformed,
    Api { code: int, message: Seq<char> },
    MissingPayload,
    Payload(int),
}

/// The unsigned integer carried by the member named `key`, when there is
/// one.
pub open spec fn obj_u64_field(inner: Seq<char>, max: nat, key: Seq<char>) -> Option<int> {
    match find_field(inner, max, key) {
        Some(p) => val_u64(inner.skip(p)),
        None => None,
    }
}

/// Classify the `response` member of the envelope whose member area starts
/// at offset `it` of `s`.
pub open spec fn resp_class(s: Seq<char>, it: int, b: nat) -> EnvClass {
    let inner = s.skip(it);
    match find_field(inner, b, "response"@) {
        None => EnvClass::MissingPayload,
        Some(p) => if val_is_null(inner.skip(p)) {
            EnvClass::MissingPayload
        } else {
            EnvClass::Payload(it + p)
        },
    }
}

/// Classify a non-`null` `error` member value: the API error it carries, or
/// a malformed envelope when it is not an object with an unsigned integer
/// `error_code` and a string `error_msg`.
pub open spec fn error_class(ev: Seq<char>, b: nat) -> EnvClass {
    if ev.len() > 0 && ev[0] == '{' {
        let einner = ev.skip(1 + ws_run(ev.skip(1)));
        match (
            obj_u64_field(einner, b, "error_code"@),
            obj_string_field(einner, b, "error_msg"@),
        ) {
            (Some(code), Some(message)) => EnvClass::Api { code, message },
            _ => EnvClass::Malformed,
        }
    } else {
        EnvClass::Malformed
    }
}

/// Classify a whole envelope body, as the uniform envelope of every
/// collaborator call. The body must be one object, possibly surrounded by
/// whitespace; an `error` member must be an object carrying an unsigned
/// integer `error_code` and a string `error_msg`.
pub open spec fn envelope_class(s: Seq<char>) -> EnvClass {
    if 2 * s.len() + 2 > usize::MAX {
        EnvClass::Malformed
    } else {
        let b = budget_for(s.len() as int);
        let w0 = ws_run(s);
        let t = s.skip(w0);
        if t.len() == 0 || t[0] != '{' {
            EnvClass::Malformed
        } else {
            match skip_value(t, b) {
                None => EnvClass::Malformed,
                Some(u) => {
                    if s.len() != w0 + u + ws_run(s.skip(w0 + u)) {
                        EnvClass::Malformed
                    } else {
                        let it = w0 + 1 + ws_run(t.skip(1));
                        let inner = s.skip(it);
                        match find_field(inner, b, "error"@) {
                            None => resp_class(s, it, b),
                            Some(ep) => {
                                let ev = inner.skip(ep);
                                if val_is_null(ev) {
                                    resp_class(s, it, b)
                                } else {
                                    error_class(ev, b)
                                }
                            },
                        }
                    }
                },
            }
        }
    }
}

/// The session triple a session-issuing payload carries: an object with the
/// three string fields.
pub open spec fn session_payload(s: Seq<char>, b: nat) -> Option<SessionModel> {
    if s.len() > 0 && s[0] == '{' {
        let inner = s.skip(1 + ws_run(s.skip(1)));
        match (
            obj_string_field(inner, b, "key"@),
            obj_string_field(inner, b, "server"@),
            obj_string_field(inner, b, "ts"@),
        ) {
            (Some(key), Some(server), Some(ts)) => Some(SessionModel { key, server, ts }),
            _ => None,
        }
    } else {
        None
    }
}

/// One name part of a user record: absent or `null` is no name, a string is
/// the name, anything else makes the record invalid.
pub open spec fn name_part(inner: Seq<char>, b: nat, key: Seq<char>) -> Option<
    Option<Seq<char>>,
> {
    match find_field(inner, b, key) {
        None => Some(None),
        Some(p) => {
            let v = inner.skip(p);
            if val_is_null(v) {
                Some(None)
            } else {
                match val_string(v) {
                    Some(t) => Some(Some(t)),
                    None => None,
                }
            }
        },
    }
}

/// One user record and its extent: an object whose name parts are valid.
pub open spec fn user_at(s: Seq<char>, b: nat) -> Option<(UserModel, int)> {
    match skip_value(s, b) {
        None => None,
        Some(u) => {
            if s.len() > 0 && s[0] == '{' {
                let inner = s.skip(1 + ws_run(s.skip(1)));
                match (name_part(inner, b, "first_name"@), name_part(inner, b, "last_name"@)) {
                    (Some(first_name), Some(last_name)) => Some(
                        (UserModel { first_name, last_name }, u),
                    ),
                    _ => None,
                }
            } else {
                None
            }
        },
    }
}

/// The records of `user (, user)* ]`, entered at the first record with
/// whitespace consumed.
pub open spec fn users_at(s: Seq<char>, max: nat) -> Option<(Seq<UserModel>, int)>
    decreases max,
{
    if max == 0 {
        None
    } else {
        match user_at(s, max) {
            None => None,
            Some((m, u)) => {
                let w = ws_run(s.skip(u));
                let t = s.skip(u + w);
                if t.len() == 0 {
                    None
                } else if t[0] == ']' {
                    Some((seq![m], u + w + 1))
                } else if t[0] == ',' {
                    let w2 = ws_run(t.skip(1));
                    match users_at(s.skip(u + w + 1 + w2), (max - 1) as nat) {
                        Some((ms, u2)) => Some((seq![m] + ms, u + w + 1 + w2 + u2)),
                        None => None,
                    }
                } else {
                    None
                }
            },
        }
    }
}

/// The user list a lookup payload carries: an array of valid user records.
pub open spec fn users_payload(s: Seq<char>, max: nat) -> Option<Seq<UserModel>> {
    if s.len() > 0 && s[0] == '[' {
        let w = ws_run(s.skip(1));
        let t = s.skip(1 + w);
        if t.len() > 0 && t[0] == ']' {
            Some(Seq::empty())
        } else {
            match users_at(t, max) {
                Some((ms, u)) => Some(ms),
                None => None,
            }
        }
    } else {
        None
    }
}

enum EnvClassE {
    Malformed,
    Api { code: u64, message: String },
    MissingPayload,
    Payload(usize),
}

fn obj_u64_field_at(v: &Vec<char>, inner: usize, max: usize, key: &Vec<char>) -> (r: Option<u64>)
    requires
        inner <= v@.len(),
    ensures
        (match r {
            Some(x) => obj_u64_field(v@.skip(inner as int), max as nat, key@) == Some(x as int),
            None => obj_u64_field(v@.skip(inner as int), max as nat, key@) is None,
        }),
{
    let vlen = v.len();
    match find_field_at(v, inner, max, key) {
        Some(p) => {
            proof {
                assert(v@.skip(inner as int).skip(p as int) =~= v@.skip(inner as int + p as int));
            }
            val_u64_at(v, inner + p)
        },
        None => None,
    }
}

fn obj_string_field_at(v: &Vec<char>, inner: usize, max: usize, key: &Vec<char>) -> (r: Option<
    Vec<char>,
>)
    requires
        inner <= v@.len(),
    ensures
        (match r {
            Some(t) => obj_string_field(v@.skip(inner as int), max as nat, key@) == Some(t@),
            None => obj_string_field(v@.skip(inner as int), max as nat, key@) is None,
        }),
{
    let vlen = v.len();
    match find_field_at(v, inner, max, key) {
        Some(p) => {
            proof {
                assert(v@.skip(inner as int).skip(p as int) =~= v@.skip(inner as int + p as int));
            }
            val_string_at(v, inner + p)
        },
        None => None,
    }
}

fn resp_class_at(v: &Vec<char>, it: usize, b: usize) -> (r: EnvClassE)
    requires
        it <= v@.len(),
    ensures
        (match r {
            EnvClassE::MissingPayload => resp_class(v@, it as int, b as nat)
                is MissingPayload,
            EnvClassE::Payload(p) => it <= p <= v@.len() && resp_class(v@, it as int, b as nat)
                == EnvClass::Payload(p as int),
            _ => false,
        }),
{
    let vlen = v.len();
    let key_response = str_chars("response");
    match find_field_at(v, it, b, &key_response) {
        None => EnvClassE::MissingPayload,
        Some(p) => {
            proof {
                assert(v@.skip(it as int).skip(p as int) =~= v@.skip(it as int + p as int));
            }
            if val_is_null_at(v, it + p) {
                EnvClassE::MissingPayload
            } else {
                EnvClassE::Payload(it + p)
            }
        },
    }
}

#[verifier::rlimit(100)]
fn envelope_class_at(v: &Vec<char>) -> (r: EnvClassE)
    ensures
        (match r {
            EnvClassE::Malformed => envelope_class(v@) is Malformed,
            EnvClassE::Api { code, message } => envelope_class(v@) == (EnvClass::Api {
                code: code as int,
                message: message@,
            }),
            EnvClassE::MissingPayload => envelope_class(v@) is MissingPayload,
            EnvClassE::Payload(p) => p <= v@.len() && envelope_class(v@) == EnvClass::Payload(
                p as int,
            ),
        }),
{
    let n = v.len();
    if n > (usize::MAX - 2) / 2 {
        proof {
            assert(2 * v@.len() + 2 > usize::MAX);
        }
        return EnvClassE::Malformed;
    }
    let b: usize = 2 * n + 2;
    proof {
        assert(b as nat == budget_for(v@.len() as int));
        assert(v@.skip(0) =~= v@);
    }
    let w0 = ws_at(v, 0);
    let ghost t: Seq<char> = v@.skip(w0 as int);
    proof {
        assert(v@.skip(0).skip(w0 as int) =~= t);
    }
    if w0 >= n {
        proof {
            assert(t.len() == 0);
        }
        return EnvClassE::Malformed;
    }
    proof {
        assert(t[0] == v@[w0 as int]);
    }
    if v[w0] != '{' {
        return EnvClassE::Malformed;
    }
    let u = match skip_value_at(v, w0, b) {
        Some(u) => u,
        None => {
            return EnvClassE::Malformed;
        },
    };
    let w1 = ws_at(v, w0 + u);
    if w0 + u + w1 != n {
        return EnvClassE::Malformed;
    }
    proof {
        assert(t.skip(1) =~= v@.skip(w0 as int + 1));
    }
    let wi = ws_at(v, w0 + 1);
    let it = w0 + 1 + wi;
    proof {
        assert(v@.skip(w0 as int + 1).skip(wi as int) =~= v@.skip(it as int));
        assert(t.skip(1 + wi as int) =~= v@.skip(it as int));
    }
    let key_error = str_chars("error");
    match find_field_at(v, it, b, &key_error) {
        None => resp_class_at(v, it, b),
        Some(ep) => {
            let ev = it + ep;
            proof {
                assert(v@.skip(it as int).skip(ep as int) =~= v@.skip(ev as int));
            }
            if val_is_null_at(v, ev) {
                resp_class_at(v, it, b)
            } else {
                error_class_at(v, ev, b)
            }
        },
    }
}

fn error_class_at(v: &Vec<char>, ev: usize, b: usize) -> (r: EnvClassE)
    requires
        ev <= v@.len(),
    ensures
        (match r {
            EnvClassE::Malformed => error_class(v@.skip(ev as int), b as nat) is Malformed,
            EnvClassE::Api { code, message } => error_class(v@.skip(ev as int), b as nat)
                == (EnvClass::Api { code: code as int, message: message@ }),
            _ => false,
        }),
{
    let n = v.len();
    let ghost es: Seq<char> = v@.skip(ev as int);
    proof {
        if ev < v@.len() {
            assert(es[0] == v@[ev as int]);
        } else {
            assert(es.len() == 0);
        }
    }
    if ev < n && v[ev] == '{' {
        proof {
            assert(es.skip(1) =~= v@.skip(ev as int + 1));
        }
        let we = ws_at(v, ev + 1);
        let einner = ev + 1 + we;
        proof {
            assert(v@.skip(ev as int + 1).skip(we as int) =~= v@.skip(einner as int));
            assert(es.skip(1 + we as int) =~= v@.skip(einner as int));
        }
        let key_code = str_chars("error_code");
        let key_msg = str_chars("error_msg");
        let code = obj_u64_field_at(v, einner, b, &key_code);
        let message = obj_string_field_at(v, einner, b, &key_msg);
        match (code, message) {
            (Some(code), Some(message)) => EnvClassE::Api {
                code,
                message: chars_string(&message),
            },
            _ => EnvClassE::Malformed,
        }
    } else {
        EnvClassE::Malformed
    }
}

/// The session triple issued by the upstream session-issuing call, exactly
/// as [`envelope_class`] and [`session_payload`] define it: a non-success
/// status is the status error; an explicit error payload is the API error
/// with its code and message; an absent payload is the missing-payload
/// error; anything malformed is the malformed error; and a payload with the
/// three string fields is the issued triple.
pub fn parse_session_response(status: u16, body: &str) -> (r: Result<ServerConfig, UpstreamError>)
    ensures
        !status_is_success(status as int) ==> r == Err::<ServerConfig, UpstreamError>(
            UpstreamError::BadStatus { status },
        ),
        status_is_success(status as int) ==> (match envelope_class(body@) {
            EnvClass::Malformed => r == Err::<ServerConfig, UpstreamError>(
                UpstreamError::Malformed,
            ),
            EnvClass::Api { code, message } => (r matches Err(e) && e matches UpstreamError::Api {
                code: c,
                message: m,
            } && c as int == code && m@ == message),
            EnvClass::MissingPayload => r == Err::<ServerConfig, UpstreamError>(
                UpstreamError::MissingPayload,
            ),
            EnvClass::Payload(p) => (match session_payload(
                body@.skip(p),
                budget_for(body@.len() as int),
            ) {
                Some(sm) => r matches Ok(c) && c@ == sm,
                None => r == Err::<ServerConfig, UpstreamError>(UpstreamError::Malformed),
            }),
        }),
        r is Ok ==> status_is_success(status as int),
{
    if status < 200 || status >= 300 {
        return Err(UpstreamError::BadStatus { status });
    }
    let v = str_chars(body);
    let n = v.len();
    let b: usize = if n > (usize::MAX - 2) / 2 {
        0
    } else {
        2 * n + 2
    };
    match envelope_class_at(&v) {
        EnvClassE::Malformed => Err(UpstreamError::Malformed),
        EnvClassE::Api { code, message } => Err(UpstreamError::Api { code, message }),
        EnvClassE::MissingPayload => Err(UpstreamError::MissingPayload),
        EnvClassE::Payload(p) => {
            let ghost ps: Seq<char> = v@.skip(p as int);
            if !(p < n) {
                proof {
                    assert(ps.len() == 0);
                }
                return Err(UpstreamError::Malformed);
            }
            proof {
                assert(ps[0] == v@[p as int]);
            }
            if v[p] != '{' {
                return Err(UpstreamError::Malformed);
            }
            proof {
                assert(ps.skip(1) =~= v@.skip(p as int + 1));
            }
            let wp = ws_at(&v, p + 1);
            let inner = p + 1 + wp;
            proof {
                assert(v@.skip(p as int + 1).skip(wp as int) =~= v@.skip(inner as int));
                assert(ps.skip(1 + wp as int) =~= v@.skip(inner as int));
            }
            let key_key = str_chars("key");
            let key_server = str_chars("server");
            let key_ts = str_chars("ts");
            let key = obj_string_field_at(&v, inner, b, &key_key);
            let server = obj_string_field_at(&v, inner, b, &key_server);
            let ts = obj_string_field_at(&v, inner, b, &key_ts);
            match (key, server, ts) {
                (Some(key), Some(server), Some(ts)) => Ok(
                    ServerConfig {
                        key: chars_string(&key),
                        server: chars_string(&server),
                        ts: chars_string(&ts),
                    },
                ),
                _ => Err(UpstreamError::Malformed),
            }
        },
    }
}

#[verifier::rlimit(100)]
fn user_at_exec(v: &Vec<char>, i: usize, max: usize) -> (r: Option<(User, usize)>)
    requires
        i <= v@.len(),
    ensures
        (match r {
            Some(p) => i + p.1 <= v@.len() && user_at(v@.skip(i as int), max as nat) == Some(
                (p.0@, p.1 as int),
            ),
            None => user_at(v@.skip(i as int), max as nat) is None,
        }),
{
    let ghost s: Seq<char> = v@.skip(i as int);
    let vlen = v.len();
    let u = match skip_value_at(v, i, max) {
        Some(u) => u,
        None => {
            return None;
        },
    };
    if !(i < vlen) {
        proof {
            assert(s.len() == 0);
            assert(false);
        }
    }
    proof {
        assert(s[0] == v@[i as int]);
    }
    if v[i] != '{' {
        return None;
    }
    proof {
        assert(s.skip(1) =~= v@.skip(i as int + 1));
    }
    let wi = ws_at(v, i + 1);
    let inner = i + 1 + wi;
    proof {
        assert(v@.skip(i as int + 1).skip(wi as int) =~= v@.skip(inner as int));
        assert(s.skip(1 + wi as int) =~= v@.skip(inner as int));
    }
    let ghost inner_s: Seq<char> = v@.skip(inner as int);
    let key_first = str_chars("first_name");
    let key_last = str_chars("last_name");
    let first = match name_part_at(v, inner, max, &key_first) {
        Some(x) => x,
        None => {
            return None;
        },
    };
    let last = match name_part_at(v, inner, max, &key_last) {
        Some(x) => x,
        None => {
            return None;
        },
    };
    let user = User {
        first_name: match first {
            Some(t) => Some(chars_string(&t)),
            None => None,
        },
        last_name: match last {
            Some(t) => Some(chars_string(&t)),
            None => None,
        },
    };
    Some((user, u))
}

fn name_part_at(v: &Vec<char>, inner: usize, max: usize, key: &Vec<char>) -> (r: Option<
    Option<Vec<char>>,
>)
    requires
        inner <= v@.len(),
    ensures
        (match r {
            Some(part) => name_part(v@.skip(inner as int), max as nat, key@) == Some(
                (match part {
                    Some(t) => Some(t@),
                    None => None,
                }),
            ),
            None => name_part(v@.skip(inner as int), max as nat, key@) is None,
        }),
{
    let vlen = v.len();
    match find_field_at(v, inner, max, key) {
        None => Some(None),
        Some(p) => {
            proof {
                assert(v@.skip(inner as int).skip(p as int) =~= v@.skip(inner as int + p as int));
            }
            if val_is_null_at(v, inner + p) {
                Some(None)
            } else {
                match val_string_at(v, inner + p) {
                    Some(t) => Some(Some(t)),
                    None => None,
                }
            }
        },
    }
}

#[verifier::rlimit(100)]
fn users_at_exec(v: &Vec<char>, i: usize, max: usize) -> (r: Option<(Vec<User>, usize)>)
    requires
        i <= v@.len(),
    ensures
        (match r {
            Some(p) => i + p.1 <= v@.len() && (match users_at(v@.skip(i as int), max as nat) {
                Some(q) => q.0 == p.0@.map_values(|x: User| x@) && q.1 == p.1 as int,
                None => false,
            }),
            None => users_at(v@.skip(i as int), max as nat) is None,
        }),
    decreases max,
{
    let ghost s: Seq<char> = v@.skip(i as int);
    let vlen = v.len();
    if max == 0 {
        return None;
    }
    let (m, u) = match user_at_exec(v, i, max) {
        Some(p) => p,
        None => {
            return None;
        },
    };
    proof {
        assert(s.skip(u as int) =~= v@.skip(i as int + u as int));
    }
    let w = ws_at(v, i + u);
    let p = i + u + w;
    proof {
        assert(v@.skip(i as int + u as int).skip(w as int) =~= v@.skip(p as int));
        assert(s.skip(u as int + w as int) =~= v@.skip(p as int));
    }
    if p >= vlen {
        proof {
            assert(s.skip(u as int + w as int).len() == 0);
        }
        return None;
    }
    let c = v[p];
    proof {
        assert(s.skip(u as int + w as int)[0] == c);
    }
    if c == ']' {
        let mut out: Vec<User> = Vec::new();
        out.push(m);
        proof {
            assert(out@.map_values(|x: User| x@) =~= seq![out@[0]@]);
        }
        Some((out, u + w + 1))
    } else if c == ',' {
        let w2 = ws_at(v, p + 1);
        proof {
            assert(s.skip(u as int + w as int).skip(1) =~= v@.skip(p as int + 1));
            assert(v@.skip(p as int + 1).skip(w2 as int) =~= v@.skip(p as int + 1 + w2 as int));
            assert(s.skip(u as int + w as int + 1 + w2 as int) =~= v@.skip(
                p as int + 1 + w2 as int,
            ));
        }
        match users_at_exec(v, p + 1 + w2, max - 1) {
            Some(q) => {
                let (mut rest, u2) = q;
                let ghost rest0 = rest@;
                rest.insert(0, m);
                proof {
                    assert(rest@ =~= seq![m] + rest0);
                    assert(rest@.map_values(|x: User| x@) =~= seq![m@] + rest0.map_values(
                        |x: User| x@,
                    ));
                }
                Some((rest, u + w + 1 + w2 + u2))
            },
            None => None,
        }
    } else {
        None
    }
}

/// The user list returned by the user-lookup call, exactly as
/// [`envelope_class`] and [`users_payload`] define it.
#[verifier::rlimit(100)]
pub fn parse_users_response(status: u16, body: &str) -> (r: Result<Vec<User>, UpstreamError>)
    ensures
        !status_is_success(status as int) ==> r == Err::<Vec<User>, UpstreamError>(
            UpstreamError::BadStatus { status },
        ),
        status_is_success(status as int) ==> (match envelope_class(body@) {
            EnvClass::Malformed => r == Err::<Vec<User>, UpstreamError>(UpstreamError::Malformed),
            EnvClass::Api { code, message } => (r matches Err(e) && e matches UpstreamError::Api {
                code: c,
                message: m,
            } && c as int == code && m@ == message),
            EnvClass::MissingPayload => r == Err::<Vec<User>, UpstreamError>(
                UpstreamError::MissingPayload,
            ),
            EnvClass::Payload(p) => (match users_payload(
                body@.skip(p),
                budget_for(body@.len() as int),
            ) {
                Some(um) => r matches Ok(us) && us@.map_values(|x: User| x@) == um,
                None => r == Err::<Vec<User>, UpstreamError>(UpstreamError::Malformed),
            }),
        }),
        r is Ok ==> status_is_success(status as int),
{
    if status < 200 || status >= 300 {
        return Err(UpstreamError::BadStatus { status });
    }
    let v = str_chars(body);
    let n = v.len();
    let b: usize = if n > (usize::MAX - 2) / 2 {
        0
    } else {
        2 * n + 2
    };
    match envelope_class_at(&v) {
        EnvClassE::Malformed => Err(UpstreamError::Malformed),
        EnvClassE::Api { code, message } => Err(UpstreamError::Api { code, message }),
        EnvClassE::MissingPayload => Err(UpstreamError::MissingPayload),
        EnvClassE::Payload(p) => {
            let ghost ps: Seq<char> = v@.skip(p as int);
            if !(p < n) {
                proof {
                    assert(ps.len() == 0);
                }
                return Err(UpstreamError::Malformed);
            }
            proof {
                assert(ps[0] == v@[p as int]);
            }
            if v[p] != '[' {
                return Err(UpstreamError::Malformed);
            }
            proof {
                assert(ps.skip(1) =~= v@.skip(p as int + 1));
            }
            let wa = ws_at(&v, p + 1);
            let first = p + 1 + wa;
            proof {
                assert(v@.skip(p as int + 1).skip(wa as int) =~= v@.skip(first as int));
                assert(ps.skip(1 + wa as int) =~= v@.skip(first as int));
            }
            if first < n && v[first] == ']' {
                proof {
                    assert(v@.skip(first as int)[0] == v@[first as int]);
                }
                let empty: Vec<User> = Vec::new();
                proof {
                    assert(empty@.map_values(|x: User| x@) =~= Seq::<UserModel>::empty());
                }
                return Ok(empty);
            }
            proof {
                if first < v@.len() {
                    assert(v@.skip(first as int)[0] == v@[first as int]);
                }
            }
            match users_at_exec(&v, first, b) {
                Some(q) => Ok(q.0),
                None => Err(UpstreamError::Malformed),
            }
        },
    }
}

/// The numeric identifier the relay-send call answers with, exactly as
/// [`envelope_class`] defines the envelope, with an integer payload.
pub fn parse_send_response(status: u16, body: &str) -> (r: Result<i64, UpstreamError>)
    ensures
        !status_is_success(status as int) ==> r == Err::<i64, UpstreamError>(
            UpstreamError::BadStatus { status },
        ),
        status_is_success(status as int) ==> (match envelope_class(body@) {
            EnvClass::Malformed => r == Err::<i64, UpstreamError>(UpstreamError::Malformed),
            EnvClass::Api { code, message } => (r matches Err(e) && e matches UpstreamError::Api {
                code: c,
                message: m,
            } && c as int == code && m@ == message),
            EnvClass::MissingPayload => r == Err::<i64, UpstreamError>(
                UpstreamError::MissingPayload,
            ),
            EnvClass::Payload(p) => (match val_i64(body@.skip(p)) {
                Some(x) => r matches Ok(y) && y as int == x,
                None => r == Err::<i64, UpstreamError>(UpstreamError::Malformed),
            }),
        }),
        r is Ok ==> status_is_success(status as int),
{
    if status < 200 || status >= 300 {
        return Err(UpstreamError::BadStatus { status });
    }
    let v = str_chars(body);
    match envelope_class_at(&v) {
        EnvClassE::Malformed => Err(UpstreamError::Malformed),
        EnvClassE::Api { code, message } => Err(UpstreamError::Api { code, message }),
        EnvClassE::MissingPayload => Err(UpstreamError::MissingPayload),
        EnvClassE::Payload(p) => {
            match val_i64_at(&v, p) {
                Some(x) => Ok(x),
                None => Err(UpstreamError::Malformed),
            }
        },
    }
}

/// Exactly one user is a successful lookup; an empty list means the user
/// does not exist, and more than one entry is an upstream inconsistency.
pub fn pick_single_user(users: Vec<User>) -> (r: Result<User, LookupError>)
    ensures
        users@.len() == 0 ==> r == Err::<User, LookupError>(LookupError::NotFound),
        users@.len() == 1 ==> (r matches Ok(u) && u@ == users@[0]@),
        users@.len() > 1 ==> r == Err::<User, LookupError>(LookupError::Ambiguous),
{
    let mut users = users;
    if users.len() == 0 {
        Err(LookupError::NotFound)
    } else if users.len() == 1 {
        let u = users.remove(0);
        Ok(u)
    } else {
        Err(LookupError::Ambiguous)
    }
}

} // verus!
