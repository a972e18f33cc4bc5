//! The poll response body's format, defined over the body text, and the
//! verified parser for it; from the parsed response the interpreter produces
//! a [`PollOutcome`].
//!
//! A body is one JSON object tried against the two response shapes in order:
//! the cursor-with-updates shape needs a string `ts` and an array `updates`;
//! the failure shape needs an integer `failed` that fits the code byte, with
//! `ts` absent, `null` or an unsigned integer. A body that is not a single
//! well-formed object, has trailing content, or matches neither shape is
//! malformed for the cycle. An `updates` entry whose tag or payload is not
//! one of the two recognized forms is kept as `Unknown` rather than
//! rejected, so one strange entry never blocks the cycle.

use vstd::prelude::*;
use crate::errors::ProtocolError;
use crate::jsontext::{
    budget_for, chars_eq, find_field, find_field_at, skip_value, skip_value_at, val_i64,
    val_i64_at, val_is_null, val_is_null_at, val_string, val_string_at, val_u64, val_u64_at,
    ws_at, ws_run,
};
use crate::protocol::{
    interpret, interpret_spec, outcome_wf, PollOutcome, PollResponse, RawUpdate, ResponseModel,
    UpdateModel,
};
use crate::store::{chars_string, str_chars};

verus! {

/// Whether an HTTP status is a success status.
pub open spec fn status_is_success(status: int) -> bool {
    200 <= status < 300
}

/// The signed integer carried by the member named `key` of the object whose
/// member area is `inner`, when there is one.
pub open spec fn obj_i64_field(inner: Seq<char>, max: nat, key: Seq<char>) -> Option<int> {
    match find_field(inner, max, key) {
        Some(p) => val_i64(inner.skip(p)),
        None => None,
    }
}

/// The string carried by the member named `key`, when there is one.
pub open spec fn obj_string_field(inner: Seq<char>, max: nat, key: Seq<char>) -> Option<
    Seq<char>,
> {
    match find_field(inner, max, key) {
        Some(p) => val_string(inner.skip(p)),
        None => None,
    }
}

/// What one `updates` entry starting at `s` stands for. An entry that is not
/// an object, has no recognized tag, or whose payload lacks a required field
/// or gives it the wrong type, is `Unknown`.
pub open spec fn update_model(s: Seq<char>, max: nat) -> UpdateModel {
    if s.len() > 0 && s[0] == '{' {
        let inner = s.skip(1 + ws_run(s.skip(1)));
        let tag = obj_string_field(inner, max, "type"@);
        match find_field(inner, max, "object"@) {
            Some(op) => {
                let ov = inner.skip(op);
                if ov.len() > 0 && ov[0] == '{' {
                    let oinner = ov.skip(1 + ws_run(ov.skip(1)));
                    if tag == Some("wall_post_new"@) {
                        match obj_i64_field(oinner, max, "id"@) {
                            Some(id) => UpdateModel::WallPost { id },
                            None => UpdateModel::Unknown,
                        }
                    } else if tag == Some("board_post_new"@) {
                        match (
                            obj_i64_field(oinner, max, "from_id"@),
                            obj_string_field(oinner, max, "text"@),
                            obj_i64_field(oinner, max, "topic_id"@),
                            obj_i64_field(oinner, max, "id"@),
                        ) {
                            (Some(from_id), Some(text), Some(topic_id), Some(id)) =>
                                UpdateModel::BoardPost { from_id, text, topic_id, id },
                            _ => UpdateModel::Unknown,
                        }
                    } else {
                        UpdateModel::Unknown
                    }
                } else {
                    UpdateModel::Unknown
                }
            },
            None => UpdateModel::Unknown,
        }
    } else {
        UpdateModel::Unknown
    }
}

/// One `updates` entry: its meaning and its extent, provided it is a
/// well-formed JSON value at all.
pub open spec fn update_at(s: Seq<char>, max: nat) -> Option<(UpdateModel, int)> {
    match skip_value(s, max) {
        None => None,
        Some(u) => Some((update_model(s, max), u)),
    }
}

/// The entries of `value (, value)* ]`, entered at the first entry with
/// whitespace consumed: their meanings in order, and the extent consumed.
pub open spec fn updates_at(s: Seq<char>, max: nat) -> Option<(Seq<UpdateModel>, int)>
    decreases max,
{
    if max == 0 {
        None
    } else {
        match update_at(s, max) {
            None => None,
            Some((m, u)) => {
                let w = ws_run(s.skip(u));
                let t = s.skip(u + w);
                if t.len() == 0 {
                    None
                } else if t[0] == ']' {
                    Some((seq![m], u + w + 1))
                } else if t[0] == ',' {
                    let w2 = ws_run(t.skip(1));
                    match updates_at(s.skip(u + w + 1 + w2), (max - 1) as nat) {
                        Some((ms, u2)) => Some((seq![m] + ms, u + w + 1 + w2 + u2)),
                        None => None,
                    }
                } else {
                    None
                }
            },
        }
    }
}

/// The event list carried by an `updates` value, when the value is an array
/// of well-formed entries.
pub open spec fn updates_field(s: Seq<char>, max: nat) -> Option<Seq<UpdateModel>> {
    if s.len() > 0 && s[0] == '[' {
        let w = ws_run(s.skip(1));
        let t = s.skip(1 + w);
        if t.len() > 0 && t[0] == ']' {
            Some(Seq::empty())
        } else {
            match updates_at(t, max) {
                Some((ms, u)) => Some(ms),
                None => None,
            }
        }
    } else {
        None
    }
}

/// What a top-level `ts` member carries.
pub enum TsClass {
    Absent,
    Null,
    Num(int),
    Text(Seq<char>),
    Invalid,
}

/// Classify the top-level `ts` member of the object whose member area is
/// `inner`.
pub open spec fn ts_class(inner: Seq<char>, max: nat) -> TsClass {
    match find_field(inner, max, "ts"@) {
        None => TsClass::Absent,
        Some(p) => {
            let v = inner.skip(p);
            if val_is_null(v) {
                TsClass::Null
            } else {
                match val_string(v) {
                    Some(t) => TsClass::Text(t),
                    None => match val_u64(v) {
                        Some(x) => TsClass::Num(x),
                        None => TsClass::Invalid,
                    },
                }
            }
        },
    }
}

/// What a poll body means: the parsed response, or nothing for a malformed
/// body. The body must be one object, possibly surrounded by whitespace; the
/// cursor-with-updates shape takes precedence, then the failure report.
pub open spec fn poll_body_spec(s: Seq<char>) -> Option<ResponseModel> {
    if 2 * s.len() + 2 > usize::MAX {
        None
    } else {
        let b = budget_for(s.len() as int);
        let w0 = ws_run(s);
        let t = s.skip(w0);
        if t.len() == 0 || t[0] != '{' {
            None
        } else {
            match skip_value(t, b) {
                None => None,
                Some(u) => {
                    if s.len() != w0 + u + ws_run(s.skip(w0 + u)) {
                        None
                    } else {
                        let inner = t.skip(1 + ws_run(t.skip(1)));
                        let ts = ts_class(inner, b);
                        let failed = match find_field(inner, b, "failed"@) {
                            Some(p) => val_u64(inner.skip(p)),
                            None => None,
                        };
                        let updates = match find_field(inner, b, "updates"@) {
                            Some(p) => updates_field(inner.skip(p), b),
                            None => None,
                        };
                        if ts is Text && updates is Some {
                            Some(
                                ResponseModel::Updates { ts: ts->Text_0, updates: updates->0 },
                            )
                        } else {
                            match failed {
                                Some(f) => if f <= 255 {
                                    match ts {
                                        TsClass::Absent => Some(
                                            ResponseModel::Failure { failed: f, ts: None },
                                        ),
                                        TsClass::Null => Some(
                                            ResponseModel::Failure { failed: f, ts: None },
                                        ),
                                        TsClass::Num(x) => Some(
                                            ResponseModel::Failure { failed: f, ts: Some(x) },
                                        ),
                                        _ => None,
                                    }
                                } else {
                                    None
                                },
                                None => None,
                            }
                        }
                    }
                },
            }
        }
    }
}

/// What a single update document means: its entry, for a text that is one
/// well-formed JSON value, possibly surrounded by whitespace.
pub open spec fn event_doc_spec(s: Seq<char>) -> Option<UpdateModel> {
    if 2 * s.len() + 2 > usize::MAX {
        None
    } else {
        let b = budget_for(s.len() as int);
        let w0 = ws_run(s);
        match update_at(s.skip(w0), b) {
            None => None,
            Some((m, u)) => {
                if s.len() == w0 + u + ws_run(s.skip(w0 + u)) {
                    Some(m)
                } else {
                    None
                }
            },
        }
    }
}

fn obj_i64_field_at(v: &Vec<char>, inner: usize, max: usize, key: &Vec<char>) -> (r: Option<i64>)
    requires
        inner <= v@.len(),
    ensures
        (match r {
            Some(x) => obj_i64_field(v@.skip(inner as int), max as nat, key@) == Some(x as int),
            None => obj_i64_field(v@.skip(inner as int), max as nat, key@) is None,
        }),
{
    let vlen = v.len();
    match find_field_at(v, inner, max, key) {
        Some(p) => {
            proof {
                assert(v@.skip(inner as int).skip(p as int) =~= v@.skip(inner as int + p as int));
            }
            val_i64_at(v, inner + p)
        },
        None => None,
    }
}

fn obj_string_field_at(v: &Vec<char>, inner: usize, max: usize, key: &Vec<char>) -> (r: Option<
    Vec<char>,
>)
    requires
        inner <= v@.len(),
    ensures
        (match r {
            Some(t) => obj_string_field(v@.skip(inner as int), max as nat, key@) == Some(t@),
            None => obj_string_field(v@.skip(inner as int), max as nat, key@) is None,
        }),
{
    let vlen = v.len();
    match find_field_at(v, inner, max, key) {
        Some(p) => {
            proof {
                assert(v@.skip(inner as int).skip(p as int) =~= v@.skip(inner as int + p as int));
            }
            val_string_at(v, inner + p)
        },
        None => None,
    }
}

#[verifier::rlimit(100)]
fn update_at_exec(v: &Vec<char>, i: usize, max: usize) -> (r: Option<(RawUpdate, usize)>)
    requires
        i <= v@.len(),
    ensures
        (match r {
            Some(p) => i + p.1 <= v@.len() && update_at(v@.skip(i as int), max as nat) == Some(
                (p.0@, p.1 as int),
            ),
            None => update_at(v@.skip(i as int), max as nat) is None,
        }),
{
    let ghost s: Seq<char> = v@.skip(i as int);
    let vlen = v.len();
    let u = match skip_value_at(v, i, max) {
        Some(u) => u,
        None => {
            return None;
        },
    };
    if !(i < vlen) {
        proof {
            assert(s.len() == 0);
            assert(false);
        }
    }
    proof {
        assert(s[0] == v@[i as int]);
    }
    if v[i] != '{' {
        return Some((RawUpdate::Unknown, u));
    }
    proof {
        assert(s.skip(1) =~= v@.skip(i as int + 1));
    }
    let wi = ws_at(v, i + 1);
    let inner = i + 1 + wi;
    proof {
        assert(v@.skip(i as int + 1).skip(wi as int) =~= v@.skip(inner as int));
        assert(s.skip(1 + wi as int) =~= v@.skip(inner as int));
    }
    let key_type = str_chars("type");
    let key_object = str_chars("object");
    let tag = obj_string_field_at(v, inner, max, &key_type);
    let op = match find_field_at(v, inner, max, &key_object) {
        Some(op) => op,
        None => {
            return Some((RawUpdate::Unknown, u));
        },
    };
    let ov = inner + op;
    proof {
        assert(v@.skip(inner as int).skip(op as int) =~= v@.skip(ov as int));
    }
    if !(ov < vlen) {
        proof {
            assert(v@.skip(inner as int).skip(op as int).len() == 0);
        }
        return Some((RawUpdate::Unknown, u));
    }
    proof {
        assert(v@.skip(ov as int)[0] == v@[ov as int]);
    }
    if v[ov] != '{' {
        return Some((RawUpdate::Unknown, u));
    }
    proof {
        assert(v@.skip(ov as int).skip(1) =~= v@.skip(ov as int + 1));
    }
    let wo = ws_at(v, ov + 1);
    let oinner = ov + 1 + wo;
    proof {
        assert(v@.skip(ov as int + 1).skip(wo as int) =~= v@.skip(oinner as int));
        assert(v@.skip(ov as int).skip(1 + wo as int) =~= v@.skip(oinner as int));
    }
    let tag_chars = match tag {
        Some(t) => t,
        None => {
            return Some((RawUpdate::Unknown, u));
        },
    };
    let wall_tag = str_chars("wall_post_new");
    let board_tag = str_chars("board_post_new");
    let key_id = str_chars("id");
    if chars_eq(&tag_chars, &wall_tag) {
        match obj_i64_field_at(v, oinner, max, &key_id) {
            Some(id) => Some((RawUpdate::WallPost { id }, u)),
            None => Some((RawUpdate::Unknown, u)),
        }
    } else if chars_eq(&tag_chars, &board_tag) {
        let key_from = str_chars("from_id");
        let key_text = str_chars("text");
        let key_topic = str_chars("topic_id");
        let from_id = obj_i64_field_at(v, oinner, max, &key_from);
        let text = obj_string_field_at(v, oinner, max, &key_text);
        let topic_id = obj_i64_field_at(v, oinner, max, &key_topic);
        let id = obj_i64_field_at(v, oinner, max, &key_id);
        match (from_id, text, topic_id, id) {
            (Some(from_id), Some(text), Some(topic_id), Some(id)) => Some(
                (
                    RawUpdate::BoardPost {
                        from_id,
                        text: chars_string(&text),
                        topic_id,
                        id,
                    },
                    u,
                ),
            ),
            _ => Some((RawUpdate::Unknown, u)),
        }
    } else {
        Some((RawUpdate::Unknown, u))
    }
}

#[verifier::rlimit(100)]
fn updates_at_exec(v: &Vec<char>, i: usize, max: usize) -> (r: Option<(Vec<RawUpdate>, usize)>)
    requires
        i <= v@.len(),
    ensures
        (match r {
            Some(p) => i + p.1 <= v@.len() && (match updates_at(v@.skip(i as int), max as nat) {
                Some(q) => q.0 == p.0@.map_values(|x: RawUpdate| x@) && q.1 == p.1 as int,
                None => false,
            }),
            None => updates_at(v@.skip(i as int), max as nat) is None,
        }),
    decreases max,
{
    let ghost s: Seq<char> = v@.skip(i as int);
    let vlen = v.len();
    if max == 0 {
        return None;
    }
    let (m, u) = match update_at_exec(v, i, max) {
        Some(p) => p,
        None => {
            return None;
        },
    };
    proof {
        assert(s.skip(u as int) =~= v@.skip(i as int + u as int));
    }
    let w = ws_at(v, i + u);
    let p = i + u + w;
    proof {
        assert(v@.skip(i as int + u as int).skip(w as int) =~= v@.skip(p as int));
        assert(s.skip(u as int + w as int) =~= v@.skip(p as int));
    }
    if p >= vlen {
        proof {
            assert(s.skip(u as int + w as int).len() == 0);
        }
        return None;
    }
    let c = v[p];
    proof {
        assert(s.skip(u as int + w as int)[0] == c);
    }
    if c == ']' {
        let mut out: Vec<RawUpdate> = Vec::new();
        out.push(m);
        proof {
            assert(out@.map_values(|x: RawUpdate| x@) =~= seq![out@[0]@]);
        }
        Some((out, u + w + 1))
    } else if c == ',' {
        let w2 = ws_at(v, p + 1);
        proof {
            assert(s.skip(u as int + w as int).skip(1) =~= v@.skip(p as int + 1));
            assert(v@.skip(p as int + 1).skip(w2 as int) =~= v@.skip(p as int + 1 + w2 as int));
            assert(s.skip(u as int + w as int + 1 + w2 as int) =~= v@.skip(
                p as int + 1 + w2 as int,
            ));
        }
        match updates_at_exec(v, p + 1 + w2, max - 1) {
            Some(q) => {
                let (mut rest, u2) = q;
                let ghost rest0 = rest@;
                rest.insert(0, m);
                proof {
                    assert(rest@ =~= seq![m] + rest0);
                    assert(rest@.map_values(|x: RawUpdate| x@) =~= seq![m@] + rest0.map_values(
                        |x: RawUpdate| x@,
                    ));
                }
                Some((rest, u + w + 1 + w2 + u2))
            },
            None => None,
        }
    } else {
        None
    }
}

/// Read a poll response body, exactly as [`poll_body_spec`] defines it.
#[verifier::rlimit(100)]
pub fn parse_poll_response(body: &str) -> (r: Result<PollResponse, ProtocolError>)
    ensures
        (match poll_body_spec(body@) {
            Some(m) => r matches Ok(p) && p@ == m,
            None => r == Err::<PollResponse, ProtocolError>(ProtocolError::Malformed),
        }),
{
    let v = str_chars(body);
    let n = v.len();
    if n > (usize::MAX - 2) / 2 {
        proof {
            assert(2 * body@.len() + 2 > usize::MAX);
        }
        return Err(ProtocolError::Malformed);
    }
    let b: usize = 2 * n + 2;
    proof {
        assert(b as nat == budget_for(body@.len() as int));
        assert(v@.skip(0) =~= body@);
    }
    let w0 = ws_at(&v, 0);
    let ghost t: Seq<char> = body@.skip(w0 as int);
    proof {
        assert(v@.skip(0).skip(w0 as int) =~= t);
        assert(v@.skip(w0 as int) =~= t);
    }
    if w0 >= n {
        proof {
            assert(t.len() == 0);
        }
        return Err(ProtocolError::Malformed);
    }
    proof {
        assert(t[0] == v@[w0 as int]);
    }
    if v[w0] != '{' {
        return Err(ProtocolError::Malformed);
    }
    let u = match skip_value_at(&v, w0, b) {
        Some(u) => u,
        None => {
            return Err(ProtocolError::Malformed);
        },
    };
    proof {
        assert(v@.skip(w0 as int + u as int) =~= body@.skip(w0 as int + u as int));
    }
    let w1 = ws_at(&v, w0 + u);
    if w0 + u + w1 != n {
        return Err(ProtocolError::Malformed);
    }
    proof {
        assert(t.skip(1) =~= v@.skip(w0 as int + 1));
    }
    let wi = ws_at(&v, w0 + 1);
    let inner = w0 + 1 + wi;
    proof {
        assert(v@.skip(w0 as int + 1).skip(wi as int) =~= v@.skip(inner as int));
        assert(t.skip(1 + wi as int) =~= v@.skip(inner as int));
    }
    let ghost inner_s: Seq<char> = v@.skip(inner as int);
    // classify ts
    let key_ts = str_chars("ts");
    let ghost tsc = ts_class(inner_s, b as nat);
    let mut ts_text: Option<Vec<char>> = None;
    let mut ts_num: Option<u64> = None;
    let mut ts_ok_for_failure = false;
    match find_field_at(&v, inner, b, &key_ts) {
        None => {
            ts_ok_for_failure = true;
            proof {
                assert(tsc is Absent);
            }
        },
        Some(p) => {
            proof {
                assert(v@.skip(inner as int).skip(p as int) =~= v@.skip(inner as int + p as int));
            }
            if val_is_null_at(&v, inner + p) {
                ts_ok_for_failure = true;
                proof {
                    assert(tsc is Null);
                }
            } else {
                match val_string_at(&v, inner + p) {
                    Some(txt) => {
                        proof {
                            assert(tsc matches TsClass::Text(x) && x == txt@);
                        }
                        ts_text = Some(txt);
                    },
                    None => {
                        match val_u64_at(&v, inner + p) {
                            Some(x) => {
                                ts_num = Some(x);
                                ts_ok_for_failure = true;
                                proof {
                                    assert(tsc matches TsClass::Num(y) && y == x as int);
                                }
                            },
                            None => {
                                proof {
                                    assert(tsc is Invalid);
                                }
                            },
                        }
                    },
                }
            }
        },
    }
    // updates field
    let key_updates = str_chars("updates");
    let ghost upd_spec: Option<Seq<UpdateModel>> = match find_field(inner_s, b as nat, "updates"@) {
        Some(p) => updates_field(inner_s.skip(p), b as nat),
        None => None,
    };
    let updates: Option<Vec<RawUpdate>> = match find_field_at(&v, inner, b, &key_updates) {
        None => None,
        Some(p) => {
            let up = inner + p;
            proof {
                assert(v@.skip(inner as int).skip(p as int) =~= v@.skip(up as int));
            }
            let ghost uv: Seq<char> = v@.skip(up as int);
            if up < n && v[up] == '[' {
                proof {
                    assert(uv[0] == v@[up as int]);
                    assert(uv.skip(1) =~= v@.skip(up as int + 1));
                }
                let wa = ws_at(&v, up + 1);
                let first = up + 1 + wa;
                proof {
                    assert(v@.skip(up as int + 1).skip(wa as int) =~= v@.skip(first as int));
                    assert(uv.skip(1 + wa as int) =~= v@.skip(first as int));
                }
                if first < n && v[first] == ']' {
                    proof {
                        assert(v@.skip(first as int)[0] == v@[first as int]);
                    }
                    Some(Vec::new())
                } else {
                    proof {
                        if first < v@.len() {
                            assert(v@.skip(first as int)[0] == v@[first as int]);
                        }
                    }
                    match updates_at_exec(&v, first, b) {
                        Some(q) => Some(q.0),
                        None => None,
                    }
                }
            } else {
                proof {
                    if up < v@.len() {
                        assert(uv[0] == v@[up as int]);
                    }
                }
                None
            }
        },
    };
    proof {
        match &updates {
            Some(us) => {
                assert(upd_spec == Some(us@.map_values(|x: RawUpdate| x@)));
                if us@.len() == 0 {
                    assert(us@.map_values(|x: RawUpdate| x@) =~= Seq::<UpdateModel>::empty());
                }
            },
            None => {
                assert(upd_spec is None);
            },
        }
    }
    if let (Some(txt), Some(us)) = (ts_text, updates) {
        let p = PollResponse::Updates { ts: chars_string(&txt), updates: us };
        proof {
            assert(p@ == poll_body_spec(body@)->0);
        }
        return Ok(p);
    }
    // failure shape: ts_text is consumed above only on the success path;
    // reaching here means the pair did not match
    let key_failed = str_chars("failed");
    let failed = match find_field_at(&v, inner, b, &key_failed) {
        Some(p) => {
            proof {
                assert(v@.skip(inner as int).skip(p as int) =~= v@.skip(inner as int + p as int));
            }
            val_u64_at(&v, inner + p)
        },
        None => None,
    };
    match failed {
        Some(f) if f <= 255 && ts_ok_for_failure => {
            let p = PollResponse::Failure { failed: f as u8, ts: ts_num };
            proof {
                assert(p@ == poll_body_spec(body@)->0);
            }
            Ok(p)
        },
        _ => {
            proof {
                assert(poll_body_spec(body@) is None);
            }
            Err(ProtocolError::Malformed)
        },
    }
}

/// Read one update document, exactly as [`event_doc_spec`] defines it.
pub fn parse_event(body: &str) -> (r: Option<RawUpdate>)
    ensures
        (match r {
            Some(m) => event_doc_spec(body@) == Some(m@),
            None => event_doc_spec(body@) is None,
        }),
{
    let v = str_chars(body);
    let n = v.len();
    if n > (usize::MAX - 2) / 2 {
        proof {
            assert(2 * body@.len() + 2 > usize::MAX);
        }
        return None;
    }
    let b: usize = 2 * n + 2;
    proof {
        assert(b as nat == budget_for(body@.len() as int));
        assert(v@.skip(0) =~= body@);
    }
    let w0 = ws_at(&v, 0);
    proof {
        assert(v@.skip(0).skip(w0 as int) =~= v@.skip(w0 as int));
        assert(v@.skip(w0 as int) =~= body@.skip(w0 as int));
    }
    match update_at_exec(&v, w0, b) {
        Some(p) => {
            let (m, u) = p;
            proof {
                assert(v@.skip(w0 as int + u as int) =~= body@.skip(w0 as int + u as int));
            }
            let w1 = ws_at(&v, w0 + u);
            if w0 + u + w1 == n {
                Some(m)
            } else {
                None
            }
        },
        None => None,
    }
}

/// Interpret one poll request's result. A non-success status is exactly the
/// status error; on a success status, a malformed body is exactly the
/// malformed error, and a body the format accepts yields exactly the
/// interpretation of the response it parses to — which is always a
/// well-formed outcome.
pub fn interpret_poll(status: u16, body: &str) -> (r: Result<PollOutcome, ProtocolError>)
    ensures
        !status_is_success(status as int) ==> r == Err::<PollOutcome, ProtocolError>(
            ProtocolError::BadStatus { status },
        ),
        status_is_success(status as int) ==> (match poll_body_spec(body@) {
            Some(m) => r matches Ok(o) && o@ == interpret_spec(m),
            None => r == Err::<PollOutcome, ProtocolError>(ProtocolError::Malformed),
        }),
        r matches Ok(o) ==> status_is_success(status as int) && outcome_wf(o@),
{
    if status < 200 || status >= 300 {
        return Err(ProtocolError::BadStatus { status });
    }
    match parse_poll_response(body) {
        Ok(resp) => {
            proof {
                crate::protocol::lemma_interpret_wf(resp@);
            }
            Ok(interpret(resp))
        },
        Err(e) => Err(e),
    }
}

} // verus!
