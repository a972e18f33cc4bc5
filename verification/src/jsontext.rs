//! The textual grammar the response bodies are read with, defined over the
//! body's characters, and the verified reader that implements it.
//!
//! Every parsing function exists twice: an `open spec` function that defines
//! the format mathematically, and an executable twin proved to return exactly
//! what the definition says. The spec functions measure progress with an
//! explicit recursion budget, passed down unchanged by the twins; two budget
//! units per character of text suffice for any input, since every other
//! recursion step consumes at least one character.
//!
//! Deliberate permissiveness, stated here once: a number token is any run of
//! number characters, so its inner syntax (sign and digit placement, leading
//! zeros) is not checked beyond what a recognized integer field demands, and
//! a duplicated object key is decided by its first occurrence. Everything a
//! recognized field carries is validated exactly.

use vstd::prelude::*;

verus! {

/// JSON insignificant whitespace.
pub open spec fn is_ws(c: char) -> bool {
    c == ' ' || c == '\t' || c == '\n' || c == '\r'
}

/// How many whitespace characters `s` starts with.
pub open spec fn ws_run(s: Seq<char>) -> int
    decreases s.len(),
{
    if s.len() > 0 && is_ws(s[0]) {
        1 + ws_run(s.skip(1))
    } else {
        0
    }
}

/// The value of a hexadecimal digit of either case, `-1` otherwise.
pub open spec fn hexv(c: char) -> int {
    if '0' <= c && c <= '9' {
        c as int - '0' as int
    } else if 'a' <= c && c <= 'f' {
        10 + (c as int - 'a' as int)
    } else if 'A' <= c && c <= 'F' {
        10 + (c as int - 'A' as int)
    } else {
        -1
    }
}

/// The value of the four hexadecimal digits `s` starts with, `-1` when it
/// starts with anything else.
pub open spec fn hex4(s: Seq<char>) -> int {
    if s.len() >= 4 && hexv(s[0]) >= 0 && hexv(s[1]) >= 0 && hexv(s[2]) >= 0 && hexv(s[3]) >= 0 {
        hexv(s[0]) * 0x1000 + hexv(s[1]) * 0x100 + hexv(s[2]) * 0x10 + hexv(s[3])
    } else {
        -1
    }
}

/// The character a short string escape stands for, if it is a valid one.
pub open spec fn jescape(e: char) -> Option<char> {
    if e == '"' {
        Some('"')
    } else if e == '\\' {
        Some('\\')
    } else if e == '/' {
        Some('/')
    } else if e == 'b' {
        Some('\u{8}')
    } else if e == 't' {
        Some('\u{9}')
    } else if e == 'n' {
        Some('\u{a}')
    } else if e == 'f' {
        Some('\u{c}')
    } else if e == 'r' {
        Some('\u{d}')
    } else {
        None
    }
}

/// Read a string body starting right after the opening quote: the decoded
/// content and the number of characters consumed, closing quote included.
/// Handles the short escapes, `\uXXXX`, and surrogate pairs; a bare control
/// character, a lone surrogate or an unterminated string is invalid.
pub open spec fn jstr(s: Seq<char>) -> Option<(Seq<char>, int)>
    decreases s.len(),
{
    if s.len() == 0 {
        None
    } else if s[0] == '"' {
        Some((Seq::empty(), 1))
    } else if s[0] == '\\' {
        if s.len() < 2 {
            None
        } else if s[1] == 'u' {
            if s.len() < 6 {
                None
            } else {
                let h = hex4(s.skip(2));
                if h < 0 || (0xDC00 <= h && h < 0xE000) {
                    None
                } else if h < 0xD800 || h >= 0xE000 {
                    match jstr(s.skip(6)) {
                        Some((t, u)) => Some((seq![h as char] + t, 6 + u)),
                        None => None,
                    }
                } else {
                    if s.len() < 12 || s[6] != '\\' || s[7] != 'u' {
                        None
                    } else {
                        let l = hex4(s.skip(8));
                        if 0xDC00 <= l && l < 0xE000 {
                            let code = 0x10000 + (h - 0xD800) * 0x400 + (l - 0xDC00);
                            match jstr(s.skip(12)) {
                                Some((t, u)) => Some((seq![code as char] + t, 12 + u)),
                                None => None,
                            }
                        } else {
                            None
                        }
                    }
                }
            }
        } else {
            match jescape(s[1]) {
                Some(c) => match jstr(s.skip(2)) {
                    Some((t, u)) => Some((seq![c] + t, 2 + u)),
                    None => None,
                },
                None => None,
            }
        }
    } else if (s[0] as int) < 0x20 {
        None
    } else {
        match jstr(s.skip(1)) {
            Some((t, u)) => Some((seq![s[0]] + t, 1 + u)),
            None => None,
        }
    }
}

/// A character a number token may contain.
pub open spec fn is_num_char(c: char) -> bool {
    ('0' <= c && c <= '9') || c == '-' || c == '+' || c == '.' || c == 'e' || c == 'E'
}

/// How many number characters `s` starts with.
pub open spec fn num_run(s: Seq<char>) -> int
    decreases s.len(),
{
    if s.len() > 0 && is_num_char(s[0]) {
        1 + num_run(s.skip(1))
    } else {
        0
    }
}

/// A number run is never negative.
pub proof fn lemma_num_run_nonneg(s: Seq<char>)
    ensures
        num_run(s) >= 0,
    decreases s.len(),
{
    if s.len() > 0 && is_num_char(s[0]) {
        lemma_num_run_nonneg(s.skip(1));
    }
}

/// Whether `d` is one or more decimal digits.
pub open spec fn is_digits(d: Seq<char>) -> bool {
    d.len() > 0 && forall|i: int| 0 <= i < d.len() ==> '0' <= #[trigger] d[i] && d[i] <= '9'
}

/// The numeric value of a run of decimal digits.
pub open spec fn digits_val(d: Seq<char>) -> int
    decreases d.len(),
{
    if d.len() == 0 {
        0
    } else {
        digits_val(d.drop_last()) * 10 + (d.last() as int - '0' as int)
    }
}

/// The value of an unsigned integer literal that fits `u64`: the token must
/// be digits only — no sign, fraction or exponent — and within range.
pub open spec fn lit_u64(d: Seq<char>) -> Option<int> {
    if is_digits(d) && digits_val(d) <= u64::MAX {
        Some(digits_val(d))
    } else {
        None
    }
}

/// The value of a signed integer literal that fits `i64`.
pub open spec fn lit_i64(d: Seq<char>) -> Option<int> {
    if is_digits(d) && digits_val(d) <= i64::MAX {
        Some(digits_val(d))
    } else if d.len() > 1 && d[0] == '-' && is_digits(d.skip(1)) && digits_val(d.skip(1)) <= 1
        + i64::MAX {
        Some(-digits_val(d.skip(1)))
    } else {
        None
    }
}

/// How many characters one JSON value starting at `s` occupies, if one does.
pub open spec fn skip_value(s: Seq<char>, max: nat) -> Option<int>
    decreases max, 0nat,
{
    if max == 0 || s.len() == 0 {
        None
    } else if s[0] == '"' {
        match jstr(s.skip(1)) {
            Some((t, u)) => Some(1 + u),
            None => None,
        }
    } else if s[0] == '[' {
        let w = ws_run(s.skip(1));
        let t = s.skip(1 + w);
        if t.len() > 0 && t[0] == ']' {
            Some(1 + w + 1)
        } else {
            match skip_items(t, (max - 1) as nat) {
                Some(u) => Some(1 + w + u),
                None => None,
            }
        }
    } else if s[0] == '{' {
        let w = ws_run(s.skip(1));
        let t = s.skip(1 + w);
        if t.len() > 0 && t[0] == '}' {
            Some(1 + w + 1)
        } else {
            match skip_members(t, (max - 1) as nat) {
                Some(u) => Some(1 + w + u),
                None => None,
            }
        }
    } else if s[0] == 't' {
        if s.len() >= 4 && s[1] == 'r' && s[2] == 'u' && s[3] == 'e' {
            Some(4)
        } else {
            None
        }
    } else if s[0] == 'f' {
        if s.len() >= 5 && s[1] == 'a' && s[2] == 'l' && s[3] == 's' && s[4] == 'e' {
            Some(5)
        } else {
            None
        }
    } else if s[0] == 'n' {
        if s.len() >= 4 && s[1] == 'u' && s[2] == 'l' && s[3] == 'l' {
            Some(4)
        } else {
            None
        }
    } else if s[0] == '-' || ('0' <= s[0] && s[0] <= '9') {
        Some(num_run(s))
    } else {
        None
    }
}

/// The extent of `value (, value)* ]`, entered at a value with whitespace
/// already consumed.
pub open spec fn skip_items(s: Seq<char>, max: nat) -> Option<int>
    decreases max, 1nat,
{
    if max == 0 {
        None
    } else {
        match skip_value(s, max) {
            None => None,
            Some(u) => {
                let w = ws_run(s.skip(u));
                let t = s.skip(u + w);
                if t.len() == 0 {
                    None
                } else if t[0] == ']' {
                    Some(u + w + 1)
                } else if t[0] == ',' {
                    let w2 = ws_run(t.skip(1));
                    match skip_items(s.skip(u + w + 1 + w2), (max - 1) as nat) {
                        Some(u2) => Some(u + w + 1 + w2 + u2),
                        None => None,
                    }
                } else {
                    None
                }
            },
        }
    }
}

/// The extent of `"key": value (, "key": value)* }`, entered at a key with
/// whitespace already consumed.
pub open spec fn skip_members(s: Seq<char>, max: nat) -> Option<int>
    decreases max, 1nat,
{
    if max == 0 || s.len() == 0 || s[0] != '"' {
        None
    } else {
        match jstr(s.skip(1)) {
            None => None,
            Some((k, uk)) => {
                let p1 = 1 + uk + ws_run(s.skip(1 + uk));
                if p1 >= s.len() || s[p1] != ':' {
                    None
                } else {
                    let p2 = p1 + 1 + ws_run(s.skip(p1 + 1));
                    match skip_value(s.skip(p2), max) {
                        None => None,
                        Some(uv) => {
                            let p3 = p2 + uv + ws_run(s.skip(p2 + uv));
                            if p3 >= s.len() {
                                None
                            } else if s[p3] == '}' {
                                Some(p3 + 1)
                            } else if s[p3] == ',' {
                                let p4 = p3 + 1 + ws_run(s.skip(p3 + 1));
                                match skip_members(s.skip(p4), (max - 1) as nat) {
                                    Some(u2) => Some(p4 + u2),
                                    None => None,
                                }
                            } else {
                                None
                            }
                        },
                    }
                }
            },
        }
    }
}

/// Where the value of the first member named `key` starts, as an offset into
/// `s`; absent when no such member comes before the closing brace (or the
/// member list is not well formed, which the surrounding extent check already
/// rejects). Entered like [`skip_members`].
pub open spec fn find_field(s: Seq<char>, max: nat, key: Seq<char>) -> Option<int>
    decreases max,
{
    if max == 0 || s.len() == 0 || s[0] != '"' {
        None
    } else {
        match jstr(s.skip(1)) {
            None => None,
            Some((k, uk)) => {
                let p1 = 1 + uk + ws_run(s.skip(1 + uk));
                if p1 >= s.len() || s[p1] != ':' {
                    None
                } else {
                    let p2 = p1 + 1 + ws_run(s.skip(p1 + 1));
                    if k == key {
                        Some(p2)
                    } else {
                        match skip_value(s.skip(p2), max) {
                            None => None,
                            Some(uv) => {
                                let p3 = p2 + uv + ws_run(s.skip(p2 + uv));
                                if p3 >= s.len() || s[p3] != ',' {
                                    None
                                } else {
                                    let p4 = p3 + 1 + ws_run(s.skip(p3 + 1));
                                    match find_field(s.skip(p4), (max - 1) as nat, key) {
                                        Some(q) => Some(p4 + q),
                                        None => None,
                                    }
                                }
                            },
                        }
                    }
                }
            },
        }
    }
}

/// The content of a string value starting at `s`.
pub open spec fn val_string(s: Seq<char>) -> Option<Seq<char>> {
    if s.len() > 0 && s[0] == '"' {
        match jstr(s.skip(1)) {
            Some((t, u)) => Some(t),
            None => None,
        }
    } else {
        None
    }
}

/// The value of an unsigned integer value starting at `s`.
pub open spec fn val_u64(s: Seq<char>) -> Option<int> {
    lit_u64(s.take(num_run(s)))
}

/// The value of a signed integer value starting at `s`.
pub open spec fn val_i64(s: Seq<char>) -> Option<int> {
    lit_i64(s.take(num_run(s)))
}

/// Whether the value starting at `s` is `null`.
pub open spec fn val_is_null(s: Seq<char>) -> bool {
    s.len() >= 4 && s[0] == 'n' && s[1] == 'u' && s[2] == 'l' && s[3] == 'l'
}

/// The recursion budget that suffices for a text of `n` characters.
pub open spec fn budget_for(n: int) -> nat {
    (2 * n + 2) as nat
}

/// Relies on `char::from_u32`: the character with the given code, absent
/// exactly for surrogate codes and codes beyond the scalar range.
#[verifier::external_body]
fn char_of_code(h: u32) -> (r: Option<char>)
    ensures
        r matches Some(c) ==> c as u32 == h,
        ((0xD800 <= h && h < 0xE000) || h > 0x10FFFF) <==> r is None,
{
    char::from_u32(h)
}

pub(crate) fn ws_at(v: &Vec<char>, i: usize) -> (n: usize)
    requires
        i <= v@.len(),
    ensures
        i + n <= v@.len(),
        n as int == ws_run(v@.skip(i as int)),
{
    let mut j = i;
    while j < v.len() && (v[j] == ' ' || v[j] == '\t' || v[j] == '\n' || v[j] == '\r')
        invariant
            i <= j <= v@.len(),
            ws_run(v@.skip(i as int)) == j - i + ws_run(v@.skip(j as int)),
        decreases v@.len() - j,
    {
        proof {
            assert(v@.skip(j as int)[0] == v@[j as int]);
            assert(v@.skip(j as int).skip(1) =~= v@.skip(j as int + 1));
        }
        j = j + 1;
    }
    proof {
        if j < v@.len() {
            assert(v@.skip(j as int)[0] == v@[j as int]);
        }
        assert(ws_run(v@.skip(j as int)) == 0);
    }
    j - i
}

fn hexv_at(c: char) -> (r: Option<u32>)
    ensures
        (match r {
            Some(h) => h < 16 && hexv(c) == h as int,
            None => hexv(c) < 0,
        }),
{
    proof {
        crate::text::lemma_char_nonneg(c);
    }
    let u = c as u32;
    if c >= '0' && c <= '9' {
        Some(u - 48)
    } else if c >= 'a' && c <= 'f' {
        Some(u - 97 + 10)
    } else if c >= 'A' && c <= 'F' {
        Some(u - 65 + 10)
    } else {
        None
    }
}

fn hex4_at(v: &Vec<char>, i: usize) -> (r: Option<u32>)
    requires
        i + 4 <= v@.len(),
    ensures
        (match r {
            Some(h) => h < 0x10000 && hex4(v@.skip(i as int)) == h as int,
            None => hex4(v@.skip(i as int)) < 0,
        }),
{
    let n = v.len();
    proof {
        assert(v@.skip(i as int)[0] == v@[i as int]);
        assert(v@.skip(i as int)[1] == v@[i as int + 1]);
        assert(v@.skip(i as int)[2] == v@[i as int + 2]);
        assert(v@.skip(i as int)[3] == v@[i as int + 3]);
    }
    let a = hexv_at(v[i]);
    let b = hexv_at(v[i + 1]);
    let c = hexv_at(v[i + 2]);
    let d = hexv_at(v[i + 3]);
    match (a, b, c, d) {
        (Some(a), Some(b), Some(c), Some(d)) => Some(a * 0x1000 + b * 0x100 + c * 0x10 + d),
        _ => None,
    }
}

fn jescape_at(e: char) -> (r: Option<char>)
    ensures
        r == jescape(e),
{
    if e == '"' {
        Some('"')
    } else if e == '\\' {
        Some('\\')
    } else if e == '/' {
        Some('/')
    } else if e == 'b' {
        Some('\u{8}')
    } else if e == 't' {
        Some('\u{9}')
    } else if e == 'n' {
        Some('\u{a}')
    } else if e == 'f' {
        Some('\u{c}')
    } else if e == 'r' {
        Some('\u{d}')
    } else {
        None
    }
}

#[verifier::rlimit(100)]
pub(crate) fn jstr_at(v: &Vec<char>, i: usize) -> (r: Option<(Vec<char>, usize)>)
    requires
        i <= v@.len(),
    ensures
        (match r {
            Some(p) => i + p.1 <= v@.len() && jstr(v@.skip(i as int)) == Some(
                (p.0@, p.1 as int),
            ),
            None => jstr(v@.skip(i as int)) is None,
        }),
    decreases v@.len() - i,
{
    let ghost s: Seq<char> = v@.skip(i as int);
    if i >= v.len() {
        return None;
    }
    let c = v[i];
    proof {
        assert(s[0] == c);
        crate::text::lemma_char_nonneg(c);
    }
    if c == '"' {
        let content: Vec<char> = Vec::new();
        return Some((content, 1));
    }
    if c == '\\' {
        if i + 1 >= v.len() {
            return None;
        }
        let e = v[i + 1];
        proof {
            assert(s[1] == e);
        }
        if e == 'u' {
            if v.len() - i < 6 {
                return None;
            }
            proof {
                assert(s.skip(2) =~= v@.skip(i as int + 2));
            }
            let h = match hex4_at(v, i + 2) {
                Some(h) => h,
                None => {
                    return None;
                },
            };
            if 0xDC00 <= h && h < 0xE000 {
                return None;
            }
            if h < 0xD800 || h >= 0xE000 {
                let c2 = match char_of_code(h) {
                    Some(c2) => c2,
                    None => {
                        proof {
                            assert(false);
                        }
                        return None;
                    },
                };
                proof {
                    assert(c2 as int == c2 as u32 as int) by {
                        crate::text::lemma_char_nonneg(c2);
                    }
                    assert((h as int) as char as int == h as int);
                    assert(c2 == ((h as int) as char));
                }
                match jstr_at(v, i + 6) {
                    Some(p) => {
                        let (mut t, u) = p;
                        t.insert(0, c2);
                        proof {
                            assert(s.skip(6) =~= v@.skip(i as int + 6));
                            assert(t@ =~= seq![c2] + t@.skip(1));
                        }
                        return Some((t, 6 + u));
                    },
                    None => {
                        proof {
                            assert(s.skip(6) =~= v@.skip(i as int + 6));
                        }
                        return None;
                    },
                }
            }
            if v.len() - i < 12 {
                return None;
            }
            proof {
                assert(s[6] == v@[i as int + 6]);
                assert(s[7] == v@[i as int + 7]);
                assert(s.skip(8) =~= v@.skip(i as int + 8));
            }
            if v[i + 6] != '\\' || v[i + 7] != 'u' {
                return None;
            }
            let l = match hex4_at(v, i + 8) {
                Some(l) => l,
                None => {
                    return None;
                },
            };
            if !(0xDC00 <= l && l < 0xE000) {
                return None;
            }
            let code: u32 = 0x10000 + (h - 0xD800) * 0x400 + (l - 0xDC00);
            let c2 = match char_of_code(code) {
                Some(c2) => c2,
                None => {
                    proof {
                        assert(false);
                    }
                    return None;
                },
            };
            proof {
                assert(c2 as int == c2 as u32 as int) by {
                    crate::text::lemma_char_nonneg(c2);
                }
                assert((code as int) as char as int == code as int);
                assert(c2 == ((code as int) as char));
            }
            match jstr_at(v, i + 12) {
                Some(p) => {
                    let (mut t, u) = p;
                    t.insert(0, c2);
                    proof {
                        assert(s.skip(12) =~= v@.skip(i as int + 12));
                        assert(t@ =~= seq![c2] + t@.skip(1));
                    }
                    Some((t, 12 + u))
                },
                None => {
                    proof {
                        assert(s.skip(12) =~= v@.skip(i as int + 12));
                    }
                    None
                },
            }
        } else {
            match jescape_at(e) {
                Some(c2) => match jstr_at(v, i + 2) {
                    Some(p) => {
                        let (mut t, u) = p;
                        t.insert(0, c2);
                        proof {
                            assert(s.skip(2) =~= v@.skip(i as int + 2));
                            assert(t@ =~= seq![c2] + t@.skip(1));
                        }
                        Some((t, 2 + u))
                    },
                    None => {
                        proof {
                            assert(s.skip(2) =~= v@.skip(i as int + 2));
                        }
                        None
                    },
                },
                None => None,
            }
        }
    } else if (c as u32) < 0x20 {
        None
    } else {
        match jstr_at(v, i + 1) {
            Some(p) => {
                let (mut t, u) = p;
                t.insert(0, c);
                proof {
                    assert(s.skip(1) =~= v@.skip(i as int + 1));
                    assert(t@ =~= seq![c] + t@.skip(1));
                }
                Some((t, 1 + u))
            },
            None => {
                proof {
                    assert(s.skip(1) =~= v@.skip(i as int + 1));
                }
                None
            },
        }
    }
}

pub(crate) fn num_at(v: &Vec<char>, i: usize) -> (n: usize)
    requires
        i <= v@.len(),
    ensures
        i + n <= v@.len(),
        n as int == num_run(v@.skip(i as int)),
{
    let mut j = i;
    while j < v.len() && (v[j] == '-' || v[j] == '+' || v[j] == '.' || v[j] == 'e' || v[j] == 'E'
        || (v[j] >= '0' && v[j] <= '9'))
        invariant
            i <= j <= v@.len(),
            num_run(v@.skip(i as int)) == j - i + num_run(v@.skip(j as int)),
        decreases v@.len() - j,
    {
        proof {
            assert(v@.skip(j as int)[0] == v@[j as int]);
            assert(v@.skip(j as int).skip(1) =~= v@.skip(j as int + 1));
        }
        j = j + 1;
    }
    proof {
        if j < v@.len() {
            assert(v@.skip(j as int)[0] == v@[j as int]);
        }
        assert(num_run(v@.skip(j as int)) == 0);
    }
    j - i
}


#[verifier::rlimit(100)]
pub(crate) fn skip_value_at(v: &Vec<char>, i: usize, max: usize) -> (r: Option<usize>)
    requires
        i <= v@.len(),
    ensures
        (match r {
            Some(u) => i + u <= v@.len() && skip_value(v@.skip(i as int), max as nat) == Some(
                u as int,
            ),
            None => skip_value(v@.skip(i as int), max as nat) is None,
        }),
    decreases max, 0int,
{
    let ghost s: Seq<char> = v@.skip(i as int);
    let vlen = v.len();
    if max == 0 || i >= vlen {
        return None;
    }
    let c = v[i];
    proof {
        assert(s[0] == c);
    }
    if c == '"' {
        proof {
            assert(s.skip(1) =~= v@.skip(i as int + 1));
        }
        match jstr_at(v, i + 1) {
            Some(p) => Some(1 + p.1),
            None => None,
        }
    } else if c == '[' {
        proof {
            assert(s.skip(1) =~= v@.skip(i as int + 1));
        }
        let w = ws_at(v, i + 1);
        proof {
            assert(v@.skip(i as int + 1).skip(w as int) =~= v@.skip(i as int + 1 + w as int));
            assert(s.skip(1 + w as int) =~= v@.skip(i as int + 1 + w as int));
        }
        if i + 1 + w < v.len() && v[i + 1 + w] == ']' {
            proof {
                assert(s.skip(1 + w as int)[0] == v@[i as int + 1 + w as int]);
            }
            Some(1 + w + 1)
        } else {
            proof {
                if i + 1 + w < v@.len() {
                    assert(s.skip(1 + w as int)[0] == v@[i as int + 1 + w as int]);
                }
            }
            match skip_items_at(v, i + 1 + w, max - 1) {
                Some(u) => Some(1 + w + u),
                None => None,
            }
        }
    } else if c == '{' {
        proof {
            assert(s.skip(1) =~= v@.skip(i as int + 1));
        }
        let w = ws_at(v, i + 1);
        proof {
            assert(v@.skip(i as int + 1).skip(w as int) =~= v@.skip(i as int + 1 + w as int));
            assert(s.skip(1 + w as int) =~= v@.skip(i as int + 1 + w as int));
        }
        if i + 1 + w < v.len() && v[i + 1 + w] == '}' {
            proof {
                assert(s.skip(1 + w as int)[0] == v@[i as int + 1 + w as int]);
            }
            Some(1 + w + 1)
        } else {
            proof {
                if i + 1 + w < v@.len() {
                    assert(s.skip(1 + w as int)[0] == v@[i as int + 1 + w as int]);
                }
            }
            match skip_members_at(v, i + 1 + w, max - 1) {
                Some(u) => Some(1 + w + u),
                None => None,
            }
        }
    } else if c == 't' {
        proof {
            if v@.len() - i >= 4 {
                assert(s[1] == v@[i as int + 1]);
                assert(s[2] == v@[i as int + 2]);
                assert(s[3] == v@[i as int + 3]);
            }
        }
        if v.len() - i >= 4 && v[i + 1] == 'r' && v[i + 2] == 'u' && v[i + 3] == 'e' {
            Some(4)
        } else {
            None
        }
    } else if c == 'f' {
        proof {
            if v@.len() - i >= 5 {
                assert(s[1] == v@[i as int + 1]);
                assert(s[2] == v@[i as int + 2]);
                assert(s[3] == v@[i as int + 3]);
                assert(s[4] == v@[i as int + 4]);
            }
        }
        if v.len() - i >= 5 && v[i + 1] == 'a' && v[i + 2] == 'l' && v[i + 3] == 's' && v[i + 4]
            == 'e' {
            Some(5)
        } else {
            None
        }
    } else if c == 'n' {
        proof {
            if v@.len() - i >= 4 {
                assert(s[1] == v@[i as int + 1]);
                assert(s[2] == v@[i as int + 2]);
                assert(s[3] == v@[i as int + 3]);
            }
        }
        if v.len() - i >= 4 && v[i + 1] == 'u' && v[i + 2] == 'l' && v[i + 3] == 'l' {
            Some(4)
        } else {
            None
        }
    } else if c == '-' || (c >= '0' && c <= '9') {
        proof {
            crate::text::lemma_char_nonneg(c);
        }
        Some(num_at(v, i))
    } else {
        proof {
            crate::text::lemma_char_nonneg(c);
        }
        None
    }
}

#[verifier::rlimit(100)]
fn skip_items_at(v: &Vec<char>, i: usize, max: usize) -> (r: Option<usize>)
    requires
        i <= v@.len(),
    ensures
        (match r {
            Some(u) => i + u <= v@.len() && skip_items(v@.skip(i as int), max as nat) == Some(
                u as int,
            ),
            None => skip_items(v@.skip(i as int), max as nat) is None,
        }),
    decreases max, 1int,
{
    let ghost s: Seq<char> = v@.skip(i as int);
    let vlen = v.len();
    if max == 0 {
        return None;
    }
    let u = match skip_value_at(v, i, max) {
        Some(u) => u,
        None => {
            return None;
        },
    };
    proof {
        assert(s.skip(u as int) =~= v@.skip(i as int + u as int));
    }
    let w = ws_at(v, i + u);
    let p = i + u + w;
    proof {
        assert(v@.skip(i as int + u as int).skip(w as int) =~= v@.skip(p as int));
        assert(s.skip(u as int + w as int) =~= v@.skip(p as int));
    }
    if p >= v.len() {
        proof {
            assert(s.skip(u as int + w as int).len() == 0);
        }
        return None;
    }
    let c = v[p];
    proof {
        assert(s.skip(u as int + w as int)[0] == c);
    }
    if c == ']' {
        Some(u + w + 1)
    } else if c == ',' {
        let w2 = ws_at(v, p + 1);
        proof {
            assert(s.skip(u as int + w as int).skip(1) =~= v@.skip(p as int + 1));
            assert(v@.skip(p as int + 1).skip(w2 as int) =~= v@.skip(p as int + 1 + w2 as int));
            assert(s.skip(u as int + w as int + 1 + w2 as int) =~= v@.skip(
                p as int + 1 + w2 as int,
            ));
        }
        match skip_items_at(v, p + 1 + w2, max - 1) {
            Some(u2) => Some(u + w + 1 + w2 + u2),
            None => None,
        }
    } else {
        None
    }
}

#[verifier::rlimit(100)]
fn skip_members_at(v: &Vec<char>, i: usize, max: usize) -> (r: Option<usize>)
    requires
        i <= v@.len(),
    ensures
        (match r {
            Some(u) => i + u <= v@.len() && skip_members(v@.skip(i as int), max as nat) == Some(
                u as int,
            ),
            None => skip_members(v@.skip(i as int), max as nat) is None,
        }),
    decreases max, 1int,
{
    let ghost s: Seq<char> = v@.skip(i as int);
    let vlen = v.len();
    if max == 0 || i >= vlen {
        return None;
    }
    proof {
        assert(s[0] == v@[i as int]);
    }
    if v[i] != '"' {
        return None;
    }
    proof {
        assert(s.skip(1) =~= v@.skip(i as int + 1));
    }
    let uk = match jstr_at(v, i + 1) {
        Some(p) => p.1,
        None => {
            return None;
        },
    };
    proof {
        assert(s.skip(1 + uk as int) =~= v@.skip(i as int + 1 + uk as int));
    }
    let w1 = ws_at(v, i + 1 + uk);
    let p1 = 1 + uk + w1;
    proof {
        assert(v@.skip(i as int + 1 + uk as int).skip(w1 as int) =~= v@.skip(
            i as int + p1 as int,
        ));
    }
    if i + p1 >= v.len() {
        proof {
            assert(p1 as int >= s.len());
        }
        return None;
    }
    proof {
        assert(s[p1 as int] == v@[i as int + p1 as int]);
    }
    if v[i + p1] != ':' {
        return None;
    }
    proof {
        assert(s.skip(p1 as int + 1) =~= v@.skip(i as int + p1 as int + 1));
    }
    let w2 = ws_at(v, i + p1 + 1);
    let p2 = p1 + 1 + w2;
    proof {
        assert(v@.skip(i as int + p1 as int + 1).skip(w2 as int) =~= v@.skip(
            i as int + p2 as int,
        ));
        assert(s.skip(p2 as int) =~= v@.skip(i as int + p2 as int));
    }
    let uv = match skip_value_at(v, i + p2, max) {
        Some(u) => u,
        None => {
            return None;
        },
    };
    proof {
        assert(s.skip(p2 as int + uv as int) =~= v@.skip(i as int + p2 as int + uv as int));
    }
    let w3 = ws_at(v, i + p2 + uv);
    let p3 = p2 + uv + w3;
    proof {
        assert(v@.skip(i as int + p2 as int + uv as int).skip(w3 as int) =~= v@.skip(
            i as int + p3 as int,
        ));
    }
    if i + p3 >= v.len() {
        proof {
            assert(p3 as int >= s.len());
        }
        return None;
    }
    proof {
        assert(s[p3 as int] == v@[i as int + p3 as int]);
    }
    let c = v[i + p3];
    if c == '}' {
        Some(p3 + 1)
    } else if c == ',' {
        proof {
            assert(s.skip(p3 as int + 1) =~= v@.skip(i as int + p3 as int + 1));
        }
        let w4 = ws_at(v, i + p3 + 1);
        let p4 = p3 + 1 + w4;
        proof {
            assert(v@.skip(i as int + p3 as int + 1).skip(w4 as int) =~= v@.skip(
                i as int + p4 as int,
            ));
            assert(s.skip(p4 as int) =~= v@.skip(i as int + p4 as int));
        }
        match skip_members_at(v, i + p4, max - 1) {
            Some(u2) => Some(p4 + u2),
            None => None,
        }
    } else {
        None
    }
}

pub(crate) fn chars_eq(a: &Vec<char>, b: &Vec<char>) -> (r: bool)
    ensures
        r == (a@ == b@),
{
    if a.len() != b.len() {
        return false;
    }
    let mut k: usize = 0;
    while k < a.len()
        invariant
            k <= a@.len(),
            a@.len() == b@.len(),
            forall|m: int| 0 <= m < k ==> a@[m] == b@[m],
        decreases a@.len() - k,
    {
        if a[k] != b[k] {
            return false;
        }
        k = k + 1;
    }
    proof {
        assert(a@ =~= b@);
    }
    true
}

#[verifier::rlimit(100)]
pub(crate) fn find_field_at(v: &Vec<char>, i: usize, max: usize, key: &Vec<char>) -> (r: Option<
    usize,
>)
    requires
        i <= v@.len(),
    ensures
        (match r {
            Some(q) => i + q <= v@.len() && find_field(v@.skip(i as int), max as nat, key@)
                == Some(q as int),
            None => find_field(v@.skip(i as int), max as nat, key@) is None,
        }),
    decreases max,
{
    let ghost s: Seq<char> = v@.skip(i as int);
    let vlen = v.len();
    if max == 0 || i >= vlen {
        return None;
    }
    proof {
        assert(s[0] == v@[i as int]);
    }
    if v[i] != '"' {
        return None;
    }
    proof {
        assert(s.skip(1) =~= v@.skip(i as int + 1));
    }
    let (k, uk) = match jstr_at(v, i + 1) {
        Some(p) => p,
        None => {
            return None;
        },
    };
    proof {
        assert(s.skip(1 + uk as int) =~= v@.skip(i as int + 1 + uk as int));
    }
    let w1 = ws_at(v, i + 1 + uk);
    let p1 = 1 + uk + w1;
    proof {
        assert(v@.skip(i as int + 1 + uk as int).skip(w1 as int) =~= v@.skip(
            i as int + p1 as int,
        ));
    }
    if i + p1 >= v.len() {
        proof {
            assert(p1 as int >= s.len());
        }
        return None;
    }
    proof {
        assert(s[p1 as int] == v@[i as int + p1 as int]);
    }
    if v[i + p1] != ':' {
        return None;
    }
    proof {
        assert(s.skip(p1 as int + 1) =~= v@.skip(i as int + p1 as int + 1));
    }
    let w2 = ws_at(v, i + p1 + 1);
    let p2 = p1 + 1 + w2;
    proof {
        assert(v@.skip(i as int + p1 as int + 1).skip(w2 as int) =~= v@.skip(
            i as int + p2 as int,
        ));
        assert(s.skip(p2 as int) =~= v@.skip(i as int + p2 as int));
    }
    if chars_eq(&k, key) {
        return Some(p2);
    }
    let uv = match skip_value_at(v, i + p2, max) {
        Some(u) => u,
        None => {
            return None;
        },
    };
    proof {
        assert(s.skip(p2 as int + uv as int) =~= v@.skip(i as int + p2 as int + uv as int));
    }
    let w3 = ws_at(v, i + p2 + uv);
    let p3 = p2 + uv + w3;
    proof {
        assert(v@.skip(i as int + p2 as int + uv as int).skip(w3 as int) =~= v@.skip(
            i as int + p3 as int,
        ));
    }
    if i + p3 >= v.len() {
        proof {
            assert(p3 as int >= s.len());
        }
        return None;
    }
    proof {
        assert(s[p3 as int] == v@[i as int + p3 as int]);
    }
    if v[i + p3] != ',' {
        return None;
    }
    proof {
        assert(s.skip(p3 as int + 1) =~= v@.skip(i as int + p3 as int + 1));
    }
    let w4 = ws_at(v, i + p3 + 1);
    let p4 = p3 + 1 + w4;
    proof {
        assert(v@.skip(i as int + p3 as int + 1).skip(w4 as int) =~= v@.skip(
            i as int + p4 as int,
        ));
        assert(s.skip(p4 as int) =~= v@.skip(i as int + p4 as int));
    }
    match find_field_at(v, i + p4, max - 1, key) {
        Some(q) => Some(p4 + q),
        None => None,
    }
}


/// The content of a string value starting at position `i`.
pub(crate) fn val_string_at(v: &Vec<char>, i: usize) -> (r: Option<Vec<char>>)
    requires
        i <= v@.len(),
    ensures
        (match r {
            Some(t) => val_string(v@.skip(i as int)) == Some(t@),
            None => val_string(v@.skip(i as int)) is None,
        }),
{
    let ghost s: Seq<char> = v@.skip(i as int);
    if i >= v.len() {
        return None;
    }
    proof {
        assert(s[0] == v@[i as int]);
    }
    if v[i] != '"' {
        return None;
    }
    proof {
        assert(s.skip(1) =~= v@.skip(i as int + 1));
    }
    match jstr_at(v, i + 1) {
        Some(p) => Some(p.0),
        None => None,
    }
}

/// Whether the value starting at position `i` is `null`.
pub(crate) fn val_is_null_at(v: &Vec<char>, i: usize) -> (r: bool)
    requires
        i <= v@.len(),
    ensures
        r == val_is_null(v@.skip(i as int)),
{
    let ghost s: Seq<char> = v@.skip(i as int);
    proof {
        if v@.len() - i >= 4 {
            assert(s[0] == v@[i as int]);
            assert(s[1] == v@[i as int + 1]);
            assert(s[2] == v@[i as int + 2]);
            assert(s[3] == v@[i as int + 3]);
        }
    }
    v.len() - i >= 4 && v[i] == 'n' && v[i + 1] == 'u' && v[i + 2] == 'l' && v[i + 3] == 'l'
}

/// The digits of the number token at `i`, accumulated with an overflow cap.
/// Returns the token length, and the value unless it exceeded `cap` or a
/// non-digit appeared in the token.
#[verifier::rlimit(100)]
fn digits_at(v: &Vec<char>, i: usize, from: usize, cap: u128) -> (r: (usize, Option<u128>))
    requires
        i <= v@.len(),
        from >= 1 ==> 1 == from,
        cap >= 1,
        cap <= u64::MAX as u128,
    ensures
        ({
            let s = v@.skip(i as int);
            let n = r.0;
            let lit = s.take(num_run(s)).skip(from as int);
            &&& n as int == num_run(s)
            &&& i + n <= v@.len()
            &&& (from as int) <= n ==> (match r.1 {
                Some(a) => a <= cap && is_digits(lit) && digits_val(lit) == a,
                None => !(is_digits(lit) && digits_val(lit) <= cap),
            })
        }),
{
    let ghost s: Seq<char> = v@.skip(i as int);
    let vlen = v.len();
    let n = num_at(v, i);
    let ghost lit = s.take(n as int).skip(from as int);
    if from > n {
        return (n, None);
    }
    let mut acc: u128 = 0;
    let mut over = false;
    let mut k: usize = from;
    proof {
        assert(lit.take(0) =~= Seq::<char>::empty());
    }
    while k < n
        invariant
            from <= k <= n,
            i + n <= v@.len(),
            v@.len() <= usize::MAX,
            s == v@.skip(i as int),
            n as int == num_run(s),
            lit == s.take(n as int).skip(from as int),
            lit.len() == n - from,
            cap >= 1,
            cap <= u64::MAX as u128,
            forall|m: int|
                0 <= m < k - from ==> '0' <= #[trigger] lit[m] && lit[m] <= '9',
            !over ==> acc <= cap && acc == digits_val(lit.take(k - from)),
            over ==> digits_val(lit.take(k - from)) > cap,
        decreases n - k,
    {
        let c = v[i + k];
        proof {
            assert(lit[k - from] == s[k as int]);
            assert(s[k as int] == v@[i as int + k as int]);
            crate::text::lemma_char_nonneg(c);
        }
        if !(c >= '0' && c <= '9') {
            proof {
                assert(!is_digits(lit));
            }
            return (n, None);
        }
        let d: u128 = (c as u32 - 48) as u128;
        proof {
            assert(lit.take(k - from + 1).drop_last() =~= lit.take(k - from));
            assert(lit.take(k - from + 1).last() == lit[k - from]);
        }
        if over {
            proof {
                assert(digits_val(lit.take(k - from + 1)) > cap);
            }
        } else {
            let acc2: u128 = acc * 10 + d;
            if acc2 > cap {
                over = true;
            } else {
                acc = acc2;
            }
        }
        k = k + 1;
    }
    proof {
        assert(lit.take(n - from) =~= lit);
    }
    if over {
        (n, None)
    } else {
        if n == from {
            proof {
                assert(lit.len() == 0);
                assert(!is_digits(lit));
            }
            (n, None)
        } else {
            (n, Some(acc))
        }
    }
}

/// The unsigned integer value starting at position `i`.
pub(crate) fn val_u64_at(v: &Vec<char>, i: usize) -> (r: Option<u64>)
    requires
        i <= v@.len(),
    ensures
        (match r {
            Some(h) => val_u64(v@.skip(i as int)) == Some(h as int),
            None => val_u64(v@.skip(i as int)) is None,
        }),
{
    let ghost s: Seq<char> = v@.skip(i as int);
    let (n, a) = digits_at(v, i, 0, u64::MAX as u128);
    proof {
        assert(s.take(num_run(s)).skip(0) =~= s.take(num_run(s)));
    }
    match a {
        Some(a) => Some(a as u64),
        None => None,
    }
}

/// The signed integer value starting at position `i`.
#[verifier::rlimit(100)]
pub(crate) fn val_i64_at(v: &Vec<char>, i: usize) -> (r: Option<i64>)
    requires
        i <= v@.len(),
    ensures
        (match r {
            Some(h) => val_i64(v@.skip(i as int)) == Some(h as int),
            None => val_i64(v@.skip(i as int)) is None,
        }),
{
    let ghost s: Seq<char> = v@.skip(i as int);
    let negative = i < v.len() && v[i] == '-';
    proof {
        if i < v@.len() {
            assert(s[0] == v@[i as int]);
        }
    }
    if negative {
        let (n, a) = digits_at(v, i, 1, 0x8000000000000000u128);
        let ghost lit = s.take(num_run(s));
        proof {
            assert(is_num_char(s[0]));
            lemma_num_run_nonneg(s.skip(1));
            assert(num_run(s) >= 1);
            assert(lit[0] == s[0]);
            assert(!is_digits(lit));
        }
        if n < 2 {
            proof {
                assert(lit.len() < 2);
            }
            return None;
        }
        match a {
            Some(mag) => {
                proof {
                    assert(is_digits(lit.skip(1)));
                    assert(!is_digits(lit));
                }
                if mag == 0x8000000000000000u128 {
                    Some(i64::MIN)
                } else {
                    Some(-((mag as u64) as i64))
                }
            },
            None => {
                proof {
                    assert(lit.len() >= 2 && lit[0] == '-');
                    assert(!is_digits(lit));
                }
                None
            },
        }
    } else {
        let (n, a) = digits_at(v, i, 0, i64::MAX as u128);
        let ghost lit = s.take(num_run(s));
        proof {
            assert(lit.skip(0) =~= lit);
            if num_run(s) >= 1 {
                assert(lit[0] == s[0]);
            }
        }
        match a {
            Some(h) => Some((h as u64) as i64),
            None => {
                proof {
                    if num_run(s) == 0 {
                        assert(lit.len() == 0);
                        assert(!is_digits(lit));
                    }
                    if lit.len() > 1 && lit[0] == '-' {
                        assert(s[0] == '-');
                        assert(false);
                    }
                }
                None
            },
        }
    }
}

} // verus!
