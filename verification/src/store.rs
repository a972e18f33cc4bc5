//! The session store's logic: the one-line record format a session triple is
//! persisted in, its decoder, and the in-memory record slot with atomic
//! overwrite semantics. Only the slot's content is decided here; reading and
//! writing the actual file is the surroundings' job.
//!
//! The record is a JSON object with the three string fields `key`, `server`
//! and `ts`, in that order, with the usual JSON string escapes.

use vstd::prelude::*;
use crate::session::{ServerConfig, SessionModel};
use crate::text::{lemma_char_nonneg, push_char};
use crate::worker::opt_str_view;

verus! {

/// The lowercase hexadecimal digit for `d`.
pub open spec fn hex_digit(d: int) -> char
    recommends
        0 <= d < 16,
{
    if d == 0 {
        '0'
    } else if d == 1 {
        '1'
    } else if d == 2 {
        '2'
    } else if d == 3 {
        '3'
    } else if d == 4 {
        '4'
    } else if d == 5 {
        '5'
    } else if d == 6 {
        '6'
    } else if d == 7 {
        '7'
    } else if d == 8 {
        '8'
    } else if d == 9 {
        '9'
    } else if d == 10 {
        'a'
    } else if d == 11 {
        'b'
    } else if d == 12 {
        'c'
    } else if d == 13 {
        'd'
    } else if d == 14 {
        'e'
    } else {
        'f'
    }
}

/// The value of a lowercase hexadecimal digit, `-1` for any other character.
pub open spec fn hex_val(c: char) -> int {
    if c == '0' {
        0
    } else if c == '1' {
        1
    } else if c == '2' {
        2
    } else if c == '3' {
        3
    } else if c == '4' {
        4
    } else if c == '5' {
        5
    } else if c == '6' {
        6
    } else if c == '7' {
        7
    } else if c == '8' {
        8
    } else if c == '9' {
        9
    } else if c == 'a' {
        10
    } else if c == 'b' {
        11
    } else if c == 'c' {
        12
    } else if c == 'd' {
        13
    } else if c == 'e' {
        14
    } else if c == 'f' {
        15
    } else {
        -1
    }
}

/// The control character with code `h`.
pub open spec fn ctrl_char(h: int) -> char
    recommends
        0 <= h < 0x20,
{
    if h == 0x0 {
        '\u{0}'
    } else if h == 0x1 {
        '\u{1}'
    } else if h == 0x2 {
        '\u{2}'
    } else if h == 0x3 {
        '\u{3}'
    } else if h == 0x4 {
        '\u{4}'
    } else if h == 0x5 {
        '\u{5}'
    } else if h == 0x6 {
        '\u{6}'
    } else if h == 0x7 {
        '\u{7}'
    } else if h == 0x8 {
        '\u{8}'
    } else if h == 0x9 {
        '\u{9}'
    } else if h == 0xa {
        '\u{a}'
    } else if h == 0xb {
        '\u{b}'
    } else if h == 0xc {
        '\u{c}'
    } else if h == 0xd {
        '\u{d}'
    } else if h == 0xe {
        '\u{e}'
    } else if h == 0xf {
        '\u{f}'
    } else if h == 0x10 {
        '\u{10}'
    } else if h == 0x11 {
        '\u{11}'
    } else if h == 0x12 {
        '\u{12}'
    } else if h == 0x13 {
        '\u{13}'
    } else if h == 0x14 {
        '\u{14}'
    } else if h == 0x15 {
        '\u{15}'
    } else if h == 0x16 {
        '\u{16}'
    } else if h == 0x17 {
        '\u{17}'
    } else if h == 0x18 {
        '\u{18}'
    } else if h == 0x19 {
        '\u{19}'
    } else if h == 0x1a {
        '\u{1a}'
    } else if h == 0x1b {
        '\u{1b}'
    } else if h == 0x1c {
        '\u{1c}'
    } else if h == 0x1d {
        '\u{1d}'
    } else if h == 0x1e {
        '\u{1e}'
    } else {
        '\u{1f}'
    }
}

/// How one character stands in a record's string field: quotes, backslashes
/// and control characters are escaped, everything else stands as itself.
pub open spec fn escape_char(c: char) -> Seq<char> {
    if c == '"' {
        seq!['\\', '"']
    } else if c == '\\' {
        seq!['\\', '\\']
    } else if c == '\u{8}' {
        seq!['\\', 'b']
    } else if c == '\u{9}' {
        seq!['\\', 't']
    } else if c == '\u{a}' {
        seq!['\\', 'n']
    } else if c == '\u{c}' {
        seq!['\\', 'f']
    } else if c == '\u{d}' {
        seq!['\\', 'r']
    } else if (c as int) < 0x20 {
        seq!['\\', 'u', '0', '0', hex_digit((c as int) / 16), hex_digit((c as int) % 16)]
    } else {
        seq![c]
    }
}

/// A whole string field, escaped character for character.
pub open spec fn escape(s: Seq<char>) -> Seq<char>
    decreases s.len(),
{
    if s.len() == 0 {
        Seq::empty()
    } else {
        escape_char(s[0]) + escape(s.skip(1))
    }
}

/// The record line a session triple is persisted as.
pub open spec fn encode_spec(c: SessionModel) -> Seq<char> {
    "{\"key\":\""@ + escape(c.key) + "\",\"server\":\""@ + escape(c.server) + "\",\"ts\":\""@
        + escape(c.ts) + "\"}"@
}

/// The character a short escape stands for, if the escape is a valid one.
pub open spec fn short_unescape(e: char) -> Option<char> {
    if e == '"' {
        Some('"')
    } else if e == '\\' {
        Some('\\')
    } else if e == '/' {
        Some('/')
    } else if e == 'b' {
        Some('\u{8}')
    } else if e == 't' {
        Some('\u{9}')
    } else if e == 'n' {
        Some('\u{a}')
    } else if e == 'f' {
        Some('\u{c}')
    } else if e == 'r' {
        Some('\u{d}')
    } else {
        None
    }
}

/// Read a string field from `s`: the unescaped content up to the closing
/// quote, and the rest of `s` from that quote on. Absent when the field is
/// unterminated or holds an invalid escape or a bare control character.
pub open spec fn unesc(s: Seq<char>) -> Option<(Seq<char>, Seq<char>)>
    decreases s.len(),
{
    if s.len() == 0 {
        None
    } else if s[0] == '"' {
        Some((Seq::empty(), s))
    } else if s[0] == '\\' {
        if s.len() < 2 {
            None
        } else if s[1] == 'u' {
            if s.len() < 6 {
                None
            } else if s[2] == '0' && s[3] == '0' && hex_val(s[4]) >= 0 && hex_val(s[5]) >= 0
                && hex_val(s[4]) * 16 + hex_val(s[5]) < 0x20 {
                match unesc(s.skip(6)) {
                    Some((t, r)) => Some(
                        (seq![ctrl_char(hex_val(s[4]) * 16 + hex_val(s[5]))] + t, r),
                    ),
                    None => None,
                }
            } else {
                None
            }
        } else {
            match short_unescape(s[1]) {
                Some(c) => match unesc(s.skip(2)) {
                    Some((t, r)) => Some((seq![c] + t, r)),
                    None => None,
                },
                None => None,
            }
        }
    } else if (s[0] as int) < 0x20 {
        None
    } else {
        match unesc(s.skip(1)) {
            Some((t, r)) => Some((seq![s[0]] + t, r)),
            None => None,
        }
    }
}

/// `s` with the prefix `p` removed, absent when `s` does not start with `p`.
pub open spec fn strip_prefix(s: Seq<char>, p: Seq<char>) -> Option<Seq<char>> {
    if p.len() <= s.len() && s.take(p.len() as int) == p {
        Some(s.skip(p.len() as int))
    } else {
        None
    }
}

/// The session triple a record line holds, absent for anything that is not
/// exactly a record.
pub open spec fn decode_spec(s: Seq<char>) -> Option<SessionModel> {
    match strip_prefix(s, "{\"key\":\""@) {
        None => None,
        Some(s1) => match unesc(s1) {
            None => None,
            Some((key, s2)) => match strip_prefix(s2, "\",\"server\":\""@) {
                None => None,
                Some(s3) => match unesc(s3) {
                    None => None,
                    Some((server, s4)) => match strip_prefix(s4, "\",\"ts\":\""@) {
                        None => None,
                        Some(s5) => match unesc(s5) {
                            None => None,
                            Some((ts, s6)) => if s6 == "\"}"@ {
                                Some(SessionModel { key, server, ts })
                            } else {
                                None
                            },
                        },
                    },
                },
            },
        },
    }
}

/// Escaping one more character extends the escaped text.
pub proof fn lemma_escape_snoc(s: Seq<char>, c: char)
    ensures
        escape(s.push(c)) == escape(s) + escape_char(c),
    decreases s.len(),
{
    if s.len() == 0 {
        assert((s.push(c))[0] == c);
        assert((s.push(c)).skip(1) =~= Seq::<char>::empty());
        assert(escape(s.push(c)) == escape_char(c) + escape(Seq::<char>::empty()));
        assert(escape(s.push(c)) =~= escape(s) + escape_char(c));
    } else {
        assert((s.push(c))[0] == s[0]);
        assert(s.push(c).skip(1) =~= s.skip(1).push(c));
        lemma_escape_snoc(s.skip(1), c);
        assert(escape(s.push(c)) == escape_char(s[0]) + escape(s.skip(1).push(c)));
        assert(escape_char(s[0]) + (escape(s.skip(1)) + escape_char(c)) =~= (escape_char(s[0])
            + escape(s.skip(1))) + escape_char(c));
        assert(escape(s.push(c)) =~= escape(s) + escape_char(c));
    }
}

/// Stripping a prefix off that very prefix leaves the rest.
pub proof fn lemma_strip_prefix(p: Seq<char>, rest: Seq<char>)
    ensures
        strip_prefix(p + rest, p) == Some(rest),
{
    assert((p + rest).take(p.len() as int) =~= p);
    assert((p + rest).skip(p.len() as int) =~= rest);
}

/// A lowercase hexadecimal digit reads back as its value.
pub proof fn lemma_hex_inverse(d: int)
    requires
        0 <= d < 16,
    ensures
        hex_val(hex_digit(d)) == d,
{
}

/// The control-character table inverts the character's code.
pub proof fn lemma_ctrl_inverse(c: char)
    requires
        0 <= (c as int) && (c as int) < 0x20,
    ensures
        ctrl_char(c as int) == c,
{
}

/// Reading a string field back from its escaped form yields the original
/// text, whatever follows the field — provided it begins with the closing
/// quote.
pub proof fn lemma_unesc_escape(x: Seq<char>, t: Seq<char>)
    requires
        t.len() > 0,
        t[0] == '"',
    ensures
        unesc(escape(x) + t) == Some((x, t)),
    decreases x.len(),
{
    if x.len() == 0 {
        assert(escape(x) + t =~= t);
    } else {
        let c = x[0];
        let rest = escape(x.skip(1)) + t;
        lemma_unesc_escape(x.skip(1), t);
        assert(escape(x) + t =~= escape_char(c) + rest);
        let s = escape_char(c) + rest;
        if c == '"' || c == '\\' || c == '\u{8}' || c == '\u{9}' || c == '\u{a}' || c == '\u{c}'
            || c == '\u{d}' {
            assert(s.skip(2) =~= rest);
            assert(seq![c] + x.skip(1) =~= x);
        } else if (c as int) < 0x20 {
            assert(s.skip(6) =~= rest);
            lemma_char_nonneg(c);
            lemma_hex_inverse((c as int) / 16);
            lemma_hex_inverse((c as int) % 16);
            lemma_ctrl_inverse(c);
            assert(hex_val(s[4]) * 16 + hex_val(s[5]) == c as int);
            assert(seq![c] + x.skip(1) =~= x);
        } else {
            assert(s.skip(1) =~= rest);
            assert(seq![c] + x.skip(1) =~= x);
        }
    }
}

/// A record line decodes back to the very triple it was encoded from.
pub proof fn lemma_record_round_trip(c: SessionModel)
    ensures
        decode_spec(encode_spec(c)) == Some(c),
{
    let open_key = "{\"key\":\""@;
    let sep_server = "\",\"server\":\""@;
    let sep_ts = "\",\"ts\":\""@;
    let end = "\"}"@;
    reveal_strlit("{\"key\":\"");
    reveal_strlit("\",\"server\":\"");
    reveal_strlit("\",\"ts\":\"");
    reveal_strlit("\"}");
    let s = encode_spec(c);
    let r1 = escape(c.key) + (sep_server + escape(c.server) + sep_ts + escape(c.ts) + end);
    assert(s =~= open_key + r1);
    lemma_strip_prefix(open_key, r1);
    let t1 = sep_server + escape(c.server) + sep_ts + escape(c.ts) + end;
    assert(t1.len() > 0 && t1[0] == '"');
    lemma_unesc_escape(c.key, t1);
    let r2 = escape(c.server) + (sep_ts + escape(c.ts) + end);
    assert(t1 =~= sep_server + r2);
    lemma_strip_prefix(sep_server, r2);
    let t2 = sep_ts + escape(c.ts) + end;
    assert(t2.len() > 0 && t2[0] == '"');
    lemma_unesc_escape(c.server, t2);
    let r3 = escape(c.ts) + end;
    assert(t2 =~= sep_ts + r3);
    lemma_strip_prefix(sep_ts, r3);
    assert(end.len() > 0 && end[0] == '"');
    lemma_unesc_escape(c.ts, end);
}

fn hex_digit_of(d: u32) -> (c: char)
    requires
        d < 16,
    ensures
        c == hex_digit(d as int),
{
    if d == 0 {
        '0'
    } else if d == 1 {
        '1'
    } else if d == 2 {
        '2'
    } else if d == 3 {
        '3'
    } else if d == 4 {
        '4'
    } else if d == 5 {
        '5'
    } else if d == 6 {
        '6'
    } else if d == 7 {
        '7'
    } else if d == 8 {
        '8'
    } else if d == 9 {
        '9'
    } else if d == 10 {
        'a'
    } else if d == 11 {
        'b'
    } else if d == 12 {
        'c'
    } else if d == 13 {
        'd'
    } else if d == 14 {
        'e'
    } else {
        'f'
    }
}

fn hex_val_of(c: char) -> (r: Option<u32>)
    ensures
        (match r {
            Some(h) => h < 16 && hex_val(c) == h as int,
            None => hex_val(c) < 0,
        }),
{
    if c == '0' {
        Some(0)
    } else if c == '1' {
        Some(1)
    } else if c == '2' {
        Some(2)
    } else if c == '3' {
        Some(3)
    } else if c == '4' {
        Some(4)
    } else if c == '5' {
        Some(5)
    } else if c == '6' {
        Some(6)
    } else if c == '7' {
        Some(7)
    } else if c == '8' {
        Some(8)
    } else if c == '9' {
        Some(9)
    } else if c == 'a' {
        Some(10)
    } else if c == 'b' {
        Some(11)
    } else if c == 'c' {
        Some(12)
    } else if c == 'd' {
        Some(13)
    } else if c == 'e' {
        Some(14)
    } else if c == 'f' {
        Some(15)
    } else {
        None
    }
}

fn ctrl_char_of(h: u32) -> (c: char)
    requires
        h < 0x20,
    ensures
        c == ctrl_char(h as int),
{
    if h == 0x0 {
        '\u{0}'
    } else if h == 0x1 {
        '\u{1}'
    } else if h == 0x2 {
        '\u{2}'
    } else if h == 0x3 {
        '\u{3}'
    } else if h == 0x4 {
        '\u{4}'
    } else if h == 0x5 {
        '\u{5}'
    } else if h == 0x6 {
        '\u{6}'
    } else if h == 0x7 {
        '\u{7}'
    } else if h == 0x8 {
        '\u{8}'
    } else if h == 0x9 {
        '\u{9}'
    } else if h == 0xa {
        '\u{a}'
    } else if h == 0xb {
        '\u{b}'
    } else if h == 0xc {
        '\u{c}'
    } else if h == 0xd {
        '\u{d}'
    } else if h == 0xe {
        '\u{e}'
    } else if h == 0xf {
        '\u{f}'
    } else if h == 0x10 {
        '\u{10}'
    } else if h == 0x11 {
        '\u{11}'
    } else if h == 0x12 {
        '\u{12}'
    } else if h == 0x13 {
        '\u{13}'
    } else if h == 0x14 {
        '\u{14}'
    } else if h == 0x15 {
        '\u{15}'
    } else if h == 0x16 {
        '\u{16}'
    } else if h == 0x17 {
        '\u{17}'
    } else if h == 0x18 {
        '\u{18}'
    } else if h == 0x19 {
        '\u{19}'
    } else if h == 0x1a {
        '\u{1a}'
    } else if h == 0x1b {
        '\u{1b}'
    } else if h == 0x1c {
        '\u{1c}'
    } else if h == 0x1d {
        '\u{1d}'
    } else if h == 0x1e {
        '\u{1e}'
    } else {
        '\u{1f}'
    }
}

fn short_unescape_of(e: char) -> (r: Option<char>)
    ensures
        r == short_unescape(e),
{
    if e == '"' {
        Some('"')
    } else if e == '\\' {
        Some('\\')
    } else if e == '/' {
        Some('/')
    } else if e == 'b' {
        Some('\u{8}')
    } else if e == 't' {
        Some('\u{9}')
    } else if e == 'n' {
        Some('\u{a}')
    } else if e == 'f' {
        Some('\u{c}')
    } else if e == 'r' {
        Some('\u{d}')
    } else {
        None
    }
}

fn escape_push(out: &mut String, c: char)
    ensures
        final(out)@ == old(out)@ + escape_char(c),
{
    if c == '"' {
        push_char(out, '\\');
        push_char(out, '"');
        proof {
            assert(final(out)@ =~= old(out)@ + escape_char(c));
        }
    } else if c == '\\' {
        push_char(out, '\\');
        push_char(out, '\\');
        proof {
            assert(final(out)@ =~= old(out)@ + escape_char(c));
        }
    } else if c == '\u{8}' {
        push_char(out, '\\');
        push_char(out, 'b');
        proof {
            assert(final(out)@ =~= old(out)@ + escape_char(c));
        }
    } else if c == '\u{9}' {
        push_char(out, '\\');
        push_char(out, 't');
        proof {
            assert(final(out)@ =~= old(out)@ + escape_char(c));
        }
    } else if c == '\u{a}' {
        push_char(out, '\\');
        push_char(out, 'n');
        proof {
            assert(final(out)@ =~= old(out)@ + escape_char(c));
        }
    } else if c == '\u{c}' {
        push_char(out, '\\');
        push_char(out, 'f');
        proof {
            assert(final(out)@ =~= old(out)@ + escape_char(c));
        }
    } else if c == '\u{d}' {
        push_char(out, '\\');
        push_char(out, 'r');
        proof {
            assert(final(out)@ =~= old(out)@ + escape_char(c));
        }
    } else {
        let h = c as u32;
        proof {
            assert(c as int == c as u32 as int);
        }
        if h < 0x20 {
            push_char(out, '\\');
            push_char(out, 'u');
            push_char(out, '0');
            push_char(out, '0');
            push_char(out, hex_digit_of(h / 16));
            push_char(out, hex_digit_of(h % 16));
            proof {
                assert(final(out)@ =~= old(out)@ + escape_char(c));
            }
        } else {
            push_char(out, c);
            proof {
                assert(final(out)@ =~= old(out)@ + escape_char(c));
            }
        }
    }
}

fn append_escaped(out: &mut String, s: &str)
    ensures
        final(out)@ == old(out)@ + escape(s@),
{
    let ghost start: Seq<char> = out@;
    let n = s.unicode_len();
    let mut i: usize = 0;
    while i < n
        invariant
            n == s@.len(),
            i <= n,
            out@ == start + escape(s@.take(i as int)),
        decreases n - i,
    {
        let c = s.get_char(i);
        escape_push(out, c);
        i = i + 1;
        proof {
            assert(s@.take(i as int) =~= s@.take(i as int - 1).push(s@[i as int - 1]));
            lemma_escape_snoc(s@.take(i as int - 1), s@[i as int - 1]);
            assert(out@ =~= start + escape(s@.take(i as int)));
        }
    }
    proof {
        assert(s@.take(n as int) =~= s@);
    }
}

/// Encode a session triple as its record line.
pub fn encode_record(c: &ServerConfig) -> (r: String)
    ensures
        r@ == encode_spec(c@),
{
    let mut r = String::from_str("{\"key\":\"");
    append_escaped(&mut r, c.key.as_str());
    r.append("\",\"server\":\"");
    append_escaped(&mut r, c.server.as_str());
    r.append("\",\"ts\":\"");
    append_escaped(&mut r, c.ts.as_str());
    r.append("\"}");
    proof {
        assert(r@ =~= encode_spec(c@));
    }
    r
}

pub(crate) fn str_chars(s: &str) -> (v: Vec<char>)
    ensures
        v@ == s@,
{
    let n = s.unicode_len();
    let mut v: Vec<char> = Vec::new();
    let mut i: usize = 0;
    while i < n
        invariant
            n == s@.len(),
            i <= n,
            v@ == s@.take(i as int),
        decreases n - i,
    {
        v.push(s.get_char(i));
        i = i + 1;
        proof {
            assert(v@ =~= s@.take(i as int));
        }
    }
    proof {
        assert(s@.take(n as int) =~= s@);
    }
    v
}

pub(crate) fn chars_string(v: &Vec<char>) -> (r: String)
    ensures
        r@ == v@,
{
    let mut r = String::new();
    let mut i: usize = 0;
    while i < v.len()
        invariant
            i <= v@.len(),
            r@ == v@.take(i as int),
        decreases v@.len() - i,
    {
        push_char(&mut r, v[i]);
        i = i + 1;
        proof {
            assert(r@ =~= v@.take(i as int));
        }
    }
    proof {
        assert(v@.take(v@.len() as int) =~= v@);
    }
    r
}

fn strip_prefix_exec(v: &Vec<char>, i: usize, p: &str) -> (r: Option<usize>)
    requires
        i <= v@.len(),
    ensures
        (match r {
            Some(j) => i <= j <= v@.len() && strip_prefix(v@.skip(i as int), p@) == Some(
                v@.skip(j as int),
            ),
            None => strip_prefix(v@.skip(i as int), p@) is None,
        }),
{
    let ghost s: Seq<char> = v@.skip(i as int);
    let n = p.unicode_len();
    if v.len() - i < n {
        return None;
    }
    let mut k: usize = 0;
    while k < n
        invariant
            n == p@.len(),
            k <= n,
            i + n <= v@.len(),
            v@.len() <= usize::MAX,
            s == v@.skip(i as int),
            forall|m: int| 0 <= m < k ==> s[m] == p@[m],
        decreases n - k,
    {
        if v[i + k] != p.get_char(k) {
            proof {
                assert(s[k as int] == v@[i + k]);
                assert(s.take(n as int)[k as int] != p@[k as int]);
            }
            return None;
        }
        proof {
            assert(s[k as int] == v@[i + k]);
        }
        k = k + 1;
    }
    proof {
        assert(s.take(n as int) =~= p@);
        assert(s.skip(n as int) =~= v@.skip(i as int + n as int));
    }
    Some(i + n)
}

fn unesc_exec(v: &Vec<char>, i: usize) -> (r: Option<(Vec<char>, usize)>)
    requires
        i <= v@.len(),
    ensures
        (match r {
            Some(p) => p.1 <= v@.len() && unesc(v@.skip(i as int)) == Some(
                (p.0@, v@.skip(p.1 as int)),
            ),
            None => unesc(v@.skip(i as int)) is None,
        }),
    decreases v@.len() - i,
{
    let ghost s: Seq<char> = v@.skip(i as int);
    if i >= v.len() {
        return None;
    }
    let c = v[i];
    proof {
        assert(s[0] == c);
    }
    if c == '"' {
        let content: Vec<char> = Vec::new();
        return Some((content, i));
    }
    if c == '\\' {
        if i + 1 >= v.len() {
            return None;
        }
        let e = v[i + 1];
        proof {
            assert(s[1] == e);
        }
        if e == 'u' {
            if v.len() - i < 6 {
                return None;
            }
            proof {
                assert(s[2] == v@[i + 2]);
                assert(s[3] == v@[i + 3]);
                assert(s[4] == v@[i + 4]);
                assert(s[5] == v@[i + 5]);
            }
            if v[i + 2] != '0' || v[i + 3] != '0' {
                return None;
            }
            let h1 = hex_val_of(v[i + 4]);
            let h2 = hex_val_of(v[i + 5]);
            match (h1, h2) {
                (Some(a), Some(b)) => {
                    let h = a * 16 + b;
                    if h >= 0x20 {
                        return None;
                    }
                    let ch = ctrl_char_of(h);
                    match unesc_exec(v, i + 6) {
                        Some(p) => {
                            let (mut t, j) = p;
                            t.insert(0, ch);
                            proof {
                                assert(s.skip(6) =~= v@.skip(i as int + 6));
                                assert(t@ =~= seq![ch] + t@.skip(1));
                            }
                            Some((t, j))
                        },
                        None => {
                            proof {
                                assert(s.skip(6) =~= v@.skip(i as int + 6));
                            }
                            None
                        },
                    }
                },
                _ => None,
            }
        } else {
            match short_unescape_of(e) {
                Some(ch) => {
                    match unesc_exec(v, i + 2) {
                        Some(p) => {
                            let (mut t, j) = p;
                            t.insert(0, ch);
                            proof {
                                assert(s.skip(2) =~= v@.skip(i as int + 2));
                                assert(t@ =~= seq![ch] + t@.skip(1));
                            }
                            Some((t, j))
                        },
                        None => {
                            proof {
                                assert(s.skip(2) =~= v@.skip(i as int + 2));
                            }
                            None
                        },
                    }
                },
                None => None,
            }
        }
    } else if (c as u32) < 0x20 {
        proof {
            lemma_char_nonneg(c);
        }
        None
    } else {
        proof {
            lemma_char_nonneg(c);
        }
        match unesc_exec(v, i + 1) {
            Some(p) => {
                let (mut t, j) = p;
                t.insert(0, c);
                proof {
                    assert(s.skip(1) =~= v@.skip(i as int + 1));
                    assert(t@ =~= seq![c] + t@.skip(1));
                }
                Some((t, j))
            },
            None => {
                proof {
                    assert(s.skip(1) =~= v@.skip(i as int + 1));
                }
                None
            },
        }
    }
}

/// Decode a record line back to a session triple; absent for any line that
/// is not exactly a record, which counts as a missing record.
pub fn decode_record(line: &str) -> (r: Option<ServerConfig>)
    ensures
        (match r {
            Some(c) => decode_spec(line@) == Some(c@),
            None => decode_spec(line@) is None,
        }),
{
    let v = str_chars(line);
    proof {
        assert(v@.skip(0) =~= line@);
    }
    let i1 = match strip_prefix_exec(&v, 0, "{\"key\":\"") {
        Some(j) => j,
        None => {
            return None;
        },
    };
    let (key, i2) = match unesc_exec(&v, i1) {
        Some(p) => p,
        None => {
            return None;
        },
    };
    let i3 = match strip_prefix_exec(&v, i2, "\",\"server\":\"") {
        Some(j) => j,
        None => {
            return None;
        },
    };
    let (server, i4) = match unesc_exec(&v, i3) {
        Some(p) => p,
        None => {
            return None;
        },
    };
    let i5 = match strip_prefix_exec(&v, i4, "\",\"ts\":\"") {
        Some(j) => j,
        None => {
            return None;
        },
    };
    let (ts, i6) = match unesc_exec(&v, i5) {
        Some(p) => p,
        None => {
            return None;
        },
    };
    proof {
        reveal_strlit("\"}");
    }
    if v.len() - i6 == 2 {
        let c0 = v[i6];
        let c1 = v[i6 + 1];
        proof {
            assert(v@.skip(i6 as int).len() == 2);
            assert(v@.skip(i6 as int)[0] == c0);
            assert(v@.skip(i6 as int)[1] == c1);
        }
        if c0 == '"' && c1 == '}' {
            proof {
                assert(v@.skip(i6 as int) =~= "\"}"@);
            }
            let config = ServerConfig {
                key: chars_string(&key),
                server: chars_string(&server),
                ts: chars_string(&ts),
            };
            Some(config)
        } else {
            proof {
                assert(v@.skip(i6 as int) != "\"}"@);
            }
            None
        }
    } else {
        proof {
            assert(v@.skip(i6 as int).len() != "\"}"@.len());
        }
        None
    }
}

/// The record slot the session is persisted in: at most one line, each write
/// superseding the old content whole. The surroundings keep the slot's
/// content synchronized with the backing file; a slot without a line stands
/// for a first run or an unreadable record.
pub struct ConfigFile {
    pub slot: Option<String>,
}

impl View for ConfigFile {
    type V = Option<Seq<char>>;

    open spec fn view(&self) -> Option<Seq<char>> {
        opt_str_view(self.slot)
    }
}

impl ConfigFile {
    /// Open the store over whatever line the backing file held (absent on a
    /// first run), and decode the session it carries, if any.
    pub fn open(initial: Option<String>) -> (r: (ConfigFile, Option<ServerConfig>))
        ensures
            r.0@ == opt_str_view(initial),
            (match initial {
                None => r.1 is None,
                Some(line) => (match r.1 {
                    Some(c) => decode_spec(line@) == Some(c@),
                    None => decode_spec(line@) is None,
                }),
            }),
    {
        match initial {
            Some(line) => {
                let c = decode_record(line.as_str());
                (ConfigFile { slot: Some(line) }, c)
            },
            None => (ConfigFile { slot: None }, None),
        }
    }

    /// Overwrite the slot with the record for `config`; the old content is
    /// fully superseded.
    pub fn set(&mut self, config: &ServerConfig)
        ensures
            final(self)@ == Some(encode_spec(config@)),
    {
        self.slot = Some(encode_record(config));
    }

    /// Decode the session the slot currently holds.
    pub fn read(&self) -> (r: Option<ServerConfig>)
        ensures
            (match self@ {
                None => r is None,
                Some(line) => (match r {
                    Some(c) => decode_spec(line) == Some(c@),
                    None => decode_spec(line) is None,
                }),
            }),
    {
        match &self.slot {
            Some(line) => decode_record(line.as_str()),
            None => None,
        }
    }

    /// The line to persist to the backing file, if the slot holds one.
    pub fn line(&self) -> (r: Option<&String>)
        ensures
            (match r {
                Some(s) => self@ == Some(s@),
                None => self@ is None,
            }),
    {
        match &self.slot {
            Some(s) => Some(s),
            None => None,
        }
    }
}

/// Writing a session to the store and reading it straight back yields the
/// same session triple: the slot then holds the session's record line, and
/// that line decodes to the very triple that was written.
pub proof fn lemma_store_round_trip(c: SessionModel)
    ensures
        decode_spec(encode_spec(c)) == Some(c),
{
    lemma_record_round_trip(c);
}

} // verus!
