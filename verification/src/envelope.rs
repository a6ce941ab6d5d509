//! The canonical JSON result envelope: a run ends in exactly one of a
//! transcribed text or an error message, serialized as a single line
//! `{"text":"..."}` or `{"error":"..."}`.
//!
//! The wire form is produced by a verified renderer: payload characters are
//! escaped as in a JSON string literal (quote, backslash, and the short and
//! `\u00XX` escapes for control characters), so the line is valid JSON with
//! exactly one key. A specification-level parser is the renderer's proved
//! inverse.

use vstd::prelude::*;

verus! {

/// Specification-level model of an envelope.
pub enum EnvelopeModel {
    Success { text: Seq<char> },
    Failure { error: Seq<char> },
}

/// The one outcome of a run: a transcription's text, or the message of the
/// first failure. Exactly one variant is ever constructed per run.
#[derive(Clone, Debug, PartialEq, Eq)]
pub enum Envelope {
    Success { text: String },
    Failure { error: String },
}

impl View for Envelope {
    type V = EnvelopeModel;

    open spec fn view(&self) -> EnvelopeModel {
        match self {
            Envelope::Success { text } => EnvelopeModel::Success { text: text@ },
            Envelope::Failure { error } => EnvelopeModel::Failure { error: error@ },
        }
    }
}

/// Relies on String::push of std: appends the given character to the end of
/// the string.
pub assume_specification[ String::push ](s: &mut String, c: char)
    ensures
        final(s)@ == old(s)@.push(c),
;

/// The lower-case hexadecimal digit for `v`; digits outside 0..16 never
/// arise.
pub open spec fn spec_hex_digit(v: int) -> char {
    if v == 0 {
        '0'
    } else if v == 1 {
        '1'
    } else if v == 2 {
        '2'
    } else if v == 3 {
        '3'
    } else if v == 4 {
        '4'
    } else if v == 5 {
        '5'
    } else if v == 6 {
        '6'
    } else if v == 7 {
        '7'
    } else if v == 8 {
        '8'
    } else if v == 9 {
        '9'
    } else if v == 10 {
        'a'
    } else if v == 11 {
        'b'
    } else if v == 12 {
        'c'
    } else if v == 13 {
        'd'
    } else if v == 14 {
        'e'
    } else {
        'f'
    }
}

/// The value of a lower-case hexadecimal digit, or -1 for any other
/// character.
pub open spec fn spec_hex_val(c: char) -> int {
    if c == '0' {
        0
    } else if c == '1' {
        1
    } else if c == '2' {
        2
    } else if c == '3' {
        3
    } else if c == '4' {
        4
    } else if c == '5' {
        5
    } else if c == '6' {
        6
    } else if c == '7' {
        7
    } else if c == '8' {
        8
    } else if c == '9' {
        9
    } else if c == 'a' {
        10
    } else if c == 'b' {
        11
    } else if c == 'c' {
        12
    } else if c == 'd' {
        13
    } else if c == 'e' {
        14
    } else if c == 'f' {
        15
    } else {
        -1
    }
}

/// How one character appears inside the JSON string literal: quote and
/// backslash are escaped, control characters get JSON's short escape where
/// one exists and a `\u00XX` escape otherwise, every other character stands
/// as itself.
pub open spec fn spec_escape_char(c: char) -> Seq<char> {
    if c == '"' {
        seq!['\\', '"']
    } else if c == '\\' {
        seq!['\\', '\\']
    } else if c == '\u{8}' {
        seq!['\\', 'b']
    } else if c == '\u{c}' {
        seq!['\\', 'f']
    } else if c == '\n' {
        seq!['\\', 'n']
    } else if c == '\r' {
        seq!['\\', 'r']
    } else if c == '\t' {
        seq!['\\', 't']
    } else if (c as u32) < 32 {
        seq![
            '\\',
            'u',
            '0',
            '0',
            spec_hex_digit((c as u32) as int / 16),
            spec_hex_digit((c as u32) as int % 16),
        ]
    } else {
        seq![c]
    }
}

/// A whole payload escaped for the inside of a JSON string literal.
pub open spec fn spec_escape(s: Seq<char>) -> Seq<char>
    decreases s.len(),
{
    if s.len() == 0 {
        Seq::<char>::empty()
    } else {
        spec_escape_char(s[0]) + spec_escape(s.drop_first())
    }
}

/// The opening frame of a success line, up to the payload.
pub open spec fn success_prefix() -> Seq<char> {
    seq!['{', '"', 't', 'e', 'x', 't', '"', ':', '"']
}

/// The opening frame of a failure line, up to the payload.
pub open spec fn failure_prefix() -> Seq<char> {
    seq!['{', '"', 'e', 'r', 'r', 'o', 'r', '"', ':', '"']
}

/// The closing frame of either line.
pub open spec fn envelope_suffix() -> Seq<char> {
    seq!['"', '}']
}

/// The rendered single-line JSON form of an envelope.
pub open spec fn spec_render(e: EnvelopeModel) -> Seq<char> {
    match e {
        EnvelopeModel::Success { text } => success_prefix() + spec_escape(text)
            + envelope_suffix(),
        EnvelopeModel::Failure { error } => failure_prefix() + spec_escape(error)
            + envelope_suffix(),
    }
}

/// The lower-case hexadecimal digit for `v`.
fn hex_digit_char(v: u32) -> (c: char)
    requires
        v < 16,
    ensures
        c == spec_hex_digit(v as int),
{
    if v == 0 {
        '0'
    } else if v == 1 {
        '1'
    } else if v == 2 {
        '2'
    } else if v == 3 {
        '3'
    } else if v == 4 {
        '4'
    } else if v == 5 {
        '5'
    } else if v == 6 {
        '6'
    } else if v == 7 {
        '7'
    } else if v == 8 {
        '8'
    } else if v == 9 {
        '9'
    } else if v == 10 {
        'a'
    } else if v == 11 {
        'b'
    } else if v == 12 {
        'c'
    } else if v == 13 {
        'd'
    } else if v == 14 {
        'e'
    } else {
        'f'
    }
}

/// Append the escaped form of the one character `c` to `out`.
fn push_escaped_char(out: &mut String, c: char)
    ensures
        final(out)@ == old(out)@ + spec_escape_char(c),
{
    if c == '"' {
        out.push('\\');
        out.push('"');
    } else if c == '\\' {
        out.push('\\');
        out.push('\\');
    } else if c == '\u{8}' {
        out.push('\\');
        out.push('b');
    } else if c == '\u{c}' {
        out.push('\\');
        out.push('f');
    } else if c == '\n' {
        out.push('\\');
        out.push('n');
    } else if c == '\r' {
        out.push('\\');
        out.push('r');
    } else if c == '\t' {
        out.push('\\');
        out.push('t');
    } else if (c as u32) < 32 {
        let v: u32 = c as u32;
        out.push('\\');
        out.push('u');
        out.push('0');
        out.push('0');
        out.push(hex_digit_char(v / 16));
        out.push(hex_digit_char(v % 16));
    } else {
        out.push(c);
    }
    proof {
        assert(out@ =~= old(out)@ + spec_escape_char(c));
    }
}

/// Escaping a one-character string is escaping the character.
proof fn lemma_escape_singleton(c: char)
    ensures
        spec_escape(seq![c]) == spec_escape_char(c),
{
    assert(seq![c].drop_first() =~= Seq::<char>::empty());
    assert(spec_escape(Seq::<char>::empty()) =~= Seq::<char>::empty());
    assert(spec_escape(seq![c]) =~= spec_escape_char(c) + Seq::<char>::empty());
    assert(spec_escape_char(c) + Seq::<char>::empty() =~= spec_escape_char(c));
}

/// Escaping distributes over concatenation.
proof fn lemma_escape_append(a: Seq<char>, b: Seq<char>)
    ensures
        spec_escape(a + b) == spec_escape(a) + spec_escape(b),
    decreases a.len(),
{
    if a.len() == 0 {
        assert(a + b =~= b);
        assert(spec_escape(a) + spec_escape(b) =~= spec_escape(b));
    } else {
        assert((a + b).drop_first() =~= a.drop_first() + b);
        lemma_escape_append(a.drop_first(), b);
        assert((a + b)[0] == a[0]);
        assert(spec_escape_char(a[0]) + (spec_escape(a.drop_first()) + spec_escape(b)) =~= (
        spec_escape_char(a[0]) + spec_escape(a.drop_first())) + spec_escape(b));
    }
}

/// Append the escaped form of every character of `s` to `out`.
fn push_escaped(out: &mut String, s: &str)
    ensures
        final(out)@ == old(out)@ + spec_escape(s@),
{
    let n: usize = s.unicode_len();
    let mut i: usize = 0;
    while i < n
        invariant
            n == s@.len(),
            i <= n,
            out@ == old(out)@ + spec_escape(s@.take(i as int)),
        decreases n - i,
    {
        let c = s.get_char(i);
        push_escaped_char(out, c);
        proof {
            assert(s@.take(i + 1 as int) =~= s@.take(i as int) + seq![s@[i as int]]);
            lemma_escape_append(s@.take(i as int), seq![s@[i as int]]);
            lemma_escape_singleton(s@[i as int]);
            assert(out@ =~= old(out)@ + spec_escape(s@.take(i + 1 as int)));
        }
        i = i + 1;
    }
    proof {
        assert(s@.take(n as int) =~= s@);
    }
}

impl Envelope {
    /// Serialize to the single-line JSON wire form.
    pub fn render(&self) -> (line: String)
        ensures
            line@ == spec_render(self@),
    {
        match self {
            Envelope::Success { text } => {
                let mut line = String::from_str("{\"text\":\"");
                proof {
                    reveal_strlit("{\"text\":\"");
                    assert(line@ =~= success_prefix());
                }
                push_escaped(&mut line, text.as_str());
                line.append("\"}");
                proof {
                    reveal_strlit("\"}");
                    assert("\"}"@ =~= envelope_suffix());
                }
                line
            },
            Envelope::Failure { error } => {
                let mut line = String::from_str("{\"error\":\"");
                proof {
                    reveal_strlit("{\"error\":\"");
                    assert(line@ =~= failure_prefix());
                }
                push_escaped(&mut line, error.as_str());
                line.append("\"}");
                proof {
                    reveal_strlit("\"}");
                    assert("\"}"@ =~= envelope_suffix());
                }
                line
            },
        }
    }
}

/// Decode the escaped payload of a JSON string literal: the proved inverse
/// of [`spec_escape`]. A bare quote (the payload would have ended there), a
/// dangling backslash, and any escape the renderer never emits are rejected.
pub open spec fn spec_unescape(t: Seq<char>) -> Option<Seq<char>>
    decreases t.len(),
{
    if t.len() == 0 {
        Some(Seq::<char>::empty())
    } else if t[0] == '"' {
        None
    } else if t[0] == '\\' {
        if t.len() < 2 {
            None
        } else if t[1] == '"' || t[1] == '\\' {
            match spec_unescape(t.skip(2)) {
                Some(rest) => Some(seq![t[1]] + rest),
                None => None,
            }
        } else if t[1] == 'b' {
            match spec_unescape(t.skip(2)) {
                Some(rest) => Some(seq!['\u{8}'] + rest),
                None => None,
            }
        } else if t[1] == 'f' {
            match spec_unescape(t.skip(2)) {
                Some(rest) => Some(seq!['\u{c}'] + rest),
                None => None,
            }
        } else if t[1] == 'n' {
            match spec_unescape(t.skip(2)) {
                Some(rest) => Some(seq!['\n'] + rest),
                None => None,
            }
        } else if t[1] == 'r' {
            match spec_unescape(t.skip(2)) {
                Some(rest) => Some(seq!['\r'] + rest),
                None => None,
            }
        } else if t[1] == 't' {
            match spec_unescape(t.skip(2)) {
                Some(rest) => Some(seq!['\t'] + rest),
                None => None,
            }
        } else if t[1] == 'u' {
            if t.len() < 6 {
                None
            } else if t[2] == '0' && t[3] == '0' && 0 <= spec_hex_val(t[4]) && 0 <= spec_hex_val(
                t[5],
            ) && 16 * spec_hex_val(t[4]) + spec_hex_val(t[5]) < 32 {
                match spec_unescape(t.skip(6)) {
                    Some(rest) => Some(
                        seq![((16 * spec_hex_val(t[4]) + spec_hex_val(t[5])) as u32) as char]
                            + rest,
                    ),
                    None => None,
                }
            } else {
                None
            }
        } else {
            None
        }
    } else {
        match spec_unescape(t.drop_first()) {
            Some(rest) => Some(seq![t[0]] + rest),
            None => None,
        }
    }
}

/// Parse one envelope line: the inverse of [`spec_render`]. A line is
/// accepted exactly when it has one of the two frames around a decodable
/// payload.
pub open spec fn spec_parse(line: Seq<char>) -> Option<EnvelopeModel> {
    if line.len() >= 11 && line.take(9) == success_prefix() && line.skip(line.len() - 2)
        == envelope_suffix() {
        match spec_unescape(line.subrange(9, line.len() - 2)) {
            Some(text) => Some(EnvelopeModel::Success { text }),
            None => None,
        }
    } else if line.len() >= 12 && line.take(10) == failure_prefix() && line.skip(line.len() - 2)
        == envelope_suffix() {
        match spec_unescape(line.subrange(10, line.len() - 2)) {
            Some(error) => Some(EnvelopeModel::Failure { error }),
            None => None,
        }
    } else {
        None
    }
}

/// The value of a lower-case hexadecimal digit, or -1 for any other
/// character.
fn hex_val_char(c: char) -> (v: i32)
    ensures
        v == spec_hex_val(c),
{
    if c == '0' {
        0
    } else if c == '1' {
        1
    } else if c == '2' {
        2
    } else if c == '3' {
        3
    } else if c == '4' {
        4
    } else if c == '5' {
        5
    } else if c == '6' {
        6
    } else if c == '7' {
        7
    } else if c == '8' {
        8
    } else if c == '9' {
        9
    } else if c == 'a' {
        10
    } else if c == 'b' {
        11
    } else if c == 'c' {
        12
    } else if c == 'd' {
        13
    } else if c == 'e' {
        14
    } else if c == 'f' {
        15
    } else {
        -1
    }
}

/// Decode the escaped payload `line[start..end]`; the executable form of
/// [`spec_unescape`].
fn unescape_range(line: &str, start: usize, end: usize) -> (r: Option<String>)
    requires
        start <= end <= line@.len(),
    ensures
        match r {
            Some(s) => spec_unescape(line@.subrange(start as int, end as int)) == Some(s@),
            None => spec_unescape(line@.subrange(start as int, end as int)) is None,
        },
{
    let ghost whole = line@.subrange(start as int, end as int);
    let mut out = String::new();
    let mut i: usize = start;
    while i < end
        invariant
            start <= i <= end <= line@.len(),
            whole == line@.subrange(start as int, end as int),
            spec_unescape(whole) == (match spec_unescape(
                line@.subrange(i as int, end as int),
            ) {
                Some(rest) => Some(out@ + rest),
                None => None,
            }),
        decreases end - i,
    {
        let ghost t = line@.subrange(i as int, end as int);
        let c = line.get_char(i);
        proof {
            assert(t[0] == c);
        }
        if c == '"' {
            proof {
                assert(spec_unescape(t) is None);
            }
            return None;
        } else if c == '\\' {
            if i + 1 >= end {
                proof {
                    assert(t.len() < 2);
                    assert(spec_unescape(t) is None);
                }
                return None;
            }
            let d = line.get_char(i + 1);
            proof {
                assert(t[1] == d);
            }
            if d == '"' || d == '\\' || d == 'b' || d == 'f' || d == 'n' || d == 'r' || d == 't' {
                let x: char = if d == '"' {
                    '"'
                } else if d == '\\' {
                    '\\'
                } else if d == 'b' {
                    '\u{8}'
                } else if d == 'f' {
                    '\u{c}'
                } else if d == 'n' {
                    '\n'
                } else if d == 'r' {
                    '\r'
                } else {
                    '\t'
                };
                proof {
                    let t2 = line@.subrange(i + 2, end as int);
                    assert(t.skip(2) =~= t2);
                    assert(spec_unescape(t) == (match spec_unescape(t2) {
                        Some(rest) => Some(seq![x] + rest),
                        None => None,
                    }));
                    match spec_unescape(t2) {
                        Some(rest) => {
                            assert(out@ + (seq![x] + rest) =~= out@.push(x) + rest);
                        },
                        None => {},
                    }
                }
                out.push(x);
                i = i + 2;
            } else if d == 'u' {
                if end - i < 6 {
                    proof {
                        assert(t.len() < 6);
                        assert(spec_unescape(t) is None);
                    }
                    return None;
                }
                let d2 = line.get_char(i + 2);
                let d3 = line.get_char(i + 3);
                let c4 = line.get_char(i + 4);
                let c5 = line.get_char(i + 5);
                let h1 = hex_val_char(c4);
                let h2 = hex_val_char(c5);
                proof {
                    assert(t[2] == d2 && t[3] == d3 && t[4] == c4 && t[5] == c5);
                }
                if !(d2 == '0' && d3 == '0' && h1 >= 0 && h2 >= 0 && 16 * h1 + h2 < 32) {
                    proof {
                        assert(spec_unescape(t) is None);
                    }
                    return None;
                }
                let x: char = ((16 * h1 + h2) as u8) as char;
                proof {
                    let t2 = line@.subrange(i + 6, end as int);
                    assert(t.skip(6) =~= t2);
                    assert(spec_hex_val(t[4]) == h1 as int && spec_hex_val(t[5]) == h2 as int);
                    assert(x as u32 == (16 * h1 + h2) as u32);
                    vstd::utf8::char_u32_cast(x, x as u32);
                    assert(x == ((16 * spec_hex_val(t[4]) + spec_hex_val(t[5])) as u32) as char);
                    assert(spec_unescape(t) == (match spec_unescape(t2) {
                        Some(rest) => Some(seq![x] + rest),
                        None => None,
                    }));
                    match spec_unescape(t2) {
                        Some(rest) => {
                            assert(out@ + (seq![x] + rest) =~= out@.push(x) + rest);
                        },
                        None => {},
                    }
                }
                out.push(x);
                i = i + 6;
            } else {
                proof {
                    assert(spec_unescape(t) is None);
                }
                return None;
            }
        } else {
            proof {
                let t2 = line@.subrange(i + 1, end as int);
                assert(t.drop_first() =~= t2);
                assert(spec_unescape(t) == (match spec_unescape(t2) {
                    Some(rest) => Some(seq![c] + rest),
                    None => None,
                }));
                match spec_unescape(t2) {
                    Some(rest) => {
                        assert(out@ + (seq![c] + rest) =~= out@.push(c) + rest);
                    },
                    None => {},
                }
            }
            out.push(c);
            i = i + 1;
        }
    }
    proof {
        assert(line@.subrange(i as int, end as int) =~= Seq::<char>::empty());
    }
    Some(out)
}

impl Envelope {
    /// Parse one envelope line; the proved inverse of [`Self::render`].
    pub fn parse(line: &str) -> (r: Option<Envelope>)
        ensures
            match r {
                Some(e) => spec_parse(line@) == Some(e@),
                None => spec_parse(line@) is None,
            },
    {
        let n = line.unicode_len();
        let success_head = n >= 11 && {
            let head = line.substring_char(0, 9).to_owned();
            head == String::from_str("{\"text\":\"")
        };
        let failure_head = !success_head && n >= 12 && {
            let head = line.substring_char(0, 10).to_owned();
            head == String::from_str("{\"error\":\"")
        };
        let framed = (success_head || failure_head) && {
            let tail = line.substring_char(n - 2, n).to_owned();
            tail == String::from_str("\"}")
        };
        proof {
            reveal_strlit("{\"text\":\"");
            reveal_strlit("{\"error\":\"");
            reveal_strlit("\"}");
            assert("{\"text\":\""@ =~= success_prefix());
            assert("{\"error\":\""@ =~= failure_prefix());
            assert("\"}"@ =~= envelope_suffix());
            if success_head {
                assert(line@.take(9) == success_prefix());
            } else if n >= 11 {
                assert(line@.take(9) != success_prefix());
            }
            if failure_head {
                assert(line@.take(10) == failure_prefix());
                assert(failure_prefix()[2] == 'e' && success_prefix()[2] == 't');
                assert(line@.take(9)[2] == line@[2] && line@.take(10)[2] == line@[2]);
                assert(line@.take(9) != success_prefix());
            }
            if success_head && !failure_head && n >= 12 && line@.take(10) == failure_prefix() {
                assert(line@.take(9)[2] == line@[2] && line@.take(10)[2] == line@[2]);
                assert(false);
            }
        }
        if framed && success_head {
            proof {
                assert(line@.skip(n - 2) =~= line@.subrange(n - 2, n as int));
            }
            match unescape_range(line, 9, n - 2) {
                Some(text) => Some(Envelope::Success { text }),
                None => None,
            }
        } else if framed && failure_head {
            proof {
                assert(line@.skip(n - 2) =~= line@.subrange(n - 2, n as int));
            }
            match unescape_range(line, 10, n - 2) {
                Some(error) => Some(Envelope::Failure { error }),
                None => None,
            }
        } else {
            proof {
                if n >= 12 && !success_head && !failure_head {
                    assert(line@.take(10) != failure_prefix());
                }
                if success_head || failure_head {
                    assert(line@.skip(n - 2) =~= line@.subrange(n - 2, n as int));
                    assert(line@.skip(n - 2) != envelope_suffix());
                }
            }
            None
        }
    }
}

/// Hexadecimal digits decode to the value they encode.
proof fn lemma_hex_digit_val(d: int)
    requires
        0 <= d < 16,
    ensures
        spec_hex_val(spec_hex_digit(d)) == d,
{
}

/// Unescaping undoes escaping: the payload of a rendered envelope decodes
/// to exactly the string that was escaped.
pub proof fn lemma_unescape_escape(s: Seq<char>)
    ensures
        spec_unescape(spec_escape(s)) == Some(s),
    decreases s.len(),
{
    if s.len() == 0 {
    } else {
        let c = s[0];
        let rest = s.drop_first();
        lemma_unescape_escape(rest);
        let t = spec_escape(s);
        assert(t == spec_escape_char(c) + spec_escape(rest));
        assert(seq![c] + rest =~= s);
        if c == '"' || c == '\\' {
            assert(t.skip(2) =~= spec_escape(rest));
        } else if c == '\u{8}' || c == '\u{c}' || c == '\n' || c == '\r' || c == '\t' {
            assert(t.skip(2) =~= spec_escape(rest));
        } else if (c as u32) < 32 {
            let u = c as u32;
            lemma_hex_digit_val(u as int / 16);
            lemma_hex_digit_val(u as int % 16);
            assert(t.skip(6) =~= spec_escape(rest));
            assert(16 * (u as int / 16) + (u as int % 16) == u as int);
            vstd::utf8::char_u32_cast(c, u);
            assert(((16 * spec_hex_val(t[4]) + spec_hex_val(t[5])) as u32) as char == c);
        } else {
            assert(t[0] == c);
            assert(t.drop_first() =~= spec_escape(rest));
        }
    }
}

/// Escaped payloads contain no control character, no raw quote beyond the
/// frame's own, and in particular no newline.
proof fn lemma_escape_no_control(s: Seq<char>)
    ensures
        forall|i: int|
            0 <= i < spec_escape(s).len() ==> (#[trigger] spec_escape(s)[i]) as u32 >= 32,
    decreases s.len(),
{
    if s.len() == 0 {
    } else {
        lemma_escape_no_control(s.drop_first());
        lemma_escape_char_no_control(s[0]);
        let e = spec_escape_char(s[0]);
        assert(spec_escape(s) == e + spec_escape(s.drop_first()));
        assert forall|i: int|
            0 <= i < spec_escape(s).len() implies (#[trigger] spec_escape(s)[i]) as u32 >= 32 by {
            if i < e.len() {
                assert(spec_escape(s)[i] == e[i]);
            } else {
                assert(spec_escape(s)[i] == spec_escape(s.drop_first())[i - e.len()]);
            }
        }
    }
}

/// Every character an escape can emit is printable.
proof fn lemma_escape_char_no_control(c: char)
    ensures
        forall|i: int|
            0 <= i < spec_escape_char(c).len() ==> (#[trigger] spec_escape_char(c)[i]) as u32
                >= 32,
{
    if c != '"' && c != '\\' && c != '\u{8}' && c != '\u{c}' && c != '\n' && c != '\r' && c != '\t'
        && (c as u32) < 32 {
        lemma_hex_digit_printable((c as u32) as int / 16);
        lemma_hex_digit_printable((c as u32) as int % 16);
    }
}

/// Every hexadecimal digit is a printable character.
proof fn lemma_hex_digit_printable(d: int)
    ensures
        spec_hex_digit(d) as u32 >= 32,
{
}

/// The rendered line never contains a control character: written out with
/// one trailing newline it is exactly one line on its stream.
pub proof fn lemma_render_one_line(e: EnvelopeModel)
    ensures
        forall|i: int|
            0 <= i < spec_render(e).len() ==> (#[trigger] spec_render(e)[i]) as u32 >= 32,
{
    match e {
        EnvelopeModel::Success { text } => {
            lemma_escape_no_control(text);
        },
        EnvelopeModel::Failure { error } => {
            lemma_escape_no_control(error);
        },
    }
}

/// Round trip: parsing a rendered envelope yields exactly the envelope that
/// was rendered — the success and failure shapes are mutually exclusive and
/// exhaustive, and the payload survives the trip unchanged.
pub proof fn lemma_parse_render(e: EnvelopeModel)
    ensures
        spec_parse(spec_render(e)) == Some(e),
{
    let line = spec_render(e);
    match e {
        EnvelopeModel::Success { text } => {
            lemma_unescape_escape(text);
            assert(line.take(9) =~= success_prefix());
            assert(line.skip(line.len() - 2) =~= envelope_suffix());
            assert(line.subrange(9, line.len() - 2) =~= spec_escape(text));
        },
        EnvelopeModel::Failure { error } => {
            lemma_unescape_escape(error);
            assert(line.take(9)[2] == 'e');
            assert(success_prefix()[2] == 't');
            assert(line.take(9) != success_prefix());
            assert(line.take(10) =~= failure_prefix());
            assert(line.skip(line.len() - 2) =~= envelope_suffix());
            assert(line.subrange(10, line.len() - 2) =~= spec_escape(error));
        },
    }
}

/// Rendering is injective: two envelopes with the same wire line are the
/// same envelope.
pub proof fn lemma_render_injective(e1: EnvelopeModel, e2: EnvelopeModel)
    requires
        spec_render(e1) == spec_render(e2),
    ensures
        e1 == e2,
{
    lemma_parse_render(e1);
    lemma_parse_render(e2);
}

} // verus!
