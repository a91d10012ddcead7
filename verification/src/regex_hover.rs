//! Hover for regex literals: finding the pattern under the cursor and
//! explaining its metacharacters.
use vstd::prelude::*;
use crate::lifecycle::LspServer;
use crate::text::{owned, string_push};
use crate::json::JsonValue;
use crate::special_variables::{is_markdown_hover, markdown_hover};
use vstd::string::StringSliceAdditionalSpecFns;
use vstd::utf8::{encode_utf8, decode_utf8, valid_utf8, is_char_boundary};

verus! {

/// The text of `s` between byte offsets `from` and `to` of its UTF-8
/// encoding: `None` when a bound is past the end or not on a character
/// boundary.
pub open spec fn byte_slice_text(s: Seq<char>, from: int, to: int) -> Option<Seq<char>> {
    let b = encode_utf8(s);
    if 0 <= from && from <= to && to <= b.len() && is_char_boundary(b, from) && is_char_boundary(b, to) {
        Some(decode_utf8(b.subrange(from, to)))
    } else {
        None
    }
}

/// `str::get(from..to)`, documented to give the subslice between the two
/// byte offsets, and `None` where indexing would panic: a bound past the
/// end or not on a character boundary.
#[verifier::external_body]
fn str_get(s: &str, from: usize, to: usize) -> (r: Option<String>)
    requires
        from <= to,
    ensures
        match r {
            Some(t) => byte_slice_text(s@, from as int, to as int) == Some(t@),
            None => byte_slice_text(s@, from as int, to as int) is None,
        },
{
    s.get(from..to).map(|t| t.to_string())
}

/// The text encoded by the bytes `b`, `None` when they are not valid UTF-8.
pub open spec fn utf8_text(b: Seq<u8>) -> Option<Seq<char>> {
    if valid_utf8(b) {
        Some(decode_utf8(b))
    } else {
        None
    }
}

/// `std::str::from_utf8`, documented to read the text of valid UTF-8 bytes
/// and to fail on anything else.
#[verifier::external_body]
fn utf8_decode(b: &[u8]) -> (r: Option<String>)
    ensures
        match r {
            Some(t) => utf8_text(b@) == Some(t@),
            None => utf8_text(b@) is None,
        },
{
    std::str::from_utf8(b).ok().map(|t| t.to_string())
}

/// The index of the first byte `close` at or after `k`, or the length.
pub open spec fn scan_to(b: Seq<u8>, k: int, close: u8) -> int
    decreases b.len() - k,
{
    if k < 0 || k >= b.len() {
        if k < 0 { 0 } else { k }
    } else if b[k] == close {
        k
    } else {
        scan_to(b, k + 1, close)
    }
}

/// Just past the byte at `k` when there is one.
pub open spec fn past(b: Seq<u8>, k: int) -> int {
    if k < b.len() { k + 1 } else { k }
}

/// A quantifier at byte `pos`: what it adds to the token and to the
/// description, and where reading goes on.
pub open spec fn quantifier_at(b: Seq<u8>, pos: int) -> (Seq<char>, Seq<char>, int) {
    let len = b.len();
    if pos < 0 || pos >= len {
        (Seq::empty(), Seq::empty(), pos)
    } else if b[pos] == 43 {
        if pos + 1 < len && b[pos + 1] == 43 {
            (Seq::empty(), ", one or more (possessive \u{2014} no backtracking)"@, pos + 2)
        } else if pos + 1 < len && b[pos + 1] == 63 {
            (Seq::empty(), ", one or more (lazy \u{2014} matches as few as possible)"@, pos + 2)
        } else {
            (Seq::empty(), ", one or more (greedy)"@, pos + 1)
        }
    } else if b[pos] == 42 {
        if pos + 1 < len && b[pos + 1] == 63 {
            (Seq::empty(), ", zero or more (lazy \u{2014} matches as few as possible)"@, pos + 2)
        } else if pos + 1 < len && b[pos + 1] == 43 {
            (Seq::empty(), ", zero or more (possessive \u{2014} no backtracking)"@, pos + 2)
        } else {
            (Seq::empty(), ", zero or more (greedy)"@, pos + 1)
        }
    } else if b[pos] == 63 {
        if pos + 1 < len && b[pos + 1] == 63 {
            (Seq::empty(), ", zero or one (lazy \u{2014} prefers zero)"@, pos + 2)
        } else {
            (Seq::empty(), ", zero or one (optional, greedy)"@, pos + 1)
        }
    } else if b[pos] == 123 {
        let brace_end = past(b, scan_to(b, pos + 1, 125));
        let text = match utf8_text(b.subrange(pos, brace_end)) {
            Some(t) => t,
            None => "{n}"@,
        };
        if brace_end < len && b[brace_end] == 63 {
            (text, ", counted repetition (lazy)"@, brace_end + 1)
        } else if brace_end < len && b[brace_end] == 43 {
            (text, ", counted repetition (possessive)"@, brace_end + 1)
        } else {
            (text, ", counted repetition"@, brace_end)
        }
    } else {
        (Seq::empty(), Seq::empty(), pos)
    }
}

proof fn lemma_scan_to_bounds(b: Seq<u8>, k: int, close: u8)
    requires
        0 <= k,
    ensures
        k <= b.len() ==> k <= scan_to(b, k, close) <= b.len(),
        k > b.len() ==> scan_to(b, k, close) == k,
        scan_to(b, k, close) < b.len() ==> b[scan_to(b, k, close)] == close,
    decreases b.len() - k,
{
    if k < b.len() && b[k] != close {
        lemma_scan_to_bounds(b, k + 1, close);
    }
}

/// The first `close` byte at or after `k`, or the length.
fn scan_bytes(b: &[u8], k: usize, close: u8) -> (r: usize)
    requires
        k <= b@.len(),
    ensures
        r == scan_to(b@, k as int, close),
        k <= r <= b@.len(),
{
    proof {
        lemma_scan_to_bounds(b@, k as int, close);
    }
    let mut j = k;
    while j < b.len() && b[j] != close
        invariant
            k <= j <= b@.len(),
            scan_to(b@, k as int, close) == scan_to(b@, j as int, close),
        decreases b@.len() - j,
    {
        j = j + 1;
    }
    j
}

impl LspServer {
    /// When the bytes at `*pos` are a quantifier (`+`, `*`, `?`, `{n,m}`,
    /// with their lazy and possessive forms), consume them and fold them
    /// into the token and its description.
    pub fn apply_quantifier(tok: String, desc: String, bytes: &[u8], pos: &mut usize) -> (r: (String, String))
        requires
            *old(pos) <= bytes@.len() + 1,
        ensures
            ({
                let (qt, qd, next) = quantifier_at(bytes@, *old(pos) as int);
                &&& r.0@ == tok@ + qt
                &&& r.1@ == desc@ + qd
                &&& *final(pos) as int == next
            }),
            *old(pos) <= *final(pos) <= bytes@.len() + 1,
    {
        let len = bytes.len();
        let p = *pos;
        if p >= len {
            assert(tok@ + Seq::<char>::empty() =~= tok@);
            assert(desc@ + Seq::<char>::empty() =~= desc@);
            return (tok, desc);
        }
        let b = bytes[p];
        let suffix: &str = if b == 43 {
            if p + 1 < len && bytes[p + 1] == 43 {
                *pos = p + 2;
                ", one or more (possessive \u{2014} no backtracking)"
            } else if p + 1 < len && bytes[p + 1] == 63 {
                *pos = p + 2;
                ", one or more (lazy \u{2014} matches as few as possible)"
            } else {
                *pos = p + 1;
                ", one or more (greedy)"
            }
        } else if b == 42 {
            if p + 1 < len && bytes[p + 1] == 63 {
                *pos = p + 2;
                ", zero or more (lazy \u{2014} matches as few as possible)"
            } else if p + 1 < len && bytes[p + 1] == 43 {
                *pos = p + 2;
                ", zero or more (possessive \u{2014} no backtracking)"
            } else {
                *pos = p + 1;
                ", zero or more (greedy)"
            }
        } else if b == 63 {
            if p + 1 < len && bytes[p + 1] == 63 {
                *pos = p + 2;
                ", zero or one (lazy \u{2014} prefers zero)"
            } else {
                *pos = p + 1;
                ", zero or one (optional, greedy)"
            }
        } else if b == 123 {
            let k = scan_bytes(bytes, p + 1, 125);
            let brace_end = if k < len { k + 1 } else { k };
            let counted: &str = if brace_end < len && bytes[brace_end] == 63 {
                *pos = brace_end + 1;
                ", counted repetition (lazy)"
            } else if brace_end < len && bytes[brace_end] == 43 {
                *pos = brace_end + 1;
                ", counted repetition (possessive)"
            } else {
                *pos = brace_end;
                ", counted repetition"
            };
            let range = match utf8_decode(slice_bytes(bytes, p, brace_end).as_slice()) {
                Some(t) => t,
                None => owned("{n}"),
            };
            let mut t = tok;
            t.append(range.as_str());
            let mut d = desc;
            d.append(counted);
            return (t, d);
        } else {
            assert(tok@ + Seq::<char>::empty() =~= tok@);
            assert(desc@ + Seq::<char>::empty() =~= desc@);
            return (tok, desc);
        };
        let mut d = desc;
        d.append(suffix);
        assert(tok@ + Seq::<char>::empty() =~= tok@);
        (tok, d)
    }
}

/// A copy of `b[from..to]`.
fn slice_bytes(b: &[u8], from: usize, to: usize) -> (r: Vec<u8>)
    requires
        from <= to <= b@.len(),
    ensures
        r@ == b@.subrange(from as int, to as int),
{
    let mut out: Vec<u8> = Vec::new();
    let mut i = from;
    while i < to
        invariant
            from <= i <= to <= b@.len(),
            out@ == b@.subrange(from as int, i as int),
        decreases to - i,
    {
        out.push(b[i]);
        i = i + 1;
        assert(out@ =~= b@.subrange(from as int, i as int));
    }
    out
}

/// The meaning of the escape `\c` for the letters and digits it covers.
pub open spec fn escape_meaning(c: u8) -> Option<(Seq<char>, Seq<char>)> {
    if c == 100 {
        Some(("\\d"@, "Any decimal digit (0-9)"@))
    } else if c == 68 {
        Some(("\\D"@, "Any non-digit character"@))
    } else if c == 119 {
        Some(("\\w"@, "Any word character (alphanumeric + underscore)"@))
    } else if c == 87 {
        Some(("\\W"@, "Any non-word character"@))
    } else if c == 115 {
        Some(("\\s"@, "Any whitespace character (space, tab, newline, etc.)"@))
    } else if c == 83 {
        Some(("\\S"@, "Any non-whitespace character"@))
    } else if c == 98 {
        Some(("\\b"@, "Word boundary"@))
    } else if c == 66 {
        Some(("\\B"@, "Non-word boundary"@))
    } else if c == 65 {
        Some(("\\A"@, "Start of string (unaffected by multiline mode)"@))
    } else if c == 90 {
        Some(("\\Z"@, "End of string (allows optional trailing newline)"@))
    } else if c == 122 {
        Some(("\\z"@, "Absolute end of string"@))
    } else if c == 71 {
        Some(("\\G"@, "Where the previous match left off (pos())"@))
    } else if c == 110 {
        Some(("\\n"@, "Newline character"@))
    } else if c == 116 {
        Some(("\\t"@, "Tab character"@))
    } else if c == 114 {
        Some(("\\r"@, "Carriage return character"@))
    } else if c == 102 {
        Some(("\\f"@, "Form feed character"@))
    } else if c == 101 {
        Some(("\\e"@, "Escape character"@))
    } else if c == 97 {
        Some(("\\a"@, "Alarm (bell) character"@))
    } else if c == 48 {
        Some(("\\0"@, "Null character"@))
    } else if c == 104 {
        Some(("\\h"@, "Horizontal whitespace (space or tab)"@))
    } else if c == 72 {
        Some(("\\H"@, "Non-horizontal-whitespace character"@))
    } else if c == 118 {
        Some(("\\v"@, "Vertical whitespace character"@))
    } else if c == 86 {
        Some(("\\V"@, "Non-vertical-whitespace character"@))
    } else if c == 88 {
        Some(("\\X"@, "Extended Unicode grapheme cluster"@))
    } else {
        None
    }
}

fn escape_meaning_of(c: u8) -> (r: Option<(&'static str, &'static str)>)
    ensures
        match r {
            Some((t, d)) => escape_meaning(c) == Some((t@, d@)),
            None => escape_meaning(c) is None,
        },
{
    if c == 100 {
        Some(("\\d", "Any decimal digit (0-9)"))
    } else if c == 68 {
        Some(("\\D", "Any non-digit character"))
    } else if c == 119 {
        Some(("\\w", "Any word character (alphanumeric + underscore)"))
    } else if c == 87 {
        Some(("\\W", "Any non-word character"))
    } else if c == 115 {
        Some(("\\s", "Any whitespace character (space, tab, newline, etc.)"))
    } else if c == 83 {
        Some(("\\S", "Any non-whitespace character"))
    } else if c == 98 {
        Some(("\\b", "Word boundary"))
    } else if c == 66 {
        Some(("\\B", "Non-word boundary"))
    } else if c == 65 {
        Some(("\\A", "Start of string (unaffected by multiline mode)"))
    } else if c == 90 {
        Some(("\\Z", "End of string (allows optional trailing newline)"))
    } else if c == 122 {
        Some(("\\z", "Absolute end of string"))
    } else if c == 71 {
        Some(("\\G", "Where the previous match left off (pos())"))
    } else if c == 110 {
        Some(("\\n", "Newline character"))
    } else if c == 116 {
        Some(("\\t", "Tab character"))
    } else if c == 114 {
        Some(("\\r", "Carriage return character"))
    } else if c == 102 {
        Some(("\\f", "Form feed character"))
    } else if c == 101 {
        Some(("\\e", "Escape character"))
    } else if c == 97 {
        Some(("\\a", "Alarm (bell) character"))
    } else if c == 48 {
        Some(("\\0", "Null character"))
    } else if c == 104 {
        Some(("\\h", "Horizontal whitespace (space or tab)"))
    } else if c == 72 {
        Some(("\\H", "Non-horizontal-whitespace character"))
    } else if c == 118 {
        Some(("\\v", "Vertical whitespace character"))
    } else if c == 86 {
        Some(("\\V", "Non-vertical-whitespace character"))
    } else if c == 88 {
        Some(("\\X", "Extended Unicode grapheme cluster"))
    } else {
        None
    }
}

/// The meaning of a group opening `(?k`: its shown prefix, its description
/// and how many bytes it takes (`b` is the byte after `(?k` when there is one).
pub open spec fn group_meaning(k: u8, after: Option<u8>) -> (Seq<char>, Seq<char>, int) {
    if k == 58 {
        ("(?:"@, "Non-capturing group"@, 3)
    } else if k == 61 {
        ("(?="@, "Positive lookahead assertion"@, 3)
    } else if k == 33 {
        ("(?!"@, "Negative lookahead assertion"@, 3)
    } else if k == 60 && after == Some(61u8) {
        ("(?<="@, "Positive lookbehind assertion"@, 4)
    } else if k == 60 && after == Some(33u8) {
        ("(?<!"@, "Negative lookbehind assertion"@, 4)
    } else if k == 60 {
        ("(?<name>"@, "Named capture group (angle-bracket form)"@, 3)
    } else if k == 39 {
        ("(?'name'"@, "Named capture group (single-quote form)"@, 3)
    } else if k == 35 {
        ("(?#"@, "Comment \u{2014} ignored by the regex engine"@, 3)
    } else if k == 124 {
        ("(?|"@, "Branch reset group \u{2014} resets capture numbering per branch"@, 3)
    } else if k == 62 {
        ("(?>"@, "Atomic group (no backtracking into this group)"@, 3)
    } else {
        ("(?"@, "Special group (inline modifier or other extension)"@, 2)
    }
}

fn group_meaning_of(k: u8, after: Option<u8>) -> (r: (&'static str, &'static str, usize))
    ensures
        r.0@ == group_meaning(k, after).0,
        r.1@ == group_meaning(k, after).1,
        r.2 as int == group_meaning(k, after).2,
{
    if k == 58 {
        ("(?:", "Non-capturing group", 3)
    } else if k == 61 {
        ("(?=", "Positive lookahead assertion", 3)
    } else if k == 33 {
        ("(?!", "Negative lookahead assertion", 3)
    } else if k == 60 && after == Some(61u8) {
        ("(?<=", "Positive lookbehind assertion", 4)
    } else if k == 60 && after == Some(33u8) {
        ("(?<!", "Negative lookbehind assertion", 4)
    } else if k == 60 {
        ("(?<name>", "Named capture group (angle-bracket form)", 3)
    } else if k == 39 {
        ("(?'name'", "Named capture group (single-quote form)", 3)
    } else if k == 35 {
        ("(?#", "Comment \u{2014} ignored by the regex engine", 3)
    } else if k == 124 {
        ("(?|", "Branch reset group \u{2014} resets capture numbering per branch", 3)
    } else if k == 62 {
        ("(?>", "Atomic group (no backtracking into this group)", 3)
    } else {
        ("(?", "Special group (inline modifier or other extension)", 2)
    }
}

/// Where a character class that starts at `j` (after `[` and an optional
/// `^`) ends: at its `]`, or the end of the pattern; a backslash skips the
/// byte after it.
pub open spec fn class_end(b: Seq<u8>, j: int) -> int
    decreases b.len() + 2 - j,
{
    if j < 0 || j >= b.len() || b[j] == 93 {
        if j > b.len() { b.len() as int } else { j }
    } else if b[j] == 92 {
        if j + 2 <= b.len() { class_end(b, j + 2) } else { b.len() as int }
    } else {
        class_end(b, j + 1)
    }
}

/// A delimited escape `\X{...}` (or `\k<...>`) starting at `i`: its text
/// (or `fallback` when it cannot be cut out) and the byte after it.
pub open spec fn delimited_escape(b: Seq<u8>, p: Seq<char>, i: int, close: u8, fallback: Seq<char>) -> (Seq<char>, int) {
    let end = past(b, scan_to(b, i + 3, close));
    (match byte_slice_text(p, i, end) {
        Some(t) => t,
        None => fallback,
    }, end)
}

/// One step of reading the pattern at byte `i`: the token read there, if
/// any, with its meaning, and the byte where reading goes on.
pub open spec fn explain_step(b: Seq<u8>, p: Seq<char>, i: int) -> (Option<(Seq<char>, Seq<char>)>, int) {
    let len = b.len();
    let c = b[i];
    if c == 92 && i + 1 < len {
        let next = b[i + 1];
        if (next == 112 || next == 80) && i + 2 < len && b[i + 2] == 123 {
            let (tok, end) = delimited_escape(b, p, i, 125, if next == 112 { "\\p{}"@ } else { "\\P{}"@ });
            let desc = if next == 112 {
                "Unicode property \u{2014} matches characters with this property"@
            } else {
                "Unicode property complement \u{2014} matches characters WITHOUT this property"@
            };
            let (qt, qd, np) = quantifier_at(b, end);
            (Some((tok + qt, desc + qd)), np)
        } else if next == 78 && len - i > 2 && b[i + 2] == 123 {
            let (tok, end) = delimited_escape(b, p, i, 125, "\\N{}"@);
            (Some((tok, "Named Unicode character"@)), end)
        } else if next == 103 && len - i > 2 && b[i + 2] == 123 {
            let (tok, end) = delimited_escape(b, p, i, 125, "\\g{}"@);
            (Some((tok, "Named or numbered backreference"@)), end)
        } else if next == 107 && len - i > 2 && b[i + 2] == 60 {
            let (tok, end) = delimited_escape(b, p, i, 62, "\\k<>"@);
            (Some((tok, "Named backreference (angle-bracket form)"@)), end)
        } else {
            match escape_meaning(next) {
                Some((tok, desc)) => {
                    let (qt, qd, np) = quantifier_at(b, i + 2);
                    (Some((tok + qt, desc + qd)), np)
                },
                None => if 49 <= next && next <= 57 {
                    let d = (next as char);
                    let (qt, qd, np) = quantifier_at(b, i + 2);
                    (Some((seq!['\\', d] + qt, "Backreference to capture group "@ + seq![d] + qd)), np)
                } else {
                    (None, i + 2)
                },
            }
        }
    } else if c == 94 {
        (Some(("^"@, "Start of string/line anchor"@)), i + 1)
    } else if c == 36 {
        (Some(("$"@, "End of string/line anchor"@)), i + 1)
    } else if c == 46 {
        let (qt, qd, np) = quantifier_at(b, i + 1);
        (Some(("."@ + qt, "Any character except newline"@ + qd)), np)
    } else if c == 40 {
        if i + 2 < len && b[i + 1] == 63 {
            let after = if i + 3 < len { Some(b[i + 3]) } else { None };
            let (prefix, desc, advance) = group_meaning(b[i + 2], after);
            (Some((prefix, desc)), i + advance)
        } else {
            (Some(("("@, "Capture group \u{2014} captures matched text"@)), i + 1)
        }
    } else if c == 91 {
        let j = if i + 1 < len && b[i + 1] == 94 { i + 2 } else { i + 1 };
        let k = class_end(b, j);
        let end = if k < len { k + 1 } else { k };
        let cls = match byte_slice_text(p, i, if end < len { end } else { len as int }) {
            Some(t) => t,
            None => Seq::empty(),
        };
        let desc = if "[^"@.is_prefix_of(cls) { "Negated character class"@ } else { "Character class"@ };
        let (qt, qd, np) = quantifier_at(b, end);
        (Some((cls + qt, desc + qd)), np)
    } else if c == 43 {
        (Some(("+"@, "Quantifier: one or more"@)), i + 1)
    } else if c == 42 {
        (Some(("*"@, "Quantifier: zero or more"@)), i + 1)
    } else if c == 63 {
        (Some(("?"@, "Quantifier: zero or one (optional)"@)), i + 1)
    } else if c == 124 {
        (Some(("| "@, "Alternation (OR)"@)), i + 1)
    } else {
        (None, i + 1)
    }
}

proof fn lemma_class_end_bounds(b: Seq<u8>, j: int)
    requires
        0 <= j,
    ensures
        j <= b.len() ==> j <= class_end(b, j) <= b.len(),
        j > b.len() ==> class_end(b, j) == b.len(),
    decreases b.len() + 2 - j,
{
    if j < b.len() && b[j] != 93 {
        if b[j] == 92 && j + 2 <= b.len() {
            lemma_class_end_bounds(b, j + 2);
        } else {
            lemma_class_end_bounds(b, j + 1);
        }
    }
}

proof fn lemma_quantifier_advances(b: Seq<u8>, pos: int)
    requires
        0 <= pos <= b.len(),
    ensures
        pos <= quantifier_at(b, pos).2 <= b.len(),
{
    if 0 <= pos < b.len() && b[pos] == 123 {
        lemma_scan_to_bounds(b, pos + 1, 125);
    }
}

/// Reading always moves forward, and stays within one byte past the end.
pub proof fn lemma_explain_step_advances(b: Seq<u8>, p: Seq<char>, i: int)
    requires
        0 <= i < b.len(),
    ensures
        i < explain_step(b, p, i).1 <= b.len(),
{
    let len = b.len();
    if b[i] == 92 && i + 1 < len {
        lemma_scan_to_bounds(b, i + 3, 125);
        lemma_scan_to_bounds(b, i + 3, 62);
        lemma_quantifier_advances(b, i + 2);
        let end = past(b, scan_to(b, i + 3, 125));
        if i + 3 <= len {
            lemma_quantifier_advances(b, end);
        }
    } else if b[i] == 46 {
        lemma_quantifier_advances(b, i + 1);
    } else if b[i] == 91 {
        let j = if i + 1 < len && b[i + 1] == 94 { i + 2 } else { i + 1 };
        lemma_class_end_bounds(b, j);
        let k = class_end(b, j);
        let end = if k < len { k + 1 } else { k };
        lemma_quantifier_advances(b, end);
    }
}

/// The tokens of a pattern read from byte `i` on, with their meanings.
pub open spec fn explain_from(b: Seq<u8>, p: Seq<char>, i: int) -> Seq<(Seq<char>, Seq<char>)>
    decreases b.len() + 2 - i,
{
    if i < 0 || i >= b.len() {
        Seq::empty()
    } else {
        let (entry, next) = explain_step(b, p, i);
        proof {
            lemma_explain_step_advances(b, p, i);
        }
        let rest = explain_from(b, p, next);
        match entry {
            Some(e) => seq![e] + rest,
            None => rest,
        }
    }
}

} // verus!

verus! {

pub open spec fn entry_views(v: Seq<(String, String)>) -> Seq<(Seq<char>, Seq<char>)> {
    v.map_values(|e: (String, String)| (e.0@, e.1@))
}

pub open spec fn opt_entry_view(e: Option<(String, String)>) -> Option<(Seq<char>, Seq<char>)> {
    match e {
        Some((t, d)) => Some((t@, d@)),
        None => None,
    }
}

/// Cut a delimited escape `\X{...}` (or `\k<...>`) starting at `i`.
fn cut_delimited(pattern: &str, bytes: &[u8], i: usize, close: u8, fallback: &str) -> (r: (String, usize))
    requires
        bytes@ == pattern.spec_bytes(),
        i + 3 <= bytes@.len(),
    ensures
        r.0@ == delimited_escape(bytes@, pattern@, i as int, close, fallback@).0,
        r.1 as int == delimited_escape(bytes@, pattern@, i as int, close, fallback@).1,
{
    let n = bytes.len();
    let k = scan_bytes(bytes, i + 3, close);
    let end = if k < n { k + 1 } else { k };
    let tok = match str_get(pattern, i, end) {
        Some(t) => t,
        None => owned(fallback),
    };
    (tok, end)
}

fn with_quantifier(tok: String, desc: String, bytes: &[u8], at: usize) -> (r: (Option<(String, String)>, usize))
    requires
        at <= bytes@.len(),
    ensures
        ({
            let (qt, qd, np) = quantifier_at(bytes@, at as int);
            &&& opt_entry_view(r.0) == Some((tok@ + qt, desc@ + qd))
            &&& r.1 as int == np
        }),
{
    let mut pos = at;
    let (t, d) = LspServer::apply_quantifier(tok, desc, bytes, &mut pos);
    (Some((t, d)), pos)
}

/// One step of reading the pattern at byte `i`.
fn explain_step_at(pattern: &str, bytes: &[u8], i: usize) -> (r: (Option<(String, String)>, usize))
    requires
        bytes@ == pattern.spec_bytes(),
        i < bytes@.len(),
    ensures
        opt_entry_view(r.0) == explain_step(bytes@, pattern@, i as int).0,
        r.1 as int == explain_step(bytes@, pattern@, i as int).1,
{
    proof {
        lemma_explain_step_advances(bytes@, pattern@, i as int);
    }
    let len = bytes.len();
    let c = bytes[i];
    if c == 92 && len - i > 1 {
        let next = bytes[i + 1];
        if (next == 112 || next == 80) && len - i > 2 && bytes[i + 2] == 123 {
            let (tok, end) = cut_delimited(pattern, bytes, i, 125, if next == 112 { "\\p{}" } else { "\\P{}" });
            let desc = if next == 112 {
                "Unicode property \u{2014} matches characters with this property"
            } else {
                "Unicode property complement \u{2014} matches characters WITHOUT this property"
            };
            proof {
                lemma_scan_to_bounds(bytes@, i + 3, 125);
            }
            return with_quantifier(tok, owned(desc), bytes, end);
        }
        if next == 78 && len - i > 2 && bytes[i + 2] == 123 {
            let (tok, end) = cut_delimited(pattern, bytes, i, 125, "\\N{}");
            return (Some((tok, owned("Named Unicode character"))), end);
        }
        if next == 103 && len - i > 2 && bytes[i + 2] == 123 {
            let (tok, end) = cut_delimited(pattern, bytes, i, 125, "\\g{}");
            return (Some((tok, owned("Named or numbered backreference"))), end);
        }
        if next == 107 && len - i > 2 && bytes[i + 2] == 60 {
            let (tok, end) = cut_delimited(pattern, bytes, i, 62, "\\k<>");
            return (Some((tok, owned("Named backreference (angle-bracket form)"))), end);
        }
        match escape_meaning_of(next) {
            Some((tok, desc)) => {
                return with_quantifier(owned(tok), owned(desc), bytes, i + 2);
            },
            None => {
                if 49 <= next && next <= 57 {
                    let d = next as char;
                    let mut tok = owned("\\");
                    string_push(&mut tok, d);
                    let mut desc = owned("Backreference to capture group ");
                    string_push(&mut desc, d);
                    proof {
                        reveal_strlit("\\");
                        assert(tok@ =~= seq!['\\', d]);
                    }
                    return with_quantifier(tok, desc, bytes, i + 2);
                }
                return (None, i + 2);
            },
        }
    }
    if c == 94 {
        return (Some((owned("^"), owned("Start of string/line anchor"))), i + 1);
    }
    if c == 36 {
        return (Some((owned("$"), owned("End of string/line anchor"))), i + 1);
    }
    if c == 46 {
        return with_quantifier(owned("."), owned("Any character except newline"), bytes, i + 1);
    }
    if c == 40 {
        if len - i > 2 && bytes[i + 1] == 63 {
            let after = if len - i > 3 { Some(bytes[i + 3]) } else { None };
            let (prefix, desc, advance) = group_meaning_of(bytes[i + 2], after);
            return (Some((owned(prefix), owned(desc))), i + advance);
        }
        return (Some((owned("("), owned("Capture group \u{2014} captures matched text"))), i + 1);
    }
    if c == 91 {
        let mut j = if len - i > 1 && bytes[i + 1] == 94 { i + 2 } else { i + 1 };
        let ghost j0 = j as int;
        proof {
            lemma_class_end_bounds(bytes@, j0);
        }
        while j < len && bytes[j] != 93
            invariant
                len == bytes@.len(),
                j <= len,
                j0 <= j,
                j0 <= len,
                class_end(bytes@, j0) == class_end(bytes@, j as int),
            decreases len + 2 - j,
        {
            if bytes[j] == 92 {
                if len - j >= 2 {
                    j = j + 2;
                } else {
                    j = len;
                }
            } else {
                j = j + 1;
            }
        }
        let end = if j < len { j + 1 } else { j };
        let stop = if end < len { end } else { len };
        let cls = match str_get(pattern, i, stop) {
            Some(t) => t,
            None => String::new(),
        };
        let desc = if crate::text::str_starts_with(cls.as_str(), "[^") {
            "Negated character class"
        } else {
            "Character class"
        };
        return with_quantifier(cls, owned(desc), bytes, end);
    }
    if c == 43 {
        return (Some((owned("+"), owned("Quantifier: one or more"))), i + 1);
    }
    if c == 42 {
        return (Some((owned("*"), owned("Quantifier: zero or more"))), i + 1);
    }
    if c == 63 {
        return (Some((owned("?"), owned("Quantifier: zero or one (optional)"))), i + 1);
    }
    if c == 124 {
        return (Some((owned("| "), owned("Alternation (OR)"))), i + 1);
    }
    (None, i + 1)
}

impl LspServer {
    /// The tokens of a regex pattern with their meanings: escapes, anchors,
    /// groups, character classes and quantifiers; other characters are
    /// literal and not listed.
    pub fn explain_regex(pattern: &str) -> (r: Vec<(String, String)>)
        ensures
            entry_views(r@) == explain_from(pattern.spec_bytes(), pattern@, 0),
    {
        let bytes = pattern.as_bytes();
        let ghost b = bytes@;
        let ghost p = pattern@;
        let len = bytes.len();
        let mut entries: Vec<(String, String)> = Vec::new();
        let mut i: usize = 0;
        assert(entry_views(entries@) + explain_from(b, p, 0) =~= explain_from(b, p, 0));
        while i < len
            invariant
                b == bytes@,
                b == pattern.spec_bytes(),
                p == pattern@,
                len == b.len(),
                i <= len,
                entry_views(entries@) + explain_from(b, p, i as int) == explain_from(b, p, 0),
            decreases len + 2 - i,
        {
            let ghost before = entry_views(entries@);
            let (entry, next) = explain_step_at(pattern, bytes, i);
            proof {
                lemma_explain_step_advances(b, p, i as int);
            }
            match entry {
                Some(e) => {
                    let ghost ev = (e.0@, e.1@);
                    entries.push(e);
                    assert(entry_views(entries@) =~= before.push(ev));
                    assert(before + (seq![ev] + explain_from(b, p, next as int)) =~= before.push(ev) + explain_from(b, p, next as int));
                },
                None => {},
            }
            i = next;
        }
        assert(explain_from(b, p, i as int) =~= Seq::<(Seq<char>, Seq<char>)>::empty());
        assert(entry_views(entries@) + Seq::<(Seq<char>, Seq<char>)>::empty() =~= entry_views(entries@));
        entries
    }
}

} // verus!

verus! {

/// For paired delimiters the matching close; otherwise the delimiter itself.
pub open spec fn closing_delimiter(open: u8) -> u8 {
    if open == 123 {
        125
    } else if open == 40 {
        41
    } else if open == 91 {
        93
    } else if open == 60 {
        62
    } else {
        open
    }
}

impl LspServer {
    /// For paired delimiters return the matching close; otherwise return `open`.
    pub fn matching_close(open: u8) -> (r: u8)
        ensures
            r == closing_delimiter(open),
    {
        if open == 123 {
            125
        } else if open == 40 {
            41
        } else if open == 91 {
            93
        } else if open == 60 {
            62
        } else {
            open
        }
    }
}

/// A byte before `/` that makes it a division: an ASCII letter or digit,
/// `_`, a closing bracket or a quote.
pub open spec fn division_before(b: u8) -> bool {
    crate::special_variables::ascii_alnum(b) || b == 95 || b == 41 || b == 93 || b == 125 || b == 39 || b == 34
}

/// Where a `/.../` pattern starting at `j` ends: at the closing `/` (a
/// backslash skips the byte after it), or at or past `hi` when unterminated.
pub open spec fn slash_end(b: Seq<u8>, hi: int, j: int) -> int
    decreases hi + 2 - j,
{
    if j >= hi {
        hi
    } else if b[j] == 92 {
        if j + 2 <= hi { slash_end(b, hi, j + 2) } else { hi }
    } else if b[j] == 47 {
        j
    } else {
        slash_end(b, hi, j + 1)
    }
}

/// Where a delimited pattern starting at `j` ends: at its closing
/// delimiter (nesting counted for paired delimiters), or at `hi`.
pub open spec fn delimited_end(b: Seq<u8>, hi: int, j: int, open: u8, close: u8, depth: nat) -> int
    decreases hi + 2 - j,
{
    if j >= hi {
        hi
    } else if b[j] == 92 {
        if j + 2 <= hi { delimited_end(b, hi, j + 2, open, close, depth) } else { hi }
    } else if open != close && b[j] == open {
        delimited_end(b, hi, j + 1, open, close, depth + 1)
    } else if b[j] == close && (open == close || depth <= 1) {
        j
    } else if b[j] == close {
        delimited_end(b, hi, j + 1, open, close, (depth - 1) as nat)
    } else {
        delimited_end(b, hi, j + 1, open, close, depth)
    }
}

/// Whether a regex operator (`m`, `qr` or `s`) starts at `i` of the line
/// `[lo, hi)`: a non-word delimiter follows it and no word byte precedes it.
pub open spec fn regex_operator(b: Seq<u8>, lo: int, hi: int, i: int) -> Option<int> {
    if i + 1 < hi {
        let is_m = b[i] == 109;
        let is_qr = b[i] == 113 && i + 2 < hi && b[i + 1] == 114;
        let is_s = b[i] == 115;
        let delim = if is_qr { i + 2 } else { i + 1 };
        if (is_m || is_qr || is_s) && delim < hi && !crate::special_variables::ascii_alnum(b[delim]) && b[delim] != 95
            && (i == lo || (!crate::special_variables::ascii_alnum(b[i - 1]) && b[i - 1] != 95)) {
            Some(delim)
        } else {
            None
        }
    } else {
        None
    }
}

/// The pattern of the regex literal of the line `[lo, hi)` of `b` whose
/// pattern holds the byte `col`, scanning from `i`: bare `/.../` (not after
/// a word byte, bracket or quote), `m`, `qr` and `s` with any delimiter.
/// A pattern whose bounds do not cut the text at character boundaries is
/// not reported.
pub open spec fn regex_scan(b: Seq<u8>, p: Seq<char>, lo: int, hi: int, col: int, i: int) -> Option<Seq<char>>
    decreases hi + 3 - i,
{
    if i < lo || i >= hi {
        None
    } else if b[i] == 47 && !(i > lo && division_before(b[i - 1])) {
        let ps = i + 1;
        let j = slash_end(b, hi, ps);
        proof {
            lemma_slash_end_bounds(b, hi, ps);
        }
        if j >= hi {
            None
        } else if col >= ps && col < j {
            byte_slice_text(p, ps, j)
        } else {
            regex_scan(b, p, lo, hi, col, j + 1)
        }
    } else {
        match regex_operator(b, lo, hi, i) {
            Some(delim) => {
                let open = b[delim];
                let close = closing_delimiter(open);
                let ps = delim + 1;
                let j = delimited_end(b, hi, ps, open, close, 1);
                proof {
                    lemma_delimited_end_bounds(b, hi, ps, open, close, 1);
                }
                if col >= ps && col < j {
                    byte_slice_text(p, ps, j)
                } else {
                    regex_scan(b, p, lo, hi, col, j + 1)
                }
            },
            None => regex_scan(b, p, lo, hi, col, i + 1),
        }
    }
}

pub proof fn lemma_slash_end_bounds(b: Seq<u8>, hi: int, j: int)
    requires
        j <= hi,
    ensures
        j <= slash_end(b, hi, j) <= hi,
    decreases hi + 2 - j,
{
    if j < hi && b[j] == 92 && j + 2 <= hi {
        lemma_slash_end_bounds(b, hi, j + 2);
    } else if j < hi && b[j] != 47 && b[j] != 92 {
        lemma_slash_end_bounds(b, hi, j + 1);
    }
}

pub proof fn lemma_delimited_end_bounds(b: Seq<u8>, hi: int, j: int, open: u8, close: u8, depth: nat)
    requires
        j <= hi,
    ensures
        j <= delimited_end(b, hi, j, open, close, depth) <= hi,
    decreases hi + 2 - j,
{
    if j < hi {
        if b[j] == 92 {
            if j + 2 <= hi {
                lemma_delimited_end_bounds(b, hi, j + 2, open, close, depth);
            }
        } else if open != close && b[j] == open {
            lemma_delimited_end_bounds(b, hi, j + 1, open, close, depth + 1);
        } else if b[j] == close && (open == close || depth <= 1) {
        } else if b[j] == close {
            lemma_delimited_end_bounds(b, hi, j + 1, open, close, (depth - 1) as nat);
        } else {
            lemma_delimited_end_bounds(b, hi, j + 1, open, close, depth);
        }
    }
}

fn is_alnum_byte(b: u8) -> (r: bool)
    ensures
        r == crate::special_variables::ascii_alnum(b),
{
    (48 <= b && b <= 57) || (65 <= b && b <= 90) || (97 <= b && b <= 122)
}

/// Find the regex pattern of the line `bytes[lo..hi)` of `text` that holds
/// the byte `col`.
fn regex_in_line(text: &str, bytes: &[u8], lo: usize, hi: usize, col: usize) -> (r: Option<String>)
    requires
        bytes@ == text.spec_bytes(),
        lo <= hi <= bytes@.len(),
    ensures
        match r {
            Some(t) => regex_scan(bytes@, text@, lo as int, hi as int, col as int, lo as int) == Some(t@),
            None => regex_scan(bytes@, text@, lo as int, hi as int, col as int, lo as int) is None,
        },
{
    let ghost b = bytes@;
    let ghost p = text@;
    let mut i = lo;
    while i < hi
        invariant
            b == bytes@,
            p == text@,
            b == text.spec_bytes(),
            lo <= i,
            hi <= b.len(),
            regex_scan(b, p, lo as int, hi as int, col as int, lo as int) == regex_scan(b, p, lo as int, hi as int, col as int, i as int),
        decreases hi + 3 - i,
    {
        if bytes[i] == 47 {
            let prev_division = i > lo && {
                let prev = bytes[i - 1];
                is_alnum_byte(prev) || prev == 95 || prev == 41 || prev == 93 || prev == 125 || prev == 39 || prev == 34
            };
            if !prev_division {
                let ps = i + 1;
                proof {
                    lemma_slash_end_bounds(b, hi as int, ps as int);
                }
                let mut j = ps;
                while j < hi && bytes[j] != 47
                    invariant
                        b == bytes@,
                        ps <= j <= hi <= b.len(),
                        slash_end(b, hi as int, ps as int) == slash_end(b, hi as int, j as int),
                    decreases hi + 2 - j,
                {
                    if bytes[j] == 92 {
                        if hi - j >= 2 {
                            j = j + 2;
                        } else {
                            j = hi;
                        }
                    } else {
                        j = j + 1;
                    }
                }
                if j >= hi {
                    return None;
                }
                if col >= ps && col < j {
                    return str_get(text, ps, j);
                }
                i = j + 1;
                continue;
            }
        }
        let mut op: Option<usize> = None;
        if hi - i > 1 {
            let is_m = bytes[i] == 109;
            let is_qr = bytes[i] == 113 && hi - i > 2 && bytes[i + 1] == 114;
            let is_s = bytes[i] == 115;
            let delim = if is_qr { i + 2 } else { i + 1 };
            if (is_m || is_qr || is_s) && delim < hi && !is_alnum_byte(bytes[delim]) && bytes[delim] != 95 && (i == lo
                || (!is_alnum_byte(bytes[i - 1]) && bytes[i - 1] != 95)) {
                op = Some(delim);
            }
        }
        assert(match op {
            Some(d) => regex_operator(b, lo as int, hi as int, i as int) == Some(d as int),
            None => regex_operator(b, lo as int, hi as int, i as int) is None,
        });
        match op {
            Some(delim) => {
                let open = bytes[delim];
                let close = LspServer::matching_close(open);
                let paired = open != close;
                let ps = delim + 1;
                proof {
                    lemma_delimited_end_bounds(b, hi as int, ps as int, open, close, 1);
                }
                let mut j = ps;
                let mut depth: usize = 1;
                while j < hi && !(bytes[j] != 92 && !(paired && bytes[j] == open) && bytes[j] == close && (!paired || depth <= 1))
                    invariant
                        b == bytes@,
                        ps <= j <= hi <= b.len(),
                        paired == (open != close),
                        ps >= 1,
                        1 <= depth,
                        depth <= j - ps + 1,
                        delimited_end(b, hi as int, ps as int, open, close, 1) == delimited_end(b, hi as int, j as int, open, close, depth as nat),
                    decreases hi + 2 - j,
                {
                    if bytes[j] == 92 {
                        if hi - j >= 2 {
                            j = j + 2;
                        } else {
                            j = hi;
                        }
                    } else if paired && bytes[j] == open {
                        assert(depth < usize::MAX);
                        depth = depth + 1;
                        j = j + 1;
                    } else if bytes[j] == close {
                        depth = depth - 1;
                        j = j + 1;
                    } else {
                        j = j + 1;
                    }
                }
                assert(delimited_end(b, hi as int, ps as int, open, close, 1) == j as int);
                if col >= ps && col < j {
                    return str_get(text, ps, j);
                }
                if j >= hi {
                    assert(regex_scan(b, p, lo as int, hi as int, col as int, i as int) == regex_scan(b, p, lo as int, hi as int, col as int, j + 1));
                    return None;
                }
                i = j + 1;
            },
            None => {
                i = i + 1;
            },
        }
    }
    None
}

impl LspServer {
    /// The pattern of the regex literal of `line` whose pattern holds the
    /// byte column `col`.
    pub fn find_regex_in_line(line: &str, col: usize) -> (r: Option<String>)
        ensures
            match r {
                Some(t) => regex_scan(line.spec_bytes(), line@, 0, line.spec_bytes().len() as int, col as int, 0) == Some(t@),
                None => regex_scan(line.spec_bytes(), line@, 0, line.spec_bytes().len() as int, col as int, 0) is None,
            },
    {
        let bytes = line.as_bytes();
        regex_in_line(line, bytes, 0, bytes.len(), col)
    }
}

/// The first byte of the line holding byte `offset`: just after the last
/// `\n` before it.
pub open spec fn line_start_before(b: Seq<u8>, offset: int) -> int
    decreases offset,
{
    if offset <= 0 {
        0
    } else if b[offset - 1] == 10 {
        offset
    } else {
        line_start_before(b, offset - 1)
    }
}

/// The end of the line holding byte `offset`: its `\n`, or the end of the text.
pub open spec fn line_end_from(b: Seq<u8>, offset: int) -> int
    decreases b.len() - offset,
{
    if offset >= b.len() || b[offset] == 10 {
        offset
    } else {
        line_end_from(b, offset + 1)
    }
}

/// The pattern of the regex literal under byte `offset` of `text`.
pub open spec fn regex_at_offset(b: Seq<u8>, p: Seq<char>, offset: int) -> Option<Seq<char>> {
    if offset < 0 || offset > b.len() {
        None
    } else {
        let lo = line_start_before(b, offset);
        let hi = line_end_from(b, offset);
        regex_scan(b, p, lo, hi, offset, lo)
    }
}

proof fn lemma_line_bounds(b: Seq<u8>, offset: int)
    requires
        0 <= offset <= b.len(),
    ensures
        0 <= line_start_before(b, offset) <= offset,
        offset <= line_end_from(b, offset) <= b.len(),
    decreases b.len() - offset + offset,
{
    lemma_line_start_bounds(b, offset);
    lemma_line_end_bounds(b, offset);
}

proof fn lemma_line_start_bounds(b: Seq<u8>, offset: int)
    requires
        0 <= offset <= b.len(),
    ensures
        0 <= line_start_before(b, offset) <= offset,
    decreases offset,
{
    if offset > 0 && b[offset - 1] != 10 {
        lemma_line_start_bounds(b, offset - 1);
    }
}

proof fn lemma_line_end_bounds(b: Seq<u8>, offset: int)
    requires
        0 <= offset <= b.len(),
    ensures
        offset <= line_end_from(b, offset) <= b.len(),
    decreases b.len() - offset,
{
    if offset < b.len() && b[offset] != 10 {
        lemma_line_end_bounds(b, offset + 1);
    }
}

impl LspServer {
    /// Return the inner pattern string if byte `offset` falls inside a
    /// regex literal.
    pub fn find_regex_at_offset(text: &str, offset: usize) -> (r: Option<String>)
        ensures
            match r {
                Some(t) => regex_at_offset(text.spec_bytes(), text@, offset as int) == Some(t@),
                None => regex_at_offset(text.spec_bytes(), text@, offset as int) is None,
            },
    {
        let bytes = text.as_bytes();
        let len = bytes.len();
        if offset > len {
            return None;
        }
        let ghost b = bytes@;
        proof {
            lemma_line_bounds(b, offset as int);
        }
        let mut lo = offset;
        while lo > 0 && bytes[lo - 1] != 10
            invariant
                b == bytes@,
                lo <= offset <= len,
                len == b.len(),
                line_start_before(b, offset as int) == line_start_before(b, lo as int),
            decreases lo,
        {
            lo = lo - 1;
        }
        let mut hi = offset;
        while hi < len && bytes[hi] != 10
            invariant
                b == bytes@,
                offset <= hi <= len,
                len == b.len(),
                line_end_from(b, offset as int) == line_end_from(b, hi as int),
            decreases len - hi,
        {
            hi = hi + 1;
        }
        regex_in_line(text, bytes, lo, hi, offset)
    }

    /// A hover explaining the regex literal under byte `offset`: a table
    /// of its tokens and their meanings, `None` outside a regex or for a
    /// pattern without metacharacters.
    pub fn extract_regex_hover(text: &str, offset: usize) -> (r: Option<JsonValue>)
        ensures
            match regex_at_offset(text.spec_bytes(), text@, offset as int) {
                Some(pattern) => {
                    let entries = explain_from(encode_utf8(pattern), pattern, 0);
                    if entries.len() == 0 {
                        r is None
                    } else {
                        r matches Some(v) && is_markdown_hover(v, regex_table(entries))
                    }
                },
                None => r is None,
            },
    {
        let pattern = match Self::find_regex_at_offset(text, offset) {
            Some(p) => p,
            None => return None,
        };
        let entries = Self::explain_regex(pattern.as_str());
        if entries.len() == 0 {
            return None;
        }
        let mut table = owned("**Regex Pattern**\n\n| Token | Meaning |\n|-------|-------|\n");
        let ghost ev = entry_views(entries@);
        let mut k: usize = 0;
        assert(ev.take(0) =~= Seq::<(Seq<char>, Seq<char>)>::empty());
        while k < entries.len()
            invariant
                k <= entries.len(),
                ev == entry_views(entries@),
                table@ == regex_table(ev.take(k as int)),
            decreases entries.len() - k,
        {
            assert(ev.take(k + 1).drop_last() =~= ev.take(k as int));
            assert(ev.take(k + 1).last() == (entries@[k as int].0@, entries@[k as int].1@));
            table.append("| `");
            table.append(entries[k].0.as_str());
            table.append("` | ");
            table.append(entries[k].1.as_str());
            table.append(" |\n");
            k = k + 1;
        }
        assert(ev.take(entries.len() as int) =~= ev);
        Some(markdown_hover(table.as_str()))
    }
}

/// The markdown table of explained tokens.
pub open spec fn regex_table(entries: Seq<(Seq<char>, Seq<char>)>) -> Seq<char>
    decreases entries.len(),
{
    if entries.len() == 0 {
        "**Regex Pattern**\n\n| Token | Meaning |\n|-------|-------|\n"@
    } else {
        regex_table(entries.drop_last()) + "| `"@ + entries.last().0 + "` | "@ + entries.last().1 + " |\n"@
    }
}

} // verus!
