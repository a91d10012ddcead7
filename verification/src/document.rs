//! Conversions between byte offsets in a document and LSP positions
//! (zero-based line, and UTF-16 code units within the line).
use vstd::prelude::*;
use crate::lifecycle::LspServer;
use crate::text::str_chars;

verus! {

/// Bytes taken by `c` in UTF-8.
pub open spec fn utf8_len(c: char) -> nat {
    if (c as u32) < 0x80 {
        1
    } else if (c as u32) < 0x800 {
        2
    } else if (c as u32) < 0x10000 {
        3
    } else {
        4
    }
}

/// UTF-16 code units taken by `c`.
pub open spec fn utf16_len(c: char) -> nat {
    if (c as u32) < 0x10000 {
        1
    } else {
        2
    }
}

/// Bytes taken by `s` in UTF-8.
pub open spec fn byte_len(s: Seq<char>) -> nat
    decreases s.len(),
{
    if s.len() == 0 {
        0
    } else {
        byte_len(s.drop_last()) + utf8_len(s.last())
    }
}

/// The position just after the text `s`: lines end at `\n`; the character
/// counts UTF-16 code units since the last line end. At a CRLF line end
/// only the `\n` ends the line: the `\r` is the last character of its line
/// (one unit), so the offset between `\r` and `\n` is at the column after
/// the `\r`, and the offset after the `\n` starts the next line.
pub open spec fn position_after(s: Seq<char>) -> (nat, nat)
    decreases s.len(),
{
    if s.len() == 0 {
        (0, 0)
    } else {
        let (line, ch) = position_after(s.drop_last());
        if s.last() == '\n' {
            (line + 1, 0)
        } else {
            (line, ch + utf16_len(s.last()))
        }
    }
}

/// The longest prefix of `s` whose characters fit in `budget` bytes.
pub open spec fn chars_within(s: Seq<char>, budget: int) -> Seq<char>
    decreases s.len(),
{
    if s.len() == 0 || budget < utf8_len(s[0]) {
        Seq::empty()
    } else {
        seq![s[0]] + chars_within(s.drop_first(), budget - utf8_len(s[0]))
    }
}

/// The position of byte `offset`: that of the end of the characters that
/// lie wholly before it (an offset past the end is the end of the text).
pub open spec fn position_of_offset(s: Seq<char>, offset: int) -> (nat, nat) {
    position_after(chars_within(s, offset))
}

pub fn char_utf8_len(c: char) -> (n: usize)
    ensures
        n == utf8_len(c),
{
    let v = c as u32;
    if v < 0x80 {
        1
    } else if v < 0x800 {
        2
    } else if v < 0x10000 {
        3
    } else {
        4
    }
}

pub fn char_utf16_len(c: char) -> (n: u32)
    ensures
        n == utf16_len(c),
{
    if (c as u32) < 0x10000 {
        1
    } else {
        2
    }
}

proof fn lemma_position_bounds(s: Seq<char>)
    ensures
        position_after(s).0 <= s.len(),
        position_after(s).1 <= 2 * s.len(),
    decreases s.len(),
{
    if s.len() > 0 {
        lemma_position_bounds(s.drop_last());
    }
}

/// The line and UTF-16 character of byte `offset` in `content`.
pub fn offset_to_position_in(content: &str, offset: usize) -> (r: (u32, u32))
    requires
        content@.len() <= 0x7fff_ffff,
    ensures
        r.0 == position_of_offset(content@, offset as int).0,
        r.1 == position_of_offset(content@, offset as int).1,
{
    let chars = str_chars(content);
    let ghost s = chars@;
    let mut line: u32 = 0;
    let mut ch: u32 = 0;
    let mut used: usize = 0;
    let mut k: usize = 0;
    assert(s.skip(0) =~= s);
    assert(s.take(0) =~= Seq::<char>::empty());
    while k < chars.len()
        invariant
            s == chars@,
            s == content@,
            s.len() <= 0x7fff_ffff,
            k <= chars.len(),
            used <= offset,
            chars_within(s, offset as int) == s.take(k as int) + chars_within(s.skip(k as int), offset - used),
            (line as nat, ch as nat) == position_after(s.take(k as int)),
        decreases chars.len() - k,
    {
        let c = chars[k];
        let n = char_utf8_len(c);
        assert(s.skip(k as int)[0] == c);
        if offset - used < n {
            assert(chars_within(s.skip(k as int), offset - used) =~= Seq::<char>::empty());
            assert(s.take(k as int) + Seq::<char>::empty() =~= s.take(k as int));
            return (line, ch);
        }
        assert(s.skip(k as int).drop_first() =~= s.skip(k + 1));
        assert(s.take(k + 1) =~= s.take(k as int) + seq![c]);
        assert(s.take(k + 1).drop_last() =~= s.take(k as int));
        proof {
            lemma_position_bounds(s.take(k + 1));
        }
        if c == '\n' {
            line = line + 1;
            ch = 0;
        } else {
            ch = ch + char_utf16_len(c);
        }
        used = used + n;
        k = k + 1;
    }
    assert(s.skip(k as int) =~= Seq::<char>::empty());
    assert(s.take(k as int) =~= s);
    assert(s + Seq::<char>::empty() =~= s);
    (line, ch)
}

/// From the start of a line, the characters covering `units` UTF-16 code
/// units, stopping at the line end and never splitting a character.
pub open spec fn chars_in_units(s: Seq<char>, units: int) -> Seq<char>
    decreases s.len(),
{
    if s.len() == 0 || s[0] == '\n' || units < utf16_len(s[0]) {
        Seq::empty()
    } else {
        seq![s[0]] + chars_in_units(s.drop_first(), units - utf16_len(s[0]))
    }
}

/// The byte offset of the position (`line`, `character`): the start of the
/// line plus the bytes of the characters that fit in `character` UTF-16
/// units on that line; `None` when the text has fewer lines.
pub open spec fn offset_of_position(s: Seq<char>, line: nat, character: nat) -> Option<nat> {
    match lines_before(s, line) {
        Some(k) => Some(byte_len(s.take(k)) + byte_len(chars_in_units(s.skip(k), character as int))),
        None => None,
    }
}

/// The number of characters before line `line` starts, `None` when the
/// text has fewer lines.
pub open spec fn lines_before(s: Seq<char>, line: nat) -> Option<int>
    decreases s.len(),
{
    if line == 0 {
        Some(0)
    } else if s.len() == 0 {
        None
    } else if s[0] == '\n' {
        match lines_before(s.drop_first(), (line - 1) as nat) {
            Some(k) => Some(k + 1),
            None => None,
        }
    } else {
        match lines_before(s.drop_first(), line) {
            Some(k) => Some(k + 1),
            None => None,
        }
    }
}

proof fn lemma_byte_len_push(s: Seq<char>, c: char)
    ensures
        byte_len(s.push(c)) == byte_len(s) + utf8_len(c),
{
    assert(s.push(c).drop_last() =~= s);
}

proof fn lemma_byte_len_bound(s: Seq<char>)
    ensures
        byte_len(s) <= 4 * s.len(),
    decreases s.len(),
{
    if s.len() > 0 {
        lemma_byte_len_bound(s.drop_last());
    }
}

proof fn lemma_byte_len_first(s: Seq<char>)
    requires
        s.len() > 0,
    ensures
        byte_len(s) == utf8_len(s[0]) + byte_len(s.drop_first()),
    decreases s.len(),
{
    if s.len() > 1 {
        lemma_byte_len_first(s.drop_last());
        assert(s.drop_last().drop_first() =~= s.drop_first().drop_last());
        assert(s.drop_first().last() == s.last());
    } else {
        assert(s.drop_first() =~= Seq::<char>::empty());
        assert(s.drop_last() =~= Seq::<char>::empty());
    }
}

/// The UTF-8 encoding of `s` has `byte_len(s)` bytes.
proof fn lemma_encoded_len(s: Seq<char>)
    ensures
        vstd::utf8::encode_utf8(s).len() == byte_len(s),
    decreases s.len(),
{
    if s.len() > 0 {
        lemma_encoded_len(s.drop_first());
        lemma_byte_len_first(s);
        let v = s[0] as u32;
        vstd::utf8::char_is_scalar(s[0]);
        assert(vstd::utf8::encode_scalar(v).len() == utf8_len(s[0]));
        assert(vstd::utf8::encode_utf8(s) == vstd::utf8::encode_scalar(v) + vstd::utf8::encode_utf8(s.drop_first()));
    }
}

/// The bytes of `content` fit in a `usize`.
fn byte_len_fits(content: &str)
    ensures
        byte_len(content@) <= usize::MAX,
{
    let b = content.as_bytes();
    let n = b.len();
    proof {
        lemma_encoded_len(content@);
    }
}

proof fn lemma_byte_len_prefix(s: Seq<char>, k: int)
    requires
        0 <= k <= s.len(),
    ensures
        byte_len(s.take(k)) <= byte_len(s),
{
    assert(s =~= s.take(k) + s.skip(k));
    lemma_byte_len_append(s.take(k), s.skip(k));
}

/// The byte offset of (`line`, `character`) in `content`; the end of the
/// text when it has fewer lines.
pub fn position_to_offset_in(content: &str, line: u32, character: u32) -> (r: usize)
    ensures
        r == match offset_of_position(content@, line as nat, character as nat) {
            Some(o) => o,
            None => byte_len(content@),
        },
{
    let chars = str_chars(content);
    let ghost s = chars@;
    // Skip to the start of the line.
    let mut k: usize = 0;
    let mut bytes: usize = 0;
    let mut remaining: u32 = line;
    byte_len_fits(content);
    assert(s.take(0) =~= Seq::<char>::empty());
    assert(s.skip(0) =~= s);
    while remaining > 0 && k < chars.len()
        invariant
            s == chars@,
            s == content@,
            byte_len(s) <= usize::MAX,
            k <= chars.len(),
            bytes == byte_len(s.take(k as int)),
            lines_before(s, line as nat) == match lines_before(s.skip(k as int), remaining as nat) {
                Some(j) => Some(j + k),
                None => None,
            },
        decreases chars.len() - k,
    {
        let c = chars[k];
        assert(s.skip(k as int)[0] == c);
        assert(s.skip(k as int).drop_first() =~= s.skip(k + 1));
        assert(s.take(k + 1) =~= s.take(k as int).push(c));
        proof {
            lemma_byte_len_push(s.take(k as int), c);
            lemma_byte_len_prefix(s, k + 1);
        }
        if c == '\n' {
            remaining = remaining - 1;
        }
        bytes = bytes + char_utf8_len(c);
        k = k + 1;
    }
    if remaining > 0 {
        assert(s.skip(k as int) =~= Seq::<char>::empty());
        assert(s.take(k as int) =~= s);
        return bytes;
    }
    assert(lines_before(s, line as nat) == Some(k as int));
    // Advance within the line.
    let ghost start = k as int;
    let ghost start_bytes = bytes;
    let mut units: u32 = character;
    let ghost mut taken: Seq<char> = Seq::empty();
    while k < chars.len()
        invariant
            s == chars@,
            s == content@,
            lines_before(s, line as nat) == Some(start),
            byte_len(s) <= usize::MAX,
            0 <= start <= k <= chars.len(),
            start_bytes == byte_len(s.take(start)),
            bytes == start_bytes + byte_len(taken),
            taken == s.subrange(start, k as int),
            chars_in_units(s.skip(start), character as int) == taken + chars_in_units(s.skip(k as int), units as int),
        decreases chars.len() - k,
    {
        let c = chars[k];
        assert(s.skip(k as int)[0] == c);
        let w = char_utf16_len(c);
        if c == '\n' || units < w {
            assert(chars_in_units(s.skip(k as int), units as int) =~= Seq::<char>::empty());
            assert(taken + Seq::<char>::empty() =~= taken);
            return bytes;
        }
        assert(s.skip(k as int).drop_first() =~= s.skip(k + 1));
        proof {
            lemma_byte_len_push(taken, c);
            assert(s.subrange(start, k + 1) =~= taken.push(c));
            assert(seq![c] + chars_in_units(s.skip(k + 1), units - w) =~= chars_in_units(s.skip(k as int), units as int));
            assert(taken + (seq![c] + chars_in_units(s.skip(k + 1), units - w)) =~= taken.push(c) + chars_in_units(s.skip(k + 1), units - w));
            lemma_byte_len_prefix(s, k + 1);
            assert(s.take(k + 1) =~= s.take(start) + taken.push(c));
            lemma_byte_len_append(s.take(start), taken.push(c));
        }
        proof {
            taken = taken.push(c);
        }
        units = units - w;
        bytes = bytes + char_utf8_len(c);
        k = k + 1;
    }
    assert(s.skip(k as int) =~= Seq::<char>::empty());
    assert(taken + Seq::<char>::empty() =~= taken);
    bytes
}

proof fn lemma_byte_len_append(a: Seq<char>, b: Seq<char>)
    ensures
        byte_len(a + b) == byte_len(a) + byte_len(b),
    decreases b.len(),
{
    if b.len() > 0 {
        lemma_byte_len_append(a, b.drop_last());
        assert((a + b).drop_last() =~= a + b.drop_last());
    } else {
        assert(a + b =~= a);
    }
}

impl LspServer {
    /// Convert a byte offset in `content` to a (line, UTF-16 character) position.
    pub fn offset_to_position(&self, content: &str, offset: usize) -> (r: (u32, u32))
        requires
            content@.len() <= 0x7fff_ffff,
        ensures
            r.0 == position_of_offset(content@, offset as int).0,
            r.1 == position_of_offset(content@, offset as int).1,
    {
        offset_to_position_in(content, offset)
    }

    /// Convert a (line, UTF-16 character) position to a byte offset in
    /// `content`; a line past the end gives the length of the text.
    pub fn position_to_offset(&self, content: &str, line: u32, character: u32) -> (r: usize)
        ensures
            r == match offset_of_position(content@, line as nat, character as nat) {
                Some(o) => o,
                None => byte_len(content@),
            },
    {
        position_to_offset_in(content, line, character)
    }
}

} // verus!

verus! {

/// The index just after the last line end of `t` (0 when it has none).
pub open spec fn line_start(t: Seq<char>) -> int
    decreases t.len(),
{
    if t.len() == 0 {
        0
    } else if t.last() == '\n' {
        t.len() as int
    } else {
        line_start(t.drop_last())
    }
}

/// The UTF-16 code units of `u`.
pub open spec fn units(u: Seq<char>) -> nat
    decreases u.len(),
{
    if u.len() == 0 {
        0
    } else {
        utf16_len(u[0]) + units(u.drop_first())
    }
}

proof fn lemma_units_push(u: Seq<char>, c: char)
    ensures
        units(u.push(c)) == units(u) + utf16_len(c),
    decreases u.len(),
{
    if u.len() == 0 {
        assert(u.push(c).drop_first() =~= Seq::<char>::empty());
        assert(u.push(c)[0] == c);
        assert(units(Seq::<char>::empty()) == 0);
        assert(u =~= Seq::<char>::empty());
    } else {
        assert(u.push(c).drop_first() =~= u.drop_first().push(c));
        assert(u.push(c)[0] == u[0]);
        lemma_units_push(u.drop_first(), c);
    }
}

proof fn lemma_line_start_bounds(t: Seq<char>)
    ensures
        0 <= line_start(t) <= t.len(),
        line_start(t) > 0 ==> t[line_start(t) - 1] == '\n',
        forall|i: int| line_start(t) <= i < t.len() ==> t[i] != '\n',
        position_after(t).0 == 0 ==> line_start(t) == 0,
        line_start(t) == 0 ==> position_after(t).0 == 0,
        position_after(t).1 == units(t.skip(line_start(t))),
    decreases t.len(),
{
    if t.len() > 0 {
        let d = t.drop_last();
        lemma_line_start_bounds(d);
        if t.last() == '\n' {
            assert(t.skip(t.len() as int) =~= Seq::<char>::empty());
        } else {
            assert(t.skip(line_start(d)) =~= d.skip(line_start(d)).push(t.last()));
            lemma_units_push(d.skip(line_start(d)), t.last());
            assert forall|i: int| line_start(t) <= i < t.len() implies t[i] != '\n' by {
                if i < d.len() {
                    assert(t[i] == d[i]);
                }
            }
            if line_start(d) > 0 {
                assert(t[line_start(d) - 1] == d[line_start(d) - 1]);
            }
        }
    } else {
        assert(t.skip(0) =~= t);
    }
}

proof fn lemma_position_after_cons(c: char, t: Seq<char>)
    ensures
        position_after(seq![c] + t).0 == position_after(t).0 + if c == '\n' { 1nat } else { 0nat },
        line_start(seq![c] + t) == if line_start(t) > 0 {
            line_start(t) + 1
        } else if c == '\n' {
            1
        } else {
            0
        },
    decreases t.len(),
{
    if t.len() == 0 {
        assert(seq![c] + t =~= seq![c]);
        assert(seq![c].drop_last() =~= Seq::<char>::empty());
        assert(seq![c].last() == c);
        assert(position_after(Seq::<char>::empty()) == (0nat, 0nat));
        assert(line_start(Seq::<char>::empty()) == 0);
        assert(t =~= Seq::<char>::empty());
    } else {
        assert((seq![c] + t).drop_last() =~= seq![c] + t.drop_last());
        assert((seq![c] + t).last() == t.last());
        assert((seq![c] + t).len() == t.len() + 1);
        lemma_position_after_cons(c, t.drop_last());
    }
}

proof fn lemma_lines_before_prefix(s: Seq<char>, k: int)
    requires
        0 <= k <= s.len(),
    ensures
        lines_before(s, position_after(s.take(k)).0) == Some(line_start(s.take(k))),
    decreases k,
{
    let t = s.take(k);
    lemma_line_start_bounds(t);
    if position_after(t).0 == 0 {
    } else {
        let d = s.drop_first();
        let t1 = d.take(k - 1);
        assert(t =~= seq![s[0]] + t1);
        lemma_position_after_cons(s[0], t1);
        lemma_lines_before_prefix(d, k - 1);
        lemma_line_start_bounds(t1);
    }
}

proof fn lemma_chars_in_units_line(u: Seq<char>, rest: Seq<char>)
    requires
        forall|i: int| 0 <= i < u.len() ==> u[i] != '\n',
    ensures
        chars_in_units(u + rest, units(u) as int) == u,
    decreases u.len(),
{
    if u.len() == 0 {
        assert(u + rest =~= rest);
    } else {
        assert((u + rest).drop_first() =~= u.drop_first() + rest);
        assert((u + rest)[0] == u[0]);
        lemma_chars_in_units_line(u.drop_first(), rest);
        assert(seq![u[0]] + u.drop_first() =~= u);
    }
}

proof fn lemma_chars_within_prefix(s: Seq<char>, k: int)
    requires
        0 <= k <= s.len(),
    ensures
        chars_within(s, byte_len(s.take(k)) as int) == s.take(k),
    decreases k,
{
    if k == 0 {
        assert(s.take(0) =~= Seq::<char>::empty());
    } else {
        let d = s.drop_first();
        assert(s.take(k) =~= seq![s[0]] + d.take(k - 1));
        lemma_byte_len_append(seq![s[0]], d.take(k - 1));
        assert(seq![s[0]].drop_last() =~= Seq::<char>::empty());
        assert(byte_len(Seq::<char>::empty()) == 0);
        assert(byte_len(seq![s[0]]) == utf8_len(s[0]));
        lemma_chars_within_prefix(d, k - 1);
        assert(chars_within(s, byte_len(s.take(k)) as int) == seq![s[0]] + chars_within(
            d,
            byte_len(s.take(k)) - utf8_len(s[0]),
        ));
    }
}

/// Converting the byte offset of a character boundary to a position, and
/// that position back to a byte offset, gives the same offset.
pub proof fn lemma_position_round_trip(s: Seq<char>, k: int)
    requires
        0 <= k <= s.len(),
    ensures
        ({
            let o = byte_len(s.take(k));
            let p = position_of_offset(s, o as int);
            offset_of_position(s, p.0, p.1) == Some(o)
        }),
{
    let t = s.take(k);
    let o = byte_len(t);
    lemma_chars_within_prefix(s, k);
    assert(position_of_offset(s, o as int) == position_after(t));
    lemma_lines_before_prefix(s, k);
    lemma_line_start_bounds(t);
    let j = line_start(t);
    let u = s.subrange(j, k);
    assert(t.skip(j) =~= u);
    assert(s.skip(j) =~= u + s.skip(k));
    lemma_chars_in_units_line(u, s.skip(k));
    assert(s.take(j) + u =~= t);
    lemma_byte_len_append(s.take(j), u);
}

} // verus!
