use vstd::prelude::*;

verus! {

broadcast use vstd::string::axiom_spec_iter;

/// The characters of `s`, in order.
pub fn str_chars(s: &str) -> (v: Vec<char>)
    ensures
        v@ == s@,
{
    let mut v: Vec<char> = Vec::new();
    for c in iter: s.chars()
        invariant
            v@ == iter.seq().take(iter.index() as int),
            iter.seq() == s@,
    {
        v.push(c);
    }
    v
}

} // verus!

verus! {

/// `true` exactly when the two strings hold the same characters.
pub fn str_eq(a: &str, b: &str) -> (r: bool)
    ensures
        r == (a@ == b@),
{
    let va = str_chars(a);
    let vb = str_chars(b);
    if va.len() != vb.len() {
        return false;
    }
    let mut i: usize = 0;
    while i < va.len()
        invariant
            va@ == a@,
            vb@ == b@,
            va.len() == vb.len(),
            i <= va.len(),
            forall|j: int| 0 <= j < i ==> va@[j] == vb@[j],
        decreases va.len() - i,
    {
        if va[i] != vb[i] {
            return false;
        }
        i = i + 1;
    }
    assert(va@ =~= vb@);
    true
}

/// Appends one character to `s`.
#[verifier::external_body]
pub(crate) fn string_push(s: &mut String, c: char)
    ensures
        final(s)@ == old(s)@.push(c),
{
    s.push(c);
}

/// A new string holding the characters of `v`.
pub fn string_from_chars(v: &[char]) -> (s: String)
    ensures
        s@ == v@,
{
    let mut s = String::new();
    let mut i: usize = 0;
    while i < v.len()
        invariant
            i <= v.len(),
            s@ == v@.take(i as int),
        decreases v.len() - i,
    {
        string_push(&mut s, v[i]);
        i = i + 1;
        assert(s@ =~= v@.take(i as int));
    }
    assert(v@.take(v.len() as int) =~= v@);
    s
}

/// A new string holding the characters of `s`.
pub fn owned(s: &str) -> (r: String)
    ensures
        r@ == s@,
{
    s.to_owned()
}

} // verus!

verus! {

/// `true` exactly when `p` is a prefix of `s`.
pub fn str_starts_with(s: &str, p: &str) -> (r: bool)
    ensures
        r == p@.is_prefix_of(s@),
{
    let vs = str_chars(s);
    let vp = str_chars(p);
    seq_starts_with_at(&vs, 0, &vp)
}

/// Whether `p` occurs in `s` starting at position `at`.
pub open spec fn occurs_at(s: Seq<char>, at: int, p: Seq<char>) -> bool {
    0 <= at && at + p.len() <= s.len() && s.subrange(at, at + p.len()) == p
}

/// Whether `p` occurs anywhere in `s`.
pub open spec fn contains_seq(s: Seq<char>, p: Seq<char>) -> bool {
    exists|i: int| occurs_at(s, i, p)
}

/// `true` exactly when `p` occurs in `s` at position `at`.
pub fn seq_starts_with_at(s: &Vec<char>, at: usize, p: &Vec<char>) -> (r: bool)
    ensures
        r == occurs_at(s@, at as int, p@),
        at == 0 ==> r == p@.is_prefix_of(s@),
{
    if p.len() > s.len() || at > s.len() - p.len() {
        return false;
    }
    let mut i: usize = 0;
    while i < p.len()
        invariant
            at + p.len() <= s.len(),
            i <= p.len(),
            forall|j: int| 0 <= j < i ==> s@[at + j] == p@[j],
        decreases p.len() - i,
    {
        if s[at + i] != p[i] {
            assert(s@.subrange(at as int, at + p.len())[i as int] != p@[i as int]);
            return false;
        }
        i = i + 1;
    }
    assert(s@.subrange(at as int, at + p.len()) =~= p@);
    true
}

/// `true` exactly when `p` occurs somewhere in `s`.
pub fn str_contains(s: &str, p: &str) -> (r: bool)
    ensures
        r == contains_seq(s@, p@),
{
    let vs = str_chars(s);
    let vp = str_chars(p);
    if vp.len() > vs.len() {
        assert forall|i: int| !occurs_at(s@, i, p@) by {}
        return false;
    }
    if vp.len() == 0 {
        assert(s@.subrange(0, 0) =~= p@);
        assert(occurs_at(s@, 0, p@));
        return true;
    }
    let mut i: usize = 0;
    while i <= vs.len() - vp.len()
        invariant
            vs@ == s@,
            vp@ == p@,
            1 <= vp.len() <= vs.len(),
            i <= vs.len() - vp.len() + 1,
            forall|j: int| 0 <= j < i ==> !occurs_at(s@, j, p@),
        decreases vs.len() - vp.len() + 1 - i,
    {
        if seq_starts_with_at(&vs, i, &vp) {
            return true;
        }
        i = i + 1;
    }
    assert forall|j: int| !occurs_at(s@, j, p@) by {
        if 0 <= j < i {
        }
    }
    false
}

/// The index of the first `c` in `s`, if any.
pub open spec fn first_index_of(s: Seq<char>, c: char) -> Option<int> {
    if exists|i: int| 0 <= i < s.len() && s[i] == c {
        Some(choose|i: int| 0 <= i < s.len() && s[i] == c && forall|j: int| 0 <= j < i ==> s[j] != c)
    } else {
        None
    }
}

/// The Unicode `Alphabetic` property, as `char::is_alphabetic` reports it.
pub uninterp spec fn unicode_alphabetic(c: char) -> bool;

/// The Unicode numeric categories, as `char::is_numeric` reports them.
pub uninterp spec fn unicode_numeric(c: char) -> bool;

/// The Unicode `White_Space` property, as `char::is_whitespace` reports
/// it: tab, line feed, vertical tab, form feed, carriage return, space,
/// next line, no-break space, ogham space mark, the spaces U+2000 to
/// U+200A, line and paragraph separators, narrow no-break space, medium
/// mathematical space and ideographic space.
pub open spec fn unicode_whitespace(c: char) -> bool {
    let n = c as u32;
    ||| 9 <= n <= 13
    ||| n == 32
    ||| n == 0x85
    ||| n == 0xa0
    ||| n == 0x1680
    ||| 0x2000 <= n <= 0x200a
    ||| n == 0x2028
    ||| n == 0x2029
    ||| n == 0x202f
    ||| n == 0x205f
    ||| n == 0x3000
}

/// An ASCII letter.
pub open spec fn ascii_letter(c: char) -> bool {
    ('a' <= c && c <= 'z') || ('A' <= c && c <= 'Z')
}

/// An ASCII digit.
pub open spec fn ascii_digit(c: char) -> bool {
    '0' <= c && c <= '9'
}

/// `char::is_alphabetic`: whether `c` has the Unicode `Alphabetic`
/// property; among ASCII characters, exactly the letters have it.
#[verifier::external_body]
pub(crate) fn char_is_alphabetic(c: char) -> (r: bool)
    ensures
        r == unicode_alphabetic(c),
        (c as u32) < 128 ==> (r <==> ascii_letter(c)),
{
    c.is_alphabetic()
}

/// `char::is_alphanumeric`: documented as alphabetic or numeric; among
/// ASCII characters, exactly the letters and digits are.
#[verifier::external_body]
pub(crate) fn char_is_alphanumeric(c: char) -> (r: bool)
    ensures
        r == (unicode_alphabetic(c) || unicode_numeric(c)),
        (c as u32) < 128 ==> (r <==> (ascii_letter(c) || ascii_digit(c))),
{
    c.is_alphanumeric()
}

/// Whether `c` has the Unicode `White_Space` property.
pub fn char_is_whitespace(c: char) -> (r: bool)
    ensures
        r == unicode_whitespace(c),
{
    let n = c as u32;
    (9 <= n && n <= 13) || n == 32 || n == 0x85 || n == 0xa0 || n == 0x1680 || (0x2000 <= n && n <= 0x200a)
        || n == 0x2028 || n == 0x2029 || n == 0x202f || n == 0x205f || n == 0x3000
}

/// Letters, digits and `_` (the characters of a Perl identifier).
pub open spec fn is_ident_char(c: char) -> bool {
    unicode_alphabetic(c) || unicode_numeric(c) || c == '_'
}

pub fn ident_char(c: char) -> (r: bool)
    ensures
        r == is_ident_char(c),
{
    char_is_alphanumeric(c) || c == '_'
}

} // verus!
