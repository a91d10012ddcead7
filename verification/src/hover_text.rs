//! Text-level helpers of hover: the word, package name or method receiver
//! under the cursor, and the description of Moo/Moose accessors.
use vstd::prelude::*;
use crate::json::JsonValue;
use crate::lifecycle::LspServer;
use crate::text::{str_chars, str_eq, owned, string_push, string_from_chars, is_ident_char, ident_char, unicode_whitespace, char_is_whitespace};
use crate::special_variables::{ascii_alnum, ascii_chars, is_markdown_hover, markdown_hover};
use vstd::string::StringSliceAdditionalSpecFns;

verus! {

/// A character that may appear in a token before the cursor: an identifier
/// character or a sigil.
pub open spec fn token_or_sigil(c: char) -> bool {
    is_ident_char(c) || crate::rename::perl_sigil(c)
}

/// The start of the run of identifier characters and sigils that ends at `i`.
pub open spec fn token_run_start(s: Seq<char>, i: int) -> int
    decreases i,
{
    if i > 0 && i <= s.len() && token_or_sigil(s[i - 1]) {
        token_run_start(s, i - 1)
    } else {
        i
    }
}

/// The token at character `offset`: sigils and identifier characters
/// before it, identifier characters from it on; empty past the end.
pub open spec fn static_token(s: Seq<char>, offset: int) -> Seq<char> {
    if offset >= s.len() {
        Seq::empty()
    } else {
        s.subrange(token_run_start(s, offset), crate::rename::ident_run_end(s, offset))
    }
}

proof fn lemma_token_run_start_bounds(s: Seq<char>, i: int)
    requires
        0 <= i <= s.len(),
    ensures
        0 <= token_run_start(s, i) <= i,
    decreases i,
{
    if i > 0 && token_or_sigil(s[i - 1]) {
        lemma_token_run_start_bounds(s, i - 1);
    }
}

proof fn lemma_ident_run_end_bounds(s: Seq<char>, i: int)
    requires
        0 <= i <= s.len(),
    ensures
        i <= crate::rename::ident_run_end(s, i) <= s.len(),
    decreases s.len() - i,
{
    if i < s.len() && is_ident_char(s[i]) {
        lemma_ident_run_end_bounds(s, i + 1);
    }
}

/// Copy of `v[from..to]`.
fn slice_chars(v: &Vec<char>, from: usize, to: usize) -> (r: Vec<char>)
    requires
        from <= to <= v.len(),
    ensures
        r@ == v@.subrange(from as int, to as int),
{
    let mut out: Vec<char> = Vec::new();
    let mut i = from;
    while i < to
        invariant
            from <= i <= to <= v.len(),
            out@ == v@.subrange(from as int, i as int),
        decreases to - i,
    {
        out.push(v[i]);
        i = i + 1;
        assert(out@ =~= v@.subrange(from as int, i as int));
    }
    out
}

impl LspServer {
    /// The token at character `offset`, without needing a server.
    pub fn get_token_at_position_static(content: &str, offset: usize) -> (r: String)
        ensures
            r@ == static_token(content@, offset as int),
    {
        let chars = str_chars(content);
        if offset >= chars.len() {
            return String::new();
        }
        let ghost s = chars@;
        let mut start = offset;
        proof {
            lemma_token_run_start_bounds(s, offset as int);
            lemma_ident_run_end_bounds(s, offset as int);
        }
        while start > 0 && (ident_char(chars[start - 1]) || crate::rename::is_perl_sigil(chars[start - 1]))
            invariant
                s == chars@,
                start <= offset < chars.len(),
                token_run_start(s, offset as int) == token_run_start(s, start as int),
            decreases start,
        {
            start = start - 1;
        }
        let mut end = offset;
        while end < chars.len() && ident_char(chars[end])
            invariant
                s == chars@,
                offset <= end <= chars.len(),
                crate::rename::ident_run_end(s, offset as int) == crate::rename::ident_run_end(s, end as int),
            decreases chars.len() - end,
        {
            end = end + 1;
        }
        let piece = slice_chars(&chars, start, end);
        string_from_chars(piece.as_slice())
    }
}

/// A byte of a package name: an ASCII letter or digit, or `_`.
pub open spec fn package_byte(b: u8) -> bool {
    ascii_alnum(b) || b == 95
}

/// Scanning left from `i` over name bytes and `::` pairs, where the run starts.
pub open spec fn package_start(b: Seq<u8>, i: int) -> int
    decreases i,
{
    if i > 0 && i <= b.len() && package_byte(b[i - 1]) {
        package_start(b, i - 1)
    } else if i >= 2 && i <= b.len() && b[i - 1] == 58 && b[i - 2] == 58 {
        package_start(b, i - 2)
    } else {
        i
    }
}

/// Scanning right from `i` over name bytes and `::` pairs, where the run ends.
pub open spec fn package_end(b: Seq<u8>, i: int) -> int
    decreases b.len() - i,
{
    if 0 <= i < b.len() && package_byte(b[i]) {
        package_end(b, i + 1)
    } else if 0 <= i && i + 1 < b.len() && b[i] == 58 && b[i + 1] == 58 {
        package_end(b, i + 2)
    } else {
        i
    }
}

/// `b` without its trailing `:` bytes.
pub open spec fn trim_colons(b: Seq<u8>) -> Seq<u8>
    decreases b.len(),
{
    if b.len() > 0 && b.last() == 58 {
        trim_colons(b.drop_last())
    } else {
        b
    }
}

/// Whether `::` occurs in `b`.
pub open spec fn has_double_colon(b: Seq<u8>) -> bool {
    exists|i: int| 0 <= i && i + 1 < b.len() && #[trigger] b[i] == 58 && b[i + 1] == 58
}

/// The qualified package name around byte `offset` (a run of name bytes
/// and `::` pairs, trailing colons dropped), when it holds a `::`.
pub open spec fn package_name_at(b: Seq<u8>, offset: int) -> Option<Seq<u8>> {
    if offset < 0 || offset >= b.len() {
        None
    } else {
        let candidate = trim_colons(b.subrange(package_start(b, offset), package_end(b, offset)));
        if has_double_colon(candidate) {
            Some(candidate)
        } else {
            None
        }
    }
}

proof fn lemma_package_start_bounds(b: Seq<u8>, i: int)
    requires
        0 <= i <= b.len(),
    ensures
        0 <= package_start(b, i) <= i,
        forall|k: int| package_start(b, i) <= k < i ==> (package_byte(#[trigger] b[k]) || b[k] == 58),
    decreases i,
{
    if i > 0 && package_byte(b[i - 1]) {
        lemma_package_start_bounds(b, i - 1);
    } else if i >= 2 && b[i - 1] == 58 && b[i - 2] == 58 {
        lemma_package_start_bounds(b, i - 2);
    }
}

proof fn lemma_package_end_bounds(b: Seq<u8>, i: int)
    requires
        0 <= i <= b.len(),
    ensures
        i <= package_end(b, i) <= b.len(),
        forall|k: int| i <= k < package_end(b, i) ==> (package_byte(#[trigger] b[k]) || b[k] == 58),
    decreases b.len() - i,
{
    if i < b.len() && package_byte(b[i]) {
        lemma_package_end_bounds(b, i + 1);
    } else if i + 1 < b.len() && b[i] == 58 && b[i + 1] == 58 {
        lemma_package_end_bounds(b, i + 2);
    }
}

fn is_package_byte(b: u8) -> (r: bool)
    ensures
        r == package_byte(b),
{
    (48 <= b && b <= 57) || (65 <= b && b <= 90) || (97 <= b && b <= 122) || b == 95
}

fn has_double_colon_between(bytes: &[u8], start: usize, stop: usize) -> (r: bool)
    requires
        start <= stop <= bytes@.len(),
    ensures
        r == has_double_colon(bytes@.subrange(start as int, stop as int)),
{
    let ghost cand = bytes@.subrange(start as int, stop as int);
    let mut i = start;
    while i < stop
        invariant
            start <= i <= stop <= bytes@.len(),
            cand == bytes@.subrange(start as int, stop as int),
            forall|j: int| 0 <= j < i - start && j + 1 < cand.len() ==> !(#[trigger] cand[j] == 58 && cand[j + 1] == 58),
        decreases stop - i,
    {
        if i + 1 < stop && bytes[i] == 58 && bytes[i + 1] == 58 {
            assert(cand[i - start] == 58 && cand[i - start + 1] == 58);
            return true;
        }
        i = i + 1;
    }
    false
}

impl LspServer {
    /// The qualified package name (such as `File::Path`) at byte `offset`;
    /// `None` for a bare name without `::`.
    pub fn get_package_name_at_position(text: &str, offset: usize) -> (r: Option<String>)
        ensures
            match package_name_at(text.spec_bytes(), offset as int) {
                Some(name) => r matches Some(s) && s@ == ascii_chars(name),
                None => r is None,
            },
    {
        let bytes = text.as_bytes();
        let len = bytes.len();
        if offset >= len {
            return None;
        }
        let ghost b = bytes@;
        proof {
            lemma_package_start_bounds(b, offset as int);
            lemma_package_end_bounds(b, offset as int);
        }
        let mut start = offset;
        while start > 0 && (is_package_byte(bytes[start - 1]) || (start >= 2 && bytes[start - 1] == 58 && bytes[start - 2] == 58))
            invariant
                b == bytes@,
                start <= offset < len,
                len == b.len(),
                package_start(b, offset as int) == package_start(b, start as int),
            decreases start,
        {
            if is_package_byte(bytes[start - 1]) {
                start = start - 1;
            } else {
                start = start - 2;
            }
        }
        let mut end = offset;
        while end < len && (is_package_byte(bytes[end]) || (end + 1 < len && bytes[end] == 58 && bytes[end + 1] == 58))
            invariant
                b == bytes@,
                offset <= end <= len,
                len == b.len(),
                package_end(b, offset as int) == package_end(b, end as int),
            decreases len - end,
        {
            if is_package_byte(bytes[end]) {
                end = end + 1;
            } else {
                end = end + 2;
            }
        }
        let ghost run = b.subrange(start as int, end as int);
        let mut stop = end;
        while stop > start && bytes[stop - 1] == 58
            invariant
                b == bytes@,
                start <= stop <= end <= len,
                len == b.len(),
                trim_colons(run) == trim_colons(b.subrange(start as int, stop as int)),
            decreases stop,
        {
            assert(b.subrange(start as int, stop as int).drop_last() =~= b.subrange(start as int, stop - 1));
            stop = stop - 1;
        }
        let ghost cand = b.subrange(start as int, stop as int);
        assert(trim_colons(cand) == cand);
        if !has_double_colon_between(bytes, start, stop) {
            return None;
        }
        let mut out = String::new();
        let mut k = start;
        while k < stop
            invariant
                b == bytes@,
                start <= k <= stop <= len,
                len == b.len(),
                forall|j: int| package_start(b, offset as int) <= j < package_end(b, offset as int) ==> (package_byte(
                    #[trigger] b[j],
                ) || b[j] == 58),
                package_start(b, offset as int) == start,
                package_end(b, offset as int) == end,
                stop <= end,
                out@ == ascii_chars(b.subrange(start as int, k as int)),
            decreases stop - k,
        {
            assert(b[k as int] < 128);
            string_push(&mut out, bytes[k] as char);
            k = k + 1;
            assert(out@ =~= ascii_chars(b.subrange(start as int, k as int)));
        }
        Some(out)
    }
}

/// A character of a method receiver: identifier characters, `$` and `:`.
pub open spec fn receiver_char(c: char) -> bool {
    is_ident_char(c) || c == '$' || c == ':'
}

/// Moving left from `i` over whitespace, stopping at position 0.
pub open spec fn skip_ws_back(s: Seq<char>, i: int) -> int
    decreases i,
{
    if i > 0 && i < s.len() && unicode_whitespace(s[i]) {
        skip_ws_back(s, i - 1)
    } else {
        i
    }
}

/// The start of the run of receiver characters that ends at `i`.
pub open spec fn receiver_start(s: Seq<char>, i: int) -> int
    decreases i,
{
    if i > 0 && i <= s.len() && receiver_char(s[i - 1]) {
        receiver_start(s, i - 1)
    } else {
        i
    }
}

/// The receiver written before `->` in front of the word at character
/// `offset` (such as `$dbh` in `$dbh->prepare`); whitespace around the
/// arrow is allowed.
pub open spec fn arrow_receiver(s: Seq<char>, offset: int) -> Option<Seq<char>> {
    if s.len() == 0 {
        None
    } else {
        let probe = if offset < s.len() - 1 { offset } else { s.len() - 1 };
        let tok_start = crate::rename::ident_run_start(s, probe);
        let i1 = skip_ws_back(s, if tok_start > 0 { tok_start - 1 } else { 0 });
        if s[i1] != '>' || i1 == 0 || s[i1 - 1] != '-' {
            None
        } else {
            let i3 = skip_ws_back(s, if i1 >= 2 { i1 - 2 } else { 0 });
            Some(s.subrange(receiver_start(s, i3), i3 + 1))
        }
    }
}

proof fn lemma_skip_ws_back_bounds(s: Seq<char>, i: int)
    requires
        0 <= i < s.len(),
    ensures
        0 <= skip_ws_back(s, i) <= i,
    decreases i,
{
    if i > 0 && unicode_whitespace(s[i]) {
        lemma_skip_ws_back_bounds(s, i - 1);
    }
}

proof fn lemma_receiver_start_bounds(s: Seq<char>, i: int)
    requires
        0 <= i <= s.len(),
    ensures
        0 <= receiver_start(s, i) <= i,
    decreases i,
{
    if i > 0 && receiver_char(s[i - 1]) {
        lemma_receiver_start_bounds(s, i - 1);
    }
}

proof fn lemma_ident_run_start_bounds(s: Seq<char>, i: int)
    requires
        0 <= i <= s.len(),
    ensures
        0 <= crate::rename::ident_run_start(s, i) <= i,
    decreases i,
{
    if i > 0 && is_ident_char(s[i - 1]) {
        lemma_ident_run_start_bounds(s, i - 1);
    }
}

impl LspServer {
    /// The receiver token before `->` in front of the word at character `offset`.
    pub fn extract_arrow_receiver(text: &str, offset: usize) -> (r: Option<String>)
        ensures
            match arrow_receiver(text@, offset as int) {
                Some(rec) => r matches Some(s) && s@ == rec,
                None => r is None,
            },
    {
        let chars = str_chars(text);
        let len = chars.len();
        if len == 0 {
            return None;
        }
        let ghost s = chars@;
        let mut tok_start = if offset < len - 1 { offset } else { len - 1 };
        let ghost probe = tok_start as int;
        proof {
            lemma_ident_run_start_bounds(s, probe);
        }
        while tok_start > 0 && ident_char(chars[tok_start - 1])
            invariant
                s == chars@,
                len == chars.len(),
                tok_start <= probe < len,
                crate::rename::ident_run_start(s, probe) == crate::rename::ident_run_start(s, tok_start as int),
            decreases tok_start,
        {
            tok_start = tok_start - 1;
        }
        let mut i = if tok_start > 0 { tok_start - 1 } else { 0 };
        let ghost i0 = i as int;
        proof {
            lemma_skip_ws_back_bounds(s, i0);
        }
        while i > 0 && char_is_whitespace(chars[i])
            invariant
                s == chars@,
                len == chars.len(),
                i <= i0 < len,
                skip_ws_back(s, i0) == skip_ws_back(s, i as int),
            decreases i,
        {
            i = i - 1;
        }
        if chars[i] != '>' {
            return None;
        }
        if i == 0 || chars[i - 1] != '-' {
            return None;
        }
        i = if i >= 2 { i - 2 } else { 0 };
        let ghost i2 = i as int;
        proof {
            lemma_skip_ws_back_bounds(s, i2);
        }
        while i > 0 && char_is_whitespace(chars[i])
            invariant
                s == chars@,
                len == chars.len(),
                i <= i2 < len,
                skip_ws_back(s, i2) == skip_ws_back(s, i as int),
            decreases i,
        {
            i = i - 1;
        }
        let rec_end = i + 1;
        let ghost i3 = i as int;
        proof {
            lemma_receiver_start_bounds(s, i3);
        }
        while i > 0 && (ident_char(chars[i - 1]) || chars[i - 1] == '$' || chars[i - 1] == ':')
            invariant
                s == chars@,
                len == chars.len(),
                i <= i3 < len,
                receiver_start(s, i3) == receiver_start(s, i as int),
            decreases i,
        {
            i = i - 1;
        }
        let piece = slice_chars(&chars, i, rec_end);
        Some(string_from_chars(piece.as_slice()))
    }
}

} // verus!

verus! {

/// `a` split at its first `=`: the text before and the text after it.
pub open spec fn split_at_equals(a: Seq<char>) -> Option<(Seq<char>, Seq<char>)>
    decreases a.len(),
{
    if a.len() == 0 {
        None
    } else if a[0] == '=' {
        Some((Seq::empty(), a.drop_first()))
    } else {
        match split_at_equals(a.drop_first()) {
            Some((k, v)) => Some((seq![a[0]] + k, v)),
            None => None,
        }
    }
}

fn split_once_equals(a: &str) -> (r: Option<(String, String)>)
    ensures
        match r {
            Some((k, v)) => split_at_equals(a@) == Some((k@, v@)),
            None => split_at_equals(a@) is None,
        },
{
    let chars = str_chars(a);
    let ghost s = chars@;
    let mut i: usize = 0;
    assert(s.skip(0) =~= s);
    proof {
        match split_at_equals(s) {
            Some((k, v)) => {
                assert(s.take(0) + k =~= k);
            },
            None => {},
        }
    }
    while i < chars.len()
        invariant
            s == chars@,
            s == a@,
            i <= chars.len(),
            forall|j: int| 0 <= j < i ==> s[j] != '=',
            split_at_equals(s) == match split_at_equals(s.skip(i as int)) {
                Some((k, v)) => Some((s.take(i as int) + k, v)),
                None => None,
            },
        decreases chars.len() - i,
    {
        assert(s.skip(i as int)[0] == s[i as int]);
        if chars[i] == '=' {
            let key = slice_chars(&chars, 0, i);
            let value = slice_chars(&chars, i + 1, chars.len());
            assert(s.skip(i as int).drop_first() =~= s.subrange(i + 1, s.len() as int));
            assert(s.take(i as int) + Seq::<char>::empty() =~= s.take(i as int));
            assert(key@ =~= s.take(i as int));
            return Some((string_from_chars(key.as_slice()), string_from_chars(value.as_slice())));
        }
        assert(s.skip(i as int).drop_first() =~= s.skip(i + 1));
        assert(s.take(i + 1) =~= s.take(i as int) + seq![s[i as int]]);
        proof {
            match split_at_equals(s.skip(i + 1)) {
                Some((k, v)) => {
                    assert(s.take(i as int) + (seq![s[i as int]] + k) =~= s.take(i + 1) + k);
                },
                None => {},
            }
        }
        i = i + 1;
    }
    assert(s.skip(i as int).len() == 0);
    None
}

/// The value of the first `key=value` attribute whose key is `key`.
pub open spec fn attribute_value(attrs: Seq<Seq<char>>, key: Seq<char>) -> Option<Seq<char>>
    decreases attrs.len(),
{
    if attrs.len() == 0 {
        None
    } else {
        match split_at_equals(attrs[0]) {
            Some((k, v)) => if k == key {
                Some(v)
            } else {
                attribute_value(attrs.drop_first(), key)
            },
            None => attribute_value(attrs.drop_first(), key),
        }
    }
}

pub open spec fn string_views(v: Seq<String>) -> Seq<Seq<char>> {
    v.map_values(|s: String| s@)
}

impl LspServer {
    /// The value of the attribute `key` among `key=value` attributes.
    pub fn moo_attribute_value(attributes: &Vec<String>, key: &str) -> (r: Option<String>)
        ensures
            match attribute_value(string_views(attributes@), key@) {
                Some(v) => r matches Some(s) && s@ == v,
                None => r is None,
            },
    {
        let ghost all = string_views(attributes@);
        let mut i: usize = 0;
        assert(all.skip(0) =~= all);
        while i < attributes.len()
            invariant
                i <= attributes.len(),
                all == string_views(attributes@),
                attribute_value(all, key@) == attribute_value(all.skip(i as int), key@),
            decreases attributes.len() - i,
        {
            assert(all.skip(i as int)[0] == attributes@[i as int]@);
            assert(all.skip(i as int).drop_first() =~= all.skip(i + 1));
            if let Some((k, v)) = split_once_equals(attributes[i].as_str()) {
                if str_eq(k.as_str(), key) {
                    return Some(v);
                }
            }
            i = i + 1;
        }
        None
    }

    /// A readable name for an `is` access mode.
    pub fn describe_access_mode(value: &str) -> (r: String)
        ensures
            r@ == access_mode_text(value@),
    {
        if str_eq(value, "ro") {
            owned("read-only")
        } else if str_eq(value, "rw") {
            owned("read-write")
        } else if str_eq(value, "rwp") {
            owned("read-write private")
        } else if str_eq(value, "lazy") {
            owned("lazy")
        } else {
            owned(value)
        }
    }
}

/// `ro`, `rw`, `rwp` and `lazy` spelled out; other modes as they are.
pub open spec fn access_mode_text(v: Seq<char>) -> Seq<char> {
    if v == "ro"@ {
        "read-only"@
    } else if v == "rw"@ {
        "read-write"@
    } else if v == "rwp"@ {
        "read-write private"@
    } else if v == "lazy"@ {
        "lazy"@
    } else {
        v
    }
}

/// `s` without leading and trailing whitespace.
pub open spec fn trimmed(s: Seq<char>) -> Seq<char>
    decreases s.len(),
{
    if s.len() > 0 && unicode_whitespace(s[0]) {
        trimmed(s.drop_first())
    } else if s.len() > 0 && unicode_whitespace(s.last()) {
        trimmed(s.drop_last())
    } else {
        s
    }
}

/// ASCII letters in lower case; other characters unchanged.
pub open spec fn ascii_lower(s: Seq<char>) -> Seq<char> {
    s.map_values(|c: char| if 'A' <= c && c <= 'Z' { ((c as u32) + 32) as char } else { c })
}

/// The normalized form of a flag value: trimmed and in ASCII lower case.
pub open spec fn flag_text(v: Seq<char>) -> Seq<char> {
    ascii_lower(trimmed(v))
}

/// A flag value that means yes: `1`, `true` or `yes`.
pub open spec fn truthy(v: Seq<char>) -> bool {
    let t = flag_text(v);
    t == "1"@ || t == "true"@ || t == "yes"@
}

/// `yes` for a true flag, `no` for a false one (`0`, `false`, `no`),
/// otherwise the normalized value.
pub open spec fn truthy_text(v: Seq<char>) -> Seq<char> {
    let t = flag_text(v);
    if t == "1"@ || t == "true"@ || t == "yes"@ {
        "yes"@
    } else if t == "0"@ || t == "false"@ || t == "no"@ {
        "no"@
    } else {
        t
    }
}

/// `s` with `A`..`Z` mapped to `a`..`z` and every other character unchanged.
fn to_ascii_lowercase(s: &str) -> (r: String)
    ensures
        r@ == ascii_lower(s@),
{
    let chars = str_chars(s);
    let mut out = String::new();
    let mut i: usize = 0;
    while i < chars.len()
        invariant
            i <= chars.len(),
            chars@ == s@,
            out@ == ascii_lower(s@.take(i as int)),
        decreases chars.len() - i,
    {
        let c = chars[i];
        let lower = if 'A' <= c && c <= 'Z' {
            ((c as u8) + 32) as char
        } else {
            c
        };
        string_push(&mut out, lower);
        assert(ascii_lower(s@.take(i + 1)) =~= ascii_lower(s@.take(i as int)).push(lower));
        i = i + 1;
    }
    assert(s@.take(chars.len() as int) =~= s@);
    out
}

/// The characters of `v` without leading and trailing whitespace.
pub fn trim_chars(v: &Vec<char>) -> (r: Vec<char>)
    ensures
        r@ == trimmed(v@),
{
    let ghost s = v@;
    let mut lo: usize = 0;
    let mut hi: usize = v.len();
    assert(s.subrange(0, s.len() as int) =~= s);
    while lo < hi && (char_is_whitespace(v[lo]) || char_is_whitespace(v[hi - 1]))
        invariant
            s == v@,
            lo <= hi <= v.len(),
            trimmed(s) == trimmed(s.subrange(lo as int, hi as int)),
        decreases hi - lo,
    {
        let ghost cur = s.subrange(lo as int, hi as int);
        if char_is_whitespace(v[lo]) {
            assert(cur.drop_first() =~= s.subrange(lo + 1, hi as int));
            lo = lo + 1;
        } else {
            assert(cur.drop_last() =~= s.subrange(lo as int, hi - 1));
            hi = hi - 1;
        }
    }
    slice_chars(v, lo, hi)
}

/// `s` without leading and trailing whitespace.
pub fn trim_text(s: &str) -> (r: String)
    ensures
        r@ == trimmed(s@),
{
    let chars = str_chars(s);
    let t = trim_chars(&chars);
    string_from_chars(t.as_slice())
}

/// The normalized form of a flag value.
fn normalize_flag(value: &str) -> (r: String)
    ensures
        r@ == flag_text(value@),
{
    let t = trim_text(value);
    to_ascii_lowercase(t.as_str())
}

impl LspServer {
    /// Whether a flag value means yes.
    pub fn is_truthy(value: &str) -> (r: bool)
        ensures
            r == truthy(value@),
    {
        let t = normalize_flag(value);
        str_eq(t.as_str(), "1") || str_eq(t.as_str(), "true") || str_eq(t.as_str(), "yes")
    }

    /// `yes`, `no`, or the normalized value of a flag.
    pub fn describe_truthy(value: &str) -> (r: String)
        ensures
            r@ == truthy_text(value@),
    {
        let t = normalize_flag(value);
        if str_eq(t.as_str(), "1") || str_eq(t.as_str(), "true") || str_eq(t.as_str(), "yes") {
            owned("yes")
        } else if str_eq(t.as_str(), "0") || str_eq(t.as_str(), "false") || str_eq(t.as_str(), "no") {
            owned("no")
        } else {
            t
        }
    }
}

/// The name of a generated accessor method: `default_prefix` + the
/// attribute name when the option is a true flag, else the option's value.
pub open spec fn accessor_method_name(name: Seq<char>, attrs: Seq<Seq<char>>, key: Seq<char>, default_prefix: Seq<char>) -> Option<Seq<char>> {
    match attribute_value(attrs, key) {
        Some(v) => if truthy(v) {
            Some(default_prefix + name)
        } else {
            Some(v)
        },
        None => None,
    }
}

impl LspServer {
    pub fn moo_accessor_method_name(name: &str, attributes: &Vec<String>, key: &str, default_prefix: &str) -> (r: Option<String>)
        ensures
            match accessor_method_name(name@, string_views(attributes@), key@, default_prefix@) {
                Some(m) => r matches Some(s) && s@ == m,
                None => r is None,
            },
    {
        let value = match Self::moo_attribute_value(attributes, key) {
            Some(v) => v,
            None => return None,
        };
        if Self::is_truthy(value.as_str()) {
            let mut out = owned(default_prefix);
            out.append(name);
            Some(out)
        } else {
            Some(value)
        }
    }
}

/// The attribute options that have a line of their own.
pub open spec fn known_option(k: Seq<char>) -> bool {
    k == "isa"@ || k == "is"@ || k == "required"@ || k == "predicate"@ || k == "builder"@ || k == "clearer"@
        || k == "reader"@ || k == "writer"@ || k == "accessor"@ || k == "lazy"@ || k == "default"@
}

/// The `key=value` attributes whose key has no line of its own, in order.
pub open spec fn extra_options(attrs: Seq<Seq<char>>) -> Seq<Seq<char>>
    decreases attrs.len(),
{
    if attrs.len() == 0 {
        Seq::empty()
    } else {
        let rest = extra_options(attrs.drop_last());
        match split_at_equals(attrs.last()) {
            Some((k, _)) => if known_option(k) {
                rest
            } else {
                rest.push(attrs.last())
            },
            None => rest,
        }
    }
}

/// The texts of `items` joined with `sep`.
pub open spec fn joined(items: Seq<Seq<char>>, sep: Seq<char>) -> Seq<char>
    decreases items.len(),
{
    if items.len() == 0 {
        Seq::empty()
    } else if items.len() == 1 {
        items[0]
    } else {
        joined(items.drop_last(), sep) + sep + items.last()
    }
}

/// A line `**Label**: text` or `**Label**: \`text\``, when the value is there.
pub open spec fn opt_line(label: Seq<char>, value: Option<Seq<char>>, code: bool) -> Seq<Seq<char>> {
    match value {
        Some(v) => seq![if code {
            "**"@ + label + "**: `"@ + v + "`"@
        } else {
            "**"@ + label + "**: "@ + v
        }],
        None => Seq::empty(),
    }
}

/// The access mode of the attributes, spelled out.
pub open spec fn access_value(attrs: Seq<Seq<char>>) -> Option<Seq<char>> {
    match attribute_value(attrs, "is"@) {
        Some(v) => Some(access_mode_text(v)),
        None => None,
    }
}

/// The flag `key` of the attributes as `yes`, `no` or its normalized value.
pub open spec fn flag_value(attrs: Seq<Seq<char>>, key: Seq<char>) -> Option<Seq<char>> {
    match attribute_value(attrs, key) {
        Some(v) => Some(truthy_text(v)),
        None => None,
    }
}

/// The lines describing the accessor `name` with its attributes.
pub open spec fn moo_hover_lines(name: Seq<char>, attrs: Seq<Seq<char>>) -> Seq<Seq<char>> {
    let extras = extra_options(attrs);
    seq!["**Moo/Moose Attribute Accessor**"@, Seq::empty(), "**Attribute**: `"@ + name + "`"@]
        + opt_line("Type"@, attribute_value(attrs, "isa"@), true)
        + opt_line("Access"@, access_value(attrs), false)
        + opt_line("Required"@, flag_value(attrs, "required"@), false)
        + opt_line("Predicate"@, accessor_method_name(name, attrs, "predicate"@, "has_"@), true)
        + opt_line("Builder"@, accessor_method_name(name, attrs, "builder"@, "_build_"@), true)
        + opt_line("Clearer"@, accessor_method_name(name, attrs, "clearer"@, "clear_"@), true)
        + opt_line("Reader"@, attribute_value(attrs, "reader"@), true)
        + opt_line("Writer"@, attribute_value(attrs, "writer"@), true)
        + opt_line("Accessor"@, attribute_value(attrs, "accessor"@), true)
        + opt_line("Lazy"@, flag_value(attrs, "lazy"@), false)
        + opt_line("Default"@, attribute_value(attrs, "default"@), true)
        + (if extras.len() > 0 { seq!["**Options**: "@ + joined(extras, ", "@)] } else { Seq::empty() })
}

} // verus!

verus! {

/// The texts of `items` joined with `sep`.
pub fn join_strings(items: &Vec<String>, sep: &str) -> (r: String)
    ensures
        r@ == joined(string_views(items@), sep@),
{
    let ghost all = string_views(items@);
    let mut out = String::new();
    let mut i: usize = 0;
    while i < items.len()
        invariant
            i <= items.len(),
            all == string_views(items@),
            out@ == joined(all.take(i as int), sep@),
        decreases items.len() - i,
    {
        assert(all.take(i + 1).drop_last() =~= all.take(i as int));
        assert(all.take(i + 1).last() == items@[i as int]@);
        if i > 0 {
            out.append(sep);
        }
        out.append(items[i].as_str());
        i = i + 1;
    }
    assert(all.take(items.len() as int) =~= all);
    out
}

/// Push `**Label**: value` (or with the value in backticks) when present.
fn push_opt_line(lines: &mut Vec<String>, label: &str, value: Option<String>, code: bool)
    ensures
        string_views(final(lines)@) == string_views(old(lines)@) + opt_line(label@, opt_views(value), code),
{
    let ghost before = string_views(lines@);
    if let Some(v) = value {
        let mut line = owned("**");
        line.append(label);
        if code {
            line.append("**: `");
            line.append(v.as_str());
            line.append("`");
        } else {
            line.append("**: ");
            line.append(v.as_str());
        }
        lines.push(line);
        assert(string_views(lines@) =~= before + opt_line(label@, Some(v@), code));
    } else {
        assert(string_views(lines@) =~= before + Seq::<Seq<char>>::empty());
    }
}

pub open spec fn opt_views(v: Option<String>) -> Option<Seq<char>> {
    match v {
        Some(s) => Some(s@),
        None => None,
    }
}

/// The `key=value` attributes without a line of their own, in order.
fn collect_extra_options(attributes: &Vec<String>) -> (r: Vec<String>)
    ensures
        string_views(r@) == extra_options(string_views(attributes@)),
{
    let ghost attrs = string_views(attributes@);
    let mut extras: Vec<String> = Vec::new();
    let mut k: usize = 0;
    while k < attributes.len()
        invariant
            k <= attributes.len(),
            attrs == string_views(attributes@),
            string_views(extras@) == extra_options(attrs.take(k as int)),
        decreases attributes.len() - k,
    {
        assert(attrs.take(k + 1).drop_last() =~= attrs.take(k as int));
        assert(attrs.take(k + 1).last() == attributes@[k as int]@);
        let ghost before = string_views(extras@);
        if let Some((key, _)) = split_once_equals(attributes[k].as_str()) {
            let ks = key.as_str();
            let known = str_eq(ks, "isa") || str_eq(ks, "is") || str_eq(ks, "required") || str_eq(ks, "predicate")
                || str_eq(ks, "builder") || str_eq(ks, "clearer") || str_eq(ks, "reader") || str_eq(ks, "writer")
                || str_eq(ks, "accessor") || str_eq(ks, "lazy") || str_eq(ks, "default");
            if !known {
                extras.push(owned(attributes[k].as_str()));
                assert(string_views(extras@) =~= before.push(attributes@[k as int]@));
            }
        }
        k = k + 1;
    }
    assert(attrs.take(attributes.len() as int) =~= attrs);
    extras
}

impl LspServer {
    /// The hover text of a Moo/Moose attribute accessor: a heading, the
    /// attribute name, one line per known option, and the other options.
    #[verifier::rlimit(40)]
    pub fn format_moo_accessor_hover(name: &str, attributes: &Vec<String>) -> (r: String)
        ensures
            r@ == joined(moo_hover_lines(name@, string_views(attributes@)), "\n"@),
    {
        let ghost attrs = string_views(attributes@);
        let isa = Self::moo_attribute_value(attributes, "isa");
        let access = match Self::moo_attribute_value(attributes, "is") {
            Some(v) => Some(Self::describe_access_mode(v.as_str())),
            None => None,
        };
        let required = match Self::moo_attribute_value(attributes, "required") {
            Some(v) => Some(Self::describe_truthy(v.as_str())),
            None => None,
        };
        let predicate = Self::moo_accessor_method_name(name, attributes, "predicate", "has_");
        let builder = Self::moo_accessor_method_name(name, attributes, "builder", "_build_");
        let clearer = Self::moo_accessor_method_name(name, attributes, "clearer", "clear_");
        let reader = Self::moo_attribute_value(attributes, "reader");
        let writer = Self::moo_attribute_value(attributes, "writer");
        let accessor = Self::moo_attribute_value(attributes, "accessor");
        let lazy = match Self::moo_attribute_value(attributes, "lazy") {
            Some(v) => Some(Self::describe_truthy(v.as_str())),
            None => None,
        };
        let default = Self::moo_attribute_value(attributes, "default");
        assert(opt_views(isa) == attribute_value(attrs, "isa"@));
        assert(opt_views(access) == access_value(attrs));
        assert(opt_views(required) == flag_value(attrs, "required"@));
        assert(opt_views(predicate) == accessor_method_name(name@, attrs, "predicate"@, "has_"@));
        assert(opt_views(builder) == accessor_method_name(name@, attrs, "builder"@, "_build_"@));
        assert(opt_views(clearer) == accessor_method_name(name@, attrs, "clearer"@, "clear_"@));
        assert(opt_views(reader) == attribute_value(attrs, "reader"@));
        assert(opt_views(writer) == attribute_value(attrs, "writer"@));
        assert(opt_views(accessor) == attribute_value(attrs, "accessor"@));
        assert(opt_views(lazy) == flag_value(attrs, "lazy"@));
        assert(opt_views(default) == attribute_value(attrs, "default"@));

        let mut lines: Vec<String> = Vec::new();
        lines.push(owned("**Moo/Moose Attribute Accessor**"));
        lines.push(String::new());
        let mut attr_line = owned("**Attribute**: `");
        attr_line.append(name);
        attr_line.append("`");
        lines.push(attr_line);
        assert(string_views(lines@) =~= seq!["**Moo/Moose Attribute Accessor**"@, Seq::empty(), "**Attribute**: `"@ + name@ + "`"@]);
        push_opt_line(&mut lines, "Type", isa, true);
        push_opt_line(&mut lines, "Access", access, false);
        push_opt_line(&mut lines, "Required", required, false);
        push_opt_line(&mut lines, "Predicate", predicate, true);
        push_opt_line(&mut lines, "Builder", builder, true);
        push_opt_line(&mut lines, "Clearer", clearer, true);
        push_opt_line(&mut lines, "Reader", reader, true);
        push_opt_line(&mut lines, "Writer", writer, true);
        push_opt_line(&mut lines, "Accessor", accessor, true);
        push_opt_line(&mut lines, "Lazy", lazy, false);
        push_opt_line(&mut lines, "Default", default, true);

        let extras = collect_extra_options(attributes);
        if extras.len() > 0 {
            let ghost before = string_views(lines@);
            let mut line = owned("**Options**: ");
            let joined_extras = join_strings(&extras, ", ");
            line.append(joined_extras.as_str());
            lines.push(line);
            assert(string_views(lines@) =~= before.push("**Options**: "@ + joined(string_views(extras@), ", "@)));
        } else {
            assert(string_views(lines@) =~= string_views(lines@) + Seq::<Seq<char>>::empty());
        }
        assert(string_views(lines@) =~= moo_hover_lines(name@, attrs));
        join_strings(&lines, "\n")
    }
}

} // verus!

verus! {

/// The documentation of a pragma: a one-line summary, a description, and
/// the Perl version it needs, if any.
pub struct PragmaDoc {
    pub summary: String,
    pub description: String,
    pub version_required: Option<String>,
}

/// The markdown of a pragma's hover.
pub open spec fn pragma_markdown(module: Seq<char>, doc: PragmaDoc) -> Seq<char> {
    "**Pragma: `"@ + module + "`**\n\n_"@ + doc.summary@ + "_\n\n"@ + doc.description@ + match doc.version_required {
        Some(v) => "\n\n**Requires**: Perl "@ + v@,
        None => Seq::empty(),
    } + "\n\n[perldoc "@ + module + "](https://perldoc.perl.org/"@ + module + ")"@
}

impl LspServer {
    /// The hover of a pragma, from its documentation (none for a module
    /// that is not a documented pragma).
    pub fn build_pragma_hover(module_name: &str, doc: Option<&PragmaDoc>) -> (r: Option<JsonValue>)
        ensures
            match doc {
                Some(d) => r matches Some(v) && is_markdown_hover(v, pragma_markdown(module_name@, *d)),
                None => r is None,
            },
    {
        let d = match doc {
            Some(d) => d,
            None => return None,
        };
        let mut text = owned("**Pragma: `");
        text.append(module_name);
        text.append("`**\n\n_");
        text.append(d.summary.as_str());
        text.append("_\n\n");
        text.append(d.description.as_str());
        match &d.version_required {
            Some(v) => {
                text.append("\n\n**Requires**: Perl ");
                text.append(v.as_str());
            },
            None => {},
        }
        text.append("\n\n[perldoc ");
        text.append(module_name);
        text.append("](https://perldoc.perl.org/");
        text.append(module_name);
        text.append(")");
        proof {
            let m = module_name@;
            let base = "**Pragma: `"@ + m + "`**\n\n_"@ + d.summary@ + "_\n\n"@ + d.description@;
            let ver: Seq<char> = match &d.version_required {
                Some(v) => "\n\n**Requires**: Perl "@ + v@,
                None => Seq::empty(),
            };
            assert(text@ =~= base + ver + "\n\n[perldoc "@ + m + "](https://perldoc.perl.org/"@ + m + ")"@);
        }
        Some(markdown_hover(text.as_str()))
    }
}

} // verus!

verus! {

/// A symbol of the semantic table, as scope lookup needs it: its name,
/// whether it is a subroutine, and the byte span it covers.
pub struct SymbolSpan {
    pub name: String,
    pub is_subroutine: bool,
    pub start: usize,
    pub end: usize,
}

/// A subroutine whose span strictly surrounds `offset`.
pub open spec fn encloses(sym: SymbolSpan, offset: int) -> bool {
    sym.is_subroutine && sym.start < offset && sym.end > offset
}

pub open spec fn span_len(sym: SymbolSpan) -> int {
    sym.end - sym.start
}

/// Among the first `n` symbols, the first of the smallest enclosing
/// subroutines.
pub open spec fn innermost_sub(syms: Seq<SymbolSpan>, offset: int, n: int) -> Option<int>
    decreases n,
{
    if n <= 0 {
        None
    } else {
        let best = innermost_sub(syms, offset, n - 1);
        if encloses(syms[n - 1], offset) && (best is None || span_len(syms[n - 1]) < span_len(syms[best->0])) {
            Some(n - 1)
        } else {
            best
        }
    }
}

/// The scope line of a variable's hover card.
pub open spec fn scope_line(syms: Seq<SymbolSpan>, offset: int) -> Seq<char> {
    match innermost_sub(syms, offset, syms.len() as int) {
        Some(i) => "\n**Scope**: lexical in subroutine `"@ + syms[i].name@ + "`"@,
        None => "\n**Scope**: file scope"@,
    }
}

/// What `innermost_sub` picks is an enclosing subroutine, and no enclosing
/// subroutine among the first `n` is smaller; when none encloses the
/// offset, it picks nothing.
pub proof fn lemma_innermost_sub_is_smallest(syms: Seq<SymbolSpan>, offset: int, n: int)
    requires
        0 <= n <= syms.len(),
    ensures
        match innermost_sub(syms, offset, n) {
            Some(i) => 0 <= i < n && encloses(syms[i], offset) && forall|j: int|
                0 <= j < n && encloses(#[trigger] syms[j], offset) ==> span_len(syms[i]) <= span_len(syms[j]),
            None => forall|j: int| 0 <= j < n ==> !encloses(#[trigger] syms[j], offset),
        },
    decreases n,
{
    if n > 0 {
        lemma_innermost_sub_is_smallest(syms, offset, n - 1);
    }
}

impl LspServer {
    /// The scope of a variable declared at byte `decl_offset`: the smallest
    /// subroutine around it (the first such in `symbols` on a tie), or the
    /// file.
    pub fn build_variable_scope_context(symbols: &Vec<SymbolSpan>, decl_offset: usize) -> (r: String)
        ensures
            r@ == scope_line(symbols@, decl_offset as int),
    {
        let mut best: Option<usize> = None;
        let mut i: usize = 0;
        while i < symbols.len()
            invariant
                i <= symbols.len(),
                match best {
                    Some(b) => innermost_sub(symbols@, decl_offset as int, i as int) == Some(b as int) && b < i
                        && encloses(symbols@[b as int], decl_offset as int),
                    None => innermost_sub(symbols@, decl_offset as int, i as int) is None,
                },
            decreases symbols.len() - i,
        {
            let sym = &symbols[i];
            if sym.is_subroutine && sym.start < decl_offset && sym.end > decl_offset {
                let better = match best {
                    None => true,
                    Some(b) => sym.end - sym.start < symbols[b].end - symbols[b].start,
                };
                if better {
                    best = Some(i);
                }
            }
            i = i + 1;
        }
        match best {
            Some(b) => {
                let mut text = owned("\n**Scope**: lexical in subroutine `");
                text.append(symbols[b].name.as_str());
                text.append("`");
                text
            },
            None => owned("\n**Scope**: file scope"),
        }
    }
}

} // verus!
