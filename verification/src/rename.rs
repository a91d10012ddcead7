//! Tokens under the cursor and rename targets.
use vstd::prelude::*;
use crate::json::{JsonValue, JsonMember, member, range_value};
use crate::lifecycle::{LspServer, JsonRpcError, INVALID_PARAMS};
use crate::text::{str_chars, string_from_chars, string_push, owned, is_ident_char, ident_char, unicode_alphabetic, char_is_alphabetic};

verus! {

/// `$`, `@` and `%`: the sigils of Perl variables.
pub open spec fn perl_sigil(c: char) -> bool {
    c == '$' || c == '@' || c == '%'
}

/// Returns true if `c` is a Perl variable sigil (`$`, `@`, or `%`).
pub fn is_perl_sigil(c: char) -> (r: bool)
    ensures
        r == perl_sigil(c),
{
    c == '$' || c == '@' || c == '%'
}

/// Part of a token: an identifier character or a sigil.
pub open spec fn token_char(c: char) -> bool {
    is_ident_char(c) || perl_sigil(c)
}

/// The start of the run of identifier characters that ends at `i`.
pub open spec fn ident_run_start(s: Seq<char>, i: int) -> int
    decreases i,
{
    if i > 0 && i <= s.len() && is_ident_char(s[i - 1]) {
        ident_run_start(s, i - 1)
    } else {
        i
    }
}

/// The end of the run of identifier characters that starts at `i`.
pub open spec fn ident_run_end(s: Seq<char>, i: int) -> int
    decreases s.len() - i,
{
    if 0 <= i < s.len() && is_ident_char(s[i]) {
        ident_run_end(s, i + 1)
    } else {
        i
    }
}

/// The character the cursor at `offset` points into: the one at `offset`
/// (the last one past the end), or the one before it when the cursor sits
/// just after a token.
pub open spec fn probe_index(s: Seq<char>, offset: int) -> int {
    let p = if offset < s.len() - 1 { offset } else { s.len() - 1 };
    if offset == s.len() || (!token_char(s[p]) && p > 0 && token_char(s[p - 1])) {
        if p > 0 { p - 1 } else { 0 }
    } else {
        p
    }
}

/// The span, as character indices `[start, end)`, of the token at the
/// cursor `offset`: an identifier, with the sigil just before it when there
/// is one. `None` on an empty text, away from any token, or on a sigil with
/// no identifier after it.
pub open spec fn token_span(s: Seq<char>, offset: int) -> Option<(int, int)> {
    if s.len() == 0 {
        None
    } else {
        let probe = probe_index(s, offset);
        if !token_char(s[probe]) {
            None
        } else {
            let from = if perl_sigil(s[probe]) && probe + 1 < s.len() && is_ident_char(s[probe + 1]) {
                probe + 1
            } else {
                probe
            };
            let run = ident_run_start(s, from);
            let start = if run > 0 && perl_sigil(s[run - 1]) { run - 1 } else { run };
            let body = if perl_sigil(s[start]) { start + 1 } else { start };
            let end = ident_run_end(s, body);
            if body >= end {
                None
            } else {
                Some((start, end))
            }
        }
    }
}

proof fn lemma_ident_run_start_bounds(s: Seq<char>, i: int)
    requires
        0 <= i <= s.len(),
    ensures
        0 <= ident_run_start(s, i) <= i,
        forall|k: int| ident_run_start(s, i) <= k < i ==> is_ident_char(#[trigger] s[k]),
    decreases i,
{
    if i > 0 && is_ident_char(s[i - 1]) {
        lemma_ident_run_start_bounds(s, i - 1);
    }
}

proof fn lemma_ident_run_end_bounds(s: Seq<char>, i: int)
    requires
        0 <= i <= s.len(),
    ensures
        i <= ident_run_end(s, i) <= s.len(),
        forall|k: int| i <= k < ident_run_end(s, i) ==> is_ident_char(#[trigger] s[k]),
        ident_run_end(s, i) < s.len() ==> !is_ident_char(s[ident_run_end(s, i)]),
    decreases s.len() - i,
{
    if i < s.len() && is_ident_char(s[i]) {
        lemma_ident_run_end_bounds(s, i + 1);
    }
}

impl LspServer {
    /// The span of the token at the cursor `offset` (a character index).
    #[verifier::rlimit(50)]
    #[verifier::spinoff_prover]
    pub fn token_span_at(content: &str, offset: usize) -> (r: Option<(usize, usize)>)
        ensures
            match r {
                Some((a, b)) => token_span(content@, offset as int) == Some((a as int, b as int)),
                None => token_span(content@, offset as int) is None,
            },
    {
        let chars = str_chars(content);
        let ghost s = chars@;
        if chars.len() == 0 {
            return None;
        }
        let n = chars.len();
        let mut probe = if offset < n - 1 { offset } else { n - 1 };
        if offset == n || (!ident_char(chars[probe]) && !is_perl_sigil(chars[probe]) && probe > 0 && (ident_char(
            chars[probe - 1],
        ) || is_perl_sigil(chars[probe - 1]))) {
            probe = if probe > 0 { probe - 1 } else { 0 };
        }
        assert(probe as int == probe_index(s, offset as int));
        if !ident_char(chars[probe]) && !is_perl_sigil(chars[probe]) {
            return None;
        }
        let mut start = probe;
        if is_perl_sigil(chars[start]) && start + 1 < n && ident_char(chars[start + 1]) {
            start = start + 1;
        }
        let ghost from = start as int;
        proof {
            lemma_ident_run_start_bounds(s, from);
        }
        while start > 0 && ident_char(chars[start - 1])
            invariant
                s == chars@,
                start <= from,
                from <= s.len(),
                ident_run_start(s, from) == ident_run_start(s, start as int),
            decreases start,
        {
            start = start - 1;
        }
        assert(start as int == ident_run_start(s, from));
        if start > 0 && is_perl_sigil(chars[start - 1]) {
            start = start - 1;
        }
        let mut end = start;
        if is_perl_sigil(chars[end]) {
            end = end + 1;
        }
        let body = end;
        proof {
            lemma_ident_run_end_bounds(s, body as int);
        }
        while end < n && ident_char(chars[end])
            invariant
                s == chars@,
                n == s.len(),
                body <= end <= n,
                ident_run_end(s, body as int) == ident_run_end(s, end as int),
            decreases n - end,
        {
            end = end + 1;
        }
        if body >= end {
            return None;
        }
        Some((start, end))
    }

    /// The token at the cursor, with its sigil; empty when there is none.
    pub fn get_token_at_position(&self, content: &str, offset: usize) -> (r: String)
        ensures
            r@ == (if offset > content@.len() {
                Seq::empty()
            } else {
                match token_span(content@, offset as int) {
                    Some((a, b)) => content@.subrange(a, b),
                    None => Seq::empty(),
                }
            }),
    {
        let chars = str_chars(content);
        if chars.len() == 0 || offset > chars.len() {
            return String::new();
        }
        match Self::token_span_at(content, offset) {
            Some((start, end)) => {
                proof {
                    let s = content@;
                    let probe = probe_index(s, offset as int);
                    let from = if perl_sigil(s[probe]) && probe + 1 < s.len() && is_ident_char(s[probe + 1]) { probe + 1 } else { probe };
                    lemma_ident_run_start_bounds(s, from);
                    let run = ident_run_start(s, from);
                    let st = if run > 0 && perl_sigil(s[run - 1]) { run - 1 } else { run };
                    let body = if perl_sigil(s[st]) { st + 1 } else { st };
                    lemma_ident_run_end_bounds(s, body);
                }
                let mut piece: Vec<char> = Vec::new();
                let mut i: usize = start;
                while i < end
                    invariant
                        start <= i <= end <= chars.len(),
                        piece@ == chars@.subrange(start as int, i as int),
                    decreases end - i,
                {
                    piece.push(chars[i]);
                    i = i + 1;
                    assert(piece@ =~= chars@.subrange(start as int, i as int));
                }
                string_from_chars(piece.as_slice())
            },
            None => String::new(),
        }
    }

    /// The span of the token at the cursor; `(offset, offset)` when there is none.
    pub fn get_token_bounds(&self, content: &str, offset: usize) -> (r: (usize, usize))
        ensures
            r == (if content@.len() == 0 || offset > content@.len() {
                (offset, offset)
            } else {
                match token_span(content@, offset as int) {
                    Some((a, b)) => (a as usize, b as usize),
                    None => (offset, offset),
                }
            }),
    {
        let chars = str_chars(content);
        if chars.len() == 0 || offset > chars.len() {
            return (offset, offset);
        }
        match Self::token_span_at(content, offset) {
            Some((start, end)) => (start, end),
            None => (offset, offset),
        }
    }
}

/// A token span is an identifier, possibly after one sigil: it lies within
/// the text, holds at least one identifier character after its optional
/// sigil, and cannot be extended to the right.
pub proof fn lemma_token_span_is_identifier(s: Seq<char>, offset: int)
    requires
        0 <= offset,
        token_span(s, offset) is Some,
    ensures
        ({
            let (a, b) = token_span(s, offset).unwrap();
            let body = if perl_sigil(s[a]) { a + 1 } else { a };
            &&& 0 <= a < body + 1
            &&& body < b <= s.len()
            &&& forall|k: int| body <= k < b ==> is_ident_char(#[trigger] s[k])
            &&& b < s.len() ==> !is_ident_char(s[b])
        }),
{
    let probe = probe_index(s, offset);
    let from = if perl_sigil(s[probe]) && probe + 1 < s.len() && is_ident_char(s[probe + 1]) { probe + 1 } else { probe };
    lemma_ident_run_start_bounds(s, from);
    let run = ident_run_start(s, from);
    let start = if run > 0 && perl_sigil(s[run - 1]) { run - 1 } else { run };
    let body = if perl_sigil(s[start]) { start + 1 } else { start };
    lemma_ident_run_end_bounds(s, body);
}

/// A Perl identifier: a letter or `_`, then letters, digits or `_`.
pub open spec fn valid_identifier(name: Seq<char>) -> bool {
    &&& name.len() > 0
    &&& (unicode_alphabetic(name[0]) || name[0] == '_')
    &&& forall|i: int| 1 <= i < name.len() ==> is_ident_char(#[trigger] name[i])
}

impl LspServer {
    /// Validate if a string is a valid Perl identifier.
    pub fn is_valid_identifier(&self, name: &str) -> (r: bool)
        ensures
            r == valid_identifier(name@),
    {
        let chars = str_chars(name);
        if chars.len() == 0 {
            return false;
        }
        if !char_is_alphabetic(chars[0]) && chars[0] != '_' {
            return false;
        }
        let mut i: usize = 1;
        while i < chars.len()
            invariant
                chars@ == name@,
                1 <= i <= chars.len(),
                forall|j: int| 1 <= j < i ==> is_ident_char(#[trigger] chars@[j]),
            decreases chars.len() - i,
        {
            if !ident_char(chars[i]) {
                return false;
            }
            i = i + 1;
        }
        true
    }
}

/// What renaming the symbol `current` to `requested` gives: for a symbol
/// with a sigil, the requested name with that sigil (a different sigil, or a
/// name that is not an identifier after the sigil, is refused); otherwise
/// the requested name itself, which must be an identifier.
pub open spec fn rename_target(current: Option<Seq<char>>, requested: Seq<char>) -> Option<Seq<char>> {
    let sigil = match current {
        Some(c) => if c.len() > 0 && perl_sigil(c[0]) { Some(c[0]) } else { None },
        None => None,
    };
    if requested.len() == 0 {
        None
    } else {
        match sigil {
            Some(sg) => {
                if perl_sigil(requested[0]) && requested[0] != sg {
                    None
                } else {
                    let bare = if perl_sigil(requested[0]) { requested.drop_first() } else { requested };
                    if valid_identifier(bare) {
                        Some(seq![sg] + bare)
                    } else {
                        None
                    }
                }
            },
            None => if valid_identifier(requested) {
                Some(requested)
            } else {
                None
            },
        }
    }
}

impl LspServer {
    /// Normalize a rename target against the current symbol, validating the
    /// sigil and identifier. Refusals are "invalid params" errors.
    pub fn normalize_rename_target(&self, current_symbol: Option<&str>, requested_name: &str) -> (r: Result<String, JsonRpcError>)
        ensures
            match rename_target(match current_symbol {
                Some(c) => Some(c@),
                None => None,
            }, requested_name@) {
                Some(t) => r matches Ok(s) && s@ == t,
                None => r matches Err(e) && e.code == INVALID_PARAMS,
            },
    {
        let req = str_chars(requested_name);
        if req.len() == 0 {
            return Err(JsonRpcError { code: INVALID_PARAMS, message: owned("Invalid identifier: empty rename target"), data: None });
        }
        let sigil: Option<char> = match current_symbol {
            Some(c) => {
                let cc = str_chars(c);
                if cc.len() > 0 && is_perl_sigil(cc[0]) {
                    Some(cc[0])
                } else {
                    None
                }
            },
            None => None,
        };
        match sigil {
            Some(sg) => {
                let first = req[0];
                if is_perl_sigil(first) && first != sg {
                    let mut message = owned("Invalid identifier: sigil '");
                    string_push(&mut message, first);
                    message.append("' does not match '");
                    string_push(&mut message, sg);
                    message.append("'");
                    return Err(JsonRpcError { code: INVALID_PARAMS, message, data: None });
                }
                let bare: String = if is_perl_sigil(first) {
                    let mut rest: Vec<char> = Vec::new();
                    let mut i: usize = 1;
                    while i < req.len()
                        invariant
                            1 <= i <= req.len(),
                            rest@ == req@.subrange(1, i as int),
                        decreases req.len() - i,
                    {
                        rest.push(req[i]);
                        i = i + 1;
                        assert(rest@ =~= req@.subrange(1, i as int));
                    }
                    assert(req@.subrange(1, req.len() as int) =~= req@.drop_first());
                    string_from_chars(rest.as_slice())
                } else {
                    owned(requested_name)
                };
                if !self.is_valid_identifier(bare.as_str()) {
                    let mut message = owned("Invalid identifier: ");
                    message.append(requested_name);
                    return Err(JsonRpcError { code: INVALID_PARAMS, message, data: None });
                }
                let mut out = String::new();
                string_push(&mut out, sg);
                out.append(bare.as_str());
                assert(out@ =~= seq![sg] + bare@);
                Ok(out)
            },
            None => {
                if !self.is_valid_identifier(requested_name) {
                    let mut message = owned("Invalid identifier: ");
                    message.append(requested_name);
                    return Err(JsonRpcError { code: INVALID_PARAMS, message, data: None });
                }
                Ok(owned(requested_name))
            },
        }
    }
}

} // verus!

verus! {

/// A token that can be renamed: it starts with a sigil, a letter or `_`.
pub open spec fn renameable(token: Seq<char>) -> bool {
    token.len() > 0 && (perl_sigil(token[0]) || unicode_alphabetic(token[0]) || token[0] == '_')
}

impl LspServer {
    /// The `prepareRename` answer for the position (`line`, `character`) of a
    /// parsed document `text`: the range of the token there and the token as
    /// placeholder, or `null` when no renameable token is there.
    pub fn prepare_rename_at(&self, text: &str, line: u32, character: u32) -> (r: JsonValue)
        requires
            text@.len() <= 0x7fff_ffff,
        ensures
            ({
                let offset = match crate::document::offset_of_position(text@, line as nat, character as nat) {
                    Some(o) => o,
                    None => crate::document::byte_len(text@),
                };
                let token = if offset > text@.len() {
                    Seq::<char>::empty()
                } else {
                    match token_span(text@, offset as int) {
                        Some((a, b)) => text@.subrange(a, b),
                        None => Seq::empty(),
                    }
                };
                if renameable(token) {
                    let (a, b) = token_span(text@, offset as int).unwrap();
                    let start = crate::document::position_of_offset(text@, a);
                    let end = crate::document::position_of_offset(text@, b);
                    &&& crate::json::has_keys(r, seq!["range"@, "placeholder"@])
                    &&& crate::json::spec_get(r, "range"@) matches Some(range) && crate::code_actions::range_of(range)
                        == Some(crate::code_actions::FixAllRange {
                        start_line: start.0 as u64,
                        start_char: start.1 as u64,
                        end_line: end.0 as u64,
                        end_char: end.1 as u64,
                    })
                    &&& crate::json::spec_get(r, "placeholder"@) matches Some(p) && crate::json::is_str(p, token)
                } else {
                    r is Null
                }
            }),
    {
        let offset = self.position_to_offset(text, line, character);
        let token = self.get_token_at_position(text, offset);
        let tc = str_chars(token.as_str());
        let ok = tc.len() > 0 && (is_perl_sigil(tc[0]) || char_is_alphabetic(tc[0]) || tc[0] == '_');
        if !ok {
            return JsonValue::Null;
        }
        let (start_offset, end_offset) = self.get_token_bounds(text, offset);
        proof {
            lemma_token_span_is_identifier(text@, offset as int);
        }
        let (start_line, start_char) = self.offset_to_position(text, start_offset);
        let (end_line, end_char) = self.offset_to_position(text, end_offset);
        let range = range_value(start_line as u64, start_char as u64, end_line as u64, end_char as u64);
        let mut ms: Vec<JsonMember> = Vec::new();
        ms.push(member("range", range));
        ms.push(member("placeholder", JsonValue::Str(token)));
        proof {
            reveal_strlit("range");
            reveal_strlit("placeholder");
            assert("range"@ != "placeholder"@) by {
                assert("range"@.len() != "placeholder"@.len());
            }
            assert(ms@.drop_first()[0] == ms@[1]);
            assert(crate::json::member_value(ms@.drop_first(), "placeholder"@) == Some(ms@[1].value));
        }
        JsonValue::Obj(ms)
    }
}

} // verus!

verus! {

/// A token is renameable when it starts with a sigil (`$`, `@`, `%`), an
/// alphabetic character or `_`: plain identifiers such as subroutine
/// names are renameable, and so is every token found at a letter.
pub proof fn lemma_identifiers_are_renameable(token: Seq<char>, s: Seq<char>, offset: int)
    ensures
        token.len() > 0 && (perl_sigil(token[0]) || unicode_alphabetic(token[0]) || token[0] == '_') ==> renameable(token),
        token.len() == 0 ==> !renameable(token),
        0 <= offset ==> (token_span(s, offset) matches Some((a, b)) ==> (unicode_alphabetic(s[a]) ==> renameable(s.subrange(a, b)))),
{
    match token_span(s, offset) {
        Some((a, b)) => {
            if 0 <= offset {
                lemma_token_span_is_identifier(s, offset);
                assert(a < b && b <= s.len());
                assert(s.subrange(a, b)[0] == s[a]);
            }
        },
        None => {},
    }
}

} // verus!
