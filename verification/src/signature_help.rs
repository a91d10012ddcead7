//! Signature help: which call the cursor is in and which argument it is
//! on, and the response built from the signature found for that call.
use vstd::prelude::*;
use crate::json::{JsonValue, JsonMember, member, is_str, members_of};
use crate::lifecycle::LspServer;
use crate::text::{str_chars, string_from_chars, is_ident_char, ident_char, unicode_whitespace, char_is_whitespace, str_contains, contains_seq};
use crate::hover_text::{trimmed, trim_chars, skip_ws_back, arrow_receiver};
use crate::builtins::{builtin_signature, is_signature};

verus! {

/// Scanning left from position `i` with `depth` unmatched closing
/// brackets: the first `(` met while no bracket is open. `)`, `]` and `}`
/// open a level; `(` closes one; `[` and `{` close one when one is open.
pub open spec fn open_paren_from(s: Seq<char>, i: int, depth: nat) -> Option<int>
    decreases i + 1,
{
    if i < 0 || i >= s.len() {
        None
    } else {
        let c = s[i];
        if c == ')' || c == ']' || c == '}' {
            open_paren_from(s, i - 1, depth + 1)
        } else if c == '(' {
            if depth == 0 {
                Some(i)
            } else {
                open_paren_from(s, i - 1, (depth - 1) as nat)
            }
        } else if c == '[' || c == '{' {
            open_paren_from(s, i - 1, if depth > 0 { (depth - 1) as nat } else { 0 })
        } else {
            open_paren_from(s, i - 1, depth)
        }
    }
}

/// Moving left from `j` over whitespace while staying above `stop`.
pub open spec fn back_over_space_to(s: Seq<char>, j: int, stop: int) -> int
    decreases j - stop,
{
    if j > stop && 0 <= j < s.len() && unicode_whitespace(s[j]) {
        back_over_space_to(s, j - 1, stop)
    } else {
        j
    }
}

/// Moving right from `j` over whitespace while staying below `end`.
pub open spec fn fwd_over_space(s: Seq<char>, j: int, end: int) -> int
    decreases end - j,
{
    if j < end && 0 <= j < s.len() && unicode_whitespace(s[j]) {
        fwd_over_space(s, j + 1, end)
    } else {
        j
    }
}

/// Moving left from `start` over identifier characters and `::`: where
/// the scan stops (one past the first other character, on a lone `:`, or
/// at position 0).
pub open spec fn name_scan(s: Seq<char>, start: int) -> int
    decreases start,
{
    if start <= 0 || start >= s.len() {
        start
    } else {
        let ch = s[start];
        if is_ident_char(ch) {
            name_scan(s, start - 1)
        } else if start >= 2 && ch == ':' && s[start - 1] == ':' {
            name_scan(s, start - 2)
        } else if ch != ':' {
            start + 1
        } else {
            start
        }
    }
}

/// The last position at or before `k` where `::` starts in `full`.
pub open spec fn last_separator(full: Seq<char>, k: int) -> Option<int>
    decreases k + 1,
{
    if k < 0 {
        None
    } else if k + 1 < full.len() && full[k] == ':' && full[k + 1] == ':' {
        Some(k)
    } else {
        last_separator(full, k - 1)
    }
}

/// The name after the last `::` of `full` (all of it when there is none).
pub open spec fn unqualified(full: Seq<char>) -> Seq<char> {
    match last_separator(full, full.len() - 2) {
        Some(k) => full.skip(k + 2),
        None => full,
    }
}

/// The commas at bracket depth 0 in `s[k..to]`, starting at `depth`.
pub open spec fn comma_count(s: Seq<char>, k: int, to: int, depth: int) -> nat
    decreases to - k,
{
    if k >= to || k < 0 || k >= s.len() {
        0
    } else {
        let c = s[k];
        if c == '(' || c == '[' || c == '{' {
            comma_count(s, k + 1, to, depth + 1)
        } else if c == ')' || c == ']' || c == '}' {
            comma_count(s, k + 1, to, depth - 1)
        } else if c == ',' && depth == 0 {
            1 + comma_count(s, k + 1, to, depth)
        } else {
            comma_count(s, k + 1, to, depth)
        }
    }
}

/// Where the called name starts and ends, given the `(` at `p` and the
/// last non-blank character `j` before it. After `->` the name is taken
/// between the arrow and the `(`; otherwise it runs left over identifier
/// characters and `::`.
pub open spec fn name_bounds(s: Seq<char>, p: int, j: int) -> (int, int) {
    if j >= 1 && s[j] == '>' && s[j - 1] == '-' {
        let e = back_over_space_to(s, p - 1, j) + 1;
        (fwd_over_space(s, j + 1, e), e)
    } else {
        let st = name_scan(s, j);
        (if st == 0 && !is_ident_char(s[0]) { 1 } else { st }, j + 1)
    }
}

/// The call around character `offset`: the name of the function whose
/// argument list is open there (without package qualifier, trimmed) and
/// the number of commas at depth 0 between its `(` and the cursor.
pub open spec fn function_context(s: Seq<char>, offset: int) -> Option<(Seq<char>, nat)> {
    if offset > s.len() || offset <= 0 {
        None
    } else {
        match open_paren_from(s, offset - 1, 0) {
            None => None,
            Some(p) => if p == 0 {
                None
            } else {
                let j = skip_ws_back(s, p - 1);
                if j == 0 && !is_ident_char(s[0]) {
                    None
                } else {
                    let (start, end) = name_bounds(s, p, j);
                    if start >= end {
                        None
                    } else {
                        Some(
                            (
                                trimmed(unqualified(s.subrange(start, end))),
                                comma_count(s, p + 1, if offset < s.len() { offset } else { s.len() as int }, 0),
                            ),
                        )
                    }
                }
            },
        }
    }
}

proof fn lemma_open_paren_bounds(s: Seq<char>, i: int, depth: nat)
    ensures
        open_paren_from(s, i, depth) matches Some(p) ==> 0 <= p <= i && p < s.len() && s[p] == '(',
    decreases i + 1,
{
    if 0 <= i < s.len() {
        let c = s[i];
        if c == ')' || c == ']' || c == '}' {
            lemma_open_paren_bounds(s, i - 1, depth + 1);
        } else if c == '(' {
            if depth != 0 {
                lemma_open_paren_bounds(s, i - 1, (depth - 1) as nat);
            }
        } else if c == '[' || c == '{' {
            lemma_open_paren_bounds(s, i - 1, if depth > 0 { (depth - 1) as nat } else { 0 });
        } else {
            lemma_open_paren_bounds(s, i - 1, depth);
        }
    }
}

proof fn lemma_skip_ws_back_bounds(s: Seq<char>, i: int)
    requires
        0 <= i < s.len(),
    ensures
        0 <= skip_ws_back(s, i) <= i,
    decreases i,
{
    if i > 0 && unicode_whitespace(s[i]) {
        lemma_skip_ws_back_bounds(s, i - 1);
    }
}

proof fn lemma_back_over_space_bounds(s: Seq<char>, j: int, stop: int)
    requires
        stop <= j,
    ensures
        stop <= back_over_space_to(s, j, stop) <= j,
    decreases j - stop,
{
    if j > stop && 0 <= j < s.len() && unicode_whitespace(s[j]) {
        lemma_back_over_space_bounds(s, j - 1, stop);
    }
}

proof fn lemma_fwd_over_space_bounds(s: Seq<char>, j: int, end: int)
    ensures
        j <= end ==> j <= fwd_over_space(s, j, end) <= end,
        j > end ==> fwd_over_space(s, j, end) == j,
    decreases end - j,
{
    if j < end && 0 <= j < s.len() && unicode_whitespace(s[j]) {
        lemma_fwd_over_space_bounds(s, j + 1, end);
    }
}

proof fn lemma_name_scan_bounds(s: Seq<char>, start: int)
    requires
        0 <= start < s.len(),
    ensures
        0 <= name_scan(s, start) <= start + 1,
    decreases start,
{
    if start > 0 {
        let ch = s[start];
        if is_ident_char(ch) {
            lemma_name_scan_bounds(s, start - 1);
        } else if start >= 2 && ch == ':' && s[start - 1] == ':' {
            lemma_name_scan_bounds(s, start - 2);
        }
    }
}

pub(crate) proof fn lemma_last_separator_bounds(full: Seq<char>, k: int)
    ensures
        last_separator(full, k) matches Some(i) ==> 0 <= i <= k && i + 1 < full.len(),
    decreases k + 1,
{
    if k >= 0 && !(k + 1 < full.len() && full[k] == ':' && full[k + 1] == ':') {
        lemma_last_separator_bounds(full, k - 1);
    }
}

/// The position of the `(` whose argument list is open at character
/// `offset`.
fn find_open_paren(chars: &Vec<char>, offset: usize) -> (r: Option<usize>)
    requires
        0 < offset <= chars.len(),
    ensures
        match r {
            Some(p) => open_paren_from(chars@, offset - 1, 0) == Some(p as int),
            None => open_paren_from(chars@, offset - 1, 0) is None,
        },
{
    let mut i: usize = offset - 1;
    let mut depth: usize = 0;
    loop
        invariant
            0 < offset <= chars.len(),
            i < offset,
            depth <= (offset - 1) - i,
            open_paren_from(chars@, offset - 1, 0) == open_paren_from(chars@, i as int, depth as nat),
        decreases i,
    {
        let c = chars[i];
        let ghost d0 = depth as nat;
        if c == ')' || c == ']' || c == '}' {
            depth = depth + 1;
        } else if c == '(' {
            if depth == 0 {
                return Some(i);
            }
            depth = depth - 1;
        } else if c == '[' || c == '{' {
            if depth > 0 {
                depth = depth - 1;
            }
        }
        assert(open_paren_from(chars@, i as int, d0) == open_paren_from(chars@, i - 1, depth as nat));
        if i == 0 {
            assert(open_paren_from(chars@, -1, depth as nat) is None);
            return None;
        }
        i = i - 1;
    }
}

/// The position of the last `::` in `full`, if any.
pub(crate) fn find_last_separator(full: &Vec<char>) -> (r: Option<usize>)
    ensures
        match r {
            Some(i) => last_separator(full@, full@.len() - 2) == Some(i as int),
            None => last_separator(full@, full@.len() - 2) is None,
        },
{
    if full.len() < 2 {
        return None;
    }
    let mut k: usize = full.len() - 2;
    loop
        invariant
            2 <= full.len(),
            k + 1 < full.len(),
            last_separator(full@, full@.len() - 2) == last_separator(full@, k as int),
        decreases k,
    {
        if full[k] == ':' && full[k + 1] == ':' {
            return Some(k);
        }
        assert(last_separator(full@, k as int) == last_separator(full@, k - 1));
        if k == 0 {
            assert(last_separator(full@, -1) is None);
            return None;
        }
        k = k - 1;
    }
}

/// The commas at depth 0 in `chars[from..to]`.
fn count_commas(chars: &Vec<char>, from: usize, to: usize) -> (r: usize)
    requires
        from <= to <= chars.len(),
    ensures
        r == comma_count(chars@, from as int, to as int, 0),
{
    let mut k = from;
    let mut count: usize = 0;
    let mut opened: usize = 0;
    let mut closed: usize = 0;
    while k < to
        invariant
            from <= k <= to <= chars.len(),
            count <= k - from,
            opened <= k - from,
            closed <= k - from,
            count + comma_count(chars@, k as int, to as int, opened - closed) == comma_count(
                chars@,
                from as int,
                to as int,
                0,
            ),
        decreases to - k,
    {
        let c = chars[k];
        if c == '(' || c == '[' || c == '{' {
            opened = opened + 1;
        } else if c == ')' || c == ']' || c == '}' {
            closed = closed + 1;
        } else if c == ',' && opened == closed {
            count = count + 1;
        }
        k = k + 1;
    }
    count
}

/// The characters `chars[from..to]`.
fn copy_range(chars: &Vec<char>, from: usize, to: usize) -> (r: Vec<char>)
    requires
        from <= to <= chars.len(),
    ensures
        r@ == chars@.subrange(from as int, to as int),
{
    let mut out: Vec<char> = Vec::new();
    let mut i = from;
    while i < to
        invariant
            from <= i <= to <= chars.len(),
            out@ == chars@.subrange(from as int, i as int),
        decreases to - i,
    {
        out.push(chars[i]);
        i = i + 1;
        assert(out@ =~= chars@.subrange(from as int, i as int));
    }
    out
}

impl LspServer {
    /// The function call that character `offset` of `content` is inside:
    /// the called name (without package) and the index of the argument the
    /// cursor is on.
    pub fn find_function_context(&self, content: &str, offset: usize) -> (r: Option<(String, usize)>)
        ensures
            match r {
                Some((name, active)) => function_context(content@, offset as int) == Some((name@, active as nat)),
                None => function_context(content@, offset as int) is None,
            },
    {
        let chars = str_chars(content);
        let ghost s = chars@;
        if offset > chars.len() || offset == 0 {
            return None;
        }
        let paren_pos = match find_open_paren(&chars, offset) {
            Some(p) => p,
            None => return None,
        };
        proof {
            lemma_open_paren_bounds(s, offset - 1, 0);
        }
        if paren_pos == 0 {
            return None;
        }
        let mut j = paren_pos - 1;
        while j > 0 && char_is_whitespace(chars[j])
            invariant
                j < paren_pos < chars.len(),
                s == chars@,
                skip_ws_back(s, j as int) == skip_ws_back(s, paren_pos - 1),
            decreases j,
        {
            j = j - 1;
        }
        if j == 0 && !ident_char(chars[0]) {
            return None;
        }
        let mut end = j + 1;
        let mut start = j;
        if j >= 1 && chars[j] == '>' && chars[j - 1] == '-' {
            let arrow_end = j - 1;
            let mut k = paren_pos - 1;
            proof {
                lemma_back_over_space_bounds(s, paren_pos - 1, arrow_end + 1);
            }
            while k > arrow_end + 1 && char_is_whitespace(chars[k])
                invariant
                    arrow_end + 1 <= k < paren_pos < chars.len(),
                    s == chars@,
                    back_over_space_to(s, k as int, arrow_end + 1) == back_over_space_to(
                        s,
                        paren_pos - 1,
                        arrow_end + 1,
                    ),
                decreases k,
            {
                k = k - 1;
            }
            end = k + 1;
            let mut m = arrow_end + 2;
            proof {
                lemma_fwd_over_space_bounds(s, arrow_end + 2, end as int);
            }
            while m < end && char_is_whitespace(chars[m])
                invariant
                    end <= chars.len(),
                    m <= end || m == arrow_end + 2,
                    s == chars@,
                    fwd_over_space(s, m as int, end as int) == fwd_over_space(s, arrow_end + 2, end as int),
                decreases end - m,
            {
                m = m + 1;
            }
            start = m;
        } else {
            proof {
                lemma_name_scan_bounds(s, j as int);
            }
            while start > 0 && (ident_char(chars[start]) || (start >= 2 && chars[start] == ':' && chars[start
                - 1] == ':'))
                invariant
                    start <= j < chars.len(),
                    s == chars@,
                    name_scan(s, start as int) == name_scan(s, j as int),
                decreases start,
            {
                if ident_char(chars[start]) {
                    start = start - 1;
                } else {
                    start = start - 2;
                }
            }
            if start > 0 && chars[start] != ':' {
                start = start + 1;
            }
            if start == 0 && !ident_char(chars[0]) {
                start = 1;
            }
        }
        if start >= end {
            return None;
        }
        let full = copy_range(&chars, start, end);
        let name_chars = match find_last_separator(&full) {
            Some(k) => {
                proof {
                    lemma_last_separator_bounds(full@, full@.len() - 2);
                }
                let n = full.len();
                let piece = copy_range(&full, k + 2, n);
                assert(piece@ =~= full@.skip(k + 2));
                piece
            },
            None => full,
        };
        let name = trim_chars(&name_chars);
        let to = if offset < chars.len() {
            offset
        } else {
            chars.len()
        };
        let active = count_commas(&chars, paren_pos + 1, to);
        Some((string_from_chars(name.as_slice()), active))
    }
}

/// A call found at the cursor: the called name, the argument the cursor
/// is on, and, in a file that uses DBI, the receiver of the method call.
pub struct SignatureCall {
    pub function_name: String,
    pub active_parameter: usize,
    pub dbi_receiver: Option<String>,
}

/// A file uses DBI when it holds `use DBI` (which `use DBIx` contains).
pub open spec fn uses_dbi(text: Seq<char>) -> bool {
    contains_seq(text, "use DBI"@) || contains_seq(text, "use DBIx"@)
}

/// The call at character `offset`; the receiver is looked for only in a
/// file that uses DBI, before the `(` of the call.
pub open spec fn signature_call(text: Seq<char>, offset: int) -> Option<(Seq<char>, nat, Option<Seq<char>>)> {
    match function_context(text, offset) {
        None => None,
        Some((name, active)) => Some(
            (
                name,
                active,
                if uses_dbi(text) {
                    match open_paren_from(text, offset - 1, 0) {
                        Some(p) => arrow_receiver(text, p),
                        None => None,
                    }
                } else {
                    None
                },
            ),
        ),
    }
}

/// `v` is the signature-help response showing `signature` as the only
/// signature, with argument `active` highlighted.
pub open spec fn is_help_response(v: JsonValue, signature: JsonValue, active: nat) -> bool {
    let ms = members_of(v);
    &&& v is Obj
    &&& ms.len() == 3
    &&& ms[0].key@ == "signatures"@
    &&& ms[0].value matches JsonValue::Arr(sigs) && sigs@.len() == 1 && sigs@[0] == signature
    &&& ms[1].key@ == "activeSignature"@
    &&& ms[1].value == JsonValue::UInt(0)
    &&& ms[2].key@ == "activeParameter"@
    &&& ms[2].value == JsonValue::UInt(active as u64)
}

/// The first signature listed in a signature-help response.
pub open spec fn shown_signature(v: JsonValue) -> JsonValue {
    match members_of(v)[0].value {
        JsonValue::Arr(sigs) => sigs@[0],
        _ => JsonValue::Null,
    }
}

/// `v` is a signature with only a label and documentation:
/// `{"label": label, "documentation": doc, "parameters": []}`, the
/// documentation `null` when there is none.
pub open spec fn is_plain_signature(v: JsonValue, label: Seq<char>, doc: Option<Seq<char>>) -> bool {
    let ms = members_of(v);
    &&& v is Obj
    &&& ms.len() == 3
    &&& ms[0].key@ == "label"@
    &&& is_str(ms[0].value, label)
    &&& ms[1].key@ == "documentation"@
    &&& match doc {
        Some(d) => is_str(ms[1].value, d),
        None => ms[1].value is Null,
    }
    &&& ms[2].key@ == "parameters"@
    &&& ms[2].value matches JsonValue::Arr(ps) && ps@.len() == 0
}

impl LspServer {
    /// The call at character `offset` of `text`, if the cursor is inside
    /// an argument list.
    pub fn signature_call_at(&self, text: &str, offset: usize) -> (r: Option<SignatureCall>)
        ensures
            match signature_call(text@, offset as int) {
                Some((name, active, receiver)) => r matches Some(c) && c.function_name@ == name
                    && c.active_parameter == active && match receiver {
                    Some(rec) => c.dbi_receiver matches Some(x) && x@ == rec,
                    None => c.dbi_receiver is None,
                },
                None => r is None,
            },
    {
        let (function_name, active_parameter) = match self.find_function_context(text, offset) {
            Some(c) => c,
            None => return None,
        };
        let dbi = str_contains(text, "use DBI") || str_contains(text, "use DBIx");
        let mut dbi_receiver: Option<String> = None;
        if dbi {
            let chars = str_chars(text);
            if let Some(p) = find_open_paren(&chars, offset) {
                dbi_receiver = LspServer::extract_arrow_receiver(text, p);
            }
        }
        Some(SignatureCall { function_name, active_parameter, dbi_receiver })
    }

    /// The signature-help response for `call`. The signature shown is the
    /// first there is of: `user_signature` (the one declared in the file),
    /// the built-in's, the DBI method's `(label, documentation)` (used only
    /// when the call has a DBI receiver), and a generic `name(...)`.
    pub fn signature_help_response(&self, call: &SignatureCall, user_signature: Option<JsonValue>, dbi_documentation: Option<(String, String)>) -> (r: JsonValue)
        ensures
            match user_signature {
                Some(sig) => is_help_response(r, sig, call.active_parameter as nat),
                None => match builtin_signature(call.function_name@) {
                    Some((label, params)) => is_help_response(r, shown_signature(r), call.active_parameter as nat)
                        && is_signature(shown_signature(r), label, params),
                    None => match (call.dbi_receiver, dbi_documentation) {
                        (Some(_), Some((sig, desc))) => is_help_response(r, shown_signature(r), call.active_parameter as nat)
                            && is_plain_signature(shown_signature(r), sig@, Some(desc@)),
                        _ => is_help_response(r, shown_signature(r), call.active_parameter as nat)
                            && is_plain_signature(shown_signature(r), call.function_name@ + "(...)"@, None),
                    },
                },
            },
    {
        let signature = match user_signature {
            Some(sig) => sig,
            None => match self.get_builtin_function_signature(call.function_name.as_str()) {
                Some(sig) => sig,
                None => {
                    let dbi = match (&call.dbi_receiver, dbi_documentation) {
                        (Some(_), Some((sig, desc))) => Some((sig, desc)),
                        _ => None,
                    };
                    let mut ms: Vec<JsonMember> = Vec::new();
                    match dbi {
                        Some((sig, desc)) => {
                            ms.push(member("label", JsonValue::Str(sig)));
                            ms.push(member("documentation", JsonValue::Str(desc)));
                        },
                        None => {
                            let mut label = crate::text::owned(call.function_name.as_str());
                            label.append("(...)");
                            ms.push(member("label", JsonValue::Str(label)));
                            ms.push(member("documentation", JsonValue::Null));
                        },
                    }
                    ms.push(member("parameters", JsonValue::Arr(Vec::new())));
                    JsonValue::Obj(ms)
                },
            },
        };
        let mut sigs: Vec<JsonValue> = Vec::new();
        sigs.push(signature);
        let mut ms: Vec<JsonMember> = Vec::new();
        ms.push(member("signatures", JsonValue::Arr(sigs)));
        ms.push(member("activeSignature", JsonValue::UInt(0)));
        ms.push(member("activeParameter", JsonValue::UInt(call.active_parameter as u64)));
        JsonValue::Obj(ms)
    }
}

} // verus!

verus! {

/// `s` holds `::` somewhere.
pub open spec fn has_separator(s: Seq<char>) -> bool {
    exists|i: int| 0 <= i && i + 1 < s.len() && #[trigger] s[i] == ':' && s[i + 1] == ':'
}

proof fn lemma_last_separator_is_last(full: Seq<char>, k: int)
    requires
        k + 1 < full.len() || k < 0 || k == full.len() - 2,
    ensures
        match last_separator(full, k) {
            Some(i) => 0 <= i && i + 1 < full.len() && full[i] == ':' && full[i + 1] == ':' && forall|j: int|
                i < j <= k && j + 1 < full.len() ==> !(#[trigger] full[j] == ':' && full[j + 1] == ':'),
            None => forall|j: int| 0 <= j <= k && j + 1 < full.len() ==> !(#[trigger] full[j] == ':' && full[j + 1] == ':'),
        },
    decreases k + 1,
{
    lemma_last_separator_bounds(full, k);
    if k >= 0 && !(k + 1 < full.len() && full[k] == ':' && full[k + 1] == ':') {
        lemma_last_separator_is_last(full, k - 1);
    }
}

proof fn lemma_trimmed_is_slice(s: Seq<char>)
    ensures
        exists|a: int, b: int| 0 <= a <= b <= s.len() && trimmed(s) == s.subrange(a, b),
    decreases s.len(),
{
    if s.len() > 0 && crate::text::unicode_whitespace(s[0]) {
        lemma_trimmed_is_slice(s.drop_first());
        let (a, b) = choose|a: int, b: int| 0 <= a <= b <= s.drop_first().len() && trimmed(s.drop_first()) == s.drop_first().subrange(a, b);
        assert(s.drop_first().subrange(a, b) =~= s.subrange(a + 1, b + 1));
    } else if s.len() > 0 && crate::text::unicode_whitespace(s.last()) {
        lemma_trimmed_is_slice(s.drop_last());
        let (a, b) = choose|a: int, b: int| 0 <= a <= b <= s.drop_last().len() && trimmed(s.drop_last()) == s.drop_last().subrange(a, b);
        assert(s.drop_last().subrange(a, b) =~= s.subrange(a, b));
    } else {
        assert(s.subrange(0, s.len() as int) =~= s);
    }
}

/// The name signature help reports never carries a package qualifier: it
/// holds no `::`.
pub proof fn lemma_called_name_is_unqualified(s: Seq<char>, offset: int)
    requires
        function_context(s, offset) is Some,
    ensures
        match function_context(s, offset) {
            Some((name, _)) => !has_separator(name),
            None => true,
        },
{
    let p = open_paren_from(s, offset - 1, 0)->0;
    let j = skip_ws_back(s, p - 1);
    let (start, end) = name_bounds(s, p, j);
    let full = s.subrange(start, end);
    let name = unqualified(full);
    lemma_last_separator_is_last(full, full.len() - 2);
    assert(!has_separator(name)) by {
        if has_separator(name) {
            let i = choose|i: int| 0 <= i && i + 1 < name.len() && #[trigger] name[i] == ':' && name[i + 1] == ':';
            match last_separator(full, full.len() - 2) {
                Some(k) => {
                    assert(name == full.skip(k + 2));
                    assert(k + 1 < full.len());
                    assert(name[i] == full[k + 2 + i]);
                    assert(name[i + 1] == full[k + 2 + i + 1]);
                },
                None => {
                    assert(name == full);
                    assert(name[i] == full[i]);
                    assert(name[i + 1] == full[i + 1]);
                },
            }
        }
    }
    lemma_trimmed_is_slice(name);
    let (a, b) = choose|a: int, b: int| 0 <= a <= b <= name.len() && trimmed(name) == name.subrange(a, b);
    if has_separator(trimmed(name)) {
        let t = trimmed(name);
        let i = choose|i: int| 0 <= i && i + 1 < t.len() && #[trigger] t[i] == ':' && t[i + 1] == ':';
        assert(t[i] == name[a + i]);
        assert(t[i + 1] == name[a + i + 1]);
        assert(has_separator(name));
    }
}

} // verus!
