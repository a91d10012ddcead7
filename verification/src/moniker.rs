//! Monikers: how a symbol is classified (exported, imported or local, and
//! how unique its name is) and the moniker list sent for it.
use vstd::prelude::*;
use crate::json::{JsonValue, JsonMember, member, str_value, is_str, members_of};
use crate::lifecycle::LspServer;
use crate::text::{str_chars, str_eq, owned, string_from_chars, string_push, unicode_whitespace, char_is_whitespace, contains_seq, str_contains};
use crate::hover_text::string_views;

verus! {

/// The whitespace-separated words of `s`, as `str::split_whitespace`
/// gives them.
pub open spec fn words(s: Seq<char>) -> Seq<Seq<char>>
    decreases s.len(),
{
    if s.len() == 0 {
        Seq::empty()
    } else if unicode_whitespace(s.last()) {
        words(s.drop_last())
    } else if s.len() == 1 || unicode_whitespace(s[s.len() - 2]) {
        words(s.drop_last()).push(seq![s.last()])
    } else {
        let w = words(s.drop_last());
        w.update(w.len() - 1, w.last().push(s.last()))
    }
}

proof fn lemma_words_nonempty(s: Seq<char>)
    requires
        s.len() > 0,
        !unicode_whitespace(s.last()),
    ensures
        words(s).len() > 0,
    decreases s.len(),
{
    if s.len() > 1 && !unicode_whitespace(s[s.len() - 2]) {
        lemma_words_nonempty(s.drop_last());
    }
}

/// The words of `v`.
pub fn split_words(v: &Vec<char>) -> (r: Vec<String>)
    ensures
        string_views(r@) == words(v@),
{
    let mut done: Vec<String> = Vec::new();
    let mut cur: Vec<char> = Vec::new();
    let mut i: usize = 0;
    while i < v.len()
        invariant
            i <= v.len(),
            cur@.len() > 0 ==> i > 0 && !unicode_whitespace(v@[i - 1]),
            cur@.len() == 0 ==> (i == 0 || unicode_whitespace(v@[i - 1])),
            words(v@.take(i as int)) == if cur@.len() > 0 {
                string_views(done@).push(cur@)
            } else {
                string_views(done@)
            },
        decreases v.len() - i,
    {
        let c = v[i];
        let ghost before = v@.take(i as int);
        let ghost now = v@.take(i + 1);
        proof {
            assert(now.drop_last() =~= before);
            assert(now.last() == c);
        }
        if char_is_whitespace(c) {
            if cur.len() > 0 {
                let w = string_from_chars(cur.as_slice());
                let ghost dv = string_views(done@);
                done.push(w);
                assert(string_views(done@) =~= dv.push(cur@));
                cur = Vec::new();
            }
        } else {
            let ghost cv = cur@;
            let ghost dv = string_views(done@);
            if cur.len() == 0 {
                assert(i == 0 || unicode_whitespace(now[now.len() - 2]));
                cur.push(c);
                assert(cur@ =~= seq![c]);
                assert(words(now) == words(before).push(seq![c]));
                assert(words(now) =~= dv.push(cur@));
            } else {
                assert(!unicode_whitespace(now[now.len() - 2]));
                cur.push(c);
                assert(words(now) =~= dv.push(cv).update(dv.len() as int, cv.push(c)));
                assert(dv.push(cv).update(dv.len() as int, cv.push(c)) =~= dv.push(cur@));
            }
        }
        i = i + 1;
    }
    assert(v@.take(v.len() as int) =~= v@);
    if cur.len() > 0 {
        let w = string_from_chars(cur.as_slice());
        let ghost dv = string_views(done@);
        done.push(w);
        assert(string_views(done@) =~= dv.push(cur@));
    }
    done
}

/// `s` without every leading repetition of `qw`.
pub open spec fn strip_qw(s: Seq<char>) -> Seq<char>
    decreases s.len(),
{
    if s.len() >= 2 && s[0] == 'q' && s[1] == 'w' {
        strip_qw(s.skip(2))
    } else {
        s
    }
}

/// A character that may open a `qw` list.
pub open spec fn qw_opener(c: char) -> bool {
    c == '(' || c == '[' || c == '{' || c == '/' || c == '<' || c == '|' || c == '!'
}

/// A character that may close a `qw` list.
pub open spec fn qw_closer(c: char) -> bool {
    c == ')' || c == ']' || c == '}' || c == '/' || c == '|' || c == '!' || c == '>'
}

pub open spec fn strip_openers(s: Seq<char>) -> Seq<char>
    decreases s.len(),
{
    if s.len() > 0 && qw_opener(s[0]) {
        strip_openers(s.drop_first())
    } else {
        s
    }
}

pub open spec fn strip_closers(s: Seq<char>) -> Seq<char>
    decreases s.len(),
{
    if s.len() > 0 && qw_closer(s.last()) {
        strip_closers(s.drop_last())
    } else {
        s
    }
}

/// The inside of a `qw` list as written: after `qw` and its opening
/// delimiters, before the closing ones.
pub open spec fn qw_content(arg: Seq<char>) -> Seq<char> {
    strip_closers(strip_openers(strip_qw(arg)))
}

/// `s` without every leading and trailing quote (`'` or `"`).
pub open spec fn strip_quotes(s: Seq<char>) -> Seq<char>
    decreases s.len(),
{
    if s.len() > 0 && (s[0] == '\'' || s[0] == '"') {
        strip_quotes(s.drop_first())
    } else if s.len() > 0 && (s.last() == '\'' || s.last() == '"') {
        strip_quotes(s.drop_last())
    } else {
        s
    }
}

/// The parent packages named by one argument of `use base` or
/// `use parent`: each word of a `qw` list, or a quoted name; options
/// (`-norequire`) name none.
pub open spec fn parents_of_arg(arg: Seq<char>) -> Seq<Seq<char>> {
    if arg.len() >= 2 && arg[0] == 'q' && arg[1] == 'w' {
        words(qw_content(arg))
    } else if arg.len() > 0 && arg[0] == '-' {
        Seq::empty()
    } else {
        let cleaned = strip_quotes(arg);
        if cleaned.len() == 0 {
            Seq::empty()
        } else {
            seq![cleaned]
        }
    }
}

/// The parent packages named by all the arguments, in order.
pub open spec fn parents_of_args(args: Seq<Seq<char>>) -> Seq<Seq<char>>
    decreases args.len(),
{
    if args.len() == 0 {
        Seq::empty()
    } else {
        parents_of_args(args.drop_last()) + parents_of_arg(args.last())
    }
}

/// The characters `v[lo..hi]`.
pub(crate) fn chars_between(v: &Vec<char>, lo: usize, hi: usize) -> (r: Vec<char>)
    requires
        lo <= hi <= v.len(),
    ensures
        r@ == v@.subrange(lo as int, hi as int),
{
    let mut out: Vec<char> = Vec::new();
    let mut i = lo;
    while i < hi
        invariant
            lo <= i <= hi <= v.len(),
            out@ == v@.subrange(lo as int, i as int),
        decreases hi - i,
    {
        out.push(v[i]);
        i = i + 1;
        assert(out@ =~= v@.subrange(lo as int, i as int));
    }
    out
}

pub(crate) fn qw_content_chars(v: &Vec<char>) -> (r: Vec<char>)
    ensures
        r@ == qw_content(v@),
{
    let ghost s = v@;
    let mut lo: usize = 0;
    assert(s.skip(0) =~= s);
    while v.len() - lo >= 2 && v[lo] == 'q' && v[lo + 1] == 'w'
        invariant
            lo <= v.len(),
            s == v@,
            strip_qw(s) == strip_qw(s.skip(lo as int)),
        decreases v.len() - lo,
    {
        assert(s.skip(lo as int).skip(2) =~= s.skip(lo + 2));
        lo = lo + 2;
    }
    assert(strip_qw(s.skip(lo as int)) == s.skip(lo as int));
    assert(strip_openers(strip_qw(s)) == strip_openers(s.skip(lo as int)));
    while lo < v.len() && (v[lo] == '(' || v[lo] == '[' || v[lo] == '{' || v[lo] == '/' || v[lo] == '<'
        || v[lo] == '|' || v[lo] == '!')
        invariant
            lo <= v.len(),
            s == v@,
            strip_openers(strip_qw(s)) == strip_openers(s.skip(lo as int)),
        decreases v.len() - lo,
    {
        assert(s.skip(lo as int).drop_first() =~= s.skip(lo + 1));
        lo = lo + 1;
    }
    let mut hi: usize = v.len();
    assert(s.skip(lo as int) =~= s.subrange(lo as int, hi as int));
    while hi > lo && (v[hi - 1] == ')' || v[hi - 1] == ']' || v[hi - 1] == '}' || v[hi - 1] == '/' || v[hi
        - 1] == '|' || v[hi - 1] == '!' || v[hi - 1] == '>')
        invariant
            lo <= hi <= v.len(),
            s == v@,
            strip_openers(strip_qw(s)) == s.skip(lo as int),
            qw_content(s) == strip_closers(s.subrange(lo as int, hi as int)),
        decreases hi,
    {
        assert(s.subrange(lo as int, hi as int).drop_last() =~= s.subrange(lo as int, hi - 1));
        hi = hi - 1;
    }
    chars_between(v, lo, hi)
}

fn strip_quote_chars(v: &Vec<char>) -> (r: Vec<char>)
    ensures
        r@ == strip_quotes(v@),
{
    let ghost s = v@;
    let mut lo: usize = 0;
    let mut hi: usize = v.len();
    assert(s.subrange(0, s.len() as int) =~= s);
    while lo < hi && (v[lo] == '\'' || v[lo] == '"' || v[hi - 1] == '\'' || v[hi - 1] == '"')
        invariant
            s == v@,
            lo <= hi <= v.len(),
            strip_quotes(s) == strip_quotes(s.subrange(lo as int, hi as int)),
        decreases hi - lo,
    {
        let ghost cur = s.subrange(lo as int, hi as int);
        if v[lo] == '\'' || v[lo] == '"' {
            assert(cur.drop_first() =~= s.subrange(lo + 1, hi as int));
            lo = lo + 1;
        } else {
            assert(cur.drop_last() =~= s.subrange(lo as int, hi - 1));
            hi = hi - 1;
        }
    }
    chars_between(v, lo, hi)
}

/// The parent packages named by one argument of `use base`/`use parent`.
fn parents_of_use_arg(arg: &str) -> (r: Vec<String>)
    ensures
        string_views(r@) == parents_of_arg(arg@),
{
    let v = str_chars(arg);
    if v.len() >= 2 && v[0] == 'q' && v[1] == 'w' {
        let content = qw_content_chars(&v);
        split_words(&content)
    } else if v.len() > 0 && v[0] == '-' {
        let out: Vec<String> = Vec::new();
        assert(string_views(out@) =~= Seq::<Seq<char>>::empty());
        out
    } else {
        let cleaned = strip_quote_chars(&v);
        let mut out: Vec<String> = Vec::new();
        if cleaned.len() > 0 {
            out.push(string_from_chars(cleaned.as_slice()));
            assert(string_views(out@) =~= seq![cleaned@]);
        } else {
            assert(string_views(out@) =~= Seq::<Seq<char>>::empty());
        }
        out
    }
}

impl LspServer {
    /// The parent packages that the arguments of a `use base` or
    /// `use parent` statement name, in order.
    pub fn base_parents_from_args(args: &Vec<String>) -> (r: Vec<String>)
        ensures
            string_views(r@) == parents_of_args(string_views(args@)),
    {
        let mut out: Vec<String> = Vec::new();
        let mut i: usize = 0;
        while i < args.len()
            invariant
                i <= args.len(),
                string_views(out@) == parents_of_args(string_views(args@).take(i as int)),
            decreases args.len() - i,
        {
            let ps = parents_of_use_arg(args[i].as_str());
            let ghost before = string_views(out@);
            let mut k: usize = 0;
            while k < ps.len()
                invariant
                    k <= ps.len(),
                    string_views(out@) == before + string_views(ps@).take(k as int),
                decreases ps.len() - k,
            {
                let ghost o = string_views(out@);
                out.push(owned(ps[k].as_str()));
                assert(string_views(out@) =~= o.push(ps@[k as int]@));
                assert(string_views(ps@).take(k + 1) =~= string_views(ps@).take(k as int).push(ps@[k as int]@));
                k = k + 1;
                assert(string_views(out@) =~= before + string_views(ps@).take(k as int));
            }
            proof {
                let all = string_views(args@);
                assert(all.take(i + 1).drop_last() =~= all.take(i as int));
                assert(all.take(i + 1).last() == args@[i as int]@);
                assert(string_views(ps@).take(ps.len() as int) =~= string_views(ps@));
            }
            i = i + 1;
        }
        assert(string_views(args@).take(args.len() as int) =~= string_views(args@));
        out
    }
}

/// A `qw` list assigned to `@EXPORT` or `@EXPORT_OK`; the group is the
/// list's contents.
pub const EXPORT_QW_LIST: &'static str = r"@EXPORT(?:_OK)?\s*=\s*qw[(\[{/<|!]([^)\]}/|!>]+)[)\]}/|!>]";

/// A parenthesized list assigned to `@EXPORT` or `@EXPORT_OK`; the group
/// is the list's contents.
pub const EXPORT_PAREN_LIST: &'static str = r"@EXPORT(?:_OK)?\s*=\s*\(([^)]+)\)";

/// The texts of the first groups of the matches of `pattern` in `text`, in
/// order (none when the pattern does not compile).
pub open spec fn group_texts(pattern: Seq<char>, text: Seq<char>) -> Seq<Seq<char>> {
    match crate::navigation::group_matches(pattern, text) {
        Some(ms) => ms.map_values(|m: (nat, nat, Seq<char>)| m.2),
        None => Seq::empty(),
    }
}

/// The contents of the `qw` lists assigned to `@EXPORT` or `@EXPORT_OK`.
pub open spec fn export_qw_lists(text: Seq<char>) -> Seq<Seq<char>> {
    group_texts(EXPORT_QW_LIST@, text)
}

/// The contents of the parenthesized lists assigned to `@EXPORT` or `@EXPORT_OK`.
pub open spec fn export_paren_lists(text: Seq<char>) -> Seq<Seq<char>> {
    group_texts(EXPORT_PAREN_LIST@, text)
}

fn find_group_texts(pattern: &str, text: &str) -> (r: Vec<String>)
    ensures
        string_views(r@) == group_texts(pattern@, text@),
{
    let mut out: Vec<String> = Vec::new();
    let ms = match crate::navigation::find_group_matches(pattern, text) {
        Some(ms) => ms,
        None => return out,
    };
    let ghost all = crate::navigation::group_views(ms@);
    let mut i: usize = 0;
    while i < ms.len()
        invariant
            i <= ms.len(),
            all == crate::navigation::group_views(ms@),
            crate::navigation::group_matches(pattern@, text@) == Some(all),
            string_views(out@) == all.map_values(|m: (nat, nat, Seq<char>)| m.2).take(i as int),
        decreases ms.len() - i,
    {
        let ghost before = out@;
        out.push(owned(ms[i].2.as_str()));
        assert(string_views(out@) =~= string_views(before).push(ms@[i as int].2@));
        assert(all.map_values(|m: (nat, nat, Seq<char>)| m.2).take(i + 1) =~= all.map_values(|m: (nat, nat, Seq<char>)| m.2).take(i as int).push(ms@[i as int].2@));
        i = i + 1;
    }
    assert(all.map_values(|m: (nat, nat, Seq<char>)| m.2).take(ms.len() as int) =~= all.map_values(|m: (nat, nat, Seq<char>)| m.2));
    out
}

fn find_export_qw_lists(text: &str) -> (r: Vec<String>)
    ensures
        string_views(r@) == export_qw_lists(text@),
{
    find_group_texts(EXPORT_QW_LIST, text)
}

fn find_export_paren_lists(text: &str) -> (r: Vec<String>)
    ensures
        string_views(r@) == export_paren_lists(text@),
{
    find_group_texts(EXPORT_PAREN_LIST, text)
}

/// `name` is listed for export in `text`: as a word of an `@EXPORT` /
/// `@EXPORT_OK` `qw` list, or quoted inside a parenthesized one.
pub open spec fn exported_in_text(text: Seq<char>, name: Seq<char>) -> bool {
    let qw = export_qw_lists(text);
    let paren = export_paren_lists(text);
    ||| exists|i: int| 0 <= i < qw.len() && #[trigger] words(qw[i]).contains(name)
    ||| exists|i: int|
        0 <= i < paren.len() && (contains_seq(#[trigger] paren[i], seq!['\''] + name + seq!['\''])
            || contains_seq(paren[i], seq!['"'] + name + seq!['"']))
}

/// Whether one of `ws` is `name`.
fn has_word(ws: &Vec<String>, name: &str) -> (r: bool)
    ensures
        r == string_views(ws@).contains(name@),
{
    let mut k: usize = 0;
    while k < ws.len()
        invariant
            k <= ws.len(),
            forall|j: int| 0 <= j < k ==> string_views(ws@)[j] != name@,
        decreases ws.len() - k,
    {
        if str_eq(ws[k].as_str(), name) {
            assert(string_views(ws@)[k as int] == name@);
            return true;
        }
        k = k + 1;
    }
    false
}

fn quoted(name: &str, q: char) -> (r: String)
    ensures
        r@ == seq![q] + name@ + seq![q],
{
    let mut s = String::new();
    string_push(&mut s, q);
    s.append(name);
    string_push(&mut s, q);
    assert(s@ =~= seq![q] + name@ + seq![q]);
    s
}

impl LspServer {
    /// Whether `symbol_name` is listed in an `@EXPORT` or `@EXPORT_OK`
    /// assignment written in `text`.
    pub fn is_symbol_exported(&self, text: &str, symbol_name: &str) -> (r: bool)
        ensures
            r == exported_in_text(text@, symbol_name@),
    {
        let qw = find_export_qw_lists(text);
        let mut i: usize = 0;
        while i < qw.len()
            invariant
                i <= qw.len(),
                string_views(qw@) == export_qw_lists(text@),
                forall|j: int| 0 <= j < i ==> !(#[trigger] words(export_qw_lists(text@)[j])).contains(symbol_name@),
            decreases qw.len() - i,
        {
            let v = str_chars(qw[i].as_str());
            let ws = split_words(&v);
            if has_word(&ws, symbol_name) {
                assert(words(export_qw_lists(text@)[i as int]).contains(symbol_name@));
                return true;
            }
            i = i + 1;
        }
        let paren = find_export_paren_lists(text);
        let single = quoted(symbol_name, '\'');
        let double = quoted(symbol_name, '"');
        let mut k: usize = 0;
        while k < paren.len()
            invariant
                k <= paren.len(),
                string_views(paren@) == export_paren_lists(text@),
                single@ == seq!['\''] + symbol_name@ + seq!['\''],
                double@ == seq!['"'] + symbol_name@ + seq!['"'],
                forall|j: int| 0 <= j < qw@.len() ==> !(#[trigger] words(export_qw_lists(text@)[j])).contains(symbol_name@),
                qw@.len() == export_qw_lists(text@).len(),
                forall|j: int|
                    0 <= j < k ==> !contains_seq(#[trigger] export_paren_lists(text@)[j], single@) && !contains_seq(
                        export_paren_lists(text@)[j],
                        double@,
                    ),
            decreases paren.len() - k,
        {
            if str_contains(paren[k].as_str(), single.as_str()) || str_contains(paren[k].as_str(), double.as_str()) {
                assert(export_paren_lists(text@)[k as int] == paren@[k as int]@);
                return true;
            }
            k = k + 1;
        }
        false
    }
}

/// The kinds of symbols a moniker can name.
#[derive(Clone, Copy, Debug, PartialEq, Eq, Structural)]
pub enum SymKind {
    Pack,
    Sub,
    Var,
}

/// A symbol: its package, its name, its sigil (for variables) and kind.
pub struct SymbolKey {
    pub pkg: String,
    pub name: String,
    pub sigil: Option<char>,
    pub kind: SymKind,
}

/// The moniker kind: `export` for an exported symbol, `import` for an
/// imported one, `local` otherwise.
pub open spec fn moniker_kind(exported: bool, imported: bool) -> Seq<char> {
    if exported {
        "export"@
    } else if imported {
        "import"@
    } else {
        "local"@
    }
}

/// How unique a symbol's moniker is: packages are global; subroutines are
/// global when exported, project-wide outside `main`, else per document;
/// variables are project-wide when declared with `our`.
pub open spec fn moniker_unique(kind: SymKind, pkg: Seq<char>, exported: bool, our_variable: bool) -> Seq<char> {
    match kind {
        SymKind::Pack => "global"@,
        SymKind::Sub => if exported {
            "global"@
        } else if pkg != "main"@ {
            "project"@
        } else {
            "document"@
        },
        SymKind::Var => if our_variable {
            "project"@
        } else {
            "document"@
        },
    }
}

impl LspServer {
    /// The moniker kind and uniqueness of `key`. Whether the syntax tree
    /// exports or imports the symbol, and whether a variable is declared
    /// with `our`, are given; an export written in `text` counts too.
    pub fn classify_moniker(&self, key: &SymbolKey, text: &str, exported_in_tree: bool, imported: bool, our_variable: bool) -> (r: (&'static str, &'static str))
        ensures
            ({
                let exported = exported_in_tree || exported_in_text(text@, key.name@);
                r.0@ == moniker_kind(exported, imported) && r.1@ == moniker_unique(key.kind, key.pkg@, exported, our_variable)
            }),
    {
        let exported = exported_in_tree || self.is_symbol_exported(text, key.name.as_str());
        let kind = if exported {
            "export"
        } else if imported {
            "import"
        } else {
            "local"
        };
        let unique = match key.kind {
            SymKind::Pack => "global",
            SymKind::Sub => if exported {
                "global"
            } else if !str_eq(key.pkg.as_str(), "main") {
                "project"
            } else {
                "document"
            },
            SymKind::Var => if our_variable {
                "project"
            } else {
                "document"
            },
        };
        (kind, unique)
    }
}

/// `s` with every `::` replaced by `.`, read from left to right.
pub open spec fn dotted(s: Seq<char>) -> Seq<char>
    decreases s.len(),
{
    if s.len() == 0 {
        Seq::empty()
    } else if s.len() >= 2 && s[0] == ':' && s[1] == ':' {
        seq!['.'] + dotted(s.skip(2))
    } else {
        seq![s[0]] + dotted(s.skip(1))
    }
}

fn dotted_text(s: &str) -> (r: String)
    ensures
        r@ == dotted(s@),
{
    let v = str_chars(s);
    let mut out = String::new();
    let mut i: usize = 0;
    assert(v@.skip(0) =~= v@);
    while i < v.len()
        invariant
            i <= v.len(),
            dotted(v@) == out@ + dotted(v@.skip(i as int)),
        decreases v.len() - i,
    {
        let ghost rest = v@.skip(i as int);
        if v.len() - i >= 2 && v[i] == ':' && v[i + 1] == ':' {
            assert(rest.skip(2) =~= v@.skip(i + 2));
            string_push(&mut out, '.');
            i = i + 2;
        } else {
            assert(rest.skip(1) =~= v@.skip(i + 1));
            string_push(&mut out, v[i]);
            i = i + 1;
        }
    }
    assert(v@.skip(v.len() as int) =~= Seq::<char>::empty());
    assert(out@ + Seq::<char>::empty() =~= out@);
    out
}

/// `v` is the moniker `{"scheme": "perl", "identifier", "unique", "kind"}`.
pub open spec fn is_moniker(v: JsonValue, identifier: Seq<char>, unique: Seq<char>, kind: Seq<char>) -> bool {
    let ms = members_of(v);
    &&& v is Obj
    &&& ms.len() == 4
    &&& ms[0].key@ == "scheme"@
    &&& is_str(ms[0].value, "perl"@)
    &&& ms[1].key@ == "identifier"@
    &&& is_str(ms[1].value, identifier)
    &&& ms[2].key@ == "unique"@
    &&& is_str(ms[2].value, unique)
    &&& ms[3].key@ == "kind"@
    &&& is_str(ms[3].value, kind)
}

/// The monikers of a symbol, as (identifier, unique, kind): its qualified
/// name with `::` written `.`; for an imported symbol, the export it comes
/// from; for a package variable not local to the document, the bare sigiled
/// name; for a subroutine, the same name in each parent package.
pub open spec fn moniker_entries(
    pkg: Seq<char>,
    name: Seq<char>,
    sigil: Option<char>,
    is_sub: bool,
    kind: Seq<char>,
    unique: Seq<char>,
    import_source: Option<Seq<char>>,
    parents: Seq<Seq<char>>,
) -> Seq<(Seq<char>, Seq<char>, Seq<char>)> {
    seq![(dotted(pkg + "::"@ + name), unique, kind)] + (match import_source {
        Some(src) => if kind == "import"@ {
            seq![(dotted(src) + "."@ + name, "global"@, "export"@)]
        } else {
            Seq::empty()
        },
        None => Seq::empty(),
    }) + (match sigil {
        Some(c) => if unique != "document"@ {
            seq![(seq![c] + name, "document"@, "local"@)]
        } else {
            Seq::empty()
        },
        None => Seq::empty(),
    }) + (if is_sub {
        parents.map_values(|p: Seq<char>| (dotted(p) + "."@ + name, "global"@, "local"@))
    } else {
        Seq::empty()
    })
}

fn moniker_value(identifier: String, unique: &str, kind: &str) -> (r: JsonValue)
    ensures
        is_moniker(r, identifier@, unique@, kind@),
{
    let mut ms: Vec<JsonMember> = Vec::new();
    ms.push(member("scheme", str_value("perl")));
    ms.push(member("identifier", JsonValue::Str(identifier)));
    ms.push(member("unique", str_value(unique)));
    ms.push(member("kind", str_value(kind)));
    JsonValue::Obj(ms)
}

/// `dotted(prefix) + "." + name`.
fn dotted_member(prefix: &str, name: &str) -> (r: String)
    ensures
        r@ == dotted(prefix@) + "."@ + name@,
{
    let mut id = dotted_text(prefix);
    id.append(".");
    id.append(name);
    id
}

impl LspServer {
    /// The monikers of `key`, given its kind and uniqueness, the package an
    /// imported symbol comes from, and the parent packages of the file.
    pub fn monikers_for(key: &SymbolKey, kind: &str, unique: &str, import_source: Option<&str>, parents: &Vec<String>) -> (r: Vec<JsonValue>)
        ensures
            ({
                let entries = moniker_entries(
                    key.pkg@,
                    key.name@,
                    key.sigil,
                    key.kind == SymKind::Sub,
                    kind@,
                    unique@,
                    match import_source {
                        Some(s) => Some(s@),
                        None => None,
                    },
                    string_views(parents@),
                );
                &&& r@.len() == entries.len()
                &&& forall|i: int| 0 <= i < r@.len() ==> is_moniker(#[trigger] r@[i], entries[i].0, entries[i].1, entries[i].2)
            }),
    {
        let ghost src_view = match import_source {
            Some(s) => Some(s@),
            None => None,
        };
        let ghost entries = moniker_entries(
            key.pkg@,
            key.name@,
            key.sigil,
            key.kind == SymKind::Sub,
            kind@,
            unique@,
            src_view,
            string_views(parents@),
        );
        let ghost e1 = seq![(dotted(key.pkg@ + "::"@ + key.name@), unique@, kind@)];
        let ghost e2: Seq<(Seq<char>, Seq<char>, Seq<char>)> = match src_view {
            Some(src) => if kind@ == "import"@ {
                seq![(dotted(src) + "."@ + key.name@, "global"@, "export"@)]
            } else {
                Seq::empty()
            },
            None => Seq::empty(),
        };
        let ghost e3: Seq<(Seq<char>, Seq<char>, Seq<char>)> = match key.sigil {
            Some(c) => if unique@ != "document"@ {
                seq![(seq![c] + key.name@, "document"@, "local"@)]
            } else {
                Seq::empty()
            },
            None => Seq::empty(),
        };
        let ghost e4: Seq<(Seq<char>, Seq<char>, Seq<char>)> = if key.kind == SymKind::Sub {
            string_views(parents@).map_values(|p: Seq<char>| (dotted(p) + "."@ + key.name@, "global"@, "local"@))
        } else {
            Seq::empty()
        };
        assert(entries == e1 + e2 + e3 + e4);
        let mut out: Vec<JsonValue> = Vec::new();
        let mut qualified = owned(key.pkg.as_str());
        qualified.append("::");
        qualified.append(key.name.as_str());
        let id = dotted_text(qualified.as_str());
        out.push(moniker_value(id, unique, kind));
        proof {
            reveal_strlit("import");
            reveal_strlit("document");
        }
        if let Some(src) = import_source {
            if str_eq(kind, "import") {
                let sid = dotted_member(src, key.name.as_str());
                out.push(moniker_value(sid, "global", "export"));
            }
        }
        assert(out@.len() == (e1 + e2).len());
        assert(forall|i: int| 0 <= i < out@.len() ==> is_moniker(#[trigger] out@[i], (e1 + e2)[i].0, (e1 + e2)[i].1, (e1 + e2)[i].2));
        match key.sigil {
            Some(c) => {
                if !str_eq(unique, "document") {
                    let mut bare = String::new();
                    string_push(&mut bare, c);
                    bare.append(key.name.as_str());
                    out.push(moniker_value(bare, "document", "local"));
                }
            },
            None => {},
        }
        let ghost head = e1 + e2 + e3;
        assert(out@.len() == head.len());
        assert(forall|i: int| 0 <= i < out@.len() ==> is_moniker(#[trigger] out@[i], head[i].0, head[i].1, head[i].2));
        if key.kind == SymKind::Sub {
            let ghost base = out@.len();
            let mut k: usize = 0;
            while k < parents.len()
                invariant
                    k <= parents.len(),
                    base == head.len(),
                    key.kind == SymKind::Sub,
                    e4 == string_views(parents@).map_values(|p: Seq<char>| (dotted(p) + "."@ + key.name@, "global"@, "local"@)),
                    out@.len() == base + k,
                    forall|i: int| 0 <= i < base ==> is_moniker(#[trigger] out@[i], head[i].0, head[i].1, head[i].2),
                    forall|i: int| base <= i < out@.len() ==> is_moniker(#[trigger] out@[i], e4[i - base].0, e4[i - base].1, e4[i - base].2),
                decreases parents.len() - k,
            {
                let pid = dotted_member(parents[k].as_str(), key.name.as_str());
                out.push(moniker_value(pid, "global", "local"));
                k = k + 1;
            }
        }
        assert forall|i: int| 0 <= i < out@.len() implies is_moniker(#[trigger] out@[i], entries[i].0, entries[i].1, entries[i].2) by {
            if i < head.len() {
                assert(entries[i] == head[i]);
            } else {
                assert(entries[i] == e4[i - head.len()]);
            }
        }
        out
    }
}

} // verus!
