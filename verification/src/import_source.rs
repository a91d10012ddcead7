//! Where an imported symbol comes from: the `use` statements of a program,
//! `require` followed by `Module->import(...)`, and `Module::Runtime`
//! aliases (`my $m = use_module('Foo'); $m->import(...)`), with export tags
//! (`:all`) expanded through the table the caller knows.
use vstd::prelude::*;
use crate::lifecycle::LspServer;
use crate::text::{str_chars, str_eq, owned, string_from_chars};
use crate::hover_text::{trimmed, trim_chars, string_views};
use crate::moniker::{words, qw_content, split_words, qw_content_chars, chars_between};
use crate::module_resolution::{with_new_paths, append_system_inc_paths};

verus! {

/// An argument of a call, as the parser gives it.
pub enum ImportArg {
    Str(String),
    Ident(String),
    Array(Vec<ImportArg>),
    Other,
}

/// The object a method is called on.
pub enum ImportObject {
    Ident(String),
    Var(String),
    Other,
}

/// A statement as the import search sees it (expression statements
/// unwrapped): a `use`, a block or the program, a function call, an
/// assignment or initialized declaration (the assigned variable, when it
/// is a plain variable, and the function called on the right, when it is
/// a call), a method call, or anything else.
pub enum ImportNode {
    Use { module: String, args: Vec<String> },
    Block { statements: Vec<ImportNode> },
    Call { name: String, args: Vec<ImportArg> },
    Assign { target: Option<String>, call_name: Option<String>, call_args: Vec<ImportArg> },
    MethodCall { object: ImportObject, method: String, args: Vec<ImportArg> },
    Other,
}

/// What an export tag of a module expands to.
pub struct ExportTag {
    pub module: String,
    pub tag: String,
    pub names: Vec<String>,
}

pub open spec fn strip_lead(s: Seq<char>, c: char) -> Seq<char>
    decreases s.len(),
{
    if s.len() > 0 && s[0] == c { strip_lead(s.drop_first(), c) } else { s }
}

pub open spec fn strip_trail(s: Seq<char>, c: char) -> Seq<char>
    decreases s.len(),
{
    if s.len() > 0 && s.last() == c { strip_trail(s.drop_last(), c) } else { s }
}

/// `str::trim_matches(c)`: every leading and trailing `c` removed.
pub open spec fn strip_char(s: Seq<char>, c: char) -> Seq<char> {
    strip_trail(strip_lead(s, c), c)
}

/// A quoted value without its quotes: `'` then `"` trimmed from both
/// ends, then whitespace.
pub open spec fn unquoted(v: Seq<char>) -> Seq<char> {
    trimmed(strip_char(strip_char(v, '\''), '"'))
}

/// `s` without every trailing `.pm`.
pub open spec fn strip_pm(s: Seq<char>) -> Seq<char>
    decreases s.len(),
{
    if s.len() >= 3 && s[s.len() - 3] == '.' && s[s.len() - 2] == 'p' && s[s.len() - 1] == 'm' {
        strip_pm(s.take(s.len() - 3))
    } else {
        s
    }
}

/// `s` with every `/` replaced by `::`.
pub open spec fn slashes_to_colons(s: Seq<char>) -> Seq<char>
    decreases s.len(),
{
    if s.len() == 0 {
        s
    } else {
        slashes_to_colons(s.drop_last()) + if s.last() == '/' { seq![':', ':'] } else { seq![s.last()] }
    }
}

pub open spec fn is_tag(w: Seq<char>) -> bool {
    w.len() > 0 && w[0] == ':'
}

pub open spec fn starts_qw(n: Seq<char>) -> bool {
    n.len() >= 2 && n[0] == 'q' && n[1] == 'w'
}

/// The names the export tag `tag` of `module` expands to (the first entry
/// of the table for them).
pub open spec fn tag_names(tags: Seq<ExportTag>, module: Seq<char>, tag: Seq<char>) -> Option<Seq<Seq<char>>>
    decreases tags.len(),
{
    if tags.len() == 0 {
        None
    } else if tags[0].module@ == module && tags[0].tag@ == tag {
        Some(string_views(tags[0].names@))
    } else {
        tag_names(tags.drop_first(), module, tag)
    }
}

/// The word `w` imports `symbol` from `module`: it is the symbol, or a tag
/// that expands to it.
pub open spec fn word_imports(tags: Seq<ExportTag>, module: Seq<char>, w: Seq<char>, symbol: Seq<char>) -> bool {
    w == symbol || (is_tag(w) && (tag_names(tags, module, w) matches Some(ns) && ns.contains(symbol)))
}

/// A word of the `qw` list `n` imports `symbol`.
pub open spec fn qw_imports(tags: Seq<ExportTag>, module: Seq<char>, n: Seq<char>, symbol: Seq<char>) -> bool {
    exists|k: int| 0 <= k < words(qw_content(n)).len() && word_imports(tags, module, #[trigger] words(qw_content(n))[k], symbol)
}

/// The argument of an `import` call imports `symbol` from `module`.
pub open spec fn arg_imports(tags: Seq<ExportTag>, module: Seq<char>, a: ImportArg, symbol: Seq<char>) -> bool
    decreases a,
{
    match a {
        ImportArg::Str(v) => word_imports(tags, module, unquoted(v@), symbol),
        ImportArg::Ident(n) => n@ == symbol || (starts_qw(n@) && qw_imports(tags, module, n@, symbol)),
        ImportArg::Array(els) => any_arg_imports(tags, module, els@, 0, symbol),
        ImportArg::Other => false,
    }
}

/// One of the arguments `s[i..]` imports `symbol` from `module`.
pub open spec fn any_arg_imports(tags: Seq<ExportTag>, module: Seq<char>, s: Seq<ImportArg>, i: int, symbol: Seq<char>) -> bool
    decreases s, s.len() - i,
{
    if 0 <= i < s.len() {
        arg_imports(tags, module, s[i], symbol) || any_arg_imports(tags, module, s, i + 1, symbol)
    } else {
        false
    }
}

/// An argument of `use module ...` imports `name`: it is the name, a word
/// of a `qw` list that imports it, or a tag that expands to it.
pub open spec fn use_arg_imports(tags: Seq<ExportTag>, module: Seq<char>, arg: Seq<char>, name: Seq<char>) -> bool {
    arg == name || if starts_qw(arg) {
        qw_imports(tags, module, arg, name)
    } else {
        is_tag(arg) && (tag_names(tags, module, arg) matches Some(ns) && ns.contains(name))
    }
}

/// The module a `require` statement loads: a bare name, or a quoted path
/// without quotes, spaces and `.pm`, with `/` read as `::`.
pub open spec fn required_module(n: ImportNode) -> Option<Seq<char>> {
    match n {
        ImportNode::Call { name, args } => if name@ == "require"@ && args@.len() > 0 {
            match args@[0] {
                ImportArg::Ident(x) => Some(x@),
                ImportArg::Str(v) => Some(slashes_to_colons(strip_pm(unquoted(v@)))),
                _ => None,
            }
        } else {
            None
        },
        _ => None,
    }
}

/// The functions of `Module::Runtime` that load a module.
pub open spec fn runtime_loader(f: Seq<char>) -> bool {
    f == "use_module"@ || f == "require_module"@ || f == "Module::Runtime::use_module"@ || f == "Module::Runtime::require_module"@
}

/// `$alias = use_module('Module')` (or `require_module`): the alias and
/// the module.
pub open spec fn runtime_alias(n: ImportNode) -> Option<(Seq<char>, Seq<char>)> {
    match n {
        ImportNode::Assign { target: Some(a), call_name: Some(f), call_args } => if runtime_loader(f@) && call_args@.len() > 0 {
            match call_args@[0] {
                ImportArg::Str(v) => if unquoted(v@).len() > 0 { Some((a@, unquoted(v@))) } else { None },
                _ => None,
            }
        } else {
            None
        },
        _ => None,
    }
}

/// The modules required by `s[..n]`, in order.
pub open spec fn requires_upto(s: Seq<ImportNode>, n: int) -> Seq<Seq<char>>
    decreases n,
{
    if n <= 0 || n > s.len() {
        Seq::empty()
    } else {
        requires_upto(s, n - 1) + match required_module(s[n - 1]) {
            Some(m) => seq![m],
            None => Seq::empty(),
        }
    }
}

/// The module aliases set by `s[..n]`, in order.
pub open spec fn aliases_upto(s: Seq<ImportNode>, n: int) -> Seq<(Seq<char>, Seq<char>)>
    decreases n,
{
    if n <= 0 || n > s.len() {
        Seq::empty()
    } else {
        aliases_upto(s, n - 1) + match runtime_alias(s[n - 1]) {
            Some(p) => seq![p],
            None => Seq::empty(),
        }
    }
}

/// The module of the last alias named `name`.
pub open spec fn alias_lookup(al: Seq<(Seq<char>, Seq<char>)>, name: Seq<char>) -> Option<Seq<char>>
    decreases al.len(),
{
    if al.len() == 0 {
        None
    } else if al.last().0 == name {
        Some(al.last().1)
    } else {
        alias_lookup(al.drop_last(), name)
    }
}

/// The modules of a block whose `import` calls count: the required ones,
/// then the aliased ones not required already.
pub open spec fn loaded_modules(s: Seq<ImportNode>) -> Seq<Seq<char>> {
    with_new_paths(requires_upto(s, s.len() as int), aliases_upto(s, s.len() as int).map_values(|p: (Seq<char>, Seq<char>)| p.1))
}

/// `n` is `Module->import(...)` (or `$alias->import(...)`) that imports
/// `symbol` from `module`: without arguments it imports everything.
pub open spec fn import_call_imports(tags: Seq<ExportTag>, n: ImportNode, module: Seq<char>, symbol: Seq<char>, al: Seq<(Seq<char>, Seq<char>)>) -> bool {
    match n {
        ImportNode::MethodCall { object, method, args } => {
            &&& method@ == "import"@
            &&& match object {
                ImportObject::Ident(o) => o@ == module,
                ImportObject::Var(v) => alias_lookup(al, v@) == Some(module),
                ImportObject::Other => false,
            }
            &&& (args@.len() == 0 || any_arg_imports(tags, module, args@, 0, symbol))
        },
        _ => false,
    }
}

/// The first of `mods[j..]` that the statement `n` imports `symbol` from.
pub open spec fn first_import_module(tags: Seq<ExportTag>, n: ImportNode, mods: Seq<Seq<char>>, j: int, symbol: Seq<char>, al: Seq<(Seq<char>, Seq<char>)>) -> Option<Seq<char>>
    decreases mods.len() - j,
{
    if 0 <= j < mods.len() {
        if import_call_imports(tags, n, mods[j], symbol, al) {
            Some(mods[j])
        } else {
            first_import_module(tags, n, mods, j + 1, symbol, al)
        }
    } else {
        None
    }
}

/// The module of the first `import` call among `s[i..]` that imports `symbol`.
pub open spec fn first_import_stmt(tags: Seq<ExportTag>, s: Seq<ImportNode>, i: int, mods: Seq<Seq<char>>, symbol: Seq<char>, al: Seq<(Seq<char>, Seq<char>)>) -> Option<Seq<char>>
    decreases s.len() - i,
{
    if 0 <= i < s.len() {
        match first_import_module(tags, s[i], mods, 0, symbol, al) {
            Some(m) => Some(m),
            None => first_import_stmt(tags, s, i + 1, mods, symbol, al),
        }
    } else {
        None
    }
}

/// The module that `symbol` is imported from in `n`: a `use` that imports
/// it; in a block, an `import` call of a loaded module first, then each
/// statement in order.
pub open spec fn import_source(tags: Seq<ExportTag>, n: ImportNode, symbol: Seq<char>) -> Option<Seq<char>>
    decreases n,
{
    match n {
        ImportNode::Use { module, args } => if exists|i: int| 0 <= i < args@.len() && use_arg_imports(tags, module@, #[trigger] args@[i]@, symbol) {
            Some(module@)
        } else {
            None
        },
        ImportNode::Block { statements } => {
            let s = statements@;
            match first_import_stmt(tags, s, 0, loaded_modules(s), symbol, aliases_upto(s, s.len() as int)) {
                Some(m) => Some(m),
                None => first_stmt_source(tags, s, 0, symbol),
            }
        },
        _ => None,
    }
}

/// The source found in the first of `s[i..]` that has one.
pub open spec fn first_stmt_source(tags: Seq<ExportTag>, s: Seq<ImportNode>, i: int, symbol: Seq<char>) -> Option<Seq<char>>
    decreases s, s.len() - i,
{
    if 0 <= i < s.len() {
        match import_source(tags, s[i], symbol) {
            Some(m) => Some(m),
            None => first_stmt_source(tags, s, i + 1, symbol),
        }
    } else {
        None
    }
}

} // verus!

verus! {

fn strip_char_chars(v: &Vec<char>, c: char) -> (r: Vec<char>)
    ensures
        r@ == strip_char(v@, c),
{
    let ghost s = v@;
    let mut lo: usize = 0;
    assert(s.skip(0) =~= s);
    while lo < v.len() && v[lo] == c
        invariant
            lo <= v.len(),
            s == v@,
            strip_lead(s, c) == strip_lead(s.skip(lo as int), c),
        decreases v.len() - lo,
    {
        assert(s.skip(lo as int).drop_first() =~= s.skip(lo + 1));
        lo = lo + 1;
    }
    let mut hi: usize = v.len();
    assert(s.skip(lo as int) =~= s.subrange(lo as int, hi as int));
    while hi > lo && v[hi - 1] == c
        invariant
            lo <= hi <= v.len(),
            s == v@,
            strip_lead(s, c) == s.skip(lo as int),
            strip_char(s, c) == strip_trail(s.subrange(lo as int, hi as int), c),
        decreases hi,
    {
        assert(s.subrange(lo as int, hi as int).drop_last() =~= s.subrange(lo as int, hi - 1));
        hi = hi - 1;
    }
    chars_between(v, lo, hi)
}

fn unquoted_chars(v: &Vec<char>) -> (r: Vec<char>)
    ensures
        r@ == unquoted(v@),
{
    let a = strip_char_chars(v, '\'');
    let b = strip_char_chars(&a, '"');
    trim_chars(&b)
}

/// The module named by a quoted `require` path.
fn required_path_module(v: &Vec<char>) -> (r: String)
    ensures
        r@ == slashes_to_colons(strip_pm(unquoted(v@))),
{
    let u = unquoted_chars(v);
    let ghost s = u@;
    let mut hi: usize = u.len();
    assert(s.take(hi as int) =~= s);
    while hi >= 3 && u[hi - 3] == '.' && u[hi - 2] == 'p' && u[hi - 1] == 'm'
        invariant
            hi <= u.len(),
            s == u@,
            strip_pm(s) == strip_pm(s.take(hi as int)),
        decreases hi,
    {
        assert(s.take(hi as int).take(hi - 3) =~= s.take(hi - 3));
        hi = hi - 3;
    }
    let mut out = String::new();
    let mut i: usize = 0;
    let ghost t = s.take(hi as int);
    assert(strip_pm(s) == t);
    while i < hi
        invariant
            i <= hi <= u.len(),
            s == u@,
            t == s.take(hi as int),
            out@ == slashes_to_colons(t.take(i as int)),
        decreases hi - i,
    {
        assert(t.take(i + 1).drop_last() =~= t.take(i as int));
        assert(t.take(i + 1).last() == u[i as int]);
        if u[i] == '/' {
            crate::text::string_push(&mut out, ':');
            crate::text::string_push(&mut out, ':');
        } else {
            crate::text::string_push(&mut out, u[i]);
        }
        assert(out@ =~= slashes_to_colons(t.take(i + 1)));
        i = i + 1;
    }
    assert(t.take(hi as int) =~= t);
    out
}

fn required_module_of(n: &ImportNode) -> (r: Option<String>)
    ensures
        opt_view(r) == required_module(*n),
{
    match n {
        ImportNode::Call { name, args } => {
            if str_eq(name.as_str(), "require") && args.len() > 0 {
                match &args[0] {
                    ImportArg::Ident(x) => Some(owned(x.as_str())),
                    ImportArg::Str(v) => Some(required_path_module(&str_chars(v.as_str()))),
                    _ => None,
                }
            } else {
                None
            }
        },
        _ => None,
    }
}

pub open spec fn opt_view(r: Option<String>) -> Option<Seq<char>> {
    match r {
        Some(s) => Some(s@),
        None => None,
    }
}

fn runtime_alias_of(n: &ImportNode) -> (r: Option<(String, String)>)
    ensures
        match runtime_alias(*n) {
            Some((a, m)) => r matches Some(x) && x.0@ == a && x.1@ == m,
            None => r is None,
        },
{
    match n {
        ImportNode::Assign { target: Some(a), call_name: Some(f), call_args } => {
            let fs = f.as_str();
            let loader = str_eq(fs, "use_module") || str_eq(fs, "require_module") || str_eq(fs, "Module::Runtime::use_module")
                || str_eq(fs, "Module::Runtime::require_module");
            if loader && call_args.len() > 0 {
                match &call_args[0] {
                    ImportArg::Str(v) => {
                        let u = unquoted_chars(&str_chars(v.as_str()));
                        if u.len() > 0 {
                            Some((owned(a.as_str()), string_from_chars(u.as_slice())))
                        } else {
                            None
                        }
                    },
                    _ => None,
                }
            } else {
                None
            }
        },
        _ => None,
    }
}

fn tag_expands_to(tags: &Vec<ExportTag>, module: &str, tag: &str, symbol: &str) -> (r: bool)
    ensures
        r == (tag_names(tags@, module@, tag@) matches Some(ns) && ns.contains(symbol@)),
{
    let ghost all = tags@;
    let mut k: usize = 0;
    assert(all.skip(0) =~= all);
    while k < tags.len()
        invariant
            k <= tags.len(),
            all == tags@,
            tag_names(all, module@, tag@) == tag_names(all.skip(k as int), module@, tag@),
        decreases tags.len() - k,
    {
        assert(all.skip(k as int).drop_first() =~= all.skip(k + 1));
        assert(all.skip(k as int)[0] == tags@[k as int]);
        if str_eq(tags[k].module.as_str(), module) && str_eq(tags[k].tag.as_str(), tag) {
            let names = &tags[k].names;
            assert(tag_names(all, module@, tag@) == Some(string_views(names@)));
            let mut i: usize = 0;
            while i < names.len()
                invariant
                    i <= names.len(),
                    all == tags@,
                    tag_names(all, module@, tag@) == Some(string_views(names@)),
                    forall|j: int| 0 <= j < i ==> names@[j]@ != symbol@,
                decreases names.len() - i,
            {
                if str_eq(names[i].as_str(), symbol) {
                    assert(string_views(names@)[i as int] == symbol@);
                    assert(string_views(names@).contains(symbol@));
                    return true;
                }
                i = i + 1;
            }
            assert forall|j: int| 0 <= j < string_views(names@).len() implies string_views(names@)[j] != symbol@ by {
                assert(string_views(names@)[j] == names@[j]@);
            }
            return false;
        }
        k = k + 1;
    }
    assert(all.skip(k as int) =~= Seq::<ExportTag>::empty());
    false
}

fn word_imports_exec(tags: &Vec<ExportTag>, module: &str, w: &str, symbol: &str) -> (r: bool)
    ensures
        r == word_imports(tags@, module@, w@, symbol@),
{
    if str_eq(w, symbol) {
        return true;
    }
    let c = str_chars(w);
    c.len() > 0 && c[0] == ':' && tag_expands_to(tags, module, w, symbol)
}

fn qw_imports_exec(tags: &Vec<ExportTag>, module: &str, n: &str, symbol: &str) -> (r: bool)
    ensures
        r == qw_imports(tags@, module@, n@, symbol@),
{
    let content = qw_content_chars(&str_chars(n));
    let ws = split_words(&content);
    let ghost all = words(qw_content(n@));
    let mut k: usize = 0;
    while k < ws.len()
        invariant
            k <= ws.len(),
            string_views(ws@) == all,
            all == words(qw_content(n@)),
            forall|j: int| 0 <= j < k ==> !word_imports(tags@, module@, #[trigger] all[j], symbol@),
        decreases ws.len() - k,
    {
        assert(all[k as int] == ws@[k as int]@);
        if word_imports_exec(tags, module, ws[k].as_str(), symbol) {
            return true;
        }
        k = k + 1;
    }
    false
}

fn arg_imports_exec(tags: &Vec<ExportTag>, module: &str, a: &ImportArg, symbol: &str) -> (r: bool)
    ensures
        r == arg_imports(tags@, module@, *a, symbol@),
    decreases a,
{
    match a {
        ImportArg::Str(v) => {
            let u = string_from_chars(unquoted_chars(&str_chars(v.as_str())).as_slice());
            word_imports_exec(tags, module, u.as_str(), symbol)
        },
        ImportArg::Ident(n) => {
            if str_eq(n.as_str(), symbol) {
                return true;
            }
            let c = str_chars(n.as_str());
            c.len() >= 2 && c[0] == 'q' && c[1] == 'w' && qw_imports_exec(tags, module, n.as_str(), symbol)
        },
        ImportArg::Array(els) => {
            let mut i: usize = 0;
            while i < els.len()
                invariant
                    i <= els.len(),
                    *a is Array,
                    (*a)->Array_0 == *els,
                    arg_imports(tags@, module@, *a, symbol@) == any_arg_imports(tags@, module@, els@, i as int, symbol@),
                decreases els.len() - i,
            {
                proof {
                    assert(decreases_to!(*a => (*a)->Array_0));
                    assert(decreases_to!((*a)->Array_0 => (*a)->Array_0@));
                    assert(decreases_to!((*a)->Array_0@ => (*a)->Array_0@[i as int]));
                }
                if arg_imports_exec(tags, module, &els[i], symbol) {
                    return true;
                }
                i = i + 1;
            }
            false
        },
        ImportArg::Other => false,
    }
}

fn any_arg_imports_exec(tags: &Vec<ExportTag>, module: &str, args: &Vec<ImportArg>, symbol: &str) -> (r: bool)
    ensures
        r == any_arg_imports(tags@, module@, args@, 0, symbol@),
{
    let mut i: usize = 0;
    while i < args.len()
        invariant
            i <= args.len(),
            any_arg_imports(tags@, module@, args@, 0, symbol@) == any_arg_imports(tags@, module@, args@, i as int, symbol@),
        decreases args.len() - i,
    {
        if arg_imports_exec(tags, module, &args[i], symbol) {
            return true;
        }
        i = i + 1;
    }
    false
}

fn use_imports_exec(tags: &Vec<ExportTag>, module: &str, args: &Vec<String>, name: &str) -> (r: bool)
    ensures
        r == exists|i: int| 0 <= i < args@.len() && use_arg_imports(tags@, module@, #[trigger] args@[i]@, name@),
{
    let mut i: usize = 0;
    while i < args.len()
        invariant
            i <= args.len(),
            forall|j: int| 0 <= j < i ==> !use_arg_imports(tags@, module@, #[trigger] args@[j]@, name@),
        decreases args.len() - i,
    {
        let arg = args[i].as_str();
        let c = str_chars(arg);
        let hit = if str_eq(arg, name) {
            true
        } else if c.len() >= 2 && c[0] == 'q' && c[1] == 'w' {
            qw_imports_exec(tags, module, arg, name)
        } else {
            c.len() > 0 && c[0] == ':' && tag_expands_to(tags, module, arg, name)
        };
        if hit {
            return true;
        }
        i = i + 1;
    }
    false
}

fn alias_lookup_exec(al: &Vec<(String, String)>, name: &str) -> (r: Option<String>)
    ensures
        opt_view(r) == alias_lookup(al@.map_values(|p: (String, String)| (p.0@, p.1@)), name@),
{
    let ghost s = al@.map_values(|p: (String, String)| (p.0@, p.1@));
    let mut k: usize = al.len();
    assert(s.take(k as int) =~= s);
    while k > 0
        invariant
            k <= al.len(),
            s == al@.map_values(|p: (String, String)| (p.0@, p.1@)),
            alias_lookup(s, name@) == alias_lookup(s.take(k as int), name@),
        decreases k,
    {
        assert(s.take(k as int).drop_last() =~= s.take(k - 1));
        assert(s.take(k as int).last() == (al@[k - 1].0@, al@[k - 1].1@));
        if str_eq(al[k - 1].0.as_str(), name) {
            return Some(owned(al[k - 1].1.as_str()));
        }
        k = k - 1;
    }
    assert(s.take(0) =~= Seq::<(Seq<char>, Seq<char>)>::empty());
    None
}

fn import_call_imports_exec(tags: &Vec<ExportTag>, n: &ImportNode, module: &str, symbol: &str, al: &Vec<(String, String)>) -> (r: bool)
    ensures
        r == import_call_imports(tags@, *n, module@, symbol@, al@.map_values(|p: (String, String)| (p.0@, p.1@))),
{
    match n {
        ImportNode::MethodCall { object, method, args } => {
            if !str_eq(method.as_str(), "import") {
                return false;
            }
            let on = match object {
                ImportObject::Ident(o) => str_eq(o.as_str(), module),
                ImportObject::Var(v) => match alias_lookup_exec(al, v.as_str()) {
                    Some(m) => str_eq(m.as_str(), module),
                    None => false,
                },
                ImportObject::Other => false,
            };
            on && (args.len() == 0 || any_arg_imports_exec(tags, module, args, symbol))
        },
        _ => false,
    }
}

fn loaded_modules_of(s: &Vec<ImportNode>) -> (r: (Vec<String>, Vec<(String, String)>))
    ensures
        string_views(r.0@) == loaded_modules(s@),
        r.1@.map_values(|p: (String, String)| (p.0@, p.1@)) == aliases_upto(s@, s@.len() as int),
{
    let mut reqs: Vec<String> = Vec::new();
    let mut al: Vec<(String, String)> = Vec::new();
    let mut mods: Vec<String> = Vec::new();
    let mut i: usize = 0;
    while i < s.len()
        invariant
            i <= s.len(),
            string_views(reqs@) == requires_upto(s@, i as int),
            al@.map_values(|p: (String, String)| (p.0@, p.1@)) == aliases_upto(s@, i as int),
            string_views(mods@) == aliases_upto(s@, i as int).map_values(|p: (Seq<char>, Seq<char>)| p.1),
        decreases s.len() - i,
    {
        let ghost r0 = reqs@;
        let ghost a0 = al@;
        let ghost m0 = mods@;
        match required_module_of(&s[i]) {
            Some(m) => {
                reqs.push(m);
                assert(string_views(reqs@) =~= string_views(r0).push(reqs@[r0.len() as int]@));
            },
            None => {},
        }
        assert(string_views(reqs@) =~= requires_upto(s@, i + 1));
        let ghost prev_al = aliases_upto(s@, i as int);
        match runtime_alias_of(&s[i]) {
            Some((a, m)) => {
                let ghost pair = (a@, m@);
                mods.push(owned(m.as_str()));
                al.push((a, m));
                assert(aliases_upto(s@, i + 1) == prev_al.push(pair));
                assert(string_views(mods@) =~= string_views(m0).push(pair.1));
                assert(prev_al.push(pair).map_values(|p: (Seq<char>, Seq<char>)| p.1) =~= prev_al.map_values(|p: (Seq<char>, Seq<char>)| p.1).push(pair.1));
                assert(al@.map_values(|p: (String, String)| (p.0@, p.1@)) =~= a0.map_values(|p: (String, String)| (p.0@, p.1@)).push(pair));
            },
            None => {
                assert(aliases_upto(s@, i + 1) =~= prev_al);
            },
        }
        i = i + 1;
    }
    append_system_inc_paths(true, &mods, &mut reqs);
    (reqs, al)
}

fn first_import_in(tags: &Vec<ExportTag>, s: &Vec<ImportNode>, mods: &Vec<String>, symbol: &str, al: &Vec<(String, String)>) -> (r: Option<String>)
    ensures
        opt_view(r) == first_import_stmt(tags@, s@, 0, string_views(mods@), symbol@, al@.map_values(|p: (String, String)| (p.0@, p.1@))),
{
    let ghost alv = al@.map_values(|p: (String, String)| (p.0@, p.1@));
    let ghost mv = string_views(mods@);
    let mut i: usize = 0;
    while i < s.len()
        invariant
            i <= s.len(),
            alv == al@.map_values(|p: (String, String)| (p.0@, p.1@)),
            mv == string_views(mods@),
            first_import_stmt(tags@, s@, 0, mv, symbol@, alv) == first_import_stmt(tags@, s@, i as int, mv, symbol@, alv),
        decreases s.len() - i,
    {
        let mut j: usize = 0;
        while j < mods.len()
            invariant
                i < s.len(),
                j <= mods.len(),
                alv == al@.map_values(|p: (String, String)| (p.0@, p.1@)),
                mv == string_views(mods@),
                first_import_module(tags@, s@[i as int], mv, 0, symbol@, alv) == first_import_module(tags@, s@[i as int], mv, j as int, symbol@, alv),
                first_import_stmt(tags@, s@, 0, mv, symbol@, alv) == first_import_stmt(tags@, s@, i as int, mv, symbol@, alv),
            decreases mods.len() - j,
        {
            assert(mv[j as int] == mods@[j as int]@);
            if import_call_imports_exec(tags, &s[i], mods[j].as_str(), symbol, al) {
                return Some(owned(mods[j].as_str()));
            }
            j = j + 1;
        }
        i = i + 1;
    }
    None
}

fn import_source_of(tags: &Vec<ExportTag>, n: &ImportNode, symbol: &str) -> (r: Option<String>)
    ensures
        opt_view(r) == import_source(tags@, *n, symbol@),
    decreases n,
{
    match n {
        ImportNode::Use { module, args } => {
            if use_imports_exec(tags, module.as_str(), args, symbol) {
                Some(owned(module.as_str()))
            } else {
                None
            }
        },
        ImportNode::Block { statements } => {
            let (mods, al) = loaded_modules_of(statements);
            match first_import_in(tags, statements, &mods, symbol, &al) {
                Some(m) => return Some(m),
                None => {},
            }
            let mut i: usize = 0;
            while i < statements.len()
                invariant
                    i <= statements.len(),
                    *n is Block,
                    (*n)->statements == *statements,
                    import_source(tags@, *n, symbol@) == first_stmt_source(tags@, statements@, 0, symbol@),
                    first_stmt_source(tags@, statements@, 0, symbol@) == first_stmt_source(tags@, statements@, i as int, symbol@),
                decreases statements.len() - i,
            {
                proof {
                    assert(decreases_to!(*n => (*n)->statements));
                    assert(decreases_to!((*n)->statements => (*n)->statements@));
                    assert(decreases_to!((*n)->statements@ => (*n)->statements@[i as int]));
                }
                match import_source_of(tags, &statements[i], symbol) {
                    Some(m) => return Some(m),
                    None => {},
                }
                i = i + 1;
            }
            None
        },
        _ => None,
    }
}

impl LspServer {
    /// The module that `symbol_name` is imported from in `program`: a `use`
    /// naming it (bare, in a `qw` list with any delimiter, or through an
    /// export tag of `tags`); `require Module` or a `Module::Runtime`
    /// alias followed by an `import` call that imports it (an `import`
    /// without arguments imports everything); searched block by block in
    /// order.
    pub fn find_import_source(&self, program: &ImportNode, tags: &Vec<ExportTag>, symbol_name: &str) -> (r: Option<String>)
        ensures
            opt_view(r) == import_source(tags@, *program, symbol_name@),
    {
        import_source_of(tags, program, symbol_name)
    }
}

} // verus!
