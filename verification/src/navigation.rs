//! Text-level rules of go-to-definition: module-name bytes, core modules
//! that never live in a workspace, UNIVERSAL methods, and the names of
//! Mojolicious applications and controllers.
use vstd::prelude::*;
use crate::text::{str_chars, str_eq, string_from_chars, string_push};
use crate::hover_text::{trimmed, trim_chars, joined, string_views, join_strings};
use vstd::string::StringSliceAdditionalSpecFns;

verus! {

/// A byte that may appear in a Perl module token: an ASCII letter or
/// digit, `_` (95), `:` (58) or `'` (39).
pub open spec fn module_token_byte(b: u8) -> bool {
    ||| (97 <= b && b <= 122)
    ||| (65 <= b && b <= 90)
    ||| (48 <= b && b <= 57)
    ||| b == 95
    ||| b == 58
    ||| b == 39
}

pub fn is_module_token_byte(byte: u8) -> (r: bool)
    ensures
        r == module_token_byte(byte),
{
    (97 <= byte && byte <= 122) || (65 <= byte && byte <= 90) || (48 <= byte && byte <= 57) || byte == 95
        || byte == 58 || byte == 39
}

/// The pragmas and standard modules that ship with every Perl and are
/// never looked for in a workspace.
pub open spec fn core_perl_module(name: Seq<char>) -> bool {
    ||| name == "strict"@
    ||| name == "warnings"@
    ||| name == "warnings::register"@
    ||| name == "utf8"@
    ||| name == "feature"@
    ||| name == "constant"@
    ||| name == "vars"@
    ||| name == "lib"@
    ||| name == "parent"@
    ||| name == "base"@
    ||| name == "overload"@
    ||| name == "overloading"@
    ||| name == "Scalar::Util"@
    ||| name == "List::Util"@
    ||| name == "Carp"@
    ||| name == "Exporter"@
    ||| name == "POSIX"@
    ||| name == "Data::Dumper"@
    ||| name == "File::Basename"@
    ||| name == "File::Path"@
    ||| name == "File::Spec"@
    ||| name == "Storable"@
    ||| name == "Encode"@
    ||| name == "MIME::Base64"@
    ||| name == "Digest::MD5"@
    ||| name == "Digest::SHA"@
    ||| name == "IO::File"@
    ||| name == "IO::Handle"@
    ||| name == "Fcntl"@
    ||| name == "Socket"@
    ||| name == "Time::HiRes"@
    ||| name == "Time::Local"@
    ||| name == "Getopt::Long"@
    ||| name == "Pod::Usage"@
}

pub fn is_core_perl_module(name: &str) -> (r: bool)
    ensures
        r == core_perl_module(name@),
{
    let pragma = str_eq(name, "strict") || str_eq(name, "warnings") || str_eq(name, "warnings::register")
        || str_eq(name, "utf8") || str_eq(name, "feature") || str_eq(name, "constant") || str_eq(name, "vars")
        || str_eq(name, "lib") || str_eq(name, "parent") || str_eq(name, "base") || str_eq(name, "overload")
        || str_eq(name, "overloading");
    let utility = str_eq(name, "Scalar::Util") || str_eq(name, "List::Util") || str_eq(name, "Carp")
        || str_eq(name, "Exporter") || str_eq(name, "POSIX") || str_eq(name, "Data::Dumper") || str_eq(
        name,
        "File::Basename",
    ) || str_eq(name, "File::Path") || str_eq(name, "File::Spec") || str_eq(name, "Storable") || str_eq(
        name,
        "Encode",
    );
    let system = str_eq(name, "MIME::Base64") || str_eq(name, "Digest::MD5") || str_eq(name, "Digest::SHA")
        || str_eq(name, "IO::File") || str_eq(name, "IO::Handle") || str_eq(name, "Fcntl") || str_eq(
        name,
        "Socket",
    ) || str_eq(name, "Time::HiRes") || str_eq(name, "Time::Local") || str_eq(name, "Getopt::Long")
        || str_eq(name, "Pod::Usage");
    pragma || utility || system
}

/// The methods every Perl class inherits from UNIVERSAL.
pub open spec fn universal_method(name: Seq<char>) -> bool {
    name == "can"@ || name == "isa"@ || name == "DOES"@ || name == "VERSION"@
}

pub fn is_universal_method(name: &str) -> (r: bool)
    ensures
        r == universal_method(name@),
{
    str_eq(name, "can") || str_eq(name, "isa") || str_eq(name, "DOES") || str_eq(name, "VERSION")
}

/// The application namespace of a Mojolicious package: the trimmed
/// package name without a trailing `::App`; none for a blank name.
pub open spec fn app_root(package: Seq<char>) -> Option<Seq<char>> {
    let t = trimmed(package);
    if t.len() == 0 {
        None
    } else if "::App"@.is_suffix_of(t) {
        Some(t.take(t.len() - 5))
    } else {
        Some(t)
    }
}

pub fn mojolicious_app_root(current_package: &str) -> (r: Option<String>)
    ensures
        match r {
            Some(s) => app_root(current_package@) == Some(s@),
            None => app_root(current_package@) is None,
        },
{
    let chars = str_chars(current_package);
    let t = trim_chars(&chars);
    let n = t.len();
    if n == 0 {
        return None;
    }
    proof {
        reveal_strlit("::App");
    }
    let suffix = n >= 5 && t[n - 5] == ':' && t[n - 4] == ':' && t[n - 3] == 'A' && t[n - 2] == 'p' && t[n
        - 1] == 'p';
    if suffix {
        assert(t@.subrange(n - 5, n as int) =~= "::App"@);
        let mut out: Vec<char> = Vec::new();
        let mut i: usize = 0;
        while i < n - 5
            invariant
                n == t.len(),
                n >= 5,
                i <= n - 5,
                out@ == t@.take(i as int),
            decreases n - 5 - i,
        {
            out.push(t[i]);
            i = i + 1;
            assert(out@ =~= t@.take(i as int));
        }
        Some(string_from_chars(out.as_slice()))
    } else {
        assert(!"::App"@.is_suffix_of(t@)) by {
            if "::App"@.is_suffix_of(t@) {
                assert(t@.subrange(n - 5, n as int) =~= "::App"@);
                assert(t@[n - 5] == "::App"@[0]);
                assert(t@[n - 4] == "::App"@[1]);
                assert(t@[n - 3] == "::App"@[2]);
                assert(t@[n - 2] == "::App"@[3]);
                assert(t@[n - 1] == "::App"@[4]);
            }
        }
        Some(string_from_chars(t.as_slice()))
    }
}

/// `s` without every leading and trailing `c`.
pub open spec fn strip_char(s: Seq<char>, c: char) -> Seq<char>
    decreases s.len(),
{
    if s.len() > 0 && s[0] == c {
        strip_char(s.drop_first(), c)
    } else if s.len() > 0 && s.last() == c {
        strip_char(s.drop_last(), c)
    } else {
        s
    }
}

/// The characters of `v` without every leading and trailing `c`.
fn strip_char_vec(v: &Vec<char>, c: char) -> (r: Vec<char>)
    ensures
        r@ == strip_char(v@, c),
{
    let ghost s = v@;
    let mut lo: usize = 0;
    let mut hi: usize = v.len();
    assert(s.subrange(0, s.len() as int) =~= s);
    while lo < hi && (v[lo] == c || v[hi - 1] == c)
        invariant
            s == v@,
            lo <= hi <= v.len(),
            strip_char(s, c) == strip_char(s.subrange(lo as int, hi as int), c),
        decreases hi - lo,
    {
        let ghost cur = s.subrange(lo as int, hi as int);
        if v[lo] == c {
            assert(cur.drop_first() =~= s.subrange(lo + 1, hi as int));
            lo = lo + 1;
        } else {
            assert(cur.drop_last() =~= s.subrange(lo as int, hi - 1));
            hi = hi - 1;
        }
    }
    let mut out: Vec<char> = Vec::new();
    let mut i = lo;
    while i < hi
        invariant
            lo <= i <= hi <= v.len(),
            out@ == v@.subrange(lo as int, i as int),
        decreases hi - i,
    {
        out.push(v[i]);
        i = i + 1;
        assert(out@ =~= v@.subrange(lo as int, i as int));
    }
    out
}

/// A controller reference as written: trimmed, without surrounding single
/// then double quotes, trimmed again.
pub open spec fn controller_text(raw: Seq<char>) -> Seq<char> {
    trimmed(strip_char(strip_char(trimmed(raw), '\''), '"'))
}

/// The pieces of `s` between the separators `::`, `/` and `-`, read from
/// left to right.
pub open spec fn split_controller(s: Seq<char>) -> Seq<Seq<char>>
    decreases s.len(),
{
    if s.len() == 0 {
        seq![Seq::empty()]
    } else if s.len() >= 2 && s[0] == ':' && s[1] == ':' {
        seq![Seq::empty()] + split_controller(s.skip(2))
    } else if s[0] == '/' || s[0] == '-' {
        seq![Seq::empty()] + split_controller(s.skip(1))
    } else {
        let r = split_controller(s.skip(1));
        r.update(0, seq![s[0]] + r[0])
    }
}

proof fn lemma_split_controller_nonempty(s: Seq<char>)
    ensures
        split_controller(s).len() >= 1,
    decreases s.len(),
{
    if s.len() > 0 {
        if s.len() >= 2 && s[0] == ':' && s[1] == ':' {
        } else if s[0] == '/' || s[0] == '-' {
        } else {
            lemma_split_controller_nonempty(s.skip(1));
        }
    }
}

/// The characters that `char::to_uppercase` yields for `c`.
pub uninterp spec fn upper_case(c: char) -> Seq<char>;

/// `char::to_uppercase`, collected into a string. The contract claims only
/// that the result is a function of `c`, named `upper_case`; the Unicode
/// case mapping itself is left to std.
#[verifier::external_body]
fn char_to_uppercase(c: char) -> (r: String)
    ensures
        r@ == upper_case(c),
{
    c.to_uppercase().collect()
}

/// A segment in CamelCase: each `_` is dropped and the character after it,
/// like the first character, is put in upper case.
pub open spec fn camel_from(s: Seq<char>, cap: bool) -> Seq<char>
    decreases s.len(),
{
    if s.len() == 0 {
        Seq::empty()
    } else if s[0] == '_' {
        camel_from(s.drop_first(), true)
    } else if cap {
        upper_case(s[0]) + camel_from(s.drop_first(), false)
    } else {
        seq![s[0]] + camel_from(s.drop_first(), false)
    }
}

/// The controller segment that a piece gives: trimmed, then in CamelCase.
pub open spec fn segment_of(piece: Seq<char>) -> Seq<char> {
    camel_from(trimmed(piece), true)
}

/// The segments of the pieces that are not empty.
pub open spec fn controller_segments(pieces: Seq<Seq<char>>) -> Seq<Seq<char>>
    decreases pieces.len(),
{
    if pieces.len() == 0 {
        Seq::empty()
    } else {
        let rest = controller_segments(pieces.drop_last());
        let seg = segment_of(pieces.last());
        if seg.len() == 0 {
            rest
        } else {
            rest.push(seg)
        }
    }
}

/// The package name of a Mojolicious controller reference, relative to
/// the application's `Controller` namespace: `my_app-user_admin` gives
/// `MyApp::UserAdmin`; none when no segment is left.
pub open spec fn controller_name(raw: Seq<char>) -> Option<Seq<char>> {
    let t = controller_text(raw);
    let segs = controller_segments(split_controller(t));
    if t.len() == 0 || segs.len() == 0 {
        None
    } else {
        Some(joined(segs, "::"@))
    }
}

fn camelize(v: &Vec<char>) -> (r: String)
    ensures
        r@ == camel_from(v@, true),
{
    let mut out = String::new();
    let mut cap = true;
    let mut j: usize = 0;
    assert(v@.skip(0) =~= v@);
    while j < v.len()
        invariant
            j <= v.len(),
            camel_from(v@, true) == out@ + camel_from(v@.skip(j as int), cap),
        decreases v.len() - j,
    {
        let ch = v[j];
        let ghost rest = v@.skip(j as int);
        assert(rest.drop_first() =~= v@.skip(j + 1));
        assert(rest[0] == ch);
        if ch == '_' {
            cap = true;
        } else if cap {
            let up = char_to_uppercase(ch);
            out.append(up.as_str());
            cap = false;
        } else {
            string_push(&mut out, ch);
            cap = false;
        }
        j = j + 1;
    }
    assert(v@.skip(v.len() as int) =~= Seq::<char>::empty());
    assert(out@ + Seq::<char>::empty() =~= out@);
    out
}

/// Adds the segment of `piece` when it is not empty.
fn finish_piece(segments: &mut Vec<String>, piece: &Vec<char>)
    ensures
        string_views(final(segments)@) == if segment_of(piece@).len() == 0 {
            string_views(old(segments)@)
        } else {
            string_views(old(segments)@).push(segment_of(piece@))
        },
{
    let t = trim_chars(piece);
    let seg = camelize(&t);
    let ghost before = string_views(segments@);
    if seg.as_str().unicode_len() > 0 {
        segments.push(seg);
        assert(string_views(segments@) =~= before.push(segment_of(piece@)));
    }
}

pub open spec fn prefix_first(r: Seq<Seq<char>>, cur: Seq<char>) -> Seq<Seq<char>> {
    r.update(0, cur + r[0])
}

pub fn normalize_mojolicious_controller_name(raw: &str) -> (r: Option<String>)
    ensures
        match r {
            Some(s) => controller_name(raw@) == Some(s@),
            None => controller_name(raw@) is None,
        },
{
    let chars = str_chars(raw);
    let a = trim_chars(&chars);
    let b = strip_char_vec(&a, '\'');
    let c = strip_char_vec(&b, '"');
    let t = trim_chars(&c);
    if t.len() == 0 {
        return None;
    }
    let mut segments: Vec<String> = Vec::new();
    let mut cur: Vec<char> = Vec::new();
    let ghost mut done: Seq<Seq<char>> = Seq::empty();
    let mut i: usize = 0;
    proof {
        assert(t@.skip(0) =~= t@);
        lemma_split_controller_nonempty(t@);
        assert(prefix_first(split_controller(t@), Seq::empty()) =~= split_controller(t@));
        assert(done + split_controller(t@) =~= split_controller(t@));
    }
    while i < t.len()
        invariant
            i <= t.len(),
            split_controller(t@) == done + prefix_first(split_controller(t@.skip(i as int)), cur@),
            string_views(segments@) == controller_segments(done),
        decreases t.len() - i,
    {
        let ghost rest = t@.skip(i as int);
        if i + 1 < t.len() && t[i] == ':' && t[i + 1] == ':' {
            proof {
                assert(rest.skip(2) =~= t@.skip(i + 2));
                lemma_split_controller_nonempty(rest.skip(2));
                let x = split_controller(rest.skip(2));
                assert(prefix_first(seq![Seq::<char>::empty()] + x, cur@) =~= seq![cur@] + x);
                assert(prefix_first(x, Seq::<char>::empty()) =~= x);
                assert(done + (seq![cur@] + x) =~= done.push(cur@) + prefix_first(x, Seq::<char>::empty()));
                assert(done.push(cur@).drop_last() =~= done);
            }
            finish_piece(&mut segments, &cur);
            proof {
                done = done.push(cur@);
            }
            cur = Vec::new();
            i = i + 2;
        } else if t[i] == '/' || t[i] == '-' {
            proof {
                assert(rest.skip(1) =~= t@.skip(i + 1));
                lemma_split_controller_nonempty(rest.skip(1));
                let x = split_controller(rest.skip(1));
                assert(prefix_first(seq![Seq::<char>::empty()] + x, cur@) =~= seq![cur@] + x);
                assert(prefix_first(x, Seq::<char>::empty()) =~= x);
                assert(done + (seq![cur@] + x) =~= done.push(cur@) + prefix_first(x, Seq::<char>::empty()));
                assert(done.push(cur@).drop_last() =~= done);
            }
            finish_piece(&mut segments, &cur);
            proof {
                done = done.push(cur@);
            }
            cur = Vec::new();
            i = i + 1;
        } else {
            proof {
                assert(rest.skip(1) =~= t@.skip(i + 1));
                lemma_split_controller_nonempty(rest.skip(1));
                let x = split_controller(rest.skip(1));
                assert(rest[0] == t@[i as int]);
                assert(cur@ + (seq![t@[i as int]] + x[0]) =~= cur@.push(t@[i as int]) + x[0]);
                assert(prefix_first(x.update(0, seq![t@[i as int]] + x[0]), cur@) =~= prefix_first(
                    x,
                    cur@.push(t@[i as int]),
                ));
            }
            cur.push(t[i]);
            i = i + 1;
        }
    }
    proof {
        assert(t@.skip(t.len() as int) =~= Seq::<char>::empty());
        assert(prefix_first(seq![Seq::<char>::empty()], cur@) =~= seq![cur@]);
        assert(done + seq![cur@] =~= done.push(cur@));
        assert(done.push(cur@).drop_last() =~= done);
    }
    finish_piece(&mut segments, &cur);
    if segments.len() == 0 {
        None
    } else {
        Some(join_strings(&segments, "::"))
    }
}

} // verus!

verus! {

/// A match of a route pattern: the byte span of the whole match, and the
/// byte span and text of its controller and of its action.
pub struct RouteMatch {
    pub whole: (usize, usize),
    pub controller: (usize, usize, String),
    pub action: (usize, usize, String),
}

/// A route match as plain values.
pub open spec fn route_view(m: RouteMatch) -> (nat, nat, nat, nat, Seq<char>, nat, nat, Seq<char>) {
    (
        m.whole.0 as nat,
        m.whole.1 as nat,
        m.controller.0 as nat,
        m.controller.1 as nat,
        m.controller.2@,
        m.action.0 as nat,
        m.action.1 as nat,
        m.action.2@,
    )
}

/// The matches, in order, of the `regex` crate's `pattern` in `text`, with
/// the spans of their `controller` and `action` groups.
pub uninterp spec fn route_matches(pattern: Seq<char>, text: Seq<char>) -> Seq<(nat, nat, nat, nat, Seq<char>, nat, nat, Seq<char>)>;

/// `regex::Regex::captures_iter` with `pattern` on `text`, reading the
/// named groups `controller` and `action`; the contract claims only that
/// the matches are a function of the pattern and the text, named
/// `route_matches` (a pattern that does not compile has none).
#[verifier::external_body]
fn find_route_matches(pattern: &str, text: &str) -> (r: Vec<RouteMatch>)
    ensures
        r@.map_values(|m: RouteMatch| route_view(m)) == route_matches(pattern@, text@),
{
    match regex::Regex::new(pattern) {
        Ok(re) => re.captures_iter(text).map(|c| {
            let g = |n: &str| c.name(n).map_or((0, 0, String::new()), |m| (m.start(), m.end(), m.as_str().to_string()));
            RouteMatch { whole: c.get(0).map_or((0, 0), |m| (m.start(), m.end())), controller: g("controller"), action: g("action") }
        }).collect(),
        Err(_) => Vec::new(),
    }
}

/// `->to('controller#action')`.
pub const MOJO_STRING_ROUTE: &'static str = r##"->\s*to\s*\(\s*['"](?P<controller>[^'"#]+)#(?P<action>[^'"]+)['"]\s*\)"##;

/// `->to(controller => '...', action => '...')`.
pub const MOJO_KV_ROUTE: &'static str = r#"->\s*to\s*\(\s*controller\s*=>\s*['"](?P<controller>[^'"]+)['"]\s*,\s*action\s*=>\s*['"](?P<action>[^'"]+)['"]\s*\)"#;

/// `->to(action => '...', controller => '...')`.
pub const MOJO_KV_ROUTE_ACTION_FIRST: &'static str = r#"->\s*to\s*\(\s*action\s*=>\s*['"](?P<action>[^'"]+)['"]\s*,\s*controller\s*=>\s*['"](?P<controller>[^'"]+)['"]\s*\)"#;

/// The cursor is inside the match, on its controller or on its action.
pub open spec fn cursor_on_route(m: (nat, nat, nat, nat, Seq<char>, nat, nat, Seq<char>), cursor: nat) -> bool {
    &&& m.0 <= cursor < m.1
    &&& (m.2 <= cursor < m.3) || (m.5 <= cursor < m.6)
}

/// The `(package, action)` pairs that the matches under the cursor name,
/// in order; a controller that normalizes to nothing names none.
pub open spec fn route_candidates(ms: Seq<(nat, nat, nat, nat, Seq<char>, nat, nat, Seq<char>)>, cursor: nat, root: Seq<char>) -> Seq<(Seq<char>, Seq<char>)>
    decreases ms.len(),
{
    if ms.len() == 0 {
        Seq::empty()
    } else {
        let rest = route_candidates(ms.drop_last(), cursor, root);
        let m = ms.last();
        if cursor_on_route(m, cursor) {
            match controller_name(m.4) {
                Some(c) => rest.push((root + "::Controller::"@ + c, m.7)),
                None => rest,
            }
        } else {
            rest
        }
    }
}

/// The definitions to look for, in order, for a Mojolicious route under
/// the cursor: for each `->to(...)` route around it (string form first,
/// then `controller => .., action => ..`, then the reverse order), the
/// action in the controller package of the application.
pub open spec fn mojolicious_route_targets(package: Seq<char>, text: Seq<char>, cursor: nat) -> Seq<(Seq<char>, Seq<char>)> {
    match app_root(package) {
        None => Seq::empty(),
        Some(root) => route_candidates(route_matches(MOJO_STRING_ROUTE@, text), cursor, root)
            + route_candidates(route_matches(MOJO_KV_ROUTE@, text), cursor, root)
            + route_candidates(route_matches(MOJO_KV_ROUTE_ACTION_FIRST@, text), cursor, root),
    }
}

pub open spec fn pair_views(v: Seq<(String, String)>) -> Seq<(Seq<char>, Seq<char>)> {
    v.map_values(|p: (String, String)| (p.0@, p.1@))
}

fn add_route_candidates(out: &mut Vec<(String, String)>, pattern: &str, text: &str, cursor: usize, root: &str)
    ensures
        pair_views(final(out)@) == pair_views(old(out)@) + route_candidates(route_matches(pattern@, text@), cursor as nat, root@),
{
    let matches = find_route_matches(pattern, text);
    let ghost views = matches@.map_values(|m: RouteMatch| route_view(m));
    let ghost start = pair_views(out@);
    let mut i: usize = 0;
    while i < matches.len()
        invariant
            i <= matches.len(),
            views == matches@.map_values(|m: RouteMatch| route_view(m)),
            views == route_matches(pattern@, text@),
            pair_views(out@) == start + route_candidates(views.take(i as int), cursor as nat, root@),
        decreases matches.len() - i,
    {
        let m = &matches[i];
        assert(views.take(i + 1).drop_last() =~= views.take(i as int));
        assert(views.take(i + 1).last() == route_view(*m));
        let on_route = m.whole.0 <= cursor && cursor < m.whole.1 && ((m.controller.0 <= cursor && cursor < m.controller.1) || (
        m.action.0 <= cursor && cursor < m.action.1));
        if on_route {
            match normalize_mojolicious_controller_name(m.controller.2.as_str()) {
                Some(c) => {
                    let mut package = crate::text::owned(root);
                    package.append("::Controller::");
                    package.append(c.as_str());
                    let ghost before = pair_views(out@);
                    out.push((package, crate::text::owned(m.action.2.as_str())));
                    assert(pair_views(out@) =~= before.push((root@ + "::Controller::"@ + c@, m.action.2@)));
                },
                None => {},
            }
        }
        i = i + 1;
    }
    assert(views.take(matches.len() as int) =~= views);
}

/// The definitions to look for, in order, for the Mojolicious route under
/// byte `cursor_in_text` of `text_around`, in a file of `current_package`;
/// the first that the workspace index knows is the definition.
pub fn mojolicious_route_candidates(current_package: &str, text_around: &str, cursor_in_text: usize) -> (r: Vec<(String, String)>)
    ensures
        pair_views(r@) == mojolicious_route_targets(current_package@, text_around@, cursor_in_text as nat),
{
    let mut out: Vec<(String, String)> = Vec::new();
    let root = match mojolicious_app_root(current_package) {
        Some(r) => r,
        None => {
            assert(pair_views(out@) =~= Seq::<(Seq<char>, Seq<char>)>::empty());
            return out;
        },
    };
    assert(pair_views(out@) =~= Seq::<(Seq<char>, Seq<char>)>::empty());
    add_route_candidates(&mut out, MOJO_STRING_ROUTE, text_around, cursor_in_text, root.as_str());
    add_route_candidates(&mut out, MOJO_KV_ROUTE, text_around, cursor_in_text, root.as_str());
    add_route_candidates(&mut out, MOJO_KV_ROUTE_ACTION_FIRST, text_around, cursor_in_text, root.as_str());
    assert(Seq::<(Seq<char>, Seq<char>)>::empty() + route_candidates(route_matches(MOJO_STRING_ROUTE@, text_around@), cursor_in_text as nat, root@) =~= route_candidates(route_matches(MOJO_STRING_ROUTE@, text_around@), cursor_in_text as nat, root@));
    out
}

} // verus!

verus! {

/// The matches, in order, of the `regex` crate's `pattern` in `text`, as
/// the byte span and text of their first group; `None` when the pattern
/// does not compile.
pub uninterp spec fn group_matches(pattern: Seq<char>, text: Seq<char>) -> Option<Seq<(nat, nat, Seq<char>)>>;

pub open spec fn group_views(v: Seq<(usize, usize, String)>) -> Seq<(nat, nat, Seq<char>)> {
    v.map_values(|g: (usize, usize, String)| (g.0 as nat, g.1 as nat, g.2@))
}

/// `regex::Regex::captures_iter` with `pattern` on `text`, reading the
/// first group of each match; the contract claims only that the result is
/// a function of the pattern and the text, named `group_matches`.
#[verifier::external_body]
pub(crate) fn find_group_matches(pattern: &str, text: &str) -> (r: Option<Vec<(usize, usize, String)>>)
    ensures
        match r {
            Some(v) => group_matches(pattern@, text@) == Some(group_views(v@)),
            None => group_matches(pattern@, text@) is None,
        },
{
    match regex::Regex::new(pattern) {
        Ok(re) => Some(re.captures_iter(text).map(|c| c.get(1).map_or((0, 0, String::new()), |m| (m.start(), m.end(), m.as_str().to_string()))).collect()),
        Err(_) => None,
    }
}

/// A label declared at the start of a line: `NAME:`.
pub const LABEL_DECLARATION: &'static str = r"(?m)^\s*([A-Za-z_][A-Za-z0-9_]*)\s*:";

/// The span of the first declaration of `label` among the matches.
pub open spec fn first_label(ms: Seq<(nat, nat, Seq<char>)>, label: Seq<char>) -> Option<(nat, nat)>
    decreases ms.len(),
{
    if ms.len() == 0 {
        None
    } else if ms[0].2 == label {
        Some((ms[0].0, ms[0].1))
    } else {
        first_label(ms.drop_first(), label)
    }
}

/// The byte span of the name in the first declaration of `label` in `text`;
/// an internal error when the label pattern does not compile.
pub fn find_label_declaration_span(text: &str, label: &str) -> (r: Result<Option<(usize, usize)>, crate::lifecycle::JsonRpcError>)
    ensures
        match group_matches(LABEL_DECLARATION@, text@) {
            Some(ms) => match first_label(ms, label@) {
                Some((s, e)) => r matches Ok(Some(x)) && x.0 == s && x.1 == e,
                None => r matches Ok(None),
            },
            None => r matches Err(err) && err.code == crate::lifecycle::INTERNAL_ERROR,
        },
{
    let ms = match find_group_matches(LABEL_DECLARATION, text) {
        Some(ms) => ms,
        None => {
            return Err(crate::lifecycle::JsonRpcError {
                code: crate::lifecycle::INTERNAL_ERROR,
                message: crate::text::owned("Failed to initialize label declaration regex"),
                data: None,
            });
        },
    };
    let ghost all = group_views(ms@);
    let mut i: usize = 0;
    assert(all.skip(0) =~= all);
    while i < ms.len()
        invariant
            i <= ms.len(),
            all == group_views(ms@),
            group_matches(LABEL_DECLARATION@, text@) == Some(all),
            first_label(all, label@) == first_label(all.skip(i as int), label@),
        decreases ms.len() - i,
    {
        assert(all.skip(i as int).drop_first() =~= all.skip(i + 1));
        assert(all.skip(i as int)[0] == all[i as int]);
        if str_eq(ms[i].2.as_str(), label) {
            return Ok(Some((ms[i].0, ms[i].1)));
        }
        i = i + 1;
    }
    Ok(None)
}

} // verus!

verus! {

/// A `goto LABEL` statement; the group is the label.
pub const GOTO_LABEL: &'static str = r"\bgoto\s+([A-Za-z_][A-Za-z0-9_]*)";

/// A package name followed by `->`; the group is the package name.
pub const PACKAGE_ARROW: &'static str = r"([A-Za-z_][A-Za-z0-9_]*(?:::[A-Za-z_][A-Za-z0-9_]*)*)\s*->";

/// The match spans the cursor, both ends included.
pub open spec fn covers(m: (nat, nat, Seq<char>), cursor: nat) -> bool {
    m.0 <= cursor <= m.1
}

/// Some match spans the cursor.
pub open spec fn any_covering(ms: Seq<(nat, nat, Seq<char>)>, cursor: nat) -> bool {
    exists|j: int| 0 <= j < ms.len() && covers(#[trigger] ms[j], cursor)
}

/// The text of the first match that spans the cursor.
pub open spec fn first_covering(ms: Seq<(nat, nat, Seq<char>)>, cursor: nat) -> Option<Seq<char>>
    decreases ms.len(),
{
    if ms.len() == 0 {
        None
    } else if covers(ms[0], cursor) {
        Some(ms[0].2)
    } else {
        first_covering(ms.drop_first(), cursor)
    }
}

/// The declaration span of the first `goto` label under the cursor that is
/// declared somewhere, `ds` being the label declarations of the document.
pub open spec fn goto_target(gs: Seq<(nat, nat, Seq<char>)>, ds: Seq<(nat, nat, Seq<char>)>, cursor: nat) -> Option<(nat, nat)>
    decreases gs.len(),
{
    if gs.len() == 0 {
        None
    } else if covers(gs[0], cursor) && first_label(ds, gs[0].2) is Some {
        first_label(ds, gs[0].2)
    } else {
        goto_target(gs.drop_first(), ds, cursor)
    }
}

fn regex_error(message: &str) -> (e: crate::lifecycle::JsonRpcError)
    ensures
        e.code == crate::lifecycle::INTERNAL_ERROR,
{
    crate::lifecycle::JsonRpcError { code: crate::lifecycle::INTERNAL_ERROR, message: crate::text::owned(message), data: None }
}

/// The text of the first match of `pattern` (its first group) that spans
/// the cursor; an internal error when the pattern does not compile.
fn group_at(pattern: &str, text_around: &str, cursor_in_text: usize, failure: &str) -> (r: Result<Option<String>, crate::lifecycle::JsonRpcError>)
    ensures
        match group_matches(pattern@, text_around@) {
            Some(ms) => match first_covering(ms, cursor_in_text as nat) {
                Some(name) => r matches Ok(Some(s)) && s@ == name,
                None => r matches Ok(None),
            },
            None => r matches Err(e) && e.code == crate::lifecycle::INTERNAL_ERROR,
        },
{
    let ms = match find_group_matches(pattern, text_around) {
        Some(ms) => ms,
        None => return Err(regex_error(failure)),
    };
    let ghost all = group_views(ms@);
    let mut i: usize = 0;
    assert(all.skip(0) =~= all);
    while i < ms.len()
        invariant
            i <= ms.len(),
            all == group_views(ms@),
            group_matches(pattern@, text_around@) == Some(all),
            first_covering(all, cursor_in_text as nat) == first_covering(all.skip(i as int), cursor_in_text as nat),
        decreases ms.len() - i,
    {
        assert(all.skip(i as int).drop_first() =~= all.skip(i + 1));
        assert(all.skip(i as int)[0] == all[i as int]);
        if ms[i].0 <= cursor_in_text && cursor_in_text <= ms[i].1 {
            return Ok(Some(crate::text::owned(ms[i].2.as_str())));
        }
        i = i + 1;
    }
    Ok(None)
}

/// The package name of a `Package->` call under the cursor in the text
/// around it; an internal error when the pattern does not compile.
pub fn package_arrow_target_at(text_around: &str, cursor_in_text: usize) -> (r: Result<Option<String>, crate::lifecycle::JsonRpcError>)
    ensures
        match group_matches(PACKAGE_ARROW@, text_around@) {
            Some(ms) => match first_covering(ms, cursor_in_text as nat) {
                Some(name) => r matches Ok(Some(s)) && s@ == name,
                None => r matches Ok(None),
            },
            None => r matches Err(e) && e.code == crate::lifecycle::INTERNAL_ERROR,
        },
{
    group_at(PACKAGE_ARROW, text_around, cursor_in_text, "Failed to initialize package navigation regex")
}

/// A `SUPER::method` call; the group is the method name.
pub const SUPER_METHOD: &'static str = r"\bSUPER::([A-Za-z_][A-Za-z0-9_]*)";

/// A possibly qualified name; the group is the whole name.
pub const QUALIFIED_NAME: &'static str = r"([A-Za-z_][A-Za-z0-9_]*(?:::[A-Za-z_][A-Za-z0-9_]*)*)";

/// The method of a `SUPER::method` call under the cursor; an internal
/// error when the pattern does not compile.
pub fn super_method_at(text_around: &str, cursor_in_text: usize) -> (r: Result<Option<String>, crate::lifecycle::JsonRpcError>)
    ensures
        match group_matches(SUPER_METHOD@, text_around@) {
            Some(ms) => match first_covering(ms, cursor_in_text as nat) {
                Some(name) => r matches Ok(Some(s)) && s@ == name,
                None => r matches Ok(None),
            },
            None => r matches Err(e) && e.code == crate::lifecycle::INTERNAL_ERROR,
        },
{
    group_at(SUPER_METHOD, text_around, cursor_in_text, "Failed to initialize SUPER method-call regex")
}

/// A qualified name split at its last `::` into package and name; `None`
/// for a name without `::`.
pub open spec fn split_qualified(full: Seq<char>) -> Option<(Seq<char>, Seq<char>)> {
    match crate::signature_help::last_separator(full, full.len() - 2) {
        Some(k) => Some((full.take(k), full.skip(k + 2))),
        None => None,
    }
}

/// The package and name of the qualified name (`Package::name`) under the
/// cursor: the first name that spans the cursor, split at its last `::`
/// (`None` when it has none); an internal error when the pattern does not
/// compile.
pub fn qualified_name_at(text_around: &str, cursor_in_text: usize) -> (r: Result<Option<(String, String)>, crate::lifecycle::JsonRpcError>)
    ensures
        match group_matches(QUALIFIED_NAME@, text_around@) {
            Some(ms) => match first_covering(ms, cursor_in_text as nat) {
                Some(full) => match split_qualified(full) {
                    Some((p, n)) => r matches Ok(Some(x)) && x.0@ == p && x.1@ == n,
                    None => r matches Ok(None),
                },
                None => r matches Ok(None),
            },
            None => r matches Err(e) && e.code == crate::lifecycle::INTERNAL_ERROR,
        },
{
    let full = match group_at(QUALIFIED_NAME, text_around, cursor_in_text, "Failed to initialize fully-qualified symbol regex") {
        Ok(Some(f)) => f,
        Ok(None) => return Ok(None),
        Err(e) => return Err(e),
    };
    let chars = str_chars(full.as_str());
    match crate::signature_help::find_last_separator(&chars) {
        Some(k) => {
            proof { crate::signature_help::lemma_last_separator_bounds(chars@, chars@.len() - 2); }
            assert(k + 1 < chars.len());
            let pkg = string_from_chars(&chars.as_slice()[0..k]);
            let name = string_from_chars(&chars.as_slice()[k + 2..chars.len()]);
            assert(chars@.subrange(0, k as int) =~= full@.take(k as int));
            assert(chars@.subrange(k + 2, chars@.len() as int) =~= full@.skip(k + 2));
            Ok(Some((pkg, name)))
        },
        None => Ok(None),
    }
}

/// Where the label of a `goto LABEL` under the cursor is declared in
/// `text`: the first such statement whose label is declared gives the span
/// of the declaration's name. Internal errors come when the `goto` pattern
/// does not compile, or when a statement is under the cursor and the label
/// pattern does not compile.
pub fn goto_label_definition(text: &str, text_around: &str, cursor_in_text: usize) -> (r: Result<Option<(usize, usize)>, crate::lifecycle::JsonRpcError>)
    ensures
        match group_matches(GOTO_LABEL@, text_around@) {
            None => r matches Err(e) && e.code == crate::lifecycle::INTERNAL_ERROR,
            Some(gs) => if !any_covering(gs, cursor_in_text as nat) {
                r matches Ok(None)
            } else {
                match group_matches(LABEL_DECLARATION@, text@) {
                    None => r matches Err(e) && e.code == crate::lifecycle::INTERNAL_ERROR,
                    Some(ds) => match goto_target(gs, ds, cursor_in_text as nat) {
                        Some((s, e)) => r matches Ok(Some(x)) && x.0 == s && x.1 == e,
                        None => r matches Ok(None),
                    },
                }
            },
        },
{
    let gs = match find_group_matches(GOTO_LABEL, text_around) {
        Some(gs) => gs,
        None => return Err(regex_error("Failed to initialize goto label regex")),
    };
    let ghost all = group_views(gs@);
    let ghost ds_opt = group_matches(LABEL_DECLARATION@, text@);
    let ghost ds = match ds_opt {
        Some(d) => d,
        None => Seq::<(nat, nat, Seq<char>)>::empty(),
    };
    let ghost c = cursor_in_text as nat;
    let mut seen = false;
    let mut i: usize = 0;
    assert(all.skip(0) =~= all);
    while i < gs.len()
        invariant
            i <= gs.len(),
            all == group_views(gs@),
            group_matches(GOTO_LABEL@, text_around@) == Some(all),
            ds_opt == group_matches(LABEL_DECLARATION@, text@),
            ds == (match ds_opt { Some(d) => d, None => Seq::<(nat, nat, Seq<char>)>::empty() }),
            c == cursor_in_text as nat,
            seen <==> exists|j: int| 0 <= j < i && covers(#[trigger] all[j], c),
            seen ==> ds_opt is Some,
            goto_target(all, ds, c) == goto_target(all.skip(i as int), ds, c),
        decreases gs.len() - i,
    {
        assert(all.skip(i as int).drop_first() =~= all.skip(i + 1));
        assert(all.skip(i as int)[0] == all[i as int]);
        if gs[i].0 <= cursor_in_text && cursor_in_text <= gs[i].1 {
            assert(covers(all[i as int], c));
            match find_label_declaration_span(text, gs[i].2.as_str()) {
                Err(e) => {
                    assert(any_covering(all, c));
                    return Err(e);
                },
                Ok(Some(span)) => {
                    assert(any_covering(all, c));
                    return Ok(Some(span));
                },
                Ok(None) => {},
            }
            seen = true;
        }
        i = i + 1;
    }
    proof {
        if any_covering(all, c) {
            let j = choose|j: int| 0 <= j < all.len() && covers(#[trigger] all[j], c);
            assert(seen);
        }
    }
    Ok(None)
}

} // verus!

verus! {

/// The matches, in order, of the `regex` crate's `pattern` in `text`, as
/// the text of their first group and the byte span and text of their
/// second group; `None` when the pattern does not compile.
pub uninterp spec fn pair_matches(pattern: Seq<char>, text: Seq<char>) -> Option<Seq<(Seq<char>, nat, nat, Seq<char>)>>;

pub open spec fn method_views(v: Seq<(String, usize, usize, String)>) -> Seq<(Seq<char>, nat, nat, Seq<char>)> {
    v.map_values(|g: (String, usize, usize, String)| (g.0@, g.1 as nat, g.2 as nat, g.3@))
}

/// `regex::Regex::captures_iter` with `pattern` on `text`, reading the
/// text of the first group and the span and text of the second of each
/// match; the contract claims only that the result is a function of the
/// pattern and the text, named `pair_matches`.
#[verifier::external_body]
fn find_pair_matches(pattern: &str, text: &str) -> (r: Option<Vec<(String, usize, usize, String)>>)
    ensures
        match r {
            Some(v) => pair_matches(pattern@, text@) == Some(method_views(v@)),
            None => pair_matches(pattern@, text@) is None,
        },
{
    match regex::Regex::new(pattern) {
        Ok(re) => Some(re.captures_iter(text).map(|c| {
            let first = c.get(1).map_or(String::new(), |m| m.as_str().to_string());
            c.get(2).map_or((first.clone(), 0, 0, String::new()), |m| (first, m.start(), m.end(), m.as_str().to_string()))
        }).collect()),
        Err(_) => None,
    }
}

/// A `Package->method` call; the groups are the package and the method.
pub const ARROW_METHOD: &'static str = r"([A-Za-z_][A-Za-z0-9_]*(?:::[A-Za-z_][A-Za-z0-9_]*)*)\s*->\s*([A-Za-z_][A-Za-z0-9_]*)";

/// A `$var->method` call; the groups are the variable name (without its
/// sigil) and the method.
pub const VAR_METHOD: &'static str = r"\$([A-Za-z_][A-Za-z0-9_]*)\s*->\s*([A-Za-z_][A-Za-z0-9_]*)";

/// The receiver and method of the first match whose method spans the cursor.
pub open spec fn first_method_covering(ms: Seq<(Seq<char>, nat, nat, Seq<char>)>, cursor: nat) -> Option<(Seq<char>, Seq<char>)>
    decreases ms.len(),
{
    if ms.len() == 0 {
        None
    } else if ms[0].1 <= cursor <= ms[0].2 {
        Some((ms[0].0, ms[0].3))
    } else {
        first_method_covering(ms.drop_first(), cursor)
    }
}

fn method_call_at(pattern: &str, text_around: &str, cursor_in_text: usize, failure: &str) -> (r: Result<Option<(String, String)>, crate::lifecycle::JsonRpcError>)
    ensures
        match pair_matches(pattern@, text_around@) {
            Some(ms) => match first_method_covering(ms, cursor_in_text as nat) {
                Some((recv, m)) => r matches Ok(Some(x)) && x.0@ == recv && x.1@ == m,
                None => r matches Ok(None),
            },
            None => r matches Err(e) && e.code == crate::lifecycle::INTERNAL_ERROR,
        },
{
    let ms = match find_pair_matches(pattern, text_around) {
        Some(ms) => ms,
        None => return Err(regex_error(failure)),
    };
    let ghost all = method_views(ms@);
    let mut i: usize = 0;
    assert(all.skip(0) =~= all);
    while i < ms.len()
        invariant
            i <= ms.len(),
            all == method_views(ms@),
            pair_matches(pattern@, text_around@) == Some(all),
            first_method_covering(all, cursor_in_text as nat) == first_method_covering(all.skip(i as int), cursor_in_text as nat),
        decreases ms.len() - i,
    {
        assert(all.skip(i as int).drop_first() =~= all.skip(i + 1));
        assert(all.skip(i as int)[0] == all[i as int]);
        if ms[i].1 <= cursor_in_text && cursor_in_text <= ms[i].2 {
            return Ok(Some((crate::text::owned(ms[i].0.as_str()), crate::text::owned(ms[i].3.as_str()))));
        }
        i = i + 1;
    }
    Ok(None)
}

/// The package and method of a `Package->method` call whose method is
/// under the cursor; an internal error when the pattern does not compile.
pub fn arrow_method_at(text_around: &str, cursor_in_text: usize) -> (r: Result<Option<(String, String)>, crate::lifecycle::JsonRpcError>)
    ensures
        match pair_matches(ARROW_METHOD@, text_around@) {
            Some(ms) => match first_method_covering(ms, cursor_in_text as nat) {
                Some((p, m)) => r matches Ok(Some(x)) && x.0@ == p && x.1@ == m,
                None => r matches Ok(None),
            },
            None => r matches Err(e) && e.code == crate::lifecycle::INTERNAL_ERROR,
        },
{
    method_call_at(ARROW_METHOD, text_around, cursor_in_text, "Failed to initialize method-call regex")
}

/// The variable (without sigil) and method of a `$var->method` call whose
/// method is under the cursor; an internal error when the pattern does
/// not compile.
pub fn var_method_at(text_around: &str, cursor_in_text: usize) -> (r: Result<Option<(String, String)>, crate::lifecycle::JsonRpcError>)
    ensures
        match pair_matches(VAR_METHOD@, text_around@) {
            Some(ms) => match first_method_covering(ms, cursor_in_text as nat) {
                Some((v, m)) => r matches Ok(Some(x)) && x.0@ == v && x.1@ == m,
                None => r matches Ok(None),
            },
            None => r matches Err(e) && e.code == crate::lifecycle::INTERNAL_ERROR,
        },
{
    method_call_at(VAR_METHOD, text_around, cursor_in_text, "Failed to initialize variable method-call regex")
}

} // verus!
