//! Module resolution: search scopes, the workspace root of a document, and
//! the ordered include roots searched for a module.
use vstd::prelude::*;
use crate::lifecycle::LspServer;
use crate::text::{str_chars, str_eq, owned, string_from_chars};
use crate::uri::{uri_to_file_path, file_path_of_uri, path_is_absolute, absolute_path};

verus! {

/// A single resolution scope representing a workspace folder's search context.
///
/// Each workspace folder contributes its own include paths and system @INC
/// configuration to module resolution.
#[derive(Debug)]
pub struct ResolutionScope {
    /// The URI of workspace folder for this scope
    pub folder_uri: String,
    /// Include paths configured for this folder
    pub include_paths: Vec<String>,
    /// Whether to search system @INC for this scope
    pub use_system_inc: bool,
}

/// Unified resolution context for module resolution operations.
///
/// Provides ordered search scopes for consistent module resolution across
/// all LSP features (navigation, hover, completion, etc.).
#[derive(Debug)]
pub struct ResolutionContext {
    /// The document URI being resolved (if any)
    pub doc_uri: Option<String>,
    /// Ordered search scopes (current folder first, then others)
    pub search_scopes: Vec<ResolutionScope>,
}

/// Whether `std::path::Path::starts_with(path, base)` holds: `base` is a
/// leading run of whole components of `path`.
pub uninterp spec fn path_has_prefix(path: Seq<char>, base: Seq<char>) -> bool;

/// `std::path::Path::starts_with`; the contract claims only that the answer
/// is a function of both path texts, named `path_has_prefix`.
#[verifier::external_body]
fn path_starts_with(path: &str, base: &str) -> (r: bool)
    ensures
        r == path_has_prefix(path@, base@),
{
    std::path::Path::new(path).starts_with(base)
}

/// The number of components of a path, as `std::path::Path::components` counts them.
pub uninterp spec fn path_component_count(path: Seq<char>) -> nat;

/// Counts `std::path::Path::components`; the contract claims only that the
/// count is a function of the path text, named `path_component_count`.
#[verifier::external_body]
fn path_depth(path: &str) -> (r: usize)
    ensures
        r == path_component_count(path@),
{
    std::path::Path::new(path).components().count()
}

/// Among the workspace folders whose path contains the document path, the
/// first of the deepest, with its depth.
pub open spec fn deepest_folder(folders: Seq<Seq<char>>, doc_path: Seq<char>) -> Option<(Seq<char>, nat)>
    decreases folders.len(),
{
    if folders.len() == 0 {
        None
    } else {
        let best = deepest_folder(folders.drop_last(), doc_path);
        match file_path_of_uri(folders.last()) {
            Some(candidate) => if path_has_prefix(doc_path, candidate) {
                let depth = path_component_count(candidate);
                match best {
                    Some((b, d)) => if d >= depth {
                        best
                    } else {
                        Some((candidate, depth))
                    },
                    None => Some((candidate, depth)),
                }
            } else {
                best
            },
            None => best,
        }
    }
}

/// The workspace root of a document: the deepest workspace folder that
/// contains it, else the first workspace folder.
pub open spec fn workspace_root(folders: Seq<Seq<char>>, doc_uri: Option<Seq<char>>) -> Option<Seq<char>> {
    let doc_path = match doc_uri {
        Some(u) => file_path_of_uri(u),
        None => None,
    };
    let best = match doc_path {
        Some(p) => deepest_folder(folders, p),
        None => None,
    };
    match best {
        Some((b, _)) => Some(b),
        None => if folders.len() > 0 {
            file_path_of_uri(folders[0])
        } else {
            None
        },
    }
}

pub fn workspace_root_for_doc(workspace_folders: &Vec<String>, doc_uri: Option<&str>) -> (r: Option<String>)
    ensures
        crate::lifecycle::opt_views(r) == workspace_root(
            crate::lifecycle::views(workspace_folders@),
            match doc_uri {
                Some(u) => Some(u@),
                None => None,
            },
        ),
{
    let ghost folders = crate::lifecycle::views(workspace_folders@);
    let doc_path = match doc_uri {
        Some(u) => uri_to_file_path(u),
        None => None,
    };
    if let Some(dp) = &doc_path {
        let mut best: Option<(String, usize)> = None;
        let mut k: usize = 0;
        while k < workspace_folders.len()
            invariant
                k <= workspace_folders.len(),
                folders == crate::lifecycle::views(workspace_folders@),
                match best {
                    Some((b, d)) => deepest_folder(folders.take(k as int), dp@) == Some((b@, d as nat)),
                    None => deepest_folder(folders.take(k as int), dp@) is None,
                },
            decreases workspace_folders.len() - k,
        {
            assert(folders.take(k + 1).drop_last() =~= folders.take(k as int));
            assert(folders.take(k + 1).last() == workspace_folders@[k as int]@);
            if let Some(candidate) = uri_to_file_path(workspace_folders[k].as_str()) {
                if path_starts_with(dp.as_str(), candidate.as_str()) {
                    let depth = path_depth(candidate.as_str());
                    let keep = match &best {
                        Some((_, d)) => *d >= depth,
                        None => false,
                    };
                    if !keep {
                        best = Some((candidate, depth));
                    }
                }
            }
            k = k + 1;
        }
        assert(folders.take(workspace_folders.len() as int) =~= folders);
        if let Some((b, _)) = best {
            return Some(b);
        }
    }
    if workspace_folders.len() > 0 {
        uri_to_file_path(workspace_folders[0].as_str())
    } else {
        None
    }
}

impl LspServer {
    /// The root that module resolution searches from: the workspace root of
    /// the document, else the server's root path.
    pub fn resolution_root(&self, doc_uri: Option<&str>) -> (r: Option<String>)
        ensures
            crate::lifecycle::opt_views(r) == match workspace_root(
                crate::lifecycle::views(self.workspace_folders@),
                match doc_uri {
                    Some(u) => Some(u@),
                    None => None,
                },
            ) {
                Some(root) => Some(root),
                None => crate::lifecycle::opt_views(self.root_path),
            },
    {
        match workspace_root_for_doc(&self.workspace_folders, doc_uri) {
            Some(root) => Some(root),
            None => match &self.root_path {
                Some(p) => Some(owned(p.as_str())),
                None => None,
            },
        }
    }
}

/// `s` without its trailing `/` characters.
pub open spec fn trim_trailing_slashes(s: Seq<char>) -> Seq<char>
    decreases s.len(),
{
    if s.len() > 0 && s.last() == '/' {
        trim_trailing_slashes(s.drop_last())
    } else {
        s
    }
}

/// The key under which include roots are compared: backslashes read as
/// slashes, and trailing slashes dropped (the root `/` stays as it is).
pub open spec fn inc_key(path: Seq<char>) -> Seq<char> {
    let n = path.map_values(|c: char| if c == '\\' { '/' } else { c });
    if n == seq!['/'] {
        n
    } else {
        trim_trailing_slashes(n)
    }
}

pub fn normalized_inc_key(path: &str) -> (r: String)
    ensures
        r@ == inc_key(path@),
{
    let chars = str_chars(path);
    let mut n: Vec<char> = Vec::new();
    let mut i: usize = 0;
    while i < chars.len()
        invariant
            chars@ == path@,
            i <= chars.len(),
            n@ == path@.take(i as int).map_values(|c: char| if c == '\\' { '/' } else { c }),
        decreases chars.len() - i,
    {
        let c = chars[i];
        n.push(if c == '\\' { '/' } else { c });
        i = i + 1;
        assert(n@ =~= path@.take(i as int).map_values(|c: char| if c == '\\' { '/' } else { c }));
    }
    assert(path@.take(path@.len() as int) =~= path@);
    if n.len() == 1 && n[0] == '/' {
        assert(n@ =~= seq!['/']);
        return string_from_chars(n.as_slice());
    }
    let ghost full = n@;
    let mut end = n.len();
    assert(full.take(end as int) =~= full);
    while end > 0 && n[end - 1] == '/'
        invariant
            end <= n.len(),
            n@ == full,
            trim_trailing_slashes(full) == trim_trailing_slashes(full.take(end as int)),
        decreases end,
    {
        assert(full.take(end as int).drop_last() =~= full.take(end - 1));
        end = end - 1;
    }
    let mut out: Vec<char> = Vec::new();
    let mut j: usize = 0;
    while j < end
        invariant
            end <= n.len(),
            j <= end,
            out@ == n@.take(j as int),
        decreases end - j,
    {
        out.push(n[j]);
        j = j + 1;
        assert(out@ =~= n@.take(j as int));
    }
    assert(trim_trailing_slashes(full.take(end as int)) == full.take(end as int));
    assert(!(full =~= seq!['/']));
    string_from_chars(out.as_slice())
}

/// Where an include root comes from.
#[derive(Clone, Copy, Debug, PartialEq, Eq, Structural)]
pub enum IncRootKind {
    /// A relative `use lib` path of the document.
    FileLocalLexical,
    /// A relative include path of the workspace.
    WorkspaceRelative,
    /// An absolute path.
    ExternalAbsolute,
    /// A directory of the interpreter's own `@INC`.
    InterpreterStartup,
}

/// One directory searched for modules, with its rank (lower first).
#[derive(Debug)]
pub struct IncRoot {
    pub kind: IncRootKind,
    pub path: String,
    pub precedence: usize,
    pub source: String,
}

/// A candidate root: its path, kind and source label.
pub struct IncCandidate {
    pub path: Seq<char>,
    pub kind: IncRootKind,
    pub source: Seq<char>,
}

/// The candidates, in search order: the document's `use lib` paths, the
/// workspace include paths, then the interpreter's paths.
pub open spec fn inc_candidates(include_paths: Seq<Seq<char>>, lexical_paths: Seq<Seq<char>>, system_paths: Seq<Seq<char>>) -> Seq<IncCandidate> {
    tagged(lexical_paths, IncRootKind::FileLocalLexical, "use-lib-lexical"@, true)
        + tagged(include_paths, IncRootKind::WorkspaceRelative, "workspace-include-paths"@, true)
        + tagged(system_paths, IncRootKind::InterpreterStartup, "interpreter-startup-inc"@, false)
}

/// The paths as candidates of one source: absolute paths (when they are
/// told apart) are external, the others of `relative_kind`.
pub open spec fn tagged(paths: Seq<Seq<char>>, relative_kind: IncRootKind, source: Seq<char>, check_absolute: bool) -> Seq<IncCandidate> {
    paths.map_values(|p: Seq<char>| IncCandidate {
        path: p,
        kind: if check_absolute && absolute_path(p) { IncRootKind::ExternalAbsolute } else { relative_kind },
        source: source,
    })
}

/// The candidates whose key was not seen earlier, in order (the first
/// occurrence of each key wins).
pub open spec fn first_occurrences(cands: Seq<IncCandidate>) -> Seq<IncCandidate>
    decreases cands.len(),
{
    if cands.len() == 0 {
        Seq::empty()
    } else {
        let kept = first_occurrences(cands.drop_last());
        if exists|i: int| 0 <= i < kept.len() && inc_key(#[trigger] kept[i].path) == inc_key(cands.last().path) {
            kept
        } else {
            kept.push(cands.last())
        }
    }
}

/// `roots` lists `cands` in order, each ranked by its position.
pub open spec fn roots_are(roots: Seq<IncRoot>, cands: Seq<IncCandidate>) -> bool {
    &&& roots.len() == cands.len()
    &&& forall|i: int|
        #![trigger roots[i]]
        0 <= i < roots.len() ==> roots[i].path@ == cands[i].path && roots[i].kind == cands[i].kind
            && roots[i].source@ == cands[i].source && roots[i].precedence == i
}

pub open spec fn string_views(v: Seq<String>) -> Seq<Seq<char>> {
    v.map_values(|s: String| s@)
}

/// Append the roots of `paths` (of the given source) whose keys are new.
fn add_inc_roots(
    roots: &mut Vec<IncRoot>,
    keys: &mut Vec<String>,
    paths: &Vec<String>,
    relative_kind: IncRootKind,
    source: &str,
    check_absolute: bool,
    Ghost(before): Ghost<Seq<IncCandidate>>,
    Ghost(cands): Ghost<Seq<IncCandidate>>,
)
    requires
        roots_are(old(roots)@, first_occurrences(before)),
        string_views(old(keys)@) == first_occurrences(before).map_values(|c: IncCandidate| inc_key(c.path)),
        cands == tagged(string_views(paths@), relative_kind, source@, check_absolute),
        old(roots)@.len() + paths@.len() <= usize::MAX,
    ensures
        roots_are(final(roots)@, first_occurrences(before + cands)),
        string_views(final(keys)@) == first_occurrences(before + cands).map_values(|c: IncCandidate| inc_key(c.path)),
{
    let mut k: usize = 0;
    assert(before + cands.take(0) =~= before);
    while k < paths.len()
        invariant
            k <= paths.len(),
            cands.len() == paths@.len(),
            old(roots)@.len() + paths@.len() <= usize::MAX,
            first_occurrences(before).len() == old(roots)@.len(),
            roots_are(roots@, first_occurrences(before + cands.take(k as int))),
            string_views(keys@) == first_occurrences(before + cands.take(k as int)).map_values(|c: IncCandidate| inc_key(c.path)),
            roots@.len() <= old(roots)@.len() + k,
            cands == tagged(string_views(paths@), relative_kind, source@, check_absolute),
        decreases paths.len() - k,
    {
        let ghost prefix = before + cands.take(k as int);
        assert((before + cands.take(k + 1)).drop_last() =~= prefix);
        assert((before + cands.take(k + 1)).last() == cands[k as int]);
        let ghost kept = first_occurrences(prefix);
        let key = normalized_inc_key(paths[k].as_str());
        let mut seen = false;
        let mut i: usize = 0;
        assert(string_views(keys@).len() == keys@.len());
        assert(kept.map_values(|c: IncCandidate| inc_key(c.path)).len() == kept.len());
        while i < keys.len()
            invariant
                i <= keys.len(),
                string_views(keys@) == kept.map_values(|c: IncCandidate| inc_key(c.path)),
                keys@.len() == kept.len(),
                seen ==> exists|j: int| 0 <= j < kept.len() && inc_key(#[trigger] kept[j].path) == key@,
                !seen ==> forall|j: int| 0 <= j < i ==> inc_key(#[trigger] kept[j].path) != key@,
            decreases keys.len() - i,
        {
            assert(string_views(keys@)[i as int] == keys@[i as int]@);
            assert(kept.map_values(|c: IncCandidate| inc_key(c.path))[i as int] == inc_key(kept[i as int].path));
            if str_eq(keys[i].as_str(), key.as_str()) {
                seen = true;
            }
            i = i + 1;
        }
        if !seen {
            let kind = if check_absolute && path_is_absolute(paths[k].as_str()) {
                IncRootKind::ExternalAbsolute
            } else {
                relative_kind
            };
            let ghost roots_before = roots@;
            let ghost keys_before = keys@;
            let precedence = roots.len();
            roots.push(IncRoot { kind, path: owned(paths[k].as_str()), precedence, source: owned(source) });
            keys.push(key);
            assert(string_views(keys@) =~= string_views(keys_before).push(inc_key(cands[k as int].path)));
            assert(first_occurrences(before + cands.take(k + 1)) == kept.push(cands[k as int]));
            assert(string_views(keys@) =~= first_occurrences(before + cands.take(k + 1)).map_values(|c: IncCandidate| inc_key(c.path)));
            assert forall|j: int| #![trigger roots@[j]] 0 <= j < roots@.len() implies roots@[j].path@ == kept.push(cands[k as int])[j].path
                && roots@[j].kind == kept.push(cands[k as int])[j].kind
                && roots@[j].source@ == kept.push(cands[k as int])[j].source
                && roots@[j].precedence == j by {
                if j < roots_before.len() {
                    assert(roots@[j] == roots_before[j]);
                }
            }
        } else {
            assert(first_occurrences(before + cands.take(k + 1)) == kept);
        }
        k = k + 1;
    }
    assert(cands.take(paths.len() as int) =~= cands);
}

/// The include roots searched for a module, in order: the document's `use
/// lib` paths, the workspace include paths, then the interpreter's paths;
/// a path whose key (separators read as `/`, trailing `/` dropped) was seen
/// earlier is skipped, and each root is ranked by its position.
pub fn build_effective_inc_roots(include_paths: &Vec<String>, lexical_paths: &Vec<String>, system_paths: &Vec<String>) -> (r: Vec<IncRoot>)
    requires
        include_paths@.len() + lexical_paths@.len() + system_paths@.len() <= usize::MAX,
    ensures
        roots_are(
            r@,
            first_occurrences(
                inc_candidates(string_views(include_paths@), string_views(lexical_paths@), string_views(system_paths@)),
            ),
        ),
{
    let mut roots: Vec<IncRoot> = Vec::new();
    let mut keys: Vec<String> = Vec::new();
    let ghost lex = tagged(string_views(lexical_paths@), IncRootKind::FileLocalLexical, "use-lib-lexical"@, true);
    let ghost inc = tagged(string_views(include_paths@), IncRootKind::WorkspaceRelative, "workspace-include-paths"@, true);
    let ghost sys = tagged(string_views(system_paths@), IncRootKind::InterpreterStartup, "interpreter-startup-inc"@, false);
    assert(first_occurrences(Seq::<IncCandidate>::empty()).len() == 0);
    assert(string_views(keys@) =~= first_occurrences(Seq::<IncCandidate>::empty()).map_values(|c: IncCandidate| inc_key(c.path)));
    assert(Seq::<IncCandidate>::empty() + lex =~= lex);
    add_inc_roots(&mut roots, &mut keys, lexical_paths, IncRootKind::FileLocalLexical, "use-lib-lexical", true, Ghost(Seq::empty()), Ghost(lex));
    proof { lemma_first_occurrences_len(lex); }
    add_inc_roots(&mut roots, &mut keys, include_paths, IncRootKind::WorkspaceRelative, "workspace-include-paths", true, Ghost(lex), Ghost(inc));
    proof { lemma_first_occurrences_len(lex + inc); }
    add_inc_roots(&mut roots, &mut keys, system_paths, IncRootKind::InterpreterStartup, "interpreter-startup-inc", false, Ghost(lex + inc), Ghost(sys));
    assert(lex + inc + sys =~= inc_candidates(string_views(include_paths@), string_views(lexical_paths@), string_views(system_paths@)));
    roots
}

proof fn lemma_first_occurrences_len(c: Seq<IncCandidate>)
    ensures
        first_occurrences(c).len() <= c.len(),
    decreases c.len(),
{
    if c.len() > 0 {
        lemma_first_occurrences_len(c.drop_last());
    }
}

} // verus!

verus! {

/// No include root is searched twice: the roots have pairwise different
/// keys, and each root was the first candidate with its key.
pub proof fn lemma_include_roots_are_distinct(cands: Seq<IncCandidate>)
    ensures
        forall|i: int, j: int|
            0 <= i < j < first_occurrences(cands).len() ==> inc_key(#[trigger] first_occurrences(cands)[i].path)
                != inc_key(#[trigger] first_occurrences(cands)[j].path),
    decreases cands.len(),
{
    if cands.len() > 0 {
        lemma_include_roots_are_distinct(cands.drop_last());
    }
}

} // verus!

verus! {

/// `paths` with every entry equal to `p` left out, the others in order.
pub open spec fn without_path(paths: Seq<Seq<char>>, p: Seq<char>) -> Seq<Seq<char>>
    decreases paths.len(),
{
    if paths.len() == 0 {
        paths
    } else {
        let rest = without_path(paths.drop_last(), p);
        if paths.last() == p { rest } else { rest.push(paths.last()) }
    }
}

/// `p` first, then `paths` without it.
pub open spec fn moved_to_front(paths: Seq<Seq<char>>, p: Seq<char>) -> Seq<Seq<char>> {
    seq![p] + without_path(paths, p)
}

/// The include paths after the `use lib` paths `dynamic` were put in front
/// of them, the last one first, so that `dynamic[0]` ends up first.
pub open spec fn with_use_lib_paths(paths: Seq<Seq<char>>, dynamic: Seq<Seq<char>>) -> Seq<Seq<char>>
    decreases dynamic.len(),
{
    if dynamic.len() == 0 {
        paths
    } else {
        moved_to_front(with_use_lib_paths(paths, dynamic.drop_first()), dynamic[0])
    }
}

/// The include paths after the interpreter's paths `extra` were appended,
/// each one only where it is not there yet.
pub open spec fn with_new_paths(paths: Seq<Seq<char>>, extra: Seq<Seq<char>>) -> Seq<Seq<char>>
    decreases extra.len(),
{
    if extra.len() == 0 {
        paths
    } else {
        let before = with_new_paths(paths, extra.drop_last());
        if before.contains(extra.last()) { before } else { before.push(extra.last()) }
    }
}

/// `true` exactly when `paths` holds an entry equal to `p`.
fn holds_path(paths: &Vec<String>, p: &str) -> (r: bool)
    ensures
        r == string_views(paths@).contains(p@),
{
    let mut i: usize = 0;
    while i < paths.len()
        invariant
            i <= paths.len(),
            forall|j: int| 0 <= j < i ==> paths@[j]@ != p@,
        decreases paths.len() - i,
    {
        if str_eq(paths[i].as_str(), p) {
            assert(string_views(paths@)[i as int] == p@);
            return true;
        }
        i = i + 1;
    }
    assert forall|j: int| 0 <= j < string_views(paths@).len() implies string_views(paths@)[j] != p@ by {
        assert(string_views(paths@)[j] == paths@[j]@);
    }
    false
}

/// Put the `use lib` paths found in a document (`dynamic`) ahead of the
/// configured include paths, for this resolution pass: each one, the last
/// first, is taken out of the list where it stands and put at its front.
pub fn prepend_use_lib_paths(include_paths: &mut Vec<String>, dynamic: Vec<String>)
    ensures
        string_views(final(include_paths)@) == with_use_lib_paths(string_views(old(include_paths)@), string_views(dynamic@)),
{
    let ghost start = string_views(include_paths@);
    let ghost d = string_views(dynamic@);
    let mut k: usize = dynamic.len();
    assert(d.subrange(k as int, d.len() as int) =~= Seq::<Seq<char>>::empty());
    while k > 0
        invariant
            k <= dynamic.len(),
            d == string_views(dynamic@),
            string_views(include_paths@) == with_use_lib_paths(start, d.subrange(k as int, d.len() as int)),
        decreases k,
    {
        k = k - 1;
        let p = dynamic[k].as_str();
        let ghost cur = string_views(include_paths@);
        let mut moved: Vec<String> = Vec::new();
        moved.push(owned(p));
        let mut i: usize = 0;
        assert(cur.take(0) =~= Seq::<Seq<char>>::empty());
        assert(string_views(moved@) =~= seq![p@] + without_path(cur.take(0), p@));
        while i < include_paths.len()
            invariant
                i <= include_paths.len(),
                cur == string_views(include_paths@),
                string_views(moved@) == seq![p@] + without_path(cur.take(i as int), p@),
            decreases include_paths.len() - i,
        {
            assert(cur.take(i + 1).drop_last() =~= cur.take(i as int));
            assert(cur.take(i + 1).last() == include_paths@[i as int]@);
            if !str_eq(include_paths[i].as_str(), p) {
                let ghost before = moved@;
                moved.push(owned(include_paths[i].as_str()));
                assert(string_views(moved@) =~= string_views(before).push(include_paths@[i as int]@));
            }
            i = i + 1;
        }
        assert(cur.take(include_paths.len() as int) =~= cur);
        assert(d.subrange(k as int, d.len() as int).drop_first() =~= d.subrange(k + 1, d.len() as int));
        assert(d.subrange(k as int, d.len() as int)[0] == p@);
        *include_paths = moved;
    }
    assert(d.subrange(0, d.len() as int) =~= d);
}

/// Append the interpreter's include paths when the workspace asks for them,
/// each one only where it is not in the list yet.
pub fn append_system_inc_paths(use_system_inc: bool, system_inc: &Vec<String>, include_paths: &mut Vec<String>)
    ensures
        string_views(final(include_paths)@) == if use_system_inc {
            with_new_paths(string_views(old(include_paths)@), string_views(system_inc@))
        } else {
            string_views(old(include_paths)@)
        },
{
    if !use_system_inc {
        return;
    }
    let ghost start = string_views(include_paths@);
    let ghost extra = string_views(system_inc@);
    let mut k: usize = 0;
    assert(extra.take(0) =~= Seq::<Seq<char>>::empty());
    while k < system_inc.len()
        invariant
            k <= system_inc.len(),
            extra == string_views(system_inc@),
            string_views(include_paths@) == with_new_paths(start, extra.take(k as int)),
        decreases system_inc.len() - k,
    {
        assert(extra.take(k + 1).drop_last() =~= extra.take(k as int));
        assert(extra.take(k + 1).last() == system_inc@[k as int]@);
        let p = system_inc[k].as_str();
        if !holds_path(include_paths, p) {
            let ghost before = include_paths@;
            include_paths.push(owned(p));
            assert(string_views(include_paths@) =~= string_views(before).push(p@));
        }
        k = k + 1;
    }
    assert(extra.take(system_inc.len() as int) =~= extra);
}

} // verus!

verus! {

proof fn lemma_without_path_len(s: Seq<Seq<char>>, p: Seq<char>)
    ensures
        without_path(s, p).len() <= s.len(),
    decreases s.len(),
{
    if s.len() > 0 {
        lemma_without_path_len(s.drop_last(), p);
    }
}

proof fn lemma_without_path_contains(s: Seq<Seq<char>>, p: Seq<char>, x: Seq<char>)
    ensures
        without_path(s, p).contains(x) <==> (s.contains(x) && x != p),
    decreases s.len(),
{
    if s.len() > 0 {
        let r = without_path(s.drop_last(), p);
        lemma_without_path_contains(s.drop_last(), p, x);
        assert(s =~= s.drop_last().push(s.last()));
        if s.contains(x) && x != p {
            let j = choose|j: int| 0 <= j < s.len() && s[j] == x;
            if j < s.len() - 1 {
                assert(s.drop_last()[j] == x);
            }
        }
        if s.last() != p {
            assert(r.push(s.last())[r.len() as int] == s.last());
            if r.push(s.last()).contains(x) && x != s.last() {
                let j = choose|j: int| 0 <= j < r.push(s.last()).len() && r.push(s.last())[j] == x;
                assert(r[j] == x);
            }
            if r.contains(x) {
                let j = choose|j: int| 0 <= j < r.len() && r[j] == x;
                assert(r.push(s.last())[j] == x);
            }
        }
        if s.drop_last().contains(x) {
            let j = choose|j: int| 0 <= j < s.drop_last().len() && s.drop_last()[j] == x;
            assert(s[j] == x);
        }
    }
}

proof fn lemma_without_path_keeps_prefix(s: Seq<Seq<char>>, p: Seq<char>, m: int)
    requires
        0 <= m <= s.len(),
        forall|j: int| 0 <= j < m ==> s[j] != p,
    ensures
        without_path(s, p).len() >= m,
        forall|j: int| 0 <= j < m ==> #[trigger] without_path(s, p)[j] == s[j],
    decreases s.len(),
{
    if s.len() > 0 {
        if s.len() > m {
            lemma_without_path_keeps_prefix(s.drop_last(), p, m);
        } else {
            lemma_without_path_keeps_prefix(s.drop_last(), p, m - 1);
            lemma_without_path_len(s.drop_last(), p);
        }
    }
}

/// The `use lib` paths of a document are searched ahead of the configured
/// include paths: when they are distinct, the list after prepending them
/// starts with them, in the order in which the document names them.
pub proof fn lemma_use_lib_paths_come_first(paths: Seq<Seq<char>>, dynamic: Seq<Seq<char>>)
    requires
        forall|i: int, j: int| 0 <= i < j < dynamic.len() ==> dynamic[i] != dynamic[j],
    ensures
        with_use_lib_paths(paths, dynamic).len() >= dynamic.len(),
        forall|i: int| 0 <= i < dynamic.len() ==> #[trigger] with_use_lib_paths(paths, dynamic)[i] == dynamic[i],
    decreases dynamic.len(),
{
    if dynamic.len() > 0 {
        let rest = dynamic.drop_first();
        lemma_use_lib_paths_come_first(paths, rest);
        let inner = with_use_lib_paths(paths, rest);
        assert forall|j: int| 0 <= j < rest.len() implies inner[j] != dynamic[0] by {
            assert(rest[j] == dynamic[j + 1]);
        }
        lemma_without_path_keeps_prefix(inner, dynamic[0], rest.len() as int);
        let w = without_path(inner, dynamic[0]);
        assert forall|i: int| 0 <= i < dynamic.len() implies #[trigger] with_use_lib_paths(paths, dynamic)[i] == dynamic[i] by {
            if i > 0 {
                assert(with_use_lib_paths(paths, dynamic)[i] == w[i - 1]);
                assert(inner[i - 1] == rest[i - 1]);
            }
        }
    }
}

/// Prepending `use lib` paths loses no path and adds no other: a path is
/// in the list afterwards exactly when it was in it before or is one of
/// the `use lib` paths.
pub proof fn lemma_use_lib_paths_keep_every_path(paths: Seq<Seq<char>>, dynamic: Seq<Seq<char>>, x: Seq<char>)
    ensures
        with_use_lib_paths(paths, dynamic).contains(x) <==> (paths.contains(x) || dynamic.contains(x)),
    decreases dynamic.len(),
{
    if dynamic.len() > 0 {
        let rest = dynamic.drop_first();
        lemma_use_lib_paths_keep_every_path(paths, rest, x);
        let inner = with_use_lib_paths(paths, rest);
        lemma_without_path_contains(inner, dynamic[0], x);
        let w = without_path(inner, dynamic[0]);
        let r = seq![dynamic[0]] + w;
        assert(r[0] == dynamic[0]);
        if w.contains(x) {
            let j = choose|j: int| 0 <= j < w.len() && w[j] == x;
            assert(r[j + 1] == x);
        }
        if r.contains(x) && x != dynamic[0] {
            let j = choose|j: int| 0 <= j < r.len() && r[j] == x;
            assert(w[j - 1] == x);
        }
        if rest.contains(x) {
            let j = choose|j: int| 0 <= j < rest.len() && rest[j] == x;
            assert(dynamic[j + 1] == x);
        }
        if dynamic.contains(x) && x != dynamic[0] {
            let j = choose|j: int| 0 <= j < dynamic.len() && dynamic[j] == x;
            assert(rest[j - 1] == x);
        }
    }
}

/// Appending the interpreter's paths keeps the configured ones first and
/// in order, and afterwards every interpreter path is in the list.
pub proof fn lemma_system_paths_follow_configured(paths: Seq<Seq<char>>, extra: Seq<Seq<char>>)
    ensures
        with_new_paths(paths, extra).len() >= paths.len(),
        with_new_paths(paths, extra).take(paths.len() as int) == paths,
        forall|i: int| 0 <= i < extra.len() ==> with_new_paths(paths, extra).contains(#[trigger] extra[i]),
    decreases extra.len(),
{
    if extra.len() > 0 {
        let before = with_new_paths(paths, extra.drop_last());
        lemma_system_paths_follow_configured(paths, extra.drop_last());
        let r = with_new_paths(paths, extra);
        if !before.contains(extra.last()) {
            assert(r.take(paths.len() as int) =~= before.take(paths.len() as int));
            assert(r[before.len() as int] == extra.last());
        }
        assert forall|i: int| 0 <= i < extra.len() implies r.contains(#[trigger] extra[i]) by {
            if i < extra.len() - 1 {
                assert(extra.drop_last()[i] == extra[i]);
                assert(before.contains(extra[i]));
                let j = choose|j: int| 0 <= j < before.len() && before[j] == extra[i];
                assert(r[j] == extra[i]);
            } else if before.contains(extra.last()) {
                assert(r == before);
            } else {
                assert(r[before.len() as int] == extra[i]);
            }
        }
    }
}

/// Appending the interpreter's paths never lists a path twice: when the
/// configured paths are distinct, so is the list afterwards.
pub proof fn lemma_system_paths_add_no_duplicate(paths: Seq<Seq<char>>, extra: Seq<Seq<char>>)
    requires
        forall|i: int, j: int| 0 <= i < j < paths.len() ==> paths[i] != paths[j],
    ensures
        forall|i: int, j: int|
            0 <= i < j < with_new_paths(paths, extra).len() ==> #[trigger] with_new_paths(paths, extra)[i]
                != #[trigger] with_new_paths(paths, extra)[j],
    decreases extra.len(),
{
    if extra.len() > 0 {
        let before = with_new_paths(paths, extra.drop_last());
        lemma_system_paths_add_no_duplicate(paths, extra.drop_last());
        let r = with_new_paths(paths, extra);
        if !before.contains(extra.last()) {
            assert forall|i: int, j: int| 0 <= i < j < r.len() implies r[i] != r[j] by {
                if j == before.len() {
                    assert(r[j] == extra.last());
                    assert(r[i] == before[i]);
                } else {
                    assert(r[i] == before[i]);
                    assert(r[j] == before[j]);
                }
            }
        }
    }
}

} // verus!
