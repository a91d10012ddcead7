//! Diagnostics helpers: LSP tags, fixable Perl::Critic policies, where a
//! Perl::Critic profile may be found, and one-time workspace warnings.
use vstd::prelude::*;
use crate::lifecycle::LspServer;
use crate::text::{str_eq, owned};
use crate::code_action_assembly::CriticSeverity;
use crate::diagnostic_json::{InternalDiagnostic, DiagnosticSeverity};
use crate::uri::{path_is_absolute, absolute_path, path_parent, parent_path, path_join, joined_path, path_equal, same_path};

verus! {

/// The tags a diagnostic may carry.
#[derive(Clone, Copy, Debug, PartialEq, Eq, Structural)]
pub enum DiagnosticTag {
    Unnecessary,
    Deprecated,
}

/// The LSP number of a tag: 1 for unnecessary code, 2 for deprecated code.
pub open spec fn tag_number(t: DiagnosticTag) -> i32 {
    match t {
        DiagnosticTag::Unnecessary => 1,
        DiagnosticTag::Deprecated => 2,
    }
}

/// A violation that the built-in Perl::Critic analyzer reports: the
/// policy, what is wrong and why, how serious it is, the byte range it
/// covers and the file it was found in.
pub struct CriticViolation {
    pub policy: String,
    pub description: String,
    pub explanation: String,
    pub severity: CriticSeverity,
    pub start: usize,
    pub end: usize,
    pub file: String,
}

/// The diagnostic severity of a violation: gentle ones are errors, stern
/// and harsh ones warnings, cruel ones information, brutal ones hints.
pub open spec fn violation_severity(s: CriticSeverity) -> DiagnosticSeverity {
    match s {
        CriticSeverity::Gentle => DiagnosticSeverity::Error,
        CriticSeverity::Stern => DiagnosticSeverity::Warning,
        CriticSeverity::Harsh => DiagnosticSeverity::Warning,
        CriticSeverity::Cruel => DiagnosticSeverity::Information,
        CriticSeverity::Brutal => DiagnosticSeverity::Hint,
    }
}

/// A built-in analyzer violation as an internal diagnostic: its byte
/// range, the severity of its level, the policy as code, the description
/// as message, and no suggestion, related places or tags.
pub fn builtin_violation_to_diagnostic(violation: &CriticViolation) -> (d: InternalDiagnostic)
    ensures
        d.range == (violation.start, violation.end),
        d.severity == violation_severity(violation.severity),
        d.code matches Some(c) && c@ == violation.policy@,
        d.message@ == violation.description@,
        d.suggestion is None,
        d.related_information@.len() == 0,
        d.tags@.len() == 0,
{
    let severity = match violation.severity {
        CriticSeverity::Gentle => DiagnosticSeverity::Error,
        CriticSeverity::Stern => DiagnosticSeverity::Warning,
        CriticSeverity::Harsh => DiagnosticSeverity::Warning,
        CriticSeverity::Cruel => DiagnosticSeverity::Information,
        CriticSeverity::Brutal => DiagnosticSeverity::Hint,
    };
    InternalDiagnostic {
        range: (violation.start, violation.end),
        severity,
        code: Some(owned(violation.policy.as_str())),
        message: owned(violation.description.as_str()),
        suggestion: None,
        related_information: Vec::new(),
        tags: Vec::new(),
    }
}

impl LspServer {
    /// Map diagnostic tags to their LSP numbers, in order.
    pub fn diagnostic_tags_to_lsp(tags: &Vec<DiagnosticTag>) -> (r: Vec<i32>)
        ensures
            r@ == tags@.map_values(|t: DiagnosticTag| tag_number(t)),
    {
        let mut out: Vec<i32> = Vec::new();
        let mut i: usize = 0;
        while i < tags.len()
            invariant
                i <= tags.len(),
                out@ == tags@.take(i as int).map_values(|t: DiagnosticTag| tag_number(t)),
            decreases tags.len() - i,
        {
            let n: i32 = match tags[i] {
                DiagnosticTag::Unnecessary => 1,
                DiagnosticTag::Deprecated => 2,
            };
            out.push(n);
            i = i + 1;
            assert(out@ =~= tags@.take(i as int).map_values(|t: DiagnosticTag| tag_number(t)));
        }
        assert(tags@.take(tags.len() as int) =~= tags@);
        out
    }
}

/// The Perl::Critic policies for which a quick fix exists.
pub open spec fn fixable_policy(code: Seq<char>) -> bool {
    ||| code == "InputOutput::ProhibitBarewordFileHandles"@
    ||| code == "InputOutput::RequireBriefOpen"@
    ||| code == "InputOutput::RequireThreeArgOpen"@
    ||| code == "TestingAndDebugging::RequireUseStrict"@
    ||| code == "TestingAndDebugging::RequireUseWarnings"@
    ||| code == "Variables::ProhibitUnusedVariables"@
}

pub fn is_fixable_perlcritic_policy(code: &str) -> (r: bool)
    ensures
        r == fixable_policy(code@),
{
    str_eq(code, "InputOutput::ProhibitBarewordFileHandles") || str_eq(code, "InputOutput::RequireBriefOpen")
        || str_eq(code, "InputOutput::RequireThreeArgOpen") || str_eq(code, "TestingAndDebugging::RequireUseStrict")
        || str_eq(code, "TestingAndDebugging::RequireUseWarnings") || str_eq(
        code,
        "Variables::ProhibitUnusedVariables",
    )
}

/// The paths where a configured Perl::Critic profile may be, in the order
/// they are tried (the first that exists is used): an absolute profile
/// only as it is; a relative one as given, under the workspace root, then
/// beside the checked file.
pub open spec fn profile_candidates(configured: Seq<char>, workspace_root: Option<Seq<char>>, file_path: Seq<char>) -> Seq<Option<Seq<char>>> {
    if absolute_path(configured) {
        seq![Some(configured)]
    } else {
        seq![
            Some(configured),
            match workspace_root {
                Some(root) => joined_path(root, configured),
                None => None,
            },
            match parent_path(file_path) {
                Some(dir) => joined_path(dir, configured),
                None => None,
            },
        ]
    }
}

pub open spec fn present(v: Seq<Option<Seq<char>>>) -> Seq<Seq<char>>
    decreases v.len(),
{
    if v.len() == 0 {
        Seq::empty()
    } else {
        let rest = present(v.drop_last());
        match v.last() {
            Some(p) => rest.push(p),
            None => rest,
        }
    }
}

pub open spec fn string_views(v: Seq<String>) -> Seq<Seq<char>> {
    v.map_values(|s: String| s@)
}

/// The candidate paths of a configured Perl::Critic profile, in the order
/// they are tried; the first that exists is the profile.
pub fn resolve_configured_profile_path(configured_profile: &str, workspace_root: Option<&str>, file_path: &str) -> (r: Vec<String>)
    ensures
        string_views(r@) == present(profile_candidates(configured_profile@, match workspace_root {
            Some(w) => Some(w@),
            None => None,
        }, file_path@)),
{
    let mut out: Vec<String> = Vec::new();
    let ghost root = match workspace_root {
        Some(w) => Some(w@),
        None => None,
    };
    let ghost cands = profile_candidates(configured_profile@, root, file_path@);
    out.push(owned(configured_profile));
    if path_is_absolute(configured_profile) {
        assert(present(cands) =~= present(cands.drop_last()).push(configured_profile@));
        assert(present(cands.drop_last()) =~= Seq::<Seq<char>>::empty());
        assert(string_views(out@) =~= seq![configured_profile@]);
        return out;
    }
    let second = match workspace_root {
        Some(root) => path_join(root, configured_profile),
        None => None,
    };
    let third = match path_parent(file_path) {
        Some(dir) => path_join(dir.as_str(), configured_profile),
        None => None,
    };
    let ghost first_two = cands.drop_last();
    assert(first_two.drop_last() =~= seq![Some(configured_profile@)]);
    assert(seq![Some(configured_profile@)].drop_last() =~= Seq::<Option<Seq<char>>>::empty());
    assert(present(Seq::<Option<Seq<char>>>::empty()) =~= Seq::<Seq<char>>::empty());
    assert(present(seq![Some(configured_profile@)]) =~= seq![configured_profile@]);
    if let Some(s) = second {
        out.push(s);
    }
    assert(string_views(out@) =~= present(first_two));
    if let Some(t) = third {
        out.push(t);
    }
    assert(string_views(out@) =~= present(cands));
    out
}

/// The directories searched for a Perl::Critic profile, from `dir` up:
/// each directory until the workspace root or the filesystem root, which
/// is searched last.
pub open spec fn profile_dirs(dir: Option<Seq<char>>, workspace_root: Option<Seq<char>>, fuel: nat) -> Seq<Seq<char>>
    decreases fuel,
{
    match dir {
        None => Seq::empty(),
        Some(d) => if fuel == 0 || (workspace_root matches Some(w) && same_path(w, d)) || parent_path(d) is None {
            seq![d]
        } else {
            seq![d] + profile_dirs(parent_path(d), workspace_root, (fuel - 1) as nat)
        },
    }
}

/// In each searched directory, `.perlcriticrc` then `perlcriticrc`.
pub open spec fn profile_files(dirs: Seq<Seq<char>>) -> Seq<Option<Seq<char>>>
    decreases dirs.len(),
{
    if dirs.len() == 0 {
        Seq::empty()
    } else {
        profile_files(dirs.drop_last()) + seq![
            joined_path(dirs.last(), ".perlcriticrc"@),
            joined_path(dirs.last(), "perlcriticrc"@),
        ]
    }
}

/// The paths where a workspace Perl::Critic profile may be, in the order
/// they are tried (the first that exists is used): `.perlcriticrc` and
/// `perlcriticrc` in the checked file's directory, then in each directory
/// above it, up to the workspace root or the filesystem root.
pub fn find_workspace_perlcritic_profile(workspace_root: Option<&str>, file_path: &str) -> (r: Vec<String>)
    ensures
        string_views(r@) == present(profile_files(profile_dirs(parent_path(file_path@), match workspace_root {
            Some(w) => Some(w@),
            None => None,
        }, file_path@.len()))),
{
    let ghost root = match workspace_root {
        Some(w) => Some(w@),
        None => None,
    };
    let mut out: Vec<String> = Vec::new();
    let mut dirs_done: Ghost<Seq<Seq<char>>> = Ghost(Seq::empty());
    let mut dir = path_parent(file_path);
    let mut fuel = file_path.unicode_len();
    let ghost max_depth = fuel;
    assert(profile_files(Seq::<Seq<char>>::empty()) =~= Seq::<Option<Seq<char>>>::empty());
    assert(present(Seq::<Option<Seq<char>>>::empty()) =~= Seq::<Seq<char>>::empty());
    while dir.is_some()
        invariant
            dirs_done@ + profile_dirs(match dir {
                Some(d) => Some(d@),
                None => None,
            }, root, fuel as nat) == profile_dirs(parent_path(file_path@), root, max_depth as nat),
            max_depth == file_path@.len(),
            dir matches Some(d) ==> d@.len() <= fuel,
            string_views(out@) == present(profile_files(dirs_done@)),
            root == match workspace_root {
                Some(w) => Some(w@),
                None => None,
            },
        decreases fuel + (if dir is Some { 1int } else { 0int }),
    {
        let current = dir.unwrap();
        let ghost done_before = dirs_done@;
        let a = path_join(current.as_str(), ".perlcriticrc");
        let b = path_join(current.as_str(), "perlcriticrc");
        let ghost ja = joined_path(current@, ".perlcriticrc"@);
        let ghost jb = joined_path(current@, "perlcriticrc"@);
        let ghost v0 = string_views(out@);
        let ghost s1 = seq![ja];
        let ghost two = seq![ja, jb];
        proof {
            assert(two.drop_last() =~= s1);
            assert(s1.drop_last() =~= Seq::<Option<Seq<char>>>::empty());
            assert(present(Seq::<Option<Seq<char>>>::empty()) =~= Seq::<Seq<char>>::empty());
        }
        match a {
            Some(x) => {
                out.push(x);
                assert(string_views(out@) =~= v0.push(x@));
                assert(present(s1) =~= seq![x@]);
                assert(string_views(out@) =~= v0 + present(s1));
            },
            None => {
                assert(present(s1) =~= Seq::<Seq<char>>::empty());
                assert(string_views(out@) =~= v0 + present(s1));
            },
        }
        let ghost v1 = string_views(out@);
        match b {
            Some(y) => {
                out.push(y);
                assert(string_views(out@) =~= v1.push(y@));
                assert(present(two) =~= present(s1).push(y@));
                assert(string_views(out@) =~= v0 + present(two));
            },
            None => {
                assert(present(two) =~= present(s1));
                assert(string_views(out@) =~= v0 + present(two));
            },
        }
        proof {
            dirs_done@ = done_before.push(current@);
            assert(dirs_done@.drop_last() =~= done_before);
            assert(profile_files(dirs_done@) =~= profile_files(done_before) + two);
            lemma_present_append(profile_files(done_before), two);
        }
        let at_root = match workspace_root {
            Some(w) => path_equal(w, current.as_str()),
            None => false,
        };
        let parent = path_parent(current.as_str());
        if at_root || parent.is_none() {
            proof {
                assert(profile_dirs(Some(current@), root, fuel as nat) =~= seq![current@]);
                assert(done_before + seq![current@] =~= dirs_done@);
                assert(profile_dirs(None, root, 0) =~= Seq::<Seq<char>>::empty());
                assert(dirs_done@ + Seq::<Seq<char>>::empty() =~= dirs_done@);
            }
            dir = None;
            fuel = 0;
        } else {
            proof {
                assert(done_before + (seq![current@] + profile_dirs(parent_path(current@), root, (fuel - 1) as nat)) =~= dirs_done@ + profile_dirs(parent_path(current@), root, (fuel - 1) as nat));
            }
            dir = parent;
            fuel = fuel - 1;
        }
    }
    proof {
        assert(profile_dirs(None, root, fuel as nat) =~= Seq::<Seq<char>>::empty());
        assert(dirs_done@ + Seq::<Seq<char>>::empty() =~= dirs_done@);
    }
    out
}

proof fn lemma_present_append(a: Seq<Option<Seq<char>>>, b: Seq<Option<Seq<char>>>)
    ensures
        present(a + b) == present(a) + present(b),
    decreases b.len(),
{
    if b.len() == 0 {
        assert(a + b =~= a);
        assert(present(a) + present(b) =~= present(a));
    } else {
        lemma_present_append(a, b.drop_last());
        assert((a + b).drop_last() =~= a + b.drop_last());
        assert((a + b).last() == b.last());
        match b.last() {
            Some(p) => {
                assert(present(a) + present(b.drop_last()).push(p) =~= (present(a) + present(b.drop_last())).push(p));
            },
            None => {},
        }
    }
}

impl LspServer {
    /// Decide whether the workspace warning `key` is shown: the first time
    /// a key is seen its `message` is returned (and the key remembered);
    /// later it is suppressed.
    pub fn emit_perlcritic_workspace_warning(&mut self, key: String, message: &str) -> (r: Option<String>)
        ensures
            ({
                let seen = exists|i: int|
                    0 <= i < old(self).critic_workspace_warnings_sent@.len()
                        && (#[trigger] old(self).critic_workspace_warnings_sent@[i])@ == key@;
                &&& seen ==> r is None && final(self).critic_workspace_warnings_sent@ == old(self).critic_workspace_warnings_sent@
                &&& !seen ==> (r matches Some(m) && m@ == message@) && final(self).critic_workspace_warnings_sent@
                    == old(self).critic_workspace_warnings_sent@.push(key)
            }),
            final(self).lifecycle() == old(self).lifecycle(),
            final(self).trace_level@ == old(self).trace_level@,
            final(self).cancelled@ == old(self).cancelled@,
            final(self).root_path == old(self).root_path,
            final(self).workspace_folders@ == old(self).workspace_folders@,
            final(self).client_capabilities == old(self).client_capabilities,
            final(self).client_supports_pull_diags == old(self).client_supports_pull_diags,
            final(self).advertised_features == old(self).advertised_features,
    {
        let mut i: usize = 0;
        while i < self.critic_workspace_warnings_sent.len()
            invariant
                i <= self.critic_workspace_warnings_sent.len(),
                forall|j: int| 0 <= j < i ==> (#[trigger] self.critic_workspace_warnings_sent@[j])@ != key@,
            decreases self.critic_workspace_warnings_sent.len() - i,
        {
            if str_eq(self.critic_workspace_warnings_sent[i].as_str(), key.as_str()) {
                return None;
            }
            i = i + 1;
        }
        self.critic_workspace_warnings_sent.push(key);
        Some(owned(message))
    }
}

/// A workspace warning is shown at most once per key: after it has been
/// emitted, emitting the same key again shows nothing.
pub proof fn lemma_workspace_warning_shown_once(s0: LspServer, s1: LspServer, s2: LspServer, key: String, m1: Seq<char>, m2: Seq<char>, r1: Option<String>, r2: Option<String>)
    requires
        ({
            let seen = exists|i: int| 0 <= i < s0.critic_workspace_warnings_sent@.len() && (#[trigger] s0.critic_workspace_warnings_sent@[i])@ == key@;
            &&& seen ==> r1 is None && s1.critic_workspace_warnings_sent@ == s0.critic_workspace_warnings_sent@
            &&& !seen ==> (r1 matches Some(m) && m@ == m1) && s1.critic_workspace_warnings_sent@ == s0.critic_workspace_warnings_sent@.push(key)
        }),
        ({
            let seen = exists|i: int| 0 <= i < s1.critic_workspace_warnings_sent@.len() && (#[trigger] s1.critic_workspace_warnings_sent@[i])@ == key@;
            &&& seen ==> r2 is None && s2.critic_workspace_warnings_sent@ == s1.critic_workspace_warnings_sent@
            &&& !seen ==> (r2 matches Some(m) && m@ == m2) && s2.critic_workspace_warnings_sent@ == s1.critic_workspace_warnings_sent@.push(key)
        }),
    ensures
        r2 is None,
{
    let seen0 = exists|i: int| 0 <= i < s0.critic_workspace_warnings_sent@.len() && (#[trigger] s0.critic_workspace_warnings_sent@[i])@ == key@;
    if seen0 {
        let i = choose|i: int| 0 <= i < s0.critic_workspace_warnings_sent@.len() && (#[trigger] s0.critic_workspace_warnings_sent@[i])@ == key@;
        assert(s1.critic_workspace_warnings_sent@[i]@ == key@);
    } else {
        let n = s0.critic_workspace_warnings_sent@.len() as int;
        assert(s1.critic_workspace_warnings_sent@[n]@ == key@);
    }
}

} // verus!
