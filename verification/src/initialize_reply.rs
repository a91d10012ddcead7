//! The reply to `initialize`: the capabilities built for the advertised
//! features, completed with the members that the server states itself, and
//! the server's name and version.
use vstd::prelude::*;
use crate::json::{JsonValue, JsonMember, member, str_value, spec_get, spec_as_str, is_str, has_keys, members_of};
use crate::capabilities::BuildFlags;

verus! {

/// The n-th member of an object has key `key` and value `value`.
pub open spec fn member_at(v: JsonValue, n: int, key: Seq<char>, value: JsonValue) -> bool {
    members_of(v)[n].key@ == key && members_of(v)[n].value == value
}

/// `textDocumentSync`: open/close notifications, full-text changes (kind
/// 1: the whole document is reparsed on every change), will-save and
/// will-save-wait-until, and the saved text on save.
pub open spec fn is_text_document_sync(t: JsonValue) -> bool {
    &&& has_keys(t, seq!["openClose"@, "change"@, "willSave"@, "willSaveWaitUntil"@, "save"@])
    &&& members_of(t)[0].value == JsonValue::Bool(true)
    &&& members_of(t)[1].value == JsonValue::UInt(1)
    &&& members_of(t)[2].value == JsonValue::Bool(true)
    &&& members_of(t)[3].value == JsonValue::Bool(true)
    &&& has_keys(members_of(t)[4].value, seq!["includeText"@])
    &&& members_of(members_of(t)[4].value)[0].value == JsonValue::Bool(true)
}

/// The file globs of Perl sources: scripts, modules, tests and PSGI apps.
pub open spec fn perl_glob(i: int) -> Seq<char> {
    if i == 0 {
        "**/*.pl"@
    } else if i == 1 {
        "**/*.pm"@
    } else if i == 2 {
        "**/*.t"@
    } else {
        "**/*.psgi"@
    }
}

/// `{"filters": [{"pattern": {"glob": g}} ...]}` over the Perl globs.
pub open spec fn is_perl_file_filters(v: JsonValue) -> bool {
    &&& has_keys(v, seq!["filters"@])
    &&& members_of(v)[0].value matches JsonValue::Arr(a) && a@.len() == 4 && forall|i: int|
        #![trigger a@[i]]
        0 <= i < 4 ==> {
            &&& has_keys(a@[i], seq!["pattern"@])
            &&& has_keys(members_of(a@[i])[0].value, seq!["glob"@])
            &&& is_str(members_of(members_of(a@[i])[0].value)[0].value, perl_glob(i))
        }
}

/// `workspace`: folders with change notifications, the six file
/// operations over Perl sources, and `perldoc` documents.
pub open spec fn is_workspace_capabilities(w: JsonValue) -> bool {
    let ms = members_of(w);
    &&& has_keys(w, seq!["workspaceFolders"@, "fileOperations"@, "textDocumentContent"@])
    &&& has_keys(ms[0].value, seq!["supported"@, "changeNotifications"@])
    &&& members_of(ms[0].value)[0].value == JsonValue::Bool(true)
    &&& members_of(ms[0].value)[1].value == JsonValue::Bool(true)
    &&& has_keys(ms[1].value, seq!["willCreate"@, "didCreate"@, "willRename"@, "didRename"@, "willDelete"@, "didDelete"@])
    &&& forall|i: int| 0 <= i < 6 ==> is_perl_file_filters(#[trigger] members_of(ms[1].value)[i].value)
    &&& has_keys(ms[2].value, seq!["schemes"@])
    &&& members_of(ms[2].value)[0].value matches JsonValue::Arr(s) && s@.len() == 1 && is_str(s@[0], "perldoc"@)
}

/// `experimental`: the streaming inline-completion request.
pub open spec fn is_experimental(e: JsonValue) -> bool {
    &&& has_keys(e, seq!["perlInlineCompletionStream"@])
    &&& members_of(e)[0].value == JsonValue::Bool(true)
}

/// The capability keys the server sets over the generated ones.
pub open spec fn reply_key(k: Seq<char>) -> bool {
    ||| k == "positionEncoding"@
    ||| k == "declarationProvider"@
    ||| k == "typeHierarchyProvider"@
    ||| k == "textDocumentSync"@
    ||| k == "workspace"@
    ||| k == "experimental"@
}

/// `caps` is `base` with the server's own members set: UTF-16 positions,
/// declaration and type hierarchy where advertised, the sync options, the
/// workspace options and the experimental requests; every other member
/// is that of `base`.
pub open spec fn is_reply_capabilities(caps: JsonValue, base: JsonValue, flags: BuildFlags) -> bool {
    &&& caps is Obj
    &&& spec_as_str(spec_get(caps, "positionEncoding"@)) == Some("utf-16"@)
    &&& spec_get(caps, "declarationProvider"@) == if flags.declaration {
        Some(JsonValue::Bool(true))
    } else {
        spec_get(base, "declarationProvider"@)
    }
    &&& spec_get(caps, "typeHierarchyProvider"@) == if flags.type_hierarchy {
        Some(JsonValue::Bool(true))
    } else {
        spec_get(base, "typeHierarchyProvider"@)
    }
    &&& spec_get(caps, "textDocumentSync"@) matches Some(t) && is_text_document_sync(t)
    &&& spec_get(caps, "workspace"@) matches Some(w) && is_workspace_capabilities(w)
    &&& spec_get(caps, "experimental"@) matches Some(e) && is_experimental(e)
    &&& forall|k: Seq<char>| !reply_key(k) ==> #[trigger] spec_get(caps, k) == spec_get(base, k)
}

fn bool_member(key: &str, b: bool) -> (m: JsonMember)
    ensures
        m.key@ == key@,
        m.value == JsonValue::Bool(b),
{
    member(key, JsonValue::Bool(b))
}

/// The `textDocumentSync` options.
pub fn text_document_sync_value() -> (t: JsonValue)
    ensures
        is_text_document_sync(t),
{
    let mut save: Vec<JsonMember> = Vec::new();
    save.push(bool_member("includeText", true));
    let mut ms: Vec<JsonMember> = Vec::new();
    ms.push(bool_member("openClose", true));
    ms.push(member("change", JsonValue::UInt(1)));
    ms.push(bool_member("willSave", true));
    ms.push(bool_member("willSaveWaitUntil", true));
    ms.push(member("save", JsonValue::Obj(save)));
    JsonValue::Obj(ms)
}

fn glob_filter(glob: &str) -> (v: JsonValue)
    ensures
        has_keys(v, seq!["pattern"@]),
        has_keys(members_of(v)[0].value, seq!["glob"@]),
        is_str(members_of(members_of(v)[0].value)[0].value, glob@),
{
    let mut g: Vec<JsonMember> = Vec::new();
    g.push(member("glob", str_value(glob)));
    let mut p: Vec<JsonMember> = Vec::new();
    p.push(member("pattern", JsonValue::Obj(g)));
    JsonValue::Obj(p)
}

/// The file-operation filters over Perl sources.
pub fn perl_file_filters() -> (v: JsonValue)
    ensures
        is_perl_file_filters(v),
{
    let mut a: Vec<JsonValue> = Vec::new();
    a.push(glob_filter("**/*.pl"));
    a.push(glob_filter("**/*.pm"));
    a.push(glob_filter("**/*.t"));
    a.push(glob_filter("**/*.psgi"));
    let mut ms: Vec<JsonMember> = Vec::new();
    ms.push(member("filters", JsonValue::Arr(a)));
    let v = JsonValue::Obj(ms);
    assert forall|i: int| #![trigger a@[i]] 0 <= i < 4 implies {
        &&& has_keys(a@[i], seq!["pattern"@])
        &&& has_keys(members_of(a@[i])[0].value, seq!["glob"@])
        &&& is_str(members_of(members_of(a@[i])[0].value)[0].value, perl_glob(i))
    } by {}
    v
}

/// The `workspace` options.
pub fn workspace_capabilities() -> (w: JsonValue)
    ensures
        is_workspace_capabilities(w),
{
    let mut folders: Vec<JsonMember> = Vec::new();
    folders.push(bool_member("supported", true));
    folders.push(bool_member("changeNotifications", true));
    let mut ops: Vec<JsonMember> = Vec::new();
    ops.push(member("willCreate", perl_file_filters()));
    ops.push(member("didCreate", perl_file_filters()));
    ops.push(member("willRename", perl_file_filters()));
    ops.push(member("didRename", perl_file_filters()));
    ops.push(member("willDelete", perl_file_filters()));
    ops.push(member("didDelete", perl_file_filters()));
    let mut schemes: Vec<JsonValue> = Vec::new();
    schemes.push(str_value("perldoc"));
    let mut content: Vec<JsonMember> = Vec::new();
    content.push(member("schemes", JsonValue::Arr(schemes)));
    let mut ms: Vec<JsonMember> = Vec::new();
    ms.push(member("workspaceFolders", JsonValue::Obj(folders)));
    let ops_v = JsonValue::Obj(ops);
    assert forall|i: int| 0 <= i < 6 implies is_perl_file_filters(#[trigger] members_of(ops_v)[i].value) by {}
    ms.push(member("fileOperations", ops_v));
    ms.push(member("textDocumentContent", JsonValue::Obj(content)));
    JsonValue::Obj(ms)
}

/// The `experimental` options.
pub fn experimental_capabilities() -> (e: JsonValue)
    ensures
        is_experimental(e),
{
    let mut ms: Vec<JsonMember> = Vec::new();
    ms.push(bool_member("perlInlineCompletionStream", true));
    JsonValue::Obj(ms)
}

proof fn lemma_reply_keys_distinct()
    ensures
        "positionEncoding"@ != "declarationProvider"@,
        "positionEncoding"@ != "typeHierarchyProvider"@,
        "positionEncoding"@ != "textDocumentSync"@,
        "positionEncoding"@ != "workspace"@,
        "positionEncoding"@ != "experimental"@,
        "declarationProvider"@ != "typeHierarchyProvider"@,
        "declarationProvider"@ != "textDocumentSync"@,
        "declarationProvider"@ != "workspace"@,
        "declarationProvider"@ != "experimental"@,
        "typeHierarchyProvider"@ != "textDocumentSync"@,
        "typeHierarchyProvider"@ != "workspace"@,
        "typeHierarchyProvider"@ != "experimental"@,
        "textDocumentSync"@ != "workspace"@,
        "textDocumentSync"@ != "experimental"@,
        "workspace"@ != "experimental"@,
{
    reveal_strlit("positionEncoding");
    reveal_strlit("declarationProvider");
    reveal_strlit("typeHierarchyProvider");
    reveal_strlit("textDocumentSync");
    reveal_strlit("workspace");
    reveal_strlit("experimental");
    assert("positionEncoding"@[0] != "textDocumentSync"@[0]);
    assert("positionEncoding"@.len() != "declarationProvider"@.len());
    assert("positionEncoding"@.len() != "typeHierarchyProvider"@.len());
    assert("positionEncoding"@.len() != "workspace"@.len());
    assert("positionEncoding"@.len() != "experimental"@.len());
    assert("declarationProvider"@.len() != "typeHierarchyProvider"@.len());
    assert("declarationProvider"@.len() != "textDocumentSync"@.len());
    assert("declarationProvider"@.len() != "workspace"@.len());
    assert("declarationProvider"@.len() != "experimental"@.len());
    assert("typeHierarchyProvider"@.len() != "textDocumentSync"@.len());
    assert("typeHierarchyProvider"@.len() != "workspace"@.len());
    assert("typeHierarchyProvider"@.len() != "experimental"@.len());
    assert("textDocumentSync"@.len() != "workspace"@.len());
    assert("textDocumentSync"@.len() != "experimental"@.len());
    assert("workspace"@.len() != "experimental"@.len());
}

/// The capabilities of the reply: `base` (the capabilities generated for
/// the advertised features) with the server's own members set.
pub fn reply_capabilities(base: JsonValue, flags: &BuildFlags) -> (caps: JsonValue)
    requires
        base is Obj,
    ensures
        is_reply_capabilities(caps, base, *flags),
{
    proof { lemma_reply_keys_distinct(); }
    let ghost b = base;
    let c1 = base.with_member("positionEncoding", str_value("utf-16"));
    let c2 = if flags.declaration {
        c1.with_member("declarationProvider", JsonValue::Bool(true))
    } else {
        c1
    };
    let c3 = if flags.type_hierarchy {
        c2.with_member("typeHierarchyProvider", JsonValue::Bool(true))
    } else {
        c2
    };
    let c4 = c3.with_member("textDocumentSync", text_document_sync_value());
    let c5 = c4.with_member("workspace", workspace_capabilities());
    let caps = c5.with_member("experimental", experimental_capabilities());
    assert forall|k: Seq<char>| !reply_key(k) implies #[trigger] spec_get(caps, k) == spec_get(b, k) by {
        assert(spec_get(c1, k) == spec_get(b, k));
        assert(spec_get(c2, k) == spec_get(b, k));
        assert(spec_get(c3, k) == spec_get(b, k));
        assert(spec_get(c4, k) == spec_get(b, k));
        assert(spec_get(c5, k) == spec_get(b, k));
    }
    caps
}

/// The reply to `initialize`: `{"capabilities": ..., "serverInfo": {"name":
/// "perl-lsp", "version": version}}`, the capabilities built from `base`
/// (those generated for the advertised features) as
/// `reply_capabilities` builds them.
pub fn initialize_result(base: JsonValue, flags: &BuildFlags, version: &str) -> (r: JsonValue)
    requires
        base is Obj,
    ensures
        has_keys(r, seq!["capabilities"@, "serverInfo"@]),
        is_reply_capabilities(members_of(r)[0].value, base, *flags),
        has_keys(members_of(r)[1].value, seq!["name"@, "version"@]),
        is_str(members_of(members_of(r)[1].value)[0].value, "perl-lsp"@),
        is_str(members_of(members_of(r)[1].value)[1].value, version@),
{
    let caps = reply_capabilities(base, flags);
    let mut info: Vec<JsonMember> = Vec::new();
    info.push(member("name", str_value("perl-lsp")));
    info.push(member("version", str_value(version)));
    let mut ms: Vec<JsonMember> = Vec::new();
    ms.push(member("capabilities", caps));
    ms.push(member("serverInfo", JsonValue::Obj(info)));
    JsonValue::Obj(ms)
}

} // verus!

verus! {

/// `v` is the reply to `initialize`: the capabilities built from `base`
/// for `flags`, and the server's name and `version`.
pub open spec fn is_initialize_reply(v: JsonValue, base: JsonValue, flags: BuildFlags, version: Seq<char>) -> bool {
    &&& has_keys(v, seq!["capabilities"@, "serverInfo"@])
    &&& is_reply_capabilities(members_of(v)[0].value, base, flags)
    &&& has_keys(members_of(v)[1].value, seq!["name"@, "version"@])
    &&& is_str(members_of(members_of(v)[1].value)[0].value, "perl-lsp"@)
    &&& is_str(members_of(members_of(v)[1].value)[1].value, version)
}

impl crate::lifecycle::LspServer {
    /// Finish an accepted `initialize`: switch off the features the client
    /// disabled in its params, record the result as the advertised
    /// features, and build the reply from `base`, the capabilities
    /// generated for those features.
    pub fn initialize_reply(&mut self, params: Option<&JsonValue>, flags: BuildFlags, base: JsonValue, version: &str) -> (r: JsonValue)
        requires
            base is Obj,
        ensures
            final(self).advertised_features == crate::capabilities::disabled_all(flags, crate::capabilities::disabled_feature_ids(crate::json::opt_val(params))),
            is_initialize_reply(r, base, final(self).advertised_features, version@),
            final(self).lifecycle() == old(self).lifecycle(),
            final(self).trace_level@ == old(self).trace_level@,
            final(self).cancelled@ == old(self).cancelled@,
            final(self).root_path == old(self).root_path,
            final(self).workspace_folders@ == old(self).workspace_folders@,
            final(self).client_capabilities == old(self).client_capabilities,
            final(self).client_supports_pull_diags == old(self).client_supports_pull_diags,
            final(self).critic_workspace_warnings_sent@ == old(self).critic_workspace_warnings_sent@,
    {
        let features = self.finish_initialize(params, flags);
        initialize_result(base, &features, version)
    }

    /// Handle `initialize`: refused with "invalid request" after the first
    /// one; otherwise it records the client's params (as `handle_initialize`
    /// states), and answers with the reply built by `initialize_reply`:
    /// UTF-16 positions, full-text sync with open/close notifications, and
    /// the server name `perl-lsp`.
    pub fn handle_initialize_request(&mut self, params: Option<&JsonValue>, flags: BuildFlags, base: JsonValue, version: &str) -> (r: Result<Option<JsonValue>, crate::lifecycle::JsonRpcError>)
        requires
            base is Obj,
        ensures
            old(self).initialize_requested ==> (r matches Err(e) && e.code == crate::lifecycle::INVALID_REQUEST
                && final(self).lifecycle() == old(self).lifecycle()
                && final(self).advertised_features == old(self).advertised_features),
            !old(self).initialize_requested ==> {
                &&& r matches Ok(Some(v)) && is_initialize_reply(v, base, final(self).advertised_features, version@)
                &&& final(self).advertised_features == crate::capabilities::disabled_all(flags, crate::capabilities::disabled_feature_ids(crate::json::opt_val(params)))
                &&& final(self).initialize_requested
                &&& final(self).initialized == old(self).initialized
                &&& final(self).shutdown_received == old(self).shutdown_received
                &&& (params matches Some(p) ==> crate::lifecycle::initialize_params_read(*old(self), *final(self), *p))
            },
            final(self).trace_level@ == old(self).trace_level@,
            final(self).cancelled@ == old(self).cancelled@,
    {
        match self.handle_initialize(params) {
            Err(e) => Err(e),
            Ok(()) => Ok(Some(self.initialize_reply(params, flags, base, version))),
        }
    }
}

} // verus!
