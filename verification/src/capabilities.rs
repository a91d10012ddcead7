//! Client capability parsing and the server's feature flags.
use vstd::prelude::*;
use crate::json::{JsonValue, spec_get, spec_get_opt, spec_as_bool, get_opt, opt_val};
use crate::text::{str_eq, owned};

verus! {

/// The value reached from `v` by following the object keys in `keys`.
pub open spec fn spec_path(v: JsonValue, keys: Seq<Seq<char>>) -> Option<JsonValue>
    decreases keys.len(),
{
    if keys.len() == 0 {
        Some(v)
    } else {
        match spec_get(v, keys[0]) {
            Some(next) => spec_path(next, keys.drop_first()),
            None => None,
        }
    }
}

pub open spec fn str_views(keys: Seq<&str>) -> Seq<Seq<char>> {
    keys.map_values(|k: &str| k@)
}

/// Follow the object keys `keys` from `v`.
pub fn get_path<'a>(v: &'a JsonValue, keys: &[&str]) -> (r: Option<&'a JsonValue>)
    ensures
        r matches Some(x) ==> spec_path(*v, str_views(keys@)) == Some(*x),
        r is None ==> spec_path(*v, str_views(keys@)) is None,
{
    let mut cur: &JsonValue = v;
    let mut i: usize = 0;
    assert(str_views(keys@).skip(0) =~= str_views(keys@));
    while i < keys.len()
        invariant
            i <= keys.len(),
            i == 0 ==> cur == v,
            spec_path(*v, str_views(keys@)) == spec_path(*cur, str_views(keys@).skip(i as int)),
        decreases keys.len() - i,
    {
        let ghost rest = str_views(keys@).skip(i as int);
        assert(rest[0] == keys@[i as int]@);
        assert(rest.drop_first() =~= str_views(keys@).skip(i + 1));
        match cur.get(keys[i]) {
            Some(next) => {
                cur = next;
            },
            None => {
                return None;
            },
        }
        i = i + 1;
    }
    assert(str_views(keys@).skip(keys.len() as int).len() == 0);
    Some(cur)
}

/// The boolean at `keys`, `false` when absent or not a boolean.
pub open spec fn spec_bool_at(v: JsonValue, keys: Seq<Seq<char>>) -> bool {
    match spec_as_bool(spec_path(v, keys)) {
        Some(b) => b,
        None => false,
    }
}

pub fn bool_at(v: &JsonValue, keys: &[&str]) -> (r: bool)
    ensures
        r == spec_bool_at(*v, str_views(keys@)),
{
    match get_path(v, keys) {
        Some(x) => match x.as_bool() {
            Some(b) => b,
            None => false,
        },
        None => false,
    }
}

/// What the client declared it supports in `initialize`.
#[derive(Clone)]
pub struct ClientCapabilities {
    pub declaration_link_support: bool,
    pub definition_link_support: bool,
    pub type_definition_link_support: bool,
    pub implementation_link_support: bool,
    pub dynamic_registration_support: bool,
    pub workspace_configuration_support: bool,
    pub snippet_support: bool,
    pub completion_commit_characters_support: bool,
    pub markup_message_support: bool,
    pub code_lens_refresh_support: bool,
    pub semantic_tokens_refresh_support: bool,
    pub inlay_hint_refresh_support: bool,
    pub inlay_hint_support: bool,
    pub inline_value_refresh_support: bool,
    pub diagnostic_refresh_support: bool,
    pub folding_range_refresh_support: bool,
    pub show_document_support: bool,
    pub work_done_progress_support: bool,
    /// Inlay-hint properties the client can resolve lazily, if it said so.
    pub inlay_hint_resolve_support: Option<Vec<String>>,
}

impl ClientCapabilities {
    pub open spec fn spec_default() -> ClientCapabilities {
        ClientCapabilities {
            declaration_link_support: false,
            definition_link_support: false,
            type_definition_link_support: false,
            implementation_link_support: false,
            dynamic_registration_support: false,
            workspace_configuration_support: false,
            snippet_support: false,
            completion_commit_characters_support: false,
            markup_message_support: false,
            code_lens_refresh_support: false,
            semantic_tokens_refresh_support: false,
            inlay_hint_refresh_support: false,
            inlay_hint_support: false,
            inline_value_refresh_support: false,
            diagnostic_refresh_support: false,
            folding_range_refresh_support: false,
            show_document_support: false,
            work_done_progress_support: false,
            inlay_hint_resolve_support: None,
        }
    }

    /// No capability declared.
    pub fn default_caps() -> (c: ClientCapabilities)
        ensures
            c == ClientCapabilities::spec_default(),
    {
        ClientCapabilities {
            declaration_link_support: false,
            definition_link_support: false,
            type_definition_link_support: false,
            implementation_link_support: false,
            dynamic_registration_support: false,
            workspace_configuration_support: false,
            snippet_support: false,
            completion_commit_characters_support: false,
            markup_message_support: false,
            code_lens_refresh_support: false,
            semantic_tokens_refresh_support: false,
            inlay_hint_refresh_support: false,
            inlay_hint_support: false,
            inline_value_refresh_support: false,
            diagnostic_refresh_support: false,
            folding_range_refresh_support: false,
            show_document_support: false,
            work_done_progress_support: false,
            inlay_hint_resolve_support: None,
        }
    }
}

} // verus!
verus! {
/// The number of features a server can advertise.
pub const FEATURE_COUNT: usize = 33;
/// Which LSP features the server advertises.
#[derive(Clone, Copy, Debug, PartialEq, Eq, Structural)]
pub struct BuildFlags {
    pub completion: bool,
    pub hover: bool,
    pub definition: bool,
    pub declaration: bool,
    pub references: bool,
    pub document_symbol: bool,
    pub workspace_symbol: bool,
    pub code_actions: bool,
    pub code_lens: bool,
    pub rename: bool,
    pub folding_range: bool,
    pub selection_ranges: bool,
    pub linked_editing: bool,
    pub inlay_hints: bool,
    pub semantic_tokens: bool,
    pub call_hierarchy: bool,
    pub type_hierarchy: bool,
    pub pull_diagnostics: bool,
    pub document_color: bool,
    pub signature_help: bool,
    pub document_highlight: bool,
    pub formatting: bool,
    pub range_formatting: bool,
    pub on_type_formatting: bool,
    pub document_links: bool,
    pub inline_completion: bool,
    pub inline_values: bool,
    pub notebook_document_sync: bool,
    pub notebook_cell_execution: bool,
    pub implementation: bool,
    pub type_definition: bool,
    pub execute_command: bool,
    pub moniker: bool,
}

/// The canonical feature id of flag `k`.
pub open spec fn feature_id(k: int) -> Seq<char> {
    if k == 0 {
        "lsp.completion"@
    } else if k == 1 {
        "lsp.hover"@
    } else if k == 2 {
        "lsp.definition"@
    } else if k == 3 {
        "lsp.declaration"@
    } else if k == 4 {
        "lsp.references"@
    } else if k == 5 {
        "lsp.document_symbol"@
    } else if k == 6 {
        "lsp.workspace_symbol"@
    } else if k == 7 {
        "lsp.code_action"@
    } else if k == 8 {
        "lsp.code_lens"@
    } else if k == 9 {
        "lsp.rename"@
    } else if k == 10 {
        "lsp.folding_range"@
    } else if k == 11 {
        "lsp.selection_range"@
    } else if k == 12 {
        "lsp.linked_editing_range"@
    } else if k == 13 {
        "lsp.inlay_hint"@
    } else if k == 14 {
        "lsp.semantic_tokens"@
    } else if k == 15 {
        "lsp.call_hierarchy"@
    } else if k == 16 {
        "lsp.type_hierarchy"@
    } else if k == 17 {
        "lsp.pull_diagnostics"@
    } else if k == 18 {
        "lsp.document_color"@
    } else if k == 19 {
        "lsp.signature_help"@
    } else if k == 20 {
        "lsp.document_highlight"@
    } else if k == 21 {
        "lsp.formatting"@
    } else if k == 22 {
        "lsp.range_formatting"@
    } else if k == 23 {
        "lsp.on_type_formatting"@
    } else if k == 24 {
        "lsp.document_link"@
    } else if k == 25 {
        "lsp.inline_completion"@
    } else if k == 26 {
        "lsp.inline_value"@
    } else if k == 27 {
        "lsp.notebook_document_sync"@
    } else if k == 28 {
        "lsp.notebook_cell_execution"@
    } else if k == 29 {
        "lsp.implementation"@
    } else if k == 30 {
        "lsp.type_definition"@
    } else if k == 31 {
        "lsp.execute_command"@
    } else if k == 32 {
        "lsp.moniker"@
    } else {
        Seq::empty()
    }
}

/// The flag that a disabled-feature id switches off, if the id is known.
/// Both range-formatting ids switch off the range-formatting flag.
pub open spec fn feature_index(id: Seq<char>) -> Option<int> {
    if id == "lsp.completion"@ {
        Some(0)
    } else if id == "lsp.hover"@ {
        Some(1)
    } else if id == "lsp.definition"@ {
        Some(2)
    } else if id == "lsp.declaration"@ {
        Some(3)
    } else if id == "lsp.references"@ {
        Some(4)
    } else if id == "lsp.document_symbol"@ {
        Some(5)
    } else if id == "lsp.workspace_symbol"@ {
        Some(6)
    } else if id == "lsp.code_action"@ {
        Some(7)
    } else if id == "lsp.code_lens"@ {
        Some(8)
    } else if id == "lsp.rename"@ {
        Some(9)
    } else if id == "lsp.folding_range"@ {
        Some(10)
    } else if id == "lsp.selection_range"@ {
        Some(11)
    } else if id == "lsp.linked_editing_range"@ {
        Some(12)
    } else if id == "lsp.inlay_hint"@ {
        Some(13)
    } else if id == "lsp.semantic_tokens"@ {
        Some(14)
    } else if id == "lsp.call_hierarchy"@ {
        Some(15)
    } else if id == "lsp.type_hierarchy"@ {
        Some(16)
    } else if id == "lsp.pull_diagnostics"@ {
        Some(17)
    } else if id == "lsp.document_color"@ {
        Some(18)
    } else if id == "lsp.signature_help"@ {
        Some(19)
    } else if id == "lsp.document_highlight"@ {
        Some(20)
    } else if id == "lsp.formatting"@ {
        Some(21)
    } else if id == "lsp.range_formatting"@ {
        Some(22)
    } else if id == "lsp.ranges_formatting"@ {
        Some(22)
    } else if id == "lsp.on_type_formatting"@ {
        Some(23)
    } else if id == "lsp.document_link"@ {
        Some(24)
    } else if id == "lsp.inline_completion"@ {
        Some(25)
    } else if id == "lsp.inline_value"@ {
        Some(26)
    } else if id == "lsp.notebook_document_sync"@ {
        Some(27)
    } else if id == "lsp.notebook_cell_execution"@ {
        Some(28)
    } else if id == "lsp.implementation"@ {
        Some(29)
    } else if id == "lsp.type_definition"@ {
        Some(30)
    } else if id == "lsp.execute_command"@ {
        Some(31)
    } else if id == "lsp.moniker"@ {
        Some(32)
    } else {
        None
    }
}

impl BuildFlags {
    /// Flag `k` of these flags.
    pub open spec fn field(self, k: int) -> bool {
        if k == 0 {
            self.completion
        } else if k == 1 {
            self.hover
        } else if k == 2 {
            self.definition
        } else if k == 3 {
            self.declaration
        } else if k == 4 {
            self.references
        } else if k == 5 {
            self.document_symbol
        } else if k == 6 {
            self.workspace_symbol
        } else if k == 7 {
            self.code_actions
        } else if k == 8 {
            self.code_lens
        } else if k == 9 {
            self.rename
        } else if k == 10 {
            self.folding_range
        } else if k == 11 {
            self.selection_ranges
        } else if k == 12 {
            self.linked_editing
        } else if k == 13 {
            self.inlay_hints
        } else if k == 14 {
            self.semantic_tokens
        } else if k == 15 {
            self.call_hierarchy
        } else if k == 16 {
            self.type_hierarchy
        } else if k == 17 {
            self.pull_diagnostics
        } else if k == 18 {
            self.document_color
        } else if k == 19 {
            self.signature_help
        } else if k == 20 {
            self.document_highlight
        } else if k == 21 {
            self.formatting
        } else if k == 22 {
            self.range_formatting
        } else if k == 23 {
            self.on_type_formatting
        } else if k == 24 {
            self.document_links
        } else if k == 25 {
            self.inline_completion
        } else if k == 26 {
            self.inline_values
        } else if k == 27 {
            self.notebook_document_sync
        } else if k == 28 {
            self.notebook_cell_execution
        } else if k == 29 {
            self.implementation
        } else if k == 30 {
            self.type_definition
        } else if k == 31 {
            self.execute_command
        } else if k == 32 {
            self.moniker
        } else {
            false
        }
    }

    pub open spec fn spec_all() -> BuildFlags {
        BuildFlags {
            completion: true,
            hover: true,
            definition: true,
            declaration: true,
            references: true,
            document_symbol: true,
            workspace_symbol: true,
            code_actions: true,
            code_lens: true,
            rename: true,
            folding_range: true,
            selection_ranges: true,
            linked_editing: true,
            inlay_hints: true,
            semantic_tokens: true,
            call_hierarchy: true,
            type_hierarchy: true,
            pull_diagnostics: true,
            document_color: true,
            signature_help: true,
            document_highlight: true,
            formatting: true,
            range_formatting: true,
            on_type_formatting: true,
            document_links: true,
            inline_completion: true,
            inline_values: true,
            notebook_document_sync: true,
            notebook_cell_execution: true,
            implementation: true,
            type_definition: true,
            execute_command: true,
            moniker: true,
        }
    }

    /// Every feature enabled.
    pub fn all() -> (b: BuildFlags)
        ensures
            b == BuildFlags::spec_all(),
            forall|k: int| 0 <= k < FEATURE_COUNT ==> #[trigger] b.field(k),
    {
        BuildFlags {
            completion: true,
            hover: true,
            definition: true,
            declaration: true,
            references: true,
            document_symbol: true,
            workspace_symbol: true,
            code_actions: true,
            code_lens: true,
            rename: true,
            folding_range: true,
            selection_ranges: true,
            linked_editing: true,
            inlay_hints: true,
            semantic_tokens: true,
            call_hierarchy: true,
            type_hierarchy: true,
            pull_diagnostics: true,
            document_color: true,
            signature_help: true,
            document_highlight: true,
            formatting: true,
            range_formatting: true,
            on_type_formatting: true,
            document_links: true,
            inline_completion: true,
            inline_values: true,
            notebook_document_sync: true,
            notebook_cell_execution: true,
            implementation: true,
            type_definition: true,
            execute_command: true,
            moniker: true,
        }
    }

    /// Read flag `k`.
    pub fn get_field(&self, k: usize) -> (r: bool)
        requires
            k < FEATURE_COUNT,
        ensures
            r == self.field(k as int),
    {
        match k {
            0 => self.completion,
            1 => self.hover,
            2 => self.definition,
            3 => self.declaration,
            4 => self.references,
            5 => self.document_symbol,
            6 => self.workspace_symbol,
            7 => self.code_actions,
            8 => self.code_lens,
            9 => self.rename,
            10 => self.folding_range,
            11 => self.selection_ranges,
            12 => self.linked_editing,
            13 => self.inlay_hints,
            14 => self.semantic_tokens,
            15 => self.call_hierarchy,
            16 => self.type_hierarchy,
            17 => self.pull_diagnostics,
            18 => self.document_color,
            19 => self.signature_help,
            20 => self.document_highlight,
            21 => self.formatting,
            22 => self.range_formatting,
            23 => self.on_type_formatting,
            24 => self.document_links,
            25 => self.inline_completion,
            26 => self.inline_values,
            27 => self.notebook_document_sync,
            28 => self.notebook_cell_execution,
            29 => self.implementation,
            30 => self.type_definition,
            31 => self.execute_command,
            32 => self.moniker,
            _ => false,
        }
    }

    /// The canonical id of flag `k`.
    pub fn feature_id_of(k: usize) -> (r: &'static str)
        requires
            k < FEATURE_COUNT,
        ensures
            r@ == feature_id(k as int),
    {
        match k {
            0 => "lsp.completion",
            1 => "lsp.hover",
            2 => "lsp.definition",
            3 => "lsp.declaration",
            4 => "lsp.references",
            5 => "lsp.document_symbol",
            6 => "lsp.workspace_symbol",
            7 => "lsp.code_action",
            8 => "lsp.code_lens",
            9 => "lsp.rename",
            10 => "lsp.folding_range",
            11 => "lsp.selection_range",
            12 => "lsp.linked_editing_range",
            13 => "lsp.inlay_hint",
            14 => "lsp.semantic_tokens",
            15 => "lsp.call_hierarchy",
            16 => "lsp.type_hierarchy",
            17 => "lsp.pull_diagnostics",
            18 => "lsp.document_color",
            19 => "lsp.signature_help",
            20 => "lsp.document_highlight",
            21 => "lsp.formatting",
            22 => "lsp.range_formatting",
            23 => "lsp.on_type_formatting",
            24 => "lsp.document_link",
            25 => "lsp.inline_completion",
            26 => "lsp.inline_value",
            27 => "lsp.notebook_document_sync",
            28 => "lsp.notebook_cell_execution",
            29 => "lsp.implementation",
            30 => "lsp.type_definition",
            31 => "lsp.execute_command",
            32 => "lsp.moniker",
            _ => "",
        }
    }

    /// The ids of the enabled features, in flag order.
    pub fn to_feature_ids(&self) -> (ids: Vec<&'static str>)
        ensures
            ids@.map_values(|s: &str| s@) == enabled_ids(*self, FEATURE_COUNT as nat),
    {
        let mut ids: Vec<&'static str> = Vec::new();
        let mut k: usize = 0;
        while k < FEATURE_COUNT
            invariant
                k <= FEATURE_COUNT,
                ids@.map_values(|s: &str| s@) == enabled_ids(*self, k as nat),
            decreases FEATURE_COUNT - k,
        {
            let ghost before = ids@;
            if self.get_field(k) {
                let id = Self::feature_id_of(k);
                ids.push(id);
                assert(ids@.map_values(|s: &str| s@) =~= before.map_values(|s: &str| s@).push(id@));
            }
            k = k + 1;
        }
        ids
    }
}

/// The ids of the enabled flags among the first `n`, in flag order.
pub open spec fn enabled_ids(flags: BuildFlags, n: nat) -> Seq<Seq<char>>
    decreases n,
{
    if n == 0 {
        Seq::empty()
    } else {
        let prev = enabled_ids(flags, (n - 1) as nat);
        if flags.field(n - 1) {
            prev.push(feature_id(n - 1))
        } else {
            prev
        }
    }
}

/// The flag index a disabled-feature id names.
pub fn feature_index_of(id: &str) -> (r: Option<usize>)
    ensures
        r matches Some(k) ==> k < FEATURE_COUNT && feature_index(id@) == Some(k as int),
        r is None ==> feature_index(id@) is None,
{
    if str_eq(id, "lsp.completion") {
        Some(0)
    } else if str_eq(id, "lsp.hover") {
        Some(1)
    } else if str_eq(id, "lsp.definition") {
        Some(2)
    } else if str_eq(id, "lsp.declaration") {
        Some(3)
    } else if str_eq(id, "lsp.references") {
        Some(4)
    } else if str_eq(id, "lsp.document_symbol") {
        Some(5)
    } else if str_eq(id, "lsp.workspace_symbol") {
        Some(6)
    } else if str_eq(id, "lsp.code_action") {
        Some(7)
    } else if str_eq(id, "lsp.code_lens") {
        Some(8)
    } else if str_eq(id, "lsp.rename") {
        Some(9)
    } else if str_eq(id, "lsp.folding_range") {
        Some(10)
    } else if str_eq(id, "lsp.selection_range") {
        Some(11)
    } else if str_eq(id, "lsp.linked_editing_range") {
        Some(12)
    } else if str_eq(id, "lsp.inlay_hint") {
        Some(13)
    } else if str_eq(id, "lsp.semantic_tokens") {
        Some(14)
    } else if str_eq(id, "lsp.call_hierarchy") {
        Some(15)
    } else if str_eq(id, "lsp.type_hierarchy") {
        Some(16)
    } else if str_eq(id, "lsp.pull_diagnostics") {
        Some(17)
    } else if str_eq(id, "lsp.document_color") {
        Some(18)
    } else if str_eq(id, "lsp.signature_help") {
        Some(19)
    } else if str_eq(id, "lsp.document_highlight") {
        Some(20)
    } else if str_eq(id, "lsp.formatting") {
        Some(21)
    } else if str_eq(id, "lsp.range_formatting") {
        Some(22)
    } else if str_eq(id, "lsp.ranges_formatting") {
        Some(22)
    } else if str_eq(id, "lsp.on_type_formatting") {
        Some(23)
    } else if str_eq(id, "lsp.document_link") {
        Some(24)
    } else if str_eq(id, "lsp.inline_completion") {
        Some(25)
    } else if str_eq(id, "lsp.inline_value") {
        Some(26)
    } else if str_eq(id, "lsp.notebook_document_sync") {
        Some(27)
    } else if str_eq(id, "lsp.notebook_cell_execution") {
        Some(28)
    } else if str_eq(id, "lsp.implementation") {
        Some(29)
    } else if str_eq(id, "lsp.type_definition") {
        Some(30)
    } else if str_eq(id, "lsp.execute_command") {
        Some(31)
    } else if str_eq(id, "lsp.moniker") {
        Some(32)
    } else {
        None
    }
}

/// Switch off the flag that the feature id `id` names; an unknown id
/// changes nothing.
pub fn apply_disabled_feature_id(flags: &mut BuildFlags, id: &str)
    ensures
        *final(flags) == disabled(*old(flags), id@),
        final(flags).completion == (old(flags).completion && feature_index(id@) != Some(0int)),
        final(flags).hover == (old(flags).hover && feature_index(id@) != Some(1int)),
        final(flags).definition == (old(flags).definition && feature_index(id@) != Some(2int)),
        final(flags).declaration == (old(flags).declaration && feature_index(id@) != Some(3int)),
        final(flags).references == (old(flags).references && feature_index(id@) != Some(4int)),
        final(flags).document_symbol == (old(flags).document_symbol && feature_index(id@) != Some(5int)),
        final(flags).workspace_symbol == (old(flags).workspace_symbol && feature_index(id@) != Some(6int)),
        final(flags).code_actions == (old(flags).code_actions && feature_index(id@) != Some(7int)),
        final(flags).code_lens == (old(flags).code_lens && feature_index(id@) != Some(8int)),
        final(flags).rename == (old(flags).rename && feature_index(id@) != Some(9int)),
        final(flags).folding_range == (old(flags).folding_range && feature_index(id@) != Some(10int)),
        final(flags).selection_ranges == (old(flags).selection_ranges && feature_index(id@) != Some(11int)),
        final(flags).linked_editing == (old(flags).linked_editing && feature_index(id@) != Some(12int)),
        final(flags).inlay_hints == (old(flags).inlay_hints && feature_index(id@) != Some(13int)),
        final(flags).semantic_tokens == (old(flags).semantic_tokens && feature_index(id@) != Some(14int)),
        final(flags).call_hierarchy == (old(flags).call_hierarchy && feature_index(id@) != Some(15int)),
        final(flags).type_hierarchy == (old(flags).type_hierarchy && feature_index(id@) != Some(16int)),
        final(flags).pull_diagnostics == (old(flags).pull_diagnostics && feature_index(id@) != Some(17int)),
        final(flags).document_color == (old(flags).document_color && feature_index(id@) != Some(18int)),
        final(flags).signature_help == (old(flags).signature_help && feature_index(id@) != Some(19int)),
        final(flags).document_highlight == (old(flags).document_highlight && feature_index(id@) != Some(20int)),
        final(flags).formatting == (old(flags).formatting && feature_index(id@) != Some(21int)),
        final(flags).range_formatting == (old(flags).range_formatting && feature_index(id@) != Some(22int)),
        final(flags).on_type_formatting == (old(flags).on_type_formatting && feature_index(id@) != Some(23int)),
        final(flags).document_links == (old(flags).document_links && feature_index(id@) != Some(24int)),
        final(flags).inline_completion == (old(flags).inline_completion && feature_index(id@) != Some(25int)),
        final(flags).inline_values == (old(flags).inline_values && feature_index(id@) != Some(26int)),
        final(flags).notebook_document_sync == (old(flags).notebook_document_sync && feature_index(id@) != Some(27int)),
        final(flags).notebook_cell_execution == (old(flags).notebook_cell_execution && feature_index(id@) != Some(28int)),
        final(flags).implementation == (old(flags).implementation && feature_index(id@) != Some(29int)),
        final(flags).type_definition == (old(flags).type_definition && feature_index(id@) != Some(30int)),
        final(flags).execute_command == (old(flags).execute_command && feature_index(id@) != Some(31int)),
        final(flags).moniker == (old(flags).moniker && feature_index(id@) != Some(32int)),
{
    match feature_index_of(id) {
        Some(k) => {
            let updated = flags.without(k);
            *flags = updated;
        },
        None => {},
    }
}

impl BuildFlags {
    /// These flags with flag `k` switched off.
    pub fn without(&self, k: usize) -> (r: BuildFlags)
        requires
            k < FEATURE_COUNT,
        ensures
            r.completion == (self.completion && k != 0),
            r.hover == (self.hover && k != 1),
            r.definition == (self.definition && k != 2),
            r.declaration == (self.declaration && k != 3),
            r.references == (self.references && k != 4),
            r.document_symbol == (self.document_symbol && k != 5),
            r.workspace_symbol == (self.workspace_symbol && k != 6),
            r.code_actions == (self.code_actions && k != 7),
            r.code_lens == (self.code_lens && k != 8),
            r.rename == (self.rename && k != 9),
            r.folding_range == (self.folding_range && k != 10),
            r.selection_ranges == (self.selection_ranges && k != 11),
            r.linked_editing == (self.linked_editing && k != 12),
            r.inlay_hints == (self.inlay_hints && k != 13),
            r.semantic_tokens == (self.semantic_tokens && k != 14),
            r.call_hierarchy == (self.call_hierarchy && k != 15),
            r.type_hierarchy == (self.type_hierarchy && k != 16),
            r.pull_diagnostics == (self.pull_diagnostics && k != 17),
            r.document_color == (self.document_color && k != 18),
            r.signature_help == (self.signature_help && k != 19),
            r.document_highlight == (self.document_highlight && k != 20),
            r.formatting == (self.formatting && k != 21),
            r.range_formatting == (self.range_formatting && k != 22),
            r.on_type_formatting == (self.on_type_formatting && k != 23),
            r.document_links == (self.document_links && k != 24),
            r.inline_completion == (self.inline_completion && k != 25),
            r.inline_values == (self.inline_values && k != 26),
            r.notebook_document_sync == (self.notebook_document_sync && k != 27),
            r.notebook_cell_execution == (self.notebook_cell_execution && k != 28),
            r.implementation == (self.implementation && k != 29),
            r.type_definition == (self.type_definition && k != 30),
            r.execute_command == (self.execute_command && k != 31),
            r.moniker == (self.moniker && k != 32),
    {
        match k {
            0 => BuildFlags { completion: false, ..*self },
            1 => BuildFlags { hover: false, ..*self },
            2 => BuildFlags { definition: false, ..*self },
            3 => BuildFlags { declaration: false, ..*self },
            4 => BuildFlags { references: false, ..*self },
            5 => BuildFlags { document_symbol: false, ..*self },
            6 => BuildFlags { workspace_symbol: false, ..*self },
            7 => BuildFlags { code_actions: false, ..*self },
            8 => BuildFlags { code_lens: false, ..*self },
            9 => BuildFlags { rename: false, ..*self },
            10 => BuildFlags { folding_range: false, ..*self },
            11 => BuildFlags { selection_ranges: false, ..*self },
            12 => BuildFlags { linked_editing: false, ..*self },
            13 => BuildFlags { inlay_hints: false, ..*self },
            14 => BuildFlags { semantic_tokens: false, ..*self },
            15 => BuildFlags { call_hierarchy: false, ..*self },
            16 => BuildFlags { type_hierarchy: false, ..*self },
            17 => BuildFlags { pull_diagnostics: false, ..*self },
            18 => BuildFlags { document_color: false, ..*self },
            19 => BuildFlags { signature_help: false, ..*self },
            20 => BuildFlags { document_highlight: false, ..*self },
            21 => BuildFlags { formatting: false, ..*self },
            22 => BuildFlags { range_formatting: false, ..*self },
            23 => BuildFlags { on_type_formatting: false, ..*self },
            24 => BuildFlags { document_links: false, ..*self },
            25 => BuildFlags { inline_completion: false, ..*self },
            26 => BuildFlags { inline_values: false, ..*self },
            27 => BuildFlags { notebook_document_sync: false, ..*self },
            28 => BuildFlags { notebook_cell_execution: false, ..*self },
            29 => BuildFlags { implementation: false, ..*self },
            30 => BuildFlags { type_definition: false, ..*self },
            31 => BuildFlags { execute_command: false, ..*self },
            32 => BuildFlags { moniker: false, ..*self },
            _ => *self,
        }
    }
}


/// The flags after disabling the feature named by `id`.
pub open spec fn disabled(flags: BuildFlags, id: Seq<char>) -> BuildFlags {
    BuildFlags {
        completion: flags.completion && feature_index(id) != Some(0int),
        hover: flags.hover && feature_index(id) != Some(1int),
        definition: flags.definition && feature_index(id) != Some(2int),
        declaration: flags.declaration && feature_index(id) != Some(3int),
        references: flags.references && feature_index(id) != Some(4int),
        document_symbol: flags.document_symbol && feature_index(id) != Some(5int),
        workspace_symbol: flags.workspace_symbol && feature_index(id) != Some(6int),
        code_actions: flags.code_actions && feature_index(id) != Some(7int),
        code_lens: flags.code_lens && feature_index(id) != Some(8int),
        rename: flags.rename && feature_index(id) != Some(9int),
        folding_range: flags.folding_range && feature_index(id) != Some(10int),
        selection_ranges: flags.selection_ranges && feature_index(id) != Some(11int),
        linked_editing: flags.linked_editing && feature_index(id) != Some(12int),
        inlay_hints: flags.inlay_hints && feature_index(id) != Some(13int),
        semantic_tokens: flags.semantic_tokens && feature_index(id) != Some(14int),
        call_hierarchy: flags.call_hierarchy && feature_index(id) != Some(15int),
        type_hierarchy: flags.type_hierarchy && feature_index(id) != Some(16int),
        pull_diagnostics: flags.pull_diagnostics && feature_index(id) != Some(17int),
        document_color: flags.document_color && feature_index(id) != Some(18int),
        signature_help: flags.signature_help && feature_index(id) != Some(19int),
        document_highlight: flags.document_highlight && feature_index(id) != Some(20int),
        formatting: flags.formatting && feature_index(id) != Some(21int),
        range_formatting: flags.range_formatting && feature_index(id) != Some(22int),
        on_type_formatting: flags.on_type_formatting && feature_index(id) != Some(23int),
        document_links: flags.document_links && feature_index(id) != Some(24int),
        inline_completion: flags.inline_completion && feature_index(id) != Some(25int),
        inline_values: flags.inline_values && feature_index(id) != Some(26int),
        notebook_document_sync: flags.notebook_document_sync && feature_index(id) != Some(27int),
        notebook_cell_execution: flags.notebook_cell_execution && feature_index(id) != Some(28int),
        implementation: flags.implementation && feature_index(id) != Some(29int),
        type_definition: flags.type_definition && feature_index(id) != Some(30int),
        execute_command: flags.execute_command && feature_index(id) != Some(31int),
        moniker: flags.moniker && feature_index(id) != Some(32int),
    }
}

/// The flags after disabling each id of `ids` in turn.
pub open spec fn disabled_all(flags: BuildFlags, ids: Seq<Seq<char>>) -> BuildFlags
    decreases ids.len(),
{
    if ids.len() == 0 {
        flags
    } else {
        disabled(disabled_all(flags, ids.drop_last()), ids.last())
    }
}

/// The `initializationOptions.disabledFeatures` strings of the `initialize` params.
pub open spec fn disabled_feature_ids(params: Option<JsonValue>) -> Seq<Seq<char>> {
    match spec_get_opt(spec_get_opt(params, "initializationOptions"@), "disabledFeatures"@) {
        Some(JsonValue::Arr(items)) => string_elems(items@),
        _ => Seq::empty(),
    }
}

/// Switch off every feature the client listed under
/// `initializationOptions.disabledFeatures`; non-string entries are skipped.
pub fn apply_initialization_options(params: Option<&JsonValue>, flags: &mut BuildFlags)
    ensures
        *final(flags) == disabled_all(*old(flags), disabled_feature_ids(opt_val(params))),
{
    let list = get_opt(get_opt(params, "initializationOptions"), "disabledFeatures");
    match list {
        Some(v) => match v.as_array() {
            Some(items) => {
                let ghost start = *flags;
                let mut k: usize = 0;
                while k < items.len()
                    invariant
                        k <= items.len(),
                        *flags == disabled_all(start, string_elems(items@.take(k as int))),
                    decreases items.len() - k,
                {
                    assert(items@.take(k + 1).drop_last() =~= items@.take(k as int));
                    assert(items@.take(k + 1).last() == items@[k as int]);
                    match &items[k] {
                        JsonValue::Str(id) => {
                            apply_disabled_feature_id(flags, id.as_str());
                            assert(string_elems(items@.take(k + 1)).drop_last() == string_elems(items@.take(k as int)));
                        },
                        _ => {},
                    }
                    k = k + 1;
                }
                assert(items@.take(items.len() as int) =~= items@);
            },
            None => {},
        },
        None => {},
    }
}

/// The length and fifth character of each feature id (and the seventh
/// of the two ids that share both): enough to tell any two ids apart.
proof fn lemma_feature_id_shapes()
    ensures
        "lsp.completion"@.len() == 14 && "lsp.completion"@[4] == 'c',
        "lsp.hover"@.len() == 9 && "lsp.hover"@[4] == 'h',
        "lsp.definition"@.len() == 14 && "lsp.definition"@[4] == 'd',
        "lsp.declaration"@.len() == 15 && "lsp.declaration"@[4] == 'd',
        "lsp.references"@.len() == 14 && "lsp.references"@[4] == 'r',
        "lsp.document_symbol"@.len() == 19 && "lsp.document_symbol"@[4] == 'd',
        "lsp.workspace_symbol"@.len() == 20 && "lsp.workspace_symbol"@[4] == 'w',
        "lsp.code_action"@.len() == 15 && "lsp.code_action"@[4] == 'c',
        "lsp.code_lens"@.len() == 13 && "lsp.code_lens"@[4] == 'c',
        "lsp.rename"@.len() == 10 && "lsp.rename"@[4] == 'r',
        "lsp.folding_range"@.len() == 17 && "lsp.folding_range"@[4] == 'f',
        "lsp.selection_range"@.len() == 19 && "lsp.selection_range"@[4] == 's',
        "lsp.linked_editing_range"@.len() == 24 && "lsp.linked_editing_range"@[4] == 'l',
        "lsp.inlay_hint"@.len() == 14 && "lsp.inlay_hint"@[4] == 'i',
        "lsp.semantic_tokens"@.len() == 19 && "lsp.semantic_tokens"@[4] == 's',
        "lsp.call_hierarchy"@.len() == 18 && "lsp.call_hierarchy"@[4] == 'c',
        "lsp.type_hierarchy"@.len() == 18 && "lsp.type_hierarchy"@[4] == 't',
        "lsp.pull_diagnostics"@.len() == 20 && "lsp.pull_diagnostics"@[4] == 'p',
        "lsp.document_color"@.len() == 18 && "lsp.document_color"@[4] == 'd',
        "lsp.signature_help"@.len() == 18 && "lsp.signature_help"@[4] == 's',
        "lsp.document_highlight"@.len() == 22 && "lsp.document_highlight"@[4] == 'd',
        "lsp.formatting"@.len() == 14 && "lsp.formatting"@[4] == 'f',
        "lsp.range_formatting"@.len() == 20 && "lsp.range_formatting"@[4] == 'r',
        "lsp.ranges_formatting"@.len() == 21 && "lsp.ranges_formatting"@[4] == 'r',
        "lsp.on_type_formatting"@.len() == 22 && "lsp.on_type_formatting"@[4] == 'o',
        "lsp.document_link"@.len() == 17 && "lsp.document_link"@[4] == 'd',
        "lsp.inline_completion"@.len() == 21 && "lsp.inline_completion"@[4] == 'i',
        "lsp.inline_value"@.len() == 16 && "lsp.inline_value"@[4] == 'i',
        "lsp.notebook_document_sync"@.len() == 26 && "lsp.notebook_document_sync"@[4] == 'n',
        "lsp.notebook_cell_execution"@.len() == 27 && "lsp.notebook_cell_execution"@[4] == 'n',
        "lsp.implementation"@.len() == 18 && "lsp.implementation"@[4] == 'i',
        "lsp.type_definition"@.len() == 19 && "lsp.type_definition"@[4] == 't',
        "lsp.execute_command"@.len() == 19 && "lsp.execute_command"@[4] == 'e',
        "lsp.moniker"@.len() == 11 && "lsp.moniker"@[4] == 'm',
        "lsp.selection_range"@[6] == 'l' && "lsp.semantic_tokens"@[6] == 'm',
{
    reveal_strlit("lsp.completion");
    reveal_strlit("lsp.hover");
    reveal_strlit("lsp.definition");
    reveal_strlit("lsp.declaration");
    reveal_strlit("lsp.references");
    reveal_strlit("lsp.document_symbol");
    reveal_strlit("lsp.workspace_symbol");
    reveal_strlit("lsp.code_action");
    reveal_strlit("lsp.code_lens");
    reveal_strlit("lsp.rename");
    reveal_strlit("lsp.folding_range");
    reveal_strlit("lsp.selection_range");
    reveal_strlit("lsp.linked_editing_range");
    reveal_strlit("lsp.inlay_hint");
    reveal_strlit("lsp.semantic_tokens");
    reveal_strlit("lsp.call_hierarchy");
    reveal_strlit("lsp.type_hierarchy");
    reveal_strlit("lsp.pull_diagnostics");
    reveal_strlit("lsp.document_color");
    reveal_strlit("lsp.signature_help");
    reveal_strlit("lsp.document_highlight");
    reveal_strlit("lsp.formatting");
    reveal_strlit("lsp.range_formatting");
    reveal_strlit("lsp.ranges_formatting");
    reveal_strlit("lsp.on_type_formatting");
    reveal_strlit("lsp.document_link");
    reveal_strlit("lsp.inline_completion");
    reveal_strlit("lsp.inline_value");
    reveal_strlit("lsp.notebook_document_sync");
    reveal_strlit("lsp.notebook_cell_execution");
    reveal_strlit("lsp.implementation");
    reveal_strlit("lsp.type_definition");
    reveal_strlit("lsp.execute_command");
    reveal_strlit("lsp.moniker");
}

/// Every id that `to_feature_ids` can emit is understood by
/// `apply_disabled_feature_id`, and names the flag it was emitted for.
#[verifier::rlimit(100)]
#[verifier::spinoff_prover]
pub proof fn lemma_feature_ids_have_match_arm(k: int)
    requires
        0 <= k < FEATURE_COUNT,
    ensures
        feature_index(feature_id(k)) == Some(k),
{
    lemma_feature_id_shapes();
}

/// The boolean held by an optional value, `false` when absent or not a boolean.
pub open spec fn flag(v: Option<JsonValue>) -> bool {
    match spec_as_bool(v) {
        Some(b) => b,
        None => false,
    }
}

pub fn opt_flag(v: Option<&JsonValue>) -> (r: bool)
    ensures
        r == flag(opt_val(v)),
{
    match v {
        Some(x) => match x.as_bool() {
            Some(b) => b,
            None => false,
        },
        None => false,
    }
}

/// `caps.textDocument.completion.completionItem.<key>`, falling back to the
/// flattened `caps.textDocument.completion.<key>` when the nested member is absent.
pub open spec fn completion_item_flag(p: JsonValue, key: Seq<char>) -> bool {
    let comp = spec_get_opt(spec_get_opt(spec_get(p, "capabilities"@), "textDocument"@), "completion"@);
    let nested = spec_get_opt(spec_get_opt(comp, "completionItem"@), key);
    flag(if nested is Some { nested } else { spec_get_opt(comp, key) })
}

fn read_completion_item_flag(p: &JsonValue, key: &str) -> (r: bool)
    ensures
        r == completion_item_flag(*p, key@),
{
    let comp = get_opt(get_opt(p.get("capabilities"), "textDocument"), "completion");
    let nested = get_opt(get_opt(comp, "completionItem"), key);
    match nested {
        Some(_) => opt_flag(nested),
        None => opt_flag(get_opt(comp, key)),
    }
}

/// The string elements of a JSON array, in order.
pub open spec fn string_elems(items: Seq<JsonValue>) -> Seq<Seq<char>>
    decreases items.len(),
{
    if items.len() == 0 {
        Seq::empty()
    } else {
        let rest = string_elems(items.drop_last());
        match items.last() {
            JsonValue::Str(s) => rest.push(s@),
            _ => rest,
        }
    }
}

/// The string elements of a JSON array, in order: the set of names the
/// client listed (membership is what callers ask of it).
pub fn collect_strings(items: &Vec<JsonValue>) -> (r: Vec<String>)
    ensures
        r@.map_values(|x: String| x@) == string_elems(items@),
{
    let mut r: Vec<String> = Vec::new();
    let mut k: usize = 0;
    while k < items.len()
        invariant
            k <= items.len(),
            r@.map_values(|x: String| x@) == string_elems(items@.take(k as int)),
        decreases items.len() - k,
    {
        let ghost before = r@;
        assert(items@.take(k + 1).drop_last() =~= items@.take(k as int));
        assert(items@.take(k + 1).last() == items@[k as int]);
        match &items[k] {
            JsonValue::Str(s) => {
                r.push(owned(s.as_str()));
                assert(r@.map_values(|x: String| x@) =~= before.map_values(|x: String| x@).push(s@));
            },
            _ => {},
        }
        k = k + 1;
    }
    assert(items@.take(items.len() as int) =~= items@);
    r
}

/// The value at `caps.textDocument.inlayHint.resolveSupport.properties`.
pub open spec fn resolve_properties(p: JsonValue) -> Option<JsonValue> {
    spec_get_opt(spec_get_opt(spec_get_opt(spec_get_opt(spec_get(p, "capabilities"@), "textDocument"@), "inlayHint"@), "resolveSupport"@), "properties"@)
}

/// Client capabilities after reading the `initialize` params `p` over `prev`.
#[verifier::opaque]
pub open spec fn caps_read(p: JsonValue, prev: ClientCapabilities) -> ClientCapabilities {
    let caps = spec_get(p, "capabilities"@);
    let td = spec_get_opt(caps, "textDocument"@);
    let ws = spec_get_opt(caps, "workspace"@);
    let win = spec_get_opt(caps, "window"@);
    ClientCapabilities {
        declaration_link_support: flag(spec_get_opt(spec_get_opt(td, "declaration"@), "linkSupport"@)),
        definition_link_support: flag(spec_get_opt(spec_get_opt(td, "definition"@), "linkSupport"@)),
        type_definition_link_support: flag(spec_get_opt(spec_get_opt(td, "typeDefinition"@), "linkSupport"@)),
        implementation_link_support: flag(spec_get_opt(spec_get_opt(td, "implementation"@), "linkSupport"@)),
        dynamic_registration_support: flag(spec_get_opt(spec_get_opt(ws, "didChangeWatchedFiles"@), "dynamicRegistration"@)),
        workspace_configuration_support: flag(spec_get_opt(ws, "configuration"@)),
        snippet_support: completion_item_flag(p, "snippetSupport"@),
        completion_commit_characters_support: completion_item_flag(p, "commitCharactersSupport"@),
        markup_message_support: flag(spec_get_opt(spec_get_opt(td, "diagnostic"@), "markupMessageSupport"@)),
        code_lens_refresh_support: if caps is Some { flag(spec_get_opt(spec_get_opt(ws, "codeLens"@), "refreshSupport"@)) } else { prev.code_lens_refresh_support },
        semantic_tokens_refresh_support: if caps is Some { flag(spec_get_opt(spec_get_opt(ws, "semanticTokens"@), "refreshSupport"@)) } else { prev.semantic_tokens_refresh_support },
        inlay_hint_refresh_support: if caps is Some { flag(spec_get_opt(spec_get_opt(ws, "inlayHint"@), "refreshSupport"@)) } else { prev.inlay_hint_refresh_support },
        inlay_hint_support: if caps is Some { spec_get_opt(td, "inlayHint"@) is Some } else { prev.inlay_hint_support },
        inline_value_refresh_support: if caps is Some { flag(spec_get_opt(spec_get_opt(ws, "inlineValue"@), "refreshSupport"@)) } else { prev.inline_value_refresh_support },
        diagnostic_refresh_support: if caps is Some { flag(spec_get_opt(spec_get_opt(ws, "diagnostic"@), "refreshSupport"@)) } else { prev.diagnostic_refresh_support },
        folding_range_refresh_support: if caps is Some { flag(spec_get_opt(spec_get_opt(ws, "foldingRange"@), "refreshSupport"@)) } else { prev.folding_range_refresh_support },
        show_document_support: if caps is Some { flag(spec_get_opt(spec_get_opt(win, "showDocument"@), "support"@)) } else { prev.show_document_support },
        work_done_progress_support: if caps is Some { flag(spec_get_opt(win, "workDoneProgress"@)) } else { prev.work_done_progress_support },
        inlay_hint_resolve_support: prev.inlay_hint_resolve_support,
    }
}

/// `v` holds the strings listed by the JSON array `props`, in order
/// (nothing when `props` is not an array).
pub open spec fn is_string_set_of(v: Seq<String>, props: JsonValue) -> bool {
    match props {
        JsonValue::Arr(items) => v.map_values(|x: String| x@) == string_elems(items@),
        _ => v.len() == 0,
    }
}

/// Read the client capabilities from the `initialize` params `p`. Members
/// read only when `capabilities` is present keep their previous value
/// otherwise; the resolvable inlay-hint properties are replaced only when
/// the client lists them (a non-array listing gives the empty set).
#[verifier::rlimit(50)]
#[verifier::spinoff_prover]
pub fn read_client_capabilities(p: &JsonValue, prev: ClientCapabilities) -> (r: ClientCapabilities)
    ensures
        caps_read(*p, prev) == (ClientCapabilities { inlay_hint_resolve_support: prev.inlay_hint_resolve_support, ..r }),
        resolve_properties(*p) is None ==> r.inlay_hint_resolve_support == prev.inlay_hint_resolve_support,
        resolve_properties(*p) matches Some(props) ==> (r.inlay_hint_resolve_support matches Some(v)
            && is_string_set_of(v@, props)),
{
    reveal(caps_read);
    let caps = p.get("capabilities");
    let td = get_opt(caps, "textDocument");
    let ws = get_opt(caps, "workspace");
    let win = get_opt(caps, "window");
    let declaration_link_support = opt_flag(get_opt(get_opt(td, "declaration"), "linkSupport"));
    let definition_link_support = opt_flag(get_opt(get_opt(td, "definition"), "linkSupport"));
    let type_definition_link_support = opt_flag(get_opt(get_opt(td, "typeDefinition"), "linkSupport"));
    let implementation_link_support = opt_flag(get_opt(get_opt(td, "implementation"), "linkSupport"));
    let dynamic_registration_support = opt_flag(get_opt(get_opt(ws, "didChangeWatchedFiles"), "dynamicRegistration"));
    let workspace_configuration_support = opt_flag(get_opt(ws, "configuration"));
    let snippet_support = read_completion_item_flag(p, "snippetSupport");
    let completion_commit_characters_support = read_completion_item_flag(p, "commitCharactersSupport");
    let markup_message_support = opt_flag(get_opt(get_opt(td, "diagnostic"), "markupMessageSupport"));
    let mut r = ClientCapabilities {
        declaration_link_support,
        definition_link_support,
        type_definition_link_support,
        implementation_link_support,
        dynamic_registration_support,
        workspace_configuration_support,
        snippet_support,
        completion_commit_characters_support,
        markup_message_support,
        ..prev
    };
    if caps.is_some() {
        r.code_lens_refresh_support = opt_flag(get_opt(get_opt(ws, "codeLens"), "refreshSupport"));
        r.semantic_tokens_refresh_support = opt_flag(get_opt(get_opt(ws, "semanticTokens"), "refreshSupport"));
        r.inlay_hint_refresh_support = opt_flag(get_opt(get_opt(ws, "inlayHint"), "refreshSupport"));
        let static_reg = get_opt(get_opt(td, "inlayHint"), "staticRegistration");
        r.inlay_hint_support = static_reg.is_some() || get_opt(td, "inlayHint").is_some();
        r.inline_value_refresh_support = opt_flag(get_opt(get_opt(ws, "inlineValue"), "refreshSupport"));
        r.diagnostic_refresh_support = opt_flag(get_opt(get_opt(ws, "diagnostic"), "refreshSupport"));
        r.folding_range_refresh_support = opt_flag(get_opt(get_opt(ws, "foldingRange"), "refreshSupport"));
        r.show_document_support = opt_flag(get_opt(get_opt(win, "showDocument"), "support"));
        r.work_done_progress_support = opt_flag(get_opt(win, "workDoneProgress"));
        let props = get_opt(get_opt(get_opt(td, "inlayHint"), "resolveSupport"), "properties");
        match props {
            Some(pv) => {
                let set = match pv.as_array() {
                    Some(items) => collect_strings(items),
                    None => Vec::new(),
                };
                r.inlay_hint_resolve_support = Some(set);
            },
            None => {},
        }
    }
    r
}

} // verus!
