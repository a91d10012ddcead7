//! Completion helpers: commit characters, sigils, workspace symbols and
//! snippet degradation.
use vstd::prelude::*;
use crate::lifecycle::LspServer;
use crate::text::{str_chars, owned};

verus! {

/// The kinds of a completion item, as numbered by LSP.
#[derive(Clone, Copy, Debug, PartialEq, Eq, Structural)]
pub enum CompletionItemKind {
    Text,
    Method,
    Function,
    Constructor,
    Field,
    Variable,
    Class,
    Interface,
    Module,
    Property,
    Unit,
    Value,
    Enum,
    Keyword,
    Snippet,
    Color,
    File,
    Reference,
    Folder,
    EnumMember,
    Constant,
    Struct,
    Event,
    Operator,
    TypeParameter,
}

/// The commit characters of each completion kind that has some.
pub open spec fn commit_chars(kind: CompletionItemKind) -> Option<Seq<Seq<char>>> {
    match kind {
        CompletionItemKind::Function => Some(seq!["("@, ","@, ";"@]),
        CompletionItemKind::Variable => Some(seq!["["@, "{"@, "."@, ";"@]),
        CompletionItemKind::Module => Some(seq![":"@, ";"@]),
        CompletionItemKind::Constant => Some(seq!["["@, "{"@, "."@, ";"@]),
        CompletionItemKind::Property => Some(seq![","@, "}"@]),
        _ => None,
    }
}

/// Returns commit characters for a completion item based on its kind.
/// Each string is exactly one character.
pub fn commit_chars_for_kind(kind: CompletionItemKind) -> (r: Option<Vec<&'static str>>)
    ensures
        match r {
            Some(v) => commit_chars(kind) == Some(v@.map_values(|s: &str| s@)),
            None => commit_chars(kind) is None,
        },
{
    let chars: Vec<&'static str> = match kind {
        CompletionItemKind::Function => vec!["(", ",", ";"],
        CompletionItemKind::Variable => vec!["[", "{", ".", ";"],
        CompletionItemKind::Module => vec![":", ";"],
        CompletionItemKind::Constant => vec!["[", "{", ".", ";"],
        CompletionItemKind::Property => vec![",", "}"],
        _ => return None,
    };
    assert(chars@.map_values(|s: &str| s@) =~= commit_chars(kind).unwrap());
    Some(chars)
}

/// The sigil a name starts with (`$`, `@` or `%`), and the rest of the name.
pub open spec fn sigil_split(name: Seq<char>) -> (Option<char>, Seq<char>) {
    if name.len() > 0 && crate::rename::perl_sigil(name[0]) {
        (Some(name[0]), name.drop_first())
    } else {
        (None, name)
    }
}

impl LspServer {
    /// Split a leading sigil off a name.
    pub fn split_sigil(name: &str) -> (r: (Option<char>, String))
        ensures
            r.0 == sigil_split(name@).0,
            r.1@ == sigil_split(name@).1,
    {
        let chars = str_chars(name);
        if chars.len() > 0 && crate::rename::is_perl_sigil(chars[0]) {
            let rest = name.substring_char(1, chars.len());
            assert(name@.subrange(1, name@.len() as int) =~= name@.drop_first());
            (Some(chars[0]), owned(rest))
        } else {
            (None, owned(name))
        }
    }
}

/// The kinds of workspace symbols.
#[derive(Clone, Copy, Debug, PartialEq, Eq, Structural)]
pub enum SymbolKind {
    Package,
    Subroutine,
    Variable,
    Class,
    Method,
    Constant,
    Role,
    Import,
    Export,
    Label,
    Format,
}

/// A symbol found in the workspace index.
pub struct WorkspaceSymbol {
    pub name: String,
    pub kind: SymbolKind,
    pub container_name: Option<String>,
    pub qualified_name: Option<String>,
    pub documentation: Option<String>,
}

pub open spec fn opt_view(s: Option<String>) -> Option<Seq<char>> {
    match s {
        Some(x) => Some(x@),
        None => None,
    }
}

/// The fully qualified name of a symbol: for a variable in a package, the
/// sigil (`$` when it has none), the package, `::` and the bare name; for
/// other symbols the recorded qualified name, else `package::name`, else the
/// name.
pub open spec fn qualified_name_of(symbol: WorkspaceSymbol) -> Seq<char> {
    match symbol.kind {
        SymbolKind::Variable => match symbol.container_name {
            Some(container) => {
                let (sigil, bare) = sigil_split(symbol.name@);
                seq![sigil.unwrap_or('$')] + container@ + "::"@ + bare
            },
            None => symbol.name@,
        },
        _ => match symbol.qualified_name {
            Some(q) => q@,
            None => match symbol.container_name {
                Some(container) => container@ + "::"@ + symbol.name@,
                None => symbol.name@,
            },
        },
    }
}

impl LspServer {
    pub fn workspace_symbol_qualified_name(symbol: &WorkspaceSymbol) -> (r: String)
        ensures
            r@ == qualified_name_of(*symbol),
    {
        match symbol.kind {
            SymbolKind::Variable => match &symbol.container_name {
                Some(container) => {
                    let (sigil, bare) = Self::split_sigil(symbol.name.as_str());
                    let mut out = String::new();
                    let s = match sigil {
                        Some(c) => c,
                        None => '$',
                    };
                    crate::text::string_push(&mut out, s);
                    out.append(container.as_str());
                    out.append("::");
                    out.append(bare.as_str());
                    out
                },
                None => owned(symbol.name.as_str()),
            },
            _ => match &symbol.qualified_name {
                Some(q) => owned(q.as_str()),
                None => match &symbol.container_name {
                    Some(container) => {
                        let mut out = owned(container.as_str());
                        out.append("::");
                        out.append(symbol.name.as_str());
                        out
                    },
                    None => owned(symbol.name.as_str()),
                },
            },
        }
    }

    /// The completion kind shown for a workspace symbol.
    pub fn workspace_symbol_kind(symbol: &WorkspaceSymbol) -> (r: CompletionItemKind)
        ensures
            r == symbol_completion_kind(symbol.kind),
    {
        match symbol.kind {
            SymbolKind::Package => CompletionItemKind::Module,
            SymbolKind::Subroutine => CompletionItemKind::Function,
            SymbolKind::Variable => CompletionItemKind::Variable,
            SymbolKind::Class => CompletionItemKind::Module,
            SymbolKind::Method => CompletionItemKind::Function,
            SymbolKind::Constant => CompletionItemKind::Constant,
            SymbolKind::Role => CompletionItemKind::Module,
            SymbolKind::Import => CompletionItemKind::Module,
            SymbolKind::Export => CompletionItemKind::Function,
            SymbolKind::Label => CompletionItemKind::Keyword,
            SymbolKind::Format => CompletionItemKind::Function,
        }
    }
}

/// Packages, classes, roles and imports complete as modules; subroutines,
/// methods, exports and formats as functions; the rest by their own kind.
pub open spec fn symbol_completion_kind(kind: SymbolKind) -> CompletionItemKind {
    match kind {
        SymbolKind::Package | SymbolKind::Class | SymbolKind::Role | SymbolKind::Import => CompletionItemKind::Module,
        SymbolKind::Subroutine | SymbolKind::Method | SymbolKind::Export | SymbolKind::Format => CompletionItemKind::Function,
        SymbolKind::Variable => CompletionItemKind::Variable,
        SymbolKind::Constant => CompletionItemKind::Constant,
        SymbolKind::Label => CompletionItemKind::Keyword,
    }
}

/// The sentence describing a symbol that has no documentation of its own.
pub open spec fn symbol_description(kind: SymbolKind, q: Seq<char>) -> Seq<char> {
    match kind {
        SymbolKind::Package => "Package `"@ + q + "` available in the workspace."@,
        SymbolKind::Subroutine => "Subroutine `"@ + q + "` defined in the workspace."@,
        SymbolKind::Variable => "Variable `"@ + q + "` declared in the workspace."@,
        SymbolKind::Class => "Class `"@ + q + "` defined in the workspace."@,
        SymbolKind::Method => "Method `"@ + q + "` defined in the workspace."@,
        SymbolKind::Constant => "Constant `"@ + q + "` declared in the workspace."@,
        SymbolKind::Role => "Role `"@ + q + "` defined in the workspace."@,
        SymbolKind::Import => "Imported module `"@ + q + "` used in the workspace."@,
        SymbolKind::Export => "Exported function `"@ + q + "` available in the workspace."@,
        SymbolKind::Label => "Label `"@ + q + "` declared in the workspace."@,
        SymbolKind::Format => "Format `"@ + q + "` declared in the workspace."@,
    }
}

impl LspServer {
    /// The documentation of a workspace symbol: its own, else a sentence
    /// naming its kind and qualified name.
    pub fn workspace_symbol_documentation(symbol: &WorkspaceSymbol) -> (r: Option<String>)
        ensures
            r matches Some(d) && d@ == match symbol.documentation {
                Some(doc) => doc@,
                None => symbol_description(symbol.kind, qualified_name_of(*symbol)),
            },
    {
        if let Some(doc) = &symbol.documentation {
            return Some(owned(doc.as_str()));
        }
        let q = Self::workspace_symbol_qualified_name(symbol);
        let (head, tail) = match symbol.kind {
            SymbolKind::Package => ("Package `", "` available in the workspace."),
            SymbolKind::Subroutine => ("Subroutine `", "` defined in the workspace."),
            SymbolKind::Variable => ("Variable `", "` declared in the workspace."),
            SymbolKind::Class => ("Class `", "` defined in the workspace."),
            SymbolKind::Method => ("Method `", "` defined in the workspace."),
            SymbolKind::Constant => ("Constant `", "` declared in the workspace."),
            SymbolKind::Role => ("Role `", "` defined in the workspace."),
            SymbolKind::Import => ("Imported module `", "` used in the workspace."),
            SymbolKind::Export => ("Exported function `", "` available in the workspace."),
            SymbolKind::Label => ("Label `", "` declared in the workspace."),
            SymbolKind::Format => ("Format `", "` declared in the workspace."),
        };
        let mut out = owned(head);
        out.append(q.as_str());
        out.append(tail);
        Some(out)
    }
}

/// A snippet placeholder `${N:text}`; its second group is the text.
pub const SNIPPET_PLACEHOLDER: &'static str = r"\$\{(\d+):([^}]+)\}";

/// What a placeholder is replaced by: its text.
pub const SNIPPET_PLACEHOLDER_TEXT: &'static str = "$2";

/// A snippet tab stop `$N`.
pub const SNIPPET_TABSTOP: &'static str = r"\$\d+";

/// `s` with each placeholder replaced by its text (unchanged when the
/// pattern does not compile).
pub open spec fn snippet_placeholders_expanded(s: Seq<char>) -> Seq<char> {
    match crate::regex_calls::regex_replaced(SNIPPET_PLACEHOLDER@, SNIPPET_PLACEHOLDER_TEXT@, s) {
        Some(r) => r,
        None => s,
    }
}

/// `s` with each tab stop removed (unchanged when the pattern does not
/// compile).
pub open spec fn snippet_tabstops_removed(s: Seq<char>) -> Seq<char> {
    match crate::regex_calls::regex_replaced(SNIPPET_TABSTOP@, ""@, s) {
        Some(r) => r,
        None => s,
    }
}

fn expand_snippet_placeholders(s: &str) -> (r: String)
    ensures
        r@ == snippet_placeholders_expanded(s@),
{
    match crate::regex_calls::regex_replace_all(SNIPPET_PLACEHOLDER, SNIPPET_PLACEHOLDER_TEXT, s) {
        Some(r) => r,
        None => owned(s),
    }
}

fn remove_snippet_tabstops(s: &str) -> (r: String)
    ensures
        r@ == snippet_tabstops_removed(s@),
{
    match crate::regex_calls::regex_replace_all(SNIPPET_TABSTOP, "", s) {
        Some(r) => r,
        None => owned(s),
    }
}

impl LspServer {
    /// Degrade snippet syntax to plain text for clients without snippet
    /// support: placeholders become their text, then tab stops are removed.
    pub fn degrade_snippet_to_plaintext(snippet: &str) -> (r: String)
        ensures
            r@ == snippet_tabstops_removed(snippet_placeholders_expanded(snippet@)),
    {
        let expanded = expand_snippet_placeholders(snippet);
        remove_snippet_tabstops(expanded.as_str())
    }
}

} // verus!

verus! {

/// Only variable symbols complete as variables; subroutines, methods,
/// exports and formats complete as functions (sent as completion kind 3).
pub proof fn lemma_callable_symbols_complete_as_functions(kind: SymbolKind)
    ensures
        (symbol_completion_kind(kind) == CompletionItemKind::Variable) <==> (kind == SymbolKind::Variable),
        (kind == SymbolKind::Subroutine || kind == SymbolKind::Method || kind == SymbolKind::Export || kind
            == SymbolKind::Format) ==> symbol_completion_kind(kind) == CompletionItemKind::Function
            && crate::completion_list::kind_number(symbol_completion_kind(kind)) == 3,
        kind == SymbolKind::Variable ==> crate::completion_list::kind_number(symbol_completion_kind(kind)) == 6,
{
}

} // verus!
