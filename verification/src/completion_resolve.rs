//! `completionItem/resolve`: the documentation added to a completion item,
//! for built-in functions, variables and keywords.
use vstd::prelude::*;
use crate::json::{JsonValue, JsonMember, member, str_value, spec_get, spec_as_str, spec_as_u64, members_of, is_str};
use crate::lifecycle::{LspServer, JsonRpcError};
use crate::text::{str_eq, owned, str_chars};
use crate::hover_text::{joined, string_views, join_strings};

verus! {

/// The documentation of one built-in function: its name, the forms it can
/// be called in, and a description.
pub struct BuiltinDoc {
    pub name: String,
    pub signatures: Vec<String>,
    pub documentation: String,
}

/// The first entry of `table` named `name`.
pub open spec fn builtin_entry(table: Seq<BuiltinDoc>, name: Seq<char>) -> Option<BuiltinDoc>
    decreases table.len(),
{
    if table.len() == 0 {
        None
    } else if table[0].name@ == name {
        Some(table[0])
    } else {
        builtin_entry(table.drop_first(), name)
    }
}

/// The markdown lines of a built-in's documentation: when it has
/// signatures, a heading, one `` - `form` `` line per signature and a blank
/// line; then the description.
pub open spec fn builtin_doc_lines(sigs: Seq<Seq<char>>, doc: Seq<char>) -> Seq<Seq<char>> {
    (if sigs.len() > 0 {
        seq!["**Signatures:**"@] + sigs.map_values(|s: Seq<char>| "- `"@ + s + "`"@) + seq![Seq::empty()]
    } else {
        Seq::empty()
    }).push(doc)
}

/// The markdown documentation of a built-in.
pub open spec fn builtin_markdown(entry: BuiltinDoc) -> Seq<char> {
    joined(builtin_doc_lines(string_views(entry.signatures@), entry.documentation@), "\n"@)
}

/// The description of a variable by its sigil.
pub open spec fn variable_doc(label: Seq<char>) -> Option<Seq<char>> {
    if label.len() > 0 && label[0] == '$' {
        Some("Scalar variable - holds a single value (string, number, or reference)"@)
    } else if label.len() > 0 && label[0] == '@' {
        Some("Array variable - holds an ordered list of scalars"@)
    } else if label.len() > 0 && label[0] == '%' {
        Some("Hash variable - holds a set of key-value pairs"@)
    } else {
        None
    }
}

/// The description of the declaration and module keywords.
pub open spec fn declaration_keyword_doc(label: Seq<char>) -> Option<Seq<char>> {
    if label == "my"@ {
        Some("Declares a lexically scoped variable"@)
    } else if label == "our"@ {
        Some("Declares a package variable visible to all code in its package"@)
    } else if label == "local"@ {
        Some("Temporarily saves and restores a variable's value"@)
    } else if label == "state"@ {
        Some("Declares a persistent lexical variable (Perl 5.10+)"@)
    } else if label == "sub"@ {
        Some("Declares a subroutine"@)
    } else if label == "package"@ {
        Some("Declares a namespace"@)
    } else if label == "use"@ {
        Some("Imports a module at compile time"@)
    } else if label == "require"@ {
        Some("Loads a module at runtime"@)
    } else {
        None
    }
}

/// The description of the control-flow keywords.
pub open spec fn control_keyword_doc(label: Seq<char>) -> Option<Seq<char>> {
    if label == "if"@ {
        Some("Conditional execution"@)
    } else if label == "elsif"@ {
        Some("Additional conditional branch"@)
    } else if label == "else"@ {
        Some("Default conditional branch"@)
    } else if label == "unless"@ {
        Some("Negated conditional execution"@)
    } else if label == "while"@ {
        Some("Loop while condition is true"@)
    } else if label == "until"@ {
        Some("Loop until condition is true"@)
    } else if label == "for"@ {
        Some("C-style loop or list iteration"@)
    } else if label == "foreach"@ {
        Some("Iterate over a list"@)
    } else {
        None
    }
}

/// The description of the switch and jump keywords.
pub open spec fn jump_keyword_doc(label: Seq<char>) -> Option<Seq<char>> {
    if label == "given"@ {
        Some("Switch statement (Perl 5.10+)"@)
    } else if label == "when"@ {
        Some("Case in a switch statement"@)
    } else if label == "default"@ {
        Some("Default case in a switch statement"@)
    } else if label == "return"@ {
        Some("Returns from a subroutine"@)
    } else if label == "last"@ {
        Some("Exits a loop immediately"@)
    } else if label == "next"@ {
        Some("Skips to the next iteration of a loop"@)
    } else if label == "redo"@ {
        Some("Restarts the current iteration without re-evaluating condition"@)
    } else if label == "goto"@ {
        Some("Transfers control to another location"@)
    } else {
        None
    }
}

/// The description of a Perl keyword.
pub open spec fn keyword_doc(label: Seq<char>) -> Option<Seq<char>> {
    match declaration_keyword_doc(label) {
        Some(d) => Some(d),
        None => match control_keyword_doc(label) {
            Some(d) => Some(d),
            None => jump_keyword_doc(label),
        },
    }
}

/// The completion kind of variables.
pub const VARIABLE_KIND: u64 = 6;

/// The completion kind of keywords.
pub const KEYWORD_KIND: u64 = 14;

/// The label of a completion item (empty when it has none).
pub open spec fn item_label(item: JsonValue) -> Seq<char> {
    match spec_as_str(spec_get(item, "label"@)) {
        Some(l) => l,
        None => Seq::empty(),
    }
}

/// The kind of a completion item (0 when it has none).
pub open spec fn item_kind(item: JsonValue) -> u64 {
    match spec_as_u64(spec_get(item, "kind"@)) {
        Some(k) => k,
        None => 0,
    }
}

/// The documentation that resolving `item` adds: a built-in's always; a
/// variable's or keyword's only when the item has none yet.
pub open spec fn resolved_doc(item: JsonValue, table: Seq<BuiltinDoc>) -> Option<Seq<char>> {
    let label = item_label(item);
    let has_doc = spec_get(item, "documentation"@) is Some;
    match builtin_entry(table, label) {
        Some(entry) => Some(builtin_markdown(entry)),
        None => if item_kind(item) == VARIABLE_KIND && !has_doc {
            variable_doc(label)
        } else if item_kind(item) == KEYWORD_KIND && !has_doc {
            keyword_doc(label)
        } else {
            None
        },
    }
}

/// `v` is the markup content `{"kind": "markdown", "value": text}`.
pub open spec fn is_markdown_content(v: JsonValue, text: Seq<char>) -> bool {
    let ms = members_of(v);
    &&& v is Obj
    &&& ms.len() == 2
    &&& ms[0].key@ == "kind"@
    &&& is_str(ms[0].value, "markdown"@)
    &&& ms[1].key@ == "value"@
    &&& is_str(ms[1].value, text)
}

/// `r` is `item` resolved against `table`: with the documentation set when
/// there is one and the item is an object, otherwise `item` itself.
pub open spec fn is_resolved(r: JsonValue, item: JsonValue, table: Seq<BuiltinDoc>) -> bool {
    match resolved_doc(item, table) {
        Some(d) => if item is Obj {
            &&& r is Obj
            &&& spec_get(r, "documentation"@) matches Some(doc) && is_markdown_content(doc, d)
            &&& forall|k: Seq<char>| k != "documentation"@ ==> #[trigger] spec_get(r, k) == spec_get(item, k)
        } else {
            r == item
        },
        None => r == item,
    }
}

fn markdown_content(text: &str) -> (r: JsonValue)
    ensures
        is_markdown_content(r, text@),
{
    let mut ms: Vec<JsonMember> = Vec::new();
    ms.push(member("kind", str_value("markdown")));
    ms.push(member("value", str_value(text)));
    JsonValue::Obj(ms)
}

/// The first entry of `table` named `name`.
fn find_builtin<'a>(table: &'a Vec<BuiltinDoc>, name: &str) -> (r: Option<&'a BuiltinDoc>)
    ensures
        match r {
            Some(e) => builtin_entry(table@, name@) == Some(*e),
            None => builtin_entry(table@, name@) is None,
        },
{
    let mut i: usize = 0;
    assert(table@.skip(0) =~= table@);
    while i < table.len()
        invariant
            i <= table.len(),
            builtin_entry(table@, name@) == builtin_entry(table@.skip(i as int), name@),
        decreases table.len() - i,
    {
        assert(table@.skip(i as int).drop_first() =~= table@.skip(i + 1));
        assert(table@.skip(i as int)[0] == table@[i as int]);
        if str_eq(table[i].name.as_str(), name) {
            return Some(&table[i]);
        }
        i = i + 1;
    }
    None
}

/// The markdown documentation of a built-in.
fn builtin_markdown_text(entry: &BuiltinDoc) -> (r: String)
    ensures
        r@ == builtin_markdown(*entry),
{
    let ghost sigs = string_views(entry.signatures@);
    let mut lines: Vec<String> = Vec::new();
    if entry.signatures.len() > 0 {
        lines.push(owned("**Signatures:**"));
        let mut i: usize = 0;
        while i < entry.signatures.len()
            invariant
                i <= entry.signatures.len(),
                sigs == string_views(entry.signatures@),
                string_views(lines@) == seq!["**Signatures:**"@] + sigs.take(i as int).map_values(
                    |s: Seq<char>| "- `"@ + s + "`"@,
                ),
            decreases entry.signatures.len() - i,
        {
            let mut line = owned("- `");
            line.append(entry.signatures[i].as_str());
            line.append("`");
            let ghost before = string_views(lines@);
            lines.push(line);
            proof {
                assert(sigs.take(i + 1) =~= sigs.take(i as int).push(sigs[i as int]));
                assert(string_views(lines@) =~= before.push(line@));
                assert(seq!["**Signatures:**"@] + sigs.take(i + 1).map_values(|s: Seq<char>| "- `"@ + s + "`"@)
                    =~= (seq!["**Signatures:**"@] + sigs.take(i as int).map_values(
                    |s: Seq<char>| "- `"@ + s + "`"@,
                )).push("- `"@ + sigs[i as int] + "`"@));
            }
            i = i + 1;
        }
        let ghost before = string_views(lines@);
        lines.push(String::new());
        proof {
            assert(sigs.take(sigs.len() as int) =~= sigs);
            assert(string_views(lines@) =~= before.push(Seq::empty()));
        }
    }
    let ghost before = string_views(lines@);
    lines.push(owned(entry.documentation.as_str()));
    proof {
        assert(string_views(lines@) =~= before.push(entry.documentation@));
        if entry.signatures@.len() == 0 {
            assert(before =~= Seq::<Seq<char>>::empty());
        }
        assert(string_views(lines@) =~= builtin_doc_lines(sigs, entry.documentation@));
    }
    join_strings(&lines, "\n")
}

fn variable_doc_text(label: &str) -> (r: Option<&'static str>)
    ensures
        match r {
            Some(d) => variable_doc(label@) == Some(d@),
            None => variable_doc(label@) is None,
        },
{
    let chars = str_chars(label);
    if chars.len() > 0 && chars[0] == '$' {
        Some("Scalar variable - holds a single value (string, number, or reference)")
    } else if chars.len() > 0 && chars[0] == '@' {
        Some("Array variable - holds an ordered list of scalars")
    } else if chars.len() > 0 && chars[0] == '%' {
        Some("Hash variable - holds a set of key-value pairs")
    } else {
        None
    }
}

fn declaration_keyword_text(label: &str) -> (r: Option<&'static str>)
    ensures
        match r {
            Some(d) => declaration_keyword_doc(label@) == Some(d@),
            None => declaration_keyword_doc(label@) is None,
        },
{
    if str_eq(label, "my") {
        Some("Declares a lexically scoped variable")
    } else if str_eq(label, "our") {
        Some("Declares a package variable visible to all code in its package")
    } else if str_eq(label, "local") {
        Some("Temporarily saves and restores a variable's value")
    } else if str_eq(label, "state") {
        Some("Declares a persistent lexical variable (Perl 5.10+)")
    } else if str_eq(label, "sub") {
        Some("Declares a subroutine")
    } else if str_eq(label, "package") {
        Some("Declares a namespace")
    } else if str_eq(label, "use") {
        Some("Imports a module at compile time")
    } else if str_eq(label, "require") {
        Some("Loads a module at runtime")
    } else {
        None
    }
}

fn control_keyword_text(label: &str) -> (r: Option<&'static str>)
    ensures
        match r {
            Some(d) => control_keyword_doc(label@) == Some(d@),
            None => control_keyword_doc(label@) is None,
        },
{
    if str_eq(label, "if") {
        Some("Conditional execution")
    } else if str_eq(label, "elsif") {
        Some("Additional conditional branch")
    } else if str_eq(label, "else") {
        Some("Default conditional branch")
    } else if str_eq(label, "unless") {
        Some("Negated conditional execution")
    } else if str_eq(label, "while") {
        Some("Loop while condition is true")
    } else if str_eq(label, "until") {
        Some("Loop until condition is true")
    } else if str_eq(label, "for") {
        Some("C-style loop or list iteration")
    } else if str_eq(label, "foreach") {
        Some("Iterate over a list")
    } else {
        None
    }
}

fn jump_keyword_text(label: &str) -> (r: Option<&'static str>)
    ensures
        match r {
            Some(d) => jump_keyword_doc(label@) == Some(d@),
            None => jump_keyword_doc(label@) is None,
        },
{
    if str_eq(label, "given") {
        Some("Switch statement (Perl 5.10+)")
    } else if str_eq(label, "when") {
        Some("Case in a switch statement")
    } else if str_eq(label, "default") {
        Some("Default case in a switch statement")
    } else if str_eq(label, "return") {
        Some("Returns from a subroutine")
    } else if str_eq(label, "last") {
        Some("Exits a loop immediately")
    } else if str_eq(label, "next") {
        Some("Skips to the next iteration of a loop")
    } else if str_eq(label, "redo") {
        Some("Restarts the current iteration without re-evaluating condition")
    } else if str_eq(label, "goto") {
        Some("Transfers control to another location")
    } else {
        None
    }
}

fn keyword_doc_text(label: &str) -> (r: Option<&'static str>)
    ensures
        match r {
            Some(d) => keyword_doc(label@) == Some(d@),
            None => keyword_doc(label@) is None,
        },
{
    match declaration_keyword_text(label) {
        Some(d) => Some(d),
        None => match control_keyword_text(label) {
            Some(d) => Some(d),
            None => jump_keyword_text(label),
        },
    }
}

/// The documentation that resolving `item` adds, as text.
fn resolved_doc_text(item: &JsonValue, table: &Vec<BuiltinDoc>) -> (r: Option<String>)
    ensures
        match r {
            Some(d) => resolved_doc(*item, table@) == Some(d@),
            None => resolved_doc(*item, table@) is None,
        },
{
    let label: &str = match item.get("label") {
        Some(v) => match v.as_str() {
            Some(s) => s,
            None => "",
        },
        None => "",
    };
    proof {
        reveal_strlit("");
        assert(label@ == item_label(*item));
    }
    let kind: u64 = match item.get("kind") {
        Some(v) => match v.as_u64() {
            Some(k) => k,
            None => 0,
        },
        None => 0,
    };
    let has_doc = item.get("documentation").is_some();
    if let Some(entry) = find_builtin(table, label) {
        return Some(builtin_markdown_text(entry));
    }
    if kind == VARIABLE_KIND && !has_doc {
        match variable_doc_text(label) {
            Some(d) => Some(owned(d)),
            None => None,
        }
    } else if kind == KEYWORD_KIND && !has_doc {
        match keyword_doc_text(label) {
            Some(d) => Some(owned(d)),
            None => None,
        }
    } else {
        None
    }
}

impl LspServer {
    /// `completionItem/resolve`: the item with documentation added from the
    /// table of built-ins, or for a variable or keyword without any; no
    /// item gives none. The request never fails.
    pub fn handle_completion_resolve(&self, params: Option<JsonValue>, builtins: &Vec<BuiltinDoc>) -> (r: Result<
        Option<JsonValue>,
        JsonRpcError,
    >)
        ensures
            match params {
                None => r == Ok::<Option<JsonValue>, JsonRpcError>(None),
                Some(item) => r matches Ok(Some(v)) && is_resolved(v, item, builtins@),
            },
    {
        let item = match params {
            Some(item) => item,
            None => return Ok(None),
        };
        match resolved_doc_text(&item, builtins) {
            Some(doc) => {
                let content = markdown_content(doc.as_str());
                let ghost before = item;
                let out = item.with_member("documentation", content);
                Ok(Some(out))
            },
            None => Ok(Some(item)),
        }
    }
}

} // verus!
