//! The hover cards of symbols that the semantic analyzer found: Moo/Moose
//! accessors, method modifiers, and the general card of variables,
//! subroutines and other symbols.
use vstd::prelude::*;
use crate::lifecycle::LspServer;
use crate::hover_text::{joined, moo_hover_lines, string_views, join_strings};
use crate::text::{owned, str_eq, str_starts_with, str_chars, string_from_chars};

verus! {

/// The kinds of symbol the analyzer reports.
#[derive(Clone, Copy, Debug, PartialEq, Eq, Structural)]
pub enum HoverSymbolKind {
    Scalar,
    Array,
    Hash,
    Subroutine,
    Method,
    Package,
    Constant,
    Label,
    Format,
    Other,
}

/// What the analyzer knows of the symbol under the cursor, and what the
/// card needs from elsewhere: the sigil of its kind, the parameters of a
/// subroutine with the complexity section of its body, the line of a
/// variable's declaration, its scope, its inferred type and the class it
/// is tied to.
pub struct SymbolHover {
    pub kind: HoverSymbolKind,
    pub name: String,
    pub sigil: String,
    pub declaration: Option<String>,
    pub attributes: Vec<String>,
    pub documentation: Option<String>,
    pub params: Vec<String>,
    pub complexity: String,
    pub declared_line: u32,
    pub scope_context: String,
    pub type_label: Option<String>,
    pub tied_class: Option<String>,
}

/// The digit `d` (0 to 9).
pub open spec fn digit(d: nat) -> char {
    if d == 0 { '0' } else if d == 1 { '1' } else if d == 2 { '2' } else if d == 3 { '3' } else if d == 4 { '4' }
    else if d == 5 { '5' } else if d == 6 { '6' } else if d == 7 { '7' } else if d == 8 { '8' } else { '9' }
}

/// The decimal digits of `n`.
pub open spec fn decimal(n: nat) -> Seq<char>
    decreases n,
{
    if n < 10 {
        seq![digit(n)]
    } else {
        decimal(n / 10).push(digit(n % 10))
    }
}

fn digit_char(d: u64) -> (c: char)
    requires
        d < 10,
    ensures
        c == digit(d as nat),
{
    if d == 0 { '0' } else if d == 1 { '1' } else if d == 2 { '2' } else if d == 3 { '3' } else if d == 4 { '4' }
    else if d == 5 { '5' } else if d == 6 { '6' } else if d == 7 { '7' } else if d == 8 { '8' } else { '9' }
}

/// The decimal text of `n`.
pub fn decimal_string(n: u64) -> (s: String)
    ensures
        s@ == decimal(n as nat),
    decreases n,
{
    if n < 10 {
        let mut s = String::new();
        crate::text::string_push(&mut s, digit_char(n));
        assert(s@ =~= seq![digit(n as nat)]);
        s
    } else {
        let mut s = decimal_string(n / 10);
        crate::text::string_push(&mut s, digit_char(n % 10));
        s
    }
}

/// The title of the card of each kind.
pub open spec fn kind_title(k: HoverSymbolKind) -> Seq<char> {
    match k {
        HoverSymbolKind::Scalar => "Scalar Variable"@,
        HoverSymbolKind::Array => "Array Variable"@,
        HoverSymbolKind::Hash => "Hash Variable"@,
        HoverSymbolKind::Subroutine => "Subroutine"@,
        HoverSymbolKind::Method => "Method"@,
        HoverSymbolKind::Package => "Package"@,
        HoverSymbolKind::Constant => "Constant"@,
        HoverSymbolKind::Label => "Label"@,
        HoverSymbolKind::Format => "Format"@,
        HoverSymbolKind::Other => "Symbol"@,
    }
}

pub open spec fn is_variable(k: HoverSymbolKind) -> bool {
    k == HoverSymbolKind::Scalar || k == HoverSymbolKind::Array || k == HoverSymbolKind::Hash
}

/// What a method modifier does, for each modifier kind.
pub open spec fn modifier_label(kind: Seq<char>) -> Seq<char> {
    if kind == "before"@ {
        "runs **before** the method — use for preconditions and logging"@
    } else if kind == "after"@ {
        "runs **after** the method — use for postconditions and cleanup"@
    } else if kind == "around"@ {
        "wraps the method — receives `$orig` as first arg, must call `$orig->($self, @_)`"@
    } else if kind == "override"@ {
        "overrides the parent method — use to replace inherited behavior"@
    } else if kind == "augment"@ {
        "extends the parent method — call `inner()` to invoke the next layer"@
    } else {
        "modifies the method"@
    }
}

/// The modifier kind of the first attribute `modifier=kind`.
pub open spec fn first_modifier(attrs: Seq<Seq<char>>) -> Option<Seq<char>>
    decreases attrs.len(),
{
    if attrs.len() == 0 {
        None
    } else if "modifier="@.is_prefix_of(attrs[0]) {
        Some(attrs[0].skip(9))
    } else {
        first_modifier(attrs.drop_first())
    }
}

pub open spec fn opt_text(s: Option<String>) -> Seq<char> {
    match s {
        Some(x) => x@,
        None => Seq::empty(),
    }
}

/// The card of a method modifier of kind `kind`.
pub open spec fn modifier_card(kind: Seq<char>, name: Seq<char>, doc: Seq<char>) -> Seq<char> {
    "**Method Modifier (`"@ + kind + "`)**\n\n`"@ + name + "` — "@ + modifier_label(kind) + "\n\n"@ + doc
}

/// How the symbol is shown: `sub name(params)` (or `method ...`) for
/// subroutines, without the brackets when no parameter is known; the
/// sigil and name otherwise.
pub open spec fn display_name(h: SymbolHover) -> Seq<char> {
    if h.kind == HoverSymbolKind::Subroutine || h.kind == HoverSymbolKind::Method {
        let prefix = if h.kind == HoverSymbolKind::Method { "method "@ } else { "sub "@ };
        if h.params@.len() == 0 {
            prefix + h.name@
        } else {
            prefix + h.name@ + "("@ + joined(string_views(h.params@), ", "@) + ")"@
        }
    } else {
        h.sigil@ + h.name@
    }
}

pub open spec fn decl_part(h: SymbolHover) -> Seq<char> {
    match h.declaration {
        Some(d) => "\n**Declaration**: `"@ + d@ + "`"@,
        None => Seq::empty(),
    }
}

pub open spec fn variable_part(h: SymbolHover) -> Seq<char> {
    if is_variable(h.kind) {
        let ty = match h.type_label {
            Some(t) => if t@ != "Any"@ { "\n**Type**: `"@ + t@ + "`"@ } else { Seq::empty() },
            None => Seq::empty(),
        };
        let tied = match h.tied_class {
            Some(c) => "\n**Tied to**: `"@ + c@ + "`"@,
            None => Seq::empty(),
        };
        "\n**Declared at**: line "@ + decimal(h.declared_line as nat + 1) + h.scope_context@ + ty + tied
    } else {
        Seq::empty()
    }
}

pub open spec fn tail_part(h: SymbolHover) -> Seq<char> {
    let attrs = if h.attributes@.len() == 0 {
        Seq::empty()
    } else {
        "\n**Attributes**: "@ + joined(string_views(h.attributes@), ", "@)
    };
    let complexity = if h.complexity@.len() == 0 { Seq::empty() } else { "\n\n"@ + h.complexity@ };
    let doc = match h.documentation {
        Some(d) => "\n\n"@ + d@,
        None => Seq::empty(),
    };
    attrs + complexity + doc
}

/// The general card: title, shown name, then the declaration; for a
/// variable the line of its declaration, its scope, its type (unless
/// `Any`) and the class it is tied to; then the attributes, the
/// complexity section and the documentation.
pub open spec fn general_card(h: SymbolHover) -> Seq<char> {
    "**"@ + kind_title(h.kind) + "**\n\n`"@ + display_name(h) + "`"@ + decl_part(h) + variable_part(h) + tail_part(h)
}

/// The hover card of a symbol: the accessor card for a `has` attribute,
/// the modifier card for a method modifier, the general card otherwise.
pub open spec fn symbol_card(h: SymbolHover) -> Seq<char> {
    if h.declaration matches Some(d) && d@ == "has"@ {
        joined(moo_hover_lines(h.name@, string_views(h.attributes@)), "\n"@)
    } else {
        match first_modifier(string_views(h.attributes@)) {
            Some(kind) => modifier_card(kind, h.name@, opt_text(h.documentation)),
            None => general_card(h),
        }
    }
}

fn find_modifier(attributes: &Vec<String>) -> (r: Option<String>)
    ensures
        match first_modifier(string_views(attributes@)) {
            Some(k) => r matches Some(s) && s@ == k,
            None => r is None,
        },
{
    let ghost all = string_views(attributes@);
    let mut i: usize = 0;
    assert(all.skip(0) =~= all);
    while i < attributes.len()
        invariant
            i <= attributes.len(),
            all == string_views(attributes@),
            first_modifier(all) == first_modifier(all.skip(i as int)),
        decreases attributes.len() - i,
    {
        assert(all.skip(i as int).drop_first() =~= all.skip(i + 1));
        assert(all.skip(i as int)[0] == attributes@[i as int]@);
        if str_starts_with(attributes[i].as_str(), "modifier=") {
            proof { reveal_strlit("modifier="); }
            let chars = str_chars(attributes[i].as_str());
            let rest = string_from_chars(&chars.as_slice()[9..chars.len()]);
            assert(chars@.subrange(9, chars@.len() as int) =~= attributes@[i as int]@.skip(9));
            return Some(rest);
        }
        i = i + 1;
    }
    None
}

fn modifier_text(kind: &str) -> (r: &'static str)
    ensures
        r@ == modifier_label(kind@),
{
    if str_eq(kind, "before") {
        "runs **before** the method — use for preconditions and logging"
    } else if str_eq(kind, "after") {
        "runs **after** the method — use for postconditions and cleanup"
    } else if str_eq(kind, "around") {
        "wraps the method — receives `$orig` as first arg, must call `$orig->($self, @_)`"
    } else if str_eq(kind, "override") {
        "overrides the parent method — use to replace inherited behavior"
    } else if str_eq(kind, "augment") {
        "extends the parent method — call `inner()` to invoke the next layer"
    } else {
        "modifies the method"
    }
}

fn kind_text(k: HoverSymbolKind) -> (r: &'static str)
    ensures
        r@ == kind_title(k),
{
    match k {
        HoverSymbolKind::Scalar => "Scalar Variable",
        HoverSymbolKind::Array => "Array Variable",
        HoverSymbolKind::Hash => "Hash Variable",
        HoverSymbolKind::Subroutine => "Subroutine",
        HoverSymbolKind::Method => "Method",
        HoverSymbolKind::Package => "Package",
        HoverSymbolKind::Constant => "Constant",
        HoverSymbolKind::Label => "Label",
        HoverSymbolKind::Format => "Format",
        HoverSymbolKind::Other => "Symbol",
    }
}

fn display_name_text(h: &SymbolHover) -> (r: String)
    ensures
        r@ == display_name(*h),
{
    let mut s = String::new();
    match h.kind {
        HoverSymbolKind::Subroutine | HoverSymbolKind::Method => {
            match h.kind {
                HoverSymbolKind::Method => s.append("method "),
                _ => s.append("sub "),
            }
            s.append(h.name.as_str());
            if h.params.len() > 0 {
                s.append("(");
                let ps = join_strings(&h.params, ", ");
                s.append(ps.as_str());
                s.append(")");
            }
        },
        _ => {
            s.append(h.sigil.as_str());
            s.append(h.name.as_str());
        },
    }
    s
}

fn decl_text(h: &SymbolHover) -> (r: String)
    ensures
        r@ == decl_part(*h),
{
    let mut s = String::new();
    if let Some(d) = &h.declaration {
        s.append("\n**Declaration**: `");
        s.append(d.as_str());
        s.append("`");
    }
    s
}

fn variable_text(h: &SymbolHover) -> (r: String)
    requires
        h.declared_line < u32::MAX,
    ensures
        r@ == variable_part(*h),
{
    let mut s = String::new();
    let var = match h.kind {
        HoverSymbolKind::Scalar | HoverSymbolKind::Array | HoverSymbolKind::Hash => true,
        _ => false,
    };
    if !var {
        return s;
    }
    s.append("\n**Declared at**: line ");
    let n = decimal_string(h.declared_line as u64 + 1);
    s.append(n.as_str());
    s.append(h.scope_context.as_str());
    if let Some(t) = &h.type_label {
        if !str_eq(t.as_str(), "Any") {
            s.append("\n**Type**: `");
            s.append(t.as_str());
            s.append("`");
        }
    }
    if let Some(c) = &h.tied_class {
        s.append("\n**Tied to**: `");
        s.append(c.as_str());
        s.append("`");
    }
    s
}

fn tail_text(h: &SymbolHover) -> (r: String)
    ensures
        r@ == tail_part(*h),
{
    let mut s = String::new();
    if h.attributes.len() > 0 {
        s.append("\n**Attributes**: ");
        let a = join_strings(&h.attributes, ", ");
        s.append(a.as_str());
    }
    if h.complexity.as_str().unicode_len() > 0 {
        s.append("\n\n");
        s.append(h.complexity.as_str());
    }
    if let Some(d) = &h.documentation {
        s.append("\n\n");
        s.append(d.as_str());
    }
    s
}

impl LspServer {
    /// The markdown of the method modifier card.
    pub fn method_modifier_card(kind: &str, name: &str, documentation: Option<&str>) -> (r: String)
        ensures
            r@ == modifier_card(kind@, name@, match documentation { Some(d) => d@, None => Seq::empty() }),
    {
        let mut s = owned("**Method Modifier (`");
        s.append(kind);
        s.append("`)**\n\n`");
        s.append(name);
        s.append("` — ");
        s.append(modifier_text(kind));
        s.append("\n\n");
        match documentation {
            Some(d) => s.append(d),
            None => {},
        }
        s
    }

    /// The markdown hover card of a symbol the analyzer found.
    pub fn symbol_hover_markdown(h: &SymbolHover) -> (r: String)
        requires
            h.declared_line < u32::MAX,
        ensures
            r@ == symbol_card(*h),
    {
        let is_has = match &h.declaration {
            Some(d) => str_eq(d.as_str(), "has"),
            None => false,
        };
        if is_has {
            return Self::format_moo_accessor_hover(h.name.as_str(), &h.attributes);
        }
        match find_modifier(&h.attributes) {
            Some(kind) => {
                let doc: Option<&str> = match &h.documentation {
                    Some(d) => Some(d.as_str()),
                    None => None,
                };
                return Self::method_modifier_card(kind.as_str(), h.name.as_str(), doc);
            },
            None => {},
        }
        Self::general_card_markdown(h)
    }

    fn general_card_markdown(h: &SymbolHover) -> (r: String)
        requires
            h.declared_line < u32::MAX,
        ensures
            r@ == general_card(*h),
    {
        let mut s = owned("**");
        s.append(kind_text(h.kind));
        s.append("**\n\n`");
        let name = display_name_text(h);
        s.append(name.as_str());
        s.append("`");
        let d = decl_text(h);
        s.append(d.as_str());
        let v = variable_text(h);
        s.append(v.as_str());
        let t = tail_text(h);
        s.append(t.as_str());
        assert(s@ =~= general_card(*h));
        s
    }
}

} // verus!

verus! {

proof fn lemma_kind_title_shapes()
    ensures
        kind_title(HoverSymbolKind::Scalar).len() == 15,
        kind_title(HoverSymbolKind::Array).len() == 14,
        kind_title(HoverSymbolKind::Hash).len() == 13,
        kind_title(HoverSymbolKind::Subroutine).len() == 10,
        kind_title(HoverSymbolKind::Method).len() == 6 && kind_title(HoverSymbolKind::Method)[0] == 'M',
        kind_title(HoverSymbolKind::Package).len() == 7,
        kind_title(HoverSymbolKind::Constant).len() == 8,
        kind_title(HoverSymbolKind::Label).len() == 5,
        kind_title(HoverSymbolKind::Format).len() == 6 && kind_title(HoverSymbolKind::Format)[0] == 'F',
        kind_title(HoverSymbolKind::Other).len() == 6 && kind_title(HoverSymbolKind::Other)[0] == 'S',
{
    reveal_strlit("Scalar Variable");
    reveal_strlit("Array Variable");
    reveal_strlit("Hash Variable");
    reveal_strlit("Subroutine");
    reveal_strlit("Method");
    reveal_strlit("Package");
    reveal_strlit("Constant");
    reveal_strlit("Label");
    reveal_strlit("Format");
    reveal_strlit("Symbol");
}

/// Different kinds of symbol get different card titles, so a hash is never
/// shown as an array; the title of a variable names its kind: `Scalar
/// Variable`, `Array Variable` or `Hash Variable`.
pub proof fn lemma_kind_titles_are_distinct(k1: HoverSymbolKind, k2: HoverSymbolKind)
    ensures
        k1 != k2 ==> kind_title(k1) != kind_title(k2),
        k1 == HoverSymbolKind::Scalar ==> kind_title(k1) == "Scalar Variable"@,
        k1 == HoverSymbolKind::Array ==> kind_title(k1) == "Array Variable"@,
        k1 == HoverSymbolKind::Hash ==> kind_title(k1) == "Hash Variable"@,
{
    lemma_kind_title_shapes();
}

/// The general card of a symbol opens with its kind's title in bold.
pub proof fn lemma_card_opens_with_title(h: SymbolHover)
    ensures
        general_card(h).take(kind_title(h.kind).len() + 2int) == "**"@ + kind_title(h.kind),
{
    reveal_strlit("**");
    let t = "**"@ + kind_title(h.kind);
    let rest = "**\n\n`"@ + display_name(h) + "`"@ + decl_part(h) + variable_part(h) + tail_part(h);
    assert(general_card(h) =~= t + rest);
    assert((t + rest).take(t.len() as int) =~= t);
}

} // verus!
