//! `textDocument/declaration`: the declarations found, as location links
//! or, for clients without link support, as plain locations.
use vstd::prelude::*;
use crate::json::{JsonValue, JsonMember, member, str_value, range_value, is_str, members_of};
use crate::lifecycle::LspServer;
use crate::diagnostic_json::is_range_of;
use crate::document::{offset_to_position_in, position_of_offset};

verus! {

/// A declaration found for the symbol at the cursor: the byte range of the
/// symbol (in the current document), the target document, and the byte
/// ranges there of the whole declaration and of its name.
pub struct DeclarationLink {
    pub origin_selection_range: (usize, usize),
    pub target_uri: String,
    pub target_range: (usize, usize),
    pub target_selection_range: (usize, usize),
}

/// `v` is the range of the byte span `r` of `text`.
pub open spec fn is_span_of(v: JsonValue, text: Seq<char>, r: (usize, usize)) -> bool {
    is_range_of(v, position_of_offset(text, r.0 as int), position_of_offset(text, r.1 as int))
}

/// `v` is the `LocationLink` of `link`, positions taken in `text`.
pub open spec fn is_location_link(v: JsonValue, text: Seq<char>, link: DeclarationLink) -> bool {
    let ms = members_of(v);
    &&& v is Obj
    &&& ms.len() == 4
    &&& ms[0].key@ == "originSelectionRange"@
    &&& is_span_of(ms[0].value, text, link.origin_selection_range)
    &&& ms[1].key@ == "targetUri"@
    &&& is_str(ms[1].value, link.target_uri@)
    &&& ms[2].key@ == "targetRange"@
    &&& is_span_of(ms[2].value, text, link.target_range)
    &&& ms[3].key@ == "targetSelectionRange"@
    &&& is_span_of(ms[3].value, text, link.target_selection_range)
}

/// `v` is the `Location` of `link`: its target and the name's range.
pub open spec fn is_location(v: JsonValue, text: Seq<char>, link: DeclarationLink) -> bool {
    let ms = members_of(v);
    &&& v is Obj
    &&& ms.len() == 2
    &&& ms[0].key@ == "uri"@
    &&& is_str(ms[0].value, link.target_uri@)
    &&& ms[1].key@ == "range"@
    &&& is_span_of(ms[1].value, text, link.target_selection_range)
}

pub(crate) fn span(text: &str, r: (usize, usize)) -> (v: JsonValue)
    requires
        text@.len() <= 0x7fff_ffff,
    ensures
        is_span_of(v, text@, r),
{
    let s = offset_to_position_in(text, r.0);
    let e = offset_to_position_in(text, r.1);
    range_value(s.0 as u64, s.1 as u64, e.0 as u64, e.1 as u64)
}

impl LspServer {
    /// The declaration response for `links` found in the document `text`:
    /// location links when the client supports them, plain locations
    /// otherwise, in the order found.
    pub fn declaration_response(&self, text: &str, links: &Vec<DeclarationLink>) -> (r: JsonValue)
        requires
            text@.len() <= 0x7fff_ffff,
        ensures
            r matches JsonValue::Arr(a) && a@.len() == links@.len() && forall|i: int|
                0 <= i < a@.len() ==> if self.client_capabilities.declaration_link_support {
                    is_location_link(#[trigger] a@[i], text@, links@[i])
                } else {
                    is_location(a@[i], text@, links@[i])
                },
    {
        let with_links = self.client_capabilities.declaration_link_support;
        let mut out: Vec<JsonValue> = Vec::new();
        let mut i: usize = 0;
        while i < links.len()
            invariant
                i <= links.len(),
                text@.len() <= 0x7fff_ffff,
                with_links == self.client_capabilities.declaration_link_support,
                out@.len() == i,
                forall|j: int|
                    0 <= j < i ==> if with_links {
                        is_location_link(#[trigger] out@[j], text@, links@[j])
                    } else {
                        is_location(out@[j], text@, links@[j])
                    },
            decreases links.len() - i,
        {
            let link = &links[i];
            let mut ms: Vec<JsonMember> = Vec::new();
            if with_links {
                ms.push(member("originSelectionRange", span(text, link.origin_selection_range)));
                ms.push(member("targetUri", str_value(link.target_uri.as_str())));
                ms.push(member("targetRange", span(text, link.target_range)));
                ms.push(member("targetSelectionRange", span(text, link.target_selection_range)));
            } else {
                ms.push(member("uri", str_value(link.target_uri.as_str())));
                ms.push(member("range", span(text, link.target_selection_range)));
            }
            out.push(JsonValue::Obj(ms));
            i = i + 1;
        }
        JsonValue::Arr(out)
    }
}

} // verus!
