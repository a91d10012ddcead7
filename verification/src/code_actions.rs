//! Code actions: filtering by requested kind, and the aggregate
//! `source.fixAll` action built from the quick fixes of a request.
use vstd::prelude::*;
use crate::json::{JsonValue, JsonMember, spec_get, spec_get_opt, spec_as_str, spec_as_u64, member, str_value, range_value, members_of};
use crate::text::{str_eq, str_starts_with, owned, seq_starts_with_at, str_chars};
use crate::capabilities::{string_elems, collect_strings};

verus! {

/// Whether an action of kind `kind` is wanted by a client that asked for
/// `requested`: an empty request wants everything; otherwise the kind must
/// be the requested one or one of its sub-kinds (`refactor.rewrite` is a
/// `refactor`).
pub open spec fn kind_matches(kind: Seq<char>, requested: Seq<char>) -> bool {
    ||| requested.len() == 0
    ||| kind == requested
    ||| (requested.is_prefix_of(kind) && kind.len() > requested.len() && kind[requested.len() as int] == '.')
}

pub fn code_action_kind_matches_filter(kind: &str, requested_kind: &str) -> (r: bool)
    ensures
        r == kind_matches(kind@, requested_kind@),
{
    if requested_kind.unicode_len() == 0 {
        return true;
    }
    if str_eq(kind, requested_kind) {
        return true;
    }
    let k = str_chars(kind);
    let q = str_chars(requested_kind);
    if !seq_starts_with_at(&k, 0, &q) {
        return false;
    }
    q.len() < k.len() && k[q.len()] == '.'
}

/// The kinds listed under `context.only` in code-action params (the
/// string entries, in order).
pub open spec fn requested_kinds(params: JsonValue) -> Seq<Seq<char>> {
    match spec_get_opt(spec_get(params, "context"@), "only"@) {
        Some(JsonValue::Arr(items)) => string_elems(items@),
        _ => Seq::empty(),
    }
}

pub fn requested_code_action_kinds(params: &JsonValue) -> (r: Vec<String>)
    ensures
        r@.map_values(|s: String| s@) == requested_kinds(*params),
{
    match params.get("context") {
        Some(ctx) => match ctx.get("only") {
            Some(JsonValue::Arr(items)) => collect_strings(items),
            _ => Vec::new(),
        },
        None => Vec::new(),
    }
}

/// Whether the action's `kind` is one of the requested kinds (or a sub-kind).
pub open spec fn action_requested(action: JsonValue, requested: Seq<Seq<char>>) -> bool {
    match spec_as_str(spec_get(action, "kind"@)) {
        Some(kind) => exists|i: int| 0 <= i < requested.len() && kind_matches(kind, #[trigger] requested[i]),
        None => false,
    }
}

/// The actions, in order, that a client asking for `requested` keeps: all
/// of them when nothing was requested.
pub open spec fn keep_requested(actions: Seq<JsonValue>, requested: Seq<Seq<char>>) -> Seq<JsonValue>
    decreases actions.len(),
{
    if requested.len() == 0 || actions.len() == 0 {
        actions
    } else {
        let rest = keep_requested(actions.drop_last(), requested);
        if action_requested(actions.last(), requested) {
            rest.push(actions.last())
        } else {
            rest
        }
    }
}

fn is_action_requested(action: &JsonValue, requested_kinds: &Vec<String>) -> (r: bool)
    ensures
        r == action_requested(*action, requested_kinds@.map_values(|s: String| s@)),
{
    let ghost req = requested_kinds@.map_values(|s: String| s@);
    match action.get("kind") {
        Some(JsonValue::Str(kind)) => {
            let mut i: usize = 0;
            while i < requested_kinds.len()
                invariant
                    i <= requested_kinds.len(),
                    req == requested_kinds@.map_values(|s: String| s@),
                    spec_as_str(spec_get(*action, "kind"@)) == Some(kind@),
                    forall|j: int| 0 <= j < i ==> !kind_matches(kind@, #[trigger] req[j]),
                decreases requested_kinds.len() - i,
            {
                if code_action_kind_matches_filter(kind.as_str(), requested_kinds[i].as_str()) {
                    assert(req[i as int] == requested_kinds@[i as int]@);
                    assert(kind_matches(kind@, req[i as int]));
                    return true;
                }
                i = i + 1;
            }
            false
        },
        _ => false,
    }
}

/// Keep only the actions whose kind the client asked for.
pub fn retain_requested_code_action_kinds(code_actions: &mut Vec<JsonValue>, requested_kinds: &Vec<String>)
    ensures
        final(code_actions)@ == keep_requested(old(code_actions)@, requested_kinds@.map_values(|s: String| s@)),
{
    let ghost req = requested_kinds@.map_values(|s: String| s@);
    let ghost all = code_actions@;
    if requested_kinds.len() == 0 {
        return;
    }
    let n = code_actions.len();
    let mut rest: Vec<JsonValue> = Vec::new();
    core::mem::swap(&mut rest, code_actions);
    let mut kept: Vec<JsonValue> = Vec::new();
    let mut k: usize = 0;
    while rest.len() > 0
        invariant
            req.len() > 0,
            req == requested_kinds@.map_values(|s: String| s@),
            k + rest@.len() == all.len(),
            all.len() <= usize::MAX,
            rest@ == all.skip(k as int),
            kept@ == keep_requested(all.take(k as int), req),
        decreases rest.len(),
    {
        let action = rest.remove(0);
        assert(all.take(k + 1).drop_last() =~= all.take(k as int));
        assert(all.take(k + 1).last() == all[k as int]);
        assert(all.skip(k as int)[0] == all[k as int]);
        assert(all.skip(k as int).drop_first() =~= all.skip(k + 1));
        if is_action_requested(&action, requested_kinds) {
            kept.push(action);
        }
        k = k + 1;
    }
    assert(all.take(k as int) =~= all);
    *code_actions = kept;
}

/// A text range of an edit, as line/character pairs, used to tell whether
/// two edits touch the same text.
#[derive(Clone, Copy, Debug, PartialEq, Eq, Structural)]
pub struct FixAllRange {
    pub start_line: u64,
    pub start_char: u64,
    pub end_line: u64,
    pub end_char: u64,
}

/// Position `(l1, c1)` comes strictly before `(l2, c2)`.
pub open spec fn pos_lt(l1: u64, c1: u64, l2: u64, c2: u64) -> bool {
    l1 < l2 || (l1 == l2 && c1 < c2)
}

impl FixAllRange {
    /// The range replaces nothing: its start is its end.
    pub open spec fn is_insertion(self) -> bool {
        self.start_line == self.end_line && self.start_char == self.end_char
    }

    /// Ranges ordered by start, then by end.
    pub open spec fn before_or_same(self, other: FixAllRange) -> bool {
        ||| pos_lt(self.start_line, self.start_char, other.start_line, other.start_char)
        ||| (self.start_line == other.start_line && self.start_char == other.start_char && !pos_lt(
            other.end_line,
            other.end_char,
            self.end_line,
            self.end_char,
        ))
    }

    /// The insertion point `(line, ch)` lies strictly inside this range.
    pub open spec fn strictly_inside(self, line: u64, ch: u64) -> bool {
        pos_lt(self.start_line, self.start_char, line, ch) && pos_lt(line, ch, self.end_line, self.end_char)
    }

    /// Two edits conflict: two insertions never do; an insertion conflicts
    /// with a replacement only strictly inside it; two replacements conflict
    /// when, taken in order, the later one starts before the earlier ends.
    pub open spec fn conflicts_with(self, other: FixAllRange) -> bool {
        if self.is_insertion() && other.is_insertion() {
            false
        } else if self.is_insertion() {
            other.strictly_inside(self.start_line, self.start_char)
        } else if other.is_insertion() {
            self.strictly_inside(other.start_line, other.start_char)
        } else if self.before_or_same(other) {
            pos_lt(other.start_line, other.start_char, self.end_line, self.end_char)
        } else {
            pos_lt(self.start_line, self.start_char, other.end_line, other.end_char)
        }
    }

    /// Whether the two ranges conflict (see `conflicts_with`).
    pub fn overlaps(&self, other: &FixAllRange) -> (r: bool)
        ensures
            r == self.conflicts_with(*other),
    {
        let self_ins = self.start_line == self.end_line && self.start_char == self.end_char;
        let other_ins = other.start_line == other.end_line && other.start_char == other.end_char;
        if self_ins && other_ins {
            return false;
        }
        if self_ins {
            return position_before(other.start_line, other.start_char, self.start_line, self.start_char)
                && position_before(self.start_line, self.start_char, other.end_line, other.end_char);
        }
        if other_ins {
            return position_before(self.start_line, self.start_char, other.start_line, other.start_char)
                && position_before(other.start_line, other.start_char, self.end_line, self.end_char);
        }
        let self_first = position_before(self.start_line, self.start_char, other.start_line, other.start_char)
            || (self.start_line == other.start_line && self.start_char == other.start_char
                && !position_before(other.end_line, other.end_char, self.end_line, self.end_char));
        if self_first {
            position_before(other.start_line, other.start_char, self.end_line, self.end_char)
        } else {
            position_before(self.start_line, self.start_char, other.end_line, other.end_char)
        }
    }
}

fn position_before(l1: u64, c1: u64, l2: u64, c2: u64) -> (r: bool)
    ensures
        r == pos_lt(l1, c1, l2, c2),
{
    l1 < l2 || (l1 == l2 && c1 < c2)
}

/// Conflict between edit ranges does not depend on the order in which the
/// two ranges are compared.
pub proof fn lemma_conflict_is_symmetric(x: FixAllRange, y: FixAllRange)
    ensures
        x.conflicts_with(y) == y.conflicts_with(x),
{
}

/// Zero-width insertions never conflict with each other, so several fixes
/// may insert at the same position.
pub proof fn lemma_insertions_never_conflict(x: FixAllRange, y: FixAllRange)
    requires
        x.is_insertion(),
        y.is_insertion(),
    ensures
        !x.conflicts_with(y),
{
}

/// An insertion conflicts with a replacement exactly when it falls strictly
/// inside the replaced text: at either boundary it is allowed.
pub proof fn lemma_insertion_conflicts_only_inside(ins: FixAllRange, span: FixAllRange)
    requires
        ins.is_insertion(),
        !span.is_insertion(),
    ensures
        ins.conflicts_with(span) == span.strictly_inside(ins.start_line, ins.start_char),
        (ins.start_line == span.start_line && ins.start_char == span.start_char) ==> !ins.conflicts_with(span),
        (ins.start_line == span.end_line && ins.start_char == span.end_char) ==> !ins.conflicts_with(span),
{
}

/// Two replacements whose starts come before their ends conflict exactly
/// when they share some text: each starts before the other ends. In
/// particular adjacent ranges (one ends where the other starts) do not.
pub proof fn lemma_replacements_conflict_iff_they_intersect(x: FixAllRange, y: FixAllRange)
    requires
        !x.is_insertion(),
        !y.is_insertion(),
        pos_lt(x.start_line, x.start_char, x.end_line, x.end_char),
        pos_lt(y.start_line, y.start_char, y.end_line, y.end_char),
    ensures
        x.conflicts_with(y) == (pos_lt(x.start_line, x.start_char, y.end_line, y.end_char) && pos_lt(
            y.start_line,
            y.start_char,
            x.end_line,
            x.end_char,
        )),
        (x.end_line == y.start_line && x.end_char == y.start_char) ==> !x.conflicts_with(y),
{
}

/// The range of an edit: `start` and `end` positions whose `line` and
/// `character` are non-negative integers.
pub open spec fn range_of(range: JsonValue) -> Option<FixAllRange> {
    let start = spec_get(range, "start"@);
    let end = spec_get(range, "end"@);
    match (
        spec_as_u64(spec_get_opt(start, "line"@)),
        spec_as_u64(spec_get_opt(start, "character"@)),
        spec_as_u64(spec_get_opt(end, "line"@)),
        spec_as_u64(spec_get_opt(end, "character"@)),
    ) {
        (Some(sl), Some(sc), Some(el), Some(ec)) => Some(
            FixAllRange { start_line: sl, start_char: sc, end_line: el, end_char: ec },
        ),
        _ => None,
    }
}

impl FixAllRange {
    /// Read a range from its JSON form; `None` when a position is missing
    /// or not a non-negative integer.
    pub fn from_json(range: &JsonValue) -> (r: Option<FixAllRange>)
        ensures
            r == range_of(*range),
    {
        let start = match range.get("start") {
            Some(s) => s,
            None => return None,
        };
        let end = match range.get("end") {
            Some(e) => e,
            None => return None,
        };
        let start_line = match start.get("line") {
            Some(v) => match v.as_u64() {
                Some(n) => n,
                None => return None,
            },
            None => return None,
        };
        let start_char = match start.get("character") {
            Some(v) => match v.as_u64() {
                Some(n) => n,
                None => return None,
            },
            None => return None,
        };
        let end_line = match end.get("line") {
            Some(v) => match v.as_u64() {
                Some(n) => n,
                None => return None,
            },
            None => return None,
        };
        let end_char = match end.get("character") {
            Some(v) => match v.as_u64() {
                Some(n) => n,
                None => return None,
            },
            None => return None,
        };
        Some(FixAllRange { start_line, start_char, end_line, end_char })
    }
}

} // verus!

verus! {

/// The values behind a sequence of references.
pub open spec fn derefs(v: Seq<&JsonValue>) -> Seq<JsonValue> {
    Seq::new(v.len(), |i: int| *v[i])
}

/// The edits of the `documentChanges` entries that edit the document `uri`,
/// in order (entries of other documents, and resource operations, add none).
pub open spec fn document_change_edits(changes: Seq<JsonValue>, uri: Seq<char>) -> Seq<JsonValue>
    decreases changes.len(),
{
    if changes.len() == 0 {
        Seq::empty()
    } else {
        let rest = document_change_edits(changes.drop_last(), uri);
        let change = changes.last();
        if spec_as_str(spec_get_opt(spec_get(change, "textDocument"@), "uri"@)) == Some(uri) {
            match spec_get(change, "edits"@) {
                Some(JsonValue::Arr(edits)) => rest + edits@,
                _ => rest,
            }
        } else {
            rest
        }
    }
}

/// The text edits that a code action makes to the document `uri`: those of
/// `edit.changes[uri]` when it is an array, otherwise those gathered from
/// `edit.documentChanges` (none there counts as no edits).
pub open spec fn quickfix_edits(action: JsonValue, uri: Seq<char>) -> Option<Seq<JsonValue>> {
    let edit = spec_get(action, "edit"@);
    match spec_get_opt(spec_get_opt(edit, "changes"@), uri) {
        Some(JsonValue::Arr(edits)) => Some(edits@),
        _ => match spec_get_opt(edit, "documentChanges"@) {
            Some(JsonValue::Arr(changes)) => {
                let edits = document_change_edits(changes@, uri);
                if edits.len() == 0 {
                    None
                } else {
                    Some(edits)
                }
            },
            _ => None,
        },
    }
}

pub fn quickfix_text_edits_for_uri<'a>(action: &'a JsonValue, uri: &str) -> (r: Option<Vec<&'a JsonValue>>)
    ensures
        match r {
            Some(v) => quickfix_edits(*action, uri@) == Some(derefs(v@)),
            None => quickfix_edits(*action, uri@) is None,
        },
{
    let edit = action.get("edit");
    let changes = crate::json::get_opt(edit, "changes");
    match crate::json::get_opt(changes, uri) {
        Some(JsonValue::Arr(edits)) => {
            let mut out: Vec<&'a JsonValue> = Vec::new();
            let mut i: usize = 0;
            while i < edits.len()
                invariant
                    i <= edits.len(),
                    derefs(out@) == edits@.take(i as int),
                decreases edits.len() - i,
            {
                let ghost before = out@;
                assert(derefs(before).len() == i);
                assert(before.len() == i);
                let e = &edits[i];
                out.push(e);
                assert(out@ == before.push(e));
                assert(out@.len() == i + 1);
                assert(derefs(out@)[i as int] == edits@[i as int]);
                assert forall|j: int| 0 <= j < i implies derefs(out@)[j] == derefs(before)[j] by {}
                i = i + 1;
                assert(derefs(out@) =~= edits@.take(i as int));
            }
            assert(edits@.take(edits.len() as int) =~= edits@);
            return Some(out);
        },
        _ => {},
    }
    let changes = match crate::json::get_opt(edit, "documentChanges") {
        Some(JsonValue::Arr(cs)) => cs,
        _ => return None,
    };
    let mut collected: Vec<&'a JsonValue> = Vec::new();
    let mut k: usize = 0;
    while k < changes.len()
        invariant
            k <= changes.len(),
            derefs(collected@) == document_change_edits(changes@.take(k as int), uri@),
        decreases changes.len() - k,
    {
        assert(changes@.take(k + 1).drop_last() =~= changes@.take(k as int));
        assert(changes@.take(k + 1).last() == changes@[k as int]);
        let change = &changes[k];
        let target = crate::json::get_opt(change.get("textDocument"), "uri");
        let matches_uri = match target {
            Some(JsonValue::Str(u)) => str_eq(u.as_str(), uri),
            _ => false,
        };
        if matches_uri {
            match change.get("edits") {
                Some(JsonValue::Arr(edits)) => {
                    let ghost before = derefs(collected@);
                    let mut i: usize = 0;
                    while i < edits.len()
                        invariant
                            i <= edits.len(),
                            derefs(collected@) == before + edits@.take(i as int),
                        decreases edits.len() - i,
                    {
                        let ghost prev = collected@;
                        assert(derefs(prev).len() == before.len() + i);
                        assert(prev.len() == before.len() + i);
                        let e = &edits[i];
                        collected.push(e);
                        assert(collected@ == prev.push(e));
                        assert forall|j: int| 0 <= j < prev.len() implies derefs(collected@)[j] == derefs(prev)[j] by {}
                        assert(collected@.len() == prev.len() + 1);
                        assert(derefs(collected@)[prev.len() as int] == edits@[i as int]);
                        let ghost target = before + edits@.take(i + 1);
                        assert forall|j: int| 0 <= j < target.len() implies derefs(collected@)[j] == target[j] by {
                            if j < prev.len() {
                                assert(derefs(prev)[j] == (before + edits@.take(i as int))[j]);
                            }
                        }
                        assert(derefs(collected@) =~= target);
                        i = i + 1;
                    }
                    assert(edits@.take(edits.len() as int) =~= edits@);
                },
                _ => {},
            }
        }
        k = k + 1;
    }
    assert(changes@.take(changes.len() as int) =~= changes@);
    if collected.len() == 0 {
        None
    } else {
        Some(collected)
    }
}

} // verus!

verus! {

/// The range of an edit, when its `range` member reads as one.
pub open spec fn edit_range(edit: JsonValue) -> Option<FixAllRange> {
    match spec_get(edit, "range"@) {
        Some(r) => range_of(r),
        None => None,
    }
}

/// The ranges of all edits, in order; `None` when one of them has no
/// readable range.
pub open spec fn ranges_of(edits: Seq<JsonValue>) -> Option<Seq<FixAllRange>>
    decreases edits.len(),
{
    if edits.len() == 0 {
        Some(Seq::empty())
    } else {
        match (ranges_of(edits.drop_last()), edit_range(edits.last())) {
            (Some(rs), Some(r)) => Some(rs.push(r)),
            _ => None,
        }
    }
}

/// Some already accepted range conflicts with one of `ranges`.
pub open spec fn any_conflict(accepted: Seq<FixAllRange>, ranges: Seq<FixAllRange>) -> bool {
    exists|i: int, j: int|
        0 <= i < accepted.len() && 0 <= j < ranges.len() && #[trigger] accepted[i].conflicts_with(
            #[trigger] ranges[j],
        )
}

/// A string member, or the empty text when it is missing or not a string.
pub open spec fn text_or_empty(v: JsonValue, key: Seq<char>) -> Seq<char> {
    match spec_as_str(spec_get(v, key)) {
        Some(t) => t,
        None => Seq::empty(),
    }
}

/// Two edits are the same edit: the same range value and the same new text.
/// Two diagnostics are the same finding: the same code and the same range value.
pub open spec fn duplicates(a: JsonValue, b: JsonValue, diagnostic: bool) -> bool {
    &&& crate::json::opt_json_same(spec_get(a, "range"@), spec_get(b, "range"@))
    &&& if diagnostic {
        text_or_empty(a, "code"@) == text_or_empty(b, "code"@)
    } else {
        text_or_empty(a, "newText"@) == text_or_empty(b, "newText"@)
    }
}

/// `merged` followed by the items of `items` that duplicate neither an
/// earlier item nor one of `merged`.
pub open spec fn add_unique(merged: Seq<JsonValue>, items: Seq<JsonValue>, diagnostic: bool) -> Seq<JsonValue>
    decreases items.len(),
{
    if items.len() == 0 {
        merged
    } else {
        let before = add_unique(merged, items.drop_last(), diagnostic);
        if exists|i: int| 0 <= i < before.len() && duplicates(#[trigger] before[i], items.last(), diagnostic) {
            before
        } else {
            before.push(items.last())
        }
    }
}

/// The diagnostics a code action lists.
pub open spec fn diagnostics_of(action: JsonValue) -> Seq<JsonValue> {
    match spec_get(action, "diagnostics"@) {
        Some(JsonValue::Arr(ds)) => ds@,
        _ => Seq::empty(),
    }
}

/// What aggregating quick fixes has gathered so far.
pub struct FixAllState {
    pub ranges: Seq<FixAllRange>,
    pub edits: Seq<JsonValue>,
    pub diagnostics: Seq<JsonValue>,
}

/// One action joins the aggregate when it is a `quickfix` with edits to
/// `uri` whose ranges all read and none conflicts with an accepted range; it
/// then adds its ranges, its edits and its diagnostics (without duplicates).
pub open spec fn fix_all_step(st: FixAllState, action: JsonValue, uri: Seq<char>) -> FixAllState {
    if spec_as_str(spec_get(action, "kind"@)) != Some("quickfix"@) {
        st
    } else {
        match quickfix_edits(action, uri) {
            None => st,
            Some(edits) => match ranges_of(edits) {
                None => st,
                Some(rs) => if any_conflict(st.ranges, rs) {
                    st
                } else {
                    FixAllState {
                        ranges: st.ranges + rs,
                        edits: add_unique(st.edits, edits, false),
                        diagnostics: add_unique(st.diagnostics, diagnostics_of(action), true),
                    }
                },
            },
        }
    }
}

/// The aggregate gathered from `actions`, taken in order (first wins).
pub open spec fn fix_all_fold(actions: Seq<JsonValue>, uri: Seq<char>) -> FixAllState
    decreases actions.len(),
{
    if actions.len() == 0 {
        FixAllState { ranges: Seq::empty(), edits: Seq::empty(), diagnostics: Seq::empty() }
    } else {
        fix_all_step(fix_all_fold(actions.drop_last(), uri), actions.last(), uri)
    }
}

/// `v` is the `source.fixAll` action for `uri` with (copies of) `edits` and
/// `diagnostics`: members `diagnostics` (only when there are some), `edit`
/// (`{"changes": {uri: edits}}`), `isPreferred` (true), `kind` and `title`.
pub open spec fn is_fix_all_action(v: JsonValue, uri: Seq<char>, edits: Seq<JsonValue>, diagnostics: Seq<JsonValue>) -> bool {
    let o: int = if diagnostics.len() > 0 { 1 } else { 0 };
    &&& v matches JsonValue::Obj(ms)
    &&& {
        let ms = v->Obj_0@;
        &&& ms.len() == 4 + o
        &&& (diagnostics.len() > 0 ==> (ms[0].key@ == "diagnostics"@ && (ms[0].value matches JsonValue::Arr(ds)
            && crate::json::seq_json_same(diagnostics, ds@))))
        &&& ms[o].key@ == "edit"@
        &&& (ms[o].value matches JsonValue::Obj(e) && e@.len() == 1 && e@[0].key@ == "changes"@ && (
        e@[0].value matches JsonValue::Obj(c) && c@.len() == 1 && c@[0].key@ == uri && (c@[0].value matches JsonValue::Arr(es)
            && crate::json::seq_json_same(edits, es@))))
        &&& ms[o + 1].key@ == "isPreferred"@
        &&& ms[o + 1].value == JsonValue::Bool(true)
        &&& ms[o + 2].key@ == "kind"@
        &&& (ms[o + 2].value matches JsonValue::Str(k) && k@ == "source.fixAll"@)
        &&& ms[o + 3].key@ == "title"@
        &&& (ms[o + 3].value matches JsonValue::Str(t) && t@ == "Fix all auto-fixable issues"@)
    }
}

} // verus!

verus! {

/// References to the elements of `v`, in order.
fn refs_of<'a>(v: &'a Vec<JsonValue>) -> (r: Vec<&'a JsonValue>)
    ensures
        derefs(r@) == v@,
{
    let mut out: Vec<&'a JsonValue> = Vec::new();
    let mut i: usize = 0;
    while i < v.len()
        invariant
            i <= v.len(),
            derefs(out@) == v@.take(i as int),
        decreases v.len() - i,
    {
        let ghost before = out@;
        assert(derefs(before).len() == i);
        let e = &v[i];
        out.push(e);
        assert(out@ == before.push(e));
        assert(out@.len() == i + 1);
        assert forall|j: int| 0 <= j < i implies derefs(out@)[j] == derefs(before)[j] by {}
        i = i + 1;
        assert(derefs(out@) =~= v@.take(i as int));
    }
    assert(v@.take(v.len() as int) =~= v@);
    out
}

/// Copies of the values behind `v`.
fn clone_refs(v: &Vec<&JsonValue>) -> (r: Vec<JsonValue>)
    ensures
        crate::json::seq_json_same(derefs(v@), r@),
{
    let mut out: Vec<JsonValue> = Vec::new();
    let mut i: usize = 0;
    while i < v.len()
        invariant
            i <= v.len(),
            out@.len() == i,
            forall|j: int| #![trigger derefs(v@)[j]] 0 <= j < i ==> crate::json::json_same(derefs(v@)[j], out@[j]),
        decreases v.len() - i,
    {
        let c = crate::json::json_clone(v[i]);
        out.push(c);
        assert(derefs(v@)[i as int] == *v@[i as int]);
        i = i + 1;
    }
    out
}

/// The text of a string member, or "" when missing or not a string.
fn member_text<'a>(v: &'a JsonValue, key: &str) -> (r: &'a str)
    ensures
        r@ == text_or_empty(*v, key@),
{
    proof {
        reveal_strlit("");
        assert(""@ =~= Seq::<char>::empty());
    }
    match v.get(key) {
        Some(JsonValue::Str(s)) => s.as_str(),
        _ => "",
    }
}

fn is_duplicate(a: &JsonValue, b: &JsonValue, diagnostic: bool) -> (r: bool)
    ensures
        r == duplicates(*a, *b, diagnostic),
{
    if !crate::json::opt_json_eq(a.get("range"), b.get("range")) {
        return false;
    }
    if diagnostic {
        str_eq(member_text(a, "code"), member_text(b, "code"))
    } else {
        str_eq(member_text(a, "newText"), member_text(b, "newText"))
    }
}

/// Append to `merged` the items that duplicate neither an earlier item nor
/// one already merged.
fn add_unique_items<'a>(merged: &mut Vec<&'a JsonValue>, items: &Vec<&'a JsonValue>, diagnostic: bool)
    ensures
        derefs(final(merged)@) == add_unique(derefs(old(merged)@), derefs(items@), diagnostic),
{
    let ghost start = derefs(merged@);
    let ghost all = derefs(items@);
    let mut k: usize = 0;
    while k < items.len()
        invariant
            k <= items.len(),
            all == derefs(items@),
            derefs(merged@) == add_unique(start, all.take(k as int), diagnostic),
        decreases items.len() - k,
    {
        assert(all.take(k + 1).drop_last() =~= all.take(k as int));
        assert(all.take(k + 1).last() == all[k as int]);
        let item = items[k];
        assert(*item == all[k as int]);
        let ghost before = derefs(merged@);
        let mut found = false;
        let mut i: usize = 0;
        while i < merged.len()
            invariant
                i <= merged.len(),
                before == derefs(merged@),
                *item == all[k as int],
                found ==> exists|j: int| 0 <= j < before.len() && duplicates(#[trigger] before[j], *item, diagnostic),
                !found ==> forall|j: int| 0 <= j < i ==> !duplicates(#[trigger] before[j], *item, diagnostic),
            decreases merged.len() - i,
        {
            if !found && is_duplicate(merged[i], item, diagnostic) {
                assert(before[i as int] == *merged@[i as int]);
                found = true;
            }
            assert(before[i as int] == *merged@[i as int]);
            i = i + 1;
        }
        if !found {
            let ghost prev = merged@;
            assert(derefs(prev).len() == prev.len());
            merged.push(item);
            assert(merged@ == prev.push(item));
            assert(merged@.len() == prev.len() + 1);
            assert forall|j: int| 0 <= j < prev.len() implies derefs(merged@)[j] == derefs(prev)[j] by {}
            assert(derefs(merged@) =~= before.push(*item));
        }
        k = k + 1;
    }
    assert(all.take(items.len() as int) =~= all);
}

/// The ranges of all the edits, or `None` when one has no readable range.
fn edit_ranges(edits: &Vec<&JsonValue>) -> (r: Option<Vec<FixAllRange>>)
    ensures
        match r {
            Some(v) => ranges_of(derefs(edits@)) == Some(v@),
            None => ranges_of(derefs(edits@)) is None,
        },
{
    let ghost all = derefs(edits@);
    let mut out: Vec<FixAllRange> = Vec::new();
    let mut ok = true;
    let mut k: usize = 0;
    while k < edits.len()
        invariant
            k <= edits.len(),
            all == derefs(edits@),
            ok ==> ranges_of(all.take(k as int)) == Some(out@),
            !ok ==> ranges_of(all.take(k as int)) is None,
        decreases edits.len() - k,
    {
        assert(all.take(k + 1).drop_last() =~= all.take(k as int));
        assert(all.take(k + 1).last() == all[k as int]);
        let edit = edits[k];
        assert(*edit == all[k as int]);
        let r = match edit.get("range") {
            Some(rv) => FixAllRange::from_json(rv),
            None => None,
        };
        match r {
            Some(range) => {
                if ok {
                    out.push(range);
                }
            },
            None => {
                ok = false;
            },
        }
        k = k + 1;
    }
    assert(all.take(edits.len() as int) =~= all);
    if ok {
        Some(out)
    } else {
        None
    }
}

/// Whether one of `ranges` conflicts with an accepted range.
fn conflicts_with_accepted(accepted: &Vec<FixAllRange>, ranges: &Vec<FixAllRange>) -> (r: bool)
    ensures
        r == any_conflict(accepted@, ranges@),
{
    let mut j: usize = 0;
    while j < ranges.len()
        invariant
            j <= ranges.len(),
            forall|a: int, b: int|
                0 <= a < accepted@.len() && 0 <= b < j ==> !(#[trigger] accepted@[a]).conflicts_with(
                    #[trigger] ranges@[b],
                ),
        decreases ranges.len() - j,
    {
        let mut i: usize = 0;
        while i < accepted.len()
            invariant
                i <= accepted.len(),
                j < ranges.len(),
                forall|a: int, b: int|
                    0 <= a < accepted@.len() && 0 <= b < j ==> !(#[trigger] accepted@[a]).conflicts_with(
                        #[trigger] ranges@[b],
                    ),
                forall|a: int| 0 <= a < i ==> !(#[trigger] accepted@[a]).conflicts_with(ranges@[j as int]),
            decreases accepted.len() - i,
        {
            if accepted[i].overlaps(&ranges[j]) {
                return true;
            }
            i = i + 1;
        }
        j = j + 1;
    }
    false
}

/// Build the `source.fixAll` action that applies, together, the quick fixes
/// among `code_actions` for the document `uri`.
///
/// Only `quickfix` actions with edits to `uri` count; an action whose edits
/// do not all carry a readable range, or that conflicts with an action
/// accepted before it, is left out whole. Duplicate edits (same range, same
/// text) and duplicate diagnostics (same code, same range) are listed once.
/// The aggregate is only built when at least two edits remain.
pub fn build_source_fix_all(code_actions: &[JsonValue], uri: &str) -> (r: Option<JsonValue>)
    ensures
        ({
            let st = fix_all_fold(code_actions@, uri@);
            &&& st.edits.len() < 2 ==> r is None
            &&& st.edits.len() >= 2 ==> (r matches Some(v) && is_fix_all_action(v, uri@, st.edits, st.diagnostics))
        }),
{
    let ghost actions = code_actions@;
    let mut accepted: Vec<FixAllRange> = Vec::new();
    let mut merged_edits: Vec<&JsonValue> = Vec::new();
    let mut merged_diagnostics: Vec<&JsonValue> = Vec::new();
    let mut k: usize = 0;
    while k < code_actions.len()
        invariant
            k <= code_actions.len(),
            actions == code_actions@,
            accepted@ == fix_all_fold(actions.take(k as int), uri@).ranges,
            derefs(merged_edits@) == fix_all_fold(actions.take(k as int), uri@).edits,
            derefs(merged_diagnostics@) == fix_all_fold(actions.take(k as int), uri@).diagnostics,
        decreases code_actions.len() - k,
    {
        assert(actions.take(k + 1).drop_last() =~= actions.take(k as int));
        assert(actions.take(k + 1).last() == actions[k as int]);
        let action = &code_actions[k];
        let is_quickfix = match action.get("kind") {
            Some(JsonValue::Str(kind)) => str_eq(kind.as_str(), "quickfix"),
            _ => false,
        };
        if is_quickfix {
            match quickfix_text_edits_for_uri(action, uri) {
                Some(edits) => match edit_ranges(&edits) {
                    Some(ranges) => {
                        if !conflicts_with_accepted(&accepted, &ranges) {
                            let ghost prev = accepted@;
                            let mut i: usize = 0;
                            while i < ranges.len()
                                invariant
                                    i <= ranges.len(),
                                    accepted@ == prev + ranges@.take(i as int),
                                decreases ranges.len() - i,
                            {
                                accepted.push(ranges[i]);
                                i = i + 1;
                                assert(accepted@ =~= prev + ranges@.take(i as int));
                            }
                            assert(ranges@.take(ranges.len() as int) =~= ranges@);
                            add_unique_items(&mut merged_edits, &edits, false);
                            let diagnostics: Vec<&JsonValue> = match action.get("diagnostics") {
                                Some(JsonValue::Arr(ds)) => refs_of(ds),
                                _ => Vec::new(),
                            };
                            assert(derefs(diagnostics@) =~= diagnostics_of(*action));
                            add_unique_items(&mut merged_diagnostics, &diagnostics, true);
                        }
                    },
                    None => {},
                },
                None => {},
            }
        }
        k = k + 1;
    }
    assert(actions.take(code_actions.len() as int) =~= actions);
    if merged_edits.len() < 2 {
        return None;
    }
    let edits = clone_refs(&merged_edits);
    let diagnostics = clone_refs(&merged_diagnostics);
    let has_diagnostics = diagnostics.len() > 0;
    let mut changes: Vec<JsonMember> = Vec::new();
    changes.push(JsonMember { key: owned(uri), value: JsonValue::Arr(edits) });
    let mut edit: Vec<JsonMember> = Vec::new();
    edit.push(JsonMember { key: owned("changes"), value: JsonValue::Obj(changes) });
    let mut members: Vec<JsonMember> = Vec::new();
    if has_diagnostics {
        members.push(JsonMember { key: owned("diagnostics"), value: JsonValue::Arr(diagnostics) });
    }
    members.push(JsonMember { key: owned("edit"), value: JsonValue::Obj(edit) });
    members.push(JsonMember { key: owned("isPreferred"), value: JsonValue::Bool(true) });
    members.push(JsonMember { key: owned("kind"), value: JsonValue::Str(owned("source.fixAll")) });
    members.push(JsonMember { key: owned("title"), value: JsonValue::Str(owned("Fix all auto-fixable issues")) });
    Some(JsonValue::Obj(members))
}

} // verus!

verus! {

/// No two items of `s` duplicate one another (the later against the earlier).
pub open spec fn no_duplicates(s: Seq<JsonValue>, diagnostic: bool) -> bool {
    forall|i: int, j: int| 0 <= i < j < s.len() ==> !duplicates(#[trigger] s[i], #[trigger] s[j], diagnostic)
}

proof fn lemma_add_unique_keeps_distinct(merged: Seq<JsonValue>, items: Seq<JsonValue>, diagnostic: bool)
    requires
        no_duplicates(merged, diagnostic),
    ensures
        no_duplicates(add_unique(merged, items, diagnostic), diagnostic),
        merged.is_prefix_of(add_unique(merged, items, diagnostic)),
    decreases items.len(),
{
    if items.len() > 0 {
        lemma_add_unique_keeps_distinct(merged, items.drop_last(), diagnostic);
        let before = add_unique(merged, items.drop_last(), diagnostic);
        if !(exists|i: int| 0 <= i < before.len() && duplicates(#[trigger] before[i], items.last(), diagnostic)) {
            let after = before.push(items.last());
            assert forall|i: int, j: int| 0 <= i < j < after.len() implies !duplicates(#[trigger] after[i], #[trigger] after[j], diagnostic) by {
                if j < before.len() {
                    assert(after[i] == before[i] && after[j] == before[j]);
                } else {
                    assert(after[i] == before[i]);
                }
            }
        }
    }
}

/// The aggregate lists no edit twice and no diagnostic twice: every edit
/// differs from every earlier one in range or in text, every diagnostic in
/// code or in range.
pub proof fn lemma_fix_all_has_no_duplicates(actions: Seq<JsonValue>, uri: Seq<char>)
    ensures
        no_duplicates(fix_all_fold(actions, uri).edits, false),
        no_duplicates(fix_all_fold(actions, uri).diagnostics, true),
    decreases actions.len(),
{
    if actions.len() > 0 {
        lemma_fix_all_has_no_duplicates(actions.drop_last(), uri);
        let st = fix_all_fold(actions.drop_last(), uri);
        lemma_add_unique_keeps_distinct(st.edits, quickfix_edits(actions.last(), uri).unwrap_or(Seq::empty()), false);
        lemma_add_unique_keeps_distinct(st.diagnostics, diagnostics_of(actions.last()), true);
    }
}

/// Only quick fixes are aggregated: without any action of kind `quickfix`
/// the aggregate gathers nothing (and no `source.fixAll` action is built).
pub proof fn lemma_fix_all_needs_quickfixes(actions: Seq<JsonValue>, uri: Seq<char>)
    requires
        forall|i: int| 0 <= i < actions.len() ==> spec_as_str(spec_get(#[trigger] actions[i], "kind"@)) != Some("quickfix"@),
    ensures
        fix_all_fold(actions, uri).edits.len() == 0,
        fix_all_fold(actions, uri).ranges.len() == 0,
    decreases actions.len(),
{
    if actions.len() > 0 {
        assert(actions.last() == actions[actions.len() - 1]);
        lemma_fix_all_needs_quickfixes(actions.drop_last(), uri);
    }
}

/// Aggregation keeps what it has: each further action only adds ranges,
/// edits and diagnostics after those already gathered, so an earlier fix is
/// never displaced by a later one.
pub proof fn lemma_fix_all_first_wins(actions: Seq<JsonValue>, action: JsonValue, uri: Seq<char>)
    ensures
        fix_all_fold(actions, uri).ranges.is_prefix_of(fix_all_fold(actions.push(action), uri).ranges),
        fix_all_fold(actions, uri).edits.is_prefix_of(fix_all_fold(actions.push(action), uri).edits),
        fix_all_fold(actions, uri).diagnostics.is_prefix_of(fix_all_fold(actions.push(action), uri).diagnostics),
{
    let st = fix_all_fold(actions, uri);
    assert(actions.push(action).drop_last() =~= actions);
    lemma_add_unique_is_extension(st.edits, quickfix_edits(action, uri).unwrap_or(Seq::empty()), false);
    lemma_add_unique_is_extension(st.diagnostics, diagnostics_of(action), true);
    match quickfix_edits(action, uri) {
        Some(edits) => match ranges_of(edits) {
            Some(rs) => {
                assert(st.ranges.is_prefix_of(st.ranges + rs));
            },
            None => {},
        },
        None => {},
    }
}

proof fn lemma_add_unique_is_extension(merged: Seq<JsonValue>, items: Seq<JsonValue>, diagnostic: bool)
    ensures
        merged.is_prefix_of(add_unique(merged, items, diagnostic)),
    decreases items.len(),
{
    if items.len() > 0 {
        lemma_add_unique_is_extension(merged, items.drop_last(), diagnostic);
    }
}

} // verus!

verus! {

/// A line that starts with an assignment to a global variable: a sigil
/// (`$`, `@` or `%`), a letter or `_`, word characters, optional
/// whitespace, then `=`.
pub const GLOBAL_VAR_ASSIGNMENT: &'static str = r"(?m)^(\$|\@|\%)[a-zA-Z_]\w*\s*=";

/// Whether the text has a line matching `GLOBAL_VAR_ASSIGNMENT` (no, when
/// the pattern does not compile).
pub open spec fn has_global_var_assignment(text: Seq<char>) -> bool {
    match crate::regex_calls::regex_match_found(GLOBAL_VAR_ASSIGNMENT@, text) {
        Some(b) => b,
        None => false,
    }
}

fn global_var_assignment_found(text: &str) -> (r: bool)
    ensures
        r == has_global_var_assignment(text@),
{
    match crate::regex_calls::regex_is_match(GLOBAL_VAR_ASSIGNMENT, text) {
        Some(b) => b,
        None => false,
    }
}

/// `v` is an object whose `i`-th member is `key` with a string value `text`.
pub open spec fn str_member_at(v: JsonValue, i: int, key: Seq<char>, text: Seq<char>) -> bool {
    &&& 0 <= i < members_of(v).len()
    &&& members_of(v)[i].key@ == key
    &&& crate::json::is_str(members_of(v)[i].value, text)
}

/// `v` is `{"title": .., "kind": "quickfix", "edit": {"changes": {uri: [e]}}}`
/// where the one edit `e` inserts `new_text` at the start of line `line`.
pub open spec fn is_pragma_fix(v: JsonValue, uri: Seq<char>, line: u64, new_text: Seq<char>) -> bool {
    &&& v is Obj
    &&& members_of(v).len() == 3
    &&& str_member_at(v, 0, "title"@, "Add 'use strict' and 'use warnings'"@)
    &&& str_member_at(v, 1, "kind"@, "quickfix"@)
    &&& members_of(v)[2].key@ == "edit"@
    &&& {
        let edit = members_of(v)[2].value;
        &&& edit is Obj && members_of(edit).len() == 1 && members_of(edit)[0].key@ == "changes"@
        &&& {
            let changes = members_of(edit)[0].value;
            &&& changes is Obj && members_of(changes).len() == 1 && members_of(changes)[0].key@ == uri
            &&& (members_of(changes)[0].value matches JsonValue::Arr(edits) && edits@.len() == 1
                && edit_range(edits@[0]) == Some(FixAllRange { start_line: line, start_char: 0, end_line: line, end_char: 0 })
                && text_or_empty(edits@[0], "newText"@) == new_text)
        }
    }
}

/// `v` is `{"title": title, "kind": "refactor.rewrite", "command": {"title":
/// command_title, "command": command, "arguments": [{"uri": uri}]}}`.
pub open spec fn is_rewrite_command(v: JsonValue, title: Seq<char>, command_title: Seq<char>, command: Seq<char>, uri: Seq<char>) -> bool {
    &&& v is Obj
    &&& members_of(v).len() == 3
    &&& str_member_at(v, 0, "title"@, title)
    &&& str_member_at(v, 1, "kind"@, "refactor.rewrite"@)
    &&& members_of(v)[2].key@ == "command"@
    &&& {
        let c = members_of(v)[2].value;
        &&& c is Obj && members_of(c).len() == 3
        &&& str_member_at(c, 0, "title"@, command_title)
        &&& str_member_at(c, 1, "command"@, command)
        &&& members_of(c)[2].key@ == "arguments"@
        &&& (members_of(c)[2].value matches JsonValue::Arr(args) && args@.len() == 1 && args@[0] is Obj
            && members_of(args@[0]).len() == 1 && str_member_at(args@[0], 0, "uri"@, uri))
    }
}

/// The line where missing pragmas go: after a `#!` line, else the first.
pub open spec fn pragma_line(text: Seq<char>) -> u64 {
    if "#!"@.is_prefix_of(text) && crate::text::contains_seq(text, seq!['\n']) {
        1
    } else {
        0
    }
}

/// The pragmas to insert, given which ones the text lacks.
pub open spec fn pragma_text(missing_strict: bool, missing_warnings: bool) -> Seq<char> {
    if missing_strict && missing_warnings {
        "use strict;\nuse warnings;\n\n"@
    } else if missing_strict {
        "use strict;\n"@
    } else {
        "use warnings;\n"@
    }
}

/// The actions offered for a document that did not parse, before filtering
/// by kind: the missing-pragma fix (when `use strict` or `use warnings` is
/// absent), the debug-print command, and the globals-to-`my` command (when
/// a line starts with an assignment to a global).
pub open spec fn offered_without_ast(actions: Seq<JsonValue>, uri: Seq<char>, text: Seq<char>) -> bool {
    let missing_strict = !crate::text::contains_seq(text, "use strict"@);
    let missing_warnings = !crate::text::contains_seq(text, "use warnings"@);
    let p: int = if missing_strict || missing_warnings { 1 } else { 0 };
    let g: int = if has_global_var_assignment(text) { 1 } else { 0 };
    &&& actions.len() == p + 1 + g
    &&& (p == 1 ==> is_pragma_fix(actions[0], uri, pragma_line(text), pragma_text(missing_strict, missing_warnings)))
    &&& is_rewrite_command(actions[p], "Add debug print"@, "Add debug print"@, "perl.addDebugPrint"@, uri)
    &&& (g == 1 ==> is_rewrite_command(
        actions[p + 1],
        "Convert globals to 'my' declarations"@,
        "Convert to my declarations"@,
        "perl.convertToMyDeclarations"@,
        uri,
    ))
}

fn rewrite_command(title: &str, command_title: &str, command: &str, uri: &str) -> (r: JsonValue)
    ensures
        is_rewrite_command(r, title@, command_title@, command@, uri@),
{
    let mut arg: Vec<JsonMember> = Vec::new();
    arg.push(member("uri", str_value(uri)));
    let mut args: Vec<JsonValue> = Vec::new();
    args.push(JsonValue::Obj(arg));
    let mut c: Vec<JsonMember> = Vec::new();
    c.push(member("title", str_value(command_title)));
    c.push(member("command", str_value(command)));
    c.push(member("arguments", JsonValue::Arr(args)));
    let mut ms: Vec<JsonMember> = Vec::new();
    ms.push(member("title", str_value(title)));
    ms.push(member("kind", str_value("refactor.rewrite")));
    ms.push(member("command", JsonValue::Obj(c)));
    JsonValue::Obj(ms)
}

fn pragma_fix(uri: &str, line: u64, new_text: &str) -> (r: JsonValue)
    ensures
        is_pragma_fix(r, uri@, line, new_text@),
{
    let mut e: Vec<JsonMember> = Vec::new();
    e.push(member("range", range_value(line, 0, line, 0)));
    e.push(member("newText", str_value(new_text)));
    let ghost ev = JsonValue::Obj(e);
    proof {
        reveal_strlit("range");
        reveal_strlit("newText");
        assert("range"@ != "newText"@) by {
            assert("range"@.len() != "newText"@.len());
        }
        assert(e@.drop_first()[0] == e@[1]);
        assert(crate::json::member_value(e@.drop_first(), "newText"@) == Some(e@[1].value));
    }
    let mut edits: Vec<JsonValue> = Vec::new();
    edits.push(JsonValue::Obj(e));
    let mut changes: Vec<JsonMember> = Vec::new();
    changes.push(member(uri, JsonValue::Arr(edits)));
    let mut edit: Vec<JsonMember> = Vec::new();
    edit.push(member("changes", JsonValue::Obj(changes)));
    let mut ms: Vec<JsonMember> = Vec::new();
    ms.push(member("title", str_value("Add 'use strict' and 'use warnings'")));
    ms.push(member("kind", str_value("quickfix")));
    ms.push(member("edit", JsonValue::Obj(edit)));
    JsonValue::Obj(ms)
}

/// The code actions for a document that did not parse, filtered by the
/// requested kinds.
pub fn code_actions_without_ast(uri: &str, text: &str, requested_kinds: &Vec<String>) -> (r: Vec<JsonValue>)
    ensures
        exists|offered: Seq<JsonValue>|
            offered_without_ast(offered, uri@, text@) && r@ == keep_requested(
                offered,
                requested_kinds@.map_values(|s: String| s@),
            ),
{
    let mut actions: Vec<JsonValue> = Vec::new();
    let missing_strict = !crate::text::str_contains(text, "use strict");
    let missing_warnings = !crate::text::str_contains(text, "use warnings");
    if missing_strict || missing_warnings {
        let line: u64 = if str_starts_with(text, "#!") && crate::text::str_contains(text, "\n") {
            1
        } else {
            0
        };
        proof {
            reveal_strlit("\n");
            assert("\n"@ =~= seq!['\n']);
        }
        let new_text = if missing_strict && missing_warnings {
            "use strict;\nuse warnings;\n\n"
        } else if missing_strict {
            "use strict;\n"
        } else {
            "use warnings;\n"
        };
        actions.push(pragma_fix(uri, line, new_text));
    }
    actions.push(rewrite_command("Add debug print", "Add debug print", "perl.addDebugPrint", uri));
    if global_var_assignment_found(text) {
        actions.push(
            rewrite_command(
                "Convert globals to 'my' declarations",
                "Convert to my declarations",
                "perl.convertToMyDeclarations",
                uri,
            ),
        );
    }
    let ghost offered = actions@;
    assert(offered_without_ast(offered, uri@, text@));
    retain_requested_code_action_kinds(&mut actions, requested_kinds);
    actions
}

} // verus!

verus! {

proof fn lemma_add_unique_ranges_avoid(merged: Seq<JsonValue>, items: Seq<JsonValue>, diagnostic: bool, r: Option<JsonValue>)
    requires
        forall|i: int| 0 <= i < merged.len() ==> !crate::json::opt_json_same(spec_get(#[trigger] merged[i], "range"@), r),
        forall|j: int| 0 <= j < items.len() ==> !crate::json::opt_json_same(spec_get(#[trigger] items[j], "range"@), r),
    ensures
        forall|k: int|
            0 <= k < add_unique(merged, items, diagnostic).len() ==> !crate::json::opt_json_same(
                spec_get(#[trigger] add_unique(merged, items, diagnostic)[k], "range"@),
                r,
            ),
    decreases items.len(),
{
    if items.len() > 0 {
        let rest = items.drop_last();
        assert forall|j: int| 0 <= j < rest.len() implies !crate::json::opt_json_same(spec_get(#[trigger] rest[j], "range"@), r) by {
            assert(rest[j] == items[j]);
        }
        lemma_add_unique_ranges_avoid(merged, rest, diagnostic, r);
        let before = add_unique(merged, rest, diagnostic);
        assert(!crate::json::opt_json_same(spec_get(items[items.len() - 1], "range"@), r));
        assert forall|k: int| 0 <= k < add_unique(merged, items, diagnostic).len() implies !crate::json::opt_json_same(
            spec_get(#[trigger] add_unique(merged, items, diagnostic)[k], "range"@),
            r,
        ) by {
            if k < before.len() {
                assert(add_unique(merged, items, diagnostic)[k] == before[k]);
            } else {
                assert(add_unique(merged, items, diagnostic)[k] == items.last());
            }
        }
    }
}

/// Merging fix-all edits (or their diagnostics) never drops an item whose
/// range differs from the range of every item gathered before it, whatever
/// its text: an edit with the same new text at another place is kept.
pub proof fn lemma_item_at_new_range_is_kept(merged: Seq<JsonValue>, items: Seq<JsonValue>, diagnostic: bool)
    requires
        items.len() > 0,
        forall|i: int|
            0 <= i < merged.len() ==> !crate::json::opt_json_same(
                spec_get(#[trigger] merged[i], "range"@),
                spec_get(items.last(), "range"@),
            ),
        forall|j: int|
            0 <= j < items.len() - 1 ==> !crate::json::opt_json_same(
                spec_get(#[trigger] items[j], "range"@),
                spec_get(items.last(), "range"@),
            ),
    ensures
        add_unique(merged, items, diagnostic) == add_unique(merged, items.drop_last(), diagnostic).push(items.last()),
{
    let rest = items.drop_last();
    let r = spec_get(items.last(), "range"@);
    assert forall|j: int| 0 <= j < rest.len() implies !crate::json::opt_json_same(spec_get(#[trigger] rest[j], "range"@), r) by {
        assert(rest[j] == items[j]);
    }
    lemma_add_unique_ranges_avoid(merged, rest, diagnostic, r);
    let before = add_unique(merged, rest, diagnostic);
    assert forall|i: int| 0 <= i < before.len() implies !duplicates(#[trigger] before[i], items.last(), diagnostic) by {
        assert(!crate::json::opt_json_same(spec_get(before[i], "range"@), r));
    }
}

/// An edit with the same range value and the same new text as an edit
/// gathered before it is merged into that one (not listed twice).
pub proof fn lemma_same_edit_is_merged(merged: Seq<JsonValue>, items: Seq<JsonValue>, k: int)
    requires
        items.len() > 0,
        0 <= k < add_unique(merged, items.drop_last(), false).len(),
        crate::json::opt_json_same(
            spec_get(add_unique(merged, items.drop_last(), false)[k], "range"@),
            spec_get(items.last(), "range"@),
        ),
        text_or_empty(add_unique(merged, items.drop_last(), false)[k], "newText"@) == text_or_empty(items.last(), "newText"@),
    ensures
        add_unique(merged, items, false) == add_unique(merged, items.drop_last(), false),
{
    let before = add_unique(merged, items.drop_last(), false);
    assert(duplicates(before[k], items.last(), false));
}


proof fn lemma_add_unique_all(merged: Seq<JsonValue>, items: Seq<JsonValue>, diagnostic: bool, p: spec_fn(JsonValue) -> bool)
    requires
        forall|i: int| 0 <= i < merged.len() ==> p(#[trigger] merged[i]),
        forall|j: int| 0 <= j < items.len() ==> p(#[trigger] items[j]),
    ensures
        forall|k: int| 0 <= k < add_unique(merged, items, diagnostic).len() ==> p(#[trigger] add_unique(merged, items, diagnostic)[k]),
    decreases items.len(),
{
    if items.len() > 0 {
        let rest = items.drop_last();
        assert forall|j: int| 0 <= j < rest.len() implies p(#[trigger] rest[j]) by {
            assert(rest[j] == items[j]);
        }
        lemma_add_unique_all(merged, rest, diagnostic, p);
        let before = add_unique(merged, rest, diagnostic);
        assert(p(items[items.len() - 1]));
        assert forall|k: int| 0 <= k < add_unique(merged, items, diagnostic).len() implies p(
            #[trigger] add_unique(merged, items, diagnostic)[k],
        ) by {
            if k < before.len() {
                assert(add_unique(merged, items, diagnostic)[k] == before[k]);
            } else {
                assert(add_unique(merged, items, diagnostic)[k] == items.last());
            }
        }
    }
}

/// The text that decides whether two items with the same range are one:
/// the new text of an edit, the code of a diagnostic.
pub open spec fn merge_key(diagnostic: bool) -> Seq<char> {
    if diagnostic { "code"@ } else { "newText"@ }
}

/// Merging keeps an item whenever, against every item gathered before it,
/// its range or its key text (new text of an edit, code of a diagnostic)
/// differs: only items equal in both are merged.
pub proof fn lemma_distinct_item_is_kept(merged: Seq<JsonValue>, items: Seq<JsonValue>, diagnostic: bool)
    requires
        items.len() > 0,
        forall|i: int|
            0 <= i < merged.len() ==> (!crate::json::opt_json_same(
                spec_get(#[trigger] merged[i], "range"@),
                spec_get(items.last(), "range"@),
            ) || text_or_empty(merged[i], merge_key(diagnostic)) != text_or_empty(items.last(), merge_key(diagnostic))),
        forall|j: int|
            0 <= j < items.len() - 1 ==> (!crate::json::opt_json_same(
                spec_get(#[trigger] items[j], "range"@),
                spec_get(items.last(), "range"@),
            ) || text_or_empty(items[j], merge_key(diagnostic)) != text_or_empty(items.last(), merge_key(diagnostic))),
    ensures
        add_unique(merged, items, diagnostic) == add_unique(merged, items.drop_last(), diagnostic).push(items.last()),
{
    let rest = items.drop_last();
    let last = items.last();
    let p = |x: JsonValue| !duplicates(x, last, diagnostic);
    assert forall|i: int| 0 <= i < merged.len() implies p(#[trigger] merged[i]) by {}
    assert forall|j: int| 0 <= j < rest.len() implies p(#[trigger] rest[j]) by {
        assert(rest[j] == items[j]);
    }
    lemma_add_unique_all(merged, rest, diagnostic, p);
    let before = add_unique(merged, rest, diagnostic);
    assert forall|i: int| 0 <= i < before.len() implies !duplicates(#[trigger] before[i], last, diagnostic) by {
        assert(p(before[i]));
    }
}

/// An item with the same range value and the same key text (new text of an
/// edit, code of a diagnostic) as one gathered before it is merged into it.
pub proof fn lemma_same_item_is_merged(merged: Seq<JsonValue>, items: Seq<JsonValue>, diagnostic: bool, k: int)
    requires
        items.len() > 0,
        0 <= k < add_unique(merged, items.drop_last(), diagnostic).len(),
        crate::json::opt_json_same(
            spec_get(add_unique(merged, items.drop_last(), diagnostic)[k], "range"@),
            spec_get(items.last(), "range"@),
        ),
        text_or_empty(add_unique(merged, items.drop_last(), diagnostic)[k], merge_key(diagnostic))
            == text_or_empty(items.last(), merge_key(diagnostic)),
    ensures
        add_unique(merged, items, diagnostic) == add_unique(merged, items.drop_last(), diagnostic),
{
    let before = add_unique(merged, items.drop_last(), diagnostic);
    assert(duplicates(before[k], items.last(), diagnostic));
}

} // verus!
