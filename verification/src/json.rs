//! A plain model of JSON values, as exchanged over the JSON-RPC channel.
use vstd::prelude::*;
use crate::text::str_eq;

verus! {

/// A JSON value. Object members keep the order in which they were read;
/// numbers keep their kind (non-negative integer, negative integer, or a
/// fractional number held as its text).
#[derive(Debug)]
pub enum JsonValue {
    Null,
    Bool(bool),
    UInt(u64),
    NegInt(i64),
    Float(String),
    Str(String),
    Arr(Vec<JsonValue>),
    Obj(Vec<JsonMember>),
}

/// One `key: value` member of a JSON object.
#[derive(Debug)]
pub struct JsonMember {
    pub key: String,
    pub value: JsonValue,
}

/// The value of the first member of `members` whose key is `key`.
pub open spec fn member_value(members: Seq<JsonMember>, key: Seq<char>) -> Option<JsonValue>
    decreases members.len(),
{
    if members.len() == 0 {
        None
    } else if members[0].key@ == key {
        Some(members[0].value)
    } else {
        member_value(members.drop_first(), key)
    }
}

/// `value.get(key)`: the member named `key` of an object, `None` otherwise.
pub open spec fn spec_get(value: JsonValue, key: Seq<char>) -> Option<JsonValue> {
    match value {
        JsonValue::Obj(members) => member_value(members@, key),
        _ => None,
    }
}

/// `opt.get(key)` chained through an optional value.
pub open spec fn spec_get_opt(value: Option<JsonValue>, key: Seq<char>) -> Option<JsonValue> {
    match value {
        Some(v) => spec_get(v, key),
        None => None,
    }
}

pub open spec fn spec_as_str(value: Option<JsonValue>) -> Option<Seq<char>> {
    match value {
        Some(JsonValue::Str(s)) => Some(s@),
        _ => None,
    }
}

pub open spec fn spec_as_bool(value: Option<JsonValue>) -> Option<bool> {
    match value {
        Some(JsonValue::Bool(b)) => Some(b),
        _ => None,
    }
}

pub open spec fn spec_as_u64(value: Option<JsonValue>) -> Option<u64> {
    match value {
        Some(JsonValue::UInt(n)) => Some(n),
        _ => None,
    }
}

impl JsonValue {
    /// The member named `key` when `self` is an object.
    pub fn get(&self, key: &str) -> (r: Option<&JsonValue>)
        ensures
            r matches Some(v) ==> spec_get(*self, key@) == Some(*v),
            r is None ==> spec_get(*self, key@) is None,
    {
        match self {
            JsonValue::Obj(members) => {
                let mut i: usize = 0;
                assert(members@.skip(0) =~= members@);
                while i < members.len()
                    invariant
                        i <= members.len(),
                        *self == JsonValue::Obj(*members),
                        member_value(members@, key@) == member_value(members@.skip(i as int), key@),
                    decreases members.len() - i,
                {
                    assert(members@.skip(i as int).drop_first() =~= members@.skip(i + 1));
                    assert(members@.skip(i as int)[0] == members@[i as int]);
                    if str_eq(members[i].key.as_str(), key) {
                        return Some(&members[i].value);
                    }
                    i = i + 1;
                }
                None
            },
            _ => None,
        }
    }

    /// The text of a JSON string.
    pub fn as_str(&self) -> (r: Option<&str>)
        ensures
            r matches Some(s) ==> spec_as_str(Some(*self)) == Some(s@),
            r is None ==> spec_as_str(Some(*self)) is None,
    {
        match self {
            JsonValue::Str(s) => Some(s.as_str()),
            _ => None,
        }
    }

    pub fn as_bool(&self) -> (r: Option<bool>)
        ensures
            r == spec_as_bool(Some(*self)),
    {
        match self {
            JsonValue::Bool(b) => Some(*b),
            _ => None,
        }
    }

    pub fn as_u64(&self) -> (r: Option<u64>)
        ensures
            r == spec_as_u64(Some(*self)),
    {
        match self {
            JsonValue::UInt(n) => Some(*n),
            _ => None,
        }
    }

    /// The elements of a JSON array.
    pub fn as_array(&self) -> (r: Option<&Vec<JsonValue>>)
        ensures
            r matches Some(a) ==> *self == JsonValue::Arr(*a),
            r is None ==> !(*self is Arr),
    {
        match self {
            JsonValue::Arr(a) => Some(a),
            _ => None,
        }
    }
}

/// Chained `get` through an optional value.
pub fn get_opt<'a>(v: Option<&'a JsonValue>, key: &str) -> (r: Option<&'a JsonValue>)
    ensures
        r matches Some(x) ==> spec_get_opt(opt_val(v), key@) == Some(*x),
        r is None ==> spec_get_opt(opt_val(v), key@) is None,
{
    match v {
        Some(x) => x.get(key),
        None => None,
    }
}

pub open spec fn opt_val(v: Option<&JsonValue>) -> Option<JsonValue> {
    match v {
        Some(x) => Some(*x),
        None => None,
    }
}

impl JsonValue {
    /// The member named `key` of an object, moved out of it.
    pub fn into_member(self, key: &str) -> (r: Option<JsonValue>)
        ensures
            r == spec_get(self, key@),
    {
        let ghost want = spec_get(self, key@);
        match self {
            JsonValue::Obj(members) => {
                let ghost all = members@;
                assert(want == member_value(all, key@));
                let mut members = members;
                let mut i: usize = 0;
                assert(all.skip(0) =~= all);
                while i < members.len()
                    invariant
                        i <= members.len(),
                        members@ == all,
                        want == member_value(all, key@),
                        want == spec_get(self, key@),
                        member_value(all, key@) == member_value(all.skip(i as int), key@),
                    decreases members.len() - i,
                {
                    assert(all.skip(i as int).drop_first() =~= all.skip(i + 1));
                    assert(all.skip(i as int)[0] == all[i as int]);
                    if str_eq(members[i].key.as_str(), key) {
                        let ghost at = i as int;
                        let m = members.remove(i);
                        assert(m == all[at]);
                        assert(member_value(all.skip(at), key@) == Some(all[at].value));
                        let v = m.value;
                        return Some(v);
                    }
                    i = i + 1;
                }
                None
            },
            _ => None,
        }
    }

    pub fn is_null(&self) -> (r: bool)
        ensures
            r == (*self is Null),
    {
        match self {
            JsonValue::Null => true,
            _ => false,
        }
    }
}

} // verus!

verus! {

/// Two JSON values are the same value: same kind, same scalars, same
/// elements in the same order, same members in the same order.
pub open spec fn json_same(a: JsonValue, b: JsonValue) -> bool
    decreases a,
{
    match (a, b) {
        (JsonValue::Null, JsonValue::Null) => true,
        (JsonValue::Bool(x), JsonValue::Bool(y)) => x == y,
        (JsonValue::UInt(x), JsonValue::UInt(y)) => x == y,
        (JsonValue::NegInt(x), JsonValue::NegInt(y)) => x == y,
        (JsonValue::Float(x), JsonValue::Float(y)) => x@ == y@,
        (JsonValue::Str(x), JsonValue::Str(y)) => x@ == y@,
        (JsonValue::Arr(xs), JsonValue::Arr(ys)) => {
            &&& xs@.len() == ys@.len()
            &&& forall|i: int| #![trigger xs@[i]] 0 <= i < xs@.len() ==> json_same(xs@[i], ys@[i])
        },
        (JsonValue::Obj(xs), JsonValue::Obj(ys)) => {
            &&& xs@.len() == ys@.len()
            &&& forall|i: int| #![trigger xs@[i]] 0 <= i < xs@.len() ==> xs@[i].key@ == ys@[i].key@
                && json_same(xs@[i].value, ys@[i].value)
        },
        _ => false,
    }
}

/// Whether two JSON values are the same value.
pub fn json_eq(a: &JsonValue, b: &JsonValue) -> (r: bool)
    ensures
        r == json_same(*a, *b),
    decreases *a,
{
    match (a, b) {
        (JsonValue::Null, JsonValue::Null) => true,
        (JsonValue::Bool(x), JsonValue::Bool(y)) => *x == *y,
        (JsonValue::UInt(x), JsonValue::UInt(y)) => *x == *y,
        (JsonValue::NegInt(x), JsonValue::NegInt(y)) => *x == *y,
        (JsonValue::Float(x), JsonValue::Float(y)) => str_eq(x.as_str(), y.as_str()),
        (JsonValue::Str(x), JsonValue::Str(y)) => str_eq(x.as_str(), y.as_str()),
        (JsonValue::Arr(xs), JsonValue::Arr(ys)) => {
            if xs.len() != ys.len() {
                return false;
            }
            let mut i: usize = 0;
            while i < xs.len()
                invariant
                    i <= xs.len(),
                    xs.len() == ys.len(),
                    *a == JsonValue::Arr(*xs),
                    *b == JsonValue::Arr(*ys),
                    forall|j: int| #![trigger xs@[j]] 0 <= j < i ==> json_same(xs@[j], ys@[j]),
                decreases xs.len() - i,
            {
                proof {
                    assert(decreases_to!(*a => (*a)->Arr_0));
                    assert(decreases_to!(*xs => xs@));
                    assert(decreases_to!(xs@ => xs@[i as int]));
                }
                if !json_eq(&xs[i], &ys[i]) {
                    return false;
                }
                i = i + 1;
            }
            true
        },
        (JsonValue::Obj(xs), JsonValue::Obj(ys)) => {
            if xs.len() != ys.len() {
                return false;
            }
            let mut i: usize = 0;
            while i < xs.len()
                invariant
                    i <= xs.len(),
                    xs.len() == ys.len(),
                    *a == JsonValue::Obj(*xs),
                    *b == JsonValue::Obj(*ys),
                    forall|j: int| #![trigger xs@[j]] 0 <= j < i ==> xs@[j].key@ == ys@[j].key@
                        && json_same(xs@[j].value, ys@[j].value),
                decreases xs.len() - i,
            {
                proof {
                    assert(decreases_to!(*a => (*a)->Obj_0));
                    assert(decreases_to!(*xs => xs@));
                    assert(decreases_to!(xs@ => xs@[i as int]));
                    assert(decreases_to!(xs@[i as int] => xs@[i as int].value));
                }
                if !str_eq(xs[i].key.as_str(), ys[i].key.as_str()) {
                    return false;
                }
                if !json_eq(&xs[i].value, &ys[i].value) {
                    return false;
                }
                i = i + 1;
            }
            true
        },
        _ => false,
    }
}

} // verus!

verus! {

/// Both absent, or both present and the same JSON value.
pub open spec fn opt_json_same(a: Option<JsonValue>, b: Option<JsonValue>) -> bool {
    match (a, b) {
        (None, None) => true,
        (Some(x), Some(y)) => json_same(x, y),
        _ => false,
    }
}

/// Element by element the same JSON values.
pub open spec fn seq_json_same(a: Seq<JsonValue>, b: Seq<JsonValue>) -> bool {
    &&& a.len() == b.len()
    &&& forall|i: int| #![trigger a[i]] 0 <= i < a.len() ==> json_same(a[i], b[i])
}

pub fn opt_json_eq(a: Option<&JsonValue>, b: Option<&JsonValue>) -> (r: bool)
    ensures
        r == opt_json_same(opt_val(a), opt_val(b)),
{
    match (a, b) {
        (None, None) => true,
        (Some(x), Some(y)) => json_eq(x, y),
        _ => false,
    }
}

/// A deep copy of a JSON value.
pub fn json_clone(v: &JsonValue) -> (r: JsonValue)
    ensures
        json_same(*v, r),
    decreases *v,
{
    match v {
        JsonValue::Null => JsonValue::Null,
        JsonValue::Bool(b) => JsonValue::Bool(*b),
        JsonValue::UInt(n) => JsonValue::UInt(*n),
        JsonValue::NegInt(n) => JsonValue::NegInt(*n),
        JsonValue::Float(s) => JsonValue::Float(crate::text::owned(s.as_str())),
        JsonValue::Str(s) => JsonValue::Str(crate::text::owned(s.as_str())),
        JsonValue::Arr(xs) => {
            let mut out: Vec<JsonValue> = Vec::new();
            let mut i: usize = 0;
            while i < xs.len()
                invariant
                    i <= xs.len(),
                    out@.len() == i,
                    *v == JsonValue::Arr(*xs),
                    forall|j: int| #![trigger xs@[j]] 0 <= j < i ==> json_same(xs@[j], out@[j]),
                decreases xs.len() - i,
            {
                proof {
                    assert(decreases_to!(*v => (*v)->Arr_0));
                    assert(decreases_to!(*xs => xs@));
                    assert(decreases_to!(xs@ => xs@[i as int]));
                }
                let c = json_clone(&xs[i]);
                out.push(c);
                i = i + 1;
            }
            let r = JsonValue::Arr(out);
            assert(json_same(*v, r));
            r
        },
        JsonValue::Obj(ms) => {
            let mut out: Vec<JsonMember> = Vec::new();
            let mut i: usize = 0;
            while i < ms.len()
                invariant
                    i <= ms.len(),
                    out@.len() == i,
                    *v == JsonValue::Obj(*ms),
                    forall|j: int| #![trigger ms@[j]] 0 <= j < i ==> ms@[j].key@ == out@[j].key@ && json_same(ms@[j].value, out@[j].value),
                decreases ms.len() - i,
            {
                proof {
                    assert(decreases_to!(*v => (*v)->Obj_0));
                    assert(decreases_to!(*ms => ms@));
                    assert(decreases_to!(ms@ => ms@[i as int]));
                    assert(decreases_to!(ms@[i as int] => ms@[i as int].value));
                }
                let c = json_clone(&ms[i].value);
                out.push(JsonMember { key: crate::text::owned(ms[i].key.as_str()), value: c });
                i = i + 1;
            }
            let r = JsonValue::Obj(out);
            assert(json_same(*v, r));
            r
        },
    }
}

} // verus!

verus! {

/// `v` is the JSON string `s`.
pub open spec fn is_str(v: JsonValue, s: Seq<char>) -> bool {
    v matches JsonValue::Str(x) && x@ == s
}

/// `v` is an object whose member keys are exactly `keys`, in order.
pub open spec fn has_keys(v: JsonValue, keys: Seq<Seq<char>>) -> bool {
    v matches JsonValue::Obj(ms) && ms@.len() == keys.len() && forall|i: int|
        #![trigger ms@[i]]
        0 <= i < keys.len() ==> ms@[i].key@ == keys[i]
}

/// A JSON string holding the text of `s`.
pub fn str_value(s: &str) -> (r: JsonValue)
    ensures
        is_str(r, s@),
{
    JsonValue::Str(crate::text::owned(s))
}

/// A member `key: value`.
pub fn member(key: &str, value: JsonValue) -> (r: JsonMember)
    ensures
        r.key@ == key@,
        r.value == value,
{
    JsonMember { key: crate::text::owned(key), value }
}

/// The position object `{"line": line, "character": ch}`.
pub fn position_value(line: u64, ch: u64) -> (r: JsonValue)
    ensures
        has_keys(r, seq!["line"@, "character"@]),
        spec_get(r, "line"@) == Some(JsonValue::UInt(line)),
        spec_get(r, "character"@) == Some(JsonValue::UInt(ch)),
{
    let mut ms: Vec<JsonMember> = Vec::new();
    ms.push(member("line", JsonValue::UInt(line)));
    ms.push(member("character", JsonValue::UInt(ch)));
    let r = JsonValue::Obj(ms);
    proof {
        reveal_strlit("line");
        reveal_strlit("character");
        assert("line"@ != "character"@) by {
            assert("line"@.len() != "character"@.len());
        }
        assert(ms@[0].key@ == "line"@);
        assert(ms@.skip(1)[0] == ms@[1]);
        assert(ms@.drop_first() =~= ms@.skip(1));
        assert(ms@.drop_first()[0] == ms@[1]);
        assert(member_value(ms@.drop_first(), "character"@) == Some(ms@[1].value));
        assert(member_value(ms@, "character"@) == Some(ms@[1].value));
    }
    r
}

/// The range object `{"start": {...}, "end": {...}}`.
pub fn range_value(start_line: u64, start_char: u64, end_line: u64, end_char: u64) -> (r: JsonValue)
    ensures
        has_keys(r, seq!["start"@, "end"@]),
        spec_get(r, "start"@) matches Some(s) && has_keys(s, seq!["line"@, "character"@])
            && spec_get(s, "line"@) == Some(JsonValue::UInt(start_line))
            && spec_get(s, "character"@) == Some(JsonValue::UInt(start_char)),
        spec_get(r, "end"@) matches Some(e) && has_keys(e, seq!["line"@, "character"@])
            && spec_get(e, "line"@) == Some(JsonValue::UInt(end_line))
            && spec_get(e, "character"@) == Some(JsonValue::UInt(end_char)),
{
    let start = position_value(start_line, start_char);
    let end = position_value(end_line, end_char);
    let mut ms: Vec<JsonMember> = Vec::new();
    ms.push(member("start", start));
    ms.push(member("end", end));
    let r = JsonValue::Obj(ms);
    proof {
        reveal_strlit("start");
        reveal_strlit("end");
        assert("start"@ != "end"@) by {
            assert("start"@.len() != "end"@.len());
        }
        assert(ms@.drop_first()[0] == ms@[1]);
        assert(member_value(ms@.drop_first(), "end"@) == Some(ms@[1].value));
        assert(member_value(ms@, "end"@) == Some(ms@[1].value));
    }
    r
}

/// The members of an object (none for other values).
pub open spec fn members_of(v: JsonValue) -> Seq<JsonMember> {
    match v {
        JsonValue::Obj(ms) => ms@,
        _ => Seq::empty(),
    }
}

} // verus!

verus! {

proof fn lemma_member_value_replace(ms: Seq<JsonMember>, i: int, m: JsonMember, k: Seq<char>)
    requires
        0 <= i < ms.len(),
        ms[i].key@ == m.key@,
        forall|j: int| 0 <= j < i ==> (#[trigger] ms[j]).key@ != m.key@,
    ensures
        member_value(ms.update(i, m), k) == if k == m.key@ {
            Some(m.value)
        } else {
            member_value(ms, k)
        },
    decreases i,
{
    if i == 0 {
        assert(ms.update(0, m).drop_first() =~= ms.drop_first());
    } else {
        assert(ms[0].key@ != m.key@);
        assert forall|j: int| 0 <= j < i - 1 implies (#[trigger] ms.drop_first()[j]).key@ != m.key@ by {
            assert(ms.drop_first()[j] == ms[j + 1]);
        }
        lemma_member_value_replace(ms.drop_first(), i - 1, m, k);
        assert(ms.update(i, m).drop_first() =~= ms.drop_first().update(i - 1, m));
    }
}

proof fn lemma_member_value_push(ms: Seq<JsonMember>, m: JsonMember, k: Seq<char>)
    requires
        forall|j: int| 0 <= j < ms.len() ==> (#[trigger] ms[j]).key@ != m.key@,
    ensures
        member_value(ms.push(m), k) == if k == m.key@ {
            Some(m.value)
        } else {
            member_value(ms, k)
        },
    decreases ms.len(),
{
    if ms.len() == 0 {
        assert(ms.push(m).drop_first() =~= Seq::<JsonMember>::empty());
        assert(ms.push(m)[0] == m);
        assert(member_value(Seq::<JsonMember>::empty(), k) is None);
        assert(ms =~= Seq::<JsonMember>::empty());
    } else {
        assert(ms.push(m)[0] == ms[0]);
        assert(ms[0].key@ != m.key@);
        assert forall|j: int| 0 <= j < ms.len() - 1 implies (#[trigger] ms.drop_first()[j]).key@ != m.key@ by {
            assert(ms.drop_first()[j] == ms[j + 1]);
        }
        lemma_member_value_push(ms.drop_first(), m, k);
        assert(ms.push(m).drop_first() =~= ms.drop_first().push(m));
    }
}

impl JsonValue {
    /// An object with the member `key` set to `value`: the first member of
    /// that name gets the value, or a member is added at the end; a value
    /// that is not an object is returned as it is.
    pub fn with_member(self, key: &str, value: JsonValue) -> (r: JsonValue)
        ensures
            !(self is Obj) ==> r == self,
            self is Obj ==> (r is Obj && spec_get(r, key@) == Some(value) && forall|k: Seq<char>|
                k != key@ ==> #[trigger] spec_get(r, k) == spec_get(self, k)),
    {
        match self {
            JsonValue::Obj(members) => {
                let ghost all = members@;
                let mut members = members;
                let mut i: usize = 0;
                while i < members.len()
                    invariant
                        i <= members.len(),
                        members@ == all,
                        self == JsonValue::Obj(members),
                        forall|j: int| 0 <= j < i ==> (#[trigger] all[j]).key@ != key@,
                    decreases members.len() - i,
                {
                    if str_eq(members[i].key.as_str(), key) {
                        let mut m = members.remove(i);
                        m.value = value;
                        members.insert(i, m);
                        proof {
                            assert(members@ =~= all.update(i as int, m));
                            assert forall|k: Seq<char>| true implies #[trigger] member_value(members@, k) == if k == key@ {
                                Some(value)
                            } else {
                                member_value(all, k)
                            } by {
                                lemma_member_value_replace(all, i as int, m, k);
                            }
                        }
                        return JsonValue::Obj(members);
                    }
                    i = i + 1;
                }
                let m = JsonMember { key: crate::text::owned(key), value };
                members.push(m);
                proof {
                    assert forall|k: Seq<char>| true implies #[trigger] member_value(members@, k) == if k == key@ {
                        Some(value)
                    } else {
                        member_value(all, k)
                    } by {
                        lemma_member_value_push(all, m, k);
                    }
                }
                JsonValue::Obj(members)
            },
            other => other,
        }
    }
}

} // verus!

verus! {

/// `members` without those named `key`.
pub open spec fn remove_key(members: Seq<JsonMember>, key: Seq<char>) -> Seq<JsonMember>
    decreases members.len(),
{
    if members.len() == 0 {
        Seq::empty()
    } else if members[0].key@ == key {
        remove_key(members.drop_first(), key)
    } else {
        seq![members[0]] + remove_key(members.drop_first(), key)
    }
}

proof fn lemma_member_value_removed(members: Seq<JsonMember>, key: Seq<char>, k: Seq<char>)
    ensures
        member_value(remove_key(members, key), k) == if k == key {
            None
        } else {
            member_value(members, k)
        },
    decreases members.len(),
{
    if members.len() > 0 {
        lemma_member_value_removed(members.drop_first(), key, k);
        if members[0].key@ != key {
            let r = seq![members[0]] + remove_key(members.drop_first(), key);
            assert(r.drop_first() =~= remove_key(members.drop_first(), key));
            assert(r[0] == members[0]);
        }
    }
}

proof fn lemma_remove_key_snoc(members: Seq<JsonMember>, key: Seq<char>, m: JsonMember)
    ensures
        remove_key(members.push(m), key) == if m.key@ == key {
            remove_key(members, key)
        } else {
            remove_key(members, key).push(m)
        },
    decreases members.len(),
{
    if members.len() == 0 {
        assert(members.push(m).drop_first() =~= Seq::<JsonMember>::empty());
        assert(seq![m] + Seq::<JsonMember>::empty() =~= seq![m]);
        assert(Seq::<JsonMember>::empty().push(m) =~= seq![m]);
        assert(members =~= Seq::<JsonMember>::empty());
        assert(remove_key(Seq::<JsonMember>::empty(), key) =~= Seq::<JsonMember>::empty());
        assert(members.push(m)[0] == m);
    } else {
        assert(members.push(m).drop_first() =~= members.drop_first().push(m));
        assert(members.push(m)[0] == members[0]);
        lemma_remove_key_snoc(members.drop_first(), key, m);
        if members[0].key@ != key {
            if m.key@ != key {
                assert(seq![members[0]] + remove_key(members.drop_first(), key).push(m) =~= (seq![members[0]]
                    + remove_key(members.drop_first(), key)).push(m));
            }
        }
    }
}

impl JsonValue {
    /// An object without its members named `key`; a value that is not an
    /// object is returned as it is.
    pub fn without_member(self, key: &str) -> (r: JsonValue)
        ensures
            !(self is Obj) ==> r == self,
            self is Obj ==> (r is Obj && spec_get(r, key@) is None && forall|k: Seq<char>|
                k != key@ ==> #[trigger] spec_get(r, k) == spec_get(self, k)),
    {
        match self {
            JsonValue::Obj(members) => {
                let ghost all = members@;
                let mut rest = members;
                let mut out: Vec<JsonMember> = Vec::new();
                let ghost mut k: int = 0;
                while rest.len() > 0
                    invariant
                        0 <= k <= all.len(),
                        rest@ == all.skip(k),
                        out@ == remove_key(all.take(k), key@),
                    decreases rest.len(),
                {
                    let m = rest.remove(0);
                    assert(m == all[k]);
                    assert(all.take(k + 1) =~= all.take(k).push(m));
                    proof {
                        lemma_remove_key_snoc(all.take(k), key@, m);
                    }
                    if !str_eq(m.key.as_str(), key) {
                        out.push(m);
                    }
                    proof {
                        k = k + 1;
                    }
                    assert(rest@ =~= all.skip(k));
                }
                assert(k == all.len());
                assert(all.take(all.len() as int) =~= all);
                proof {
                    assert forall|k: Seq<char>| true implies #[trigger] member_value(out@, k) == if k == key@ {
                        None
                    } else {
                        member_value(all, k)
                    } by {
                        lemma_member_value_removed(all, key@, k);
                    }
                }
                JsonValue::Obj(out)
            },
            other => other,
        }
    }
}

} // verus!
