//! A JSON value model for the document tree, with field access that mirrors
//! the lookups the renderers perform.

use vstd::prelude::*;
use crate::text::str_eq;

verus! {

/// A JSON number. Integers are held exactly; any other number is held as
/// its JSON text, which no rule of this library reads.
pub enum JsonNumber {
    PosInt(u64),
    NegInt(i64),
    Float(String),
}

/// The mathematical value of a JSON number.
pub enum NumberTree {
    PosInt(u64),
    NegInt(i64),
    Float(Seq<char>),
}

pub open spec fn number_view(n: JsonNumber) -> NumberTree {
    match n {
        JsonNumber::PosInt(x) => NumberTree::PosInt(x),
        JsonNumber::NegInt(x) => NumberTree::NegInt(x),
        JsonNumber::Float(t) => NumberTree::Float(t@),
    }
}

/// A JSON value, as produced for the document tree.
pub enum JsonValue {
    Null,
    Bool(bool),
    Number(JsonNumber),
    Str(String),
    Array(Vec<JsonValue>),
    Object(Vec<JsonMember>),
}

/// One key/value entry of a JSON object. Lookups use the first entry with
/// a given key.
pub struct JsonMember {
    pub key: String,
    pub value: JsonValue,
}

/// The mathematical value of a JSON value: strings as character sequences,
/// arrays as sequences, objects as sequences of (key, value) entries.
pub enum JsonTree {
    Null,
    Bool(bool),
    Number(NumberTree),
    Str(Seq<char>),
    Array(Seq<JsonTree>),
    Object(Seq<(Seq<char>, JsonTree)>),
}

pub open spec fn json_view(v: JsonValue) -> JsonTree
    decreases v, 1nat,
{
    match v {
        JsonValue::Null => JsonTree::Null,
        JsonValue::Bool(b) => JsonTree::Bool(b),
        JsonValue::Number(n) => JsonTree::Number(number_view(n)),
        JsonValue::Str(s) => JsonTree::Str(s@),
        JsonValue::Array(a) => {
            proof {
                assert(decreases_to!(v => a));
                assert(decreases_to!(a => a@));
            }
            JsonTree::Array(views_of(a@))
        },
        JsonValue::Object(m) => {
            proof {
                assert(decreases_to!(v => m));
                assert(decreases_to!(m => m@));
            }
            JsonTree::Object(members_view(m@))
        },
    }
}

pub open spec fn views_of(s: Seq<JsonValue>) -> Seq<JsonTree>
    decreases s, 0nat,
{
    if s.len() == 0 {
        Seq::empty()
    } else {
        views_of(s.drop_last()).push(json_view(s.last()))
    }
}

pub open spec fn members_view(s: Seq<JsonMember>) -> Seq<(Seq<char>, JsonTree)>
    decreases s, 0nat,
{
    if s.len() == 0 {
        Seq::empty()
    } else {
        proof {
            assert(decreases_to!(s => s.last()));
            assert(decreases_to!(s.last() => s.last().value));
        }
        members_view(s.drop_last()).push((s.last().key@, json_view(s.last().value)))
    }
}

impl View for JsonValue {
    type V = JsonTree;

    open spec fn view(&self) -> JsonTree {
        json_view(*self)
    }
}

/// A copy of a JSON value with the same view.
pub fn clone_value(v: &JsonValue) -> (r: JsonValue)
    ensures
        r@ == v@,
    decreases *v, 1nat,
{
    match v {
        JsonValue::Null => JsonValue::Null,
        JsonValue::Bool(b) => JsonValue::Bool(*b),
        JsonValue::Number(n) => JsonValue::Number(
            match n {
                JsonNumber::PosInt(x) => JsonNumber::PosInt(*x),
                JsonNumber::NegInt(x) => JsonNumber::NegInt(*x),
                JsonNumber::Float(t) => JsonNumber::Float(t.clone()),
            },
        ),
        JsonValue::Str(s) => JsonValue::Str(s.clone()),
        JsonValue::Array(a) => {
            proof {
                assert(decreases_to!(*v => *a));
                assert(decreases_to!(*a => a@));
            }
            JsonValue::Array(clone_values(a.as_slice()))
        },
        JsonValue::Object(m) => {
            proof {
                assert(decreases_to!(*v => *m));
                assert(decreases_to!(*m => m@));
            }
            JsonValue::Object(clone_members(m.as_slice()))
        },
    }
}

pub fn clone_values(s: &[JsonValue]) -> (r: Vec<JsonValue>)
    ensures
        views_of(r@) == views_of(s@),
    decreases s@, 0nat,
{
    let mut r: Vec<JsonValue> = Vec::new();
    let n = s.len();
    let mut i: usize = 0;
    while i < n
        invariant
            n == s@.len(),
            i <= n,
            views_of(r@) == views_of(s@.take(i as int)),
        decreases n - i,
    {
        proof {
            assert(s@.take(i + 1).drop_last() == s@.take(i as int));
            assert(s@.take(i + 1).last() == s@[i as int]);
        }
        let c = clone_value(&s[i]);
        let ghost before = r@;
        r.push(c);
        proof {
            assert(r@.drop_last() == before);
        }
        i += 1;
    }
    proof {
        assert(s@.take(n as int) == s@);
    }
    r
}

fn clone_members(s: &[JsonMember]) -> (r: Vec<JsonMember>)
    ensures
        members_view(r@) == members_view(s@),
    decreases s@, 0nat,
{
    let mut r: Vec<JsonMember> = Vec::new();
    let n = s.len();
    let mut i: usize = 0;
    while i < n
        invariant
            n == s@.len(),
            i <= n,
            members_view(r@) == members_view(s@.take(i as int)),
        decreases n - i,
    {
        proof {
            assert(s@.take(i + 1).drop_last() == s@.take(i as int));
            assert(s@.take(i + 1).last() == s@[i as int]);
            assert(decreases_to!(s@ => s@[i as int]));
            assert(decreases_to!(s@[i as int] => s@[i as int].value));
        }
        let c = JsonMember { key: s[i].key.clone(), value: clone_value(&s[i].value) };
        let ghost before = r@;
        r.push(c);
        proof {
            assert(r@.drop_last() == before);
        }
        i += 1;
    }
    proof {
        assert(s@.take(n as int) == s@);
    }
    r
}

/// Index of the first member with key `key`, or -1.
pub open spec fn find_key(members: Seq<JsonMember>, key: Seq<char>) -> int
    decreases members.len(),
{
    if members.len() == 0 {
        -1
    } else if find_key(members.drop_last(), key) >= 0 {
        find_key(members.drop_last(), key)
    } else if members.last().key@ == key {
        members.len() - 1
    } else {
        -1
    }
}

pub proof fn lemma_find_key(members: Seq<JsonMember>, key: Seq<char>)
    ensures
        -1 <= find_key(members, key) < members.len(),
        find_key(members, key) >= 0 ==> members[find_key(members, key)].key@ == key,
        find_key(members, key) < 0 ==> forall|j: int| 0 <= j < members.len() ==> members[j].key@ != key,
        find_key(members, key) >= 0 ==> forall|j: int| 0 <= j < find_key(members, key) ==> members[j].key@ != key,
    decreases members.len(),
{
    if members.len() > 0 {
        lemma_find_key(members.drop_last(), key);
        assert forall|j: int| 0 <= j < members.len() - 1 implies members.drop_last()[j] == members[j] by {}
    }
}

/// `v.get(key)`: the value of the first member named `key` of an object.
pub open spec fn get(v: JsonValue, key: Seq<char>) -> Option<JsonValue> {
    match v {
        JsonValue::Object(m) => {
            let i = find_key(m@, key);
            if 0 <= i < m@.len() { Some(m@[i].value) } else { None }
        },
        _ => None,
    }
}

pub open spec fn as_str(v: Option<JsonValue>) -> Option<Seq<char>> {
    match v {
        Some(JsonValue::Str(s)) => Some(s@),
        _ => None,
    }
}

pub open spec fn as_array(v: Option<JsonValue>) -> Option<Seq<JsonValue>> {
    match v {
        Some(JsonValue::Array(a)) => Some(a@),
        _ => None,
    }
}

/// `v.get(key).and_then(as_str).unwrap_or(default)`.
pub open spec fn str_or(v: JsonValue, key: Seq<char>, default: Seq<char>) -> Seq<char> {
    match as_str(get(v, key)) {
        Some(s) => s,
        None => default,
    }
}

/// `v.get(key).and_then(as_array)`, as a sequence or the empty sequence.
pub open spec fn arr_or_empty(v: JsonValue, key: Seq<char>) -> Seq<JsonValue> {
    match as_array(get(v, key)) {
        Some(s) => s,
        None => Seq::empty(),
    }
}

/// `v.get(key).and_then(as_u64).unwrap_or(default)`.
pub open spec fn u64_or(v: JsonValue, key: Seq<char>, default: u64) -> u64 {
    match get(v, key) {
        Some(JsonValue::Number(JsonNumber::PosInt(n))) => n,
        _ => default,
    }
}

/// `v.get(key).and_then(as_bool).unwrap_or(default)`.
pub open spec fn bool_or(v: JsonValue, key: Seq<char>, default: bool) -> bool {
    match get(v, key) {
        Some(JsonValue::Bool(b)) => b,
        _ => default,
    }
}

/// A field of an object value is smaller than the object.
pub proof fn lemma_get_decreases(v: JsonValue, key: Seq<char>)
    ensures
        get(v, key) matches Some(f) ==> decreases_to!(v => f),
{
    if let JsonValue::Object(m) = v {
        lemma_find_key(m@, key);
        let i = find_key(m@, key);
        if 0 <= i < m@.len() {
            assert(decreases_to!(v => m));
            assert(decreases_to!(m => m@));
            assert(decreases_to!(m@ => m@[i]));
            assert(decreases_to!(m@[i] => m@[i].value));
        }
    }
}

/// An array field of an object value is smaller than the object.
pub proof fn lemma_arr_decreases(v: JsonValue, key: Seq<char>)
    ensures
        as_array(get(v, key)) matches Some(s) ==> decreases_to!(v => s),
{
    lemma_get_decreases(v, key);
    if let Some(JsonValue::Array(a)) = get(v, key) {
        assert(decreases_to!(JsonValue::Array(a) => a));
        assert(decreases_to!(a => a@));
    }
}

/// Exec `v.get(key)`.
pub fn get_field<'a>(v: &'a JsonValue, key: &str) -> (r: Option<&'a JsonValue>)
    ensures
        match r {
            Some(f) => get(*v, key@) == Some(*f),
            None => get(*v, key@) is None,
        },
{
    match v {
        JsonValue::Object(m) => {
            let n = m.len();
            let mut i: usize = 0;
            while i < n
                invariant
                    n == m@.len(),
                    i <= n,
                    *v == JsonValue::Object(*m),
                    forall|j: int| 0 <= j < i ==> m@[j].key@ != key@,
                decreases n - i,
            {
                if str_eq(m[i].key.as_str(), key) {
                    proof {
                        lemma_find_key(m@, key@);
                        let k = find_key(m@, key@);
                        if k < 0 {
                            assert(m@[i as int].key@ != key@);
                        } else if k < i {
                            assert(m@[k].key@ != key@);
                        } else if k > i {
                            assert(m@[i as int].key@ != key@);
                        }
                    }
                    return Some(&m[i].value);
                }
                i += 1;
            }
            proof {
                lemma_find_key(m@, key@);
            }
            None
        },
        _ => None,
    }
}

/// Exec `v.get(key).and_then(as_str).unwrap_or(default)`.
pub fn str_field<'a>(v: &'a JsonValue, key: &str, default: &'a str) -> (r: &'a str)
    ensures
        r@ == str_or(*v, key@, default@),
{
    match get_field(v, key) {
        Some(JsonValue::Str(s)) => s.as_str(),
        _ => default,
    }
}

/// Exec `v.get(key).and_then(as_str)`.
pub fn opt_str_field<'a>(v: &'a JsonValue, key: &str) -> (r: Option<&'a str>)
    ensures
        match r {
            Some(s) => as_str(get(*v, key@)) == Some(s@),
            None => as_str(get(*v, key@)) is None,
        },
{
    match get_field(v, key) {
        Some(JsonValue::Str(s)) => Some(s.as_str()),
        _ => None,
    }
}

/// Exec `v.get(key).and_then(as_array)`.
pub fn arr_field<'a>(v: &'a JsonValue, key: &str) -> (r: Option<&'a [JsonValue]>)
    ensures
        match r {
            Some(s) => as_array(get(*v, key@)) == Some(s@),
            None => as_array(get(*v, key@)) is None,
        },
{
    match get_field(v, key) {
        Some(JsonValue::Array(a)) => Some(a.as_slice()),
        _ => None,
    }
}

/// Exec `v.get(key).and_then(as_array).unwrap_or(&[])`.
pub fn arr_field_or_empty<'a>(v: &'a JsonValue, key: &str) -> (r: &'a [JsonValue])
    ensures
        r@ == arr_or_empty(*v, key@),
{
    match get_field(v, key) {
        Some(JsonValue::Array(a)) => a.as_slice(),
        _ => &[],
    }
}

/// Exec `v.get(key).and_then(as_u64).unwrap_or(default)`.
pub fn u64_field(v: &JsonValue, key: &str, default: u64) -> (r: u64)
    ensures
        r == u64_or(*v, key@, default),
{
    match get_field(v, key) {
        Some(JsonValue::Number(JsonNumber::PosInt(n))) => *n,
        _ => default,
    }
}

/// Exec `v.get(key).and_then(as_bool).unwrap_or(default)`.
pub fn bool_field(v: &JsonValue, key: &str, default: bool) -> (r: bool)
    ensures
        r == bool_or(*v, key@, default),
{
    match get_field(v, key) {
        Some(JsonValue::Bool(b)) => *b,
        _ => default,
    }
}

} // verus!
