//! JSON documents as the library reads and builds them.
//!
//! Text is turned into a `JsonValue` (and back) at the edge of the
//! application; the library only looks values up and assembles them.
use vstd::prelude::*;
use crate::text::{owned, str_eq};

verus! {

/// A JSON number: an integer that fits `i64`, one that only fits `u64`,
/// or any other number, kept as its text.
#[derive(Debug, Clone, PartialEq, Eq)]
pub enum JsonNumber {
    Int(i64),
    UInt(u64),
    Real(String),
}

/// A JSON value. An object keeps its members in order; keys are unique.
#[derive(Debug)]
pub enum JsonValue {
    Null,
    Bool(bool),
    Number(JsonNumber),
    String(String),
    Array(Vec<JsonValue>),
    Object(Vec<JsonMember>),
}

/// A member of a JSON object.
#[derive(Debug)]
pub struct JsonMember {
    pub key: String,
    pub value: JsonValue,
}

/// A JSON value as mathematical data.
#[verifier::ext_equal]
pub enum JsonView {
    Null,
    Bool(bool),
    Int(int),
    Real(Seq<char>),
    String(Seq<char>),
    Array(Seq<JsonView>),
    Object(Seq<(Seq<char>, JsonView)>),
}

/// The view of a JSON value.
pub open spec fn json_view(v: JsonValue) -> JsonView
    decreases v,
{
    match v {
        JsonValue::Null => JsonView::Null,
        JsonValue::Bool(b) => JsonView::Bool(b),
        JsonValue::Number(JsonNumber::Int(i)) => JsonView::Int(i as int),
        JsonValue::Number(JsonNumber::UInt(u)) => JsonView::Int(u as int),
        JsonValue::Number(JsonNumber::Real(t)) => JsonView::Real(t@),
        JsonValue::String(s) => JsonView::String(s@),
        JsonValue::Array(a) => JsonView::Array(
            Seq::new(a@.len(), |i: int| if 0 <= i < a@.len() { json_view(a@[i]) } else { JsonView::Null }),
        ),
        JsonValue::Object(m) => JsonView::Object(
            Seq::new(
                m@.len(),
                |i: int| if 0 <= i < m@.len() { (m@[i].key@, json_view(m@[i].value)) } else { (Seq::empty(), JsonView::Null) },
            ),
        ),
    }
}

/// Whether every object in a JSON value names each of its members once,
/// as `serde_json`'s map holds them.
pub open spec fn distinct_keys(j: JsonView) -> bool
    decreases j,
{
    match j {
        JsonView::Array(a) => forall|i: int| 0 <= i < a.len() ==> distinct_keys(#[trigger] a[i]),
        JsonView::Object(ms) => {
            &&& forall|i: int, k: int| 0 <= i < k < ms.len() ==> (#[trigger] ms[i]).0 != (#[trigger] ms[k]).0
            &&& forall|i: int| 0 <= i < ms.len() ==> distinct_keys(#[trigger] ms[i].1)
        },
        _ => true,
    }
}

/// The value of the first of the first `n` members named `key`.
pub open spec fn entry_lookup(entries: Seq<JsonMember>, key: Seq<char>, n: int) -> Option<JsonValue>
    decreases n,
{
    if n <= 0 {
        None
    } else {
        match entry_lookup(entries, key, n - 1) {
            Some(v) => Some(v),
            None => if entries[n - 1].key@ == key {
                Some(entries[n - 1].value)
            } else {
                None
            },
        }
    }
}

proof fn lemma_entry_lookup_stable(entries: Seq<JsonMember>, key: Seq<char>, j: int, n: int)
    requires
        j <= n,
        entry_lookup(entries, key, j) is Some,
    ensures
        entry_lookup(entries, key, n) == entry_lookup(entries, key, j),
    decreases n - j,
{
    if j < n {
        lemma_entry_lookup_stable(entries, key, j, n - 1);
    }
}

/// `value.get(key)`: the member `key` of an object.
pub open spec fn json_get(v: JsonValue, key: Seq<char>) -> Option<JsonValue> {
    match v {
        JsonValue::Object(m) => entry_lookup(m@, key, m@.len() as int),
        _ => None,
    }
}

/// `value.as_str()`.
pub open spec fn json_str(v: JsonValue) -> Option<Seq<char>> {
    match v {
        JsonValue::String(s) => Some(s@),
        _ => None,
    }
}

/// `value.as_i64()`: an integer that fits `i64`.
pub open spec fn json_i64(v: JsonValue) -> Option<i64> {
    match v {
        JsonValue::Number(JsonNumber::Int(i)) => Some(i),
        JsonValue::Number(JsonNumber::UInt(u)) => if u <= i64::MAX {
            Some(u as i64)
        } else {
            None
        },
        _ => None,
    }
}

/// `value.as_array()`.
pub open spec fn json_array(v: JsonValue) -> Option<Seq<JsonValue>> {
    match v {
        JsonValue::Array(a) => Some(a@),
        _ => None,
    }
}

/// The text of member `key`, when it is a string.
pub open spec fn field_str(v: JsonValue, key: Seq<char>) -> Option<Seq<char>> {
    match json_get(v, key) {
        Some(x) => json_str(x),
        None => None,
    }
}

/// The integer of member `key`, when it is one that fits `i64`.
pub open spec fn field_i64(v: JsonValue, key: Seq<char>) -> Option<i64> {
    match json_get(v, key) {
        Some(x) => json_i64(x),
        None => None,
    }
}

/// The text of member `key`, or `default` when it is absent or not a
/// string.
pub open spec fn field_str_or(v: JsonValue, key: Seq<char>, default: Seq<char>) -> Seq<char> {
    match field_str(v, key) {
        Some(s) => s,
        None => default,
    }
}

pub open spec fn opt_str_view(o: Option<&str>) -> Option<Seq<char>> {
    match o {
        Some(s) => Some(s@),
        None => None,
    }
}

impl JsonValue {
    /// The member `key` of an object (`None` for other values).
    pub fn get(&self, key: &str) -> (res: Option<&JsonValue>)
        ensures
            match res {
                Some(r) => json_get(*self, key@) == Some(*r),
                None => json_get(*self, key@) is None,
            },
    {
        match self {
            JsonValue::Object(m) => {
                let mut k: usize = 0;
                while k < m.len()
                    invariant
                        k <= m@.len(),
                        json_get(*self, key@) == entry_lookup(m@, key@, m@.len() as int),
                        entry_lookup(m@, key@, k as int) is None,
                    decreases m@.len() - k,
                {
                    if str_eq(m[k].key.as_str(), key) {
                        proof {
                            lemma_entry_lookup_stable(m@, key@, k + 1, m@.len() as int);
                        }
                        return Some(&m[k].value);
                    }
                    k = k + 1;
                }
                None
            },
            _ => None,
        }
    }

    pub fn as_str(&self) -> (res: Option<&str>)
        ensures
            opt_str_view(res) == json_str(*self),
    {
        match self {
            JsonValue::String(s) => Some(s.as_str()),
            _ => None,
        }
    }

    pub fn as_i64(&self) -> (res: Option<i64>)
        ensures
            res == json_i64(*self),
    {
        match self {
            JsonValue::Number(JsonNumber::Int(i)) => Some(*i),
            JsonValue::Number(JsonNumber::UInt(u)) => if *u <= 9223372036854775807u64 {
                Some(*u as i64)
            } else {
                None
            },
            _ => None,
        }
    }

    pub fn as_array(&self) -> (res: Option<&Vec<JsonValue>>)
        ensures
            match res {
                Some(a) => json_array(*self) == Some(a@),
                None => json_array(*self) is None,
            },
    {
        match self {
            JsonValue::Array(a) => Some(a),
            _ => None,
        }
    }

    pub fn is_null(&self) -> (res: bool)
        ensures
            res == (*self is Null),
    {
        match self {
            JsonValue::Null => true,
            _ => false,
        }
    }
}

/// The text of member `key` (`field_str`).
pub fn str_field<'a>(v: &'a JsonValue, key: &str) -> (res: Option<&'a str>)
    ensures
        opt_str_view(res) == field_str(*v, key@),
{
    match v.get(key) {
        Some(x) => x.as_str(),
        None => None,
    }
}

/// The integer of member `key` (`field_i64`).
pub fn i64_field(v: &JsonValue, key: &str) -> (res: Option<i64>)
    ensures
        res == field_i64(*v, key@),
{
    match v.get(key) {
        Some(x) => x.as_i64(),
        None => None,
    }
}

/// The text of member `key`, or `default`, as an owned string.
pub fn str_field_or(v: &JsonValue, key: &str, default: &str) -> (res: String)
    ensures
        res@ == field_str_or(*v, key@, default@),
{
    match str_field(v, key) {
        Some(s) => owned(s),
        None => owned(default),
    }
}

/// A string value.
pub fn json_string(s: &str) -> (res: JsonValue)
    ensures
        res matches JsonValue::String(t) && t@ == s@,
{
    JsonValue::String(owned(s))
}

fn copy_number(n: &JsonNumber) -> (res: JsonNumber)
    ensures
        json_view(JsonValue::Number(res)) == json_view(JsonValue::Number(*n)),
{
    match n {
        JsonNumber::Int(i) => JsonNumber::Int(*i),
        JsonNumber::UInt(u) => JsonNumber::UInt(*u),
        JsonNumber::Real(t) => JsonNumber::Real(t.clone()),
    }
}

/// A copy of a JSON value.
pub fn copy_json(v: &JsonValue) -> (res: JsonValue)
    ensures
        json_view(res) == json_view(*v),
    decreases v,
{
    match v {
        JsonValue::Null => {
            assert(json_view(JsonValue::Null) == JsonView::Null);
            JsonValue::Null
        },
        JsonValue::Bool(b) => {
            assert(json_view(JsonValue::Bool(*b)) == JsonView::Bool(*b));
            JsonValue::Bool(*b)
        },
        JsonValue::Number(n) => JsonValue::Number(copy_number(n)),
        JsonValue::String(s) => {
            let t = s.clone();
            assert(t@ == s@);
            JsonValue::String(t)
        },
        JsonValue::Array(a) => {
            let mut out: Vec<JsonValue> = Vec::new();
            let mut i: usize = 0;
            while i < a.len()
                invariant
                    *v == JsonValue::Array(*a),
                    i <= a@.len(),
                    out@.len() == i,
                    forall|j: int| 0 <= j < i ==> json_view(#[trigger] out@[j]) == json_view(a@[j]),
                decreases a@.len() - i,
            {
                proof {
                    assert(decreases_to!(*v => (*v)->Array_0));
                    assert(decreases_to!(*a => a@));
                    assert(decreases_to!(a@ => a@[i as int]));
                }
                out.push(copy_json(&a[i]));
                i = i + 1;
            }
            let res = JsonValue::Array(out);
            proof {
                let vr = json_view(res);
                let vv = json_view(*v);
                let xs = vr->Array_0;
                let ys = vv->Array_0;
                assert(xs.len() == ys.len());
                assert forall|j: int| 0 <= j < xs.len() implies xs[j] == ys[j] by {
                    assert(xs[j] == json_view(out@[j]));
                    assert(ys[j] == json_view(a@[j]));
                }
                assert(xs =~= ys);
            }
            res
        },
        JsonValue::Object(m) => {
            let mut out: Vec<JsonMember> = Vec::new();
            let mut i: usize = 0;
            while i < m.len()
                invariant
                    *v == JsonValue::Object(*m),
                    i <= m@.len(),
                    out@.len() == i,
                    forall|j: int| 0 <= j < i ==> (#[trigger] out@[j]).key@ == m@[j].key@ && json_view(out@[j].value) == json_view(m@[j].value),
                decreases m@.len() - i,
            {
                proof {
                    assert(decreases_to!(*v => (*v)->Object_0));
                    assert(decreases_to!(*m => m@));
                    assert(decreases_to!(m@ => m@[i as int]));
                    assert(decreases_to!(m@[i as int] => m@[i as int].value));
                }
                let value = copy_json(&m[i].value);
                out.push(JsonMember { key: m[i].key.clone(), value });
                i = i + 1;
            }
            let res = JsonValue::Object(out);
            proof {
                let vr = json_view(res);
                let vv = json_view(*v);
                let xs = vr->Object_0;
                let ys = vv->Object_0;
                assert(xs.len() == ys.len());
                assert forall|j: int| 0 <= j < xs.len() implies xs[j] == ys[j] by {
                    assert(xs[j] == (out@[j].key@, json_view(out@[j].value)));
                    assert(ys[j] == (m@[j].key@, json_view(m@[j].value)));
                }
                assert(xs =~= ys);
            }
            res
        },
    }
}

} // verus!
