use vstd::prelude::*;

use serde_json::Value;

use crate::text::{owned, str_eq, strings_of};

verus! {

/// A JSON number: a non-negative integer, a negative integer, or any other
/// number, kept as its decimal text.
#[derive(Debug)]
pub enum JsonNumber {
    PosInt(u64),
    NegInt(i64),
    Float(String),
}

/// A JSON document. Objects keep their entries in order; a lookup finds
/// the first entry with a key.
#[derive(Debug)]
pub enum Json {
    Null,
    Bool(bool),
    Number(JsonNumber),
    Str(String),
    Array(Vec<Json>),
    Object(Vec<(String, Json)>),
}

/// The mathematical value of a JSON number.
pub enum NumberV {
    PosInt(u64),
    NegInt(i64),
    Float(Seq<char>),
}

/// The mathematical value of a JSON document.
pub enum JsonV {
    Null,
    Bool(bool),
    Number(NumberV),
    Str(Seq<char>),
    Array(Seq<JsonV>),
    Object(Seq<(Seq<char>, JsonV)>),
}

pub open spec fn number_view(n: JsonNumber) -> NumberV {
    match n {
        JsonNumber::PosInt(u) => NumberV::PosInt(u),
        JsonNumber::NegInt(i) => NumberV::NegInt(i),
        JsonNumber::Float(s) => NumberV::Float(s@),
    }
}

pub open spec fn json_view(j: Json) -> JsonV
    decreases j,
{
    match j {
        Json::Null => JsonV::Null,
        Json::Bool(b) => JsonV::Bool(b),
        Json::Number(n) => JsonV::Number(number_view(n)),
        Json::Str(s) => JsonV::Str(s@),
        Json::Array(items) => JsonV::Array(items_view(items@)),
        Json::Object(entries) => JsonV::Object(entries_view(entries@)),
    }
}

pub open spec fn items_view(s: Seq<Json>) -> Seq<JsonV>
    decreases s,
{
    if s.len() == 0 {
        seq![]
    } else {
        items_view(s.drop_last()).push(json_view(s.last()))
    }
}

pub open spec fn entries_view(s: Seq<(String, Json)>) -> Seq<(Seq<char>, JsonV)>
    decreases s,
{
    if s.len() == 0 {
        seq![]
    } else {
        entries_view(s.drop_last()).push((s.last().0@, json_view(s.last().1)))
    }
}

impl View for Json {
    type V = JsonV;

    open spec fn view(&self) -> JsonV {
        json_view(*self)
    }
}

} // verus!

verus! {

pub proof fn lemma_items_view(s: Seq<Json>)
    ensures
        items_view(s).len() == s.len(),
        forall|i: int| 0 <= i < s.len() ==> #[trigger] items_view(s)[i] == json_view(s[i]),
    decreases s.len(),
{
    if s.len() > 0 {
        lemma_items_view(s.drop_last());
        assert forall|i: int| 0 <= i < s.len() implies #[trigger] items_view(s)[i] == json_view(s[i]) by {
            if i < s.len() - 1 {
                assert(s.drop_last()[i] == s[i]);
            }
        }
    }
}

pub proof fn lemma_entries_view(s: Seq<(String, Json)>)
    ensures
        entries_view(s).len() == s.len(),
        forall|i: int|
            0 <= i < s.len() ==> #[trigger] entries_view(s)[i] == (s[i].0@, json_view(s[i].1)),
    decreases s.len(),
{
    if s.len() > 0 {
        lemma_entries_view(s.drop_last());
        assert forall|i: int| 0 <= i < s.len() implies #[trigger] entries_view(s)[i] == (
            s[i].0@,
            json_view(s[i].1),
        ) by {
            if i < s.len() - 1 {
                assert(s.drop_last()[i] == s[i]);
            }
        }
    }
}

/// The value of the first entry with key `key`.
pub open spec fn obj_lookup(es: Seq<(Seq<char>, JsonV)>, key: Seq<char>) -> Option<JsonV>
    decreases es.len(),
{
    if es.len() == 0 {
        None
    } else if es[0].0 == key {
        Some(es[0].1)
    } else {
        obj_lookup(es.drop_first(), key)
    }
}

/// The index of the first entry with key `key`.
pub open spec fn obj_index(es: Seq<(Seq<char>, JsonV)>, key: Seq<char>) -> Option<int>
    decreases es.len(),
{
    if es.len() == 0 {
        None
    } else if es[0].0 == key {
        Some(0)
    } else {
        match obj_index(es.drop_first(), key) {
            Some(i) => Some(i + 1),
            None => None,
        }
    }
}

/// The index of the entry for `key`, when `v` is an object holding one.
pub open spec fn json_obj_index(v: JsonV, key: Seq<char>) -> Option<int> {
    match v {
        JsonV::Object(es) => obj_index(es, key),
        _ => None,
    }
}

/// `Value::get` with a key: the field of an object, `None` for other values.
pub open spec fn field(v: JsonV, key: Seq<char>) -> Option<JsonV> {
    match v {
        JsonV::Object(es) => obj_lookup(es, key),
        _ => None,
    }
}

/// `Value::as_str`.
pub open spec fn as_str_v(v: JsonV) -> Option<Seq<char>> {
    match v {
        JsonV::Str(s) => Some(s),
        _ => None,
    }
}

/// `Value::as_bool`.
pub open spec fn as_bool_v(v: JsonV) -> Option<bool> {
    match v {
        JsonV::Bool(b) => Some(b),
        _ => None,
    }
}

/// The text of a field that holds a string.
pub open spec fn field_str(v: JsonV, key: Seq<char>) -> Option<Seq<char>> {
    match field(v, key) {
        Some(f) => as_str_v(f),
        None => None,
    }
}

/// The value of a field that holds a boolean.
pub open spec fn field_bool(v: JsonV, key: Seq<char>) -> Option<bool> {
    match field(v, key) {
        Some(f) => as_bool_v(f),
        None => None,
    }
}

/// The items of a field that holds an array.
pub open spec fn field_array(v: JsonV, key: Seq<char>) -> Option<Seq<JsonV>> {
    match field(v, key) {
        Some(JsonV::Array(items)) => Some(items),
        _ => None,
    }
}

/// The entries of `es` with the first entry for `key` given `value`, or
/// `(key, value)` appended when there is none (`Map::insert`).
pub open spec fn obj_insert(es: Seq<(Seq<char>, JsonV)>, key: Seq<char>, value: JsonV) -> Seq<(Seq<char>, JsonV)> {
    match obj_index(es, key) {
        Some(i) => es.update(i, (key, value)),
        None => es.push((key, value)),
    }
}

/// A field exists in an object (`Map::contains_key`).
pub open spec fn has_field(v: JsonV, key: Seq<char>) -> bool {
    field(v, key) is Some
}

pub open spec fn opt_json_view(o: Option<&Json>) -> Option<JsonV> {
    match o {
        Some(j) => Some(j@),
        None => None,
    }
}

pub proof fn lemma_obj_index_lookup(es: Seq<(Seq<char>, JsonV)>, key: Seq<char>)
    ensures
        obj_index(es, key) matches Some(i) ==> 0 <= i < es.len() && es[i].0 == key && obj_lookup(es, key)
            == Some(es[i].1) && forall|j: int| 0 <= j < i ==> es[j].0 != key,
        obj_index(es, key) is None ==> obj_lookup(es, key) is None && forall|j: int|
            0 <= j < es.len() ==> es[j].0 != key,
    decreases es.len(),
{
    if es.len() > 0 {
        lemma_obj_index_lookup(es.drop_first(), key);
        if es[0].0 != key {
            assert forall|j: int| 1 <= j < es.len() implies es[j] == es.drop_first()[j - 1] by {}
        }
    }
}

/// After `Map::insert`, the key finds the new value and every other key
/// finds what it found before.
pub proof fn lemma_lookup_after_insert(es: Seq<(Seq<char>, JsonV)>, k: Seq<char>, v: JsonV, k2: Seq<char>)
    ensures
        obj_lookup(obj_insert(es, k, v), k) == Some(v),
        k2 != k ==> obj_lookup(obj_insert(es, k, v), k2) == obj_lookup(es, k2),
    decreases es.len(),
{
    let n = obj_insert(es, k, v);
    if es.len() == 0 {
        assert(n == seq![(k, v)]);
        assert(n.drop_first() =~= seq![]);
        assert(n[0].0 == k);
        assert(obj_lookup(n.drop_first(), k2) is None);
    } else if es[0].0 == k {
        assert(n == es.update(0, (k, v)));
        assert(n.drop_first() =~= es.drop_first());
        assert(n[0].0 == k);
    } else {
        let rest = obj_insert(es.drop_first(), k, v);
        match obj_index(es.drop_first(), k) {
            Some(i) => {
                lemma_obj_index_lookup(es.drop_first(), k);
                assert(n == es.update(i + 1, (k, v)));
            },
            None => {},
        }
        assert(n =~= seq![es[0]] + rest);
        assert(n.drop_first() =~= rest);
        assert(n[0] == es[0]);
        lemma_lookup_after_insert(es.drop_first(), k, v, k2);
    }
}

/// Scanning entries from the front: the first match after a prefix without one.
proof fn lemma_obj_index_scan(es: Seq<(Seq<char>, JsonV)>, key: Seq<char>, i: int)
    requires
        0 <= i <= es.len(),
        forall|j: int| 0 <= j < i ==> es[j].0 != key,
    ensures
        i < es.len() && es[i].0 == key ==> obj_index(es, key) == Some(i),
        i == es.len() ==> obj_index(es, key) is None,
    decreases i,
{
    lemma_obj_index_lookup(es, key);
    if i > 0 {
        lemma_obj_index_scan(es.drop_first(), key, i - 1);
    }
}

impl Json {
    /// The index of the entry with key `key`, when `self` is an object that has one.
    pub fn entry_index(&self, key: &str) -> (r: Option<usize>)
        ensures
            match r {
                Some(i) => json_obj_index(self@, key@) == Some(i as int),
                None => json_obj_index(self@, key@) is None,
            },
    {
        match self {
            Json::Object(entries) => {
                proof {
                    lemma_entries_view(entries@);
                }
                let ghost es = entries_view(entries@);
                let mut i: usize = 0;
                while i < entries.len()
                    invariant
                        i <= entries.len(),
                        *self == Json::Object(*entries),
                        es == entries_view(entries@),
                        es.len() == entries.len(),
                        forall|k: int| 0 <= k < entries.len() ==> #[trigger] es[k] == (entries@[k].0@, json_view(entries@[k].1)),
                        forall|j: int| 0 <= j < i ==> es[j].0 != key@,
                    decreases entries.len() - i,
                {
                    if str_eq(entries[i].0.as_str(), key) {
                        proof {
                            lemma_obj_index_scan(es, key@, i as int);
                        }
                        return Some(i);
                    }
                    i += 1;
                }
                proof {
                    lemma_obj_index_scan(es, key@, i as int);
                }
                None
            },
            _ => None,
        }
    }

    /// `Value::get` with a key.
    pub fn get(&self, key: &str) -> (r: Option<&Json>)
        ensures
            opt_json_view(r) == field(self@, key@),
    {
        let idx = self.entry_index(key);
        match self {
            Json::Object(entries) => {
                proof {
                    lemma_entries_view(entries@);
                    lemma_obj_index_lookup(entries_view(entries@), key@);
                    assert(self@ == JsonV::Object(entries_view(entries@)));
                    let es = entries_view(entries@);
                    if let Some(i) = idx {
                        assert(obj_index(es, key@) == Some(i as int));
                        assert(es[i as int] == (entries@[i as int].0@, json_view(entries@[i as int].1)));
                        assert(obj_lookup(es, key@) == Some(es[i as int].1));
                    } else {
                        assert(obj_index(es, key@) is None);
                        assert(obj_lookup(es, key@) is None);
                    }
                }
                match idx {
                    Some(i) => Some(&entries[i].1),
                    None => None,
                }
            },
            _ => None,
        }
    }

    /// `Value::as_str`.
    pub fn as_str(&self) -> (r: Option<&String>)
        ensures
            match r {
                Some(s) => as_str_v(self@) == Some(s@),
                None => as_str_v(self@) is None,
            },
    {
        match self {
            Json::Str(s) => Some(s),
            _ => None,
        }
    }

    /// `Value::as_bool`.
    pub fn as_bool(&self) -> (r: Option<bool>)
        ensures
            r == as_bool_v(self@),
    {
        match self {
            Json::Bool(b) => Some(*b),
            _ => None,
        }
    }

    /// The string held by field `key`.
    pub fn get_str(&self, key: &str) -> (r: Option<&String>)
        ensures
            match r {
                Some(s) => field_str(self@, key@) == Some(s@),
                None => field_str(self@, key@) is None,
            },
    {
        match self.get(key) {
            Some(v) => v.as_str(),
            None => None,
        }
    }

    /// The boolean held by field `key`.
    pub fn get_bool(&self, key: &str) -> (r: Option<bool>)
        ensures
            r == field_bool(self@, key@),
    {
        match self.get(key) {
            Some(v) => v.as_bool(),
            None => None,
        }
    }

    /// The items of the array held by field `key`.
    pub fn get_array(&self, key: &str) -> (r: Option<&Vec<Json>>)
        ensures
            match r {
                Some(items) => field_array(self@, key@) == Some(items_view(items@)),
                None => field_array(self@, key@) is None,
            },
    {
        match self.get(key) {
            Some(Json::Array(items)) => Some(items),
            _ => None,
        }
    }

    /// A copy of the document.
    pub fn deep_clone(&self) -> (r: Json)
        ensures
            r@ == self@,
        decreases self,
    {
        match self {
            Json::Null => Json::Null,
            Json::Bool(b) => Json::Bool(*b),
            Json::Number(JsonNumber::PosInt(u)) => Json::Number(JsonNumber::PosInt(*u)),
            Json::Number(JsonNumber::NegInt(i)) => Json::Number(JsonNumber::NegInt(*i)),
            Json::Number(JsonNumber::Float(s)) => Json::Number(JsonNumber::Float(s.clone())),
            Json::Str(s) => Json::Str(s.clone()),
            Json::Array(items) => {
                let mut out: Vec<Json> = Vec::new();
                let mut i: usize = 0;
                while i < items.len()
                    invariant
                        i <= items.len(),
                        *self == Json::Array(*items),
                        items_view(out@) == items_view(items@.take(i as int)),
                    decreases items.len() - i,
                {
                    proof {
                        assert(decreases_to!(*self => (*self)->Array_0));
                        assert(decreases_to!(*items => items@));
                        assert(decreases_to!(items@ => items@[i as int]));
                    }
                    let c = items[i].deep_clone();
                    let ghost before = out@;
                    out.push(c);
                    assert(out@.drop_last() == before);
                    assert(items@.take(i + 1).drop_last() == items@.take(i as int));
                    i += 1;
                }
                assert(items@.take(items.len() as int) == items@);
                Json::Array(out)
            },
            Json::Object(entries) => {
                let mut out: Vec<(String, Json)> = Vec::new();
                let mut i: usize = 0;
                while i < entries.len()
                    invariant
                        i <= entries.len(),
                        *self == Json::Object(*entries),
                        entries_view(out@) == entries_view(entries@.take(i as int)),
                    decreases entries.len() - i,
                {
                    let k = entries[i].0.clone();
                    proof {
                        assert(decreases_to!(*self => (*self)->Object_0));
                        assert(decreases_to!(*entries => entries@));
                        assert(decreases_to!(entries@ => entries@[i as int]));
                        assert(decreases_to!(entries@[i as int] => entries@[i as int].1));
                    }
                    let c = entries[i].1.deep_clone();
                    let ghost before = out@;
                    out.push((k, c));
                    assert(out@.drop_last() == before);
                    assert(entries@.take(i + 1).drop_last() == entries@.take(i as int));
                    i += 1;
                }
                assert(entries@.take(entries.len() as int) == entries@);
                Json::Object(out)
            },
        }
    }
}

} // verus!

verus! {

#[verifier::external_type_specification]
#[verifier::external_body]
pub struct ExSerdeValue(serde_json::Value);

#[verifier::external_type_specification]
#[verifier::external_body]
pub struct ExSerdeNumber(serde_json::Number);

/// What `serde_json::from_str::<serde_json::Value>` makes of a text: the
/// document, or the text of the error when the text is not valid JSON.
pub uninterp spec fn json_parse_result(text: Seq<char>) -> Result<JsonV, Seq<char>>;

/// The document a text holds, `None` when it is not valid JSON.
pub open spec fn json_parse(text: Seq<char>) -> Option<JsonV> {
    match json_parse_result(text) {
        Ok(v) => Some(v),
        Err(_) => None,
    }
}

/// `serde_json::to_string` of a document (compact form).
pub uninterp spec fn json_text(v: JsonV) -> Seq<char>;

/// `serde_json::to_string_pretty` of a document.
pub uninterp spec fn json_pretty_text(v: JsonV) -> Seq<char>;

pub open spec fn opt_owned_json_view(o: Option<Json>) -> Option<JsonV> {
    match o {
        Some(j) => Some(j@),
        None => None,
    }
}

/// A `serde_json::Number` as a `JsonNumber`, by the variant the number
/// holds (no contract: the parsing wrapper below states the composite).
#[verifier::external_body]
fn number_from_serde(n: &serde_json::Number) -> JsonNumber {
    match (n.as_u64(), n.as_i64()) {
        (Some(u), _) => JsonNumber::PosInt(u),
        (None, Some(i)) => JsonNumber::NegInt(i),
        _ => JsonNumber::Float(n.to_string()),
    }
}

/// A `serde_json::Value` as a `Json`, variant by variant (no contract: the
/// parsing wrapper below states the composite).
#[verifier::external_body]
fn from_serde(value: &Value) -> Json {
    match value {
        Value::Null => Json::Null,
        Value::Bool(b) => Json::Bool(*b),
        Value::Number(n) => Json::Number(number_from_serde(n)),
        Value::String(s) => Json::Str(s.clone()),
        Value::Array(items) => Json::Array(items.iter().map(from_serde).collect()),
        Value::Object(map) => Json::Object(map.iter().map(|(k, v)| (k.clone(), from_serde(v))).collect()),
    }
}

/// A `JsonNumber` as a `serde_json::Value` (no contract).
#[verifier::external_body]
fn number_to_serde(n: &JsonNumber) -> Value {
    match n {
        JsonNumber::PosInt(u) => Value::from(*u),
        JsonNumber::NegInt(i) => Value::from(*i),
        JsonNumber::Float(s) => serde_json::from_str(s).unwrap_or(Value::Null),
    }
}

/// A `Json` as a `serde_json::Value`, variant by variant (no contract: the
/// printing wrappers below state the composite).
#[verifier::external_body]
fn to_serde(value: &Json) -> Value {
    match value {
        Json::Null => Value::Null,
        Json::Bool(b) => Value::Bool(*b),
        Json::Number(n) => number_to_serde(n),
        Json::Str(s) => Value::String(s.clone()),
        Json::Array(items) => Value::Array(items.iter().map(to_serde).collect()),
        Json::Object(entries) => Value::Object(entries.iter().map(|(k, v)| (k.clone(), to_serde(v))).collect()),
    }
}

/// `serde_json::from_str::<serde_json::Value>`: the parsed document, or
/// the error's text. The contract names the parser's result.
#[verifier::external_body]
pub fn parse_json_result(text: &str) -> (r: Result<Json, String>)
    ensures
        match r {
            Ok(v) => json_parse_result(text@) == Ok::<JsonV, Seq<char>>(v@),
            Err(e) => json_parse_result(text@) == Err::<JsonV, Seq<char>>(e@),
        },
{
    serde_json::from_str::<Value>(text).map(|value| from_serde(&value)).map_err(|error| error.to_string())
}

/// What `serde_json::from_slice::<serde_json::Value>` makes of bytes: the
/// document, or `None` when they are not valid JSON.
pub uninterp spec fn json_parse_bytes(bytes: Seq<u8>) -> Option<JsonV>;

/// `serde_json::from_slice::<serde_json::Value>`: the parsed document, or
/// `None` when the bytes are not JSON. The contract names the parser's result.
#[verifier::external_body]
pub fn parse_json_slice(bytes: &[u8]) -> (r: Option<Json>)
    ensures
        opt_owned_json_view(r) == json_parse_bytes(bytes@),
{
    serde_json::from_slice::<Value>(bytes).ok().map(|value| from_serde(&value))
}

/// The document a JSON text holds, `None` when it is not valid JSON.
pub fn parse_json_text(text: &str) -> (r: Option<Json>)
    ensures
        opt_owned_json_view(r) == json_parse(text@),
{
    match parse_json_result(text) {
        Ok(v) => Some(v),
        Err(_) => None,
    }
}

/// `serde_json::to_string` of the document. The contract names the result.
#[verifier::external_body]
pub fn json_to_string(value: &Json) -> (r: String)
    ensures
        r@ == json_text(value@),
{
    serde_json::to_string(&to_serde(value)).unwrap_or_default()
}

/// The `Debug` text of a `serde_json::Value` (`format!("{:?}", value)`).
pub uninterp spec fn json_debug(v: JsonV) -> Seq<char>;

/// `format!("{:?}", value)` of the document as a `serde_json::Value`. The
/// contract names the result.
#[verifier::external_body]
pub fn json_debug_text(value: &Json) -> (r: String)
    ensures
        r@ == json_debug(value@),
{
    format!("{:?}", to_serde(value))
}

/// `serde_json::to_string_pretty` of the document. The contract names the result.
#[verifier::external_body]
pub fn json_to_string_pretty(value: &Json) -> (r: String)
    ensures
        r@ == json_pretty_text(value@),
{
    serde_json::to_string_pretty(&to_serde(value)).unwrap_or_default()
}

} // verus!

verus! {

/// The index of the first entry with key `key`.
pub fn find_entry(entries: &Vec<(String, Json)>, key: &str) -> (r: Option<usize>)
    ensures
        match r {
            Some(i) => obj_index(entries_view(entries@), key@) == Some(i as int),
            None => obj_index(entries_view(entries@), key@) is None,
        },
{
    proof {
        lemma_entries_view(entries@);
    }
    let ghost es = entries_view(entries@);
    let mut i: usize = 0;
    while i < entries.len()
        invariant
            i <= entries.len(),
            es == entries_view(entries@),
            es.len() == entries.len(),
            forall|k: int| 0 <= k < entries.len() ==> #[trigger] es[k] == (entries@[k].0@, json_view(entries@[k].1)),
            forall|j: int| 0 <= j < i ==> es[j].0 != key@,
        decreases entries.len() - i,
    {
        if str_eq(entries[i].0.as_str(), key) {
            proof {
                lemma_obj_index_scan(es, key@, i as int);
            }
            return Some(i);
        }
        i += 1;
    }
    proof {
        lemma_obj_index_scan(es, key@, i as int);
    }
    None
}

pub proof fn lemma_entries_view_update(s: Seq<(String, Json)>, i: int, e: (String, Json))
    requires
        0 <= i < s.len(),
    ensures
        entries_view(s.update(i, e)) == entries_view(s).update(i, (e.0@, json_view(e.1))),
{
    lemma_entries_view(s);
    lemma_entries_view(s.update(i, e));
    assert(entries_view(s.update(i, e)) =~= entries_view(s).update(i, (e.0@, json_view(e.1))));
}

pub proof fn lemma_entries_view_push(s: Seq<(String, Json)>, e: (String, Json))
    ensures
        entries_view(s.push(e)) == entries_view(s).push((e.0@, json_view(e.1))),
{
    assert(s.push(e).drop_last() == s);
}

pub proof fn lemma_items_view_push(s: Seq<Json>, e: Json)
    ensures
        items_view(s.push(e)) == items_view(s).push(json_view(e)),
{
    assert(s.push(e).drop_last() == s);
}

/// `Map::insert` on the entries of an object.
pub fn obj_set(entries: &mut Vec<(String, Json)>, key: &str, value: Json)
    ensures
        entries_view(final(entries)@) == obj_insert(entries_view(old(entries)@), key@, value@),
{
    proof {
        lemma_entries_view(entries@);
    }
    match find_entry(entries, key) {
        Some(i) => {
            proof {
                lemma_obj_index_lookup(entries_view(entries@), key@);
            }
            let ghost before = entries@;
            entries.set(i, (owned(key), value));
            proof {
                lemma_entries_view_update(before, i as int, entries@[i as int]);
                assert(entries@ == before.update(i as int, entries@[i as int]));
            }
        },
        None => {
            let ghost before = entries@;
            entries.push((owned(key), value));
            proof {
                lemma_entries_view_push(before, entries@[before.len() as int]);
                assert(entries@ == before.push(entries@[before.len() as int]));
            }
        },
    }
}

/// The value of the entry for `key`, when there is one.
pub fn entry_value<'a>(entries: &'a Vec<(String, Json)>, key: &str) -> (r: Option<&'a Json>)
    ensures
        opt_json_view(r) == obj_lookup(entries_view(entries@), key@),
{
    proof {
        lemma_entries_view(entries@);
        lemma_obj_index_lookup(entries_view(entries@), key@);
    }
    match find_entry(entries, key) {
        Some(i) => Some(&entries[i].1),
        None => None,
    }
}

} // verus!

verus! {

/// `value[key] = x` on an object (the first entry for `key` is replaced, or
/// the entry is appended); any other value is kept.
pub open spec fn set_field(v: JsonV, key: Seq<char>, x: JsonV) -> JsonV {
    match v {
        JsonV::Object(es) => JsonV::Object(obj_insert(es, key, x)),
        _ => v,
    }
}

/// `value[key] = x` on an object; any other value is returned as it is.
pub fn with_field(v: Json, key: &str, x: Json) -> (r: Json)
    ensures
        r@ == set_field(v@, key@, x@),
{
    match v {
        Json::Object(mut es) => {
            obj_set(&mut es, key, x);
            Json::Object(es)
        },
        other => other,
    }
}

/// The marker that replaces omitted content: `{"omitted": true, "sizeBytes": n}`.
pub open spec fn omitted_marker(size: u64) -> JsonV {
    JsonV::Object(seq![("omitted"@, JsonV::Bool(true)), ("sizeBytes"@, JsonV::Number(NumberV::PosInt(size)))])
}

/// `{"omitted": true, "sizeBytes": size}`.
pub fn omitted(size: u64) -> (r: Json)
    ensures
        r@ == omitted_marker(size),
{
    let es = vec![
        (owned("omitted"), Json::Bool(true)),
        (owned("sizeBytes"), Json::Number(JsonNumber::PosInt(size))),
    ];
    proof {
        lemma_entries_view(es@);
        assert(entries_view(es@) =~= seq![("omitted"@, JsonV::Bool(true)), ("sizeBytes"@, JsonV::Number(NumberV::PosInt(size)))]);
    }
    Json::Object(es)
}

/// A list of strings as a JSON array of strings.
pub fn string_array(args: &[String]) -> (r: Json)
    ensures
        r@ == JsonV::Array(strings_of(args@).map_values(|a: Seq<char>| JsonV::Str(a))),
{
    let mut items: Vec<Json> = Vec::new();
    let mut i: usize = 0;
    while i < args.len()
        invariant
            i <= args.len(),
            items_view(items@) == strings_of(args@.take(i as int)).map_values(|a: Seq<char>| JsonV::Str(a)),
        decreases args.len() - i,
    {
        let ghost before = items@;
        let item = Json::Str(args[i].clone());
        items.push(item);
        proof {
            lemma_items_view_push(before, item);
            assert(items@ == before.push(item));
            assert(strings_of(args@.take(i + 1)).map_values(|a: Seq<char>| JsonV::Str(a)) =~= strings_of(args@.take(i as int)).map_values(|a: Seq<char>| JsonV::Str(a)).push(JsonV::Str(args@[i as int]@)));
        }
        i += 1;
    }
    assert(args@.take(args.len() as int) == args@);
    Json::Array(items)
}


/// The value of a field, `null` when absent (what indexing a
/// `serde_json::Value` by a missing key gives).
pub open spec fn field_or_null_v(v: JsonV, key: Seq<char>) -> JsonV {
    match field(v, key) {
        Some(x) => x,
        None => JsonV::Null,
    }
}

/// A copy of a field's value, `null` when absent.
pub fn field_or_null(v: &Json, key: &str) -> (r: Json)
    ensures
        r@ == field_or_null_v(v@, key@),
{
    match v.get(key) {
        Some(x) => x.deep_clone(),
        None => Json::Null,
    }
}

} // verus!
