//! Structured values that seed the rendering context, and their mathematical model.

use vstd::prelude::*;

verus! {

/// The number type of `serde_json`, carried through without being inspected.
#[verifier::external_type_specification]
#[verifier::external_body]
pub struct ExJsonNumber(serde_json::Number);

/// The value type of `serde_json`, as it is handed to the rendering engine and as the
/// YAML parser gives it.
#[verifier::external_type_specification]
#[verifier::external_body]
pub struct ExJsonValue(serde_json::Value);

/// The map type of `serde_json`, in which the entries of an object stand.
#[verifier::external_type_specification]
#[verifier::external_body]
#[verifier::reject_recursive_types(K)]
#[verifier::reject_recursive_types(V)]
pub struct ExJsonMap<K, V>(serde_json::Map<K, V>);

/// `Clone` for `serde_json::Number`: the copy is the same number.
pub assume_specification[ <serde_json::Number as Clone>::clone ](n: &serde_json::Number) -> (r:
    serde_json::Number)
    ensures
        r == *n,
;

/// Mathematical model of a structured value: objects are finite maps from keys to models.
pub ghost enum Json {
    Null,
    Bool(bool),
    Number(serde_json::Number),
    Text(Seq<char>),
    Array(Seq<Json>),
    Object(Map<Seq<char>, Json>),
}

/// What a `serde_json::Value` holds: its variant, and in an object the value under
/// each key.
pub uninterp spec fn json_model(raw: serde_json::Value) -> Json;

/// What a `serde_json::Map` holds: the value under each key.
pub uninterp spec fn object_model(map: serde_json::Map<String, serde_json::Value>) -> Map<
    Seq<char>,
    Json,
>;

/// The object without entries.
pub open spec fn empty_object() -> Map<Seq<char>, Json> {
    Map::empty()
}

/// A structured value: the shape shared by YAML and JSON documents.
///
/// An object is held as a list of entries; where a key occurs more than once
/// the last entry is the one that counts.
#[derive(Debug)]
pub enum Datum {
    Null,
    Bool(bool),
    Number(serde_json::Number),
    String(String),
    Array(Vec<Datum>),
    Object(Vec<(String, Datum)>),
}

/// Position of the last entry whose key is `key`, or -1 where no entry has that key.
pub open spec fn key_index(entries: Seq<(String, Datum)>, key: Seq<char>) -> int
    decreases entries.len(),
{
    if entries.len() == 0 {
        -1
    } else if entries.last().0@ == key {
        entries.len() - 1
    } else {
        key_index(entries.drop_last(), key)
    }
}

impl View for Datum {
    type V = Json;

    open spec fn view(&self) -> Json
        decreases self,
    {
        match self {
            Datum::Null => Json::Null,
            Datum::Bool(b) => Json::Bool(*b),
            Datum::Number(n) => Json::Number(*n),
            Datum::String(s) => Json::Text(s@),
            Datum::Array(items) => Json::Array(
                Seq::new(
                    items@.len(),
                    |i: int|
                        if 0 <= i < items@.len() {
                            items@[i].view()
                        } else {
                            Json::Null
                        },
                ),
            ),
            Datum::Object(entries) => Json::Object(
                Map::new(
                    |k: Seq<char>| key_index(entries@, k) >= 0,
                    |k: Seq<char>|
                        {
                            let i = key_index(entries@, k);
                            if 0 <= i < entries@.len() {
                                entries@[i].1.view()
                            } else {
                                Json::Null
                            }
                        },
                ),
            ),
        }
    }
}

/// Model of a list of values, element by element.
pub open spec fn items_view(items: Seq<Datum>) -> Seq<Json> {
    Seq::new(items.len(), |i: int| items[i]@)
}

/// Model of a list of entries read as an object: the last entry of each key counts.
pub open spec fn entries_view(entries: Seq<(String, Datum)>) -> Map<Seq<char>, Json> {
    Map::new(
        |k: Seq<char>| key_index(entries, k) >= 0,
        |k: Seq<char>| entries[key_index(entries, k)].1@,
    )
}

/// `key_index` stays within the list and points at an entry with the key asked for;
/// no later entry has that key.
pub proof fn lemma_key_index(entries: Seq<(String, Datum)>, key: Seq<char>)
    ensures
        -1 <= key_index(entries, key) < entries.len(),
        key_index(entries, key) >= 0 ==> entries[key_index(entries, key)].0@ == key,
        forall|j: int|
            key_index(entries, key) < j < entries.len() ==> (#[trigger] entries[j]).0@ != key,
    decreases entries.len(),
{
    if entries.len() > 0 && entries.last().0@ != key {
        lemma_key_index(entries.drop_last(), key);
        assert forall|j: int| key_index(entries, key) < j < entries.len() implies (
        #[trigger] entries[j]).0@ != key by {
            if j < entries.len() - 1 {
                assert(entries.drop_last()[j] == entries[j]);
            }
        }
    }
}

/// The model of an array is the list of its items' models.
pub proof fn lemma_array_view(items: Vec<Datum>)
    ensures
        Datum::Array(items)@ == Json::Array(items_view(items@)),
{
    assert(Datum::Array(items)@->Array_0 =~= items_view(items@));
}

/// The model of an object is the map that its entries give.
pub proof fn lemma_object_view(entries: Vec<(String, Datum)>)
    ensures
        Datum::Object(entries)@ == Json::Object(entries_view(entries@)),
{
    assert forall|k: Seq<char>| key_index(entries@, k) >= 0 implies 0 <= key_index(entries@, k)
        < entries@.len() by {
        lemma_key_index(entries@, k);
    }
    assert(Datum::Object(entries)@->Object_0 =~= entries_view(entries@));
}

impl Datum {
    /// A deep copy: the result has the same model.
    pub fn duplicate(&self) -> (r: Datum)
        ensures
            r@ == self@,
        decreases self,
    {
        match self {
            Datum::Null => Datum::Null,
            Datum::Bool(b) => Datum::Bool(*b),
            Datum::Number(n) => Datum::Number(n.clone()),
            Datum::String(s) => Datum::String(s.clone()),
            Datum::Array(items) => {
                let out = duplicate_items(items);
                proof {
                    lemma_array_view(*items);
                    lemma_array_view(out);
                }
                Datum::Array(out)
            },
            Datum::Object(entries) => {
                let out = duplicate_entries(entries);
                proof {
                    lemma_object_view(*entries);
                    lemma_object_view(out);
                }
                Datum::Object(out)
            },
        }
    }
}

impl Datum {
    /// The value under `key` where this is an object that has the key.
    pub fn get(&self, key: &str) -> (r: Option<&Datum>)
        ensures
            match r {
                Some(v) => self@ matches Json::Object(m) && m.contains_key(key@) && m[key@] == v@,
                None => self@ matches Json::Object(m) ==> !m.contains_key(key@),
            },
    {
        match self {
            Datum::Object(entries) => {
                let wanted = String::from_str(key);
                let mut i: usize = entries.len();
                proof {
                    lemma_object_view(*entries);
                    lemma_key_index(entries@, key@);
                }
                while i > 0
                    invariant
                        i <= entries.len(),
                        wanted@ == key@,
                        self@ == Json::Object(entries_view(entries@)),
                        forall|j: int| i <= j < entries@.len() ==> (#[trigger] entries@[j]).0@ != key@,
                    decreases i,
                {
                    i -= 1;
                    if entries[i].0 == wanted {
                        proof {
                            lemma_key_index(entries@, key@);
                        }
                        return Some(&entries[i].1);
                    }
                }
                proof {
                    lemma_absent_index(entries@, key@);
                }
                None
            },
            Datum::Array(items) => {
                proof {
                    lemma_array_view(*items);
                }
                None
            },
            _ => None,
        }
    }
}

impl Clone for Datum {
    fn clone(&self) -> (r: Self)
        ensures
            r@ == self@,
    {
        self.duplicate()
    }
}

/// What a list of `serde_json::Value`s holds, item by item.
pub open spec fn raw_models(items: Seq<serde_json::Value>) -> Seq<Json> {
    Seq::new(items.len(), |i: int| json_model(items[i]))
}

/// `serde_json::Value::Null`.
#[verifier::external_body]
fn json_null() -> (raw: serde_json::Value)
    ensures
        json_model(raw) == Json::Null,
{
    serde_json::Value::Null
}

/// `serde_json::Value::Bool`, holding the flag.
#[verifier::external_body]
fn json_bool(flag: bool) -> (raw: serde_json::Value)
    ensures
        json_model(raw) == Json::Bool(flag),
{
    serde_json::Value::Bool(flag)
}

/// `serde_json::Value::Number`, holding the number.
#[verifier::external_body]
fn json_number(number: serde_json::Number) -> (raw: serde_json::Value)
    ensures
        json_model(raw) == Json::Number(number),
{
    serde_json::Value::Number(number)
}

/// `serde_json::Value::String`, holding the text.
#[verifier::external_body]
fn json_string(text: String) -> (raw: serde_json::Value)
    ensures
        json_model(raw) == Json::Text(text@),
{
    serde_json::Value::String(text)
}

/// `serde_json::Value::Array`, holding the items in their order.
#[verifier::external_body]
fn json_array(items: Vec<serde_json::Value>) -> (raw: serde_json::Value)
    ensures
        json_model(raw) == Json::Array(raw_models(items@)),
{
    serde_json::Value::Array(items)
}

/// `serde_json::Value::Object`, holding the map.
#[verifier::external_body]
fn json_object(map: serde_json::Map<String, serde_json::Value>) -> (raw: serde_json::Value)
    ensures
        json_model(raw) == Json::Object(object_model(map)),
{
    serde_json::Value::Object(map)
}

/// `serde_json::Map::new`: a map that holds nothing.
#[verifier::external_body]
fn new_object() -> (map: serde_json::Map<String, serde_json::Value>)
    ensures
        object_model(map) == empty_object(),
{
    serde_json::Map::new()
}

/// `serde_json::Map::insert`: the value stands under the key afterwards, in place of
/// what stood there, and the other keys are as before.
#[verifier::external_body]
fn object_insert(
    map: &mut serde_json::Map<String, serde_json::Value>,
    key: String,
    value: serde_json::Value,
)
    ensures
        object_model(*final(map)) == object_model(*old(map)).insert(key@, json_model(value)),
{
    map.insert(key, value);
}

/// The `serde_json::Value` of a value: it holds what the value's model says.
pub(crate) fn to_json(value: &Datum) -> (raw: serde_json::Value)
    ensures
        json_model(raw) == value@,
    decreases value,
{
    match value {
        Datum::Null => json_null(),
        Datum::Bool(b) => json_bool(*b),
        Datum::Number(n) => json_number(n.clone()),
        Datum::String(s) => json_string(s.clone()),
        Datum::Array(items) => {
            proof {
                lemma_array_view(*items);
            }
            json_array(to_json_items(items))
        },
        Datum::Object(entries) => {
            proof {
                lemma_object_view(*entries);
            }
            json_object(to_json_entries(entries))
        },
    }
}

/// The `serde_json::Value`s of a list of values.
fn to_json_items(items: &Vec<Datum>) -> (out: Vec<serde_json::Value>)
    ensures
        raw_models(out@) == items_view(items@),
    decreases items,
{
    let mut out: Vec<serde_json::Value> = Vec::new();
    let mut i: usize = 0;
    while i < items.len()
        invariant
            i <= items.len(),
            out@.len() == i,
            forall|j: int| 0 <= j < i ==> json_model(#[trigger] out@[j]) == items@[j]@,
        decreases items.len() - i,
    {
        out.push(to_json(&items[i]));
        i += 1;
    }
    assert(raw_models(out@) =~= items_view(items@));
    out
}

/// The `serde_json::Map` of a list of entries, filled in their order, so that the
/// last entry of a key is the one that stays.
fn to_json_entries(entries: &Vec<(String, Datum)>) -> (map: serde_json::Map<
    String,
    serde_json::Value,
>)
    ensures
        object_model(map) == entries_view(entries@),
    decreases entries,
{
    let mut map = new_object();
    let mut i: usize = 0;
    proof {
        assert(entries_view(entries@.take(0)) =~= empty_object());
    }
    while i < entries.len()
        invariant
            i <= entries.len(),
            object_model(map) == entries_view(entries@.take(i as int)),
        decreases entries.len() - i,
    {
        proof {
            lemma_push_entry(entries@.take(i as int), entries@[i as int]);
            assert(entries@.take(i as int).push(entries@[i as int]) =~= entries@.take(i + 1));
        }
        let raw = to_json(&entries[i].1);
        object_insert(&mut map, entries[i].0.clone(), raw);
        i += 1;
    }
    assert(entries@.take(entries@.len() as int) =~= entries@);
    map
}

/// How deep a `serde_json::Value` is nested: what an array or an object holds is
/// nested less deeply than the array or object itself.
pub uninterp spec fn json_size(raw: serde_json::Value) -> nat;

/// The top of a `serde_json::Value`: its variant, with what it holds directly.
pub(crate) enum JsonParts<'a> {
    Null,
    Bool(bool),
    Number(serde_json::Number),
    Text(String),
    Array(Vec<&'a serde_json::Value>),
    Object(Vec<(String, &'a serde_json::Value)>),
}

/// Whether `parts` holds what stands at the top of `model`: the same variant with the
/// same scalar, the items of an array in their order, or the entries of an object,
/// each key once, with every key of the object among them.
pub(crate) open spec fn holds_top(parts: JsonParts<'_>, model: Json) -> bool {
    match parts {
        JsonParts::Null => model == Json::Null,
        JsonParts::Bool(flag) => model == Json::Bool(flag),
        JsonParts::Number(number) => model == Json::Number(number),
        JsonParts::Text(text) => model == Json::Text(text@),
        JsonParts::Array(items) => model == Json::Array(
            Seq::new(items@.len(), |i: int| json_model(*items@[i])),
        ),
        JsonParts::Object(entries) => {
            &&& model is Object
            &&& forall|k: Seq<char>|
                (#[trigger] model->Object_0.contains_key(k)) <==> exists|i: int|
                    0 <= i < entries@.len() && (#[trigger] entries@[i]).0@ == k
            &&& forall|i: int|
                0 <= i < entries@.len() ==> model->Object_0[(#[trigger] entries@[i]).0@]
                    == json_model(*entries@[i].1)
            &&& forall|i: int, j: int|
                0 <= i < j < entries@.len() ==> (#[trigger] entries@[i]).0@ != (
                #[trigger] entries@[j]).0@
        },
    }
}

/// Whether everything that `parts` refers to is nested less deeply than `bound`.
pub(crate) open spec fn nested_below(parts: JsonParts<'_>, bound: nat) -> bool {
    match parts {
        JsonParts::Array(items) => forall|i: int|
            0 <= i < items@.len() ==> json_size(*#[trigger] items@[i]) < bound,
        JsonParts::Object(entries) => forall|i: int|
            0 <= i < entries@.len() ==> json_size(*(#[trigger] entries@[i]).1) < bound,
        _ => true,
    }
}

/// Takes the top off a `serde_json::Value`: one arm for each variant, holding copies
/// of the scalars and references to the items of an array, in their order, or to the
/// entries of an object, as `serde_json::Map::iter` hands them out, each key once.
/// What comes back is the same variant holding the same things, each of them nested
/// less deeply than the whole.
#[verifier::external_body]
fn json_parts<'a>(raw: &'a serde_json::Value) -> (parts: JsonParts<'a>)
    ensures
        holds_top(parts, json_model(*raw)),
        nested_below(parts, json_size(*raw)),
{
    match raw {
        serde_json::Value::Null => JsonParts::Null,
        serde_json::Value::Bool(b) => JsonParts::Bool(*b),
        serde_json::Value::Number(n) => JsonParts::Number(n.clone()),
        serde_json::Value::String(s) => JsonParts::Text(s.clone()),
        serde_json::Value::Array(items) => JsonParts::Array(items.iter().collect()),
        serde_json::Value::Object(map) => JsonParts::Object(
            map.iter().map(|(k, v)| (k.clone(), v)).collect(),
        ),
    }
}

/// Reads a `serde_json::Value` into a value with the same model.
pub(crate) fn from_json(raw: &serde_json::Value) -> (value: Datum)
    ensures
        value@ == json_model(*raw),
    decreases json_size(*raw),
{
    match json_parts(raw) {
        JsonParts::Null => Datum::Null,
        JsonParts::Bool(flag) => Datum::Bool(flag),
        JsonParts::Number(number) => Datum::Number(number),
        JsonParts::Text(text) => Datum::String(text),
        JsonParts::Array(items) => {
            let mut out: Vec<Datum> = Vec::new();
            let mut i: usize = 0;
            while i < items.len()
                invariant
                    i <= items.len(),
                    out@.len() == i,
                    forall|j: int|
                        0 <= j < items@.len() ==> json_size(*#[trigger] items@[j]) < json_size(
                            *raw,
                        ),
                    forall|j: int| 0 <= j < i ==> (#[trigger] out@[j])@ == json_model(*items@[j]),
                decreases items.len() - i,
            {
                out.push(from_json(items[i]));
                i += 1;
            }
            proof {
                lemma_array_view(out);
                assert(items_view(out@) =~= Seq::new(
                    items@.len(),
                    |i: int| json_model(*items@[i]),
                ));
            }
            Datum::Array(out)
        },
        JsonParts::Object(entries) => {
            let mut out: Vec<(String, Datum)> = Vec::new();
            let mut i: usize = 0;
            while i < entries.len()
                invariant
                    i <= entries.len(),
                    out@.len() == i,
                    forall|j: int|
                        0 <= j < entries@.len() ==> json_size(*(#[trigger] entries@[j]).1)
                            < json_size(*raw),
                    forall|j: int|
                        0 <= j < i ==> (#[trigger] out@[j]).0@ == entries@[j].0@ && out@[j].1@
                            == json_model(*entries@[j].1),
                decreases entries.len() - i,
            {
                let key = entries[i].0.clone();
                let value = from_json(entries[i].1);
                out.push((key, value));
                i += 1;
            }
            proof {
                let held = json_model(*raw)->Object_0;
                lemma_object_view(out);
                assert(distinct_keys(out@)) by {
                    assert forall|a: int, b: int| 0 <= a < b < out@.len() implies (
                    #[trigger] out@[a]).0@ != (#[trigger] out@[b]).0@ by {
                        assert(entries@[a].0@ != entries@[b].0@);
                    }
                }
                assert forall|k: Seq<char>| #[trigger]
                    entries_view(out@).contains_key(k) == held.contains_key(k) by {
                    lemma_key_index(out@, k);
                    if key_index(out@, k) >= 0 {
                        assert(entries@[key_index(out@, k)].0@ == k);
                    }
                    if held.contains_key(k) {
                        let w = choose|w: int| 0 <= w < entries@.len() && (#[trigger] entries@[w]).0@ == k;
                        assert(out@[w].0@ == k);
                        lemma_distinct_index(out@, w);
                    }
                }
                assert forall|k: Seq<char>| #[trigger]
                    entries_view(out@).contains_key(k) implies entries_view(out@)[k] == held[k] by {
                    lemma_key_index(out@, k);
                    let w = key_index(out@, k);
                    assert(held[entries@[w].0@] == json_model(*entries@[w].1));
                }
                assert(entries_view(out@) =~= held);
            }
            Datum::Object(out)
        },
    }
}

/// Two entry lists have the same keys, position by position.
pub open spec fn same_keys(a: Seq<(String, Datum)>, b: Seq<(String, Datum)>) -> bool {
    &&& a.len() == b.len()
    &&& forall|j: int| 0 <= j < a.len() ==> (#[trigger] a[j]).0@ == b[j].0@
}

/// `key_index` looks at the keys only.
pub proof fn lemma_same_keys(a: Seq<(String, Datum)>, b: Seq<(String, Datum)>)
    requires
        same_keys(a, b),
    ensures
        forall|k: Seq<char>| key_index(a, k) == key_index(b, k),
    decreases a.len(),
{
    if a.len() > 0 {
        assert(same_keys(a.drop_last(), b.drop_last())) by {
            assert forall|j: int| 0 <= j < a.drop_last().len() implies (#[trigger] a.drop_last()[j]).0@
                == b.drop_last()[j].0@ by {
                assert(a[j].0@ == b[j].0@);
            }
        }
        lemma_same_keys(a.drop_last(), b.drop_last());
        assert(a.last().0@ == b.last().0@) by {
            assert(a[a.len() - 1].0@ == b[a.len() - 1].0@);
        }
    }
    assert forall|k: Seq<char>| key_index(a, k) == key_index(b, k) by {
        if a.len() > 0 {
            assert(key_index(a.drop_last(), k) == key_index(b.drop_last(), k));
        }
    }
}

/// Two entry lists agree where they have the same keys and values of the same model,
/// position by position.
pub open spec fn same_entries(a: Seq<(String, Datum)>, b: Seq<(String, Datum)>) -> bool {
    &&& a.len() == b.len()
    &&& forall|j: int| 0 <= j < a.len() ==> (#[trigger] a[j]).0@ == b[j].0@ && a[j].1@ == b[j].1@
}

/// Entry lists that agree position by position give the same object.
pub proof fn lemma_same_entries(a: Seq<(String, Datum)>, b: Seq<(String, Datum)>)
    requires
        same_entries(a, b),
    ensures
        entries_view(a) == entries_view(b),
{
    lemma_same_keys(a, b);
    assert forall|k: Seq<char>| key_index(a, k) >= 0 implies a[key_index(a, k)].1@ == b[key_index(
        b,
        k,
    )].1@ by {
        lemma_key_index(a, k);
    }
    assert(entries_view(a) =~= entries_view(b));
}

/// A deep copy of a list of values.
pub fn duplicate_items(items: &Vec<Datum>) -> (out: Vec<Datum>)
    ensures
        items_view(out@) == items_view(items@),
    decreases items,
{
    let mut out: Vec<Datum> = Vec::new();
    let mut i: usize = 0;
    while i < items.len()
        invariant
            i <= items.len(),
            out@.len() == i,
            forall|j: int| 0 <= j < i ==> (#[trigger] out@[j])@ == items@[j]@,
        decreases items.len() - i,
    {
        out.push(items[i].duplicate());
        i += 1;
    }
    proof {
        assert(items_view(out@) =~= items_view(items@));
    }
    out
}

/// A deep copy of a list of entries.
pub fn duplicate_entries(entries: &Vec<(String, Datum)>) -> (out: Vec<(String, Datum)>)
    ensures
        same_entries(out@, entries@),
        entries_view(out@) == entries_view(entries@),
    decreases entries,
{
    let mut out: Vec<(String, Datum)> = Vec::new();
    let mut i: usize = 0;
    while i < entries.len()
        invariant
            i <= entries.len(),
            out@.len() == i,
            forall|j: int|
                0 <= j < i ==> (#[trigger] out@[j]).0@ == entries@[j].0@ && out@[j].1@
                    == entries@[j].1@,
        decreases entries.len() - i,
    {
        let key = entries[i].0.clone();
        let value = entries[i].1.duplicate();
        out.push((key, value));
        i += 1;
    }
    proof {
        lemma_same_entries(out@, entries@);
    }
    out
}

/// No key occurs twice.
pub open spec fn distinct_keys(entries: Seq<(String, Datum)>) -> bool {
    forall|i: int, j: int|
        0 <= i < j < entries.len() ==> (#[trigger] entries[i]).0@ != (#[trigger] entries[j]).0@
}

/// Where no key occurs twice, each entry is the one that `key_index` finds for its key.
pub proof fn lemma_distinct_index(entries: Seq<(String, Datum)>, i: int)
    requires
        distinct_keys(entries),
        0 <= i < entries.len(),
    ensures
        key_index(entries, entries[i].0@) == i,
{
    lemma_key_index(entries, entries[i].0@);
}

/// Where no entry has the key, `key_index` says so.
pub proof fn lemma_absent_index(entries: Seq<(String, Datum)>, key: Seq<char>)
    requires
        forall|j: int| 0 <= j < entries.len() ==> (#[trigger] entries[j]).0@ != key,
    ensures
        key_index(entries, key) == -1,
{
    lemma_key_index(entries, key);
}

/// Appending an entry puts its value under its key and leaves the other keys alone.
pub proof fn lemma_push_entry(entries: Seq<(String, Datum)>, entry: (String, Datum))
    ensures
        entries_view(entries.push(entry)) == entries_view(entries).insert(entry.0@, entry.1@),
{
    let after = entries.push(entry);
    assert(after.drop_last() =~= entries);
    assert forall|k: Seq<char>| k != entry.0@ implies key_index(after, k) == key_index(
        entries,
        k,
    ) by {}
    assert forall|k: Seq<char>| #[trigger] key_index(entries, k) >= 0 implies after[key_index(
        entries,
        k,
    )] == entries[key_index(entries, k)] by {
        lemma_key_index(entries, k);
    }
    assert(entries_view(after) =~= entries_view(entries).insert(entry.0@, entry.1@));
}

/// Replacing the value of an entry, under the same key, changes the object at that key only.
pub proof fn lemma_replace_entry(entries: Seq<(String, Datum)>, i: int, entry: (String, Datum))
    requires
        distinct_keys(entries),
        0 <= i < entries.len(),
        entries[i].0@ == entry.0@,
    ensures
        distinct_keys(entries.update(i, entry)),
        entries_view(entries.update(i, entry)) == entries_view(entries).insert(
            entry.0@,
            entry.1@,
        ),
{
    let after = entries.update(i, entry);
    assert forall|k: Seq<char>| key_index(after, k) == key_index(entries, k) by {
        lemma_same_keys(after, entries);
    }
    lemma_distinct_index(entries, i);
    assert forall|k: Seq<char>| key_index(entries, k) >= 0 && k != entry.0@ implies after[key_index(
        entries,
        k,
    )] == entries[key_index(entries, k)] by {
        lemma_key_index(entries, k);
    }
    assert(entries_view(after) =~= entries_view(entries).insert(entry.0@, entry.1@));
}

/// The keys of an object are those of its entries; where no key occurs twice there
/// are as many keys as entries.
pub proof fn lemma_entries_dom(entries: Seq<(String, Datum)>)
    ensures
        entries_view(entries).dom().finite(),
        distinct_keys(entries) ==> entries_view(entries).dom().len() == entries.len(),
    decreases entries.len(),
{
    if entries.len() == 0 {
        assert(entries_view(entries).dom() =~= Set::<Seq<char>>::empty());
    } else {
        let front = entries.drop_last();
        lemma_entries_dom(front);
        assert(front.push(entries.last()) =~= entries);
        lemma_push_entry(front, entries.last());
        assert(entries_view(entries).dom() =~= entries_view(front).dom().insert(
            entries.last().0@,
        ));
        if distinct_keys(entries) {
            assert(distinct_keys(front)) by {
                assert forall|i: int, j: int| 0 <= i < j < front.len() implies (
                #[trigger] front[i]).0@ != (#[trigger] front[j]).0@ by {
                    assert(entries[i].0@ != entries[j].0@);
                }
            }
            assert forall|j: int| 0 <= j < front.len() implies (#[trigger] front[j]).0@
                != entries.last().0@ by {
                assert(entries[j].0@ != entries[entries.len() - 1].0@);
            }
            lemma_absent_index(front, entries.last().0@);
            assert(!entries_view(front).dom().contains(entries.last().0@));
        }
    }
}

/// A mapping from names to structured values, in which no name occurs twice.
#[derive(Debug)]
pub struct ValueMap {
    entries: Vec<(String, Datum)>,
}

impl View for ValueMap {
    type V = Map<Seq<char>, Json>;

    closed spec fn view(&self) -> Map<Seq<char>, Json> {
        entries_view(self.entries@)
    }
}

impl ValueMap {
    /// The invariant of the type: no name occurs twice.
    pub closed spec fn wf(&self) -> bool {
        distinct_keys(self.entries@)
    }

    /// The empty mapping.
    pub fn new() -> (r: Self)
        ensures
            r.wf(),
            r@ == Map::<Seq<char>, Json>::empty(),
    {
        let r = ValueMap { entries: Vec::new() };
        assert(r@ =~= Map::<Seq<char>, Json>::empty());
        r
    }

    /// Position of the entry named `key`, if there is one.
    fn position(&self, key: &str) -> (r: Option<usize>)
        requires
            self.wf(),
        ensures
            match r {
                Some(i) => i < self.entries@.len() && self.entries@[i as int].0@ == key@
                    && key_index(self.entries@, key@) == i,
                None => key_index(self.entries@, key@) == -1,
            },
    {
        let wanted = String::from_str(key);
        let mut i: usize = 0;
        while i < self.entries.len()
            invariant
                self.wf(),
                i <= self.entries.len(),
                wanted@ == key@,
                forall|j: int| 0 <= j < i ==> (#[trigger] self.entries@[j]).0@ != key@,
            decreases self.entries.len() - i,
        {
            if self.entries[i].0 == wanted {
                proof {
                    lemma_distinct_index(self.entries@, i as int);
                }
                return Some(i);
            }
            i += 1;
        }
        proof {
            lemma_absent_index(self.entries@, key@);
        }
        None
    }

    /// Puts `value` under `key`, in place of the value that was there, if any.
    pub fn insert(&mut self, key: String, value: Datum)
        requires
            old(self).wf(),
        ensures
            final(self).wf(),
            final(self)@ == old(self)@.insert(key@, value@),
    {
        match self.position(key.as_str()) {
            Some(i) => {
                proof {
                    lemma_replace_entry(self.entries@, i as int, (key, value));
                }
                self.entries.set(i, (key, value));
            },
            None => {
                proof {
                    lemma_push_entry(self.entries@, (key, value));
                    lemma_key_index(self.entries@, key@);
                    assert forall|j: int| 0 <= j < self.entries@.len() implies (
                    #[trigger] self.entries@[j]).0@ != key@ by {
                        if self.entries@[j].0@ == key@ {
                            lemma_distinct_index(self.entries@, j);
                        }
                    }
                }
                self.entries.push((key, value));
            },
        }
    }

    /// The value under `key`, if there is one.
    pub fn get(&self, key: &str) -> (r: Option<&Datum>)
        requires
            self.wf(),
        ensures
            match r {
                Some(v) => self@.contains_key(key@) && self@[key@] == v@,
                None => !self@.contains_key(key@),
            },
    {
        match self.position(key) {
            Some(i) => Some(&self.entries[i].1),
            None => None,
        }
    }

    /// Whether there is a value under `key`.
    pub fn contains_key(&self, key: &str) -> (r: bool)
        requires
            self.wf(),
        ensures
            r == self@.contains_key(key@),
    {
        self.position(key).is_some()
    }

    /// The number of names.
    pub fn len(&self) -> (r: usize)
        requires
            self.wf(),
        ensures
            self@.dom().finite(),
            r == self@.dom().len(),
    {
        proof {
            lemma_entries_dom(self.entries@);
        }
        self.entries.len()
    }

    /// Whether the mapping holds nothing.
    pub fn is_empty(&self) -> (r: bool)
        requires
            self.wf(),
        ensures
            r == (self@ == Map::<Seq<char>, Json>::empty()),
    {
        proof {
            lemma_entries_dom(self.entries@);
            if self.entries@.len() == 0 {
                assert(self@ =~= Map::<Seq<char>, Json>::empty());
            }
        }
        self.entries.len() == 0
    }

    /// The mapping that a list of entries gives when read as an object: the last entry
    /// of each name counts.
    pub fn from_entries(entries: &Vec<(String, Datum)>) -> (r: Self)
        ensures
            r.wf(),
            r@ == entries_view(entries@),
    {
        let mut out = ValueMap::new();
        let mut i: usize = 0;
        proof {
            assert(entries_view(entries@.take(0)) =~= Map::<Seq<char>, Json>::empty());
        }
        while i < entries.len()
            invariant
                i <= entries.len(),
                out.wf(),
                out@ == entries_view(entries@.take(i as int)),
            decreases entries.len() - i,
        {
            proof {
                lemma_push_entry(entries@.take(i as int), entries@[i as int]);
                assert(entries@.take(i as int).push(entries@[i as int]) =~= entries@.take(i + 1));
            }
            let key = entries[i].0.clone();
            let value = entries[i].1.duplicate();
            out.insert(key, value);
            i += 1;
        }
        assert(entries@.take(entries@.len() as int) =~= entries@);
        out
    }

    /// A deep copy.
    pub fn duplicate(&self) -> (r: Self)
        requires
            self.wf(),
        ensures
            r.wf(),
            r@ == self@,
    {
        let entries = duplicate_entries(&self.entries);
        proof {
            lemma_same_keys(entries@, self.entries@);
            assert forall|i: int, j: int| 0 <= i < j < entries@.len() implies (
            #[trigger] entries@[i]).0@ != (#[trigger] entries@[j]).0@ by {
                assert(self.entries@[i].0@ != self.entries@[j].0@);
            }
        }
        ValueMap { entries }
    }

    /// The object that holds the mapping's values under their names.
    pub fn into_object(self) -> (r: Datum)
        ensures
            r@ == Json::Object(self@),
    {
        proof {
            lemma_object_view(self.entries);
        }
        Datum::Object(self.entries)
    }

    /// The entries, one for each name.
    pub fn entries(&self) -> (r: &Vec<(String, Datum)>)
        requires
            self.wf(),
        ensures
            distinct_keys(r@),
            entries_view(r@) == self@,
    {
        &self.entries
    }
}

} // verus!
