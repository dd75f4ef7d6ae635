//! A JSON document tree and its trusted parser.
//!
//! Two of the surfaces answer in JSON. The document is held as a tree of
//! plain values: numbers keep their decimal text, so the cell decoder can
//! treat a native number and the same digits carried as a string alike.
//! Parsing the bytes is delegated to serde_json behind a trusted wrapper; the
//! navigation over the tree is verified.

use vstd::prelude::*;

verus! {

/// One JSON document node. Numbers are kept as their decimal text.
#[derive(Debug)]
pub enum Json {
    Null,
    Bool(bool),
    Num(String),
    Text(String),
    Arr(Vec<Json>),
    Obj(Vec<(String, Json)>),
}

/// The mathematical shape of a document node.
pub ghost enum JsonV {
    Null,
    Bool(bool),
    Num(Seq<char>),
    Text(Seq<char>),
    Arr(Seq<JsonV>),
    Obj(Seq<(Seq<char>, JsonV)>),
}

pub open spec fn jview(j: Json) -> JsonV
    decreases j,
{
    match j {
        Json::Null => JsonV::Null,
        Json::Bool(b) => JsonV::Bool(b),
        Json::Num(s) => JsonV::Num(s@),
        Json::Text(s) => JsonV::Text(s@),
        Json::Arr(items) => JsonV::Arr(jview_list(items@)),
        Json::Obj(entries) => JsonV::Obj(jview_entries(entries@)),
    }
}

pub open spec fn jview_list(items: Seq<Json>) -> Seq<JsonV>
    decreases items,
{
    if items.len() == 0 {
        Seq::empty()
    } else {
        seq![jview(items[0])] + jview_list(items.subrange(1, items.len() as int))
    }
}

pub open spec fn jview_entries(entries: Seq<(String, Json)>) -> Seq<(Seq<char>, JsonV)>
    decreases entries,
{
    if entries.len() == 0 {
        Seq::empty()
    } else {
        seq![(entries[0].0@, jview(entries[0].1))] + jview_entries(
            entries.subrange(1, entries.len() as int),
        )
    }
}

/// The viewed list has one viewed element per element.
pub proof fn lemma_jview_list(items: Seq<Json>)
    ensures
        jview_list(items).len() == items.len(),
        forall|i: int| 0 <= i < items.len() ==> jview_list(items)[i] == jview(items[i]),
    decreases items.len(),
{
    if items.len() > 0 {
        lemma_jview_list(items.subrange(1, items.len() as int));
    }
}

/// The viewed member list has one viewed member per member.
pub proof fn lemma_jview_entries(entries: Seq<(String, Json)>)
    ensures
        jview_entries(entries).len() == entries.len(),
        forall|i: int|
            0 <= i < entries.len() ==> jview_entries(entries)[i] == (
                entries[i].0@,
                jview(entries[i].1),
            ),
    decreases entries.len(),
{
    if entries.len() > 0 {
        lemma_jview_entries(entries.subrange(1, entries.len() as int));
    }
}

impl View for Json {
    type V = JsonV;

    open spec fn view(&self) -> JsonV {
        jview(*self)
    }
}

/// The value under `key`, by the first matching member.
pub open spec fn obj_lookup(entries: Seq<(Seq<char>, JsonV)>, key: Seq<char>) -> Option<JsonV>
    decreases entries.len(),
{
    if entries.len() == 0 {
        None
    } else if entries[0].0 == key {
        Some(entries[0].1)
    } else {
        obj_lookup(entries.skip(1), key)
    }
}

/// The member of an object document under `key`; nothing on other documents.
pub open spec fn doc_get(doc: JsonV, key: Seq<char>) -> Option<JsonV> {
    match doc {
        JsonV::Obj(entries) => obj_lookup(entries, key),
        _ => None,
    }
}

pub fn json_get<'a>(doc: &'a Json, key: &str) -> (r: Option<&'a Json>)
    ensures
        match r {
            Some(j) => doc_get(doc@, key@) == Some(j@),
            None => doc_get(doc@, key@) is None,
        },
{
    match doc {
        Json::Obj(entries) => {
            let ghost es = jview_entries(entries@);
            proof {
                lemma_jview_entries(entries@);
                assert(doc@ == JsonV::Obj(es));
                assert(es.skip(0) =~= es);
            }
            let mut i: usize = 0;
            while i < entries.len()
                invariant
                    i <= entries@.len(),
                    doc@ == JsonV::Obj(es),
                    es == jview_entries(entries@),
                    es.len() == entries@.len(),
                    forall|k: int|
                        0 <= k < entries@.len() ==> es[k] == (
                            entries@[k].0@,
                            jview(entries@[k].1),
                        ),
                    obj_lookup(es, key@) == obj_lookup(es.skip(i as int), key@),
                decreases entries@.len() - i,
            {
                proof {
                    assert(es.skip(i as int)[0] == es[i as int]);
                }
                if crate::text::str_eq(entries[i].0.as_str(), key) {
                    proof {
                        assert(es[i as int] == (entries@[i as int].0@, jview(entries@[i as int].1)));
                        assert(es.skip(i as int)[0].0 == key@);
                        assert(obj_lookup(es.skip(i as int), key@) == Some(es.skip(i as int)[0].1));
                    }
                    return Some(&entries[i].1);
                }
                proof {
                    assert(es.skip(i as int).skip(1) =~= es.skip(i + 1));
                }
                i = i + 1;
            }
            proof {
                assert(es.skip(es.len() as int) =~= Seq::<(Seq<char>, JsonV)>::empty());
            }
            None
        },
        _ => None,
    }
}

/// A node and its view are of the same kind.
pub proof fn lemma_jview_kind(j: Json)
    ensures
        (jview(j) is Null) == (j is Null),
        (jview(j) is Bool) == (j is Bool),
        (jview(j) is Num) == (j is Num),
        (jview(j) is Text) == (j is Text),
        (jview(j) is Arr) == (j is Arr),
        (jview(j) is Obj) == (j is Obj),
{
    match j {
        Json::Null => {},
        Json::Bool(_) => {},
        Json::Num(_) => {},
        Json::Text(_) => {},
        Json::Arr(_) => {},
        Json::Obj(_) => {},
    }
}

/// The upstream error payload: an object whose `stat` member carries the
/// reported message.
pub open spec fn stat_of(doc: JsonV) -> Option<Seq<char>> {
    match doc_get(doc, "stat"@) {
        Some(JsonV::Text(t)) => Some(t),
        _ => None,
    }
}

pub fn get_stat(doc: &Json) -> (r: Option<&String>)
    ensures
        match r {
            Some(m) => stat_of(doc@) == Some(m@),
            None => stat_of(doc@) is None,
        },
{
    match json_get(doc, "stat") {
        Some(j) => match j {
            Json::Text(m) => Some(m),
            _ => None,
        },
        None => None,
    }
}

#[verifier::external_type_specification]
#[verifier::external_body]
pub struct ExJsonValue(serde_json::Value);

/// What `serde_json::from_slice::<serde_json::Value>` yields on these bytes,
/// as a document tree; the bytes alone determine it.
pub uninterp spec fn json_tree_of(bytes: Seq<u8>) -> Option<JsonV>;

/// Relies on `serde_json::Value`: its six variants map one-to-one onto the
/// tree node kinds; a number becomes its decimal text, object members keep
/// serde_json's (sorted, duplicate-free) member order.
#[verifier::external_body]
fn value_to_json(v: &serde_json::Value) -> Json {
    match v {
        serde_json::Value::Null => Json::Null,
        serde_json::Value::Bool(b) => Json::Bool(*b),
        serde_json::Value::Number(n) => Json::Num(n.to_string()),
        serde_json::Value::String(s) => Json::Text(s.clone()),
        serde_json::Value::Array(a) => Json::Arr(a.iter().map(value_to_json).collect()),
        serde_json::Value::Object(o) => Json::Obj(
            o.iter().map(|(k, x)| (k.clone(), value_to_json(x))).collect(),
        ),
    }
}

/// Relies on `serde_json::from_slice`: parsing either yields one document or
/// fails, and is a pure function of the bytes.
#[verifier::external_body]
pub fn parse_json_bytes(bytes: &[u8]) -> (r: Option<Json>)
    ensures
        match r {
            Some(doc) => json_tree_of(bytes@) == Some(doc@),
            None => json_tree_of(bytes@) is None,
        },
{
    match serde_json::from_slice::<serde_json::Value>(bytes) {
        Ok(v) => Some(value_to_json(&v)),
        Err(_) => None,
    }
}

} // verus!
