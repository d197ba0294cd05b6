//! JSON documents as the library sees them: a plain tree of values,
//! produced from response bytes by serde_json behind trusted wrappers,
//! and read by the verified envelope decoder.
use vstd::prelude::*;

verus! {

/// The mathematical shape of a JSON document. Numbers are carried as
/// their decimal text, since the library never computes with them.
pub enum JsonData {
    Null,
    Bool(bool),
    Num(Seq<char>),
    Str(Seq<char>),
    Arr(Seq<JsonData>),
    Obj(Seq<(Seq<char>, JsonData)>),
}

/// A decoded JSON document.
#[derive(Debug, PartialEq)]
pub enum Json {
    Null,
    Bool(bool),
    Num(String),
    Str(String),
    Arr(Vec<Json>),
    Obj(Vec<(String, Json)>),
}

/// The tree a decoded document stands for.
pub open spec fn json_view(j: Json) -> JsonData
    decreases j,
{
    match j {
        Json::Null => JsonData::Null,
        Json::Bool(b) => JsonData::Bool(b),
        Json::Num(s) => JsonData::Num(s@),
        Json::Str(s) => JsonData::Str(s@),
        Json::Arr(items) => JsonData::Arr(items_view(items@)),
        Json::Obj(entries) => JsonData::Obj(entries_view(entries@)),
    }
}

pub open spec fn items_view(items: Seq<Json>) -> Seq<JsonData>
    decreases items,
{
    if items.len() == 0 {
        Seq::empty()
    } else {
        seq![json_view(items[0])] + items_view(items.drop_first())
    }
}

pub open spec fn entries_view(entries: Seq<(String, Json)>) -> Seq<(Seq<char>, JsonData)>
    decreases entries,
{
    if entries.len() == 0 {
        Seq::empty()
    } else {
        seq![(entries[0].0@, json_view(entries[0].1))] + entries_view(entries.drop_first())
    }
}

impl View for Json {
    type V = JsonData;

    open spec fn view(&self) -> JsonData {
        json_view(*self)
    }
}

#[verifier::external_type_specification]
#[verifier::external_body]
pub struct ExValue(serde_json::Value);

/// What a serde_json value holds, as a plain JSON tree.
pub uninterp spec fn json_model(v: serde_json::Value) -> JsonData;

/// The JSON document encoded by a byte string, if there is one.
pub uninterp spec fn json_of(b: Seq<u8>) -> Option<JsonData>;

/// Relies on serde_json::from_slice: whether bytes parse as JSON, and
/// to which value, is a function of the bytes alone.
#[verifier::external_body]
fn parse_value(body: &[u8]) -> (r: Result<serde_json::Value, String>)
    ensures
        r matches Ok(v) ==> json_of(body@) == Some(json_model(v)),
        (r is Ok) == (json_of(body@) is Some),
{
    match serde_json::from_slice::<serde_json::Value>(body) {
        Ok(v) => Ok(v),
        Err(e) => Err(e.to_string()),
    }
}

/// Relies on serde_json::Value's variants: mirrors the value into the
/// library's own tree, arm by arm, numbers as their decimal text.
#[verifier::external_body]
fn value_to_json(v: &serde_json::Value) -> (r: Json)
    ensures
        r@ == json_model(*v),
{
    match v {
        serde_json::Value::Null => Json::Null,
        serde_json::Value::Bool(b) => Json::Bool(*b),
        serde_json::Value::Number(n) => Json::Num(n.to_string()),
        serde_json::Value::String(s) => Json::Str(s.clone()),
        serde_json::Value::Array(items) => Json::Arr(items.iter().map(value_to_json).collect()),
        serde_json::Value::Object(entries) => Json::Obj(
            entries.iter().map(|(k, x)| (k.clone(), value_to_json(x))).collect(),
        ),
    }
}

/// Parses a response body as one JSON document; the error carries the
/// parse diagnostic.
pub fn parse_json(body: &[u8]) -> (r: Result<Json, String>)
    ensures
        r matches Ok(j) ==> json_of(body@) == Some(j@),
        (r is Ok) == (json_of(body@) is Some),
{
    match parse_value(body) {
        Ok(v) => Ok(value_to_json(&v)),
        Err(e) => Err(e),
    }
}

/// The value under the first entry named `key`, if any.
pub open spec fn lookup_entries(entries: Seq<(Seq<char>, JsonData)>, key: Seq<char>) -> Option<
    JsonData,
>
    decreases entries.len(),
{
    if entries.len() == 0 {
        None
    } else if entries[0].0 == key {
        Some(entries[0].1)
    } else {
        lookup_entries(entries.drop_first(), key)
    }
}

/// The member named `key` of a JSON object; `None` on other values.
pub open spec fn member(d: JsonData, key: Seq<char>) -> Option<JsonData> {
    match d {
        JsonData::Obj(entries) => lookup_entries(entries, key),
        _ => None,
    }
}

pub proof fn lemma_items_view(items: Seq<Json>)
    ensures
        items_view(items).len() == items.len(),
        forall|i: int| 0 <= i < items.len() ==> items_view(items)[i] == json_view(items[i]),
    decreases items.len(),
{
    if items.len() > 0 {
        lemma_items_view(items.drop_first());
        assert forall|i: int| 0 <= i < items.len() implies items_view(items)[i] == json_view(
            items[i],
        ) by {
            if i > 0 {
                assert(items_view(items)[i] == items_view(items.drop_first())[i - 1]);
                assert(items.drop_first()[i - 1] == items[i]);
            }
        }
    }
}

pub proof fn lemma_entries_view(entries: Seq<(String, Json)>)
    ensures
        entries_view(entries).len() == entries.len(),
        forall|i: int|
            0 <= i < entries.len() ==> entries_view(entries)[i] == (
            entries[i].0@,
            json_view(entries[i].1),
            ),
    decreases entries.len(),
{
    if entries.len() > 0 {
        lemma_entries_view(entries.drop_first());
        assert forall|i: int| 0 <= i < entries.len() implies entries_view(entries)[i] == (
            entries[i].0@,
            json_view(entries[i].1),
        ) by {
            if i > 0 {
                assert(entries_view(entries)[i] == entries_view(entries.drop_first())[i - 1]);
                assert(entries.drop_first()[i - 1] == entries[i]);
            }
        }
    }
}

/// Looking one entry further keeps an earlier match and otherwise tries
/// the new entry.
pub proof fn lemma_lookup_push(es: Seq<(Seq<char>, JsonData)>, e: (Seq<char>, JsonData), key: Seq<char>)
    ensures
        lookup_entries(es.push(e), key) == (if lookup_entries(es, key) is Some {
            lookup_entries(es, key)
        } else if e.0 == key {
            Some(e.1)
        } else {
            None
        }),
    decreases es.len(),
{
    if es.len() == 0 {
        assert(es.push(e)[0] == e);
        if e.0 != key {
            assert(es.push(e).drop_first() =~= Seq::<(Seq<char>, JsonData)>::empty());
            assert(lookup_entries(es.push(e).drop_first(), key) is None);
        }
    } else {
        lemma_lookup_push(es.drop_first(), e, key);
        assert(es.push(e)[0] == es[0]);
        assert(es.push(e).drop_first() =~= es.drop_first().push(e));
    }
}

/// Whether two strings hold the same characters, decided byte by byte.
pub fn str_eq(a: &str, b: &str) -> (r: bool)
    ensures
        r == (a@ == b@),
{
    let ab = a.as_bytes();
    let bb = b.as_bytes();
    proof {
        if a@ == b@ {
            assert(vstd::utf8::encode_utf8(a@) == vstd::utf8::encode_utf8(b@));
        }
    }
    if ab.len() != bb.len() {
        return false;
    }
    let mut i: usize = 0;
    while i < ab.len()
        invariant
            ab@ == vstd::utf8::encode_utf8(a@),
            bb@ == vstd::utf8::encode_utf8(b@),
            ab@.len() == bb@.len(),
            i <= ab@.len(),
            forall|j: int| 0 <= j < i ==> ab@[j] == bb@[j],
        decreases ab@.len() - i,
    {
        if ab[i] != bb[i] {
            proof {
                if a@ == b@ {
                    assert(ab@[i as int] == bb@[i as int]);
                }
            }
            return false;
        }
        i = i + 1;
    }
    proof {
        assert(ab@ =~= bb@);
        vstd::utf8::encode_utf8_decode_utf8(a@);
        vstd::utf8::encode_utf8_decode_utf8(b@);
    }
    true
}

/// Takes the member named `key` out of a JSON object, by value; `None`
/// where the document is not an object or has no such member. The first
/// entry with the key wins, as in the parsed documents, whose keys are
/// unique.
pub fn take_member(j: Json, key: &str) -> (r: Option<Json>)
    ensures
        match r {
            Some(x) => member(json_view(j), key@) == Some(json_view(x)),
            None => member(json_view(j), key@) is None,
        },
{
    match j {
        Json::Obj(entries) => {
            let ghost ev = entries_view(entries@);
            let mut rest = entries;
            let mut found: Option<Json> = None;
            let ghost k: int = 0;
            proof {
                lemma_entries_view(rest@);
                assert(ev.take(0) =~= Seq::<(Seq<char>, JsonData)>::empty());
                assert(entries_view(rest@) =~= ev.skip(0));
            }
            while rest.len() > 0
                invariant
                    0 <= k <= ev.len(),
                    entries_view(rest@) == ev.skip(k),
                    rest@.len() == ev.len() - k,
                    match found {
                        Some(x) => lookup_entries(ev.take(k), key@) == Some(json_view(x)),
                        None => lookup_entries(ev.take(k), key@) is None,
                    },
                decreases rest@.len(),
            {
                let ghost pre = rest@;
                proof {
                    lemma_entries_view(pre);
                    assert(entries_view(pre)[0] == (pre[0].0@, json_view(pre[0].1)));
                    assert(ev.skip(k)[0] == ev[k]);
                }
                let e = rest.remove(0);
                proof {
                    assert(rest@ =~= pre.drop_first());
                    assert(entries_view(pre).drop_first() =~= entries_view(pre.drop_first()));
                    assert(ev.skip(k).drop_first() =~= ev.skip(k + 1));
                    lemma_lookup_push(ev.take(k), ev[k], key@);
                    assert(ev.take(k + 1) =~= ev.take(k).push(ev[k]));
                }
                if found.is_none() && str_eq(e.0.as_str(), key) {
                    found = Some(e.1);
                }
                proof {
                    k = k + 1;
                }
            }
            proof {
                assert(ev.take(k) =~= ev);
            }
            found
        },
        _ => None,
    }
}

} // verus!
