//! The resource model: the envelope wrapper and the common shape of
//! every resource family (`id`, `type`, and the raw attribute tree),
//! with the verified decoders from JSON documents.
use crate::json::{
    entries_view, items_view, json_view, lemma_entries_view, lemma_items_view, lemma_lookup_push,
    lookup_entries, member, str_eq, take_member, Json, JsonData,
};
use vstd::prelude::*;

verus! {

/// One resource of any family: its identifier, its `type` tag, and the
/// attribute tree as raw JSON, which carries the family's fields.
#[derive(Debug, PartialEq)]
pub struct Resource {
    pub id: String,
    pub kind: String,
    pub attributes: Json,
}

/// The shape of a resource, as the contracts speak of it.
pub struct ResourceData {
    pub id: Seq<char>,
    pub kind: Seq<char>,
    pub attributes: JsonData,
}

impl View for Resource {
    type V = ResourceData;

    open spec fn view(&self) -> ResourceData {
        ResourceData { id: self.id@, kind: self.kind@, attributes: json_view(self.attributes) }
    }
}

/// The top-level response wrapper: one resource, or an ordered
/// sequence of resources for a search.
#[derive(Debug, PartialEq)]
pub struct Response<T> {
    pub data: T,
}

/// The views of a sequence of decoded resources.
pub open spec fn resources_view(rs: Seq<Resource>) -> Seq<ResourceData> {
    rs.map_values(|r: Resource| r@)
}

/// The resource a JSON document stands for: an object whose `id` and
/// `type` members are strings; `attributes` may be absent, standing
/// for an empty (null) tree. Anything else fails to decode.
pub open spec fn resource_of(d: JsonData) -> Option<ResourceData> {
    match (member(d, "id"@), member(d, "type"@)) {
        (Some(JsonData::Str(id)), Some(JsonData::Str(kind))) => Some(
            ResourceData {
                id: id,
                kind: kind,
                attributes: match member(d, "attributes"@) {
                    Some(a) => a,
                    None => JsonData::Null,
                },
            },
        ),
        _ => None,
    }
}

/// A single-resource envelope: an object whose `data` member decodes
/// as one resource.
pub open spec fn one_of(d: JsonData) -> Option<ResourceData> {
    match member(d, "data"@) {
        Some(inner) => resource_of(inner),
        None => None,
    }
}

pub open spec fn all_resources_of(items: Seq<JsonData>) -> Option<Seq<ResourceData>>
    decreases items.len(),
{
    if items.len() == 0 {
        Some(Seq::empty())
    } else {
        match (resource_of(items[0]), all_resources_of(items.drop_first())) {
            (Some(r), Some(rest)) => Some(seq![r] + rest),
            _ => None,
        }
    }
}

/// A collection envelope: an object whose `data` member is an array of
/// resources, kept in the order the document gives them.
pub open spec fn many_of(d: JsonData) -> Option<Seq<ResourceData>> {
    match member(d, "data"@) {
        Some(JsonData::Arr(items)) => all_resources_of(items),
        _ => None,
    }
}

/// Decodes one resource object.
pub fn decode_resource(j: Json) -> (r: Option<Resource>)
    ensures
        match r {
            Some(res) => resource_of(json_view(j)) == Some(res@),
            None => resource_of(json_view(j)) is None,
        },
{
    match j {
        Json::Obj(entries) => {
            let ghost ev = entries_view(entries@);
            let mut rest = entries;
            let mut id_m: Option<Json> = None;
            let mut kind_m: Option<Json> = None;
            let mut attrs_m: Option<Json> = None;
            let ghost k: int = 0;
            proof {
                lemma_entries_view(rest@);
                assert(ev.take(0) =~= Seq::<(Seq<char>, JsonData)>::empty());
                assert(entries_view(rest@) =~= ev.skip(0));
            }
            while rest.len() > 0
                invariant
                    0 <= k <= ev.len(),
                    entries_view(rest@) == ev.skip(k),
                    rest@.len() == ev.len() - k,
                    match id_m {
                        Some(x) => lookup_entries(ev.take(k), "id"@) == Some(json_view(x)),
                        None => lookup_entries(ev.take(k), "id"@) is None,
                    },
                    match kind_m {
                        Some(x) => lookup_entries(ev.take(k), "type"@) == Some(json_view(x)),
                        None => lookup_entries(ev.take(k), "type"@) is None,
                    },
                    match attrs_m {
                        Some(x) => lookup_entries(ev.take(k), "attributes"@) == Some(json_view(x)),
                        None => lookup_entries(ev.take(k), "attributes"@) is None,
                    },
                decreases rest@.len(),
            {
                let ghost pre = rest@;
                proof {
                    lemma_entries_view(pre);
                    assert(entries_view(pre)[0] == (pre[0].0@, json_view(pre[0].1)));
                    assert(ev.skip(k)[0] == ev[k]);
                }
                let e = rest.remove(0);
                proof {
                    broadcast use vstd::string::group_string_axioms;

                    reveal_strlit("id");
                    reveal_strlit("type");
                    reveal_strlit("attributes");
                    assert("id"@.len() == 2 && "type"@.len() == 4 && "attributes"@.len() == 10);
                    assert("id"@ != "type"@ && "id"@ != "attributes"@ && "type"@ != "attributes"@);
                    assert(rest@ =~= pre.drop_first());
                    assert(entries_view(pre).drop_first() =~= entries_view(pre.drop_first()));
                    assert(ev.skip(k).drop_first() =~= ev.skip(k + 1));
                    lemma_lookup_push(ev.take(k), ev[k], "id"@);
                    lemma_lookup_push(ev.take(k), ev[k], "type"@);
                    lemma_lookup_push(ev.take(k), ev[k], "attributes"@);
                    assert(ev.take(k + 1) =~= ev.take(k).push(ev[k]));
                }
                if id_m.is_none() && str_eq(e.0.as_str(), "id") {
                    id_m = Some(e.1);
                } else if kind_m.is_none() && str_eq(e.0.as_str(), "type") {
                    kind_m = Some(e.1);
                } else if attrs_m.is_none() && str_eq(e.0.as_str(), "attributes") {
                    attrs_m = Some(e.1);
                }
                proof {
                    k = k + 1;
                }
            }
            proof {
                assert(ev.take(k) =~= ev);
            }
            match (id_m, kind_m) {
                (Some(Json::Str(id)), Some(Json::Str(kind))) => Some(
                    Resource {
                        id,
                        kind,
                        attributes: match attrs_m {
                            Some(a) => a,
                            None => Json::Null,
                        },
                    },
                ),
                _ => None,
            }
        },
        _ => None,
    }
}

/// Decodes a single-resource envelope.
pub fn decode_one(j: Json) -> (r: Option<Response<Resource>>)
    ensures
        match r {
            Some(env) => one_of(json_view(j)) == Some(env.data@),
            None => one_of(json_view(j)) is None,
        },
{
    match take_member(j, "data") {
        Some(inner) => match decode_resource(inner) {
            Some(res) => Some(Response { data: res }),
            None => None,
        },
        None => None,
    }
}

/// Decodes a collection envelope, keeping the document's order.
pub fn decode_many(j: Json) -> (r: Option<Response<Vec<Resource>>>)
    ensures
        match r {
            Some(env) => many_of(json_view(j)) == Some(resources_view(env.data@)),
            None => many_of(json_view(j)) is None,
        },
{
    let m = take_member(j, "data");
    match m {
        Some(Json::Arr(items)) => {
            let ghost iv = items_view(items@);
            let mut rest = items;
            let mut out: Vec<Resource> = Vec::new();
            let ghost k: int = 0;
            proof {
                lemma_items_view(rest@);
                assert(items_view(rest@) =~= iv.skip(0));
                assert(resources_view(out@) =~= Seq::<ResourceData>::empty());
                assert(json_view(Json::Arr(items)) == JsonData::Arr(iv));
                assert(member(json_view(j), "data"@) == Some(JsonData::Arr(iv)));
            }
            while rest.len() > 0
                invariant
                    0 <= k <= iv.len(),
                    member(json_view(j), "data"@) == Some(JsonData::Arr(iv)),
                    items_view(rest@) == iv.skip(k),
                    rest@.len() == iv.len() - k,
                    match all_resources_of(iv.skip(k)) {
                        Some(tail) => all_resources_of(iv) == Some(resources_view(out@) + tail),
                        None => all_resources_of(iv) is None,
                    },
                decreases rest@.len(),
            {
                let ghost pre = rest@;
                proof {
                    lemma_items_view(pre);
                    assert(items_view(pre)[0] == json_view(pre[0]));
                    assert(iv.skip(k)[0] == iv[k]);
                }
                let item = rest.remove(0);
                proof {
                    assert(rest@ =~= pre.drop_first());
                    assert(items_view(pre).drop_first() =~= items_view(pre.drop_first()));
                    assert(iv.skip(k).drop_first() =~= iv.skip(k + 1));
                }
                match decode_resource(item) {
                    Some(res) => {
                        let ghost before: Seq<Resource> = out@;
                        out.push(res);
                        proof {
                            assert(resources_view(out@) =~= resources_view(before).push(res@));
                            match all_resources_of(iv.skip(k + 1)) {
                                Some(tail2) => {
                                    assert(all_resources_of(iv.skip(k)) == Some(
                                        seq![res@] + tail2,
                                    ));
                                    assert(resources_view(before) + (seq![res@] + tail2)
                                        =~= resources_view(out@) + tail2);
                                },
                                None => {},
                            }
                        }
                    },
                    None => {
                        proof {
                            assert(all_resources_of(iv.skip(k)) is None);
                            assert(member(json_view(j), "data"@) == Some(JsonData::Arr(iv)));
                            assert(many_of(json_view(j)) is None);
                        }
                        return None;
                    },
                }
                proof {
                    k = k + 1;
                }
            }
            proof {
                assert(iv.skip(k) =~= Seq::<JsonData>::empty());
                assert(all_resources_of(iv.skip(k)) == Some(Seq::<ResourceData>::empty()));
                assert(resources_view(out@) + Seq::<ResourceData>::empty() =~= resources_view(
                    out@,
                ));
            }
            Some(Response { data: out })
        },
        Some(_) => None,
        None => None,
    }
}

} // verus!
