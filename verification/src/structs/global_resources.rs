use vstd::prelude::*;

use crate::error::FetchError;
use crate::json::{
    field_of, get_field, lemma_field_of_first_match, lemma_obj_model, obj_entries_model, JsonV,
    JsonValue,
};
use crate::structs::location::{lemma_location_round_trip, Location, LocationV};
use crate::structs::storage_option::{lemma_storage_option_round_trip, StorageOption, StorageOptionV};

verus! {

/// `GlobalResources` represents a collection of available locations and
/// storages, each keyed by its vendor-defined identifier.
#[derive(Debug, PartialEq, Eq)]
pub struct GlobalResources {
    pub locations: Vec<(String, Location)>,
    pub storage: Vec<(String, StorageOption)>,
}

/// The model of a [`GlobalResources`].
pub struct GlobalResourcesV {
    pub locations: Seq<(Seq<char>, LocationV)>,
    pub storage: Seq<(Seq<char>, StorageOptionV)>,
}

impl DeepView for GlobalResources {
    type V = GlobalResourcesV;

    open spec fn deep_view(&self) -> GlobalResourcesV {
        GlobalResourcesV {
            locations: self.locations.deep_view(),
            storage: self.storage.deep_view(),
        }
    }
}

/// A mapping whose values are locations: every value of the object must
/// decode as a location. An empty object gives the empty mapping.
pub open spec fn spec_location_entries(e: Seq<(Seq<char>, JsonV)>) -> Option<
    Seq<(Seq<char>, LocationV)>,
>
    decreases e.len(),
{
    if e.len() == 0 {
        Some(Seq::empty())
    } else {
        match (spec_location_entries(e.drop_last()), LocationV::of_json(e.last().1)) {
            (Some(rest), Some(x)) => Some(rest.push((e.last().0, x))),
            _ => None,
        }
    }
}

/// A location mapping read from a JSON object node.
pub open spec fn spec_location_map(v: JsonV) -> Option<Seq<(Seq<char>, LocationV)>> {
    match v {
        JsonV::Obj(e) => spec_location_entries(e),
        _ => None,
    }
}

proof fn lemma_location_entries_bad(e: Seq<(Seq<char>, JsonV)>, j: int)
    requires
        0 <= j < e.len(),
        LocationV::of_json(e[j].1) is None,
    ensures
        spec_location_entries(e) is None,
    decreases e.len(),
{
    if j < e.len() - 1 {
        lemma_location_entries_bad(e.drop_last(), j);
    }
}

/// Decode a JSON object of locations into a list of key/location pairs,
/// in the object's own order.
pub fn decode_location_map(v: &JsonValue) -> (r: Result<Vec<(String, Location)>, FetchError>)
    ensures
        match r {
            Ok(x) => spec_location_map(v.model()) == Some(x.deep_view()),
            Err(e) => spec_location_map(v.model()) is None && e is Schema,
        },
{
    let entries = match v {
        JsonValue::Obj(entries) => entries,
        _ => {
            return Err(FetchError::schema("locations: expected an object"));
        },
    };
    proof {
        lemma_obj_model(*entries);
    }
    let ghost m = obj_entries_model(entries@);
    let mut out: Vec<(String, Location)> = Vec::new();
    let mut i: usize = 0;
    while i < entries.len()
        invariant
            i <= entries.len(),
            m == obj_entries_model(entries@),
            v.model() == JsonV::Obj(m),
            spec_location_entries(m.take(i as int)) == Some(out.deep_view()),
        decreases entries.len() - i,
    {
        let pair = &entries[i];
        let x = match Location::from_json(&pair.1) {
            Ok(x) => x,
            Err(e) => {
                proof {
                    lemma_location_entries_bad(m, i as int);
                }
                return Err(e);
            },
        };
        let ghost xv = x.deep_view();
        out.push((pair.0.clone(), x));
        proof {
            assert(m.take(i + 1).drop_last() =~= m.take(i as int));
            assert(m.take(i + 1).last() == m[i as int]);
            assert(out.deep_view() =~= spec_location_entries(m.take(i as int)).unwrap().push(
                (entries@[i as int].0@, xv),
            ));
        }
        i += 1;
    }
    proof {
        assert(m.take(entries@.len() as int) =~= m);
    }
    Ok(out)
}

/// A mapping whose values are storage options: every value of the object
/// must decode as a storage option.
pub open spec fn spec_storage_entries(e: Seq<(Seq<char>, JsonV)>) -> Option<
    Seq<(Seq<char>, StorageOptionV)>,
>
    decreases e.len(),
{
    if e.len() == 0 {
        Some(Seq::empty())
    } else {
        match (spec_storage_entries(e.drop_last()), StorageOptionV::of_json(e.last().1)) {
            (Some(rest), Some(x)) => Some(rest.push((e.last().0, x))),
            _ => None,
        }
    }
}

/// A storage-option mapping read from a JSON object node.
pub open spec fn spec_storage_map(v: JsonV) -> Option<Seq<(Seq<char>, StorageOptionV)>> {
    match v {
        JsonV::Obj(e) => spec_storage_entries(e),
        _ => None,
    }
}

proof fn lemma_storage_entries_bad(e: Seq<(Seq<char>, JsonV)>, j: int)
    requires
        0 <= j < e.len(),
        StorageOptionV::of_json(e[j].1) is None,
    ensures
        spec_storage_entries(e) is None,
    decreases e.len(),
{
    if j < e.len() - 1 {
        lemma_storage_entries_bad(e.drop_last(), j);
    }
}

/// Decode a JSON object of storage options into a list of key/option
/// pairs, in the object's own order.
pub fn decode_storage_map(v: &JsonValue) -> (r: Result<Vec<(String, StorageOption)>, FetchError>)
    ensures
        match r {
            Ok(x) => spec_storage_map(v.model()) == Some(x.deep_view()),
            Err(e) => spec_storage_map(v.model()) is None && e is Schema,
        },
{
    let entries = match v {
        JsonValue::Obj(entries) => entries,
        _ => {
            return Err(FetchError::schema("storage: expected an object"));
        },
    };
    proof {
        lemma_obj_model(*entries);
    }
    let ghost m = obj_entries_model(entries@);
    let mut out: Vec<(String, StorageOption)> = Vec::new();
    let mut i: usize = 0;
    while i < entries.len()
        invariant
            i <= entries.len(),
            m == obj_entries_model(entries@),
            v.model() == JsonV::Obj(m),
            spec_storage_entries(m.take(i as int)) == Some(out.deep_view()),
        decreases entries.len() - i,
    {
        let pair = &entries[i];
        let x = match StorageOption::from_json(&pair.1) {
            Ok(x) => x,
            Err(e) => {
                proof {
                    lemma_storage_entries_bad(m, i as int);
                }
                return Err(e);
            },
        };
        let ghost xv = x.deep_view();
        out.push((pair.0.clone(), x));
        proof {
            assert(m.take(i + 1).drop_last() =~= m.take(i as int));
            assert(m.take(i + 1).last() == m[i as int]);
            assert(out.deep_view() =~= spec_storage_entries(m.take(i as int)).unwrap().push(
                (entries@[i as int].0@, xv),
            ));
        }
        i += 1;
    }
    proof {
        assert(m.take(entries@.len() as int) =~= m);
    }
    Ok(out)
}

/// The canonical JSON entries of a location mapping.
pub open spec fn location_entries_to_json(m: Seq<(Seq<char>, LocationV)>) -> Seq<
    (Seq<char>, JsonV),
> {
    Seq::new(m.len(), |i: int| (m[i].0, m[i].1.to_json()))
}

/// Reading an encoded location mapping back gives the mapping itself.
pub proof fn lemma_location_entries_round_trip(m: Seq<(Seq<char>, LocationV)>)
    ensures
        spec_location_entries(location_entries_to_json(m)) == Some(m),
    decreases m.len(),
{
    let e = location_entries_to_json(m);
    if m.len() == 0 {
        assert(e =~= Seq::<(Seq<char>, JsonV)>::empty());
    } else {
        lemma_location_entries_round_trip(m.drop_last());
        lemma_location_round_trip(m.last().1);
        assert(e.drop_last() =~= location_entries_to_json(m.drop_last()));
        assert(e.last() == (m.last().0, m.last().1.to_json()));
        assert(spec_location_entries(e)->Some_0 =~= m);
    }
}

/// The canonical JSON entries of a storage-option mapping.
pub open spec fn storage_entries_to_json(m: Seq<(Seq<char>, StorageOptionV)>) -> Seq<
    (Seq<char>, JsonV),
> {
    Seq::new(m.len(), |i: int| (m[i].0, m[i].1.to_json()))
}

/// Reading an encoded storage-option mapping back gives the mapping
/// itself.
pub proof fn lemma_storage_entries_round_trip(m: Seq<(Seq<char>, StorageOptionV)>)
    ensures
        spec_storage_entries(storage_entries_to_json(m)) == Some(m),
    decreases m.len(),
{
    let e = storage_entries_to_json(m);
    if m.len() == 0 {
        assert(e =~= Seq::<(Seq<char>, JsonV)>::empty());
    } else {
        lemma_storage_entries_round_trip(m.drop_last());
        lemma_storage_option_round_trip(m.last().1);
        assert(e.drop_last() =~= storage_entries_to_json(m.drop_last()));
        assert(e.last() == (m.last().0, m.last().1.to_json()));
        assert(spec_storage_entries(e)->Some_0 =~= m);
    }
}

/// Encode a location mapping as a JSON object node.
pub fn encode_location_entries(m: &Vec<(String, Location)>) -> (r: JsonValue)
    ensures
        r.model() == JsonV::Obj(location_entries_to_json(m.deep_view())),
{
    let ghost target = location_entries_to_json(m.deep_view());
    let mut out: Vec<(String, JsonValue)> = Vec::new();
    let mut i: usize = 0;
    while i < m.len()
        invariant
            i <= m.len(),
            target == location_entries_to_json(m.deep_view()),
            obj_entries_model(out@) == target.take(i as int),
        decreases m.len() - i,
    {
        let pair = &m[i];
        let ghost prev = out@;
        out.push((pair.0.clone(), pair.1.to_json_value()));
        proof {
            assert(target.len() == m@.len());
            assert(obj_entries_model(prev).len() == prev.len());
            assert(prev.len() == i as int);
            assert(m.deep_view()[i as int] == (m@[i as int].0@, m@[i as int].1.deep_view()));
            assert forall|j: int| 0 <= j < i + 1 implies obj_entries_model(out@)[j]
                == target.take(i + 1)[j] by {
                if j < i as int {
                    assert(out@[j] == prev[j]);
                    assert(obj_entries_model(prev)[j] == target.take(i as int)[j]);
                }
            }
            assert(obj_entries_model(out@).len() == i + 1);
            assert(target.take(i + 1).len() == i + 1);
            assert(obj_entries_model(out@) =~= target.take(i + 1));
        }
        i += 1;
    }
    proof {
        assert(target.take(m@.len() as int) =~= target);
        lemma_obj_model(out);
    }
    JsonValue::Obj(out)
}

/// Encode a storage-option mapping as a JSON object node.
pub fn encode_storage_entries(m: &Vec<(String, StorageOption)>) -> (r: JsonValue)
    ensures
        r.model() == JsonV::Obj(storage_entries_to_json(m.deep_view())),
{
    let ghost target = storage_entries_to_json(m.deep_view());
    let mut out: Vec<(String, JsonValue)> = Vec::new();
    let mut i: usize = 0;
    while i < m.len()
        invariant
            i <= m.len(),
            target == storage_entries_to_json(m.deep_view()),
            obj_entries_model(out@) == target.take(i as int),
        decreases m.len() - i,
    {
        let pair = &m[i];
        let ghost prev = out@;
        out.push((pair.0.clone(), pair.1.to_json_value()));
        proof {
            assert(target.len() == m@.len());
            assert(obj_entries_model(prev).len() == prev.len());
            assert(prev.len() == i as int);
            assert(m.deep_view()[i as int] == (m@[i as int].0@, m@[i as int].1.deep_view()));
            assert forall|j: int| 0 <= j < i + 1 implies obj_entries_model(out@)[j]
                == target.take(i + 1)[j] by {
                if j < i as int {
                    assert(out@[j] == prev[j]);
                    assert(obj_entries_model(prev)[j] == target.take(i as int)[j]);
                }
            }
            assert(obj_entries_model(out@).len() == i + 1);
            assert(target.take(i + 1).len() == i + 1);
            assert(obj_entries_model(out@) =~= target.take(i + 1));
        }
        i += 1;
    }
    proof {
        assert(target.take(m@.len() as int) =~= target);
        lemma_obj_model(out);
    }
    JsonValue::Obj(out)
}

impl GlobalResources {
    /// Encode the global resources as their canonical JSON tree.
    pub fn to_json_value(&self) -> (r: JsonValue)
        ensures
            r.model() == self.deep_view().to_json(),
    {
        let mut entries: Vec<(String, JsonValue)> = Vec::new();
        entries.push(("locations".to_owned(), encode_location_entries(&self.locations)));
        entries.push(("storage".to_owned(), encode_storage_entries(&self.storage)));
        proof {
            lemma_obj_model(entries);
            assert(obj_entries_model(entries@) =~= self.deep_view().to_json()->Obj_0);
        }
        JsonValue::Obj(entries)
    }
}

impl GlobalResourcesV {
    /// The canonical JSON tree of the global resources.
    pub open spec fn to_json(self) -> JsonV {
        JsonV::Obj(
            seq![
                ("locations"@, JsonV::Obj(location_entries_to_json(self.locations))),
                ("storage"@, JsonV::Obj(storage_entries_to_json(self.storage))),
            ],
        )
    }
}

/// Decoding the canonical JSON tree of the global resources gives back
/// exactly those resources.
pub proof fn lemma_global_resources_round_trip(m: GlobalResourcesV)
    ensures
        GlobalResourcesV::of_json(m.to_json()) == Some(m),
{
    reveal_strlit("locations");
    reveal_strlit("storage");
    let e = m.to_json()->Obj_0;
    assert(e[0] == ("locations"@, JsonV::Obj(location_entries_to_json(m.locations))));
    assert(e[1] == ("storage"@, JsonV::Obj(storage_entries_to_json(m.storage))));
    assert("locations"@.len() == 9 && "storage"@.len() == 7);
    lemma_field_of_first_match(e, "locations"@, 0);
    lemma_field_of_first_match(e, "storage"@, 1);
    lemma_location_entries_round_trip(m.locations);
    lemma_storage_entries_round_trip(m.storage);
}

impl GlobalResourcesV {
    /// The global resources a JSON node denotes: an object with a
    /// `locations` mapping and a `storage` mapping. Unknown fields are
    /// ignored.
    pub open spec fn of_json(v: JsonV) -> Option<GlobalResourcesV> {
        match v {
            JsonV::Obj(e) => {
                if field_of(e, "locations"@) is Some && spec_location_map(
                    field_of(e, "locations"@)->Some_0,
                ) is Some && field_of(e, "storage"@) is Some && spec_storage_map(
                    field_of(e, "storage"@)->Some_0,
                ) is Some {
                    Some(
                        GlobalResourcesV {
                            locations: spec_location_map(field_of(e, "locations"@)->Some_0)->Some_0,
                            storage: spec_storage_map(field_of(e, "storage"@)->Some_0)->Some_0,
                        },
                    )
                } else {
                    None
                }
            },
            _ => None,
        }
    }
}

impl GlobalResources {
    /// Decode the global resources from a JSON node.
    pub fn from_json(v: &JsonValue) -> (r: Result<GlobalResources, FetchError>)
        ensures
            match r {
                Ok(x) => GlobalResourcesV::of_json(v.model()) == Some(x.deep_view()),
                Err(e) => GlobalResourcesV::of_json(v.model()) is None && e is Schema,
            },
    {
        let entries = match v {
            JsonValue::Obj(entries) => entries,
            _ => {
                return Err(FetchError::schema("global resources: expected an object"));
            },
        };
        proof {
            lemma_obj_model(*entries);
        }
        let loc_node = match get_field(entries, "locations") {
            Ok(x) => x,
            Err(e) => return Err(e),
        };
        let locations = match decode_location_map(loc_node) {
            Ok(x) => x,
            Err(e) => return Err(e),
        };
        let storage_node = match get_field(entries, "storage") {
            Ok(x) => x,
            Err(e) => return Err(e),
        };
        let storage = match decode_storage_map(storage_node) {
            Ok(x) => x,
            Err(e) => return Err(e),
        };
        Ok(GlobalResources { locations, storage })
    }
}

} // verus!
