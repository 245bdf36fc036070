use vstd::prelude::*;

use crate::error::FetchError;
use crate::json::{
    decode_num_map, decode_str_arr, decode_u32_map, encode_num_entries, encode_str_items,
    encode_u32_entries, field_of, get_field, get_str, lemma_field_of_first_match,
    lemma_num_entries_round_trip, lemma_obj_model, lemma_str_items_round_trip,
    lemma_u32_entries_round_trip, num_entries_to_json, obj_entries_model, spec_num_map,
    spec_str_arr, spec_str_field, spec_u32_map, str_items_to_json, u32_entries_to_json, JsonV,
    JsonValue,
};
use crate::structs::specs::{
    lemma_cpu_specs_round_trip, lemma_gpu_specs_round_trip, CpuSpecs, GpuSpecs, GpuSpecsV,
};

verus! {

/// A `CpuInstance` represents an available CPU instance, containing
/// information about costs for certain lengths, available locations,
/// restrictions on usage, and specs of the instance. Costs are decimal
/// numbers kept as their canonical text, keyed by billing-period
/// identifier; restrictions are non-negative integer bounds keyed by
/// constraint identifier.
#[derive(Debug, PartialEq, Eq)]
pub struct CpuInstance {
    pub name: String,
    pub cost: Vec<(String, String)>,
    pub locations: Vec<String>,
    pub restrictions: Vec<(String, u32)>,
    pub specs: CpuSpecs,
}

/// The model of a [`CpuInstance`].
pub struct CpuInstanceV {
    pub name: Seq<char>,
    pub cost: Seq<(Seq<char>, Seq<char>)>,
    pub locations: Seq<Seq<char>>,
    pub restrictions: Seq<(Seq<char>, u32)>,
    pub specs: CpuSpecs,
}

impl DeepView for CpuInstance {
    type V = CpuInstanceV;

    open spec fn deep_view(&self) -> CpuInstanceV {
        CpuInstanceV {
            name: self.name@,
            cost: self.cost.deep_view(),
            locations: self.locations.deep_view(),
            restrictions: self.restrictions.deep_view(),
            specs: self.specs,
        }
    }
}

/// A `GpuInstance` represents an available GPU instance, containing
/// information about costs for certain lengths, available locations,
/// restrictions on usage, and specs of the instance.
#[derive(Debug, PartialEq, Eq)]
pub struct GpuInstance {
    pub name: String,
    pub cost: Vec<(String, String)>,
    pub locations: Vec<String>,
    pub restrictions: Vec<(String, u32)>,
    pub specs: GpuSpecs,
}

/// The model of a [`GpuInstance`].
pub struct GpuInstanceV {
    pub name: Seq<char>,
    pub cost: Seq<(Seq<char>, Seq<char>)>,
    pub locations: Seq<Seq<char>>,
    pub restrictions: Seq<(Seq<char>, u32)>,
    pub specs: GpuSpecsV,
}

impl DeepView for GpuInstance {
    type V = GpuInstanceV;

    open spec fn deep_view(&self) -> GpuInstanceV {
        GpuInstanceV {
            name: self.name@,
            cost: self.cost.deep_view(),
            locations: self.locations.deep_view(),
            restrictions: self.restrictions.deep_view(),
            specs: self.specs.deep_view(),
        }
    }
}

impl CpuInstanceV {
    /// The CPU instance a JSON node denotes: an object with the five
    /// required fields, each of the right shape. Unknown fields are
    /// ignored.
    pub open spec fn of_json(v: JsonV) -> Option<CpuInstanceV> {
        match v {
            JsonV::Obj(e) => {
                if spec_str_field(e, "name"@) is Some && field_of(e, "cost"@) is Some
                    && spec_num_map(field_of(e, "cost"@)->Some_0) is Some && field_of(
                    e,
                    "locations"@,
                ) is Some && spec_str_arr(field_of(e, "locations"@)->Some_0) is Some && field_of(
                    e,
                    "restrictions"@,
                ) is Some && spec_u32_map(field_of(e, "restrictions"@)->Some_0) is Some
                    && field_of(e, "specs"@) is Some && CpuSpecs::of_json(
                    field_of(e, "specs"@)->Some_0,
                ) is Some {
                    Some(
                        CpuInstanceV {
                            name: spec_str_field(e, "name"@)->Some_0,
                            cost: spec_num_map(field_of(e, "cost"@)->Some_0)->Some_0,
                            locations: spec_str_arr(field_of(e, "locations"@)->Some_0)->Some_0,
                            restrictions: spec_u32_map(
                                field_of(e, "restrictions"@)->Some_0,
                            )->Some_0,
                            specs: CpuSpecs::of_json(field_of(e, "specs"@)->Some_0)->Some_0,
                        },
                    )
                } else {
                    None
                }
            },
            _ => None,
        }
    }
}

impl CpuInstanceV {
    /// The canonical JSON tree of a CPU instance.
    pub open spec fn to_json(self) -> JsonV {
        JsonV::Obj(
            seq![
                ("name"@, JsonV::Str(self.name)),
                ("cost"@, JsonV::Obj(num_entries_to_json(self.cost))),
                ("locations"@, JsonV::Arr(str_items_to_json(self.locations))),
                ("restrictions"@, JsonV::Obj(u32_entries_to_json(self.restrictions))),
                ("specs"@, self.specs.to_json()),
            ],
        )
    }
}

impl CpuInstance {
    /// Encode this instance as its canonical JSON tree.
    pub fn to_json_value(&self) -> (r: JsonValue)
        ensures
            r.model() == self.deep_view().to_json(),
    {
        let mut entries: Vec<(String, JsonValue)> = Vec::new();
        entries.push(("name".to_owned(), JsonValue::Str(self.name.clone())));
        entries.push(("cost".to_owned(), encode_num_entries(&self.cost)));
        entries.push(("locations".to_owned(), encode_str_items(&self.locations)));
        entries.push(("restrictions".to_owned(), encode_u32_entries(&self.restrictions)));
        entries.push(("specs".to_owned(), self.specs.to_json_value()));
        proof {
            lemma_obj_model(entries);
            assert(obj_entries_model(entries@) =~= self.deep_view().to_json()->Obj_0);
        }
        JsonValue::Obj(entries)
    }
}

/// Decoding the canonical JSON tree of a CPU instance gives back exactly
/// that instance.
pub proof fn lemma_cpu_instance_round_trip(m: CpuInstanceV)
    ensures
        CpuInstanceV::of_json(m.to_json()) == Some(m),
{
    reveal_strlit("name");
    reveal_strlit("cost");
    reveal_strlit("locations");
    reveal_strlit("restrictions");
    reveal_strlit("specs");
    let e = m.to_json()->Obj_0;
    assert(e[0] == ("name"@, JsonV::Str(m.name)));
    assert(e[1] == ("cost"@, JsonV::Obj(num_entries_to_json(m.cost))));
    assert(e[2] == ("locations"@, JsonV::Arr(str_items_to_json(m.locations))));
    assert(e[3] == ("restrictions"@, JsonV::Obj(u32_entries_to_json(m.restrictions))));
    assert(e[4] == ("specs"@, m.specs.to_json()));
    assert("name"@.len() == 4 && "cost"@.len() == 4 && "locations"@.len() == 9
        && "restrictions"@.len() == 12 && "specs"@.len() == 5);
    assert("name"@[0] == 'n' && "cost"@[0] == 'c');
    lemma_field_of_first_match(e, "name"@, 0);
    lemma_field_of_first_match(e, "cost"@, 1);
    lemma_field_of_first_match(e, "locations"@, 2);
    lemma_field_of_first_match(e, "restrictions"@, 3);
    lemma_field_of_first_match(e, "specs"@, 4);
    lemma_num_entries_round_trip(m.cost);
    lemma_str_items_round_trip(m.locations);
    lemma_u32_entries_round_trip(m.restrictions);
    lemma_cpu_specs_round_trip(m.specs);
}

impl CpuInstance {
    /// Decode a CPU instance from a JSON node, rejecting a node that is
    /// not an object or misses a required field or gives it the wrong
    /// shape.
    pub fn from_json(v: &JsonValue) -> (r: Result<CpuInstance, FetchError>)
        ensures
            match r {
                Ok(x) => CpuInstanceV::of_json(v.model()) == Some(x.deep_view()),
                Err(e) => CpuInstanceV::of_json(v.model()) is None && e is Schema,
            },
    {
        let entries = match v {
            JsonValue::Obj(entries) => entries,
            _ => {
                return Err(FetchError::schema("cpu instance: expected an object"));
            },
        };
        proof {
            lemma_obj_model(*entries);
        }
        let name = match get_str(entries, "name") {
            Ok(s) => s,
            Err(e) => return Err(e),
        };
        let cost_node = match get_field(entries, "cost") {
            Ok(x) => x,
            Err(e) => return Err(e),
        };
        let cost = match decode_num_map(cost_node) {
            Ok(x) => x,
            Err(e) => return Err(e),
        };
        let loc_node = match get_field(entries, "locations") {
            Ok(x) => x,
            Err(e) => return Err(e),
        };
        let locations = match decode_str_arr(loc_node) {
            Ok(x) => x,
            Err(e) => return Err(e),
        };
        let restr_node = match get_field(entries, "restrictions") {
            Ok(x) => x,
            Err(e) => return Err(e),
        };
        let restrictions = match decode_u32_map(restr_node) {
            Ok(x) => x,
            Err(e) => return Err(e),
        };
        let specs_node = match get_field(entries, "specs") {
            Ok(x) => x,
            Err(e) => return Err(e),
        };
        let specs = match CpuSpecs::from_json(specs_node) {
            Ok(x) => x,
            Err(e) => return Err(e),
        };
        Ok(CpuInstance { name, cost, locations, restrictions, specs })
    }
}

impl GpuInstanceV {
    /// The GPU instance a JSON node denotes: an object with the five
    /// required fields, each of the right shape. Unknown fields are
    /// ignored.
    pub open spec fn of_json(v: JsonV) -> Option<GpuInstanceV> {
        match v {
            JsonV::Obj(e) => {
                if spec_str_field(e, "name"@) is Some && field_of(e, "cost"@) is Some
                    && spec_num_map(field_of(e, "cost"@)->Some_0) is Some && field_of(
                    e,
                    "locations"@,
                ) is Some && spec_str_arr(field_of(e, "locations"@)->Some_0) is Some && field_of(
                    e,
                    "restrictions"@,
                ) is Some && spec_u32_map(field_of(e, "restrictions"@)->Some_0) is Some
                    && field_of(e, "specs"@) is Some && GpuSpecsV::of_json(
                    field_of(e, "specs"@)->Some_0,
                ) is Some {
                    Some(
                        GpuInstanceV {
                            name: spec_str_field(e, "name"@)->Some_0,
                            cost: spec_num_map(field_of(e, "cost"@)->Some_0)->Some_0,
                            locations: spec_str_arr(field_of(e, "locations"@)->Some_0)->Some_0,
                            restrictions: spec_u32_map(
                                field_of(e, "restrictions"@)->Some_0,
                            )->Some_0,
                            specs: GpuSpecsV::of_json(field_of(e, "specs"@)->Some_0)->Some_0,
                        },
                    )
                } else {
                    None
                }
            },
            _ => None,
        }
    }
}

impl GpuInstanceV {
    /// The canonical JSON tree of a GPU instance.
    pub open spec fn to_json(self) -> JsonV {
        JsonV::Obj(
            seq![
                ("name"@, JsonV::Str(self.name)),
                ("cost"@, JsonV::Obj(num_entries_to_json(self.cost))),
                ("locations"@, JsonV::Arr(str_items_to_json(self.locations))),
                ("restrictions"@, JsonV::Obj(u32_entries_to_json(self.restrictions))),
                ("specs"@, self.specs.to_json()),
            ],
        )
    }
}

impl GpuInstance {
    /// Encode this instance as its canonical JSON tree.
    pub fn to_json_value(&self) -> (r: JsonValue)
        ensures
            r.model() == self.deep_view().to_json(),
    {
        let mut entries: Vec<(String, JsonValue)> = Vec::new();
        entries.push(("name".to_owned(), JsonValue::Str(self.name.clone())));
        entries.push(("cost".to_owned(), encode_num_entries(&self.cost)));
        entries.push(("locations".to_owned(), encode_str_items(&self.locations)));
        entries.push(("restrictions".to_owned(), encode_u32_entries(&self.restrictions)));
        entries.push(("specs".to_owned(), self.specs.to_json_value()));
        proof {
            lemma_obj_model(entries);
            assert(obj_entries_model(entries@) =~= self.deep_view().to_json()->Obj_0);
        }
        JsonValue::Obj(entries)
    }
}

/// Decoding the canonical JSON tree of a GPU instance gives back exactly
/// that instance.
pub proof fn lemma_gpu_instance_round_trip(m: GpuInstanceV)
    ensures
        GpuInstanceV::of_json(m.to_json()) == Some(m),
{
    reveal_strlit("name");
    reveal_strlit("cost");
    reveal_strlit("locations");
    reveal_strlit("restrictions");
    reveal_strlit("specs");
    let e = m.to_json()->Obj_0;
    assert(e[0] == ("name"@, JsonV::Str(m.name)));
    assert(e[1] == ("cost"@, JsonV::Obj(num_entries_to_json(m.cost))));
    assert(e[2] == ("locations"@, JsonV::Arr(str_items_to_json(m.locations))));
    assert(e[3] == ("restrictions"@, JsonV::Obj(u32_entries_to_json(m.restrictions))));
    assert(e[4] == ("specs"@, m.specs.to_json()));
    assert("name"@.len() == 4 && "cost"@.len() == 4 && "locations"@.len() == 9
        && "restrictions"@.len() == 12 && "specs"@.len() == 5);
    assert("name"@[0] == 'n' && "cost"@[0] == 'c');
    lemma_field_of_first_match(e, "name"@, 0);
    lemma_field_of_first_match(e, "cost"@, 1);
    lemma_field_of_first_match(e, "locations"@, 2);
    lemma_field_of_first_match(e, "restrictions"@, 3);
    lemma_field_of_first_match(e, "specs"@, 4);
    lemma_num_entries_round_trip(m.cost);
    lemma_str_items_round_trip(m.locations);
    lemma_u32_entries_round_trip(m.restrictions);
    lemma_gpu_specs_round_trip(m.specs);
}

impl GpuInstance {
    /// Decode a GPU instance from a JSON node, rejecting a node that is
    /// not an object or misses a required field or gives it the wrong
    /// shape.
    pub fn from_json(v: &JsonValue) -> (r: Result<GpuInstance, FetchError>)
        ensures
            match r {
                Ok(x) => GpuInstanceV::of_json(v.model()) == Some(x.deep_view()),
                Err(e) => GpuInstanceV::of_json(v.model()) is None && e is Schema,
            },
    {
        let entries = match v {
            JsonValue::Obj(entries) => entries,
            _ => {
                return Err(FetchError::schema("gpu instance: expected an object"));
            },
        };
        proof {
            lemma_obj_model(*entries);
        }
        let name = match get_str(entries, "name") {
            Ok(s) => s,
            Err(e) => return Err(e),
        };
        let cost_node = match get_field(entries, "cost") {
            Ok(x) => x,
            Err(e) => return Err(e),
        };
        let cost = match decode_num_map(cost_node) {
            Ok(x) => x,
            Err(e) => return Err(e),
        };
        let loc_node = match get_field(entries, "locations") {
            Ok(x) => x,
            Err(e) => return Err(e),
        };
        let locations = match decode_str_arr(loc_node) {
            Ok(x) => x,
            Err(e) => return Err(e),
        };
        let restr_node = match get_field(entries, "restrictions") {
            Ok(x) => x,
            Err(e) => return Err(e),
        };
        let restrictions = match decode_u32_map(restr_node) {
            Ok(x) => x,
            Err(e) => return Err(e),
        };
        let specs_node = match get_field(entries, "specs") {
            Ok(x) => x,
            Err(e) => return Err(e),
        };
        let specs = match GpuSpecs::from_json(specs_node) {
            Ok(x) => x,
            Err(e) => return Err(e),
        };
        Ok(GpuInstance { name, cost, locations, restrictions, specs })
    }
}

} // verus!
