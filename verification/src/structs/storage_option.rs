use vstd::prelude::*;

use crate::error::FetchError;
use crate::json::{
    decode_str_arr, encode_str_items, field_of, get_field, get_num, get_str,
    lemma_field_of_first_match, lemma_obj_model, lemma_str_items_round_trip, obj_entries_model,
    spec_num_field, spec_str_arr, spec_str_field, str_items_to_json, JsonV, JsonValue,
};

verus! {

/// A `StorageOption` represents an option for storage, like an SSD or
/// HDD.
#[derive(Debug, PartialEq, Eq)]
pub struct StorageOption {
    /// The hourly expected cost of using the given storage option, a
    /// decimal number kept as its canonical text.
    pub cost_hr: String,
    /// A description of the type of storage option.
    pub description: String,
    /// A collection of locations available for the given storage option.
    pub locations: Vec<String>,
    pub unit: String,
}

/// The model of a [`StorageOption`].
pub struct StorageOptionV {
    pub cost_hr: Seq<char>,
    pub description: Seq<char>,
    pub locations: Seq<Seq<char>>,
    pub unit: Seq<char>,
}

impl DeepView for StorageOption {
    type V = StorageOptionV;

    open spec fn deep_view(&self) -> StorageOptionV {
        StorageOptionV {
            cost_hr: self.cost_hr@,
            description: self.description@,
            locations: self.locations.deep_view(),
            unit: self.unit@,
        }
    }
}

impl StorageOptionV {
    /// The storage option a JSON node denotes: an object with a `costHr`
    /// number, a `description` string, a `locations` array of strings,
    /// and a `unit` string. Unknown fields are ignored.
    pub open spec fn of_json(v: JsonV) -> Option<StorageOptionV> {
        match v {
            JsonV::Obj(e) => {
                if spec_num_field(e, "costHr"@) is Some && spec_str_field(e, "description"@)
                    is Some && field_of(e, "locations"@) is Some && spec_str_arr(
                    field_of(e, "locations"@)->Some_0,
                ) is Some && spec_str_field(e, "unit"@) is Some {
                    Some(
                        StorageOptionV {
                            cost_hr: spec_num_field(e, "costHr"@)->Some_0,
                            description: spec_str_field(e, "description"@)->Some_0,
                            locations: spec_str_arr(field_of(e, "locations"@)->Some_0)->Some_0,
                            unit: spec_str_field(e, "unit"@)->Some_0,
                        },
                    )
                } else {
                    None
                }
            },
            _ => None,
        }
    }
}

impl StorageOptionV {
    /// The canonical JSON tree of a storage option.
    pub open spec fn to_json(self) -> JsonV {
        JsonV::Obj(
            seq![
                ("costHr"@, JsonV::Num(self.cost_hr)),
                ("description"@, JsonV::Str(self.description)),
                ("locations"@, JsonV::Arr(str_items_to_json(self.locations))),
                ("unit"@, JsonV::Str(self.unit)),
            ],
        )
    }
}

impl StorageOption {
    /// Encode this storage option as its canonical JSON tree.
    pub fn to_json_value(&self) -> (r: JsonValue)
        ensures
            r.model() == self.deep_view().to_json(),
    {
        let mut entries: Vec<(String, JsonValue)> = Vec::new();
        entries.push(("costHr".to_owned(), JsonValue::Num(self.cost_hr.clone())));
        entries.push(("description".to_owned(), JsonValue::Str(self.description.clone())));
        entries.push(("locations".to_owned(), encode_str_items(&self.locations)));
        entries.push(("unit".to_owned(), JsonValue::Str(self.unit.clone())));
        proof {
            lemma_obj_model(entries);
            assert(obj_entries_model(entries@) =~= self.deep_view().to_json()->Obj_0);
        }
        JsonValue::Obj(entries)
    }
}

/// Decoding the canonical JSON tree of a storage option gives back
/// exactly that option.
pub proof fn lemma_storage_option_round_trip(m: StorageOptionV)
    ensures
        StorageOptionV::of_json(m.to_json()) == Some(m),
{
    reveal_strlit("costHr");
    reveal_strlit("description");
    reveal_strlit("locations");
    reveal_strlit("unit");
    let e = m.to_json()->Obj_0;
    assert(e[0] == ("costHr"@, JsonV::Num(m.cost_hr)));
    assert(e[1] == ("description"@, JsonV::Str(m.description)));
    assert(e[2] == ("locations"@, JsonV::Arr(str_items_to_json(m.locations))));
    assert(e[3] == ("unit"@, JsonV::Str(m.unit)));
    assert("costHr"@.len() == 6 && "description"@.len() == 11 && "locations"@.len() == 9
        && "unit"@.len() == 4);
    lemma_field_of_first_match(e, "costHr"@, 0);
    lemma_field_of_first_match(e, "description"@, 1);
    lemma_field_of_first_match(e, "locations"@, 2);
    lemma_field_of_first_match(e, "unit"@, 3);
    lemma_str_items_round_trip(m.locations);
}

impl StorageOption {
    /// Decode a storage option from a JSON node, rejecting a node that is
    /// not an object or misses a required field or gives it the wrong
    /// type.
    pub fn from_json(v: &JsonValue) -> (r: Result<StorageOption, FetchError>)
        ensures
            match r {
                Ok(x) => StorageOptionV::of_json(v.model()) == Some(x.deep_view()),
                Err(e) => StorageOptionV::of_json(v.model()) is None && e is Schema,
            },
    {
        let entries = match v {
            JsonValue::Obj(entries) => entries,
            _ => {
                return Err(FetchError::schema("storage option: expected an object"));
            },
        };
        proof {
            lemma_obj_model(*entries);
        }
        let cost_hr = match get_num(entries, "costHr") {
            Ok(s) => s,
            Err(e) => return Err(e),
        };
        let description = match get_str(entries, "description") {
            Ok(s) => s,
            Err(e) => return Err(e),
        };
        let loc_node = match get_field(entries, "locations") {
            Ok(x) => x,
            Err(e) => return Err(e),
        };
        let locations = match decode_str_arr(loc_node) {
            Ok(x) => x,
            Err(e) => return Err(e),
        };
        let unit = match get_str(entries, "unit") {
            Ok(s) => s,
            Err(e) => return Err(e),
        };
        Ok(StorageOption { cost_hr, description, locations, unit })
    }
}

} // verus!
