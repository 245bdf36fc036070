use vstd::prelude::*;

use crate::error::FetchError;
use crate::json::{
    decode_str_map, encode_str_entries, field_of, get_bool, get_field, get_str,
    lemma_field_of_first_match, lemma_obj_model, lemma_str_entries_round_trip, obj_entries_model,
    spec_bool_field, spec_str_field, spec_str_map, str_entries_to_json, JsonV, JsonValue,
};

verus! {

/// A Location represents an available resource location.
#[derive(Debug, PartialEq, Eq)]
pub struct Location {
    pub name: String,
    /// Containing the endpoints to test connectivity with for performance,
    /// or an IP to test against. May be empty.
    pub connectivity: Vec<(String, String)>,
    /// Whether the location can be deployed as a server.
    pub deployable: bool,
    /// Whether the location is reservable as a server.
    pub reservable: bool,
    /// The timezone as a string, in a format like "UTC-6".
    pub timezone: String,
}

/// The model of a [`Location`].
pub struct LocationV {
    pub name: Seq<char>,
    pub connectivity: Seq<(Seq<char>, Seq<char>)>,
    pub deployable: bool,
    pub reservable: bool,
    pub timezone: Seq<char>,
}

impl DeepView for Location {
    type V = LocationV;

    open spec fn deep_view(&self) -> LocationV {
        LocationV {
            name: self.name@,
            connectivity: self.connectivity.deep_view(),
            deployable: self.deployable,
            reservable: self.reservable,
            timezone: self.timezone@,
        }
    }
}

impl LocationV {
    /// The location a JSON node denotes: an object with the five required
    /// fields; `connectivity` must be an object of strings, possibly
    /// empty. Unknown fields are ignored.
    pub open spec fn of_json(v: JsonV) -> Option<LocationV> {
        match v {
            JsonV::Obj(e) => {
                if spec_str_field(e, "name"@) is Some && field_of(e, "connectivity"@) is Some
                    && spec_str_map(field_of(e, "connectivity"@)->Some_0) is Some
                    && spec_bool_field(e, "deployable"@) is Some && spec_bool_field(
                    e,
                    "reservable"@,
                ) is Some && spec_str_field(e, "timezone"@) is Some {
                    Some(
                        LocationV {
                            name: spec_str_field(e, "name"@)->Some_0,
                            connectivity: spec_str_map(field_of(e, "connectivity"@)->Some_0)->Some_0,
                            deployable: spec_bool_field(e, "deployable"@)->Some_0,
                            reservable: spec_bool_field(e, "reservable"@)->Some_0,
                            timezone: spec_str_field(e, "timezone"@)->Some_0,
                        },
                    )
                } else {
                    None
                }
            },
            _ => None,
        }
    }
}

impl LocationV {
    /// The canonical JSON tree of a location.
    pub open spec fn to_json(self) -> JsonV {
        JsonV::Obj(
            seq![
                ("name"@, JsonV::Str(self.name)),
                ("connectivity"@, JsonV::Obj(str_entries_to_json(self.connectivity))),
                ("deployable"@, JsonV::Bool(self.deployable)),
                ("reservable"@, JsonV::Bool(self.reservable)),
                ("timezone"@, JsonV::Str(self.timezone)),
            ],
        )
    }
}

impl Location {
    /// Encode this location as its canonical JSON tree.
    pub fn to_json_value(&self) -> (r: JsonValue)
        ensures
            r.model() == self.deep_view().to_json(),
    {
        let mut entries: Vec<(String, JsonValue)> = Vec::new();
        entries.push(("name".to_owned(), JsonValue::Str(self.name.clone())));
        entries.push(("connectivity".to_owned(), encode_str_entries(&self.connectivity)));
        entries.push(("deployable".to_owned(), JsonValue::Bool(self.deployable)));
        entries.push(("reservable".to_owned(), JsonValue::Bool(self.reservable)));
        entries.push(("timezone".to_owned(), JsonValue::Str(self.timezone.clone())));
        proof {
            lemma_obj_model(entries);
            assert(obj_entries_model(entries@) =~= self.deep_view().to_json()->Obj_0);
        }
        JsonValue::Obj(entries)
    }
}

/// Decoding the canonical JSON tree of a location gives back exactly that
/// location.
pub proof fn lemma_location_round_trip(m: LocationV)
    ensures
        LocationV::of_json(m.to_json()) == Some(m),
{
    reveal_strlit("name");
    reveal_strlit("connectivity");
    reveal_strlit("deployable");
    reveal_strlit("reservable");
    reveal_strlit("timezone");
    let e = m.to_json()->Obj_0;
    assert(e[0] == ("name"@, JsonV::Str(m.name)));
    assert(e[1] == ("connectivity"@, JsonV::Obj(str_entries_to_json(m.connectivity))));
    assert(e[2] == ("deployable"@, JsonV::Bool(m.deployable)));
    assert(e[3] == ("reservable"@, JsonV::Bool(m.reservable)));
    assert(e[4] == ("timezone"@, JsonV::Str(m.timezone)));
    assert("name"@.len() == 4 && "connectivity"@.len() == 12 && "deployable"@.len() == 10
        && "reservable"@.len() == 10 && "timezone"@.len() == 8);
    assert("deployable"@[0] == 'd' && "reservable"@[0] == 'r');
    lemma_field_of_first_match(e, "name"@, 0);
    lemma_field_of_first_match(e, "connectivity"@, 1);
    lemma_field_of_first_match(e, "deployable"@, 2);
    lemma_field_of_first_match(e, "reservable"@, 3);
    lemma_field_of_first_match(e, "timezone"@, 4);
    lemma_str_entries_round_trip(m.connectivity);
}

impl Location {
    /// Decode a location from a JSON node, rejecting a node that is not
    /// an object or misses a required field or gives it the wrong type.
    /// An empty `connectivity` object decodes to an empty mapping.
    pub fn from_json(v: &JsonValue) -> (r: Result<Location, FetchError>)
        ensures
            match r {
                Ok(x) => LocationV::of_json(v.model()) == Some(x.deep_view()),
                Err(e) => LocationV::of_json(v.model()) is None && e is Schema,
            },
    {
        let entries = match v {
            JsonValue::Obj(entries) => entries,
            _ => {
                return Err(FetchError::schema("location: expected an object"));
            },
        };
        proof {
            lemma_obj_model(*entries);
        }
        let name = match get_str(entries, "name") {
            Ok(s) => s,
            Err(e) => return Err(e),
        };
        let conn_node = match get_field(entries, "connectivity") {
            Ok(x) => x,
            Err(e) => return Err(e),
        };
        let connectivity = match decode_str_map(conn_node) {
            Ok(x) => x,
            Err(e) => return Err(e),
        };
        let deployable = match get_bool(entries, "deployable") {
            Ok(b) => b,
            Err(e) => return Err(e),
        };
        let reservable = match get_bool(entries, "reservable") {
            Ok(b) => b,
            Err(e) => return Err(e),
        };
        let timezone = match get_str(entries, "timezone") {
            Ok(s) => s,
            Err(e) => return Err(e),
        };
        Ok(Location { name, connectivity, deployable, reservable, timezone })
    }
}

} // verus!
