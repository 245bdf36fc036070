use vstd::prelude::*;

use crate::error::FetchError;
use crate::json::{json_tree, parse_json};
use crate::structs::instances_response::{InstancesResponse, InstancesResponseV};

verus! {

/// Parse the body of the instance-metadata endpoint's response into the
/// typed catalog.
///
/// A body that is not JSON at all, or whose tree does not match the
/// catalog schema (a required field missing or of the wrong type), is
/// rejected with a schema error; a partially-populated record is never
/// produced. A body whose tree matches the schema decodes to exactly the
/// catalog that tree denotes.
pub fn parse_raw_instances_body(body: &str) -> (r: Result<InstancesResponse, FetchError>)
    ensures
        match json_tree(body@) {
            Some(v) => match r {
                Ok(t) => InstancesResponseV::of_json(v) == Some(t.deep_view()),
                Err(e) => InstancesResponseV::of_json(v) is None && e is Schema,
            },
            None => r matches Err(e) && e is Schema,
        },
{
    let v = match parse_json(body) {
        Ok(v) => v,
        Err(m) => return Err(FetchError::Schema(m)),
    };
    InstancesResponse::from_json(&v)
}

} // verus!
