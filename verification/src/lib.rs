//! Client-side core of a wrapper for the TensorDock Marketplace API.
//!
//! The library holds authorization credentials, models the JSON bodies the
//! marketplace serves as a tree of plain values, and decodes that tree into
//! the typed instance-catalog records. The HTTP transport itself lives with
//! the embedding application; this crate only interprets the bodies it is
//! handed.

pub mod config;
pub mod endpoints;
pub mod error;
pub mod json;
pub mod structs;

use vstd::prelude::*;

use crate::json::{field_of, json_tree, lemma_obj_model, obj_get, parse_json, JsonV, JsonValue};

verus! {

/// Whether a JSON tree confirms a valid, registered authorization: a bare
/// boolean is taken directly; an object's `success` field is read as a
/// boolean, defaulting to false where absent or of another type; any
/// other tree means no.
pub open spec fn spec_auth_success(v: JsonV) -> bool {
    match v {
        JsonV::Bool(b) => b,
        JsonV::Obj(e) => match field_of(e, "success"@) {
            Some(JsonV::Bool(b)) => b,
            _ => false,
        },
        _ => false,
    }
}

/// Read the success indicator out of a parsed authorization-test
/// response.
pub fn auth_success(v: &JsonValue) -> (r: bool)
    ensures
        r == spec_auth_success(v.model()),
{
    match v {
        JsonValue::Bool(b) => *b,
        JsonValue::Obj(entries) => {
            proof {
                lemma_obj_model(*entries);
            }
            let k = "success".to_owned();
            match obj_get(entries, &k) {
                Some(x) => match x {
                    JsonValue::Bool(b) => *b,
                    _ => false,
                },
                None => false,
            }
        },
        _ => false,
    }
}

/// Interpret the body of the authorization-check endpoint's response.
///
/// Yields true only where the body confirms a valid, registered
/// authorization; a malformed or ambiguous body resolves to false rather
/// than erroring. Transport-level failures never reach this function: the
/// embedding application surfaces them before a body exists.
pub fn parse_auth_body(body: &str) -> (r: bool)
    ensures
        r == match json_tree(body@) {
            Some(v) => spec_auth_success(v),
            None => false,
        },
{
    match parse_json(body) {
        Ok(v) => auth_success(&v),
        Err(_) => false,
    }
}

} // verus!
