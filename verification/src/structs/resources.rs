use vstd::prelude::*;

use crate::error::FetchError;
use crate::json::{
    field_of, get_field, lemma_field_of_first_match, lemma_obj_model, obj_entries_model, JsonV,
    JsonValue,
};
use crate::structs::global_resources::{
    lemma_global_resources_round_trip, GlobalResources, GlobalResourcesV,
};
use crate::structs::gpu_instances::{lemma_gpu_instances_round_trip, GpuInstances, GpuInstancesV};

verus! {

/// Resources represents the available resources to access.
#[derive(Debug, PartialEq, Eq)]
pub struct Resources {
    pub global: GlobalResources,
    pub gpu_instances: GpuInstances,
}

/// The model of a [`Resources`].
pub struct ResourcesV {
    pub global: GlobalResourcesV,
    pub gpu_instances: GpuInstancesV,
}

impl DeepView for Resources {
    type V = ResourcesV;

    open spec fn deep_view(&self) -> ResourcesV {
        ResourcesV {
            global: self.global.deep_view(),
            gpu_instances: self.gpu_instances.deep_view(),
        }
    }
}

impl ResourcesV {
    /// The resources a JSON node denotes: an object with a `global`
    /// record and a `gpu_instances` record. Unknown fields are ignored.
    pub open spec fn of_json(v: JsonV) -> Option<ResourcesV> {
        match v {
            JsonV::Obj(e) => {
                if field_of(e, "global"@) is Some && GlobalResourcesV::of_json(
                    field_of(e, "global"@)->Some_0,
                ) is Some && field_of(e, "gpu_instances"@) is Some && GpuInstancesV::of_json(
                    field_of(e, "gpu_instances"@)->Some_0,
                ) is Some {
                    Some(
                        ResourcesV {
                            global: GlobalResourcesV::of_json(field_of(e, "global"@)->Some_0)->Some_0,
                            gpu_instances: GpuInstancesV::of_json(
                                field_of(e, "gpu_instances"@)->Some_0,
                            )->Some_0,
                        },
                    )
                } else {
                    None
                }
            },
            _ => None,
        }
    }
}

impl ResourcesV {
    /// The canonical JSON tree of the resources.
    pub open spec fn to_json(self) -> JsonV {
        JsonV::Obj(
            seq![
                ("global"@, self.global.to_json()),
                ("gpu_instances"@, self.gpu_instances.to_json()),
            ],
        )
    }
}

impl Resources {
    /// Encode the resources as their canonical JSON tree.
    pub fn to_json_value(&self) -> (r: JsonValue)
        ensures
            r.model() == self.deep_view().to_json(),
    {
        let mut entries: Vec<(String, JsonValue)> = Vec::new();
        entries.push(("global".to_owned(), self.global.to_json_value()));
        entries.push(("gpu_instances".to_owned(), self.gpu_instances.to_json_value()));
        proof {
            lemma_obj_model(entries);
            assert(obj_entries_model(entries@) =~= self.deep_view().to_json()->Obj_0);
        }
        JsonValue::Obj(entries)
    }
}

/// Decoding the canonical JSON tree of the resources gives back exactly
/// those resources.
pub proof fn lemma_resources_round_trip(m: ResourcesV)
    ensures
        ResourcesV::of_json(m.to_json()) == Some(m),
{
    reveal_strlit("global");
    reveal_strlit("gpu_instances");
    let e = m.to_json()->Obj_0;
    assert(e[0] == ("global"@, m.global.to_json()));
    assert(e[1] == ("gpu_instances"@, m.gpu_instances.to_json()));
    assert("global"@.len() == 6 && "gpu_instances"@.len() == 13);
    lemma_field_of_first_match(e, "global"@, 0);
    lemma_field_of_first_match(e, "gpu_instances"@, 1);
    lemma_global_resources_round_trip(m.global);
    lemma_gpu_instances_round_trip(m.gpu_instances);
}

impl Resources {
    /// Decode the resources from a JSON node.
    pub fn from_json(v: &JsonValue) -> (r: Result<Resources, FetchError>)
        ensures
            match r {
                Ok(x) => ResourcesV::of_json(v.model()) == Some(x.deep_view()),
                Err(e) => ResourcesV::of_json(v.model()) is None && e is Schema,
            },
    {
        let entries = match v {
            JsonValue::Obj(entries) => entries,
            _ => {
                return Err(FetchError::schema("resources: expected an object"));
            },
        };
        proof {
            lemma_obj_model(*entries);
        }
        let global_node = match get_field(entries, "global") {
            Ok(x) => x,
            Err(e) => return Err(e),
        };
        let global = match GlobalResources::from_json(global_node) {
            Ok(x) => x,
            Err(e) => return Err(e),
        };
        let gpu_node = match get_field(entries, "gpu_instances") {
            Ok(x) => x,
            Err(e) => return Err(e),
        };
        let gpu_instances = match GpuInstances::from_json(gpu_node) {
            Ok(x) => x,
            Err(e) => return Err(e),
        };
        Ok(Resources { global, gpu_instances })
    }
}

} // verus!
