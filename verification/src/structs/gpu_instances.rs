use vstd::prelude::*;

use crate::error::FetchError;
use crate::json::{
    field_of, get_field, get_num, get_str, lemma_field_of_first_match, lemma_obj_model,
    obj_entries_model, spec_num_field, spec_str_field, JsonV, JsonValue,
};

verus! {

/// A container for the units of expected cost for RAM and vCPUs for GPU
/// instances.
#[derive(Debug, PartialEq, Eq)]
pub struct GpuInstances {
    pub ram: GpuInstancesDescription,
    pub vcpu: GpuInstancesDescription,
}

/// A description of the costs for GPU instances: the expected hourly cost
/// as a decimal number kept as its canonical text, and the unit of
/// measurement against which that cost is multiplied.
#[derive(Debug, PartialEq, Eq)]
pub struct GpuInstancesDescription {
    pub cost_hr: String,
    pub unit: String,
}

/// The model of a [`GpuInstancesDescription`].
pub struct GpuInstancesDescriptionV {
    pub cost_hr: Seq<char>,
    pub unit: Seq<char>,
}

/// The model of a [`GpuInstances`].
pub struct GpuInstancesV {
    pub ram: GpuInstancesDescriptionV,
    pub vcpu: GpuInstancesDescriptionV,
}

impl DeepView for GpuInstancesDescription {
    type V = GpuInstancesDescriptionV;

    open spec fn deep_view(&self) -> GpuInstancesDescriptionV {
        GpuInstancesDescriptionV { cost_hr: self.cost_hr@, unit: self.unit@ }
    }
}

impl DeepView for GpuInstances {
    type V = GpuInstancesV;

    open spec fn deep_view(&self) -> GpuInstancesV {
        GpuInstancesV { ram: self.ram.deep_view(), vcpu: self.vcpu.deep_view() }
    }
}

impl GpuInstancesDescriptionV {
    /// The cost description a JSON node denotes: an object with a
    /// `costHr` number and a `unit` string. Unknown fields are ignored.
    pub open spec fn of_json(v: JsonV) -> Option<GpuInstancesDescriptionV> {
        match v {
            JsonV::Obj(e) => {
                if spec_num_field(e, "costHr"@) is Some && spec_str_field(e, "unit"@) is Some {
                    Some(
                        GpuInstancesDescriptionV {
                            cost_hr: spec_num_field(e, "costHr"@)->Some_0,
                            unit: spec_str_field(e, "unit"@)->Some_0,
                        },
                    )
                } else {
                    None
                }
            },
            _ => None,
        }
    }
}

impl GpuInstancesDescriptionV {
    /// The canonical JSON tree of a cost description.
    pub open spec fn to_json(self) -> JsonV {
        JsonV::Obj(
            seq![("costHr"@, JsonV::Num(self.cost_hr)), ("unit"@, JsonV::Str(self.unit))],
        )
    }
}

impl GpuInstancesDescription {
    /// Encode this cost description as its canonical JSON tree.
    pub fn to_json_value(&self) -> (r: JsonValue)
        ensures
            r.model() == self.deep_view().to_json(),
    {
        let mut entries: Vec<(String, JsonValue)> = Vec::new();
        entries.push(("costHr".to_owned(), JsonValue::Num(self.cost_hr.clone())));
        entries.push(("unit".to_owned(), JsonValue::Str(self.unit.clone())));
        proof {
            lemma_obj_model(entries);
            assert(obj_entries_model(entries@) =~= self.deep_view().to_json()->Obj_0);
        }
        JsonValue::Obj(entries)
    }
}

/// Decoding the canonical JSON tree of a cost description gives back
/// exactly that description.
pub proof fn lemma_gpu_instances_description_round_trip(m: GpuInstancesDescriptionV)
    ensures
        GpuInstancesDescriptionV::of_json(m.to_json()) == Some(m),
{
    reveal_strlit("costHr");
    reveal_strlit("unit");
    let e = m.to_json()->Obj_0;
    assert(e[0] == ("costHr"@, JsonV::Num(m.cost_hr)));
    assert(e[1] == ("unit"@, JsonV::Str(m.unit)));
    assert("costHr"@.len() == 6 && "unit"@.len() == 4);
    lemma_field_of_first_match(e, "costHr"@, 0);
    lemma_field_of_first_match(e, "unit"@, 1);
}

impl GpuInstancesDescription {
    /// Decode a cost description from a JSON node.
    pub fn from_json(v: &JsonValue) -> (r: Result<GpuInstancesDescription, FetchError>)
        ensures
            match r {
                Ok(x) => GpuInstancesDescriptionV::of_json(v.model()) == Some(x.deep_view()),
                Err(e) => GpuInstancesDescriptionV::of_json(v.model()) is None && e is Schema,
            },
    {
        let entries = match v {
            JsonValue::Obj(entries) => entries,
            _ => {
                return Err(FetchError::schema("cost description: expected an object"));
            },
        };
        proof {
            lemma_obj_model(*entries);
        }
        let cost_hr = match get_num(entries, "costHr") {
            Ok(s) => s,
            Err(e) => return Err(e),
        };
        let unit = match get_str(entries, "unit") {
            Ok(s) => s,
            Err(e) => return Err(e),
        };
        Ok(GpuInstancesDescription { cost_hr, unit })
    }
}

impl GpuInstancesV {
    /// The GPU cost container a JSON node denotes: an object with a `ram`
    /// and a `vcpu` cost description.
    pub open spec fn of_json(v: JsonV) -> Option<GpuInstancesV> {
        match v {
            JsonV::Obj(e) => {
                if field_of(e, "ram"@) is Some && GpuInstancesDescriptionV::of_json(
                    field_of(e, "ram"@)->Some_0,
                ) is Some && field_of(e, "vcpu"@) is Some && GpuInstancesDescriptionV::of_json(
                    field_of(e, "vcpu"@)->Some_0,
                ) is Some {
                    Some(
                        GpuInstancesV {
                            ram: GpuInstancesDescriptionV::of_json(field_of(e, "ram"@)->Some_0)->Some_0,
                            vcpu: GpuInstancesDescriptionV::of_json(
                                field_of(e, "vcpu"@)->Some_0,
                            )->Some_0,
                        },
                    )
                } else {
                    None
                }
            },
            _ => None,
        }
    }
}

impl GpuInstancesV {
    /// The canonical JSON tree of the GPU cost container.
    pub open spec fn to_json(self) -> JsonV {
        JsonV::Obj(seq![("ram"@, self.ram.to_json()), ("vcpu"@, self.vcpu.to_json())])
    }
}

impl GpuInstances {
    /// Encode this cost container as its canonical JSON tree.
    pub fn to_json_value(&self) -> (r: JsonValue)
        ensures
            r.model() == self.deep_view().to_json(),
    {
        let mut entries: Vec<(String, JsonValue)> = Vec::new();
        entries.push(("ram".to_owned(), self.ram.to_json_value()));
        entries.push(("vcpu".to_owned(), self.vcpu.to_json_value()));
        proof {
            lemma_obj_model(entries);
            assert(obj_entries_model(entries@) =~= self.deep_view().to_json()->Obj_0);
        }
        JsonValue::Obj(entries)
    }
}

/// Decoding the canonical JSON tree of the GPU cost container gives back
/// exactly that container.
pub proof fn lemma_gpu_instances_round_trip(m: GpuInstancesV)
    ensures
        GpuInstancesV::of_json(m.to_json()) == Some(m),
{
    reveal_strlit("ram");
    reveal_strlit("vcpu");
    let e = m.to_json()->Obj_0;
    assert(e[0] == ("ram"@, m.ram.to_json()));
    assert(e[1] == ("vcpu"@, m.vcpu.to_json()));
    assert("ram"@.len() == 3 && "vcpu"@.len() == 4);
    lemma_field_of_first_match(e, "ram"@, 0);
    lemma_field_of_first_match(e, "vcpu"@, 1);
    lemma_gpu_instances_description_round_trip(m.ram);
    lemma_gpu_instances_description_round_trip(m.vcpu);
}

impl GpuInstances {
    /// Decode the GPU cost container from a JSON node.
    pub fn from_json(v: &JsonValue) -> (r: Result<GpuInstances, FetchError>)
        ensures
            match r {
                Ok(x) => GpuInstancesV::of_json(v.model()) == Some(x.deep_view()),
                Err(e) => GpuInstancesV::of_json(v.model()) is None && e is Schema,
            },
    {
        let entries = match v {
            JsonValue::Obj(entries) => entries,
            _ => {
                return Err(FetchError::schema("gpu instances: expected an object"));
            },
        };
        proof {
            lemma_obj_model(*entries);
        }
        let ram_node = match get_field(entries, "ram") {
            Ok(x) => x,
            Err(e) => return Err(e),
        };
        let ram = match GpuInstancesDescription::from_json(ram_node) {
            Ok(x) => x,
            Err(e) => return Err(e),
        };
        let vcpu_node = match get_field(entries, "vcpu") {
            Ok(x) => x,
            Err(e) => return Err(e),
        };
        let vcpu = match GpuInstancesDescription::from_json(vcpu_node) {
            Ok(x) => x,
            Err(e) => return Err(e),
        };
        Ok(GpuInstances { ram, vcpu })
    }
}

} // verus!
