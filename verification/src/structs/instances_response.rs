use vstd::prelude::*;

use crate::error::FetchError;
use crate::json::{
    field_of, get_bool, get_field, lemma_field_of_first_match, lemma_obj_model, obj_entries_model,
    spec_bool_field, JsonV, JsonValue,
};
use crate::structs::instance::{
    lemma_cpu_instance_round_trip, lemma_gpu_instance_round_trip, CpuInstance, CpuInstanceV,
    GpuInstance, GpuInstanceV,
};
use crate::structs::resources::{lemma_resources_round_trip, Resources, ResourcesV};

verus! {

/// An `InstancesResponse` represents a response of the instance-metadata
/// endpoint, containing information about available CPUs, GPUs, and other
/// resources.
#[derive(Debug, PartialEq, Eq)]
pub struct InstancesResponse {
    pub cpu: Vec<(String, CpuInstance)>,
    pub gpu: Vec<(String, GpuInstance)>,
    pub resources: Resources,
    pub success: bool,
}

/// The model of an [`InstancesResponse`].
pub struct InstancesResponseV {
    pub cpu: Seq<(Seq<char>, CpuInstanceV)>,
    pub gpu: Seq<(Seq<char>, GpuInstanceV)>,
    pub resources: ResourcesV,
    pub success: bool,
}

impl DeepView for InstancesResponse {
    type V = InstancesResponseV;

    open spec fn deep_view(&self) -> InstancesResponseV {
        InstancesResponseV {
            cpu: self.cpu.deep_view(),
            gpu: self.gpu.deep_view(),
            resources: self.resources.deep_view(),
            success: self.success,
        }
    }
}

/// A mapping whose values are CPU instances: every value of the object
/// must decode as a CPU instance. An empty object gives the empty
/// mapping.
pub open spec fn spec_cpu_entries(e: Seq<(Seq<char>, JsonV)>) -> Option<
    Seq<(Seq<char>, CpuInstanceV)>,
>
    decreases e.len(),
{
    if e.len() == 0 {
        Some(Seq::empty())
    } else {
        match (spec_cpu_entries(e.drop_last()), CpuInstanceV::of_json(e.last().1)) {
            (Some(rest), Some(x)) => Some(rest.push((e.last().0, x))),
            _ => None,
        }
    }
}

/// A CPU-instance mapping read from a JSON object node.
pub open spec fn spec_cpu_map(v: JsonV) -> Option<Seq<(Seq<char>, CpuInstanceV)>> {
    match v {
        JsonV::Obj(e) => spec_cpu_entries(e),
        _ => None,
    }
}

proof fn lemma_cpu_entries_bad(e: Seq<(Seq<char>, JsonV)>, j: int)
    requires
        0 <= j < e.len(),
        CpuInstanceV::of_json(e[j].1) is None,
    ensures
        spec_cpu_entries(e) is None,
    decreases e.len(),
{
    if j < e.len() - 1 {
        lemma_cpu_entries_bad(e.drop_last(), j);
    }
}

/// Decode a JSON object of CPU instances into a list of key/instance
/// pairs, in the object's own order.
pub fn decode_cpu_map(v: &JsonValue) -> (r: Result<Vec<(String, CpuInstance)>, FetchError>)
    ensures
        match r {
            Ok(x) => spec_cpu_map(v.model()) == Some(x.deep_view()),
            Err(e) => spec_cpu_map(v.model()) is None && e is Schema,
        },
{
    let entries = match v {
        JsonValue::Obj(entries) => entries,
        _ => {
            return Err(FetchError::schema("cpu catalog: expected an object"));
        },
    };
    proof {
        lemma_obj_model(*entries);
    }
    let ghost m = obj_entries_model(entries@);
    let mut out: Vec<(String, CpuInstance)> = Vec::new();
    let mut i: usize = 0;
    while i < entries.len()
        invariant
            i <= entries.len(),
            m == obj_entries_model(entries@),
            v.model() == JsonV::Obj(m),
            spec_cpu_entries(m.take(i as int)) == Some(out.deep_view()),
        decreases entries.len() - i,
    {
        let pair = &entries[i];
        let x = match CpuInstance::from_json(&pair.1) {
            Ok(x) => x,
            Err(e) => {
                proof {
                    lemma_cpu_entries_bad(m, i as int);
                }
                return Err(e);
            },
        };
        let ghost xv = x.deep_view();
        out.push((pair.0.clone(), x));
        proof {
            assert(m.take(i + 1).drop_last() =~= m.take(i as int));
            assert(m.take(i + 1).last() == m[i as int]);
            assert(out.deep_view() =~= spec_cpu_entries(m.take(i as int)).unwrap().push(
                (entries@[i as int].0@, xv),
            ));
        }
        i += 1;
    }
    proof {
        assert(m.take(entries@.len() as int) =~= m);
    }
    Ok(out)
}

/// A mapping whose values are GPU instances: every value of the object
/// must decode as a GPU instance.
pub open spec fn spec_gpu_entries(e: Seq<(Seq<char>, JsonV)>) -> Option<
    Seq<(Seq<char>, GpuInstanceV)>,
>
    decreases e.len(),
{
    if e.len() == 0 {
        Some(Seq::empty())
    } else {
        match (spec_gpu_entries(e.drop_last()), GpuInstanceV::of_json(e.last().1)) {
            (Some(rest), Some(x)) => Some(rest.push((e.last().0, x))),
            _ => None,
        }
    }
}

/// A GPU-instance mapping read from a JSON object node.
pub open spec fn spec_gpu_map(v: JsonV) -> Option<Seq<(Seq<char>, GpuInstanceV)>> {
    match v {
        JsonV::Obj(e) => spec_gpu_entries(e),
        _ => None,
    }
}

proof fn lemma_gpu_entries_bad(e: Seq<(Seq<char>, JsonV)>, j: int)
    requires
        0 <= j < e.len(),
        GpuInstanceV::of_json(e[j].1) is None,
    ensures
        spec_gpu_entries(e) is None,
    decreases e.len(),
{
    if j < e.len() - 1 {
        lemma_gpu_entries_bad(e.drop_last(), j);
    }
}

/// Decode a JSON object of GPU instances into a list of key/instance
/// pairs, in the object's own order.
pub fn decode_gpu_map(v: &JsonValue) -> (r: Result<Vec<(String, GpuInstance)>, FetchError>)
    ensures
        match r {
            Ok(x) => spec_gpu_map(v.model()) == Some(x.deep_view()),
            Err(e) => spec_gpu_map(v.model()) is None && e is Schema,
        },
{
    let entries = match v {
        JsonValue::Obj(entries) => entries,
        _ => {
            return Err(FetchError::schema("gpu catalog: expected an object"));
        },
    };
    proof {
        lemma_obj_model(*entries);
    }
    let ghost m = obj_entries_model(entries@);
    let mut out: Vec<(String, GpuInstance)> = Vec::new();
    let mut i: usize = 0;
    while i < entries.len()
        invariant
            i <= entries.len(),
            m == obj_entries_model(entries@),
            v.model() == JsonV::Obj(m),
            spec_gpu_entries(m.take(i as int)) == Some(out.deep_view()),
        decreases entries.len() - i,
    {
        let pair = &entries[i];
        let x = match GpuInstance::from_json(&pair.1) {
            Ok(x) => x,
            Err(e) => {
                proof {
                    lemma_gpu_entries_bad(m, i as int);
                }
                return Err(e);
            },
        };
        let ghost xv = x.deep_view();
        out.push((pair.0.clone(), x));
        proof {
            assert(m.take(i + 1).drop_last() =~= m.take(i as int));
            assert(m.take(i + 1).last() == m[i as int]);
            assert(out.deep_view() =~= spec_gpu_entries(m.take(i as int)).unwrap().push(
                (entries@[i as int].0@, xv),
            ));
        }
        i += 1;
    }
    proof {
        assert(m.take(entries@.len() as int) =~= m);
    }
    Ok(out)
}

/// The canonical JSON entries of a CPU-instance mapping.
pub open spec fn cpu_entries_to_json(m: Seq<(Seq<char>, CpuInstanceV)>) -> Seq<
    (Seq<char>, JsonV),
> {
    Seq::new(m.len(), |i: int| (m[i].0, m[i].1.to_json()))
}

/// Reading an encoded CPU-instance mapping back gives the mapping
/// itself.
pub proof fn lemma_cpu_entries_round_trip(m: Seq<(Seq<char>, CpuInstanceV)>)
    ensures
        spec_cpu_entries(cpu_entries_to_json(m)) == Some(m),
    decreases m.len(),
{
    let e = cpu_entries_to_json(m);
    if m.len() == 0 {
        assert(e =~= Seq::<(Seq<char>, JsonV)>::empty());
    } else {
        lemma_cpu_entries_round_trip(m.drop_last());
        lemma_cpu_instance_round_trip(m.last().1);
        assert(e.drop_last() =~= cpu_entries_to_json(m.drop_last()));
        assert(e.last() == (m.last().0, m.last().1.to_json()));
        assert(spec_cpu_entries(e)->Some_0 =~= m);
    }
}

/// The canonical JSON entries of a GPU-instance mapping.
pub open spec fn gpu_entries_to_json(m: Seq<(Seq<char>, GpuInstanceV)>) -> Seq<
    (Seq<char>, JsonV),
> {
    Seq::new(m.len(), |i: int| (m[i].0, m[i].1.to_json()))
}

/// Reading an encoded GPU-instance mapping back gives the mapping
/// itself.
pub proof fn lemma_gpu_entries_round_trip(m: Seq<(Seq<char>, GpuInstanceV)>)
    ensures
        spec_gpu_entries(gpu_entries_to_json(m)) == Some(m),
    decreases m.len(),
{
    let e = gpu_entries_to_json(m);
    if m.len() == 0 {
        assert(e =~= Seq::<(Seq<char>, JsonV)>::empty());
    } else {
        lemma_gpu_entries_round_trip(m.drop_last());
        lemma_gpu_instance_round_trip(m.last().1);
        assert(e.drop_last() =~= gpu_entries_to_json(m.drop_last()));
        assert(e.last() == (m.last().0, m.last().1.to_json()));
        assert(spec_gpu_entries(e)->Some_0 =~= m);
    }
}

/// Encode a CPU-instance mapping as a JSON object node.
pub fn encode_cpu_entries(m: &Vec<(String, CpuInstance)>) -> (r: JsonValue)
    ensures
        r.model() == JsonV::Obj(cpu_entries_to_json(m.deep_view())),
{
    let ghost target = cpu_entries_to_json(m.deep_view());
    let mut out: Vec<(String, JsonValue)> = Vec::new();
    let mut i: usize = 0;
    while i < m.len()
        invariant
            i <= m.len(),
            target == cpu_entries_to_json(m.deep_view()),
            obj_entries_model(out@) == target.take(i as int),
        decreases m.len() - i,
    {
        let pair = &m[i];
        let ghost prev = out@;
        out.push((pair.0.clone(), pair.1.to_json_value()));
        proof {
            assert(target.len() == m@.len());
            assert(obj_entries_model(prev).len() == prev.len());
            assert(prev.len() == i as int);
            assert(m.deep_view()[i as int] == (m@[i as int].0@, m@[i as int].1.deep_view()));
            assert forall|j: int| 0 <= j < i + 1 implies obj_entries_model(out@)[j]
                == target.take(i + 1)[j] by {
                if j < i as int {
                    assert(out@[j] == prev[j]);
                    assert(obj_entries_model(prev)[j] == target.take(i as int)[j]);
                }
            }
            assert(obj_entries_model(out@).len() == i + 1);
            assert(target.take(i + 1).len() == i + 1);
            assert(obj_entries_model(out@) =~= target.take(i + 1));
        }
        i += 1;
    }
    proof {
        assert(target.take(m@.len() as int) =~= target);
        lemma_obj_model(out);
    }
    JsonValue::Obj(out)
}

/// Encode a GPU-instance mapping as a JSON object node.
pub fn encode_gpu_entries(m: &Vec<(String, GpuInstance)>) -> (r: JsonValue)
    ensures
        r.model() == JsonV::Obj(gpu_entries_to_json(m.deep_view())),
{
    let ghost target = gpu_entries_to_json(m.deep_view());
    let mut out: Vec<(String, JsonValue)> = Vec::new();
    let mut i: usize = 0;
    while i < m.len()
        invariant
            i <= m.len(),
            target == gpu_entries_to_json(m.deep_view()),
            obj_entries_model(out@) == target.take(i as int),
        decreases m.len() - i,
    {
        let pair = &m[i];
        let ghost prev = out@;
        out.push((pair.0.clone(), pair.1.to_json_value()));
        proof {
            assert(target.len() == m@.len());
            assert(obj_entries_model(prev).len() == prev.len());
            assert(prev.len() == i as int);
            assert(m.deep_view()[i as int] == (m@[i as int].0@, m@[i as int].1.deep_view()));
            assert forall|j: int| 0 <= j < i + 1 implies obj_entries_model(out@)[j]
                == target.take(i + 1)[j] by {
                if j < i as int {
                    assert(out@[j] == prev[j]);
                    assert(obj_entries_model(prev)[j] == target.take(i as int)[j]);
                }
            }
            assert(obj_entries_model(out@).len() == i + 1);
            assert(target.take(i + 1).len() == i + 1);
            assert(obj_entries_model(out@) =~= target.take(i + 1));
        }
        i += 1;
    }
    proof {
        assert(target.take(m@.len() as int) =~= target);
        lemma_obj_model(out);
    }
    JsonValue::Obj(out)
}

impl InstancesResponse {
    /// Encode the catalog response as its canonical JSON tree.
    pub fn to_json_value(&self) -> (r: JsonValue)
        ensures
            r.model() == self.deep_view().to_json(),
    {
        let mut entries: Vec<(String, JsonValue)> = Vec::new();
        entries.push(("cpu".to_owned(), encode_cpu_entries(&self.cpu)));
        entries.push(("gpu".to_owned(), encode_gpu_entries(&self.gpu)));
        entries.push(("resources".to_owned(), self.resources.to_json_value()));
        entries.push(("success".to_owned(), JsonValue::Bool(self.success)));
        proof {
            lemma_obj_model(entries);
            assert(obj_entries_model(entries@) =~= self.deep_view().to_json()->Obj_0);
        }
        JsonValue::Obj(entries)
    }
}

impl InstancesResponseV {
    /// The canonical JSON tree of the catalog response.
    pub open spec fn to_json(self) -> JsonV {
        JsonV::Obj(
            seq![
                ("cpu"@, JsonV::Obj(cpu_entries_to_json(self.cpu))),
                ("gpu"@, JsonV::Obj(gpu_entries_to_json(self.gpu))),
                ("resources"@, self.resources.to_json()),
                ("success"@, JsonV::Bool(self.success)),
            ],
        )
    }
}

/// Round trip of the catalog: decoding the canonical JSON tree of a
/// catalog response gives back exactly that response. Together with the
/// decoder's own contract this says the parser reconstructs from a valid
/// body a tree whose fields carry the body's literal values: whatever
/// catalog a body decodes to, re-encoding it and re-parsing yields the
/// same catalog.
pub proof fn lemma_catalog_round_trip(m: InstancesResponseV)
    ensures
        InstancesResponseV::of_json(m.to_json()) == Some(m),
{
    reveal_strlit("cpu");
    reveal_strlit("gpu");
    reveal_strlit("resources");
    reveal_strlit("success");
    let e = m.to_json()->Obj_0;
    assert(e[0] == ("cpu"@, JsonV::Obj(cpu_entries_to_json(m.cpu))));
    assert(e[1] == ("gpu"@, JsonV::Obj(gpu_entries_to_json(m.gpu))));
    assert(e[2] == ("resources"@, m.resources.to_json()));
    assert(e[3] == ("success"@, JsonV::Bool(m.success)));
    assert("cpu"@.len() == 3 && "gpu"@.len() == 3 && "resources"@.len() == 9 && "success"@.len()
        == 7);
    assert("cpu"@[0] == 'c' && "gpu"@[0] == 'g');
    lemma_field_of_first_match(e, "cpu"@, 0);
    lemma_field_of_first_match(e, "gpu"@, 1);
    lemma_field_of_first_match(e, "resources"@, 2);
    lemma_field_of_first_match(e, "success"@, 3);
    lemma_cpu_entries_round_trip(m.cpu);
    lemma_gpu_entries_round_trip(m.gpu);
    lemma_resources_round_trip(m.resources);
}

impl InstancesResponseV {
    /// The catalog response a JSON node denotes: an object with a `cpu`
    /// mapping, a `gpu` mapping, a `resources` record, and a `success`
    /// boolean. Unknown fields are ignored.
    pub open spec fn of_json(v: JsonV) -> Option<InstancesResponseV> {
        match v {
            JsonV::Obj(e) => {
                if field_of(e, "cpu"@) is Some && spec_cpu_map(field_of(e, "cpu"@)->Some_0) is Some
                    && field_of(e, "gpu"@) is Some && spec_gpu_map(
                    field_of(e, "gpu"@)->Some_0,
                ) is Some && field_of(e, "resources"@) is Some && ResourcesV::of_json(
                    field_of(e, "resources"@)->Some_0,
                ) is Some && spec_bool_field(e, "success"@) is Some {
                    Some(
                        InstancesResponseV {
                            cpu: spec_cpu_map(field_of(e, "cpu"@)->Some_0)->Some_0,
                            gpu: spec_gpu_map(field_of(e, "gpu"@)->Some_0)->Some_0,
                            resources: ResourcesV::of_json(
                                field_of(e, "resources"@)->Some_0,
                            )->Some_0,
                            success: spec_bool_field(e, "success"@)->Some_0,
                        },
                    )
                } else {
                    None
                }
            },
            _ => None,
        }
    }
}

impl InstancesResponse {
    /// Decode the full catalog response from a JSON node, rejecting a
    /// node that is not an object or misses a required field or gives it
    /// the wrong shape.
    pub fn from_json(v: &JsonValue) -> (r: Result<InstancesResponse, FetchError>)
        ensures
            match r {
                Ok(x) => InstancesResponseV::of_json(v.model()) == Some(x.deep_view()),
                Err(e) => InstancesResponseV::of_json(v.model()) is None && e is Schema,
            },
    {
        let entries = match v {
            JsonValue::Obj(entries) => entries,
            _ => {
                return Err(FetchError::schema("catalog: expected an object"));
            },
        };
        proof {
            lemma_obj_model(*entries);
        }
        let cpu_node = match get_field(entries, "cpu") {
            Ok(x) => x,
            Err(e) => return Err(e),
        };
        let cpu = match decode_cpu_map(cpu_node) {
            Ok(x) => x,
            Err(e) => return Err(e),
        };
        let gpu_node = match get_field(entries, "gpu") {
            Ok(x) => x,
            Err(e) => return Err(e),
        };
        let gpu = match decode_gpu_map(gpu_node) {
            Ok(x) => x,
            Err(e) => return Err(e),
        };
        let resources_node = match get_field(entries, "resources") {
            Ok(x) => x,
            Err(e) => return Err(e),
        };
        let resources = match Resources::from_json(resources_node) {
            Ok(x) => x,
            Err(e) => return Err(e),
        };
        let success = match get_bool(entries, "success") {
            Ok(b) => b,
            Err(e) => return Err(e),
        };
        Ok(InstancesResponse { cpu, gpu, resources, success })
    }
}

} // verus!
