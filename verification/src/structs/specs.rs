use vstd::prelude::*;

use crate::error::FetchError;
use crate::json::{
    dec_str, get_bool, get_num, get_u32, lemma_field_of_first_match, lemma_obj_model,
    lemma_u32_dec_str, obj_entries_model, spec_bool_field, spec_num_field, spec_u32_field,
    u32_to_dec, JsonV, JsonValue,
};

verus! {

/// A `CpuSpecs` represents the specifications of a CPU instance.
#[derive(Debug, PartialEq, Eq)]
pub struct CpuSpecs {
    pub avx1: bool,
    pub avx2: bool,
    pub avx512: bool,
    pub gbps: u32,
    pub ram: u32,
}

impl DeepView for CpuSpecs {
    type V = CpuSpecs;

    open spec fn deep_view(&self) -> CpuSpecs {
        *self
    }
}

impl CpuSpecs {
    /// The CPU specification a JSON node denotes: an object with the five
    /// required fields, each of the right type. Unknown fields are
    /// ignored.
    pub open spec fn of_json(v: JsonV) -> Option<CpuSpecs> {
        match v {
            JsonV::Obj(e) => {
                if spec_bool_field(e, "avx1"@) is Some && spec_bool_field(e, "avx2"@) is Some
                    && spec_bool_field(e, "avx512"@) is Some && spec_u32_field(e, "gbps"@) is Some
                    && spec_u32_field(e, "ram"@) is Some {
                    Some(
                        CpuSpecs {
                            avx1: spec_bool_field(e, "avx1"@)->Some_0,
                            avx2: spec_bool_field(e, "avx2"@)->Some_0,
                            avx512: spec_bool_field(e, "avx512"@)->Some_0,
                            gbps: spec_u32_field(e, "gbps"@)->Some_0,
                            ram: spec_u32_field(e, "ram"@)->Some_0,
                        },
                    )
                } else {
                    None
                }
            },
            _ => None,
        }
    }

    /// Decode a CPU specification from a JSON node, rejecting a node that
    /// is not an object or misses a required field or gives it the wrong
    /// type.
    pub fn from_json(v: &JsonValue) -> (r: Result<CpuSpecs, FetchError>)
        ensures
            match r {
                Ok(x) => CpuSpecs::of_json(v.model()) == Some(x),
                Err(e) => CpuSpecs::of_json(v.model()) is None && e is Schema,
            },
    {
        let entries = match v {
            JsonValue::Obj(entries) => entries,
            _ => {
                return Err(FetchError::schema("cpu specs: expected an object"));
            },
        };
        proof {
            lemma_obj_model(*entries);
        }
        let avx1 = match get_bool(entries, "avx1") {
            Ok(b) => b,
            Err(e) => return Err(e),
        };
        let avx2 = match get_bool(entries, "avx2") {
            Ok(b) => b,
            Err(e) => return Err(e),
        };
        let avx512 = match get_bool(entries, "avx512") {
            Ok(b) => b,
            Err(e) => return Err(e),
        };
        let gbps = match get_u32(entries, "gbps") {
            Ok(n) => n,
            Err(e) => return Err(e),
        };
        let ram = match get_u32(entries, "ram") {
            Ok(n) => n,
            Err(e) => return Err(e),
        };
        Ok(CpuSpecs { avx1, avx2, avx512, gbps, ram })
    }
}

impl CpuSpecs {
    /// The canonical JSON tree of a CPU specification.
    pub open spec fn to_json(self) -> JsonV {
        JsonV::Obj(
            seq![
                ("avx1"@, JsonV::Bool(self.avx1)),
                ("avx2"@, JsonV::Bool(self.avx2)),
                ("avx512"@, JsonV::Bool(self.avx512)),
                ("gbps"@, JsonV::Num(dec_str(self.gbps as nat))),
                ("ram"@, JsonV::Num(dec_str(self.ram as nat))),
            ],
        )
    }
}

impl CpuSpecs {
    /// Encode this specification as its canonical JSON tree.
    pub fn to_json_value(&self) -> (r: JsonValue)
        ensures
            r.model() == self.to_json(),
    {
        let mut entries: Vec<(String, JsonValue)> = Vec::new();
        entries.push(("avx1".to_owned(), JsonValue::Bool(self.avx1)));
        entries.push(("avx2".to_owned(), JsonValue::Bool(self.avx2)));
        entries.push(("avx512".to_owned(), JsonValue::Bool(self.avx512)));
        entries.push(("gbps".to_owned(), JsonValue::Num(u32_to_dec(self.gbps))));
        entries.push(("ram".to_owned(), JsonValue::Num(u32_to_dec(self.ram))));
        proof {
            lemma_obj_model(entries);
            assert(obj_entries_model(entries@) =~= self.to_json()->Obj_0);
        }
        JsonValue::Obj(entries)
    }
}

/// Decoding the canonical JSON tree of a CPU specification gives back
/// exactly that specification.
pub proof fn lemma_cpu_specs_round_trip(m: CpuSpecs)
    ensures
        CpuSpecs::of_json(m.to_json()) == Some(m),
{
    reveal_strlit("avx1");
    reveal_strlit("avx2");
    reveal_strlit("avx512");
    reveal_strlit("gbps");
    reveal_strlit("ram");
    let e = m.to_json()->Obj_0;
    assert(e[0] == ("avx1"@, JsonV::Bool(m.avx1)));
    assert(e[1] == ("avx2"@, JsonV::Bool(m.avx2)));
    assert(e[2] == ("avx512"@, JsonV::Bool(m.avx512)));
    assert(e[3] == ("gbps"@, JsonV::Num(dec_str(m.gbps as nat))));
    assert(e[4] == ("ram"@, JsonV::Num(dec_str(m.ram as nat))));
    assert("avx1"@.len() == 4 && "avx2"@.len() == 4 && "avx512"@.len() == 6 && "gbps"@.len() == 4
        && "ram"@.len() == 3);
    assert("avx1"@[3] == '1' && "avx2"@[3] == '2' && "avx1"@[0] == 'a' && "avx2"@[0] == 'a'
        && "gbps"@[0] == 'g');
    lemma_field_of_first_match(e, "avx1"@, 0);
    lemma_field_of_first_match(e, "avx2"@, 1);
    lemma_field_of_first_match(e, "avx512"@, 2);
    lemma_field_of_first_match(e, "gbps"@, 3);
    lemma_field_of_first_match(e, "ram"@, 4);
    lemma_u32_dec_str(m.gbps);
    lemma_u32_dec_str(m.ram);
}

/// A `GpuSpecs` represents the specifications of a GPU instance. The
/// single-precision performance is a decimal number kept as its canonical
/// text.
#[derive(Debug, PartialEq, Eq)]
pub struct GpuSpecs {
    pub cuda_cores: u32,
    pub gbps: u32,
    pub nvlink: bool,
    pub single_precision_performance: String,
    pub vram: u32,
}

/// The model of a [`GpuSpecs`].
pub struct GpuSpecsV {
    pub cuda_cores: u32,
    pub gbps: u32,
    pub nvlink: bool,
    pub single_precision_performance: Seq<char>,
    pub vram: u32,
}

impl DeepView for GpuSpecs {
    type V = GpuSpecsV;

    open spec fn deep_view(&self) -> GpuSpecsV {
        GpuSpecsV {
            cuda_cores: self.cuda_cores,
            gbps: self.gbps,
            nvlink: self.nvlink,
            single_precision_performance: self.single_precision_performance@,
            vram: self.vram,
        }
    }
}

impl GpuSpecsV {
    /// The GPU specification a JSON node denotes: an object with the five
    /// required fields, each of the right type. Unknown fields are
    /// ignored.
    pub open spec fn of_json(v: JsonV) -> Option<GpuSpecsV> {
        match v {
            JsonV::Obj(e) => {
                if spec_u32_field(e, "cudaCores"@) is Some && spec_u32_field(e, "gbps"@) is Some
                    && spec_bool_field(e, "nvlink"@) is Some && spec_num_field(
                    e,
                    "singlePrecisionPerformance"@,
                ) is Some && spec_u32_field(e, "vram"@) is Some {
                    Some(
                        GpuSpecsV {
                            cuda_cores: spec_u32_field(e, "cudaCores"@)->Some_0,
                            gbps: spec_u32_field(e, "gbps"@)->Some_0,
                            nvlink: spec_bool_field(e, "nvlink"@)->Some_0,
                            single_precision_performance: spec_num_field(
                                e,
                                "singlePrecisionPerformance"@,
                            )->Some_0,
                            vram: spec_u32_field(e, "vram"@)->Some_0,
                        },
                    )
                } else {
                    None
                }
            },
            _ => None,
        }
    }
}

impl GpuSpecsV {
    /// The canonical JSON tree of a GPU specification.
    pub open spec fn to_json(self) -> JsonV {
        JsonV::Obj(
            seq![
                ("cudaCores"@, JsonV::Num(dec_str(self.cuda_cores as nat))),
                ("gbps"@, JsonV::Num(dec_str(self.gbps as nat))),
                ("nvlink"@, JsonV::Bool(self.nvlink)),
                ("singlePrecisionPerformance"@, JsonV::Num(self.single_precision_performance)),
                ("vram"@, JsonV::Num(dec_str(self.vram as nat))),
            ],
        )
    }
}

impl GpuSpecs {
    /// Encode this specification as its canonical JSON tree.
    pub fn to_json_value(&self) -> (r: JsonValue)
        ensures
            r.model() == self.deep_view().to_json(),
    {
        let mut entries: Vec<(String, JsonValue)> = Vec::new();
        entries.push(("cudaCores".to_owned(), JsonValue::Num(u32_to_dec(self.cuda_cores))));
        entries.push(("gbps".to_owned(), JsonValue::Num(u32_to_dec(self.gbps))));
        entries.push(("nvlink".to_owned(), JsonValue::Bool(self.nvlink)));
        entries.push(
            (
                "singlePrecisionPerformance".to_owned(),
                JsonValue::Num(self.single_precision_performance.clone()),
            ),
        );
        entries.push(("vram".to_owned(), JsonValue::Num(u32_to_dec(self.vram))));
        proof {
            lemma_obj_model(entries);
            assert(obj_entries_model(entries@) =~= self.deep_view().to_json()->Obj_0);
        }
        JsonValue::Obj(entries)
    }
}

/// Decoding the canonical JSON tree of a GPU specification gives back
/// exactly that specification.
pub proof fn lemma_gpu_specs_round_trip(m: GpuSpecsV)
    ensures
        GpuSpecsV::of_json(m.to_json()) == Some(m),
{
    reveal_strlit("cudaCores");
    reveal_strlit("gbps");
    reveal_strlit("nvlink");
    reveal_strlit("singlePrecisionPerformance");
    reveal_strlit("vram");
    let e = m.to_json()->Obj_0;
    assert(e[0] == ("cudaCores"@, JsonV::Num(dec_str(m.cuda_cores as nat))));
    assert(e[1] == ("gbps"@, JsonV::Num(dec_str(m.gbps as nat))));
    assert(e[2] == ("nvlink"@, JsonV::Bool(m.nvlink)));
    assert(e[3] == ("singlePrecisionPerformance"@, JsonV::Num(m.single_precision_performance)));
    assert(e[4] == ("vram"@, JsonV::Num(dec_str(m.vram as nat))));
    assert("cudaCores"@.len() == 9 && "gbps"@.len() == 4 && "nvlink"@.len() == 6
        && "singlePrecisionPerformance"@.len() == 26 && "vram"@.len() == 4);
    assert("gbps"@[0] == 'g' && "vram"@[0] == 'v');
    lemma_field_of_first_match(e, "cudaCores"@, 0);
    lemma_field_of_first_match(e, "gbps"@, 1);
    lemma_field_of_first_match(e, "nvlink"@, 2);
    lemma_field_of_first_match(e, "singlePrecisionPerformance"@, 3);
    lemma_field_of_first_match(e, "vram"@, 4);
    lemma_u32_dec_str(m.cuda_cores);
    lemma_u32_dec_str(m.gbps);
    lemma_u32_dec_str(m.vram);
}

impl GpuSpecs {
    /// Decode a GPU specification from a JSON node, rejecting a node that
    /// is not an object or misses a required field or gives it the wrong
    /// type.
    pub fn from_json(v: &JsonValue) -> (r: Result<GpuSpecs, FetchError>)
        ensures
            match r {
                Ok(x) => GpuSpecsV::of_json(v.model()) == Some(x.deep_view()),
                Err(e) => GpuSpecsV::of_json(v.model()) is None && e is Schema,
            },
    {
        let entries = match v {
            JsonValue::Obj(entries) => entries,
            _ => {
                return Err(FetchError::schema("gpu specs: expected an object"));
            },
        };
        proof {
            lemma_obj_model(*entries);
        }
        let cuda_cores = match get_u32(entries, "cudaCores") {
            Ok(n) => n,
            Err(e) => return Err(e),
        };
        let gbps = match get_u32(entries, "gbps") {
            Ok(n) => n,
            Err(e) => return Err(e),
        };
        let nvlink = match get_bool(entries, "nvlink") {
            Ok(b) => b,
            Err(e) => return Err(e),
        };
        let single_precision_performance = match get_num(entries, "singlePrecisionPerformance") {
            Ok(s) => s,
            Err(e) => return Err(e),
        };
        let vram = match get_u32(entries, "vram") {
            Ok(n) => n,
            Err(e) => return Err(e),
        };
        Ok(GpuSpecs { cuda_cores, gbps, nvlink, single_precision_performance, vram })
    }
}

} // verus!
