use tensordock_rs::endpoints::instances::parse_raw_instances_body;
use tensordock_rs::error::FetchError;
use tensordock_rs::structs::global_resources::GlobalResources;
use tensordock_rs::structs::gpu_instances::{GpuInstances, GpuInstancesDescription};
use tensordock_rs::structs::instance::{CpuInstance, GpuInstance};
use tensordock_rs::structs::instances_response::InstancesResponse;
use tensordock_rs::structs::location::Location;
use tensordock_rs::structs::resources::Resources;
use tensordock_rs::structs::specs::{CpuSpecs, GpuSpecs};
use tensordock_rs::structs::storage_option::StorageOption;

fn sample_body() -> &'static str {
    r#"
{
  "cpu": {
    "AMD_EPYC_MILAN": {
      "cost": {
        "costCommit1Yr": 282.51,
        "costCommit2Yr": 452.02,
        "costHr": 0.043
      },
      "locations": [
        "na-us-las-1",
        "na-us-nyc-1",
        "na-us-chi-1"
      ],
      "name": "AMD EPYC Milan",
      "restrictions": {
        "maxMultiples": 44,
        "maxRAMPerInstance": 176
      },
      "specs": {
        "avx1": true,
        "avx2": true,
        "avx512": false,
        "gbps": 10,
        "ram": 4
      }
    }
  },
  "gpu": {
    "A100_40GB": {
      "cost": {
        "costCommit1Yr": 14913.9,
        "costCommit2Yr": 23862.24,
        "costHr": 2.27
      },
      "locations": [
        "na-us-chi-1"
      ],
      "name": "NVIDIA A100 40GB for PCIE",
      "restrictions": {
        "maxGPUsPerInstance": 8,
        "maxRAMPerInstance": 492,
        "maxRAMPervCPU": 24,
        "maxvCPUsPerGPU": 18,
        "maxvCPUsPerInstance": 94,
        "minRamPervCPU": 1,
        "minvCPUsPerGPU": 1
      },
      "specs": {
        "cudaCores": 6912,
        "gbps": 10,
        "nvlink": false,
        "singlePrecisionPerformance": 19.5,
        "vram": 40
      }
    }
  },
  "resources": {
    "global": {
      "locations": {
        "na-us-bos-1": {
          "connectivity": {},
          "deployable": false,
          "name": "Boston DC 1",
          "reservable": true,
          "timezone": "UTC-5"
        }
      },
      "storage": {
        "io1": {
          "costHr": 0.0001,
          "description": "Perfomance-optimized NVMe SSD",
          "locations": [
            "na-us-bos-1",
            "na-us-bos-2",
            "na-us-chi-1",
            "na-us-las-1",
            "na-us-nyc-1",
            "oc-sg-sin-1"
          ],
          "unit": "per allocated GB of storage"
        }
      }
    },
    "gpu_instances": {
      "ram": {
        "costHr": 0.005,
        "unit": "per allocated GB of RAM"
      },
      "vcpu": {
        "costHr": 0.01,
        "unit": "per allocated vCPU"
      }
    }
  },
  "success": true
}
"#
}

fn pairs(items: Vec<(&str, &str)>) -> Vec<(String, String)> {
    items.into_iter().map(|(k, v)| (String::from(k), String::from(v))).collect()
}

fn bounds(items: Vec<(&str, u32)>) -> Vec<(String, u32)> {
    items.into_iter().map(|(k, v)| (String::from(k), v)).collect()
}

fn names(items: Vec<&str>) -> Vec<String> {
    items.into_iter().map(String::from).collect()
}

fn expected_catalog() -> InstancesResponse {
    InstancesResponse {
        cpu: vec![(
            String::from("AMD_EPYC_MILAN"),
            CpuInstance {
                name: String::from("AMD EPYC Milan"),
                cost: pairs(vec![
                    ("costCommit1Yr", "282.51"),
                    ("costCommit2Yr", "452.02"),
                    ("costHr", "0.043"),
                ]),
                locations: names(vec!["na-us-las-1", "na-us-nyc-1", "na-us-chi-1"]),
                restrictions: bounds(vec![("maxMultiples", 44), ("maxRAMPerInstance", 176)]),
                specs: CpuSpecs {
                    avx1: true,
                    avx2: true,
                    avx512: false,
                    gbps: 10,
                    ram: 4,
                },
            },
        )],
        gpu: vec![(
            String::from("A100_40GB"),
            GpuInstance {
                name: String::from("NVIDIA A100 40GB for PCIE"),
                cost: pairs(vec![
                    ("costCommit1Yr", "14913.9"),
                    ("costCommit2Yr", "23862.24"),
                    ("costHr", "2.27"),
                ]),
                locations: names(vec!["na-us-chi-1"]),
                restrictions: bounds(vec![
                    ("maxGPUsPerInstance", 8),
                    ("maxRAMPerInstance", 492),
                    ("maxRAMPervCPU", 24),
                    ("maxvCPUsPerGPU", 18),
                    ("maxvCPUsPerInstance", 94),
                    ("minRamPervCPU", 1),
                    ("minvCPUsPerGPU", 1),
                ]),
                specs: GpuSpecs {
                    cuda_cores: 6912,
                    gbps: 10,
                    nvlink: false,
                    single_precision_performance: String::from("19.5"),
                    vram: 40,
                },
            },
        )],
        resources: Resources {
            global: GlobalResources {
                locations: vec![(
                    String::from("na-us-bos-1"),
                    Location {
                        name: String::from("Boston DC 1"),
                        connectivity: vec![],
                        deployable: false,
                        reservable: true,
                        timezone: String::from("UTC-5"),
                    },
                )],
                storage: vec![(
                    String::from("io1"),
                    StorageOption {
                        cost_hr: String::from("0.0001"),
                        description: String::from("Perfomance-optimized NVMe SSD"),
                        locations: names(vec![
                            "na-us-bos-1",
                            "na-us-bos-2",
                            "na-us-chi-1",
                            "na-us-las-1",
                            "na-us-nyc-1",
                            "oc-sg-sin-1",
                        ]),
                        unit: String::from("per allocated GB of storage"),
                    },
                )],
            },
            gpu_instances: GpuInstances {
                ram: GpuInstancesDescription {
                    cost_hr: String::from("0.005"),
                    unit: String::from("per allocated GB of RAM"),
                },
                vcpu: GpuInstancesDescription {
                    cost_hr: String::from("0.01"),
                    unit: String::from("per allocated vCPU"),
                },
            },
        },
        success: true,
    }
}

#[test]
fn test_basic_parse() {
    let result = parse_raw_instances_body(sample_body());
    assert_eq!(result.unwrap(), expected_catalog());
}

#[test]
fn catalog_round_trip() {
    let parsed = parse_raw_instances_body(sample_body()).unwrap();
    let encoded = parsed.to_json_value();
    let reparsed = InstancesResponse::from_json(&encoded).unwrap();
    assert_eq!(reparsed, parsed);
}

#[test]
fn missing_required_field_is_schema_error() {
    let body = r#"{"cpu": {"X": {"cost": {}, "locations": [], "restrictions": {},
        "specs": {"avx1": true, "avx2": true, "avx512": false, "gbps": 10, "ram": 4}}},
        "gpu": {}, "resources": {"global": {"locations": {}, "storage": {}},
        "gpu_instances": {"ram": {"costHr": 0.005, "unit": "u"},
        "vcpu": {"costHr": 0.01, "unit": "u"}}}, "success": true}"#;
    let result = parse_raw_instances_body(body);
    assert!(matches!(result, Err(FetchError::Schema(_))));
}

#[test]
fn wrong_field_type_is_schema_error() {
    let body = r#"{"cpu": {}, "gpu": {}, "resources": {"global": {"locations": {},
        "storage": {}}, "gpu_instances": {"ram": {"costHr": 0.005, "unit": "u"},
        "vcpu": {"costHr": 0.01, "unit": "u"}}}, "success": "yes"}"#;
    let result = parse_raw_instances_body(body);
    assert!(matches!(result, Err(FetchError::Schema(_))));
}

#[test]
fn invalid_json_is_schema_error() {
    let result = parse_raw_instances_body("not json at all {");
    assert!(matches!(result, Err(FetchError::Schema(_))));
}

#[test]
fn empty_catalog_maps_parse_to_empty() {
    let body = r#"{"cpu": {}, "gpu": {}, "resources": {"global": {"locations": {},
        "storage": {}}, "gpu_instances": {"ram": {"costHr": 0.005, "unit": "u"},
        "vcpu": {"costHr": 0.01, "unit": "u"}}}, "success": true}"#;
    let result = parse_raw_instances_body(body).unwrap();
    assert!(result.cpu.is_empty());
    assert!(result.gpu.is_empty());
    assert!(result.resources.global.locations.is_empty());
    assert!(result.resources.global.storage.is_empty());
    assert!(result.success);
}

#[test]
fn empty_connectivity_parses_to_empty_mapping() {
    let body = r#"{"cpu": {}, "gpu": {}, "resources": {"global": {"locations":
        {"loc-1": {"connectivity": {}, "deployable": true, "name": "L",
        "reservable": false, "timezone": "UTC+1"}}, "storage": {}},
        "gpu_instances": {"ram": {"costHr": 0.005, "unit": "u"},
        "vcpu": {"costHr": 0.01, "unit": "u"}}}, "success": true}"#;
    let result = parse_raw_instances_body(body).unwrap();
    assert_eq!(result.resources.global.locations.len(), 1);
    assert_eq!(result.resources.global.locations[0].0, String::from("loc-1"));
    assert!(result.resources.global.locations[0].1.connectivity.is_empty());
}

#[test]
fn negative_unsigned_bound_is_schema_error() {
    let body = r#"{"cpu": {"X": {"cost": {}, "locations": [], "name": "X",
        "restrictions": {"maxMultiples": -3},
        "specs": {"avx1": true, "avx2": true, "avx512": false, "gbps": 10, "ram": 4}}},
        "gpu": {}, "resources": {"global": {"locations": {}, "storage": {}},
        "gpu_instances": {"ram": {"costHr": 0.005, "unit": "u"},
        "vcpu": {"costHr": 0.01, "unit": "u"}}}, "success": true}"#;
    let result = parse_raw_instances_body(body);
    assert!(matches!(result, Err(FetchError::Schema(_))));
}

#[test]
fn fractional_unsigned_bound_is_schema_error() {
    let body = r#"{"cpu": {"X": {"cost": {}, "locations": [], "name": "X",
        "restrictions": {"maxMultiples": 3.5},
        "specs": {"avx1": true, "avx2": true, "avx512": false, "gbps": 10, "ram": 4}}},
        "gpu": {}, "resources": {"global": {"locations": {}, "storage": {}},
        "gpu_instances": {"ram": {"costHr": 0.005, "unit": "u"},
        "vcpu": {"costHr": 0.01, "unit": "u"}}}, "success": true}"#;
    let result = parse_raw_instances_body(body);
    assert!(matches!(result, Err(FetchError::Schema(_))));
}

#[test]
fn oversized_unsigned_bound_is_schema_error() {
    let body = r#"{"cpu": {"X": {"cost": {}, "locations": [], "name": "X",
        "restrictions": {"maxMultiples": 4294967296},
        "specs": {"avx1": true, "avx2": true, "avx512": false, "gbps": 10, "ram": 4}}},
        "gpu": {}, "resources": {"global": {"locations": {}, "storage": {}},
        "gpu_instances": {"ram": {"costHr": 0.005, "unit": "u"},
        "vcpu": {"costHr": 0.01, "unit": "u"}}}, "success": true}"#;
    let result = parse_raw_instances_body(body);
    assert!(matches!(result, Err(FetchError::Schema(_))));
}

#[test]
fn unknown_fields_are_ignored() {
    let body = r#"{"cpu": {}, "gpu": {}, "extra": 5, "resources": {"global":
        {"locations": {}, "storage": {}}, "gpu_instances":
        {"ram": {"costHr": 0.005, "unit": "u"},
        "vcpu": {"costHr": 0.01, "unit": "u"}}}, "success": false}"#;
    let result = parse_raw_instances_body(body).unwrap();
    assert!(!result.success);
}

#[test]
fn schema_error_carries_message() {
    let err = parse_raw_instances_body("[1, 2]").unwrap_err();
    match err {
        FetchError::Schema(_) => {},
        FetchError::Transport(_) => panic!("expected a schema error"),
    }
}

#[test]
fn transport_error_is_distinct_kind() {
    let err = FetchError::Transport(String::from("connection refused"));
    assert_eq!(err.message(), &String::from("connection refused"));
    assert_ne!(err, FetchError::Schema(String::from("connection refused")));
}
