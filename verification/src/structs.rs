pub mod global_resources;
pub mod gpu_instances;
pub mod instance;
pub mod instances_response;
pub mod location;
pub mod resources;
pub mod specs;
pub mod storage_option;
