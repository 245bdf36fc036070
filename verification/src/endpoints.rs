pub mod instances;
