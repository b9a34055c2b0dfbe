//! Credit data simulator: the verified core of a multi-service credit data
//! pipeline simulator (core banking records, field mappings, validation
//! rulepacks and a regulator submission endpoint).

pub mod clock;
pub mod common;
pub mod config;
pub mod core_banking;
pub mod credit;
pub mod engine;
pub mod json;
pub mod mapping_service;
pub mod random;
pub mod regulator_endpoint;
pub mod rulepack_service;
pub mod text;

use vstd::prelude::*;

verus! {

} // verus!
