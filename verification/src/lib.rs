//! Verified decision logic of the r2e procedural macros: attribute reading,
//! naming conventions, type classification and the validation rules the
//! macros apply before they emit code.

pub mod api_error;
pub mod attrs;
pub mod bean;
pub mod codegen;
pub mod deco;
pub mod derives;
pub mod config_props;
pub mod controller;
pub mod crate_paths;
pub mod entry;
pub mod extract;
pub mod feature_module;
pub mod fga;
pub mod grpc;
pub mod field_resolver;
pub mod multipart;
pub mod naming;
pub mod precise_capture;
pub mod producer;
pub mod params;
pub mod route_meta;
pub mod service;
pub mod sig;
pub mod test_suite;
pub mod text;
pub mod transverse;
pub mod types;
