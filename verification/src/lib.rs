//! Derivation of an OpenAPI-style document from a tree of typed route
//! definitions: structural schemas are derived from type descriptors,
//! deduplicated in a shared registry, combined into per-endpoint operations,
//! and assembled into one document whose internal references all resolve.

pub mod deriver;
pub mod document;
pub mod openapi;
pub mod operation;
pub mod registry;
pub mod route;
pub mod schema;
pub mod serialize;
