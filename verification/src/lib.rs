//! A schema-driven CRUD engine.
//!
//! A client defines a data model at runtime by uploading a JSON Schema under a
//! chosen name; records of that model can then be created, read, updated and
//! deleted, with every write validated against the model's current schema
//! before it is stored. Compilation and checking of schemas is delegated to a
//! standards-compliant JSON Schema validator; this crate owns the registry of
//! named schemas, the per-model record store, and the validate-before-write
//! rule that ties them together.

pub mod ids;
pub mod json;
pub mod laws;
pub mod registry;
pub mod service;
pub mod store;
pub mod validation;
