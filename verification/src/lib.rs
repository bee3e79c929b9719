//! Generic CRUD-controller core for an admin-panel backend.
//!
//! This crate holds the resource-independent layer that every concrete
//! controller reuses: a field cache that whitelists submitted data, a
//! lookup cache for id-to-label display values, and the fixed pipelines
//! behind the index, edit, save and delete actions. Routing, templating
//! and SQL execution are collaborators that live outside this crate;
//! they hand plain values in and take plain values back.

pub mod controller;
pub mod fields;
pub mod ids;
pub mod lookup;
pub mod model;
pub mod response;
