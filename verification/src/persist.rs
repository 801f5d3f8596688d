//! Persisted-data schema ownership: the canonical settings/session
//! schema, migration of the legacy plain-JSON files, and load outcomes
//! that never collapse a distinguishable failure into defaults.

pub mod schema;
