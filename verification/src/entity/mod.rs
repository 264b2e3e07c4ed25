//! Registries that hand out identifiers for the items they hold.
pub mod monotonic;
