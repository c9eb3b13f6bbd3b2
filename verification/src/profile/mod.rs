//! Per-vendor profile bundles.
//!
//! Each vendor module owns its property-name prefixes, its event-level
//! extension bundle and an `owns_property` test. Properties that match a
//! vendor prefix but are not typed land in the bundle's `unrecognized`
//! slot.

pub mod google;
pub mod icloud;
pub mod microsoft;
