//! Conversion between a tab-separated entity-mapping table and the legacy
//! line-oriented compendium format, plus the decision logic of the two
//! streaming line filters that prepare compendium and conflation data.

pub mod convert;
pub mod filters;
pub mod json_probe;
pub mod laws;
pub mod serialize;
pub mod table;
pub mod text;
pub mod types;
