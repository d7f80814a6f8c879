//! The data model: resources, findings and severities.

pub mod dbt;
pub mod finding;
pub mod severity;
