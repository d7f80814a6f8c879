//! The resources of a project.

pub mod model;
pub mod record;
pub mod resource;
pub mod source;

pub use model::Model;
pub use record::Resource;
pub use resource::{Column, DbtResource, ResourceType};
pub use source::Source;
