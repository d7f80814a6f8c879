//! Canonical records: one per resource, whatever its kind.

use vstd::prelude::*;
use crate::name_map::NameMap;
use crate::types::dbt::model::Model;
use crate::types::dbt::resource::{DbtResource, RecordView, ResourceType};
use crate::types::dbt::source::Source;

verus! {

/// A canonical record: a computed model or a source table.
#[derive(Debug, Clone)]
pub enum Resource {
    Model(Model),
    Source(Source),
}

impl View for Resource {
    type V = RecordView;

    open spec fn view(&self) -> RecordView {
        match self {
            Resource::Model(model) => model@,
            Resource::Source(source) => source@,
        }
    }
}

impl Resource {
    /// The file that defines the resource, if one does.
    pub fn sql_file(&self) -> (file: &Option<String>)
        ensures
            crate::text::opt_text(*file) == self@.sql_file,
    {
        match self {
            Resource::Model(model) => &model.sql_file,
            Resource::Source(source) => &source.sql_file,
        }
    }

    /// The file that describes the resource, if one does.
    pub fn yaml_file(&self) -> (file: &Option<String>)
        ensures
            crate::text::opt_text(*file) == self@.yaml_file,
    {
        match self {
            Resource::Model(model) => &model.yaml_file,
            Resource::Source(source) => &source.yaml_file,
        }
    }
}

impl DbtResource for Resource {
    open spec fn record(&self) -> RecordView {
        self@
    }

    fn name(&self) -> (name: &str) {
        match self {
            Resource::Model(model) => model.name.as_str(),
            Resource::Source(source) => source.name.as_str(),
        }
    }

    fn resource_type(&self) -> (kind: ResourceType) {
        match self {
            Resource::Model(_) => ResourceType::Model,
            Resource::Source(_) => ResourceType::Source,
        }
    }

    fn description(&self) -> (description: &Option<String>) {
        match self {
            Resource::Model(model) => &model.description,
            Resource::Source(source) => &source.description,
        }
    }

    fn tags(&self) -> (tags: &Vec<String>) {
        match self {
            Resource::Model(model) => &model.tags,
            Resource::Source(source) => &source.tags,
        }
    }

    fn tests(&self) -> (tests: &Vec<String>) {
        match self {
            Resource::Model(model) => &model.tests,
            Resource::Source(source) => &source.tests,
        }
    }

    fn meta(&self) -> (meta: &NameMap<String>) {
        match self {
            Resource::Model(model) => &model.meta,
            Resource::Source(source) => &source.meta,
        }
    }
}

} // verus!
