//! Computed models.

use vstd::prelude::*;
use crate::name_map::{text_map, NameMap};
use crate::text::{opt_text, texts};
use crate::types::dbt::resource::{column_views, Column, DbtResource, RecordView, ResourceType};

verus! {

/// A computed model: a resource that a transformation file defines, a schema
/// file describes, or both.
#[derive(Debug, Clone)]
pub struct Model {
    pub name: String,
    pub description: Option<String>,
    pub tags: Vec<String>,
    pub tests: Vec<String>,
    pub meta: NameMap<String>,
    pub materialized: Option<String>,
    pub sql_file: Option<String>,
    pub yaml_file: Option<String>,
    pub columns: Vec<Column>,
}

impl View for Model {
    type V = RecordView;

    open spec fn view(&self) -> RecordView {
        RecordView {
            kind: ResourceType::Model,
            name: self.name@,
            source_name: None,
            description: opt_text(self.description),
            tags: texts(self.tags@),
            tests: texts(self.tests@),
            columns: column_views(self.columns@),
            meta: text_map(self.meta@),
            materialized: opt_text(self.materialized),
            sql_file: opt_text(self.sql_file),
            yaml_file: opt_text(self.yaml_file),
        }
    }
}

/// The record of a model that holds nothing but its name.
pub open spec fn bare_model(name: Seq<char>) -> RecordView {
    RecordView {
        kind: ResourceType::Model,
        name,
        source_name: None,
        description: None,
        tags: Seq::empty(),
        tests: Seq::empty(),
        columns: Seq::empty(),
        meta: Map::empty(),
        materialized: None,
        sql_file: None,
        yaml_file: None,
    }
}

impl Model {
    /// A model that holds nothing but its name.
    pub fn new(name: String) -> (model: Model)
        ensures
            model@ == bare_model(name@),
    {
        let model = Model {
            name,
            description: None,
            tags: Vec::new(),
            tests: Vec::new(),
            meta: NameMap::new(),
            materialized: None,
            sql_file: None,
            yaml_file: None,
            columns: Vec::new(),
        };
        proof {
            assert(texts(model.tags@) =~= Seq::empty());
            assert(texts(model.tests@) =~= Seq::empty());
            assert(column_views(model.columns@) =~= Seq::empty());
            assert(text_map(model.meta@) =~= Map::empty());
        }
        model
    }

    /// The same model with `description` as its description.
    pub fn with_description(self, description: String) -> (model: Model)
        ensures
            model@ == (RecordView { description: Some(description@), ..self@ }),
    {
        let mut model = self;
        model.description = Some(description);
        model
    }
}

impl DbtResource for Model {
    open spec fn record(&self) -> RecordView {
        self@
    }

    fn name(&self) -> (name: &str) {
        self.name.as_str()
    }

    fn resource_type(&self) -> (kind: ResourceType) {
        ResourceType::Model
    }

    fn description(&self) -> (description: &Option<String>) {
        &self.description
    }

    fn tags(&self) -> (tags: &Vec<String>) {
        &self.tags
    }

    fn tests(&self) -> (tests: &Vec<String>) {
        &self.tests
    }

    fn meta(&self) -> (meta: &NameMap<String>) {
        &self.meta
    }
}

} // verus!
