//! Source tables.

use vstd::prelude::*;
use crate::name_map::{text_map, NameMap};
use crate::text::{opt_text, texts};
use crate::types::dbt::resource::{DbtResource, RecordView, ResourceType};

verus! {

/// A source table: a table that the project reads and does not compute,
/// declared in a schema file under a source group.
#[derive(Debug, Clone)]
pub struct Source {
    pub name: String,
    pub source_name: String,
    pub description: Option<String>,
    pub tags: Vec<String>,
    pub tests: Vec<String>,
    pub meta: NameMap<String>,
    pub yaml_file: Option<String>,
    pub sql_file: Option<String>,
}

impl View for Source {
    type V = RecordView;

    open spec fn view(&self) -> RecordView {
        RecordView {
            kind: ResourceType::Source,
            name: self.name@,
            source_name: Some(self.source_name@),
            description: opt_text(self.description),
            tags: texts(self.tags@),
            tests: texts(self.tests@),
            columns: Seq::empty(),
            meta: text_map(self.meta@),
            materialized: None,
            sql_file: opt_text(self.sql_file),
            yaml_file: opt_text(self.yaml_file),
        }
    }
}

/// The record of a source table that holds nothing but its name and the name
/// of its group.
pub open spec fn bare_source(name: Seq<char>, source_name: Seq<char>) -> RecordView {
    RecordView {
        kind: ResourceType::Source,
        name,
        source_name: Some(source_name),
        description: None,
        tags: Seq::empty(),
        tests: Seq::empty(),
        columns: Seq::empty(),
        meta: Map::empty(),
        materialized: None,
        sql_file: None,
        yaml_file: None,
    }
}

impl Source {
    /// A source table that holds nothing but its name and the name of its
    /// group.
    pub fn new(name: String, source_name: String) -> (source: Source)
        ensures
            source@ == bare_source(name@, source_name@),
    {
        let source = Source {
            name,
            source_name,
            description: None,
            tags: Vec::new(),
            tests: Vec::new(),
            meta: NameMap::new(),
            yaml_file: None,
            sql_file: None,
        };
        proof {
            assert(texts(source.tags@) =~= Seq::empty());
            assert(texts(source.tests@) =~= Seq::empty());
            assert(text_map(source.meta@) =~= Map::empty());
        }
        source
    }

    /// The same source table with `description` as its description.
    pub fn with_description(self, description: String) -> (source: Source)
        ensures
            source@ == (RecordView { description: Some(description@), ..self@ }),
    {
        let mut source = self;
        source.description = Some(description);
        source
    }
}

impl DbtResource for Source {
    open spec fn record(&self) -> RecordView {
        self@
    }

    fn name(&self) -> (name: &str) {
        self.name.as_str()
    }

    fn resource_type(&self) -> (kind: ResourceType) {
        ResourceType::Source
    }

    fn description(&self) -> (description: &Option<String>) {
        &self.description
    }

    fn tags(&self) -> (tags: &Vec<String>) {
        &self.tags
    }

    fn tests(&self) -> (tests: &Vec<String>) {
        &self.tests
    }

    fn meta(&self) -> (meta: &NameMap<String>) {
        &self.meta
    }
}

} // verus!
