//! The kinds of resource and what every resource offers.

use vstd::prelude::*;
use crate::name_map::{text_map, NameMap};
use crate::text::{
    clone_opt_text, clone_texts, lowercase, opt_text, str_eq, texts, to_lowercase,
};

verus! {

/// The kind of a resource.
#[derive(Debug, Clone, Copy, PartialEq, Eq, Hash, Structural)]
pub enum ResourceType {
    Model,
    Source,
    Snapshot,
    Seed,
    Macro,
    Exposure,
    Metric,
}

impl ResourceType {
    /// The singular lowercase name of a kind.
    pub open spec fn name(self) -> Seq<char> {
        match self {
            ResourceType::Model => "model"@,
            ResourceType::Source => "source"@,
            ResourceType::Snapshot => "snapshot"@,
            ResourceType::Seed => "seed"@,
            ResourceType::Exposure => "exposure"@,
            ResourceType::Macro => "macro"@,
            ResourceType::Metric => "metric"@,
        }
    }

    /// The kind that an exact lowercase name, singular or plural, stands for.
    pub open spec fn named(s: Seq<char>) -> Option<ResourceType> {
        if s == "model"@ || s == "models"@ {
            Some(ResourceType::Model)
        } else if s == "source"@ || s == "sources"@ {
            Some(ResourceType::Source)
        } else if s == "snapshot"@ || s == "snapshots"@ {
            Some(ResourceType::Snapshot)
        } else if s == "seed"@ || s == "seeds"@ {
            Some(ResourceType::Seed)
        } else if s == "exposure"@ || s == "exposures"@ {
            Some(ResourceType::Exposure)
        } else if s == "macro"@ || s == "macros"@ {
            Some(ResourceType::Macro)
        } else if s == "metric"@ || s == "metrics"@ {
            Some(ResourceType::Metric)
        } else {
            None
        }
    }

    /// Every kind, in the order of declaration.
    pub open spec fn every() -> Seq<ResourceType> {
        seq![
            ResourceType::Model,
            ResourceType::Source,
            ResourceType::Snapshot,
            ResourceType::Seed,
            ResourceType::Macro,
            ResourceType::Exposure,
            ResourceType::Metric,
        ]
    }

    /// Reads a kind from its exact lowercase name, singular or plural.
    pub fn from_lowercase(s: &str) -> (r: Option<ResourceType>)
        ensures
            r == ResourceType::named(s@),
    {
        if str_eq(s, "model") || str_eq(s, "models") {
            Some(ResourceType::Model)
        } else if str_eq(s, "source") || str_eq(s, "sources") {
            Some(ResourceType::Source)
        } else if str_eq(s, "snapshot") || str_eq(s, "snapshots") {
            Some(ResourceType::Snapshot)
        } else if str_eq(s, "seed") || str_eq(s, "seeds") {
            Some(ResourceType::Seed)
        } else if str_eq(s, "exposure") || str_eq(s, "exposures") {
            Some(ResourceType::Exposure)
        } else if str_eq(s, "macro") || str_eq(s, "macros") {
            Some(ResourceType::Macro)
        } else if str_eq(s, "metric") || str_eq(s, "metrics") {
            Some(ResourceType::Metric)
        } else {
            None
        }
    }

    /// Reads a kind from its name, singular or plural, whatever the case of
    /// its letters.
    pub fn from_str(s: &str) -> (r: Option<ResourceType>)
        ensures
            r == ResourceType::named(lowercase(s@)),
    {
        let lower = to_lowercase(s);
        ResourceType::from_lowercase(lower.as_str())
    }

    /// The singular lowercase name of the kind.
    pub fn as_str(&self) -> (s: &'static str)
        ensures
            s@ == self.name(),
    {
        match self {
            ResourceType::Model => "model",
            ResourceType::Source => "source",
            ResourceType::Snapshot => "snapshot",
            ResourceType::Seed => "seed",
            ResourceType::Exposure => "exposure",
            ResourceType::Macro => "macro",
            ResourceType::Metric => "metric",
        }
    }

    /// Every kind, in the order of declaration.
    pub fn all() -> (kinds: &'static [ResourceType])
        ensures
            kinds@ == ResourceType::every(),
    {
        let kinds: &'static [ResourceType] = &[
            ResourceType::Model,
            ResourceType::Source,
            ResourceType::Snapshot,
            ResourceType::Seed,
            ResourceType::Macro,
            ResourceType::Exposure,
            ResourceType::Metric,
        ];
        assert(kinds@ =~= ResourceType::every());
        kinds
    }
}

/// What a column of a resource holds, as mathematical values.
pub struct ColumnView {
    pub name: Seq<char>,
    pub description: Option<Seq<char>>,
    pub tests: Seq<Seq<char>>,
}

/// What a canonical record holds, as mathematical values. A record of a kind
/// that lacks a field holds `None`, or the empty sequence, there.
pub struct RecordView {
    pub kind: ResourceType,
    pub name: Seq<char>,
    pub source_name: Option<Seq<char>>,
    pub description: Option<Seq<char>>,
    pub tags: Seq<Seq<char>>,
    pub tests: Seq<Seq<char>>,
    pub columns: Seq<ColumnView>,
    pub meta: Map<Seq<char>, Seq<char>>,
    pub materialized: Option<Seq<char>>,
    pub sql_file: Option<Seq<char>>,
    pub yaml_file: Option<Seq<char>>,
}

/// A column of a resource: its name, its description and the tests attached
/// to it.
#[derive(Debug, Clone)]
pub struct Column {
    pub name: String,
    pub description: Option<String>,
    pub tests: Vec<String>,
}

impl View for Column {
    type V = ColumnView;

    open spec fn view(&self) -> ColumnView {
        ColumnView {
            name: self.name@,
            description: opt_text(self.description),
            tests: texts(self.tests@),
        }
    }
}

/// What the columns of a list hold.
pub open spec fn column_views(columns: Seq<Column>) -> Seq<ColumnView> {
    columns.map_values(|c: Column| c@)
}

impl Column {
    /// A column without description and tests.
    pub fn new(name: String) -> (column: Column)
        ensures
            column@ == (ColumnView { name: name@, description: None, tests: Seq::empty() }),
    {
        let column = Column { name, description: None, tests: Vec::new() };
        assert(texts(column.tests@) =~= Seq::empty());
        column
    }

    /// A copy of the column.
    pub fn duplicate(&self) -> (column: Column)
        ensures
            column@ == self@,
    {
        Column {
            name: self.name.clone(),
            description: clone_opt_text(&self.description),
            tests: clone_texts(&self.tests),
        }
    }
}

/// A copy of a list of columns.
pub fn clone_columns(columns: &Vec<Column>) -> (out: Vec<Column>)
    ensures
        column_views(out@) == column_views(columns@),
{
    let mut out: Vec<Column> = Vec::new();
    let mut i: usize = 0;
    while i < columns.len()
        invariant
            i <= columns.len(),
            column_views(out@) == column_views(columns@.take(i as int)),
        decreases columns.len() - i,
    {
        let ghost before = out@;
        let column = columns[i].duplicate();
        out.push(column);
        proof {
            assert(column_views(out@) =~= column_views(before).push(column@));
            assert(columns@.take(i + 1) =~= columns@.take(i as int).push(columns@[i as int]));
            assert(column_views(columns@.take(i + 1)) =~= column_views(
                columns@.take(i as int),
            ).push(columns@[i as int]@));
        }
        i += 1;
    }
    assert(columns@.take(columns.len() as int) =~= columns@);
    out
}

/// What every resource offers, whatever its kind.
pub trait DbtResource {
    /// The record that the resource stands for.
    spec fn record(&self) -> RecordView;

    /// The name of the resource.
    fn name(&self) -> (name: &str)
        ensures
            name@ == self.record().name,
    ;

    /// The kind of the resource.
    fn resource_type(&self) -> (kind: ResourceType)
        ensures
            kind == self.record().kind,
    ;

    /// The description of the resource, if it has one.
    fn description(&self) -> (description: &Option<String>)
        ensures
            opt_text(*description) == self.record().description,
    ;

    /// The tags of the resource, in order.
    fn tags(&self) -> (tags: &Vec<String>)
        ensures
            texts(tags@) == self.record().tags,
    ;

    /// The tests attached to the resource itself.
    fn tests(&self) -> (tests: &Vec<String>)
        ensures
            texts(tests@) == self.record().tests,
    ;

    /// The metadata of the resource.
    fn meta(&self) -> (meta: &NameMap<String>)
        ensures
            text_map(meta@) == self.record().meta,
    ;
}

} // verus!
