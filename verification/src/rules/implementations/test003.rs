//! The rule that asks for a test on every declared column.

use vstd::prelude::*;
use crate::rules::engine::{covers_columns, outcome, result_for, Rule, RuleResult};
use crate::rules::registry::RuleId;
use crate::types::dbt::record::Resource;
use crate::types::dbt::resource::{column_views, Column};

verus! {

/// The check of the rule that asks for a test on every declared column.
pub struct ColumnTestsRule;

/// Whether every column has a test attached to it.
pub fn all_columns_tested(columns: &Vec<Column>) -> (all: bool)
    ensures
        all == forall|i: int|
            0 <= i < columns.len() ==> (#[trigger] column_views(columns@)[i]).tests.len() > 0,
{
    let mut i: usize = 0;
    while i < columns.len()
        invariant
            i <= columns.len(),
            forall|j: int| 0 <= j < i ==> (#[trigger] column_views(columns@)[j]).tests.len() > 0,
        decreases columns.len() - i,
    {
        if columns[i].tests.len() == 0 {
            assert(column_views(columns@)[i as int].tests.len() == 0);
            return false;
        }
        i += 1;
    }
    true
}

impl ColumnTestsRule {
    /// The check.
    pub fn new() -> (rule: ColumnTestsRule) {
        ColumnTestsRule
    }

    /// Whether every declared column of the resource has a test attached to
    /// it. A resource without declared columns passes.
    pub fn check(&self, resource: &Resource) -> (result: RuleResult)
        ensures
            result@ == outcome(RuleId::TEST003, resource@),
            result.passed == covers_columns(resource@),
    {
        let passed = match resource {
            Resource::Model(model) => all_columns_tested(&model.columns),
            Resource::Source(_) => true,
        };
        result_for(RuleId::TEST003, resource, passed)
    }
}

impl Rule for ColumnTestsRule {
    open spec fn rule(&self) -> RuleId {
        RuleId::TEST003
    }

    fn id(&self) -> (id: RuleId) {
        RuleId::TEST003
    }

    fn evaluate(&self, resource: &Resource) -> (result: RuleResult) {
        self.check(resource)
    }
}

} // verus!
