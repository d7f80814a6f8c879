//! The rule that asks for any test: on the resource or on one of its columns.

use vstd::prelude::*;
use crate::rules::engine::{has_column_test, has_own_test, outcome, result_for, Rule, RuleResult};
use crate::rules::registry::RuleId;
use crate::types::dbt::record::Resource;
use crate::types::dbt::resource::{column_views, Column, DbtResource};

verus! {

/// The check of the rule that asks for any test.
pub struct TestsRule;

/// Whether one of the columns has a test attached to it.
pub fn any_column_tested(columns: &Vec<Column>) -> (found: bool)
    ensures
        found == exists|i: int|
            0 <= i < columns.len() && (#[trigger] column_views(columns@)[i]).tests.len() > 0,
{
    let mut i: usize = 0;
    while i < columns.len()
        invariant
            i <= columns.len(),
            forall|j: int| 0 <= j < i ==> (#[trigger] column_views(columns@)[j]).tests.len() == 0,
        decreases columns.len() - i,
    {
        if columns[i].tests.len() > 0 {
            assert(column_views(columns@)[i as int].tests.len() > 0);
            return true;
        }
        i += 1;
    }
    false
}

impl TestsRule {
    /// The check.
    pub fn new() -> (rule: TestsRule) {
        TestsRule
    }

    /// Whether a test is attached to the resource or to one of its columns.
    pub fn check(&self, resource: &Resource) -> (result: RuleResult)
        ensures
            result@ == outcome(RuleId::TEST001, resource@),
            result.passed == (has_own_test(resource@) || has_column_test(resource@)),
    {
        let passed = resource.tests().len() > 0 || match resource {
            Resource::Model(model) => any_column_tested(&model.columns),
            Resource::Source(_) => false,
        };
        result_for(RuleId::TEST001, resource, passed)
    }
}

impl Rule for TestsRule {
    open spec fn rule(&self) -> RuleId {
        RuleId::TEST001
    }

    fn id(&self) -> (id: RuleId) {
        RuleId::TEST001
    }

    fn evaluate(&self, resource: &Resource) -> (result: RuleResult) {
        self.check(resource)
    }
}

} // verus!
