//! The rule that asks for a test on the resource itself.

use vstd::prelude::*;
use crate::rules::engine::{has_own_test, outcome, result_for, Rule, RuleResult};
use crate::rules::registry::RuleId;
use crate::types::dbt::record::Resource;
use crate::types::dbt::resource::DbtResource;

verus! {

/// The check of the rule that asks for a test on the resource itself.
pub struct ModelTestsRule;

impl ModelTestsRule {
    /// The check.
    pub fn new() -> (rule: ModelTestsRule) {
        ModelTestsRule
    }

    /// Whether a test is attached to the resource itself.
    pub fn check(&self, resource: &Resource) -> (result: RuleResult)
        ensures
            result@ == outcome(RuleId::TEST002, resource@),
            result.passed == has_own_test(resource@),
    {
        let passed = resource.tests().len() > 0;
        result_for(RuleId::TEST002, resource, passed)
    }
}

impl Rule for ModelTestsRule {
    open spec fn rule(&self) -> RuleId {
        RuleId::TEST002
    }

    fn id(&self) -> (id: RuleId) {
        RuleId::TEST002
    }

    fn evaluate(&self, resource: &Resource) -> (result: RuleResult) {
        self.check(resource)
    }
}

} // verus!
