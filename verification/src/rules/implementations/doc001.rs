//! The documentation rule: every resource has a description.

use vstd::prelude::*;
use crate::rules::engine::{is_described, outcome, result_for, Rule, RuleResult};
use crate::rules::registry::RuleId;
use crate::text::{chars_of, trim};
use crate::types::dbt::record::Resource;
use crate::types::dbt::resource::DbtResource;

verus! {

/// The check of the documentation rule.
pub struct DescriptionRule;

impl DescriptionRule {
    /// The check.
    pub fn new() -> (rule: DescriptionRule) {
        DescriptionRule
    }

    /// Whether the resource has a description that is not empty once the
    /// white space around it is taken off.
    pub fn check(&self, resource: &Resource) -> (result: RuleResult)
        ensures
            result@ == outcome(RuleId::DOC001, resource@),
            result.passed == is_described(resource@),
    {
        let passed = match resource.description() {
            Some(text) => trim(&chars_of(text.as_str())).len() > 0,
            None => false,
        };
        result_for(RuleId::DOC001, resource, passed)
    }
}

impl Rule for DescriptionRule {
    open spec fn rule(&self) -> RuleId {
        RuleId::DOC001
    }

    fn id(&self) -> (id: RuleId) {
        RuleId::DOC001
    }

    fn evaluate(&self, resource: &Resource) -> (result: RuleResult) {
        self.check(resource)
    }
}

} // verus!
