//! Findings: what a failed check reports.

use vstd::prelude::*;
use crate::rules::registry::{rule_info, RuleId, RuleInfo, RuleRegistry};
use crate::types::severity::RuleSeverity;

verus! {

/// A failed check of one rule on one resource.
#[derive(Debug, Clone)]
pub struct Finding {
    pub rule_id: String,
    pub severity: RuleSeverity,
    pub message: String,
    pub resource_name: String,
    pub file_path: String,
}

/// A finding, as mathematical values.
pub struct FindingView {
    pub rule_id: Seq<char>,
    pub severity: RuleSeverity,
    pub message: Seq<char>,
    pub resource_name: Seq<char>,
    pub file_path: Seq<char>,
}

impl View for Finding {
    type V = FindingView;

    open spec fn view(&self) -> FindingView {
        FindingView {
            rule_id: self.rule_id@,
            severity: self.severity,
            message: self.message@,
            resource_name: self.resource_name@,
            file_path: self.file_path@,
        }
    }
}

/// What the findings of a list hold.
pub open spec fn finding_views(findings: Seq<Finding>) -> Seq<FindingView> {
    findings.map_values(|finding: Finding| finding@)
}

impl Finding {
    /// A finding made of its parts.
    pub fn new(
        rule_id: String,
        severity: RuleSeverity,
        message: String,
        resource_name: String,
        file_path: String,
    ) -> (finding: Finding)
        ensures
            finding@ == (FindingView {
                rule_id: rule_id@,
                severity,
                message: message@,
                resource_name: resource_name@,
                file_path: file_path@,
            }),
    {
        Finding { rule_id, severity, message, resource_name, file_path }
    }

    /// The descriptor of the rule that the finding names; `None` where its
    /// code is that of no rule.
    pub fn get_rule_info(&self) -> (info: Option<&'static RuleInfo>)
        ensures
            match RuleId::coded(self.rule_id@) {
                Some(rule) => info is Some && info.unwrap()@ == rule_info(rule),
                None => info is None,
            },
    {
        RuleRegistry::get_rule_by_str(self.rule_id.as_str())
    }

    /// The name of the rule that the finding names; `None` where its code is
    /// that of no rule.
    pub fn get_rule_name(&self) -> (name: Option<&'static str>)
        ensures
            match RuleId::coded(self.rule_id@) {
                Some(rule) => name is Some && name.unwrap()@ == rule_info(rule).name,
                None => name is None,
            },
    {
        match self.get_rule_info() {
            Some(info) => Some(info.name),
            None => None,
        }
    }
}

} // verus!
