//! The engine: what a rule says of a record, and the findings of a project.
//!
//! Every rule is checked on every record. Findings come in the order of the
//! records and, for one record, in the order of the rules; a check that passes
//! leaves no trace. A finding names the schema file of the record where it has
//! one, else its transformation file.

use vstd::prelude::*;
use vstd::string::*;
use crate::parser::merger::record_views;
use crate::rules::implementations::doc001::DescriptionRule;
use crate::rules::implementations::test001::TestsRule;
use crate::rules::implementations::test002::ModelTestsRule;
use crate::rules::implementations::test003::ColumnTestsRule;
use crate::rules::registry::RuleId;
use crate::text::{is_space, lemma_trim_is_empty, opt_text, trim_spec};
use crate::types::dbt::record::Resource;
use crate::types::dbt::resource::{DbtResource, RecordView};
use crate::types::finding::{finding_views, Finding, FindingView};
use crate::types::severity::RuleSeverity;

verus! {

/// What one check of a rule on a resource gave.
#[derive(Debug, Clone)]
pub struct RuleResult {
    pub rule_id: RuleId,
    pub passed: bool,
    /// What is wrong, where the check failed.
    pub message: Option<String>,
    pub resource_name: String,
}

/// The result of a check, as mathematical values.
pub struct RuleResultView {
    pub rule_id: RuleId,
    pub passed: bool,
    pub message: Option<Seq<char>>,
    pub resource_name: Seq<char>,
}

impl View for RuleResult {
    type V = RuleResultView;

    open spec fn view(&self) -> RuleResultView {
        RuleResultView {
            rule_id: self.rule_id,
            passed: self.passed,
            message: opt_text(self.message),
            resource_name: self.resource_name@,
        }
    }
}

/// Whether a record has a description that says something: one that is there
/// and is not empty once the white space around it is taken off.
pub open spec fn is_described(record: RecordView) -> bool {
    match record.description {
        Some(text) => trim_spec(text).len() > 0,
        None => false,
    }
}

/// Whether a test is attached to the record itself.
pub open spec fn has_own_test(record: RecordView) -> bool {
    record.tests.len() > 0
}

/// Whether a test is attached to one of the columns of the record.
pub open spec fn has_column_test(record: RecordView) -> bool {
    exists|i: int| 0 <= i < record.columns.len() && (#[trigger] record.columns[i]).tests.len() > 0
}

/// Whether every column of the record has a test attached to it.
pub open spec fn covers_columns(record: RecordView) -> bool {
    forall|i: int| 0 <= i < record.columns.len() ==> (#[trigger] record.columns[i]).tests.len() > 0
}

/// Whether a record passes a rule.
pub open spec fn passes(rule: RuleId, record: RecordView) -> bool {
    match rule {
        RuleId::DOC001 => is_described(record),
        RuleId::TEST001 => has_own_test(record) || has_column_test(record),
        RuleId::TEST002 => has_own_test(record),
        RuleId::TEST003 => covers_columns(record),
    }
}

/// What a rule finds wrong with a record that fails it.
pub open spec fn complaint(rule: RuleId) -> Seq<char> {
    match rule {
        RuleId::DOC001 => " is missing a description"@,
        RuleId::TEST001 => " has no tests"@,
        RuleId::TEST002 => " has no tests of its own"@,
        RuleId::TEST003 => " has columns without tests"@,
    }
}

/// The message of a failed check: the code of the rule, `:Resource `, the name
/// of the resource, and what the rule finds wrong.
pub open spec fn failure_message(rule: RuleId, name: Seq<char>) -> Seq<char> {
    rule.code() + ":Resource "@ + name + complaint(rule)
}

/// What the check of a rule on a record gives.
pub open spec fn outcome(rule: RuleId, record: RecordView) -> RuleResultView {
    RuleResultView {
        rule_id: rule,
        passed: passes(rule, record),
        message: if passes(rule, record) {
            None
        } else {
            Some(failure_message(rule, record.name))
        },
        resource_name: record.name,
    }
}

/// The severity of a failed check of a rule.
pub open spec fn severity_of(rule: RuleId) -> RuleSeverity {
    match rule {
        RuleId::DOC001 => RuleSeverity::Warning,
        RuleId::TEST001 => RuleSeverity::Error,
        RuleId::TEST002 => RuleSeverity::Warning,
        RuleId::TEST003 => RuleSeverity::Warning,
    }
}

/// The file that a finding on a record names: its schema file where it has
/// one, else its transformation file, else none.
pub open spec fn provenance(record: RecordView) -> Seq<char> {
    match record.yaml_file {
        Some(path) => path,
        None => match record.sql_file {
            Some(path) => path,
            None => Seq::empty(),
        },
    }
}

/// The finding that a failed check of a rule on a record makes.
pub open spec fn finding_of(rule: RuleId, record: RecordView) -> FindingView {
    FindingView {
        rule_id: rule.code(),
        severity: severity_of(rule),
        message: failure_message(rule, record.name),
        resource_name: record.name,
        file_path: provenance(record),
    }
}

/// The findings on one record: one for every rule of `rules` that the record
/// fails, in the order of the rules.
pub open spec fn record_findings(rules: Seq<RuleId>, record: RecordView) -> Seq<FindingView> {
    rules.filter(|rule: RuleId| !passes(rule, record)).map_values(
        |rule: RuleId| finding_of(rule, record),
    )
}

/// The findings on a list of records: those on the first record, then those
/// on the second, and so on.
pub open spec fn project_findings(rules: Seq<RuleId>, records: Seq<RecordView>) -> Seq<
    FindingView,
> {
    records.flat_map(|record: RecordView| record_findings(rules, record))
}

/// A record fails the documentation rule exactly if it has no description or
/// one that is white space throughout.
pub proof fn lemma_documentation_rule(record: RecordView)
    ensures
        !passes(RuleId::DOC001, record) <==> record.description is None || forall|i: int|
            0 <= i < record.description.unwrap().len() ==> is_space(
                record.description.unwrap()[i],
            ),
{
    if let Some(text) = record.description {
        lemma_trim_is_empty(text);
    }
}

/// No record has more findings than there are rules.
pub proof fn lemma_record_findings_len(rules: Seq<RuleId>, record: RecordView)
    ensures
        record_findings(rules, record).len() <= rules.len(),
{
    rules.lemma_filter_len(|rule: RuleId| !passes(rule, record));
}

/// No project has more findings than checks: the number of its records times
/// the number of rules.
pub proof fn lemma_project_findings_len(rules: Seq<RuleId>, records: Seq<RecordView>)
    ensures
        project_findings(rules, records).len() <= records.len() * rules.len(),
    decreases records.len(),
{
    let on = |record: RecordView| record_findings(rules, record);
    if records.len() == 0 {
        assert(records.flat_map(on) =~= Seq::empty());
    } else {
        let front = records.drop_last();
        lemma_project_findings_len(rules, front);
        lemma_record_findings_len(rules, records.last());
        front.lemma_flat_map_push(on, records.last());
        assert(records =~= front.push(records.last()));
        assert((records.len() - 1) * rules.len() + rules.len() == records.len() * rules.len())
            by (nonlinear_arith);
    }
}

/// A check that can be run on any resource.
pub trait Rule {
    /// The rule that the check belongs to.
    spec fn rule(&self) -> RuleId;

    /// The rule that the check belongs to.
    fn id(&self) -> (id: RuleId)
        ensures
            id == self.rule(),
    ;

    /// Runs the check on a resource.
    fn evaluate(&self, resource: &Resource) -> (result: RuleResult)
        ensures
            result@ == outcome(self.rule(), resource@),
    ;
}

/// The message of a failed check.
pub fn message_for(rule: RuleId, name: &str) -> (message: String)
    ensures
        message@ == failure_message(rule, name@),
{
    let mut message = rule.as_str().to_owned();
    message.append(":Resource ");
    message.append(name);
    message.append(
        match rule {
            RuleId::DOC001 => " is missing a description",
            RuleId::TEST001 => " has no tests",
            RuleId::TEST002 => " has no tests of its own",
            RuleId::TEST003 => " has columns without tests",
        },
    );
    message
}

/// The result of a check, from whether the resource passed it.
pub(crate) fn result_for(rule: RuleId, resource: &Resource, passed: bool) -> (result: RuleResult)
    requires
        passed == passes(rule, resource@),
    ensures
        result@ == outcome(rule, resource@),
{
    let name = resource.name();
    RuleResult {
        rule_id: rule,
        passed,
        message: if passed {
            None
        } else {
            Some(message_for(rule, name))
        },
        resource_name: name.to_owned(),
    }
}

/// The severity of a failed check of a rule.
pub fn default_severity(rule: RuleId) -> (severity: RuleSeverity)
    ensures
        severity == severity_of(rule),
{
    match rule {
        RuleId::DOC001 => RuleSeverity::Warning,
        RuleId::TEST001 => RuleSeverity::Error,
        RuleId::TEST002 => RuleSeverity::Warning,
        RuleId::TEST003 => RuleSeverity::Warning,
    }
}

/// Runs the check of a rule on a resource.
pub fn evaluate_rule(rule: RuleId, resource: &Resource) -> (result: RuleResult)
    ensures
        result@ == outcome(rule, resource@),
{
    match rule {
        RuleId::DOC001 => DescriptionRule::new().check(resource),
        RuleId::TEST001 => TestsRule::new().check(resource),
        RuleId::TEST002 => ModelTestsRule::new().check(resource),
        RuleId::TEST003 => ColumnTestsRule::new().check(resource),
    }
}

/// The file that a finding on a resource names.
pub fn provenance_of(resource: &Resource) -> (path: String)
    ensures
        path@ == provenance(resource@),
{
    match resource.yaml_file() {
        Some(path) => path.clone(),
        None => match resource.sql_file() {
            Some(path) => path.clone(),
            None => String::new(),
        },
    }
}

/// The finding that a check leaves on a resource: none where the resource
/// passes the check.
pub fn apply<R: Rule>(check: &R, resource: &Resource) -> (finding: Option<Finding>)
    ensures
        match finding {
            Some(f) => !passes(check.rule(), resource@) && f@ == finding_of(
                check.rule(),
                resource@,
            ),
            None => passes(check.rule(), resource@),
        },
{
    let rule = check.id();
    let result = check.evaluate(resource);
    match result.message {
        Some(message) => Some(
            Finding::new(
                rule.as_str().to_owned(),
                default_severity(rule),
                message,
                result.resource_name,
                provenance_of(resource),
            ),
        ),
        None => None,
    }
}

/// The finding that the check of a rule leaves on a resource.
pub fn finding_for(rule: RuleId, resource: &Resource) -> (finding: Option<Finding>)
    ensures
        match finding {
            Some(f) => !passes(rule, resource@) && f@ == finding_of(rule, resource@),
            None => passes(rule, resource@),
        },
{
    match rule {
        RuleId::DOC001 => apply(&DescriptionRule::new(), resource),
        RuleId::TEST001 => apply(&TestsRule::new(), resource),
        RuleId::TEST002 => apply(&ModelTestsRule::new(), resource),
        RuleId::TEST003 => apply(&ColumnTestsRule::new(), resource),
    }
}

/// The findings on one resource: one for every rule of `rules` that it fails,
/// in the order of the rules.
pub fn check_resource(rules: &Vec<RuleId>, resource: &Resource) -> (findings: Vec<Finding>)
    ensures
        finding_views(findings@) == record_findings(rules@, resource@),
{
    let ghost failed = |rule: RuleId| !passes(rule, resource@);
    let ghost found = |rule: RuleId| finding_of(rule, resource@);
    let mut findings: Vec<Finding> = Vec::new();
    let mut i: usize = 0;
    proof {
        assert(rules@.take(0).filter(failed) =~= Seq::empty());
        assert(finding_views(findings@) =~= rules@.take(0).filter(failed).map_values(found));
    }
    while i < rules.len()
        invariant
            i <= rules.len(),
            failed == |rule: RuleId| !passes(rule, resource@),
            found == |rule: RuleId| finding_of(rule, resource@),
            finding_views(findings@) == rules@.take(i as int).filter(failed).map_values(found),
        decreases rules.len() - i,
    {
        let ghost before = findings@;
        proof {
            assert(rules@.take(i + 1) =~= rules@.take(i as int).push(rules@[i as int]));
            rules@.take(i as int).lemma_filter_push(rules@[i as int], failed);
        }
        match finding_for(rules[i], resource) {
            Some(finding) => {
                findings.push(finding);
                proof {
                    assert(finding_views(findings@) =~= finding_views(before).push(finding@));
                    assert(rules@.take(i + 1).filter(failed).map_values(found)
                        =~= rules@.take(i as int).filter(failed).map_values(found).push(
                        finding@,
                    ));
                }
            },
            None => {},
        }
        i += 1;
    }
    assert(rules@.take(rules.len() as int) =~= rules@);
    findings
}

/// The findings on a list of resources: those on the first, then those on the
/// second, and so on.
pub fn check_resources(rules: &Vec<RuleId>, resources: &Vec<Resource>) -> (findings: Vec<Finding>)
    ensures
        finding_views(findings@) == project_findings(rules@, record_views(resources@)),
{
    let ghost records = record_views(resources@);
    let ghost on = |record: RecordView| record_findings(rules@, record);
    let mut findings: Vec<Finding> = Vec::new();
    let mut i: usize = 0;
    assert(finding_views(findings@) =~= records.take(0).flat_map(on));
    while i < resources.len()
        invariant
            i <= resources.len(),
            records == record_views(resources@),
            on == |record: RecordView| record_findings(rules@, record),
            finding_views(findings@) == records.take(i as int).flat_map(on),
        decreases resources.len() - i,
    {
        let mut more = check_resource(rules, &resources[i]);
        let ghost before = findings@;
        let ghost added = more@;
        findings.append(&mut more);
        proof {
            assert(records[i as int] == resources@[i as int]@);
            assert(finding_views(findings@) =~= finding_views(before) + finding_views(added));
            assert(records.take(i + 1) =~= records.take(i as int).push(records[i as int]));
            records.take(i as int).lemma_flat_map_push(on, records[i as int]);
        }
        i += 1;
    }
    assert(records.take(resources.len() as int) =~= records);
    findings
}

} // verus!
