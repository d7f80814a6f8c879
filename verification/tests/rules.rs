use dbtective_core::rules::engine::{
    apply, check_resource, check_resources, default_severity, evaluate_rule, finding_for,
    message_for, provenance_of, Rule,
};
use dbtective_core::rules::implementations::doc001::DescriptionRule;
use dbtective_core::rules::implementations::test001::{any_column_tested, TestsRule};
use dbtective_core::rules::implementations::test002::ModelTestsRule;
use dbtective_core::rules::implementations::test003::{all_columns_tested, ColumnTestsRule};
use dbtective_core::rules::registry::{RuleCategory, RuleId, RuleRegistry};
use dbtective_core::types::dbt::{Column, Model, Resource, Source};
use dbtective_core::types::finding::Finding;
use dbtective_core::types::severity::RuleSeverity;

fn model(name: &str) -> Model {
    Model::new(name.to_string())
}

fn described(text: &str) -> Resource {
    Resource::Model(model("users").with_description(text.to_string()))
}

fn column(name: &str, tests: &[&str]) -> Column {
    let mut column = Column::new(name.to_string());
    column.tests = tests.iter().map(|test| test.to_string()).collect();
    column
}

#[test]
fn description_rule_passes_for_a_description() {
    let result = DescriptionRule::new().check(&described("  ok  "));
    assert!(result.passed);
    assert_eq!(result.message, None);
    assert_eq!(result.rule_id, RuleId::DOC001);
    assert_eq!(result.resource_name, "users");
}

#[test]
fn description_rule_fails_without_a_description() {
    let result = DescriptionRule::new().check(&Resource::Model(model("users")));
    assert!(!result.passed);
    assert_eq!(
        result.message,
        Some("DOC001:Resource users is missing a description".to_string())
    );
    assert_eq!(result.resource_name, "users");
}

#[test]
fn description_rule_fails_for_white_space() {
    for text in ["", " ", " \t\n\r ", "\u{a0}\u{2003}\u{3000}", "\u{85}\u{2028}\u{2029}"] {
        let result = DescriptionRule::new().check(&described(text));
        assert!(!result.passed, "description {:?}", text);
    }
}

#[test]
fn description_rule_passes_for_anything_else() {
    for text in ["x", " . ", "\u{200b}", "\u{feff}", "  é  "] {
        let result = DescriptionRule::new().check(&described(text));
        assert!(result.passed, "description {:?}", text);
    }
}

#[test]
fn description_rule_reads_source_tables_too() {
    let table = Source::new("orders".to_string(), "raw".to_string());
    let result = DescriptionRule::new().check(&Resource::Source(table));
    assert!(!result.passed);
    assert_eq!(
        result.message,
        Some("DOC001:Resource orders is missing a description".to_string())
    );
    let table = Source::new("orders".to_string(), "raw".to_string())
        .with_description("Raw order data".to_string());
    assert!(DescriptionRule::new().check(&Resource::Source(table)).passed);
}

#[test]
fn tests_rule_counts_tests_anywhere() {
    let mut bare = model("users");
    assert!(!TestsRule::new().check(&Resource::Model(bare.clone())).passed);
    bare.columns = vec![column("id", &[]), column("email", &["not_null"])];
    assert!(TestsRule::new().check(&Resource::Model(bare)).passed);
    let mut own = model("users");
    own.tests = vec!["unique".to_string()];
    assert!(TestsRule::new().check(&Resource::Model(own)).passed);
    let table = Source::new("orders".to_string(), "raw".to_string());
    let result = TestsRule::new().check(&Resource::Source(table));
    assert!(!result.passed);
    assert_eq!(result.message, Some("TEST001:Resource orders has no tests".to_string()));
}

#[test]
fn model_tests_rule_counts_only_tests_of_the_resource() {
    let mut with_columns = model("users");
    with_columns.columns = vec![column("id", &["unique"])];
    let result = ModelTestsRule::new().check(&Resource::Model(with_columns));
    assert!(!result.passed);
    assert_eq!(
        result.message,
        Some("TEST002:Resource users has no tests of its own".to_string())
    );
    let mut own = model("users");
    own.tests = vec!["row_count".to_string()];
    assert!(ModelTestsRule::new().check(&Resource::Model(own)).passed);
}

#[test]
fn column_tests_rule_asks_every_column() {
    let mut covered = model("users");
    covered.columns = vec![column("id", &["unique"]), column("email", &["not_null"])];
    assert!(ColumnTestsRule::new().check(&Resource::Model(covered)).passed);
    let mut partly = model("users");
    partly.columns = vec![column("id", &["unique"]), column("email", &[])];
    let result = ColumnTestsRule::new().check(&Resource::Model(partly));
    assert!(!result.passed);
    assert_eq!(
        result.message,
        Some("TEST003:Resource users has columns without tests".to_string())
    );
    assert!(ColumnTestsRule::new().check(&Resource::Model(model("users"))).passed);
    let table = Source::new("orders".to_string(), "raw".to_string());
    assert!(ColumnTestsRule::new().check(&Resource::Source(table)).passed);
}

#[test]
fn column_helpers() {
    assert!(!any_column_tested(&Vec::new()));
    assert!(all_columns_tested(&Vec::new()));
    let columns = vec![column("a", &[]), column("b", &["t"])];
    assert!(any_column_tested(&columns));
    assert!(!all_columns_tested(&columns));
}

#[test]
fn every_check_names_its_rule() {
    assert_eq!(DescriptionRule::new().id(), RuleId::DOC001);
    assert_eq!(TestsRule::new().id(), RuleId::TEST001);
    assert_eq!(ModelTestsRule::new().id(), RuleId::TEST002);
    assert_eq!(ColumnTestsRule::new().id(), RuleId::TEST003);
}

#[test]
fn checks_through_the_trait_and_by_rule_agree() {
    let resource = Resource::Model(model("users"));
    let direct = DescriptionRule::new().evaluate(&resource);
    let by_rule = evaluate_rule(RuleId::DOC001, &resource);
    assert_eq!(direct.passed, by_rule.passed);
    assert_eq!(direct.message, by_rule.message);
    assert!(!TestsRule::new().evaluate(&resource).passed);
    assert!(!ModelTestsRule::new().evaluate(&resource).passed);
    assert!(ColumnTestsRule::new().evaluate(&resource).passed);
    assert!(evaluate_rule(RuleId::TEST003, &resource).passed);
}

#[test]
fn messages_and_severities() {
    assert_eq!(message_for(RuleId::DOC001, "a"), "DOC001:Resource a is missing a description");
    assert_eq!(message_for(RuleId::TEST001, "a"), "TEST001:Resource a has no tests");
    assert_eq!(message_for(RuleId::TEST002, ""), "TEST002:Resource  has no tests of its own");
    assert_eq!(message_for(RuleId::TEST003, "a"), "TEST003:Resource a has columns without tests");
    assert_eq!(default_severity(RuleId::DOC001), RuleSeverity::Warning);
    assert_eq!(default_severity(RuleId::TEST001), RuleSeverity::Error);
    assert_eq!(default_severity(RuleId::TEST002), RuleSeverity::Warning);
    assert_eq!(default_severity(RuleId::TEST003), RuleSeverity::Warning);
}

#[test]
fn finding_prefers_the_schema_file() {
    let mut both = model("users");
    both.sql_file = Some("models/users.sql".to_string());
    both.yaml_file = Some("models/schema.yml".to_string());
    assert_eq!(provenance_of(&Resource::Model(both)), "models/schema.yml");
    let mut only_sql = model("users");
    only_sql.sql_file = Some("models/users.sql".to_string());
    assert_eq!(provenance_of(&Resource::Model(only_sql)), "models/users.sql");
    assert_eq!(provenance_of(&Resource::Model(model("users"))), "");
}

#[test]
fn findings_come_in_the_order_of_records_and_rules() {
    let mut first = model("a");
    first.sql_file = Some("models/a.sql".to_string());
    let mut second = model("b").with_description("fine".to_string());
    second.tests = vec!["unique".to_string()];
    let mut third = model("c").with_description("fine".to_string());
    third.columns = vec![column("id", &[])];
    third.yaml_file = Some("models/schema.yml".to_string());
    let records =
        vec![Resource::Model(first), Resource::Model(second), Resource::Model(third)];
    let findings = check_resources(&RuleId::all(), &records);
    let seen: Vec<(&str, &str)> = findings
        .iter()
        .map(|finding| (finding.resource_name.as_str(), finding.rule_id.as_str()))
        .collect();
    assert_eq!(
        seen,
        vec![
            ("a", "DOC001"),
            ("a", "TEST001"),
            ("a", "TEST002"),
            ("c", "TEST001"),
            ("c", "TEST002"),
            ("c", "TEST003"),
        ]
    );
    assert_eq!(findings[0].severity, RuleSeverity::Warning);
    assert_eq!(findings[1].severity, RuleSeverity::Error);
    assert_eq!(findings[0].file_path, "models/a.sql");
    assert_eq!(findings[3].file_path, "models/schema.yml");
    assert_eq!(findings[0].message, "DOC001:Resource a is missing a description");
}

#[test]
fn findings_follow_the_given_rules() {
    let resource = Resource::Model(model("a"));
    let rules = vec![RuleId::TEST002, RuleId::DOC001];
    let findings = check_resource(&rules, &resource);
    assert_eq!(findings.len(), 2);
    assert_eq!(findings[0].rule_id, "TEST002");
    assert_eq!(findings[1].rule_id, "DOC001");
    assert!(check_resource(&Vec::new(), &resource).is_empty());
    assert!(check_resources(&rules, &Vec::new()).is_empty());
}

#[test]
fn registry_knows_every_rule() {
    let all = RuleRegistry::get_all_rules();
    assert_eq!(all.len(), 4);
    let ids: Vec<RuleId> = all.iter().map(|info| info.id).collect();
    assert_eq!(ids, vec![RuleId::DOC001, RuleId::TEST001, RuleId::TEST002, RuleId::TEST003]);
    for info in &all {
        let found = RuleRegistry::get_rule(&info.id).unwrap();
        assert_eq!(found.name, info.name);
        assert_eq!(found.category, info.category);
        assert!(info.id.as_str().starts_with(info.category.prefix()));
        assert!(!info.short_description.is_empty());
        assert!(!info.long_description.is_empty());
    }
    let description = RuleRegistry::get_rule(&RuleId::DOC001).unwrap();
    assert_eq!(description.name, "description");
    assert_eq!(description.category, RuleCategory::Documentation);
    assert_eq!(description.short_description, "Resources must have description");
    assert_eq!(RuleRegistry::get_rule(&RuleId::TEST001).unwrap().name, "tests");
    assert_eq!(RuleRegistry::get_rule(&RuleId::TEST002).unwrap().name, "model-tests");
    assert_eq!(RuleRegistry::get_rule(&RuleId::TEST003).unwrap().name, "column-tests");
}

#[test]
fn registry_lookup_by_code_is_total() {
    assert_eq!(RuleRegistry::get_rule_by_str("TEST002").unwrap().id, RuleId::TEST002);
    assert!(RuleRegistry::get_rule_by_str("TEST004").is_none());
    assert!(RuleRegistry::get_rule_by_str("doc001").is_none());
    assert!(RuleRegistry::get_rule_by_str("").is_none());
    assert!(RuleRegistry::get_rule_by_str(" DOC001").is_none());
}

#[test]
fn registry_by_category() {
    let testing = RuleRegistry::get_rules_by_category(&RuleCategory::Testing);
    let ids: Vec<RuleId> = testing.iter().map(|info| info.id).collect();
    assert_eq!(ids, vec![RuleId::TEST001, RuleId::TEST002, RuleId::TEST003]);
    let documentation = RuleRegistry::get_rules_by_category(&RuleCategory::Documentation);
    assert_eq!(documentation.len(), 1);
    assert_eq!(documentation[0].id, RuleId::DOC001);
    assert!(RuleRegistry::get_rules_by_category(&RuleCategory::Metadata).is_empty());
    assert!(RuleRegistry::get_rules_by_category(&RuleCategory::Convention).is_empty());
}

#[test]
fn rule_codes_and_prefixes() {
    assert_eq!(RuleCategory::Documentation.prefix(), "DOC");
    assert_eq!(RuleCategory::Testing.prefix(), "TEST");
    assert_eq!(RuleCategory::Metadata.prefix(), "META");
    assert_eq!(RuleCategory::Convention.prefix(), "CONV");
    for rule in RuleId::all() {
        assert_eq!(RuleId::from_str(rule.as_str()), Some(rule));
    }
    assert_eq!(RuleId::DOC001.as_str(), "DOC001");
    assert_eq!(RuleId::from_str("TEST003"), Some(RuleId::TEST003));
    assert_eq!(RuleId::from_str("TEST"), None);
    assert_eq!(RuleId::from_str("test001"), None);
}

#[test]
fn finding_finds_its_rule() {
    let finding = Finding::new(
        "TEST001".to_string(),
        RuleSeverity::Error,
        "TEST001:Resource users has no tests".to_string(),
        "users".to_string(),
        "models/schema.yml".to_string(),
    );
    assert_eq!(finding.rule_id, "TEST001");
    assert_eq!(finding.severity, RuleSeverity::Error);
    assert_eq!(finding.resource_name, "users");
    assert_eq!(finding.file_path, "models/schema.yml");
    assert_eq!(finding.get_rule_info().unwrap().id, RuleId::TEST001);
    assert_eq!(finding.get_rule_name(), Some("tests"));
    let unknown = Finding::new(
        "NOPE001".to_string(),
        RuleSeverity::Info,
        String::new(),
        String::new(),
        String::new(),
    );
    assert!(unknown.get_rule_info().is_none());
    assert_eq!(unknown.get_rule_name(), None);
}

#[test]
fn a_check_leaves_a_finding_only_where_it_fails() {
    let mut bare = model("users");
    bare.yaml_file = Some("models/schema.yml".to_string());
    let bare = Resource::Model(bare);
    let finding = apply(&DescriptionRule::new(), &bare).unwrap();
    assert_eq!(finding.rule_id, "DOC001");
    assert_eq!(finding.severity, RuleSeverity::Warning);
    assert_eq!(finding.message, "DOC001:Resource users is missing a description");
    assert_eq!(finding.resource_name, "users");
    assert_eq!(finding.file_path, "models/schema.yml");
    assert!(apply(&ColumnTestsRule::new(), &bare).is_none());
    assert!(apply(&DescriptionRule::new(), &described("fine")).is_none());
    assert_eq!(finding_for(RuleId::TEST001, &bare).unwrap().severity, RuleSeverity::Error);
    assert_eq!(finding_for(RuleId::TEST002, &bare).unwrap().rule_id, "TEST002");
    assert!(finding_for(RuleId::TEST003, &bare).is_none());
}
