use dbtective_core::parser::yaml::{
    ModelYamlConfig, SchemaFile, SourceYamlConfig, TableYamlConfig,
};
use dbtective_core::parser::DbtProjectParser;
use dbtective_core::rules::engine::check_resources;
use dbtective_core::rules::implementations::doc001::DescriptionRule;
use dbtective_core::rules::implementations::test001::TestsRule;
use dbtective_core::rules::registry::RuleId;
use dbtective_core::scoring::{assemble_report, overall_score};
use dbtective_core::types::dbt::{DbtResource, Resource, ResourceType};
use dbtective_core::DbtProjectAnalyzer;

fn model(name: &str, description: Option<&str>, tags: &[&str]) -> ModelYamlConfig {
    ModelYamlConfig {
        name: name.to_string(),
        description: description.map(|text| text.to_string()),
        tags: Some(tags.iter().map(|tag| tag.to_string()).collect()),
        meta: None,
        columns: None,
        tests: None,
    }
}

fn table(name: &str) -> TableYamlConfig {
    TableYamlConfig {
        name: name.to_string(),
        description: None,
        tags: None,
        meta: None,
        columns: None,
        tests: None,
    }
}

fn schema(models: Vec<ModelYamlConfig>, sources: Vec<SourceYamlConfig>) -> SchemaFile {
    SchemaFile {
        version: Some(2),
        models: Some(models),
        sources: Some(sources),
        snapshots: None,
        seeds: None,
    }
}

fn sql(path: &str, content: &str) -> (String, String) {
    (path.to_string(), content.to_string())
}

fn parser() -> DbtProjectParser {
    DbtProjectParser::new("project".to_string())
}

#[test]
fn model_declared_in_both_kinds_of_file() {
    let sql_files = vec![sql(
        "models/users.sql",
        "{{ config(materialized='table', tags=['daily']) }}\nselect * from raw.users",
    )];
    let schema_files = vec![(
        "models/schema.yml".to_string(),
        schema(vec![model("users", Some("User table"), &["core"])], Vec::new()),
    )];
    let records = parser().parse_project(&sql_files, &schema_files);
    assert_eq!(records.len(), 1);
    match &records[0] {
        Resource::Model(users) => {
            assert_eq!(users.name, "users");
            assert_eq!(users.description, Some("User table".to_string()));
            assert_eq!(users.tags, vec!["core", "daily"]);
            assert_eq!(users.materialized, Some("table".to_string()));
            assert_eq!(users.sql_file, Some("models/users.sql".to_string()));
            assert_eq!(users.yaml_file, Some("models/schema.yml".to_string()));
            assert!(users.tests.is_empty());
        }
        Resource::Source(_) => panic!("a model was expected"),
    }
    assert!(DescriptionRule::new().check(&records[0]).passed);
    assert!(!TestsRule::new().check(&records[0]).passed);
    let findings = check_resources(&vec![RuleId::DOC001, RuleId::TEST001], &records);
    assert_eq!(findings.len(), 1);
    assert_eq!(findings[0].rule_id, "TEST001");
    assert_eq!(findings[0].resource_name, "users");
    assert_eq!(findings[0].file_path, "models/schema.yml");
    assert_eq!(findings[0].message, "TEST001:Resource users has no tests");
}

#[test]
fn source_table_without_transformation_file() {
    let schema_files = vec![(
        "models/sources.yml".to_string(),
        schema(
            Vec::new(),
            vec![SourceYamlConfig {
                name: "raw".to_string(),
                description: None,
                tables: Some(vec![table("orders")]),
            }],
        ),
    )];
    let configs = parser().parse_yaml_files(&schema_files);
    assert_eq!(configs.len(), 1);
    assert_eq!(configs.key_at(0), "raw.orders");
    let records = parser().parse_project(&Vec::new(), &schema_files);
    assert_eq!(records.len(), 1);
    match &records[0] {
        Resource::Source(orders) => {
            assert_eq!(orders.name, "orders");
            assert_eq!(orders.source_name, "raw");
            assert_eq!(orders.yaml_file, Some("models/sources.yml".to_string()));
            assert_eq!(orders.sql_file, None);
        }
        Resource::Model(_) => panic!("a source table was expected"),
    }
    assert_eq!(records[0].resource_type(), ResourceType::Source);
}

#[test]
fn transformation_only_and_schema_only_provenance() {
    let sql_files = vec![sql("models/a.sql", "select 1")];
    let schema_files =
        vec![("models/schema.yml".to_string(), schema(vec![model("b", None, &[])], Vec::new()))];
    let records = parser().parse_project(&sql_files, &schema_files);
    assert_eq!(records.len(), 2);
    assert_eq!(records[0].name(), "a");
    assert_eq!(records[0].sql_file(), &Some("models/a.sql".to_string()));
    assert_eq!(records[0].yaml_file(), &None);
    assert_eq!(records[1].name(), "b");
    assert_eq!(records[1].sql_file(), &None);
    assert_eq!(records[1].yaml_file(), &Some("models/schema.yml".to_string()));
}

fn summary(records: &[Resource]) -> Vec<String> {
    let mut lines: Vec<String> = records
        .iter()
        .map(|record| {
            format!(
                "{:?}|{}|{:?}|{:?}|{:?}|{:?}",
                record.resource_type(),
                record.name(),
                record.description(),
                record.tags(),
                record.sql_file(),
                record.yaml_file()
            )
        })
        .collect();
    lines.sort();
    lines
}

#[test]
fn record_set_does_not_depend_on_file_order() {
    let a = sql("models/a.sql", "{{ config(tags=['x']) }}");
    let b = sql("models/b.sql", "{{ config(description='b') }}");
    let c = sql("snapshots/c.sql", "");
    let first = || {
        ("models/one.yml".to_string(), schema(vec![model("a", Some("A"), &["y"])], Vec::new()))
    };
    let second = || {
        (
            "models/two.yml".to_string(),
            schema(
                vec![model("d", None, &[])],
                vec![SourceYamlConfig {
                    name: "raw".to_string(),
                    description: None,
                    tables: Some(vec![table("a"), table("e")]),
                }],
            ),
        )
    };
    let forward = parser()
        .parse_project(&vec![a.clone(), b.clone(), c.clone()], &vec![first(), second()]);
    let backward = parser().parse_project(&vec![c, a, b], &vec![second(), first()]);
    assert_eq!(forward.len(), 6);
    assert_eq!(summary(&forward), summary(&backward));
}

#[test]
fn repeated_names_are_reported_and_the_last_file_stands() {
    let sql_files = vec![
        sql("models/users.sql", "{{ config(description='first') }}"),
        sql("models/orders.sql", ""),
        sql("models/staging/users.sql", "{{ config(description='second') }}"),
    ];
    assert_eq!(parser().duplicate_names(&sql_files), vec!["users"]);
    let infos = parser().parse_sql_files(&sql_files);
    assert_eq!(infos.len(), 2);
    assert_eq!(infos.key_at(0), "users");
    assert_eq!(infos.get("users").unwrap().file_path, "models/staging/users.sql");
    let schema_files = vec![
        ("one.yml".to_string(), schema(vec![model("users", Some("one"), &[])], Vec::new())),
        ("two.yml".to_string(), schema(vec![model("users", Some("two"), &[])], Vec::new())),
    ];
    assert_eq!(parser().duplicate_keys(&schema_files), vec!["users"]);
    let configs = parser().parse_yaml_files(&schema_files);
    assert_eq!(configs.get("users").unwrap().file_path, "two.yml");
    assert!(parser().duplicate_names(&Vec::new()).is_empty());
    assert!(parser().duplicate_keys(&Vec::new()).is_empty());
}

#[test]
fn parser_and_analyzer_keep_their_path() {
    assert_eq!(parser().project_path(), "project");
    assert_eq!(DbtProjectAnalyzer::new("p".to_string()).project_path(), "p");
}

#[test]
fn score_is_a_rounded_percentage() {
    assert_eq!(overall_score(0, 0), 1000);
    assert_eq!(overall_score(0, 4), 0);
    assert_eq!(overall_score(4, 4), 1000);
    assert_eq!(overall_score(3, 4), 750);
    assert_eq!(overall_score(1, 3), 333);
    assert_eq!(overall_score(2, 3), 667);
    assert_eq!(overall_score(1, 2000), 1);
    assert_eq!(overall_score(1, 2001), 0);
    assert_eq!(overall_score(1999, 2000), 1000);
    assert_eq!(overall_score(1998, 2000), 999);
}

#[test]
fn report_carries_findings_and_score() {
    let report = assemble_report("project", Vec::new(), 8);
    assert_eq!(report.project_path, "project");
    assert!(report.findings.is_empty());
    assert_eq!(report.score_tenths, 1000);
}

#[test]
fn analysis_of_a_small_project() {
    let sql_files = vec![
        sql("models/users.sql", "{{ config(materialized='table', tags=['daily']) }}"),
        sql("models/orders.sql", "select 1"),
    ];
    let schema_files = vec![(
        "models/schema.yml".to_string(),
        schema(vec![model("users", Some("User table"), &["core"])], Vec::new()),
    )];
    let report = DbtProjectAnalyzer::new("project".to_string())
        .analyze(&sql_files, &schema_files)
        .unwrap();
    assert_eq!(report.project_path, "project");
    let seen: Vec<(&str, &str)> = report
        .findings
        .iter()
        .map(|finding| (finding.resource_name.as_str(), finding.rule_id.as_str()))
        .collect();
    assert_eq!(
        seen,
        vec![
            ("users", "TEST001"),
            ("users", "TEST002"),
            ("orders", "DOC001"),
            ("orders", "TEST001"),
            ("orders", "TEST002"),
        ]
    );
    assert_eq!(report.score_tenths, 375);
}

#[test]
fn analysis_of_an_empty_project() {
    let report = DbtProjectAnalyzer::new("empty".to_string())
        .analyze(&Vec::new(), &Vec::new())
        .unwrap();
    assert!(report.findings.is_empty());
    assert_eq!(report.score_tenths, 1000);
}
