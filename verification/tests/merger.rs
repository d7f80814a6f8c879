use dbtective_core::name_map::NameMap;
use dbtective_core::parser::merger::{
    create_resource_from_sql_only, create_resource_from_yaml_only,
    create_source_table_from_configs, distinct_texts, is_reconciled_as_model,
    merge_configurations, merge_meta, merge_sql_and_yaml_config, merge_tags, reconcile,
};
use dbtective_core::parser::sql::{parse_sql_file, SqlResourceInfo};
use dbtective_core::parser::yaml::YamlResourceConfig;
use dbtective_core::types::dbt::{Column, DbtResource, Resource, ResourceType};

fn strings(items: &[&str]) -> Vec<String> {
    items.iter().map(|item| item.to_string()).collect()
}

fn meta(entries: &[(&str, &str)]) -> NameMap<String> {
    let mut map = NameMap::new();
    for (key, value) in entries {
        map.insert(key.to_string(), value.to_string());
    }
    map
}

fn yaml_config(name: &str, kind: ResourceType) -> YamlResourceConfig {
    YamlResourceConfig {
        name: name.to_string(),
        resource_type: kind,
        file_path: "models/schema.yml".to_string(),
        description: None,
        tags: Vec::new(),
        meta: NameMap::new(),
        tests: Vec::new(),
        source_name: None,
        columns: Vec::new(),
    }
}

fn sql_info(path: &str, content: &str) -> SqlResourceInfo {
    parse_sql_file(path, content)
}

#[test]
fn test_merge_tags() {
    let yaml_tags = vec!["yaml_tag".to_string(), "shared_tag".to_string()];
    let sql_tags = vec!["sql_tag".to_string(), "shared_tag".to_string()];

    let merged = merge_tags(&yaml_tags, &sql_tags);

    assert_eq!(merged.len(), 3);
    assert!(merged.contains(&"yaml_tag".to_string()));
    assert!(merged.contains(&"sql_tag".to_string()));
    assert!(merged.contains(&"shared_tag".to_string()));
}

#[test]
fn test_merge_meta() {
    let mut yaml_meta = NameMap::new();
    yaml_meta.insert("yaml_key".to_string(), "yaml_value".to_string());
    yaml_meta.insert("shared_key".to_string(), "yaml_wins".to_string());

    let mut sql_meta = NameMap::new();
    sql_meta.insert("sql_key".to_string(), "sql_value".to_string());
    sql_meta.insert("shared_key".to_string(), "sql_loses".to_string());

    let merged = merge_meta(&yaml_meta, &sql_meta);

    assert_eq!(merged.len(), 3);
    assert_eq!(merged.get("yaml_key"), Some(&"yaml_value".to_string()));
    assert_eq!(merged.get("sql_key"), Some(&"sql_value".to_string()));
    assert_eq!(merged.get("shared_key"), Some(&"yaml_wins".to_string())); // YAML wins
}

#[test]
fn tags_merge_in_order() {
    let merged = merge_tags(&strings(&["a", "b"]), &strings(&["b", "c"]));
    assert_eq!(merged, vec!["a", "b", "c"]);
}

#[test]
fn tags_merge_drops_every_repetition() {
    let merged = merge_tags(&strings(&["a", "a", "b"]), &strings(&["c", "a", "c"]));
    assert_eq!(merged, vec!["a", "b", "c"]);
    assert!(merge_tags(&Vec::new(), &Vec::new()).is_empty());
    assert_eq!(merge_tags(&Vec::new(), &strings(&["x"])), vec!["x"]);
    assert_eq!(merge_tags(&strings(&["x"]), &Vec::new()), vec!["x"]);
}

#[test]
fn tags_are_told_apart_exactly() {
    let merged = merge_tags(&strings(&["Daily"]), &strings(&["daily", "daily "]));
    assert_eq!(merged, vec!["Daily", "daily", "daily "]);
}

#[test]
fn distinct_texts_keeps_first_occurrences() {
    assert_eq!(distinct_texts(&strings(&["b", "a", "b", "c", "a"])), vec!["b", "a", "c"]);
}

#[test]
fn meta_merge_schema_wins() {
    let merged = merge_meta(&meta(&[("k", "v1")]), &meta(&[("k", "v2"), ("j", "x")]));
    assert_eq!(merged.len(), 2);
    assert_eq!(merged.get("k"), Some(&"v1".to_string()));
    assert_eq!(merged.get("j"), Some(&"x".to_string()));
    assert_eq!(merged.get("missing"), None);
}

#[test]
fn meta_merge_with_an_empty_side() {
    let merged = merge_meta(&NameMap::new(), &meta(&[("a", "1")]));
    assert_eq!(merged.len(), 1);
    assert_eq!(merged.get("a"), Some(&"1".to_string()));
    let merged = merge_meta(&meta(&[("a", "1")]), &NameMap::new());
    assert_eq!(merged.len(), 1);
    assert_eq!(merged.get("a"), Some(&"1".to_string()));
}

#[test]
fn both_declarations_make_a_merged_model() {
    let sql = sql_info(
        "models/users.sql",
        "{{ config(materialized='table', tags=['daily'], description='from sql') }}",
    );
    let mut yaml = yaml_config("users", ResourceType::Model);
    yaml.description = Some("User table".to_string());
    yaml.tags = strings(&["core"]);
    yaml.tests = strings(&["unique"]);
    yaml.meta = meta(&[("owner", "data")]);
    yaml.columns = vec![Column::new("id".to_string())];

    let record = merge_sql_and_yaml_config(&sql, &yaml);
    match record {
        Resource::Model(model) => {
            assert_eq!(model.name, "users");
            assert_eq!(model.description, Some("User table".to_string()));
            assert_eq!(model.tags, vec!["core", "daily"]);
            assert_eq!(model.tests, vec!["unique"]);
            assert_eq!(model.meta.get("owner"), Some(&"data".to_string()));
            assert_eq!(model.materialized, Some("table".to_string()));
            assert_eq!(model.sql_file, Some("models/users.sql".to_string()));
            assert_eq!(model.yaml_file, Some("models/schema.yml".to_string()));
            assert_eq!(model.columns.len(), 1);
            assert_eq!(model.columns[0].name, "id");
        }
        Resource::Source(_) => panic!("a model was expected"),
    }
}

#[test]
fn description_falls_back_to_the_transformation_file() {
    let sql = sql_info("models/users.sql", "{{ config(description='from sql') }}");
    let yaml = yaml_config("users", ResourceType::Model);
    let record = merge_sql_and_yaml_config(&sql, &yaml);
    assert_eq!(record.description(), &Some("from sql".to_string()));
}

#[test]
fn other_kinds_merge_as_models() {
    let sql = sql_info("snapshots/users.sql", "{{ config(tags=['s']) }}");
    assert_eq!(sql.resource_type, ResourceType::Snapshot);
    let mut yaml = yaml_config("users", ResourceType::Snapshot);
    yaml.description = Some("kept".to_string());
    yaml.tags = strings(&["y"]);
    let record = merge_sql_and_yaml_config(&sql, &yaml);
    assert_eq!(record.resource_type(), ResourceType::Model);
    assert_eq!(record.description(), &Some("kept".to_string()));
    assert_eq!(record.tags(), &strings(&["y", "s"]));
    assert_eq!(record.yaml_file(), &Some("models/schema.yml".to_string()));
}

#[test]
fn source_declared_twice_takes_the_schema_alone() {
    let mut sql = sql_info("models/orders.sql", "{{ config(tags=['s'], description='d') }}");
    sql.resource_type = ResourceType::Source;
    let mut yaml = yaml_config("orders", ResourceType::Source);
    yaml.source_name = Some("raw".to_string());
    yaml.tags = strings(&["y"]);
    let merged = merge_sql_and_yaml_config(&sql, &yaml);
    let built = create_source_table_from_configs(&sql, &yaml);
    for record in [merged, built] {
        match record {
            Resource::Source(table) => {
                assert_eq!(table.name, "orders");
                assert_eq!(table.source_name, "raw");
                assert_eq!(table.description, None);
                assert_eq!(table.tags, vec!["y"]);
                assert_eq!(table.sql_file, None);
                assert_eq!(table.yaml_file, Some("models/schema.yml".to_string()));
            }
            Resource::Model(_) => panic!("a source table was expected"),
        }
    }
}

#[test]
fn transformation_only_record() {
    let sql = sql_info(
        "models/users.sql",
        "{{ config(materialized='view', tags=['a', 'a'], description='d') }}",
    );
    let record = create_resource_from_sql_only(&sql);
    assert_eq!(record.resource_type(), ResourceType::Model);
    assert_eq!(record.name(), "users");
    assert_eq!(record.description(), &Some("d".to_string()));
    assert_eq!(record.tags(), &strings(&["a"]));
    assert!(record.tests().is_empty());
    assert!(record.meta().is_empty());
    assert_eq!(record.sql_file(), &Some("models/users.sql".to_string()));
    assert_eq!(record.yaml_file(), &None);
}

#[test]
fn schema_only_model_record() {
    let mut yaml = yaml_config("users", ResourceType::Seed);
    yaml.description = Some("d".to_string());
    yaml.tests = strings(&["unique"]);
    let record = create_resource_from_yaml_only(&yaml);
    assert_eq!(record.resource_type(), ResourceType::Model);
    assert_eq!(record.tests(), &strings(&["unique"]));
    assert_eq!(record.sql_file(), &None);
    assert_eq!(record.yaml_file(), &Some("models/schema.yml".to_string()));
}

#[test]
fn schema_only_source_without_group_has_the_empty_group() {
    let yaml = yaml_config("orders", ResourceType::Source);
    match create_resource_from_yaml_only(&yaml) {
        Resource::Source(table) => assert_eq!(table.source_name, ""),
        Resource::Model(_) => panic!("a source table was expected"),
    }
}

#[test]
fn records_cover_the_union_of_the_keys() {
    let mut sqls = NameMap::new();
    sqls.insert("a".to_string(), sql_info("models/a.sql", ""));
    sqls.insert("b".to_string(), sql_info("models/b.sql", ""));
    let mut yamls = NameMap::new();
    yamls.insert("c".to_string(), yaml_config("c", ResourceType::Model));
    yamls.insert("b".to_string(), yaml_config("b", ResourceType::Model));
    yamls.insert("raw.d".to_string(), yaml_config("d", ResourceType::Source));

    let records = merge_configurations(sqls, yamls);
    let names: Vec<&str> = records.iter().map(|record| record.name()).collect();
    assert_eq!(names, vec!["a", "b", "c", "d"]);
    assert_eq!(records[0].yaml_file(), &None);
    assert!(records[1].sql_file().is_some() && records[1].yaml_file().is_some());
    assert_eq!(records[2].sql_file(), &None);
    assert_eq!(records[3].resource_type(), ResourceType::Source);
}

#[test]
fn no_declarations_no_records() {
    let records = merge_configurations(NameMap::new(), NameMap::new());
    assert!(records.is_empty());
}

#[test]
fn every_kind_but_two_is_reconciled_as_a_model() {
    assert!(!is_reconciled_as_model(ResourceType::Model));
    assert!(!is_reconciled_as_model(ResourceType::Source));
    for kind in [
        ResourceType::Snapshot,
        ResourceType::Seed,
        ResourceType::Macro,
        ResourceType::Exposure,
        ResourceType::Metric,
    ] {
        assert!(is_reconciled_as_model(kind));
    }
}

#[test]
fn borrowed_declarations_reconcile_alike() {
    let mut sqls = NameMap::new();
    sqls.insert("a".to_string(), sql_info("macros/a.sql", "{{ config(tags=['t']) }}"));
    let mut yamls = NameMap::new();
    yamls.insert("a".to_string(), yaml_config("a", ResourceType::Model));
    let records = reconcile(&sqls, &yamls);
    assert_eq!(records.len(), 1);
    assert_eq!(records[0].resource_type(), ResourceType::Model);
    assert_eq!(records[0].tags(), &strings(&["t"]));
    assert_eq!(sqls.len(), 1);
}
