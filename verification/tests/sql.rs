use dbtective_core::parser::sql::{
    determine_resource_type_from_path, extract_config_array, extract_config_block,
    extract_config_string, extract_resource_name_from_path, extract_sql_config,
    parse_simple_array, parse_sql_file,
};
use dbtective_core::types::dbt::ResourceType;
use std::path::Path;

#[test]
fn test_extract_config_block() {
    let sql = r#"
        {{ config(
            materialized='table',
            description="A test model"
        ) }}
        
        SELECT * FROM raw_data
        "#;

    let config_block = extract_config_block(sql);
    assert!(config_block.is_some());
    assert!(config_block.unwrap().contains("materialized='table'"));
}

#[test]
fn test_extract_config_string() {
    let config = r#"materialized='table', description="A test model""#;

    assert_eq!(
        extract_config_string(config, "materialized"),
        Some("table".to_string())
    );
    assert_eq!(
        extract_config_string(config, "description"),
        Some("A test model".to_string())
    );
}

#[test]
fn test_extract_config_array() {
    let config = r#"tags=['daily', 'core'], materialized='table'"#;

    let tags = extract_config_array(config, "tags");
    assert_eq!(tags, vec!["daily", "core"]);
}

#[test]
fn config_block_is_exactly_the_clause() {
    let sql = "select 1; {{ config(materialized='view') }} select 2";
    assert_eq!(
        extract_config_block(sql),
        Some("{{ config(materialized='view') }}".to_string())
    );
}

#[test]
fn config_block_at_the_very_end_is_found() {
    let sql = "{{ config(a='b') }}";
    assert_eq!(extract_config_block(sql), Some(sql.to_string()));
}

#[test]
fn config_block_counts_nested_braces() {
    let sql = "{{ config(meta={'owner': {'team': 'data'}}, tags=['x']) }} select '}'";
    assert_eq!(
        extract_config_block(sql),
        Some("{{ config(meta={'owner': {'team': 'data'}}, tags=['x']) }}".to_string())
    );
}

#[test]
fn config_block_starts_at_the_first_marker() {
    let sql = "{{ config(a='1') }} {{ config(a='2') }}";
    assert_eq!(extract_config_block(sql), Some("{{ config(a='1') }}".to_string()));
}

#[test]
fn config_block_absent_without_marker() {
    assert_eq!(extract_config_block("select * from {{ ref('users') }}"), None);
    assert_eq!(extract_config_block(""), None);
    assert_eq!(extract_config_block("{{config(a='b')}}"), None);
}

#[test]
fn config_block_absent_when_never_closed() {
    assert_eq!(extract_config_block("{{ config(materialized='table') }"), None);
    assert_eq!(extract_config_block("{{ config("), None);
}

#[test]
fn config_block_keeps_characters_beyond_ascii() {
    let sql = "-- héllo ✓\n{{ config(description='Übersicht ✓') }}\nselect 1";
    assert_eq!(
        extract_config_block(sql),
        Some("{{ config(description='Übersicht ✓') }}".to_string())
    );
    assert_eq!(
        extract_sql_config(sql).description,
        Some("Übersicht ✓".to_string())
    );
}

#[test]
fn config_string_skips_white_space_after_the_equals_sign() {
    assert_eq!(
        extract_config_string("materialized= \t 'table'", "materialized"),
        Some("table".to_string())
    );
}

#[test]
fn config_string_reads_only_the_first_occurrence() {
    assert_eq!(
        extract_config_string("a='one', a='two'", "a"),
        Some("one".to_string())
    );
    assert_eq!(extract_config_string("a=1, a='two'", "a"), None);
}

#[test]
fn config_string_absent_cases() {
    assert_eq!(extract_config_string("materialized='table'", "description"), None);
    assert_eq!(extract_config_string("materialized=table", "materialized"), None);
    assert_eq!(extract_config_string("materialized='table", "materialized"), None);
    assert_eq!(extract_config_string("materialized=", "materialized"), None);
    assert_eq!(extract_config_string("materialized='table\"", "materialized"), None);
}

#[test]
fn config_string_may_be_empty() {
    assert_eq!(extract_config_string("description=''", "description"), Some(String::new()));
}

#[test]
fn config_string_takes_the_other_quote_as_text() {
    assert_eq!(
        extract_config_string("description=\"it's here\"", "description"),
        Some("it's here".to_string())
    );
}

#[test]
fn config_array_with_double_quotes_and_spaces() {
    let tags = extract_config_array("tags = x, tags=[ \"a\" ,'b',  c ]", "tags");
    assert_eq!(tags, vec!["a", "b", "c"]);
}

#[test]
fn config_array_empty_cases() {
    assert!(extract_config_array("materialized='table'", "tags").is_empty());
    assert!(extract_config_array("tags='daily'", "tags").is_empty());
    assert!(extract_config_array("tags=['daily'", "tags").is_empty());
    assert!(extract_config_array("tags=[]", "tags").is_empty());
    assert!(extract_config_array("tags=[ , '' , \"\" ]", "tags").is_empty());
}

#[test]
fn simple_array_cleans_each_element() {
    assert_eq!(parse_simple_array("'a', \"b\" ,c,, ''"), vec!["a", "b", "c"]);
    assert_eq!(parse_simple_array("''a''"), vec!["a"]);
    assert_eq!(parse_simple_array("'\"a\"'"), vec!["a"]);
    assert_eq!(parse_simple_array("\"'a'\""), vec!["'a'"]);
    assert_eq!(parse_simple_array("' a '"), vec![" a "]);
    assert!(parse_simple_array("").is_empty());
}

#[test]
fn sql_config_without_clause_is_empty() {
    let config = extract_sql_config("select 1");
    assert_eq!(config.description, None);
    assert_eq!(config.materialized, None);
    assert!(config.tags.is_empty());
    assert!(config.meta.is_empty());
    assert_eq!(config.config_raw, "");
}

#[test]
fn sql_config_reads_the_known_keys() {
    let sql = "{{ config(materialized='table', tags=['daily'], description=\"Users\") }}";
    let config = extract_sql_config(sql);
    assert_eq!(config.description, Some("Users".to_string()));
    assert_eq!(config.materialized, Some("table".to_string()));
    assert_eq!(config.tags, vec!["daily"]);
    assert!(config.meta.is_empty());
    assert_eq!(config.config_raw, sql);
}

#[test]
fn resource_name_is_the_file_stem() {
    assert_eq!(extract_resource_name_from_path("models/users.sql"), "users");
    assert_eq!(extract_resource_name_from_path("/a/b/orders.v2.sql"), "orders.v2");
    assert_eq!(extract_resource_name_from_path("users"), "users");
    assert_eq!(extract_resource_name_from_path("models/.hidden"), ".hidden");
    assert_eq!(extract_resource_name_from_path("models/users."), "users");
    assert_eq!(extract_resource_name_from_path("models/users.sql/"), "users");
    assert_eq!(extract_resource_name_from_path("models/users.sql/."), "users");
}

#[test]
fn resource_name_is_unknown_without_a_file() {
    assert_eq!(extract_resource_name_from_path(""), "unknown");
    assert_eq!(extract_resource_name_from_path("/"), "unknown");
    assert_eq!(extract_resource_name_from_path("models/.."), "unknown");
    assert_eq!(extract_resource_name_from_path("."), "unknown");
}

#[test]
fn resource_name_agrees_with_the_standard_file_stem() {
    let paths = [
        "models/users.sql",
        "/a/b/orders.v2.sql",
        "users",
        "models/.hidden",
        "models/..hidden",
        "models/users.",
        "models/users.sql/",
        "models/users.sql/.",
        "models//users.sql//",
        "./users.sql",
        "",
        "/",
        "//",
        "models/..",
        "..",
        ".",
        "./",
        "a/./b/./",
        "...",
        "a.b/c",
    ];
    for path in paths {
        let expected = Path::new(path)
            .file_stem()
            .and_then(|stem| stem.to_str())
            .unwrap_or("unknown")
            .to_string();
        assert_eq!(extract_resource_name_from_path(path), expected, "path {:?}", path);
    }
}

#[test]
fn resource_kind_follows_the_first_known_directory() {
    assert_eq!(determine_resource_type_from_path("models/users.sql"), ResourceType::Model);
    assert_eq!(
        determine_resource_type_from_path("/p/snapshots/users.sql"),
        ResourceType::Snapshot
    );
    assert_eq!(determine_resource_type_from_path("p/macros/util/x.sql"), ResourceType::Macro);
    assert_eq!(
        determine_resource_type_from_path("snapshots/models/x.sql"),
        ResourceType::Snapshot
    );
    assert_eq!(
        determine_resource_type_from_path("models/snapshots/x.sql"),
        ResourceType::Model
    );
}

#[test]
fn resource_kind_defaults_to_model() {
    assert_eq!(determine_resource_type_from_path("users.sql"), ResourceType::Model);
    assert_eq!(determine_resource_type_from_path("analysis/users.sql"), ResourceType::Model);
    assert_eq!(determine_resource_type_from_path("p/snapshots"), ResourceType::Model);
    assert_eq!(determine_resource_type_from_path("my_macros/x.sql"), ResourceType::Model);
    assert_eq!(determine_resource_type_from_path(""), ResourceType::Model);
}

#[test]
fn sql_file_gives_one_declaration() {
    let content = "{{ config(materialized='table', tags=['daily']) }}\nselect 1";
    let info = parse_sql_file("snapshots/users.sql", content);
    assert_eq!(info.name, "users");
    assert_eq!(info.file_path, "snapshots/users.sql");
    assert_eq!(info.resource_type, ResourceType::Snapshot);
    assert_eq!(info.sql_config.materialized, Some("table".to_string()));
    assert_eq!(info.sql_config.tags, vec!["daily"]);
    assert_eq!(info.sql_content, content);
}
