use dbtective_core::name_map::{clone_text_map, NameMap};
use dbtective_core::text::{
    chars_of, find, index_of, is_whitespace, last_index_of, split, str_eq, trim, trim_end,
    trim_start,
};
use dbtective_core::types::dbt::resource::clone_columns;
use dbtective_core::types::dbt::{Column, DbtResource, Model, Resource, ResourceType, Source};
use dbtective_core::types::severity::RuleSeverity;

fn text(chars: &[char]) -> String {
    chars.iter().collect()
}

#[test]
fn severity_names_and_ranks() {
    assert_eq!(RuleSeverity::Error.as_str(), "error");
    assert_eq!(RuleSeverity::Warning.as_str(), "warning");
    assert_eq!(RuleSeverity::Info.as_str(), "info");
    assert_eq!(RuleSeverity::Error.priority(), 3);
    assert_eq!(RuleSeverity::Warning.priority(), 2);
    assert_eq!(RuleSeverity::Info.priority(), 1);
    assert_eq!(RuleSeverity::Warning.to_string(), "warning");
    assert!(RuleSeverity::Error.priority() > RuleSeverity::Warning.priority());
    assert!(RuleSeverity::Warning.priority() > RuleSeverity::Info.priority());
}

#[test]
fn severity_is_read_in_any_case() {
    assert_eq!(RuleSeverity::from_str("error"), Some(RuleSeverity::Error));
    assert_eq!(RuleSeverity::from_str("WARNING"), Some(RuleSeverity::Warning));
    assert_eq!(RuleSeverity::from_str("Info"), Some(RuleSeverity::Info));
    assert_eq!(RuleSeverity::from_str("fatal"), None);
    assert_eq!(RuleSeverity::from_str(""), None);
    assert_eq!(RuleSeverity::from_str(" error"), None);
    assert_eq!(RuleSeverity::from_lowercase("error"), Some(RuleSeverity::Error));
    assert_eq!(RuleSeverity::from_lowercase("Error"), None);
    for severity in [RuleSeverity::Error, RuleSeverity::Warning, RuleSeverity::Info] {
        assert_eq!(RuleSeverity::from_str(severity.as_str()), Some(severity));
    }
}

#[test]
fn resource_kind_names() {
    let expected = [
        (ResourceType::Model, "model"),
        (ResourceType::Source, "source"),
        (ResourceType::Snapshot, "snapshot"),
        (ResourceType::Seed, "seed"),
        (ResourceType::Macro, "macro"),
        (ResourceType::Exposure, "exposure"),
        (ResourceType::Metric, "metric"),
    ];
    let all = ResourceType::all();
    assert_eq!(all.len(), 7);
    for (i, (kind, name)) in expected.iter().enumerate() {
        assert_eq!(all[i], *kind);
        assert_eq!(kind.as_str(), *name);
        assert_eq!(ResourceType::from_str(name), Some(*kind));
        assert_eq!(ResourceType::from_str(&format!("{}s", name)), Some(*kind));
        assert_eq!(ResourceType::from_str(&name.to_uppercase()), Some(*kind));
        assert_eq!(ResourceType::from_lowercase(name), Some(*kind));
        assert_eq!(ResourceType::from_lowercase(&name.to_uppercase()), None);
    }
    assert_eq!(ResourceType::from_str("Models"), Some(ResourceType::Model));
    assert_eq!(ResourceType::from_str("table"), None);
    assert_eq!(ResourceType::from_str("modelss"), None);
    assert_eq!(ResourceType::from_str(""), None);
}

#[test]
fn new_model_is_bare() {
    let model = Model::new("users".to_string());
    assert_eq!(model.name(), "users");
    assert_eq!(model.resource_type(), ResourceType::Model);
    assert_eq!(model.description(), &None);
    assert!(model.tags().is_empty());
    assert!(model.tests().is_empty());
    assert!(model.meta().is_empty());
    assert_eq!(model.materialized, None);
    assert_eq!(model.sql_file, None);
    assert_eq!(model.yaml_file, None);
    assert!(model.columns.is_empty());
    let model = model.with_description("Users".to_string());
    assert_eq!(model.description(), &Some("Users".to_string()));
    assert_eq!(model.name(), "users");
}

#[test]
fn new_source_is_bare() {
    let source = Source::new("orders".to_string(), "raw".to_string());
    assert_eq!(source.name(), "orders");
    assert_eq!(source.source_name, "raw");
    assert_eq!(source.resource_type(), ResourceType::Source);
    assert_eq!(source.description(), &None);
    assert!(source.tags().is_empty());
    assert!(source.tests().is_empty());
    assert!(source.meta().is_empty());
    assert_eq!(source.yaml_file, None);
    assert_eq!(source.sql_file, None);
    let source = source.with_description("Orders".to_string());
    assert_eq!(source.description(), &Some("Orders".to_string()));
}

#[test]
fn record_offers_what_its_resource_offers() {
    let mut model = Model::new("users".to_string());
    model.tags = vec!["core".to_string()];
    model.tests = vec!["unique".to_string()];
    model.meta.insert("owner".to_string(), "data".to_string());
    let record = Resource::Model(model);
    assert_eq!(record.name(), "users");
    assert_eq!(record.resource_type(), ResourceType::Model);
    assert_eq!(record.tags(), &vec!["core".to_string()]);
    assert_eq!(record.tests(), &vec!["unique".to_string()]);
    assert_eq!(record.meta().get("owner"), Some(&"data".to_string()));
    let record = Resource::Source(Source::new("orders".to_string(), "raw".to_string()));
    assert_eq!(record.name(), "orders");
    assert_eq!(record.resource_type(), ResourceType::Source);
    assert_eq!(record.description(), &None);
}

#[test]
fn columns_are_copied_whole() {
    let mut column = Column::new("id".to_string());
    column.description = Some("Primary key".to_string());
    column.tests = vec!["unique".to_string()];
    let copy = column.duplicate();
    assert_eq!(copy.name, "id");
    assert_eq!(copy.description, Some("Primary key".to_string()));
    assert_eq!(copy.tests, vec!["unique"]);
    let copies = clone_columns(&vec![column, Column::new("email".to_string())]);
    assert_eq!(copies.len(), 2);
    assert_eq!(copies[1].name, "email");
}

#[test]
fn name_map_keeps_first_insertion_order() {
    let mut map: NameMap<u32> = NameMap::new();
    assert!(map.is_empty());
    map.insert("b".to_string(), 1);
    map.insert("a".to_string(), 2);
    map.insert("b".to_string(), 3);
    assert_eq!(map.len(), 2);
    assert_eq!(map.key_at(0), "b");
    assert_eq!(map.key_at(1), "a");
    assert_eq!(*map.value_at(0), 3);
    assert_eq!(map.get("b"), Some(&3));
    assert_eq!(map.get("a"), Some(&2));
    assert_eq!(map.get("c"), None);
    assert!(map.contains_key("a"));
    assert!(!map.contains_key("A"));
    assert_eq!(map.position("a"), Some(1));
    assert_eq!(map.position("z"), None);
    let copy = map.clone();
    assert_eq!(copy.len(), 2);
    assert_eq!(copy.get("b"), Some(&3));
}

#[test]
fn text_map_is_copied_whole() {
    let mut map = NameMap::new();
    map.insert("k".to_string(), "v".to_string());
    map.insert("j".to_string(), "x".to_string());
    let copy = clone_text_map(&map);
    assert_eq!(copy.len(), 2);
    assert_eq!(copy.key_at(0), "k");
    assert_eq!(copy.get("j"), Some(&"x".to_string()));
}

#[test]
fn white_space_is_what_the_standard_library_says() {
    for code in 0u32..=0x10FFFF {
        if let Some(c) = char::from_u32(code) {
            assert_eq!(is_whitespace(c), c.is_whitespace(), "code point {:#x}", code);
        }
    }
}

#[test]
fn trimming_agrees_with_the_standard_library() {
    let samples = [
        "",
        " ",
        "  ok  ",
        "\t a b \n",
        "\u{a0}x\u{3000}",
        "x",
        " \u{200b} ",
        "\r\n",
        "a \u{2028}",
    ];
    for sample in samples {
        let chars = chars_of(sample);
        assert_eq!(text(&trim(&chars)), sample.trim(), "sample {:?}", sample);
        assert_eq!(text(&trim_start(&chars)), sample.trim_start(), "sample {:?}", sample);
        assert_eq!(text(&trim_end(&chars)), sample.trim_end(), "sample {:?}", sample);
    }
}

#[test]
fn searching_agrees_with_the_standard_library() {
    let hays = ["", "a", "abcabc", "aaa", "{{ config(", "x{{ config( {{ config(", "héllo"];
    let needles = ["", "a", "bc", "abc", "c", "{{ config(", "aa", "é", "zz"];
    for hay in hays {
        for needle in needles {
            let expected = hay.find(needle).map(|at| hay[..at].chars().count());
            assert_eq!(
                find(&chars_of(hay), &chars_of(needle)),
                expected,
                "{:?} in {:?}",
                needle,
                hay
            );
        }
        for c in ['a', 'c', 'é', '{', 'z'] {
            let first = hay.find(c).map(|at| hay[..at].chars().count());
            let last = hay.rfind(c).map(|at| hay[..at].chars().count());
            assert_eq!(index_of(&chars_of(hay), c), first);
            assert_eq!(last_index_of(&chars_of(hay), c), last);
        }
    }
}

#[test]
fn splitting_agrees_with_the_standard_library() {
    for sample in ["", ",", "a", "a,b", ",a,,b,", "a,b,c", ",,"] {
        let expected: Vec<String> = sample.split(',').map(|piece| piece.to_string()).collect();
        let pieces: Vec<String> =
            split(&chars_of(sample), ',').iter().map(|piece| text(piece)).collect();
        assert_eq!(pieces, expected, "sample {:?}", sample);
    }
}

#[test]
fn strings_compare_by_their_characters() {
    assert!(str_eq("", ""));
    assert!(str_eq("models", "models"));
    assert!(!str_eq("models", "model"));
    assert!(!str_eq("models", "Models"));
    assert!(!str_eq("a", "b"));
}
