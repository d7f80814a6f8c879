//! Declarations from schema files.
//!
//! A schema document declares models and, under source groups, tables. Each
//! model and each table makes one declaration. A table is keyed by the name of
//! its group, a dot and its own name, so that tables of the same name under
//! different groups stay apart.

use vstd::prelude::*;
use vstd::string::*;
use crate::name_map::{
    collected, entry_keys, first_seen, gathers, repeated, store, text_map, value_views, NameMap,
};
use crate::text::{clone_opt_text, clone_texts, opt_text, texts};
use crate::types::dbt::resource::{column_views, Column, ColumnView, ResourceType};

verus! {

/// `serde_yaml::Value`, a YAML value of any shape. It is carried through and
/// handed back to its crate; nothing is known here of what it holds.
#[verifier::external_type_specification]
#[verifier::external_body]
pub struct ExYamlValue(serde_yaml::Value);

/// `serde_yaml::Number`, a YAML number, whole or not. It is carried through
/// and handed back to its crate; nothing is known here of what it holds.
#[verifier::external_type_specification]
#[verifier::external_body]
pub struct ExYamlNumber(serde_yaml::Number);

/// `serde_yaml::Error`, what the crate reports when it cannot write or read a
/// document. Nothing is known here of what it holds.
#[verifier::external_type_specification]
#[verifier::external_body]
pub struct ExYamlError(serde_yaml::Error);

/// The text that `serde_yaml::Number` displays for a number.
pub uninterp spec fn number_text(number: serde_yaml::Number) -> Seq<char>;

/// The YAML document that `serde_yaml::to_string` writes for a value; `None`
/// where it reports an error.
pub uninterp spec fn yaml_text(value: serde_yaml::Value) -> Option<Seq<char>>;

/// A value of a metadata entry or of a test parameter.
#[derive(Debug)]
pub enum MetaValue {
    /// A text.
    Text(String),
    /// A number, whole or not.
    Number(serde_yaml::Number),
    /// A truth value.
    Bool(bool),
    /// Anything else: nothing, a sequence, a mapping or a tagged value.
    Other(serde_yaml::Value),
}

/// A test attached to a resource or to a column.
#[derive(Debug)]
pub enum TestYamlConfig {
    /// A test given by its name alone.
    Simple(String),
    /// A test given as a mapping from its name to its parameters.
    Complex(NameMap<MetaValue>),
}

/// A column as a schema document declares it.
#[derive(Debug)]
pub struct ColumnYamlConfig {
    pub name: String,
    pub description: Option<String>,
    pub tests: Option<Vec<TestYamlConfig>>,
}

/// A model as a schema document declares it.
#[derive(Debug)]
pub struct ModelYamlConfig {
    pub name: String,
    pub description: Option<String>,
    pub tags: Option<Vec<String>>,
    pub meta: Option<NameMap<MetaValue>>,
    pub columns: Option<Vec<ColumnYamlConfig>>,
    pub tests: Option<Vec<TestYamlConfig>>,
}

/// A table of a source group as a schema document declares it.
#[derive(Debug)]
pub struct TableYamlConfig {
    pub name: String,
    pub description: Option<String>,
    pub tags: Option<Vec<String>>,
    pub meta: Option<NameMap<MetaValue>>,
    pub columns: Option<Vec<ColumnYamlConfig>>,
    pub tests: Option<Vec<TestYamlConfig>>,
}

/// A source group as a schema document declares it.
#[derive(Debug)]
pub struct SourceYamlConfig {
    pub name: String,
    pub description: Option<String>,
    pub tables: Option<Vec<TableYamlConfig>>,
}

/// A snapshot as a schema document declares it.
#[derive(Debug)]
pub struct SnapshotYamlConfig {
    pub name: String,
    pub description: Option<String>,
    pub tags: Option<Vec<String>>,
    pub meta: Option<NameMap<MetaValue>>,
}

/// A seed as a schema document declares it.
#[derive(Debug)]
pub struct SeedYamlConfig {
    pub name: String,
    pub description: Option<String>,
    pub tags: Option<Vec<String>>,
    pub meta: Option<NameMap<MetaValue>>,
}

/// A schema document. Snapshots and seeds are held and make no declaration
/// yet.
#[derive(Debug)]
pub struct SchemaFile {
    pub version: Option<u8>,
    pub models: Option<Vec<ModelYamlConfig>>,
    pub sources: Option<Vec<SourceYamlConfig>>,
    pub snapshots: Option<Vec<SnapshotYamlConfig>>,
    pub seeds: Option<Vec<SeedYamlConfig>>,
}

/// The declaration that a schema document makes for one resource.
#[derive(Debug, Clone)]
pub struct YamlResourceConfig {
    pub name: String,
    pub resource_type: ResourceType,
    pub file_path: String,
    pub description: Option<String>,
    pub tags: Vec<String>,
    pub meta: NameMap<String>,
    pub tests: Vec<String>,
    /// The group of a source table.
    pub source_name: Option<String>,
    pub columns: Vec<Column>,
}

/// A declaration of a schema document, as mathematical values.
pub struct YamlConfigView {
    pub name: Seq<char>,
    pub resource_type: ResourceType,
    pub file_path: Seq<char>,
    pub description: Option<Seq<char>>,
    pub tags: Seq<Seq<char>>,
    pub meta: Map<Seq<char>, Seq<char>>,
    pub tests: Seq<Seq<char>>,
    pub source_name: Option<Seq<char>>,
    pub columns: Seq<ColumnView>,
}

impl View for YamlResourceConfig {
    type V = YamlConfigView;

    open spec fn view(&self) -> YamlConfigView {
        YamlConfigView {
            name: self.name@,
            resource_type: self.resource_type,
            file_path: self.file_path@,
            description: opt_text(self.description),
            tags: texts(self.tags@),
            meta: text_map(self.meta@),
            tests: texts(self.tests@),
            source_name: opt_text(self.source_name),
            columns: column_views(self.columns@),
        }
    }
}

/// The text that stands for a value in a metadata map: a text as it is, a
/// number as it is displayed, a truth value as `true` or `false`, anything
/// else as the YAML document written for it, empty where none can be written.
pub open spec fn meta_text(value: MetaValue) -> Seq<char> {
    match value {
        MetaValue::Text(text) => text@,
        MetaValue::Number(number) => number_text(number),
        MetaValue::Bool(b) => if b {
            "true"@
        } else {
            "false"@
        },
        MetaValue::Other(other) => written_or_empty(yaml_text(other)),
    }
}

/// The document that was written, or the empty text where none was.
pub open spec fn written_or_empty(written: Option<Seq<char>>) -> Seq<char> {
    match written {
        Some(text) => text,
        None => Seq::empty(),
    }
}

/// The metadata map of a declaration: every value replaced by its text.
pub open spec fn meta_texts(meta: Map<Seq<char>, MetaValue>) -> Map<Seq<char>, Seq<char>> {
    meta.map_values(|value: MetaValue| meta_text(value))
}

/// The name under which a test is referred to: its name where it is given by
/// name, else the first key of its mapping, and `unknown` for an empty mapping.
pub open spec fn test_name(test: TestYamlConfig) -> Seq<char> {
    match test {
        TestYamlConfig::Simple(name) => name@,
        TestYamlConfig::Complex(params) => if params.key_seq().len() > 0 {
            params.key_seq()[0]
        } else {
            "unknown"@
        },
    }
}

/// The names of a list of tests, in order.
pub open spec fn test_names(tests: Seq<TestYamlConfig>) -> Seq<Seq<char>> {
    tests.map_values(|test: TestYamlConfig| test_name(test))
}

/// The texts of an optional list of strings: none for a missing list.
pub open spec fn texts_or_empty(list: Option<Vec<String>>) -> Seq<Seq<char>> {
    match list {
        Some(items) => texts(items@),
        None => Seq::empty(),
    }
}

/// The names of an optional list of tests: none for a missing list.
pub open spec fn test_names_or_empty(tests: Option<Vec<TestYamlConfig>>) -> Seq<Seq<char>> {
    match tests {
        Some(items) => test_names(items@),
        None => Seq::empty(),
    }
}

/// The metadata of an optional map: none for a missing map.
pub open spec fn meta_texts_or_empty(meta: Option<NameMap<MetaValue>>) -> Map<
    Seq<char>,
    Seq<char>,
> {
    match meta {
        Some(entries) => meta_texts(entries@),
        None => Map::empty(),
    }
}

/// The column that a declared column stands for.
pub open spec fn declared_column(column: ColumnYamlConfig) -> ColumnView {
    ColumnView {
        name: column.name@,
        description: opt_text(column.description),
        tests: test_names_or_empty(column.tests),
    }
}

/// The columns of an optional list of declared columns: none for a missing
/// list.
pub open spec fn declared_columns(columns: Option<Vec<ColumnYamlConfig>>) -> Seq<ColumnView> {
    match columns {
        Some(items) => items@.map_values(|column: ColumnYamlConfig| declared_column(column)),
        None => Seq::empty(),
    }
}

/// The declaration that a declared model makes in the document at `path`.
pub open spec fn model_declaration(model: ModelYamlConfig, path: Seq<char>) -> YamlConfigView {
    YamlConfigView {
        name: model.name@,
        resource_type: ResourceType::Model,
        file_path: path,
        description: opt_text(model.description),
        tags: texts_or_empty(model.tags),
        meta: meta_texts_or_empty(model.meta),
        tests: test_names_or_empty(model.tests),
        source_name: None,
        columns: declared_columns(model.columns),
    }
}

/// The declaration that a table of the group `group` makes in the document at
/// `path`.
pub open spec fn table_declaration(
    group: Seq<char>,
    table: TableYamlConfig,
    path: Seq<char>,
) -> YamlConfigView {
    YamlConfigView {
        name: table.name@,
        resource_type: ResourceType::Source,
        file_path: path,
        description: opt_text(table.description),
        tags: texts_or_empty(table.tags),
        meta: meta_texts_or_empty(table.meta),
        tests: test_names_or_empty(table.tests),
        source_name: Some(group),
        columns: declared_columns(table.columns),
    }
}

/// The key of a table: the name of its group, a dot and its own name.
pub open spec fn table_key(group: Seq<char>, table: Seq<char>) -> Seq<char> {
    group + seq!['.'] + table
}

/// A declaration with the key under which it is stored.
pub type Keyed = (Seq<char>, YamlConfigView);

/// The keyed declarations that a list of declared models makes, in order.
pub open spec fn model_entries(models: Seq<ModelYamlConfig>, path: Seq<char>) -> Seq<Keyed> {
    models.map_values(|model: ModelYamlConfig| (model.name@, model_declaration(model, path)))
}

/// The keyed declarations that the tables of one source group make, in order.
pub open spec fn table_entries(group: SourceYamlConfig, path: Seq<char>) -> Seq<Keyed> {
    match group.tables {
        Some(tables) => tables@.map_values(
            |table: TableYamlConfig|
                (table_key(group.name@, table.name@), table_declaration(group.name@, table, path)),
        ),
        None => Seq::empty(),
    }
}

/// The keyed declarations that a list of source groups makes: those of the
/// first group, then those of the second, and so on.
pub open spec fn source_entries(groups: Seq<SourceYamlConfig>, path: Seq<char>) -> Seq<Keyed>
    decreases groups.len(),
{
    if groups.len() == 0 {
        Seq::empty()
    } else {
        source_entries(groups.drop_last(), path) + table_entries(groups.last(), path)
    }
}

/// The keyed declarations that a schema document makes: those of its models,
/// then those of its source groups.
pub open spec fn schema_entries(schema: SchemaFile, path: Seq<char>) -> Seq<Keyed> {
    (match schema.models {
        Some(models) => model_entries(models@, path),
        None => Seq::empty(),
    }) + (match schema.sources {
        Some(groups) => source_entries(groups@, path),
        None => Seq::empty(),
    })
}

/// The key that a declaration belongs under: a source table under the name of
/// its group, a dot and its own name, anything else under its name.
pub open spec fn declaration_key(config: YamlConfigView) -> Seq<char> {
    match config.source_name {
        Some(group) => table_key(group, config.name),
        None => config.name,
    }
}

/// Whether a keyed declaration is one that a schema document can make: a
/// model without group or a source table with one, under the key that it
/// belongs under.
pub open spec fn is_well_keyed(entry: Keyed) -> bool {
    &&& entry.0 == declaration_key(entry.1)
    &&& entry.1.resource_type == ResourceType::Source <==> entry.1.source_name is Some
    &&& entry.1.resource_type == ResourceType::Source || entry.1.resource_type
        == ResourceType::Model
}

/// Every declaration that a list of source groups makes is a source table
/// under the key that it belongs under.
pub proof fn lemma_source_entries(groups: Seq<SourceYamlConfig>, path: Seq<char>, entry: Keyed)
    requires
        source_entries(groups, path).contains(entry),
    ensures
        is_well_keyed(entry),
    decreases groups.len(),
{
    if groups.len() > 0 {
        let front = source_entries(groups.drop_last(), path);
        let last = table_entries(groups.last(), path);
        let all = source_entries(groups, path);
        let n = choose|n: int| 0 <= n < all.len() && all[n] == entry;
        if n < front.len() {
            assert(front[n] == entry);
            lemma_source_entries(groups.drop_last(), path, entry);
        } else {
            assert(last[n - front.len()] == entry);
        }
    }
}

/// Every declaration that a schema document makes stands under the key that
/// it belongs under.
pub proof fn lemma_schema_entries(schema: SchemaFile, path: Seq<char>, entry: Keyed)
    requires
        schema_entries(schema, path).contains(entry),
    ensures
        is_well_keyed(entry),
{
    let models = match schema.models {
        Some(models) => model_entries(models@, path),
        None => Seq::empty(),
    };
    let sources = match schema.sources {
        Some(groups) => source_entries(groups@, path),
        None => Seq::empty(),
    };
    let all = schema_entries(schema, path);
    let n = choose|n: int| 0 <= n < all.len() && all[n] == entry;
    if n < models.len() {
        assert(models[n] == entry);
    } else {
        assert(sources[n - models.len()] == entry);
        assert(sources.contains(entry));
        lemma_source_entries(schema.sources.unwrap()@, path, entry);
    }
}

/// The keys of the declarations that a schema document makes, in order.
pub open spec fn declared_keys(schema: SchemaFile) -> Seq<Seq<char>> {
    entry_keys(schema_entries(schema, Seq::empty()))
}

/// `ToString::to_string` on a `serde_yaml::Number`, which goes through the
/// number's `Display`: the result is the text displayed for `number`.
#[verifier::external_body]
fn number_to_string(number: &serde_yaml::Number) -> (text: String)
    ensures
        text@ == number_text(*number),
{
    number.to_string()
}

/// `serde_yaml::to_string` on a `serde_yaml::Value`: the document written for
/// `value`, or the error that the serializer reported.
#[verifier::external_body]
fn yaml_to_string(value: &serde_yaml::Value) -> (written: Result<String, serde_yaml::Error>)
    ensures
        match written {
            Ok(text) => yaml_text(*value) == Some(text@),
            Err(_) => yaml_text(*value) is None,
        },
{
    serde_yaml::to_string(value)
}

/// The text of a written document, or the empty text where writing failed.
pub fn text_or_empty(written: Result<String, serde_yaml::Error>) -> (text: String)
    ensures
        text@ == match written {
            Ok(document) => document@,
            Err(_) => Seq::<char>::empty(),
        },
{
    match written {
        Ok(document) => document,
        Err(_) => String::new(),
    }
}

/// The text that stands for a value in a metadata map.
pub fn meta_value_text(value: &MetaValue) -> (text: String)
    ensures
        text@ == meta_text(*value),
{
    match value {
        MetaValue::Text(s) => s.clone(),
        MetaValue::Number(number) => number_to_string(number),
        MetaValue::Bool(b) => if *b {
            "true".to_owned()
        } else {
            "false".to_owned()
        },
        MetaValue::Other(other) => text_or_empty(yaml_to_string(other)),
    }
}

/// The text that stands for a value in a metadata map.
pub fn value_to_string(value: MetaValue) -> (text: String)
    ensures
        text@ == meta_text(value),
{
    meta_value_text(&value)
}

/// The metadata map of a declaration: the names of `meta` in their order, each
/// with the text of its value.
pub fn convert_meta_to_string_map(meta: NameMap<MetaValue>) -> (out: NameMap<String>)
    ensures
        text_map(out@) == meta_texts(meta@),
        out.key_seq() == meta.key_seq(),
{
    meta_texts_of(&meta)
}

/// The metadata map of a declaration, from a borrowed map.
pub fn meta_texts_of(meta: &NameMap<MetaValue>) -> (out: NameMap<String>)
    ensures
        text_map(out@) == meta_texts(meta@),
        out.key_seq() == meta.key_seq(),
{
    let mut out: NameMap<String> = NameMap::new();
    let n: usize = meta.len();
    let mut i: usize = 0;
    while i < n
        invariant
            i <= n,
            n == meta.key_seq().len(),
            meta.ordered(),
            out.ordered(),
            out.key_seq() == meta.key_seq().take(i as int),
            forall|j: int|
                0 <= j < i ==> out@[meta.key_seq()[j]]@ == meta_text(meta@[meta.key_seq()[j]]),
        decreases n - i,
    {
        let key = meta.key_at(i).clone();
        let value = meta_value_text(meta.value_at(i));
        proof {
            assert(!out@.contains_key(key@)) by {
                if out.key_seq().contains(key@) {
                    let j = out.key_seq().index_of(key@);
                    assert(meta.key_seq()[j] == meta.key_seq()[i as int]);
                }
            }
        }
        out.insert(key, value);
        assert(out.key_seq() =~= meta.key_seq().take(i + 1));
        i += 1;
    }
    proof {
        assert(meta.key_seq().take(n as int) =~= meta.key_seq());
        assert(out@.dom() =~= meta@.dom());
        assert forall|k: Seq<char>| meta@.contains_key(k) implies out@[k]@ == meta_text(
            meta@[k],
        ) by {
            let j = meta.key_seq().index_of(k);
            assert(meta.key_seq()[j] == k);
        }
        assert(text_map(out@) =~= meta_texts(meta@));
    }
    out
}

/// The name under which one test is referred to.
pub fn test_name_of(test: &TestYamlConfig) -> (name: String)
    ensures
        name@ == test_name(*test),
{
    match test {
        TestYamlConfig::Simple(name) => name.clone(),
        TestYamlConfig::Complex(params) => {
            if params.len() > 0 {
                params.key_at(0).clone()
            } else {
                "unknown".to_owned()
            }
        },
    }
}

/// The names of a list of tests, in order.
pub fn extract_test_names(tests: Vec<TestYamlConfig>) -> (names: Vec<String>)
    ensures
        texts(names@) == test_names(tests@),
{
    test_names_of(&tests)
}

/// The names of a borrowed list of tests, in order.
pub fn test_names_of(tests: &Vec<TestYamlConfig>) -> (names: Vec<String>)
    ensures
        texts(names@) == test_names(tests@),
{
    let mut names: Vec<String> = Vec::new();
    let mut i: usize = 0;
    assert(texts(names@) =~= test_names(tests@.take(0)));
    while i < tests.len()
        invariant
            i <= tests.len(),
            texts(names@) == test_names(tests@.take(i as int)),
        decreases tests.len() - i,
    {
        let ghost before = names@;
        let name = test_name_of(&tests[i]);
        names.push(name);
        proof {
            assert(texts(names@) =~= texts(before).push(name@));
            assert(tests@.take(i + 1) =~= tests@.take(i as int).push(tests@[i as int]));
            assert(test_names(tests@.take(i + 1)) =~= test_names(tests@.take(i as int)).push(
                test_name(tests@[i as int]),
            ));
        }
        i += 1;
    }
    assert(tests@.take(tests.len() as int) =~= tests@);
    names
}

/// The strings of an optional list; none for a missing list.
fn texts_or_default(list: &Option<Vec<String>>) -> (out: Vec<String>)
    ensures
        texts(out@) == texts_or_empty(*list),
{
    match list {
        Some(items) => clone_texts(items),
        None => {
            let out: Vec<String> = Vec::new();
            assert(texts(out@) =~= Seq::empty());
            out
        },
    }
}

/// The names of an optional list of tests; none for a missing list.
fn test_names_or_default(tests: &Option<Vec<TestYamlConfig>>) -> (out: Vec<String>)
    ensures
        texts(out@) == test_names_or_empty(*tests),
{
    match tests {
        Some(items) => test_names_of(items),
        None => {
            let out: Vec<String> = Vec::new();
            assert(texts(out@) =~= Seq::empty());
            out
        },
    }
}

/// The metadata of an optional map; none for a missing map.
fn meta_or_default(meta: &Option<NameMap<MetaValue>>) -> (out: NameMap<String>)
    ensures
        text_map(out@) == meta_texts_or_empty(*meta),
{
    match meta {
        Some(entries) => meta_texts_of(entries),
        None => {
            let out: NameMap<String> = NameMap::new();
            assert(text_map(out@) =~= Map::empty());
            out
        },
    }
}

/// The columns of an optional list of declared columns; none for a missing
/// list.
pub fn columns_of(columns: &Option<Vec<ColumnYamlConfig>>) -> (out: Vec<Column>)
    ensures
        column_views(out@) == declared_columns(*columns),
{
    let mut out: Vec<Column> = Vec::new();
    match columns {
        Some(items) => {
            let ghost all = items@.map_values(|column: ColumnYamlConfig| declared_column(column));
            let mut i: usize = 0;
            assert(column_views(out@) =~= all.take(0));
            while i < items.len()
                invariant
                    i <= items.len(),
                    all == items@.map_values(|column: ColumnYamlConfig| declared_column(column)),
                    column_views(out@) == all.take(i as int),
                decreases items.len() - i,
            {
                let ghost before = out@;
                let column = Column {
                    name: items[i].name.clone(),
                    description: clone_opt_text(&items[i].description),
                    tests: test_names_or_default(&items[i].tests),
                };
                out.push(column);
                proof {
                    assert(column@ == declared_column(items@[i as int]));
                    assert(column_views(out@) =~= column_views(before).push(column@));
                    assert(all.take(i + 1) =~= all.take(i as int).push(all[i as int]));
                }
                i += 1;
            }
            assert(all.take(items.len() as int) =~= all);
        },
        None => {
            assert(column_views(out@) =~= Seq::empty());
        },
    }
    out
}

/// The declaration that a declared model makes in the document at `file_path`.
pub fn model_config(model: &ModelYamlConfig, file_path: &str) -> (config: YamlResourceConfig)
    ensures
        config@ == model_declaration(*model, file_path@),
{
    YamlResourceConfig {
        name: model.name.clone(),
        resource_type: ResourceType::Model,
        file_path: file_path.to_owned(),
        description: clone_opt_text(&model.description),
        tags: texts_or_default(&model.tags),
        meta: meta_or_default(&model.meta),
        tests: test_names_or_default(&model.tests),
        source_name: None,
        columns: columns_of(&model.columns),
    }
}

/// The declaration that a table of the group `group` makes in the document at
/// `file_path`.
pub fn table_config(group: &str, table: &TableYamlConfig, file_path: &str) -> (config:
    YamlResourceConfig)
    ensures
        config@ == table_declaration(group@, *table, file_path@),
{
    YamlResourceConfig {
        name: table.name.clone(),
        resource_type: ResourceType::Source,
        file_path: file_path.to_owned(),
        description: clone_opt_text(&table.description),
        tags: texts_or_default(&table.tags),
        meta: meta_or_default(&table.meta),
        tests: test_names_or_default(&table.tests),
        source_name: Some(group.to_owned()),
        columns: columns_of(&table.columns),
    }
}

/// The key of a table: the name of its group, a dot and its own name.
pub fn qualified_table_key(group: &str, table: &str) -> (key: String)
    ensures
        key@ == table_key(group@, table@),
{
    let mut key = group.to_owned();
    key.append(".");
    key.append(table);
    proof {
        reveal_strlit(".");
        assert("."@ =~= seq!['.']);
    }
    key
}

/// Adds the declarations of a schema document to a map, each under its key,
/// and notes every key that was there before.
pub(crate) fn gather_into(
    configs: &mut NameMap<YamlResourceConfig>,
    repeats: &mut Vec<String>,
    schema: &SchemaFile,
    file_path: &str,
    Ghost(prior): Ghost<Seq<Keyed>>,
)
    requires
        gathers(*old(configs), old(repeats)@, prior),
    ensures
        gathers(*final(configs), final(repeats)@, prior + schema_entries(*schema, file_path@)),
{
    let ghost mut entries: Seq<Keyed> = prior;
    match &schema.models {
        Some(models) => {
            let mut i: usize = 0;
            assert(entries =~= prior + model_entries(models@.take(0), file_path@));
            while i < models.len()
                invariant
                    i <= models.len(),
                    entries == prior + model_entries(models@.take(i as int), file_path@),
                    gathers(*configs, repeats@, entries),
                decreases models.len() - i,
            {
                let key = models[i].name.clone();
                let config = model_config(&models[i], file_path);
                store(configs, repeats, key, config, Ghost(entries));
                proof {
                    assert(models@.take(i + 1) =~= models@.take(i as int).push(models@[i as int]));
                    entries = entries.push((key@, config@));
                    assert(entries =~= prior + model_entries(models@.take(i + 1), file_path@));
                }
                i += 1;
            }
            assert(models@.take(models.len() as int) =~= models@);
        },
        None => {
            assert(entries =~= prior + Seq::<Keyed>::empty());
        },
    }
    let ghost from_models = entries;
    assert(entries =~= from_models + source_entries(Seq::empty(), file_path@));
    match &schema.sources {
        Some(groups) => {
            let mut g: usize = 0;
            assert(groups@.take(0) =~= Seq::empty());
            while g < groups.len()
                invariant
                    g <= groups.len(),
                    entries == from_models + source_entries(groups@.take(g as int), file_path@),
                    gathers(*configs, repeats@, entries),
                decreases groups.len() - g,
            {
                let group = &groups[g];
                let ghost before_group = entries;
                proof {
                    assert(groups@.take(g + 1).drop_last() =~= groups@.take(g as int));
                    assert(groups@.take(g + 1).last() == *group);
                }
                match &group.tables {
                    Some(tables) => {
                        let ghost all = table_entries(*group, file_path@);
                        let mut t: usize = 0;
                        assert(entries =~= before_group + all.take(0));
                        while t < tables.len()
                            invariant
                                t <= tables.len(),
                                group.tables == Some(*tables),
                                all == table_entries(*group, file_path@),
                                entries == before_group + all.take(t as int),
                                gathers(*configs, repeats@, entries),
                            decreases tables.len() - t,
                        {
                            let table = &tables[t];
                            let key = qualified_table_key(group.name.as_str(), table.name.as_str());
                            let config = table_config(group.name.as_str(), table, file_path);
                            store(configs, repeats, key, config, Ghost(entries));
                            proof {
                                assert(all[t as int] == (key@, config@));
                                assert(all.take(t + 1) =~= all.take(t as int).push(all[t as int]));
                                entries = entries.push((key@, config@));
                                assert(entries =~= before_group + all.take(t + 1));
                            }
                            t += 1;
                        }
                        assert(all.take(tables.len() as int) =~= all);
                    },
                    None => {
                        assert(entries =~= before_group + table_entries(*group, file_path@));
                    },
                }
                proof {
                    assert(entries =~= from_models + (source_entries(
                        groups@.take(g as int),
                        file_path@,
                    ) + table_entries(*group, file_path@)));
                }
                g += 1;
            }
            assert(groups@.take(groups.len() as int) =~= groups@);
        },
        None => {},
    }
    proof {
        assert(entries =~= prior + schema_entries(*schema, file_path@));
    }
}

/// The declarations of a schema document under their keys, and the keys that
/// the document declares more than once.
fn gather(schema: &SchemaFile, file_path: &str) -> (out: (NameMap<YamlResourceConfig>, Vec<String>))
    ensures
        gathers(out.0, out.1@, schema_entries(*schema, file_path@)),
{
    let mut configs: NameMap<YamlResourceConfig> = NameMap::new();
    let mut repeats: Vec<String> = Vec::new();
    let ghost nothing: Seq<Keyed> = Seq::empty();
    proof {
        assert(value_views(configs@) =~= collected(nothing));
        assert(texts(repeats@) =~= Seq::empty());
        assert(entry_keys(nothing) =~= Seq::empty());
    }
    gather_into(&mut configs, &mut repeats, schema, file_path, Ghost(nothing));
    assert(nothing + schema_entries(*schema, file_path@) =~= schema_entries(*schema, file_path@));
    (configs, repeats)
}

/// The declarations that a schema document makes, each under its key: a model
/// under its name, a table under the name of its group, a dot and its own
/// name. Where the document declares a key more than once, the last
/// declaration stands, at the place of the first; `duplicate_keys` lists such
/// keys.
pub fn extract_resource_configs(schema: SchemaFile, file_path: &str) -> (configs: NameMap<
    YamlResourceConfig,
>)
    ensures
        value_views(configs@) == collected(schema_entries(schema, file_path@)),
        configs.key_seq() == first_seen(entry_keys(schema_entries(schema, file_path@))),
{
    let out = gather(&schema, file_path);
    out.0
}

/// The keys that a schema document declares more than once: one for every
/// declaration after the first under the same key, in the order of the
/// document.
pub fn duplicate_keys(schema: &SchemaFile) -> (keys: Vec<String>)
    ensures
        texts(keys@) == repeated(declared_keys(*schema)),
{
    let out = gather(schema, "");
    proof {
        reveal_strlit("");
        assert(""@ =~= Seq::<char>::empty());
    }
    out.1
}

} // verus!
