//! Reconciliation: one canonical record for every resource that a
//! transformation file, a schema document, or both declare.
//!
//! Where both declare a resource, the schema document wins: its description
//! stands if it has one, its tags come first, its tests and columns stand, and
//! its metadata entries replace those of the transformation file under the
//! same name. The materialization comes from the transformation file alone.
//! Every kind but the source table is reconciled as a model.

use vstd::prelude::*;
use vstd::seq_lib::lemma_no_dup_in_concat;
use crate::name_map::{
    clone_text_map, first_seen, lemma_first_seen, text_map, value_views, NameMap,
};
use crate::parser::sql::{SqlInfoView, SqlResourceInfo};
use crate::parser::yaml::{table_key, YamlConfigView, YamlResourceConfig};
use crate::text::{clone_opt_text, clone_texts, str_eq, texts};
use crate::types::dbt::model::Model;
use crate::types::dbt::record::Resource;
use crate::types::dbt::resource::{clone_columns, RecordView, ResourceType};
use crate::types::dbt::source::Source;

verus! {

/// The tags of a record that both kinds of file declare: those of the schema
/// document, then those of the transformation file, each tag once, at the
/// place of its first occurrence.
pub open spec fn merged_tags(yaml_tags: Seq<Seq<char>>, sql_tags: Seq<Seq<char>>) -> Seq<
    Seq<char>,
> {
    first_seen(yaml_tags + sql_tags)
}

/// The metadata of a record that both kinds of file declare: the entries of
/// both, those of the schema document standing where both have a name.
pub open spec fn merged_meta(
    yaml_meta: Map<Seq<char>, Seq<char>>,
    sql_meta: Map<Seq<char>, Seq<char>>,
) -> Map<Seq<char>, Seq<char>> {
    sql_meta.union_prefer_right(yaml_meta)
}

/// The record of a resource that a transformation file and a schema document
/// both declare.
pub open spec fn merged_model(sql: SqlInfoView, yaml: YamlConfigView) -> RecordView {
    RecordView {
        kind: ResourceType::Model,
        name: sql.name,
        source_name: None,
        description: if yaml.description is Some {
            yaml.description
        } else {
            sql.sql_config.description
        },
        tags: merged_tags(yaml.tags, sql.sql_config.tags),
        tests: yaml.tests,
        columns: yaml.columns,
        meta: merged_meta(yaml.meta, sql.sql_config.meta),
        materialized: sql.sql_config.materialized,
        sql_file: Some(sql.file_path),
        yaml_file: Some(yaml.file_path),
    }
}

/// The record of a resource that only a transformation file declares.
pub open spec fn model_from_sql(sql: SqlInfoView) -> RecordView {
    RecordView {
        kind: ResourceType::Model,
        name: sql.name,
        source_name: None,
        description: sql.sql_config.description,
        tags: first_seen(sql.sql_config.tags),
        tests: Seq::empty(),
        columns: Seq::empty(),
        meta: sql.sql_config.meta,
        materialized: sql.sql_config.materialized,
        sql_file: Some(sql.file_path),
        yaml_file: None,
    }
}

/// The record of a model that only a schema document declares.
pub open spec fn model_from_yaml(yaml: YamlConfigView) -> RecordView {
    RecordView {
        kind: ResourceType::Model,
        name: yaml.name,
        source_name: None,
        description: yaml.description,
        tags: first_seen(yaml.tags),
        tests: yaml.tests,
        columns: yaml.columns,
        meta: yaml.meta,
        materialized: None,
        sql_file: None,
        yaml_file: Some(yaml.file_path),
    }
}

/// The record of a source table, which holds what the schema document
/// declares and nothing of a transformation file. A declaration without a
/// group gives the empty group name.
pub open spec fn source_from_yaml(yaml: YamlConfigView) -> RecordView {
    RecordView {
        kind: ResourceType::Source,
        name: yaml.name,
        source_name: Some(
            match yaml.source_name {
                Some(group) => group,
                None => Seq::empty(),
            },
        ),
        description: yaml.description,
        tags: first_seen(yaml.tags),
        tests: yaml.tests,
        columns: Seq::empty(),
        meta: yaml.meta,
        materialized: None,
        sql_file: None,
        yaml_file: Some(yaml.file_path),
    }
}

/// The record of a resource that both kinds of file declare: a source table
/// where the transformation file is of that kind, a merged model otherwise.
pub open spec fn record_from_both(sql: SqlInfoView, yaml: YamlConfigView) -> RecordView {
    if sql.resource_type == ResourceType::Source {
        source_from_yaml(yaml)
    } else {
        merged_model(sql, yaml)
    }
}

/// The record of a resource that only a schema document declares: a source
/// table where the declaration is of that kind, a model otherwise.
pub open spec fn record_from_yaml(yaml: YamlConfigView) -> RecordView {
    if yaml.resource_type == ResourceType::Source {
        source_from_yaml(yaml)
    } else {
        model_from_yaml(yaml)
    }
}

/// The canonical record of a resource, from the declarations that exist for
/// it. Where none exists there is no record.
pub open spec fn reconciled(sql: Option<SqlInfoView>, yaml: Option<YamlConfigView>) -> Option<
    RecordView,
> {
    match (sql, yaml) {
        (Some(s), Some(y)) => Some(record_from_both(s, y)),
        (Some(s), None) => Some(model_from_sql(s)),
        (None, Some(y)) => Some(record_from_yaml(y)),
        (None, None) => None,
    }
}

/// The order in which records are made: the names of the transformation
/// files in their order, then the keys of the schema declarations that no
/// transformation file has, in theirs.
pub open spec fn merge_order(sql_keys: Seq<Seq<char>>, yaml_keys: Seq<Seq<char>>) -> Seq<
    Seq<char>,
> {
    sql_keys + yaml_keys.filter(|k: Seq<char>| !sql_keys.contains(k))
}

/// The canonical records of two sets of declarations, key by key: one record
/// for every key that either set has.
pub open spec fn reconciled_map(
    sqls: Map<Seq<char>, SqlInfoView>,
    yamls: Map<Seq<char>, YamlConfigView>,
) -> Map<Seq<char>, RecordView> {
    Map::new(
        |k: Seq<char>| sqls.contains_key(k) || yamls.contains_key(k),
        |k: Seq<char>| reconciled(sqls.get(k), yamls.get(k)).unwrap(),
    )
}

/// Whether a list of records is what two sets of declarations reconcile to:
/// one record for every key of `merge_order`, in that order, each made of the
/// declarations that exist under its key.
pub open spec fn reconciles(
    records: Seq<Resource>,
    sql_resources: NameMap<SqlResourceInfo>,
    yaml_configs: NameMap<YamlResourceConfig>,
) -> bool {
    let keys = merge_order(sql_resources.key_seq(), yaml_configs.key_seq());
    &&& records.len() == keys.len()
    &&& forall|i: int|
        0 <= i < records.len() ==> Some(#[trigger] records[i]@) == reconciled(
            value_views(sql_resources@).get(keys[i]),
            value_views(yaml_configs@).get(keys[i]),
        )
}

/// What the records of a list hold.
pub open spec fn record_views(records: Seq<Resource>) -> Seq<RecordView> {
    records.map_values(|record: Resource| record@)
}

/// The identity of a record by which it is told from every other: for a
/// source table the name of its group, a dot and its own name, for anything
/// else its name.
pub open spec fn identity(record: RecordView) -> Seq<char> {
    match record.source_name {
        Some(group) => table_key(group, record.name),
        None => record.name,
    }
}

/// Merged tags hold every tag of both lists and no other, each once, and
/// start with the tags of the schema document in their order.
pub proof fn lemma_merged_tags(yaml_tags: Seq<Seq<char>>, sql_tags: Seq<Seq<char>>)
    ensures
        merged_tags(yaml_tags, sql_tags).no_duplicates(),
        forall|tag: Seq<char>|
            merged_tags(yaml_tags, sql_tags).contains(tag) <==> yaml_tags.contains(tag)
                || sql_tags.contains(tag),
        first_seen(yaml_tags).is_prefix_of(merged_tags(yaml_tags, sql_tags)),
{
    let both = yaml_tags + sql_tags;
    lemma_first_seen(both);
    assert forall|tag: Seq<char>|
        merged_tags(yaml_tags, sql_tags).contains(tag) <==> yaml_tags.contains(tag)
            || sql_tags.contains(tag) by {
        assert(first_seen(both).contains(tag) <==> both.contains(tag));
        if both.contains(tag) {
            let i = choose|i: int| 0 <= i < both.len() && both[i] == tag;
            if i < yaml_tags.len() {
                assert(yaml_tags[i] == tag);
            } else {
                assert(sql_tags[i - yaml_tags.len()] == tag);
            }
        }
        if yaml_tags.contains(tag) {
            let i = choose|i: int| 0 <= i < yaml_tags.len() && yaml_tags[i] == tag;
            assert(both[i] == tag);
        }
        if sql_tags.contains(tag) {
            let i = choose|i: int| 0 <= i < sql_tags.len() && sql_tags[i] == tag;
            assert(both[yaml_tags.len() + i] == tag);
        }
    }
    lemma_first_seen_grows(yaml_tags, sql_tags);
}

/// Merged metadata holds the names of both maps; a name of the schema
/// document keeps the value of the schema document, any other name that of
/// the transformation file.
pub proof fn lemma_merged_meta(
    yaml_meta: Map<Seq<char>, Seq<char>>,
    sql_meta: Map<Seq<char>, Seq<char>>,
    name: Seq<char>,
)
    ensures
        merged_meta(yaml_meta, sql_meta).contains_key(name) <==> yaml_meta.contains_key(name)
            || sql_meta.contains_key(name),
        yaml_meta.contains_key(name) ==> merged_meta(yaml_meta, sql_meta)[name]
            == yaml_meta[name],
        !yaml_meta.contains_key(name) && sql_meta.contains_key(name) ==> merged_meta(
            yaml_meta,
            sql_meta,
        )[name] == sql_meta[name],
{
}

/// The distinct keys of a sequence stay in front when the sequence grows.
pub proof fn lemma_first_seen_grows(keys: Seq<Seq<char>>, more: Seq<Seq<char>>)
    ensures
        first_seen(keys).is_prefix_of(first_seen(keys + more)),
    decreases more.len(),
{
    if more.len() == 0 {
        assert(keys + more =~= keys);
    } else {
        lemma_first_seen_grows(keys, more.drop_last());
        assert((keys + more).drop_last() =~= keys + more.drop_last());
    }
}

/// Of distinct keys, those that a second sequence lacks are distinct too.
pub proof fn lemma_fresh_keys(keys: Seq<Seq<char>>, taken: Seq<Seq<char>>)
    requires
        keys.no_duplicates(),
    ensures
        keys.filter(|k: Seq<char>| !taken.contains(k)).no_duplicates(),
        forall|k: Seq<char>|
            keys.filter(|k: Seq<char>| !taken.contains(k)).contains(k) <==> keys.contains(k)
                && !taken.contains(k),
    decreases keys.len(),
{
    let fresh = |k: Seq<char>| !taken.contains(k);
    if keys.len() == 0 {
        assert(keys.filter(fresh) =~= Seq::empty()) by {
            keys.lemma_filter_len(fresh);
        }
    } else {
        let front = keys.drop_last();
        let last = keys.last();
        lemma_fresh_keys(front, taken);
        assert(keys =~= front.push(last));
        front.lemma_filter_push(last, fresh);
        assert(!front.contains(last)) by {
            if front.contains(last) {
                let i = choose|i: int| 0 <= i < front.len() && front[i] == last;
                assert(keys[i] == keys[keys.len() - 1]);
            }
        }
        assert forall|k: Seq<char>|
            keys.filter(fresh).contains(k) <==> keys.contains(k) && !taken.contains(k) by {
            if keys.contains(k) {
                let i = choose|i: int| 0 <= i < keys.len() && keys[i] == k;
                if i < front.len() {
                    assert(front[i] == k);
                }
            }
            if front.contains(k) {
                let i = choose|i: int| 0 <= i < front.len() && front[i] == k;
                assert(keys[i] == k);
            }
            if k == last {
                assert(keys[keys.len() - 1] == k);
            }
            if keys.filter(fresh).contains(k) {
                let j = choose|j: int|
                    0 <= j < keys.filter(fresh).len() && keys.filter(fresh)[j] == k;
                if j < front.filter(fresh).len() {
                    assert(front.filter(fresh)[j] == k);
                }
            }
            if front.filter(fresh).contains(k) {
                let j = choose|j: int|
                    0 <= j < front.filter(fresh).len() && front.filter(fresh)[j] == k;
                assert(keys.filter(fresh)[j] == k);
            }
            if k == last && fresh(last) {
                assert(keys.filter(fresh)[front.filter(fresh).len() as int] == k);
            }
        }
    }
}

/// Exactly one record is made for every key: the order of the records holds
/// every key of either set of declarations, each once.
pub proof fn lemma_merge_order(sql_keys: Seq<Seq<char>>, yaml_keys: Seq<Seq<char>>)
    requires
        sql_keys.no_duplicates(),
        yaml_keys.no_duplicates(),
    ensures
        merge_order(sql_keys, yaml_keys).no_duplicates(),
        forall|k: Seq<char>|
            merge_order(sql_keys, yaml_keys).contains(k) <==> sql_keys.contains(k)
                || yaml_keys.contains(k),
{
    let rest = yaml_keys.filter(|k: Seq<char>| !sql_keys.contains(k));
    let order = merge_order(sql_keys, yaml_keys);
    lemma_fresh_keys(yaml_keys, sql_keys);
    assert forall|i: int, j: int|
        0 <= i < sql_keys.len() && 0 <= j < rest.len() implies sql_keys[i] != rest[j] by {
        assert(rest.contains(rest[j]));
        assert(sql_keys.contains(sql_keys[i]));
    }
    lemma_no_dup_in_concat(sql_keys, rest);
    assert forall|k: Seq<char>|
        order.contains(k) <==> sql_keys.contains(k) || yaml_keys.contains(k) by {
        if order.contains(k) {
            let i = choose|i: int| 0 <= i < order.len() && order[i] == k;
            if i < sql_keys.len() {
                assert(sql_keys[i] == k);
            } else {
                assert(rest[i - sql_keys.len()] == k);
                assert(rest.contains(k));
            }
        }
        if sql_keys.contains(k) {
            let i = choose|i: int| 0 <= i < sql_keys.len() && sql_keys[i] == k;
            assert(order[i] == k);
        } else if yaml_keys.contains(k) {
            assert(rest.contains(k));
            let j = choose|j: int| 0 <= j < rest.len() && rest[j] == k;
            assert(order[sql_keys.len() + j] == k);
        }
    }
}

/// A record that only a transformation file backs names that file and no
/// schema file; a record that only a schema document backs names that
/// document and no transformation file.
pub proof fn lemma_single_origin(sql: SqlInfoView, yaml: YamlConfigView)
    ensures
        reconciled(Some(sql), None).unwrap().sql_file == Some(sql.file_path),
        reconciled(Some(sql), None).unwrap().yaml_file is None,
        reconciled(None, Some(yaml)).unwrap().yaml_file == Some(yaml.file_path),
        reconciled(None, Some(yaml)).unwrap().sql_file is None,
{
}

/// Whether a declaration of a kind is reconciled as a model though it is of
/// another kind: so it is for every kind but the model and the source table.
pub fn is_reconciled_as_model(kind: ResourceType) -> (folded: bool)
    ensures
        folded == (kind != ResourceType::Model && kind != ResourceType::Source),
{
    match kind {
        ResourceType::Model => false,
        ResourceType::Source => false,
        _ => true,
    }
}

/// Whether a list of strings holds `needle`.
fn contains_text(list: &Vec<String>, needle: &str) -> (found: bool)
    ensures
        found == texts(list@).contains(needle@),
{
    let mut i: usize = 0;
    while i < list.len()
        invariant
            i <= list.len(),
            forall|j: int| 0 <= j < i ==> texts(list@)[j] != needle@,
        decreases list.len() - i,
    {
        if str_eq(list[i].as_str(), needle) {
            assert(texts(list@)[i as int] == needle@);
            return true;
        }
        i += 1;
    }
    false
}

/// Adds to `out` the strings of `more` that it does not hold yet.
fn push_unseen(out: &mut Vec<String>, more: &Vec<String>, Ghost(seen): Ghost<Seq<Seq<char>>>)
    requires
        texts(old(out)@) == first_seen(seen),
    ensures
        texts(final(out)@) == first_seen(seen + texts(more@)),
{
    let mut i: usize = 0;
    assert(seen + texts(more@).take(0) =~= seen);
    while i < more.len()
        invariant
            i <= more.len(),
            texts(out@) == first_seen(seen + texts(more@).take(i as int)),
        decreases more.len() - i,
    {
        let ghost before = out@;
        let ghost so_far = seen + texts(more@).take(i as int);
        let ghost next = seen + texts(more@).take(i + 1);
        proof {
            assert(next.drop_last() =~= so_far);
            assert(next.last() == more@[i as int]@);
        }
        if !contains_text(out, more[i].as_str()) {
            let tag = more[i].clone();
            out.push(tag);
            assert(texts(out@) =~= texts(before).push(tag@));
        }
        i += 1;
    }
    assert(texts(more@).take(more.len() as int) =~= texts(more@));
}

/// The strings of a list, each once, at the place of its first occurrence.
pub fn distinct_texts(list: &Vec<String>) -> (out: Vec<String>)
    ensures
        texts(out@) == first_seen(texts(list@)),
{
    let mut out: Vec<String> = Vec::new();
    assert(texts(out@) =~= first_seen(Seq::empty()));
    push_unseen(&mut out, list, Ghost(Seq::empty()));
    assert(Seq::<Seq<char>>::empty() + texts(list@) =~= texts(list@));
    out
}

/// The tags of the schema document, then those of the transformation file,
/// each tag once.
pub fn merge_tags(yaml_tags: &Vec<String>, sql_tags: &Vec<String>) -> (tags: Vec<String>)
    ensures
        texts(tags@) == merged_tags(texts(yaml_tags@), texts(sql_tags@)),
{
    let mut tags = distinct_texts(yaml_tags);
    push_unseen(&mut tags, sql_tags, Ghost(texts(yaml_tags@)));
    tags
}

/// The metadata entries of both maps, those of the schema document standing
/// where both have a name.
pub fn merge_meta(yaml_meta: &NameMap<String>, sql_meta: &NameMap<String>) -> (meta: NameMap<
    String,
>)
    ensures
        text_map(meta@) == merged_meta(text_map(yaml_meta@), text_map(sql_meta@)),
{
    let mut meta = clone_text_map(sql_meta);
    let n: usize = yaml_meta.len();
    let mut i: usize = 0;
    proof {
        assert forall|k: Seq<char>| meta@.contains_key(k) <==> sql_meta@.contains_key(k) by {
            assert(text_map(meta@).contains_key(k) <==> meta@.contains_key(k));
            assert(text_map(sql_meta@).contains_key(k) <==> sql_meta@.contains_key(k));
        }
        assert forall|k: Seq<char>| meta@.contains_key(k) implies meta@[k]@ == text_map(
            sql_meta@,
        )[k] by {
            assert(text_map(meta@)[k] == meta@[k]@);
        }
    }
    while i < n
        invariant
            i <= n,
            n == yaml_meta.key_seq().len(),
            yaml_meta.ordered(),
            forall|k: Seq<char>|
                meta@.contains_key(k) <==> sql_meta@.contains_key(k) || yaml_meta.key_seq().take(
                    i as int,
                ).contains(k),
            forall|k: Seq<char>|
                meta@.contains_key(k) ==> meta@[k]@ == if yaml_meta.key_seq().take(
                    i as int,
                ).contains(k) {
                    yaml_meta@[k]@
                } else {
                    text_map(sql_meta@)[k]
                },
        decreases n - i,
    {
        let ghost before = meta@;
        let ghost seen = yaml_meta.key_seq().take(i as int);
        let ghost next = yaml_meta.key_seq().take(i + 1);
        let key = yaml_meta.key_at(i).clone();
        let value = yaml_meta.value_at(i).clone();
        meta.insert(key, value);
        proof {
            assert(next =~= seen.push(key@));
            assert forall|k: Seq<char>| next.contains(k) <==> seen.contains(k) || k == key@ by {
                if next.contains(k) {
                    let j = choose|j: int| 0 <= j < next.len() && next[j] == k;
                    if j < seen.len() {
                        assert(seen[j] == k);
                    }
                }
                if seen.contains(k) {
                    let j = choose|j: int| 0 <= j < seen.len() && seen[j] == k;
                    assert(next[j] == k);
                }
                if k == key@ {
                    assert(next[i as int] == k);
                }
            }
        }
        i += 1;
    }
    proof {
        assert(yaml_meta.key_seq().take(n as int) =~= yaml_meta.key_seq());
        assert forall|k: Seq<char>| yaml_meta.key_seq().contains(k) <==> yaml_meta@.contains_key(
            k,
        ) by {
            assert(yaml_meta@.dom() == yaml_meta.key_seq().to_set());
            assert(yaml_meta.key_seq().to_set().contains(k) <==> yaml_meta.key_seq().contains(k));
        }
        assert(text_map(meta@) =~= merged_meta(text_map(yaml_meta@), text_map(sql_meta@)));
    }
    meta
}

/// The record of a source table from its schema declaration.
fn source_table_from(yaml: &YamlResourceConfig) -> (record: Resource)
    ensures
        record@ == source_from_yaml(yaml@),
{
    let group = match &yaml.source_name {
        Some(name) => name.clone(),
        None => String::new(),
    };
    let mut table = Source::new(yaml.name.clone(), group);
    table.description = clone_opt_text(&yaml.description);
    table.tags = distinct_texts(&yaml.tags);
    table.tests = clone_texts(&yaml.tests);
    table.meta = clone_text_map(&yaml.meta);
    table.yaml_file = Some(yaml.file_path.clone());
    Resource::Source(table)
}

/// The record of a source table that a transformation file and a schema
/// document both declare: the schema document alone is read.
pub fn create_source_table_from_configs(
    sql: &SqlResourceInfo,
    yaml: &YamlResourceConfig,
) -> (record: Resource)
    ensures
        record@ == source_from_yaml(yaml@),
{
    source_table_from(yaml)
}

/// The record of a resource that only a transformation file declares.
/// Whatever the kind of the declaration, the record is a model.
pub fn create_resource_from_sql_only(sql: &SqlResourceInfo) -> (record: Resource)
    ensures
        record@ == model_from_sql(sql@),
{
    let mut model = Model::new(sql.name.clone());
    model.description = clone_opt_text(&sql.sql_config.description);
    model.tags = distinct_texts(&sql.sql_config.tags);
    model.meta = clone_text_map(&sql.sql_config.meta);
    model.materialized = clone_opt_text(&sql.sql_config.materialized);
    model.sql_file = Some(sql.file_path.clone());
    Resource::Model(model)
}

/// The record of a resource that only a schema document declares: a source
/// table where the declaration is of that kind, a model otherwise.
pub fn create_resource_from_yaml_only(yaml: &YamlResourceConfig) -> (record: Resource)
    ensures
        record@ == record_from_yaml(yaml@),
{
    match yaml.resource_type {
        ResourceType::Source => source_table_from(yaml),
        _ => {
            let mut model = Model::new(yaml.name.clone());
            model.description = clone_opt_text(&yaml.description);
            model.tags = distinct_texts(&yaml.tags);
            model.tests = clone_texts(&yaml.tests);
            model.meta = clone_text_map(&yaml.meta);
            model.columns = clone_columns(&yaml.columns);
            model.yaml_file = Some(yaml.file_path.clone());
            Resource::Model(model)
        },
    }
}

/// The record of a resource that a transformation file and a schema document
/// both declare: a source table where the transformation file is of that
/// kind, a merged model otherwise.
pub fn merge_sql_and_yaml_config(sql: &SqlResourceInfo, yaml: &YamlResourceConfig) -> (record:
    Resource)
    ensures
        record@ == record_from_both(sql@, yaml@),
{
    match sql.resource_type {
        ResourceType::Source => create_source_table_from_configs(sql, yaml),
        _ => {
            let mut model = Model::new(sql.name.clone());
            model.description = match &yaml.description {
                Some(text) => Some(text.clone()),
                None => clone_opt_text(&sql.sql_config.description),
            };
            model.tags = merge_tags(&yaml.tags, &sql.sql_config.tags);
            model.tests = clone_texts(&yaml.tests);
            model.meta = merge_meta(&yaml.meta, &sql.sql_config.meta);
            model.columns = clone_columns(&yaml.columns);
            model.materialized = clone_opt_text(&sql.sql_config.materialized);
            model.sql_file = Some(sql.file_path.clone());
            model.yaml_file = Some(yaml.file_path.clone());
            Resource::Model(model)
        },
    }
}

/// The canonical records of two sets of declarations: one for every key that
/// either set has, in the order of `merge_order`.
pub fn merge_configurations(
    sql_resources: NameMap<SqlResourceInfo>,
    yaml_configs: NameMap<YamlResourceConfig>,
) -> (records: Vec<Resource>)
    ensures
        reconciles(records@, sql_resources, yaml_configs),
{
    reconcile(&sql_resources, &yaml_configs)
}

/// The canonical records of two borrowed sets of declarations.
pub fn reconcile(
    sql_resources: &NameMap<SqlResourceInfo>,
    yaml_configs: &NameMap<YamlResourceConfig>,
) -> (records: Vec<Resource>)
    ensures
        reconciles(records@, *sql_resources, *yaml_configs),
{
    let ghost sqls = value_views(sql_resources@);
    let ghost yamls = value_views(yaml_configs@);
    let ghost sql_keys = sql_resources.key_seq();
    let ghost yaml_keys = yaml_configs.key_seq();
    let ghost fresh = |k: Seq<char>| !sql_keys.contains(k);
    let mut records: Vec<Resource> = Vec::new();
    let ghost mut keys: Seq<Seq<char>> = Seq::empty();
    let n: usize = sql_resources.len();
    let mut i: usize = 0;
    while i < n
        invariant
            i <= n,
            n == sql_keys.len(),
            sqls == value_views(sql_resources@),
            yamls == value_views(yaml_configs@),
            sql_keys == sql_resources.key_seq(),
            sql_resources.ordered(),
            keys == sql_keys.take(i as int),
            records.len() == keys.len(),
            forall|j: int|
                0 <= j < records.len() ==> Some(#[trigger] records@[j]@) == reconciled(
                    sqls.get(keys[j]),
                    yamls.get(keys[j]),
                ),
        decreases n - i,
    {
        let key = sql_resources.key_at(i);
        let sql = sql_resources.value_at(i);
        let ghost before = records@;
        proof {
            assert(sql_keys.contains(key@));
            assert(sql_resources@.contains_key(key@));
            assert(sqls.get(key@) == Some(sql@));
        }
        let record = match yaml_configs.get(key.as_str()) {
            Some(yaml) => {
                assert(yamls.get(key@) == Some(yaml@));
                merge_sql_and_yaml_config(sql, yaml)
            },
            None => {
                assert(yamls.get(key@) is None);
                create_resource_from_sql_only(sql)
            },
        };
        records.push(record);
        proof {
            keys = keys.push(key@);
            assert(keys =~= sql_keys.take(i + 1));
            assert forall|j: int| 0 <= j < records.len() implies Some(#[trigger] records@[j]@)
                == reconciled(sqls.get(keys[j]), yamls.get(keys[j])) by {
                if j < before.len() {
                    assert(records@[j] == before[j]);
                }
            }
        }
        i += 1;
    }
    assert(sql_keys.take(n as int) =~= sql_keys);
    let m: usize = yaml_configs.len();
    let mut j: usize = 0;
    assert(yaml_keys.take(0).filter(fresh) =~= Seq::empty());
    assert(keys =~= sql_keys + yaml_keys.take(0).filter(fresh));
    while j < m
        invariant
            j <= m,
            m == yaml_keys.len(),
            sqls == value_views(sql_resources@),
            yamls == value_views(yaml_configs@),
            sql_keys == sql_resources.key_seq(),
            yaml_keys == yaml_configs.key_seq(),
            fresh == |k: Seq<char>| !sql_keys.contains(k),
            sql_resources.ordered(),
            yaml_configs.ordered(),
            keys == sql_keys + yaml_keys.take(j as int).filter(fresh),
            records.len() == keys.len(),
            forall|t: int|
                0 <= t < records.len() ==> Some(#[trigger] records@[t]@) == reconciled(
                    sqls.get(keys[t]),
                    yamls.get(keys[t]),
                ),
        decreases m - j,
    {
        let key = yaml_configs.key_at(j);
        let ghost before = records@;
        let ghost old_keys = keys;
        proof {
            assert(yaml_keys.take(j + 1) =~= yaml_keys.take(j as int).push(key@));
            yaml_keys.take(j as int).lemma_filter_push(key@, fresh);
            assert(sql_resources@.dom() == sql_keys.to_set());
            assert(sql_keys.to_set().contains(key@) <==> sql_keys.contains(key@));
        }
        if !sql_resources.contains_key(key.as_str()) {
            let yaml = yaml_configs.value_at(j);
            proof {
                assert(yaml_keys.contains(key@));
                assert(yaml_configs@.contains_key(key@));
                assert(yamls.get(key@) == Some(yaml@));
                assert(sqls.get(key@) is None);
            }
            let record = create_resource_from_yaml_only(yaml);
            records.push(record);
            proof {
                keys = keys.push(key@);
                assert(keys =~= sql_keys + yaml_keys.take(j + 1).filter(fresh));
                assert forall|t: int| 0 <= t < records.len() implies Some(
                    #[trigger] records@[t]@,
                ) == reconciled(sqls.get(keys[t]), yamls.get(keys[t])) by {
                    if t < before.len() {
                        assert(records@[t] == before[t]);
                        assert(keys[t] == old_keys[t]);
                    }
                }
            }
        } else {
            assert(keys =~= sql_keys + yaml_keys.take(j + 1).filter(fresh));
        }
        j += 1;
    }
    assert(yaml_keys.take(m as int) =~= yaml_keys);
    records
}

} // verus!
