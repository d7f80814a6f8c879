//! Extraction of declarations from the two kinds of file, and their
//! reconciliation.
//!
//! The parser takes the files of a project as values: for every
//! transformation file its path and text, for every schema file its path and
//! document. Where two transformation files give the same name, or two
//! schema declarations the same key, the later one stands and the name is
//! reported as repeated.

pub mod merger;
pub mod sql;
pub mod yaml;

use vstd::prelude::*;
use crate::name_map::{
    collected, entry_keys, first_seen, gathers, lemma_collected, lemma_collected_ignores_order,
    lemma_first_seen, repeated, store, value_views, NameMap,
};
use crate::parser::merger::{
    identity, lemma_merge_order, merge_order, reconcile, reconciled, reconciled_map, record_views,
};
use crate::parser::sql::{
    lemma_first_dir_kind, parse_sql_file, resource_name, sql_declaration, SqlInfoView,
    SqlResourceInfo,
};
use crate::parser::yaml::{
    gather_into, is_well_keyed, lemma_schema_entries, schema_entries, Keyed, SchemaFile,
    YamlResourceConfig,
};
use crate::text::split_on;
use crate::text::texts;
use crate::types::dbt::record::Resource;
use crate::types::dbt::resource::RecordView;

verus! {

/// The parser of a project.
#[derive(Debug, Clone)]
pub struct DbtProjectParser {
    project_path: String,
}

/// The paths and texts of a list of transformation files.
pub open spec fn sql_file_views(files: Seq<(String, String)>) -> Seq<(Seq<char>, Seq<char>)> {
    files.map_values(|file: (String, String)| (file.0@, file.1@))
}

/// The paths and documents of a list of schema files.
pub open spec fn schema_file_views(files: Seq<(String, SchemaFile)>) -> Seq<
    (Seq<char>, SchemaFile),
> {
    files.map_values(|file: (String, SchemaFile)| (file.0@, file.1))
}

/// The declarations of a list of transformation files, each under the name of
/// its resource, in the order of the files.
pub open spec fn sql_entries(files: Seq<(Seq<char>, Seq<char>)>) -> Seq<(Seq<char>, SqlInfoView)> {
    files.map_values(
        |file: (Seq<char>, Seq<char>)| (resource_name(file.0), sql_declaration(file.0, file.1)),
    )
}

/// The declarations of a list of schema files, each under its key: those of
/// the first file, then those of the second, and so on.
pub open spec fn yaml_entries(files: Seq<(Seq<char>, SchemaFile)>) -> Seq<Keyed>
    decreases files.len(),
{
    if files.len() == 0 {
        Seq::empty()
    } else {
        yaml_entries(files.drop_last()) + schema_entries(files.last().1, files.last().0)
    }
}

/// The keys of the canonical records of a project, in the order of the
/// records.
pub open spec fn canonical_keys(
    sql_files: Seq<(Seq<char>, Seq<char>)>,
    schema_files: Seq<(Seq<char>, SchemaFile)>,
) -> Seq<Seq<char>> {
    merge_order(
        first_seen(entry_keys(sql_entries(sql_files))),
        first_seen(entry_keys(yaml_entries(schema_files))),
    )
}

/// The canonical records of a project, key by key.
pub open spec fn canonical_map(
    sql_files: Seq<(Seq<char>, Seq<char>)>,
    schema_files: Seq<(Seq<char>, SchemaFile)>,
) -> Map<Seq<char>, RecordView> {
    reconciled_map(collected(sql_entries(sql_files)), collected(yaml_entries(schema_files)))
}

/// The canonical records of a project, in order.
pub open spec fn canonical_records(
    sql_files: Seq<(Seq<char>, Seq<char>)>,
    schema_files: Seq<(Seq<char>, SchemaFile)>,
) -> Seq<RecordView> {
    canonical_keys(sql_files, schema_files).map_values(
        |k: Seq<char>| canonical_map(sql_files, schema_files)[k],
    )
}

/// A declaration is among those of a list of schema files exactly if one of
/// the files makes it.
pub proof fn lemma_yaml_entries(files: Seq<(Seq<char>, SchemaFile)>, entry: Keyed)
    ensures
        yaml_entries(files).contains(entry) <==> exists|i: int|
            0 <= i < files.len() && #[trigger] schema_entries(files[i].1, files[i].0).contains(
                entry,
            ),
    decreases files.len(),
{
    if files.len() > 0 {
        let front = files.drop_last();
        let last = schema_entries(files.last().1, files.last().0);
        let all = yaml_entries(files);
        lemma_yaml_entries(front, entry);
        if all.contains(entry) {
            let n = choose|n: int| 0 <= n < all.len() && all[n] == entry;
            if n < yaml_entries(front).len() {
                assert(yaml_entries(front)[n] == entry);
                assert(yaml_entries(front).contains(entry));
                let i = choose|i: int|
                    0 <= i < front.len() && #[trigger] schema_entries(
                        front[i].1,
                        front[i].0,
                    ).contains(entry);
                assert(schema_entries(files[i].1, files[i].0).contains(entry));
            } else {
                assert(last[n - yaml_entries(front).len()] == entry);
                assert(schema_entries(files[files.len() - 1].1, files[files.len() - 1].0).contains(
                    entry,
                ));
            }
        }
        if exists|i: int|
            0 <= i < files.len() && #[trigger] schema_entries(files[i].1, files[i].0).contains(
                entry,
            ) {
            let i = choose|i: int|
                0 <= i < files.len() && #[trigger] schema_entries(files[i].1, files[i].0).contains(
                    entry,
                );
            if i < front.len() {
                assert(schema_entries(front[i].1, front[i].0).contains(entry));
                assert(yaml_entries(front).contains(entry));
                let n = choose|n: int|
                    0 <= n < yaml_entries(front).len() && yaml_entries(front)[n] == entry;
                assert(all[n] == entry);
            } else {
                let n = choose|n: int| 0 <= n < last.len() && last[n] == entry;
                assert(all[yaml_entries(front).len() + n] == entry);
            }
        }
    }
}

/// Exactly one canonical record exists for every key that a transformation
/// file or a schema document declares: the keys of the records are distinct
/// and are the keys of the canonical map.
pub proof fn lemma_one_record_per_key(
    sql_files: Seq<(Seq<char>, Seq<char>)>,
    schema_files: Seq<(Seq<char>, SchemaFile)>,
)
    ensures
        canonical_keys(sql_files, schema_files).no_duplicates(),
        canonical_keys(sql_files, schema_files).len() == canonical_records(
            sql_files,
            schema_files,
        ).len(),
        forall|k: Seq<char>|
            canonical_keys(sql_files, schema_files).contains(k) <==> canonical_map(
                sql_files,
                schema_files,
            ).contains_key(k),
{
    let sql_keys = entry_keys(sql_entries(sql_files));
    let yaml_keys = entry_keys(yaml_entries(schema_files));
    lemma_first_seen(sql_keys);
    lemma_first_seen(yaml_keys);
    lemma_merge_order(first_seen(sql_keys), first_seen(yaml_keys));
    lemma_collected(sql_entries(sql_files));
    lemma_collected(yaml_entries(schema_files));
    assert forall|k: Seq<char>|
        canonical_keys(sql_files, schema_files).contains(k) <==> canonical_map(
            sql_files,
            schema_files,
        ).contains_key(k) by {
        assert(first_seen(sql_keys).contains(k) <==> sql_keys.contains(k));
        assert(first_seen(yaml_keys).contains(k) <==> yaml_keys.contains(k));
        assert(collected(sql_entries(sql_files)).contains_key(k) <==> sql_keys.contains(k));
        assert(collected(yaml_entries(schema_files)).contains_key(k) <==> yaml_keys.contains(k));
    }
}

/// Every canonical record of a project stands under its own identity: the
/// key of a record is the identity of the record.
pub proof fn lemma_record_identity(
    sql_files: Seq<(Seq<char>, Seq<char>)>,
    schema_files: Seq<(Seq<char>, SchemaFile)>,
    k: Seq<char>,
)
    requires
        canonical_map(sql_files, schema_files).contains_key(k),
    ensures
        identity(canonical_map(sql_files, schema_files)[k]) == k,
{
    let sqls = collected(sql_entries(sql_files));
    let yamls = collected(yaml_entries(schema_files));
    lemma_collected(sql_entries(sql_files));
    lemma_collected(yaml_entries(schema_files));
    if sqls.contains_key(k) {
        let e = (k, sqls[k]);
        let i = choose|i: int| 0 <= i < sql_entries(sql_files).len() && sql_entries(sql_files)[i]
            == e;
        lemma_first_dir_kind(split_on(sql_files[i].0, '/').drop_last(), 0);
    }
    if yamls.contains_key(k) {
        let e = (k, yamls[k]);
        lemma_yaml_entries(schema_files, e);
        let i = choose|i: int|
            0 <= i < schema_files.len() && #[trigger] schema_entries(
                schema_files[i].1,
                schema_files[i].0,
            ).contains(e);
        lemma_schema_entries(schema_files[i].1, schema_files[i].0, e);
        assert(is_well_keyed(e));
    }
}

/// No two canonical records of a project have the same identity.
pub proof fn lemma_identities_are_distinct(
    sql_files: Seq<(Seq<char>, Seq<char>)>,
    schema_files: Seq<(Seq<char>, SchemaFile)>,
    i: int,
    j: int,
)
    requires
        0 <= i < j < canonical_records(sql_files, schema_files).len(),
    ensures
        identity(canonical_records(sql_files, schema_files)[i]) != identity(
            canonical_records(sql_files, schema_files)[j],
        ),
{
    let keys = canonical_keys(sql_files, schema_files);
    lemma_one_record_per_key(sql_files, schema_files);
    assert(keys.contains(keys[i]));
    assert(keys.contains(keys[j]));
    lemma_record_identity(sql_files, schema_files, keys[i]);
    lemma_record_identity(sql_files, schema_files, keys[j]);
}

/// Reconciliation does not depend on the order of the files. Two lists of
/// transformation files that hold the same files, no two of them for the same
/// resource, and two lists of schema files that hold the same files, no two
/// declarations under the same key, give the same canonical record for every
/// key, and the same set of canonical records.
pub proof fn lemma_reconciliation_ignores_order(
    sql_a: Seq<(Seq<char>, Seq<char>)>,
    sql_b: Seq<(Seq<char>, Seq<char>)>,
    schema_a: Seq<(Seq<char>, SchemaFile)>,
    schema_b: Seq<(Seq<char>, SchemaFile)>,
)
    requires
        sql_a.to_set() == sql_b.to_set(),
        schema_a.to_set() == schema_b.to_set(),
        entry_keys(sql_entries(sql_a)).no_duplicates(),
        entry_keys(yaml_entries(schema_a)).no_duplicates(),
    ensures
        canonical_map(sql_a, schema_a) == canonical_map(sql_b, schema_b),
        canonical_records(sql_a, schema_a).to_set() == canonical_records(sql_b, schema_b).to_set(),
{
    assert forall|e: (Seq<char>, SqlInfoView)|
        sql_entries(sql_a).contains(e) <==> sql_entries(sql_b).contains(e) by {
        if sql_entries(sql_a).contains(e) {
            lemma_same_sql_entries(sql_a, sql_b, e);
        }
        if sql_entries(sql_b).contains(e) {
            lemma_same_sql_entries(sql_b, sql_a, e);
        }
    }
    assert forall|e: Keyed| yaml_entries(schema_a).contains(e) <==> yaml_entries(
        schema_b,
    ).contains(e) by {
        if yaml_entries(schema_a).contains(e) {
            lemma_same_yaml_entries(schema_a, schema_b, e);
        }
        if yaml_entries(schema_b).contains(e) {
            lemma_same_yaml_entries(schema_b, schema_a, e);
        }
    }
    lemma_collected_ignores_order(sql_entries(sql_a), sql_entries(sql_b));
    lemma_collected_ignores_order(yaml_entries(schema_a), yaml_entries(schema_b));
    let map = canonical_map(sql_a, schema_a);
    let keys_a = canonical_keys(sql_a, schema_a);
    let keys_b = canonical_keys(sql_b, schema_b);
    let records_a = canonical_records(sql_a, schema_a);
    let records_b = canonical_records(sql_b, schema_b);
    lemma_one_record_per_key(sql_a, schema_a);
    lemma_one_record_per_key(sql_b, schema_b);
    assert forall|r: RecordView| records_a.contains(r) <==> records_b.contains(r) by {
        if records_a.contains(r) {
            let i = choose|i: int| 0 <= i < records_a.len() && records_a[i] == r;
            assert(keys_a.contains(keys_a[i]));
            assert(keys_b.contains(keys_a[i]));
            let j = choose|j: int| 0 <= j < keys_b.len() && keys_b[j] == keys_a[i];
            assert(records_b[j] == r);
        }
        if records_b.contains(r) {
            let i = choose|i: int| 0 <= i < records_b.len() && records_b[i] == r;
            assert(keys_b.contains(keys_b[i]));
            assert(keys_a.contains(keys_b[i]));
            let j = choose|j: int| 0 <= j < keys_a.len() && keys_a[j] == keys_b[i];
            assert(records_a[j] == r);
        }
    }
    assert(records_a.to_set() =~= records_b.to_set());
}

/// A declaration of a list of transformation files is one of every list that
/// holds the same files.
proof fn lemma_same_sql_entries(
    a: Seq<(Seq<char>, Seq<char>)>,
    b: Seq<(Seq<char>, Seq<char>)>,
    e: (Seq<char>, SqlInfoView),
)
    requires
        a.to_set() == b.to_set(),
        sql_entries(a).contains(e),
    ensures
        sql_entries(b).contains(e),
{
    let i = choose|i: int| 0 <= i < sql_entries(a).len() && sql_entries(a)[i] == e;
    assert(a.contains(a[i]));
    assert(a.to_set().contains(a[i]));
    assert(b.to_set().contains(a[i]));
    assert(b.contains(a[i]));
    let j = choose|j: int| 0 <= j < b.len() && b[j] == a[i];
    assert(sql_entries(b)[j] == e);
}

/// A declaration of a list of schema files is one of every list that holds
/// the same files.
proof fn lemma_same_yaml_entries(
    a: Seq<(Seq<char>, SchemaFile)>,
    b: Seq<(Seq<char>, SchemaFile)>,
    e: Keyed,
)
    requires
        a.to_set() == b.to_set(),
        yaml_entries(a).contains(e),
    ensures
        yaml_entries(b).contains(e),
{
    lemma_yaml_entries(a, e);
    lemma_yaml_entries(b, e);
    let i = choose|i: int|
        0 <= i < a.len() && #[trigger] schema_entries(a[i].1, a[i].0).contains(e);
    assert(a.contains(a[i]));
    assert(a.to_set().contains(a[i]));
    assert(b.to_set().contains(a[i]));
    assert(b.contains(a[i]));
    let j = choose|j: int| 0 <= j < b.len() && b[j] == a[i];
    assert(schema_entries(b[j].1, b[j].0).contains(e));
}

/// The declarations of a list of transformation files under the names of
/// their resources, and the names that more than one file gives.
fn gather_sql(files: &Vec<(String, String)>) -> (out: (NameMap<SqlResourceInfo>, Vec<String>))
    ensures
        gathers(out.0, out.1@, sql_entries(sql_file_views(files@))),
{
    let ghost all = sql_entries(sql_file_views(files@));
    let mut infos: NameMap<SqlResourceInfo> = NameMap::new();
    let mut repeats: Vec<String> = Vec::new();
    let mut i: usize = 0;
    proof {
        assert(value_views(infos@) =~= collected(all.take(0)));
        assert(texts(repeats@) =~= Seq::empty());
        assert(entry_keys(all.take(0)) =~= Seq::empty());
    }
    while i < files.len()
        invariant
            i <= files.len(),
            all == sql_entries(sql_file_views(files@)),
            gathers(infos, repeats@, all.take(i as int)),
        decreases files.len() - i,
    {
        let info = parse_sql_file(files[i].0.as_str(), files[i].1.as_str());
        let key = info.name.clone();
        proof {
            assert(sql_file_views(files@)[i as int] == (files@[i as int].0@, files@[i as int].1@));
            assert(all[i as int] == (key@, info@));
            assert(all.take(i + 1) =~= all.take(i as int).push((key@, info@)));
        }
        store(&mut infos, &mut repeats, key, info, Ghost(all.take(i as int)));
        i += 1;
    }
    assert(all.take(files.len() as int) =~= all);
    (infos, repeats)
}

/// The declarations of a list of schema files under their keys, and the keys
/// that are declared more than once.
fn gather_yaml(files: &Vec<(String, SchemaFile)>) -> (out: (
    NameMap<YamlResourceConfig>,
    Vec<String>,
))
    ensures
        gathers(out.0, out.1@, yaml_entries(schema_file_views(files@))),
{
    let ghost all = schema_file_views(files@);
    let mut configs: NameMap<YamlResourceConfig> = NameMap::new();
    let mut repeats: Vec<String> = Vec::new();
    let mut i: usize = 0;
    proof {
        assert(value_views(configs@) =~= collected(yaml_entries(all.take(0))));
        assert(texts(repeats@) =~= Seq::empty());
        assert(entry_keys(yaml_entries(all.take(0))) =~= Seq::empty());
    }
    while i < files.len()
        invariant
            i <= files.len(),
            all == schema_file_views(files@),
            gathers(configs, repeats@, yaml_entries(all.take(i as int))),
        decreases files.len() - i,
    {
        proof {
            assert(all.take(i + 1).drop_last() =~= all.take(i as int));
            assert(all.take(i + 1).last() == (files@[i as int].0@, files@[i as int].1));
        }
        gather_into(
            &mut configs,
            &mut repeats,
            &files[i].1,
            files[i].0.as_str(),
            Ghost(yaml_entries(all.take(i as int))),
        );
        i += 1;
    }
    assert(all.take(files.len() as int) =~= all);
    (configs, repeats)
}

impl DbtProjectParser {
    /// The path of the project that the parser was made for.
    pub closed spec fn path(&self) -> Seq<char> {
        self.project_path@
    }

    /// A parser for the project at `project_path`.
    pub fn new(project_path: String) -> (parser: DbtProjectParser)
        ensures
            parser.path() == project_path@,
    {
        DbtProjectParser { project_path }
    }

    /// The path of the project.
    pub fn project_path(&self) -> (path: &str)
        ensures
            path@ == self.path(),
    {
        self.project_path.as_str()
    }

    /// The declarations of the transformation files, each under the name of
    /// its resource. Where several files give one name, the last stands.
    pub fn parse_sql_files(&self, files: &Vec<(String, String)>) -> (infos: NameMap<
        SqlResourceInfo,
    >)
        ensures
            value_views(infos@) == collected(sql_entries(sql_file_views(files@))),
            infos.key_seq() == first_seen(entry_keys(sql_entries(sql_file_views(files@)))),
    {
        let out = gather_sql(files);
        out.0
    }

    /// The names that more than one transformation file gives: one for every
    /// file after the first with the same name, in the order of the files.
    pub fn duplicate_names(&self, files: &Vec<(String, String)>) -> (names: Vec<String>)
        ensures
            texts(names@) == repeated(entry_keys(sql_entries(sql_file_views(files@)))),
    {
        let out = gather_sql(files);
        out.1
    }

    /// The declarations of the schema files, each under its key. Where a key
    /// is declared several times, the last declaration stands.
    pub fn parse_yaml_files(&self, files: &Vec<(String, SchemaFile)>) -> (configs: NameMap<
        YamlResourceConfig,
    >)
        ensures
            value_views(configs@) == collected(yaml_entries(schema_file_views(files@))),
            configs.key_seq() == first_seen(entry_keys(yaml_entries(schema_file_views(files@)))),
    {
        let out = gather_yaml(files);
        out.0
    }

    /// The keys that the schema files declare more than once: one for every
    /// declaration after the first under the same key, in the order of the
    /// files and of their documents.
    pub fn duplicate_keys(&self, files: &Vec<(String, SchemaFile)>) -> (keys: Vec<String>)
        ensures
            texts(keys@) == repeated(entry_keys(yaml_entries(schema_file_views(files@)))),
    {
        let out = gather_yaml(files);
        out.1
    }

    /// The canonical records of the project: one for every resource that a
    /// transformation file, a schema file, or both declare.
    pub fn parse_project(
        &self,
        sql_files: &Vec<(String, String)>,
        schema_files: &Vec<(String, SchemaFile)>,
    ) -> (records: Vec<Resource>)
        ensures
            record_views(records@) == canonical_records(
                sql_file_views(sql_files@),
                schema_file_views(schema_files@),
            ),
    {
        let sql_resources = self.parse_sql_files(sql_files);
        let yaml_configs = self.parse_yaml_files(schema_files);
        let records = reconcile(&sql_resources, &yaml_configs);
        proof {
            let sqls = sql_file_views(sql_files@);
            let yamls = schema_file_views(schema_files@);
            let keys = canonical_keys(sqls, yamls);
            let wanted = canonical_records(sqls, yamls);
            assert(record_views(records@).len() == wanted.len());
            assert forall|i: int| 0 <= i < records.len() implies record_views(records@)[i]
                == wanted[i] by {
                assert(Some(records@[i]@) == reconciled(
                    value_views(sql_resources@).get(keys[i]),
                    value_views(yaml_configs@).get(keys[i]),
                ));
            }
            assert(record_views(records@) =~= wanted);
        }
        records
    }
}

} // verus!
