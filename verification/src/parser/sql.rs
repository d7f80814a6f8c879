//! Declarations from transformation files.
//!
//! A transformation file may hold one configuration clause, opened by
//! `{{ config(`. The clause ends where the braces opened since its start are
//! all closed again. Inside it, `key='text'` or `key="text"` gives a text, and
//! `key=[..]` a list. Only the first occurrence of a key is read; escaped
//! quotes and nested brackets are not understood.

use vstd::prelude::*;
use crate::name_map::{text_map, NameMap};
use crate::text::{
    chars_eq, chars_of, find, first_occurrence, index_of, last_index_of, opt_text, slice_chars,
    split, split_on, string_from_chars, strip_end, strip_end_spec, strip_start, strip_start_spec,
    texts, trim, trim_spec, trim_start, trim_start_spec, views,
};
use crate::types::dbt::resource::ResourceType;

verus! {

/// What the configuration clause of a transformation file gives.
#[derive(Debug, Clone)]
pub struct SqlConfig {
    pub description: Option<String>,
    pub materialized: Option<String>,
    pub tags: Vec<String>,
    pub meta: NameMap<String>,
    /// The clause as it stands in the file; empty where the file holds none.
    pub config_raw: String,
}

/// What a configuration clause gives, as mathematical values.
pub struct SqlConfigView {
    pub description: Option<Seq<char>>,
    pub materialized: Option<Seq<char>>,
    pub tags: Seq<Seq<char>>,
    pub meta: Map<Seq<char>, Seq<char>>,
    pub config_raw: Seq<char>,
}

impl View for SqlConfig {
    type V = SqlConfigView;

    open spec fn view(&self) -> SqlConfigView {
        SqlConfigView {
            description: opt_text(self.description),
            materialized: opt_text(self.materialized),
            tags: texts(self.tags@),
            meta: text_map(self.meta@),
            config_raw: self.config_raw@,
        }
    }
}

/// The declaration that one transformation file makes.
#[derive(Debug, Clone)]
pub struct SqlResourceInfo {
    pub name: String,
    pub file_path: String,
    pub resource_type: ResourceType,
    pub sql_config: SqlConfig,
    pub sql_content: String,
}

/// The declaration of a transformation file, as mathematical values.
pub struct SqlInfoView {
    pub name: Seq<char>,
    pub file_path: Seq<char>,
    pub resource_type: ResourceType,
    pub sql_config: SqlConfigView,
    pub sql_content: Seq<char>,
}

impl View for SqlResourceInfo {
    type V = SqlInfoView;

    open spec fn view(&self) -> SqlInfoView {
        SqlInfoView {
            name: self.name@,
            file_path: self.file_path@,
            resource_type: self.resource_type,
            sql_config: self.sql_config@,
            sql_content: self.sql_content@,
        }
    }
}

/// The configuration of a file without a clause: nothing is given.
pub open spec fn empty_config() -> SqlConfigView {
    SqlConfigView {
        description: None,
        materialized: None,
        tags: Seq::empty(),
        meta: Map::empty(),
        config_raw: Seq::empty(),
    }
}

/// What the text of a transformation file gives: the description, the
/// materialization and the tags of its configuration clause. Metadata is not
/// read from the clause.
pub open spec fn sql_config_of(content: Seq<char>) -> SqlConfigView {
    match config_block(content) {
        Some(block) => SqlConfigView {
            description: config_string(block, "description"@),
            materialized: config_string(block, "materialized"@),
            tags: config_array(block, "tags"@),
            meta: Map::empty(),
            config_raw: block,
        },
        None => empty_config(),
    }
}

/// The last component of a path given by its segments: the last segment that
/// is neither empty nor `.`, unless that segment is `..`.
pub open spec fn last_component(segments: Seq<Seq<char>>) -> Option<Seq<char>>
    decreases segments.len(),
{
    if segments.len() == 0 {
        None
    } else {
        let last = segments.last();
        if last.len() == 0 || last == seq!['.'] {
            last_component(segments.drop_last())
        } else if last == seq!['.', '.'] {
            None
        } else {
            Some(last)
        }
    }
}

/// A file name without its extension: what stands before its last dot, or the
/// whole name where it has no dot but at its start.
pub open spec fn file_stem(name: Seq<char>) -> Seq<char> {
    match name.index_of_last('.') {
        Some(i) => if i > 0 {
            name.take(i)
        } else {
            name
        },
        None => name,
    }
}

/// The name of the resource that the file at `path` defines: the stem of the
/// last component of the path, or `unknown` where the path names no file.
pub open spec fn resource_name(path: Seq<char>) -> Seq<char> {
    match last_component(split_on(path, '/')) {
        Some(name) => file_stem(name),
        None => "unknown"@,
    }
}

/// The kind that a directory name stands for.
pub open spec fn dir_kind(dir: Seq<char>) -> Option<ResourceType> {
    if dir == "models"@ {
        Some(ResourceType::Model)
    } else if dir == "snapshots"@ {
        Some(ResourceType::Snapshot)
    } else if dir == "macros"@ {
        Some(ResourceType::Macro)
    } else {
        None
    }
}

/// The kind of the first directory from index `from` on that stands for one.
pub open spec fn first_dir_kind(dirs: Seq<Seq<char>>, from: int) -> Option<ResourceType>
    decreases dirs.len() - from,
{
    if from < 0 || from >= dirs.len() {
        None
    } else {
        match dir_kind(dirs[from]) {
            Some(kind) => Some(kind),
            None => first_dir_kind(dirs, from + 1),
        }
    }
}

/// The kind of the resource that the file at `path` defines: that of the first
/// directory on the path that stands for a kind, a model where none does. The
/// last segment of the path is the file and no directory.
pub open spec fn path_kind(path: Seq<char>) -> ResourceType {
    match first_dir_kind(split_on(path, '/').drop_last(), 0) {
        Some(kind) => kind,
        None => ResourceType::Model,
    }
}

/// No directory stands for the kind of the source tables.
pub proof fn lemma_first_dir_kind(dirs: Seq<Seq<char>>, from: int)
    ensures
        first_dir_kind(dirs, from) != Some(ResourceType::Source),
    decreases dirs.len() - from,
{
    if 0 <= from < dirs.len() {
        lemma_first_dir_kind(dirs, from + 1);
    }
}

/// The declaration that the transformation file at `path` with the text
/// `content` makes.
pub open spec fn sql_declaration(path: Seq<char>, content: Seq<char>) -> SqlInfoView {
    SqlInfoView {
        name: resource_name(path),
        file_path: path,
        resource_type: path_kind(path),
        sql_config: sql_config_of(content),
        sql_content: content,
    }
}

/// The text that opens a configuration clause.
pub open spec fn clause_marker() -> Seq<char> {
    "{{ config("@
}

/// How many braces the first `n` characters of `s` leave open: the number of
/// `{` among them less the number of `}`.
pub open spec fn brace_depth(s: Seq<char>, n: int) -> int
    decreases n,
{
    if n <= 0 || n > s.len() {
        0
    } else {
        brace_depth(s, n - 1) + if s[n - 1] == '{' {
            1int
        } else if s[n - 1] == '}' {
            -1int
        } else {
            0int
        }
    }
}

/// Whether `e` is the first index of `s` after which no brace is left open.
pub open spec fn is_clause_end(s: Seq<char>, e: int) -> bool {
    &&& 0 <= e < s.len()
    &&& brace_depth(s, e + 1) == 0
    &&& forall|n: int| 0 < n <= e ==> brace_depth(s, n) != 0
}

/// The first index of `s` after which no brace is left open, if there is one.
pub open spec fn clause_end(s: Seq<char>) -> Option<int> {
    if exists|e: int| is_clause_end(s, e) {
        Some(choose|e: int| is_clause_end(s, e))
    } else {
        None
    }
}

/// The configuration clause of a transformation text: from the first
/// occurrence of the marker up to and including the character that closes its
/// last open brace. `None` where the marker does not occur or the braces are
/// never closed.
pub open spec fn config_block(content: Seq<char>) -> Option<Seq<char>> {
    match first_occurrence(content, clause_marker()) {
        Some(start) => match clause_end(content.skip(start)) {
            Some(e) => Some(content.subrange(start, start + e + 1)),
            None => None,
        },
        None => None,
    }
}

/// What follows the first occurrence of `key=` in `block`, without its
/// leading white space. `None` where `key=` does not occur.
pub open spec fn after_key(block: Seq<char>, key: Seq<char>) -> Option<Seq<char>> {
    match first_occurrence(block, key + seq!['=']) {
        Some(i) => Some(trim_start_spec(block.skip(i + key.len() + 1))),
        None => None,
    }
}

/// The text of the quoted literal that `rest` starts with: what stands between
/// its first character, a single or a double quote, and the next occurrence of
/// that quote. `None` where `rest` starts with no quote or the quote is not
/// closed.
pub open spec fn quoted_literal(rest: Seq<char>) -> Option<Seq<char>> {
    if rest.len() > 0 && (rest[0] == '"' || rest[0] == '\'') {
        match rest.skip(1).index_of_first(rest[0]) {
            Some(e) => Some(rest.subrange(1, e + 1)),
            None => None,
        }
    } else {
        None
    }
}

/// The text that `block` gives for `key`: the quoted literal after the first
/// occurrence of `key=`.
pub open spec fn config_string(block: Seq<char>, key: Seq<char>) -> Option<Seq<char>> {
    match after_key(block, key) {
        Some(rest) => quoted_literal(rest),
        None => None,
    }
}

/// An element of a list without what surrounds it: first the white space on
/// both sides, then the single quotes on both sides, then the double quotes on
/// both sides.
pub open spec fn clean_item(item: Seq<char>) -> Seq<char> {
    strip_end_spec(
        strip_start_spec(strip_end_spec(strip_start_spec(trim_spec(item), '\''), '\''), '"'),
        '"',
    )
}

/// The elements of the inside of a list: its pieces between commas, each
/// cleaned, without the empty ones.
pub open spec fn array_items(content: Seq<char>) -> Seq<Seq<char>> {
    split_on(content, ',').map_values(|item: Seq<char>| clean_item(item)).filter(
        |item: Seq<char>| item.len() > 0,
    )
}

/// The list that `rest` starts with: the elements between its first
/// character, an opening bracket, and the next closing bracket. Empty where
/// `rest` starts with no bracket or the bracket is not closed.
pub open spec fn bracketed_list(rest: Seq<char>) -> Seq<Seq<char>> {
    if rest.len() > 0 && rest[0] == '[' {
        match rest.index_of_first(']') {
            Some(e) => array_items(rest.subrange(1, e)),
            None => Seq::empty(),
        }
    } else {
        Seq::empty()
    }
}

/// The list that `block` gives for `key`: the bracketed list after the first
/// occurrence of `key=`.
pub open spec fn config_array(block: Seq<char>, key: Seq<char>) -> Seq<Seq<char>> {
    match after_key(block, key) {
        Some(rest) => bracketed_list(rest),
        None => Seq::empty(),
    }
}

/// An index that is a clause end is the value of `clause_end`.
pub proof fn lemma_clause_end_unique(s: Seq<char>, e: int)
    requires
        is_clause_end(s, e),
    ensures
        clause_end(s) == Some(e),
{
    let k = choose|k: int| is_clause_end(s, k);
    assert(is_clause_end(s, k));
    if k < e {
        assert(brace_depth(s, k + 1) != 0);
    }
    if e < k {
        assert(brace_depth(s, e + 1) != 0);
    }
    assert(k == e);
}

/// The end of the clause that starts at the first character of `s`.
fn find_clause_end(s: &Vec<char>) -> (found: Option<usize>)
    ensures
        match found {
            Some(e) => clause_end(s@) == Some(e as int) && e < s.len(),
            None => clause_end(s@) is None,
        },
{
    let mut depth: i128 = 0;
    let mut i: usize = 0;
    while i < s.len()
        invariant
            i <= s.len(),
            depth == brace_depth(s@, i as int),
            -(i as int) <= depth <= i,
            forall|n: int| 0 < n <= i ==> brace_depth(s@, n) != 0,
        decreases s.len() - i,
    {
        let c = s[i];
        if c == '{' {
            depth = depth + 1;
        } else if c == '}' {
            depth = depth - 1;
        }
        if depth == 0 {
            proof {
                lemma_clause_end_unique(s@, i as int);
            }
            return Some(i);
        }
        i += 1;
    }
    assert(forall|e: int| !is_clause_end(s@, e));
    None
}

/// The configuration clause of a transformation text, if it holds one.
pub fn extract_config_block(content: &str) -> (block: Option<String>)
    ensures
        opt_text(block) == config_block(content@),
{
    let chars = chars_of(content);
    match config_block_of(&chars) {
        Some(block) => Some(string_from_chars(&block)),
        None => None,
    }
}

/// The configuration clause of a transformation text given by its characters.
pub fn config_block_of(content: &Vec<char>) -> (block: Option<Vec<char>>)
    ensures
        match block {
            Some(b) => config_block(content@) == Some(b@),
            None => config_block(content@) is None,
        },
{
    let marker = chars_of("{{ config(");
    match find(content, &marker) {
        Some(start) => {
            let rest = slice_chars(content, start, content.len());
            assert(rest@ =~= content@.skip(start as int));
            match find_clause_end(&rest) {
                Some(e) => {
                    let block = slice_chars(content, start, start + e + 1);
                    Some(block)
                },
                None => None,
            }
        },
        None => None,
    }
}

/// What follows the first occurrence of `key=` in `block`, without its
/// leading white space.
fn rest_after_key(block: &Vec<char>, key: &Vec<char>) -> (rest: Option<Vec<char>>)
    ensures
        match rest {
            Some(r) => after_key(block@, key@) == Some(r@),
            None => after_key(block@, key@) is None,
        },
{
    let mut pattern = slice_chars(key, 0, key.len());
    pattern.push('=');
    assert(pattern@ =~= key@ + seq!['=']);
    match find(block, &pattern) {
        Some(i) => {
            let total: usize = block.len();
            let tail = slice_chars(block, i + pattern.len(), total);
            assert(tail@ =~= block@.skip(i + key.len() + 1));
            Some(trim_start(&tail))
        },
        None => None,
    }
}

/// The text that a clause gives for `key`, both given by their characters.
pub fn config_string_of(block: &Vec<char>, key: &Vec<char>) -> (value: Option<Vec<char>>)
    ensures
        match value {
            Some(v) => config_string(block@, key@) == Some(v@),
            None => config_string(block@, key@) is None,
        },
{
    match rest_after_key(block, key) {
        Some(rest) => {
            if rest.len() > 0 && (rest[0] == '"' || rest[0] == '\'') {
                let inner = slice_chars(&rest, 1, rest.len());
                assert(inner@ =~= rest@.skip(1));
                match index_of(&inner, rest[0]) {
                    Some(e) => Some(slice_chars(&rest, 1, e + 1)),
                    None => None,
                }
            } else {
                None
            }
        },
        None => None,
    }
}

/// The text that a configuration clause gives for `key`: the quoted literal
/// after the first occurrence of `key=`, if there is one.
pub fn extract_config_string(config_block: &str, key: &str) -> (value: Option<String>)
    ensures
        opt_text(value) == config_string(config_block@, key@),
{
    let block = chars_of(config_block);
    let key_chars = chars_of(key);
    match config_string_of(&block, &key_chars) {
        Some(v) => Some(string_from_chars(&v)),
        None => None,
    }
}

/// An element of a list without the white space and the quotes around it.
fn clean(item: &Vec<char>) -> (out: Vec<char>)
    ensures
        out@ == clean_item(item@),
{
    let a = trim(item);
    let b = strip_start(&a, '\'');
    let c = strip_end(&b, '\'');
    let d = strip_start(&c, '"');
    strip_end(&d, '"')
}

/// The elements of the inside of a list given by its characters.
pub fn array_items_of(content: &Vec<char>) -> (items: Vec<String>)
    ensures
        texts(items@) == array_items(content@),
{
    let pieces = split(content, ',');
    let ghost cleaned = split_on(content@, ',').map_values(|item: Seq<char>| clean_item(item));
    let ghost keep = |item: Seq<char>| item.len() > 0;
    let mut items: Vec<String> = Vec::new();
    let mut i: usize = 0;
    assert(cleaned.take(0).filter(keep) =~= Seq::empty());
    assert(texts(items@) =~= Seq::empty());
    while i < pieces.len()
        invariant
            i <= pieces.len(),
            views(pieces@) == split_on(content@, ','),
            cleaned == split_on(content@, ',').map_values(|item: Seq<char>| clean_item(item)),
            keep == |item: Seq<char>| item.len() > 0,
            texts(items@) == cleaned.take(i as int).filter(keep),
        decreases pieces.len() - i,
    {
        let item = clean(&pieces[i]);
        proof {
            assert(views(pieces@)[i as int] == pieces@[i as int]@);
            assert(cleaned[i as int] == item@);
            assert(cleaned.take(i + 1) =~= cleaned.take(i as int).push(item@));
            cleaned.take(i as int).lemma_filter_push(item@, keep);
        }
        if item.len() > 0 {
            let ghost before = items@;
            let text = string_from_chars(&item);
            items.push(text);
            assert(texts(items@) =~= texts(before).push(item@));
        }
        i += 1;
    }
    assert(cleaned.take(pieces.len() as int) =~= cleaned);
    items
}

/// The elements of the inside of a list: its pieces between commas, each
/// without the white space and the quotes around it, the empty ones left out.
pub fn parse_simple_array(content: &str) -> (items: Vec<String>)
    ensures
        texts(items@) == array_items(content@),
{
    let chars = chars_of(content);
    array_items_of(&chars)
}

/// The list that a clause gives for `key`, both given by their characters.
pub fn config_array_of(block: &Vec<char>, key: &Vec<char>) -> (items: Vec<String>)
    ensures
        texts(items@) == config_array(block@, key@),
{
    match rest_after_key(block, key) {
        Some(rest) => {
            if rest.len() > 0 && rest[0] == '[' {
                match index_of(&rest, ']') {
                    Some(e) => {
                        let inner = slice_chars(&rest, 1, e);
                        return array_items_of(&inner);
                    },
                    None => {},
                }
            }
        },
        None => {},
    }
    let items: Vec<String> = Vec::new();
    assert(texts(items@) =~= Seq::empty());
    items
}

/// The list that a configuration clause gives for `key`: the elements of the
/// bracketed list after the first occurrence of `key=`; empty if there is none.
pub fn extract_config_array(config_block: &str, key: &str) -> (items: Vec<String>)
    ensures
        texts(items@) == config_array(config_block@, key@),
{
    let block = chars_of(config_block);
    let key_chars = chars_of(key);
    config_array_of(&block, &key_chars)
}

impl Default for SqlConfig {
    /// The configuration of a file without a clause.
    fn default() -> (config: SqlConfig)
        ensures
            config@ == empty_config(),
    {
        let config = SqlConfig {
            description: None,
            materialized: None,
            tags: Vec::new(),
            meta: NameMap::new(),
            config_raw: String::new(),
        };
        proof {
            assert(texts(config.tags@) =~= Seq::empty());
            assert(text_map(config.meta@) =~= Map::empty());
        }
        config
    }
}

/// What the text of a transformation file gives. A text without a clause
/// gives nothing, which is no error.
pub fn extract_sql_config(content: &str) -> (config: SqlConfig)
    ensures
        config@ == sql_config_of(content@),
{
    let chars = chars_of(content);
    match config_block_of(&chars) {
        Some(block) => {
            let description = config_string_of(&block, &chars_of("description"));
            let materialized = config_string_of(&block, &chars_of("materialized"));
            let tags = config_array_of(&block, &chars_of("tags"));
            let config = SqlConfig {
                description: match description {
                    Some(v) => Some(string_from_chars(&v)),
                    None => None,
                },
                materialized: match materialized {
                    Some(v) => Some(string_from_chars(&v)),
                    None => None,
                },
                tags,
                meta: NameMap::new(),
                config_raw: string_from_chars(&block),
            };
            assert(text_map(config.meta@) =~= Map::empty());
            config
        },
        None => SqlConfig::default(),
    }
}

/// The name of the resource that the file at `file_path` defines.
pub fn extract_resource_name_from_path(file_path: &str) -> (name: String)
    ensures
        name@ == resource_name(file_path@),
{
    let chars = chars_of(file_path);
    let segments = split(&chars, '/');
    let dot = chars_of(".");
    let dots = chars_of("..");
    proof {
        reveal_strlit(".");
        reveal_strlit("..");
        assert(dot@ =~= seq!['.']);
        assert(dots@ =~= seq!['.', '.']);
    }
    let mut n: usize = segments.len();
    assert(views(segments@).take(n as int) =~= views(segments@));
    while n > 0
        invariant
            n <= segments.len(),
            views(segments@) == split_on(file_path@, '/'),
            dot@ == seq!['.'],
            dots@ == seq!['.', '.'],
            last_component(views(segments@)) == last_component(views(segments@).take(n as int)),
        decreases n,
    {
        let segment = &segments[n - 1];
        proof {
            assert(views(segments@).take(n as int).last() == segment@);
            assert(views(segments@).take(n as int).drop_last() =~= views(segments@).take(n - 1));
        }
        if segment.len() == 0 || chars_eq(segment, &dot) {
            n -= 1;
        } else if chars_eq(segment, &dots) {
            return "unknown".to_owned();
        } else {
            let stem = match last_index_of(segment, '.') {
                Some(i) => if i > 0 {
                    slice_chars(segment, 0, i)
                } else {
                    slice_chars(segment, 0, segment.len())
                },
                None => slice_chars(segment, 0, segment.len()),
            };
            assert(stem@ =~= file_stem(segment@));
            return string_from_chars(&stem);
        }
    }
    "unknown".to_owned()
}

/// The kind of the resource that the file at `file_path` defines, as far as
/// the directories on the path tell: a guess from the layout, a model where
/// the layout tells nothing.
pub fn determine_resource_type_from_path(file_path: &str) -> (kind: ResourceType)
    ensures
        kind == path_kind(file_path@),
{
    let chars = chars_of(file_path);
    let segments = split(&chars, '/');
    let models = chars_of("models");
    let snapshots = chars_of("snapshots");
    let macros = chars_of("macros");
    let dirs: usize = segments.len() - 1;
    let ghost all = views(segments@).drop_last();
    let mut i: usize = 0;
    while i < dirs
        invariant
            i <= dirs,
            dirs == segments.len() - 1,
            views(segments@) == split_on(file_path@, '/'),
            all == views(segments@).drop_last(),
            models@ == "models"@,
            snapshots@ == "snapshots"@,
            macros@ == "macros"@,
            first_dir_kind(all, 0) == first_dir_kind(all, i as int),
        decreases dirs - i,
    {
        let dir = &segments[i];
        assert(all[i as int] == dir@);
        if chars_eq(dir, &models) {
            return ResourceType::Model;
        } else if chars_eq(dir, &snapshots) {
            return ResourceType::Snapshot;
        } else if chars_eq(dir, &macros) {
            return ResourceType::Macro;
        }
        i += 1;
    }
    ResourceType::Model
}

/// The declaration that the transformation file at `file_path` with the text
/// `content` makes.
pub fn parse_sql_file(file_path: &str, content: &str) -> (info: SqlResourceInfo)
    ensures
        info@ == sql_declaration(file_path@, content@),
{
    SqlResourceInfo {
        name: extract_resource_name_from_path(file_path),
        file_path: file_path.to_owned(),
        resource_type: determine_resource_type_from_path(file_path),
        sql_config: extract_sql_config(content),
        sql_content: content.to_owned(),
    }
}

} // verus!
