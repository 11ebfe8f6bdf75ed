//! Schemas, rows and full-text queries.

use crate::text;
use crate::value;
use crate::value::{DataType, DbValue, ValueV};
use vstd::prelude::*;
use vstd::string::*;

verus! {

/// The view of an optional text.
pub open spec fn opt_text(o: Option<String>) -> Option<Seq<char>> {
    match o {
        Some(s) => Some(s@),
        None => None,
    }
}

/// A copy of an optional text.
pub fn copy_opt_text(o: &Option<String>) -> (out: Option<String>)
    ensures
        out == *o,
{
    match o {
        Some(s) => Some(s.clone()),
        None => None,
    }
}

/// The view of an optional value.
pub open spec fn opt_value(o: Option<DbValue>) -> Option<ValueV> {
    match o {
        Some(v) => Some(v@),
        None => None,
    }
}

/// A column of a schema.
#[derive(Debug, PartialEq)]
pub struct Column {
    pub id: u32,
    pub name: String,
    pub data_type: DataType,
    pub is_primary_key: bool,
    pub is_nullable: bool,
    pub locality_group: Option<String>,
    pub default_value: Option<DbValue>,
    pub is_auto_increment: bool,
}

/// The model of a column.
#[verifier::ext_equal]
pub struct ColumnV {
    pub id: u32,
    pub name: Seq<char>,
    pub data_type: DataType,
    pub is_primary_key: bool,
    pub is_nullable: bool,
    pub locality_group: Option<Seq<char>>,
    pub default_value: Option<ValueV>,
    pub is_auto_increment: bool,
}

impl View for Column {
    type V = ColumnV;

    open spec fn view(&self) -> ColumnV {
        ColumnV {
            id: self.id,
            name: self.name@,
            data_type: self.data_type,
            is_primary_key: self.is_primary_key,
            is_nullable: self.is_nullable,
            locality_group: opt_text(self.locality_group),
            default_value: opt_value(self.default_value),
            is_auto_increment: self.is_auto_increment,
        }
    }
}

impl Clone for Column {
    fn clone(&self) -> (out: Self)
        ensures
            out@ == self@,
    {
        Column {
            id: self.id,
            name: self.name.clone(),
            data_type: self.data_type,
            is_primary_key: self.is_primary_key,
            is_nullable: self.is_nullable,
            locality_group: copy_opt_text(&self.locality_group),
            default_value: match &self.default_value {
                Some(v) => Some(v.clone()),
                None => None,
            },
            is_auto_increment: self.is_auto_increment,
        }
    }
}

/// A nullable column that is no key and has no default.
pub open spec fn plain_column(name: Seq<char>, data_type: DataType) -> ColumnV {
    ColumnV {
        id: 0,
        name,
        data_type,
        is_primary_key: false,
        is_nullable: true,
        locality_group: None,
        default_value: None,
        is_auto_increment: false,
    }
}

impl Column {
    /// A nullable column that is no key and has no default.
    pub fn plain(name: &str, data_type: DataType) -> (out: Column)
        ensures
            out@ == plain_column(name@, data_type),
    {
        Column {
            id: 0,
            name: name.to_owned(),
            data_type,
            is_primary_key: false,
            is_nullable: true,
            locality_group: None,
            default_value: None,
            is_auto_increment: false,
        }
    }

    /// Whether `name` denotes this column.
    pub fn matches_name(&self, name: &str) -> (out: bool)
        ensures
            out == text::names_match(self@.name, name@),
    {
        text::column_names_match(self.name.as_str(), name)
    }
}

/// The views of a sequence of columns.
pub open spec fn columns_view(s: Seq<Column>) -> Seq<ColumnV> {
    s.map_values(|c: Column| c@)
}

/// A copy of a list of columns.
pub fn copy_columns(s: &Vec<Column>) -> (out: Vec<Column>)
    ensures
        columns_view(out@) == columns_view(s@),
        out@.len() == s@.len(),
{
    let mut out: Vec<Column> = Vec::new();
    for i in 0..s.len()
        invariant
            out@.len() == i,
            forall|j: int| 0 <= j < i ==> (#[trigger] out@[j])@ == s@[j]@,
    {
        out.push(s[i].clone());
    }
    assert(columns_view(out@) =~= columns_view(s@));
    out
}

/// The kind of an index.
#[derive(Clone, Copy, Debug, PartialEq, Eq, Structural)]
pub enum IndexType {
    BTree,
    FullText,
}

/// An index of a table.
#[derive(Debug, PartialEq)]
pub struct IndexDefinition {
    pub name: String,
    pub columns: Vec<String>,
    pub index_type: IndexType,
    pub tokenizer: Option<String>,
}

/// The model of an index.
#[verifier::ext_equal]
pub struct IndexV {
    pub name: Seq<char>,
    pub columns: Seq<Seq<char>>,
    pub index_type: IndexType,
    pub tokenizer: Option<Seq<char>>,
}

impl View for IndexDefinition {
    type V = IndexV;

    open spec fn view(&self) -> IndexV {
        IndexV {
            name: self.name@,
            columns: text::views(self.columns@),
            index_type: self.index_type,
            tokenizer: opt_text(self.tokenizer),
        }
    }
}

impl Clone for IndexDefinition {
    fn clone(&self) -> (out: Self)
        ensures
            out@ == self@,
    {
        IndexDefinition {
            name: self.name.clone(),
            columns: text::copy_strings(&self.columns),
            index_type: self.index_type,
            tokenizer: copy_opt_text(&self.tokenizer),
        }
    }
}

/// The views of a sequence of indexes.
pub open spec fn indexes_view(s: Seq<IndexDefinition>) -> Seq<IndexV> {
    s.map_values(|c: IndexDefinition| c@)
}

/// A copy of a list of indexes.
pub fn copy_indexes(s: &Vec<IndexDefinition>) -> (out: Vec<IndexDefinition>)
    ensures
        indexes_view(out@) == indexes_view(s@),
{
    let mut out: Vec<IndexDefinition> = Vec::new();
    for i in 0..s.len()
        invariant
            out@.len() == i,
            forall|j: int| 0 <= j < i ==> (#[trigger] out@[j])@ == s@[j]@,
    {
        out.push(s[i].clone());
    }
    assert(indexes_view(out@) =~= indexes_view(s@));
    out
}

/// The compression of the blocks of a locality group.
#[derive(Clone, Copy, Debug, PartialEq, Eq, Structural)]
pub enum CompressionType {
    Lz4,
    Uncompressed,
}

/// The storage options of a locality group.
#[derive(Clone, Copy, Debug, PartialEq, Eq, Structural)]
pub struct LocalityGroupOptions {
    pub compression: Option<CompressionType>,
    pub memtable_size_limit: Option<u64>,
    pub block_size_limit: Option<u64>,
    pub wal_size_limit: Option<u64>,
    pub l0_compaction_threshold: Option<u64>,
    pub sstable_target_size: Option<u64>,
    pub base_level_size_limit: Option<u64>,
    pub level_size_multiplier: Option<u64>,
    pub max_level: Option<u64>,
    pub block_cache_capacity: Option<u64>,
    /// The interval between syncs of the log; none where every write is synced.
    pub wal_sync_interval_ms: Option<Option<u64>>,
}

/// No storage options.
pub open spec fn no_options() -> LocalityGroupOptions {
    LocalityGroupOptions {
        compression: None,
        memtable_size_limit: None,
        block_size_limit: None,
        wal_size_limit: None,
        l0_compaction_threshold: None,
        sstable_target_size: None,
        base_level_size_limit: None,
        level_size_multiplier: None,
        max_level: None,
        block_cache_capacity: None,
        wal_sync_interval_ms: None,
    }
}

impl LocalityGroupOptions {
    /// No storage options.
    pub fn none() -> (out: LocalityGroupOptions)
        ensures
            out == no_options(),
    {
        LocalityGroupOptions {
            compression: None,
            memtable_size_limit: None,
            block_size_limit: None,
            wal_size_limit: None,
            l0_compaction_threshold: None,
            sstable_target_size: None,
            base_level_size_limit: None,
            level_size_multiplier: None,
            max_level: None,
            block_cache_capacity: None,
            wal_sync_interval_ms: None,
        }
    }
}

/// The schema of a table or of the rows of a plan.
#[derive(Debug, PartialEq)]
pub struct Schema {
    pub columns: Vec<Column>,
    pub indexes: Vec<IndexDefinition>,
    pub locality_group_options: Vec<(String, LocalityGroupOptions)>,
}

/// The model of a schema.
#[verifier::ext_equal]
pub struct SchemaV {
    pub columns: Seq<ColumnV>,
    pub indexes: Seq<IndexV>,
    pub locality_group_options: Seq<(Seq<char>, LocalityGroupOptions)>,
}

/// The views of named locality group options.
pub open spec fn options_view(s: Seq<(String, LocalityGroupOptions)>) -> Seq<(Seq<char>, LocalityGroupOptions)> {
    s.map_values(|e: (String, LocalityGroupOptions)| (e.0@, e.1))
}

impl View for Schema {
    type V = SchemaV;

    open spec fn view(&self) -> SchemaV {
        SchemaV {
            columns: columns_view(self.columns@),
            indexes: indexes_view(self.indexes@),
            locality_group_options: options_view(self.locality_group_options@),
        }
    }
}

/// A copy of named locality group options.
pub fn copy_options(s: &Vec<(String, LocalityGroupOptions)>) -> (out: Vec<(String, LocalityGroupOptions)>)
    ensures
        options_view(out@) == options_view(s@),
{
    let mut out: Vec<(String, LocalityGroupOptions)> = Vec::new();
    for i in 0..s.len()
        invariant
            out@ == s@.take(i as int),
    {
        out.push((s[i].0.clone(), s[i].1));
        assert(out@ =~= s@.take(i + 1));
    }
    assert(out@ =~= s@);
    out
}

impl Clone for Schema {
    fn clone(&self) -> (out: Self)
        ensures
            out@ == self@,
    {
        Schema {
            columns: copy_columns(&self.columns),
            indexes: copy_indexes(&self.indexes),
            locality_group_options: copy_options(&self.locality_group_options),
        }
    }
}

/// The columns with their positions as identifiers.
pub open spec fn numbered(cols: Seq<ColumnV>) -> Seq<ColumnV> {
    Seq::new(cols.len(), |i: int| ColumnV { id: i as u32, ..cols[i] })
}

/// The schema of these columns, without indexes or options.
pub open spec fn schema_of(cols: Seq<ColumnV>) -> SchemaV {
    SchemaV { columns: numbered(cols), indexes: Seq::empty(), locality_group_options: Seq::empty() }
}

/// The position of the first column that `name` denotes.
pub open spec fn column_position_from(cols: Seq<ColumnV>, name: Seq<char>, i: int) -> Option<int>
    decreases cols.len() - i,
{
    if i >= cols.len() {
        None
    } else if text::names_match(cols[i].name, name) {
        Some(i)
    } else {
        column_position_from(cols, name, i + 1)
    }
}

/// The position of the first column that `name` denotes.
pub open spec fn column_position(cols: Seq<ColumnV>, name: Seq<char>) -> Option<int> {
    column_position_from(cols, name, 0)
}

/// The positions, from `i` on, of the columns that `name` denotes, after those in `acc`.
pub open spec fn matching_columns_from(cols: Seq<ColumnV>, name: Seq<char>, i: int, acc: Seq<usize>) -> Seq<usize>
    decreases cols.len() - i,
{
    if i >= cols.len() {
        acc
    } else if text::names_match(cols[i].name, name) {
        matching_columns_from(cols, name, i + 1, acc.push(i as usize))
    } else {
        matching_columns_from(cols, name, i + 1, acc)
    }
}

/// The positions of the columns that `name` denotes, in order.
pub open spec fn matching_columns(cols: Seq<ColumnV>, name: Seq<char>) -> Seq<usize> {
    matching_columns_from(cols, name, 0, Seq::empty())
}

/// The position of the first column with exactly this name, from `i` on.
pub open spec fn exact_column_from(cols: Seq<ColumnV>, name: Seq<char>, i: int) -> Option<int>
    decreases cols.len() - i,
{
    if i >= cols.len() {
        None
    } else if cols[i].name == name {
        Some(i)
    } else {
        exact_column_from(cols, name, i + 1)
    }
}

/// The positions, from `i` on, of the primary key columns, after those in `acc`.
pub open spec fn key_columns_from(cols: Seq<ColumnV>, i: int, acc: Seq<usize>) -> Seq<usize>
    decreases cols.len() - i,
{
    if i >= cols.len() {
        acc
    } else if cols[i].is_primary_key {
        key_columns_from(cols, i + 1, acc.push(i as usize))
    } else {
        key_columns_from(cols, i + 1, acc)
    }
}

/// The positions of the primary key columns, in order.
pub open spec fn key_columns(cols: Seq<ColumnV>) -> Seq<usize> {
    key_columns_from(cols, 0, Seq::empty())
}

/// The position of the primary key column, where the key is a single column.
pub open spec fn primary_key_position(schema: SchemaV) -> Option<usize> {
    if key_columns(schema.columns).len() == 1 {
        Some(key_columns(schema.columns)[0])
    } else {
        None
    }
}

impl Schema {
    /// A schema of these columns, numbered by position, with these options.
    pub fn new_with_options(
        columns: Vec<Column>,
        locality_group_options: Vec<(String, LocalityGroupOptions)>,
    ) -> (out: Schema)
        ensures
            out@ == (SchemaV {
                columns: numbered(columns_view(columns@)),
                indexes: Seq::empty(),
                locality_group_options: options_view(locality_group_options@),
            }),
    {
        let mut cols: Vec<Column> = Vec::new();
        for i in 0..columns.len()
            invariant
                cols@.len() == i,
                forall|j: int|
                    0 <= j < i ==> (#[trigger] cols@[j])@ == (ColumnV { id: j as u32, ..columns@[j]@ }),
        {
            let mut c = columns[i].clone();
            c.id = i as u32;
            cols.push(c);
        }
        let out = Schema { columns: cols, indexes: Vec::new(), locality_group_options };
        assert(out@.columns =~= numbered(columns_view(columns@)));
        assert(out@.indexes =~= Seq::empty());
        out
    }

    /// A schema of these columns, numbered by position.
    pub fn new(columns: Vec<Column>) -> (out: Schema)
        ensures
            out@ == schema_of(columns_view(columns@)),
    {
        let options: Vec<(String, LocalityGroupOptions)> = Vec::new();
        assert(options_view(options@) =~= Seq::empty());
        Schema::new_with_options(columns, options)
    }

    /// The position of the first column that `name` denotes.
    pub fn column_index(&self, name: &str) -> (out: Option<usize>)
        ensures
            match out {
                Some(i) => column_position(self@.columns, name@) == Some(i as int) && i < self@.columns.len(),
                None => column_position(self@.columns, name@) is None,
            },
    {
        for i in 0..self.columns.len()
            invariant
                column_position(self@.columns, name@) == column_position_from(self@.columns, name@, i as int),
        {
            if self.columns[i].matches_name(name) {
                return Some(i);
            }
        }
        None
    }

    /// The positions of all columns that `name` denotes.
    pub fn matching_column_indexes(&self, name: &str) -> (out: Vec<usize>)
        ensures
            out@ == matching_columns(self@.columns, name@),
            forall|j: int| 0 <= j < out@.len() ==> (#[trigger] out@[j]) < self@.columns.len(),
    {
        let mut out: Vec<usize> = Vec::new();
        for i in 0..self.columns.len()
            invariant
                matching_columns(self@.columns, name@) == matching_columns_from(
                    self@.columns,
                    name@,
                    i as int,
                    out@,
                ),
                forall|j: int| 0 <= j < out@.len() ==> (#[trigger] out@[j]) < self@.columns.len(),
        {
            if self.columns[i].matches_name(name) {
                out.push(i);
            }
        }
        out
    }

    /// The position of the first column named exactly `name`.
    pub fn exact_column_index(&self, name: &str) -> (out: Option<usize>)
        ensures
            match out {
                Some(i) => exact_column_from(self@.columns, name@, 0) == Some(i as int) && i < self@.columns.len(),
                None => exact_column_from(self@.columns, name@, 0) is None,
            },
    {
        for i in 0..self.columns.len()
            invariant
                exact_column_from(self@.columns, name@, 0) == exact_column_from(self@.columns, name@, i as int),
        {
            if text::same_text(self.columns[i].name.as_str(), name) {
                return Some(i);
            }
        }
        None
    }

    /// The positions of the primary key columns.
    pub fn primary_key_indexes(&self) -> (out: Vec<usize>)
        ensures
            out@ == key_columns(self@.columns),
            forall|j: int| 0 <= j < out@.len() ==> (#[trigger] out@[j]) < self@.columns.len(),
    {
        let mut out: Vec<usize> = Vec::new();
        for i in 0..self.columns.len()
            invariant
                key_columns(self@.columns) == key_columns_from(self@.columns, i as int, out@),
                forall|j: int| 0 <= j < out@.len() ==> (#[trigger] out@[j]) < self@.columns.len(),
        {
            if self.columns[i].is_primary_key {
                out.push(i);
            }
        }
        out
    }

    /// The position of the primary key column, where the key is a single column.
    pub fn primary_key_index(&self) -> (out: Option<usize>)
        ensures
            out == primary_key_position(self@),
            out matches Some(i) ==> i < self@.columns.len(),
    {
        let keys = self.primary_key_indexes();
        if keys.len() == 1 {
            Some(keys[0])
        } else {
            None
        }
    }
}

/// A row: its values by position.
#[derive(Debug, PartialEq)]
pub struct Row {
    pub values: Vec<DbValue>,
}

impl View for Row {
    type V = Seq<ValueV>;

    open spec fn view(&self) -> Seq<ValueV> {
        value::values_view(self.values@)
    }
}

impl Row {
    /// A row of these values.
    pub fn new(values: Vec<DbValue>) -> (out: Row)
        ensures
            out@ == value::values_view(values@),
    {
        Row { values }
    }

    /// A copy.
    pub fn copy(&self) -> (out: Row)
        ensures
            out@ == self@,
    {
        Row { values: value::copy_values(&self.values) }
    }

    /// The value at a position.
    pub fn get_by_index(&self, i: usize) -> (out: Option<&DbValue>)
        ensures
            match out {
                Some(v) => i < self@.len() && v@ == self@[i as int],
                None => i >= self@.len(),
            },
    {
        if i < self.values.len() {
            Some(&self.values[i])
        } else {
            None
        }
    }
}

/// A parsed full-text query.
#[derive(Debug, PartialEq)]
pub enum FullTextQuery {
    Token(String),
    And(Box<FullTextQuery>, Box<FullTextQuery>),
    Or(Box<FullTextQuery>, Box<FullTextQuery>),
    Phrase(Vec<String>),
}

/// The model of a full-text query.
#[verifier::ext_equal]
pub enum FullTextV {
    Token(Seq<char>),
    And(Box<FullTextV>, Box<FullTextV>),
    Or(Box<FullTextV>, Box<FullTextV>),
    Phrase(Seq<Seq<char>>),
}

impl FullTextQuery {
    /// The model of the query.
    pub open spec fn view(&self) -> FullTextV
        decreases self,
    {
        match self {
            FullTextQuery::Token(t) => FullTextV::Token(t@),
            FullTextQuery::And(l, r) => FullTextV::And(Box::new(l.view()), Box::new(r.view())),
            FullTextQuery::Or(l, r) => FullTextV::Or(Box::new(l.view()), Box::new(r.view())),
            FullTextQuery::Phrase(p) => FullTextV::Phrase(text::views(p@)),
        }
    }

    /// Whether a text with these tokens matches the query.
    pub fn matches_tokens(&self, tokens: &Vec<String>) -> (out: bool)
        ensures
            out == full_text_match(self@, text::views(tokens@)),
        decreases self,
    {
        match self {
            FullTextQuery::Token(t) => text::contains_text(tokens, t.as_str()),
            FullTextQuery::And(l, r) => l.matches_tokens(tokens) && r.matches_tokens(tokens),
            FullTextQuery::Or(l, r) => l.matches_tokens(tokens) || r.matches_tokens(tokens),
            FullTextQuery::Phrase(p) => contains_phrase(tokens, p),
        }
    }
}

/// A copy of a full-text query.
impl Clone for FullTextQuery {
    fn clone(&self) -> (out: Self)
        ensures
            out@ == self@,
        decreases self,
    {
        match self {
            FullTextQuery::Token(t) => FullTextQuery::Token(t.clone()),
            FullTextQuery::And(l, r) => FullTextQuery::And(Box::new((&**l).clone()), Box::new((&**r).clone())),
            FullTextQuery::Or(l, r) => FullTextQuery::Or(Box::new((&**l).clone()), Box::new((&**r).clone())),
            FullTextQuery::Phrase(p) => FullTextQuery::Phrase(text::copy_strings(p)),
        }
    }
}

/// Whether the phrase occurs at position `at` of the tokens.
pub open spec fn phrase_at(tokens: Seq<Seq<char>>, phrase: Seq<Seq<char>>, at: int) -> bool {
    at + phrase.len() <= tokens.len() && tokens.subrange(at, at + phrase.len()) == phrase
}

/// Whether the phrase occurs among the tokens.
pub open spec fn phrase_in(tokens: Seq<Seq<char>>, phrase: Seq<Seq<char>>) -> bool {
    exists|at: int| 0 <= at && #[trigger] phrase_at(tokens, phrase, at)
}

/// Whether a text with these tokens matches a query: a token occurs among them, a
/// phrase as consecutive tokens.
pub open spec fn full_text_match(q: FullTextV, tokens: Seq<Seq<char>>) -> bool
    decreases q,
{
    match q {
        FullTextV::Token(t) => tokens.contains(t),
        FullTextV::And(l, r) => full_text_match(*l, tokens) && full_text_match(*r, tokens),
        FullTextV::Or(l, r) => full_text_match(*l, tokens) || full_text_match(*r, tokens),
        FullTextV::Phrase(p) => phrase_in(tokens, p),
    }
}

/// Whether `phrase` occurs at position `at` of `tokens`.
fn phrase_occurs_at(tokens: &Vec<String>, phrase: &Vec<String>, at: usize) -> (out: bool)
    requires
        at + phrase@.len() <= tokens@.len(),
    ensures
        out == phrase_at(text::views(tokens@), text::views(phrase@), at as int),
{
    let ghost t = text::views(tokens@);
    let ghost p = text::views(phrase@);
    let n = tokens.len();
    for j in 0..phrase.len()
        invariant
            at + phrase@.len() <= tokens@.len(),
            n == tokens@.len(),
            t == text::views(tokens@),
            p == text::views(phrase@),
            forall|k: int| 0 <= k < j ==> #[trigger] p[k] == t[at + k],
    {
        if !text::same_text(tokens[at + j].as_str(), phrase[j].as_str()) {
            assert(t.subrange(at as int, at + p.len())[j as int] != p[j as int]);
            return false;
        }
    }
    assert(t.subrange(at as int, at + p.len()) =~= p);
    true
}

/// Whether `phrase` occurs as consecutive tokens.
fn contains_phrase(tokens: &Vec<String>, phrase: &Vec<String>) -> (out: bool)
    ensures
        out == phrase_in(text::views(tokens@), text::views(phrase@)),
{
    if tokens.len() < phrase.len() {
        return false;
    }
    let last: usize = tokens.len() - phrase.len();
    let mut at: usize = 0;
    while at <= last
        invariant
            last + phrase@.len() == tokens@.len(),
            at <= last + 1,
            forall|k: int|
                0 <= k < at ==> !#[trigger] phrase_at(text::views(tokens@), text::views(phrase@), k),
        decreases last + 1 - at,
    {
        if phrase_occurs_at(tokens, phrase, at) {
            return true;
        }
        if at == last {
            return false;
        }
        at = at + 1;
    }
    false
}

} // verus!
