//! Planning of table definitions.

use crate::syntax;
use crate::syntax::{
    ColumnDef, ColumnDefV, ColumnOption, ColumnOptionV, OptionToken, OptionTokenV, SqlDataType, SqlDataTypeV, SqlNode,
    SqlNodeV, SqlUnaryOperator, SqlUnaryOperatorV, SqlValue, SqlValueV, TableConstraint, TableConstraintV, TableOption,
    TableOptionV,
};
use crate::facts;
use crate::facts::{AnswerV, ErrorKind, ErrorV, Facts, QuestionV, SqlError};
use crate::planner;
use crate::scalar;
use crate::schema;
use crate::schema::{Column, ColumnV, CompressionType, LocalityGroupOptions, Schema, SchemaV};
use crate::text;
use crate::value;
use crate::value::{DataType, DbValue, ValueV};
use vstd::prelude::*;
use vstd::string::*;

verus! {

// ---------------------------------------------------------------- locality groups

/// The locality groups that table options define: the group of each column, later entries
/// first, and the storage options of the groups.
pub struct GroupsV {
    pub columns: Seq<(Seq<char>, Seq<char>)>,
    pub options: Seq<(Seq<char>, LocalityGroupOptions)>,
}

/// The number of a storage option.
pub open spec fn option_number(key: Seq<char>, val: Seq<char>) -> Result<u64, ErrorV> {
    match text::nat_value(val) {
        Some(n) if n <= u64::MAX => Ok(n as u64),
        _ => Err(facts::names_error(ErrorKind::InvalidGroupOption, seq![key, text::nat_parse_error(val)])),
    }
}

/// Storage options with one of them set.
pub open spec fn option_set(o: LocalityGroupOptions, key: Seq<char>, val: Seq<char>) -> Result<
    LocalityGroupOptions,
    ErrorV,
> {
    if key == "compression"@ {
        if text::lowercased(val) == "lz4"@ {
            Ok(LocalityGroupOptions { compression: Some(CompressionType::Lz4), ..o })
        } else if text::lowercased(val) == "uncompressed"@ {
            Ok(LocalityGroupOptions { compression: Some(CompressionType::Uncompressed), ..o })
        } else {
            Err(facts::named_error(ErrorKind::UnknownCompression, val))
        }
    } else if key == "wal_sync_interval_ms"@ {
        if text::lowercased(val) == "off"@ || text::lowercased(val) == "none"@ || text::lowercased(val) == "sync"@ {
            Ok(LocalityGroupOptions { wal_sync_interval_ms: Some(None), ..o })
        } else {
            match option_number(key, val) {
                Ok(n) => Ok(LocalityGroupOptions { wal_sync_interval_ms: Some(Some(n)), ..o }),
                Err(e) => Err(e),
            }
        }
    } else {
        number_option_set(o, key, val)
    }
}

/// Whether a storage option is a number.
pub open spec fn is_number_option(key: Seq<char>) -> bool {
    key == "memtable_size_limit"@ || key == "block_size_limit"@ || key == "wal_size_limit"@ || key
        == "l0_compaction_threshold"@ || key == "sstable_target_size"@ || key == "base_level_size_limit"@ || key
        == "level_size_multiplier"@ || key == "max_level"@ || key == "block_cache_capacity"@
}

/// Storage options with a number set.
pub open spec fn with_number(o: LocalityGroupOptions, key: Seq<char>, n: u64) -> LocalityGroupOptions {
    if key == "memtable_size_limit"@ {
        LocalityGroupOptions { memtable_size_limit: Some(n), ..o }
    } else if key == "block_size_limit"@ {
        LocalityGroupOptions { block_size_limit: Some(n), ..o }
    } else if key == "wal_size_limit"@ {
        LocalityGroupOptions { wal_size_limit: Some(n), ..o }
    } else if key == "l0_compaction_threshold"@ {
        LocalityGroupOptions { l0_compaction_threshold: Some(n), ..o }
    } else if key == "sstable_target_size"@ {
        LocalityGroupOptions { sstable_target_size: Some(n), ..o }
    } else if key == "base_level_size_limit"@ {
        LocalityGroupOptions { base_level_size_limit: Some(n), ..o }
    } else if key == "level_size_multiplier"@ {
        LocalityGroupOptions { level_size_multiplier: Some(n), ..o }
    } else if key == "max_level"@ {
        LocalityGroupOptions { max_level: Some(n), ..o }
    } else {
        LocalityGroupOptions { block_cache_capacity: Some(n), ..o }
    }
}

/// Storage options with one that is a number set.
pub open spec fn number_option_set(o: LocalityGroupOptions, key: Seq<char>, val: Seq<char>) -> Result<
    LocalityGroupOptions,
    ErrorV,
> {
    if is_number_option(key) {
        match option_number(key, val) {
            Ok(n) => Ok(with_number(o, key, n)),
            Err(e) => Err(e),
        }
    } else {
        Err(facts::named_error(ErrorKind::UnknownGroupOption, key))
    }
}

/// Storage options with those of the `key=value` pairs from position `i` on set. A piece that
/// is no such pair is passed over.
pub open spec fn options_set(o: LocalityGroupOptions, pairs: Seq<Seq<char>>, i: int) -> Result<
    LocalityGroupOptions,
    ErrorV,
>
    decreases pairs.len() - i,
{
    if i >= pairs.len() {
        Ok(o)
    } else {
        let kv = text::pieces(pairs[i], '=');
        if kv.len() == 2 {
            match option_set(o, text::trimmed(kv[0]), text::trimmed(kv[1])) {
                Err(e) => Err(e),
                Ok(next) => options_set(next, pairs, i + 1),
            }
        } else {
            options_set(o, pairs, i + 1)
        }
    }
}

/// The position of the first entry with a name, from `i` on.
pub open spec fn entry_from(s: Seq<(Seq<char>, LocalityGroupOptions)>, name: Seq<char>, i: int) -> Option<int>
    decreases s.len() - i,
{
    if i >= s.len() {
        None
    } else if s[i].0 == name {
        Some(i)
    } else {
        entry_from(s, name, i + 1)
    }
}

/// The columns of a group added to the groups of columns.
pub open spec fn columns_added(columns: Seq<(Seq<char>, Seq<char>)>, names: Seq<Seq<char>>, group: Seq<char>) -> Seq<
    (Seq<char>, Seq<char>),
> {
    columns + names.map_values(|n: Seq<char>| (text::trimmed(n), group))
}

/// The storage options of a group set: those it has are kept where they are not set anew.
pub open spec fn group_options_set(
    options: Seq<(Seq<char>, LocalityGroupOptions)>,
    group: Seq<char>,
    pairs: Seq<Seq<char>>,
) -> Result<Seq<(Seq<char>, LocalityGroupOptions)>, ErrorV> {
    match entry_from(options, group, 0) {
        Some(i) => match options_set(options[i].1, pairs, 0) {
            Ok(o) => Ok(options.update(i, (group, o))),
            Err(e) => Err(e),
        },
        None => match options_set(schema::no_options(), pairs, 0) {
            Ok(o) => Ok(options.push((group, o))),
            Err(e) => Err(e),
        },
    }
}

/// The locality groups with one added that is written `name:columns` or
/// `name:columns:options`.
pub open spec fn group_added(g: GroupsV, part: Seq<char>) -> Result<GroupsV, ErrorV> {
    let written = text::trimmed(part);
    let pieces = text::pieces(written, ':');
    if written.len() == 0 || pieces.len() < 2 {
        Ok(g)
    } else {
        let name = text::trimmed(pieces[0]);
        let columns = columns_added(g.columns, text::pieces(pieces[1], ','), name);
        if pieces.len() == 3 {
            match group_options_set(g.options, name, text::pieces(pieces[2], ',')) {
                Ok(options) => Ok(GroupsV { columns, options }),
                Err(e) => Err(e),
            }
        } else {
            Ok(GroupsV { columns, options: g.options })
        }
    }
}

/// The locality groups with those of the parts from position `i` on added.
pub open spec fn groups_added(g: GroupsV, parts: Seq<Seq<char>>, i: int) -> Result<GroupsV, ErrorV>
    decreases parts.len() - i,
{
    if i >= parts.len() {
        Ok(g)
    } else {
        match group_added(g, parts[i]) {
            Err(e) => Err(e),
            Ok(next) => groups_added(next, parts, i + 1),
        }
    }
}

/// The text of a table option that defines locality groups.
pub open spec fn groups_text(nodes: Seq<SqlNodeV>, option: TableOptionV) -> Option<Seq<char>> {
    match option {
        TableOptionV::KeyValue { key, value } => if key == "locality_groups"@ && value < nodes.len() {
            match nodes[value as int] {
                SqlNodeV::Value(SqlValueV::SingleQuotedString(s)) => Some(s),
                _ => None,
            }
        } else {
            None
        },
        TableOptionV::Other => None,
    }
}

/// The locality groups with those of the table options from position `i` on added.
pub open spec fn options_added(nodes: Seq<SqlNodeV>, g: GroupsV, options: Seq<TableOptionV>, i: int) -> Result<
    GroupsV,
    ErrorV,
>
    decreases options.len() - i,
{
    if i >= options.len() {
        Ok(g)
    } else {
        match groups_text(nodes, options[i]) {
            None => options_added(nodes, g, options, i + 1),
            Some(s) => match groups_added(g, text::pieces(s, ';'), 0) {
                Err(e) => Err(e),
                Ok(next) => options_added(nodes, next, options, i + 1),
            },
        }
    }
}

/// The group of a column: that of the last entry for it among the first `n`.
pub open spec fn group_of(columns: Seq<(Seq<char>, Seq<char>)>, name: Seq<char>, n: int) -> Option<Seq<char>>
    decreases n,
{
    if n <= 0 || n > columns.len() {
        None
    } else if columns[n - 1].0 == name {
        Some(columns[n - 1].1)
    } else {
        group_of(columns, name, n - 1)
    }
}

/// The locality groups that table options define.
#[derive(Debug)]
struct Groups {
    columns: Vec<(String, String)>,
    options: Vec<(String, LocalityGroupOptions)>,
}

/// The model of columns with their groups.
spec fn columns_model(s: Seq<(String, String)>) -> Seq<(Seq<char>, Seq<char>)> {
    s.map_values(|e: (String, String)| (e.0@, e.1@))
}

impl Groups {
    /// The model.
    spec fn view(&self) -> GroupsV {
        GroupsV { columns: columns_model(self.columns@), options: schema::options_view(self.options@) }
    }
}

/// The number of a storage option.
fn parse_option(key: &str, val: &str) -> (out: Result<u64, SqlError>)
    ensures
        match out {
            Ok(n) => option_number(key@, val@) == Ok::<u64, ErrorV>(n),
            Err(e) => option_number(key@, val@) == Err::<u64, ErrorV>(e@),
        },
{
    match text::parse_nat(val) {
        Ok(n) => Ok(n),
        Err(m) => Err(
            SqlError::about_names(ErrorKind::InvalidGroupOption, planner::two_names(key, m.as_str())),
        ),
    }
}

/// The model of an outcome that is storage options.
pub open spec fn options_result(r: Result<LocalityGroupOptions, SqlError>) -> Result<LocalityGroupOptions, ErrorV> {
    match r {
        Ok(o) => Ok(o),
        Err(e) => Err(e@),
    }
}

/// Sets a storage option that is a number.
fn set_number_option(o: LocalityGroupOptions, key: &str, val: &str) -> (out: Result<LocalityGroupOptions, SqlError>)
    ensures
        options_result(out) == number_option_set(o, key@, val@),
{
    let mut out = o;
    if text::same_text(key, "memtable_size_limit") {
        out.memtable_size_limit = Some(parse_option(key, val)?);
    } else if text::same_text(key, "block_size_limit") {
        out.block_size_limit = Some(parse_option(key, val)?);
    } else if text::same_text(key, "wal_size_limit") {
        out.wal_size_limit = Some(parse_option(key, val)?);
    } else if text::same_text(key, "l0_compaction_threshold") {
        out.l0_compaction_threshold = Some(parse_option(key, val)?);
    } else if text::same_text(key, "sstable_target_size") {
        out.sstable_target_size = Some(parse_option(key, val)?);
    } else if text::same_text(key, "base_level_size_limit") {
        out.base_level_size_limit = Some(parse_option(key, val)?);
    } else if text::same_text(key, "level_size_multiplier") {
        out.level_size_multiplier = Some(parse_option(key, val)?);
    } else if text::same_text(key, "max_level") {
        out.max_level = Some(parse_option(key, val)?);
    } else if text::same_text(key, "block_cache_capacity") {
        out.block_cache_capacity = Some(parse_option(key, val)?);
    } else {
        return Err(SqlError::named(ErrorKind::UnknownGroupOption, key));
    }
    Ok(out)
}

/// Sets a storage option.
fn set_option(o: LocalityGroupOptions, key: &str, val: &str) -> (out: Result<LocalityGroupOptions, SqlError>)
    ensures
        options_result(out) == option_set(o, key@, val@),
{
    let mut out = o;
    if text::same_text(key, "compression") {
        let lower = text::to_lowercase(val);
        if text::same_text(lower.as_str(), "lz4") {
            out.compression = Some(CompressionType::Lz4);
        } else if text::same_text(lower.as_str(), "uncompressed") {
            out.compression = Some(CompressionType::Uncompressed);
        } else {
            return Err(SqlError::named(ErrorKind::UnknownCompression, val));
        }
        Ok(out)
    } else if text::same_text(key, "wal_sync_interval_ms") {
        let lower = text::to_lowercase(val);
        if text::same_text(lower.as_str(), "off") || text::same_text(lower.as_str(), "none") || text::same_text(
            lower.as_str(),
            "sync",
        ) {
            out.wal_sync_interval_ms = Some(None);
        } else {
            out.wal_sync_interval_ms = Some(Some(parse_option(key, val)?));
        }
        Ok(out)
    } else {
        set_number_option(o, key, val)
    }
}

/// Sets the storage options of some pairs.
fn set_options(o: LocalityGroupOptions, pairs: &Vec<String>) -> (out: Result<LocalityGroupOptions, SqlError>)
    ensures
        options_result(out) == options_set(o, text::views(pairs@), 0),
{
    let mut current = o;
    for i in 0..pairs.len()
        invariant
            options_set(o, text::views(pairs@), 0) == options_set(current, text::views(pairs@), i as int),
    {
        let kv = text::split(pairs[i].as_str(), '=');
        assert(text::views(pairs@)[i as int] == pairs@[i as int]@);
        assert(text::views(kv@).len() == kv@.len());
        if kv.len() == 2 {
            assert(text::views(kv@)[0] == kv@[0]@ && text::views(kv@)[1] == kv@[1]@);
            let key = text::trim(kv[0].as_str());
            let val = text::trim(kv[1].as_str());
            current = set_option(current, key.as_str(), val.as_str())?;
        }
    }
    Ok(current)
}

/// The position of the first entry with a name.
fn find_entry(s: &Vec<(String, LocalityGroupOptions)>, name: &str) -> (out: Option<usize>)
    ensures
        match out {
            Some(i) => i < s@.len() && entry_from(schema::options_view(s@), name@, 0) == Some(i as int),
            None => entry_from(schema::options_view(s@), name@, 0) is None,
        },
{
    for i in 0..s.len()
        invariant
            entry_from(schema::options_view(s@), name@, 0) == entry_from(schema::options_view(s@), name@, i as int),
    {
        if text::same_text(s[i].0.as_str(), name) {
            return Some(i);
        }
    }
    None
}

impl Groups {
    /// Adds the columns of a group.
    fn add_columns(&mut self, names: &Vec<String>, group: &str)
        ensures
            final(self)@.columns == columns_added(old(self)@.columns, text::views(names@), group@),
            final(self).options == old(self).options,
    {
        let ghost before = self@.columns;
        let ghost view = text::views(names@);
        assert(before =~= columns_added(before, view.take(0), group@));
        for i in 0..names.len()
            invariant
                view == text::views(names@),
                self.options == old(self).options,
                columns_model(self.columns@) == columns_added(before, view.take(i as int), group@),
        {
            let ghost so_far = columns_model(self.columns@);
            assert(view[i as int] == names@[i as int]@);
            let name = text::trim(names[i].as_str());
            let ghost added = (name@, group@);
            self.columns.push((name, group.to_owned()));
            assert(columns_model(self.columns@) =~= so_far.push(added));
            assert(columns_added(before, view.take(i + 1), group@) =~= so_far.push(added));
        }
        assert(view.take(view.len() as int) =~= view);
    }

    /// Sets storage options of a group.
    fn set_group_options(&mut self, group: &str, pairs: &Vec<String>) -> (out: Result<(), SqlError>)
        ensures
            final(self).columns == old(self).columns,
            match out {
                Ok(_) => group_options_set(old(self)@.options, group@, text::views(pairs@)) == Ok::<
                    Seq<(Seq<char>, LocalityGroupOptions)>,
                    ErrorV,
                >(final(self)@.options),
                Err(e) => group_options_set(old(self)@.options, group@, text::views(pairs@)) == Err::<
                    Seq<(Seq<char>, LocalityGroupOptions)>,
                    ErrorV,
                >(e@),
            },
    {
        let ghost before = schema::options_view(self.options@);
        match find_entry(&self.options, group) {
            Some(i) => {
                assert(before[i as int].1 == self.options@[i as int].1);
                let o = set_options(self.options[i].1, pairs)?;
                self.options.set(i, (group.to_owned(), o));
                assert(schema::options_view(self.options@) =~= before.update(i as int, (group@, o)));
            },
            None => {
                let o = set_options(LocalityGroupOptions::none(), pairs)?;
                self.options.push((group.to_owned(), o));
                assert(schema::options_view(self.options@) =~= before.push((group@, o)));
            },
        }
        Ok(())
    }

    /// Adds a locality group.
    fn add_group(&mut self, part: &str) -> (out: Result<(), SqlError>)
        ensures
            match out {
                Ok(_) => group_added(old(self)@, part@) == Ok::<GroupsV, ErrorV>(final(self)@),
                Err(e) => group_added(old(self)@, part@) == Err::<GroupsV, ErrorV>(e@),
            },
    {
        let written = text::trim(part);
        let pieces = text::split(written.as_str(), ':');
        let written_chars = text::chars_of(written.as_str());
        let ghost view = text::views(pieces@);
        assert(view.len() == pieces@.len());
        if written_chars.len() == 0 || pieces.len() < 2 {
            return Ok(());
        }
        assert(view[0] == pieces@[0]@ && view[1] == pieces@[1]@);
        let name = text::trim(pieces[0].as_str());
        let columns = text::split(pieces[1].as_str(), ',');
        self.add_columns(&columns, name.as_str());
        if pieces.len() == 3 {
            assert(view[2] == pieces@[2]@);
            let pairs = text::split(pieces[2].as_str(), ',');
            self.set_group_options(name.as_str(), &pairs)
        } else {
            Ok(())
        }
    }

    /// Adds locality groups.
    fn add_groups(&mut self, parts: &Vec<String>) -> (out: Result<(), SqlError>)
        ensures
            match out {
                Ok(_) => groups_added(old(self)@, text::views(parts@), 0) == Ok::<GroupsV, ErrorV>(final(self)@),
                Err(e) => groups_added(old(self)@, text::views(parts@), 0) == Err::<GroupsV, ErrorV>(e@),
            },
    {
        let ghost before = self@;
        let ghost view = text::views(parts@);
        for i in 0..parts.len()
            invariant
                view == text::views(parts@),
                before == old(self)@,
                groups_added(before, view, 0) == groups_added(self@, view, i as int),
        {
            assert(view[i as int] == parts@[i as int]@);
            match self.add_group(parts[i].as_str()) {
                Ok(_) => {},
                Err(e) => {
                    return Err(e);
                },
            }
        }
        Ok(())
    }

    /// Adds the locality groups of table options.
    fn add_options(&mut self, nodes: &Vec<SqlNode>, options: &Vec<TableOption>) -> (out: Result<(), SqlError>)
        ensures
            match out {
                Ok(_) => options_added(
                    syntax::sql_nodes_view(nodes@),
                    old(self)@,
                    syntax::table_options_view(options@),
                    0,
                ) == Ok::<GroupsV, ErrorV>(final(self)@),
                Err(e) => options_added(
                    syntax::sql_nodes_view(nodes@),
                    old(self)@,
                    syntax::table_options_view(options@),
                    0,
                ) == Err::<GroupsV, ErrorV>(e@),
            },
    {
        let ghost before = self@;
        let ghost view = syntax::table_options_view(options@);
        for i in 0..options.len()
            invariant
                view == syntax::table_options_view(options@),
                before == old(self)@,
                options_added(syntax::sql_nodes_view(nodes@), before, view, 0) == options_added(
                    syntax::sql_nodes_view(nodes@),
                    self@,
                    view,
                    i as int,
                ),
        {
            assert(view[i as int] == options@[i as int]@);
            match text_of_groups(nodes, &options[i]) {
                None => {},
                Some(s) => {
                    let parts = text::split(s.as_str(), ';');
                    match self.add_groups(&parts) {
                        Ok(_) => {},
                        Err(e) => {
                            return Err(e);
                        },
                    }
                },
            }
        }
        Ok(())
    }

    /// The group of a column.
    fn find(&self, name: &str) -> (out: Option<String>)
        ensures
            schema::opt_text(out) == group_of(self@.columns, name@, self@.columns.len() as int),
    {
        let mut n: usize = self.columns.len();
        while n > 0
            invariant
                n <= self.columns@.len(),
                group_of(self@.columns, name@, self@.columns.len() as int) == group_of(
                    self@.columns,
                    name@,
                    n as int,
                ),
            decreases n,
        {
            assert(self@.columns[n - 1] == (self.columns@[n - 1].0@, self.columns@[n - 1].1@));
            if text::same_text(self.columns[n - 1].0.as_str(), name) {
                return Some(self.columns[n - 1].1.clone());
            }
            n = n - 1;
        }
        None
    }
}

/// The text of a table option that defines locality groups.
fn text_of_groups(nodes: &Vec<SqlNode>, option: &TableOption) -> (out: Option<String>)
    ensures
        schema::opt_text(out) == groups_text(syntax::sql_nodes_view(nodes@), option@),
{
    match option {
        TableOption::KeyValue { key, value } => {
            if text::same_text(key.as_str(), "locality_groups") && *value < nodes.len() {
                assert(syntax::sql_nodes_view(nodes@)[*value as int] == nodes@[*value as int]@);
                match &nodes[*value] {
                    SqlNode::Value(v) => match v {
                        SqlValue::SingleQuotedString(s) => Some(s.clone()),
                        _ => None,
                    },
                    _ => None,
                }
            } else {
                None
            }
        },
        TableOption::Other => None,
    }
}

// ---------------------------------------------------------------- columns

/// Whether a type name stands for an automatically increasing integer.
pub open spec fn is_serial(name: Seq<char>) -> bool {
    text::uppercased(name) == "SERIAL"@ || text::uppercased(name) == "BIGSERIAL"@
}

/// The type of a column.
pub open spec fn column_type(t: SqlDataTypeV) -> Result<DataType, ErrorV> {
    match t {
        SqlDataTypeV::Integer => Ok(DataType::Int),
        SqlDataTypeV::Int => Ok(DataType::Int),
        SqlDataTypeV::BigInt => Ok(DataType::Int),
        SqlDataTypeV::Float => Ok(DataType::Float),
        SqlDataTypeV::Double => Ok(DataType::Float),
        SqlDataTypeV::Real => Ok(DataType::Float),
        SqlDataTypeV::Boolean => Ok(DataType::Bool),
        SqlDataTypeV::Bool => Ok(DataType::Bool),
        SqlDataTypeV::Text => Ok(DataType::String),
        SqlDataTypeV::Varchar => Ok(DataType::String),
        SqlDataTypeV::Char => Ok(DataType::String),
        SqlDataTypeV::Str => Ok(DataType::String),
        SqlDataTypeV::Bytea => Ok(DataType::Bytes),
        SqlDataTypeV::Blob => Ok(DataType::Bytes),
        SqlDataTypeV::Custom(name) => if is_serial(name) {
            Ok(DataType::Int)
        } else if text::uppercased(name) == "BOOL"@ {
            Ok(DataType::Bool)
        } else {
            Err(facts::named_error(ErrorKind::UnsupportedDataType, name))
        },
        SqlDataTypeV::Other(s) => Err(facts::named_error(ErrorKind::UnsupportedDataType, s)),
    }
}

/// The value of a default: a literal, or a number with signs.
pub open spec fn default_value(nodes: Seq<SqlNodeV>, at: int, known: Seq<(QuestionV, AnswerV)>) -> Result<ValueV, ErrorV>
    decreases at,
{
    if at < 0 || at >= nodes.len() {
        Err(facts::plain_error(ErrorKind::Malformed))
    } else {
        match nodes[at] {
            SqlNodeV::Value(v) => match v {
                SqlValueV::Number(s) => scalar::number_value(s, ErrorKind::DefaultNumber, known),
                SqlValueV::SingleQuotedString(s) => Ok(ValueV::String(s)),
                SqlValueV::Boolean(b) => Ok(ValueV::Bool(b)),
                SqlValueV::Null => Ok(ValueV::Null),
                _ => Err(facts::plain_error(ErrorKind::DefaultValue)),
            },
            SqlNodeV::UnaryOp { op, expr } => match op {
                SqlUnaryOperatorV::Minus => if expr >= at {
                    Err(facts::plain_error(ErrorKind::Malformed))
                } else {
                    match default_value(nodes, expr as int, known) {
                        Err(e) => Err(e),
                        Ok(v) => negative_default(v),
                    }
                },
                SqlUnaryOperatorV::Plus => if expr >= at {
                    Err(facts::plain_error(ErrorKind::Malformed))
                } else {
                    default_value(nodes, expr as int, known)
                },
                _ => Err(facts::plain_error(ErrorKind::DefaultExpr)),
            },
            _ => Err(facts::plain_error(ErrorKind::DefaultExpr)),
        }
    }
}

/// The minus of a default.
pub open spec fn negative_default(v: ValueV) -> Result<ValueV, ErrorV> {
    match v {
        ValueV::Int(i) => if i == i64::MIN {
            Err(facts::plain_error(ErrorKind::IntegerOverflow))
        } else {
            Ok(ValueV::Int((-i) as i64))
        },
        ValueV::Float(f) => Ok(ValueV::Float(value::float_negated(f))),
        _ => Err(facts::plain_error(ErrorKind::DefaultNegative)),
    }
}

/// The default of a column: that of the last option that gives one, from position `i` on.
pub open spec fn default_from(
    nodes: Seq<SqlNodeV>,
    options: Seq<ColumnOptionV>,
    i: int,
    found: Option<ValueV>,
    known: Seq<(QuestionV, AnswerV)>,
) -> Result<Option<ValueV>, ErrorV>
    decreases options.len() - i,
{
    if i >= options.len() {
        Ok(found)
    } else {
        match options[i] {
            ColumnOptionV::Default(id) => match default_value(nodes, id as int, known) {
                Err(e) => Err(e),
                Ok(v) => default_from(nodes, options, i + 1, Some(v), known),
            },
            _ => default_from(nodes, options, i + 1, found, known),
        }
    }
}

/// Whether the options of a column make it the primary key.
pub open spec fn declares_key(options: Seq<ColumnOptionV>) -> bool {
    exists|i: int| 0 <= i < options.len() && #[trigger] options[i] is PrimaryKey
}

/// Whether the options of a column exclude null.
pub open spec fn excludes_null(options: Seq<ColumnOptionV>) -> bool {
    exists|i: int| 0 <= i < options.len() && #[trigger] options[i] is NotNull
}

/// Whether a token makes a column increase automatically.
pub open spec fn increments(t: OptionTokenV) -> bool {
    match t {
        OptionTokenV::Word(w) => text::uppercased(w) == "AUTO_INCREMENT"@ || text::uppercased(w) == "AUTOINCREMENT"@,
        OptionTokenV::Other => false,
    }
}

/// Whether one of some tokens makes a column increase automatically.
pub open spec fn some_increments(tokens: Seq<OptionTokenV>) -> bool {
    exists|i: int| 0 <= i < tokens.len() && increments(#[trigger] tokens[i])
}

/// Whether an option makes a column increase automatically.
pub open spec fn option_increments(o: ColumnOptionV) -> bool {
    match o {
        ColumnOptionV::DialectSpecific(tokens) => some_increments(tokens),
        _ => false,
    }
}

/// Whether a column increases automatically, by its type or by an option.
pub open spec fn auto_increments(c: ColumnDefV) -> bool {
    ||| c.data_type matches SqlDataTypeV::Custom(name) && is_serial(name)
    ||| exists|i: int| 0 <= i < c.options.len() && option_increments(#[trigger] c.options[i])
}

/// Whether one of the nodes at some positions is an identifier with a name.
pub open spec fn some_identifier(nodes: Seq<SqlNodeV>, ids: Seq<usize>, name: Seq<char>) -> bool {
    exists|i: int| 0 <= i < ids.len() && #[trigger] is_identifier(nodes, ids[i], name)
}

/// Whether a constraint puts a column into the primary key.
pub open spec fn constrains(nodes: Seq<SqlNodeV>, c: TableConstraintV, name: Seq<char>) -> bool {
    match c {
        TableConstraintV::PrimaryKey(ids) => some_identifier(nodes, ids, name),
        TableConstraintV::Other => false,
    }
}

/// Whether the node at a position is an identifier with a name.
pub open spec fn is_identifier(nodes: Seq<SqlNodeV>, at: usize, name: Seq<char>) -> bool {
    at < nodes.len() && (nodes[at as int] matches SqlNodeV::Identifier { value, .. } && value == name)
}

/// Whether the constraints of a table put a column into the primary key.
pub open spec fn in_key(nodes: Seq<SqlNodeV>, constraints: Seq<TableConstraintV>, name: Seq<char>) -> bool {
    exists|i: int| 0 <= i < constraints.len() && constrains(nodes, #[trigger] constraints[i], name)
}

/// The column of a definition in CREATE TABLE.
pub open spec fn created_column(
    nodes: Seq<SqlNodeV>,
    c: ColumnDefV,
    constraints: Seq<TableConstraintV>,
    g: GroupsV,
    known: Seq<(QuestionV, AnswerV)>,
) -> Result<ColumnV, ErrorV> {
    match column_type(c.data_type) {
        Err(e) => Err(e),
        Ok(data_type) => match default_from(nodes, c.options, 0, None, known) {
            Err(e) => Err(e),
            Ok(default_value) => {
                let is_primary_key = declares_key(c.options) || in_key(nodes, constraints, c.name);
                Ok(
                    ColumnV {
                        id: 0,
                        name: c.name,
                        data_type,
                        is_primary_key,
                        is_nullable: !is_primary_key && !excludes_null(c.options),
                        locality_group: group_of(g.columns, c.name, g.columns.len() as int),
                        default_value,
                        is_auto_increment: auto_increments(c),
                    },
                )
            },
        },
    }
}

/// The column of a definition in ALTER TABLE. It cannot be a key.
pub open spec fn added_column(nodes: Seq<SqlNodeV>, c: ColumnDefV, known: Seq<(QuestionV, AnswerV)>) -> Result<
    ColumnV,
    ErrorV,
> {
    match column_type(c.data_type) {
        Err(e) => Err(e),
        Ok(data_type) => if declares_key(c.options) {
            Err(facts::plain_error(ErrorKind::AddedPrimaryKey))
        } else {
            match default_from(nodes, c.options, 0, None, known) {
                Err(e) => Err(e),
                Ok(default_value) => Ok(
                    ColumnV {
                        id: 0,
                        name: c.name,
                        data_type,
                        is_primary_key: false,
                        is_nullable: !excludes_null(c.options),
                        locality_group: None,
                        default_value,
                        is_auto_increment: false,
                    },
                ),
            }
        },
    }
}

/// The outcomes of planning the columns of a table.
pub open spec fn created_columns(
    nodes: Seq<SqlNodeV>,
    columns: Seq<ColumnDefV>,
    constraints: Seq<TableConstraintV>,
    g: GroupsV,
    known: Seq<(QuestionV, AnswerV)>,
) -> Seq<Result<ColumnV, ErrorV>> {
    columns.map_values(|c: ColumnDefV| created_column(nodes, c, constraints, g, known))
}

/// The schema of a table definition.
pub open spec fn created_schema(
    nodes: Seq<SqlNodeV>,
    columns: Seq<ColumnDefV>,
    constraints: Seq<TableConstraintV>,
    options: Seq<TableOptionV>,
    known: Seq<(QuestionV, AnswerV)>,
) -> Result<SchemaV, ErrorV> {
    match options_added(nodes, GroupsV { columns: Seq::empty(), options: Seq::empty() }, options, 0) {
        Err(e) => Err(e),
        Ok(g) => match facts::collected(created_columns(nodes, columns, constraints, g, known), 0, Seq::empty()) {
            Err(e) => Err(e),
            Ok(cols) => Ok(
                SchemaV {
                    columns: schema::numbered(cols),
                    indexes: Seq::empty(),
                    locality_group_options: g.options,
                },
            ),
        },
    }
}

/// Whether a type name stands for an automatically increasing integer.
fn names_serial(name: &str) -> (out: bool)
    ensures
        out == is_serial(name@),
{
    let upper = text::to_uppercase(name);
    text::same_text(upper.as_str(), "SERIAL") || text::same_text(upper.as_str(), "BIGSERIAL")
}

/// The type of a column.
fn plan_type(t: &SqlDataType) -> (out: Result<DataType, SqlError>)
    ensures
        match out {
            Ok(d) => column_type(t@) == Ok::<DataType, ErrorV>(d),
            Err(e) => column_type(t@) == Err::<DataType, ErrorV>(e@),
        },
{
    match t {
        SqlDataType::Integer => Ok(DataType::Int),
        SqlDataType::Int => Ok(DataType::Int),
        SqlDataType::BigInt => Ok(DataType::Int),
        SqlDataType::Float => Ok(DataType::Float),
        SqlDataType::Double => Ok(DataType::Float),
        SqlDataType::Real => Ok(DataType::Float),
        SqlDataType::Boolean => Ok(DataType::Bool),
        SqlDataType::Bool => Ok(DataType::Bool),
        SqlDataType::Text => Ok(DataType::String),
        SqlDataType::Varchar => Ok(DataType::String),
        SqlDataType::Char => Ok(DataType::String),
        SqlDataType::Str => Ok(DataType::String),
        SqlDataType::Bytea => Ok(DataType::Bytes),
        SqlDataType::Blob => Ok(DataType::Bytes),
        SqlDataType::Custom(name) => {
            let upper = text::to_uppercase(name.as_str());
            if names_serial(name.as_str()) {
                Ok(DataType::Int)
            } else if text::same_text(upper.as_str(), "BOOL") {
                Ok(DataType::Bool)
            } else {
                Err(SqlError::named(ErrorKind::UnsupportedDataType, name.as_str()))
            }
        },
        SqlDataType::Other(s) => Err(SqlError::named(ErrorKind::UnsupportedDataType, s.as_str())),
    }
}

/// The model of an outcome that is a value.
spec fn value_outcome(r: Result<DbValue, SqlError>) -> Result<ValueV, ErrorV> {
    match r {
        Ok(v) => Ok(v@),
        Err(e) => Err(e@),
    }
}

/// The minus of a default.
fn negate_default(v: DbValue) -> (out: Result<DbValue, SqlError>)
    ensures
        value_outcome(out) == negative_default(v@),
{
    match v {
        DbValue::Int(i) => if i == i64::MIN {
            Err(SqlError::plain(ErrorKind::IntegerOverflow))
        } else {
            Ok(DbValue::Int(-i))
        },
        DbValue::Float(f) => Ok(DbValue::Float(value::negate_float(f))),
        _ => Err(SqlError::plain(ErrorKind::DefaultNegative)),
    }
}

/// The value of a default.
pub fn eval_default_expr(nodes: &Vec<SqlNode>, at: usize, facts: &Facts) -> (out: Result<DbValue, SqlError>)
    ensures
        match out {
            Ok(v) => default_value(syntax::sql_nodes_view(nodes@), at as int, facts@) == Ok::<ValueV, ErrorV>(v@),
            Err(e) => default_value(syntax::sql_nodes_view(nodes@), at as int, facts@) == Err::<ValueV, ErrorV>(e@),
        },
    decreases at,
{
    if at >= nodes.len() {
        return Err(SqlError::plain(ErrorKind::Malformed));
    }
    assert(syntax::sql_nodes_view(nodes@)[at as int] == nodes@[at as int]@);
    match &nodes[at] {
        SqlNode::Value(v) => match v {
            SqlValue::Number(s) => scalar::number(s, ErrorKind::DefaultNumber, facts),
            SqlValue::SingleQuotedString(s) => Ok(DbValue::String(s.clone())),
            SqlValue::Boolean(b) => Ok(DbValue::Bool(*b)),
            SqlValue::Null => Ok(DbValue::Null),
            _ => Err(SqlError::plain(ErrorKind::DefaultValue)),
        },
        SqlNode::UnaryOp { op, expr } => match op {
            SqlUnaryOperator::Minus => {
                if *expr >= at {
                    return Err(SqlError::plain(ErrorKind::Malformed));
                }
                let v = eval_default_expr(nodes, *expr, facts)?;
                negate_default(v)
            },
            SqlUnaryOperator::Plus => {
                if *expr >= at {
                    return Err(SqlError::plain(ErrorKind::Malformed));
                }
                eval_default_expr(nodes, *expr, facts)
            },
            _ => Err(SqlError::plain(ErrorKind::DefaultExpr)),
        },
        _ => Err(SqlError::plain(ErrorKind::DefaultExpr)),
    }
}

/// The default of a column.
fn plan_default(nodes: &Vec<SqlNode>, options: &Vec<ColumnOption>, facts: &Facts) -> (out: Result<
    Option<DbValue>,
    SqlError,
>)
    ensures
        match out {
            Ok(v) => default_from(
                syntax::sql_nodes_view(nodes@),
                syntax::column_options_view(options@),
                0,
                None,
                facts@,
            ) == Ok::<Option<ValueV>, ErrorV>(schema::opt_value(v)),
            Err(e) => default_from(
                syntax::sql_nodes_view(nodes@),
                syntax::column_options_view(options@),
                0,
                None,
                facts@,
            ) == Err::<Option<ValueV>, ErrorV>(e@),
        },
{
    let mut found: Option<DbValue> = None;
    let ghost view = syntax::column_options_view(options@);
    for i in 0..options.len()
        invariant
            view == syntax::column_options_view(options@),
            default_from(syntax::sql_nodes_view(nodes@), view, 0, None, facts@) == default_from(
                syntax::sql_nodes_view(nodes@),
                view,
                i as int,
                schema::opt_value(found),
                facts@,
            ),
    {
        assert(view[i as int] == options@[i as int]@);
        match &options[i] {
            ColumnOption::Default(id) => {
                let v = eval_default_expr(nodes, *id, facts)?;
                found = Some(v);
            },
            _ => {},
        }
    }
    Ok(found)
}

/// Whether the options of a column make it the primary key.
fn has_key_option(options: &Vec<ColumnOption>) -> (out: bool)
    ensures
        out == declares_key(syntax::column_options_view(options@)),
{
    let ghost view = syntax::column_options_view(options@);
    for i in 0..options.len()
        invariant
            view == syntax::column_options_view(options@),
            forall|j: int| 0 <= j < i ==> !(#[trigger] view[j] is PrimaryKey),
    {
        assert(view[i as int] == options@[i as int]@);
        match &options[i] {
            ColumnOption::PrimaryKey => {
                return true;
            },
            _ => {},
        }
    }
    false
}

/// Whether the options of a column exclude null.
fn has_not_null_option(options: &Vec<ColumnOption>) -> (out: bool)
    ensures
        out == excludes_null(syntax::column_options_view(options@)),
{
    let ghost view = syntax::column_options_view(options@);
    for i in 0..options.len()
        invariant
            view == syntax::column_options_view(options@),
            forall|j: int| 0 <= j < i ==> !(#[trigger] view[j] is NotNull),
    {
        assert(view[i as int] == options@[i as int]@);
        match &options[i] {
            ColumnOption::NotNull => {
                return true;
            },
            _ => {},
        }
    }
    false
}

/// Whether one of some tokens makes a column increase automatically.
fn tokens_increment(tokens: &Vec<OptionToken>) -> (out: bool)
    ensures
        out == some_increments(syntax::option_tokens_view(tokens@)),
{
    let ghost view = syntax::option_tokens_view(tokens@);
    for i in 0..tokens.len()
        invariant
            view == syntax::option_tokens_view(tokens@),
            forall|j: int| 0 <= j < i ==> !increments(#[trigger] view[j]),
    {
        assert(view[i as int] == tokens@[i as int]@);
        match &tokens[i] {
            OptionToken::Word(w) => {
                let upper = text::to_uppercase(w.as_str());
                if text::same_text(upper.as_str(), "AUTO_INCREMENT") || text::same_text(
                    upper.as_str(),
                    "AUTOINCREMENT",
                ) {
                    assert(increments(view[i as int]));
                    return true;
                }
            },
            OptionToken::Other => {},
        }
    }
    false
}

/// Whether a column increases automatically.
fn is_auto_increment(c: &ColumnDef) -> (out: bool)
    ensures
        out == auto_increments(c@),
{
    match &c.data_type {
        SqlDataType::Custom(name) => {
            if names_serial(name.as_str()) {
                return true;
            }
        },
        _ => {},
    }
    let ghost view = syntax::column_options_view(c.options@);
    for i in 0..c.options.len()
        invariant
            view == syntax::column_options_view(c.options@),
            forall|j: int| 0 <= j < i ==> !option_increments(#[trigger] view[j]),
    {
        assert(view[i as int] == c.options@[i as int]@);
        match &c.options[i] {
            ColumnOption::DialectSpecific(tokens) => {
                if tokens_increment(tokens) {
                    assert(option_increments(c@.options[i as int]));
                    return true;
                }
            },
            _ => {},
        }
    }
    false
}

/// Whether one of the nodes at some positions is an identifier with a name.
fn has_identifier(nodes: &Vec<SqlNode>, ids: &Vec<usize>, name: &str) -> (out: bool)
    ensures
        out == some_identifier(syntax::sql_nodes_view(nodes@), ids@, name@),
{
    let ghost view = syntax::sql_nodes_view(nodes@);
    for i in 0..ids.len()
        invariant
            view == syntax::sql_nodes_view(nodes@),
            forall|j: int| 0 <= j < i ==> !#[trigger] is_identifier(view, ids@[j], name@),
    {
        let at = ids[i];
        if at < nodes.len() {
            assert(view[at as int] == nodes@[at as int]@);
            match &nodes[at] {
                SqlNode::Identifier { value, .. } => {
                    if text::same_text(value.as_str(), name) {
                        assert(is_identifier(view, ids@[i as int], name@));
                        return true;
                    }
                },
                _ => {},
            }
        }
    }
    false
}

/// Whether a constraint puts a column into the primary key.
fn constraint_has(nodes: &Vec<SqlNode>, c: &TableConstraint, name: &str) -> (out: bool)
    ensures
        out == constrains(syntax::sql_nodes_view(nodes@), c@, name@),
{
    match c {
        TableConstraint::PrimaryKey(ids) => has_identifier(nodes, ids, name),
        TableConstraint::Other => false,
    }
}

/// Whether the constraints of a table put a column into the primary key.
fn constraints_have(nodes: &Vec<SqlNode>, constraints: &Vec<TableConstraint>, name: &str) -> (out: bool)
    ensures
        out == in_key(syntax::sql_nodes_view(nodes@), syntax::table_constraints_view(constraints@), name@),
{
    let ghost view = syntax::table_constraints_view(constraints@);
    for i in 0..constraints.len()
        invariant
            view == syntax::table_constraints_view(constraints@),
            forall|j: int|
                0 <= j < i ==> !constrains(syntax::sql_nodes_view(nodes@), #[trigger] view[j], name@),
    {
        assert(view[i as int] == constraints@[i as int]@);
        if constraint_has(nodes, &constraints[i], name) {
            return true;
        }
    }
    false
}

/// The model of an outcome that is a column.
pub open spec fn column_result(r: Result<Column, SqlError>) -> Result<ColumnV, ErrorV> {
    match r {
        Ok(c) => Ok(c@),
        Err(e) => Err(e@),
    }
}

/// Plans a column of CREATE TABLE.
fn plan_column(nodes: &Vec<SqlNode>, c: &ColumnDef, constraints: &Vec<TableConstraint>, g: &Groups, facts: &Facts) -> (out:
    Result<Column, SqlError>)
    ensures
        column_result(out) == created_column(
            syntax::sql_nodes_view(nodes@),
            c@,
            syntax::table_constraints_view(constraints@),
            g@,
            facts@,
        ),
{
    let data_type = plan_type(&c.data_type)?;
    let default_value = plan_default(nodes, &c.options, facts)?;
    let is_primary_key = has_key_option(&c.options) || constraints_have(nodes, constraints, c.name.as_str());
    let is_nullable = !is_primary_key && !has_not_null_option(&c.options);
    Ok(
        Column {
            id: 0,
            name: c.name.clone(),
            data_type,
            is_primary_key,
            is_nullable,
            locality_group: g.find(c.name.as_str()),
            default_value,
            is_auto_increment: is_auto_increment(c),
        },
    )
}

/// Plans a column of ALTER TABLE.
pub fn column_def_to_column(nodes: &Vec<SqlNode>, c: &ColumnDef, facts: &Facts) -> (out: Result<Column, SqlError>)
    ensures
        column_result(out) == added_column(syntax::sql_nodes_view(nodes@), c@, facts@),
{
    let data_type = plan_type(&c.data_type)?;
    if has_key_option(&c.options) {
        return Err(SqlError::plain(ErrorKind::AddedPrimaryKey));
    }
    let default_value = plan_default(nodes, &c.options, facts)?;
    Ok(
        Column {
            id: 0,
            name: c.name.clone(),
            data_type,
            is_primary_key: false,
            is_nullable: !has_not_null_option(&c.options),
            locality_group: None,
            default_value,
            is_auto_increment: false,
        },
    )
}

/// Plans the schema of a table.
pub fn plan_schema(
    nodes: &Vec<SqlNode>,
    columns: &Vec<ColumnDef>,
    constraints: &Vec<TableConstraint>,
    options: &Vec<TableOption>,
    facts: &Facts,
) -> (out: Result<Schema, SqlError>)
    ensures
        match out {
            Ok(s) => created_schema(
                syntax::sql_nodes_view(nodes@),
                syntax::column_defs_view(columns@),
                syntax::table_constraints_view(constraints@),
                syntax::table_options_view(options@),
                facts@,
            ) == Ok::<SchemaV, ErrorV>(s@),
            Err(e) => created_schema(
                syntax::sql_nodes_view(nodes@),
                syntax::column_defs_view(columns@),
                syntax::table_constraints_view(constraints@),
                syntax::table_options_view(options@),
                facts@,
            ) == Err::<SchemaV, ErrorV>(e@),
        },
{
    let mut g = Groups { columns: Vec::new(), options: Vec::new() };
    assert(g@.columns =~= Seq::empty() && g@.options =~= Seq::empty());
    g.add_options(nodes, options)?;
    let mut cols: Vec<Column> = Vec::new();
    let ghost view = syntax::column_defs_view(columns@);
    let ghost rs = created_columns(
        syntax::sql_nodes_view(nodes@),
        view,
        syntax::table_constraints_view(constraints@),
        g@,
        facts@,
    );
    assert(schema::columns_view(cols@) =~= Seq::empty());
    for i in 0..columns.len()
        invariant
            view == syntax::column_defs_view(columns@),
            rs == created_columns(
                syntax::sql_nodes_view(nodes@),
                view,
                syntax::table_constraints_view(constraints@),
                g@,
                facts@,
            ),
            rs.len() == columns@.len(),
            facts::collected(rs, 0, Seq::empty()) == facts::collected(rs, i as int, schema::columns_view(cols@)),
            options_added(
                syntax::sql_nodes_view(nodes@),
                GroupsV { columns: Seq::empty(), options: Seq::empty() },
                syntax::table_options_view(options@),
                0,
            ) == Ok::<GroupsV, ErrorV>(g@),
    {
        let ghost before = schema::columns_view(cols@);
        assert(view[i as int] == columns@[i as int]@);
        let c = plan_column(nodes, &columns[i], constraints, &g, facts)?;
        cols.push(c);
        assert(schema::columns_view(cols@) =~= before.push(c@));
    }
    Ok(Schema::new_with_options(cols, g.options))
}

} // verus!
