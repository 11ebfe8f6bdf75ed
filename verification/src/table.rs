//! Results as text, and the lines that are typed in.

use crate::engine::ExecutionResult;
use crate::eval;
use crate::facts;
use crate::facts::{AnswerV, ErrorV, Facts, QuestionV, SqlError};
use crate::run::{Change, ResultV};
use crate::schema;
use crate::schema::{ColumnV, Row, Schema};
use crate::subquery;
use crate::text;
use crate::value::{DbValue, ValueV};
use vstd::prelude::*;
use vstd::string::*;

verus! {

// ---------------------------------------------------------------- cells

/// Bytes from `i` on, with commas between them.
pub open spec fn byte_list(b: Seq<u8>, i: int) -> Seq<char>
    decreases b.len() - i,
{
    if i >= b.len() {
        Seq::empty()
    } else if i + 1 >= b.len() {
        text::int_text(b[i] as int)
    } else {
        text::int_text(b[i] as int) + ", "@ + byte_list(b, i + 1)
    }
}

/// The text of a value in a table: its own text, and a list for bytes.
pub open spec fn cell_text(v: ValueV, known: Seq<(QuestionV, AnswerV)>) -> Result<Seq<char>, ErrorV> {
    match v {
        ValueV::Bytes(b) => Ok("["@ + byte_list(b, 0) + "]"@),
        _ => eval::value_text(v, known),
    }
}

/// The texts of the values of a row.
pub open spec fn row_cells(row: Seq<ValueV>, known: Seq<(QuestionV, AnswerV)>) -> Result<Seq<Seq<char>>, ErrorV> {
    facts::collected(row.map_values(|v: ValueV| cell_text(v, known)), 0, Seq::empty())
}

/// The texts of the values of rows.
pub open spec fn table_cells(rows: Seq<Seq<ValueV>>, known: Seq<(QuestionV, AnswerV)>) -> Result<
    Seq<Seq<Seq<char>>>,
    ErrorV,
> {
    facts::collected(rows.map_values(|r: Seq<ValueV>| row_cells(r, known)), 0, Seq::empty())
}

// ---------------------------------------------------------------- lines

/// How many bytes a text has.
pub open spec fn size(t: Seq<char>) -> int {
    vstd::utf8::encode_utf8(t).len() as int
}

/// The larger of two numbers.
pub open spec fn larger(a: int, b: int) -> int {
    if a < b {
        b
    } else {
        a
    }
}

/// The width of column `c`: the largest size of its name and of the texts in the first `n` rows.
pub open spec fn width(name: Seq<char>, cells: Seq<Seq<Seq<char>>>, c: int, n: int) -> int
    decreases n,
{
    if n <= 0 {
        size(name)
    } else {
        let above = width(name, cells, c, n - 1);
        if c < cells[n - 1].len() {
            larger(above, size(cells[n - 1][c]))
        } else {
            above
        }
    }
}

/// The widths of the columns.
pub open spec fn widths(names: Seq<Seq<char>>, cells: Seq<Seq<Seq<char>>>) -> Seq<int> {
    Seq::new(names.len(), |c: int| width(names[c], cells, c, cells.len() as int))
}

/// A character again and again.
pub open spec fn repeated(c: char, n: int) -> Seq<char> {
    Seq::new(larger(n, 0) as nat, |i: int| c)
}

/// A text with spaces after it, up to a width.
pub open spec fn padded(t: Seq<char>, w: int) -> Seq<char> {
    t + repeated(' ', w - t.len())
}

/// The border of the columns from `i` on.
pub open spec fn border(ws: Seq<int>, i: int) -> Seq<char>
    decreases ws.len() - i,
{
    if i >= ws.len() {
        "+"@
    } else {
        "+"@ + repeated('-', ws[i]) + "--"@ + border(ws, i + 1)
    }
}

/// The line of the cells from `i` on.
pub open spec fn line(cells: Seq<Seq<char>>, ws: Seq<int>, i: int) -> Seq<char>
    decreases cells.len() - i,
{
    if i >= cells.len() {
        "|"@
    } else {
        "| "@ + padded(cells[i], ws[i]) + " "@ + line(cells, ws, i + 1)
    }
}

/// The lines of the rows from `i` on.
pub open spec fn lines(cells: Seq<Seq<Seq<char>>>, ws: Seq<int>, i: int) -> Seq<char>
    decreases cells.len() - i,
{
    if i >= cells.len() {
        Seq::empty()
    } else {
        line(cells[i], ws, 0) + "\n"@ + lines(cells, ws, i + 1)
    }
}

/// A table: a border, the names of the columns, a border, the rows, a border, and how many rows
/// there are.
pub open spec fn table(names: Seq<Seq<char>>, cells: Seq<Seq<Seq<char>>>) -> Seq<char> {
    let ws = widths(names, cells);
    border(ws, 0) + "\n"@ + line(names, ws, 0) + "\n"@ + border(ws, 0) + "\n"@ + lines(cells, ws, 0) + border(ws, 0)
        + "\n"@ + text::int_text(cells.len() as int) + " row(s) in set"@
}

/// The names of columns.
pub open spec fn names_of(cols: Seq<ColumnV>) -> Seq<Seq<char>> {
    cols.map_values(|c: ColumnV| c.name)
}

/// What is told of a change.
pub open spec fn change_text(c: Change) -> Seq<char> {
    match c {
        Change::CreateTable => "Table created successfully."@,
        Change::DropTable => "Table dropped successfully."@,
        Change::CreateIndex => "Index created successfully."@,
        Change::DropIndex => "Index dropped successfully."@,
        Change::AlterTable => "Table altered successfully."@,
        Change::Analyze => "Table analyzed successfully."@,
    }
}

/// A result as text.
pub open spec fn result_text(r: ResultV, known: Seq<(QuestionV, AnswerV)>) -> Result<Seq<char>, ErrorV> {
    match r {
        ResultV::Changed(c) => Ok(change_text(c)),
        ResultV::Insert { count } => Ok("Inserted "@ + text::int_text(count) + " row(s)."@),
        ResultV::Delete { count } => Ok("Deleted "@ + text::int_text(count) + " row(s)."@),
        ResultV::Update { count } => Ok("Updated "@ + text::int_text(count) + " row(s)."@),
        ResultV::Select { schema, rows } => if rows.len() == 0 {
            Ok("Empty set."@)
        } else {
            match table_cells(rows, known) {
                Err(e) => Err(e),
                Ok(cells) => Ok(table(names_of(schema.columns), cells)),
            }
        },
    }
}

/// Whether no row of a result has more values than there are columns.
pub open spec fn rows_fit(r: ResultV) -> bool {
    r matches ResultV::Select { schema, rows } ==> forall|i: int|
        0 <= i < rows.len() ==> (#[trigger] rows[i]).len() <= schema.columns.len()
}

// ---------------------------------------------------------------- writing a table

/// The models of rows of texts.
pub open spec fn cells_view(s: Seq<Vec<String>>) -> Seq<Seq<Seq<char>>> {
    s.map_values(|r: Vec<String>| text::views(r@))
}

/// The bytes from `i` on, after others.
fn write_bytes(out: &mut String, b: &Vec<u8>)
    ensures
        final(out)@ == old(out)@ + byte_list(b@, 0),
{
    let mut i: usize = 0;
    let ghost before = out@;
    assert(before + byte_list(b@, 0) == out@ + byte_list(b@, 0));
    while i < b.len()
        invariant
            i <= b@.len(),
            out@ + byte_list(b@, i as int) == before + byte_list(b@, 0),
        decreases b.len() - i,
    {
        let ghost so_far = out@;
        let t = text::int_to_text(b[i] as i64);
        text::append(out, t.as_str());
        if i + 1 < b.len() {
            text::append(out, ", ");
            assert(out@ + byte_list(b@, i + 1) =~= so_far + byte_list(b@, i as int));
        } else {
            assert(out@ + byte_list(b@, i + 1) =~= so_far + byte_list(b@, i as int));
        }
        i = i + 1;
    }
    assert(out@ + byte_list(b@, b@.len() as int) =~= out@);
}

/// The text of a value in a table.
fn show_cell(v: &DbValue, facts: &Facts) -> (out: Result<String, SqlError>)
    ensures
        eval::text_result(out) == cell_text(v@, facts@),
{
    match v {
        DbValue::Bytes(b) => {
            let mut out = "[".to_owned();
            write_bytes(&mut out, b);
            text::append(&mut out, "]");
            Ok(out)
        },
        _ => eval::coerce_to_string(v, facts),
    }
}

/// The texts of the values of a row.
fn show_row(row: &Row, facts: &Facts) -> (out: Result<Vec<String>, SqlError>)
    ensures
        match out {
            Ok(v) => row_cells(row@, facts@) == Ok::<Seq<Seq<char>>, ErrorV>(text::views(v@)) && v@.len() == row@.len(),
            Err(e) => row_cells(row@, facts@) == Err::<Seq<Seq<char>>, ErrorV>(e@),
        },
{
    let mut out: Vec<String> = Vec::new();
    let ghost rs = row@.map_values(|v: ValueV| cell_text(v, facts@));
    assert(text::views(out@) =~= Seq::empty());
    for i in 0..row.values.len()
        invariant
            rs == row@.map_values(|v: ValueV| cell_text(v, facts@)),
            out@.len() == i,
            facts::collected(rs, 0, Seq::empty()) == facts::collected(rs, i as int, text::views(out@)),
    {
        let ghost before = text::views(out@);
        assert(rs[i as int] == cell_text(row.values@[i as int]@, facts@));
        let t = show_cell(&row.values[i], facts)?;
        let ghost added = t@;
        out.push(t);
        assert(text::views(out@) =~= before.push(added));
    }
    Ok(out)
}

/// The texts of the values of rows.
fn show_rows(rows: &Vec<Row>, columns: usize, facts: &Facts) -> (out: Result<Vec<Vec<String>>, SqlError>)
    requires
        forall|i: int| 0 <= i < rows@.len() ==> (#[trigger] rows@[i])@.len() <= columns,
    ensures
        match out {
            Ok(v) => {
                &&& table_cells(subquery::rows_model(rows@), facts@) == Ok::<Seq<Seq<Seq<char>>>, ErrorV>(
                    cells_view(v@),
                )
                &&& v@.len() == rows@.len()
                &&& forall|i: int| 0 <= i < v@.len() ==> (#[trigger] v@[i])@.len() <= columns
            },
            Err(e) => table_cells(subquery::rows_model(rows@), facts@) == Err::<Seq<Seq<Seq<char>>>, ErrorV>(e@),
        },
{
    let mut out: Vec<Vec<String>> = Vec::new();
    let ghost all = subquery::rows_model(rows@);
    let ghost rs = all.map_values(|r: Seq<ValueV>| row_cells(r, facts@));
    assert(cells_view(out@) =~= Seq::empty());
    for i in 0..rows.len()
        invariant
            all == subquery::rows_model(rows@),
            rs == all.map_values(|r: Seq<ValueV>| row_cells(r, facts@)),
            out@.len() == i,
            forall|j: int| 0 <= j < rows@.len() ==> (#[trigger] rows@[j])@.len() <= columns,
            forall|j: int| 0 <= j < i ==> (#[trigger] out@[j])@.len() <= columns,
            facts::collected(rs, 0, Seq::empty()) == facts::collected(rs, i as int, cells_view(out@)),
    {
        let ghost before = cells_view(out@);
        assert(all[i as int] == rows@[i as int]@);
        assert(rs[i as int] == row_cells(rows@[i as int]@, facts@));
        let r = show_row(&rows[i], facts)?;
        let ghost added = text::views(r@);
        out.push(r);
        assert(cells_view(out@) =~= before.push(added));
    }
    Ok(out)
}

/// The width of a column.
fn column_width(name: &str, cells: &Vec<Vec<String>>, c: usize) -> (out: usize)
    ensures
        out == width(name@, cells_view(cells@), c as int, cells@.len() as int),
{
    let mut out: usize = name.as_bytes().len();
    for i in 0..cells.len()
        invariant
            out == width(name@, cells_view(cells@), c as int, i as int),
    {
        assert(cells_view(cells@)[i as int] == text::views(cells@[i as int]@));
        if c < cells[i].len() {
            assert(text::views(cells@[i as int]@)[c as int] == cells@[i as int]@[c as int]@);
            let n: usize = cells[i][c].as_str().as_bytes().len();
            if out < n {
                out = n;
            }
        }
    }
    out
}

/// The models of numbers.
pub open spec fn ints(s: Seq<usize>) -> Seq<int> {
    s.map_values(|n: usize| n as int)
}

/// The widths of the columns.
fn column_widths(names: &Vec<String>, cells: &Vec<Vec<String>>) -> (out: Vec<usize>)
    ensures
        ints(out@) == widths(text::views(names@), cells_view(cells@)),
        out@.len() == names@.len(),
{
    let mut out: Vec<usize> = Vec::new();
    let ghost all = text::views(names@);
    for i in 0..names.len()
        invariant
            all == text::views(names@),
            out@.len() == i,
            forall|j: int|
                0 <= j < i ==> (#[trigger] out@[j]) as int == width(
                    all[j],
                    cells_view(cells@),
                    j,
                    cells@.len() as int,
                ),
    {
        out.push(column_width(names[i].as_str(), cells, i));
    }
    assert(ints(out@) =~= widths(all, cells_view(cells@)));
    out
}

/// Writes a character again and again.
fn write_repeated(out: &mut String, c: char, n: usize)
    ensures
        final(out)@ == old(out)@ + repeated(c, n as int),
{
    let ghost before = out@;
    assert(before + repeated(c, 0) =~= before);
    for i in 0..n
        invariant
            out@ == before + repeated(c, i as int),
    {
        out.push(c);
        assert(out@ =~= before + repeated(c, i + 1));
    }
}

/// Writes the border of the columns.
fn write_border(out: &mut String, ws: &Vec<usize>)
    ensures
        final(out)@ == old(out)@ + border(ints(ws@), 0),
{
    let ghost before = out@;
    let ghost all = ints(ws@);
    for i in 0..ws.len()
        invariant
            all == ints(ws@),
            out@ + border(all, i as int) == before + border(all, 0),
    {
        let ghost so_far = out@;
        text::append(out, "+");
        write_repeated(out, '-', ws[i]);
        text::append(out, "--");
        assert(out@ + border(all, i + 1) =~= so_far + border(all, i as int));
    }
    text::append(out, "+");
}

/// Writes a text with spaces after it, up to a width.
fn write_padded(out: &mut String, t: &str, w: usize)
    ensures
        final(out)@ == old(out)@ + padded(t@, w as int),
{
    let ghost before = out@;
    let n: usize = text::chars_of(t).len();
    text::append(out, t);
    if n < w {
        write_repeated(out, ' ', w - n);
    }
    assert(out@ =~= before + padded(t@, w as int));
}

/// Writes the line of some cells.
fn write_line(out: &mut String, cells: &Vec<String>, ws: &Vec<usize>)
    requires
        cells@.len() <= ws@.len(),
    ensures
        final(out)@ == old(out)@ + line(text::views(cells@), ints(ws@), 0),
{
    let ghost before = out@;
    let ghost all = ints(ws@);
    let ghost texts = text::views(cells@);
    for i in 0..cells.len()
        invariant
            cells@.len() <= ws@.len(),
            all == ints(ws@),
            texts == text::views(cells@),
            out@ + line(texts, all, i as int) == before + line(texts, all, 0),
    {
        let ghost so_far = out@;
        text::append(out, "| ");
        write_padded(out, cells[i].as_str(), ws[i]);
        text::append(out, " ");
        assert(out@ + line(texts, all, i + 1) =~= so_far + line(texts, all, i as int));
    }
    text::append(out, "|");
}

/// Writes the lines of some rows.
fn write_lines(out: &mut String, cells: &Vec<Vec<String>>, ws: &Vec<usize>)
    requires
        forall|i: int| 0 <= i < cells@.len() ==> (#[trigger] cells@[i])@.len() <= ws@.len(),
    ensures
        final(out)@ == old(out)@ + lines(cells_view(cells@), ints(ws@), 0),
{
    let ghost before = out@;
    let ghost all = ints(ws@);
    let ghost texts = cells_view(cells@);
    for i in 0..cells.len()
        invariant
            forall|j: int| 0 <= j < cells@.len() ==> (#[trigger] cells@[j])@.len() <= ws@.len(),
            all == ints(ws@),
            texts == cells_view(cells@),
            out@ + lines(texts, all, i as int) == before + lines(texts, all, 0),
    {
        let ghost so_far = out@;
        write_line(out, &cells[i], ws);
        text::append(out, "\n");
        assert(texts[i as int] == text::views(cells@[i as int]@));
        assert(out@ + lines(texts, all, i + 1) =~= so_far + lines(texts, all, i as int));
    }
    assert(out@ + lines(texts, all, cells@.len() as int) =~= out@);
}

/// The names of the columns of a schema.
fn column_names(s: &Schema) -> (out: Vec<String>)
    ensures
        text::views(out@) == names_of(s@.columns),
        out@.len() == s@.columns.len(),
{
    let mut out: Vec<String> = Vec::new();
    for i in 0..s.columns.len()
        invariant
            out@.len() == i,
            forall|j: int| 0 <= j < i ==> (#[trigger] out@[j])@ == s.columns@[j]@.name,
    {
        out.push(s.columns[i].name.clone());
    }
    assert(text::views(out@) =~= names_of(s@.columns));
    out
}

/// A table.
fn write_table(names: &Vec<String>, cells: &Vec<Vec<String>>) -> (out: String)
    requires
        forall|i: int| 0 <= i < cells@.len() ==> (#[trigger] cells@[i])@.len() <= names@.len(),
    ensures
        out@ == table(text::views(names@), cells_view(cells@)),
{
    let ws = column_widths(names, cells);
    let mut out = String::new();
    write_border(&mut out, &ws);
    text::append(&mut out, "\n");
    write_line(&mut out, names, &ws);
    text::append(&mut out, "\n");
    write_border(&mut out, &ws);
    text::append(&mut out, "\n");
    write_lines(&mut out, cells, &ws);
    write_border(&mut out, &ws);
    text::append(&mut out, "\n");
    text::append(&mut out, text::usize_to_text(cells.len()).as_str());
    text::append(&mut out, " row(s) in set");
    assert(out@ =~= table(text::views(names@), cells_view(cells@)));
    out
}

/// How many rows were changed.
fn counted(before: &str, count: usize) -> (out: String)
    ensures
        out@ == before@ + text::int_text(count as int) + " row(s)."@,
{
    let mut out = before.to_owned();
    text::append(&mut out, text::usize_to_text(count).as_str());
    text::append(&mut out, " row(s).");
    out
}

/// A result as text.
pub fn display_result(res: &ExecutionResult, facts: &Facts) -> (out: Result<String, SqlError>)
    requires
        rows_fit(res@),
    ensures
        eval::text_result(out) == result_text(res@, facts@),
{
    match res {
        ExecutionResult::CreateTable => Ok("Table created successfully.".to_owned()),
        ExecutionResult::DropTable => Ok("Table dropped successfully.".to_owned()),
        ExecutionResult::CreateIndex => Ok("Index created successfully.".to_owned()),
        ExecutionResult::DropIndex => Ok("Index dropped successfully.".to_owned()),
        ExecutionResult::AlterTable => Ok("Table altered successfully.".to_owned()),
        ExecutionResult::Analyze => Ok("Table analyzed successfully.".to_owned()),
        ExecutionResult::Insert { count } => Ok(counted("Inserted ", *count)),
        ExecutionResult::Delete { count } => Ok(counted("Deleted ", *count)),
        ExecutionResult::Update { count } => Ok(counted("Updated ", *count)),
        ExecutionResult::Select { schema, rows } => {
            if rows.len() == 0 {
                return Ok("Empty set.".to_owned());
            }
            let names = column_names(schema);
            assert forall|i: int| 0 <= i < rows@.len() implies (#[trigger] rows@[i])@.len() <= names@.len() by {
                assert(subquery::rows_model(rows@)[i] == rows@[i]@);
            }
            let cells = show_rows(rows, names.len(), facts)?;
            Ok(write_table(&names, &cells))
        },
    }
}

// ---------------------------------------------------------------- typed lines

/// What a typed line leads to.
#[derive(Debug, PartialEq, Eq)]
pub enum Typed {
    /// The session ends.
    Quit,
    /// The statement goes on in the next line.
    More,
    /// There is nothing to be done.
    Nothing,
    /// A statement is complete.
    Statement(String),
}

/// The model of what a typed line leads to.
#[verifier::ext_equal]
pub enum TypedV {
    Quit,
    More,
    Nothing,
    Statement(Seq<char>),
}

impl View for Typed {
    type V = TypedV;

    open spec fn view(&self) -> TypedV {
        match self {
            Typed::Quit => TypedV::Quit,
            Typed::More => TypedV::More,
            Typed::Nothing => TypedV::Nothing,
            Typed::Statement(t) => TypedV::Statement(t@),
        }
    }
}

/// Whether a text ends in a semicolon, but for white space.
pub open spec fn is_complete(t: Seq<char>) -> bool {
    let e = text::end_trimmed(t);
    e.len() > 0 && e.last() == ';'
}

/// What a line leads to after what was typed before it, and what is kept of both. A session ends
/// with `exit` or `quit` where nothing was typed before. A statement goes up to a semicolon at
/// the end of a line.
pub open spec fn typed(buffer: Seq<char>, line: Seq<char>) -> (Seq<char>, TypedV) {
    let word = text::trimmed(line);
    if buffer.len() == 0 && (word == "exit"@ || word == "quit"@) {
        (buffer, TypedV::Quit)
    } else {
        let all = buffer + line;
        let sql = text::trimmed(all);
        if !is_complete(all) {
            (all, TypedV::More)
        } else if sql.len() == 0 || sql == ";"@ {
            (Seq::empty(), TypedV::Nothing)
        } else {
            (Seq::empty(), TypedV::Statement(sql))
        }
    }
}

/// Takes a line that was typed after what is in the buffer.
pub fn take_line(buffer: &mut String, line: &str) -> (out: Typed)
    ensures
        (final(buffer)@, out@) == typed(old(buffer)@, line@),
{
    let word = text::trim(line);
    let none = text::chars_of(buffer.as_str()).len() == 0;
    if none && (text::same_text(word.as_str(), "exit") || text::same_text(word.as_str(), "quit")) {
        return Typed::Quit;
    }
    text::append(buffer, line);
    let end = text::chars_of(text::trim_end(buffer.as_str()).as_str());
    if end.len() == 0 || end[end.len() - 1] != ';' {
        return Typed::More;
    }
    let sql = text::trim(buffer.as_str());
    *buffer = String::new();
    assert(buffer@ =~= Seq::empty());
    if text::chars_of(sql.as_str()).len() == 0 || text::same_text(sql.as_str(), ";") {
        return Typed::Nothing;
    }
    Typed::Statement(sql)
}

// ---------------------------------------------------------------- laws

/// A text has at least as many bytes as characters.
proof fn size_covers_length(t: Seq<char>)
    ensures
        size(t) >= t.len(),
    decreases t.len(),
{
    if t.len() > 0 {
        size_covers_length(t.drop_first());
        vstd::utf8::char_is_scalar(t[0]);
        assert(vstd::utf8::encode_scalar(t[0] as u32).len() >= 1);
    }
}

/// A column is at least as wide as each of its texts.
proof fn width_covers(name: Seq<char>, cells: Seq<Seq<Seq<char>>>, c: int, n: int, r: int)
    requires
        0 <= n <= cells.len(),
        0 <= r < n,
        0 <= c < cells[r].len(),
    ensures
        width(name, cells, c, n) >= size(cells[r][c]),
    decreases n,
{
    if r < n - 1 {
        width_covers(name, cells, c, n - 1, r);
    }
}

/// A column is at least as wide as its name.
proof fn width_covers_name(name: Seq<char>, cells: Seq<Seq<Seq<char>>>, c: int, n: int)
    ensures
        width(name, cells, c, n) >= size(name),
    decreases n,
{
    if n > 0 {
        width_covers_name(name, cells, c, n - 1);
    }
}

/// A line of texts that are no longer than their columns is as long as the border.
proof fn line_is_as_long_as_border(cells: Seq<Seq<char>>, ws: Seq<int>, i: int)
    requires
        0 <= i <= cells.len(),
        cells.len() == ws.len(),
        forall|c: int| 0 <= c < ws.len() ==> (#[trigger] cells[c]).len() <= ws[c],
    ensures
        line(cells, ws, i).len() == border(ws, i).len(),
    decreases cells.len() - i,
{
    reveal_strlit("|");
    reveal_strlit("+");
    reveal_strlit("| ");
    reveal_strlit("--");
    reveal_strlit(" ");
    if i < cells.len() {
        line_is_as_long_as_border(cells, ws, i + 1);
        assert(cells[i].len() <= ws[i]);
        assert(padded(cells[i], ws[i]).len() == ws[i]);
        assert(repeated('-', ws[i]).len() == ws[i]);
    }
}

/// A table lines up: the line of the names and the line of each full row have as many characters
/// as the borders.
pub proof fn tables_line_up(names: Seq<Seq<char>>, cells: Seq<Seq<Seq<char>>>, r: int)
    ensures
        line(names, widths(names, cells), 0).len() == border(widths(names, cells), 0).len(),
        0 <= r < cells.len() && cells[r].len() == names.len() ==> line(cells[r], widths(names, cells), 0).len()
            == border(widths(names, cells), 0).len(),
{
    let ws = widths(names, cells);
    let n = cells.len() as int;
    assert forall|c: int| 0 <= c < ws.len() implies (#[trigger] names[c]).len() <= ws[c] by {
        width_covers_name(names[c], cells, c, n);
        size_covers_length(names[c]);
    }
    line_is_as_long_as_border(names, ws, 0);
    if 0 <= r < cells.len() && cells[r].len() == names.len() {
        assert forall|c: int| 0 <= c < ws.len() implies (#[trigger] cells[r][c]).len() <= ws[c] by {
            width_covers(names[c], cells, c, n, r);
            size_covers_length(cells[r][c]);
        }
        line_is_as_long_as_border(cells[r], ws, 0);
    }
}

/// Nothing that was typed is lost: a line that completes no statement is kept after what was
/// typed before it, and a statement is all that was typed since the last one.
pub proof fn typed_lines_are_kept(buffer: Seq<char>, line: Seq<char>)
    ensures
        typed(buffer, line).1 is More ==> typed(buffer, line).0 == buffer + line,
        typed(buffer, line).1 matches TypedV::Statement(sql) ==> sql == text::trimmed(buffer + line) && typed(
            buffer,
            line,
        ).0.len() == 0,
{
}

} // verus!
