//! Results as text, and typed lines.

use dtdb_sql::engine::ExecutionResult;
use dtdb_sql::facts::{Answer, Facts, Question};
use dtdb_sql::schema::{Column, Row, Schema};
use dtdb_sql::table::{display_result, take_line, Typed};
use dtdb_sql::value::{DataType, DbValue};

fn shown(r: &ExecutionResult) -> String {
    display_result(r, &Facts::new()).unwrap()
}

fn people(rows: Vec<Vec<DbValue>>) -> ExecutionResult {
    ExecutionResult::Select {
        schema: Schema::new(vec![Column::plain("id", DataType::Int), Column::plain("name", DataType::String)]),
        rows: rows.into_iter().map(Row::new).collect(),
    }
}

#[test]
fn changes_are_told() {
    assert_eq!(shown(&ExecutionResult::CreateTable), "Table created successfully.");
    assert_eq!(shown(&ExecutionResult::DropTable), "Table dropped successfully.");
    assert_eq!(shown(&ExecutionResult::CreateIndex), "Index created successfully.");
    assert_eq!(shown(&ExecutionResult::DropIndex), "Index dropped successfully.");
    assert_eq!(shown(&ExecutionResult::AlterTable), "Table altered successfully.");
    assert_eq!(shown(&ExecutionResult::Analyze), "Table analyzed successfully.");
    assert_eq!(shown(&ExecutionResult::Insert { count: 3 }), "Inserted 3 row(s).");
    assert_eq!(shown(&ExecutionResult::Delete { count: 0 }), "Deleted 0 row(s).");
    assert_eq!(shown(&ExecutionResult::Update { count: 12 }), "Updated 12 row(s).");
    assert_eq!(shown(&people(Vec::new())), "Empty set.");
}

#[test]
fn rows_are_shown_as_a_table() {
    let r = people(vec![
        vec![DbValue::Int(1), DbValue::string("Alice")],
        vec![DbValue::Int(-100), DbValue::Null],
        vec![DbValue::Bool(true), DbValue::bytes(vec![1, 20, 3])],
    ]);
    let expected = "+------+------------+\n\
                    | id   | name       |\n\
                    +------+------------+\n\
                    | 1    | Alice      |\n\
                    | -100 | NULL       |\n\
                    | true | [1, 20, 3] |\n\
                    +------+------------+\n\
                    3 row(s) in set";
    assert_eq!(shown(&r), expected);
}

#[test]
fn widths_are_counted_in_bytes() {
    let r = people(vec![vec![DbValue::Int(1), DbValue::string("h\u{e9}\u{e9}\u{e9}")]]);
    let text = shown(&r);
    let lines: Vec<&str> = text.split('\n').collect();
    assert_eq!(lines[0], "+----+---------+");
    assert_eq!(lines[3], "| 1  | h\u{e9}\u{e9}\u{e9}    |");
    for line in &lines[..5] {
        assert_eq!(line.chars().count(), lines[0].chars().count());
    }
}

#[test]
fn floats_are_asked_for() {
    let bits = 2.5f64.to_bits();
    let r = people(vec![vec![DbValue::Float(bits), DbValue::string("x")]]);
    let e = display_result(&r, &Facts::new()).unwrap_err();
    assert_eq!(e.question, Some(Question::FloatText(bits)));
    let mut facts = Facts::new();
    facts.record(Question::FloatText(bits), Answer::Text("2.5".to_string()));
    assert!(display_result(&r, &facts).unwrap().contains("| 2.5 | x    |"));
}

#[test]
fn lines_are_collected_up_to_a_semicolon() {
    let mut buffer = String::new();
    assert_eq!(take_line(&mut buffer, "SELECT 1\n"), Typed::More);
    assert_eq!(buffer, "SELECT 1\n");
    // In the middle of a statement these are no commands.
    assert_eq!(take_line(&mut buffer, "exit\n"), Typed::More);
    assert_eq!(take_line(&mut buffer, "  ;  \n"), Typed::Statement("SELECT 1\nexit\n  ;".to_string()));
    assert_eq!(buffer, "");
    assert_eq!(take_line(&mut buffer, " ; \n"), Typed::Nothing);
    assert_eq!(buffer, "");
    assert_eq!(take_line(&mut buffer, " quit \n"), Typed::Quit);
    assert_eq!(take_line(&mut buffer, "exit"), Typed::Quit);
    assert_eq!(take_line(&mut buffer, "\n"), Typed::More);
    assert_eq!(buffer, "\n");
}
