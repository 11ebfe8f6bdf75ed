//! The syntax of statements, as far as planning reads it.
//!
//! What the library does not look into is held by its text.

use crate::schema;
use crate::text;
use vstd::prelude::*;
use vstd::string::*;

verus! {

/// A literal of SQL.
#[allow(inconsistent_fields)]
#[derive(Debug, PartialEq)]
pub enum SqlValue {
    /// A number, as it was written.
    Number(String),
    SingleQuotedString(String),
    Boolean(bool),
    Null,
    /// A parameter, as it was written.
    Placeholder(String),
    HexStringLiteral(String),
    /// Any other literal, by its text.
    Other(String),
}

/// The model of `SqlValue`.
#[allow(inconsistent_fields)]
pub enum SqlValueV {
    Number(Seq<char>),
    SingleQuotedString(Seq<char>),
    Boolean(bool),
    Null,
    Placeholder(Seq<char>),
    HexStringLiteral(Seq<char>),
    Other(Seq<char>),
}

impl SqlValue {
    /// The model.
    pub open spec fn view(&self) -> SqlValueV {
        match self {
            SqlValue::Number(x) => SqlValueV::Number(x@),
            SqlValue::SingleQuotedString(x) => SqlValueV::SingleQuotedString(x@),
            SqlValue::Boolean(x) => SqlValueV::Boolean(*x),
            SqlValue::Null => SqlValueV::Null,
            SqlValue::Placeholder(x) => SqlValueV::Placeholder(x@),
            SqlValue::HexStringLiteral(x) => SqlValueV::HexStringLiteral(x@),
            SqlValue::Other(x) => SqlValueV::Other(x@),
        }
    }
}

/// A binary operator of SQL.
#[allow(inconsistent_fields)]
#[derive(Debug, PartialEq)]
pub enum SqlBinaryOperator {
    Eq,
    Gt,
    Lt,
    GtEq,
    LtEq,
    NotEq,
    And,
    Or,
    Plus,
    Minus,
    Multiply,
    Divide,
    /// Any other operator, by its text.
    Other(String),
}

/// The model of `SqlBinaryOperator`.
#[allow(inconsistent_fields)]
pub enum SqlBinaryOperatorV {
    Eq,
    Gt,
    Lt,
    GtEq,
    LtEq,
    NotEq,
    And,
    Or,
    Plus,
    Minus,
    Multiply,
    Divide,
    Other(Seq<char>),
}

impl SqlBinaryOperator {
    /// The model.
    pub open spec fn view(&self) -> SqlBinaryOperatorV {
        match self {
            SqlBinaryOperator::Eq => SqlBinaryOperatorV::Eq,
            SqlBinaryOperator::Gt => SqlBinaryOperatorV::Gt,
            SqlBinaryOperator::Lt => SqlBinaryOperatorV::Lt,
            SqlBinaryOperator::GtEq => SqlBinaryOperatorV::GtEq,
            SqlBinaryOperator::LtEq => SqlBinaryOperatorV::LtEq,
            SqlBinaryOperator::NotEq => SqlBinaryOperatorV::NotEq,
            SqlBinaryOperator::And => SqlBinaryOperatorV::And,
            SqlBinaryOperator::Or => SqlBinaryOperatorV::Or,
            SqlBinaryOperator::Plus => SqlBinaryOperatorV::Plus,
            SqlBinaryOperator::Minus => SqlBinaryOperatorV::Minus,
            SqlBinaryOperator::Multiply => SqlBinaryOperatorV::Multiply,
            SqlBinaryOperator::Divide => SqlBinaryOperatorV::Divide,
            SqlBinaryOperator::Other(x) => SqlBinaryOperatorV::Other(x@),
        }
    }
}

/// A unary operator of SQL.
#[allow(inconsistent_fields)]
#[derive(Debug, PartialEq)]
pub enum SqlUnaryOperator {
    Minus,
    Plus,
    Not,
    /// Any other operator, by its text.
    Other(String),
}

/// The model of `SqlUnaryOperator`.
#[allow(inconsistent_fields)]
pub enum SqlUnaryOperatorV {
    Minus,
    Plus,
    Not,
    Other(Seq<char>),
}

impl SqlUnaryOperator {
    /// The model.
    pub open spec fn view(&self) -> SqlUnaryOperatorV {
        match self {
            SqlUnaryOperator::Minus => SqlUnaryOperatorV::Minus,
            SqlUnaryOperator::Plus => SqlUnaryOperatorV::Plus,
            SqlUnaryOperator::Not => SqlUnaryOperatorV::Not,
            SqlUnaryOperator::Other(x) => SqlUnaryOperatorV::Other(x@),
        }
    }
}

/// An argument of a function call.
#[allow(inconsistent_fields)]
#[derive(Debug, PartialEq)]
pub enum FunctionArgument {
    Unnamed(usize),
    Named(usize),
    Wildcard,
    /// Any other argument, by its text.
    Other(String),
}

/// The model of `FunctionArgument`.
#[allow(inconsistent_fields)]
pub enum FunctionArgumentV {
    Unnamed(usize),
    Named(usize),
    Wildcard,
    Other(Seq<char>),
}

impl FunctionArgument {
    /// The model.
    pub open spec fn view(&self) -> FunctionArgumentV {
        match self {
            FunctionArgument::Unnamed(x) => FunctionArgumentV::Unnamed(*x),
            FunctionArgument::Named(x) => FunctionArgumentV::Named(*x),
            FunctionArgument::Wildcard => FunctionArgumentV::Wildcard,
            FunctionArgument::Other(x) => FunctionArgumentV::Other(x@),
        }
    }
}

/// The arguments of a function call.
#[allow(inconsistent_fields)]
#[derive(Debug, PartialEq)]
pub enum FunctionArguments {
    Absent,
    List {
        args: Vec<FunctionArgument>,
        distinct: bool,
    },
    /// Any other form, by its text.
    Other(String),
}

/// The model of `FunctionArguments`.
#[allow(inconsistent_fields)]
pub enum FunctionArgumentsV {
    Absent,
    List { args: Seq<FunctionArgumentV>, distinct: bool },
    Other(Seq<char>),
}

impl FunctionArguments {
    /// The model.
    pub open spec fn view(&self) -> FunctionArgumentsV {
        match self {
            FunctionArguments::Absent => FunctionArgumentsV::Absent,
            FunctionArguments::List { args, distinct } => FunctionArgumentsV::List {
                args: function_arguments_view(args@),
                distinct: *distinct,
            },
            FunctionArguments::Other(x) => FunctionArgumentsV::Other(x@),
        }
    }
}

/// A scalar expression of SQL. Its operands are other nodes, by their positions.
#[allow(inconsistent_fields)]
#[derive(Debug, PartialEq)]
pub enum SqlNode {
    Identifier {
        value: String,
        quote: Option<char>,
    },
    /// A qualified name, by its parts.
    CompoundIdentifier(Vec<String>),
    Value(SqlValue),
    Like {
        negated: bool,
        expr: usize,
        pattern: usize,
    },
    BinaryOp {
        left: usize,
        op: SqlBinaryOperator,
        right: usize,
    },
    Nested(usize),
    UnaryOp {
        op: SqlUnaryOperator,
        expr: usize,
    },
    IsNull(usize),
    IsNotNull(usize),
    Between {
        expr: usize,
        negated: bool,
        low: usize,
        high: usize,
    },
    InList {
        expr: usize,
        list: Vec<usize>,
        negated: bool,
    },
    /// A CASE: the conditions and the results are in two lists.
    Case {
        operand: Option<usize>,
        conditions: Vec<usize>,
        results: Vec<usize>,
        else_result: Option<usize>,
    },
    Substring {
        expr: usize,
        from: Option<usize>,
        count: Option<usize>,
    },
    /// A call, with its text.
    Function {
        name: String,
        text: String,
        args: FunctionArguments,
    },
    MatchAgainst {
        columns: Vec<String>,
        value: SqlValue,
    },
    /// Any other expression, by its text and the names and literals in it.
    Other {
        text: String,
        operands: Vec<usize>,
    },
}

/// The model of `SqlNode`.
#[allow(inconsistent_fields)]
pub enum SqlNodeV {
    Identifier { value: Seq<char>, quote: Option<char> },
    CompoundIdentifier(Seq<Seq<char>>),
    Value(SqlValueV),
    Like { negated: bool, expr: usize, pattern: usize },
    BinaryOp { left: usize, op: SqlBinaryOperatorV, right: usize },
    Nested(usize),
    UnaryOp { op: SqlUnaryOperatorV, expr: usize },
    IsNull(usize),
    IsNotNull(usize),
    Between { expr: usize, negated: bool, low: usize, high: usize },
    InList { expr: usize, list: Seq<usize>, negated: bool },
    Case { operand: Option<usize>, conditions: Seq<usize>, results: Seq<usize>, else_result: Option<usize> },
    Substring { expr: usize, from: Option<usize>, count: Option<usize> },
    Function { name: Seq<char>, text: Seq<char>, args: FunctionArgumentsV },
    MatchAgainst { columns: Seq<Seq<char>>, value: SqlValueV },
    Other { text: Seq<char>, operands: Seq<usize> },
}

impl SqlNode {
    /// The model.
    pub open spec fn view(&self) -> SqlNodeV {
        match self {
            SqlNode::Identifier { value, quote } => SqlNodeV::Identifier {
                value: value@,
                quote: *quote,
            },
            SqlNode::CompoundIdentifier(x) => SqlNodeV::CompoundIdentifier(text::views(x@)),
            SqlNode::Value(x) => SqlNodeV::Value(x.view()),
            SqlNode::Like { negated, expr, pattern } => SqlNodeV::Like {
                negated: *negated,
                expr: *expr,
                pattern: *pattern,
            },
            SqlNode::BinaryOp { left, op, right } => SqlNodeV::BinaryOp {
                left: *left,
                op: op.view(),
                right: *right,
            },
            SqlNode::Nested(x) => SqlNodeV::Nested(*x),
            SqlNode::UnaryOp { op, expr } => SqlNodeV::UnaryOp {
                op: op.view(),
                expr: *expr,
            },
            SqlNode::IsNull(x) => SqlNodeV::IsNull(*x),
            SqlNode::IsNotNull(x) => SqlNodeV::IsNotNull(*x),
            SqlNode::Between { expr, negated, low, high } => SqlNodeV::Between {
                expr: *expr,
                negated: *negated,
                low: *low,
                high: *high,
            },
            SqlNode::InList { expr, list, negated } => SqlNodeV::InList {
                expr: *expr,
                list: list@,
                negated: *negated,
            },
            SqlNode::Case { operand, conditions, results, else_result } => SqlNodeV::Case {
                operand: *operand,
                conditions: conditions@,
                results: results@,
                else_result: *else_result,
            },
            SqlNode::Substring { expr, from, count } => SqlNodeV::Substring {
                expr: *expr,
                from: *from,
                count: *count,
            },
            SqlNode::Function { name, text, args } => SqlNodeV::Function {
                name: name@,
                text: text@,
                args: args.view(),
            },
            SqlNode::MatchAgainst { columns, value } => SqlNodeV::MatchAgainst {
                columns: text::views(columns@),
                value: value.view(),
            },
            SqlNode::Other { text, operands } => SqlNodeV::Other { text: text@, operands: operands@ },
        }
    }
}

/// An item of a SELECT list.
#[allow(inconsistent_fields)]
#[derive(Debug, PartialEq)]
pub enum SelectItem {
    /// An expression, with its text.
    Unnamed {
        expr: usize,
        text: String,
    },
    Aliased {
        expr: usize,
        alias: String,
    },
    Wildcard,
    /// Any other item, by its text.
    Other(String),
}

/// The model of `SelectItem`.
#[allow(inconsistent_fields)]
pub enum SelectItemV {
    Unnamed { expr: usize, text: Seq<char> },
    Aliased { expr: usize, alias: Seq<char> },
    Wildcard,
    Other(Seq<char>),
}

impl SelectItem {
    /// The model.
    pub open spec fn view(&self) -> SelectItemV {
        match self {
            SelectItem::Unnamed { expr, text } => SelectItemV::Unnamed {
                expr: *expr,
                text: text@,
            },
            SelectItem::Aliased { expr, alias } => SelectItemV::Aliased {
                expr: *expr,
                alias: alias@,
            },
            SelectItem::Wildcard => SelectItemV::Wildcard,
            SelectItem::Other(x) => SelectItemV::Other(x@),
        }
    }
}

/// A source of rows in a FROM clause.
#[allow(inconsistent_fields)]
#[derive(Debug, PartialEq)]
pub enum TableFactor {
    Table {
        name: String,
        alias: Option<String>,
    },
    /// Any other source, by its text.
    Other(String),
}

/// The model of `TableFactor`.
#[allow(inconsistent_fields)]
pub enum TableFactorV {
    Table { name: Seq<char>, alias: Option<Seq<char>> },
    Other(Seq<char>),
}

impl TableFactor {
    /// The model.
    pub open spec fn view(&self) -> TableFactorV {
        match self {
            TableFactor::Table { name, alias } => TableFactorV::Table {
                name: name@,
                alias: schema::opt_text(*alias),
            },
            TableFactor::Other(x) => TableFactorV::Other(x@),
        }
    }
}

/// The condition of a join.
#[derive(Clone, Copy, Debug, PartialEq, Eq, Structural)]
pub enum JoinConstraint {
    On(usize),
    Absent,
    Other,
}

/// The kinds of joins.
#[derive(Clone, Copy, Debug, PartialEq, Eq, Structural)]
pub enum JoinKind {
    Inner,
    Join,
    Left,
    LeftOuter,
    CrossJoin,
    Other,
}

/// A joined table. The condition of ON is a node.
#[derive(Debug, PartialEq)]
pub struct Join {
    pub relation: TableFactor,
    pub kind: JoinKind,
    pub constraint: JoinConstraint,
    pub text: String,
}

/// The model of `Join`.
pub struct JoinV {
    pub relation: TableFactorV,
    pub kind: JoinKind,
    pub constraint: JoinConstraint,
    pub text: Seq<char>,
}

impl Join {
    /// The model.
    pub open spec fn view(&self) -> JoinV {
        JoinV {
            relation: self.relation.view(),
            kind: self.kind,
            constraint: self.constraint,
            text: self.text@,
        }
    }
}

/// A table with the tables joined to it.
#[derive(Debug, PartialEq)]
pub struct TableWithJoins {
    pub relation: TableFactor,
    pub joins: Vec<Join>,
}

/// The model of `TableWithJoins`.
pub struct TableWithJoinsV {
    pub relation: TableFactorV,
    pub joins: Seq<JoinV>,
}

impl TableWithJoins {
    /// The model.
    pub open spec fn view(&self) -> TableWithJoinsV {
        TableWithJoinsV {
            relation: self.relation.view(),
            joins: joins_view(self.joins@),
        }
    }
}

/// A GROUP BY clause.
#[allow(inconsistent_fields)]
#[derive(Debug, PartialEq)]
pub enum GroupBy {
    Expressions {
        exprs: Vec<usize>,
        /// Whether the clause has modifiers.
        modified: bool,
    },
    All,
}

/// The model of `GroupBy`.
#[allow(inconsistent_fields)]
pub enum GroupByV {
    Expressions { exprs: Seq<usize>, modified: bool },
    All,
}

impl GroupBy {
    /// The model.
    pub open spec fn view(&self) -> GroupByV {
        match self {
            GroupBy::Expressions { exprs, modified } => GroupByV::Expressions {
                exprs: exprs@,
                modified: *modified,
            },
            GroupBy::All => GroupByV::All,
        }
    }
}

/// A SELECT.
#[derive(Debug, PartialEq)]
pub struct Select {
    pub distinct: bool,
    pub projection: Vec<SelectItem>,
    pub from: Vec<TableWithJoins>,
    pub selection: Option<usize>,
    pub group_by: GroupBy,
    pub having: Option<usize>,
}

/// The model of `Select`.
pub struct SelectV {
    pub distinct: bool,
    pub projection: Seq<SelectItemV>,
    pub from: Seq<TableWithJoinsV>,
    pub selection: Option<usize>,
    pub group_by: GroupByV,
    pub having: Option<usize>,
}

impl Select {
    /// The model.
    pub open spec fn view(&self) -> SelectV {
        SelectV {
            distinct: self.distinct,
            projection: select_items_view(self.projection@),
            from: table_with_joins_view(self.from@),
            selection: self.selection,
            group_by: self.group_by.view(),
            having: self.having,
        }
    }
}

/// The set operators.
#[derive(Clone, Copy, Debug, PartialEq, Eq, Structural)]
pub enum SetOperator {
    Union,
    Except,
    Intersect,
    Minus,
}

/// A node to sort by; ascending unless it says otherwise.
#[derive(Debug, PartialEq)]
pub struct OrderItem {
    pub expr: usize,
    pub asc: Option<bool>,
}

/// The model of `OrderItem`.
pub struct OrderItemV {
    pub expr: usize,
    pub asc: Option<bool>,
}

impl OrderItem {
    /// The model.
    pub open spec fn view(&self) -> OrderItemV {
        OrderItemV {
            expr: self.expr,
            asc: self.asc,
        }
    }
}

/// An ORDER BY clause.
#[allow(inconsistent_fields)]
#[derive(Debug, PartialEq)]
pub enum OrderBy {
    Expressions(Vec<OrderItem>),
    All,
}

/// The model of `OrderBy`.
#[allow(inconsistent_fields)]
pub enum OrderByV {
    Expressions(Seq<OrderItemV>),
    All,
}

impl OrderBy {
    /// The model.
    pub open spec fn view(&self) -> OrderByV {
        match self {
            OrderBy::Expressions(x) => OrderByV::Expressions(order_items_view(x@)),
            OrderBy::All => OrderByV::All,
        }
    }
}

/// A LIMIT clause.
#[allow(inconsistent_fields)]
#[derive(Debug, PartialEq)]
pub enum LimitClause {
    Absent,
    LimitOffset {
        limit: Option<usize>,
        offset: Option<usize>,
    },
}

/// The model of `LimitClause`.
#[allow(inconsistent_fields)]
pub enum LimitClauseV {
    Absent,
    LimitOffset { limit: Option<usize>, offset: Option<usize> },
}

impl LimitClause {
    /// The model.
    pub open spec fn view(&self) -> LimitClauseV {
        match self {
            LimitClause::Absent => LimitClauseV::Absent,
            LimitClause::LimitOffset { limit, offset } => LimitClauseV::LimitOffset {
                limit: *limit,
                offset: *offset,
            },
        }
    }
}

/// A query. Its body is a set node, by its position.
#[derive(Debug, PartialEq)]
pub struct Query {
    pub body: usize,
    pub order_by: OrderBy,
    pub limit: LimitClause,
}

/// The model of `Query`.
pub struct QueryV {
    pub body: usize,
    pub order_by: OrderByV,
    pub limit: LimitClauseV,
}

impl Query {
    /// The model.
    pub open spec fn view(&self) -> QueryV {
        QueryV {
            body: self.body,
            order_by: self.order_by.view(),
            limit: self.limit.view(),
        }
    }
}

/// A row of a VALUES list.
#[derive(Debug, PartialEq)]
pub struct ValuesRow {
    pub exprs: Vec<usize>,
}

/// The model of `ValuesRow`.
pub struct ValuesRowV {
    pub exprs: Seq<usize>,
}

impl ValuesRow {
    /// The model.
    pub open spec fn view(&self) -> ValuesRowV {
        ValuesRowV {
            exprs: self.exprs@,
        }
    }
}

/// The body of a query. The parts of it are other set nodes, by their positions.
#[allow(inconsistent_fields)]
#[derive(Debug, PartialEq)]
pub enum SetNode {
    Select(Select),
    Query(Query),
    SetOperation {
        op: SetOperator,
        all: bool,
        left: usize,
        right: usize,
    },
    Values(Vec<ValuesRow>),
    /// Any other body, by its text.
    Other(String),
}

/// The model of `SetNode`.
#[allow(inconsistent_fields)]
pub enum SetNodeV {
    Select(SelectV),
    Query(QueryV),
    SetOperation { op: SetOperator, all: bool, left: usize, right: usize },
    Values(Seq<ValuesRowV>),
    Other(Seq<char>),
}

impl SetNode {
    /// The model.
    pub open spec fn view(&self) -> SetNodeV {
        match self {
            SetNode::Select(x) => SetNodeV::Select(x.view()),
            SetNode::Query(x) => SetNodeV::Query(x.view()),
            SetNode::SetOperation { op, all, left, right } => SetNodeV::SetOperation {
                op: *op,
                all: *all,
                left: *left,
                right: *right,
            },
            SetNode::Values(x) => SetNodeV::Values(values_rows_view(x@)),
            SetNode::Other(x) => SetNodeV::Other(x@),
        }
    }
}

/// A column type of SQL.
#[allow(inconsistent_fields)]
#[derive(Debug, PartialEq)]
pub enum SqlDataType {
    Integer,
    Int,
    BigInt,
    Float,
    Double,
    Real,
    Boolean,
    Bool,
    Text,
    Varchar,
    Char,
    Str,
    Bytea,
    Blob,
    /// A type by its name.
    Custom(String),
    /// Any other type, by its text.
    Other(String),
}

/// The model of `SqlDataType`.
#[allow(inconsistent_fields)]
pub enum SqlDataTypeV {
    Integer,
    Int,
    BigInt,
    Float,
    Double,
    Real,
    Boolean,
    Bool,
    Text,
    Varchar,
    Char,
    Str,
    Bytea,
    Blob,
    Custom(Seq<char>),
    Other(Seq<char>),
}

impl SqlDataType {
    /// The model.
    pub open spec fn view(&self) -> SqlDataTypeV {
        match self {
            SqlDataType::Integer => SqlDataTypeV::Integer,
            SqlDataType::Int => SqlDataTypeV::Int,
            SqlDataType::BigInt => SqlDataTypeV::BigInt,
            SqlDataType::Float => SqlDataTypeV::Float,
            SqlDataType::Double => SqlDataTypeV::Double,
            SqlDataType::Real => SqlDataTypeV::Real,
            SqlDataType::Boolean => SqlDataTypeV::Boolean,
            SqlDataType::Bool => SqlDataTypeV::Bool,
            SqlDataType::Text => SqlDataTypeV::Text,
            SqlDataType::Varchar => SqlDataTypeV::Varchar,
            SqlDataType::Char => SqlDataTypeV::Char,
            SqlDataType::Str => SqlDataTypeV::Str,
            SqlDataType::Bytea => SqlDataTypeV::Bytea,
            SqlDataType::Blob => SqlDataTypeV::Blob,
            SqlDataType::Custom(x) => SqlDataTypeV::Custom(x@),
            SqlDataType::Other(x) => SqlDataTypeV::Other(x@),
        }
    }
}

/// A token of a column option of a dialect.
#[allow(inconsistent_fields)]
#[derive(Debug, PartialEq)]
pub enum OptionToken {
    Word(String),
    Other,
}

/// The model of `OptionToken`.
#[allow(inconsistent_fields)]
pub enum OptionTokenV {
    Word(Seq<char>),
    Other,
}

impl OptionToken {
    /// The model.
    pub open spec fn view(&self) -> OptionTokenV {
        match self {
            OptionToken::Word(x) => OptionTokenV::Word(x@),
            OptionToken::Other => OptionTokenV::Other,
        }
    }
}

/// An option of a column.
#[allow(inconsistent_fields)]
#[derive(Debug, PartialEq)]
pub enum ColumnOption {
    PrimaryKey,
    NotNull,
    Default(usize),
    DialectSpecific(Vec<OptionToken>),
    Other,
}

/// The model of `ColumnOption`.
#[allow(inconsistent_fields)]
pub enum ColumnOptionV {
    PrimaryKey,
    NotNull,
    Default(usize),
    DialectSpecific(Seq<OptionTokenV>),
    Other,
}

impl ColumnOption {
    /// The model.
    pub open spec fn view(&self) -> ColumnOptionV {
        match self {
            ColumnOption::PrimaryKey => ColumnOptionV::PrimaryKey,
            ColumnOption::NotNull => ColumnOptionV::NotNull,
            ColumnOption::Default(x) => ColumnOptionV::Default(*x),
            ColumnOption::DialectSpecific(x) => ColumnOptionV::DialectSpecific(option_tokens_view(x@)),
            ColumnOption::Other => ColumnOptionV::Other,
        }
    }
}

/// A column definition.
#[derive(Debug, PartialEq)]
pub struct ColumnDef {
    pub name: String,
    pub data_type: SqlDataType,
    pub options: Vec<ColumnOption>,
}

/// The model of `ColumnDef`.
pub struct ColumnDefV {
    pub name: Seq<char>,
    pub data_type: SqlDataTypeV,
    pub options: Seq<ColumnOptionV>,
}

impl ColumnDef {
    /// The model.
    pub open spec fn view(&self) -> ColumnDefV {
        ColumnDefV {
            name: self.name@,
            data_type: self.data_type.view(),
            options: column_options_view(self.options@),
        }
    }
}

/// A constraint of a table.
#[allow(inconsistent_fields)]
#[derive(Debug, PartialEq)]
pub enum TableConstraint {
    /// The nodes of a primary key.
    PrimaryKey(Vec<usize>),
    Other,
}

/// The model of `TableConstraint`.
#[allow(inconsistent_fields)]
pub enum TableConstraintV {
    PrimaryKey(Seq<usize>),
    Other,
}

impl TableConstraint {
    /// The model.
    pub open spec fn view(&self) -> TableConstraintV {
        match self {
            TableConstraint::PrimaryKey(x) => TableConstraintV::PrimaryKey(x@),
            TableConstraint::Other => TableConstraintV::Other,
        }
    }
}

/// An option of a table.
#[allow(inconsistent_fields)]
#[derive(Debug, PartialEq)]
pub enum TableOption {
    KeyValue {
        key: String,
        value: usize,
    },
    Other,
}

/// The model of `TableOption`.
#[allow(inconsistent_fields)]
pub enum TableOptionV {
    KeyValue { key: Seq<char>, value: usize },
    Other,
}

impl TableOption {
    /// The model.
    pub open spec fn view(&self) -> TableOptionV {
        match self {
            TableOption::KeyValue { key, value } => TableOptionV::KeyValue {
                key: key@,
                value: *value,
            },
            TableOption::Other => TableOptionV::Other,
        }
    }
}

/// A part of a name.
#[allow(inconsistent_fields)]
#[derive(Debug, PartialEq)]
pub enum NamePart {
    Ident(String),
    Other,
}

/// The model of `NamePart`.
#[allow(inconsistent_fields)]
pub enum NamePartV {
    Ident(Seq<char>),
    Other,
}

impl NamePart {
    /// The model.
    pub open spec fn view(&self) -> NamePartV {
        match self {
            NamePart::Ident(x) => NamePartV::Ident(x@),
            NamePart::Other => NamePartV::Other,
        }
    }
}

/// A name, by its parts and its text.
#[derive(Debug, PartialEq)]
pub struct ObjectName {
    pub parts: Vec<NamePart>,
    pub text: String,
}

/// The model of `ObjectName`.
pub struct ObjectNameV {
    pub parts: Seq<NamePartV>,
    pub text: Seq<char>,
}

impl ObjectName {
    /// The model.
    pub open spec fn view(&self) -> ObjectNameV {
        ObjectNameV {
            parts: name_parts_view(self.parts@),
            text: self.text@,
        }
    }
}

/// An operation of ALTER TABLE.
#[allow(inconsistent_fields)]
#[derive(Debug, PartialEq)]
pub enum AlterOperation {
    AddColumn(ColumnDef),
    RenameColumn {
        old_name: String,
        new_name: String,
    },
    /// Any other operation, by its text.
    Other(String),
}

/// The model of `AlterOperation`.
#[allow(inconsistent_fields)]
pub enum AlterOperationV {
    AddColumn(ColumnDefV),
    RenameColumn { old_name: Seq<char>, new_name: Seq<char> },
    Other(Seq<char>),
}

impl AlterOperation {
    /// The model.
    pub open spec fn view(&self) -> AlterOperationV {
        match self {
            AlterOperation::AddColumn(x) => AlterOperationV::AddColumn(x.view()),
            AlterOperation::RenameColumn { old_name, new_name } => AlterOperationV::RenameColumn {
                old_name: old_name@,
                new_name: new_name@,
            },
            AlterOperation::Other(x) => AlterOperationV::Other(x@),
        }
    }
}

/// What an assignment assigns to.
#[allow(inconsistent_fields)]
#[derive(Debug, PartialEq)]
pub enum AssignmentTarget {
    Column(ObjectName),
    Tuple,
}

/// The model of `AssignmentTarget`.
#[allow(inconsistent_fields)]
pub enum AssignmentTargetV {
    Column(ObjectNameV),
    Tuple,
}

impl AssignmentTarget {
    /// The model.
    pub open spec fn view(&self) -> AssignmentTargetV {
        match self {
            AssignmentTarget::Column(x) => AssignmentTargetV::Column(x.view()),
            AssignmentTarget::Tuple => AssignmentTargetV::Tuple,
        }
    }
}

/// An assignment of an UPDATE.
#[derive(Debug, PartialEq)]
pub struct Assignment {
    pub target: AssignmentTarget,
    pub value: usize,
}

/// The model of `Assignment`.
pub struct AssignmentV {
    pub target: AssignmentTargetV,
    pub value: usize,
}

impl Assignment {
    /// The model.
    pub open spec fn view(&self) -> AssignmentV {
        AssignmentV {
            target: self.target.view(),
            value: self.value,
        }
    }
}

/// The table of an INSERT.
#[allow(inconsistent_fields)]
#[derive(Debug, PartialEq)]
pub enum InsertTable {
    Name(String),
    /// Any other target, by its text.
    Other(String),
}

/// The model of `InsertTable`.
#[allow(inconsistent_fields)]
pub enum InsertTableV {
    Name(Seq<char>),
    Other(Seq<char>),
}

impl InsertTable {
    /// The model.
    pub open spec fn view(&self) -> InsertTableV {
        match self {
            InsertTable::Name(x) => InsertTableV::Name(x@),
            InsertTable::Other(x) => InsertTableV::Other(x@),
        }
    }
}

/// What a DROP drops.
#[derive(Clone, Copy, Debug, PartialEq, Eq, Structural)]
pub enum DropKind {
    Table,
    Index,
    Other,
}

/// What a statement says.
#[allow(inconsistent_fields)]
#[derive(Debug, PartialEq)]
pub enum StatementBody {
    CreateTable {
        name: String,
        columns: Vec<ColumnDef>,
        constraints: Vec<TableConstraint>,
        options: Vec<TableOption>,
    },
    Drop {
        kind: DropKind,
        names: Vec<String>,
    },
    CreateIndex {
        name: Option<String>,
        table_name: String,
        columns: Vec<usize>,
        using: Option<String>,
    },
    AlterTable {
        name: String,
        operations: Vec<AlterOperation>,
    },
    Insert {
        table: InsertTable,
        columns: Vec<ObjectName>,
        source: Option<Query>,
    },
    Delete {
        from: Vec<TableFactor>,
        selection: Option<usize>,
    },
    Update {
        table: TableFactor,
        assignments: Vec<Assignment>,
        selection: Option<usize>,
    },
    Query(Query),
    Analyze {
        table_name: Option<String>,
    },
    /// Any other statement, by its text.
    Other(String),
}

/// The model of `StatementBody`.
#[allow(inconsistent_fields)]
pub enum StatementBodyV {
    CreateTable { name: Seq<char>, columns: Seq<ColumnDefV>, constraints: Seq<TableConstraintV>, options: Seq<TableOptionV> },
    Drop { kind: DropKind, names: Seq<Seq<char>> },
    CreateIndex { name: Option<Seq<char>>, table_name: Seq<char>, columns: Seq<usize>, using: Option<Seq<char>> },
    AlterTable { name: Seq<char>, operations: Seq<AlterOperationV> },
    Insert { table: InsertTableV, columns: Seq<ObjectNameV>, source: Option<QueryV> },
    Delete { from: Seq<TableFactorV>, selection: Option<usize> },
    Update { table: TableFactorV, assignments: Seq<AssignmentV>, selection: Option<usize> },
    Query(QueryV),
    Analyze { table_name: Option<Seq<char>> },
    Other(Seq<char>),
}

impl StatementBody {
    /// The model.
    pub open spec fn view(&self) -> StatementBodyV {
        match self {
            StatementBody::CreateTable { name, columns, constraints, options } => StatementBodyV::CreateTable {
                name: name@,
                columns: column_defs_view(columns@),
                constraints: table_constraints_view(constraints@),
                options: table_options_view(options@),
            },
            StatementBody::Drop { kind, names } => StatementBodyV::Drop {
                kind: *kind,
                names: text::views(names@),
            },
            StatementBody::CreateIndex { name, table_name, columns, using } => StatementBodyV::CreateIndex {
                name: schema::opt_text(*name),
                table_name: table_name@,
                columns: columns@,
                using: schema::opt_text(*using),
            },
            StatementBody::AlterTable { name, operations } => StatementBodyV::AlterTable {
                name: name@,
                operations: alter_operations_view(operations@),
            },
            StatementBody::Insert { table, columns, source } => StatementBodyV::Insert {
                table: table.view(),
                columns: object_names_view(columns@),
                source: maybe_query_view(*source),
            },
            StatementBody::Delete { from, selection } => StatementBodyV::Delete {
                from: table_factors_view(from@),
                selection: *selection,
            },
            StatementBody::Update { table, assignments, selection } => StatementBodyV::Update {
                table: table.view(),
                assignments: assignments_view(assignments@),
                selection: *selection,
            },
            StatementBody::Query(x) => StatementBodyV::Query(x.view()),
            StatementBody::Analyze { table_name } => StatementBodyV::Analyze {
                table_name: schema::opt_text(*table_name),
            },
            StatementBody::Other(x) => StatementBodyV::Other(x@),
        }
    }
}

/// A statement, with the nodes it refers to. A node refers only to nodes before it.
#[derive(Debug, PartialEq)]
pub struct Statement {
    pub body: StatementBody,
    /// How often EXPLAIN stands before it.
    pub explained: usize,
    pub exprs: Vec<SqlNode>,
    pub sets: Vec<SetNode>,
}

/// The model of `Statement`.
pub struct StatementV {
    pub body: StatementBodyV,
    pub explained: usize,
    pub exprs: Seq<SqlNodeV>,
    pub sets: Seq<SetNodeV>,
}

impl Statement {
    /// The model.
    pub open spec fn view(&self) -> StatementV {
        StatementV {
            body: self.body.view(),
            explained: self.explained,
            exprs: sql_nodes_view(self.exprs@),
            sets: set_nodes_view(self.sets@),
        }
    }
}

/// The models of a sequence of `AlterOperation`.
pub open spec fn alter_operations_view(s: Seq<AlterOperation>) -> Seq<AlterOperationV> {
    s.map_values(|x: AlterOperation| x@)
}

/// The models of a sequence of `Assignment`.
pub open spec fn assignments_view(s: Seq<Assignment>) -> Seq<AssignmentV> {
    s.map_values(|x: Assignment| x@)
}

/// The models of a sequence of `ColumnDef`.
pub open spec fn column_defs_view(s: Seq<ColumnDef>) -> Seq<ColumnDefV> {
    s.map_values(|x: ColumnDef| x@)
}

/// The models of a sequence of `ColumnOption`.
pub open spec fn column_options_view(s: Seq<ColumnOption>) -> Seq<ColumnOptionV> {
    s.map_values(|x: ColumnOption| x@)
}

/// The models of a sequence of `FunctionArgument`.
pub open spec fn function_arguments_view(s: Seq<FunctionArgument>) -> Seq<FunctionArgumentV> {
    s.map_values(|x: FunctionArgument| x@)
}

/// The models of a sequence of `Join`.
pub open spec fn joins_view(s: Seq<Join>) -> Seq<JoinV> {
    s.map_values(|x: Join| x@)
}

/// The models of a sequence of `NamePart`.
pub open spec fn name_parts_view(s: Seq<NamePart>) -> Seq<NamePartV> {
    s.map_values(|x: NamePart| x@)
}

/// The models of a sequence of `ObjectName`.
pub open spec fn object_names_view(s: Seq<ObjectName>) -> Seq<ObjectNameV> {
    s.map_values(|x: ObjectName| x@)
}

/// The models of a sequence of `OptionToken`.
pub open spec fn option_tokens_view(s: Seq<OptionToken>) -> Seq<OptionTokenV> {
    s.map_values(|x: OptionToken| x@)
}

/// The models of a sequence of `OrderItem`.
pub open spec fn order_items_view(s: Seq<OrderItem>) -> Seq<OrderItemV> {
    s.map_values(|x: OrderItem| x@)
}

/// The models of a sequence of `SelectItem`.
pub open spec fn select_items_view(s: Seq<SelectItem>) -> Seq<SelectItemV> {
    s.map_values(|x: SelectItem| x@)
}

/// The models of a sequence of `SetNode`.
pub open spec fn set_nodes_view(s: Seq<SetNode>) -> Seq<SetNodeV> {
    s.map_values(|x: SetNode| x@)
}

/// The models of a sequence of `SqlNode`.
pub open spec fn sql_nodes_view(s: Seq<SqlNode>) -> Seq<SqlNodeV> {
    s.map_values(|x: SqlNode| x@)
}

/// The models of a sequence of `TableConstraint`.
pub open spec fn table_constraints_view(s: Seq<TableConstraint>) -> Seq<TableConstraintV> {
    s.map_values(|x: TableConstraint| x@)
}

/// The models of a sequence of `TableFactor`.
pub open spec fn table_factors_view(s: Seq<TableFactor>) -> Seq<TableFactorV> {
    s.map_values(|x: TableFactor| x@)
}

/// The models of a sequence of `TableOption`.
pub open spec fn table_options_view(s: Seq<TableOption>) -> Seq<TableOptionV> {
    s.map_values(|x: TableOption| x@)
}

/// The models of a sequence of `TableWithJoins`.
pub open spec fn table_with_joins_view(s: Seq<TableWithJoins>) -> Seq<TableWithJoinsV> {
    s.map_values(|x: TableWithJoins| x@)
}

/// The models of a sequence of `ValuesRow`.
pub open spec fn values_rows_view(s: Seq<ValuesRow>) -> Seq<ValuesRowV> {
    s.map_values(|x: ValuesRow| x@)
}

/// The model of an optional `Query`.
pub open spec fn maybe_query_view(o: Option<Query>) -> Option<QueryV> {
    match o {
        Some(x) => Some(x.view()),
        None => None,
    }
}

/// A copy of a list of positions.
pub fn copy_ids(s: &Vec<usize>) -> (out: Vec<usize>)
    ensures
        out@ == s@,
{
    let mut out: Vec<usize> = Vec::new();
    for i in 0..s.len()
        invariant
            out@ == s@.take(i as int),
    {
        out.push(s[i]);
        assert(out@ =~= s@.take(i + 1));
    }
    assert(out@ =~= s@);
    out
}

impl SqlValue {
    /// A copy.
    pub fn copy(&self) -> (out: SqlValue)
        ensures
            out@ == self@,
    {
        match self {
            SqlValue::Number(x) => SqlValue::Number(x.clone()),
            SqlValue::SingleQuotedString(x) => SqlValue::SingleQuotedString(x.clone()),
            SqlValue::Boolean(x) => SqlValue::Boolean(*x),
            SqlValue::Null => SqlValue::Null,
            SqlValue::Placeholder(x) => SqlValue::Placeholder(x.clone()),
            SqlValue::HexStringLiteral(x) => SqlValue::HexStringLiteral(x.clone()),
            SqlValue::Other(x) => SqlValue::Other(x.clone()),
        }
    }
}

impl SqlBinaryOperator {
    /// A copy.
    pub fn copy(&self) -> (out: SqlBinaryOperator)
        ensures
            out@ == self@,
    {
        match self {
            SqlBinaryOperator::Eq => SqlBinaryOperator::Eq,
            SqlBinaryOperator::Gt => SqlBinaryOperator::Gt,
            SqlBinaryOperator::Lt => SqlBinaryOperator::Lt,
            SqlBinaryOperator::GtEq => SqlBinaryOperator::GtEq,
            SqlBinaryOperator::LtEq => SqlBinaryOperator::LtEq,
            SqlBinaryOperator::NotEq => SqlBinaryOperator::NotEq,
            SqlBinaryOperator::And => SqlBinaryOperator::And,
            SqlBinaryOperator::Or => SqlBinaryOperator::Or,
            SqlBinaryOperator::Plus => SqlBinaryOperator::Plus,
            SqlBinaryOperator::Minus => SqlBinaryOperator::Minus,
            SqlBinaryOperator::Multiply => SqlBinaryOperator::Multiply,
            SqlBinaryOperator::Divide => SqlBinaryOperator::Divide,
            SqlBinaryOperator::Other(x) => SqlBinaryOperator::Other(x.clone()),
        }
    }
}

impl SqlUnaryOperator {
    /// A copy.
    pub fn copy(&self) -> (out: SqlUnaryOperator)
        ensures
            out@ == self@,
    {
        match self {
            SqlUnaryOperator::Minus => SqlUnaryOperator::Minus,
            SqlUnaryOperator::Plus => SqlUnaryOperator::Plus,
            SqlUnaryOperator::Not => SqlUnaryOperator::Not,
            SqlUnaryOperator::Other(x) => SqlUnaryOperator::Other(x.clone()),
        }
    }
}

impl FunctionArgument {
    /// A copy.
    pub fn copy(&self) -> (out: FunctionArgument)
        ensures
            out@ == self@,
    {
        match self {
            FunctionArgument::Unnamed(x) => FunctionArgument::Unnamed(*x),
            FunctionArgument::Named(x) => FunctionArgument::Named(*x),
            FunctionArgument::Wildcard => FunctionArgument::Wildcard,
            FunctionArgument::Other(x) => FunctionArgument::Other(x.clone()),
        }
    }
}

impl FunctionArguments {
    /// A copy.
    pub fn copy(&self) -> (out: FunctionArguments)
        ensures
            out@ == self@,
    {
        match self {
            FunctionArguments::Absent => FunctionArguments::Absent,
            FunctionArguments::List { args, distinct } => FunctionArguments::List {
                args: copy_function_arguments(args),
                distinct: *distinct,
            },
            FunctionArguments::Other(x) => FunctionArguments::Other(x.clone()),
        }
    }
}

impl SqlNode {
    /// A copy.
    pub fn copy(&self) -> (out: SqlNode)
        ensures
            out@ == self@,
    {
        match self {
            SqlNode::Identifier { value, quote } => SqlNode::Identifier {
                value: value.clone(),
                quote: *quote,
            },
            SqlNode::CompoundIdentifier(x) => SqlNode::CompoundIdentifier(text::copy_strings(x)),
            SqlNode::Value(x) => SqlNode::Value(x.copy()),
            SqlNode::Like { negated, expr, pattern } => SqlNode::Like {
                negated: *negated,
                expr: *expr,
                pattern: *pattern,
            },
            SqlNode::BinaryOp { left, op, right } => SqlNode::BinaryOp {
                left: *left,
                op: op.copy(),
                right: *right,
            },
            SqlNode::Nested(x) => SqlNode::Nested(*x),
            SqlNode::UnaryOp { op, expr } => SqlNode::UnaryOp {
                op: op.copy(),
                expr: *expr,
            },
            SqlNode::IsNull(x) => SqlNode::IsNull(*x),
            SqlNode::IsNotNull(x) => SqlNode::IsNotNull(*x),
            SqlNode::Between { expr, negated, low, high } => SqlNode::Between {
                expr: *expr,
                negated: *negated,
                low: *low,
                high: *high,
            },
            SqlNode::InList { expr, list, negated } => SqlNode::InList {
                expr: *expr,
                list: copy_ids(list),
                negated: *negated,
            },
            SqlNode::Case { operand, conditions, results, else_result } => SqlNode::Case {
                operand: *operand,
                conditions: copy_ids(conditions),
                results: copy_ids(results),
                else_result: *else_result,
            },
            SqlNode::Substring { expr, from, count } => SqlNode::Substring {
                expr: *expr,
                from: *from,
                count: *count,
            },
            SqlNode::Function { name, text, args } => SqlNode::Function {
                name: name.clone(),
                text: text.clone(),
                args: args.copy(),
            },
            SqlNode::MatchAgainst { columns, value } => SqlNode::MatchAgainst {
                columns: text::copy_strings(columns),
                value: value.copy(),
            },
            SqlNode::Other { text, operands } => SqlNode::Other {
                text: text.clone(),
                operands: copy_ids(operands),
            },
        }
    }
}

impl SelectItem {
    /// A copy.
    pub fn copy(&self) -> (out: SelectItem)
        ensures
            out@ == self@,
    {
        match self {
            SelectItem::Unnamed { expr, text } => SelectItem::Unnamed {
                expr: *expr,
                text: text.clone(),
            },
            SelectItem::Aliased { expr, alias } => SelectItem::Aliased {
                expr: *expr,
                alias: alias.clone(),
            },
            SelectItem::Wildcard => SelectItem::Wildcard,
            SelectItem::Other(x) => SelectItem::Other(x.clone()),
        }
    }
}

impl TableFactor {
    /// A copy.
    pub fn copy(&self) -> (out: TableFactor)
        ensures
            out@ == self@,
    {
        match self {
            TableFactor::Table { name, alias } => TableFactor::Table {
                name: name.clone(),
                alias: schema::copy_opt_text(alias),
            },
            TableFactor::Other(x) => TableFactor::Other(x.clone()),
        }
    }
}

impl Join {
    /// A copy.
    pub fn copy(&self) -> (out: Join)
        ensures
            out@ == self@,
    {
        Join {
            relation: self.relation.copy(),
            kind: self.kind,
            constraint: self.constraint,
            text: self.text.clone(),
        }
    }
}

impl TableWithJoins {
    /// A copy.
    pub fn copy(&self) -> (out: TableWithJoins)
        ensures
            out@ == self@,
    {
        TableWithJoins {
            relation: self.relation.copy(),
            joins: copy_joins(&self.joins),
        }
    }
}

impl GroupBy {
    /// A copy.
    pub fn copy(&self) -> (out: GroupBy)
        ensures
            out@ == self@,
    {
        match self {
            GroupBy::Expressions { exprs, modified } => GroupBy::Expressions {
                exprs: copy_ids(exprs),
                modified: *modified,
            },
            GroupBy::All => GroupBy::All,
        }
    }
}

impl Select {
    /// A copy.
    pub fn copy(&self) -> (out: Select)
        ensures
            out@ == self@,
    {
        Select {
            distinct: self.distinct,
            projection: copy_select_items(&self.projection),
            from: copy_table_with_joins(&self.from),
            selection: self.selection,
            group_by: self.group_by.copy(),
            having: self.having,
        }
    }
}

impl OrderItem {
    /// A copy.
    pub fn copy(&self) -> (out: OrderItem)
        ensures
            out@ == self@,
    {
        OrderItem {
            expr: self.expr,
            asc: self.asc,
        }
    }
}

impl OrderBy {
    /// A copy.
    pub fn copy(&self) -> (out: OrderBy)
        ensures
            out@ == self@,
    {
        match self {
            OrderBy::Expressions(x) => OrderBy::Expressions(copy_order_items(x)),
            OrderBy::All => OrderBy::All,
        }
    }
}

impl LimitClause {
    /// A copy.
    pub fn copy(&self) -> (out: LimitClause)
        ensures
            out@ == self@,
    {
        match self {
            LimitClause::Absent => LimitClause::Absent,
            LimitClause::LimitOffset { limit, offset } => LimitClause::LimitOffset {
                limit: *limit,
                offset: *offset,
            },
        }
    }
}

impl Query {
    /// A copy.
    pub fn copy(&self) -> (out: Query)
        ensures
            out@ == self@,
    {
        Query {
            body: self.body,
            order_by: self.order_by.copy(),
            limit: self.limit.copy(),
        }
    }
}

impl ValuesRow {
    /// A copy.
    pub fn copy(&self) -> (out: ValuesRow)
        ensures
            out@ == self@,
    {
        ValuesRow {
            exprs: copy_ids(&self.exprs),
        }
    }
}

impl SetNode {
    /// A copy.
    pub fn copy(&self) -> (out: SetNode)
        ensures
            out@ == self@,
    {
        match self {
            SetNode::Select(x) => SetNode::Select(x.copy()),
            SetNode::Query(x) => SetNode::Query(x.copy()),
            SetNode::SetOperation { op, all, left, right } => SetNode::SetOperation {
                op: *op,
                all: *all,
                left: *left,
                right: *right,
            },
            SetNode::Values(x) => SetNode::Values(copy_values_rows(x)),
            SetNode::Other(x) => SetNode::Other(x.clone()),
        }
    }
}

impl SqlDataType {
    /// A copy.
    pub fn copy(&self) -> (out: SqlDataType)
        ensures
            out@ == self@,
    {
        match self {
            SqlDataType::Integer => SqlDataType::Integer,
            SqlDataType::Int => SqlDataType::Int,
            SqlDataType::BigInt => SqlDataType::BigInt,
            SqlDataType::Float => SqlDataType::Float,
            SqlDataType::Double => SqlDataType::Double,
            SqlDataType::Real => SqlDataType::Real,
            SqlDataType::Boolean => SqlDataType::Boolean,
            SqlDataType::Bool => SqlDataType::Bool,
            SqlDataType::Text => SqlDataType::Text,
            SqlDataType::Varchar => SqlDataType::Varchar,
            SqlDataType::Char => SqlDataType::Char,
            SqlDataType::Str => SqlDataType::Str,
            SqlDataType::Bytea => SqlDataType::Bytea,
            SqlDataType::Blob => SqlDataType::Blob,
            SqlDataType::Custom(x) => SqlDataType::Custom(x.clone()),
            SqlDataType::Other(x) => SqlDataType::Other(x.clone()),
        }
    }
}

impl OptionToken {
    /// A copy.
    pub fn copy(&self) -> (out: OptionToken)
        ensures
            out@ == self@,
    {
        match self {
            OptionToken::Word(x) => OptionToken::Word(x.clone()),
            OptionToken::Other => OptionToken::Other,
        }
    }
}

impl ColumnOption {
    /// A copy.
    pub fn copy(&self) -> (out: ColumnOption)
        ensures
            out@ == self@,
    {
        match self {
            ColumnOption::PrimaryKey => ColumnOption::PrimaryKey,
            ColumnOption::NotNull => ColumnOption::NotNull,
            ColumnOption::Default(x) => ColumnOption::Default(*x),
            ColumnOption::DialectSpecific(x) => ColumnOption::DialectSpecific(copy_option_tokens(x)),
            ColumnOption::Other => ColumnOption::Other,
        }
    }
}

impl ColumnDef {
    /// A copy.
    pub fn copy(&self) -> (out: ColumnDef)
        ensures
            out@ == self@,
    {
        ColumnDef {
            name: self.name.clone(),
            data_type: self.data_type.copy(),
            options: copy_column_options(&self.options),
        }
    }
}

impl TableConstraint {
    /// A copy.
    pub fn copy(&self) -> (out: TableConstraint)
        ensures
            out@ == self@,
    {
        match self {
            TableConstraint::PrimaryKey(x) => TableConstraint::PrimaryKey(copy_ids(x)),
            TableConstraint::Other => TableConstraint::Other,
        }
    }
}

impl TableOption {
    /// A copy.
    pub fn copy(&self) -> (out: TableOption)
        ensures
            out@ == self@,
    {
        match self {
            TableOption::KeyValue { key, value } => TableOption::KeyValue {
                key: key.clone(),
                value: *value,
            },
            TableOption::Other => TableOption::Other,
        }
    }
}

impl NamePart {
    /// A copy.
    pub fn copy(&self) -> (out: NamePart)
        ensures
            out@ == self@,
    {
        match self {
            NamePart::Ident(x) => NamePart::Ident(x.clone()),
            NamePart::Other => NamePart::Other,
        }
    }
}

impl ObjectName {
    /// A copy.
    pub fn copy(&self) -> (out: ObjectName)
        ensures
            out@ == self@,
    {
        ObjectName {
            parts: copy_name_parts(&self.parts),
            text: self.text.clone(),
        }
    }
}

impl AlterOperation {
    /// A copy.
    pub fn copy(&self) -> (out: AlterOperation)
        ensures
            out@ == self@,
    {
        match self {
            AlterOperation::AddColumn(x) => AlterOperation::AddColumn(x.copy()),
            AlterOperation::RenameColumn { old_name, new_name } => AlterOperation::RenameColumn {
                old_name: old_name.clone(),
                new_name: new_name.clone(),
            },
            AlterOperation::Other(x) => AlterOperation::Other(x.clone()),
        }
    }
}

impl AssignmentTarget {
    /// A copy.
    pub fn copy(&self) -> (out: AssignmentTarget)
        ensures
            out@ == self@,
    {
        match self {
            AssignmentTarget::Column(x) => AssignmentTarget::Column(x.copy()),
            AssignmentTarget::Tuple => AssignmentTarget::Tuple,
        }
    }
}

impl Assignment {
    /// A copy.
    pub fn copy(&self) -> (out: Assignment)
        ensures
            out@ == self@,
    {
        Assignment {
            target: self.target.copy(),
            value: self.value,
        }
    }
}

impl InsertTable {
    /// A copy.
    pub fn copy(&self) -> (out: InsertTable)
        ensures
            out@ == self@,
    {
        match self {
            InsertTable::Name(x) => InsertTable::Name(x.clone()),
            InsertTable::Other(x) => InsertTable::Other(x.clone()),
        }
    }
}

impl StatementBody {
    /// A copy.
    pub fn copy(&self) -> (out: StatementBody)
        ensures
            out@ == self@,
    {
        match self {
            StatementBody::CreateTable { name, columns, constraints, options } => StatementBody::CreateTable {
                name: name.clone(),
                columns: copy_column_defs(columns),
                constraints: copy_table_constraints(constraints),
                options: copy_table_options(options),
            },
            StatementBody::Drop { kind, names } => StatementBody::Drop {
                kind: *kind,
                names: text::copy_strings(names),
            },
            StatementBody::CreateIndex { name, table_name, columns, using } => StatementBody::CreateIndex {
                name: schema::copy_opt_text(name),
                table_name: table_name.clone(),
                columns: copy_ids(columns),
                using: schema::copy_opt_text(using),
            },
            StatementBody::AlterTable { name, operations } => StatementBody::AlterTable {
                name: name.clone(),
                operations: copy_alter_operations(operations),
            },
            StatementBody::Insert { table, columns, source } => StatementBody::Insert {
                table: table.copy(),
                columns: copy_object_names(columns),
                source: copy_maybe_query(source),
            },
            StatementBody::Delete { from, selection } => StatementBody::Delete {
                from: copy_table_factors(from),
                selection: *selection,
            },
            StatementBody::Update { table, assignments, selection } => StatementBody::Update {
                table: table.copy(),
                assignments: copy_assignments(assignments),
                selection: *selection,
            },
            StatementBody::Query(x) => StatementBody::Query(x.copy()),
            StatementBody::Analyze { table_name } => StatementBody::Analyze {
                table_name: schema::copy_opt_text(table_name),
            },
            StatementBody::Other(x) => StatementBody::Other(x.clone()),
        }
    }
}

impl Statement {
    /// A copy.
    pub fn copy(&self) -> (out: Statement)
        ensures
            out@ == self@,
    {
        Statement {
            body: self.body.copy(),
            explained: self.explained,
            exprs: copy_sql_nodes(&self.exprs),
            sets: copy_set_nodes(&self.sets),
        }
    }
}

/// A copy of a list of `AlterOperation`.
pub fn copy_alter_operations(s: &Vec<AlterOperation>) -> (out: Vec<AlterOperation>)
    ensures
        alter_operations_view(out@) == alter_operations_view(s@),
{
    let mut out: Vec<AlterOperation> = Vec::new();
    for i in 0..s.len()
        invariant
            out@.len() == i,
            forall|j: int| 0 <= j < i ==> (#[trigger] out@[j])@ == s@[j]@,
    {
        out.push(s[i].copy());
    }
    assert(alter_operations_view(out@) =~= alter_operations_view(s@));
    out
}

/// A copy of a list of `Assignment`.
pub fn copy_assignments(s: &Vec<Assignment>) -> (out: Vec<Assignment>)
    ensures
        assignments_view(out@) == assignments_view(s@),
{
    let mut out: Vec<Assignment> = Vec::new();
    for i in 0..s.len()
        invariant
            out@.len() == i,
            forall|j: int| 0 <= j < i ==> (#[trigger] out@[j])@ == s@[j]@,
    {
        out.push(s[i].copy());
    }
    assert(assignments_view(out@) =~= assignments_view(s@));
    out
}

/// A copy of a list of `ColumnDef`.
pub fn copy_column_defs(s: &Vec<ColumnDef>) -> (out: Vec<ColumnDef>)
    ensures
        column_defs_view(out@) == column_defs_view(s@),
{
    let mut out: Vec<ColumnDef> = Vec::new();
    for i in 0..s.len()
        invariant
            out@.len() == i,
            forall|j: int| 0 <= j < i ==> (#[trigger] out@[j])@ == s@[j]@,
    {
        out.push(s[i].copy());
    }
    assert(column_defs_view(out@) =~= column_defs_view(s@));
    out
}

/// A copy of a list of `ColumnOption`.
pub fn copy_column_options(s: &Vec<ColumnOption>) -> (out: Vec<ColumnOption>)
    ensures
        column_options_view(out@) == column_options_view(s@),
{
    let mut out: Vec<ColumnOption> = Vec::new();
    for i in 0..s.len()
        invariant
            out@.len() == i,
            forall|j: int| 0 <= j < i ==> (#[trigger] out@[j])@ == s@[j]@,
    {
        out.push(s[i].copy());
    }
    assert(column_options_view(out@) =~= column_options_view(s@));
    out
}

/// A copy of a list of `FunctionArgument`.
pub fn copy_function_arguments(s: &Vec<FunctionArgument>) -> (out: Vec<FunctionArgument>)
    ensures
        function_arguments_view(out@) == function_arguments_view(s@),
{
    let mut out: Vec<FunctionArgument> = Vec::new();
    for i in 0..s.len()
        invariant
            out@.len() == i,
            forall|j: int| 0 <= j < i ==> (#[trigger] out@[j])@ == s@[j]@,
    {
        out.push(s[i].copy());
    }
    assert(function_arguments_view(out@) =~= function_arguments_view(s@));
    out
}

/// A copy of a list of `Join`.
pub fn copy_joins(s: &Vec<Join>) -> (out: Vec<Join>)
    ensures
        joins_view(out@) == joins_view(s@),
{
    let mut out: Vec<Join> = Vec::new();
    for i in 0..s.len()
        invariant
            out@.len() == i,
            forall|j: int| 0 <= j < i ==> (#[trigger] out@[j])@ == s@[j]@,
    {
        out.push(s[i].copy());
    }
    assert(joins_view(out@) =~= joins_view(s@));
    out
}

/// A copy of a list of `NamePart`.
pub fn copy_name_parts(s: &Vec<NamePart>) -> (out: Vec<NamePart>)
    ensures
        name_parts_view(out@) == name_parts_view(s@),
{
    let mut out: Vec<NamePart> = Vec::new();
    for i in 0..s.len()
        invariant
            out@.len() == i,
            forall|j: int| 0 <= j < i ==> (#[trigger] out@[j])@ == s@[j]@,
    {
        out.push(s[i].copy());
    }
    assert(name_parts_view(out@) =~= name_parts_view(s@));
    out
}

/// A copy of a list of `ObjectName`.
pub fn copy_object_names(s: &Vec<ObjectName>) -> (out: Vec<ObjectName>)
    ensures
        object_names_view(out@) == object_names_view(s@),
{
    let mut out: Vec<ObjectName> = Vec::new();
    for i in 0..s.len()
        invariant
            out@.len() == i,
            forall|j: int| 0 <= j < i ==> (#[trigger] out@[j])@ == s@[j]@,
    {
        out.push(s[i].copy());
    }
    assert(object_names_view(out@) =~= object_names_view(s@));
    out
}

/// A copy of a list of `OptionToken`.
pub fn copy_option_tokens(s: &Vec<OptionToken>) -> (out: Vec<OptionToken>)
    ensures
        option_tokens_view(out@) == option_tokens_view(s@),
{
    let mut out: Vec<OptionToken> = Vec::new();
    for i in 0..s.len()
        invariant
            out@.len() == i,
            forall|j: int| 0 <= j < i ==> (#[trigger] out@[j])@ == s@[j]@,
    {
        out.push(s[i].copy());
    }
    assert(option_tokens_view(out@) =~= option_tokens_view(s@));
    out
}

/// A copy of a list of `OrderItem`.
pub fn copy_order_items(s: &Vec<OrderItem>) -> (out: Vec<OrderItem>)
    ensures
        order_items_view(out@) == order_items_view(s@),
{
    let mut out: Vec<OrderItem> = Vec::new();
    for i in 0..s.len()
        invariant
            out@.len() == i,
            forall|j: int| 0 <= j < i ==> (#[trigger] out@[j])@ == s@[j]@,
    {
        out.push(s[i].copy());
    }
    assert(order_items_view(out@) =~= order_items_view(s@));
    out
}

/// A copy of a list of `SelectItem`.
pub fn copy_select_items(s: &Vec<SelectItem>) -> (out: Vec<SelectItem>)
    ensures
        select_items_view(out@) == select_items_view(s@),
{
    let mut out: Vec<SelectItem> = Vec::new();
    for i in 0..s.len()
        invariant
            out@.len() == i,
            forall|j: int| 0 <= j < i ==> (#[trigger] out@[j])@ == s@[j]@,
    {
        out.push(s[i].copy());
    }
    assert(select_items_view(out@) =~= select_items_view(s@));
    out
}

/// A copy of a list of `SetNode`.
pub fn copy_set_nodes(s: &Vec<SetNode>) -> (out: Vec<SetNode>)
    ensures
        set_nodes_view(out@) == set_nodes_view(s@),
{
    let mut out: Vec<SetNode> = Vec::new();
    for i in 0..s.len()
        invariant
            out@.len() == i,
            forall|j: int| 0 <= j < i ==> (#[trigger] out@[j])@ == s@[j]@,
    {
        out.push(s[i].copy());
    }
    assert(set_nodes_view(out@) =~= set_nodes_view(s@));
    out
}

/// A copy of a list of `SqlNode`.
pub fn copy_sql_nodes(s: &Vec<SqlNode>) -> (out: Vec<SqlNode>)
    ensures
        sql_nodes_view(out@) == sql_nodes_view(s@),
{
    let mut out: Vec<SqlNode> = Vec::new();
    for i in 0..s.len()
        invariant
            out@.len() == i,
            forall|j: int| 0 <= j < i ==> (#[trigger] out@[j])@ == s@[j]@,
    {
        out.push(s[i].copy());
    }
    assert(sql_nodes_view(out@) =~= sql_nodes_view(s@));
    out
}

/// A copy of a list of `TableConstraint`.
pub fn copy_table_constraints(s: &Vec<TableConstraint>) -> (out: Vec<TableConstraint>)
    ensures
        table_constraints_view(out@) == table_constraints_view(s@),
{
    let mut out: Vec<TableConstraint> = Vec::new();
    for i in 0..s.len()
        invariant
            out@.len() == i,
            forall|j: int| 0 <= j < i ==> (#[trigger] out@[j])@ == s@[j]@,
    {
        out.push(s[i].copy());
    }
    assert(table_constraints_view(out@) =~= table_constraints_view(s@));
    out
}

/// A copy of a list of `TableFactor`.
pub fn copy_table_factors(s: &Vec<TableFactor>) -> (out: Vec<TableFactor>)
    ensures
        table_factors_view(out@) == table_factors_view(s@),
{
    let mut out: Vec<TableFactor> = Vec::new();
    for i in 0..s.len()
        invariant
            out@.len() == i,
            forall|j: int| 0 <= j < i ==> (#[trigger] out@[j])@ == s@[j]@,
    {
        out.push(s[i].copy());
    }
    assert(table_factors_view(out@) =~= table_factors_view(s@));
    out
}

/// A copy of a list of `TableOption`.
pub fn copy_table_options(s: &Vec<TableOption>) -> (out: Vec<TableOption>)
    ensures
        table_options_view(out@) == table_options_view(s@),
{
    let mut out: Vec<TableOption> = Vec::new();
    for i in 0..s.len()
        invariant
            out@.len() == i,
            forall|j: int| 0 <= j < i ==> (#[trigger] out@[j])@ == s@[j]@,
    {
        out.push(s[i].copy());
    }
    assert(table_options_view(out@) =~= table_options_view(s@));
    out
}

/// A copy of a list of `TableWithJoins`.
pub fn copy_table_with_joins(s: &Vec<TableWithJoins>) -> (out: Vec<TableWithJoins>)
    ensures
        table_with_joins_view(out@) == table_with_joins_view(s@),
{
    let mut out: Vec<TableWithJoins> = Vec::new();
    for i in 0..s.len()
        invariant
            out@.len() == i,
            forall|j: int| 0 <= j < i ==> (#[trigger] out@[j])@ == s@[j]@,
    {
        out.push(s[i].copy());
    }
    assert(table_with_joins_view(out@) =~= table_with_joins_view(s@));
    out
}

/// A copy of a list of `ValuesRow`.
pub fn copy_values_rows(s: &Vec<ValuesRow>) -> (out: Vec<ValuesRow>)
    ensures
        values_rows_view(out@) == values_rows_view(s@),
{
    let mut out: Vec<ValuesRow> = Vec::new();
    for i in 0..s.len()
        invariant
            out@.len() == i,
            forall|j: int| 0 <= j < i ==> (#[trigger] out@[j])@ == s@[j]@,
    {
        out.push(s[i].copy());
    }
    assert(values_rows_view(out@) =~= values_rows_view(s@));
    out
}

/// A copy of an optional `Query`.
pub fn copy_maybe_query(o: &Option<Query>) -> (out: Option<Query>)
    ensures
        maybe_query_view(out) == maybe_query_view(*o),
{
    match o {
        Some(x) => Some(x.copy()),
        None => None,
    }
}

} // verus!
