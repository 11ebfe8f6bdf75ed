//! SQL front end of an embedded relational database: scalar expressions, logical
//! plans, planning, optimization and the decisions of the execution engine.
pub mod aggregates;
pub mod answers;
pub mod bags;
pub mod binding;
pub mod bounds;
pub mod cache;
pub mod changes;
pub mod choices;
pub mod conversions;
pub mod converted;
pub mod cost;
pub mod ddl;
pub mod definitions;
pub mod engine;
pub mod eval;
pub mod execute;
pub mod explain;
pub mod expr;
pub mod expr_laws;
pub mod facts;
pub mod grouping;
pub mod kept;
pub mod keys;
pub mod loading;
pub mod logical;
pub mod lowering;
pub mod merge;
pub mod message;
pub mod modify;
pub mod narrowing;
pub mod optimizer;
pub mod order;
pub mod parameters;
pub mod params;
pub mod parse;
pub mod parsed;
pub mod physical;
pub mod planner;
pub mod point_get;
pub mod preprocess;
pub mod pushdown;
pub mod queries;
pub mod ranges;
pub mod relation;
pub mod reshaped;
pub mod run;
pub mod scalar;
pub mod schema;
pub mod single_key;
pub mod spill;
pub mod statement;
pub mod subquery;
pub mod syntax;
pub mod table;
pub mod text;
pub mod tokens;
pub mod tree;
pub mod typing;
pub mod value;
pub mod written;
