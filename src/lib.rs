//! Static detection of Python functions that are never referenced.
//!
//! Each source file is walked as a syntax tree and yields facts: the functions it
//! defines, the call targets, names and attributes it uses, and the simple
//! `variable = Class(...)` assignments it makes. The facts of all files are merged,
//! two resolution passes turn heuristic facts into used function names, and every
//! definition whose qualified name is not among them is reported.
pub mod analyzer;
pub mod assignments;
pub mod errors;
pub mod expression;
pub mod expression_value;
pub mod function_def;
pub mod laws;
pub mod lists;
pub mod names;
pub mod possible_functions;
pub mod statement;
pub mod statement_value;
pub mod syntax;
