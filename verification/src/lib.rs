//! Schema-and-dispatch generation for declaratively described command-line programs.
//!
//! A program is described once: a root command, its global flags, and a list of
//! handlers with typed parameters. From that description this library derives
//! the schema that an argument parser is configured with, and the plan by which
//! the text that the parser matched is converted into typed values and handed
//! to the handler that was selected.

pub mod decl;
pub mod dispatch;
pub mod generate;
pub mod matches;
pub mod number;
pub mod parser;
pub mod plan;
pub mod runtime;
pub mod schema;
pub mod store;
pub mod text;
pub mod type_expr;
pub mod value;
