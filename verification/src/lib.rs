//! Compiler core for turning a GraphQL schema-definition document into a
//! statically typed binding model: a symbol table over the whole document,
//! a nullability/list type algebra, a directive parser and validator, field
//! and entity compilation, and a query-trail (selection lookahead) generator.
//!
//! The SDL parser and the final token rendering live outside this crate; the
//! library consumes an already parsed document model and produces an
//! emission model plus an ordered set of diagnostics.

pub mod ast;
pub mod code_gen_pass;
pub mod decode;
pub mod directive_parsing;
pub mod emit;
pub mod error;
pub mod field_compiler;
pub mod literal;
pub mod nullable_type;
pub mod query_trail;
pub mod rust_type;
pub mod source_text;
pub mod symbol_table;
pub mod text;
pub mod type_mapper;
pub mod validations;
