//! Front end of a small declarative UI language: a context-sensitive lexer, a
//! recursive-descent parser producing a typed tree, and a lowering pass to a flattened
//! intermediate representation, with DOM rendering and utility-class CSS on top.
//!
//! Each stage is specified by spec functions over mathematical models (`lex`, `parse`,
//! `markup`, `lower_program`, `dom_list`, `css_of`) and its executable code is proved to
//! compute exactly what they say. `laws` states and proves properties that relate them.

// characters, tokens and the lexer
pub mod text;
pub mod token;
pub mod scan;
pub mod lines;
pub mod lexer;

// diagnostics, the tree and the parser
pub mod error;
pub mod ast;
pub mod grammar;
pub mod parser;
pub mod visit;

// the intermediate representation and lowering
pub mod ir;
pub mod decl;
pub mod lower;

// the whole front end on source text
pub mod pipeline;

// rendering and styling
pub mod dom;
pub mod render;
pub mod style;

// drivers: workspace settings, runtime, live reload
pub mod workspace;
pub mod runtime;
pub mod live;

pub mod laws;
