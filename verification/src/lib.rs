//! Verified core of the Vespertide schema language server: database object
//! naming, and the analyses that the editor features run over a parsed
//! model file.

pub mod naming;
pub mod text;
pub mod syntax;
pub mod parse;
pub mod rename;
pub mod code_actions;
pub mod check_expr;
pub mod semantic_tokens;
pub mod symbols;
pub mod locator;
pub mod diagnostics;
pub mod drift;
pub mod definition;
pub mod hover;
pub mod hover_check_expr;
pub mod completion;
pub mod references;
pub mod store;
pub mod position;
