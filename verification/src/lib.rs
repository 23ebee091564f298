//! Analysis engine for a legacy game-scripting ecosystem: an imperative
//! script language and a companion sectioned configuration text format.
//!
//! The engine works on a concrete syntax tree that an external incremental
//! parser produces. The tree is modelled here as an arena of nodes addressed
//! by index ([`tree::SyntaxTree`]); the surrounding process converts the
//! parser's trees into this arena form and hands them in as plain values.
//!
//! The main artifacts produced from a tree are:
//! - a delta-encoded semantic-token stream for editor highlighting
//!   ([`highlight_helper`], [`highlighting`], [`scenario_txt_handler`]),
//! - function signatures extracted by structural pattern matching
//!   ([`signatures`]),
//! - syntax-error diagnostics ([`analyze`]),
//! - hover documentation driven by a section/key-keyed value-type registry
//!   ([`scenario_txt_handler`], [`lang`], [`embedding`]),
//! - a document store that keeps a tree, its source and a document-type tag
//!   consistent across whole-document edits ([`doc`], [`store`]).

pub mod analyze;
pub mod asset_handler;
pub mod doc;
pub mod embedding;
pub mod highlight_helper;
pub mod highlighting;
pub mod lang;
pub mod markdown;
pub mod scenario_txt_handler;
pub mod script_handler;
pub mod signatures;
pub mod store;
pub mod text;
pub mod token_types;
pub mod tree;
