//! The per-document-type strategy for script files.

use vstd::prelude::*;
use crate::highlighting::{script_tokens, Highlighter};
use crate::token_types::{SemanticToken, TokenTypes};
use crate::tree::SyntaxTree;

verus! {

/// Tokenization behavior for script documents; they have no hover text of
/// their own.
#[derive(Clone, Debug)]
pub struct ScriptHandler;

impl ScriptHandler {
    /// Collects the semantic tokens of a script document. The source text
    /// plays no part: every span the dispatch emits comes from the tree.
    pub fn collect_semantic_tokens(
        &self,
        tree: &SyntaxTree,
        lut: TokenTypes,
        _source: &Vec<char>,
    ) -> (r: Vec<SemanticToken>)
        requires
            tree.wf(),
            script_tokens(tree, lut).ok,
        ensures
            r@ == script_tokens(tree, lut).tokens,
    {
        Highlighter::collect_tokens(tree, lut)
    }
}

} // verus!
