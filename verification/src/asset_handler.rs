//! Dispatch over the document type.
//!
//! The set of per-type strategies is closed — scripts and the scenario
//! configuration — so the dispatch is a single match rather than open-ended
//! virtual calls: tokens go to the script or the configuration walker, and
//! hover text exists only for configuration documents.

use vstd::prelude::*;
use crate::doc::{DocType, Document};
use crate::highlight_helper::{decoded_starts, positions_non_decreasing};
use crate::highlighting::{script_tokens, Highlighter};
use crate::lang::Translation;
use crate::scenario_txt_handler::definition::DefinitionRegistry;
use crate::scenario_txt_handler::highlighting::scenario_tokens;
use crate::scenario_txt_handler::{hover_at, ScenarioTxtHandler};
use crate::token_types::{SemanticToken, TokenTypes};
use crate::tree::Point;

verus! {

/// Collects the semantic tokens of a document by its type's strategy.
pub fn collect_semantic_tokens_for(
    doc: &Document,
    lut: TokenTypes,
    registry: &DefinitionRegistry,
) -> (r: Vec<SemanticToken>)
    requires
        doc.tree.wf(),
        doc.doc_type == DocType::Script ==> script_tokens(&doc.tree, lut).ok,
        doc.doc_type == DocType::ScenarioTxt ==> scenario_tokens(&doc.tree, registry, lut).ok,
    ensures
        doc.doc_type == DocType::Script ==> r@ == script_tokens(&doc.tree, lut).tokens,
        doc.doc_type == DocType::ScenarioTxt ==> r@ == scenario_tokens(
            &doc.tree,
            registry,
            lut,
        ).tokens,
        positions_non_decreasing(decoded_starts(r@, 0, 0)),
{
    match doc.doc_type {
        DocType::Script => Highlighter::collect_tokens(&doc.tree, lut),
        DocType::ScenarioTxt => {
            let handler = ScenarioTxtHandler;
            handler.collect_semantic_tokens(&doc.tree, lut, &doc.source, registry)
        },
    }
}

/// The hover text of a document at a point, by its type's strategy; script
/// documents have none of their own.
pub fn get_hover_text_for(
    doc: &Document,
    pos: Point,
    registry: &DefinitionRegistry,
    trans: &Translation,
) -> (r: Option<Vec<char>>)
    requires
        doc.tree.wf(),
    ensures
        doc.doc_type == DocType::Script ==> r is None,
        doc.doc_type == DocType::ScenarioTxt ==> match r {
            Some(v) => hover_at(&doc.tree, registry, trans, pos, 0, None) == Some(v@),
            None => hover_at(&doc.tree, registry, trans, pos, 0, None) is None,
        },
{
    match doc.doc_type {
        DocType::Script => None,
        DocType::ScenarioTxt => {
            let handler = ScenarioTxtHandler;
            handler.get_hover_text(&doc.tree, pos, registry, trans)
        },
    }
}

} // verus!
