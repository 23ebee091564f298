//! The per-document-type strategy for the scenario configuration format:
//! the section/key-keyed definition registry, the per-value-type
//! sub-tokenizer, the section-aware token collection, and hover text.

pub mod definition;
pub mod highlighting;

use vstd::prelude::*;
use crate::highlight_helper::{decoded_starts, positions_non_decreasing};
use crate::lang::{trans_lookup, Translation};
use crate::text::copy_text;
use crate::token_types::{SemanticToken, TokenTypes};
use crate::tree::{lemma_first_covering_child_bounds, NodeKind, Point, SyntaxTree};
use definition::DefinitionRegistry;
use highlighting::scenario_tokens;

verus! {

/// The hover answer reached from node `i` with `sec` the innermost section
/// name seen so far: a property whose key resolves in the registry under
/// the current section answers with the translation of its documentation
/// key; otherwise the walk steps into the first child covering the point,
/// and ends empty-handed when none does.
pub open spec fn hover_at(
    tree: &SyntaxTree,
    registry: &DefinitionRegistry,
    trans: &Translation,
    p: Point,
    i: int,
    sec: Option<Seq<char>>,
) -> Option<Seq<char>>
    decreases tree.nodes.len() - i,
    when tree.wf() && 0 <= i < tree.nodes.len()
    via hover_at_decreases
{
    let n = tree.nodes[i];
    let hit = if n.kind == NodeKind::Property && n.children.len() > 0 && sec is Some {
        let key = tree.nodes[n.children[0] as int];
        if registry@.contains_key((sec->0, key.text@)) {
            trans_lookup(*trans, registry@[(sec->0, key.text@)].1)
        } else {
            None
        }
    } else {
        None
    };
    if hit is Some {
        hit
    } else {
        let sec2 = if n.kind == NodeKind::Section && n.children.len() > 0 && tree.nodes[n.children[0] as int].kind
            == NodeKind::SectionName && tree.nodes[n.children[0] as int].children.len() > 1 {
            Some(tree.nodes[tree.nodes[n.children[0] as int].children[1] as int].text@)
        } else {
            sec
        };
        match tree.first_covering_child(i, p, 0) {
            None => None,
            Some(c) => hover_at(tree, registry, trans, p, c as int, sec2),
        }
    }
}

#[via_fn]
proof fn hover_at_decreases(
    tree: &SyntaxTree,
    registry: &DefinitionRegistry,
    trans: &Translation,
    p: Point,
    i: int,
    sec: Option<Seq<char>>,
) {
    if tree.wf() && 0 <= i < tree.nodes.len() {
        lemma_first_covering_child_bounds(tree, i, p, 0);
    }
}

/// The mathematical image of an optional section name.
pub open spec fn sec_view(sec: Option<Vec<char>>) -> Option<Seq<char>> {
    match sec {
        Some(v) => Some(v@),
        None => None,
    }
}

/// Tokenization and hover behavior for scenario configuration documents.
#[derive(Clone, Debug)]
pub struct ScenarioTxtHandler;

impl ScenarioTxtHandler {
    /// Collects the semantic tokens of a configuration document. The node
    /// texts carried by the tree already hold every span the walk reads, so
    /// the raw source plays no further part.
    pub fn collect_semantic_tokens(
        &self,
        tree: &SyntaxTree,
        lut: TokenTypes,
        _source: &Vec<char>,
        registry: &DefinitionRegistry,
    ) -> (r: Vec<SemanticToken>)
        requires
            tree.wf(),
            scenario_tokens(tree, registry, lut).ok,
        ensures
            r@ == scenario_tokens(tree, registry, lut).tokens,
            positions_non_decreasing(decoded_starts(r@, 0, 0)),
    {
        highlighting::collect_semantic_tokens(tree, lut, registry)
    }

    /// The hover text at a point: the walk descends from the root toward the
    /// point, keeping the innermost section name seen, and answers with the
    /// translated documentation key of the first property it stands on whose
    /// key resolves in the registry under that section.
    pub fn get_hover_text(
        &self,
        tree: &SyntaxTree,
        pos: Point,
        registry: &DefinitionRegistry,
        trans: &Translation,
    ) -> (r: Option<Vec<char>>)
        requires
            tree.wf(),
        ensures
            match r {
                Some(v) => hover_at(tree, registry, trans, pos, 0, None) == Some(v@),
                None => hover_at(tree, registry, trans, pos, 0, None) is None,
            },
    {
        let ghost target = hover_at(tree, registry, trans, pos, 0, None);
        let mut i: usize = 0;
        let mut section_name: Option<Vec<char>> = None;
        loop
            invariant_except_break
                tree.wf(),
                i < tree.nodes.len(),
                target == hover_at(tree, registry, trans, pos, 0, None),
                hover_at(tree, registry, trans, pos, i as int, sec_view(section_name)) == target,
            ensures
                target is None,
            decreases tree.nodes.len() - i,
        {
            let n = &tree.nodes[i];
            if matches!(n.kind, NodeKind::Property) && n.children.len() > 0 {
                match &section_name {
                    Some(sname) => {
                        proof {
                            assert(i < tree.nodes[i as int].children[0int] < tree.nodes.len());
                        }
                        let key = n.children[0];
                        match definition::Definition::get_def(
                            registry,
                            sname,
                            &tree.nodes[key].text,
                        ) {
                            Some(def) => {
                                match trans.get_translation(&def.description) {
                                    Some(t) => {
                                        proof {
                                            let keyn = tree.nodes[tree.nodes[i as int].children@[0] as int];
                                            assert(registry@.contains_key(
                                                (sec_view(section_name)->0, keyn.text@),
                                            ));
                                            assert(trans_lookup(
                                                *trans,
                                                registry@[(sec_view(section_name)->0, keyn.text@)].1,
                                            ) == Some(t@));
                                            assert(hover_at(
                                                tree,
                                                registry,
                                                trans,
                                                pos,
                                                i as int,
                                                sec_view(section_name),
                                            ) == Some(t@));
                                        }
                                        return Some(copy_text(t));
                                    },
                                    None => {},
                                }
                            },
                            None => {},
                        }
                    },
                    None => {},
                }
            }
            if matches!(n.kind, NodeKind::Section) && n.children.len() > 0 {
                proof {
                    assert(i < tree.nodes[i as int].children[0int] < tree.nodes.len());
                }
                let first_child = n.children[0];
                if matches!(tree.nodes[first_child].kind, NodeKind::SectionName) && tree.nodes[first_child].children.len() > 1 {
                    proof {
                        assert(first_child < tree.nodes[first_child as int].children[1int]
                            < tree.nodes.len());
                    }
                    let nm = tree.nodes[first_child].children[1];
                    section_name = Some(copy_text(&tree.nodes[nm].text));
                }
            }
            match tree.child_covering_point(i, pos) {
                None => {
                    break ;
                },
                Some(c) => {
                    i = c;
                },
            }
        }
        None
    }
}

} // verus!
