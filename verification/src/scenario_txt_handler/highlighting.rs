//! Semantic tokens for the configuration format.
//!
//! The walker steps through the sections under the root and through each
//! section's children: a section name contributes a keyword token and
//! becomes the current section; a property contributes a token for its key,
//! one for its operator, and — when the current section and the key resolve
//! in the definition registry — the fine-grained value tokens of the
//! property's declared value type. A section without children ends the walk;
//! nodes flagged as errors are passed over.

use vstd::prelude::*;
use crate::highlight_helper::{
    add_semantic_token,
    ctx_state,
    decoded_starts,
    emit_span,
    lemma_decoded_starts_monotone,
    positions_non_decreasing,
    Context,
    EncState,
};
use crate::highlighting::init_enc_state;
use crate::text::{chars_of, copy_text};
use crate::token_types::{SemanticToken, TokenTypes};
use crate::tree::{NodeKind, SyntaxNode, SyntaxTree};
use super::definition::{value_enc, lemma_value_enc_absorbs, Definition, DefinitionRegistry};

verus! {

/// The tokens for the span of one node.
pub open spec fn emit_node_span(st: EncState, n: SyntaxNode, tt: u32) -> EncState {
    emit_span(
        st,
        n.start.row as int,
        n.start.column as int,
        n.end.row as int,
        n.end.column as int,
        tt,
    )
}

/// What one node inside a section contributes, and the section name in
/// force afterwards.
pub open spec fn item_enc(
    tree: &SyntaxTree,
    registry: &DefinitionRegistry,
    lut: TokenTypes,
    i: int,
    sec: Seq<char>,
    st: EncState,
) -> (EncState, Seq<char>) {
    let n = tree.nodes[i];
    if n.is_error {
        (st, sec)
    } else {
        match n.kind {
            NodeKind::SectionName => {
                if n.children.len() > 1 {
                    let nm = tree.nodes[n.children[1] as int];
                    (emit_node_span(st, nm, lut.keyword), nm.text@)
                } else {
                    (st, sec)
                }
            },
            NodeKind::Property => {
                if n.children.len() > 0 {
                    let key = tree.nodes[n.children[0] as int];
                    let st1 = emit_node_span(st, key, lut.method);
                    let st2 = if n.children.len() > 1 {
                        emit_node_span(st1, tree.nodes[n.children[1] as int], lut.operator)
                    } else {
                        st1
                    };
                    let st3 = if n.children.len() > 2 {
                        let val = tree.nodes[n.children[2] as int];
                        if registry@.contains_key((sec, key.text@)) {
                            value_enc(registry@[(sec, key.text@)].0, val, val.text@, lut, st2)
                        } else {
                            st2
                        }
                    } else {
                        st2
                    };
                    (st3, sec)
                } else {
                    (st, sec)
                }
            },
            _ => (st, sec),
        }
    }
}

/// The contributions of a section's children from position `p` on, with the
/// section name threaded through.
pub open spec fn section_items_enc(
    tree: &SyntaxTree,
    registry: &DefinitionRegistry,
    lut: TokenTypes,
    sec_node: int,
    p: int,
    sec: Seq<char>,
    st: EncState,
) -> (EncState, Seq<char>)
    decreases tree.nodes[sec_node].children.len() - p,
    when 0 <= p
{
    if p >= tree.nodes[sec_node].children.len() {
        (st, sec)
    } else {
        let r = item_enc(tree, registry, lut, tree.nodes[sec_node].children[p] as int, sec, st);
        section_items_enc(tree, registry, lut, sec_node, p + 1, r.1, r.0)
    }
}

/// The contributions of the root's sections from position `s` on; the walk
/// ends at the first section without children.
pub open spec fn sections_enc(
    tree: &SyntaxTree,
    registry: &DefinitionRegistry,
    lut: TokenTypes,
    s: int,
    sec: Seq<char>,
    st: EncState,
) -> EncState
    decreases tree.nodes[0].children.len() - s,
    when 0 <= s
{
    if s >= tree.nodes[0].children.len() {
        st
    } else {
        let sec_node = tree.nodes[0].children[s] as int;
        if tree.nodes[sec_node].children.len() == 0 {
            st
        } else {
            let r = section_items_enc(tree, registry, lut, sec_node, 0, sec, st);
            sections_enc(tree, registry, lut, s + 1, r.1, r.0)
        }
    }
}

/// The token stream of a whole configuration tree.
pub open spec fn scenario_tokens(
    tree: &SyntaxTree,
    registry: &DefinitionRegistry,
    lut: TokenTypes,
) -> EncState {
    if tree.nodes[0].children.len() == 0 {
        init_enc_state()
    } else {
        sections_enc(tree, registry, lut, 0, "UNDEFINED_SECTION"@, init_enc_state())
    }
}

/// Re-encoding an unchanged configuration tree against an unchanged
/// registry and lookup table yields an identical token stream: the stream is
/// a function of the three alone.
pub proof fn lemma_scenario_encode_deterministic(
    t1: &SyntaxTree,
    t2: &SyntaxTree,
    r1: &DefinitionRegistry,
    r2: &DefinitionRegistry,
    lut: TokenTypes,
)
    requires
        t1 == t2,
        r1 == r2,
    ensures
        scenario_tokens(t1, r1, lut) == scenario_tokens(t2, r2, lut),
{
}

/// An item from a state outside the policy's domain stays outside it.
proof fn lemma_item_enc_absorbs(
    tree: &SyntaxTree,
    registry: &DefinitionRegistry,
    lut: TokenTypes,
    i: int,
    sec: Seq<char>,
    st: EncState,
)
    requires
        !st.ok,
    ensures
        !item_enc(tree, registry, lut, i, sec, st).0.ok,
{
    let n = tree.nodes[i];
    if !n.is_error && n.kind == NodeKind::Property && n.children.len() > 0 {
        let key = tree.nodes[n.children[0] as int];
        let st1 = emit_node_span(st, key, lut.method);
        let st2 = if n.children.len() > 1 {
            emit_node_span(st1, tree.nodes[n.children[1] as int], lut.operator)
        } else {
            st1
        };
        if n.children.len() > 2 {
            let val = tree.nodes[n.children[2] as int];
            if registry@.contains_key((sec, key.text@)) {
                lemma_value_enc_absorbs(
                    registry@[(sec, key.text@)].0,
                    val,
                    val.text@,
                    lut,
                    st2,
                );
            }
        }
    }
}

/// A section walk from a state outside the policy's domain stays outside
/// it.
proof fn lemma_section_items_enc_absorbs(
    tree: &SyntaxTree,
    registry: &DefinitionRegistry,
    lut: TokenTypes,
    sec_node: int,
    p: int,
    sec: Seq<char>,
    st: EncState,
)
    requires
        0 <= p,
        !st.ok,
    ensures
        !section_items_enc(tree, registry, lut, sec_node, p, sec, st).0.ok,
    decreases tree.nodes[sec_node].children.len() - p,
{
    if p < tree.nodes[sec_node].children.len() {
        let r = item_enc(tree, registry, lut, tree.nodes[sec_node].children[p] as int, sec, st);
        lemma_item_enc_absorbs(
            tree,
            registry,
            lut,
            tree.nodes[sec_node].children[p] as int,
            sec,
            st,
        );
        lemma_section_items_enc_absorbs(tree, registry, lut, sec_node, p + 1, r.1, r.0);
    }
}

/// A walk over the remaining sections from a state outside the policy's
/// domain stays outside it.
proof fn lemma_sections_enc_absorbs(
    tree: &SyntaxTree,
    registry: &DefinitionRegistry,
    lut: TokenTypes,
    s: int,
    sec: Seq<char>,
    st: EncState,
)
    requires
        0 <= s,
        !st.ok,
    ensures
        !sections_enc(tree, registry, lut, s, sec, st).ok,
    decreases tree.nodes[0].children.len() - s,
{
    if s < tree.nodes[0].children.len() {
        let sec_node = tree.nodes[0].children[s] as int;
        if tree.nodes[sec_node].children.len() > 0 {
            let r = section_items_enc(tree, registry, lut, sec_node, 0, sec, st);
            lemma_section_items_enc_absorbs(tree, registry, lut, sec_node, 0, sec, st);
            lemma_sections_enc_absorbs(tree, registry, lut, s + 1, r.1, r.0);
        }
    }
}

/// Collects the delta-encoded semantic tokens of a configuration tree,
/// consulting the definition registry for each property's fine-grained
/// value tokens.
#[verifier::rlimit(30)]
pub fn collect_semantic_tokens(
    tree: &SyntaxTree,
    lut: TokenTypes,
    registry: &DefinitionRegistry,
) -> (r: Vec<SemanticToken>)
    requires
        tree.wf(),
        scenario_tokens(tree, registry, lut).ok,
    ensures
        r@ == scenario_tokens(tree, registry, lut).tokens,
        positions_non_decreasing(decoded_starts(r@, 0, 0)),
{
    let ghost target = scenario_tokens(tree, registry, lut);
    if tree.nodes[0].children.len() == 0 {
        let r: Vec<SemanticToken> = Vec::new();
        proof {
            lemma_decoded_starts_monotone(r@, 0, 0);
        }
        return r;
    }
    let mut ctx = Context::new(lut);
    let mut section_name = chars_of("UNDEFINED_SECTION");
    proof {
        assert(ctx_state(ctx) == init_enc_state());
    }
    let mut s: usize = 0;
    while s < tree.nodes[0].children.len()
        invariant
            tree.wf(),
            ctx.token_types == lut,
            target.ok,
            target == scenario_tokens(tree, registry, lut),
            sections_enc(tree, registry, lut, s as int, section_name@, ctx_state(ctx)) == target,
        decreases tree.nodes[0int].children.len() - s,
    {
        let sec_node = tree.nodes[0].children[s];
        proof {
            assert(0 < tree.nodes[0int].children[s as int] < tree.nodes.len());
        }
        if tree.nodes[sec_node].children.len() == 0 {
            proof {
                assert(ctx_state(ctx) == target);
                lemma_decoded_starts_monotone(ctx.collection@, 0, 0);
            }
            return ctx.collection;
        }
        let ghost entry_state = ctx_state(ctx);
        let ghost entry_sec = section_name@;
        let ghost after = section_items_enc(
            tree,
            registry,
            lut,
            sec_node as int,
            0,
            entry_sec,
            entry_state,
        );
        proof {
            if !after.0.ok {
                lemma_sections_enc_absorbs(tree, registry, lut, s as int + 1, after.1, after.0);
            }
        }
        let mut p: usize = 0;
        while p < tree.nodes[sec_node].children.len()
            invariant
                tree.wf(),
                ctx.token_types == lut,
                sec_node < tree.nodes.len(),
                after.0.ok,
                section_items_enc(
                    tree,
                    registry,
                    lut,
                    sec_node as int,
                    p as int,
                    section_name@,
                    ctx_state(ctx),
                ) == after,
            decreases tree.nodes[sec_node as int].children.len() - p,
        {
            let it = tree.nodes[sec_node].children[p];
            proof {
                assert(sec_node < tree.nodes[sec_node as int].children[p as int]
                    < tree.nodes.len());
            }
            let ghost istep = item_enc(
                tree,
                registry,
                lut,
                it as int,
                section_name@,
                ctx_state(ctx),
            );
            proof {
                if !istep.0.ok {
                    lemma_section_items_enc_absorbs(
                        tree,
                        registry,
                        lut,
                        sec_node as int,
                        p as int + 1,
                        istep.1,
                        istep.0,
                    );
                }
            }
            let n = &tree.nodes[it];
            if !n.is_error {
                match n.kind {
                    NodeKind::SectionName => {
                        if n.children.len() > 1 {
                            proof {
                                assert(it < tree.nodes[it as int].children[1int]
                                    < tree.nodes.len());
                            }
                            let nm = n.children[1];
                            let tt = ctx.token_types.keyword;
                            add_semantic_token(&mut ctx, tt, &tree.nodes[nm]);
                            section_name = copy_text(&tree.nodes[nm].text);
                        }
                    },
                    NodeKind::Property => {
                        if n.children.len() > 0 {
                            proof {
                                assert(it < tree.nodes[it as int].children[0int]
                                    < tree.nodes.len());
                                let st_cur = ctx_state(ctx);
                                let key_n = tree.nodes[n.children@[0] as int];
                                let st1s = emit_node_span(st_cur, key_n, lut.method);
                                let st2s = if n.children@.len() > 1 {
                                    emit_node_span(
                                        st1s,
                                        tree.nodes[n.children@[1] as int],
                                        lut.operator,
                                    )
                                } else {
                                    st1s
                                };
                                if !st2s.ok {
                                    if n.children@.len() > 2 {
                                        let val_n = tree.nodes[n.children@[2] as int];
                                        if registry@.contains_key((section_name@, key_n.text@)) {
                                            lemma_value_enc_absorbs(
                                                registry@[(section_name@, key_n.text@)].0,
                                                val_n,
                                                val_n.text@,
                                                lut,
                                                st2s,
                                            );
                                        }
                                    }
                                    assert(!istep.0.ok);
                                }
                                assert(st2s.ok);
                            }
                            let key = n.children[0];
                            let tt = ctx.token_types.method;
                            add_semantic_token(&mut ctx, tt, &tree.nodes[key]);
                            if n.children.len() > 1 {
                                proof {
                                    assert(it < tree.nodes[it as int].children[1int]
                                        < tree.nodes.len());
                                }
                                let op = n.children[1];
                                let tt2 = ctx.token_types.operator;
                                add_semantic_token(&mut ctx, tt2, &tree.nodes[op]);
                            }
                            if n.children.len() > 2 {
                                proof {
                                    assert(it < tree.nodes[it as int].children[2int]
                                        < tree.nodes.len());
                                }
                                let val = n.children[2];
                                match Definition::get_def(
                                    registry,
                                    &section_name,
                                    &tree.nodes[key].text,
                                ) {
                                    Some(def) => {
                                        def.value_type.extract_semantic_tokens(
                                            &tree.nodes[val],
                                            &mut ctx,
                                            &tree.nodes[val].text,
                                        );
                                    },
                                    None => {},
                                }
                            }
                        }
                    },
                    _ => {},
                }
            }
            proof {
                assert(ctx_state(ctx) == istep.0);
                assert(section_name@ == istep.1);
            }
            p = p + 1;
        }
        proof {
            assert(ctx_state(ctx) == after.0);
            assert(section_name@ == after.1);
        }
        s = s + 1;
    }
    proof {
        assert(ctx_state(ctx) == target);
        lemma_decoded_starts_monotone(ctx.collection@, 0, 0);
    }
    ctx.collection
}

} // verus!
