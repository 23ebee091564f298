//! Semantic tokens for the script language.
//!
//! The encoder walks the tree depth first in preorder, visiting every named
//! node; a fixed dispatch over node kinds decides which spans a node itself
//! contributes (the node's own span, a child's, or a field child's) before
//! the walk descends into its children. A method call whose callee is an
//! `id` suppresses the default descent into the callee so that it is not
//! tokenized twice: the walk resumes behind the `id` (and behind the name,
//! when there is one).
//!
//! [`node_own`] is the dispatch policy, [`node_enc`]/[`children_enc`] the
//! whole walk, both over the [`EncState`] threading of
//! [`crate::highlight_helper`]. A walk whose emissions fall out of the
//! encoding policy's domain — or that meets a loop, branch or return
//! statement node without children, where the dispatch has no answer —
//! clears the state's `ok` flag; the executable walker requires a tree on
//! which that does not happen.

use vstd::prelude::*;
use crate::highlight_helper::{
    add_semantic_token,
    ctx_state,
    decoded_starts,
    emit_span,
    lemma_decoded_starts_monotone,
    positions_non_decreasing,
    Context,
    EncState,
};
use crate::token_types::{SemanticToken, TokenTypes};
use crate::tree::{FieldLabel, NodeKind, SyntaxNode, SyntaxTree};

verus! {

/// The tokens for the span of one node.
pub open spec fn emit_node(st: EncState, n: SyntaxNode, tt: u32) -> EncState {
    emit_span(
        st,
        n.start.row as int,
        n.start.column as int,
        n.end.row as int,
        n.end.column as int,
        tt,
    )
}

/// What node `i` contributes before its children are walked, and the child
/// position the walk resumes at (0 but for a method call on an `id`).
pub open spec fn node_own(tree: &SyntaxTree, i: int, lut: TokenTypes, st: EncState) -> (
    EncState,
    int,
) {
    let n = tree.nodes[i];
    if !n.named {
        (st, 0)
    } else {
        match n.kind {
            NodeKind::Comment => (emit_node(st, n, lut.comment), 0),
            NodeKind::StringLiteral => (emit_node(st, n, lut.string), 0),
            NodeKind::PragmaStrict => (emit_node(st, n, lut.pragma_strict), 0),
            NodeKind::AppendTo => (emit_node(st, n, lut.appendto), 0),
            NodeKind::Include => (emit_node(st, n, lut.keyword), 0),
            NodeKind::Number => (emit_node(st, n, lut.number), 0),
            NodeKind::Nil => (emit_node(st, n, lut.nil), 0),
            NodeKind::BuiltinConstant => (emit_node(st, n, lut.keyword), 0),
            NodeKind::BoolLiteral => (emit_node(st, n, lut.boolean), 0),
            NodeKind::Id => (emit_node(st, n, lut.id), 0),
            NodeKind::Else => (emit_node(st, n, lut.keyword), 0),
            NodeKind::FlowControl => (emit_node(st, n, lut.keyword), 0),
            NodeKind::VarDefinition => {
                let st1 = if n.children.len() > 0 {
                    emit_node(st, tree.nodes[n.children[0] as int], lut.var_scope)
                } else {
                    st
                };
                let st2 = match tree.field_child(i, FieldLabel::FieldConst) {
                    Some(c) => emit_node(st1, tree.nodes[c as int], lut.keyword),
                    None => st1,
                };
                (st2, 0)
            },
            NodeKind::FunctionDefinition => {
                let vis = tree.field_child(i, FieldLabel::FieldVisibility);
                let st1 = match vis {
                    Some(v) => emit_node(st, tree.nodes[v as int], lut.keyword),
                    None => st,
                };
                let idx: int = if vis is Some {
                    1
                } else {
                    0
                };
                let st2 = if idx < n.children.len() {
                    emit_node(st1, tree.nodes[n.children[idx] as int], lut.keyword)
                } else {
                    st1
                };
                let st3 = match tree.field_child(i, FieldLabel::FieldName) {
                    Some(c) => emit_node(st2, tree.nodes[c as int], lut.method),
                    None => st2,
                };
                (st3, 0)
            },
            NodeKind::MethodCall => {
                match tree.field_child(i, FieldLabel::FieldId) {
                    Some(c) => {
                        let st1 = emit_node(st, tree.nodes[c as int], lut.id);
                        match tree.field_child(i, FieldLabel::FieldName) {
                            Some(nm) => (emit_node(st1, tree.nodes[nm as int], lut.method), 2),
                            None => (st1, 1),
                        }
                    },
                    None => {
                        match tree.field_child(i, FieldLabel::FieldName) {
                            Some(nm) => (emit_node(st, tree.nodes[nm as int], lut.method), 0),
                            None => (st, 0),
                        }
                    },
                }
            },
            NodeKind::Param => {
                let st1 = match tree.field_child(i, FieldLabel::FieldType) {
                    Some(c) => emit_node(st, tree.nodes[c as int], lut.parameter_type),
                    None => st,
                };
                let st2 = match tree.field_child(i, FieldLabel::FieldName) {
                    Some(c) => emit_node(st1, tree.nodes[c as int], lut.parameter),
                    None => st1,
                };
                (st2, 0)
            },
            NodeKind::ForStatement => {
                if n.children.len() > 0 {
                    (emit_node(st, tree.nodes[n.children[0] as int], lut.keyword), 0)
                } else {
                    (EncState { ok: false, ..st }, 0)
                }
            },
            NodeKind::WhileStatement => {
                if n.children.len() > 0 {
                    (emit_node(st, tree.nodes[n.children[0] as int], lut.keyword), 0)
                } else {
                    (EncState { ok: false, ..st }, 0)
                }
            },
            NodeKind::IfStatement => {
                if n.children.len() > 0 {
                    (emit_node(st, tree.nodes[n.children[0] as int], lut.keyword), 0)
                } else {
                    (EncState { ok: false, ..st }, 0)
                }
            },
            NodeKind::ReturnStatement => {
                if n.children.len() > 0 {
                    (emit_node(st, tree.nodes[n.children[0] as int], lut.keyword), 0)
                } else {
                    (EncState { ok: false, ..st }, 0)
                }
            },
            _ => (st, 0),
        }
    }
}

/// The whole walk of node `i`: its own contributions, then its children from
/// the resume position on.
pub open spec fn node_enc(tree: &SyntaxTree, i: int, lut: TokenTypes, st: EncState) -> EncState
    decreases tree.nodes.len() - i, 1int, 0int,
    when tree.wf() && 0 <= i < tree.nodes.len()
{
    let own = node_own(tree, i, lut, st);
    children_enc(tree, i, own.1, lut, own.0)
}

/// The walk of node `i`'s children from position `j` on.
pub open spec fn children_enc(tree: &SyntaxTree, i: int, j: int, lut: TokenTypes, st: EncState) -> EncState
    decreases tree.nodes.len() - i, 0int, tree.nodes[i].children.len() - j,
    when tree.wf() && 0 <= i < tree.nodes.len() && 0 <= j
{
    if j >= tree.nodes[i].children.len() {
        st
    } else {
        children_enc(tree, i, j + 1, lut, node_enc(tree, tree.nodes[i].children[j] as int, lut, st))
    }
}

/// A walk from a state outside the policy's domain stays outside it.
pub proof fn lemma_node_enc_absorbs(tree: &SyntaxTree, i: int, lut: TokenTypes, st: EncState)
    requires
        tree.wf(),
        0 <= i < tree.nodes.len(),
        !st.ok,
    ensures
        !node_enc(tree, i, lut, st).ok,
    decreases tree.nodes.len() - i, 1int, 0int,
{
    let own = node_own(tree, i, lut, st);
    assert(!own.0.ok);
    if own.1 >= 0 {
        lemma_children_enc_absorbs(tree, i, own.1, lut, own.0);
    }
}

/// A child walk from a state outside the policy's domain stays outside it.
pub proof fn lemma_children_enc_absorbs(tree: &SyntaxTree, i: int, j: int, lut: TokenTypes, st: EncState)
    requires
        tree.wf(),
        0 <= i < tree.nodes.len(),
        0 <= j,
        !st.ok,
    ensures
        !children_enc(tree, i, j, lut, st).ok,
    decreases tree.nodes.len() - i, 0int, tree.nodes[i].children.len() - j,
{
    if j < tree.nodes[i].children.len() {
        let c = tree.nodes[i].children[j] as int;
        assert(i < c < tree.nodes.len());
        lemma_node_enc_absorbs(tree, c, lut, st);
        lemma_children_enc_absorbs(tree, i, j + 1, lut, node_enc(tree, c, lut, st));
    }
}

/// The state every collection pass starts from.
pub open spec fn init_enc_state() -> EncState {
    EncState { tokens: Seq::empty(), line: 0, col: 0, ok: true }
}

/// The token stream of a whole script tree.
pub open spec fn script_tokens(tree: &SyntaxTree, lut: TokenTypes) -> EncState {
    node_enc(tree, 0, lut, init_enc_state())
}

/// Re-encoding an unchanged tree with an unchanged lookup table yields an
/// identical token stream: the stream is a function of the two alone.
pub proof fn lemma_encode_deterministic(t1: &SyntaxTree, t2: &SyntaxTree, lut: TokenTypes)
    requires
        t1 == t2,
    ensures
        script_tokens(t1, lut) == script_tokens(t2, lut),
{
}

/// The semantic-token encoder for script trees.
pub struct Highlighter;

impl Highlighter {
    /// Collects the delta-encoded semantic tokens of a script tree.
    pub fn collect_tokens(tree: &SyntaxTree, lut: TokenTypes) -> (r: Vec<SemanticToken>)
        requires
            tree.wf(),
            script_tokens(tree, lut).ok,
        ensures
            r@ == script_tokens(tree, lut).tokens,
            positions_non_decreasing(decoded_starts(r@, 0, 0)),
    {
        let mut ctx = Context::new(lut);
        proof {
            assert(ctx_state(ctx) == init_enc_state());
        }
        Self::collect_tokens_step(tree, 0, &mut ctx);
        proof {
            lemma_decoded_starts_monotone(ctx.collection@, 0, 0);
        }
        ctx.collection
    }

    /// Emits the tokens for the span of one node.
    pub fn add_token(ctx: &mut Context, token_type: u32, node: &SyntaxNode)
        requires
            emit_node(ctx_state(*old(ctx)), *node, token_type).ok,
        ensures
            ctx_state(*final(ctx)) == emit_node(ctx_state(*old(ctx)), *node, token_type),
            final(ctx).token_types == old(ctx).token_types,
    {
        add_semantic_token(ctx, token_type, node);
    }

    /// Walks node `i` and its subtree, appending its tokens.
    #[verifier::loop_isolation(false)]
    fn collect_tokens_step(tree: &SyntaxTree, i: usize, ctx: &mut Context)
        requires
            tree.wf(),
            i < tree.nodes.len(),
            node_enc(tree, i as int, old(ctx).token_types, ctx_state(*old(ctx))).ok,
        ensures
            ctx_state(*final(ctx)) == node_enc(
                tree,
                i as int,
                old(ctx).token_types,
                ctx_state(*old(ctx)),
            ),
            final(ctx).token_types == old(ctx).token_types,
        decreases tree.nodes.len() - i,
    {
        let ghost lut = old(ctx).token_types;
        let ghost st0 = ctx_state(*old(ctx));
        let ghost own = node_own(tree, i as int, lut, st0);
        let ghost target = node_enc(tree, i as int, lut, st0);
        proof {
            if !own.0.ok {
                lemma_children_enc_absorbs(tree, i as int, own.1, lut, own.0);
            }
        }

        let n = &tree.nodes[i];
        let mut skip: usize = 0;
        if n.named {
            match n.kind {
                NodeKind::Comment => {
                    let tt = ctx.token_types.comment;
                    Self::add_token(ctx, tt, n);
                },
                NodeKind::StringLiteral => {
                    let tt = ctx.token_types.string;
                    Self::add_token(ctx, tt, n);
                },
                NodeKind::PragmaStrict => {
                    let tt = ctx.token_types.pragma_strict;
                    Self::add_token(ctx, tt, n);
                },
                NodeKind::AppendTo => {
                    let tt = ctx.token_types.appendto;
                    Self::add_token(ctx, tt, n);
                },
                NodeKind::Include => {
                    let tt = ctx.token_types.keyword;
                    Self::add_token(ctx, tt, n);
                },
                NodeKind::Number => {
                    let tt = ctx.token_types.number;
                    Self::add_token(ctx, tt, n);
                },
                NodeKind::Nil => {
                    let tt = ctx.token_types.nil;
                    Self::add_token(ctx, tt, n);
                },
                NodeKind::BuiltinConstant => {
                    let tt = ctx.token_types.keyword;
                    Self::add_token(ctx, tt, n);
                },
                NodeKind::BoolLiteral => {
                    let tt = ctx.token_types.boolean;
                    Self::add_token(ctx, tt, n);
                },
                NodeKind::Id => {
                    let tt = ctx.token_types.id;
                    Self::add_token(ctx, tt, n);
                },
                NodeKind::Else => {
                    let tt = ctx.token_types.keyword;
                    Self::add_token(ctx, tt, n);
                },
                NodeKind::FlowControl => {
                    let tt = ctx.token_types.keyword;
                    Self::add_token(ctx, tt, n);
                },
                NodeKind::VarDefinition => {
                    if n.children.len() > 0 {
                        proof {
                            assert(i < tree.nodes[i as int].children[0] < tree.nodes.len());
                        }
                        let c = n.children[0];
                        let tt = ctx.token_types.var_scope;
                        Self::add_token(ctx, tt, &tree.nodes[c]);
                    }
                    match tree.child_by_field(i, FieldLabel::FieldConst) {
                        Some(c) => {
                            let tt = ctx.token_types.keyword;
                            Self::add_token(ctx, tt, &tree.nodes[c]);
                        },
                        None => {},
                    }
                },
                NodeKind::FunctionDefinition => {
                    let vis = tree.child_by_field(i, FieldLabel::FieldVisibility);
                    let mut idx_of_func: usize = 0;
                    match vis {
                        Some(v) => {
                            let tt = ctx.token_types.keyword;
                            Self::add_token(ctx, tt, &tree.nodes[v]);
                            idx_of_func = 1;
                        },
                        None => {},
                    }
                    if idx_of_func < n.children.len() {
                        proof {
                            assert(i < tree.nodes[i as int].children[idx_of_func as int]
                                < tree.nodes.len());
                        }
                        let c = n.children[idx_of_func];
                        let tt = ctx.token_types.keyword;
                        Self::add_token(ctx, tt, &tree.nodes[c]);
                    }
                    match tree.child_by_field(i, FieldLabel::FieldName) {
                        Some(c) => {
                            let tt = ctx.token_types.method;
                            Self::add_token(ctx, tt, &tree.nodes[c]);
                        },
                        None => {},
                    }
                },
                NodeKind::MethodCall => {
                    match tree.child_by_field(i, FieldLabel::FieldId) {
                        Some(c) => {
                            let tt = ctx.token_types.id;
                            Self::add_token(ctx, tt, &tree.nodes[c]);
                            match tree.child_by_field(i, FieldLabel::FieldName) {
                                Some(nm) => {
                                    let tt2 = ctx.token_types.method;
                                    Self::add_token(ctx, tt2, &tree.nodes[nm]);
                                    skip = 2;
                                },
                                None => {
                                    skip = 1;
                                },
                            }
                        },
                        None => {
                            match tree.child_by_field(i, FieldLabel::FieldName) {
                                Some(nm) => {
                                    let tt = ctx.token_types.method;
                                    Self::add_token(ctx, tt, &tree.nodes[nm]);
                                },
                                None => {},
                            }
                        },
                    }
                },
                NodeKind::Param => {
                    match tree.child_by_field(i, FieldLabel::FieldType) {
                        Some(c) => {
                            let tt = ctx.token_types.parameter_type;
                            Self::add_token(ctx, tt, &tree.nodes[c]);
                        },
                        None => {},
                    }
                    match tree.child_by_field(i, FieldLabel::FieldName) {
                        Some(c) => {
                            let tt = ctx.token_types.parameter;
                            Self::add_token(ctx, tt, &tree.nodes[c]);
                        },
                        None => {},
                    }
                },
                NodeKind::ForStatement => {
                    proof {
                        assert(n.children.len() > 0);
                        assert(i < tree.nodes[i as int].children[0] < tree.nodes.len());
                    }
                    let c = n.children[0];
                    let tt = ctx.token_types.keyword;
                    Self::add_token(ctx, tt, &tree.nodes[c]);
                },
                NodeKind::WhileStatement => {
                    proof {
                        assert(n.children.len() > 0);
                        assert(i < tree.nodes[i as int].children[0] < tree.nodes.len());
                    }
                    let c = n.children[0];
                    let tt = ctx.token_types.keyword;
                    Self::add_token(ctx, tt, &tree.nodes[c]);
                },
                NodeKind::IfStatement => {
                    proof {
                        assert(n.children.len() > 0);
                        assert(i < tree.nodes[i as int].children[0] < tree.nodes.len());
                    }
                    let c = n.children[0];
                    let tt = ctx.token_types.keyword;
                    Self::add_token(ctx, tt, &tree.nodes[c]);
                },
                NodeKind::ReturnStatement => {
                    proof {
                        assert(n.children.len() > 0);
                        assert(i < tree.nodes[i as int].children[0] < tree.nodes.len());
                    }
                    let c = n.children[0];
                    let tt = ctx.token_types.keyword;
                    Self::add_token(ctx, tt, &tree.nodes[c]);
                },
                _ => {},
            }
        }
        proof {
            assert(ctx_state(*ctx) == own.0);
            assert(skip as int == own.1);
        }

        let mut j: usize = skip;
        while j < tree.nodes[i].children.len()
            invariant
                j >= 0,
                children_enc(tree, i as int, j as int, lut, ctx_state(*ctx)) == target,
                ctx.token_types == lut,
            decreases tree.nodes[i as int].children.len() - j,
        {
            let c = tree.nodes[i].children[j];
            proof {
                assert(i < tree.nodes[i as int].children[j as int] < tree.nodes.len());
                if !node_enc(tree, c as int, lut, ctx_state(*ctx)).ok {
                    lemma_children_enc_absorbs(
                        tree,
                        i as int,
                        j as int + 1,
                        lut,
                        node_enc(tree, c as int, lut, ctx_state(*ctx)),
                    );
                }
            }
            Self::collect_tokens_step(tree, c, ctx);
            j = j + 1;
        }
    }
}

} // verus!
