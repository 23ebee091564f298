//! Syntax-error diagnostics.
//!
//! The collector walks only into subtrees that report an error: a node
//! flagged as an error yields one diagnostic and ends the walk over its
//! remaining right siblings; a node that only carries an error somewhere
//! below is descended into, or yields a fallback diagnostic when it has no
//! children to descend into; an error-free node is skipped whole.

use vstd::prelude::*;
use crate::text::chars_of;
use crate::tree::{Point, SyntaxTree};

verus! {

/// One syntax-error diagnostic: the flagged span and its message.
#[derive(Clone, Debug, PartialEq)]
pub struct SyntaxError {
    pub start: Point,
    pub end: Point,
    pub message: Vec<char>,
}

/// The message on a span the parser flagged as an error.
pub open spec fn error_message() -> Seq<char> {
    "Syntax error"@
}

/// The message on a childless span that only reports an error below itself.
pub open spec fn fallback_message() -> Seq<char> {
    "Syntax error somewhere here"@
}

/// The mathematical image of one diagnostic.
pub open spec fn err_view(e: SyntaxError) -> (Point, Point, Seq<char>) {
    (e.start, e.end, e.message@)
}

/// The mathematical image of a diagnostic list.
pub open spec fn errs_view(s: Seq<SyntaxError>) -> Seq<(Point, Point, Seq<char>)> {
    Seq::new(s.len(), |i: int| err_view(s[i]))
}

/// The diagnostics contributed by node `i` and its subtree, when the walk
/// reaches it.
pub open spec fn node_errors(tree: &SyntaxTree, i: int) -> Seq<(Point, Point, Seq<char>)>
    decreases tree.nodes.len() - i, 1int, 0int,
    when tree.wf() && 0 <= i < tree.nodes.len()
{
    let n = tree.nodes[i];
    if n.is_error {
        seq![(n.start, n.end, error_message())]
    } else if n.has_error {
        if n.children.len() > 0 {
            children_errors(tree, i, 0)
        } else {
            seq![(n.start, n.end, fallback_message())]
        }
    } else {
        Seq::empty()
    }
}

/// The diagnostics of node `i`'s children from position `j` on; an error
/// child ends the walk over the children behind it.
pub open spec fn children_errors(tree: &SyntaxTree, i: int, j: int) -> Seq<
    (Point, Point, Seq<char>),
>
    decreases tree.nodes.len() - i, 0int, tree.nodes[i].children.len() - j,
    when tree.wf() && 0 <= i < tree.nodes.len() && 0 <= j
{
    if j >= tree.nodes[i].children.len() {
        Seq::empty()
    } else {
        let c = tree.nodes[i].children[j] as int;
        node_errors(tree, c) + if tree.nodes[c].is_error {
            Seq::empty()
        } else {
            children_errors(tree, i, j + 1)
        }
    }
}

/// A tree without error nodes — no node flagged as an error and none
/// reporting an error in its subtree — yields no diagnostics.
pub proof fn lemma_error_free_tree_yields_nothing(tree: &SyntaxTree)
    requires
        tree.wf(),
        forall|i: int|
            0 <= i < tree.nodes.len() ==> !(#[trigger] tree.nodes[i]).is_error
                && !tree.nodes[i].has_error,
    ensures
        node_errors(tree, 0) == Seq::<(Point, Point, Seq<char>)>::empty(),
{
    assert(!tree.nodes[0].is_error);
}

/// Error flags as the parser maintains them: a node reports an error
/// exactly when it is flagged as one or one of its children reports one.
pub open spec fn error_flags_consistent(tree: &SyntaxTree) -> bool {
    forall|i: int|
        0 <= i < tree.nodes.len() ==> ((#[trigger] tree.nodes[i]).has_error <==> (
        tree.nodes[i].is_error || exists|j: int|
            0 <= j < tree.nodes[i].children.len() && tree.nodes[
                #[trigger] tree.nodes[i].children[j] as int
            ].has_error))
}

/// A node that reports an error contributes at least one diagnostic.
proof fn lemma_node_errors_nonempty(tree: &SyntaxTree, i: int)
    requires
        tree.wf(),
        error_flags_consistent(tree),
        0 <= i < tree.nodes.len(),
        tree.nodes[i].has_error,
    ensures
        node_errors(tree, i).len() > 0,
    decreases tree.nodes.len() - i, 1int, 0int,
{
    let n = tree.nodes[i];
    if !n.is_error && n.children.len() > 0 {
        let j = choose|j: int|
            0 <= j < n.children.len() && tree.nodes[n.children[j] as int].has_error;
        lemma_children_errors_nonempty(tree, i, 0, j);
    }
}

/// A child walk that still has an error-reporting child in front of it
/// contributes at least one diagnostic.
proof fn lemma_children_errors_nonempty(tree: &SyntaxTree, i: int, p: int, j: int)
    requires
        tree.wf(),
        error_flags_consistent(tree),
        0 <= i < tree.nodes.len(),
        0 <= p <= j < tree.nodes[i].children.len(),
        tree.nodes[tree.nodes[i].children[j] as int].has_error,
    ensures
        children_errors(tree, i, p).len() > 0,
    decreases tree.nodes.len() - i, 0int, tree.nodes[i].children.len() - p,
{
    let c = tree.nodes[i].children[p] as int;
    assert(i < c < tree.nodes.len());
    if tree.nodes[c].has_error {
        lemma_node_errors_nonempty(tree, c);
    } else {
        assert(!tree.nodes[c].is_error);
        assert(p < j);
        lemma_children_errors_nonempty(tree, i, p + 1, j);
    }
}

/// On a tree whose error flags are consistent, the collector's answer is
/// empty exactly when the root reports no error — that is, exactly when the
/// tree has no error node at all.
pub proof fn lemma_diagnostics_empty_iff_root_error(tree: &SyntaxTree)
    requires
        tree.wf(),
        error_flags_consistent(tree),
    ensures
        node_errors(tree, 0).len() == 0 <==> !tree.nodes[0].has_error,
{
    if tree.nodes[0].has_error {
        lemma_node_errors_nonempty(tree, 0);
    } else {
        assert(!tree.nodes[0].is_error);
    }
}

/// Collects the syntax-error diagnostics of a tree.
pub fn collect_errors(tree: &SyntaxTree) -> (r: Vec<SyntaxError>)
    requires
        tree.wf(),
    ensures
        errs_view(r@) == node_errors(tree, 0),
{
    let mut errs: Vec<SyntaxError> = Vec::new();
    collect_errors_step(tree, 0, &mut errs);
    proof {
        assert(errs_view(Seq::<SyntaxError>::empty()) + node_errors(tree, 0) =~= node_errors(
            tree,
            0,
        ));
    }
    errs
}

/// Walks node `i`, appending its subtree's diagnostics.
fn collect_errors_step(tree: &SyntaxTree, i: usize, errs: &mut Vec<SyntaxError>)
    requires
        tree.wf(),
        i < tree.nodes.len(),
    ensures
        errs_view(final(errs)@) == errs_view(old(errs)@) + node_errors(tree, i as int),
    decreases tree.nodes.len() - i,
{
    let ghost base = errs_view(old(errs)@);
    let n = &tree.nodes[i];
    if n.is_error {
        let e = SyntaxError { start: n.start, end: n.end, message: chars_of("Syntax error") };
        errs.push(e);
        proof {
            assert(errs_view(errs@) =~= base + node_errors(tree, i as int));
        }
    } else if n.has_error {
        if n.children.len() > 0 {
            let mut j: usize = 0;
            loop
                invariant_except_break
                    tree.wf(),
                    i < tree.nodes.len(),
                    j < tree.nodes[i as int].children.len(),
                    base + children_errors(tree, i as int, 0) =~= errs_view(errs@)
                        + children_errors(tree, i as int, j as int),
                ensures
                    errs_view(errs@) == base + children_errors(tree, i as int, 0),
                decreases tree.nodes[i as int].children.len() - j,
            {
                let c = tree.nodes[i].children[j];
                proof {
                    assert(i < tree.nodes[i as int].children[j as int] < tree.nodes.len());
                }
                let ghost before = errs_view(errs@);
                collect_errors_step(tree, c, errs);
                if tree.nodes[c].is_error {
                    proof {
                        assert(node_errors(tree, c as int) + Seq::<
                            (Point, Point, Seq<char>),
                        >::empty() =~= node_errors(tree, c as int));
                        assert(before + node_errors(tree, c as int) =~= errs_view(errs@));
                        assert(errs_view(errs@) =~= base + children_errors(tree, i as int, 0));
                    }
                    break ;
                }
                proof {
                    assert(before + node_errors(tree, c as int) =~= errs_view(errs@));
                    assert(base + children_errors(tree, i as int, 0) =~= errs_view(errs@)
                        + children_errors(tree, i as int, j as int + 1));
                }
                j = j + 1;
                if j >= tree.nodes[i].children.len() {
                    proof {
                        assert(children_errors(tree, i as int, j as int) =~= Seq::<
                            (Point, Point, Seq<char>),
                        >::empty());
                        assert(errs_view(errs@) =~= base + children_errors(tree, i as int, 0));
                    }
                    break ;
                }
            }
        } else {
            let e = SyntaxError {
                start: n.start,
                end: n.end,
                message: chars_of("Syntax error somewhere here"),
            };
            errs.push(e);
            proof {
                assert(errs_view(errs@) =~= base + node_errors(tree, i as int));
            }
        }
    } else {
        proof {
            assert(errs_view(errs@) =~= base + node_errors(tree, i as int));
        }
    }
}

} // verus!
