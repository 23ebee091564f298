//! The arena model of a concrete syntax tree.
//!
//! The external parser exposes nodes with a kind, a named flag, row/column
//! and offset spans, error flags, and children, some of which hang off their
//! parent under a field label. The library holds all of that as plain values:
//! a tree is a vector of nodes, a node points to its children by index, and
//! every child index is strictly greater than its parent's index (the arena
//! is laid out in preorder), which is also what traversal termination rests
//! on.

use vstd::prelude::*;

verus! {

/// A row/column position in a document. Columns count characters.
#[derive(Clone, Copy, Debug, PartialEq, Eq, Structural)]
pub struct Point {
    pub row: u32,
    pub column: u32,
}

/// Lexicographic order on positions: `a` is at or before `b`.
pub open spec fn point_le(a: Point, b: Point) -> bool {
    a.row < b.row || (a.row == b.row && a.column <= b.column)
}

/// Strict lexicographic order on positions.
pub open spec fn point_lt(a: Point, b: Point) -> bool {
    a.row < b.row || (a.row == b.row && a.column < b.column)
}

/// Whether the span of node `n` covers point `p`: at or after the start,
/// strictly before the end.
pub open spec fn covers(n: SyntaxNode, p: Point) -> bool {
    point_le(n.start, p) && point_lt(p, n.end)
}

/// The node kinds the engine dispatches on. Every other kind the grammars
/// produce is carried as `Other`; the engine never inspects those beyond
/// walking into their children.
#[derive(Clone, Copy, Debug, PartialEq, Eq, Structural)]
pub enum NodeKind {
    Comment,
    VarDefinition,
    FunctionDefinition,
    MethodCall,
    StringLiteral,
    PragmaStrict,
    Param,
    AppendTo,
    Include,
    Number,
    Nil,
    BuiltinConstant,
    BoolLiteral,
    Id,
    ForStatement,
    WhileStatement,
    IfStatement,
    Else,
    ReturnStatement,
    FlowControl,
    Identifier,
    SourceFile,
    ParameterList,
    Section,
    SectionName,
    Property,
    Other,
}

/// The field labels under which a node can hang off its parent.
#[derive(Clone, Copy, Debug, PartialEq, Eq, Structural)]
pub enum FieldLabel {
    FieldName,
    FieldType,
    FieldVisibility,
    FieldConst,
    FieldId,
    NoField,
}

/// One node of the arena. `text` is the slice of the source the node spans;
/// `field` is the label under which the node hangs off its parent.
#[derive(Clone, Debug)]
pub struct SyntaxNode {
    pub kind: NodeKind,
    pub named: bool,
    pub is_error: bool,
    pub has_error: bool,
    pub field: FieldLabel,
    pub start: Point,
    pub end: Point,
    pub start_offset: usize,
    pub end_offset: usize,
    pub text: Vec<char>,
    pub children: Vec<usize>,
}

/// A concrete syntax tree as an arena of nodes. The node at index 0 is the
/// root.
#[derive(Clone, Debug)]
pub struct SyntaxTree {
    pub nodes: Vec<SyntaxNode>,
}

impl SyntaxTree {
    /// The arena is nonempty and laid out in preorder: every child index is
    /// in range and strictly greater than its parent's index.
    pub open spec fn wf(&self) -> bool {
        &&& 1 <= self.nodes.len()
        &&& forall|i: int, j: int|
            0 <= i < self.nodes.len() && 0 <= j < self.nodes[i].children.len() ==> i
                < #[trigger] self.nodes[i].children[j] < self.nodes.len()
    }

    pub open spec fn root(&self) -> SyntaxNode {
        self.nodes[0]
    }

    /// The first child of node `i` at position `from` or later that hangs off
    /// `i` under field `f`, if any.
    pub open spec fn first_field_child(&self, i: int, f: FieldLabel, from: int) -> Option<usize>
        decreases self.nodes[i].children.len() - from,
        when 0 <= from
    {
        if from >= self.nodes[i].children.len() {
            None
        } else {
            let c = self.nodes[i].children[from];
            if self.nodes[c as int].field == f {
                Some(c)
            } else {
                self.first_field_child(i, f, from + 1)
            }
        }
    }

    /// The first child of node `i` under field `f`, the way the parser's
    /// field lookup answers it.
    pub open spec fn field_child(&self, i: int, f: FieldLabel) -> Option<usize> {
        self.first_field_child(i, f, 0)
    }

    /// The first child of node `i` at position `from` or later whose span
    /// covers point `p`, if any.
    pub open spec fn first_covering_child(&self, i: int, p: Point, from: int) -> Option<usize>
        decreases self.nodes[i].children.len() - from,
        when 0 <= from
    {
        if from >= self.nodes[i].children.len() {
            None
        } else {
            let c = self.nodes[i].children[from];
            if covers(self.nodes[c as int], p) {
                Some(c)
            } else {
                self.first_covering_child(i, p, from + 1)
            }
        }
    }

    /// Looks up the first child of node `i` whose span covers `p`.
    pub fn child_covering_point(&self, i: usize, p: Point) -> (r: Option<usize>)
        requires
            self.wf(),
            i < self.nodes.len(),
        ensures
            r == self.first_covering_child(i as int, p, 0),
            r matches Some(c) ==> i < c < self.nodes.len(),
    {
        let n = &self.nodes[i];
        let mut j: usize = 0;
        while j < n.children.len()
            invariant
                self.wf(),
                i < self.nodes.len(),
                j <= n.children.len(),
                n == &self.nodes[i as int],
                self.first_covering_child(i as int, p, j as int) == self.first_covering_child(
                    i as int,
                    p,
                    0,
                ),
            decreases n.children.len() - j,
        {
            let c = n.children[j];
            assert(self.nodes[i as int].children[j as int] < self.nodes.len());
            let cn = &self.nodes[c];
            let le_start = cn.start.row < p.row || (cn.start.row == p.row && cn.start.column
                <= p.column);
            let lt_end = p.row < cn.end.row || (p.row == cn.end.row && p.column < cn.end.column);
            if le_start && lt_end {
                return Some(c);
            }
            j = j + 1;
        }
        None
    }

    /// Looks up the first child of node `i` that hangs off it under field
    /// `f`.
    pub fn child_by_field(&self, i: usize, f: FieldLabel) -> (r: Option<usize>)
        requires
            self.wf(),
            i < self.nodes.len(),
        ensures
            r == self.field_child(i as int, f),
            r matches Some(c) ==> i < c < self.nodes.len(),
    {
        let n = &self.nodes[i];
        let mut j: usize = 0;
        while j < n.children.len()
            invariant
                self.wf(),
                i < self.nodes.len(),
                j <= n.children.len(),
                n == &self.nodes[i as int],
                self.first_field_child(i as int, f, j as int) == self.field_child(i as int, f),
                forall|k: int|
                    0 <= k < j ==> self.nodes[#[trigger] n.children[k] as int].field != f,
            decreases n.children.len() - j,
        {
            let c = n.children[j];
            assert(self.nodes[i as int].children[j as int] < self.nodes.len());
            if self.nodes[c].field == f {
                return Some(c);
            }
            j = j + 1;
        }
        None
    }
}

/// A covering child lies behind its parent and inside the arena.
pub proof fn lemma_first_covering_child_bounds(t: &SyntaxTree, i: int, p: Point, from: int)
    requires
        t.wf(),
        0 <= i < t.nodes.len(),
        0 <= from,
    ensures
        t.first_covering_child(i, p, from) matches Some(c) ==> i < c < t.nodes.len(),
    decreases t.nodes[i].children.len() - from,
{
    if from < t.nodes[i].children.len() {
        if !covers(t.nodes[t.nodes[i].children[from] as int], p) {
            lemma_first_covering_child_bounds(t, i, p, from + 1);
        }
    }
}

/// The deepest node reached from `i` by stepping into the first child
/// covering `p` for as long as one exists, together with the parent the last
/// step was taken from.
pub open spec fn descend_to(t: &SyntaxTree, i: int, parent: int, p: Point) -> (usize, usize)
    decreases t.nodes.len() - i,
    when t.wf() && 0 <= i < t.nodes.len() && 0 <= parent
    via descend_to_decreases
{
    match t.first_covering_child(i, p, 0) {
        None => (i as usize, parent as usize),
        Some(c) => descend_to(t, c as int, i, p),
    }
}

#[via_fn]
proof fn descend_to_decreases(t: &SyntaxTree, i: int, parent: int, p: Point) {
    if t.wf() && 0 <= i < t.nodes.len() {
        lemma_first_covering_child_bounds(t, i, p, 0);
    }
}

} // verus!
