//! Documents: the type tag a file's name resolves to, the point-to-node
//! resolver with its classification heuristic, and the whole-document edit
//! descriptor handed to the external re-parser.

use vstd::prelude::*;
use crate::text::{chars_of, copy_range, copy_text, text_eq};
use crate::tree::{descend_to, NodeKind, Point, SyntaxNode, SyntaxTree};

verus! {

/// What the resolver classified the node under the cursor as.
#[derive(Clone, Debug, PartialEq)]
pub enum QueryableItem {
    Function(Vec<char>),
    Constant(Vec<char>),
    Unused,
}

/// The two document types the engine analyses.
#[derive(Clone, Copy, Debug, PartialEq, Eq, Structural)]
pub enum DocType {
    Script,
    ScenarioTxt,
}

/// Why a file name resolved to no document type.
#[derive(Clone, Copy, Debug, PartialEq, Eq, Structural)]
pub enum DocTypeError {
    /// The extension was recognized but the file name is not the one known
    /// configuration file.
    UnknownTxtFileName,
    /// The extension belongs to no supported document type.
    UnrecognizedExtension,
}

/// The index of the last `sep` in `s`, or -1 when none occurs.
pub open spec fn last_sep(s: Seq<char>, sep: char) -> int
    decreases s.len(),
{
    if s.len() == 0 {
        -1
    } else if s.last() == sep {
        s.len() - 1
    } else {
        last_sep(s.drop_last(), sep)
    }
}

/// Finds the last `sep` in `v`, if any.
pub fn rfind_char(v: &Vec<char>, sep: char) -> (r: Option<usize>)
    ensures
        match r {
            Some(k) => k == last_sep(v@, sep),
            None => last_sep(v@, sep) == -1,
        },
{
    let mut i: usize = v.len();
    proof {
        assert(v@.take(v@.len() as int) =~= v@);
    }
    while i > 0
        invariant
            i <= v.len(),
            last_sep(v@, sep) == last_sep(v@.take(i as int), sep),
        decreases i,
    {
        i = i - 1;
        proof {
            assert(v@.take(i as int + 1).drop_last() =~= v@.take(i as int));
            assert(v@.take(i as int + 1).last() == v@[i as int]);
        }
        if v[i] == sep {
            return Some(i);
        }
    }
    proof {
        assert(v@.take(0) =~= Seq::<char>::empty());
    }
    None
}

/// The file name of a path: everything behind the last slash, or the whole
/// path when it has none.
pub open spec fn file_segment(path: Seq<char>) -> Seq<char> {
    path.subrange(last_sep(path, '/') + 1, path.len() as int)
}

/// The extension of a file name: everything behind the last dot, or the
/// whole name when it has none.
pub open spec fn extension_of(seg: Seq<char>) -> Seq<char> {
    seg.subrange(last_sep(seg, '.') + 1, seg.len() as int)
}

/// The document type a path resolves to: extension `c` is a script;
/// extension `txt` is the scenario configuration when the file name is
/// exactly `Scenario.txt`; everything else is refused.
pub open spec fn doc_type_of(path: Seq<char>) -> Result<DocType, DocTypeError> {
    let seg = file_segment(path);
    let ext = extension_of(seg);
    if ext == "c"@ {
        Ok(DocType::Script)
    } else if ext == "txt"@ {
        if seg == "Scenario.txt"@ {
            Ok(DocType::ScenarioTxt)
        } else {
            Err(DocTypeError::UnknownTxtFileName)
        }
    } else {
        Err(DocTypeError::UnrecognizedExtension)
    }
}

/// The last `sep` of `s` lies in front of `s`'s length.
proof fn lemma_last_sep_bounds(s: Seq<char>, sep: char)
    ensures
        -1 <= last_sep(s, sep) < s.len(),
    decreases s.len(),
{
    if s.len() > 0 && s.last() != sep {
        lemma_last_sep_bounds(s.drop_last(), sep);
    }
}

impl DocType {
    /// Resolves the document type of a file by its path.
    pub fn from_uri(path: &Vec<char>) -> (r: Result<DocType, DocTypeError>)
        ensures
            r == doc_type_of(path@),
    {
        proof {
            lemma_last_sep_bounds(path@, '/');
        }
        let seg_start: usize = match rfind_char(path, '/') {
            Some(k) => k + 1,
            None => 0,
        };
        let seg = copy_range(path, seg_start, path.len());
        proof {
            lemma_last_sep_bounds(seg@, '.');
        }
        let ext_start: usize = match rfind_char(&seg, '.') {
            Some(k) => k + 1,
            None => 0,
        };
        let ext = copy_range(&seg, ext_start, seg.len());
        let n_c = chars_of("c");
        let n_txt = chars_of("txt");
        let n_scenario = chars_of("Scenario.txt");
        if text_eq(&ext, &n_c) {
            Ok(DocType::Script)
        } else if text_eq(&ext, &n_txt) {
            if text_eq(&seg, &n_scenario) {
                Ok(DocType::ScenarioTxt)
            } else {
                Err(DocTypeError::UnknownTxtFileName)
            }
        } else {
            Err(DocTypeError::UnrecognizedExtension)
        }
    }
}

/// The whole-document edit descriptor handed to the external re-parser: the
/// previous tree's root range stands as the replaced region, the new text's
/// size as the new end.
#[derive(Clone, Copy, Debug, PartialEq, Eq, Structural)]
pub struct EditDescriptor {
    pub start_offset: usize,
    pub old_end_offset: usize,
    pub new_end_offset: usize,
    pub start_point: Point,
    pub old_end_point: Point,
    pub new_end_point: Point,
}

/// How many times `c` occurs in `s`.
pub open spec fn count_char(s: Seq<char>, c: char) -> int
    decreases s.len(),
{
    if s.len() == 0 {
        0
    } else {
        count_char(s.drop_last(), c) + if s.last() == c {
            1int
        } else {
            0int
        }
    }
}

/// The new end position of a replacement text: its line-feed count as the
/// row, and the count of characters behind the last line feed as the column
/// — zero when the text has no line feed at all.
pub open spec fn new_end_point_of(new_text: Seq<char>) -> Point {
    Point {
        row: count_char(new_text, '\n') as u32,
        column: (if last_sep(new_text, '\n') == -1 {
            0
        } else {
            new_text.len() - 1 - last_sep(new_text, '\n')
        }) as u32,
    }
}

/// The edit descriptor for replacing the document behind `root` whole with
/// `new_text`.
pub open spec fn edit_descriptor_for(root: SyntaxNode, new_text: Seq<char>) -> EditDescriptor {
    EditDescriptor {
        start_offset: root.start_offset,
        old_end_offset: root.end_offset,
        new_end_offset: new_text.len() as usize,
        start_point: (Point { row: 0, column: 0 }),
        old_end_point: root.end,
        new_end_point: new_end_point_of(new_text),
    }
}

/// Counts how many times `c` occurs in `v`.
pub fn count_char_in(v: &Vec<char>, c: char) -> (r: usize)
    ensures
        r == count_char(v@, c),
{
    let mut r: usize = 0;
    let mut i: usize = 0;
    while i < v.len()
        invariant
            i <= v.len(),
            r == count_char(v@.take(i as int), c),
            r <= i,
        decreases v.len() - i,
    {
        proof {
            assert(v@.take(i as int + 1).drop_last() =~= v@.take(i as int));
            assert(v@.take(i as int + 1).last() == v@[i as int]);
        }
        if v[i] == c {
            r = r + 1;
        }
        i = i + 1;
    }
    proof {
        assert(v@.take(v@.len() as int) =~= v@);
    }
    r
}

/// Computes the whole-document edit descriptor for replacing the document
/// behind `root` with `new_text`.
pub fn compute_edit_descriptor(root: &SyntaxNode, new_text: &Vec<char>) -> (r: EditDescriptor)
    ensures
        r == edit_descriptor_for(*root, new_text@),
{
    let rows = count_char_in(new_text, '\n');
    proof {
        lemma_last_sep_bounds(new_text@, '\n');
    }
    let column: usize = match rfind_char(new_text, '\n') {
        Some(k) => new_text.len() - 1 - k,
        None => 0,
    };
    EditDescriptor {
        start_offset: root.start_offset,
        old_end_offset: root.end_offset,
        new_end_offset: new_text.len(),
        start_point: (Point { row: 0, column: 0 }),
        old_end_point: root.end,
        new_end_point: (Point { row: rows as u32, column: column as u32 }),
    }
}

/// One open document: its identity, its tree, the source the tree was
/// parsed from, and its type tag. Tree and source are only ever replaced
/// together.
#[derive(Clone, Debug)]
pub struct Document {
    pub url: Vec<char>,
    pub tree: SyntaxTree,
    pub source: Vec<char>,
    pub doc_type: DocType,
}

/// What the resolver classifies the node under a point as: a function
/// reference when the resolved node's parent is a function definition, a
/// constant reference when the node itself is an identifier, and nothing
/// otherwise. The answer carries the node's text; no answer comes when no
/// child of the root covers the point.
pub open spec fn item_at(tree: &SyntaxTree, p: Point) -> Option<(bool, Seq<char>)> {
    match tree.first_covering_child(0, p, 0) {
        None => None,
        Some(c) => {
            let d = descend_to(tree, c as int, 0, p);
            let node = tree.nodes[d.0 as int];
            let parent = tree.nodes[d.1 as int];
            if parent.kind == NodeKind::FunctionDefinition {
                Some((true, node.text@))
            } else if node.kind == NodeKind::Identifier {
                Some((false, node.text@))
            } else {
                None
            }
        },
    }
}

impl Document {
    /// A document over a freshly parsed tree.
    pub fn new(url: Vec<char>, tree: SyntaxTree, source: Vec<char>, doc_type: DocType) -> (r:
        Document)
        ensures
            r.url == url,
            r.tree == tree,
            r.source == source,
            r.doc_type == doc_type,
    {
        Document { url, tree, source, doc_type }
    }

    /// The deepest node covering `pos`, found by stepping into the first
    /// covering child for as long as one exists — the root itself when no
    /// child of the root ever covers the point.
    pub fn get_node_at_pos(&self, pos: Point) -> (r: Option<usize>)
        requires
            self.tree.wf(),
        ensures
            r matches Some(x) && x == descend_to(&self.tree, 0, 0, pos).0 && x
                < self.tree.nodes.len(),
    {
        let d = self.resolve_from(0, pos);
        Some(d.0)
    }

    /// Steps from node `c` into the first covering child for as long as one
    /// exists; answers the node reached and the parent the last step came
    /// from.
    fn resolve_from(&self, c: usize, pos: Point) -> (r: (usize, usize))
        requires
            self.tree.wf(),
            c < self.tree.nodes.len(),
        ensures
            r == descend_to(&self.tree, c as int, 0, pos),
            r.0 < self.tree.nodes.len(),
            r.1 < self.tree.nodes.len(),
    {
        let mut i: usize = c;
        let mut parent: usize = 0;
        loop
            invariant_except_break
                self.tree.wf(),
                i < self.tree.nodes.len(),
                parent < self.tree.nodes.len(),
                descend_to(&self.tree, i as int, parent as int, pos) == descend_to(
                    &self.tree,
                    c as int,
                    0,
                    pos,
                ),
            ensures
                (i, parent) == descend_to(&self.tree, c as int, 0, pos),
                i < self.tree.nodes.len(),
                parent < self.tree.nodes.len(),
            decreases self.tree.nodes.len() - i,
        {
            match self.tree.child_covering_point(i, pos) {
                None => {
                    break ;
                },
                Some(c2) => {
                    parent = i;
                    i = c2;
                },
            }
        }
        (i, parent)
    }

    /// Classifies the node under `pos`: a function reference when its
    /// parent is a function definition, else a constant reference when the
    /// node itself is an identifier, else nothing. The parent-kind test is
    /// the documented policy, structural context standing in for a symbol
    /// table.
    pub fn get_item_at_pos(&self, pos: Point) -> (r: Option<QueryableItem>)
        requires
            self.tree.wf(),
        ensures
            match r {
                None => item_at(&self.tree, pos) is None,
                Some(q) => match q {
                    QueryableItem::Function(t) => item_at(&self.tree, pos) == Some(
                        (true, t@),
                    ),
                    QueryableItem::Constant(t) => item_at(&self.tree, pos) == Some(
                        (false, t@),
                    ),
                    QueryableItem::Unused => false,
                },
            },
    {
        match self.tree.child_covering_point(0, pos) {
            None => None,
            Some(c) => {
                let d = self.resolve_from(c, pos);
                let node = d.0;
                let parent = d.1;
                let text = copy_text(&self.tree.nodes[node].text);
                if matches!(self.tree.nodes[parent].kind, NodeKind::FunctionDefinition) {
                    Some(QueryableItem::Function(text))
                } else if matches!(self.tree.nodes[node].kind, NodeKind::Identifier) {
                    Some(QueryableItem::Constant(text))
                } else {
                    None
                }
            },
        }
    }
}

} // verus!
