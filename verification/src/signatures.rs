//! Function-signature extraction by structural pattern matching.
//!
//! The collector walks the root's direct children; each function definition
//! contributes one signature named by its `name` field. Parameters come from
//! the definition's parameter-list children: a parameter node with one child
//! is an untyped parameter named by that child, one with two children is a
//! typed parameter named by the second; any other shape is skipped without
//! aborting the collection, as is a definition without a name field.

use vstd::prelude::*;
use crate::text::copy_text;
use crate::tree::{FieldLabel, NodeKind, SyntaxTree};

verus! {

/// The value types of the script language, as its documentation names them.
#[derive(Clone, Copy, Debug, PartialEq, Eq, Structural)]
pub enum C4DataType {
    Int,
    Id,
    Bool,
    String,
    Object,
    Array,
    Any,
}

/// The name the script language's documentation uses for each value type.
pub open spec fn moniker_text(t: C4DataType) -> Seq<char> {
    match t {
        C4DataType::Int => "int"@,
        C4DataType::Id => "id"@,
        C4DataType::Bool => "bool"@,
        C4DataType::Any => "any"@,
        C4DataType::Array => "array"@,
        C4DataType::Object => "object"@,
        C4DataType::String => "string"@,
    }
}

impl C4DataType {
    /// The documented name of this value type.
    pub fn moniker(&self) -> (r: &'static str)
        ensures
            r@ == moniker_text(*self),
    {
        match self {
            C4DataType::Int => "int",
            C4DataType::Id => "id",
            C4DataType::Bool => "bool",
            C4DataType::Any => "any",
            C4DataType::Array => "array",
            C4DataType::Object => "object",
            C4DataType::String => "string",
        }
    }
}

/// One function parameter: only the name is extracted.
#[derive(Clone, Debug, PartialEq)]
pub struct Param {
    pub name: Vec<char>,
}

/// One function signature: name and parameters in source order.
#[derive(Clone, Debug, PartialEq)]
pub struct Signature {
    pub name: Vec<char>,
    pub params: Vec<Param>,
}

/// The file a set of signatures was collected from.
#[derive(Clone, Debug, PartialEq)]
pub struct FileId {
    pub path: Vec<char>,
}

impl FileId {
    /// A file identifier for the given path.
    pub fn from_path(s: &Vec<char>) -> (r: FileId)
        ensures
            r.path@ == s@,
    {
        FileId { path: copy_text(s) }
    }
}

/// All signatures of one file.
#[derive(Clone, Debug, PartialEq)]
pub struct FileSignatures {
    pub file_id: FileId,
    pub signatures: Vec<Signature>,
}

/// Why a collection was refused whole.
#[derive(Clone, Copy, Debug, PartialEq, Eq, Structural)]
pub enum SignatureError {
    /// The tree's root is not a source file.
    UnexpectedRootKind,
    /// The root has no children to walk.
    EmptyRoot,
}

/// The mathematical image of a parameter list.
pub open spec fn params_view(s: Seq<Param>) -> Seq<Seq<char>> {
    Seq::new(s.len(), |i: int| s[i].name@)
}

/// The mathematical image of a signature: its name and its parameter names.
pub open spec fn sig_view(s: Signature) -> (Seq<char>, Seq<Seq<char>>) {
    (s.name@, params_view(s.params@))
}

/// The mathematical image of a signature list.
pub open spec fn sigs_view(s: Seq<Signature>) -> Seq<(Seq<char>, Seq<Seq<char>>)> {
    Seq::new(s.len(), |i: int| sig_view(s[i]))
}

/// The name a parameter node yields: its only child's text, or its second
/// child's text when a type child stands before the name; any other shape
/// yields nothing.
pub open spec fn param_name(tree: &SyntaxTree, p: int) -> Option<Seq<char>> {
    let pn = tree.nodes[p];
    if pn.children.len() == 1 {
        Some(tree.nodes[pn.children[0] as int].text@)
    } else if pn.children.len() == 2 {
        Some(tree.nodes[pn.children[1] as int].text@)
    } else {
        None
    }
}

/// The parameter names contributed by the children of parameter list `l`
/// from position `j` on.
pub open spec fn params_in_list(tree: &SyntaxTree, l: int, j: int) -> Seq<Seq<char>>
    decreases tree.nodes[l].children.len() - j,
    when 0 <= j
{
    if j >= tree.nodes[l].children.len() {
        Seq::empty()
    } else {
        let c = tree.nodes[l].children[j] as int;
        (if tree.nodes[c].kind == NodeKind::Param {
            match param_name(tree, c) {
                Some(nm) => seq![nm],
                None => Seq::empty(),
            }
        } else {
            Seq::empty()
        }) + params_in_list(tree, l, j + 1)
    }
}

/// The parameter names of function definition `f`, over its children from
/// position `j` on: every parameter-list child contributes in order.
pub open spec fn fn_params(tree: &SyntaxTree, f: int, j: int) -> Seq<Seq<char>>
    decreases tree.nodes[f].children.len() - j,
    when 0 <= j
{
    if j >= tree.nodes[f].children.len() {
        Seq::empty()
    } else {
        let c = tree.nodes[f].children[j] as int;
        (if tree.nodes[c].kind == NodeKind::ParameterList {
            params_in_list(tree, c, 0)
        } else {
            Seq::empty()
        }) + fn_params(tree, f, j + 1)
    }
}

/// The signatures contributed by the root's children from position `j` on.
pub open spec fn sigs_from(tree: &SyntaxTree, j: int) -> Seq<(Seq<char>, Seq<Seq<char>>)>
    decreases tree.nodes[0].children.len() - j,
    when 0 <= j
{
    if j >= tree.nodes[0].children.len() {
        Seq::empty()
    } else {
        let c = tree.nodes[0].children[j] as int;
        (if tree.nodes[c].kind == NodeKind::FunctionDefinition {
            match tree.field_child(c, FieldLabel::FieldName) {
                Some(nm) => seq![(tree.nodes[nm as int].text@, fn_params(tree, c, 0))],
                None => Seq::empty(),
            }
        } else {
            Seq::empty()
        }) + sigs_from(tree, j + 1)
    }
}

/// Extracts function signatures from a tree by structural pattern matching.
pub struct SignatureCollector;

impl SignatureCollector {
    /// Collects the signatures of every function definition under the root,
    /// in source order, with parameters in source order.
    pub fn collect(file_id: FileId, tree: &SyntaxTree) -> (r: Result<
        FileSignatures,
        SignatureError,
    >)
        requires
            tree.wf(),
        ensures
            tree.root().kind != NodeKind::SourceFile ==> r == Err::<FileSignatures, _>(
                SignatureError::UnexpectedRootKind,
            ),
            tree.root().kind == NodeKind::SourceFile && tree.root().children.len() == 0 ==> r
                == Err::<FileSignatures, _>(SignatureError::EmptyRoot),
            tree.root().kind == NodeKind::SourceFile && tree.root().children.len() > 0 ==> (
            r matches Ok(fs) && fs.file_id == file_id && sigs_view(fs.signatures@) == sigs_from(
                tree,
                0,
            )),
    {
        if !matches!(tree.nodes[0].kind, NodeKind::SourceFile) {
            return Err(SignatureError::UnexpectedRootKind);
        }
        if tree.nodes[0].children.len() == 0 {
            return Err(SignatureError::EmptyRoot);
        }
        let mut signatures: Vec<Signature> = Vec::new();
        let mut j: usize = 0;
        while j < tree.nodes[0].children.len()
            invariant
                tree.wf(),
                sigs_view(signatures@) + sigs_from(tree, j as int) =~= sigs_from(tree, 0),
            decreases tree.nodes[0int].children.len() - j,
        {
            let c = tree.nodes[0].children[j];
            proof {
                assert(0 < tree.nodes[0int].children[j as int] < tree.nodes.len());
            }
            let ghost sigs_before = sigs_view(signatures@);
            if matches!(tree.nodes[c].kind, NodeKind::FunctionDefinition) {
                match tree.child_by_field(c, FieldLabel::FieldName) {
                    Some(nm) => {
                        let mut sig = Signature {
                            name: copy_text(&tree.nodes[nm].text),
                            params: Vec::new(),
                        };
                        let mut fj: usize = 0;
                        while fj < tree.nodes[c].children.len()
                            invariant
                                tree.wf(),
                                c < tree.nodes.len(),
                                sig.name@ == tree.nodes[nm as int].text@,
                                params_view(sig.params@) + fn_params(tree, c as int, fj as int)
                                    =~= fn_params(tree, c as int, 0),
                            decreases tree.nodes[c as int].children.len() - fj,
                        {
                            let l = tree.nodes[c].children[fj];
                            proof {
                                assert(c < tree.nodes[c as int].children[fj as int]
                                    < tree.nodes.len());
                            }
                            if matches!(tree.nodes[l].kind, NodeKind::ParameterList) {
                                let mut lj: usize = 0;
                                while lj < tree.nodes[l].children.len()
                                    invariant
                                        tree.wf(),
                                        l < tree.nodes.len(),
                                        sig.name@ == tree.nodes[nm as int].text@,
                                        params_view(sig.params@) + params_in_list(
                                            tree,
                                            l as int,
                                            lj as int,
                                        ) + fn_params(tree, c as int, fj as int + 1) =~= fn_params(
                                            tree,
                                            c as int,
                                            0,
                                        ),
                                    decreases tree.nodes[l as int].children.len() - lj,
                                {
                                    let p = tree.nodes[l].children[lj];
                                    proof {
                                        assert(l < tree.nodes[l as int].children[lj as int]
                                            < tree.nodes.len());
                                    }
                                    let ghost params_before = params_view(sig.params@);
                                    if matches!(tree.nodes[p].kind, NodeKind::Param) {
                                        if tree.nodes[p].children.len() == 1 {
                                            let nb = tree.nodes[p].children[0];
                                            proof {
                                                assert(p < tree.nodes[p as int].children[0int]
                                                    < tree.nodes.len());
                                            }
                                            sig.params.push(
                                                Param { name: copy_text(&tree.nodes[nb].text) },
                                            );
                                            proof {
                                                assert(params_view(sig.params@)
                                                    =~= params_before.push(
                                                    tree.nodes[nb as int].text@,
                                                ));
                                            }
                                        } else if tree.nodes[p].children.len() == 2 {
                                            let nb = tree.nodes[p].children[1];
                                            proof {
                                                assert(p < tree.nodes[p as int].children[1int]
                                                    < tree.nodes.len());
                                            }
                                            sig.params.push(
                                                Param { name: copy_text(&tree.nodes[nb].text) },
                                            );
                                            proof {
                                                assert(params_view(sig.params@)
                                                    =~= params_before.push(
                                                    tree.nodes[nb as int].text@,
                                                ));
                                            }
                                        }
                                    }
                                    lj = lj + 1;
                                }
                            }
                            fj = fj + 1;
                        }
                        signatures.push(sig);
                        proof {
                            assert(sigs_view(signatures@) =~= sigs_before.push(
                                (tree.nodes[nm as int].text@, fn_params(tree, c as int, 0)),
                            ));
                        }
                    },
                    None => {},
                }
            }
            j = j + 1;
        }
        proof {
            assert(sigs_view(signatures@) =~= sigs_from(tree, 0));
        }
        Ok(FileSignatures { file_id, signatures })
    }
}

} // verus!
