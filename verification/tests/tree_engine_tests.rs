//! Tests over hand-built syntax-tree arenas: script token collection,
//! error collection, signature extraction, and the position resolver.

#![allow(dead_code)]

use legacy_clonk_ls::analyze::collect_errors;
use legacy_clonk_ls::doc::{DocType, Document, QueryableItem};
use legacy_clonk_ls::highlighting::Highlighter;
use legacy_clonk_ls::signatures::{FileId, SignatureCollector, SignatureError};
use legacy_clonk_ls::token_types::{SemanticToken, TokenTypes};
use legacy_clonk_ls::tree::{FieldLabel, NodeKind, Point, SyntaxNode, SyntaxTree};

fn text(s: &str) -> Vec<char> {
    s.chars().collect()
}

fn node(
    kind: NodeKind,
    named: bool,
    field: FieldLabel,
    start: (u32, u32),
    end: (u32, u32),
    t: &str,
    children: Vec<usize>,
) -> SyntaxNode {
    SyntaxNode {
        kind,
        named,
        is_error: false,
        has_error: false,
        field,
        start: Point { row: start.0, column: start.1 },
        end: Point { row: end.0, column: end.1 },
        start_offset: 0,
        end_offset: 0,
        text: text(t),
        children,
    }
}

fn lut() -> TokenTypes {
    TokenTypes {
        comment: 0,
        string: 1,
        number: 2,
        pragma_strict: 3,
        appendto: 3,
        id: 9,
        var_scope: 4,
        nil: 4,
        keyword: 4,
        parameter: 6,
        method: 7,
        parameter_type: 8,
        boolean: 10,
        operator: 0,
    }
}

/// The tree the parser yields for `func GetX() { Explode(100); }`.
fn get_x_tree() -> SyntaxTree {
    let nodes = vec![
        node(NodeKind::SourceFile, true, FieldLabel::NoField, (0, 0), (0, 29), "func GetX() { Explode(100); }", vec![1]),
        node(NodeKind::FunctionDefinition, true, FieldLabel::NoField, (0, 0), (0, 29), "func GetX() { Explode(100); }", vec![2, 3, 4, 5]),
        node(NodeKind::Other, false, FieldLabel::NoField, (0, 0), (0, 4), "func", vec![]),
        node(NodeKind::Identifier, true, FieldLabel::FieldName, (0, 5), (0, 9), "GetX", vec![]),
        node(NodeKind::ParameterList, true, FieldLabel::NoField, (0, 9), (0, 11), "()", vec![]),
        node(NodeKind::Other, true, FieldLabel::NoField, (0, 12), (0, 29), "{ Explode(100); }", vec![6]),
        node(NodeKind::MethodCall, true, FieldLabel::NoField, (0, 14), (0, 26), "Explode(100)", vec![7, 8]),
        node(NodeKind::Identifier, true, FieldLabel::FieldName, (0, 14), (0, 21), "Explode", vec![]),
        node(NodeKind::Other, true, FieldLabel::NoField, (0, 21), (0, 26), "(100)", vec![9]),
        node(NodeKind::Number, true, FieldLabel::NoField, (0, 22), (0, 25), "100", vec![]),
    ];
    SyntaxTree { nodes }
}

/// The tree the parser yields for `func GetX(int a, b) { }`.
fn get_x_params_tree() -> SyntaxTree {
    let nodes = vec![
        node(NodeKind::SourceFile, true, FieldLabel::NoField, (0, 0), (0, 23), "func GetX(int a, b) { }", vec![1]),
        node(NodeKind::FunctionDefinition, true, FieldLabel::NoField, (0, 0), (0, 23), "func GetX(int a, b) { }", vec![2, 3, 4, 9]),
        node(NodeKind::Other, false, FieldLabel::NoField, (0, 0), (0, 4), "func", vec![]),
        node(NodeKind::Identifier, true, FieldLabel::FieldName, (0, 5), (0, 9), "GetX", vec![]),
        node(NodeKind::ParameterList, true, FieldLabel::NoField, (0, 9), (0, 19), "(int a, b)", vec![5, 8]),
        // 5: typed parameter `int a`
        node(NodeKind::Param, true, FieldLabel::NoField, (0, 10), (0, 15), "int a", vec![6, 7]),
        node(NodeKind::Other, true, FieldLabel::FieldType, (0, 10), (0, 13), "int", vec![]),
        node(NodeKind::Identifier, true, FieldLabel::FieldName, (0, 14), (0, 15), "a", vec![]),
        // 8: untyped parameter `b`
        node(NodeKind::Param, true, FieldLabel::NoField, (0, 17), (0, 18), "b", vec![10]),
        node(NodeKind::Other, true, FieldLabel::NoField, (0, 20), (0, 23), "{ }", vec![]),
        node(NodeKind::Identifier, true, FieldLabel::FieldName, (0, 17), (0, 18), "b", vec![]),
    ];
    SyntaxTree { nodes }
}

/// The tree the parser yields for `func GetX() { CLNK::Explode(); }`: a
/// method call on an id.
fn clnk_tree() -> SyntaxTree {
    let nodes = vec![
        node(NodeKind::SourceFile, true, FieldLabel::NoField, (0, 0), (0, 32), "func GetX() { CLNK::Explode(); }", vec![1]),
        node(NodeKind::FunctionDefinition, true, FieldLabel::NoField, (0, 0), (0, 32), "func GetX() { CLNK::Explode(); }", vec![2, 3, 4, 5]),
        node(NodeKind::Other, false, FieldLabel::NoField, (0, 0), (0, 4), "func", vec![]),
        node(NodeKind::Identifier, true, FieldLabel::FieldName, (0, 5), (0, 9), "GetX", vec![]),
        node(NodeKind::ParameterList, true, FieldLabel::NoField, (0, 9), (0, 11), "()", vec![]),
        node(NodeKind::Other, true, FieldLabel::NoField, (0, 12), (0, 32), "{ CLNK::Explode(); }", vec![6]),
        // 6: method call on an id
        node(NodeKind::MethodCall, true, FieldLabel::NoField, (0, 14), (0, 29), "CLNK::Explode()", vec![7, 8, 9, 10]),
        node(NodeKind::Id, true, FieldLabel::FieldId, (0, 14), (0, 18), "CLNK", vec![]),
        node(NodeKind::Other, false, FieldLabel::NoField, (0, 18), (0, 20), "::", vec![]),
        node(NodeKind::Identifier, true, FieldLabel::FieldName, (0, 20), (0, 27), "Explode", vec![]),
        node(NodeKind::Other, true, FieldLabel::NoField, (0, 27), (0, 29), "()", vec![]),
    ];
    SyntaxTree { nodes }
}

fn decode_positions(tokens: &[SemanticToken]) -> Vec<(u64, u64)> {
    let mut line: u64 = 0;
    let mut col: u64 = 0;
    let mut out = vec![];
    for t in tokens {
        if t.delta_line > 0 {
            line += t.delta_line as u64;
            col = t.delta_start as u64;
        } else {
            col += t.delta_start as u64;
        }
        out.push((line, col));
    }
    out
}

#[test]
fn highlighting_should_have_token_for_comment() {
    let tree = SyntaxTree {
        nodes: vec![
            node(NodeKind::SourceFile, true, FieldLabel::NoField, (0, 0), (0, 9), "//comment", vec![1]),
            node(NodeKind::Comment, true, FieldLabel::NoField, (0, 0), (0, 9), "//comment", vec![]),
        ],
    };
    let tokens = Highlighter::collect_tokens(&tree, TokenTypes::default());
    assert!(tokens.len() > 0);
    assert_eq!(tokens[0].delta_line, 0);
    assert_eq!(tokens[0].delta_start, 0);
    assert_eq!(tokens[0].length, 9);
}

#[test]
fn highlighting_should_not_crash() {
    let tree = get_x_tree();
    let tokens = Highlighter::collect_tokens(&tree, TokenTypes::default());
    assert!(tokens.len() > 0);
}

#[test]
fn highlighting_should_not_crash_for_method_call_on_id() {
    let tree = clnk_tree();
    let tokens = Highlighter::collect_tokens(&tree, TokenTypes::default());
    assert!(tokens.len() > 0);
}

#[test]
fn highlighting_should_not_crash_for_incomplete_method_call_on_id() {
    // A multi-line script with a comment, a pragma and a call on an id.
    let tree = SyntaxTree {
        nodes: vec![
            node(NodeKind::SourceFile, true, FieldLabel::NoField, (0, 0), (4, 1), "", vec![1, 2, 3]),
            node(NodeKind::Comment, true, FieldLabel::NoField, (0, 0), (0, 24), "/*-- Feurige Himmel --*/", vec![]),
            node(NodeKind::PragmaStrict, true, FieldLabel::NoField, (2, 0), (2, 7), "#strict", vec![]),
            node(NodeKind::FunctionDefinition, true, FieldLabel::NoField, (4, 0), (4, 40), "", vec![4, 5, 6]),
            node(NodeKind::Other, false, FieldLabel::NoField, (4, 0), (4, 4), "func", vec![]),
            node(NodeKind::Identifier, true, FieldLabel::FieldName, (4, 5), (4, 15), "Initialize", vec![]),
            node(NodeKind::MethodCall, true, FieldLabel::NoField, (4, 20), (4, 35), "CLNK::DoStuff()", vec![7]),
            node(NodeKind::Id, true, FieldLabel::FieldId, (4, 20), (4, 24), "CLNK", vec![]),
        ],
    };
    let tokens = Highlighter::collect_tokens(&tree, TokenTypes::default());
    assert!(tokens.len() > 0);
}

#[test]
fn script_tokens_are_exact_for_get_x() {
    let tree = get_x_tree();
    let tokens = Highlighter::collect_tokens(&tree, lut());
    // keyword `func`, method `GetX`, method `Explode`, number `100`
    let expected = vec![
        SemanticToken { delta_line: 0, delta_start: 0, length: 4, token_type: 4, token_modifiers_bitset: 0 },
        SemanticToken { delta_line: 0, delta_start: 5, length: 4, token_type: 7, token_modifiers_bitset: 0 },
        SemanticToken { delta_line: 0, delta_start: 9, length: 7, token_type: 7, token_modifiers_bitset: 0 },
        SemanticToken { delta_line: 0, delta_start: 8, length: 3, token_type: 2, token_modifiers_bitset: 0 },
    ];
    assert_eq!(tokens, expected);
}

#[test]
fn script_tokens_for_id_call_skip_the_callee_subtree() {
    let tree = clnk_tree();
    let tokens = Highlighter::collect_tokens(&tree, lut());
    // keyword `func`, method `GetX`, id `CLNK`, method `Explode` — and no
    // second token for the callee.
    assert_eq!(tokens.len(), 4);
    assert_eq!(tokens[2].token_type, 9);
    assert_eq!(tokens[2].length, 4);
    assert_eq!(tokens[3].token_type, 7);
    assert_eq!(tokens[3].length, 7);
}

#[test]
fn decoded_token_positions_never_go_backward() {
    let tree = clnk_tree();
    let tokens = Highlighter::collect_tokens(&tree, lut());
    let ps = decode_positions(&tokens);
    for w in ps.windows(2) {
        assert!(w[0] <= w[1]);
    }
}

#[test]
fn encoding_twice_yields_identical_streams() {
    let tree = get_x_tree();
    let first = Highlighter::collect_tokens(&tree, lut());
    let second = Highlighter::collect_tokens(&tree, lut());
    assert_eq!(first, second);
}

#[test]
fn multiline_comment_splits_into_per_line_tokens() {
    let tree = SyntaxTree {
        nodes: vec![
            node(NodeKind::SourceFile, true, FieldLabel::NoField, (0, 0), (2, 5), "", vec![1]),
            node(NodeKind::Comment, true, FieldLabel::NoField, (0, 2), (2, 5), "/* c */", vec![]),
        ],
    };
    let tokens = Highlighter::collect_tokens(&tree, lut());
    let expected = vec![
        SemanticToken { delta_line: 0, delta_start: 2, length: 2000, token_type: 0, token_modifiers_bitset: 0 },
        SemanticToken { delta_line: 1, delta_start: 0, length: 2000, token_type: 0, token_modifiers_bitset: 0 },
        SemanticToken { delta_line: 1, delta_start: 0, length: 5, token_type: 0, token_modifiers_bitset: 0 },
    ];
    assert_eq!(tokens, expected);
}

#[test]
fn analyze_should_have_error_for_nonsense() {
    // The parse of `sdfsdfd` flags an error under the root.
    let mut root = node(NodeKind::SourceFile, true, FieldLabel::NoField, (0, 0), (0, 7), "sdfsdfd", vec![1]);
    root.has_error = true;
    let mut bad = node(NodeKind::Other, true, FieldLabel::NoField, (0, 0), (0, 7), "sdfsdfd", vec![]);
    bad.is_error = true;
    let tree = SyntaxTree { nodes: vec![root, bad] };
    let errors = collect_errors(&tree);
    assert!(errors.len() > 0);
    assert_eq!(errors[0].message, text("Syntax error"));
}

#[test]
fn error_free_tree_yields_no_diagnostics() {
    let tree = get_x_tree();
    let errors = collect_errors(&tree);
    assert_eq!(errors.len(), 0);
}

#[test]
fn childless_error_carrier_yields_fallback_diagnostic() {
    let mut root = node(NodeKind::SourceFile, true, FieldLabel::NoField, (0, 0), (0, 3), "x y", vec![]);
    root.has_error = true;
    let tree = SyntaxTree { nodes: vec![root] };
    let errors = collect_errors(&tree);
    assert_eq!(errors.len(), 1);
    assert_eq!(errors[0].message, text("Syntax error somewhere here"));
}

#[test]
fn error_node_stops_walk_over_later_siblings() {
    let mut root = node(NodeKind::SourceFile, true, FieldLabel::NoField, (0, 0), (1, 0), "", vec![1, 2]);
    root.has_error = true;
    let mut bad = node(NodeKind::Other, true, FieldLabel::NoField, (0, 0), (0, 3), "@@@", vec![]);
    bad.is_error = true;
    let mut bad2 = node(NodeKind::Other, true, FieldLabel::NoField, (0, 4), (0, 7), "###", vec![]);
    bad2.is_error = true;
    let tree = SyntaxTree { nodes: vec![root, bad, bad2] };
    let errors = collect_errors(&tree);
    assert_eq!(errors.len(), 1);
}

#[test]
fn collects_one_signature_with_two_parameters() {
    let tree = get_x_params_tree();
    let fid = FileId::from_path(&text("Script.c"));
    let sigs = SignatureCollector::collect(fid, &tree).unwrap();
    assert_eq!(sigs.signatures.len(), 1);
    assert_eq!(sigs.signatures[0].name, text("GetX"));
    assert_eq!(sigs.signatures[0].params.len(), 2);
    assert_eq!(sigs.signatures[0].params[0].name, text("a"));
    assert_eq!(sigs.signatures[0].params[1].name, text("b"));
}

#[test]
fn signature_collection_refuses_wrong_root_kind() {
    let tree = SyntaxTree {
        nodes: vec![node(NodeKind::Other, true, FieldLabel::NoField, (0, 0), (0, 1), "x", vec![])],
    };
    let fid = FileId::from_path(&text("Script.c"));
    assert_eq!(
        SignatureCollector::collect(fid, &tree),
        Err(SignatureError::UnexpectedRootKind)
    );
}

#[test]
fn signature_collection_refuses_childless_root() {
    let tree = SyntaxTree {
        nodes: vec![node(NodeKind::SourceFile, true, FieldLabel::NoField, (0, 0), (0, 0), "", vec![])],
    };
    let fid = FileId::from_path(&text("Script.c"));
    assert_eq!(SignatureCollector::collect(fid, &tree), Err(SignatureError::EmptyRoot));
}

#[test]
fn resolver_classifies_function_name_and_constant() {
    let tree = get_x_tree();
    let doc = Document::new(text("file:///a.c"), tree, text("func GetX() { Explode(100); }"), DocType::Script);
    // over `GetX`: the resolved node's parent is the function definition
    let item = doc.get_item_at_pos(Point { row: 0, column: 6 });
    assert_eq!(item, Some(QueryableItem::Function(text("GetX"))));
    // over `Explode`: a bare identifier used as a value
    let item = doc.get_item_at_pos(Point { row: 0, column: 15 });
    assert_eq!(item, Some(QueryableItem::Constant(text("Explode"))));
    // outside every node
    let item = doc.get_item_at_pos(Point { row: 7, column: 0 });
    assert_eq!(item, None);
}

#[test]
fn resolver_finds_deepest_covering_node() {
    let tree = get_x_tree();
    let doc = Document::new(text("file:///a.c"), tree, text(""), DocType::Script);
    let n = doc.get_node_at_pos(Point { row: 0, column: 23 });
    // the deepest node over column 23 is the number `100`
    assert_eq!(n, Some(9));
    // when no child of the root ever covers the point, the root answers
    assert_eq!(doc.get_node_at_pos(Point { row: 3, column: 0 }), Some(0));
}
