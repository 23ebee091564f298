//! Tests over the configuration side and the document store: the definition
//! registry and its table builder, the per-value-type tokenizer, scenario
//! token collection and hover, translation, the built-in help, legend
//! negotiation, document types, edit descriptors, and the store lifecycle.

#![allow(dead_code)]

use legacy_clonk_ls::asset_handler::{collect_semantic_tokens_for, get_hover_text_for};
use legacy_clonk_ls::doc::{DocType, DocTypeError, Document, EditDescriptor, QueryableItem};
use legacy_clonk_ls::embedding::{ConstantHelp, Embedding, FnHelp, FnHelpParam};
use legacy_clonk_ls::highlight_helper::Context;
use legacy_clonk_ls::lang::{init_lang, ConfigField, ConfigValue, SupportedLang, TransMap, Translation};
use legacy_clonk_ls::scenario_txt_handler::definition::{
    init_definitions, Definition, DefinitionRegistry, ValueType,
};
use legacy_clonk_ls::scenario_txt_handler::ScenarioTxtHandler;
use legacy_clonk_ls::signatures::C4DataType;
use legacy_clonk_ls::store::{DocError, DocumentStore};
use legacy_clonk_ls::token_types::{parse_semantic_tokens_capabilities, SemanticToken, TokenTypes};
use legacy_clonk_ls::tree::{FieldLabel, NodeKind, Point, SyntaxNode, SyntaxTree};

fn ctext(s: &str) -> Vec<char> {
    s.chars().collect()
}

fn cnode(
    kind: NodeKind,
    named: bool,
    field: FieldLabel,
    start: (u32, u32),
    end: (u32, u32),
    t: &str,
    children: Vec<usize>,
) -> SyntaxNode {
    SyntaxNode {
        kind,
        named,
        is_error: false,
        has_error: false,
        field,
        start: Point { row: start.0, column: start.1 },
        end: Point { row: end.0, column: end.1 },
        start_offset: 0,
        end_offset: 0,
        text: ctext(t),
        children,
    }
}

fn clut() -> TokenTypes {
    TokenTypes {
        comment: 0,
        string: 1,
        number: 2,
        pragma_strict: 3,
        appendto: 3,
        id: 9,
        var_scope: 4,
        nil: 4,
        keyword: 4,
        parameter: 6,
        method: 7,
        parameter_type: 8,
        boolean: 10,
        operator: 11,
    }
}

fn tok(delta_line: u32, delta_start: u32, length: u32, token_type: u32) -> SemanticToken {
    SemanticToken { delta_line, delta_start, length, token_type, token_modifiers_bitset: 0 }
}

#[test]
fn registry_builder_expands_player_rows() {
    let table = ctext("Player|Wealth|Integer|WealthDoc\nGame|Mode|String|ModeDoc");
    let reg = init_definitions(&table);
    assert_eq!(reg.rows.len(), 5);
    let d1 = Definition::get_def(&reg, &ctext("Player1"), &ctext("Wealth")).unwrap();
    assert_eq!(d1.value_type, ValueType::Integer);
    assert_eq!(d1.description, ctext("WealthDoc"));
    for section in ["Player2", "Player3", "Player4"] {
        let dn = Definition::get_def(&reg, &ctext(section), &ctext("Wealth")).unwrap();
        assert_eq!(dn.value_type, d1.value_type);
        assert_eq!(dn.description, d1.description);
    }
    assert!(Definition::get_def(&reg, &ctext("Player"), &ctext("Wealth")).is_none());
    let g = Definition::get_def(&reg, &ctext("Game"), &ctext("Mode")).unwrap();
    assert_eq!(g.value_type, ValueType::String);
    assert!(Definition::get_def(&reg, &ctext("Game"), &ctext("Missing")).is_none());
}

#[test]
fn registry_later_rows_shadow_earlier_ones() {
    let table = ctext("Game|Mode|String|OldDoc\nGame|Mode|Integer|NewDoc");
    let reg = init_definitions(&table);
    let d = Definition::get_def(&reg, &ctext("Game"), &ctext("Mode")).unwrap();
    assert_eq!(d.value_type, ValueType::Integer);
    assert_eq!(d.description, ctext("NewDoc"));
}

#[test]
fn value_type_vocabulary_defaults_to_string() {
    let table = ctext("A|K1|IdList|D1\nA|K2|MatList|D2\nA|K3|DWORD|D3\nA|K4|Whatever|D4\nA|K5|IntegerList|D5\nA|K6|Id|D6");
    let reg = init_definitions(&table);
    let vt = |k: &str| Definition::get_def(&reg, &ctext("A"), &ctext(k)).unwrap().value_type;
    assert_eq!(vt("K1"), ValueType::IdList);
    assert_eq!(vt("K2"), ValueType::MatList);
    assert_eq!(vt("K3"), ValueType::DWORD);
    assert_eq!(vt("K4"), ValueType::String);
    assert_eq!(vt("K5"), ValueType::IntegerList);
    assert_eq!(vt("K6"), ValueType::Id);
}

#[test]
fn id_list_tokenizer_emits_exact_sub_tokens() {
    // the value `Foo=1;Bar=2` standing at columns 10..21 of its line
    let value_node = cnode(
        NodeKind::Other,
        true,
        FieldLabel::NoField,
        (0, 10),
        (0, 21),
        "Foo=1;Bar=2",
        vec![],
    );
    let mut ctx = Context::new(clut());
    ValueType::IdList.extract_semantic_tokens(&value_node, &mut ctx, &ctext("Foo=1;Bar=2"));
    let expected = vec![
        tok(0, 10, 3, 9),  // id `Foo`
        tok(0, 3, 1, 11),  // operator `=`
        tok(0, 1, 1, 2),   // number `1`
        tok(0, 2, 3, 9),   // id `Bar`
        tok(0, 3, 1, 11),  // operator `=`
        tok(0, 1, 1, 2),   // number `2`
    ];
    assert_eq!(ctx.collection, expected);
}

#[test]
fn integer_list_tokenizer_skips_empty_fields() {
    let value_node = cnode(
        NodeKind::Other,
        true,
        FieldLabel::NoField,
        (0, 5),
        (0, 12),
        "1,,23,4",
        vec![],
    );
    let mut ctx = Context::new(clut());
    ValueType::IntegerList.extract_semantic_tokens(&value_node, &mut ctx, &ctext("1,,23,4"));
    let expected = vec![
        tok(0, 5, 1, 2),  // `1`
        tok(0, 3, 2, 2),  // `23` (the empty field advanced the offset)
        tok(0, 3, 1, 2),  // `4`
    ];
    assert_eq!(ctx.collection, expected);
}

#[test]
fn kv_pair_without_equals_only_advances() {
    let value_node = cnode(
        NodeKind::Other,
        true,
        FieldLabel::NoField,
        (0, 0),
        (0, 9),
        "Foo;Bar=2",
        vec![],
    );
    let mut ctx = Context::new(clut());
    ValueType::MatList.extract_semantic_tokens(&value_node, &mut ctx, &ctext("Foo;Bar=2"));
    let expected = vec![
        tok(0, 4, 3, 1),  // string `Bar`
        tok(0, 3, 1, 11), // operator
        tok(0, 1, 1, 2),  // number `2`
    ];
    assert_eq!(ctx.collection, expected);
}

/// The tree the parser yields for a configuration file `[Game]\nMode=3`.
fn scenario_tree() -> SyntaxTree {
    let nodes = vec![
        cnode(NodeKind::SourceFile, true, FieldLabel::NoField, (0, 0), (1, 6), "[Game]\nMode=3", vec![1]),
        // 1: section
        cnode(NodeKind::Section, true, FieldLabel::NoField, (0, 0), (1, 6), "[Game]\nMode=3", vec![2, 6]),
        // 2: section name `[Game]`
        cnode(NodeKind::SectionName, true, FieldLabel::NoField, (0, 0), (0, 6), "[Game]", vec![3, 4, 5]),
        cnode(NodeKind::Other, false, FieldLabel::NoField, (0, 0), (0, 1), "[", vec![]),
        cnode(NodeKind::Identifier, true, FieldLabel::NoField, (0, 1), (0, 5), "Game", vec![]),
        cnode(NodeKind::Other, false, FieldLabel::NoField, (0, 5), (0, 6), "]", vec![]),
        // 6: property `Mode=3`
        cnode(NodeKind::Property, true, FieldLabel::NoField, (1, 0), (1, 6), "Mode=3", vec![7, 8, 9]),
        cnode(NodeKind::Identifier, true, FieldLabel::NoField, (1, 0), (1, 4), "Mode", vec![]),
        cnode(NodeKind::Other, false, FieldLabel::NoField, (1, 4), (1, 5), "=", vec![]),
        cnode(NodeKind::Other, true, FieldLabel::NoField, (1, 5), (1, 6), "3", vec![]),
    ];
    SyntaxTree { nodes }
}

#[test]
fn scenario_tokens_consult_the_registry() {
    let reg = init_definitions(&ctext("Game|Mode|Integer|ModeDoc"));
    let tree = scenario_tree();
    let handler = ScenarioTxtHandler;
    let tokens = handler.collect_semantic_tokens(&tree, clut(), &ctext("[Game]\nMode=3"), &reg);
    let expected = vec![
        tok(0, 1, 4, 4),  // keyword `Game`
        tok(1, 0, 4, 7),  // method `Mode`
        tok(0, 4, 1, 11), // operator `=`
        tok(0, 1, 1, 2),  // number sub-token `3`
    ];
    assert_eq!(tokens, expected);
}

#[test]
fn scenario_tokens_without_definition_skip_value_tokens() {
    let reg = init_definitions(&ctext("Other|Mode|Integer|ModeDoc"));
    let tree = scenario_tree();
    let handler = ScenarioTxtHandler;
    let tokens = handler.collect_semantic_tokens(&tree, clut(), &ctext("[Game]\nMode=3"), &reg);
    assert_eq!(tokens.len(), 3);
}

fn translation_with(key: &str, value: &str) -> Translation {
    let root = ConfigValue::Object(vec![ConfigField {
        key: ctext(key),
        value: ConfigValue::Text(ctext(value)),
    }]);
    let map = init_lang(&root);
    let empty = init_lang(&ConfigValue::Object(vec![]));
    Translation::new(empty, map)
}

#[test]
fn hover_answers_translated_documentation() {
    let reg = init_definitions(&ctext("Game|Mode|Integer|ModeDoc"));
    let trans = translation_with("ModeDoc", "The game mode.");
    let tree = scenario_tree();
    let handler = ScenarioTxtHandler;
    // over the property key `Mode`
    let r = handler.get_hover_text(&tree, Point { row: 1, column: 2 }, &reg, &trans);
    assert_eq!(r, Some(ctext("The game mode.")));
    // over the section header there is no property to answer for
    let r = handler.get_hover_text(&tree, Point { row: 0, column: 2 }, &reg, &trans);
    assert_eq!(r, None);
}

#[test]
fn hover_without_translation_stays_silent() {
    let reg = init_definitions(&ctext("Game|Mode|Integer|ModeDoc"));
    let trans = translation_with("OtherKey", "Other doc");
    let tree = scenario_tree();
    let handler = ScenarioTxtHandler;
    let r = handler.get_hover_text(&tree, Point { row: 1, column: 2 }, &reg, &trans);
    assert_eq!(r, None);
}

#[test]
fn translation_flattens_nested_objects_with_dotted_keys() {
    let root = ConfigValue::Object(vec![
        ConfigField {
            key: ctext("a"),
            value: ConfigValue::Object(vec![
                ConfigField { key: ctext("b"), value: ConfigValue::Text(ctext("T1")) },
                ConfigField { key: ctext("c"), value: ConfigValue::OtherVal },
            ]),
        },
        ConfigField { key: ctext("d"), value: ConfigValue::Text(ctext("T2")) },
    ]);
    let map = init_lang(&root);
    assert_eq!(map.get(&ctext("a.b")), Some(&ctext("T1")));
    assert_eq!(map.get(&ctext("d")), Some(&ctext("T2")));
    assert_eq!(map.get(&ctext("a.c")), None);
    assert_eq!(map.get(&ctext("a")), None);
}

#[test]
fn configure_resolves_language_tags() {
    let mut t = Translation::new(TransMap::new(), TransMap::new());
    assert_eq!(t.get_current_locale(), SupportedLang::En);
    t.configure(&ctext("de-DE"));
    assert_eq!(t.get_current_locale(), SupportedLang::De);
    t.configure(&ctext("de"));
    assert_eq!(t.get_current_locale(), SupportedLang::De);
    t.configure(&ctext("fr-FR"));
    assert_eq!(t.get_current_locale(), SupportedLang::En);
    t.configure(&ctext("en-US"));
    assert_eq!(t.get_current_locale(), SupportedLang::En);
}

#[test]
fn monikers_name_the_script_value_types() {
    assert_eq!(C4DataType::Int.moniker(), "int");
    assert_eq!(C4DataType::Id.moniker(), "id");
    assert_eq!(C4DataType::Bool.moniker(), "bool");
    assert_eq!(C4DataType::String.moniker(), "string");
    assert_eq!(C4DataType::Object.moniker(), "object");
    assert_eq!(C4DataType::Array.moniker(), "array");
    assert_eq!(C4DataType::Any.moniker(), "any");
}

#[test]
fn fn_help_renders_signature_and_description() {
    let h = FnHelp {
        params: vec![
            FnHelpParam { name: ctext("iPlr"), data_type: C4DataType::Int },
            FnHelpParam { name: ctext("idDef"), data_type: C4DataType::Id },
        ],
        description: Some(ctext("Does things.")),
    };
    let r = h.to_help_text(&ctext("DoThings"));
    let expected = "```c4script\nfunc DoThings(int iPlr, id idDef)```\n\n\n\nDoes things.";
    assert_eq!(r, ctext(expected));
}

#[test]
fn fn_help_without_description_ends_after_the_fence() {
    let h = FnHelp { params: vec![], description: None };
    let r = h.to_help_text(&ctext("NoArgs"));
    assert_eq!(r, ctext("```c4script\nfunc NoArgs()```\n\n"));
}

#[test]
fn embedding_answers_builtin_and_embedded_queries() {
    let consts = vec![(
        ctext("NO_OWNER"),
        ConstantHelp {
            data_type: C4DataType::Int,
            description: ctext("The owner number of unowned objects."),
            value: Some(ctext("-1")),
        },
    )];
    let e = Embedding::new(consts);
    let r = e.query_signature(QueryableItem::Function(ctext("RemovePlayer")));
    assert_eq!(r, Some(ctext("```c4script\nfunc RemovePlayer(int iPlr)```\n\n")));
    let r = e.query_signature(QueryableItem::Constant(ctext("NO_OWNER")));
    assert_eq!(
        r,
        Some(ctext("NO_OWNER\n\nThe owner number of unowned objects."))
    );
    assert_eq!(e.query_signature(QueryableItem::Function(ctext("Nowhere"))), None);
    assert_eq!(e.query_signature(QueryableItem::Unused), None);
}

#[test]
fn negotiation_off_appends_all_three_extensions() {
    let r = parse_semantic_tokens_capabilities(false, &None).unwrap();
    assert_eq!(r.0.parameter_type, 8);
    assert_eq!(r.0.id, 9);
    assert_eq!(r.0.boolean, 10);
    assert_eq!(r.1.len(), 11);
    assert_eq!(r.1[0], ctext("comment"));
    assert_eq!(r.1[7], ctext("method"));
    assert_eq!(r.1[8], ctext("parameterType"));
    assert_eq!(r.1[9], ctext("id"));
    assert_eq!(r.1[10], ctext("bool"));
}

#[test]
fn negotiation_on_needs_capabilities() {
    assert!(parse_semantic_tokens_capabilities(true, &None).is_none());
}

#[test]
fn negotiation_on_appends_only_declared_extensions() {
    let declared = vec![ctext("id"), ctext("unrelated")];
    let r = parse_semantic_tokens_capabilities(true, &Some(declared)).unwrap();
    assert_eq!(r.0.id, 8);
    assert_eq!(r.0.parameter_type, 5);
    assert_eq!(r.0.boolean, 4);
    assert_eq!(r.1.len(), 9);
    assert_eq!(r.1[8], ctext("id"));
}

#[test]
fn doc_type_resolves_by_extension_and_name() {
    assert_eq!(DocType::from_uri(&ctext("file:///a/b/Script.c")), Ok(DocType::Script));
    assert_eq!(DocType::from_uri(&ctext("dir/Scenario.txt")), Ok(DocType::ScenarioTxt));
    assert_eq!(
        DocType::from_uri(&ctext("dir/Notes.txt")),
        Err(DocTypeError::UnknownTxtFileName)
    );
    assert_eq!(
        DocType::from_uri(&ctext("dir/Image.png")),
        Err(DocTypeError::UnrecognizedExtension)
    );
}

fn tiny_tree(end_offset: usize, end: (u32, u32)) -> SyntaxTree {
    let mut root = cnode(NodeKind::SourceFile, true, FieldLabel::NoField, (0, 0), end, "", vec![]);
    root.end_offset = end_offset;
    SyntaxTree { nodes: vec![root] }
}

#[test]
fn change_on_unopened_uri_fails_with_document_not_found() {
    let store = DocumentStore::new();
    let r = store.change_edit(&String::from("file:///nowhere.c"), &ctext("x"));
    assert_eq!(r, Err(DocError::DocumentNotFound));
}

#[test]
fn change_after_open_and_close_fails_with_document_not_found() {
    let mut store = DocumentStore::new();
    let uri = String::from("file:///a.c");
    let r = store.open(uri.clone(), ctext("func GetX() { }"), DocType::Script, Some(tiny_tree(15, (0, 15))));
    assert_eq!(r, Ok(()));
    assert!(store.change_edit(&uri, &ctext("func GetY() { }")).is_ok());
    store.close(&uri);
    let r = store.change_edit(&uri, &ctext("func GetY() { }"));
    assert_eq!(r, Err(DocError::DocumentNotFound));
    let r = store.apply_change(&uri, ctext("func GetY() { }"), Some(tiny_tree(15, (0, 15))));
    assert_eq!(r, Err(DocError::DocumentNotFound));
}

#[test]
fn open_without_tree_fails_and_leaves_store_unchanged() {
    let mut store = DocumentStore::new();
    let uri = String::from("file:///a.c");
    let r = store.open(uri.clone(), ctext("x"), DocType::Script, None);
    assert_eq!(r, Err(DocError::ParseFailure));
    assert!(store.get(&uri).is_none());
}

#[test]
fn change_computes_whole_document_edit_descriptor() {
    let mut store = DocumentStore::new();
    let uri = String::from("file:///a.c");
    store
        .open(uri.clone(), ctext("old text"), DocType::Script, Some(tiny_tree(8, (0, 8))))
        .unwrap();
    let new_text = ctext("one\ntwo\nthree");
    let d = store.change_edit(&uri, &new_text).unwrap();
    let expected = EditDescriptor {
        start_offset: 0,
        old_end_offset: 8,
        new_end_offset: 13,
        start_point: Point { row: 0, column: 0 },
        old_end_point: Point { row: 0, column: 8 },
        new_end_point: Point { row: 2, column: 5 },
    };
    assert_eq!(d, expected);
    // text without a line feed keeps the quirk of a zero column
    let d = store.change_edit(&uri, &ctext("flat")).unwrap();
    assert_eq!(d.new_end_point, Point { row: 0, column: 0 });
    assert_eq!(d.new_end_offset, 4);
}

#[test]
fn string_value_covers_the_whole_span() {
    let value_node = cnode(
        NodeKind::Other,
        true,
        FieldLabel::NoField,
        (0, 6),
        (0, 11),
        "Hello",
        vec![],
    );
    let mut ctx = Context::new(clut());
    ValueType::String.extract_semantic_tokens(&value_node, &mut ctx, &ctext("Hello"));
    assert_eq!(ctx.collection, vec![tok(0, 6, 5, 1)]);
}

#[test]
fn id_and_unknown_values_contribute_nothing() {
    let value_node = cnode(NodeKind::Other, true, FieldLabel::NoField, (0, 0), (0, 4), "CLNK", vec![]);
    let mut ctx = Context::new(clut());
    ValueType::Id.extract_semantic_tokens(&value_node, &mut ctx, &ctext("CLNK"));
    ValueType::Unknown.extract_semantic_tokens(&value_node, &mut ctx, &ctext("CLNK"));
    assert_eq!(ctx.collection.len(), 0);
}

#[test]
fn dispatch_routes_by_document_type() {
    let reg = init_definitions(&ctext("Game|Mode|Integer|ModeDoc"));
    let trans = translation_with("ModeDoc", "The game mode.");
    let doc = Document::new(
        ctext("file:///Scenario.txt"),
        scenario_tree(),
        ctext("[Game]\nMode=3"),
        DocType::ScenarioTxt,
    );
    let tokens = collect_semantic_tokens_for(&doc, clut(), &reg);
    assert_eq!(tokens.len(), 4);
    let hover = get_hover_text_for(&doc, Point { row: 1, column: 2 }, &reg, &trans);
    assert_eq!(hover, Some(ctext("The game mode.")));
    // a script document: tokens from the script walker, no hover of its own
    let script = Document::new(
        ctext("file:///a.c"),
        SyntaxTree {
            nodes: vec![
                cnode(NodeKind::SourceFile, true, FieldLabel::NoField, (0, 0), (0, 9), "//comment", vec![1]),
                cnode(NodeKind::Comment, true, FieldLabel::NoField, (0, 0), (0, 9), "//comment", vec![]),
            ],
        },
        ctext("//comment"),
        DocType::Script,
    );
    let tokens = collect_semantic_tokens_for(&script, clut(), &reg);
    assert_eq!(tokens.len(), 1);
    assert_eq!(get_hover_text_for(&script, Point { row: 0, column: 1 }, &reg, &trans), None);
}

#[test]
fn apply_change_replaces_tree_and_source_together() {
    let mut store = DocumentStore::new();
    let uri = String::from("file:///a.c");
    store
        .open(uri.clone(), ctext("old"), DocType::Script, Some(tiny_tree(3, (0, 3))))
        .unwrap();
    let r = store.apply_change(&uri, ctext("newer"), None);
    assert_eq!(r, Err(DocError::ParseFailure));
    let doc = store.get(&uri).unwrap();
    assert_eq!(doc.source, ctext("old"));
    let r = store.apply_change(&uri, ctext("newer"), Some(tiny_tree(5, (0, 5))));
    assert_eq!(r, Ok(()));
    let doc = store.get(&uri).unwrap();
    assert_eq!(doc.source, ctext("newer"));
    assert_eq!(doc.tree.nodes[0].end_offset, 5);
    assert_eq!(doc.doc_type, DocType::Script);
    assert_eq!(doc.url, ctext("file:///a.c"));
}
