use vespertide::check_expr::{CheckToken, CheckTokenKind};
use vespertide::semantic_tokens::emit_check_expr_tokens;
use vespertide::parse::{parse_document, DocumentFormat};
use vespertide::semantic_tokens::{classify, filter_range, RawToken, TokenIdx, MOD_DECLARATION, MOD_DEFINITION};

fn classify_yaml(src: &str) -> Vec<RawToken> {
    let tree = parse_document(src, DocumentFormat::Yaml).expect("parse");
    classify(src, DocumentFormat::Yaml, Some(&tree))
}

#[test]
fn yaml_table_and_column_names_classified() {
    let src = "name: user\ncolumns:\n  - name: id\n    type: integer\n";
    let tokens = classify_yaml(src);
    let user_start = src.find("user").unwrap();
    let id_start = src.find("name: id").unwrap() + 6;
    let user_tok = tokens.iter().find(|t| t.byte_range.start == user_start).expect("user");
    let id_tok = tokens.iter().find(|t| t.byte_range.start == id_start).expect("id");
    assert_eq!(user_tok.token_type, TokenIdx::Class.index());
    assert_eq!(id_tok.token_type, TokenIdx::Property.index());
}

#[test]
fn yaml_foreign_key_ref_table_is_class_definition() {
    let src = "name: post\ncolumns:\n  - name: a\n    type: integer\n    foreign_key:\n      ref_table: user\n      ref_columns: [id]\n";
    let tokens = classify_yaml(src);
    let user_start = src.find("ref_table: user").unwrap() + "ref_table: ".len();
    let tok = tokens.iter().find(|t| t.byte_range.start == user_start).expect("ref_table token");
    assert_eq!(tok.token_type, TokenIdx::Class.index());
    assert_eq!(tok.token_modifiers, MOD_DEFINITION);
}

#[test]
fn yaml_tokens_in_document_order() {
    let src = "name: user\ncolumns:\n  - name: id\n    type: integer\n    default: '7'\n";
    let tokens = classify_yaml(src);
    let view: Vec<_> = tokens
        .iter()
        .map(|t| (&src[t.byte_range.clone()], t.token_type, t.token_modifiers))
        .collect();
    assert_eq!(
        view,
        vec![
            ("user", TokenIdx::Class.index(), MOD_DECLARATION),
            ("id", TokenIdx::Property.index(), MOD_DECLARATION),
            ("integer", TokenIdx::Type.index(), 0),
            ("7", TokenIdx::String.index(), 0),
        ]
    );
}

#[test]
fn json_enum_values_and_ref_columns() {
    let src = r#"{"name":"t","columns":[{"name":"s","type":{"kind":"enum","name":"st","values":["a","b"]}},{"name":"u","type":"integer","foreign_key":{"ref_table":"user","ref_columns":["id"],"on_delete":"cascade"}}]}"#;
    let tree = parse_document(src, DocumentFormat::Json).unwrap();
    let tokens = classify(src, DocumentFormat::Json, Some(&tree));
    let find = |text: &str| {
        tokens
            .iter()
            .find(|t| &src[t.byte_range.clone()] == text)
            .map(|t| (t.token_type, t.token_modifiers))
    };
    assert_eq!(find("enum"), Some((TokenIdx::EnumMember.index(), 0)));
    assert_eq!(find("a"), Some((TokenIdx::EnumMember.index(), 0)));
    assert_eq!(find("user"), Some((TokenIdx::Class.index(), MOD_DEFINITION)));
    assert_eq!(find("id"), Some((TokenIdx::Property.index(), MOD_DEFINITION)));
    assert_eq!(find("cascade"), Some((TokenIdx::EnumMember.index(), 0)));
}

#[test]
fn no_tree_no_tokens() {
    assert!(classify("name: x", DocumentFormat::Yaml, None).is_empty());
}

#[test]
fn filter_range_keeps_overlapping_tokens() {
    let tok = |s: usize, e: usize| RawToken { byte_range: s..e, token_type: 0, token_modifiers: 0 };
    let kept = filter_range(vec![tok(0, 2), tok(2, 4), tok(5, 9), tok(9, 10)], 3..9);
    let ranges: Vec<_> = kept.iter().map(|t| t.byte_range.clone()).collect();
    assert_eq!(ranges, vec![2..4, 5..9]);
    assert!(filter_range(vec![tok(0, 2)], 2..2).is_empty());
}

#[test]
fn check_expression_lexemes_become_tokens() {
    let toks = vec![
        CheckToken { kind: CheckTokenKind::Column, span: 0..3 },
        CheckToken { kind: CheckTokenKind::Operator, span: 4..5 },
        CheckToken { kind: CheckTokenKind::Punctuation, span: 5..6 },
        CheckToken { kind: CheckTokenKind::Number, span: 6..7 },
        CheckToken { kind: CheckTokenKind::String, span: 8..11 },
        CheckToken { kind: CheckTokenKind::Keyword, span: 12..15 },
    ];
    let mut out = Vec::new();
    emit_check_expr_tokens(&toks, 100, &mut out);
    let got: Vec<(usize, usize, u32, u32)> = out
        .iter()
        .map(|t| (t.byte_range.start, t.byte_range.end, t.token_type, t.token_modifiers))
        .collect();
    assert_eq!(
        got,
        vec![(100, 103, 1, 0), (104, 105, 4, 0), (106, 107, 5, 0), (108, 111, 6, 0), (112, 115, 4, 0)]
    );
}
