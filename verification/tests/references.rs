use vespertide::check_expr::{CheckToken, CheckTokenKind};
use vespertide::parse::{parse_document, DocumentFormat};
use vespertide::references::{
    check_expr_ranges, collect_in_document, compute, dedup_references, find_all, resolve_symbol,
    sort_references, CheckExprTokens, DomainReference, RefDocument, ReferenceSymbol,
};

fn texts<'a>(src: &'a str, refs: &[DomainReference]) -> Vec<&'a str> {
    refs.iter().map(|r| &src[r.byte_range.clone()]).collect()
}

#[test]
fn resolve_table_name_and_ref_table() {
    let src = r#"{"name":"post","columns":[{"name":"author_id","type":"integer","foreign_key":{"ref_table":"user","ref_columns":["id"]}}]}"#;
    let tree = parse_document(src, DocumentFormat::Json);
    let pos = src.find("post").unwrap() + 1;
    match resolve_symbol(src, tree.as_ref(), pos) {
        Some(ReferenceSymbol::Table { name }) => assert_eq!(name, "post"),
        other => panic!("unexpected {other:?}"),
    }
    let pos = src.find(r#""user""#).unwrap() + 2;
    match resolve_symbol(src, tree.as_ref(), pos) {
        Some(ReferenceSymbol::Table { name }) => assert_eq!(name, "user"),
        other => panic!("unexpected {other:?}"),
    }
}

#[test]
fn resolve_column_name_and_ref_columns_element() {
    let src = r#"{"name":"post","columns":[{"name":"author_id","type":"integer","foreign_key":{"ref_table":"user","ref_columns":["id"]}}]}"#;
    let tree = parse_document(src, DocumentFormat::Json);
    let pos = src.find("author_id").unwrap() + 1;
    match resolve_symbol(src, tree.as_ref(), pos) {
        Some(ReferenceSymbol::Column { table, column }) => {
            assert_eq!(table, "post");
            assert_eq!(column, "author_id");
        }
        other => panic!("unexpected {other:?}"),
    }
    let pos = src.find(r#"["id"]"#).unwrap() + 3;
    match resolve_symbol(src, tree.as_ref(), pos) {
        Some(ReferenceSymbol::Column { table, column }) => {
            assert_eq!(table, "user");
            assert_eq!(column, "id");
        }
        other => panic!("unexpected {other:?}"),
    }
}

#[test]
fn resolve_elsewhere_is_none() {
    let src = r#"{"name":"post","columns":[{"name":"id","type":"integer"}]}"#;
    let tree = parse_document(src, DocumentFormat::Json);
    // The `type` value is not a symbol.
    let pos = src.find("integer").unwrap() + 1;
    assert!(resolve_symbol(src, tree.as_ref(), pos).is_none());
    // A key is not a symbol.
    assert!(resolve_symbol(src, tree.as_ref(), 3).is_none());
    assert!(resolve_symbol(src, None, 9).is_none());
}

#[test]
fn table_references_with_and_without_declaration() {
    let src = r#"{"name":"user","columns":[{"name":"boss","type":"integer","foreign_key":{"ref_table":"user","ref_columns":["id"]}}]}"#;
    let tree = parse_document(src, DocumentFormat::Json).unwrap();
    let sym = ReferenceSymbol::Table { name: "user".to_string() };
    let mut out = Vec::new();
    collect_in_document(&sym, "file:///user.json", src, &tree, false, &[], &mut out);
    assert_eq!(out.len(), 1);
    assert_eq!(texts(src, &out), vec!["user"]);
    assert!(out[0].byte_range.start > src.find("ref_table").unwrap());

    let mut out = Vec::new();
    collect_in_document(&sym, "file:///user.json", src, &tree, true, &[], &mut out);
    assert_eq!(out.len(), 2);
    assert_eq!(out[0].byte_range, 9..13);
}

#[test]
fn column_references_scoped_by_table() {
    let src = r#"{"name":"post","columns":[{"name":"a","type":"integer","foreign_key":{"ref_table":"user","ref_columns":["id","x"]}},{"name":"b","type":"integer","foreign_key":{"ref_table":"other","ref_columns":["id"]}}]}"#;
    let tree = parse_document(src, DocumentFormat::Json).unwrap();
    let sym = ReferenceSymbol::Column { table: "user".to_string(), column: "id".to_string() };
    let mut out = Vec::new();
    collect_in_document(&sym, "file:///post.json", src, &tree, true, &[], &mut out);
    assert_eq!(out.len(), 1);
    assert_eq!(out[0].byte_range.start, src.find(r#""id","x""#).unwrap() + 1);
}

#[test]
fn check_expression_references_use_lexed_tokens() {
    let src = r#"{"name":"t","columns":[{"name":"age","type":"integer"}],"constraints":[{"type":"check","name":"c","expr":"age > 0 AND age < 200"}]}"#;
    let tree = parse_document(src, DocumentFormat::Json).unwrap();
    let ranges = check_expr_ranges(&tree, src);
    assert_eq!(ranges.len(), 1);
    let inner = ranges[0].clone();
    assert_eq!(&src[inner.clone()], "age > 0 AND age < 200");
    let tokens = vec![
        CheckToken { kind: CheckTokenKind::Column, span: 0..3 },
        CheckToken { kind: CheckTokenKind::Operator, span: 4..5 },
        CheckToken { kind: CheckTokenKind::Number, span: 6..7 },
        CheckToken { kind: CheckTokenKind::Keyword, span: 8..11 },
        CheckToken { kind: CheckTokenKind::Column, span: 12..15 },
        CheckToken { kind: CheckTokenKind::Operator, span: 16..17 },
        CheckToken { kind: CheckTokenKind::Number, span: 18..21 },
    ];
    let lexed = [CheckExprTokens { inner_start: inner.start, tokens }];
    let sym = ReferenceSymbol::Column { table: "t".to_string(), column: "age".to_string() };
    let mut out = Vec::new();
    collect_in_document(&sym, "file:///t.json", src, &tree, false, &lexed, &mut out);
    assert_eq!(out.len(), 2);
    assert_eq!(out[0].byte_range, inner.start..inner.start + 3);
    assert_eq!(out[1].byte_range, inner.start + 12..inner.start + 15);
    // Another table's column of the same name is not referenced there.
    let other = ReferenceSymbol::Column { table: "u".to_string(), column: "age".to_string() };
    let mut out = Vec::new();
    collect_in_document(&other, "file:///t.json", src, &tree, false, &lexed, &mut out);
    assert!(out.is_empty());
}

#[test]
fn find_all_orders_by_document_and_skips_open_files_on_disk() {
    let user_src = r#"{"name":"user","columns":[{"name":"id","type":"integer"}]}"#;
    let post_src = r#"{"name":"post","columns":[{"name":"u","type":"integer","foreign_key":{"ref_table":"user","ref_columns":["id"]}}]}"#;
    let user_tree = parse_document(user_src, DocumentFormat::Json).unwrap();
    let post_tree = parse_document(post_src, DocumentFormat::Json).unwrap();
    let current = RefDocument { uri: "file:///z/user.json", source: user_src, tree: Some(&user_tree), check_tokens: &[] };
    let open = [RefDocument { uri: "file:///b/post.json", source: post_src, tree: Some(&post_tree), check_tokens: &[] }];
    // The same post file on disk is open already; a second copy elsewhere is not.
    let disk = [
        RefDocument { uri: "file:///b/post.json", source: post_src, tree: Some(&post_tree), check_tokens: &[] },
        RefDocument { uri: "file:///a/post.json", source: post_src, tree: Some(&post_tree), check_tokens: &[] },
    ];
    let sym = ReferenceSymbol::Table { name: "user".to_string() };
    let refs = find_all(&sym, &current, &open, &disk, true);
    let uris: Vec<&str> = refs.iter().map(|r| r.uri.as_str()).collect();
    assert_eq!(uris, vec!["file:///a/post.json", "file:///b/post.json", "file:///z/user.json"]);
}

#[test]
fn compute_on_a_non_symbol_is_empty() {
    let src = r#"{"name":"user"}"#;
    let tree = parse_document(src, DocumentFormat::Json).unwrap();
    let current = RefDocument { uri: "file:///user.json", source: src, tree: Some(&tree), check_tokens: &[] };
    assert!(compute(&current, &[], &[], 0, true).is_empty());
    let refs = compute(&current, &[], &[], 10, true);
    assert_eq!(refs.len(), 1);
    assert_eq!(refs[0].byte_range, 9..13);
}

#[test]
fn sort_then_dedup_references() {
    let r = |u: &str, s: usize, e: usize| DomainReference { uri: u.to_string(), byte_range: s..e };
    let v = vec![r("b", 5, 6), r("a", 9, 10), r("b", 1, 2), r("a", 9, 10), r("b", 5, 6)];
    let sorted = sort_references(v);
    let keys: Vec<(String, usize)> = sorted.iter().map(|x| (x.uri.clone(), x.byte_range.start)).collect();
    assert_eq!(
        keys,
        vec![("a".to_string(), 9), ("a".to_string(), 9), ("b".to_string(), 1), ("b".to_string(), 5), ("b".to_string(), 5)]
    );
    let d = dedup_references(sorted);
    assert_eq!(d, vec![r("a", 9, 10), r("b", 1, 2), r("b", 5, 6)]);
}
