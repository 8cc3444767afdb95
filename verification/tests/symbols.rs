use vespertide::parse::{parse_document, DocumentFormat};
use vespertide::symbols::{
    collect_from_tree, compute, find_table_document, matches_needle, sort_symbols, table_name_of, DomainSymbol,
    SymbolDocument, SymbolKind,
};

fn symbols_of(src: &str, format: DocumentFormat, uri: &str, query: &str) -> Vec<DomainSymbol> {
    let tree = parse_document(src, format).unwrap();
    let docs = [SymbolDocument { uri, source: src, tree: Some(&tree) }];
    compute(query, &docs, &[])
}

#[test]
fn empty_query_returns_all_tables_and_columns() {
    let src = r#"{"name":"user","columns":[{"name":"id","type":"integer"},{"name":"email","type":"text"}]}"#;
    let symbols = symbols_of(src, DocumentFormat::Json, "file:///user.json", "");
    let names: Vec<_> = symbols.iter().map(|s| s.name.as_str()).collect();
    assert!(names.contains(&"user"), "got: {names:?}");
    assert!(names.contains(&"id"));
    assert!(names.contains(&"email"));
    let email = symbols.iter().find(|s| s.name == "email").unwrap();
    assert_eq!(email.kind, SymbolKind::Column);
    assert_eq!(email.container.as_deref(), Some("user"));
}

#[test]
fn query_filters_case_insensitively() {
    let src = r#"{"name":"User","columns":[{"name":"emAil","type":"text"}]}"#;
    let s1 = symbols_of(src, DocumentFormat::Json, "file:///user.json", "user");
    assert!(s1.iter().any(|s| s.name == "User"));
    let s2 = symbols_of(src, DocumentFormat::Json, "file:///user.json", "EMAIL");
    assert!(s2.iter().any(|s| s.name == "emAil"));
}

#[test]
fn output_is_sorted_for_deterministic_picker_ordering() {
    let src = r#"{"name":"zeta","columns":[{"name":"alpha","type":"integer"},{"name":"beta","type":"integer"}]}"#;
    let symbols = symbols_of(src, DocumentFormat::Json, "file:///z.json", "");
    let names: Vec<_> = symbols.iter().map(|s| s.name.clone()).collect();
    let mut sorted = names.clone();
    sorted.sort();
    assert_eq!(names, sorted, "symbols must be sorted alphabetically");
}

#[test]
fn yaml_workspace_symbols() {
    let src = "name: account\ncolumns:\n  - name: id\n    type: integer\n  - name: balance\n    type: numeric\n";
    let symbols = symbols_of(src, DocumentFormat::Yaml, "file:///account.yaml", "");
    let names: Vec<_> = symbols.iter().map(|s| s.name.as_str()).collect();
    assert!(names.contains(&"account"));
    assert!(names.contains(&"id"));
    assert!(names.contains(&"balance"));
}

#[test]
fn symbol_ranges_exclude_quotes() {
    let src = r#"{"name":"user","columns":[{"name":"id","type":"integer"}]}"#;
    let tree = parse_document(src, DocumentFormat::Json).unwrap();
    let mut out = Vec::new();
    collect_from_tree(&tree, src, "file:///user.json", "", &mut out);
    assert_eq!(out.len(), 2);
    assert_eq!(out[0].kind, SymbolKind::Table);
    assert_eq!(&src[out[0].byte_range.clone()], "user");
    assert_eq!(&src[out[1].byte_range.clone()], "id");
    assert_eq!(out[1].uri, "file:///user.json");
    assert_eq!(out[0].container, None);
}

#[test]
fn table_sorts_before_column_of_same_name_and_ties_keep_order() {
    let src_a = r#"{"name":"id","columns":[{"name":"id","type":"integer"}]}"#;
    let src_b = r#"{"name":"b","columns":[{"name":"id","type":"integer"}]}"#;
    let ta = parse_document(src_a, DocumentFormat::Json).unwrap();
    let tb = parse_document(src_b, DocumentFormat::Json).unwrap();
    let docs = [
        SymbolDocument { uri: "file:///a.json", source: src_a, tree: Some(&ta) },
        SymbolDocument { uri: "file:///b.json", source: src_b, tree: Some(&tb) },
    ];
    let symbols = compute("  ID ", &docs, &[]);
    let view: Vec<_> = symbols
        .iter()
        .map(|s| (s.name.as_str(), s.kind, s.uri.as_str()))
        .collect();
    assert_eq!(
        view,
        vec![
            ("id", SymbolKind::Table, "file:///a.json"),
            ("id", SymbolKind::Column, "file:///a.json"),
            ("id", SymbolKind::Column, "file:///b.json"),
        ]
    );
}

#[test]
fn disk_documents_that_are_open_are_skipped() {
    let open_src = r#"{"name":"user","columns":[]}"#;
    let disk_src = r#"{"name":"stale","columns":[]}"#;
    let other_src = r#"{"name":"post","columns":[]}"#;
    let t1 = parse_document(open_src, DocumentFormat::Json).unwrap();
    let t2 = parse_document(disk_src, DocumentFormat::Json).unwrap();
    let t3 = parse_document(other_src, DocumentFormat::Json).unwrap();
    let open = [SymbolDocument { uri: "file:///user.json", source: open_src, tree: Some(&t1) }];
    let disk = [
        SymbolDocument { uri: "file:///user.json", source: disk_src, tree: Some(&t2) },
        SymbolDocument { uri: "file:///post.json", source: other_src, tree: Some(&t3) },
    ];
    let names: Vec<_> = compute("", &open, &disk).into_iter().map(|s| s.name).collect();
    assert_eq!(names, vec!["post".to_string(), "user".to_string()]);
}

#[test]
fn needle_matching() {
    assert!(matches_needle("anything", ""));
    assert!(matches_needle("UserAccount", "account"));
    assert!(!matches_needle("user", "users"));
    assert!(!matches_needle("user", "USER"));
}

#[test]
fn sort_symbols_orders_by_name_then_kind() {
    let sym = |name: &str, kind| DomainSymbol {
        name: name.to_string(),
        kind,
        container: None,
        uri: String::new(),
        byte_range: 0..0,
    };
    let sorted = sort_symbols(vec![
        sym("b", SymbolKind::Column),
        sym("a", SymbolKind::Column),
        sym("a", SymbolKind::Table),
    ]);
    let view: Vec<_> = sorted.iter().map(|s| (s.name.as_str(), s.kind)).collect();
    assert_eq!(view, vec![("a", SymbolKind::Table), ("a", SymbolKind::Column), ("b", SymbolKind::Column)]);
}

#[test]
fn the_declaring_document_of_a_table() {
    let a = r#"{"name":"user","columns":[]}"#;
    let b = "name: post\ncolumns: []\n";
    let c = r#"{"columns":[{"name":"user"}]}"#;
    let ta = parse_document(a, DocumentFormat::Json).unwrap();
    let tb = parse_document(b, DocumentFormat::Yaml).unwrap();
    let tc = parse_document(c, DocumentFormat::Json).unwrap();
    assert_eq!(table_name_of(&ta, a), Some("user"));
    assert_eq!(table_name_of(&tb, b), Some("post"));
    assert_eq!(table_name_of(&tc, c), None);
    let docs = [
        SymbolDocument { uri: "file:///c.json", source: c, tree: Some(&tc) },
        SymbolDocument { uri: "file:///b.yaml", source: b, tree: Some(&tb) },
        SymbolDocument { uri: "file:///a.json", source: a, tree: Some(&ta) },
    ];
    assert_eq!(find_table_document(&docs, "post"), Some(1));
    assert_eq!(find_table_document(&docs, "user"), Some(2));
    assert_eq!(find_table_document(&docs, "tag"), None);
}
