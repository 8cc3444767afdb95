use vespertide::completion::{
    booleans, classify_check_expr_position, clamp_to_char_boundary, column_types, completions, compute, default_values, detect,
    keyword_expects_operand, reference_actions, tables_in_workspace, CheckExprPos, CompletionItemKind, Context,
    DomainCompletion,
};
use vespertide::check_expr::{CheckToken, CheckTokenKind};
use vespertide::parse::{parse_document, DocumentFormat};

fn complete(src: &str, format: DocumentFormat, pos: usize) -> Vec<DomainCompletion> {
    let tree = parse_document(src, format);
    compute(src, tree.as_ref(), pos, &vec![], &vec![], &None, &None)
}

fn labels(items: &[DomainCompletion]) -> Vec<&str> {
    items.iter().map(|i| i.label.as_str()).collect()
}

#[test]
fn completion_in_column_type_field() {
    let src = r#"{"name":"u","columns":[{"name":"id","type":"i","nullable":false}]}"#;
    let pos = src.find(r#""type":"i""#).unwrap() + 9;
    let items = complete(src, DocumentFormat::Json, pos);
    assert!(!items.is_empty(), "should suggest types");
    assert!(items.iter().any(|item| item.label == "integer"));
}

#[test]
fn completion_for_nullable_returns_booleans() {
    let src = r#"{"name":"u","columns":[{"name":"id","type":"integer","nullable":}]}"#;
    let pos = src.find("nullable\":").unwrap() + 10;
    let items = complete(src, DocumentFormat::Json, pos);
    assert!(items.iter().any(|item| item.label == "true"));
    assert!(items.iter().any(|item| item.label == "false"));
}

#[test]
fn completion_at_bare_column_type_value_offers_object_snippets() {
    let src = r#"{"name":"u","columns":[{"name":"id","type":,"nullable":false}]}"#;
    let pos = src.find(r#""type":"#).unwrap() + 7;
    let items = complete(src, DocumentFormat::Json, pos);
    assert!(items.iter().any(|item| item.label == "varchar(N)"));
    assert!(items.iter().any(|item| item.label == "integer"));
}

#[test]
fn cross_file_ref_columns() {
    let post_src = r#"{"name":"post","columns":[{"name":"author_id","type":"integer","nullable":false,"foreign_key":{"ref_table":"user","ref_columns":[""]}}]}"#;
    let tree = parse_document(post_src, DocumentFormat::Json).unwrap();
    let pos = post_src.find(r#"["""#).unwrap() + 2;
    let ctx = detect(&tree, post_src, pos);
    let table = match &ctx {
        Context::RefColumns { ref_table } => ref_table.clone(),
        other => panic!("expected a ref_columns context, got {other:?}"),
    };
    assert_eq!(table, "user");
    // The workspace has `user` open with these columns.
    let open_columns = Some(vec!["id".to_string(), "email".to_string()]);
    let items = completions(&ctx, &vec!["user".to_string()], &vec![], &open_columns, &None);
    let labels = labels(&items);
    assert!(labels.contains(&"id"), "should suggest 'id' column. got: {labels:?}");
    assert!(labels.contains(&"email"), "should suggest 'email' column. got: {labels:?}");
    assert_eq!(items[0].detail.as_deref(), Some("Column in user"));
}

#[test]
fn completion_for_on_delete_returns_actions() {
    let src = r#"{"name":"p","columns":[{"name":"x","type":"integer","nullable":false,"foreign_key":{"ref_table":"u","ref_columns":["id"],"on_delete":""}}]}"#;
    let pos = src.find(r#""on_delete":"""#).unwrap() + 14;
    let items = complete(src, DocumentFormat::Json, pos);
    assert!(items.iter().any(|item| item.label == "cascade"));
    assert!(items.iter().any(|item| item.label == "set_null"));
}

#[test]
fn yaml_column_type_in_string_offers_simple_types() {
    let src = "name: u\ncolumns:\n  - name: id\n    type: \"\"\n    nullable: false\n";
    let pos = src.find(r#"type: """#).unwrap() + 7;
    let items = complete(src, DocumentFormat::Yaml, pos);
    let labels = labels(&items);
    assert!(labels.contains(&"integer"), "YAML should offer `integer` for type, got: {labels:?}");
    assert!(labels.contains(&"uuid"), "YAML should offer `uuid` for type, got: {labels:?}");
}

#[test]
fn yaml_ref_table_offers_workspace_tables() {
    let post_src = "name: post\ncolumns:\n  - name: author_id\n    type: integer\n    foreign_key:\n      ref_table: \"\"\n      ref_columns: [id]\n";
    let tree = parse_document(post_src, DocumentFormat::Yaml);
    let pos = post_src.find(r#"ref_table: """#).unwrap() + 12;
    let items = compute(post_src, tree.as_ref(), pos, &vec!["user".to_string()], &vec![], &None, &None);
    assert!(
        items.iter().any(|i| i.label == "user"),
        "YAML ref_table should suggest workspace tables, got: {:?}",
        items.iter().map(|i| &i.label).collect::<Vec<_>>()
    );
}

// ---------------------------------------------------------------------------

#[test]
fn column_type_in_string_context_carries_the_literal_range() {
    let src = r#"{"name":"u","columns":[{"name":"id","type":"","nullable":false}]}"#;
    let tree = parse_document(src, DocumentFormat::Json).unwrap();
    let pos = src.find(r#""type":"""#).unwrap() + 8;
    let string_start = src.rfind(r#""""#).unwrap();
    match detect(&tree, src, pos) {
        Context::ColumnTypeInString { string_byte_range } => {
            assert_eq!(string_byte_range, string_start..string_start + 2);
        }
        other => panic!("got {other:?}"),
    }
}

#[test]
fn default_context_reads_the_sibling_type() {
    let src = "name: u\ncolumns:\n  - name: status\n    type:\n      kind: enum\n      name: s\n      values: [active, banned]\n    default: \"\"\n";
    let tree = parse_document(src, DocumentFormat::Yaml).unwrap();
    let pos = src.rfind(r#"default: """#).unwrap() + 10;
    match detect(&tree, src, pos) {
        Context::DefaultValue { type_kind, enum_values, string_byte_range } => {
            assert_eq!(type_kind.as_deref(), Some("enum"));
            assert_eq!(enum_values, vec!["active".to_string(), "banned".to_string()]);
            assert!(string_byte_range.is_some());
        }
        other => panic!("got {other:?}"),
    }
    let src = "name: u\ncolumns:\n  - name: created_at\n    type: timestamp\n    default: \"\"\n";
    let tree = parse_document(src, DocumentFormat::Yaml).unwrap();
    let pos = src.find(r#"default: """#).unwrap() + 10;
    match detect(&tree, src, pos) {
        Context::DefaultValue { type_kind, enum_values, .. } => {
            assert_eq!(type_kind.as_deref(), Some("timestamp"));
            assert!(enum_values.is_empty());
        }
        other => panic!("got {other:?}"),
    }
}

#[test]
fn key_contexts() {
    let src = r#"{"name":"u","columns":[{"name":"id","type":"integer"}]}"#;
    let tree = parse_document(src, DocumentFormat::Json).unwrap();
    // On the table's own `"name"` key.
    let pos = src.find(r#""name""#).unwrap() + 2;
    assert!(matches!(detect(&tree, src, pos), Context::TableTopLevelKey));
    // On a column object's `"type"` key.
    let pos = src.find(r#""type""#).unwrap() + 2;
    assert!(matches!(detect(&tree, src, pos), Context::ColumnObjectKey));
}

#[test]
fn check_expr_context_and_position() {
    let src = r#"{"name":"u","columns":[{"name":"age","type":"integer"},{"name":"aged","type":"integer"}],"constraints":[{"type":"check","name":"c","expr":"age > 0 AND ag"}]}"#;
    let tree = parse_document(src, DocumentFormat::Json).unwrap();
    let pos = src.find("AND ag").unwrap() + 6;
    let (cols, inner, rel) = match detect(&tree, src, pos) {
        Context::CheckExpr { table_columns, inner, cursor_rel } => (table_columns, inner, cursor_rel),
        other => panic!("got {other:?}"),
    };
    assert_eq!(cols, vec!["age".to_string(), "aged".to_string()]);
    let expr = &src[inner.clone()];
    assert_eq!(expr, "age > 0 AND ag");
    assert_eq!(rel, expr.len());
    let tokens = vec![
        CheckToken { kind: CheckTokenKind::Column, span: 0..3 },
        CheckToken { kind: CheckTokenKind::Operator, span: 4..5 },
        CheckToken { kind: CheckTokenKind::Number, span: 6..7 },
        CheckToken { kind: CheckTokenKind::Keyword, span: 8..11 },
        CheckToken { kind: CheckTokenKind::Column, span: 12..14 },
    ];
    let (position, range) = classify_check_expr_position(expr, inner.start, rel, &cols, &tokens);
    assert_eq!(position, CheckExprPos::PartialColumn { prefix: "ag".to_string() });
    assert_eq!(range, Some(inner.start + 12..inner.start + 14));
    // After `AND ` an operand is expected.
    let (position, range) = classify_check_expr_position(expr, inner.start, 12, &cols, &tokens[..4]);
    assert_eq!(position, CheckExprPos::Operand);
    assert!(range.is_none());
    // After a complete column name an operator is expected.
    let (position, _) = classify_check_expr_position(expr, inner.start, 3, &cols, &tokens[..1]);
    assert_eq!(position, CheckExprPos::Operator);
    // Blank prefix: an operand.
    let (position, _) = classify_check_expr_position(expr, inner.start, 0, &cols, &[]);
    assert_eq!(position, CheckExprPos::Operand);
}

#[test]
fn value_lists() {
    let types = column_types();
    assert_eq!(types.len(), 23);
    assert_eq!(types[0].label, "small_int");
    assert_eq!(types[0].detail.as_deref(), Some("Column type: small_int"));
    assert_eq!(types[0].sort_priority, 1);
    let enum_snippet = &types[22];
    assert_eq!(enum_snippet.kind, CompletionItemKind::Snippet);
    assert_eq!(enum_snippet.sort_priority, 2);
    assert_eq!(
        enum_snippet.insert_text.as_deref(),
        Some(r#"{"kind":"enum","name":"${1:status}","values":["${2:active}","${3:inactive}"]}"#)
    );
    let actions = reference_actions();
    assert_eq!(labels(&actions), vec!["cascade", "restrict", "set_null", "set_default", "no_action"]);
    assert_eq!(actions[2].detail.as_deref(), Some("Reference action: set_null"));
    let b = booleans();
    assert_eq!(labels(&b), vec!["true", "false"]);
    assert!(b[0].detail.is_none());
}

#[test]
fn workspace_tables_dedup_disk_names() {
    let open = vec!["user".to_string(), "post".to_string()];
    let disk = vec!["post".to_string(), "tag".to_string(), "tag".to_string()];
    let items = tables_in_workspace(&open, &disk);
    assert_eq!(labels(&items), vec!["user", "post", "tag"]);
    assert_eq!(items[2].detail.as_deref(), Some("Table: tag"));
    assert_eq!(items[2].kind, CompletionItemKind::Reference);
}

#[test]
fn keywords_and_char_boundaries() {
    assert!(keyword_expects_operand("and"));
    assert!(keyword_expects_operand("Between"));
    assert!(!keyword_expects_operand("IS"));
    let s = "aé";
    assert_eq!(clamp_to_char_boundary(s, 2), 1);
    assert_eq!(clamp_to_char_boundary(s, 3), 3);
    assert_eq!(clamp_to_char_boundary(s, 0), 0);
}

#[test]
fn no_tree_no_completions() {
    assert!(compute("{", None, 0, &vec![], &vec![], &None, &None).is_empty());
}

#[test]
fn completion_inside_column_type_string_offers_simple_plus_replacing_snippets() {
    let src = r#"{"name":"u","columns":[{"name":"id","type":"","nullable":false}]}"#;
    let pos = src.find(r#""type":"""#).unwrap() + 8;
    let items = complete(src, DocumentFormat::Json, pos);

    // Simple scalar types insert in-place (no replacement range).
    let integer = items.iter().find(|i| i.label == "integer").unwrap();
    assert!(integer.replace_range_bytes.is_none());

    // Object snippets replace the whole string literal, quotes included.
    let string_start = src.rfind(r#""""#).unwrap();
    let string_end = string_start + 2;
    for label in ["varchar(N)", "char(N)", "numeric(P,S)", "enum"] {
        let snippet = items
            .iter()
            .find(|i| i.label == label)
            .unwrap_or_else(|| panic!("snippet `{label}` should be offered"));
        let range = snippet
            .replace_range_bytes
            .as_ref()
            .unwrap_or_else(|| panic!("`{label}` must carry replace_range_bytes"));
        assert_eq!(range.start, string_start, "{label} start");
        assert_eq!(range.end, string_end, "{label} end");
    }
}

#[test]
fn yaml_default_for_timestamp_offers_now() {
    let src = "name: u\ncolumns:\n  - name: created_at\n    type: timestamp\n    default: \"\"\n";
    let pos = src.find(r#"default: """#).unwrap() + 10;
    let items = complete(src, DocumentFormat::Yaml, pos);

    let labels: Vec<_> = items.iter().map(|i| i.label.as_str()).collect();
    assert!(
        labels.contains(&"now()"),
        "YAML default for timestamp should offer now(), got: {labels:?}"
    );
    assert!(
        labels.contains(&"CURRENT_TIMESTAMP"),
        "YAML default should offer CURRENT_TIMESTAMP, got: {labels:?}"
    );
}

#[test]
fn yaml_default_for_string_enum_offers_only_its_values() {
    let src = "name: u\ncolumns:\n  - name: status\n    type:\n      kind: enum\n      name: s\n      values: [active, banned]\n    default: \"\"\n";
    let pos = src.rfind(r#"default: """#).unwrap() + 10;
    let items = complete(src, DocumentFormat::Yaml, pos);

    let labels: Vec<_> = items.iter().map(|i| i.label.as_str()).collect();
    assert!(
        labels.contains(&"'active'"),
        "YAML enum default must surface 'active', got: {labels:?}"
    );
    assert!(
        labels.contains(&"'banned'"),
        "YAML enum default must surface 'banned', got: {labels:?}"
    );
    assert!(
        !labels.contains(&"now()"),
        "enum column must not leak timestamp defaults, got: {labels:?}"
    );
}

#[test]
fn default_values_by_type_replace_the_literal() {
    let uuid = default_values(&Some("uuid".to_string()), &vec![]);
    assert_eq!(labels(&uuid), vec!["gen_random_uuid()"]);
    assert!(default_values(&Some("integer".to_string()), &vec![]).is_empty());
    assert!(default_values(&None, &vec!["a".to_string()]).is_empty());
    let quoted = default_values(&Some("enum".to_string()), &vec!["a".to_string(), "b c".to_string()]);
    assert_eq!(labels(&quoted), vec!["'a'", "'b c'"]);

    let src = "name: u\ncolumns:\n  - name: id\n    type: uuid\n    default: \"x\"\n";
    let pos = src.find(r#"default: "x""#).unwrap() + 10;
    let items = complete(src, DocumentFormat::Yaml, pos);
    assert_eq!(labels(&items), vec!["gen_random_uuid()"]);
    let lit = src.find(r#""x""#).unwrap();
    assert_eq!(items[0].replace_range_bytes, Some(lit..lit + 3));
}

#[test]
fn type_kind_values_replace_the_literal() {
    let src = r#"{"name":"u","columns":[{"name":"id","type":{"kind":"va","length":3}}]}"#;
    let pos = src.find(r#""kind":"va""#).unwrap() + 9;
    let items = complete(src, DocumentFormat::Json, pos);
    assert_eq!(labels(&items), vec!["varchar", "char", "numeric", "enum", "custom"]);
    let lit = src.find(r#""va""#).unwrap();
    assert!(items.iter().all(|i| i.replace_range_bytes == Some(lit..lit + 4)));
}
