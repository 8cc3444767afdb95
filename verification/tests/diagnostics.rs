use vespertide::diagnostics::{
    byte_offset_for_line_col, check_filename_table_name_mismatch, collect_tree_diagnostics,
    file_basename, had_typed_pre_check, parse_error_diagnostic, push_validate_error, workspace_error,
    DomainDiagnostic, Severity, WorkspaceTable,
};
use vespertide::locator::{
    locate_column, locate_column_field, locate_constraint, locate_top_name, ErrorField, ErrorLocation,
};
use vespertide::parse::{parse_document, DocumentFormat};

/// The per-document pipeline up to the parse step: tree checks, then a
/// JSON syntax parse unless a tree check already pinned a type problem.
fn compute(src: &str, format: DocumentFormat) -> Vec<DomainDiagnostic> {
    let tree = parse_document(src, format);
    let mut diags = collect_tree_diagnostics(src, tree.as_ref());
    if !had_typed_pre_check(&diags) && format == DocumentFormat::Json {
        if let Err(e) = serde_json::from_str::<serde_json::Value>(src) {
            let byte = byte_offset_for_line_col(src, e.line(), e.column());
            diags.push(parse_error_diagnostic(src, byte, format!("JSON parse error: {e}")));
        }
    }
    diags
}

#[test]
fn locate_column_finds_target_byte_range() {
    let src = r#"{"name":"user","columns":[{"name":"id","type":"integer"},{"name":"email","type":"text"}]}"#;
    let tree = parse_document(src, DocumentFormat::Json).unwrap();
    let range = locate_column(Some(&tree), src, "email");
    let snippet = &src[range];
    assert!(snippet.contains(r#""email""#), "got: {snippet}");
}

#[test]
fn locate_column_fallback_to_top_name() {
    let src = r#"{"name":"user","columns":[]}"#;
    let tree = parse_document(src, DocumentFormat::Json).unwrap();
    let range = locate_column(Some(&tree), src, "nonexistent");
    assert!(src[range].contains("user"));
}

#[test]
fn valid_table_no_diagnostics() {
    let src = r#"{
            "name": "user",
            "columns": [
                { "name": "id", "type": "integer", "nullable": false, "primary_key": true }
            ]
        }"#;
    let diags = compute(src, DocumentFormat::Json);
    assert!(diags.is_empty(), "expected zero diagnostics, got {diags:?}");
}

#[test]
fn truncated_json_produces_syntax_error() {
    let src = r#"{"name": "user","#;
    let diags = compute(src, DocumentFormat::Json);
    assert!(!diags.is_empty());
    assert!(diags.iter().any(|d| d.code == "syntax-error" || d.code == "parse-error"));
}

#[test]
fn unknown_column_type_highlights_type_pair_not_braces() {
    let src = r#"{"name":"u","columns":[{"name":"id","type":"wrong","nullable":false,"primary_key":true}]}"#;
    let diags = compute(src, DocumentFormat::Json);
    let err = diags
        .iter()
        .find(|d| d.code == "unknown-type")
        .expect("expected an unknown-type diagnostic");
    let snippet = &src[err.byte_range.clone()];
    assert!(snippet.starts_with(r#""type""#), "diagnostic should start at the `type` key, got: {snippet}");
    assert!(snippet.contains("wrong"), "diagnostic should cover the bad value `wrong`, got: {snippet}");
    assert!(!snippet.ends_with('}'), "diagnostic must NOT bleed onto the column's closing brace");
    assert!(
        !diags.iter().any(|d| d.code == "parse-error"),
        "parse-error should be suppressed when unknown-type fired"
    );
}

#[test]
fn known_simple_types_produce_no_unknown_type_diagnostic() {
    let src = r#"{"name":"u","columns":[{"name":"id","type":"integer","nullable":false,"primary_key":true}]}"#;
    let diags = compute(src, DocumentFormat::Json);
    assert!(diags.iter().all(|d| d.code != "unknown-type"));
}

#[test]
fn yaml_unknown_column_type_highlights_type_pair() {
    let src = "name: u\ncolumns:\n  - name: id\n    type: wrong\n    nullable: false\n    primary_key: true\n";
    let diags = compute(src, DocumentFormat::Yaml);
    let err = diags
        .iter()
        .find(|d| d.code == "unknown-type")
        .expect("YAML unknown-type diagnostic missing");
    let snippet = &src[err.byte_range.clone()];
    assert!(snippet.contains("type:"), "snippet should cover the YAML `type:` pair, got: {snippet:?}");
    assert!(snippet.contains("wrong"), "snippet should include the bad value, got: {snippet:?}");
}

#[test]
fn yaml_valid_simple_type_produces_no_unknown_type_diagnostic() {
    let src = "name: u\ncolumns:\n  - name: id\n    type: uuid\n    nullable: false\n    primary_key: true\n";
    let diags = compute(src, DocumentFormat::Yaml);
    assert!(diags.iter().all(|d| d.code != "unknown-type"));
}

#[test]
fn yaml_complex_type_object_skips_unknown_type_check() {
    let src = "name: u\ncolumns:\n  - name: title\n    type: {kind: varchar, length: 200}\n    nullable: false\n";
    let diags = compute(src, DocumentFormat::Yaml);
    assert!(
        diags.iter().all(|d| d.code != "unknown-type"),
        "object type values must not trigger unknown-type, got: {diags:?}"
    );
}

#[test]
fn enum_without_values_field_emits_complex_type_error() {
    let src = r#"{"name":"u","columns":[{"name":"status","type":{"kind":"enum","name":"s"},"nullable":false}]}"#;
    let diags = compute(src, DocumentFormat::Json);
    let err = diags.iter().find(|d| d.code == "complex-type").expect("expected complex-type diagnostic");
    assert!(err.message.contains("values"), "message should mention missing `values`, got: {}", err.message);
    assert!(diags.iter().all(|d| d.code != "parse-error"));
}

#[test]
fn enum_with_empty_values_array_is_flagged() {
    let src = r#"{"name":"u","columns":[{"name":"s","type":{"kind":"enum","name":"st","values":[]}}]}"#;
    let diags = compute(src, DocumentFormat::Json);
    let err = diags.iter().find(|d| d.code == "complex-type").expect("empty `values` should be flagged");
    assert!(err.message.contains("non-empty"), "got: {}", err.message);
}

#[test]
fn enum_string_duplicate_value_is_flagged_on_the_offending_element() {
    let src = r#"{"name":"u","columns":[{"name":"s","type":{"kind":"enum","name":"st","values":["active","banned","active"]}}]}"#;
    let diags = compute(src, DocumentFormat::Json);
    let err = diags
        .iter()
        .find(|d| d.code == "complex-type" && d.message.contains("Duplicate enum value"))
        .expect("duplicate enum string value should be flagged");
    let snippet = &src[err.byte_range.clone()];
    assert_eq!(snippet, r#""active""#, "diagnostic should land on the duplicate element, got: {snippet}");
    let first = src.find(r#""active""#).unwrap();
    assert!(err.byte_range.start > first);
}

#[test]
fn varchar_without_length_field_is_flagged() {
    let src = r#"{"name":"u","columns":[{"name":"title","type":{"kind":"varchar"}}]}"#;
    let diags = compute(src, DocumentFormat::Json);
    let err = diags.iter().find(|d| d.code == "complex-type").expect("varchar without length should be flagged");
    assert!(err.message.contains("length"), "got: {}", err.message);
}

#[test]
fn numeric_missing_precision_and_scale_is_flagged() {
    let src = r#"{"name":"u","columns":[{"name":"amount","type":{"kind":"numeric"}}]}"#;
    let diags = compute(src, DocumentFormat::Json);
    let err = diags
        .iter()
        .find(|d| d.code == "complex-type")
        .expect("numeric without precision/scale should be flagged");
    assert!(err.message.contains("precision"));
    assert!(err.message.contains("scale"));
}

#[test]
fn unknown_complex_kind_is_flagged_on_kind_pair() {
    let src = r#"{"name":"u","columns":[{"name":"x","type":{"kind":"nope"}}]}"#;
    let diags = compute(src, DocumentFormat::Json);
    let err = diags
        .iter()
        .find(|d| d.code == "complex-type" && d.message.contains("Unknown type kind"))
        .expect("unknown kind should be flagged");
    let snippet = &src[err.byte_range.clone()];
    assert!(snippet.starts_with("\"kind\""), "diagnostic should land on the `kind` pair, got: {snippet}");
}

#[test]
fn integer_enum_duplicate_numeric_value_is_flagged() {
    let src = r#"{"name":"u","columns":[{"name":"p","type":{"kind":"enum","name":"pl","values":[{"name":"low","value":0},{"name":"high","value":0}]}}]}"#;
    let diags = compute(src, DocumentFormat::Json);
    let err = diags
        .iter()
        .find(|d| d.code == "complex-type" && d.message.contains("Duplicate enum numeric value"))
        .expect("duplicate integer enum value should be flagged");
    let snippet = &src[err.byte_range.clone()];
    assert_eq!(snippet, "0", "diagnostic should land on the duplicate `0`");
}

#[test]
fn enum_integer_member_name_is_not_treated_as_column() {
    let src = r#"{
            "name": "u",
            "columns": [
                {"name": "id", "type": "integer", "nullable": false, "primary_key": true},
                {
                    "name": "priority",
                    "type": {
                        "kind": "enum",
                        "name": "pl",
                        "values": [
                            {"name": "id", "value": 0},
                            {"name": "high", "value": 10}
                        ]
                    },
                    "nullable": false
                }
            ]
        }"#;
    let diags = compute(src, DocumentFormat::Json);
    assert!(
        diags.iter().all(|d| d.code != "duplicate-column"),
        "enum member name `id` must not collide with column name `id`, got: {diags:#?}"
    );
}

#[test]
fn duplicate_column_name_pinpoints_the_second_occurrence() {
    let src = r#"{"name":"u","columns":[{"name":"id","type":"integer","nullable":false,"primary_key":true},{"name":"id","type":"text","nullable":true}]}"#;
    let diags = compute(src, DocumentFormat::Json);
    let dup = diags.iter().find(|d| d.code == "duplicate-column").expect("expected duplicate-column diagnostic");
    let first = src.find(r#""name":"id""#).unwrap();
    assert!(dup.byte_range.start > first + 5);
    let snippet = &src[dup.byte_range.clone()];
    assert_eq!(snippet, r#""id""#, "diagnostic should highlight the duplicate `id`");
    assert!(diags.iter().all(|d| !d.message.contains("duplicate table name")));
}

#[test]
fn locate_top_name_is_not_confused_when_columns_precede_name() {
    let src = r#"{
            "columns": [
                {"name": "id", "type": "integer"}
            ],
            "name": "article"
        }"#;
    let tree = parse_document(src, DocumentFormat::Json).unwrap();
    let range = locate_top_name(Some(&tree), src).expect("range");
    let snippet = &src[range];
    assert!(snippet.contains("article"), "expected table-level name `article`, got: {snippet}");
}

// ---------------------------------------------------------------------------

#[test]
fn syntax_error_messages_and_codes() {
    let src = r#"{"name": "user","#;
    let tree = parse_document(src, DocumentFormat::Json).unwrap();
    let diags = collect_tree_diagnostics(src, Some(&tree));
    assert!(!diags.is_empty());
    for d in &diags {
        assert_eq!(d.code, "syntax-error");
        assert_eq!(d.severity, Severity::Error);
        assert!(d.message == "Syntax error" || d.message.starts_with("Missing "), "got {}", d.message);
    }
}

#[test]
fn no_tree_gives_no_tree_diagnostics() {
    assert!(collect_tree_diagnostics("{", None).is_empty());
}

#[test]
fn unknown_type_message_lists_known_types() {
    let src = r#"{"name":"u","columns":[{"name":"id","type":"wrong"}]}"#;
    let diags = compute(src, DocumentFormat::Json);
    let err = diags.iter().find(|d| d.code == "unknown-type").unwrap();
    assert_eq!(
        err.message,
        "Unknown column type `wrong`. Expected one of: small_int, integer, big_int, real, double_precision, text, boolean, date, time, timestamp, timestamptz, interval, bytea, uuid, json, jsonb, inet, cidr, macaddr, xml — or a complex type object such as {\"kind\":\"varchar\",\"length\":255}"
    );
}

#[test]
fn complex_type_messages_are_exact() {
    let cases = [
        (r#"{"name":"u","columns":[{"name":"a","type":{"length":3}}]}"#, "Type object requires a `kind` field (varchar, char, numeric, enum, custom)"),
        (r#"{"name":"u","columns":[{"name":"a","type":{"kind":""}}]}"#, "`kind` must be a non-empty string"),
        (r#"{"name":"u","columns":[{"name":"a","type":{"kind":"char"}}]}"#, "`char` type requires a `length` field"),
        (r#"{"name":"u","columns":[{"name":"a","type":{"kind":"numeric","precision":3}}]}"#, "`numeric` type requires scale field"),
        (r#"{"name":"u","columns":[{"name":"a","type":{"kind":"numeric","scale":3}}]}"#, "`numeric` type requires precision field"),
        (r#"{"name":"u","columns":[{"name":"a","type":{"kind":"numeric"}}]}"#, "`numeric` type requires precision and scale fields"),
        (r#"{"name":"u","columns":[{"name":"a","type":{"kind":"enum"}}]}"#, "`enum` type requires fields: name, values"),
        (r#"{"name":"u","columns":[{"name":"a","type":{"kind":"enum","values":["x"]}}]}"#, "`enum` type requires field: name"),
        (r#"{"name":"u","columns":[{"name":"a","type":{"kind":"enum","name":"e","values":"x"}}]}"#, "`values` must be a non-empty array"),
        (r#"{"name":"u","columns":[{"name":"a","type":{"kind":"custom"}}]}"#, "`custom` type requires a `custom_type` SQL string"),
    ];
    for (src, message) in cases {
        let diags = compute(src, DocumentFormat::Json);
        let complex: Vec<_> = diags.iter().filter(|d| d.code == "complex-type").collect();
        assert_eq!(complex.len(), 1, "for {src}: {diags:?}");
        assert_eq!(complex[0].message, message, "for {src}");
    }
}

#[test]
fn yaml_enum_duplicate_in_block_sequence() {
    let src = "name: u\ncolumns:\n  - name: s\n    type:\n      kind: enum\n      name: st\n      values:\n        - a\n        - b\n        - a\n";
    let diags = compute(src, DocumentFormat::Yaml);
    let dup = diags
        .iter()
        .find(|d| d.message == "Duplicate enum value `a`")
        .expect("yaml duplicate enum value");
    assert_eq!(&src[dup.byte_range.clone()], "a");
    assert!(dup.byte_range.start > src.find("- a").unwrap());
}

#[test]
fn yaml_duplicate_column_names() {
    let src = "name: u\ncolumns:\n  - name: id\n    type: integer\n  - name: id\n    type: text\n";
    let diags = compute(src, DocumentFormat::Yaml);
    let dups: Vec<_> = diags.iter().filter(|d| d.code == "duplicate-column").collect();
    assert_eq!(dups.len(), 1);
    assert_eq!(dups[0].message, "Duplicate column name `id` in this table");
    assert_eq!(dups[0].byte_range.start, src.rfind("id").unwrap());
}

#[test]
fn typed_pre_check_codes() {
    let make = |code: &str| DomainDiagnostic {
        byte_range: 0..1,
        severity: Severity::Error,
        message: String::new(),
        code: code.to_string(),
    };
    assert!(!had_typed_pre_check(&[make("syntax-error"), make("parse-error")]));
    assert!(had_typed_pre_check(&[make("syntax-error"), make("duplicate-column")]));
    assert!(had_typed_pre_check(&[make("unknown-type")]));
    assert!(had_typed_pre_check(&[make("complex-type")]));
}

#[test]
fn byte_offset_for_line_col_examples() {
    let text = "ab\ncde\nf";
    assert_eq!(byte_offset_for_line_col(text, 1, 1), 0);
    assert_eq!(byte_offset_for_line_col(text, 2, 1), 3);
    assert_eq!(byte_offset_for_line_col(text, 2, 3), 5);
    // Columns past the line end stop at its last byte (the newline).
    assert_eq!(byte_offset_for_line_col(text, 2, 40), 6);
    assert_eq!(byte_offset_for_line_col(text, 3, 1), 7);
    // Lines past the end give the text's length.
    assert_eq!(byte_offset_for_line_col(text, 9, 1), 8);
    // Zero is treated as one.
    assert_eq!(byte_offset_for_line_col(text, 0, 0), 0);
    assert_eq!(byte_offset_for_line_col("", 1, 1), 0);
}

#[test]
fn parse_error_diagnostic_is_one_byte_wide_or_cut() {
    let d = parse_error_diagnostic("abc", 1, "m".to_string());
    assert_eq!(d.byte_range, 1..2);
    assert_eq!(d.code, "parse-error");
    let d = parse_error_diagnostic("abc", 3, "m".to_string());
    assert_eq!(d.byte_range, 3..3);
}

#[test]
fn push_validate_error_appends() {
    let mut out = Vec::new();
    push_validate_error(&mut out, 2..5, "bad".to_string());
    assert_eq!(out.len(), 1);
    assert_eq!(out[0].code, "validate-schema");
    assert_eq!(out[0].byte_range, 2..5);
    assert_eq!(out[0].severity, Severity::Error);
}

#[test]
fn file_basename_strips_longest_model_extension() {
    assert_eq!(file_basename("user.vespertide.json"), "user");
    assert_eq!(file_basename("user.vespertide.yaml"), "user");
    assert_eq!(file_basename("user.vespertide.yml"), "user");
    assert_eq!(file_basename("user.json"), "user");
    assert_eq!(file_basename("user.yaml"), "user");
    assert_eq!(file_basename("user.yml"), "user");
    assert_eq!(file_basename("user.txt"), "user.txt");
}

#[test]
fn filename_mismatch_warns_on_table_name() {
    let src = r#"{"name":"account","columns":[]}"#;
    let tree = parse_document(src, DocumentFormat::Json).unwrap();
    let d = check_filename_table_name_mismatch(src, Some("user.json"), Some(&tree), "account").unwrap();
    assert_eq!(d.severity, Severity::Warning);
    assert_eq!(d.code, "filename-mismatch");
    assert_eq!(&src[d.byte_range.clone()], r#""account""#);
    assert_eq!(
        d.message,
        "Table name `account` does not match file basename `user`. Rename one to keep them in sync."
    );
    assert!(check_filename_table_name_mismatch(src, Some("account.vespertide.json"), Some(&tree), "account").is_none());
    assert!(check_filename_table_name_mismatch(src, None, Some(&tree), "account").is_none());
}

#[test]
fn workspace_error_is_placed_on_the_located_column() {
    let a = r#"{"name":"post","columns":[{"name":"author","type":"integer","foreign_key":{"ref_table":"user","ref_columns":["id"]}}]}"#;
    let b = r#"{"name":"user","columns":[{"name":"id","type":"integer"}]}"#;
    let ta = parse_document(a, DocumentFormat::Json).unwrap();
    let tb = parse_document(b, DocumentFormat::Json).unwrap();
    let ws = [
        WorkspaceTable { uri: "file:///post.json", table_name: "post", source: a, tree: Some(&ta) },
        WorkspaceTable { uri: "file:///user.json", table_name: "user", source: b, tree: Some(&tb) },
    ];
    let loc = ErrorLocation::column_field("post", "author", ErrorField::ForeignKeyRefTable);
    let d = workspace_error(&ws, "file:///post.json", "fk", Some(&loc)).unwrap();
    assert_eq!(&a[d.byte_range.clone()], r#""ref_table":"user""#);
    assert_eq!(d.code, "validate-schema");
    // The located table lives in another file: nothing for this one.
    assert!(workspace_error(&ws, "file:///user.json", "fk", Some(&loc)).is_none());
    // No location, or an unknown table: the start of the file.
    assert_eq!(workspace_error(&ws, "file:///user.json", "x", None).unwrap().byte_range, 0..1);
    let unknown = ErrorLocation::table("nope");
    assert_eq!(workspace_error(&ws, "file:///user.json", "x", Some(&unknown)).unwrap().byte_range, 0..1);
}

#[test]
fn locate_column_field_and_constraint() {
    let src = r#"{"name":"t","columns":[{"name":"a","type":"integer","default":"1","nullable":true,"comment":"c","foreign_key":{"ref_table":"u"}}],"constraints":[{"name":"uq","type":"unique"}]}"#;
    let tree = parse_document(src, DocumentFormat::Json).unwrap();
    let t = Some(&tree);
    assert_eq!(&src[locate_column_field(t, src, "a", ErrorField::Type)], r#""type":"integer""#);
    assert_eq!(&src[locate_column_field(t, src, "a", ErrorField::Default)], r#""default":"1""#);
    assert_eq!(&src[locate_column_field(t, src, "a", ErrorField::Nullable)], r#""nullable":true"#);
    assert_eq!(&src[locate_column_field(t, src, "a", ErrorField::Comment)], r#""comment":"c""#);
    assert_eq!(&src[locate_column_field(t, src, "a", ErrorField::ForeignKeyRefTable)], r#""ref_table":"u""#);
    // Missing sub-field: the whole foreign_key pair.
    assert!(src[locate_column_field(t, src, "a", ErrorField::ForeignKeyRefColumns)].starts_with(r#""foreign_key""#));
    assert_eq!(&src[locate_constraint(t, src, "uq")], r#"{"name":"uq","type":"unique"}"#);
    // Unknown constraint: the table name.
    assert_eq!(&src[locate_constraint(t, src, "zz")], r#""t""#);
    assert_eq!(locate_column(None, src, "a"), 0..1);
    assert!(locate_top_name(None, src).is_none());
}
