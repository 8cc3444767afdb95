use vespertide::definition::{find_top_level_name_range, ref_table_at, target_location};
use vespertide::hover::{compute, constraint_is_enabled, display_value, foreign_key_markdown, TargetTable};
use vespertide::parse::{parse_document, DocumentFormat};

#[test]
fn hover_outside_returns_none() {
    let src = r#"{"name": "user"}"#;
    let tree = parse_document(src, DocumentFormat::Json);
    let hover = compute(src, tree.as_ref(), 0, &TargetTable::NotFound);
    assert!(hover.is_none());
}

#[test]
fn hover_on_column_name_returns_some() {
    let src = r#"{"name":"user","columns":[{"name":"id","type":"integer","nullable":false,"primary_key":true}]}"#;
    let tree = parse_document(src, DocumentFormat::Json);
    let pos = src.find(r#""name":"id""#).unwrap() + 5;
    let hover = compute(src, tree.as_ref(), pos, &TargetTable::NotFound);
    assert!(hover.is_some(), "hover on column should return Some");
}

#[test]
fn hover_on_column_returns_some() {
    let src = r#"{"name":"user","columns":[{"name":"id","type":"integer","nullable":false,"primary_key":true}]}"#;
    let tree = parse_document(src, DocumentFormat::Json);
    let pos = src.find(r#""name":"id""#).unwrap() + 5;
    let hover = compute(src, tree.as_ref(), pos, &TargetTable::NotFound).unwrap();
    assert!(hover.markdown.contains("id"), "markdown should contain column name");
    assert_eq!(hover.markdown, "**id**: `integer`  \nnullable: `false`  \nconstraints: PK");
}

#[test]
fn hover_on_fk_ref_table_previews_target_columns() {
    let post_src = r#"{"name":"post","columns":[{"name":"author_id","type":"integer","nullable":false,"foreign_key":{"ref_table":"user","ref_columns":["id"]}}]}"#;
    let tree = parse_document(post_src, DocumentFormat::Json).unwrap();
    let pos = post_src.find(r#""ref_table":"user""#).unwrap() + 14;
    let (name, range) = ref_table_at(&tree, post_src, pos).unwrap();
    assert_eq!(name, "user");
    assert_eq!(&post_src[range], r#""user""#);
    // `user` is open, and its text parses with one column `id`.
    let target = TargetTable::Open { columns: Some(vec!["id".to_string()]) };
    let hover = compute(post_src, Some(&tree), pos, &target).unwrap();
    assert!(hover.markdown.contains("Target table"));
    assert!(hover.markdown.contains("columns: id"));
}

#[test]
fn cross_file_definition_resolves() {
    let user_src = r#"{"name":"user","columns":[{"name":"id","type":"integer","nullable":false,"primary_key":true}]}"#;
    let user_tree = parse_document(user_src, DocumentFormat::Json).unwrap();
    let post_src = r#"{"name":"post","columns":[{"name":"author_id","type":"integer","nullable":false,"foreign_key":{"ref_table":"user","ref_columns":["id"]}}]}"#;
    let post_tree = parse_document(post_src, DocumentFormat::Json).unwrap();
    let pos = post_src.find(r#""ref_table":"user""#).unwrap() + 14;
    let (name, _) = ref_table_at(&post_tree, post_src, pos).expect("ref_table under cursor");
    assert_eq!(name, "user");
    let location = target_location("file:///user.json", Some((user_src, Some(&user_tree))));
    assert_eq!(location.uri, "file:///user.json");
    assert_eq!(&user_src[location.byte_range], r#""user""#);
}

// ---------------------------------------------------------------------------

#[test]
fn column_hover_markdown_lists_default_and_constraints() {
    let src = r#"{"name":"t","columns":[{"name":"code","type":" text ","default":"'x'","unique":true,"index":false,"foreign_key":{"ref_table":"u"}}]}"#;
    let tree = parse_document(src, DocumentFormat::Json);
    let pos = src.find(r#""code""#).unwrap() + 2;
    let hover = compute(src, tree.as_ref(), pos, &TargetTable::NotFound).unwrap();
    assert_eq!(hover.markdown, "**code**: `text`  \ndefault: `x`  \nconstraints: UNIQUE, FK");
    assert_eq!(&src[hover.byte_range], "code");
}

#[test]
fn yaml_column_hover() {
    let src = "name: t\ncolumns:\n  - name: id\n    type: uuid\n    nullable: true\n";
    let tree = parse_document(src, DocumentFormat::Yaml);
    let pos = src.find("name: id").unwrap() + 7;
    let hover = compute(src, tree.as_ref(), pos, &TargetTable::NotFound).unwrap();
    assert_eq!(hover.markdown, "**id**: `uuid`  \nnullable: `true`");
}

#[test]
fn foreign_key_previews() {
    assert_eq!(
        foreign_key_markdown("user", &TargetTable::Open { columns: None }),
        "**Target table**: `user`\n\n_columns unavailable_"
    );
    assert_eq!(
        foreign_key_markdown("user", &TargetTable::OnDisk { columns: vec!["id".into(), "email".into()] }),
        "**Target table**: `user` _(on disk)_\n\ncolumns: id, email"
    );
    assert_eq!(
        foreign_key_markdown("user", &TargetTable::NotFound),
        "**Target table**: `user`\n\n⚠ table not found in workspace"
    );
}

#[test]
fn constraint_flags_and_display() {
    assert!(constraint_is_enabled("true"));
    assert!(constraint_is_enabled("{\"ref_table\":\"u\"}"));
    assert!(!constraint_is_enabled(" false "));
    assert!(!constraint_is_enabled("null"));
    assert!(!constraint_is_enabled("[]"));
    assert!(!constraint_is_enabled("{}"));
    assert_eq!(display_value("  \"abc\" "), "abc");
}

#[test]
fn top_level_name_falls_back_to_first_name() {
    let src = r#"[{"x":{"name":"inner"}}]"#;
    let tree = parse_document(src, DocumentFormat::Json).unwrap();
    let r = find_top_level_name_range(&tree, src).unwrap();
    assert_eq!(&src[r], r#""inner""#);
    let loc = target_location("u", None);
    assert_eq!(loc.byte_range, 0..0);
}
