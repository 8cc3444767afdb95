use vespertide::parse::{parse_document, DocumentFormat};
use vespertide::references::{compute as references, RefDocument};
use vespertide::rename::{compute, is_valid_identifier, prepare, trim_one_byte, DomainRename};
use vespertide::syntax::SyntaxTree;

fn uri(p: &str) -> String {
    format!("file:///{p}")
}

fn doc<'a>(uri: &'a str, src: &'a str, tree: Option<&'a SyntaxTree>) -> RefDocument<'a> {
    RefDocument { uri, source: src, tree, check_tokens: &[] }
}

fn has_file(plan: &DomainRename, uri: &str) -> bool {
    plan.edits.iter().any(|f| f.uri == uri)
}

#[test]
fn rejects_empty_or_whitespace_or_same_name() {
    let src = r#"{"name":"user","columns":[{"name":"id","type":"integer"}]}"#;
    let tree = parse_document(src, DocumentFormat::Json);
    let pos = src.find(r#""name":"user""#).unwrap() + 9;
    let u = uri("user.json");
    let current = doc(&u, src, tree.as_ref());

    for bad in ["", " ", "\"", "user", "a b"] {
        assert!(
            compute(&current, &[], &[], pos, bad).is_none(),
            "rename to `{bad}` should be rejected"
        );
    }
}

#[test]
fn rename_table_produces_edits_in_declaration_and_each_ref_file() {
    let user_src = r#"{"name":"user","columns":[{"name":"id","type":"integer","primary_key":true}]}"#;
    let user_uri = uri("user.json");
    let user_tree = parse_document(user_src, DocumentFormat::Json).unwrap();

    let post_src = r#"{"name":"post","columns":[{"name":"author_id","type":"integer","foreign_key":{"ref_table":"user","ref_columns":["id"]}}]}"#;
    let post_uri = uri("post.json");
    let post_tree = parse_document(post_src, DocumentFormat::Json).unwrap();

    let open = [doc(&user_uri, user_src, Some(&user_tree)), doc(&post_uri, post_src, Some(&post_tree))];
    let current = doc(&user_uri, user_src, Some(&user_tree));

    let pos = user_src.find(r#""name":"user""#).unwrap() + 9;
    let plan = compute(&current, &open, &[], pos, "account").expect("rename should succeed");

    assert!(has_file(&plan, &user_uri), "declaration file must be edited");
    assert!(has_file(&plan, &post_uri), "reference file must be edited");
    for file_edits in &plan.edits {
        for edit in &file_edits.edits {
            assert_eq!(edit.new_text, "account");
        }
    }
}

#[test]
fn rename_preserves_surrounding_json_quotes() {
    let src = r#"{"name":"user","columns":[{"name":"id","type":"integer","primary_key":true}]}"#;
    let user_uri = uri("user.json");
    let tree = parse_document(src, DocumentFormat::Json).unwrap();
    let open = [doc(&user_uri, src, Some(&tree))];
    let current = doc(&user_uri, src, Some(&tree));

    let pos = src.find(r#""name":"id""#).unwrap() + 9;
    let plan = compute(&current, &open, &[], pos, "a").expect("rename should succeed");

    let file_edits = &plan.edits.iter().find(|f| f.uri == user_uri).expect("edits for user.json").edits;
    assert_eq!(file_edits.len(), 1);
    let edit = &file_edits[0];
    assert_eq!(&src[edit.byte_range.clone()], "id", "must replace ONLY inside the quotes");

    let mut after = String::from(&src[..edit.byte_range.start]);
    after.push_str(&edit.new_text);
    after.push_str(&src[edit.byte_range.end..]);
    assert!(after.contains(r#""a""#), "result must keep the quotes: {after}");
    serde_json::from_str::<serde_json::Value>(&after).expect("rename output must still parse as JSON");
}

#[test]
fn prepare_returns_range_and_placeholder_for_top_level_name() {
    let src = r#"{"name":"user","columns":[{"name":"id","type":"integer"}]}"#;
    let tree = parse_document(src, DocumentFormat::Json).unwrap();
    let pos = src.find(r#""name":"user""#).unwrap() + 9;
    let result = prepare(src, DocumentFormat::Json, Some(&tree), &uri("user.json"), pos)
        .expect("table name should be renameable");
    assert_eq!(result.placeholder, "user");
    assert_eq!(
        &src[result.byte_range.clone()],
        "user",
        "range must select INNER content only (quotes preserved)"
    );
}

#[test]
fn prepare_returns_range_for_column_name() {
    let src = r#"{"name":"u","columns":[{"name":"email","type":"text"}]}"#;
    let tree = parse_document(src, DocumentFormat::Json).unwrap();
    let pos = src.find(r#""name":"email""#).unwrap() + 10;
    let result = prepare(src, DocumentFormat::Json, Some(&tree), &uri("u.json"), pos)
        .expect("column name should be renameable");
    assert_eq!(result.placeholder, "email");
    assert_eq!(&src[result.byte_range.clone()], "email");
}

#[test]
fn prepare_returns_none_outside_renameable_positions() {
    let src = r#"{"name":"u","columns":[{"name":"id","type":"integer"}]}"#;
    let tree = parse_document(src, DocumentFormat::Json).unwrap();
    let result = prepare(src, DocumentFormat::Json, Some(&tree), &uri("u.json"), 0);
    assert!(result.is_none(), "non-symbol positions must not be renameable");
}

#[test]
fn rename_column_scoped_to_its_owning_table() {
    let user_src = r#"{"name":"user","columns":[{"name":"email","type":"text","unique":true}]}"#;
    let user_uri = uri("user.json");
    let user_tree = parse_document(user_src, DocumentFormat::Json).unwrap();

    let post_src = r#"{"name":"post","columns":[{"name":"author_email","type":"text","foreign_key":{"ref_table":"user","ref_columns":["email"]}}]}"#;
    let post_uri = uri("post.json");
    let post_tree = parse_document(post_src, DocumentFormat::Json).unwrap();

    let other_src = r#"{"name":"other","columns":[{"name":"email","type":"text"}]}"#;
    let other_uri = uri("other.json");
    let other_tree = parse_document(other_src, DocumentFormat::Json).unwrap();

    let open = [
        doc(&user_uri, user_src, Some(&user_tree)),
        doc(&post_uri, post_src, Some(&post_tree)),
        doc(&other_uri, other_src, Some(&other_tree)),
    ];
    let current = doc(&user_uri, user_src, Some(&user_tree));

    let pos = user_src.find(r#""name":"email""#).unwrap() + 10;
    let plan = compute(&current, &open, &[], pos, "mail").expect("rename should succeed");

    assert!(has_file(&plan, &user_uri));
    assert!(has_file(&plan, &post_uri));
    assert!(
        !has_file(&plan, &other_uri),
        "unrelated `other.email` column must not be in the rename plan"
    );
}

#[test]
fn prepare_without_tree_is_none() {
    let src = r#"{"name":"user"}"#;
    assert!(prepare(src, DocumentFormat::Json, None, &uri("user.json"), 9).is_none());
}

#[test]
fn prepare_on_key_side_is_none() {
    let src = r#"{"name":"user"}"#;
    let tree = parse_document(src, DocumentFormat::Json).unwrap();
    // Cursor inside the key `"name"`.
    assert!(prepare(src, DocumentFormat::Json, Some(&tree), &uri("user.json"), 3).is_none());
}

#[test]
fn prepare_on_ref_columns_element_names_the_referenced_column() {
    let src = r#"{"name":"post","columns":[{"name":"author_id","type":"integer","foreign_key":{"ref_table":"user","ref_columns":["id"]}}]}"#;
    let tree = parse_document(src, DocumentFormat::Json).unwrap();
    let pos = src.find(r#"["id"]"#).unwrap() + 3;
    let result = prepare(src, DocumentFormat::Json, Some(&tree), &uri("post.json"), pos).unwrap();
    assert_eq!(result.placeholder, "id");
    assert_eq!(&src[result.byte_range.clone()], "id");
}

#[test]
fn prepare_in_yaml_uses_plain_scalar_range() {
    let src = "name: user\ncolumns:\n  - name: id\n    type: integer\n";
    let tree = parse_document(src, DocumentFormat::Yaml).unwrap();
    let pos = src.find("user").unwrap() + 1;
    let result = prepare(src, DocumentFormat::Yaml, Some(&tree), &uri("user.yaml"), pos).unwrap();
    assert_eq!(result.placeholder, "user");
    assert_eq!(&src[result.byte_range.clone()], "user");
}

#[test]
fn rename_groups_edits_by_document_in_uri_order() {
    let user_src = r#"{"name":"user","columns":[{"name":"id","type":"integer"}]}"#;
    let user_uri = uri("user.json");
    let user_tree = parse_document(user_src, DocumentFormat::Json).unwrap();
    let a_src = r#"{"name":"a","columns":[{"name":"u","type":"integer","foreign_key":{"ref_table":"user","ref_columns":["id"]}},{"name":"v","type":"integer","foreign_key":{"ref_table":"user","ref_columns":["id"]}}]}"#;
    let a_uri = uri("a.json");
    let a_tree = parse_document(a_src, DocumentFormat::Json).unwrap();
    let open = [doc(&user_uri, user_src, Some(&user_tree)), doc(&a_uri, a_src, Some(&a_tree))];
    let current = doc(&user_uri, user_src, Some(&user_tree));
    let pos = user_src.find(r#""name":"user""#).unwrap() + 9;
    let plan = compute(&current, &open, &[], pos, "member").unwrap();
    let uris: Vec<&str> = plan.edits.iter().map(|f| f.uri.as_str()).collect();
    assert_eq!(uris, vec![a_uri.as_str(), user_uri.as_str()]);
    assert_eq!(plan.edits[0].edits.len(), 2);
    let starts: Vec<usize> = plan.edits[0].edits.iter().map(|e| e.byte_range.start).collect();
    assert!(starts[0] < starts[1]);
    for e in &plan.edits[0].edits {
        assert_eq!(&a_src[e.byte_range.clone()], "user");
    }
    assert_eq!(plan.edits[1].edits.len(), 1);
}

#[test]
fn rename_with_nothing_referring_outside_the_tree_still_edits_declaration() {
    let src = r#"{"name":"solo","columns":[]}"#;
    let u = uri("solo.json");
    let tree = parse_document(src, DocumentFormat::Json).unwrap();
    let current = doc(&u, src, Some(&tree));
    let pos = src.find("solo").unwrap() + 1;
    let plan = compute(&current, &[], &[], pos, "alone").unwrap();
    assert_eq!(plan.edits.len(), 1);
    assert_eq!(&src[plan.edits[0].edits[0].byte_range.clone()], "solo");
}

#[test]
fn identifier_validation() {
    assert!(is_valid_identifier("user_id"));
    assert!(is_valid_identifier("도서"));
    assert!(!is_valid_identifier(""));
    assert!(!is_valid_identifier("a:b"));
    assert!(!is_valid_identifier("a\tb"));
    assert!(!is_valid_identifier("x{"));
    assert!(!is_valid_identifier("\u{7f}"));
}

#[test]
fn trim_one_byte_needs_two_bytes() {
    assert_eq!(trim_one_byte(&(3..7)), 4..6);
    assert_eq!(trim_one_byte(&(3..5)), 4..4);
    assert_eq!(trim_one_byte(&(3..4)), 3..4);
}

#[test]
fn rename_edits_are_the_references_with_declaration() {
    let user_src = r#"{"name":"user","columns":[{"name":"id","type":"integer"}]}"#;
    let user_uri = uri("user.json");
    let user_tree = parse_document(user_src, DocumentFormat::Json).unwrap();
    let post_src = r#"{"name":"post","columns":[{"name":"u","type":"integer","foreign_key":{"ref_table":"user","ref_columns":["id"]}}]}"#;
    let post_uri = uri("post.json");
    let post_tree = parse_document(post_src, DocumentFormat::Json).unwrap();
    let open = [doc(&user_uri, user_src, Some(&user_tree)), doc(&post_uri, post_src, Some(&post_tree))];
    let current = doc(&post_uri, post_src, Some(&post_tree));
    let pos = post_src.find(r#"["id"]"#).unwrap() + 3;
    let refs = references(&current, &open, &[], pos, true);
    let plan = compute(&current, &open, &[], pos, "uid").unwrap();
    let flattened: Vec<(String, usize, usize)> = plan
        .edits
        .iter()
        .flat_map(|f| f.edits.iter().map(move |e| (f.uri.clone(), e.byte_range.start, e.byte_range.end)))
        .collect();
    let expected: Vec<(String, usize, usize)> =
        refs.iter().map(|r| (r.uri.clone(), r.byte_range.start, r.byte_range.end)).collect();
    assert_eq!(flattened, expected);
    assert_eq!(expected.len(), 2);
}
