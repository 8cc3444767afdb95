use vespertide::parse::DocumentFormat;
use vespertide::store::{format_of_uri, DocumentStore};

fn uri(path: &str) -> String {
    format!("file:///{path}")
}

#[test]
fn open_insert_update_close() {
    let mut store = DocumentStore::new();
    let u = uri("test.json");
    assert!(store.is_empty());

    store.open(u.clone(), "json".to_string(), 1, r#"{"name": "user"}"#.to_string());
    assert_eq!(store.len(), 1);

    store.update_full(&u, r#"{"name": "post"}"#.to_string(), 2);
    let text = store.text_of(&u).unwrap();
    assert!(text.contains("post"));

    store.close(&u);
    assert!(store.is_empty());
}

#[test]
fn update_of_unopened_document_changes_nothing() {
    let mut store = DocumentStore::new();
    store.update_full(&uri("ghost.json"), "{}".to_string(), 3);
    assert!(store.is_empty());
    assert!(store.text_of(&uri("ghost.json")).is_none());
}

#[test]
fn reopening_replaces_and_uris_are_listed_once() {
    let mut store = DocumentStore::new();
    store.open(uri("a.yaml"), "yaml".to_string(), 1, "name: a\n".to_string());
    store.open(uri("b.json"), "json".to_string(), 1, "{}".to_string());
    store.open(uri("a.yaml"), "yaml".to_string(), 2, "name: aa\n".to_string());
    assert_eq!(store.len(), 2);
    assert_eq!(store.text_of(&uri("a.yaml")).unwrap(), "name: aa\n");
    let mut uris = store.open_uris();
    uris.sort();
    assert_eq!(uris, vec![uri("a.yaml"), uri("b.json")]);
}

#[test]
fn snapshot_parses_in_the_uri_format() {
    let mut store = DocumentStore::new();
    store.open(uri("t.yml"), "yaml".to_string(), 1, "name: t\n".to_string());
    store.open(uri("notes.txt"), "plaintext".to_string(), 1, r#"{"name":"n"}"#.to_string());
    let s = store.snapshot(&uri("t.yml")).unwrap();
    assert_eq!(s.format, DocumentFormat::Yaml);
    assert!(s.tree.is_some());
    let n = store.snapshot(&uri("notes.txt")).unwrap();
    assert_eq!(n.format, DocumentFormat::Json);
    assert!(store.snapshot(&uri("missing.json")).is_none());
}

#[test]
fn format_by_uri_extension() {
    assert_eq!(format_of_uri("file:///m/user.vespertide.json"), Some(DocumentFormat::Json));
    assert_eq!(format_of_uri("file:///m/user.yaml"), Some(DocumentFormat::Yaml));
    assert_eq!(format_of_uri("file:///m/user.yml"), Some(DocumentFormat::Yaml));
    assert_eq!(format_of_uri("file:///m/user.toml"), None);
}
