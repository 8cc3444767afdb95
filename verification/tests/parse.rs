use vespertide::parse::{format_from_extension, is_model_file, parse_document, DocumentFormat};

#[test]
fn formats_by_extension() {
    assert_eq!(format_from_extension("json"), Some(DocumentFormat::Json));
    assert_eq!(format_from_extension("yaml"), Some(DocumentFormat::Yaml));
    assert_eq!(format_from_extension("yml"), Some(DocumentFormat::Yaml));
    assert_eq!(format_from_extension("toml"), None);
    assert_eq!(format_from_extension("JSON"), None);
    assert!(is_model_file("yml"));
    assert!(!is_model_file("txt"));
}

#[test]
fn parse_spans_the_whole_source() {
    let src = r#"{"name":"user"}"#;
    let tree = parse_document(src, DocumentFormat::Json).expect("parses");
    assert_eq!(tree.source_len, src.len());
    assert_eq!(tree.nodes[0].start, 0);
    assert_eq!(tree.nodes[0].end, src.len());
    assert!(tree.nodes[0].parent.is_none());
}

use vespertide::parse::build_syntax_tree;
use vespertide::syntax::NodeKind;

fn rec(kind: &str, start: usize, end: usize, depth: u32, named: bool) -> (String, usize, usize, u32, bool, bool, bool) {
    (kind.to_string(), start, end, depth, named, false, false)
}

#[test]
fn parse_json_tree_in_document_order() {
    let src = r#"{"name":"user"}"#;
    let tree = parse_document(src, DocumentFormat::Json).unwrap();
    assert_eq!(tree.nodes[0].kind, NodeKind::Document);
    assert_eq!(tree.nodes[1].kind, NodeKind::Object);
    assert_eq!(tree.nodes[1].parent, Some(0));
    assert_eq!(tree.nodes[2].kind_name, "{");
    assert!(!tree.nodes[2].named);
    assert_eq!(tree.nodes[3].kind, NodeKind::Pair);
    assert_eq!(tree.nodes[3].parent, Some(1));
    assert_eq!((tree.nodes[3].start, tree.nodes[3].end), (1, 14));
    assert_eq!(tree.nodes[1].children.first(), Some(&2));
    assert!(tree.nodes.iter().all(|n| !n.error && !n.missing));
}

#[test]
fn parse_marks_broken_json() {
    let src = r#"{"name": }"#;
    let tree = parse_document(src, DocumentFormat::Json).unwrap();
    assert!(tree.nodes.iter().any(|n| n.error || n.missing));
    assert_eq!(tree.source_len, src.len());
}

#[test]
fn parse_yaml_tree() {
    let src = "name: user\n";
    let tree = parse_document(src, DocumentFormat::Yaml).unwrap();
    assert_eq!(tree.nodes[0].kind, NodeKind::Stream);
    assert!(tree.nodes.iter().any(|n| n.kind == NodeKind::BlockMappingPair));
}

#[test]
fn build_hangs_nodes_by_depth() {
    let recs = vec![
        rec("object", 0, 10, 0, true),
        rec("{", 0, 1, 1, false),
        rec("pair", 1, 9, 1, true),
        rec("string", 1, 5, 2, true),
        rec("}", 9, 10, 1, false),
    ];
    let t = build_syntax_tree(&recs, 10);
    assert_eq!(t.nodes.len(), 5);
    assert_eq!(t.nodes[0].children, vec![1, 2, 4]);
    assert_eq!(t.nodes[2].children, vec![3]);
    assert_eq!(t.nodes[3].parent, Some(2));
    assert_eq!(t.nodes[4].parent, Some(0));
    assert_eq!(t.nodes[3].kind, NodeKind::String);
    assert!(!t.nodes[1].named);
}

#[test]
fn build_clamps_ranges_and_depths() {
    let recs = vec![
        rec("document", 0, 50, 0, true),
        (String::from("pair"), 2, 40, 7, true, true, false),
        rec("string", 0, 3, 0, true),
    ];
    let t = build_syntax_tree(&recs, 20);
    // The root is clamped into the source.
    assert_eq!((t.nodes[0].start, t.nodes[0].end), (0, 20));
    // A depth deeper than the path hangs under the last open node, with its
    // range clamped into the parent's.
    assert_eq!(t.nodes[1].parent, Some(0));
    assert_eq!((t.nodes[1].start, t.nodes[1].end), (2, 20));
    assert!(t.nodes[1].error);
    // Depth 0 past the root hangs under the root.
    assert_eq!(t.nodes[2].parent, Some(0));
    assert_eq!((t.nodes[2].start, t.nodes[2].end), (0, 3));
}
