use vespertide::check_expr::{between_candidates, BetweenCandidate, CheckToken, CheckTokenKind, LiteralOrder};
use vespertide::code_actions::{check_expr_range_at, compute, DomainCodeAction};
use vespertide::parse::{parse_document, DocumentFormat};
use vespertide::syntax::SyntaxTree;

fn parse(src: &str) -> SyntaxTree {
    parse_document(src, DocumentFormat::Json).unwrap()
}

/// A small CHECK lexer for the expressions used below: identifiers,
/// keywords, numbers, single-quoted strings, operators and punctuation.
fn lex(expr: &str) -> Vec<CheckToken> {
    let bytes = expr.as_bytes();
    let mut out = Vec::new();
    let mut i = 0;
    while i < bytes.len() {
        let c = bytes[i];
        if c.is_ascii_whitespace() {
            i += 1;
        } else if c == b'\'' {
            let start = i;
            i += 1;
            while i < bytes.len() && bytes[i] != b'\'' {
                i += 1;
            }
            i += 1;
            out.push(CheckToken { kind: CheckTokenKind::String, span: start..i.min(bytes.len()) });
        } else if c.is_ascii_digit() {
            let start = i;
            while i < bytes.len() && (bytes[i].is_ascii_digit() || bytes[i] == b'.') {
                i += 1;
            }
            out.push(CheckToken { kind: CheckTokenKind::Number, span: start..i });
        } else if c.is_ascii_alphabetic() || c == b'_' {
            let start = i;
            while i < bytes.len() && (bytes[i].is_ascii_alphanumeric() || bytes[i] == b'_') {
                i += 1;
            }
            let word = &expr[start..i];
            let kind = match word.to_ascii_uppercase().as_str() {
                "AND" | "OR" | "NOT" | "IN" | "BETWEEN" | "IS" | "NULL" => CheckTokenKind::Keyword,
                _ => CheckTokenKind::Column,
            };
            out.push(CheckToken { kind, span: start..i });
        } else if c == b'(' || c == b')' || c == b',' {
            out.push(CheckToken { kind: CheckTokenKind::Punctuation, span: i..i + 1 });
            i += 1;
        } else {
            let start = i;
            while i < bytes.len() && b"<>=!".contains(&bytes[i]) {
                i += 1;
            }
            if i == start {
                i += 1;
            }
            out.push(CheckToken { kind: CheckTokenKind::Operator, span: start..i });
        }
    }
    out
}

/// The BETWEEN candidates of the CHECK expression around `cursor`, with
/// float pairs decided as `f64`.
fn candidates(src: &str, tree: &SyntaxTree, cursor: usize) -> Vec<BetweenCandidate> {
    match check_expr_range_at(tree, src, cursor) {
        Some(inner) => {
            let expr = &src[inner];
            let mut cands = between_candidates(expr, &lex(expr));
            for c in cands.iter_mut() {
                if c.order == LiteralOrder::FloatPair {
                    let a: f64 = c.low_text.parse().unwrap();
                    let b: f64 = c.high_text.parse().unwrap();
                    c.float_greater = Some(a > b);
                }
            }
            cands
        }
        None => Vec::new(),
    }
}

fn actions_at(src: &str, cursor: usize) -> Vec<DomainCodeAction> {
    let tree = parse(src);
    let cands = candidates(src, &tree, cursor);
    compute(src, DocumentFormat::Json, Some(&tree), cursor..cursor, &cands)
}

fn apply(src: &str, action: &DomainCodeAction) -> String {
    let mut edits: Vec<_> = action.edits.iter().collect();
    edits.sort_by_key(|e| std::cmp::Reverse(e.byte_range.start));
    let mut out = src.to_string();
    for e in edits {
        out.replace_range(e.byte_range.clone(), &e.new_text);
    }
    out
}

#[test]
fn add_primary_key_when_absent() {
    let src = r#"{"name":"u","columns":[{"name":"id","type":"integer"}]}"#;
    let cursor = src.find(r#""name":"id""#).unwrap() + 2;
    let actions = actions_at(src, cursor);
    let action = actions
        .iter()
        .find(|a| a.title == "Mark column as primary key")
        .expect("primary_key add action missing");
    assert_eq!(action.edits.len(), 1);
    assert_eq!(action.edits[0].new_text, r#","primary_key":true"#);
}

#[test]
fn remove_primary_key_when_present() {
    let src = r#"{"name":"u","columns":[{"name":"id","type":"integer","primary_key":true}]}"#;
    let cursor = src.find(r#""name":"id""#).unwrap() + 2;
    let actions = actions_at(src, cursor);
    let action = actions
        .iter()
        .find(|a| a.title == "Unmark primary key")
        .expect("primary_key remove action missing");
    let after = apply(src, action);
    assert!(serde_json::from_str::<serde_json::Value>(&after).is_ok());
    assert!(!after.contains("primary_key"));
}

#[test]
fn toggle_nullable_flips_value() {
    let src = r#"{"name":"u","columns":[{"name":"id","type":"integer","nullable":false}]}"#;
    let cursor = src.find(r#""name":"id""#).unwrap() + 2;
    let actions = actions_at(src, cursor);
    let action = actions.iter().find(|a| a.title == "Allow NULL").expect("nullable toggle missing");
    let edit = &action.edits[0];
    assert_eq!(edit.new_text, "true");
    assert_eq!(&src[edit.byte_range.clone()], "false");
}

#[test]
fn cursor_outside_column_returns_no_actions() {
    let src = r#"{"name":"u","columns":[{"name":"id","type":"integer"}]}"#;
    let cursor = src.find(r#""name":"u""#).unwrap() + 9;
    let actions = actions_at(src, cursor);
    assert!(actions.is_empty(), "no actions expected outside a column, got: {actions:?}");
}

#[test]
fn text_column_offers_varchar_conversion() {
    let src = r#"{"name":"u","columns":[{"name":"title","type":"text"}]}"#;
    let cursor = src.find(r#""title""#).unwrap() + 2;
    let actions = actions_at(src, cursor);
    let convert = actions
        .iter()
        .find(|a| a.title == "Convert to varchar(255)")
        .expect("text → varchar action");
    let after = apply(src, convert);
    assert!(after.contains(r#""kind":"varchar""#));
    serde_json::from_str::<serde_json::Value>(&after).expect("valid JSON");
}

#[test]
fn integer_column_offers_numeric_conversion() {
    let src = r#"{"name":"u","columns":[{"name":"amount","type":"integer"}]}"#;
    let cursor = src.find(r#""amount""#).unwrap() + 2;
    let actions = actions_at(src, cursor);
    let convert = actions
        .iter()
        .find(|a| a.title == "Convert to numeric(10,2)")
        .expect("integer → numeric action");
    assert!(convert.edits[0].new_text.contains(r#""kind":"numeric""#));
}

#[test]
fn complex_type_already_does_not_offer_conversion() {
    let src = r#"{"name":"u","columns":[{"name":"t","type":{"kind":"varchar","length":100}}]}"#;
    let cursor = src.find(r#""t""#).unwrap() + 1;
    let actions = actions_at(src, cursor);
    assert!(actions.iter().all(|a| !a.title.starts_with("Convert to")));
}

#[test]
fn extract_default_to_enum_offered_when_default_is_sql_literal() {
    let src = r#"{"name":"u","columns":[{"name":"status","type":"text","default":"'pending'"}]}"#;
    let cursor = src.find(r#""status""#).unwrap() + 2;
    let actions = actions_at(src, cursor);
    let extract = actions
        .iter()
        .find(|a| a.title.starts_with("Extract default into enum"))
        .expect("enum extraction action");
    let edit = &extract.edits[0];
    assert!(edit.new_text.contains(r#""kind":"enum""#));
    assert!(edit.new_text.contains(r#""pending""#));
}

#[test]
fn extract_default_to_enum_skipped_when_default_is_bare() {
    let src = r#"{"name":"u","columns":[{"name":"x","type":"integer","default":0}]}"#;
    let cursor = src.find(r#""x""#).unwrap() + 1;
    let actions = actions_at(src, cursor);
    assert!(actions.iter().all(|a| !a.title.starts_with("Extract default")));
}

#[test]
fn add_foreign_key_skeleton_offered_when_absent() {
    let src = r#"{"name":"u","columns":[{"name":"author_id","type":"integer"}]}"#;
    let cursor = src.find(r#""author_id""#).unwrap() + 2;
    let actions = actions_at(src, cursor);
    let fk = actions
        .iter()
        .find(|a| a.title == "Add foreign_key skeleton")
        .expect("foreign_key skeleton action");
    let after = apply(src, fk);
    assert!(after.contains(r#""foreign_key""#));
    serde_json::from_str::<serde_json::Value>(&after).expect("valid JSON");
}

#[test]
fn add_foreign_key_skeleton_skipped_when_already_present() {
    let src = r#"{"name":"u","columns":[{"name":"author_id","type":"integer","foreign_key":{"ref_table":"user","ref_columns":["id"]}}]}"#;
    let cursor = src.find(r#""author_id""#).unwrap() + 2;
    let actions = actions_at(src, cursor);
    assert!(actions.iter().all(|a| a.title != "Add foreign_key skeleton"));
}

#[test]
fn yaml_returns_no_actions_in_v1() {
    let src = "name: u\ncolumns:\n  - name: id\n    type: integer\n";
    let tree = parse_document(src, DocumentFormat::Yaml).unwrap();
    let cursor = src.find("name: id").unwrap();
    let actions = compute(src, DocumentFormat::Yaml, Some(&tree), cursor..cursor, &[]);
    assert!(actions.is_empty(), "YAML actions are out of scope in V1");
}

#[test]
fn reversed_integer_between_offers_swap() {
    let src = r#"{"name":"u","columns":[{"name":"age","type":"integer"}],"constraints":[{"type":"check","name":"chk","expr":"age BETWEEN 100 AND 0"}]}"#;
    let cursor = src.find("BETWEEN").unwrap() + 2;
    let actions = actions_at(src, cursor);
    let swap = actions
        .iter()
        .find(|a| a.title == "Swap reversed BETWEEN bounds")
        .expect("BETWEEN swap action missing");
    let after = apply(src, swap);
    assert!(after.contains(r#""expr":"age BETWEEN 0 AND 100""#), "bounds must be swapped, got: {after}");
    serde_json::from_str::<serde_json::Value>(&after).expect("valid JSON after swap");
}

#[test]
fn correctly_ordered_between_offers_no_swap() {
    let src = r#"{"name":"u","columns":[{"name":"age","type":"integer"}],"constraints":[{"type":"check","name":"chk","expr":"age BETWEEN 0 AND 100"}]}"#;
    let cursor = src.find("BETWEEN").unwrap() + 2;
    let actions = actions_at(src, cursor);
    assert!(
        actions.iter().all(|a| a.title != "Swap reversed BETWEEN bounds"),
        "correctly-ordered BETWEEN must not offer a swap"
    );
}

#[test]
fn not_between_reversed_offers_no_swap() {
    let src = r#"{"name":"u","columns":[{"name":"age","type":"integer"}],"constraints":[{"type":"check","name":"chk","expr":"age NOT BETWEEN 100 AND 0"}]}"#;
    let cursor = src.find("BETWEEN").unwrap() + 2;
    let actions = actions_at(src, cursor);
    assert!(
        actions.iter().all(|a| a.title != "Swap reversed BETWEEN bounds"),
        "NOT BETWEEN reversed is harmless; no swap expected"
    );
}

#[test]
fn reversed_string_between_offers_swap() {
    let src = r#"{"name":"u","columns":[{"name":"code","type":"text"}],"constraints":[{"type":"check","name":"chk","expr":"code BETWEEN 'z' AND 'a'"}]}"#;
    let cursor = src.find("BETWEEN").unwrap() + 2;
    let actions = actions_at(src, cursor);
    let swap = actions
        .iter()
        .find(|a| a.title == "Swap reversed BETWEEN bounds")
        .expect("string BETWEEN swap action missing");
    let after = apply(src, swap);
    assert!(after.contains(r#""expr":"code BETWEEN 'a' AND 'z'""#), "string bounds must be swapped, got: {after}");
    serde_json::from_str::<serde_json::Value>(&after).expect("valid JSON after swap");
}

#[test]
fn mixed_type_between_offers_no_swap() {
    let src = r#"{"name":"u","columns":[{"name":"x","type":"integer"}],"constraints":[{"type":"check","name":"chk","expr":"x BETWEEN 100 AND 'a'"}]}"#;
    let cursor = src.find("BETWEEN").unwrap() + 2;
    let actions = actions_at(src, cursor);
    assert!(
        actions.iter().all(|a| a.title != "Swap reversed BETWEEN bounds"),
        "mixed-type BETWEEN must not offer a swap"
    );
}

#[test]
fn cursor_on_column_offers_no_between_swap() {
    let src = r#"{"name":"u","columns":[{"name":"age","type":"integer"}],"constraints":[{"type":"check","name":"chk","expr":"age BETWEEN 100 AND 0"}]}"#;
    let cursor = src.find(r#""name":"age""#).unwrap() + 8;
    let actions = actions_at(src, cursor);
    assert!(
        actions.iter().all(|a| a.title != "Swap reversed BETWEEN bounds"),
        "BETWEEN swap must only fire inside the CHECK expr"
    );
}

#[test]
fn reversed_string_between_with_non_ascii_does_not_panic_and_swaps() {
    let src = r#"{"name":"u","columns":[{"name":"code","type":"text"}],"constraints":[{"type":"check","name":"chk","expr":"code BETWEEN 'über' AND 'apple'"}]}"#;
    let cursor = src.find("BETWEEN").unwrap() + 2;
    let actions = actions_at(src, cursor);
    let swap = actions
        .iter()
        .find(|a| a.title == "Swap reversed BETWEEN bounds")
        .expect("non-ASCII string BETWEEN swap action missing");
    let after = apply(src, swap);
    serde_json::from_str::<serde_json::Value>(&after).expect("swap of non-ASCII bounds must still parse as JSON");
    assert!(after.contains("'apple' AND 'über'"), "got: {after}");
}

#[test]
fn huge_integer_between_beyond_i64_offers_no_swap() {
    let big = "99999999999999999999999999";
    let src = format!(
        r#"{{"name":"u","columns":[{{"name":"n","type":"integer"}}],"constraints":[{{"type":"check","name":"chk","expr":"n BETWEEN {big} AND 0"}}]}}"#
    );
    let cursor = src.find("BETWEEN").unwrap() + 2;
    let actions = actions_at(&src, cursor);
    assert!(
        actions.iter().all(|a| a.title != "Swap reversed BETWEEN bounds"),
        "i64-overflow integer bounds must not be ordered via f64; no swap expected"
    );
}

#[test]
fn between_swap_inside_and_composition() {
    let src = r#"{"name":"u","columns":[{"name":"age","type":"integer"}],"constraints":[{"type":"check","name":"chk","expr":"age > 0 AND age BETWEEN 150 AND 18"}]}"#;
    let cursor = src.find("BETWEEN").unwrap() + 2;
    let actions = actions_at(src, cursor);
    let swap = actions
        .iter()
        .find(|a| a.title == "Swap reversed BETWEEN bounds")
        .expect("nested BETWEEN swap action missing");
    let after = apply(src, swap);
    assert!(after.contains("age > 0 AND age BETWEEN 18 AND 150"), "nested bounds must be swapped, got: {after}");
}

#[test]
fn reversed_float_between_swaps_when_caller_orders_floats() {
    let src = r#"{"name":"u","columns":[{"name":"p","type":"real"}],"constraints":[{"type":"check","name":"chk","expr":"p BETWEEN 2.5 AND 1.25"}]}"#;
    let cursor = src.find("BETWEEN").unwrap() + 2;
    let actions = actions_at(src, cursor);
    let swap = actions
        .iter()
        .find(|a| a.title == "Swap reversed BETWEEN bounds")
        .expect("float BETWEEN swap action missing");
    let after = apply(src, swap);
    assert!(after.contains("p BETWEEN 1.25 AND 2.5"), "got: {after}");
}
