use vespertide::hover::{compute, DomainHover, TargetTable};
use vespertide::hover_check_expr::{
    check_expr_hover, check_expr_hover_range, render_inline, render_markdown, CheckExprAst,
    CheckExprLiteral, CheckExprOp,
};
use vespertide::parse::{parse_document, DocumentFormat};

fn compare(column: &str, op: CheckExprOp, value: CheckExprLiteral) -> CheckExprAst {
    CheckExprAst::Compare { column: column.to_string(), op, value }
}

/// The planner's parse of `age > 0 AND age < 150`.
fn age_range_ast() -> CheckExprAst {
    CheckExprAst::And(vec![
        compare("age", CheckExprOp::Gt, CheckExprLiteral::Integer(0)),
        compare("age", CheckExprOp::Lt, CheckExprLiteral::Integer(150)),
    ])
}

fn hover_at(src: &str, format: DocumentFormat, offset: usize, ast: &CheckExprAst) -> Option<DomainHover> {
    let tree = parse_document(src, format).expect("source should parse");
    let inner = check_expr_hover_range(&tree, src, offset)?;
    let text = &src[inner.clone()];
    Some(check_expr_hover(inner, text, ast))
}

#[test]
fn hover_json_and_structure() {
    let src = r#"{"name":"users","columns":[{"name":"age","type":"integer","nullable":false}],"constraints":[{"type":"check","name":"chk_age","expr":"age > 0 AND age < 150"}]}"#;
    let offset = src.find("AND").expect("AND present") + 1;
    let hover = hover_at(src, DocumentFormat::Json, offset, &age_range_ast())
        .expect("hover inside JSON CHECK expr should return Some");
    assert!(
        hover.markdown.contains("AND") && hover.markdown.contains("age < 150"),
        "markdown should describe AND structure, got: {}",
        hover.markdown
    );
}

#[test]
fn hover_yaml_block_scalar() {
    let src = r"name: users
columns:
  - name: age
    type: integer
    nullable: false
constraints:
  - type: check
    name: chk_age
    expr: |
      age > 0 AND age < 150
";
    let offset = src.find("age > 0").expect("expr present") + 2;
    let hover = hover_at(src, DocumentFormat::Yaml, offset, &age_range_ast())
        .expect("hover inside YAML block CHECK expr should return Some");
    assert!(
        hover.markdown.contains("age > 0") && hover.markdown.contains("AND"),
        "markdown should reflect YAML block expr, got: {}",
        hover.markdown
    );
}

#[test]
fn hover_cursor_at_expr_end_boundary() {
    let src = r#"{"name":"users","columns":[{"name":"age","type":"integer","nullable":false}],"constraints":[{"type":"check","name":"chk_age","expr":"age > 0"}]}"#;
    let expr_start = src.find("age > 0").expect("expr present");
    let expr_end = expr_start + "age > 0".len();
    let ast = compare("age", CheckExprOp::Gt, CheckExprLiteral::Integer(0));
    assert!(
        hover_at(src, DocumentFormat::Json, expr_end - 1, &ast).is_some(),
        "hover should work on the last byte inside the CHECK expr"
    );
    assert!(
        hover_at(src, DocumentFormat::Json, expr_end, &ast).is_some(),
        "hover should work at the expr inner.end exclusive boundary"
    );
    assert_eq!(
        hover_at(src, DocumentFormat::Json, expr_end + 1, &ast),
        None,
        "hover should not work one byte past the expr boundary"
    );
}

#[test]
fn hover_outside_constraints_returns_none() {
    let src = r#"{"name":"users","columns":[{"name":"age","type":"integer","nullable":false}],"constraints":[{"type":"check","name":"chk_age","expr":"age > 0"}]}"#;
    let offset = src.find("integer").expect("column type present") + 2;
    let ast = compare("age", CheckExprOp::Gt, CheckExprLiteral::Integer(0));
    assert_eq!(hover_at(src, DocumentFormat::Json, offset, &ast), None);
}

#[test]
fn h_s1_hover_inside_and_describes_structure() {
    let src = r#"{"name":"users","columns":[{"name":"age","type":"integer","nullable":false}],"constraints":[{"type":"check","name":"chk_age","expr":"age > 0 AND age < 150"}]}"#;
    let needle = "age > 0 AND";
    let needle_pos = src.find(needle).expect("needle present");
    let pos = needle_pos + needle.len() - 2;
    let hover = hover_at(src, DocumentFormat::Json, pos, &age_range_ast())
        .expect("hover inside a parseable CHECK expression must return Some");
    assert!(hover.markdown.contains("AND"), "got: {}", hover.markdown);
    assert!(
        hover.markdown.to_lowercase().contains("condition")
            || hover.markdown.to_lowercase().contains("predicate"),
        "got: {}",
        hover.markdown
    );
    assert!(hover.markdown.contains("age > 0"), "got: {}", hover.markdown);
    assert!(hover.markdown.contains("age < 150"), "got: {}", hover.markdown);
    let expr_inner_start = src.find(r#""expr":""#).unwrap() + r#""expr":""#.len();
    let expr_inner_end = src[expr_inner_start..].find('"').unwrap() + expr_inner_start;
    assert!(
        hover.byte_range.start >= expr_inner_start
            && hover.byte_range.end <= expr_inner_end
            && hover.byte_range.start < hover.byte_range.end,
        "byte_range must lie inside the expr value, got {:?}",
        hover.byte_range
    );
}

#[test]
fn h_s2_hover_unparseable_is_graceful() {
    let src = r#"{"name":"t","columns":[{"name":"x","type":"integer","nullable":false}],"constraints":[{"type":"check","name":"c","expr":"LOWER(x) = 1"}]}"#;
    let pos = src.find("LOWER(").expect("needle present") + 2;
    let hover = hover_at(src, DocumentFormat::Json, pos, &CheckExprAst::Unparseable);
    if let Some(h) = hover {
        let lower = h.markdown.to_lowercase();
        assert!(
            lower.contains("check") && (lower.contains("parse") || lower.contains("structure")),
            "got: {}",
            h.markdown
        );
    }
}

#[test]
fn h_s3_hover_on_ref_table_still_works() {
    let post_src = r#"{"name":"post","columns":[{"name":"author_id","type":"integer","nullable":false,"foreign_key":{"ref_table":"user","ref_columns":["id"]}}],"constraints":[{"type":"check","name":"chk_pos","expr":"author_id > 0"}]}"#;
    let post_tree = parse_document(post_src, DocumentFormat::Json);
    let pos = post_src.find(r#""ref_table":"user""#).unwrap() + 14;
    // No CHECK expression is under the cursor, so the foreign-key hover runs.
    assert!(check_expr_hover_range(post_tree.as_ref().unwrap(), post_src, pos).is_none());
    let target = TargetTable::Open { columns: Some(vec!["id".to_string()]) };
    let hover = compute(post_src, post_tree.as_ref(), pos, &target)
        .expect("hover on ref_table must still resolve");
    assert!(hover.markdown.contains("Target table"), "got: {}", hover.markdown);
    assert!(hover.markdown.contains("user"), "got: {}", hover.markdown);
}

#[test]
fn markdown_of_and_expression_exactly() {
    let md = render_markdown(&age_range_ast(), "  age > 0 AND age < 150 ");
    assert_eq!(
        md,
        "**Logical AND of 2 conditions**\n\n`age > 0 AND age < 150`\n\n- condition `age > 0`\n- condition `age < 150`\n"
    );
}

#[test]
fn markdown_of_unparseable_expression() {
    let md = render_markdown(&CheckExprAst::Unparseable, " LOWER(x) = 1\n");
    assert_eq!(md, "**CHECK expression** _(could not parse structure)_\n\n`LOWER(x) = 1`");
}

#[test]
fn markdown_of_in_list() {
    let ast = CheckExprAst::In {
        column: "status".to_string(),
        values: vec![
            CheckExprLiteral::String("'a'".to_string()),
            CheckExprLiteral::Integer(-12),
            CheckExprLiteral::Null,
        ],
        negated: true,
    };
    let md = render_markdown(&ast, "status NOT IN ('a', -12, NULL)");
    assert_eq!(
        md,
        "**NOT IN list predicate**\n\n`status NOT IN ('a', -12, NULL)`\n\n- column `status` NOT IN list of 3 values\n- value 'a'\n- value -12\n- value NULL\n"
    );
    assert_eq!(render_inline(&ast), "condition `status NOT IN ('a', -12, NULL)`");
}

#[test]
fn markdown_of_single_value_in_list_is_singular() {
    let ast = CheckExprAst::In {
        column: "k".to_string(),
        values: vec![CheckExprLiteral::Bool(true)],
        negated: false,
    };
    let md = render_markdown(&ast, "k IN (TRUE)");
    assert!(md.contains("- column `k` IN list of 1 value\n- value TRUE\n"), "got: {md}");
}

#[test]
fn markdown_of_between_is_null_and_not() {
    let between = CheckExprAst::Between {
        column: "p".to_string(),
        low: CheckExprLiteral::Float("1.5".to_string()),
        high: CheckExprLiteral::Integer(i64::MIN),
        negated: false,
    };
    assert_eq!(
        render_markdown(&between, "p BETWEEN 1.5 AND -9223372036854775808"),
        "**BETWEEN range predicate**\n\n`p BETWEEN 1.5 AND -9223372036854775808`\n\n- column `p` BETWEEN 1.5 AND -9223372036854775808\n"
    );
    let is_null = CheckExprAst::IsNull { column: "q".to_string(), negated: true };
    assert_eq!(
        render_markdown(&is_null, "q IS NOT NULL"),
        "**IS NOT NULL predicate**\n\n`q IS NOT NULL`\n\n- column `q` IS NOT NULL\n"
    );
    let not = CheckExprAst::Not(Box::new(is_null));
    assert_eq!(
        render_markdown(&not, "NOT (q IS NOT NULL)"),
        "**Logical NOT (negated condition)**\n\n`NOT (q IS NOT NULL)`\n\n- condition `q IS NOT NULL`\n"
    );
    let or = CheckExprAst::Or(vec![not, CheckExprAst::Unparseable, age_range_ast()]);
    assert_eq!(
        render_markdown(&or, "x"),
        "**Logical OR of 3 conditions**\n\n`x`\n\n- nested NOT condition\n- unparseable sub-expression\n- nested AND of 2 conditions\n"
    );
    let cmp = compare("n", CheckExprOp::Ne, CheckExprLiteral::Bool(false));
    assert_eq!(
        render_markdown(&cmp, "n <> FALSE"),
        "**Comparison predicate**\n\n`n <> FALSE`\n\n- column `n` <> FALSE\n"
    );
}
