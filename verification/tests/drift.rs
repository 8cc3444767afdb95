use vespertide::diagnostics::Severity;
use vespertide::drift::{
    action_to_drift, drift_from_action, lookup_baseline_column, render_comment, render_default, render_nullable,
    BaselineColumn, BaselineTable, DriftKind, MigrationAction, TableConstraint,
};
use vespertide::parse::{parse_document, DocumentFormat};

const SRC: &str = r#"{"name":"user","columns":[{"name":"id","type":"integer","nullable":false,"default":"0","comment":"c"}],"constraints":[{"name":"uq_user","type":"unique"}]}"#;

fn baseline() -> Vec<BaselineTable> {
    vec![BaselineTable {
        name: "user".to_string(),
        columns: vec![BaselineColumn {
            name: "id".to_string(),
            column_type: "Text".to_string(),
            nullable: true,
            default_sql: Some("1".to_string()),
            comment: None,
        }],
    }]
}

fn drift(action: MigrationAction) -> (DriftKind, Option<std::ops::Range<usize>>, String) {
    let tree = parse_document(SRC, DocumentFormat::Json).unwrap();
    action_to_drift(&action, &baseline(), SRC, Some(&tree)).expect("drift record")
}

#[test]
fn codes_are_stable() {
    assert_eq!(DriftKind::CreateTable.code(), "drift-create-table");
    assert_eq!(DriftKind::RawSql.code(), "drift-raw-sql");
    assert_eq!(DriftKind::AddConstraint { name: None }.code(), "drift-add-constraint");
    assert_eq!(
        DriftKind::ModifyColumnNullable { column: "a".into(), before: true, after: false }.code(),
        "drift-modify-nullable"
    );
}

#[test]
fn renderers() {
    assert_eq!(render_default(Some("now()")), "\"now()\"");
    assert_eq!(render_default(None), "<none>");
    assert_eq!(render_comment(Some("x")), "\"x\"");
    assert_eq!(render_nullable(true), "nullable");
    assert_eq!(render_nullable(false), "not null");
}

#[test]
fn create_table_is_anchored_to_table_name() {
    let (kind, range, message) = drift(MigrationAction::CreateTable { table: "user".into() });
    assert_eq!(kind, DriftKind::CreateTable);
    assert_eq!(&SRC[range.unwrap()], r#""user""#);
    assert_eq!(message, "Table 'user' is in the model but not in any applied migration");
}

#[test]
fn rename_column_is_anchored_to_new_column() {
    let (kind, range, message) =
        drift(MigrationAction::RenameColumn { table: "user".into(), from: "uid".into(), to: "id".into() });
    assert_eq!(kind, DriftKind::RenameColumn { from: "uid".into(), to: "id".into() });
    assert!(SRC[range.unwrap()].starts_with(r#"{"name":"id""#));
    assert_eq!(message, "Column rename drift: applied 'uid' → model 'id'");
}

#[test]
fn modify_type_reads_the_baseline() {
    let (kind, range, message) = drift(MigrationAction::ModifyColumnType {
        table: "user".into(),
        column: "id".into(),
        new_type: "Integer".into(),
    });
    assert_eq!(
        kind,
        DriftKind::ModifyColumnType { column: "id".into(), before: "Text".into(), after: "Integer".into() }
    );
    assert_eq!(&SRC[range.unwrap()], r#""type":"integer""#);
    assert_eq!(message, "Type drift on 'id': applied Text → model Integer");
    let (_, _, unknown) = drift(MigrationAction::ModifyColumnType {
        table: "other".into(),
        column: "id".into(),
        new_type: "Integer".into(),
    });
    assert_eq!(unknown, "Type drift on 'id': applied <unknown> → model Integer");
}

#[test]
fn modify_nullable_default_and_comment() {
    let (kind, range, message) =
        drift(MigrationAction::ModifyColumnNullable { table: "user".into(), column: "id".into(), nullable: false });
    assert_eq!(kind, DriftKind::ModifyColumnNullable { column: "id".into(), before: true, after: false });
    assert_eq!(&SRC[range.unwrap()], r#""nullable":false"#);
    assert_eq!(message, "Nullable drift on 'id': applied nullable → model not null");

    let (_, _, message) =
        drift(MigrationAction::ModifyColumnNullable { table: "x".into(), column: "id".into(), nullable: true });
    assert_eq!(message, "Nullable drift on 'id': applied not null → model nullable");

    let (kind, range, message) = drift(MigrationAction::ModifyColumnDefault {
        table: "user".into(),
        column: "id".into(),
        new_default: Some("0".into()),
    });
    assert_eq!(
        kind,
        DriftKind::ModifyColumnDefault { column: "id".into(), before: Some("1".into()), after: Some("0".into()) }
    );
    assert_eq!(&SRC[range.unwrap()], r#""default":"0""#);
    assert_eq!(message, "Default drift on 'id': applied \"1\" → model \"0\"");

    let (_, range, message) = drift(MigrationAction::ModifyColumnComment {
        table: "user".into(),
        column: "id".into(),
        new_comment: Some("c".into()),
    });
    assert_eq!(&SRC[range.unwrap()], r#""comment":"c""#);
    assert_eq!(message, "Comment drift on 'id': applied <none> → model \"c\"");
}

#[test]
fn constraints_are_labelled() {
    let (kind, range, message) = drift(MigrationAction::AddConstraint {
        table: "user".into(),
        constraint: TableConstraint::Unique { name: Some("uq_user".into()) },
    });
    assert_eq!(kind, DriftKind::AddConstraint { name: Some("uq_user".into()) });
    assert_eq!(&SRC[range.unwrap()], r#"{"name":"uq_user","type":"unique"}"#);
    assert_eq!(message, "Constraint added in model: uq_user");

    let (_, range, message) = drift(MigrationAction::RemoveConstraint {
        table: "user".into(),
        constraint: TableConstraint::PrimaryKey,
    });
    assert_eq!(&SRC[range.unwrap()], r#""user""#);
    assert_eq!(message, "Constraint in applied migrations missing from model: <unnamed>");

    let (_, _, message) = drift(MigrationAction::ReplaceConstraint {
        table: "user".into(),
        from: TableConstraint::Check { name: "c1".into() },
        to: TableConstraint::Index { name: None },
    });
    assert_eq!(message, "Constraint replaced: c1 → <unnamed>");
}

#[test]
fn raw_sql_has_no_anchor_and_other_actions_no_drift() {
    let (kind, range, message) = drift(MigrationAction::RawSql { sql: "select 1".into() });
    assert_eq!(kind, DriftKind::RawSql);
    assert!(range.is_none());
    assert_eq!(message, "Raw SQL drift — typed introspection unavailable");
    assert!(action_to_drift(&MigrationAction::Other, &[], SRC, None).is_none());
}

#[test]
fn without_a_tree_there_is_no_anchor() {
    let r = action_to_drift(&MigrationAction::DeleteTable { table: "user".into() }, &[], SRC, None).unwrap();
    assert!(r.1.is_none());
    assert_eq!(r.2, "Table 'user' is in applied migrations but missing from the model");
}

#[test]
fn drift_becomes_information_diagnostic() {
    let tree = parse_document(SRC, DocumentFormat::Json).unwrap();
    let d = drift_from_action(
        "file:///user.json",
        &MigrationAction::AddColumn { table: "user".into(), column: "id".into() },
        &[],
        SRC,
        Some(&tree),
    )
    .unwrap();
    assert_eq!(d.uri, "file:///user.json");
    let diag = d.into_domain_diagnostic().unwrap();
    assert_eq!(diag.severity, Severity::Information);
    assert_eq!(diag.code, "drift-add-column");
    assert_eq!(diag.message, "Column 'id' is in the model but not in any applied migration");
    let unanchored =
        drift_from_action("u", &MigrationAction::RawSql { sql: String::new() }, &[], SRC, None).unwrap();
    assert!(unanchored.into_domain_diagnostic().is_none());
}

#[test]
fn baseline_lookup_takes_first_table() {
    let b = vec![
        BaselineTable { name: "t".into(), columns: vec![] },
        BaselineTable {
            name: "t".into(),
            columns: vec![BaselineColumn {
                name: "a".into(),
                column_type: "X".into(),
                nullable: false,
                default_sql: None,
                comment: None,
            }],
        },
    ];
    assert!(lookup_baseline_column(&b, "t", "a").is_none());
    assert!(lookup_baseline_column(&baseline(), "user", "id").is_some());
}
