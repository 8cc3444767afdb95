use vespertide::locator::{ErrorField, ErrorLocation, PlannerError};

fn loc(e: PlannerError) -> Option<(String, Option<String>, Option<String>, Option<ErrorField>)> {
    ErrorLocation::from_planner_error(&e).map(|l| (l.table, l.column, l.constraint, l.field))
}

fn s(x: &str) -> String {
    x.to_string()
}

#[test]
fn planner_errors_point_at_tables_columns_and_constraints() {
    assert_eq!(loc(PlannerError::TableNotFound(s("user"))), Some((s("user"), None, None, None)));
    assert_eq!(loc(PlannerError::TableValidation), None);
    assert_eq!(
        loc(PlannerError::ColumnNotFound(s("user"), s("email"))),
        Some((s("user"), Some(s("email")), None, None))
    );
    assert_eq!(
        loc(PlannerError::InvalidAutoIncrement(s("user"), s("id"))),
        Some((s("user"), Some(s("id")), None, Some(ErrorField::Type)))
    );
    assert_eq!(
        loc(PlannerError::ForeignKeyTableNotFound(s("post"), s("author_id"))),
        Some((s("post"), Some(s("author_id")), None, Some(ErrorField::ForeignKeyRefTable)))
    );
    assert_eq!(
        loc(PlannerError::ForeignKeyColumnNotFound(s("post"), s("author_id"))),
        Some((s("post"), Some(s("author_id")), None, Some(ErrorField::ForeignKeyRefColumns)))
    );
    assert_eq!(
        loc(PlannerError::EmptyConstraintColumns(s("user"), s("uq_email"))),
        Some((s("user"), None, Some(s("uq_email")), None))
    );
    assert_eq!(
        loc(PlannerError::IndexColumnNotFound(s("user"), s("ix_name"), s("name"))),
        Some((s("user"), Some(s("name")), Some(s("ix_name")), None))
    );
    assert_eq!(
        loc(PlannerError::InvalidEnumDefault(s("user"), s("status"))),
        Some((s("user"), Some(s("status")), None, Some(ErrorField::Default)))
    );
}
