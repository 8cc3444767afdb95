use vespertide::naming::{
    build_check_constraint_name, build_enum_type_name, build_foreign_key_name, build_index_name,
    build_unique_constraint_name,
};


// ========================================================================
// Constraint Naming Tests
// ========================================================================

#[test]
fn test_build_index_name_with_key() {
    assert_eq!(
        build_index_name("users", &["email"], Some("email_idx")),
        "ix_users__email_idx"
    );
}

#[test]
fn test_build_index_name_without_key() {
    assert_eq!(
        build_index_name("users", &["email"], None),
        "ix_users__email"
    );
}

#[test]
fn test_build_index_name_multiple_columns() {
    assert_eq!(
        build_index_name("users", &["first_name", "last_name"], None),
        "ix_users__first_name_last_name"
    );
}

#[test]
fn test_build_index_name_multiple_columns_is_deterministic() {
    assert_eq!(
        build_index_name("users", &["last_name", "first_name"], None),
        build_index_name("users", &["first_name", "last_name"], None)
    );
}

#[test]
fn test_build_index_name_sorts_columns_for_deterministic_name() {
    let columns = vec!["last_name".to_string(), "first_name".to_string()];
    let reversed = vec!["first_name".to_string(), "last_name".to_string()];

    assert_eq!(
        build_index_name("users", &columns, None),
        build_index_name("users", &reversed, None)
    );
}

#[test]
fn test_build_unique_constraint_name_with_key() {
    assert_eq!(
        build_unique_constraint_name("users", &["email"], Some("email_unique")),
        "uq_users__email_unique"
    );
}

#[test]
fn test_build_unique_constraint_name_without_key() {
    assert_eq!(
        build_unique_constraint_name("users", &["email"], None),
        "uq_users__email"
    );
}

#[test]
fn test_build_unique_constraint_name_multiple_columns_is_deterministic() {
    assert_eq!(
        build_unique_constraint_name("users", &["last_name", "first_name"], None),
        build_unique_constraint_name("users", &["first_name", "last_name"], None)
    );
}

#[test]
fn test_build_unique_constraint_name_sorts_columns_for_deterministic_name() {
    let columns = vec!["product_id".to_string(), "order_id".to_string()];
    let reversed = vec!["order_id".to_string(), "product_id".to_string()];

    assert_eq!(
        build_unique_constraint_name("order_items", &columns, None),
        build_unique_constraint_name("order_items", &reversed, None)
    );
}

#[test]
fn test_build_foreign_key_name_with_key() {
    assert_eq!(
        build_foreign_key_name("posts", &["user_id"], Some("fk_user")),
        "fk_posts__fk_user"
    );
}

#[test]
fn test_build_foreign_key_name_without_key() {
    assert_eq!(
        build_foreign_key_name("posts", &["user_id"], None),
        "fk_posts__user_id"
    );
}

#[test]
fn test_build_foreign_key_name_multiple_columns_is_deterministic() {
    assert_eq!(
        build_foreign_key_name("posts", &["tenant_id", "user_id"], None),
        build_foreign_key_name("posts", &["user_id", "tenant_id"], None)
    );
}

#[test]
fn test_build_foreign_key_name_sorts_columns_for_deterministic_name() {
    let columns = vec!["tenant_id".to_string(), "account_id".to_string()];
    let reversed = vec!["account_id".to_string(), "tenant_id".to_string()];

    assert_eq!(
        build_foreign_key_name("memberships", &columns, None),
        build_foreign_key_name("memberships", &reversed, None)
    );
}

#[test]
fn test_build_check_constraint_name() {
    assert_eq!(
        build_check_constraint_name("users", "status"),
        "chk_users__status"
    );
}

#[test]
fn test_build_enum_type_name() {
    assert_eq!(build_enum_type_name("users", "status"), "users_status");
}

#[test]
fn test_build_enum_type_name_with_existing_prefix() {
    // Even if enum_name already has table prefix, we add it
    // User should provide clean enum name (e.g., "status" not "users_status")
    assert_eq!(
        build_enum_type_name("users", "user_status"),
        "users_user_status"
    );
}

#[test]
fn test_build_enum_type_name_prevents_conflicts() {
    // Different tables can have same enum name without conflict
    assert_eq!(build_enum_type_name("users", "gender"), "users_gender");
    assert_eq!(
        build_enum_type_name("employees", "gender"),
        "employees_gender"
    );

    assert_eq!(build_enum_type_name("orders", "status"), "orders_status");
    assert_eq!(
        build_enum_type_name("shipments", "status"),
        "shipments_status"
    );
}

#[test]
fn index_name_sorts_three_columns() {
    assert_eq!(
        build_index_name("t", &["c", "a", "b"], None),
        "ix_t__a_b_c"
    );
}

#[test]
fn index_name_with_no_columns_and_no_key() {
    let none: [&str; 0] = [];
    assert_eq!(build_index_name("t", &none, None), "ix_t__");
}

#[test]
fn index_name_sorts_non_ascii_by_code_point() {
    // Upper case sorts before lower case, ASCII before Hangul.
    assert_eq!(
        build_unique_constraint_name("t", &["도", "b", "B"], None),
        "uq_t__B_b_도"
    );
}

#[test]
fn duplicate_columns_are_kept() {
    assert_eq!(
        build_foreign_key_name("t", &["x", "x"], None),
        "fk_t__x_x"
    );
}

#[test]
fn prefix_order_is_by_length_when_equal_prefix() {
    assert_eq!(
        build_index_name("t", &["ab", "a"], None),
        "ix_t__a_ab"
    );
}
