//! Drift: differences between the model files and the schema that the
//! applied migrations produce, reported as informational diagnostics on
//! the model file that has drifted.
//!
//! The schema diff itself is computed elsewhere; this module turns each
//! action of the diff into a drift record: its kind, the range of the
//! model file it is anchored to, and the message shown to the user.

use std::ops::Range;
use vstd::prelude::*;
use crate::syntax::SyntaxTree;
use crate::locator::{
    ErrorField, locate_top_name, locate_column, locate_column_field, locate_constraint,
    spec_locate_top_name, spec_locate_column, spec_locate_column_field, spec_locate_constraint,
    opt_chars,
};
use crate::text::str_eq;
use crate::diagnostics::{DomainDiagnostic, Severity};

verus! {

/// The kind of one drift, with the values its message mentions.
#[derive(Debug, Clone, PartialEq, Eq)]
pub enum DriftKind {
    CreateTable,
    DeleteTable,
    RenameTable { from: String, to: String },
    AddColumn { column: String },
    DeleteColumn { column: String },
    RenameColumn { from: String, to: String },
    ModifyColumnType { column: String, before: String, after: String },
    ModifyColumnNullable { column: String, before: bool, after: bool },
    ModifyColumnDefault { column: String, before: Option<String>, after: Option<String> },
    ModifyColumnComment { column: String, before: Option<String>, after: Option<String> },
    AddConstraint { name: Option<String> },
    RemoveConstraint { name: Option<String> },
    ReplaceConstraint { name: Option<String> },
    RawSql,
}

/// `DriftKind` with its strings as character sequences.
pub enum DriftKindView {
    CreateTable,
    DeleteTable,
    RenameTable { from: Seq<char>, to: Seq<char> },
    AddColumn { column: Seq<char> },
    DeleteColumn { column: Seq<char> },
    RenameColumn { from: Seq<char>, to: Seq<char> },
    ModifyColumnType { column: Seq<char>, before: Seq<char>, after: Seq<char> },
    ModifyColumnNullable { column: Seq<char>, before: bool, after: bool },
    ModifyColumnDefault { column: Seq<char>, before: Option<Seq<char>>, after: Option<Seq<char>> },
    ModifyColumnComment { column: Seq<char>, before: Option<Seq<char>>, after: Option<Seq<char>> },
    AddConstraint { name: Option<Seq<char>> },
    RemoveConstraint { name: Option<Seq<char>> },
    ReplaceConstraint { name: Option<Seq<char>> },
    RawSql,
}

impl View for DriftKind {
    type V = DriftKindView;

    open spec fn view(&self) -> DriftKindView {
        match self {
            DriftKind::CreateTable => DriftKindView::CreateTable,
            DriftKind::DeleteTable => DriftKindView::DeleteTable,
            DriftKind::RenameTable { from, to } => DriftKindView::RenameTable { from: from@, to: to@ },
            DriftKind::AddColumn { column } => DriftKindView::AddColumn { column: column@ },
            DriftKind::DeleteColumn { column } => DriftKindView::DeleteColumn { column: column@ },
            DriftKind::RenameColumn { from, to } => DriftKindView::RenameColumn {
                from: from@,
                to: to@,
            },
            DriftKind::ModifyColumnType { column, before, after } =>
                DriftKindView::ModifyColumnType { column: column@, before: before@, after: after@ },
            DriftKind::ModifyColumnNullable { column, before, after } =>
                DriftKindView::ModifyColumnNullable { column: column@, before: *before, after: *after },
            DriftKind::ModifyColumnDefault { column, before, after } =>
                DriftKindView::ModifyColumnDefault {
                column: column@,
                before: opt_chars(*before),
                after: opt_chars(*after),
            },
            DriftKind::ModifyColumnComment { column, before, after } =>
                DriftKindView::ModifyColumnComment {
                column: column@,
                before: opt_chars(*before),
                after: opt_chars(*after),
            },
            DriftKind::AddConstraint { name } => DriftKindView::AddConstraint { name: opt_chars(*name) },
            DriftKind::RemoveConstraint { name } => DriftKindView::RemoveConstraint {
                name: opt_chars(*name),
            },
            DriftKind::ReplaceConstraint { name } => DriftKindView::ReplaceConstraint {
                name: opt_chars(*name),
            },
            DriftKind::RawSql => DriftKindView::RawSql,
        }
    }
}

/// The stable diagnostic code of each kind.
pub open spec fn spec_drift_code(k: DriftKindView) -> Seq<char> {
    match k {
        DriftKindView::CreateTable => "drift-create-table"@,
        DriftKindView::DeleteTable => "drift-delete-table"@,
        DriftKindView::RenameTable { .. } => "drift-rename-table"@,
        DriftKindView::AddColumn { .. } => "drift-add-column"@,
        DriftKindView::DeleteColumn { .. } => "drift-delete-column"@,
        DriftKindView::RenameColumn { .. } => "drift-rename-column"@,
        DriftKindView::ModifyColumnType { .. } => "drift-modify-type"@,
        DriftKindView::ModifyColumnNullable { .. } => "drift-modify-nullable"@,
        DriftKindView::ModifyColumnDefault { .. } => "drift-modify-default"@,
        DriftKindView::ModifyColumnComment { .. } => "drift-modify-comment"@,
        DriftKindView::AddConstraint { .. } => "drift-add-constraint"@,
        DriftKindView::RemoveConstraint { .. } => "drift-remove-constraint"@,
        DriftKindView::ReplaceConstraint { .. } => "drift-replace-constraint"@,
        DriftKindView::RawSql => "drift-raw-sql"@,
    }
}

impl DriftKind {
    /// Stable diagnostic code for this drift kind.
    pub fn code(&self) -> (r: &'static str)
        ensures
            r@ == spec_drift_code(self@),
    {
        match self {
            DriftKind::CreateTable => "drift-create-table",
            DriftKind::DeleteTable => "drift-delete-table",
            DriftKind::RenameTable { .. } => "drift-rename-table",
            DriftKind::AddColumn { .. } => "drift-add-column",
            DriftKind::DeleteColumn { .. } => "drift-delete-column",
            DriftKind::RenameColumn { .. } => "drift-rename-column",
            DriftKind::ModifyColumnType { .. } => "drift-modify-type",
            DriftKind::ModifyColumnNullable { .. } => "drift-modify-nullable",
            DriftKind::ModifyColumnDefault { .. } => "drift-modify-default",
            DriftKind::ModifyColumnComment { .. } => "drift-modify-comment",
            DriftKind::AddConstraint { .. } => "drift-add-constraint",
            DriftKind::RemoveConstraint { .. } => "drift-remove-constraint",
            DriftKind::ReplaceConstraint { .. } => "drift-replace-constraint",
            DriftKind::RawSql => "drift-raw-sql",
        }
    }
}

// ---------------------------------------------------------------------------
// Rendering
// ---------------------------------------------------------------------------

/// `"value"` for a value, `<none>` for none.
pub open spec fn spec_render_optional(v: Option<Seq<char>>) -> Seq<char> {
    match v {
        Some(s) => "\""@ + s + "\""@,
        None => "<none>"@,
    }
}

pub open spec fn spec_render_nullable(n: bool) -> Seq<char> {
    if n {
        "nullable"@
    } else {
        "not null"@
    }
}

fn render_optional(v: Option<&str>) -> (r: String)
    ensures
        r@ == spec_render_optional(
            match v {
                Some(s) => Some(s@),
                None => None,
            },
        ),
{
    match v {
        Some(s) => {
            let mut out = String::from_str("\"");
            out.append(s);
            out.append("\"");
            out
        },
        None => String::from_str("<none>"),
    }
}

/// A default value as shown in messages.
pub fn render_default(d: Option<&str>) -> (r: String)
    ensures
        r@ == spec_render_optional(
            match d {
                Some(s) => Some(s@),
                None => None,
            },
        ),
{
    render_optional(d)
}

/// A nullable flag as shown in messages.
pub fn render_nullable(n: bool) -> (r: String)
    ensures
        r@ == spec_render_nullable(n),
{
    if n {
        String::from_str("nullable")
    } else {
        String::from_str("not null")
    }
}

/// A comment as shown in messages.
pub fn render_comment(c: Option<&str>) -> (r: String)
    ensures
        r@ == spec_render_optional(
            match c {
                Some(s) => Some(s@),
                None => None,
            },
        ),
{
    render_optional(c)
}

// ---------------------------------------------------------------------------
// Inputs: the diff's actions and the applied schema
// ---------------------------------------------------------------------------

/// A table constraint, as far as drift reporting reads it.
#[derive(Debug, Clone)]
pub enum TableConstraint {
    PrimaryKey,
    Unique { name: Option<String> },
    ForeignKey { name: Option<String> },
    Index { name: Option<String> },
    Check { name: String },
}

/// One action of the diff between the applied schema and the models.
/// Column types are carried in their rendered form.
#[derive(Debug, Clone)]
pub enum MigrationAction {
    CreateTable { table: String },
    DeleteTable { table: String },
    RenameTable { from: String, to: String },
    AddColumn { table: String, column: String },
    DeleteColumn { table: String, column: String },
    RenameColumn { table: String, from: String, to: String },
    ModifyColumnType { table: String, column: String, new_type: String },
    ModifyColumnNullable { table: String, column: String, nullable: bool },
    ModifyColumnDefault { table: String, column: String, new_default: Option<String> },
    ModifyColumnComment { table: String, column: String, new_comment: Option<String> },
    AddConstraint { table: String, constraint: TableConstraint },
    RemoveConstraint { table: String, constraint: TableConstraint },
    ReplaceConstraint { table: String, from: TableConstraint, to: TableConstraint },
    RawSql { sql: String },
    /// Any action that drift reporting does not cover.
    Other,
}

/// A column of the applied schema.
#[derive(Debug, Clone)]
pub struct BaselineColumn {
    pub name: String,
    /// The column type, rendered.
    pub column_type: String,
    pub nullable: bool,
    /// The default as SQL text.
    pub default_sql: Option<String>,
    pub comment: Option<String>,
}

/// A table of the applied schema.
#[derive(Debug, Clone)]
pub struct BaselineTable {
    pub name: String,
    pub columns: Vec<BaselineColumn>,
}

/// The first table named `name`.
pub open spec fn first_table(s: Seq<BaselineTable>, name: Seq<char>) -> Option<BaselineTable>
    decreases s.len(),
{
    if s.len() == 0 {
        None
    } else if s[0].name@ == name {
        Some(s[0])
    } else {
        first_table(s.drop_first(), name)
    }
}

/// The first column named `name`.
pub open spec fn first_column(s: Seq<BaselineColumn>, name: Seq<char>) -> Option<BaselineColumn>
    decreases s.len(),
{
    if s.len() == 0 {
        None
    } else if s[0].name@ == name {
        Some(s[0])
    } else {
        first_column(s.drop_first(), name)
    }
}

/// The applied column `column` of the first applied table named `table`.
pub open spec fn baseline_column(
    baseline: Seq<BaselineTable>,
    table: Seq<char>,
    column: Seq<char>,
) -> Option<BaselineColumn> {
    match first_table(baseline, table) {
        Some(t) => first_column(t.columns@, column),
        None => None,
    }
}

/// Looks a column up in the applied schema.
pub fn lookup_baseline_column<'a>(baseline: &'a [BaselineTable], table: &str, column: &str) -> (r:
    Option<&'a BaselineColumn>)
    ensures
        match r {
            Some(c) => baseline_column(baseline@, table@, column@) == Some(*c),
            None => baseline_column(baseline@, table@, column@) is None,
        },
{
    let mut i: usize = 0;
    assert(baseline@.skip(0) =~= baseline@);
    while i < baseline.len()
        invariant
            i <= baseline@.len(),
            first_table(baseline@, table@) == first_table(baseline@.skip(i as int), table@),
        decreases baseline.len() - i,
    {
        assert(baseline@.skip(i as int)[0] == baseline@[i as int]);
        assert(baseline@.skip(i as int).drop_first() =~= baseline@.skip(i + 1));
        if str_eq(baseline[i].name.as_str(), table) {
            let cols = &baseline[i].columns;
            let mut j: usize = 0;
            assert(cols@.skip(0) =~= cols@);
            while j < cols.len()
                invariant
                    first_table(baseline@, table@) == Some(baseline@[i as int]),
                    cols@ == baseline@[i as int].columns@,
                    j <= cols@.len(),
                    first_column(cols@, column@) == first_column(cols@.skip(j as int), column@),
                decreases cols.len() - j,
            {
                assert(cols@.skip(j as int)[0] == cols@[j as int]);
                assert(cols@.skip(j as int).drop_first() =~= cols@.skip(j + 1));
                if str_eq(cols[j].name.as_str(), column) {
                    return Some(&cols[j]);
                }
                j = j + 1;
            }
            return None;
        }
        i = i + 1;
    }
    None
}

/// The name a constraint is known by: `Check` constraints always have one,
/// `Unique`, `ForeignKey` and `Index` may, others have none.
pub open spec fn spec_constraint_name(c: TableConstraint) -> Option<Seq<char>> {
    match c {
        TableConstraint::Unique { name } => opt_chars(name),
        TableConstraint::ForeignKey { name } => opt_chars(name),
        TableConstraint::Index { name } => opt_chars(name),
        TableConstraint::Check { name } => Some(name@),
        TableConstraint::PrimaryKey => None,
    }
}

fn constraint_name(c: &TableConstraint) -> (r: Option<&str>)
    ensures
        match r {
            Some(s) => spec_constraint_name(*c) == Some(s@),
            None => spec_constraint_name(*c) is None,
        },
{
    match c {
        TableConstraint::Unique { name } | TableConstraint::ForeignKey { name }
        | TableConstraint::Index { name } => match name {
            Some(n) => Some(n.as_str()),
            None => None,
        },
        TableConstraint::Check { name } => Some(name.as_str()),
        TableConstraint::PrimaryKey => None,
    }
}

// ---------------------------------------------------------------------------
// From action to drift record
// ---------------------------------------------------------------------------

/// Kind, anchor range (when the file has a tree), message.
pub type DriftRecordView = (DriftKindView, Option<(usize, usize)>, Seq<char>);

pub open spec fn top_or_first(t: &SyntaxTree, source: &str) -> (usize, usize) {
    match spec_locate_top_name(t, source) {
        Some(r) => r,
        None => (0, 1),
    }
}

/// Drifts about a whole table are anchored to the table's name.
pub open spec fn table_anchor(tree: Option<&SyntaxTree>, source: &str) -> Option<(usize, usize)> {
    match tree {
        None => None,
        Some(t) => Some(top_or_first(t, source)),
    }
}

pub open spec fn column_anchor(tree: Option<&SyntaxTree>, source: &str, column: Seq<char>) -> Option<
    (usize, usize),
> {
    match tree {
        None => None,
        Some(t) => Some(spec_locate_column(Some(t), source, column)),
    }
}

pub open spec fn field_anchor(
    tree: Option<&SyntaxTree>,
    source: &str,
    column: Seq<char>,
    field: ErrorField,
) -> Option<(usize, usize)> {
    match tree {
        None => None,
        Some(t) => Some(spec_locate_column_field(Some(t), source, column, field)),
    }
}

/// A named constraint is anchored to its object; an unnamed one to the
/// table's name.
pub open spec fn constraint_anchor(
    tree: Option<&SyntaxTree>,
    source: &str,
    name: Option<Seq<char>>,
) -> Option<(usize, usize)> {
    match tree {
        None => None,
        Some(t) => Some(
            match name {
                Some(n) => spec_locate_constraint(Some(t), source, n),
                None => top_or_first(t, source),
            },
        ),
    }
}

pub open spec fn label(name: Option<Seq<char>>) -> Seq<char> {
    match name {
        Some(n) => n,
        None => "<unnamed>"@,
    }
}

/// The drift record of one diff action, or none for actions that drift
/// reporting does not cover.
pub open spec fn spec_action_to_drift(
    action: MigrationAction,
    baseline: Seq<BaselineTable>,
    source: &str,
    tree: Option<&SyntaxTree>,
) -> Option<DriftRecordView> {
    match action {
        MigrationAction::CreateTable { table } => Some(
            (
                DriftKindView::CreateTable,
                table_anchor(tree, source),
                "Table '"@ + table@ + "' is in the model but not in any applied migration"@,
            ),
        ),
        MigrationAction::DeleteTable { table } => Some(
            (
                DriftKindView::DeleteTable,
                table_anchor(tree, source),
                "Table '"@ + table@ + "' is in applied migrations but missing from the model"@,
            ),
        ),
        MigrationAction::RenameTable { from, to } => Some(
            (
                DriftKindView::RenameTable { from: from@, to: to@ },
                table_anchor(tree, source),
                "Table rename drift: applied '"@ + from@ + "' \u{2192} model '"@ + to@ + "'"@,
            ),
        ),
        MigrationAction::AddColumn { column, .. } => Some(
            (
                DriftKindView::AddColumn { column: column@ },
                column_anchor(tree, source, column@),
                "Column '"@ + column@ + "' is in the model but not in any applied migration"@,
            ),
        ),
        MigrationAction::DeleteColumn { column, .. } => Some(
            (
                DriftKindView::DeleteColumn { column: column@ },
                table_anchor(tree, source),
                "Column '"@ + column@ + "' is in applied migrations but missing from the model"@,
            ),
        ),
        MigrationAction::RenameColumn { from, to, .. } => Some(
            (
                DriftKindView::RenameColumn { from: from@, to: to@ },
                column_anchor(tree, source, to@),
                "Column rename drift: applied '"@ + from@ + "' \u{2192} model '"@ + to@ + "'"@,
            ),
        ),
        MigrationAction::ModifyColumnType { table, column, new_type } => {
            let before = match baseline_column(baseline, table@, column@) {
                Some(c) => c.column_type@,
                None => "<unknown>"@,
            };
            Some(
                (
                    DriftKindView::ModifyColumnType {
                        column: column@,
                        before: before,
                        after: new_type@,
                    },
                    field_anchor(tree, source, column@, ErrorField::Type),
                    "Type drift on '"@ + column@ + "': applied "@ + before + " \u{2192} model "@
                        + new_type@,
                ),
            )
        },
        MigrationAction::ModifyColumnNullable { table, column, nullable } => {
            let before = match baseline_column(baseline, table@, column@) {
                Some(c) => c.nullable,
                None => !nullable,
            };
            Some(
                (
                    DriftKindView::ModifyColumnNullable {
                        column: column@,
                        before: before,
                        after: nullable,
                    },
                    field_anchor(tree, source, column@, ErrorField::Nullable),
                    "Nullable drift on '"@ + column@ + "': applied "@ + spec_render_nullable(before)
                        + " \u{2192} model "@ + spec_render_nullable(nullable),
                ),
            )
        },
        MigrationAction::ModifyColumnDefault { table, column, new_default } => {
            let before = match baseline_column(baseline, table@, column@) {
                Some(c) => opt_chars(c.default_sql),
                None => None,
            };
            let after = opt_chars(new_default);
            Some(
                (
                    DriftKindView::ModifyColumnDefault {
                        column: column@,
                        before: before,
                        after: after,
                    },
                    field_anchor(tree, source, column@, ErrorField::Default),
                    "Default drift on '"@ + column@ + "': applied "@ + spec_render_optional(before)
                        + " \u{2192} model "@ + spec_render_optional(after),
                ),
            )
        },
        MigrationAction::ModifyColumnComment { table, column, new_comment } => {
            let before = match baseline_column(baseline, table@, column@) {
                Some(c) => opt_chars(c.comment),
                None => None,
            };
            let after = opt_chars(new_comment);
            Some(
                (
                    DriftKindView::ModifyColumnComment {
                        column: column@,
                        before: before,
                        after: after,
                    },
                    field_anchor(tree, source, column@, ErrorField::Comment),
                    "Comment drift on '"@ + column@ + "': applied "@ + spec_render_optional(before)
                        + " \u{2192} model "@ + spec_render_optional(after),
                ),
            )
        },
        MigrationAction::AddConstraint { constraint, .. } => {
            let name = spec_constraint_name(constraint);
            Some(
                (
                    DriftKindView::AddConstraint { name: name },
                    constraint_anchor(tree, source, name),
                    "Constraint added in model: "@ + label(name),
                ),
            )
        },
        MigrationAction::RemoveConstraint { constraint, .. } => {
            let name = spec_constraint_name(constraint);
            Some(
                (
                    DriftKindView::RemoveConstraint { name: name },
                    constraint_anchor(tree, source, name),
                    "Constraint in applied migrations missing from model: "@ + label(name),
                ),
            )
        },
        MigrationAction::ReplaceConstraint { from, to, .. } => {
            let name = spec_constraint_name(to);
            Some(
                (
                    DriftKindView::ReplaceConstraint { name: name },
                    constraint_anchor(tree, source, name),
                    "Constraint replaced: "@ + label(spec_constraint_name(from)) + " \u{2192} "@
                        + label(name),
                ),
            )
        },
        MigrationAction::RawSql { .. } => Some(
            (
                DriftKindView::RawSql,
                None,
                "Raw SQL drift \u{2014} typed introspection unavailable"@,
            ),
        ),
        MigrationAction::Other => None,
    }
}

pub open spec fn range_view(r: Option<Range<usize>>) -> Option<(usize, usize)> {
    match r {
        Some(x) => Some((x.start, x.end)),
        None => None,
    }
}

pub open spec fn record_view(r: (DriftKind, Option<Range<usize>>, String)) -> DriftRecordView {
    (r.0@, range_view(r.1), r.2@)
}

fn cat2(a: &str, b: &str) -> (r: String)
    ensures
        r@ == a@ + b@,
{
    let mut out = String::from_str(a);
    out.append(b);
    out
}

fn cat3(a: &str, b: &str, c: &str) -> (r: String)
    ensures
        r@ == a@ + b@ + c@,
{
    let mut out = cat2(a, b);
    out.append(c);
    out
}

fn cat4(a: &str, b: &str, c: &str, d: &str) -> (r: String)
    ensures
        r@ == a@ + b@ + c@ + d@,
{
    let mut out = cat3(a, b, c);
    out.append(d);
    out
}

fn cat5(a: &str, b: &str, c: &str, d: &str, e: &str) -> (r: String)
    ensures
        r@ == a@ + b@ + c@ + d@ + e@,
{
    let mut out = cat4(a, b, c, d);
    out.append(e);
    out
}

fn cat6(a: &str, b: &str, c: &str, d: &str, e: &str, f: &str) -> (r: String)
    ensures
        r@ == a@ + b@ + c@ + d@ + e@ + f@,
{
    let mut out = cat5(a, b, c, d, e);
    out.append(f);
    out
}

fn clone_opt(o: &Option<String>) -> (r: Option<String>)
    ensures
        opt_chars(r) == opt_chars(*o),
{
    match o {
        Some(s) => Some(s.clone()),
        None => None,
    }
}

fn opt_str(o: &Option<String>) -> (r: Option<&str>)
    ensures
        match r {
            Some(s) => opt_chars(*o) == Some(s@),
            None => o is None,
        },
{
    match o {
        Some(s) => Some(s.as_str()),
        None => None,
    }
}

fn table_anchor_of(tree: Option<&SyntaxTree>, source: &str) -> (r: Option<Range<usize>>)
    requires
        tree matches Some(t) ==> t.fits(source),
    ensures
        range_view(r) == table_anchor(tree, source),
{
    match tree {
        None => None,
        Some(t) => Some(
            match locate_top_name(Some(t), source) {
                Some(r) => r,
                None => 0..1,
            },
        ),
    }
}

fn column_anchor_of(tree: Option<&SyntaxTree>, source: &str, column: &str) -> (r: Option<
    Range<usize>,
>)
    requires
        tree matches Some(t) ==> t.fits(source),
    ensures
        range_view(r) == column_anchor(tree, source, column@),
{
    match tree {
        None => None,
        Some(t) => Some(locate_column(Some(t), source, column)),
    }
}

fn field_anchor_of(tree: Option<&SyntaxTree>, source: &str, column: &str, field: ErrorField) -> (r:
    Option<Range<usize>>)
    requires
        tree matches Some(t) ==> t.fits(source),
    ensures
        range_view(r) == field_anchor(tree, source, column@, field),
{
    match tree {
        None => None,
        Some(t) => Some(locate_column_field(Some(t), source, column, field)),
    }
}

fn constraint_anchor_of(tree: Option<&SyntaxTree>, source: &str, name: Option<&str>) -> (r: Option<
    Range<usize>,
>)
    requires
        tree matches Some(t) ==> t.fits(source),
    ensures
        range_view(r) == constraint_anchor(
            tree,
            source,
            match name {
                Some(n) => Some(n@),
                None => None,
            },
        ),
{
    match tree {
        None => None,
        Some(t) => Some(
            match name {
                Some(n) => locate_constraint(Some(t), source, n),
                None => match locate_top_name(Some(t), source) {
                    Some(r) => r,
                    None => 0..1,
                },
            },
        ),
    }
}

fn label_of(name: Option<&str>) -> (r: &str)
    ensures
        r@ == label(
            match name {
                Some(n) => Some(n@),
                None => None,
            },
        ),
{
    match name {
        Some(n) => n,
        None => "<unnamed>",
    }
}

fn opt_view(o: Option<&str>) -> (r: Option<String>)
    ensures
        opt_chars(r) == match o {
            Some(s) => Some(s@),
            None => None,
        },
{
    match o {
        Some(s) => Some(String::from_str(s)),
        None => None,
    }
}

/// The drift record of one diff action.
pub fn action_to_drift(
    action: &MigrationAction,
    baseline: &[BaselineTable],
    source: &str,
    tree: Option<&SyntaxTree>,
) -> (r: Option<(DriftKind, Option<Range<usize>>, String)>)
    requires
        tree matches Some(t) ==> t.fits(source),
    ensures
        match r {
            Some(rec) => spec_action_to_drift(*action, baseline@, source, tree) == Some(
                record_view(rec),
            ),
            None => spec_action_to_drift(*action, baseline@, source, tree) is None,
        },
{
    match action {
        MigrationAction::CreateTable { table } => {
            let msg = cat3("Table '", table.as_str(), "' is in the model but not in any applied migration");
            Some((DriftKind::CreateTable, table_anchor_of(tree, source), msg))
        },
        MigrationAction::DeleteTable { table } => {
            let msg = cat3("Table '", table.as_str(), "' is in applied migrations but missing from the model");
            Some((DriftKind::DeleteTable, table_anchor_of(tree, source), msg))
        },
        MigrationAction::RenameTable { from, to } => {
            let msg = cat5("Table rename drift: applied '", from.as_str(), "' \u{2192} model '", to.as_str(), "'");
            Some(
                (
                    DriftKind::RenameTable { from: from.clone(), to: to.clone() },
                    table_anchor_of(tree, source),
                    msg,
                ),
            )
        },
        MigrationAction::AddColumn { column, .. } => {
            let msg = cat3("Column '", column.as_str(), "' is in the model but not in any applied migration");
            Some(
                (
                    DriftKind::AddColumn { column: column.clone() },
                    column_anchor_of(tree, source, column.as_str()),
                    msg,
                ),
            )
        },
        MigrationAction::DeleteColumn { column, .. } => {
            let msg = cat3("Column '", column.as_str(), "' is in applied migrations but missing from the model");
            Some(
                (
                    DriftKind::DeleteColumn { column: column.clone() },
                    table_anchor_of(tree, source),
                    msg,
                ),
            )
        },
        MigrationAction::RenameColumn { from, to, .. } => {
            let msg = cat5("Column rename drift: applied '", from.as_str(), "' \u{2192} model '", to.as_str(), "'");
            Some(
                (
                    DriftKind::RenameColumn { from: from.clone(), to: to.clone() },
                    column_anchor_of(tree, source, to.as_str()),
                    msg,
                ),
            )
        },
        MigrationAction::ModifyColumnType { table, column, new_type } => {
            let before: &str = match lookup_baseline_column(baseline, table.as_str(), column.as_str()) {
                Some(c) => c.column_type.as_str(),
                None => "<unknown>",
            };
            let msg = cat6("Type drift on '", column.as_str(), "': applied ", before, " \u{2192} model ", new_type.as_str());
            Some(
                (
                    DriftKind::ModifyColumnType {
                        column: column.clone(),
                        before: String::from_str(before),
                        after: new_type.clone(),
                    },
                    field_anchor_of(tree, source, column.as_str(), ErrorField::Type),
                    msg,
                ),
            )
        },
        MigrationAction::ModifyColumnNullable { table, column, nullable } => {
            let before = match lookup_baseline_column(baseline, table.as_str(), column.as_str()) {
                Some(c) => c.nullable,
                None => !*nullable,
            };
            let before_s = render_nullable(before);
            let after_s = render_nullable(*nullable);
            let msg = cat6("Nullable drift on '", column.as_str(), "': applied ", before_s.as_str(), " \u{2192} model ", after_s.as_str());
            Some(
                (
                    DriftKind::ModifyColumnNullable {
                        column: column.clone(),
                        before,
                        after: *nullable,
                    },
                    field_anchor_of(tree, source, column.as_str(), ErrorField::Nullable),
                    msg,
                ),
            )
        },
        MigrationAction::ModifyColumnDefault { table, column, new_default } => {
            let before: Option<&str> = match lookup_baseline_column(
                baseline,
                table.as_str(),
                column.as_str(),
            ) {
                Some(c) => opt_str(&c.default_sql),
                None => None,
            };
            let after = opt_str(new_default);
            let before_s = render_default(before);
            let after_s = render_default(after);
            let msg = cat6("Default drift on '", column.as_str(), "': applied ", before_s.as_str(), " \u{2192} model ", after_s.as_str());
            Some(
                (
                    DriftKind::ModifyColumnDefault {
                        column: column.clone(),
                        before: opt_view(before),
                        after: clone_opt(new_default),
                    },
                    field_anchor_of(tree, source, column.as_str(), ErrorField::Default),
                    msg,
                ),
            )
        },
        MigrationAction::ModifyColumnComment { table, column, new_comment } => {
            let before: Option<&str> = match lookup_baseline_column(
                baseline,
                table.as_str(),
                column.as_str(),
            ) {
                Some(c) => opt_str(&c.comment),
                None => None,
            };
            let after = opt_str(new_comment);
            let before_s = render_comment(before);
            let after_s = render_comment(after);
            let msg = cat6("Comment drift on '", column.as_str(), "': applied ", before_s.as_str(), " \u{2192} model ", after_s.as_str());
            Some(
                (
                    DriftKind::ModifyColumnComment {
                        column: column.clone(),
                        before: opt_view(before),
                        after: clone_opt(new_comment),
                    },
                    field_anchor_of(tree, source, column.as_str(), ErrorField::Comment),
                    msg,
                ),
            )
        },
        MigrationAction::AddConstraint { constraint, .. } => {
            let name = constraint_name(constraint);
            let msg = cat2("Constraint added in model: ", label_of(name));
            Some(
                (
                    DriftKind::AddConstraint { name: opt_view(name) },
                    constraint_anchor_of(tree, source, name),
                    msg,
                ),
            )
        },
        MigrationAction::RemoveConstraint { constraint, .. } => {
            let name = constraint_name(constraint);
            let msg = cat2("Constraint in applied migrations missing from model: ", label_of(name));
            Some(
                (
                    DriftKind::RemoveConstraint { name: opt_view(name) },
                    constraint_anchor_of(tree, source, name),
                    msg,
                ),
            )
        },
        MigrationAction::ReplaceConstraint { from, to, .. } => {
            let name = constraint_name(to);
            let from_name = constraint_name(from);
            let msg = cat4("Constraint replaced: ", label_of(from_name), " \u{2192} ", label_of(name));
            Some(
                (
                    DriftKind::ReplaceConstraint { name: opt_view(name) },
                    constraint_anchor_of(tree, source, name),
                    msg,
                ),
            )
        },
        MigrationAction::RawSql { .. } => Some(
            (
                DriftKind::RawSql,
                None,
                String::from_str("Raw SQL drift \u{2014} typed introspection unavailable"),
            ),
        ),
        MigrationAction::Other => None,
    }
}

// ---------------------------------------------------------------------------
// Drift records of model files
// ---------------------------------------------------------------------------

/// One drift of one model file.
#[derive(Debug, PartialEq, Eq)]
pub struct DomainDrift {
    /// The model file with drift.
    pub uri: String,
    pub kind: DriftKind,
    /// Range the diagnostic is anchored to, when the file has a tree.
    pub byte_range: Option<Range<usize>>,
    pub message: String,
}

impl DomainDrift {
    /// An informational diagnostic for the drift; none when the drift has
    /// no anchor range.
    pub fn into_domain_diagnostic(self) -> (r: Option<DomainDiagnostic>)
        ensures
            match self.byte_range {
                None => r is None,
                Some(x) => r matches Some(d) && d@ == (
                    x.start,
                    x.end,
                    Severity::Information,
                    self.message@,
                    spec_drift_code(self.kind@),
                ),
            },
    {
        let range = match self.byte_range {
            Some(x) => x,
            None => {
                return None;
            },
        };
        let code = String::from_str(self.kind.code());
        Some(
            DomainDiagnostic {
                byte_range: range,
                severity: Severity::Information,
                message: self.message,
                code,
            },
        )
    }
}

/// The drift of `action` in the model file `uri`, when drift reporting
/// covers the action.
pub fn drift_from_action(
    uri: &str,
    action: &MigrationAction,
    baseline: &[BaselineTable],
    source: &str,
    tree: Option<&SyntaxTree>,
) -> (r: Option<DomainDrift>)
    requires
        tree matches Some(t) ==> t.fits(source),
    ensures
        match r {
            Some(d) => d.uri@ == uri@ && spec_action_to_drift(*action, baseline@, source, tree)
                == Some((d.kind@, range_view(d.byte_range), d.message@)),
            None => spec_action_to_drift(*action, baseline@, source, tree) is None,
        },
{
    match action_to_drift(action, baseline, source, tree) {
        Some((kind, byte_range, message)) => Some(
            DomainDrift { uri: String::from_str(uri), kind, byte_range, message },
        ),
        None => None,
    }
}


// ---------------------------------------------------------------------------
// Laws
// ---------------------------------------------------------------------------

/// A column added in the model is reported as `drift-add-column` about
/// that column, anchored where the locator finds the column (its object in
/// the `columns` list), not at the table; a renamed column is anchored at
/// its new name the same way.
pub proof fn lemma_column_drifts_anchor_on_the_column(
    action: MigrationAction,
    baseline: Seq<BaselineTable>,
    source: &str,
    t: &SyntaxTree,
)
    ensures
        action matches MigrationAction::AddColumn { column, .. } ==> spec_action_to_drift(
            action,
            baseline,
            source,
            Some(t),
        ) matches Some(r) && r.0 == (DriftKindView::AddColumn { column: column@ }) && r.1 == Some(
            spec_locate_column(Some(t), source, column@),
        ),
        action matches MigrationAction::RenameColumn { to, .. } ==> spec_action_to_drift(
            action,
            baseline,
            source,
            Some(t),
        ) matches Some(r) && r.1 == Some(spec_locate_column(Some(t), source, to@)),
{
}

} // verus!
