//! Locating schema objects in a model file: the byte range a diagnostic
//! about a table, a column, a field of a column or a constraint is
//! anchored to.
//!
//! Keys and names are compared after trimming and removing one pair of
//! surrounding quotes. Each lookup falls back to the table's own `name`
//! value, then to the first byte of the document.

use std::ops::Range;
use vstd::prelude::*;
use crate::syntax::{
    SyntaxTree, NodeKind, StripMode, find_pair, find_value_for_key, first_descendant, pair_has_key,
    stripped_text, find_outer_mapping, is_ancestor,
};
use crate::text::str_eq;

verus! {

/// The field of a column a diagnostic is about.
#[derive(Clone, Copy, Debug, PartialEq, Eq, Structural)]
pub enum ErrorField {
    /// The column's `type` pair.
    Type,
    /// The column's `default` pair.
    Default,
    /// The column's `nullable` pair.
    Nullable,
    /// The column's `comment` pair.
    Comment,
    /// `foreign_key.ref_table`.
    ForeignKeyRefTable,
    /// `foreign_key.ref_columns`.
    ForeignKeyRefColumns,
}

/// What a validation error is about: a table, and possibly one of its
/// columns (and a field of it) or constraints.
#[derive(Debug)]
pub struct ErrorLocation {
    pub table: String,
    pub column: Option<String>,
    pub constraint: Option<String>,
    pub field: Option<ErrorField>,
}

pub open spec fn opt_chars(o: Option<String>) -> Option<Seq<char>> {
    match o {
        Some(s) => Some(s@),
        None => None,
    }
}

impl ErrorLocation {
    pub fn table(table: &str) -> (r: Self)
        ensures
            r.table@ == table@,
            r.column is None,
            r.constraint is None,
            r.field is None,
    {
        ErrorLocation { table: String::from_str(table), column: None, constraint: None, field: None }
    }

    pub fn column(table: &str, column: &str) -> (r: Self)
        ensures
            r.table@ == table@,
            opt_chars(r.column) == Some(column@),
            r.constraint is None,
            r.field is None,
    {
        ErrorLocation {
            table: String::from_str(table),
            column: Some(String::from_str(column)),
            constraint: None,
            field: None,
        }
    }

    pub fn column_field(table: &str, column: &str, field: ErrorField) -> (r: Self)
        ensures
            r.table@ == table@,
            opt_chars(r.column) == Some(column@),
            r.constraint is None,
            r.field == Some(field),
    {
        ErrorLocation {
            table: String::from_str(table),
            column: Some(String::from_str(column)),
            constraint: None,
            field: Some(field),
        }
    }

    pub fn constraint(table: &str, constraint: &str) -> (r: Self)
        ensures
            r.table@ == table@,
            r.column is None,
            opt_chars(r.constraint) == Some(constraint@),
            r.field is None,
    {
        ErrorLocation {
            table: String::from_str(table),
            column: None,
            constraint: Some(String::from_str(constraint)),
            field: None,
        }
    }
}

/// A schema validation error of the planner, by the names it carries: the
/// table, and where the variant has them, the column and the index or
/// constraint (in that order).
#[derive(Debug)]
pub enum PlannerError {
    TableExists(String),
    TableNotFound(String),
    DuplicateTableName(String),
    MissingPrimaryKey(String),
    /// A table that fails validation, with no name to point at.
    TableValidation,
    ColumnExists(String, String),
    ColumnNotFound(String, String),
    MissingFillWith(String, String),
    DuplicateEnumVariantName(String, String),
    DuplicateEnumValue(String, String),
    InvalidAutoIncrement(String, String),
    ForeignKeyTableNotFound(String, String),
    ForeignKeyColumnNotFound(String, String),
    IndexNotFound(String, String),
    EmptyConstraintColumns(String, String),
    IndexColumnNotFound(String, String, String),
    ConstraintColumnNotFound(String, String, String),
    InvalidEnumDefault(String, String),
}

/// Table, column, constraint, field.
pub type LocationView = (Seq<char>, Option<Seq<char>>, Option<Seq<char>>, Option<ErrorField>);

impl View for ErrorLocation {
    type V = LocationView;

    open spec fn view(&self) -> LocationView {
        (self.table@, opt_chars(self.column), opt_chars(self.constraint), self.field)
    }
}

pub open spec fn opt_location(o: Option<ErrorLocation>) -> Option<LocationView> {
    match o {
        Some(l) => Some(l@),
        None => None,
    }
}

/// Where a planner error points: at its table, at a column (and for some
/// errors a field of it: `type` for auto-increment, `ref_table` /
/// `ref_columns` for foreign keys, `default` for an enum default), at a
/// constraint, or at a constraint's column; nowhere for a validation error
/// without names.
pub open spec fn spec_location_of(err: &PlannerError) -> Option<LocationView> {
    match err {
        PlannerError::TableExists(t) => Some((t@, None, None, None)),
        PlannerError::TableNotFound(t) => Some((t@, None, None, None)),
        PlannerError::DuplicateTableName(t) => Some((t@, None, None, None)),
        PlannerError::MissingPrimaryKey(t) => Some((t@, None, None, None)),
        PlannerError::TableValidation => None,
        PlannerError::ColumnExists(t, c) => Some((t@, Some(c@), None, None)),
        PlannerError::ColumnNotFound(t, c) => Some((t@, Some(c@), None, None)),
        PlannerError::MissingFillWith(t, c) => Some((t@, Some(c@), None, None)),
        PlannerError::DuplicateEnumVariantName(t, c) => Some((t@, Some(c@), None, None)),
        PlannerError::DuplicateEnumValue(t, c) => Some((t@, Some(c@), None, None)),
        PlannerError::InvalidAutoIncrement(t, c) => Some((t@, Some(c@), None, Some(ErrorField::Type))),
        PlannerError::ForeignKeyTableNotFound(t, c) => Some(
            (t@, Some(c@), None, Some(ErrorField::ForeignKeyRefTable)),
        ),
        PlannerError::ForeignKeyColumnNotFound(t, c) => Some(
            (t@, Some(c@), None, Some(ErrorField::ForeignKeyRefColumns)),
        ),
        PlannerError::IndexNotFound(t, i) => Some((t@, None, Some(i@), None)),
        PlannerError::EmptyConstraintColumns(t, i) => Some((t@, None, Some(i@), None)),
        PlannerError::IndexColumnNotFound(t, i, c) => Some((t@, Some(c@), Some(i@), None)),
        PlannerError::ConstraintColumnNotFound(t, i, c) => Some((t@, Some(c@), Some(i@), None)),
        PlannerError::InvalidEnumDefault(t, c) => Some((t@, Some(c@), None, Some(ErrorField::Default))),
    }
}

impl ErrorLocation {
    /// The table, column and constraint a planner error carries.
    pub fn from_planner_error(err: &PlannerError) -> (r: Option<Self>)
        ensures
            opt_location(r) == spec_location_of(err),
    {
        match err {
            PlannerError::TableExists(t)
            | PlannerError::TableNotFound(t)
            | PlannerError::DuplicateTableName(t)
            | PlannerError::MissingPrimaryKey(t) => Some(ErrorLocation::table(t.as_str())),
            PlannerError::TableValidation => None,
            PlannerError::ColumnExists(t, c)
            | PlannerError::ColumnNotFound(t, c)
            | PlannerError::MissingFillWith(t, c)
            | PlannerError::DuplicateEnumVariantName(t, c)
            | PlannerError::DuplicateEnumValue(t, c) => Some(ErrorLocation::column(t.as_str(), c.as_str())),
            PlannerError::InvalidAutoIncrement(t, c) => Some(
                ErrorLocation::column_field(t.as_str(), c.as_str(), ErrorField::Type),
            ),
            PlannerError::ForeignKeyTableNotFound(t, c) => Some(
                ErrorLocation::column_field(t.as_str(), c.as_str(), ErrorField::ForeignKeyRefTable),
            ),
            PlannerError::ForeignKeyColumnNotFound(t, c) => Some(
                ErrorLocation::column_field(t.as_str(), c.as_str(), ErrorField::ForeignKeyRefColumns),
            ),
            PlannerError::IndexNotFound(t, i) | PlannerError::EmptyConstraintColumns(t, i) => Some(
                ErrorLocation::constraint(t.as_str(), i.as_str()),
            ),
            PlannerError::IndexColumnNotFound(t, i, c)
            | PlannerError::ConstraintColumnNotFound(t, i, c) => Some(
                ErrorLocation {
                    table: t.clone(),
                    column: Some(c.clone()),
                    constraint: Some(i.clone()),
                    field: None,
                },
            ),
            PlannerError::InvalidEnumDefault(t, c) => Some(
                ErrorLocation::column_field(t.as_str(), c.as_str(), ErrorField::Default),
            ),
        }
    }
}

// ---------------------------------------------------------------------------
// Specification
// ---------------------------------------------------------------------------

/// `object` / `block_mapping` (flow mappings are not schema objects here).
pub open spec fn is_object_kind(k: NodeKind) -> bool {
    k == NodeKind::Object || k == NodeKind::BlockMapping
}

/// Child `c` is a `name` pair whose value reads `name`.
pub open spec fn is_name_pair_with(t: &SyntaxTree, source: &str, c: usize, name: Seq<char>) -> bool {
    &&& pair_has_key(t, source, c, "name"@, StripMode::Pair)
    &&& t.named_child(c, 1) matches Some(v) && stripped_text(t, source, v, StripMode::Pair) == Some(
        name,
    )
}

/// The mapping `m` has a direct `name` pair whose value reads `name`.
pub open spec fn mapping_has_name(t: &SyntaxTree, source: &str, m: usize, name: Seq<char>) -> bool {
    exists|k: int|
        0 <= k < t.children(m).len() && is_name_pair_with(t, source, #[trigger] t.children(m)[k], name)
}

pub open spec fn named_object(t: &SyntaxTree, source: &str, name: Seq<char>) -> spec_fn(usize) -> bool {
    |j: usize| is_object_kind(t.kind(j)) && mapping_has_name(t, source, j, name)
}

/// The first object named `name` inside the value of the first pair with
/// key `collection` (`columns`, `constraints`), in document order.
pub open spec fn find_named_object(
    t: &SyntaxTree,
    source: &str,
    collection: Seq<char>,
    name: Seq<char>,
) -> Option<usize> {
    match find_value_for_key(t, source, 0, collection, StripMode::Pair) {
        Some(c) => first_descendant(t, c, c + 1, named_object(t, source, name)),
        None => None,
    }
}

pub open spec fn node_range(t: &SyntaxTree, i: usize) -> (usize, usize) {
    (t.start(i), t.end(i))
}

pub open spec fn locate_named_object(
    t: &SyntaxTree,
    source: &str,
    collection: Seq<char>,
    name: Seq<char>,
) -> Option<(usize, usize)> {
    match find_named_object(t, source, collection, name) {
        Some(m) => Some(node_range(t, m)),
        None => None,
    }
}

/// The value of the first `name` pair of `ch` that has a value.
pub open spec fn first_name_value(t: &SyntaxTree, source: &str, ch: Seq<usize>) -> Option<usize>
    decreases ch.len(),
{
    if ch.len() == 0 {
        None
    } else if pair_has_key(t, source, ch[0], "name"@, StripMode::Pair) && t.named_child(ch[0], 1) is Some {
        t.named_child(ch[0], 1)
    } else {
        first_name_value(t, source, ch.drop_first())
    }
}

/// The range of the table's own `name` value: a direct pair of the
/// outermost mapping, never one nested in a column.
pub open spec fn spec_locate_top_name(t: &SyntaxTree, source: &str) -> Option<(usize, usize)> {
    match find_outer_mapping(t, 0) {
        Some(m) => match first_name_value(t, source, t.children(m)) {
            Some(v) => Some(node_range(t, v)),
            None => None,
        },
        None => None,
    }
}

pub open spec fn or_top_name(t: &SyntaxTree, source: &str, r: Option<(usize, usize)>) -> (usize, usize) {
    match r {
        Some(x) => x,
        None => match spec_locate_top_name(t, source) {
            Some(x) => x,
            None => (0, 1),
        },
    }
}

pub open spec fn spec_locate_column(tree: Option<&SyntaxTree>, source: &str, column: Seq<char>) -> (
    usize,
    usize,
) {
    match tree {
        None => (0, 1),
        Some(t) => or_top_name(t, source, locate_named_object(t, source, "columns"@, column)),
    }
}

pub open spec fn spec_locate_constraint(tree: Option<&SyntaxTree>, source: &str, name: Seq<char>) -> (
    usize,
    usize,
) {
    match tree {
        None => (0, 1),
        Some(t) => or_top_name(t, source, locate_named_object(t, source, "constraints"@, name)),
    }
}

pub open spec fn field_key(field: ErrorField) -> Seq<char> {
    match field {
        ErrorField::Type => "type"@,
        ErrorField::Default => "default"@,
        ErrorField::Nullable => "nullable"@,
        ErrorField::Comment => "comment"@,
        ErrorField::ForeignKeyRefTable => "ref_table"@,
        ErrorField::ForeignKeyRefColumns => "ref_columns"@,
    }
}

pub open spec fn is_foreign_key_field(field: ErrorField) -> bool {
    field == ErrorField::ForeignKeyRefTable || field == ErrorField::ForeignKeyRefColumns
}

/// The pair of a column object that a field diagnostic covers. For the
/// foreign-key fields: the sub-pair of `foreign_key`, or the whole
/// `foreign_key` pair when the sub-pair is missing.
pub open spec fn field_pair_range(t: &SyntaxTree, source: &str, column: usize, field: ErrorField) -> Option<
    (usize, usize),
> {
    if is_foreign_key_field(field) {
        match find_pair(t, source, column, "foreign_key"@, StripMode::Pair) {
            Some(fk) => match t.named_child(fk, 1) {
                Some(fv) => match find_pair(t, source, fv, field_key(field), StripMode::Pair) {
                    Some(sub) => Some(node_range(t, sub)),
                    None => Some(node_range(t, fk)),
                },
                None => None,
            },
            None => None,
        }
    } else {
        match find_pair(t, source, column, field_key(field), StripMode::Pair) {
            Some(p) => Some(node_range(t, p)),
            None => None,
        }
    }
}

pub open spec fn spec_locate_column_field(
    tree: Option<&SyntaxTree>,
    source: &str,
    column: Seq<char>,
    field: ErrorField,
) -> (usize, usize) {
    match tree {
        None => (0, 1),
        Some(t) => {
            let narrowed = match find_named_object(t, source, "columns"@, column) {
                Some(c) => field_pair_range(t, source, c, field),
                None => None,
            };
            match narrowed {
                Some(r) => r,
                None => or_top_name(t, source, locate_named_object(t, source, "columns"@, column)),
            }
        },
    }
}

// ---------------------------------------------------------------------------
// Implementation
// ---------------------------------------------------------------------------

fn has_name(t: &SyntaxTree, source: &str, m: usize, name: &str) -> (r: bool)
    requires
        t.fits(source),
        m < t.len(),
    ensures
        r == mapping_has_name(t, source, m, name@),
{
    let ch = &t.nodes[m].children;
    let mut i: usize = 0;
    while i < ch.len()
        invariant
            t.fits(source),
            m < t.len(),
            ch@ == t.children(m),
            i <= ch@.len(),
            forall|k: int| 0 <= k < i ==> !is_name_pair_with(t, source, #[trigger] ch@[k], name@),
        decreases ch.len() - i,
    {
        let c = ch[i];
        assert(t.nodes@[m as int].children@[i as int] == c);
        if t.has_key(source, c, "name", StripMode::Pair) {
            match t.get_named_child(c, 1) {
                Some(v) => match t.stripped(source, v, StripMode::Pair) {
                    Some(s) => {
                        if str_eq(s, name) {
                            assert(is_name_pair_with(t, source, ch@[i as int], name@));
                            return true;
                        }
                    },
                    None => {},
                },
                None => {},
            }
        }
        i = i + 1;
    }
    proof {
        assert forall|k: int|
            0 <= k < t.children(m).len() implies !is_name_pair_with(
            t,
            source,
            #[trigger] t.children(m)[k],
            name@,
        ) by {
            assert(ch@[k] == t.children(m)[k]);
        }
    }
    false
}

fn named_object_in(t: &SyntaxTree, source: &str, collection: &str, name: &str) -> (r: Option<usize>)
    requires
        t.fits(source),
    ensures
        r == find_named_object(t, source, collection@, name@),
        r matches Some(m) ==> m < t.len(),
{
    let c = match t.find_value_for_key(source, 0, collection, StripMode::Pair) {
        Some(c) => c,
        None => {
            return None;
        },
    };
    let ghost p = named_object(t, source, name@);
    let mut j = c + 1;
    while j < t.nodes.len()
        invariant
            t.fits(source),
            c < j <= t.len(),
            find_value_for_key(t, source, 0, collection@, StripMode::Pair) == Some(c),
            p == named_object(t, source, name@),
            first_descendant(t, c, c + 1, p) == first_descendant(t, c, j as int, p),
        decreases t.len() - j,
    {
        if t.is_ancestor(c, j) && matches!(t.nodes[j].kind, NodeKind::Object | NodeKind::BlockMapping)
            && has_name(t, source, j, name) {
            assert(p(j));
            return Some(j);
        }
        j = j + 1;
    }
    None
}

fn locate_named(t: &SyntaxTree, source: &str, collection: &str, name: &str) -> (r: Option<
    Range<usize>,
>)
    requires
        t.fits(source),
    ensures
        match r {
            Some(x) => locate_named_object(t, source, collection@, name@) == Some((x.start, x.end)),
            None => locate_named_object(t, source, collection@, name@) is None,
        },
{
    match named_object_in(t, source, collection, name) {
        Some(m) => Some(t.nodes[m].start..t.nodes[m].end),
        None => None,
    }
}

/// Range of the table's own `name` value.
pub fn locate_top_name(tree: Option<&SyntaxTree>, source: &str) -> (r: Option<Range<usize>>)
    requires
        tree matches Some(t) ==> t.fits(source),
    ensures
        match tree {
            None => r is None,
            Some(t) => match r {
                Some(x) => spec_locate_top_name(t, source) == Some((x.start, x.end)),
                None => spec_locate_top_name(t, source) is None,
            },
        },
{
    let t = match tree {
        Some(t) => t,
        None => {
            return None;
        },
    };
    let m = match t.find_outer_mapping(0) {
        Some(m) => m,
        None => {
            return None;
        },
    };
    let ch = &t.nodes[m].children;
    let ghost all = ch@;
    let mut i: usize = 0;
    assert(all.skip(0) =~= all);
    while i < ch.len()
        invariant
            t.fits(source),
            m < t.len(),
            tree == Some(t),
            find_outer_mapping(t, 0) == Some(m),
            ch@ == t.children(m),
            all == ch@,
            i <= ch@.len(),
            first_name_value(t, source, all) == first_name_value(t, source, all.skip(i as int)),
        decreases ch.len() - i,
    {
        let c = ch[i];
        assert(t.nodes@[m as int].children@[i as int] == c);
        assert(all.skip(i as int)[0] == c);
        assert(all.skip(i as int).drop_first() =~= all.skip(i + 1));
        if t.has_key(source, c, "name", StripMode::Pair) {
            match t.get_named_child(c, 1) {
                Some(v) => {
                    return Some(t.nodes[v].start..t.nodes[v].end);
                },
                None => {},
            }
        }
        i = i + 1;
    }
    None
}

fn or_top(t: &SyntaxTree, source: &str, r: Option<Range<usize>>) -> (out: Range<usize>)
    requires
        t.fits(source),
    ensures
        (out.start, out.end) == or_top_name(
            t,
            source,
            match r {
                Some(x) => Some((x.start, x.end)),
                None => None,
            },
        ),
{
    match r {
        Some(x) => x,
        None => match locate_top_name(Some(t), source) {
            Some(x) => x,
            None => 0..1,
        },
    }
}

/// Range of the column object named `column`, falling back to the table
/// name, then `0..1`.
pub fn locate_column(tree: Option<&SyntaxTree>, source: &str, column: &str) -> (r: Range<usize>)
    requires
        tree matches Some(t) ==> t.fits(source),
    ensures
        (r.start, r.end) == spec_locate_column(tree, source, column@),
{
    match tree {
        None => 0..1,
        Some(t) => or_top(t, source, locate_named(t, source, "columns", column)),
    }
}

/// Range of the constraint object named `name`, falling back to the table
/// name, then `0..1`.
pub fn locate_constraint(tree: Option<&SyntaxTree>, source: &str, name: &str) -> (r: Range<usize>)
    requires
        tree matches Some(t) ==> t.fits(source),
    ensures
        (r.start, r.end) == spec_locate_constraint(tree, source, name@),
{
    match tree {
        None => 0..1,
        Some(t) => or_top(t, source, locate_named(t, source, "constraints", name)),
    }
}

fn field_key_str(field: ErrorField) -> (r: &'static str)
    ensures
        r@ == field_key(field),
{
    match field {
        ErrorField::Type => "type",
        ErrorField::Default => "default",
        ErrorField::Nullable => "nullable",
        ErrorField::Comment => "comment",
        ErrorField::ForeignKeyRefTable => "ref_table",
        ErrorField::ForeignKeyRefColumns => "ref_columns",
    }
}

fn field_range(t: &SyntaxTree, source: &str, column: usize, field: ErrorField) -> (r: Option<
    Range<usize>,
>)
    requires
        t.fits(source),
        column < t.len(),
    ensures
        match r {
            Some(x) => field_pair_range(t, source, column, field) == Some((x.start, x.end)),
            None => field_pair_range(t, source, column, field) is None,
        },
{
    let key = field_key_str(field);
    if matches!(field, ErrorField::ForeignKeyRefTable | ErrorField::ForeignKeyRefColumns) {
        let fk = match t.find_pair(source, column, "foreign_key", StripMode::Pair) {
            Some(fk) => fk,
            None => {
                return None;
            },
        };
        let fv = match t.get_named_child(fk, 1) {
            Some(fv) => fv,
            None => {
                return None;
            },
        };
        match t.find_pair(source, fv, key, StripMode::Pair) {
            Some(sub) => Some(t.nodes[sub].start..t.nodes[sub].end),
            None => Some(t.nodes[fk].start..t.nodes[fk].end),
        }
    } else {
        match t.find_pair(source, column, key, StripMode::Pair) {
            Some(p) => Some(t.nodes[p].start..t.nodes[p].end),
            None => None,
        }
    }
}

/// Range of one field of the column named `column`, falling back to the
/// column object, the table name, then `0..1`.
pub fn locate_column_field(
    tree: Option<&SyntaxTree>,
    source: &str,
    column: &str,
    field: ErrorField,
) -> (r: Range<usize>)
    requires
        tree matches Some(t) ==> t.fits(source),
    ensures
        (r.start, r.end) == spec_locate_column_field(tree, source, column@, field),
{
    let t = match tree {
        None => {
            return 0..1;
        },
        Some(t) => t,
    };
    let narrowed = match named_object_in(t, source, "columns", column) {
        Some(c) => field_range(t, source, c, field),
        None => None,
    };
    match narrowed {
        Some(x) => x,
        None => or_top(t, source, locate_named(t, source, "columns", column)),
    }
}

} // verus!
