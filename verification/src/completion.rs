//! Completion: what to offer at the cursor. The cursor's position in the
//! document (which key's value it is in, or where a new key would go)
//! decides the context; the context decides the candidates.

use std::ops::Range;
use vstd::prelude::*;
use vstd::string::*;
use vstd::utf8::*;
use crate::syntax::{
    SyntaxTree, NodeKind, StripMode, key_text, stripped_text, node_chars, find_pair, unwrap_wrapper,
    is_pair_kind, is_mapping_kind, is_sequence_kind, is_string_scalar_kind, is_pair, is_mapping,
    is_sequence, is_string_scalar,
};
use crate::symbols::first_mapping_child;
use crate::definition::{ancestor_pair_with_key, ancestor_pair};
use crate::hover::{inside_pair_with_key, has_ancestor_pair};
use crate::code_actions::{spec_expr_inner_range, expr_inner_range};
use crate::text::{
    str_eq, strip_quotes, spec_strip_quotes, utf8_str, lemma_utf8_str_view, trim, spec_trim,
    eq_ignore_ascii_case, ascii_lower_seq,
};
use crate::check_expr::{CheckToken, CheckTokenKind, span_text, span_str};

verus! {

/// One completion candidate.
#[derive(Debug, PartialEq, Eq)]
pub struct DomainCompletion {
    pub label: String,
    pub kind: CompletionItemKind,
    /// Markdown documentation, if any.
    pub detail: Option<String>,
    /// Text to insert, when it differs from the label.
    pub insert_text: Option<String>,
    /// Sort priority (smaller sorts first).
    pub sort_priority: u8,
    /// The bytes of the document that accepting the candidate replaces
    /// (a string literal, quotes included); `None` inserts at the cursor.
    pub replace_range_bytes: Option<Range<usize>>,
}

#[derive(Clone, Copy, Debug, PartialEq, Eq, Structural)]
pub enum CompletionItemKind {
    /// Enum value, boolean literal, or other scalar value.
    Value,
    /// Object key.
    Property,
    /// Workspace reference, such as a table or column.
    Reference,
    /// Multi-field template.
    Snippet,
}

/// Label, kind, documentation, insert text, sort priority, replaced range.
pub type CompletionView = (
    Seq<char>,
    CompletionItemKind,
    Option<Seq<char>>,
    Option<Seq<char>>,
    u8,
    Option<(usize, usize)>,
);

pub open spec fn opt_string(o: Option<String>) -> Option<Seq<char>> {
    match o {
        Some(s) => Some(s@),
        None => None,
    }
}

impl View for DomainCompletion {
    type V = CompletionView;

    open spec fn view(&self) -> CompletionView {
        (
            self.label@,
            self.kind,
            opt_string(self.detail),
            opt_string(self.insert_text),
            self.sort_priority,
            range_view(self.replace_range_bytes),
        )
    }
}

pub open spec fn completion_views(v: Seq<DomainCompletion>) -> Seq<CompletionView> {
    v.map_values(|c: DomainCompletion| c@)
}

fn push_completion(out: &mut Vec<DomainCompletion>, c: DomainCompletion)
    ensures
        completion_views(final(out)@) == completion_views(old(out)@).push(c@),
{
    let ghost prev = out@;
    let ghost cv = c@;
    out.push(c);
    assert(completion_views(out@) =~= completion_views(prev).push(cv));
}

// ---------------------------------------------------------------------------
// Candidate lists
// ---------------------------------------------------------------------------

pub open spec fn value_view(label: Seq<char>, detail: Seq<char>) -> CompletionView {
    (label, CompletionItemKind::Value, Some(detail), None, 1u8, None)
}

pub open spec fn snippet_view(label: Seq<char>, detail: Seq<char>, insert: Seq<char>) -> CompletionView {
    (label, CompletionItemKind::Snippet, Some(detail), Some(insert), 2u8, None)
}

/// A scalar value with its documentation.
pub fn value(label: &str, detail: String) -> (r: DomainCompletion)
    ensures
        r@ == value_view(label@, detail@),
{
    DomainCompletion {
        label: String::from_str(label),
        kind: CompletionItemKind::Value,
        detail: Some(detail),
        insert_text: None,
        sort_priority: 1,
        replace_range_bytes: None,
    }
}

/// A template inserted in place of its label.
pub fn snippet(label: &str, detail: &str, insert_text: &str) -> (r: DomainCompletion)
    ensures
        r@ == snippet_view(label@, detail@, insert_text@),
{
    DomainCompletion {
        label: String::from_str(label),
        kind: CompletionItemKind::Snippet,
        detail: Some(String::from_str(detail)),
        insert_text: Some(String::from_str(insert_text)),
        sort_priority: 2,
        replace_range_bytes: None,
    }
}

/// The simple column types offered as plain strings.
pub open spec fn column_type_names() -> Seq<Seq<char>> {
    seq![
        "small_int"@,
        "integer"@,
        "big_int"@,
        "real"@,
        "double_precision"@,
        "text"@,
        "boolean"@,
        "date"@,
        "time"@,
        "timestamp"@,
        "timestamptz"@,
        "interval"@,
        "bytea"@,
        "uuid"@,
        "json"@,
        "inet"@,
        "cidr"@,
        "macaddr"@,
        "xml"@,
    ]
}

/// The templates for complex column types.
pub open spec fn complex_type_snippets() -> Seq<CompletionView> {
    seq![
        snippet_view("varchar(N)"@, "Variable-length string"@, "{\"kind\":\"varchar\",\"length\":${1:255}}"@),
        snippet_view("char(N)"@, "Fixed-length string"@, "{\"kind\":\"char\",\"length\":${1:2}}"@),
        snippet_view(
            "numeric(P,S)"@,
            "Fixed-precision decimal"@,
            "{\"kind\":\"numeric\",\"precision\":${1:10},\"scale\":${2:2}}"@,
        ),
        snippet_view(
            "enum"@,
            "Native string enum"@,
            "{\"kind\":\"enum\",\"name\":\"${1:status}\",\"values\":[\"${2:active}\",\"${3:inactive}\"]}"@,
        ),
    ]
}

pub open spec fn prefixed_values(names: Seq<Seq<char>>, prefix: Seq<char>) -> Seq<CompletionView> {
    names.map_values(|n: Seq<char>| value_view(n, prefix + n))
}

pub open spec fn spec_column_types() -> Seq<CompletionView> {
    prefixed_values(column_type_names(), "Column type: "@) + complex_type_snippets()
}

fn push_prefixed_values(out: &mut Vec<DomainCompletion>, names: &Vec<&str>, prefix: &str)
    ensures
        completion_views(final(out)@) == completion_views(old(out)@) + prefixed_values(
            names@.map_values(|n: &str| n@),
            prefix@,
        ),
{
    let ghost start = completion_views(out@);
    let ghost all = names@.map_values(|n: &str| n@);
    let mut i: usize = 0;
    assert(all.take(0) =~= Seq::<Seq<char>>::empty());
    assert(start =~= start + prefixed_values(all.take(0), prefix@));
    while i < names.len()
        invariant
            all == names@.map_values(|n: &str| n@),
            i <= names@.len(),
            completion_views(out@) == start + prefixed_values(all.take(i as int), prefix@),
        decreases names.len() - i,
    {
        let mut detail = String::from_str(prefix);
        detail.append(names[i]);
        push_completion(out, value(names[i], detail));
        assert(prefixed_values(all.take(i + 1), prefix@) =~= prefixed_values(all.take(i as int), prefix@).push(
            value_view(names@[i as int]@, prefix@ + names@[i as int]@),
        ));
        i = i + 1;
    }
    assert(all.take(names@.len() as int) =~= all);
}

/// The simple column types, then the complex-type templates.
pub fn column_types() -> (r: Vec<DomainCompletion>)
    ensures
        completion_views(r@) == spec_column_types(),
{
    let names = vec![
        "small_int",
        "integer",
        "big_int",
        "real",
        "double_precision",
        "text",
        "boolean",
        "date",
        "time",
        "timestamp",
        "timestamptz",
        "interval",
        "bytea",
        "uuid",
        "json",
        "inet",
        "cidr",
        "macaddr",
        "xml",
    ];
    let mut out: Vec<DomainCompletion> = Vec::new();
    assert(completion_views(out@) =~= Seq::<CompletionView>::empty());
    push_prefixed_values(&mut out, &names, "Column type: ");
    assert(names@.map_values(|n: &str| n@) =~= column_type_names());
    let ghost mid = completion_views(out@);
    push_completion(
        &mut out,
        snippet("varchar(N)", "Variable-length string", "{\"kind\":\"varchar\",\"length\":${1:255}}"),
    );
    push_completion(
        &mut out,
        snippet("char(N)", "Fixed-length string", "{\"kind\":\"char\",\"length\":${1:2}}"),
    );
    push_completion(
        &mut out,
        snippet(
            "numeric(P,S)",
            "Fixed-precision decimal",
            "{\"kind\":\"numeric\",\"precision\":${1:10},\"scale\":${2:2}}",
        ),
    );
    push_completion(
        &mut out,
        snippet(
            "enum",
            "Native string enum",
            "{\"kind\":\"enum\",\"name\":\"${1:status}\",\"values\":[\"${2:active}\",\"${3:inactive}\"]}",
        ),
    );
    assert(completion_views(out@) =~= spec_column_types());
    out
}

pub open spec fn reference_action_names() -> Seq<Seq<char>> {
    seq!["cascade"@, "restrict"@, "set_null"@, "set_default"@, "no_action"@]
}

pub open spec fn spec_reference_actions() -> Seq<CompletionView> {
    prefixed_values(reference_action_names(), "Reference action: "@)
}

/// The `on_delete` / `on_update` actions.
pub fn reference_actions() -> (r: Vec<DomainCompletion>)
    ensures
        completion_views(r@) == spec_reference_actions(),
{
    let names = vec!["cascade", "restrict", "set_null", "set_default", "no_action"];
    let mut out: Vec<DomainCompletion> = Vec::new();
    assert(completion_views(out@) =~= Seq::<CompletionView>::empty());
    push_prefixed_values(&mut out, &names, "Reference action: ");
    assert(names@.map_values(|n: &str| n@) =~= reference_action_names());
    assert(completion_views(out@) =~= spec_reference_actions());
    out
}

pub open spec fn bare_value_view(label: Seq<char>) -> CompletionView {
    (label, CompletionItemKind::Value, None, None, 1u8, None)
}

pub open spec fn spec_booleans() -> Seq<CompletionView> {
    seq![bare_value_view("true"@), bare_value_view("false"@)]
}

fn bare_value(label: &str) -> (r: DomainCompletion)
    ensures
        r@ == bare_value_view(label@),
{
    DomainCompletion {
        label: String::from_str(label),
        kind: CompletionItemKind::Value,
        detail: None,
        insert_text: None,
        sort_priority: 1,
        replace_range_bytes: None,
    }
}

/// `true` and `false`.
pub fn booleans() -> (r: Vec<DomainCompletion>)
    ensures
        completion_views(r@) == spec_booleans(),
{
    let mut out: Vec<DomainCompletion> = Vec::new();
    assert(completion_views(out@) =~= Seq::<CompletionView>::empty());
    push_completion(&mut out, bare_value("true"));
    push_completion(&mut out, bare_value("false"));
    assert(completion_views(out@) =~= spec_booleans());
    out
}

pub open spec fn table_view(name: Seq<char>) -> CompletionView {
    (name, CompletionItemKind::Reference, Some("Table: "@ + name), None, 1u8, None)
}

/// A table of the workspace.
pub fn table_completion(name: String) -> (r: DomainCompletion)
    ensures
        r@ == table_view(name@),
{
    let mut detail = String::from_str("Table: ");
    detail.append(name.as_str());
    DomainCompletion {
        detail: Some(detail),
        label: name,
        kind: CompletionItemKind::Reference,
        insert_text: None,
        sort_priority: 1,
        replace_range_bytes: None,
    }
}

pub open spec fn string_views(v: Seq<String>) -> Seq<Seq<char>> {
    v.map_values(|s: String| s@)
}

/// `names` without the ones that occur in `seen` or earlier in `names`.
pub open spec fn new_names(seen: Seq<Seq<char>>, names: Seq<Seq<char>>) -> Seq<Seq<char>>
    decreases names.len(),
{
    if names.len() == 0 {
        Seq::empty()
    } else {
        let rest = new_names(seen, names.drop_last());
        let n = names.last();
        if seen.contains(n) || names.drop_last().contains(n) {
            rest
        } else {
            rest.push(n)
        }
    }
}

/// The tables of the open documents, then the tables found only on disk.
pub open spec fn spec_tables_in_workspace(open: Seq<Seq<char>>, disk: Seq<Seq<char>>) -> Seq<
    CompletionView,
> {
    (open + new_names(open, disk)).map_values(|n: Seq<char>| table_view(n))
}

fn contains_name(v: &Vec<String>, upto: usize, n: &str) -> (r: bool)
    requires
        upto <= v@.len(),
    ensures
        r == string_views(v@).take(upto as int).contains(n@),
{
    let mut i: usize = 0;
    while i < upto
        invariant
            upto <= v@.len(),
            i <= upto,
            forall|k: int| 0 <= k < i ==> v@[k]@ != n@,
        decreases upto - i,
    {
        if crate::text::str_eq(v[i].as_str(), n) {
            assert(string_views(v@).take(upto as int)[i as int] == n@);
            return true;
        }
        i = i + 1;
    }
    proof {
        if string_views(v@).take(upto as int).contains(n@) {
            let k = choose|k: int| 0 <= k < upto && string_views(v@).take(upto as int)[k] == n@;
            assert(v@[k]@ == n@);
        }
    }
    false
}

pub fn tables_in_workspace(open: &Vec<String>, disk: &Vec<String>) -> (r: Vec<DomainCompletion>)
    ensures
        completion_views(r@) == spec_tables_in_workspace(string_views(open@), string_views(disk@)),
{
    let ghost o = string_views(open@);
    let ghost d = string_views(disk@);
    let mut out: Vec<DomainCompletion> = Vec::new();
    let mut i: usize = 0;
    assert(completion_views(out@) =~= o.take(0).map_values(|n: Seq<char>| table_view(n)));
    while i < open.len()
        invariant
            o == string_views(open@),
            i <= open@.len(),
            completion_views(out@) == o.take(i as int).map_values(|n: Seq<char>| table_view(n)),
        decreases open.len() - i,
    {
        push_completion(&mut out, table_completion(open[i].clone()));
        assert(o.take(i + 1) =~= o.take(i as int).push(o[i as int]));
        assert(o.take(i + 1).map_values(|n: Seq<char>| table_view(n)) =~= o.take(i as int).map_values(
            |n: Seq<char>| table_view(n),
        ).push(table_view(o[i as int])));
        i = i + 1;
    }
    assert(o.take(open@.len() as int) =~= o);
    assert(o.take(open@.len() as int) =~= o + new_names(o, d.take(0)));
    let mut j: usize = 0;
    while j < disk.len()
        invariant
            o == string_views(open@),
            d == string_views(disk@),
            j <= disk@.len(),
            completion_views(out@) == (o + new_names(o, d.take(j as int))).map_values(
                |n: Seq<char>| table_view(n),
            ),
        decreases disk.len() - j,
    {
        let ghost pre = d.take(j + 1);
        assert(pre.drop_last() =~= d.take(j as int));
        assert(pre.last() == disk@[j as int]@);
        let seen_open = contains_name(open, open.len(), disk[j].as_str());
        let seen_disk = contains_name(disk, j, disk[j].as_str());
        assert(o.take(open@.len() as int) =~= o);
        assert(d.take(j as int) =~= string_views(disk@).take(j as int));
        if !seen_open && !seen_disk {
            push_completion(&mut out, table_completion(disk[j].clone()));
            assert((o + new_names(o, pre)) =~= (o + new_names(o, d.take(j as int))).push(d[j as int]));
        }
        assert(completion_views(out@) =~= (o + new_names(o, pre)).map_values(|n: Seq<char>| table_view(n)));
        j = j + 1;
    }
    assert(d.take(disk@.len() as int) =~= d);
    out
}

pub open spec fn column_view(table: Seq<char>, name: Seq<char>) -> CompletionView {
    (name, CompletionItemKind::Reference, Some("Column in "@ + table), None, 1u8, None)
}

pub open spec fn spec_column_completions(table: Seq<char>, columns: Seq<Seq<char>>) -> Seq<
    CompletionView,
> {
    columns.map_values(|n: Seq<char>| column_view(table, n))
}

/// The columns of `table`.
pub fn column_completions(table: &str, columns: &Vec<String>) -> (r: Vec<DomainCompletion>)
    ensures
        completion_views(r@) == spec_column_completions(table@, string_views(columns@)),
{
    let ghost cs = string_views(columns@);
    let mut out: Vec<DomainCompletion> = Vec::new();
    let mut i: usize = 0;
    assert(completion_views(out@) =~= spec_column_completions(table@, cs.take(0)));
    while i < columns.len()
        invariant
            cs == string_views(columns@),
            i <= columns@.len(),
            completion_views(out@) == spec_column_completions(table@, cs.take(i as int)),
        decreases columns.len() - i,
    {
        let mut detail = String::from_str("Column in ");
        detail.append(table);
        let c = DomainCompletion {
            label: columns[i].clone(),
            kind: CompletionItemKind::Reference,
            detail: Some(detail),
            insert_text: None,
            sort_priority: 1,
            replace_range_bytes: None,
        };
        push_completion(&mut out, c);
        assert(cs.take(i + 1) =~= cs.take(i as int).push(cs[i as int]));
        assert(spec_column_completions(table@, cs.take(i + 1)) =~= spec_column_completions(
            table@,
            cs.take(i as int),
        ).push(column_view(table@, cs[i as int])));
        i = i + 1;
    }
    assert(cs.take(columns@.len() as int) =~= cs);
    out
}

/// Columns of a referenced table: those of its open document when that
/// parses and has any, else those found on disk, else none.
pub open spec fn spec_columns_of(
    table: Seq<char>,
    open: Option<Seq<Seq<char>>>,
    disk: Option<Seq<Seq<char>>>,
) -> Seq<CompletionView> {
    let from_open = match open {
        Some(c) => spec_column_completions(table, c),
        None => Seq::empty(),
    };
    if from_open.len() > 0 {
        from_open
    } else {
        match disk {
            Some(c) => spec_column_completions(table, c),
            None => Seq::empty(),
        }
    }
}

pub open spec fn opt_views(o: Option<Vec<String>>) -> Option<Seq<Seq<char>>> {
    match o {
        Some(v) => Some(string_views(v@)),
        None => None,
    }
}

pub fn columns_of(table: &str, open: &Option<Vec<String>>, disk: &Option<Vec<String>>) -> (r: Vec<
    DomainCompletion,
>)
    ensures
        completion_views(r@) == spec_columns_of(table@, opt_views(*open), opt_views(*disk)),
{
    let from_open = match open {
        Some(c) => column_completions(table, c),
        None => Vec::new(),
    };
    if from_open.len() > 0 {
        return from_open;
    }
    match disk {
        Some(c) => column_completions(table, c),
        None => Vec::new(),
    }
}

// ---------------------------------------------------------------------------
// The cursor's context
// ---------------------------------------------------------------------------

/// Where the cursor is, as completion sees it.
#[derive(Debug)]
pub enum Context {
    /// Inside the string of a column's `type` value.
    ColumnTypeInString { string_byte_range: Range<usize> },
    /// At the bare value slot of a column's `type`.
    ColumnTypeValue,
    Nullable,
    PrimaryKey,
    Unique,
    OnDeleteAction,
    OnUpdateAction,
    RefTable,
    RefColumns { ref_table: String },
    /// The `kind` value of a complex `type` object.
    TypeKind { string_byte_range: Option<Range<usize>> },
    /// A column's `default` value, with what the sibling `type` says.
    DefaultValue {
        type_kind: Option<String>,
        enum_values: Vec<String>,
        string_byte_range: Option<Range<usize>>,
    },
    /// Inside a table-level CHECK expression: the table's columns, the
    /// expression's inner range and the cursor's offset in it.
    CheckExpr { table_columns: Vec<String>, inner: Range<usize>, cursor_rel: usize },
    /// A new key of the table object.
    TableTopLevelKey,
    /// A new key of a column object.
    ColumnObjectKey,
    /// A new key of a `foreign_key` object.
    ForeignKeyObjectKey,
    /// A new key of a complex `type` object.
    TypeObjectKey,
    /// No completion context.
    Nothing,
}

pub enum ContextView {
    ColumnTypeInString { string_byte_range: (usize, usize) },
    ColumnTypeValue,
    Nullable,
    PrimaryKey,
    Unique,
    OnDeleteAction,
    OnUpdateAction,
    RefTable,
    RefColumns { ref_table: Seq<char> },
    TypeKind { string_byte_range: Option<(usize, usize)> },
    DefaultValue {
        type_kind: Option<Seq<char>>,
        enum_values: Seq<Seq<char>>,
        string_byte_range: Option<(usize, usize)>,
    },
    CheckExpr { table_columns: Seq<Seq<char>>, inner: (usize, usize), cursor_rel: usize },
    TableTopLevelKey,
    ColumnObjectKey,
    ForeignKeyObjectKey,
    TypeObjectKey,
    Nothing,
}

pub open spec fn range_view(r: Option<Range<usize>>) -> Option<(usize, usize)> {
    match r {
        Some(x) => Some((x.start, x.end)),
        None => None,
    }
}

impl View for Context {
    type V = ContextView;

    open spec fn view(&self) -> ContextView {
        match self {
            Context::ColumnTypeInString { string_byte_range } => ContextView::ColumnTypeInString {
                string_byte_range: (string_byte_range.start, string_byte_range.end),
            },
            Context::ColumnTypeValue => ContextView::ColumnTypeValue,
            Context::Nullable => ContextView::Nullable,
            Context::PrimaryKey => ContextView::PrimaryKey,
            Context::Unique => ContextView::Unique,
            Context::OnDeleteAction => ContextView::OnDeleteAction,
            Context::OnUpdateAction => ContextView::OnUpdateAction,
            Context::RefTable => ContextView::RefTable,
            Context::RefColumns { ref_table } => ContextView::RefColumns { ref_table: ref_table@ },
            Context::TypeKind { string_byte_range } => ContextView::TypeKind {
                string_byte_range: range_view(*string_byte_range),
            },
            Context::DefaultValue { type_kind, enum_values, string_byte_range } =>
                ContextView::DefaultValue {
                type_kind: opt_string(*type_kind),
                enum_values: string_views(enum_values@),
                string_byte_range: range_view(*string_byte_range),
            },
            Context::CheckExpr { table_columns, inner, cursor_rel } => ContextView::CheckExpr {
                table_columns: string_views(table_columns@),
                inner: (inner.start, inner.end),
                cursor_rel: *cursor_rel,
            },
            Context::TableTopLevelKey => ContextView::TableTopLevelKey,
            Context::ColumnObjectKey => ContextView::ColumnObjectKey,
            Context::ForeignKeyObjectKey => ContextView::ForeignKeyObjectKey,
            Context::TypeObjectKey => ContextView::TypeObjectKey,
            Context::Nothing => ContextView::Nothing,
        }
    }
}

/// The keys of the pairs among `i` and its ancestors, innermost first.
pub open spec fn key_path_up(t: &SyntaxTree, source: &str, i: usize) -> Seq<Seq<char>>
    decreases i,
{
    if i >= t.len() {
        Seq::empty()
    } else {
        let here = if is_pair_kind(t.kind(i)) && key_text(t, source, i, StripMode::Greedy) is Some {
            seq![key_text(t, source, i, StripMode::Greedy)->0]
        } else {
            Seq::empty()
        };
        here + match t.parent(i) {
            Some(p) => if p < i {
                key_path_up(t, source, p)
            } else {
                Seq::empty()
            },
            None => Seq::empty(),
        }
    }
}

/// The first mapping among `i` and its ancestors.
pub open spec fn mapping_up(t: &SyntaxTree, i: usize) -> Option<usize>
    decreases i,
{
    if i >= t.len() {
        None
    } else if is_mapping_kind(t.kind(i)) {
        Some(i)
    } else {
        match t.parent(i) {
            Some(p) => if p < i {
                mapping_up(t, p)
            } else {
                None
            },
            None => None,
        }
    }
}

/// The cursor node `[cs, ce)` is inside a pair's key, or directly in a
/// mapping's body: walking up, the first pair decides by its key's range,
/// a mapping met first says yes.
pub open spec fn at_key_position(t: &SyntaxTree, cs: usize, ce: usize, i: usize) -> bool
    decreases i,
{
    if i >= t.len() {
        false
    } else if is_pair_kind(t.kind(i)) {
        match t.named_child(i, 0) {
            Some(k) => cs >= t.start(k) && ce <= t.end(k),
            None => false,
        }
    } else if is_mapping_kind(t.kind(i)) {
        true
    } else {
        match t.parent(i) {
            Some(p) => if p < i {
                at_key_position(t, cs, ce, p)
            } else {
                false
            },
            None => false,
        }
    }
}

/// The keys above the innermost mapping around `i`, innermost first.
pub open spec fn object_parent_path(t: &SyntaxTree, source: &str, i: usize) -> Seq<Seq<char>> {
    match mapping_up(t, i) {
        Some(o) => match t.parent(o) {
            Some(p) => if p < o {
                key_path_up(t, source, p)
            } else {
                Seq::empty()
            },
            None => Seq::empty(),
        },
        None => Seq::empty(),
    }
}

/// A kind that ends the search for an enclosing string.
pub open spec fn is_container_boundary(k: NodeKind) -> bool {
    matches!(
        k,
        NodeKind::Pair | NodeKind::BlockMappingPair | NodeKind::Object | NodeKind::Array
            | NodeKind::BlockMapping | NodeKind::BlockSequence | NodeKind::FlowMapping
            | NodeKind::FlowSequence
    )
}

/// The range of the string literal around `i` (quotes included).
pub open spec fn string_range_up(t: &SyntaxTree, i: usize) -> Option<(usize, usize)>
    decreases i,
{
    if i >= t.len() {
        None
    } else if t.kind(i) == NodeKind::StringContent {
        match t.parent(i) {
            Some(p) => if p < t.len() && t.kind(p) == NodeKind::String {
                Some((t.start(p), t.end(p)))
            } else {
                Some((t.start(i), t.end(i)))
            },
            None => Some((t.start(i), t.end(i))),
        }
    } else if is_string_scalar_kind(t.kind(i)) {
        Some((t.start(i), t.end(i)))
    } else if is_container_boundary(t.kind(i)) {
        None
    } else {
        match t.parent(i) {
            Some(p) => if p < i {
                string_range_up(t, p)
            } else {
                None
            },
            None => None,
        }
    }
}

/// The stripped text of a pair's value (not unwrapped).
pub open spec fn value_text(t: &SyntaxTree, source: &str, pair: usize) -> Option<Seq<char>> {
    match t.named_child(pair, 1) {
        Some(v) => stripped_text(t, source, v, StripMode::Greedy),
        None => None,
    }
}

/// The `ref_table` next to the `ref_columns` pair around `i`.
pub open spec fn sibling_ref_table(t: &SyntaxTree, source: &str, i: usize) -> Option<Seq<char>> {
    match ancestor_pair_with_key(t, source, i, "ref_columns"@) {
        Some(p) => match t.parent(p) {
            Some(obj) => match find_pair(t, source, obj, "ref_table"@, StripMode::Greedy) {
                Some(q) => value_text(t, source, q),
                None => None,
            },
            None => None,
        },
        None => None,
    }
}

/// The stripped text of a node (unwrapped), read as a scalar.
pub open spec fn scalar_chars(t: &SyntaxTree, source: &str, n: usize) -> Option<Seq<char>> {
    stripped_text(t, source, unwrap_wrapper(t, n), StripMode::Greedy)
}

pub open spec fn opt_seq(o: Option<Seq<char>>) -> Seq<Seq<char>> {
    match o {
        Some(x) => seq![x],
        None => Seq::empty(),
    }
}

/// The string elements inside a YAML `- ...` item.
pub open spec fn item_enum_values(t: &SyntaxTree, source: &str, ch: Seq<usize>) -> Seq<Seq<char>>
    decreases ch.len(),
{
    if ch.len() == 0 {
        Seq::empty()
    } else {
        let u = unwrap_wrapper(t, ch.last());
        item_enum_values(t, source, ch.drop_last()) + if u < t.len() && is_string_scalar_kind(t.kind(u)) {
            opt_seq(stripped_text(t, source, u, StripMode::Greedy))
        } else {
            Seq::empty()
        }
    }
}

pub open spec fn element_enum_values(t: &SyntaxTree, source: &str, c: usize) -> Seq<Seq<char>> {
    let e = unwrap_wrapper(t, c);
    if is_string_scalar_kind(t.kind(e)) {
        opt_seq(stripped_text(t, source, e, StripMode::Greedy))
    } else if is_mapping_kind(t.kind(e)) {
        match find_pair(t, source, e, "name"@, StripMode::Greedy) {
            Some(np) => match t.named_child(np, 1) {
                Some(nv) => opt_seq(scalar_chars(t, source, nv)),
                None => Seq::empty(),
            },
            None => Seq::empty(),
        }
    } else if t.kind(e) == NodeKind::BlockSequenceItem {
        item_enum_values(t, source, t.children(e))
    } else {
        Seq::empty()
    }
}

pub open spec fn enum_values_of(t: &SyntaxTree, source: &str, ch: Seq<usize>) -> Seq<Seq<char>>
    decreases ch.len(),
{
    if ch.len() == 0 {
        Seq::empty()
    } else {
        enum_values_of(t, source, ch.drop_last()) + element_enum_values(t, source, ch.last())
    }
}

/// The members of the enum type object `obj`: string elements and the
/// `name` of object elements of its `values` list.
pub open spec fn spec_collect_enum_values(t: &SyntaxTree, source: &str, obj: usize) -> Seq<Seq<char>> {
    match find_pair(t, source, obj, "values"@, StripMode::Greedy) {
        Some(vp) => match t.named_child(vp, 1) {
            Some(raw) => {
                let arr = unwrap_wrapper(t, raw);
                if is_sequence_kind(t.kind(arr)) {
                    enum_values_of(t, source, t.children(arr))
                } else {
                    Seq::empty()
                }
            },
            None => Seq::empty(),
        },
        None => Seq::empty(),
    }
}

/// What the `type` sibling of the cursor's column object says: a simple
/// type's name, or a type object's `kind` and (for enums) its members.
pub open spec fn sibling_type(t: &SyntaxTree, source: &str, i: usize) -> (Option<Seq<char>>, Seq<Seq<char>>) {
    match mapping_up(t, i) {
        None => (None, Seq::empty()),
        Some(obj) => match find_pair(t, source, obj, "type"@, StripMode::Greedy) {
            None => (None, Seq::empty()),
            Some(tp) => match t.named_child(tp, 1) {
                None => (None, Seq::empty()),
                Some(tv) => {
                    let e = unwrap_wrapper(t, tv);
                    if is_string_scalar_kind(t.kind(e)) {
                        (
                            Some(
                                match node_chars(t, source, e) {
                                    Some(x) => spec_strip_quotes(x),
                                    None => spec_strip_quotes(Seq::empty()),
                                },
                            ),
                            Seq::empty(),
                        )
                    } else if is_mapping_kind(t.kind(e)) {
                        let kind = match find_pair(t, source, e, "kind"@, StripMode::Greedy) {
                            Some(kp) => match t.named_child(kp, 1) {
                                Some(kv) => scalar_chars(t, source, kv),
                                None => None,
                            },
                            None => None,
                        };
                        (
                            kind,
                            if kind == Some("enum"@) {
                                spec_collect_enum_values(t, source, e)
                            } else {
                                Seq::empty()
                            },
                        )
                    } else {
                        (None, Seq::empty())
                    }
                },
            },
        },
    }
}

/// The document's value node: the root's first named child, unwrapped.
pub open spec fn document_value(t: &SyntaxTree) -> usize {
    match t.named_child(0, 0) {
        Some(c) => unwrap_wrapper(t, c),
        None => 0,
    }
}

/// The non-empty `name` of a column object.
pub open spec fn column_object_name(t: &SyntaxTree, source: &str, o: usize) -> Seq<Seq<char>> {
    match find_pair(t, source, o, "name"@, StripMode::Greedy) {
        Some(np) => match t.named_child(np, 1) {
            Some(nv) => match scalar_chars(t, source, nv) {
                Some(n) => if n.len() > 0 {
                    seq![n]
                } else {
                    Seq::empty()
                },
                None => Seq::empty(),
            },
            None => Seq::empty(),
        },
        None => Seq::empty(),
    }
}

pub open spec fn column_names_of(t: &SyntaxTree, source: &str, ch: Seq<usize>) -> Seq<Seq<char>>
    decreases ch.len(),
{
    if ch.len() == 0 {
        Seq::empty()
    } else {
        let child = unwrap_wrapper(t, ch.last());
        let obj = if is_mapping_kind(t.kind(child)) {
            Some(child)
        } else if t.kind(child) == NodeKind::BlockSequenceItem {
            first_mapping_child(t, t.children(child))
        } else {
            None
        };
        column_names_of(t, source, ch.drop_last()) + match obj {
            Some(o) => column_object_name(t, source, o),
            None => Seq::empty(),
        }
    }
}

/// The names of the table's columns (of the document's top-level
/// `columns` list).
pub open spec fn table_columns(t: &SyntaxTree, source: &str) -> Seq<Seq<char>> {
    match find_pair(t, source, document_value(t), "columns"@, StripMode::Greedy) {
        Some(cp) => match t.named_child(cp, 1) {
            Some(raw) => {
                let arr = unwrap_wrapper(t, raw);
                if is_sequence_kind(t.kind(arr)) {
                    column_names_of(t, source, t.children(arr))
                } else {
                    Seq::empty()
                }
            },
            None => Seq::empty(),
        },
        None => Seq::empty(),
    }
}

/// The greatest character boundary of `b` at or below `k`.
pub open spec fn clamp_boundary(b: Seq<u8>, k: int) -> int
    decreases k,
{
    if k <= 0 {
        0
    } else if is_char_boundary(b, k) {
        k
    } else {
        clamp_boundary(b, k - 1)
    }
}

/// The CHECK-expression context of the cursor at `offset`, found from
/// node `i`.
pub open spec fn check_expr_context(t: &SyntaxTree, source: &str, i: usize, offset: usize) -> Option<
    ContextView,
> {
    match ancestor_pair_with_key(t, source, i, "expr"@) {
        None => None,
        Some(ep) => if !inside_pair_with_key(t, source, ep, "constraints"@) {
            None
        } else {
            match t.named_child(ep, 1) {
                None => None,
                Some(raw) => match spec_expr_inner_range(t, unwrap_wrapper(t, raw)) {
                    None => None,
                    Some((s, e)) => if offset < s || offset > e {
                        None
                    } else {
                        let b = source.spec_bytes().subrange(s as int, e as int);
                        if !valid_utf8(b) {
                            None
                        } else {
                            let rel = clamp_boundary(
                                b,
                                if offset - s < b.len() {
                                    offset - s
                                } else {
                                    b.len() as int
                                },
                            );
                            Some(
                                ContextView::CheckExpr {
                                    table_columns: table_columns(t, source),
                                    inner: (s, e),
                                    cursor_rel: rel as usize,
                                },
                            )
                        }
                    },
                },
            }
        },
    }
}

/// Tree-sitter's `descendant_for_byte_range` step: the first child that
/// ends at or after `end` and after `start`, unless it starts after
/// `start`.
pub open spec fn first_spanning(t: &SyntaxTree, ch: Seq<usize>, start: usize, end: usize) -> Option<
    usize,
>
    decreases ch.len(),
{
    if ch.len() == 0 {
        None
    } else {
        let c = ch[0];
        if t.end(c) < end || t.end(c) <= start {
            first_spanning(t, ch.drop_first(), start, end)
        } else if start < t.start(c) {
            None
        } else {
            Some(c)
        }
    }
}

/// The smallest node below `cur` that spans `start..end`.
pub open spec fn descend_range(t: &SyntaxTree, cur: usize, start: usize, end: usize) -> usize
    decreases t.len() - cur,
{
    match first_spanning(t, t.children(cur), start, end) {
        Some(c) => if cur < c && c < t.len() {
            descend_range(t, c, start, end)
        } else {
            cur
        },
        None => cur,
    }
}

/// The node completion looks at: the smallest node spanning the byte
/// before the cursor up to the cursor, within the root.
pub open spec fn completion_node(t: &SyntaxTree, offset: usize) -> usize {
    let re = t.end(0);
    if re == 0 {
        0
    } else {
        let s: usize = if offset >= 1 && (offset - 1) < re - 1 {
            (offset - 1) as usize
        } else if offset >= 1 {
            (re - 1) as usize
        } else {
            0
        };
        let e: usize = if offset < re {
            offset
        } else {
            re
        };
        descend_range(t, 0, s, e)
    }
}

/// The value context of a key path (innermost key first).
pub open spec fn classify_path(
    t: &SyntaxTree,
    source: &str,
    path: Seq<Seq<char>>,
    node: usize,
    offset: usize,
) -> ContextView {
    if path.len() == 0 {
        ContextView::Nothing
    } else {
        let last = path[0];
        if last == "type"@ && path.contains("columns"@) {
            match string_range_up(t, node) {
                Some(r) => ContextView::ColumnTypeInString { string_byte_range: r },
                None => ContextView::ColumnTypeValue,
            }
        } else if last == "nullable"@ && path.contains("columns"@) {
            ContextView::Nullable
        } else if last == "primary_key"@ && path.contains("columns"@) {
            ContextView::PrimaryKey
        } else if last == "unique"@ && path.contains("columns"@) {
            ContextView::Unique
        } else if last == "kind"@ && path.contains("columns"@) && path.contains("type"@) {
            ContextView::TypeKind { string_byte_range: string_range_up(t, node) }
        } else if last == "on_delete"@ {
            ContextView::OnDeleteAction
        } else if last == "on_update"@ {
            ContextView::OnUpdateAction
        } else if last == "ref_table"@ {
            ContextView::RefTable
        } else if last == "ref_columns"@ {
            ContextView::RefColumns {
                ref_table: match sibling_ref_table(t, source, node) {
                    Some(x) => x,
                    None => Seq::empty(),
                },
            }
        } else if last == "default"@ && path.contains("columns"@) {
            let (type_kind, enum_values) = sibling_type(t, source, node);
            ContextView::DefaultValue {
                type_kind: type_kind,
                enum_values: enum_values,
                string_byte_range: string_range_up(t, node),
            }
        } else if last == "expr"@ && path.contains("constraints"@) {
            match check_expr_context(t, source, node, offset) {
                Some(c) => c,
                None => ContextView::Nothing,
            }
        } else {
            ContextView::Nothing
        }
    }
}

/// The key context, when the cursor is where a new key would be typed.
pub open spec fn key_context(t: &SyntaxTree, source: &str, node: usize) -> Option<ContextView> {
    if !at_key_position(t, t.start(node), t.end(node), node) {
        None
    } else {
        let pp = object_parent_path(t, source, node);
        if pp.len() == 0 {
            Some(ContextView::TableTopLevelKey)
        } else if pp[0] == "foreign_key"@ {
            Some(ContextView::ForeignKeyObjectKey)
        } else if pp[0] == "type"@ {
            Some(ContextView::TypeObjectKey)
        } else if pp[0] == "columns"@ {
            Some(ContextView::ColumnObjectKey)
        } else {
            None
        }
    }
}

/// The completion context at `offset`: a key context takes priority over
/// the value context of the cursor's key path.
pub open spec fn spec_detect(t: &SyntaxTree, source: &str, offset: usize) -> ContextView {
    let node = completion_node(t, offset);
    match key_context(t, source, node) {
        Some(c) => c,
        None => classify_path(t, source, key_path_up(t, source, node), node, offset),
    }
}

// ---------------------------------------------------------------------------
// Detection
// ---------------------------------------------------------------------------

pub open spec fn str_list(v: Seq<&str>) -> Seq<Seq<char>> {
    v.map_values(|s: &str| s@)
}

fn key_path<'a>(t: &SyntaxTree, source: &'a str, i: usize) -> (r: Vec<&'a str>)
    requires
        t.fits(source),
        i < t.len(),
    ensures
        str_list(r@) == key_path_up(t, source, i),
{
    let mut out: Vec<&'a str> = Vec::new();
    let mut cur = i;
    assert(str_list(out@) =~= Seq::<Seq<char>>::empty());
    assert(key_path_up(t, source, i) =~= str_list(out@) + key_path_up(t, source, cur));
    loop
        invariant
            t.fits(source),
            cur < t.len(),
            key_path_up(t, source, i) == str_list(out@) + key_path_up(t, source, cur),
        decreases cur,
    {
        let ghost before = str_list(out@);
        if is_pair(t.nodes[cur].kind) {
            match t.key_of(source, cur, StripMode::Greedy) {
                Some(k) => {
                    out.push(k);
                    assert(str_list(out@) =~= before.push(k@));
                },
                None => {},
            }
        }
        let ghost here = if is_pair_kind(t.kind(cur)) && key_text(t, source, cur, StripMode::Greedy) is Some {
            seq![key_text(t, source, cur, StripMode::Greedy)->0]
        } else {
            Seq::<Seq<char>>::empty()
        };
        assert(str_list(out@) =~= before + here);
        match t.nodes[cur].parent {
            Some(p) => {
                assert(key_path_up(t, source, cur) == here + key_path_up(t, source, p));
                assert(before + (here + key_path_up(t, source, p)) =~= (before + here) + key_path_up(t, source, p));
                cur = p;
            },
            None => {
                assert(key_path_up(t, source, cur) =~= here);
                return out;
            },
        }
    }
}

fn path_contains(path: &Vec<&str>, k: &str) -> (r: bool)
    ensures
        r == str_list(path@).contains(k@),
{
    let mut i: usize = 0;
    while i < path.len()
        invariant
            i <= path@.len(),
            forall|j: int| 0 <= j < i ==> path@[j]@ != k@,
        decreases path.len() - i,
    {
        if str_eq(path[i], k) {
            assert(str_list(path@)[i as int] == k@);
            return true;
        }
        i = i + 1;
    }
    proof {
        if str_list(path@).contains(k@) {
            let j = choose|j: int| 0 <= j < str_list(path@).len() && str_list(path@)[j] == k@;
            assert(path@[j]@ == k@);
        }
    }
    false
}

fn first_mapping_up(t: &SyntaxTree, i: usize) -> (r: Option<usize>)
    requires
        t.wf(),
        i < t.len(),
    ensures
        r == mapping_up(t, i),
        r matches Some(m) ==> m < t.len(),
{
    let mut cur = i;
    loop
        invariant
            t.wf(),
            cur < t.len(),
            mapping_up(t, i) == mapping_up(t, cur),
        decreases cur,
    {
        if is_mapping(t.nodes[cur].kind) {
            return Some(cur);
        }
        match t.nodes[cur].parent {
            Some(p) => {
                cur = p;
            },
            None => {
                return None;
            },
        }
    }
}

fn is_at_key_position(t: &SyntaxTree, i: usize) -> (r: bool)
    requires
        t.wf(),
        i < t.len(),
    ensures
        r == at_key_position(t, t.start(i), t.end(i), i),
{
    let cs = t.nodes[i].start;
    let ce = t.nodes[i].end;
    let mut cur = i;
    loop
        invariant
            t.wf(),
            cur < t.len(),
            i < t.len(),
            cs == t.start(i),
            ce == t.end(i),
            at_key_position(t, cs, ce, i) == at_key_position(t, cs, ce, cur),
        decreases cur,
    {
        let k = t.nodes[cur].kind;
        if is_pair(k) {
            return match t.get_named_child(cur, 0) {
                Some(key) => cs >= t.nodes[key].start && ce <= t.nodes[key].end,
                None => false,
            };
        }
        if is_mapping(k) {
            return true;
        }
        match t.nodes[cur].parent {
            Some(p) => {
                cur = p;
            },
            None => {
                return false;
            },
        }
    }
}

fn parent_path<'a>(t: &SyntaxTree, source: &'a str, i: usize) -> (r: Vec<&'a str>)
    requires
        t.fits(source),
        i < t.len(),
    ensures
        str_list(r@) == object_parent_path(t, source, i),
{
    match first_mapping_up(t, i) {
        Some(o) => match t.nodes[o].parent {
            Some(p) => key_path(t, source, p),
            None => {
                let v: Vec<&'a str> = Vec::new();
                assert(str_list(v@) =~= Seq::<Seq<char>>::empty());
                v
            },
        },
        None => {
            let v: Vec<&'a str> = Vec::new();
            assert(str_list(v@) =~= Seq::<Seq<char>>::empty());
            v
        },
    }
}

fn enclosing_string_range(t: &SyntaxTree, i: usize) -> (r: Option<Range<usize>>)
    requires
        t.wf(),
        i < t.len(),
    ensures
        range_view(r) == string_range_up(t, i),
{
    let mut cur = i;
    loop
        invariant
            t.wf(),
            cur < t.len(),
            string_range_up(t, i) == string_range_up(t, cur),
        decreases cur,
    {
        let k = t.nodes[cur].kind;
        if matches!(k, NodeKind::StringContent) {
            return match t.nodes[cur].parent {
                Some(p) => if matches!(t.nodes[p].kind, NodeKind::String) {
                    Some(t.nodes[p].start..t.nodes[p].end)
                } else {
                    Some(t.nodes[cur].start..t.nodes[cur].end)
                },
                None => Some(t.nodes[cur].start..t.nodes[cur].end),
            };
        }
        if is_string_scalar(k) {
            return Some(t.nodes[cur].start..t.nodes[cur].end);
        }
        if matches!(
            k,
            NodeKind::Pair | NodeKind::BlockMappingPair | NodeKind::Object | NodeKind::Array
                | NodeKind::BlockMapping | NodeKind::BlockSequence | NodeKind::FlowMapping
                | NodeKind::FlowSequence
        ) {
            return None;
        }
        match t.nodes[cur].parent {
            Some(p) => {
                cur = p;
            },
            None => {
                return None;
            },
        }
    }
}

fn pair_value_text<'a>(t: &SyntaxTree, source: &'a str, pair: usize) -> (r: Option<&'a str>)
    requires
        t.fits(source),
        pair < t.len(),
    ensures
        match r {
            Some(x) => value_text(t, source, pair) == Some(x@),
            None => value_text(t, source, pair) is None,
        },
{
    match t.get_named_child(pair, 1) {
        Some(v) => t.stripped(source, v, StripMode::Greedy),
        None => None,
    }
}

fn ref_table_beside<'a>(t: &SyntaxTree, source: &'a str, i: usize) -> (r: Option<&'a str>)
    requires
        t.fits(source),
        i < t.len(),
    ensures
        match r {
            Some(x) => sibling_ref_table(t, source, i) == Some(x@),
            None => sibling_ref_table(t, source, i) is None,
        },
{
    let p = match ancestor_pair(t, source, i, "ref_columns") {
        Some(p) => p,
        None => {
            return None;
        },
    };
    let obj = match t.nodes[p].parent {
        Some(o) => o,
        None => {
            return None;
        },
    };
    match t.find_pair(source, obj, "ref_table", StripMode::Greedy) {
        Some(q) => pair_value_text(t, source, q),
        None => None,
    }
}

fn scalar_text<'a>(t: &SyntaxTree, source: &'a str, n: usize) -> (r: Option<&'a str>)
    requires
        t.fits(source),
        n < t.len(),
    ensures
        match r {
            Some(x) => scalar_chars(t, source, n) == Some(x@),
            None => scalar_chars(t, source, n) is None,
        },
{
    let u = t.unwrap_wrapper(n);
    t.stripped(source, u, StripMode::Greedy)
}

fn push_string(out: &mut Vec<String>, s: &str)
    ensures
        string_views(final(out)@) == string_views(old(out)@).push(s@),
{
    let ghost prev = out@;
    let x = String::from_str(s);
    out.push(x);
    assert(string_views(out@) =~= string_views(prev).push(s@));
}

fn push_opt(out: &mut Vec<String>, o: Option<&str>)
    ensures
        string_views(final(out)@) == string_views(old(out)@) + opt_seq(
            match o {
                Some(x) => Some(x@),
                None => None,
            },
        ),
{
    match o {
        Some(x) => {
            push_string(out, x);
            assert(string_views(out@) =~= string_views(old(out)@) + seq![x@]);
        },
        None => {
            assert(string_views(out@) =~= string_views(out@) + Seq::<Seq<char>>::empty());
        },
    }
}

/// The members of an enum type object.
pub fn collect_enum_values(t: &SyntaxTree, source: &str, obj: usize) -> (r: Vec<String>)
    requires
        t.fits(source),
        obj < t.len(),
    ensures
        string_views(r@) == spec_collect_enum_values(t, source, obj),
{
    let mut out: Vec<String> = Vec::new();
    assert(string_views(out@) =~= Seq::<Seq<char>>::empty());
    let vp = match t.find_pair(source, obj, "values", StripMode::Greedy) {
        Some(p) => p,
        None => {
            return out;
        },
    };
    let raw = match t.get_named_child(vp, 1) {
        Some(r) => r,
        None => {
            return out;
        },
    };
    let arr = t.unwrap_wrapper(raw);
    if !is_sequence(t.nodes[arr].kind) {
        return out;
    }
    let ch = &t.nodes[arr].children;
    let mut i: usize = 0;
    assert(ch@.take(0) =~= Seq::<usize>::empty());
    while i < ch.len()
        invariant
            t.fits(source),
            arr < t.len(),
            ch@ == t.children(arr),
            i <= ch@.len(),
            string_views(out@) == enum_values_of(t, source, ch@.take(i as int)),
        decreases ch.len() - i,
    {
        let c = ch[i];
        assert(t.nodes@[arr as int].children@[i as int] == c);
        let ghost pre = ch@.take(i + 1);
        assert(pre.drop_last() =~= ch@.take(i as int));
        let ghost before = string_views(out@);
        let e = t.unwrap_wrapper(c);
        let k = t.nodes[e].kind;
        if is_string_scalar(k) {
            push_opt(&mut out, t.stripped(source, e, StripMode::Greedy));
        } else if is_mapping(k) {
            match t.find_pair(source, e, "name", StripMode::Greedy) {
                Some(np) => match t.get_named_child(np, 1) {
                    Some(nv) => push_opt(&mut out, scalar_text(t, source, nv)),
                    None => {},
                },
                None => {},
            }
        } else if matches!(k, NodeKind::BlockSequenceItem) {
            let inner = &t.nodes[e].children;
            let ghost istart = string_views(out@);
            let mut q: usize = 0;
            assert(inner@.take(0) =~= Seq::<usize>::empty());
            assert(istart =~= istart + Seq::<Seq<char>>::empty());
            while q < inner.len()
                invariant
                    t.fits(source),
                    e < t.len(),
                    inner@ == t.children(e),
                    q <= inner@.len(),
                    string_views(out@) == istart + item_enum_values(t, source, inner@.take(q as int)),
                decreases inner.len() - q,
            {
                let u0 = inner[q];
                assert(t.nodes@[e as int].children@[q as int] == u0);
                let ghost ipre = inner@.take(q + 1);
                assert(ipre.drop_last() =~= inner@.take(q as int));
                let u = t.unwrap_wrapper(u0);
                if is_string_scalar(t.nodes[u].kind) {
                    push_opt(&mut out, t.stripped(source, u, StripMode::Greedy));
                }
                assert(string_views(out@) =~= istart + item_enum_values(t, source, ipre));
                q = q + 1;
            }
            assert(inner@.take(inner@.len() as int) =~= inner@);
        }
        assert(string_views(out@) =~= before + element_enum_values(t, source, c));
        i = i + 1;
    }
    assert(ch@.take(ch@.len() as int) =~= ch@);
    out
}

fn analyze_sibling_type(t: &SyntaxTree, source: &str, i: usize) -> (r: (Option<String>, Vec<String>))
    requires
        t.fits(source),
        i < t.len(),
    ensures
        (opt_string(r.0), string_views(r.1@)) == sibling_type(t, source, i),
{
    let none = (None, Vec::new());
    assert(string_views(none.1@) =~= Seq::<Seq<char>>::empty());
    let obj = match first_mapping_up(t, i) {
        Some(o) => o,
        None => {
            return none;
        },
    };
    let tp = match t.find_pair(source, obj, "type", StripMode::Greedy) {
        Some(p) => p,
        None => {
            return none;
        },
    };
    let tv = match t.get_named_child(tp, 1) {
        Some(v) => v,
        None => {
            return none;
        },
    };
    let e = t.unwrap_wrapper(tv);
    let k = t.nodes[e].kind;
    if is_string_scalar(k) {
        let raw = match t.node_str(source, e) {
            Some(x) => x,
            None => {
                proof {
                    reveal_strlit("");
                }
                ""
            },
        };
        let name = String::from_str(strip_quotes(raw));
        (Some(name), Vec::new())
    } else if is_mapping(k) {
        let kind: Option<&str> = match t.find_pair(source, e, "kind", StripMode::Greedy) {
            Some(kp) => match t.get_named_child(kp, 1) {
                Some(kv) => scalar_text(t, source, kv),
                None => None,
            },
            None => None,
        };
        let is_enum = match kind {
            Some(x) => str_eq(x, "enum"),
            None => false,
        };
        let values = if is_enum {
            collect_enum_values(t, source, e)
        } else {
            let v: Vec<String> = Vec::new();
            assert(string_views(v@) =~= Seq::<Seq<char>>::empty());
            v
        };
        let kind_owned = match kind {
            Some(x) => Some(String::from_str(x)),
            None => None,
        };
        (kind_owned, values)
    } else {
        none
    }
}

fn current_table_columns(t: &SyntaxTree, source: &str) -> (r: Vec<String>)
    requires
        t.fits(source),
    ensures
        string_views(r@) == table_columns(t, source),
{
    let mut out: Vec<String> = Vec::new();
    assert(string_views(out@) =~= Seq::<Seq<char>>::empty());
    let d = match t.get_named_child(0, 0) {
        Some(c) => t.unwrap_wrapper(c),
        None => 0,
    };
    let cp = match t.find_pair(source, d, "columns", StripMode::Greedy) {
        Some(p) => p,
        None => {
            return out;
        },
    };
    let raw = match t.get_named_child(cp, 1) {
        Some(r) => r,
        None => {
            return out;
        },
    };
    let arr = t.unwrap_wrapper(raw);
    if !is_sequence(t.nodes[arr].kind) {
        return out;
    }
    let ch = &t.nodes[arr].children;
    let mut i: usize = 0;
    assert(ch@.take(0) =~= Seq::<usize>::empty());
    while i < ch.len()
        invariant
            t.fits(source),
            arr < t.len(),
            ch@ == t.children(arr),
            i <= ch@.len(),
            string_views(out@) == column_names_of(t, source, ch@.take(i as int)),
        decreases ch.len() - i,
    {
        let c = ch[i];
        assert(t.nodes@[arr as int].children@[i as int] == c);
        let ghost pre = ch@.take(i + 1);
        assert(pre.drop_last() =~= ch@.take(i as int));
        let ghost before = string_views(out@);
        let child = t.unwrap_wrapper(c);
        let obj: Option<usize> = if is_mapping(t.nodes[child].kind) {
            Some(child)
        } else if matches!(t.nodes[child].kind, NodeKind::BlockSequenceItem) {
            let inner = &t.nodes[child].children;
            let ghost all = inner@;
            let mut q: usize = 0;
            let mut found: Option<usize> = None;
            assert(all.skip(0) =~= all);
            while q < inner.len() && found.is_none()
                invariant
                    t.wf(),
                    child < t.len(),
                    inner@ == t.children(child),
                    all == inner@,
                    q <= inner@.len(),
                    found is None ==> first_mapping_child(t, all) == first_mapping_child(t, all.skip(q as int)),
                    found matches Some(m) ==> first_mapping_child(t, all) == Some(m) && m < t.len(),
                decreases inner.len() - q,
            {
                let u0 = inner[q];
                assert(t.nodes@[child as int].children@[q as int] == u0);
                assert(all.skip(q as int)[0] == u0);
                assert(all.skip(q as int).drop_first() =~= all.skip(q + 1));
                let u = t.unwrap_wrapper(u0);
                if is_mapping(t.nodes[u].kind) {
                    found = Some(u);
                }
                q = q + 1;
            }
            found
        } else {
            None
        };
        match obj {
            Some(o) => match t.find_pair(source, o, "name", StripMode::Greedy) {
                Some(np) => match t.get_named_child(np, 1) {
                    Some(nv) => match scalar_text(t, source, nv) {
                        Some(n) => {
                            if n.unicode_len() > 0 {
                                push_string(&mut out, n);
                            }
                        },
                        None => {},
                    },
                    None => {},
                },
                None => {},
            },
            None => {},
        }
        assert(string_views(out@) =~= column_names_of(t, source, pre));
        i = i + 1;
    }
    assert(ch@.take(ch@.len() as int) =~= ch@);
    out
}

/// The greatest character boundary of `text` at or below `offset`.
pub fn clamp_to_char_boundary(text: &str, offset: usize) -> (r: usize)
    ensures
        r == clamp_boundary(text.spec_bytes(), offset as int),
{
    let mut k = offset;
    while k > 0 && !text.is_char_boundary(k)
        invariant
            clamp_boundary(text.spec_bytes(), offset as int) == clamp_boundary(text.spec_bytes(), k as int),
        decreases k,
    {
        k = k - 1;
    }
    k
}

fn check_expr_ctx(t: &SyntaxTree, source: &str, i: usize, offset: usize) -> (r: Option<Context>)
    requires
        t.fits(source),
        i < t.len(),
    ensures
        match r {
            Some(c) => check_expr_context(t, source, i, offset) == Some(c@),
            None => check_expr_context(t, source, i, offset) is None,
        },
{
    let ep = match ancestor_pair(t, source, i, "expr") {
        Some(p) => p,
        None => {
            return None;
        },
    };
    if !has_ancestor_pair(t, source, ep, "constraints") {
        return None;
    }
    let raw = match t.get_named_child(ep, 1) {
        Some(r) => r,
        None => {
            return None;
        },
    };
    let ev = t.unwrap_wrapper(raw);
    let inner = match expr_inner_range(t, ev) {
        Some(x) => x,
        None => {
            return None;
        },
    };
    if offset < inner.start || offset > inner.end {
        return None;
    }
    let bytes = source.as_bytes();
    let sub = &bytes[inner.start..inner.end];
    let expr_text = match utf8_str(sub) {
        Some(x) => x,
        None => {
            return None;
        },
    };
    proof {
        lemma_utf8_str_view(expr_text, sub@);
    }
    let len = expr_text.as_bytes().len();
    let rel0 = if offset - inner.start < len {
        offset - inner.start
    } else {
        len
    };
    let rel = clamp_to_char_boundary(expr_text, rel0);
    let cols = current_table_columns(t, source);
    Some(Context::CheckExpr { table_columns: cols, inner: inner.start..inner.end, cursor_rel: rel })
}

fn node_for_completion(t: &SyntaxTree, offset: usize) -> (r: usize)
    requires
        t.wf(),
    ensures
        r == completion_node(t, offset),
        r < t.len(),
{
    let re = t.nodes[0].end;
    if re == 0 {
        return 0;
    }
    let s: usize = if offset >= 1 && offset - 1 < re - 1 {
        offset - 1
    } else if offset >= 1 {
        re - 1
    } else {
        0
    };
    let e: usize = if offset < re {
        offset
    } else {
        re
    };
    let mut cur: usize = 0;
    assert(completion_node(t, offset) == descend_range(t, 0, s, e));
    loop
        invariant
            t.wf(),
            cur < t.len(),
            completion_node(t, offset) == descend_range(t, 0, s, e),
            descend_range(t, 0, s, e) == descend_range(t, cur, s, e),
        decreases t.len() - cur,
    {
        let ch = &t.nodes[cur].children;
        let ghost all = ch@;
        let mut idx: usize = 0;
        let mut next: Option<usize> = None;
        let mut stop = false;
        assert(all.skip(0) =~= all);
        while idx < ch.len() && next.is_none() && !stop
            invariant
                t.wf(),
                cur < t.len(),
                ch@ == t.children(cur),
                all == ch@,
                idx <= ch@.len(),
                next is None && !stop ==> first_spanning(t, all, s, e) == first_spanning(
                    t,
                    all.skip(idx as int),
                    s,
                    e,
                ),
                stop ==> next is None && first_spanning(t, all, s, e) is None,
                next matches Some(c) ==> first_spanning(t, all, s, e) == Some(c) && cur < c < t.len(),
            decreases ch.len() - idx,
        {
            let c = ch[idx];
            assert(t.nodes@[cur as int].children@[idx as int] == c);
            assert(all.skip(idx as int)[0] == c);
            assert(all.skip(idx as int).drop_first() =~= all.skip(idx + 1));
            let cn = &t.nodes[c];
            if cn.end < e || cn.end <= s {
            } else if s < cn.start {
                stop = true;
            } else {
                next = Some(c);
            }
            idx = idx + 1;
        }
        match next {
            Some(c) => {
                cur = c;
            },
            None => {
                return cur;
            },
        }
    }
}

/// The completion context at `offset`.
pub fn detect(t: &SyntaxTree, source: &str, offset: usize) -> (r: Context)
    requires
        t.fits(source),
    ensures
        r@ == spec_detect(t, source, offset),
{
    let node = node_for_completion(t, offset);
    if is_at_key_position(t, node) {
        let pp = parent_path(t, source, node);
        if pp.len() == 0 {
            return Context::TableTopLevelKey;
        } else if str_eq(pp[0], "foreign_key") {
            return Context::ForeignKeyObjectKey;
        } else if str_eq(pp[0], "type") {
            return Context::TypeObjectKey;
        } else if str_eq(pp[0], "columns") {
            return Context::ColumnObjectKey;
        }
    }
    let path = key_path(t, source, node);
    if path.len() == 0 {
        return Context::Nothing;
    }
    let last = path[0];
    if str_eq(last, "type") && path_contains(&path, "columns") {
        match enclosing_string_range(t, node) {
            Some(r) => Context::ColumnTypeInString { string_byte_range: r },
            None => Context::ColumnTypeValue,
        }
    } else if str_eq(last, "nullable") && path_contains(&path, "columns") {
        Context::Nullable
    } else if str_eq(last, "primary_key") && path_contains(&path, "columns") {
        Context::PrimaryKey
    } else if str_eq(last, "unique") && path_contains(&path, "columns") {
        Context::Unique
    } else if str_eq(last, "kind") && path_contains(&path, "columns") && path_contains(&path, "type") {
        Context::TypeKind { string_byte_range: enclosing_string_range(t, node) }
    } else if str_eq(last, "on_delete") {
        Context::OnDeleteAction
    } else if str_eq(last, "on_update") {
        Context::OnUpdateAction
    } else if str_eq(last, "ref_table") {
        Context::RefTable
    } else if str_eq(last, "ref_columns") {
        let ref_table = match ref_table_beside(t, source, node) {
            Some(x) => String::from_str(x),
            None => String::new(),
        };
        Context::RefColumns { ref_table }
    } else if str_eq(last, "default") && path_contains(&path, "columns") {
        let (type_kind, enum_values) = analyze_sibling_type(t, source, node);
        Context::DefaultValue {
            type_kind,
            enum_values,
            string_byte_range: enclosing_string_range(t, node),
        }
    } else if str_eq(last, "expr") && path_contains(&path, "constraints") {
        match check_expr_ctx(t, source, node, offset) {
            Some(c) => c,
            None => Context::Nothing,
        }
    } else {
        Context::Nothing
    }
}

// ---------------------------------------------------------------------------
// CHECK expressions
// ---------------------------------------------------------------------------

/// What a CHECK expression expects at the cursor.
#[derive(Debug, PartialEq, Eq)]
pub enum CheckExprPos {
    /// A column or literal.
    Operand,
    /// An operator or keyword.
    Operator,
    /// The rest of a column name the user has begun to type.
    PartialColumn { prefix: String },
}

pub enum CheckExprPosView {
    Operand,
    Operator,
    PartialColumn { prefix: Seq<char> },
}

impl View for CheckExprPos {
    type V = CheckExprPosView;

    open spec fn view(&self) -> CheckExprPosView {
        match self {
            CheckExprPos::Operand => CheckExprPosView::Operand,
            CheckExprPos::Operator => CheckExprPosView::Operator,
            CheckExprPos::PartialColumn { prefix } => CheckExprPosView::PartialColumn {
                prefix: prefix@,
            },
        }
    }
}

/// `AND`, `OR`, `NOT`, `IN` and `BETWEEN`, in any case, take an operand.
pub open spec fn spec_keyword_expects_operand(k: Seq<char>) -> bool {
    let l = ascii_lower_seq(k);
    l == ascii_lower_seq("AND"@) || l == ascii_lower_seq("OR"@) || l == ascii_lower_seq("NOT"@)
        || l == ascii_lower_seq("IN"@) || l == ascii_lower_seq("BETWEEN"@)
}

pub fn keyword_expects_operand(keyword: &str) -> (r: bool)
    ensures
        r == spec_keyword_expects_operand(keyword@),
{
    eq_ignore_ascii_case(keyword, "AND") || eq_ignore_ascii_case(keyword, "OR")
        || eq_ignore_ascii_case(keyword, "NOT") || eq_ignore_ascii_case(keyword, "IN")
        || eq_ignore_ascii_case(keyword, "BETWEEN")
}

/// After token `tok`: an operator, `(`, `,` or one of the operand-taking
/// keywords wants an operand.
pub open spec fn token_expects_operand(prefix: Seq<u8>, tok: CheckToken) -> bool {
    let text = match span_text(prefix, tok.span) {
        Some(x) => x,
        None => Seq::empty(),
    };
    match tok.kind {
        CheckTokenKind::Operator => true,
        CheckTokenKind::Punctuation => text == "("@ || text == ","@,
        CheckTokenKind::Keyword => spec_keyword_expects_operand(text),
        _ => false,
    }
}

/// The position in the CHECK expression `expr` at byte `cursor_rel`,
/// given the tokens of the text before the cursor. A column token that
/// ends at the cursor and names no column of the table is a partial
/// column; its replacement range is absolute (`inner_start` added).
pub open spec fn spec_check_expr_position(
    expr: Seq<u8>,
    inner_start: usize,
    cursor_rel: usize,
    columns: Seq<Seq<char>>,
    toks: Seq<CheckToken>,
) -> (CheckExprPosView, Option<(usize, usize)>) {
    let prefix = expr.subrange(0, cursor_rel as int);
    if spec_trim(decode_utf8(prefix)).len() == 0 || toks.len() == 0 {
        (CheckExprPosView::Operand, None)
    } else {
        let last = toks.last();
        let partial = if last.kind == CheckTokenKind::Column && last.span.end == cursor_rel {
            match span_text(prefix, last.span) {
                Some(tp) => if tp.len() > 0 && !columns.contains(tp) {
                    Some(tp)
                } else {
                    None
                },
                None => None,
            }
        } else {
            None
        };
        match partial {
            Some(tp) => (
                CheckExprPosView::PartialColumn { prefix: tp },
                Some(
                    (
                        (inner_start + last.span.start) as usize,
                        (inner_start + last.span.end) as usize,
                    ),
                ),
            ),
            None => if token_expects_operand(prefix, last) {
                (CheckExprPosView::Operand, None)
            } else {
                (CheckExprPosView::Operator, None)
            },
        }
    }
}

fn string_list_contains(v: &Vec<String>, n: &str) -> (r: bool)
    ensures
        r == string_views(v@).contains(n@),
{
    let mut i: usize = 0;
    while i < v.len()
        invariant
            i <= v@.len(),
            forall|k: int| 0 <= k < i ==> v@[k]@ != n@,
        decreases v.len() - i,
    {
        if str_eq(v[i].as_str(), n) {
            assert(string_views(v@)[i as int] == n@);
            return true;
        }
        i = i + 1;
    }
    proof {
        if string_views(v@).contains(n@) {
            let k = choose|k: int| 0 <= k < string_views(v@).len() && string_views(v@)[k] == n@;
            assert(v@[k]@ == n@);
        }
    }
    false
}

pub fn classify_check_expr_position(
    expr_text: &str,
    inner_start: usize,
    cursor_rel: usize,
    table_columns: &Vec<String>,
    prefix_tokens: &[CheckToken],
) -> (r: (CheckExprPos, Option<Range<usize>>))
    requires
        cursor_rel <= expr_text.spec_bytes().len(),
        valid_utf8(expr_text.spec_bytes().subrange(0, cursor_rel as int)),
        inner_start + cursor_rel <= usize::MAX,
    ensures
        (r.0@, range_view(r.1)) == spec_check_expr_position(
            expr_text.spec_bytes(),
            inner_start,
            cursor_rel,
            string_views(table_columns@),
            prefix_tokens@,
        ),
{
    let bytes = expr_text.as_bytes();
    let sub = &bytes[0..cursor_rel];
    let prefix = match utf8_str(sub) {
        Some(p) => p,
        None => {
            return (CheckExprPos::Operand, None);
        },
    };
    proof {
        lemma_utf8_str_view(prefix, sub@);
    }
    if trim(prefix).unicode_len() == 0 || prefix_tokens.len() == 0 {
        return (CheckExprPos::Operand, None);
    }
    let last = &prefix_tokens[prefix_tokens.len() - 1];
    if matches!(last.kind, CheckTokenKind::Column) && last.span.end == cursor_rel {
        match span_str(prefix, &last.span) {
            Some(tp) => {
                if tp.unicode_len() > 0 && !string_list_contains(table_columns, tp) {
                    return (
                        CheckExprPos::PartialColumn { prefix: String::from_str(tp) },
                        Some((inner_start + last.span.start)..(inner_start + last.span.end)),
                    );
                }
            },
            None => {},
        }
    }
    let text: &str = match span_str(prefix, &last.span) {
        Some(x) => x,
        None => {
            proof {
                reveal_strlit("");
            }
            ""
        },
    };
    assert(prefix.spec_bytes() == expr_text.spec_bytes().subrange(0, cursor_rel as int));
    assert(text@ == match span_text(prefix.spec_bytes(), last.span) {
        Some(x) => x,
        None => Seq::<char>::empty(),
    });
    let expects = match last.kind {
        CheckTokenKind::Operator => true,
        CheckTokenKind::Punctuation => str_eq(text, "(") || str_eq(text, ","),
        CheckTokenKind::Keyword => keyword_expects_operand(text),
        _ => false,
    };
    assert(expects == token_expects_operand(prefix.spec_bytes(), *last));
    if expects {
        (CheckExprPos::Operand, None)
    } else {
        (CheckExprPos::Operator, None)
    }
}

// ---------------------------------------------------------------------------
// Values of `kind` and `default`, and replaced ranges
// ---------------------------------------------------------------------------

/// The kinds of a complex `type` object.
pub open spec fn spec_type_kinds() -> Seq<CompletionView> {
    seq![
        bare_value_view("varchar"@),
        bare_value_view("char"@),
        bare_value_view("numeric"@),
        bare_value_view("enum"@),
        bare_value_view("custom"@),
    ]
}

/// `varchar`, `char`, `numeric`, `enum`, `custom`.
pub fn type_kinds() -> (r: Vec<DomainCompletion>)
    ensures
        completion_views(r@) == spec_type_kinds(),
{
    let mut out: Vec<DomainCompletion> = Vec::new();
    assert(completion_views(out@) =~= Seq::<CompletionView>::empty());
    push_completion(&mut out, bare_value("varchar"));
    push_completion(&mut out, bare_value("char"));
    push_completion(&mut out, bare_value("numeric"));
    push_completion(&mut out, bare_value("enum"));
    push_completion(&mut out, bare_value("custom"));
    assert(completion_views(out@) =~= spec_type_kinds());
    out
}

/// An enum member as an SQL string literal.
pub open spec fn sql_quoted(v: Seq<char>) -> Seq<char> {
    "'"@ + v + "'"@
}

/// The defaults a column's `type` suggests: an enum's members quoted,
/// `now()` and `CURRENT_TIMESTAMP` for a timestamp, `gen_random_uuid()` for
/// a uuid, nothing for other types.
pub open spec fn spec_default_values(type_kind: Option<Seq<char>>, enum_values: Seq<Seq<char>>) -> Seq<
    CompletionView,
> {
    match type_kind {
        Some(k) => if k == "enum"@ {
            enum_values.map_values(|v: Seq<char>| bare_value_view(sql_quoted(v)))
        } else if k == "timestamp"@ || k == "timestamptz"@ {
            seq![bare_value_view("now()"@), bare_value_view("CURRENT_TIMESTAMP"@)]
        } else if k == "uuid"@ {
            seq![bare_value_view("gen_random_uuid()"@)]
        } else {
            Seq::empty()
        },
        None => Seq::empty(),
    }
}

pub fn default_values(type_kind: &Option<String>, enum_values: &Vec<String>) -> (r: Vec<
    DomainCompletion,
>)
    ensures
        completion_views(r@) == spec_default_values(opt_string(*type_kind), string_views(enum_values@)),
{
    let mut out: Vec<DomainCompletion> = Vec::new();
    assert(completion_views(out@) =~= Seq::<CompletionView>::empty());
    let k = match type_kind {
        Some(k) => k.as_str(),
        None => {
            return out;
        },
    };
    if str_eq(k, "enum") {
        let ghost vs = string_views(enum_values@);
        let ghost f = |v: Seq<char>| bare_value_view(sql_quoted(v));
        let mut i: usize = 0;
        assert(vs.take(0).map_values(f) =~= Seq::<CompletionView>::empty());
        while i < enum_values.len()
            invariant
                vs == string_views(enum_values@),
                f == (|v: Seq<char>| bare_value_view(sql_quoted(v))),
                i <= enum_values@.len(),
                completion_views(out@) == vs.take(i as int).map_values(f),
            decreases enum_values.len() - i,
        {
            let mut label = String::from_str("'");
            label.append(enum_values[i].as_str());
            label.append("'");
            proof {
                reveal_strlit("'");
            }
            push_completion(&mut out, bare_value(label.as_str()));
            assert(vs.take(i + 1).map_values(f) =~= vs.take(i as int).map_values(f).push(
                f(vs[i as int]),
            ));
            i = i + 1;
        }
        assert(vs.take(enum_values@.len() as int) =~= vs);
    } else if str_eq(k, "timestamp") || str_eq(k, "timestamptz") {
        push_completion(&mut out, bare_value("now()"));
        push_completion(&mut out, bare_value("CURRENT_TIMESTAMP"));
        assert(completion_views(out@) =~= seq![
            bare_value_view("now()"@),
            bare_value_view("CURRENT_TIMESTAMP"@),
        ]);
    } else if str_eq(k, "uuid") {
        push_completion(&mut out, bare_value("gen_random_uuid()"));
        assert(completion_views(out@) =~= seq![bare_value_view("gen_random_uuid()"@)]);
    }
    out
}

/// `c` replacing the byte range `r` when accepted.
pub open spec fn replacing(c: CompletionView, r: Option<(usize, usize)>) -> CompletionView {
    (c.0, c.1, c.2, c.3, c.4, r)
}

/// `v` with its replaced range set to `r`: on every candidate, or on the
/// snippets only.
pub open spec fn with_replace_range(
    v: Seq<CompletionView>,
    r: Option<(usize, usize)>,
    snippets_only: bool,
) -> Seq<CompletionView> {
    v.map_values(
        |c: CompletionView|
            if !snippets_only || c.1 == CompletionItemKind::Snippet {
                replacing(c, r)
            } else {
                c
            },
    )
}

fn copy_opt_string(o: &Option<String>) -> (r: Option<String>)
    ensures
        opt_string(r) == opt_string(*o),
{
    match o {
        Some(s) => Some(s.clone()),
        None => None,
    }
}

fn copy_range(r: &Option<Range<usize>>) -> (p: Option<Range<usize>>)
    ensures
        range_view(p) == range_view(*r),
{
    match r {
        Some(x) => Some(x.start..x.end),
        None => None,
    }
}

fn range_of(r: Option<(usize, usize)>) -> (p: Option<Range<usize>>)
    ensures
        range_view(p) == r,
{
    match r {
        Some(x) => Some(x.0..x.1),
        None => None,
    }
}

/// The candidates with their replaced range set to `r`, on all of them or
/// on the snippets only.
pub fn set_replace_range(items: Vec<DomainCompletion>, r: Option<(usize, usize)>, snippets_only: bool) -> (out:
    Vec<DomainCompletion>)
    ensures
        completion_views(out@) == with_replace_range(completion_views(items@), r, snippets_only),
{
    let ghost want = with_replace_range(completion_views(items@), r, snippets_only);
    let mut out: Vec<DomainCompletion> = Vec::new();
    let mut i: usize = 0;
    assert(completion_views(out@) =~= want.take(0));
    while i < items.len()
        invariant
            want == with_replace_range(completion_views(items@), r, snippets_only),
            i <= items@.len(),
            completion_views(out@) == want.take(i as int),
        decreases items.len() - i,
    {
        let c = &items[i];
        let replace = if !snippets_only || c.kind == CompletionItemKind::Snippet {
            range_of(r)
        } else {
            copy_range(&c.replace_range_bytes)
        };
        let d = DomainCompletion {
            label: c.label.clone(),
            kind: c.kind,
            detail: copy_opt_string(&c.detail),
            insert_text: copy_opt_string(&c.insert_text),
            sort_priority: c.sort_priority,
            replace_range_bytes: replace,
        };
        assert(d@ == want[i as int]);
        push_completion(&mut out, d);
        assert(want.take(i + 1) =~= want.take(i as int).push(want[i as int]));
        i = i + 1;
    }
    assert(want.take(items@.len() as int) =~= want);
    out
}

fn range_pair(r: &Option<Range<usize>>) -> (p: Option<(usize, usize)>)
    ensures
        p == range_view(*r),
{
    match r {
        Some(x) => Some((x.start, x.end)),
        None => None,
    }
}

// ---------------------------------------------------------------------------
// Candidates for a context
// ---------------------------------------------------------------------------

/// The candidates of a context. `open_tables` and `disk_tables` are the
/// workspace's table names; `ref_columns_open` / `ref_columns_disk` the
/// columns of the table a `RefColumns` context names, from its open
/// document and from disk.
pub open spec fn spec_completions(
    ctx: ContextView,
    open_tables: Seq<Seq<char>>,
    disk_tables: Seq<Seq<char>>,
    ref_columns_open: Option<Seq<Seq<char>>>,
    ref_columns_disk: Option<Seq<Seq<char>>>,
) -> Seq<CompletionView> {
    match ctx {
        ContextView::ColumnTypeInString { string_byte_range } => with_replace_range(
            spec_column_types(),
            Some(string_byte_range),
            true,
        ),
        ContextView::ColumnTypeValue => spec_column_types(),
        ContextView::OnDeleteAction => spec_reference_actions(),
        ContextView::OnUpdateAction => spec_reference_actions(),
        ContextView::Nullable => spec_booleans(),
        ContextView::PrimaryKey => spec_booleans(),
        ContextView::Unique => spec_booleans(),
        ContextView::RefTable => spec_tables_in_workspace(open_tables, disk_tables),
        ContextView::RefColumns { ref_table } => spec_columns_of(
            ref_table,
            ref_columns_open,
            ref_columns_disk,
        ),
        ContextView::TypeKind { string_byte_range } => with_replace_range(
            spec_type_kinds(),
            string_byte_range,
            false,
        ),
        ContextView::DefaultValue { type_kind, enum_values, string_byte_range } => with_replace_range(
            spec_default_values(type_kind, enum_values),
            string_byte_range,
            false,
        ),
        _ => Seq::empty(),
    }
}

pub fn completions(
    ctx: &Context,
    open_tables: &Vec<String>,
    disk_tables: &Vec<String>,
    ref_columns_open: &Option<Vec<String>>,
    ref_columns_disk: &Option<Vec<String>>,
) -> (r: Vec<DomainCompletion>)
    ensures
        completion_views(r@) == spec_completions(
            ctx@,
            string_views(open_tables@),
            string_views(disk_tables@),
            opt_views(*ref_columns_open),
            opt_views(*ref_columns_disk),
        ),
{
    match ctx {
        Context::ColumnTypeInString { string_byte_range } => set_replace_range(
            column_types(),
            Some((string_byte_range.start, string_byte_range.end)),
            true,
        ),
        Context::ColumnTypeValue => column_types(),
        Context::TypeKind { string_byte_range } => set_replace_range(
            type_kinds(),
            range_pair(string_byte_range),
            false,
        ),
        Context::DefaultValue { type_kind, enum_values, string_byte_range } => set_replace_range(
            default_values(type_kind, enum_values),
            range_pair(string_byte_range),
            false,
        ),
        Context::OnDeleteAction | Context::OnUpdateAction => reference_actions(),
        Context::Nullable | Context::PrimaryKey | Context::Unique => booleans(),
        Context::RefTable => tables_in_workspace(open_tables, disk_tables),
        Context::RefColumns { ref_table } => columns_of(
            ref_table.as_str(),
            ref_columns_open,
            ref_columns_disk,
        ),
        _ => {
            let v: Vec<DomainCompletion> = Vec::new();
            assert(completion_views(v@) =~= Seq::<CompletionView>::empty());
            v
        },
    }
}

/// Completion at `offset`: the candidates of the detected context (none
/// without a tree).
pub fn compute(
    text: &str,
    tree: Option<&SyntaxTree>,
    offset: usize,
    open_tables: &Vec<String>,
    disk_tables: &Vec<String>,
    ref_columns_open: &Option<Vec<String>>,
    ref_columns_disk: &Option<Vec<String>>,
) -> (r: Vec<DomainCompletion>)
    requires
        tree matches Some(t) ==> t.fits(text),
    ensures
        tree is None ==> r@.len() == 0,
        tree matches Some(t) ==> completion_views(r@) == spec_completions(
            spec_detect(t, text, offset),
            string_views(open_tables@),
            string_views(disk_tables@),
            opt_views(*ref_columns_open),
            opt_views(*ref_columns_disk),
        ),
{
    match tree {
        None => Vec::new(),
        Some(t) => {
            let ctx = detect(t, text, offset);
            completions(&ctx, open_tables, disk_tables, ref_columns_open, ref_columns_disk)
        },
    }
}


// ---------------------------------------------------------------------------
// Laws
// ---------------------------------------------------------------------------

/// The value of `on_update` is offered the same five referential actions
/// as the value of `on_delete`: `cascade`, `restrict`, `set_null`,
/// `set_default`, `no_action`, each documented as a reference action,
/// whatever the workspace holds.
pub proof fn lemma_on_update_offers_reference_actions(
    open_tables: Seq<Seq<char>>,
    disk_tables: Seq<Seq<char>>,
    ref_columns_open: Option<Seq<Seq<char>>>,
    ref_columns_disk: Option<Seq<Seq<char>>>,
)
    ensures
        spec_completions(
            ContextView::OnUpdateAction,
            open_tables,
            disk_tables,
            ref_columns_open,
            ref_columns_disk,
        ) == seq![
            ("cascade"@, CompletionItemKind::Value, Some("Reference action: cascade"@), None::<Seq<char>>, 1u8, None::<(usize, usize)>),
            ("restrict"@, CompletionItemKind::Value, Some("Reference action: restrict"@), None::<Seq<char>>, 1u8, None::<(usize, usize)>),
            ("set_null"@, CompletionItemKind::Value, Some("Reference action: set_null"@), None::<Seq<char>>, 1u8, None::<(usize, usize)>),
            ("set_default"@, CompletionItemKind::Value, Some("Reference action: set_default"@), None::<Seq<char>>, 1u8, None::<(usize, usize)>),
            ("no_action"@, CompletionItemKind::Value, Some("Reference action: no_action"@), None::<Seq<char>>, 1u8, None::<(usize, usize)>),
        ],
        spec_completions(
            ContextView::OnUpdateAction,
            open_tables,
            disk_tables,
            ref_columns_open,
            ref_columns_disk,
        ) == spec_completions(
            ContextView::OnDeleteAction,
            open_tables,
            disk_tables,
            ref_columns_open,
            ref_columns_disk,
        ),
{
    reveal_strlit("Reference action: ");
    reveal_strlit("cascade");
    reveal_strlit("restrict");
    reveal_strlit("set_null");
    reveal_strlit("set_default");
    reveal_strlit("no_action");
    reveal_strlit("Reference action: cascade");
    reveal_strlit("Reference action: restrict");
    reveal_strlit("Reference action: set_null");
    reveal_strlit("Reference action: set_default");
    reveal_strlit("Reference action: no_action");
    let p = "Reference action: "@;
    assert(p + "cascade"@ =~= "Reference action: cascade"@);
    assert(p + "restrict"@ =~= "Reference action: restrict"@);
    assert(p + "set_null"@ =~= "Reference action: set_null"@);
    assert(p + "set_default"@ =~= "Reference action: set_default"@);
    assert(p + "no_action"@ =~= "Reference action: no_action"@);
    assert(spec_reference_actions() =~= seq![
        ("cascade"@, CompletionItemKind::Value, Some("Reference action: cascade"@), None::<Seq<char>>, 1u8, None::<(usize, usize)>),
        ("restrict"@, CompletionItemKind::Value, Some("Reference action: restrict"@), None::<Seq<char>>, 1u8, None::<(usize, usize)>),
        ("set_null"@, CompletionItemKind::Value, Some("Reference action: set_null"@), None::<Seq<char>>, 1u8, None::<(usize, usize)>),
        ("set_default"@, CompletionItemKind::Value, Some("Reference action: set_default"@), None::<Seq<char>>, 1u8, None::<(usize, usize)>),
        ("no_action"@, CompletionItemKind::Value, Some("Reference action: no_action"@), None::<Seq<char>>, 1u8, None::<(usize, usize)>),
    ]);
}

} // verus!
