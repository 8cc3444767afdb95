//! Diagnostics of one model file: syntax errors, unknown column types,
//! malformed complex types and duplicate column names, found on the
//! syntax tree with precise byte ranges.

use std::ops::Range;
use vstd::prelude::*;
use vstd::string::*;
use crate::syntax::{
    SyntaxTree, NodeKind, StripMode, find_pair, find_value_for_key, stripped_text, unwrap_wrapper,
    is_ancestor, is_mapping_kind, is_sequence_kind, is_string_scalar_kind, is_mapping, is_sequence,
    is_string_scalar,
};
use crate::locator::{
    is_object_kind, ErrorLocation, locate_column, locate_column_field, locate_constraint,
    locate_top_name, spec_locate_column, spec_locate_column_field, spec_locate_constraint,
    spec_locate_top_name, opt_chars,
};
use crate::text::str_eq;

verus! {

/// How serious a diagnostic is.
#[derive(Clone, Copy, Debug, PartialEq, Eq, Structural)]
pub enum Severity {
    Error,
    Warning,
    Information,
    Hint,
}

/// One diagnostic over a byte range of a document.
#[derive(Debug, PartialEq, Eq)]
pub struct DomainDiagnostic {
    /// Byte range in the source text, `[start, end)`.
    pub byte_range: Range<usize>,
    pub severity: Severity,
    pub message: String,
    /// Stable diagnostic code (`syntax-error`, `unknown-type`, ...).
    pub code: String,
}

/// Start, end, severity, message, code.
pub type DiagnosticView = (usize, usize, Severity, Seq<char>, Seq<char>);

impl View for DomainDiagnostic {
    type V = DiagnosticView;

    open spec fn view(&self) -> DiagnosticView {
        (self.byte_range.start, self.byte_range.end, self.severity, self.message@, self.code@)
    }
}

pub open spec fn diagnostic_views(v: Seq<DomainDiagnostic>) -> Seq<DiagnosticView> {
    v.map_values(|d: DomainDiagnostic| d@)
}

fn diag_views_push(out: &mut Vec<DomainDiagnostic>, d: DomainDiagnostic)
    ensures
        diagnostic_views(final(out)@) == diagnostic_views(old(out)@) + seq![d@],
{
    let ghost prev = out@;
    let ghost dv = d@;
    out.push(d);
    assert(diagnostic_views(out@) =~= diagnostic_views(prev) + seq![dv]);
}

fn cat2(a: &str, b: &str) -> (r: String)
    ensures
        r@ == a@ + b@,
{
    let mut out = String::from_str(a);
    out.append(b);
    out
}

fn cat3(a: &str, b: &str, c: &str) -> (r: String)
    ensures
        r@ == a@ + b@ + c@,
{
    let mut out = cat2(a, b);
    out.append(c);
    out
}

fn error_at(start: usize, end: usize, message: String, code: &str) -> (d: DomainDiagnostic)
    ensures
        d@ == (start, end, Severity::Error, message@, code@),
{
    DomainDiagnostic { byte_range: start..end, severity: Severity::Error, message, code: String::from_str(code) }
}

// ---------------------------------------------------------------------------
// Syntax errors
// ---------------------------------------------------------------------------

/// The diagnostic for an error or missing node.
pub open spec fn syntax_error_view(t: &SyntaxTree, i: usize) -> DiagnosticView {
    (
        t.start(i),
        t.end(i),
        Severity::Error,
        if t.nodes@[i as int].missing {
            "Missing "@ + t.nodes@[i as int].kind_name@
        } else {
            "Syntax error"@
        },
        "syntax-error"@,
    )
}

/// Error and missing nodes of the subtree at `node`, in document order;
/// the walk does not enter them.
pub open spec fn syntax_errors_at(t: &SyntaxTree, node: usize) -> Seq<DiagnosticView>
    decreases t.len() - node, 1int, 0int,
{
    if node >= t.len() {
        Seq::empty()
    } else if t.nodes@[node as int].error || t.nodes@[node as int].missing {
        seq![syntax_error_view(t, node)]
    } else {
        syntax_errors_in(t, node, t.children(node))
    }
}

pub open spec fn syntax_errors_in(t: &SyntaxTree, parent: usize, ch: Seq<usize>) -> Seq<
    DiagnosticView,
>
    decreases t.len() - parent, 0int, ch.len(),
{
    if ch.len() == 0 || parent >= t.len() {
        Seq::empty()
    } else {
        let c = ch.last();
        syntax_errors_in(t, parent, ch.drop_last()) + if parent < c && c < t.len() {
            syntax_errors_at(t, c)
        } else {
            Seq::empty()
        }
    }
}

fn collect_syntax_errors(t: &SyntaxTree, node: usize, out: &mut Vec<DomainDiagnostic>)
    requires
        t.wf(),
        node < t.len(),
    ensures
        diagnostic_views(final(out)@) == diagnostic_views(old(out)@) + syntax_errors_at(t, node),
    decreases t.len() - node,
{
    let n = &t.nodes[node];
    if n.error || n.missing {
        let message = if n.missing {
            cat2("Missing ", n.kind_name.as_str())
        } else {
            String::from_str("Syntax error")
        };
        diag_views_push(out, error_at(n.start, n.end, message, "syntax-error"));
        return;
    }
    let ch = &n.children;
    let ghost start = diagnostic_views(out@);
    let mut i: usize = 0;
    assert(ch@.take(0) =~= Seq::<usize>::empty());
    assert(start =~= start + Seq::<DiagnosticView>::empty());
    while i < ch.len()
        invariant
            t.wf(),
            node < t.len(),
            !t.nodes@[node as int].error && !t.nodes@[node as int].missing,
            ch@ == t.children(node),
            i <= ch@.len(),
            diagnostic_views(out@) == start + syntax_errors_in(t, node, ch@.take(i as int)),
        decreases ch.len() - i,
    {
        let c = ch[i];
        assert(t.nodes@[node as int].children@[i as int] == c);
        let ghost pre = ch@.take(i + 1);
        assert(pre.drop_last() =~= ch@.take(i as int));
        collect_syntax_errors(t, c, out);
        assert(diagnostic_views(out@) =~= start + syntax_errors_in(t, node, pre));
        i = i + 1;
    }
    assert(ch@.take(ch@.len() as int) =~= ch@);
}

// ---------------------------------------------------------------------------
// Unknown simple column types
// ---------------------------------------------------------------------------

/// The simple column types that may be written as a plain string.
pub open spec fn is_known_simple_type(s: Seq<char>) -> bool {
    ||| s == "small_int"@
    ||| s == "integer"@
    ||| s == "big_int"@
    ||| s == "real"@
    ||| s == "double_precision"@
    ||| s == "text"@
    ||| s == "boolean"@
    ||| s == "date"@
    ||| s == "time"@
    ||| s == "timestamp"@
    ||| s == "timestamptz"@
    ||| s == "interval"@
    ||| s == "bytea"@
    ||| s == "uuid"@
    ||| s == "json"@
    ||| s == "jsonb"@
    ||| s == "inet"@
    ||| s == "cidr"@
    ||| s == "macaddr"@
    ||| s == "xml"@
}

fn known_simple_type(s: &str) -> (r: bool)
    ensures
        r == is_known_simple_type(s@),
{
    str_eq(s, "small_int") || str_eq(s, "integer") || str_eq(s, "big_int") || str_eq(s, "real")
        || str_eq(s, "double_precision") || str_eq(s, "text") || str_eq(s, "boolean") || str_eq(
        s,
        "date",
    ) || str_eq(s, "time") || str_eq(s, "timestamp") || str_eq(s, "timestamptz") || str_eq(
        s,
        "interval",
    ) || str_eq(s, "bytea") || str_eq(s, "uuid") || str_eq(s, "json") || str_eq(s, "jsonb")
        || str_eq(s, "inet") || str_eq(s, "cidr") || str_eq(s, "macaddr") || str_eq(s, "xml")
}

pub open spec fn unknown_type_message(s: Seq<char>) -> Seq<char> {
    "Unknown column type `"@ + s + "`. Expected one of: small_int, integer, big_int, real, double_precision, text, boolean, date, time, timestamp, timestamptz, interval, bytea, uuid, json, jsonb, inet, cidr, macaddr, xml \u{2014} or a complex type object such as {\"kind\":\"varchar\",\"length\":255}"@
}

/// The stripped text of a pair's (unwrapped) value.
pub open spec fn pair_value_chars(t: &SyntaxTree, source: &str, pair: usize) -> Option<Seq<char>> {
    match t.named_child(pair, 1) {
        Some(raw) => stripped_text(t, source, unwrap_wrapper(t, raw), StripMode::Pair),
        None => None,
    }
}

/// A column object whose `type` is a string naming no known type gets a
/// diagnostic over its whole `type` pair. Object types and empty strings
/// are left alone.
pub open spec fn unknown_type_of(t: &SyntaxTree, source: &str, column: usize) -> Seq<DiagnosticView> {
    match find_pair(t, source, column, "type"@, StripMode::Pair) {
        None => Seq::empty(),
        Some(tp) => match t.named_child(tp, 1) {
            None => Seq::empty(),
            Some(raw) => {
                let v = unwrap_wrapper(t, raw);
                if is_mapping_kind(t.kind(v)) {
                    Seq::empty()
                } else {
                    match stripped_text(t, source, v, StripMode::Pair) {
                        None => Seq::empty(),
                        Some(s) => if s.len() == 0 || is_known_simple_type(s) {
                            Seq::empty()
                        } else {
                            seq![
                                (
                                    t.start(tp),
                                    t.end(tp),
                                    Severity::Error,
                                    unknown_type_message(s),
                                    "unknown-type"@,
                                ),
                            ]
                        },
                    }
                }
            },
        },
    }
}

/// Unknown-type diagnostics of the objects among the descendants of `cols`
/// from index `j` on, in document order.
pub open spec fn unknown_types_from(t: &SyntaxTree, source: &str, cols: usize, j: int) -> Seq<
    DiagnosticView,
>
    decreases t.len() - j,
{
    if j < 0 || j >= t.len() {
        Seq::empty()
    } else {
        (if is_ancestor(t, cols, j as usize) && is_object_kind(t.kind(j as usize)) {
            unknown_type_of(t, source, j as usize)
        } else {
            Seq::empty()
        }) + unknown_types_from(t, source, cols, j + 1)
    }
}

/// Unknown-type diagnostics under the first `columns` value.
pub open spec fn unknown_types(t: &SyntaxTree, source: &str) -> Seq<DiagnosticView> {
    match find_value_for_key(t, source, 0, "columns"@, StripMode::Pair) {
        Some(cols) => unknown_types_from(t, source, cols, cols + 1),
        None => Seq::empty(),
    }
}

fn inspect_column_type(t: &SyntaxTree, source: &str, column: usize, out: &mut Vec<DomainDiagnostic>)
    requires
        t.fits(source),
        column < t.len(),
    ensures
        diagnostic_views(final(out)@) == diagnostic_views(old(out)@) + unknown_type_of(
            t,
            source,
            column,
        ),
{
    let ghost before = diagnostic_views(out@);
    assert(before =~= before + Seq::<DiagnosticView>::empty());
    let tp = match t.find_pair(source, column, "type", StripMode::Pair) {
        Some(p) => p,
        None => {
            return;
        },
    };
    let raw = match t.get_named_child(tp, 1) {
        Some(r) => r,
        None => {
            return;
        },
    };
    let v = t.unwrap_wrapper(raw);
    if is_mapping(t.nodes[v].kind) {
        return;
    }
    let s = match t.stripped(source, v, StripMode::Pair) {
        Some(s) => s,
        None => {
            return;
        },
    };
    if s.unicode_len() == 0 || known_simple_type(s) {
        return;
    }
    let message = cat3(
        "Unknown column type `",
        s,
        "`. Expected one of: small_int, integer, big_int, real, double_precision, text, boolean, date, time, timestamp, timestamptz, interval, bytea, uuid, json, jsonb, inet, cidr, macaddr, xml \u{2014} or a complex type object such as {\"kind\":\"varchar\",\"length\":255}",
    );
    diag_views_push(out, error_at(t.nodes[tp].start, t.nodes[tp].end, message, "unknown-type"));
}

fn collect_unknown_column_types(t: &SyntaxTree, source: &str, out: &mut Vec<DomainDiagnostic>)
    requires
        t.fits(source),
    ensures
        diagnostic_views(final(out)@) == diagnostic_views(old(out)@) + unknown_types(t, source),
{
    let ghost start = diagnostic_views(out@);
    let cols = match t.find_value_for_key(source, 0, "columns", StripMode::Pair) {
        Some(c) => c,
        None => {
            assert(start =~= start + Seq::<DiagnosticView>::empty());
            return;
        },
    };
    let mut j = cols + 1;
    while j < t.nodes.len()
        invariant
            t.fits(source),
            cols < j <= t.len(),
            find_value_for_key(t, source, 0, "columns"@, StripMode::Pair) == Some(cols),
            diagnostic_views(out@) + unknown_types_from(t, source, cols, j as int) == start
                + unknown_types_from(t, source, cols, cols + 1),
        decreases t.len() - j,
    {
        let ghost before = diagnostic_views(out@);
        if t.is_ancestor(cols, j) && matches!(t.nodes[j].kind, NodeKind::Object | NodeKind::BlockMapping) {
            inspect_column_type(t, source, j, out);
        } else {
            assert(diagnostic_views(out@) =~= before + Seq::<DiagnosticView>::empty());
        }
        assert(diagnostic_views(out@) + unknown_types_from(t, source, cols, j + 1) =~= before
            + unknown_types_from(t, source, cols, j as int));
        j = j + 1;
    }
    assert(unknown_types_from(t, source, cols, j as int) =~= Seq::<DiagnosticView>::empty());
    assert(diagnostic_views(out@) =~= diagnostic_views(out@) + Seq::<DiagnosticView>::empty());
}

// ---------------------------------------------------------------------------
// Complex (object-form) column types
// ---------------------------------------------------------------------------

/// A `complex-type` error over node `i`.
pub open spec fn complex_view(t: &SyntaxTree, i: usize, message: Seq<char>) -> DiagnosticView {
    (t.start(i), t.end(i), Severity::Error, message, "complex-type"@)
}

/// One element of an enum's `values`: its name and range, and for
/// integer enums the text and range of its `value`.
pub struct EnumValueDescriptor {
    pub name: String,
    pub byte_range: Range<usize>,
    pub integer_value: Option<String>,
    pub integer_value_range: Range<usize>,
}

pub type DescriptorView = (Seq<char>, usize, usize, Option<Seq<char>>, usize, usize);

impl View for EnumValueDescriptor {
    type V = DescriptorView;

    open spec fn view(&self) -> DescriptorView {
        (
            self.name@,
            self.byte_range.start,
            self.byte_range.end,
            match self.integer_value {
                Some(v) => Some(v@),
                None => None,
            },
            self.integer_value_range.start,
            self.integer_value_range.end,
        )
    }
}

pub open spec fn descriptor_views(v: Seq<EnumValueDescriptor>) -> Seq<DescriptorView> {
    v.map_values(|d: EnumValueDescriptor| d@)
}

/// A string element of the list.
pub open spec fn string_descriptor(t: &SyntaxTree, source: &str, e: usize) -> Seq<DescriptorView> {
    match stripped_text(t, source, e, StripMode::Pair) {
        Some(n) => seq![(n, t.start(e), t.end(e), None, 0usize, 0usize)],
        None => Seq::empty(),
    }
}

/// An object element `{name, value}` of the list.
pub open spec fn object_descriptor(t: &SyntaxTree, source: &str, e: usize) -> Seq<DescriptorView> {
    match find_pair(t, source, e, "name"@, StripMode::Pair) {
        None => Seq::empty(),
        Some(np) => match t.named_child(np, 1) {
            None => Seq::empty(),
            Some(raw) => match stripped_text(t, source, unwrap_wrapper(t, raw), StripMode::Pair) {
                None => Seq::empty(),
                Some(n) => {
                    let (iv, s, en) = match find_pair(t, source, e, "value"@, StripMode::Pair) {
                        Some(vp) => match t.named_child(vp, 1) {
                            Some(raw2) => {
                                let vn = unwrap_wrapper(t, raw2);
                                (stripped_text(t, source, vn, StripMode::Pair), t.start(vn), t.end(vn))
                            },
                            None => (None, 0usize, 0usize),
                        },
                        None => (None, 0usize, 0usize),
                    };
                    seq![(n, t.start(e), t.end(e), iv, s, en)]
                },
            },
        },
    }
}

/// The string elements inside a YAML `- ...` item.
pub open spec fn item_descriptors(t: &SyntaxTree, source: &str, ch: Seq<usize>) -> Seq<
    DescriptorView,
>
    decreases ch.len(),
{
    if ch.len() == 0 {
        Seq::empty()
    } else {
        let u = unwrap_wrapper(t, ch.last());
        item_descriptors(t, source, ch.drop_last()) + if is_string_scalar_kind(t.kind(u)) {
            string_descriptor(t, source, u)
        } else {
            Seq::empty()
        }
    }
}

pub open spec fn element_descriptors(t: &SyntaxTree, source: &str, c: usize) -> Seq<DescriptorView> {
    let e = unwrap_wrapper(t, c);
    if is_string_scalar_kind(t.kind(e)) {
        string_descriptor(t, source, e)
    } else if is_mapping_kind(t.kind(e)) {
        object_descriptor(t, source, e)
    } else if t.kind(e) == NodeKind::BlockSequenceItem {
        item_descriptors(t, source, t.children(e))
    } else {
        Seq::empty()
    }
}

/// The descriptors of the elements `ch` of an enum's `values` list.
pub open spec fn enum_descriptors(t: &SyntaxTree, source: &str, ch: Seq<usize>) -> Seq<
    DescriptorView,
>
    decreases ch.len(),
{
    if ch.len() == 0 {
        Seq::empty()
    } else {
        enum_descriptors(t, source, ch.drop_last()) + element_descriptors(t, source, ch.last())
    }
}

/// Each descriptor whose name occurred before gets a diagnostic.
pub open spec fn duplicate_names(ds: Seq<DescriptorView>) -> Seq<DiagnosticView>
    decreases ds.len(),
{
    if ds.len() == 0 {
        Seq::empty()
    } else {
        let d = ds.last();
        duplicate_names(ds.drop_last()) + if exists|j: int|
            0 <= j < ds.len() - 1 && (#[trigger] ds[j]).0 == d.0 {
            seq![
                (
                    d.1,
                    d.2,
                    Severity::Error,
                    "Duplicate enum value `"@ + d.0 + "`"@,
                    "complex-type"@,
                ),
            ]
        } else {
            Seq::empty()
        }
    }
}

/// Each integer value that occurred before gets a diagnostic.
pub open spec fn duplicate_values(ds: Seq<DescriptorView>) -> Seq<DiagnosticView>
    decreases ds.len(),
{
    if ds.len() == 0 {
        Seq::empty()
    } else {
        let d = ds.last();
        duplicate_values(ds.drop_last()) + match d.3 {
            Some(v) => if exists|j: int| 0 <= j < ds.len() - 1 && (#[trigger] ds[j]).3 == Some(v) {
                seq![
                    (
                        d.4,
                        d.5,
                        Severity::Error,
                        "Duplicate enum numeric value `"@ + v + "`"@,
                        "complex-type"@,
                    ),
                ]
            } else {
                Seq::empty()
            },
            None => Seq::empty(),
        }
    }
}

pub open spec fn enum_shape_errors(t: &SyntaxTree, source: &str, tp: usize, tv: usize) -> Seq<
    DiagnosticView,
> {
    let np = find_pair(t, source, tv, "name"@, StripMode::Pair);
    let vp = find_pair(t, source, tv, "values"@, StripMode::Pair);
    if np is None && vp is None {
        seq![complex_view(t, tp, "`enum` type requires fields: name, values"@)]
    } else if np is None {
        seq![complex_view(t, tp, "`enum` type requires field: name"@)]
    } else if vp is None {
        seq![complex_view(t, tp, "`enum` type requires field: values"@)]
    } else {
        let vpair = vp->0;
        match t.named_child(vpair, 1) {
            None => Seq::empty(),
            Some(raw) => {
                let vv = unwrap_wrapper(t, raw);
                if !is_sequence_kind(t.kind(vv)) {
                    seq![complex_view(t, vpair, "`values` must be a non-empty array"@)]
                } else {
                    let ds = enum_descriptors(t, source, t.children(vv));
                    if ds.len() == 0 {
                        seq![complex_view(t, vpair, "`enum` requires a non-empty `values` array"@)]
                    } else {
                        duplicate_names(ds) + duplicate_values(ds)
                    }
                }
            },
        }
    }
}

/// Shape errors of a type object `tv` (the value of the pair `tp`).
pub open spec fn type_object_errors(t: &SyntaxTree, source: &str, tp: usize, tv: usize) -> Seq<
    DiagnosticView,
> {
    match find_pair(t, source, tv, "kind"@, StripMode::Pair) {
        None => seq![
            complex_view(
                t,
                tp,
                "Type object requires a `kind` field (varchar, char, numeric, enum, custom)"@,
            ),
        ],
        Some(kp) => match pair_value_chars(t, source, kp) {
            None => seq![complex_view(t, kp, "`kind` must be a non-empty string"@)],
            Some(k) => if k.len() == 0 {
                seq![complex_view(t, kp, "`kind` must be a non-empty string"@)]
            } else if k == "varchar"@ || k == "char"@ {
                if find_pair(t, source, tv, "length"@, StripMode::Pair) is None {
                    seq![complex_view(t, tp, "`"@ + k + "` type requires a `length` field"@)]
                } else {
                    Seq::empty()
                }
            } else if k == "numeric"@ {
                let no_p = find_pair(t, source, tv, "precision"@, StripMode::Pair) is None;
                let no_s = find_pair(t, source, tv, "scale"@, StripMode::Pair) is None;
                if no_p && no_s {
                    seq![complex_view(t, tp, "`numeric` type requires precision and scale fields"@)]
                } else if no_p {
                    seq![complex_view(t, tp, "`numeric` type requires precision field"@)]
                } else if no_s {
                    seq![complex_view(t, tp, "`numeric` type requires scale field"@)]
                } else {
                    Seq::empty()
                }
            } else if k == "enum"@ {
                enum_shape_errors(t, source, tp, tv)
            } else if k == "custom"@ {
                if find_pair(t, source, tv, "custom_type"@, StripMode::Pair) is None {
                    seq![complex_view(t, tp, "`custom` type requires a `custom_type` SQL string"@)]
                } else {
                    Seq::empty()
                }
            } else {
                seq![
                    complex_view(
                        t,
                        kp,
                        "Unknown type kind `"@ + k + "`. Expected: varchar, char, numeric, enum, custom"@,
                    ),
                ]
            },
        },
    }
}

/// Complex-type errors of one column object.
pub open spec fn complex_type_of(t: &SyntaxTree, source: &str, column: usize) -> Seq<DiagnosticView> {
    match find_pair(t, source, column, "type"@, StripMode::Pair) {
        None => Seq::empty(),
        Some(tp) => match t.named_child(tp, 1) {
            None => Seq::empty(),
            Some(raw) => {
                let tv = unwrap_wrapper(t, raw);
                if is_mapping_kind(t.kind(tv)) {
                    type_object_errors(t, source, tp, tv)
                } else {
                    Seq::empty()
                }
            },
        },
    }
}

pub open spec fn complex_types_from(t: &SyntaxTree, source: &str, cols: usize, j: int) -> Seq<
    DiagnosticView,
>
    decreases t.len() - j,
{
    if j < 0 || j >= t.len() {
        Seq::empty()
    } else {
        (if is_ancestor(t, cols, j as usize) && is_object_kind(t.kind(j as usize)) {
            complex_type_of(t, source, j as usize)
        } else {
            Seq::empty()
        }) + complex_types_from(t, source, cols, j + 1)
    }
}

/// Complex-type diagnostics under the first `columns` value.
pub open spec fn complex_types(t: &SyntaxTree, source: &str) -> Seq<DiagnosticView> {
    match find_value_for_key(t, source, 0, "columns"@, StripMode::Pair) {
        Some(cols) => complex_types_from(t, source, cols, cols + 1),
        None => Seq::empty(),
    }
}

fn desc_push(out: &mut Vec<EnumValueDescriptor>, d: EnumValueDescriptor)
    ensures
        descriptor_views(final(out)@) == descriptor_views(old(out)@) + seq![d@],
{
    let ghost prev = out@;
    let ghost dv = d@;
    out.push(d);
    assert(descriptor_views(out@) =~= descriptor_views(prev) + seq![dv]);
}

fn push_string_descriptor(t: &SyntaxTree, source: &str, e: usize, out: &mut Vec<EnumValueDescriptor>)
    requires
        t.fits(source),
        e < t.len(),
    ensures
        descriptor_views(final(out)@) == descriptor_views(old(out)@) + string_descriptor(t, source, e),
{
    match t.stripped(source, e, StripMode::Pair) {
        Some(n) => {
            let d = EnumValueDescriptor {
                name: String::from_str(n),
                byte_range: t.nodes[e].start..t.nodes[e].end,
                integer_value: None,
                integer_value_range: 0..0,
            };
            desc_push(out, d);
        },
        None => {
            assert(descriptor_views(out@) =~= descriptor_views(out@) + Seq::<DescriptorView>::empty());
        },
    }
}

fn push_object_descriptor(t: &SyntaxTree, source: &str, e: usize, out: &mut Vec<EnumValueDescriptor>)
    requires
        t.fits(source),
        e < t.len(),
    ensures
        descriptor_views(final(out)@) == descriptor_views(old(out)@) + object_descriptor(t, source, e),
{
    let ghost before = descriptor_views(out@);
    assert(before =~= before + Seq::<DescriptorView>::empty());
    let np = match t.find_pair(source, e, "name", StripMode::Pair) {
        Some(p) => p,
        None => {
            return;
        },
    };
    let raw = match t.get_named_child(np, 1) {
        Some(r) => r,
        None => {
            return;
        },
    };
    let nv = t.unwrap_wrapper(raw);
    let n = match t.stripped(source, nv, StripMode::Pair) {
        Some(n) => n,
        None => {
            return;
        },
    };
    let (iv, range) = match t.find_pair(source, e, "value", StripMode::Pair) {
        Some(vp) => match t.get_named_child(vp, 1) {
            Some(raw2) => {
                let vn = t.unwrap_wrapper(raw2);
                let text = match t.stripped(source, vn, StripMode::Pair) {
                    Some(x) => Some(String::from_str(x)),
                    None => None,
                };
                (text, t.nodes[vn].start..t.nodes[vn].end)
            },
            None => (None, 0..0),
        },
        None => (None, 0..0),
    };
    let d = EnumValueDescriptor {
        name: String::from_str(n),
        byte_range: t.nodes[e].start..t.nodes[e].end,
        integer_value: iv,
        integer_value_range: range,
    };
    desc_push(out, d);
}

fn push_item_descriptors(t: &SyntaxTree, source: &str, e: usize, out: &mut Vec<EnumValueDescriptor>)
    requires
        t.fits(source),
        e < t.len(),
    ensures
        descriptor_views(final(out)@) == descriptor_views(old(out)@) + item_descriptors(
            t,
            source,
            t.children(e),
        ),
{
    let ch = &t.nodes[e].children;
    let ghost start = descriptor_views(out@);
    let mut i: usize = 0;
    assert(ch@.take(0) =~= Seq::<usize>::empty());
    assert(start =~= start + Seq::<DescriptorView>::empty());
    while i < ch.len()
        invariant
            t.fits(source),
            e < t.len(),
            ch@ == t.children(e),
            i <= ch@.len(),
            descriptor_views(out@) == start + item_descriptors(t, source, ch@.take(i as int)),
        decreases ch.len() - i,
    {
        let c = ch[i];
        assert(t.nodes@[e as int].children@[i as int] == c);
        let ghost pre = ch@.take(i + 1);
        assert(pre.drop_last() =~= ch@.take(i as int));
        let u = t.unwrap_wrapper(c);
        if is_string_scalar(t.nodes[u].kind) {
            push_string_descriptor(t, source, u, out);
        } else {
            assert(descriptor_views(out@) =~= descriptor_views(out@) + Seq::<DescriptorView>::empty());
        }
        assert(descriptor_views(out@) =~= start + item_descriptors(t, source, pre));
        i = i + 1;
    }
    assert(ch@.take(ch@.len() as int) =~= ch@);
}

/// The elements of an enum's `values` list: strings, `{name, value}`
/// objects, and strings inside YAML `- ...` items.
pub fn collect_enum_value_descriptors(t: &SyntaxTree, source: &str, array: usize) -> (r: Vec<
    EnumValueDescriptor,
>)
    requires
        t.fits(source),
        array < t.len(),
    ensures
        descriptor_views(r@) == enum_descriptors(t, source, t.children(array)),
{
    let mut out: Vec<EnumValueDescriptor> = Vec::new();
    let ch = &t.nodes[array].children;
    let mut i: usize = 0;
    assert(ch@.take(0) =~= Seq::<usize>::empty());
    assert(descriptor_views(out@) =~= Seq::<DescriptorView>::empty());
    while i < ch.len()
        invariant
            t.fits(source),
            array < t.len(),
            ch@ == t.children(array),
            i <= ch@.len(),
            descriptor_views(out@) == enum_descriptors(t, source, ch@.take(i as int)),
        decreases ch.len() - i,
    {
        let c = ch[i];
        assert(t.nodes@[array as int].children@[i as int] == c);
        let ghost pre = ch@.take(i + 1);
        assert(pre.drop_last() =~= ch@.take(i as int));
        let e = t.unwrap_wrapper(c);
        let k = t.nodes[e].kind;
        if is_string_scalar(k) {
            push_string_descriptor(t, source, e, &mut out);
        } else if is_mapping(k) {
            push_object_descriptor(t, source, e, &mut out);
        } else if matches!(k, NodeKind::BlockSequenceItem) {
            push_item_descriptors(t, source, e, &mut out);
        } else {
            assert(descriptor_views(out@) =~= descriptor_views(out@) + Seq::<DescriptorView>::empty());
        }
        assert(descriptor_views(out@) =~= enum_descriptors(t, source, pre));
        i = i + 1;
    }
    assert(ch@.take(ch@.len() as int) =~= ch@);
    out
}

fn opt_string_eq(a: &Option<String>, b: &Option<String>) -> (r: bool)
    ensures
        r == (match a {
            Some(x) => Some(x@),
            None => None::<Seq<char>>,
        } == match b {
            Some(y) => Some(y@),
            None => None::<Seq<char>>,
        }),
{
    match (a, b) {
        (Some(x), Some(y)) => str_eq(x.as_str(), y.as_str()),
        (None, None) => true,
        _ => false,
    }
}

/// Flags every enum element whose name occurred earlier, then every
/// integer value that occurred earlier.
pub fn check_duplicate_enum_values(ds: &[EnumValueDescriptor], out: &mut Vec<DomainDiagnostic>)
    ensures
        diagnostic_views(final(out)@) == diagnostic_views(old(out)@) + duplicate_names(
            descriptor_views(ds@),
        ) + duplicate_values(descriptor_views(ds@)),
{
    let ghost all = descriptor_views(ds@);
    let ghost start = diagnostic_views(out@);
    let mut i: usize = 0;
    assert(all.take(0) =~= Seq::<DescriptorView>::empty());
    assert(start =~= start + Seq::<DiagnosticView>::empty());
    while i < ds.len()
        invariant
            all == descriptor_views(ds@),
            i <= ds@.len(),
            diagnostic_views(out@) == start + duplicate_names(all.take(i as int)),
        decreases ds.len() - i,
    {
        let ghost pre = all.take(i + 1);
        assert(pre.drop_last() =~= all.take(i as int));
        assert(pre.last() == ds@[i as int]@);
        let mut j: usize = 0;
        let mut found = false;
        while j < i && !found
            invariant
                all == descriptor_views(ds@),
                i < ds@.len(),
                j <= i,
                pre == all.take(i + 1),
                found ==> exists|k: int| 0 <= k < i && (#[trigger] pre[k]).0 == pre.last().0,
                !found ==> forall|k: int| 0 <= k < j ==> (#[trigger] pre[k]).0 != pre.last().0,
            decreases i - j + if found { 0int } else { 1int },
        {
            if str_eq(ds[j].name.as_str(), ds[i].name.as_str()) {
                assert(pre[j as int].0 == pre.last().0);
                found = true;
            } else {
                j = j + 1;
            }
        }
        let ghost before = diagnostic_views(out@);
        if found {
            let message = cat3("Duplicate enum value `", ds[i].name.as_str(), "`");
            diag_views_push(
                out,
                error_at(ds[i].byte_range.start, ds[i].byte_range.end, message, "complex-type"),
            );
        } else {
            assert(diagnostic_views(out@) =~= before + Seq::<DiagnosticView>::empty());
        }
        assert(diagnostic_views(out@) =~= start + duplicate_names(pre));
        i = i + 1;
    }
    assert(all.take(ds@.len() as int) =~= all);
    let ghost mid = diagnostic_views(out@);
    let mut i: usize = 0;
    assert(mid =~= mid + Seq::<DiagnosticView>::empty());
    while i < ds.len()
        invariant
            all == descriptor_views(ds@),
            i <= ds@.len(),
            mid == start + duplicate_names(all),
            diagnostic_views(out@) == mid + duplicate_values(all.take(i as int)),
        decreases ds.len() - i,
    {
        let ghost pre = all.take(i + 1);
        assert(pre.drop_last() =~= all.take(i as int));
        assert(pre.last() == ds@[i as int]@);
        let ghost before = diagnostic_views(out@);
        match &ds[i].integer_value {
            None => {
                assert(diagnostic_views(out@) =~= before + Seq::<DiagnosticView>::empty());
            },
            Some(v) => {
                let mut j: usize = 0;
                let mut found = false;
                while j < i && !found
                    invariant
                        all == descriptor_views(ds@),
                        i < ds@.len(),
                        j <= i,
                        pre == all.take(i + 1),
                        pre.last().3 == Some(v@),
                        found ==> exists|k: int| 0 <= k < i && (#[trigger] pre[k]).3 == Some(v@),
                        !found ==> forall|k: int| 0 <= k < j ==> (#[trigger] pre[k]).3 != Some(v@),
                    decreases i - j + if found { 0int } else { 1int },
                {
                    if opt_string_eq(&ds[j].integer_value, &ds[i].integer_value) {
                        assert(pre[j as int].3 == Some(v@));
                        found = true;
                    } else {
                        j = j + 1;
                    }
                }
                if found {
                    let message = cat3("Duplicate enum numeric value `", v.as_str(), "`");
                    diag_views_push(
                        out,
                        error_at(
                            ds[i].integer_value_range.start,
                            ds[i].integer_value_range.end,
                            message,
                            "complex-type",
                        ),
                    );
                } else {
                    assert(diagnostic_views(out@) =~= before + Seq::<DiagnosticView>::empty());
                }
            },
        }
        assert(diagnostic_views(out@) =~= mid + duplicate_values(pre));
        i = i + 1;
    }
    assert(all.take(ds@.len() as int) =~= all);
}

fn push_complex(t: &SyntaxTree, i: usize, message: String, out: &mut Vec<DomainDiagnostic>)
    requires
        t.wf(),
        i < t.len(),
    ensures
        diagnostic_views(final(out)@) == diagnostic_views(old(out)@) + seq![
            complex_view(t, i, message@),
        ],
{
    diag_views_push(out, error_at(t.nodes[i].start, t.nodes[i].end, message, "complex-type"));
}

fn pair_value_text<'a>(t: &SyntaxTree, source: &'a str, pair: usize) -> (r: Option<&'a str>)
    requires
        t.fits(source),
        pair < t.len(),
    ensures
        match r {
            Some(s) => pair_value_chars(t, source, pair) == Some(s@),
            None => pair_value_chars(t, source, pair) is None,
        },
{
    match t.get_named_child(pair, 1) {
        Some(raw) => {
            let v = t.unwrap_wrapper(raw);
            t.stripped(source, v, StripMode::Pair)
        },
        None => None,
    }
}

fn check_enum_shape(t: &SyntaxTree, source: &str, tp: usize, tv: usize, out: &mut Vec<DomainDiagnostic>)
    requires
        t.fits(source),
        tp < t.len(),
        tv < t.len(),
    ensures
        diagnostic_views(final(out)@) == diagnostic_views(old(out)@) + enum_shape_errors(
            t,
            source,
            tp,
            tv,
        ),
{
    let ghost before = diagnostic_views(out@);
    assert(before =~= before + Seq::<DiagnosticView>::empty());
    let np = t.find_pair(source, tv, "name", StripMode::Pair);
    let vp = t.find_pair(source, tv, "values", StripMode::Pair);
    if np.is_none() && vp.is_none() {
        push_complex(t, tp, String::from_str("`enum` type requires fields: name, values"), out);
        return;
    }
    if np.is_none() {
        push_complex(t, tp, String::from_str("`enum` type requires field: name"), out);
        return;
    }
    let vpair = match vp {
        Some(p) => p,
        None => {
            push_complex(t, tp, String::from_str("`enum` type requires field: values"), out);
            return;
        },
    };
    let raw = match t.get_named_child(vpair, 1) {
        Some(r) => r,
        None => {
            return;
        },
    };
    let vv = t.unwrap_wrapper(raw);
    if !is_sequence(t.nodes[vv].kind) {
        push_complex(t, vpair, String::from_str("`values` must be a non-empty array"), out);
        return;
    }
    let ds = collect_enum_value_descriptors(t, source, vv);
    if ds.len() == 0 {
        push_complex(t, vpair, String::from_str("`enum` requires a non-empty `values` array"), out);
        return;
    }
    check_duplicate_enum_values(ds.as_slice(), out);
}

fn inspect_complex_type(t: &SyntaxTree, source: &str, column: usize, out: &mut Vec<DomainDiagnostic>)
    requires
        t.fits(source),
        column < t.len(),
    ensures
        diagnostic_views(final(out)@) == diagnostic_views(old(out)@) + complex_type_of(
            t,
            source,
            column,
        ),
{
    let ghost before = diagnostic_views(out@);
    assert(before =~= before + Seq::<DiagnosticView>::empty());
    let tp = match t.find_pair(source, column, "type", StripMode::Pair) {
        Some(p) => p,
        None => {
            return;
        },
    };
    let raw = match t.get_named_child(tp, 1) {
        Some(r) => r,
        None => {
            return;
        },
    };
    let tv = t.unwrap_wrapper(raw);
    if !is_mapping(t.nodes[tv].kind) {
        return;
    }
    let kp = match t.find_pair(source, tv, "kind", StripMode::Pair) {
        Some(p) => p,
        None => {
            push_complex(
                t,
                tp,
                String::from_str(
                    "Type object requires a `kind` field (varchar, char, numeric, enum, custom)",
                ),
                out,
            );
            return;
        },
    };
    let k = match pair_value_text(t, source, kp) {
        Some(k) => k,
        None => {
            push_complex(t, kp, String::from_str("`kind` must be a non-empty string"), out);
            return;
        },
    };
    if k.unicode_len() == 0 {
        push_complex(t, kp, String::from_str("`kind` must be a non-empty string"), out);
    } else if str_eq(k, "varchar") || str_eq(k, "char") {
        if t.find_pair(source, tv, "length", StripMode::Pair).is_none() {
            push_complex(t, tp, cat3("`", k, "` type requires a `length` field"), out);
        }
    } else if str_eq(k, "numeric") {
        let no_p = t.find_pair(source, tv, "precision", StripMode::Pair).is_none();
        let no_s = t.find_pair(source, tv, "scale", StripMode::Pair).is_none();
        if no_p && no_s {
            push_complex(
                t,
                tp,
                String::from_str("`numeric` type requires precision and scale fields"),
                out,
            );
        } else if no_p {
            push_complex(t, tp, String::from_str("`numeric` type requires precision field"), out);
        } else if no_s {
            push_complex(t, tp, String::from_str("`numeric` type requires scale field"), out);
        }
    } else if str_eq(k, "enum") {
        check_enum_shape(t, source, tp, tv, out);
    } else if str_eq(k, "custom") {
        if t.find_pair(source, tv, "custom_type", StripMode::Pair).is_none() {
            push_complex(
                t,
                tp,
                String::from_str("`custom` type requires a `custom_type` SQL string"),
                out,
            );
        }
    } else {
        push_complex(
            t,
            kp,
            cat3("Unknown type kind `", k, "`. Expected: varchar, char, numeric, enum, custom"),
            out,
        );
    }
}

fn collect_complex_type_violations(t: &SyntaxTree, source: &str, out: &mut Vec<DomainDiagnostic>)
    requires
        t.fits(source),
    ensures
        diagnostic_views(final(out)@) == diagnostic_views(old(out)@) + complex_types(t, source),
{
    let ghost start = diagnostic_views(out@);
    let cols = match t.find_value_for_key(source, 0, "columns", StripMode::Pair) {
        Some(c) => c,
        None => {
            assert(start =~= start + Seq::<DiagnosticView>::empty());
            return;
        },
    };
    let mut j = cols + 1;
    while j < t.nodes.len()
        invariant
            t.fits(source),
            cols < j <= t.len(),
            find_value_for_key(t, source, 0, "columns"@, StripMode::Pair) == Some(cols),
            diagnostic_views(out@) + complex_types_from(t, source, cols, j as int) == start
                + complex_types_from(t, source, cols, cols + 1),
        decreases t.len() - j,
    {
        let ghost before = diagnostic_views(out@);
        if t.is_ancestor(cols, j) && matches!(t.nodes[j].kind, NodeKind::Object | NodeKind::BlockMapping) {
            inspect_complex_type(t, source, j, out);
        } else {
            assert(diagnostic_views(out@) =~= before + Seq::<DiagnosticView>::empty());
        }
        assert(diagnostic_views(out@) + complex_types_from(t, source, cols, j + 1) =~= before
            + complex_types_from(t, source, cols, j as int));
        j = j + 1;
    }
    assert(complex_types_from(t, source, cols, j as int) =~= Seq::<DiagnosticView>::empty());
    assert(diagnostic_views(out@) =~= diagnostic_views(out@) + Seq::<DiagnosticView>::empty());
}

// ---------------------------------------------------------------------------
// Duplicate column names
// ---------------------------------------------------------------------------

/// The non-empty name of a column object, with its value node.
pub open spec fn column_name_entry(t: &SyntaxTree, source: &str, m: usize) -> Seq<(Seq<char>, usize)> {
    match find_pair(t, source, m, "name"@, StripMode::Pair) {
        None => Seq::empty(),
        Some(np) => match t.named_child(np, 1) {
            None => Seq::empty(),
            Some(raw) => {
                let v = unwrap_wrapper(t, raw);
                match stripped_text(t, source, v, StripMode::Pair) {
                    Some(n) => if n.len() > 0 {
                        seq![(n, v)]
                    } else {
                        Seq::empty()
                    },
                    None => Seq::empty(),
                }
            },
        },
    }
}

/// Column objects inside a YAML `- ...` item.
pub open spec fn item_column_entries(t: &SyntaxTree, source: &str, ch: Seq<usize>) -> Seq<
    (Seq<char>, usize),
>
    decreases ch.len(),
{
    if ch.len() == 0 {
        Seq::empty()
    } else {
        let u = unwrap_wrapper(t, ch.last());
        item_column_entries(t, source, ch.drop_last()) + if is_mapping_kind(t.kind(u)) {
            column_name_entry(t, source, u)
        } else {
            Seq::empty()
        }
    }
}

/// Names of the direct elements `ch` of the `columns` list; objects nested
/// deeper (such as integer-enum members) are not columns.
pub open spec fn column_entries(t: &SyntaxTree, source: &str, ch: Seq<usize>) -> Seq<
    (Seq<char>, usize),
>
    decreases ch.len(),
{
    if ch.len() == 0 {
        Seq::empty()
    } else {
        let e = unwrap_wrapper(t, ch.last());
        column_entries(t, source, ch.drop_last()) + if is_mapping_kind(t.kind(e)) {
            column_name_entry(t, source, e)
        } else if t.kind(e) == NodeKind::BlockSequenceItem {
            item_column_entries(t, source, t.children(e))
        } else {
            Seq::empty()
        }
    }
}

pub open spec fn all_column_entries(t: &SyntaxTree, source: &str) -> Seq<(Seq<char>, usize)> {
    match find_value_for_key(t, source, 0, "columns"@, StripMode::Pair) {
        Some(cv) => {
            let arr = unwrap_wrapper(t, cv);
            if is_sequence_kind(t.kind(arr)) {
                column_entries(t, source, t.children(arr))
            } else {
                Seq::empty()
            }
        },
        None => Seq::empty(),
    }
}

/// Every column whose name occurred before gets a diagnostic on its name.
pub open spec fn duplicate_columns(t: &SyntaxTree, es: Seq<(Seq<char>, usize)>) -> Seq<
    DiagnosticView,
>
    decreases es.len(),
{
    if es.len() == 0 {
        Seq::empty()
    } else {
        let e = es.last();
        duplicate_columns(t, es.drop_last()) + if exists|j: int|
            0 <= j < es.len() - 1 && (#[trigger] es[j]).0 == e.0 {
            seq![
                (
                    t.start(e.1),
                    t.end(e.1),
                    Severity::Error,
                    "Duplicate column name `"@ + e.0 + "` in this table"@,
                    "duplicate-column"@,
                ),
            ]
        } else {
            Seq::empty()
        }
    }
}

pub open spec fn duplicate_column_names(t: &SyntaxTree, source: &str) -> Seq<DiagnosticView> {
    duplicate_columns(t, all_column_entries(t, source))
}

pub open spec fn entry_views(v: Seq<(&str, usize)>) -> Seq<(Seq<char>, usize)> {
    v.map_values(|e: (&str, usize)| (e.0@, e.1))
}

fn entry_push<'a>(out: &mut Vec<(&'a str, usize)>, e: (&'a str, usize))
    ensures
        final(out)@ == old(out)@.push(e),
        entry_views(final(out)@) == entry_views(old(out)@) + seq![(e.0@, e.1)],
{
    let ghost prev = out@;
    out.push(e);
    assert(entry_views(out@) =~= entry_views(prev) + seq![(e.0@, e.1)]);
}

fn push_name_entry<'a>(t: &SyntaxTree, source: &'a str, m: usize, out: &mut Vec<(&'a str, usize)>)
    requires
        t.fits(source),
        m < t.len(),
    ensures
        entry_views(final(out)@) == entry_views(old(out)@) + column_name_entry(t, source, m),
        forall|k: int| 0 <= k < final(out)@.len() ==> old(out)@.len() <= k ==> (#[trigger] final(out)@[k]).1 < t.len(),
        final(out)@.len() >= old(out)@.len(),
        forall|k: int| 0 <= k < old(out)@.len() ==> (#[trigger] final(out)@[k]) == old(out)@[k],
{
    let ghost before = entry_views(out@);
    assert(before =~= before + Seq::<(Seq<char>, usize)>::empty());
    let np = match t.find_pair(source, m, "name", StripMode::Pair) {
        Some(p) => p,
        None => {
            return;
        },
    };
    let raw = match t.get_named_child(np, 1) {
        Some(r) => r,
        None => {
            return;
        },
    };
    let v = t.unwrap_wrapper(raw);
    match t.stripped(source, v, StripMode::Pair) {
        Some(n) => {
            if n.unicode_len() > 0 {
                entry_push(out, (n, v));
            }
        },
        None => {},
    }
}

fn collect_column_entries<'a>(t: &SyntaxTree, source: &'a str) -> (r: Vec<(&'a str, usize)>)
    requires
        t.fits(source),
    ensures
        entry_views(r@) == all_column_entries(t, source),
        forall|k: int| 0 <= k < r@.len() ==> (#[trigger] r@[k]).1 < t.len(),
{
    let mut out: Vec<(&'a str, usize)> = Vec::new();
    let cv = match t.find_value_for_key(source, 0, "columns", StripMode::Pair) {
        Some(c) => c,
        None => {
            return out;
        },
    };
    let arr = t.unwrap_wrapper(cv);
    if !is_sequence(t.nodes[arr].kind) {
        return out;
    }
    let ch = &t.nodes[arr].children;
    let mut i: usize = 0;
    assert(ch@.take(0) =~= Seq::<usize>::empty());
    assert(entry_views(out@) =~= Seq::<(Seq<char>, usize)>::empty());
    while i < ch.len()
        invariant
            t.fits(source),
            arr < t.len(),
            ch@ == t.children(arr),
            i <= ch@.len(),
            entry_views(out@) == column_entries(t, source, ch@.take(i as int)),
            forall|k: int| 0 <= k < out@.len() ==> (#[trigger] out@[k]).1 < t.len(),
        decreases ch.len() - i,
    {
        let c = ch[i];
        assert(t.nodes@[arr as int].children@[i as int] == c);
        let ghost pre = ch@.take(i + 1);
        assert(pre.drop_last() =~= ch@.take(i as int));
        let e = t.unwrap_wrapper(c);
        let k = t.nodes[e].kind;
        if is_mapping(k) {
            push_name_entry(t, source, e, &mut out);
        } else if matches!(k, NodeKind::BlockSequenceItem) {
            let inner = &t.nodes[e].children;
            let ghost istart = entry_views(out@);
            let mut q: usize = 0;
            assert(inner@.take(0) =~= Seq::<usize>::empty());
            assert(istart =~= istart + Seq::<(Seq<char>, usize)>::empty());
            while q < inner.len()
                invariant
                    t.fits(source),
                    e < t.len(),
                    inner@ == t.children(e),
                    q <= inner@.len(),
                    entry_views(out@) == istart + item_column_entries(t, source, inner@.take(q as int)),
                    forall|k: int| 0 <= k < out@.len() ==> (#[trigger] out@[k]).1 < t.len(),
                decreases inner.len() - q,
            {
                let u0 = inner[q];
                assert(t.nodes@[e as int].children@[q as int] == u0);
                let ghost ipre = inner@.take(q + 1);
                assert(ipre.drop_last() =~= inner@.take(q as int));
                let u = t.unwrap_wrapper(u0);
                if is_mapping(t.nodes[u].kind) {
                    push_name_entry(t, source, u, &mut out);
                } else {
                    assert(entry_views(out@) =~= entry_views(out@) + Seq::<(Seq<char>, usize)>::empty());
                }
                assert(entry_views(out@) =~= istart + item_column_entries(t, source, ipre));
                q = q + 1;
            }
            assert(inner@.take(inner@.len() as int) =~= inner@);
        } else {
            assert(entry_views(out@) =~= entry_views(out@) + Seq::<(Seq<char>, usize)>::empty());
        }
        assert(entry_views(out@) =~= column_entries(t, source, pre));
        i = i + 1;
    }
    assert(ch@.take(ch@.len() as int) =~= ch@);
    out
}

fn collect_duplicate_column_names(t: &SyntaxTree, source: &str, out: &mut Vec<DomainDiagnostic>)
    requires
        t.fits(source),
    ensures
        diagnostic_views(final(out)@) == diagnostic_views(old(out)@) + duplicate_column_names(
            t,
            source,
        ),
{
    let es = collect_column_entries(t, source);
    let ghost all = entry_views(es@);
    let ghost start = diagnostic_views(out@);
    let mut i: usize = 0;
    assert(all.take(0) =~= Seq::<(Seq<char>, usize)>::empty());
    assert(start =~= start + Seq::<DiagnosticView>::empty());
    while i < es.len()
        invariant
            t.wf(),
            all == entry_views(es@),
            forall|k: int| 0 <= k < es@.len() ==> (#[trigger] es@[k]).1 < t.len(),
            i <= es@.len(),
            diagnostic_views(out@) == start + duplicate_columns(t, all.take(i as int)),
        decreases es.len() - i,
    {
        let ghost pre = all.take(i + 1);
        assert(pre.drop_last() =~= all.take(i as int));
        assert(pre.last() == (es@[i as int].0@, es@[i as int].1));
        let mut j: usize = 0;
        let mut found = false;
        while j < i && !found
            invariant
                all == entry_views(es@),
                i < es@.len(),
                j <= i,
                pre == all.take(i + 1),
                found ==> exists|k: int| 0 <= k < i && (#[trigger] pre[k]).0 == pre.last().0,
                !found ==> forall|k: int| 0 <= k < j ==> (#[trigger] pre[k]).0 != pre.last().0,
            decreases i - j + if found { 0int } else { 1int },
        {
            if str_eq(es[j].0, es[i].0) {
                assert(pre[j as int].0 == pre.last().0);
                found = true;
            } else {
                j = j + 1;
            }
        }
        let ghost before = diagnostic_views(out@);
        if found {
            let v = es[i].1;
            let message = cat3("Duplicate column name `", es[i].0, "` in this table");
            diag_views_push(out, error_at(t.nodes[v].start, t.nodes[v].end, message, "duplicate-column"));
        } else {
            assert(diagnostic_views(out@) =~= before + Seq::<DiagnosticView>::empty());
        }
        assert(diagnostic_views(out@) =~= start + duplicate_columns(t, pre));
        i = i + 1;
    }
    assert(all.take(es@.len() as int) =~= all);
}

// ---------------------------------------------------------------------------
// Per-document entry points
// ---------------------------------------------------------------------------

/// All diagnostics found on the tree: syntax errors, then unknown column
/// types, complex-type errors and duplicate column names.
pub open spec fn tree_diagnostics(t: &SyntaxTree, source: &str) -> Seq<DiagnosticView> {
    syntax_errors_at(t, 0) + unknown_types(t, source) + complex_types(t, source)
        + duplicate_column_names(t, source)
}

/// The tree-based diagnostics of a document (none without a tree).
pub fn collect_tree_diagnostics(text: &str, tree: Option<&SyntaxTree>) -> (r: Vec<DomainDiagnostic>)
    requires
        tree matches Some(t) ==> t.fits(text),
    ensures
        tree is None ==> r@.len() == 0,
        tree matches Some(t) ==> diagnostic_views(r@) == tree_diagnostics(t, text),
{
    let mut out: Vec<DomainDiagnostic> = Vec::new();
    match tree {
        None => out,
        Some(t) => {
            assert(diagnostic_views(out@) =~= Seq::<DiagnosticView>::empty());
            collect_syntax_errors(t, 0, &mut out);
            collect_unknown_column_types(t, text, &mut out);
            collect_complex_type_violations(t, text, &mut out);
            collect_duplicate_column_names(t, text, &mut out);
            assert(diagnostic_views(out@) =~= tree_diagnostics(t, text));
            out
        },
    }
}

/// The codes of the tree checks that pin a type-shape problem down more
/// precisely than a parse error would.
pub open spec fn is_typed_code(code: Seq<char>) -> bool {
    code == "unknown-type"@ || code == "complex-type"@ || code == "duplicate-column"@
}

/// Some tree check already found a type-shape problem, so the parse error
/// for the same cause is not reported.
pub fn had_typed_pre_check(diagnostics: &[DomainDiagnostic]) -> (r: bool)
    ensures
        r == exists|i: int| 0 <= i < diagnostics@.len() && is_typed_code(
            (#[trigger] diagnostics@[i]).code@,
        ),
{
    let mut i: usize = 0;
    while i < diagnostics.len()
        invariant
            i <= diagnostics@.len(),
            forall|k: int| 0 <= k < i ==> !is_typed_code((#[trigger] diagnostics@[k]).code@),
        decreases diagnostics.len() - i,
    {
        let c = diagnostics[i].code.as_str();
        if str_eq(c, "unknown-type") || str_eq(c, "complex-type") || str_eq(c, "duplicate-column") {
            return true;
        }
        i = i + 1;
    }
    false
}

// ---------------------------------------------------------------------------
// Parse errors
// ---------------------------------------------------------------------------

/// The index just past the line that starts at `k` (past its `\n`, or
/// the end of the text).
pub open spec fn line_end(b: Seq<u8>, k: int) -> int
    decreases b.len() - k,
{
    if k < 0 || k >= b.len() {
        b.len() as int
    } else if b[k] == 10u8 {
        k + 1
    } else {
        line_end(b, k + 1)
    }
}

proof fn lemma_line_end(b: Seq<u8>, k: int)
    requires
        0 <= k < b.len(),
    ensures
        k < line_end(b, k) <= b.len(),
    decreases b.len() - k,
{
    if b[k] != 10u8 {
        if k + 1 < b.len() {
            lemma_line_end(b, k + 1);
        } else {
            assert(line_end(b, k + 1) == b.len());
        }
    }
}

/// Walks `line` lines down from byte `from`, then `col` bytes into that
/// line, never past its last byte; past the last line, the text's end.
pub open spec fn offset_from(b: Seq<u8>, from: int, line: int, col: int) -> int
    decreases b.len() - from,
{
    if from < 0 || from >= b.len() {
        b.len() as int
    } else {
        let e = line_end(b, from);
        if e <= from || e > b.len() {
            b.len() as int
        } else if line <= 0 {
            from + if col < e - from - 1 {
                col
            } else {
                e - from - 1
            }
        } else {
            offset_from(b, e, line - 1, col)
        }
    }
}

/// The byte offset of a one-based line and column.
pub open spec fn spec_byte_offset_for_line_col(b: Seq<u8>, line: int, col: int) -> int {
    offset_from(
        b,
        0,
        if line > 0 {
            line - 1
        } else {
            0
        },
        if col > 0 {
            col - 1
        } else {
            0
        },
    )
}

/// Byte offset of a one-based `line` / `col` position (as reported by the
/// JSON parser), clamped to the line's last byte and to the text.
pub fn byte_offset_for_line_col(text: &str, line: usize, col: usize) -> (r: usize)
    ensures
        r == spec_byte_offset_for_line_col(text.spec_bytes(), line as int, col as int),
        r <= text.spec_bytes().len(),
{
    let b = text.as_bytes();
    let n = b.len();
    let mut line_left = line.saturating_sub(1);
    let col_zero = col.saturating_sub(1);
    let mut from: usize = 0;
    while from < n
        invariant
            b@ == text.spec_bytes(),
            n == b@.len(),
            from <= n,
            col_zero as int == (if col > 0 { col - 1 } else { 0 }),
            spec_byte_offset_for_line_col(b@, line as int, col as int) == offset_from(
                b@,
                from as int,
                line_left as int,
                col_zero as int,
            ),
        decreases n - from,
    {
        let mut k = from;
        while k < n && b[k] != 10u8
            invariant
                b@ == text.spec_bytes(),
                n == b@.len(),
                from <= k <= n,
                from < n,
                line_end(b@, from as int) == line_end(b@, k as int),
            decreases n - k,
        {
            k = k + 1;
        }
        let e = if k < n {
            k + 1
        } else {
            n
        };
        proof {
            lemma_line_end(b@, from as int);
        }
        assert(e == line_end(b@, from as int));
        if line_left == 0 {
            let last = e - from - 1;
            let step = if col_zero < last {
                col_zero
            } else {
                last
            };
            return from + step;
        }
        line_left = line_left - 1;
        from = e;
    }
    n
}

/// The diagnostic for a parse error at byte `byte`: one byte wide, cut at
/// the end of the text.
pub fn parse_error_diagnostic(text: &str, byte: usize, message: String) -> (d: DomainDiagnostic)
    requires
        byte <= text.spec_bytes().len(),
    ensures
        d@ == (
            byte,
            if byte < text.spec_bytes().len() {
                (byte + 1) as usize
            } else {
                text.spec_bytes().len() as usize
            },
            Severity::Error,
            message@,
            "parse-error"@,
        ),
{
    let len = text.as_bytes().len();
    let end = if byte < len {
        byte + 1
    } else {
        len
    };
    error_at(byte, end, message, "parse-error")
}

// ---------------------------------------------------------------------------
// Schema validation across the workspace
// ---------------------------------------------------------------------------

/// Appends a `validate-schema` error.
pub fn push_validate_error(out: &mut Vec<DomainDiagnostic>, byte_range: Range<usize>, message: String)
    ensures
        diagnostic_views(final(out)@) == diagnostic_views(old(out)@) + seq![
            (byte_range.start, byte_range.end, Severity::Error, message@, "validate-schema"@),
        ],
{
    diag_views_push(out, error_at(byte_range.start, byte_range.end, message, "validate-schema"));
}

/// A model file of the workspace, as validation reads it.
pub struct WorkspaceTable<'a> {
    pub uri: &'a str,
    /// The table's declared name.
    pub table_name: &'a str,
    pub source: &'a str,
    pub tree: Option<&'a SyntaxTree>,
}

pub open spec fn workspace_table_ok(w: WorkspaceTable) -> bool {
    w.tree matches Some(t) ==> t.fits(w.source)
}

/// Where a validation error about `loc` is shown in the file `source`.
pub open spec fn spec_error_range(loc: ErrorLocation, tree: Option<&SyntaxTree>, source: &str) -> (
    usize,
    usize,
) {
    match opt_chars(loc.column) {
        Some(c) => match loc.field {
            Some(f) => spec_locate_column_field(tree, source, c, f),
            None => spec_locate_column(tree, source, c),
        },
        None => match opt_chars(loc.constraint) {
            Some(k) => spec_locate_constraint(tree, source, k),
            None => match tree {
                Some(t) => match spec_locate_top_name(t, source) {
                    Some(r) => r,
                    None => (0, 1),
                },
                None => (0, 1),
            },
        },
    }
}

pub fn error_range(loc: &ErrorLocation, tree: Option<&SyntaxTree>, source: &str) -> (r: Range<usize>)
    requires
        tree matches Some(t) ==> t.fits(source),
    ensures
        (r.start, r.end) == spec_error_range(*loc, tree, source),
{
    match &loc.column {
        Some(c) => match loc.field {
            Some(f) => locate_column_field(tree, source, c.as_str(), f),
            None => locate_column(tree, source, c.as_str()),
        },
        None => match &loc.constraint {
            Some(k) => locate_constraint(tree, source, k.as_str()),
            None => match locate_top_name(tree, source) {
                Some(r) => r,
                None => 0..1,
            },
        },
    }
}

/// The first workspace table named `name`.
pub open spec fn first_named_table(ws: Seq<WorkspaceTable>, name: Seq<char>) -> Option<WorkspaceTable>
    decreases ws.len(),
{
    if ws.len() == 0 {
        None
    } else if ws[0].table_name@ == name {
        Some(ws[0])
    } else {
        first_named_table(ws.drop_first(), name)
    }
}

/// The diagnostic a workspace validation error gives the file
/// `current_uri`: without a location, or when no table has the located
/// name, at `0..1`; when the located table is in another file, none;
/// otherwise at the located object.
pub open spec fn spec_workspace_error(
    ws: Seq<WorkspaceTable>,
    current_uri: Seq<char>,
    message: Seq<char>,
    loc: Option<ErrorLocation>,
) -> Option<DiagnosticView> {
    match loc {
        None => Some((0, 1, Severity::Error, message, "validate-schema"@)),
        Some(l) => match first_named_table(ws, l.table@) {
            None => Some((0, 1, Severity::Error, message, "validate-schema"@)),
            Some(target) => if target.uri@ != current_uri {
                None
            } else {
                let r = spec_error_range(l, target.tree, target.source);
                Some((r.0, r.1, Severity::Error, message, "validate-schema"@))
            },
        },
    }
}

pub fn workspace_error(
    ws: &[WorkspaceTable],
    current_uri: &str,
    message: &str,
    loc: Option<&ErrorLocation>,
) -> (r: Option<DomainDiagnostic>)
    requires
        forall|i: int| 0 <= i < ws@.len() ==> workspace_table_ok(#[trigger] ws@[i]),
    ensures
        match r {
            Some(d) => spec_workspace_error(
                ws@,
                current_uri@,
                message@,
                match loc {
                    Some(l) => Some(*l),
                    None => None,
                },
            ) == Some(d@),
            None => spec_workspace_error(
                ws@,
                current_uri@,
                message@,
                match loc {
                    Some(l) => Some(*l),
                    None => None,
                },
            ) is None,
        },
{
    let l = match loc {
        None => {
            return Some(error_at(0, 1, String::from_str(message), "validate-schema"));
        },
        Some(l) => l,
    };
    let mut i: usize = 0;
    assert(ws@.skip(0) =~= ws@);
    while i < ws.len()
        invariant
            i <= ws@.len(),
            loc == Some(l),
            forall|k: int| 0 <= k < ws@.len() ==> workspace_table_ok(#[trigger] ws@[k]),
            first_named_table(ws@, l.table@) == first_named_table(ws@.skip(i as int), l.table@),
        decreases ws.len() - i,
    {
        assert(ws@.skip(i as int)[0] == ws@[i as int]);
        assert(ws@.skip(i as int).drop_first() =~= ws@.skip(i + 1));
        if str_eq(ws[i].table_name, l.table.as_str()) {
            let target = &ws[i];
            if !str_eq(target.uri, current_uri) {
                return None;
            }
            assert(workspace_table_ok(ws@[i as int]));
            let r = error_range(l, target.tree, target.source);
            return Some(error_at(r.start, r.end, String::from_str(message), "validate-schema"));
        }
        i = i + 1;
    }
    Some(error_at(0, 1, String::from_str(message), "validate-schema"))
}

// ---------------------------------------------------------------------------
// File name and table name
// ---------------------------------------------------------------------------

pub open spec fn has_suffix(s: Seq<char>, suffix: Seq<char>) -> bool {
    s.len() >= suffix.len() && s.subrange(s.len() - suffix.len(), s.len() as int) == suffix
}

pub open spec fn drop_suffix(s: Seq<char>, suffix: Seq<char>) -> Seq<char> {
    s.subrange(0, s.len() - suffix.len())
}

/// The file name without its model extension (`.vespertide.json`,
/// `.vespertide.yaml`, `.vespertide.yml`, `.json`, `.yaml`, `.yml`; the
/// longest that applies).
pub open spec fn spec_file_basename(name: Seq<char>) -> Seq<char> {
    if has_suffix(name, ".vespertide.json"@) {
        drop_suffix(name, ".vespertide.json"@)
    } else if has_suffix(name, ".vespertide.yaml"@) {
        drop_suffix(name, ".vespertide.yaml"@)
    } else if has_suffix(name, ".vespertide.yml"@) {
        drop_suffix(name, ".vespertide.yml"@)
    } else if has_suffix(name, ".json"@) {
        drop_suffix(name, ".json"@)
    } else if has_suffix(name, ".yaml"@) {
        drop_suffix(name, ".yaml"@)
    } else if has_suffix(name, ".yml"@) {
        drop_suffix(name, ".yml"@)
    } else {
        name
    }
}

pub(crate) fn strip_suffix<'a>(s: &'a str, suffix: &str) -> (r: Option<&'a str>)
    ensures
        match r {
            Some(x) => has_suffix(s@, suffix@) && x@ == drop_suffix(s@, suffix@),
            None => !has_suffix(s@, suffix@),
        },
{
    let n = s.unicode_len();
    let m = suffix.unicode_len();
    if n < m {
        return None;
    }
    let tail = s.substring_char(n - m, n);
    if str_eq(tail, suffix) {
        Some(s.substring_char(0, n - m))
    } else {
        None
    }
}

pub fn file_basename(name: &str) -> (r: &str)
    ensures
        r@ == spec_file_basename(name@),
{
    if let Some(x) = strip_suffix(name, ".vespertide.json") {
        return x;
    }
    if let Some(x) = strip_suffix(name, ".vespertide.yaml") {
        return x;
    }
    if let Some(x) = strip_suffix(name, ".vespertide.yml") {
        return x;
    }
    if let Some(x) = strip_suffix(name, ".json") {
        return x;
    }
    if let Some(x) = strip_suffix(name, ".yaml") {
        return x;
    }
    if let Some(x) = strip_suffix(name, ".yml") {
        return x;
    }
    name
}

/// A warning when the file's base name and the declared table name differ,
/// anchored to the table name.
pub open spec fn spec_filename_mismatch(
    source: &str,
    file_name: Option<Seq<char>>,
    tree: Option<&SyntaxTree>,
    table_name: Seq<char>,
) -> Option<DiagnosticView> {
    match file_name {
        None => None,
        Some(f) => {
            let base = spec_file_basename(f);
            if base == table_name {
                None
            } else {
                let r = match tree {
                    Some(t) => match spec_locate_top_name(t, source) {
                        Some(x) => x,
                        None => (0, 1),
                    },
                    None => (0, 1),
                };
                Some(
                    (
                        r.0,
                        r.1,
                        Severity::Warning,
                        "Table name `"@ + table_name + "` does not match file basename `"@ + base
                            + "`. Rename one to keep them in sync."@,
                        "filename-mismatch"@,
                    ),
                )
            }
        },
    }
}

pub fn check_filename_table_name_mismatch(
    text: &str,
    file_name: Option<&str>,
    tree: Option<&SyntaxTree>,
    table_name: &str,
) -> (r: Option<DomainDiagnostic>)
    requires
        tree matches Some(t) ==> t.fits(text),
    ensures
        match r {
            Some(d) => spec_filename_mismatch(
                text,
                match file_name {
                    Some(f) => Some(f@),
                    None => None,
                },
                tree,
                table_name@,
            ) == Some(d@),
            None => spec_filename_mismatch(
                text,
                match file_name {
                    Some(f) => Some(f@),
                    None => None,
                },
                tree,
                table_name@,
            ) is None,
        },
{
    let f = match file_name {
        Some(f) => f,
        None => {
            return None;
        },
    };
    let base = file_basename(f);
    if str_eq(base, table_name) {
        return None;
    }
    let range = match locate_top_name(tree, text) {
        Some(x) => x,
        None => 0..1,
    };
    let mut message = cat3("Table name `", table_name, "` does not match file basename `");
    message.append(base);
    message.append("`. Rename one to keep them in sync.");
    Some(
        DomainDiagnostic {
            byte_range: range,
            severity: Severity::Warning,
            message,
            code: String::from_str("filename-mismatch"),
        },
    )
}


// ---------------------------------------------------------------------------
// Laws
// ---------------------------------------------------------------------------

/// A string column type is accepted exactly when it is one of the names
/// the unknown-type message lists as expected: every listed name (such as
/// `boolean`) passes, and anything else is reported.
pub proof fn lemma_known_types_are_the_listed_ones(s: Seq<char>)
    ensures
        is_known_simple_type(s) <==> seq![
            "small_int"@,
            "integer"@,
            "big_int"@,
            "real"@,
            "double_precision"@,
            "text"@,
            "boolean"@,
            "date"@,
            "time"@,
            "timestamp"@,
            "timestamptz"@,
            "interval"@,
            "bytea"@,
            "uuid"@,
            "json"@,
            "jsonb"@,
            "inet"@,
            "cidr"@,
            "macaddr"@,
            "xml"@
        ].contains(s),
        unknown_type_message(s) == "Unknown column type `"@ + s + "`. Expected one of: small_int, integer, big_int, real, double_precision, text, boolean, date, time, timestamp, timestamptz, interval, bytea, uuid, json, jsonb, inet, cidr, macaddr, xml \u{2014} or a complex type object such as {\"kind\":\"varchar\",\"length\":255}"@,
{
    reveal_strlit("small_int");
    reveal_strlit("integer");
    reveal_strlit("big_int");
    reveal_strlit("real");
    reveal_strlit("double_precision");
    reveal_strlit("text");
    reveal_strlit("boolean");
    reveal_strlit("date");
    reveal_strlit("time");
    reveal_strlit("timestamp");
    reveal_strlit("timestamptz");
    reveal_strlit("interval");
    reveal_strlit("bytea");
    reveal_strlit("uuid");
    reveal_strlit("json");
    reveal_strlit("jsonb");
    reveal_strlit("inet");
    reveal_strlit("cidr");
    reveal_strlit("macaddr");
    reveal_strlit("xml");
    let l = seq![
            "small_int"@,
            "integer"@,
            "big_int"@,
            "real"@,
            "double_precision"@,
            "text"@,
            "boolean"@,
            "date"@,
            "time"@,
            "timestamp"@,
            "timestamptz"@,
            "interval"@,
            "bytea"@,
            "uuid"@,
            "json"@,
            "jsonb"@,
            "inet"@,
            "cidr"@,
            "macaddr"@,
            "xml"@
        ];
    if is_known_simple_type(s) {
        if s == "small_int"@ { assert(l[0] == s); }
        if s == "integer"@ { assert(l[1] == s); }
        if s == "big_int"@ { assert(l[2] == s); }
        if s == "real"@ { assert(l[3] == s); }
        if s == "double_precision"@ { assert(l[4] == s); }
        if s == "text"@ { assert(l[5] == s); }
        if s == "boolean"@ { assert(l[6] == s); }
        if s == "date"@ { assert(l[7] == s); }
        if s == "time"@ { assert(l[8] == s); }
        if s == "timestamp"@ { assert(l[9] == s); }
        if s == "timestamptz"@ { assert(l[10] == s); }
        if s == "interval"@ { assert(l[11] == s); }
        if s == "bytea"@ { assert(l[12] == s); }
        if s == "uuid"@ { assert(l[13] == s); }
        if s == "json"@ { assert(l[14] == s); }
        if s == "jsonb"@ { assert(l[15] == s); }
        if s == "inet"@ { assert(l[16] == s); }
        if s == "cidr"@ { assert(l[17] == s); }
        if s == "macaddr"@ { assert(l[18] == s); }
        if s == "xml"@ { assert(l[19] == s); }
    }
    if l.contains(s) {
        let i = choose|i: int| 0 <= i < l.len() && l[i] == s;
        assert(is_known_simple_type(l[i]));
    }
}

} // verus!
