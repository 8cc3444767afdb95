//! Hover: a markdown summary of the column object under the cursor, or a
//! preview of the table a `foreign_key.ref_table` value refers to.

use std::ops::Range;
use vstd::prelude::*;
use crate::syntax::{SyntaxTree, StripMode, node_chars, pair_has_key, is_pair_kind, descend_to, is_pair};
use crate::locator::is_object_kind;
use crate::text::{trim, strip_quotes, str_eq, spec_trim, spec_strip_quotes};
use crate::definition::{ref_table_at, spec_ref_table_at};

verus! {

/// Markdown for the hover popup and the range to highlight.
#[derive(Debug, PartialEq, Eq)]
pub struct DomainHover {
    pub markdown: String,
    pub byte_range: Range<usize>,
}

pub open spec fn hover_view(h: DomainHover) -> (Seq<char>, (usize, usize)) {
    (h.markdown@, (h.byte_range.start, h.byte_range.end))
}

/// A constraint flag counts as set unless its value reads `false`,
/// `null`, `[]` or `{}`.
pub open spec fn spec_constraint_is_enabled(value: Seq<char>) -> bool {
    let v = spec_trim(value);
    !(v == "false"@ || v == "null"@ || v == "[]"@ || v == "{}"@)
}

pub fn constraint_is_enabled(value: &str) -> (r: bool)
    ensures
        r == spec_constraint_is_enabled(value@),
{
    let v = trim(value);
    !(str_eq(v, "false") || str_eq(v, "null") || str_eq(v, "[]") || str_eq(v, "{}"))
}

/// A value as shown: trimmed, without its quotes.
pub open spec fn spec_display_value(value: Seq<char>) -> Seq<char> {
    spec_strip_quotes(spec_trim(value))
}

pub fn display_value(value: &str) -> (r: &str)
    ensures
        r@ == spec_display_value(value@),
{
    strip_quotes(trim(value))
}

// ---------------------------------------------------------------------------
// Column hover
// ---------------------------------------------------------------------------

/// What the hover reads off a column object's pairs.
pub struct ColumnSummary {
    pub name: Option<Seq<char>>,
    pub column_type: Option<Seq<char>>,
    pub nullable: Option<bool>,
    pub default: Option<Seq<char>>,
    pub constraints: Seq<Seq<char>>,
}

pub open spec fn empty_summary() -> ColumnSummary {
    ColumnSummary { name: None, column_type: None, nullable: None, default: None, constraints: Seq::empty() }
}

/// The summary after reading child `c` of the column object; a later
/// pair with the same key overrides an earlier one.
pub open spec fn summary_step(t: &SyntaxTree, source: &str, st: ColumnSummary, c: usize) -> ColumnSummary {
    if !is_pair_kind(t.kind(c)) {
        st
    } else {
        match (t.named_child(c, 0), t.named_child(c, 1)) {
            (Some(k), Some(v)) => match (node_chars(t, source, k), node_chars(t, source, v)) {
                (Some(kt), Some(vt0)) => {
                    let key = spec_strip_quotes(kt);
                    let vt = spec_trim(vt0);
                    if key == "name"@ {
                        ColumnSummary { name: Some(spec_strip_quotes(vt)), ..st }
                    } else if key == "type"@ {
                        ColumnSummary { column_type: Some(spec_display_value(vt)), ..st }
                    } else if key == "nullable"@ {
                        ColumnSummary { nullable: Some(vt == "true"@), ..st }
                    } else if key == "default"@ {
                        ColumnSummary { default: Some(spec_display_value(vt)), ..st }
                    } else if key == "primary_key"@ && spec_constraint_is_enabled(vt) {
                        ColumnSummary { constraints: st.constraints.push("PK"@), ..st }
                    } else if key == "unique"@ && spec_constraint_is_enabled(vt) {
                        ColumnSummary { constraints: st.constraints.push("UNIQUE"@), ..st }
                    } else if key == "index"@ && spec_constraint_is_enabled(vt) {
                        ColumnSummary { constraints: st.constraints.push("INDEX"@), ..st }
                    } else if key == "foreign_key"@ && spec_constraint_is_enabled(vt) {
                        ColumnSummary { constraints: st.constraints.push("FK"@), ..st }
                    } else {
                        st
                    }
                },
                _ => st,
            },
            _ => st,
        }
    }
}

pub open spec fn summary_of(t: &SyntaxTree, source: &str, ch: Seq<usize>) -> ColumnSummary
    decreases ch.len(),
{
    if ch.len() == 0 {
        empty_summary()
    } else {
        summary_step(t, source, summary_of(t, source, ch.drop_last()), ch.last())
    }
}

/// `parts` joined with `sep`.
pub open spec fn join(parts: Seq<Seq<char>>, sep: Seq<char>) -> Seq<char>
    decreases parts.len(),
{
    if parts.len() == 0 {
        Seq::empty()
    } else if parts.len() == 1 {
        parts[0]
    } else {
        join(parts.drop_last(), sep) + sep + parts.last()
    }
}

/// The markdown of a summary that has a name and a type.
pub open spec fn summary_markdown(st: ColumnSummary) -> Option<Seq<char>> {
    match (st.name, st.column_type) {
        (Some(n), Some(ty)) => Some(
            "**"@ + n + "**: `"@ + spec_trim(ty) + "`"@ + match st.nullable {
                Some(b) => "  \nnullable: `"@ + (if b {
                    "true"@
                } else {
                    "false"@
                }) + "`"@,
                None => Seq::empty(),
            } + match st.default {
                Some(d) => "  \ndefault: `"@ + spec_trim(d) + "`"@,
                None => Seq::empty(),
            } + if st.constraints.len() > 0 {
                "  \nconstraints: "@ + join(st.constraints, ", "@)
            } else {
                Seq::empty()
            },
        ),
        _ => None,
    }
}

/// Node `i` has a proper ancestor pair whose key reads `key`.
pub open spec fn inside_pair_with_key(t: &SyntaxTree, source: &str, i: usize, key: Seq<char>) -> bool
    decreases i,
{
    match t.parent(i) {
        Some(p) => if p < i {
            pair_has_key(t, source, p, key, StripMode::Greedy) || inside_pair_with_key(t, source, p, key)
        } else {
            false
        },
        None => false,
    }
}

/// The node's range, or the fallback's when the node's is empty.
pub open spec fn highlight_range(t: &SyntaxTree, node: usize, fallback: usize) -> (usize, usize) {
    if t.start(node) >= t.end(node) {
        (t.start(fallback), t.end(fallback))
    } else {
        (t.start(node), t.end(node))
    }
}

/// Walking up from `i`: the first object inside `columns` whose pairs give
/// a name and a type.
pub open spec fn column_hover_from(t: &SyntaxTree, source: &str, node: usize, i: usize) -> Option<
    (Seq<char>, (usize, usize)),
>
    decreases i,
{
    if i >= t.len() {
        None
    } else if is_object_kind(t.kind(i)) && inside_pair_with_key(t, source, i, "columns"@)
        && summary_markdown(summary_of(t, source, t.children(i))) is Some {
        Some((summary_markdown(summary_of(t, source, t.children(i)))->0, highlight_range(t, node, i)))
    } else {
        match t.parent(i) {
            Some(p) => if p < i {
                column_hover_from(t, source, node, p)
            } else {
                None
            },
            None => None,
        }
    }
}

pub open spec fn spec_column_hover(t: &SyntaxTree, source: &str, offset: usize) -> Option<
    (Seq<char>, (usize, usize)),
> {
    let node = descend_to(t, 0, offset);
    column_hover_from(t, source, node, node)
}

pub open spec fn str_views(v: Seq<&str>) -> Seq<Seq<char>> {
    v.map_values(|s: &str| s@)
}

pub open spec fn opt_str_view(o: Option<&str>) -> Option<Seq<char>> {
    match o {
        Some(s) => Some(s@),
        None => None,
    }
}

pub(crate) fn has_ancestor_pair(t: &SyntaxTree, source: &str, i: usize, key: &str) -> (r: bool)
    requires
        t.fits(source),
        i < t.len(),
    ensures
        r == inside_pair_with_key(t, source, i, key@),
{
    let mut cur = i;
    while cur > 0
        invariant
            t.fits(source),
            cur < t.len(),
            inside_pair_with_key(t, source, i, key@) == inside_pair_with_key(t, source, cur, key@),
        decreases cur,
    {
        match t.nodes[cur].parent {
            Some(p) => {
                if t.has_key(source, p, key, StripMode::Greedy) {
                    return true;
                }
                cur = p;
            },
            None => {
                return false;
            },
        }
    }
    false
}

fn push_str<'a>(v: &mut Vec<&'a str>, s: &'a str)
    ensures
        str_views(final(v)@) == str_views(old(v)@).push(s@),
{
    let ghost prev = v@;
    v.push(s);
    assert(str_views(v@) =~= str_views(prev).push(s@));
}

/// The markdown of a column object, when it has a name and a type.
fn column_markdown(t: &SyntaxTree, source: &str, obj: usize) -> (r: Option<String>)
    requires
        t.fits(source),
        obj < t.len(),
    ensures
        match r {
            Some(m) => summary_markdown(summary_of(t, source, t.children(obj))) == Some(m@),
            None => summary_markdown(summary_of(t, source, t.children(obj))) is None,
        },
{
    let ch = &t.nodes[obj].children;
    let mut name: Option<&str> = None;
    let mut column_type: Option<&str> = None;
    let mut nullable: Option<bool> = None;
    let mut default: Option<&str> = None;
    let mut constraints: Vec<&str> = Vec::new();
    let mut i: usize = 0;
    assert(ch@.take(0) =~= Seq::<usize>::empty());
    assert(str_views(constraints@) =~= Seq::<Seq<char>>::empty());
    while i < ch.len()
        invariant
            t.fits(source),
            obj < t.len(),
            ch@ == t.children(obj),
            i <= ch@.len(),
            summary_of(t, source, ch@.take(i as int)) == (ColumnSummary {
                name: opt_str_view(name),
                column_type: opt_str_view(column_type),
                nullable: nullable,
                default: opt_str_view(default),
                constraints: str_views(constraints@),
            }),
        decreases ch.len() - i,
    {
        let c = ch[i];
        assert(t.nodes@[obj as int].children@[i as int] == c);
        let ghost pre = ch@.take(i + 1);
        assert(pre.drop_last() =~= ch@.take(i as int));
        if is_pair(t.nodes[c].kind) {
            match (t.get_named_child(c, 0), t.get_named_child(c, 1)) {
                (Some(k), Some(v)) => match (t.node_str(source, k), t.node_str(source, v)) {
                    (Some(kt), Some(vt0)) => {
                        let key = strip_quotes(kt);
                        let vt = trim(vt0);
                        if str_eq(key, "name") {
                            name = Some(strip_quotes(vt));
                        } else if str_eq(key, "type") {
                            column_type = Some(display_value(vt));
                        } else if str_eq(key, "nullable") {
                            nullable = Some(str_eq(vt, "true"));
                        } else if str_eq(key, "default") {
                            default = Some(display_value(vt));
                        } else if str_eq(key, "primary_key") && constraint_is_enabled(vt) {
                            push_str(&mut constraints, "PK");
                        } else if str_eq(key, "unique") && constraint_is_enabled(vt) {
                            push_str(&mut constraints, "UNIQUE");
                        } else if str_eq(key, "index") && constraint_is_enabled(vt) {
                            push_str(&mut constraints, "INDEX");
                        } else if str_eq(key, "foreign_key") && constraint_is_enabled(vt) {
                            push_str(&mut constraints, "FK");
                        }
                    },
                    _ => {},
                },
                _ => {},
            }
        }
        i = i + 1;
    }
    assert(ch@.take(ch@.len() as int) =~= ch@);
    let (n, ty) = match (name, column_type) {
        (Some(n), Some(ty)) => (n, ty),
        _ => {
            return None;
        },
    };
    let mut md = String::from_str("**");
    md.append(n);
    md.append("**: `");
    md.append(trim(ty));
    md.append("`");
    let ghost head = md@;
    match nullable {
        Some(b) => {
            md.append("  \nnullable: `");
            md.append(if b { "true" } else { "false" });
            md.append("`");
        },
        None => {},
    }
    let ghost with_nullable = md@;
    match default {
        Some(d) => {
            md.append("  \ndefault: `");
            md.append(trim(d));
            md.append("`");
        },
        None => {},
    }
    let ghost with_default = md@;
    if constraints.len() > 0 {
        md.append("  \nconstraints: ");
        let ghost before_join = md@;
        let mut j: usize = 0;
        while j < constraints.len()
            invariant
                0 < constraints@.len(),
                j <= constraints@.len(),
                md@ == before_join + if j == 0 {
                    Seq::<char>::empty()
                } else {
                    join(str_views(constraints@).take(j as int), ", "@)
                },
            decreases constraints.len() - j,
        {
            let ghost cs = str_views(constraints@);
            assert(cs.take(j + 1).drop_last() =~= cs.take(j as int));
            assert(cs.take(j + 1).last() == constraints@[j as int]@);
            if j > 0 {
                md.append(", ");
            }
            md.append(constraints[j]);
            proof {
                if j == 0 {
                    assert(cs.take(1) =~= seq![cs[0]]);
                }
            }
            j = j + 1;
        }
        assert(str_views(constraints@).take(constraints@.len() as int) =~= str_views(constraints@));
    }
    proof {
        let st = summary_of(t, source, t.children(obj));
        assert(head == "**"@ + n@ + "**: `"@ + spec_trim(ty@) + "`"@);
        assert(with_nullable == head + match st.nullable {
            Some(b) => "  \nnullable: `"@ + (if b {
                "true"@
            } else {
                "false"@
            }) + "`"@,
            None => Seq::empty(),
        });
    }
    assert(md@ =~= summary_markdown(summary_of(t, source, t.children(obj)))->0);
    Some(md)
}

/// The column hover at `offset`.
pub fn column_hover(t: &SyntaxTree, source: &str, offset: usize) -> (r: Option<DomainHover>)
    requires
        t.fits(source),
    ensures
        match r {
            Some(h) => spec_column_hover(t, source, offset) == Some(hover_view(h)),
            None => spec_column_hover(t, source, offset) is None,
        },
{
    let node = t.node_at_byte(offset);
    let mut cur = node;
    loop
        invariant
            t.fits(source),
            cur < t.len(),
            node < t.len(),
            node == descend_to(t, 0, offset),
            column_hover_from(t, source, node, node) == column_hover_from(t, source, node, cur),
        decreases cur,
    {
        let kind = t.nodes[cur].kind;
        if matches!(kind, crate::syntax::NodeKind::Object | crate::syntax::NodeKind::BlockMapping)
            && has_ancestor_pair(t, source, cur, "columns") {
            match column_markdown(t, source, cur) {
                Some(markdown) => {
                    let range = if t.nodes[node].start >= t.nodes[node].end {
                        t.nodes[cur].start..t.nodes[cur].end
                    } else {
                        t.nodes[node].start..t.nodes[node].end
                    };
                    return Some(DomainHover { markdown, byte_range: range });
                },
                None => {},
            }
        }
        match t.nodes[cur].parent {
            Some(p) => {
                cur = p;
            },
            None => {
                return None;
            },
        }
    }
}

// ---------------------------------------------------------------------------
// Foreign-key hover
// ---------------------------------------------------------------------------

/// What the workspace knows of the table a `ref_table` names.
pub enum TargetTable {
    /// The table is open in the editor; its column names when its text
    /// parses as a table.
    Open { columns: Option<Vec<String>> },
    /// The table is only on disk.
    OnDisk { columns: Vec<String> },
    NotFound,
}

pub open spec fn string_views(v: Seq<String>) -> Seq<Seq<char>> {
    v.map_values(|s: String| s@)
}

pub open spec fn column_summary(columns: Seq<Seq<char>>) -> Seq<char> {
    "columns: "@ + join(columns, ", "@)
}

pub open spec fn spec_target_markdown(name: Seq<char>, target: TargetTable) -> Seq<char> {
    match target {
        TargetTable::Open { columns } => "**Target table**: `"@ + name + "`\n\n"@ + match columns {
            Some(c) => column_summary(string_views(c@)),
            None => "_columns unavailable_"@,
        },
        TargetTable::OnDisk { columns } => "**Target table**: `"@ + name + "` _(on disk)_\n\n"@
            + column_summary(string_views(columns@)),
        TargetTable::NotFound => "**Target table**: `"@ + name
            + "`\n\n\u{26a0} table not found in workspace"@,
    }
}

fn append_joined(md: &mut String, parts: &Vec<String>)
    ensures
        final(md)@ == old(md)@ + join(string_views(parts@), ", "@),
{
    let ghost start = md@;
    let ghost all = string_views(parts@);
    let mut j: usize = 0;
    assert(all.take(0) =~= Seq::<Seq<char>>::empty());
    assert(start =~= start + Seq::<char>::empty());
    while j < parts.len()
        invariant
            all == string_views(parts@),
            j <= parts@.len(),
            md@ == start + join(all.take(j as int), ", "@),
        decreases parts.len() - j,
    {
        assert(all.take(j + 1).drop_last() =~= all.take(j as int));
        assert(all.take(j + 1).last() == parts@[j as int]@);
        if j > 0 {
            md.append(", ");
        } else {
            assert(all.take(1) =~= seq![all[0]]);
        }
        md.append(parts[j].as_str());
        j = j + 1;
    }
    assert(all.take(parts@.len() as int) =~= all);
}

/// The preview of the table named `name`.
pub fn foreign_key_markdown(name: &str, target: &TargetTable) -> (r: String)
    ensures
        r@ == spec_target_markdown(name@, *target),
{
    let mut md = String::from_str("**Target table**: `");
    md.append(name);
    match target {
        TargetTable::Open { columns } => {
            md.append("`\n\n");
            match columns {
                Some(c) => {
                    md.append("columns: ");
                    append_joined(&mut md, c);
                },
                None => {
                    md.append("_columns unavailable_");
                },
            }
        },
        TargetTable::OnDisk { columns } => {
            md.append("` _(on disk)_\n\n");
            md.append("columns: ");
            append_joined(&mut md, columns);
        },
        TargetTable::NotFound => {
            md.append("`\n\n\u{26a0} table not found in workspace");
        },
    }
    md
}

/// The hover at `offset`: on a `ref_table` value, the preview of the
/// target table (`target` says what the workspace knows of the table that
/// `definition::ref_table_at` names); elsewhere, the column summary.
pub open spec fn spec_compute(
    source: &str,
    tree: Option<&SyntaxTree>,
    offset: usize,
    target: TargetTable,
) -> Option<(Seq<char>, (usize, usize))> {
    match tree {
        None => None,
        Some(t) => match spec_ref_table_at(t, source, offset) {
            Some((name, range)) => Some((spec_target_markdown(name, target), range)),
            None => spec_column_hover(t, source, offset),
        },
    }
}

pub fn compute(source: &str, tree: Option<&SyntaxTree>, offset: usize, target: &TargetTable) -> (r:
    Option<DomainHover>)
    requires
        tree matches Some(t) ==> t.fits(source),
    ensures
        match r {
            Some(h) => spec_compute(source, tree, offset, *target) == Some(hover_view(h)),
            None => spec_compute(source, tree, offset, *target) is None,
        },
{
    let t = match tree {
        Some(t) => t,
        None => {
            return None;
        },
    };
    match ref_table_at(t, source, offset) {
        Some((name, range)) => Some(
            DomainHover { markdown: foreign_key_markdown(name, target), byte_range: range },
        ),
        None => column_hover(t, source, offset),
    }
}

} // verus!
