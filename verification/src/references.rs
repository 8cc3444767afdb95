//! Find-references for tables and columns: which symbol the cursor is on,
//! and every place in the workspace's model files that names it.

use std::ops::Range;
use vstd::prelude::*;
use vstd::string::*;
use vstd::seq_lib::*;
use crate::syntax::{
    SyntaxTree, StripMode, is_pair_kind, is_mapping_kind, is_wrapper_kind, is_pair, is_mapping,
    is_wrapper, node_chars, stripped_text, pair_has_key, descend_to,
};
use crate::rename::{spec_enclosing_string, enclosing_string, spec_inner_content_range, inner_content_range};
use crate::text::{spec_strip_quotes, strip_quotes, str_eq, utf8_str};
use crate::check_expr::{CheckToken, CheckTokenKind, span_text, span_str};
use crate::code_actions::{spec_expr_inner_range, expr_inner_range};
use crate::syntax::{find_pair, is_string_scalar_kind, is_string_scalar};
use crate::naming::{
    name_le, names_le, lemma_name_le_refl, lemma_name_le_total, lemma_name_le_antisym,
    lemma_name_le_trans,
};

verus! {

/// The symbol a reference search is about.
#[derive(Debug)]
pub enum ReferenceSymbol {
    /// A table, by name.
    Table { name: String },
    /// A column of a table.
    Column { table: String, column: String },
}

pub enum ReferenceSymbolView {
    Table { name: Seq<char> },
    Column { table: Seq<char>, column: Seq<char> },
}

impl View for ReferenceSymbol {
    type V = ReferenceSymbolView;

    open spec fn view(&self) -> ReferenceSymbolView {
        match self {
            ReferenceSymbol::Table { name } => ReferenceSymbolView::Table { name: name@ },
            ReferenceSymbol::Column { table, column } => ReferenceSymbolView::Column {
                table: table@,
                column: column@,
            },
        }
    }
}

impl ReferenceSymbol {
    /// The name a rename replaces: the table's or the column's.
    pub fn current_name(&self) -> (r: &str)
        ensures
            r@ == symbol_name(self@),
    {
        match self {
            ReferenceSymbol::Table { name } => name.as_str(),
            ReferenceSymbol::Column { column, .. } => column.as_str(),
        }
    }
}

pub open spec fn symbol_name(s: ReferenceSymbolView) -> Seq<char> {
    match s {
        ReferenceSymbolView::Table { name } => name,
        ReferenceSymbolView::Column { column, .. } => column,
    }
}

// ---------------------------------------------------------------------------
// Walks towards the root
// ---------------------------------------------------------------------------

/// The first pair among the proper ancestors of `i`.
pub open spec fn enclosing_pair_of(t: &SyntaxTree, i: usize) -> Option<usize>
    decreases i,
{
    match t.parent(i) {
        Some(p) => if p < i {
            if is_pair_kind(t.kind(p)) {
                Some(p)
            } else {
                enclosing_pair_of(t, p)
            }
        } else {
            None
        },
        None => None,
    }
}

/// Neither `i` nor any of its ancestors is a mapping.
pub open spec fn no_mapping_from(t: &SyntaxTree, i: usize) -> bool
    decreases i,
{
    !is_mapping_kind(t.kind(i)) && match t.parent(i) {
        Some(p) => if p < i {
            no_mapping_from(t, p)
        } else {
            true
        },
        None => true,
    }
}

/// A pair directly inside the document's outermost mapping: its parent is
/// a mapping with no mapping above it.
pub open spec fn is_top_level_pair(t: &SyntaxTree, pair: usize) -> bool {
    match t.parent(pair) {
        None => false,
        Some(m) => is_mapping_kind(t.kind(m)) && match t.parent(m) {
            None => true,
            Some(p) => p < m && no_mapping_from(t, p),
        },
    }
}

/// The outermost mapping among `i` and its ancestors, or `acc` when there
/// is none.
pub open spec fn outermost_mapping_from(t: &SyntaxTree, i: usize, acc: Option<usize>) -> Option<
    usize,
>
    decreases i,
{
    let acc2 = if is_mapping_kind(t.kind(i)) {
        Some(i)
    } else {
        acc
    };
    match t.parent(i) {
        Some(p) => if p < i {
            outermost_mapping_from(t, p, acc2)
        } else {
            acc2
        },
        None => acc2,
    }
}

/// The outermost mapping among the proper ancestors of `i`.
pub open spec fn outermost_mapping_above(t: &SyntaxTree, i: usize) -> Option<usize> {
    match t.parent(i) {
        Some(p) => if p < i {
            outermost_mapping_from(t, p, None)
        } else {
            None
        },
        None => None,
    }
}

/// Goes up from `i` past YAML wrapper nodes.
pub open spec fn skip_wrappers_up(t: &SyntaxTree, i: usize) -> Option<usize>
    decreases i,
{
    if is_wrapper_kind(t.kind(i)) {
        match t.parent(i) {
            Some(p) => if p < i {
                skip_wrappers_up(t, p)
            } else {
                None
            },
            None => None,
        }
    } else {
        Some(i)
    }
}

fn enclosing_pair(t: &SyntaxTree, i: usize) -> (r: Option<usize>)
    requires
        t.wf(),
        i < t.len(),
    ensures
        r == enclosing_pair_of(t, i),
        r matches Some(p) ==> p < t.len(),
{
    let mut cur = i;
    loop
        invariant
            t.wf(),
            cur < t.len(),
            enclosing_pair_of(t, i) == enclosing_pair_of(t, cur),
        decreases cur,
    {
        match t.nodes[cur].parent {
            Some(p) => {
                if is_pair(t.nodes[p].kind) {
                    return Some(p);
                }
                cur = p;
            },
            None => {
                return None;
            },
        }
    }
}

fn no_mapping_up(t: &SyntaxTree, i: usize) -> (r: bool)
    requires
        t.wf(),
        i < t.len(),
    ensures
        r == no_mapping_from(t, i),
{
    let mut cur = i;
    loop
        invariant
            t.wf(),
            cur < t.len(),
            no_mapping_from(t, i) == no_mapping_from(t, cur),
        decreases cur,
    {
        if is_mapping(t.nodes[cur].kind) {
            return false;
        }
        match t.nodes[cur].parent {
            Some(p) => {
                cur = p;
            },
            None => {
                return true;
            },
        }
    }
}

fn top_level_pair(t: &SyntaxTree, pair: usize) -> (r: bool)
    requires
        t.wf(),
        pair < t.len(),
    ensures
        r == is_top_level_pair(t, pair),
{
    match t.nodes[pair].parent {
        None => false,
        Some(m) => {
            if !is_mapping(t.nodes[m].kind) {
                return false;
            }
            match t.nodes[m].parent {
                None => true,
                Some(p) => no_mapping_up(t, p),
            }
        },
    }
}

fn outermost_mapping(t: &SyntaxTree, i: usize) -> (r: Option<usize>)
    requires
        t.wf(),
        i < t.len(),
    ensures
        r == outermost_mapping_above(t, i),
        r matches Some(m) ==> m < t.len(),
{
    let mut cur = match t.nodes[i].parent {
        Some(p) => p,
        None => {
            return None;
        },
    };
    let mut acc: Option<usize> = None;
    loop
        invariant
            t.wf(),
            cur < t.len(),
            acc matches Some(m) ==> m < t.len(),
            outermost_mapping_above(t, i) == outermost_mapping_from(t, cur, acc),
        decreases cur,
    {
        if is_mapping(t.nodes[cur].kind) {
            acc = Some(cur);
        }
        match t.nodes[cur].parent {
            Some(p) => {
                cur = p;
            },
            None => {
                return acc;
            },
        }
    }
}

fn skip_up(t: &SyntaxTree, i: usize) -> (r: Option<usize>)
    requires
        t.wf(),
        i < t.len(),
    ensures
        r == skip_wrappers_up(t, i),
        r matches Some(m) ==> m < t.len(),
{
    let mut cur = i;
    while is_wrapper(t.nodes[cur].kind)
        invariant
            t.wf(),
            cur < t.len(),
            skip_wrappers_up(t, i) == skip_wrappers_up(t, cur),
        decreases cur,
    {
        match t.nodes[cur].parent {
            Some(p) => {
                cur = p;
            },
            None => {
                return None;
            },
        }
    }
    Some(cur)
}


// ---------------------------------------------------------------------------
// Looking up a mapping's pairs
// ---------------------------------------------------------------------------

/// The owning table's name as the resolver reads it: the value text of the
/// first `name` pair among `ch`; a pair without a readable key, or a
/// `name` pair without a readable value, ends the search with nothing.
pub open spec fn table_name_in(t: &SyntaxTree, source: &str, ch: Seq<usize>) -> Option<Seq<char>>
    decreases ch.len(),
{
    if ch.len() == 0 {
        None
    } else if is_pair_kind(t.kind(ch[0])) {
        match t.named_child(ch[0], 0) {
            None => None,
            Some(k) => match stripped_text(t, source, k, StripMode::Greedy) {
                None => None,
                Some(kt) => if kt == "name"@ {
                    match t.named_child(ch[0], 1) {
                        None => None,
                        Some(v) => stripped_text(t, source, v, StripMode::Greedy),
                    }
                } else {
                    table_name_in(t, source, ch.drop_first())
                },
            },
        }
    } else {
        table_name_in(t, source, ch.drop_first())
    }
}

/// The name of the table that owns `pair`: read from the outermost
/// mapping above it.
pub open spec fn enclosing_table_name(t: &SyntaxTree, source: &str, pair: usize) -> Option<
    Seq<char>,
> {
    match outermost_mapping_above(t, pair) {
        None => None,
        Some(o) => table_name_in(t, source, t.children(o)),
    }
}

/// The raw value text of the first pair among `ch` with key `key` whose
/// value exists and reads as text.
pub open spec fn first_valued_pair_text(t: &SyntaxTree, source: &str, ch: Seq<usize>, key: Seq<char>) -> Option<
    Seq<char>,
>
    decreases ch.len(),
{
    if ch.len() == 0 {
        None
    } else {
        let hit = if pair_has_key(t, source, ch[0], key, StripMode::Greedy) {
            match t.named_child(ch[0], 1) {
                Some(v) => node_chars(t, source, v),
                None => None,
            }
        } else {
            None
        };
        match hit {
            Some(x) => Some(x),
            None => first_valued_pair_text(t, source, ch.drop_first(), key),
        }
    }
}

fn table_name_of<'a>(t: &SyntaxTree, source: &'a str, pair: usize) -> (r: Option<&'a str>)
    requires
        t.fits(source),
        pair < t.len(),
    ensures
        (r is Some) == (enclosing_table_name(t, source, pair) is Some),
        r matches Some(s) ==> enclosing_table_name(t, source, pair) == Some(s@),
{
    let o = match outermost_mapping(t, pair) {
        Some(o) => o,
        None => {
            return None;
        },
    };
    let ch = &t.nodes[o].children;
    let ghost all = ch@;
    let mut i: usize = 0;
    assert(all.skip(0) =~= all);
    while i < ch.len()
        invariant
            t.fits(source),
            o < t.len(),
            ch@ == t.children(o),
            all == ch@,
            i <= ch@.len(),
            outermost_mapping_above(t, pair) == Some(o),
            table_name_in(t, source, all) == table_name_in(t, source, all.skip(i as int)),
        decreases ch.len() - i,
    {
        let c = ch[i];
        assert(t.nodes@[o as int].children@[i as int] == c);
        assert(all.skip(i as int)[0] == c);
        assert(all.skip(i as int).drop_first() =~= all.skip(i + 1));
        if is_pair(t.nodes[c].kind) {
            let k = match t.get_named_child(c, 0) {
                Some(k) => k,
                None => {
                    assert(table_name_in(t, source, all.skip(i as int)) is None);
                    return None;
                },
            };
            let kt = match t.stripped(source, k, StripMode::Greedy) {
                Some(x) => x,
                None => {
                    assert(table_name_in(t, source, all.skip(i as int)) is None);
                    return None;
                },
            };
            if str_eq(kt, "name") {
                return match t.get_named_child(c, 1) {
                    Some(v) => t.stripped(source, v, StripMode::Greedy),
                    None => None,
                };
            }
        }
        i = i + 1;
    }
    None
}

fn valued_pair_text<'a>(t: &SyntaxTree, source: &'a str, obj: usize, key: &str) -> (r: Option<
    &'a str,
>)
    requires
        t.fits(source),
        obj < t.len(),
    ensures
        (r is Some) == (first_valued_pair_text(t, source, t.children(obj), key@) is Some),
        r matches Some(s) ==> first_valued_pair_text(t, source, t.children(obj), key@) == Some(s@),
{
    let ch = &t.nodes[obj].children;
    let ghost all = ch@;
    let mut i: usize = 0;
    assert(all.skip(0) =~= all);
    while i < ch.len()
        invariant
            t.fits(source),
            obj < t.len(),
            ch@ == t.children(obj),
            all == ch@,
            i <= ch@.len(),
            first_valued_pair_text(t, source, all, key@) == first_valued_pair_text(
                t,
                source,
                all.skip(i as int),
                key@,
            ),
        decreases ch.len() - i,
    {
        let c = ch[i];
        assert(t.nodes@[obj as int].children@[i as int] == c);
        assert(all.skip(i as int)[0] == c);
        assert(all.skip(i as int).drop_first() =~= all.skip(i + 1));
        if t.has_key(source, c, key, StripMode::Greedy) {
            match t.get_named_child(c, 1) {
                Some(v) => match t.node_str(source, v) {
                    Some(x) => {
                        return Some(x);
                    },
                    None => {},
                },
                None => {},
            }
        }
        i = i + 1;
    }
    None
}

// ---------------------------------------------------------------------------
// The symbol under the cursor
// ---------------------------------------------------------------------------

/// What the value `text` of string `s` inside `pair` names, by the pair's
/// key: `name` of the table itself or `ref_table` name a table; `name` of a
/// column, and an element of `ref_columns`, name a column of a table.
pub open spec fn symbol_of_pair(
    t: &SyntaxTree,
    source: &str,
    s: usize,
    text: Seq<char>,
    pair: usize,
) -> Option<ReferenceSymbolView> {
    match t.named_child(pair, 0) {
        None => None,
        Some(k) => match stripped_text(t, source, k, StripMode::Greedy) {
            None => None,
            Some(kt) => match t.named_child(pair, 1) {
                None => None,
                Some(v) => if !(t.start(v) <= t.start(s) < t.end(v)) {
                    None
                } else if kt == "name"@ && is_top_level_pair(t, pair) {
                    Some(ReferenceSymbolView::Table { name: text })
                } else if kt == "ref_table"@ {
                    Some(ReferenceSymbolView::Table { name: text })
                } else if kt == "name"@ {
                    match enclosing_table_name(t, source, pair) {
                        Some(table) => Some(ReferenceSymbolView::Column { table, column: text }),
                        None => None,
                    }
                } else if kt == "ref_columns"@ {
                    match t.parent(pair) {
                        None => None,
                        Some(po) => match skip_wrappers_up(t, po) {
                            None => None,
                            Some(fk) => match first_valued_pair_text(
                                t,
                                source,
                                t.children(fk),
                                "ref_table"@,
                            ) {
                                None => None,
                                Some(rt) => Some(
                                    ReferenceSymbolView::Column {
                                        table: spec_strip_quotes(rt),
                                        column: text,
                                    },
                                ),
                            },
                        },
                    }
                } else {
                    None
                },
            },
        },
    }
}

/// The symbol under `offset`: the string scalar there, unquoted and not
/// empty, read as the value of its enclosing pair.
pub open spec fn spec_resolve_symbol(t: &SyntaxTree, source: &str, offset: usize) -> Option<
    ReferenceSymbolView,
> {
    match spec_enclosing_string(t, descend_to(t, 0, offset)) {
        None => None,
        Some(s) => match node_chars(t, source, s) {
            None => None,
            Some(raw) => {
                let text = spec_strip_quotes(raw);
                if text.len() == 0 {
                    None
                } else {
                    match enclosing_pair_of(t, s) {
                        None => None,
                        Some(pair) => symbol_of_pair(t, source, s, text, pair),
                    }
                }
            },
        },
    }
}

pub open spec fn opt_symbol_view(r: Option<ReferenceSymbol>) -> Option<ReferenceSymbolView> {
    match r {
        Some(s) => Some(s@),
        None => None,
    }
}

fn symbol_at_pair(t: &SyntaxTree, source: &str, s: usize, text: &str, pair: usize) -> (r: Option<
    ReferenceSymbol,
>)
    requires
        t.fits(source),
        s < t.len(),
        pair < t.len(),
    ensures
        opt_symbol_view(r) == symbol_of_pair(t, source, s, text@, pair),
{
    let k = match t.get_named_child(pair, 0) {
        Some(k) => k,
        None => {
            return None;
        },
    };
    let kt = match t.stripped(source, k, StripMode::Greedy) {
        Some(x) => x,
        None => {
            return None;
        },
    };
    let v = match t.get_named_child(pair, 1) {
        Some(v) => v,
        None => {
            return None;
        },
    };
    if !(t.nodes[v].start <= t.nodes[s].start && t.nodes[s].start < t.nodes[v].end) {
        return None;
    }
    let is_name = str_eq(kt, "name");
    if is_name && top_level_pair(t, pair) {
        return Some(ReferenceSymbol::Table { name: String::from_str(text) });
    }
    if str_eq(kt, "ref_table") {
        return Some(ReferenceSymbol::Table { name: String::from_str(text) });
    }
    if is_name {
        return match table_name_of(t, source, pair) {
            Some(table) => Some(
                ReferenceSymbol::Column {
                    table: String::from_str(table),
                    column: String::from_str(text),
                },
            ),
            None => None,
        };
    }
    if str_eq(kt, "ref_columns") {
        let po = match t.nodes[pair].parent {
            Some(po) => po,
            None => {
                return None;
            },
        };
        let fk = match skip_up(t, po) {
            Some(fk) => fk,
            None => {
                return None;
            },
        };
        return match valued_pair_text(t, source, fk, "ref_table") {
            Some(rt) => Some(
                ReferenceSymbol::Column {
                    table: String::from_str(strip_quotes(rt)),
                    column: String::from_str(text),
                },
            ),
            None => None,
        };
    }
    None
}

/// The table or column whose name is under the cursor; `None` when the
/// cursor is not on such a name (or there is no tree).
pub fn resolve_symbol(source: &str, tree: Option<&SyntaxTree>, offset: usize) -> (r: Option<
    ReferenceSymbol,
>)
    requires
        tree matches Some(t) ==> t.fits(source),
    ensures
        tree is None ==> r is None,
        tree matches Some(t) ==> opt_symbol_view(r) == spec_resolve_symbol(t, source, offset),
{
    let t = match tree {
        Some(t) => t,
        None => {
            return None;
        },
    };
    let node = t.node_at_byte(offset);
    let s = match enclosing_string(t, node) {
        Some(s) => s,
        None => {
            return None;
        },
    };
    let raw = match t.node_str(source, s) {
        Some(raw) => raw,
        None => {
            return None;
        },
    };
    let text = strip_quotes(raw);
    if text.unicode_len() == 0 {
        return None;
    }
    match enclosing_pair(t, s) {
        Some(pair) => symbol_at_pair(t, source, s, text, pair),
        None => None,
    }
}


// ---------------------------------------------------------------------------
// Occurrences in one document
// ---------------------------------------------------------------------------

/// One occurrence of a symbol: a byte range of a document.
#[derive(Debug, PartialEq, Eq)]
pub struct DomainReference {
    pub uri: String,
    pub byte_range: Range<usize>,
}

pub type ReferenceView = (Seq<char>, usize, usize);

impl View for DomainReference {
    type V = ReferenceView;

    open spec fn view(&self) -> ReferenceView {
        (self.uri@, self.byte_range.start, self.byte_range.end)
    }
}

pub open spec fn reference_views(v: Seq<DomainReference>) -> Seq<ReferenceView> {
    v.map_values(|r: DomainReference| r@)
}

/// The CHECK lexer's tokens for the expression whose inner range starts at
/// `inner_start` in its document.
#[derive(Debug)]
pub struct CheckExprTokens {
    pub inner_start: usize,
    pub tokens: Vec<CheckToken>,
}

/// What a search looks for, and in which document.
pub struct RefSearch {
    pub sym: ReferenceSymbolView,
    pub include_declaration: bool,
    pub uri: Seq<char>,
    pub lexed: Seq<CheckExprTokens>,
}

/// The tokens lexed for the expression starting at `start`: those of the
/// first entry for it, none when there is no entry.
pub open spec fn tokens_at(lexed: Seq<CheckExprTokens>, start: usize) -> Seq<CheckToken>
    decreases lexed.len(),
{
    if lexed.len() == 0 {
        Seq::empty()
    } else if lexed[0].inner_start == start {
        lexed[0].tokens@
    } else {
        tokens_at(lexed.drop_first(), start)
    }
}

/// A YAML wrapper peeled once: its first named child, or itself.
pub open spec fn peel(t: &SyntaxTree, v: usize) -> usize {
    if is_wrapper_kind(t.kind(v)) {
        match t.named_child(v, 0) {
            Some(c) => c,
            None => v,
        }
    } else {
        v
    }
}

/// The (peeled) value reads `expected` once unquoted.
pub open spec fn value_matches(t: &SyntaxTree, source: &str, v: usize, expected: Seq<char>) -> bool {
    match node_chars(t, source, peel(t, v)) {
        Some(x) => spec_strip_quotes(x) == expected,
        None => false,
    }
}

/// A reference to the content of the (peeled) value `v`.
pub open spec fn value_ref(q: RefSearch, t: &SyntaxTree, v: usize) -> ReferenceView {
    let r = spec_inner_content_range(t, peel(t, v));
    (q.uri, r.0, r.1)
}

/// The unquoted value text of the first pair of `obj` with key `key`.
pub open spec fn pair_value_stripped(t: &SyntaxTree, source: &str, obj: usize, key: Seq<char>) -> Option<
    Seq<char>,
> {
    match find_pair(t, source, obj, key, StripMode::Greedy) {
        None => None,
        Some(p) => match t.named_child(p, 1) {
            None => None,
            Some(v) => match node_chars(t, source, peel(t, v)) {
                None => None,
                Some(x) => Some(spec_strip_quotes(x)),
            },
        },
    }
}

/// The mapping that holds `pair`, looking through a YAML wrapper.
pub open spec fn holding_object(t: &SyntaxTree, pair: usize) -> Option<usize> {
    match t.parent(pair) {
        None => None,
        Some(raw) => if is_wrapper_kind(t.kind(raw)) {
            t.named_child(raw, 0)
        } else {
            Some(raw)
        },
    }
}

/// The first pair of `obj` with key `key` has a value that reads
/// `expected`.
pub open spec fn first_pair_value_matches(
    t: &SyntaxTree,
    source: &str,
    obj: usize,
    key: Seq<char>,
    expected: Seq<char>,
) -> bool {
    match find_pair(t, source, obj, key, StripMode::Greedy) {
        None => false,
        Some(p) => match t.named_child(p, 1) {
            None => false,
            Some(v) => value_matches(t, source, v, expected),
        },
    }
}

/// The `ref_columns` pair's foreign key names table `table`.
pub open spec fn sibling_ref_table_matches(t: &SyntaxTree, source: &str, pair: usize, table: Seq<char>) -> bool {
    match holding_object(t, pair) {
        None => false,
        Some(fk) => first_pair_value_matches(t, source, fk, "ref_table"@, table),
    }
}

/// A `name` pair of a column object (a mapping that is not the outermost
/// one) whose table's `name` reads `table`.
pub open spec fn is_column_pair(t: &SyntaxTree, source: &str, pair: usize, table: Seq<char>) -> bool {
    match t.parent(pair) {
        None => false,
        Some(co) => is_mapping_kind(t.kind(co)) && match outermost_mapping_above(t, co) {
            None => false,
            Some(o) => o != co && first_pair_value_matches(t, source, o, "name"@, table),
        },
    }
}

/// The `expr` pair sits in a constraint object whose `type` is `check`.
pub open spec fn is_check_constraint_pair(t: &SyntaxTree, source: &str, pair: usize) -> bool {
    match holding_object(t, pair) {
        None => false,
        Some(obj) => pair_value_stripped(t, source, obj, "type"@) == Some("check"@),
    }
}

/// The name of the table whose outermost mapping holds `node`.
pub open spec fn outer_table_name(t: &SyntaxTree, source: &str, node: usize) -> Option<Seq<char>> {
    match outermost_mapping_above(t, node) {
        None => None,
        Some(o) => pair_value_stripped(t, source, o, "name"@),
    }
}

/// The column tokens among `toks` whose text in `expr` is `column`, as
/// references shifted by `base`.
pub open spec fn column_token_refs(
    q: RefSearch,
    expr: Seq<u8>,
    base: usize,
    toks: Seq<CheckToken>,
    column: Seq<char>,
) -> Seq<ReferenceView>
    decreases toks.len(),
{
    if toks.len() == 0 {
        Seq::empty()
    } else {
        let rest = column_token_refs(q, expr, base, toks.drop_last(), column);
        let tok = toks.last();
        if tok.kind == CheckTokenKind::Column && span_text(expr, tok.span) == Some(column) {
            rest.push((q.uri, (base + tok.span.start) as usize, (base + tok.span.end) as usize))
        } else {
            rest
        }
    }
}

/// References to `column` inside the CHECK expression value `v`.
pub open spec fn check_expr_refs(
    q: RefSearch,
    t: &SyntaxTree,
    source: &str,
    v: usize,
    column: Seq<char>,
) -> Seq<ReferenceView> {
    match spec_expr_inner_range(t, v) {
        None => Seq::empty(),
        Some((a, b)) => {
            let expr = source.spec_bytes().subrange(a as int, b as int);
            if vstd::utf8::valid_utf8(expr) {
                column_token_refs(q, expr, a, tokens_at(q.lexed, a), column)
            } else {
                Seq::empty()
            }
        },
    }
}

/// References among the scalars below `node` (a `ref_columns` value).
pub open spec fn array_refs(
    q: RefSearch,
    t: &SyntaxTree,
    source: &str,
    column: Seq<char>,
    node: usize,
) -> Seq<ReferenceView>
    decreases t.len() - node, 1int, 0int,
{
    if node >= t.len() {
        Seq::empty()
    } else {
        array_children_refs(q, t, source, column, node, t.children(node))
    }
}

pub open spec fn array_children_refs(
    q: RefSearch,
    t: &SyntaxTree,
    source: &str,
    column: Seq<char>,
    parent: usize,
    ch: Seq<usize>,
) -> Seq<ReferenceView>
    decreases t.len() - parent, 0int, ch.len(),
{
    if ch.len() == 0 || parent >= t.len() {
        Seq::empty()
    } else {
        let c = ch[0];
        if !(parent < c && c < t.len()) {
            Seq::empty()
        } else {
            let here = if is_string_scalar_kind(t.kind(c)) && value_matches(t, source, c, column) {
                seq![value_ref(q, t, c)]
            } else {
                array_refs(q, t, source, column, c)
            };
            here + array_children_refs(q, t, source, column, parent, ch.drop_first())
        }
    }
}

/// The references that one pair contributes, by its key.
pub open spec fn pair_refs(q: RefSearch, t: &SyntaxTree, source: &str, pair: usize) -> Seq<
    ReferenceView,
> {
    match t.named_child(pair, 0) {
        None => Seq::empty(),
        Some(k) => match stripped_text(t, source, k, StripMode::Greedy) {
            None => Seq::empty(),
            Some(kt) => match t.named_child(pair, 1) {
                None => Seq::empty(),
                Some(v) => match q.sym {
                    ReferenceSymbolView::Table { name } => if kt == "ref_table"@ && value_matches(
                        t,
                        source,
                        v,
                        name,
                    ) {
                        seq![value_ref(q, t, v)]
                    } else if kt == "name"@ && q.include_declaration && value_matches(
                        t,
                        source,
                        v,
                        name,
                    ) && is_top_level_pair(t, pair) {
                        seq![value_ref(q, t, v)]
                    } else {
                        Seq::empty()
                    },
                    ReferenceSymbolView::Column { table, column } => if kt == "ref_columns"@
                        && sibling_ref_table_matches(t, source, pair, table) {
                        array_refs(q, t, source, column, v)
                    } else if kt == "name"@ && q.include_declaration && value_matches(
                        t,
                        source,
                        v,
                        column,
                    ) && is_column_pair(t, source, pair, table) {
                        seq![value_ref(q, t, v)]
                    } else if kt == "expr"@ && is_check_constraint_pair(t, source, pair)
                        && outer_table_name(t, source, pair) == Some(table) {
                        check_expr_refs(q, t, source, v, column)
                    } else {
                        Seq::empty()
                    },
                },
            },
        },
    }
}

/// Every reference below `node`: each child pair's, then its subtree's, in
/// document order.
pub open spec fn walk_refs(q: RefSearch, t: &SyntaxTree, source: &str, node: usize) -> Seq<
    ReferenceView,
>
    decreases t.len() - node, 1int, 0int,
{
    if node >= t.len() {
        Seq::empty()
    } else {
        walk_children_refs(q, t, source, node, t.children(node))
    }
}

pub open spec fn walk_children_refs(
    q: RefSearch,
    t: &SyntaxTree,
    source: &str,
    parent: usize,
    ch: Seq<usize>,
) -> Seq<ReferenceView>
    decreases t.len() - parent, 0int, ch.len(),
{
    if ch.len() == 0 || parent >= t.len() {
        Seq::empty()
    } else {
        let c = ch[0];
        if !(parent < c && c < t.len()) {
            Seq::empty()
        } else {
            let here = if is_pair_kind(t.kind(c)) {
                pair_refs(q, t, source, c)
            } else {
                Seq::empty()
            };
            here + walk_refs(q, t, source, c) + walk_children_refs(
                q,
                t,
                source,
                parent,
                ch.drop_first(),
            )
        }
    }
}


fn peel_node(t: &SyntaxTree, v: usize) -> (r: usize)
    requires
        t.wf(),
        v < t.len(),
    ensures
        r == peel(t, v),
        r < t.len(),
{
    if is_wrapper(t.nodes[v].kind) {
        match t.get_named_child(v, 0) {
            Some(c) => c,
            None => v,
        }
    } else {
        v
    }
}

fn matches_value(t: &SyntaxTree, source: &str, v: usize, expected: &str) -> (r: bool)
    requires
        t.fits(source),
        v < t.len(),
    ensures
        r == value_matches(t, source, v, expected@),
{
    let a = peel_node(t, v);
    match t.node_str(source, a) {
        Some(x) => str_eq(strip_quotes(x), expected),
        None => false,
    }
}

fn reference_to(Ghost(q): Ghost<RefSearch>, uri: &str, t: &SyntaxTree, v: usize) -> (r: DomainReference)
    requires
        t.wf(),
        v < t.len(),
        q.uri == uri@,
    ensures
        r@ == value_ref(q, t, v),
{
    let a = peel_node(t, v);
    let rg = inner_content_range(t, a);
    DomainReference { uri: String::from_str(uri), byte_range: rg }
}

fn value_stripped<'a>(t: &SyntaxTree, source: &'a str, obj: usize, key: &str) -> (r: Option<&'a str>)
    requires
        t.fits(source),
        obj < t.len(),
    ensures
        (r is Some) == (pair_value_stripped(t, source, obj, key@) is Some),
        r matches Some(x) ==> pair_value_stripped(t, source, obj, key@) == Some(x@),
{
    match t.find_pair(source, obj, key, StripMode::Greedy) {
        None => None,
        Some(p) => match t.get_named_child(p, 1) {
            None => None,
            Some(v) => {
                let a = peel_node(t, v);
                match t.node_str(source, a) {
                    None => None,
                    Some(x) => Some(strip_quotes(x)),
                }
            },
        },
    }
}

fn object_holding(t: &SyntaxTree, pair: usize) -> (r: Option<usize>)
    requires
        t.wf(),
        pair < t.len(),
    ensures
        r == holding_object(t, pair),
        r matches Some(o) ==> o < t.len(),
{
    match t.nodes[pair].parent {
        None => None,
        Some(raw) => if is_wrapper(t.nodes[raw].kind) {
            t.get_named_child(raw, 0)
        } else {
            Some(raw)
        },
    }
}

fn pair_value_is(t: &SyntaxTree, source: &str, obj: usize, key: &str, expected: &str) -> (r: bool)
    requires
        t.fits(source),
        obj < t.len(),
    ensures
        r == first_pair_value_matches(t, source, obj, key@, expected@),
{
    match t.find_pair(source, obj, key, StripMode::Greedy) {
        None => false,
        Some(p) => match t.get_named_child(p, 1) {
            None => false,
            Some(v) => matches_value(t, source, v, expected),
        },
    }
}

fn ref_table_is(t: &SyntaxTree, source: &str, pair: usize, table: &str) -> (r: bool)
    requires
        t.fits(source),
        pair < t.len(),
    ensures
        r == sibling_ref_table_matches(t, source, pair, table@),
{
    match object_holding(t, pair) {
        None => false,
        Some(fk) => pair_value_is(t, source, fk, "ref_table", table),
    }
}

fn column_pair_of(t: &SyntaxTree, source: &str, pair: usize, table: &str) -> (r: bool)
    requires
        t.fits(source),
        pair < t.len(),
    ensures
        r == is_column_pair(t, source, pair, table@),
{
    match t.nodes[pair].parent {
        None => false,
        Some(co) => {
            if !is_mapping(t.nodes[co].kind) {
                return false;
            }
            match outermost_mapping(t, co) {
                None => false,
                Some(o) => o != co && pair_value_is(t, source, o, "name", table),
            }
        },
    }
}

fn check_constraint_pair(t: &SyntaxTree, source: &str, pair: usize) -> (r: bool)
    requires
        t.fits(source),
        pair < t.len(),
    ensures
        r == is_check_constraint_pair(t, source, pair),
{
    match object_holding(t, pair) {
        None => false,
        Some(obj) => match value_stripped(t, source, obj, "type") {
            Some(x) => str_eq(x, "check"),
            None => false,
        },
    }
}

fn table_owning(t: &SyntaxTree, source: &str, node: usize, table: &str) -> (r: bool)
    requires
        t.fits(source),
        node < t.len(),
    ensures
        r == (outer_table_name(t, source, node) == Some(table@)),
{
    match outermost_mapping(t, node) {
        None => false,
        Some(o) => match value_stripped(t, source, o, "name") {
            Some(x) => str_eq(x, table),
            None => false,
        },
    }
}

fn tokens_for<'a>(lexed: &'a [CheckExprTokens], start: usize) -> (r: &'a [CheckToken])
    ensures
        r@ == tokens_at(lexed@, start),
{
    let mut i: usize = 0;
    assert(lexed@.skip(0) =~= lexed@);
    while i < lexed.len()
        invariant
            i <= lexed@.len(),
            tokens_at(lexed@, start) == tokens_at(lexed@.skip(i as int), start),
        decreases lexed.len() - i,
    {
        assert(lexed@.skip(i as int)[0] == lexed@[i as int]);
        assert(lexed@.skip(i as int).drop_first() =~= lexed@.skip(i + 1));
        if lexed[i].inner_start == start {
            return lexed[i].tokens.as_slice();
        }
        i = i + 1;
    }
    &[]
}

fn push_column_tokens(
    Ghost(q): Ghost<RefSearch>,
    uri: &str,
    expr: &str,
    base: usize,
    toks: &[CheckToken],
    column: &str,
    out: &mut Vec<DomainReference>,
)
    requires
        q.uri == uri@,
        base + expr.spec_bytes().len() <= usize::MAX,
    ensures
        reference_views(final(out)@) == reference_views(old(out)@) + column_token_refs(
            q,
            expr.spec_bytes(),
            base,
            toks@,
            column@,
        ),
{
    let ghost start = reference_views(out@);
    let mut i: usize = 0;
    assert(toks@.take(0) =~= Seq::<CheckToken>::empty());
    assert(reference_views(out@) =~= start + Seq::<ReferenceView>::empty());
    while i < toks.len()
        invariant
            q.uri == uri@,
            base + expr.spec_bytes().len() <= usize::MAX,
            i <= toks@.len(),
            reference_views(out@) == start + column_token_refs(
                q,
                expr.spec_bytes(),
                base,
                toks@.take(i as int),
                column@,
            ),
        decreases toks.len() - i,
    {
        let tok = &toks[i];
        let ghost pre = toks@.take(i + 1);
        assert(pre.drop_last() =~= toks@.take(i as int));
        assert(pre.last() == toks@[i as int]);
        if matches!(tok.kind, CheckTokenKind::Column) {
            match span_str(expr, &tok.span) {
                Some(ident) => {
                    if str_eq(ident, column) {
                        let ghost before = reference_views(out@);
                        let r = DomainReference {
                            uri: String::from_str(uri),
                            byte_range: (base + tok.span.start)..(base + tok.span.end),
                        };
                        out.push(r);
                        assert(reference_views(out@) =~= before.push(r@));
                    }
                },
                None => {},
            }
        }
        i = i + 1;
    }
    assert(toks@.take(toks@.len() as int) =~= toks@);
}

fn push_check_expr_refs(
    Ghost(q): Ghost<RefSearch>,
    uri: &str,
    t: &SyntaxTree,
    source: &str,
    lexed: &[CheckExprTokens],
    v: usize,
    column: &str,
    out: &mut Vec<DomainReference>,
)
    requires
        t.fits(source),
        v < t.len(),
        q.uri == uri@,
        q.lexed == lexed@,
    ensures
        reference_views(final(out)@) == reference_views(old(out)@) + check_expr_refs(
            q,
            t,
            source,
            v,
            column@,
        ),
{
    let inner = match expr_inner_range(t, v) {
        Some(r) => r,
        None => {
            assert(reference_views(out@) =~= reference_views(out@) + Seq::<ReferenceView>::empty());
            return;
        },
    };
    let b = source.as_bytes();
    let sub = &b[inner.start..inner.end];
    let expr = match utf8_str(sub) {
        Some(e) => e,
        None => {
            assert(sub@ =~= source.spec_bytes().subrange(inner.start as int, inner.end as int));
            assert(reference_views(out@) =~= reference_views(out@) + Seq::<ReferenceView>::empty());
            return;
        },
    };
    assert(sub@ =~= source.spec_bytes().subrange(inner.start as int, inner.end as int));
    let toks = tokens_for(lexed, inner.start);
    push_column_tokens(Ghost(q), uri, expr, inner.start, toks, column, out);
}


fn push_array_refs(
    Ghost(q): Ghost<RefSearch>,
    uri: &str,
    t: &SyntaxTree,
    source: &str,
    column: &str,
    node: usize,
    out: &mut Vec<DomainReference>,
)
    requires
        t.fits(source),
        node < t.len(),
        q.uri == uri@,
    ensures
        reference_views(final(out)@) == reference_views(old(out)@) + array_refs(
            q,
            t,
            source,
            column@,
            node,
        ),
    decreases t.len() - node,
{
    let ghost start = reference_views(out@);
    let ch = &t.nodes[node].children;
    let ghost all = ch@;
    let mut i: usize = 0;
    assert(all.skip(0) =~= all);
    assert(start == start + Seq::<ReferenceView>::empty());
    while i < ch.len()
        invariant
            t.fits(source),
            node < t.len(),
            q.uri == uri@,
            ch@ == t.children(node),
            all == ch@,
            i <= ch@.len(),
            reference_views(out@) + array_children_refs(q, t, source, column@, node, all.skip(i as int))
                == start + array_refs(q, t, source, column@, node),
        decreases ch.len() - i,
    {
        let c = ch[i];
        assert(t.nodes@[node as int].children@[i as int] == c);
        assert(all.skip(i as int)[0] == c);
        assert(all.skip(i as int).drop_first() =~= all.skip(i + 1));
        let ghost before = reference_views(out@);
        let ghost rest = array_children_refs(q, t, source, column@, node, all.skip(i + 1));
        if is_string_scalar(t.nodes[c].kind) && matches_value(t, source, c, column) {
            let r = reference_to(Ghost(q), uri, t, c);
            out.push(r);
            assert(reference_views(out@) =~= before + seq![r@]);
        } else {
            push_array_refs(Ghost(q), uri, t, source, column, c, out);
        }
        assert(before + array_children_refs(q, t, source, column@, node, all.skip(i as int)) =~= (
        reference_views(out@) + rest));
        i = i + 1;
    }
    assert(array_children_refs(q, t, source, column@, node, all.skip(i as int)) =~= Seq::<
        ReferenceView,
    >::empty());
    assert(reference_views(out@) + Seq::<ReferenceView>::empty() =~= reference_views(out@));
}

fn push_pair_refs(
    Ghost(q): Ghost<RefSearch>,
    sym: &ReferenceSymbol,
    include_declaration: bool,
    uri: &str,
    t: &SyntaxTree,
    source: &str,
    lexed: &[CheckExprTokens],
    pair: usize,
    out: &mut Vec<DomainReference>,
)
    requires
        t.fits(source),
        pair < t.len(),
        q.uri == uri@,
        q.lexed == lexed@,
        q.sym == sym@,
        q.include_declaration == include_declaration,
    ensures
        reference_views(final(out)@) == reference_views(old(out)@) + pair_refs(q, t, source, pair),
{
    let ghost start = reference_views(out@);
    proof {
        assert(start =~= start + Seq::<ReferenceView>::empty());
    }
    let k = match t.get_named_child(pair, 0) {
        Some(k) => k,
        None => {
            return;
        },
    };
    let kt = match t.stripped(source, k, StripMode::Greedy) {
        Some(x) => x,
        None => {
            return;
        },
    };
    let v = match t.get_named_child(pair, 1) {
        Some(v) => v,
        None => {
            return;
        },
    };
    match sym {
        ReferenceSymbol::Table { name } => {
            if str_eq(kt, "ref_table") && matches_value(t, source, v, name.as_str()) {
                let r = reference_to(Ghost(q), uri, t, v);
                out.push(r);
                assert(reference_views(out@) =~= start + seq![r@]);
            } else if str_eq(kt, "name") && include_declaration && matches_value(
                t,
                source,
                v,
                name.as_str(),
            ) && top_level_pair(t, pair) {
                let r = reference_to(Ghost(q), uri, t, v);
                out.push(r);
                assert(reference_views(out@) =~= start + seq![r@]);
            }
        },
        ReferenceSymbol::Column { table, column } => {
            if str_eq(kt, "ref_columns") && ref_table_is(t, source, pair, table.as_str()) {
                push_array_refs(Ghost(q), uri, t, source, column.as_str(), v, out);
            } else if str_eq(kt, "name") && include_declaration && matches_value(
                t,
                source,
                v,
                column.as_str(),
            ) && column_pair_of(t, source, pair, table.as_str()) {
                let r = reference_to(Ghost(q), uri, t, v);
                out.push(r);
                assert(reference_views(out@) =~= start + seq![r@]);
            } else if str_eq(kt, "expr") && check_constraint_pair(t, source, pair) && table_owning(
                t,
                source,
                pair,
                table.as_str(),
            ) {
                push_check_expr_refs(Ghost(q), uri, t, source, lexed, v, column.as_str(), out);
            }
        },
    }
}

fn push_walk_refs(
    Ghost(q): Ghost<RefSearch>,
    sym: &ReferenceSymbol,
    include_declaration: bool,
    uri: &str,
    t: &SyntaxTree,
    source: &str,
    lexed: &[CheckExprTokens],
    node: usize,
    out: &mut Vec<DomainReference>,
)
    requires
        t.fits(source),
        node < t.len(),
        q.uri == uri@,
        q.lexed == lexed@,
        q.sym == sym@,
        q.include_declaration == include_declaration,
    ensures
        reference_views(final(out)@) == reference_views(old(out)@) + walk_refs(q, t, source, node),
    decreases t.len() - node,
{
    let ghost start = reference_views(out@);
    let ch = &t.nodes[node].children;
    let ghost all = ch@;
    let mut i: usize = 0;
    assert(all.skip(0) =~= all);
    assert(start == start + Seq::<ReferenceView>::empty());
    while i < ch.len()
        invariant
            t.fits(source),
            node < t.len(),
            q.uri == uri@,
            q.lexed == lexed@,
            q.sym == sym@,
            q.include_declaration == include_declaration,
            ch@ == t.children(node),
            all == ch@,
            i <= ch@.len(),
            reference_views(out@) + walk_children_refs(q, t, source, node, all.skip(i as int))
                == start + walk_refs(q, t, source, node),
        decreases ch.len() - i,
    {
        let c = ch[i];
        assert(t.nodes@[node as int].children@[i as int] == c);
        assert(all.skip(i as int)[0] == c);
        assert(all.skip(i as int).drop_first() =~= all.skip(i + 1));
        let ghost before = reference_views(out@);
        let ghost rest = walk_children_refs(q, t, source, node, all.skip(i + 1));
        if is_pair(t.nodes[c].kind) {
            push_pair_refs(Ghost(q), sym, include_declaration, uri, t, source, lexed, c, out);
        } else {
            assert(reference_views(out@) =~= before + Seq::<ReferenceView>::empty());
        }
        let ghost mid = reference_views(out@);
        push_walk_refs(Ghost(q), sym, include_declaration, uri, t, source, lexed, c, out);
        assert(before + walk_children_refs(q, t, source, node, all.skip(i as int)) =~= (
        reference_views(out@) + rest));
        i = i + 1;
    }
    assert(walk_children_refs(q, t, source, node, all.skip(i as int)) =~= Seq::<
        ReferenceView,
    >::empty());
    assert(reference_views(out@) + Seq::<ReferenceView>::empty() =~= reference_views(out@));
}


/// The references to `sym` in one parsed document, in document order.
pub open spec fn tree_refs(
    sym: ReferenceSymbolView,
    include_declaration: bool,
    uri: Seq<char>,
    source: &str,
    t: &SyntaxTree,
    lexed: Seq<CheckExprTokens>,
) -> Seq<ReferenceView> {
    walk_refs(RefSearch { sym, include_declaration, uri, lexed }, t, source, 0)
}

/// Appends the references to `symbol` in one document to `out`: table
/// names in `ref_table` values (and the table's own `name` when
/// declarations are included); column names in `ref_columns` of foreign
/// keys to the column's table, in CHECK expressions of that table (by the
/// lexed `check_tokens`), and the column's own `name` when declarations
/// are included.
pub fn collect_in_document(
    symbol: &ReferenceSymbol,
    uri: &str,
    source: &str,
    tree: &SyntaxTree,
    include_declaration: bool,
    check_tokens: &[CheckExprTokens],
    out: &mut Vec<DomainReference>,
)
    requires
        tree.fits(source),
    ensures
        reference_views(final(out)@) == reference_views(old(out)@) + tree_refs(
            symbol@,
            include_declaration,
            uri@,
            source,
            tree,
            check_tokens@,
        ),
{
    let ghost q = RefSearch {
        sym: symbol@,
        include_declaration,
        uri: uri@,
        lexed: check_tokens@,
    };
    push_walk_refs(Ghost(q), symbol, include_declaration, uri, tree, source, check_tokens, 0, out);
}

// ---------------------------------------------------------------------------
// Order and duplicates
// ---------------------------------------------------------------------------

/// References are ordered by document (its URI's text), then by start.
pub open spec fn ref_le(a: ReferenceView, b: ReferenceView) -> bool {
    name_le(a.0, b.0) && (a.0 == b.0 ==> a.1 <= b.1)
}

pub open spec fn refs_sorted(s: Seq<ReferenceView>) -> bool {
    forall|i: int, j: int| 0 <= i < j < s.len() ==> ref_le(#[trigger] s[i], #[trigger] s[j])
}

/// Where `x` goes in `s`: right after the last element, scanning from the
/// end, that is not greater than `x`.
pub open spec fn ref_insert_pos(s: Seq<ReferenceView>, x: ReferenceView) -> int
    decreases s.len(),
{
    if s.len() == 0 {
        0
    } else if ref_le(s.last(), x) {
        s.len() as int
    } else {
        ref_insert_pos(s.drop_last(), x)
    }
}

/// Stable insertion sort by `ref_le`.
pub open spec fn sort_refs_spec(s: Seq<ReferenceView>) -> Seq<ReferenceView>
    decreases s.len(),
{
    if s.len() == 0 {
        s
    } else {
        let r = sort_refs_spec(s.drop_last());
        r.insert(ref_insert_pos(r, s.last()), s.last())
    }
}

/// Drops each element equal to the one before it.
pub open spec fn dedup_spec(s: Seq<ReferenceView>) -> Seq<ReferenceView>
    decreases s.len(),
{
    if s.len() == 0 {
        s
    } else if s.len() >= 2 && s[s.len() - 2] == s.last() {
        dedup_spec(s.drop_last())
    } else {
        dedup_spec(s.drop_last()).push(s.last())
    }
}

proof fn lemma_ref_le_total(a: ReferenceView, b: ReferenceView)
    ensures
        ref_le(a, b) || ref_le(b, a),
{
    lemma_name_le_total(a.0, b.0);
    if a.0 == b.0 {
        lemma_name_le_refl(a.0);
    }
}

proof fn lemma_ref_le_trans(a: ReferenceView, b: ReferenceView, c: ReferenceView)
    requires
        ref_le(a, b),
        ref_le(b, c),
    ensures
        ref_le(a, c),
{
    lemma_name_le_trans(a.0, b.0, c.0);
    if a.0 == c.0 {
        lemma_name_le_antisym(a.0, b.0);
    }
}

proof fn lemma_ref_insert_pos(s: Seq<ReferenceView>, x: ReferenceView)
    ensures
        0 <= ref_insert_pos(s, x) <= s.len(),
        ref_insert_pos(s, x) > 0 ==> ref_le(s[ref_insert_pos(s, x) - 1], x),
        forall|k: int| ref_insert_pos(s, x) <= k < s.len() ==> !ref_le(#[trigger] s[k], x),
    decreases s.len(),
{
    if s.len() > 0 && !ref_le(s.last(), x) {
        let d = s.drop_last();
        lemma_ref_insert_pos(d, x);
        let p = ref_insert_pos(s, x);
        assert(p > 0 ==> d[p - 1] == s[p - 1]);
        assert forall|k: int| p <= k < s.len() implies !ref_le(#[trigger] s[k], x) by {
            if k < s.len() - 1 {
                assert(d[k] == s[k]);
            }
        }
    }
}

proof fn lemma_ref_insert_pos_is(s: Seq<ReferenceView>, x: ReferenceView, p: int)
    requires
        0 <= p <= s.len(),
        p > 0 ==> ref_le(s[p - 1], x),
        forall|k: int| p <= k < s.len() ==> !ref_le(#[trigger] s[k], x),
    ensures
        ref_insert_pos(s, x) == p,
    decreases s.len(),
{
    if s.len() > 0 && p < s.len() {
        assert(!ref_le(s[s.len() - 1], x));
        lemma_ref_insert_pos_is(s.drop_last(), x, p);
    }
}

proof fn lemma_ref_insert_keeps_sorted(s: Seq<ReferenceView>, x: ReferenceView)
    requires
        refs_sorted(s),
    ensures
        refs_sorted(s.insert(ref_insert_pos(s, x), x)),
{
    let p = ref_insert_pos(s, x);
    lemma_ref_insert_pos(s, x);
    s.insert_ensures(p, x);
    let r = s.insert(p, x);
    assert forall|i: int, j: int| 0 <= i < j < r.len() implies ref_le(#[trigger] r[i], #[trigger] r[j]) by {
        if j < p {
            assert(ref_le(s[i], s[j]));
        } else if j == p {
            if i < p - 1 {
                assert(ref_le(s[i], s[p - 1]));
                lemma_ref_le_trans(s[i], s[p - 1], x);
            }
        } else if i == p {
            assert(r[j] == s[j - 1]);
            assert(!ref_le(s[j - 1], x));
            lemma_ref_le_total(s[j - 1], x);
        } else if i < p {
            assert(r[j] == s[j - 1]);
            assert(ref_le(s[i], s[j - 1]));
        } else {
            assert(r[i] == s[i - 1]);
            assert(r[j] == s[j - 1]);
            assert(ref_le(s[i - 1], s[j - 1]));
        }
    }
}

proof fn lemma_sorted_refs_ordered(s: Seq<ReferenceView>)
    ensures
        refs_sorted(sort_refs_spec(s)),
    decreases s.len(),
{
    if s.len() > 0 {
        lemma_sorted_refs_ordered(s.drop_last());
        lemma_ref_insert_keeps_sorted(sort_refs_spec(s.drop_last()), s.last());
    }
}

proof fn lemma_sorted_refs_permutation(s: Seq<ReferenceView>)
    ensures
        sort_refs_spec(s).to_multiset() == s.to_multiset(),
    decreases s.len(),
{
    if s.len() > 0 {
        lemma_sorted_refs_permutation(s.drop_last());
        let r = sort_refs_spec(s.drop_last());
        lemma_ref_insert_pos(r, s.last());
        to_multiset_insert(r, ref_insert_pos(r, s.last()), s.last());
        to_multiset_build(s.drop_last(), s.last());
        assert(s.drop_last().push(s.last()) =~= s);
    }
}

/// What `dedup` keeps: a subsequence with the same last element, in which
/// every element of the input occurs.
proof fn lemma_dedup_basics(s: Seq<ReferenceView>)
    ensures
        dedup_spec(s).len() <= s.len(),
        s.len() > 0 ==> dedup_spec(s).len() > 0 && dedup_spec(s).last() == s.last(),
        forall|x: ReferenceView| s.contains(x) <==> dedup_spec(s).contains(x),
        forall|k: int|
            0 <= k < dedup_spec(s).len() - 1 ==> #[trigger] dedup_spec(s)[k] != dedup_spec(s)[k
                + 1],
    decreases s.len(),
{
    if s.len() > 0 {
        let d = s.drop_last();
        lemma_dedup_basics(d);
        let r = dedup_spec(s);
        assert forall|x: ReferenceView| s.contains(x) <==> r.contains(x) by {
            if s.contains(x) {
                let i = choose|i: int| 0 <= i < s.len() && s[i] == x;
                if i < s.len() - 1 {
                    assert(d[i] == x);
                    assert(d.contains(x));
                    if s.len() >= 2 && s[s.len() - 2] == s.last() {
                    } else {
                        let j = choose|j: int| 0 <= j < dedup_spec(d).len() && dedup_spec(d)[j] == x;
                        assert(r[j] == x);
                    }
                } else {
                    if s.len() >= 2 && s[s.len() - 2] == s.last() {
                        assert(d[d.len() - 1] == x);
                        assert(d.contains(x));
                    } else {
                        assert(r[r.len() - 1] == x);
                    }
                }
            }
            if r.contains(x) {
                let j = choose|j: int| 0 <= j < r.len() && r[j] == x;
                if s.len() >= 2 && s[s.len() - 2] == s.last() {
                    assert(dedup_spec(d).contains(x));
                    assert(d.contains(x));
                    let i = choose|i: int| 0 <= i < d.len() && d[i] == x;
                    assert(s[i] == x);
                } else if j < r.len() - 1 {
                    assert(dedup_spec(d)[j] == x);
                    assert(dedup_spec(d).contains(x));
                    assert(d.contains(x));
                    let i = choose|i: int| 0 <= i < d.len() && d[i] == x;
                    assert(s[i] == x);
                } else {
                    assert(s[s.len() - 1] == x);
                }
            }
        }
    }
}

/// Dropping repeats from a sorted sequence leaves it sorted.
proof fn lemma_dedup_sorted(s: Seq<ReferenceView>)
    requires
        refs_sorted(s),
    ensures
        refs_sorted(dedup_spec(s)),
    decreases s.len(),
{
    if s.len() > 0 {
        let d = s.drop_last();
        assert(refs_sorted(d)) by {
            assert forall|i: int, j: int| 0 <= i < j < d.len() implies ref_le(#[trigger] d[i], #[trigger] d[j]) by {
                assert(d[i] == s[i] && d[j] == s[j]);
            }
        }
        lemma_dedup_sorted(d);
        lemma_dedup_basics(d);
        if !(s.len() >= 2 && s[s.len() - 2] == s.last()) {
            let r = dedup_spec(s);
            let dd = dedup_spec(d);
            assert forall|i: int, j: int| 0 <= i < j < r.len() implies ref_le(#[trigger] r[i], #[trigger] r[j]) by {
                if j == r.len() - 1 {
                    assert(dd.contains(dd[i]));
                    assert(d.contains(dd[i]));
                    let k = choose|k: int| 0 <= k < d.len() && d[k] == dd[i];
                    assert(s[k] == r[i]);
                    assert(r[j] == s[s.len() - 1]);
                } else {
                    assert(r[i] == dd[i] && r[j] == dd[j]);
                }
            }
        }
    }
}

/// The references of a search, ordered by document and start, without
/// repeats, each occurring in `s`, and every element of `s` kept.
pub proof fn lemma_ordered_references(s: Seq<ReferenceView>)
    ensures
        refs_sorted(dedup_spec(sort_refs_spec(s))),
        forall|k: int|
            0 <= k < dedup_spec(sort_refs_spec(s)).len() - 1 ==> #[trigger] dedup_spec(
                sort_refs_spec(s),
            )[k] != dedup_spec(sort_refs_spec(s))[k + 1],
        forall|x: ReferenceView| s.contains(x) <==> dedup_spec(sort_refs_spec(s)).contains(x),
{
    lemma_sorted_refs_ordered(s);
    lemma_dedup_sorted(sort_refs_spec(s));
    lemma_dedup_basics(sort_refs_spec(s));
    lemma_sorted_refs_permutation(s);
    assert forall|x: ReferenceView| s.contains(x) <==> sort_refs_spec(s).contains(x) by {
        assert(s.to_multiset().count(x) == sort_refs_spec(s).to_multiset().count(x));
        s.to_multiset_ensures();
        sort_refs_spec(s).to_multiset_ensures();
    }
}


fn reference_le(a: &DomainReference, b: &DomainReference) -> (r: bool)
    ensures
        r == ref_le(a@, b@),
{
    names_le(a.uri.as_str(), b.uri.as_str()) && (!str_eq(a.uri.as_str(), b.uri.as_str())
        || a.byte_range.start <= b.byte_range.start)
}

/// Sorts references by document, then start, keeping the input order of
/// ties.
pub fn sort_references(v: Vec<DomainReference>) -> (r: Vec<DomainReference>)
    ensures
        reference_views(r@) == sort_refs_spec(reference_views(v@)),
{
    let ghost orig = reference_views(v@);
    let n = v.len();
    let mut src = v;
    let mut out: Vec<DomainReference> = Vec::new();
    let mut i: usize = 0;
    assert(orig.take(0) =~= Seq::<ReferenceView>::empty());
    assert(reference_views(src@) =~= orig.skip(0));
    while i < n
        invariant
            n == orig.len(),
            i <= n,
            reference_views(src@) == orig.skip(i as int),
            reference_views(out@) == sort_refs_spec(orig.take(i as int)),
        decreases n - i,
    {
        assert(reference_views(src@).len() == src@.len());
        assert(orig.skip(i as int).len() == n - i);
        assert(reference_views(src@)[0] == orig[i as int]);
        let ghost old_src = src@;
        let x = src.remove(0);
        proof {
            old_src.remove_ensures(0);
            assert forall|k: int| 0 <= k < src@.len() implies reference_views(src@)[k]
                == orig.skip(i + 1)[k] by {
                assert(src@[k] == old_src[k + 1]);
                assert(reference_views(old_src)[k + 1] == orig.skip(i as int)[k + 1]);
            }
        }
        assert(reference_views(src@) =~= orig.skip(i + 1));
        let ghost s = reference_views(out@);
        let mut p = out.len();
        while p > 0 && !reference_le(&out[p - 1], &x)
            invariant
                p <= out@.len(),
                s == reference_views(out@),
                forall|k: int| p <= k < s.len() ==> !ref_le(#[trigger] s[k], x@),
            decreases p,
        {
            p = p - 1;
        }
        proof {
            lemma_ref_insert_pos_is(s, x@, p as int);
            let pre = orig.take(i + 1);
            assert(pre.drop_last() =~= orig.take(i as int));
            assert(pre.last() == x@);
        }
        out.insert(p, x);
        assert(reference_views(out@) =~= s.insert(p as int, x@));
        i = i + 1;
    }
    assert(orig.take(n as int) =~= orig);
    out
}

fn same_reference(a: &DomainReference, b: &DomainReference) -> (r: bool)
    ensures
        r == (a@ == b@),
{
    str_eq(a.uri.as_str(), b.uri.as_str()) && a.byte_range.start == b.byte_range.start
        && a.byte_range.end == b.byte_range.end
}

/// Drops each reference equal to the one before it.
pub fn dedup_references(v: Vec<DomainReference>) -> (r: Vec<DomainReference>)
    ensures
        reference_views(r@) == dedup_spec(reference_views(v@)),
{
    let ghost orig = reference_views(v@);
    let n = v.len();
    let mut src = v;
    let mut out: Vec<DomainReference> = Vec::new();
    let mut i: usize = 0;
    assert(orig.take(0) =~= Seq::<ReferenceView>::empty());
    assert(reference_views(src@) =~= orig.skip(0));
    while i < n
        invariant
            n == orig.len(),
            i <= n,
            reference_views(src@) == orig.skip(i as int),
            reference_views(out@) == dedup_spec(orig.take(i as int)),
            i > 0 ==> out@.len() > 0 && out@.last()@ == orig[i - 1],
            i == 0 ==> out@.len() == 0,
        decreases n - i,
    {
        assert(reference_views(src@).len() == src@.len());
        assert(orig.skip(i as int).len() == n - i);
        assert(reference_views(src@)[0] == orig[i as int]);
        let ghost old_src = src@;
        let x = src.remove(0);
        proof {
            old_src.remove_ensures(0);
            assert forall|k: int| 0 <= k < src@.len() implies reference_views(src@)[k]
                == orig.skip(i + 1)[k] by {
                assert(src@[k] == old_src[k + 1]);
                assert(reference_views(old_src)[k + 1] == orig.skip(i as int)[k + 1]);
            }
        }
        assert(reference_views(src@) =~= orig.skip(i + 1));
        let ghost pre = orig.take(i + 1);
        assert(pre.drop_last() =~= orig.take(i as int));
        assert(pre.last() == x@);
        let ghost before = reference_views(out@);
        let repeat = out.len() > 0 && same_reference(&out[out.len() - 1], &x);
        if repeat {
            assert(pre[pre.len() - 2] == orig[i - 1]);
        } else {
            out.push(x);
            assert(reference_views(out@) =~= before.push(x@));
        }
        i = i + 1;
    }
    assert(orig.take(n as int) =~= orig);
    out
}

// ---------------------------------------------------------------------------
// The workspace
// ---------------------------------------------------------------------------

/// A model file to search: open in the editor, or read from disk.
pub struct RefDocument<'a> {
    pub uri: &'a str,
    pub source: &'a str,
    /// `None` when the document could not be parsed.
    pub tree: Option<&'a SyntaxTree>,
    /// The CHECK lexer's tokens for the document's CHECK expressions.
    pub check_tokens: &'a [CheckExprTokens],
}

pub open spec fn ref_document_ok(d: RefDocument) -> bool {
    d.tree matches Some(t) ==> t.fits(d.source)
}

pub open spec fn ref_documents_ok(docs: Seq<RefDocument>) -> bool {
    forall|i: int| 0 <= i < docs.len() ==> ref_document_ok(#[trigger] docs[i])
}

pub open spec fn document_refs(sym: ReferenceSymbolView, incl: bool, d: RefDocument) -> Seq<
    ReferenceView,
> {
    match d.tree {
        Some(t) => tree_refs(sym, incl, d.uri@, d.source, t, d.check_tokens@),
        None => Seq::empty(),
    }
}

/// The references in the open documents other than the current one.
pub open spec fn open_refs(
    sym: ReferenceSymbolView,
    incl: bool,
    current: Seq<char>,
    docs: Seq<RefDocument>,
) -> Seq<ReferenceView>
    decreases docs.len(),
{
    if docs.len() == 0 {
        Seq::empty()
    } else {
        open_refs(sym, incl, current, docs.drop_last()) + if docs.last().uri@ != current {
            document_refs(sym, incl, docs.last())
        } else {
            Seq::empty()
        }
    }
}

/// A document of that URI is open (the current one among them).
pub open spec fn is_open(current: Seq<char>, open: Seq<RefDocument>, uri: Seq<char>) -> bool {
    uri == current || exists|i: int| 0 <= i < open.len() && (#[trigger] open[i]).uri@ == uri
}

/// The references in files on disk that are not open.
pub open spec fn disk_refs(
    sym: ReferenceSymbolView,
    incl: bool,
    current: Seq<char>,
    open: Seq<RefDocument>,
    disk: Seq<RefDocument>,
) -> Seq<ReferenceView>
    decreases disk.len(),
{
    if disk.len() == 0 {
        Seq::empty()
    } else {
        disk_refs(sym, incl, current, open, disk.drop_last()) + if !is_open(
            current,
            open,
            disk.last().uri@,
        ) {
            document_refs(sym, incl, disk.last())
        } else {
            Seq::empty()
        }
    }
}

/// Every reference found: in the current document, the other open
/// documents and the files on disk that are not open.
pub open spec fn scanned_refs(
    sym: ReferenceSymbolView,
    incl: bool,
    current: RefDocument,
    open: Seq<RefDocument>,
    disk: Seq<RefDocument>,
) -> Seq<ReferenceView> {
    document_refs(sym, incl, current) + open_refs(sym, incl, current.uri@, open) + disk_refs(
        sym,
        incl,
        current.uri@,
        open,
        disk,
    )
}

pub open spec fn spec_find_all(
    sym: ReferenceSymbolView,
    incl: bool,
    current: RefDocument,
    open: Seq<RefDocument>,
    disk: Seq<RefDocument>,
) -> Seq<ReferenceView> {
    dedup_spec(sort_refs_spec(scanned_refs(sym, incl, current, open, disk)))
}

fn collect_document(
    symbol: &ReferenceSymbol,
    include_declaration: bool,
    d: &RefDocument,
    out: &mut Vec<DomainReference>,
)
    requires
        ref_document_ok(*d),
    ensures
        reference_views(final(out)@) == reference_views(old(out)@) + document_refs(
            symbol@,
            include_declaration,
            *d,
        ),
{
    match d.tree {
        Some(t) => collect_in_document(
            symbol,
            d.uri,
            d.source,
            t,
            include_declaration,
            d.check_tokens,
            out,
        ),
        None => {
            assert(reference_views(out@) =~= reference_views(out@) + Seq::<ReferenceView>::empty());
        },
    }
}

fn open_has(current: &str, open: &[RefDocument], uri: &str) -> (r: bool)
    ensures
        r == is_open(current@, open@, uri@),
{
    if str_eq(uri, current) {
        return true;
    }
    let mut i: usize = 0;
    while i < open.len()
        invariant
            i <= open@.len(),
            uri@ != current@,
            forall|k: int| 0 <= k < i ==> (#[trigger] open@[k]).uri@ != uri@,
        decreases open.len() - i,
    {
        if str_eq(open[i].uri, uri) {
            assert(open@[i as int].uri@ == uri@);
            return true;
        }
        i = i + 1;
    }
    false
}

/// Every reference to `symbol` in the workspace, ordered by document and
/// then start, without repeats: the current document, each other open
/// document, and each file on disk that is not open.
pub fn find_all(
    symbol: &ReferenceSymbol,
    current: &RefDocument,
    open: &[RefDocument],
    disk: &[RefDocument],
    include_declaration: bool,
) -> (r: Vec<DomainReference>)
    requires
        ref_document_ok(*current),
        ref_documents_ok(open@),
        ref_documents_ok(disk@),
    ensures
        reference_views(r@) == spec_find_all(symbol@, include_declaration, *current, open@, disk@),
{
    let mut out: Vec<DomainReference> = Vec::new();
    collect_document(symbol, include_declaration, current, &mut out);
    let ghost first = reference_views(out@);
    assert(first =~= document_refs(symbol@, include_declaration, *current));
    let mut i: usize = 0;
    assert(open@.take(0) =~= Seq::<RefDocument>::empty());
    assert(first =~= first + Seq::<ReferenceView>::empty());
    while i < open.len()
        invariant
            ref_documents_ok(open@),
            i <= open@.len(),
            reference_views(out@) == first + open_refs(
                symbol@,
                include_declaration,
                current.uri@,
                open@.take(i as int),
            ),
        decreases open.len() - i,
    {
        let d = &open[i];
        assert(ref_document_ok(open@[i as int]));
        let ghost pre = open@.take(i + 1);
        assert(pre.drop_last() =~= open@.take(i as int));
        assert(pre.last() == *d);
        let ghost before = reference_views(out@);
        if !str_eq(d.uri, current.uri) {
            collect_document(symbol, include_declaration, d, &mut out);
        } else {
            assert(reference_views(out@) =~= before + Seq::<ReferenceView>::empty());
        }
        assert(reference_views(out@) =~= first + open_refs(
            symbol@,
            include_declaration,
            current.uri@,
            pre,
        ));
        i = i + 1;
    }
    assert(open@.take(open@.len() as int) =~= open@);
    let ghost second = reference_views(out@);
    let mut j: usize = 0;
    assert(disk@.take(0) =~= Seq::<RefDocument>::empty());
    assert(second =~= second + Seq::<ReferenceView>::empty());
    while j < disk.len()
        invariant
            ref_documents_ok(disk@),
            j <= disk@.len(),
            reference_views(out@) == second + disk_refs(
                symbol@,
                include_declaration,
                current.uri@,
                open@,
                disk@.take(j as int),
            ),
        decreases disk.len() - j,
    {
        let d = &disk[j];
        assert(ref_document_ok(disk@[j as int]));
        let ghost pre = disk@.take(j + 1);
        assert(pre.drop_last() =~= disk@.take(j as int));
        assert(pre.last() == *d);
        let ghost before = reference_views(out@);
        if !open_has(current.uri, open, d.uri) {
            collect_document(symbol, include_declaration, d, &mut out);
        } else {
            assert(reference_views(out@) =~= before + Seq::<ReferenceView>::empty());
        }
        assert(reference_views(out@) =~= second + disk_refs(
            symbol@,
            include_declaration,
            current.uri@,
            open@,
            pre,
        ));
        j = j + 1;
    }
    assert(disk@.take(disk@.len() as int) =~= disk@);
    assert(reference_views(out@) =~= scanned_refs(
        symbol@,
        include_declaration,
        *current,
        open@,
        disk@,
    ));
    let sorted = sort_references(out);
    dedup_references(sorted)
}

/// The references to the symbol under the cursor in the current document
/// (see `find_all`); none when the cursor is on no table or column name.
pub open spec fn spec_references(
    current: RefDocument,
    open: Seq<RefDocument>,
    disk: Seq<RefDocument>,
    offset: usize,
    incl: bool,
) -> Seq<ReferenceView> {
    match current.tree {
        None => Seq::empty(),
        Some(t) => match spec_resolve_symbol(t, current.source, offset) {
            None => Seq::empty(),
            Some(sym) => spec_find_all(sym, incl, current, open, disk),
        },
    }
}

/// Find-references at `offset` of the current document.
pub fn compute(
    current: &RefDocument,
    open: &[RefDocument],
    disk: &[RefDocument],
    offset: usize,
    include_declaration: bool,
) -> (r: Vec<DomainReference>)
    requires
        ref_document_ok(*current),
        ref_documents_ok(open@),
        ref_documents_ok(disk@),
    ensures
        reference_views(r@) == spec_references(*current, open@, disk@, offset, include_declaration),
{
    match resolve_symbol(current.source, current.tree, offset) {
        None => Vec::new(),
        Some(sym) => find_all(&sym, current, open, disk, include_declaration),
    }
}


/// The inner range of the CHECK expression held by pair `j`, if it is one.
pub open spec fn check_expr_range_of(t: &SyntaxTree, source: &str, j: usize) -> Option<(usize, usize)> {
    if pair_has_key(t, source, j, "expr"@, StripMode::Greedy) && is_check_constraint_pair(
        t,
        source,
        j,
    ) {
        match t.named_child(j, 1) {
            Some(v) => spec_expr_inner_range(t, v),
            None => None,
        }
    } else {
        None
    }
}

/// The inner ranges of the CHECK expressions among nodes `0..n`.
pub open spec fn check_expr_ranges_upto(t: &SyntaxTree, source: &str, n: int) -> Seq<(usize, usize)>
    decreases n,
{
    if n <= 0 {
        Seq::empty()
    } else {
        let before = check_expr_ranges_upto(t, source, n - 1);
        match check_expr_range_of(t, source, (n - 1) as usize) {
            Some(r) => before.push(r),
            None => before,
        }
    }
}

/// The inner ranges of all CHECK expressions of a document, which the
/// CHECK lexer is to tokenise for `collect_in_document`.
pub fn check_expr_ranges(t: &SyntaxTree, source: &str) -> (r: Vec<Range<usize>>)
    requires
        t.fits(source),
    ensures
        r@.map_values(|x: Range<usize>| (x.start, x.end)) == check_expr_ranges_upto(
            t,
            source,
            t.len(),
        ),
{
    let mut out: Vec<Range<usize>> = Vec::new();
    let mut j: usize = 0;
    while j < t.nodes.len()
        invariant
            t.fits(source),
            j <= t.len(),
            out@.map_values(|x: Range<usize>| (x.start, x.end)) == check_expr_ranges_upto(
                t,
                source,
                j as int,
            ),
        decreases t.len() - j,
    {
        let ghost before = out@.map_values(|x: Range<usize>| (x.start, x.end));
        if t.has_key(source, j, "expr", StripMode::Greedy) && check_constraint_pair(t, source, j) {
            match t.get_named_child(j, 1) {
                Some(v) => match expr_inner_range(t, v) {
                    Some(rg) => {
                        out.push(rg);
                        assert(out@.map_values(|x: Range<usize>| (x.start, x.end)) =~= before.push(
                            (rg.start, rg.end),
                        ));
                    },
                    None => {},
                },
                None => {},
            }
        }
        j = j + 1;
    }
    out
}

} // verus!
