//! Workspace symbols: every table and every column of the workspace's
//! model files, filtered by a case-insensitive substring query and sorted
//! by name, then kind, so that the picker's order is deterministic.

use std::ops::Range;
use vstd::prelude::*;
use vstd::seq_lib::*;
use crate::syntax::{
    SyntaxTree, NodeKind, StripMode, find_pair, stripped_text, unwrap_wrapper, find_outer_mapping,
    is_mapping_kind, is_sequence_kind, is_mapping, is_sequence,
};
use crate::rename::{spec_inner_content_range, inner_content_range};
use crate::naming::{
    name_le, names_le, lemma_name_le_refl, lemma_name_le_total, lemma_name_le_antisym,
    lemma_name_le_trans,
};
use crate::text::{
    chars_of, trim, str_eq, spec_trim, ascii_lower_seq, seq_contains_run, chars_contain,
    to_ascii_lowercase,
};

verus! {

/// Tables and columns are the two kinds of symbol.
#[derive(Clone, Copy, Debug, PartialEq, Eq, Structural)]
pub enum SymbolKind {
    Table,
    Column,
}

/// Tables sort before columns of the same name.
pub open spec fn kind_rank(k: SymbolKind) -> int {
    match k {
        SymbolKind::Table => 0,
        SymbolKind::Column => 1,
    }
}

/// One workspace symbol.
#[derive(Debug)]
pub struct DomainSymbol {
    /// Display name in the symbol picker.
    pub name: String,
    pub kind: SymbolKind,
    /// Owning table name for column symbols; `None` for tables.
    pub container: Option<String>,
    /// Document hosting the declaration.
    pub uri: String,
    /// Byte range of the name value (quotes excluded).
    pub byte_range: Range<usize>,
}

/// Name, kind, container, uri, start, end.
pub type SymbolView = (Seq<char>, SymbolKind, Option<Seq<char>>, Seq<char>, usize, usize);

impl View for DomainSymbol {
    type V = SymbolView;

    open spec fn view(&self) -> SymbolView {
        (
            self.name@,
            self.kind,
            match self.container {
                Some(c) => Some(c@),
                None => None,
            },
            self.uri@,
            self.byte_range.start,
            self.byte_range.end,
        )
    }
}

pub open spec fn symbol_views(v: Seq<DomainSymbol>) -> Seq<SymbolView> {
    v.map_values(|s: DomainSymbol| s@)
}

// ---------------------------------------------------------------------------
// Matching
// ---------------------------------------------------------------------------

/// The query as matched: trimmed and ASCII-lowercased.
pub open spec fn spec_needle(query: Seq<char>) -> Seq<char> {
    ascii_lower_seq(spec_trim(query))
}

/// An empty needle matches everything; otherwise the lowercased name must
/// contain it.
pub open spec fn spec_matches_needle(name: Seq<char>, needle: Seq<char>) -> bool {
    needle.len() == 0 || seq_contains_run(ascii_lower_seq(name), needle)
}

pub fn matches_needle(name: &str, needle: &str) -> (r: bool)
    ensures
        r == spec_matches_needle(name@, needle@),
{
    if needle.unicode_len() == 0 {
        return true;
    }
    let lowered = to_ascii_lowercase(name);
    let hay = chars_of(lowered.as_str());
    let pat = chars_of(needle);
    chars_contain(&hay, &pat)
}

// ---------------------------------------------------------------------------
// Symbols of one tree
// ---------------------------------------------------------------------------

/// The (unwrapped) value of the first direct pair of `mapping` with key
/// `key`.
pub open spec fn pair_value_node(t: &SyntaxTree, source: &str, mapping: usize, key: Seq<char>) -> Option<
    usize,
> {
    match find_pair(t, source, mapping, key, StripMode::Greedy) {
        Some(p) => match t.named_child(p, 1) {
            Some(v) => Some(unwrap_wrapper(t, v)),
            None => None,
        },
        None => None,
    }
}

/// The stripped text of that value and its range without quotes.
pub open spec fn pair_value_text(t: &SyntaxTree, source: &str, mapping: usize, key: Seq<char>) -> Option<
    (Seq<char>, (usize, usize)),
> {
    match pair_value_node(t, source, mapping, key) {
        Some(v) => match stripped_text(t, source, v, StripMode::Greedy) {
            Some(s) => Some((s, spec_inner_content_range(t, v))),
            None => None,
        },
        None => None,
    }
}

/// The first child of `ch` that is (after unwrapping) a mapping.
pub open spec fn first_mapping_child(t: &SyntaxTree, ch: Seq<usize>) -> Option<usize>
    decreases ch.len(),
{
    if ch.len() == 0 {
        None
    } else {
        let u = unwrap_wrapper(t, ch[0]);
        if u < t.len() && is_mapping_kind(t.kind(u)) {
            Some(u)
        } else {
            first_mapping_child(t, ch.drop_first())
        }
    }
}

/// The mapping that defines a column, for an item of the `columns` list.
pub open spec fn column_mapping(t: &SyntaxTree, c: usize) -> Option<usize> {
    let e = unwrap_wrapper(t, c);
    if is_mapping_kind(t.kind(e)) {
        Some(e)
    } else if t.kind(e) == NodeKind::BlockSequenceItem {
        first_mapping_child(t, t.children(e))
    } else {
        None
    }
}

/// Column symbols for the items `ch` of a `columns` list.
pub open spec fn column_symbols(
    t: &SyntaxTree,
    source: &str,
    uri: Seq<char>,
    needle: Seq<char>,
    table: Seq<char>,
    ch: Seq<usize>,
) -> Seq<SymbolView>
    decreases ch.len(),
{
    if ch.len() == 0 {
        Seq::empty()
    } else {
        let before = column_symbols(t, source, uri, needle, table, ch.drop_last());
        let item = match column_mapping(t, ch.last()) {
            Some(m) => match pair_value_text(t, source, m, "name"@) {
                Some((n, r)) => if spec_matches_needle(n, needle) {
                    seq![(n, SymbolKind::Column, Some(table), uri, r.0, r.1)]
                } else {
                    Seq::empty()
                },
                None => Seq::empty(),
            },
            None => Seq::empty(),
        };
        before + item
    }
}

/// The symbols of one model file: its table (when it has a `name`) and
/// then its columns, in document order.
pub open spec fn tree_symbols(t: &SyntaxTree, source: &str, uri: Seq<char>, needle: Seq<char>) -> Seq<
    SymbolView,
> {
    match find_outer_mapping(t, 0) {
        None => Seq::empty(),
        Some(m) => match pair_value_text(t, source, m, "name"@) {
            None => Seq::empty(),
            Some((name, r)) => {
                let table = if spec_matches_needle(name, needle) {
                    seq![(name, SymbolKind::Table, None, uri, r.0, r.1)]
                } else {
                    Seq::empty()
                };
                match find_pair(t, source, m, "columns"@, StripMode::Greedy) {
                    Some(p) => match t.named_child(p, 1) {
                        Some(cv) => {
                            let arr = unwrap_wrapper(t, cv);
                            if is_sequence_kind(t.kind(arr)) {
                                table + column_symbols(t, source, uri, needle, name, t.children(arr))
                            } else {
                                table
                            }
                        },
                        None => table,
                    },
                    None => table,
                }
            },
        },
    }
}

fn value_of_pair(t: &SyntaxTree, source: &str, mapping: usize, key: &str) -> (r: Option<usize>)
    requires
        t.fits(source),
        mapping < t.len(),
    ensures
        r == pair_value_node(t, source, mapping, key@),
        r matches Some(v) ==> v < t.len(),
{
    match t.find_pair(source, mapping, key, StripMode::Greedy) {
        Some(p) => match t.get_named_child(p, 1) {
            Some(v) => Some(t.unwrap_wrapper(v)),
            None => None,
        },
        None => None,
    }
}

fn text_of_pair<'a>(t: &SyntaxTree, source: &'a str, mapping: usize, key: &str) -> (r: Option<
    (&'a str, Range<usize>),
>)
    requires
        t.fits(source),
        mapping < t.len(),
    ensures
        match r {
            Some((s, rg)) => pair_value_text(t, source, mapping, key@) == Some(
                (s@, (rg.start, rg.end)),
            ),
            None => pair_value_text(t, source, mapping, key@) is None,
        },
{
    match value_of_pair(t, source, mapping, key) {
        Some(v) => match t.stripped(source, v, StripMode::Greedy) {
            Some(s) => Some((s, inner_content_range(t, v))),
            None => None,
        },
        None => None,
    }
}

fn find_mapping_child(t: &SyntaxTree, e: usize) -> (r: Option<usize>)
    requires
        t.wf(),
        e < t.len(),
    ensures
        r == first_mapping_child(t, t.children(e)),
        r matches Some(m) ==> m < t.len(),
{
    let ch = &t.nodes[e].children;
    let ghost all = ch@;
    let mut i: usize = 0;
    assert(all.skip(0) =~= all);
    while i < ch.len()
        invariant
            t.wf(),
            e < t.len(),
            ch@ == t.children(e),
            all == ch@,
            i <= ch@.len(),
            first_mapping_child(t, all) == first_mapping_child(t, all.skip(i as int)),
        decreases ch.len() - i,
    {
        let c = ch[i];
        assert(t.nodes@[e as int].children@[i as int] == c);
        assert(all.skip(i as int)[0] == c);
        assert(all.skip(i as int).drop_first() =~= all.skip(i + 1));
        let u = t.unwrap_wrapper(c);
        if is_mapping(t.nodes[u].kind) {
            return Some(u);
        }
        i = i + 1;
    }
    None
}

fn column_mapping_of(t: &SyntaxTree, c: usize) -> (r: Option<usize>)
    requires
        t.wf(),
        c < t.len(),
    ensures
        r == column_mapping(t, c),
        r matches Some(m) ==> m < t.len(),
{
    let e = t.unwrap_wrapper(c);
    if is_mapping(t.nodes[e].kind) {
        Some(e)
    } else if matches!(t.nodes[e].kind, NodeKind::BlockSequenceItem) {
        find_mapping_child(t, e)
    } else {
        None
    }
}

/// Appends the symbols of one model file to `out`.
pub fn collect_from_tree(
    tree: &SyntaxTree,
    source: &str,
    uri: &str,
    needle: &str,
    out: &mut Vec<DomainSymbol>,
)
    requires
        tree.fits(source),
    ensures
        symbol_views(final(out)@) == symbol_views(old(out)@) + tree_symbols(
            tree,
            source,
            uri@,
            needle@,
        ),
{
    let ghost start = symbol_views(out@);
    let t = tree;
    let mapping = match t.find_outer_mapping(0) {
        Some(m) => m,
        None => {
            assert(symbol_views(out@) =~= start + Seq::<SymbolView>::empty());
            return;
        },
    };
    let (table_text, table_range) = match text_of_pair(t, source, mapping, "name") {
        Some(x) => x,
        None => {
            assert(symbol_views(out@) =~= start + Seq::<SymbolView>::empty());
            return;
        },
    };
    let table_name = String::from_str(table_text);
    let ghost table_part: Seq<SymbolView> = if spec_matches_needle(table_text@, needle@) {
        seq![(table_text@, SymbolKind::Table, None, uri@, table_range.start, table_range.end)]
    } else {
        Seq::empty()
    };
    if matches_needle(table_text, needle) {
        let sym = DomainSymbol {
            name: String::from_str(table_text),
            kind: SymbolKind::Table,
            container: None,
            uri: String::from_str(uri),
            byte_range: table_range.start..table_range.end,
        };
        out.push(sym);
    }
    assert(symbol_views(out@) =~= start + table_part);
    let p = match t.find_pair(source, mapping, "columns", StripMode::Greedy) {
        Some(p) => p,
        None => {
            return;
        },
    };
    let cv = match t.get_named_child(p, 1) {
        Some(cv) => cv,
        None => {
            return;
        },
    };
    let arr = t.unwrap_wrapper(cv);
    if !is_sequence(t.nodes[arr].kind) {
        return;
    }
    let ch = &t.nodes[arr].children;
    let mut i: usize = 0;
    assert(ch@.take(0) =~= Seq::<usize>::empty());
    while i < ch.len()
        invariant
            t.fits(source),
            arr < t.len(),
            ch@ == t.children(arr),
            i <= ch@.len(),
            table_name@ == table_text@,
            symbol_views(out@) == start + table_part + column_symbols(
                t,
                source,
                uri@,
                needle@,
                table_text@,
                ch@.take(i as int),
            ),
        decreases ch.len() - i,
    {
        let c = ch[i];
        assert(t.nodes@[arr as int].children@[i as int] == c);
        let ghost pre = ch@.take(i + 1);
        assert(pre.drop_last() =~= ch@.take(i as int));
        assert(pre.last() == c);
        let ghost before = symbol_views(out@);
        match column_mapping_of(t, c) {
            Some(m) => match text_of_pair(t, source, m, "name") {
                Some((col, range)) => {
                    if matches_needle(col, needle) {
                        let sym = DomainSymbol {
                            name: String::from_str(col),
                            kind: SymbolKind::Column,
                            container: Some(table_name.clone()),
                            uri: String::from_str(uri),
                            byte_range: range.start..range.end,
                        };
                        out.push(sym);
                        assert(symbol_views(out@) =~= before + seq![
                            (col@, SymbolKind::Column, Some(table_text@), uri@, range.start, range.end),
                        ]);
                    } else {
                        assert(symbol_views(out@) =~= before + Seq::<SymbolView>::empty());
                    }
                },
                None => {
                    assert(symbol_views(out@) =~= before + Seq::<SymbolView>::empty());
                },
            },
            None => {
                assert(symbol_views(out@) =~= before + Seq::<SymbolView>::empty());
            },
        }
        assert(symbol_views(out@) =~= start + table_part + column_symbols(
            t,
            source,
            uri@,
            needle@,
            table_text@,
            pre,
        ));
        i = i + 1;
    }
    assert(ch@.take(ch@.len() as int) =~= ch@);
}

// ---------------------------------------------------------------------------
// Ordering
// ---------------------------------------------------------------------------

/// Symbols are ordered by name, then tables before columns.
pub open spec fn sym_le(a: SymbolView, b: SymbolView) -> bool {
    name_le(a.0, b.0) && (a.0 == b.0 ==> kind_rank(a.1) <= kind_rank(b.1))
}

pub open spec fn symbols_sorted(s: Seq<SymbolView>) -> bool {
    forall|i: int, j: int| 0 <= i < j < s.len() ==> sym_le(#[trigger] s[i], #[trigger] s[j])
}

/// Where `x` goes in `s`: right after the last element, scanning from the
/// end, that is not greater than `x`.
pub open spec fn insert_pos(s: Seq<SymbolView>, x: SymbolView) -> int
    decreases s.len(),
{
    if s.len() == 0 {
        0
    } else if sym_le(s.last(), x) {
        s.len() as int
    } else {
        insert_pos(s.drop_last(), x)
    }
}

/// Stable insertion sort by `sym_le`.
pub open spec fn sort_symbols_spec(s: Seq<SymbolView>) -> Seq<SymbolView>
    decreases s.len(),
{
    if s.len() == 0 {
        s
    } else {
        let r = sort_symbols_spec(s.drop_last());
        r.insert(insert_pos(r, s.last()), s.last())
    }
}

proof fn lemma_sym_le_total(a: SymbolView, b: SymbolView)
    ensures
        sym_le(a, b) || sym_le(b, a),
{
    lemma_name_le_total(a.0, b.0);
    if a.0 == b.0 {
        lemma_name_le_refl(a.0);
    }
}

proof fn lemma_sym_le_trans(a: SymbolView, b: SymbolView, c: SymbolView)
    requires
        sym_le(a, b),
        sym_le(b, c),
    ensures
        sym_le(a, c),
{
    lemma_name_le_trans(a.0, b.0, c.0);
    if a.0 == c.0 {
        lemma_name_le_antisym(a.0, b.0);
    }
}

proof fn lemma_insert_pos(s: Seq<SymbolView>, x: SymbolView)
    ensures
        0 <= insert_pos(s, x) <= s.len(),
        insert_pos(s, x) > 0 ==> sym_le(s[insert_pos(s, x) - 1], x),
        forall|k: int| insert_pos(s, x) <= k < s.len() ==> !sym_le(#[trigger] s[k], x),
    decreases s.len(),
{
    if s.len() > 0 && !sym_le(s.last(), x) {
        let d = s.drop_last();
        lemma_insert_pos(d, x);
        let p = insert_pos(s, x);
        assert(p > 0 ==> d[p - 1] == s[p - 1]);
        assert forall|k: int| p <= k < s.len() implies !sym_le(#[trigger] s[k], x) by {
            if k < s.len() - 1 {
                assert(d[k] == s[k]);
            }
        }
    }
}

/// The position found by scanning back is the insertion position.
proof fn lemma_insert_pos_is(s: Seq<SymbolView>, x: SymbolView, p: int)
    requires
        0 <= p <= s.len(),
        p > 0 ==> sym_le(s[p - 1], x),
        forall|k: int| p <= k < s.len() ==> !sym_le(#[trigger] s[k], x),
    ensures
        insert_pos(s, x) == p,
    decreases s.len(),
{
    if s.len() > 0 && p < s.len() {
        assert(!sym_le(s[s.len() - 1], x));
        lemma_insert_pos_is(s.drop_last(), x, p);
    }
}

proof fn lemma_insert_keeps_sorted(s: Seq<SymbolView>, x: SymbolView)
    requires
        symbols_sorted(s),
    ensures
        symbols_sorted(s.insert(insert_pos(s, x), x)),
{
    let p = insert_pos(s, x);
    lemma_insert_pos(s, x);
    s.insert_ensures(p, x);
    let r = s.insert(p, x);
    assert forall|i: int, j: int| 0 <= i < j < r.len() implies sym_le(#[trigger] r[i], #[trigger] r[j]) by {
        if j < p {
            assert(sym_le(s[i], s[j]));
        } else if j == p {
            if i < p - 1 {
                assert(sym_le(s[i], s[p - 1]));
                lemma_sym_le_trans(s[i], s[p - 1], x);
            }
        } else if i == p {
            assert(r[j] == s[j - 1]);
            assert(!sym_le(s[j - 1], x));
            lemma_sym_le_total(s[j - 1], x);
        } else if i < p {
            assert(r[j] == s[j - 1]);
            assert(sym_le(s[i], s[j - 1]));
        } else {
            assert(r[i] == s[i - 1]);
            assert(r[j] == s[j - 1]);
            assert(sym_le(s[i - 1], s[j - 1]));
        }
    }
}

/// The sorted symbols are in order.
pub proof fn lemma_sorted_symbols_ordered(s: Seq<SymbolView>)
    ensures
        symbols_sorted(sort_symbols_spec(s)),
    decreases s.len(),
{
    if s.len() > 0 {
        lemma_sorted_symbols_ordered(s.drop_last());
        lemma_insert_keeps_sorted(sort_symbols_spec(s.drop_last()), s.last());
    }
}

/// Sorting keeps every symbol, each as often as it occurred.
pub proof fn lemma_sorted_symbols_permutation(s: Seq<SymbolView>)
    ensures
        sort_symbols_spec(s).to_multiset() == s.to_multiset(),
    decreases s.len(),
{
    if s.len() > 0 {
        lemma_sorted_symbols_permutation(s.drop_last());
        let r = sort_symbols_spec(s.drop_last());
        lemma_insert_pos(r, s.last());
        to_multiset_insert(r, insert_pos(r, s.last()), s.last());
        to_multiset_build(s.drop_last(), s.last());
        assert(s.drop_last().push(s.last()) =~= s);
    }
}

fn symbol_le(a: &DomainSymbol, b: &DomainSymbol) -> (r: bool)
    ensures
        r == sym_le(a@, b@),
{
    let ra: u8 = match a.kind {
        SymbolKind::Table => 0,
        SymbolKind::Column => 1,
    };
    let rb: u8 = match b.kind {
        SymbolKind::Table => 0,
        SymbolKind::Column => 1,
    };
    names_le(a.name.as_str(), b.name.as_str()) && (!str_eq(a.name.as_str(), b.name.as_str()) || ra
        <= rb)
}

/// Sorts symbols by name, then kind, keeping the input order of ties.
pub fn sort_symbols(v: Vec<DomainSymbol>) -> (r: Vec<DomainSymbol>)
    ensures
        symbol_views(r@) == sort_symbols_spec(symbol_views(v@)),
{
    let ghost orig = symbol_views(v@);
    let n = v.len();
    let mut src = v;
    let mut out: Vec<DomainSymbol> = Vec::new();
    let mut i: usize = 0;
    assert(orig.take(0) =~= Seq::<SymbolView>::empty());
    assert(symbol_views(src@) =~= orig.skip(0));
    while i < n
        invariant
            n == orig.len(),
            i <= n,
            symbol_views(src@) == orig.skip(i as int),
            symbol_views(out@) == sort_symbols_spec(orig.take(i as int)),
        decreases n - i,
    {
        assert(symbol_views(src@).len() == src@.len());
        assert(orig.skip(i as int).len() == n - i);
        assert(symbol_views(src@)[0] == orig[i as int]);
        let ghost old_src = src@;
        let x = src.remove(0);
        proof {
            old_src.remove_ensures(0);
            assert forall|k: int| 0 <= k < src@.len() implies symbol_views(src@)[k] == orig.skip(
                i + 1,
            )[k] by {
                assert(src@[k] == old_src[k + 1]);
                assert(symbol_views(old_src)[k + 1] == orig.skip(i as int)[k + 1]);
            }
        }
        assert(symbol_views(src@) =~= orig.skip(i + 1));
        let ghost s = symbol_views(out@);
        let mut p = out.len();
        while p > 0 && !symbol_le(&out[p - 1], &x)
            invariant
                p <= out@.len(),
                s == symbol_views(out@),
                forall|k: int| p <= k < s.len() ==> !sym_le(#[trigger] s[k], x@),
            decreases p,
        {
            p = p - 1;
        }
        proof {
            lemma_insert_pos_is(s, x@, p as int);
            let pre = orig.take(i + 1);
            assert(pre.drop_last() =~= orig.take(i as int));
            assert(pre.last() == x@);
        }
        out.insert(p, x);
        assert(symbol_views(out@) =~= s.insert(p as int, x@));
        i = i + 1;
    }
    assert(orig.take(n as int) =~= orig);
    out
}

// ---------------------------------------------------------------------------
// Workspace search
// ---------------------------------------------------------------------------

/// A model file to search: open in the editor, or read from disk.
pub struct SymbolDocument<'a> {
    pub uri: &'a str,
    pub source: &'a str,
    /// `None` when the document could not be parsed.
    pub tree: Option<&'a SyntaxTree>,
}

pub open spec fn document_ok(d: SymbolDocument) -> bool {
    d.tree matches Some(t) ==> t.fits(d.source)
}

pub open spec fn document_symbols(d: SymbolDocument, needle: Seq<char>) -> Seq<SymbolView> {
    match d.tree {
        Some(t) => tree_symbols(t, d.source, d.uri@, needle),
        None => Seq::empty(),
    }
}

/// An open document with a tree stands for its file.
pub open spec fn uri_seen(open: Seq<SymbolDocument>, uri: Seq<char>) -> bool {
    exists|i: int| 0 <= i < open.len() && (#[trigger] open[i]).tree is Some && open[i].uri@ == uri
}

/// Symbols of the open documents, in order.
pub open spec fn open_symbols(docs: Seq<SymbolDocument>, needle: Seq<char>) -> Seq<SymbolView>
    decreases docs.len(),
{
    if docs.len() == 0 {
        Seq::empty()
    } else {
        open_symbols(docs.drop_last(), needle) + document_symbols(docs.last(), needle)
    }
}

/// Symbols of the files on disk that are not open.
pub open spec fn disk_symbols(
    disk: Seq<SymbolDocument>,
    open: Seq<SymbolDocument>,
    needle: Seq<char>,
) -> Seq<SymbolView>
    decreases disk.len(),
{
    if disk.len() == 0 {
        Seq::empty()
    } else {
        let d = disk.last();
        disk_symbols(disk.drop_last(), open, needle) + if uri_seen(open, d.uri@) {
            Seq::empty()
        } else {
            document_symbols(d, needle)
        }
    }
}

/// Every symbol of the workspace matching the query, sorted.
pub open spec fn spec_workspace_symbols(
    query: Seq<char>,
    open: Seq<SymbolDocument>,
    disk: Seq<SymbolDocument>,
) -> Seq<SymbolView> {
    let needle = spec_needle(query);
    sort_symbols_spec(open_symbols(open, needle) + disk_symbols(disk, open, needle))
}

fn is_seen(open: &[SymbolDocument], uri: &str) -> (r: bool)
    ensures
        r == uri_seen(open@, uri@),
{
    let mut i: usize = 0;
    while i < open.len()
        invariant
            i <= open@.len(),
            forall|k: int| 0 <= k < i ==> !((#[trigger] open@[k]).tree is Some && open@[k].uri@ == uri@),
        decreases open.len() - i,
    {
        if open[i].tree.is_some() && str_eq(open[i].uri, uri) {
            assert(open@[i as int].tree is Some && open@[i as int].uri@ == uri@);
            return true;
        }
        i = i + 1;
    }
    false
}

fn collect_document(d: &SymbolDocument, needle: &str, out: &mut Vec<DomainSymbol>)
    requires
        document_ok(*d),
    ensures
        symbol_views(final(out)@) == symbol_views(old(out)@) + document_symbols(*d, needle@),
{
    match d.tree {
        Some(t) => collect_from_tree(t, d.source, d.uri, needle, out),
        None => {
            assert(symbol_views(out@) =~= symbol_views(out@) + Seq::<SymbolView>::empty());
        },
    }
}

/// Workspace symbol search: the tables and columns of the open documents
/// and of the model files on disk that are not open, whose name contains
/// the trimmed query case-insensitively (an empty query matches all),
/// sorted by name and kind.
pub fn compute(query: &str, open: &[SymbolDocument], disk: &[SymbolDocument]) -> (r: Vec<
    DomainSymbol,
>)
    requires
        forall|i: int| 0 <= i < open@.len() ==> document_ok(#[trigger] open@[i]),
        forall|i: int| 0 <= i < disk@.len() ==> document_ok(#[trigger] disk@[i]),
    ensures
        symbol_views(r@) == spec_workspace_symbols(query@, open@, disk@),
{
    let needle_owned = to_ascii_lowercase(trim(query));
    let needle = needle_owned.as_str();
    let mut out: Vec<DomainSymbol> = Vec::new();
    let mut i: usize = 0;
    assert(open@.take(0) =~= Seq::<SymbolDocument>::empty());
    while i < open.len()
        invariant
            i <= open@.len(),
            needle@ == spec_needle(query@),
            forall|k: int| 0 <= k < open@.len() ==> document_ok(#[trigger] open@[k]),
            symbol_views(out@) == open_symbols(open@.take(i as int), needle@),
        decreases open.len() - i,
    {
        proof {
            let pre = open@.take(i + 1);
            assert(pre.drop_last() =~= open@.take(i as int));
            assert(pre.last() == open@[i as int]);
        }
        collect_document(&open[i], needle, &mut out);
        i = i + 1;
    }
    assert(open@.take(open@.len() as int) =~= open@);
    let ghost from_open = symbol_views(out@);
    let mut j: usize = 0;
    assert(disk@.take(0) =~= Seq::<SymbolDocument>::empty());
    assert(from_open =~= from_open + Seq::<SymbolView>::empty());
    while j < disk.len()
        invariant
            j <= disk@.len(),
            needle@ == spec_needle(query@),
            forall|k: int| 0 <= k < disk@.len() ==> document_ok(#[trigger] disk@[k]),
            from_open == open_symbols(open@, needle@),
            symbol_views(out@) == from_open + disk_symbols(disk@.take(j as int), open@, needle@),
        decreases disk.len() - j,
    {
        proof {
            let pre = disk@.take(j + 1);
            assert(pre.drop_last() =~= disk@.take(j as int));
            assert(pre.last() == disk@[j as int]);
        }
        let ghost before = symbol_views(out@);
        if is_seen(open, disk[j].uri) {
            assert(symbol_views(out@) =~= before + Seq::<SymbolView>::empty());
        } else {
            collect_document(&disk[j], needle, &mut out);
        }
        assert(symbol_views(out@) =~= from_open + disk_symbols(disk@.take(j + 1), open@, needle@));
        j = j + 1;
    }
    assert(disk@.take(disk@.len() as int) =~= disk@);
    sort_symbols(out)
}


// ---------------------------------------------------------------------------
// Which document declares a table
// ---------------------------------------------------------------------------

/// The table a model file declares: the `name` of its outermost mapping.
pub open spec fn spec_table_name(t: &SyntaxTree, source: &str) -> Option<Seq<char>> {
    match find_outer_mapping(t, 0) {
        None => None,
        Some(m) => match pair_value_text(t, source, m, "name"@) {
            Some((n, _)) => Some(n),
            None => None,
        },
    }
}

/// The name of the table the model file declares.
pub fn table_name_of<'a>(tree: &SyntaxTree, source: &'a str) -> (r: Option<&'a str>)
    requires
        tree.fits(source),
    ensures
        match r {
            Some(n) => spec_table_name(tree, source) == Some(n@),
            None => spec_table_name(tree, source) is None,
        },
{
    match tree.find_outer_mapping(0) {
        None => None,
        Some(m) => match text_of_pair(tree, source, m, "name") {
            Some((n, _)) => Some(n),
            None => None,
        },
    }
}

/// Document `d` is parsed and declares table `name`.
pub open spec fn declares(d: SymbolDocument, name: Seq<char>) -> bool {
    match d.tree {
        Some(t) => spec_table_name(t, d.source) == Some(name),
        None => false,
    }
}

/// The first document that declares table `name`.
pub fn find_table_document(docs: &[SymbolDocument], name: &str) -> (r: Option<usize>)
    requires
        forall|i: int| 0 <= i < docs@.len() ==> document_ok(#[trigger] docs@[i]),
    ensures
        match r {
            Some(i) => i < docs@.len() && declares(docs@[i as int], name@) && forall|k: int|
                0 <= k < i ==> !declares(#[trigger] docs@[k], name@),
            None => forall|k: int| 0 <= k < docs@.len() ==> !declares(#[trigger] docs@[k], name@),
        },
{
    let mut i: usize = 0;
    while i < docs.len()
        invariant
            forall|j: int| 0 <= j < docs@.len() ==> document_ok(#[trigger] docs@[j]),
            i <= docs@.len(),
            forall|k: int| 0 <= k < i ==> !declares(#[trigger] docs@[k], name@),
        decreases docs.len() - i,
    {
        let d = &docs[i];
        assert(document_ok(docs@[i as int]));
        match d.tree {
            Some(t) => match table_name_of(t, d.source) {
                Some(n) => {
                    if str_eq(n, name) {
                        return Some(i);
                    }
                },
                None => {},
            },
            None => {},
        }
        i = i + 1;
    }
    None
}

} // verus!
