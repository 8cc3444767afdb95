//! Rename support: the text edit type, identifier validation and the byte
//! range of the renameable string under the cursor.

use std::ops::Range;
use vstd::prelude::*;
use vstd::string::*;
use crate::syntax::{
    SyntaxTree, NodeKind, is_string_scalar_kind, is_string_scalar, descend_to,
};
use crate::text::{chars_of, is_unicode_whitespace, is_whitespace_char, str_eq};
use crate::parse::DocumentFormat;
use crate::references::{
    ReferenceSymbol, ReferenceSymbolView, ReferenceView, RefDocument, DomainReference,
    resolve_symbol, spec_resolve_symbol, symbol_name, opt_symbol_view, spec_references,
    reference_views, ref_document_ok, ref_documents_ok, ref_le, refs_sorted, lemma_ordered_references,
};
use crate::naming::{name_le, lemma_name_le_trans, lemma_name_le_antisym};

verus! {

/// One replacement of a byte range of a document.
#[derive(Debug)]
pub struct DomainTextEdit {
    pub byte_range: Range<usize>,
    pub new_text: String,
}

impl View for DomainTextEdit {
    type V = (usize, usize, Seq<char>);

    open spec fn view(&self) -> (usize, usize, Seq<char>) {
        (self.byte_range.start, self.byte_range.end, self.new_text@)
    }
}

/// Result of a prepare-rename request: the identifier's range and its
/// current text.
#[derive(Debug)]
pub struct DomainPrepareRename {
    pub byte_range: Range<usize>,
    pub placeholder: String,
}

/// A control character (general category Cc).
pub open spec fn is_control_char(c: char) -> bool {
    (c as u32) <= 0x1f || 0x7f <= (c as u32) <= 0x9f
}

/// A character a new name may hold.
pub open spec fn identifier_char_ok(c: char) -> bool {
    &&& !is_unicode_whitespace(c)
    &&& !is_control_char(c)
    &&& c != '"' && c != '\'' && c != '\\' && c != ',' && c != ':'
    &&& c != '[' && c != ']' && c != '{' && c != '}'
}

/// A new name must be non-empty and free of whitespace, control
/// characters, quotes, backslashes and JSON punctuation.
pub open spec fn spec_is_valid_identifier(name: Seq<char>) -> bool {
    name.len() > 0 && forall|i: int| 0 <= i < name.len() ==> identifier_char_ok(#[trigger] name[i])
}

pub fn is_valid_identifier(name: &str) -> (r: bool)
    ensures
        r == spec_is_valid_identifier(name@),
{
    let v = chars_of(name);
    if v.len() == 0 {
        return false;
    }
    let mut i: usize = 0;
    while i < v.len()
        invariant
            v@ == name@,
            i <= v@.len(),
            forall|k: int| 0 <= k < i ==> identifier_char_ok(#[trigger] v@[k]),
        decreases v.len() - i,
    {
        let c = v[i];
        let u = c as u32;
        if is_whitespace_char(c) || u <= 0x1f || (0x7f <= u && u <= 0x9f) || c == '"' || c == '\''
            || c == '\\' || c == ',' || c == ':' || c == '[' || c == ']' || c == '{' || c == '}' {
            assert(!identifier_char_ok(v@[i as int]));
            return false;
        }
        i = i + 1;
    }
    true
}

/// `start + 1 .. end - 1` when the range is at least two bytes long, else
/// the range unchanged.
pub open spec fn spec_trim_one_byte(start: usize, end: usize) -> (usize, usize) {
    if end >= start + 2 {
        ((start + 1) as usize, (end - 1) as usize)
    } else {
        (start, end)
    }
}

/// Drops one byte at each end of a range of two bytes or more.
pub fn trim_one_byte(range: &Range<usize>) -> (r: Range<usize>)
    ensures
        (r.start, r.end) == spec_trim_one_byte(range.start, range.end),
{
    if range.end >= range.start && range.end - range.start >= 2 {
        (range.start + 1)..(range.end - 1)
    } else {
        range.start..range.end
    }
}

/// The string scalar enclosing node `i`: walking up, a string-like scalar
/// is the answer, `string_content` answers its parent, and a container
/// (array, object, pair, mapping or sequence) ends the search.
pub open spec fn spec_enclosing_string(t: &SyntaxTree, i: usize) -> Option<usize>
    decreases i,
{
    if is_string_scalar_kind(t.kind(i)) {
        Some(i)
    } else if t.kind(i) == NodeKind::StringContent {
        t.parent(i)
    } else if is_container_kind(t.kind(i)) {
        None
    } else {
        match t.parent(i) {
            Some(p) => if p < i {
                spec_enclosing_string(t, p)
            } else {
                None
            },
            None => None,
        }
    }
}

pub open spec fn is_container_kind(k: NodeKind) -> bool {
    ||| k == NodeKind::Array
    ||| k == NodeKind::Object
    ||| k == NodeKind::Pair
    ||| k == NodeKind::BlockMappingPair
    ||| k == NodeKind::BlockMapping
    ||| k == NodeKind::BlockSequence
    ||| k == NodeKind::FlowMapping
    ||| k == NodeKind::FlowSequence
}

pub fn enclosing_string(t: &SyntaxTree, i: usize) -> (r: Option<usize>)
    requires
        t.wf(),
        i < t.len(),
    ensures
        r == spec_enclosing_string(t, i),
        r matches Some(s) ==> s < t.len(),
{
    let mut cur = i;
    loop
        invariant
            t.wf(),
            cur < t.len(),
            spec_enclosing_string(t, i) == spec_enclosing_string(t, cur),
        decreases cur,
    {
        let k = t.nodes[cur].kind;
        if is_string_scalar(k) {
            return Some(cur);
        }
        if matches!(k, NodeKind::StringContent) {
            return t.nodes[cur].parent;
        }
        if matches!(
            k,
            NodeKind::Array | NodeKind::Object | NodeKind::Pair | NodeKind::BlockMappingPair
                | NodeKind::BlockMapping | NodeKind::BlockSequence | NodeKind::FlowMapping
                | NodeKind::FlowSequence
        ) {
            return None;
        }
        match t.nodes[cur].parent {
            Some(p) => {
                cur = p;
            },
            None => {
                return None;
            },
        }
    }
}

/// The content range of a string scalar: a JSON `string` yields its first
/// named child's range (its content) or, when empty, the range without the
/// quotes; quoted YAML scalars lose one byte at each end; others keep their
/// range.
pub open spec fn spec_inner_content_range(t: &SyntaxTree, i: usize) -> (usize, usize) {
    if t.kind(i) == NodeKind::String {
        match t.named_child(i, 0) {
            Some(c) => (t.start(c), t.end(c)),
            None => spec_trim_one_byte(t.start(i), t.end(i)),
        }
    } else if t.kind(i) == NodeKind::DoubleQuoteScalar || t.kind(i)
        == NodeKind::SingleQuoteScalar {
        spec_trim_one_byte(t.start(i), t.end(i))
    } else {
        (t.start(i), t.end(i))
    }
}

pub fn inner_content_range(t: &SyntaxTree, i: usize) -> (r: Range<usize>)
    requires
        t.wf(),
        i < t.len(),
    ensures
        (r.start, r.end) == spec_inner_content_range(t, i),
{
    let raw = t.nodes[i].start..t.nodes[i].end;
    match t.nodes[i].kind {
        NodeKind::String => match t.get_named_child(i, 0) {
            Some(c) => t.nodes[c].start..t.nodes[c].end,
            None => trim_one_byte(&raw),
        },
        NodeKind::DoubleQuoteScalar | NodeKind::SingleQuoteScalar => trim_one_byte(&raw),
        _ => raw,
    }
}

/// The content range of the string scalar enclosing the node at `offset`.
pub open spec fn spec_symbol_inner_range(t: &SyntaxTree, offset: usize) -> Option<(usize, usize)> {
    match spec_enclosing_string(t, descend_to(t, 0, offset)) {
        Some(s) => Some(spec_inner_content_range(t, s)),
        None => None,
    }
}

pub fn locate_symbol_inner_range(t: &SyntaxTree, offset: usize) -> (r: Option<Range<usize>>)
    requires
        t.wf(),
    ensures
        r matches Some(x) ==> spec_symbol_inner_range(t, offset) == Some((x.start, x.end)),
        r is None ==> spec_symbol_inner_range(t, offset) is None,
{
    let node = t.node_at_byte(offset);
    match enclosing_string(t, node) {
        Some(s) => Some(inner_content_range(t, s)),
        None => None,
    }
}


// ---------------------------------------------------------------------------
// Prepare-rename and rename
// ---------------------------------------------------------------------------

impl View for DomainPrepareRename {
    type V = ((usize, usize), Seq<char>);

    open spec fn view(&self) -> ((usize, usize), Seq<char>) {
        ((self.byte_range.start, self.byte_range.end), self.placeholder@)
    }
}

/// A renameable symbol under the cursor: the content range of its string
/// and its current name.
pub open spec fn spec_prepare(t: &SyntaxTree, source: &str, offset: usize) -> Option<
    ((usize, usize), Seq<char>),
> {
    match spec_resolve_symbol(t, source, offset) {
        None => None,
        Some(sym) => match spec_symbol_inner_range(t, offset) {
            None => None,
            Some(r) => Some((r, symbol_name(sym))),
        },
    }
}

/// Prepare-rename: the range of the table or column name under the cursor
/// (quotes excluded) and that name; `None` anywhere else, or without a tree.
pub fn prepare(
    source: &str,
    format: DocumentFormat,
    tree: Option<&SyntaxTree>,
    current_uri: &str,
    byte_offset: usize,
) -> (r: Option<DomainPrepareRename>)
    requires
        tree matches Some(t) ==> t.fits(source),
    ensures
        tree is None ==> r is None,
        tree matches Some(t) ==> match r {
            Some(p) => spec_prepare(t, source, byte_offset) == Some(p@),
            None => spec_prepare(t, source, byte_offset) is None,
        },
{
    let symbol = match resolve_symbol(source, tree, byte_offset) {
        Some(s) => s,
        None => {
            return None;
        },
    };
    let placeholder = String::from_str(symbol.current_name());
    let t = match tree {
        Some(t) => t,
        None => {
            return None;
        },
    };
    match locate_symbol_inner_range(t, byte_offset) {
        Some(range) => Some(DomainPrepareRename { byte_range: range, placeholder }),
        None => None,
    }
}

/// The edits of one document.
#[derive(Debug)]
pub struct FileEdits {
    pub uri: String,
    pub edits: Vec<DomainTextEdit>,
}

pub type FileEditsView = (Seq<char>, Seq<(usize, usize, Seq<char>)>);

impl View for FileEdits {
    type V = FileEditsView;

    open spec fn view(&self) -> FileEditsView {
        (self.uri@, self.edits@.map_values(|e: DomainTextEdit| e@))
    }
}

/// A rename plan: the edits of each document, in the order of the
/// documents' URIs, and the symbol renamed.
#[derive(Debug)]
pub struct DomainRename {
    pub edits: Vec<FileEdits>,
    pub symbol: Option<ReferenceSymbol>,
}

pub open spec fn file_edits_views(v: Seq<FileEdits>) -> Seq<FileEditsView> {
    v.map_values(|f: FileEdits| f@)
}

/// One edit replacing `new_text` at each reference, references of the same
/// document (which are adjacent) gathered under it.
pub open spec fn group_edits(refs: Seq<ReferenceView>, new_text: Seq<char>) -> Seq<FileEditsView>
    decreases refs.len(),
{
    if refs.len() == 0 {
        Seq::empty()
    } else {
        let g = group_edits(refs.drop_last(), new_text);
        let x = refs.last();
        if g.len() > 0 && g.last().0 == x.0 {
            g.update(g.len() - 1, (x.0, g.last().1.push((x.1, x.2, new_text))))
        } else {
            g.push((x.0, seq![(x.1, x.2, new_text)]))
        }
    }
}

/// Rename: `None` when the new name is not a valid identifier, the cursor
/// is on no table or column name, the name is unchanged, or nothing
/// refers to it; else every reference, the declaration included, replaced
/// by the new name.
pub open spec fn spec_rename(
    current: RefDocument,
    open: Seq<RefDocument>,
    disk: Seq<RefDocument>,
    offset: usize,
    new_name: Seq<char>,
) -> Option<(Seq<FileEditsView>, ReferenceSymbolView)> {
    if !spec_is_valid_identifier(new_name) {
        None
    } else {
        match current.tree {
            None => None,
            Some(t) => match spec_resolve_symbol(t, current.source, offset) {
                None => None,
                Some(sym) => if symbol_name(sym) == new_name {
                    None
                } else {
                    let refs = spec_references(current, open, disk, offset, true);
                    if refs.len() == 0 {
                        None
                    } else {
                        Some((group_edits(refs, new_name), sym))
                    }
                },
            },
        }
    }
}

fn group_references(refs: Vec<DomainReference>, new_name: &str) -> (r: Vec<FileEdits>)
    ensures
        file_edits_views(r@) == group_edits(reference_views(refs@), new_name@),
{
    let ghost all = reference_views(refs@);
    let mut out: Vec<FileEdits> = Vec::new();
    let mut i: usize = 0;
    assert(all.take(0) =~= Seq::<ReferenceView>::empty());
    while i < refs.len()
        invariant
            all == reference_views(refs@),
            i <= refs@.len(),
            file_edits_views(out@) == group_edits(all.take(i as int), new_name@),
        decreases refs.len() - i,
    {
        let x = &refs[i];
        let ghost pre = all.take(i + 1);
        assert(pre.drop_last() =~= all.take(i as int));
        assert(pre.last() == x@);
        let ghost g = file_edits_views(out@);
        let edit = DomainTextEdit {
            byte_range: x.byte_range.start..x.byte_range.end,
            new_text: String::from_str(new_name),
        };
        let n = out.len();
        if n > 0 && str_eq(out[n - 1].uri.as_str(), x.uri.as_str()) {
            let mut last = out.pop().unwrap();
            let ghost old_edits = last.edits@;
            last.edits.push(edit);
            assert(last.edits@.map_values(|e: DomainTextEdit| e@) =~= old_edits.map_values(
                |e: DomainTextEdit| e@,
            ).push(edit@));
            out.push(last);
            assert(file_edits_views(out@) =~= g.update(g.len() - 1, (x@.0, g.last().1.push(edit@))));
        } else {
            let mut v: Vec<DomainTextEdit> = Vec::new();
            v.push(edit);
            let f = FileEdits { uri: x.uri.clone(), edits: v };
            proof {
                assert(f.edits@.map_values(|e: DomainTextEdit| e@) =~= seq![edit@]);
            }
            out.push(f);
            assert(file_edits_views(out@) =~= g.push((x@.0, seq![edit@])));
        }
        i = i + 1;
    }
    assert(all.take(refs@.len() as int) =~= all);
    out
}

/// Plans a workspace-wide rename of the symbol under the cursor.
pub fn compute(
    current: &RefDocument,
    open: &[RefDocument],
    disk: &[RefDocument],
    byte_offset: usize,
    new_name: &str,
) -> (r: Option<DomainRename>)
    requires
        ref_document_ok(*current),
        ref_documents_ok(open@),
        ref_documents_ok(disk@),
    ensures
        match r {
            Some(plan) => spec_rename(*current, open@, disk@, byte_offset, new_name@) == Some(
                (file_edits_views(plan.edits@), plan.symbol->Some_0@),
            ) && plan.symbol is Some,
            None => spec_rename(*current, open@, disk@, byte_offset, new_name@) is None,
        },
{
    if !is_valid_identifier(new_name) {
        return None;
    }
    let symbol = match resolve_symbol(current.source, current.tree, byte_offset) {
        Some(s) => s,
        None => {
            return None;
        },
    };
    if str_eq(symbol.current_name(), new_name) {
        return None;
    }
    let refs = crate::references::compute(current, open, disk, byte_offset, true);
    if refs.len() == 0 {
        return None;
    }
    let edits = group_references(refs, new_name);
    Some(DomainRename { edits, symbol: Some(symbol) })
}


// ---------------------------------------------------------------------------
// The shape of a rename plan
// ---------------------------------------------------------------------------

/// No two neighbouring references are the same.
pub open spec fn no_adjacent_repeats(s: Seq<ReferenceView>) -> bool {
    forall|k: int| 0 <= k < s.len() - 1 ==> #[trigger] s[k] != s[k + 1]
}

/// Each document once, in URI order; each with edits in document order,
/// without repeats, all writing `new_text`.
pub open spec fn plan_well_formed(files: Seq<FileEditsView>, new_text: Seq<char>) -> bool {
    &&& forall|i: int, j: int|
        0 <= i < j < files.len() ==> name_le(#[trigger] files[i].0, #[trigger] files[j].0)
            && files[i].0 != files[j].0
    &&& forall|i: int| 0 <= i < files.len() ==> (#[trigger] files[i]).1.len() > 0
    &&& forall|i: int, k: int|
        0 <= i < files.len() && 0 <= k < files[i].1.len() ==> (#[trigger] files[i].1[k]).2
            == new_text
    &&& forall|i: int, k: int|
        0 <= i < files.len() && 0 <= k < files[i].1.len() - 1 ==> (#[trigger] files[i].1[k]).0
            <= files[i].1[k + 1].0 && files[i].1[k] != files[i].1[k + 1]
}

proof fn lemma_group_merge(
    g: Seq<FileEditsView>,
    x: ReferenceView,
    prev: ReferenceView,
    new_text: Seq<char>,
)
    requires
        plan_well_formed(g, new_text),
        g.len() > 0,
        g.last().0 == x.0,
        g.last().1.last() == (prev.1, prev.2, new_text),
        g.last().0 == prev.0,
        ref_le(prev, x),
        prev != x,
    ensures
        plan_well_formed(g.update(g.len() - 1, (x.0, g.last().1.push((x.1, x.2, new_text)))), new_text),
{
    let r = g.update(g.len() - 1, (x.0, g.last().1.push((x.1, x.2, new_text))));
    assert forall|i: int, k: int|
        0 <= i < r.len() && 0 <= k < r[i].1.len() - 1 implies (#[trigger] r[i].1[k]).0 <= r[i].1[k
        + 1].0 && r[i].1[k] != r[i].1[k + 1] by {
        if i < r.len() - 1 {
            assert(r[i] == g[i]);
        } else if k < g.last().1.len() - 1 {
            assert(r[i].1[k] == g.last().1[k]);
            assert(r[i].1[k + 1] == g.last().1[k + 1]);
        } else {
            assert(r[i].1[k] == g.last().1.last());
            assert(r[i].1[k + 1] == (x.1, x.2, new_text));
        }
    }
    assert forall|i: int, k: int|
        0 <= i < r.len() && 0 <= k < r[i].1.len() implies (#[trigger] r[i].1[k]).2 == new_text by {
        if i < r.len() - 1 {
            assert(r[i] == g[i]);
        } else if k < g.last().1.len() {
            assert(r[i].1[k] == g.last().1[k]);
        }
    }
    assert forall|i: int, j: int|
        0 <= i < j < r.len() implies name_le(#[trigger] r[i].0, #[trigger] r[j].0) && r[i].0 != r[j].0 by {
        assert(r[i].0 == g[i].0);
        assert(r[j].0 == g[j].0);
    }
    assert forall|i: int| 0 <= i < r.len() implies (#[trigger] r[i]).1.len() > 0 by {
        if i < r.len() - 1 {
            assert(r[i] == g[i]);
        }
    }
}

proof fn lemma_group_push(g: Seq<FileEditsView>, x: ReferenceView, new_text: Seq<char>)
    requires
        plan_well_formed(g, new_text),
        g.len() > 0 ==> name_le(g.last().0, x.0) && g.last().0 != x.0,
    ensures
        plan_well_formed(g.push((x.0, seq![(x.1, x.2, new_text)])), new_text),
{
    let r = g.push((x.0, seq![(x.1, x.2, new_text)]));
    assert forall|i: int, j: int|
        0 <= i < j < r.len() implies name_le(#[trigger] r[i].0, #[trigger] r[j].0) && r[i].0 != r[j].0 by {
        if j == r.len() - 1 {
            let u = g.last().0;
            if i < g.len() - 1 {
                assert(name_le(g[i].0, u) && g[i].0 != u);
                lemma_name_le_trans(g[i].0, u, x.0);
                if g[i].0 == x.0 {
                    lemma_name_le_antisym(u, x.0);
                }
            }
            assert(r[i] == g[i]);
        } else {
            assert(r[i] == g[i] && r[j] == g[j]);
        }
    }
    assert forall|i: int| 0 <= i < r.len() implies (#[trigger] r[i]).1.len() > 0 by {
        if i < r.len() - 1 {
            assert(r[i] == g[i]);
        }
    }
    assert forall|i: int, k: int|
        0 <= i < r.len() && 0 <= k < r[i].1.len() implies (#[trigger] r[i].1[k]).2 == new_text by {
        if i < r.len() - 1 {
            assert(r[i] == g[i]);
        }
    }
    assert forall|i: int, k: int|
        0 <= i < r.len() && 0 <= k < r[i].1.len() - 1 implies (#[trigger] r[i].1[k]).0 <= r[i].1[k
        + 1].0 && r[i].1[k] != r[i].1[k + 1] by {
        if i < r.len() - 1 {
            assert(r[i] == g[i]);
        }
    }
}

proof fn lemma_group_edits_shape(refs: Seq<ReferenceView>, new_text: Seq<char>)
    requires
        refs_sorted(refs),
        no_adjacent_repeats(refs),
    ensures
        plan_well_formed(group_edits(refs, new_text), new_text),
        refs.len() > 0 ==> group_edits(refs, new_text).len() > 0 && group_edits(refs, new_text).last().0
            == refs.last().0 && group_edits(refs, new_text).last().1.last() == (
            refs.last().1,
            refs.last().2,
            new_text,
        ),
    decreases refs.len(),
{
    if refs.len() > 0 {
        let d = refs.drop_last();
        assert(refs_sorted(d)) by {
            assert forall|i: int, j: int| 0 <= i < j < d.len() implies ref_le(#[trigger] d[i], #[trigger] d[j]) by {
                assert(d[i] == refs[i] && d[j] == refs[j]);
            }
        }
        assert(no_adjacent_repeats(d)) by {
            assert forall|k: int| 0 <= k < d.len() - 1 implies #[trigger] d[k] != d[k + 1] by {
                assert(d[k] == refs[k] && d[k + 1] == refs[k + 1]);
            }
        }
        lemma_group_edits_shape(d, new_text);
        let g = group_edits(d, new_text);
        let x = refs.last();
        if g.len() > 0 && g.last().0 == x.0 {
            let prev = d.last();
            assert(prev == refs[refs.len() - 2]);
            lemma_group_merge(g, x, prev, new_text);
        } else {
            if d.len() > 0 {
                let prev = d.last();
                assert(prev == refs[refs.len() - 2]);
                assert(ref_le(prev, x));
            }
            lemma_group_push(g, x, new_text);
        }
    }
}

/// A rename plan names each document once, in URI order; each document's
/// edits are in document order without repeats; every edit writes the new
/// name.
pub proof fn lemma_rename_plan_shape(
    current: RefDocument,
    open: Seq<RefDocument>,
    disk: Seq<RefDocument>,
    offset: usize,
    new_name: Seq<char>,
)
    ensures
        spec_rename(current, open, disk, offset, new_name) matches Some((files, _)) ==> plan_well_formed(
            files,
            new_name,
        ),
{
    if let Some(t) = current.tree {
        if let Some(sym) = spec_resolve_symbol(t, current.source, offset) {
            let scanned = crate::references::scanned_refs(sym, true, current, open, disk);
            lemma_ordered_references(scanned);
            let refs = spec_references(current, open, disk, offset, true);
            assert(no_adjacent_repeats(refs));
            lemma_group_edits_shape(refs, new_name);
        }
    }
}


/// The references a document's edits stand for.
pub open spec fn file_refs(f: FileEditsView) -> Seq<ReferenceView> {
    f.1.map_values(|e: (usize, usize, Seq<char>)| (f.0, e.0, e.1))
}

/// The references all the edits of a plan stand for, in order.
pub open spec fn flatten_edits(files: Seq<FileEditsView>) -> Seq<ReferenceView>
    decreases files.len(),
{
    if files.len() == 0 {
        Seq::empty()
    } else {
        flatten_edits(files.drop_last()) + file_refs(files.last())
    }
}

proof fn lemma_group_edits_flatten(refs: Seq<ReferenceView>, new_text: Seq<char>)
    ensures
        flatten_edits(group_edits(refs, new_text)) == refs,
        refs.len() > 0 ==> group_edits(refs, new_text).len() > 0 && group_edits(refs, new_text).last().0
            == refs.last().0,
    decreases refs.len(),
{
    if refs.len() > 0 {
        let d = refs.drop_last();
        lemma_group_edits_flatten(d, new_text);
        let g = group_edits(d, new_text);
        let x = refs.last();
        let e = (x.1, x.2, new_text);
        if g.len() > 0 && g.last().0 == x.0 {
            let last = (x.0, g.last().1.push(e));
            let r = g.update(g.len() - 1, last);
            assert(r.drop_last() =~= g.drop_last());
            assert(r.last() == last);
            assert(file_refs(last) =~= file_refs(g.last()).push((x.0, x.1, x.2)));
            assert(flatten_edits(g) == flatten_edits(g.drop_last()) + file_refs(g.last()));
            assert(flatten_edits(r) =~= flatten_edits(g).push((x.0, x.1, x.2)));
            assert(d.push(x) =~= refs);
        } else {
            let f = (x.0, seq![e]);
            let r = g.push(f);
            assert(r.drop_last() =~= g);
            assert(file_refs(f) =~= seq![(x.0, x.1, x.2)]);
            assert(d.push(x) =~= refs);
            assert(flatten_edits(r) =~= refs);
        }
    }
}

/// Rename edits exactly what find-references (declaration included)
/// returns for the symbol under the cursor: each reference, in order,
/// becomes one edit writing the new name.
pub proof fn lemma_rename_edits_are_references(
    current: RefDocument,
    open: Seq<RefDocument>,
    disk: Seq<RefDocument>,
    offset: usize,
    new_name: Seq<char>,
)
    ensures
        spec_rename(current, open, disk, offset, new_name) matches Some((files, _)) ==> flatten_edits(
            files,
        ) == spec_references(current, open, disk, offset, true),
{
    lemma_group_edits_flatten(spec_references(current, open, disk, offset, true), new_name);
}

} // verus!
