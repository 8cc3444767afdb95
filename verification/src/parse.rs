//! Parsing model files with tree-sitter into a `SyntaxTree`.

use vstd::prelude::*;
use vstd::string::*;
use crate::syntax::{SyntaxTree, NodeView, leaf_view, with_child};

verus! {

/// The two model file formats.
#[derive(Clone, Copy, Debug, PartialEq, Eq, Structural)]
pub enum DocumentFormat {
    Json,
    Yaml,
}

/// One node of tree-sitter's tree, read in a pre-order walk: its kind's
/// grammar name, start byte, end byte, depth below the root, and whether
/// it is named, an error node, a missing node.
pub type TsNode = (String, usize, usize, u32, bool, bool, bool);

/// `TsNode` with the name by its characters.
pub type TsNodeView = (Seq<char>, usize, usize, u32, bool, bool, bool);

pub open spec fn ts_node_view(n: TsNode) -> TsNodeView {
    (n.0@, n.1, n.2, n.3, n.4, n.5, n.6)
}

pub open spec fn ts_node_views(v: Seq<TsNode>) -> Seq<TsNodeView> {
    v.map_values(|n: TsNode| ts_node_view(n))
}

/// The nodes, in pre-order, of the tree that tree-sitter parses from
/// `source` with the grammar of `format`.
pub uninterp spec fn ts_nodes(source: Seq<char>, format: DocumentFormat) -> Seq<TsNodeView>;

/// `Parser::new`, `Parser::set_language` with the grammar of `format`,
/// `Parser::parse`, then a pre-order walk of the tree with a `TreeCursor`
/// from the root (`Node::descendant_count`, `TreeCursor::goto_descendant`,
/// `depth`, `node`; `Node::kind`, `start_byte`, `end_byte`, `is_named`,
/// `is_error`, `is_missing`). The records are named `ts_nodes(source,
/// format)`. They are there: both grammars come with this build in an ABI
/// version that `set_language` accepts, `parse` returns no tree only when
/// no language is set or a progress callback stops it (none is given), and
/// the walk counts the root among the descendants.
#[verifier::external_body]
fn ts_parse_nodes(source: &str, format: DocumentFormat) -> (r: Option<Vec<TsNode>>)
    ensures
        r is Some,
        r matches Some(v) ==> v@.len() >= 1 && ts_node_views(v@) == ts_nodes(source@, format),
{
    let language: tree_sitter::Language = match format {
        DocumentFormat::Json => tree_sitter_json::LANGUAGE.into(),
        DocumentFormat::Yaml => tree_sitter_yaml::LANGUAGE.into(),
    };
    let mut parser = tree_sitter::Parser::new();
    parser.set_language(&language).ok()?;
    let tree = parser.parse(source, None)?;
    let mut c = tree.root_node().walk();
    let walk = (0..tree.root_node().descendant_count()).map(|i| {
        c.goto_descendant(i);
        let n = c.node();
        (n.kind().to_string(), n.start_byte(), n.end_byte(), c.depth(), n.is_named(), n.is_error(), n.is_missing())
    });
    Some(walk.collect())
}

/// A byte range clamped into `0..=len`, with `start <= end`.
pub open spec fn spec_clamp_range(start: usize, end: usize, len: usize) -> (usize, usize) {
    let s = if start > len {
        len
    } else {
        start
    };
    let e = if end > len {
        len
    } else if end < s {
        s
    } else {
        end
    };
    (s, e)
}

/// A byte range clamped into `lo..=hi`, with `start <= end`.
pub open spec fn spec_clamp_within(start: usize, end: usize, lo: usize, hi: usize) -> (usize, usize) {
    let s = if start < lo {
        lo
    } else if start > hi {
        hi
    } else {
        start
    };
    let e = if end > hi {
        hi
    } else if end < s {
        s
    } else {
        end
    };
    (s, e)
}

fn clamp_range(start: usize, end: usize, len: usize) -> (r: (usize, usize))
    ensures
        r == spec_clamp_range(start, end, len),
        r.0 <= r.1 <= len,
        start <= end <= len ==> r == (start, end),
{
    let s = if start > len {
        len
    } else {
        start
    };
    let e = if end > len {
        len
    } else if end < s {
        s
    } else {
        end
    };
    (s, e)
}

fn clamp_within(start: usize, end: usize, lo: usize, hi: usize) -> (r: (usize, usize))
    requires
        lo <= hi,
    ensures
        r == spec_clamp_within(start, end, lo, hi),
        lo <= r.0 <= r.1 <= hi,
        lo <= start <= end <= hi ==> r == (start, end),
{
    let s = if start < lo {
        lo
    } else if start > hi {
        hi
    } else {
        start
    };
    let e = if end > hi {
        hi
    } else if end < s {
        s
    } else {
        end
    };
    (s, e)
}

/// How many of the path's open nodes a node at tree-sitter depth `depth`
/// keeps: its parent is the last of them. Depth 0 past the root and a depth
/// deeper than the path are pulled back into it.
pub open spec fn attach_level(depth: u32, open: nat) -> nat {
    if depth == 0 {
        1
    } else if depth > open {
        open
    } else {
        depth as nat
    }
}

/// The arena built from the first `n` records, and the path of open nodes
/// from the root to the last one. The root's range is clamped into the
/// source; every later node hangs under the node its depth names, as its
/// last child, with its range clamped into its parent's.
pub open spec fn build_prefix(recs: Seq<TsNodeView>, len: usize, n: nat) -> (
    Seq<NodeView>,
    Seq<usize>,
)
    decreases n,
{
    if n <= 1 {
        let r = recs[0];
        let range = spec_clamp_range(r.1, r.2, len);
        (seq![leaf_view(r.0, range.0, range.1, r.4, r.5, r.6, None)], seq![0usize])
    } else {
        let prev = build_prefix(recs, len, (n - 1) as nat);
        let nodes = prev.0;
        let path = prev.1;
        let k = (n - 1) as usize;
        let r = recs[n - 1];
        let d = attach_level(r.3, path.len());
        let p = path[d - 1];
        let pv = nodes[p as int];
        let range = spec_clamp_within(r.1, r.2, pv.start, pv.end);
        (
            nodes.update(p as int, with_child(pv, k)).push(
                leaf_view(r.0, range.0, range.1, r.4, r.5, r.6, Some(p)),
            ),
            path.take(d as int).push(k),
        )
    }
}

/// How many records make it into the arena: all of them, up to the
/// arena's index limit.
pub open spec fn built_count(total: nat) -> nat {
    if total < usize::MAX - 2 {
        total
    } else {
        (usize::MAX - 2) as nat
    }
}

/// The tree built from tree-sitter's records over a source of `len` bytes.
pub open spec fn build_tree(recs: Seq<TsNodeView>, len: usize) -> Seq<NodeView> {
    build_prefix(recs, len, built_count(recs.len())).0
}

/// Builds the arena from tree-sitter's pre-order records: each node's
/// parent is the last earlier node one level up, ranges are clamped into
/// the parent's (the root's into the source).
pub fn build_syntax_tree(recs: &Vec<TsNode>, source_len: usize) -> (t: SyntaxTree)
    requires
        recs@.len() >= 1,
    ensures
        t.wf(),
        t.source_len == source_len,
        t.node_views() == build_tree(ts_node_views(recs@), source_len),
{
    let ghost views = ts_node_views(recs@);
    let total = recs.len();
    let root = &recs[0];
    let (s, e) = clamp_range(root.1, root.2, source_len);
    let mut t = SyntaxTree::new_root(source_len, root.0.as_str(), s, e, root.4, root.5, root.6);
    let mut stack: Vec<usize> = Vec::new();
    stack.push(0);
    let mut idx: usize = 1;
    assert(stack@ =~= seq![0usize]);
    while idx < total && idx < usize::MAX - 2
        invariant
            views == ts_node_views(recs@),
            total == recs@.len(),
            1 <= idx <= total,
            idx <= usize::MAX - 2,
            t.wf(),
            t.source_len == source_len,
            t.len() == idx,
            t.node_views() == build_prefix(views, source_len, idx as nat).0,
            stack@ == build_prefix(views, source_len, idx as nat).1,
            stack@.len() >= 1,
            forall|k: int| 0 <= k < stack@.len() ==> #[trigger] stack@[k] < t.len(),
        decreases total - idx,
    {
        let rec = &recs[idx];
        assert(views[idx as int] == ts_node_view(*rec));
        let depth = rec.3 as usize;
        let d = if depth == 0 {
            1
        } else if depth > stack.len() {
            stack.len()
        } else {
            depth
        };
        assert(d == attach_level(rec.3, stack@.len()));
        let parent = stack[d - 1];
        stack.truncate(d);
        let (s, e) = clamp_within(rec.1, rec.2, t.nodes[parent].start, t.nodes[parent].end);
        let ghost before = t.node_views();
        assert(before[parent as int] == t.nodes@[parent as int]@);
        let n = t.add_node(parent, rec.0.as_str(), s, e, rec.4, rec.5, rec.6);
        stack.push(n);
        assert(stack@ =~= build_prefix(views, source_len, (idx + 1) as nat).1);
        assert(t.node_views() =~= build_prefix(views, source_len, (idx + 1) as nat).0);
        idx = idx + 1;
    }
    t
}

/// Parses `source` in the given format: the tree that tree-sitter's
/// records build over the source's bytes.
pub fn parse_document(source: &str, format: DocumentFormat) -> (r: Option<SyntaxTree>)
    ensures
        r is Some,
        r matches Some(t) ==> t.fits(source) && t.node_views() == build_tree(
            ts_nodes(source@, format),
            source.spec_bytes().len() as usize,
        ),
{
    match ts_parse_nodes(source, format) {
        Some(recs) => Some(build_syntax_tree(&recs, source.as_bytes().len())),
        None => None,
    }
}


/// The format of a model file by its extension: `json`, or `yaml` / `yml`;
/// `None` for any other file.
pub open spec fn spec_format_from_extension(ext: Seq<char>) -> Option<DocumentFormat> {
    if ext == "json"@ {
        Some(DocumentFormat::Json)
    } else if ext == "yaml"@ || ext == "yml"@ {
        Some(DocumentFormat::Yaml)
    } else {
        None
    }
}

pub fn format_from_extension(ext: &str) -> (r: Option<DocumentFormat>)
    ensures
        r == spec_format_from_extension(ext@),
{
    if crate::text::str_eq(ext, "json") {
        Some(DocumentFormat::Json)
    } else if crate::text::str_eq(ext, "yaml") || crate::text::str_eq(ext, "yml") {
        Some(DocumentFormat::Yaml)
    } else {
        None
    }
}

/// A model file: one whose extension names a format.
pub fn is_model_file(ext: &str) -> (r: bool)
    ensures
        r == (spec_format_from_extension(ext@) is Some),
{
    format_from_extension(ext).is_some()
}

} // verus!
