//! Syntax trees of model files, held as plain values.
//!
//! A tree is an arena of nodes indexed by `usize`; node 0 is the root and
//! every other node's parent has a smaller index. Trees built by
//! `parse::parse_document` list their nodes in document (pre-)order, so
//! "the least index" among a node's descendants is the first one met by a
//! depth-first walk.

use vstd::prelude::*;
use vstd::string::*;
use vstd::utf8::*;
use crate::text::{
    str_eq, utf8_str, lemma_utf8_str_view, strip_quotes, strip_double_quotes, strip_quote_pair,
    spec_strip_quotes, spec_strip_double_quotes, spec_strip_quote_pair,
};

verus! {

broadcast use encode_utf8_decode_utf8;

/// The node kinds of the JSON and YAML grammars that the features look at.
#[derive(Clone, Copy, Debug, PartialEq, Eq, Structural)]
pub enum NodeKind {
    Document,
    Stream,
    Object,
    Pair,
    Array,
    String,
    StringContent,
    Number,
    True,
    False,
    Null,
    Comment,
    BlockMapping,
    BlockMappingPair,
    FlowMapping,
    FlowPair,
    BlockSequence,
    BlockSequenceItem,
    FlowSequence,
    FlowNode,
    BlockNode,
    DoubleQuoteScalar,
    SingleQuoteScalar,
    PlainScalar,
    StringScalar,
    BlockScalar,
    IntegerScalar,
    FloatScalar,
    BooleanScalar,
    NullScalar,
    Error,
    Other,
}

/// The kind of a node from its grammar name.
pub open spec fn spec_kind_from_name(name: Seq<char>) -> NodeKind {
    if name == "document"@ {
        NodeKind::Document
    } else if name == "stream"@ {
        NodeKind::Stream
    } else if name == "object"@ {
        NodeKind::Object
    } else if name == "pair"@ {
        NodeKind::Pair
    } else if name == "array"@ {
        NodeKind::Array
    } else if name == "string"@ {
        NodeKind::String
    } else if name == "string_content"@ {
        NodeKind::StringContent
    } else if name == "number"@ {
        NodeKind::Number
    } else if name == "true"@ {
        NodeKind::True
    } else if name == "false"@ {
        NodeKind::False
    } else if name == "null"@ {
        NodeKind::Null
    } else if name == "comment"@ {
        NodeKind::Comment
    } else if name == "block_mapping"@ {
        NodeKind::BlockMapping
    } else if name == "block_mapping_pair"@ {
        NodeKind::BlockMappingPair
    } else if name == "flow_mapping"@ {
        NodeKind::FlowMapping
    } else if name == "flow_pair"@ {
        NodeKind::FlowPair
    } else if name == "block_sequence"@ {
        NodeKind::BlockSequence
    } else if name == "block_sequence_item"@ {
        NodeKind::BlockSequenceItem
    } else if name == "flow_sequence"@ {
        NodeKind::FlowSequence
    } else if name == "flow_node"@ {
        NodeKind::FlowNode
    } else if name == "block_node"@ {
        NodeKind::BlockNode
    } else if name == "double_quote_scalar"@ {
        NodeKind::DoubleQuoteScalar
    } else if name == "single_quote_scalar"@ {
        NodeKind::SingleQuoteScalar
    } else if name == "plain_scalar"@ {
        NodeKind::PlainScalar
    } else if name == "string_scalar"@ {
        NodeKind::StringScalar
    } else if name == "block_scalar"@ {
        NodeKind::BlockScalar
    } else if name == "integer_scalar"@ {
        NodeKind::IntegerScalar
    } else if name == "float_scalar"@ {
        NodeKind::FloatScalar
    } else if name == "boolean_scalar"@ {
        NodeKind::BooleanScalar
    } else if name == "null_scalar"@ {
        NodeKind::NullScalar
    } else if name == "ERROR"@ {
        NodeKind::Error
    } else {
        NodeKind::Other
    }
}

pub fn kind_from_name(name: &str) -> (k: NodeKind)
    ensures
        k == spec_kind_from_name(name@),
{
    if str_eq(name, "document") {
        NodeKind::Document
    } else if str_eq(name, "stream") {
        NodeKind::Stream
    } else if str_eq(name, "object") {
        NodeKind::Object
    } else if str_eq(name, "pair") {
        NodeKind::Pair
    } else if str_eq(name, "array") {
        NodeKind::Array
    } else if str_eq(name, "string") {
        NodeKind::String
    } else if str_eq(name, "string_content") {
        NodeKind::StringContent
    } else if str_eq(name, "number") {
        NodeKind::Number
    } else if str_eq(name, "true") {
        NodeKind::True
    } else if str_eq(name, "false") {
        NodeKind::False
    } else if str_eq(name, "null") {
        NodeKind::Null
    } else if str_eq(name, "comment") {
        NodeKind::Comment
    } else if str_eq(name, "block_mapping") {
        NodeKind::BlockMapping
    } else if str_eq(name, "block_mapping_pair") {
        NodeKind::BlockMappingPair
    } else if str_eq(name, "flow_mapping") {
        NodeKind::FlowMapping
    } else if str_eq(name, "flow_pair") {
        NodeKind::FlowPair
    } else if str_eq(name, "block_sequence") {
        NodeKind::BlockSequence
    } else if str_eq(name, "block_sequence_item") {
        NodeKind::BlockSequenceItem
    } else if str_eq(name, "flow_sequence") {
        NodeKind::FlowSequence
    } else if str_eq(name, "flow_node") {
        NodeKind::FlowNode
    } else if str_eq(name, "block_node") {
        NodeKind::BlockNode
    } else if str_eq(name, "double_quote_scalar") {
        NodeKind::DoubleQuoteScalar
    } else if str_eq(name, "single_quote_scalar") {
        NodeKind::SingleQuoteScalar
    } else if str_eq(name, "plain_scalar") {
        NodeKind::PlainScalar
    } else if str_eq(name, "string_scalar") {
        NodeKind::StringScalar
    } else if str_eq(name, "block_scalar") {
        NodeKind::BlockScalar
    } else if str_eq(name, "integer_scalar") {
        NodeKind::IntegerScalar
    } else if str_eq(name, "float_scalar") {
        NodeKind::FloatScalar
    } else if str_eq(name, "boolean_scalar") {
        NodeKind::BooleanScalar
    } else if str_eq(name, "null_scalar") {
        NodeKind::NullScalar
    } else if str_eq(name, "ERROR") {
        NodeKind::Error
    } else {
        NodeKind::Other
    }
}

/// `pair` / `block_mapping_pair`.
pub open spec fn is_pair_kind(k: NodeKind) -> bool {
    k == NodeKind::Pair || k == NodeKind::BlockMappingPair
}

/// `object` / `block_mapping` / `flow_mapping`.
pub open spec fn is_mapping_kind(k: NodeKind) -> bool {
    k == NodeKind::Object || k == NodeKind::BlockMapping || k == NodeKind::FlowMapping
}

/// `array` / `block_sequence` / `flow_sequence`.
pub open spec fn is_sequence_kind(k: NodeKind) -> bool {
    k == NodeKind::Array || k == NodeKind::BlockSequence || k == NodeKind::FlowSequence
}

/// YAML's `flow_node` / `block_node` wrappers.
pub open spec fn is_wrapper_kind(k: NodeKind) -> bool {
    k == NodeKind::FlowNode || k == NodeKind::BlockNode
}

/// String-like scalars of either grammar.
pub open spec fn is_string_scalar_kind(k: NodeKind) -> bool {
    ||| k == NodeKind::String
    ||| k == NodeKind::DoubleQuoteScalar
    ||| k == NodeKind::SingleQuoteScalar
    ||| k == NodeKind::StringScalar
    ||| k == NodeKind::PlainScalar
}

pub fn is_pair(k: NodeKind) -> (r: bool)
    ensures
        r == is_pair_kind(k),
{
    matches!(k, NodeKind::Pair | NodeKind::BlockMappingPair)
}

pub fn is_mapping(k: NodeKind) -> (r: bool)
    ensures
        r == is_mapping_kind(k),
{
    matches!(k, NodeKind::Object | NodeKind::BlockMapping | NodeKind::FlowMapping)
}

pub fn is_sequence(k: NodeKind) -> (r: bool)
    ensures
        r == is_sequence_kind(k),
{
    matches!(k, NodeKind::Array | NodeKind::BlockSequence | NodeKind::FlowSequence)
}

pub fn is_wrapper(k: NodeKind) -> (r: bool)
    ensures
        r == is_wrapper_kind(k),
{
    matches!(k, NodeKind::FlowNode | NodeKind::BlockNode)
}

pub fn is_string_scalar(k: NodeKind) -> (r: bool)
    ensures
        r == is_string_scalar_kind(k),
{
    matches!(
        k,
        NodeKind::String | NodeKind::DoubleQuoteScalar | NodeKind::SingleQuoteScalar
            | NodeKind::StringScalar | NodeKind::PlainScalar
    )
}

/// One node: its kind, byte range in the source, and links.
pub struct SyntaxNode {
    pub kind: NodeKind,
    /// The grammar's name for the kind (`"object"`, `"}"`, ...).
    pub kind_name: String,
    pub start: usize,
    pub end: usize,
    pub named: bool,
    pub error: bool,
    pub missing: bool,
    pub parent: Option<usize>,
    pub children: Vec<usize>,
}

/// A node as plain values: kind, grammar name, byte range, the three
/// flags, parent and children.
pub struct NodeView {
    pub kind: NodeKind,
    pub kind_name: Seq<char>,
    pub start: usize,
    pub end: usize,
    pub named: bool,
    pub error: bool,
    pub missing: bool,
    pub parent: Option<usize>,
    pub children: Seq<usize>,
}

impl View for SyntaxNode {
    type V = NodeView;

    open spec fn view(&self) -> NodeView {
        NodeView {
            kind: self.kind,
            kind_name: self.kind_name@,
            start: self.start,
            end: self.end,
            named: self.named,
            error: self.error,
            missing: self.missing,
            parent: self.parent,
            children: self.children@,
        }
    }
}

/// A node with no children yet.
pub open spec fn leaf_view(
    kind_name: Seq<char>,
    start: usize,
    end: usize,
    named: bool,
    error: bool,
    missing: bool,
    parent: Option<usize>,
) -> NodeView {
    NodeView {
        kind: spec_kind_from_name(kind_name),
        kind_name,
        start,
        end,
        named,
        error,
        missing,
        parent,
        children: Seq::empty(),
    }
}

/// `v` with `c` appended to its children.
pub open spec fn with_child(v: NodeView, c: usize) -> NodeView {
    NodeView { children: v.children.push(c), ..v }
}

/// A syntax tree over a source text of `source_len` bytes.
pub struct SyntaxTree {
    pub nodes: Vec<SyntaxNode>,
    pub source_len: usize,
}

/// The `k`-th named node in `ch`.
pub open spec fn nth_named(nodes: Seq<SyntaxNode>, ch: Seq<usize>, k: int) -> Option<usize>
    decreases ch.len(),
{
    if ch.len() == 0 {
        None
    } else if nodes[ch[0] as int].named {
        if k == 0 {
            Some(ch[0])
        } else {
            nth_named(nodes, ch.drop_first(), k - 1)
        }
    } else {
        nth_named(nodes, ch.drop_first(), k)
    }
}

impl SyntaxTree {
    pub open spec fn len(&self) -> int {
        self.nodes@.len() as int
    }

    /// The nodes as plain values, in arena order.
    pub open spec fn node_views(&self) -> Seq<NodeView> {
        self.nodes@.map_values(|n: SyntaxNode| n@)
    }

    pub open spec fn kind(&self, i: usize) -> NodeKind {
        self.nodes@[i as int].kind
    }

    pub open spec fn start(&self, i: usize) -> usize {
        self.nodes@[i as int].start
    }

    pub open spec fn end(&self, i: usize) -> usize {
        self.nodes@[i as int].end
    }

    pub open spec fn parent(&self, i: usize) -> Option<usize> {
        self.nodes@[i as int].parent
    }

    pub open spec fn children(&self, i: usize) -> Seq<usize> {
        self.nodes@[i as int].children@
    }

    /// Tree-sitter's `named_child(k)`.
    pub open spec fn named_child(&self, i: usize, k: int) -> Option<usize> {
        nth_named(self.nodes@, self.children(i), k)
    }

    /// The arena is a tree whose byte ranges lie in the source.
    pub open spec fn wf(&self) -> bool {
        &&& self.nodes@.len() > 0
        &&& self.nodes@.len() < usize::MAX
        &&& self.nodes@[0].parent is None
        &&& forall|i: int|
            0 < i < self.nodes@.len() ==> ((#[trigger] self.nodes@[i]).parent matches Some(p)
                && p < i)
        &&& forall|i: int|
            0 <= i < self.nodes@.len() ==> (#[trigger] self.nodes@[i]).start <= self.nodes@[i].end
                <= self.source_len
        &&& forall|i: int, k: int|
            0 <= i < self.nodes@.len() && 0 <= k < self.nodes@[i].children@.len() ==> {
                let c = #[trigger] self.nodes@[i].children@[k];
                &&& i < c < self.nodes@.len()
                &&& self.nodes@[c as int].parent == Some(i as usize)
                &&& self.nodes@[i].start <= self.nodes@[c as int].start
                &&& self.nodes@[c as int].end <= self.nodes@[i].end
            }
        &&& forall|i: int, k1: int, k2: int|
            0 <= i < self.nodes@.len() && 0 <= k1 < k2 < self.nodes@[i].children@.len()
                ==> #[trigger] self.nodes@[i].children@[k1] < #[trigger] self.nodes@[i].children@[k2]
    }

    /// The tree was built over `source`.
    pub open spec fn fits(&self, source: &str) -> bool {
        self.wf() && self.source_len == source.spec_bytes().len()
    }

    /// A tree holding only its root.
    pub fn new_root(
        source_len: usize,
        kind_name: &str,
        start: usize,
        end: usize,
        named: bool,
        error: bool,
        missing: bool,
    ) -> (t: SyntaxTree)
        requires
            start <= end <= source_len,
        ensures
            t.wf(),
            t.len() == 1,
            t.source_len == source_len,
            t.kind(0) == spec_kind_from_name(kind_name@),
            t.start(0) == start,
            t.end(0) == end,
            t.children(0).len() == 0,
            t.node_views() == seq![leaf_view(kind_name@, start, end, named, error, missing, None)],
    {
        let node = SyntaxNode {
            kind: kind_from_name(kind_name),
            kind_name: String::from_str(kind_name),
            start,
            end,
            named,
            error,
            missing,
            parent: None,
            children: Vec::new(),
        };
        let mut nodes = Vec::new();
        nodes.push(node);
        let t = SyntaxTree { nodes, source_len };
        assert(t.node_views() =~= seq![leaf_view(kind_name@, start, end, named, error, missing, None)]);
        t
    }

    /// Appends a new last child of `parent` and returns its index.
    pub fn add_node(
        &mut self,
        parent: usize,
        kind_name: &str,
        start: usize,
        end: usize,
        named: bool,
        error: bool,
        missing: bool,
    ) -> (r: usize)
        requires
            old(self).wf(),
            parent < old(self).len(),
            old(self).start(parent) <= start <= end <= old(self).end(parent),
            old(self).len() + 1 < usize::MAX,
        ensures
            final(self).wf(),
            r == old(self).len(),
            final(self).len() == old(self).len() + 1,
            final(self).source_len == old(self).source_len,
            final(self).kind(r) == spec_kind_from_name(kind_name@),
            final(self).start(r) == start,
            final(self).end(r) == end,
            final(self).nodes@[r as int].named == named,
            final(self).parent(r) == Some(parent),
            final(self).children(r).len() == 0,
            final(self).children(parent) == old(self).children(parent).push(r),
            forall|i: int|
                0 <= i < old(self).len() && i != parent ==> #[trigger] final(self).nodes@[i]
                    == old(self).nodes@[i],
            final(self).nodes@[parent as int].kind == old(self).nodes@[parent as int].kind,
            final(self).nodes@[parent as int].start == old(self).nodes@[parent as int].start,
            final(self).nodes@[parent as int].end == old(self).nodes@[parent as int].end,
            final(self).nodes@[parent as int].named == old(self).nodes@[parent as int].named,
            final(self).nodes@[parent as int].parent == old(self).nodes@[parent as int].parent,
            final(self).node_views() == old(self).node_views().update(
                parent as int,
                with_child(old(self).nodes@[parent as int]@, r),
            ).push(leaf_view(kind_name@, start, end, named, error, missing, Some(parent))),
    {
        let r = self.nodes.len();
        let node = SyntaxNode {
            kind: kind_from_name(kind_name),
            kind_name: String::from_str(kind_name),
            start,
            end,
            named,
            error,
            missing,
            parent: Some(parent),
            children: Vec::new(),
        };
        let ghost old_nodes = self.nodes@;
        self.nodes.push(node);
        let mut p = self.nodes.remove(parent);
        p.children.push(r);
        self.nodes.insert(parent, p);
        proof {
            assert(self.nodes@ =~= old_nodes.push(node).update(parent as int, p));
            assert(p@ == with_child(old_nodes[parent as int]@, r));
            assert(self.node_views() =~= old_nodes.map_values(|n: SyntaxNode| n@).update(
                parent as int,
                with_child(old_nodes[parent as int]@, r),
            ).push(leaf_view(kind_name@, start, end, named, error, missing, Some(parent))));
            let n = self.nodes@;
            assert forall|i: int|
                0 < i < n.len() implies ((#[trigger] n[i]).parent matches Some(q) && q < i) by {
                if i < old_nodes.len() {
                    assert(old_nodes[i].parent matches Some(q) && q < i);
                }
            }
            assert forall|i: int| 0 <= i < n.len() implies (#[trigger] n[i]).start <= n[i].end
                <= self.source_len by {
                if i < old_nodes.len() {
                    assert(old_nodes[i].start <= old_nodes[i].end);
                }
            }
            assert forall|i: int, k: int|
                0 <= i < n.len() && 0 <= k < n[i].children@.len() implies {
                let c = #[trigger] n[i].children@[k];
                &&& i < c < n.len()
                &&& n[c as int].parent == Some(i as usize)
                &&& n[i].start <= n[c as int].start
                &&& n[c as int].end <= n[i].end
            } by {
                if i == parent {
                    if k < old_nodes[i].children@.len() {
                        assert(n[i].children@[k] == old_nodes[i].children@[k]);
                    }
                } else if i < old_nodes.len() {
                    assert(n[i].children@[k] == old_nodes[i].children@[k]);
                }
            }
            assert forall|i: int, k1: int, k2: int|
                0 <= i < n.len() && 0 <= k1 < k2 < n[i].children@.len()
                    implies #[trigger] n[i].children@[k1] < #[trigger] n[i].children@[k2] by {
                if i == parent {
                    if k2 < old_nodes[i].children@.len() {
                        assert(n[i].children@[k1] == old_nodes[i].children@[k1]);
                        assert(n[i].children@[k2] == old_nodes[i].children@[k2]);
                    } else {
                        assert(n[i].children@[k1] == old_nodes[i].children@[k1]);
                    }
                } else if i < old_nodes.len() {
                    assert(n[i].children@[k1] == old_nodes[i].children@[k1]);
                    assert(n[i].children@[k2] == old_nodes[i].children@[k2]);
                }
            }
        }
        r
    }

    /// Tree-sitter's `named_child(k)`.
    pub fn get_named_child(&self, i: usize, k: usize) -> (r: Option<usize>)
        requires
            self.wf(),
            i < self.len(),
        ensures
            r == self.named_child(i, k as int),
            r matches Some(c) ==> i < c < self.len(),
    {
        let ch = &self.nodes[i].children;
        let ghost all = ch@;
        let mut idx: usize = 0;
        let mut count: usize = 0;
        assert(all.skip(0) =~= all);
        while idx < ch.len()
            invariant
                self.wf(),
                i < self.len(),
                ch@ == self.children(i),
                all == ch@,
                idx <= ch@.len(),
                count <= k,
                nth_named(self.nodes@, all, k as int) == nth_named(
                    self.nodes@,
                    all.skip(idx as int),
                    k - count,
                ),
            decreases ch.len() - idx,
        {
            let c = ch[idx];
            assert(all.skip(idx as int)[0] == c);
            assert(all.skip(idx as int).drop_first() =~= all.skip(idx + 1));
            if self.nodes[c].named {
                if count == k {
                    return Some(c);
                }
                count = count + 1;
            }
            idx = idx + 1;
        }
        None
    }

    /// Raw text of node `i`, when it is valid UTF-8.
    pub fn node_str<'a>(&self, source: &'a str, i: usize) -> (r: Option<&'a str>)
        requires
            self.fits(source),
            i < self.len(),
        ensures
            (r is Some) == (node_chars(self, source, i) is Some),
            r matches Some(s) ==> node_chars(self, source, i) == Some(s@),
    {
        let bytes = source.as_bytes();
        let n = &self.nodes[i];
        let sub = &bytes[n.start..n.end];
        let r = utf8_str(sub);
        proof {
            if let Some(s) = r {
                lemma_utf8_str_view(s, sub@);
            }
        }
        r
    }
}

/// The bytes of node `i` in `source`.
pub open spec fn node_bytes(t: &SyntaxTree, source: &str, i: usize) -> Seq<u8> {
    source.spec_bytes().subrange(t.start(i) as int, t.end(i) as int)
}

/// The text of node `i`, when valid UTF-8.
pub open spec fn node_chars(t: &SyntaxTree, source: &str, i: usize) -> Option<Seq<char>> {
    if valid_utf8(node_bytes(t, source, i)) {
        Some(decode_utf8(node_bytes(t, source, i)))
    } else {
        None
    }
}


/// Which quote-stripping rule a feature applies to key and value text.
#[derive(Clone, Copy, Debug, PartialEq, Eq, Structural)]
pub enum StripMode {
    /// Trim, then strip `"` then `'` greedily from both ends.
    Greedy,
    /// Trim, then strip `"` greedily from both ends.
    Double,
    /// Trim, then remove one surrounding pair of `"` or `'`.
    Pair,
}

pub open spec fn spec_strip(mode: StripMode, s: Seq<char>) -> Seq<char> {
    match mode {
        StripMode::Greedy => spec_strip_quotes(s),
        StripMode::Double => spec_strip_double_quotes(s),
        StripMode::Pair => spec_strip_quote_pair(s),
    }
}

pub fn strip_by(mode: StripMode, s: &str) -> (r: &str)
    ensures
        r@ == spec_strip(mode, s@),
{
    match mode {
        StripMode::Greedy => strip_quotes(s),
        StripMode::Double => strip_double_quotes(s),
        StripMode::Pair => strip_quote_pair(s),
    }
}

/// The stripped text of node `i`.
pub open spec fn stripped_text(t: &SyntaxTree, source: &str, i: usize, mode: StripMode) -> Option<
    Seq<char>,
> {
    match node_chars(t, source, i) {
        Some(c) => Some(spec_strip(mode, c)),
        None => None,
    }
}

/// The stripped text of a pair's key (its first named child).
pub open spec fn key_text(t: &SyntaxTree, source: &str, pair: usize, mode: StripMode) -> Option<
    Seq<char>,
> {
    match t.named_child(pair, 0) {
        Some(k) => stripped_text(t, source, k, mode),
        None => None,
    }
}

/// Node `i` is a pair whose key is `key`.
pub open spec fn pair_has_key(
    t: &SyntaxTree,
    source: &str,
    i: usize,
    key: Seq<char>,
    mode: StripMode,
) -> bool {
    is_pair_kind(t.kind(i)) && key_text(t, source, i, mode) == Some(key)
}

/// The first node of `ch` that is a pair with key `key`.
pub open spec fn first_pair_with_key(
    t: &SyntaxTree,
    source: &str,
    ch: Seq<usize>,
    key: Seq<char>,
    mode: StripMode,
) -> Option<usize>
    decreases ch.len(),
{
    if ch.len() == 0 {
        None
    } else if pair_has_key(t, source, ch[0], key, mode) {
        Some(ch[0])
    } else {
        first_pair_with_key(t, source, ch.drop_first(), key, mode)
    }
}

/// The first direct child of `obj` that is a pair with key `key`.
pub open spec fn find_pair(
    t: &SyntaxTree,
    source: &str,
    obj: usize,
    key: Seq<char>,
    mode: StripMode,
) -> Option<usize> {
    first_pair_with_key(t, source, t.children(obj), key, mode)
}

/// Follows `flow_node` / `block_node` wrappers down their first named child.
pub open spec fn unwrap_wrapper(t: &SyntaxTree, i: usize) -> usize
    decreases t.len() - i,
{
    if i < t.len() && is_wrapper_kind(t.kind(i)) {
        match t.named_child(i, 0) {
            Some(c) => if i < c < t.len() {
                unwrap_wrapper(t, c)
            } else {
                i
            },
            None => i,
        }
    } else {
        i
    }
}

/// `a` is a proper ancestor of `j`.
pub open spec fn is_ancestor(t: &SyntaxTree, a: usize, j: usize) -> bool
    decreases j,
{
    match t.parent(j) {
        Some(p) => if p < j {
            p == a || is_ancestor(t, a, p)
        } else {
            false
        },
        None => false,
    }
}

/// The least index `j >= from` that descends from `a` and satisfies `p`.
pub open spec fn first_descendant(
    t: &SyntaxTree,
    a: usize,
    from: int,
    p: spec_fn(usize) -> bool,
) -> Option<usize>
    decreases t.len() - from,
{
    if from < 0 || from >= t.len() {
        None
    } else if is_ancestor(t, a, from as usize) && p(from as usize) {
        Some(from as usize)
    } else {
        first_descendant(t, a, from + 1, p)
    }
}

/// The descendants of `a` from index `from` on that satisfy `p`, in index
/// order.
pub open spec fn descendants_where(
    t: &SyntaxTree,
    a: usize,
    from: int,
    p: spec_fn(usize) -> bool,
) -> Seq<usize>
    decreases t.len() - from,
{
    if from < 0 || from >= t.len() {
        Seq::empty()
    } else if is_ancestor(t, a, from as usize) && p(from as usize) {
        seq![from as usize] + descendants_where(t, a, from + 1, p)
    } else {
        descendants_where(t, a, from + 1, p)
    }
}

/// A pair with key `key` that has a value.
pub open spec fn keyed_pair_with_value(
    t: &SyntaxTree,
    source: &str,
    key: Seq<char>,
    mode: StripMode,
) -> spec_fn(usize) -> bool {
    |j: usize| pair_has_key(t, source, j, key, mode) && t.named_child(j, 1) is Some
}

/// Recursive `find_value_for_key`: the value of the first pair with key
/// `key` among the descendants of `node`, in document order.
pub open spec fn find_value_for_key(
    t: &SyntaxTree,
    source: &str,
    node: usize,
    key: Seq<char>,
    mode: StripMode,
) -> Option<usize> {
    match first_descendant(t, node, node + 1, keyed_pair_with_value(t, source, key, mode)) {
        Some(j) => t.named_child(j, 1),
        None => None,
    }
}

/// The first node in document order among `node` and its descendants
/// that is a mapping.
pub open spec fn find_outer_mapping(t: &SyntaxTree, node: usize) -> Option<usize> {
    if is_mapping_kind(t.kind(node)) {
        Some(node)
    } else {
        first_descendant(t, node, node + 1, mapping_node(t))
    }
}

pub open spec fn mapping_node(t: &SyntaxTree) -> spec_fn(usize) -> bool {
    |j: usize| is_mapping_kind(t.kind(j))
}

/// `start <= offset < end`.
pub open spec fn contains_offset(t: &SyntaxTree, i: usize, offset: usize) -> bool {
    t.start(i) <= offset < t.end(i)
}

/// The first node of `ch` whose range contains `offset`.
pub open spec fn first_containing(t: &SyntaxTree, ch: Seq<usize>, offset: usize) -> Option<usize>
    decreases ch.len(),
{
    if ch.len() == 0 {
        None
    } else if contains_offset(t, ch[0], offset) {
        Some(ch[0])
    } else {
        first_containing(t, ch.drop_first(), offset)
    }
}

/// Descends from `cur` into the first child containing `offset`, as long
/// as there is one.
pub open spec fn descend_to(t: &SyntaxTree, cur: usize, offset: usize) -> usize
    decreases t.len() - cur,
{
    match first_containing(t, t.children(cur), offset) {
        Some(c) => if cur < c < t.len() {
            descend_to(t, c, offset)
        } else {
            cur
        },
        None => cur,
    }
}

impl SyntaxTree {
    /// Stripped text of node `i`.
    pub fn stripped<'a>(&self, source: &'a str, i: usize, mode: StripMode) -> (r: Option<&'a str>)
        requires
            self.fits(source),
            i < self.len(),
        ensures
            (r is Some) == (stripped_text(self, source, i, mode) is Some),
            r matches Some(s) ==> stripped_text(self, source, i, mode) == Some(s@),
    {
        match self.node_str(source, i) {
            Some(s) => Some(strip_by(mode, s)),
            None => None,
        }
    }

    /// Stripped text of a pair's key.
    pub fn key_of<'a>(&self, source: &'a str, pair: usize, mode: StripMode) -> (r: Option<&'a str>)
        requires
            self.fits(source),
            pair < self.len(),
        ensures
            (r is Some) == (key_text(self, source, pair, mode) is Some),
            r matches Some(s) ==> key_text(self, source, pair, mode) == Some(s@),
    {
        match self.get_named_child(pair, 0) {
            Some(k) => self.stripped(source, k, mode),
            None => None,
        }
    }

    pub fn has_key(&self, source: &str, i: usize, key: &str, mode: StripMode) -> (r: bool)
        requires
            self.fits(source),
            i < self.len(),
        ensures
            r == pair_has_key(self, source, i, key@, mode),
    {
        if !is_pair(self.nodes[i].kind) {
            return false;
        }
        match self.key_of(source, i, mode) {
            Some(k) => str_eq(k, key),
            None => false,
        }
    }

    /// The first direct child of `obj` that is a pair with key `key`.
    pub fn find_pair(&self, source: &str, obj: usize, key: &str, mode: StripMode) -> (r: Option<
        usize,
    >)
        requires
            self.fits(source),
            obj < self.len(),
        ensures
            r == find_pair(self, source, obj, key@, mode),
            r matches Some(p) ==> obj < p < self.len() && self.start(obj) <= self.start(p)
                <= self.end(p) <= self.end(obj),
    {
        let ch = &self.nodes[obj].children;
        let ghost all = ch@;
        let mut idx: usize = 0;
        assert(all.skip(0) =~= all);
        while idx < ch.len()
            invariant
                self.fits(source),
                obj < self.len(),
                ch@ == self.children(obj),
                all == ch@,
                idx <= ch@.len(),
                find_pair(self, source, obj, key@, mode) == first_pair_with_key(
                    self,
                    source,
                    all.skip(idx as int),
                    key@,
                    mode,
                ),
            decreases ch.len() - idx,
        {
            let c = ch[idx];
            assert(all.skip(idx as int)[0] == c);
            assert(all.skip(idx as int).drop_first() =~= all.skip(idx + 1));
            assert(self.nodes@[obj as int].children@[idx as int] == c);
            assert(obj < c < self.len());
            if self.has_key(source, c, key, mode) {
                return Some(c);
            }
            idx = idx + 1;
        }
        None
    }

    /// Follows YAML wrappers down to the wrapped node.
    pub fn unwrap_wrapper(&self, i: usize) -> (r: usize)
        requires
            self.wf(),
            i < self.len(),
        ensures
            r == unwrap_wrapper(self, i),
            i <= r < self.len(),
    {
        let mut cur = i;
        while is_wrapper(self.nodes[cur].kind)
            invariant
                self.wf(),
                i <= cur < self.len(),
                unwrap_wrapper(self, i) == unwrap_wrapper(self, cur),
            decreases self.len() - cur,
        {
            match self.get_named_child(cur, 0) {
                Some(c) => {
                    cur = c;
                },
                None => {
                    return cur;
                },
            }
        }
        cur
    }

    /// `a` is a proper ancestor of `j`.
    pub fn is_ancestor(&self, a: usize, j: usize) -> (r: bool)
        requires
            self.wf(),
            j < self.len(),
        ensures
            r == is_ancestor(self, a, j),
    {
        let mut cur = j;
        while cur > 0
            invariant
                self.wf(),
                cur < self.len(),
                is_ancestor(self, a, j) == is_ancestor(self, a, cur),
            decreases cur,
        {
            match self.nodes[cur].parent {
                Some(p) => {
                    if p == a {
                        return true;
                    }
                    cur = p;
                },
                None => {
                    return false;
                },
            }
        }
        // The root has no parent.
        false
    }

    /// The value of the first pair with key `key` among the descendants of
    /// `node`, in document order.
    pub fn find_value_for_key(&self, source: &str, node: usize, key: &str, mode: StripMode) -> (r:
        Option<usize>)
        requires
            self.fits(source),
            node < self.len(),
        ensures
            r == find_value_for_key(self, source, node, key@, mode),
            r matches Some(v) ==> v < self.len(),
    {
        let ghost p = keyed_pair_with_value(self, source, key@, mode);
        let mut j = node + 1;
        while j < self.nodes.len()
            invariant
                self.fits(source),
                node < j <= self.len(),
                p == keyed_pair_with_value(self, source, key@, mode),
                first_descendant(self, node, node + 1, p) == first_descendant(self, node, j as int, p),
            decreases self.len() - j,
        {
            if self.is_ancestor(node, j) && self.has_key(source, j, key, mode) {
                let v = self.get_named_child(j, 1);
                if v.is_some() {
                    return v;
                }
            }
            j = j + 1;
        }
        None
    }

    /// The first mapping among `node` and its descendants, in document order.
    pub fn find_outer_mapping(&self, node: usize) -> (r: Option<usize>)
        requires
            self.wf(),
            node < self.len(),
        ensures
            r == find_outer_mapping(self, node),
            r matches Some(m) ==> m < self.len(),
    {
        if is_mapping(self.nodes[node].kind) {
            return Some(node);
        }
        let ghost p = mapping_node(self);
        let mut j = node + 1;
        while j < self.nodes.len()
            invariant
                self.wf(),
                node < j <= self.len(),
                p == mapping_node(self),
                !is_mapping_kind(self.kind(node)),
                first_descendant(self, node, node + 1, p) == first_descendant(self, node, j as int, p),
            decreases self.len() - j,
        {
            if self.is_ancestor(node, j) && is_mapping(self.nodes[j].kind) {
                assert(p(j));
                return Some(j);
            }
            j = j + 1;
        }
        None
    }

    /// The deepest node reached from the root by repeatedly entering the
    /// first child whose range contains `offset`.
    pub fn node_at_byte(&self, offset: usize) -> (r: usize)
        requires
            self.wf(),
        ensures
            r == descend_to(self, 0, offset),
            r < self.len(),
    {
        let mut cur: usize = 0;
        loop
            invariant
                self.wf(),
                cur < self.len(),
                descend_to(self, 0, offset) == descend_to(self, cur, offset),
            decreases self.len() - cur,
        {
            let ch = &self.nodes[cur].children;
            let ghost all = ch@;
            let mut idx: usize = 0;
            let mut next: Option<usize> = None;
            assert(all.skip(0) =~= all);
            while idx < ch.len() && next.is_none()
                invariant
                    self.wf(),
                    cur < self.len(),
                    ch@ == self.children(cur),
                    all == ch@,
                    idx <= ch@.len(),
                    next is None ==> first_containing(self, all, offset) == first_containing(
                        self,
                        all.skip(idx as int),
                        offset,
                    ),
                    next matches Some(c) ==> first_containing(self, all, offset) == Some(c) && cur
                        < c < self.len(),
                decreases ch.len() - idx,
            {
                let c = ch[idx];
                assert(all.skip(idx as int)[0] == c);
                assert(all.skip(idx as int).drop_first() =~= all.skip(idx + 1));
                if self.nodes[c].start <= offset && offset < self.nodes[c].end {
                    next = Some(c);
                }
                idx = idx + 1;
            }
            match next {
                Some(c) => {
                    cur = c;
                },
                None => {
                    return cur;
                },
            }
        }
    }
}

} // verus!
