//! Go-to-definition: from a `foreign_key.ref_table` value to the `name`
//! of the table it refers to.

use std::ops::Range;
use vstd::prelude::*;
use crate::syntax::{
    SyntaxTree, NodeKind, StripMode, stripped_text, pair_has_key, descend_to, first_descendant,
};
use crate::locator::is_object_kind;

verus! {

/// A place in a document of the workspace.
#[derive(Debug, PartialEq, Eq)]
pub struct DomainLocation {
    pub uri: String,
    pub byte_range: Range<usize>,
}

/// The first pair with key `key` among `i` and its ancestors.
pub open spec fn ancestor_pair_with_key(
    t: &SyntaxTree,
    source: &str,
    i: usize,
    key: Seq<char>,
) -> Option<usize>
    decreases i,
{
    if i >= t.len() {
        None
    } else if pair_has_key(t, source, i, key, StripMode::Greedy) {
        Some(i)
    } else {
        match t.parent(i) {
            Some(p) => if p < i {
                ancestor_pair_with_key(t, source, p, key)
            } else {
                None
            },
            None => None,
        }
    }
}

/// The `ref_table` value at `offset`: the table name it reads and the
/// range of the value node.
pub open spec fn spec_ref_table_at(t: &SyntaxTree, source: &str, offset: usize) -> Option<
    (Seq<char>, (usize, usize)),
> {
    match ancestor_pair_with_key(t, source, descend_to(t, 0, offset), "ref_table"@) {
        Some(p) => match t.named_child(p, 1) {
            Some(v) => match stripped_text(t, source, v, StripMode::Greedy) {
                Some(name) => Some((name, (t.start(v), t.end(v)))),
                None => None,
            },
            None => None,
        },
        None => None,
    }
}

pub(crate) fn ancestor_pair(t: &SyntaxTree, source: &str, i: usize, key: &str) -> (r: Option<usize>)
    requires
        t.fits(source),
        i < t.len(),
    ensures
        r == ancestor_pair_with_key(t, source, i, key@),
        r matches Some(p) ==> p < t.len(),
{
    let mut cur = i;
    loop
        invariant
            t.fits(source),
            cur < t.len(),
            ancestor_pair_with_key(t, source, i, key@) == ancestor_pair_with_key(t, source, cur, key@),
        decreases cur,
    {
        if t.has_key(source, cur, key, StripMode::Greedy) {
            return Some(cur);
        }
        match t.nodes[cur].parent {
            Some(p) => {
                cur = p;
            },
            None => {
                return None;
            },
        }
    }
}

/// The `ref_table` value under the cursor, if any.
pub fn ref_table_at<'a>(t: &SyntaxTree, source: &'a str, offset: usize) -> (r: Option<
    (&'a str, Range<usize>),
>)
    requires
        t.fits(source),
    ensures
        match r {
            Some((name, range)) => spec_ref_table_at(t, source, offset) == Some(
                (name@, (range.start, range.end)),
            ),
            None => spec_ref_table_at(t, source, offset) is None,
        },
{
    let node = t.node_at_byte(offset);
    let p = match ancestor_pair(t, source, node, "ref_table") {
        Some(p) => p,
        None => {
            return None;
        },
    };
    let v = match t.get_named_child(p, 1) {
        Some(v) => v,
        None => {
            return None;
        },
    };
    match t.stripped(source, v, StripMode::Greedy) {
        Some(name) => Some((name, t.nodes[v].start..t.nodes[v].end)),
        None => None,
    }
}

// ---------------------------------------------------------------------------
// The table name of the target file
// ---------------------------------------------------------------------------

/// Node `c` is a pair whose key reads `name`.
pub open spec fn is_name_pair(t: &SyntaxTree, source: &str, c: usize) -> bool {
    pair_has_key(t, source, c, "name"@, StripMode::Greedy)
}

/// The value range of the first `name` pair of `ch`; a first `name` pair
/// without a value ends the search with nothing.
pub open spec fn direct_name_range(t: &SyntaxTree, source: &str, ch: Seq<usize>) -> Option<
    (usize, usize),
>
    decreases ch.len(),
{
    if ch.len() == 0 {
        None
    } else if is_name_pair(t, source, ch[0]) {
        match t.named_child(ch[0], 1) {
            Some(v) => Some((t.start(v), t.end(v))),
            None => None,
        }
    } else {
        direct_name_range(t, source, ch.drop_first())
    }
}

/// Depth-first search below `node` for a `name` pair: in each child list
/// the first `name` pair decides (its value's range, or nothing when it has
/// no value); other children are searched in turn.
pub open spec fn walk_for_name(t: &SyntaxTree, source: &str, node: usize) -> Option<(usize, usize)>
    decreases t.len() - node, 1int, 0int,
{
    if node >= t.len() {
        None
    } else {
        walk_children_for_name(t, source, node, t.children(node))
    }
}

pub open spec fn walk_children_for_name(
    t: &SyntaxTree,
    source: &str,
    parent: usize,
    ch: Seq<usize>,
) -> Option<(usize, usize)>
    decreases t.len() - parent, 0int, ch.len(),
{
    if ch.len() == 0 || parent >= t.len() {
        None
    } else {
        let c = ch[0];
        if !(parent < c && c < t.len()) {
            None
        } else if is_name_pair(t, source, c) {
            match t.named_child(c, 1) {
                Some(v) => Some((t.start(v), t.end(v))),
                None => None,
            }
        } else {
            match walk_for_name(t, source, c) {
                Some(r) => Some(r),
                None => walk_children_for_name(t, source, parent, ch.drop_first()),
            }
        }
    }
}

pub open spec fn object_node(t: &SyntaxTree) -> spec_fn(usize) -> bool {
    |j: usize| is_object_kind(t.kind(j))
}

/// The first `object` / `block_mapping` in document order.
pub open spec fn first_object(t: &SyntaxTree) -> Option<usize> {
    if is_object_kind(t.kind(0)) {
        Some(0)
    } else {
        first_descendant(t, 0, 1, object_node(t))
    }
}

/// The range of the table's `name` value in a target file: the first
/// object's direct `name`, else the first `name` found by a depth-first
/// search of the whole document.
pub open spec fn spec_top_level_name_range(t: &SyntaxTree, source: &str) -> Option<(usize, usize)> {
    match first_object(t) {
        None => None,
        Some(m) => match direct_name_range(t, source, t.children(m)) {
            Some(r) => Some(r),
            None => walk_for_name(t, source, 0),
        },
    }
}

fn first_object_node(t: &SyntaxTree) -> (r: Option<usize>)
    requires
        t.wf(),
    ensures
        r == first_object(t),
        r matches Some(m) ==> m < t.len(),
{
    if matches!(t.nodes[0].kind, NodeKind::Object | NodeKind::BlockMapping) {
        return Some(0);
    }
    let ghost p = object_node(t);
    let mut j: usize = 1;
    while j < t.nodes.len()
        invariant
            t.wf(),
            1 <= j <= t.len(),
            p == object_node(t),
            !is_object_kind(t.kind(0)),
            first_descendant(t, 0, 1, p) == first_descendant(t, 0, j as int, p),
        decreases t.len() - j,
    {
        if t.is_ancestor(0, j) && matches!(t.nodes[j].kind, NodeKind::Object | NodeKind::BlockMapping) {
            assert(p(j));
            return Some(j);
        }
        j = j + 1;
    }
    None
}

fn direct_name(t: &SyntaxTree, source: &str, m: usize) -> (r: Option<Range<usize>>)
    requires
        t.fits(source),
        m < t.len(),
    ensures
        match r {
            Some(x) => direct_name_range(t, source, t.children(m)) == Some((x.start, x.end)),
            None => direct_name_range(t, source, t.children(m)) is None,
        },
{
    let ch = &t.nodes[m].children;
    let ghost all = ch@;
    let mut i: usize = 0;
    assert(all.skip(0) =~= all);
    while i < ch.len()
        invariant
            t.fits(source),
            m < t.len(),
            ch@ == t.children(m),
            all == ch@,
            i <= ch@.len(),
            direct_name_range(t, source, all) == direct_name_range(t, source, all.skip(i as int)),
        decreases ch.len() - i,
    {
        let c = ch[i];
        assert(t.nodes@[m as int].children@[i as int] == c);
        assert(all.skip(i as int)[0] == c);
        assert(all.skip(i as int).drop_first() =~= all.skip(i + 1));
        if t.has_key(source, c, "name", StripMode::Greedy) {
            return match t.get_named_child(c, 1) {
                Some(v) => Some(t.nodes[v].start..t.nodes[v].end),
                None => None,
            };
        }
        i = i + 1;
    }
    None
}

fn walk_name(t: &SyntaxTree, source: &str, node: usize) -> (r: Option<Range<usize>>)
    requires
        t.fits(source),
        node < t.len(),
    ensures
        match r {
            Some(x) => walk_for_name(t, source, node) == Some((x.start, x.end)),
            None => walk_for_name(t, source, node) is None,
        },
    decreases t.len() - node,
{
    let ch = &t.nodes[node].children;
    let ghost all = ch@;
    let mut i: usize = 0;
    assert(all.skip(0) =~= all);
    while i < ch.len()
        invariant
            t.fits(source),
            node < t.len(),
            ch@ == t.children(node),
            all == ch@,
            i <= ch@.len(),
            walk_for_name(t, source, node) == walk_children_for_name(
                t,
                source,
                node,
                all.skip(i as int),
            ),
        decreases ch.len() - i,
    {
        let c = ch[i];
        assert(t.nodes@[node as int].children@[i as int] == c);
        assert(all.skip(i as int)[0] == c);
        assert(all.skip(i as int).drop_first() =~= all.skip(i + 1));
        if t.has_key(source, c, "name", StripMode::Greedy) {
            return match t.get_named_child(c, 1) {
                Some(v) => Some(t.nodes[v].start..t.nodes[v].end),
                None => None,
            };
        }
        match walk_name(t, source, c) {
            Some(x) => {
                return Some(x);
            },
            None => {},
        }
        i = i + 1;
    }
    None
}

/// The range of the table name in a target file.
pub fn find_top_level_name_range(t: &SyntaxTree, source: &str) -> (r: Option<Range<usize>>)
    requires
        t.fits(source),
    ensures
        match r {
            Some(x) => spec_top_level_name_range(t, source) == Some((x.start, x.end)),
            None => spec_top_level_name_range(t, source) is None,
        },
{
    let m = match first_object_node(t) {
        Some(m) => m,
        None => {
            return None;
        },
    };
    match direct_name(t, source, m) {
        Some(x) => Some(x),
        None => walk_name(t, source, 0),
    }
}

/// Where go-to-definition lands in the target file `uri`: its table name
/// when the file is open with a tree and has one, else `0..0`.
pub open spec fn spec_target_range(target: Option<(&str, Option<&SyntaxTree>)>) -> (usize, usize) {
    match target {
        Some((source, Some(t))) => match spec_top_level_name_range(t, source) {
            Some(r) => r,
            None => (0, 0),
        },
        _ => (0, 0),
    }
}

pub fn target_location(uri: &str, target: Option<(&str, Option<&SyntaxTree>)>) -> (r: DomainLocation)
    requires
        target matches Some((s, Some(t))) ==> t.fits(s),
    ensures
        r.uri@ == uri@,
        (r.byte_range.start, r.byte_range.end) == spec_target_range(target),
{
    let range = match target {
        Some((source, Some(t))) => match find_top_level_name_range(t, source) {
            Some(x) => x,
            None => 0..0,
        },
        _ => 0..0,
    };
    DomainLocation { uri: String::from_str(uri), byte_range: range }
}

} // verus!
