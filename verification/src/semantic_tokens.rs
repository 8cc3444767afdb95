//! Semantic tokens: classification of model-file spans by meaning (a table
//! name, a column name, a type, an enum value, ...), on top of the syntax
//! colouring that editors already do.
//!
//! The classifier walks the syntax tree with a small context record that
//! says where the walk is (inside `columns`, inside one column, inside a
//! complex `type` object, ...). YAML wrappers (`flow_node`, `block_node`)
//! are peeled; quoted scalars are reported without their quotes.

use std::ops::Range;
use vstd::prelude::*;
use crate::syntax::{
    SyntaxTree, NodeKind, StripMode, stripped_text, unwrap_wrapper, is_mapping_kind,
    is_sequence_kind, is_mapping, is_sequence,
};
use crate::text::str_eq;
use crate::parse::DocumentFormat;
use crate::check_expr::{CheckToken, CheckTokenKind};

verus! {

/// The token types reported to the client, in legend order.
#[derive(Clone, Copy, Debug, PartialEq, Eq, Structural)]
pub enum TokenIdx {
    Class,
    Property,
    EnumMember,
    Type,
    Keyword,
    Number,
    String,
}

impl TokenIdx {
    /// Position of the type in the legend.
    pub open spec fn legend_index(self) -> u32 {
        match self {
            TokenIdx::Class => 0,
            TokenIdx::Property => 1,
            TokenIdx::EnumMember => 2,
            TokenIdx::Type => 3,
            TokenIdx::Keyword => 4,
            TokenIdx::Number => 5,
            TokenIdx::String => 6,
        }
    }

    pub fn index(self) -> (r: u32)
        ensures
            r == self.legend_index(),
    {
        match self {
            TokenIdx::Class => 0,
            TokenIdx::Property => 1,
            TokenIdx::EnumMember => 2,
            TokenIdx::Type => 3,
            TokenIdx::Keyword => 4,
            TokenIdx::Number => 5,
            TokenIdx::String => 6,
        }
    }
}

/// Modifier bit: the span declares the named object.
pub const MOD_DECLARATION: u32 = 1;

/// Modifier bit: the span refers to the definition of an object declared
/// elsewhere.
pub const MOD_DEFINITION: u32 = 2;

/// One classified span of the source.
#[derive(Debug)]
pub struct RawToken {
    /// UTF-8 byte range of the token in the source document.
    pub byte_range: Range<usize>,
    /// Index into the token-type legend.
    pub token_type: u32,
    /// Bitmask over the token-modifier legend.
    pub token_modifiers: u32,
}

/// A token as plain values: start, end, type, modifiers.
pub type TokenView = (usize, usize, u32, u32);

impl View for RawToken {
    type V = TokenView;

    open spec fn view(&self) -> TokenView {
        (self.byte_range.start, self.byte_range.end, self.token_type, self.token_modifiers)
    }
}

pub open spec fn token_views(v: Seq<RawToken>) -> Seq<TokenView> {
    v.map_values(|r: RawToken| r@)
}

// ---------------------------------------------------------------------------
// Range filtering
// ---------------------------------------------------------------------------

/// The tokens of `s` whose range overlaps `start..end`, in order.
pub open spec fn overlapping(s: Seq<TokenView>, start: usize, end: usize) -> Seq<TokenView>
    decreases s.len(),
{
    if s.len() == 0 {
        Seq::empty()
    } else {
        let t = s.last();
        let rest = overlapping(s.drop_last(), start, end);
        if t.0 < end && start < t.1 {
            rest.push(t)
        } else {
            rest
        }
    }
}

/// Keeps the tokens whose byte range overlaps `range`, in order.
pub fn filter_range(tokens: Vec<RawToken>, range: Range<usize>) -> (r: Vec<RawToken>)
    ensures
        token_views(r@) == overlapping(token_views(tokens@), range.start, range.end),
{
    let mut out: Vec<RawToken> = Vec::new();
    let mut i: usize = 0;
    while i < tokens.len()
        invariant
            i <= tokens@.len(),
            token_views(out@) == overlapping(token_views(tokens@).take(i as int), range.start, range.end),
        decreases tokens.len() - i,
    {
        let t = &tokens[i];
        proof {
            let all = token_views(tokens@);
            assert(all.take(i + 1).drop_last() =~= all.take(i as int));
            assert(all.take(i + 1).last() == t@);
        }
        if t.byte_range.start < range.end && range.start < t.byte_range.end {
            let copy = RawToken {
                byte_range: t.byte_range.start..t.byte_range.end,
                token_type: t.token_type,
                token_modifiers: t.token_modifiers,
            };
            let ghost prev = out@;
            out.push(copy);
            proof {
                assert(token_views(out@) =~= token_views(prev).push(copy@));
            }
        }
        i = i + 1;
    }
    assert(token_views(tokens@).take(tokens@.len() as int) =~= token_views(tokens@));
    out
}

// ---------------------------------------------------------------------------
// Classification
// ---------------------------------------------------------------------------

/// Where the walk is in the model document.
#[derive(Clone, Copy, Debug)]
pub struct WalkContext {
    pub inside_columns: bool,
    pub inside_column: bool,
    pub inside_complex_type_object: bool,
    pub inside_enum_values_array: bool,
    pub inside_foreign_key: bool,
    pub inside_ref_columns: bool,
    /// Number of mappings entered so far; the table's own mapping is 1.
    pub mapping_depth: usize,
}

/// The context at the root of a document.
pub open spec fn initial_context() -> WalkContext {
    WalkContext {
        inside_columns: false,
        inside_column: false,
        inside_complex_type_object: false,
        inside_enum_values_array: false,
        inside_foreign_key: false,
        inside_ref_columns: false,
        mapping_depth: 0,
    }
}

/// How the items of a node's child list are treated.
#[derive(Clone, Copy, Debug, PartialEq, Eq, Structural)]
pub enum ListMode {
    /// Walk every child.
    Plain,
    /// `ref_columns` list: scalar items are column references.
    RefColumns,
    /// Enum `values` list: scalar items are enum members.
    EnumValues,
    /// `columns` list: mapping items are column definitions.
    Columns,
}

/// Scalars of either grammar.
pub open spec fn is_scalar_kind(k: NodeKind) -> bool {
    matches!(
        k,
        NodeKind::PlainScalar | NodeKind::DoubleQuoteScalar | NodeKind::SingleQuoteScalar
            | NodeKind::StringScalar | NodeKind::IntegerScalar | NodeKind::FloatScalar
            | NodeKind::BooleanScalar | NodeKind::NullScalar | NodeKind::String | NodeKind::Number
            | NodeKind::True | NodeKind::False | NodeKind::Null
    )
}

pub fn is_scalar(k: NodeKind) -> (r: bool)
    ensures
        r == is_scalar_kind(k),
{
    matches!(
        k,
        NodeKind::PlainScalar | NodeKind::DoubleQuoteScalar | NodeKind::SingleQuoteScalar
            | NodeKind::StringScalar | NodeKind::IntegerScalar | NodeKind::FloatScalar
            | NodeKind::BooleanScalar | NodeKind::NullScalar | NodeKind::String | NodeKind::Number
            | NodeKind::True | NodeKind::False | NodeKind::Null
    )
}

/// Scalars whose byte range includes their quotes.
pub open spec fn is_quoted_kind(k: NodeKind) -> bool {
    matches!(k, NodeKind::DoubleQuoteScalar | NodeKind::SingleQuoteScalar | NodeKind::String)
}

/// `key: value` pairs of either grammar, block or flow.
pub open spec fn is_pair_like_kind(k: NodeKind) -> bool {
    matches!(k, NodeKind::Pair | NodeKind::BlockMappingPair | NodeKind::FlowPair)
}

fn is_pair_like(k: NodeKind) -> (r: bool)
    ensures
        r == is_pair_like_kind(k),
{
    matches!(k, NodeKind::Pair | NodeKind::BlockMappingPair | NodeKind::FlowPair)
}

/// The range of a scalar without its quotes (one byte each side, when
/// the scalar is quoted and at least two bytes long).
pub open spec fn inner_scalar_range(t: &SyntaxTree, node: usize) -> (usize, usize) {
    if is_quoted_kind(t.kind(node)) && t.end(node) - t.start(node) >= 2 {
        ((t.start(node) + 1) as usize, (t.end(node) - 1) as usize)
    } else {
        (t.start(node), t.end(node))
    }
}

/// The token for a scalar node, unless its inner range is empty.
pub open spec fn scalar_token(t: &SyntaxTree, node: usize, ty: TokenIdx, mods: u32) -> Seq<
    TokenView,
> {
    let (s, e) = inner_scalar_range(t, node);
    if e <= s {
        Seq::empty()
    } else {
        seq![(s, e, ty.legend_index(), mods)]
    }
}

/// A column's `default`: scalars are reported as strings.
pub open spec fn default_tokens(t: &SyntaxTree, value: usize) -> Seq<TokenView> {
    let v = unwrap_wrapper(t, value);
    if v < t.len() && is_scalar_kind(t.kind(v)) {
        scalar_token(t, v, TokenIdx::String, 0)
    } else {
        Seq::empty()
    }
}

pub open spec fn deeper(ctx: WalkContext) -> WalkContext {
    WalkContext { mapping_depth: (ctx.mapping_depth + 1) as usize, ..ctx }
}

/// Tokens of the subtree at `node`.
pub open spec fn walk_tokens(t: &SyntaxTree, source: &str, node: usize, ctx: WalkContext) -> Seq<
    TokenView,
>
    decreases t.len() - node, 1int, 0int,
{
    if node >= t.len() {
        Seq::empty()
    } else if is_mapping_kind(t.kind(node)) {
        list_tokens(t, source, node, t.children(node), ListMode::Plain, deeper(ctx))
    } else if is_pair_like_kind(t.kind(node)) {
        pair_tokens(t, source, node, ctx)
    } else {
        list_tokens(t, source, node, t.children(node), ListMode::Plain, ctx)
    }
}

/// Tokens of the child list `ch` of `parent`, item by item.
pub open spec fn list_tokens(
    t: &SyntaxTree,
    source: &str,
    parent: usize,
    ch: Seq<usize>,
    mode: ListMode,
    ctx: WalkContext,
) -> Seq<TokenView>
    decreases t.len() - parent, 0int, ch.len(),
{
    if ch.len() == 0 || parent >= t.len() {
        Seq::empty()
    } else {
        let before = list_tokens(t, source, parent, ch.drop_last(), mode, ctx);
        let c = ch.last();
        let e = unwrap_wrapper(t, c);
        let item = if !(parent < c && c < t.len() && e < t.len()) {
            Seq::empty()
        } else {
            match mode {
                ListMode::Plain => walk_tokens(t, source, c, ctx),
                ListMode::RefColumns => if is_scalar_kind(t.kind(e)) {
                    scalar_token(t, e, TokenIdx::Property, MOD_DEFINITION)
                } else {
                    walk_tokens(t, source, c, ctx)
                },
                ListMode::EnumValues => if is_scalar_kind(t.kind(e)) {
                    scalar_token(t, e, TokenIdx::EnumMember, 0)
                } else {
                    walk_tokens(t, source, c, ctx)
                },
                ListMode::Columns => if is_mapping_kind(t.kind(e)) || t.kind(e)
                    == NodeKind::BlockSequenceItem {
                    walk_tokens(t, source, c, WalkContext { inside_column: true, ..ctx })
                } else {
                    walk_tokens(t, source, c, ctx)
                },
            }
        };
        before + item
    }
}

/// Tokens of a `key: value` pair: the value is classified by the key and
/// the context, then walked.
pub open spec fn pair_tokens(t: &SyntaxTree, source: &str, p: usize, ctx: WalkContext) -> Seq<
    TokenView,
>
    decreases t.len() - p, 0int, 0int,
{
    if p >= t.len() {
        Seq::empty()
    } else {
        match (t.named_child(p, 0), t.named_child(p, 1)) {
            (Some(kc), Some(vc)) => {
                let k = unwrap_wrapper(t, kc);
                let v = unwrap_wrapper(t, vc);
                if !(p < v && v < t.len() && k < t.len()) {
                    Seq::empty()
                } else {
                    match stripped_text(t, source, k, StripMode::Greedy) {
                        None => Seq::empty(),
                        Some(key) => {
                            let rec = value_tokens(t, source, v, ctx);
                            if key == "name"@ && ctx.mapping_depth == 1 && !ctx.inside_columns {
                                scalar_token(t, v, TokenIdx::Class, MOD_DECLARATION) + rec
                            } else if key == "name"@ && ctx.inside_column
                                && !ctx.inside_complex_type_object {
                                scalar_token(t, v, TokenIdx::Property, MOD_DECLARATION) + rec
                            } else if key == "name"@ && ctx.inside_enum_values_array {
                                scalar_token(t, v, TokenIdx::EnumMember, 0) + rec
                            } else if key == "columns"@ {
                                value_tokens(
                                    t,
                                    source,
                                    v,
                                    WalkContext { inside_columns: true, ..ctx },
                                )
                            } else if key == "type"@ && ctx.inside_columns {
                                type_value_tokens(t, source, v, ctx)
                            } else if key == "kind"@ && ctx.inside_complex_type_object {
                                scalar_token(t, v, TokenIdx::EnumMember, 0) + rec
                            } else if key == "values"@ && ctx.inside_complex_type_object {
                                value_tokens(
                                    t,
                                    source,
                                    v,
                                    WalkContext { inside_enum_values_array: true, ..ctx },
                                )
                            } else if key == "foreign_key"@ {
                                value_tokens(
                                    t,
                                    source,
                                    v,
                                    WalkContext { inside_foreign_key: true, ..ctx },
                                )
                            } else if key == "ref_table"@ && ctx.inside_foreign_key {
                                scalar_token(t, v, TokenIdx::Class, MOD_DEFINITION) + rec
                            } else if key == "ref_columns"@ && ctx.inside_foreign_key {
                                value_tokens(
                                    t,
                                    source,
                                    v,
                                    WalkContext { inside_ref_columns: true, ..ctx },
                                )
                            } else if (key == "on_delete"@ || key == "on_update"@)
                                && ctx.inside_foreign_key {
                                scalar_token(t, v, TokenIdx::EnumMember, 0) + rec
                            } else if key == "default"@ && ctx.inside_column {
                                default_tokens(t, v) + rec
                            } else {
                                rec
                            }
                        },
                    }
                }
            },
            _ => Seq::empty(),
        }
    }
}

/// Tokens of a pair's value: list values are walked item by item under
/// the innermost list role in force, anything else is walked plainly.
pub open spec fn value_tokens(t: &SyntaxTree, source: &str, value: usize, ctx: WalkContext) -> Seq<
    TokenView,
>
    decreases t.len() - value, 2int, 0int,
{
    let v = unwrap_wrapper(t, value);
    if !(value <= v && v < t.len()) {
        Seq::empty()
    } else if ctx.inside_ref_columns && is_sequence_kind(t.kind(v)) {
        list_tokens(t, source, v, t.children(v), ListMode::RefColumns, ctx)
    } else if ctx.inside_enum_values_array && is_sequence_kind(t.kind(v)) {
        list_tokens(t, source, v, t.children(v), ListMode::EnumValues, ctx)
    } else if ctx.inside_columns && is_sequence_kind(t.kind(v)) {
        list_tokens(t, source, v, t.children(v), ListMode::Columns, ctx)
    } else {
        walk_tokens(t, source, value, ctx)
    }
}

/// Tokens of a column's `type` value: a scalar is a type name, a mapping
/// is a complex type object.
pub open spec fn type_value_tokens(
    t: &SyntaxTree,
    source: &str,
    value: usize,
    ctx: WalkContext,
) -> Seq<TokenView>
    decreases t.len() - value, 2int, 0int,
{
    let v = unwrap_wrapper(t, value);
    if !(value <= v && v < t.len()) {
        Seq::empty()
    } else if is_scalar_kind(t.kind(v)) {
        scalar_token(t, v, TokenIdx::Type, 0)
    } else if is_mapping_kind(t.kind(v)) {
        walk_tokens(t, source, value, WalkContext { inside_complex_type_object: true, ..ctx })
    } else {
        walk_tokens(t, source, value, ctx)
    }
}

fn push_scalar(t: &SyntaxTree, node: usize, ty: TokenIdx, mods: u32, out: &mut Vec<RawToken>)
    requires
        t.wf(),
        node < t.len(),
    ensures
        token_views(final(out)@) == token_views(old(out)@) + scalar_token(t, node, ty, mods),
{
    let n = &t.nodes[node];
    let (s, e) = if matches!(n.kind, NodeKind::DoubleQuoteScalar | NodeKind::SingleQuoteScalar | NodeKind::String)
        && n.end - n.start >= 2 {
        (n.start + 1, n.end - 1)
    } else {
        (n.start, n.end)
    };
    if e <= s {
        assert(token_views(out@) =~= token_views(out@) + Seq::<TokenView>::empty());
        return;
    }
    let tok = RawToken { byte_range: s..e, token_type: ty.index(), token_modifiers: mods };
    let ghost prev = out@;
    out.push(tok);
    proof {
        assert(token_views(out@) =~= token_views(prev) + seq![tok@]);
    }
}

fn push_default(t: &SyntaxTree, value: usize, out: &mut Vec<RawToken>)
    requires
        t.wf(),
        value < t.len(),
    ensures
        token_views(final(out)@) == token_views(old(out)@) + default_tokens(t, value),
{
    let v = t.unwrap_wrapper(value);
    if is_scalar(t.nodes[v].kind) {
        push_scalar(t, v, TokenIdx::String, 0, out);
    } else {
        assert(token_views(out@) =~= token_views(out@) + Seq::<TokenView>::empty());
    }
}

fn walk(t: &SyntaxTree, source: &str, node: usize, ctx: WalkContext, out: &mut Vec<RawToken>)
    requires
        t.fits(source),
        node < t.len(),
        ctx.mapping_depth <= node,
    ensures
        token_views(final(out)@) == token_views(old(out)@) + walk_tokens(t, source, node, ctx),
    decreases t.len() - node, 1int,
{
    let k = t.nodes[node].kind;
    if is_mapping(k) {
        let inner = WalkContext { mapping_depth: ctx.mapping_depth + 1, ..ctx };
        walk_list(t, source, node, ListMode::Plain, inner, out);
    } else if is_pair_like(k) {
        classify_pair(t, source, node, ctx, out);
    } else {
        walk_list(t, source, node, ListMode::Plain, ctx, out);
    }
}

fn walk_list(
    t: &SyntaxTree,
    source: &str,
    parent: usize,
    mode: ListMode,
    ctx: WalkContext,
    out: &mut Vec<RawToken>,
)
    requires
        t.fits(source),
        parent < t.len(),
        ctx.mapping_depth <= parent + 1,
    ensures
        token_views(final(out)@) == token_views(old(out)@) + list_tokens(
            t,
            source,
            parent,
            t.children(parent),
            mode,
            ctx,
        ),
    decreases t.len() - parent, 0int,
{
    let ch = &t.nodes[parent].children;
    let ghost start = token_views(out@);
    let mut i: usize = 0;
    assert(ch@.take(0) =~= Seq::<usize>::empty());
    assert(start =~= start + Seq::<TokenView>::empty());
    while i < ch.len()
        invariant
            t.fits(source),
            parent < t.len(),
            ctx.mapping_depth <= parent + 1,
            ch@ == t.children(parent),
            i <= ch@.len(),
            token_views(out@) == start + list_tokens(t, source, parent, ch@.take(i as int), mode, ctx),
        decreases ch.len() - i,
    {
        let c = ch[i];
        assert(t.nodes@[parent as int].children@[i as int] == c);
        assert(parent < c < t.len());
        let ghost pre = ch@.take(i + 1);
        assert(pre.drop_last() =~= ch@.take(i as int));
        assert(pre.last() == c);
        let ghost before = token_views(out@);
        let e = t.unwrap_wrapper(c);
        match mode {
            ListMode::Plain => {
                walk(t, source, c, ctx, out);
            },
            ListMode::RefColumns => {
                if is_scalar(t.nodes[e].kind) {
                    push_scalar(t, e, TokenIdx::Property, MOD_DEFINITION, out);
                } else {
                    walk(t, source, c, ctx, out);
                }
            },
            ListMode::EnumValues => {
                if is_scalar(t.nodes[e].kind) {
                    push_scalar(t, e, TokenIdx::EnumMember, 0, out);
                } else {
                    walk(t, source, c, ctx, out);
                }
            },
            ListMode::Columns => {
                let ek = t.nodes[e].kind;
                if is_mapping(ek) || matches!(ek, NodeKind::BlockSequenceItem) {
                    walk(t, source, c, WalkContext { inside_column: true, ..ctx }, out);
                } else {
                    walk(t, source, c, ctx, out);
                }
            },
        }
        proof {
            assert(token_views(out@) =~= start + list_tokens(t, source, parent, pre, mode, ctx));
        }
        i = i + 1;
    }
    assert(ch@.take(ch@.len() as int) =~= ch@);
}

fn classify_pair(
    t: &SyntaxTree,
    source: &str,
    p: usize,
    ctx: WalkContext,
    out: &mut Vec<RawToken>,
)
    requires
        t.fits(source),
        p < t.len(),
        ctx.mapping_depth <= p,
    ensures
        token_views(final(out)@) == token_views(old(out)@) + pair_tokens(t, source, p, ctx),
    decreases t.len() - p, 0int,
{
    let kc = t.get_named_child(p, 0);
    let vc = t.get_named_child(p, 1);
    let (kc, vc) = match (kc, vc) {
        (Some(a), Some(b)) => (a, b),
        _ => {
            assert(token_views(out@) =~= token_views(out@) + Seq::<TokenView>::empty());
            return;
        },
    };
    let k = t.unwrap_wrapper(kc);
    let v = t.unwrap_wrapper(vc);
    let key = match t.stripped(source, k, StripMode::Greedy) {
        Some(s) => s,
        None => {
            assert(token_views(out@) =~= token_views(out@) + Seq::<TokenView>::empty());
            return;
        },
    };
    let is_name = str_eq(key, "name");
    if is_name && ctx.mapping_depth == 1 && !ctx.inside_columns {
        push_scalar(t, v, TokenIdx::Class, MOD_DECLARATION, out);
        classify_value(t, source, v, ctx, out);
    } else if is_name && ctx.inside_column && !ctx.inside_complex_type_object {
        push_scalar(t, v, TokenIdx::Property, MOD_DECLARATION, out);
        classify_value(t, source, v, ctx, out);
    } else if is_name && ctx.inside_enum_values_array {
        push_scalar(t, v, TokenIdx::EnumMember, 0, out);
        classify_value(t, source, v, ctx, out);
    } else if str_eq(key, "columns") {
        classify_value(t, source, v, WalkContext { inside_columns: true, ..ctx }, out);
    } else if str_eq(key, "type") && ctx.inside_columns {
        classify_type_value(t, source, v, ctx, out);
    } else if str_eq(key, "kind") && ctx.inside_complex_type_object {
        push_scalar(t, v, TokenIdx::EnumMember, 0, out);
        classify_value(t, source, v, ctx, out);
    } else if str_eq(key, "values") && ctx.inside_complex_type_object {
        classify_value(t, source, v, WalkContext { inside_enum_values_array: true, ..ctx }, out);
    } else if str_eq(key, "foreign_key") {
        classify_value(t, source, v, WalkContext { inside_foreign_key: true, ..ctx }, out);
    } else if str_eq(key, "ref_table") && ctx.inside_foreign_key {
        push_scalar(t, v, TokenIdx::Class, MOD_DEFINITION, out);
        classify_value(t, source, v, ctx, out);
    } else if str_eq(key, "ref_columns") && ctx.inside_foreign_key {
        classify_value(t, source, v, WalkContext { inside_ref_columns: true, ..ctx }, out);
    } else if (str_eq(key, "on_delete") || str_eq(key, "on_update")) && ctx.inside_foreign_key {
        push_scalar(t, v, TokenIdx::EnumMember, 0, out);
        classify_value(t, source, v, ctx, out);
    } else if str_eq(key, "default") && ctx.inside_column {
        push_default(t, v, out);
        classify_value(t, source, v, ctx, out);
    } else {
        classify_value(t, source, v, ctx, out);
    }
}

fn classify_value(
    t: &SyntaxTree,
    source: &str,
    value: usize,
    ctx: WalkContext,
    out: &mut Vec<RawToken>,
)
    requires
        t.fits(source),
        value < t.len(),
        ctx.mapping_depth <= value,
    ensures
        token_views(final(out)@) == token_views(old(out)@) + value_tokens(t, source, value, ctx),
    decreases t.len() - value, 2int,
{
    let v = t.unwrap_wrapper(value);
    let seq_kind = is_sequence(t.nodes[v].kind);
    if ctx.inside_ref_columns && seq_kind {
        walk_list(t, source, v, ListMode::RefColumns, ctx, out);
    } else if ctx.inside_enum_values_array && seq_kind {
        walk_list(t, source, v, ListMode::EnumValues, ctx, out);
    } else if ctx.inside_columns && seq_kind {
        walk_list(t, source, v, ListMode::Columns, ctx, out);
    } else {
        walk(t, source, value, ctx, out);
    }
}

fn classify_type_value(
    t: &SyntaxTree,
    source: &str,
    value: usize,
    ctx: WalkContext,
    out: &mut Vec<RawToken>,
)
    requires
        t.fits(source),
        value < t.len(),
        ctx.mapping_depth <= value,
    ensures
        token_views(final(out)@) == token_views(old(out)@) + type_value_tokens(
            t,
            source,
            value,
            ctx,
        ),
    decreases t.len() - value, 2int,
{
    let v = t.unwrap_wrapper(value);
    let k = t.nodes[v].kind;
    if is_scalar(k) {
        push_scalar(t, v, TokenIdx::Type, 0, out);
    } else if is_mapping(k) {
        walk(t, source, value, WalkContext { inside_complex_type_object: true, ..ctx }, out);
    } else {
        walk(t, source, value, ctx, out);
    }
}

/// Classifies a whole document. JSON and YAML trees go through the same
/// rules: the node-kind predicates cover both grammars.
pub fn classify(source: &str, format: DocumentFormat, tree: Option<&SyntaxTree>) -> (r: Vec<
    RawToken,
>)
    requires
        tree matches Some(t) ==> t.fits(source),
    ensures
        tree is None ==> r@.len() == 0,
        tree matches Some(t) ==> token_views(r@) == walk_tokens(t, source, 0, initial_context()),
{
    let mut out: Vec<RawToken> = Vec::new();
    match tree {
        None => out,
        Some(t) => {
            let ctx = WalkContext {
                inside_columns: false,
                inside_column: false,
                inside_complex_type_object: false,
                inside_enum_values_array: false,
                inside_foreign_key: false,
                inside_ref_columns: false,
                mapping_depth: 0,
            };
            assert(token_views(out@) =~= Seq::<TokenView>::empty());
            walk(t, source, 0, ctx, &mut out);
            assert(token_views(out@) =~= walk_tokens(t, source, 0, initial_context()));
            out
        },
    }
}


// ---------------------------------------------------------------------------
// CHECK expressions
// ---------------------------------------------------------------------------

/// The token type of a CHECK lexeme: columns are properties, keywords and
/// operators keywords, literals numbers and strings; punctuation has none.
pub open spec fn spec_check_token_type(k: CheckTokenKind) -> Option<TokenIdx> {
    match k {
        CheckTokenKind::Column => Some(TokenIdx::Property),
        CheckTokenKind::Keyword => Some(TokenIdx::Keyword),
        CheckTokenKind::Operator => Some(TokenIdx::Keyword),
        CheckTokenKind::Number => Some(TokenIdx::Number),
        CheckTokenKind::String => Some(TokenIdx::String),
        CheckTokenKind::Punctuation => None,
    }
}

pub fn token_kind_to_idx(kind: CheckTokenKind) -> (r: Option<TokenIdx>)
    ensures
        r == spec_check_token_type(kind),
{
    match kind {
        CheckTokenKind::Column => Some(TokenIdx::Property),
        CheckTokenKind::Keyword | CheckTokenKind::Operator => Some(TokenIdx::Keyword),
        CheckTokenKind::Number => Some(TokenIdx::Number),
        CheckTokenKind::String => Some(TokenIdx::String),
        CheckTokenKind::Punctuation => None,
    }
}

/// The tokens of a CHECK expression's lexemes, shifted by `inner_start`
/// from expression-relative to document offsets, punctuation left out.
pub open spec fn check_expr_tokens(toks: Seq<CheckToken>, inner_start: usize) -> Seq<TokenView>
    decreases toks.len(),
{
    if toks.len() == 0 {
        Seq::empty()
    } else {
        let rest = check_expr_tokens(toks.drop_last(), inner_start);
        let tok = toks.last();
        match spec_check_token_type(tok.kind) {
            Some(idx) => rest.push(
                (
                    (inner_start + tok.span.start) as usize,
                    (inner_start + tok.span.end) as usize,
                    idx.legend_index(),
                    0u32,
                ),
            ),
            None => rest,
        }
    }
}

/// Appends one token per highlightable lexeme of a CHECK expression whose
/// text starts at `inner_start` in the document.
pub fn emit_check_expr_tokens(tokens: &[CheckToken], inner_start: usize, out: &mut Vec<RawToken>)
    requires
        forall|k: int|
            0 <= k < tokens@.len() ==> inner_start + (#[trigger] tokens@[k]).span.start
                <= usize::MAX && inner_start + tokens@[k].span.end <= usize::MAX,
    ensures
        token_views(final(out)@) == token_views(old(out)@) + check_expr_tokens(
            tokens@,
            inner_start,
        ),
{
    let ghost start = token_views(out@);
    let mut i: usize = 0;
    assert(tokens@.take(0) =~= Seq::<CheckToken>::empty());
    assert(token_views(out@) =~= start + Seq::<TokenView>::empty());
    while i < tokens.len()
        invariant
            forall|k: int|
                0 <= k < tokens@.len() ==> inner_start + (#[trigger] tokens@[k]).span.start
                    <= usize::MAX && inner_start + tokens@[k].span.end <= usize::MAX,
            i <= tokens@.len(),
            token_views(out@) == start + check_expr_tokens(tokens@.take(i as int), inner_start),
        decreases tokens.len() - i,
    {
        let tok = &tokens[i];
        let ghost pre = tokens@.take(i + 1);
        assert(pre.drop_last() =~= tokens@.take(i as int));
        assert(pre.last() == tokens@[i as int]);
        let ghost before = token_views(out@);
        match token_kind_to_idx(tok.kind) {
            Some(idx) => {
                let t = RawToken {
                    byte_range: (inner_start + tok.span.start)..(inner_start + tok.span.end),
                    token_type: idx.index(),
                    token_modifiers: 0,
                };
                out.push(t);
                assert(token_views(out@) =~= before.push(t@));
            },
            None => {},
        }
        i = i + 1;
    }
    assert(tokens@.take(tokens@.len() as int) =~= tokens@);
}


// ---------------------------------------------------------------------------
// Laws
// ---------------------------------------------------------------------------

/// Inside a `foreign_key` object the value of an `on_update` pair, like
/// that of an `on_delete` pair, gets one enum-member token (legend index 2)
/// with no modifiers over its text without quotes, ahead of whatever the
/// value itself contains.
pub proof fn lemma_fk_action_value_is_enum_member(
    t: &SyntaxTree,
    source: &str,
    p: usize,
    ctx: WalkContext,
    kc: usize,
    vc: usize,
)
    requires
        p < t.len(),
        t.named_child(p, 0) == Some(kc),
        t.named_child(p, 1) == Some(vc),
        p < unwrap_wrapper(t, vc) < t.len(),
        unwrap_wrapper(t, kc) < t.len(),
        stripped_text(t, source, unwrap_wrapper(t, kc), StripMode::Greedy) == Some("on_update"@)
            || stripped_text(t, source, unwrap_wrapper(t, kc), StripMode::Greedy) == Some(
            "on_delete"@,
        ),
        ctx.inside_foreign_key,
    ensures
        ({
            let v = unwrap_wrapper(t, vc);
            let quoted = (t.kind(v) == NodeKind::String || t.kind(v) == NodeKind::DoubleQuoteScalar
                || t.kind(v) == NodeKind::SingleQuoteScalar) && t.end(v) - t.start(v) >= 2;
            let s: int = if quoted { t.start(v) + 1 } else { t.start(v) as int };
            let e: int = if quoted { t.end(v) - 1 } else { t.end(v) as int };
            s < e ==> pair_tokens(t, source, p, ctx) == seq![(s as usize, e as usize, 2u32, 0u32)]
                + value_tokens(t, source, v, ctx)
        }),
{
    reveal_strlit("on_update");
    reveal_strlit("on_delete");
    reveal_strlit("name");
    reveal_strlit("columns");
    reveal_strlit("type");
    reveal_strlit("kind");
    reveal_strlit("values");
    reveal_strlit("foreign_key");
    reveal_strlit("ref_table");
    reveal_strlit("ref_columns");
    let key = stripped_text(t, source, unwrap_wrapper(t, kc), StripMode::Greedy)->0;
    assert(key != "name"@ && key != "columns"@ && key != "type"@ && key != "kind"@
        && key != "values"@ && key != "foreign_key"@ && key != "ref_table"@
        && key != "ref_columns"@) by {
        if key == "on_update"@ {
            assert(key[1] == 'n');
            assert(key.len() == 9);
        } else {
            assert(key[1] == 'n');
            assert(key.len() == 9);
        }
    }
}

} // verus!
