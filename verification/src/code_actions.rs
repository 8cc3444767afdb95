//! Code actions: quick refactors of the JSON column object under the
//! cursor (flag toggles, nullability, type conversions, enum extraction,
//! a foreign key skeleton) and the swap of reversed `BETWEEN` bounds in a
//! CHECK expression.

use std::ops::Range;
use vstd::prelude::*;
use vstd::string::*;
use vstd::utf8::*;
use crate::parse::DocumentFormat;
use crate::rename::DomainTextEdit;
use crate::check_expr::{BetweenCandidate, is_reversed, spec_swaps, LiteralOrder};
use crate::syntax::{
    SyntaxTree, NodeKind, StripMode, node_bytes, node_chars, find_pair, key_text, descend_to,
    stripped_text,
};
use crate::text::{
    utf8_str, trim, trim_end, trim_start, str_eq, chars_of, ws, trim_end_by, trim_start_by,
    spec_trim, lemma_utf8_str_view, lemma_trim_end_is_prefix, lemma_trim_start_is_suffix,
    lemma_encode_nonempty, spec_strip_double_quotes,
};

verus! {

broadcast use encode_utf8_decode_utf8, decode_utf8_encode_utf8;

/// The kind of a code action.
#[derive(Clone, Copy, Debug, PartialEq, Eq, Structural)]
pub enum CodeActionKind {
    /// `refactor.rewrite`.
    Refactor,
}

/// A titled set of edits to the document under the cursor.
#[derive(Debug)]
pub struct DomainCodeAction {
    pub title: String,
    pub kind: CodeActionKind,
    pub edits: Vec<DomainTextEdit>,
}

impl View for DomainCodeAction {
    type V = (Seq<char>, Seq<(usize, usize, Seq<char>)>);

    open spec fn view(&self) -> Self::V {
        (self.title@, self.edits@.map_values(|e: DomainTextEdit| e@))
    }
}

pub open spec fn actions_view(v: Seq<DomainCodeAction>) -> Seq<(Seq<char>, Seq<(usize, usize, Seq<char>)>)> {
    v.map_values(|a: DomainCodeAction| a@)
}

pub open spec fn opt_seq<A>(o: Option<A>) -> Seq<A> {
    match o {
        Some(a) => seq![a],
        None => Seq::empty(),
    }
}

// ---------------------------------------------------------------------------
// Specifications
// ---------------------------------------------------------------------------

/// The last index of byte `x` in `b`.
pub open spec fn last_index_of(b: Seq<u8>, x: u8) -> Option<int>
    decreases b.len(),
{
    if b.len() == 0 {
        None
    } else if b.last() == x {
        Some(b.len() - 1)
    } else {
        last_index_of(b.drop_last(), x)
    }
}

/// Inserting `"key":value` just before the column object's last `}`, with
/// a leading comma unless the object is empty or already ends in a comma.
pub open spec fn spec_insert_pair_edit(
    t: &SyntaxTree,
    source: &str,
    column: usize,
    key: Seq<char>,
    value: Seq<char>,
) -> Option<(usize, usize, Seq<char>)> {
    let b = node_bytes(t, source, column);
    if !valid_utf8(b) {
        None
    } else {
        match last_index_of(b, 125u8) {
            None => None,
            Some(k) => {
                let pre = b.take(k);
                if !valid_utf8(pre) {
                    None
                } else {
                    let tr = trim_end_by(decode_utf8(pre), ws());
                    let needs_comma = tr.len() > 0 && tr.last() != '{' && tr.last() != ',';
                    let text = if needs_comma {
                        ",\""@ + key + "\":"@ + value
                    } else {
                        "\""@ + key + "\":"@ + value
                    };
                    let at = (t.start(column) + k) as usize;
                    Some((at, at, text))
                }
            },
        }
    }
}

/// Removing a pair from its object together with one neighbouring comma:
/// the comma before it when there is one (after whitespace), else the
/// comma after it, else none.
pub open spec fn spec_remove_pair_edit(t: &SyntaxTree, source: &str, column: usize, pair: usize) -> Option<
    (usize, usize, Seq<char>),
> {
    let b = node_bytes(t, source, column);
    let cs = t.start(column);
    let ps = t.start(pair) - cs;
    let pe = t.end(pair) - cs;
    let before = b.take(ps);
    let after = b.skip(pe);
    if !valid_utf8(b) || !valid_utf8(before) || !valid_utf8(after) {
        None
    } else {
        let tb = trim_end_by(decode_utf8(before), ws());
        let ta = trim_start_by(decode_utf8(after), ws());
        if tb.len() > 0 && tb.last() == ',' {
            Some(((cs + encode_utf8(tb).len() - 1) as usize, (cs + pe) as usize, Seq::empty()))
        } else if ta.len() > 0 && ta[0] == ',' {
            Some(
                (
                    (cs + ps) as usize,
                    (cs + pe + (after.len() - encode_utf8(ta).len()) + 1) as usize,
                    Seq::empty(),
                ),
            )
        } else {
            Some(((cs + ps) as usize, (cs + pe) as usize, Seq::empty()))
        }
    }
}

pub open spec fn action(title: Seq<char>, e: (usize, usize, Seq<char>)) -> (Seq<char>, Seq<(usize, usize, Seq<char>)>) {
    (title, seq![e])
}

/// Toggle a boolean flag: a `true` flag is removed, any other value is set
/// to `true`, an absent flag is inserted as `true`.
pub open spec fn spec_toggle_bool_flag(
    t: &SyntaxTree,
    source: &str,
    column: usize,
    flag: Seq<char>,
    add_title: Seq<char>,
    remove_title: Seq<char>,
) -> Option<(Seq<char>, Seq<(usize, usize, Seq<char>)>)> {
    match find_pair(t, source, column, flag, StripMode::Double) {
        Some(pair) => match t.named_child(pair, 1) {
            None => None,
            Some(v) => match node_chars(t, source, v) {
                None => None,
                Some(vt) => if spec_trim(vt) == "true"@ {
                    match spec_remove_pair_edit(t, source, column, pair) {
                        Some(e) => Some(action(remove_title, e)),
                        None => None,
                    }
                } else {
                    Some(action(add_title, (t.start(v), t.end(v), "true"@)))
                },
            },
        },
        None => match spec_insert_pair_edit(t, source, column, flag, "true"@) {
            Some(e) => Some(action(add_title, e)),
            None => None,
        },
    }
}

/// Toggle `nullable`: `true` becomes `false` and back; absent is inserted
/// as `false`; any other value offers nothing.
pub open spec fn spec_toggle_nullable(t: &SyntaxTree, source: &str, column: usize) -> Option<
    (Seq<char>, Seq<(usize, usize, Seq<char>)>),
> {
    match find_pair(t, source, column, "nullable"@, StripMode::Double) {
        Some(pair) => match t.named_child(pair, 1) {
            None => None,
            Some(v) => match node_chars(t, source, v) {
                None => None,
                Some(vt) => if spec_trim(vt) == "true"@ {
                    Some(action("Make column NOT NULL"@, (t.start(v), t.end(v), "false"@)))
                } else if spec_trim(vt) == "false"@ {
                    Some(action("Allow NULL"@, (t.start(v), t.end(v), "true"@)))
                } else {
                    None
                },
            },
        },
        None => match spec_insert_pair_edit(t, source, column, "nullable"@, "false"@) {
            Some(e) => Some(action("Make column NOT NULL"@, e)),
            None => None,
        },
    }
}

pub open spec fn spec_flag_toggles(t: &SyntaxTree, source: &str, column: usize) -> Seq<
    (Seq<char>, Seq<(usize, usize, Seq<char>)>),
> {
    opt_seq(
        spec_toggle_bool_flag(
            t,
            source,
            column,
            "primary_key"@,
            "Mark column as primary key"@,
            "Unmark primary key"@,
        ),
    ) + opt_seq(
        spec_toggle_bool_flag(
            t,
            source,
            column,
            "unique"@,
            "Mark column as unique"@,
            "Remove unique"@,
        ),
    ) + opt_seq(
        spec_toggle_bool_flag(t, source, column, "index"@, "Add index to column"@, "Remove index"@),
    ) + opt_seq(spec_toggle_nullable(t, source, column))
}

/// The value node of the column's `type` pair when it is a JSON string.
pub open spec fn string_type_value(t: &SyntaxTree, source: &str, column: usize) -> Option<usize> {
    match find_pair(t, source, column, "type"@, StripMode::Double) {
        Some(p) => match t.named_child(p, 1) {
            Some(v) => if t.kind(v) == NodeKind::String {
                Some(v)
            } else {
                None
            },
            None => None,
        },
        None => None,
    }
}

pub open spec fn is_varchar_family(k: Seq<char>) -> bool {
    k == "text"@ || k == "varchar"@ || k == "char"@
}

pub open spec fn is_numeric_family(k: Seq<char>) -> bool {
    k == "integer"@ || k == "big_int"@ || k == "small_int"@ || k == "real"@ || k
        == "double_precision"@
}

/// A simple string type offers its parametric form: `varchar(255)` for
/// the text family, `numeric(10,2)` for the number family.
pub open spec fn spec_type_conversions(t: &SyntaxTree, source: &str, column: usize) -> Seq<
    (Seq<char>, Seq<(usize, usize, Seq<char>)>),
> {
    match string_type_value(t, source, column) {
        Some(v) => match node_chars(t, source, v) {
            Some(text) => {
                let k = spec_strip_double_quotes(text);
                if is_varchar_family(k) {
                    seq![
                        action(
                            "Convert to varchar(255)"@,
                            (t.start(v), t.end(v), "{\"kind\":\"varchar\",\"length\":255}"@),
                        ),
                    ]
                } else if is_numeric_family(k) {
                    seq![
                        action(
                            "Convert to numeric(10,2)"@,
                            (
                                t.start(v),
                                t.end(v),
                                "{\"kind\":\"numeric\",\"precision\":10,\"scale\":2}"@,
                            ),
                        ),
                    ]
                } else {
                    Seq::empty()
                }
            },
            None => Seq::empty(),
        },
        None => Seq::empty(),
    }
}

/// The text between one pair of single quotes, when non-empty.
pub open spec fn sql_literal_inner(s: Seq<char>) -> Option<Seq<char>> {
    if s.len() >= 3 && s[0] == '\'' && s.last() == '\'' {
        Some(s.subrange(1, s.len() - 1))
    } else {
        None
    }
}

/// The column's name for the enum, `status` when it has none.
pub open spec fn column_name_or_status(t: &SyntaxTree, source: &str, column: usize) -> Seq<char> {
    match find_pair(t, source, column, "name"@, StripMode::Double) {
        Some(p) => match t.named_child(p, 1) {
            Some(v) => match stripped_text(t, source, v, StripMode::Double) {
                Some(n) => n,
                None => "status"@,
            },
            None => "status"@,
        },
        None => "status"@,
    }
}

/// A default of the form `'literal'` on a simple string type becomes an
/// enum type `{name}_kind` with that single value.
pub open spec fn spec_enum_extraction(t: &SyntaxTree, source: &str, column: usize) -> Seq<
    (Seq<char>, Seq<(usize, usize, Seq<char>)>),
> {
    match find_pair(t, source, column, "default"@, StripMode::Double) {
        None => Seq::empty(),
        Some(dp) => match t.named_child(dp, 1) {
            None => Seq::empty(),
            Some(dv) => if t.kind(dv) != NodeKind::String {
                Seq::empty()
            } else {
                match stripped_text(t, source, dv, StripMode::Double) {
                    None => Seq::empty(),
                    Some(d) => match sql_literal_inner(d) {
                        None => Seq::empty(),
                        Some(inner) => match string_type_value(t, source, column) {
                            None => Seq::empty(),
                            Some(tv) => {
                                let enum_name = column_name_or_status(t, source, column)
                                    + "_kind"@;
                                seq![
                                    action(
                                        "Extract default into enum `"@ + enum_name + "`"@,
                                        (
                                            t.start(tv),
                                            t.end(tv),
                                            "{\"kind\":\"enum\",\"name\":\""@ + enum_name
                                                + "\",\"values\":[\""@ + inner + "\"]}"@,
                                        ),
                                    ),
                                ]
                            },
                        },
                    },
                }
            },
        },
    }
}

/// A column without `foreign_key` offers a skeleton one.
pub open spec fn spec_fk_skeleton(t: &SyntaxTree, source: &str, column: usize) -> Seq<
    (Seq<char>, Seq<(usize, usize, Seq<char>)>),
> {
    if find_pair(t, source, column, "foreign_key"@, StripMode::Double) is Some {
        Seq::empty()
    } else {
        match spec_insert_pair_edit(
            t,
            source,
            column,
            "foreign_key"@,
            "{\"ref_table\":\"\",\"ref_columns\":[\"id\"],\"on_delete\":\"cascade\"}"@,
        ) {
            Some(e) => seq![action("Add foreign_key skeleton"@, e)],
            None => Seq::empty(),
        }
    }
}

/// The first node met walking up from `i` (itself included) that
/// satisfies `p`.
pub open spec fn first_up(t: &SyntaxTree, i: usize, p: spec_fn(usize) -> bool) -> Option<usize>
    decreases i,
{
    if p(i) {
        Some(i)
    } else {
        match t.parent(i) {
            Some(q) => if q < i {
                first_up(t, q, p)
            } else {
                None
            },
            None => None,
        }
    }
}

pub open spec fn is_columns_pair(t: &SyntaxTree, source: &str) -> spec_fn(usize) -> bool {
    |a: usize| t.kind(a) == NodeKind::Pair && key_text(t, source, a, StripMode::Double) == Some(
        "columns"@,
    )
}

/// Some proper ancestor of `c` is the `columns` pair.
pub open spec fn inside_columns_array(t: &SyntaxTree, source: &str, c: usize) -> bool {
    match t.parent(c) {
        Some(p) => p < c && first_up(t, p, is_columns_pair(t, source)) is Some,
        None => false,
    }
}

pub open spec fn is_column_object(t: &SyntaxTree, source: &str) -> spec_fn(usize) -> bool {
    |c: usize| t.kind(c) == NodeKind::Object && inside_columns_array(t, source, c)
}

/// The smallest JSON object around `offset` that lies inside `columns`.
pub open spec fn spec_enclosing_column_object(t: &SyntaxTree, source: &str, offset: usize) -> Option<
    usize,
> {
    first_up(t, descend_to(t, 0, offset), is_column_object(t, source))
}

pub open spec fn spec_column_actions(t: &SyntaxTree, source: &str, offset: usize) -> Seq<
    (Seq<char>, Seq<(usize, usize, Seq<char>)>),
> {
    match spec_enclosing_column_object(t, source, offset) {
        Some(c) => spec_flag_toggles(t, source, c) + spec_type_conversions(t, source, c)
            + spec_enum_extraction(t, source, c) + spec_fk_skeleton(t, source, c),
        None => Seq::empty(),
    }
}

// ---------------------------------------------------------------------------
// Executable code
// ---------------------------------------------------------------------------

fn text_edit(start: usize, end: usize, text: String) -> (e: DomainTextEdit)
    ensures
        e@ == (start, end, text@),
{
    DomainTextEdit { byte_range: start..end, new_text: text }
}

fn single_action(title: &str, e: DomainTextEdit) -> (a: DomainCodeAction)
    ensures
        a@ == action(title@, e@),
{
    let mut edits = Vec::new();
    edits.push(e);
    let a = DomainCodeAction { title: String::from_str(title), kind: CodeActionKind::Refactor, edits };
    assert(a@.1 =~= seq![e@]);
    a
}

fn last_close_brace(b: &[u8]) -> (r: Option<usize>)
    ensures
        r matches Some(k) ==> k < b@.len() && last_index_of(b@, 125u8) == Some(k as int),
        r is None ==> last_index_of(b@, 125u8) is None,
{
    let mut k = b.len();
    assert(b@.take(k as int) =~= b@);
    while k > 0
        invariant
            k <= b@.len(),
            last_index_of(b@, 125u8) == last_index_of(b@.take(k as int), 125u8),
        decreases k,
    {
        assert(b@.take(k as int).drop_last() =~= b@.take(k - 1));
        if b[k - 1] == 125u8 {
            return Some(k - 1);
        }
        k = k - 1;
    }
    None
}

proof fn lemma_take_all(b: Seq<u8>)
    ensures
        b.take(b.len() as int) == b,
{
    assert(b.take(b.len() as int) =~= b);
}

fn insert_pair_edit(t: &SyntaxTree, source: &str, column: usize, key: &str, value: &str) -> (r:
    Option<DomainTextEdit>)
    requires
        t.fits(source),
        column < t.len(),
    ensures
        r matches Some(e) ==> spec_insert_pair_edit(t, source, column, key@, value@) == Some(e@),
        r is None ==> spec_insert_pair_edit(t, source, column, key@, value@) is None,
{
    let bytes = source.as_bytes();
    let start = t.nodes[column].start;
    let b = &bytes[start..t.nodes[column].end];
    if utf8_str(b).is_none() {
        return None;
    }
    proof {
        lemma_take_all(b@);
    }
    let k = match last_close_brace(b) {
        Some(k) => k,
        None => {
            return None;
        },
    };
    let pre = match utf8_str(&b[0..k]) {
        Some(p) => p,
        None => {
            return None;
        },
    };
    proof {
        assert(b@.subrange(0, k as int) =~= b@.take(k as int));
        lemma_utf8_str_view(pre, b@.take(k as int));
    }
    let tr = trim_end(pre);
    let tv = chars_of(tr);
    let needs_comma = tv.len() > 0 && tv[tv.len() - 1] != '{' && tv[tv.len() - 1] != ',';
    let mut text = if needs_comma {
        String::from_str(",\"")
    } else {
        String::from_str("\"")
    };
    text.append(key);
    text.append("\":");
    text.append(value);
    Some(text_edit(start + k, start + k, text))
}

fn remove_pair_edit(t: &SyntaxTree, source: &str, column: usize, pair: usize) -> (r: Option<
    DomainTextEdit,
>)
    requires
        t.fits(source),
        column < t.len(),
        pair < t.len(),
        t.start(column) <= t.start(pair) <= t.end(pair) <= t.end(column),
    ensures
        r matches Some(e) ==> spec_remove_pair_edit(t, source, column, pair) == Some(e@),
        r is None ==> spec_remove_pair_edit(t, source, column, pair) is None,
{
    let bytes = source.as_bytes();
    let cs = t.nodes[column].start;
    let b = &bytes[cs..t.nodes[column].end];
    let ps = t.nodes[pair].start - cs;
    let pe = t.nodes[pair].end - cs;
    let whole = utf8_str(b);
    let before = utf8_str(&b[0..ps]);
    let after = utf8_str(&b[pe..b.len()]);
    proof {
        assert(b@.subrange(0, ps as int) =~= b@.take(ps as int));
        assert(b@.subrange(pe as int, b@.len() as int) =~= b@.skip(pe as int));
    }
    if whole.is_none() || before.is_none() || after.is_none() {
        return None;
    }
    let before = before.unwrap();
    let after = after.unwrap();
    proof {
        lemma_utf8_str_view(before, b@.take(ps as int));
        lemma_utf8_str_view(after, b@.skip(pe as int));
        lemma_trim_end_is_prefix(before@, ws());
        lemma_trim_start_is_suffix(after@, ws());
    }
    let tb = trim_end(before);
    let ta = trim_start(after);
    let tbv = chars_of(tb);
    let tav = chars_of(ta);
    let empty = String::new();
    if tbv.len() > 0 && tbv[tbv.len() - 1] == ',' {
        let tb_len = tb.as_bytes().len();
        proof {
            lemma_encode_nonempty(tb@);
        }
        Some(text_edit(cs + tb_len - 1, cs + pe, empty))
    } else if tav.len() > 0 && tav[0] == ',' {
        let ta_len = ta.as_bytes().len();
        let after_len = after.as_bytes().len();
        proof {
            lemma_encode_nonempty(ta@);
        }
        Some(text_edit(cs + ps, cs + pe + (after_len - ta_len) + 1, empty))
    } else {
        Some(text_edit(cs + ps, cs + pe, empty))
    }
}

fn toggle_bool_flag(
    t: &SyntaxTree,
    source: &str,
    column: usize,
    flag: &str,
    add_title: &str,
    remove_title: &str,
) -> (r: Option<DomainCodeAction>)
    requires
        t.fits(source),
        column < t.len(),
    ensures
        r matches Some(a) ==> spec_toggle_bool_flag(
            t,
            source,
            column,
            flag@,
            add_title@,
            remove_title@,
        ) == Some(a@),
        r is None ==> spec_toggle_bool_flag(
            t,
            source,
            column,
            flag@,
            add_title@,
            remove_title@,
        ) is None,
{
    match t.find_pair(source, column, flag, StripMode::Double) {
        Some(pair) => {
            let v = match t.get_named_child(pair, 1) {
                Some(v) => v,
                None => {
                    return None;
                },
            };
            let vt = match t.node_str(source, v) {
                Some(s) => s,
                None => {
                    return None;
                },
            };
            if str_eq(trim(vt), "true") {
                match remove_pair_edit(t, source, column, pair) {
                    Some(e) => Some(single_action(remove_title, e)),
                    None => None,
                }
            } else {
                Some(
                    single_action(
                        add_title,
                        text_edit(t.nodes[v].start, t.nodes[v].end, String::from_str("true")),
                    ),
                )
            }
        },
        None => match insert_pair_edit(t, source, column, flag, "true") {
            Some(e) => Some(single_action(add_title, e)),
            None => None,
        },
    }
}

fn toggle_nullable(t: &SyntaxTree, source: &str, column: usize) -> (r: Option<DomainCodeAction>)
    requires
        t.fits(source),
        column < t.len(),
    ensures
        r matches Some(a) ==> spec_toggle_nullable(t, source, column) == Some(a@),
        r is None ==> spec_toggle_nullable(t, source, column) is None,
{
    match t.find_pair(source, column, "nullable", StripMode::Double) {
        Some(pair) => {
            let v = match t.get_named_child(pair, 1) {
                Some(v) => v,
                None => {
                    return None;
                },
            };
            let vt = match t.node_str(source, v) {
                Some(s) => s,
                None => {
                    return None;
                },
            };
            let tv = trim(vt);
            if str_eq(tv, "true") {
                Some(
                    single_action(
                        "Make column NOT NULL",
                        text_edit(t.nodes[v].start, t.nodes[v].end, String::from_str("false")),
                    ),
                )
            } else if str_eq(tv, "false") {
                Some(
                    single_action(
                        "Allow NULL",
                        text_edit(t.nodes[v].start, t.nodes[v].end, String::from_str("true")),
                    ),
                )
            } else {
                None
            }
        },
        None => match insert_pair_edit(t, source, column, "nullable", "false") {
            Some(e) => Some(single_action("Make column NOT NULL", e)),
            None => None,
        },
    }
}

fn push_opt(out: &mut Vec<DomainCodeAction>, a: Option<DomainCodeAction>)
    ensures
        actions_view(final(out)@) == actions_view(old(out)@) + opt_seq(
            match a {
                Some(x) => Some(x@),
                None => None,
            },
        ),
{
    let ghost old_out = out@;
    match a {
        Some(x) => {
            out.push(x);
            assert(actions_view(out@) =~= actions_view(old_out) + seq![x@]);
        },
        None => {
            assert(actions_view(out@) =~= actions_view(old_out) + Seq::empty());
        },
    }
}

fn flag_toggles(t: &SyntaxTree, source: &str, column: usize) -> (r: Vec<DomainCodeAction>)
    requires
        t.fits(source),
        column < t.len(),
    ensures
        actions_view(r@) == spec_flag_toggles(t, source, column),
{
    let mut out = Vec::new();
    assert(actions_view(out@) =~= Seq::empty());
    push_opt(
        &mut out,
        toggle_bool_flag(
            t,
            source,
            column,
            "primary_key",
            "Mark column as primary key",
            "Unmark primary key",
        ),
    );
    push_opt(
        &mut out,
        toggle_bool_flag(t, source, column, "unique", "Mark column as unique", "Remove unique"),
    );
    push_opt(
        &mut out,
        toggle_bool_flag(t, source, column, "index", "Add index to column", "Remove index"),
    );
    push_opt(&mut out, toggle_nullable(t, source, column));
    assert(actions_view(out@) =~= spec_flag_toggles(t, source, column));
    out
}

fn type_string_value(t: &SyntaxTree, source: &str, column: usize) -> (r: Option<usize>)
    requires
        t.fits(source),
        column < t.len(),
    ensures
        r == string_type_value(t, source, column),
        r matches Some(v) ==> v < t.len(),
{
    match t.find_pair(source, column, "type", StripMode::Double) {
        Some(p) => match t.get_named_child(p, 1) {
            Some(v) => if matches!(t.nodes[v].kind, NodeKind::String) {
                Some(v)
            } else {
                None
            },
            None => None,
        },
        None => None,
    }
}

fn one(a: DomainCodeAction) -> (r: Vec<DomainCodeAction>)
    ensures
        actions_view(r@) == seq![a@],
{
    let mut v = Vec::new();
    v.push(a);
    assert(actions_view(v@) =~= seq![a@]);
    v
}

fn none() -> (r: Vec<DomainCodeAction>)
    ensures
        actions_view(r@) == Seq::<(Seq<char>, Seq<(usize, usize, Seq<char>)>)>::empty(),
{
    let v = Vec::new();
    assert(actions_view(v@) =~= Seq::empty());
    v
}

fn type_conversions(t: &SyntaxTree, source: &str, column: usize) -> (r: Vec<DomainCodeAction>)
    requires
        t.fits(source),
        column < t.len(),
    ensures
        actions_view(r@) == spec_type_conversions(t, source, column),
{
    let v = match type_string_value(t, source, column) {
        Some(v) => v,
        None => {
            return none();
        },
    };
    let text = match t.node_str(source, v) {
        Some(s) => s,
        None => {
            return none();
        },
    };
    let k = crate::text::strip_double_quotes(text);
    let (s, e) = (t.nodes[v].start, t.nodes[v].end);
    if str_eq(k, "text") || str_eq(k, "varchar") || str_eq(k, "char") {
        one(
            single_action(
                "Convert to varchar(255)",
                text_edit(s, e, String::from_str("{\"kind\":\"varchar\",\"length\":255}")),
            ),
        )
    } else if str_eq(k, "integer") || str_eq(k, "big_int") || str_eq(k, "small_int") || str_eq(
        k,
        "real",
    ) || str_eq(k, "double_precision") {
        one(
            single_action(
                "Convert to numeric(10,2)",
                text_edit(
                    s,
                    e,
                    String::from_str("{\"kind\":\"numeric\",\"precision\":10,\"scale\":2}"),
                ),
            ),
        )
    } else {
        none()
    }
}

fn enum_base_name(t: &SyntaxTree, source: &str, column: usize) -> (r: String)
    requires
        t.fits(source),
        column < t.len(),
    ensures
        r@ == column_name_or_status(t, source, column),
{
    match t.find_pair(source, column, "name", StripMode::Double) {
        Some(p) => match t.get_named_child(p, 1) {
            Some(v) => match t.stripped(source, v, StripMode::Double) {
                Some(n) => String::from_str(n),
                None => String::from_str("status"),
            },
            None => String::from_str("status"),
        },
        None => String::from_str("status"),
    }
}

fn enum_extraction(t: &SyntaxTree, source: &str, column: usize) -> (r: Vec<DomainCodeAction>)
    requires
        t.fits(source),
        column < t.len(),
    ensures
        actions_view(r@) == spec_enum_extraction(t, source, column),
{
    let dp = match t.find_pair(source, column, "default", StripMode::Double) {
        Some(p) => p,
        None => {
            return none();
        },
    };
    let dv = match t.get_named_child(dp, 1) {
        Some(v) => v,
        None => {
            return none();
        },
    };
    if !matches!(t.nodes[dv].kind, NodeKind::String) {
        return none();
    }
    let d = match t.stripped(source, dv, StripMode::Double) {
        Some(d) => d,
        None => {
            return none();
        },
    };
    let dc = chars_of(d);
    if !(dc.len() >= 3 && dc[0] == '\'' && dc[dc.len() - 1] == '\'') {
        return none();
    }
    let tv = match type_string_value(t, source, column) {
        Some(v) => v,
        None => {
            return none();
        },
    };
    let inner = d.substring_char(1, dc.len() - 1);
    let mut enum_name = enum_base_name(t, source, column);
    enum_name.append("_kind");
    let mut title = String::from_str("Extract default into enum `");
    title.append(enum_name.as_str());
    title.append("`");
    let mut new_type = String::from_str("{\"kind\":\"enum\",\"name\":\"");
    new_type.append(enum_name.as_str());
    new_type.append("\",\"values\":[\"");
    new_type.append(inner);
    new_type.append("\"]}");
    let e = text_edit(t.nodes[tv].start, t.nodes[tv].end, new_type);
    let mut edits = Vec::new();
    edits.push(e);
    let a = DomainCodeAction { title, kind: CodeActionKind::Refactor, edits };
    assert(a@.1 =~= seq![e@]);
    one(a)
}

fn fk_skeleton(t: &SyntaxTree, source: &str, column: usize) -> (r: Vec<DomainCodeAction>)
    requires
        t.fits(source),
        column < t.len(),
    ensures
        actions_view(r@) == spec_fk_skeleton(t, source, column),
{
    if t.find_pair(source, column, "foreign_key", StripMode::Double).is_some() {
        return none();
    }
    match insert_pair_edit(
        t,
        source,
        column,
        "foreign_key",
        "{\"ref_table\":\"\",\"ref_columns\":[\"id\"],\"on_delete\":\"cascade\"}",
    ) {
        Some(e) => one(single_action("Add foreign_key skeleton", e)),
        None => none(),
    }
}

fn columns_pair_at(t: &SyntaxTree, source: &str, a: usize) -> (r: bool)
    requires
        t.fits(source),
        a < t.len(),
    ensures
        r == (is_columns_pair(t, source))(a),
{
    if !matches!(t.nodes[a].kind, NodeKind::Pair) {
        return false;
    }
    match t.key_of(source, a, StripMode::Double) {
        Some(k) => str_eq(k, "columns"),
        None => false,
    }
}

fn is_inside_columns_array(t: &SyntaxTree, source: &str, c: usize) -> (r: bool)
    requires
        t.fits(source),
        c < t.len(),
    ensures
        r == inside_columns_array(t, source, c),
{
    let p = match t.nodes[c].parent {
        Some(p) => {
            assert(c > 0);
            p
        },
        None => {
            return false;
        },
    };
    let ghost q = is_columns_pair(t, source);
    let mut cur = p;
    loop
        invariant
            t.fits(source),
            cur < t.len(),
            q == is_columns_pair(t, source),
            c < t.len(),
            p < c,
            t.parent(c) == Some(p),
            first_up(t, p, q) == first_up(t, cur, q),
        decreases cur,
    {
        if columns_pair_at(t, source, cur) {
            assert(q(cur));
            return true;
        }
        match t.nodes[cur].parent {
            Some(n) => {
                cur = n;
            },
            None => {
                return false;
            },
        }
    }
}

fn enclosing_column_object(t: &SyntaxTree, source: &str, offset: usize) -> (r: Option<usize>)
    requires
        t.fits(source),
    ensures
        r == spec_enclosing_column_object(t, source, offset),
        r matches Some(c) ==> c < t.len(),
{
    let start = t.node_at_byte(offset);
    let ghost q = is_column_object(t, source);
    let mut cur = start;
    loop
        invariant
            t.fits(source),
            cur < t.len(),
            start == descend_to(t, 0, offset),
            q == is_column_object(t, source),
            first_up(t, start, q) == first_up(t, cur, q),
        decreases cur,
    {
        if matches!(t.nodes[cur].kind, NodeKind::Object) && is_inside_columns_array(t, source, cur) {
            assert(q(cur));
            return Some(cur);
        }
        match t.nodes[cur].parent {
            Some(n) => {
                cur = n;
            },
            None => {
                return None;
            },
        }
    }
}

fn append_actions(out: &mut Vec<DomainCodeAction>, more: Vec<DomainCodeAction>)
    ensures
        actions_view(final(out)@) == actions_view(old(out)@) + actions_view(more@),
{
    let mut more = more;
    let ghost o = out@;
    let ghost m = more@;
    out.append(&mut more);
    assert(actions_view(out@) =~= actions_view(o) + actions_view(m));
}

/// The column-scoped actions at `offset`: flag toggles, type conversions,
/// enum extraction and the foreign key skeleton, for the JSON column
/// object around the cursor.
pub fn column_actions(t: &SyntaxTree, source: &str, offset: usize) -> (r: Vec<DomainCodeAction>)
    requires
        t.fits(source),
    ensures
        actions_view(r@) == spec_column_actions(t, source, offset),
{
    match enclosing_column_object(t, source, offset) {
        Some(c) => {
            let mut out = flag_toggles(t, source, c);
            append_actions(&mut out, type_conversions(t, source, c));
            append_actions(&mut out, enum_extraction(t, source, c));
            append_actions(&mut out, fk_skeleton(t, source, c));
            out
        },
        None => none(),
    }
}


// ---------------------------------------------------------------------------
// CHECK expression actions
// ---------------------------------------------------------------------------

/// Inner byte range of a CHECK `expr` scalar, without its delimiters:
/// quoted scalars lose one byte at each end (when at least two long), a
/// plain scalar yields its `string_scalar` child or itself, a
/// `string_scalar` itself, a block scalar starts after its indicator, and
/// YAML wrappers are looked through.
pub open spec fn spec_expr_inner_range(t: &SyntaxTree, v: usize) -> Option<(usize, usize)>
    decreases t.len() - v,
{
    let k = t.kind(v);
    if k == NodeKind::String || k == NodeKind::DoubleQuoteScalar || k
        == NodeKind::SingleQuoteScalar {
        if t.end(v) >= t.start(v) + 2 {
            Some(((t.start(v) + 1) as usize, (t.end(v) - 1) as usize))
        } else {
            None
        }
    } else if k == NodeKind::PlainScalar {
        match t.named_child(v, 0) {
            Some(c) => if t.kind(c) == NodeKind::StringScalar {
                Some((t.start(c), t.end(c)))
            } else {
                Some((t.start(v), t.end(v)))
            },
            None => Some((t.start(v), t.end(v))),
        }
    } else if k == NodeKind::StringScalar {
        Some((t.start(v), t.end(v)))
    } else if k == NodeKind::BlockScalar {
        if t.children(v).len() > 0 {
            Some((t.end(t.children(v)[0]), t.end(v)))
        } else {
            None
        }
    } else if k == NodeKind::FlowNode || k == NodeKind::BlockNode {
        match t.named_child(v, 0) {
            Some(c) => if v < c < t.len() {
                spec_expr_inner_range(t, c)
            } else {
                None
            },
            None => None,
        }
    } else {
        None
    }
}

pub fn expr_inner_range(t: &SyntaxTree, v: usize) -> (r: Option<Range<usize>>)
    requires
        t.wf(),
        v < t.len(),
    ensures
        r matches Some(x) ==> spec_expr_inner_range(t, v) == Some((x.start, x.end)) && x.start
            <= x.end <= t.source_len,
        r is None ==> spec_expr_inner_range(t, v) is None,
    decreases t.len() - v,
{
    let n = &t.nodes[v];
    match n.kind {
        NodeKind::String | NodeKind::DoubleQuoteScalar | NodeKind::SingleQuoteScalar => {
            if n.end - n.start >= 2 {
                Some((n.start + 1)..(n.end - 1))
            } else {
                None
            }
        },
        NodeKind::PlainScalar => match t.get_named_child(v, 0) {
            Some(c) => if matches!(t.nodes[c].kind, NodeKind::StringScalar) {
                Some(t.nodes[c].start..t.nodes[c].end)
            } else {
                Some(n.start..n.end)
            },
            None => Some(n.start..n.end),
        },
        NodeKind::StringScalar => Some(n.start..n.end),
        NodeKind::BlockScalar => {
            if n.children.len() > 0 {
                let c = n.children[0];
                assert(t.nodes@[v as int].children@[0] == c);
                Some(t.nodes[c].end..n.end)
            } else {
                None
            }
        },
        NodeKind::FlowNode | NodeKind::BlockNode => match t.get_named_child(v, 0) {
            Some(c) => expr_inner_range(t, c),
            None => None,
        },
        _ => None,
    }
}

/// A pair's key is `expr`, `string` lies in its value, and its object has
/// `type: "check"`.
pub open spec fn spec_is_check_expr_value(t: &SyntaxTree, source: &str, s: usize) -> bool {
    match t.parent(s) {
        None => false,
        Some(p) => p < s && match first_up(t, p, pair_node(t)) {
            None => false,
            Some(pair) => match t.named_child(pair, 1) {
                None => false,
                Some(value) => {
                    &&& t.start(value) <= t.start(s) < t.end(value)
                    &&& key_text(t, source, pair, StripMode::Double) == Some("expr"@)
                    &&& match t.parent(pair) {
                        None => false,
                        Some(obj) => match find_pair(t, source, obj, "type"@, StripMode::Double) {
                            None => false,
                            Some(tp) => match t.named_child(tp, 1) {
                                None => false,
                                Some(tv) => stripped_text(t, source, tv, StripMode::Double)
                                    == Some("check"@),
                            },
                        },
                    }
                },
            },
        },
    }
}

pub open spec fn pair_node(t: &SyntaxTree) -> spec_fn(usize) -> bool {
    |n: usize| t.kind(n) == NodeKind::Pair
}

fn enclosing_json_pair(t: &SyntaxTree, p: usize) -> (r: Option<usize>)
    requires
        t.wf(),
        p < t.len(),
    ensures
        r == first_up(t, p, pair_node(t)),
        r matches Some(x) ==> x < t.len(),
{
    let ghost q = pair_node(t);
    let mut cur = p;
    loop
        invariant
            t.wf(),
            cur < t.len(),
            q == pair_node(t),
            first_up(t, p, q) == first_up(t, cur, q),
        decreases cur,
    {
        if matches!(t.nodes[cur].kind, NodeKind::Pair) {
            assert(q(cur));
            return Some(cur);
        }
        match t.nodes[cur].parent {
            Some(n) => {
                cur = n;
            },
            None => {
                return None;
            },
        }
    }
}

pub open spec fn is_check_string(t: &SyntaxTree, source: &str) -> spec_fn(usize) -> bool {
    |n: usize| t.kind(n) == NodeKind::String && spec_is_check_expr_value(t, source, n)
}

/// The JSON string at `offset` that is the value of a CHECK constraint's
/// `expr`, and its inner range.
pub open spec fn spec_check_expr_range_at(t: &SyntaxTree, source: &str, offset: usize) -> Option<
    (usize, usize),
> {
    match first_up(t, descend_to(t, 0, offset), is_check_string(t, source)) {
        Some(s) => spec_expr_inner_range(t, s),
        None => None,
    }
}

fn is_check_expr_value(t: &SyntaxTree, source: &str, s: usize) -> (r: bool)
    requires
        t.fits(source),
        s < t.len(),
    ensures
        r == spec_is_check_expr_value(t, source, s),
{
    let p = match t.nodes[s].parent {
        Some(p) => p,
        None => {
            return false;
        },
    };
    assert(s > 0);
    let pair = match enclosing_json_pair(t, p) {
        Some(x) => x,
        None => {
            return false;
        },
    };
    let value = match t.get_named_child(pair, 1) {
        Some(v) => v,
        None => {
            return false;
        },
    };
    if !(t.nodes[value].start <= t.nodes[s].start && t.nodes[s].start < t.nodes[value].end) {
        return false;
    }
    let key_ok = match t.key_of(source, pair, StripMode::Double) {
        Some(k) => str_eq(k, "expr"),
        None => false,
    };
    if !key_ok {
        return false;
    }
    let obj = match t.nodes[pair].parent {
        Some(o) => o,
        None => {
            return false;
        },
    };
    match t.find_pair(source, obj, "type", StripMode::Double) {
        None => false,
        Some(tp) => match t.get_named_child(tp, 1) {
            None => false,
            Some(tv) => match t.stripped(source, tv, StripMode::Double) {
                Some(x) => str_eq(x, "check"),
                None => false,
            },
        },
    }
}

/// The inner byte range of the CHECK `expr` string around `offset`.
pub fn check_expr_range_at(t: &SyntaxTree, source: &str, offset: usize) -> (r: Option<Range<usize>>)
    requires
        t.fits(source),
    ensures
        r matches Some(x) ==> spec_check_expr_range_at(t, source, offset) == Some((x.start, x.end))
            && x.start <= x.end <= t.source_len,
        r is None ==> spec_check_expr_range_at(t, source, offset) is None,
{
    let start = t.node_at_byte(offset);
    let ghost q = is_check_string(t, source);
    let mut cur = start;
    loop
        invariant
            t.fits(source),
            cur < t.len(),
            start == descend_to(t, 0, offset),
            q == is_check_string(t, source),
            first_up(t, start, q) == first_up(t, cur, q),
        decreases cur,
    {
        if matches!(t.nodes[cur].kind, NodeKind::String) && is_check_expr_value(t, source, cur) {
            assert(q(cur));
            return expr_inner_range(t, cur);
        }
        match t.nodes[cur].parent {
            Some(n) => {
                cur = n;
            },
            None => {
                return None;
            },
        }
    }
}

pub open spec fn swappable(base: usize, cands: Seq<BetweenCandidate>) -> bool {
    forall|k: int|
        0 <= k < cands.len() ==> (#[trigger] cands[k]).low.start <= cands[k].low.end && base
            + cands[k].low.end <= usize::MAX && cands[k].high.start <= cands[k].high.end && base
            + cands[k].high.end <= usize::MAX
}

/// One "Swap reversed BETWEEN bounds" action per reversed candidate,
/// exchanging the texts of its two bounds.
pub fn swap_reversed_between(base: usize, cands: &[BetweenCandidate]) -> (r: Vec<DomainCodeAction>)
    requires
        swappable(base, cands@),
    ensures
        actions_view(r@) == spec_swaps(base, cands@),
{
    let mut out = Vec::new();
    let mut i = cands.len();
    let ghost all = cands@;
    assert(all.skip(i as int) =~= Seq::<BetweenCandidate>::empty());
    // Built back to front, so each action goes in front.
    while i > 0
        invariant
            all == cands@,
            i <= all.len(),
            swappable(base, all),
            actions_view(out@) == spec_swaps(base, all.skip(i as int)),
        decreases i,
    {
        i = i - 1;
        let c = &cands[i];
        assert(all.skip(i as int)[0] == *c);
        assert(all.skip(i as int).drop_first() =~= all.skip(i + 1));
        let reversed = match c.order {
            LiteralOrder::Greater => true,
            LiteralOrder::FloatPair => match c.float_greater {
                Some(b) => b,
                None => false,
            },
            LiteralOrder::NotGreater => false,
        };
        if reversed {
            let mut edits = Vec::new();
            let e1 = DomainTextEdit {
                byte_range: (base + c.low.start)..(base + c.low.end),
                new_text: c.high_text.clone(),
            };
            let e2 = DomainTextEdit {
                byte_range: (base + c.high.start)..(base + c.high.end),
                new_text: c.low_text.clone(),
            };
            edits.push(e1);
            edits.push(e2);
            let a = DomainCodeAction {
                title: String::from_str("Swap reversed BETWEEN bounds"),
                kind: CodeActionKind::Refactor,
                edits,
            };
            assert(a@.1 =~= seq![e1@, e2@]);
            let ghost old_out = out@;
            out.insert(0, a);
            assert(actions_view(out@) =~= seq![a@] + actions_view(old_out));
        }
    }
    assert(all.skip(0) =~= all);
    out
}

/// The code actions for the cursor range: column-scoped actions, then the
/// BETWEEN swaps of the CHECK expression around the cursor. `between`
/// holds the candidates of that expression (see `check_expr_range_at` and
/// `between_candidates`). YAML documents get none.
pub open spec fn spec_compute(
    source: &str,
    format: DocumentFormat,
    tree: Option<&SyntaxTree>,
    offset: usize,
    between: Seq<BetweenCandidate>,
) -> Seq<(Seq<char>, Seq<(usize, usize, Seq<char>)>)> {
    if format != DocumentFormat::Json {
        Seq::empty()
    } else {
        match tree {
            None => Seq::empty(),
            Some(t) => spec_column_actions(t, source, offset) + match spec_check_expr_range_at(
                t,
                source,
                offset,
            ) {
                Some((s, _e)) => spec_swaps(s, between),
                None => Seq::empty(),
            },
        }
    }
}

pub fn compute(
    source: &str,
    format: DocumentFormat,
    tree: Option<&SyntaxTree>,
    byte_range: Range<usize>,
    between: &[BetweenCandidate],
) -> (r: Vec<DomainCodeAction>)
    requires
        tree matches Some(t) ==> t.fits(source),
        swappable(source.spec_bytes().len() as usize, between@),
        source.spec_bytes().len() <= usize::MAX,
    ensures
        actions_view(r@) == spec_compute(source, format, tree, byte_range.start, between@),
{
    if !matches!(format, DocumentFormat::Json) {
        return none();
    }
    let t = match tree {
        Some(t) => t,
        None => {
            return none();
        },
    };
    let mut out = column_actions(t, source, byte_range.start);
    match check_expr_range_at(t, source, byte_range.start) {
        Some(inner) => {
            assert(swappable(inner.start, between@)) by {
                assert forall|k: int| 0 <= k < between@.len() implies inner.start + (
                #[trigger] between@[k]).low.end <= usize::MAX && inner.start + between@[k].high.end
                    <= usize::MAX by {
                    assert(source.spec_bytes().len() + between@[k].low.end <= usize::MAX);
                }
            }
            append_actions(&mut out, swap_reversed_between(inner.start, between));
        },
        None => {
            append_actions(&mut out, none());
        },
    }
    out
}


// ---------------------------------------------------------------------------
// Laws
// ---------------------------------------------------------------------------

/// The nullable toggle flips the column's `nullable` value: when it reads
/// `true` (trimmed) the single edit rewrites the value node to `false`, when
/// it reads `false` to `true`; the new text is never the old one.
pub proof fn lemma_toggle_nullable_flips(
    t: &SyntaxTree,
    source: &str,
    column: usize,
    pair: usize,
    v: usize,
    old_text: Seq<char>,
)
    requires
        find_pair(t, source, column, "nullable"@, StripMode::Double) == Some(pair),
        t.named_child(pair, 1) == Some(v),
        node_chars(t, source, v) == Some(old_text),
        spec_trim(old_text) == "true"@ || spec_trim(old_text) == "false"@,
    ensures
        spec_toggle_nullable(t, source, column) matches Some(a) && a.1.len() == 1 && a.1[0].0
            == t.start(v) && a.1[0].1 == t.end(v) && a.1[0].2 != spec_trim(old_text)
            && (spec_trim(old_text) == "true"@ ==> a.1[0].2 == "false"@ && a.0
            == "Make column NOT NULL"@) && (spec_trim(old_text) == "false"@ ==> a.1[0].2 == "true"@
            && a.0 == "Allow NULL"@),
{
    reveal_strlit("true");
    reveal_strlit("false");
    assert("true"@ != "false"@) by {
        assert("true"@.len() != "false"@.len());
    }
}


/// A `nullable` value that is neither `true` nor `false` is left alone; a
/// column without `nullable` is offered `"nullable": false`.
pub proof fn lemma_toggle_nullable_otherwise(t: &SyntaxTree, source: &str, column: usize)
    ensures
        (find_pair(t, source, column, "nullable"@, StripMode::Double) matches Some(pair) && (
        t.named_child(pair, 1) matches Some(v) && node_chars(t, source, v) matches Some(vt) && spec_trim(
            vt,
        ) != "true"@ && spec_trim(vt) != "false"@)) ==> spec_toggle_nullable(t, source, column)
            is None,
        find_pair(t, source, column, "nullable"@, StripMode::Double) is None ==> spec_toggle_nullable(
            t,
            source,
            column,
        ) == match spec_insert_pair_edit(t, source, column, "nullable"@, "false"@) {
            Some(e) => Some(("Make column NOT NULL"@, seq![e])),
            None => None,
        },
{
}
} // verus!
