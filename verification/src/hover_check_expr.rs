//! Hover inside a table-level CHECK expression: a markdown description of
//! the expression's parsed structure.
//!
//! The expression is parsed by the schema planner; this module takes the
//! parse as a value of its own AST type, finds the expression under the
//! cursor, and renders the description.

use std::ops::Range;
use vstd::prelude::*;
use vstd::string::*;
use crate::syntax::{SyntaxTree, StripMode, pair_has_key, is_pair_kind, descend_to};
use crate::code_actions::{first_up, spec_expr_inner_range, expr_inner_range};
use crate::hover::{DomainHover, hover_view, inside_pair_with_key, has_ancestor_pair, join, string_views};
use crate::text::{trim, spec_trim, utf8_str};

verus! {

// ---------------------------------------------------------------------------
// The parsed expression
// ---------------------------------------------------------------------------

/// Comparison operators.
#[derive(Clone, Copy, Debug, PartialEq, Eq, Structural)]
pub enum CheckExprOp {
    Eq,
    Ne,
    Lt,
    Le,
    Gt,
    Ge,
}

/// A literal of the expression. A float is held by its display text.
#[derive(Debug)]
pub enum CheckExprLiteral {
    Integer(i64),
    Float(String),
    String(String),
    Bool(bool),
    Null,
}

/// The structure of a CHECK expression.
#[derive(Debug)]
pub enum CheckExprAst {
    And(Vec<CheckExprAst>),
    Or(Vec<CheckExprAst>),
    Not(Box<CheckExprAst>),
    Compare { column: String, op: CheckExprOp, value: CheckExprLiteral },
    In { column: String, values: Vec<CheckExprLiteral>, negated: bool },
    Between { column: String, low: CheckExprLiteral, high: CheckExprLiteral, negated: bool },
    IsNull { column: String, negated: bool },
    Unparseable,
}

// ---------------------------------------------------------------------------
// Numbers
// ---------------------------------------------------------------------------

pub open spec fn digit_text(d: nat) -> Seq<char> {
    if d == 0 {
        "0"@
    } else if d == 1 {
        "1"@
    } else if d == 2 {
        "2"@
    } else if d == 3 {
        "3"@
    } else if d == 4 {
        "4"@
    } else if d == 5 {
        "5"@
    } else if d == 6 {
        "6"@
    } else if d == 7 {
        "7"@
    } else if d == 8 {
        "8"@
    } else {
        "9"@
    }
}

/// The decimal digits of `n`, without leading zeros.
pub open spec fn decimal(n: nat) -> Seq<char>
    decreases n,
{
    if n < 10 {
        digit_text(n)
    } else {
        decimal(n / 10) + digit_text(n % 10)
    }
}

/// The decimal text of an integer, with `-` before a negative one.
pub open spec fn int_text(i: int) -> Seq<char> {
    if i < 0 {
        "-"@ + decimal((-i) as nat)
    } else {
        decimal(i as nat)
    }
}

fn digit_str(d: u64) -> (r: &'static str)
    requires
        d < 10,
    ensures
        r@ == digit_text(d as nat),
{
    if d == 0 {
        "0"
    } else if d == 1 {
        "1"
    } else if d == 2 {
        "2"
    } else if d == 3 {
        "3"
    } else if d == 4 {
        "4"
    } else if d == 5 {
        "5"
    } else if d == 6 {
        "6"
    } else if d == 7 {
        "7"
    } else if d == 8 {
        "8"
    } else {
        "9"
    }
}

fn append_decimal(md: &mut String, n: u64)
    ensures
        final(md)@ == old(md)@ + decimal(n as nat),
    decreases n,
{
    let ghost start = md@;
    if n >= 10 {
        append_decimal(md, n / 10);
    }
    md.append(digit_str(n % 10));
    if n >= 10 {
        assert(md@ =~= start + (decimal((n / 10) as nat) + digit_text((n % 10) as nat)));
    }
}

fn append_int(md: &mut String, i: i64)
    ensures
        final(md)@ == old(md)@ + int_text(i as int),
{
    let ghost start = md@;
    if i < 0 {
        md.append("-");
        let m: u64 = ((-(i + 1)) as u64) + 1;
        assert(m == -i);
        append_decimal(md, m);
        assert(md@ =~= start + ("-"@ + decimal((-i) as nat)));
    } else {
        append_decimal(md, i as u64);
    }
}

// ---------------------------------------------------------------------------
// Rendering
// ---------------------------------------------------------------------------

pub open spec fn op_text(op: CheckExprOp) -> Seq<char> {
    match op {
        CheckExprOp::Eq => "="@,
        CheckExprOp::Ne => "<>"@,
        CheckExprOp::Lt => "<"@,
        CheckExprOp::Le => "<="@,
        CheckExprOp::Gt => ">"@,
        CheckExprOp::Ge => ">="@,
    }
}

pub open spec fn literal_text(lit: CheckExprLiteral) -> Seq<char> {
    match lit {
        CheckExprLiteral::Integer(i) => int_text(i as int),
        CheckExprLiteral::Float(s) => s@,
        CheckExprLiteral::String(s) => s@,
        CheckExprLiteral::Bool(b) => if b {
            "TRUE"@
        } else {
            "FALSE"@
        },
        CheckExprLiteral::Null => "NULL"@,
    }
}

pub open spec fn literal_texts(v: Seq<CheckExprLiteral>) -> Seq<Seq<char>> {
    v.map_values(|l: CheckExprLiteral| literal_text(l))
}

pub open spec fn not_text(negated: bool) -> Seq<char> {
    if negated {
        "NOT "@
    } else {
        ""@
    }
}

/// The first line of the description.
pub open spec fn header_text(ast: CheckExprAst) -> Seq<char> {
    match ast {
        CheckExprAst::And(parts) => "Logical AND of "@ + decimal(parts@.len()) + " conditions"@,
        CheckExprAst::Or(parts) => "Logical OR of "@ + decimal(parts@.len()) + " conditions"@,
        CheckExprAst::Not(_) => "Logical NOT (negated condition)"@,
        CheckExprAst::Compare { .. } => "Comparison predicate"@,
        CheckExprAst::In { negated, .. } => if negated {
            "NOT IN list predicate"@
        } else {
            "IN list predicate"@
        },
        CheckExprAst::Between { negated, .. } => if negated {
            "NOT BETWEEN range predicate"@
        } else {
            "BETWEEN range predicate"@
        },
        CheckExprAst::IsNull { negated, .. } => if negated {
            "IS NOT NULL predicate"@
        } else {
            "IS NULL predicate"@
        },
        CheckExprAst::Unparseable => "CHECK expression"@,
    }
}

/// A sub-expression on one line.
pub open spec fn inline_text(ast: CheckExprAst) -> Seq<char> {
    match ast {
        CheckExprAst::Compare { column, op, value } => "condition `"@ + column@ + " "@ + op_text(op)
            + " "@ + literal_text(value) + "`"@,
        CheckExprAst::In { column, values, negated } => "condition `"@ + column@ + " "@ + not_text(
            negated,
        ) + "IN ("@ + join(literal_texts(values@), ", "@) + ")`"@,
        CheckExprAst::Between { column, low, high, negated } => "condition `"@ + column@ + " "@
            + not_text(negated) + "BETWEEN "@ + literal_text(low) + " AND "@ + literal_text(high)
            + "`"@,
        CheckExprAst::IsNull { column, negated } => "condition `"@ + column@ + " IS "@ + not_text(
            negated,
        ) + "NULL`"@,
        CheckExprAst::And(parts) => "nested AND of "@ + decimal(parts@.len()) + " conditions"@,
        CheckExprAst::Or(parts) => "nested OR of "@ + decimal(parts@.len()) + " conditions"@,
        CheckExprAst::Not(_) => "nested NOT condition"@,
        CheckExprAst::Unparseable => "unparseable sub-expression"@,
    }
}

pub open spec fn inline_texts(v: Seq<CheckExprAst>) -> Seq<Seq<char>> {
    v.map_values(|a: CheckExprAst| inline_text(a))
}

pub open spec fn value_lines(v: Seq<CheckExprLiteral>) -> Seq<Seq<char>> {
    v.map_values(|l: CheckExprLiteral| "value "@ + literal_text(l))
}

/// The bullet lines of the description.
pub open spec fn bullet_texts(ast: CheckExprAst) -> Seq<Seq<char>> {
    match ast {
        CheckExprAst::And(parts) => inline_texts(parts@),
        CheckExprAst::Or(parts) => inline_texts(parts@),
        CheckExprAst::Not(inner) => seq![inline_text(*inner)],
        CheckExprAst::Compare { column, op, value } => seq![
            "column `"@ + column@ + "` "@ + op_text(op) + " "@ + literal_text(value),
        ],
        CheckExprAst::In { column, values, negated } => seq![
            "column `"@ + column@ + "` "@ + not_text(negated) + "IN list of "@ + decimal(
                values@.len(),
            ) + " value"@ + if values@.len() == 1 {
                ""@
            } else {
                "s"@
            },
        ] + value_lines(values@),
        CheckExprAst::Between { column, low, high, negated } => seq![
            "column `"@ + column@ + "` "@ + not_text(negated) + "BETWEEN "@ + literal_text(low)
                + " AND "@ + literal_text(high),
        ],
        CheckExprAst::IsNull { column, negated } => seq![
            "column `"@ + column@ + "` IS "@ + not_text(negated) + "NULL"@,
        ],
        CheckExprAst::Unparseable => Seq::empty(),
    }
}

/// Each line as a markdown list item.
pub open spec fn list_items(lines: Seq<Seq<char>>) -> Seq<char>
    decreases lines.len(),
{
    if lines.len() == 0 {
        Seq::empty()
    } else {
        list_items(lines.drop_last()) + "- "@ + lines.last() + "\n"@
    }
}

/// The hover's markdown for the parse `ast` of `expr`.
pub open spec fn markdown_text(ast: CheckExprAst, expr: Seq<char>) -> Seq<char> {
    if ast is Unparseable {
        "**CHECK expression** _(could not parse structure)_\n\n`"@ + spec_trim(expr) + "`"@
    } else {
        let head = "**"@ + header_text(ast) + "**\n\n`"@ + spec_trim(expr) + "`"@;
        let bullets = bullet_texts(ast);
        if bullets.len() > 0 {
            head + "\n\n"@ + list_items(bullets)
        } else {
            head
        }
    }
}

fn op_str(op: CheckExprOp) -> (r: &'static str)
    ensures
        r@ == op_text(op),
{
    match op {
        CheckExprOp::Eq => "=",
        CheckExprOp::Ne => "<>",
        CheckExprOp::Lt => "<",
        CheckExprOp::Le => "<=",
        CheckExprOp::Gt => ">",
        CheckExprOp::Ge => ">=",
    }
}

fn not_str(negated: bool) -> (r: &'static str)
    ensures
        r@ == not_text(negated),
{
    if negated {
        "NOT "
    } else {
        ""
    }
}

fn append_literal(md: &mut String, lit: &CheckExprLiteral)
    ensures
        final(md)@ == old(md)@ + literal_text(*lit),
{
    match lit {
        CheckExprLiteral::Integer(i) => append_int(md, *i),
        CheckExprLiteral::Float(s) => md.append(s.as_str()),
        CheckExprLiteral::String(s) => md.append(s.as_str()),
        CheckExprLiteral::Bool(b) => {
            if *b {
                md.append("TRUE");
            } else {
                md.append("FALSE");
            }
        },
        CheckExprLiteral::Null => md.append("NULL"),
    }
}

fn append_literals_joined(md: &mut String, values: &Vec<CheckExprLiteral>)
    ensures
        final(md)@ == old(md)@ + join(literal_texts(values@), ", "@),
{
    let ghost start = md@;
    let ghost all = literal_texts(values@);
    let mut j: usize = 0;
    assert(all.take(0) =~= Seq::<Seq<char>>::empty());
    assert(start =~= start + Seq::<char>::empty());
    while j < values.len()
        invariant
            all == literal_texts(values@),
            j <= values@.len(),
            md@ == start + join(all.take(j as int), ", "@),
        decreases values.len() - j,
    {
        assert(all.take(j + 1).drop_last() =~= all.take(j as int));
        assert(all.take(j + 1).last() == literal_text(values@[j as int]));
        let ghost before = md@;
        if j > 0 {
            md.append(", ");
        } else {
            assert(all.take(1) =~= seq![all[0]]);
        }
        append_literal(md, &values[j]);
        if j > 0 {
            assert(md@ =~= start + (join(all.take(j as int), ", "@) + ", "@ + literal_text(
                values@[j as int],
            )));
        } else {
            assert(md@ =~= start + literal_text(values@[0]));
        }
        j = j + 1;
    }
    assert(all.take(values@.len() as int) =~= all);
}

/// The first line of the description.
pub fn header_for(ast: &CheckExprAst) -> (r: String)
    ensures
        r@ == header_text(*ast),
{
    match ast {
        CheckExprAst::And(parts) => {
            let mut s = String::from_str("Logical AND of ");
            append_decimal(&mut s, parts.len() as u64);
            s.append(" conditions");
            s
        },
        CheckExprAst::Or(parts) => {
            let mut s = String::from_str("Logical OR of ");
            append_decimal(&mut s, parts.len() as u64);
            s.append(" conditions");
            s
        },
        CheckExprAst::Not(_) => String::from_str("Logical NOT (negated condition)"),
        CheckExprAst::Compare { .. } => String::from_str("Comparison predicate"),
        CheckExprAst::In { negated, .. } => if *negated {
            String::from_str("NOT IN list predicate")
        } else {
            String::from_str("IN list predicate")
        },
        CheckExprAst::Between { negated, .. } => if *negated {
            String::from_str("NOT BETWEEN range predicate")
        } else {
            String::from_str("BETWEEN range predicate")
        },
        CheckExprAst::IsNull { negated, .. } => if *negated {
            String::from_str("IS NOT NULL predicate")
        } else {
            String::from_str("IS NULL predicate")
        },
        CheckExprAst::Unparseable => String::from_str("CHECK expression"),
    }
}

/// A sub-expression on one line.
pub fn render_inline(ast: &CheckExprAst) -> (r: String)
    ensures
        r@ == inline_text(*ast),
{
    match ast {
        CheckExprAst::Compare { column, op, value } => {
            let mut s = String::from_str("condition `");
            s.append(column.as_str());
            s.append(" ");
            s.append(op_str(*op));
            s.append(" ");
            append_literal(&mut s, value);
            s.append("`");
            s
        },
        CheckExprAst::In { column, values, negated } => {
            let mut s = String::from_str("condition `");
            s.append(column.as_str());
            s.append(" ");
            s.append(not_str(*negated));
            s.append("IN (");
            append_literals_joined(&mut s, values);
            s.append(")`");
            s
        },
        CheckExprAst::Between { column, low, high, negated } => {
            let mut s = String::from_str("condition `");
            s.append(column.as_str());
            s.append(" ");
            s.append(not_str(*negated));
            s.append("BETWEEN ");
            append_literal(&mut s, low);
            s.append(" AND ");
            append_literal(&mut s, high);
            s.append("`");
            s
        },
        CheckExprAst::IsNull { column, negated } => {
            let mut s = String::from_str("condition `");
            s.append(column.as_str());
            s.append(" IS ");
            s.append(not_str(*negated));
            s.append("NULL`");
            s
        },
        CheckExprAst::And(parts) => {
            let mut s = String::from_str("nested AND of ");
            append_decimal(&mut s, parts.len() as u64);
            s.append(" conditions");
            s
        },
        CheckExprAst::Or(parts) => {
            let mut s = String::from_str("nested OR of ");
            append_decimal(&mut s, parts.len() as u64);
            s.append(" conditions");
            s
        },
        CheckExprAst::Not(_) => String::from_str("nested NOT condition"),
        CheckExprAst::Unparseable => String::from_str("unparseable sub-expression"),
    }
}

fn inline_all(parts: &Vec<CheckExprAst>) -> (r: Vec<String>)
    ensures
        string_views(r@) == inline_texts(parts@),
{
    let mut out: Vec<String> = Vec::new();
    let mut j: usize = 0;
    while j < parts.len()
        invariant
            j <= parts@.len(),
            string_views(out@) == inline_texts(parts@.take(j as int)),
        decreases parts.len() - j,
    {
        let ghost before = string_views(out@);
        let s = render_inline(&parts[j]);
        out.push(s);
        assert(string_views(out@) =~= before.push(s@));
        assert(inline_texts(parts@.take(j + 1)) =~= inline_texts(parts@.take(j as int)).push(
            inline_text(parts@[j as int]),
        ));
        j = j + 1;
    }
    assert(parts@.take(parts@.len() as int) =~= parts@);
    out
}

/// The bullet lines of the description.
pub fn bullets_for(ast: &CheckExprAst) -> (r: Vec<String>)
    ensures
        string_views(r@) == bullet_texts(*ast),
{
    match ast {
        CheckExprAst::And(parts) => inline_all(parts),
        CheckExprAst::Or(parts) => inline_all(parts),
        CheckExprAst::Not(inner) => {
            let s = render_inline(inner);
            let mut v: Vec<String> = Vec::new();
            v.push(s);
            assert(string_views(v@) =~= seq![s@]);
            v
        },
        CheckExprAst::Compare { column, op, value } => {
            let mut s = String::from_str("column `");
            s.append(column.as_str());
            s.append("` ");
            s.append(op_str(*op));
            s.append(" ");
            append_literal(&mut s, value);
            let mut v: Vec<String> = Vec::new();
            v.push(s);
            assert(string_views(v@) =~= seq![s@]);
            v
        },
        CheckExprAst::In { column, values, negated } => {
            let mut s = String::from_str("column `");
            s.append(column.as_str());
            s.append("` ");
            s.append(not_str(*negated));
            s.append("IN list of ");
            append_decimal(&mut s, values.len() as u64);
            s.append(" value");
            if values.len() == 1 {
                s.append("");
            } else {
                s.append("s");
            }
            let mut v: Vec<String> = Vec::new();
            v.push(s);
            assert(string_views(v@) =~= seq![s@]);
            let mut j: usize = 0;
            assert(value_lines(values@.take(0)) =~= Seq::<Seq<char>>::empty());
            while j < values.len()
                invariant
                    j <= values@.len(),
                    string_views(v@) == seq![s@] + value_lines(values@.take(j as int)),
                decreases values.len() - j,
            {
                let ghost before = string_views(v@);
                let mut line = String::from_str("value ");
                append_literal(&mut line, &values[j]);
                v.push(line);
                assert(string_views(v@) =~= before.push(line@));
                assert(value_lines(values@.take(j + 1)) =~= value_lines(values@.take(j as int)).push(
                    "value "@ + literal_text(values@[j as int]),
                ));
                j = j + 1;
            }
            assert(values@.take(values@.len() as int) =~= values@);
            v
        },
        CheckExprAst::Between { column, low, high, negated } => {
            let mut s = String::from_str("column `");
            s.append(column.as_str());
            s.append("` ");
            s.append(not_str(*negated));
            s.append("BETWEEN ");
            append_literal(&mut s, low);
            s.append(" AND ");
            append_literal(&mut s, high);
            let mut v: Vec<String> = Vec::new();
            v.push(s);
            assert(string_views(v@) =~= seq![s@]);
            v
        },
        CheckExprAst::IsNull { column, negated } => {
            let mut s = String::from_str("column `");
            s.append(column.as_str());
            s.append("` IS ");
            s.append(not_str(*negated));
            s.append("NULL");
            let mut v: Vec<String> = Vec::new();
            v.push(s);
            assert(string_views(v@) =~= seq![s@]);
            v
        },
        CheckExprAst::Unparseable => {
            let v: Vec<String> = Vec::new();
            assert(string_views(v@) =~= Seq::<Seq<char>>::empty());
            v
        },
    }
}

/// The hover's markdown for the parse `ast` of `expr_text`.
pub fn render_markdown(ast: &CheckExprAst, expr_text: &str) -> (r: String)
    ensures
        r@ == markdown_text(*ast, expr_text@),
{
    if matches!(ast, CheckExprAst::Unparseable) {
        let mut md = String::from_str("**CHECK expression** _(could not parse structure)_\n\n`");
        md.append(trim(expr_text));
        md.append("`");
        return md;
    }
    let header = header_for(ast);
    let mut md = String::from_str("**");
    md.append(header.as_str());
    md.append("**\n\n`");
    md.append(trim(expr_text));
    md.append("`");
    let bullets = bullets_for(ast);
    if bullets.len() > 0 {
        md.append("\n\n");
        let ghost head = md@;
        let ghost all = string_views(bullets@);
        let mut j: usize = 0;
        assert(all.take(0) =~= Seq::<Seq<char>>::empty());
        assert(head =~= head + Seq::<char>::empty());
        while j < bullets.len()
            invariant
                all == string_views(bullets@),
                j <= bullets@.len(),
                md@ == head + list_items(all.take(j as int)),
            decreases bullets.len() - j,
        {
            assert(all.take(j + 1).drop_last() =~= all.take(j as int));
            assert(all.take(j + 1).last() == bullets@[j as int]@);
            md.append("- ");
            md.append(bullets[j].as_str());
            md.append("\n");
            assert(md@ =~= head + (list_items(all.take(j as int)) + "- "@ + bullets@[j as int]@
                + "\n"@));
            j = j + 1;
        }
        assert(all.take(bullets@.len() as int) =~= all);
    }
    md
}

// ---------------------------------------------------------------------------
// The expression under the cursor
// ---------------------------------------------------------------------------

pub open spec fn expr_pair_node(t: &SyntaxTree, source: &str) -> spec_fn(usize) -> bool {
    |n: usize| pair_has_key(t, source, n, "expr"@, StripMode::Greedy)
}

/// The inner range of the CHECK expression the cursor is in: the nearest
/// `expr` pair at or above the cursor's node, inside `constraints`, whose
/// value's inner range holds the cursor (its end included) and reads as
/// text.
pub open spec fn spec_check_expr_hover_range(t: &SyntaxTree, source: &str, offset: usize) -> Option<
    (usize, usize),
> {
    match first_up(t, descend_to(t, 0, offset), expr_pair_node(t, source)) {
        None => None,
        Some(pair) => if !inside_pair_with_key(t, source, pair, "constraints"@) {
            None
        } else {
            match t.named_child(pair, 1) {
                None => None,
                Some(v) => match spec_expr_inner_range(t, v) {
                    None => None,
                    Some((a, b)) => if !(a <= offset < b || offset == b) {
                        None
                    } else if !vstd::utf8::valid_utf8(
                        source.spec_bytes().subrange(a as int, b as int),
                    ) {
                        None
                    } else {
                        Some((a, b))
                    },
                },
            }
        },
    }
}

fn expr_pair_up(t: &SyntaxTree, source: &str, i: usize) -> (r: Option<usize>)
    requires
        t.fits(source),
        i < t.len(),
    ensures
        r == first_up(t, i, expr_pair_node(t, source)),
        r matches Some(p) ==> p < t.len(),
{
    let ghost q = expr_pair_node(t, source);
    let mut cur = i;
    loop
        invariant
            t.fits(source),
            cur < t.len(),
            q == expr_pair_node(t, source),
            first_up(t, i, q) == first_up(t, cur, q),
        decreases cur,
    {
        if t.has_key(source, cur, "expr", StripMode::Greedy) {
            assert(q(cur));
            return Some(cur);
        }
        match t.nodes[cur].parent {
            Some(p) => {
                cur = p;
            },
            None => {
                return None;
            },
        }
    }
}

/// The inner range of the CHECK expression under the cursor, when a CHECK
/// hover applies there.
pub fn check_expr_hover_range(t: &SyntaxTree, source: &str, offset: usize) -> (r: Option<
    Range<usize>,
>)
    requires
        t.fits(source),
    ensures
        match r {
            Some(x) => spec_check_expr_hover_range(t, source, offset) == Some((x.start, x.end)),
            None => spec_check_expr_hover_range(t, source, offset) is None,
        },
        r matches Some(x) ==> x.start <= offset <= x.end && x.end <= t.source_len,
{
    let node = t.node_at_byte(offset);
    let pair = match expr_pair_up(t, source, node) {
        Some(p) => p,
        None => {
            return None;
        },
    };
    if !has_ancestor_pair(t, source, pair, "constraints") {
        return None;
    }
    let v = match t.get_named_child(pair, 1) {
        Some(v) => v,
        None => {
            return None;
        },
    };
    let inner = match expr_inner_range(t, v) {
        Some(x) => x,
        None => {
            return None;
        },
    };
    if !(inner.start <= offset && offset < inner.end) && offset != inner.end {
        return None;
    }
    let b = source.as_bytes();
    let sub = &b[inner.start..inner.end];
    assert(sub@ =~= source.spec_bytes().subrange(inner.start as int, inner.end as int));
    match utf8_str(sub) {
        Some(_) => Some(inner),
        None => None,
    }
}

/// The hover for the expression `expr_text`, found at `inner`, and its
/// parse `ast`.
pub fn check_expr_hover(inner: Range<usize>, expr_text: &str, ast: &CheckExprAst) -> (r: DomainHover)
    ensures
        hover_view(r) == (markdown_text(*ast, expr_text@), (inner.start, inner.end)),
{
    DomainHover { markdown: render_markdown(ast, expr_text), byte_range: inner }
}

} // verus!
