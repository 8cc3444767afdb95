//! Literal ordering inside table-level CHECK expressions and the
//! detection of reversed `BETWEEN low AND high` bounds.
//!
//! The expression's tokens come from the schema planner's lexer; this
//! module takes them as plain values.

use std::ops::Range;
use vstd::prelude::*;
use vstd::string::*;
use vstd::utf8::*;
use crate::naming::{name_le};
use crate::text::{chars_of, eq_ignore_ascii_case, ascii_lower_seq, utf8_str, lemma_utf8_str_view};

verus! {

broadcast use encode_utf8_decode_utf8;

/// Token classes of the CHECK expression lexer.
#[derive(Clone, Copy, Debug, PartialEq, Eq, Structural)]
pub enum CheckTokenKind {
    Column,
    Number,
    String,
    Operator,
    Punctuation,
    Keyword,
}

/// One lexed token: its class and byte span in the expression text.
#[derive(Debug)]
pub struct CheckToken {
    pub kind: CheckTokenKind,
    pub span: Range<usize>,
}

// ---------------------------------------------------------------------------
// Integer literals (`str::parse::<i64>`)
// ---------------------------------------------------------------------------

pub open spec fn is_digit(c: char) -> bool {
    '0' <= c && c <= '9'
}

pub open spec fn all_digits(s: Seq<char>) -> bool {
    forall|i: int| 0 <= i < s.len() ==> is_digit(#[trigger] s[i])
}

/// The decimal value of a digit string.
pub open spec fn digits_value(s: Seq<char>) -> int
    decreases s.len(),
{
    if s.len() == 0 {
        0
    } else {
        digits_value(s.drop_last()) * 10 + ((s.last() as u32) - ('0' as u32))
    }
}

/// `str::parse::<i64>`: an optional `+` or `-`, then one or more decimal
/// digits, whose value fits in `i64`.
pub open spec fn spec_parse_i64(s: Seq<char>) -> Option<int> {
    let neg = s.len() > 0 && s[0] == '-';
    let d = if s.len() > 0 && (s[0] == '-' || s[0] == '+') {
        s.drop_first()
    } else {
        s
    };
    if d.len() == 0 || !all_digits(d) {
        None
    } else {
        let v = if neg {
            -digits_value(d)
        } else {
            digits_value(d)
        };
        if i64::MIN <= v <= i64::MAX {
            Some(v)
        } else {
            None
        }
    }
}

proof fn lemma_digits_value_nonneg(s: Seq<char>)
    requires
        all_digits(s),
    ensures
        digits_value(s) >= 0,
    decreases s.len(),
{
    if s.len() > 0 {
        lemma_digits_value_nonneg(s.drop_last());
    }
}

proof fn lemma_digits_value_grows(s: Seq<char>, i: int)
    requires
        all_digits(s),
        0 <= i <= s.len(),
    ensures
        digits_value(s) >= digits_value(s.take(i)),
    decreases s.len() - i,
{
    if i < s.len() {
        lemma_digits_value_grows(s, i + 1);
        assert(s.take(i + 1).drop_last() =~= s.take(i));
        lemma_digits_value_nonneg(s.take(i));
    } else {
        assert(s.take(i) =~= s);
    }
}

pub fn parse_i64(s: &str) -> (r: Option<i64>)
    ensures
        r matches Some(v) ==> spec_parse_i64(s@) == Some(v as int),
        r is None ==> spec_parse_i64(s@) is None,
{
    let v = chars_of(s);
    let neg = v.len() > 0 && v[0] == '-';
    let first: usize = if v.len() > 0 && (v[0] == '-' || v[0] == '+') {
        1
    } else {
        0
    };
    let ghost d = if s@.len() > 0 && (s@[0] == '-' || s@[0] == '+') {
        s@.drop_first()
    } else {
        s@
    };
    assert(d =~= s@.skip(first as int));
    if v.len() == first {
        return None;
    }
    let limit: u64 = 9223372036854775808;
    let mut acc: u64 = 0;
    let mut i = first;
    while i < v.len()
        invariant
            v@ == s@,
            first <= i <= v@.len(),
            d == s@.skip(first as int),
            d.len() == v@.len() - first,
            d == (if s@.len() > 0 && (s@[0] == '-' || s@[0] == '+') {
                s@.drop_first()
            } else {
                s@
            }),
            limit == 9223372036854775808u64,
            acc as int == digits_value(d.take(i - first)),
            acc <= limit,
            all_digits(d.take(i - first)),
        decreases v.len() - i,
    {
        let c = v[i];
        assert(d[i - first] == c);
        if !('0' <= c && c <= '9') {
            assert(!is_digit(d[i - first]));
            assert(!all_digits(d));
            return None;
        }
        let digit = (c as u32 - '0' as u32) as u64;
        assert(digit <= 9);
        assert(d.take(i + 1 - first).drop_last() =~= d.take(i - first));
        assert(d.take(i + 1 - first).last() == c);
        if acc > (limit - digit) / 10 {
            // The value already exceeds the magnitude of `i64::MIN`; with
            // the rest, it does too, or a non-digit follows.
            proof {
                assert(acc * 10 + digit > limit) by (nonlinear_arith)
                    requires
                        acc > (limit - digit) / 10,
                        digit <= 9,
                        limit == 9223372036854775808u64,
                ;
                assert(digits_value(d.take(i + 1 - first)) > limit);
                if all_digits(d) {
                    lemma_digits_value_grows(d, i + 1 - first);
                }
            }
            return None;
        }
        acc = acc * 10 + digit;
        i = i + 1;
    }
    assert(d.take(v.len() - first) =~= d);
    if neg {
        if acc == limit {
            Some(-9223372036854775807i64 - 1)
        } else {
            Some(-(acc as i64))
        }
    } else {
        if acc >= limit {
            None
        } else {
            Some(acc as i64)
        }
    }
}

// ---------------------------------------------------------------------------
// Float literals
// ---------------------------------------------------------------------------

/// The first index of `s` holding one of `a` or `b`, else `s.len()`.
pub open spec fn first_of(s: Seq<char>, a: char, b: char) -> int
    decreases s.len(),
{
    if s.len() == 0 {
        0
    } else if s[0] == a || s[0] == b {
        0
    } else {
        1 + first_of(s.drop_first(), a, b)
    }
}

/// `Digit+ | Digit+ '.' Digit* | Digit* '.' Digit+`
pub open spec fn is_mantissa(m: Seq<char>) -> bool {
    let k = first_of(m, '.', '.');
    if k == m.len() {
        m.len() > 0 && all_digits(m)
    } else {
        all_digits(m.take(k)) && all_digits(m.skip(k + 1)) && m.len() >= 2
    }
}

/// `('e' | 'E') Sign? Digit+`
pub open spec fn is_exponent(e: Seq<char>) -> bool {
    let r = e.drop_first();
    let d = if r.len() > 0 && (r[0] == '+' || r[0] == '-') {
        r.drop_first()
    } else {
        r
    };
    e.len() > 0 && (e[0] == 'e' || e[0] == 'E') && d.len() > 0 && all_digits(d)
}

/// A decimal number with a fraction or an exponent, as `f64`'s `FromStr`
/// accepts it: `Sign? Mantissa Exponent?` that holds a `.`, `e` or `E`.
pub open spec fn spec_is_float_literal(s: Seq<char>) -> bool {
    let n = if s.len() > 0 && (s[0] == '+' || s[0] == '-') {
        s.drop_first()
    } else {
        s
    };
    let j = first_of(n, 'e', 'E');
    let has_marker = first_of(s, '.', '.') < s.len() || first_of(s, 'e', 'E') < s.len();
    &&& has_marker
    &&& is_mantissa(n.take(j))
    &&& (j == n.len() || is_exponent(n.skip(j)))
}

proof fn lemma_first_of(s: Seq<char>, a: char, b: char)
    ensures
        0 <= first_of(s, a, b) <= s.len(),
        first_of(s, a, b) < s.len() ==> (s[first_of(s, a, b)] == a || s[first_of(s, a, b)] == b),
    decreases s.len(),
{
    if s.len() > 0 && !(s[0] == a || s[0] == b) {
        lemma_first_of(s.drop_first(), a, b);
    }
}

fn first_of_exec(v: &Vec<char>, from: usize, to: usize, a: char, b: char) -> (r: usize)
    requires
        from <= to <= v@.len(),
    ensures
        from <= r <= to,
        r - from == first_of(v@.subrange(from as int, to as int), a, b),
{
    let mut i = from;
    while i < to && v[i] != a && v[i] != b
        invariant
            from <= i <= to,
            to <= v@.len(),
            first_of(v@.subrange(from as int, to as int), a, b) == (i - from) + first_of(
                v@.subrange(i as int, to as int),
                a,
                b,
            ),
        decreases to - i,
    {
        assert(v@.subrange(i as int, to as int).drop_first() =~= v@.subrange(i + 1, to as int));
        i = i + 1;
    }
    i
}

fn all_digits_exec(v: &Vec<char>, from: usize, to: usize) -> (r: bool)
    requires
        from <= to <= v@.len(),
    ensures
        r == all_digits(v@.subrange(from as int, to as int)),
{
    let mut i = from;
    while i < to
        invariant
            from <= i <= to,
            to <= v@.len(),
            forall|k: int| from <= k < i ==> is_digit(#[trigger] v@[k]),
        decreases to - i,
    {
        if !('0' <= v[i] && v[i] <= '9') {
            assert(!is_digit(v@.subrange(from as int, to as int)[i - from]));
            return false;
        }
        i = i + 1;
    }
    assert forall|k: int| 0 <= k < to - from implies is_digit(
        #[trigger] v@.subrange(from as int, to as int)[k],
    ) by {
        assert(v@.subrange(from as int, to as int)[k] == v@[from + k]);
    }
    true
}

fn mantissa_ok(v: &Vec<char>, from: usize, to: usize) -> (r: bool)
    requires
        from <= to <= v@.len(),
    ensures
        r == is_mantissa(v@.subrange(from as int, to as int)),
{
    let ghost m = v@.subrange(from as int, to as int);
    let k = first_of_exec(v, from, to, '.', '.');
    proof {
        lemma_first_of(m, '.', '.');
    }
    if k == to {
        to > from && all_digits_exec(v, from, to)
    } else {
        proof {
            assert(m.take(k - from) =~= v@.subrange(from as int, k as int));
            assert(m.skip(k - from + 1) =~= v@.subrange(k + 1, to as int));
        }
        all_digits_exec(v, from, k) && all_digits_exec(v, k + 1, to) && to - from >= 2
    }
}

fn exponent_ok(v: &Vec<char>, from: usize, to: usize) -> (r: bool)
    requires
        from < to <= v@.len(),
        v@[from as int] == 'e' || v@[from as int] == 'E',
    ensures
        r == is_exponent(v@.subrange(from as int, to as int)),
{
    let ghost e = v@.subrange(from as int, to as int);
    assert(e.drop_first() =~= v@.subrange(from + 1, to as int));
    let ds: usize = if from + 1 < to && (v[from + 1] == '+' || v[from + 1] == '-') {
        from + 2
    } else {
        from + 1
    };
    proof {
        if ds == from + 2 {
            assert(e.drop_first().drop_first() =~= v@.subrange(ds as int, to as int));
        }
    }
    ds < to && all_digits_exec(v, ds, to)
}

pub fn is_float_literal(s: &str) -> (r: bool)
    ensures
        r == spec_is_float_literal(s@),
{
    let v = chars_of(s);
    let n = v.len();
    assert(v@.subrange(0, n as int) =~= s@);
    let dot = first_of_exec(&v, 0, n, '.', '.');
    let e_any = first_of_exec(&v, 0, n, 'e', 'E');
    if !(dot < n || e_any < n) {
        return false;
    }
    let ns: usize = if n > 0 && (v[0] == '+' || v[0] == '-') {
        1
    } else {
        0
    };
    let ghost nseq = if s@.len() > 0 && (s@[0] == '+' || s@[0] == '-') {
        s@.drop_first()
    } else {
        s@
    };
    assert(nseq =~= v@.subrange(ns as int, n as int));
    let j = first_of_exec(&v, ns, n, 'e', 'E');
    proof {
        lemma_first_of(nseq, 'e', 'E');
    }
    assert(nseq.take(j - ns) =~= v@.subrange(ns as int, j as int));
    if !mantissa_ok(&v, ns, j) {
        return false;
    }
    if j == n {
        return true;
    }
    assert(nseq.skip(j - ns) =~= v@.subrange(j as int, n as int));
    exponent_ok(&v, j, n)
}

// ---------------------------------------------------------------------------
// Literal ordering
// ---------------------------------------------------------------------------

/// How two literal bounds compare.
#[derive(Clone, Copy, Debug, PartialEq, Eq, Structural)]
pub enum LiteralOrder {
    /// The first is demonstrably greater than the second.
    Greater,
    /// Not demonstrably greater (equal, smaller, or not comparable).
    NotGreater,
    /// Two float literals: decided by comparing them as `f64`.
    FloatPair,
}

/// `a > b` in the order of `str`.
pub open spec fn str_greater(a: Seq<char>, b: Seq<char>) -> bool {
    !name_le(a, b)
}

/// Two `i64` integers compare numerically; two float literals compare as
/// `f64`; two single-quoted SQL strings compare as text; anything else is
/// not greater.
pub open spec fn spec_literal_order(a: Seq<char>, b: Seq<char>) -> LiteralOrder {
    if spec_parse_i64(a) is Some && spec_parse_i64(b) is Some {
        if spec_parse_i64(a).unwrap() > spec_parse_i64(b).unwrap() {
            LiteralOrder::Greater
        } else {
            LiteralOrder::NotGreater
        }
    } else if spec_is_float_literal(a) && spec_is_float_literal(b) {
        LiteralOrder::FloatPair
    } else if a.len() > 0 && a[0] == '\'' && b.len() > 0 && b[0] == '\'' {
        if str_greater(a, b) {
            LiteralOrder::Greater
        } else {
            LiteralOrder::NotGreater
        }
    } else {
        LiteralOrder::NotGreater
    }
}

fn names_le_str(a: &str, b: &str) -> (r: bool)
    ensures
        r == name_le(a@, b@),
{
    let x = chars_of(a);
    let y = chars_of(b);
    let mut i: usize = 0;
    assert(x@.skip(0) =~= x@);
    assert(y@.skip(0) =~= y@);
    while i < x.len() && i < y.len()
        invariant
            x@ == a@,
            y@ == b@,
            i <= x@.len(),
            i <= y@.len(),
            name_le(a@, b@) == name_le(x@.skip(i as int), y@.skip(i as int)),
        decreases x.len() - i,
    {
        if (x[i] as u32) < (y[i] as u32) {
            return true;
        }
        if x[i] != y[i] {
            assert((x@[i as int] as u32) != (y@[i as int] as u32)) by {
                vstd::utf8::char_u32_cast(x@[i as int], x@[i as int] as u32);
                vstd::utf8::char_u32_cast(y@[i as int], y@[i as int] as u32);
            }
            return false;
        }
        assert(x@.skip(i as int).drop_first() =~= x@.skip(i + 1));
        assert(y@.skip(i as int).drop_first() =~= y@.skip(i + 1));
        i = i + 1;
    }
    i == x.len()
}

pub fn literal_order(a: &str, b: &str) -> (r: LiteralOrder)
    ensures
        r == spec_literal_order(a@, b@),
{
    let x = parse_i64(a);
    let y = parse_i64(b);
    if x.is_some() && y.is_some() {
        if x.unwrap() > y.unwrap() {
            LiteralOrder::Greater
        } else {
            LiteralOrder::NotGreater
        }
    } else if is_float_literal(a) && is_float_literal(b) {
        LiteralOrder::FloatPair
    } else {
        let ac = chars_of(a);
        let bc = chars_of(b);
        if ac.len() > 0 && ac[0] == '\'' && bc.len() > 0 && bc[0] == '\'' {
            if !names_le_str(a, b) {
                LiteralOrder::Greater
            } else {
                LiteralOrder::NotGreater
            }
        } else {
            LiteralOrder::NotGreater
        }
    }
}

// ---------------------------------------------------------------------------
// Reversed BETWEEN bounds
// ---------------------------------------------------------------------------

/// A `BETWEEN low AND high` with literal bounds, found in a CHECK
/// expression.
#[derive(Debug)]
pub struct BetweenCandidate {
    pub low: Range<usize>,
    pub high: Range<usize>,
    pub low_text: String,
    pub high_text: String,
    pub order: LiteralOrder,
    /// For a `FloatPair`, whether `low > high` as `f64`; set by the caller.
    pub float_greater: Option<bool>,
}

/// The text of a span of the expression, when it is in range and on
/// character boundaries.
pub open spec fn span_text(expr: Seq<u8>, span: Range<usize>) -> Option<Seq<char>> {
    if span.start <= span.end <= expr.len() && valid_utf8(
        expr.subrange(span.start as int, span.end as int),
    ) {
        Some(decode_utf8(expr.subrange(span.start as int, span.end as int)))
    } else {
        None
    }
}

pub open spec fn is_keyword(expr: Seq<u8>, tok: CheckToken, word: Seq<char>) -> bool {
    tok.kind == CheckTokenKind::Keyword && match span_text(expr, tok.span) {
        Some(t) => ascii_lower_seq(t) == ascii_lower_seq(word),
        None => false,
    }
}

pub open spec fn is_literal_kind(k: CheckTokenKind) -> bool {
    k == CheckTokenKind::Number || k == CheckTokenKind::String
}

/// The candidate at token `i`: `BETWEEN` not preceded by `NOT`, then a
/// literal, `AND`, and a literal, whose texts are on character boundaries.
pub open spec fn candidate_at(expr: Seq<u8>, toks: Seq<CheckToken>, i: int) -> Option<
    (Range<usize>, Range<usize>, Seq<char>, Seq<char>, LiteralOrder),
> {
    if !is_keyword(expr, toks[i], "between"@) {
        None
    } else if i >= 1 && is_keyword(expr, toks[i - 1], "not"@) {
        None
    } else if i + 3 >= toks.len() {
        None
    } else {
        let low = toks[i + 1];
        let and = toks[i + 2];
        let high = toks[i + 3];
        if !is_literal_kind(low.kind) || !is_keyword(expr, and, "and"@) || !is_literal_kind(
            high.kind,
        ) {
            None
        } else {
            match (span_text(expr, low.span), span_text(expr, high.span)) {
                (Some(lt), Some(ht)) => Some(
                    (low.span, high.span, lt, ht, spec_literal_order(lt, ht)),
                ),
                _ => None,
            }
        }
    }
}

/// The candidates from token `i` on, in token order.
pub open spec fn candidates_from(expr: Seq<u8>, toks: Seq<CheckToken>, i: int) -> Seq<
    (Range<usize>, Range<usize>, Seq<char>, Seq<char>, LiteralOrder),
>
    decreases toks.len() - i,
{
    if i < 0 || i >= toks.len() {
        Seq::empty()
    } else {
        match candidate_at(expr, toks, i) {
            Some(c) => seq![c] + candidates_from(expr, toks, i + 1),
            None => candidates_from(expr, toks, i + 1),
        }
    }
}

pub open spec fn candidate_view(c: BetweenCandidate) -> (Range<usize>, Range<usize>, Seq<char>, Seq<char>, LiteralOrder) {
    (c.low, c.high, c.low_text@, c.high_text@, c.order)
}

pub(crate) fn span_str<'a>(expr: &'a str, span: &Range<usize>) -> (r: Option<&'a str>)
    ensures
        (r is Some) == (span_text(expr.spec_bytes(), *span) is Some),
        r matches Some(s) ==> span_text(expr.spec_bytes(), *span) == Some(s@),
{
    let b = expr.as_bytes();
    if span.start <= span.end && span.end <= b.len() {
        let sub = &b[span.start..span.end];
        let r = utf8_str(sub);
        proof {
            if let Some(s) = r {
                lemma_utf8_str_view(s, sub@);
            }
        }
        r
    } else {
        None
    }
}

fn keyword_is(expr: &str, tok: &CheckToken, word: &str) -> (r: bool)
    ensures
        r == is_keyword(expr.spec_bytes(), *tok, word@),
{
    if !matches!(tok.kind, CheckTokenKind::Keyword) {
        return false;
    }
    match span_str(expr, &tok.span) {
        Some(t) => eq_ignore_ascii_case(t, word),
        None => false,
    }
}

fn is_literal(k: CheckTokenKind) -> (r: bool)
    ensures
        r == is_literal_kind(k),
{
    matches!(k, CheckTokenKind::Number | CheckTokenKind::String)
}

/// Every `BETWEEN low AND high` (not `NOT BETWEEN`) whose bounds are
/// literal tokens, with the order of its bounds.
pub fn between_candidates(expr: &str, tokens: &[CheckToken]) -> (r: Vec<BetweenCandidate>)
    ensures
        r@.map_values(|c: BetweenCandidate| candidate_view(c)) == candidates_from(
            expr.spec_bytes(),
            tokens@,
            0,
        ),
        forall|k: int| 0 <= k < r@.len() ==> (#[trigger] r@[k]).float_greater is None,
        forall|k: int|
            0 <= k < r@.len() ==> (#[trigger] r@[k]).low.start <= r@[k].low.end
                <= expr.spec_bytes().len() && r@[k].high.start <= r@[k].high.end
                <= expr.spec_bytes().len(),
{
    let ghost eb = expr.spec_bytes();
    let mut out: Vec<BetweenCandidate> = Vec::new();
    let mut i: usize = 0;
    while i < tokens.len()
        invariant
            i <= tokens@.len(),
            eb == expr.spec_bytes(),
            candidates_from(eb, tokens@, 0) == out@.map_values(
                |c: BetweenCandidate| candidate_view(c),
            ) + candidates_from(eb, tokens@, i as int),
            forall|k: int| 0 <= k < out@.len() ==> (#[trigger] out@[k]).float_greater is None,
            forall|k: int|
                0 <= k < out@.len() ==> (#[trigger] out@[k]).low.start <= out@[k].low.end
                    <= expr.spec_bytes().len() && out@[k].high.start <= out@[k].high.end
                    <= expr.spec_bytes().len(),
        decreases tokens.len() - i,
    {
        let ghost before = out@;
        let mut found = false;
        if keyword_is(expr, &tokens[i], "between") && !(i >= 1 && keyword_is(
            expr,
            &tokens[i - 1],
            "not",
        )) && tokens.len() - i > 3 {
            let low = &tokens[i + 1];
            let and = &tokens[i + 2];
            let high = &tokens[i + 3];
            if is_literal(low.kind) && keyword_is(expr, and, "and") && is_literal(high.kind) {
                match (span_str(expr, &low.span), span_str(expr, &high.span)) {
                    (Some(lt), Some(ht)) => {
                        let c = BetweenCandidate {
                            low: low.span.start..low.span.end,
                            high: high.span.start..high.span.end,
                            low_text: String::from_str(lt),
                            high_text: String::from_str(ht),
                            order: literal_order(lt, ht),
                            float_greater: None,
                        };
                        out.push(c);
                        found = true;
                        assert(candidate_at(eb, tokens@, i as int) == Some(candidate_view(c)));
                    },
                    _ => {},
                }
            }
        }
        proof {
            if found {
                assert(out@.map_values(|c: BetweenCandidate| candidate_view(c)) =~= before.map_values(
                    |c: BetweenCandidate| candidate_view(c),
                ).push(candidate_view(out@.last())));
            } else {
                assert(candidate_at(eb, tokens@, i as int) is None);
            }
        }
        i = i + 1;
    }
    out
}


/// A candidate's bounds are reversed: demonstrably, or as floats by the
/// caller's verdict.
pub open spec fn is_reversed(c: BetweenCandidate) -> bool {
    c.order == LiteralOrder::Greater || (c.order == LiteralOrder::FloatPair && c.float_greater
        == Some(true))
}

/// The swap edits of the reversed candidates, positions offset by `base`.
pub open spec fn spec_swaps(base: usize, cands: Seq<BetweenCandidate>) -> Seq<
    (Seq<char>, Seq<(usize, usize, Seq<char>)>),
>
    decreases cands.len(),
{
    if cands.len() == 0 {
        Seq::empty()
    } else {
        let c = cands[0];
        let rest = spec_swaps(base, cands.drop_first());
        if is_reversed(c) {
            seq![
                (
                    "Swap reversed BETWEEN bounds"@,
                    seq![
                        ((base + c.low.start) as usize, (base + c.low.end) as usize, c.high_text@),
                        ((base + c.high.start) as usize, (base + c.high.end) as usize, c.low_text@),
                    ],
                ),
            ] + rest
        } else {
            rest
        }
    }
}

} // verus!
