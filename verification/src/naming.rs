//! Naming conventions for database objects: indexes, unique constraints,
//! foreign keys, CHECK constraints and enum types.
//!
//! Every name embeds the table name so that objects of different tables
//! never collide, and names derived from a column list do not depend on the
//! order in which the columns were given: the columns are sorted first.

use vstd::prelude::*;
use vstd::multiset::*;
use vstd::string::*;

verus! {

broadcast use vstd::seq_lib::group_to_multiset_ensures;

/// A value that can stand for a column name: a string slice or an owned string.
pub trait ColumnName {
    spec fn name_view(&self) -> Seq<char>;

    fn name_str(&self) -> (s: &str)
        ensures
            s@ == self.name_view(),
    ;
}

impl<'a> ColumnName for &'a str {
    open spec fn name_view(&self) -> Seq<char> {
        (**self)@
    }

    fn name_str(&self) -> (s: &str) {
        *self
    }
}

impl ColumnName for String {
    open spec fn name_view(&self) -> Seq<char> {
        self@
    }

    fn name_str(&self) -> (s: &str) {
        self.as_str()
    }
}

/// The names of a column slice, in the order given.
pub open spec fn column_views<T: ColumnName>(columns: Seq<T>) -> Seq<Seq<char>> {
    columns.map_values(|c: T| c.name_view())
}

/// Lexicographic order on character sequences (code point by code point).
/// For strings this is the order `str` itself uses, since UTF-8 encoding
/// preserves the order of code points.
pub open spec fn name_le(a: Seq<char>, b: Seq<char>) -> bool
    decreases a.len(),
{
    if a.len() == 0 {
        true
    } else if b.len() == 0 {
        false
    } else if (a[0] as u32) < (b[0] as u32) {
        true
    } else if a[0] == b[0] {
        name_le(a.drop_first(), b.drop_first())
    } else {
        false
    }
}

/// `s` is sorted in ascending name order.
pub open spec fn names_sorted(s: Seq<Seq<char>>) -> bool {
    forall|i: int, j: int| 0 <= i < j < s.len() ==> name_le(#[trigger] s[i], #[trigger] s[j])
}

/// `t` holds the names of `s`, sorted.
pub open spec fn is_sorted_names_of(t: Seq<Seq<char>>, s: Seq<Seq<char>>) -> bool {
    names_sorted(t) && t.to_multiset() == s.to_multiset()
}

/// The names of the multiset `m` in ascending order (unique: see
/// `lemma_sorted_names_unique`).
pub open spec fn sorted_multiset(m: Multiset<Seq<char>>) -> Seq<Seq<char>> {
    choose|t: Seq<Seq<char>>| names_sorted(t) && t.to_multiset() == m
}

/// The names of `s` in ascending order.
pub open spec fn sorted_names(s: Seq<Seq<char>>) -> Seq<Seq<char>> {
    sorted_multiset(s.to_multiset())
}

/// The names joined by a single underscore.
pub open spec fn join_underscore(s: Seq<Seq<char>>) -> Seq<char>
    decreases s.len(),
{
    if s.len() == 0 {
        Seq::empty()
    } else if s.len() == 1 {
        s[0]
    } else {
        join_underscore(s.drop_last()) + seq!['_'] + s.last()
    }
}

/// `{prefix}{table}__{key}` when a key is given, else
/// `{prefix}{table}__{col1}_{col2}...` over the sorted column names.
pub open spec fn spec_constraint_name(
    prefix: Seq<char>,
    table: Seq<char>,
    columns: Seq<Seq<char>>,
    key: Option<Seq<char>>,
) -> Seq<char> {
    match key {
        Some(k) => prefix + table + seq!['_', '_'] + k,
        None => prefix + table + seq!['_', '_'] + join_underscore(sorted_names(columns)),
    }
}

pub open spec fn opt_view(key: Option<&str>) -> Option<Seq<char>> {
    match key {
        Some(k) => Some(k@),
        None => None,
    }
}

/// `chk_{table}__{column}`
pub open spec fn spec_check_constraint_name(table: Seq<char>, column: Seq<char>) -> Seq<char> {
    seq!['c', 'h', 'k', '_'] + table + seq!['_', '_'] + column
}

/// `{table}_{enum_name}`
pub open spec fn spec_enum_type_name(table: Seq<char>, enum_name: Seq<char>) -> Seq<char> {
    table + seq!['_'] + enum_name
}

// ---------------------------------------------------------------------------
// Order lemmas
// ---------------------------------------------------------------------------

pub proof fn lemma_name_le_refl(a: Seq<char>)
    ensures
        name_le(a, a),
    decreases a.len(),
{
    if a.len() > 0 {
        lemma_name_le_refl(a.drop_first());
    }
}

pub proof fn lemma_name_le_total(a: Seq<char>, b: Seq<char>)
    ensures
        name_le(a, b) || name_le(b, a),
    decreases a.len(),
{
    if a.len() > 0 && b.len() > 0 && a[0] == b[0] {
        lemma_name_le_total(a.drop_first(), b.drop_first());
    } else if a.len() > 0 && b.len() > 0 {
        assert(a[0] as u32 != b[0] as u32) by {
            vstd::utf8::char_u32_cast(a[0], a[0] as u32);
            vstd::utf8::char_u32_cast(b[0], b[0] as u32);
        }
    }
}

pub proof fn lemma_name_le_antisym(a: Seq<char>, b: Seq<char>)
    requires
        name_le(a, b),
        name_le(b, a),
    ensures
        a == b,
    decreases a.len(),
{
    if a.len() == 0 {
        assert(b.len() == 0);
        assert(a =~= b);
    } else {
        assert(b.len() > 0);
        assert(a[0] == b[0]);
        lemma_name_le_antisym(a.drop_first(), b.drop_first());
        assert(a =~= seq![a[0]] + a.drop_first());
        assert(b =~= seq![b[0]] + b.drop_first());
    }
}

pub proof fn lemma_name_le_trans(a: Seq<char>, b: Seq<char>, c: Seq<char>)
    requires
        name_le(a, b),
        name_le(b, c),
    ensures
        name_le(a, c),
    decreases a.len(),
{
    if a.len() > 0 && b.len() > 0 && c.len() > 0 && a[0] == b[0] && b[0] == c[0] {
        lemma_name_le_trans(a.drop_first(), b.drop_first(), c.drop_first());
    }
}

/// Two sorted sequences holding the same names are equal.
pub proof fn lemma_sorted_names_unique(a: Seq<Seq<char>>, b: Seq<Seq<char>>)
    requires
        names_sorted(a),
        names_sorted(b),
        a.to_multiset() == b.to_multiset(),
    ensures
        a == b,
    decreases a.len(),
{
    broadcast use group_multiset_axioms;

    if a.len() == 0 {
        assert(b.len() == 0);
        assert(a =~= b);
    } else {
        assert(a.to_multiset().len() == a.len());
        assert(b.to_multiset().len() == b.len());
        assert(b.len() == a.len());
        assert(b.len() > 0);
        // a[0] occurs in b and b[0] occurs in a.
        assert(a.to_multiset().count(a[0]) > 0) by {
            assert(a.contains(a[0]));
        }
        assert(b.contains(a[0]));
        let j = choose|j: int| 0 <= j < b.len() && b[j] == a[0];
        assert(b.to_multiset().count(b[0]) > 0) by {
            assert(b.contains(b[0]));
        }
        assert(a.contains(b[0]));
        let k = choose|k: int| 0 <= k < a.len() && a[k] == b[0];
        assert(name_le(b[0], a[0])) by {
            if j > 0 {
                assert(name_le(b[0], b[j]));
            } else {
                lemma_name_le_refl(b[0]);
            }
        }
        assert(name_le(a[0], b[0])) by {
            if k > 0 {
                assert(name_le(a[0], a[k]));
            } else {
                lemma_name_le_refl(a[0]);
            }
        }
        lemma_name_le_antisym(a[0], b[0]);
        let a1 = a.remove(0);
        let b1 = b.remove(0);
        assert(a1.to_multiset() == b1.to_multiset());
        assert(names_sorted(a1)) by {
            assert forall|i: int, j2: int| 0 <= i < j2 < a1.len() implies name_le(
                #[trigger] a1[i],
                #[trigger] a1[j2],
            ) by {
                assert(a1[i] == a[i + 1] && a1[j2] == a[j2 + 1]);
            }
        }
        assert(names_sorted(b1)) by {
            assert forall|i: int, j2: int| 0 <= i < j2 < b1.len() implies name_le(
                #[trigger] b1[i],
                #[trigger] b1[j2],
            ) by {
                assert(b1[i] == b[i + 1] && b1[j2] == b[j2 + 1]);
            }
        }
        lemma_sorted_names_unique(a1, b1);
        assert(a =~= seq![a[0]] + a1);
        assert(b =~= seq![b[0]] + b1);
    }
}

/// When `t` is a sorted arrangement of `s`, `sorted_names(s)` is `t`.
proof fn lemma_sorted_names_is(t: Seq<Seq<char>>, s: Seq<Seq<char>>)
    requires
        is_sorted_names_of(t, s),
    ensures
        sorted_names(s) == t,
{
    let c = sorted_names(s);
    assert(names_sorted(t) && t.to_multiset() == s.to_multiset());
    assert(is_sorted_names_of(c, s));
    lemma_sorted_names_unique(c, t);
}

// ---------------------------------------------------------------------------
// Laws
// ---------------------------------------------------------------------------

/// Names derived from a column list do not depend on the order of the
/// columns: two lists holding the same columns give the same name.
pub proof fn lemma_constraint_name_order_independent(
    prefix: Seq<char>,
    table: Seq<char>,
    columns1: Seq<Seq<char>>,
    columns2: Seq<Seq<char>>,
    key: Option<Seq<char>>,
)
    requires
        columns1.to_multiset() == columns2.to_multiset(),
    ensures
        spec_constraint_name(prefix, table, columns1, key) == spec_constraint_name(
            prefix,
            table,
            columns2,
            key,
        ),
{
    assert(sorted_names(columns1) == sorted_names(columns2));
}

proof fn lemma_suffix_cancel(t1: Seq<char>, t2: Seq<char>, rest: Seq<char>)
    requires
        t1 + rest == t2 + rest,
    ensures
        t1 == t2,
{
    assert((t1 + rest).len() == t1.len() + rest.len());
    assert((t2 + rest).len() == t2.len() + rest.len());
    assert(t1.len() == t2.len());
    assert forall|i: int| 0 <= i < t1.len() implies t1[i] == t2[i] by {
        assert((t1 + rest)[i] == t1[i]);
        assert((t2 + rest)[i] == t2[i]);
    }
    assert(t1 =~= t2);
}

/// Constraint names of two different tables never collide, given the same
/// prefix, columns and key.
pub proof fn lemma_constraint_name_distinct_tables(
    prefix: Seq<char>,
    table1: Seq<char>,
    table2: Seq<char>,
    columns: Seq<Seq<char>>,
    key: Option<Seq<char>>,
)
    requires
        table1 != table2,
    ensures
        spec_constraint_name(prefix, table1, columns, key) != spec_constraint_name(
            prefix,
            table2,
            columns,
            key,
        ),
{
    let rest = match key {
        Some(k) => seq!['_', '_'] + k,
        None => seq!['_', '_'] + join_underscore(sorted_names(columns)),
    };
    assert(spec_constraint_name(prefix, table1, columns, key) =~= (prefix + table1) + rest);
    assert(spec_constraint_name(prefix, table2, columns, key) =~= (prefix + table2) + rest);
    if (prefix + table1) + rest == (prefix + table2) + rest {
        lemma_suffix_cancel(prefix + table1, prefix + table2, rest);
        assert(table1 =~= (prefix + table1).subrange(prefix.len() as int, (prefix + table1).len() as int));
        assert(table2 =~= (prefix + table2).subrange(prefix.len() as int, (prefix + table2).len() as int));
    }
}

/// Enum type names of two different tables never collide for the same enum
/// name.
pub proof fn lemma_enum_type_name_distinct_tables(
    table1: Seq<char>,
    table2: Seq<char>,
    enum_name: Seq<char>,
)
    requires
        table1 != table2,
    ensures
        spec_enum_type_name(table1, enum_name) != spec_enum_type_name(table2, enum_name),
{
    let rest = seq!['_'] + enum_name;
    assert(spec_enum_type_name(table1, enum_name) =~= table1 + rest);
    assert(spec_enum_type_name(table2, enum_name) =~= table2 + rest);
    if table1 + rest == table2 + rest {
        lemma_suffix_cancel(table1, table2, rest);
    }
}

/// CHECK constraint names of two different tables never collide for the
/// same column.
pub proof fn lemma_check_constraint_name_distinct_tables(
    table1: Seq<char>,
    table2: Seq<char>,
    column: Seq<char>,
)
    requires
        table1 != table2,
    ensures
        spec_check_constraint_name(table1, column) != spec_check_constraint_name(table2, column),
{
    let p = seq!['c', 'h', 'k', '_'];
    let rest = seq!['_', '_'] + column;
    assert(spec_check_constraint_name(table1, column) =~= (p + table1) + rest);
    assert(spec_check_constraint_name(table2, column) =~= (p + table2) + rest);
    if (p + table1) + rest == (p + table2) + rest {
        lemma_suffix_cancel(p + table1, p + table2, rest);
        assert(table1 =~= (p + table1).subrange(4, (p + table1).len() as int));
        assert(table2 =~= (p + table2).subrange(4, (p + table2).len() as int));
    }
}

// ---------------------------------------------------------------------------
// Executable code
// ---------------------------------------------------------------------------

/// `a <= b` in name order.
pub fn names_le(a: &str, b: &str) -> (r: bool)
    ensures
        r == name_le(a@, b@),
{
    let la = a.unicode_len();
    let lb = b.unicode_len();
    let mut i: usize = 0;
    assert(a@.skip(0) =~= a@);
    assert(b@.skip(0) =~= b@);
    while i < la && i < lb
        invariant
            la == a@.len(),
            lb == b@.len(),
            i <= la,
            i <= lb,
            forall|k: int| 0 <= k < i ==> a@[k] == b@[k],
            name_le(a@, b@) == name_le(a@.skip(i as int), b@.skip(i as int)),
        decreases la - i,
    {
        let ca = a.get_char(i);
        let cb = b.get_char(i);
        if (ca as u32) < (cb as u32) {
            return true;
        }
        if ca != cb {
            assert((ca as u32) != (cb as u32)) by {
                vstd::utf8::char_u32_cast(ca, ca as u32);
                vstd::utf8::char_u32_cast(cb, cb as u32);
            }
            return false;
        }
        assert(a@.skip(i as int).drop_first() =~= a@.skip(i + 1));
        assert(b@.skip(i as int).drop_first() =~= b@.skip(i + 1));
        i = i + 1;
    }
    i == la
}

/// The strings' names sorted ascending.
fn sort_names<'a>(v: Vec<&'a str>) -> (r: Vec<&'a str>)
    ensures
        is_sorted_names_of(r@.map_values(|s: &str| s@), v@.map_values(|s: &str| s@)),
{
    let ghost input = v@.map_values(|s: &str| s@);
    let mut out: Vec<&'a str> = Vec::new();
    let mut i: usize = 0;
    assert(out@.map_values(|s: &str| s@) =~= input.take(0));
    while i < v.len()
        invariant
            i <= v.len(),
            input == v@.map_values(|s: &str| s@),
            is_sorted_names_of(out@.map_values(|s: &str| s@), input.take(i as int)),
        decreases v.len() - i,
    {
        let x = v[i];
        let ghost before = out@.map_values(|s: &str| s@);
        // Find the first position whose name is greater than x.
        let mut pos: usize = 0;
        while pos < out.len() && names_le(out[pos], x)
            invariant
                pos <= out.len(),
                before == out@.map_values(|s: &str| s@),
                forall|k: int| 0 <= k < pos ==> name_le(#[trigger] before[k], x@),
            decreases out.len() - pos,
        {
            pos = pos + 1;
        }
        proof {
            if pos < out.len() {
                lemma_name_le_total(out@[pos as int]@, x@);
            }
        }
        out.insert(pos, x);
        proof {
            let after = out@.map_values(|s: &str| s@);
            assert(after =~= before.insert(pos as int, x@));
            assert(input.take(i + 1) =~= input.take(i as int).push(x@));
            assert(names_sorted(after)) by {
                assert forall|a: int, b: int| 0 <= a < b < after.len() implies name_le(
                    #[trigger] after[a],
                    #[trigger] after[b],
                ) by {
                    if b < pos {
                    } else if a < pos && b == pos {
                    } else if a < pos && b > pos {
                        lemma_name_le_total(before[pos as int], x@);
                        assert(name_le(x@, before[pos as int]));
                        assert(name_le(before[a], x@));
                        if b - 1 > pos {
                            assert(name_le(before[pos as int], before[b - 1]));
                            lemma_name_le_trans(x@, before[pos as int], before[b - 1]);
                        }
                        lemma_name_le_trans(before[a], x@, before[b - 1]);
                    } else if a == pos {
                        lemma_name_le_total(before[pos as int], x@);
                        if b - 1 > pos {
                            assert(name_le(before[pos as int], before[b - 1]));
                            lemma_name_le_trans(x@, before[pos as int], before[b - 1]);
                        }
                    } else {
                        assert(name_le(before[a - 1], before[b - 1]));
                    }
                }
            }
        }
        i = i + 1;
    }
    assert(input.take(v.len() as int) =~= input);
    out
}

/// Appends the names joined by `_` to `out`.
fn write_sorted_columns<T: ColumnName>(out: &mut String, columns: &[T])
    ensures
        final(out)@ == old(out)@ + join_underscore(sorted_names(column_views(columns@))),
{
    let ghost cols = column_views(columns@);
    let mut names: Vec<&str> = Vec::new();
    let mut i: usize = 0;
    while i < columns.len()
        invariant
            i <= columns.len(),
            cols == column_views(columns@),
            names@.map_values(|s: &str| s@) =~= cols.take(i as int),
        decreases columns.len() - i,
    {
        let s = columns[i].name_str();
        names.push(s);
        assert(cols.take(i + 1) =~= cols.take(i as int).push(s@));
        i = i + 1;
    }
    assert(cols.take(columns.len() as int) =~= cols);
    let sorted = sort_names(names);
    let ghost sv = sorted@.map_values(|s: &str| s@);
    proof {
        lemma_sorted_names_is(sv, cols);
    }
    let ghost start = out@;
    let mut k: usize = 0;
    while k < sorted.len()
        invariant
            k <= sorted.len(),
            sv == sorted@.map_values(|s: &str| s@),
            out@ == start + join_underscore(sv.take(k as int)),
        decreases sorted.len() - k,
    {
        if k > 0 {
            out.append("_");
            proof {
                reveal_strlit("_");
            }
        }
        out.append(sorted[k]);
        proof {
            let t = sv.take(k + 1);
            assert(t.drop_last() =~= sv.take(k as int));
            assert(t.last() == sv[k as int]);
            if k == 0 {
                assert(join_underscore(sv.take(0)) =~= Seq::<char>::empty());
                assert(join_underscore(t) == t[0]);
            }
        }
        k = k + 1;
    }
    assert(sv.take(sorted.len() as int) =~= sv);
}

/// Shared body of the three constraint name builders.
fn build_constraint_name<T: ColumnName>(
    prefix: &str,
    table: &str,
    columns: &[T],
    key: Option<&str>,
) -> (r: String)
    ensures
        r@ == spec_constraint_name(prefix@, table@, column_views(columns@), opt_view(key)),
{
    let mut out = String::from_str(prefix);
    out.append(table);
    out.append("__");
    proof {
        reveal_strlit("__");
    }
    match key {
        Some(k) => {
            out.append(k);
        },
        None => {
            write_sorted_columns(&mut out, columns);
        },
    }
    out
}

/// Index name: `ix_{table}__{key}` when a key is given, else
/// `ix_{table}__{col1}_{col2}...` over the sorted column names.
pub fn build_index_name<T: ColumnName>(table: &str, columns: &[T], key: Option<&str>) -> (r:
    String)
    ensures
        r@ == spec_constraint_name(seq!['i', 'x', '_'], table@, column_views(columns@), opt_view(key)),
{
    proof {
        reveal_strlit("ix_");
    }
    build_constraint_name("ix_", table, columns, key)
}

/// Unique constraint name: `uq_{table}__{key}` when a key is given, else
/// `uq_{table}__{col1}_{col2}...` over the sorted column names.
pub fn build_unique_constraint_name<T: ColumnName>(
    table: &str,
    columns: &[T],
    key: Option<&str>,
) -> (r: String)
    ensures
        r@ == spec_constraint_name(seq!['u', 'q', '_'], table@, column_views(columns@), opt_view(key)),
{
    proof {
        reveal_strlit("uq_");
    }
    build_constraint_name("uq_", table, columns, key)
}

/// Foreign key name: `fk_{table}__{key}` when a key is given, else
/// `fk_{table}__{col1}_{col2}...` over the sorted column names.
pub fn build_foreign_key_name<T: ColumnName>(table: &str, columns: &[T], key: Option<&str>) -> (r:
    String)
    ensures
        r@ == spec_constraint_name(seq!['f', 'k', '_'], table@, column_views(columns@), opt_view(key)),
{
    proof {
        reveal_strlit("fk_");
    }
    build_constraint_name("fk_", table, columns, key)
}

/// CHECK constraint name of an enum column: `chk_{table}__{column}`.
pub fn build_check_constraint_name(table: &str, column: &str) -> (r: String)
    ensures
        r@ == spec_check_constraint_name(table@, column@),
{
    let mut out = String::from_str("chk_");
    out.append(table);
    out.append("__");
    out.append(column);
    proof {
        reveal_strlit("chk_");
        reveal_strlit("__");
    }
    out
}

/// Enum type name prefixed with its table: `{table}_{enum_name}`.
pub fn build_enum_type_name(table: &str, enum_name: &str) -> (r: String)
    ensures
        r@ == spec_enum_type_name(table@, enum_name@),
{
    let mut out = String::from_str(table);
    out.append("_");
    out.append(enum_name);
    proof {
        reveal_strlit("_");
    }
    out
}

} // verus!
