//! Text helpers shared by the language features: Unicode whitespace
//! trimming, quote stripping for JSON/YAML scalars, string equality and
//! ASCII case folding.

use vstd::prelude::*;
use vstd::string::*;
use vstd::utf8::*;

verus! {

broadcast use encode_utf8_decode_utf8;

/// Unicode `White_Space` property, which is what `char::is_whitespace`
/// and `str::trim` use.
pub open spec fn is_unicode_whitespace(c: char) -> bool {
    let u = c as u32;
    ||| 0x09 <= u <= 0x0d
    ||| u == 0x20
    ||| u == 0x85
    ||| u == 0xa0
    ||| u == 0x1680
    ||| 0x2000 <= u <= 0x200a
    ||| u == 0x2028
    ||| u == 0x2029
    ||| u == 0x202f
    ||| u == 0x205f
    ||| u == 0x3000
}

/// Drops leading characters satisfying `p`.
pub open spec fn trim_start_by(s: Seq<char>, p: spec_fn(char) -> bool) -> Seq<char>
    decreases s.len(),
{
    if s.len() > 0 && p(s[0]) {
        trim_start_by(s.drop_first(), p)
    } else {
        s
    }
}

/// Drops trailing characters satisfying `p`.
pub open spec fn trim_end_by(s: Seq<char>, p: spec_fn(char) -> bool) -> Seq<char>
    decreases s.len(),
{
    if s.len() > 0 && p(s.last()) {
        trim_end_by(s.drop_last(), p)
    } else {
        s
    }
}

pub open spec fn ws() -> spec_fn(char) -> bool {
    |c: char| is_unicode_whitespace(c)
}

pub open spec fn is_char(x: char) -> spec_fn(char) -> bool {
    |c: char| c == x
}

/// `str::trim`: leading and trailing Unicode whitespace removed.
pub open spec fn spec_trim(s: Seq<char>) -> Seq<char> {
    trim_end_by(trim_start_by(s, ws()), ws())
}

/// Trim, then greedily strip `"` from both ends, then `'` from both ends.
pub open spec fn spec_strip_quotes(s: Seq<char>) -> Seq<char> {
    let a = trim_end_by(trim_start_by(spec_trim(s), is_char('"')), is_char('"'));
    trim_end_by(trim_start_by(a, is_char('\'')), is_char('\''))
}

/// Trim, then greedily strip `"` from both ends.
pub open spec fn spec_strip_double_quotes(s: Seq<char>) -> Seq<char> {
    trim_end_by(trim_start_by(spec_trim(s), is_char('"')), is_char('"'))
}

/// Trim, then remove one matching pair of surrounding `"` or `'` quotes
/// when there is one.
pub open spec fn spec_strip_quote_pair(s: Seq<char>) -> Seq<char> {
    let t = spec_trim(s);
    if t.len() >= 2 && t[0] == '"' && t.last() == '"' {
        t.subrange(1, t.len() - 1)
    } else if t.len() >= 2 && t[0] == '\'' && t.last() == '\'' {
        t.subrange(1, t.len() - 1)
    } else {
        t
    }
}

pub fn is_whitespace_char(c: char) -> (r: bool)
    ensures
        r == is_unicode_whitespace(c),
{
    let u = c as u32;
    (0x09 <= u && u <= 0x0d) || u == 0x20 || u == 0x85 || u == 0xa0 || u == 0x1680 || (0x2000
        <= u && u <= 0x200a) || u == 0x2028 || u == 0x2029 || u == 0x202f || u == 0x205f || u
        == 0x3000
}

/// The characters of `s`.
pub fn chars_of(s: &str) -> (v: Vec<char>)
    ensures
        v@ == s@,
{
    let n = s.unicode_len();
    let mut v: Vec<char> = Vec::new();
    let mut i: usize = 0;
    while i < n
        invariant
            n == s@.len(),
            i <= n,
            v@ == s@.take(i as int),
        decreases n - i,
    {
        v.push(s.get_char(i));
        assert(s@.take(i + 1) =~= s@.take(i as int).push(s@[i as int]));
        i = i + 1;
    }
    assert(s@.take(n as int) =~= s@);
    v
}

proof fn lemma_trim_start_skip(s: Seq<char>, p: spec_fn(char) -> bool, i: int)
    requires
        0 <= i <= s.len(),
        forall|k: int| 0 <= k < i ==> p(#[trigger] s[k]),
    ensures
        trim_start_by(s, p) == trim_start_by(s.skip(i), p),
    decreases i,
{
    if i > 0 {
        lemma_trim_start_skip(s.drop_first(), p, i - 1);
        assert(s.drop_first().skip(i - 1) =~= s.skip(i));
    } else {
        assert(s.skip(0) =~= s);
    }
}

proof fn lemma_trim_end_take(s: Seq<char>, p: spec_fn(char) -> bool, j: int)
    requires
        0 <= j <= s.len(),
        forall|k: int| j <= k < s.len() ==> p(#[trigger] s[k]),
    ensures
        trim_end_by(s, p) == trim_end_by(s.take(j), p),
    decreases s.len() - j,
{
    if j < s.len() {
        lemma_trim_end_take(s.drop_last(), p, j);
        assert(s.drop_last().take(j) =~= s.take(j));
    } else {
        assert(s.take(j) =~= s);
    }
}

/// Index bounds `(a, b)` such that `v[a..b]` is `v[lo..hi]` with leading
/// and trailing characters satisfying `p` removed.
fn trim_bounds(v: &Vec<char>, lo: usize, hi: usize, which: u8, x: char) -> (r: (usize, usize))
    requires
        lo <= hi <= v@.len(),
    ensures
        lo <= r.0 <= r.1 <= hi,
        v@.subrange(r.0 as int, r.1 as int) == trim_end_by(
            trim_start_by(v@.subrange(lo as int, hi as int), pred_of(which, x)),
            pred_of(which, x),
        ),
{
    let ghost p = pred_of(which, x);
    let ghost s = v@.subrange(lo as int, hi as int);
    let mut a = lo;
    while a < hi && matches_pred(v[a], which, x)
        invariant
            lo <= a <= hi,
            hi <= v@.len(),
            s == v@.subrange(lo as int, hi as int),
            p == pred_of(which, x),
            forall|k: int| 0 <= k < a - lo ==> p(#[trigger] s[k]),
        decreases hi - a,
    {
        a = a + 1;
    }
    proof {
        lemma_trim_start_skip(s, p, a - lo);
        assert(s.skip(a - lo) =~= v@.subrange(a as int, hi as int));
    }
    let ghost s2 = v@.subrange(a as int, hi as int);
    let mut b = hi;
    while b > a && matches_pred(v[b - 1], which, x)
        invariant
            a <= b <= hi,
            hi <= v@.len(),
            s2 == v@.subrange(a as int, hi as int),
            p == pred_of(which, x),
            forall|k: int| b - a <= k < s2.len() ==> p(#[trigger] s2[k]),
        decreases b - a,
    {
        b = b - 1;
    }
    proof {
        lemma_trim_end_take(s2, p, b - a);
        assert(s2.take(b - a) =~= v@.subrange(a as int, b as int));
        if a < hi && !p(s2[0]) {
        }
        // trim_start of s stops at s2 (its first character fails p).
        assert(trim_start_by(s2, p) == s2);
    }
    (a, b)
}

/// Predicate selector: 0 for whitespace, 1 for the character `x`.
pub open spec fn pred_of(which: u8, x: char) -> spec_fn(char) -> bool {
    if which == 0 {
        ws()
    } else {
        is_char(x)
    }
}

fn matches_pred(c: char, which: u8, x: char) -> (r: bool)
    ensures
        r == (pred_of(which, x))(c),
{
    if which == 0 {
        is_whitespace_char(c)
    } else {
        c == x
    }
}

/// `str::trim`.
pub fn trim(s: &str) -> (r: &str)
    ensures
        r@ == spec_trim(s@),
{
    let v = chars_of(s);
    assert(v@.subrange(0, v@.len() as int) =~= s@);
    let (a, b) = trim_bounds(&v, 0, v.len(), 0, ' ');
    s.substring_char(a, b)
}

/// Trim, then greedily strip `"` then `'` from both ends.
pub fn strip_quotes(s: &str) -> (r: &str)
    ensures
        r@ == spec_strip_quotes(s@),
{
    let v = chars_of(s);
    assert(v@.subrange(0, v@.len() as int) =~= s@);
    let (a, b) = trim_bounds(&v, 0, v.len(), 0, ' ');
    let (c, d) = trim_bounds(&v, a, b, 1, '"');
    let (e, f) = trim_bounds(&v, c, d, 1, '\'');
    s.substring_char(e, f)
}

/// Trim, then greedily strip `"` from both ends.
pub fn strip_double_quotes(s: &str) -> (r: &str)
    ensures
        r@ == spec_strip_double_quotes(s@),
{
    let v = chars_of(s);
    assert(v@.subrange(0, v@.len() as int) =~= s@);
    let (a, b) = trim_bounds(&v, 0, v.len(), 0, ' ');
    let (c, d) = trim_bounds(&v, a, b, 1, '"');
    s.substring_char(c, d)
}

/// Trim, then remove one pair of surrounding `"` or `'` quotes.
pub fn strip_quote_pair(s: &str) -> (r: &str)
    ensures
        r@ == spec_strip_quote_pair(s@),
{
    let v = chars_of(s);
    assert(v@.subrange(0, v@.len() as int) =~= s@);
    let (a, b) = trim_bounds(&v, 0, v.len(), 0, ' ');
    let ghost t = v@.subrange(a as int, b as int);
    if b - a >= 2 && ((v[a] == '"' && v[b - 1] == '"') || (v[a] == '\'' && v[b - 1] == '\'')) {
        assert(t.subrange(1, t.len() - 1) =~= v@.subrange(a + 1, b - 1));
        s.substring_char(a + 1, b - 1)
    } else {
        s.substring_char(a, b)
    }
}

/// String equality, as `==` on `str`.
pub fn str_eq(a: &str, b: &str) -> (r: bool)
    ensures
        r == (a@ == b@),
{
    let x = a.as_bytes();
    let y = b.as_bytes();
    let r = bytes_eq(x, y);
    proof {
        if r {
            assert(decode_utf8(encode_utf8(a@)) == decode_utf8(encode_utf8(b@)));
        }
    }
    r
}

/// Byte slice equality.
pub fn bytes_eq(x: &[u8], y: &[u8]) -> (r: bool)
    ensures
        r == (x@ == y@),
{
    if x.len() != y.len() {
        return false;
    }
    let mut i: usize = 0;
    while i < x.len()
        invariant
            x@.len() == y@.len(),
            i <= x@.len(),
            forall|k: int| 0 <= k < i ==> x@[k] == y@[k],
        decreases x.len() - i,
    {
        if x[i] != y[i] {
            return false;
        }
        i = i + 1;
    }
    assert(x@ =~= y@);
    true
}

/// ASCII lower case of one character (other characters unchanged).
pub open spec fn ascii_lower(c: char) -> char {
    if 'A' <= c && c <= 'Z' {
        ((c as u32) + 32) as char
    } else {
        c
    }
}

pub open spec fn ascii_lower_seq(s: Seq<char>) -> Seq<char> {
    s.map_values(|c: char| ascii_lower(c))
}

pub fn to_ascii_lower_char(c: char) -> (r: char)
    ensures
        r == ascii_lower(c),
{
    if 'A' <= c && c <= 'Z' {
        let u = (c as u32) + 32;
        // 'a'..'z' are scalar values.
        proof {
            vstd::utf8::char_u32_cast(c, c as u32);
        }
        char_from_ascii_lower(u)
    } else {
        c
    }
}

fn char_from_ascii_lower(u: u32) -> (r: char)
    requires
        0x61 <= u <= 0x7a,
    ensures
        r == u as char,
{
    let b = u as u8;
    assert(b as u32 == u) by (bit_vector)
        requires
            b == u as u8,
            0x61 <= u <= 0x7a,
    ;
    b as char
}

/// `s.eq_ignore_ascii_case(t)`.
pub fn eq_ignore_ascii_case(s: &str, t: &str) -> (r: bool)
    ensures
        r == (ascii_lower_seq(s@) == ascii_lower_seq(t@)),
{
    let x = chars_of(s);
    let y = chars_of(t);
    if x.len() != y.len() {
        proof {
            assert(ascii_lower_seq(s@).len() != ascii_lower_seq(t@).len());
        }
        return false;
    }
    let mut i: usize = 0;
    while i < x.len()
        invariant
            x@ == s@,
            y@ == t@,
            x@.len() == y@.len(),
            i <= x@.len(),
            forall|k: int| 0 <= k < i ==> ascii_lower(x@[k]) == ascii_lower(y@[k]),
        decreases x.len() - i,
    {
        if to_ascii_lower_char(x[i]) != to_ascii_lower_char(y[i]) {
            proof {
                assert(ascii_lower_seq(s@)[i as int] != ascii_lower_seq(t@)[i as int]);
            }
            return false;
        }
        i = i + 1;
    }
    assert(ascii_lower_seq(s@) =~= ascii_lower_seq(t@));
    true
}

/// `a` occurs in `s` as a contiguous run.
pub open spec fn seq_contains_run(s: Seq<char>, a: Seq<char>) -> bool {
    exists|i: int| 0 <= i <= s.len() - a.len() && #[trigger] s.subrange(i, i + a.len()) == a
}

/// `s.contains(a)` on strings.
pub fn chars_contain(s: &Vec<char>, a: &Vec<char>) -> (r: bool)
    ensures
        r == seq_contains_run(s@, a@),
{
    if a.len() > s.len() {
        return false;
    }
    let n = s.len();
    let mut i: usize = 0;
    while i <= s.len() - a.len()
        invariant
            n == s@.len(),
            a@.len() <= s@.len(),
            i <= s@.len() - a@.len() + 1,
            forall|k: int| 0 <= k < i ==> #[trigger] s@.subrange(k, k + a@.len()) != a@,
        decreases s.len() - i,
    {
        let mut j: usize = 0;
        let mut same = true;
        while j < a.len()
            invariant
                n == s@.len(),
                i <= s@.len() - a@.len(),
                a@.len() <= s@.len(),
                j <= a@.len(),
                same == (forall|k: int| 0 <= k < j ==> s@[i + k] == a@[k]),
            decreases a.len() - j,
        {
            assert(i + j < s@.len());
            if s[i + j] != a[j] {
                same = false;
            }
            j = j + 1;
        }
        if same {
            assert(s@.subrange(i as int, i + a@.len()) =~= a@);
            return true;
        } else {
            assert(s@.subrange(i as int, i + a@.len()) != a@) by {
                let k = choose|k: int| 0 <= k < a@.len() && s@[i + k] != a@[k];
                assert(s@.subrange(i as int, i + a@.len())[k] == s@[i + k]);
            }
        }
        i = i + 1;
    }
    false
}

/// `std::str::from_utf8`: the bytes as a string slice when they are valid
/// UTF-8.
#[verifier::external_body]
pub fn utf8_str(b: &[u8]) -> (r: Option<&str>)
    ensures
        r is Some <==> valid_utf8(b@),
        r matches Some(s) ==> s.spec_bytes() == b@,
{
    match std::str::from_utf8(b) {
        Ok(s) => Some(s),
        Err(_) => None,
    }
}

/// Lower case distributes over concatenation.
proof fn lemma_ascii_lower_concat(a: Seq<char>, b: Seq<char>)
    ensures
        ascii_lower_seq(a + b) == ascii_lower_seq(a) + ascii_lower_seq(b),
{
    assert(ascii_lower_seq(a + b) =~= ascii_lower_seq(a) + ascii_lower_seq(b));
}

/// `str::to_ascii_lowercase`: a copy of the string in which ASCII letters
/// `A`..=`Z` become `a`..=`z` and every other character is unchanged.
/// Runs without capitals are copied as they stand.
pub fn to_ascii_lowercase(s: &str) -> (r: String)
    ensures
        r@ == ascii_lower_seq(s@),
{
    let letters = "abcdefghijklmnopqrstuvwxyz";
    proof {
        reveal_strlit("abcdefghijklmnopqrstuvwxyz");
        reveal_strlit("");
    }
    let v = chars_of(s);
    let n = v.len();
    let mut out = String::from_str("");
    let mut run: usize = 0;
    let mut i: usize = 0;
    assert(ascii_lower_seq(s@.take(0)) =~= Seq::<char>::empty());
    while i < n
        invariant
            v@ == s@,
            n == s@.len(),
            letters@ == "abcdefghijklmnopqrstuvwxyz"@,
            run <= i <= n,
            out@ == ascii_lower_seq(s@.take(run as int)),
            forall|j: int| run <= j < i ==> ascii_lower(#[trigger] s@[j]) == s@[j],
        decreases n - i,
    {
        let c = v[i];
        if 'A' <= c && c <= 'Z' {
            let plain = s.substring_char(run, i);
            let k = (c as u32 - 65) as usize;
            proof {
                reveal_strlit("abcdefghijklmnopqrstuvwxyz");
                assert(k < 26 && letters@.len() == 26);
                assert(letters@[k as int] == ascii_lower(c));
            }
            let lower = letters.substring_char(k, k + 1);
            proof {
                assert(plain@ =~= ascii_lower_seq(plain@));
                lemma_ascii_lower_concat(s@.take(run as int), plain@);
                assert(s@.take(run as int) + plain@ =~= s@.take(i as int));
                assert(lower@ =~= seq![ascii_lower(c)]);
                lemma_ascii_lower_concat(s@.take(i as int), seq![c]);
                assert(s@.take(i as int) + seq![c] =~= s@.take(i + 1));
                assert(ascii_lower_seq(seq![c]) =~= seq![ascii_lower(c)]);
            }
            out.append(plain);
            out.append(lower);
            run = i + 1;
        }
        i = i + 1;
    }
    let rest = s.substring_char(run, n);
    proof {
        assert(rest@ =~= ascii_lower_seq(rest@));
        lemma_ascii_lower_concat(s@.take(run as int), rest@);
        assert(s@.take(run as int) + rest@ =~= s@);
    }
    out.append(rest);
    out
}

pub proof fn lemma_utf8_str_view(s: &str, b: Seq<u8>)
    requires
        s.spec_bytes() == b,
    ensures
        s@ == decode_utf8(b),
{
    assert(decode_utf8(encode_utf8(s@)) == s@);
}


/// `str::trim_end`.
pub fn trim_end(s: &str) -> (r: &str)
    ensures
        r@ == trim_end_by(s@, ws()),
{
    let v = chars_of(s);
    let n = v.len();
    let mut b = n;
    while b > 0 && is_whitespace_char(v[b - 1])
        invariant
            v@ == s@,
            n == v@.len(),
            b <= n,
            forall|k: int| b <= k < n ==> is_unicode_whitespace(#[trigger] v@[k]),
        decreases b,
    {
        b = b - 1;
    }
    proof {
        lemma_trim_end_take(s@, ws(), b as int);
    }
    s.substring_char(0, b)
}

/// `str::trim_start`.
pub fn trim_start(s: &str) -> (r: &str)
    ensures
        r@ == trim_start_by(s@, ws()),
{
    let v = chars_of(s);
    let n = v.len();
    let mut a: usize = 0;
    while a < n && is_whitespace_char(v[a])
        invariant
            v@ == s@,
            n == v@.len(),
            a <= n,
            forall|k: int| 0 <= k < a ==> is_unicode_whitespace(#[trigger] v@[k]),
        decreases n - a,
    {
        a = a + 1;
    }
    proof {
        lemma_trim_start_skip(s@, ws(), a as int);
        assert(s@.skip(a as int) =~= s@.subrange(a as int, n as int));
        if a < n {
            assert(!is_unicode_whitespace(s@.skip(a as int)[0]));
        }
    }
    s.substring_char(a, n)
}

/// Encoding a concatenation concatenates the encodings.
pub proof fn lemma_encode_concat(a: Seq<char>, b: Seq<char>)
    ensures
        encode_utf8(a + b) == encode_utf8(a) + encode_utf8(b),
    decreases a.len(),
{
    if a.len() == 0 {
        assert(a + b =~= b);
        assert(encode_utf8(a) =~= Seq::<u8>::empty());
        assert(encode_utf8(a) + encode_utf8(b) =~= encode_utf8(b));
    } else {
        assert((a + b).drop_first() =~= a.drop_first() + b);
        assert((a + b)[0] == a[0]);
        lemma_encode_concat(a.drop_first(), b);
        assert(encode_utf8(a + b) =~= encode_scalar(a[0] as u32) + (encode_utf8(a.drop_first())
            + encode_utf8(b)));
    }
}

/// A non-empty character sequence encodes to at least one byte.
pub proof fn lemma_encode_nonempty(a: Seq<char>)
    requires
        a.len() > 0,
    ensures
        encode_utf8(a).len() >= 1,
{
    assert(encode_scalar(a[0] as u32).len() >= 1);
}

/// Trimming the end keeps a prefix, whose encoding is no longer.
pub proof fn lemma_trim_end_is_prefix(s: Seq<char>, p: spec_fn(char) -> bool)
    ensures
        trim_end_by(s, p) == s.take(trim_end_by(s, p).len() as int),
        trim_end_by(s, p).len() <= s.len(),
        encode_utf8(trim_end_by(s, p)).len() <= encode_utf8(s).len(),
    decreases s.len(),
{
    if s.len() > 0 && p(s.last()) {
        lemma_trim_end_is_prefix(s.drop_last(), p);
        let t = trim_end_by(s, p);
        assert(s.drop_last().take(t.len() as int) =~= s.take(t.len() as int));
        lemma_encode_concat(s.drop_last(), seq![s.last()]);
        assert(s.drop_last() + seq![s.last()] =~= s);
    } else {
        assert(s.take(s.len() as int) =~= s);
    }
}

/// Trimming the start keeps a suffix, whose encoding is no longer.
pub proof fn lemma_trim_start_is_suffix(s: Seq<char>, p: spec_fn(char) -> bool)
    ensures
        trim_start_by(s, p) == s.skip(s.len() - trim_start_by(s, p).len()),
        trim_start_by(s, p).len() <= s.len(),
        encode_utf8(trim_start_by(s, p)).len() <= encode_utf8(s).len(),
    decreases s.len(),
{
    if s.len() > 0 && p(s[0]) {
        lemma_trim_start_is_suffix(s.drop_first(), p);
        let t = trim_start_by(s, p);
        assert(s.drop_first().skip(s.drop_first().len() - t.len()) =~= s.skip(s.len() - t.len()));
    } else {
        assert(s.skip(0) =~= s);
    }
}

} // verus!
