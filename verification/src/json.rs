//! A JSON document kept as text, with a lookup that finds a key by searching the text and
//! returns its value's raw text. It does not parse the document's structure.
use vstd::prelude::*;
use crate::text::{
    chars_of, is_whitespace, is_ws, parse_i64, parse_i64_of, skip_ws, substring, text_eq, trim_bounds,
    trim_of,
};
use vstd::string::{StrSliceExecFns, StringExecFns};

verus! {

/// The text of a JSON document.
#[derive(Debug)]
pub struct JsonFile {
    pub content: String,
}

/// At `p` in `c` stands the key `key` in double quotes, followed by optional whitespace and a
/// colon.
pub open spec fn key_at(c: Seq<char>, p: int, key: Seq<char>) -> bool {
    let after = p + key.len() + 2;
    &&& 0 <= p
    &&& after <= c.len()
    &&& c[p] == '"'
    &&& c.subrange(p + 1, p + 1 + key.len()) == key
    &&& c[after - 1] == '"'
    &&& skip_ws(c, after, c.len() as int) < c.len()
    &&& c[skip_ws(c, after, c.len() as int)] == ':'
}

/// The first position from `i` on where `key_at` holds, or -1.
pub open spec fn find_key(c: Seq<char>, key: Seq<char>, i: int) -> int
    decreases c.len() - i,
{
    if i < 0 || i >= c.len() {
        -1
    } else if key_at(c, i, key) {
        i
    } else {
        find_key(c, key, i + 1)
    }
}

/// The character that `\\e` stands for inside a JSON string: `n`, `t`, `r`, `b` and `f` give
/// control characters, any other character stands for itself.
pub open spec fn unescape_char(e: char) -> char {
    if e == 'n' {
        '\n'
    } else if e == 't' {
        '\t'
    } else if e == 'r' {
        '\r'
    } else if e == 'b' {
        '\u{8}'
    } else if e == 'f' {
        '\u{c}'
    } else {
        e
    }
}

/// The text of the JSON string whose body starts at `i`, up to its closing quote (or the end
/// of `c`), with escapes resolved.
pub open spec fn json_string(c: Seq<char>, i: int) -> Seq<char>
    decreases c.len() - i,
{
    if i < 0 || i >= c.len() || c[i] == '"' {
        Seq::empty()
    } else if c[i] == '\\' && i + 1 < c.len() {
        seq![unescape_char(c[i + 1])] + json_string(c, i + 2)
    } else {
        seq![c[i]] + json_string(c, i + 1)
    }
}

pub open spec fn is_open(ch: char) -> bool {
    ch == '[' || ch == '{'
}

pub open spec fn is_close(ch: char) -> bool {
    ch == ']' || ch == '}'
}

/// Scanning from `i` with `depth` brackets open, the position of the bracket that closes the
/// outermost one, or -1.
pub open spec fn bracket_end(c: Seq<char>, i: int, depth: int) -> int
    decreases c.len() - i,
{
    if i < 0 || i >= c.len() {
        -1
    } else if is_open(c[i]) {
        bracket_end(c, i + 1, depth + 1)
    } else if is_close(c[i]) && depth <= 1 {
        i
    } else if is_close(c[i]) {
        bracket_end(c, i + 1, depth - 1)
    } else {
        bracket_end(c, i + 1, depth)
    }
}

/// The first position from `i` on of `,`, `}` or `]`, or the end.
pub open spec fn scalar_end(c: Seq<char>, i: int) -> int
    decreases c.len() - i,
{
    if i < 0 || i >= c.len() {
        c.len() as int
    } else if c[i] == ',' || is_close(c[i]) {
        i
    } else {
        scalar_end(c, i + 1)
    }
}

/// The text of the value at `v` in `c`: a string's text, a whole bracketed array or object as
/// it stands, or else the trimmed text up to the next `,`, `}` or `]`.
pub open spec fn value_at(c: Seq<char>, v: int) -> Seq<char> {
    if v < c.len() && c[v] == '"' {
        json_string(c, v + 1)
    } else if v < c.len() && is_open(c[v]) {
        let e = bracket_end(c, v, 0);
        if e < 0 {
            c.subrange(v, c.len() as int)
        } else {
            c.subrange(v, e + 1)
        }
    } else {
        trim_of(c, v, scalar_end(c, v))
    }
}

/// The value of the first occurrence of `key` in `c`, if the key occurs.
pub open spec fn json_value(c: Seq<char>, key: Seq<char>) -> Option<Seq<char>> {
    let p = find_key(c, key, 0);
    if p < 0 {
        None
    } else {
        let colon = skip_ws(c, p + key.len() + 2, c.len() as int);
        Some(value_at(c, skip_ws(c, colon + 1, c.len() as int)))
    }
}

proof fn lemma_find_key(c: Seq<char>, key: Seq<char>, i: int)
    requires
        0 <= i,
    ensures
        find_key(c, key, i) == -1 || (i <= find_key(c, key, i) < c.len() && key_at(
            c,
            find_key(c, key, i),
            key,
        )),
    decreases c.len() - i,
{
    if i < c.len() && !key_at(c, i, key) {
        lemma_find_key(c, key, i + 1);
    }
}

proof fn lemma_bracket_end(c: Seq<char>, i: int, depth: int)
    ensures
        bracket_end(c, i, depth) == -1 || (i <= bracket_end(c, i, depth) < c.len()),
    decreases c.len() - i,
{
    if 0 <= i < c.len() {
        if is_open(c[i]) {
            lemma_bracket_end(c, i + 1, depth + 1);
        } else if is_close(c[i]) && depth > 1 {
            lemma_bracket_end(c, i + 1, depth - 1);
        } else if !is_close(c[i]) {
            lemma_bracket_end(c, i + 1, depth);
        }
    }
}

proof fn lemma_scalar_end(c: Seq<char>, i: int)
    requires
        0 <= i <= c.len(),
    ensures
        i <= scalar_end(c, i) <= c.len(),
    decreases c.len() - i,
{
    if i < c.len() && !(c[i] == ',' || is_close(c[i])) {
        lemma_scalar_end(c, i + 1);
    }
}

/// Skipping whitespace from `lo` passes over whitespace only, and stops at a character that
/// is not whitespace or at `hi`.
proof fn lemma_skip_ws_spans(c: Seq<char>, lo: int, hi: int)
    requires
        0 <= lo <= hi <= c.len(),
    ensures
        lo <= skip_ws(c, lo, hi) <= hi,
        forall|t: int| lo <= t < skip_ws(c, lo, hi) ==> is_ws(#[trigger] c[t]),
        skip_ws(c, lo, hi) < hi ==> !is_ws(c[skip_ws(c, lo, hi)]),
    decreases hi - lo,
{
    if lo < hi && is_ws(c[lo]) {
        lemma_skip_ws_spans(c, lo + 1, hi);
    }
}

/// A key is found only where its text stands in double quotes and the first character after
/// the closing quote that is not whitespace is a colon; the value returned is the one that
/// follows that colon. A quoted string followed by `,`, `}` or anything else is never taken
/// as the key.
pub proof fn lemma_json_value_follows_colon(c: Seq<char>, key: Seq<char>)
    requires
        json_value(c, key) is Some,
    ensures
        exists|p: int, q: int|
            #![trigger c[p], c[q]]
            {
                &&& 0 <= p
                &&& p + key.len() + 2 <= q < c.len()
                &&& c[p] == '"'
                &&& c.subrange(p + 1, p + 1 + key.len()) == key
                &&& c[p + 1 + key.len()] == '"'
                &&& forall|t: int| p + key.len() + 2 <= t < q ==> is_ws(#[trigger] c[t])
                &&& c[q] == ':'
                &&& json_value(c, key) == Some(value_at(c, skip_ws(c, q + 1, c.len() as int)))
            },
{
    lemma_find_key(c, key, 0);
    let p = find_key(c, key, 0);
    let after = p + key.len() + 2;
    lemma_skip_ws_spans(c, after, c.len() as int);
    let q = skip_ws(c, after, c.len() as int);
    assert(c[p] == '"' && c[q] == ':');
}

/// Whether `key` in quotes, then a colon, stands at `p`.
fn key_matches(v: &Vec<char>, p: usize, key: &Vec<char>) -> (r: bool)
    requires
        p < v@.len(),
    ensures
        r == key_at(v@, p as int, key@),
{
    let n = v.len();
    let k = key.len();
    if k > n || n - k < 2 || p > n - k - 2 {
        return false;
    }
    if v[p] != '"' || v[p + 1 + k] != '"' {
        return false;
    }
    let mut j: usize = 0;
    while j < k
        invariant
            n == v@.len(),
            k == key@.len(),
            p + k + 2 <= n,
            j <= k,
            forall|t: int| 0 <= t < j ==> v@[p + 1 + t] == key@[t],
        decreases k - j,
    {
        if v[p + 1 + j] != key[j] {
            assert(v@.subrange(p + 1, p + 1 + k)[j as int] != key@[j as int]);
            return false;
        }
        j = j + 1;
    }
    assert(v@.subrange(p + 1, p + 1 + k as int) =~= key@);
    let q = skip_ws_from(v, p + k + 2);
    q < n && v[q] == ':'
}

/// The first position at or after `i` that is not whitespace, or the end.
fn skip_ws_from(v: &Vec<char>, i: usize) -> (r: usize)
    requires
        i <= v@.len(),
    ensures
        r == skip_ws(v@, i as int, v@.len() as int),
        i <= r <= v@.len(),
{
    let mut a = i;
    while a < v.len() && is_whitespace(v[a])
        invariant
            i <= a <= v@.len(),
            skip_ws(v@, a as int, v@.len() as int) == skip_ws(v@, i as int, v@.len() as int),
        decreases v@.len() - a,
    {
        a = a + 1;
    }
    a
}

/// The one-character string of the control character that `\\e` stands for, where `e` is
/// one of `n`, `t`, `r`, `b`, `f`.
fn control_escape(e: char) -> (r: &'static str)
    requires
        e == 'n' || e == 't' || e == 'r' || e == 'b' || e == 'f',
    ensures
        r@ == seq![unescape_char(e)],
{
    proof {
        reveal_strlit("\n");
        reveal_strlit("\t");
        reveal_strlit("\r");
        reveal_strlit("\u{8}");
        reveal_strlit("\u{c}");
    }
    if e == 'n' {
        "\n"
    } else if e == 't' {
        "\t"
    } else if e == 'r' {
        "\r"
    } else if e == 'b' {
        "\u{8}"
    } else {
        "\u{c}"
    }
}

/// The text of the JSON string whose body starts at `i` in `c` (whose characters are `v`).
fn read_string(c: &str, v: &Vec<char>, i: usize) -> (r: String)
    requires
        v@ == c@,
        i <= v@.len(),
    ensures
        r@ == json_string(c@, i as int),
{
    let n = v.len();
    let mut out = String::new();
    let mut j = i;
    while j < n && v[j] != '"'
        invariant
            n == v@.len(),
            v@ == c@,
            i <= j <= n + 1,
            out@ + json_string(c@, j as int) == json_string(c@, i as int),
        decreases n + 1 - j,
    {
        if v[j] == '\\' && j + 1 < n {
            let e = v[j + 1];
            if e == 'n' || e == 't' || e == 'r' || e == 'b' || e == 'f' {
                out.append(control_escape(e));
            } else {
                out.append(c.substring_char(j + 1, j + 2));
            }
            assert(json_string(c@, j as int) =~= seq![unescape_char(e)] + json_string(c@, j + 2));
            j = j + 2;
        } else {
            out.append(c.substring_char(j, j + 1));
            assert(json_string(c@, j as int) =~= seq![v@[j as int]] + json_string(c@, j + 1));
            j = j + 1;
        }
        assert(out@ + json_string(c@, j as int) =~= json_string(c@, i as int));
    }
    assert(json_string(c@, j as int) =~= Seq::<char>::empty());
    assert(out@ =~= json_string(c@, i as int));
    out
}

impl JsonFile {
    /// The raw text of the value of `key`: the first place where `"key"` is followed by a colon
    /// is taken, and the value after it is read as `value_at` describes.
    pub fn get_value(&self, key: &str) -> (r: Option<String>)
        ensures
            match json_value(self.content@, key@) {
                Some(s) => r matches Some(t) && t@ == s,
                None => r is None,
            },
    {
        let c = self.content.as_str();
        let v = chars_of(c);
        let k = chars_of(key);
        let n = v.len();
        let mut p: usize = 0;
        while p < n && !key_matches(&v, p, &k)
            invariant
                v@ == c@,
                k@ == key@,
                n == v@.len(),
                p <= n,
                find_key(v@, k@, p as int) == find_key(v@, k@, 0),
            decreases n - p,
        {
            p = p + 1;
        }
        if p >= n {
            return None;
        }
        proof {
            lemma_find_key(v@, k@, 0);
        }
        let colon = skip_ws_from(&v, p + k.len() + 2);
        let start = skip_ws_from(&v, colon + 1);
        if start < n && v[start] == '"' {
            return Some(read_string(c, &v, start + 1));
        }
        if start < n && (v[start] == '[' || v[start] == '{') {
            let mut e = start;
            let mut depth: usize = 0;
            while e < n
                invariant
                    n == v@.len(),
                    v@ == c@,
                    start < n,
                    is_open(v@[start as int]),
                    start == skip_ws(v@, colon + 1, n as int),
                    colon == skip_ws(v@, p + k@.len() + 2, n as int),
                    p == find_key(v@, k@, 0),
                    k@ == key@,
                    c@ == self.content@,
                    start <= e <= n,
                    depth <= e - start,
                    bracket_end(v@, e as int, depth as int) == bracket_end(v@, start as int, 0),
                decreases n - e,
            {
                let ch = v[e];
                if ch == '[' || ch == '{' {
                    depth = depth + 1;
                } else if (ch == ']' || ch == '}') && depth <= 1 {
                    return Some(substring(c, start, e + 1));
                } else if ch == ']' || ch == '}' {
                    depth = depth - 1;
                }
                e = e + 1;
            }
            return Some(substring(c, start, n));
        }
        let mut e = start;
        while e < n && !(v[e] == ',' || v[e] == ']' || v[e] == '}')
            invariant
                n == v@.len(),
                start <= e <= n,
                scalar_end(v@, e as int) == scalar_end(v@, start as int),
            decreases n - e,
        {
            e = e + 1;
        }
        let (a, b) = trim_bounds(&v, start, e);
        Some(substring(c, a, b))
    }

    /// The value of `key` read as an `i64`, if it is one.
    pub fn get_int(&self, key: &str) -> (r: Option<i64>)
        ensures
            r == match json_value(self.content@, key@) {
                Some(s) => parse_i64_of(s),
                None => None,
            },
    {
        match self.get_value(key) {
            Some(s) => parse_i64(s.as_str()),
            None => None,
        }
    }

    /// The value of `key` read as a boolean: `true` or `false`.
    pub fn get_bool(&self, key: &str) -> (r: Option<bool>)
        ensures
            r == match json_value(self.content@, key@) {
                Some(s) => if s == "true"@ {
                    Some(true)
                } else if s == "false"@ {
                    Some(false)
                } else {
                    None
                },
                None => None,
            },
    {
        match self.get_value(key) {
            Some(s) => if text_eq(s.as_str(), "true") {
                Some(true)
            } else if text_eq(s.as_str(), "false") {
                Some(false)
            } else {
                None
            },
            None => None,
        }
    }
}

/// The text `{"a": "x", "k": "v"}` of an object with two members.
pub open spec fn two_member_object(a: Seq<char>, x: Seq<char>, k: Seq<char>, v: Seq<char>) -> Seq<char> {
    seq!['{', '"'] + a + seq!['"', ':', ' ', '"'] + x + seq!['"', ',', ' ', '"'] + k + seq![
        '"',
        ':',
        ' ',
        '"',
    ] + v + seq!['"', '}']
}

/// `s` holds no `ch`.
pub open spec fn lacks(s: Seq<char>, ch: char) -> bool {
    forall|t: int| 0 <= t < s.len() ==> s[t] != ch
}

/// Where each character of `two_member_object(a, x, k, v)` comes from.
proof fn lemma_two_member_layout(a: Seq<char>, x: Seq<char>, k: Seq<char>, v: Seq<char>)
    ensures
        ({
            let c = two_member_object(a, x, k, v);
            let a1: int = 2 + a.len() as int;
            let x0: int = a1 + 3;
            let x1: int = x0 + 1 + x.len();
            let k0: int = x1 + 3;
            let k1: int = k0 + 1 + k.len();
            let v0: int = k1 + 3;
            let v1: int = v0 + 1 + v.len();
            &&& c.len() == v1 + 2
            &&& c[0] == '{' && c[1] == '"'
            &&& forall|t: int| 0 <= t < a.len() ==> c[2 + t] == a[t]
            &&& c[a1] == '"' && c[a1 + 1] == ':' && c[a1 + 2] == ' ' && c[x0] == '"'
            &&& forall|t: int| 0 <= t < x.len() ==> c[x0 + 1 + t] == x[t]
            &&& c[x1] == '"' && c[x1 + 1] == ',' && c[x1 + 2] == ' ' && c[k0] == '"'
            &&& forall|t: int| 0 <= t < k.len() ==> c[k0 + 1 + t] == k[t]
            &&& c[k1] == '"' && c[k1 + 1] == ':' && c[k1 + 2] == ' ' && c[v0] == '"'
            &&& forall|t: int| 0 <= t < v.len() ==> c[v0 + 1 + t] == v[t]
            &&& c[v1] == '"' && c[v1 + 1] == '}'
        }),
{
    let p1 = seq!['{', '"'] + a;
    let p2 = p1 + seq!['"', ':', ' ', '"'];
    let p3 = p2 + x;
    let p4 = p3 + seq!['"', ',', ' ', '"'];
    let p5 = p4 + k;
    let p6 = p5 + seq!['"', ':', ' ', '"'];
    let p7 = p6 + v;
    let c = p7 + seq!['"', '}'];
    assert(c == two_member_object(a, x, k, v));
    let a1: int = 2 + a.len() as int;
    let x0: int = a1 + 3;
    let x1: int = x0 + 1 + x.len();
    let k0: int = x1 + 3;
    let k1: int = k0 + 1 + k.len();
    let v0: int = k1 + 3;
    assert(p1.len() == a1 && p2.len() == x0 + 1 && p3.len() == x1 && p4.len() == k0 + 1);
    assert(p5.len() == k1 && p6.len() == v0 + 1 && p7.len() == v0 + 1 + v.len());
    assert forall|t: int| 0 <= t < a.len() implies c[2 + t] == a[t] by {
        assert(c[2 + t] == p7[2 + t]);
        assert(p7[2 + t] == p6[2 + t]);
        assert(p6[2 + t] == p5[2 + t]);
        assert(p5[2 + t] == p4[2 + t]);
        assert(p4[2 + t] == p3[2 + t]);
        assert(p3[2 + t] == p2[2 + t]);
        assert(p2[2 + t] == p1[2 + t]);
    }
    assert forall|t: int| 0 <= t < x.len() implies c[x0 + 1 + t] == x[t] by {
        assert(c[x0 + 1 + t] == p7[x0 + 1 + t]);
        assert(p7[x0 + 1 + t] == p6[x0 + 1 + t]);
        assert(p6[x0 + 1 + t] == p5[x0 + 1 + t]);
        assert(p5[x0 + 1 + t] == p4[x0 + 1 + t]);
        assert(p4[x0 + 1 + t] == p3[x0 + 1 + t]);
    }
    assert forall|t: int| 0 <= t < k.len() implies c[k0 + 1 + t] == k[t] by {
        assert(c[k0 + 1 + t] == p7[k0 + 1 + t]);
        assert(p7[k0 + 1 + t] == p6[k0 + 1 + t]);
        assert(p6[k0 + 1 + t] == p5[k0 + 1 + t]);
    }
    assert forall|t: int| 0 <= t < v.len() implies c[v0 + 1 + t] == v[t] by {
        assert(c[v0 + 1 + t] == p7[v0 + 1 + t]);
    }
}

/// Positions where no key stands are passed over by `find_key`.
proof fn lemma_find_key_skips(c: Seq<char>, key: Seq<char>, i: int, j: int)
    requires
        0 <= i <= j,
        forall|p: int| i <= p < j ==> !key_at(c, p, key),
    ensures
        find_key(c, key, i) == find_key(c, key, j),
    decreases j - i,
{
    if i < j {
        lemma_find_key_skips(c, key, i + 1, j);
        if i >= c.len() {
            assert(find_key(c, key, i) == -1);
            assert(find_key(c, key, i + 1) == -1);
        }
    }
}

/// A JSON string body with no quote or backslash in it reads as its own characters.
proof fn lemma_json_string_plain(c: Seq<char>, i: int, j: int)
    requires
        0 <= i <= j < c.len(),
        c[j] == '"',
        forall|t: int| i <= t < j ==> c[t] != '"' && c[t] != '\\',
    ensures
        json_string(c, i) == c.subrange(i, j),
    decreases j - i,
{
    if i < j {
        lemma_json_string_plain(c, i + 1, j);
        assert(c.subrange(i, j) =~= seq![c[i]] + c.subrange(i + 1, j));
    } else {
        assert(c.subrange(i, j) =~= Seq::<char>::empty());
    }
}

/// Skipping whitespace stops at the latest at a character that is not whitespace.
proof fn lemma_skip_ws_stops(c: Seq<char>, lo: int, hi: int, j: int)
    requires
        0 <= lo <= j < hi <= c.len(),
        !is_ws(c[j]),
    ensures
        skip_ws(c, lo, hi) <= j,
{
    lemma_skip_ws_spans(c, lo, hi);
}

/// In the object `{"a": "x", "k": "v"}`, looking up `k` gives `v`, whatever `x` is: a member's
/// string value, even one equal to the key looked up, is never taken as a key, since no colon
/// follows it. The keys `a` and `k` differ; no quote stands in the four texts, no colon in `k`,
/// no backslash in `v`.
pub proof fn lemma_two_member_lookup(a: Seq<char>, x: Seq<char>, k: Seq<char>, v: Seq<char>)
    requires
        lacks(a, '"'),
        lacks(x, '"'),
        lacks(k, '"'),
        lacks(k, ':'),
        lacks(v, '"'),
        lacks(v, '\\'),
        k != a,
    ensures
        json_value(two_member_object(a, x, k, v), k) == Some(v),
{
    let c = two_member_object(a, x, k, v);
    lemma_two_member_layout(a, x, k, v);
    let n = c.len() as int;
    let a1: int = 2 + a.len() as int;
    let x0: int = a1 + 3;
    let x1: int = x0 + 1 + x.len();
    let k0: int = x1 + 3;
    let k1: int = k0 + 1 + k.len();
    let v0: int = k1 + 3;
    let v1: int = v0 + 1 + v.len();
    assert(!is_ws('"') && !is_ws(':') && !is_ws(',') && is_ws(' '));
    // The key stands at k0.
    assert(c.subrange(k0 + 1, k1) =~= k);
    assert(skip_ws(c, k1 + 1, n) == k1 + 1);
    assert(key_at(c, k0, k));
    assert(find_key(c, k, k0) == k0);
    // No key stands before it.
    assert forall|p: int| 0 <= p < k0 implies !key_at(c, p, k) by {
        if key_at(c, p, k) {
            let kl = k.len() as int;
            assert(c[p] == '"');
            assert(forall|t: int| 0 <= t < kl ==> k[t] == c[p + 1 + t]) by {
                assert forall|t: int| 0 <= t < kl implies k[t] == c[p + 1 + t] by {
                    assert(c.subrange(p + 1, p + 1 + kl)[t] == c[p + 1 + t]);
                }
            }
            assert(c[p + 1 + kl] == '"');
            if p == 1 {
                if kl < a.len() {
                    assert(c[2 + kl] == a[kl]);
                } else if kl > a.len() {
                    assert(k[a.len() as int] == c[a1]);
                } else {
                    assert(k =~= a);
                }
            } else if p == a1 {
                if kl == 0 {
                    assert(c[a1 + 1] == ':');
                } else {
                    assert(k[0] == c[a1 + 1]);
                }
            } else if p == x0 {
                if kl < x.len() {
                    assert(c[x0 + 1 + kl] == x[kl]);
                } else if kl > x.len() {
                    assert(k[x.len() as int] == c[x1]);
                } else {
                    assert(skip_ws(c, x1 + 1, n) == x1 + 1);
                }
            } else if p == x1 {
                if kl == 0 {
                    assert(c[x1 + 1] == ',');
                } else if kl == 1 {
                    assert(c[x1 + 2] == ' ');
                } else if kl >= 3 {
                    assert(k[2] == c[k0]);
                } else {
                    lemma_skip_ws_stops(c, k0 + 1, n, k1);
                    let q = skip_ws(c, k0 + 1, n);
                    lemma_skip_ws_spans(c, k0 + 1, n);
                    if q < k1 {
                        assert(c[q] == k[q - k0 - 1]);
                    }
                }
            } else if p == 0 {
                assert(c[0] == '{');
            } else if 2 <= p < a1 {
                assert(c[p] == a[p - 2]);
            } else if a1 < p < x0 {
                assert(c[a1 + 1] == ':' && c[a1 + 2] == ' ');
            } else if x0 < p < x1 {
                assert(c[p] == x[p - x0 - 1]);
            } else {
                assert(c[x1 + 1] == ',' && c[x1 + 2] == ' ');
            }
        }
    }
    lemma_find_key_skips(c, k, 0, k0);
    // The value after the colon.
    assert(skip_ws(c, k1 + 3, n) == v0);
    assert(skip_ws(c, k1 + 2, n) == v0);
    lemma_json_string_plain(c, v0 + 1, v1);
    assert(c.subrange(v0 + 1, v1) =~= v);
}

} // verus!
