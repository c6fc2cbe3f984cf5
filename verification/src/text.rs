//! Character-level text handling shared by the text-format readers: whitespace as Rust's
//! `char::is_whitespace` defines it, trimming, splitting into lines and words, and
//! rendering numbers.
use vstd::prelude::*;
use vstd::string::{StrSliceExecFns, StringExecFns};
use vstd::utf8::{decode_utf8, valid_utf8};

verus! {

/// Unicode `White_Space`, the set that `char::is_whitespace` (and so `str::trim` and
/// `str::split_whitespace`) uses.
pub open spec fn is_ws(c: char) -> bool {
    let u = c as u32;
    ||| 9 <= u <= 13
    ||| u == 32
    ||| u == 0x85
    ||| u == 0xa0
    ||| u == 0x1680
    ||| 0x2000 <= u <= 0x200a
    ||| u == 0x2028
    ||| u == 0x2029
    ||| u == 0x202f
    ||| u == 0x205f
    ||| u == 0x3000
}

pub fn is_whitespace(c: char) -> (r: bool)
    ensures
        r == is_ws(c),
{
    let u = c as u32;
    (9 <= u && u <= 13) || u == 32 || u == 0x85 || u == 0xa0 || u == 0x1680 || (0x2000 <= u && u
        <= 0x200a) || u == 0x2028 || u == 0x2029 || u == 0x202f || u == 0x205f || u == 0x3000
}

/// The characters of `s`, in order.
pub fn chars_of(s: &str) -> (v: Vec<char>)
    ensures
        v@ == s@,
{
    let mut v: Vec<char> = Vec::new();
    for c in it: s.chars()
        invariant
            v@ == it.seq().take(it.index() as int),
    {
        v.push(c);
    }
    v
}

/// The characters of `s` from `from` to `to` as a new `String`.
pub fn substring(s: &str, from: usize, to: usize) -> (r: String)
    requires
        from <= to <= s@.len(),
    ensures
        r@ == s@.subrange(from as int, to as int),
{
    s.substring_char(from, to).to_owned()
}

/// First index in `lo..hi` whose character is not whitespace, or `hi`.
pub open spec fn skip_ws(s: Seq<char>, lo: int, hi: int) -> int
    decreases hi - lo,
{
    if lo >= hi {
        hi
    } else if is_ws(s[lo]) {
        skip_ws(s, lo + 1, hi)
    } else {
        lo
    }
}

/// End of `lo..hi` once the trailing whitespace is cut off.
pub open spec fn cut_ws(s: Seq<char>, lo: int, hi: int) -> int
    decreases hi - lo,
{
    if hi <= lo {
        lo
    } else if is_ws(s[hi - 1]) {
        cut_ws(s, lo, hi - 1)
    } else {
        hi
    }
}

/// `s[lo..hi]` with leading and trailing whitespace removed, as `str::trim` does.
pub open spec fn trim_of(s: Seq<char>, lo: int, hi: int) -> Seq<char> {
    let a = skip_ws(s, lo, hi);
    s.subrange(a, cut_ws(s, a, hi))
}

/// `s` with trailing whitespace removed, as `str::trim_end` does.
pub open spec fn trim_end_of(s: Seq<char>) -> Seq<char> {
    s.subrange(0, cut_ws(s, 0, s.len() as int))
}

/// Skipping whitespace stays within the range.
pub proof fn lemma_skip_ws_bounds(s: Seq<char>, lo: int, hi: int)
    requires
        lo <= hi,
    ensures
        lo <= skip_ws(s, lo, hi) <= hi,
    decreases hi - lo,
{
    if lo < hi && is_ws(s[lo]) {
        lemma_skip_ws_bounds(s, lo + 1, hi);
    }
}

/// Cutting trailing whitespace stays within the range.
pub proof fn lemma_cut_ws_bounds(s: Seq<char>, lo: int, hi: int)
    requires
        lo <= hi,
    ensures
        lo <= cut_ws(s, lo, hi) <= hi,
    decreases hi - lo,
{
    if hi > lo && is_ws(s[hi - 1]) {
        lemma_cut_ws_bounds(s, lo, hi - 1);
    }
}

/// The bounds of `v[lo..hi]` once trimmed.
pub fn trim_bounds(v: &Vec<char>, lo: usize, hi: usize) -> (r: (usize, usize))
    requires
        lo <= hi <= v@.len(),
    ensures
        r.0 == skip_ws(v@, lo as int, hi as int),
        r.1 == cut_ws(v@, r.0 as int, hi as int),
        lo <= r.0 <= r.1 <= hi,
{
    let mut a = lo;
    while a < hi && is_whitespace(v[a])
        invariant
            lo <= a <= hi,
            hi <= v@.len(),
            skip_ws(v@, a as int, hi as int) == skip_ws(v@, lo as int, hi as int),
        decreases hi - a,
    {
        a = a + 1;
    }
    let mut b = hi;
    while b > a && is_whitespace(v[b - 1])
        invariant
            a <= b <= hi,
            hi <= v@.len(),
            cut_ws(v@, a as int, b as int) == cut_ws(v@, a as int, hi as int),
        decreases b - a,
    {
        b = b - 1;
    }
    (a, b)
}

/// `s` with leading and trailing whitespace removed, as `str::trim` does.
pub open spec fn trimmed(s: Seq<char>) -> Seq<char> {
    trim_of(s, 0, s.len() as int)
}

/// Whether `a` and `b` hold the same text.
pub fn text_eq(a: &str, b: &str) -> (r: bool)
    ensures
        r == (a@ == b@),
{
    let va = chars_of(a);
    let vb = chars_of(b);
    if va.len() != vb.len() {
        return false;
    }
    let mut i: usize = 0;
    while i < va.len()
        invariant
            va@ == a@,
            vb@ == b@,
            va@.len() == vb@.len(),
            i <= va@.len(),
            forall|j: int| 0 <= j < i ==> va@[j] == vb@[j],
        decreases va@.len() - i,
    {
        if va[i] != vb[i] {
            return false;
        }
        i = i + 1;
    }
    assert(va@ =~= vb@);
    true
}

/// `s` without its trailing whitespace.
pub fn trim_end(s: &str) -> (r: String)
    ensures
        r@ == trim_end_of(s@),
{
    let v = chars_of(s);
    let mut b = v.len();
    while b > 0 && is_whitespace(v[b - 1])
        invariant
            v@ == s@,
            b <= v@.len(),
            cut_ws(v@, 0, b as int) == cut_ws(v@, 0, v@.len() as int),
        decreases b,
    {
        b = b - 1;
    }
    substring(s, 0, b)
}

/// `s` trimmed of leading and trailing whitespace.
pub fn trim(s: &str) -> (r: String)
    ensures
        r@ == trim_of(s@, 0, s@.len() as int),
{
    let v = chars_of(s);
    let (a, b) = trim_bounds(&v, 0, v.len());
    substring(s, a, b)
}

/// The pieces of `s` between `'\n'` characters, as `str::split('\n')` gives them.
pub open spec fn pieces(s: Seq<char>) -> Seq<Seq<char>>
    decreases s.len(),
{
    if s.len() == 0 {
        seq![Seq::<char>::empty()]
    } else if s.last() == '\n' {
        pieces(s.drop_last()).push(Seq::<char>::empty())
    } else {
        let p = pieces(s.drop_last());
        p.update(p.len() - 1, p.last().push(s.last()))
    }
}

/// A text has at least one piece.
pub proof fn lemma_pieces_nonempty(s: Seq<char>)
    ensures
        pieces(s).len() >= 1,
    decreases s.len(),
{
    if s.len() > 0 {
        lemma_pieces_nonempty(s.drop_last());
    }
}

/// The lines of `s` split at `'\n'` only: a final empty piece (after a trailing newline,
/// or of an empty text) is no line.
pub open spec fn raw_lines(s: Seq<char>) -> Seq<Seq<char>> {
    let p = pieces(s);
    if p.last().len() == 0 {
        p.drop_last()
    } else {
        p
    }
}

/// `l` without one trailing `'\r'`.
pub open spec fn strip_cr(l: Seq<char>) -> Seq<char> {
    if l.len() > 0 && l.last() == '\r' {
        l.drop_last()
    } else {
        l
    }
}

/// The lines of `s` as `str::lines` and `BufRead::lines` give them: split at `"\n"` or
/// `"\r\n"`, the final line ending optional.
pub open spec fn text_lines(s: Seq<char>) -> Seq<Seq<char>> {
    let p = pieces(s);
    let terminated = p.drop_last().map_values(|l: Seq<char>| strip_cr(l));
    if p.last().len() == 0 {
        terminated
    } else {
        terminated.push(p.last())
    }
}

/// The views of a vector of strings.
pub open spec fn views(v: Seq<String>) -> Seq<Seq<char>> {
    v.map_values(|l: String| l@)
}

proof fn lemma_pieces_step(s: Seq<char>, i: int)
    requires
        0 <= i < s.len(),
    ensures
        s.take(i + 1).drop_last() == s.take(i),
        s.take(i + 1).last() == s[i],
        s.take(i + 1).len() > 0,
{
    assert(s.take(i + 1).drop_last() =~= s.take(i));
}

/// The `'\n'`-separated pieces of `s`, every piece its own `String`.
pub fn split_pieces(s: &str) -> (r: Vec<String>)
    ensures
        views(r@) == pieces(s@),
{
    let v = chars_of(s);
    let n = v.len();
    let mut out: Vec<String> = Vec::new();
    let mut start: usize = 0;
    let mut i: usize = 0;
    assert(v@.take(0) =~= Seq::<char>::empty());
    assert(views(out@).push(v@.subrange(0, 0)) =~= seq![Seq::<char>::empty()]);
    while i < n
        invariant
            n == v@.len(),
            v@ == s@,
            start <= i <= n,
            pieces(v@.take(i as int)) == views(out@).push(v@.subrange(start as int, i as int)),
        decreases n - i,
    {
        proof {
            lemma_pieces_step(v@, i as int);
        }
        if v[i] == '\n' {
            let piece = substring(s, start, i);
            let ghost before = out@;
            out.push(piece);
            assert(views(out@) =~= views(before).push(v@.subrange(start as int, i as int)));
            start = i + 1;
            i = i + 1;
            assert(v@.subrange(start as int, i as int) =~= Seq::<char>::empty());
        } else {
            i = i + 1;
            assert(v@.subrange(start as int, i as int) =~= v@.subrange(start as int, i - 1).push(v@[i - 1]));
            assert(pieces(v@.take(i as int)) =~= views(out@).push(v@.subrange(start as int, i as int)));
        }
    }
    let last = substring(s, start, n);
    let ghost before = out@;
    out.push(last);
    assert(views(out@) =~= views(before).push(v@.subrange(start as int, n as int)));
    assert(v@.take(n as int) =~= v@);
    assert(views(out@) =~= pieces(s@));
    out
}

/// `line` without one trailing `'\r'`.
pub fn strip_cr_string(line: String) -> (r: String)
    ensures
        r@ == strip_cr(line@),
{
    let v = chars_of(line.as_str());
    let n = v.len();
    if n > 0 && v[n - 1] == '\r' {
        let r = substring(line.as_str(), 0, n - 1);
        assert(r@ =~= line@.drop_last());
        r
    } else {
        line
    }
}

/// The lines of `s` split at `'\n'` only, with no final empty line.
pub fn raw_lines_of(s: &str) -> (r: Vec<String>)
    ensures
        views(r@) == raw_lines(s@),
{
    let mut p = split_pieces(s);
    proof {
        lemma_pieces_nonempty(s@);
    }
    let n = p.len();
    if p[n - 1].as_str().is_empty() {
        let ghost before = p@;
        p.pop();
        assert(views(p@) =~= views(before).drop_last());
    }
    p
}

/// The lines of `s` as `str::lines` gives them.
pub fn text_lines_of(s: &str) -> (r: Vec<String>)
    ensures
        views(r@) == text_lines(s@),
{
    let p = split_pieces(s);
    proof {
        lemma_pieces_nonempty(s@);
    }
    let n = p.len();
    let ghost ps = views(p@);
    let mut out: Vec<String> = Vec::new();
    let mut i: usize = 0;
    while i + 1 < n
        invariant
            n == p@.len(),
            n >= 1,
            ps == views(p@),
            ps == pieces(s@),
            i <= n - 1,
            views(out@) == ps.take(i as int).map_values(|l: Seq<char>| strip_cr(l)),
        decreases n - i,
    {
        let line = p[i].clone();
        assert(line@ == ps[i as int]);
        let stripped = strip_cr_string(line);
        let ghost before = out@;
        out.push(stripped);
        assert(views(out@) =~= views(before).push(strip_cr(ps[i as int])));
        assert(ps.take(i + 1) =~= ps.take(i as int).push(ps[i as int]));
        i = i + 1;
        assert(views(out@) =~= ps.take(i as int).map_values(|l: Seq<char>| strip_cr(l)));
    }
    assert(ps.take(i as int) =~= ps.drop_last());
    if !p[n - 1].as_str().is_empty() {
        let last = p[n - 1].clone();
        let ghost before = out@;
        out.push(last);
        assert(views(out@) =~= views(before).push(ps.last()));
    }
    out
}

/// The text made of each of `ls` followed by `'\n'`.
pub open spec fn joined_lines(ls: Seq<Seq<char>>) -> Seq<char>
    decreases ls.len(),
{
    if ls.len() == 0 {
        Seq::empty()
    } else {
        joined_lines(ls.drop_last()) + ls.last() + seq!['\n']
    }
}

/// `s` holds no `'\n'`.
pub open spec fn single_line(s: Seq<char>) -> bool {
    forall|i: int| 0 <= i < s.len() ==> s[i] != '\n'
}

proof fn lemma_pieces_append_plain(s: Seq<char>, t: Seq<char>)
    requires
        single_line(t),
    ensures
        pieces(s + t).len() == pieces(s).len(),
        pieces(s + t).drop_last() == pieces(s).drop_last(),
        pieces(s + t).last() == pieces(s).last() + t,
    decreases t.len(),
{
    lemma_pieces_nonempty(s);
    if t.len() == 0 {
        assert(s + t =~= s);
        assert(pieces(s).last() + t =~= pieces(s).last());
    } else {
        let t0 = t.drop_last();
        assert(single_line(t0)) by {
            assert forall|i: int| 0 <= i < t0.len() implies t0[i] != '\n' by {
                assert(t0[i] == t[i]);
            }
        }
        lemma_pieces_append_plain(s, t0);
        assert((s + t).drop_last() =~= s + t0);
        assert((s + t).last() == t.last());
        assert(t.last() != '\n');
        lemma_pieces_nonempty(s + t0);
        let p = pieces(s + t0);
        assert(pieces(s + t) == p.update(p.len() - 1, p.last().push(t.last())));
        assert(pieces(s + t).drop_last() =~= p.drop_last());
        assert(pieces(s).last() + t =~= (pieces(s).last() + t0).push(t.last()));
    }
}

/// No piece of a text holds a `'\n'`.
pub proof fn lemma_pieces_single_line(s: Seq<char>)
    ensures
        forall|i: int| 0 <= i < pieces(s).len() ==> single_line(#[trigger] pieces(s)[i]),
    decreases s.len(),
{
    if s.len() > 0 {
        lemma_pieces_single_line(s.drop_last());
        lemma_pieces_nonempty(s.drop_last());
        let p = pieces(s.drop_last());
        if s.last() != '\n' {
            let l = p.last().push(s.last());
            assert(single_line(l)) by {
                assert(single_line(p[p.len() - 1]));
                assert forall|j: int| 0 <= j < l.len() implies l[j] != '\n' by {
                    if j < l.len() - 1 {
                        assert(l[j] == p.last()[j]);
                    }
                }
            }
        }
    }
}

/// No line of a text, as `str::lines` splits it, holds a `'\n'`.
pub proof fn lemma_text_lines_single_line(s: Seq<char>)
    ensures
        forall|i: int| 0 <= i < text_lines(s).len() ==> single_line(#[trigger] text_lines(s)[i]),
{
    lemma_pieces_single_line(s);
    lemma_pieces_nonempty(s);
    let p = pieces(s);
    assert forall|i: int| 0 <= i < text_lines(s).len() implies single_line(#[trigger] text_lines(s)[i]) by {
        assert(single_line(p[i]));
        if i < p.len() - 1 {
            assert(text_lines(s)[i] == strip_cr(p[i]));
            let l = p[i];
            if l.len() > 0 && l.last() == '\r' {
                assert forall|j: int| 0 <= j < l.drop_last().len() implies l.drop_last()[j] != '\n' by {
                    assert(l.drop_last()[j] == l[j]);
                }
            }
        }
    }
}

/// The pieces of a joined text are its lines and a final empty piece.
pub proof fn lemma_pieces_of_joined(ls: Seq<Seq<char>>)
    requires
        forall|i: int| 0 <= i < ls.len() ==> single_line(#[trigger] ls[i]),
    ensures
        pieces(joined_lines(ls)) == ls.push(Seq::<char>::empty()),
    decreases ls.len(),
{
    if ls.len() == 0 {
        assert(pieces(Seq::<char>::empty()) =~= seq![Seq::<char>::empty()]);
        assert(ls.push(Seq::<char>::empty()) =~= seq![Seq::<char>::empty()]);
    } else {
        let prev = ls.drop_last();
        assert forall|i: int| 0 <= i < prev.len() implies single_line(#[trigger] prev[i]) by {
            assert(prev[i] == ls[i]);
        }
        lemma_pieces_of_joined(prev);
        let a = joined_lines(prev);
        let l = ls.last();
        assert(single_line(ls[ls.len() - 1]));
        lemma_pieces_append_plain(a, l);
        let s = joined_lines(ls);
        assert(s =~= (a + l).push('\n'));
        assert(s.drop_last() =~= a + l);
        assert(s.last() == '\n');
        assert(pieces(a + l) =~= prev.push(l)) by {
            assert(pieces(a + l).drop_last() =~= prev);
        }
        assert(ls =~= prev.push(l));
    }
}

/// Reading back, as `str::lines` does, a text written as lines each followed by `'\n'` gives
/// the lines, less one final `'\r'` each.
pub proof fn lemma_text_lines_of_joined(ls: Seq<Seq<char>>)
    requires
        forall|i: int| 0 <= i < ls.len() ==> single_line(#[trigger] ls[i]),
    ensures
        text_lines(joined_lines(ls)) == ls.map_values(|l: Seq<char>| strip_cr(l)),
{
    lemma_pieces_of_joined(ls);
    let p = pieces(joined_lines(ls));
    assert(p.drop_last() =~= ls);
    assert(p.last() =~= Seq::<char>::empty());
}

/// The text made of each of `lines` followed by `'\n'`.
pub fn join_lines(lines: &Vec<String>) -> (r: String)
    ensures
        r@ == joined_lines(views(lines@)),
{
    let mut out = String::new();
    let mut i: usize = 0;
    while i < lines.len()
        invariant
            i <= lines@.len(),
            out@ == joined_lines(views(lines@).take(i as int)),
        decreases lines@.len() - i,
    {
        let ghost ls = views(lines@);
        assert(ls.take(i + 1).drop_last() =~= ls.take(i as int));
        assert(ls.take(i + 1).last() == lines@[i as int]@);
        proof {
            reveal_strlit("\n");
        }
        out.append(lines[i].as_str());
        out.append("\n");
        i = i + 1;
        assert(out@ =~= joined_lines(ls.take(i as int)));
    }
    assert(views(lines@).take(i as int) =~= views(lines@));
    out
}

/// The whitespace-separated words of `s`, as `str::split_whitespace` gives them.
pub open spec fn words(s: Seq<char>) -> Seq<Seq<char>>
    decreases s.len(),
{
    if s.len() == 0 {
        Seq::empty()
    } else if is_ws(s.last()) {
        words(s.drop_last())
    } else if s.len() == 1 || is_ws(s[s.len() - 2]) {
        words(s.drop_last()).push(seq![s.last()])
    } else {
        let w = words(s.drop_last());
        w.update(w.len() - 1, w.last().push(s.last()))
    }
}

/// The whitespace-separated words of `s`.
pub fn split_words(s: &str) -> (r: Vec<String>)
    ensures
        views(r@) == words(s@),
{
    let v = chars_of(s);
    let n = v.len();
    let mut out: Vec<String> = Vec::new();
    let mut start: usize = 0;
    let mut in_word = false;
    let mut i: usize = 0;
    while i < n
        invariant
            n == v@.len(),
            v@ == s@,
            start <= i <= n,
            in_word ==> start < i && !is_ws(v@[i - 1]) && (start == 0 || is_ws(v@[start - 1])),
            in_word ==> forall|j: int| start <= j < i ==> !is_ws(v@[j]),
            !in_word ==> i == 0 || is_ws(v@[i - 1]),
            words(v@.take(i as int)) == (if in_word {
                views(out@).push(v@.subrange(start as int, i as int))
            } else {
                views(out@)
            }),
        decreases n - i,
    {
        proof {
            lemma_pieces_step(v@, i as int);
            assert(i > 0 ==> v@.take(i + 1)[i - 1] == v@[i - 1]);
        }
        let c = v[i];
        if is_whitespace(c) {
            if in_word {
                let w = substring(s, start, i);
                let ghost before = out@;
                out.push(w);
                assert(views(out@) =~= views(before).push(v@.subrange(start as int, i as int)));
                in_word = false;
            }
        } else {
            if !in_word {
                start = i;
                in_word = true;
                assert(v@.subrange(start as int, i + 1) =~= seq![c]);
            } else {
                assert(v@.subrange(start as int, i + 1) =~= v@.subrange(start as int, i as int).push(c));
            }
        }
        i = i + 1;
    }
    assert(v@.take(n as int) =~= v@);
    if in_word {
        let w = substring(s, start, n);
        let ghost before = out@;
        out.push(w);
        assert(views(out@) =~= views(before).push(v@.subrange(start as int, n as int)));
    }
    out
}

/// The number of whitespace-separated words of `s`, as `str::split_whitespace().count()`.
pub open spec fn word_count_of(s: Seq<char>) -> nat
    decreases s.len(),
{
    if s.len() == 0 {
        0
    } else {
        let starts_word = !is_ws(s.last()) && (s.len() == 1 || is_ws(s[s.len() - 2]));
        word_count_of(s.drop_last()) + if starts_word { 1nat } else { 0nat }
    }
}

/// A text has no more words than characters.
pub proof fn lemma_word_count_le_len(s: Seq<char>)
    ensures
        word_count_of(s) <= s.len(),
    decreases s.len(),
{
    if s.len() > 0 {
        lemma_word_count_le_len(s.drop_last());
    }
}

/// The number of whitespace-separated words of `s`.
pub fn count_words(s: &str) -> (r: usize)
    ensures
        r == word_count_of(s@),
{
    let v = chars_of(s);
    let n = v.len();
    let mut count: usize = 0;
    let mut i: usize = 0;
    while i < n
        invariant
            n == v@.len(),
            v@ == s@,
            i <= n,
            count == word_count_of(v@.take(i as int)),
            count <= i,
        decreases n - i,
    {
        proof {
            lemma_pieces_step(v@, i as int);
            assert(i > 0 ==> v@.take(i + 1)[i - 1] == v@[i - 1]);
        }
        if !is_whitespace(v[i]) && (i == 0 || is_whitespace(v[i - 1])) {
            count = count + 1;
        }
        i = i + 1;
    }
    assert(v@.take(n as int) =~= v@);
    count
}

/// The character of a digit value below 16, lower-case for `a`..`f`.
pub open spec fn digit_char(d: nat) -> char {
    if d < 10 {
        (48 + d) as char
    } else {
        (87 + d) as char
    }
}

/// Decimal digits of `n`, most significant first.
pub open spec fn decimal(n: nat) -> Seq<char>
    decreases n,
{
    if n < 10 {
        seq![digit_char(n)]
    } else {
        decimal(n / 10).push(digit_char(n % 10))
    }
}

/// The two lower-case hexadecimal digits of a byte.
pub open spec fn hex_byte(b: u8) -> Seq<char> {
    seq![digit_char((b / 16) as nat), digit_char((b % 16) as nat)]
}

/// A byte in lower-case hexadecimal without leading zeros, as `{:x?}` prints it.
pub open spec fn hex_digits(b: u8) -> Seq<char> {
    if b < 16 {
        seq![digit_char(b as nat)]
    } else {
        hex_byte(b)
    }
}

/// The bytes of `s` in hexadecimal, separated by `", "`.
pub open spec fn hex_items(s: Seq<u8>) -> Seq<char>
    decreases s.len(),
{
    if s.len() == 0 {
        Seq::empty()
    } else if s.len() == 1 {
        hex_digits(s[0])
    } else {
        hex_items(s.drop_last()) + ", "@ + hex_digits(s.last())
    }
}

/// A byte slice as `{:x?}` prints it: `[7f, 45, 4c, 46]`.
pub open spec fn hex_list(s: Seq<u8>) -> Seq<char> {
    "["@ + hex_items(s) + "]"@
}

/// A one-character string holding the digit `d` (below 16).
pub fn digit_str(d: u8) -> (r: &'static str)
    requires
        d < 16,
    ensures
        r@ == seq![digit_char(d as nat)],
{
    proof {
        reveal_strlit("0");
        reveal_strlit("1");
        reveal_strlit("2");
        reveal_strlit("3");
        reveal_strlit("4");
        reveal_strlit("5");
        reveal_strlit("6");
        reveal_strlit("7");
        reveal_strlit("8");
        reveal_strlit("9");
        reveal_strlit("a");
        reveal_strlit("b");
        reveal_strlit("c");
        reveal_strlit("d");
        reveal_strlit("e");
        reveal_strlit("f");
    }
    let r = match d {
        0 => "0",
        1 => "1",
        2 => "2",
        3 => "3",
        4 => "4",
        5 => "5",
        6 => "6",
        7 => "7",
        8 => "8",
        9 => "9",
        10 => "a",
        11 => "b",
        12 => "c",
        13 => "d",
        14 => "e",
        _ => "f",
    };
    assert(r@ =~= seq![digit_char(d as nat)]);
    r
}

/// Appends the decimal digits of `n` to `out`.
pub fn push_decimal(out: &mut String, n: u64)
    ensures
        final(out)@ == old(out)@ + decimal(n as nat),
    decreases n,
{
    if n < 10 {
        out.append(digit_str(n as u8));
        assert(final(out)@ =~= old(out)@ + decimal(n as nat));
    } else {
        push_decimal(out, n / 10);
        out.append(digit_str((n % 10) as u8));
        assert(final(out)@ =~= old(out)@ + decimal(n as nat));
    }
}

/// Appends the two hexadecimal digits of `b` to `out`.
pub fn push_hex_byte(out: &mut String, b: u8)
    ensures
        final(out)@ == old(out)@ + hex_byte(b),
{
    out.append(digit_str(b / 16));
    out.append(digit_str(b % 16));
    assert(final(out)@ =~= old(out)@ + hex_byte(b));
}

/// What `String::from_utf8_lossy` makes of `bytes`: the text they encode, with each invalid
/// sequence replaced by U+FFFD.
pub uninterp spec fn utf8_lossy(bytes: Seq<u8>) -> Seq<char>;

/// The text of `bytes`: what they encode where they are valid UTF-8, else what
/// `String::from_utf8_lossy` makes of them.
pub open spec fn lossy_text(bytes: Seq<u8>) -> Seq<char> {
    if valid_utf8(bytes) {
        decode_utf8(bytes)
    } else {
        utf8_lossy(bytes)
    }
}

/// `String::from_utf8_lossy`: the text of `bytes`, invalid sequences replaced. The contract
/// names the result, and states that valid UTF-8 decodes to the characters it encodes.
#[verifier::external_body]
pub(crate) fn utf8_lossy_string(bytes: &[u8]) -> (r: String)
    ensures
        r@ == utf8_lossy(bytes@),
        valid_utf8(bytes@) ==> r@ == decode_utf8(bytes@),
{
    String::from_utf8_lossy(bytes).into_owned()
}

/// Every character of `s` is an ASCII digit.
pub open spec fn all_digits(s: Seq<char>) -> bool {
    forall|i: int| 0 <= i < s.len() ==> '0' <= #[trigger] s[i] <= '9'
}

/// The value of the decimal digits `s`.
pub open spec fn digits_value(s: Seq<char>) -> int
    decreases s.len(),
{
    if s.len() == 0 {
        0
    } else {
        digits_value(s.drop_last()) * 10 + (s.last() as int - 48)
    }
}

/// The `i64` that `str::parse::<i64>` reads from `s`: an optional sign and one or more
/// digits, whose value fits.
pub open spec fn parse_i64_of(s: Seq<char>) -> Option<i64> {
    let neg = s.len() > 0 && s[0] == '-';
    let body = if s.len() > 0 && (s[0] == '-' || s[0] == '+') {
        s.drop_first()
    } else {
        s
    };
    let v = if neg {
        -digits_value(body)
    } else {
        digits_value(body)
    };
    if body.len() == 0 || !all_digits(body) || v < i64::MIN || v > i64::MAX {
        None
    } else {
        Some(v as i64)
    }
}

proof fn lemma_digits_value_nonneg(s: Seq<char>)
    requires
        all_digits(s),
    ensures
        digits_value(s) >= 0,
    decreases s.len(),
{
    if s.len() > 0 {
        assert(all_digits(s.drop_last())) by {
            assert forall|i: int| 0 <= i < s.len() - 1 implies '0' <= #[trigger] s.drop_last()[i]
                <= '9' by {
                assert(s.drop_last()[i] == s[i]);
            }
        }
        lemma_digits_value_nonneg(s.drop_last());
        assert(s[s.len() - 1] >= '0');
    }
}

/// Reads an `i64` from `s` as `str::parse::<i64>` does.
pub fn parse_i64(s: &str) -> (r: Option<i64>)
    ensures
        r == parse_i64_of(s@),
{
    let v = chars_of(s);
    let n = v.len();
    let neg = n > 0 && v[0] == '-';
    let start: usize = if n > 0 && (v[0] == '-' || v[0] == '+') {
        1
    } else {
        0
    };
    let ghost body = v@.subrange(start as int, n as int);
    assert(body =~= (if s@.len() > 0 && (s@[0] == '-' || s@[0] == '+') {
        s@.drop_first()
    } else {
        s@
    }));
    if start == n {
        return None;
    }
    let cap: u128 = 9223372036854775809;
    let mut mag: u128 = 0;
    let mut i = start;
    while i < n
        invariant
            n == v@.len(),
            v@ == s@,
            start <= i <= n,
            body == v@.subrange(start as int, n as int),
            body == (if s@.len() > 0 && (s@[0] == '-' || s@[0] == '+') {
                s@.drop_first()
            } else {
                s@
            }),
            mag <= cap,
            cap == 9223372036854775809,
            all_digits(v@.subrange(start as int, i as int)),
            mag == (if digits_value(v@.subrange(start as int, i as int)) < cap {
                digits_value(v@.subrange(start as int, i as int))
            } else {
                cap as int
            }),
            0 <= digits_value(v@.subrange(start as int, i as int)),
        decreases n - i,
    {
        let c = v[i];
        if !('0' <= c && c <= '9') {
            assert(body[i - start] == c);
            return None;
        }
        let d = (c as u32 - 48) as u128;
        let ghost pre = v@.subrange(start as int, i as int);
        let ghost next = v@.subrange(start as int, i + 1);
        assert(next.drop_last() =~= pre);
        assert(all_digits(next)) by {
            assert forall|j: int| 0 <= j < next.len() implies '0' <= #[trigger] next[j] <= '9' by {
                if j < pre.len() {
                    assert(next[j] == pre[j]);
                }
            }
        }
        let t = mag * 10 + d;
        mag = if t < cap {
            t
        } else {
            cap
        };
        i = i + 1;
    }
    assert(v@.subrange(start as int, i as int) =~= body);
    proof {
        lemma_digits_value_nonneg(body);
    }
    if neg {
        if mag <= 9223372036854775808 {
            let m = mag as i128;
            Some((0 - m) as i64)
        } else {
            None
        }
    } else {
        if mag <= 9223372036854775807 {
            Some(mag as i64)
        } else {
            None
        }
    }
}

/// Appends `b` in hexadecimal without leading zeros to `out`.
pub fn push_hex_digits(out: &mut String, b: u8)
    ensures
        final(out)@ == old(out)@ + hex_digits(b),
{
    if b < 16 {
        out.append(digit_str(b));
    } else {
        push_hex_byte(out, b);
    }
}

/// Appends the bytes of `s` as `{:x?}` prints them to `out`.
pub fn push_hex_list(out: &mut String, s: &[u8])
    ensures
        final(out)@ == old(out)@ + hex_list(s@),
{
    out.append("[");
    let mut i: usize = 0;
    while i < s.len()
        invariant
            i <= s@.len(),
            out@ == old(out)@ + "["@ + hex_items(s@.take(i as int)),
        decreases s@.len() - i,
    {
        if i > 0 {
            out.append(", ");
        }
        push_hex_digits(out, s[i]);
        proof {
            let t = s@.take(i + 1);
            assert(t.drop_last() =~= s@.take(i as int));
            assert(t.last() == s@[i as int]);
            if i == 0 {
                assert(s@.take(0) =~= Seq::<u8>::empty());
            }
        }
        i = i + 1;
        assert(out@ =~= old(out)@ + "["@ + hex_items(s@.take(i as int)));
    }
    out.append("]");
    assert(s@.take(s@.len() as int) =~= s@);
    assert(final(out)@ =~= old(out)@ + hex_list(s@));
}

} // verus!
