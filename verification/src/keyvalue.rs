//! A map from text keys to text values kept as a list of distinct keys, and the parsing of
//! `key = value` lines shared by the configuration formats.
use vstd::prelude::*;
use crate::text::{chars_of, cut_ws, is_ws, skip_ws, substring, text_eq, trim, trimmed};

verus! {

/// The map that a list of entries stands for: each entry sets its key, later ones last.
pub open spec fn map_of<V>(s: Seq<(String, V)>) -> Map<Seq<char>, V>
    decreases s.len(),
{
    if s.len() == 0 {
        Map::empty()
    } else {
        map_of(s.drop_last()).insert(s.last().0@, s.last().1)
    }
}

/// The map with each value of `m` replaced by its text.
pub open spec fn texts_of(m: Map<Seq<char>, String>) -> Map<Seq<char>, Seq<char>> {
    m.map_values(|v: String| v@)
}

/// No key occurs twice in `s`.
pub open spec fn distinct_keys<V>(s: Seq<(String, V)>) -> bool {
    forall|i: int, j: int| 0 <= i < j < s.len() ==> s[i].0@ != s[j].0@
}

/// A key that no entry sets is not in the map of the entries.
pub proof fn lemma_map_of_absent<V>(s: Seq<(String, V)>, k: Seq<char>)
    requires
        forall|i: int| 0 <= i < s.len() ==> s[i].0@ != k,
    ensures
        !map_of(s).contains_key(k),
    decreases s.len(),
{
    if s.len() > 0 {
        lemma_map_of_absent(s.drop_last(), k);
    }
}

/// With distinct keys, the map of the entries gives each entry's key its value.
pub proof fn lemma_map_of_at<V>(s: Seq<(String, V)>, i: int)
    requires
        distinct_keys(s),
        0 <= i < s.len(),
    ensures
        map_of(s).contains_key(s[i].0@),
        map_of(s)[s[i].0@] == s[i].1,
    decreases s.len(),
{
    if i < s.len() - 1 {
        lemma_map_of_at(s.drop_last(), i);
    }
}

/// With distinct keys, replacing an entry by one with the same key sets that key in the map
/// and keeps the keys distinct.
pub proof fn lemma_map_of_update<V>(s: Seq<(String, V)>, i: int, e: (String, V))
    requires
        distinct_keys(s),
        0 <= i < s.len(),
        e.0@ == s[i].0@,
    ensures
        map_of(s.update(i, e)) == map_of(s).insert(e.0@, e.1),
        distinct_keys(s.update(i, e)),
    decreases s.len(),
{
    let t = s.update(i, e);
    if i == s.len() - 1 {
        assert(t.drop_last() =~= s.drop_last());
        assert(map_of(t) =~= map_of(s).insert(e.0@, e.1));
    } else {
        assert(t.drop_last() =~= s.drop_last().update(i, e));
        lemma_map_of_update(s.drop_last(), i, e);
        assert(map_of(t) =~= map_of(s).insert(e.0@, e.1));
    }
}

/// The map of entries with distinct keys has exactly one key for each entry.
pub proof fn lemma_map_of_len<V>(s: Seq<(String, V)>)
    requires
        distinct_keys(s),
    ensures
        map_of(s).dom().finite(),
        map_of(s).len() == s.len(),
    decreases s.len(),
{
    if s.len() > 0 {
        let p = s.drop_last();
        assert(distinct_keys(p));
        lemma_map_of_len(p);
        assert forall|i: int| 0 <= i < p.len() implies p[i].0@ != s.last().0@ by {
            assert(p[i] == s[i]);
        }
        lemma_map_of_absent(p, s.last().0@);
        assert(map_of(s).dom() =~= map_of(p).dom().insert(s.last().0@));
    } else {
        assert(map_of(s).dom() =~= Set::<Seq<char>>::empty());
    }
}

/// Where `key` is stored, if anywhere.
pub fn find_key<V>(entries: &Vec<(String, V)>, key: &str) -> (r: Option<usize>)
    ensures
        match r {
            Some(i) => i < entries@.len() && entries@[i as int].0@ == key@,
            None => forall|i: int| 0 <= i < entries@.len() ==> entries@[i].0@ != key@,
        },
{
    let mut i: usize = 0;
    while i < entries.len()
        invariant
            i <= entries@.len(),
            forall|j: int| 0 <= j < i ==> entries@[j].0@ != key@,
        decreases entries@.len() - i,
    {
        if text_eq(entries[i].0.as_str(), key) {
            return Some(i);
        }
        i = i + 1;
    }
    None
}

/// A map from text keys to text values.
#[derive(Debug)]
pub struct StringMap {
    entries: Vec<(String, String)>,
}

impl View for StringMap {
    type V = Map<Seq<char>, Seq<char>>;

    closed spec fn view(&self) -> Map<Seq<char>, Seq<char>> {
        texts_of(map_of(self.entries@))
    }
}

impl StringMap {
    /// Keys are never stored twice.
    #[verifier::type_invariant]
    closed spec fn wf(&self) -> bool {
        distinct_keys(self.entries@)
    }

    /// An empty map.
    pub fn new() -> (r: Self)
        ensures
            r@ == Map::<Seq<char>, Seq<char>>::empty(),
    {
        StringMap { entries: Vec::new() }
    }

    /// Sets `key` to `value`.
    pub fn insert(&mut self, key: String, value: String)
        ensures
            final(self)@ == old(self)@.insert(key@, value@),
    {
        proof {
            use_type_invariant(&*self);
        }
        let mut entries = Vec::new();
        std::mem::swap(&mut entries, &mut self.entries);
        match find_key(&entries, key.as_str()) {
            Some(i) => {
                proof {
                    lemma_map_of_update(entries@, i as int, (key, value));
                }
                entries.set(i, (key, value));
            },
            None => {
                proof {
                    assert(entries@.push((key, value)).drop_last() =~= entries@);
                }
                entries.push((key, value));
            },
        }
        self.entries = entries;
        assert(self@ =~= old(self)@.insert(key@, value@));
    }

    /// The value of `key`.
    pub fn get(&self, key: &str) -> (r: Option<&String>)
        ensures
            match r {
                Some(v) => self@.contains_key(key@) && v@ == self@[key@],
                None => !self@.contains_key(key@),
            },
    {
        proof {
            use_type_invariant(self);
        }
        match find_key(&self.entries, key) {
            Some(i) => {
                proof {
                    lemma_map_of_at(self.entries@, i as int);
                }
                Some(&self.entries[i].1)
            },
            None => {
                proof {
                    lemma_map_of_absent(self.entries@, key@);
                }
                None
            },
        }
    }

    /// The entries, every key once.
    pub fn entries(&self) -> (r: &Vec<(String, String)>)
        ensures
            distinct_keys(r@),
            texts_of(map_of(r@)) == self@,
    {
        proof {
            use_type_invariant(self);
        }
        &self.entries
    }
}

/// The index of the first `'='` in `s`, or -1.
pub open spec fn first_eq_sign(s: Seq<char>) -> int
    decreases s.len(),
{
    if s.len() == 0 {
        -1
    } else if s[0] == '=' {
        0
    } else if first_eq_sign(s.drop_first()) < 0 {
        -1
    } else {
        first_eq_sign(s.drop_first()) + 1
    }
}

proof fn lemma_first_eq_sign(s: Seq<char>)
    ensures
        -1 <= first_eq_sign(s) < s.len(),
        first_eq_sign(s) >= 0 ==> s[first_eq_sign(s)] == '=',
        forall|j: int| 0 <= j < s.len() && (first_eq_sign(s) < 0 || j < first_eq_sign(s)) ==> s[j] != '=',
    decreases s.len(),
{
    if s.len() > 0 {
        lemma_first_eq_sign(s.drop_first());
        assert forall|j: int| 0 < j < s.len() implies s[j] == s.drop_first()[j - 1] by {}
    }
}

/// `s` neither starts nor ends with whitespace.
pub open spec fn edge_trimmed(s: Seq<char>) -> bool {
    s.len() == 0 || (!is_ws(s[0]) && !is_ws(s.last()))
}

/// A key and a value that a `key = value` line gives back as they are: neither starts or
/// ends with whitespace, the key holds no `=`, and a key does not start a comment.
pub open spec fn plain_entry(k: Seq<char>, v: Seq<char>) -> bool {
    &&& edge_trimmed(k)
    &&& edge_trimmed(v)
    &&& forall|i: int| 0 <= i < k.len() ==> k[i] != '='
    &&& k.len() > 0 ==> k[0] != '#'
}

/// The line `key = value`.
pub open spec fn written_line(k: Seq<char>, v: Seq<char>) -> Seq<char> {
    k + seq![' ', '=', ' '] + v
}

proof fn lemma_first_eq_sign_at(s: Seq<char>, e: int)
    requires
        0 <= e < s.len(),
        s[e] == '=',
        forall|j: int| 0 <= j < e ==> s[j] != '=',
    ensures
        first_eq_sign(s) == e,
{
    lemma_first_eq_sign(s);
}

/// The line `key = value` for a plain key and value is read back as that key and value.
pub proof fn lemma_entry_of_written_line(k: Seq<char>, v: Seq<char>)
    requires
        plain_entry(k, v),
    ensures
        entry_of(written_line(k, v), true) == Some((k, v)),
{
    let l = written_line(k, v);
    let n = l.len() as int;
    let kl = k.len() as int;
    assert(n == kl + 3 + v.len());
    assert(l[kl] == ' ' && l[kl + 1] == '=' && l[kl + 2] == ' ');
    assert(is_ws(' '));
    assert(!is_ws('='));
    assert(forall|j: int| 0 <= j < kl ==> l[j] == k[j]);
    assert(forall|j: int| 0 <= j < v.len() ==> l[kl + 3 + j] == v[j]);
    let a: int = if kl > 0 { 0 } else { 1 };
    assert(skip_ws(l, 0, n) == a) by {
        if kl == 0 {
            assert(skip_ws(l, 1, n) == 1);
        }
    }
    let b: int = if v.len() > 0 { n } else { n - 1 };
    assert(cut_ws(l, a, n) == b) by {
        if v.len() == 0 {
            assert(cut_ws(l, a, n - 1) == n - 1);
        } else {
            assert(l[n - 1] == v.last());
        }
    }
    let t = l.subrange(a, b);
    assert(trimmed(l) == t);
    assert(t.len() > 0);
    assert(t[0] != '#') by {
        if kl > 0 {
            assert(t[0] == k[0]);
        } else {
            assert(t[0] == '=');
        }
    }
    let e = kl + 1 - a;
    assert forall|j: int| 0 <= j < e implies t[j] != '=' by {
        assert(t[j] == l[a + j]);
        if a + j < kl {
            assert(l[a + j] == k[a + j]);
        }
    }
    lemma_first_eq_sign_at(t, e);
    let key_part = t.subrange(0, e);
    let value_part = t.subrange(e + 1, t.len() as int);
    assert(trimmed(key_part) == k) by {
        if kl > 0 {
            assert(key_part =~= k.push(' '));
            let m = key_part.len() as int;
            assert(skip_ws(key_part, 0, m) == 0);
            assert(cut_ws(key_part, 0, m - 1) == m - 1);
            assert(cut_ws(key_part, 0, m) == m - 1);
            assert(key_part.subrange(0, m - 1) =~= k);
        } else {
            assert(key_part =~= k);
        }
    }
    assert(trimmed(value_part) == v) by {
        if v.len() > 0 {
            assert(value_part =~= seq![' '] + v);
            let m = value_part.len() as int;
            assert(skip_ws(value_part, 1, m) == 1);
            assert(skip_ws(value_part, 0, m) == 1);
            assert(cut_ws(value_part, 1, m) == m);
            assert(value_part.subrange(1, m) =~= v);
        } else {
            assert(value_part =~= v);
        }
    }
}

/// The key and value of a `key = value` line: the line is trimmed and split at its first `=`,
/// and both sides are trimmed. A line without `=` gives none.
pub open spec fn key_value_of(line: Seq<char>) -> Option<(Seq<char>, Seq<char>)> {
    let t = trimmed(line);
    let e = first_eq_sign(t);
    if e < 0 {
        None
    } else {
        Some((trimmed(t.subrange(0, e)), trimmed(t.subrange(e + 1, t.len() as int))))
    }
}

/// The entry a line sets: none for a line without `=`, and, where `skip_comments` holds, none
/// for a blank line or one whose trimmed text starts with `#`.
pub open spec fn entry_of(line: Seq<char>, skip_comments: bool) -> Option<(Seq<char>, Seq<char>)> {
    let t = trimmed(line);
    if skip_comments && (t.len() == 0 || t[0] == '#') {
        None
    } else {
        key_value_of(line)
    }
}

/// The map that the entries of `lines`, applied in order to `m`, give.
pub open spec fn apply_key_values(
    m: Map<Seq<char>, Seq<char>>,
    lines: Seq<Seq<char>>,
    skip_comments: bool,
) -> Map<Seq<char>, Seq<char>>
    decreases lines.len(),
{
    if lines.len() == 0 {
        m
    } else {
        let prev = apply_key_values(m, lines.drop_last(), skip_comments);
        match entry_of(lines.last(), skip_comments) {
            Some((k, v)) => prev.insert(k, v),
            None => prev,
        }
    }
}

/// The entry that `line` sets, as `entry_of` describes.
pub fn split_key_value(line: &str, skip_comments: bool) -> (r: Option<(String, String)>)
    ensures
        match entry_of(line@, skip_comments) {
            Some((k, v)) => r matches Some((rk, rv)) && rk@ == k && rv@ == v,
            None => r is None,
        },
{
    let t = trim(line);
    let v = chars_of(t.as_str());
    if skip_comments && (v.len() == 0 || v[0] == '#') {
        return None;
    }
    proof {
        lemma_first_eq_sign(v@);
    }
    let mut i: usize = 0;
    while i < v.len()
        invariant
            v@ == t@,
            t@ == trimmed(line@),
            !(skip_comments && (v@.len() == 0 || v@[0] == '#')),
            i <= v@.len(),
            forall|j: int| 0 <= j < i ==> v@[j] != '=',
        decreases v@.len() - i,
    {
        if v[i] == '=' {
            proof {
                lemma_first_eq_sign(v@);
            }
            assert(first_eq_sign(v@) == i);
            let key = substring(t.as_str(), 0, i);
            let value = substring(t.as_str(), i + 1, v.len());
            let k = trim(key.as_str());
            let w = trim(value.as_str());
            return Some((k, w));
        }
        i = i + 1;
    }
    proof {
        lemma_first_eq_sign(v@);
    }
    None
}

} // verus!
