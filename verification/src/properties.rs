//! Java `.properties` files: `key = value` lines, with blank lines and `#` comments skipped.
use vstd::prelude::*;
use crate::keyvalue::{
    StringMap, apply_key_values, distinct_keys, entry_of, lemma_entry_of_written_line, lemma_map_of_at,
    map_of, plain_entry, split_key_value, texts_of, written_line,
};
use crate::text::{joined_lines, lemma_pieces_of_joined, pieces, single_line, split_pieces, trimmed, views};
use vstd::string::StringExecFns;

verus! {

/// The properties of a Java `.properties` file.
pub struct JavaProperties {
    properties: StringMap,
}

impl View for JavaProperties {
    type V = Map<Seq<char>, Seq<char>>;

    closed spec fn view(&self) -> Map<Seq<char>, Seq<char>> {
        self.properties@
    }
}

/// The text that saving the entries `s` writes: a `key = value` line for each.
pub open spec fn properties_text(s: Seq<(String, String)>) -> Seq<char>
    decreases s.len(),
{
    if s.len() == 0 {
        Seq::empty()
    } else {
        properties_text(s.drop_last()) + s.last().0@ + " = "@ + s.last().1@ + "\n"@
    }
}

impl JavaProperties {
    /// No properties.
    pub fn new() -> (r: Self)
        ensures
            r@ == Map::<Seq<char>, Seq<char>>::empty(),
    {
        JavaProperties { properties: StringMap::new() }
    }

    /// Adds the properties of the text of a `.properties` file: each line that is neither
    /// blank nor a `#` comment and holds an `=` sets its trimmed key to its trimmed value.
    pub fn load_from_str(&mut self, text: &str)
        ensures
            final(self)@ == apply_key_values(old(self)@, pieces(text@), true),
    {
        let lines = split_pieces(text);
        let mut i: usize = 0;
        while i < lines.len()
            invariant
                i <= lines@.len(),
                views(lines@) == pieces(text@),
                self@ == apply_key_values(old(self)@, pieces(text@).take(i as int), true),
            decreases lines@.len() - i,
        {
            let ghost ls = pieces(text@);
            assert(ls.take(i + 1).drop_last() =~= ls.take(i as int));
            assert(ls.take(i + 1).last() == lines@[i as int]@);
            match split_key_value(lines[i].as_str(), true) {
                Some((k, v)) => {
                    self.properties.insert(k, v);
                },
                None => {},
            }
            i = i + 1;
        }
        assert(pieces(text@).take(i as int) =~= pieces(text@));
    }

    /// The text of the `.properties` file that holds these properties, one `key = value`
    /// line each.
    pub fn save_to_string(&self) -> (r: String)
        ensures
            exists|s: Seq<(String, String)>|
                distinct_keys(s) && texts_of(map_of(s)) == self@ && r@ == properties_text(s),
    {
        let entries = self.properties.entries();
        let mut out = String::new();
        let mut i: usize = 0;
        while i < entries.len()
            invariant
                i <= entries@.len(),
                out@ == properties_text(entries@.take(i as int)),
            decreases entries@.len() - i,
        {
            assert(entries@.take(i + 1).drop_last() =~= entries@.take(i as int));
            out.append(entries[i].0.as_str());
            out.append(" = ");
            out.append(entries[i].1.as_str());
            out.append("\n");
            i = i + 1;
        }
        assert(entries@.take(i as int) =~= entries@);
        out
    }

    /// The value of `key`.
    pub fn get_property(&self, key: &str) -> (r: Option<&String>)
        ensures
            match r {
                Some(v) => self@.contains_key(key@) && v@ == self@[key@],
                None => !self@.contains_key(key@),
            },
    {
        self.properties.get(key)
    }

    /// Sets `key` to `value`.
    pub fn set_property(&mut self, key: String, value: String)
        ensures
            final(self)@ == old(self)@.insert(key@, value@),
    {
        self.properties.insert(key, value);
    }
}

/// Getting a property after setting it gives the value set; the other properties are kept.
pub proof fn lemma_property_set_then_get(m: Map<Seq<char>, Seq<char>>, key: Seq<char>, value: Seq<char>, other: Seq<char>)
    ensures
        m.insert(key, value).contains_key(key),
        m.insert(key, value)[key] == value,
        other != key ==> (m.insert(key, value).contains_key(other) == m.contains_key(other)),
        other != key && m.contains_key(other) ==> m.insert(key, value)[other] == m[other],
{
}

/// Properties that a saved file gives back: every key and value is plain and on one line.
pub open spec fn saveable(m: Map<Seq<char>, Seq<char>>) -> bool {
    forall|k: Seq<char>|
        #![trigger m[k]]
        m.contains_key(k) ==> plain_entry(k, m[k]) && single_line(k) && single_line(m[k])
}

/// The lines that saving the entries `s` writes.
pub open spec fn written_lines(s: Seq<(String, String)>) -> Seq<Seq<char>> {
    Seq::new(s.len(), |i: int| written_line(s[i].0@, s[i].1@))
}

proof fn lemma_properties_text_joined(s: Seq<(String, String)>)
    ensures
        properties_text(s) == joined_lines(written_lines(s)),
    decreases s.len(),
{
    if s.len() > 0 {
        lemma_properties_text_joined(s.drop_last());
        reveal_strlit(" = ");
        reveal_strlit("\n");
        assert(written_lines(s).drop_last() =~= written_lines(s.drop_last()));
        assert(properties_text(s) =~= joined_lines(written_lines(s)));
    }
}

proof fn lemma_load_written_lines(s: Seq<(String, String)>)
    requires
        forall|i: int| 0 <= i < s.len() ==> plain_entry(#[trigger] s[i].0@, s[i].1@),
    ensures
        apply_key_values(Map::empty(), written_lines(s), true) == texts_of(map_of(s)),
    decreases s.len(),
{
    if s.len() > 0 {
        let p = s.drop_last();
        assert forall|i: int| 0 <= i < p.len() implies plain_entry(#[trigger] p[i].0@, p[i].1@) by {
            assert(p[i] == s[i]);
        }
        lemma_load_written_lines(p);
        assert(written_lines(s).drop_last() =~= written_lines(p));
        let e = s[s.len() - 1];
        lemma_entry_of_written_line(e.0@, e.1@);
        assert(texts_of(map_of(s)) =~= texts_of(map_of(p)).insert(e.0@, e.1@));
    }
}

/// Loading, into empty properties, the text that saving properties wrote gives the same
/// properties back, where every key and value is plain and on one line.
pub proof fn lemma_properties_save_then_load(s: Seq<(String, String)>)
    requires
        distinct_keys(s),
        saveable(texts_of(map_of(s))),
    ensures
        apply_key_values(Map::empty(), pieces(properties_text(s)), true) == texts_of(map_of(s)),
{
    let m = texts_of(map_of(s));
    assert forall|i: int| 0 <= i < s.len() implies plain_entry(#[trigger] s[i].0@, s[i].1@)
        && single_line(s[i].0@) && single_line(s[i].1@) by {
        lemma_map_of_at(s, i);
        assert(m[s[i].0@] == s[i].1@);
    }
    let ls = written_lines(s);
    assert forall|i: int| 0 <= i < ls.len() implies single_line(#[trigger] ls[i]) by {
        let k = s[i].0@;
        let v = s[i].1@;
        let l = written_line(k, v);
        assert(single_line(k) && single_line(v));
        assert forall|j: int| 0 <= j < l.len() implies l[j] != '\n' by {
            if j < k.len() {
                assert(l[j] == k[j]);
            } else if j >= k.len() + 3 {
                assert(l[j] == v[j - k.len() - 3]);
            }
        }
    }
    lemma_properties_text_joined(s);
    lemma_pieces_of_joined(ls);
    lemma_load_written_lines(s);
    let all = ls.push(Seq::<char>::empty());
    assert(all.drop_last() =~= ls);
    assert(trimmed(Seq::<char>::empty()) =~= Seq::<char>::empty());
    assert(entry_of(all.last(), true) is None);
}

} // verus!
