//! Makelife files: `key = value` lines, later keys overriding earlier ones.
use vstd::prelude::*;
use crate::keyvalue::{StringMap, apply_key_values, split_key_value};
use crate::text::{pieces, split_pieces, views};

verus! {

/// The key-value data of a makelife file.
#[derive(Debug)]
pub struct MakelifeFile {
    pub data: StringMap,
}

impl MakelifeFile {
    /// Parses the text of a makelife file: every `'\n'`-separated line that holds an `=` sets
    /// its trimmed key to its trimmed value; other lines are ignored.
    pub fn parse(text: &str) -> (r: MakelifeFile)
        ensures
            r.data@ == apply_key_values(Map::empty(), pieces(text@), false),
    {
        let lines = split_pieces(text);
        let mut data = StringMap::new();
        let mut i: usize = 0;
        while i < lines.len()
            invariant
                i <= lines@.len(),
                views(lines@) == pieces(text@),
                data@ == apply_key_values(Map::empty(), pieces(text@).take(i as int), false),
            decreases lines@.len() - i,
        {
            let ghost ls = pieces(text@);
            assert(ls.take(i + 1).drop_last() =~= ls.take(i as int));
            assert(ls.take(i + 1).last() == lines@[i as int]@);
            match split_key_value(lines[i].as_str(), false) {
                Some((k, v)) => {
                    data.insert(k, v);
                },
                None => {},
            }
            i = i + 1;
        }
        assert(pieces(text@).take(i as int) =~= pieces(text@));
        MakelifeFile { data }
    }

    /// The value of `key`.
    pub fn get(&self, key: &str) -> (r: Option<&String>)
        ensures
            match r {
                Some(v) => self.data@.contains_key(key@) && v@ == self.data@[key@],
                None => !self.data@.contains_key(key@),
            },
    {
        self.data.get(key)
    }
}

} // verus!
