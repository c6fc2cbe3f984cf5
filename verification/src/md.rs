//! Markdown files kept as their lines.
use vstd::prelude::*;
use crate::text::{
    chars_of, count_words, is_ws, lemma_pieces_nonempty, pieces, split_pieces, views, word_count_of, words,
};

verus! {

/// A Markdown file: where it came from and its lines.
#[derive(Debug)]
pub struct MdFile {
    pub path: String,
    pub content: Vec<String>,
}

/// The number of words in all of `lines`.
pub open spec fn total_words(lines: Seq<Seq<char>>) -> nat
    decreases lines.len(),
{
    if lines.len() == 0 {
        0
    } else {
        total_words(lines.drop_last()) + word_count_of(lines.last())
    }
}

/// `s` ends with `"\r\n"`.
pub open spec fn ends_with_crlf(s: Seq<char>) -> bool {
    s.len() >= 2 && s[s.len() - 2] == '\r' && s.last() == '\n'
}

/// The lines of a Markdown text: the pieces between `'\n'` characters, a `'\r'` staying part
/// of its line. A final `'\n'` starts one more, empty, line, except that a final `"\r\n"`
/// only ends the last line. An empty text has no lines.
pub open spec fn md_lines(s: Seq<char>) -> Seq<Seq<char>> {
    if s.len() == 0 {
        Seq::empty()
    } else if ends_with_crlf(s) {
        pieces(s).drop_last()
    } else {
        pieces(s)
    }
}

/// The lines of `text`, as `md_lines` gives them.
fn md_lines_of(text: &str) -> (r: Vec<String>)
    ensures
        views(r@) == md_lines(text@),
{
    let v = chars_of(text);
    let n = v.len();
    if n == 0 {
        let r: Vec<String> = Vec::new();
        assert(views(r@) =~= md_lines(text@));
        return r;
    }
    let mut p = split_pieces(text);
    if n >= 2 && v[n - 2] == '\r' && v[n - 1] == '\n' {
        let ghost before = p@;
        p.pop();
        assert(views(p@) =~= views(before).drop_last());
    }
    p
}

impl MdFile {
    /// The Markdown file at `path` whose text is `text`, split into lines as `md_lines`
    /// describes.
    pub fn from_text(path: String, text: &str) -> (r: MdFile)
        ensures
            r.path@ == path@,
            views(r.content@) == md_lines(text@),
    {
        MdFile { path, content: md_lines_of(text) }
    }

    /// The number of whitespace-separated words in all lines.
    pub fn word_count(&self) -> (r: usize)
        requires
            total_words(views(self.content@)) <= usize::MAX,
        ensures
            r == total_words(views(self.content@)),
    {
        let mut total: usize = 0;
        let mut i: usize = 0;
        while i < self.content.len()
            invariant
                i <= self.content@.len(),
                total == total_words(views(self.content@).take(i as int)),
                total_words(views(self.content@)) <= usize::MAX,
            decreases self.content@.len() - i,
        {
            let ghost ls = views(self.content@);
            assert(ls.take(i + 1).drop_last() =~= ls.take(i as int));
            proof {
                lemma_total_words_prefix(ls, i + 1);
            }
            total = total + count_words(self.content[i].as_str());
            i = i + 1;
        }
        assert(views(self.content@).take(i as int) =~= views(self.content@));
        total
    }
}

proof fn lemma_total_words_prefix(ls: Seq<Seq<char>>, k: int)
    requires
        0 <= k <= ls.len(),
    ensures
        total_words(ls.take(k)) <= total_words(ls),
    decreases ls.len(),
{
    if k < ls.len() {
        assert(ls.drop_last().take(k) =~= ls.take(k));
        lemma_total_words_prefix(ls.drop_last(), k);
    } else {
        assert(ls.take(k) =~= ls);
    }
}

proof fn lemma_word_count_is_words(s: Seq<char>)
    ensures
        word_count_of(s) == words(s).len(),
        s.len() > 0 && !is_ws(s.last()) ==> words(s).len() > 0,
    decreases s.len(),
{
    if s.len() > 0 {
        lemma_word_count_is_words(s.drop_last());
        if s.len() > 1 {
            assert(s.drop_last().last() == s[s.len() - 2]);
        }
    }
}

proof fn lemma_last_piece(t: Seq<char>)
    ensures
        (pieces(t).last().len() == 0) == (t.len() == 0 || t.last() == '\n'),
        pieces(t).last().len() > 0 ==> pieces(t).last().last() == t.last(),
{
    if t.len() > 0 {
        lemma_pieces_nonempty(t.drop_last());
    }
}

proof fn lemma_total_words_pieces(s: Seq<char>)
    ensures
        total_words(pieces(s)) == word_count_of(s),
    decreases s.len(),
{
    if s.len() == 0 {
        assert(pieces(s) == seq![Seq::<char>::empty()]);
        assert(pieces(s).drop_last() =~= Seq::<Seq<char>>::empty());
        assert(word_count_of(pieces(s).last()) == 0);
        assert(total_words(pieces(s).drop_last()) == 0);
    } else {
        let t = s.drop_last();
        let c = s.last();
        lemma_total_words_pieces(t);
        lemma_pieces_nonempty(t);
        let p = pieces(t);
        assert(is_ws('\n'));
        if c == '\n' {
            assert(pieces(s).drop_last() =~= p);
        } else {
            lemma_last_piece(t);
            let l = p.last().push(c);
            assert(pieces(s).drop_last() =~= p.drop_last());
            assert(pieces(s).last() == l);
            assert(l.drop_last() =~= p.last());
            assert(t.len() > 0 ==> s[s.len() - 2] == t.last());
            if p.last().len() > 0 {
                assert(l[l.len() - 2] == p.last().last());
            }
            assert(word_count_of(l) == word_count_of(p.last()) + (if !is_ws(c) && (l.len() == 1 || is_ws(
                l[l.len() - 2],
            )) {
                1nat
            } else {
                0nat
            }));
            assert(total_words(pieces(s)) == total_words(p.drop_last()) + word_count_of(l));
            assert(total_words(p) == total_words(p.drop_last()) + word_count_of(p.last()));
        }
    }
}

/// The word count of a Markdown file is the number of whitespace-separated words of its text:
/// counting line by line neither loses nor adds a word at a line break.
pub proof fn lemma_md_word_count_of_text(text: Seq<char>)
    ensures
        total_words(md_lines(text)) == words(text).len(),
{
    lemma_total_words_pieces(text);
    lemma_word_count_is_words(text);
    lemma_pieces_nonempty(text);
    let p = pieces(text);
    if text.len() == 0 {
        assert(total_words(Seq::<Seq<char>>::empty()) == 0);
        assert(words(text).len() == 0);
    } else if ends_with_crlf(text) {
        assert(text.drop_last().last() == '\r');
        assert(p == pieces(text.drop_last()).push(Seq::<char>::empty()));
        assert(p.last().len() == 0);
        assert(word_count_of(p.last()) == 0);
    }
}

} // verus!
