//! Source files of several languages held in memory: their lines or their whole text.
use vstd::prelude::*;
use crate::text::{
    chars_of, join_lines, joined_lines, lemma_text_lines_of_joined,
    lemma_text_lines_single_line, raw_lines, single_line, strip_cr, substring, text_lines,
    text_lines_of, trim_end_of, views,
};
use vstd::string::StringExecFns;

verus! {

/// The kinds of files the library knows.
#[derive(Debug, Clone, Copy, PartialEq, Eq, Structural)]
pub enum FileType {
    JavaScript,
}

/// A file with a name, a kind and a text.
pub trait File {
    fn name(&self) -> &str;

    fn file_type(&self) -> FileType;

    fn content(&self) -> &str;
}

/// A JavaScript source file.
#[derive(Debug)]
pub struct JavaScriptFile {
    pub name: String,
    pub content: String,
}

/// An error met while parsing JavaScript.
#[derive(Debug, Clone)]
pub struct JavaScriptParseError {
    message: String,
}

impl JavaScriptParseError {
    pub closed spec fn message_view(&self) -> Seq<char> {
        self.message@
    }

    /// An error with the given message.
    pub fn new(message: String) -> (r: Self)
        ensures
            r.message_view() == message@,
    {
        JavaScriptParseError { message }
    }

    /// The text of the error.
    pub fn to_text(&self) -> (r: String)
        ensures
            r@ == "JavaScript ayrıştırma hatası: "@ + self.message_view(),
    {
        let mut r = "JavaScript ayrıştırma hatası: ".to_owned();
        r.append(self.message.as_str());
        r
    }
}

impl File for JavaScriptFile {
    fn name(&self) -> (r: &str)
        ensures
            r@ == self.name@,
    {
        self.name.as_str()
    }

    fn file_type(&self) -> (r: FileType)
        ensures
            r == FileType::JavaScript,
    {
        FileType::JavaScript
    }

    fn content(&self) -> (r: &str)
        ensures
            r@ == self.content@,
    {
        self.content.as_str()
    }
}

impl JavaScriptFile {
    /// A JavaScript file with the given name and text.
    pub fn new(name: String, content: String) -> (r: Self)
        ensures
            r.name@ == name@,
            r.content@ == content@,
    {
        JavaScriptFile { name, content }
    }

    /// Parses JavaScript source; the text is returned as it is.
    pub fn parse_optimized(content: &str) -> (r: Result<String, JavaScriptParseError>)
        ensures
            r matches Ok(s) && s@ == content@,
    {
        Ok(content.to_owned())
    }

    /// Running JavaScript is not supported: this always fails.
    pub fn execute(&self) -> (r: Result<(), String>)
        ensures
            r matches Err(m) && m@ == "JavaScript çalıştırma henüz desteklenmiyor."@,
    {
        Err("JavaScript çalıştırma henüz desteklenmiyor.".to_owned())
    }
}

/// An Ada source file: its name and its lines.
#[derive(Debug)]
pub struct AdaFile {
    pub name: String,
    pub lines: Vec<String>,
}

impl AdaFile {
    /// An Ada file with the given name and lines.
    pub fn new(name: String, lines: Vec<String>) -> (r: AdaFile)
        ensures
            r.name@ == name@,
            r.lines@ == lines@,
    {
        AdaFile { name, lines }
    }

    /// The Ada file named `name` whose text is `text`: each line read up to and including its
    /// `'\n'`, with trailing whitespace removed.
    pub fn from_text(name: String, text: &str) -> (r: AdaFile)
        ensures
            r.name@ == name@,
            views(r.lines@) == raw_lines(text@).map_values(|l: Seq<char>| trim_end_of(l)),
    {
        let raw = crate::text::raw_lines_of(text);
        let mut lines: Vec<String> = Vec::new();
        let mut i: usize = 0;
        while i < raw.len()
            invariant
                i <= raw@.len(),
                views(raw@) == raw_lines(text@),
                views(lines@) == raw_lines(text@).take(i as int).map_values(
                    |l: Seq<char>| trim_end_of(l),
                ),
            decreases raw@.len() - i,
        {
            let t = crate::text::trim_end(raw[i].as_str());
            let ghost before = lines@;
            lines.push(t);
            assert(raw_lines(text@).take(i + 1) =~= raw_lines(text@).take(i as int).push(
                raw@[i as int]@,
            ));
            assert(views(lines@) =~= views(before).push(t@));
            i = i + 1;
            assert(views(lines@) =~= raw_lines(text@).take(i as int).map_values(
                |l: Seq<char>| trim_end_of(l),
            ));
        }
        assert(raw_lines(text@).take(i as int) =~= raw_lines(text@));
        AdaFile { name, lines }
    }
}

/// `content` with `text` appended: after a final line break, without one leading space of
/// the text.
pub open spec fn appended(content: Seq<char>, text: Seq<char>) -> Seq<char> {
    if content.len() > 0 && content.last() == '\n' && text.len() > 0 && text[0] == ' ' {
        content + text.subrange(1, text.len() as int)
    } else {
        content + text
    }
}

/// An ArkTS source file held as text.
#[derive(Debug)]
pub struct FileArkTS {
    pub content: String,
}

impl FileArkTS {
    /// An empty file.
    pub fn new() -> (r: FileArkTS)
        ensures
            r.content@ == Seq::<char>::empty(),
    {
        FileArkTS { content: String::new() }
    }

    /// Appends `text` to the content. Where the content ends with a line break, the text
    /// starts a new line and one leading space of it is dropped.
    pub fn append_content(&mut self, text: &str)
        ensures
            final(self).content@ == appended(old(self).content@, text@),
    {
        let c = chars_of(self.content.as_str());
        let v = chars_of(text);
        let n = v.len();
        if c.len() > 0 && c[c.len() - 1] == '\n' && n > 0 && v[0] == ' ' {
            let rest = substring(text, 1, n);
            self.content.append(rest.as_str());
        } else {
            self.content.append(text);
        }
    }

    /// Empties the content.
    pub fn clear_content(&mut self)
        ensures
            final(self).content@ == Seq::<char>::empty(),
    {
        self.content = String::new();
    }
}

/// An assembly source file: its lines.
#[derive(Debug)]
pub struct AssemblyFile {
    pub lines: Vec<String>,
}

impl AssemblyFile {
    /// The assembly file whose text is `text`, split into lines as `str::lines` does.
    pub fn from_text(text: &str) -> (r: AssemblyFile)
        ensures
            views(r.lines@) == text_lines(text@),
    {
        AssemblyFile { lines: text_lines_of(text) }
    }
}

/// A Dart source file: its lines.
#[derive(Debug)]
pub struct DartFile {
    pub lines: Vec<String>,
}

impl DartFile {
    /// The Dart file whose text is `text`, split into lines as `str::lines` does.
    pub fn from_text(text: &str) -> (r: DartFile)
        ensures
            views(r.lines@) == text_lines(text@),
    {
        DartFile { lines: text_lines_of(text) }
    }
}

/// A Julia source file: its path and lines.
#[derive(Debug)]
pub struct JuliaFile {
    pub path: String,
    pub lines: Vec<String>,
}

impl JuliaFile {
    /// The Julia file at `path` whose text is `text`, split into lines as `str::lines` does.
    pub fn from_text(path: String, text: &str) -> (r: JuliaFile)
        ensures
            r.path@ == path@,
            views(r.lines@) == text_lines(text@),
    {
        JuliaFile { path, lines: text_lines_of(text) }
    }
}

/// A GDScript source file: its path and text.
#[derive(Debug)]
pub struct FileGDScript {
    pub path: String,
    pub content: String,
}

impl FileGDScript {
    /// The lines of the script, as `str::lines` splits them.
    pub fn parse(&self) -> (r: Vec<String>)
        ensures
            views(r@) == text_lines(self.content@),
    {
        text_lines_of(self.content.as_str())
    }
}

/// The index of the last `c` in `s`, or -1.
pub open spec fn last_index_of(s: Seq<char>, c: char) -> int
    decreases s.len(),
{
    if s.len() == 0 {
        -1
    } else if s.last() == c {
        s.len() - 1
    } else {
        last_index_of(s.drop_last(), c)
    }
}

/// The index of the last `c` in `s` lies in `s`, or is -1.
pub proof fn lemma_last_index_of(s: Seq<char>, c: char)
    ensures
        -1 <= last_index_of(s, c) < s.len(),
    decreases s.len(),
{
    if s.len() > 0 {
        lemma_last_index_of(s.drop_last(), c);
    }
}

/// The file name of a path with `/` as its separator, as `std::path::Path::file_name` gives it
/// on Unix: the last component that is neither empty nor `.`; none where that is `..` or
/// there is none.
pub open spec fn path_file_name(p: Seq<char>) -> Option<Seq<char>>
    decreases p.len(),
{
    if p.len() == 0 {
        None
    } else {
        let k = last_index_of(p, '/');
        let seg = p.subrange(k + 1, p.len() as int);
        if seg.len() == 0 || seg == seq!['.'] {
            if k < 0 {
                None
            } else {
                proof {
                    lemma_last_index_of(p, '/');
                }
                path_file_name(p.subrange(0, k))
            }
        } else if seg == seq!['.', '.'] {
            None
        } else {
            Some(seg)
        }
    }
}

/// What `std::path::Path::extension` gives for a path (on Unix): the part of its file name
/// after the last `.`, where that `.` does not start the name.
pub open spec fn path_extension(path: Seq<char>) -> Option<Seq<char>> {
    match path_file_name(path) {
        Some(f) => {
            let i = last_index_of(f, '.');
            if i <= 0 {
                None
            } else {
                Some(f.subrange(i + 1, f.len() as int))
            }
        },
        None => None,
    }
}

/// `std::path::Path::extension` of `path`, as text: the extension `path_extension` describes.
#[verifier::external_body]
fn extension_of(path: &str) -> (r: Option<String>)
    ensures
        match r {
            Some(e) => path_extension(path@) == Some(e@),
            None => path_extension(path@) is None,
        },
{
    match std::path::Path::new(path).extension() {
        Some(e) => Some(e.to_string_lossy().into_owned()),
        None => None,
    }
}

/// A Kotlin source file, known by its path.
#[derive(Debug)]
pub struct KoltinFile {
    pub path: String,
}

impl KoltinFile {
    /// The Kotlin file at `path`.
    pub fn new(path: &str) -> (r: Self)
        ensures
            r.path@ == path@,
    {
        KoltinFile { path: path.to_owned() }
    }

    /// Whether an extension is `kt`.
    pub fn is_koltin_extension(ext: &Option<String>) -> (r: bool)
        ensures
            r == (ext matches Some(e) && e@ == "kt"@),
    {
        match ext {
            Some(e) => crate::text::text_eq(e.as_str(), "kt"),
            None => false,
        }
    }

    /// Whether `path` names a Kotlin file: its extension is `kt`.
    pub fn is_koltin_file(path: &str) -> (r: bool)
        ensures
            r == (path_extension(path@) == Some("kt"@)),
    {
        let ext = extension_of(path);
        Self::is_koltin_extension(&ext)
    }

    /// The text written for `lines`: each line followed by `'\n'`.
    pub fn lines_text(lines: &Vec<String>) -> (r: String)
        ensures
            r@ == joined_lines(views(lines@)),
    {
        join_lines(lines)
    }
}

/// Line `n` (counted from 1) of the lines `ls`, if there is one.
pub open spec fn line_number_of(ls: Seq<Seq<char>>, n: int) -> Option<Seq<char>> {
    if 1 <= n <= ls.len() {
        Some(ls[n - 1])
    } else {
        None
    }
}

/// `ls` with line `n` (counted from 1) set to `t`; one past the last line appends `t`.
pub open spec fn with_line_set(ls: Seq<Seq<char>>, n: int, t: Seq<char>) -> Seq<Seq<char>> {
    if n == ls.len() + 1 {
        ls.push(t)
    } else {
        ls.update(n - 1, t)
    }
}

/// A BASIC source file, known by its path.
#[derive(Debug)]
pub struct BasicFile {
    pub path: String,
}

impl BasicFile {
    /// The BASIC file at `path`.
    pub fn new(path: &str) -> (r: BasicFile)
        ensures
            r.path@ == path@,
    {
        BasicFile { path: path.to_owned() }
    }

    /// Line `line_number` (counted from 1) of the text `text`, if it has that many lines.
    pub fn line_of(text: &str, line_number: usize) -> (r: Option<String>)
        ensures
            match line_number_of(text_lines(text@), line_number as int) {
                Some(l) => r matches Some(s) && s@ == l,
                None => r is None,
            },
    {
        let lines = text_lines_of(text);
        if line_number >= 1 && line_number <= lines.len() {
            Some(lines[line_number - 1].clone())
        } else {
            None
        }
    }

    /// The new text of a file whose text was `existing`, once line `line_number` (counted
    /// from 1) is set to `text`: one past the last line appends it. Line 0 and lines further
    /// on are refused.
    pub fn with_line(existing: &str, line_number: usize, text: &str) -> (r: Result<String, String>)
        ensures
            line_number == 0 ==> (r matches Err(m) && m@ == "Satır numarası 1'den büyük olmalı"@),
            line_number > text_lines(existing@).len() + 1 ==> (r matches Err(m) && m@
                == "Satır numarası dosya boyutunu aşıyor"@),
            1 <= line_number <= text_lines(existing@).len() + 1 ==> (r matches Ok(s) && s@
                == joined_lines(with_line_set(text_lines(existing@), line_number as int, text@))),
    {
        if line_number == 0 {
            return Err("Satır numarası 1'den büyük olmalı".to_owned());
        }
        let mut lines = text_lines_of(existing);
        if line_number - 1 > lines.len() {
            return Err("Satır numarası dosya boyutunu aşıyor".to_owned());
        }
        let ghost before = lines@;
        if line_number > lines.len() {
            lines.push(text.to_owned());
            assert(views(lines@) =~= views(before).push(text@));
        } else {
            lines.set(line_number - 1, text.to_owned());
            assert(views(lines@) =~= views(before).update(line_number - 1, text@));
        }
        Ok(join_lines(&lines))
    }
}

/// Setting line `n` of a text to a one-line `t` and reading line `n` back gives `t`, less one
/// final `'\r'`.
pub proof fn lemma_basic_write_read(existing: Seq<char>, n: int, t: Seq<char>)
    requires
        1 <= n <= text_lines(existing).len() + 1,
        single_line(t),
    ensures
        line_number_of(text_lines(joined_lines(with_line_set(text_lines(existing), n, t))), n)
            == Some(strip_cr(t)),
{
    let ls = text_lines(existing);
    let edited = with_line_set(ls, n, t);
    lemma_text_lines_single_line(existing);
    assert forall|i: int| 0 <= i < edited.len() implies single_line(#[trigger] edited[i]) by {
        if i != n - 1 {
            assert(edited[i] == ls[i]);
        }
    }
    lemma_text_lines_of_joined(edited);
}

/// Reading back, line by line, the text that setting line `n` to a one-line `t` writes gives
/// the edited lines, each less one final `'\r'`.
pub proof fn lemma_basic_with_line_read_back(existing: Seq<char>, n: int, t: Seq<char>)
    requires
        1 <= n <= text_lines(existing).len() + 1,
        single_line(t),
    ensures
        text_lines(joined_lines(with_line_set(text_lines(existing), n, t))) == with_line_set(
            text_lines(existing),
            n,
            t,
        ).map_values(|l: Seq<char>| strip_cr(l)),
{
    let ls = text_lines(existing);
    let edited = with_line_set(ls, n, t);
    lemma_text_lines_single_line(existing);
    assert forall|i: int| 0 <= i < edited.len() implies single_line(#[trigger] edited[i]) by {
        if i != n - 1 {
            assert(edited[i] == ls[i]);
        }
    }
    lemma_text_lines_of_joined(edited);
}

} // verus!
