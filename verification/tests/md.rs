use sahne_fs::text::split_words;
use sahne_fs::md::MdFile;

#[test]
fn test_word_count() {
    let md_file = MdFile {
        path: String::from("dummy.md"),
        content: vec![
            String::from("This is a line with 6 words."),
            String::from("Another line."),
            String::from(" Single."),
            String::from(""),
            String::from(" Multiple   spaces "),
        ],
    };
    assert_eq!(md_file.word_count(), 6 + 2 + 1 + 0 + 3);
}

fn create_md_file_from_string(content: &str) -> MdFile {
    MdFile::from_text("test.md".to_string(), content)
}

#[test]
fn test_md_parsing_lines() {
    let simple_content = "Line 1\nLine 2\nLine 3";
    let md_file = create_md_file_from_string(simple_content);
    assert_eq!(md_file.content.len(), 3);
    assert_eq!(md_file.content[0], "Line 1");
    assert_eq!(md_file.content[1], "Line 2");
    assert_eq!(md_file.content[2], "Line 3");

    let content_with_empty_lines = "Line 1\n\nLine 3\n";
    let md_file_empty = create_md_file_from_string(content_with_empty_lines);
    assert_eq!(md_file_empty.content.len(), 4);
    assert_eq!(md_file_empty.content[0], "Line 1");
    assert_eq!(md_file_empty.content[1], "");
    assert_eq!(md_file_empty.content[2], "Line 3");
    assert_eq!(md_file_empty.content[3], "");

    let content_with_crlf = "Line 1\r\nLine 2\r\n";
    let md_file_crlf = create_md_file_from_string(content_with_crlf);
    assert_eq!(md_file_crlf.content.len(), 2);
    assert_eq!(md_file_crlf.content[0], "Line 1\r");
    assert_eq!(md_file_crlf.content[1], "Line 2\r");
}

#[test]
fn md_empty_text_has_no_lines() {
    assert_eq!(MdFile::from_text("d.md".to_string(), "").content.len(), 0);
    assert_eq!(MdFile::from_text("e.md".to_string(), "\n").content, vec!["", ""]);
}

#[test]
fn md_word_count_counts_unicode_spaces() {
    let md = MdFile::from_text("e.md".to_string(), "bir\u{a0}iki\tüç\ndört");
    assert_eq!(md.word_count(), 4);
}

#[test]
fn md_word_count_matches_words_of_whole_text() {
    let text = "a b\nc  d\n\n e\tf\n";
    let md = MdFile::from_text("x.md".to_string(), text);
    assert_eq!(md.word_count(), split_words(text).len());
    assert_eq!(md.word_count(), 6);
}
