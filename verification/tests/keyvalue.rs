use sahne_fs::makelife::MakelifeFile;
use sahne_fs::properties::JavaProperties;

#[test]
fn test_makelife_parsing() {
    let simple_content = "Key1=Value1\nKey2 = Value2\n";
    let makelife = MakelifeFile::parse(simple_content);
    assert_eq!(makelife.get("Key1"), Some(&String::from("Value1")));
    assert_eq!(makelife.get("Key2"), Some(&String::from("Value2")));
    assert_eq!(makelife.get("NonExistent"), None);

    let content_with_spaces_comments_empty = r#"
# This is a comment
   KeyWithLeadingSpace = ValueWithTrailingSpace   
Empty = 
Another = Value with = equals sign
LastKey = LastValue
"#;
    let makelife_complex = MakelifeFile::parse(content_with_spaces_comments_empty);

    assert_eq!(makelife_complex.get("KeyWithLeadingSpace"), Some(&String::from("ValueWithTrailingSpace")));
    assert_eq!(makelife_complex.get("Empty"), Some(&String::from("")));
    assert_eq!(makelife_complex.get("Another"), Some(&String::from("Value with = equals sign")));
    assert_eq!(makelife_complex.get("LastKey"), Some(&String::from("LastValue")));
    assert_eq!(makelife_complex.get("# This is a comment"), None);
    assert_eq!(makelife_complex.get(""), None);
}

#[test]
fn makelife_later_lines_win_and_crlf_is_trimmed() {
    let m = MakelifeFile::parse("A=1\r\nB=2\r\nA=3");
    assert_eq!(m.get("A"), Some(&"3".to_string()));
    assert_eq!(m.get("B"), Some(&"2".to_string()));
}

#[test]
fn test_java_properties_optimized() {
    let mut props = JavaProperties::new();
    props.load_from_str("key1 = value1\n# Bu bir yorum satırı\nkey2=value2\n  key3 =   value3  \n");
    assert_eq!(props.get_property("key1"), Some(&"value1".to_string()));
    assert_eq!(props.get_property("key2"), Some(&"value2".to_string()));
    assert_eq!(props.get_property("key3"), Some(&"value3".to_string()));
    assert_eq!(props.get_property("yorum"), None);
    assert_eq!(props.get_property("# Bu bir yorum satırı"), None);

    let saved = props.save_to_string();
    let mut loaded = JavaProperties::new();
    loaded.load_from_str(&saved);
    for key in ["key1", "key2", "key3"] {
        assert_eq!(loaded.get_property(key), props.get_property(key));
    }
    assert_eq!(saved.lines().count(), 3);

    props.set_property("key1".to_string(), "other".to_string());
    assert_eq!(props.get_property("key1"), Some(&"other".to_string()));
}

#[test]
fn java_properties_comment_with_equals_is_skipped() {
    let mut props = JavaProperties::new();
    props.load_from_str("#a=b\n=empty key\nnoequals\n");
    assert_eq!(props.get_property("#a"), None);
    assert_eq!(props.get_property(""), Some(&"empty key".to_string()));
    assert_eq!(props.get_property("noequals"), None);
}
