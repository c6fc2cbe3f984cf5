use sahne_fs::json::JsonFile;

fn create_json_file_from_string(content: &str) -> JsonFile {
    JsonFile { content: String::from(content) }
}

#[test]
fn test_get_value() {
    let json_string = r#"{
              "name": "TestItem",
              "id": 12345,
              "active": true,
              "price": 99.99,
              "tags": ["a", "b", "c"],
              "details": {"color": "red"},
              "description": "a \"quoted\" string, with comma, in it"
          }"#;
    let json_file = create_json_file_from_string(json_string);

    assert_eq!(json_file.get_value("name").as_deref(), Some("TestItem"));
    assert_eq!(json_file.get_value("id").as_deref(), Some("12345"));
    assert_eq!(json_file.get_value("active").as_deref(), Some("true"));
    assert_eq!(json_file.get_value("price").as_deref(), Some("99.99"));
    assert_eq!(json_file.get_value("tags").as_deref(), Some("[\"a\", \"b\", \"c\"]"));
    assert_eq!(json_file.get_value("details").as_deref(), Some("{\"color\": \"red\"}"));
    assert_eq!(
        json_file.get_value("description").as_deref(),
        Some("a \"quoted\" string, with comma, in it")
    );

    assert_eq!(json_file.get_value("non_existent"), None);

    let json_string_formatted = r#"{
               "key1" : "value1"
               , "key2" : 123
           }"#;
    let json_file_formatted = create_json_file_from_string(json_string_formatted);
    assert_eq!(json_file_formatted.get_value("key1").as_deref(), Some("value1"));
    assert_eq!(json_file_formatted.get_value("key2").as_deref(), Some("123"));

    let json_string_whitespace = "{ \"key\" : \u{a0} \" value with spaces \" \u{a0} }";
    let json_file_whitespace = create_json_file_from_string(json_string_whitespace);
    assert_eq!(json_file_whitespace.get_value("key").as_deref(), Some(" value with spaces "));
}

#[test]
fn json_int_and_bool() {
    let f = create_json_file_from_string(r#"{"n": -42, "m": 18446744073709551616, "b": false, "s": "true", "x": 1.5}"#);
    assert_eq!(f.get_int("n"), Some(-42));
    assert_eq!(f.get_int("m"), None);
    assert_eq!(f.get_int("x"), None);
    assert_eq!(f.get_int("missing"), None);
    assert_eq!(f.get_bool("b"), Some(false));
    assert_eq!(f.get_bool("s"), Some(true));
    assert_eq!(f.get_bool("n"), None);
}

#[test]
fn json_nested_and_escapes() {
    let f = create_json_file_from_string(r#"{"a": [1, [2, 3], {"b": 4}], "c": "x\ny\\z", "d": [1, 2"#);
    assert_eq!(f.get_value("a").as_deref(), Some("[1, [2, 3], {\"b\": 4}]"));
    assert_eq!(f.get_value("c").as_deref(), Some("x\ny\\z"));
    assert_eq!(f.get_value("d").as_deref(), Some("[1, 2"));
}
