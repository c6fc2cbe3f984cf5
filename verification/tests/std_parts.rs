use sahne_fs::json::JsonFile;
use sahne_fs::makelife::MakelifeFile;
use sahne_fs::sources::{AdaFile, AssemblyFile, DartFile, FileArkTS, KoltinFile};
use sahne_fs::text::text_lines_of;

#[test]
fn test_ada_file_optimized() {
    let ada_file_optimized =
        AdaFile::from_text("test_ada_file_optimized.txt".to_string(), "Line 1\nLine 2\nLine 3\n");
    assert_eq!(ada_file_optimized.name, "test_ada_file_optimized.txt");
    assert_eq!(ada_file_optimized.lines.len(), 3);
    assert_eq!(ada_file_optimized.lines[0], "Line 1");
    assert_eq!(ada_file_optimized.lines[1], "Line 2");
    assert_eq!(ada_file_optimized.lines[2], "Line 3");
}

#[test]
fn test_read_assembly_file() {
    let assembly_file = AssemblyFile::from_text("MOV AX, 0x1234\nADD AX, BX\nINT 0x80\n");
    assert_eq!(assembly_file.lines.len(), 3);
    assert_eq!(assembly_file.lines[0], "MOV AX, 0x1234");
    assert_eq!(assembly_file.lines[1], "ADD AX, BX");
    assert_eq!(assembly_file.lines[2], "INT 0x80");
}

#[test]
fn test_read_dart_file() {
    let dart_file = DartFile::from_text("void main() {\n  print('Hello, Dart!');\n}\n");
    assert_eq!(dart_file.lines.len(), 3);
    assert_eq!(dart_file.lines[1], "  print('Hello, Dart!');");
}

#[test]
fn test_json_file_new_std() {
    let dummy_json_content = r#"{"name": "StdTest", "value": 42}"#;
    let json_file = JsonFile { content: dummy_json_content.to_string() };
    assert_eq!(json_file.content, dummy_json_content);
    assert_eq!(json_file.get_int("value"), Some(42));
}

#[test]
fn test_makelife_file_new_std() {
    let dummy_content = "\nTestKey1=TestValue1\nTestKey2 = TestValue2\n";
    let makelife_file = MakelifeFile::parse(dummy_content);
    assert_eq!(makelife_file.get("TestKey1"), Some(&String::from("TestValue1")));
    assert_eq!(makelife_file.get("TestKey2"), Some(&String::from("TestValue2")));
    assert_eq!(makelife_file.get("NonExistent"), None);
}

#[test]
fn test_koltin_file_read_write() {
    let lines_to_write = vec![
        "fun main() {".to_string(),
        "    println(\"Hello, Koltin!\")".to_string(),
        "}".to_string(),
    ];
    let written = KoltinFile::lines_text(&lines_to_write);
    let read_lines = text_lines_of(&written);
    assert_eq!(lines_to_write, read_lines);
}

#[test]
fn test_read_write() {
    let mut file_arkts = FileArkTS::new();
    file_arkts.content = "test içeriği\n".to_string();
    assert_eq!(file_arkts.content, "test içeriği\n");
    file_arkts.append_content(" ek içerik");
    let written = file_arkts.content.clone();
    let mut file_arkts2 = FileArkTS::new();
    file_arkts2.content = written;
    assert_eq!(file_arkts2.content, "test içeriği\nek içerik");
}

#[test]
fn arkts_append_keeps_spaces_inside_a_line() {
    let mut f = FileArkTS::new();
    f.append_content("a");
    f.append_content(" b");
    assert_eq!(f.content, "a b");
}

#[test]
fn arkts_append_after_line_break_keeps_other_leading_whitespace() {
    let mut f = FileArkTS::new();
    f.append_content("a\n");
    f.append_content("\tb");
    assert_eq!(f.content, "a\n\tb");
    let mut g = FileArkTS::new();
    g.append_content("a\n");
    g.append_content("  c");
    assert_eq!(g.content, "a\n c");
}
