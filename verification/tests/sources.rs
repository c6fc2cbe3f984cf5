use sahne_fs::sources::{
    AdaFile, AssemblyFile, BasicFile, DartFile, File, FileArkTS, FileGDScript, FileType, JavaScriptFile,
    JavaScriptParseError, JuliaFile, KoltinFile,
};

#[test]
fn test_javascript_file_creation_optimized() {
    let file = JavaScriptFile::new("test.js".to_string(), "console.log('Hello, world!');".to_string());
    assert_eq!(file.name(), "test.js");
    assert_eq!(file.file_type(), FileType::JavaScript);
    assert_eq!(file.content(), "console.log('Hello, world!');");
}

#[test]
fn test_javascript_file_parsing_optimized() {
    let content = "console.log('Hello, world!');";
    let parsed_content = JavaScriptFile::parse_optimized(content).unwrap();
    assert_eq!(parsed_content, content);
}

#[test]
fn test_javascript_file_execution_optimized() {
    let file = JavaScriptFile::new("test.js".to_string(), "console.log('Hello, world!');".to_string());
    let result = file.execute();
    assert!(result.is_err());
    assert_eq!(result.unwrap_err(), "JavaScript çalıştırma henüz desteklenmiyor.");
}

#[test]
fn javascript_parse_error_text() {
    let e = JavaScriptParseError::new("beklenmeyen sembol".to_string());
    assert_eq!(e.to_text(), "JavaScript ayrıştırma hatası: beklenmeyen sembol");
}

#[test]
fn test_is_koltin_file() {
    assert_eq!(KoltinFile::is_koltin_file("test.kt"), true);
    assert_eq!(KoltinFile::is_koltin_file("test.txt"), false);
    assert_eq!(KoltinFile::is_koltin_file("test"), false);
}

#[test]
fn koltin_extension_edge_cases() {
    assert!(KoltinFile::is_koltin_file("dir/main.kt"));
    assert!(!KoltinFile::is_koltin_file(".kt"));
    assert!(!KoltinFile::is_koltin_file("main.KT"));
    assert!(KoltinFile::is_koltin_extension(&Some("kt".to_string())));
    assert!(!KoltinFile::is_koltin_extension(&None));
    assert!(KoltinFile::is_koltin_file("a/b.kt/"));
    assert!(KoltinFile::is_koltin_file("a/b.kt/."));
    assert!(!KoltinFile::is_koltin_file("a/b.kt/.."));
    assert!(!KoltinFile::is_koltin_file("dir/.kt"));
    assert!(KoltinFile::is_koltin_file("x.y.kt"));
}

#[test]
fn koltin_lines_written_read_back() {
    let lines_to_write = vec![
        "fun main() {".to_string(),
        "    println(\"Hello, Koltin!\")".to_string(),
        "}".to_string(),
    ];
    let text = KoltinFile::lines_text(&lines_to_write);
    assert_eq!(text, "fun main() {\n    println(\"Hello, Koltin!\")\n}\n");
    let back = AssemblyFile::from_text(&text).lines;
    assert_eq!(back, lines_to_write);
    assert_eq!(KoltinFile::new("test.kt").path, "test.kt");
}

#[test]
fn ada_lines_are_trimmed_at_the_end() {
    let ada = AdaFile::from_text("test_ada_file_optimized.txt".to_string(), "Line 1\nLine 2  \r\nLine 3\n");
    assert_eq!(ada.name, "test_ada_file_optimized.txt");
    assert_eq!(ada.lines, vec!["Line 1", "Line 2", "Line 3"]);
    let direct = AdaFile::new("x".to_string(), vec!["a".to_string()]);
    assert_eq!(direct.lines.len(), 1);
}

#[test]
fn assembly_dart_julia_lines() {
    let assembly = AssemblyFile::from_text("MOV AX, 0x1234\nADD AX, BX\nINT 0x80\n");
    assert_eq!(assembly.lines, vec!["MOV AX, 0x1234", "ADD AX, BX", "INT 0x80"]);
    let dart = DartFile::from_text("void main() {\r\n  print('Hello, Dart!');\r\n}\r\n");
    assert_eq!(dart.lines.len(), 3);
    assert_eq!(dart.lines[1], "  print('Hello, Dart!');");
    let julia = JuliaFile::from_text(
        "test.jl".to_string(),
        "println(\"Hello, Julia!\")\nfunction add(a, b)\n    return a + b\nend",
    );
    assert_eq!(julia.lines.len(), 4);
    assert_eq!(julia.lines[0], "println(\"Hello, Julia!\")");
}

#[test]
fn gdscript_parse_splits_lines() {
    let script = FileGDScript { path: "a.gd".to_string(), content: "extends Node\n\nfunc _ready():\n\tpass".to_string() };
    assert_eq!(script.parse(), vec!["extends Node", "", "func _ready():", "\tpass"]);
}

#[test]
fn arkts_append_and_clear() {
    let mut file = FileArkTS::new();
    file.append_content("test içeriği\n");
    file.append_content("ek içerik");
    assert_eq!(file.content, "test içeriği\nek içerik");
    file.clear_content();
    assert_eq!(file.content, "");
}

#[test]
fn basic_line_editing() {
    let basic = BasicFile::new("prog.bas");
    assert_eq!(basic.path, "prog.bas");
    let text = "10 PRINT \"A\"\n20 GOTO 10\n";
    assert_eq!(BasicFile::line_of(text, 2), Some("20 GOTO 10".to_string()));
    assert_eq!(BasicFile::line_of(text, 0), None);
    assert_eq!(BasicFile::line_of(text, 3), None);
    assert_eq!(BasicFile::with_line(text, 0, "x").unwrap_err(), "Satır numarası 1'den büyük olmalı");
    assert_eq!(BasicFile::with_line(text, 4, "x").unwrap_err(), "Satır numarası dosya boyutunu aşıyor");
    let replaced = BasicFile::with_line(text, 1, "10 END").unwrap();
    assert_eq!(replaced, "10 END\n20 GOTO 10\n");
    let appended = BasicFile::with_line(text, 3, "30 END").unwrap();
    assert_eq!(BasicFile::line_of(&appended, 3), Some("30 END".to_string()));
    assert_eq!(BasicFile::with_line("", 1, "first").unwrap(), "first\n");
}
