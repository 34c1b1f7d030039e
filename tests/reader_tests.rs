use navilang::reader::SourceFile;

#[test]
fn test_source_file_from_string() {
    let content = "CONTEXT Test {\n  VAR User\n}".to_string();
    let source = SourceFile::from_string(content, "test.navi".to_string());

    assert_eq!(source.line_count(), 3);
    assert_eq!(source.path, "test.navi");
    assert_eq!(source.get_line(2), Some("  VAR User"));
}

#[test]
fn test_get_lines_range() {
    let content = "line1\nline2\nline3\nline4\nline5".to_string();
    let source = SourceFile::from_string(content, "test.navi".to_string());

    let lines = source.get_lines(2, 4);
    assert_eq!(lines, vec!["line2", "line3", "line4"]);

    let lines = source.get_lines(1, 1);
    assert_eq!(lines, vec!["line1"]);

    let lines = source.get_lines(4, 10);
    assert_eq!(lines, vec!["line4", "line5"]);
}
