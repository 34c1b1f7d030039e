use navilang::error::{ErrorCollector, NaviLangError, Position, Span};

#[test]
fn test_position_advancement() {
    let mut pos = Position::new(1, 1, 0);

    pos.advance_column();
    assert_eq!(pos.column, 2);
    assert_eq!(pos.line, 1);

    pos.advance_line();
    assert_eq!(pos.line, 2);
    assert_eq!(pos.column, 1);

    pos.advance_offset(5);
    assert_eq!(pos.offset, 5);
}

#[test]
fn test_span_operations() {
    let start = Position::new(1, 1, 0);
    let end = Position::new(1, 5, 4);
    let span = Span::new(start, end);

    let miette_span = span.to_source_span();
    assert_eq!(miette_span.offset(), 0);
    assert_eq!(miette_span.len(), 4);
}

#[test]
fn test_error_collector() {
    let mut collector = ErrorCollector::new();
    assert!(!collector.has_errors());

    collector.add_error(NaviLangError::IoError(std::io::Error::new(
        std::io::ErrorKind::NotFound,
        "test",
    )));

    assert!(collector.has_errors());
    assert_eq!(collector.error_count(), 1);

    let result: Result<(), NaviLangError> = collector.into_result(());
    assert!(result.is_err());
}
