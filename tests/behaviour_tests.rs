use navilang::error::{ErrorCollector, NaviLangError, Position, SourceSpan, Span};
use navilang::lexer::tokens::Token;
use navilang::lexer::Lexer;
use navilang::parser::Parser;
use navilang::reader::SourceFile;
use navilang::{compile_source, CompilationResult};

fn filtered(input: &str) -> Vec<Token> {
    let mut lexer = Lexer::new(input);
    lexer.tokenize_filtered().unwrap().into_iter().map(|t| t.token).collect()
}

fn syntax_error(input: &str) -> (String, String, SourceSpan) {
    let mut lexer = Lexer::new(input);
    match lexer.tokenize() {
        Err(NaviLangError::SyntaxError { message, src, span }) => (message, src, span),
        other => panic!("expected a syntax error, got {:?}", other),
    }
}

#[test]
fn every_keyword_in_mixed_case() {
    let words = [
        ("vAR", Token::Var), ("cOnTeXt", Token::Context), ("GoEs", Token::Goes), ("tO", Token::To),
        ("CREATED", Token::Created), ("bY", Token::By), ("If", Token::If), ("THEN", Token::Then),
        ("When", Token::When), ("CaLLs", Token::Calls), ("RECEIVES", Token::Receives),
        ("Returns", Token::Returns), ("dOES", Token::Does), ("USES", Token::Uses),
        ("iS", Token::Is), ("After", Token::After), ("BEFORE", Token::Before),
        ("Parallel", Token::Parallel), ("AND", Token::And), ("Or", Token::Or),
        ("RETRY", Token::Retry), ("TimeOut", Token::Timeout), ("ASYNC", Token::Async),
        ("Batch", Token::Batch), ("LOOP", Token::Loop), ("wHILE", Token::While),
        ("Break", Token::Break), ("CONTINUE", Token::Continue), ("ENTITY", Token::Entity),
        ("Service", Token::Service), ("EndPoint", Token::Endpoint), ("OBJECT", Token::Object),
        ("String", Token::StringType), ("NUMBER", Token::NumberType),
        ("Boolean", Token::BooleanType), ("TRUE", Token::True), ("False", Token::False),
    ];
    for (word, token) in words {
        assert_eq!(filtered(word), vec![token], "{}", word);
    }
}

#[test]
fn keyword_prefix_stays_identifier() {
    assert_eq!(filtered("Variable"), vec![Token::Identifier("Variable".to_string())]);
    assert_eq!(filtered("toX"), vec![Token::Identifier("toX".to_string())]);
    assert_eq!(filtered("_var"), vec![Token::Identifier("_var".to_string())]);
}

#[test]
fn timeout_duration_scenario() {
    assert_eq!(filtered("TIMEOUT 30s"), vec![Token::Timeout, Token::Duration("30s".to_string())]);
}

#[test]
fn quoted_string_scenario() {
    assert_eq!(
        filtered("CONTEXT \"My Context\""),
        vec![Token::Context, Token::QuotedString("My Context".to_string())]
    );
}

#[test]
fn unexpected_character_scenario() {
    let (message, src, span) = syntax_error("VAR User @invalid");
    assert_eq!(message, "Unexpected character: '@'");
    assert_eq!(src, "VAR User @invalid");
    assert_eq!(span, SourceSpan { offset: 9, len: 1 });
}

#[test]
fn position_of_var_scenario() {
    let mut lexer = Lexer::new("CONTEXT Test {\n  VAR User\n}");
    let tokens = lexer.tokenize_filtered().unwrap();
    let var = tokens.iter().find(|t| t.token == Token::Var).unwrap();
    assert_eq!(var.span.start, Position::new(2, 3, 17));
    assert_eq!(var.span.end, Position::new(2, 6, 20));
    let brace = tokens.last().unwrap();
    assert_eq!(brace.token, Token::RightBrace);
    assert_eq!(brace.span.start, Position::new(3, 1, 26));
}

#[test]
fn numeric_literals() {
    assert_eq!(filtered("42"), vec![Token::Number(Some(42))]);
    assert_eq!(filtered("3.50"), vec![Token::Float("3.50".to_string())]);
    assert_eq!(filtered("250ms"), vec![Token::Duration("250ms".to_string())]);
    assert_eq!(filtered("5m"), vec![Token::Duration("5m".to_string())]);
    assert_eq!(filtered("2h"), vec![Token::Duration("2h".to_string())]);
    assert_eq!(
        filtered("30sec"),
        vec![Token::Duration("30s".to_string()), Token::Identifier("ec".to_string())]
    );
    assert_eq!(filtered("9223372036854775807"), vec![Token::Number(Some(i64::MAX))]);
    assert_eq!(filtered("9223372036854775808"), vec![Token::Number(None)]);
}

#[test]
fn digits_then_point_without_fraction_fails() {
    let (message, _, span) = syntax_error("1.");
    assert_eq!(message, "Unexpected character: '.'");
    assert_eq!(span, SourceSpan { offset: 1, len: 1 });
}

#[test]
fn punctuation_and_operators() {
    assert_eq!(
        filtered("{}:[],()= != < > <= >="),
        vec![
            Token::LeftBrace, Token::RightBrace, Token::Colon, Token::LeftBracket,
            Token::RightBracket, Token::Comma, Token::LeftParen, Token::RightParen,
            Token::Equals, Token::NotEquals, Token::LessThan, Token::GreaterThan,
            Token::LessEqual, Token::GreaterEqual,
        ]
    );
    let (message, _, _) = syntax_error("a ! b");
    assert_eq!(message, "Unexpected character: '!'");
}

#[test]
fn whitespace_and_comments_in_full_stream() {
    let mut lexer = Lexer::new("a // note\r\n/* x\n y */\tb");
    let tokens: Vec<Token> = lexer.tokenize().unwrap().into_iter().map(|t| t.token).collect();
    assert_eq!(
        tokens,
        vec![
            Token::Identifier("a".to_string()), Token::Whitespace, Token::Comment, Token::Newline,
            Token::BlockComment, Token::Whitespace, Token::Identifier("b".to_string()),
        ]
    );
    assert_eq!(filtered("a // note\r\n/* x\n y */\tb").len(), 2);
}

#[test]
fn block_comment_spans_lines() {
    let mut lexer = Lexer::new("/* a\nbc */x");
    let tokens = lexer.tokenize().unwrap();
    assert_eq!(tokens[0].token, Token::BlockComment);
    assert_eq!(tokens[0].span.start, Position::new(1, 1, 0));
    assert_eq!(tokens[0].span.end, Position::new(2, 6, 10));
    assert_eq!(tokens[1].span.start, Position::new(2, 6, 10));
}

#[test]
fn escaped_quote_stays_in_string() {
    assert_eq!(filtered(r#""a\"b""#), vec![Token::QuotedString(r#"a\"b"#.to_string())]);
}

#[test]
fn unterminated_string_and_comment_fail() {
    let (message, _, span) = syntax_error("x \"open");
    assert_eq!(message, "Unexpected character: '\"'");
    assert_eq!(span, SourceSpan { offset: 2, len: 1 });
    let (message, _, _) = syntax_error("/* open");
    assert_eq!(message, "Unexpected character: '/'");
}

#[test]
fn multibyte_text_counts_bytes_and_columns() {
    let mut lexer = Lexer::new("\"é\" x");
    let tokens = lexer.tokenize().unwrap();
    assert_eq!(tokens[0].token, Token::QuotedString("é".to_string()));
    assert_eq!(tokens[0].span.end, Position::new(1, 4, 4));
    assert_eq!(tokens[2].span.start, Position::new(1, 5, 5));
    let (message, _, span) = syntax_error("a é");
    assert_eq!(message, "Unexpected character: 'é'");
    assert_eq!(span, SourceSpan { offset: 2, len: 2 });
}

#[test]
fn empty_input_gives_no_tokens() {
    let mut lexer = Lexer::new("");
    assert_eq!(lexer.tokenize().unwrap().len(), 0);
    assert_eq!(lexer.current_position(), Position::new(1, 1, 0));
}

#[test]
fn cursor_after_scan() {
    let mut lexer = Lexer::new("VAR x\n@");
    assert!(lexer.tokenize().is_err());
    assert_eq!(lexer.current_position(), Position::new(2, 1, 6));
    assert_eq!(lexer.current_slice(), "@");
}

#[test]
fn token_rendering() {
    assert_eq!(Token::Var.to_string(), "VAR");
    assert_eq!(Token::LessEqual.to_string(), "<=");
    assert_eq!(Token::StringType.to_string(), "String");
    assert_eq!(Token::True.to_string(), "true");
    assert_eq!(Token::Identifier("User".to_string()).to_string(), "User");
    assert_eq!(Token::QuotedString("hi".to_string()).to_string(), "\"hi\"");
    assert_eq!(Token::Number(Some(30)).to_string(), "30");
    assert_eq!(Token::Number(Some(-7)).to_string(), "-7");
    assert_eq!(Token::Number(None).to_string(), "invalid number");
    assert_eq!(Token::Float("1.25".to_string()).to_string(), "1.25");
    assert_eq!(Token::BlockComment.to_string(), "block comment");
}

#[test]
fn token_classes() {
    assert!(Token::Var.is_keyword());
    assert!(Token::Entity.is_keyword() && Token::Entity.is_type());
    assert!(!Token::Identifier("x".to_string()).is_keyword());
    assert!(Token::Comment.is_whitespace() && !Token::Colon.is_whitespace());
    assert!(Token::Duration("1s".to_string()).is_literal() && Token::False.is_literal());
    assert!(!Token::Var.is_literal());
}

#[test]
fn get_lines_edges() {
    let source = SourceFile::from_string("1\n2\n3\n4\n5".to_string(), "f".to_string());
    assert_eq!(source.get_lines(2, 4), vec!["2", "3", "4"]);
    assert_eq!(source.get_lines(4, 10), vec!["4", "5"]);
    assert!(source.get_lines(3, 1).is_empty());
    assert!(source.get_lines(6, 9).is_empty());
    assert_eq!(source.get_line(0), Some("1"));
    assert_eq!(source.get_line(6), None);
}

#[test]
fn lines_split_like_str_lines() {
    let source = SourceFile::from_string("a\r\nb\n\nc\n".to_string(), "f".to_string());
    assert_eq!(source.lines, vec!["a", "b", "", "c"]);
    let empty = SourceFile::from_string(String::new(), "f".to_string());
    assert_eq!(empty.line_count(), 0);
    let bare = SourceFile::from_string("x\r".to_string(), "f".to_string());
    assert_eq!(bare.lines, vec!["x\r"]);
}

fn semantic(n: usize) -> NaviLangError {
    let span = Span::new(Position::new(1, 1, n), Position::new(1, 2, n + 1));
    NaviLangError::semantic_error(format!("e{}", n), "src".to_string(), span)
}

#[test]
fn collector_outcomes() {
    let empty = ErrorCollector::new();
    assert!(matches!(empty.into_result(7), Ok(7)));

    let mut one = ErrorCollector::new();
    one.add_error(semantic(0));
    match one.into_result(7) {
        Err(NaviLangError::SemanticError { message, span, .. }) => {
            assert_eq!(message, "e0");
            assert_eq!(span, SourceSpan { offset: 0, len: 1 });
        }
        other => panic!("{:?}", other),
    }

    let mut many = ErrorCollector::default();
    many.add_error(semantic(1));
    many.add_error(semantic(2));
    assert_eq!(many.errors().len(), 2);
    match many.into_result(7) {
        Err(NaviLangError::MultipleErrors { errors }) => {
            let names: Vec<String> = errors
                .iter()
                .map(|e| match e {
                    NaviLangError::SemanticError { message, .. } => message.clone(),
                    _ => String::new(),
                })
                .collect();
            assert_eq!(names, vec!["e1", "e2"]);
        }
        other => panic!("{:?}", other),
    }
}

#[test]
fn error_constructors() {
    let span = Span::new(Position::new(1, 3, 2), Position::new(1, 7, 6));
    match NaviLangError::type_error("Entity".to_string(), "Number".to_string(), "s".to_string(), span) {
        NaviLangError::TypeError { expected, found, span, .. } => {
            assert_eq!((expected.as_str(), found.as_str()), ("Entity", "Number"));
            assert_eq!(span, SourceSpan { offset: 2, len: 4 });
        }
        other => panic!("{:?}", other),
    }
    assert!(matches!(
        NaviLangError::unknown_identifier("x".to_string(), "s".to_string(), span),
        NaviLangError::UnknownIdentifier { .. }
    ));
    assert!(matches!(
        NaviLangError::flow_error("f".to_string(), "s".to_string(), span),
        NaviLangError::FlowError { .. }
    ));
}

#[test]
fn combine_spans() {
    let a = Span::new(Position::new(1, 5, 4), Position::new(1, 9, 8));
    let b = Span::new(Position::new(1, 2, 1), Position::new(1, 6, 5));
    let c = a.combine(&b);
    assert_eq!(c.start.offset, 1);
    assert_eq!(c.end.offset, 8);
    let far = Span::new(Position::new(3, 1, 20), Position::new(3, 4, 23));
    let d = b.combine(&far);
    assert_eq!((d.start.offset, d.end.offset), (1, 23));
    assert_eq!(d.end.line, 3);
}

#[test]
fn single_char_span() {
    let s = Span::single_char(Position::new(2, 4, 10));
    assert_eq!(s.end, Position::new(2, 5, 11));
}

#[test]
fn parse_and_compile() {
    let mut parser = Parser::new(Vec::new());
    let program = parser.parse().unwrap();
    assert!(program.contexts.is_empty());
    assert_eq!(program.span.start, Position::new(1, 1, 0));

    let source = SourceFile::from_string("VAR User".to_string(), "a.navi".to_string());
    let result: CompilationResult = compile_source(source).unwrap();
    assert_eq!(result.source.path, "a.navi");
    let bad = SourceFile::from_string("VAR $".to_string(), "b.navi".to_string());
    assert!(matches!(compile_source(bad), Err(NaviLangError::SyntaxError { .. })));
}
