use navilang::lexer::tokens::Token;
use navilang::lexer::Lexer;
use navilang::NaviLangError;

#[test]
fn test_basic_tokenization() {
    let input = "VAR User";
    let mut lexer = Lexer::new(input);
    let tokens = lexer.tokenize_filtered().unwrap();

    assert_eq!(tokens.len(), 2);
    assert_eq!(tokens[0].token, Token::Var);
    assert!(matches!(tokens[1].token, Token::Identifier(_)));

    if let Token::Identifier(name) = &tokens[1].token {
        assert_eq!(name, "User");
    }
}

#[test]
fn test_context_tokenization() {
    let input = r#"CONTEXT "User Management" {
            VAR User
        }"#;

    let mut lexer = Lexer::new(input);
    let tokens = lexer.tokenize_filtered().unwrap();

    assert!(tokens.iter().any(|t| t.token == Token::Context));
    assert!(tokens.iter().any(|t| matches!(t.token, Token::QuotedString(_))));
    assert!(tokens.iter().any(|t| t.token == Token::LeftBrace));
    assert!(tokens.iter().any(|t| t.token == Token::Var));
    assert!(tokens.iter().any(|t| t.token == Token::RightBrace));
}

#[test]
fn test_flow_statements() {
    let input = "User GOES TO Dashboard";
    let mut lexer = Lexer::new(input);
    let tokens = lexer.tokenize_filtered().unwrap();

    assert_eq!(tokens.len(), 4);
    assert!(matches!(tokens[0].token, Token::Identifier(_)));
    assert_eq!(tokens[1].token, Token::Goes);
    assert_eq!(tokens[2].token, Token::To);
    assert!(matches!(tokens[3].token, Token::Identifier(_)));
}

#[test]
fn test_type_annotations() {
    let input = "VAR User:Entity";
    let mut lexer = Lexer::new(input);
    let tokens = lexer.tokenize_filtered().unwrap();

    assert_eq!(tokens.len(), 4);
    assert_eq!(tokens[0].token, Token::Var);
    assert!(matches!(tokens[1].token, Token::Identifier(_)));
    assert_eq!(tokens[2].token, Token::Colon);
    assert_eq!(tokens[3].token, Token::Entity);
}

#[test]
fn test_numbers_and_durations() {
    let input = "TIMEOUT 30s";
    let mut lexer = Lexer::new(input);
    let tokens = lexer.tokenize_filtered().unwrap();

    assert_eq!(tokens.len(), 2);
    assert_eq!(tokens[0].token, Token::Timeout);
    assert!(matches!(tokens[1].token, Token::Duration(_)));
    assert_eq!(tokens[1].token, Token::Duration("30s".to_string()));
}

#[test]
fn test_quoted_strings() {
    let input = r#"CONTEXT "My Context""#;
    let mut lexer = Lexer::new(input);
    let tokens = lexer.tokenize_filtered().unwrap();

    assert_eq!(tokens.len(), 2);
    assert_eq!(tokens[0].token, Token::Context);

    if let Token::QuotedString(content) = &tokens[1].token {
        assert_eq!(content, "My Context");
    } else {
        panic!("Expected QuotedString token");
    }
}

#[test]
fn test_error_handling() {
    let input = "VAR User @invalid";
    let mut lexer = Lexer::new(input);
    let result = lexer.tokenize_filtered();

    assert!(result.is_err());
    if let Err(NaviLangError::SyntaxError { message, .. }) = result {
        assert!(message.contains("Unexpected character"));
    }
}

#[test]
fn test_position_tracking() {
    let input = "CONTEXT Test {\n  VAR User\n}";
    let mut lexer = Lexer::new(input);
    let tokens = lexer.tokenize_filtered().unwrap();

    assert!(tokens[0].span.start.line == 1);
    assert!(tokens[0].span.start.column == 1);

    let var_token = tokens.iter().find(|t| t.token == Token::Var).unwrap();
    assert_eq!(var_token.span.start.line, 2);
}
