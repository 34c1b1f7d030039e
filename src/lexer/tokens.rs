//! The closed set of token kinds, their classes and their rendering.
use vstd::prelude::*;
use vstd::string::*;
use crate::text::spells_nocase;

verus! {

/// One lexeme of NaviLang source, classified.
///
/// Reserved words match in any mixture of ASCII case and carry no payload.
/// A floating-point literal carries its decimal text.
#[derive(Debug, Clone, PartialEq)]
pub enum Token {
    // Keywords
    Var,
    Context,
    Goes,
    To,
    Created,
    By,
    If,
    Then,
    When,
    Calls,
    Receives,
    Returns,
    Does,
    Uses,
    Is,
    After,
    Before,
    Parallel,
    And,
    Or,
    Retry,
    Timeout,
    Async,
    Batch,
    Loop,
    While,
    Break,
    Continue,
    // Punctuation and operators
    LeftBrace,
    RightBrace,
    Colon,
    LeftBracket,
    RightBracket,
    Comma,
    LeftParen,
    RightParen,
    Equals,
    NotEquals,
    LessThan,
    GreaterThan,
    LessEqual,
    GreaterEqual,
    // Identifiers and literals
    Identifier(String),
    QuotedString(String),
    Number(Option<i64>),
    Float(String),
    Duration(String),
    // Type annotations
    Entity,
    Service,
    Endpoint,
    Object,
    StringType,
    NumberType,
    BooleanType,
    // Boolean literals
    True,
    False,
    // Whitespace and comments
    Whitespace,
    Newline,
    Comment,
    BlockComment,
}

/// The lower-case spelling of a reserved word.
pub open spec fn keyword_spelling(t: Token) -> Seq<char> {
    match t {
        Token::Var => "var"@,
        Token::Context => "context"@,
        Token::Goes => "goes"@,
        Token::To => "to"@,
        Token::Created => "created"@,
        Token::By => "by"@,
        Token::If => "if"@,
        Token::Then => "then"@,
        Token::When => "when"@,
        Token::Calls => "calls"@,
        Token::Receives => "receives"@,
        Token::Returns => "returns"@,
        Token::Does => "does"@,
        Token::Uses => "uses"@,
        Token::Is => "is"@,
        Token::After => "after"@,
        Token::Before => "before"@,
        Token::Parallel => "parallel"@,
        Token::And => "and"@,
        Token::Or => "or"@,
        Token::Retry => "retry"@,
        Token::Timeout => "timeout"@,
        Token::Async => "async"@,
        Token::Batch => "batch"@,
        Token::Loop => "loop"@,
        Token::While => "while"@,
        Token::Break => "break"@,
        Token::Continue => "continue"@,
        Token::Entity => "entity"@,
        Token::Service => "service"@,
        Token::Endpoint => "endpoint"@,
        Token::Object => "object"@,
        Token::StringType => "string"@,
        Token::NumberType => "number"@,
        Token::BooleanType => "boolean"@,
        Token::True => "true"@,
        Token::False => "false"@,
        _ => Seq::empty(),
    }
}

/// The reserved word that `w` spells, in any mixture of ASCII case.
pub open spec fn keyword_named(w: Seq<char>) -> Option<Token> {
    if spells_nocase(w, "var"@) {
        Some(Token::Var)
    } else if spells_nocase(w, "context"@) {
        Some(Token::Context)
    } else if spells_nocase(w, "goes"@) {
        Some(Token::Goes)
    } else if spells_nocase(w, "to"@) {
        Some(Token::To)
    } else if spells_nocase(w, "created"@) {
        Some(Token::Created)
    } else if spells_nocase(w, "by"@) {
        Some(Token::By)
    } else if spells_nocase(w, "if"@) {
        Some(Token::If)
    } else if spells_nocase(w, "then"@) {
        Some(Token::Then)
    } else if spells_nocase(w, "when"@) {
        Some(Token::When)
    } else if spells_nocase(w, "calls"@) {
        Some(Token::Calls)
    } else if spells_nocase(w, "receives"@) {
        Some(Token::Receives)
    } else if spells_nocase(w, "returns"@) {
        Some(Token::Returns)
    } else if spells_nocase(w, "does"@) {
        Some(Token::Does)
    } else if spells_nocase(w, "uses"@) {
        Some(Token::Uses)
    } else if spells_nocase(w, "is"@) {
        Some(Token::Is)
    } else if spells_nocase(w, "after"@) {
        Some(Token::After)
    } else if spells_nocase(w, "before"@) {
        Some(Token::Before)
    } else if spells_nocase(w, "parallel"@) {
        Some(Token::Parallel)
    } else if spells_nocase(w, "and"@) {
        Some(Token::And)
    } else if spells_nocase(w, "or"@) {
        Some(Token::Or)
    } else if spells_nocase(w, "retry"@) {
        Some(Token::Retry)
    } else if spells_nocase(w, "timeout"@) {
        Some(Token::Timeout)
    } else if spells_nocase(w, "async"@) {
        Some(Token::Async)
    } else if spells_nocase(w, "batch"@) {
        Some(Token::Batch)
    } else if spells_nocase(w, "loop"@) {
        Some(Token::Loop)
    } else if spells_nocase(w, "while"@) {
        Some(Token::While)
    } else if spells_nocase(w, "break"@) {
        Some(Token::Break)
    } else if spells_nocase(w, "continue"@) {
        Some(Token::Continue)
    } else if spells_nocase(w, "entity"@) {
        Some(Token::Entity)
    } else if spells_nocase(w, "service"@) {
        Some(Token::Service)
    } else if spells_nocase(w, "endpoint"@) {
        Some(Token::Endpoint)
    } else if spells_nocase(w, "object"@) {
        Some(Token::Object)
    } else if spells_nocase(w, "string"@) {
        Some(Token::StringType)
    } else if spells_nocase(w, "number"@) {
        Some(Token::NumberType)
    } else if spells_nocase(w, "boolean"@) {
        Some(Token::BooleanType)
    } else if spells_nocase(w, "true"@) {
        Some(Token::True)
    } else if spells_nocase(w, "false"@) {
        Some(Token::False)
    } else {
        None
    }
}

/// The character of the decimal digit `d`.
pub open spec fn digit_char(d: int) -> char {
    if d == 0 {
        '0'
    } else if d == 1 {
        '1'
    } else if d == 2 {
        '2'
    } else if d == 3 {
        '3'
    } else if d == 4 {
        '4'
    } else if d == 5 {
        '5'
    } else if d == 6 {
        '6'
    } else if d == 7 {
        '7'
    } else if d == 8 {
        '8'
    } else {
        '9'
    }
}

/// Decimal digits of `n`, most significant first.
pub open spec fn digits_text(n: nat) -> Seq<char>
    decreases n,
{
    if n < 10 {
        seq![digit_char(n as int)]
    } else {
        digits_text(n / 10).push(digit_char((n % 10) as int))
    }
}

/// Decimal text of `n`, with a leading minus sign when negative.
pub open spec fn decimal_text(n: int) -> Seq<char> {
    if n < 0 {
        seq!['-'] + digits_text((-n) as nat)
    } else {
        digits_text(n as nat)
    }
}

/// Relies on i64's `to_string`: the decimal text of the value.
#[verifier::external_body]
fn i64_text(n: i64) -> (r: String)
    ensures
        r@ == decimal_text(n as int),
{
    n.to_string()
}

impl Token {
    pub open spec fn spec_is_keyword(&self) -> bool {
        *self is Var ||
        *self is Context ||
        *self is Goes ||
        *self is To ||
        *self is Created ||
        *self is By ||
        *self is If ||
        *self is Then ||
        *self is When ||
        *self is Calls ||
        *self is Receives ||
        *self is Returns ||
        *self is Does ||
        *self is Uses ||
        *self is Is ||
        *self is After ||
        *self is Before ||
        *self is Parallel ||
        *self is And ||
        *self is Or ||
        *self is Retry ||
        *self is Timeout ||
        *self is Async ||
        *self is Batch ||
        *self is Loop ||
        *self is While ||
        *self is Break ||
        *self is Continue ||
        *self is Entity ||
        *self is Service ||
        *self is Endpoint ||
        *self is Object ||
        *self is StringType ||
        *self is NumberType ||
        *self is BooleanType ||
        *self is True ||
        *self is False
    }

    pub open spec fn spec_is_whitespace(&self) -> bool {
        *self is Whitespace ||
        *self is Newline ||
        *self is Comment ||
        *self is BlockComment
    }

    pub open spec fn spec_is_type(&self) -> bool {
        *self is Entity ||
        *self is Service ||
        *self is Endpoint ||
        *self is Object ||
        *self is StringType ||
        *self is NumberType ||
        *self is BooleanType
    }

    pub open spec fn spec_is_literal(&self) -> bool {
        *self is QuotedString || *self is Number || *self is Float || *self is Duration
            || *self is True || *self is False
    }

    /// The text that stands for this token in messages.
    pub open spec fn spec_text(&self) -> Seq<char> {
        match *self {
            Token::Var => "VAR"@,
            Token::Context => "CONTEXT"@,
            Token::Goes => "GOES"@,
            Token::To => "TO"@,
            Token::Created => "CREATED"@,
            Token::By => "BY"@,
            Token::If => "IF"@,
            Token::Then => "THEN"@,
            Token::When => "WHEN"@,
            Token::Calls => "CALLS"@,
            Token::Receives => "RECEIVES"@,
            Token::Returns => "RETURNS"@,
            Token::Does => "DOES"@,
            Token::Uses => "USES"@,
            Token::Is => "IS"@,
            Token::After => "AFTER"@,
            Token::Before => "BEFORE"@,
            Token::Parallel => "PARALLEL"@,
            Token::And => "AND"@,
            Token::Or => "OR"@,
            Token::Retry => "RETRY"@,
            Token::Timeout => "TIMEOUT"@,
            Token::Async => "ASYNC"@,
            Token::Batch => "BATCH"@,
            Token::Loop => "LOOP"@,
            Token::While => "WHILE"@,
            Token::Break => "BREAK"@,
            Token::Continue => "CONTINUE"@,
            Token::Entity => "Entity"@,
            Token::Service => "Service"@,
            Token::Endpoint => "Endpoint"@,
            Token::Object => "Object"@,
            Token::StringType => "String"@,
            Token::NumberType => "Number"@,
            Token::BooleanType => "Boolean"@,
            Token::True => "true"@,
            Token::False => "false"@,
            Token::LeftBrace => "{"@,
            Token::RightBrace => "}"@,
            Token::Colon => ":"@,
            Token::LeftBracket => "["@,
            Token::RightBracket => "]"@,
            Token::Comma => ","@,
            Token::LeftParen => "("@,
            Token::RightParen => ")"@,
            Token::Equals => "="@,
            Token::NotEquals => "!="@,
            Token::LessThan => "<"@,
            Token::GreaterThan => ">"@,
            Token::LessEqual => "<="@,
            Token::GreaterEqual => ">="@,
            Token::Identifier(name) => name@,
            Token::QuotedString(s) => "\""@ + s@ + "\""@,
            Token::Number(Some(n)) => decimal_text(n as int),
            Token::Number(None) => "invalid number"@,
            Token::Float(f) => f@,
            Token::Duration(d) => d@,
            Token::Whitespace => "whitespace"@,
            Token::Newline => "newline"@,
            Token::Comment => "comment"@,
            Token::BlockComment => "block comment"@,
        }
    }

    /// Whether this token is a reserved word (type annotations and boolean
    /// literals included).
    pub fn is_keyword(&self) -> (r: bool)
        ensures
            r == self.spec_is_keyword(),
    {
        match self {
            Token::Var
            | Token::Context
            | Token::Goes
            | Token::To
            | Token::Created
            | Token::By
            | Token::If
            | Token::Then
            | Token::When
            | Token::Calls
            | Token::Receives
            | Token::Returns
            | Token::Does
            | Token::Uses
            | Token::Is
            | Token::After
            | Token::Before
            | Token::Parallel
            | Token::And
            | Token::Or
            | Token::Retry
            | Token::Timeout
            | Token::Async
            | Token::Batch
            | Token::Loop
            | Token::While
            | Token::Break
            | Token::Continue
            | Token::Entity
            | Token::Service
            | Token::Endpoint
            | Token::Object
            | Token::StringType
            | Token::NumberType
            | Token::BooleanType
            | Token::True
            | Token::False => true,
            _ => false,
        }
    }

    /// Whether this token is whitespace, a line break or a comment.
    pub fn is_whitespace(&self) -> (r: bool)
        ensures
            r == self.spec_is_whitespace(),
    {
        match self {
            Token::Whitespace | Token::Newline | Token::Comment | Token::BlockComment => true,
            _ => false,
        }
    }

    /// Whether this token is a type annotation.
    pub fn is_type(&self) -> (r: bool)
        ensures
            r == self.spec_is_type(),
    {
        match self {
            Token::Entity
            | Token::Service
            | Token::Endpoint
            | Token::Object
            | Token::StringType
            | Token::NumberType
            | Token::BooleanType => true,
            _ => false,
        }
    }

    /// Whether this token is a literal value.
    pub fn is_literal(&self) -> (r: bool)
        ensures
            r == self.spec_is_literal(),
    {
        match self {
            Token::QuotedString(_) | Token::Number(_) | Token::Float(_) | Token::Duration(_)
            | Token::True | Token::False => true,
            _ => false,
        }
    }

    /// The text that stands for this token in messages: the upper-case
    /// keyword, the symbol, the identifier, the quoted string with its quotes.
    pub fn to_string(&self) -> (r: String)
        ensures
            r@ == self.spec_text(),
    {
        match self {
            Token::Var => "VAR".to_owned(),
            Token::Context => "CONTEXT".to_owned(),
            Token::Goes => "GOES".to_owned(),
            Token::To => "TO".to_owned(),
            Token::Created => "CREATED".to_owned(),
            Token::By => "BY".to_owned(),
            Token::If => "IF".to_owned(),
            Token::Then => "THEN".to_owned(),
            Token::When => "WHEN".to_owned(),
            Token::Calls => "CALLS".to_owned(),
            Token::Receives => "RECEIVES".to_owned(),
            Token::Returns => "RETURNS".to_owned(),
            Token::Does => "DOES".to_owned(),
            Token::Uses => "USES".to_owned(),
            Token::Is => "IS".to_owned(),
            Token::After => "AFTER".to_owned(),
            Token::Before => "BEFORE".to_owned(),
            Token::Parallel => "PARALLEL".to_owned(),
            Token::And => "AND".to_owned(),
            Token::Or => "OR".to_owned(),
            Token::Retry => "RETRY".to_owned(),
            Token::Timeout => "TIMEOUT".to_owned(),
            Token::Async => "ASYNC".to_owned(),
            Token::Batch => "BATCH".to_owned(),
            Token::Loop => "LOOP".to_owned(),
            Token::While => "WHILE".to_owned(),
            Token::Break => "BREAK".to_owned(),
            Token::Continue => "CONTINUE".to_owned(),
            Token::Entity => "Entity".to_owned(),
            Token::Service => "Service".to_owned(),
            Token::Endpoint => "Endpoint".to_owned(),
            Token::Object => "Object".to_owned(),
            Token::StringType => "String".to_owned(),
            Token::NumberType => "Number".to_owned(),
            Token::BooleanType => "Boolean".to_owned(),
            Token::True => "true".to_owned(),
            Token::False => "false".to_owned(),
            Token::LeftBrace => "{".to_owned(),
            Token::RightBrace => "}".to_owned(),
            Token::Colon => ":".to_owned(),
            Token::LeftBracket => "[".to_owned(),
            Token::RightBracket => "]".to_owned(),
            Token::Comma => ",".to_owned(),
            Token::LeftParen => "(".to_owned(),
            Token::RightParen => ")".to_owned(),
            Token::Equals => "=".to_owned(),
            Token::NotEquals => "!=".to_owned(),
            Token::LessThan => "<".to_owned(),
            Token::GreaterThan => ">".to_owned(),
            Token::LessEqual => "<=".to_owned(),
            Token::GreaterEqual => ">=".to_owned(),
            Token::Identifier(name) => name.clone(),
            Token::QuotedString(s) => {
                let mut r = "\"".to_owned();
                r.append(s.as_str());
                r.append("\"");
                r
            },
            Token::Number(Some(n)) => i64_text(*n),
            Token::Number(None) => "invalid number".to_owned(),
            Token::Float(f) => f.clone(),
            Token::Duration(d) => d.clone(),
            Token::Whitespace => "whitespace".to_owned(),
            Token::Newline => "newline".to_owned(),
            Token::Comment => "comment".to_owned(),
            Token::BlockComment => "block comment".to_owned(),
        }
    }
}

} // verus!
