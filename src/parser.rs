//! Syntax analysis: tokens to a program tree.
pub mod ast;

use vstd::prelude::*;
use crate::error::{NaviLangError, Position, Span};
use crate::lexer::TokenWithSpan;

verus! {

/// The span at the very start of a source file.
pub open spec fn origin_span() -> Span {
    Span {
        start: Position { line: 1, column: 1, offset: 0 },
        end: Position { line: 1, column: 1, offset: 0 },
    }
}

/// Reads a program from a token stream.
pub struct Parser {
    tokens: Vec<TokenWithSpan>,
    current: usize,
}

impl Parser {
    pub closed spec fn tokens(&self) -> Seq<TokenWithSpan> {
        self.tokens@
    }

    pub closed spec fn current(&self) -> usize {
        self.current
    }

    pub fn new(tokens: Vec<TokenWithSpan>) -> (r: Self)
        ensures
            r.tokens() == tokens@,
            r.current() == 0,
    {
        Parser { tokens, current: 0 }
    }

    /// The program that the tokens hold. No statement form is read yet, so
    /// the program has no contexts and the span at the start of the file.
    pub fn parse(&mut self) -> (r: Result<ast::Program, NaviLangError>)
        ensures
            final(self).tokens() == old(self).tokens(),
            final(self).current() == old(self).current(),
            r matches Ok(p) && p.contexts@.len() == 0 && p.span == origin_span(),
    {
        let start = Position::new(1, 1, 0);
        let end = Position::new(1, 1, 0);
        Ok(ast::Program { contexts: Vec::new(), span: Span::new(start, end) })
    }
}

} // verus!
