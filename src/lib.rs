//! Lexical front end of the NaviLang flow-modeling language: a tokenizer that
//! turns source text into positioned tokens, and the diagnostic model that
//! reports lexical failures with exact source locations.
pub mod error;
pub mod lexer;
pub mod parser;
pub mod reader;
pub mod text;

pub use error::{ErrorCollector, NaviLangError, Position, Span};
pub use reader::SourceFile;

use vstd::prelude::*;
use vstd::utf8::encode_utf8;
use crate::lexer::{is_scan_error, scan_stop, Lexer};

verus! {

/// A source file and the program read from it.
#[derive(Debug)]
pub struct CompilationResult {
    pub ast: parser::ast::Program,
    pub source: SourceFile,
}

/// Runs a source file through the stages that exist: lexing, then parsing.
///
/// Fails with the lexer's syntax error where some character of the text is
/// accepted by no rule.
pub fn compile_source(source: SourceFile) -> (r: Result<CompilationResult, NaviLangError>)
    requires
        encode_utf8(source.content@).len() < usize::MAX,
    ensures
        match r {
            Ok(c) => c.source == source && scan_stop(source.content@, 0) == source.content@.len()
                && c.ast.contexts@.len() == 0,
            Err(e) => is_scan_error(source.content@, e),
        },
{
    let tokens = {
        let mut lexer = Lexer::new(source.content.as_str());
        lexer.tokenize_filtered()
    };
    let tokens = match tokens {
        Ok(t) => t,
        Err(e) => {
            return Err(e);
        },
    };
    let mut parser = parser::Parser::new(tokens);
    let ast = parser.parse()?;
    Ok(CompilationResult { ast, source })
}

} // verus!
