//! The program tree of NaviLang.
use vstd::prelude::*;
use crate::error::Span;

verus! {

/// A whole source file: its contexts, in order.
#[derive(Debug, Clone)]
pub struct Program {
    pub contexts: Vec<Context>,
    pub span: Span,
}

/// A named context and the statements inside it.
#[derive(Debug, Clone)]
pub struct Context {
    pub name: String,
    pub statements: Vec<Statement>,
    pub span: Span,
}

/// One statement and where it stands.
#[derive(Debug, Clone, PartialEq, Eq, Structural)]
pub struct Statement {
    pub kind: StatementKind,
    pub span: Span,
}

/// The forms a statement can take.
#[derive(Debug, Clone, Copy, PartialEq, Eq, Structural)]
pub enum StatementKind {
    Placeholder,
}

} // verus!
