use vstd::prelude::*;

verus! {

/// A point in source text: 1-based line and column, 0-based byte offset.
#[derive(Debug, Clone, Copy, PartialEq, Eq, Structural)]
pub struct Position {
    pub line: usize,
    pub column: usize,
    pub offset: usize,
}

impl Position {
    pub fn new(line: usize, column: usize, offset: usize) -> (r: Self)
        ensures
            r == (Position { line, column, offset }),
    {
        Position { line, column, offset }
    }

    /// Moves to the first column of the next line.
    pub fn advance_line(&mut self)
        requires
            old(self).line < usize::MAX,
        ensures
            final(self).line == old(self).line + 1,
            final(self).column == 1,
            final(self).offset == old(self).offset,
    {
        self.line = self.line + 1;
        self.column = 1;
    }

    /// Moves one column to the right on the same line.
    pub fn advance_column(&mut self)
        requires
            old(self).column < usize::MAX,
        ensures
            final(self).line == old(self).line,
            final(self).column == old(self).column + 1,
            final(self).offset == old(self).offset,
    {
        self.column = self.column + 1;
    }

    /// Moves the byte offset forward by `count`.
    pub fn advance_offset(&mut self, count: usize)
        requires
            old(self).offset + count <= usize::MAX,
        ensures
            final(self).line == old(self).line,
            final(self).column == old(self).column,
            final(self).offset == old(self).offset + count,
    {
        self.offset = self.offset + count;
    }
}

/// A range of source text, half-open in bytes.
#[derive(Debug, Clone, Copy, PartialEq, Eq, Structural)]
pub struct Span {
    pub start: Position,
    pub end: Position,
}

/// A byte offset and a length: the form in which a diagnostic labels source.
#[derive(Debug, Clone, Copy, PartialEq, Eq, Structural)]
pub struct SourceSpan {
    pub offset: usize,
    pub len: usize,
}

impl SourceSpan {
    pub fn offset(&self) -> (r: usize)
        ensures
            r == self.offset,
    {
        self.offset
    }

    pub fn len(&self) -> (r: usize)
        ensures
            r == self.len,
    {
        self.len
    }
}

/// The span that covers both `a` and `b` and everything between them.
pub open spec fn combined(a: Span, b: Span) -> Span {
    Span {
        start: if a.start.offset <= b.start.offset { a.start } else { b.start },
        end: if a.end.offset >= b.end.offset { a.end } else { b.end },
    }
}

impl Span {
    pub fn new(start: Position, end: Position) -> (r: Self)
        ensures
            r == (Span { start, end }),
    {
        Span { start, end }
    }

    /// The span of the one byte at `pos`.
    pub fn single_char(pos: Position) -> (r: Self)
        requires
            pos.column < usize::MAX,
            pos.offset < usize::MAX,
        ensures
            r.start == pos,
            r.end.line == pos.line,
            r.end.column == pos.column + 1,
            r.end.offset == pos.offset + 1,
    {
        let mut end = pos;
        end.advance_column();
        end.advance_offset(1);
        Self::new(pos, end)
    }

    /// The byte offset and byte length of this span.
    pub fn to_source_span(&self) -> (r: SourceSpan)
        requires
            self.start.offset <= self.end.offset,
        ensures
            r.offset == self.start.offset,
            r.len == self.end.offset - self.start.offset,
    {
        SourceSpan { offset: self.start.offset, len: self.end.offset - self.start.offset }
    }

    /// Combines two spans into one that covers both.
    pub fn combine(&self, other: &Span) -> (r: Span)
        ensures
            r == combined(*self, *other),
    {
        let start = if self.start.offset <= other.start.offset {
            self.start
        } else {
            other.start
        };
        let end = if self.end.offset >= other.end.offset {
            self.end
        } else {
            other.end
        };
        Span::new(start, end)
    }
}

/// Combining two spans starts at the smaller start offset and ends at the
/// larger end offset, whether the spans overlap or not.
pub proof fn lemma_combine_bounds(a: Span, b: Span)
    ensures
        combined(a, b).start.offset == if a.start.offset <= b.start.offset {
            a.start.offset
        } else {
            b.start.offset
        },
        combined(a, b).end.offset == if a.end.offset >= b.end.offset {
            a.end.offset
        } else {
            b.end.offset
        },
        combined(a, b).start.offset <= a.start.offset,
        combined(a, b).start.offset <= b.start.offset,
        combined(a, b).end.offset >= a.end.offset,
        combined(a, b).end.offset >= b.end.offset,
{
}

/// Declares std's `io::Error`, which the I/O variant of `NaviLangError`
/// carries through unread.
#[verifier::external_type_specification]
#[verifier::external_body]
pub struct ExIoError(std::io::Error);

/// Declares anyhow's `Error`, which the generic variant of `NaviLangError`
/// carries through unread.
#[verifier::external_type_specification]
#[verifier::external_body]
pub struct ExAnyhowError(anyhow::Error);

/// A diagnostic of the NaviLang compiler.
///
/// The first five kinds carry the whole source text and the byte range that
/// they label. I/O and other failures are wrapped without a location. The
/// aggregate holds the errors of one validation pass, in the order they were
/// raised.
#[derive(Debug)]
pub enum NaviLangError {
    SyntaxError { message: String, src: String, span: SourceSpan },
    SemanticError { message: String, src: String, span: SourceSpan },
    TypeError { expected: String, found: String, src: String, span: SourceSpan },
    UnknownIdentifier { name: String, src: String, span: SourceSpan },
    FlowError { message: String, src: String, span: SourceSpan },
    IoError(std::io::Error),
    GenericError(anyhow::Error),
    MultipleErrors { errors: Vec<NaviLangError> },
}

/// The byte offset and byte length of `span`.
pub open spec fn source_span_of(span: Span) -> SourceSpan {
    SourceSpan { offset: span.start.offset, len: (span.end.offset - span.start.offset) as usize }
}

/// A span whose end does not lie before its start.
pub open spec fn well_ordered(span: Span) -> bool {
    span.start.offset <= span.end.offset
}

impl NaviLangError {
    pub fn syntax_error(message: String, src: String, span: Span) -> (r: Self)
        requires
            well_ordered(span),
        ensures
            r == (NaviLangError::SyntaxError { message, src, span: source_span_of(span) }),
    {
        NaviLangError::SyntaxError { message, src, span: span.to_source_span() }
    }

    pub fn semantic_error(message: String, src: String, span: Span) -> (r: Self)
        requires
            well_ordered(span),
        ensures
            r == (NaviLangError::SemanticError { message, src, span: source_span_of(span) }),
    {
        NaviLangError::SemanticError { message, src, span: span.to_source_span() }
    }

    pub fn type_error(expected: String, found: String, src: String, span: Span) -> (r: Self)
        requires
            well_ordered(span),
        ensures
            r == (NaviLangError::TypeError { expected, found, src, span: source_span_of(span) }),
    {
        NaviLangError::TypeError { expected, found, src, span: span.to_source_span() }
    }

    pub fn unknown_identifier(name: String, src: String, span: Span) -> (r: Self)
        requires
            well_ordered(span),
        ensures
            r == (NaviLangError::UnknownIdentifier { name, src, span: source_span_of(span) }),
    {
        NaviLangError::UnknownIdentifier { name, src, span: span.to_source_span() }
    }

    pub fn flow_error(message: String, src: String, span: Span) -> (r: Self)
        requires
            well_ordered(span),
        ensures
            r == (NaviLangError::FlowError { message, src, span: source_span_of(span) }),
    {
        NaviLangError::FlowError { message, src, span: span.to_source_span() }
    }
}

/// Gathers the errors of one validation pass, so that the pass can go on
/// past a failure and report every one of them at the end.
pub struct ErrorCollector {
    errors: Vec<NaviLangError>,
}

impl View for ErrorCollector {
    type V = Seq<NaviLangError>;

    closed spec fn view(&self) -> Seq<NaviLangError> {
        self.errors@
    }
}

impl ErrorCollector {
    pub fn new() -> (r: Self)
        ensures
            r@ == Seq::<NaviLangError>::empty(),
    {
        ErrorCollector { errors: Vec::new() }
    }

    pub fn add_error(&mut self, error: NaviLangError)
        ensures
            final(self)@ == old(self)@.push(error),
    {
        self.errors.push(error);
    }

    pub fn has_errors(&self) -> (r: bool)
        ensures
            r == (self@.len() > 0),
    {
        self.errors.len() > 0
    }

    pub fn error_count(&self) -> (r: usize)
        ensures
            r == self@.len(),
    {
        self.errors.len()
    }

    /// The value where nothing was recorded, the lone error where one was,
    /// and an aggregate of all of them, in order, where more were.
    pub fn into_result<T>(self, value: T) -> (r: Result<T, NaviLangError>)
        ensures
            self@.len() == 0 ==> r == Ok::<T, NaviLangError>(value),
            self@.len() == 1 ==> r == Err::<T, NaviLangError>(self@[0]),
            self@.len() >= 2 ==> (r matches Err(NaviLangError::MultipleErrors { errors })
                && errors@ == self@),
    {
        if self.errors.len() == 0 {
            Ok(value)
        } else if self.errors.len() == 1 {
            let mut errors = self.errors;
            Err(errors.remove(0))
        } else {
            Err(NaviLangError::MultipleErrors { errors: self.errors })
        }
    }

    pub fn errors(&self) -> (r: &[NaviLangError])
        ensures
            r@ == self@,
    {
        self.errors.as_slice()
    }
}

impl Default for ErrorCollector {
    fn default() -> (r: Self)
        ensures
            r@ == Seq::<NaviLangError>::empty(),
    {
        ErrorCollector::new()
    }
}

} // verus!
