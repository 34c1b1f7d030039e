//! Lexical analysis: source text to positioned tokens.
pub mod rules;
pub mod tokens;

use vstd::prelude::*;
use vstd::string::*;
use crate::error::{NaviLangError, Position, SourceSpan, Span};
use crate::lexer::rules::{
    denotes, lemma_keyword_named_is_spelled, lexeme_at, lexeme_len, token_for, word_end,
};
use crate::lexer::tokens::{keyword_spelling, Token};
use crate::text::{
    char_width, chars_of, column_at, folds_to, is_word_char, is_word_start,
    lemma_offset_is_encoded_len, lemma_offset_monotone, lemma_position_bounds, line_at, offset_at,
    spells_nocase, utf8_width,
};

verus! {

/// A token and the span of source that it occupies.
#[derive(Debug, Clone)]
pub struct TokenWithSpan {
    pub token: Token,
    pub span: Span,
}

/// Line, column and byte offset of character index `i` of `cs`.
pub open spec fn position_at(cs: Seq<char>, i: int) -> Position {
    Position {
        line: line_at(cs, i) as usize,
        column: column_at(cs, i) as usize,
        offset: offset_at(cs, i) as usize,
    }
}

/// The span of the characters `cs[start..end]`.
pub open spec fn span_between(cs: Seq<char>, start: int, end: int) -> Span {
    Span { start: position_at(cs, start), end: position_at(cs, end) }
}

/// Start indices of the lexemes that follow one another from `i`, up to the
/// end of the text or to the first place where no rule matches.
pub open spec fn lexeme_starts(cs: Seq<char>, i: int) -> Seq<int>
    decreases cs.len() - i,
{
    if i < 0 || i >= cs.len() || lexeme_len(cs, i) <= 0 || i + lexeme_len(cs, i) > cs.len() {
        Seq::empty()
    } else {
        seq![i] + lexeme_starts(cs, i + lexeme_len(cs, i))
    }
}

/// Where scanning from `i` stops: the end of the text, or the first index at
/// which no rule matches.
pub open spec fn scan_stop(cs: Seq<char>, i: int) -> int
    decreases cs.len() - i,
{
    if i < 0 || i >= cs.len() {
        cs.len() as int
    } else if lexeme_len(cs, i) <= 0 || i + lexeme_len(cs, i) > cs.len() {
        i
    } else {
        scan_stop(cs, i + lexeme_len(cs, i))
    }
}

/// `t` is the lexeme of `cs` that starts at `start`, with its token and span.
pub open spec fn lexeme_token(cs: Seq<char>, start: int, t: TokenWithSpan) -> bool {
    let end = start + lexeme_len(cs, start);
    &&& denotes(cs.subrange(start, end), t.token)
    &&& t.span == span_between(cs, start, end)
}

/// `ts` is the whole of `cs`, lexeme by lexeme, in order.
pub open spec fn is_full_scan(cs: Seq<char>, ts: Seq<TokenWithSpan>) -> bool {
    let starts = lexeme_starts(cs, 0);
    &&& scan_stop(cs, 0) == cs.len()
    &&& ts.len() == starts.len()
    &&& forall|k: int| 0 <= k < ts.len() ==> lexeme_token(cs, #[trigger] starts[k], ts[k])
}

/// Character range of the last lexeme among those that start at `starts`,
/// or the empty range at the start where there is none.
pub open spec fn last_lexeme(cs: Seq<char>, starts: Seq<int>) -> (int, int) {
    if starts.len() == 0 {
        (0, 0)
    } else {
        (starts.last(), starts.last() + lexeme_len(cs, starts.last()))
    }
}

/// The message that names a character no rule accepts.
pub open spec fn unexpected_message(c: char) -> Seq<char> {
    "Unexpected character: '"@ + seq![c] + "'"@
}

/// `e` is the syntax error for the first character of `cs` that no rule
/// accepts: it names that character, holds the whole text and labels the
/// character's bytes.
pub open spec fn is_scan_error(cs: Seq<char>, e: NaviLangError) -> bool {
    let p = scan_stop(cs, 0);
    &&& 0 <= p < cs.len()
    &&& e matches NaviLangError::SyntaxError { message, src, span }
    &&& message@ == unexpected_message(cs[p])
    &&& src@ == cs
    &&& span == (SourceSpan { offset: offset_at(cs, p) as usize, len: utf8_width(cs[p]) as usize })
}

/// The tokens of `ts` that are neither whitespace nor comments, in order.
pub open spec fn significant(ts: Seq<TokenWithSpan>) -> Seq<TokenWithSpan>
    decreases ts.len(),
{
    if ts.len() == 0 {
        Seq::empty()
    } else if ts.last().token.spec_is_whitespace() {
        significant(ts.drop_last())
    } else {
        significant(ts.drop_last()).push(ts.last())
    }
}

/// Every character of `w` from `i` on continues a word: the word runs to the end.
proof fn lemma_word_runs_to_end(w: Seq<char>, i: int)
    requires
        0 <= i <= w.len(),
        forall|m: int| i <= m < w.len() ==> is_word_char(#[trigger] w[m]),
    ensures
        word_end(w, i) == w.len(),
    decreases w.len() - i,
{
    if i < w.len() {
        lemma_word_runs_to_end(w, i + 1);
    }
}

/// Every reserved word, spelled in any mixture of ASCII upper and lower case,
/// scans as one lexeme: exactly that keyword, over the whole text.
pub proof fn lemma_keyword_any_case(t: Token, w: Seq<char>)
    requires
        t.spec_is_keyword(),
        spells_nocase(w, keyword_spelling(t)),
    ensures
        scan_stop(w, 0) == w.len(),
        lexeme_starts(w, 0) == seq![0int],
        forall|ts: Seq<TokenWithSpan>|
            is_full_scan(w, ts) ==> ts.len() == 1 && ts[0].token == t && ts[0].span
                == span_between(w, 0, w.len() as int),
{
    let kw = keyword_spelling(t);
    assert(kw.len() >= 2 && forall|m: int| 0 <= m < kw.len() ==> 'a' <= #[trigger] kw[m] <= 'z') by {
        reveal_strlit("var");
        reveal_strlit("context");
        reveal_strlit("goes");
        reveal_strlit("to");
        reveal_strlit("created");
        reveal_strlit("by");
        reveal_strlit("if");
        reveal_strlit("then");
        reveal_strlit("when");
        reveal_strlit("calls");
        reveal_strlit("receives");
        reveal_strlit("returns");
        reveal_strlit("does");
        reveal_strlit("uses");
        reveal_strlit("is");
        reveal_strlit("after");
        reveal_strlit("before");
        reveal_strlit("parallel");
        reveal_strlit("and");
        reveal_strlit("or");
        reveal_strlit("retry");
        reveal_strlit("timeout");
        reveal_strlit("async");
        reveal_strlit("batch");
        reveal_strlit("loop");
        reveal_strlit("while");
        reveal_strlit("break");
        reveal_strlit("continue");
        reveal_strlit("entity");
        reveal_strlit("service");
        reveal_strlit("endpoint");
        reveal_strlit("object");
        reveal_strlit("string");
        reveal_strlit("number");
        reveal_strlit("boolean");
        reveal_strlit("true");
        reveal_strlit("false");
    }
    assert forall|m: int| 0 <= m < w.len() implies is_word_char(#[trigger] w[m]) by {
        assert(folds_to(w[m], kw[m]));
    }
    assert(is_word_start(w[0])) by {
        assert(folds_to(w[0], kw[0]));
    }
    lemma_word_runs_to_end(w, 0);
    assert(lexeme_len(w, 0) == w.len());
    assert(lexeme_starts(w, w.len() as int) =~= Seq::<int>::empty());
    assert(lexeme_starts(w, 0) =~= seq![0int]);
    assert(w.subrange(0, w.len() as int) =~= w);
    assert(scan_stop(w, w.len() as int) == w.len());
    lemma_keyword_named_is_spelled(t, w);
    assert forall|ts: Seq<TokenWithSpan>| is_full_scan(w, ts) implies ts.len() == 1 && ts[0].token
        == t && ts[0].span == span_between(w, 0, w.len() as int) by {
        let starts = lexeme_starts(w, 0);
        assert(starts[0] == 0);
        assert(lexeme_token(w, starts[0], ts[0]));
    }
}

/// The lexemes from `i` follow one another without gap: each starts where the
/// one before it ends, and where scanning reaches the end the last one ends there.
proof fn lemma_starts_chain(cs: Seq<char>, i: int)
    requires
        0 <= i <= cs.len(),
        scan_stop(cs, i) == cs.len(),
    ensures
        ({
            let st = lexeme_starts(cs, i);
            &&& st.len() == 0 ==> i == cs.len()
            &&& st.len() > 0 ==> st[0] == i && st.last() + lexeme_len(cs, st.last()) == cs.len()
            &&& forall|k: int|
                0 <= k < st.len() - 1 ==> #[trigger] st[k + 1] == st[k] + lexeme_len(cs, st[k])
        }),
    decreases cs.len() - i,
{
    if i < cs.len() {
        let l = lexeme_len(cs, i);
        let rest = lexeme_starts(cs, i + l);
        lemma_starts_chain(cs, i + l);
        let st = lexeme_starts(cs, i);
        assert(st == seq![i] + rest);
        assert forall|k: int| 0 <= k < st.len() - 1 implies #[trigger] st[k + 1] == st[k]
            + lexeme_len(cs, st[k]) by {
            if k > 0 {
                assert(st[k] == rest[k - 1]);
                assert(st[k + 1] == rest[k]);
                assert(rest[(k - 1) + 1] == rest[k - 1] + lexeme_len(cs, rest[k - 1]));
            } else {
                assert(st[1] == rest[0]);
            }
        }
    }
}

/// The tokens of a full scan cover the text end to end: the first starts at
/// the beginning, each ends where the next begins, and the last ends at the
/// end of the text.
pub proof fn lemma_scan_covers_text(cs: Seq<char>, ts: Seq<TokenWithSpan>)
    requires
        is_full_scan(cs, ts),
        ts.len() > 0,
    ensures
        ts[0].span.start == position_at(cs, 0),
        forall|k: int| 0 <= k < ts.len() - 1 ==> (#[trigger] ts[k]).span.end == ts[k + 1].span.start,
        ts.last().span.end == position_at(cs, cs.len() as int),
{
    let st = lexeme_starts(cs, 0);
    lemma_starts_chain(cs, 0);
    assert(lexeme_token(cs, st[0], ts[0]));
    assert(lexeme_token(cs, st[ts.len() - 1], ts[ts.len() - 1]));
    assert forall|k: int| 0 <= k < ts.len() - 1 implies (#[trigger] ts[k]).span.end == ts[k
        + 1].span.start by {
        assert(lexeme_token(cs, st[k], ts[k]));
        assert(lexeme_token(cs, st[k + 1], ts[k + 1]));
        assert(st[k + 1] == st[k] + lexeme_len(cs, st[k]));
    }
}

/// Relies on `format!`: the message text with the character in quotes.
#[verifier::external_body]
fn unexpected_character(c: char) -> (r: String)
    ensures
        r@ == unexpected_message(c),
{
    format!("Unexpected character: '{}'", c)
}

/// Converts NaviLang source text into tokens.
pub struct Lexer<'a> {
    input: &'a str,
    chars: Vec<char>,
    line: usize,
    column: usize,
    offset: usize,
    pos: usize,
    slice_start: usize,
    slice_end: usize,
}

impl<'a> Lexer<'a> {
    /// The text being scanned.
    pub closed spec fn source(&self) -> Seq<char> {
        self.input@
    }

    /// Character index of the scanner.
    pub closed spec fn cursor(&self) -> int {
        self.pos as int
    }

    /// Character range of the lexeme last looked at.
    pub closed spec fn slice_range(&self) -> (int, int) {
        (self.slice_start as int, self.slice_end as int)
    }

    pub closed spec fn wf(&self) -> bool {
        &&& self.chars@ == self.input@
        &&& offset_at(self.chars@, self.chars@.len() as int) < usize::MAX
        &&& self.pos <= self.chars@.len()
        &&& self.line == line_at(self.chars@, self.pos as int)
        &&& self.column == column_at(self.chars@, self.pos as int)
        &&& self.offset == offset_at(self.chars@, self.pos as int)
        &&& self.slice_start <= self.slice_end <= self.chars@.len()
    }

    /// A lexer at the start of `input`.
    pub fn new(input: &'a str) -> (r: Self)
        requires
            input.spec_bytes().len() < usize::MAX,
        ensures
            r.wf(),
            r.source() == input@,
            r.cursor() == 0,
            r.slice_range() == (0int, 0int),
    {
        let chars = chars_of(input);
        proof {
            lemma_offset_is_encoded_len(chars@, chars@.len() as int);
            assert(chars@.take(chars@.len() as int) =~= chars@);
        }
        Lexer { input, chars, line: 1, column: 1, offset: 0, pos: 0, slice_start: 0, slice_end: 0 }
    }

    /// Moves the cursor forward to `end`, keeping line, column and offset.
    fn advance_to(&mut self, end: usize)
        requires
            old(self).wf(),
            old(self).pos <= end <= old(self).chars@.len(),
        ensures
            final(self).wf(),
            final(self).pos == end,
            final(self).input == old(self).input,
            final(self).chars@ == old(self).chars@,
            final(self).slice_start == old(self).slice_start,
            final(self).slice_end == old(self).slice_end,
    {
        let ghost cs = self.chars@;
        while self.pos < end
            invariant
                self.wf(),
                self.pos <= end <= cs.len(),
                cs == self.chars@,
                self.input == old(self).input,
                self.slice_start == old(self).slice_start,
                self.slice_end == old(self).slice_end,
            decreases end - self.pos,
        {
            let c = self.chars[self.pos];
            proof {
                lemma_position_bounds(cs, self.pos as int);
                lemma_position_bounds(cs, cs.len() as int);
                lemma_offset_monotone(cs, self.pos + 1, cs.len() as int);
            }
            if c == '\n' {
                self.line = self.line + 1;
                self.column = 1;
            } else {
                self.column = self.column + 1;
            }
            self.offset = self.offset + char_width(c);
            self.pos = self.pos + 1;
        }
    }

    /// Scans the whole input from its start, whitespace and comments included.
    ///
    /// Fails at the first character at which no rule matches, with a syntax
    /// error that names that one character and labels its bytes.
    pub fn tokenize(&mut self) -> (r: Result<Vec<TokenWithSpan>, NaviLangError>)
        requires
            old(self).wf(),
        ensures
            final(self).wf(),
            final(self).source() == old(self).source(),
            final(self).cursor() == scan_stop(old(self).source(), 0),
            match r {
                Ok(ts) => is_full_scan(old(self).source(), ts@) && final(self).slice_range()
                    == last_lexeme(old(self).source(), lexeme_starts(old(self).source(), 0)),
                Err(e) => is_scan_error(old(self).source(), e) && final(self).slice_range() == (
                    final(self).cursor(),
                    final(self).cursor() + 1,
                ),
            },
    {
        let ghost cs = self.chars@;
        self.pos = 0;
        self.line = 1;
        self.column = 1;
        self.offset = 0;
        self.slice_start = 0;
        self.slice_end = 0;
        let mut tokens: Vec<TokenWithSpan> = Vec::new();
        let ghost mut done: Seq<int> = Seq::empty();
        while self.pos < self.chars.len()
            invariant
                self.wf(),
                cs == self.chars@,
                cs == old(self).source(),
                self.input == old(self).input,
                lexeme_starts(cs, 0) == done + lexeme_starts(cs, self.pos as int),
                scan_stop(cs, 0) == scan_stop(cs, self.pos as int),
                tokens@.len() == done.len(),
                forall|k: int| 0 <= k < done.len() ==> lexeme_token(cs, #[trigger] done[k], tokens@[k]),
                (self.slice_start as int, self.slice_end as int) == last_lexeme(cs, done),
            decreases cs.len() - self.pos,
        {
            let len = lexeme_at(&self.chars, self.pos);
            if len == 0 {
                let c = self.chars[self.pos];
                proof {
                    lemma_offset_monotone(cs, self.pos + 1, cs.len() as int);
                }
                let width = char_width(c);
                let start = Position::new(self.line, self.column, self.offset);
                let end = Position::new(self.line, self.column, self.offset + width);
                self.slice_start = self.pos;
                self.slice_end = self.pos + 1;
                return Err(
                    NaviLangError::syntax_error(
                        unexpected_character(c),
                        self.input.to_owned(),
                        Span::new(start, end),
                    ),
                );
            }
            let start_index = self.pos;
            let end_index = self.pos + len;
            let token = token_for(&self.chars, start_index, end_index);
            let start = Position::new(self.line, self.column, self.offset);
            self.advance_to(end_index);
            let end = Position::new(self.line, self.column, self.offset);
            self.slice_start = start_index;
            self.slice_end = end_index;
            proof {
                done = done.push(start_index as int);
                assert(lexeme_starts(cs, start_index as int) == seq![start_index as int]
                    + lexeme_starts(cs, end_index as int));
            }
            tokens.push(TokenWithSpan { token, span: Span::new(start, end) });
        }
        proof {
            assert(done + Seq::<int>::empty() =~= done);
        }
        Ok(tokens)
    }

    /// Scans the whole input and keeps the tokens that are neither whitespace
    /// nor comments, in order. Fails as `tokenize` does.
    pub fn tokenize_filtered(&mut self) -> (r: Result<Vec<TokenWithSpan>, NaviLangError>)
        requires
            old(self).wf(),
        ensures
            final(self).wf(),
            final(self).source() == old(self).source(),
            final(self).cursor() == scan_stop(old(self).source(), 0),
            match r {
                Ok(ts) => exists|all: Seq<TokenWithSpan>|
                    is_full_scan(old(self).source(), all) && ts@ == significant(all),
                Err(e) => is_scan_error(old(self).source(), e),
            },
    {
        let mut tokens = self.tokenize()?;
        let ghost all = tokens@;
        let mut kept: Vec<TokenWithSpan> = Vec::new();
        let mut k: usize = 0;
        while k < tokens.len()
            invariant
                k <= tokens.len() == all.len(),
                forall|m: int| k <= m < all.len() ==> tokens@[m] == all[m],
                kept@ == significant(all.take(k as int)),
            decreases tokens.len() - k,
        {
            assert(all.take(k + 1).drop_last() =~= all.take(k as int));
            let mut t = TokenWithSpan { token: Token::Whitespace, span: tokens[k].span };
            core::mem::swap(&mut tokens[k], &mut t);
            if !t.token.is_whitespace() {
                kept.push(t);
            }
            k = k + 1;
        }
        assert(all.take(all.len() as int) =~= all);
        Ok(kept)
    }

    /// The text of the lexeme last looked at.
    pub fn current_slice(&self) -> (r: &str)
        requires
            self.wf(),
        ensures
            r@ == self.source().subrange(self.slice_range().0, self.slice_range().1),
    {
        self.input.substring_char(self.slice_start, self.slice_end)
    }

    /// Line, column and byte offset of the scanner.
    pub fn current_position(&self) -> (r: Position)
        requires
            self.wf(),
        ensures
            r == position_at(self.source(), self.cursor()),
    {
        Position::new(self.line, self.column, self.offset)
    }
}

} // verus!
