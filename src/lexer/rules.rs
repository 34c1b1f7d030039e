//! The matching rules of the NaviLang lexer: at each position the longest
//! lexeme that any rule accepts, and the token that it stands for.
use vstd::prelude::*;
use vstd::string::*;
use crate::lexer::tokens::{keyword_named, keyword_spelling, Token};
use crate::text::{folds_to, is_ascii_digit, is_word_char, is_word_start, spells_nocase, string_of};

verus! {

pub open spec fn is_blank(c: char) -> bool {
    c == ' ' || c == '\t' || c == '\x0C'
}

/// End of the run of identifier characters that starts at `i`.
pub open spec fn word_end(cs: Seq<char>, i: int) -> int
    decreases cs.len() - i,
{
    if 0 <= i < cs.len() && is_word_char(cs[i]) {
        word_end(cs, i + 1)
    } else {
        i
    }
}

/// End of the run of decimal digits that starts at `i`.
pub open spec fn digits_end(cs: Seq<char>, i: int) -> int
    decreases cs.len() - i,
{
    if 0 <= i < cs.len() && is_ascii_digit(cs[i]) {
        digits_end(cs, i + 1)
    } else {
        i
    }
}

/// End of the run of spaces, tabs and form feeds that starts at `i`.
pub open spec fn blank_end(cs: Seq<char>, i: int) -> int
    decreases cs.len() - i,
{
    if 0 <= i < cs.len() && is_blank(cs[i]) {
        blank_end(cs, i + 1)
    } else {
        i
    }
}

/// End of the text before the next carriage return or line feed.
pub open spec fn line_rest_end(cs: Seq<char>, i: int) -> int
    decreases cs.len() - i,
{
    if 0 <= i < cs.len() && cs[i] != '\r' && cs[i] != '\n' {
        line_rest_end(cs, i + 1)
    } else {
        i
    }
}

/// Inside a quoted string at `i`: the index just past the closing quote, or
/// -1 where the string is not closed. A backslash takes the next character
/// along, unless that is a line feed.
pub open spec fn string_end(cs: Seq<char>, i: int) -> int
    decreases cs.len() - i,
{
    if i < 0 || i >= cs.len() {
        -1
    } else if cs[i] == '"' {
        i + 1
    } else if cs[i] == '\\' {
        if i + 1 < cs.len() && cs[i + 1] != '\n' {
            string_end(cs, i + 2)
        } else {
            -1
        }
    } else {
        string_end(cs, i + 1)
    }
}

/// Inside a block comment at `i`: the index just past the closing `*/`, or
/// -1 where the comment is not closed. A star followed by anything but a slash
/// is taken together with that character.
pub open spec fn block_end(cs: Seq<char>, i: int) -> int
    decreases cs.len() - i,
{
    if i < 0 || i >= cs.len() {
        -1
    } else if cs[i] == '*' {
        if i + 1 < cs.len() {
            if cs[i + 1] == '/' {
                i + 2
            } else {
                block_end(cs, i + 2)
            }
        } else {
            -1
        }
    } else {
        block_end(cs, i + 1)
    }
}

pub open spec fn is_duration_unit(c: char) -> bool {
    c == 's' || c == 'm' || c == 'h'
}

/// End of the numeric lexeme at `i`: a float (digits, point, digits), a
/// duration (digits and one of `ms`, `s`, `m`, `h`), or an integer.
pub open spec fn number_end(cs: Seq<char>, i: int) -> int {
    let d = digits_end(cs, i);
    if d + 1 < cs.len() && cs[d] == '.' && is_ascii_digit(cs[d + 1]) {
        digits_end(cs, d + 1)
    } else if d + 1 < cs.len() && cs[d] == 'm' && cs[d + 1] == 's' {
        d + 2
    } else if d < cs.len() && is_duration_unit(cs[d]) {
        d + 1
    } else {
        d
    }
}

pub open spec fn next_is(cs: Seq<char>, i: int, c: char) -> bool {
    i + 1 < cs.len() && cs[i + 1] == c
}

pub open spec fn is_single_punct(c: char) -> bool {
    c == '{' || c == '}' || c == ':' || c == '[' || c == ']' || c == ',' || c == '('
        || c == ')' || c == '='
}

/// Length of the longest lexeme that starts at `i`; 0 where no rule matches.
pub open spec fn lexeme_len(cs: Seq<char>, i: int) -> int {
    let c = cs[i];
    if is_word_start(c) {
        word_end(cs, i) - i
    } else if is_ascii_digit(c) {
        number_end(cs, i) - i
    } else if c == '"' {
        let e = string_end(cs, i + 1);
        if e < 0 {
            0
        } else {
            e - i
        }
    } else if is_blank(c) {
        blank_end(cs, i) - i
    } else if c == '\n' {
        1
    } else if c == '\r' {
        if next_is(cs, i, '\n') {
            2
        } else {
            0
        }
    } else if c == '/' {
        if next_is(cs, i, '/') {
            line_rest_end(cs, i + 2) - i
        } else if next_is(cs, i, '*') {
            let e = block_end(cs, i + 2);
            if e < 0 {
                0
            } else {
                e - i
            }
        } else {
            0
        }
    } else if c == '!' {
        if next_is(cs, i, '=') {
            2
        } else {
            0
        }
    } else if c == '<' || c == '>' {
        if next_is(cs, i, '=') {
            2
        } else {
            1
        }
    } else if is_single_punct(c) {
        1
    } else {
        0
    }
}

/// Value of a run of decimal digits.
pub open spec fn digits_value(s: Seq<char>) -> nat
    decreases s.len(),
{
    if s.len() == 0 {
        0
    } else {
        digits_value(s.drop_last()) * 10 + ((s.last() as int) - ('0' as int)) as nat
    }
}

/// The integer that a run of digits stands for, where it fits in an `i64`.
pub open spec fn number_payload(s: Seq<char>) -> Option<i64> {
    if digits_value(s) <= i64::MAX {
        Some(digits_value(s) as i64)
    } else {
        None
    }
}

/// The token that the lexeme `text` stands for.
pub open spec fn denotes(text: Seq<char>, t: Token) -> bool {
    let c = text[0];
    if is_word_start(c) {
        match keyword_named(text) {
            Some(k) => t == k,
            None => t matches Token::Identifier(s) && s@ == text,
        }
    } else if is_ascii_digit(c) {
        let d = digits_end(text, 0);
        if d == text.len() {
            t == Token::Number(number_payload(text))
        } else if text[d] == '.' {
            t matches Token::Float(s) && s@ == text
        } else {
            t matches Token::Duration(s) && s@ == text
        }
    } else if c == '"' {
        t matches Token::QuotedString(s) && s@ == text.subrange(1, text.len() - 1)
    } else if is_blank(c) {
        t == Token::Whitespace
    } else if c == '\n' || c == '\r' {
        t == Token::Newline
    } else if c == '/' {
        if text[1] == '/' {
            t == Token::Comment
        } else {
            t == Token::BlockComment
        }
    } else if c == '!' {
        t == Token::NotEquals
    } else if c == '<' {
        t == if text.len() == 2 { Token::LessEqual } else { Token::LessThan }
    } else if c == '>' {
        t == if text.len() == 2 { Token::GreaterEqual } else { Token::GreaterThan }
    } else if c == '{' {
        t == Token::LeftBrace
    } else if c == '}' {
        t == Token::RightBrace
    } else if c == ':' {
        t == Token::Colon
    } else if c == '[' {
        t == Token::LeftBracket
    } else if c == ']' {
        t == Token::RightBracket
    } else if c == ',' {
        t == Token::Comma
    } else if c == '(' {
        t == Token::LeftParen
    } else if c == ')' {
        t == Token::RightParen
    } else {
        t == Token::Equals
    }
}

fn word_start(c: char) -> (r: bool)
    ensures
        r == is_word_start(c),
{
    ('a' <= c && c <= 'z') || ('A' <= c && c <= 'Z') || c == '_'
}

fn digit(c: char) -> (r: bool)
    ensures
        r == is_ascii_digit(c),
{
    '0' <= c && c <= '9'
}

fn word_char(c: char) -> (r: bool)
    ensures
        r == is_word_char(c),
{
    word_start(c) || digit(c)
}

fn blank(c: char) -> (r: bool)
    ensures
        r == is_blank(c),
{
    c == ' ' || c == '\t' || c == '\x0C'
}

fn scan_word(cs: &Vec<char>, i: usize) -> (r: usize)
    requires
        i <= cs.len(),
    ensures
        r == word_end(cs@, i as int),
        i <= r <= cs.len(),
{
    let mut j = i;
    while j < cs.len() && word_char(cs[j])
        invariant
            i <= j <= cs.len(),
            word_end(cs@, i as int) == word_end(cs@, j as int),
        decreases cs.len() - j,
    {
        j = j + 1;
    }
    j
}

fn scan_digits(cs: &Vec<char>, i: usize) -> (r: usize)
    requires
        i <= cs.len(),
    ensures
        r == digits_end(cs@, i as int),
        i <= r <= cs.len(),
        forall|m: int| i <= m < r ==> is_ascii_digit(#[trigger] cs@[m]),
{
    let mut j = i;
    while j < cs.len() && digit(cs[j])
        invariant
            i <= j <= cs.len(),
            digits_end(cs@, i as int) == digits_end(cs@, j as int),
            forall|m: int| i <= m < j ==> is_ascii_digit(#[trigger] cs@[m]),
        decreases cs.len() - j,
    {
        j = j + 1;
    }
    j
}

fn scan_blank(cs: &Vec<char>, i: usize) -> (r: usize)
    requires
        i <= cs.len(),
    ensures
        r == blank_end(cs@, i as int),
        i <= r <= cs.len(),
{
    let mut j = i;
    while j < cs.len() && blank(cs[j])
        invariant
            i <= j <= cs.len(),
            blank_end(cs@, i as int) == blank_end(cs@, j as int),
        decreases cs.len() - j,
    {
        j = j + 1;
    }
    j
}

fn scan_line_rest(cs: &Vec<char>, i: usize) -> (r: usize)
    requires
        i <= cs.len(),
    ensures
        r == line_rest_end(cs@, i as int),
        i <= r <= cs.len(),
{
    let mut j = i;
    while j < cs.len() && cs[j] != '\r' && cs[j] != '\n'
        invariant
            i <= j <= cs.len(),
            line_rest_end(cs@, i as int) == line_rest_end(cs@, j as int),
        decreases cs.len() - j,
    {
        j = j + 1;
    }
    j
}

fn scan_string(cs: &Vec<char>, i: usize) -> (r: Option<usize>)
    requires
        i <= cs.len(),
    ensures
        match r {
            Some(e) => e == string_end(cs@, i as int) && i < e <= cs.len(),
            None => string_end(cs@, i as int) < 0,
        },
{
    let mut j = i;
    while j < cs.len()
        invariant
            i <= j <= cs.len(),
            string_end(cs@, i as int) == string_end(cs@, j as int),
        decreases cs.len() - j,
    {
        if cs[j] == '"' {
            return Some(j + 1);
        } else if cs[j] == '\\' {
            if j + 1 < cs.len() && cs[j + 1] != '\n' {
                j = j + 2;
            } else {
                return None;
            }
        } else {
            j = j + 1;
        }
    }
    None
}

fn scan_block(cs: &Vec<char>, i: usize) -> (r: Option<usize>)
    requires
        i <= cs.len(),
    ensures
        match r {
            Some(e) => e == block_end(cs@, i as int) && i < e <= cs.len(),
            None => block_end(cs@, i as int) < 0,
        },
{
    let mut j = i;
    while j < cs.len()
        invariant
            i <= j <= cs.len(),
            block_end(cs@, i as int) == block_end(cs@, j as int),
        decreases cs.len() - j,
    {
        if cs[j] == '*' {
            if j + 1 < cs.len() {
                if cs[j + 1] == '/' {
                    return Some(j + 2);
                } else {
                    j = j + 2;
                }
            } else {
                return None;
            }
        } else {
            j = j + 1;
        }
    }
    None
}

fn scan_number(cs: &Vec<char>, i: usize) -> (r: usize)
    requires
        i < cs.len(),
        is_ascii_digit(cs@[i as int]),
    ensures
        r == number_end(cs@, i as int),
        i < r <= cs.len(),
{
    proof {
        lemma_ends_advance(cs@, i + 1);
    }
    let d = scan_digits(cs, i);
    if d < cs.len() && d + 1 < cs.len() && cs[d] == '.' && digit(cs[d + 1]) {
        scan_digits(cs, d + 1)
    } else if d < cs.len() && d + 1 < cs.len() && cs[d] == 'm' && cs[d + 1] == 's' {
        d + 2
    } else if d < cs.len() && (cs[d] == 's' || cs[d] == 'm' || cs[d] == 'h') {
        d + 1
    } else {
        d
    }
}

/// Length of the longest lexeme at `i`; 0 where no rule matches there.
pub fn lexeme_at(cs: &Vec<char>, i: usize) -> (r: usize)
    requires
        i < cs.len(),
    ensures
        r == lexeme_len(cs@, i as int),
        i + r <= cs.len(),
{
    let c = cs[i];
    let n = cs.len();
    if word_start(c) {
        scan_word(cs, i) - i
    } else if digit(c) {
        scan_number(cs, i) - i
    } else if c == '"' {
        match scan_string(cs, i + 1) {
            Some(e) => e - i,
            None => 0,
        }
    } else if blank(c) {
        scan_blank(cs, i) - i
    } else if c == '\n' {
        1
    } else if c == '\r' {
        if i + 1 < n && cs[i + 1] == '\n' {
            2
        } else {
            0
        }
    } else if c == '/' {
        if i + 1 < n && cs[i + 1] == '/' {
            scan_line_rest(cs, i + 2) - i
        } else if i + 1 < n && cs[i + 1] == '*' {
            match scan_block(cs, i + 2) {
                Some(e) => e - i,
                None => 0,
            }
        } else {
            0
        }
    } else if c == '!' {
        if i + 1 < n && cs[i + 1] == '=' {
            2
        } else {
            0
        }
    } else if c == '<' || c == '>' {
        if i + 1 < n && cs[i + 1] == '=' {
            2
        } else {
            1
        }
    } else if c == '{' || c == '}' || c == ':' || c == '[' || c == ']' || c == ','
        || c == '(' || c == ')' || c == '=' {
        1
    } else {
        0
    }
}

/// Whether `cs[start..end]` spells the lower-case word `kw` in any case.
fn spells_at(cs: &Vec<char>, start: usize, end: usize, kw: &str) -> (r: bool)
    requires
        start <= end <= cs.len(),
    ensures
        r == spells_nocase(cs@.subrange(start as int, end as int), kw@),
{
    let n = kw.unicode_len();
    if end - start != n {
        return false;
    }
    let mut k: usize = 0;
    while k < n
        invariant
            n == kw@.len(),
            end - start == n,
            start <= end <= cs.len(),
            k <= n,
            forall|m: int| 0 <= m < k ==> folds_to(#[trigger] cs@[start + m], kw@[m]),
        decreases n - k,
    {
        let c = cs[start + k];
        let want = kw.get_char(k);
        if !(c == want || ('A' <= c && c <= 'Z' && (c as u32) + 32 == (want as u32))) {
            assert(!folds_to(cs@.subrange(start as int, end as int)[k as int], kw@[k as int]));
            return false;
        }
        k = k + 1;
    }
    assert(forall|m: int| 0 <= m < n ==> cs@.subrange(start as int, end as int)[m] == cs@[start + m]);
    true
}

/// The reserved word that `cs[start..end]` spells, if any.
fn keyword_at(cs: &Vec<char>, start: usize, end: usize) -> (r: Option<Token>)
    requires
        start <= end <= cs.len(),
    ensures
        r == keyword_named(cs@.subrange(start as int, end as int)),
{
    if spells_at(cs, start, end, "var") {
        Some(Token::Var)
    } else if spells_at(cs, start, end, "context") {
        Some(Token::Context)
    } else if spells_at(cs, start, end, "goes") {
        Some(Token::Goes)
    } else if spells_at(cs, start, end, "to") {
        Some(Token::To)
    } else if spells_at(cs, start, end, "created") {
        Some(Token::Created)
    } else if spells_at(cs, start, end, "by") {
        Some(Token::By)
    } else if spells_at(cs, start, end, "if") {
        Some(Token::If)
    } else if spells_at(cs, start, end, "then") {
        Some(Token::Then)
    } else if spells_at(cs, start, end, "when") {
        Some(Token::When)
    } else if spells_at(cs, start, end, "calls") {
        Some(Token::Calls)
    } else if spells_at(cs, start, end, "receives") {
        Some(Token::Receives)
    } else if spells_at(cs, start, end, "returns") {
        Some(Token::Returns)
    } else if spells_at(cs, start, end, "does") {
        Some(Token::Does)
    } else if spells_at(cs, start, end, "uses") {
        Some(Token::Uses)
    } else if spells_at(cs, start, end, "is") {
        Some(Token::Is)
    } else if spells_at(cs, start, end, "after") {
        Some(Token::After)
    } else if spells_at(cs, start, end, "before") {
        Some(Token::Before)
    } else if spells_at(cs, start, end, "parallel") {
        Some(Token::Parallel)
    } else if spells_at(cs, start, end, "and") {
        Some(Token::And)
    } else if spells_at(cs, start, end, "or") {
        Some(Token::Or)
    } else if spells_at(cs, start, end, "retry") {
        Some(Token::Retry)
    } else if spells_at(cs, start, end, "timeout") {
        Some(Token::Timeout)
    } else if spells_at(cs, start, end, "async") {
        Some(Token::Async)
    } else if spells_at(cs, start, end, "batch") {
        Some(Token::Batch)
    } else if spells_at(cs, start, end, "loop") {
        Some(Token::Loop)
    } else if spells_at(cs, start, end, "while") {
        Some(Token::While)
    } else if spells_at(cs, start, end, "break") {
        Some(Token::Break)
    } else if spells_at(cs, start, end, "continue") {
        Some(Token::Continue)
    } else if spells_at(cs, start, end, "entity") {
        Some(Token::Entity)
    } else if spells_at(cs, start, end, "service") {
        Some(Token::Service)
    } else if spells_at(cs, start, end, "endpoint") {
        Some(Token::Endpoint)
    } else if spells_at(cs, start, end, "object") {
        Some(Token::Object)
    } else if spells_at(cs, start, end, "string") {
        Some(Token::StringType)
    } else if spells_at(cs, start, end, "number") {
        Some(Token::NumberType)
    } else if spells_at(cs, start, end, "boolean") {
        Some(Token::BooleanType)
    } else if spells_at(cs, start, end, "true") {
        Some(Token::True)
    } else if spells_at(cs, start, end, "false") {
        Some(Token::False)
    } else {
        None
    }
}

proof fn lemma_ends_advance(cs: Seq<char>, i: int)
    ensures
        word_end(cs, i) >= i,
        digits_end(cs, i) >= i,
        line_rest_end(cs, i) >= i,
    decreases cs.len() - i,
{
    if 0 <= i < cs.len() {
        lemma_ends_advance(cs, i + 1);
    }
}

proof fn lemma_closers_advance(cs: Seq<char>, i: int)
    ensures
        string_end(cs, i) < 0 || string_end(cs, i) >= i + 1,
        block_end(cs, i) < 0 || block_end(cs, i) >= i + 2,
    decreases cs.len() - i,
{
    if 0 <= i < cs.len() {
        lemma_closers_advance(cs, i + 1);
        if i + 2 <= cs.len() {
            lemma_closers_advance(cs, i + 2);
        }
    }
}

/// Within a lexeme, a run of digits ends where it ends in the whole text.
proof fn lemma_digits_end_shift(cs: Seq<char>, start: int, end: int, j: int)
    requires
        0 <= start <= j <= end <= cs.len(),
        digits_end(cs, j) <= end,
    ensures
        digits_end(cs.subrange(start, end), j - start) == digits_end(cs, j) - start,
    decreases end - j,
{
    let text = cs.subrange(start, end);
    if j < end && is_ascii_digit(cs[j]) {
        assert(text[j - start] == cs[j]);
        lemma_digits_end_shift(cs, start, end, j + 1);
    } else if j < end {
        assert(text[j - start] == cs[j]);
    } else {
        if j < cs.len() && is_ascii_digit(cs[j]) {
            lemma_ends_advance(cs, j + 1);
        }
    }
}

/// Two lower-case words that one text spells are the same word.
proof fn lemma_spelling_unique(w: Seq<char>, a: Seq<char>, b: Seq<char>)
    requires
        spells_nocase(w, a),
        spells_nocase(w, b),
        forall|m: int| 0 <= m < a.len() ==> 'a' <= #[trigger] a[m] <= 'z',
        forall|m: int| 0 <= m < b.len() ==> 'a' <= #[trigger] b[m] <= 'z',
    ensures
        a == b,
{
    assert forall|m: int| 0 <= m < a.len() implies a[m] == b[m] by {
        assert(folds_to(w[m], a[m]));
        assert(folds_to(w[m], b[m]));
    }
    assert(a =~= b);
}

/// The word that a text is named spells that text.
proof fn lemma_keyword_named_spelled(w: Seq<char>)
    ensures
        keyword_named(w) matches Some(u) ==> u.spec_is_keyword() && spells_nocase(
            w,
            keyword_spelling(u),
        ),
{
}

/// Distinct reserved words are spelled differently.
#[verifier::rlimit(100)]
#[verifier::spinoff_prover]
proof fn lemma_spelling_injective(t: Token, u: Token)
    requires
        t.spec_is_keyword(),
        u.spec_is_keyword(),
        keyword_spelling(t) == keyword_spelling(u),
    ensures
        t == u,
{
    reveal_strlit("var");
    reveal_strlit("context");
    reveal_strlit("goes");
    reveal_strlit("to");
    reveal_strlit("created");
    reveal_strlit("by");
    reveal_strlit("if");
    reveal_strlit("then");
    reveal_strlit("when");
    reveal_strlit("calls");
    reveal_strlit("receives");
    reveal_strlit("returns");
    reveal_strlit("does");
    reveal_strlit("uses");
    reveal_strlit("is");
    reveal_strlit("after");
    reveal_strlit("before");
    reveal_strlit("parallel");
    reveal_strlit("and");
    reveal_strlit("or");
    reveal_strlit("retry");
    reveal_strlit("timeout");
    reveal_strlit("async");
    reveal_strlit("batch");
    reveal_strlit("loop");
    reveal_strlit("while");
    reveal_strlit("break");
    reveal_strlit("continue");
    reveal_strlit("entity");
    reveal_strlit("service");
    reveal_strlit("endpoint");
    reveal_strlit("object");
    reveal_strlit("string");
    reveal_strlit("number");
    reveal_strlit("boolean");
    reveal_strlit("true");
    reveal_strlit("false");
    let su = keyword_spelling(u);
    match t {
        Token::Var => {
            assert(su[0] == 'v' && su[1] == 'a' && su[2] == 'r');
        },
        Token::Context => {
            assert(su[0] == 'c' && su[1] == 'o' && su[2] == 'n' && su[3] == 't' && su[4] == 'e' && su[5] == 'x' && su[6] == 't');
        },
        Token::Goes => {
            assert(su[0] == 'g' && su[1] == 'o' && su[2] == 'e' && su[3] == 's');
        },
        Token::To => {
            assert(su[0] == 't' && su[1] == 'o');
        },
        Token::Created => {
            assert(su[0] == 'c' && su[1] == 'r' && su[2] == 'e' && su[3] == 'a' && su[4] == 't' && su[5] == 'e' && su[6] == 'd');
        },
        Token::By => {
            assert(su[0] == 'b' && su[1] == 'y');
        },
        Token::If => {
            assert(su[0] == 'i' && su[1] == 'f');
        },
        Token::Then => {
            assert(su[0] == 't' && su[1] == 'h' && su[2] == 'e' && su[3] == 'n');
        },
        Token::When => {
            assert(su[0] == 'w' && su[1] == 'h' && su[2] == 'e' && su[3] == 'n');
        },
        Token::Calls => {
            assert(su[0] == 'c' && su[1] == 'a' && su[2] == 'l' && su[3] == 'l' && su[4] == 's');
        },
        Token::Receives => {
            assert(su[0] == 'r' && su[1] == 'e' && su[2] == 'c' && su[3] == 'e' && su[4] == 'i' && su[5] == 'v' && su[6] == 'e' && su[7] == 's');
        },
        Token::Returns => {
            assert(su[0] == 'r' && su[1] == 'e' && su[2] == 't' && su[3] == 'u' && su[4] == 'r' && su[5] == 'n' && su[6] == 's');
        },
        Token::Does => {
            assert(su[0] == 'd' && su[1] == 'o' && su[2] == 'e' && su[3] == 's');
        },
        Token::Uses => {
            assert(su[0] == 'u' && su[1] == 's' && su[2] == 'e' && su[3] == 's');
        },
        Token::Is => {
            assert(su[0] == 'i' && su[1] == 's');
        },
        Token::After => {
            assert(su[0] == 'a' && su[1] == 'f' && su[2] == 't' && su[3] == 'e' && su[4] == 'r');
        },
        Token::Before => {
            assert(su[0] == 'b' && su[1] == 'e' && su[2] == 'f' && su[3] == 'o' && su[4] == 'r' && su[5] == 'e');
        },
        Token::Parallel => {
            assert(su[0] == 'p' && su[1] == 'a' && su[2] == 'r' && su[3] == 'a' && su[4] == 'l' && su[5] == 'l' && su[6] == 'e' && su[7] == 'l');
        },
        Token::And => {
            assert(su[0] == 'a' && su[1] == 'n' && su[2] == 'd');
        },
        Token::Or => {
            assert(su[0] == 'o' && su[1] == 'r');
        },
        Token::Retry => {
            assert(su[0] == 'r' && su[1] == 'e' && su[2] == 't' && su[3] == 'r' && su[4] == 'y');
        },
        Token::Timeout => {
            assert(su[0] == 't' && su[1] == 'i' && su[2] == 'm' && su[3] == 'e' && su[4] == 'o' && su[5] == 'u' && su[6] == 't');
        },
        Token::Async => {
            assert(su[0] == 'a' && su[1] == 's' && su[2] == 'y' && su[3] == 'n' && su[4] == 'c');
        },
        Token::Batch => {
            assert(su[0] == 'b' && su[1] == 'a' && su[2] == 't' && su[3] == 'c' && su[4] == 'h');
        },
        Token::Loop => {
            assert(su[0] == 'l' && su[1] == 'o' && su[2] == 'o' && su[3] == 'p');
        },
        Token::While => {
            assert(su[0] == 'w' && su[1] == 'h' && su[2] == 'i' && su[3] == 'l' && su[4] == 'e');
        },
        Token::Break => {
            assert(su[0] == 'b' && su[1] == 'r' && su[2] == 'e' && su[3] == 'a' && su[4] == 'k');
        },
        Token::Continue => {
            assert(su[0] == 'c' && su[1] == 'o' && su[2] == 'n' && su[3] == 't' && su[4] == 'i' && su[5] == 'n' && su[6] == 'u' && su[7] == 'e');
        },
        Token::Entity => {
            assert(su[0] == 'e' && su[1] == 'n' && su[2] == 't' && su[3] == 'i' && su[4] == 't' && su[5] == 'y');
        },
        Token::Service => {
            assert(su[0] == 's' && su[1] == 'e' && su[2] == 'r' && su[3] == 'v' && su[4] == 'i' && su[5] == 'c' && su[6] == 'e');
        },
        Token::Endpoint => {
            assert(su[0] == 'e' && su[1] == 'n' && su[2] == 'd' && su[3] == 'p' && su[4] == 'o' && su[5] == 'i' && su[6] == 'n' && su[7] == 't');
        },
        Token::Object => {
            assert(su[0] == 'o' && su[1] == 'b' && su[2] == 'j' && su[3] == 'e' && su[4] == 'c' && su[5] == 't');
        },
        Token::StringType => {
            assert(su[0] == 's' && su[1] == 't' && su[2] == 'r' && su[3] == 'i' && su[4] == 'n' && su[5] == 'g');
        },
        Token::NumberType => {
            assert(su[0] == 'n' && su[1] == 'u' && su[2] == 'm' && su[3] == 'b' && su[4] == 'e' && su[5] == 'r');
        },
        Token::BooleanType => {
            assert(su[0] == 'b' && su[1] == 'o' && su[2] == 'o' && su[3] == 'l' && su[4] == 'e' && su[5] == 'a' && su[6] == 'n');
        },
        Token::True => {
            assert(su[0] == 't' && su[1] == 'r' && su[2] == 'u' && su[3] == 'e');
        },
        Token::False => {
            assert(su[0] == 'f' && su[1] == 'a' && su[2] == 'l' && su[3] == 's' && su[4] == 'e');
        },
        _ => {},
    }
}

/// A text that spells a reserved word in any case is named that word.
pub proof fn lemma_keyword_named_is_spelled(t: Token, w: Seq<char>)
    requires
        t.spec_is_keyword(),
        spells_nocase(w, keyword_spelling(t)),
    ensures
        keyword_named(w) == Some(t),
{
        reveal_strlit("var");
        reveal_strlit("context");
        reveal_strlit("goes");
        reveal_strlit("to");
        reveal_strlit("created");
        reveal_strlit("by");
        reveal_strlit("if");
        reveal_strlit("then");
        reveal_strlit("when");
        reveal_strlit("calls");
        reveal_strlit("receives");
        reveal_strlit("returns");
        reveal_strlit("does");
        reveal_strlit("uses");
        reveal_strlit("is");
        reveal_strlit("after");
        reveal_strlit("before");
        reveal_strlit("parallel");
        reveal_strlit("and");
        reveal_strlit("or");
        reveal_strlit("retry");
        reveal_strlit("timeout");
        reveal_strlit("async");
        reveal_strlit("batch");
        reveal_strlit("loop");
        reveal_strlit("while");
        reveal_strlit("break");
        reveal_strlit("continue");
        reveal_strlit("entity");
        reveal_strlit("service");
        reveal_strlit("endpoint");
        reveal_strlit("object");
        reveal_strlit("string");
        reveal_strlit("number");
        reveal_strlit("boolean");
        reveal_strlit("true");
        reveal_strlit("false");
    let r = keyword_named(w);
    lemma_keyword_named_spelled(w);
    if r is Some {
        let u = r->0;
        lemma_spelling_unique(w, keyword_spelling(u), keyword_spelling(t));
        lemma_spelling_injective(t, u);
    }
}

proof fn lemma_digits_value_monotone(s: Seq<char>, j: int)
    requires
        0 <= j <= s.len(),
    ensures
        digits_value(s.take(j)) <= digits_value(s),
    decreases s.len() - j,
{
    if j < s.len() {
        assert(s.drop_last().take(j) =~= s.take(j));
        lemma_digits_value_monotone(s.drop_last(), j);
        assert(digits_value(s) >= digits_value(s.drop_last())) by (nonlinear_arith)
            requires
                digits_value(s) == digits_value(s.drop_last()) * 10 + ((s.last() as int) - ('0' as int)) as nat,
        ;
    } else {
        assert(s.take(j) =~= s);
    }
}

/// The value of the digits `cs[start..end]`, where it fits in an `i64`.
fn number_value(cs: &Vec<char>, start: usize, end: usize) -> (r: Option<i64>)
    requires
        start <= end <= cs.len(),
        forall|m: int| start <= m < end ==> is_ascii_digit(#[trigger] cs@[m]),
    ensures
        r == number_payload(cs@.subrange(start as int, end as int)),
{
    let ghost whole = cs@.subrange(start as int, end as int);
    let mut acc: u64 = 0;
    let mut k = start;
    while k < end
        invariant
            start <= k <= end <= cs.len(),
            whole == cs@.subrange(start as int, end as int),
            forall|m: int| start <= m < end ==> is_ascii_digit(#[trigger] cs@[m]),
            acc == digits_value(cs@.subrange(start as int, k as int)),
            acc <= i64::MAX,
        decreases end - k,
    {
        let d = (cs[k] as u32 - 48) as u64;
        assert(cs@.subrange(start as int, k + 1).drop_last() =~= cs@.subrange(start as int, k as int));
        assert(d <= 9);
        if acc > (9223372036854775807u64 - d) / 10 {
            assert(acc * 10 + d > 9223372036854775807u64) by (nonlinear_arith)
                requires
                    acc > (9223372036854775807u64 - d) / 10,
                    d <= 9,
            ;
            proof {
                let j = k + 1 - start;
                assert(whole.take(j) =~= cs@.subrange(start as int, k + 1));
                lemma_digits_value_monotone(whole, j);
            }
            return None;
        }
        assert(acc * 10 + d <= 9223372036854775807u64) by (nonlinear_arith)
            requires
                acc <= (9223372036854775807u64 - d) / 10,
                d <= 9,
        ;
        acc = acc * 10 + d;
        k = k + 1;
    }
    Some(acc as i64)
}

/// The token that the lexeme `cs[start..end]` stands for.
pub fn token_for(cs: &Vec<char>, start: usize, end: usize) -> (r: Token)
    requires
        start < end <= cs.len(),
        end - start == lexeme_len(cs@, start as int),
    ensures
        denotes(cs@.subrange(start as int, end as int), r),
{
    let ghost text = cs@.subrange(start as int, end as int);
    proof {
        lemma_ends_advance(cs@, start as int);
        lemma_ends_advance(cs@, start as int + 2);
        lemma_closers_advance(cs@, start as int + 1);
        lemma_closers_advance(cs@, start as int + 2);
    }
    let c = cs[start];
    if word_start(c) {
        match keyword_at(cs, start, end) {
            Some(k) => k,
            None => Token::Identifier(string_of(&cs.as_slice()[start..end])),
        }
    } else if digit(c) {
        let d = scan_digits(cs, start);
        proof {
            let dd = d as int;
            if dd + 1 < cs@.len() && cs@[dd] == '.' && is_ascii_digit(cs@[dd + 1]) {
                lemma_ends_advance(cs@, dd + 1);
            }
            lemma_digits_end_shift(cs@, start as int, end as int, start as int);
        }
        if d == end {
            Token::Number(number_value(cs, start, end))
        } else if cs[d] == '.' {
            Token::Float(string_of(&cs.as_slice()[start..end]))
        } else {
            Token::Duration(string_of(&cs.as_slice()[start..end]))
        }
    } else if c == '"' {
        assert(text.subrange(1, text.len() - 1) =~= cs@.subrange(start + 1, end - 1));
        Token::QuotedString(string_of(&cs.as_slice()[start + 1..end - 1]))
    } else if blank(c) {
        Token::Whitespace
    } else if c == '\n' || c == '\r' {
        Token::Newline
    } else if c == '/' {
        if cs[start + 1] == '/' {
            Token::Comment
        } else {
            Token::BlockComment
        }
    } else if c == '!' {
        Token::NotEquals
    } else if c == '<' {
        if end - start == 2 {
            Token::LessEqual
        } else {
            Token::LessThan
        }
    } else if c == '>' {
        if end - start == 2 {
            Token::GreaterEqual
        } else {
            Token::GreaterThan
        }
    } else if c == '{' {
        Token::LeftBrace
    } else if c == '}' {
        Token::RightBrace
    } else if c == ':' {
        Token::Colon
    } else if c == '[' {
        Token::LeftBracket
    } else if c == ']' {
        Token::RightBracket
    } else if c == ',' {
        Token::Comma
    } else if c == '(' {
        Token::LeftParen
    } else if c == ')' {
        Token::RightParen
    } else {
        Token::Equals
    }
}

} // verus!
