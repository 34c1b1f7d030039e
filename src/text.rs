//! Characters of source text: their classes, their UTF-8 widths, and the
//! line, column and byte offset at each character index.
use vstd::prelude::*;
use vstd::utf8::*;

verus! {

pub open spec fn is_ascii_letter(c: char) -> bool {
    ('a' <= c && c <= 'z') || ('A' <= c && c <= 'Z')
}

pub open spec fn is_ascii_digit(c: char) -> bool {
    '0' <= c && c <= '9'
}

/// A character that may start an identifier.
pub open spec fn is_word_start(c: char) -> bool {
    is_ascii_letter(c) || c == '_'
}

/// A character that may continue an identifier.
pub open spec fn is_word_char(c: char) -> bool {
    is_ascii_letter(c) || is_ascii_digit(c) || c == '_'
}

/// `c` is `k`, or `k` is the lower-case form of the ASCII capital `c`.
pub open spec fn folds_to(c: char, k: char) -> bool {
    c == k || ('A' <= c && c <= 'Z' && (c as u32) + 32 == (k as u32))
}

/// `w` spells the lower-case word `kw` in any mixture of ASCII cases.
pub open spec fn spells_nocase(w: Seq<char>, kw: Seq<char>) -> bool {
    &&& w.len() == kw.len()
    &&& forall|i: int| 0 <= i < w.len() ==> folds_to(#[trigger] w[i], kw[i])
}

/// Number of bytes in the UTF-8 encoding of `c`.
pub open spec fn utf8_width(c: char) -> nat {
    if (c as u32) <= 0x7F {
        1
    } else if (c as u32) <= 0x7FF {
        2
    } else if (c as u32) <= 0xFFFF {
        3
    } else {
        4
    }
}

/// Line (1-based) of the character at index `i`.
pub open spec fn line_at(cs: Seq<char>, i: int) -> nat
    decreases i,
{
    if i <= 0 {
        1
    } else if cs[i - 1] == '\n' {
        line_at(cs, i - 1) + 1
    } else {
        line_at(cs, i - 1)
    }
}

/// Column (1-based) of the character at index `i`.
pub open spec fn column_at(cs: Seq<char>, i: int) -> nat
    decreases i,
{
    if i <= 0 {
        1
    } else if cs[i - 1] == '\n' {
        1
    } else {
        column_at(cs, i - 1) + 1
    }
}

/// Byte offset of the character at index `i`.
pub open spec fn offset_at(cs: Seq<char>, i: int) -> nat
    decreases i,
{
    if i <= 0 {
        0
    } else {
        offset_at(cs, i - 1) + utf8_width(cs[i - 1])
    }
}

pub proof fn lemma_position_bounds(cs: Seq<char>, i: int)
    requires
        0 <= i <= cs.len(),
    ensures
        line_at(cs, i) <= i + 1,
        column_at(cs, i) <= i + 1,
        i <= offset_at(cs, i),
    decreases i,
{
    if i > 0 {
        lemma_position_bounds(cs, i - 1);
    }
}

pub proof fn lemma_offset_monotone(cs: Seq<char>, i: int, j: int)
    requires
        0 <= i <= j <= cs.len(),
    ensures
        offset_at(cs, i) <= offset_at(cs, j),
    decreases j - i,
{
    if i < j {
        lemma_offset_monotone(cs, i, j - 1);
    }
}

proof fn lemma_scalar_len(c: char)
    ensures
        encode_scalar(c as u32).len() == utf8_width(c),
{
    char_is_scalar(c);
}

proof fn lemma_encode_push(a: Seq<char>, c: char)
    ensures
        encode_utf8(a.push(c)).len() == encode_utf8(a).len() + utf8_width(c),
    decreases a.len(),
{
    if a.len() == 0 {
        assert(a.push(c).drop_first() =~= Seq::<char>::empty());
        lemma_scalar_len(c);
        assert(encode_utf8(Seq::<char>::empty()).len() == 0);
    } else {
        lemma_scalar_len(a[0]);
        assert(a.push(c).drop_first() =~= a.drop_first().push(c));
        lemma_encode_push(a.drop_first(), c);
    }
}

/// The byte offset at the end of the text is the length of its UTF-8 encoding.
pub proof fn lemma_offset_is_encoded_len(cs: Seq<char>, i: int)
    requires
        0 <= i <= cs.len(),
    ensures
        offset_at(cs, i) == encode_utf8(cs.take(i)).len(),
    decreases i,
{
    if i == 0 {
        assert(cs.take(0) =~= Seq::<char>::empty());
    } else {
        lemma_offset_is_encoded_len(cs, i - 1);
        assert(cs.take(i) =~= cs.take(i - 1).push(cs[i - 1]));
        lemma_encode_push(cs.take(i - 1), cs[i - 1]);
    }
}

pub fn char_width(c: char) -> (r: usize)
    ensures
        r == utf8_width(c),
{
    let u = c as u32;
    if u <= 0x7F {
        1
    } else if u <= 0x7FF {
        2
    } else if u <= 0xFFFF {
        3
    } else {
        4
    }
}

/// The characters of `s`, in order.
pub fn chars_of(s: &str) -> (r: Vec<char>)
    ensures
        r@ == s@,
{
    let mut v: Vec<char> = Vec::new();
    for c in it: s.chars()
        invariant
            v@ == it.seq().take(it.index() as int),
    {
        v.push(c);
    }
    v
}

/// Relies on `String`'s `FromIterator<&char>`: the characters, in order.
#[verifier::external_body]
pub(crate) fn string_of(cs: &[char]) -> (r: String)
    ensures
        r@ == cs@,
{
    String::from_iter(cs)
}

} // verus!
