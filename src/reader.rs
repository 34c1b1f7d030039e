//! Source files held in memory, with their lines.
use vstd::prelude::*;
use crate::text::{chars_of, string_of};

verus! {

/// Index of the first line feed at or after `i`, or the length of `cs`.
pub open spec fn line_break_at(cs: Seq<char>, i: int) -> int
    decreases cs.len() - i,
{
    if i < 0 || i >= cs.len() {
        cs.len() as int
    } else if cs[i] == '\n' {
        i
    } else {
        line_break_at(cs, i + 1)
    }
}

/// The line `cs[start..brk]`, without the carriage return of a `\r\n` ending.
pub open spec fn line_text(cs: Seq<char>, start: int, brk: int) -> Seq<char> {
    if brk < cs.len() && brk > start && cs[brk - 1] == '\r' {
        cs.subrange(start, brk - 1)
    } else {
        cs.subrange(start, brk)
    }
}

/// The lines of `cs` from index `i` on: split at each `\n`, a `\r` before it
/// dropped, and no empty line after a final line ending.
pub open spec fn lines_from(cs: Seq<char>, i: int) -> Seq<Seq<char>>
    decreases cs.len() - i,
{
    if i < 0 || i >= cs.len() || line_break_at(cs, i) < i {
        Seq::empty()
    } else if line_break_at(cs, i) >= cs.len() {
        seq![line_text(cs, i, line_break_at(cs, i))]
    } else {
        seq![line_text(cs, i, line_break_at(cs, i))] + lines_from(cs, line_break_at(cs, i) + 1)
    }
}

/// The lines of `cs`.
pub open spec fn lines_of(cs: Seq<char>) -> Seq<Seq<char>> {
    lines_from(cs, 0)
}

/// The texts of `v`.
pub open spec fn texts(v: Seq<String>) -> Seq<Seq<char>> {
    v.map_values(|s: String| s@)
}

/// The list index that line number `n` stands for; 0 stands for the first line too.
pub open spec fn line_index(n: usize) -> int {
    if n == 0 {
        0
    } else {
        n - 1
    }
}

/// A source file: its text, the path it is known by, and its lines.
#[derive(Debug, Clone)]
pub struct SourceFile {
    pub content: String,
    pub path: String,
    pub lines: Vec<String>,
}

fn find_line_break(cs: &Vec<char>, i: usize) -> (r: usize)
    requires
        i <= cs.len(),
    ensures
        r == line_break_at(cs@, i as int),
        i <= r <= cs.len(),
{
    let mut j = i;
    while j < cs.len() && cs[j] != '\n'
        invariant
            i <= j <= cs.len(),
            line_break_at(cs@, i as int) == line_break_at(cs@, j as int),
        decreases cs.len() - j,
    {
        j = j + 1;
    }
    j
}

impl SourceFile {
    /// A source file with the given text and path.
    pub fn from_string(content: String, path: String) -> (r: Self)
        ensures
            r.content == content,
            r.path == path,
            texts(r.lines@) == lines_of(content@),
    {
        let cs = chars_of(content.as_str());
        let mut lines: Vec<String> = Vec::new();
        let mut i: usize = 0;
        while i < cs.len()
            invariant
                i <= cs.len(),
                cs@ == content@,
                lines_of(cs@) == texts(lines@) + lines_from(cs@, i as int),
            decreases cs.len() - i,
        {
            let brk = find_line_break(&cs, i);
            let stop = if brk < cs.len() && brk > i && cs[brk - 1] == '\r' {
                brk - 1
            } else {
                brk
            };
            let line = string_of(&cs.as_slice()[i..stop]);
            proof {
                assert(texts(lines@.push(line)) =~= texts(lines@).push(line@));
                if brk < cs.len() {
                    assert(lines_from(cs@, i as int) == seq![line@] + lines_from(cs@, brk + 1));
                    assert(texts(lines@) + lines_from(cs@, i as int) =~= texts(lines@).push(line@)
                        + lines_from(cs@, brk + 1));
                } else {
                    assert(lines_from(cs@, brk as int) =~= Seq::<Seq<char>>::empty());
                    assert(texts(lines@) + lines_from(cs@, i as int) =~= texts(lines@).push(line@)
                        + lines_from(cs@, brk as int));
                }
            }
            lines.push(line);
            if brk < cs.len() {
                i = brk + 1;
            } else {
                i = brk;
            }
        }
        proof {
            assert(lines_from(cs@, i as int) =~= Seq::<Seq<char>>::empty());
            assert(texts(lines@) + Seq::<Seq<char>>::empty() =~= texts(lines@));
        }
        SourceFile { content, path, lines }
    }

    /// The line with the given 1-based number; 0 gives the first line.
    pub fn get_line(&self, line_number: usize) -> (r: Option<&str>)
        ensures
            r is Some == (line_index(line_number) < self.lines@.len()),
            r matches Some(s) ==> s@ == self.lines@[line_index(line_number)]@,
    {
        let index = if line_number == 0 {
            0
        } else {
            line_number - 1
        };
        if index < self.lines.len() {
            Some(self.lines[index].as_str())
        } else {
            None
        }
    }

    /// The number of lines.
    pub fn line_count(&self) -> (r: usize)
        ensures
            r == self.lines@.len(),
    {
        self.lines.len()
    }

    /// Lines `start` to `end`, 1-based and inclusive, cut off at the last
    /// line; none where `start` lies after `end` or past the last line.
    pub fn get_lines(&self, start: usize, end: usize) -> (r: Vec<&str>)
        ensures
            line_index(start) >= self.lines@.len() || start > end ==> r@.len() == 0,
            !(line_index(start) >= self.lines@.len() || start > end) ==> {
                &&& r@.len() == (if end < self.lines@.len() { end as int } else {
                    self.lines@.len() as int
                }) - line_index(start)
                &&& forall|k: int|
                    0 <= k < r@.len() ==> (#[trigger] r@[k])@ == self.lines@[line_index(start)
                        + k]@
            },
    {
        let first = if start == 0 {
            0
        } else {
            start - 1
        };
        let mut r: Vec<&str> = Vec::new();
        if first >= self.lines.len() || start > end {
            return r;
        }
        let last = if end < self.lines.len() {
            end
        } else {
            self.lines.len()
        };
        let mut k = first;
        while k < last
            invariant
                first <= k <= last <= self.lines@.len(),
                r@.len() == k - first,
                forall|m: int| 0 <= m < r@.len() ==> (#[trigger] r@[m])@ == self.lines@[first + m]@,
            decreases last - k,
        {
            r.push(self.lines[k].as_str());
            k = k + 1;
        }
        r
    }
}

} // verus!
