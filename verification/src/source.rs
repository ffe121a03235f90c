//! The supply of lines: a text cut into lines, and a cursor over them that
//! moves when a line is pulled and stays when one is looked at.

use crate::entity::texts;
use crate::text::{from_chars, to_chars};
use vstd::prelude::*;

verus! {

/// The line without the carriage return that may end it.
pub open spec fn without_return(line: Seq<char>) -> Seq<char> {
    if line.len() > 0 && line.last() == '\r' {
        line.drop_last()
    } else {
        line
    }
}

/// The lines of `s` from the line that begins at `start`, where the
/// characters between `start` and `i` hold no line feed.
pub open spec fn lines_scan(s: Seq<char>, start: int, i: int) -> Seq<Seq<char>>
    decreases s.len() - i,
{
    if i < 0 || i >= s.len() {
        if 0 <= start < s.len() {
            seq![s.subrange(start, s.len() as int)]
        } else {
            Seq::empty()
        }
    } else if s[i] == '\n' {
        seq![without_return(s.subrange(start, i))] + lines_scan(s, i + 1, i + 1)
    } else {
        lines_scan(s, start, i + 1)
    }
}

/// The lines of a text. A line ends at a line feed, or at a carriage return
/// and a line feed, neither of which belongs to it; the last line may end
/// with the text. A text that ends with a line feed has no empty last line.
pub open spec fn lines_of(s: Seq<char>) -> Seq<Seq<char>> {
    lines_scan(s, 0, 0)
}

/// Cuts a text into its lines.
pub fn split_lines(s: &str) -> (r: Vec<String>)
    ensures
        texts(r@) == lines_of(s@),
{
    let v = to_chars(s);
    let mut out: Vec<String> = Vec::new();
    let mut start: usize = 0;
    let mut i: usize = 0;
    assert(texts(out@) + lines_scan(v@, 0, 0) =~= lines_scan(v@, 0, 0));
    while i < v.len()
        invariant
            start <= i <= v.len(),
            lines_of(v@) == texts(out@) + lines_scan(v@, start as int, i as int),
        decreases v.len() - i,
    {
        if v[i] == '\n' {
            let end: usize = if start < i && v[i - 1] == '\r' {
                i - 1
            } else {
                i
            };
            let line = from_chars(&v, start, end);
            proof {
                let whole = v@.subrange(start as int, i as int);
                if start < i && v[i - 1] == '\r' {
                    assert(whole.drop_last() =~= v@.subrange(start as int, end as int));
                }
                assert(line@ == without_return(whole));
                assert(texts(out@.push(line)) =~= texts(out@).push(line@));
                assert(texts(out@).push(line@) + lines_scan(v@, i + 1, i + 1) =~= texts(out@) + (
                seq![line@] + lines_scan(v@, i + 1, i + 1)));
            }
            out.push(line);
            start = i + 1;
        }
        i += 1;
    }
    if start < v.len() {
        let line = from_chars(&v, start, v.len());
        proof {
            assert(texts(out@.push(line)) =~= texts(out@).push(line@));
            assert(texts(out@).push(line@) =~= texts(out@) + seq![line@]);
        }
        out.push(line);
    } else {
        assert(texts(out@) + Seq::<Seq<char>>::empty() =~= texts(out@));
    }
    out
}

/// Lines, and how many of them were pulled.
pub struct LineSource {
    lines: Vec<String>,
    pulled: usize,
}

impl LineSource {
    /// No more lines are pulled than there are.
    #[verifier::type_invariant]
    pub closed spec fn in_range(self) -> bool {
        self.pulled <= self.lines.len()
    }

    /// The line that comes next lies within the lines, or right after them.
    pub proof fn lemma_in_range(self)
        requires
            self.in_range(),
        ensures
            0 <= self.position() <= self.lines().len(),
    {
    }

    /// All the lines, pulled or not.
    pub closed spec fn lines(self) -> Seq<Seq<char>> {
        texts(self.lines@)
    }

    /// The index of the line that comes next.
    pub closed spec fn position(self) -> int {
        self.pulled as int
    }

    /// A source that supplies `lines` from the first one on.
    pub fn new(lines: Vec<String>) -> (r: LineSource)
        ensures
            r.lines() == texts(lines@),
            r.position() == 0,
    {
        LineSource { lines, pulled: 0 }
    }

    /// A source that supplies the lines of `s`.
    pub fn from_text(s: &str) -> (r: LineSource)
        ensures
            r.lines() == lines_of(s@),
            r.position() == 0,
    {
        LineSource { lines: split_lines(s), pulled: 0 }
    }

    /// The line that comes next; the source stays as it is.
    pub fn peek(&self) -> (r: Option<&String>)
        ensures
            0 <= self.position() <= self.lines().len(),
            match r {
                Some(line) => self.position() < self.lines().len() && line@ == self.lines()[self.position()],
                None => self.position() == self.lines().len(),
            },
    {
        proof {
            use_type_invariant(self);
        }
        if self.pulled < self.lines.len() {
            Some(&self.lines[self.pulled])
        } else {
            None
        }
    }

    /// The line that comes next; the source moves on by that line.
    pub fn pull(&mut self) -> (r: Option<String>)
        ensures
            final(self).lines() == old(self).lines(),
            0 <= old(self).position() <= old(self).lines().len(),
            match r {
                Some(line) => old(self).position() < old(self).lines().len() && line@ == old(
                    self,
                ).lines()[old(self).position()] && final(self).position() == old(self).position()
                    + 1,
                None => old(self).position() == old(self).lines().len() && final(self).position()
                    == old(self).position(),
            },
    {
        proof {
            use_type_invariant(&*self);
        }
        if self.pulled < self.lines.len() {
            let line = self.lines[self.pulled].clone();
            self.pulled = self.pulled + 1;
            Some(line)
        } else {
            None
        }
    }
}

} // verus!
