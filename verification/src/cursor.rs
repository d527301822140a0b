//! A bounded, re-sliceable cursor over a shared character buffer.
//!
//! A cursor does not own the text it scans: the buffer is passed to every
//! reading operation, so one buffer can back many views at once.  A cursor
//! is a window `[pos, end)` into the buffer together with the name of the
//! source the text came from.  A *range view* is a cursor produced by
//! `range`; it has its own bounds and never extends them.  A *streaming*
//! cursor may widen its window with `extend_end` after the buffer's owner
//! has appended more text; the buffer itself only ever grows, so spans
//! taken earlier stay valid.

use vstd::prelude::*;
use crate::error::MacroError;

verus! {

pub struct Cursor {
    /// Name of the source this text came from; builtins that report
    /// locations read it.
    pub file: String,
    /// The next code-point index to read.
    pub pos: usize,
    /// One past the last readable code-point index.
    pub end: usize,
}

impl Cursor {
    /// The cursor's window lies within a buffer of `buflen` characters.
    pub open spec fn wf(self, buflen: nat) -> bool {
        self.pos <= self.end <= buflen
    }

    /// The characters still to be read.
    pub open spec fn remaining(self, buf: Seq<char>) -> Seq<char> {
        buf.subrange(self.pos as int, self.end as int)
    }

    /// A cursor over the whole of `buf`.
    pub fn over(buf: &Vec<char>, file: String) -> (c: Cursor)
        ensures
            c.pos == 0,
            c.end == buf@.len(),
            c.file@ == file@,
            c.wf(buf@.len()),
    {
        Cursor { file, pos: 0, end: buf.len() }
    }

    /// Returns the character at `pos` and advances by one code point;
    /// returns nothing at `end`.
    pub fn next(&mut self, buf: &Vec<char>) -> (r: Option<char>)
        requires
            old(self).wf(buf@.len()),
        ensures
            final(self).end == old(self).end,
            final(self).file == old(self).file,
            old(self).pos < old(self).end ==> r == Some(buf@[old(self).pos as int])
                && final(self).pos == old(self).pos + 1,
            old(self).pos >= old(self).end ==> r is None && final(self).pos == old(self).pos,
    {
        if self.pos < self.end {
            let c = buf[self.pos];
            self.pos = self.pos + 1;
            Some(c)
        } else {
            None
        }
    }

    /// Rewinds by one code point.  Valid only immediately after a `next`
    /// that advanced; the precondition makes that discipline checked
    /// instead of silently corrupting the position.
    pub fn back(&mut self)
        requires
            old(self).pos >= 1,
        ensures
            final(self).pos == old(self).pos - 1,
            final(self).end == old(self).end,
            final(self).file == old(self).file,
    {
        self.pos = self.pos - 1;
    }

    /// A bounded view over `[start, stop)` of the same buffer.  The view
    /// carries no stream source: its `end` never moves.  Fails with an
    /// unwindable-range error if the bounds do not fit under this cursor's
    /// `end`.
    pub fn range(&self, start: usize, stop: usize) -> (r: Result<Cursor, MacroError>)
        ensures
            r is Ok <==> start <= stop <= self.end,
            r matches Ok(v) ==> v.pos == start && v.end == stop && v.file@ == self.file@,
            r matches Err(e) ==> e is UnboundedRange,
    {
        if start <= stop && stop <= self.end {
            Ok(Cursor { file: self.file.clone(), pos: start, end: stop })
        } else {
            Err(MacroError::UnboundedRange)
        }
    }

    /// Consumes and returns the characters up to and excluding the next
    /// line feed (consuming the line feed itself), or up to `end` if there
    /// is none; returns nothing if the cursor is already exhausted.
    pub fn read_til_eol(&mut self, buf: &Vec<char>) -> (r: Option<Vec<char>>)
        requires
            old(self).wf(buf@.len()),
        ensures
            final(self).end == old(self).end,
            final(self).file == old(self).file,
            old(self).pos == old(self).end ==> r is None && final(self).pos == old(self).pos,
            old(self).pos < old(self).end ==> (r matches Some(v) && v@ == buf@.subrange(
                old(self).pos as int,
                line_end(buf@, old(self).pos as int, old(self).end as int),
            ) && final(self).pos == after_line(buf@, old(self).pos as int, old(self).end as int)),
    {
        if self.pos == self.end {
            return None;
        }
        let ghost pos0 = self.pos as int;
        let ghost e = self.end as int;
        let mut v: Vec<char> = Vec::new();
        while self.pos < self.end && buf[self.pos] != '\n'
            invariant
                0 <= pos0 <= self.pos <= self.end,
                self.end == old(self).end,
                self.file == old(self).file,
                self.end <= buf@.len(),
                e == self.end as int,
                forall|j: int| pos0 <= j < self.pos ==> buf@[j] != '\n',
                v@ == buf@.subrange(pos0, self.pos as int),
            decreases self.end - self.pos,
        {
            v.push(buf[self.pos]);
            assert(v@ =~= buf@.subrange(pos0, self.pos as int + 1));
            self.pos = self.pos + 1;
        }
        proof {
            lemma_line_end_at(buf@, pos0, e, self.pos as int);
        }
        if self.pos < self.end {
            self.pos = self.pos + 1;
        }
        Some(v)
    }

    /// Consumes everything from `pos` to `end`, materializing it; the
    /// cursor is exhausted afterwards.
    pub fn collect_text(&mut self, buf: &Vec<char>) -> (r: Vec<char>)
        requires
            old(self).wf(buf@.len()),
        ensures
            final(self).end == old(self).end,
            final(self).file == old(self).file,
            final(self).pos == old(self).end,
            r@ == old(self).remaining(buf@),
    {
        let mut v: Vec<char> = Vec::new();
        let ghost pos0 = self.pos as int;
        while self.pos < self.end
            invariant
                0 <= pos0 <= self.pos <= self.end,
                self.end == old(self).end,
                self.file == old(self).file,
                self.end <= buf@.len(),
                v@ == buf@.subrange(pos0, self.pos as int),
            decreases self.end - self.pos,
        {
            v.push(buf[self.pos]);
            assert(v@ =~= buf@.subrange(pos0, self.pos as int + 1));
            self.pos = self.pos + 1;
        }
        v
    }

    /// Exhausts the cursor without materializing anything.
    pub fn consume(&mut self)
        requires
            old(self).pos <= old(self).end,
        ensures
            final(self).pos == old(self).end,
            final(self).end == old(self).end,
            final(self).file == old(self).file,
    {
        self.pos = self.end;
    }

    /// How many code points are still to be read.
    pub fn len_remaining(&self) -> (n: usize)
        requires
            self.pos <= self.end,
        ensures
            n == self.remaining_len(),
    {
        self.end - self.pos
    }

    /// The number of code points still to be read.
    pub open spec fn remaining_len(self) -> int {
        self.end - self.pos
    }

    /// Widens a streaming cursor's window after the buffer's owner has
    /// appended more text.  Range views are never extended: only the
    /// cursor this is called on moves its `end`.
    pub fn extend_end(&mut self, new_end: usize, buf: &Vec<char>)
        requires
            old(self).end <= new_end,
            new_end <= buf@.len(),
        ensures
            final(self).pos == old(self).pos,
            final(self).file == old(self).file,
            final(self).end == new_end,
    {
        self.end = new_end;
    }
}

/// The index of the first line feed at or after `pos` (up to `end`),
/// or `end` if there is none.
pub open spec fn line_end(buf: Seq<char>, pos: int, end: int) -> int
    decreases end - pos,
{
    if pos >= end {
        end
    } else if buf[pos] == '\n' {
        pos
    } else {
        line_end(buf, pos + 1, end)
    }
}

/// The position after consuming a line and its terminator, if any.
pub open spec fn after_line(buf: Seq<char>, pos: int, end: int) -> int {
    if line_end(buf, pos, end) < end {
        line_end(buf, pos, end) + 1
    } else {
        line_end(buf, pos, end)
    }
}

/// `line_end` is exactly the first position that either holds a line feed
/// or is `end`.
pub proof fn lemma_line_end_at(buf: Seq<char>, pos: int, end: int, p: int)
    requires
        pos <= p <= end,
        forall|j: int| pos <= j < p ==> buf[j] != '\n',
        p < end ==> buf[p] == '\n',
    ensures
        line_end(buf, pos, end) == p,
    decreases p - pos,
{
    if pos < p {
        lemma_line_end_at(buf, pos + 1, end, p);
    }
}

/// Bounds of `line_end`, and that everything before it is not a line feed.
pub proof fn lemma_line_end_bounds(buf: Seq<char>, pos: int, end: int)
    requires
        pos <= end,
    ensures
        pos <= line_end(buf, pos, end) <= end,
        forall|j: int| pos <= j < line_end(buf, pos, end) ==> buf[j] != '\n',
        line_end(buf, pos, end) < end ==> buf[line_end(buf, pos, end)] == '\n',
    decreases end - pos,
{
    if pos < end && buf[pos] != '\n' {
        lemma_line_end_bounds(buf, pos + 1, end);
    }
}

/// What a view reads depends only on the buffer below its own `end`:
/// two buffers that agree there give the same remaining text.
pub proof fn lemma_view_confined(c: Cursor, buf1: Seq<char>, buf2: Seq<char>)
    requires
        c.pos <= c.end,
        c.end <= buf1.len(),
        c.end <= buf2.len(),
        forall|i: int| 0 <= i < c.end ==> buf1[i] == buf2[i],
    ensures
        c.remaining(buf1) == c.remaining(buf2),
{
    assert(c.remaining(buf1) =~= c.remaining(buf2));
}

/// A range view cannot read past its own `end` even after the parent
/// cursor's window is extended and the shared buffer has grown: the view
/// still reads exactly the characters it was created over.
pub proof fn lemma_range_view_unaffected_by_growth(
    view: Cursor,
    buf: Seq<char>,
    grown: Seq<char>,
)
    requires
        view.pos <= view.end <= buf.len(),
        buf.len() <= grown.len(),
        forall|i: int| 0 <= i < buf.len() ==> grown[i] == buf[i],
    ensures
        view.remaining(grown) == view.remaining(buf),
{
    lemma_view_confined(view, grown, buf);
}

} // verus!
