use vstd::prelude::*;

use crate::buffer::line_views;
use crate::buffer::raw_lines;
use crate::buffer::split_acc;

verus! {

/// A value together with a flag that records whether it has been
/// changed since it was last written out.
pub struct Dirty<T> {
    pub data: T,
    pub dirty: bool,
}

impl<T> Dirty<T> {
    /// Wraps `data`, initially clean.
    pub fn new(data: T) -> (r: Dirty<T>)
        ensures
            r.data == data,
            !r.dirty,
    {
        Dirty { data, dirty: false }
    }
}

/// A bare row and column; the insert-style cursor of `BufferState`,
/// which may stand one past the end of its line.
#[derive(Default, Clone, Copy, Debug, PartialEq, Eq, Structural)]
pub struct Cursor {
    pub row: usize,
    pub col: usize,
}

/// A simpler buffer model than `Buffer`: lines and an insert-style
/// cursor, without modes, registers or key accumulation.
pub struct BufferState {
    pub content: Dirty<Vec<Vec<char>>>,
    pub cursor: Cursor,
}

impl BufferState {
    /// The mathematical contents: one character sequence per line.
    pub open spec fn lines(&self) -> Seq<Seq<char>> {
        line_views(self.content.data)
    }

    /// The line under the cursor.
    pub open spec fn cur_line(&self) -> Seq<char> {
        self.lines()[self.cursor.row as int]
    }

    /// Well-formedness: at least one line, the cursor row in range and
    /// the cursor column at most one past the end of its line.
    pub open spec fn wf(&self) -> bool {
        &&& self.lines().len() >= 1
        &&& (self.cursor.row as int) < self.lines().len()
        &&& (self.cursor.col as int) <= self.cur_line().len()
    }

    /// A state over the given text, split at every newline; the cursor
    /// starts at the origin.
    pub fn new(content: String) -> (r: BufferState)
        ensures
            r.wf(),
            r.lines() == raw_lines(content@),
            r.cursor == (Cursor { row: 0, col: 0 }),
            !r.content.dirty,
    {
        let lines = Self::split_content(content);
        BufferState { content: Dirty::new(lines), cursor: Cursor { row: 0, col: 0 } }
    }

    /// Splits `content` at every newline, keeping empty pieces, so that
    /// the result always has at least one piece.
    pub fn split_content(content: String) -> (lines: Vec<Vec<char>>)
        ensures
            line_views(lines) == raw_lines(content@),
            lines@.len() >= 1,
    {
        let text = content.as_str();
        let n = text.unicode_len();
        let mut out: Vec<Vec<char>> = Vec::new();
        let mut cur: Vec<char> = Vec::new();
        let ghost mut done: Seq<Seq<char>> = Seq::empty();
        let mut i: usize = 0;
        proof {
            assert(text@.skip(0) =~= text@);
            assert(done + split_acc(text@, Seq::empty()) =~= split_acc(text@, Seq::empty()));
        }
        #[verifier::loop_isolation(false)]
        while i < n
            invariant
                i <= n,
                n == text@.len(),
                raw_lines(text@) == done + split_acc(text@.skip(i as int), cur@),
                done.len() == out@.len(),
                forall|j: int| 0 <= j < done.len() ==> done[j] == (#[trigger] out@[j])@,
            decreases n - i,
        {
            let c = text.get_char(i);
            proof {
                assert(text@.skip(i as int)[0] == c);
                assert(text@.skip(i as int).skip(1) =~= text@.skip(i as int + 1));
            }
            if c == '\n' {
                proof {
                    assert(done + split_acc(text@.skip(i as int), cur@) =~= (done + seq![cur@])
                        + split_acc(text@.skip(i as int + 1), Seq::empty()));
                    done = done + seq![cur@];
                }
                out.push(cur);
                cur = Vec::new();
            } else {
                cur.push(c);
            }
            i += 1;
        }
        proof {
            assert(text@.skip(n as int) =~= Seq::<char>::empty());
            assert(raw_lines(text@) =~= done.push(cur@));
        }
        out.push(cur);
        proof {
            assert(line_views(out) =~= raw_lines(text@));
        }
        out
    }

    /// One column left; at column zero of a later row, wraps to the
    /// last normal column of the previous line.
    pub fn left(&mut self)
        requires
            old(self).wf(),
        ensures
            final(self).wf(),
            final(self).content == old(self).content,
            ({
                let pre = old(self).cursor;
                if pre.col > 0 {
                    final(self).cursor == (Cursor { row: pre.row, col: (pre.col - 1) as usize })
                } else if pre.row > 0 {
                    final(self).cursor == (Cursor {
                        row: (pre.row - 1) as usize,
                        col: if old(self).lines()[pre.row - 1].len() == 0 {
                            0
                        } else {
                            (old(self).lines()[pre.row - 1].len() - 1) as usize
                        },
                    })
                } else {
                    final(self).cursor == pre
                }
            }),
    {
        if self.cursor.col == 0 {
            if self.cursor.row != 0 {
                let prev_len = self.content.data[self.cursor.row - 1].len();
                self.cursor.col = if prev_len == 0 {
                    0
                } else {
                    prev_len - 1
                };
                self.cursor.row = self.cursor.row - 1;
            }
        } else {
            self.cursor.col = self.cursor.col - 1;
        }
    }

    /// One column right; one past the end of a line, wraps to the start
    /// of the next line.
    pub fn right(&mut self)
        requires
            old(self).wf(),
        ensures
            final(self).wf(),
            final(self).content == old(self).content,
            ({
                let pre = old(self).cursor;
                if (pre.col as int) < old(self).cur_line().len() {
                    final(self).cursor == (Cursor { row: pre.row, col: (pre.col + 1) as usize })
                } else if (pre.row as int) < old(self).lines().len() - 1 {
                    final(self).cursor == (Cursor { row: (pre.row + 1) as usize, col: 0 })
                } else {
                    final(self).cursor == pre
                }
            }),
    {
        let current_len = self.content.data[self.cursor.row].len();
        if self.cursor.col == current_len {
            if self.cursor.row != self.content.data.len() - 1 {
                self.cursor.row = self.cursor.row + 1;
                self.cursor.col = 0;
            }
        } else {
            self.cursor.col = self.cursor.col + 1;
        }
    }

    /// One row up, stopping at the first row; the column is clamped to
    /// the end of the target line.
    pub fn up(&mut self)
        requires
            old(self).wf(),
        ensures
            final(self).wf(),
            final(self).content == old(self).content,
            ({
                let pre = old(self).cursor;
                if pre.row == 0 {
                    final(self).cursor == pre
                } else {
                    final(self).cursor == (Cursor {
                        row: (pre.row - 1) as usize,
                        col: if (pre.col as int) <= old(self).lines()[pre.row - 1].len() {
                            pre.col
                        } else {
                            old(self).lines()[pre.row - 1].len() as usize
                        },
                    })
                }
            }),
    {
        if self.cursor.row == 0 {
            return ;
        }
        let prev_len = self.content.data[self.cursor.row - 1].len();
        self.cursor.row = self.cursor.row - 1;
        if self.cursor.col > prev_len {
            self.cursor.col = prev_len;
        }
    }

    /// One row down, stopping at the last row; the column is clamped to
    /// the end of the target line.
    pub fn down(&mut self)
        requires
            old(self).wf(),
        ensures
            final(self).wf(),
            final(self).content == old(self).content,
            ({
                let pre = old(self).cursor;
                if pre.row as int == old(self).lines().len() - 1 {
                    final(self).cursor == pre
                } else {
                    final(self).cursor == (Cursor {
                        row: (pre.row + 1) as usize,
                        col: if (pre.col as int) <= old(self).lines()[pre.row + 1].len() {
                            pre.col
                        } else {
                            old(self).lines()[pre.row + 1].len() as usize
                        },
                    })
                }
            }),
    {
        if self.cursor.row == self.content.data.len() - 1 {
            return ;
        }
        let next_len = self.content.data[self.cursor.row + 1].len();
        self.cursor.row = self.cursor.row + 1;
        if self.cursor.col > next_len {
            self.cursor.col = next_len;
        }
    }

    /// The last column of the current line; unchanged on an empty line.
    pub fn end(&mut self)
        requires
            old(self).wf(),
        ensures
            final(self).wf(),
            final(self).content == old(self).content,
            final(self).cursor.row == old(self).cursor.row,
            final(self).cursor.col as int == if old(self).cur_line().len() > 0 {
                old(self).cur_line().len() - 1
            } else {
                old(self).cursor.col as int
            },
    {
        let len = self.content.data[self.cursor.row].len();
        if len != 0 {
            self.cursor.col = len - 1;
        }
    }

    /// Column zero of the current row.
    pub fn start(&mut self)
        ensures
            final(self).content == old(self).content,
            final(self).cursor == (Cursor { row: old(self).cursor.row, col: 0 }),
    {
        self.cursor.col = 0;
    }

    /// Breaks the current line at the cursor: the head becomes a line
    /// of its own above, the cursor moves to the start of the tail.
    pub fn new_line(&mut self)
        requires
            old(self).wf(),
        ensures
            final(self).wf(),
            final(self).content.dirty == old(self).content.dirty,
            final(self).lines() == old(self).lines().update(
                old(self).cursor.row as int,
                old(self).cur_line().subrange(
                    old(self).cursor.col as int,
                    old(self).cur_line().len() as int,
                ),
            ).insert(
                old(self).cursor.row as int,
                old(self).cur_line().subrange(0, old(self).cursor.col as int),
            ),
            final(self).cursor == (Cursor { row: (old(self).cursor.row + 1) as usize, col: 0 }),
    {
        let row = self.cursor.row;
        let col = self.cursor.col;
        let nrows = self.content.data.len();
        proof {
            assert(row < nrows);
        }
        let line_len = self.content.data[row].len();
        let line = &self.content.data[row];
        let head = crate::utils::copy_range(line, 0, col);
        let tail = crate::utils::copy_range(line, col, line_len);
        self.content.data[row] = tail;
        self.content.data.insert(row, head);
        self.cursor.col = 0;
        self.cursor.row = row + 1;
        proof {
            assert(final(self).lines() =~= old(self).lines().update(
                row as int,
                old(self).cur_line().subrange(col as int, old(self).cur_line().len() as int),
            ).insert(row as int, old(self).cur_line().subrange(0, col as int)));
        }
    }
}

} // verus!
