use vstd::prelude::*;

use crate::buffer::line_views;
use crate::buffer::load_lines;
use crate::buffer::spec_lines_of;
use crate::mode::Mode;

verus! {

/// A location in a context's contents: `row` indexes a line, `col` a
/// character within it.
#[derive(Default, Clone, Copy, Debug, PartialEq, Eq, Structural)]
pub struct Position {
    pub col: usize,
    pub row: usize,
}

/// A reduced editing state: lines, cursor, key accumulator, mode and
/// exit flag, without a register or a status line.
pub struct Context {
    pub content: Vec<Vec<char>>,
    pub cursor: Position,
    pub keys: Vec<char>,
    pub mode: Mode,
    pub exit: bool,
}

impl Context {
    /// The mathematical contents: one character sequence per line.
    pub open spec fn lines(&self) -> Seq<Seq<char>> {
        line_views(self.content)
    }

    /// The line under the cursor.
    pub open spec fn cur_line(&self) -> Seq<char> {
        self.lines()[self.cursor.row as int]
    }

    /// Well-formedness: at least one line, the cursor row in range and
    /// the cursor column at most one past the end of its line.
    pub open spec fn wf(&self) -> bool {
        &&& self.lines().len() >= 1
        &&& (self.cursor.row as int) < self.lines().len()
        &&& (self.cursor.col as int) <= self.cur_line().len()
    }

    /// A context over the given text, split into lines; the empty text
    /// yields one empty line.
    pub fn new(content: String) -> (r: Context)
        ensures
            r.wf(),
            r.lines() == spec_lines_of(content@),
            r.cursor == (Position { col: 0, row: 0 }),
            r.keys@ == Seq::<char>::empty(),
            r.mode == Mode::Normal,
            !r.exit,
    {
        let lines = load_lines(content.as_str());
        Context {
            content: lines,
            cursor: Position { col: 0, row: 0 },
            keys: Vec::new(),
            mode: Mode::Normal,
            exit: false,
        }
    }

    /// Switches to `mode` and clears the key accumulator.
    pub fn change_mode(&mut self, mode: Mode)
        ensures
            final(self).mode == mode,
            final(self).keys@ == Seq::<char>::empty(),
            final(self).content == old(self).content,
            final(self).cursor == old(self).cursor,
            final(self).exit == old(self).exit,
    {
        self.mode = mode;
        self.keys = Vec::new();
    }

    /// The line at index `row`; the row must exist.
    pub fn row(&self, row: usize) -> (line: &Vec<char>)
        requires
            (row as int) < self.lines().len(),
        ensures
            line@ == self.lines()[row as int],
    {
        &self.content[row]
    }

    /// Mutable access to the line at index `row`; the row must exist.
    pub fn row_mut(&mut self, row: usize) -> (line: &mut Vec<char>)
        requires
            (row as int) < old(self).lines().len(),
        ensures
            line@ == old(self).lines()[row as int],
            final(self).content@ == old(self).content@.update(row as int, *final(line)),
            final(self).cursor == old(self).cursor,
            final(self).keys == old(self).keys,
            final(self).mode == old(self).mode,
            final(self).exit == old(self).exit,
    {
        &mut self.content[row]
    }
}

} // verus!
