use vstd::prelude::*;

verus! {

/// A cursor kept as a bare row and column, for hosts that track the
/// cursor apart from a buffer.
#[derive(Default, Clone, Copy, Debug, PartialEq, Eq, Structural)]
pub struct Cursor {
    pub row: usize,
    pub col: usize,
}

/// A target location for `Cursor::move_to`, with `x` the column and
/// `y` the row.
#[derive(Clone, Copy, Debug, PartialEq, Eq, Structural)]
pub struct Position {
    pub x: usize,
    pub y: usize,
}

impl Cursor {
    /// Places the cursor at `position`.
    pub fn move_to(&mut self, position: Position)
        ensures
            final(self).col == position.x,
            final(self).row == position.y,
    {
        self.col = position.x;
        self.row = position.y;
    }
}

} // verus!
