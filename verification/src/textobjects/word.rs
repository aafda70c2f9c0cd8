use vstd::prelude::*;

use crate::cursor::Position;
use crate::state::BufferState;

verus! {

/// Whether index `i` of `chars` holds a space; indices outside the
/// slice count as non-space.
pub open spec fn is_empty_at(chars: Seq<char>, i: int) -> bool {
    0 <= i < chars.len() && chars[i] == ' '
}

/// Whether a word starts at `col`: the first column, or a non-space
/// directly after a space.
pub open spec fn spec_is_start(col: int, chars: Seq<char>) -> bool {
    col == 0 || (is_empty_at(chars, col - 1) && !is_empty_at(chars, col))
}

/// Whether a word ends at `col`: a non-space directly before a space.
pub open spec fn spec_is_end(col: int, chars: Seq<char>) -> bool {
    is_empty_at(chars, col + 1) && !is_empty_at(chars, col)
}

/// The first index at or below `i` that is not a space, stopping at
/// zero.
pub open spec fn back_over_spaces(chars: Seq<char>, i: int) -> int
    decreases i + 1,
{
    if i <= 0 {
        0
    } else if is_empty_at(chars, i) {
        back_over_spaces(chars, i - 1)
    } else {
        i
    }
}

/// The first index at or above `i` that is not a space; indices past
/// the end count as non-space.
pub open spec fn fwd_over_spaces(chars: Seq<char>, i: int) -> int
    decreases chars.len() - i,
{
    if !is_empty_at(chars, i) {
        i
    } else {
        fwd_over_spaces(chars, i + 1)
    }
}

/// The column where the word around index `i` begins, scanning down
/// with `prev` the character already passed: one past the first space
/// met after a non-space, else column zero.
pub open spec fn scan_word_start(chars: Seq<char>, i: int, prev: char) -> int
    decreases i + 1,
{
    if i < 0 || i >= chars.len() {
        0
    } else if chars[i] == ' ' && prev != ' ' {
        i + 1
    } else if i == 0 {
        0
    } else {
        scan_word_start(chars, i - 1, chars[i])
    }
}

/// The column where the word around index `i` ends, scanning up with
/// `prev` the character already passed: one before the first space met
/// after a non-space, else the last column.
pub open spec fn scan_word_end(chars: Seq<char>, i: int, prev: char) -> int
    decreases chars.len() - i,
{
    if i < 0 || i >= chars.len() {
        chars.len() - 1
    } else if chars[i] == ' ' && prev != ' ' {
        i - 1
    } else {
        scan_word_end(chars, i + 1, chars[i])
    }
}

/// The start column of the word the cursor at `col` belongs to: when
/// the cursor already stands on a word start, the previous word's
/// start.
pub open spec fn spec_get_start(col: int, chars: Seq<char>) -> int {
    let i0 = if col != 0 && spec_is_start(col, chars) {
        back_over_spaces(chars, col - 1)
    } else {
        col
    };
    scan_word_start(chars, i0, ' ')
}

/// The end column of the word the cursor at `col` belongs to: when the
/// cursor already stands on a word end, the next word's end.
pub open spec fn spec_get_end(col: int, chars: Seq<char>) -> int {
    let i0 = if spec_is_end(col, chars) {
        fwd_over_spaces(chars, col + 1)
    } else {
        col
    };
    scan_word_end(chars, i0, ' ')
}

/// The space-separated word under the cursor of a buffer state: the
/// row it stands on and the inclusive column range it spans.
pub struct Word {
    row: usize,
    start: usize,
    end: usize,
}

impl Word {
    /// The column the word starts at.
    pub closed spec fn spec_start(&self) -> int {
        self.start as int
    }

    /// The column the word ends at.
    pub closed spec fn spec_end(&self) -> int {
        self.end as int
    }

    /// The row the word stands on.
    pub closed spec fn spec_row(&self) -> int {
        self.row as int
    }

    /// The word under the cursor of `buffer_state`, whose current line
    /// must not be empty.
    pub fn new(buffer_state: &BufferState) -> (w: Word)
        requires
            buffer_state.wf(),
            buffer_state.cur_line().len() > 0,
        ensures
            w.spec_row() == buffer_state.cursor.row as int,
            w.spec_start() == spec_get_start(
                buffer_state.cursor.col as int,
                buffer_state.cur_line(),
            ),
            w.spec_end() == spec_get_end(buffer_state.cursor.col as int, buffer_state.cur_line()),
    {
        let row = buffer_state.cursor.row;
        let col = buffer_state.cursor.col;
        let curr_row = &buffer_state.content.data[row];
        let start = Self::get_start(col, curr_row.as_slice());
        let end = Self::get_end(col, curr_row.as_slice());
        Word { start, end, row }
    }

    /// The start column of the word around `col`.
    fn get_start(col: usize, chars: &[char]) -> (r: usize)
        ensures
            r as int == spec_get_start(col as int, chars@),
    {
        let mut idx: usize = col;
        if idx != 0 && Self::is_start(idx, chars) {
            idx -= 1;
            #[verifier::loop_isolation(false)]
            while idx > 0 && chars[idx] == ' '
                invariant
                    idx < col,
                    idx < chars@.len(),
                    back_over_spaces(chars@, col - 1) == back_over_spaces(chars@, idx as int),
                decreases idx,
            {
                idx -= 1;
            }
            proof {
                assert(back_over_spaces(chars@, idx as int) == idx as int);
            }
        }
        let mut prev = ' ';
        #[verifier::loop_isolation(false)]
        loop
            invariant
                idx <= col,
                scan_word_start(chars@, (if col != 0 && spec_is_start(col as int, chars@) {
                    back_over_spaces(chars@, col - 1)
                } else {
                    col as int
                }), ' ') == scan_word_start(chars@, idx as int, prev),
            decreases idx + 1,
        {
            if idx >= chars.len() {
                return 0;
            }
            let c = chars[idx];
            if c == ' ' && prev != ' ' {
                return idx + 1;
            } else if idx == 0 {
                return 0;
            }
            prev = c;
            idx -= 1;
        }
    }

    /// The end column of the word around `col`; the slice must not be
    /// empty.
    fn get_end(col: usize, chars: &[char]) -> (r: usize)
        requires
            chars@.len() > 0,
        ensures
            r as int == spec_get_end(col as int, chars@),
            (r as int) < chars@.len(),
    {
        let mut idx: usize = col;
        if Self::is_end(idx, chars) {
            let n = chars.len();
            proof {
                assert(is_empty_at(chars@, col + 1));
                assert(col + 1 < n);
            }
            idx += 1;
            #[verifier::loop_isolation(false)]
            while idx < chars.len() && chars[idx] == ' '
                invariant
                    col < idx,
                    idx <= chars@.len(),
                    fwd_over_spaces(chars@, col + 1) == fwd_over_spaces(chars@, idx as int),
                decreases chars@.len() - idx,
            {
                idx += 1;
            }
            proof {
                assert(fwd_over_spaces(chars@, idx as int) == idx as int);
            }
        }
        let ghost i0: int = if spec_is_end(col as int, chars@) {
            fwd_over_spaces(chars@, col + 1)
        } else {
            col as int
        };
        let mut prev = ' ';
        #[verifier::loop_isolation(false)]
        loop
            invariant
                prev != ' ' ==> idx >= 1,
                scan_word_end(chars@, i0, ' ') == scan_word_end(chars@, idx as int, prev),
            decreases chars@.len() - idx,
        {
            if idx >= chars.len() {
                return chars.len() - 1;
            }
            let c = chars[idx];
            if c == ' ' && prev != ' ' {
                proof {
                    assert(scan_word_end(chars@, idx as int, prev) == idx - 1);
                }
                return idx - 1;
            }
            prev = c;
            idx += 1;
        }
    }

    /// Whether a word starts at `col`.
    fn is_start(col: usize, chars: &[char]) -> (r: bool)
        ensures
            r == spec_is_start(col as int, chars@),
    {
        col == 0 || (Self::is_empty(col - 1, chars) && !Self::is_empty(col, chars))
    }

    /// Whether a word ends at `col`.
    fn is_end(col: usize, chars: &[char]) -> (r: bool)
        ensures
            r == spec_is_end(col as int, chars@),
    {
        if col >= chars.len() {
            false
        } else {
            Self::is_empty(col + 1, chars) && !Self::is_empty(col, chars)
        }
    }

    /// Whether index `idx` holds a space.
    fn is_empty(idx: usize, chars: &[char]) -> (r: bool)
        ensures
            r == is_empty_at(chars@, idx as int),
    {
        if idx < chars.len() {
            chars[idx] == ' '
        } else {
            false
        }
    }

    /// The position of the word's first character.
    pub fn start(&self) -> (p: Position)
        ensures
            p.x as int == self.spec_start(),
            p.y as int == self.spec_row(),
    {
        Position { x: self.start, y: self.row }
    }

    /// The position of the word's last character.
    pub fn end(&self) -> (p: Position)
        ensures
            p.x as int == self.spec_end(),
            p.y as int == self.spec_row(),
    {
        Position { x: self.end, y: self.row }
    }
}

} // verus!
