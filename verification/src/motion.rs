use vstd::prelude::*;

use crate::buffer::Buffer;
use crate::buffer::Position;
use crate::buffer::cursor_col_bound;
use crate::buffer::spec_last_normal_col;
use crate::mode::Mode;
use crate::navigation;
use crate::navigation::right_bound;
use crate::navigation::spec_find_col;
use crate::navigation::spec_find_prev_col;
use crate::navigation::spec_prev_word_start;
use crate::navigation::spec_word_end;
use crate::navigation::spec_word_start;
use crate::navigation::valid_pos;
use crate::navigation::wf_pos;

verus! {

/// A cursor relocation.  Motions are pure: executing one reads the buffer
/// and returns a new position without mutating anything.
#[derive(Clone, Copy, Debug, PartialEq, Eq)]
pub enum Motion {
    Left,
    Right,
    Up,
    Down,
    LineStart,
    LineEnd,
    PrevWordStart,
    StartWord,
    WordEnd,
    Find { char: char },
    FindPrev { char: char },
}

/// The motion a key sequence resolves to, or `None` when the sequence is
/// not a motion.  Resolution is stateless: equal sequences always resolve
/// alike.
pub open spec fn spec_motion_of(keys: Seq<char>) -> Option<Motion> {
    if keys.len() == 1 {
        match keys[0] {
            'h' => Some(Motion::Left),
            'j' => Some(Motion::Down),
            'k' => Some(Motion::Up),
            'l' => Some(Motion::Right),
            '^' => Some(Motion::LineStart),
            '$' => Some(Motion::LineEnd),
            'b' => Some(Motion::PrevWordStart),
            'e' => Some(Motion::WordEnd),
            'w' => Some(Motion::StartWord),
            _ => None,
        }
    } else if keys.len() >= 2 {
        match keys[0] {
            'f' => Some(Motion::Find { char: keys[1] }),
            'F' => Some(Motion::FindPrev { char: keys[1] }),
            _ => None,
        }
    } else {
        None
    }
}

impl Motion {
    /// Resolves an accumulated key sequence to a motion: the single-key
    /// motions `h j k l ^ $ b e w`, or the two-key forms `f<char>` and
    /// `F<char>`.
    pub fn new(keys: &[char]) -> (m: Option<Motion>)
        ensures
            m == spec_motion_of(keys@),
    {
        if keys.len() == 1 {
            match keys[0] {
                'h' => Some(Motion::Left),
                'j' => Some(Motion::Down),
                'k' => Some(Motion::Up),
                'l' => Some(Motion::Right),
                '^' => Some(Motion::LineStart),
                '$' => Some(Motion::LineEnd),
                'b' => Some(Motion::PrevWordStart),
                'e' => Some(Motion::WordEnd),
                'w' => Some(Motion::StartWord),
                _ => None,
            }
        } else if keys.len() >= 2 {
            Self::two_char_motions(keys)
        } else {
            None
        }
    }

    /// Resolves the two-key motion grammar `f<char>` / `F<char>`.
    fn two_char_motions(keys: &[char]) -> (m: Option<Motion>)
        requires
            keys@.len() >= 2,
        ensures
            m == spec_motion_of(keys@),
    {
        match (keys[0], keys[1]) {
            ('f', char) => Some(Motion::Find { char }),
            ('F', char) => Some(Motion::FindPrev { char }),
            _ => None,
        }
    }

    /// Where this motion sends the cursor of `buf`, as a row and column
    /// pair; motions are total, every buffer state yields a target.
    pub open spec fn target(self, buf: Buffer) -> (int, int) {
        let lines = buf.lines();
        let crow = buf.cursor.row as int;
        let ccol = buf.cursor.col as int;
        match self {
            Motion::Left => (crow, if ccol == 0 { 0 } else { ccol - 1 }),
            Motion::Right => (
                crow,
                if ccol < right_bound(buf.cur_line(), buf.mode) {
                    ccol + 1
                } else {
                    ccol
                },
            ),
            Motion::Up => if crow == 0 {
                (crow, ccol)
            } else {
                (
                    crow - 1,
                    if ccol <= spec_last_normal_col(lines[crow - 1]) {
                        ccol
                    } else {
                        spec_last_normal_col(lines[crow - 1])
                    },
                )
            },
            Motion::Down => if crow >= lines.len() - 1 {
                (crow, ccol)
            } else {
                (
                    crow + 1,
                    if ccol <= spec_last_normal_col(lines[crow + 1]) {
                        ccol
                    } else {
                        spec_last_normal_col(lines[crow + 1])
                    },
                )
            },
            Motion::LineStart => (crow, 0),
            Motion::LineEnd => (crow, spec_last_normal_col(buf.cur_line())),
            Motion::PrevWordStart => spec_prev_word_start(lines, crow, ccol),
            Motion::StartWord => spec_word_start(lines, crow, ccol),
            Motion::WordEnd => spec_word_end(lines, crow, ccol),
            Motion::Find { char } => (crow, spec_find_col(buf.cur_line(), char, ccol)),
            Motion::FindPrev { char } => (crow, spec_find_prev_col(buf.cur_line(), char, ccol)),
        }
    }

    /// Computes the position this motion sends the cursor to.  Motions
    /// are pure: the buffer is only read.  From a normal-mode buffer the
    /// result is always a valid normal-mode position, whatever the
    /// buffer's contents: motions clamp and never fail.
    pub fn execute(self, buf: &Buffer) -> (res: Position)
        requires
            buf.wf(),
        ensures
            res.row as int == self.target(*buf).0,
            res.col as int == self.target(*buf).1,
            wf_pos(buf.lines(), res),
            buf.inv() && buf.mode is Normal ==> valid_pos(buf.lines(), res),
    {
        match self {
            Motion::Left => navigation::left(buf),
            Motion::Down => navigation::down(buf),
            Motion::Up => navigation::up(buf),
            Motion::Right => navigation::right(buf),
            Motion::LineStart => navigation::start_line(buf),
            Motion::LineEnd => navigation::end_line(buf),
            Motion::PrevWordStart => navigation::prev_word_start(buf),
            Motion::WordEnd => navigation::word_end(buf),
            Motion::StartWord => navigation::word_start(buf),
            Motion::Find { char } => navigation::find_char(buf, char),
            Motion::FindPrev { char } => navigation::find_prev_char(buf, char),
        }
    }

    /// Law: motions clamp.  From any buffer whose cursor satisfies the
    /// normal-mode invariants -- the row indexes a line, the column
    /// stays within the last normal column -- the target of every
    /// motion satisfies them again.  Applied motion after motion, this
    /// keeps the cursor of any sequence of motions inside the buffer.
    pub proof fn lemma_motion_clamps(self, buf: Buffer)
        requires
            buf.inv(),
            buf.mode is Normal,
        ensures
            0 <= self.target(buf).0 < buf.lines().len(),
            0 <= self.target(buf).1 <= spec_last_normal_col(buf.lines()[self.target(buf).0]),
    {
        let lines = buf.lines();
        let crow = buf.cursor.row as int;
        let ccol = buf.cursor.col as int;
        match self {
            Motion::PrevWordStart | Motion::StartWord | Motion::WordEnd => {
                crate::navigation::lemma_word_motions_clamped(lines, crow, ccol);
            },
            Motion::Find { char } => {
                crate::navigation::lemma_find_clamped(buf.cur_line(), char, ccol);
            },
            Motion::FindPrev { char } => {
                crate::navigation::lemma_find_clamped(buf.cur_line(), char, ccol);
            },
            _ => {},
        }
    }

    /// True for the word-start motions.  The delete engine excludes the
    /// destination character of a motion marked here, and includes it for
    /// every other motion; conventional modal editors attach the flag the
    /// other way around, so the name is kept only for continuity and the
    /// range computation is what counts.
    pub fn inclusive(&self) -> (r: bool)
        ensures
            r == self.spec_inclusive(),
    {
        matches!(self, Motion::PrevWordStart | Motion::StartWord)
    }

    /// Spec twin of `inclusive`.
    pub open spec fn spec_inclusive(&self) -> bool {
        self is PrevWordStart || self is StartWord
    }
}

} // verus!
