use vstd::prelude::*;

use vstd::string::*;

use crate::mode::Key;
use crate::state::BufferState;
use crate::state::Cursor;

verus! {

/// How `BufferState::left` moves the cursor.
pub open spec fn moved_left(pre: BufferState, post: BufferState) -> bool {
    &&& post.content == pre.content
    &&& ({
        let c = pre.cursor;
        if c.col > 0 {
            post.cursor == (Cursor { row: c.row, col: (c.col - 1) as usize })
        } else if c.row > 0 {
            post.cursor == (Cursor {
                row: (c.row - 1) as usize,
                col: if pre.lines()[c.row - 1].len() == 0 {
                    0
                } else {
                    (pre.lines()[c.row - 1].len() - 1) as usize
                },
            })
        } else {
            post.cursor == c
        }
    })
}

/// How `BufferState::right` moves the cursor.
pub open spec fn moved_right(pre: BufferState, post: BufferState) -> bool {
    &&& post.content == pre.content
    &&& ({
        let c = pre.cursor;
        if (c.col as int) < pre.cur_line().len() {
            post.cursor == (Cursor { row: c.row, col: (c.col + 1) as usize })
        } else if (c.row as int) < pre.lines().len() - 1 {
            post.cursor == (Cursor { row: (c.row + 1) as usize, col: 0 })
        } else {
            post.cursor == c
        }
    })
}

/// How `BufferState::up` moves the cursor.
pub open spec fn moved_up(pre: BufferState, post: BufferState) -> bool {
    &&& post.content == pre.content
    &&& ({
        let c = pre.cursor;
        if c.row == 0 {
            post.cursor == c
        } else {
            post.cursor == (Cursor {
                row: (c.row - 1) as usize,
                col: if (c.col as int) <= pre.lines()[c.row - 1].len() {
                    c.col
                } else {
                    pre.lines()[c.row - 1].len() as usize
                },
            })
        }
    })
}

/// How `BufferState::down` moves the cursor.
pub open spec fn moved_down(pre: BufferState, post: BufferState) -> bool {
    &&& post.content == pre.content
    &&& ({
        let c = pre.cursor;
        if c.row as int == pre.lines().len() - 1 {
            post.cursor == c
        } else {
            post.cursor == (Cursor {
                row: (c.row + 1) as usize,
                col: if (c.col as int) <= pre.lines()[c.row + 1].len() {
                    c.col
                } else {
                    pre.lines()[c.row + 1].len() as usize
                },
            })
        }
    })
}

/// How `CommandResolver::remove_char` edits the state: the character
/// under the cursor leaves the line, and a cursor left at the new end
/// of the line moves one step left.
pub open spec fn removed_char(pre: BufferState, post: BufferState) -> bool {
    let row = pre.cursor.row as int;
    let col = pre.cursor.col as int;
    let nl = pre.cur_line().remove(col);
    exists|mid: BufferState|
        {
            &&& #[trigger] mid.lines() == pre.lines().update(row, nl)
            &&& mid.cursor == pre.cursor
            &&& mid.content.dirty == pre.content.dirty
            &&& if col == nl.len() {
                moved_left(mid, post)
            } else {
                post == mid
            }
        }
}

/// What resolving the sequence `k` does to a state: the single keys
/// `j k h l` move, `x` deletes under the cursor when a character is
/// there; anything else leaves the state alone.
pub open spec fn state_effect(k: Seq<char>, pre: BufferState, post: BufferState) -> bool {
    if k.len() == 1 && k[0] == 'j' {
        moved_down(pre, post)
    } else if k.len() == 1 && k[0] == 'k' {
        moved_up(pre, post)
    } else if k.len() == 1 && k[0] == 'h' {
        moved_left(pre, post)
    } else if k.len() == 1 && k[0] == 'l' {
        moved_right(pre, post)
    } else if k.len() == 1 && k[0] == 'x' {
        if (pre.cursor.col as int) < pre.cur_line().len() {
            removed_char(pre, post)
        } else {
            post == pre
        }
    } else if k.len() == 1 && k[0] == 'a' {
        moved_right(pre, post)
    } else {
        post == pre
    }
}

/// The mode name the sequence `k` switches to, or the old name.
pub open spec fn mode_effect(k: Seq<char>, m: Seq<char>) -> Seq<char> {
    if k.len() == 1 && (k[0] == 'i' || k[0] == 'a') {
        "insert"@
    } else if k.len() == 1 && k[0] == ':' {
        "command"@
    } else {
        m
    }
}

/// A key dispatcher over a `BufferState` for hosts that track the mode
/// as a plain name: accumulated keys resolve to cursor movement, a
/// character delete, or a switch of the mode name.
pub struct CommandResolver {
    keys: Vec<char>,
    pub mode: String,
}

impl CommandResolver {
    /// The accumulated key sequence.
    pub closed spec fn spec_keys(&self) -> Seq<char> {
        self.keys@
    }

    /// The mode name's characters.
    pub closed spec fn spec_mode(&self) -> Seq<char> {
        self.mode@
    }

    /// A resolver with no accumulated keys and an empty mode name.
    pub fn new() -> (r: CommandResolver)
        ensures
            r.spec_keys() == Seq::<char>::empty(),
            r.spec_mode() == Seq::<char>::empty(),
    {
        CommandResolver { keys: Vec::new(), mode: String::new() }
    }

    /// Routes one key: arrow keys move the cursor directly, a character
    /// key joins the accumulator; the accumulated sequence is then
    /// resolved against the state.
    pub fn handle(&mut self, key: Key, state: &mut BufferState)
        requires
            old(state).wf(),
        ensures
            final(state).wf(),
            match key {
                Key::Char(c) => {
                    &&& final(self).spec_keys() == old(self).spec_keys().push(c)
                    &&& final(self).spec_mode() == mode_effect(
                        old(self).spec_keys().push(c),
                        old(self).spec_mode(),
                    )
                    &&& state_effect(old(self).spec_keys().push(c), *old(state), *final(state))
                },
                Key::Down => exists|mid: BufferState|
                    #[trigger] moved_down(*old(state), mid) && mid.wf() && final(self).spec_keys()
                        == old(self).spec_keys() && final(self).spec_mode() == mode_effect(
                        old(self).spec_keys(),
                        old(self).spec_mode(),
                    ) && state_effect(old(self).spec_keys(), mid, *final(state)),
                Key::Up => exists|mid: BufferState|
                    #[trigger] moved_up(*old(state), mid) && mid.wf() && final(self).spec_keys()
                        == old(self).spec_keys() && final(self).spec_mode() == mode_effect(
                        old(self).spec_keys(),
                        old(self).spec_mode(),
                    ) && state_effect(old(self).spec_keys(), mid, *final(state)),
                Key::Left => exists|mid: BufferState|
                    #[trigger] moved_left(*old(state), mid) && mid.wf() && final(self).spec_keys()
                        == old(self).spec_keys() && final(self).spec_mode() == mode_effect(
                        old(self).spec_keys(),
                        old(self).spec_mode(),
                    ) && state_effect(old(self).spec_keys(), mid, *final(state)),
                Key::Right => exists|mid: BufferState|
                    #[trigger] moved_right(*old(state), mid) && mid.wf() && final(self).spec_keys()
                        == old(self).spec_keys() && final(self).spec_mode() == mode_effect(
                        old(self).spec_keys(),
                        old(self).spec_mode(),
                    ) && state_effect(old(self).spec_keys(), mid, *final(state)),
                _ => {
                    &&& final(self).spec_keys() == old(self).spec_keys()
                    &&& final(self).spec_mode() == mode_effect(old(self).spec_keys(), old(self).spec_mode())
                    &&& state_effect(old(self).spec_keys(), *old(state), *final(state))
                },
            },
    {
        match key {
            Key::Char(c) => {
                self.keys.push(c);
                self.handle_command(state);
            },
            Key::Down => {
                state.down();
                let ghost mid = *state;
                self.handle_command(state);
                proof {
                    assert(moved_down(*old(state), mid) && mid.wf() && final(self).spec_keys()
                        == old(self).spec_keys() && final(self).spec_mode() == mode_effect(
                        old(self).spec_keys(),
                        old(self).spec_mode(),
                    ) && state_effect(old(self).spec_keys(), mid, *final(state)));
                }
            },
            Key::Up => {
                state.up();
                let ghost mid = *state;
                self.handle_command(state);
                proof {
                    assert(moved_up(*old(state), mid) && mid.wf() && final(self).spec_keys()
                        == old(self).spec_keys() && final(self).spec_mode() == mode_effect(
                        old(self).spec_keys(),
                        old(self).spec_mode(),
                    ) && state_effect(old(self).spec_keys(), mid, *final(state)));
                }
            },
            Key::Left => {
                state.left();
                let ghost mid = *state;
                self.handle_command(state);
                proof {
                    assert(moved_left(*old(state), mid) && mid.wf() && final(self).spec_keys()
                        == old(self).spec_keys() && final(self).spec_mode() == mode_effect(
                        old(self).spec_keys(),
                        old(self).spec_mode(),
                    ) && state_effect(old(self).spec_keys(), mid, *final(state)));
                }
            },
            Key::Right => {
                state.right();
                let ghost mid = *state;
                self.handle_command(state);
                proof {
                    assert(moved_right(*old(state), mid) && mid.wf() && final(self).spec_keys()
                        == old(self).spec_keys() && final(self).spec_mode() == mode_effect(
                        old(self).spec_keys(),
                        old(self).spec_mode(),
                    ) && state_effect(old(self).spec_keys(), mid, *final(state)));
                }
            },
            _ => {
                self.handle_command(state);
            },
        }
    }

    /// Resolves the whole accumulator against the state: movement keys,
    /// the delete key and the mode switches `i`, `a` and `:`.
    fn handle_command(&mut self, state: &mut BufferState)
        requires
            old(state).wf(),
        ensures
            final(state).wf(),
            final(self).spec_keys() == old(self).spec_keys(),
            final(self).spec_mode() == mode_effect(old(self).spec_keys(), old(self).spec_mode()),
            state_effect(old(self).spec_keys(), *old(state), *final(state)),
    {
        if self.keys.len() != 1 {
            return ;
        }
        let k = self.keys[0];
        match k {
            'i' => {
                self.mode = String::from_str("insert");
            },
            'a' => {
                state.right();
                self.mode = String::from_str("insert");
            },
            ':' => {
                self.mode = String::from_str("command");
            },
            'j' => state.down(),
            'k' => state.up(),
            'h' => state.left(),
            'l' => state.right(),
            'x' => {
                let len = state.content.data[state.cursor.row].len();
                if state.cursor.col < len {
                    self.remove_char(state);
                }
            },
            _ => {},
        }
    }

    /// Removes the character under the cursor; when the cursor is then
    /// left at the end of the line, it moves one step left.  There must
    /// be a character under the cursor.
    pub fn remove_char(&mut self, state: &mut BufferState)
        requires
            old(state).wf(),
            (old(state).cursor.col as int) < old(state).cur_line().len(),
        ensures
            final(state).wf(),
            *final(self) == *old(self),
            removed_char(*old(state), *final(state)),
    {
        let row = state.cursor.row;
        let col = state.cursor.col;
        let line = &mut state.content.data[row];
        line.remove(col);
        proof {
            assert(state.lines() =~= old(state).lines().update(
                row as int,
                old(state).cur_line().remove(col as int),
            ));
        }
        let ghost mid = *state;
        let new_len = state.content.data[row].len();
        if col == new_len {
            state.left();
        }
        proof {
            assert(mid.lines() == old(state).lines().update(
                row as int,
                old(state).cur_line().remove(col as int),
            ));
        }
    }
}

} // verus!
