use vstd::prelude::*;

pub mod command_resolver;

use crate::actions::Action;
use crate::actions::delete::delete_motion_rel;
use crate::actions::spec_action_of;
use crate::buffer::Buffer;
use crate::buffer::IDLE_TIMEOUT_MS;
use crate::buffer::Register;
use crate::buffer::Position;
use crate::buffer::spec_last_normal_col;
use crate::event::Event;
use crate::mode::Key;
use crate::mode::Mode;
use crate::motion::Motion;
use crate::motion::spec_motion_of;
use crate::navigation;

verus! {

/// Whether a key arriving at `now` comes too long after the previous
/// one: the accumulated sequence is then stale and starts over.  A
/// clock reading earlier than the previous key's counts as not expired.
pub open spec fn idle_expired(last: u64, now: u64) -> bool {
    now as int - last as int > IDLE_TIMEOUT_MS as int
}

/// The key sequence under resolution after `key` arrives at `now`: the
/// accumulator extended by the key, or the key alone when the idle
/// threshold has passed since the previous key.
pub open spec fn accumulated(pre: Buffer, key: char, now: u64) -> Seq<char> {
    if idle_expired(pre.last_key_ms, now) {
        seq![key]
    } else {
        pre.keys@.push(key)
    }
}

/// The state after deleting the character under the cursor (`x`): the
/// character leaves the line and the cursor column is clamped to the
/// shortened line; on an empty line, or with the cursor past the end of
/// its line, nothing changes.
pub open spec fn delete_char_rel(pre: Buffer, post: Buffer) -> bool {
    let row = pre.cursor.row as int;
    let col = pre.cursor.col as int;
    let line = pre.cur_line();
    if line.len() == 0 || col >= line.len() {
        post.lines() == pre.lines() && post.cursor == pre.cursor
    } else {
        let nl = line.remove(col);
        &&& post.lines() == pre.lines().update(row, nl)
        &&& post.cursor == (Position {
            row: pre.cursor.row,
            col: if col <= spec_last_normal_col(nl) {
                pre.cursor.col
            } else {
                spec_last_normal_col(nl) as usize
            },
        })
    }
}

/// The state after one character key in normal mode: the accumulated
/// sequence -- fresh again after the idle threshold -- is resolved
/// first as a motion, then as an action, then as one of the mode keys
/// `i`, `a`, `:` or the delete key `x`; an unresolved sequence keeps
/// accumulating.  A resolved sequence clears the accumulator and is
/// recorded in the event log; the clock reading is remembered either
/// way.  `reg0` and `reg1` are the session register before and after:
/// only a delete action writes it.
pub open spec fn normal_char_rel(
    pre: Buffer,
    post: Buffer,
    reg0: Map<char, Seq<char>>,
    reg1: Map<char, Seq<char>>,
    key: char,
    now: u64,
) -> bool {
    let keys = accumulated(pre, key, now);
    &&& post.filename == pre.filename
    &&& post.exit == pre.exit
    &&& post.pending_write == pre.pending_write
    &&& post.spec_message() == pre.spec_message()
    &&& post.spec_message_error() == pre.spec_message_error()
    &&& post.last_key_ms == now
    &&& match spec_motion_of(keys) {
        Some(m) => {
            &&& post.content == pre.content
            &&& reg1 == reg0
            &&& post.mode == pre.mode
            &&& post.keys@ == Seq::<char>::empty()
            &&& post.events@ == pre.events@.push(Event::Motion(m))
            &&& post.cursor.row as int == m.target(pre).0
            &&& post.cursor.col as int == m.target(pre).1
        },
        None => match spec_action_of(keys) {
            Some(a) => {
                &&& post.keys@ == Seq::<char>::empty()
                &&& post.events@ == pre.events@.push(Event::Action(a))
                &&& match a {
                    Action::Delete { motion } => post.mode == pre.mode && delete_motion_rel(
                        pre,
                        post,
                        reg0,
                        reg1,
                        motion,
                    ),
                    Action::Change { motion } => post.mode is Insert && delete_motion_rel(
                        pre,
                        post,
                        reg0,
                        reg1,
                        motion,
                    ),
                    Action::DeleteLine => post.mode == pre.mode
                        && crate::actions::delete::delete_line_rel(pre, post, reg0, reg1),
                    Action::DeleteEnd => post.mode == pre.mode
                        && crate::actions::delete::delete_end_rel(pre, post, reg0, reg1),
                }
            },
            None => {
                &&& post.events == pre.events
                &&& reg1 == reg0
                &&& if keys == seq!['i'] {
                    &&& post.same_edit_fields(&pre)
                    &&& post.mode == Mode::Insert
                    &&& post.keys@ == Seq::<char>::empty()
                } else if keys == seq!['a'] {
                    &&& post.content == pre.content
                    &&& post.mode == Mode::Insert
                    &&& post.keys@ == Seq::<char>::empty()
                    &&& post.cursor == (Position {
                        row: pre.cursor.row,
                        col: if (pre.cursor.col as int) < pre.cur_line().len() {
                            (pre.cursor.col + 1) as usize
                        } else {
                            pre.cursor.col
                        },
                    })
                } else if keys == seq![':'] {
                    &&& post.same_edit_fields(&pre)
                    &&& post.mode == Mode::Command
                    &&& post.keys@ == Seq::<char>::empty()
                } else if keys == seq!['x'] {
                    &&& post.mode == pre.mode
                    &&& post.keys@ == Seq::<char>::empty()
                    &&& delete_char_rel(pre, post)
                } else {
                    &&& post.same_edit_fields(&pre)
                    &&& post.mode == pre.mode
                    &&& post.keys@ == keys
                }
            },
        },
    }
}

/// The state after one key in normal mode: escape clears the
/// accumulator, a character key is accumulated and resolved, and every
/// other key is ignored; only a resolved delete touches the session
/// register.
pub open spec fn normal_key_rel(
    pre: Buffer,
    post: Buffer,
    reg0: Map<char, Seq<char>>,
    reg1: Map<char, Seq<char>>,
    key: Key,
    now: u64,
) -> bool {
    match key {
        Key::Char(c) => normal_char_rel(pre, post, reg0, reg1, c, now),
        Key::Esc => {
            &&& post.same_host_fields(&pre)
            &&& post.same_edit_fields(&pre)
            &&& post.mode == pre.mode
            &&& post.keys@ == Seq::<char>::empty()
            &&& reg1 == reg0
        },
        _ => post == pre && reg1 == reg0,
    }
}

/// Routes one key in normal mode, with the session register and the
/// clock reading that drives the idle timeout.
pub fn handle_normal_keys(buf: &mut Buffer, register: &mut Register, key: Key, now_ms: u64)
    requires
        old(buf).wf(),
        old(register).wf(),
    ensures
        final(buf).wf(),
        final(register).wf(),
        normal_key_rel(*old(buf), *final(buf), old(register)@, final(register)@, key, now_ms),
{
    match key {
        Key::Char(c) => handle_char(buf, register, c, now_ms),
        Key::Esc => {
            buf.keys = Vec::new();
        },
        _ => {},
    }
}

proof fn lemma_target_ignores_keys(m: Motion, a: Buffer, b: Buffer)
    requires
        a.content == b.content,
        a.cursor == b.cursor,
        a.mode == b.mode,
    ensures
        m.target(a) == m.target(b),
{
    assert(a.lines() == b.lines());
    assert(a.cur_line() == b.cur_line());
}

proof fn lemma_delete_rels_ignore_keys(
    pre1: Buffer,
    pre2: Buffer,
    post: Buffer,
    reg0: Map<char, Seq<char>>,
    reg1: Map<char, Seq<char>>,
    a: Action,
)
    requires
        pre1.same_edit_fields(&pre2),
        pre1.mode == pre2.mode,
    ensures
        a matches Action::Delete { motion } ==> (delete_motion_rel(pre1, post, reg0, reg1, motion)
            <==> delete_motion_rel(pre2, post, reg0, reg1, motion)),
        a matches Action::Change { motion } ==> (delete_motion_rel(pre1, post, reg0, reg1, motion)
            <==> delete_motion_rel(pre2, post, reg0, reg1, motion)),
        crate::actions::delete::delete_line_rel(pre1, post, reg0, reg1)
            <==> crate::actions::delete::delete_line_rel(pre2, post, reg0, reg1),
        crate::actions::delete::delete_end_rel(pre1, post, reg0, reg1)
            <==> crate::actions::delete::delete_end_rel(pre2, post, reg0, reg1),
{
    assert(pre1.lines() == pre2.lines());
    assert(pre1.cur_line() == pre2.cur_line());
    match a {
        Action::Delete { motion } => lemma_target_ignores_keys(motion, pre1, pre2),
        Action::Change { motion } => lemma_target_ignores_keys(motion, pre1, pre2),
        _ => {},
    }
}

/// Accumulates `key` -- starting afresh when the idle threshold has
/// passed -- and resolves the sequence as a motion, an action or a
/// keybinding, clearing the accumulator on success; a resolved delete
/// writes the session register.
pub fn handle_char(buf: &mut Buffer, register: &mut Register, key: char, now_ms: u64)
    requires
        old(buf).wf(),
        old(register).wf(),
    ensures
        final(buf).wf(),
        final(register).wf(),
        normal_char_rel(*old(buf), *final(buf), old(register)@, final(register)@, key, now_ms),
{
    if now_ms >= buf.last_key_ms && now_ms - buf.last_key_ms > IDLE_TIMEOUT_MS {
        buf.keys = Vec::new();
    }
    buf.keys.push(key);
    buf.last_key_ms = now_ms;
    proof {
        assert(buf.keys@ == accumulated(*old(buf), key, now_ms));
    }
    let ghost mid = *buf;
    let found = match Motion::new(buf.keys.as_slice()) {
        Some(motion) => {
            proof {
                lemma_target_ignores_keys(motion, mid, *old(buf));
            }
            let pos = motion.execute(buf);
            buf.cursor = pos;
            buf.events.push(Event::Motion(motion));
            true
        },
        None => match Action::new(buf.keys.as_slice()) {
            Some(action) => {
                buf.events.push(Event::Action(action));
                let ghost before_action = *buf;
                action.execute(buf, register);
                proof {
                    lemma_delete_rels_ignore_keys(
                        before_action,
                        *old(buf),
                        *buf,
                        old(register)@,
                        register@,
                        action,
                    );
                }
                true
            },
            None => execute_keybindings(buf),
        },
    };
    if found {
        buf.keys = Vec::new();
    }
}

/// Resolves the whole accumulator as one of the keybindings `i`, `a`,
/// `:` and `x`, reporting whether it matched.
fn execute_keybindings(buf: &mut Buffer) -> (found: bool)
    requires
        old(buf).wf(),
    ensures
        final(buf).wf(),
        final(buf).same_host_fields(old(buf)),
        final(buf).keys == old(buf).keys,
        ({
            let k = old(buf).keys@;
            if k == seq!['i'] {
                found && final(buf).same_edit_fields(old(buf)) && final(buf).mode == Mode::Insert
            } else if k == seq!['a'] {
                found && final(buf).content == old(buf).content && final(buf).mode == Mode::Insert
                    && final(buf).cursor == (Position {
                    row: old(buf).cursor.row,
                    col: if (old(buf).cursor.col as int) < old(buf).cur_line().len() {
                        (old(buf).cursor.col + 1) as usize
                    } else {
                        old(buf).cursor.col
                    },
                })
            } else if k == seq![':'] {
                found && final(buf).same_edit_fields(old(buf)) && final(buf).mode == Mode::Command
            } else if k == seq!['x'] {
                found && final(buf).mode == old(buf).mode && delete_char_rel(*old(buf), *final(buf))
            } else {
                !found && *final(buf) == *old(buf)
            }
        }),
{
    if buf.keys.len() != 1 {
        proof {
            assert(old(buf).keys@ != seq!['i']);
            assert(old(buf).keys@ != seq!['a']);
            assert(old(buf).keys@ != seq![':']);
            assert(old(buf).keys@ != seq!['x']);
        }
        return false;
    }
    let k = buf.keys[0];
    match k {
        'i' => {
            proof {
                assert(old(buf).keys@ =~= seq!['i']);
            }
            buf.mode = Mode::Insert;
            true
        },
        'a' => {
            proof {
                assert(old(buf).keys@ =~= seq!['a']);
            }
            buf.mode = Mode::Insert;
            let pos = navigation::right(buf);
            buf.cursor = pos;
            true
        },
        ':' => {
            proof {
                assert(old(buf).keys@ =~= seq![':']);
            }
            buf.mode = Mode::Command;
            true
        },
        'x' => {
            proof {
                assert(old(buf).keys@ =~= seq!['x']);
            }
            delete_char(buf);
            true
        },
        _ => {
            proof {
                assert(old(buf).keys@ != seq!['i']);
                assert(old(buf).keys@ != seq!['a']);
                assert(old(buf).keys@ != seq![':']);
                assert(old(buf).keys@ != seq!['x']);
            }
            false
        },
    }
}

/// Removes the character under the cursor, clamping the cursor to the
/// shortened line; a no-op on an empty line.
fn delete_char(buf: &mut Buffer)
    requires
        old(buf).wf(),
    ensures
        final(buf).wf(),
        final(buf).same_except_edit(old(buf)),
        delete_char_rel(*old(buf), *final(buf)),
{
    let row = buf.cursor.row;
    let col = buf.cursor.col;
    let len = buf.content[row].len();
    if len == 0 || col >= len {
        return;
    }
    let line = &mut buf.content[row];
    line.remove(col);
    let new_len = buf.content[row].len();
    let bound = if new_len == 0 {
        0
    } else {
        new_len - 1
    };
    if col > bound {
        buf.cursor.col = bound;
    }
    proof {
        assert(final(buf).lines() =~= old(buf).lines().update(
            row as int,
            old(buf).cur_line().remove(col as int),
        ));
    }
}

} // verus!
