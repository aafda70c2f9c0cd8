use vstd::prelude::*;

use crate::buffer::Buffer;
use crate::buffer::Register;
use crate::mode::Mode;
use crate::motion::Motion;
use crate::motion::spec_motion_of;
use crate::utils::split_first_char;
use delete::delete_end;
use delete::delete_end_rel;
use delete::delete_line;
use delete::delete_line_rel;
use delete::delete_motion;
use delete::delete_motion_rel;

pub mod delete;

verus! {

/// A buffer mutation triggered by a key sequence: `d<motion>`, `dd`, `D`
/// or `c<motion>`.
#[derive(Clone, Copy, Debug, PartialEq, Eq)]
pub enum Action {
    Delete { motion: Motion },
    DeleteLine,
    DeleteEnd,
    Change { motion: Motion },
}

/// The action a non-empty key sequence resolves to, or `None`.  For a
/// `d`-prefixed sequence the literal `dd` is recognised before falling
/// back to a motion-based delete, since `dd` is not itself a motion.
pub open spec fn spec_action_of(keys: Seq<char>) -> Option<Action> {
    match keys[0] {
        'd' => if keys.len() == 2 && keys[1] == 'd' {
            Some(Action::DeleteLine)
        } else {
            match spec_motion_of(keys.skip(1)) {
                Some(m) => Some(Action::Delete { motion: m }),
                None => None,
            }
        },
        'c' => match spec_motion_of(keys.skip(1)) {
            Some(m) => Some(Action::Change { motion: m }),
            None => None,
        },
        'D' => Some(Action::DeleteEnd),
        _ => None,
    }
}

impl Action {
    /// Resolves an accumulated key sequence to an action.
    pub fn new(keys: &[char]) -> (act: Option<Action>)
        requires
            keys@.len() >= 1,
        ensures
            act == spec_action_of(keys@),
    {
        let (prefix, rest) = split_first_char(keys);
        let action = match prefix {
            'd' => {
                if rest.len() == 1 && rest[0] == 'd' {
                    Some(Action::DeleteLine)
                } else {
                    match Motion::new(rest.as_slice()) {
                        Some(motion) => Some(Action::Delete { motion }),
                        None => None,
                    }
                }
            },
            'c' => match Motion::new(rest.as_slice()) {
                Some(motion) => Some(Action::Change { motion }),
                None => None,
            },
            'D' => Some(Action::DeleteEnd),
            _ => None,
        };
        action
    }

    /// Applies the action to the buffer and the session register: a
    /// delete mutates the contents, the cursor and the default slot as
    /// the delete engine's relations state; a change additionally
    /// switches to insert mode and clears the key accumulator.
    pub fn execute(self, buf: &mut Buffer, register: &mut Register)
        requires
            old(buf).wf(),
            old(register).wf(),
        ensures
            final(buf).wf(),
            final(register).wf(),
            match self {
                Action::Delete { motion } => final(buf).same_except_edit(old(buf))
                    && delete_motion_rel(
                    *old(buf),
                    *final(buf),
                    old(register)@,
                    final(register)@,
                    motion,
                ),
                Action::Change { motion } => final(buf).same_host_fields(old(buf))
                    && final(buf).mode is Insert
                    && final(buf).keys@ == Seq::<char>::empty()
                    && delete_motion_rel(
                    *old(buf),
                    *final(buf),
                    old(register)@,
                    final(register)@,
                    motion,
                ),
                Action::DeleteLine => final(buf).same_except_edit(old(buf)) && delete_line_rel(
                    *old(buf),
                    *final(buf),
                    old(register)@,
                    final(register)@,
                ),
                Action::DeleteEnd => final(buf).same_except_edit(old(buf)) && delete_end_rel(
                    *old(buf),
                    *final(buf),
                    old(register)@,
                    final(register)@,
                ),
            },
    {
        match self {
            Action::Delete { motion } => {
                delete_motion(buf, register, motion);
            },
            Action::Change { motion } => {
                delete_motion(buf, register, motion);
                buf.change_mode(Mode::Insert);
            },
            Action::DeleteLine => {
                delete_line(buf, register);
            },
            Action::DeleteEnd => {
                delete_end(buf, register);
            },
        }
    }
}

} // verus!
