use vstd::prelude::*;

pub mod command;
pub mod insert;
pub mod normal;

verus! {

/// The editing mode the buffer is in.  Normal mode interprets keys as
/// motions and actions, Insert mode writes text, Command mode collects a
/// `:` command line.
#[derive(Clone, Copy, Debug, PartialEq, Eq, Structural)]
pub enum Mode {
    Normal,
    Insert,
    Command,
}

/// A resolved input key, as delivered by the surrounding application.
/// The core never reads terminal events itself; the caller translates
/// whatever event source it uses into this closed set.
#[derive(Clone, Copy, Debug, PartialEq, Eq, Structural)]
pub enum Key {
    Char(char),
    Esc,
    Backspace,
    Enter,
    Up,
    Down,
    Left,
    Right,
}

impl Mode {
    /// Routes one key to the handler of this mode; `register` is the
    /// session's register file, written only by normal-mode deletes,
    /// and `now_ms` the host's clock reading, which drives the
    /// normal-mode idle timeout.
    pub fn handle_keys(
        &self,
        buf: &mut crate::buffer::Buffer,
        register: &mut crate::buffer::Register,
        key: Key,
        now_ms: u64,
    )
        requires
            old(buf).wf(),
            old(register).wf(),
        ensures
            final(buf).wf(),
            final(register).wf(),
            *self is Normal ==> crate::mode::normal::normal_key_rel(
                *old(buf),
                *final(buf),
                old(register)@,
                final(register)@,
                key,
                now_ms,
            ),
            *self is Insert ==> crate::mode::insert::insert_key_rel(*old(buf), *final(buf), key)
                && final(register)@ == old(register)@,
            *self is Command ==> crate::mode::command::command_key_rel(*old(buf), *final(buf), key)
                && final(register)@ == old(register)@,
    {
        match self {
            Mode::Insert => crate::mode::insert::handle_insert_keys(buf, key),
            Mode::Normal => crate::mode::normal::handle_normal_keys(buf, register, key, now_ms),
            Mode::Command => crate::mode::command::handle_command_keys(buf, key),
        }
    }
}

} // verus!
