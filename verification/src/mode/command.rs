use vstd::prelude::*;

use crate::buffer::Buffer;
use crate::mode::Key;
use crate::mode::Mode;

verus! {

/// The state after submitting the accumulated command line: `q`
/// requests exit, `w` requests a write of the buffer, `wq` both; any
/// other command is ignored; the command line is cleared either way.
pub open spec fn execute_command_rel(pre: Buffer, post: Buffer) -> bool {
    let k = pre.keys@;
    let is_q = k.len() == 1 && k[0] == 'q';
    let is_w = k.len() == 1 && k[0] == 'w';
    let is_wq = k.len() == 2 && k[0] == 'w' && k[1] == 'q';
    &&& post.filename == pre.filename
    &&& post.events == pre.events
    &&& post.last_key_ms == pre.last_key_ms
    &&& post.spec_message() == pre.spec_message()
    &&& post.spec_message_error() == pre.spec_message_error()
    &&& post.same_edit_fields(&pre)
    &&& post.mode == pre.mode
    &&& post.keys@ == Seq::<char>::empty()
    &&& post.exit == (pre.exit || is_q || is_wq)
    &&& post.pending_write == (pre.pending_write || is_w || is_wq)
}

/// The state after one key in command mode: characters accumulate on
/// the command line, backspace shortens it -- or leaves command mode
/// when it is already empty -- enter executes it, and escape returns to
/// normal mode.
pub open spec fn command_key_rel(pre: Buffer, post: Buffer, key: Key) -> bool {
    match key {
        Key::Char(c) => {
            &&& post.same_host_fields(&pre)
            &&& post.same_edit_fields(&pre)
            &&& post.mode == pre.mode
            &&& post.keys@ == pre.keys@.push(c)
        },
        Key::Backspace => {
            &&& post.same_host_fields(&pre)
            &&& post.same_edit_fields(&pre)
            &&& if pre.keys@.len() > 0 {
                post.mode == pre.mode && post.keys@ == pre.keys@.drop_last()
            } else {
                post.mode == Mode::Normal && post.keys@ == Seq::<char>::empty()
            }
        },
        Key::Enter => execute_command_rel(pre, post),
        Key::Esc => {
            &&& post.same_host_fields(&pre)
            &&& post.same_edit_fields(&pre)
            &&& post.mode == Mode::Normal
            &&& post.keys@ == Seq::<char>::empty()
        },
        _ => post == pre,
    }
}

/// Routes one key in command mode.
pub fn handle_command_keys(buf: &mut Buffer, key: Key)
    requires
        old(buf).wf(),
    ensures
        final(buf).wf(),
        command_key_rel(*old(buf), *final(buf), key),
{
    match key {
        Key::Char(c) => {
            buf.keys.push(c);
        },
        Key::Backspace => pop_char(buf),
        Key::Enter => execute_command(buf),
        Key::Esc => buf.change_mode(Mode::Normal),
        _ => {},
    }
}

/// Executes the accumulated `:` command: `q` to exit, `w` to request a
/// write, `wq` for both; anything else is dropped.
fn execute_command(buf: &mut Buffer)
    requires
        old(buf).wf(),
    ensures
        final(buf).wf(),
        execute_command_rel(*old(buf), *final(buf)),
{
    if buf.keys.len() == 1 && buf.keys[0] == 'q' {
        buf.exit = true;
    } else if buf.keys.len() == 1 && buf.keys[0] == 'w' {
        buf.pending_write = true;
    } else if buf.keys.len() == 2 && buf.keys[0] == 'w' && buf.keys[1] == 'q' {
        buf.exit = true;
        buf.pending_write = true;
    }
    buf.keys = Vec::new();
}

/// Shortens the command line by one character; leaves command mode when
/// it is already empty.
fn pop_char(buf: &mut Buffer)
    requires
        old(buf).wf(),
    ensures
        final(buf).wf(),
        final(buf).same_host_fields(old(buf)),
        final(buf).same_edit_fields(old(buf)),
        old(buf).keys@.len() > 0 ==> final(buf).mode == old(buf).mode && final(buf).keys@ == old(
            buf,
        ).keys@.drop_last(),
        old(buf).keys@.len() == 0 ==> final(buf).mode == Mode::Normal && final(buf).keys@
            == Seq::<char>::empty(),
{
    let popped = buf.keys.pop();
    if popped.is_none() {
        buf.change_mode(Mode::Normal);
    }
}

} // verus!
