use vstd::prelude::*;

use crate::buffer::Buffer;
use crate::buffer::Register;
use crate::mode::Key;
use crate::mode::Mode;

verus! {

/// An editing session: its buffers, the index of the active one, and
/// the one register file they all share.  Every key dispatch hands the
/// register to the active buffer by mutable reference, so a delete in
/// any buffer is what every buffer -- and the host -- reads back.
pub struct App {
    pub buffers: Vec<Buffer>,
    pub active_buffer: usize,
    pub register: Register,
}

impl App {
    /// The session invariant: the active index names a buffer, every
    /// buffer is well-formed, and so is the shared register file.
    pub open spec fn wf(&self) -> bool {
        &&& (self.active_buffer as int) < self.buffers@.len()
        &&& forall|i: int| 0 <= i < self.buffers@.len() ==> (#[trigger] self.buffers@[i]).wf()
        &&& self.register.wf()
    }

    /// A session over one buffer holding the given text, with an empty
    /// session register; the host reads the file and passes its name
    /// and contents.
    pub fn new(filename: String, text: &str) -> (app: App)
        ensures
            app.wf(),
            app.buffers@.len() == 1,
            app.active_buffer == 0,
            app.register@ == Map::<char, Seq<char>>::empty(),
            app.buffers@[0].inv(),
            app.buffers@[0].filename == filename,
            app.buffers@[0].lines() == crate::buffer::spec_lines_of(text@),
            app.buffers@[0].mode is Normal,
            !app.buffers@[0].exit,
    {
        let register = Register::new();
        let buffer = Buffer::new(filename, text);
        let mut buffers: Vec<Buffer> = Vec::new();
        buffers.push(buffer);
        App { buffers, register, active_buffer: 0 }
    }

    /// Routes one key to the active buffer together with the session
    /// register, so that what a delete yanks is visible session-wide.
    pub fn handle_keys(&mut self, key: Key, now_ms: u64)
        requires
            old(self).wf(),
        ensures
            final(self).wf(),
            final(self).active_buffer == old(self).active_buffer,
            final(self).buffers@.len() == old(self).buffers@.len(),
            forall|i: int|
                0 <= i < old(self).buffers@.len() && i != old(self).active_buffer as int
                    ==> final(self).buffers@[i] == old(self).buffers@[i],
            ({
                let pre = old(self).buffers@[old(self).active_buffer as int];
                let post = final(self).buffers@[old(self).active_buffer as int];
                &&& (pre.mode is Normal ==> crate::mode::normal::normal_key_rel(
                    pre,
                    post,
                    old(self).register@,
                    final(self).register@,
                    key,
                    now_ms,
                ))
                &&& (pre.mode is Insert ==> crate::mode::insert::insert_key_rel(pre, post, key)
                    && final(self).register@ == old(self).register@)
                &&& (pre.mode is Command ==> crate::mode::command::command_key_rel(pre, post, key)
                    && final(self).register@ == old(self).register@)
            }),
    {
        let idx = self.active_buffer;
        let buffer = &mut self.buffers[idx];
        buffer.handle_keys(&mut self.register, key, now_ms);
    }

    /// The buffer the session currently edits.
    pub fn get_active_buffer(&mut self) -> (buf: &mut Buffer)
        requires
            old(self).wf(),
        ensures
            *buf == old(self).buffers@[old(self).active_buffer as int],
            final(self).buffers@ == old(self).buffers@.update(
                old(self).active_buffer as int,
                *final(buf),
            ),
            final(self).active_buffer == old(self).active_buffer,
            final(self).register == old(self).register,
            final(buf).wf() ==> final(self).wf(),
    {
        let idx = self.active_buffer;
        &mut self.buffers[idx]
    }
}

} // verus!
