//! The shell: line input, path handling, command parsing and the editor.

pub mod path;
pub mod editor;
pub mod input;
pub mod commands;
pub mod mount;
pub mod autorun;
pub mod tabs;
pub mod disk;

use vstd::prelude::*;
use crate::shell::input::{handle_input_byte, key_effect, line_ok, InputAction};

verus! {

/// The shell's input line.
pub struct Shell {
    line: [u8; 128],
    line_len: usize,
}

impl Shell {
    /// The line typed so far.
    pub closed spec fn typed(&self) -> Seq<u8> {
        self.line@.subrange(0, self.line_len as int)
    }

    pub closed spec fn wf(&self) -> bool {
        line_ok(self.line@, self.line_len as int)
    }

    /// A shell with an empty line.
    pub fn new() -> (r: Self)
        ensures
            r.wf(),
            r.typed() == Seq::<u8>::empty(),
    {
        let r = Shell { line: [0u8; 128], line_len: 0 };
        assert(r.line@.subrange(0, 0) =~= Seq::<u8>::empty());
        r
    }

    /// Applies one key to the line and says what to do (see
    /// `input::handle_input_byte`).
    pub fn handle_input_byte(&mut self, byte: u8) -> (r: InputAction)
        requires
            old(self).wf(),
        ensures
            final(self).wf(),
            ({
                let (after, run) = key_effect(old(self).typed(), byte);
                &&& final(self).typed() == after
                &&& match run {
                    Some(cmd) => r matches InputAction::Execute(c) && c@ == cmd,
                    None => !(r is Execute),
                }
            }),
    {
        handle_input_byte(byte, &mut self.line, &mut self.line_len)
    }
}

} // verus!
