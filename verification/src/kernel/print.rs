//! Kernel text output: to the framebuffer console once there is one,
//! otherwise to the serial port.

use vstd::prelude::*;
use vstd::string::StringSliceAdditionalSpecFns;
use crate::drivers::graphics::console::{put_text, ConsoleDriver};

verus! {

/// Where kernel text goes.
pub struct KernelWriter {
    pub console: Option<ConsoleDriver>,
}

impl KernelWriter {
    /// Writes `s` to the console when there is one and returns true; with
    /// no console it returns false and the text is for the serial port.
    pub fn write_str(&mut self, s: &str) -> (r: bool)
        requires
            old(self).console matches Some(c) ==> c.wf(),
        ensures
            r == old(self).console is Some,
            match old(self).console {
                Some(c) => final(self).console matches Some(c2) && c2.font == c.font && c2.model()
                    == put_text(c.model(), s.spec_bytes(), c.fg, c.bg) && c2.wf(),
                None => final(self).console is None,
            },
    {
        match &mut self.console {
            Some(c) => {
                c.write_str_raw(s);
                true
            },
            None => false,
        }
    }
}

} // verus!
