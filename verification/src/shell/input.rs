//! The shell's line editing: what each key does to the line being typed.

use vstd::prelude::*;
use crate::kernel::input::{KEY_ESC, KEY_F1, KEY_F2, KEY_F3};
use crate::shell::path::clear_line_buffer;

verus! {

/// Longest line, in bytes, plus one.
pub const LINE_CAPACITY: usize = 128;

/// What the caller does after a key.
pub enum InputAction {
    /// Nothing to show.
    Nothing,
    /// Show the help tab (F1).
    ShowHelp,
    /// Show the memory tab (F2).
    ShowMem,
    /// Show the disks tab (F3).
    ShowDisks,
    /// Clear the console (ESC).
    ClearConsole,
    /// End the line, run this command, and prompt again.
    Execute(Vec<u8>),
    /// Rub out the last character on screen.
    Erase,
    /// Echo the typed character.
    Echo(u8),
}

/// The typed line is its first `len` bytes; the rest of the buffer is
/// zero and there is always room for a terminator.
pub open spec fn line_ok(line: Seq<u8>, len: int) -> bool {
    &&& line.len() == LINE_CAPACITY
    &&& 0 <= len < LINE_CAPACITY
    &&& forall|k: int| len <= k < LINE_CAPACITY ==> line[k] == 0
}

/// The line after a key, and what the caller does.
pub open spec fn key_effect(typed: Seq<u8>, byte: u8) -> (Seq<u8>, Option<Seq<u8>>) {
    if byte == KEY_F1 || byte == KEY_F2 || byte == KEY_F3 || byte == KEY_ESC {
        (Seq::empty(), None)
    } else if byte == 0x0a || byte == 0x0d {
        (Seq::empty(), Some(typed))
    } else if byte == 0x08 {
        (if typed.len() > 0 { typed.drop_last() } else { typed }, None)
    } else if byte < 0x20 || byte > 0x7e || typed.len() >= LINE_CAPACITY - 1 {
        (typed, None)
    } else {
        (typed.push(byte), None)
    }
}

/// Applies one key to the line: the function keys and ESC drop the line;
/// Enter hands it over to be run; backspace removes the last byte;
/// printable ASCII is added while there is room; anything else is
/// ignored.
pub fn handle_input_byte(byte: u8, line: &mut [u8; 128], line_len: &mut usize) -> (r: InputAction)
    requires
        line_ok(old(line)@, *old(line_len) as int),
    ensures
        line_ok(final(line)@, *final(line_len) as int),
        ({
            let typed = old(line)@.subrange(0, *old(line_len) as int);
            let (after, run) = key_effect(typed, byte);
            &&& final(line)@.subrange(0, *final(line_len) as int) == after
            &&& match run {
                Some(cmd) => r matches InputAction::Execute(c) && c@ == cmd,
                None => !(r is Execute),
            }
        }),
        byte == KEY_F1 ==> r is ShowHelp,
        byte == KEY_F2 ==> r is ShowMem,
        byte == KEY_F3 ==> r is ShowDisks,
        byte == KEY_ESC ==> r is ClearConsole,
        byte == 0x08 ==> (if *old(line_len) > 0 { r is Erase } else { r is Nothing }),
        0x20 <= byte <= 0x7e ==> (if *old(line_len) < LINE_CAPACITY - 1 {
            r matches InputAction::Echo(b) && b == byte
        } else {
            r is Nothing
        }),
        ((byte < 0x20 && byte != 0x0a && byte != 0x0d && byte != 0x08 && byte != KEY_ESC) || (byte > 0x7e
            && byte != KEY_F1 && byte != KEY_F2 && byte != KEY_F3)) ==> r is Nothing,
{
    if byte == KEY_F1 || byte == KEY_F2 || byte == KEY_F3 || byte == KEY_ESC {
        *line_len = 0;
        clear_line_buffer(line);
        assert(line@.subrange(0, 0) =~= Seq::<u8>::empty());
        return if byte == KEY_F1 {
            InputAction::ShowHelp
        } else if byte == KEY_F2 {
            InputAction::ShowMem
        } else if byte == KEY_F3 {
            InputAction::ShowDisks
        } else {
            InputAction::ClearConsole
        };
    }
    if byte == 0x0a || byte == 0x0d {
        let n = *line_len;
        let mut cmd: Vec<u8> = Vec::new();
        let mut i: usize = 0;
        while i < n
            invariant
                i <= n,
                n < LINE_CAPACITY,
                line@.len() == LINE_CAPACITY,
                cmd@ == line@.subrange(0, i as int),
            decreases n - i,
        {
            cmd.push(line[i]);
            i += 1;
            assert(cmd@ =~= line@.subrange(0, i as int));
        }
        *line_len = 0;
        clear_line_buffer(line);
        assert(line@.subrange(0, 0) =~= Seq::<u8>::empty());
        return InputAction::Execute(cmd);
    }
    if byte == 0x08 {
        if *line_len > 0 {
            let ghost typed = line@.subrange(0, *line_len as int);
            *line_len = *line_len - 1;
            line[*line_len] = 0;
            assert(line@.subrange(0, *line_len as int) =~= typed.drop_last());
            return InputAction::Erase;
        }
        return InputAction::Nothing;
    }
    if byte < 0x20 || byte > 0x7e {
        return InputAction::Nothing;
    }
    if *line_len >= LINE_CAPACITY - 1 {
        return InputAction::Nothing;
    }
    let ghost typed = line@.subrange(0, *line_len as int);
    line[*line_len] = byte;
    *line_len = *line_len + 1;
    assert(line@.subrange(0, *line_len as int) =~= typed.push(byte));
    InputAction::Echo(byte)
}

} // verus!
