//! The modal text editor ("ROOTLEAF VIM") as a state machine: every key
//! press moves the editor from one state to the next and tells the caller
//! what to do (keep going, save the text, or leave). Reading keys, drawing
//! and writing files belong to the caller.

use vstd::prelude::*;
use crate::text::str_from_utf8_is_ok;
use vstd::utf8::valid_utf8;
use vstd::string::StringSliceAdditionalSpecFns;

verus! {

pub const MAX_LINES: usize = 256;
pub const LINE_LEN: usize = 128;
pub const MAX_CMD: usize = 32;
pub const MAX_STATUS: usize = 96;
pub const MAX_SAVE: usize = 4096;
pub const VIEW_LINES: usize = 22;

#[derive(Clone, Copy, PartialEq, Eq, Structural)]
pub enum Mode {
    Normal,
    Insert,
    Command,
}

/// What the caller is asked to do after a key press.
pub enum EditorAction {
    /// Redraw and read the next key.
    Continue,
    /// Write `contents` to the file; then report the outcome with
    /// `Editor::finish_save`. `then_quit` is set for ":wq".
    Save { contents: Vec<u8>, then_quit: bool },
    /// Leave the editor (clear the screen and show the shell prompt).
    Quit,
}

/// The abstract state of the editor.
pub ghost struct EditorView {
    pub lines: Seq<Seq<u8>>,
    pub cursor_line: int,
    pub cursor_col: int,
    pub mode: Mode,
    pub cmd: Seq<u8>,
    pub status: Seq<u8>,
    pub pending_d: bool,
    pub dirty: bool,
}

pub struct Editor {
    lines: Vec<Vec<u8>>,
    cursor_line: usize,
    cursor_col: usize,
    mode: Mode,
    cmd: Vec<u8>,
    status: Vec<u8>,
    pending_d: bool,
    dirty: bool,
}

/// A status message as it is stored: at most `MAX_STATUS` bytes.
pub open spec fn status_of(s: &str) -> Seq<u8> {
    let b = s.spec_bytes();
    if b.len() > MAX_STATUS {
        b.subrange(0, MAX_STATUS as int)
    } else {
        b
    }
}

pub open spec fn is_printable(b: u8) -> bool {
    0x20u8 <= b && b <= 0x7eu8
}

/// Shape of a well-formed editor state.
pub open spec fn view_wf(v: EditorView) -> bool {
    &&& 1 <= v.lines.len() <= MAX_LINES
    &&& forall|i: int| 0 <= i < v.lines.len() ==> (#[trigger] v.lines[i]).len() < LINE_LEN
    &&& 0 <= v.cursor_line < v.lines.len()
    &&& 0 <= v.cursor_col
    &&& v.cmd.len() <= MAX_CMD
    &&& v.status.len() <= MAX_STATUS
}

/// The cursor column pulled back onto the current line.
pub open spec fn clamp_view(v: EditorView) -> EditorView {
    if v.cursor_col > v.lines[v.cursor_line].len() {
        EditorView { cursor_col: v.lines[v.cursor_line].len() as int, ..v }
    } else {
        v
    }
}

/// `t` cut at every newline; a text ending in a newline ends in an empty line.
pub open spec fn split_lines(t: Seq<u8>) -> Seq<Seq<u8>>
    decreases t.len(),
{
    if t.len() == 0 {
        seq![Seq::<u8>::empty()]
    } else {
        let prev = split_lines(t.drop_last());
        if t.last() == 0x0au8 {
            prev.push(Seq::empty())
        } else {
            prev.update(prev.len() - 1, prev.last().push(t.last()))
        }
    }
}

/// A line as the editor keeps it: at most `LINE_LEN - 1` bytes.
pub open spec fn truncate_line(l: Seq<u8>) -> Seq<u8> {
    if l.len() > LINE_LEN - 1 {
        l.subrange(0, LINE_LEN - 1)
    } else {
        l
    }
}

pub open spec fn truncate_all(lines: Seq<Seq<u8>>) -> Seq<Seq<u8>> {
    lines.map_values(|l: Seq<u8>| truncate_line(l))
}

pub open spec fn line_views(lines: Seq<Vec<u8>>) -> Seq<Seq<u8>> {
    lines.map_values(|l: Vec<u8>| l@)
}

/// The lines of a file as the editor loads them: the first `MAX_LINES`
/// lines, each cut to `LINE_LEN - 1` bytes; a file that is not UTF-8 (or
/// could not be read) gives one empty line.
pub open spec fn loaded_lines(file: Option<Seq<u8>>) -> Seq<Seq<u8>> {
    match file {
        Some(data) => if valid_utf8(data) {
            let all = truncate_all(split_lines(data));
            if all.len() > MAX_LINES {
                all.subrange(0, MAX_LINES as int)
            } else {
                all
            }
        } else {
            seq![Seq::<u8>::empty()]
        },
        None => seq![Seq::<u8>::empty()],
    }
}

proof fn lemma_split_lines_nonempty(t: Seq<u8>)
    ensures
        split_lines(t).len() >= 1,
    decreases t.len(),
{
    if t.len() > 0 {
        lemma_split_lines_nonempty(t.drop_last());
    }
}

/// Every line of a prefix but its last is a line of the whole text.
proof fn lemma_split_lines_prefix(d: Seq<u8>, j: int)
    requires
        0 <= j <= d.len(),
    ensures
        split_lines(d.subrange(0, j)).len() <= split_lines(d).len(),
        forall|k: int|
            0 <= k < split_lines(d.subrange(0, j)).len() - 1 ==> #[trigger] split_lines(d)[k]
                == split_lines(d.subrange(0, j))[k],
    decreases d.len(),
{
    lemma_split_lines_nonempty(d);
    if j == d.len() {
        assert(d.subrange(0, j) =~= d);
    } else {
        let e = d.drop_last();
        assert(e.subrange(0, j) =~= d.subrange(0, j));
        lemma_split_lines_prefix(e, j);
        lemma_split_lines_nonempty(e);
    }
}

pub open spec fn mode_name(m: Mode) -> Seq<u8> {
    match m {
        Mode::Normal => "NORMAL".spec_bytes(),
        Mode::Insert => "INSERT".spec_bytes(),
        Mode::Command => "COMMAND".spec_bytes(),
    }
}

/// The first line shown: the cursor line stays within the last
/// `VIEW_LINES` rows.
pub open spec fn view_top(cursor_line: int) -> int {
    if cursor_line >= VIEW_LINES {
        cursor_line - (VIEW_LINES - 1)
    } else {
        0
    }
}

pub open spec fn view_end(top: int, count: int) -> int {
    if top + VIEW_LINES < count {
        top + VIEW_LINES
    } else {
        count
    }
}

/// The current line with a bar at the cursor column.
pub open spec fn with_cursor_bar(line: Seq<u8>, col: int) -> Seq<u8> {
    if 0 <= col <= line.len() {
        line.subrange(0, col) + seq![0x7cu8] + line.subrange(col, line.len() as int)
    } else {
        line
    }
}

/// One displayed line: a marker, the line number, a space, the text.
pub open spec fn render_row(v: EditorView, i: int) -> Seq<u8> {
    let cur = i == v.cursor_line;
    (if cur { "> ".spec_bytes() } else { "  ".spec_bytes() }) + crate::convert::decimal((i + 1) as nat)
        + seq![0x20u8] + (if cur { with_cursor_bar(v.lines[i], v.cursor_col) } else { v.lines[i] })
        + seq![0x0au8]
}

pub open spec fn render_rows(v: EditorView, from: int, to: int) -> Seq<u8>
    decreases to - from,
{
    if to <= from {
        Seq::empty()
    } else {
        render_rows(v, from, to - 1) + render_row(v, to - 1)
    }
}

/// `n` filler rows "~".
pub open spec fn filler_rows(n: int) -> Seq<u8>
    decreases n,
{
    if n <= 0 {
        Seq::empty()
    } else {
        filler_rows(n - 1) + seq![0x7eu8, 0x0au8]
    }
}

/// The whole screen: a title line, the visible lines, filler rows up to
/// `VIEW_LINES`, and the command or status line.
pub open spec fn render_spec(v: EditorView, name: Seq<u8>) -> Seq<u8> {
    let top = view_top(v.cursor_line);
    let end = view_end(top, v.lines.len() as int);
    "ROOTLEAF VIM  ".spec_bytes() + name + "  -- ".spec_bytes() + mode_name(v.mode) + seq![0x0au8]
        + render_rows(v, top, end) + filler_rows(top + VIEW_LINES - end) + "-- ".spec_bytes() + (
    if v.mode == Mode::Command {
        seq![0x3au8] + v.cmd
    } else {
        v.status
    }) + seq![0x0au8]
}

/// The text written by ":w": every line followed by a newline.
pub open spec fn join_lines(lines: Seq<Seq<u8>>) -> Seq<u8>
    decreases lines.len(),
{
    if lines.len() == 0 {
        Seq::empty()
    } else {
        join_lines(lines.drop_last()) + lines.last() + seq![0x0au8]
    }
}

/// `lines` without line `i`; an editor always keeps at least one line.
pub open spec fn delete_line_spec(lines: Seq<Seq<u8>>, i: int) -> Seq<Seq<u8>> {
    if lines.len() == 1 {
        seq![Seq::<u8>::empty()]
    } else {
        lines.remove(i)
    }
}

/// The effect of one key press in insert mode (on a clamped state).
pub open spec fn insert_key_spec(v: EditorView, b: u8) -> EditorView {
    let line = v.lines[v.cursor_line];
    let cl = v.cursor_line;
    let col = v.cursor_col;
    if b == 0x1bu8 {
        EditorView { mode: Mode::Normal, pending_d: false, status: status_of("-- NORMAL --"), ..v }
    } else if b == 0x0du8 || b == 0x0au8 {
        if v.lines.len() < MAX_LINES {
            EditorView {
                lines: v.lines.update(cl, line.subrange(0, col)).insert(
                    cl + 1,
                    line.subrange(col, line.len() as int),
                ),
                cursor_line: cl + 1,
                cursor_col: 0,
                dirty: true,
                ..v
            }
        } else {
            v
        }
    } else if b == 0x08u8 {
        if col > 0 {
            EditorView {
                lines: v.lines.update(cl, line.remove(col - 1)),
                cursor_col: col - 1,
                dirty: true,
                ..v
            }
        } else if cl > 0 && v.lines[cl - 1].len() + line.len() < LINE_LEN {
            EditorView {
                lines: v.lines.update(cl - 1, v.lines[cl - 1] + line).remove(cl),
                cursor_line: cl - 1,
                cursor_col: v.lines[cl - 1].len() as int,
                dirty: true,
                ..v
            }
        } else {
            v
        }
    } else if !is_printable(b) || line.len() >= LINE_LEN - 1 {
        v
    } else {
        EditorView {
            lines: v.lines.update(cl, line.insert(col, b)),
            cursor_col: col + 1,
            dirty: true,
            ..v
        }
    }
}

/// The effect of one key press in normal mode (on a clamped state).
pub open spec fn normal_key_spec(v: EditorView, b: u8) -> EditorView {
    let line = v.lines[v.cursor_line];
    let cl = v.cursor_line;
    let col = v.cursor_col;
    let w = EditorView { pending_d: false, ..v };
    if b == 0x69u8 {
        // 'i'
        EditorView { mode: Mode::Insert, status: status_of("-- INSERT --"), ..w }
    } else if b == 0x61u8 {
        // 'a'
        EditorView {
            mode: Mode::Insert,
            status: status_of("-- INSERT --"),
            cursor_col: if col < line.len() { col + 1 } else { col },
            ..w
        }
    } else if b == 0x68u8 {
        // 'h'
        EditorView { cursor_col: if col > 0 { col - 1 } else { 0 }, ..w }
    } else if b == 0x6cu8 {
        // 'l'
        EditorView { cursor_col: if col < line.len() { col + 1 } else { col }, ..w }
    } else if b == 0x6bu8 {
        // 'k'
        EditorView { cursor_line: if cl > 0 { cl - 1 } else { cl }, ..w }
    } else if b == 0x6au8 {
        // 'j'
        EditorView { cursor_line: if cl + 1 < v.lines.len() { cl + 1 } else { cl }, ..w }
    } else if b == 0x30u8 {
        // '0'
        EditorView { cursor_col: 0, ..w }
    } else if b == 0x24u8 {
        // '$'
        EditorView { cursor_col: line.len() as int, ..w }
    } else if b == 0x78u8 {
        // 'x'
        if col < line.len() {
            EditorView { lines: v.lines.update(cl, line.remove(col)), dirty: true, ..w }
        } else {
            w
        }
    } else if b == 0x6fu8 {
        // 'o'
        if v.lines.len() < MAX_LINES {
            EditorView {
                lines: v.lines.insert(cl + 1, Seq::empty()),
                cursor_line: cl + 1,
                cursor_col: 0,
                mode: Mode::Insert,
                dirty: true,
                status: status_of("-- INSERT --"),
                ..w
            }
        } else {
            w
        }
    } else if b == 0x64u8 {
        // 'd'
        if v.pending_d {
            let lines = delete_line_spec(v.lines, cl);
            EditorView {
                lines: lines,
                cursor_line: if cl >= lines.len() { lines.len() - 1 } else { cl },
                cursor_col: 0,
                dirty: true,
                ..w
            }
        } else {
            EditorView {
                pending_d: true,
                status: status_of("d pressed: press d again for dd"),
                ..v
            }
        }
    } else if b == 0x3au8 {
        // ':'
        EditorView { mode: Mode::Command, cmd: Seq::empty(), ..w }
    } else if b == 0x1bu8 {
        EditorView { status: status_of("-- NORMAL --"), ..w }
    } else {
        w
    }
}

/// Appends a string's bytes.
pub fn append_str(out: &mut Vec<u8>, s: &str)
    ensures
        final(out)@ == old(out)@ + s.spec_bytes(),
{
    append_bytes(out, s.as_bytes());
}

/// Appends bytes.
pub fn append_bytes(out: &mut Vec<u8>, s: &[u8])
    ensures
        final(out)@ == old(out)@ + s@,
{
    let mut i: usize = 0;
    let ghost start = out@;
    while i < s.len()
        invariant
            i <= s@.len(),
            out@ == start + s@.subrange(0, i as int),
        decreases s@.len() - i,
    {
        out.push(s[i]);
        i += 1;
        assert(out@ =~= start + s@.subrange(0, i as int));
    }
    assert(s@.subrange(0, s@.len() as int) =~= s@);
}

/// Byte-wise equality of two slices.
pub fn bytes_eq(a: &[u8], b: &[u8]) -> (r: bool)
    ensures
        r == (a@ == b@),
{
    if a.len() != b.len() {
        return false;
    }
    let mut i: usize = 0;
    while i < a.len()
        invariant
            i <= a@.len(),
            a@.len() == b@.len(),
            forall|j: int| 0 <= j < i ==> a@[j] == b@[j],
        decreases a@.len() - i,
    {
        if a[i] != b[i] {
            return false;
        }
        i += 1;
    }
    assert(a@ =~= b@);
    true
}

proof fn lemma_join_lines_take_len(lines: Seq<Seq<u8>>, k: int)
    requires
        0 <= k <= lines.len(),
    ensures
        join_lines(lines.take(k)).len() <= join_lines(lines).len(),
    decreases lines.len(),
{
    if k < lines.len() {
        assert(lines.drop_last().take(k) =~= lines.take(k));
        lemma_join_lines_take_len(lines.drop_last(), k);
    } else {
        assert(lines.take(k) =~= lines);
    }
}

/// The ':' commands the editor knows.
/// ":w"
pub open spec fn is_write_cmd(cmd: Seq<u8>) -> bool {
    cmd == seq![0x77u8]
}

/// ":q"
pub open spec fn is_quit_cmd(cmd: Seq<u8>) -> bool {
    cmd == seq![0x71u8]
}

/// ":q!"
pub open spec fn is_force_quit_cmd(cmd: Seq<u8>) -> bool {
    cmd == seq![0x71u8, 0x21u8]
}

/// ":wq"
pub open spec fn is_write_quit_cmd(cmd: Seq<u8>) -> bool {
    cmd == seq![0x77u8, 0x71u8]
}

proof fn lemma_command_literals()
    ensures
        "w".spec_bytes() == seq![0x77u8],
        "q".spec_bytes() == seq![0x71u8],
        "q!".spec_bytes() == seq![0x71u8, 0x21u8],
        "wq".spec_bytes() == seq![0x77u8, 0x71u8],
{
    reveal_strlit("w");
    reveal_strlit("q");
    reveal_strlit("q!");
    reveal_strlit("wq");
    vstd::string::is_ascii_spec_bytes("w");
    vstd::string::is_ascii_spec_bytes("q");
    vstd::string::is_ascii_spec_bytes("q!");
    vstd::string::is_ascii_spec_bytes("wq");
    assert("w".spec_bytes() =~= seq![0x77u8]);
    assert("q".spec_bytes() =~= seq![0x71u8]);
    assert("q!".spec_bytes() =~= seq![0x71u8, 0x21u8]);
    assert("wq".spec_bytes() =~= seq![0x77u8, 0x71u8]);
}

/// The state after a failed save: back to normal mode with a message.
pub open spec fn save_failed(v: EditorView) -> EditorView {
    EditorView {
        mode: Mode::Normal,
        cmd: Seq::empty(),
        status: status_of("write failed (size/slot)"),
        ..v
    }
}

/// The effect of one key press in command mode, when it does not save or
/// quit (on a clamped state).
pub open spec fn command_key_spec(v: EditorView, b: u8) -> EditorView {
    if b == 0x1bu8 {
        EditorView { mode: Mode::Normal, cmd: Seq::empty(), ..v }
    } else if b == 0x08u8 {
        EditorView {
            cmd: if v.cmd.len() > 0 { v.cmd.drop_last() } else { v.cmd },
            ..v
        }
    } else if b == 0x0du8 || b == 0x0au8 {
        let back = EditorView { mode: Mode::Normal, cmd: Seq::empty(), ..v };
        if is_quit_cmd(v.cmd) {
            EditorView {
                status: status_of("no write since last change (:q! to force)"),
                ..back
            }
        } else if is_write_cmd(v.cmd) || is_write_quit_cmd(v.cmd) {
            save_failed(v)
        } else {
            EditorView { status: status_of("unknown command"), ..back }
        }
    } else if is_printable(b) && v.cmd.len() < MAX_CMD {
        EditorView { cmd: v.cmd.push(b), ..v }
    } else {
        v
    }
}

/// Whether a key press in command mode leaves the editor at once.
pub open spec fn quits_now(v: EditorView, b: u8) -> bool {
    v.mode == Mode::Command && (b == 0x0du8 || b == 0x0au8) && (is_force_quit_cmd(v.cmd) || (
    is_quit_cmd(v.cmd) && !v.dirty))
}

/// Whether a key press in command mode asks for the text to be written.
pub open spec fn saves_now(v: EditorView, b: u8) -> bool {
    v.mode == Mode::Command && (b == 0x0du8 || b == 0x0au8) && (is_write_cmd(v.cmd)
        || is_write_quit_cmd(v.cmd)) && join_lines(v.lines).len() <= MAX_SAVE
}

/// The state after a key press that neither saves nor quits.
pub open spec fn key_spec(v: EditorView, b: u8) -> EditorView {
    let c = clamp_view(v);
    match c.mode {
        Mode::Insert => insert_key_spec(c, b),
        Mode::Normal => normal_key_spec(c, b),
        Mode::Command => command_key_spec(c, b),
    }
}

impl Editor {
    pub closed spec fn view(&self) -> EditorView {
        EditorView {
            lines: line_views(self.lines@),
            cursor_line: self.cursor_line as int,
            cursor_col: self.cursor_col as int,
            mode: self.mode,
            cmd: self.cmd@,
            status: self.status@,
            pending_d: self.pending_d,
            dirty: self.dirty,
        }
    }

    pub closed spec fn wf(&self) -> bool {
        view_wf(self.view())
    }

    fn set_status(&mut self, msg: &str)
        ensures
            final(self).view() == (EditorView { status: status_of(msg), ..old(self).view() }),
    {
        let bytes = msg.as_bytes();
        let mut len = bytes.len();
        if len > MAX_STATUS {
            len = MAX_STATUS;
        }
        let mut st: Vec<u8> = Vec::new();
        let mut i: usize = 0;
        while i < len
            invariant
                len <= bytes@.len(),
                i <= len,
                st@ == bytes@.subrange(0, i as int),
            decreases len - i,
        {
            st.push(bytes[i]);
            i += 1;
            assert(st@ =~= bytes@.subrange(0, i as int));
        }
        assert(bytes@.subrange(0, bytes@.len() as int) =~= bytes@);
        self.status = st;
    }

    /// Pulls the cursor column back onto the current line.
    pub fn clamp_cursor(&mut self)
        requires
            old(self).wf(),
        ensures
            final(self).wf(),
            final(self).view() == clamp_view(old(self).view()),
    {
        let len = self.lines[self.cursor_line].len();
        if self.cursor_col > len {
            self.cursor_col = len;
        }
    }

    /// One key in insert mode.
    fn insert_key(&mut self, b: u8)
        requires
            old(self).wf(),
            old(self).cursor_col <= old(self).lines@[old(self).cursor_line as int]@.len(),
        ensures
            final(self).wf(),
            final(self).view() == insert_key_spec(old(self).view(), b),
    {
        let ghost v = self.view();
        let cl = self.cursor_line;
        let col = self.cursor_col;
        assert(v.lines[cl as int] == self.lines@[cl as int]@);
        if b == 0x1b {
            self.mode = Mode::Normal;
            self.pending_d = false;
            self.set_status("-- NORMAL --");
        } else if b == 0x0d || b == 0x0a {
            if self.lines.len() < MAX_LINES {
                let right = self.lines[cl].split_off(col);
                self.lines.insert(cl + 1, right);
                self.cursor_line = cl + 1;
                self.cursor_col = 0;
                self.dirty = true;
                assert(self.view().lines =~= insert_key_spec(v, b).lines);
            }
        } else if b == 0x08 {
            if col > 0 {
                self.lines[cl].remove(col - 1);
                self.cursor_col = col - 1;
                self.dirty = true;
                assert(self.view().lines =~= insert_key_spec(v, b).lines);
            } else if cl > 0 {
                let prev_len = self.lines[cl - 1].len();
                let cur_len = self.lines[cl].len();
                if prev_len + cur_len < LINE_LEN {
                    let mut cur = self.lines.remove(cl);
                    self.lines[cl - 1].append(&mut cur);
                    self.cursor_line = cl - 1;
                    self.cursor_col = prev_len;
                    self.dirty = true;
                    assert(self.view().lines =~= insert_key_spec(v, b).lines);
                }
            }
        } else {
            if b < 0x20 || b > 0x7e {
                return;
            }
            if self.lines[cl].len() >= LINE_LEN - 1 {
                return;
            }
            self.lines[cl].insert(col, b);
            self.cursor_col = col + 1;
            self.dirty = true;
            assert(self.view().lines =~= insert_key_spec(v, b).lines);
        }
    }

    /// Removes line `idx`; the last remaining line is emptied instead.
    fn delete_line(&mut self, idx: usize)
        requires
            old(self).wf(),
            idx < old(self).lines@.len(),
        ensures
            final(self).view() == (EditorView {
                lines: delete_line_spec(old(self).view().lines, idx as int),
                ..old(self).view()
            }),
    {
        let ghost v = self.view();
        if self.lines.len() == 1 {
            self.lines.set(0, Vec::new());
        } else {
            self.lines.remove(idx);
        }
        assert(self.view().lines =~= delete_line_spec(v.lines, idx as int));
    }

    /// One key in normal mode.
    fn normal_key(&mut self, b: u8)
        requires
            old(self).wf(),
            old(self).cursor_col <= old(self).lines@[old(self).cursor_line as int]@.len(),
        ensures
            final(self).wf(),
            final(self).view() == normal_key_spec(old(self).view(), b),
    {
        let ghost v = self.view();
        let cl = self.cursor_line;
        let col = self.cursor_col;
        let len = self.lines[cl].len();
        assert(v.lines[cl as int] == self.lines@[cl as int]@);
        if b == 0x64 {
            if self.pending_d {
                self.pending_d = false;
                self.delete_line(cl);
                if self.cursor_line >= self.lines.len() {
                    self.cursor_line = self.lines.len() - 1;
                }
                self.cursor_col = 0;
                self.dirty = true;
            } else {
                self.pending_d = true;
                self.set_status("d pressed: press d again for dd");
            }
            return;
        }
        self.pending_d = false;
        if b == 0x69 {
            self.mode = Mode::Insert;
            self.set_status("-- INSERT --");
        } else if b == 0x61 {
            if col < len {
                self.cursor_col = col + 1;
            }
            self.mode = Mode::Insert;
            self.set_status("-- INSERT --");
        } else if b == 0x68 {
            if col > 0 {
                self.cursor_col = col - 1;
            }
        } else if b == 0x6c {
            if col < len {
                self.cursor_col = col + 1;
            }
        } else if b == 0x6b {
            if cl > 0 {
                self.cursor_line = cl - 1;
            }
        } else if b == 0x6a {
            if cl + 1 < self.lines.len() {
                self.cursor_line = cl + 1;
            }
        } else if b == 0x30 {
            self.cursor_col = 0;
        } else if b == 0x24 {
            self.cursor_col = len;
        } else if b == 0x78 {
            if col < len {
                self.lines[cl].remove(col);
                self.dirty = true;
                assert(self.view().lines =~= normal_key_spec(v, b).lines);
            }
        } else if b == 0x6f {
            if self.lines.len() < MAX_LINES {
                self.lines.insert(cl + 1, Vec::new());
                self.cursor_line = cl + 1;
                self.cursor_col = 0;
                self.mode = Mode::Insert;
                self.dirty = true;
                self.set_status("-- INSERT --");
                assert(self.view().lines =~= normal_key_spec(v, b).lines);
            }
        } else if b == 0x3a {
            self.mode = Mode::Command;
            self.cmd = Vec::new();
        } else if b == 0x1b {
            self.set_status("-- NORMAL --");
        }
    }

    /// The text that ":w" writes, or `None` when it exceeds `MAX_SAVE` bytes.
    pub fn script_bytes(&self) -> (r: Option<Vec<u8>>)
        requires
            self.wf(),
        ensures
            r is Some <==> join_lines(self.view().lines).len() <= MAX_SAVE,
            r matches Some(c) ==> c@ == join_lines(self.view().lines),
    {
        let ghost lines = self.view().lines;
        let mut out: Vec<u8> = Vec::new();
        let mut i: usize = 0;
        assert(lines.take(0) =~= Seq::<Seq<u8>>::empty());
        while i < self.lines.len()
            invariant
                self.wf(),
                lines == self.view().lines,
                i <= lines.len(),
                out@ == join_lines(lines.take(i as int)),
                out@.len() <= MAX_SAVE,
            decreases lines.len() - i,
        {
            let len = self.lines[i].len();
            assert(lines[i as int] == self.lines@[i as int]@);
            assert(lines.take(i + 1).drop_last() =~= lines.take(i as int));
            if out.len() + len + 1 > MAX_SAVE {
                proof {
                    lemma_join_lines_take_len(lines, i + 1);
                }
                return None;
            }
            let mut k: usize = 0;
            let ghost start = out@;
            while k < len
                invariant
                    len == self.lines@[i as int]@.len(),
                    i < self.lines@.len(),
                    k <= len,
                    out@ == start + self.lines@[i as int]@.subrange(0, k as int),
                decreases len - k,
            {
                out.push(self.lines[i][k]);
                k += 1;
                assert(out@ =~= start + self.lines@[i as int]@.subrange(0, k as int));
            }
            out.push(0x0a);
            assert(self.lines@[i as int]@.subrange(0, len as int) =~= self.lines@[i as int]@);
            i += 1;
        }
        assert(lines.take(i as int) =~= lines);
        Some(out)
    }

    /// One key in command mode that neither saves nor quits.
    fn command_key(&mut self, b: u8)
        requires
            old(self).wf(),
            !quits_now(old(self).view(), b),
            old(self).mode == Mode::Command,
        ensures
            final(self).wf(),
            final(self).view() == command_key_spec(old(self).view(), b),
    {
        if b == 0x1b {
            self.mode = Mode::Normal;
            self.cmd = Vec::new();
        } else if b == 0x08 {
            if self.cmd.len() > 0 {
                self.cmd.pop();
            }
        } else if b == 0x0d || b == 0x0a {
            proof {
                lemma_command_literals();
            }
            let is_q = bytes_eq(self.cmd.as_slice(), "q".as_bytes());
            let is_w = bytes_eq(self.cmd.as_slice(), "w".as_bytes());
            let is_wq = bytes_eq(self.cmd.as_slice(), "wq".as_bytes());
            self.mode = Mode::Normal;
            self.cmd = Vec::new();
            if is_q {
                self.set_status("no write since last change (:q! to force)");
            } else if is_w || is_wq {
                self.set_status("write failed (size/slot)");
            } else {
                self.set_status("unknown command");
            }
        } else if b >= 0x20 && b <= 0x7e && self.cmd.len() < MAX_CMD {
            self.cmd.push(b);
        }
    }

    /// The screen contents for the current state, titled with the file name.
    pub fn render(&self, name: &[u8]) -> (out: Vec<u8>)
        requires
            self.wf(),
        ensures
            out@ == render_spec(self.view(), name@),
    {
        let ghost v = self.view();
        let mut out: Vec<u8> = Vec::new();
        append_str(&mut out, "ROOTLEAF VIM  ");
        append_bytes(&mut out, name);
        append_str(&mut out, "  -- ");
        match self.mode {
            Mode::Normal => append_str(&mut out, "NORMAL"),
            Mode::Insert => append_str(&mut out, "INSERT"),
            Mode::Command => append_str(&mut out, "COMMAND"),
        }
        out.push(0x0a);
        let ghost header = out@;
        let cl = self.cursor_line;
        let top = if cl >= VIEW_LINES {
            cl - (VIEW_LINES - 1)
        } else {
            0
        };
        let count = self.lines.len();
        let end = if top + VIEW_LINES < count {
            top + VIEW_LINES
        } else {
            count
        };
        let mut i = top;
        while i < end
            invariant
                self.wf(),
                v == self.view(),
                top <= i <= end,
                end <= count,
                count == self.lines@.len(),
                cl == self.cursor_line,
                out@ == header + render_rows(v, top as int, i as int),
            decreases end - i,
        {
            let ghost before = out@;
            let is_cur = i == cl;
            if is_cur {
                append_str(&mut out, "> ");
            } else {
                append_str(&mut out, "  ");
            }
            let mut numbuf: Vec<u8> = vec![0u8; 20];
            let n = crate::convert::u64_to_str((i + 1) as u64, numbuf.as_mut_slice());
            proof {
                crate::convert::lemma_decimal_len((i + 1) as nat);
            }
            append_bytes(&mut out, &numbuf.as_slice()[0..n]);
            out.push(0x20);
            let line = &self.lines[i];
            assert(line@ == v.lines[i as int]);
            if is_cur {
                let col = self.cursor_col;
                if col <= line.len() {
                    append_bytes(&mut out, &line.as_slice()[0..col]);
                    out.push(0x7c);
                    append_bytes(&mut out, &line.as_slice()[col..line.len()]);
                } else {
                    append_bytes(&mut out, line.as_slice());
                }
            } else {
                append_bytes(&mut out, line.as_slice());
            }
            out.push(0x0a);
            assert(out@ =~= before + render_row(v, i as int));
            i += 1;
        }
        let mut k = end;
        let ghost rows = out@;
        assert(filler_rows(0) =~= Seq::<u8>::empty());
        while k < top + VIEW_LINES
            invariant
                top <= MAX_LINES,
                end <= k <= top + VIEW_LINES,
                out@ == rows + filler_rows(k - end),
            decreases top + VIEW_LINES - k,
        {
            out.push(0x7e);
            out.push(0x0a);
            assert(out@ =~= rows + filler_rows(k + 1 - end));
            k += 1;
        }
        append_str(&mut out, "-- ");
        if self.mode == Mode::Command {
            out.push(0x3a);
            append_bytes(&mut out, self.cmd.as_slice());
        } else {
            append_bytes(&mut out, self.status.as_slice());
        }
        out.push(0x0a);
        proof {
            assert(render_spec(v, name@) =~= out@);
        }
        out
    }

    /// Handles one key press. Insert mode edits the text, normal mode moves
    /// and deletes, command mode collects a ':' command and runs it on
    /// Enter. ":w" and ":wq" ask the caller to write the text (when it fits
    /// in `MAX_SAVE` bytes); ":q" leaves unless there are unsaved changes;
    /// ":q!" always leaves.
    pub fn handle_key(&mut self, b: u8) -> (act: EditorAction)
        requires
            old(self).wf(),
        ensures
            final(self).wf(),
            quits_now(old(self).view(), b) ==> act is Quit,
            saves_now(old(self).view(), b) ==> (act matches EditorAction::Save { contents, then_quit }
                && contents@ == join_lines(old(self).view().lines) && then_quit == is_write_quit_cmd(
                old(self).view().cmd,
            ) && final(self).view() == (EditorView {
                mode: Mode::Normal,
                cmd: Seq::empty(),
                ..clamp_view(old(self).view())
            })),
            !quits_now(old(self).view(), b) && !saves_now(old(self).view(), b) ==> act is Continue
                && final(self).view() == key_spec(old(self).view(), b),
    {
        self.clamp_cursor();
        match self.mode {
            Mode::Insert => {
                self.insert_key(b);
                EditorAction::Continue
            },
            Mode::Normal => {
                self.normal_key(b);
                EditorAction::Continue
            },
            Mode::Command => {
                if b == 0x0d || b == 0x0a {
                    proof {
                        lemma_command_literals();
                    }
                    let is_q = bytes_eq(self.cmd.as_slice(), "q".as_bytes());
                    let is_qf = bytes_eq(self.cmd.as_slice(), "q!".as_bytes());
                    let is_w = bytes_eq(self.cmd.as_slice(), "w".as_bytes());
                    let is_wq = bytes_eq(self.cmd.as_slice(), "wq".as_bytes());
                    if is_qf || (is_q && !self.dirty) {
                        assert(self.cmd@[0] == 0x71u8);
                        assert(seq![0x77u8][0] == 0x77u8);
                        assert(seq![0x77u8, 0x71u8][0] == 0x77u8);
                        return EditorAction::Quit;
                    }
                    if is_w || is_wq {
                        match self.script_bytes() {
                            Some(contents) => {
                                self.mode = Mode::Normal;
                                self.cmd = Vec::new();
                                return EditorAction::Save { contents, then_quit: is_wq };
                            },
                            None => {},
                        }
                    }
                }
                self.command_key(b);
                EditorAction::Continue
            },
        }
    }

    /// Reports how the write asked for by `EditorAction::Save` went. A
    /// successful ":wq" leaves the editor; a successful ":w" marks the text
    /// clean; a failed write leaves a message.
    pub fn finish_save(&mut self, ok: bool, then_quit: bool) -> (act: EditorAction)
        requires
            old(self).wf(),
        ensures
            final(self).wf(),
            ok && then_quit ==> act is Quit && final(self).view() == old(self).view(),
            ok && !then_quit ==> act is Continue && final(self).view() == (EditorView {
                dirty: false,
                status: status_of("written"),
                ..old(self).view()
            }),
            !ok ==> act is Continue && final(self).view() == save_failed(old(self).view()),
    {
        if ok {
            if then_quit {
                return EditorAction::Quit;
            }
            self.dirty = false;
            self.set_status("written");
        } else {
            self.mode = Mode::Normal;
            self.cmd = Vec::new();
            self.set_status("write failed (size/slot)");
        }
        EditorAction::Continue
    }

}

/// The status line shown when the editor starts.
pub open spec fn welcome_status() -> Seq<u8> {
    status_of("i:insert  h/j/k/l:move  x:del  o:newline  dd:del-line  :w :q :wq")
}

/// Starts an editing session on a file's contents (`None` when the file
/// could not be read): the text is split into lines, the cursor is at the
/// start, the editor is in normal mode and shows the key help.
pub fn launch(file: Option<&[u8]>) -> (e: Editor)
    ensures
        e.wf(),
        e.view() == (EditorView {
            lines: loaded_lines(match file { Some(d) => Some(d@), None => None }),
            cursor_line: 0,
            cursor_col: 0,
            mode: Mode::Normal,
            cmd: Seq::empty(),
            status: welcome_status(),
            pending_d: false,
            dirty: false,
        }),
{
    let mut lines: Vec<Vec<u8>> = Vec::new();
    match file {
        Some(data) => {
            if str_from_utf8_is_ok(data) {
                lines = split_into_lines(data);
            } else {
                lines.push(Vec::new());
            }
        },
        None => {
            lines.push(Vec::new());
        },
    }
    let mut e = Editor {
        lines,
        cursor_line: 0,
        cursor_col: 0,
        mode: Mode::Normal,
        cmd: Vec::new(),
        status: Vec::new(),
        pending_d: false,
        dirty: false,
    };
    e.set_status("i:insert  h/j/k/l:move  x:del  o:newline  dd:del-line  :w :q :wq");
    proof {
        let ghost f = match file { Some(d) => Some(d@), None => None };
        assert(e.view().lines =~= loaded_lines(f));
        reveal_strlit("i:insert  h/j/k/l:move  x:del  o:newline  dd:del-line  :w :q :wq");
    }
    e
}

fn split_into_lines(data: &[u8]) -> (lines: Vec<Vec<u8>>)
    ensures
        line_views(lines@) == ({
            let all = truncate_all(split_lines(data@));
            if all.len() > MAX_LINES {
                all.subrange(0, MAX_LINES as int)
            } else {
                all
            }
        }),
        1 <= lines@.len() <= MAX_LINES,
        forall|i: int| 0 <= i < lines@.len() ==> (#[trigger] lines@[i])@.len() < LINE_LEN,
{
    let ghost all = truncate_all(split_lines(data@));
    let mut lines: Vec<Vec<u8>> = Vec::new();
    let mut cur: Vec<u8> = Vec::new();
    let mut i: usize = 0;
    let n = data.len();
    assert(data@.subrange(0, 0) =~= Seq::<u8>::empty());
    assert(line_views(lines@).push(cur@) =~= truncate_all(split_lines(
        data@.subrange(0, 0),
    )));
    while i < n
        invariant
            n == data@.len(),
            all == truncate_all(split_lines(data@)),
            i <= n,
            lines@.len() < MAX_LINES,
            cur@.len() < LINE_LEN,
            forall|k: int| 0 <= k < lines@.len() ==> (#[trigger] lines@[k])@.len() < LINE_LEN,
            line_views(lines@).push(cur@) == truncate_all(split_lines(
                data@.subrange(0, i as int),
            )),
        decreases n - i,
    {
        let b = data[i];
        let ghost pre = data@.subrange(0, i as int);
        let ghost post = data@.subrange(0, i + 1);
        assert(post.drop_last() =~= pre);
        assert(post.last() == b);
        proof {
            lemma_split_lines_nonempty(pre);
        }
        if b == 0x0a {
            assert(split_lines(post) == split_lines(pre).push(Seq::empty()));
            let ghost old_map = line_views(lines@);
            let ghost old_cur = cur@;
            lines.push(cur);
            cur = Vec::new();
            assert(line_views(lines@) =~= old_map.push(old_cur));
            assert(line_views(lines@).push(cur@) =~= truncate_all(split_lines(post)));
            if lines.len() >= MAX_LINES {
                proof {
                    lemma_split_lines_prefix(data@, i + 1);
                    lemma_split_lines_nonempty(data@);
                    let m = line_views(lines@);
                    assert(split_lines(post).len() == MAX_LINES + 1);
                    assert(all.len() == split_lines(data@).len());
                    assert forall|k: int| 0 <= k < MAX_LINES implies #[trigger] m[k] == all[k] by {
                        assert(split_lines(data@)[k] == split_lines(post)[k]);
                        assert(m.push(cur@)[k] == m[k]);
                        assert(m.push(cur@)[k] == truncate_all(split_lines(post))[k]);
                        assert(all[k] == truncate_line(split_lines(data@)[k]));
                    }
                    assert(m =~= all.subrange(0, MAX_LINES as int));
                }
                return lines;
            }
        } else {
            let ghost old_cur = cur@;
            let ghost sp = split_lines(pre);
            assert(line_views(lines@).push(old_cur) == truncate_all(sp));
            assert(split_lines(post) == sp.update(sp.len() - 1, sp.last().push(b)));
            assert(truncate_all(sp).len() == sp.len());
            assert(sp.len() == lines@.len() + 1);
            assert(line_views(lines@).push(cur@)[lines@.len() as int] == old_cur);
            assert(truncate_all(sp)[sp.len() - 1] == truncate_line(sp.last()));
            assert(old_cur == truncate_line(sp.last()));
            if cur.len() < LINE_LEN - 1 {
                cur.push(b);
            }
            assert(cur@ == truncate_line(sp.last().push(b))) by {
                if sp.last().len() < LINE_LEN - 1 {
                    assert(cur@ =~= sp.last().push(b));
                } else {
                    assert(cur@ =~= sp.last().push(b).subrange(0, LINE_LEN - 1));
                }
            }
            assert forall|k: int| 0 <= k < lines@.len() implies #[trigger] line_views(lines@)[k]
                == truncate_all(split_lines(post))[k] by {
                assert(line_views(lines@).push(old_cur)[k] == truncate_all(sp)[k]);
            }
            assert(line_views(lines@).push(cur@) =~= truncate_all(split_lines(post)));
        }
        i += 1;
    }
    lines.push(cur);
    assert(data@.subrange(0, n as int) =~= data@);
    assert(line_views(lines@) =~= all);
    lines
}


/// Appending bytes without a line feed extends the last line.
proof fn lemma_split_append(t: Seq<u8>, l: Seq<u8>)
    requires
        forall|j: int| 0 <= j < l.len() ==> l[j] != 0x0au8,
    ensures
        split_lines(t + l) == split_lines(t).update(
            split_lines(t).len() - 1,
            split_lines(t).last() + l,
        ),
    decreases l.len(),
{
    lemma_split_lines_nonempty(t);
    let st = split_lines(t);
    if l.len() == 0 {
        assert(t + l =~= t);
        assert(st.last() + l =~= st.last());
        assert(st.update(st.len() - 1, st.last() + l) =~= st);
    } else {
        let init = l.drop_last();
        lemma_split_append(t, init);
        assert((t + l).drop_last() =~= t + init);
        assert((t + l).last() == l.last());
        let prev = split_lines(t + init);
        assert(prev.last() == st.last() + init);
        assert(prev.last().push(l.last()) =~= st.last() + l);
        assert(prev.update(prev.len() - 1, prev.last().push(l.last())) =~= st.update(
            st.len() - 1,
            st.last() + l,
        ));
    }
}

/// Splitting the text ":w" writes gives its lines back, and one empty
/// line after the final line feed.
proof fn lemma_split_join(ls: Seq<Seq<u8>>)
    requires
        forall|i: int, j: int| 0 <= i < ls.len() && 0 <= j < ls[i].len() ==> ls[i][j] != 0x0au8,
    ensures
        split_lines(join_lines(ls)) == ls.push(Seq::<u8>::empty()),
    decreases ls.len(),
{
    if ls.len() == 0 {
        assert(split_lines(join_lines(ls)) =~= ls.push(Seq::<u8>::empty()));
    } else {
        let front = ls.drop_last();
        let last = ls.last();
        lemma_split_join(front);
        let j = join_lines(front);
        assert forall|k: int| 0 <= k < last.len() implies last[k] != 0x0au8 by {
            assert(ls[ls.len() - 1][k] != 0x0au8);
        }
        assert forall|i: int, k: int| 0 <= i < front.len() && 0 <= k < front[i].len() implies front[i][k]
            != 0x0au8 by {
            assert(front[i] == ls[i]);
        }
        lemma_split_append(j, last);
        let whole = join_lines(ls);
        assert(whole == j + last + seq![0x0au8]);
        assert(whole.drop_last() =~= j + last);
        assert(split_lines(j + last) =~= ls);
        assert(split_lines(whole) =~= ls.push(Seq::<u8>::empty()));
    }
}

/// A file written by ":w" opens again as the same lines followed by one
/// empty line, when its lines hold no line feed and fit, there is room
/// for the extra line, and the text is UTF-8.
pub proof fn lemma_save_reload(ls: Seq<Seq<u8>>)
    requires
        forall|i: int, j: int| 0 <= i < ls.len() && 0 <= j < ls[i].len() ==> ls[i][j] != 0x0au8,
        forall|i: int| 0 <= i < ls.len() ==> (#[trigger] ls[i]).len() < LINE_LEN,
        ls.len() + 1 <= MAX_LINES,
        valid_utf8(join_lines(ls)),
    ensures
        loaded_lines(Some(join_lines(ls))) == ls.push(Seq::<u8>::empty()),
{
    lemma_split_join(ls);
    let all = ls.push(Seq::<u8>::empty());
    assert(truncate_all(all) =~= all) by {
        assert forall|i: int| 0 <= i < all.len() implies truncate_line(#[trigger] all[i]) == all[i] by {
            if i < ls.len() {
                assert(all[i] == ls[i]);
            }
        }
    }
}

/// Joining the lines a text splits into gives the text and one line feed.
proof fn lemma_join_split(t: Seq<u8>)
    ensures
        join_lines(split_lines(t)) == t + seq![0x0au8],
    decreases t.len(),
{
    if t.len() == 0 {
        let s = split_lines(t);
        assert(s.drop_last() =~= Seq::<Seq<u8>>::empty());
        assert(join_lines(s.drop_last()) == Seq::<u8>::empty());
        assert(s.last() == Seq::<u8>::empty());
        assert(join_lines(s) == Seq::<u8>::empty() + Seq::<u8>::empty() + seq![0x0au8]);
        assert(join_lines(s) =~= t + seq![0x0au8]);
    } else {
        let init = t.drop_last();
        let c = t.last();
        lemma_join_split(init);
        lemma_split_lines_nonempty(init);
        let prev = split_lines(init);
        assert(t =~= init.push(c));
        if c == 0x0au8 {
            let s = prev.push(Seq::<u8>::empty());
            assert(s.drop_last() =~= prev);
            assert(join_lines(s) =~= t + seq![0x0au8]);
        } else {
            let s = prev.update(prev.len() - 1, prev.last().push(c));
            assert(s.drop_last() =~= prev.drop_last());
            let front = join_lines(prev.drop_last());
            assert(front + prev.last() + seq![0x0au8] == init + seq![0x0au8]);
            assert(front + prev.last() =~= init) by {
                assert((front + prev.last() + seq![0x0au8]).drop_last() =~= front + prev.last());
                assert((init + seq![0x0au8]).drop_last() =~= init);
            }
            assert(join_lines(s) == front + prev.last().push(c) + seq![0x0au8]);
            assert(front + prev.last().push(c) + seq![0x0au8] =~= t + seq![0x0au8]);
        }
    }
}

/// A file that the editor loads whole and then saves with ":w" is written
/// back as its text followed by one line feed (each loaded line is written
/// with a line feed after it, so a final line feed is doubled): the text
/// is UTF-8, has at most `MAX_LINES` lines and each line fits.
pub proof fn lemma_load_save(data: Seq<u8>)
    requires
        valid_utf8(data),
        split_lines(data).len() <= MAX_LINES,
        forall|i: int| 0 <= i < split_lines(data).len() ==> (#[trigger] split_lines(data)[i]).len() < LINE_LEN,
    ensures
        join_lines(loaded_lines(Some(data))) == data + seq![0x0au8],
        data.len() < MAX_SAVE ==> join_lines(loaded_lines(Some(data))).len() <= MAX_SAVE,
{
    let all = split_lines(data);
    assert(truncate_all(all) =~= all) by {
        assert forall|i: int| 0 <= i < all.len() implies truncate_line(#[trigger] all[i]) == all[i] by {}
    }
    lemma_join_split(data);
}

/// Backspace at the start of a line joins it to the line above, when the
/// two fit in one line: there is one line less, the line above holds both
/// (its text, then the removed line's), the lines before it and after the
/// joined one stay as they were (those after move up by one), and the
/// cursor stands where the joined text begins on the line above.
pub proof fn lemma_backspace_joins_lines(v: EditorView)
    requires
        view_wf(v),
        v.mode == Mode::Insert,
        v.cursor_col == 0,
        v.cursor_line > 0,
        v.lines[v.cursor_line - 1].len() + v.lines[v.cursor_line].len() < LINE_LEN,
    ensures
        ({
            let w = key_spec(v, 0x08u8);
            let cl = v.cursor_line;
            &&& w.lines.len() == v.lines.len() - 1
            &&& w.lines[cl - 1] == v.lines[cl - 1] + v.lines[cl]
            &&& forall|i: int| 0 <= i < cl - 1 ==> w.lines[i] == v.lines[i]
            &&& forall|i: int| cl <= i < w.lines.len() ==> w.lines[i] == v.lines[i + 1]
            &&& w.cursor_line == cl - 1
            &&& w.cursor_col == v.lines[cl - 1].len()
            &&& w.mode == Mode::Insert
        }),
{
    assert(clamp_view(v) == v);
}

/// Backspace inside a line removes the byte before the cursor: the line is
/// one byte shorter, keeps the bytes before and after that one, the other
/// lines stay, and the cursor moves back one column.
pub proof fn lemma_backspace_deletes_byte(v: EditorView)
    requires
        view_wf(v),
        v.mode == Mode::Insert,
        0 < v.cursor_col <= v.lines[v.cursor_line].len(),
    ensures
        ({
            let w = key_spec(v, 0x08u8);
            let cl = v.cursor_line;
            let col = v.cursor_col;
            let old_line = v.lines[cl];
            &&& w.lines.len() == v.lines.len()
            &&& w.lines[cl].len() == old_line.len() - 1
            &&& forall|j: int| 0 <= j < col - 1 ==> w.lines[cl][j] == old_line[j]
            &&& forall|j: int| col - 1 <= j < old_line.len() - 1 ==> w.lines[cl][j] == old_line[j + 1]
            &&& forall|i: int| 0 <= i < v.lines.len() && i != cl ==> w.lines[i] == v.lines[i]
            &&& w.cursor_line == cl
            &&& w.cursor_col == col - 1
        }),
{
    assert(clamp_view(v) == v);
}

/// Enter splits the line at the cursor, when there is room for one more
/// line: the text before the cursor stays on the line, the text from the
/// cursor on becomes the next line (so the two joined give the old line
/// back), the lines after move down by one, and the cursor goes to the
/// start of the new line.
pub proof fn lemma_enter_splits_line(v: EditorView, key: u8)
    requires
        view_wf(v),
        v.mode == Mode::Insert,
        key == 0x0du8 || key == 0x0au8,
        v.cursor_col <= v.lines[v.cursor_line].len(),
        v.lines.len() < MAX_LINES,
    ensures
        ({
            let w = key_spec(v, key);
            let cl = v.cursor_line;
            &&& w.lines.len() == v.lines.len() + 1
            &&& w.lines[cl] + w.lines[cl + 1] == v.lines[cl]
            &&& w.lines[cl].len() == v.cursor_col
            &&& forall|i: int| 0 <= i < cl ==> w.lines[i] == v.lines[i]
            &&& forall|i: int| cl < i < v.lines.len() ==> w.lines[i + 1] == v.lines[i]
            &&& w.cursor_line == cl + 1
            &&& w.cursor_col == 0
        }),
{
    assert(clamp_view(v) == v);
    let line = v.lines[v.cursor_line];
    assert(line.subrange(0, v.cursor_col) + line.subrange(v.cursor_col, line.len() as int) =~= line);
}

/// A printable byte typed in insert mode goes in at the cursor, when the
/// line has room: the line is one byte longer, holds the byte at the
/// cursor's column with the old bytes before and after it, the other lines
/// stay, and the cursor moves one column on.
pub proof fn lemma_typing_inserts_byte(v: EditorView, b: u8)
    requires
        view_wf(v),
        v.mode == Mode::Insert,
        is_printable(b),
        b != 0x08u8,
        v.cursor_col <= v.lines[v.cursor_line].len(),
        v.lines[v.cursor_line].len() < LINE_LEN - 1,
    ensures
        ({
            let w = key_spec(v, b);
            let cl = v.cursor_line;
            let col = v.cursor_col;
            let old_line = v.lines[cl];
            &&& w.lines.len() == v.lines.len()
            &&& w.lines[cl].len() == old_line.len() + 1
            &&& w.lines[cl][col] == b
            &&& forall|j: int| 0 <= j < col ==> w.lines[cl][j] == old_line[j]
            &&& forall|j: int| col <= j < old_line.len() ==> w.lines[cl][j + 1] == old_line[j]
            &&& forall|i: int| 0 <= i < v.lines.len() && i != cl ==> w.lines[i] == v.lines[i]
            &&& w.cursor_col == col + 1
        }),
{
    assert(clamp_view(v) == v);
}

} // verus!
