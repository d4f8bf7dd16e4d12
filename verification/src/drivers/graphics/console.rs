//! The framebuffer text console: a PSF2 font drawn into a framebuffer (or a
//! back buffer that `present` copies out), with a title bar, a status bar and
//! a scrolling text area between them.

use vstd::prelude::*;
use vstd::string::StringSliceAdditionalSpecFns;
use crate::convert::{decimal, lemma_decimal_len, u64_to_str};
use crate::drivers::graphics::psf::Psf2;

verus! {

/// Text rows taken by the title bar at the top.
pub const TOP_BAR_ROWS: usize = 2;

/// Text rows taken by the status bar at the bottom.
pub const BOTTOM_BAR_ROWS: usize = 1;

/// The kernel version shown in the banner and the status bar.
pub const KERNEL_VERSION: &'static str = "0.1.0";

/// How many cursor ticks pass between two blinks.
pub const BLINK_PERIOD: usize = 500000;

#[derive(Clone, Copy, PartialEq, Eq, Structural)]
pub struct ConsoleColor {
    pub r: u8,
    pub g: u8,
    pub b: u8,
}

impl ConsoleColor {
    pub fn rgb(r: u8, g: u8, b: u8) -> (c: Self)
        ensures
            c == (ConsoleColor { r, g, b }),
    {
        ConsoleColor { r, g, b }
    }
}

pub open spec fn rgb(r: u8, g: u8, b: u8) -> ConsoleColor {
    ConsoleColor { r, g, b }
}

pub open spec fn black() -> ConsoleColor {
    rgb(0x00, 0x00, 0x00)
}

pub open spec fn white() -> ConsoleColor {
    rgb(0xff, 0xff, 0xff)
}

pub open spec fn green() -> ConsoleColor {
    rgb(0x00, 0xff, 0x00)
}

pub open spec fn dark_blue() -> ConsoleColor {
    rgb(0x00, 0x00, 0xaa)
}

pub open spec fn cyan() -> ConsoleColor {
    rgb(0x00, 0xaa, 0xaa)
}

pub open spec fn gray() -> ConsoleColor {
    rgb(0xaa, 0xaa, 0xaa)
}

pub open spec fn dark_gray() -> ConsoleColor {
    rgb(0x20, 0x20, 0x20)
}

pub open spec fn yellow() -> ConsoleColor {
    rgb(0xff, 0xff, 0x00)
}

pub open spec fn light_green() -> ConsoleColor {
    rgb(0x55, 0xff, 0x55)
}

pub struct ConsoleDriver {
    pub font: Psf2,
    pub fb: Vec<u8>,
    pub back_buffer: Option<Vec<u8>>,
    pub width: usize,
    pub height: usize,
    pub pitch: usize,
    pub bytes_per_pixel: usize,
    pub dirty: bool,
    pub cursor_x: usize,
    pub cursor_y: usize,
    pub cursor_visible: bool,
    pub blink_counter: usize,
    pub fg: ConsoleColor,
    pub bg: ConsoleColor,
    /// Usable memory in MiB, shown in the title bar.
    pub usable_mib: u64,
}

/// What does not change while drawing: the font and the screen's geometry.
pub ghost struct Geom {
    pub glyphs: Seq<u8>,
    pub font_w: int,
    pub font_h: int,
    pub glyph_count: int,
    pub char_size: int,
    pub width: int,
    pub height: int,
    pub pitch: int,
    pub bpp: int,
}

/// The pixel memory: the framebuffer, the back buffer if any, and whether
/// the back buffer holds drawing that `present` has not copied yet.
pub ghost struct Screen {
    pub fb: Seq<u8>,
    pub back: Option<Seq<u8>>,
    pub dirty: bool,
}

/// The abstract state of a console.
pub ghost struct ConsoleModel {
    pub geom: Geom,
    pub screen: Screen,
    pub cursor_x: int,
    pub cursor_y: int,
    pub cursor_visible: bool,
    pub blink_counter: int,
    pub fg: ConsoleColor,
    pub bg: ConsoleColor,
    pub usable_mib: int,
}

pub open spec fn with_screen(m: ConsoleModel, s: Screen) -> ConsoleModel {
    ConsoleModel { screen: s, ..m }
}

pub open spec fn with_cursor(m: ConsoleModel, x: int, y: int) -> ConsoleModel {
    ConsoleModel { cursor_x: x, cursor_y: y, ..m }
}

/// The buffer that drawing goes to: the back buffer when there is one.
pub open spec fn target(s: Screen) -> Seq<u8> {
    match s.back {
        Some(b) => b,
        None => s.fb,
    }
}

pub open spec fn with_target(s: Screen, t: Seq<u8>) -> Screen {
    match s.back {
        Some(_) => Screen { back: Some(t), ..s },
        None => Screen { fb: t, ..s },
    }
}

/// Drawing into a back buffer marks it for `present`.
pub open spec fn touched(s: Screen, t: Seq<u8>) -> Screen {
    Screen { dirty: s.dirty || s.back is Some, ..with_target(s, t) }
}

pub open spec fn cols(g: Geom) -> int {
    if g.font_w == 0 {
        0
    } else {
        g.width / g.font_w
    }
}

pub open spec fn rows(g: Geom) -> int {
    if g.font_h == 0 {
        0
    } else {
        g.height / g.font_h
    }
}

pub open spec fn sat_sub(a: int, b: int) -> int {
    if a >= b {
        a - b
    } else {
        0
    }
}

/// The first row of the text area.
pub open spec fn content_start() -> int {
    TOP_BAR_ROWS as int
}

/// The row below the text area, which is the status bar's row.
pub open spec fn content_end(g: Geom) -> int {
    sat_sub(rows(g), BOTTOM_BAR_ROWS as int)
}

/// The console's sizes leave nothing that it computes to overflow: byte
/// offsets of pixels, glyph bitmap indices, and the cursor's cell.
pub open spec fn geom_wf(g: Geom) -> bool {
    &&& 0 <= g.width
    &&& 0 <= g.height
    &&& 0 <= g.pitch
    &&& 0 <= g.bpp
    &&& 0 <= g.font_w <= u32::MAX
    &&& 0 <= g.font_h <= u32::MAX
    &&& 0 <= g.glyph_count
    &&& 0 <= g.char_size
    &&& g.height * g.pitch + g.width * g.bpp + 4 <= usize::MAX
    &&& g.width + g.font_w + 8 <= usize::MAX
    &&& g.height + 3 * g.font_h <= usize::MAX
    &&& g.font_h * ((g.font_w + 7) / 8) + g.font_w <= usize::MAX
    &&& g.font_w + g.font_h <= usize::MAX
    &&& g.glyph_count * g.char_size <= g.glyphs.len()
}

pub open spec fn model_wf(m: ConsoleModel) -> bool {
    &&& geom_wf(m.geom)
    &&& 0 <= m.cursor_x < usize::MAX
    &&& 0 <= m.cursor_y < usize::MAX
    &&& (m.cursor_x + 1) * m.geom.font_w <= usize::MAX
    &&& (m.cursor_y + 1) * m.geom.font_h <= usize::MAX
}

/// Byte offset of pixel (x, y).
pub open spec fn offset_of(g: Geom, x: int, y: int) -> int {
    y * g.pitch + x * g.bpp
}

/// Whether pixel (x, y) is drawn: on screen and its colour bytes inside the
/// target buffer.
pub open spec fn visible(g: Geom, s: Screen, x: int, y: int) -> bool {
    0 <= x < g.width && 0 <= y < g.height && offset_of(g, x, y) + 2 < target(s).len()
}

/// Writes a pixel's B, G, R bytes, and a zero fourth byte for pixels of 4
/// or more bytes when it fits.
pub open spec fn write_pixel(t: Seq<u8>, o: int, c: ConsoleColor, bpp: int) -> Seq<u8> {
    let t1 = t.update(o, c.b).update(o + 1, c.g).update(o + 2, c.r);
    if bpp >= 4 && o + 3 < t.len() {
        t1.update(o + 3, 0)
    } else {
        t1
    }
}

/// The screen after drawing pixel (x, y).
pub open spec fn plot(g: Geom, s: Screen, x: int, y: int, c: ConsoleColor) -> Screen {
    if visible(g, s, x, y) {
        touched(s, write_pixel(target(s), offset_of(g, x, y), c, g.bpp))
    } else {
        s
    }
}

/// Pixels (x0, y) .. (x1 - 1, y), left to right; `f` gives each pixel's
/// colour, or `None` to leave it.
pub open spec fn paint_span(
    g: Geom,
    s: Screen,
    y: int,
    x0: int,
    x1: int,
    f: spec_fn(int, int) -> Option<ConsoleColor>,
) -> Screen
    decreases x1 - x0,
{
    if x1 <= x0 {
        s
    } else {
        let p = paint_span(g, s, y, x0, x1 - 1, f);
        match f(x1 - 1, y) {
            Some(c) => plot(g, p, x1 - 1, y, c),
            None => p,
        }
    }
}

/// The rectangle x0 .. x1 by y0 .. y1, row by row from the top.
pub open spec fn paint_rect(
    g: Geom,
    s: Screen,
    x0: int,
    x1: int,
    y0: int,
    y1: int,
    f: spec_fn(int, int) -> Option<ConsoleColor>,
) -> Screen
    decreases y1 - y0,
{
    if y1 <= y0 {
        s
    } else {
        paint_span(g, paint_rect(g, s, x0, x1, y0, y1 - 1, f), y1 - 1, x0, x1, f)
    }
}

pub open spec fn solid(c: ConsoleColor) -> spec_fn(int, int) -> Option<ConsoleColor> {
    |x: int, y: int| Some(c)
}

/// Text row `row` filled with colour `c`, clipped to the screen.
pub open spec fn fill_row(g: Geom, s: Screen, row: int, c: ConsoleColor) -> Screen {
    let y0 = row * g.font_h;
    let y1 = y0 + g.font_h;
    if y0 >= g.height {
        s
    } else {
        paint_rect(g, s, 0, g.width, y0, if y1 < g.height { y1 } else { g.height }, solid(c))
    }
}

/// The colours of a glyph's pixels placed at (bx, by): set bits in `fg`,
/// clear bits in `bg`, pixels past the bitmap left alone.
pub open spec fn glyph_colors(
    glyphs: Seq<u8>,
    off: int,
    char_size: int,
    bytes_per_row: int,
    bx: int,
    by: int,
    fg: ConsoleColor,
    bg: ConsoleColor,
) -> spec_fn(int, int) -> Option<ConsoleColor> {
    |x: int, y: int|
        {
            let gx = x - bx;
            let gy = y - by;
            let bi = gy * bytes_per_row + gx / 8;
            if bi >= char_size {
                None
            } else if glyphs[off + bi] & (0x80u8 >> ((gx % 8) as u8)) != 0 {
                Some(fg)
            } else {
                Some(bg)
            }
        }
}

/// Glyph `byte` drawn in text cell (col, row); nothing for a byte the font
/// lacks or a cell that starts off screen.
pub open spec fn glyph_screen(
    g: Geom,
    s: Screen,
    byte: u8,
    col: int,
    row: int,
    fg: ConsoleColor,
    bg: ConsoleColor,
) -> Screen {
    let bx = col * g.font_w;
    let by = row * g.font_h;
    if byte >= g.glyph_count || bx >= g.width || by >= g.height {
        s
    } else {
        paint_rect(
            g,
            s,
            bx,
            bx + g.font_w,
            by,
            by + g.font_h,
            glyph_colors(g.glyphs, byte * g.char_size, g.char_size, (g.font_w + 7) / 8, bx, by, fg, bg),
        )
    }
}

/// `text` drawn from cell (col, row) rightwards, stopping at the right or
/// bottom edge of the text grid.
pub open spec fn text_screen(
    g: Geom,
    s: Screen,
    text: Seq<u8>,
    col: int,
    row: int,
    fg: ConsoleColor,
    bg: ConsoleColor,
) -> Screen
    decreases text.len(),
{
    if text.len() == 0 || col >= cols(g) || row >= rows(g) {
        s
    } else {
        text_screen(g, glyph_screen(g, s, text[0], col, row, fg, bg), text.drop_first(), col + 1, row, fg, bg)
    }
}

/// `n` dashes along text row 1, under the title.
pub open spec fn dash_row(g: Geom, s: Screen, n: int) -> Screen
    decreases n,
{
    if n <= 0 {
        s
    } else {
        glyph_screen(g, dash_row(g, s, n - 1), 0x2du8, n - 1, 1, dark_gray(), black())
    }
}

pub open spec fn title_text() -> Seq<u8> {
    " ROOTLEAF KERNEL".spec_bytes()
}

pub open spec fn mem_prefix() -> Seq<u8> {
    "MEM: ".spec_bytes()
}

pub open spec fn mem_suffix() -> Seq<u8> {
    " MiB | Framebuffer | PS/2".spec_bytes()
}

pub open spec fn status_text() -> Seq<u8> {
    " F1 Help | F2 Mem | F3 Disks | ESC Shell".spec_bytes()
}

pub open spec fn name_text() -> Seq<u8> {
    "Rootleaf ".spec_bytes()
}

pub open spec fn version_text() -> Seq<u8> {
    KERNEL_VERSION.spec_bytes()
}

/// The title bar: a dark blue row with the name on the left and the usable
/// memory on the right, then a row of dashes.
pub open spec fn top_bar_screen(g: Geom, s: Screen, usable_mib: nat) -> Screen {
    let mem = decimal(usable_mib);
    let right_len = mem_prefix().len() + mem.len() + mem_suffix().len();
    let right_col = sat_sub(cols(g), (right_len + 1) as int);
    let s1 = fill_row(g, s, 0, dark_blue());
    let s2 = fill_row(g, s1, 1, black());
    let s3 = text_screen(g, s2, title_text(), 0, 0, yellow(), dark_blue());
    let s4 = text_screen(g, s3, mem_prefix(), right_col, 0, white(), dark_blue());
    let s5 = text_screen(g, s4, mem, right_col + mem_prefix().len(), 0, yellow(), dark_blue());
    let s6 = text_screen(
        g,
        s5,
        mem_suffix(),
        right_col + mem_prefix().len() + mem.len(),
        0,
        white(),
        dark_blue(),
    );
    dash_row(g, s6, cols(g))
}

/// The status bar on the last row: key help on the left, name and version
/// on the right.
pub open spec fn bottom_bar_screen(g: Geom, s: Screen) -> Screen {
    let row = sat_sub(rows(g), 1);
    let col = sat_sub(cols(g), (version_text().len() + 11) as int);
    let s1 = fill_row(g, s, row, dark_blue());
    let s2 = text_screen(g, s1, status_text(), 0, row, white(), dark_blue());
    let s3 = text_screen(g, s2, name_text(), col, row, gray(), dark_blue());
    text_screen(g, s3, version_text(), col + 9, row, yellow(), dark_blue())
}

pub open spec fn chrome_screen(g: Geom, s: Screen, usable_mib: nat) -> Screen {
    bottom_bar_screen(g, top_bar_screen(g, s, usable_mib))
}

/// `t` with the text area moved up one text row (`row_bytes` bytes from
/// `start` to `end`) and the freed last row zeroed.
pub open spec fn shift_up(t: Seq<u8>, start: int, row_bytes: int, end: int) -> Seq<u8> {
    t.subrange(0, start) + t.subrange(start + row_bytes, end) + Seq::new(row_bytes as nat, |i: int| 0u8)
        + t.subrange(end, t.len() as int)
}

/// Scrolling the text area one row up, then drawing the bars again. Nothing
/// happens when the text area has fewer than two rows or does not fit in
/// the screen or the buffer.
pub open spec fn scroll_screen(g: Geom, s: Screen, usable_mib: nat) -> Screen {
    let start_row = content_start();
    let end_row = content_end(g);
    let start_y = start_row * g.font_h;
    let end_y = end_row * g.font_h;
    let row_bytes = g.font_h * g.pitch;
    let start_off = start_y * g.pitch;
    let end_off = end_y * g.pitch;
    if end_row <= start_row + 1 || start_y >= g.height || end_y > g.height {
        s
    } else if start_off + row_bytes >= end_off || end_off > target(s).len() {
        s
    } else {
        chrome_screen(g, touched(s, shift_up(target(s), start_off, row_bytes, end_off)), usable_mib)
    }
}

pub open spec fn scroll_spec(m: ConsoleModel) -> ConsoleModel {
    with_screen(m, scroll_screen(m.geom, m.screen, m.usable_mib as nat))
}

/// A line feed: the cursor to the start of the next row, scrolling when it
/// passes the text area.
pub open spec fn newline_spec(m: ConsoleModel) -> ConsoleModel {
    let y = m.cursor_y + 1;
    if y >= content_end(m.geom) {
        with_cursor(scroll_spec(m), 0, sat_sub(content_end(m.geom), 1))
    } else {
        with_cursor(m, 0, y)
    }
}

/// A glyph drawn at the cursor.
pub open spec fn draw_char_spec(m: ConsoleModel, byte: u8, fg: ConsoleColor, bg: ConsoleColor) -> ConsoleModel {
    with_screen(m, glyph_screen(m.geom, m.screen, byte, m.cursor_x, m.cursor_y, fg, bg))
}

/// A printable byte: drawn at the cursor, which then moves right and wraps
/// to a new line at the right edge.
pub open spec fn put_printable(m: ConsoleModel, byte: u8, fg: ConsoleColor, bg: ConsoleColor) -> ConsoleModel {
    let m1 = draw_char_spec(m, byte, fg, bg);
    let m2 = with_cursor(m1, m.cursor_x + 1, m.cursor_y);
    if m.cursor_x + 1 >= cols(m.geom) {
        newline_spec(m2)
    } else {
        m2
    }
}

/// Backspace: the cursor one cell back (to the end of the previous row at
/// the start of a row, not above the text area), and that cell blanked in
/// the console's colours.
pub open spec fn backspace_spec(m: ConsoleModel) -> ConsoleModel {
    if m.cursor_x > 0 {
        draw_char_spec(with_cursor(m, m.cursor_x - 1, m.cursor_y), 0x20, m.fg, m.bg)
    } else if m.cursor_y > content_start() {
        draw_char_spec(
            with_cursor(m, sat_sub(cols(m.geom), 1), m.cursor_y - 1),
            0x20,
            m.fg,
            m.bg,
        )
    } else {
        m
    }
}

/// One byte of text: line feed, carriage return, tab (four spaces),
/// backspace, or a glyph.
pub open spec fn put_byte(m: ConsoleModel, byte: u8, fg: ConsoleColor, bg: ConsoleColor) -> ConsoleModel {
    if byte == 0x0a {
        newline_spec(m)
    } else if byte == 0x0d {
        with_cursor(m, 0, m.cursor_y)
    } else if byte == 0x09 {
        put_printable(
            put_printable(put_printable(put_printable(m, 0x20, fg, bg), 0x20, fg, bg), 0x20, fg, bg),
            0x20,
            fg,
            bg,
        )
    } else if byte == 0x08 {
        backspace_spec(m)
    } else {
        put_printable(m, byte, fg, bg)
    }
}

/// Text written byte by byte at the cursor.
pub open spec fn put_text(m: ConsoleModel, text: Seq<u8>, fg: ConsoleColor, bg: ConsoleColor) -> ConsoleModel
    decreases text.len(),
{
    if text.len() == 0 {
        m
    } else {
        put_text(put_byte(m, text[0], fg, bg), text.drop_first(), fg, bg)
    }
}

/// The cursor is on a cell of the text area: between the title bar and
/// the status bar, left of the last column's end.
pub open spec fn cursor_in_text_area(m: ConsoleModel) -> bool {
    0 <= m.cursor_x < cols(m.geom) && content_start() <= m.cursor_y < content_end(m.geom)
}

proof fn lemma_printable_keeps_cursor(m: ConsoleModel, byte: u8, fg: ConsoleColor, bg: ConsoleColor)
    requires
        cursor_in_text_area(m),
        content_end(m.geom) > content_start(),
    ensures
        cursor_in_text_area(put_printable(m, byte, fg, bg)),
        put_printable(m, byte, fg, bg).geom == m.geom,
{
}

/// Writing a byte keeps the cursor in the text area, when the text area
/// has at least one row: wrapping, line feeds and scrolling never move it
/// onto the bars or past the last column.
pub proof fn lemma_put_byte_keeps_cursor(m: ConsoleModel, byte: u8, fg: ConsoleColor, bg: ConsoleColor)
    requires
        cursor_in_text_area(m),
        content_end(m.geom) > content_start(),
    ensures
        cursor_in_text_area(put_byte(m, byte, fg, bg)),
        put_byte(m, byte, fg, bg).geom == m.geom,
{
    if byte == 0x09 {
        let m1 = put_printable(m, 0x20, fg, bg);
        lemma_printable_keeps_cursor(m, 0x20, fg, bg);
        let m2 = put_printable(m1, 0x20, fg, bg);
        lemma_printable_keeps_cursor(m1, 0x20, fg, bg);
        let m3 = put_printable(m2, 0x20, fg, bg);
        lemma_printable_keeps_cursor(m2, 0x20, fg, bg);
        lemma_printable_keeps_cursor(m3, 0x20, fg, bg);
    } else if byte != 0x0a && byte != 0x0d && byte != 0x08 {
        lemma_printable_keeps_cursor(m, byte, fg, bg);
    }
}

/// Writing text keeps the cursor in the text area (see
/// `lemma_put_byte_keeps_cursor`).
pub proof fn lemma_put_text_keeps_cursor(m: ConsoleModel, text: Seq<u8>, fg: ConsoleColor, bg: ConsoleColor)
    requires
        cursor_in_text_area(m),
        content_end(m.geom) > content_start(),
    ensures
        cursor_in_text_area(put_text(m, text, fg, bg)),
        put_text(m, text, fg, bg).geom == m.geom,
    decreases text.len(),
{
    if text.len() > 0 {
        lemma_put_byte_keeps_cursor(m, text[0], fg, bg);
        lemma_put_text_keeps_cursor(put_byte(m, text[0], fg, bg), text.drop_first(), fg, bg);
    }
}

pub open spec fn banner_spec(m: ConsoleModel) -> ConsoleModel {
    let m1 = put_text(m, "Rootleaf Kernel [Version ".spec_bytes(), green(), black());
    let m2 = put_text(m1, version_text(), cyan(), black());
    let m3 = put_text(m2, "]\n".spec_bytes(), green(), black());
    let m4 = put_text(m3, "(C) 2026 Rootleaf community\n".spec_bytes(), gray(), black());
    let m5 = put_text(m4, "\n".spec_bytes(), white(), black());
    let m6 = put_text(m5, "Type ".spec_bytes(), gray(), black());
    let m7 = put_text(m6, "HELP".spec_bytes(), cyan(), black());
    put_text(m7, " for available commands.\n\n".spec_bytes(), gray(), black())
}

/// The prompt: the working directory and " % " in light green, then a
/// space in the console's colours.
pub open spec fn prompt_spec(m: ConsoleModel, cwd: Seq<u8>) -> ConsoleModel {
    let m1 = put_text(m, cwd, light_green(), black());
    let m2 = put_text(m1, " % ".spec_bytes(), light_green(), black());
    put_byte(m2, 0x20, m2.fg, m2.bg)
}

/// The whole screen in `c`, the cursor at the start of the text area.
pub open spec fn clear_spec(m: ConsoleModel, c: ConsoleColor) -> ConsoleModel {
    with_cursor(
        with_screen(m, paint_rect(m.geom, m.screen, 0, m.geom.width, 0, m.geom.height, solid(c))),
        0,
        content_start(),
    )
}

/// Cleared to black with both bars drawn.
pub open spec fn clear_screen_spec(m: ConsoleModel) -> ConsoleModel {
    let m1 = clear_spec(m, black());
    with_screen(m1, chrome_screen(m1.geom, m1.screen, m.usable_mib as nat))
}

/// The cursor block: a checkerboard of `fg` and `bg` over the cursor's cell.
pub open spec fn checker(bx: int, by: int, fg: ConsoleColor, bg: ConsoleColor) -> spec_fn(int, int) -> Option<ConsoleColor> {
    |x: int, y: int| if ((x - bx) + (y - by)) % 2 == 0 { Some(fg) } else { Some(bg) }
}

pub open spec fn in_text_area(m: ConsoleModel) -> bool {
    content_start() <= m.cursor_y < content_end(m.geom)
}

pub open spec fn cursor_block_spec(m: ConsoleModel, fg: ConsoleColor, bg: ConsoleColor) -> ConsoleModel {
    if !in_text_area(m) {
        m
    } else {
        let bx = m.cursor_x * m.geom.font_w;
        let by = m.cursor_y * m.geom.font_h;
        with_screen(
            m,
            paint_rect(m.geom, m.screen, bx, bx + m.geom.font_w, by, by + m.geom.font_h, checker(bx, by, fg, bg)),
        )
    }
}

/// One tick of the blink counter; every `BLINK_PERIOD` ticks, with the
/// cursor in the text area, the cursor block is shown or hidden.
pub open spec fn tick_spec(m: ConsoleModel) -> ConsoleModel {
    let n = if m.blink_counter == usize::MAX { 0 } else { m.blink_counter + 1 };
    let m1 = ConsoleModel { blink_counter: n, ..m };
    if n % (BLINK_PERIOD as int) != 0 || !in_text_area(m1) {
        m1
    } else {
        let m2 = ConsoleModel { cursor_visible: !m1.cursor_visible, ..m1 };
        if m2.cursor_visible {
            cursor_block_spec(m2, white(), black())
        } else {
            draw_char_spec(m2, 0x20, m2.fg, m2.bg)
        }
    }
}


/// Writes a pixel's bytes at `offset`.
fn write_px(buf: &mut Vec<u8>, offset: usize, c: ConsoleColor, bpp: usize)
    requires
        offset + 2 < old(buf)@.len(),
    ensures
        final(buf)@ == write_pixel(old(buf)@, offset as int, c, bpp as int),
{
    let len = buf.len();
    assert(offset + 2 < len);
    buf.set(offset, c.b);
    buf.set(offset + 1, c.g);
    buf.set(offset + 2, c.r);
    if bpp >= 4 && offset + 3 < len {
        buf.set(offset + 3, 0x00);
    }
}

/// Moves `buf[start + row_bytes .. end]` down to `start` and zeroes the
/// last `row_bytes` bytes before `end`.
fn shift_rows_up(buf: &mut Vec<u8>, start: usize, row_bytes: usize, end: usize)
    requires
        start + row_bytes < end <= old(buf)@.len(),
    ensures
        final(buf)@ == shift_up(old(buf)@, start as int, row_bytes as int, end as int),
{
    let ghost t = buf@;
    let move_len = end - start - row_bytes;
    let mut i: usize = 0;
    while i < move_len
        invariant
            start + row_bytes + move_len == end,
            end <= t.len(),
            i <= move_len,
            buf@.len() == t.len(),
            forall|k: int| 0 <= k < start ==> buf@[k] == t[k],
            forall|k: int| start <= k < start + i ==> buf@[k] == t[k + row_bytes],
            forall|k: int| start + i <= k < t.len() ==> buf@[k] == t[k],
        decreases move_len - i,
    {
        let v = buf[start + row_bytes + i];
        buf.set(start + i, v);
        i += 1;
    }
    let clear_start = end - row_bytes;
    let mut j: usize = clear_start;
    while j < end
        invariant
            start + row_bytes + move_len == end,
            clear_start == end - row_bytes,
            end <= t.len(),
            clear_start <= j <= end,
            buf@.len() == t.len(),
            forall|k: int| 0 <= k < start ==> buf@[k] == t[k],
            forall|k: int| start <= k < clear_start ==> buf@[k] == t[k + row_bytes],
            forall|k: int| clear_start <= k < j ==> buf@[k] == 0,
            forall|k: int| end <= k < t.len() ==> buf@[k] == t[k],
        decreases end - j,
    {
        buf.set(j, 0);
        j += 1;
    }
    assert(buf@ =~= shift_up(t, start as int, row_bytes as int, end as int));
}

/// (col + 1) cells of width `w` fit in the screen when col is a column of
/// the grid.
proof fn lemma_cell_fits(len: int, w: int, col: int)
    requires
        0 <= len,
        0 < w,
        0 <= col < len / w,
    ensures
        (col + 1) * w <= len,
        col * w < len,
{
    assert((col + 1) * w <= (len / w) * w) by (nonlinear_arith)
        requires
            col + 1 <= len / w,
            0 < w,
    ;
    assert((len / w) * w <= len) by (nonlinear_arith)
        requires
            0 < w,
            0 <= len,
    ;
    assert(col * w < (col + 1) * w) by (nonlinear_arith)
        requires
            0 < w,
    ;
}

/// The grid's rows (or columns) fit in the screen.
proof fn lemma_grid_fits(len: int, w: int)
    requires
        0 <= len,
        0 <= w,
    ensures
        (if w == 0 { 0 } else { len / w }) * w <= len,
{
    if w > 0 {
        assert((len / w) * w <= len) by (nonlinear_arith)
            requires
                0 < w,
                0 <= len,
        ;
    }
}

proof fn lemma_mul_mono(a: int, b: int, c: int)
    requires
        0 <= a <= b,
        0 <= c,
    ensures
        a * c <= b * c,
        0 <= a * c,
{
    assert(a * c <= b * c) by (nonlinear_arith)
        requires
            0 <= a <= b,
            0 <= c,
    ;
    assert(0 <= a * c) by (nonlinear_arith)
        requires
            0 <= a,
            0 <= c,
    ;
}

impl ConsoleDriver {
    pub open spec fn geom(&self) -> Geom {
        Geom {
            glyphs: self.font.glyph_bytes(),
            font_w: self.font.spec_width() as int,
            font_h: self.font.spec_height() as int,
            glyph_count: self.font.spec_glyph_count() as int,
            char_size: self.font.spec_char_size() as int,
            width: self.width as int,
            height: self.height as int,
            pitch: self.pitch as int,
            bpp: self.bytes_per_pixel as int,
        }
    }

    pub open spec fn screen(&self) -> Screen {
        Screen {
            fb: self.fb@,
            back: match self.back_buffer {
                Some(b) => Some(b@),
                None => None,
            },
            dirty: self.dirty,
        }
    }

    pub open spec fn model(&self) -> ConsoleModel {
        ConsoleModel {
            geom: self.geom(),
            screen: self.screen(),
            cursor_x: self.cursor_x as int,
            cursor_y: self.cursor_y as int,
            cursor_visible: self.cursor_visible,
            blink_counter: self.blink_counter as int,
            fg: self.fg,
            bg: self.bg,
            usable_mib: self.usable_mib as int,
        }
    }

    /// The sizes and the cursor leave nothing to overflow.
    pub open spec fn wf(&self) -> bool {
        model_wf(self.model())
    }

    /// A console over the given framebuffer (and optional back buffer),
    /// white on black, its cursor at the start of the text area.
    pub fn new(
        font: Psf2,
        fb: Vec<u8>,
        back_buffer: Option<Vec<u8>>,
        width: usize,
        height: usize,
        pitch: usize,
        bytes_per_pixel: usize,
    ) -> (c: Self)
        ensures
            c.font == font,
            c.fb == fb,
            c.back_buffer == back_buffer,
            c.width == width,
            c.height == height,
            c.pitch == pitch,
            c.bytes_per_pixel == bytes_per_pixel,
            c.cursor_x == 0,
            c.cursor_y == TOP_BAR_ROWS,
            !c.cursor_visible,
            c.blink_counter == 0,
            c.fg == white(),
            c.bg == black(),
            !c.dirty,
            c.usable_mib == 0,
            geom_wf(c.geom()) ==> c.wf(),
    {
        ConsoleDriver {
            font,
            fb,
            back_buffer,
            width,
            height,
            pitch,
            bytes_per_pixel,
            cursor_x: 0,
            cursor_y: TOP_BAR_ROWS,
            cursor_visible: false,
            blink_counter: 0,
            fg: ConsoleColor::rgb(0xff, 0xff, 0xff),
            bg: ConsoleColor::rgb(0x00, 0x00, 0x00),
            dirty: false,
            usable_mib: 0,
        }
    }

    proof fn lemma_offset_fits(g: Geom, x: int, y: int)
        requires
            geom_wf(g),
            0 <= x < g.width,
            0 <= y < g.height,
        ensures
            0 <= offset_of(g, x, y),
            offset_of(g, x, y) + 4 <= usize::MAX,
    {
        lemma_mul_mono(y, g.height, g.pitch);
        lemma_mul_mono(x, g.width, g.bpp);
    }

    /// Draws one pixel into the target buffer; pixels off screen or not
    /// entirely inside the buffer are skipped.
    pub fn put_pixel(&mut self, x: usize, y: usize, color: ConsoleColor)
        requires
            geom_wf(old(self).geom()),
        ensures
            final(self).model() == with_screen(
                old(self).model(),
                plot(old(self).geom(), old(self).screen(), x as int, y as int, color),
            ),
            final(self).font == old(self).font,
    {
        if x >= self.width || y >= self.height {
            return;
        }
        proof {
            Self::lemma_offset_fits(self.geom(), x as int, y as int);
        }
        let offset = y * self.pitch + x * self.bytes_per_pixel;
        let bpp = self.bytes_per_pixel;
        let has_back = self.back_buffer.is_some();
        match &mut self.back_buffer {
            Some(b) => {
                if offset + 2 >= b.len() {
                    return;
                }
                write_px(b, offset, color, bpp);
            },
            None => {
                if offset + 2 >= self.fb.len() {
                    return;
                }
                write_px(&mut self.fb, offset, color, bpp);
            },
        }
        if has_back {
            self.dirty = true;
        }
    }

    /// Copies the back buffer to the framebuffer when something was drawn
    /// since the last time.
    pub fn present(&mut self)
        ensures
            final(self).font == old(self).font,
            final(self).model() == with_screen(
                old(self).model(),
                match old(self).screen().back {
                    Some(b) if old(self).screen().dirty => {
                        let fb = old(self).screen().fb;
                        let n = if fb.len() < b.len() { fb.len() } else { b.len() };
                        Screen {
                            fb: b.subrange(0, n as int) + fb.subrange(n as int, fb.len() as int),
                            back: Some(b),
                            dirty: false,
                        }
                    },
                    _ => old(self).screen(),
                },
            ),
    {
        if !self.dirty {
            return;
        }
        let mut fb: Vec<u8> = Vec::new();
        std::mem::swap(&mut fb, &mut self.fb);
        match &self.back_buffer {
            Some(b) => {
                let len = if fb.len() < b.len() {
                    fb.len()
                } else {
                    b.len()
                };
                let ghost fb0 = fb@;
                let mut i: usize = 0;
                while i < len
                    invariant
                        i <= len,
                        len <= b@.len(),
                        len <= fb0.len(),
                        fb@.len() == fb0.len(),
                        forall|k: int| 0 <= k < i ==> fb@[k] == b@[k],
                        forall|k: int| i <= k < fb0.len() ==> fb@[k] == fb0[k],
                    decreases len - i,
                {
                    fb.set(i, b[i]);
                    i += 1;
                }
                assert(fb@ =~= b@.subrange(0, len as int) + fb0.subrange(len as int, fb0.len() as int));
                std::mem::swap(&mut fb, &mut self.fb);
                self.dirty = false;
            },
            None => {
                std::mem::swap(&mut fb, &mut self.fb);
            },
        }
    }

    fn paint_solid_span(&mut self, y: usize, x0: usize, x1: usize, color: ConsoleColor)
        requires
            geom_wf(old(self).geom()),
            x0 <= x1,
        ensures
            final(self).font == old(self).font,
            final(self).model() == with_screen(
                old(self).model(),
                paint_span(old(self).geom(), old(self).screen(), y as int, x0 as int, x1 as int, solid(color)),
            ),
    {
        let mut x = x0;
        while x < x1
            invariant
                self.font == old(self).font,
                x0 <= x <= x1,
                self.model() == with_screen(
                    old(self).model(),
                    paint_span(old(self).geom(), old(self).screen(), y as int, x0 as int, x as int, solid(color)),
                ),
                geom_wf(old(self).geom()),
            decreases x1 - x,
        {
            self.put_pixel(x, y, color);
            x += 1;
        }
    }

    fn paint_solid_rect(&mut self, x0: usize, x1: usize, y0: usize, y1: usize, color: ConsoleColor)
        requires
            geom_wf(old(self).geom()),
            x0 <= x1,
            y0 <= y1,
        ensures
            final(self).font == old(self).font,
            final(self).model() == with_screen(
                old(self).model(),
                paint_rect(old(self).geom(), old(self).screen(), x0 as int, x1 as int, y0 as int, y1 as int, solid(color)),
            ),
    {
        let mut y = y0;
        while y < y1
            invariant
                self.font == old(self).font,
                y0 <= y <= y1,
                x0 <= x1,
                self.model() == with_screen(
                    old(self).model(),
                    paint_rect(old(self).geom(), old(self).screen(), x0 as int, x1 as int, y0 as int, y as int, solid(color)),
                ),
                geom_wf(old(self).geom()),
            decreases y1 - y,
        {
            self.paint_solid_span(y, x0, x1, color);
            y += 1;
        }
    }

    /// Fills the whole screen with `color` and puts the cursor at the start
    /// of the text area.
    pub fn clear(&mut self, color: ConsoleColor)
        requires
            geom_wf(old(self).geom()),
        ensures
            final(self).font == old(self).font,
            final(self).model() == clear_spec(old(self).model(), color),
            final(self).wf(),
    {
        let w = self.width;
        let h = self.height;
        self.paint_solid_rect(0, w, 0, h, color);
        self.cursor_x = 0;
        self.cursor_y = self.content_start_row();
    }

    pub fn set_colors(&mut self, fg: ConsoleColor, bg: ConsoleColor)
        ensures
            final(self).font == old(self).font,
            final(self).model() == (ConsoleModel { fg, bg, ..old(self).model() }),
    {
        self.fg = fg;
        self.bg = bg;
    }

    /// White on black.
    pub fn reset_colors(&mut self)
        ensures
            final(self).font == old(self).font,
            final(self).model() == (ConsoleModel { fg: white(), bg: black(), ..old(self).model() }),
    {
        self.fg = ConsoleColor::rgb(0xff, 0xff, 0xff);
        self.bg = ConsoleColor::rgb(0x00, 0x00, 0x00);
    }

    /// Fills text row `row` with `color`, clipped to the screen.
    pub fn fill_text_row(&mut self, row: usize, color: ConsoleColor)
        requires
            geom_wf(old(self).geom()),
            (row + 1) * old(self).geom().font_h <= usize::MAX,
        ensures
            final(self).font == old(self).font,
            final(self).model() == with_screen(
                old(self).model(),
                fill_row(old(self).geom(), old(self).screen(), row as int, color),
            ),
    {
        let glyph_height = self.font_height();
        assert(row * glyph_height + glyph_height <= usize::MAX) by (nonlinear_arith)
            requires
                (row + 1) * glyph_height <= usize::MAX,
        ;
        let y_start = row * glyph_height;
        let y_end = y_start + glyph_height;
        if y_start >= self.height {
            return;
        }
        let ye = if y_end < self.height {
            y_end
        } else {
            self.height
        };
        let w = self.width;
        self.paint_solid_rect(0, w, y_start, ye, color);
    }

    /// Text columns that fit on screen.
    pub fn cols(&self) -> (r: usize)
        ensures
            r == cols(self.geom()),
    {
        let w = self.font_width();
        if w == 0 {
            return 0;
        }
        self.width / w
    }

    /// Text rows that fit on screen.
    pub fn rows(&self) -> (r: usize)
        ensures
            r == rows(self.geom()),
    {
        let h = self.font_height();
        if h == 0 {
            return 0;
        }
        self.height / h
    }

    /// The first row of the text area, below the title bar.
    pub fn content_start_row(&self) -> (r: usize)
        ensures
            r == content_start(),
    {
        TOP_BAR_ROWS
    }

    /// The row below the text area.
    pub fn content_end_row(&self) -> (r: usize)
        ensures
            r == content_end(self.geom()),
    {
        self.rows().saturating_sub(BOTTOM_BAR_ROWS)
    }

    /// The status bar's row, the last one.
    pub fn bottom_bar_row(&self) -> (r: usize)
        ensures
            r == sat_sub(rows(self.geom()), 1),
    {
        self.rows().saturating_sub(1)
    }

    fn font_width(&self) -> (r: usize)
        ensures
            r == self.geom().font_w,
    {
        self.font.width() as usize
    }

    fn font_height(&self) -> (r: usize)
        ensures
            r == self.geom().font_h,
    {
        self.font.height() as usize
    }

    fn glyph_count(&self) -> (r: usize)
        ensures
            r == self.geom().glyph_count,
    {
        self.font.char_count() as usize
    }

    fn bytes_per_glyph(&self) -> (r: usize)
        ensures
            r == self.geom().char_size,
    {
        self.font.char_size() as usize
    }
}


/// The lengths of the literal texts of the bars.
proof fn lemma_bar_texts()
    ensures
        mem_prefix().len() == 5,
        mem_suffix().len() == 25,
        version_text().len() == 5,
        name_text().len() == 9,
{
    reveal_strlit("MEM: ");
    reveal_strlit(" MiB | Framebuffer | PS/2");
    reveal_strlit("0.1.0");
    reveal_strlit("Rootleaf ");
    vstd::string::is_ascii_spec_bytes("MEM: ");
    vstd::string::is_ascii_spec_bytes(" MiB | Framebuffer | PS/2");
    vstd::string::is_ascii_spec_bytes("0.1.0");
    vstd::string::is_ascii_spec_bytes("Rootleaf ");
}

impl ConsoleDriver {
    /// Glyph `byte` drawn in text cell (col, row).
    fn draw_glyph(&mut self, byte: u8, col: usize, row: usize, fg: ConsoleColor, bg: ConsoleColor)
        requires
            geom_wf(old(self).geom()),
            byte >= old(self).geom().glyph_count || (col * old(self).geom().font_w <= usize::MAX
                && row * old(self).geom().font_h <= usize::MAX),
        ensures
            final(self).font == old(self).font,
            final(self).model() == with_screen(
                old(self).model(),
                glyph_screen(old(self).geom(), old(self).screen(), byte, col as int, row as int, fg, bg),
            ),
    {
        let gw = self.font_width();
        let gh = self.font_height();
        let bpg = self.bytes_per_glyph();
        let gc = self.glyph_count();
        let gi = byte as usize;
        if gi >= gc {
            return;
        }
        let bx = col * gw;
        let by = row * gh;
        if bx >= self.width || by >= self.height {
            return;
        }
        let bpr = (gw + 7) / 8;
        let ghost g = self.geom();
        let ghost s0 = self.screen();
        let ghost m0 = self.model();
        let all = self.font.glyphs();
        let alen = all.len();
        proof {
            lemma_mul_mono(gi as int + 1, gc as int, bpg as int);
            assert((gi + 1) * bpg == gi * bpg + bpg) by (nonlinear_arith);
        }
        let goff = gi * bpg;
        let ghost f = glyph_colors(g.glyphs, goff as int, bpg as int, bpr as int, bx as int, by as int, fg, bg);
        let mut y: usize = 0;
        while y < gh
            invariant
                self.font == old(self).font,
                m0 == old(self).model(),
                g == m0.geom,
                s0 == m0.screen,
                geom_wf(g),
                gw == g.font_w,
                gh == g.font_h,
                bpg == g.char_size,
                bpr == (gw + 7) / 8,
                bx < g.width,
                by < g.height,
                goff + bpg <= g.glyphs.len(),
                goff + bpg <= usize::MAX,
                f == glyph_colors(g.glyphs, goff as int, bpg as int, bpr as int, bx as int, by as int, fg, bg),
                y <= gh,
                self.model() == with_screen(m0, paint_rect(g, s0, bx as int, bx + gw, by as int, by + y, f)),
            decreases gh - y,
        {
            let ghost row_start = self.screen();
            let mut x: usize = 0;
            while x < gw
                invariant
                    self.font == old(self).font,
                    m0 == old(self).model(),
                    g == m0.geom,
                    geom_wf(g),
                    gw == g.font_w,
                    gh == g.font_h,
                    bpg == g.char_size,
                    bpr == (gw + 7) / 8,
                    bx < g.width,
                    by < g.height,
                    goff + bpg <= g.glyphs.len(),
                    goff + bpg <= usize::MAX,
                    f == glyph_colors(g.glyphs, goff as int, bpg as int, bpr as int, bx as int, by as int, fg, bg),
                    y < gh,
                    x <= gw,
                    row_start == paint_rect(g, s0, bx as int, bx + gw, by as int, by + y, f),
                    self.model() == with_screen(m0, paint_span(g, row_start, by + y, bx as int, bx + x, f)),
                decreases gw - x,
            {
                proof {
                    lemma_mul_mono(y as int, gh as int, bpr as int);
                }
                let bi = y * bpr + x / 8;
                if bi < bpg {
                    let bit: u8 = 0x80u8 >> ((x % 8) as u8);
                    let glyphs = self.font.glyphs();
                    let enabled = glyphs[goff + bi] & bit != 0;
                    let color = if enabled {
                        fg
                    } else {
                        bg
                    };
                    self.put_pixel(bx + x, by + y, color);
                }
                x += 1;
            }
            y += 1;
        }
    }

    /// Draws `byte` in the cursor's cell; the cursor does not move.
    pub fn draw_char(&mut self, byte: u8, fg: ConsoleColor, bg: ConsoleColor)
        requires
            old(self).wf(),
        ensures
            final(self).font == old(self).font,
            final(self).model() == draw_char_spec(old(self).model(), byte, fg, bg),
    {
        proof {
            lemma_mul_mono(self.cursor_x as int, self.cursor_x + 1, self.geom().font_w);
            lemma_mul_mono(self.cursor_y as int, self.cursor_y + 1, self.geom().font_h);
        }
        let cx = self.cursor_x;
        let cy = self.cursor_y;
        self.draw_glyph(byte, cx, cy, fg, bg);
    }

    /// Draws `byte` in cell (col, row) without moving the cursor.
    pub fn write_byte_at(&mut self, byte: u8, col: usize, row: usize, fg: ConsoleColor, bg: ConsoleColor)
        requires
            geom_wf(old(self).geom()),
            byte >= old(self).geom().glyph_count || (col * old(self).geom().font_w <= usize::MAX
                && row * old(self).geom().font_h <= usize::MAX),
        ensures
            final(self).font == old(self).font,
            final(self).model() == with_screen(
                old(self).model(),
                glyph_screen(old(self).geom(), old(self).screen(), byte, col as int, row as int, fg, bg),
            ),
    {
        self.draw_glyph(byte, col, row, fg, bg);
    }

    fn write_bytes_at(&mut self, text: &[u8], col: usize, row: usize, fg: ConsoleColor, bg: ConsoleColor)
        requires
            geom_wf(old(self).geom()),
        ensures
            final(self).font == old(self).font,
            final(self).model() == with_screen(
                old(self).model(),
                text_screen(old(self).geom(), old(self).screen(), text@, col as int, row as int, fg, bg),
            ),
    {
        let ncols = self.cols();
        let nrows = self.rows();
        let ghost m0 = self.model();
        let ghost g = self.geom();
        let ghost goal = text_screen(g, self.screen(), text@, col as int, row as int, fg, bg);
        let mut i: usize = 0;
        let mut cx = col;
        assert(text@.skip(0) =~= text@);
        while i < text.len()
            invariant_except_break
                i <= text@.len(),
                cx == col + i,
            invariant
                self.font == old(self).font,
                m0 == old(self).model(),
                g == m0.geom,
                geom_wf(g),
                ncols == cols(g),
                nrows == rows(g),
                self.model() == with_screen(m0, self.screen()),
                text_screen(g, self.screen(), text@.skip(i as int), cx as int, row as int, fg, bg) == goal,
            ensures
                self.model() == with_screen(m0, goal),
            decreases text@.len() - i,
        {
            if cx >= ncols || row >= nrows {
                break;
            }
            proof {
                lemma_cell_fits(g.width, g.font_w, cx as int);
                lemma_cell_fits(g.height, g.font_h, row as int);
                assert(text@.skip(i as int)[0] == text@[i as int]);
                assert(text@.skip(i as int).drop_first() =~= text@.skip(i + 1));
            }
            self.draw_glyph(text[i], cx, row, fg, bg);
            cx += 1;
            i += 1;
        }
    }

    /// Draws `text` from cell (col, row) rightwards, stopping at the edge of
    /// the text grid; the cursor does not move.
    pub fn write_str_at(&mut self, text: &str, col: usize, row: usize, fg: ConsoleColor, bg: ConsoleColor)
        requires
            geom_wf(old(self).geom()),
        ensures
            final(self).font == old(self).font,
            final(self).model() == with_screen(
                old(self).model(),
                text_screen(old(self).geom(), old(self).screen(), text.spec_bytes(), col as int, row as int, fg, bg),
            ),
    {
        self.write_bytes_at(text.as_bytes(), col, row, fg, bg);
    }

    /// Draws the title bar.
    pub fn draw_top_bar(&mut self)
        requires
            geom_wf(old(self).geom()),
        ensures
            final(self).font == old(self).font,
            final(self).model() == with_screen(
                old(self).model(),
                top_bar_screen(old(self).geom(), old(self).screen(), old(self).usable_mib as nat),
            ),
    {
        let ghost g = self.geom();
        let ghost m0 = self.model();
        self.fill_text_row(0, ConsoleColor::rgb(0x00, 0x00, 0xaa));
        self.fill_text_row(1, ConsoleColor::rgb(0x00, 0x00, 0x00));
        let ncols = self.cols();
        self.write_str_at(" ROOTLEAF KERNEL", 0, 0, ConsoleColor::rgb(0xff, 0xff, 0x00), ConsoleColor::rgb(0x00, 0x00, 0xaa));
        let mut mem_buf: Vec<u8> = vec![0u8; 20];
        let n = u64_to_str(self.usable_mib, mem_buf.as_mut_slice());
        proof {
            lemma_decimal_len(self.usable_mib as nat);
            lemma_bar_texts();
        }
        let mem_str = slice_prefix(mem_buf.as_slice(), n);
        assert(mem_str@ =~= decimal(self.usable_mib as nat));
        let prefix = "MEM: ";
        let suffix = " MiB | Framebuffer | PS/2";
        let right_len = prefix.len() + mem_str.len() + suffix.len();
        let right_col = ncols.saturating_sub(right_len + 1);
        self.write_str_at(prefix, right_col, 0, ConsoleColor::rgb(0xff, 0xff, 0xff), ConsoleColor::rgb(0x00, 0x00, 0xaa));
        self.write_bytes_at(mem_str, right_col + prefix.len(), 0, ConsoleColor::rgb(0xff, 0xff, 0x00), ConsoleColor::rgb(0x00, 0x00, 0xaa));
        self.write_str_at(
            suffix,
            right_col + prefix.len() + mem_str.len(),
            0,
            ConsoleColor::rgb(0xff, 0xff, 0xff),
            ConsoleColor::rgb(0x00, 0x00, 0xaa),
        );
        let ghost s6 = self.screen();
        let mut col: usize = 0;
        while col < ncols
            invariant
                self.font == old(self).font,
                m0 == old(self).model(),
                g == m0.geom,
                geom_wf(g),
                ncols == cols(g),
                col <= ncols,
                self.model() == with_screen(m0, dash_row(g, s6, col as int)),
            decreases ncols - col,
        {
            proof {
                lemma_cell_fits(g.width, g.font_w, col as int);
            }
            self.write_byte_at(0x2d, col, 1, ConsoleColor::rgb(0x20, 0x20, 0x20), ConsoleColor::rgb(0x00, 0x00, 0x00));
            col += 1;
        }
    }

    /// Draws the status bar.
    pub fn draw_bottom_bar(&mut self)
        requires
            geom_wf(old(self).geom()),
        ensures
            final(self).font == old(self).font,
            final(self).model() == with_screen(
                old(self).model(),
                bottom_bar_screen(old(self).geom(), old(self).screen()),
            ),
    {
        let row = self.bottom_bar_row();
        proof {
            lemma_grid_fits(self.height as int, self.geom().font_h);
            lemma_bar_texts();
        }
        self.fill_text_row(row, ConsoleColor::rgb(0x00, 0x00, 0xaa));
        self.write_str_at(
            " F1 Help | F2 Mem | F3 Disks | ESC Shell",
            0,
            row,
            ConsoleColor::rgb(0xff, 0xff, 0xff),
            ConsoleColor::rgb(0x00, 0x00, 0xaa),
        );
        let right = KERNEL_VERSION;
        let col = self.cols().saturating_sub(right.len() + 11);
        self.write_str_at("Rootleaf ", col, row, ConsoleColor::rgb(0xaa, 0xaa, 0xaa), ConsoleColor::rgb(0x00, 0x00, 0xaa));
        self.write_str_at(right, col + 9, row, ConsoleColor::rgb(0xff, 0xff, 0x00), ConsoleColor::rgb(0x00, 0x00, 0xaa));
    }

    /// Draws both bars.
    pub fn redraw_chrome(&mut self)
        requires
            geom_wf(old(self).geom()),
        ensures
            final(self).font == old(self).font,
            final(self).model() == with_screen(
                old(self).model(),
                chrome_screen(old(self).geom(), old(self).screen(), old(self).usable_mib as nat),
            ),
    {
        self.draw_top_bar();
        self.draw_bottom_bar();
    }
}

/// Returns the first `n` bytes.
fn slice_prefix(s: &[u8], n: usize) -> (r: &[u8])
    requires
        n <= s@.len(),
    ensures
        r@ == s@.subrange(0, n as int),
{
    &s[0..n]
}


impl ConsoleDriver {
    /// Moves the text area up one text row, zeroes its last row and draws
    /// the bars again; nothing happens when the text area has fewer than
    /// two rows or does not fit.
    pub fn scroll(&mut self)
        requires
            geom_wf(old(self).geom()),
        ensures
            final(self).font == old(self).font,
            final(self).model() == scroll_spec(old(self).model()),
    {
        let ghost g = self.geom();
        let gh = self.font_height();
        let start_row = self.content_start_row();
        let end_row = self.content_end_row();
        if end_row <= start_row + 1 {
            return;
        }
        proof {
            lemma_grid_fits(g.height, g.font_h);
            lemma_mul_mono(end_row as int, rows(g), gh as int);
        }
        let start_y = start_row * gh;
        let end_y = end_row * gh;
        if start_y >= self.height || end_y > self.height {
            return;
        }
        proof {
            lemma_mul_mono(end_y as int, g.height, g.pitch);
            assert(3 * gh <= end_y) by (nonlinear_arith)
                requires
                    end_row >= 4,
                    end_y == end_row * gh,
                    gh >= 0,
            ;
            lemma_mul_mono(3 * gh, end_y as int, g.pitch);
            lemma_mul_mono(gh as int, 3 * gh, g.pitch);
            assert(3 * gh * self.pitch == start_y * self.pitch + gh * self.pitch) by (nonlinear_arith)
                requires
                    start_y == 2 * gh,
            ;
        }
        let row_bytes = gh * self.pitch;
        let start_offset = start_y * self.pitch;
        let end_offset = end_y * self.pitch;
        let has_back = self.back_buffer.is_some();
        match &mut self.back_buffer {
            Some(b) => {
                if start_offset + row_bytes >= end_offset || end_offset > b.len() {
                    return;
                }
                shift_rows_up(b, start_offset, row_bytes, end_offset);
            },
            None => {
                if start_offset + row_bytes >= end_offset || end_offset > self.fb.len() {
                    return;
                }
                shift_rows_up(&mut self.fb, start_offset, row_bytes, end_offset);
            },
        }
        if has_back {
            self.dirty = true;
        }
        self.redraw_chrome();
    }

    /// Moves the cursor to the start of the next row, scrolling when it
    /// passes the text area.
    pub fn newline(&mut self)
        requires
            geom_wf(old(self).geom()),
            old(self).cursor_y < usize::MAX,
        ensures
            final(self).font == old(self).font,
            final(self).model() == newline_spec(old(self).model()),
            final(self).wf(),
    {
        let ghost g = self.geom();
        self.cursor_x = 0;
        self.cursor_y += 1;
        let end = self.content_end_row();
        proof {
            lemma_grid_fits(g.height, g.font_h);
        }
        if self.cursor_y >= end {
            self.scroll();
            self.cursor_y = end.saturating_sub(1);
        }
        proof {
            if rows(g) >= 1 {
                lemma_mul_mono(self.cursor_y + 1, rows(g), g.font_h);
            }
        }
    }

    /// Draws a printable byte at the cursor and moves right, wrapping at
    /// the right edge.
    fn put_printable(&mut self, byte: u8, fg: ConsoleColor, bg: ConsoleColor)
        requires
            old(self).wf(),
        ensures
            final(self).font == old(self).font,
            final(self).model() == put_printable(old(self).model(), byte, fg, bg),
            final(self).wf(),
    {
        let ghost g = self.geom();
        self.draw_char(byte, fg, bg);
        self.cursor_x += 1;
        if self.cursor_x >= self.cols() {
            self.newline();
        } else {
            proof {
                lemma_cell_fits(g.width, g.font_w, self.cursor_x as int);
            }
        }
    }

    /// Moves the cursor back one cell (to the end of the previous row at
    /// the start of a row, never above the text area) and blanks that cell.
    pub fn backspace(&mut self)
        requires
            old(self).wf(),
        ensures
            final(self).font == old(self).font,
            final(self).model() == backspace_spec(old(self).model()),
            final(self).wf(),
    {
        let ghost g = self.geom();
        if self.cursor_x > 0 {
            proof {
                lemma_mul_mono(self.cursor_x as int, self.cursor_x + 1, g.font_w);
            }
            self.cursor_x -= 1;
        } else if self.cursor_y > self.content_start_row() {
            proof {
                lemma_mul_mono(self.cursor_y as int, self.cursor_y + 1, g.font_h);
                lemma_grid_fits(g.width, g.font_w);
                lemma_mul_mono(sat_sub(cols(g), 1) + 1, if cols(g) >= 1 { cols(g) } else { 1 }, g.font_w);
            }
            self.cursor_y -= 1;
            self.cursor_x = self.cols().saturating_sub(1);
        } else {
            return;
        }
        let fg = self.fg;
        let bg = self.bg;
        self.draw_char(0x20, fg, bg);
    }

    /// One byte of text in the given colours.
    fn put_byte(&mut self, byte: u8, fg: ConsoleColor, bg: ConsoleColor)
        requires
            old(self).wf(),
        ensures
            final(self).font == old(self).font,
            final(self).model() == put_byte(old(self).model(), byte, fg, bg),
            final(self).wf(),
    {
        if byte == 0x0a {
            self.newline();
        } else if byte == 0x0d {
            self.cursor_x = 0;
        } else if byte == 0x09 {
            self.put_printable(0x20, fg, bg);
            self.put_printable(0x20, fg, bg);
            self.put_printable(0x20, fg, bg);
            self.put_printable(0x20, fg, bg);
        } else if byte == 0x08 {
            self.backspace();
        } else {
            self.put_printable(byte, fg, bg);
        }
    }

    /// One byte of text in the console's colours: line feed, carriage
    /// return, tab (four spaces), backspace, or a glyph.
    pub fn write_byte(&mut self, byte: u8)
        requires
            old(self).wf(),
        ensures
            final(self).font == old(self).font,
            final(self).model() == put_byte(old(self).model(), byte, old(self).fg, old(self).bg),
            final(self).wf(),
    {
        let fg = self.fg;
        let bg = self.bg;
        self.put_byte(byte, fg, bg);
    }

    fn put_bytes(&mut self, text: &[u8], fg: ConsoleColor, bg: ConsoleColor)
        requires
            old(self).wf(),
        ensures
            final(self).font == old(self).font,
            final(self).model() == put_text(old(self).model(), text@, fg, bg),
            final(self).wf(),
    {
        let ghost goal = put_text(self.model(), text@, fg, bg);
        let mut i: usize = 0;
        assert(text@.skip(0) =~= text@);
        while i < text.len()
            invariant
                self.font == old(self).font,
                self.wf(),
                i <= text@.len(),
                put_text(self.model(), text@.skip(i as int), fg, bg) == goal,
            decreases text@.len() - i,
        {
            proof {
                assert(text@.skip(i as int)[0] == text@[i as int]);
                assert(text@.skip(i as int).drop_first() =~= text@.skip(i + 1));
            }
            self.put_byte(text[i], fg, bg);
            i += 1;
        }
    }

    /// Text in the given colours at the cursor.
    pub fn write_colored(&mut self, text: &str, fg: ConsoleColor, bg: ConsoleColor)
        requires
            old(self).wf(),
        ensures
            final(self).font == old(self).font,
            final(self).model() == put_text(old(self).model(), text.spec_bytes(), fg, bg),
            final(self).wf(),
    {
        self.put_bytes(text.as_bytes(), fg, bg);
    }

    /// Text in the console's colours at the cursor.
    pub fn write_str_raw(&mut self, s: &str)
        requires
            old(self).wf(),
        ensures
            final(self).font == old(self).font,
            final(self).model() == put_text(old(self).model(), s.spec_bytes(), old(self).fg, old(self).bg),
            final(self).wf(),
    {
        let fg = self.fg;
        let bg = self.bg;
        self.put_bytes(s.as_bytes(), fg, bg);
    }

    /// The start-up banner.
    pub fn draw_banner(&mut self)
        requires
            old(self).wf(),
        ensures
            final(self).font == old(self).font,
            final(self).model() == banner_spec(old(self).model()),
            final(self).wf(),
    {
        let green = ConsoleColor::rgb(0x00, 0xff, 0x00);
        let cyan = ConsoleColor::rgb(0x00, 0xaa, 0xaa);
        let gray = ConsoleColor::rgb(0xaa, 0xaa, 0xaa);
        let black = ConsoleColor::rgb(0x00, 0x00, 0x00);
        let white = ConsoleColor::rgb(0xff, 0xff, 0xff);
        self.write_colored("Rootleaf Kernel [Version ", green, black);
        self.write_colored(KERNEL_VERSION, cyan, black);
        self.write_colored("]\n", green, black);
        self.write_colored("(C) 2026 Rootleaf community\n", gray, black);
        self.write_colored("\n", white, black);
        self.write_colored("Type ", gray, black);
        self.write_colored("HELP", cyan, black);
        self.write_colored(" for available commands.\n\n", gray, black);
    }

    /// The prompt for the working directory `cwd`.
    pub fn prompt(&mut self, cwd: &str)
        requires
            old(self).wf(),
        ensures
            final(self).font == old(self).font,
            final(self).model() == prompt_spec(old(self).model(), cwd.spec_bytes()),
            final(self).wf(),
    {
        let light_green = ConsoleColor::rgb(0x55, 0xff, 0x55);
        let black = ConsoleColor::rgb(0x00, 0x00, 0x00);
        self.write_colored(cwd, light_green, black);
        self.write_colored(" % ", light_green, black);
        self.write_byte(0x20);
    }

    /// Clears to black, puts the cursor at the start of the text area and
    /// draws both bars.
    pub fn clear_screen(&mut self)
        requires
            geom_wf(old(self).geom()),
        ensures
            final(self).font == old(self).font,
            final(self).model() == clear_screen_spec(old(self).model()),
            final(self).wf(),
    {
        self.clear(ConsoleColor::rgb(0x00, 0x00, 0x00));
        self.cursor_x = 0;
        self.cursor_y = self.content_start_row();
        self.redraw_chrome();
    }

    /// A fresh screen: cleared, the banner, and the prompt for `cwd`.
    pub fn init(&mut self, cwd: &str)
        requires
            geom_wf(old(self).geom()),
        ensures
            final(self).font == old(self).font,
            final(self).model() == prompt_spec(banner_spec(clear_screen_spec(old(self).model())), cwd.spec_bytes()),
            final(self).wf(),
    {
        self.clear_screen();
        self.draw_banner();
        self.prompt(cwd);
    }

    /// Draws the cursor block over the cursor's cell when the cursor is in
    /// the text area.
    pub fn draw_cursor(&mut self, fg: ConsoleColor, bg: ConsoleColor)
        requires
            old(self).wf(),
        ensures
            final(self).font == old(self).font,
            final(self).model() == cursor_block_spec(old(self).model(), fg, bg),
    {
        if self.cursor_y < self.content_start_row() || self.cursor_y >= self.content_end_row() {
            return;
        }
        let ghost g = self.geom();
        let ghost s0 = self.screen();
        let ghost m0 = self.model();
        let gw = self.font_width();
        let gh = self.font_height();
        proof {
            lemma_mul_mono(self.cursor_x as int, self.cursor_x + 1, g.font_w);
            lemma_mul_mono(self.cursor_y as int, self.cursor_y + 1, g.font_h);
            assert((self.cursor_x + 1) * gw == self.cursor_x * gw + gw) by (nonlinear_arith);
            assert((self.cursor_y + 1) * gh == self.cursor_y * gh + gh) by (nonlinear_arith);
        }
        let base_x = self.cursor_x * gw;
        let base_y = self.cursor_y * gh;
        let ghost f = checker(base_x as int, base_y as int, fg, bg);
        let mut y: usize = 0;
        while y < gh
            invariant
                self.font == old(self).font,
                m0 == old(self).model(),
                g == m0.geom,
                s0 == m0.screen,
                geom_wf(g),
                gw == g.font_w,
                gh == g.font_h,
                base_x + gw <= usize::MAX,
                base_y + gh <= usize::MAX,
                f == checker(base_x as int, base_y as int, fg, bg),
                y <= gh,
                self.model() == with_screen(m0, paint_rect(g, s0, base_x as int, base_x + gw, base_y as int, base_y + y, f)),
            decreases gh - y,
        {
            let ghost row_start = self.screen();
            let mut x: usize = 0;
            while x < gw
                invariant
                    self.font == old(self).font,
                    m0 == old(self).model(),
                    g == m0.geom,
                    geom_wf(g),
                    gw == g.font_w,
                    gh == g.font_h,
                    base_x + gw <= usize::MAX,
                    base_y + gh <= usize::MAX,
                    f == checker(base_x as int, base_y as int, fg, bg),
                    y < gh,
                    x <= gw,
                    row_start == paint_rect(g, s0, base_x as int, base_x + gw, base_y as int, base_y + y, f),
                    self.model() == with_screen(m0, paint_span(g, row_start, base_y + y, base_x as int, base_x + x, f)),
                decreases gw - x,
            {
                let color = if (x + y) % 2 == 0 {
                    fg
                } else {
                    bg
                };
                self.put_pixel(base_x + x, base_y + y, color);
                x += 1;
            }
            y += 1;
        }
    }

    /// One tick of the blink timer.
    pub fn tick_cursor(&mut self)
        requires
            old(self).wf(),
        ensures
            final(self).font == old(self).font,
            final(self).model() == tick_spec(old(self).model()),
            final(self).wf(),
    {
        self.blink_counter = if self.blink_counter == usize::MAX {
            0
        } else {
            self.blink_counter + 1
        };
        if self.blink_counter % BLINK_PERIOD != 0 {
            return;
        }
        if self.cursor_y < self.content_start_row() || self.cursor_y >= self.content_end_row() {
            return;
        }
        self.cursor_visible = !self.cursor_visible;
        if self.cursor_visible {
            self.draw_cursor(ConsoleColor::rgb(0xff, 0xff, 0xff), ConsoleColor::rgb(0x00, 0x00, 0x00));
        } else {
            let fg = self.fg;
            let bg = self.bg;
            self.draw_char(0x20, fg, bg);
        }
    }
}

} // verus!
