//! A linear framebuffer: pixels of `bytes_per_pixel` bytes in B, G, R(, A)
//! order, rows `pitch` bytes apart.

use vstd::prelude::*;

verus! {

#[derive(Clone, Copy, PartialEq, Eq, Structural)]
pub struct Color {
    pub r: u8,
    pub g: u8,
    pub b: u8,
    pub a: u8,
}

impl Color {

    /// An opaque colour (alpha 0, as the framebuffer expects).
    pub fn rgb(r: u8, g: u8, b: u8) -> (c: Color)
        ensures
            c == (Color { r, g, b, a: 0 }),
    {
        Color { r, g, b, a: 0x00 }
    }

    pub fn rgba(r: u8, g: u8, b: u8, a: u8) -> (c: Color)
        ensures
            c == (Color { r, g, b, a }),
    {
        Color { r, g, b, a }
    }
}

/// The geometry of a framebuffer.
pub ghost struct FbGeom {
    pub width: int,
    pub height: int,
    pub pitch: int,
    pub bpp: int,
    pub size: int,
}

/// Byte offset of pixel (x, y).
pub open spec fn pixel_offset(g: FbGeom, x: int, y: int) -> int {
    y * g.pitch + x * g.bpp
}

/// Whether pixel (x, y) is drawn: on screen, at least 3 bytes per pixel,
/// and its colour bytes inside the memory.
pub open spec fn fb_visible(g: FbGeom, x: int, y: int) -> bool {
    0 <= x < g.width && 0 <= y < g.height && g.bpp >= 3 && pixel_offset(g, x, y) + 2 < g.size
}

/// The memory after drawing pixel (x, y) in colour `c`; the alpha byte is
/// written only for pixels of 4 or more bytes that fit entirely.
pub open spec fn fb_plot(m: Seq<u8>, g: FbGeom, x: int, y: int, c: Color) -> Seq<u8> {
    if fb_visible(g, x, y) {
        let o = pixel_offset(g, x, y);
        let m1 = m.update(o, c.b).update(o + 1, c.g).update(o + 2, c.r);
        if g.bpp >= 4 && o + 3 < g.size {
            m1.update(o + 3, c.a)
        } else {
            m1
        }
    } else {
        m
    }
}

/// Pixels (x0, y) .. (x1 - 1, y) drawn left to right.
pub open spec fn fb_span(m: Seq<u8>, g: FbGeom, y: int, x0: int, x1: int, c: Color) -> Seq<u8>
    decreases x1 - x0,
{
    if x1 <= x0 {
        m
    } else {
        fb_plot(fb_span(m, g, y, x0, x1 - 1, c), g, x1 - 1, y, c)
    }
}

/// Rows y0 .. y1 of the rectangle x0 .. x1 drawn top to bottom.
pub open spec fn fb_rect(m: Seq<u8>, g: FbGeom, x0: int, x1: int, y0: int, y1: int, c: Color) -> Seq<
    u8,
>
    decreases y1 - y0,
{
    if y1 <= y0 {
        m
    } else {
        fb_span(fb_rect(m, g, x0, x1, y0, y1 - 1, c), g, y1 - 1, x0, x1, c)
    }
}

/// For x in x0 .. x1: pixel (x, ya), then pixel (x, yb).
pub open spec fn fb_hpairs(m: Seq<u8>, g: FbGeom, x0: int, x1: int, ya: int, yb: int, c: Color) -> Seq<
    u8,
>
    decreases x1 - x0,
{
    if x1 <= x0 {
        m
    } else {
        fb_plot(fb_plot(fb_hpairs(m, g, x0, x1 - 1, ya, yb, c), g, x1 - 1, ya, c), g, x1 - 1, yb, c)
    }
}

/// For y in y0 .. y1: pixel (xa, y), then pixel (xb, y).
pub open spec fn fb_vpairs(m: Seq<u8>, g: FbGeom, y0: int, y1: int, xa: int, xb: int, c: Color) -> Seq<
    u8,
>
    decreases y1 - y0,
{
    if y1 <= y0 {
        m
    } else {
        fb_plot(fb_plot(fb_vpairs(m, g, y0, y1 - 1, xa, xb, c), g, xa, y1 - 1, c), g, xb, y1 - 1, c)
    }
}

/// For y in y0 .. y1: pixel (x, y).
pub open spec fn fb_column(m: Seq<u8>, g: FbGeom, x: int, y0: int, y1: int, c: Color) -> Seq<u8>
    decreases y1 - y0,
{
    if y1 <= y0 {
        m
    } else {
        fb_plot(fb_column(m, g, x, y0, y1 - 1, c), g, x, y1 - 1, c)
    }
}

pub open spec fn min_int(a: int, b: int) -> int {
    if a < b {
        a
    } else {
        b
    }
}

/// `a + b` capped at `usize::MAX`.
pub open spec fn sat_add(a: int, b: int) -> int {
    if a + b > usize::MAX {
        usize::MAX as int
    } else {
        a + b
    }
}

pub struct FramebufferDriver {
    mem: Vec<u8>,
    size: usize,
    width: usize,
    height: usize,
    pitch: usize,
    bytes_per_pixel: usize,
}

impl FramebufferDriver {
    /// The memory is `pitch * height` bytes and every pixel offset fits.
    pub closed spec fn wf(&self) -> bool {
        &&& self.mem@.len() == self.size
        &&& self.size == self.pitch * self.height
        &&& self.height * self.pitch + self.width * self.bytes_per_pixel + 4 <= usize::MAX
    }

    pub closed spec fn memory(&self) -> Seq<u8> {
        self.mem@
    }

    pub closed spec fn geom(&self) -> FbGeom {
        FbGeom {
            width: self.width as int,
            height: self.height as int,
            pitch: self.pitch as int,
            bpp: self.bytes_per_pixel as int,
            size: self.size as int,
        }
    }

    /// A framebuffer as the bootloader describes it: its memory, its size
    /// in pixels, the bytes per row and the bits per pixel.
    pub fn new(mem: Vec<u8>, width: u64, height: u64, pitch: u64, bpp: u16) -> (fb: Self)
        requires
            width <= usize::MAX,
            height <= usize::MAX,
            pitch <= usize::MAX,
            mem@.len() == pitch * height,
            height * pitch + width * (bpp / 8) + 4 <= usize::MAX,
        ensures
            fb.wf(),
            fb.memory() == mem@,
            fb.geom() == (FbGeom {
                width: width as int,
                height: height as int,
                pitch: pitch as int,
                bpp: (bpp / 8) as int,
                size: pitch * height,
            }),
    {
        Self::from_raw(mem, width as usize, height as usize, pitch as usize, (bpp / 8) as usize)
    }

    /// A framebuffer over the given memory.
    pub fn from_raw(
        mem: Vec<u8>,
        width: usize,
        height: usize,
        pitch: usize,
        bytes_per_pixel: usize,
    ) -> (fb: Self)
        requires
            mem@.len() == pitch * height,
            height * pitch + width * bytes_per_pixel + 4 <= usize::MAX,
        ensures
            fb.wf(),
            fb.memory() == mem@,
            fb.geom() == (FbGeom {
                width: width as int,
                height: height as int,
                pitch: pitch as int,
                bpp: bytes_per_pixel as int,
                size: pitch * height,
            }),
    {
        let size = mem.len();
        FramebufferDriver { mem, size, width, height, pitch, bytes_per_pixel }
    }

    /// The framebuffer memory.
    pub fn addr(&self) -> (r: &[u8])
        requires
            self.wf(),
        ensures
            r@ == self.memory(),
    {
        self.mem.as_slice()
    }

    pub fn size(&self) -> (r: usize)
        requires
            self.wf(),
        ensures
            r == self.geom().size,
    {
        self.size
    }

    pub fn width(&self) -> (r: usize)
        requires
            self.wf(),
        ensures
            r == self.geom().width,
    {
        self.width
    }

    pub fn height(&self) -> (r: usize)
        requires
            self.wf(),
        ensures
            r == self.geom().height,
    {
        self.height
    }

    pub fn pitch(&self) -> (r: usize)
        requires
            self.wf(),
        ensures
            r == self.geom().pitch,
    {
        self.pitch
    }

    pub fn bytes_per_pixel(&self) -> (r: usize)
        requires
            self.wf(),
        ensures
            r == self.geom().bpp,
    {
        self.bytes_per_pixel
    }

    proof fn lemma_offset_fits(&self, x: int, y: int)
        requires
            self.wf(),
            0 <= x < self.width,
            0 <= y < self.height,
        ensures
            0 <= pixel_offset(self.geom(), x, y),
            pixel_offset(self.geom(), x, y) + 4 <= usize::MAX,
    {
        assert(y * self.pitch <= self.height * self.pitch) by (nonlinear_arith)
            requires
                0 <= y < self.height,
        ;
        assert(x * self.bytes_per_pixel <= self.width * self.bytes_per_pixel) by (nonlinear_arith)
            requires
                0 <= x < self.width,
        ;
        assert(0 <= y * self.pitch) by (nonlinear_arith)
            requires
                0 <= y,
        ;
        assert(0 <= x * self.bytes_per_pixel) by (nonlinear_arith)
            requires
                0 <= x,
        ;
    }

    /// Draws one pixel; pixels off screen, narrower than 3 bytes or not
    /// entirely inside the memory are skipped.
    pub fn put_pixel(&mut self, x: usize, y: usize, color: Color)
        requires
            old(self).wf(),
        ensures
            final(self).wf(),
            final(self).geom() == old(self).geom(),
            final(self).memory() == fb_plot(old(self).memory(), old(self).geom(), x as int, y as int, color),
    {
        if x >= self.width || y >= self.height {
            return;
        }
        if self.bytes_per_pixel < 3 {
            return;
        }
        proof {
            self.lemma_offset_fits(x as int, y as int);
        }
        let offset = y * self.pitch + x * self.bytes_per_pixel;
        if offset + 2 >= self.size {
            return;
        }
        self.mem.set(offset, color.b);
        self.mem.set(offset + 1, color.g);
        self.mem.set(offset + 2, color.r);
        if self.bytes_per_pixel >= 4 && offset + 3 < self.size {
            self.mem.set(offset + 3, color.a);
        }
    }

    /// Fills the whole screen, row by row.
    pub fn clear(&mut self, color: Color)
        requires
            old(self).wf(),
        ensures
            final(self).wf(),
            final(self).geom() == old(self).geom(),
            final(self).memory() == fb_rect(
                old(self).memory(),
                old(self).geom(),
                0,
                old(self).geom().width,
                0,
                old(self).geom().height,
                color,
            ),
    {
        let w = self.width;
        let h = self.height;
        self.paint_rect(0, w, 0, h, color);
    }

    fn paint_span(&mut self, y: usize, x0: usize, x1: usize, color: Color)
        requires
            old(self).wf(),
            x0 <= x1,
        ensures
            final(self).wf(),
            final(self).geom() == old(self).geom(),
            final(self).memory() == fb_span(old(self).memory(), old(self).geom(), y as int, x0 as int, x1 as int, color),
    {
        let mut x = x0;
        while x < x1
            invariant
                self.wf(),
                x0 <= x <= x1,
                self.geom() == old(self).geom(),
                self.memory() == fb_span(old(self).memory(), old(self).geom(), y as int, x0 as int, x as int, color),
            decreases x1 - x,
        {
            self.put_pixel(x, y, color);
            x += 1;
        }
    }

    fn paint_rect(&mut self, x0: usize, x1: usize, y0: usize, y1: usize, color: Color)
        requires
            old(self).wf(),
            x0 <= x1,
            y0 <= y1,
        ensures
            final(self).wf(),
            final(self).geom() == old(self).geom(),
            final(self).memory() == fb_rect(old(self).memory(), old(self).geom(), x0 as int, x1 as int, y0 as int, y1 as int, color),
    {
        let mut y = y0;
        while y < y1
            invariant
                self.wf(),
                y0 <= y <= y1,
                x0 <= x1,
                self.geom() == old(self).geom(),
                self.memory() == fb_rect(old(self).memory(), old(self).geom(), x0 as int, x1 as int, y0 as int, y as int, color),
            decreases y1 - y,
        {
            self.paint_span(y, x0, x1, color);
            y += 1;
        }
    }

    /// The byte offset of pixel (x, y), if it is on screen and its colour
    /// bytes fit in the memory.
    pub fn get_pixel_offset(&self, x: usize, y: usize) -> (r: Option<usize>)
        requires
            self.wf(),
        ensures
            r == (if 0 <= x < self.geom().width && 0 <= y < self.geom().height && pixel_offset(
                self.geom(),
                x as int,
                y as int,
            ) + 2 < self.geom().size {
                Some(pixel_offset(self.geom(), x as int, y as int) as usize)
            } else {
                None
            }),
    {
        if x >= self.width || y >= self.height {
            return None;
        }
        proof {
            self.lemma_offset_fits(x as int, y as int);
        }
        let offset = y * self.pitch + x * self.bytes_per_pixel;
        if offset + 2 >= self.size {
            return None;
        }
        Some(offset)
    }

    /// Fills the rectangle at (x, y) of size w x h, clipped to the screen;
    /// nothing when its corner is off screen.
    pub fn fill_rect(&mut self, x: usize, y: usize, w: usize, h: usize, color: Color)
        requires
            old(self).wf(),
        ensures
            final(self).wf(),
            final(self).geom() == old(self).geom(),
            final(self).memory() == (if x >= old(self).geom().width || y >= old(self).geom().height {
                old(self).memory()
            } else {
                fb_rect(
                    old(self).memory(),
                    old(self).geom(),
                    x as int,
                    min_int(sat_add(x as int, w as int), old(self).geom().width),
                    y as int,
                    min_int(sat_add(y as int, h as int), old(self).geom().height),
                    color,
                )
            }),
    {
        if x >= self.width || y >= self.height {
            return;
        }
        let ex = x.saturating_add(w);
        let ey = y.saturating_add(h);
        let max_x = if ex < self.width {
            ex
        } else {
            self.width
        };
        let max_y = if ey < self.height {
            ey
        } else {
            self.height
        };
        self.paint_rect(x, max_x, y, max_y, color);
    }

    /// The outline of the rectangle at (x, y) of size w x h: the top and
    /// bottom edges pixel by pixel, then the left and right edges.
    pub fn draw_rect(&mut self, x: usize, y: usize, w: usize, h: usize, color: Color)
        requires
            old(self).wf(),
        ensures
            final(self).wf(),
            final(self).geom() == old(self).geom(),
            final(self).memory() == (if w == 0 || h == 0 {
                old(self).memory()
            } else {
                let x2 = sat_add(x as int, w - 1);
                let y2 = sat_add(y as int, h - 1);
                fb_vpairs(
                    fb_hpairs(old(self).memory(), old(self).geom(), x as int, x2 + 1, y as int, y2, color),
                    old(self).geom(),
                    y as int,
                    y2 + 1,
                    x as int,
                    x2,
                    color,
                )
            }),
    {
        if w == 0 || h == 0 {
            return;
        }
        let x2 = x.saturating_add(w - 1);
        let y2 = y.saturating_add(h - 1);
        let ghost m0 = self.memory();
        let ghost g = self.geom();
        let mut px = x;
        loop
            invariant_except_break
                self.memory() == fb_hpairs(m0, g, x as int, px as int, y as int, y2 as int, color),
            invariant
                self.wf(),
                x <= px <= x2,
                self.geom() == g,
            ensures
                self.memory() == fb_hpairs(m0, g, x as int, x2 + 1, y as int, y2 as int, color),
            decreases x2 - px,
        {
            self.put_pixel(px, y, color);
            self.put_pixel(px, y2, color);
            if px == x2 {
                break;
            }
            px += 1;
        }
        let ghost m1 = self.memory();
        let mut py = y;
        loop
            invariant_except_break
                self.memory() == fb_vpairs(m1, g, y as int, py as int, x as int, x2 as int, color),
            invariant
                self.wf(),
                y <= py <= y2,
                self.geom() == g,
            ensures
                self.memory() == fb_vpairs(m1, g, y as int, y2 + 1, x as int, x2 as int, color),
            decreases y2 - py,
        {
            self.put_pixel(x, py, color);
            self.put_pixel(x2, py, color);
            if py == y2 {
                break;
            }
            py += 1;
        }
    }

    /// `len` pixels to the right from (x, y), clipped to the screen.
    pub fn draw_horizontal_line(&mut self, x: usize, y: usize, len: usize, color: Color)
        requires
            old(self).wf(),
        ensures
            final(self).wf(),
            final(self).geom() == old(self).geom(),
            final(self).memory() == (if y >= old(self).geom().height {
                old(self).memory()
            } else {
                fb_span(
                    old(self).memory(),
                    old(self).geom(),
                    y as int,
                    x as int,
                    min_int(sat_add(x as int, len as int), old(self).geom().width),
                    color,
                )
            }),
    {
        if y >= self.height {
            return;
        }
        let e = x.saturating_add(len);
        let max_x = if e < self.width {
            e
        } else {
            self.width
        };
        if x < max_x {
            self.paint_span(y, x, max_x, color);
        }
    }

    /// `len` pixels down from (x, y), clipped to the screen.
    pub fn draw_vertical_line(&mut self, x: usize, y: usize, len: usize, color: Color)
        requires
            old(self).wf(),
        ensures
            final(self).wf(),
            final(self).geom() == old(self).geom(),
            final(self).memory() == (if x >= old(self).geom().width {
                old(self).memory()
            } else {
                fb_column(
                    old(self).memory(),
                    old(self).geom(),
                    x as int,
                    y as int,
                    min_int(sat_add(y as int, len as int), old(self).geom().height),
                    color,
                )
            }),
    {
        if x >= self.width {
            return;
        }
        let e = y.saturating_add(len);
        let max_y = if e < self.height {
            e
        } else {
            self.height
        };
        let mut py = y;
        while py < max_y
            invariant
                self.wf(),
                y <= max_y ==> y <= py <= max_y,
                y > max_y ==> py == y,
                self.geom() == old(self).geom(),
                self.memory() == fb_column(old(self).memory(), old(self).geom(), x as int, y as int, py as int, color),
            decreases max_y - py,
        {
            self.put_pixel(x, py, color);
            py += 1;
        }
    }
}

} // verus!
