//! PSF2 bitmap fonts.

use vstd::prelude::*;
use crate::le::{le32, read_u32};

verus! {

/// Size of the PSF2 header.
pub const PSF2_HEADER_LEN: usize = 32;

/// A PSF2 font: the raw file and the fields of its header.
pub struct Psf2 {
    data: Vec<u8>,
    header_size: u32,
    glyph_count: u32,
    char_size: u32,
    height: u32,
    width: u32,
}

/// The header fields at their offsets.
pub open spec fn psf2_magic_ok(d: Seq<u8>) -> bool {
    d[0] == 0x72u8 && d[1] == 0xb5u8 && d[2] == 0x4au8 && d[3] == 0x86u8
}

/// Whether `new` accepts a file: a whole header, the PSF2 magic, version 0,
/// and room for every glyph after the header.
pub open spec fn psf2_accepts(d: Seq<u8>) -> bool {
    &&& d.len() >= PSF2_HEADER_LEN
    &&& psf2_magic_ok(d)
    &&& le32(d, 4) == 0
    &&& d.len() >= le32(d, 8) + le32(d, 16) * le32(d, 20)
}

impl Psf2 {
    #[verifier::type_invariant]
    spec fn inv(self) -> bool {
        self.header_size as nat + self.glyph_count as nat * self.char_size as nat <= self.data@.len()
    }

    pub closed spec fn file(&self) -> Seq<u8> {
        self.data@
    }

    pub closed spec fn spec_header_size(&self) -> u32 {
        self.header_size
    }

    pub closed spec fn spec_glyph_count(&self) -> u32 {
        self.glyph_count
    }

    pub closed spec fn spec_char_size(&self) -> u32 {
        self.char_size
    }

    pub closed spec fn spec_height(&self) -> u32 {
        self.height
    }

    pub closed spec fn spec_width(&self) -> u32 {
        self.width
    }

    /// The glyph bitmaps, one after another.
    pub open spec fn glyph_bytes(&self) -> Seq<u8> {
        self.file().subrange(
            self.spec_header_size() as int,
            self.spec_header_size() + self.spec_glyph_count() * self.spec_char_size(),
        )
    }

    /// Reads a font file; `None` unless `psf2_accepts` holds.
    pub fn new(data: Vec<u8>) -> (r: Option<Psf2>)
        ensures
            r is Some <==> psf2_accepts(data@),
            r matches Some(f) ==> {
                &&& f.file() == data@
                &&& f.spec_header_size() as nat == le32(data@, 8)
                &&& f.spec_glyph_count() as nat == le32(data@, 16)
                &&& f.spec_char_size() as nat == le32(data@, 20)
                &&& f.spec_height() as nat == le32(data@, 24)
                &&& f.spec_width() as nat == le32(data@, 28)
            },
    {
        if data.len() < PSF2_HEADER_LEN {
            return None;
        }
        let d = data.as_slice();
        if !(d[0] == 0x72 && d[1] == 0xb5 && d[2] == 0x4a && d[3] == 0x86) {
            return None;
        }
        if read_u32(d, 4) != 0 {
            return None;
        }
        let header_size = read_u32(d, 8);
        let glyph_count = read_u32(d, 16);
        let char_size = read_u32(d, 20);
        let height = read_u32(d, 24);
        let width = read_u32(d, 28);
        assert((glyph_count as nat) * (char_size as nat) <= 0xffff_fffe_0000_0001) by (
        nonlinear_arith)
            requires
                glyph_count <= 0xffff_ffffu32,
                char_size <= 0xffff_ffffu32,
        ;
        let glyph_bytes = (glyph_count as u64) * (char_size as u64);
        let need = (header_size as u64).saturating_add(glyph_bytes);
        assert(need as nat == header_size as nat + glyph_count as nat * char_size as nat);
        if (data.len() as u64) < need {
            return None;
        }
        Some(Psf2 { data, header_size, glyph_count, char_size, height, width })
    }

    /// The header is at least as large as the PSF2 header and the font has
    /// glyphs of some size.
    pub fn is_valid(&self) -> (r: bool)
        ensures
            r == (self.spec_header_size() >= PSF2_HEADER_LEN && self.spec_glyph_count() > 0
                && self.spec_char_size() > 0),
    {
        self.header_size >= 32 && self.glyph_count > 0 && self.char_size > 0
    }

    /// The glyph bitmaps that follow the header.
    pub fn glyphs(&self) -> (r: &[u8])
        ensures
            r@ == self.glyph_bytes(),
            r@.len() == self.spec_glyph_count() * self.spec_char_size(),
    {
        proof {
            use_type_invariant(self);
        }
        assert((self.glyph_count as nat) * (self.char_size as nat) <= 0xffff_fffe_0000_0001) by (
        nonlinear_arith)
            requires
                self.glyph_count <= 0xffff_ffffu32,
                self.char_size <= 0xffff_ffffu32,
        ;
        let total = self.data.len();
        let n64 = (self.glyph_count as u64) * (self.char_size as u64);
        assert(n64 as nat == self.glyph_count as nat * self.char_size as nat);
        assert(n64 <= total);
        let start = self.header_size as usize;
        let n = n64 as usize;
        &self.data.as_slice()[start..start + n]
    }

    pub fn char_size(&self) -> (r: u32)
        ensures
            r == self.spec_char_size(),
    {
        self.char_size
    }

    pub fn char_count(&self) -> (r: u32)
        ensures
            r == self.spec_glyph_count(),
    {
        self.glyph_count
    }

    pub fn height(&self) -> (r: u32)
        ensures
            r == self.spec_height(),
    {
        self.height
    }

    pub fn width(&self) -> (r: u32)
        ensures
            r == self.spec_width(),
    {
        self.width
    }
}

} // verus!
