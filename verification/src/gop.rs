//! The framebuffer console of the UEFI kernel: characters are drawn from a
//! PSF1 font (8 pixels wide, 16 rows high) into the graphics framebuffer,
//! line by line, scrolling when the bottom is reached.

use vstd::prelude::*;
use crate::boot::PSF1Font;

verus! {

/// The pen position in pixels.
#[derive(Debug, Clone, Copy, PartialEq, Eq, Structural)]
pub struct Pos {
    pub x: usize,
    pub y: usize,
}

/// The graphics framebuffer: one 32-bit value per pixel, `stride` pixels
/// per scan line, `horizonal` by `vertical` pixels visible.
pub struct Gop {
    pub buffer: Vec<u32>,
    pub buffer_size: usize,
    pub horizonal: usize,
    pub vertical: usize,
    pub stride: usize,
}

/// The framebuffer console.
pub struct Writer {
    pub pos: Pos,
    pub gop: Gop,
    pub font: PSF1Font,
    pub colour: u32,
}

/// The pixel at step `n` of drawing a glyph (row `n / 8`, column `n % 8`).
pub open spec fn glyph_pixel(xoff: int, yoff: int, stride: int, n: int) -> int {
    (xoff + n % 8) + (yoff + n / 8) * stride
}

/// Whether step `n` of drawing a glyph sets its pixel: bit `n % 8` (from
/// the top bit) of the glyph's row `n / 8` is set.
pub open spec fn glyph_bit(glyphs: Seq<u8>, addr: int, n: int) -> bool {
    glyphs[addr + n / 8] & (0x80u8 >> ((n % 8) as u8)) != 0
}

/// The framebuffer after the first `n` steps of drawing the glyph at `addr`
/// with its top left pixel at `(xoff, yoff)`: rows top to bottom, pixels
/// left to right, each set pixel painted in `colour`.
pub open spec fn draw_glyph(buf: Seq<u32>, glyphs: Seq<u8>, addr: int, colour: u32, xoff: int, yoff: int, stride: int, n: int) -> Seq<u32>
    decreases n,
{
    if n <= 0 {
        buf
    } else {
        let prev = draw_glyph(buf, glyphs, addr, colour, xoff, yoff, stride, n - 1);
        if glyph_bit(glyphs, addr, n - 1) {
            prev.update(glyph_pixel(xoff, yoff, stride, n - 1), colour)
        } else {
            prev
        }
    }
}

proof fn lemma_draw_glyph_len(buf: Seq<u32>, glyphs: Seq<u8>, addr: int, colour: u32, xoff: int, yoff: int, stride: int, n: int)
    requires
        n <= 128,
        xoff >= 0,
        yoff >= 0,
        stride >= 0,
        (xoff + 7) + (yoff + 15) * stride < buf.len(),
    ensures
        draw_glyph(buf, glyphs, addr, colour, xoff, yoff, stride, n).len() == buf.len(),
    decreases n,
{
    if n > 0 {
        lemma_draw_glyph_len(buf, glyphs, addr, colour, xoff, yoff, stride, n - 1);
        lemma_glyph_pixel_in_range(xoff, yoff, stride, n - 1, buf.len() as int);
    }
}

/// Drawing character `chr` at `(xoff, yoff)` stays inside the glyph table and
/// the framebuffer.
pub open spec fn put_char_ok(buf_len: int, glyph_len: int, chr: char, xoff: int, yoff: int, stride: int) -> bool {
    &&& (chr as u32) * 16 + 16 <= glyph_len
    &&& xoff + 8 <= usize::MAX
    &&& yoff + 16 <= usize::MAX
    &&& (yoff + 15) * stride <= usize::MAX
    &&& (xoff + 7) + (yoff + 15) * stride < buf_len
}

proof fn lemma_glyph_pixel_in_range(xoff: int, yoff: int, stride: int, n: int, len: int)
    requires
        0 <= n < 128,
        xoff >= 0,
        yoff >= 0,
        stride >= 0,
        (xoff + 7) + (yoff + 15) * stride < len,
    ensures
        0 <= glyph_pixel(xoff, yoff, stride, n) < len,
        (yoff + n / 8) * stride <= (yoff + 15) * stride,
{
    assert((yoff + n / 8) * stride <= (yoff + 15) * stride) by (nonlinear_arith)
        requires
            n / 8 <= 15,
            stride >= 0,
            yoff >= 0,
            n >= 0,
    ;
    assert((yoff + n / 8) * stride >= 0) by (nonlinear_arith)
        requires
            stride >= 0,
            yoff >= 0,
            n >= 0,
    ;
}

/// Draws character `chr` of `glyphs` (16 bytes per character) at
/// `(xoff, yoff)` in `colour` (see `draw_glyph`).
pub fn put_char(gop: &mut Gop, glyphs: &Vec<u8>, colour: u32, chr: char, xoff: usize, yoff: usize)
    requires
        put_char_ok(old(gop).buffer@.len() as int, glyphs@.len() as int, chr, xoff as int, yoff as int, old(gop).stride as int),
    ensures
        final(gop).buffer@ == draw_glyph(
            old(gop).buffer@,
            glyphs@,
            (chr as u32) * 16,
            colour,
            xoff as int,
            yoff as int,
            old(gop).stride as int,
            128,
        ),
        final(gop).buffer_size == old(gop).buffer_size,
        final(gop).horizonal == old(gop).horizonal,
        final(gop).vertical == old(gop).vertical,
        final(gop).stride == old(gop).stride,
{
    let c: u32 = chr as u32;
    let ghost base = (chr as u32) * 16;
    assert(c * 16 + 16 <= glyphs@.len());
    let mut addr = c as usize * 16;
    let glen = glyphs.len();
    let blen = gop.buffer.len();
    let stride = gop.stride;
    let mut y = yoff;
    while y < yoff + 16
        invariant
            yoff <= y <= yoff + 16,
            addr == base + (y - yoff),
            glen == glyphs@.len(),
            blen == gop.buffer@.len(),
            base + 16 <= glyphs@.len(),
            stride == gop.stride,
            put_char_ok(old(gop).buffer@.len() as int, glyphs@.len() as int, chr, xoff as int, yoff as int, stride as int),
            gop.buffer@.len() == old(gop).buffer@.len(),
            gop.buffer@ == draw_glyph(old(gop).buffer@, glyphs@, base, colour, xoff as int, yoff as int, stride as int, (y - yoff) * 8),
            gop.buffer_size == old(gop).buffer_size,
            gop.horizonal == old(gop).horizonal,
            gop.vertical == old(gop).vertical,
            gop.stride == old(gop).stride,
        decreases yoff + 16 - y,
    {
        let glyph = glyphs[addr];
        let mut x = xoff;
        while x < xoff + 8
            invariant
                xoff <= x <= xoff + 8,
                yoff <= y < yoff + 16,
                addr == base + (y - yoff),
                addr < glyphs@.len(),
                blen == gop.buffer@.len(),
                glyph == glyphs@[addr as int],
                stride == gop.stride,
                put_char_ok(old(gop).buffer@.len() as int, glyphs@.len() as int, chr, xoff as int, yoff as int, stride as int),
                gop.buffer@.len() == old(gop).buffer@.len(),
                gop.buffer@ == draw_glyph(old(gop).buffer@, glyphs@, base, colour, xoff as int, yoff as int, stride as int, (y - yoff) * 8 + (x - xoff)),
                gop.buffer_size == old(gop).buffer_size,
                gop.horizonal == old(gop).horizonal,
                gop.vertical == old(gop).vertical,
                gop.stride == old(gop).stride,
            decreases xoff + 8 - x,
        {
            let ghost n = (y - yoff) * 8 + (x - xoff);
            proof {
                lemma_glyph_pixel_in_range(xoff as int, yoff as int, stride as int, n, old(gop).buffer@.len() as int);
                assert(n / 8 == y - yoff);
                assert(n % 8 == x - xoff);
                assert(yoff + n / 8 == y);
                assert(y * stride <= (yoff + 15) * stride);
                assert(x + y * stride == glyph_pixel(xoff as int, yoff as int, stride as int, n));
            }
            let shift: u8 = (x - xoff) as u8;
            if (glyph & (0x80u8 >> shift)) > 0 {
                let loc = x + y * stride;
                gop.buffer.set(loc, colour);
            }
            x = x + 1;
        }
        addr = addr + 1;
        y = y + 1;
    }
}

/// The framebuffer after the scroll copy: pixel `i` takes the value of
/// pixel `i + 16 * h` for the first `h * v - h` pixels.
pub open spec fn scrolled(buf: Seq<u32>, h: int, v: int) -> Seq<u32> {
    Seq::new(buf.len(), |i: int| if i < h * v - h { buf[i + 16 * h] } else { buf[i] })
}


/// The pen after moving on to a new line when the next character would not
/// fit on this one, and after scrolling one text line (16 pixel rows) when
/// the next line would not fit: `(x, y, scrolls)`.
pub open spec fn bounds_step(x: int, y: int, h: int, v: int) -> (int, int, bool) {
    let (x1, y1) = if x + 8 > h { (0, y + 16) } else { (x, y) };
    if y1 + 16 > v { (0, y1 - 16, true) } else { (x1, y1, false) }
}

/// The bounds check can run: the pen arithmetic stays in range and a scroll
/// copy stays inside the framebuffer.
pub open spec fn bounds_ok(x: int, y: int, buf_len: int, h: int, v: int) -> bool {
    let y1 = if x + 8 > h { y + 16 } else { y };
    &&& x + 8 <= usize::MAX
    &&& y1 + 16 <= usize::MAX
    &&& y1 + 16 > v ==> {
        &&& y1 >= 16
        &&& h * v <= usize::MAX
        &&& h * v >= h
        &&& (h * v - h) * 4 <= usize::MAX
        &&& 64 * h <= isize::MAX
        &&& 16 * h + (h * v - h) <= buf_len
    }
}

/// Writing one character: a newline moves the pen to the start of the next
/// text line, any other character is drawn and the pen moves 8 pixels on;
/// then the bounds are checked.
pub open spec fn write_char_ok(w_x: int, w_y: int, buf_len: int, glyph_len: int, h: int, v: int, stride: int, chr: char) -> bool {
    if chr == '\n' {
        w_y + 16 <= usize::MAX && bounds_ok(0, w_y + 16, buf_len, h, v)
    } else {
        put_char_ok(buf_len, glyph_len, chr, w_x, w_y, stride) && bounds_ok(w_x + 8, w_y, buf_len, h, v)
    }
}

/// The part of the console that writing changes: the pen position and the
/// framebuffer's pixels.
pub struct PenState {
    pub x: int,
    pub y: int,
    pub buf: Seq<u32>,
}

/// Writing character `chr` with pen `p`: a newline moves the pen to the
/// start of the next text line; any other character is drawn (see
/// `draw_glyph`) and the pen moves 8 pixels on; then the pen moves to a new
/// line, and the screen scrolls, as `bounds_step` says.
pub open spec fn char_step(p: PenState, glyphs: Seq<u8>, colour: u32, h: int, v: int, stride: int, chr: char) -> PenState {
    let drawn = if chr == '\n' {
        p.buf
    } else {
        draw_glyph(p.buf, glyphs, (chr as u32) * 16, colour, p.x, p.y, stride, 128)
    };
    let (x0, y0) = if chr == '\n' { (0, p.y + 16) } else { (p.x + 8, p.y) };
    let (x, y, scrolls) = bounds_step(x0, y0, h, v);
    PenState { x, y, buf: if scrolls { scrolled(drawn, h, v) } else { drawn } }
}

/// Writing the characters `text` one after the other.
pub open spec fn text_step(p: PenState, glyphs: Seq<u8>, colour: u32, h: int, v: int, stride: int, text: Seq<char>) -> PenState
    decreases text.len(),
{
    if text.len() == 0 {
        p
    } else {
        text_step(char_step(p, glyphs, colour, h, v, stride, text[0]), glyphs, colour, h, v, stride, text.drop_first())
    }
}

/// Every character of `text` can be written where the pen is when its turn
/// comes (see `write_char_ok`).
pub open spec fn text_ok(p: PenState, glyphs: Seq<u8>, colour: u32, h: int, v: int, stride: int, text: Seq<char>) -> bool
    decreases text.len(),
{
    text.len() == 0 || {
        &&& write_char_ok(p.x, p.y, p.buf.len() as int, glyphs.len() as int, h, v, stride, text[0])
        &&& text_ok(char_step(p, glyphs, colour, h, v, stride, text[0]), glyphs, colour, h, v, stride, text.drop_first())
    }
}

/// Whether `bounds_ok` holds, computed without overflow.
fn bounds_fit(x: u128, y: u128, buf_len: u128, h: u128, v: u128) -> (ok: bool)
    requires
        x <= 0x1_0000_0000_0000_0010u128,
        y <= 0x1_0000_0000_0000_0010u128,
        h < 0x1_0000_0000_0000_0000u128,
        v < 0x1_0000_0000_0000_0000u128,
    ensures
        ok == bounds_ok(x as int, y as int, buf_len as int, h as int, v as int),
{
    let y1 = if x + 8 > h {
        y + 16
    } else {
        y
    };
    if x + 8 > usize::MAX as u128 || y1 + 16 > usize::MAX as u128 {
        return false;
    }
    if y1 + 16 <= v {
        return true;
    }
    proof {
        assert(h * v < 0x1_0000_0000_0000_0000u128 * 0x1_0000_0000_0000_0000u128) by (nonlinear_arith)
            requires
                h < 0x1_0000_0000_0000_0000u128,
                v < 0x1_0000_0000_0000_0000u128,
        ;
    }
    let area = h * v;
    if y1 < 16 || area > usize::MAX as u128 || area < h {
        return false;
    }
    (area - h) * 4 <= usize::MAX as u128 && 64 * h <= isize::MAX as u128 && 16 * h + (area - h) <= buf_len
}

impl Writer {
    /// The pen position and the pixels.
    pub open spec fn pen(&self) -> PenState {
        PenState { x: self.pos.x as int, y: self.pos.y as int, buf: self.gop.buffer@ }
    }
}

impl Writer {
    /// Replaces the framebuffer and the font.
    pub fn set_gop(&mut self, gop: Gop, font: PSF1Font)
        ensures
            final(self).pos == old(self).pos,
            final(self).colour == old(self).colour,
            final(self).gop.buffer@ == gop.buffer@,
            final(self).gop.buffer_size == gop.buffer_size,
            final(self).gop.horizonal == gop.horizonal,
            final(self).gop.vertical == gop.vertical,
            final(self).gop.stride == gop.stride,
            final(self).font.psf1_header == font.psf1_header,
            final(self).font.glyph_buffer@ == font.glyph_buffer@,
    {
        self.gop = gop;
        self.font = font;
    }

    /// Sets the drawing colour.
    pub fn set_colour(&mut self, colour: u32)
        ensures
            final(self).colour == colour,
            final(self).pos == old(self).pos,
            final(self).gop.buffer@ == old(self).gop.buffer@,
            final(self).gop.horizonal == old(self).gop.horizonal,
            final(self).gop.vertical == old(self).gop.vertical,
            final(self).gop.stride == old(self).gop.stride,
            final(self).font.glyph_buffer@ == old(self).font.glyph_buffer@,
    {
        self.colour = colour;
    }

    /// Moves to a new line when the next character would not fit, and
    /// scrolls one text line up when the next line would not fit (see
    /// `bounds_step`).
    fn check_bounds(&mut self)
        requires
            bounds_ok(old(self).pos.x as int, old(self).pos.y as int, old(self).gop.buffer@.len() as int, old(self).gop.horizonal as int, old(self).gop.vertical as int),
        ensures
            ({
                let (x, y, scrolls) = bounds_step(old(self).pos.x as int, old(self).pos.y as int, old(self).gop.horizonal as int, old(self).gop.vertical as int);
                &&& final(self).pos.x == x
                &&& final(self).pos.y == y
                &&& final(self).gop.buffer@ == if scrolls {
                    scrolled(old(self).gop.buffer@, old(self).gop.horizonal as int, old(self).gop.vertical as int)
                } else {
                    old(self).gop.buffer@
                }
            }),
            final(self).colour == old(self).colour,
            final(self).gop.buffer_size == old(self).gop.buffer_size,
            final(self).gop.horizonal == old(self).gop.horizonal,
            final(self).gop.vertical == old(self).gop.vertical,
            final(self).gop.stride == old(self).gop.stride,
            final(self).font.glyph_buffer@ == old(self).font.glyph_buffer@,
    {
        let h = self.gop.horizonal;
        let v = self.gop.vertical;
        if self.pos.x + 8 > h {
            self.pos.x = 0;
            self.pos.y = self.pos.y + 16;
        }
        if self.pos.y + 16 > v {
            let start_offset = 16 * h;
            let count = (h * v) - h;
            let ghost orig = self.gop.buffer@;
            let blen = self.gop.buffer.len();
            let ghost pos = self.pos;
            let mut i: usize = 0;
            while i < count
                invariant
                    i <= count,
                    blen == self.gop.buffer@.len(),
                    self.pos == pos,
                    count == h * v - h,
                    start_offset == 16 * h,
                    start_offset + count <= orig.len(),
                    self.gop.buffer@.len() == orig.len(),
                    forall|j: int| 0 <= j < i ==> self.gop.buffer@[j] == orig[j + 16 * h],
                    forall|j: int| i <= j < orig.len() ==> self.gop.buffer@[j] == orig[j],
                    self.gop.horizonal == h,
                    self.gop.vertical == v,
                    self.gop.stride == old(self).gop.stride,
                    self.gop.buffer_size == old(self).gop.buffer_size,
                    self.colour == old(self).colour,
                    self.font.glyph_buffer@ == old(self).font.glyph_buffer@,
                    orig == old(self).gop.buffer@,
                decreases count - i,
            {
                let p = self.gop.buffer[i + start_offset];
                self.gop.buffer.set(i, p);
                i = i + 1;
            }
            assert(self.gop.buffer@ =~= scrolled(orig, h as int, v as int));
            self.pos.y = self.pos.y - 16;
            self.pos.x = 0;
        }
    }

    /// Writes one character (see `write_char_ok`).
    pub fn write_byte(&mut self, chr: char)
        requires
            write_char_ok(old(self).pos.x as int, old(self).pos.y as int, old(self).gop.buffer@.len() as int, old(self).font.glyph_buffer@.len() as int, old(self).gop.horizonal as int, old(self).gop.vertical as int, old(self).gop.stride as int, chr),
        ensures
            final(self).pen() == char_step(old(self).pen(), old(self).font.glyph_buffer@, old(self).colour, old(self).gop.horizonal as int, old(self).gop.vertical as int, old(self).gop.stride as int, chr),
            final(self).colour == old(self).colour,
            final(self).gop.buffer_size == old(self).gop.buffer_size,
            final(self).gop.horizonal == old(self).gop.horizonal,
            final(self).gop.vertical == old(self).gop.vertical,
            final(self).gop.stride == old(self).gop.stride,
            final(self).font.glyph_buffer@ == old(self).font.glyph_buffer@,
    {
        if chr == '\n' {
            self.pos.x = 0;
            self.pos.y = self.pos.y + 16;
        } else {
            let x = self.pos.x;
            let y = self.pos.y;
            put_char(&mut self.gop, &self.font.glyph_buffer, self.colour, chr, x, y);
            proof {
                lemma_draw_glyph_len(old(self).gop.buffer@, old(self).font.glyph_buffer@, (chr as u32) * 16, old(self).colour, x as int, y as int, old(self).gop.stride as int, 128);
            }
            self.pos.x = x + 8;
        }
        self.check_bounds();
    }

    /// Whether `write_byte` can write `chr` now (see `write_char_ok`); a
    /// caller checks this before each character.
    pub fn can_write_byte(&self, chr: char) -> (ok: bool)
        ensures
            ok == write_char_ok(self.pos.x as int, self.pos.y as int, self.gop.buffer@.len() as int, self.font.glyph_buffer@.len() as int, self.gop.horizonal as int, self.gop.vertical as int, self.gop.stride as int, chr),
    {
        let x = self.pos.x as u128;
        let y = self.pos.y as u128;
        let len = self.gop.buffer.len() as u128;
        let glyphs = self.font.glyph_buffer.len() as u128;
        let h = self.gop.horizonal as u128;
        let v = self.gop.vertical as u128;
        let stride = self.gop.stride as u128;
        if chr == '\n' {
            y + 16 <= usize::MAX as u128 && bounds_fit(0, y + 16, len, h, v)
        } else {
            let c = chr as u32 as u128;
            if c * 16 + 16 > glyphs || x + 8 > usize::MAX as u128 || y + 16 > usize::MAX as u128 {
                return false;
            }
            proof {
                assert((y + 15) * stride < 0x1_0000_0000_0000_0000u128 * 0x1_0000_0000_0000_0000u128) by (nonlinear_arith)
                    requires
                        y + 15 < 0x1_0000_0000_0000_0000u128,
                        stride < 0x1_0000_0000_0000_0000u128,
                ;
            }
            let reach = (y + 15) * stride;
            reach <= usize::MAX as u128 && (x + 7) + reach < len && bounds_fit(x + 8, y, len, h, v)
        }
    }

    /// Writes the characters of `text` one after the other (see `text_step`).
    pub fn write_string(&mut self, text: &str)
        requires
            text_ok(old(self).pen(), old(self).font.glyph_buffer@, old(self).colour, old(self).gop.horizonal as int, old(self).gop.vertical as int, old(self).gop.stride as int, text@),
        ensures
            final(self).pen() == text_step(old(self).pen(), old(self).font.glyph_buffer@, old(self).colour, old(self).gop.horizonal as int, old(self).gop.vertical as int, old(self).gop.stride as int, text@),
            final(self).colour == old(self).colour,
            final(self).gop.buffer_size == old(self).gop.buffer_size,
            final(self).gop.horizonal == old(self).gop.horizonal,
            final(self).gop.vertical == old(self).gop.vertical,
            final(self).gop.stride == old(self).gop.stride,
            final(self).font.glyph_buffer@ == old(self).font.glyph_buffer@,
    {
        broadcast use vstd::string::axiom_spec_iter;
        let ghost glyphs = self.font.glyph_buffer@;
        let ghost colour = self.colour;
        let ghost h = self.gop.horizonal as int;
        let ghost v = self.gop.vertical as int;
        let ghost stride = self.gop.stride as int;
        let ghost goal = text_step(self.pen(), glyphs, colour, h, v, stride, text@);
        assert(text@.subrange(0, text@.len() as int) =~= text@);
        for chr in it: text.chars()
            invariant
                it.seq() == text@,
                text_ok(self.pen(), glyphs, colour, h, v, stride, text@.subrange(it.index(), text@.len() as int)),
                text_step(self.pen(), glyphs, colour, h, v, stride, text@.subrange(it.index(), text@.len() as int)) == goal,
                self.font.glyph_buffer@ == glyphs,
                self.colour == colour,
                self.gop.horizonal == h,
                self.gop.vertical == v,
                self.gop.stride == stride,
                self.gop.buffer_size == old(self).gop.buffer_size,
        {
            let ghost rest = text@.subrange(it.index(), text@.len() as int);
            assert(rest[0] == chr);
            assert(rest.drop_first() =~= text@.subrange(it.index() + 1, text@.len() as int));
            self.write_byte(chr);
        }
    }
}

} // verus!

verus! {

/// A newline puts the pen at the start of a line, whatever column it was
/// in: `x` becomes 0. On a screen at least one character wide, the pen
/// moves down one text line (16 pixel rows) and nothing is drawn when the
/// next line fits below; when it does not, the screen scrolls and the pen
/// stays on the same row, now the last line.
pub proof fn law_newline_returns_to_line_start(
    p: PenState,
    glyphs: Seq<u8>,
    colour: u32,
    h: int,
    v: int,
    stride: int,
)
    ensures
        char_step(p, glyphs, colour, h, v, stride, '\n').x == 0,
        h >= 8 && p.y + 32 <= v ==> char_step(p, glyphs, colour, h, v, stride, '\n').y == p.y + 16
            && char_step(p, glyphs, colour, h, v, stride, '\n').buf == p.buf,
        h >= 8 && p.y + 32 > v ==> char_step(p, glyphs, colour, h, v, stride, '\n').y == p.y,
{
}

/// Any other character moves the pen one character cell (8 pixels) to the
/// right on the same row when the cell after it still fits on the line and
/// the line fits on the screen; when the cell after it does not fit, the pen
/// goes to the start of a line (the next one, or the same row after a
/// scroll).
pub proof fn law_character_advances_pen(
    p: PenState,
    glyphs: Seq<u8>,
    colour: u32,
    h: int,
    v: int,
    stride: int,
    chr: char,
)
    requires
        chr != '\n',
    ensures
        p.x + 16 <= h && p.y + 16 <= v ==> char_step(p, glyphs, colour, h, v, stride, chr).x == p.x + 8
            && char_step(p, glyphs, colour, h, v, stride, chr).y == p.y,
        p.x + 16 > h ==> char_step(p, glyphs, colour, h, v, stride, chr).x == 0,
        p.x + 16 > h && p.y + 32 <= v ==> char_step(p, glyphs, colour, h, v, stride, chr).y == p.y + 16,
{
}


proof fn lemma_glyph_pixel_distinct(xoff: int, yoff: int, stride: int, m1: int, m2: int)
    requires
        0 <= m1 < 128,
        0 <= m2 < 128,
        m1 != m2,
        stride >= 8,
    ensures
        glyph_pixel(xoff, yoff, stride, m1) != glyph_pixel(xoff, yoff, stride, m2),
{
    let r1 = m1 / 8;
    let c1 = m1 % 8;
    let r2 = m2 / 8;
    let c2 = m2 % 8;
    assert(m1 == 8 * r1 + c1 && 0 <= c1 < 8);
    assert(m2 == 8 * r2 + c2 && 0 <= c2 < 8);
    if r1 == r2 {
        assert(c1 != c2);
        assert((yoff + r1) * stride == (yoff + r2) * stride);
    } else if r1 < r2 {
        assert((yoff + r2) * stride - (yoff + r1) * stride >= stride) by (nonlinear_arith)
            requires
                r1 < r2,
                stride >= 8,
        ;
    } else {
        assert((yoff + r1) * stride - (yoff + r2) * stride >= stride) by (nonlinear_arith)
            requires
                r2 < r1,
                stride >= 8,
        ;
    }
}

proof fn lemma_draw_glyph_steps(buf: Seq<u32>, glyphs: Seq<u8>, addr: int, colour: u32, xoff: int, yoff: int, stride: int, n: int)
    requires
        0 <= n <= 128,
        stride >= 8,
        xoff >= 0,
        yoff >= 0,
        (xoff + 7) + (yoff + 15) * stride < buf.len(),
    ensures
        draw_glyph(buf, glyphs, addr, colour, xoff, yoff, stride, n).len() == buf.len(),
        forall|m: int|
            0 <= m < n && 0 <= glyph_pixel(xoff, yoff, stride, m) < buf.len() ==> #[trigger] draw_glyph(
                buf,
                glyphs,
                addr,
                colour,
                xoff,
                yoff,
                stride,
                n,
            )[glyph_pixel(xoff, yoff, stride, m)] == if glyph_bit(glyphs, addr, m) {
                colour
            } else {
                buf[glyph_pixel(xoff, yoff, stride, m)]
            },
        forall|i: int|
            0 <= i < buf.len() && (forall|m: int| 0 <= m < n ==> i != glyph_pixel(xoff, yoff, stride, m))
                ==> #[trigger] draw_glyph(buf, glyphs, addr, colour, xoff, yoff, stride, n)[i] == buf[i],
    decreases n,
{
    if n > 0 {
        lemma_draw_glyph_steps(buf, glyphs, addr, colour, xoff, yoff, stride, n - 1);
        let prev = draw_glyph(buf, glyphs, addr, colour, xoff, yoff, stride, n - 1);
        let cur = draw_glyph(buf, glyphs, addr, colour, xoff, yoff, stride, n);
        let q = glyph_pixel(xoff, yoff, stride, n - 1);
        lemma_glyph_pixel_in_range(xoff, yoff, stride, n - 1, buf.len() as int);
        assert(cur == if glyph_bit(glyphs, addr, n - 1) { prev.update(q, colour) } else { prev });
        assert forall|m: int|
            0 <= m < n && 0 <= glyph_pixel(xoff, yoff, stride, m) < buf.len() implies #[trigger] cur[glyph_pixel(
            xoff,
            yoff,
            stride,
            m,
        )] == if glyph_bit(glyphs, addr, m) {
            colour
        } else {
            buf[glyph_pixel(xoff, yoff, stride, m)]
        } by {
            if m < n - 1 {
                lemma_glyph_pixel_distinct(xoff, yoff, stride, m, n - 1);
                assert(prev[glyph_pixel(xoff, yoff, stride, m)] == if glyph_bit(glyphs, addr, m) {
                    colour
                } else {
                    buf[glyph_pixel(xoff, yoff, stride, m)]
                });
            } else {
                assert forall|k: int| 0 <= k < n - 1 implies q != glyph_pixel(xoff, yoff, stride, k) by {
                    lemma_glyph_pixel_distinct(xoff, yoff, stride, k, n - 1);
                }
                assert(prev[q] == buf[q]);
            }
        }
        assert forall|i: int|
            0 <= i < buf.len() && (forall|m: int| 0 <= m < n ==> i != glyph_pixel(xoff, yoff, stride, m)) implies #[trigger] cur[i]
            == buf[i] by {
            assert(i != q);
            assert(forall|m: int| 0 <= m < n - 1 ==> i != glyph_pixel(xoff, yoff, stride, m));
            assert(prev[i] == buf[i]);
        }
    }
}

/// The pixel in row `r` and column `c` of the character cell whose top
/// left pixel is `(xoff, yoff)`, on a framebuffer with rows `stride` pixels
/// apart.
pub open spec fn cell_pixel(xoff: int, yoff: int, stride: int, r: int, c: int) -> int {
    (xoff + c) + (yoff + r) * stride
}

/// Drawing a character paints its glyph and nothing else: on a framebuffer
/// whose rows are at least 8 pixels apart and that holds the whole cell,
/// the pixel in row `r` (0 to 15)
/// and column `c` (0 to 7) of the 8x16 cell whose top left pixel is
/// `(xoff, yoff)` takes the colour when bit `c` (from the top bit) of the
/// glyph's byte `r` is set and keeps its value when not, and every pixel
/// outside the cell keeps its value.
pub proof fn law_glyph_painted_in_its_cell(
    buf: Seq<u32>,
    glyphs: Seq<u8>,
    addr: int,
    colour: u32,
    xoff: int,
    yoff: int,
    stride: int,
)
    requires
        stride >= 8,
        xoff >= 0,
        yoff >= 0,
        (xoff + 7) + (yoff + 15) * stride < buf.len(),
    ensures
        draw_glyph(buf, glyphs, addr, colour, xoff, yoff, stride, 128).len() == buf.len(),
        forall|r: int, c: int|
            0 <= r < 16 && 0 <= c < 8 && 0 <= (xoff + c) + (yoff + r) * stride < buf.len() ==> #[trigger] draw_glyph(
                buf,
                glyphs,
                addr,
                colour,
                xoff,
                yoff,
                stride,
                128,
            )[(xoff + c) + (yoff + r) * stride] == if glyphs[addr + r] & (0x80u8 >> (c as u8)) != 0 {
                colour
            } else {
                buf[(xoff + c) + (yoff + r) * stride]
            },
        forall|i: int|
            0 <= i < buf.len() && (forall|r: int, c: int|
                0 <= r < 16 && 0 <= c < 8 ==> i != #[trigger] cell_pixel(xoff, yoff, stride, r, c)) ==> #[trigger] draw_glyph(
                buf,
                glyphs,
                addr,
                colour,
                xoff,
                yoff,
                stride,
                128,
            )[i] == buf[i],
{
    lemma_draw_glyph_steps(buf, glyphs, addr, colour, xoff, yoff, stride, 128);
    let out = draw_glyph(buf, glyphs, addr, colour, xoff, yoff, stride, 128);
    assert forall|r: int, c: int|
        0 <= r < 16 && 0 <= c < 8 && 0 <= (xoff + c) + (yoff + r) * stride < buf.len() implies #[trigger] out[(xoff
        + c) + (yoff + r) * stride] == if glyphs[addr + r] & (0x80u8 >> (c as u8)) != 0 {
        colour
    } else {
        buf[(xoff + c) + (yoff + r) * stride]
    } by {
        let m = 8 * r + c;
        assert(m / 8 == r && m % 8 == c);
        assert(glyph_pixel(xoff, yoff, stride, m) == (xoff + c) + (yoff + r) * stride);
    }
    assert forall|i: int|
        0 <= i < buf.len() && (forall|r: int, c: int|
            0 <= r < 16 && 0 <= c < 8 ==> i != #[trigger] cell_pixel(xoff, yoff, stride, r, c)) implies #[trigger] out[i] == buf[i] by {
        assert forall|m: int| 0 <= m < 128 implies i != glyph_pixel(xoff, yoff, stride, m) by {
            let r = m / 8;
            let c = m % 8;
            assert(0 <= r < 16 && 0 <= c < 8);
            assert(i != cell_pixel(xoff, yoff, stride, r, c));
        }
    }
}

} // verus!
