//! A linear framebuffer of 32-bit pixels.

use vstd::prelude::*;

verus! {

/// A colour, laid out in memory as blue, green, red and an unused byte.
#[derive(Copy, Clone, Debug, PartialEq, Eq, Structural)]
pub struct VBEColor {
    b: u8,
    g: u8,
    r: u8,
    a: u8,
}

impl VBEColor {
    /// The red part.
    pub closed spec fn red(&self) -> u8 {
        self.r
    }

    /// The green part.
    pub closed spec fn green(&self) -> u8 {
        self.g
    }

    /// The blue part.
    pub closed spec fn blue(&self) -> u8 {
        self.b
    }

    /// The unused fourth byte.
    pub closed spec fn alpha(&self) -> u8 {
        self.a
    }

    /// The colour with the given red, green and blue parts; the unused byte
    /// is zero.
    pub fn rgb(r: u8, g: u8, b: u8) -> (c: VBEColor)
        ensures
            c.red() == r,
            c.green() == g,
            c.blue() == b,
            c.alpha() == 0,
            r == 0 && g == 0 && b == 0 ==> c == black(),
    {
        VBEColor { r, g, b, a: 0 }
    }

    /// The pixel as the four bytes it takes in memory.
    pub fn to_bytes(&self) -> (bytes: [u8; 4])
        ensures
            bytes@ == seq![self.blue(), self.green(), self.red(), self.alpha()],
    {
        let bytes = [self.b, self.g, self.r, self.a];
        assert(bytes@ =~= seq![self.blue(), self.green(), self.red(), self.alpha()]);
        bytes
    }
}

/// Black, the colour a cleared pixel has: all four bytes are zero.
pub closed spec fn black() -> VBEColor {
    VBEColor { b: 0, g: 0, r: 0, a: 0 }
}

/// Black is the colour whose parts are all zero.
pub proof fn lemma_black(c: VBEColor)
    ensures
        c == black() <==> (c.red() == 0 && c.green() == 0 && c.blue() == 0 && c.alpha() == 0),
{
}

/// A framebuffer: `height` rows of `width` pixels, stored row after row.
pub struct Framebuffer {
    buf: Vec<VBEColor>,
    width: usize,
    height: usize,
    bpp: usize,
}

impl View for Framebuffer {
    type V = Seq<VBEColor>;

    /// The pixels, row after row.
    closed spec fn view(&self) -> Seq<VBEColor> {
        self.buf@
    }
}

impl Framebuffer {
    /// The width in pixels.
    pub closed spec fn spec_width(&self) -> int {
        self.width as int
    }

    /// The height in pixels.
    pub closed spec fn spec_height(&self) -> int {
        self.height as int
    }

    /// The number of bits that form a pixel.
    pub closed spec fn spec_bpp(&self) -> int {
        self.bpp as int
    }

    /// The buffer holds a pixel for every position of every row.
    pub open spec fn wf(&self) -> bool {
        self.spec_width() * self.spec_height() <= self@.len()
    }

    /// Takes over a mapped framebuffer of the given geometry and clears it.
    pub fn new(buf: Vec<VBEColor>, width: usize, height: usize, bpp: usize) -> (fb: Framebuffer)
        requires
            width * height <= buf@.len(),
        ensures
            fb.wf(),
            fb.spec_width() == width,
            fb.spec_height() == height,
            fb.spec_bpp() == bpp,
            fb@.len() == buf@.len(),
            forall|i: int| 0 <= i < fb@.len() ==> fb@[i] == black(),
    {
        let mut fb = Framebuffer { buf, width, height, bpp };
        fb.clear();
        fb
    }

    /// The width in pixels; the bits per pixel play no part.
    pub fn width(&self) -> (r: usize)
        ensures
            r == self.spec_width(),
    {
        self.width
    }

    /// The height in pixels; the bits per pixel play no part.
    pub fn height(&self) -> (r: usize)
        ensures
            r == self.spec_height(),
    {
        self.height
    }

    /// The number of bits that form a pixel.
    pub fn bpp(&self) -> (r: usize)
        ensures
            r == self.spec_bpp(),
    {
        self.bpp
    }

    /// The position in the buffer of the pixel in column `x` of row `y`.
    pub fn get_px_offset(&self, x: usize, y: usize) -> (offset: usize)
        requires
            self.wf(),
            x < self.spec_width(),
            y < self.spec_height(),
        ensures
            offset == y * self.spec_width() + x,
            offset < self@.len(),
    {
        proof {
            assert(0 <= y * self.width && y * self.width + x < self.width * self.height)
                by (nonlinear_arith)
                requires
                    x < self.width,
                    y < self.height,
            ;
        }
        let len: usize = self.buf.len();
        assert(y * self.width + x < len);
        y * self.width + x
    }

    /// Writes one pixel at a position in the buffer.
    pub fn write_px(&mut self, offset: usize, color: &VBEColor)
        requires
            offset < old(self)@.len(),
        ensures
            final(self)@ == old(self)@.update(offset as int, *color),
            final(self)@.len() == old(self)@.len(),
            final(self).spec_width() == old(self).spec_width(),
            final(self).spec_height() == old(self).spec_height(),
            final(self).spec_bpp() == old(self).spec_bpp(),
    {
        self.buf.set(offset, *color);
    }

    /// Writes the pixel in column `x` of row `y`.
    pub fn write_px_at(&mut self, x: usize, y: usize, color: &VBEColor)
        requires
            old(self).wf(),
            x < old(self).spec_width(),
            y < old(self).spec_height(),
        ensures
            final(self)@ == old(self)@.update(y * old(self).spec_width() + x, *color),
            final(self)@.len() == old(self)@.len(),
            y * old(self).spec_width() + x < old(self)@.len(),
            final(self).spec_width() == old(self).spec_width(),
            final(self).spec_height() == old(self).spec_height(),
            final(self).spec_bpp() == old(self).spec_bpp(),
    {
        let offset: usize = self.get_px_offset(x, y);
        self.write_px(offset, color);
    }

    /// The pixels themselves, for reading and writing.
    pub fn get_fb(&mut self) -> (fb: &mut Vec<VBEColor>)
        ensures
            fb@ == old(self)@,
            final(self)@ == final(fb)@,
            final(self).spec_width() == old(self).spec_width(),
            final(self).spec_height() == old(self).spec_height(),
            final(self).spec_bpp() == old(self).spec_bpp(),
    {
        &mut self.buf
    }

    /// Clears the whole screen: every pixel becomes black.
    pub fn clear(&mut self)
        ensures
            final(self)@.len() == old(self)@.len(),
            forall|i: int| 0 <= i < final(self)@.len() ==> final(self)@[i] == black(),
            final(self).spec_width() == old(self).spec_width(),
            final(self).spec_height() == old(self).spec_height(),
            final(self).spec_bpp() == old(self).spec_bpp(),
    {
        let mut i: usize = 0;
        while i < self.buf.len()
            invariant
                self@.len() == old(self)@.len(),
                i <= self@.len(),
                forall|k: int| 0 <= k < i ==> self@[k] == black(),
                self.spec_width() == old(self).spec_width(),
                self.spec_height() == old(self).spec_height(),
                self.spec_bpp() == old(self).spec_bpp(),
            decreases self@.len() - i,
        {
            self.buf.set(i, VBEColor::rgb(0, 0, 0));
            i = i + 1;
        }
    }

    /// Clears a rectangle of the screen: `width` columns from `x` on, in
    /// `height` rows from `y` on. Pixels outside the rectangle stay.
    pub fn clear_at(&mut self, x: usize, y: usize, width: usize, height: usize)
        requires
            old(self).wf(),
            x + width <= old(self).spec_width(),
            y + height <= old(self).spec_height(),
        ensures
            final(self)@.len() == old(self)@.len(),
            forall|col: int, row: int|
                0 <= col < old(self).spec_width() && 0 <= row < old(self).spec_height() ==> (
                #[trigger] final(self)@[row * old(self).spec_width() + col]) == (if x <= col < x
                    + width && y <= row < y + height {
                    black()
                } else {
                    old(self)@[row * old(self).spec_width() + col]
                }),
            final(self).spec_width() == old(self).spec_width(),
            final(self).spec_height() == old(self).spec_height(),
            final(self).spec_bpp() == old(self).spec_bpp(),
    {
        let ghost w: int = self.spec_width();
        let mut row: usize = y;
        while row < y + height
            invariant
                self.wf(),
                y <= row <= y + height,
                x + width <= w,
                y + height <= self.spec_height(),
                w == old(self).spec_width(),
                self@.len() == old(self)@.len(),
                self.spec_width() == old(self).spec_width(),
                self.spec_height() == old(self).spec_height(),
                self.spec_bpp() == old(self).spec_bpp(),
                forall|c: int, r: int|
                    0 <= c < w && 0 <= r < self.spec_height() ==> (#[trigger] self@[r * w + c]) == (
                    if x <= c < x + width && y <= r < row {
                        black()
                    } else {
                        old(self)@[r * w + c]
                    }),
            decreases y + height - row,
        {
            let mut col: usize = x;
            while col < x + width
                invariant
                    self.wf(),
                    y <= row < y + height,
                    x <= col <= x + width,
                    x + width <= w,
                    y + height <= self.spec_height(),
                    w == old(self).spec_width(),
                    self@.len() == old(self)@.len(),
                    self.spec_width() == old(self).spec_width(),
                    self.spec_height() == old(self).spec_height(),
                    self.spec_bpp() == old(self).spec_bpp(),
                    forall|c: int, r: int|
                        0 <= c < w && 0 <= r < self.spec_height() ==> (#[trigger] self@[r * w + c])
                            == (if x <= c < x + width && (y <= r < row || (r == row && c < col)) {
                            black()
                        } else {
                            old(self)@[r * w + c]
                        }),
                decreases x + width - col,
            {
                let ghost before = self@;
                self.write_px_at(col, row, &VBEColor::rgb(0, 0, 0));
                proof {
                    assert forall|c: int, r: int| 0 <= c < w && 0 <= r < self.spec_height() implies (
                    #[trigger] self@[r * w + c]) == (if x <= c < x + width && (y <= r < row || (r
                        == row && c < col + 1)) {
                        black()
                    } else {
                        old(self)@[r * w + c]
                    }) by {
                        lemma_offsets_differ(w, c, r, col as int, row as int);
                        assert(r * w + c < w * self.spec_height()) by (nonlinear_arith)
                            requires
                                0 <= c < w,
                                0 <= r < self.spec_height(),
                        ;
                        assert(self@[r * w + c] == if r == row && c == col {
                            black()
                        } else {
                            before[r * w + c]
                        });
                    }
                }
                col = col + 1;
            }
            row = row + 1;
        }
    }
}

/// Two positions of a grid share an offset only if they are the same.
proof fn lemma_offsets_differ(w: int, c1: int, r1: int, c2: int, r2: int)
    requires
        0 <= c1 < w,
        0 <= c2 < w,
        0 <= r1,
        0 <= r2,
    ensures
        (r1 * w + c1 == r2 * w + c2) <==> (r1 == r2 && c1 == c2),
{
    if r1 < r2 {
        assert(r1 * w + w <= r2 * w) by (nonlinear_arith)
            requires
                r1 + 1 <= r2,
                w > 0,
        ;
    } else if r2 < r1 {
        assert(r2 * w + w <= r1 * w) by (nonlinear_arith)
            requires
                r2 + 1 <= r1,
                w > 0,
        ;
    }
}

} // verus!
