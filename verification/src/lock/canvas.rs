//! Drawing primitives over a frame of ARGB8888 pixels.
//!
//! A frame is a row-major sequence of 32-bit pixels. Each pixel holds four
//! 8-bit channels; channel `k` occupies bits `8k .. 8k + 8`.

use vstd::prelude::*;
use vstd::arithmetic::div_mod::{lemma_fundamental_div_mod, lemma_fundamental_div_mod_converse};

verus! {

/// Channel `k` (0 to 3) of pixel `p`.
pub open spec fn channel(p: u32, k: int) -> int {
    if k == 0 {
        p as int % 0x100
    } else if k == 1 {
        (p as int / 0x100) % 0x100
    } else if k == 2 {
        (p as int / 0x1_0000) % 0x100
    } else {
        (p as int / 0x100_0000) % 0x100
    }
}

/// One channel of the coverage blend: `alpha` parts of the foreground and
/// `255 - alpha` parts of the background, divided by 256.
pub open spec fn blend_channel(fg: int, bg: int, alpha: int) -> int {
    (fg * alpha + bg * (255 - alpha)) / 0x100
}

/// The pixel whose four channels are `c0` (lowest) to `c3` (highest).
pub open spec fn pixel_of(c0: int, c1: int, c2: int, c3: int) -> int {
    c0 + 0x100 * c1 + 0x1_0000 * c2 + 0x100_0000 * c3
}

/// The pixel that results from compositing `fg` over `bg` with coverage
/// `alpha`, channel by channel.
pub open spec fn blend(fg: u32, bg: u32, alpha: u8) -> u32 {
    pixel_of(
        blend_channel(channel(fg, 0), channel(bg, 0), alpha as int),
        blend_channel(channel(fg, 1), channel(bg, 1), alpha as int),
        blend_channel(channel(fg, 2), channel(bg, 2), alpha as int),
        blend_channel(channel(fg, 3), channel(bg, 3), alpha as int),
    ) as u32
}

proof fn lemma_blend_channel_bound(fg: int, bg: int, alpha: int)
    requires
        0 <= fg < 0x100,
        0 <= bg < 0x100,
        0 <= alpha < 0x100,
    ensures
        0 <= fg * alpha + bg * (255 - alpha) <= 255 * 255,
        0 <= blend_channel(fg, bg, alpha) < 0x100,
{
    assert(0 <= fg * alpha <= 255 * alpha) by (nonlinear_arith)
        requires
            0 <= fg <= 255,
            0 <= alpha,
    ;
    assert(0 <= bg * (255 - alpha) <= 255 * (255 - alpha)) by (nonlinear_arith)
        requires
            0 <= bg <= 255,
            0 <= 255 - alpha,
    ;
}

/// A pixel put together from four channels has these channels.
proof fn lemma_channels_of_pixel(c0: int, c1: int, c2: int, c3: int)
    requires
        0 <= c0 < 0x100,
        0 <= c1 < 0x100,
        0 <= c2 < 0x100,
        0 <= c3 < 0x100,
    ensures
        0 <= pixel_of(c0, c1, c2, c3) <= u32::MAX,
        channel(pixel_of(c0, c1, c2, c3) as u32, 0) == c0,
        channel(pixel_of(c0, c1, c2, c3) as u32, 1) == c1,
        channel(pixel_of(c0, c1, c2, c3) as u32, 2) == c2,
        channel(pixel_of(c0, c1, c2, c3) as u32, 3) == c3,
{
    let p = pixel_of(c0, c1, c2, c3);
    let above0 = c1 + 0x100 * c2 + 0x1_0000 * c3;
    let above1 = c2 + 0x100 * c3;
    lemma_fundamental_div_mod_converse(p, 0x100, above0, c0);
    lemma_fundamental_div_mod_converse(above0, 0x100, above1, c1);
    lemma_fundamental_div_mod_converse(p, 0x1_0000, above1, c0 + 0x100 * c1);
    lemma_fundamental_div_mod_converse(above1, 0x100, c3, c2);
    lemma_fundamental_div_mod_converse(p, 0x100_0000, c3, c0 + 0x100 * c1 + 0x1_0000 * c2);
    lemma_fundamental_div_mod_converse(c3, 0x100, 0, c3);
}

/// The blend works on each channel by itself: channel `k` of the result is
/// the blend of channel `k` of the colour and of the pixel.
pub proof fn blend_is_channelwise(fg: u32, bg: u32, alpha: u8, k: int)
    requires
        0 <= k < 4,
    ensures
        channel(blend(fg, bg, alpha), k) == blend_channel(
            channel(fg, k),
            channel(bg, k),
            alpha as int,
        ),
        0 <= channel(blend(fg, bg, alpha), k) < 0x100,
{
    let c0 = blend_channel(channel(fg, 0), channel(bg, 0), alpha as int);
    let c1 = blend_channel(channel(fg, 1), channel(bg, 1), alpha as int);
    let c2 = blend_channel(channel(fg, 2), channel(bg, 2), alpha as int);
    let c3 = blend_channel(channel(fg, 3), channel(bg, 3), alpha as int);
    lemma_blend_channel_bound(channel(fg, 0), channel(bg, 0), alpha as int);
    lemma_blend_channel_bound(channel(fg, 1), channel(bg, 1), alpha as int);
    lemma_blend_channel_bound(channel(fg, 2), channel(bg, 2), alpha as int);
    lemma_blend_channel_bound(channel(fg, 3), channel(bg, 3), alpha as int);
    lemma_channels_of_pixel(c0, c1, c2, c3);
}

/// Blends one channel, given already shifted down to its low eight bits.
fn blend_byte(fg: u32, bg: u32, alpha: u32) -> (out: u32)
    requires
        fg < 0x100,
        bg < 0x100,
        alpha < 0x100,
    ensures
        out == blend_channel(fg as int, bg as int, alpha as int),
        out < 0x100,
{
    proof {
        lemma_blend_channel_bound(fg as int, bg as int, alpha as int);
    }
    let sum: u32 = fg * alpha + bg * (255 - alpha);
    assert(sum >> 8 == sum / 0x100) by (bit_vector);
    sum >> 8
}

/// Composites the colour `fg` over the pixel `bg` with coverage `alpha`.
pub fn blend_pixel(fg: u32, bg: u32, alpha: u8) -> (out: u32)
    ensures
        out == blend(fg, bg, alpha),
{
    let a: u32 = alpha as u32;
    assert(fg & 0xff == fg % 0x100 && (fg >> 8) & 0xff == (fg / 0x100) % 0x100 && (fg >> 16) & 0xff
        == (fg / 0x1_0000) % 0x100 && (fg >> 24) & 0xff == (fg / 0x100_0000) % 0x100)
        by (bit_vector);
    assert(bg & 0xff == bg % 0x100 && (bg >> 8) & 0xff == (bg / 0x100) % 0x100 && (bg >> 16) & 0xff
        == (bg / 0x1_0000) % 0x100 && (bg >> 24) & 0xff == (bg / 0x100_0000) % 0x100)
        by (bit_vector);
    let c0: u32 = blend_byte(fg & 0xff, bg & 0xff, a);
    let c1: u32 = blend_byte((fg >> 8) & 0xff, (bg >> 8) & 0xff, a);
    let c2: u32 = blend_byte((fg >> 16) & 0xff, (bg >> 16) & 0xff, a);
    let c3: u32 = blend_byte((fg >> 24) & 0xff, (bg >> 24) & 0xff, a);
    c0 + c1 * 0x100 + c2 * 0x1_0000 + c3 * 0x100_0000
}

/// Whether column `x`, row `y` lies in the rectangle from `from` (inclusive)
/// to `to` (exclusive).
pub open spec fn in_rect(x: int, y: int, from: (int, int), to: (int, int)) -> bool {
    from.0 <= x < to.0 && from.1 <= y < to.1
}

/// A frame of `len` pixels, all of one colour.
pub open spec fn filled(len: nat, color: u32) -> Seq<u32> {
    Seq::new(len, |i: int| color)
}

/// The frame `pixels`, `width` pixels wide, with the rectangle from `from`
/// to `to` overwritten by `color`. Parts of the rectangle outside the frame
/// have no pixel to change.
pub open spec fn with_rect(
    pixels: Seq<u32>,
    width: int,
    from: (int, int),
    to: (int, int),
    color: u32,
) -> Seq<u32> {
    Seq::new(
        pixels.len(),
        |i: int|
            if in_rect(i % width, i / width, from, to) {
                color
            } else {
                pixels[i]
            },
    )
}

/// The frame `pixels`, `width` pixels wide, after the coverage mask `bitmap`
/// of size `dims`, placed with its top left corner at `pos`, has composited
/// `color` onto it.
pub open spec fn with_bitmap(
    pixels: Seq<u32>,
    width: int,
    bitmap: Seq<u8>,
    dims: (int, int),
    pos: (int, int),
    color: u32,
) -> Seq<u32> {
    Seq::new(
        pixels.len(),
        |i: int|
            if in_rect(i % width, i / width, pos, (pos.0 + dims.0, pos.1 + dims.1)) {
                blend(
                    color,
                    pixels[i],
                    bitmap[(i / width - pos.1) * dims.0 + (i % width - pos.0)],
                )
            } else {
                pixels[i]
            },
    )
}

/// A rasterised glyph with its place on the frame.
pub struct Glyph {
    /// Column of the left edge.
    pub x: usize,
    /// Row of the top edge.
    pub y: usize,
    /// Width of the coverage mask in pixels.
    pub width: usize,
    /// Height of the coverage mask in pixels.
    pub height: usize,
    /// Coverage, row by row from the top left corner, one byte per pixel.
    pub coverage: Vec<u8>,
    /// The glyph stands for a control character.
    pub control: bool,
    /// The glyph stands for white space.
    pub whitespace: bool,
}

impl Glyph {
    /// Tells whether the glyph is to be composited onto a frame of `width`
    /// by `height` pixels.
    pub fn fits(&self, width: usize, height: usize) -> (yes: bool)
        ensures
            yes == self.drawn(width as int, height as int),
    {
        if self.control || self.whitespace {
            return false;
        }
        let inside = match (self.x.checked_add(self.width), self.y.checked_add(self.height)) {
            (Some(right), Some(bottom)) => right <= width && bottom <= height,
            _ => false,
        };
        let held = self.coverage.len();
        let complete = match self.width.checked_mul(self.height) {
            Some(area) => held >= area,
            None => false,
        };
        inside && complete
    }

    /// Whether the glyph reaches a frame of `width` by `height` pixels: it
    /// is neither a control character nor white space, its mask is complete
    /// and lies within the frame.
    pub open spec fn drawn(self, width: int, height: int) -> bool {
        &&& !self.control
        &&& !self.whitespace
        &&& self.x + self.width <= width
        &&& self.y + self.height <= height
        &&& self.coverage@.len() >= self.width * self.height
    }
}

/// The frame after the glyphs have been composited onto it in order, each
/// glyph that is not `drawn` being passed over.
pub open spec fn with_glyphs(
    pixels: Seq<u32>,
    width: int,
    height: int,
    glyphs: Seq<Glyph>,
    color: u32,
) -> Seq<u32>
    decreases glyphs.len(),
{
    if glyphs.len() == 0 {
        pixels
    } else {
        let before = with_glyphs(pixels, width, height, glyphs.drop_last(), color);
        let g = glyphs.last();
        if g.drawn(width, height) {
            with_bitmap(
                before,
                width,
                g.coverage@,
                (g.width as int, g.height as int),
                (g.x as int, g.y as int),
                color,
            )
        } else {
            before
        }
    }
}

/// Index `i` of a row-major frame is column `x` of row `y` exactly when its
/// quotient and remainder by the width are `y` and `x`.
proof fn lemma_cell(i: int, width: int, x: int, y: int)
    requires
        0 < width,
        0 <= x < width,
    ensures
        i == y * width + x <==> (i / width == y && i % width == x),
{
    if i == y * width + x {
        lemma_fundamental_div_mod_converse(i, width, y, x);
    }
    if i / width == y && i % width == x {
        lemma_fundamental_div_mod(i, width);
        assert(width * y == y * width) by (nonlinear_arith);
    }
}

/// Column `x` of row `y` has an index below `width * height`.
proof fn lemma_cell_bound(width: int, height: int, x: int, y: int)
    requires
        0 <= x < width,
        0 <= y < height,
    ensures
        0 <= y * width,
        y * width + x < width * height,
{
    assert(0 <= y * width && (y + 1) * width <= height * width) by (nonlinear_arith)
        requires
            0 <= y,
            y + 1 <= height,
            0 < width,
    ;
    assert((y + 1) * width == y * width + width) by (nonlinear_arith);
    assert(height * width == width * height) by (nonlinear_arith);
}

/// A frame of pixels with the colour that the next operation draws in.
pub struct Canvas {
    pixels: Vec<u32>,
    width: usize,
    height: usize,
    color: u32,
}

impl View for Canvas {
    type V = Seq<u32>;

    /// The pixels, row by row from the top left corner.
    closed spec fn view(&self) -> Seq<u32> {
        self.pixels@
    }
}

impl Canvas {
    /// Width in pixels.
    pub closed spec fn spec_width(&self) -> int {
        self.width as int
    }

    /// Height in pixels.
    pub closed spec fn spec_height(&self) -> int {
        self.height as int
    }

    /// The colour of the next fill, rectangle or glyph.
    pub closed spec fn spec_color(&self) -> u32 {
        self.color
    }

    /// The frame holds exactly `width * height` pixels.
    pub open spec fn wf(&self) -> bool {
        self@.len() == self.spec_width() * self.spec_height()
    }

    /// A canvas over the given pixels, or `None` where their number is not
    /// `width * height`.
    pub fn new(pixels: Vec<u32>, width: usize, height: usize, color: u32) -> (out: Option<Canvas>)
        ensures
            out is Some <==> pixels@.len() == width * height,
            out matches Some(c) ==> c.wf() && c@ == pixels@ && c.spec_width() == width
                && c.spec_height() == height && c.spec_color() == color,
    {
        let held = pixels.len();
        match width.checked_mul(height) {
            Some(len) => {
                if held == len {
                    Some(Canvas { pixels, width, height, color })
                } else {
                    None
                }
            },
            None => None,
        }
    }

    /// Gives the pixels back.
    pub fn into_pixels(self) -> (out: Vec<u32>)
        ensures
            out@ == self@,
    {
        self.pixels
    }

    /// Width in pixels.
    pub fn width(&self) -> (w: usize)
        ensures
            w == self.spec_width(),
    {
        self.width
    }

    /// Height in pixels.
    pub fn height(&self) -> (h: usize)
        ensures
            h == self.spec_height(),
    {
        self.height
    }

    /// The colour of the next fill, rectangle or glyph.
    pub fn color(&self) -> (c: u32)
        ensures
            c == self.spec_color(),
    {
        self.color
    }

    /// Chooses the colour of the next fill, rectangle or glyph.
    pub fn set_color(&mut self, color: u32)
        ensures
            final(self).spec_color() == color,
            final(self)@ == old(self)@,
            final(self).spec_width() == old(self).spec_width(),
            final(self).spec_height() == old(self).spec_height(),
    {
        self.color = color;
    }

    /// Overwrites every pixel with the current colour.
    pub fn fill(&mut self)
        requires
            old(self).wf(),
        ensures
            final(self).wf(),
            final(self)@ == filled(old(self)@.len(), old(self).spec_color()),
            final(self).spec_width() == old(self).spec_width(),
            final(self).spec_height() == old(self).spec_height(),
            final(self).spec_color() == old(self).spec_color(),
    {
        let len = self.pixels.len();
        let color = self.color;
        let mut i: usize = 0;
        while i < len
            invariant
                i <= len,
                len == self.pixels@.len(),
                self.width == old(self).width,
                self.height == old(self).height,
                self.color == color,
                forall|j: int| 0 <= j < i ==> self.pixels@[j] == color,
            decreases len - i,
        {
            self.pixels.set(i, color);
            i += 1;
        }
        assert(self.pixels@ =~= filled(old(self)@.len(), color));
    }

    /// Overwrites the rectangle from `from` (inclusive) to `to` (exclusive)
    /// with the current colour. What lies outside the frame is left out.
    pub fn draw_square(&mut self, from: (usize, usize), to: (usize, usize))
        requires
            old(self).wf(),
        ensures
            final(self).wf(),
            final(self)@ == with_rect(
                old(self)@,
                old(self).spec_width(),
                (from.0 as int, from.1 as int),
                (to.0 as int, to.1 as int),
                old(self).spec_color(),
            ),
            final(self).spec_width() == old(self).spec_width(),
            final(self).spec_height() == old(self).spec_height(),
            final(self).spec_color() == old(self).spec_color(),
    {
        let width = self.width;
        let height = self.height;
        let color = self.color;
        let ghost before = self.pixels@;
        let ghost lo = (from.0 as int, from.1 as int);
        assert(width * height == self.pixels.len());
        let x_end = if to.0 < width { to.0 } else { width };
        let y_end = if to.1 < height { to.1 } else { height };
        let mut y = from.1;
        while y < y_end
            invariant
                from.1 <= y,
                y <= y_end || y == from.1,
                y_end <= height,
                y_end <= to.1,
                y_end == to.1 || y_end == height,
                x_end <= width,
                x_end <= to.0,
                x_end == to.0 || x_end == width,
                self.width == width,
                self.height == height,
                self.color == color,
                self.pixels@.len() == before.len(),
                before.len() == width * height <= usize::MAX,
                lo == (from.0 as int, from.1 as int),
                forall|i: int|
                    0 <= i < before.len() ==> self.pixels@[i] == if in_rect(
                        i % (width as int),
                        i / (width as int),
                        lo,
                        (to.0 as int, y as int),
                    ) {
                        color
                    } else {
                        before[i]
                    },
            decreases y_end - y,
        {
            let mut x = from.0;
            while x < x_end
                invariant
                    from.0 <= x,
                    x <= x_end || x == from.0,
                    from.1 <= y < y_end,
                    y_end <= height,
                    x_end <= width,
                    x_end <= to.0,
                    x_end == to.0 || x_end == width,
                    self.width == width,
                    self.height == height,
                    self.color == color,
                    self.pixels@.len() == before.len(),
                    before.len() == width * height <= usize::MAX,
                    lo == (from.0 as int, from.1 as int),
                    forall|i: int|
                        0 <= i < before.len() ==> self.pixels@[i] == if in_rect(
                            i % (width as int),
                            i / (width as int),
                            lo,
                            (to.0 as int, y as int),
                        ) || (i / (width as int) == y && from.0 <= i % (width as int) < x) {
                            color
                        } else {
                            before[i]
                        },
                decreases x_end - x,
            {
                proof {
                    lemma_cell_bound(width as int, height as int, x as int, y as int);
                }
                let at = y * width + x;
                let ghost prev = self.pixels@;
                self.pixels.set(at, color);
                assert forall|i: int| 0 <= i < before.len() implies self.pixels@[i] == if in_rect(
                    i % (width as int),
                    i / (width as int),
                    lo,
                    (to.0 as int, y as int),
                ) || (i / (width as int) == y && from.0 <= i % (width as int) < x + 1) {
                    color
                } else {
                    before[i]
                } by {
                    lemma_cell(i, width as int, x as int, y as int);
                }
                x += 1;
            }
            assert forall|i: int| 0 <= i < before.len() implies self.pixels@[i] == if in_rect(
                i % (width as int),
                i / (width as int),
                lo,
                (to.0 as int, y + 1),
            ) {
                color
            } else {
                before[i]
            } by {
                lemma_row_bound(i, width as int, height as int);
            }
            y += 1;
        }
        assert forall|i: int| 0 <= i < before.len() implies self.pixels@[i] == with_rect(
            before,
            width as int,
            lo,
            (to.0 as int, to.1 as int),
            color,
        )[i] by {
            lemma_row_bound(i, width as int, height as int);
        }
        assert(self.pixels@ =~= with_rect(
            before,
            width as int,
            lo,
            (to.0 as int, to.1 as int),
            color,
        ));
    }

    /// Composites the current colour onto the frame through the coverage
    /// mask `bitmap`, which is `dimensions.0` pixels wide and `dimensions.1`
    /// high and is placed with its top left corner at `position`. Each
    /// channel of a covered pixel becomes
    /// `(colour * alpha + pixel * (255 - alpha)) >> 8`.
    pub fn draw_bitmap(
        &mut self,
        bitmap: &[u8],
        dimensions: (usize, usize),
        position: (usize, usize),
    )
        requires
            old(self).wf(),
            position.0 + dimensions.0 <= old(self).spec_width(),
            position.1 + dimensions.1 <= old(self).spec_height(),
            bitmap@.len() >= dimensions.0 * dimensions.1,
        ensures
            final(self).wf(),
            final(self)@ == with_bitmap(
                old(self)@,
                old(self).spec_width(),
                bitmap@,
                (dimensions.0 as int, dimensions.1 as int),
                (position.0 as int, position.1 as int),
                old(self).spec_color(),
            ),
            final(self).spec_width() == old(self).spec_width(),
            final(self).spec_height() == old(self).spec_height(),
            final(self).spec_color() == old(self).spec_color(),
    {
        let (x_pos, y_pos) = position;
        let (x_dim, y_dim) = dimensions;
        let width = self.width;
        let height = self.height;
        let color = self.color;
        let ghost before = self.pixels@;
        let ghost pos = (x_pos as int, y_pos as int);
        assert(width * height == self.pixels.len());
        assert(bitmap.len() <= usize::MAX);
        let mut row: usize = 0;
        while row < y_dim
            invariant
                row <= y_dim,
                x_pos + x_dim <= width,
                y_pos + y_dim <= height,
                x_dim * y_dim <= bitmap@.len() <= usize::MAX,
                self.width == width,
                self.height == height,
                self.color == color,
                self.pixels@.len() == before.len(),
                before.len() == width * height <= usize::MAX,
                pos == (x_pos as int, y_pos as int),
                forall|i: int|
                    0 <= i < before.len() ==> self.pixels@[i] == if in_rect(
                        i % (width as int),
                        i / (width as int),
                        pos,
                        (x_pos + x_dim, y_pos + row),
                    ) {
                        blend(
                            color,
                            before[i],
                            bitmap@[(i / (width as int) - y_pos) * x_dim + (i % (width as int)
                                - x_pos)],
                        )
                    } else {
                        before[i]
                    },
            decreases y_dim - row,
        {
            let mut col: usize = 0;
            while col < x_dim
                invariant
                    col <= x_dim,
                    row < y_dim,
                    x_pos + x_dim <= width,
                    y_pos + y_dim <= height,
                    x_dim * y_dim <= bitmap@.len() <= usize::MAX,
                    self.width == width,
                    self.height == height,
                    self.color == color,
                    self.pixels@.len() == before.len(),
                    before.len() == width * height <= usize::MAX,
                    pos == (x_pos as int, y_pos as int),
                    forall|i: int|
                        0 <= i < before.len() ==> self.pixels@[i] == if in_rect(
                            i % (width as int),
                            i / (width as int),
                            pos,
                            (x_pos + x_dim, y_pos + row),
                        ) || (i / (width as int) == y_pos + row && x_pos <= i % (width as int)
                            < x_pos + col) {
                            blend(
                                color,
                                before[i],
                                bitmap@[(i / (width as int) - y_pos) * x_dim + (i % (
                                width as int) - x_pos)],
                            )
                        } else {
                            before[i]
                        },
                decreases x_dim - col,
            {
                proof {
                    lemma_cell_bound(
                        width as int,
                        height as int,
                        x_pos + col,
                        y_pos + row,
                    );
                    lemma_cell_bound(x_dim as int, y_dim as int, col as int, row as int);
                    lemma_cell(
                        (y_pos + row) * width + x_pos + col,
                        width as int,
                        x_pos + col,
                        y_pos + row,
                    );
                }
                let at = (y_pos + row) * width + x_pos + col;
                let alpha = bitmap[row * x_dim + col];
                let mixed = blend_pixel(color, self.pixels[at], alpha);
                self.pixels.set(at, mixed);
                assert forall|i: int| 0 <= i < before.len() implies self.pixels@[i] == if in_rect(
                    i % (width as int),
                    i / (width as int),
                    pos,
                    (x_pos + x_dim, y_pos + row),
                ) || (i / (width as int) == y_pos + row && x_pos <= i % (width as int) < x_pos
                    + col + 1) {
                    blend(
                        color,
                        before[i],
                        bitmap@[(i / (width as int) - y_pos) * x_dim + (i % (width as int)
                            - x_pos)],
                    )
                } else {
                    before[i]
                } by {
                    lemma_cell(i, width as int, x_pos + col, y_pos + row);
                }
                col += 1;
            }
            row += 1;
        }
        assert(self.pixels@ =~= with_bitmap(
            before,
            width as int,
            bitmap@,
            (x_dim as int, y_dim as int),
            pos,
            color,
        ));
    }

    /// Composites the glyphs onto the frame in the current colour, in the
    /// order given. A glyph that stands for a control character or for
    /// white space is passed over, and so is one whose mask is incomplete
    /// or does not lie within the frame.
    pub fn draw_layout(&mut self, glyphs: &Vec<Glyph>)
        requires
            old(self).wf(),
        ensures
            final(self).wf(),
            final(self)@ == with_glyphs(
                old(self)@,
                old(self).spec_width(),
                old(self).spec_height(),
                glyphs@,
                old(self).spec_color(),
            ),
            final(self).spec_width() == old(self).spec_width(),
            final(self).spec_height() == old(self).spec_height(),
            final(self).spec_color() == old(self).spec_color(),
    {
        let ghost before = self.pixels@;
        let mut n: usize = 0;
        while n < glyphs.len()
            invariant
                n <= glyphs@.len(),
                self.wf(),
                self.width == old(self).width,
                self.height == old(self).height,
                self.color == old(self).color,
                self.pixels@ == with_glyphs(
                    before,
                    self.width as int,
                    self.height as int,
                    glyphs@.take(n as int),
                    self.color,
                ),
            decreases glyphs@.len() - n,
        {
            let glyph = &glyphs[n];
            proof {
                assert(glyphs@.take(n + 1).drop_last() =~= glyphs@.take(n as int));
                assert(glyphs@.take(n + 1).last() == glyphs@[n as int]);
            }
            if glyph.fits(self.width, self.height) {
                self.draw_bitmap(
                    glyph.coverage.as_slice(),
                    (glyph.width, glyph.height),
                    (glyph.x, glyph.y),
                );
            }
            n += 1;
        }
        assert(glyphs@.take(n as int) =~= glyphs@);
    }
}

/// An index below `width * height` lies in a row below `height`.
proof fn lemma_row_bound(i: int, width: int, height: int)
    requires
        0 <= width,
        0 <= i < width * height,
    ensures
        0 < width,
        0 <= i / width < height,
        0 <= i % width < width,
{
    assert(0 * height == 0) by (nonlinear_arith);
    lemma_fundamental_div_mod(i, width);
    let q = i / width;
    if q >= height {
        assert(width * q >= width * height) by (nonlinear_arith)
            requires
                q >= height,
                width > 0,
        ;
    }
    if q < 0 {
        assert(width * q <= -width) by (nonlinear_arith)
            requires
                q <= -1,
                width > 0,
        ;
    }
}

} // verus!
