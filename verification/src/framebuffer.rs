//! The pixel buffer that a frame is drawn into.

use vstd::prelude::*;
use crate::color::Color;

verus! {

/// The largest width or height of a framebuffer, in pixels.
pub const MAX_DIMENSION: usize = 16384;

/// Why a point was not painted.
#[derive(Clone, Copy, Debug, PartialEq, Eq, Structural)]
pub enum PaintPointErrors {
    XTooLarge,
    XTooSmall,
    YTooLarge,
    YTooSmall,
}

/// The place of the pixel `(x, y)` in a row-major buffer of rows `width` long.
pub open spec fn pixel_index(width: int, x: int, y: int) -> int {
    y * width + x
}

/// Inside the rectangle, a pixel's place lies inside the buffer, and two
/// pixels share a place only if they are the same pixel.
pub proof fn lemma_pixel_index(width: int, height: int, x: int, y: int, x2: int, y2: int)
    by (nonlinear_arith)
    requires
        0 <= x < width,
        0 <= y < height,
        0 <= x2 < width,
        0 <= y2 < height,
    ensures
        0 <= pixel_index(width, x, y) < width * height,
        pixel_index(width, x, y) == pixel_index(width, x2, y2) ==> x == x2 && y == y2,
{
}

/// Every place of the buffer is the place of one pixel of the rectangle.
pub proof fn lemma_pixel_of_index(width: int, height: int, k: int)
    by (nonlinear_arith)
    requires
        0 < width,
        0 <= k < width * height,
    ensures
        0 <= k % width < width,
        0 <= k / width < height,
        pixel_index(width, k % width, k / width) == k,
{
}

/// A rectangle of `0xRRGGBB` pixels, with a pen color and a saved background.
pub struct Framebuffer {
    pub width: usize,
    pub height: usize,
    pub buffer: Vec<u32>,
    pub background: Vec<u32>,
    pub current_color: Color,
}

impl Framebuffer {
    /// The buffer and the saved background hold one word per pixel, and the
    /// rectangle is not empty nor larger than `MAX_DIMENSION` either way.
    pub open spec fn wf(&self) -> bool {
        &&& 0 < self.width <= MAX_DIMENSION
        &&& 0 < self.height <= MAX_DIMENSION
        &&& self.buffer@.len() == self.width * self.height
        &&& self.background@.len() == self.width * self.height
    }

    /// Whether `(x, y)` is a pixel of this framebuffer.
    pub open spec fn contains(&self, x: int, y: int) -> bool {
        0 <= x < self.width && 0 <= y < self.height
    }

    /// The word at pixel `(x, y)`.
    pub open spec fn pixel(&self, x: int, y: int) -> u32 {
        self.buffer@[pixel_index(self.width as int, x, y)]
    }

    /// The word that `clear` would bring back at pixel `(x, y)`.
    pub open spec fn background_pixel(&self, x: int, y: int) -> u32 {
        self.background@[pixel_index(self.width as int, x, y)]
    }

    /// Same size and same saved background as `other`: the pixels and the
    /// pen may differ.
    pub open spec fn same_frame(&self, other: &Framebuffer) -> bool {
        &&& self.width == other.width
        &&& self.height == other.height
        &&& self.background@ == other.background@
        &&& self.buffer@.len() == other.buffer@.len()
    }

    /// Tells whether the framebuffer is well formed.
    pub fn is_well_formed(&self) -> (valid: bool)
        ensures
            valid == self.wf(),
    {
        if self.width == 0 || self.width > MAX_DIMENSION || self.height == 0 || self.height
            > MAX_DIMENSION {
            return false;
        }
        assert(self.width * self.height <= 16384 * 16384) by (nonlinear_arith)
            requires
                0 < self.width <= 16384,
                0 < self.height <= 16384,
        ;
        let size: usize = self.width * self.height;
        self.buffer.len() == size && self.background.len() == size
    }

    /// A black framebuffer with a black background and a white pen. The
    /// sizes must be positive and at most `MAX_DIMENSION`.
    pub fn new(width: usize, height: usize) -> (framebuffer: Option<Framebuffer>)
        ensures
            framebuffer is Some <==> 0 < width <= MAX_DIMENSION && 0 < height <= MAX_DIMENSION,
            framebuffer matches Some(f) ==> {
                &&& f.wf()
                &&& f.width == width
                &&& f.height == height
                &&& f.current_color == (Color { r: 255, g: 255, b: 255 })
                &&& forall|k: int| 0 <= k < f.buffer@.len() ==> f.buffer@[k] == 0
                &&& forall|k: int| 0 <= k < f.background@.len() ==> f.background@[k] == 0
            },
    {
        if width == 0 || width > MAX_DIMENSION || height == 0 || height > MAX_DIMENSION {
            return None;
        }
        assert(width * height <= 16384 * 16384) by (nonlinear_arith)
            requires
                0 < width <= 16384,
                0 < height <= 16384,
        ;
        let size: usize = width * height;
        let mut buffer: Vec<u32> = Vec::new();
        let mut background: Vec<u32> = Vec::new();
        let mut k: usize = 0;
        while k < size
            invariant
                k <= size,
                buffer@.len() == k,
                background@.len() == k,
                forall|i: int| 0 <= i < k ==> buffer@[i] == 0,
                forall|i: int| 0 <= i < k ==> background@[i] == 0,
            decreases size - k,
        {
            buffer.push(0);
            background.push(0);
            k += 1;
        }
        Some(
            Framebuffer {
                width,
                height,
                buffer,
                background,
                current_color: Color { r: 255, g: 255, b: 255 },
            },
        )
    }

    /// Brings every pixel back to the saved background.
    pub fn clear(&mut self)
        requires
            old(self).wf(),
        ensures
            final(self).wf(),
            final(self).same_frame(old(self)),
            final(self).current_color == old(self).current_color,
            final(self).buffer@ == old(self).background@,
    {
        let size: usize = self.buffer.len();
        let mut k: usize = 0;
        while k < size
            invariant
                k <= size,
                size == self.buffer@.len(),
                size == self.background@.len(),
                self.width == old(self).width,
                self.height == old(self).height,
                self.current_color == old(self).current_color,
                self.background@ == old(self).background@,
                forall|i: int| 0 <= i < k ==> self.buffer@[i] == self.background@[i],
            decreases size - k,
        {
            let word: u32 = self.background[k];
            self.buffer.set(k, word);
            k += 1;
        }
        assert(self.buffer@ =~= self.background@);
    }

    /// Saves the pixels as the background that `clear` brings back.
    pub fn save_as_background(&mut self)
        requires
            old(self).wf(),
        ensures
            final(self).wf(),
            final(self).width == old(self).width,
            final(self).height == old(self).height,
            final(self).current_color == old(self).current_color,
            final(self).buffer@ == old(self).buffer@,
            final(self).background@ == old(self).buffer@,
    {
        let size: usize = self.buffer.len();
        let mut k: usize = 0;
        while k < size
            invariant
                k <= size,
                size == self.buffer@.len(),
                size == self.background@.len(),
                self.width == old(self).width,
                self.height == old(self).height,
                self.current_color == old(self).current_color,
                self.buffer@ == old(self).buffer@,
                forall|i: int| 0 <= i < k ==> self.background@[i] == self.buffer@[i],
            decreases size - k,
        {
            let word: u32 = self.buffer[k];
            self.background.set(k, word);
            k += 1;
        }
        assert(self.background@ =~= self.buffer@);
    }

    /// Chooses the color that `paint_point` paints with.
    pub fn set_current_color(&mut self, color: Color)
        ensures
            final(self).current_color == color,
            final(self).width == old(self).width,
            final(self).height == old(self).height,
            final(self).buffer@ == old(self).buffer@,
            final(self).background@ == old(self).background@,
            forall|px: int, py: int|
                #[trigger] final(self).pixel(px, py) == old(self).pixel(px, py),
    {
        self.current_color = color;
    }

    /// Paints the pixel `(x, y)` with the pen color. A point outside the
    /// framebuffer is reported and leaves every pixel as it was.
    pub fn paint_point(&mut self, x: i64, y: i64) -> (painted: Result<(), PaintPointErrors>)
        requires
            old(self).wf(),
        ensures
            final(self).wf(),
            final(self).same_frame(old(self)),
            final(self).current_color == old(self).current_color,
            painted is Ok <==> old(self).contains(x as int, y as int),
            painted == Err::<(), PaintPointErrors>(PaintPointErrors::XTooSmall) <==> x < 0,
            painted == Err::<(), PaintPointErrors>(PaintPointErrors::YTooSmall) <==> 0 <= x && y
                < 0,
            painted == Err::<(), PaintPointErrors>(PaintPointErrors::XTooLarge) <==> 0 <= y && x
                >= old(self).width,
            painted == Err::<(), PaintPointErrors>(PaintPointErrors::YTooLarge) <==> 0 <= x < old(
                self,
            ).width && y >= old(self).height,
            painted is Err ==> final(self).buffer@ == old(self).buffer@,
            painted is Ok ==> final(self).buffer@ == old(self).buffer@.update(
                pixel_index(old(self).width as int, x as int, y as int),
                old(self).current_color.hex(),
            ),
            forall|px: int, py: int|
                old(self).contains(px, py) ==> #[trigger] final(self).pixel(px, py) == if px == x
                    && py == y {
                    old(self).current_color.hex()
                } else {
                    old(self).pixel(px, py)
                },
    {
        if x < 0 {
            return Err(PaintPointErrors::XTooSmall);
        }
        if y < 0 {
            return Err(PaintPointErrors::YTooSmall);
        }
        if x >= self.width as i64 {
            return Err(PaintPointErrors::XTooLarge);
        }
        if y >= self.height as i64 {
            return Err(PaintPointErrors::YTooLarge);
        }
        proof {
            lemma_pixel_index(
                self.width as int,
                self.height as int,
                x as int,
                y as int,
                x as int,
                y as int,
            );
        }
        assert(y * self.width <= 16384 * 16384) by (nonlinear_arith)
            requires
                0 <= y < 16384,
                0 < self.width <= 16384,
        ;
        let idx: usize = (y as usize) * self.width + (x as usize);
        let word: u32 = self.current_color.to_hex();
        self.buffer.set(idx, word);
        proof {
            assert forall|px: int, py: int| old(self).contains(px, py) implies
                #[trigger] self.pixel(
                px,
                py,
            ) == if px == x && py == y {
                old(self).current_color.hex()
            } else {
                old(self).pixel(px, py)
            } by {
                lemma_pixel_index(
                    self.width as int,
                    self.height as int,
                    px,
                    py,
                    x as int,
                    y as int,
                );
            }
        }
        Ok(())
    }

    /// Takes `color` as the pen color and paints the pixel `(x, y)` with it;
    /// a point outside the framebuffer changes no pixel.
    pub fn paint(&mut self, x: i64, y: i64, color: Color)
        requires
            old(self).wf(),
        ensures
            final(self).wf(),
            final(self).same_frame(old(self)),
            final(self).current_color == color,
            forall|px: int, py: int|
                old(self).contains(px, py) ==> #[trigger] final(self).pixel(px, py) == if px == x
                    && py == y {
                    color.hex()
                } else {
                    old(self).pixel(px, py)
                },
    {
        self.set_current_color(color);
        let ghost inked = *self;
        let _ = self.paint_point(x, y);
        assert forall|px: int, py: int| old(self).contains(px, py) implies #[trigger] self.pixel(
            px,
            py,
        ) == if px == x && py == y {
            color.hex()
        } else {
            old(self).pixel(px, py)
        } by {
            assert(inked.contains(px, py));
            assert(inked.pixel(px, py) == old(self).pixel(px, py));
        }
    }
}

/// Two framebuffers of one size whose pixels agree hold the same buffer.
pub proof fn lemma_same_pixels_same_buffer(a: Framebuffer, b: Framebuffer)
    requires
        a.wf(),
        b.wf(),
        a.width == b.width,
        a.height == b.height,
        forall|x: int, y: int| a.contains(x, y) ==> #[trigger] a.pixel(x, y) == b.pixel(x, y),
    ensures
        a.buffer@ == b.buffer@,
{
    assert forall|k: int| 0 <= k < a.buffer@.len() implies a.buffer@[k] == b.buffer@[k] by {
        lemma_pixel_of_index(a.width as int, a.height as int, k);
        assert(a.pixel(k % (a.width as int), k / (a.width as int)) == b.pixel(
            k % (a.width as int),
            k / (a.width as int),
        ));
    }
    assert(a.buffer@ =~= b.buffer@);
}

} // verus!
