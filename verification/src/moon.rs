//! The moon: a textured disc that crosses the sky on a parabola.

use vstd::prelude::*;
use crate::color::Color;
use crate::fixed::{clip, clip_to, lemma_mul_bounded, trunc_div, HALF, ONE};
use crate::framebuffer::{Framebuffer, MAX_DIMENSION};
use crate::texture::Texture;

verus! {

/// The radius of the moon, in pixels.
pub const MOON_RADIUS: i64 = 100;

/// The row of the moon's center at the top of its path, in pixels.
pub const MOON_ZENITH: i64 = 100;

/// How flat the moon's path is: the center sinks by the square of its
/// distance from the middle column, in pixels, over this number.
pub const MOON_FLATNESS: i64 = 2000;

/// Where the moon is on a screen, in fixed-point pixels and in pixels.
#[derive(Clone, Copy, Debug, PartialEq, Eq, Structural)]
pub struct MoonDisc {
    /// The center's column, in fixed-point pixels.
    pub center_x: i64,
    /// The center's row, in fixed-point pixels.
    pub center_y: i64,
    /// The first column of the square around the disc.
    pub start_x: i64,
    /// The first row of the square around the disc.
    pub start_y: i64,
    /// The column after the last.
    pub end_x: i64,
    /// The row after the last.
    pub end_y: i64,
}

/// The column of the moon's center at `phase` of its way across a screen
/// `width` wide, in fixed-point pixels.
pub open spec fn moon_center_x(phase: int, width: int) -> int {
    phase * width
}

/// The row of the moon's center when its column is `center_x`, in
/// fixed-point pixels: a parabola with its top in the middle column.
pub open spec fn moon_center_y(center_x: int, width: int) -> int {
    (center_x - width * HALF) * (center_x - width * HALF) / (ONE as int) / (MOON_FLATNESS as int)
        + MOON_ZENITH * ONE
}

/// The moon at `phase` of its way across a screen `width` wide.
pub open spec fn moon_disc(phase: int, width: int) -> MoonDisc {
    let center_x = moon_center_x(phase, width);
    let center_y = moon_center_y(center_x, width);
    MoonDisc {
        center_x: center_x as i64,
        center_y: center_y as i64,
        start_x: trunc_div(center_x - MOON_RADIUS * ONE, ONE as int) as i64,
        start_y: trunc_div(center_y - MOON_RADIUS * ONE, ONE as int) as i64,
        end_x: trunc_div(center_x + MOON_RADIUS * ONE, ONE as int) as i64,
        end_y: trunc_div(center_y + MOON_RADIUS * ONE, ONE as int) as i64,
    }
}

impl MoonDisc {
    /// The center lies where a moon can be, and the square reaches no
    /// further than a radius and a pixel from it.
    pub open spec fn wf(self) -> bool {
        &&& 0 <= self.center_x <= 0x4000_0000
        &&& 0 <= self.center_y <= 0x1_0000_0000_0000
        &&& -0x4000_0000 <= self.start_x <= self.end_x <= 0x4000_0000
        &&& -0x4000_0000 <= self.start_y <= self.end_y <= 0x1_0000_0000
    }

    /// Whether the middle of the pixel's corner `(x, y)` is no further from
    /// the center than the radius.
    pub open spec fn holds(self, x: int, y: int) -> bool {
        (x * ONE - self.center_x) * (x * ONE - self.center_x) + (y * ONE - self.center_y) * (y
            * ONE - self.center_y) <= (MOON_RADIUS * ONE) * (MOON_RADIUS * ONE)
    }

    /// Whether the pixel `(x, y)` shows the moon.
    pub open spec fn covers(self, x: int, y: int) -> bool {
        &&& self.start_x <= x < self.end_x
        &&& self.start_y <= y < self.end_y
        &&& self.holds(x, y)
    }

    /// The texel of the moon's texture that the pixel `(x, y)` shows.
    pub open spec fn color_at(self, texture: &Texture, x: int, y: int) -> Color {
        texture.sampled(
            (x - self.start_x) * texture.width / (2 * MOON_RADIUS as int),
            (y - self.start_y) * texture.height / (2 * MOON_RADIUS as int),
        )
    }
}

/// The pixel `(x, y)` once the moon is drawn over `under`.
pub open spec fn moon_pixel(disc: MoonDisc, texture: &Texture, x: int, y: int, under: u32) -> u32 {
    if disc.covers(x, y) {
        disc.color_at(texture, x, y).hex()
    } else {
        under
    }
}

/// Finds the moon on a screen `width` wide at `phase` of its way across.
pub fn locate_moon(phase: i64, width: usize) -> (disc: MoonDisc)
    requires
        0 <= phase <= ONE,
        0 < width <= MAX_DIMENSION,
    ensures
        disc == moon_disc(phase as int, width as int),
        disc.wf(),
{
    proof {
        lemma_mul_bounded(phase as int, width as int, 65536, 16384);
        assert(phase * width >= 0) by (nonlinear_arith)
            requires
                phase >= 0,
                width > 0,
        ;
    }
    let center_x: i64 = phase * (width as i64);
    let offset: i64 = center_x - (width as i64) * HALF;
    proof {
        lemma_mul_bounded(offset as int, offset as int, 0x4000_0000, 0x4000_0000);
        assert(offset * offset >= 0) by (nonlinear_arith);
    }
    let center_y: i64 = offset * offset / ONE / MOON_FLATNESS + MOON_ZENITH * ONE;
    MoonDisc {
        center_x,
        center_y,
        start_x: (center_x - MOON_RADIUS * ONE) / ONE,
        start_y: (center_y - MOON_RADIUS * ONE) / ONE,
        end_x: (center_x + MOON_RADIUS * ONE) / ONE,
        end_y: (center_y + MOON_RADIUS * ONE) / ONE,
    }
}

/// Tells whether the pixel `(x, y)` lies on the disc.
pub fn moon_holds(disc: &MoonDisc, x: usize, y: usize) -> (inside: bool)
    requires
        disc.wf(),
        x <= MAX_DIMENSION,
        y <= MAX_DIMENSION,
    ensures
        inside == disc.holds(x as int, y as int),
{
    let dx: i128 = (x as i128) * 65536 - (disc.center_x as i128);
    let dy: i128 = (y as i128) * 65536 - (disc.center_y as i128);
    proof {
        lemma_mul_bounded(dx as int, dx as int, 0x8000_0000, 0x8000_0000);
        lemma_mul_bounded(dy as int, dy as int, 0x2_0000_0000_0000, 0x2_0000_0000_0000);
        assert((MOON_RADIUS * ONE) * (MOON_RADIUS * ONE) == 42_949_672_960_000)
            by (nonlinear_arith)
            requires
                MOON_RADIUS == 100,
                ONE == 65536,
        ;
    }
    dx * dx + dy * dy <= 42_949_672_960_000
}

/// Draws the moon: the texels of its texture on the pixels of its disc.
pub fn draw_moon(framebuffer: &mut Framebuffer, disc: &MoonDisc, texture: &Texture)
    requires
        old(framebuffer).wf(),
        disc.wf(),
        texture.wf(),
    ensures
        final(framebuffer).wf(),
        final(framebuffer).same_frame(old(framebuffer)),
        forall|x: int, y: int|
            old(framebuffer).contains(x, y) ==> #[trigger] final(framebuffer).pixel(x, y)
                == moon_pixel(*disc, texture, x, y, old(framebuffer).pixel(x, y)),
{
    let width: usize = framebuffer.width;
    let height: usize = framebuffer.height;
    let first_x: usize = clip_to(disc.start_x as i128, 0, width);
    let last_x: usize = clip_to(disc.end_x as i128, first_x, width);
    let first_y: usize = clip_to(disc.start_y as i128, 0, height);
    let last_y: usize = clip_to(disc.end_y as i128, first_y, height);
    let mut x: usize = first_x;
    while x < last_x
        invariant
            framebuffer.wf(),
            framebuffer.same_frame(old(framebuffer)),
            disc.wf(),
            texture.wf(),
            width == framebuffer.width,
            height == framebuffer.height,
            first_x == clip(disc.start_x as int, 0, width as int),
            last_x == clip(disc.end_x as int, first_x as int, width as int),
            first_y == clip(disc.start_y as int, 0, height as int),
            last_y == clip(disc.end_y as int, first_y as int, height as int),
            first_x <= x <= last_x <= width,
            first_y <= last_y <= height,
            forall|px: int, py: int|
                framebuffer.contains(px, py) ==> #[trigger] framebuffer.pixel(px, py) == if px < x {
                    moon_pixel(*disc, texture, px, py, old(framebuffer).pixel(px, py))
                } else {
                    old(framebuffer).pixel(px, py)
                },
        decreases last_x - x,
    {
        proof {
            lemma_mul_bounded(x - disc.start_x, texture.width as int, 0x8000_0000, 0xffff_ffff);
        }
        let tx: i128 = ((x as i128) - (disc.start_x as i128)) * (texture.width as i128) / (2
            * MOON_RADIUS as i128);
        let mut y: usize = first_y;
        while y < last_y
            invariant
                framebuffer.wf(),
                framebuffer.same_frame(old(framebuffer)),
                disc.wf(),
                texture.wf(),
                width == framebuffer.width,
                height == framebuffer.height,
                first_x == clip(disc.start_x as int, 0, width as int),
                last_x == clip(disc.end_x as int, first_x as int, width as int),
                first_y == clip(disc.start_y as int, 0, height as int),
                last_y == clip(disc.end_y as int, first_y as int, height as int),
                first_x <= x < last_x <= width,
                first_y <= y <= last_y <= height,
                tx == (x - disc.start_x) * texture.width / (2 * MOON_RADIUS as int),
                forall|px: int, py: int|
                    framebuffer.contains(px, py) ==> #[trigger] framebuffer.pixel(px, py) == if px
                        < x || (px == x && py < y) {
                        moon_pixel(*disc, texture, px, py, old(framebuffer).pixel(px, py))
                    } else {
                        old(framebuffer).pixel(px, py)
                    },
            decreases last_y - y,
        {
            if moon_holds(disc, x, y) {
                proof {
                    lemma_mul_bounded(
                        y - disc.start_y,
                        texture.height as int,
                        0x2_0000_0000,
                        0xffff_ffff,
                    );
                }
                let ty: i128 = ((y as i128) - (disc.start_y as i128)) * (texture.height as i128)
                    / (2 * MOON_RADIUS as i128);
                let color: Color = texture.sample(tx, ty);
                framebuffer.paint(x as i64, y as i64, color);
            }
            y += 1;
        }
        x += 1;
    }
}

} // verus!
