//! Pictures that fill the whole frame: the backdrop of sky and ground, and
//! the still and animated screens shown outside the game.

use vstd::prelude::*;
use crate::color::Color;
use crate::fixed::lemma_mul_bounded;
use crate::framebuffer::Framebuffer;
use crate::texture::{AnimatedTexture, Texture};

verus! {

/// The color of the sky.
pub const SKY_COLOR: u32 = 0x00000f;

/// The color of the ground.
pub const GROUND_COLOR: u32 = 0x140d00;

/// How long each frame of an animated screen is shown, in milliseconds.
pub const FRAME_PERIOD: u64 = 60;

/// The backdrop at row `y` of a screen `height` tall: sky above the middle
/// row, ground from the middle row down.
pub open spec fn backdrop_pixel(height: int, y: int) -> u32 {
    if y < height / 2 {
        SKY_COLOR
    } else {
        GROUND_COLOR
    }
}

/// The texel that the pixel at `position` of a screen `extent` long shows of
/// a texture `texture_extent` long stretched over the screen.
pub open spec fn stretched(position: int, texture_extent: int, extent: int) -> int {
    position * texture_extent / extent
}

/// The pixel `(x, y)` of a screen of `width` by `height` that shows a still
/// image stretched over it.
pub open spec fn still_pixel(texture: &Texture, width: int, height: int, x: int, y: int) -> u32 {
    texture.sampled(
        stretched(x, texture.width as int, width),
        stretched(y, texture.height as int, height),
    ).hex()
}

/// The pixel `(x, y)` of a screen of `width` by `height` that shows frame
/// `frame` of an animation stretched over it.
pub open spec fn animated_pixel(
    texture: &AnimatedTexture,
    frame: int,
    width: int,
    height: int,
    x: int,
    y: int,
) -> u32 {
    texture.sampled(
        frame,
        stretched(x, texture.width as int, width),
        stretched(y, texture.height as int, height),
    ).hex()
}

/// Fills the frame with sky above the middle row and ground below.
pub fn render_backdrop(framebuffer: &mut Framebuffer)
    requires
        old(framebuffer).wf(),
    ensures
        final(framebuffer).wf(),
        final(framebuffer).same_frame(old(framebuffer)),
        forall|x: int, y: int|
            old(framebuffer).contains(x, y) ==> #[trigger] final(framebuffer).pixel(x, y)
                == backdrop_pixel(old(framebuffer).height as int, y),
{
    let width: usize = framebuffer.width;
    let height: usize = framebuffer.height;
    let half_height: usize = height / 2;
    let mut x: usize = 0;
    while x < width
        invariant
            framebuffer.wf(),
            framebuffer.same_frame(old(framebuffer)),
            width == framebuffer.width,
            height == framebuffer.height,
            half_height == height / 2,
            x <= width,
            forall|px: int, py: int|
                framebuffer.contains(px, py) ==> #[trigger] framebuffer.pixel(px, py) == if px < x {
                    backdrop_pixel(height as int, py)
                } else {
                    old(framebuffer).pixel(px, py)
                },
        decreases width - x,
    {
        let mut y: usize = 0;
        while y < height
            invariant
                framebuffer.wf(),
                framebuffer.same_frame(old(framebuffer)),
                width == framebuffer.width,
                height == framebuffer.height,
                half_height == height / 2,
                x < width,
                y <= height,
                forall|px: int, py: int|
                    framebuffer.contains(px, py) ==> #[trigger] framebuffer.pixel(px, py) == if px
                        < x || (px == x && py < y) {
                        backdrop_pixel(height as int, py)
                    } else {
                        old(framebuffer).pixel(px, py)
                    },
            decreases height - y,
        {
            let color: Color = if y < half_height {
                Color::from_hex(SKY_COLOR)
            } else {
                Color::from_hex(GROUND_COLOR)
            };
            framebuffer.paint(x as i64, y as i64, color);
            y += 1;
        }
        x += 1;
    }
}

/// Fills the frame with a still image stretched over it.
pub fn render_still_screen(framebuffer: &mut Framebuffer, texture: &Texture)
    requires
        old(framebuffer).wf(),
        texture.wf(),
    ensures
        final(framebuffer).wf(),
        final(framebuffer).same_frame(old(framebuffer)),
        forall|x: int, y: int|
            old(framebuffer).contains(x, y) ==> #[trigger] final(framebuffer).pixel(x, y)
                == still_pixel(
                texture,
                old(framebuffer).width as int,
                old(framebuffer).height as int,
                x,
                y,
            ),
{
    let width: usize = framebuffer.width;
    let height: usize = framebuffer.height;
    let mut x: usize = 0;
    while x < width
        invariant
            framebuffer.wf(),
            framebuffer.same_frame(old(framebuffer)),
            texture.wf(),
            width == framebuffer.width,
            height == framebuffer.height,
            x <= width,
            forall|px: int, py: int|
                framebuffer.contains(px, py) ==> #[trigger] framebuffer.pixel(px, py) == if px < x {
                    still_pixel(texture, width as int, height as int, px, py)
                } else {
                    old(framebuffer).pixel(px, py)
                },
        decreases width - x,
    {
        proof {
            lemma_mul_bounded(x as int, texture.width as int, 16384, 0xffff_ffff);
        }
        let tx: i128 = (x as i128) * (texture.width as i128) / (width as i128);
        let mut y: usize = 0;
        while y < height
            invariant
                framebuffer.wf(),
                framebuffer.same_frame(old(framebuffer)),
                texture.wf(),
                width == framebuffer.width,
                height == framebuffer.height,
                x < width,
                y <= height,
                tx == stretched(x as int, texture.width as int, width as int),
                forall|px: int, py: int|
                    framebuffer.contains(px, py) ==> #[trigger] framebuffer.pixel(px, py) == if px
                        < x || (px == x && py < y) {
                        still_pixel(texture, width as int, height as int, px, py)
                    } else {
                        old(framebuffer).pixel(px, py)
                    },
            decreases height - y,
        {
            proof {
                lemma_mul_bounded(y as int, texture.height as int, 16384, 0xffff_ffff);
            }
            let ty: i128 = (y as i128) * (texture.height as i128) / (height as i128);
            let color: Color = texture.sample(tx, ty);
            framebuffer.paint(x as i64, y as i64, color);
            y += 1;
        }
        x += 1;
    }
}

/// Fills the frame with one frame of an animation stretched over it.
pub fn render_animated_screen(
    framebuffer: &mut Framebuffer,
    texture: &AnimatedTexture,
    frame: usize,
)
    requires
        old(framebuffer).wf(),
        texture.wf(),
        frame < texture.frame_count,
    ensures
        final(framebuffer).wf(),
        final(framebuffer).same_frame(old(framebuffer)),
        forall|x: int, y: int|
            old(framebuffer).contains(x, y) ==> #[trigger] final(framebuffer).pixel(x, y)
                == animated_pixel(
                texture,
                frame as int,
                old(framebuffer).width as int,
                old(framebuffer).height as int,
                x,
                y,
            ),
{
    let width: usize = framebuffer.width;
    let height: usize = framebuffer.height;
    let mut x: usize = 0;
    while x < width
        invariant
            framebuffer.wf(),
            framebuffer.same_frame(old(framebuffer)),
            texture.wf(),
            frame < texture.frame_count,
            width == framebuffer.width,
            height == framebuffer.height,
            x <= width,
            forall|px: int, py: int|
                framebuffer.contains(px, py) ==> #[trigger] framebuffer.pixel(px, py) == if px < x {
                    animated_pixel(texture, frame as int, width as int, height as int, px, py)
                } else {
                    old(framebuffer).pixel(px, py)
                },
        decreases width - x,
    {
        proof {
            lemma_mul_bounded(x as int, texture.width as int, 16384, 0xffff_ffff);
        }
        let tx: i128 = (x as i128) * (texture.width as i128) / (width as i128);
        let mut y: usize = 0;
        while y < height
            invariant
                framebuffer.wf(),
                framebuffer.same_frame(old(framebuffer)),
                texture.wf(),
                frame < texture.frame_count,
                width == framebuffer.width,
                height == framebuffer.height,
                x < width,
                y <= height,
                tx == stretched(x as int, texture.width as int, width as int),
                forall|px: int, py: int|
                    framebuffer.contains(px, py) ==> #[trigger] framebuffer.pixel(px, py) == if px
                        < x || (px == x && py < y) {
                        animated_pixel(texture, frame as int, width as int, height as int, px, py)
                    } else {
                        old(framebuffer).pixel(px, py)
                    },
            decreases height - y,
        {
            proof {
                lemma_mul_bounded(y as int, texture.height as int, 16384, 0xffff_ffff);
            }
            let ty: i128 = (y as i128) * (texture.height as i128) / (height as i128);
            let color: Color = texture.sample(frame, tx, ty);
            framebuffer.paint(x as i64, y as i64, color);
            y += 1;
        }
        x += 1;
    }
}

} // verus!
