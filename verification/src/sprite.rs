//! The sprite compositor: billboards projected onto the screen and painted
//! column by column behind the walls.

use vstd::prelude::*;
use crate::fixed::{
    clip, clip_to, div_trunc, floor_sqrt, isqrt, lemma_div_antitone, lemma_div_shrinks,
    lemma_mul_bounded, trunc_div, HALF, ONE,
};
use crate::framebuffer::{Framebuffer, MAX_DIMENSION};
use crate::texture::Texture;
use crate::{Player, Point, MAX_ANGLE};

verus! {

/// How many screen heights tall a sprite looks from one pixel away.
pub const SPRITE_SCALE: i64 = 9;

/// The distance below which a sprite grows no larger on screen.
pub const MIN_SPRITE_DISTANCE: i64 = 65536;

/// The largest distance of a sprite, in fixed-point pixels.
pub const MAX_SPRITE_DISTANCE: i64 = 0x1_0000_0000;

/// The largest magnitude of a corner of a projected sprite.
pub const MAX_SPRITE_CORNER: i128 = 0x1_0000_0000_0000_0000;

/// The largest size of a projected sprite, in fixed-point pixels.
pub const MAX_SPRITE_SIZE: i128 = 0x1_0000_0000_0000_0000_0000;

/// The rectangle that a sprite takes on screen, and how far away it is.
#[derive(Clone, Copy, Debug, PartialEq, Eq, Structural)]
pub struct SpriteRect {
    /// The distance from the player, in fixed-point pixels.
    pub distance: i64,
    /// The width on screen, in fixed-point pixels.
    pub width: i128,
    /// The height on screen, in fixed-point pixels.
    pub height: i128,
    /// The first column.
    pub start_x: i128,
    /// The first row.
    pub start_y: i128,
    /// The column after the last.
    pub end_x: i128,
    /// The row after the last.
    pub end_y: i128,
}

impl SpriteRect {
    /// The distance and the sizes are not negative, the rectangle spans the
    /// whole pixels of its sizes, and nothing is too large to compute with.
    pub open spec fn wf(self) -> bool {
        &&& 0 <= self.distance <= MAX_SPRITE_DISTANCE
        &&& 0 <= self.width <= MAX_SPRITE_SIZE
        &&& 0 <= self.height <= MAX_SPRITE_SIZE
        &&& -MAX_SPRITE_CORNER <= self.start_x <= MAX_SPRITE_CORNER
        &&& -MAX_SPRITE_CORNER <= self.start_y <= MAX_SPRITE_CORNER
        &&& self.end_x == self.start_x + self.width / (ONE as i128)
        &&& self.end_y == self.start_y + self.height / (ONE as i128)
    }

    /// Whether the pixel `(x, y)` lies in the rectangle.
    pub open spec fn covers(self, x: int, y: int) -> bool {
        self.start_x <= x < self.end_x && self.start_y <= y < self.end_y
    }

    /// The texture column that screen column `x` shows, for a texture
    /// `texture_width` wide.
    pub open spec fn texel_x(self, x: int, texture_width: int) -> int {
        (x - self.start_x) * ONE * texture_width / (self.width as int)
    }

    /// The texture row that screen row `y` shows, for a texture
    /// `texture_height` tall.
    pub open spec fn texel_y(self, y: int, texture_height: int) -> int {
        (y - self.start_y) * ONE * texture_height / (self.height as int)
    }
}

/// The distance between the player and a sprite: the integer part of the
/// square root, in fixed-point pixels.
pub open spec fn sprite_distance(player: Point, sprite: Point) -> int {
    floor_sqrt(
        (player.x - sprite.x) * (player.x - sprite.x) + (player.y - sprite.y) * (player.y
            - sprite.y),
    )
}

/// The distance that sets the size of a sprite: its distance, but at least
/// `MIN_SPRITE_DISTANCE`.
pub open spec fn sizing_distance(distance: int) -> int {
    if distance < MIN_SPRITE_DISTANCE {
        MIN_SPRITE_DISTANCE as int
    } else {
        distance
    }
}

/// The height of a sprite on screen, in fixed-point pixels: the screen
/// height over the distance, times `SPRITE_SCALE`.
pub open spec fn rendered_height(height: int, distance: int) -> int {
    height * SPRITE_SCALE * ONE * ONE / sizing_distance(distance)
}

/// The width of a sprite on screen: its height in the proportions of its
/// texture.
pub open spec fn rendered_width(
    rendered_height: int,
    texture_width: int,
    texture_height: int,
) -> int {
    rendered_height * texture_width / texture_height
}

/// The first row of a sprite, which is centered on the middle row.
pub open spec fn sprite_start_y(height: int, rendered_height: int) -> int {
    trunc_div(height * HALF - rendered_height / 2, ONE as int)
}

/// The first column of a sprite seen at `bearing`: as far from the middle
/// column as the bearing is from the orientation, at `height` pixels to the
/// field of view, less half the rendered height.
pub open spec fn sprite_start_x(
    player: Player,
    bearing: int,
    width: int,
    height: int,
    rendered_height: int,
) -> int {
    trunc_div(
        trunc_div((bearing - player.orientation) * height * ONE, player.fov as int) + width * HALF
            - rendered_height / 2,
        ONE as int,
    )
}

/// The rectangle of a sprite at `sprite`, seen at `bearing` by `player` on
/// a screen of `width` by `height`, drawn with a texture of `texture_width`
/// by `texture_height`.
pub open spec fn sprite_rect(
    player: Player,
    sprite: Point,
    bearing: int,
    width: int,
    height: int,
    texture_width: int,
    texture_height: int,
) -> SpriteRect {
    let distance = sprite_distance(player.position, sprite);
    let tall = rendered_height(height, distance);
    let wide = rendered_width(tall, texture_width, texture_height);
    let start_x = sprite_start_x(player, bearing, width, height, tall);
    let start_y = sprite_start_y(height, tall);
    SpriteRect {
        distance: distance as i64,
        width: wide as i128,
        height: tall as i128,
        start_x: start_x as i128,
        start_y: start_y as i128,
        end_x: (start_x + wide / (ONE as int)) as i128,
        end_y: (start_y + tall / (ONE as int)) as i128,
    }
}

/// The pixel `(x, y)` once a sprite is drawn over `under`: the sprite's
/// texture where the rectangle covers the pixel and the sprite is nearer
/// than the wall of the column, and `under` elsewhere.
pub open spec fn sprite_pixel(
    rect: SpriteRect,
    texture: &Texture,
    z_buffer: Seq<i64>,
    x: int,
    y: int,
    under: u32,
) -> u32 {
    if rect.covers(x, y) && rect.distance < z_buffer[x] {
        texture.sampled(
            rect.texel_x(x, texture.width as int),
            rect.texel_y(y, texture.height as int),
        ).hex()
    } else {
        under
    }
}

/// Projects a sprite onto the screen.
pub fn project_sprite(
    player: &Player,
    sprite: Point,
    bearing: i64,
    width: usize,
    height: usize,
    texture_width: u32,
    texture_height: u32,
) -> (rect: SpriteRect)
    requires
        player.wf(),
        sprite.wf(),
        -MAX_ANGLE <= bearing <= MAX_ANGLE,
        0 < width <= MAX_DIMENSION,
        0 < height <= MAX_DIMENSION,
        texture_width > 0,
        texture_height > 0,
    ensures
        rect == sprite_rect(
            *player,
            sprite,
            bearing as int,
            width as int,
            height as int,
            texture_width as int,
            texture_height as int,
        ),
        rect.wf(),
        rect.height <= height * SPRITE_SCALE * ONE,
{
    let dx: i64 = player.position.x - sprite.x;
    let dy: i64 = player.position.y - sprite.y;
    proof {
        lemma_mul_bounded(dx as int, dx as int, 1_073_741_824, 1_073_741_824);
        lemma_mul_bounded(dy as int, dy as int, 1_073_741_824, 1_073_741_824);
        assert(dx * dx >= 0) by (nonlinear_arith);
        assert(dy * dy >= 0) by (nonlinear_arith);
    }
    let square: u64 = (dx * dx + dy * dy) as u64;
    let distance: i64 = isqrt(square) as i64;
    let sizing: i64 = if distance < MIN_SPRITE_DISTANCE {
        MIN_SPRITE_DISTANCE
    } else {
        distance
    };
    let scaled: i64 = (height as i64) * SPRITE_SCALE * ONE * ONE;
    proof {
        lemma_div_shrinks(scaled as int, sizing as int);
        lemma_div_antitone(scaled as int, 65536, sizing as int);
    }
    let tall: i64 = scaled / sizing;
    proof {
        lemma_mul_bounded(tall as int, texture_width as int, 0x4_0000_0000, 0xffff_ffff);
        assert(tall * texture_width >= 0) by (nonlinear_arith)
            requires
                tall >= 0,
                texture_width > 0,
        ;
        lemma_div_shrinks(tall * texture_width, texture_height as int);
    }
    let wide: i128 = (tall as i128) * (texture_width as i128) / (texture_height as i128);
    let start_y: i128 = div_trunc(
        ((height as i64) * HALF - tall / 2) as i128,
        ONE as i128,
    );
    let turn: i64 = bearing - player.orientation;
    proof {
        lemma_mul_bounded(turn as int, height as int, 4_294_967_296, 16384);
        lemma_mul_bounded(turn * height, ONE as int, 70_368_744_177_664, 65536);
    }
    let swing: i128 = div_trunc(
        (turn as i128) * (height as i128) * (ONE as i128),
        player.fov as i128,
    );
    proof {
        let product = turn * height * ONE;
        if product >= 0 {
            lemma_div_shrinks(product, player.fov as int);
        } else {
            lemma_div_shrinks(-product, player.fov as int);
        }
    }
    let start_x: i128 = div_trunc(
        swing + ((width as i64) * HALF - tall / 2) as i128,
        ONE as i128,
    );
    SpriteRect {
        distance,
        width: wide,
        height: tall as i128,
        start_x,
        start_y,
        end_x: start_x + wide / (ONE as i128),
        end_y: start_y + (tall / ONE) as i128,
    }
}

/// Paints one screen column of a sprite: the rows of the rectangle that are
/// on screen.
pub fn composite_sprite_column(
    framebuffer: &mut Framebuffer,
    rect: &SpriteRect,
    texture: &Texture,
    x: usize,
)
    requires
        old(framebuffer).wf(),
        rect.wf(),
        texture.wf(),
        x < old(framebuffer).width,
        rect.start_x <= x < rect.end_x,
    ensures
        final(framebuffer).wf(),
        final(framebuffer).same_frame(old(framebuffer)),
        forall|px: int, py: int|
            old(framebuffer).contains(px, py) ==> #[trigger] final(framebuffer).pixel(px, py)
                == if px == x && rect.covers(px, py) {
                texture.sampled(
                    rect.texel_x(px, texture.width as int),
                    rect.texel_y(py, texture.height as int),
                ).hex()
            } else {
                old(framebuffer).pixel(px, py)
            },
{
    let height: usize = framebuffer.height;
    let first: usize = clip_to(rect.start_y, 0, height);
    let last: usize = clip_to(rect.end_y, first, height);
    proof {
        lemma_mul_bounded(
            x - rect.start_x,
            ONE as int,
            0x2_0000_0000_0000_0000,
            65536,
        );
        lemma_mul_bounded(
            (x - rect.start_x) * ONE,
            texture.width as int,
            0x2_0000_0000_0000_0000_0000,
            0xffff_ffff,
        );
    }
    let tx: i128 = (x as i128 - rect.start_x) * (ONE as i128) * (texture.width as i128)
        / rect.width;
    let mut y: usize = first;
    while y < last
        invariant
            framebuffer.wf(),
            framebuffer.same_frame(old(framebuffer)),
            rect.wf(),
            texture.wf(),
            height == framebuffer.height,
            x < framebuffer.width,
            rect.start_x <= x < rect.end_x,
            tx == rect.texel_x(x as int, texture.width as int),
            first <= y <= last <= height,
            first == clip(rect.start_y as int, 0, height as int),
            last == clip(rect.end_y as int, first as int, height as int),
            forall|px: int, py: int|
                framebuffer.contains(px, py) ==> #[trigger] framebuffer.pixel(px, py) == if px == x
                    && rect.covers(px, py) && py < y {
                    texture.sampled(
                        rect.texel_x(px, texture.width as int),
                        rect.texel_y(py, texture.height as int),
                    ).hex()
                } else {
                    old(framebuffer).pixel(px, py)
                },
        decreases last - y,
    {
        proof {
            lemma_mul_bounded(
                y - rect.start_y,
                ONE as int,
                0x2_0000_0000_0000_0000,
                65536,
            );
            lemma_mul_bounded(
                (y - rect.start_y) * ONE,
                texture.height as int,
                0x2_0000_0000_0000_0000_0000,
                0xffff_ffff,
            );
        }
        let ty: i128 = (y as i128 - rect.start_y) * (ONE as i128) * (texture.height as i128)
            / rect.height;
        let color = texture.sample(tx, ty);
        let center: i64 = crate::render::distance_from_center(
            framebuffer.width,
            framebuffer.height,
            x,
            y,
        );
        framebuffer.paint(
            x as i64,
            y as i64,
            crate::render::apply_lantern_effect(
                &color,
                center,
                (framebuffer.width as i64) * ONE,
            ),
        );
        y += 1;
    }
}

/// The sprite compositor: paints a projected sprite with its texture, one
/// screen column at a time, and leaves out every column in which a wall is
/// at least as near as the sprite.
pub fn composite_sprite(
    framebuffer: &mut Framebuffer,
    rect: &SpriteRect,
    texture: &Texture,
    z_buffer: &Vec<i64>,
)
    requires
        old(framebuffer).wf(),
        rect.wf(),
        texture.wf(),
        z_buffer@.len() == old(framebuffer).width,
    ensures
        final(framebuffer).wf(),
        final(framebuffer).same_frame(old(framebuffer)),
        forall|x: int, y: int|
            old(framebuffer).contains(x, y) ==> #[trigger] final(framebuffer).pixel(x, y)
                == sprite_pixel(*rect, texture, z_buffer@, x, y, old(framebuffer).pixel(x, y)),
        forall|x: int, y: int|
            old(framebuffer).contains(x, y) && rect.distance >= z_buffer@[x]
                ==> #[trigger] final(framebuffer).pixel(x, y) == old(framebuffer).pixel(x, y),
        forall|x: int, y: int|
            old(framebuffer).contains(x, y) && rect.covers(x, y) && rect.distance < z_buffer@[x]
                ==> #[trigger] final(framebuffer).pixel(x, y) == texture.sampled(
                rect.texel_x(x, texture.width as int),
                rect.texel_y(y, texture.height as int),
            ).hex(),
{
    let width: usize = framebuffer.width;
    let first: usize = clip_to(rect.start_x, 0, width);
    let last: usize = clip_to(rect.end_x, first, width);
    let mut x: usize = first;
    while x < last
        invariant
            framebuffer.wf(),
            framebuffer.same_frame(old(framebuffer)),
            rect.wf(),
            texture.wf(),
            width == framebuffer.width,
            z_buffer@.len() == width,
            first <= x <= last <= width,
            first == clip(rect.start_x as int, 0, width as int),
            last == clip(rect.end_x as int, first as int, width as int),
            forall|px: int, py: int|
                framebuffer.contains(px, py) ==> #[trigger] framebuffer.pixel(px, py) == if px < x {
                    sprite_pixel(*rect, texture, z_buffer@, px, py, old(framebuffer).pixel(px, py))
                } else {
                    old(framebuffer).pixel(px, py)
                },
        decreases last - x,
    {
        if rect.distance < z_buffer[x] {
            composite_sprite_column(framebuffer, rect, texture, x);
        }
        x += 1;
    }
}

/// A sprite leaves a column alone in which a wall is at least as near.
pub proof fn lemma_occluded_column_untouched(
    rect: SpriteRect,
    texture: &Texture,
    z_buffer: Seq<i64>,
    x: int,
    y: int,
    under: u32,
)
    requires
        rect.distance >= z_buffer[x],
    ensures
        sprite_pixel(rect, texture, z_buffer, x, y, under) == under,
{
}

/// A sprite is painted wherever its rectangle covers a column in which no
/// wall was found.
pub proof fn lemma_open_column_painted(
    rect: SpriteRect,
    texture: &Texture,
    z_buffer: Seq<i64>,
    x: int,
    y: int,
    under: u32,
)
    requires
        rect.wf(),
        rect.covers(x, y),
        z_buffer[x] == crate::render::Z_FAR,
    ensures
        sprite_pixel(rect, texture, z_buffer, x, y, under) == texture.sampled(
            rect.texel_x(x, texture.width as int),
            rect.texel_y(y, texture.height as int),
        ).hex(),
{
}

} // verus!
