//! The frame composer: background, walls, sprites and full-screen images.

use vstd::prelude::*;
use crate::color::Color;
use crate::fixed::{isqrt, lemma_div_shrinks, lemma_mul_bounded, HALF, ONE};
use crate::framebuffer::{Framebuffer, MAX_DIMENSION};
use crate::minimap::{
    map_coordinate, mapped, minimap_pixel, render_minimap, FAN_RAYS, MAX_MAPPED,
};
use crate::moon::{draw_moon, locate_moon, moon_disc, moon_pixel};
use crate::raycaster::{cast_ray_3d, cast_result, CastError, Intersect};
use crate::screen::{
    animated_pixel, backdrop_pixel, render_animated_screen, render_backdrop, render_still_screen,
    still_pixel, FRAME_PERIOD,
};
use crate::sprite::{composite_sprite, project_sprite, sprite_pixel, sprite_rect, SpriteRect};
use crate::texture::{frame_at, frame_index, GameTextures, Texture};
use crate::{BoardCell, Direction, GameStatus, Model, Player, Point, MAX_ANGLE};

verus! {

/// The distance from the eye to the projection plane, which sets how tall
/// walls look: six times pi, in fixed point.
pub const PROJECTION_PLANE: i64 = 1_235_324;

/// No slab of a wall is taller than this, in fixed-point pixels.
pub const MAX_STAKE: i64 = 0x4_0000_0000_0000;

/// The depth of a screen column in which no wall was found.
pub const Z_FAR: i64 = 9_223_372_036_854_775_807;

/// The texture that a cell is drawn with, if it has one.
pub open spec fn texture_for(c: BoardCell, textures: &GameTextures) -> Option<Texture> {
    match c {
        BoardCell::HorizontalWall => Some(textures.horizontal_wall),
        BoardCell::VerticalWall => Some(textures.vertical_wall),
        BoardCell::PillarWall => Some(textures.corner_wall),
        _ => None,
    }
}

/// The flat color of a cell: dark red for the goal, magenta for a wall,
/// white for anything else.
pub open spec fn cell_color(c: BoardCell) -> Color {
    match c {
        BoardCell::Goal => Color { r: 0x8b, g: 0, b: 0 },
        BoardCell::HorizontalWall | BoardCell::VerticalWall | BoardCell::PillarWall => Color {
            r: 0xff,
            g: 0,
            b: 0xff,
        },
        _ => Color { r: 0xff, g: 0xff, b: 0xff },
    }
}

/// Picks the texture of a wall; other cells have none.
pub fn from_char_to_texture<'a>(c: &BoardCell, textures: &'a GameTextures) -> (texture: Option<
    &'a Texture,
>)
    ensures
        texture is Some <==> c.is_solid(),
        texture matches Some(t) ==> texture_for(*c, textures) == Some(*t),
        texture is None ==> texture_for(*c, textures) is None,
{
    match c {
        BoardCell::HorizontalWall => Some(&textures.horizontal_wall),
        BoardCell::VerticalWall => Some(&textures.vertical_wall),
        BoardCell::PillarWall => Some(&textures.corner_wall),
        _ => None,
    }
}

/// The flat color that stands for a cell where no texture does.
pub fn from_cell_to_color(c: &BoardCell) -> (color: Color)
    ensures
        color == cell_color(*c),
{
    match c {
        BoardCell::Goal => Color::from_hex(0x8b0000),
        BoardCell::HorizontalWall | BoardCell::VerticalWall | BoardCell::PillarWall => {
            Color::from_hex(0xff00ff)
        },
        _ => Color::from_hex(0xffffff),
    }
}

/// The distance of the pixel `(x, y)` from the middle of the screen, in
/// fixed-point pixels: the integer part of the square root.
pub fn distance_from_center(width: usize, height: usize, x: usize, y: usize) -> (distance: i64)
    requires
        width <= MAX_DIMENSION,
        height <= MAX_DIMENSION,
        x <= MAX_DIMENSION,
        y <= MAX_DIMENSION,
    ensures
        crate::fixed::is_floor_sqrt(
            (width * HALF - x * ONE) * (width * HALF - x * ONE) + (height * HALF - y * ONE) * (
            height * HALF - y * ONE),
            distance as int,
        ),
{
    let dx: i64 = (width as i64) * HALF - (x as i64) * ONE;
    let dy: i64 = (height as i64) * HALF - (y as i64) * ONE;
    proof {
        lemma_mul_bounded(dx as int, dx as int, 1_073_741_824, 1_073_741_824);
        lemma_mul_bounded(dy as int, dy as int, 1_073_741_824, 1_073_741_824);
        assert(dx * dx >= 0) by (nonlinear_arith);
        assert(dy * dy >= 0) by (nonlinear_arith);
    }
    let square: u64 = (dx * dx + dy * dy) as u64;
    isqrt(square) as i64
}

/// The light that the player's lantern throws on a color. The lantern is
/// not lit: every color is shown as it is.
pub fn apply_lantern_effect(
    color: &Color,
    distance_from_center: i64,
    framebuffer_width: i64,
) -> (lit: Color)
    ensures
        lit == *color,
{
    *color
}

/// The height on screen of a wall at `distance`, in fixed-point pixels:
/// half the screen height over the distance, times the projection plane.
pub open spec fn stake_height(height: int, distance: int) -> int {
    height * HALF * PROJECTION_PLANE / distance
}

/// The first row of the wall slab, which is centered on the middle row and
/// cut at the top of the screen.
pub open spec fn stake_top(height: int, distance: int) -> int {
    let top = height * HALF - stake_height(height, distance) / 2;
    if top <= 0 {
        0
    } else {
        top / (ONE as int)
    }
}

/// The row after the last row of the wall slab, cut at the bottom of the
/// screen.
pub open spec fn stake_bottom(height: int, distance: int) -> int {
    let bottom = (height * HALF + stake_height(height, distance) / 2) / (ONE as int);
    if bottom > height {
        height
    } else {
        bottom
    }
}

/// The texture column for a hit at `bx` across the face.
pub open spec fn stake_texel_x(bx: int, texture_width: int) -> int {
    bx * texture_width / (ONE as int)
}

/// The texture row for screen row `y` of a slab that starts at row `top` and
/// is `stake` tall.
pub open spec fn stake_texel_y(stake: int, top: int, y: int, texture_height: int) -> int {
    (y - top) * ONE * texture_height / stake
}

/// The color of row `y` of the slab of a wall hit.
pub open spec fn wall_color(textures: &GameTextures, hit: Intersect, height: int, y: int) -> Color {
    match texture_for(hit.impact, textures) {
        Some(texture) => texture.sampled(
            stake_texel_x(hit.bx as int, texture.width as int),
            stake_texel_y(
                stake_height(height, hit.distance as int),
                stake_top(height, hit.distance as int),
                y,
                texture.height as int,
            ),
        ),
        None => cell_color(hit.impact),
    }
}

/// The pixel `(x, y)` once the wall of its column is drawn over `under`:
/// the wall's color inside the slab, and `under` outside it or where the
/// ray of the column found no wall.
pub open spec fn wall_pixel(data: &Model, ray: Direction, y: int, under: u32) -> u32 {
    let height = data.framebuffer_dimensions.1 as int;
    match cast_result(&data.board, data.player.position, ray) {
        Ok(hit) => if stake_top(height, hit.distance as int) <= y < stake_bottom(
            height,
            hit.distance as int,
        ) {
            wall_color(&data.textures, hit, height, y).hex()
        } else {
            under
        },
        Err(_) => under,
    }
}

/// The depth of a column: the distance of the wall that its ray found, or
/// `Z_FAR` where it found none.
pub open spec fn depth_of(data: &Model, ray: Direction) -> i64 {
    match cast_result(&data.board, data.player.position, ray) {
        Ok(hit) => hit.distance,
        Err(_) => Z_FAR,
    }
}

/// The slab of a wall at `distance`: its height in fixed point, its first
/// row and the row after its last.
pub fn stake_extent(height: usize, distance: i64) -> (extent: (i64, usize, usize))
    requires
        0 < height <= MAX_DIMENSION,
        distance >= ONE,
    ensures
        extent.0 == stake_height(height as int, distance as int),
        extent.1 == stake_top(height as int, distance as int),
        extent.2 == stake_bottom(height as int, distance as int),
        extent.1 <= extent.2 <= height,
        extent.1 < extent.2 ==> extent.0 >= 2,
        0 <= extent.0 <= MAX_STAKE,
{
    let half: i64 = (height as i64) * HALF;
    proof {
        lemma_mul_bounded(half as int, PROJECTION_PLANE as int, 536_870_912, 1_235_324);
        lemma_div_shrinks(half * PROJECTION_PLANE, distance as int);
    }
    let stake: i64 = half * PROJECTION_PLANE / distance;
    let top_fixed: i64 = half - stake / 2;
    let bottom_fixed: i64 = half + stake / 2;
    let top: usize = if top_fixed <= 0 {
        0
    } else {
        (top_fixed / ONE) as usize
    };
    let bottom_row: i64 = bottom_fixed / ONE;
    let bottom: usize = if bottom_row > height as i64 {
        height
    } else {
        bottom_row as usize
    };
    (stake, top, bottom)
}

/// Draws the slab of one wall hit into its screen column.
pub fn render_stake(framebuffer: &mut Framebuffer, data: &Model, column: usize, hit: &Intersect)
    requires
        old(framebuffer).wf(),
        data.wf(),
        old(framebuffer).width == data.framebuffer_dimensions.0,
        old(framebuffer).height == data.framebuffer_dimensions.1,
        column < old(framebuffer).width,
        hit.distance >= ONE,
        0 <= hit.bx < ONE,
    ensures
        final(framebuffer).wf(),
        final(framebuffer).same_frame(old(framebuffer)),
        forall|x: int, y: int|
            old(framebuffer).contains(x, y) ==> #[trigger] final(framebuffer).pixel(x, y) == if x
                == column && stake_top(old(framebuffer).height as int, hit.distance as int) <= y
                < stake_bottom(old(framebuffer).height as int, hit.distance as int) {
                wall_color(&data.textures, *hit, old(framebuffer).height as int, y).hex()
            } else {
                old(framebuffer).pixel(x, y)
            },
{
    let width: usize = framebuffer.width;
    let height: usize = framebuffer.height;
    let (stake, top, bottom) = stake_extent(height, hit.distance);
    let mut y: usize = top;
    while y < bottom
        invariant
            framebuffer.wf(),
            data.wf(),
            framebuffer.same_frame(old(framebuffer)),
            width == framebuffer.width,
            height == framebuffer.height,
            height == data.framebuffer_dimensions.1,
            column < width,
            0 <= hit.bx < ONE,
            stake == stake_height(height as int, hit.distance as int),
            top == stake_top(height as int, hit.distance as int),
            bottom == stake_bottom(height as int, hit.distance as int),
            bottom <= height,
            top < bottom ==> stake >= 2,
            stake <= MAX_STAKE,
            top <= y <= bottom,
            forall|px: int, py: int|
                framebuffer.contains(px, py) ==> #[trigger] framebuffer.pixel(px, py) == if px
                    == column && top <= py < y {
                    wall_color(&data.textures, *hit, height as int, py).hex()
                } else {
                    old(framebuffer).pixel(px, py)
                },
        decreases bottom - y,
    {
        let color: Color = match from_char_to_texture(&hit.impact, &data.textures) {
            Some(texture) => {
                proof {
                    lemma_mul_bounded((y - top) as int, ONE as int, 16384, 65536);
                    lemma_mul_bounded(
                        (y - top) * ONE,
                        texture.height as int,
                        1_073_741_824,
                        0xffff_ffff,
                    );
                    lemma_mul_bounded(hit.bx as int, texture.width as int, 65536, 0xffff_ffff);
                }
                let ty: i128 = ((y - top) as i128) * (ONE as i128) * (texture.height as i128) / (
                stake as i128);
                let tx: i128 = (hit.bx as i128) * (texture.width as i128) / (ONE as i128);
                texture.sample(tx, ty)
            },
            None => from_cell_to_color(&hit.impact),
        };
        let center: i64 = distance_from_center(width, height, column, y);
        framebuffer.paint(
            column as i64,
            y as i64,
            apply_lantern_effect(&color, center, (width as i64) * ONE),
        );
        y += 1;
    }
}

/// A screen column whose ray found no wall, and why it found none.
#[derive(Clone, Copy, Debug, PartialEq, Eq, Structural)]
pub struct RenderError {
    pub column: usize,
    pub cause: CastError,
}

/// The rays of the first `count` columns all found a wall.
pub open spec fn rays_found_walls(data: &Model, rays: Seq<Direction>, count: int) -> bool {
    forall|x: int|
        0 <= x < count ==> (#[trigger] cast_result(&data.board, data.player.position, rays[x]))
            is Ok
}

/// `miss` names the first column whose ray found no wall.
pub open spec fn first_miss(data: &Model, rays: Seq<Direction>, miss: RenderError) -> bool {
    &&& miss.column < rays.len()
    &&& cast_result(&data.board, data.player.position, rays[miss.column as int]) == Err::<
        Intersect,
        CastError,
    >(miss.cause)
    &&& rays_found_walls(data, rays, miss.column as int)
}

/// What drawing the walls leaves: every pixel as `wall_pixel` gives it, and
/// in `z_buffer` the depth of every column.
pub open spec fn walls_drawn(
    before: &Framebuffer,
    after: &Framebuffer,
    z_buffer: Seq<i64>,
    data: &Model,
    rays: Seq<Direction>,
) -> bool {
    &&& after.same_frame(before)
    &&& z_buffer.len() == before.width
    &&& forall|x: int| 0 <= x < before.width ==> #[trigger] z_buffer[x] == depth_of(data, rays[x])
    &&& forall|x: int, y: int|
        before.contains(x, y) ==> #[trigger] after.pixel(x, y) == wall_pixel(
            data,
            rays[x],
            y,
            before.pixel(x, y),
        )
}

/// The wall projector: casts the ray of every screen column, draws the slab
/// of the wall that it found, and records its distance. A column whose ray
/// found no wall is left as it was, at depth `Z_FAR`.
pub fn render_walls(framebuffer: &mut Framebuffer, data: &Model, rays: &Vec<Direction>) -> (drawn: (
    Vec<i64>,
    Option<RenderError>,
))
    requires
        old(framebuffer).wf(),
        data.wf(),
        old(framebuffer).width == data.framebuffer_dimensions.0,
        old(framebuffer).height == data.framebuffer_dimensions.1,
        rays@.len() == old(framebuffer).width,
        forall|x: int| 0 <= x < rays@.len() ==> (#[trigger] rays@[x]).wf(),
    ensures
        final(framebuffer).wf(),
        walls_drawn(old(framebuffer), final(framebuffer), drawn.0@, data, rays@),
        match drawn.1 {
            None => rays_found_walls(data, rays@, rays@.len() as int),
            Some(miss) => first_miss(data, rays@, miss),
        },
{
    let width: usize = framebuffer.width;
    let mut z_buffer: Vec<i64> = Vec::new();
    let mut missed: Option<RenderError> = None;
    let mut x: usize = 0;
    while x < width
        invariant
            framebuffer.wf(),
            data.wf(),
            framebuffer.same_frame(old(framebuffer)),
            width == framebuffer.width,
            framebuffer.width == data.framebuffer_dimensions.0,
            framebuffer.height == data.framebuffer_dimensions.1,
            rays@.len() == width,
            forall|i: int| 0 <= i < rays@.len() ==> (#[trigger] rays@[i]).wf(),
            x <= width,
            z_buffer@.len() == x,
            forall|i: int| 0 <= i < x ==> #[trigger] z_buffer@[i] == depth_of(data, rays@[i]),
            match missed {
                None => rays_found_walls(data, rays@, x as int),
                Some(miss) => miss.column < x && first_miss(data, rays@, miss),
            },
            forall|px: int, py: int|
                framebuffer.contains(px, py) ==> #[trigger] framebuffer.pixel(px, py) == if px < x {
                    wall_pixel(data, rays@[px], py, old(framebuffer).pixel(px, py))
                } else {
                    old(framebuffer).pixel(px, py)
                },
        decreases width - x,
    {
        let ray: Direction = rays[x];
        match cast_ray_3d(framebuffer, data, ray) {
            Ok(hit) => {
                z_buffer.push(hit.distance);
                proof {
                    crate::raycaster::lemma_cast_offset_in_range(
                        &data.board,
                        data.player.position,
                        ray,
                    );
                    crate::raycaster::lemma_cast_distance(&data.board, data.player.position, ray);
                }
                render_stake(framebuffer, data, x, &hit);
            },
            Err(cause) => {
                z_buffer.push(Z_FAR);
                if missed.is_none() {
                    missed = Some(RenderError { column: x, cause });
                }
            },
        }
        x += 1;
    }
    (z_buffer, missed)
}

/// Drawing the walls depends on nothing but the framebuffer it starts from,
/// the model and the rays: two runs from one framebuffer leave the same
/// pixels and the same depths.
pub proof fn lemma_walls_deterministic(
    before: Framebuffer,
    first: Framebuffer,
    second: Framebuffer,
    first_depths: Seq<i64>,
    second_depths: Seq<i64>,
    data: &Model,
    rays: Seq<Direction>,
)
    requires
        before.wf(),
        first.wf(),
        second.wf(),
        walls_drawn(&before, &first, first_depths, data, rays),
        walls_drawn(&before, &second, second_depths, data, rays),
    ensures
        first.buffer@ == second.buffer@,
        first_depths == second_depths,
{
    assert forall|x: int, y: int| first.contains(x, y) implies #[trigger] first.pixel(x, y)
        == second.pixel(x, y) by {
        assert(before.contains(x, y));
    }
    crate::framebuffer::lemma_same_pixels_same_buffer(first, second);
    assert(first_depths =~= second_depths);
}

/// Drawing the walls a second time over the result of the first changes
/// nothing: no pixel and no depth.
pub proof fn lemma_walls_idempotent(
    before: Framebuffer,
    once: Framebuffer,
    twice: Framebuffer,
    first_depths: Seq<i64>,
    second_depths: Seq<i64>,
    data: &Model,
    rays: Seq<Direction>,
)
    requires
        before.wf(),
        once.wf(),
        twice.wf(),
        walls_drawn(&before, &once, first_depths, data, rays),
        walls_drawn(&once, &twice, second_depths, data, rays),
    ensures
        twice.buffer@ == once.buffer@,
        second_depths == first_depths,
{
    assert forall|x: int, y: int| twice.contains(x, y) implies #[trigger] twice.pixel(x, y)
        == once.pixel(x, y) by {
        assert(before.contains(x, y));
        assert(once.contains(x, y));
        assert(once.pixel(x, y) == wall_pixel(data, rays[x], y, before.pixel(x, y)));
    }
    crate::framebuffer::lemma_same_pixels_same_buffer(twice, once);
    assert(second_depths =~= first_depths);
}

/// The pixel `(x, y)` once the moon of the model is drawn over `under`.
pub open spec fn model_moon_pixel(data: &Model, x: int, y: int, under: u32) -> u32 {
    moon_pixel(
        moon_disc(data.moon_phase as int, data.framebuffer_dimensions.0 as int),
        &data.textures.moon,
        x,
        y,
        under,
    )
}

/// Draws the moon where its phase puts it.
pub fn render_moon(framebuffer: &mut Framebuffer, data: &Model)
    requires
        old(framebuffer).wf(),
        data.wf(),
        old(framebuffer).width == data.framebuffer_dimensions.0,
        old(framebuffer).height == data.framebuffer_dimensions.1,
    ensures
        final(framebuffer).wf(),
        final(framebuffer).same_frame(old(framebuffer)),
        forall|x: int, y: int|
            old(framebuffer).contains(x, y) ==> #[trigger] final(framebuffer).pixel(x, y)
                == model_moon_pixel(data, x, y, old(framebuffer).pixel(x, y)),
{
    let disc = locate_moon(data.moon_phase, framebuffer.width);
    draw_moon(framebuffer, &disc, &data.textures.moon);
}

/// The rectangle on screen of sprite `k` of the model, seen at the `k`-th
/// bearing.
pub open spec fn bunny_rect(data: &Model, bearings: Seq<i64>, k: int) -> SpriteRect {
    sprite_rect(
        data.player,
        data.lolibunnies@[k].position,
        bearings[k] as int,
        data.framebuffer_dimensions.0 as int,
        data.framebuffer_dimensions.1 as int,
        data.textures.lolibunny.width as int,
        data.textures.lolibunny.height as int,
    )
}

/// The pixel `(x, y)` once the first `count` sprites of the model are drawn
/// over `under`, each over the ones before it.
pub open spec fn bunnies_pixel(
    data: &Model,
    bearings: Seq<i64>,
    z_buffer: Seq<i64>,
    count: nat,
    x: int,
    y: int,
    under: u32,
) -> u32
    decreases count,
{
    if count == 0 {
        under
    } else {
        sprite_pixel(
            bunny_rect(data, bearings, count - 1),
            &data.textures.lolibunny,
            z_buffer,
            x,
            y,
            bunnies_pixel(data, bearings, z_buffer, (count - 1) as nat, x, y, under),
        )
    }
}

/// No sprite is drawn in a column in which a wall is at least as near as
/// each of them: the pixels of the column stay as they were.
pub proof fn lemma_sprites_leave_occluded_column(
    data: &Model,
    bearings: Seq<i64>,
    z_buffer: Seq<i64>,
    count: nat,
    x: int,
    y: int,
    under: u32,
)
    requires
        forall|k: int|
            0 <= k < count ==> (#[trigger] bunny_rect(data, bearings, k)).distance >= z_buffer[x],
    ensures
        bunnies_pixel(data, bearings, z_buffer, count, x, y, under) == under,
    decreases count,
{
    if count > 0 {
        lemma_sprites_leave_occluded_column(
            data,
            bearings,
            z_buffer,
            (count - 1) as nat,
            x,
            y,
            under,
        );
        assert(bunny_rect(data, bearings, count - 1).distance >= z_buffer[x]);
    }
}

/// Draws every sprite of the model behind the walls, in the order of the
/// model. `bearings` holds, for each sprite, the angle at which the player
/// sees it.
pub fn render_lolibunny(
    framebuffer: &mut Framebuffer,
    data: &Model,
    z_buffer: &Vec<i64>,
    bearings: &Vec<i64>,
)
    requires
        old(framebuffer).wf(),
        data.wf(),
        old(framebuffer).width == data.framebuffer_dimensions.0,
        old(framebuffer).height == data.framebuffer_dimensions.1,
        z_buffer@.len() == old(framebuffer).width,
        bearings@.len() == data.lolibunnies@.len(),
        forall|k: int|
            0 <= k < bearings@.len() ==> -MAX_ANGLE <= #[trigger] bearings@[k] <= MAX_ANGLE,
    ensures
        final(framebuffer).wf(),
        final(framebuffer).same_frame(old(framebuffer)),
        forall|x: int, y: int|
            old(framebuffer).contains(x, y) ==> #[trigger] final(framebuffer).pixel(x, y)
                == bunnies_pixel(
                data,
                bearings@,
                z_buffer@,
                data.lolibunnies@.len(),
                x,
                y,
                old(framebuffer).pixel(x, y),
            ),
{
    let count: usize = data.lolibunnies.len();
    let mut k: usize = 0;
    while k < count
        invariant
            framebuffer.wf(),
            data.wf(),
            framebuffer.same_frame(old(framebuffer)),
            framebuffer.width == data.framebuffer_dimensions.0,
            framebuffer.height == data.framebuffer_dimensions.1,
            z_buffer@.len() == framebuffer.width,
            count == data.lolibunnies@.len(),
            bearings@.len() == count,
            forall|i: int|
                0 <= i < bearings@.len() ==> -MAX_ANGLE <= #[trigger] bearings@[i] <= MAX_ANGLE,
            k <= count,
            forall|x: int, y: int|
                framebuffer.contains(x, y) ==> #[trigger] framebuffer.pixel(x, y) == bunnies_pixel(
                    data,
                    bearings@,
                    z_buffer@,
                    k as nat,
                    x,
                    y,
                    old(framebuffer).pixel(x, y),
                ),
        decreases count - k,
    {
        let rect = project_sprite(
            &data.player,
            data.lolibunnies[k].position,
            bearings[k],
            framebuffer.width,
            framebuffer.height,
            data.textures.lolibunny.width,
            data.textures.lolibunny.height,
        );
        composite_sprite(framebuffer, &rect, &data.textures.lolibunny, z_buffer);
        k += 1;
    }
}

/// Places a position of the frame on the minimap: a fifth of the frame in
/// size, a padding away from its far corner.
pub fn scale_to_fit(framebuffer: &Framebuffer, v: Point) -> (scaled: Point)
    requires
        framebuffer.wf(),
        0 <= v.x <= MAX_MAPPED,
        0 <= v.y <= MAX_MAPPED,
    ensures
        scaled.x == mapped(v.x as int, framebuffer.width as int),
        scaled.y == mapped(v.y as int, framebuffer.height as int),
{
    Point {
        x: map_coordinate(v.x, framebuffer.width),
        y: map_coordinate(v.y, framebuffer.height),
    }
}

/// What a frame is drawn from besides the model: the time, and the
/// trigonometry of the pose, which the caller works out.
pub struct FrameInput {
    /// The time that has passed, in milliseconds.
    pub elapsed_millis: u64,
    /// The direction of the ray of each screen column, from left to right.
    pub rays: Vec<Direction>,
    /// The directions of the `FAN_RAYS` rays traced on the minimap, spread
    /// over the field of view from its left edge on.
    pub fan: Vec<Direction>,
    /// For each sprite of the model, the angle at which the player sees it.
    pub bearings: Vec<i64>,
}

impl FrameInput {
    /// There is a ray for each screen column, the fan holds `FAN_RAYS` rays,
    /// there is a bearing for each sprite, and every direction and bearing
    /// is well formed.
    pub open spec fn wf(&self, data: &Model) -> bool {
        &&& self.rays@.len() == data.framebuffer_dimensions.0
        &&& forall|x: int| 0 <= x < self.rays@.len() ==> (#[trigger] self.rays@[x]).wf()
        &&& self.fan@.len() == FAN_RAYS
        &&& forall|k: int| 0 <= k < self.fan@.len() ==> (#[trigger] self.fan@[k]).wf()
        &&& self.bearings@.len() == data.lolibunnies@.len()
        &&& forall|k: int|
            0 <= k < self.bearings@.len() ==> -MAX_ANGLE <= #[trigger] self.bearings@[k]
                <= MAX_ANGLE
    }

    /// Tells whether the input is well formed for a model.
    pub fn is_well_formed(&self, data: &Model) -> (valid: bool)
        ensures
            valid == self.wf(data),
    {
        if self.rays.len() != data.framebuffer_dimensions.0 || self.fan.len() != FAN_RAYS
            || self.bearings.len() != data.lolibunnies.len() {
            return false;
        }
        let mut x: usize = 0;
        while x < self.rays.len()
            invariant
                x <= self.rays@.len(),
                forall|i: int| 0 <= i < x ==> (#[trigger] self.rays@[i]).wf(),
            decreases self.rays@.len() - x,
        {
            if !self.rays[x].is_well_formed() {
                return false;
            }
            x += 1;
        }
        let mut k: usize = 0;
        while k < self.fan.len()
            invariant
                k <= self.fan@.len(),
                forall|i: int| 0 <= i < k ==> (#[trigger] self.fan@[i]).wf(),
            decreases self.fan@.len() - k,
        {
            if !self.fan[k].is_well_formed() {
                return false;
            }
            k += 1;
        }
        let mut b: usize = 0;
        while b < self.bearings.len()
            invariant
                b <= self.bearings@.len(),
                forall|i: int|
                    0 <= i < b ==> -MAX_ANGLE <= #[trigger] self.bearings@[i] <= MAX_ANGLE,
            decreases self.bearings@.len() - b,
        {
            if self.bearings[b] < -MAX_ANGLE || self.bearings[b] > MAX_ANGLE {
                return false;
            }
            b += 1;
        }
        true
    }
}

/// The angle of ray `index` of `count` rays spread evenly over the field of
/// view, from its left edge on, in fixed-point radians.
pub open spec fn ray_angle_of(player: Player, index: int, count: int) -> int {
    player.orientation - player.fov / 2 + player.fov * index / count
}

/// The angle of ray `index` of `count` rays spread evenly over the field of
/// view.
pub fn ray_angle(player: &Player, index: usize, count: usize) -> (angle: i64)
    requires
        player.wf(),
        0 < count <= MAX_DIMENSION,
        index <= count,
    ensures
        angle == ray_angle_of(*player, index as int, count as int),
{
    proof {
        lemma_mul_bounded(player.fov as int, index as int, 524_288, 16384);
        assert(player.fov * index >= 0) by (nonlinear_arith)
            requires
                player.fov > 0,
                index >= 0,
        ;
        lemma_div_shrinks(player.fov * index, count as int);
    }
    player.orientation - player.fov / 2 + player.fov * (index as i64) / (count as i64)
}

/// The depth of every screen column.
pub open spec fn depths(data: &Model, rays: Seq<Direction>) -> Seq<i64> {
    Seq::new(data.framebuffer_dimensions.0 as nat, |x: int| depth_of(data, rays[x]))
}

/// The pixel `(x, y)` of the scene drawn over `under`: the moon, then the
/// walls, then the sprites behind the walls, then the minimap.
pub open spec fn scene_pixel(data: &Model, input: &FrameInput, x: int, y: int, under: u32) -> u32 {
    minimap_pixel(
        data,
        input.fan@,
        x,
        y,
        bunnies_pixel(
            data,
            input.bearings@,
            depths(data, input.rays@),
            data.lolibunnies@.len(),
            x,
            y,
            wall_pixel(data, input.rays@[x], y, model_moon_pixel(data, x, y, under)),
        ),
    )
}

/// The frame of an animation that plays at a time.
pub open spec fn playing_frame(elapsed_millis: u64, frame_count: usize) -> int {
    frame_at(elapsed_millis as int, FRAME_PERIOD as int, frame_count as int)
}

/// The pixel `(x, y)` of a frame drawn over `under`: the image of the
/// status outside the game, and the scene in it.
pub open spec fn frame_pixel(data: &Model, input: &FrameInput, x: int, y: int, under: u32) -> u32 {
    let width = data.framebuffer_dimensions.0 as int;
    let height = data.framebuffer_dimensions.1 as int;
    match data.status {
        GameStatus::SplashScreen => animated_pixel(
            &data.textures.splash_screen,
            playing_frame(input.elapsed_millis, data.textures.splash_screen.frame_count),
            width,
            height,
            x,
            y,
        ),
        GameStatus::MainMenu => still_pixel(&data.textures.start_screen, width, height, x, y),
        GameStatus::YouLost => animated_pixel(
            &data.textures.loose_screen,
            playing_frame(input.elapsed_millis, data.textures.loose_screen.frame_count),
            width,
            height,
            x,
            y,
        ),
        GameStatus::YouWon => animated_pixel(
            &data.textures.win_screen,
            playing_frame(input.elapsed_millis, data.textures.win_screen.frame_count),
            width,
            height,
            x,
            y,
        ),
        GameStatus::Gaming => scene_pixel(data, input, x, y, under),
    }
}

/// What drawing a frame reports: nothing outside the game; in the game, the
/// first screen column whose ray found no wall, if there is one.
pub open spec fn frame_verdict(
    data: &Model,
    input: &FrameInput,
    verdict: Result<(), RenderError>,
) -> bool {
    if data.status is Gaming {
        match verdict {
            Ok(_) => rays_found_walls(data, input.rays@, input.rays@.len() as int),
            Err(miss) => first_miss(data, input.rays@, miss),
        }
    } else {
        verdict is Ok
    }
}

/// Draws the scene: the moon, the walls, the sprites and the minimap.
pub fn render_scene(framebuffer: &mut Framebuffer, data: &Model, input: &FrameInput) -> (verdict:
    Result<(), RenderError>)
    requires
        old(framebuffer).wf(),
        data.wf(),
        input.wf(data),
        old(framebuffer).width == data.framebuffer_dimensions.0,
        old(framebuffer).height == data.framebuffer_dimensions.1,
    ensures
        final(framebuffer).wf(),
        final(framebuffer).same_frame(old(framebuffer)),
        forall|x: int, y: int|
            old(framebuffer).contains(x, y) ==> #[trigger] final(framebuffer).pixel(x, y)
                == scene_pixel(data, input, x, y, old(framebuffer).pixel(x, y)),
        match verdict {
            Ok(_) => rays_found_walls(data, input.rays@, input.rays@.len() as int),
            Err(miss) => first_miss(data, input.rays@, miss),
        },
{
    render_moon(framebuffer, data);
    let ghost with_moon = *framebuffer;
    let (z_buffer, missed) = render_walls(framebuffer, data, &input.rays);
    let ghost with_walls = *framebuffer;
    proof {
        assert(z_buffer@ =~= depths(data, input.rays@));
    }
    render_lolibunny(framebuffer, data, &z_buffer, &input.bearings);
    let ghost with_sprites = *framebuffer;
    render_minimap(framebuffer, data, &input.fan);
    proof {
        assert forall|x: int, y: int| old(framebuffer).contains(x, y) implies
            #[trigger] framebuffer.pixel(
            x,
            y,
        ) == scene_pixel(data, input, x, y, old(framebuffer).pixel(x, y)) by {
            assert(with_moon.contains(x, y));
            assert(with_walls.contains(x, y));
            assert(with_sprites.contains(x, y));
            assert(with_moon.pixel(x, y) == model_moon_pixel(
                data,
                x,
                y,
                old(framebuffer).pixel(x, y),
            ));
            assert(with_walls.pixel(x, y) == wall_pixel(
                data,
                input.rays@[x],
                y,
                with_moon.pixel(x, y),
            ));
            assert(with_sprites.pixel(x, y) == bunnies_pixel(
                data,
                input.bearings@,
                z_buffer@,
                data.lolibunnies@.len(),
                x,
                y,
                with_walls.pixel(x, y),
            ));
        }
    }
    match missed {
        None => Ok(()),
        Some(miss) => Err(miss),
    }
}

/// Draws a frame over what the framebuffer holds: outside the game the
/// image of the status, stretched over the frame, and in the game the scene.
pub fn render3d(
    framebuffer: &mut Framebuffer,
    data: &Model,
    input: &FrameInput,
) -> (verdict: Result<(), RenderError>)
    requires
        old(framebuffer).wf(),
        data.wf(),
        input.wf(data),
        old(framebuffer).width == data.framebuffer_dimensions.0,
        old(framebuffer).height == data.framebuffer_dimensions.1,
    ensures
        final(framebuffer).wf(),
        final(framebuffer).same_frame(old(framebuffer)),
        forall|x: int, y: int|
            old(framebuffer).contains(x, y) ==> #[trigger] final(framebuffer).pixel(x, y)
                == frame_pixel(data, input, x, y, old(framebuffer).pixel(x, y)),
        frame_verdict(data, input, verdict),
{
    match data.status {
        GameStatus::SplashScreen => {
            let texture = &data.textures.splash_screen;
            let frame: usize = frame_index(input.elapsed_millis, FRAME_PERIOD, texture.frame_count);
            render_animated_screen(framebuffer, texture, frame);
            Ok(())
        },
        GameStatus::MainMenu => {
            render_still_screen(framebuffer, &data.textures.start_screen);
            Ok(())
        },
        GameStatus::YouLost => {
            let texture = &data.textures.loose_screen;
            let frame: usize = frame_index(input.elapsed_millis, FRAME_PERIOD, texture.frame_count);
            render_animated_screen(framebuffer, texture, frame);
            Ok(())
        },
        GameStatus::YouWon => {
            let texture = &data.textures.win_screen;
            let frame: usize = frame_index(input.elapsed_millis, FRAME_PERIOD, texture.frame_count);
            render_animated_screen(framebuffer, texture, frame);
            Ok(())
        },
        GameStatus::Gaming => render_scene(framebuffer, data, input),
    }
}

/// Draws a frame over the saved background.
pub fn render(framebuffer: &mut Framebuffer, data: &Model, input: &FrameInput) -> (verdict: Result<
    (),
    RenderError,
>)
    requires
        old(framebuffer).wf(),
        data.wf(),
        input.wf(data),
        old(framebuffer).width == data.framebuffer_dimensions.0,
        old(framebuffer).height == data.framebuffer_dimensions.1,
    ensures
        final(framebuffer).wf(),
        final(framebuffer).same_frame(old(framebuffer)),
        forall|x: int, y: int|
            old(framebuffer).contains(x, y) ==> #[trigger] final(framebuffer).pixel(x, y)
                == frame_pixel(data, input, x, y, old(framebuffer).background_pixel(x, y)),
        frame_verdict(data, input, verdict),
{
    framebuffer.clear();
    let ghost cleared = *framebuffer;
    let verdict = render3d(framebuffer, data, input);
    proof {
        assert forall|x: int, y: int| old(framebuffer).contains(x, y) implies
            #[trigger] framebuffer.pixel(
            x,
            y,
        ) == frame_pixel(data, input, x, y, old(framebuffer).background_pixel(x, y)) by {
            assert(cleared.contains(x, y));
            assert(cleared.pixel(x, y) == old(framebuffer).background_pixel(x, y));
        }
    }
    verdict
}

/// Paints the backdrop of sky and ground, saves it as the background of
/// every frame to come, and draws the first frame over it.
pub fn init_render(framebuffer: &mut Framebuffer, data: &Model, input: &FrameInput) -> (verdict:
    Result<(), RenderError>)
    requires
        old(framebuffer).wf(),
        data.wf(),
        input.wf(data),
        old(framebuffer).width == data.framebuffer_dimensions.0,
        old(framebuffer).height == data.framebuffer_dimensions.1,
    ensures
        final(framebuffer).wf(),
        final(framebuffer).width == old(framebuffer).width,
        final(framebuffer).height == old(framebuffer).height,
        forall|x: int, y: int|
            old(framebuffer).contains(x, y) ==> #[trigger] final(framebuffer).background_pixel(x, y)
                == backdrop_pixel(old(framebuffer).height as int, y),
        forall|x: int, y: int|
            old(framebuffer).contains(x, y) ==> #[trigger] final(framebuffer).pixel(x, y)
                == frame_pixel(
                data,
                input,
                x,
                y,
                backdrop_pixel(old(framebuffer).height as int, y),
            ),
        frame_verdict(data, input, verdict),
{
    render_backdrop(framebuffer);
    let ghost painted = *framebuffer;
    framebuffer.save_as_background();
    let ghost saved = *framebuffer;
    let verdict = render(framebuffer, data, input);
    proof {
        assert forall|x: int, y: int| old(framebuffer).contains(x, y) implies
            #[trigger] framebuffer.background_pixel(
            x,
            y,
        ) == backdrop_pixel(old(framebuffer).height as int, y) by {
            assert(painted.contains(x, y));
            assert(saved.background_pixel(x, y) == painted.pixel(x, y));
        }
        assert forall|x: int, y: int| old(framebuffer).contains(x, y) implies
            #[trigger] framebuffer.pixel(
            x,
            y,
        ) == frame_pixel(data, input, x, y, backdrop_pixel(old(framebuffer).height as int, y)) by {
            assert(painted.contains(x, y));
            assert(saved.contains(x, y));
            assert(saved.background_pixel(x, y) == painted.pixel(x, y));
        }
    }
    verdict
}

} // verus!
