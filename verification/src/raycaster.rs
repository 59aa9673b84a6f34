//! The ray intersector: a march through the grid in steps of one pixel.

use vstd::prelude::*;
use crate::color::Color;
use crate::fixed::{lemma_div_below, lemma_mul_bounded, lemma_mul_monotone, ONE};
use crate::framebuffer::Framebuffer;
use crate::minimap::{map_coordinate, mapped_pixel, pixel_at};
use crate::{Board, BoardCell, Direction, Model, Player, Point};

verus! {

/// More steps than any ray can take on a well-formed board.
pub const MAX_RAY_STEPS: i64 = 32768;

/// Where a ray met a wall.
#[derive(Clone, Copy, Debug, PartialEq, Eq, Structural)]
pub struct Intersect {
    /// The length of the ray, in fixed-point pixels.
    pub distance: i64,
    /// The wall that was hit.
    pub impact: BoardCell,
    /// Where across the face the ray hit, in `[0, ONE)`.
    pub bx: i64,
}

/// Why a ray met no wall.
#[derive(Clone, Copy, Debug, PartialEq, Eq, Structural)]
pub enum CastError {
    /// The ray starts outside the grid.
    OriginOutside,
    /// The ray starts inside a solid cell.
    OriginSolid,
    /// The ray leaves the grid before it reaches a solid cell.
    NoHit,
}

/// The horizontal position of a ray after `d` steps.
pub open spec fn ray_x(origin: Point, direction: Direction, d: int) -> int {
    origin.x + d * direction.cos
}

/// The vertical position of a ray after `d` steps.
pub open spec fn ray_y(origin: Point, direction: Direction, d: int) -> int {
    origin.y + d * direction.sin
}

/// After `d` steps the ray is on the grid in a cell that is not solid.
pub open spec fn passable_after(
    board: &Board,
    origin: Point,
    direction: Direction,
    d: int,
) -> bool {
    board.passable_at(ray_x(origin, direction, d), ray_y(origin, direction, d))
}

/// After `d` steps the ray is on the grid in a solid cell.
pub open spec fn solid_after(board: &Board, origin: Point, direction: Direction, d: int) -> bool {
    board.solid_at(ray_x(origin, direction, d), ray_y(origin, direction, d))
}

/// The ray reaches its first solid cell after exactly `d` steps, having
/// stayed on the grid all the way.
pub open spec fn first_wall(board: &Board, origin: Point, direction: Direction, d: int) -> bool {
    &&& 0 <= d
    &&& solid_after(board, origin, direction, d)
    &&& forall|k: int| 0 <= k < d ==> #[trigger] passable_after(board, origin, direction, k)
}

/// Where across the face of its cell the position `(x, y)` lies, in
/// `[0, ONE)`: the horizontal offset into the cell when that is more than a
/// pixel away from both sides, and the vertical offset otherwise.
pub open spec fn face_offset(board: &Board, x: int, y: int) -> int {
    let hit_x = x % board.cell_width();
    let hit_y = y % board.cell_height();
    if ONE < hit_x && hit_x < board.cell_width() - ONE {
        hit_x * ONE / board.cell_width()
    } else {
        hit_y * ONE / board.cell_height()
    }
}

/// What a ray that reaches its first wall after `d` steps reports.
pub open spec fn intersect_after(
    board: &Board,
    origin: Point,
    direction: Direction,
    d: int,
) -> Intersect {
    let x = ray_x(origin, direction, d);
    let y = ray_y(origin, direction, d);
    Intersect {
        distance: (d * ONE) as i64,
        impact: board.cell_at(x, y),
        bx: face_offset(board, x, y) as i64,
    }
}

/// What casting a ray gives.
pub open spec fn cast_result(board: &Board, origin: Point, direction: Direction) -> Result<
    Intersect,
    CastError,
> {
    if !board.in_grid(origin.x as int, origin.y as int) {
        Err(CastError::OriginOutside)
    } else if board.cell_at(origin.x as int, origin.y as int).is_solid() {
        Err(CastError::OriginSolid)
    } else if exists|d: int| first_wall(board, origin, direction, d) {
        Ok(
            intersect_after(
                board,
                origin,
                direction,
                choose|d: int| first_wall(board, origin, direction, d),
            ),
        )
    } else {
        Err(CastError::NoHit)
    }
}

/// A ray has at most one first wall.
pub proof fn lemma_first_wall_unique(
    board: &Board,
    origin: Point,
    direction: Direction,
    d1: int,
    d2: int,
)
    requires
        first_wall(board, origin, direction, d1),
        first_wall(board, origin, direction, d2),
    ensures
        d1 == d2,
{
    if d1 < d2 {
        assert(passable_after(board, origin, direction, d1));
    } else if d2 < d1 {
        assert(passable_after(board, origin, direction, d2));
    }
}

/// One of the two components of a direction is at least a half.
pub proof fn lemma_direction_dominant(direction: Direction)
    requires
        direction.wf(),
    ensures
        direction.cos >= 32768 || direction.cos <= -32768 || direction.sin >= 32768
            || direction.sin <= -32768,
{
    let c = direction.cos as int;
    let s = direction.sin as int;
    if -32768 < c < 32768 && -32768 < s < 32768 {
        lemma_mul_bounded(c, c, 32767, 32767);
        lemma_mul_bounded(s, s, 32767, 32767);
        assert(false);
    }
}

/// A ray that starts on the grid and is on the grid after `d` steps has
/// taken fewer than `MAX_RAY_STEPS` steps.
pub proof fn lemma_steps_on_grid(board: &Board, origin: Point, direction: Direction, d: int)
    requires
        board.wf(),
        direction.wf(),
        0 <= d,
        board.in_grid(origin.x as int, origin.y as int),
        board.in_grid(ray_x(origin, direction, d), ray_y(origin, direction, d)),
    ensures
        d < MAX_RAY_STEPS,
{
    lemma_direction_dominant(direction);
    let c = direction.cos as int;
    let s = direction.sin as int;
    if c >= 32768 {
        lemma_mul_monotone(32768, c, d);
    } else if c <= -32768 {
        lemma_mul_monotone(c, -32768, d);
    } else if s >= 32768 {
        lemma_mul_monotone(32768, s, d);
    } else {
        lemma_mul_monotone(s, -32768, d);
    }
}

/// The offset across the face lies in `[0, ONE)`.
pub proof fn lemma_face_offset_range(board: &Board, x: int, y: int)
    requires
        board.wf(),
    ensures
        0 <= face_offset(board, x, y) < ONE,
{
    let w = board.cell_width();
    let h = board.cell_height();
    let hit_x = x % w;
    let hit_y = y % h;
    lemma_mul_monotone(0, hit_x, 65536);
    lemma_mul_monotone(0, hit_y, 65536);
    assert(hit_x * 65536 < 65536 * w);
    assert(hit_y * 65536 < 65536 * h);
    lemma_div_below(hit_x * 65536, 65536, w);
    lemma_div_below(hit_y * 65536, 65536, h);
    crate::fixed::lemma_div_at_least(hit_x * 65536, 0, w);
    crate::fixed::lemma_div_at_least(hit_y * 65536, 0, h);
}

/// A step of at most a pixel either way, taken from a passable cell of a
/// board whose rim is solid and whose cells span at least a pixel, ends on
/// the grid.
pub proof fn lemma_step_stays_on_grid(board: &Board, x: int, y: int, dx: int, dy: int)
    requires
        board.wf(),
        board.walled(),
        board.cell_width() >= ONE,
        board.cell_height() >= ONE,
        board.passable_at(x, y),
        -ONE <= dx <= ONE,
        -ONE <= dy <= ONE,
    ensures
        board.in_grid(x + dx, y + dy),
{
    let w = board.cell_width();
    let h = board.cell_height();
    let i = x / w;
    let j = y / h;
    crate::fixed::lemma_div_bracket(x, w);
    crate::fixed::lemma_div_bracket(y, h);
    lemma_div_below(x, board.cols(), w);
    lemma_div_below(y, board.rows(), h);
    crate::fixed::lemma_div_at_least(x, 0, w);
    crate::fixed::lemma_div_at_least(y, 0, h);
    assert(!board.cell(i, j).is_solid());
    assert(1 <= i <= board.cols() - 2);
    assert(1 <= j <= board.rows() - 2);
    lemma_mul_monotone(1, i, w);
    lemma_mul_monotone(i + 1, board.cols() - 1, w);
    lemma_mul_monotone(1, j, h);
    lemma_mul_monotone(j + 1, board.rows() - 1, h);
    assert((board.cols() - 1) * w == board.cols() * w - w) by (nonlinear_arith);
    assert((board.rows() - 1) * h == board.rows() * h - h) by (nonlinear_arith);
    assert((i + 1) * w == i * w + w) by (nonlinear_arith);
    assert((j + 1) * h == j * h + h) by (nonlinear_arith);
}

/// On a board whose rim is solid, a ray that has stayed in passable cells
/// for its first `d` steps reaches a first wall.
proof fn lemma_march_reaches_wall(board: &Board, origin: Point, direction: Direction, d: int)
    requires
        board.wf(),
        board.walled(),
        board.cell_width() >= ONE,
        board.cell_height() >= ONE,
        direction.wf(),
        0 <= d <= MAX_RAY_STEPS,
        board.passable_at(origin.x as int, origin.y as int),
        forall|k: int| 0 <= k < d ==> #[trigger] passable_after(board, origin, direction, k),
    ensures
        exists|e: int| first_wall(board, origin, direction, e),
    decreases MAX_RAY_STEPS - d,
{
    let c = direction.cos as int;
    let s = direction.sin as int;
    if d > 0 {
        assert(passable_after(board, origin, direction, d - 1));
        assert(d * c == (d - 1) * c + c) by (nonlinear_arith);
        assert(d * s == (d - 1) * s + s) by (nonlinear_arith);
        lemma_step_stays_on_grid(
            board,
            ray_x(origin, direction, d - 1),
            ray_y(origin, direction, d - 1),
            c,
            s,
        );
    } else {
        assert(0 * c == 0) by (nonlinear_arith);
        assert(0 * s == 0) by (nonlinear_arith);
    }
    assert(board.in_grid(ray_x(origin, direction, d), ray_y(origin, direction, d)));
    if solid_after(board, origin, direction, d) {
        assert(first_wall(board, origin, direction, d));
    } else {
        assert(passable_after(board, origin, direction, d));
        lemma_steps_on_grid(board, origin, direction, d);
        lemma_march_reaches_wall(board, origin, direction, d + 1);
    }
}

/// Inside a ring of walls every ray ends on a wall: on a board whose rim is
/// solid and whose cells span at least a pixel, a ray that starts in a
/// passable cell reports a solid cell at a positive distance.
pub proof fn lemma_walled_ray_hits(board: &Board, origin: Point, direction: Direction)
    requires
        board.wf(),
        board.walled(),
        board.cell_width() >= ONE,
        board.cell_height() >= ONE,
        direction.wf(),
        board.passable_at(origin.x as int, origin.y as int),
    ensures
        cast_result(board, origin, direction) matches Ok(hit) && hit.distance > 0
            && hit.impact.is_solid(),
{
    lemma_march_reaches_wall(board, origin, direction, 0);
    let d = choose|e: int| first_wall(board, origin, direction, e);
    assert(first_wall(board, origin, direction, d));
    assert(0 * direction.cos == 0) by (nonlinear_arith);
    assert(0 * direction.sin == 0) by (nonlinear_arith);
    if d == 0 {
        assert(false);
    }
    lemma_steps_on_grid(board, origin, direction, d);
}

/// Whatever wall a ray reports lies a whole, positive number of pixels away,
/// fewer than `MAX_RAY_STEPS`.
pub proof fn lemma_cast_distance(board: &Board, origin: Point, direction: Direction)
    requires
        board.wf(),
        direction.wf(),
    ensures
        cast_result(board, origin, direction) matches Ok(hit) ==> {
            &&& ONE <= hit.distance < MAX_RAY_STEPS * ONE
            &&& hit.distance % ONE == 0
            &&& hit.impact.is_solid()
        },
{
    if cast_result(board, origin, direction) is Ok {
        let d = choose|e: int| first_wall(board, origin, direction, e);
        assert(0 * direction.cos == 0) by (nonlinear_arith);
        assert(0 * direction.sin == 0) by (nonlinear_arith);
        lemma_steps_on_grid(board, origin, direction, d);
    }
}

/// Whatever wall a ray reports, the offset across its face lies in `[0, ONE)`.
pub proof fn lemma_cast_offset_in_range(board: &Board, origin: Point, direction: Direction)
    requires
        board.wf(),
    ensures
        cast_result(board, origin, direction) matches Ok(hit) ==> 0 <= hit.bx < ONE,
{
    if cast_result(board, origin, direction) is Ok {
        let d = choose|e: int| first_wall(board, origin, direction, e);
        lemma_face_offset_range(
            board,
            ray_x(origin, direction, d),
            ray_y(origin, direction, d),
        );
    }
}

/// Computes the offset across the face of the cell that holds `(x, y)`.
pub fn face_offset_of(board: &Board, x: i64, y: i64) -> (bx: i64)
    requires
        board.wf(),
        0 <= x <= 4_294_967_296,
        0 <= y <= 4_294_967_296,
    ensures
        bx == face_offset(board, x as int, y as int),
        0 <= bx < ONE,
{
    let (cell_width, cell_height) = board.cell_dimensions;
    let hit_x: i64 = x % cell_width;
    let hit_y: i64 = y % cell_height;
    proof {
        lemma_face_offset_range(board, x as int, y as int);
    }
    if ONE < hit_x && hit_x < cell_width - ONE {
        hit_x * ONE / cell_width
    } else {
        hit_y * ONE / cell_height
    }
}

/// Casts a ray from `origin` along `direction`, one pixel per step, until it
/// enters a solid cell. The ray of a player who stands outside the grid or
/// inside a wall is refused, and so is one that leaves the grid first.
pub fn cast(board: &Board, origin: Point, direction: Direction) -> (hit: Result<
    Intersect,
    CastError,
>)
    requires
        board.wf(),
        origin.wf(),
        direction.wf(),
    ensures
        hit == cast_result(board, origin, direction),
        hit matches Ok(i) ==> {
            &&& i.distance > 0
            &&& i.distance % ONE == 0
            &&& first_wall(board, origin, direction, i.distance / ONE)
            &&& i == intersect_after(board, origin, direction, i.distance / ONE)
            &&& i.impact.is_solid()
            &&& 0 <= i.bx < ONE
        },
        hit == Err::<Intersect, CastError>(CastError::OriginOutside) <==> !board.in_grid(
            origin.x as int,
            origin.y as int,
        ),
        hit == Err::<Intersect, CastError>(CastError::OriginSolid) <==> board.solid_at(
            origin.x as int,
            origin.y as int,
        ),
        hit == Err::<Intersect, CastError>(CastError::NoHit) <==> board.passable_at(
            origin.x as int,
            origin.y as int,
        ) && forall|d: int| !first_wall(board, origin, direction, d),
{
    let mut d: i64 = 0;
    loop
        invariant
            board.wf(),
            origin.wf(),
            direction.wf(),
            0 <= d <= MAX_RAY_STEPS,
            d > 0 ==> board.in_grid(origin.x as int, origin.y as int),
            forall|k: int| 0 <= k < d ==> #[trigger] passable_after(board, origin, direction, k),
        decreases MAX_RAY_STEPS - d,
    {
        proof {
            lemma_mul_bounded(d as int, direction.cos as int, 32768, 65536);
            lemma_mul_bounded(d as int, direction.sin as int, 32768, 65536);
        }
        let x: i64 = origin.x + d * direction.cos;
        let y: i64 = origin.y + d * direction.sin;
        assert(x == ray_x(origin, direction, d as int));
        assert(y == ray_y(origin, direction, d as int));
        match board.locate(x, y) {
            None => {
                proof {
                    assert forall|e: int| !first_wall(board, origin, direction, e) by {
                        if first_wall(board, origin, direction, e) {
                            if e > d {
                                assert(passable_after(board, origin, direction, d as int));
                            } else if e < d {
                                assert(passable_after(board, origin, direction, e));
                            }
                        }
                    }
                }
                if d == 0 {
                    return Err(CastError::OriginOutside);
                }
                assert(passable_after(board, origin, direction, 0));
                return Err(CastError::NoHit);
            },
            Some((i, j)) => {
                let impact: BoardCell = board.get(i, j);
                if crate::is_border(&impact) {
                    if d == 0 {
                        return Err(CastError::OriginSolid);
                    }
                    let bx: i64 = face_offset_of(board, x, y);
                    proof {
                        assert(passable_after(board, origin, direction, 0));
                        assert(first_wall(board, origin, direction, d as int));
                        let chosen = choose|e: int| first_wall(board, origin, direction, e);
                        lemma_first_wall_unique(board, origin, direction, d as int, chosen);
                        assert((d * ONE) as i64 / ONE == d);
                    }
                    return Ok(Intersect { distance: d * ONE, impact, bx });
                }
                proof {
                    lemma_steps_on_grid(board, origin, direction, d as int);
                }
                d += 1;
            },
        }
    }
}

/// Casts the ray of one screen column from the player's position. The pen of
/// the framebuffer is left black; no pixel changes.
pub fn cast_ray_3d(framebuffer: &mut Framebuffer, data: &Model, orientation: Direction) -> (hit:
    Result<Intersect, CastError>)
    requires
        data.wf(),
        orientation.wf(),
    ensures
        hit == cast_result(&data.board, data.player.position, orientation),
        final(framebuffer).current_color == (Color { r: 0, g: 0, b: 0 }),
        final(framebuffer).width == old(framebuffer).width,
        final(framebuffer).height == old(framebuffer).height,
        final(framebuffer).buffer@ == old(framebuffer).buffer@,
        final(framebuffer).background@ == old(framebuffer).background@,
        forall|px: int, py: int| #[trigger]
            final(framebuffer).pixel(px, py) == old(framebuffer).pixel(px, py),
{
    framebuffer.set_current_color(Color::from_hex(0x000000));
    cast(&data.board, data.player.position, orientation)
}

/// The march of a ray gets as far as step `d`: the ray is on the grid after
/// `d` steps and was in a passable cell after each step before.
pub open spec fn ray_reaches(board: &Board, origin: Point, direction: Direction, d: int) -> bool {
    &&& 0 <= d
    &&& board.in_grid(ray_x(origin, direction, d), ray_y(origin, direction, d))
    &&& forall|k: int| 0 <= k < d ==> #[trigger] passable_after(board, origin, direction, k)
}

/// Step `d` of a ray falls on the pixel `(x, y)` of the minimap of a frame
/// of `width` by `height`.
pub open spec fn step_marks(
    origin: Point,
    direction: Direction,
    width: int,
    height: int,
    d: int,
    x: int,
    y: int,
) -> bool {
    mapped_pixel(ray_x(origin, direction, d), width) == x && mapped_pixel(
        ray_y(origin, direction, d),
        height,
    ) == y
}

/// One of the first `limit` steps that the march of a ray gets to falls on
/// the pixel `(x, y)` of the minimap.
pub open spec fn ray_marks(
    board: &Board,
    origin: Point,
    direction: Direction,
    width: int,
    height: int,
    limit: int,
    x: int,
    y: int,
) -> bool {
    exists|d: int|
        0 <= d < limit && #[trigger] ray_reaches(board, origin, direction, d) && step_marks(
            origin,
            direction,
            width,
            height,
            d,
            x,
            y,
        )
}

/// The pixel `(x, y)` once a ray is traced on the minimap over `under`:
/// black where a step of the march falls, up to and with the step that
/// enters a wall.
pub open spec fn ray_pixel(
    board: &Board,
    origin: Point,
    direction: Direction,
    width: int,
    height: int,
    x: int,
    y: int,
    under: u32,
) -> u32 {
    if ray_marks(board, origin, direction, width, height, MAX_RAY_STEPS as int, x, y) {
        0
    } else {
        under
    }
}

/// The steps before `limit + 1` are those before `limit` and step `limit`.
proof fn lemma_ray_marks_step(
    board: &Board,
    origin: Point,
    direction: Direction,
    width: int,
    height: int,
    limit: int,
    x: int,
    y: int,
)
    requires
        0 <= limit,
    ensures
        ray_marks(board, origin, direction, width, height, limit + 1, x, y) <==> ray_marks(
            board,
            origin,
            direction,
            width,
            height,
            limit,
            x,
            y,
        ) || (ray_reaches(board, origin, direction, limit) && step_marks(
            origin,
            direction,
            width,
            height,
            limit,
            x,
            y,
        )),
{
    if ray_marks(board, origin, direction, width, height, limit + 1, x, y) {
        let d = choose|d: int|
            0 <= d < limit + 1 && #[trigger] ray_reaches(board, origin, direction, d)
                && step_marks(origin, direction, width, height, d, x, y);
        if d < limit {
            assert(ray_marks(board, origin, direction, width, height, limit, x, y));
        }
    }
    if ray_marks(board, origin, direction, width, height, limit, x, y) {
        let d = choose|d: int|
            0 <= d < limit && #[trigger] ray_reaches(board, origin, direction, d) && step_marks(
                origin,
                direction,
                width,
                height,
                d,
                x,
                y,
            );
        assert(0 <= d < limit + 1 && ray_reaches(board, origin, direction, d));
    }
    if ray_reaches(board, origin, direction, limit) && step_marks(
        origin,
        direction,
        width,
        height,
        limit,
        x,
        y,
    ) {
        assert(0 <= limit < limit + 1 && ray_reaches(board, origin, direction, limit));
    }
}

/// Once the march of a ray has stopped, no later step marks a pixel: if the
/// march gets to no step from `stop` on, the steps before `stop` are all
/// that fall on the minimap.
proof fn lemma_ray_marks_stop(
    board: &Board,
    origin: Point,
    direction: Direction,
    width: int,
    height: int,
    stop: int,
    x: int,
    y: int,
)
    requires
        0 <= stop <= MAX_RAY_STEPS,
        forall|e: int| e >= stop ==> !ray_reaches(board, origin, direction, e),
    ensures
        ray_marks(board, origin, direction, width, height, MAX_RAY_STEPS as int, x, y)
            <==> ray_marks(board, origin, direction, width, height, stop, x, y),
{
    if ray_marks(board, origin, direction, width, height, MAX_RAY_STEPS as int, x, y) {
        let d = choose|d: int|
            0 <= d < MAX_RAY_STEPS && #[trigger] ray_reaches(board, origin, direction, d)
                && step_marks(origin, direction, width, height, d, x, y);
        assert(d < stop);
        assert(ray_marks(board, origin, direction, width, height, stop, x, y));
    }
    if ray_marks(board, origin, direction, width, height, stop, x, y) {
        let d = choose|d: int|
            0 <= d < stop && #[trigger] ray_reaches(board, origin, direction, d) && step_marks(
                origin,
                direction,
                width,
                height,
                d,
                x,
                y,
            );
        assert(0 <= d < MAX_RAY_STEPS && ray_reaches(board, origin, direction, d));
    }
}

/// Traces a ray on the minimap: marches from the player's position, one
/// pixel per step, and paints every step black where it falls on the
/// minimap, until the ray has entered a wall or left the grid.
pub fn cast_ray_2d(
    framebuffer: &mut Framebuffer,
    maze: &Board,
    player: &Player,
    orientation: Direction,
)
    requires
        old(framebuffer).wf(),
        maze.wf(),
        player.wf(),
        orientation.wf(),
    ensures
        final(framebuffer).wf(),
        final(framebuffer).same_frame(old(framebuffer)),
        final(framebuffer).current_color == (Color { r: 0, g: 0, b: 0 }),
        forall|x: int, y: int|
            old(framebuffer).contains(x, y) ==> #[trigger] final(framebuffer).pixel(x, y)
                == ray_pixel(
                maze,
                player.position,
                orientation,
                old(framebuffer).width as int,
                old(framebuffer).height as int,
                x,
                y,
                old(framebuffer).pixel(x, y),
            ),
{
    let origin: Point = player.position;
    let width: usize = framebuffer.width;
    let height: usize = framebuffer.height;
    framebuffer.set_current_color(Color::from_hex(0x000000));
    let mut d: i64 = 0;
    loop
        invariant_except_break
            forall|x: int, y: int|
                framebuffer.contains(x, y) ==> #[trigger] framebuffer.pixel(x, y) == if ray_marks(
                    maze,
                    origin,
                    orientation,
                    width as int,
                    height as int,
                    d as int,
                    x,
                    y,
                ) {
                    0u32
                } else {
                    old(framebuffer).pixel(x, y)
                },
        invariant
            framebuffer.wf(),
            framebuffer.current_color == (Color { r: 0, g: 0, b: 0 }),
            maze.wf(),
            origin.wf(),
            orientation.wf(),
            framebuffer.same_frame(old(framebuffer)),
            width == framebuffer.width,
            height == framebuffer.height,
            0 <= d <= MAX_RAY_STEPS,
            d > 0 ==> maze.in_grid(origin.x as int, origin.y as int),
            forall|k: int| 0 <= k < d ==> #[trigger] passable_after(maze, origin, orientation, k),
        ensures
            framebuffer.wf(),
            framebuffer.same_frame(old(framebuffer)),
            framebuffer.current_color == (Color { r: 0, g: 0, b: 0 }),
            forall|x: int, y: int|
                framebuffer.contains(x, y) ==> #[trigger] framebuffer.pixel(x, y) == ray_pixel(
                    maze,
                    origin,
                    orientation,
                    width as int,
                    height as int,
                    x,
                    y,
                    old(framebuffer).pixel(x, y),
                ),
        decreases MAX_RAY_STEPS - d,
    {
        proof {
            lemma_mul_bounded(d as int, orientation.cos as int, 32768, 65536);
            lemma_mul_bounded(d as int, orientation.sin as int, 32768, 65536);
        }
        let x: i64 = origin.x + d * orientation.cos;
        let y: i64 = origin.y + d * orientation.sin;
        assert(x == ray_x(origin, orientation, d as int));
        assert(y == ray_y(origin, orientation, d as int));
        match maze.locate(x, y) {
            None => {
                proof {
                    assert forall|e: int| e >= d implies !ray_reaches(
                        maze,
                        origin,
                        orientation,
                        e,
                    ) by {
                        if e > d && ray_reaches(maze, origin, orientation, e) {
                            assert(passable_after(maze, origin, orientation, d as int));
                        }
                    }
                    assert forall|px: int, py: int| framebuffer.contains(px, py) implies
                        #[trigger] framebuffer.pixel(
                        px,
                        py,
                    ) == ray_pixel(
                        maze,
                        origin,
                        orientation,
                        width as int,
                        height as int,
                        px,
                        py,
                        old(framebuffer).pixel(px, py),
                    ) by {
                        lemma_ray_marks_stop(
                            maze,
                            origin,
                            orientation,
                            width as int,
                            height as int,
                            d as int,
                            px,
                            py,
                        );
                    }
                }
                break ;
            },
            Some((i, j)) => {
                assert(ray_reaches(maze, origin, orientation, d as int));
                let mark_x: i64 = pixel_at(map_coordinate(x, width));
                let mark_y: i64 = pixel_at(map_coordinate(y, height));
                let ghost before = *framebuffer;
                framebuffer.paint(mark_x, mark_y, Color::from_hex(0x000000));
                proof {
                    lemma_steps_on_grid_from(maze, origin, orientation, d as int);
                    assert forall|px: int, py: int| framebuffer.contains(px, py) implies
                        #[trigger] framebuffer.pixel(
                        px,
                        py,
                    ) == if ray_marks(
                        maze,
                        origin,
                        orientation,
                        width as int,
                        height as int,
                        d + 1,
                        px,
                        py,
                    ) {
                        0u32
                    } else {
                        old(framebuffer).pixel(px, py)
                    } by {
                        lemma_ray_marks_step(
                            maze,
                            origin,
                            orientation,
                            width as int,
                            height as int,
                            d as int,
                            px,
                            py,
                        );
                        assert(before.contains(px, py));
                    }
                }
                if crate::is_border(&maze.get(i, j)) {
                    proof {
                        assert forall|e: int| e >= d + 1 implies !ray_reaches(
                            maze,
                            origin,
                            orientation,
                            e,
                        ) by {
                            if ray_reaches(maze, origin, orientation, e) {
                                assert(passable_after(maze, origin, orientation, d as int));
                            }
                        }
                        assert forall|px: int, py: int| framebuffer.contains(px, py) implies
                            #[trigger] framebuffer.pixel(
                            px,
                            py,
                        ) == ray_pixel(
                            maze,
                            origin,
                            orientation,
                            width as int,
                            height as int,
                            px,
                            py,
                            old(framebuffer).pixel(px, py),
                        ) by {
                            lemma_ray_marks_stop(
                                maze,
                                origin,
                                orientation,
                                width as int,
                                height as int,
                                d + 1,
                                px,
                                py,
                            );
                        }
                    }
                    break ;
                }
                d += 1;
            },
        }
    }
}

/// A ray that is on the grid after `d` steps, having been on the grid after
/// each step before, has taken fewer than `MAX_RAY_STEPS` steps.
proof fn lemma_steps_on_grid_from(board: &Board, origin: Point, direction: Direction, d: int)
    requires
        board.wf(),
        direction.wf(),
        0 <= d,
        d > 0 ==> board.in_grid(origin.x as int, origin.y as int),
        board.in_grid(ray_x(origin, direction, d), ray_y(origin, direction, d)),
    ensures
        d < MAX_RAY_STEPS,
{
    if d > 0 {
        lemma_steps_on_grid(board, origin, direction, d);
    }
}

} // verus!
