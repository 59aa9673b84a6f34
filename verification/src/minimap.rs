//! The minimap: the maze seen from above, drawn small in a corner of the
//! frame, with the player's rays, the sprites and the player on it.

use vstd::prelude::*;
use crate::color::Color;
use crate::fixed::{div_floor, lemma_div_shrinks, lemma_mul_bounded, HALF, ONE};
use crate::framebuffer::{Framebuffer, MAX_DIMENSION};
use crate::raycaster::{cast_ray_2d, ray_pixel};
use crate::render::{cell_color, scale_to_fit};
use crate::{Board, Direction, Model, Point, MAX_COORD};

verus! {

/// The minimap is this many times smaller than the frame.
pub const MINIMAP_SHRINK: i64 = 5;

/// The room between the minimap and the edges of the frame, in pixels.
pub const MINIMAP_PADDING: i64 = 20;

/// The largest coordinate that can be placed on the minimap.
pub const MAX_MAPPED: i64 = 2_147_483_648;

/// The length of the minimap along a side of the frame that is `extent`
/// pixels long, in fixed-point pixels.
pub open spec fn minimap_extent(extent: int) -> int {
    extent * ONE / (MINIMAP_SHRINK as int)
}

/// Where the minimap starts along a side of the frame that is `extent`
/// pixels long, in fixed-point pixels: a padding before the far edge.
pub open spec fn minimap_start(extent: int) -> int {
    extent * ONE - minimap_extent(extent) - MINIMAP_PADDING * ONE
}

/// Where the coordinate `v` of the frame falls on the minimap, along a side
/// that is `extent` pixels long, in fixed-point pixels.
pub open spec fn mapped(v: int, extent: int) -> int {
    v * minimap_extent(extent) / (extent * ONE) + minimap_start(extent)
}

/// The pixel that holds the fixed-point coordinate `v`.
pub open spec fn pixel_of(v: int) -> int {
    v / (ONE as int)
}

/// The pixel of the minimap on which the coordinate `v` of the frame falls.
pub open spec fn mapped_pixel(v: int, extent: int) -> int {
    pixel_of(mapped(v, extent))
}

/// Places a coordinate of the frame on the minimap.
pub fn map_coordinate(v: i64, extent: usize) -> (m: i64)
    requires
        0 <= v <= MAX_MAPPED,
        0 < extent <= MAX_DIMENSION,
    ensures
        m == mapped(v as int, extent as int),
        -0x4000_0000 <= m <= 0x1_0000_0000,
{
    let full: i64 = (extent as i64) * ONE;
    let small: i64 = full / MINIMAP_SHRINK;
    let start: i64 = full - small - MINIMAP_PADDING * ONE;
    proof {
        lemma_mul_bounded(v as int, small as int, 2_147_483_648, 0x4000_0000);
        assert(v * small >= 0) by (nonlinear_arith)
            requires
                v >= 0,
                small >= 0,
        ;
        lemma_div_shrinks(v * small, full as int);
        assert(v * small / (full as int) <= v) by (nonlinear_arith)
            requires
                0 <= v,
                0 <= small <= full,
                0 < full,
        ;
    }
    v * small / full + start
}

/// Finds the pixel that holds a fixed-point coordinate.
pub fn pixel_at(v: i64) -> (p: i64)
    ensures
        p == pixel_of(v as int),
{
    div_floor(v as i128, ONE as i128) as i64
}

/// Whether `v` is one of the first `limit` items of `s`.
pub open spec fn occurs_before(s: Seq<i64>, limit: int, v: int) -> bool {
    exists|k: int| 0 <= k < limit && #[trigger] s[k] == v
}

/// Whether `v` is an item of `s`.
pub open spec fn occurs(s: Seq<i64>, v: int) -> bool {
    occurs_before(s, s.len() as int, v)
}

/// An item is among the first `limit + 1` if it is among the first `limit`
/// or is the one after them.
pub proof fn lemma_occurs_step(s: Seq<i64>, limit: int, v: int)
    requires
        0 <= limit,
    ensures
        occurs_before(s, limit + 1, v) <==> occurs_before(s, limit, v) || s[limit] == v,
{
    if occurs_before(s, limit + 1, v) {
        let k = choose|k: int| 0 <= k < limit + 1 && #[trigger] s[k] == v;
        if k < limit {
            assert(occurs_before(s, limit, v));
        }
    }
    if occurs_before(s, limit, v) {
        let k = choose|k: int| 0 <= k < limit && #[trigger] s[k] == v;
        assert(0 <= k < limit + 1 && s[k] == v);
    }
    if s[limit] == v {
        assert(0 <= limit < limit + 1 && s[limit] == v);
    }
}

/// Paints every pixel whose column is one of `columns` and whose row is one
/// of `rows`.
pub fn paint_product(
    framebuffer: &mut Framebuffer,
    columns: &Vec<i64>,
    rows: &Vec<i64>,
    color: Color,
)
    requires
        old(framebuffer).wf(),
    ensures
        final(framebuffer).wf(),
        final(framebuffer).same_frame(old(framebuffer)),
        forall|x: int, y: int|
            old(framebuffer).contains(x, y) ==>
                #[trigger] final(framebuffer).pixel(x, y) == if occurs(
                columns@,
                x,
            ) && occurs(rows@, y) {
                color.hex()
            } else {
                old(framebuffer).pixel(x, y)
            },
{
    let mut a: usize = 0;
    while a < columns.len()
        invariant
            framebuffer.wf(),
            framebuffer.same_frame(old(framebuffer)),
            a <= columns@.len(),
            forall|x: int, y: int|
                framebuffer.contains(x, y) ==>
                    #[trigger] framebuffer.pixel(x, y) == if occurs_before(
                    columns@,
                    a as int,
                    x,
                ) && occurs(rows@, y) {
                    color.hex()
                } else {
                    old(framebuffer).pixel(x, y)
                },
        decreases columns@.len() - a,
    {
        let column: i64 = columns[a];
        let ghost start = *framebuffer;
        let mut b: usize = 0;
        while b < rows.len()
            invariant
                framebuffer.wf(),
                framebuffer.same_frame(old(framebuffer)),
                start.wf(),
                start.same_frame(old(framebuffer)),
                b <= rows@.len(),
                forall|x: int, y: int|
                    framebuffer.contains(x, y) ==> #[trigger] framebuffer.pixel(x, y) == if x
                        == column && occurs_before(rows@, b as int, y) {
                        color.hex()
                    } else {
                        start.pixel(x, y)
                    },
            decreases rows@.len() - b,
        {
            let ghost before = *framebuffer;
            framebuffer.paint(column, rows[b], color);
            proof {
                assert forall|x: int, y: int| framebuffer.contains(x, y) implies
                    #[trigger] framebuffer.pixel(
                    x,
                    y,
                ) == if x == column && occurs_before(rows@, b + 1, y) {
                    color.hex()
                } else {
                    start.pixel(x, y)
                } by {
                    lemma_occurs_step(rows@, b as int, y);
                    assert(before.contains(x, y));
                }
            }
            b += 1;
        }
        proof {
            assert forall|x: int, y: int| framebuffer.contains(x, y) implies
                #[trigger] framebuffer.pixel(
                x,
                y,
            ) == if occurs_before(columns@, a + 1, x) && occurs(rows@, y) {
                color.hex()
            } else {
                old(framebuffer).pixel(x, y)
            } by {
                lemma_occurs_step(columns@, a as int, x);
                assert(start.contains(x, y));
            }
        }
        a += 1;
    }
}

/// How many samples, half a pixel apart, are taken along a span.
pub open spec fn sample_count(span: int) -> int {
    (span + HALF - 1) / (HALF as int)
}

/// The pixels of the minimap on which the samples of a span fall: the
/// samples start at `start`, lie half a pixel apart and stay below
/// `start + span`, along a side of the frame that is `extent` pixels long.
pub open spec fn samples(start: int, span: int, extent: int) -> Seq<i64> {
    Seq::new(
        sample_count(span) as nat,
        |a: int| mapped_pixel(start + a * HALF, extent) as i64,
    )
}

/// Computes the pixels of the minimap on which the samples of a span fall.
pub fn sample_pixels(start: i64, span: i64, extent: usize) -> (pixels: Vec<i64>)
    requires
        0 <= start,
        0 < span,
        start + span <= MAX_COORD,
        0 < extent <= MAX_DIMENSION,
    ensures
        pixels@ == samples(start as int, span as int, extent as int),
{
    let mut pixels: Vec<i64> = Vec::new();
    let mut offset: i64 = 0;
    while offset < span
        invariant
            0 <= start,
            0 < span,
            start + span <= MAX_COORD,
            0 < extent <= MAX_DIMENSION,
            offset == pixels@.len() * 32768,
            0 <= offset < span + 32768,
            forall|k: int|
                0 <= k < pixels@.len() ==> #[trigger] pixels@[k] == mapped_pixel(
                    start + k * HALF,
                    extent as int,
                ),
        decreases span + 32768 - offset,
    {
        let mark: i64 = pixel_at(map_coordinate(start + offset, extent));
        pixels.push(mark);
        offset += HALF;
    }
    proof {
        assert(pixels@.len() == sample_count(span as int));
        assert(pixels@ =~= samples(start as int, span as int, extent as int));
    }
    pixels
}

/// The columns of the minimap that the cells of column `i` of the board fill.
pub open spec fn cell_columns(board: &Board, width: int, i: int) -> Seq<i64> {
    samples(i * board.cell_width(), board.cell_width(), width)
}

/// The rows of the minimap that the cells of row `j` of the board fill.
pub open spec fn cell_rows(board: &Board, height: int, j: int) -> Seq<i64> {
    samples(j * board.cell_height(), board.cell_height(), height)
}

/// The pixel `(x, y)` once the cell in column `i` of row `j` is drawn over
/// `under`: the flat color of the cell where one of its samples falls.
pub open spec fn cell_pixel(data: &Model, i: int, j: int, x: int, y: int, under: u32) -> u32 {
    if occurs(cell_columns(&data.board, data.framebuffer_dimensions.0 as int, i), x) && occurs(
        cell_rows(&data.board, data.framebuffer_dimensions.1 as int, j),
        y,
    ) {
        cell_color(data.board.cell(i, j)).hex()
    } else {
        under
    }
}

/// The pixel `(x, y)` once the rows before row `j` and the first `i` cells
/// of row `j` are drawn over `under`, row by row and cell by cell.
pub open spec fn cells_pixel(data: &Model, j: nat, i: nat, x: int, y: int, under: u32) -> u32
    decreases j, i,
{
    if i > 0 {
        cell_pixel(data, i - 1, j as int, x, y, cells_pixel(data, j, (i - 1) as nat, x, y, under))
    } else if j > 0 {
        cells_pixel(data, (j - 1) as nat, data.board.cols() as nat, x, y, under)
    } else {
        under
    }
}

/// Draws the cells of the maze on the minimap, each in its flat color.
pub fn render_cells(framebuffer: &mut Framebuffer, data: &Model)
    requires
        old(framebuffer).wf(),
        data.wf(),
        old(framebuffer).width == data.framebuffer_dimensions.0,
        old(framebuffer).height == data.framebuffer_dimensions.1,
    ensures
        final(framebuffer).wf(),
        final(framebuffer).same_frame(old(framebuffer)),
        forall|x: int, y: int|
            old(framebuffer).contains(x, y) ==> #[trigger] final(framebuffer).pixel(x, y)
                == cells_pixel(
                data,
                data.board.rows() as nat,
                0,
                x,
                y,
                old(framebuffer).pixel(x, y),
            ),
{
    let rows: usize = data.board.cells.len();
    let cols: usize = data.board.cells[0].len();
    let (cell_width, cell_height) = data.board.cell_dimensions;
    let mut j: usize = 0;
    while j < rows
        invariant
            framebuffer.wf(),
            data.wf(),
            framebuffer.same_frame(old(framebuffer)),
            framebuffer.width == data.framebuffer_dimensions.0,
            framebuffer.height == data.framebuffer_dimensions.1,
            rows == data.board.rows(),
            cols == data.board.cols(),
            cell_width == data.board.cell_width(),
            cell_height == data.board.cell_height(),
            j <= rows,
            forall|x: int, y: int|
                framebuffer.contains(x, y) ==> #[trigger] framebuffer.pixel(x, y) == cells_pixel(
                    data,
                    j as nat,
                    0,
                    x,
                    y,
                    old(framebuffer).pixel(x, y),
                ),
        decreases rows - j,
    {
        proof {
            lemma_mul_bounded(j as int, cell_height as int, 1_073_741_824, 1_073_741_824);
            crate::fixed::lemma_mul_monotone(j + 1, rows as int, cell_height as int);
            assert((j + 1) * cell_height == j * cell_height + cell_height) by (nonlinear_arith);
            assert(j * cell_height >= 0) by (nonlinear_arith)
                requires
                    j >= 0,
                    cell_height > 0,
            ;
        }
        let row_pixels: Vec<i64> = sample_pixels(
            (j as i64) * cell_height,
            cell_height,
            framebuffer.height,
        );
        let mut i: usize = 0;
        while i < cols
            invariant
                framebuffer.wf(),
                data.wf(),
                framebuffer.same_frame(old(framebuffer)),
                framebuffer.width == data.framebuffer_dimensions.0,
                framebuffer.height == data.framebuffer_dimensions.1,
                rows == data.board.rows(),
                cols == data.board.cols(),
                cell_width == data.board.cell_width(),
                cell_height == data.board.cell_height(),
                j < rows,
                i <= cols,
                row_pixels@ == cell_rows(&data.board, framebuffer.height as int, j as int),
                forall|x: int, y: int|
                    framebuffer.contains(x, y) ==> #[trigger] framebuffer.pixel(x, y)
                        == cells_pixel(
                        data,
                        j as nat,
                        i as nat,
                        x,
                        y,
                        old(framebuffer).pixel(x, y),
                    ),
            decreases cols - i,
        {
            proof {
                lemma_mul_bounded(i as int, cell_width as int, 1_073_741_824, 1_073_741_824);
                crate::fixed::lemma_mul_monotone(i + 1, cols as int, cell_width as int);
                assert((i + 1) * cell_width == i * cell_width + cell_width) by (nonlinear_arith);
                assert(i * cell_width >= 0) by (nonlinear_arith)
                    requires
                        i >= 0,
                        cell_width > 0,
                ;
            }
            let column_pixels: Vec<i64> = sample_pixels(
                (i as i64) * cell_width,
                cell_width,
                framebuffer.width,
            );
            let color: Color = crate::render::from_cell_to_color(&data.board.get(i, j));
            paint_product(framebuffer, &column_pixels, &row_pixels, color);
            i += 1;
        }
        j += 1;
    }
}

/// The pixel `(x, y)` once the first `count` rays of a fan are traced on
/// the minimap over `under`, each over the ones before it.
pub open spec fn fan_pixel(
    data: &Model,
    fan: Seq<Direction>,
    count: nat,
    x: int,
    y: int,
    under: u32,
) -> u32
    decreases count,
{
    if count == 0 {
        under
    } else {
        ray_pixel(
            &data.board,
            data.player.position,
            fan[count - 1],
            data.framebuffer_dimensions.0 as int,
            data.framebuffer_dimensions.1 as int,
            x,
            y,
            fan_pixel(data, fan, (count - 1) as nat, x, y, under),
        )
    }
}

/// Traces a fan of rays from the player's position on the minimap.
pub fn render_fan(framebuffer: &mut Framebuffer, data: &Model, fan: &Vec<Direction>)
    requires
        old(framebuffer).wf(),
        data.wf(),
        old(framebuffer).width == data.framebuffer_dimensions.0,
        old(framebuffer).height == data.framebuffer_dimensions.1,
        forall|k: int| 0 <= k < fan@.len() ==> (#[trigger] fan@[k]).wf(),
    ensures
        final(framebuffer).wf(),
        final(framebuffer).same_frame(old(framebuffer)),
        forall|x: int, y: int|
            old(framebuffer).contains(x, y) ==> #[trigger] final(framebuffer).pixel(x, y)
                == fan_pixel(data, fan@, fan@.len(), x, y, old(framebuffer).pixel(x, y)),
{
    let mut k: usize = 0;
    while k < fan.len()
        invariant
            framebuffer.wf(),
            data.wf(),
            framebuffer.same_frame(old(framebuffer)),
            framebuffer.width == data.framebuffer_dimensions.0,
            framebuffer.height == data.framebuffer_dimensions.1,
            forall|i: int| 0 <= i < fan@.len() ==> (#[trigger] fan@[i]).wf(),
            k <= fan@.len(),
            forall|x: int, y: int|
                framebuffer.contains(x, y) ==> #[trigger] framebuffer.pixel(x, y) == fan_pixel(
                    data,
                    fan@,
                    k as nat,
                    x,
                    y,
                    old(framebuffer).pixel(x, y),
                ),
        decreases fan@.len() - k,
    {
        cast_ray_2d(framebuffer, &data.board, &data.player, fan[k]);
        k += 1;
    }
}

/// The number of rays of the fan that the minimap shows.
pub const FAN_RAYS: usize = 20;

/// Half the side of the square that marks a sprite, in pixels of the frame.
pub const MARKER_REACH: i64 = 5;

/// The color that marks a sprite on the minimap.
pub const MARKER_COLOR: u32 = 0xff0000;

/// The color that marks the player on the minimap.
pub const PLAYER_COLOR: u32 = 0x0000ff;

/// The first pixel of the frame of the square that marks a sprite at the
/// coordinate `v`: `MARKER_REACH` pixels before it, but not before the edge.
pub open spec fn marker_start(v: int) -> int {
    if v < MARKER_REACH * ONE {
        0
    } else {
        (v - MARKER_REACH * ONE) / (ONE as int)
    }
}

/// The pixels of the minimap on which the square that marks a sprite at the
/// coordinate `v` falls, along a side of the frame `extent` pixels long.
pub open spec fn marker_marks(v: int, extent: int) -> Seq<i64> {
    Seq::new(
        (2 * MARKER_REACH) as nat,
        |u: int| mapped_pixel((marker_start(v) + u) * ONE, extent) as i64,
    )
}

/// Computes the pixels of the minimap on which the marker of a sprite falls.
pub fn marker_pixels(v: i64, extent: usize) -> (pixels: Vec<i64>)
    requires
        0 <= v <= MAX_COORD,
        0 < extent <= MAX_DIMENSION,
    ensures
        pixels@ == marker_marks(v as int, extent as int),
{
    let start: i64 = if v < MARKER_REACH * ONE {
        0
    } else {
        (v - MARKER_REACH * ONE) / ONE
    };
    let mut pixels: Vec<i64> = Vec::new();
    let mut u: i64 = 0;
    while u < 2 * MARKER_REACH
        invariant
            0 <= v <= MAX_COORD,
            0 < extent <= MAX_DIMENSION,
            start == marker_start(v as int),
            0 <= start <= 16384,
            0 <= u <= 2 * MARKER_REACH,
            pixels@.len() == u,
            forall|k: int|
                0 <= k < u ==>
                    #[trigger] pixels@[k] == mapped_pixel((start + k) * ONE, extent as int),
        decreases 2 * MARKER_REACH - u,
    {
        let mark: i64 = pixel_at(map_coordinate((start + u) * ONE, extent));
        pixels.push(mark);
        u += 1;
    }
    proof {
        assert(pixels@ =~= marker_marks(v as int, extent as int));
    }
    pixels
}

/// The pixel `(x, y)` once the marker of a sprite at `position` is drawn
/// over `under`.
pub open spec fn marker_pixel(data: &Model, position: Point, x: int, y: int, under: u32) -> u32 {
    if occurs(marker_marks(position.x as int, data.framebuffer_dimensions.0 as int), x) && occurs(
        marker_marks(position.y as int, data.framebuffer_dimensions.1 as int),
        y,
    ) {
        MARKER_COLOR
    } else {
        under
    }
}

/// The pixel `(x, y)` once the markers of the first `count` sprites are
/// drawn over `under`, each over the ones before it.
pub open spec fn markers_pixel(data: &Model, count: nat, x: int, y: int, under: u32) -> u32
    decreases count,
{
    if count == 0 {
        under
    } else {
        marker_pixel(
            data,
            data.lolibunnies@[count - 1].position,
            x,
            y,
            markers_pixel(data, (count - 1) as nat, x, y, under),
        )
    }
}

/// Marks every sprite on the minimap with a red square.
pub fn render_markers(framebuffer: &mut Framebuffer, data: &Model)
    requires
        old(framebuffer).wf(),
        data.wf(),
        old(framebuffer).width == data.framebuffer_dimensions.0,
        old(framebuffer).height == data.framebuffer_dimensions.1,
    ensures
        final(framebuffer).wf(),
        final(framebuffer).same_frame(old(framebuffer)),
        forall|x: int, y: int|
            old(framebuffer).contains(x, y) ==> #[trigger] final(framebuffer).pixel(x, y)
                == markers_pixel(
                data,
                data.lolibunnies@.len(),
                x,
                y,
                old(framebuffer).pixel(x, y),
            ),
{
    let count: usize = data.lolibunnies.len();
    let mut k: usize = 0;
    while k < count
        invariant
            framebuffer.wf(),
            data.wf(),
            framebuffer.same_frame(old(framebuffer)),
            framebuffer.width == data.framebuffer_dimensions.0,
            framebuffer.height == data.framebuffer_dimensions.1,
            count == data.lolibunnies@.len(),
            k <= count,
            forall|x: int, y: int|
                framebuffer.contains(x, y) ==> #[trigger] framebuffer.pixel(x, y) == markers_pixel(
                    data,
                    k as nat,
                    x,
                    y,
                    old(framebuffer).pixel(x, y),
                ),
        decreases count - k,
    {
        let position: Point = data.lolibunnies[k].position;
        let columns: Vec<i64> = marker_pixels(position.x, framebuffer.width);
        let rows: Vec<i64> = marker_pixels(position.y, framebuffer.height);
        paint_product(framebuffer, &columns, &rows, Color::from_hex(MARKER_COLOR));
        k += 1;
    }
}

/// The pixel `(x, y)` once the player is marked on the minimap over `under`.
pub open spec fn player_pixel(data: &Model, x: int, y: int, under: u32) -> u32 {
    if mapped_pixel(data.player.position.x as int, data.framebuffer_dimensions.0 as int) == x
        && mapped_pixel(data.player.position.y as int, data.framebuffer_dimensions.1 as int) == y {
        PLAYER_COLOR
    } else {
        under
    }
}

/// The pixel `(x, y)` once the minimap is drawn over `under`: the cells of
/// the maze, then the rays of the fan, then the sprites, then the player.
pub open spec fn minimap_pixel(
    data: &Model,
    fan: Seq<Direction>,
    x: int,
    y: int,
    under: u32,
) -> u32 {
    player_pixel(
        data,
        x,
        y,
        markers_pixel(
            data,
            data.lolibunnies@.len(),
            x,
            y,
            fan_pixel(
                data,
                fan,
                fan.len(),
                x,
                y,
                cells_pixel(data, data.board.rows() as nat, 0, x, y, under),
            ),
        ),
    )
}

/// Draws the maze from above in the corner of the frame: the cells, the
/// `FAN_RAYS` rays of the fan, the sprites and the player.
pub fn render2d(framebuffer: &mut Framebuffer, data: &Model, fan: &Vec<Direction>)
    requires
        old(framebuffer).wf(),
        data.wf(),
        old(framebuffer).width == data.framebuffer_dimensions.0,
        old(framebuffer).height == data.framebuffer_dimensions.1,
        fan@.len() == FAN_RAYS,
        forall|k: int| 0 <= k < fan@.len() ==> (#[trigger] fan@[k]).wf(),
    ensures
        final(framebuffer).wf(),
        final(framebuffer).same_frame(old(framebuffer)),
        forall|x: int, y: int|
            old(framebuffer).contains(x, y) ==> #[trigger] final(framebuffer).pixel(x, y)
                == minimap_pixel(data, fan@, x, y, old(framebuffer).pixel(x, y)),
{
    render_cells(framebuffer, data);
    let ghost with_cells = *framebuffer;
    render_fan(framebuffer, data, fan);
    let ghost with_fan = *framebuffer;
    render_markers(framebuffer, data);
    let ghost with_markers = *framebuffer;
    let point: Point = scale_to_fit(framebuffer, data.player.position);
    framebuffer.paint(pixel_at(point.x), pixel_at(point.y), Color::from_hex(PLAYER_COLOR));
    proof {
        assert forall|x: int, y: int| old(framebuffer).contains(x, y) implies
            #[trigger] framebuffer.pixel(
            x,
            y,
        ) == minimap_pixel(data, fan@, x, y, old(framebuffer).pixel(x, y)) by {
            assert(with_cells.contains(x, y));
            assert(with_fan.contains(x, y));
            assert(with_markers.contains(x, y));
            assert(with_cells.pixel(x, y) == cells_pixel(
                data,
                data.board.rows() as nat,
                0,
                x,
                y,
                old(framebuffer).pixel(x, y),
            ));
            assert(with_fan.pixel(x, y) == fan_pixel(
                data,
                fan@,
                fan@.len(),
                x,
                y,
                with_cells.pixel(x, y),
            ));
            assert(with_markers.pixel(x, y) == markers_pixel(
                data,
                data.lolibunnies@.len(),
                x,
                y,
                with_fan.pixel(x, y),
            ));
        }
    }
}

/// Draws the minimap over the scene.
pub fn render_minimap(framebuffer: &mut Framebuffer, data: &Model, fan: &Vec<Direction>)
    requires
        old(framebuffer).wf(),
        data.wf(),
        old(framebuffer).width == data.framebuffer_dimensions.0,
        old(framebuffer).height == data.framebuffer_dimensions.1,
        fan@.len() == FAN_RAYS,
        forall|k: int| 0 <= k < fan@.len() ==> (#[trigger] fan@[k]).wf(),
    ensures
        final(framebuffer).wf(),
        final(framebuffer).same_frame(old(framebuffer)),
        forall|x: int, y: int|
            old(framebuffer).contains(x, y) ==> #[trigger] final(framebuffer).pixel(x, y)
                == minimap_pixel(data, fan@, x, y, old(framebuffer).pixel(x, y)),
{
    render2d(framebuffer, data, fan)
}

} // verus!
