//! A first-person raycasting renderer over a tile grid.
//!
//! A frame is a function of the model (the maze, the player's pose, the
//! textures and the sprites), of the time that has passed, and of the
//! directions and angles that the caller works out from the pose with
//! trigonometry. Rays march through the maze to its walls, the walls are
//! drawn as textured slabs, sprites are drawn behind them, and a minimap is
//! drawn in the corner.
//!
//! All arithmetic is in fixed point: see [`fixed`].

use vstd::prelude::*;

pub mod color;
pub mod enemies;
pub mod fixed;
pub mod framebuffer;
pub mod level;
pub mod minimap;
pub mod moon;
pub mod raycaster;
pub mod render;
pub mod screen;
pub mod sprite;
pub mod texture;
pub mod update;

use crate::fixed::{lemma_div_at_least, lemma_div_below, ONE};
use crate::texture::GameTextures;

verus! {

/// One tile of the maze.
#[derive(Clone, Copy, Debug, PartialEq, Eq, Structural)]
pub enum BoardCell {
    Empty,
    Player,
    Goal,
    HorizontalWall,
    VerticalWall,
    PillarWall,
}

impl BoardCell {
    /// The three wall variants are solid: they block movement and stop rays.
    pub open spec fn is_solid(self) -> bool {
        self is HorizontalWall || self is VerticalWall || self is PillarWall
    }
}

/// The largest coordinate of a position: the far edge of the largest framebuffer.
pub const MAX_COORD: i64 = 1_073_741_824;

/// The largest magnitude of an orientation, in fixed-point radians.
pub const MAX_ANGLE: i64 = 2_147_483_648;

/// The largest field of view, in fixed-point radians.
pub const MAX_FOV: i64 = 524_288;

/// How far the squared length of a direction may be from that of a unit
/// vector: the room that rounding its two components takes.
pub const UNIT_TOLERANCE: i64 = 262_144;

/// A position in pixel space, in fixed point.
#[derive(Clone, Copy, Debug, PartialEq, Eq, Structural)]
pub struct Point {
    pub x: i64,
    pub y: i64,
}

impl Point {
    /// Both coordinates lie between the origin and `MAX_COORD`.
    pub open spec fn wf(self) -> bool {
        0 <= self.x <= MAX_COORD && 0 <= self.y <= MAX_COORD
    }

    /// Tells whether the point is well formed.
    pub fn is_well_formed(&self) -> (valid: bool)
        ensures
            valid == self.wf(),
    {
        0 <= self.x && self.x <= MAX_COORD && 0 <= self.y && self.y <= MAX_COORD
    }
}

/// The cosine and sine of an angle, in fixed point.
#[derive(Clone, Copy, Debug, PartialEq, Eq, Structural)]
pub struct Direction {
    pub cos: i64,
    pub sin: i64,
}

impl Direction {
    /// The vector has length one, up to the rounding of its components.
    pub open spec fn wf(self) -> bool {
        &&& -ONE <= self.cos <= ONE
        &&& -ONE <= self.sin <= ONE
        &&& ONE * ONE - UNIT_TOLERANCE <= self.cos * self.cos + self.sin * self.sin
        &&& self.cos * self.cos + self.sin * self.sin <= ONE * ONE + UNIT_TOLERANCE
    }

    /// Tells whether the direction is well formed.
    pub fn is_well_formed(&self) -> (valid: bool)
        ensures
            valid == self.wf(),
    {
        let cos: i64 = self.cos;
        let sin: i64 = self.sin;
        if cos < -ONE || cos > ONE || sin < -ONE || sin > ONE {
            return false;
        }
        proof {
            crate::fixed::lemma_mul_bounded(cos as int, cos as int, 65536, 65536);
            crate::fixed::lemma_mul_bounded(sin as int, sin as int, 65536, 65536);
        }
        let square: i64 = cos * cos + sin * sin;
        ONE * ONE - UNIT_TOLERANCE <= square && square <= ONE * ONE + UNIT_TOLERANCE
    }

    /// Accepts a cosine and a sine that make a unit vector up to rounding.
    pub fn new(cos: i64, sin: i64) -> (direction: Option<Direction>)
        ensures
            direction is Some <==> (Direction { cos, sin }).wf(),
            direction matches Some(d) ==> d == (Direction { cos, sin }),
    {
        let direction = Direction { cos, sin };
        if direction.is_well_formed() {
            Some(direction)
        } else {
            None
        }
    }
}

/// The maze: rows of cells, and the size of one cell in fixed-point pixels.
pub struct Board {
    pub cells: Vec<Vec<BoardCell>>,
    pub cell_dimensions: (i64, i64),
}

impl Board {
    /// The number of rows.
    pub open spec fn rows(&self) -> int {
        self.cells@.len() as int
    }

    /// The number of cells in a row.
    pub open spec fn cols(&self) -> int {
        self.cells@[0]@.len() as int
    }

    /// The width of a cell.
    pub open spec fn cell_width(&self) -> int {
        self.cell_dimensions.0 as int
    }

    /// The height of a cell.
    pub open spec fn cell_height(&self) -> int {
        self.cell_dimensions.1 as int
    }

    /// The grid is a non-empty rectangle of cells of positive size, and it
    /// reaches no further than `MAX_COORD` either way.
    pub open spec fn wf(&self) -> bool {
        &&& 0 < self.rows() <= MAX_COORD
        &&& 0 < self.cols() <= MAX_COORD
        &&& forall|j: int|
            0 <= j < self.rows() ==> (#[trigger] self.cells@[j])@.len() == self.cols()
        &&& 0 < self.cell_width() <= MAX_COORD
        &&& 0 < self.cell_height() <= MAX_COORD
        &&& self.cols() * self.cell_width() <= MAX_COORD
        &&& self.rows() * self.cell_height() <= MAX_COORD
    }

    /// The cell in column `i` of row `j`.
    pub open spec fn cell(&self, i: int, j: int) -> BoardCell {
        self.cells@[j]@[i]
    }

    /// Whether the position `(x, y)` lies on the grid.
    pub open spec fn in_grid(&self, x: int, y: int) -> bool {
        &&& 0 <= x < self.cols() * self.cell_width()
        &&& 0 <= y < self.rows() * self.cell_height()
    }

    /// The cell that holds the position `(x, y)`.
    pub open spec fn cell_at(&self, x: int, y: int) -> BoardCell {
        self.cell(x / self.cell_width(), y / self.cell_height())
    }

    /// Whether the position lies on the grid in a cell that is not solid.
    pub open spec fn passable_at(&self, x: int, y: int) -> bool {
        self.in_grid(x, y) && !self.cell_at(x, y).is_solid()
    }

    /// Whether the position lies on the grid in a solid cell.
    pub open spec fn solid_at(&self, x: int, y: int) -> bool {
        self.in_grid(x, y) && self.cell_at(x, y).is_solid()
    }

    /// Whether every cell on the rim of the grid is solid.
    pub open spec fn walled(&self) -> bool {
        forall|i: int, j: int|
            0 <= i < self.cols() && 0 <= j < self.rows() && (i == 0 || j == 0 || i == self.cols()
                - 1 || j == self.rows() - 1) ==> (#[trigger] self.cell(i, j)).is_solid()
    }

    /// Tells whether the board is well formed.
    pub fn is_well_formed(&self) -> (valid: bool)
        ensures
            valid == self.wf(),
    {
        let rows: usize = self.cells.len();
        if rows == 0 || rows > MAX_COORD as usize {
            return false;
        }
        let cols: usize = self.cells[0].len();
        if cols == 0 || cols > MAX_COORD as usize {
            return false;
        }
        let mut j: usize = 0;
        while j < rows
            invariant
                j <= rows,
                rows == self.cells@.len(),
                cols == self.cells@[0]@.len(),
                forall|k: int| 0 <= k < j ==> (#[trigger] self.cells@[k])@.len() == cols,
            decreases rows - j,
        {
            if self.cells[j].len() != cols {
                return false;
            }
            j += 1;
        }
        let (cell_width, cell_height) = self.cell_dimensions;
        if cell_width <= 0 || cell_width > MAX_COORD || cell_height <= 0 || cell_height
            > MAX_COORD {
            return false;
        }
        proof {
            crate::fixed::lemma_mul_bounded(
                cols as int,
                cell_width as int,
                1_073_741_824,
                1_073_741_824,
            );
            crate::fixed::lemma_mul_bounded(
                rows as int,
                cell_height as int,
                1_073_741_824,
                1_073_741_824,
            );
        }
        (cols as i64) * cell_width <= MAX_COORD && (rows as i64) * cell_height <= MAX_COORD
    }

    /// Builds a board, or refuses cells and sizes that are not well formed.
    pub fn new(cells: Vec<Vec<BoardCell>>, cell_dimensions: (i64, i64)) -> (board: Option<Board>)
        ensures
            board is Some <==> (Board { cells, cell_dimensions }).wf(),
            board matches Some(b) ==> b.cells == cells && b.cell_dimensions == cell_dimensions,
    {
        let board = Board { cells, cell_dimensions };
        if board.is_well_formed() {
            Some(board)
        } else {
            None
        }
    }

    /// The column and row of the cell that holds `(x, y)`, if the position
    /// lies on the grid.
    pub fn locate(&self, x: i64, y: i64) -> (place: Option<(usize, usize)>)
        requires
            self.wf(),
        ensures
            place is Some <==> self.in_grid(x as int, y as int),
            place matches Some((i, j)) ==> {
                &&& i == x as int / self.cell_width()
                &&& j == y as int / self.cell_height()
                &&& i < self.cols()
                &&& j < self.rows()
            },
    {
        if x < 0 || y < 0 {
            return None;
        }
        let (cell_width, cell_height) = self.cell_dimensions;
        let i: i64 = x / cell_width;
        let j: i64 = y / cell_height;
        let rows: usize = self.cells.len();
        let cols: usize = self.cells[0].len();
        proof {
            if x >= self.cols() * self.cell_width() {
                lemma_div_at_least(x as int, self.cols(), self.cell_width());
            } else {
                lemma_div_below(x as int, self.cols(), self.cell_width());
            }
            if y >= self.rows() * self.cell_height() {
                lemma_div_at_least(y as int, self.rows(), self.cell_height());
            } else {
                lemma_div_below(y as int, self.rows(), self.cell_height());
            }
        }
        if i >= cols as i64 || j >= rows as i64 {
            return None;
        }
        Some((i as usize, j as usize))
    }

    /// The cell in column `i` of row `j`.
    pub fn get(&self, i: usize, j: usize) -> (cell: BoardCell)
        requires
            self.wf(),
            i < self.cols(),
            j < self.rows(),
        ensures
            cell == self.cell(i as int, j as int),
    {
        self.cells[j][i]
    }
}

/// How the scene is shown.
#[derive(Clone, Copy, Debug, PartialEq, Eq, Structural)]
pub enum GameMode {
    TwoD,
    ThreeD,
}

/// What the frame shows: one of the full-screen images, or the scene.
#[derive(Clone, Copy, Debug, PartialEq, Eq, Structural)]
pub enum GameStatus {
    SplashScreen,
    MainMenu,
    Gaming,
    YouLost,
    YouWon,
}

/// The player's pose.
#[derive(Clone, Copy, Debug, PartialEq, Eq, Structural)]
pub struct Player {
    pub position: Point,
    pub orientation: i64,
    pub fov: i64,
}

impl Player {
    /// The position is in range, the orientation is at most `MAX_ANGLE`
    /// either way, and the field of view is positive and at most `MAX_FOV`.
    pub open spec fn wf(self) -> bool {
        &&& self.position.wf()
        &&& -MAX_ANGLE <= self.orientation <= MAX_ANGLE
        &&& 0 < self.fov <= MAX_FOV
    }

    /// Tells whether the pose is well formed.
    pub fn is_well_formed(&self) -> (valid: bool)
        ensures
            valid == self.wf(),
    {
        self.position.is_well_formed() && -MAX_ANGLE <= self.orientation && self.orientation
            <= MAX_ANGLE && 0 < self.fov && self.fov <= MAX_FOV
    }
}

/// What can happen to the model between two frames.
#[derive(Clone, Copy, Debug, PartialEq, Eq, Structural)]
pub enum Message {
    Move(Point),
    Rotate(i64),
    TogleMode,
    TickMoon,
}

/// Everything a frame is drawn from.
pub struct Model {
    pub board: Board,
    pub framebuffer_dimensions: (usize, usize),
    pub player: Player,
    pub mode: GameMode,
    pub status: GameStatus,
    pub textures: GameTextures,
    pub lolibunnies: Vec<enemies::LoliBunny>,
    pub moon_phase: i64,
}

impl Model {
    /// Every part is well formed, the framebuffer size is one that a
    /// framebuffer can have, and the moon's phase lies in `[0, ONE]`.
    pub open spec fn wf(&self) -> bool {
        &&& self.board.wf()
        &&& 0 < self.framebuffer_dimensions.0 <= crate::framebuffer::MAX_DIMENSION
        &&& 0 < self.framebuffer_dimensions.1 <= crate::framebuffer::MAX_DIMENSION
        &&& self.player.wf()
        &&& self.textures.wf()
        &&& forall|k: int|
            0 <= k < self.lolibunnies@.len() ==> (#[trigger] self.lolibunnies@[k]).position.wf()
        &&& 0 <= self.moon_phase <= ONE
    }

    /// Tells whether the model is well formed.
    pub fn is_well_formed(&self) -> (valid: bool)
        ensures
            valid == self.wf(),
    {
        if !self.board.is_well_formed() || !self.player.is_well_formed()
            || !self.textures.is_well_formed() {
            return false;
        }
        let (width, height) = self.framebuffer_dimensions;
        if width == 0 || width > crate::framebuffer::MAX_DIMENSION || height == 0 || height
            > crate::framebuffer::MAX_DIMENSION {
            return false;
        }
        if self.moon_phase < 0 || self.moon_phase > ONE {
            return false;
        }
        let mut k: usize = 0;
        while k < self.lolibunnies.len()
            invariant
                k <= self.lolibunnies@.len(),
                forall|i: int| 0 <= i < k ==> (#[trigger] self.lolibunnies@[i]).position.wf(),
            decreases self.lolibunnies@.len() - k,
        {
            if !self.lolibunnies[k].position.is_well_formed() {
                return false;
            }
            k += 1;
        }
        true
    }
}

/// Tells whether a cell blocks movement and terminates rays.
pub fn is_border(c: &BoardCell) -> (solid: bool)
    ensures
        solid == c.is_solid(),
{
    match c {
        BoardCell::VerticalWall | BoardCell::HorizontalWall | BoardCell::PillarWall => true,
        _ => false,
    }
}

/// Whether two fixed-point numbers are within `eps` of each other.
pub fn are_equal(first: i64, second: i64, eps: i64) -> (near: bool)
    ensures
        near == (first - second <= eps && second - first <= eps),
{
    let difference: i128 = first as i128 - second as i128;
    difference <= eps as i128 && -difference <= eps as i128
}

} // verus!
