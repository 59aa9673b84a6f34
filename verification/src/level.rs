//! Levels: the text of a maze, the size of its cells and the place where
//! the player starts.

use vstd::prelude::*;
use crate::enemies::LoliBunny;
use crate::fixed::{lemma_div_shrinks, lemma_mul_bounded, ONE};
use crate::framebuffer::MAX_DIMENSION;
use crate::texture::GameTextures;
use crate::{Board, BoardCell, GameMode, GameStatus, Model, Player, Point};

verus! {

/// The cell that a character of a maze stands for, if it stands for one.
pub open spec fn cell_of_char(c: char) -> Option<BoardCell> {
    if c == '|' {
        Some(BoardCell::VerticalWall)
    } else if c == '-' {
        Some(BoardCell::HorizontalWall)
    } else if c == '+' {
        Some(BoardCell::PillarWall)
    } else if c == 'g' {
        Some(BoardCell::Goal)
    } else if c == 'p' {
        Some(BoardCell::Player)
    } else if c == ' ' {
        Some(BoardCell::Empty)
    } else {
        None
    }
}

/// The cells that the characters of a line stand for, in order; characters
/// that stand for no cell are left out.
pub open spec fn cells_of_line(line: Seq<char>) -> Seq<BoardCell>
    decreases line.len(),
{
    if line.len() == 0 {
        Seq::empty()
    } else {
        let before = cells_of_line(line.drop_last());
        match cell_of_char(line.last()) {
            Some(cell) => before.push(cell),
            None => before,
        }
    }
}

/// Reads one character of a maze.
pub fn cell_from_char(c: char) -> (cell: Option<BoardCell>)
    ensures
        cell == cell_of_char(c),
{
    if c == '|' {
        Some(BoardCell::VerticalWall)
    } else if c == '-' {
        Some(BoardCell::HorizontalWall)
    } else if c == '+' {
        Some(BoardCell::PillarWall)
    } else if c == 'g' {
        Some(BoardCell::Goal)
    } else if c == 'p' {
        Some(BoardCell::Player)
    } else if c == ' ' {
        Some(BoardCell::Empty)
    } else {
        None
    }
}

/// Reads one line of a maze, already trimmed: an empty line is no row, and
/// any other line is the row of the cells that its characters stand for.
pub fn parse_row(line: &Vec<char>) -> (row: Option<Vec<BoardCell>>)
    ensures
        row is None <==> line@.len() == 0,
        row matches Some(cells) ==> cells@ == cells_of_line(line@),
{
    if line.len() == 0 {
        return None;
    }
    let mut cells: Vec<BoardCell> = Vec::new();
    let mut k: usize = 0;
    while k < line.len()
        invariant
            k <= line@.len(),
            cells@ == cells_of_line(line@.take(k as int)),
        decreases line@.len() - k,
    {
        proof {
            assert(line@.take(k + 1).drop_last() =~= line@.take(k as int));
        }
        match cell_from_char(line[k]) {
            Some(cell) => {
                cells.push(cell);
            },
            None => {},
        }
        k += 1;
    }
    proof {
        assert(line@.take(line@.len() as int) =~= line@);
    }
    Some(cells)
}

/// The lines of a level as sequences of characters.
pub open spec fn lines_view(lines: Seq<Vec<char>>) -> Seq<Seq<char>> {
    Seq::new(lines.len(), |k: int| lines[k]@)
}

/// The rows of a maze as sequences of cells.
pub open spec fn rows_view(rows: Seq<Vec<BoardCell>>) -> Seq<Seq<BoardCell>> {
    Seq::new(rows.len(), |k: int| rows[k]@)
}

/// The rows that the lines of a level stand for: one row for each line
/// that is not empty, in the order of the lines, with the cells that the
/// characters of the line stand for.
pub open spec fn rows_of_lines(lines: Seq<Seq<char>>) -> Seq<Seq<BoardCell>>
    decreases lines.len(),
{
    if lines.len() == 0 {
        Seq::empty()
    } else {
        let before = rows_of_lines(lines.drop_last());
        if lines.last().len() == 0 {
            before
        } else {
            before.push(cells_of_line(lines.last()))
        }
    }
}

/// Reads the lines of a level, already trimmed: empty lines are skipped, and
/// every other line gives one row of the maze.
pub fn parse_level(lines: &Vec<Vec<char>>) -> (cells: Vec<Vec<BoardCell>>)
    ensures
        rows_view(cells@) == rows_of_lines(lines_view(lines@)),
{
    let mut cells: Vec<Vec<BoardCell>> = Vec::new();
    let mut k: usize = 0;
    while k < lines.len()
        invariant
            k <= lines@.len(),
            rows_view(cells@) == rows_of_lines(lines_view(lines@).take(k as int)),
        decreases lines@.len() - k,
    {
        let ghost before = cells@;
        proof {
            assert(lines_view(lines@).take(k + 1).drop_last() =~= lines_view(lines@).take(
                k as int,
            ));
            assert(lines_view(lines@).take(k + 1).last() == lines@[k as int]@);
        }
        match parse_row(&lines[k]) {
            Some(row) => {
                cells.push(row);
                proof {
                    assert(rows_view(cells@) =~= rows_view(before).push(row@));
                }
            },
            None => {},
        }
        k += 1;
    }
    proof {
        assert(lines_view(lines@).take(lines@.len() as int) =~= lines_view(lines@));
    }
    cells
}

/// Whether a character is white space, as the standard library tells it.
pub uninterp spec fn char_is_whitespace(c: char) -> bool;

/// Calls `char::is_whitespace` of the standard library, which tells whether
/// a character has the `White_Space` property of Unicode. The contract
/// claims only that the answer depends on the character alone.
#[verifier::external_body]
fn is_whitespace(c: char) -> (blank: bool)
    ensures
        blank == char_is_whitespace(c),
{
    c.is_whitespace()
}

/// For each character of a line, whether it is white space.
pub open spec fn blank_flags(line: Seq<char>) -> Seq<bool> {
    Seq::new(line.len(), |k: int| char_is_whitespace(line[k]))
}

/// How many flags are set before the first one that is not.
pub open spec fn blanks_before(blank: Seq<bool>) -> nat
    decreases blank.len(),
{
    if blank.len() > 0 && blank[0] {
        1 + blanks_before(blank.drop_first())
    } else {
        0
    }
}

/// How many flags are set after the last one that is not.
pub open spec fn blanks_after(blank: Seq<bool>) -> nat
    decreases blank.len(),
{
    if blank.len() > 0 && blank.last() {
        1 + blanks_after(blank.drop_last())
    } else {
        0
    }
}

/// Where the part of a line between its leading and its trailing blanks
/// starts: after the leading blanks.
pub open spec fn span_start(blank: Seq<bool>) -> int {
    blanks_before(blank) as int
}

/// Where the part of a line between its leading and its trailing blanks
/// ends: before the trailing blanks, or at the end if the line is blank.
pub open spec fn span_end(blank: Seq<bool>) -> int {
    if blanks_before(blank) == blank.len() {
        blank.len() as int
    } else {
        blank.len() - blanks_after(blank)
    }
}

/// A line without its leading and trailing white space.
pub open spec fn trimmed(line: Seq<char>) -> Seq<char> {
    line.subrange(span_start(blank_flags(line)), span_end(blank_flags(line)))
}

/// The lines of a level, each without its leading and trailing white space.
pub open spec fn trimmed_lines(lines: Seq<Vec<char>>) -> Seq<Seq<char>> {
    Seq::new(lines.len(), |k: int| trimmed(lines[k]@))
}

/// The leading blanks are those before the first flag that is not set.
proof fn lemma_blanks_before(blank: Seq<bool>, start: int)
    requires
        0 <= start <= blank.len(),
        forall|k: int| 0 <= k < start ==> blank[k],
        start < blank.len() ==> !blank[start],
    ensures
        blanks_before(blank) == start,
    decreases start,
{
    if start > 0 {
        let rest = blank.drop_first();
        assert forall|k: int| 0 <= k < start - 1 implies rest[k] by {
            assert(rest[k] == blank[k + 1]);
        }
        if start - 1 < rest.len() {
            assert(rest[start - 1] == blank[start]);
        }
        lemma_blanks_before(rest, start - 1);
    }
}

/// The trailing blanks are those after the last flag that is not set.
proof fn lemma_blanks_after(blank: Seq<bool>, end: int)
    requires
        0 <= end <= blank.len(),
        forall|k: int| end <= k < blank.len() ==> blank[k],
        end > 0 ==> !blank[end - 1],
    ensures
        blanks_after(blank) == blank.len() - end,
    decreases blank.len() - end,
{
    if end < blank.len() {
        let rest = blank.drop_last();
        assert forall|k: int| end <= k < rest.len() implies rest[k] by {
            assert(rest[k] == blank[k]);
        }
        if end > 0 {
            assert(rest[end - 1] == blank[end - 1]);
        }
        lemma_blanks_after(rest, end);
    }
}

/// Finds the part of a line between its leading and its trailing blanks,
/// given for each character whether it is blank.
pub fn trim_span(blank: &Vec<bool>) -> (span: (usize, usize))
    ensures
        span.0 == span_start(blank@),
        span.1 == span_end(blank@),
        span.0 <= span.1 <= blank@.len(),
{
    let mut start: usize = 0;
    while start < blank.len() && blank[start]
        invariant
            start <= blank@.len(),
            forall|k: int| 0 <= k < start ==> blank@[k],
        decreases blank@.len() - start,
    {
        start += 1;
    }
    proof {
        lemma_blanks_before(blank@, start as int);
    }
    let mut end: usize = blank.len();
    while end > start && blank[end - 1]
        invariant
            start <= end <= blank@.len(),
            forall|k: int| end <= k < blank@.len() ==> blank@[k],
        decreases end,
    {
        end -= 1;
    }
    proof {
        if start < blank@.len() {
            lemma_blanks_after(blank@, end as int);
        }
    }
    (start, end)
}

/// Takes the white space off both ends of a line.
pub fn trim_line(line: &Vec<char>) -> (text: Vec<char>)
    ensures
        text@ == trimmed(line@),
{
    let mut blank: Vec<bool> = Vec::new();
    let mut k: usize = 0;
    while k < line.len()
        invariant
            k <= line@.len(),
            blank@.len() == k,
            forall|i: int| 0 <= i < k ==> blank@[i] == char_is_whitespace(line@[i]),
        decreases line@.len() - k,
    {
        blank.push(is_whitespace(line[k]));
        k += 1;
    }
    proof {
        assert(blank@ =~= blank_flags(line@));
    }
    let (start, end) = trim_span(&blank);
    let mut text: Vec<char> = Vec::new();
    let mut at: usize = start;
    while at < end
        invariant
            start <= at <= end <= line@.len(),
            text@ == line@.subrange(start as int, at as int),
        decreases end - at,
    {
        text.push(line[at]);
        proof {
            assert(text@ =~= line@.subrange(start as int, at + 1));
        }
        at += 1;
    }
    text
}

/// Reads the lines of a level: white space at the ends of a line does not
/// count, lines that are empty without it are skipped, and every other line
/// gives one row of the maze.
pub fn read_level(lines: &Vec<Vec<char>>) -> (cells: Vec<Vec<BoardCell>>)
    ensures
        rows_view(cells@) == rows_of_lines(trimmed_lines(lines@)),
{
    let mut texts: Vec<Vec<char>> = Vec::new();
    let mut k: usize = 0;
    while k < lines.len()
        invariant
            k <= lines@.len(),
            texts@.len() == k,
            forall|i: int| 0 <= i < k ==> (#[trigger] texts@[i])@ == trimmed(lines@[i]@),
        decreases lines@.len() - k,
    {
        texts.push(trim_line(&lines[k]));
        k += 1;
    }
    proof {
        assert(lines_view(texts@) =~= trimmed_lines(lines@));
    }
    parse_level(&texts)
}

/// The size of a cell along a side of the frame that is `extent` pixels
/// long and holds `count` cells, in fixed-point pixels.
pub open spec fn cell_extent(extent: int, count: int) -> int {
    extent * ONE / count
}

/// Lays the cells of a maze over a frame of `width` by `height` pixels. The
/// cells must make a non-empty rectangle with no more columns than the
/// frame is wide and no more rows than it is tall.
pub fn board_for_frame(cells: Vec<Vec<BoardCell>>, width: usize, height: usize) -> (board: Option<
    Board,
>)
    ensures
        board is Some <==> 0 < width <= MAX_DIMENSION && 0 < height <= MAX_DIMENSION && 0
            < cells@.len() && 0 < cells@[0]@.len() && (Board {
            cells,
            cell_dimensions: (
                cell_extent(width as int, cells@[0]@.len() as int) as i64,
                cell_extent(height as int, cells@.len() as int) as i64,
            ),
        }).wf(),
        board matches Some(b) ==> {
            &&& b.wf()
            &&& b.cells == cells
            &&& b.cell_width() == cell_extent(width as int, b.cols())
            &&& b.cell_height() == cell_extent(height as int, b.rows())
        },
{
    if width == 0 || width > MAX_DIMENSION || height == 0 || height > MAX_DIMENSION {
        return None;
    }
    if cells.len() == 0 || cells[0].len() == 0 {
        return None;
    }
    proof {
        lemma_div_shrinks(width * ONE, cells@[0]@.len() as int);
        lemma_div_shrinks(height * ONE, cells@.len() as int);
    }
    let cell_width: i128 = (width as i128) * (ONE as i128) / (cells[0].len() as i128);
    let cell_height: i128 = (height as i128) * (ONE as i128) / (cells.len() as i128);
    Board::new(cells, (cell_width as i64, cell_height as i64))
}

/// Whether the cell in column `i` of row `j` is where the player starts.
pub open spec fn is_start(cells: Seq<Vec<BoardCell>>, i: int, j: int) -> bool {
    0 <= j < cells.len() && 0 <= i < cells[j]@.len() && cells[j]@[i] is Player
}

/// Whether `(i, j)` comes before `(i2, j2)` in reading order.
pub open spec fn reads_before(i: int, j: int, i2: int, j2: int) -> bool {
    j < j2 || (j == j2 && i < i2)
}

/// Finds the column and row of the first cell, in reading order, that marks
/// the player's start; the first cell of the maze if no cell does.
pub fn extract_player_starting_position(cells: &Vec<Vec<BoardCell>>) -> (place: (usize, usize))
    ensures
        is_start(cells@, place.0 as int, place.1 as int) || (place == (0usize, 0usize)
            && forall|i: int, j: int| !is_start(cells@, i, j)),
        forall|i: int, j: int|
            reads_before(i, j, place.0 as int, place.1 as int) ==> !is_start(cells@, i, j),
{
    let mut j: usize = 0;
    while j < cells.len()
        invariant
            j <= cells@.len(),
            forall|i: int, k: int| k < j ==> !is_start(cells@, i, k),
        decreases cells@.len() - j,
    {
        let mut i: usize = 0;
        while i < cells[j].len()
            invariant
                j < cells@.len(),
                i <= cells@[j as int]@.len(),
                forall|a: int, k: int| k < j ==> !is_start(cells@, a, k),
                forall|a: int| a < i ==> !is_start(cells@, a, j as int),
            decreases cells@[j as int]@.len() - i,
        {
            match cells[j][i] {
                BoardCell::Player => {
                    return (i, j);
                },
                _ => {},
            }
            i += 1;
        }
        j += 1;
    }
    (0, 0)
}

/// The middle of the cell in column `i` of row `j`.
pub open spec fn cell_center(board: &Board, i: int, j: int) -> Point {
    Point {
        x: (i * board.cell_width() + board.cell_width() / 2) as i64,
        y: (j * board.cell_height() + board.cell_height() / 2) as i64,
    }
}

/// The position of the middle of a cell of the board.
pub fn center_of_cell(board: &Board, i: usize, j: usize) -> (center: Point)
    requires
        board.wf(),
        i < board.cols(),
        j < board.rows(),
    ensures
        center == cell_center(board, i as int, j as int),
        center.wf(),
        board.in_grid(center.x as int, center.y as int),
        center.x as int / board.cell_width() == i,
        center.y as int / board.cell_height() == j,
{
    let (cell_width, cell_height) = board.cell_dimensions;
    proof {
        let w = cell_width as int;
        let h = cell_height as int;
        lemma_mul_bounded(i as int, w, 1_073_741_824, 1_073_741_824);
        lemma_mul_bounded(j as int, h, 1_073_741_824, 1_073_741_824);
        crate::fixed::lemma_mul_monotone(i + 1, board.cols(), w);
        crate::fixed::lemma_mul_monotone(j + 1, board.rows(), h);
        crate::fixed::lemma_mul_monotone(0, i as int, w);
        crate::fixed::lemma_mul_monotone(0, j as int, h);
        assert((i + 1) * w == i * w + w) by (nonlinear_arith);
        assert((j + 1) * h == j * h + h) by (nonlinear_arith);
        crate::fixed::lemma_div_below(i * w + w / 2, i + 1, w);
        crate::fixed::lemma_div_at_least(i * w + w / 2, i as int, w);
        crate::fixed::lemma_div_below(j * h + h / 2, j + 1, h);
        crate::fixed::lemma_div_at_least(j * h + h / 2, j as int, h);
    }
    Point {
        x: (i as i64) * cell_width + cell_width / 2,
        y: (j as i64) * cell_height + cell_height / 2,
    }
}

/// The field of view that the player starts with: a quarter turn, in
/// fixed-point radians.
pub const START_FOV: i64 = 102_944;

/// Where the one sprite of the game stands along both axes: 250 pixels
/// from the origin, in fixed point.
pub const SPRITE_PLACE: i64 = 16_384_000;

/// The one sprite of the game at the start.
pub open spec fn sprite_at_start() -> LoliBunny {
    LoliBunny { position: Point { x: SPRITE_PLACE, y: SPRITE_PLACE } }
}

/// The player at the start of a level: in the middle of a cell, looking
/// along the first axis.
pub open spec fn player_at_start(board: &Board, i: int, j: int) -> Player {
    Player { position: cell_center(board, i, j), orientation: 0, fov: START_FOV }
}

/// Puts the player in the middle of the cell in column `i` of row `j`,
/// looking along the first axis with a field of view of a quarter turn.
pub fn starting_player(board: &Board, i: usize, j: usize) -> (player: Player)
    requires
        board.wf(),
        i < board.cols(),
        j < board.rows(),
    ensures
        player == player_at_start(board, i as int, j as int),
        player.position == cell_center(board, i as int, j as int),
        player.orientation == 0,
        player.fov == START_FOV,
        player.wf(),
        board.in_grid(player.position.x as int, player.position.y as int),
{
    Player { position: center_of_cell(board, i, j), orientation: 0, fov: START_FOV }
}

/// The model at the start of the game: the player in the cell in column `i`
/// of row `j`, one sprite at its place, the moon at the start of its way,
/// and the scene shown in three dimensions.
pub fn starting_model(
    board: Board,
    textures: GameTextures,
    width: usize,
    height: usize,
    i: usize,
    j: usize,
) -> (data: Model)
    requires
        board.wf(),
        textures.wf(),
        0 < width <= MAX_DIMENSION,
        0 < height <= MAX_DIMENSION,
        i < board.cols(),
        j < board.rows(),
    ensures
        data.wf(),
        data.board == board,
        data.textures == textures,
        data.framebuffer_dimensions == (width, height),
        data.player == player_at_start(&board, i as int, j as int),
        data.mode == GameMode::ThreeD,
        data.status == GameStatus::Gaming,
        data.lolibunnies@ == seq![sprite_at_start()],
        data.moon_phase == 0,
{
    let player = starting_player(&board, i, j);
    let mut lolibunnies: Vec<LoliBunny> = Vec::new();
    lolibunnies.push(LoliBunny { position: Point { x: SPRITE_PLACE, y: SPRITE_PLACE } });
    proof {
        assert(lolibunnies@ =~= seq![sprite_at_start()]);
    }
    Model {
        board,
        framebuffer_dimensions: (width, height),
        player,
        mode: GameMode::ThreeD,
        status: GameStatus::Gaming,
        textures,
        lolibunnies,
        moon_phase: 0,
    }
}

} // verus!
