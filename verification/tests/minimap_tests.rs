#![allow(dead_code)]
#![allow(unused_imports)]

use hornystein::color::Color;
use hornystein::enemies::LoliBunny;
use hornystein::fixed::{HALF, ONE};
use hornystein::framebuffer::Framebuffer;
use hornystein::render::FrameInput;
use hornystein::texture::{AnimatedTexture, GameTextures, Texture};
use hornystein::{
    Board, BoardCell, Direction, GameMode, GameStatus, Model, Player, Point,
};

fn fx(v: f64) -> i64 {
    (v * 65536.0).round() as i64
}

fn direction(angle: f64) -> Direction {
    Direction::new(fx(angle.cos()), fx(angle.sin())).expect("a unit vector")
}

fn ring_cells() -> Vec<Vec<BoardCell>> {
    vec![
        vec![BoardCell::PillarWall, BoardCell::HorizontalWall, BoardCell::PillarWall],
        vec![BoardCell::VerticalWall, BoardCell::Empty, BoardCell::VerticalWall],
        vec![BoardCell::PillarWall, BoardCell::HorizontalWall, BoardCell::PillarWall],
    ]
}

fn ring_board(cell_pixels: i64) -> Board {
    Board::new(ring_cells(), (cell_pixels * ONE, cell_pixels * ONE)).expect("a board")
}

fn flat_texture(width: u32, height: u32, hex: u32) -> Texture {
    let colors = vec![Color::from_hex(hex); (width * height) as usize];
    Texture::new(width, height, colors).expect("a texture")
}

fn flat_animation(hexes: &[u32]) -> AnimatedTexture {
    let frames = hexes.iter().map(|hex| vec![Color::from_hex(*hex)]).collect();
    AnimatedTexture::new(1, 1, frames).expect("an animation")
}

fn textures() -> GameTextures {
    GameTextures {
        horizontal_wall: flat_texture(1, 1, 0x111111),
        vertical_wall: flat_texture(1, 1, 0x222222),
        corner_wall: flat_texture(1, 1, 0x333333),
        lolibunny: flat_texture(1, 1, 0x444444),
        moon: flat_texture(1, 1, 0x555555),
        start_screen: flat_texture(1, 1, 0x666666),
        splash_screen: flat_animation(&[0x700000, 0x710000, 0x720000]),
        loose_screen: flat_animation(&[0x800000, 0x810000]),
        win_screen: flat_animation(&[0x900000, 0x910000, 0x920000, 0x930000]),
    }
}

fn ring_model(side: usize) -> Model {
    let cell = (side as i64) / 3;
    Model {
        board: ring_board(cell),
        framebuffer_dimensions: (side, side),
        player: Player {
            position: Point { x: (cell + cell / 2) * ONE, y: (cell + cell / 2) * ONE },
            orientation: 0,
            fov: fx(std::f64::consts::FRAC_PI_2),
        },
        mode: GameMode::ThreeD,
        status: GameStatus::Gaming,
        textures: textures(),
        lolibunnies: vec![],
        moon_phase: 0,
    }
}

fn input_for(data: &Model, elapsed_millis: u64) -> FrameInput {
    let width = data.framebuffer_dimensions.0;
    let rays = (0..width)
        .map(|i| {
            let angle = hornystein::render::ray_angle(&data.player, i, width);
            direction(angle as f64 / 65536.0)
        })
        .collect();
    let fan = (0..hornystein::minimap::FAN_RAYS)
        .map(|i| {
            let angle =
                hornystein::render::ray_angle(&data.player, i, hornystein::minimap::FAN_RAYS);
            direction(angle as f64 / 65536.0)
        })
        .collect();
    let bearings = data
        .lolibunnies
        .iter()
        .map(|bunny| {
            let dy = (bunny.position.y - data.player.position.y) as f64;
            let dx = (bunny.position.x - data.player.position.x) as f64;
            fx(dy.atan2(dx))
        })
        .collect();
    FrameInput { elapsed_millis, rays, fan, bearings }
}

fn pixel(framebuffer: &Framebuffer, x: usize, y: usize) -> u32 {
    framebuffer.buffer[y * framebuffer.width + x]
}

use hornystein::minimap::{
    map_coordinate, marker_pixels, paint_product, pixel_at, render2d, render_cells, render_fan,
    render_markers, render_minimap, sample_pixels, MARKER_COLOR, PLAYER_COLOR,
};
use hornystein::render::scale_to_fit;

fn white(side: usize) -> Framebuffer {
    let mut framebuffer = Framebuffer::new(side, side).expect("a framebuffer");
    for word in framebuffer.buffer.iter_mut() {
        *word = 0x808080;
    }
    framebuffer
}

#[test]
fn minimap_is_a_fifth_of_the_frame_a_padding_from_the_far_corner() {
    assert_eq!(map_coordinate(0, 1000), 780 * ONE);
    assert_eq!(map_coordinate(500 * ONE, 1000), 880 * ONE);
    assert_eq!(map_coordinate(1000 * ONE, 1000), 980 * ONE);
    assert_eq!(map_coordinate(150 * ONE, 300), 250 * ONE);
    assert_eq!(map_coordinate(ONE, 300), 220 * ONE + ONE / 5);
    assert_eq!(map_coordinate(0, 20), -4 * ONE);
    assert_eq!(map_coordinate(10 * ONE, 20), -2 * ONE);
}

#[test]
fn positions_are_placed_on_the_minimap_along_both_sides() {
    let framebuffer = Framebuffer::new(1000, 300).expect("a framebuffer");
    let scaled = scale_to_fit(&framebuffer, Point { x: 500 * ONE, y: 150 * ONE });
    assert_eq!(scaled, Point { x: 880 * ONE, y: 250 * ONE });
    let corner = scale_to_fit(&framebuffer, Point { x: 0, y: 0 });
    assert_eq!(corner, Point { x: 780 * ONE, y: 220 * ONE });
}

#[test]
fn pixel_of_a_coordinate_is_its_whole_part_rounded_down() {
    assert_eq!(pixel_at(0), 0);
    assert_eq!(pixel_at(ONE - 1), 0);
    assert_eq!(pixel_at(ONE), 1);
    assert_eq!(pixel_at(-1), -1);
    assert_eq!(pixel_at(-ONE), -1);
    assert_eq!(pixel_at(-ONE - 1), -2);
    assert_eq!(pixel_at(880 * ONE + 7), 880);
}

#[test]
fn span_is_sampled_every_half_pixel() {
    let pixels = sample_pixels(0, 10 * ONE, 300);
    let mut expected = vec![220; 10];
    expected.extend(vec![221; 10]);
    assert_eq!(pixels, expected);
    assert_eq!(sample_pixels(100 * ONE, ONE, 300), vec![240, 240]);
    assert_eq!(sample_pixels(100 * ONE, ONE + 1, 300), vec![240, 240, 240]);
    assert_eq!(sample_pixels(100 * ONE, 1, 300), vec![240]);
    assert_eq!(sample_pixels(0, HALF, 20), vec![-4]);
}

#[test]
fn product_of_columns_and_rows_is_painted() {
    let mut framebuffer = Framebuffer::new(4, 4).expect("a framebuffer");
    paint_product(&mut framebuffer, &vec![1, 3, 9, -1], &vec![0, 2, 2, 7], Color::from_hex(5));
    let expected: Vec<u32> = vec![
        0, 5, 0, 5,
        0, 0, 0, 0,
        0, 5, 0, 5,
        0, 0, 0, 0,
    ];
    assert_eq!(framebuffer.buffer, expected);
    paint_product(&mut framebuffer, &vec![], &vec![0, 1], Color::from_hex(6));
    paint_product(&mut framebuffer, &vec![0, 1], &vec![], Color::from_hex(6));
    assert_eq!(framebuffer.buffer, expected);
}

#[test]
fn cells_fill_their_squares_of_the_minimap() {
    let data = ring_model(300);
    let mut framebuffer = white(300);
    render_cells(&mut framebuffer, &data);
    for y in 0..300 {
        for x in 0..300 {
            let on_map = (220..280).contains(&x) && (220..280).contains(&y);
            let in_middle = (240..260).contains(&x) && (240..260).contains(&y);
            let expected = if !on_map {
                0x808080
            } else if in_middle {
                0xffffff
            } else {
                0xff00ff
            };
            assert_eq!(pixel(&framebuffer, x, y), expected);
        }
    }
}

#[test]
fn goal_is_dark_red_on_the_minimap() {
    let mut cells = ring_cells();
    cells[1][1] = BoardCell::Goal;
    let mut data = ring_model(300);
    data.board = Board::new(cells, (100 * ONE, 100 * ONE)).expect("a board");
    let mut framebuffer = white(300);
    render_cells(&mut framebuffer, &data);
    assert_eq!(pixel(&framebuffer, 250, 250), 0x8b0000);
    assert_eq!(pixel(&framebuffer, 239, 250), 0xff00ff);
}

#[test]
fn fan_of_rays_is_traced_from_the_player() {
    let data = ring_model(300);
    let mut framebuffer = white(300);
    let fan = vec![
        Direction { cos: ONE, sin: 0 },
        Direction { cos: 0, sin: ONE },
        Direction { cos: -ONE, sin: 0 },
    ];
    render_fan(&mut framebuffer, &data, &fan);
    for y in 0..300 {
        for x in 0..300 {
            let right = y == 250 && (250..=260).contains(&x);
            let down = x == 250 && (250..=260).contains(&y);
            let left = y == 250 && (239..=250).contains(&x);
            let expected = if right || down || left { 0 } else { 0x808080 };
            assert_eq!(pixel(&framebuffer, x, y), expected);
        }
    }
}

#[test]
fn sprites_are_marked_with_red_squares() {
    assert_eq!(
        marker_pixels(150 * ONE, 300),
        vec![249, 249, 249, 249, 249, 250, 250, 250, 250, 250]
    );
    assert_eq!(marker_pixels(2 * ONE, 300), vec![220, 220, 220, 220, 220, 221, 221, 221, 221, 221]);
    assert_eq!(marker_pixels(5 * ONE + HALF, 300), marker_pixels(0, 300));
    let mut data = ring_model(300);
    data.lolibunnies = vec![LoliBunny { position: Point { x: 150 * ONE, y: 120 * ONE } }];
    let mut framebuffer = white(300);
    render_markers(&mut framebuffer, &data);
    for y in 0..300 {
        for x in 0..300 {
            let marked = (249..=250).contains(&x) && (243..=244).contains(&y);
            assert_eq!(pixel(&framebuffer, x, y), if marked { MARKER_COLOR } else { 0x808080 });
        }
    }
}

#[test]
fn minimap_shows_cells_rays_sprites_and_the_player_in_that_order() {
    let mut data = ring_model(300);
    data.lolibunnies = vec![LoliBunny { position: Point { x: 150 * ONE, y: 150 * ONE } }];
    let fan = input_for(&data, 0).fan;
    assert_eq!(fan.len(), 20);
    assert_eq!(fan[10], Direction { cos: ONE, sin: 0 });
    let mut framebuffer = white(300);
    render2d(&mut framebuffer, &data, &fan);
    assert_eq!((MARKER_COLOR, PLAYER_COLOR), (0xff0000, 0x0000ff));
    assert_eq!(pixel(&framebuffer, 250, 250), PLAYER_COLOR);
    assert_eq!(pixel(&framebuffer, 249, 250), MARKER_COLOR);
    assert_eq!(pixel(&framebuffer, 249, 249), MARKER_COLOR);
    assert_eq!(pixel(&framebuffer, 250, 249), MARKER_COLOR);
    assert_eq!(pixel(&framebuffer, 251, 250), 0);
    assert_eq!(pixel(&framebuffer, 260, 250), 0);
    assert_eq!(pixel(&framebuffer, 261, 250), 0xff00ff);
    assert_eq!(pixel(&framebuffer, 251, 251), 0);
    assert_eq!(pixel(&framebuffer, 255, 245), 0);
    assert_eq!(pixel(&framebuffer, 260, 258), 0);
    assert_eq!(pixel(&framebuffer, 250, 251), 0xffffff);
    assert_eq!(pixel(&framebuffer, 250, 248), 0xffffff);
    assert_eq!(pixel(&framebuffer, 249, 251), 0xffffff);
    assert_eq!(pixel(&framebuffer, 250, 238), 0xff00ff);
    assert_eq!(pixel(&framebuffer, 260, 240), 0xff00ff);
    assert_eq!(pixel(&framebuffer, 219, 219), 0x808080);
    assert_eq!(pixel(&framebuffer, 280, 280), 0x808080);
    let mut again = white(300);
    render_minimap(&mut again, &data, &fan);
    assert_eq!(again.buffer, framebuffer.buffer);
}

#[test]
fn fan_of_the_minimap_marks_the_steps_of_its_twenty_rays() {
    let data = ring_model(300);
    let fan = input_for(&data, 0).fan;
    let mut framebuffer = white(300);
    render_fan(&mut framebuffer, &data, &fan);
    let marked: Vec<(usize, usize)> = (0..300)
        .flat_map(|y| (0..300).map(move |x| (x, y)))
        .filter(|(x, y)| pixel(&framebuffer, *x, *y) == 0)
        .collect();
    assert_eq!(marked.len(), 125);
    assert!(marked.iter().all(|(x, y)| (250..=260).contains(x) && (239..=258).contains(y)));
    let row: Vec<usize> = marked.iter().filter(|(_, y)| *y == 250).map(|(x, _)| *x).collect();
    assert_eq!(row, (250..=260).collect::<Vec<usize>>());
}
