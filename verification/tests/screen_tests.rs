#![allow(dead_code)]
#![allow(unused_imports)]

use hornystein::color::Color;
use hornystein::enemies::LoliBunny;
use hornystein::fixed::{HALF, ONE};
use hornystein::framebuffer::Framebuffer;
use hornystein::render::FrameInput;
use hornystein::texture::{AnimatedTexture, GameTextures, Texture};
use hornystein::{
    Board, BoardCell, Direction, GameMode, GameStatus, Model, Player, Point,
};

fn fx(v: f64) -> i64 {
    (v * 65536.0).round() as i64
}

fn direction(angle: f64) -> Direction {
    Direction::new(fx(angle.cos()), fx(angle.sin())).expect("a unit vector")
}

fn ring_cells() -> Vec<Vec<BoardCell>> {
    vec![
        vec![BoardCell::PillarWall, BoardCell::HorizontalWall, BoardCell::PillarWall],
        vec![BoardCell::VerticalWall, BoardCell::Empty, BoardCell::VerticalWall],
        vec![BoardCell::PillarWall, BoardCell::HorizontalWall, BoardCell::PillarWall],
    ]
}

fn ring_board(cell_pixels: i64) -> Board {
    Board::new(ring_cells(), (cell_pixels * ONE, cell_pixels * ONE)).expect("a board")
}

fn flat_texture(width: u32, height: u32, hex: u32) -> Texture {
    let colors = vec![Color::from_hex(hex); (width * height) as usize];
    Texture::new(width, height, colors).expect("a texture")
}

fn flat_animation(hexes: &[u32]) -> AnimatedTexture {
    let frames = hexes.iter().map(|hex| vec![Color::from_hex(*hex)]).collect();
    AnimatedTexture::new(1, 1, frames).expect("an animation")
}

fn textures() -> GameTextures {
    GameTextures {
        horizontal_wall: flat_texture(1, 1, 0x111111),
        vertical_wall: flat_texture(1, 1, 0x222222),
        corner_wall: flat_texture(1, 1, 0x333333),
        lolibunny: flat_texture(1, 1, 0x444444),
        moon: flat_texture(1, 1, 0x555555),
        start_screen: flat_texture(1, 1, 0x666666),
        splash_screen: flat_animation(&[0x700000, 0x710000, 0x720000]),
        loose_screen: flat_animation(&[0x800000, 0x810000]),
        win_screen: flat_animation(&[0x900000, 0x910000, 0x920000, 0x930000]),
    }
}

fn ring_model(side: usize) -> Model {
    let cell = (side as i64) / 3;
    Model {
        board: ring_board(cell),
        framebuffer_dimensions: (side, side),
        player: Player {
            position: Point { x: (cell + cell / 2) * ONE, y: (cell + cell / 2) * ONE },
            orientation: 0,
            fov: fx(std::f64::consts::FRAC_PI_2),
        },
        mode: GameMode::ThreeD,
        status: GameStatus::Gaming,
        textures: textures(),
        lolibunnies: vec![],
        moon_phase: 0,
    }
}

fn input_for(data: &Model, elapsed_millis: u64) -> FrameInput {
    let width = data.framebuffer_dimensions.0;
    let rays = (0..width)
        .map(|i| {
            let angle = hornystein::render::ray_angle(&data.player, i, width);
            direction(angle as f64 / 65536.0)
        })
        .collect();
    let fan = (0..hornystein::minimap::FAN_RAYS)
        .map(|i| {
            let angle =
                hornystein::render::ray_angle(&data.player, i, hornystein::minimap::FAN_RAYS);
            direction(angle as f64 / 65536.0)
        })
        .collect();
    let bearings = data
        .lolibunnies
        .iter()
        .map(|bunny| {
            let dy = (bunny.position.y - data.player.position.y) as f64;
            let dx = (bunny.position.x - data.player.position.x) as f64;
            fx(dy.atan2(dx))
        })
        .collect();
    FrameInput { elapsed_millis, rays, fan, bearings }
}

fn pixel(framebuffer: &Framebuffer, x: usize, y: usize) -> u32 {
    framebuffer.buffer[y * framebuffer.width + x]
}

use hornystein::moon::{draw_moon, locate_moon, moon_holds, MoonDisc};
use hornystein::render::render_moon;
use hornystein::screen::{
    render_animated_screen, render_backdrop, render_still_screen, GROUND_COLOR, SKY_COLOR,
};

#[test]
fn backdrop_is_sky_above_the_middle_row_and_ground_below() {
    let mut framebuffer = Framebuffer::new(4, 5).expect("a framebuffer");
    render_backdrop(&mut framebuffer);
    assert_eq!((SKY_COLOR, GROUND_COLOR), (0x00000f, 0x140d00));
    for y in 0..5 {
        for x in 0..4 {
            assert_eq!(pixel(&framebuffer, x, y), if y < 2 { SKY_COLOR } else { GROUND_COLOR });
        }
    }
    let mut single = Framebuffer::new(3, 1).expect("a framebuffer");
    render_backdrop(&mut single);
    assert_eq!(single.buffer, vec![GROUND_COLOR; 3]);
}

#[test]
fn still_screen_stretches_the_image_over_the_frame() {
    let texels = (1..=6).map(Color::from_hex).collect();
    let texture = Texture::new(3, 2, texels).expect("a texture");
    let mut framebuffer = Framebuffer::new(6, 4).expect("a framebuffer");
    framebuffer.paint(0, 0, Color::from_hex(0xffffff));
    render_still_screen(&mut framebuffer, &texture);
    let expected: Vec<u32> = vec![
        1, 1, 2, 2, 3, 3,
        1, 1, 2, 2, 3, 3,
        4, 4, 5, 5, 6, 6,
        4, 4, 5, 5, 6, 6,
    ];
    assert_eq!(framebuffer.buffer, expected);
}

#[test]
fn still_screen_shrinks_an_image_larger_than_the_frame() {
    let texels = (0..25).map(Color::from_hex).collect();
    let texture = Texture::new(5, 5, texels).expect("a texture");
    let mut framebuffer = Framebuffer::new(2, 3).expect("a framebuffer");
    render_still_screen(&mut framebuffer, &texture);
    assert_eq!(framebuffer.buffer, vec![0, 2, 5, 7, 15, 17]);
}

#[test]
fn animated_screen_shows_the_frame_asked_for() {
    let first = (1..=4).map(Color::from_hex).collect();
    let second = (11..=14).map(Color::from_hex).collect();
    let animation = AnimatedTexture::new(2, 2, vec![first, second]).expect("an animation");
    let mut framebuffer = Framebuffer::new(2, 4).expect("a framebuffer");
    render_animated_screen(&mut framebuffer, &animation, 1);
    assert_eq!(framebuffer.buffer, vec![11, 12, 11, 12, 13, 14, 13, 14]);
    render_animated_screen(&mut framebuffer, &animation, 0);
    assert_eq!(framebuffer.buffer, vec![1, 2, 1, 2, 3, 4, 3, 4]);
}

#[test]
fn moon_rises_at_the_left_edge_and_stands_highest_in_the_middle() {
    assert_eq!(
        locate_moon(0, 1000),
        MoonDisc {
            center_x: 0,
            center_y: 225 * ONE,
            start_x: -100,
            start_y: 125,
            end_x: 100,
            end_y: 325,
        }
    );
    assert_eq!(
        locate_moon(HALF, 1000),
        MoonDisc {
            center_x: 500 * ONE,
            center_y: 100 * ONE,
            start_x: 400,
            start_y: 0,
            end_x: 600,
            end_y: 200,
        }
    );
    assert_eq!(locate_moon(ONE, 1000).center_x, 1000 * ONE);
    assert_eq!(locate_moon(ONE, 1000).center_y, 225 * ONE);
    let early = locate_moon(ONE / 4, 300);
    assert_eq!(early.center_x, 75 * ONE);
    assert_eq!(early.center_y, 100 * ONE + 75 * 75 * ONE / 2000);
    assert_eq!((early.start_x, early.end_x), (-25, 175));
    assert_eq!((early.start_y, early.end_y), (2, 202));
}

#[test]
fn moon_is_a_disc() {
    let disc = locate_moon(HALF, 300);
    assert!(moon_holds(&disc, 150, 100));
    assert!(moon_holds(&disc, 50, 100));
    assert!(moon_holds(&disc, 250, 100));
    assert!(moon_holds(&disc, 150, 0));
    assert!(moon_holds(&disc, 150, 200));
    assert!(moon_holds(&disc, 90, 20));
    assert!(!moon_holds(&disc, 50, 99));
    assert!(!moon_holds(&disc, 49, 100));
    assert!(!moon_holds(&disc, 89, 20));
    assert!(!moon_holds(&disc, 150, 201));
}

#[test]
fn moon_is_drawn_on_its_disc_with_its_texture() {
    let texels = vec![
        Color::from_hex(0xa0),
        Color::from_hex(0xb0),
        Color::from_hex(0xc0),
        Color::from_hex(0xd0),
    ];
    let texture = Texture::new(2, 2, texels).expect("a texture");
    let disc = locate_moon(HALF, 300);
    let mut framebuffer = Framebuffer::new(300, 300).expect("a framebuffer");
    draw_moon(&mut framebuffer, &disc, &texture);
    for y in 0..300i64 {
        for x in 0..300i64 {
            let inside = x < 250 && y < 200
                && (x - 150) * (x - 150) + (y - 100) * (y - 100) <= 100 * 100;
            let expected = if !inside {
                0
            } else {
                match (x < 150, y < 100) {
                    (true, true) => 0xa0,
                    (false, true) => 0xb0,
                    (true, false) => 0xc0,
                    (false, false) => 0xd0,
                }
            };
            assert_eq!(pixel(&framebuffer, x as usize, y as usize), expected);
        }
    }
}

#[test]
fn moon_at_the_edge_is_cut_by_the_frame() {
    let mut data = ring_model(300);
    data.moon_phase = 0;
    let mut framebuffer = Framebuffer::new(300, 300).expect("a framebuffer");
    render_moon(&mut framebuffer, &data);
    let center_y = 100 + 150 * 150 / 2000;
    assert_eq!(center_y, 111);
    assert_eq!(pixel(&framebuffer, 0, 111), 0x555555);
    assert_eq!(pixel(&framebuffer, 99, 111), 0x555555);
    assert_eq!(pixel(&framebuffer, 100, 111), 0);
    assert_eq!(pixel(&framebuffer, 0, 12), 0x555555);
    assert_eq!(pixel(&framebuffer, 0, 11), 0);
    assert_eq!(pixel(&framebuffer, 0, 210), 0x555555);
    assert_eq!(pixel(&framebuffer, 0, 211), 0);
}
