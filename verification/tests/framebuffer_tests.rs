#![allow(dead_code)]
#![allow(unused_imports)]

use hornystein::color::Color;
use hornystein::enemies::LoliBunny;
use hornystein::fixed::{HALF, ONE};
use hornystein::framebuffer::Framebuffer;
use hornystein::render::FrameInput;
use hornystein::texture::{AnimatedTexture, GameTextures, Texture};
use hornystein::{
    Board, BoardCell, Direction, GameMode, GameStatus, Model, Player, Point,
};

fn fx(v: f64) -> i64 {
    (v * 65536.0).round() as i64
}

fn direction(angle: f64) -> Direction {
    Direction::new(fx(angle.cos()), fx(angle.sin())).expect("a unit vector")
}

fn ring_cells() -> Vec<Vec<BoardCell>> {
    vec![
        vec![BoardCell::PillarWall, BoardCell::HorizontalWall, BoardCell::PillarWall],
        vec![BoardCell::VerticalWall, BoardCell::Empty, BoardCell::VerticalWall],
        vec![BoardCell::PillarWall, BoardCell::HorizontalWall, BoardCell::PillarWall],
    ]
}

fn ring_board(cell_pixels: i64) -> Board {
    Board::new(ring_cells(), (cell_pixels * ONE, cell_pixels * ONE)).expect("a board")
}

fn flat_texture(width: u32, height: u32, hex: u32) -> Texture {
    let colors = vec![Color::from_hex(hex); (width * height) as usize];
    Texture::new(width, height, colors).expect("a texture")
}

fn flat_animation(hexes: &[u32]) -> AnimatedTexture {
    let frames = hexes.iter().map(|hex| vec![Color::from_hex(*hex)]).collect();
    AnimatedTexture::new(1, 1, frames).expect("an animation")
}

fn textures() -> GameTextures {
    GameTextures {
        horizontal_wall: flat_texture(1, 1, 0x111111),
        vertical_wall: flat_texture(1, 1, 0x222222),
        corner_wall: flat_texture(1, 1, 0x333333),
        lolibunny: flat_texture(1, 1, 0x444444),
        moon: flat_texture(1, 1, 0x555555),
        start_screen: flat_texture(1, 1, 0x666666),
        splash_screen: flat_animation(&[0x700000, 0x710000, 0x720000]),
        loose_screen: flat_animation(&[0x800000, 0x810000]),
        win_screen: flat_animation(&[0x900000, 0x910000, 0x920000, 0x930000]),
    }
}

fn ring_model(side: usize) -> Model {
    let cell = (side as i64) / 3;
    Model {
        board: ring_board(cell),
        framebuffer_dimensions: (side, side),
        player: Player {
            position: Point { x: (cell + cell / 2) * ONE, y: (cell + cell / 2) * ONE },
            orientation: 0,
            fov: fx(std::f64::consts::FRAC_PI_2),
        },
        mode: GameMode::ThreeD,
        status: GameStatus::Gaming,
        textures: textures(),
        lolibunnies: vec![],
        moon_phase: 0,
    }
}

fn input_for(data: &Model, elapsed_millis: u64) -> FrameInput {
    let width = data.framebuffer_dimensions.0;
    let rays = (0..width)
        .map(|i| {
            let angle = hornystein::render::ray_angle(&data.player, i, width);
            direction(angle as f64 / 65536.0)
        })
        .collect();
    let fan = (0..hornystein::minimap::FAN_RAYS)
        .map(|i| {
            let angle =
                hornystein::render::ray_angle(&data.player, i, hornystein::minimap::FAN_RAYS);
            direction(angle as f64 / 65536.0)
        })
        .collect();
    let bearings = data
        .lolibunnies
        .iter()
        .map(|bunny| {
            let dy = (bunny.position.y - data.player.position.y) as f64;
            let dx = (bunny.position.x - data.player.position.x) as f64;
            fx(dy.atan2(dx))
        })
        .collect();
    FrameInput { elapsed_millis, rays, fan, bearings }
}

fn pixel(framebuffer: &Framebuffer, x: usize, y: usize) -> u32 {
    framebuffer.buffer[y * framebuffer.width + x]
}

use hornystein::framebuffer::{PaintPointErrors, MAX_DIMENSION};

#[test]
fn new_framebuffer_is_black_with_a_white_pen() {
    let framebuffer = Framebuffer::new(4, 3).expect("a framebuffer");
    assert_eq!((framebuffer.width, framebuffer.height), (4, 3));
    assert_eq!(framebuffer.buffer, vec![0; 12]);
    assert_eq!(framebuffer.background, vec![0; 12]);
    assert_eq!(framebuffer.current_color, Color { r: 255, g: 255, b: 255 });
    assert!(framebuffer.is_well_formed());
}

#[test]
fn framebuffer_has_a_size_within_bounds() {
    assert!(Framebuffer::new(0, 3).is_none());
    assert!(Framebuffer::new(3, 0).is_none());
    assert!(Framebuffer::new(MAX_DIMENSION + 1, 1).is_none());
    assert!(Framebuffer::new(1, MAX_DIMENSION + 1).is_none());
    assert!(Framebuffer::new(MAX_DIMENSION, 1).is_some());
    assert!(Framebuffer::new(1, 1).is_some());
}

#[test]
fn point_is_painted_with_the_pen_at_its_place_in_the_buffer() {
    let mut framebuffer = Framebuffer::new(4, 3).expect("a framebuffer");
    framebuffer.set_current_color(Color::from_hex(0x123456));
    assert_eq!(framebuffer.paint_point(1, 2), Ok(()));
    let mut expected = vec![0; 12];
    expected[2 * 4 + 1] = 0x123456;
    assert_eq!(framebuffer.buffer, expected);
    assert_eq!(framebuffer.paint_point(3, 0), Ok(()));
    expected[3] = 0x123456;
    assert_eq!(framebuffer.buffer, expected);
}

#[test]
fn points_outside_the_framebuffer_are_reported_and_not_painted() {
    let mut framebuffer = Framebuffer::new(4, 3).expect("a framebuffer");
    assert_eq!(framebuffer.paint_point(-1, 0), Err(PaintPointErrors::XTooSmall));
    assert_eq!(framebuffer.paint_point(0, -1), Err(PaintPointErrors::YTooSmall));
    assert_eq!(framebuffer.paint_point(4, 0), Err(PaintPointErrors::XTooLarge));
    assert_eq!(framebuffer.paint_point(0, 3), Err(PaintPointErrors::YTooLarge));
    assert_eq!(framebuffer.paint_point(-1, -1), Err(PaintPointErrors::XTooSmall));
    assert_eq!(framebuffer.paint_point(-1, 9), Err(PaintPointErrors::XTooSmall));
    assert_eq!(framebuffer.paint_point(9, -1), Err(PaintPointErrors::YTooSmall));
    assert_eq!(framebuffer.paint_point(9, 9), Err(PaintPointErrors::XTooLarge));
    assert_eq!(framebuffer.paint_point(i64::MIN, i64::MAX), Err(PaintPointErrors::XTooSmall));
    assert_eq!(framebuffer.paint_point(i64::MAX, i64::MAX), Err(PaintPointErrors::XTooLarge));
    assert_eq!(framebuffer.buffer, vec![0; 12]);
}

#[test]
fn paint_takes_the_color_as_the_pen() {
    let mut framebuffer = Framebuffer::new(4, 3).expect("a framebuffer");
    framebuffer.paint(2, 1, Color::from_hex(0xabcdef));
    assert_eq!(framebuffer.current_color, Color::from_hex(0xabcdef));
    assert_eq!(pixel(&framebuffer, 2, 1), 0xabcdef);
    framebuffer.paint(-3, 1, Color::from_hex(0x010203));
    assert_eq!(framebuffer.current_color, Color::from_hex(0x010203));
    assert_eq!(framebuffer.buffer.iter().filter(|word| **word != 0).count(), 1);
}

#[test]
fn clear_brings_back_the_saved_background() {
    let mut framebuffer = Framebuffer::new(2, 2).expect("a framebuffer");
    framebuffer.paint(0, 0, Color::from_hex(0x111111));
    framebuffer.save_as_background();
    assert_eq!(framebuffer.background, vec![0x111111, 0, 0, 0]);
    framebuffer.paint(1, 1, Color::from_hex(0x222222));
    framebuffer.paint(0, 0, Color::from_hex(0x333333));
    assert_eq!(framebuffer.buffer, vec![0x333333, 0, 0, 0x222222]);
    framebuffer.clear();
    assert_eq!(framebuffer.buffer, vec![0x111111, 0, 0, 0]);
    assert_eq!(framebuffer.background, vec![0x111111, 0, 0, 0]);
    assert_eq!(framebuffer.current_color, Color::from_hex(0x333333));
}

#[test]
fn framebuffers_put_together_by_hand_can_be_checked() {
    let pen = Color::from_hex(0);
    let good = Framebuffer {
        width: 2,
        height: 2,
        buffer: vec![0; 4],
        background: vec![0; 4],
        current_color: pen,
    };
    let short = Framebuffer {
        width: 2,
        height: 2,
        buffer: vec![0; 3],
        background: vec![0; 4],
        current_color: pen,
    };
    let unsaved = Framebuffer {
        width: 2,
        height: 2,
        buffer: vec![0; 4],
        background: vec![],
        current_color: pen,
    };
    assert!(good.is_well_formed());
    assert!(!short.is_well_formed());
    assert!(!unsaved.is_well_formed());
}

#[test]
fn colors_pack_into_words_and_back() {
    let color = Color::from_hex(0x8b00ff);
    assert_eq!(color, Color { r: 0x8b, g: 0x00, b: 0xff });
    assert_eq!(color.to_hex(), 0x8b00ff);
    assert_eq!(Color::new(1, 2, 3).to_hex(), 0x010203);
    assert_eq!(Color::from_hex(0xff123456), Color { r: 0x12, g: 0x34, b: 0x56 });
    assert_eq!(Color::from(0x00000fu32), Color { r: 0, g: 0, b: 15 });
    let converted: Color = 0x140d00u32.into();
    assert_eq!(converted, Color { r: 0x14, g: 0x0d, b: 0 });
    for hex in [0u32, 1, 0xffffff, 0x7f8081, 0x010000] {
        assert_eq!(Color::from_hex(hex).to_hex(), hex);
    }
}
