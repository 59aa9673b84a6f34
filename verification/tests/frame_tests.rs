#![allow(dead_code)]
#![allow(unused_imports)]

use hornystein::color::Color;
use hornystein::enemies::LoliBunny;
use hornystein::fixed::{HALF, ONE};
use hornystein::framebuffer::Framebuffer;
use hornystein::render::FrameInput;
use hornystein::texture::{AnimatedTexture, GameTextures, Texture};
use hornystein::{
    Board, BoardCell, Direction, GameMode, GameStatus, Model, Player, Point,
};

fn fx(v: f64) -> i64 {
    (v * 65536.0).round() as i64
}

fn direction(angle: f64) -> Direction {
    Direction::new(fx(angle.cos()), fx(angle.sin())).expect("a unit vector")
}

fn ring_cells() -> Vec<Vec<BoardCell>> {
    vec![
        vec![BoardCell::PillarWall, BoardCell::HorizontalWall, BoardCell::PillarWall],
        vec![BoardCell::VerticalWall, BoardCell::Empty, BoardCell::VerticalWall],
        vec![BoardCell::PillarWall, BoardCell::HorizontalWall, BoardCell::PillarWall],
    ]
}

fn ring_board(cell_pixels: i64) -> Board {
    Board::new(ring_cells(), (cell_pixels * ONE, cell_pixels * ONE)).expect("a board")
}

fn flat_texture(width: u32, height: u32, hex: u32) -> Texture {
    let colors = vec![Color::from_hex(hex); (width * height) as usize];
    Texture::new(width, height, colors).expect("a texture")
}

fn flat_animation(hexes: &[u32]) -> AnimatedTexture {
    let frames = hexes.iter().map(|hex| vec![Color::from_hex(*hex)]).collect();
    AnimatedTexture::new(1, 1, frames).expect("an animation")
}

fn textures() -> GameTextures {
    GameTextures {
        horizontal_wall: flat_texture(1, 1, 0x111111),
        vertical_wall: flat_texture(1, 1, 0x222222),
        corner_wall: flat_texture(1, 1, 0x333333),
        lolibunny: flat_texture(1, 1, 0x444444),
        moon: flat_texture(1, 1, 0x555555),
        start_screen: flat_texture(1, 1, 0x666666),
        splash_screen: flat_animation(&[0x700000, 0x710000, 0x720000]),
        loose_screen: flat_animation(&[0x800000, 0x810000]),
        win_screen: flat_animation(&[0x900000, 0x910000, 0x920000, 0x930000]),
    }
}

fn ring_model(side: usize) -> Model {
    let cell = (side as i64) / 3;
    Model {
        board: ring_board(cell),
        framebuffer_dimensions: (side, side),
        player: Player {
            position: Point { x: (cell + cell / 2) * ONE, y: (cell + cell / 2) * ONE },
            orientation: 0,
            fov: fx(std::f64::consts::FRAC_PI_2),
        },
        mode: GameMode::ThreeD,
        status: GameStatus::Gaming,
        textures: textures(),
        lolibunnies: vec![],
        moon_phase: 0,
    }
}

fn input_for(data: &Model, elapsed_millis: u64) -> FrameInput {
    let width = data.framebuffer_dimensions.0;
    let rays = (0..width)
        .map(|i| {
            let angle = hornystein::render::ray_angle(&data.player, i, width);
            direction(angle as f64 / 65536.0)
        })
        .collect();
    let fan = (0..hornystein::minimap::FAN_RAYS)
        .map(|i| {
            let angle =
                hornystein::render::ray_angle(&data.player, i, hornystein::minimap::FAN_RAYS);
            direction(angle as f64 / 65536.0)
        })
        .collect();
    let bearings = data
        .lolibunnies
        .iter()
        .map(|bunny| {
            let dy = (bunny.position.y - data.player.position.y) as f64;
            let dx = (bunny.position.x - data.player.position.x) as f64;
            fx(dy.atan2(dx))
        })
        .collect();
    FrameInput { elapsed_millis, rays, fan, bearings }
}

fn pixel(framebuffer: &Framebuffer, x: usize, y: usize) -> u32 {
    framebuffer.buffer[y * framebuffer.width + x]
}

use hornystein::enemies::Entity;
use hornystein::raycaster::CastError;
use hornystein::render::{init_render, render, render3d, render_scene, RenderError};
use hornystein::update::update;
use hornystein::Message;

#[test]
fn main_menu_shows_the_start_screen() {
    let mut data = ring_model(30);
    data.status = GameStatus::MainMenu;
    let input = input_for(&data, 0);
    let mut framebuffer = Framebuffer::new(30, 30).expect("a framebuffer");
    assert_eq!(render(&mut framebuffer, &data, &input), Ok(()));
    assert_eq!(framebuffer.buffer, vec![0x666666; 900]);
}

#[test]
fn splash_screen_plays_its_frames_one_period_each() {
    let mut data = ring_model(30);
    data.status = GameStatus::SplashScreen;
    let mut framebuffer = Framebuffer::new(30, 30).expect("a framebuffer");
    for (elapsed, color) in [
        (0u64, 0x700000u32),
        (59, 0x700000),
        (60, 0x710000),
        (119, 0x710000),
        (120, 0x720000),
        (180, 0x700000),
        (1_000_000_000_020, 0x720000),
    ] {
        let input = input_for(&data, elapsed);
        assert_eq!(render(&mut framebuffer, &data, &input), Ok(()));
        assert_eq!(framebuffer.buffer, vec![color; 900]);
    }
}

#[test]
fn lost_and_won_screens_play_their_own_animations() {
    let mut data = ring_model(30);
    let mut framebuffer = Framebuffer::new(30, 30).expect("a framebuffer");
    data.status = GameStatus::YouLost;
    assert_eq!(render3d(&mut framebuffer, &data, &input_for(&data, 60)), Ok(()));
    assert_eq!(framebuffer.buffer, vec![0x810000; 900]);
    assert_eq!(render3d(&mut framebuffer, &data, &input_for(&data, 120)), Ok(()));
    assert_eq!(framebuffer.buffer, vec![0x800000; 900]);
    data.status = GameStatus::YouWon;
    assert_eq!(render3d(&mut framebuffer, &data, &input_for(&data, 180)), Ok(()));
    assert_eq!(framebuffer.buffer, vec![0x930000; 900]);
    assert_eq!(render3d(&mut framebuffer, &data, &input_for(&data, 240)), Ok(()));
    assert_eq!(framebuffer.buffer, vec![0x900000; 900]);
}

#[test]
fn first_frame_is_drawn_over_a_backdrop_of_sky_and_ground() {
    let data = ring_model(300);
    let input = input_for(&data, 0);
    let mut framebuffer = Framebuffer::new(300, 300).expect("a framebuffer");
    assert_eq!(init_render(&mut framebuffer, &data, &input), Ok(()));
    for y in 0..300 {
        for x in 0..300 {
            let backdrop = if y < 150 { 0x00000f } else { 0x140d00 };
            assert_eq!(framebuffer.background[y * 300 + x], backdrop);
        }
    }
    assert_eq!(pixel(&framebuffer, 150, 10), 0x00000f);
    assert_eq!(pixel(&framebuffer, 150, 200), 0x140d00);
    assert_eq!(pixel(&framebuffer, 150, 120), 0x00000f);
    assert_eq!(pixel(&framebuffer, 150, 121), 0x222222);
    assert_eq!(pixel(&framebuffer, 150, 177), 0x222222);
    assert_eq!(pixel(&framebuffer, 150, 178), 0x140d00);
    assert_eq!(pixel(&framebuffer, 0, 130), 0x333333);
    assert_eq!(pixel(&framebuffer, 0, 129), 0x555555);
    assert_eq!(pixel(&framebuffer, 0, 12), 0x555555);
    assert_eq!(pixel(&framebuffer, 0, 11), 0x00000f);
    assert_eq!(pixel(&framebuffer, 250, 250), 0x0000ff);
    assert_eq!(pixel(&framebuffer, 230, 230), 0xff00ff);
    assert_eq!(pixel(&framebuffer, 255, 250), 0);
    assert_eq!(pixel(&framebuffer, 245, 255), 0xffffff);
}

#[test]
fn every_frame_starts_again_from_the_saved_background() {
    let mut data = ring_model(300);
    let mut framebuffer = Framebuffer::new(300, 300).expect("a framebuffer");
    assert_eq!(init_render(&mut framebuffer, &data, &input_for(&data, 0)), Ok(()));
    let first = framebuffer.buffer.clone();
    assert_eq!(render(&mut framebuffer, &data, &input_for(&data, 5000)), Ok(()));
    assert_eq!(framebuffer.buffer, first);
    data = update(data, Message::Rotate(20_000));
    assert_eq!(render(&mut framebuffer, &data, &input_for(&data, 0)), Ok(()));
    assert_ne!(framebuffer.buffer, first);
    data = update(data, Message::Rotate(-20_000));
    assert_eq!(render(&mut framebuffer, &data, &input_for(&data, 0)), Ok(()));
    assert_eq!(framebuffer.buffer, first);
}

#[test]
fn scene_with_a_sprite_in_sight_shows_it_in_front_of_the_wall() {
    let mut data = ring_model(300);
    data.lolibunnies = vec![LoliBunny { position: Point { x: 190 * ONE, y: 150 * ONE } }];
    let input = input_for(&data, 0);
    let mut framebuffer = Framebuffer::new(300, 300).expect("a framebuffer");
    assert_eq!(render_scene(&mut framebuffer, &data, &input), Ok(()));
    assert_eq!(pixel(&framebuffer, 150, 150), 0x444444);
    assert_eq!(pixel(&framebuffer, 150, 116), 0x444444);
    assert_eq!(pixel(&framebuffer, 150, 182), 0x444444);
    assert_eq!(pixel(&framebuffer, 150, 115), 0);
    assert_eq!(pixel(&framebuffer, 150, 183), 0);
    assert_eq!(pixel(&framebuffer, 116, 150), 0x444444);
    assert_eq!(pixel(&framebuffer, 182, 150), 0x444444);
    assert_eq!(pixel(&framebuffer, 115, 150), 0x222222);
    assert_eq!(pixel(&framebuffer, 183, 150), 0x222222);
    assert_eq!(pixel(&framebuffer, 258, 250), 0xff0000);
}

#[test]
fn player_inside_a_wall_is_reported_and_the_frame_is_still_drawn() {
    let mut data = ring_model(300);
    data.player.position = Point { x: 250 * ONE, y: 150 * ONE };
    let input = input_for(&data, 0);
    let mut framebuffer = Framebuffer::new(300, 300).expect("a framebuffer");
    assert_eq!(
        init_render(&mut framebuffer, &data, &input),
        Err(RenderError { column: 0, cause: CastError::OriginSolid })
    );
    assert_eq!(pixel(&framebuffer, 150, 120), 0x00000f);
    assert_eq!(pixel(&framebuffer, 150, 150), 0x140d00);
    assert_eq!(pixel(&framebuffer, 230, 230), 0xff00ff);
    assert_eq!(pixel(&framebuffer, 270, 250), 0x0000ff);
}

#[test]
fn player_off_the_grid_is_reported() {
    let mut cells = ring_cells();
    cells.pop();
    let mut data = ring_model(300);
    data.board = Board::new(cells, (100 * ONE, 100 * ONE)).expect("a board");
    data.player.position = Point { x: 150 * ONE, y: 250 * ONE };
    let input = input_for(&data, 0);
    let mut framebuffer = Framebuffer::new(300, 300).expect("a framebuffer");
    assert_eq!(
        render(&mut framebuffer, &data, &input),
        Err(RenderError { column: 0, cause: CastError::OriginOutside })
    );
}

#[test]
fn input_of_a_frame_must_fit_the_model() {
    let mut data = ring_model(30);
    data.lolibunnies = vec![LoliBunny { position: Point { x: 15 * ONE, y: 15 * ONE } }];
    let good = input_for(&data, 0);
    assert!(good.is_well_formed(&data));
    let mut short = input_for(&data, 0);
    short.rays.pop();
    assert!(!short.is_well_formed(&data));
    let mut long = input_for(&data, 0);
    long.bearings.push(0);
    assert!(!long.is_well_formed(&data));
    let mut skewed = input_for(&data, 0);
    skewed.rays[3] = Direction { cos: ONE, sin: ONE };
    assert!(!skewed.is_well_formed(&data));
    let mut stretched = input_for(&data, 0);
    stretched.fan[0] = Direction { cos: 2 * ONE, sin: 0 };
    assert!(!stretched.is_well_formed(&data));
    let mut spun = input_for(&data, 0);
    spun.bearings[0] = hornystein::MAX_ANGLE + 1;
    assert!(!spun.is_well_formed(&data));
    let mut bare = input_for(&data, 0);
    bare.fan.clear();
    assert!(!bare.is_well_formed(&data));
    let mut thin = input_for(&data, 0);
    thin.fan.pop();
    assert_eq!(thin.fan.len(), 19);
    assert!(!thin.is_well_formed(&data));
    let mut thick = input_for(&data, 0);
    thick.fan.push(Direction { cos: ONE, sin: 0 });
    assert!(!thick.is_well_formed(&data));
    assert_eq!(good.fan.len(), 20);
    assert_eq!(hornystein::minimap::FAN_RAYS, 20);
}

#[test]
fn creatures_stand_still() {
    let bunny = LoliBunny { position: Point { x: 250 * ONE, y: 250 * ONE } };
    let (next, message) = LoliBunny::tick(bunny);
    assert_eq!(next, bunny);
    assert_eq!(message, None);
}
