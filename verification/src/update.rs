//! How the model changes between two frames.

use vstd::prelude::*;
use crate::fixed::ONE;
use crate::{GameMode, Message, Model, Player, Point, MAX_ANGLE, MAX_COORD};

verus! {

/// How far the moon moves at every tick, as a part of its way across the
/// sky in fixed point.
pub const MOON_STEP: i64 = 33;

/// Where a step of `delta` from `position` leads: to the place it points
/// at, if that place lies on the grid in a cell that is not solid, and
/// nowhere otherwise.
pub open spec fn moved(data: &Model, delta: Point) -> Point {
    let position = data.player.position;
    if data.board.passable_at(position.x + delta.x, position.y + delta.y) {
        Point { x: (position.x + delta.x) as i64, y: (position.y + delta.y) as i64 }
    } else {
        position
    }
}

/// The orientation after a turn of `delta`, which stops at `MAX_ANGLE`
/// either way.
pub open spec fn rotated(orientation: int, delta: int) -> int {
    if orientation + delta > MAX_ANGLE {
        MAX_ANGLE as int
    } else if orientation + delta < -MAX_ANGLE {
        -MAX_ANGLE
    } else {
        orientation + delta
    }
}

/// The other mode.
pub open spec fn toggled(mode: GameMode) -> GameMode {
    match mode {
        GameMode::TwoD => GameMode::ThreeD,
        GameMode::ThreeD => GameMode::TwoD,
    }
}

/// The phase of the moon after a tick: a step further, but not past the end
/// of its way.
pub open spec fn ticked(phase: int) -> int {
    if phase + MOON_STEP > ONE {
        ONE as int
    } else {
        phase + MOON_STEP
    }
}

/// The model after a message.
pub open spec fn updated(data: Model, msg: Message) -> Model {
    match msg {
        Message::Move(delta) => Model {
            player: Player { position: moved(&data, delta), ..data.player },
            ..data
        },
        Message::Rotate(delta) => Model {
            player: Player {
                orientation: rotated(data.player.orientation as int, delta as int) as i64,
                ..data.player
            },
            ..data
        },
        Message::TogleMode => Model { mode: toggled(data.mode), ..data },
        Message::TickMoon => Model { moon_phase: ticked(data.moon_phase as int) as i64, ..data },
    }
}

/// Applies a message to the model: a step that would end in a wall or off
/// the grid is not taken, a turn stops at `MAX_ANGLE`, and the moon stops at
/// the end of its way.
pub fn update(data: Model, msg: Message) -> (next: Model)
    requires
        data.wf(),
    ensures
        next == updated(data, msg),
        next.wf(),
{
    match msg {
        Message::Move(delta) => {
            let position: Point = data.player.position;
            let x: i128 = position.x as i128 + delta.x as i128;
            let y: i128 = position.y as i128 + delta.y as i128;
            let mut target: Point = position;
            if 0 <= x && x <= MAX_COORD as i128 && 0 <= y && y <= MAX_COORD as i128 {
                match data.board.locate(x as i64, y as i64) {
                    Some((i, j)) => {
                        if !crate::is_border(&data.board.get(i, j)) {
                            target = Point { x: x as i64, y: y as i64 };
                        }
                    },
                    None => {},
                }
            }
            Model { player: Player { position: target, ..data.player }, ..data }
        },
        Message::Rotate(delta) => {
            let sum: i128 = data.player.orientation as i128 + delta as i128;
            let orientation: i64 = if sum > MAX_ANGLE as i128 {
                MAX_ANGLE
            } else if sum < -(MAX_ANGLE as i128) {
                -MAX_ANGLE
            } else {
                sum as i64
            };
            Model { player: Player { orientation, ..data.player }, ..data }
        },
        Message::TogleMode => {
            let mode: GameMode = match data.mode {
                GameMode::TwoD => GameMode::ThreeD,
                GameMode::ThreeD => GameMode::TwoD,
            };
            Model { mode, ..data }
        },
        Message::TickMoon => {
            let moon_phase: i64 = if data.moon_phase + MOON_STEP > ONE {
                ONE
            } else {
                data.moon_phase + MOON_STEP
            };
            Model { moon_phase, ..data }
        },
    }
}

} // verus!
