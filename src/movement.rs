use vstd::prelude::*;

verus! {

/// Speed that the player is created with, in world units per second.
pub const PLAYER_SPEED: u64 = 100;

/// The player's movement settings. Speed is in world units per second, so it
/// is never negative.
#[derive(Clone, Copy, Debug, PartialEq, Eq, Structural)]
pub struct Player {
    pub speed: u64,
}

impl Player {
    /// The player as a new game creates it.
    pub fn new() -> (r: Player)
        ensures
            r.speed == PLAYER_SPEED,
    {
        Player { speed: PLAYER_SPEED }
    }
}

/// A point of the plane, in billionths of a world unit, so that a speed in
/// units per second times a time in nanoseconds is an exact distance.
#[derive(Clone, Copy, Debug, PartialEq, Eq, Structural)]
pub struct Position {
    pub x: i64,
    pub y: i64,
}

/// The movement keys held down during a frame.
#[derive(Clone, Copy, Debug, PartialEq, Eq, Structural)]
pub struct MoveKeys {
    pub up: bool,
    pub down: bool,
    pub left: bool,
    pub right: bool,
}

/// Distance covered in `delta` nanoseconds at `speed` units per second, in
/// billionths of a unit.
pub open spec fn movement_step(speed: nat, delta: nat) -> int {
    (speed * delta) as int
}

/// Shift along one axis: a step forward if its key is held, a step back if
/// the opposite key is held, both when both are.
pub open spec fn axis_shift(forward: bool, backward: bool, step: int) -> int {
    (if forward { step } else { 0 }) - (if backward { step } else { 0 })
}

/// Where a frame's movement takes `p`, as an unbounded pair of coordinates.
pub open spec fn moved_x(p: Position, keys: MoveKeys, step: int) -> int {
    p.x + axis_shift(keys.right, keys.left, step)
}

pub open spec fn moved_y(p: Position, keys: MoveKeys, step: int) -> int {
    p.y + axis_shift(keys.up, keys.down, step)
}

pub open spec fn fits_i64(v: int) -> bool {
    i64::MIN <= v <= i64::MAX
}

/// The frame's step and the position it leads to can be represented.
pub open spec fn movement_fits(p: Position, player: Player, keys: MoveKeys, delta: u64) -> bool {
    let step = movement_step(player.speed as nat, delta as nat);
    &&& step <= i64::MAX
    &&& fits_i64(moved_x(p, keys, step))
    &&& fits_i64(moved_y(p, keys, step))
}

/// Movement follows the held keys: an axis with neither of its keys held
/// keeps its coordinate (so no keys at all leave the player in place), and
/// an axis with one of its keys held moves a full step that way, whatever
/// the other axis does; two orthogonal keys therefore move the player a
/// full step along each axis, with no normalisation.
pub proof fn lemma_movement_follows_keys(p: Position, keys: MoveKeys, step: int)
    ensures
        !keys.left && !keys.right ==> moved_x(p, keys, step) == p.x,
        !keys.up && !keys.down ==> moved_y(p, keys, step) == p.y,
        keys.right && !keys.left ==> moved_x(p, keys, step) == p.x + step,
        keys.left && !keys.right ==> moved_x(p, keys, step) == p.x - step,
        keys.up && !keys.down ==> moved_y(p, keys, step) == p.y + step,
        keys.down && !keys.up ==> moved_y(p, keys, step) == p.y - step,
{
}

/// Tells whether `character_movement` can be applied to these values.
pub fn can_move(position: &Position, player: &Player, keys: &MoveKeys, delta_nanos: u64) -> (r:
    bool)
    ensures
        r == movement_fits(*position, *player, *keys, delta_nanos),
{
    let step = match player.speed.checked_mul(delta_nanos) {
        Some(s) => s,
        None => {
            return false;
        },
    };
    if step > i64::MAX as u64 {
        return false;
    }
    let s = step as i128;
    let dx: i128 = (if keys.right { s } else { 0 }) - (if keys.left { s } else { 0 });
    let dy: i128 = (if keys.up { s } else { 0 }) - (if keys.down { s } else { 0 });
    let x = position.x as i128 + dx;
    let y = position.y as i128 + dy;
    i64::MIN as i128 <= x && x <= i64::MAX as i128 && i64::MIN as i128 <= y && y
        <= i64::MAX as i128
}

/// Moves the player for one frame of `delta_nanos` nanoseconds: each held
/// key moves it one step of `speed × delta` along its own axis, with no
/// normalisation of diagonal movement.
pub fn character_movement(
    position: &mut Position,
    player: &Player,
    keys: &MoveKeys,
    delta_nanos: u64,
)
    requires
        movement_fits(*old(position), *player, *keys, delta_nanos),
    ensures
        final(position).x == moved_x(
            *old(position),
            *keys,
            movement_step(player.speed as nat, delta_nanos as nat),
        ),
        final(position).y == moved_y(
            *old(position),
            *keys,
            movement_step(player.speed as nat, delta_nanos as nat),
        ),
{
    let s = (player.speed * delta_nanos) as i64;
    let dx: i128 = (if keys.right { s as i128 } else { 0 }) - (if keys.left { s as i128 } else { 0 });
    let dy: i128 = (if keys.up { s as i128 } else { 0 }) - (if keys.down { s as i128 } else { 0 });
    position.x = (position.x as i128 + dx) as i64;
    position.y = (position.y as i128 + dy) as i64;
}

} // verus!
