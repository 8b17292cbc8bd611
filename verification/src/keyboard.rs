//! Motor speeds from the drive keys (WASD or arrow keys).

use vstd::prelude::*;

verus! {

/// Speeds of the two motors, each in `-100 ..= 100`.
#[derive(Debug, Clone, Copy, PartialEq, Eq, Structural)]
pub struct MotorSpeeds {
    pub left: i8,
    pub right: i8,
}

impl Default for MotorSpeeds {
    fn default() -> (s: Self)
        ensures
            s == (MotorSpeeds { left: 0, right: 0 }),
    {
        MotorSpeeds { left: 0, right: 0 }
    }
}

/// Which drive keys are held down.
#[derive(Debug, Clone, Copy, PartialEq, Eq, Structural)]
pub struct KeyboardState {
    /// W or arrow up.
    pub forward: bool,
    /// S or arrow down.
    pub backward: bool,
    /// A or arrow left.
    pub left: bool,
    /// D or arrow right.
    pub right: bool,
}

impl Default for KeyboardState {
    fn default() -> (s: Self)
        ensures
            s == (KeyboardState { forward: false, backward: false, left: false, right: false }),
    {
        KeyboardState { forward: false, backward: false, left: false, right: false }
    }
}

/// Full power (100) for a held key, nothing otherwise.
pub open spec fn key_power(held: bool) -> int {
    if held {
        100
    } else {
        0
    }
}

/// `v` kept within `-100 ..= 100`.
pub open spec fn clamp_power(v: int) -> int {
    if v < -100 {
        -100
    } else if v > 100 {
        100
    } else {
        v
    }
}

/// Left motor: forward minus backward, plus the left-turn key, minus the right-turn key.
pub open spec fn keyboard_left(s: KeyboardState) -> int {
    clamp_power(key_power(s.forward) - key_power(s.backward) - key_power(s.right) + key_power(s.left))
}

/// Right motor: forward minus backward, plus the right-turn key, minus the left-turn key.
pub open spec fn keyboard_right(s: KeyboardState) -> int {
    clamp_power(key_power(s.forward) - key_power(s.backward) + key_power(s.right) - key_power(s.left))
}

fn clamp_i32(v: i32) -> (r: i8)
    requires
        -1000 <= v <= 1000,
    ensures
        r == clamp_power(v as int),
{
    if v < -100 {
        -100
    } else if v > 100 {
        100
    } else {
        v as i8
    }
}

/// Motor speeds for the held keys. Forward and backward drive both motors at full
/// power; a turn key alone turns on the spot (motors in opposite directions); a turn
/// key with forward or backward curves, clamped to `-100 ..= 100`.
pub fn calculate(state: &KeyboardState) -> (s: MotorSpeeds)
    ensures
        s.left == keyboard_left(*state),
        s.right == keyboard_right(*state),
        -100 <= s.left <= 100,
        -100 <= s.right <= 100,
{
    let forward: i32 = if state.forward { 100 } else { 0 };
    let backward: i32 = if state.backward { 100 } else { 0 };
    let turn_l: i32 = if state.left { 100 } else { 0 };
    let turn_r: i32 = if state.right { 100 } else { 0 };

    let base = forward - backward;
    let left_v = clamp_i32(base - turn_r + turn_l);
    let right_v = clamp_i32(base + turn_r - turn_l);

    MotorSpeeds { left: left_v, right: right_v }
}

} // verus!
