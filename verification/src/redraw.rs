//! When a cached drawing must be redrawn: every value that decides the drawing is
//! gathered in a key, and the cache is dropped exactly when the key changes.

use vstd::prelude::*;

verus! {

/// A key of a cached drawing: two keys that are the same give the same drawing.
pub trait DrawKey: Copy + Sized {
    /// Whether `self` and `other` are the same key.
    fn same(&self, other: &Self) -> (b: bool)
        ensures
            b == (*self == *other),
    ;
}

/// Everything that decides how the joystick is drawn. The knob offset is carried by
/// the bit patterns of its two `f32` coordinates, so that equal keys mean equal
/// drawings.
#[derive(Debug, Clone, Copy, PartialEq, Eq, Structural)]
pub struct JoystickKey {
    pub dx_bits: u32,
    pub dy_bits: u32,
    pub dragging: bool,
    pub connected: bool,
    pub motor_running: bool,
    /// The theme changes every colour of the drawing.
    pub dark: bool,
}

impl JoystickKey {
    /// The key of a joystick drawn with its knob at the offset whose coordinates
    /// have bit patterns `dx_bits` and `dy_bits`.
    pub fn new(dx_bits: u32, dy_bits: u32, dragging: bool, connected: bool, motor_running: bool, dark: bool) -> (k: Self)
        ensures
            k == (JoystickKey { dx_bits, dy_bits, dragging, connected, motor_running, dark }),
    {
        JoystickKey { dx_bits, dy_bits, dragging, connected, motor_running, dark }
    }
}

impl DrawKey for JoystickKey {
    fn same(&self, other: &Self) -> (b: bool) {
        *self == *other
    }
}

/// The key that the cached drawing was made with; `None` before the first drawing.
pub struct Keyed<K: DrawKey> {
    pub key: Option<K>,
}

impl<K: DrawKey> Keyed<K> {
    /// Nothing drawn yet.
    pub fn new() -> (c: Self)
        ensures
            c.key is None,
    {
        Keyed { key: None }
    }

    /// Records that the drawing is wanted for `key`; true when the cached drawing was
    /// made with another key, or none was made, and must be dropped.
    pub fn refresh(&mut self, key: K) -> (stale: bool)
        ensures
            stale == (old(self).key != Some(key)),
            final(self).key == Some(key),
    {
        let stale = match self.key {
            Some(k) => !k.same(&key),
            None => true,
        };
        self.key = Some(key);
        stale
    }
}

} // verus!
