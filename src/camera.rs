//! The editor camera's decisions: when it pans or flies, which way the keys
//! move it, and whether a viewport fits its window.
use vstd::prelude::*;

use crate::selection::KeyCode;

verus! {

/// Whether the editor camera is panning (middle button held) or flying
/// (right button held).
#[derive(Clone, Copy, Debug, Default, PartialEq, Eq, Structural)]
pub struct CameraControl {
    pub is_pan: bool,
    pub is_fly: bool,
}

/// This frame's mouse buttons, as the camera reads them.
#[derive(Clone, Copy, Debug, Default, PartialEq, Eq, Structural)]
pub struct CameraButtons {
    /// Some pointer input this frame is over the camera's image.
    pub over_camera: bool,
    pub middle_just_pressed: bool,
    pub middle_just_released: bool,
    pub right_just_pressed: bool,
    pub right_just_released: bool,
}

impl CameraControl {
    /// A button pressed over the camera's image starts its mode; releasing
    /// it anywhere ends it.
    pub fn update(&mut self, b: CameraButtons)
        ensures
            final(self).is_pan == if b.over_camera && b.middle_just_pressed {
                true
            } else if b.middle_just_released {
                false
            } else {
                old(self).is_pan
            },
            final(self).is_fly == if b.over_camera && b.right_just_pressed {
                true
            } else if b.right_just_released {
                false
            } else {
                old(self).is_fly
            },
    {
        if b.over_camera && b.middle_just_pressed {
            self.is_pan = true;
        } else if b.middle_just_released {
            self.is_pan = false;
        }
        if b.over_camera && b.right_just_pressed {
            self.is_fly = true;
        } else if b.right_just_released {
            self.is_fly = false;
        }
    }

    /// The cursor is locked and hidden while the camera pans or flies.
    pub fn cursor_locked(&self) -> (r: bool)
        ensures
            r == (self.is_pan || self.is_fly),
    {
        self.is_pan || self.is_fly
    }
}

/// The way the keys move a flying camera along each of its axes: forward
/// (W) or back (S), right (D) or left (A), up (E) or down (Q); the first key
/// of each pair wins, and nothing moves unless the camera flies.
#[derive(Clone, Copy, Debug, PartialEq, Eq, Structural)]
pub struct FlyDirection {
    pub forward: i8,
    pub right: i8,
    pub up: i8,
}

pub open spec fn axis(pressed: Seq<KeyCode>, plus: KeyCode, minus: KeyCode, plus_first: bool) -> i8 {
    if plus_first {
        if pressed.contains(plus) {
            1i8
        } else if pressed.contains(minus) {
            -1i8
        } else {
            0i8
        }
    } else {
        if pressed.contains(minus) {
            -1i8
        } else if pressed.contains(plus) {
            1i8
        } else {
            0i8
        }
    }
}

fn has_key(keys: &Vec<KeyCode>, k: KeyCode) -> (r: bool)
    ensures
        r == keys@.contains(k),
{
    let mut i: usize = 0;
    while i < keys.len()
        invariant
            i <= keys@.len(),
            forall|j: int| 0 <= j < i ==> keys@[j] != k,
        decreases keys.len() - i,
    {
        if keys[i] == k {
            return true;
        }
        i += 1;
    }
    false
}

/// The direction the pressed keys move the camera.
pub fn fly_direction(control: &CameraControl, pressed: &Vec<KeyCode>) -> (r: FlyDirection)
    ensures
        !control.is_fly ==> r == (FlyDirection { forward: 0, right: 0, up: 0 }),
        control.is_fly ==> r == (FlyDirection {
            forward: axis(pressed@, KeyCode::KeyW, KeyCode::KeyS, true),
            right: axis(pressed@, KeyCode::KeyD, KeyCode::KeyA, false),
            up: axis(pressed@, KeyCode::KeyE, KeyCode::KeyQ, false),
        }),
{
    if !control.is_fly {
        return FlyDirection { forward: 0, right: 0, up: 0 };
    }
    let forward: i8 = if has_key(pressed, KeyCode::KeyW) {
        1
    } else if has_key(pressed, KeyCode::KeyS) {
        -1
    } else {
        0
    };
    let right: i8 = if has_key(pressed, KeyCode::KeyA) {
        -1
    } else if has_key(pressed, KeyCode::KeyD) {
        1
    } else {
        0
    };
    let up: i8 = if has_key(pressed, KeyCode::KeyQ) {
        -1
    } else if has_key(pressed, KeyCode::KeyE) {
        1
    } else {
        0
    };
    FlyDirection { forward, right, up }
}

/// Whether a viewport at `(x, y)` of size `(w, h)`, in physical pixels, lies
/// within a window of size `(window_w, window_h)`; one that does not must not
/// be applied to the camera.
pub fn viewport_fits(x: u32, y: u32, w: u32, h: u32, window_w: u32, window_h: u32) -> (r: bool)
    ensures
        r == (x + w <= window_w && y + h <= window_h),
{
    (x as u64) + (w as u64) <= window_w as u64 && (y as u64) + (h as u64) <= window_h as u64
}

} // verus!
