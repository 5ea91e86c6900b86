use vstd::prelude::*;

verus! {

/// The keys that move the editor camera, and whether each is held.
#[derive(Debug, Clone, Copy)]
pub struct CameraKeys {
    pub w: bool,
    pub s: bool,
    pub a: bool,
    pub d: bool,
    pub e: bool,
    pub q: bool,
}

/// How many steps the camera moves along its own axes in one frame: `W`
/// and `S` forward and back, `D` and `A` right and left, `E` and `Q` up
/// and down; opposite keys cancel.
#[derive(Debug, Clone, Copy, PartialEq, Eq, Structural)]
pub struct MoveAxes {
    pub forward: i8,
    pub right: i8,
    pub up: i8,
}

pub open spec fn key_axis(plus: bool, minus: bool) -> int {
    (if plus {
        1int
    } else {
        0int
    }) - (if minus {
        1int
    } else {
        0int
    })
}

fn axis(plus: bool, minus: bool) -> (r: i8)
    ensures
        r == key_axis(plus, minus),
{
    let mut r: i8 = 0;
    if plus {
        r += 1;
    }
    if minus {
        r -= 1;
    }
    r
}

/// The camera is steered only while the right mouse button is held; then
/// each held key moves it one step along its axis.
pub fn camera_move_axes(right_button_pressed: bool, keys: CameraKeys) -> (r: Option<MoveAxes>)
    ensures
        !right_button_pressed ==> r is None,
        right_button_pressed ==> r == Some(
            MoveAxes {
                forward: key_axis(keys.w, keys.s) as i8,
                right: key_axis(keys.d, keys.a) as i8,
                up: key_axis(keys.e, keys.q) as i8,
            },
        ),
{
    if !right_button_pressed {
        return None;
    }
    Some(
        MoveAxes {
            forward: axis(keys.w, keys.s),
            right: axis(keys.d, keys.a),
            up: axis(keys.e, keys.q),
        },
    )
}

/// Each axis moves only when exactly one of its two keys is held: one step
/// toward the held key, none when neither or both are held; swapping the
/// keys reverses the step.
pub proof fn lemma_axis_follows_keys(plus: bool, minus: bool)
    ensures
        !plus && !minus ==> key_axis(plus, minus) == 0,
        plus && minus ==> key_axis(plus, minus) == 0,
        plus && !minus ==> key_axis(plus, minus) == 1,
        !plus && minus ==> key_axis(plus, minus) == -1,
        key_axis(plus, minus) == -key_axis(minus, plus),
{
}

/// While the right button is held, the camera stands still exactly when no
/// axis has a single key held, and each axis moves one step toward its held
/// key: forward for `W`, back for `S`, right for `D`, left for `A`, up for
/// `E`, down for `Q`.
pub proof fn lemma_camera_moves_toward_held_keys(keys: CameraKeys)
    ensures
        (keys.w == keys.s) ==> key_axis(keys.w, keys.s) == 0,
        (keys.d == keys.a) ==> key_axis(keys.d, keys.a) == 0,
        (keys.e == keys.q) ==> key_axis(keys.e, keys.q) == 0,
        keys.w && !keys.s ==> key_axis(keys.w, keys.s) == 1,
        keys.s && !keys.w ==> key_axis(keys.w, keys.s) == -1,
        keys.d && !keys.a ==> key_axis(keys.d, keys.a) == 1,
        keys.a && !keys.d ==> key_axis(keys.d, keys.a) == -1,
        keys.e && !keys.q ==> key_axis(keys.e, keys.q) == 1,
        keys.q && !keys.e ==> key_axis(keys.e, keys.q) == -1,
{
}

} // verus!
