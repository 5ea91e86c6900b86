use vstd::prelude::*;

use crate::user_app::{next_state, run_ops, LifecycleOp};
use crate::user_app_state::UserAppState;

verus! {

/// The window events that the editor tells apart.
#[derive(Debug, Clone, Copy, PartialEq, Eq, Structural)]
pub enum WindowEventKind {
    MouseWheel,
    ScaleFactorChanged,
    Resized,
    CursorMoved,
    MouseInput,
    KeyboardInput,
    CloseRequested,
    RedrawRequested,
    Other,
}

/// Where a window event goes.
#[derive(Debug, Clone, Copy, PartialEq, Eq, Structural)]
pub enum EventRoute {
    /// To the editor's own application.
    Editor,
    /// To the hot-loaded game, which holds the window.
    Game,
    /// Stop the event loop.
    Exit,
    /// Run one frame.
    Redraw,
    /// Nothing to do.
    Ignore,
}

/// Which application a frame updates.
#[derive(Debug, Clone, Copy, PartialEq, Eq, Structural)]
pub enum UpdateTarget {
    Editor,
    Game,
}

/// The route of each kind of event: input goes to the game while it holds
/// the window (mouse buttons are tested with "at least", the other input
/// with "is"), else to the editor.
pub open spec fn route_of(state: UserAppState, kind: WindowEventKind) -> EventRoute {
    match kind {
        WindowEventKind::MouseInput => if state.rank() >= UserAppState::WindowPassedToGame.rank() {
            EventRoute::Game
        } else {
            EventRoute::Editor
        },
        WindowEventKind::MouseWheel
        | WindowEventKind::ScaleFactorChanged
        | WindowEventKind::Resized
        | WindowEventKind::CursorMoved
        | WindowEventKind::KeyboardInput => if state == UserAppState::WindowPassedToGame {
            EventRoute::Game
        } else {
            EventRoute::Editor
        },
        WindowEventKind::CloseRequested => EventRoute::Exit,
        WindowEventKind::RedrawRequested => EventRoute::Redraw,
        WindowEventKind::Other => EventRoute::Ignore,
    }
}

/// Decides where a window event goes, given the state of the game.
pub fn route_window_event(state: &UserAppState, kind: WindowEventKind) -> (r: EventRoute)
    ensures
        r == route_of(*state, kind),
{
    match kind {
        WindowEventKind::MouseInput => {
            if !state.at_least(UserAppState::WindowPassedToGame) {
                EventRoute::Editor
            } else {
                EventRoute::Game
            }
        },
        WindowEventKind::MouseWheel
        | WindowEventKind::ScaleFactorChanged
        | WindowEventKind::Resized
        | WindowEventKind::CursorMoved
        | WindowEventKind::KeyboardInput => {
            if !state.is(UserAppState::WindowPassedToGame) {
                EventRoute::Editor
            } else {
                EventRoute::Game
            }
        },
        WindowEventKind::CloseRequested => EventRoute::Exit,
        WindowEventKind::RedrawRequested => EventRoute::Redraw,
        WindowEventKind::Other => EventRoute::Ignore,
    }
}

/// A frame updates the game while it holds the window, else the editor.
pub fn redraw_update_target(state: &UserAppState) -> (r: UpdateTarget)
    ensures
        r == (if state.rank() >= UserAppState::WindowPassedToGame.rank() {
            UpdateTarget::Game
        } else {
            UpdateTarget::Editor
        }),
{
    if state.at_least(UserAppState::WindowPassedToGame) {
        UpdateTarget::Game
    } else {
        UpdateTarget::Editor
    }
}

/// The operations on the game that one frame performs, in order: the
/// game's update while it holds the window (else the editor updates
/// itself), the question whether the game asks to go back to the editor,
/// then, if it does, taking the window back, killing the game and unloading
/// its library, and, if opening the game was requested, loading the
/// library, building the game, handing it the window, its size and its
/// scale factor.
pub open spec fn frame_ops_of(state: UserAppState, back_requested: bool, open_requested: bool) -> Seq<
    LifecycleOp,
> {
    (if state.rank() >= UserAppState::WindowPassedToGame.rank() {
        seq![LifecycleOp::UpdateApp]
    } else {
        seq![]
    }) + seq![LifecycleOp::IsBackToEditorRequested] + (if back_requested {
        seq![LifecycleOp::RemoveWindow, LifecycleOp::KillApp, LifecycleOp::UnloadLib]
    } else {
        seq![]
    }) + (if open_requested {
        seq![
            LifecycleOp::LoadLib,
            LifecycleOp::BuildApp,
            LifecycleOp::PassWindow,
            LifecycleOp::HandleWindowResize,
            LifecycleOp::HandleScaleFactorChanged,
        ]
    } else {
        seq![]
    })
}

/// Lists the operations on the game of one frame.
pub fn frame_ops(state: &UserAppState, back_requested: bool, open_requested: bool) -> (r: Vec<
    LifecycleOp,
>)
    ensures
        r@ == frame_ops_of(*state, back_requested, open_requested),
        r@.len() > 0,
        (r@[0] == LifecycleOp::UpdateApp) <==> *state == UserAppState::WindowPassedToGame,
{
    let mut r: Vec<LifecycleOp> = Vec::new();
    if state.at_least(UserAppState::WindowPassedToGame) {
        r.push(LifecycleOp::UpdateApp);
    }
    r.push(LifecycleOp::IsBackToEditorRequested);
    if back_requested {
        r.push(LifecycleOp::RemoveWindow);
        r.push(LifecycleOp::KillApp);
        r.push(LifecycleOp::UnloadLib);
    }
    if open_requested {
        r.push(LifecycleOp::LoadLib);
        r.push(LifecycleOp::BuildApp);
        r.push(LifecycleOp::PassWindow);
        r.push(LifecycleOp::HandleWindowResize);
        r.push(LifecycleOp::HandleScaleFactorChanged);
    }
    assert(r@ =~= frame_ops_of(*state, back_requested, open_requested));
    proof {
        lemma_frame_ops_shape(*state, back_requested, open_requested);
    }
    r
}

/// How a frame's operations are laid out. The running game is updated
/// first, in every frame and only while it holds the window, whatever was
/// requested; then the game is asked once whether to go back; going back
/// (taking the window, killing the game, unloading the library, in that
/// order) comes exactly when it was asked for, and opening the game
/// (loading, building, passing the window, then its size and its scale
/// factor) exactly when that was requested, after the going back.
pub proof fn lemma_frame_ops_shape(state: UserAppState, back_requested: bool, open_requested: bool)
    ensures
        ({
            let ops = frame_ops_of(state, back_requested, open_requested);
            let k0: int = if state == UserAppState::WindowPassedToGame {
                1
            } else {
                0
            };
            let k1: int = k0 + 1 + if back_requested {
                3int
            } else {
                0int
            };
            &&& ops.len() == k1 + if open_requested {
                5int
            } else {
                0int
            }
            &&& (ops[0] == LifecycleOp::UpdateApp) <==> state == UserAppState::WindowPassedToGame
            &&& forall|i: int|
                0 <= i < ops.len() && ops[i] == LifecycleOp::UpdateApp ==> i == 0 && state
                    == UserAppState::WindowPassedToGame
            &&& ops[k0] == LifecycleOp::IsBackToEditorRequested
            &&& forall|i: int|
                0 <= i < ops.len() && ops[i] == LifecycleOp::IsBackToEditorRequested ==> i == k0
            &&& back_requested ==> ops[k0 + 1] == LifecycleOp::RemoveWindow && ops[k0 + 2]
                == LifecycleOp::KillApp && ops[k0 + 3] == LifecycleOp::UnloadLib
            &&& open_requested ==> ops[k1] == LifecycleOp::LoadLib && ops[k1 + 1]
                == LifecycleOp::BuildApp && ops[k1 + 2] == LifecycleOp::PassWindow && ops[k1 + 3]
                == LifecycleOp::HandleWindowResize && ops[k1 + 4]
                == LifecycleOp::HandleScaleFactorChanged
            &&& ops.contains(LifecycleOp::UnloadLib) <==> back_requested
            &&& ops.contains(LifecycleOp::LoadLib) <==> open_requested
        }),
{
    let ops = frame_ops_of(state, back_requested, open_requested);
    let u: Seq<LifecycleOp> = if state.rank() >= 3 {
        seq![LifecycleOp::UpdateApp]
    } else {
        seq![]
    };
    let q = seq![LifecycleOp::IsBackToEditorRequested];
    let b: Seq<LifecycleOp> = if back_requested {
        seq![LifecycleOp::RemoveWindow, LifecycleOp::KillApp, LifecycleOp::UnloadLib]
    } else {
        seq![]
    };
    let o: Seq<LifecycleOp> = if open_requested {
        seq![
            LifecycleOp::LoadLib,
            LifecycleOp::BuildApp,
            LifecycleOp::PassWindow,
            LifecycleOp::HandleWindowResize,
            LifecycleOp::HandleScaleFactorChanged,
        ]
    } else {
        seq![]
    };
    assert(ops == u + q + b + o);
    let k0: int = u.len() as int;
    let k1: int = k0 + 1 + b.len();
    assert forall|i: int| 0 <= i < ops.len() implies ops[i] == (if i < k0 {
        u[i]
    } else if i == k0 {
        q[0]
    } else if i < k1 {
        b[i - k0 - 1]
    } else {
        o[i - k1]
    }) by {}
    if back_requested {
        assert(ops[k0 + 3] == LifecycleOp::UnloadLib);
    } else {
        assert forall|i: int| 0 <= i < ops.len() implies ops[i] != LifecycleOp::UnloadLib by {}
    }
    if open_requested {
        assert(ops[k1] == LifecycleOp::LoadLib);
    } else {
        assert forall|i: int| 0 <= i < ops.len() implies ops[i] != LifecycleOp::LoadLib by {}
    }
}

proof fn lemma_run_ops_append(s: UserAppState, a: Seq<LifecycleOp>, b: Seq<LifecycleOp>)
    ensures
        run_ops(s, a + b) == match run_ops(s, a) {
            Some(t) => run_ops(t, b),
            None => None,
        },
    decreases a.len(),
{
    if a.len() == 0 {
        assert(a + b =~= b);
    } else {
        assert((a + b).drop_first() =~= a.drop_first() + b);
        match next_state(s, a[0]) {
            Some(t) => lemma_run_ops_append(t, a.drop_first(), b),
            None => {},
        }
    }
}

/// A frame goes through only once the game is built; going back to the
/// editor needs the game to hold the window, and opening the game needs no
/// library loaded (so it works only in the frame that went back). In
/// particular, before any game is loaded every frame is refused when it
/// asks the game whether to go back.
pub proof fn lemma_frame_outcome(state: UserAppState, back_requested: bool, open_requested: bool)
    ensures
        run_ops(state, frame_ops_of(state, back_requested, open_requested)) == (if state.rank()
            < 2 {
            None
        } else if back_requested && state != UserAppState::WindowPassedToGame {
            None
        } else {
            let after_back = if back_requested {
                UserAppState::Uninitialized
            } else {
                state
            };
            if open_requested && after_back != UserAppState::Uninitialized {
                None
            } else if open_requested {
                Some(UserAppState::WindowPassedToGame)
            } else {
                Some(after_back)
            }
        }),
{
    let u: Seq<LifecycleOp> = if state.rank() >= 3 {
        seq![LifecycleOp::UpdateApp]
    } else {
        seq![]
    };
    let q = seq![LifecycleOp::IsBackToEditorRequested];
    let b: Seq<LifecycleOp> = if back_requested {
        seq![LifecycleOp::RemoveWindow, LifecycleOp::KillApp, LifecycleOp::UnloadLib]
    } else {
        seq![]
    };
    let o: Seq<LifecycleOp> = if open_requested {
        seq![
            LifecycleOp::LoadLib,
            LifecycleOp::BuildApp,
            LifecycleOp::PassWindow,
            LifecycleOp::HandleWindowResize,
            LifecycleOp::HandleScaleFactorChanged,
        ]
    } else {
        seq![]
    };
    reveal_with_fuel(run_ops, 6);
    lemma_run_ops_append(state, u + q + b, o);
    lemma_run_ops_append(state, u + q, b);
    lemma_run_ops_append(state, u, q);
    assert(frame_ops_of(state, back_requested, open_requested) == u + q + b + o);
    match run_ops(state, u) {
        Some(s1) => {
            assert(s1 == state);
            match run_ops(s1, q) {
                Some(s2) => {
                    assert(s2 == state);
                },
                None => {},
            }
        },
        None => {},
    }
}

/// Closing the window stops the loop, a redraw runs a frame and any other
/// event is ignored, whatever the state of the game; only input ever goes to
/// the editor or the game.
pub proof fn lemma_non_input_routes(state: UserAppState, kind: WindowEventKind)
    ensures
        route_of(state, WindowEventKind::CloseRequested) == EventRoute::Exit,
        route_of(state, WindowEventKind::RedrawRequested) == EventRoute::Redraw,
        route_of(state, WindowEventKind::Other) == EventRoute::Ignore,
        (route_of(state, kind) == EventRoute::Editor || route_of(state, kind) == EventRoute::Game)
            <==> (kind != WindowEventKind::CloseRequested && kind
            != WindowEventKind::RedrawRequested && kind != WindowEventKind::Other),
{
}

/// All input events go to the same side: to the game exactly when it
/// holds the window, and frames update that same side.
pub proof fn lemma_input_goes_one_way(state: UserAppState, kind: WindowEventKind)
    requires
        kind == WindowEventKind::MouseWheel || kind == WindowEventKind::ScaleFactorChanged || kind
            == WindowEventKind::Resized || kind == WindowEventKind::CursorMoved || kind
            == WindowEventKind::MouseInput || kind == WindowEventKind::KeyboardInput,
    ensures
        route_of(state, kind) == route_of(state, WindowEventKind::MouseInput),
        (route_of(state, kind) == EventRoute::Game) == (state
            == UserAppState::WindowPassedToGame),
        (route_of(state, kind) == EventRoute::Game) == (state.rank()
            >= UserAppState::WindowPassedToGame.rank()),
{
}

} // verus!
