use nest_editor::editor_events::{
    frame_ops, redraw_update_target, route_window_event, EventRoute, UpdateTarget, WindowEventKind,
};
use nest_editor::user_app::{LifecycleOp, UserApp};
use nest_editor::user_app_state::UserAppState;

const STATES: [UserAppState; 4] = [
    UserAppState::Uninitialized,
    UserAppState::LibraryLoaded,
    UserAppState::GameAppBuilt,
    UserAppState::WindowPassedToGame,
];

#[test]
fn at_least_follows_the_lifecycle_order() {
    for (i, a) in STATES.iter().enumerate() {
        for (j, b) in STATES.iter().enumerate() {
            assert_eq!(a.at_least(*b), i >= j, "{:?} at least {:?}", a, b);
        }
    }
}

#[test]
fn is_compares_exactly() {
    for (i, a) in STATES.iter().enumerate() {
        for (j, b) in STATES.iter().enumerate() {
            assert_eq!(a.is(*b), i == j);
        }
    }
}

#[test]
fn default_state_is_uninitialized() {
    assert_eq!(UserAppState::default(), UserAppState::Uninitialized);
}

#[test]
fn only_the_last_state_has_reached_the_last_state() {
    for s in STATES.iter() {
        assert_eq!(
            s.at_least(UserAppState::WindowPassedToGame),
            s.is(UserAppState::WindowPassedToGame)
        );
        assert!(s.at_least(UserAppState::Uninitialized));
    }
}

#[test]
fn open_game_and_return_to_editor() {
    let mut app: UserApp<String, u32> = UserApp::new();
    assert_eq!(*app.get_app_state(), UserAppState::Uninitialized);
    assert!(app.allows(LifecycleOp::LoadLib));
    assert!(!app.allows(LifecycleOp::BuildApp));
    assert!(!app.allows(LifecycleOp::UpdateApp));

    app.load_lib("libgame.dylib".to_string());
    assert_eq!(*app.get_app_state(), UserAppState::LibraryLoaded);
    assert_eq!(app.library(), "libgame.dylib");
    assert!(!app.allows(LifecycleOp::LoadLib));

    app.build_app(7);
    assert_eq!(*app.get_app_state(), UserAppState::GameAppBuilt);
    let (lib, game) = app.game_handles();
    assert_eq!((lib.as_str(), *game), ("libgame.dylib", 7));
    assert!(app.allows(LifecycleOp::UpdateApp));
    assert!(app.allows(LifecycleOp::IsBackToEditorRequested));
    assert!(!app.allows(LifecycleOp::HandleMouseInput));
    assert!(!app.allows(LifecycleOp::HandleScaleFactorChanged));

    app.pass_window();
    assert_eq!(*app.get_app_state(), UserAppState::WindowPassedToGame);
    assert!(app.allows(LifecycleOp::HandleWindowResize));
    assert!(app.allows(LifecycleOp::HandleMouseMove));
    assert!(app.allows(LifecycleOp::HandleScaleFactorChanged));

    app.remove_window();
    assert_eq!(*app.get_app_state(), UserAppState::GameAppBuilt);
    app.kill_app();
    assert_eq!(*app.get_app_state(), UserAppState::LibraryLoaded);
    assert!(app.allows(LifecycleOp::UnloadLib));
    let lib = app.unload_lib();
    assert_eq!(lib, "libgame.dylib");
    assert_eq!(*app.get_app_state(), UserAppState::Uninitialized);
}

#[test]
fn rebuilding_replaces_the_game() {
    let mut app: UserApp<&str, u32> = UserApp::default();
    app.load_lib("lib");
    app.build_app(1);
    app.pass_window();
    assert!(app.allows(LifecycleOp::BuildApp));
    app.build_app(2);
    assert_eq!(*app.get_app_state(), UserAppState::GameAppBuilt);
    assert_eq!(*app.game_handles().1, 2);
}

#[test]
fn input_goes_to_the_game_only_while_it_holds_the_window() {
    let inputs = [
        WindowEventKind::MouseWheel,
        WindowEventKind::ScaleFactorChanged,
        WindowEventKind::Resized,
        WindowEventKind::CursorMoved,
        WindowEventKind::MouseInput,
        WindowEventKind::KeyboardInput,
    ];
    for s in STATES.iter() {
        for k in inputs.iter() {
            let expected = if *s == UserAppState::WindowPassedToGame {
                EventRoute::Game
            } else {
                EventRoute::Editor
            };
            assert_eq!(route_window_event(s, *k), expected);
        }
        assert_eq!(route_window_event(s, WindowEventKind::CloseRequested), EventRoute::Exit);
        assert_eq!(route_window_event(s, WindowEventKind::RedrawRequested), EventRoute::Redraw);
        assert_eq!(route_window_event(s, WindowEventKind::Other), EventRoute::Ignore);
    }
}

#[test]
fn frames_update_the_side_holding_the_window() {
    assert_eq!(redraw_update_target(&UserAppState::GameAppBuilt), UpdateTarget::Editor);
    assert_eq!(redraw_update_target(&UserAppState::Uninitialized), UpdateTarget::Editor);
    assert_eq!(redraw_update_target(&UserAppState::WindowPassedToGame), UpdateTarget::Game);
}

/// Applies the operations in order; returns the state reached, or the
/// first operation that is refused.
fn run(app: &mut UserApp<(), ()>, ops: &[LifecycleOp]) -> Result<UserAppState, LifecycleOp> {
    for op in ops {
        if !app.allows(*op) {
            return Err(*op);
        }
        match op {
            LifecycleOp::LoadLib => app.load_lib(()),
            LifecycleOp::UnloadLib => app.unload_lib(),
            LifecycleOp::BuildApp => app.build_app(()),
            LifecycleOp::PassWindow => app.pass_window(),
            LifecycleOp::RemoveWindow => app.remove_window(),
            LifecycleOp::KillApp => app.kill_app(),
            _ => {}
        }
    }
    Ok(*app.get_app_state())
}

#[test]
fn frame_operations() {
    assert_eq!(
        frame_ops(&UserAppState::WindowPassedToGame, true, false),
        vec![
            LifecycleOp::UpdateApp,
            LifecycleOp::IsBackToEditorRequested,
            LifecycleOp::RemoveWindow,
            LifecycleOp::KillApp,
            LifecycleOp::UnloadLib,
        ]
    );
    assert_eq!(
        frame_ops(&UserAppState::GameAppBuilt, false, true),
        vec![
            LifecycleOp::IsBackToEditorRequested,
            LifecycleOp::LoadLib,
            LifecycleOp::BuildApp,
            LifecycleOp::PassWindow,
            LifecycleOp::HandleWindowResize,
            LifecycleOp::HandleScaleFactorChanged,
        ]
    );
}

#[test]
fn a_frame_before_any_game_is_refused_at_the_question() {
    let mut app: UserApp<(), ()> = UserApp::new();
    let ops = frame_ops(app.get_app_state(), false, false);
    assert_eq!(run(&mut app, &ops), Err(LifecycleOp::IsBackToEditorRequested));
}

#[test]
fn going_back_and_reopening_in_one_frame() {
    let mut app: UserApp<(), ()> = UserApp::new();
    assert_eq!(
        run(&mut app, &[LifecycleOp::LoadLib, LifecycleOp::BuildApp, LifecycleOp::PassWindow]),
        Ok(UserAppState::WindowPassedToGame)
    );
    let ops = frame_ops(app.get_app_state(), true, true);
    assert_eq!(run(&mut app, &ops), Ok(UserAppState::WindowPassedToGame));
    let ops = frame_ops(app.get_app_state(), false, true);
    assert_eq!(run(&mut app, &ops), Err(LifecycleOp::LoadLib));
}
