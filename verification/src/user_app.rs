use vstd::prelude::*;

use crate::user_app_state::UserAppState;

verus! {

/// The operations that the editor performs on a hot-loaded game.
#[derive(Debug, Clone, Copy, PartialEq, Eq, Structural)]
pub enum LifecycleOp {
    LoadLib,
    UnloadLib,
    BuildApp,
    UpdateApp,
    PassWindow,
    RemoveWindow,
    KillApp,
    IsBackToEditorRequested,
    HandleWindowResize,
    HandleMouseInput,
    HandleMouseMove,
    HandleScaleFactorChanged,
}

/// The state that `op` leaves behind when applied in state `s`, or `None`
/// where the operation is refused in that state.
pub open spec fn next_state(s: UserAppState, op: LifecycleOp) -> Option<UserAppState> {
    match op {
        LifecycleOp::LoadLib => if s == UserAppState::Uninitialized {
            Some(UserAppState::LibraryLoaded)
        } else {
            None
        },
        LifecycleOp::UnloadLib => if s == UserAppState::LibraryLoaded {
            Some(UserAppState::Uninitialized)
        } else {
            None
        },
        LifecycleOp::BuildApp => if s.rank() >= 1 {
            Some(UserAppState::GameAppBuilt)
        } else {
            None
        },
        LifecycleOp::PassWindow => if s.rank() >= 2 {
            Some(UserAppState::WindowPassedToGame)
        } else {
            None
        },
        LifecycleOp::RemoveWindow => if s.rank() >= 3 {
            Some(UserAppState::GameAppBuilt)
        } else {
            None
        },
        LifecycleOp::KillApp => if s.rank() >= 2 {
            Some(UserAppState::LibraryLoaded)
        } else {
            None
        },
        LifecycleOp::UpdateApp | LifecycleOp::IsBackToEditorRequested => if s.rank() >= 2 {
            Some(s)
        } else {
            None
        },
        LifecycleOp::HandleWindowResize
        | LifecycleOp::HandleMouseInput
        | LifecycleOp::HandleMouseMove
        | LifecycleOp::HandleScaleFactorChanged => if s.rank() >= 3 {
            Some(s)
        } else {
            None
        },
    }
}

/// The state reached by applying `ops` in order from `s`, or `None` where
/// one of them is refused.
pub open spec fn run_ops(s: UserAppState, ops: Seq<LifecycleOp>) -> Option<UserAppState>
    decreases ops.len(),
{
    if ops.len() == 0 {
        Some(s)
    } else {
        match next_state(s, ops[0]) {
            Some(t) => run_ops(t, ops.drop_first()),
            None => None,
        }
    }
}

/// A hot-loaded game: the library handle `L`, the handle `A` of the game
/// application that the library built, and the lifecycle state that says
/// which of them are present.
pub struct UserApp<L, A> {
    app: Option<A>,
    lib: Option<L>,
    state: UserAppState,
}

impl<L, A> UserApp<L, A> {
    pub closed spec fn spec_state(&self) -> UserAppState {
        self.state
    }

    pub closed spec fn spec_lib(&self) -> Option<L> {
        self.lib
    }

    pub closed spec fn spec_app(&self) -> Option<A> {
        self.app
    }

    /// The library is held exactly from `LibraryLoaded` on, and the game
    /// application exactly from `GameAppBuilt` on.
    pub open spec fn wf(&self) -> bool {
        &&& (self.spec_lib() is Some <==> self.spec_state().rank() >= 1)
        &&& (self.spec_app() is Some <==> self.spec_state().rank() >= 2)
    }

    pub fn new() -> (r: Self)
        ensures
            r.wf(),
            r.spec_state() == UserAppState::Uninitialized,
            r.spec_lib() is None,
            r.spec_app() is None,
    {
        UserApp { app: None, lib: None, state: UserAppState::Uninitialized }
    }

    pub fn get_app_state(&self) -> (r: &UserAppState)
        ensures
            *r == self.spec_state(),
    {
        &self.state
    }

    /// Whether `op` is accepted in the current state.
    pub fn allows(&self, op: LifecycleOp) -> (r: bool)
        ensures
            r == next_state(self.spec_state(), op) is Some,
    {
        match op {
            LifecycleOp::LoadLib => self.state.is(UserAppState::Uninitialized),
            LifecycleOp::UnloadLib => self.state.is(UserAppState::LibraryLoaded),
            LifecycleOp::BuildApp => self.state.at_least(UserAppState::LibraryLoaded),
            LifecycleOp::PassWindow
            | LifecycleOp::KillApp
            | LifecycleOp::UpdateApp
            | LifecycleOp::IsBackToEditorRequested => self.state.at_least(
                UserAppState::GameAppBuilt,
            ),
            LifecycleOp::RemoveWindow
            | LifecycleOp::HandleWindowResize
            | LifecycleOp::HandleMouseInput
            | LifecycleOp::HandleMouseMove
            | LifecycleOp::HandleScaleFactorChanged => self.state.at_least(
                UserAppState::WindowPassedToGame,
            ),
        }
    }

    /// Takes in a freshly loaded library.
    pub fn load_lib(&mut self, lib: L)
        requires
            old(self).wf(),
            next_state(old(self).spec_state(), LifecycleOp::LoadLib) is Some,
        ensures
            final(self).wf(),
            final(self).spec_state() == next_state(
                old(self).spec_state(),
                LifecycleOp::LoadLib,
            )->0,
            final(self).spec_lib() == Some(lib),
            final(self).spec_app() == old(self).spec_app(),
    {
        self.lib = Some(lib);
        self.state = UserAppState::LibraryLoaded;
    }

    /// Gives back the library, to be closed.
    pub fn unload_lib(&mut self) -> (lib: L)
        requires
            old(self).wf(),
            next_state(old(self).spec_state(), LifecycleOp::UnloadLib) is Some,
        ensures
            final(self).wf(),
            final(self).spec_state() == next_state(
                old(self).spec_state(),
                LifecycleOp::UnloadLib,
            )->0,
            old(self).spec_lib() == Some(lib),
            final(self).spec_lib() is None,
            final(self).spec_app() == old(self).spec_app(),
    {
        let lib = self.lib.take().unwrap();
        self.state = UserAppState::Uninitialized;
        lib
    }

    /// The loaded library, from which the game application is built.
    pub fn library(&self) -> (r: &L)
        requires
            self.wf(),
            next_state(self.spec_state(), LifecycleOp::BuildApp) is Some,
        ensures
            self.spec_lib() == Some(*r),
    {
        self.lib.as_ref().unwrap()
    }

    /// Stores the game application that the library built.
    pub fn build_app(&mut self, app: A)
        requires
            old(self).wf(),
            next_state(old(self).spec_state(), LifecycleOp::BuildApp) is Some,
        ensures
            final(self).wf(),
            final(self).spec_state() == next_state(
                old(self).spec_state(),
                LifecycleOp::BuildApp,
            )->0,
            final(self).spec_lib() == old(self).spec_lib(),
            final(self).spec_app() == Some(app),
    {
        self.app = Some(app);
        self.state = UserAppState::GameAppBuilt;
    }

    /// The library and the game application, through which the game is
    /// updated, queried and fed input.
    pub fn game_handles(&self) -> (r: (&L, &A))
        requires
            self.wf(),
            self.spec_state().rank() >= UserAppState::GameAppBuilt.rank(),
        ensures
            self.spec_lib() == Some(*r.0),
            self.spec_app() == Some(*r.1),
    {
        (self.lib.as_ref().unwrap(), self.app.as_ref().unwrap())
    }

    /// Records that the editor window was handed to the game.
    pub fn pass_window(&mut self)
        requires
            old(self).wf(),
            next_state(old(self).spec_state(), LifecycleOp::PassWindow) is Some,
        ensures
            final(self).wf(),
            final(self).spec_state() == next_state(
                old(self).spec_state(),
                LifecycleOp::PassWindow,
            )->0,
            final(self).spec_lib() == old(self).spec_lib(),
            final(self).spec_app() == old(self).spec_app(),
    {
        self.state = UserAppState::WindowPassedToGame;
    }

    /// Records that the window was taken back from the game.
    pub fn remove_window(&mut self)
        requires
            old(self).wf(),
            next_state(old(self).spec_state(), LifecycleOp::RemoveWindow) is Some,
        ensures
            final(self).wf(),
            final(self).spec_state() == next_state(
                old(self).spec_state(),
                LifecycleOp::RemoveWindow,
            )->0,
            final(self).spec_lib() == old(self).spec_lib(),
            final(self).spec_app() == old(self).spec_app(),
    {
        self.state = UserAppState::GameAppBuilt;
    }

    /// Forgets the game application; the library stays loaded.
    pub fn kill_app(&mut self)
        requires
            old(self).wf(),
            next_state(old(self).spec_state(), LifecycleOp::KillApp) is Some,
        ensures
            final(self).wf(),
            final(self).spec_state() == next_state(
                old(self).spec_state(),
                LifecycleOp::KillApp,
            )->0,
            final(self).spec_lib() == old(self).spec_lib(),
            final(self).spec_app() is None,
    {
        self.app = None;
        self.state = UserAppState::LibraryLoaded;
    }
}

impl<L, A> Default for UserApp<L, A> {
    fn default() -> (r: Self)
        ensures
            r.wf(),
            r.spec_state() == UserAppState::Uninitialized,
            r.spec_lib() is None,
            r.spec_app() is None,
    {
        UserApp::new()
    }
}

/// Opening the game (load the library, build the application, hand it the
/// window) is accepted exactly from `Uninitialized` and ends in
/// `WindowPassedToGame`; returning to the editor (take the window back,
/// kill the application, unload the library) is accepted exactly from
/// `WindowPassedToGame` and ends in `Uninitialized`. So one undoes the other.
pub proof fn lemma_open_and_return_round_trip(s: UserAppState)
    ensures
        run_ops(s, seq![LifecycleOp::LoadLib, LifecycleOp::BuildApp, LifecycleOp::PassWindow])
            == (if s == UserAppState::Uninitialized {
            Some(UserAppState::WindowPassedToGame)
        } else {
            None::<UserAppState>
        }),
        run_ops(
            s,
            seq![LifecycleOp::RemoveWindow, LifecycleOp::KillApp, LifecycleOp::UnloadLib],
        ) == (if s == UserAppState::WindowPassedToGame {
            Some(UserAppState::Uninitialized)
        } else {
            None::<UserAppState>
        }),
{
    reveal_with_fuel(run_ops, 4);
}

/// Each state-changing operation has an inverse: unloading undoes loading,
/// killing undoes building, removing the window undoes passing it.
pub proof fn lemma_inverse_operations(s: UserAppState)
    ensures
        next_state(s, LifecycleOp::LoadLib) is Some ==> next_state(
            next_state(s, LifecycleOp::LoadLib)->0,
            LifecycleOp::UnloadLib,
        ) == Some(s),
        s == UserAppState::LibraryLoaded ==> next_state(
            next_state(s, LifecycleOp::BuildApp)->0,
            LifecycleOp::KillApp,
        ) == Some(s),
        s == UserAppState::GameAppBuilt ==> next_state(
            next_state(s, LifecycleOp::PassWindow)->0,
            LifecycleOp::RemoveWindow,
        ) == Some(s),
{
}

/// The operations that only use the game (update, queries and input) never
/// change the state, and need at least a built game.
pub proof fn lemma_queries_keep_state(s: UserAppState, op: LifecycleOp)
    requires
        op == LifecycleOp::UpdateApp || op == LifecycleOp::IsBackToEditorRequested || op
            == LifecycleOp::HandleWindowResize || op == LifecycleOp::HandleMouseInput || op
            == LifecycleOp::HandleMouseMove || op == LifecycleOp::HandleScaleFactorChanged,
    ensures
        next_state(s, op) is Some ==> next_state(s, op) == Some(s) && s.rank() >= 2,
{
}

/// Which states accept each operation, named state by state: loading only
/// with nothing loaded, unloading only with the library loaded and no game
/// built, building from a loaded library on, updating, asking, passing the
/// window and killing once the game is built, and taking the window back
/// and handing the game input only while the game holds the window.
pub proof fn lemma_accepting_states(s: UserAppState, op: LifecycleOp)
    ensures
        op == LifecycleOp::LoadLib ==> (next_state(s, op) is Some <==> s
            == UserAppState::Uninitialized),
        op == LifecycleOp::UnloadLib ==> (next_state(s, op) is Some <==> s
            == UserAppState::LibraryLoaded),
        op == LifecycleOp::BuildApp ==> (next_state(s, op) is Some <==> s
            != UserAppState::Uninitialized),
        (op == LifecycleOp::UpdateApp || op == LifecycleOp::IsBackToEditorRequested || op
            == LifecycleOp::PassWindow || op == LifecycleOp::KillApp) ==> (next_state(s, op) is Some
            <==> (s == UserAppState::GameAppBuilt || s == UserAppState::WindowPassedToGame)),
        (op == LifecycleOp::RemoveWindow || op == LifecycleOp::HandleWindowResize || op
            == LifecycleOp::HandleMouseInput || op == LifecycleOp::HandleMouseMove || op
            == LifecycleOp::HandleScaleFactorChanged) ==> (next_state(s, op) is Some <==> s
            == UserAppState::WindowPassedToGame),
{
}

/// The state each accepted operation leaves: loading gives a loaded
/// library, unloading and killing step back one stage, building gives a
/// built game, passing the window gives the game the window, taking it back
/// gives a built game without it, and updates, questions and input leave
/// the state as it was.
pub proof fn lemma_resulting_states(s: UserAppState, op: LifecycleOp)
    requires
        next_state(s, op) is Some,
    ensures
        op == LifecycleOp::LoadLib ==> next_state(s, op) == Some(UserAppState::LibraryLoaded),
        op == LifecycleOp::UnloadLib ==> next_state(s, op) == Some(UserAppState::Uninitialized),
        op == LifecycleOp::BuildApp ==> next_state(s, op) == Some(UserAppState::GameAppBuilt),
        op == LifecycleOp::PassWindow ==> next_state(s, op) == Some(
            UserAppState::WindowPassedToGame,
        ),
        op == LifecycleOp::RemoveWindow ==> next_state(s, op) == Some(UserAppState::GameAppBuilt),
        op == LifecycleOp::KillApp ==> next_state(s, op) == Some(UserAppState::LibraryLoaded),
        (op == LifecycleOp::UpdateApp || op == LifecycleOp::IsBackToEditorRequested || op
            == LifecycleOp::HandleWindowResize || op == LifecycleOp::HandleMouseInput || op
            == LifecycleOp::HandleMouseMove || op == LifecycleOp::HandleScaleFactorChanged)
            ==> next_state(s, op) == Some(s),
{
}

/// Apart from loading and unloading the library, an operation accepted in
/// one state is accepted in every later state.
pub proof fn lemma_guards_are_monotone(s: UserAppState, t: UserAppState, op: LifecycleOp)
    requires
        op != LifecycleOp::LoadLib,
        op != LifecycleOp::UnloadLib,
        t.rank() >= s.rank(),
        next_state(s, op) is Some,
    ensures
        next_state(t, op) is Some,
{
}

} // verus!
