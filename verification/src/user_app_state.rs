use vstd::prelude::*;

verus! {

/// How far the hot-loaded game has progressed. The states are ordered:
/// each one implies all the ones before it.
#[derive(Debug, Clone, Copy, PartialEq, Eq, Structural)]
pub enum UserAppState {
    Uninitialized,
    LibraryLoaded,
    GameAppBuilt,
    WindowPassedToGame,
}

impl UserAppState {
    /// Position of the state in the lifecycle order.
    pub open spec fn rank(self) -> nat {
        match self {
            UserAppState::Uninitialized => 0,
            UserAppState::LibraryLoaded => 1,
            UserAppState::GameAppBuilt => 2,
            UserAppState::WindowPassedToGame => 3,
        }
    }

    /// Whether `self` has reached at least the stage `input`.
    pub fn at_least(&self, input: Self) -> (r: bool)
        ensures
            r == (self.rank() >= input.rank()),
    {
        match input {
            UserAppState::Uninitialized => true,
            UserAppState::LibraryLoaded => matches!(
                self,
                UserAppState::LibraryLoaded | UserAppState::GameAppBuilt
                    | UserAppState::WindowPassedToGame
            ),
            UserAppState::GameAppBuilt => matches!(
                self,
                UserAppState::GameAppBuilt | UserAppState::WindowPassedToGame
            ),
            UserAppState::WindowPassedToGame => matches!(self, UserAppState::WindowPassedToGame),
        }
    }

    /// Whether `self` is exactly the state `input`.
    pub fn is(&self, input: Self) -> (r: bool)
        ensures
            r == (*self == input),
    {
        self == &input
    }
}

impl Default for UserAppState {
    fn default() -> (s: Self)
        ensures
            s == UserAppState::Uninitialized,
    {
        UserAppState::Uninitialized
    }
}

/// `at_least` orders the states totally: it is reflexive, transitive,
/// antisymmetric and any two states are comparable.
pub proof fn lemma_at_least_is_total_order(a: UserAppState, b: UserAppState, c: UserAppState)
    ensures
        a.rank() >= a.rank(),
        a.rank() >= b.rank() && b.rank() >= c.rank() ==> a.rank() >= c.rank(),
        a.rank() >= b.rank() && b.rank() >= a.rank() ==> a == b,
        a.rank() >= b.rank() || b.rank() >= a.rank(),
{
}

/// Being exactly in a state implies having reached it.
pub proof fn lemma_is_implies_at_least(a: UserAppState, b: UserAppState)
    ensures
        a == b ==> a.rank() >= b.rank(),
{
}

/// Every state has reached `Uninitialized`, and only `WindowPassedToGame`
/// has reached `WindowPassedToGame`: for the last state, `at_least` and
/// `is` agree.
pub proof fn lemma_bottom_and_top(a: UserAppState)
    ensures
        a.rank() >= UserAppState::Uninitialized.rank(),
        a.rank() >= UserAppState::WindowPassedToGame.rank() <==> a
            == UserAppState::WindowPassedToGame,
{
}

} // verus!
