//! A state machine that owns its resources and moves from state to state by
//! asking them for the next one.
use vstd::prelude::*;

verus! {

/// A state of a machine: where it starts, and whether it is done.
pub trait State: Sized {
    /// The state a machine starts in.
    spec fn initial_spec() -> Self;

    /// The state a machine starts in.
    fn default_initial() -> (r: Self)
        ensures
            r == Self::initial_spec(),
    ;

    /// Whether the machine is done.
    fn is_final(&self) -> bool;
}

/// The resources of a machine, which compute the next state from the current
/// one and the arguments of a step.
pub trait Resources<A> {
    /// The states of the machine.
    type State: State;
    /// Why a step failed.
    type Error;

    /// Whether a step from `state` with `args` may take the resources from
    /// `before` to `after` and give `result`: what each implementation does.
    /// Resources that do not say so may take any step.
    open spec fn steps(before: Self, state: Self::State, args: A, after: Self, result: Result<Self::State, Self::Error>) -> bool
        where Self: Sized
    {
        true
    }

    /// The state after `state`, given `args`.
    fn transition(&mut self, state: Self::State, args: A) -> (r: Result<Self::State, Self::Error>)
        where Self: Sized
        ensures
            Self::steps(*old(self), state, args, *final(self), r),
    ;
}

/// A state machine: its resources and its current state.
#[derive(Debug, Clone, Copy, PartialEq, Eq, PartialOrd, Ord, Hash, Default)]
pub struct StateMachine<R, S> {
    resources: R,
    state: S,
}

impl<R, S> StateMachine<R, S> {
    /// The resources.
    pub closed spec fn resources_spec(self) -> R {
        self.resources
    }

    /// The current state.
    pub closed spec fn state_spec(self) -> S {
        self.state
    }

    /// A machine with `resources`, in `initial_state`.
    pub fn with_initial_state(resources: R, initial_state: S) -> (r: StateMachine<R, S>)
        ensures
            r.resources_spec() == resources,
            r.state_spec() == initial_state,
    {
        StateMachine { resources, state: initial_state }
    }

    fn reset_state_with(&mut self, new_state: S)
        ensures
            final(self).state_spec() == new_state,
            final(self).resources_spec() == old(self).resources_spec(),
    {
        self.state = new_state;
    }

    /// The current state.
    pub fn state(&self) -> (r: &S)
        ensures
            *r == self.state_spec(),
    {
        &self.state
    }

    /// The resources.
    pub fn resources(&self) -> (r: &R)
        ensures
            *r == self.resources_spec(),
    {
        &self.resources
    }

    /// The resources, to change in place.
    pub fn resources_mut(&mut self) -> (r: &mut R)
        ensures
            *r == old(self).resources_spec(),
            final(self).resources_spec() == *final(r),
            final(self).state_spec() == old(self).state_spec(),
    {
        &mut self.resources
    }
}

impl<R, S: State> StateMachine<R, S> {
    /// A machine with `resources`, in the initial state.
    pub fn new(resources: R) -> (r: StateMachine<R, S>)
        ensures
            r.resources_spec() == resources,
            r.state_spec() == S::initial_spec(),
    {
        StateMachine::with_initial_state(resources, S::default_initial())
    }

    /// Moves the machine back to the initial state.
    pub fn reset_state(&mut self)
        ensures
            final(self).state_spec() == S::initial_spec(),
            final(self).resources_spec() == old(self).resources_spec(),
    {
        self.reset_state_with(S::default_initial());
    }

    /// One step: the resources compute the next state from the current one.
    /// On an error the machine is left in the initial state.
    pub fn transition<A>(&mut self, args: A) -> (r: Result<(), R::Error>) where R: Resources<A, State = S>
        ensures
            r is Ok ==> R::steps(
                old(self).resources_spec(),
                old(self).state_spec(),
                args,
                final(self).resources_spec(),
                Ok(final(self).state_spec()),
            ),
            r matches Err(e) ==> final(self).state_spec() == S::initial_spec() && R::steps(
                old(self).resources_spec(),
                old(self).state_spec(),
                args,
                final(self).resources_spec(),
                Err(e),
            ),
    {
        let mut current = S::default_initial();
        std::mem::swap(&mut current, &mut self.state);
        match self.resources.transition(current, args) {
            Ok(next) => {
                self.state = next;
                Ok(())
            },
            Err(e) => Err(e),
        }
    }
}

} // verus!
