//! Client-side media exchange and mute states: a stable value, or a
//! transition toward one that remembers where it started.

use vstd::prelude::*;

verus! {

/// A state that is either settled on a stable value or in transition
/// toward one.
#[derive(Clone, Copy, Debug, PartialEq, Eq)]
pub enum TransitableState<S, T> {
    /// A transition toward a stable value is under way.
    Transition(T),
    /// The state is settled.
    Stable(S),
}

/// A stable value of a [`TransitableState`].
pub trait InStable: Sized + Copy {
    /// The transition type that leaves this stable value.
    type Transition;

    /// The transition that starting from this value begins: it heads for
    /// the opposite value and remembers this one.
    spec fn transition_of(self) -> Self::Transition;

    /// Begins the transition away from this value.
    fn start_transition(self) -> (t: Self::Transition)
        ensures
            t == self.transition_of(),
    ;

    /// Compares two stable values.
    fn same(self, other: Self) -> (r: bool)
        ensures
            r == (self == other),
    ;
}

/// A transition of a [`TransitableState`].
pub trait InTransition: Sized + Copy {
    /// The stable type this transition heads for.
    type Stable;

    /// The stable value this transition heads for.
    spec fn intended_of(self) -> Self::Stable;

    /// The stable value the transition started from.
    spec fn inner_of(self) -> Self::Stable;

    /// The same transition turned around: it heads for the opposite value
    /// and keeps the remembered starting value.
    spec fn reversed_of(self) -> Self;

    /// This transition with its remembered starting value replaced.
    spec fn with_inner(self, inner: Self::Stable) -> Self;

    /// Returns the stable value this transition heads for.
    fn intended(self) -> (s: Self::Stable)
        ensures
            s == self.intended_of(),
    ;

    /// Replaces the remembered starting value.
    fn set_inner(self, inner: Self::Stable) -> (t: Self)
        ensures
            t == self.with_inner(inner),
    ;

    /// Returns the remembered starting value.
    fn into_inner(self) -> (s: Self::Stable)
        ensures
            s == self.inner_of(),
    ;

    /// Turns the transition around.
    fn reverse(self) -> (t: Self)
        ensures
            t == self.reversed_of(),
    ;
}

impl<S, T> TransitableState<S, T> where
    S: InStable<Transition = T>,
    T: InTransition<Stable = S>,
 {
    /// Whether the state is settled, not in transition.
    pub fn is_stable(self) -> (r: bool)
        ensures
            r == (self is Stable),
    {
        match self {
            TransitableState::Stable(_) => true,
            TransitableState::Transition(_) => false,
        }
    }

    /// Starts a transition into `desired_state`. A no-op when the state is
    /// already settled on it or already heading for it; an opposing
    /// transition is turned around, keeping its remembered start.
    pub fn transition_to(self, desired_state: S) -> (r: Self)
        ensures
            r == (match self {
                TransitableState::Stable(s) => if s == desired_state {
                    self
                } else {
                    TransitableState::<S, T>::Transition(s.transition_of())
                },
                TransitableState::Transition(t) => if t.intended_of() == desired_state {
                    self
                } else {
                    TransitableState::<S, T>::Transition(t.reversed_of())
                },
            }),
    {
        match self {
            TransitableState::Stable(stable) => {
                if stable.same(desired_state) {
                    TransitableState::Stable(stable)
                } else {
                    TransitableState::Transition(stable.start_transition())
                }
            },
            TransitableState::Transition(transition) => {
                if transition.intended().same(desired_state) {
                    TransitableState::Transition(transition)
                } else {
                    TransitableState::Transition(transition.reverse())
                }
            },
        }
    }

    /// Cancels an ongoing transition, falling back to its remembered
    /// starting value; a settled state stays as it is.
    pub fn cancel_transition(self) -> (r: Self)
        ensures
            r == (match self {
                TransitableState::Stable(_) => self,
                TransitableState::Transition(t) => TransitableState::<S, T>::Stable(t.inner_of()),
            }),
    {
        match self {
            TransitableState::Stable(s) => TransitableState::Stable(s),
            TransitableState::Transition(t) => TransitableState::Stable(t.into_inner()),
        }
    }
}

/// Settled media exchange state of a track side.
#[derive(Clone, Copy, Debug, PartialEq, Eq, Structural)]
pub enum StableMediaExchangeState {
    /// Media is exchanged.
    Enabled,
    /// Media is not exchanged.
    Disabled,
}

/// Transition between media exchange states; remembers where it started.
#[derive(Clone, Copy, Debug, PartialEq, Eq, Structural)]
pub enum TransitionMediaExchangeState {
    /// Heading for [`StableMediaExchangeState::Enabled`].
    Enabling(StableMediaExchangeState),
    /// Heading for [`StableMediaExchangeState::Disabled`].
    Disabling(StableMediaExchangeState),
}

impl InStable for StableMediaExchangeState {
    type Transition = TransitionMediaExchangeState;

    open spec fn transition_of(self) -> TransitionMediaExchangeState {
        match self {
            StableMediaExchangeState::Enabled => TransitionMediaExchangeState::Disabling(self),
            StableMediaExchangeState::Disabled => TransitionMediaExchangeState::Enabling(self),
        }
    }

    fn start_transition(self) -> TransitionMediaExchangeState {
        match self {
            StableMediaExchangeState::Enabled => TransitionMediaExchangeState::Disabling(self),
            StableMediaExchangeState::Disabled => TransitionMediaExchangeState::Enabling(self),
        }
    }

    fn same(self, other: Self) -> bool {
        match (self, other) {
            (StableMediaExchangeState::Enabled, StableMediaExchangeState::Enabled) => true,
            (StableMediaExchangeState::Disabled, StableMediaExchangeState::Disabled) => true,
            _ => false,
        }
    }
}

impl InTransition for TransitionMediaExchangeState {
    type Stable = StableMediaExchangeState;

    open spec fn intended_of(self) -> StableMediaExchangeState {
        match self {
            TransitionMediaExchangeState::Enabling(_) => StableMediaExchangeState::Enabled,
            TransitionMediaExchangeState::Disabling(_) => StableMediaExchangeState::Disabled,
        }
    }

    open spec fn inner_of(self) -> StableMediaExchangeState {
        match self {
            TransitionMediaExchangeState::Enabling(s) => s,
            TransitionMediaExchangeState::Disabling(s) => s,
        }
    }

    open spec fn reversed_of(self) -> Self {
        match self {
            TransitionMediaExchangeState::Enabling(s) => {
                TransitionMediaExchangeState::Disabling(s)
            },
            TransitionMediaExchangeState::Disabling(s) => {
                TransitionMediaExchangeState::Enabling(s)
            },
        }
    }

    open spec fn with_inner(self, inner: StableMediaExchangeState) -> Self {
        match self {
            TransitionMediaExchangeState::Enabling(_) => {
                TransitionMediaExchangeState::Enabling(inner)
            },
            TransitionMediaExchangeState::Disabling(_) => {
                TransitionMediaExchangeState::Disabling(inner)
            },
        }
    }

    fn intended(self) -> StableMediaExchangeState {
        match self {
            TransitionMediaExchangeState::Enabling(_) => StableMediaExchangeState::Enabled,
            TransitionMediaExchangeState::Disabling(_) => StableMediaExchangeState::Disabled,
        }
    }

    fn set_inner(self, inner: StableMediaExchangeState) -> Self {
        match self {
            TransitionMediaExchangeState::Enabling(_) => {
                TransitionMediaExchangeState::Enabling(inner)
            },
            TransitionMediaExchangeState::Disabling(_) => {
                TransitionMediaExchangeState::Disabling(inner)
            },
        }
    }

    fn into_inner(self) -> StableMediaExchangeState {
        match self {
            TransitionMediaExchangeState::Enabling(s) => s,
            TransitionMediaExchangeState::Disabling(s) => s,
        }
    }

    fn reverse(self) -> Self {
        match self {
            TransitionMediaExchangeState::Enabling(s) => {
                TransitionMediaExchangeState::Disabling(s)
            },
            TransitionMediaExchangeState::Disabling(s) => {
                TransitionMediaExchangeState::Enabling(s)
            },
        }
    }
}

/// Settled mute state of a track side.
#[derive(Clone, Copy, Debug, PartialEq, Eq, Structural)]
pub enum StableMuteState {
    /// The track is muted.
    Muted,
    /// The track is not muted.
    Unmuted,
}

/// Transition between mute states; remembers where it started.
#[derive(Clone, Copy, Debug, PartialEq, Eq, Structural)]
pub enum TransitionMuteState {
    /// Heading for [`StableMuteState::Muted`].
    Muting(StableMuteState),
    /// Heading for [`StableMuteState::Unmuted`].
    Unmuting(StableMuteState),
}

impl InStable for StableMuteState {
    type Transition = TransitionMuteState;

    open spec fn transition_of(self) -> TransitionMuteState {
        match self {
            StableMuteState::Muted => TransitionMuteState::Unmuting(self),
            StableMuteState::Unmuted => TransitionMuteState::Muting(self),
        }
    }

    fn start_transition(self) -> TransitionMuteState {
        match self {
            StableMuteState::Muted => TransitionMuteState::Unmuting(self),
            StableMuteState::Unmuted => TransitionMuteState::Muting(self),
        }
    }

    fn same(self, other: Self) -> bool {
        match (self, other) {
            (StableMuteState::Muted, StableMuteState::Muted) => true,
            (StableMuteState::Unmuted, StableMuteState::Unmuted) => true,
            _ => false,
        }
    }
}

impl InTransition for TransitionMuteState {
    type Stable = StableMuteState;

    open spec fn intended_of(self) -> StableMuteState {
        match self {
            TransitionMuteState::Muting(_) => StableMuteState::Muted,
            TransitionMuteState::Unmuting(_) => StableMuteState::Unmuted,
        }
    }

    open spec fn inner_of(self) -> StableMuteState {
        match self {
            TransitionMuteState::Muting(s) => s,
            TransitionMuteState::Unmuting(s) => s,
        }
    }

    open spec fn reversed_of(self) -> Self {
        match self {
            TransitionMuteState::Muting(s) => TransitionMuteState::Unmuting(s),
            TransitionMuteState::Unmuting(s) => TransitionMuteState::Muting(s),
        }
    }

    open spec fn with_inner(self, inner: StableMuteState) -> Self {
        match self {
            TransitionMuteState::Muting(_) => TransitionMuteState::Muting(inner),
            TransitionMuteState::Unmuting(_) => TransitionMuteState::Unmuting(inner),
        }
    }

    fn intended(self) -> StableMuteState {
        match self {
            TransitionMuteState::Muting(_) => StableMuteState::Muted,
            TransitionMuteState::Unmuting(_) => StableMuteState::Unmuted,
        }
    }

    fn set_inner(self, inner: StableMuteState) -> Self {
        match self {
            TransitionMuteState::Muting(_) => TransitionMuteState::Muting(inner),
            TransitionMuteState::Unmuting(_) => TransitionMuteState::Unmuting(inner),
        }
    }

    fn into_inner(self) -> StableMuteState {
        match self {
            TransitionMuteState::Muting(s) => s,
            TransitionMuteState::Unmuting(s) => s,
        }
    }

    fn reverse(self) -> Self {
        match self {
            TransitionMuteState::Muting(s) => TransitionMuteState::Unmuting(s),
            TransitionMuteState::Unmuting(s) => TransitionMuteState::Muting(s),
        }
    }
}

/// Media exchange state of a track side.
pub type MediaExchangeState = TransitableState<
    StableMediaExchangeState,
    TransitionMediaExchangeState,
>;

/// Mute state of a track side.
pub type MuteState = TransitableState<StableMuteState, TransitionMuteState>;

} // verus!
