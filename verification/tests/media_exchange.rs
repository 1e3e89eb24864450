//! The media exchange state machine: transitions and cancellation.

use medea::media_exchange::{
    MediaExchangeState, MuteState, StableMediaExchangeState, StableMuteState, TransitableState,
    TransitionMediaExchangeState,
};

fn disabled() -> MediaExchangeState {
    TransitableState::Stable(StableMediaExchangeState::Disabled)
}

fn enabled() -> MediaExchangeState {
    TransitableState::Stable(StableMediaExchangeState::Enabled)
}

fn enabling_disabled() -> MediaExchangeState {
    TransitableState::Transition(TransitionMediaExchangeState::Enabling(
        StableMediaExchangeState::Disabled,
    ))
}

fn enabling_enabled() -> MediaExchangeState {
    TransitableState::Transition(TransitionMediaExchangeState::Enabling(
        StableMediaExchangeState::Enabled,
    ))
}

fn disabling_disabled() -> MediaExchangeState {
    TransitableState::Transition(TransitionMediaExchangeState::Disabling(
        StableMediaExchangeState::Disabled,
    ))
}

fn disabling_enabled() -> MediaExchangeState {
    TransitableState::Transition(TransitionMediaExchangeState::Disabling(
        StableMediaExchangeState::Enabled,
    ))
}

#[test]
fn transition_to() {
    assert_eq!(
        disabled().transition_to(StableMediaExchangeState::Disabled),
        disabled()
    );
    assert_eq!(
        disabled().transition_to(StableMediaExchangeState::Enabled),
        enabling_disabled()
    );
    assert_eq!(
        enabled().transition_to(StableMediaExchangeState::Enabled),
        enabled()
    );
    assert_eq!(
        enabled().transition_to(StableMediaExchangeState::Disabled),
        disabling_enabled()
    );

    assert_eq!(
        enabling_disabled().transition_to(StableMediaExchangeState::Disabled),
        disabling_disabled()
    );
    assert_eq!(
        enabling_disabled().transition_to(StableMediaExchangeState::Enabled),
        enabling_disabled()
    );
    assert_eq!(
        disabling_enabled().transition_to(StableMediaExchangeState::Disabled),
        disabling_enabled()
    );
    assert_eq!(
        disabling_enabled().transition_to(StableMediaExchangeState::Enabled),
        enabling_enabled()
    );
    assert_eq!(
        disabling_disabled().transition_to(StableMediaExchangeState::Disabled),
        disabling_disabled()
    );
    assert_eq!(
        disabling_disabled().transition_to(StableMediaExchangeState::Enabled),
        enabling_disabled()
    );
    assert_eq!(
        enabling_enabled().transition_to(StableMediaExchangeState::Disabled),
        disabling_enabled()
    );
    assert_eq!(
        enabling_enabled().transition_to(StableMediaExchangeState::Enabled),
        enabling_enabled()
    );
}

#[test]
fn cancel_transition() {
    assert_eq!(disabled().cancel_transition(), disabled());
    assert_eq!(enabled().cancel_transition(), enabled());
    assert_eq!(enabling_disabled().cancel_transition(), disabled());
    assert_eq!(enabling_enabled().cancel_transition(), enabled());
    assert_eq!(disabling_disabled().cancel_transition(), disabled());
    assert_eq!(disabling_enabled().cancel_transition(), enabled());
}

#[test]
fn mute_state_round_trip() {
    let unmuted: MuteState = TransitableState::Stable(StableMuteState::Unmuted);
    let muting = unmuted.transition_to(StableMuteState::Muted);
    assert!(!muting.is_stable());
    assert_eq!(muting.cancel_transition(), unmuted);
}
