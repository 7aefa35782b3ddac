//! The relay toggle: whether local input is captured and forwarded.
use crate::normalize::{normalize, normalized, RawEvent};
use crate::protocol::InputEventType;
use vstd::prelude::*;

verus! {

/// Whether input is relayed, and whether local delivery is suppressed.
/// Suppression never outlives the relay.
#[derive(Debug, Clone, Copy, PartialEq, Eq, Structural)]
pub struct RelayState {
    pub relay_enabled: bool,
    pub suppress_local_input: bool,
}

impl RelayState {
    /// Suppression implies relay.
    pub open spec fn wf(self) -> bool {
        self.suppress_local_input ==> self.relay_enabled
    }

    pub open spec fn disabled() -> RelayState {
        RelayState { relay_enabled: false, suppress_local_input: false }
    }

    pub open spec fn enabled() -> RelayState {
        RelayState { relay_enabled: true, suppress_local_input: true }
    }
}

impl Default for RelayState {
    fn default() -> (r: RelayState)
        ensures
            r == RelayState::disabled(),
    {
        RelayState { relay_enabled: false, suppress_local_input: false }
    }
}

/// What the capture loop does with one event.
#[derive(Debug, Clone, Copy, PartialEq, Eq, Structural)]
pub enum RelayAction {
    /// Send this event to the remote side.
    Forward(InputEventType),
    /// The toggle key asks to enable the relay: grab the devices, then report
    /// the outcome with [`RelayController::grab_finished`].
    GrabDevices,
    /// The relay was just disabled: release every grabbed device.
    ReleaseDevices,
    /// Nothing to do.
    Ignore,
}

/// The relay state machine, driven by the events of the capture loop.
///
/// Every event goes through [`RelayController::on_event`]; its contract
/// states that events of the toggle key are never forwarded, and that any
/// other event is forwarded exactly when the relay is enabled.
pub struct RelayController {
    toggle_key: u32,
    state: RelayState,
}

impl RelayController {
    #[verifier::type_invariant]
    spec fn inv(self) -> bool {
        self.state.wf()
    }

    pub closed spec fn spec_toggle_key(self) -> u32 {
        self.toggle_key
    }

    pub closed spec fn spec_state(self) -> RelayState {
        self.state
    }

    /// Whether `e` is an event of the toggle key, pressed or released.
    pub open spec fn is_toggle(self, e: RawEvent) -> bool {
        e matches RawEvent::Key { key, .. } && key == self.spec_toggle_key()
    }

    /// Whether `e` is a press of the toggle key.
    pub open spec fn is_toggle_press(self, e: RawEvent) -> bool {
        e matches RawEvent::Key { key, pressed } && key == self.spec_toggle_key() && pressed
    }

    /// The action for a non-toggle event: forwarded exactly when the relay is
    /// enabled and the event normalises to something.
    pub open spec fn relayed(state: RelayState, e: RawEvent) -> RelayAction {
        if state.relay_enabled && normalized(e) is Some {
            RelayAction::Forward(normalized(e)->0)
        } else {
            RelayAction::Ignore
        }
    }

    /// A controller with the relay disabled.
    pub fn new(toggle_key: u32) -> (r: RelayController)
        ensures
            r.spec_toggle_key() == toggle_key,
            r.spec_state() == RelayState::disabled(),
    {
        RelayController { toggle_key, state: RelayState { relay_enabled: false, suppress_local_input: false } }
    }

    pub fn toggle_key(&self) -> (r: u32)
        ensures
            r == self.spec_toggle_key(),
    {
        self.toggle_key
    }

    /// The current relay state.
    pub fn state(&self) -> (r: RelayState)
        ensures
            r == self.spec_state(),
            r.wf(),
    {
        proof {
            use_type_invariant(self);
        }
        self.state
    }

    /// Handles one event of the capture loop. A press of the toggle key
    /// disables an enabled relay (release the devices) or asks to enable a
    /// disabled one (grab the devices first). Events of the toggle key are
    /// never forwarded. Any other event is forwarded, normalised, exactly when
    /// the relay is enabled at its arrival.
    pub fn on_event(&mut self, e: &RawEvent) -> (r: RelayAction)
        ensures
            final(self).spec_toggle_key() == old(self).spec_toggle_key(),
            old(self).is_toggle(*e) ==> !(r is Forward),
            old(self).is_toggle_press(*e) && old(self).spec_state().relay_enabled ==> r
                == RelayAction::ReleaseDevices && final(self).spec_state() == RelayState::disabled(),
            old(self).is_toggle_press(*e) && !old(self).spec_state().relay_enabled ==> r
                == RelayAction::GrabDevices && final(self).spec_state() == old(self).spec_state(),
            old(self).is_toggle(*e) && !old(self).is_toggle_press(*e) ==> r == RelayAction::Ignore
                && final(self).spec_state() == old(self).spec_state(),
            !old(self).is_toggle(*e) ==> r == RelayController::relayed(old(self).spec_state(), *e)
                && final(self).spec_state() == old(self).spec_state(),
    {
        if let RawEvent::Key { key, pressed } = *e {
            if key == self.toggle_key {
                if !pressed {
                    return RelayAction::Ignore;
                }
                if self.state.relay_enabled {
                    self.state = RelayState { relay_enabled: false, suppress_local_input: false };
                    return RelayAction::ReleaseDevices;
                }
                return RelayAction::GrabDevices;
            }
        }
        if self.state.relay_enabled {
            match normalize(e) {
                Some(t) => RelayAction::Forward(t),
                None => RelayAction::Ignore,
            }
        } else {
            RelayAction::Ignore
        }
    }

    /// Completes an enabling toggle: the relay is enabled, with local input
    /// suppressed, only when the devices were grabbed; otherwise it stays as
    /// it was.
    pub fn grab_finished(&mut self, grabbed: bool)
        ensures
            final(self).spec_toggle_key() == old(self).spec_toggle_key(),
            grabbed ==> final(self).spec_state() == RelayState::enabled(),
            !grabbed ==> final(self).spec_state() == old(self).spec_state(),
    {
        if grabbed {
            self.state = RelayState { relay_enabled: true, suppress_local_input: true };
        }
    }

    /// Turns the relay off for shutdown. Returns whether it was enabled, that
    /// is whether grabbed devices must now be released.
    pub fn shutdown(&mut self) -> (r: bool)
        ensures
            r == old(self).spec_state().relay_enabled,
            final(self).spec_toggle_key() == old(self).spec_toggle_key(),
            final(self).spec_state() == RelayState::disabled(),
    {
        let was_enabled = self.state.relay_enabled;
        self.state = RelayState { relay_enabled: false, suppress_local_input: false };
        was_enabled
    }
}

/// Forwarding follows the relay state: a non-toggle event is forwarded
/// exactly when the relay is enabled and the event normalises to something,
/// so with the relay disabled nothing is forwarded.
pub proof fn lemma_forwarding_follows_relay(state: RelayState, e: RawEvent)
    ensures
        (RelayController::relayed(state, e) is Forward) <==> (state.relay_enabled && normalized(
            e,
        ) is Some),
        !state.relay_enabled ==> RelayController::relayed(state, e) == RelayAction::Ignore,
{
}

} // verus!
