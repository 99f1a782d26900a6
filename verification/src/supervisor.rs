//! The connection supervisor: the decisions of the task that keeps the
//! network link up.
//!
//! The supervisor is a state machine without a final state. The task that
//! runs it carries out each action, waits for what the action leads to, and
//! hands the event back to [`step`].

use vstd::prelude::*;

verus! {

/// Milliseconds to wait before associating again, after a failed attempt and
/// after a lost link alike.
pub const RETRY_DELAY_MS: u64 = 5000;

/// Where the link stands.
#[derive(Clone, Copy, Debug, PartialEq, Eq)]
pub enum LinkState {
    /// Not associated, and not trying to.
    Disconnected,
    /// An association attempt is under way.
    Associating,
    /// Associated, without an address yet.
    Connected,
    /// Associated and configured with this IPv4 address.
    LinkUp { address: [u8; 4] },
}

/// What the task observed.
#[derive(Clone, Copy, Debug, PartialEq, Eq)]
pub enum LinkEvent {
    /// The task started, or the retry delay has passed. `radio_started` says
    /// whether the radio runs already.
    Ready { radio_started: bool },
    /// The association attempt succeeded.
    Associated,
    /// The association attempt failed.
    AssociationFailed,
    /// Address configuration completed with this IPv4 address.
    AddressConfigured { address: [u8; 4] },
    /// The link was lost.
    LinkLost,
}

/// What the task is to do next.
#[derive(Clone, Copy, Debug, PartialEq, Eq)]
pub enum LinkAction {
    /// Attempt to associate; where `start_radio` is set, first set the
    /// station credentials and start the radio.
    Associate { start_radio: bool },
    /// Wait until the link has an address.
    AwaitAddress,
    /// Wait until the link is lost.
    AwaitLinkLoss,
    /// Wait this many milliseconds, then report [`LinkEvent::Ready`].
    RetryAfter { millis: u64 },
    /// Go on waiting for what the state waits for: the event does not
    /// concern it.
    Stay,
}

/// A step of the supervisor: the state it enters and what to do there.
#[derive(Clone, Copy, Debug, PartialEq, Eq)]
pub struct Transition {
    pub state: LinkState,
    pub action: LinkAction,
}

/// The transitions of the supervisor.
pub open spec fn next_transition(state: LinkState, event: LinkEvent) -> Transition {
    match (state, event) {
        (LinkState::Disconnected, LinkEvent::Ready { radio_started }) => Transition {
            state: LinkState::Associating,
            action: LinkAction::Associate { start_radio: !radio_started },
        },
        (LinkState::Associating, LinkEvent::Associated) => Transition {
            state: LinkState::Connected,
            action: LinkAction::AwaitAddress,
        },
        (LinkState::Associating, LinkEvent::AssociationFailed) => Transition {
            state: LinkState::Disconnected,
            action: LinkAction::RetryAfter { millis: RETRY_DELAY_MS },
        },
        (LinkState::Connected, LinkEvent::AddressConfigured { address }) => Transition {
            state: LinkState::LinkUp { address },
            action: LinkAction::AwaitLinkLoss,
        },
        (LinkState::LinkUp { .. }, LinkEvent::LinkLost) => Transition {
            state: LinkState::Disconnected,
            action: LinkAction::RetryAfter { millis: RETRY_DELAY_MS },
        },
        _ => Transition { state, action: LinkAction::Stay },
    }
}

/// The state in which the supervisor starts.
pub fn initial_state() -> (state: LinkState)
    ensures
        state == LinkState::Disconnected,
{
    LinkState::Disconnected
}

/// Takes an event in a state: the state entered and the action to carry out.
pub fn step(state: LinkState, event: LinkEvent) -> (taken: Transition)
    ensures
        taken == next_transition(state, event),
{
    match state {
        LinkState::Disconnected => match event {
            LinkEvent::Ready { radio_started } => Transition {
                state: LinkState::Associating,
                action: LinkAction::Associate { start_radio: !radio_started },
            },
            _ => Transition { state, action: LinkAction::Stay },
        },
        LinkState::Associating => match event {
            LinkEvent::Associated => Transition {
                state: LinkState::Connected,
                action: LinkAction::AwaitAddress,
            },
            LinkEvent::AssociationFailed => Transition {
                state: LinkState::Disconnected,
                action: LinkAction::RetryAfter { millis: RETRY_DELAY_MS },
            },
            _ => Transition { state, action: LinkAction::Stay },
        },
        LinkState::Connected => match event {
            LinkEvent::AddressConfigured { address } => Transition {
                state: LinkState::LinkUp { address },
                action: LinkAction::AwaitLinkLoss,
            },
            _ => Transition { state, action: LinkAction::Stay },
        },
        LinkState::LinkUp { .. } => match event {
            LinkEvent::LinkLost => Transition {
                state: LinkState::Disconnected,
                action: LinkAction::RetryAfter { millis: RETRY_DELAY_MS },
            },
            _ => Transition { state, action: LinkAction::Stay },
        },
    }
}

/// Whether the link is up with an address, which is what the refresh loop
/// waits for before its first cycle.
pub fn is_link_up(state: LinkState) -> (up: bool)
    ensures
        up == (state is LinkUp),
{
    match state {
        LinkState::LinkUp { .. } => true,
        _ => false,
    }
}

/// The event that a state waits for in order to be left.
pub open spec fn leaving_event(state: LinkState) -> LinkEvent {
    match state {
        LinkState::Disconnected => LinkEvent::Ready { radio_started: false },
        LinkState::Associating => LinkEvent::Associated,
        LinkState::Connected => LinkEvent::AddressConfigured { address: [0u8, 0u8, 0u8, 0u8] },
        LinkState::LinkUp { .. } => LinkEvent::LinkLost,
    }
}

/// No state is final: each state has an event that leads out of it.
pub proof fn lemma_no_final_state(state: LinkState)
    ensures
        next_transition(state, leaving_event(state)).state != state,
        next_transition(state, leaving_event(state)).action != LinkAction::Stay,
{
}

/// Retries come at a fixed interval: every delay that the supervisor asks for
/// is [`RETRY_DELAY_MS`], and it is asked for exactly when an association
/// attempt failed or an addressed link was lost, on the way back to
/// `Disconnected`.
pub proof fn lemma_retry_is_fixed_interval(state: LinkState, event: LinkEvent)
    ensures
        next_transition(state, event).action matches LinkAction::RetryAfter { millis } ==> millis
            == RETRY_DELAY_MS && next_transition(state, event).state == LinkState::Disconnected,
        next_transition(state, event).action is RetryAfter <==> (state == LinkState::Associating
            && event == LinkEvent::AssociationFailed) || (state is LinkUp && event
            == LinkEvent::LinkLost),
{
}

/// The link comes up only by address configuration on an associated link,
/// and with the address that was configured.
pub proof fn lemma_link_up_needs_address(state: LinkState, event: LinkEvent)
    requires
        !(state is LinkUp),
        next_transition(state, event).state is LinkUp,
    ensures
        state == LinkState::Connected,
        event matches LinkEvent::AddressConfigured { address } && next_transition(
            state,
            event,
        ).state == (LinkState::LinkUp { address }),
{
}

/// An event that a state does not wait for changes nothing.
pub proof fn lemma_stay_keeps_state(state: LinkState, event: LinkEvent)
    requires
        next_transition(state, event).action == LinkAction::Stay,
    ensures
        next_transition(state, event).state == state,
{
}

/// Whether `event` is one that carrying out `action` can end in.
pub open spec fn answers(action: LinkAction, event: LinkEvent) -> bool {
    match action {
        LinkAction::Associate { .. } => event == LinkEvent::Associated || event
            == LinkEvent::AssociationFailed,
        LinkAction::AwaitAddress => event is AddressConfigured,
        LinkAction::AwaitLinkLoss => event == LinkEvent::LinkLost,
        LinkAction::RetryAfter { .. } => event is Ready,
        LinkAction::Stay => false,
    }
}

/// The supervisor never stalls: a task that starts with `Ready` in the
/// initial state and always hands back an event that answers the last action
/// is given an action at every step.
///
/// That is, the first step asks for an action, and after any step that asked
/// for one, every answer to it leads to a step that asks for one again.
pub proof fn lemma_supervisor_never_stalls(
    state: LinkState,
    event: LinkEvent,
    answer: LinkEvent,
    radio_started: bool,
)
    requires
        next_transition(state, event).action != LinkAction::Stay,
        answers(next_transition(state, event).action, answer),
    ensures
        next_transition(LinkState::Disconnected, LinkEvent::Ready { radio_started }).action
            != LinkAction::Stay,
        next_transition(next_transition(state, event).state, answer).action != LinkAction::Stay,
{
}

} // verus!
