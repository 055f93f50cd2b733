//! The decisions of the gateway event handler.

use vstd::prelude::*;

verus! {

/// The custom id of the test button.
pub const TEST_BUTTON_ID: &'static str = "test";

/// The answer to a press of the test button.
pub const TEST_REPLY: &'static str = "test";

/// The kinds of gateway events that the handler tells apart.
#[derive(Debug, Clone, Copy, PartialEq, Eq, Structural)]
pub enum EventKind {
    /// A user interacted with a command or a component.
    InteractionCreate,
    /// The cache is filled after connecting.
    CacheReady,
    /// Any other event.
    Other,
}

/// What the handler does for an event.
#[derive(Debug, Clone, Copy, PartialEq, Eq, Structural)]
pub enum EventAction {
    /// Handle the interaction.
    HandleInteraction,
    /// Start the periodic posting.
    SpawnTasks,
    /// Nothing.
    Ignore,
}

/// The interactions that the bot answers.
#[derive(Debug, Clone, Copy, PartialEq, Eq, Structural)]
pub enum Interaction {
    /// A press of the button with the custom id `test`.
    Test,
    /// Anything else.
    Unknown,
}

/// The action for each kind of event.
pub open spec fn event_action_of(kind: EventKind) -> EventAction {
    match kind {
        EventKind::InteractionCreate => EventAction::HandleInteraction,
        EventKind::CacheReady => EventAction::SpawnTasks,
        EventKind::Other => EventAction::Ignore,
    }
}

/// What the handler does for an event of `kind`.
pub fn handle_event(kind: EventKind) -> (r: EventAction)
    ensures
        r == event_action_of(kind),
{
    match kind {
        EventKind::InteractionCreate => EventAction::HandleInteraction,
        EventKind::CacheReady => EventAction::SpawnTasks,
        EventKind::Other => EventAction::Ignore,
    }
}

/// Classifies an interaction: a message component whose custom id is `test`
/// is the test button; everything else is unknown.
pub fn classify_interaction(is_message_component: bool, custom_id: &str) -> (r: Interaction)
    ensures
        r == (if is_message_component && custom_id@ == TEST_BUTTON_ID@ {
            Interaction::Test
        } else {
            Interaction::Unknown
        }),
{
    if is_message_component && custom_id.to_owned() == TEST_BUTTON_ID.to_owned() {
        Interaction::Test
    } else {
        Interaction::Unknown
    }
}

/// The message that answers an interaction, if any.
pub fn interaction_reply(interaction: Interaction) -> (r: Option<String>)
    ensures
        interaction == Interaction::Test ==> (r matches Some(m) && m@ == TEST_REPLY@),
        interaction == Interaction::Unknown ==> r is None,
{
    match interaction {
        Interaction::Test => Some(TEST_REPLY.to_owned()),
        Interaction::Unknown => None,
    }
}

} // verus!
