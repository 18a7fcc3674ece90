//! The text of a message that goes out to a chat bridge.

use crate::text::{replace, replace_all};
use vstd::prelude::*;

verus! {

/// The placeholder for the player's name.
pub const PLACEHOLDER_PLAYER: &'static str = "{PLAYER}";

/// The placeholder for the chat message.
pub const PLACEHOLDER_MESSAGE: &'static str = "{MESSAGE}";

/// What happened to a player.
#[derive(Clone, Copy, Debug, PartialEq, Eq, Structural)]
pub enum WebhookEvent {
    Chat,
    Join,
    Leave,
}

/// The optional message as an optional character sequence.
pub open spec fn message_view(message: Option<&str>) -> Option<Seq<char>> {
    match message {
        Some(m) => Some(m@),
        None => None,
    }
}

/// `template` with the player's name in place of its placeholder and then,
/// where there is a message, the message in place of its placeholder.
pub open spec fn formatted(template: Seq<char>, player: Seq<char>, message: Option<Seq<char>>) -> Seq<
    char,
> {
    let named = replace_all(template, PLACEHOLDER_PLAYER@, player);
    match message {
        Some(m) => replace_all(named, PLACEHOLDER_MESSAGE@, m),
        None => named,
    }
}

/// Fills a message template in.
pub fn format_message(template: &str, player: &str, message: Option<&str>) -> (r: String)
    ensures
        r@ == formatted(template@, player@, message_view(message)),
{
    let named = replace(template, PLACEHOLDER_PLAYER, player);
    match message {
        Some(m) => replace(named.as_str(), PLACEHOLDER_MESSAGE, m),
        None => named,
    }
}

} // verus!
