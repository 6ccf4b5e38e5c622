use vstd::prelude::*;

use crate::common::lexer::same_text;
use crate::common::request::Message;

verus! {

/// What to do with a press on an inline button.
#[derive(Debug, Clone, Copy, PartialEq, Eq, Structural)]
pub enum CallbackAction {
    /// Not a press this processor handles.
    Next,
    /// A keyboard this bot does not offer: stop silently.
    Stop,
    /// The "Roll" button: answer the replied-to command again.
    Roll,
}

/// What a press on the keyboard of `m` asks for: nothing without a replied-to message
/// or a keyboard; a new answer for the "Roll" button in the first place; else stop.
pub open spec fn callback_action_of(m: Message) -> CallbackAction {
    match m {
        Message::Common { .. } => CallbackAction::Next,
        Message::Replied { reply_markup, .. } => match reply_markup {
            None => CallbackAction::Next,
            Some(k) => if k.inline_keyboard@.len() > 0 && k.inline_keyboard@[0]@.len() > 0
                && k.inline_keyboard@[0]@[0].text@ == "Roll"@ {
                CallbackAction::Roll
            } else {
                CallbackAction::Stop
            },
        },
    }
}

/// Decides what a press on an inline button of `message` asks for.
pub fn callback_action(message: &Message) -> (r: CallbackAction)
    ensures
        r == callback_action_of(*message),
{
    if message.reply().is_none() {
        return CallbackAction::Next;
    }
    match message.reply_markup() {
        None => CallbackAction::Next,
        Some(markup) => {
            if markup.inline_keyboard.len() > 0 && markup.inline_keyboard[0].len() > 0
                && same_text(markup.inline_keyboard[0][0].text.as_str(), "Roll") {
                CallbackAction::Roll
            } else {
                CallbackAction::Stop
            }
        },
    }
}

} // verus!
