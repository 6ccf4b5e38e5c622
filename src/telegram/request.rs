use vstd::prelude::*;

use crate::common::request::optional_text;

verus! {

#[derive(Clone, Debug, PartialEq)]
pub struct User {
    pub id: u32,
    pub is_bot: bool,
    pub first_name: Option<String>,
    pub last_name: Option<String>,
    pub username: Option<String>,
}

#[derive(Clone, Debug, PartialEq)]
pub struct Chat {
    pub id: u32,
    pub title: Option<String>,
    pub first_name: Option<String>,
    pub last_name: Option<String>,
    pub username: Option<String>,
}

#[derive(Clone, Debug, PartialEq)]
pub struct Content {
    pub file_id: String,
    pub file_unique_id: String,
}

#[derive(Clone, Debug, PartialEq)]
pub struct MessageBase {
    pub message_id: u32,
    pub from: User,
    pub chat: Chat,
    pub forward_from: Option<User>,
    pub forward_from_chat: Option<Chat>,
}

#[derive(Clone, Debug, PartialEq)]
pub enum MessageExt {
    Photo { photo: Vec<Content>, caption: Option<String> },
    Text { text: String },
    Video { video: Content, caption: Option<String> },
    Voice { voice: Content, caption: Option<String> },
    VideoNote { video_note: Content },
    Sticker { sticker: Content },
    Animation { animation: Content, caption: Option<String> },
}

fn optional_str(t: &Option<String>) -> (r: Option<&str>)
    ensures
        match r {
            Some(s) => optional_text(*t) == Some(s@),
            None => t is None,
        },
{
    match t {
        Some(s) => Some(s.as_str()),
        None => None,
    }
}

impl MessageExt {
    pub open spec fn spec_raw_text(&self) -> Option<Seq<char>> {
        match self {
            MessageExt::Photo { caption, .. } => optional_text(*caption),
            MessageExt::Video { caption, .. } => optional_text(*caption),
            MessageExt::Voice { caption, .. } => optional_text(*caption),
            MessageExt::Animation { caption, .. } => optional_text(*caption),
            MessageExt::Text { text } => Some(text@),
            MessageExt::VideoNote { .. } => None,
            MessageExt::Sticker { .. } => None,
        }
    }

    /// The text of the message, or the caption of its media; none for video notes
    /// and stickers.
    pub fn raw_text(&self) -> (r: Option<&str>)
        ensures
            match r {
                Some(s) => self.spec_raw_text() == Some(s@),
                None => self.spec_raw_text() is None,
            },
    {
        match self {
            MessageExt::Photo { caption, .. } => optional_str(caption),
            MessageExt::Video { caption, .. } => optional_str(caption),
            MessageExt::Voice { caption, .. } => optional_str(caption),
            MessageExt::Animation { caption, .. } => optional_str(caption),
            MessageExt::Text { text } => Some(text.as_str()),
            MessageExt::VideoNote { .. } => None,
            MessageExt::Sticker { .. } => None,
        }
    }
}

#[derive(Clone, Debug, PartialEq)]
pub struct MessageBody {
    pub base: MessageBase,
    pub ext: MessageExt,
}

#[derive(Clone, Debug, PartialEq)]
pub enum Message {
    Common { direct: MessageBody },
    Replied { direct: MessageBody, reply: MessageBody },
}

impl Message {
    pub open spec fn spec_direct(&self) -> MessageBody {
        match self {
            Message::Common { direct } => *direct,
            Message::Replied { direct, .. } => *direct,
        }
    }

    /// The message itself, without the one it replies to.
    pub fn direct(&self) -> (r: &MessageBody)
        ensures
            *r == self.spec_direct(),
    {
        match self {
            Message::Common { direct } => direct,
            Message::Replied { direct, .. } => direct,
        }
    }
}

#[derive(Clone, Debug, PartialEq)]
pub enum WebhookRequest {
    Edited { update_id: u32, edited_message: Message },
    Origin { update_id: u32, message: Message },
}

impl WebhookRequest {
    pub open spec fn spec_any_message(&self) -> Message {
        match self {
            WebhookRequest::Edited { edited_message, .. } => *edited_message,
            WebhookRequest::Origin { message, .. } => *message,
        }
    }

    /// The message the update is about.
    pub fn any_message(&self) -> (r: &Message)
        ensures
            *r == self.spec_any_message(),
    {
        match self {
            WebhookRequest::Edited { edited_message, .. } => edited_message,
            WebhookRequest::Origin { message, .. } => message,
        }
    }
}

} // verus!
