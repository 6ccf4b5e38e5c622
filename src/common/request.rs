use vstd::prelude::*;

verus! {

#[derive(Clone, Debug, PartialEq)]
pub struct User {
    pub id: i64,
    pub is_bot: bool,
    pub first_name: Option<String>,
    pub last_name: Option<String>,
    pub username: Option<String>,
}

#[derive(Clone, Debug, PartialEq)]
pub struct Chat {
    pub id: i64,
    pub title: Option<String>,
    pub first_name: Option<String>,
    pub last_name: Option<String>,
    pub username: Option<String>,
}

/// A file attached to a message.
#[derive(Clone, Debug, PartialEq)]
pub struct Content {
    pub file_id: String,
    pub file_unique_id: String,
}

#[derive(Clone, Debug, PartialEq)]
pub struct MessageBase {
    pub message_id: i64,
    pub from: User,
    pub chat: Chat,
    pub forward_from: Option<User>,
    pub forward_from_chat: Option<Chat>,
}

/// What a message carries besides its base.
#[derive(Clone, Debug, PartialEq)]
pub enum MessageExt {
    Photo { photo: Vec<Content>, caption: Option<String> },
    Text { text: String },
    Video { video: Content, caption: Option<String> },
    Voice { voice: Content, caption: Option<String> },
    VideoNote { video_note: Content },
    Sticker { sticker: Content },
    Animation { animation: Content, caption: Option<String> },
    Document { document: Content, caption: Option<String> },
    Audio { audio: Content, caption: Option<String> },
}

pub open spec fn optional_text(t: Option<String>) -> Option<Seq<char>> {
    match t {
        Some(s) => Some(s@),
        None => None,
    }
}

fn optional_str(t: &Option<String>) -> (r: Option<&str>)
    ensures
        match r {
            Some(s) => optional_text(*t) == Some(s@),
            None => t is None,
        },
{
    match t {
        Some(s) => Some(s.as_str()),
        None => None,
    }
}

impl MessageExt {
    /// The text of the message, or the caption of its media.
    pub open spec fn spec_raw_text(&self) -> Option<Seq<char>> {
        match self {
            MessageExt::Photo { caption, .. } => optional_text(*caption),
            MessageExt::Video { caption, .. } => optional_text(*caption),
            MessageExt::Voice { caption, .. } => optional_text(*caption),
            MessageExt::Animation { caption, .. } => optional_text(*caption),
            MessageExt::Audio { caption, .. } => optional_text(*caption),
            MessageExt::Document { caption, .. } => optional_text(*caption),
            MessageExt::Text { text } => Some(text@),
            MessageExt::VideoNote { .. } => None,
            MessageExt::Sticker { .. } => None,
        }
    }

    /// The text of the message, or the caption of its media; none for video notes
    /// and stickers.
    pub fn raw_text(&self) -> (r: Option<&str>)
        ensures
            match r {
                Some(s) => self.spec_raw_text() == Some(s@),
                None => self.spec_raw_text() is None,
            },
    {
        match self {
            MessageExt::Photo { caption, .. } => optional_str(caption),
            MessageExt::Video { caption, .. } => optional_str(caption),
            MessageExt::Voice { caption, .. } => optional_str(caption),
            MessageExt::Animation { caption, .. } => optional_str(caption),
            MessageExt::Audio { caption, .. } => optional_str(caption),
            MessageExt::Document { caption, .. } => optional_str(caption),
            MessageExt::Text { text } => Some(text.as_str()),
            MessageExt::VideoNote { .. } => None,
            MessageExt::Sticker { .. } => None,
        }
    }
}

#[derive(Clone, Debug, PartialEq)]
pub struct MessageBody {
    pub base: MessageBase,
    pub ext: MessageExt,
}

#[derive(Clone, Debug, PartialEq)]
pub struct ReplyMarkupButton {
    pub text: String,
    pub callback_data: String,
}

#[derive(Clone, Debug, PartialEq)]
pub struct ReplyMarkup {
    pub inline_keyboard: Vec<Vec<ReplyMarkupButton>>,
}

/// A message, with the message it replies to where there is one.
#[derive(Clone, Debug, PartialEq)]
pub enum Message {
    Replied { direct: MessageBody, reply: Box<MessageBody>, reply_markup: Option<ReplyMarkup> },
    Common { direct: MessageBody, reply_markup: Option<ReplyMarkup> },
}

impl Message {
    pub open spec fn spec_direct(&self) -> MessageBody {
        match self {
            Message::Replied { direct, .. } => *direct,
            Message::Common { direct, .. } => *direct,
        }
    }

    pub open spec fn spec_reply_markup(&self) -> Option<ReplyMarkup> {
        match self {
            Message::Replied { reply_markup, .. } => *reply_markup,
            Message::Common { reply_markup, .. } => *reply_markup,
        }
    }

    /// The message itself.
    pub fn direct(&self) -> (r: &MessageBody)
        ensures
            *r == self.spec_direct(),
    {
        match self {
            Message::Replied { direct, .. } => direct,
            Message::Common { direct, .. } => direct,
        }
    }

    /// The message it replies to, if it replies to one.
    pub fn reply(&self) -> (r: Option<&MessageBody>)
        ensures
            match self {
                Message::Replied { reply, .. } => r == Some(&**reply),
                Message::Common { .. } => r is None,
            },
    {
        match self {
            Message::Replied { reply, .. } => Some(&**reply),
            Message::Common { .. } => None,
        }
    }

    /// The inline keyboard attached to the message.
    pub fn reply_markup(&self) -> (r: &Option<ReplyMarkup>)
        ensures
            *r == self.spec_reply_markup(),
    {
        match self {
            Message::Replied { reply_markup, .. } => reply_markup,
            Message::Common { reply_markup, .. } => reply_markup,
        }
    }
}

/// A press on an inline button of a message the bot sent.
#[derive(Clone, Debug, PartialEq)]
pub struct CallbackQuery {
    pub id: String,
    pub from: User,
    pub message: Message,
}

/// One update the chat service sends.
#[derive(Clone, Debug, PartialEq)]
pub enum RequestPayload {
    Edited { update_id: u32, edited_message: Message },
    Origin { update_id: u32, message: Message },
    Callback { update_id: u32, callback_query: CallbackQuery },
}

impl RequestPayload {
    pub open spec fn spec_any_message(&self) -> Message {
        match self {
            RequestPayload::Edited { edited_message, .. } => *edited_message,
            RequestPayload::Origin { message, .. } => *message,
            RequestPayload::Callback { callback_query, .. } => callback_query.message,
        }
    }

    /// The message the update is about: the edited one, the new one, or the one
    /// whose button was pressed.
    pub fn any_message(&self) -> (r: &Message)
        ensures
            *r == self.spec_any_message(),
    {
        match self {
            RequestPayload::Edited { edited_message, .. } => edited_message,
            RequestPayload::Origin { message, .. } => message,
            RequestPayload::Callback { callback_query, .. } => &callback_query.message,
        }
    }
}


/// What a message stores as an answer: its value (the text, or the file id of its
/// media), the unique id of its file, and its caption.
pub open spec fn content_of(ext: MessageExt) -> (Seq<char>, Option<Seq<char>>, Option<Seq<char>>) {
    match ext {
        MessageExt::Text { text } => (text@, None, None),
        MessageExt::Photo { photo, caption } => if photo@.len() > 0 {
            (photo@.last().file_id@, Some(photo@.last().file_unique_id@), optional_text(caption))
        } else {
            (seq![], None, optional_text(caption))
        },
        MessageExt::Video { video, caption } => (video.file_id@, Some(video.file_unique_id@), optional_text(caption)),
        MessageExt::Voice { voice, caption } => (voice.file_id@, Some(voice.file_unique_id@), optional_text(caption)),
        MessageExt::VideoNote { video_note } => (video_note.file_id@, Some(video_note.file_unique_id@), None),
        MessageExt::Sticker { sticker } => (sticker.file_id@, Some(sticker.file_unique_id@), None),
        MessageExt::Animation { animation, caption } => (
            animation.file_id@,
            Some(animation.file_unique_id@),
            optional_text(caption),
        ),
        MessageExt::Document { document, caption } => (
            document.file_id@,
            Some(document.file_unique_id@),
            optional_text(caption),
        ),
        MessageExt::Audio { audio, caption } => (audio.file_id@, Some(audio.file_unique_id@), optional_text(caption)),
    }
}

pub open spec fn content_view(c: (String, Option<String>, Option<String>)) -> (Seq<char>, Option<Seq<char>>, Option<Seq<char>>) {
    (c.0@, optional_text(c.1), optional_text(c.2))
}

fn copied(t: &String) -> (r: String)
    ensures
        r@ == t@,
{
    t.as_str().to_string()
}

fn copied_option(t: &Option<String>) -> (r: Option<String>)
    ensures
        optional_text(r) == optional_text(*t),
{
    match t {
        Some(s) => Some(copied(s)),
        None => None,
    }
}

fn file_content(file: &Content, caption: Option<String>) -> (r: (String, Option<String>, Option<String>))
    ensures
        content_view(r) == (file.file_id@, Some(file.file_unique_id@), optional_text(caption)),
{
    (copied(&file.file_id), Some(copied(&file.file_unique_id)), caption)
}

impl MessageExt {
    /// What the message stores as an answer: value, unique file id and caption; for
    /// a photo, its last (largest) size.
    pub fn content(&self) -> (r: (String, Option<String>, Option<String>))
        ensures
            content_view(r) == content_of(*self),
    {
        match self {
            MessageExt::Text { text } => (copied(text), None, None),
            MessageExt::Photo { photo, caption } => if photo.len() > 0 {
                file_content(&photo[photo.len() - 1], copied_option(caption))
            } else {
                (String::new(), None, copied_option(caption))
            },
            MessageExt::Video { video, caption } => file_content(video, copied_option(caption)),
            MessageExt::Voice { voice, caption } => file_content(voice, copied_option(caption)),
            MessageExt::VideoNote { video_note } => file_content(video_note, None),
            MessageExt::Sticker { sticker } => file_content(sticker, None),
            MessageExt::Animation { animation, caption } => file_content(animation, copied_option(caption)),
            MessageExt::Document { document, caption } => file_content(document, copied_option(caption)),
            MessageExt::Audio { audio, caption } => file_content(audio, copied_option(caption)),
        }
    }
}

} // verus!
