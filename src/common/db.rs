use vstd::prelude::*;

use crate::common::request::MessageExt;

verus! {

/// The key of a member's membership in a chat.
#[derive(Clone, Copy, Debug, PartialEq, Eq, Structural)]
pub struct ChatToMemberId(i32);

/// The key of a stored member.
#[derive(Clone, Copy, Debug, PartialEq, Eq, Structural)]
pub struct MemberId(i32);

/// The key of a stored answer.
#[derive(Clone, Copy, Debug, PartialEq, Eq, Structural)]
pub struct AnswerEntityId(i32);

/// The key of a stored chat.
#[derive(Clone, Copy, Debug, PartialEq, Eq, Structural)]
pub struct ChatId(i32);

impl ChatId {
    pub closed spec fn key(self) -> i32 {
        self.0
    }

    pub fn new(v: i32) -> (r: ChatId)
        ensures
            r.key() == v,
    {
        ChatId(v)
    }

    /// The number this key stands for.
    pub fn value(&self) -> (r: i32)
        ensures
            r == self.key(),
    {
        self.0
    }
}

impl AnswerEntityId {
    pub closed spec fn key(self) -> i32 {
        self.0
    }

    pub fn new(v: i32) -> (r: AnswerEntityId)
        ensures
            r.key() == v,
    {
        AnswerEntityId(v)
    }

    /// The number this key stands for.
    pub fn value(&self) -> (r: i32)
        ensures
            r == self.key(),
    {
        self.0
    }
}

impl ChatToMemberId {
    pub closed spec fn key(self) -> i32 {
        self.0
    }

    pub fn new(v: i32) -> (r: ChatToMemberId)
        ensures
            r.key() == v,
    {
        ChatToMemberId(v)
    }

    /// The number this key stands for.
    pub fn value(&self) -> (r: i32)
        ensures
            r == self.key(),
    {
        self.0
    }
}

impl MemberId {
    pub closed spec fn key(self) -> i32 {
        self.0
    }

    pub fn new(v: i32) -> (r: MemberId)
        ensures
            r.key() == v,
    {
        MemberId(v)
    }

    /// The number this key stands for.
    pub fn value(&self) -> (r: i32)
        ensures
            r == self.key(),
    {
        self.0
    }
}

/// A stored chat member.
#[derive(Clone, Debug, PartialEq)]
pub struct Member {
    pub id: MemberId,
    pub member_id: i64,
    pub is_bot: bool,
    pub username: String,
    pub first_name: String,
    pub last_name: String,
}

/// A stored chat.
#[derive(Clone, Debug, PartialEq)]
pub struct Chat {
    pub id: ChatId,
    pub chat_id: i64,
    pub name: String,
}

/// The kind of content a stored answer holds.
#[derive(Clone, Copy, Debug, PartialEq, Eq, Structural)]
pub enum EntityContentType {
    Text,
    Voice,
    Picture,
    Animation,
    Video,
    VideoNote,
    Sticker,
    Audio,
    Document,
}

/// When a stored answer fires: on a whole message, or on a part of one.
#[derive(Clone, Copy, Debug, PartialEq, Eq, Structural)]
pub enum EntityReactionType {
    Trigger,
    Substring,
}

/// An answer stored for a chat under a key.
#[derive(Clone, Debug, PartialEq)]
pub struct AnswerEntity {
    pub id: AnswerEntityId,
    pub chat_id: ChatId,
    pub content_type: EntityContentType,
    pub reaction_type: EntityReactionType,
    pub key: String,
    pub value: String,
    pub description: Option<String>,
    pub file_unique_id: Option<String>,
}


/// The kind of content a message carries.
pub open spec fn content_type_of(ext: MessageExt) -> EntityContentType {
    match ext {
        MessageExt::Text { .. } => EntityContentType::Text,
        MessageExt::Photo { .. } => EntityContentType::Picture,
        MessageExt::Video { .. } => EntityContentType::Video,
        MessageExt::Voice { .. } => EntityContentType::Voice,
        MessageExt::VideoNote { .. } => EntityContentType::VideoNote,
        MessageExt::Sticker { .. } => EntityContentType::Sticker,
        MessageExt::Animation { .. } => EntityContentType::Animation,
        MessageExt::Document { .. } => EntityContentType::Document,
        MessageExt::Audio { .. } => EntityContentType::Audio,
    }
}

impl EntityContentType {
    /// The kind of content a message carries.
    pub fn from_message_ext(ext: &MessageExt) -> (r: EntityContentType)
        ensures
            r == content_type_of(*ext),
    {
        match ext {
            MessageExt::Text { .. } => EntityContentType::Text,
            MessageExt::Photo { .. } => EntityContentType::Picture,
            MessageExt::Video { .. } => EntityContentType::Video,
            MessageExt::Voice { .. } => EntityContentType::Voice,
            MessageExt::VideoNote { .. } => EntityContentType::VideoNote,
            MessageExt::Sticker { .. } => EntityContentType::Sticker,
            MessageExt::Animation { .. } => EntityContentType::Animation,
            MessageExt::Document { .. } => EntityContentType::Document,
            MessageExt::Audio { .. } => EntityContentType::Audio,
        }
    }
}

} // verus!
