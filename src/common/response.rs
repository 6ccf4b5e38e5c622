use vstd::prelude::*;

verus! {

#[derive(Clone, Debug, PartialEq)]
pub struct LinkPreviewOption {
    pub is_disabled: bool,
}

#[derive(Clone, Debug, PartialEq)]
pub struct ReplyMarkupButtonResponse {
    pub text: String,
    pub callback_data: String,
}

#[derive(Clone, Debug, PartialEq)]
pub struct ReplyMarkupResponse {
    pub inline_keyboard: Vec<Vec<ReplyMarkupButtonResponse>>,
}

/// What every response carries: the chat, the message it answers, its keyboard.
#[derive(Clone, Debug, PartialEq)]
pub struct BaseBody {
    pub chat_id: i64,
    pub reply_to_message_id: Option<i64>,
    pub reply_markup: Option<ReplyMarkupResponse>,
}

/// A message the bot sends.
#[derive(Clone, Debug, PartialEq)]
pub enum ResponseMessage {
    Text { base_body: BaseBody, text: String, link_preview_options: LinkPreviewOption },
    Photo { base_body: BaseBody, photo: String, caption: Option<String> },
    Video { base_body: BaseBody, video: String, caption: Option<String> },
    Voice { base_body: BaseBody, voice: String, caption: Option<String> },
    Audio { base_body: BaseBody, audio: String, caption: Option<String> },
    Document { base_body: BaseBody, document: String, caption: Option<String> },
    Animation { base_body: BaseBody, animation: String, caption: Option<String> },
    VideoNote { base_body: BaseBody, video_note: String },
    Sticker { base_body: BaseBody, sticker: String },
}

/// A keyboard of one button, "Roll", that asks the bot to answer the same call again.
pub open spec fn is_roll_markup(m: Option<ReplyMarkupResponse>) -> bool {
    m matches Some(k) && k.inline_keyboard@.len() == 1 && k.inline_keyboard@[0]@.len() == 1
        && k.inline_keyboard@[0]@[0].text@ == "Roll"@ && k.inline_keyboard@[0]@[0].callback_data@ == ""@
}

/// The keyboard with the single "Roll" button.
pub fn roll_reply_markup() -> (r: Option<ReplyMarkupResponse>)
    ensures
        is_roll_markup(r),
{
    let button = ReplyMarkupButtonResponse { text: "Roll".to_string(), callback_data: "".to_string() };
    let row = vec![button];
    let r = Some(ReplyMarkupResponse { inline_keyboard: vec![row] });
    r
}

/// A plain text response to message `reply_to_message_id` of chat `chat_id`, with
/// link previews left on.
pub open spec fn is_text_response(r: ResponseMessage, value: Seq<char>, chat_id: i64, reply_to_message_id: i64) -> bool {
    r matches ResponseMessage::Text { base_body, text, link_preview_options } && text@ == value
        && base_body.chat_id == chat_id && base_body.reply_to_message_id == Some(reply_to_message_id)
        && !link_preview_options.is_disabled
}

/// A text response without a keyboard.
pub fn text_message(value: String, chat_id: i64, reply_to_message_id: i64) -> (r: ResponseMessage)
    ensures
        is_text_response(r, value@, chat_id, reply_to_message_id),
        r->Text_base_body.reply_markup is None,
{
    ResponseMessage::Text {
        base_body: BaseBody { chat_id, reply_to_message_id: Some(reply_to_message_id), reply_markup: None },
        text: value,
        link_preview_options: LinkPreviewOption { is_disabled: false },
    }
}

/// A text response with the "Roll" keyboard.
pub fn text_message_with_roll(value: String, chat_id: i64, reply_to_message_id: i64) -> (r: ResponseMessage)
    ensures
        is_text_response(r, value@, chat_id, reply_to_message_id),
        is_roll_markup(r->Text_base_body.reply_markup),
{
    ResponseMessage::Text {
        base_body: BaseBody {
            chat_id,
            reply_to_message_id: Some(reply_to_message_id),
            reply_markup: roll_reply_markup(),
        },
        text: value,
        link_preview_options: LinkPreviewOption { is_disabled: false },
    }
}

} // verus!
