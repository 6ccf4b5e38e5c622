use bread_bot::common::db::{ChatId, Member, MemberId};
use bread_bot::common::request::{
    CallbackQuery, Chat, Message, MessageBase, MessageBody, MessageExt, RequestPayload, User,
};
use bread_bot::common::response::{roll_reply_markup, text_message, text_message_with_roll, ResponseMessage};
use bread_bot::common::user_service::{chat_title, integer_text, pretty_username};
use bread_bot::telegram::handler::tokens_from_request;
use bread_bot::telegram::request as tg;
use bread_bot::telegram::user_service::{chat_title as tg_chat_title, username};

fn member(first: &str, last: &str, user: &str, id: i64) -> Member {
    Member {
        id: MemberId::new(1),
        member_id: id,
        is_bot: false,
        username: user.to_string(),
        first_name: first.to_string(),
        last_name: last.to_string(),
    }
}

#[test]
fn member_names() {
    assert_eq!(pretty_username(&member("FirstName", "LastName", "UserName", 5)), "FirstName LastName");
    assert_eq!(pretty_username(&member("", "LastName", "UserName", 5)), " LastName");
    assert_eq!(pretty_username(&member("", "", "UserName", 5)), "UserName");
    assert_eq!(pretty_username(&member("", "", "", -333322221112)), "-333322221112");
}

fn chat(title: Option<&str>, username: Option<&str>, first: Option<&str>, last: Option<&str>) -> Chat {
    Chat {
        id: -333322221112,
        title: title.map(String::from),
        username: username.map(String::from),
        first_name: first.map(String::from),
        last_name: last.map(String::from),
    }
}

#[test]
fn chat_names() {
    assert_eq!(chat_title(&chat(Some("Title"), Some("UserName"), Some("F"), Some("L"))), "Title");
    assert_eq!(chat_title(&chat(Some(""), Some("UserName"), Some("F"), Some("L"))), "UserName");
    assert_eq!(chat_title(&chat(None, None, Some("FirstName"), Some("LastName"))), "FirstName LastName");
    assert_eq!(chat_title(&chat(None, None, Some("FirstName"), None)), "-333322221112");
    assert_eq!(chat_title(&chat(None, None, None, None)), "-333322221112");
}

#[test]
fn integers_as_text() {
    assert_eq!(integer_text(0), "0");
    assert_eq!(integer_text(1002003), "1002003");
    assert_eq!(integer_text(-45), "-45");
    assert_eq!(integer_text(i64::MIN), i64::MIN.to_string());
    assert_eq!(integer_text(i64::MAX), i64::MAX.to_string());
}

#[test]
fn telegram_names() {
    let user = tg::User {
        id: 111222332,
        is_bot: false,
        first_name: Some("FirstName".to_string()),
        last_name: Some("LastName".to_string()),
        username: Some("UserName".to_string()),
    };
    assert_eq!(username(&user), "FirstName LastName");
    let plain = tg::User { first_name: None, ..user.clone() };
    assert_eq!(username(&plain), "UserName");
    let bare = tg::User { username: None, ..plain };
    assert_eq!(username(&bare), "111222332");
    let chat = tg::Chat { id: 7, title: None, first_name: None, last_name: None, username: Some("SomeChat".to_string()) };
    assert_eq!(tg_chat_title(&chat), "SomeChat");
}

#[test]
fn responses() {
    let markup = roll_reply_markup().unwrap();
    assert_eq!(markup.inline_keyboard.len(), 1);
    assert_eq!(markup.inline_keyboard[0][0].text, "Roll");
    assert_eq!(markup.inline_keyboard[0][0].callback_data, "");
    match text_message("Сделано".to_string(), 10, 20) {
        ResponseMessage::Text { base_body, text, link_preview_options } => {
            assert_eq!((base_body.chat_id, base_body.reply_to_message_id), (10, Some(20)));
            assert!(base_body.reply_markup.is_none());
            assert_eq!(text, "Сделано");
            assert!(!link_preview_options.is_disabled);
        }
        other => panic!("unexpected {other:?}"),
    }
    match text_message_with_roll("x".to_string(), 10, 20) {
        ResponseMessage::Text { base_body, .. } => assert!(base_body.reply_markup.is_some()),
        other => panic!("unexpected {other:?}"),
    }
}

fn body(ext: MessageExt) -> MessageBody {
    let user = User { id: 1, is_bot: false, first_name: None, last_name: None, username: None };
    let chat = Chat { id: 2, title: None, first_name: None, last_name: None, username: None };
    MessageBody {
        base: MessageBase { message_id: 3, from: user, chat, forward_from: None, forward_from_chat: None },
        ext,
    }
}

#[test]
fn request_accessors() {
    let replied = Message::Replied {
        direct: body(MessageExt::Text { text: "хлеб кто".to_string() }),
        reply: Box::new(body(MessageExt::Voice {
            voice: bread_bot::common::request::Content { file_id: "f".to_string(), file_unique_id: "u".to_string() },
            caption: Some("подпись".to_string()),
        })),
        reply_markup: None,
    };
    assert_eq!(replied.direct().ext.raw_text(), Some("хлеб кто"));
    assert_eq!(replied.reply().unwrap().ext.raw_text(), Some("подпись"));
    assert!(replied.reply_markup().is_none());
    let payload = RequestPayload::Callback {
        update_id: 1,
        callback_query: CallbackQuery { id: "q".to_string(), from: replied.direct().base.from.clone(), message: replied.clone() },
    };
    assert_eq!(payload.any_message(), &replied);
    let edited = RequestPayload::Edited { update_id: 2, edited_message: replied.clone() };
    assert_eq!(edited.any_message().direct().base.message_id, 3);
    let sticker = MessageExt::Sticker {
        sticker: bread_bot::common::request::Content { file_id: "f".to_string(), file_unique_id: "u".to_string() },
    };
    assert_eq!(sticker.raw_text(), None);
    let _ = ChatId::new(5);
}

#[test]
fn telegram_tokens_from_request() {
    let user = tg::User { id: 1, is_bot: false, first_name: None, last_name: None, username: None };
    let chat = tg::Chat { id: 2, title: None, first_name: None, last_name: None, username: None };
    let base = tg::MessageBase { message_id: 3, from: user, chat, forward_from: None, forward_from_chat: None };
    let request = tg::WebhookRequest::Edited {
        update_id: 1,
        edited_message: tg::Message::Common {
            direct: tg::MessageBody { base, ext: tg::MessageExt::Text { text: "хлеб кто ?".to_string() } },
        },
    };
    let tokens = tokens_from_request(&request).unwrap();
    assert_eq!(tokens.len(), 3);
    assert_eq!(tokens[2], bread_bot::basic::lexer::Token::Punctuation("?"));
}
