use bread_bot::services::commands::{command_from_name, to_command, Command};
use bread_bot::services::lexer::Token::{Newline, Text};
use bread_bot::services::lexer::tokenize;
use bread_bot::services::text_helper::tokenized_text;
use bread_bot::telegram::request::{
    Chat, Content, Message, MessageBase, MessageBody, MessageExt, User, WebhookRequest,
};

fn build_webhook_request(ext: MessageExt) -> WebhookRequest {
    WebhookRequest::Origin {
        update_id: 0,
        message: Message::Common {
            direct: MessageBody {
                base: MessageBase {
                    message_id: 0,
                    from: User {
                        id: 0,
                        is_bot: false,
                        first_name: None,
                        last_name: None,
                        username: None,
                    },
                    chat: Chat {
                        id: 0,
                        title: None,
                        first_name: None,
                        last_name: None,
                        username: None,
                    },
                    forward_from: None,
                    forward_from_chat: None,
                },
                ext,
            },
        },
    }
}

fn caption_ext(caption: Option<String>) -> MessageExt {
    MessageExt::Photo {
        photo: vec![],
        caption,
    }
}

fn text_ext(text: &str) -> MessageExt {
    MessageExt::Text {
        text: text.to_string(),
    }
}

#[test]
fn test_command_set() {
    assert_eq!(
        to_command(build_webhook_request(text_ext("хлеб кто булочка?"))),
        Some(Command::Who),
    );
    assert_eq!(
        to_command(build_webhook_request(caption_ext(Some(
            "хлеб who булочка?".to_string()
        )))),
        Some(Command::Who),
    );
    assert_eq!(
        to_command(build_webhook_request(text_ext("хлеб процент срабатывания"))),
        Some(Command::GetAnswerChance),
    );
    assert_eq!(
        to_command(build_webhook_request(caption_ext(Some(
            "хлеб процент".to_string()
        )))),
        Some(Command::GetAnswerChance),
    );
    assert_eq!(
        to_command(build_webhook_request(text_ext(
            "хлеб процент срабатывания 10"
        ))),
        Some(Command::SetAnswerChance),
    );
    assert_eq!(
        to_command(build_webhook_request(caption_ext(Some(
            "хлеб процент 10".to_string()
        )))),
        Some(Command::SetAnswerChance),
    );
}

#[test]
fn test_command_empty_text() {
    assert_eq!(to_command(build_webhook_request(text_ext(""))), None);
}

#[test]
fn test_command_wrong_text() {
    assert_eq!(
        to_command(build_webhook_request(text_ext("some wrong text"))),
        None
    );
}

#[test]
fn test_command_only_bot_name() {
    assert_eq!(to_command(build_webhook_request(text_ext("хлеб"))), None);
    assert_eq!(
        to_command(build_webhook_request(caption_ext(Some("хлеб".to_string())))),
        None
    );
}

#[test]
fn test_caption_is_none() {
    assert_eq!(to_command(build_webhook_request(caption_ext(None))), None);
}

#[test]
fn test_caption_is_empty() {
    assert_eq!(
        to_command(build_webhook_request(caption_ext(Some("".to_string())))),
        None
    );
}

#[test]
fn test_caption_unable_field() {
    assert_eq!(
        to_command(build_webhook_request(MessageExt::Sticker {
            sticker: Content {
                file_id: "123".to_string(),
                file_unique_id: "123".to_string()
            }
        })),
        None
    );
}

#[test]
fn services_command_reader_matches_names_exactly() {
    assert_eq!(to_command(build_webhook_request(text_ext("ХЛЕБ кто"))), None);
    assert_eq!(to_command(build_webhook_request(text_ext("хлеб КТО"))), None);
    assert_eq!(to_command(build_webhook_request(text_ext("bread_bot help"))), Some(Command::Help));
}

#[test]
fn services_command_names() {
    assert_eq!(command_from_name("помощь"), Some(Command::Help));
    assert_eq!(command_from_name("процент"), Some(Command::SetAnswerChance));
    assert_eq!(command_from_name("Процент"), None);
    assert_eq!("who".parse::<Command>(), Ok(Command::Who));
    assert_eq!("nobody".parse::<Command>(), Err(()));
}

#[test]
fn services_lexer_text_equals() {
    for (left_eq, right_eq) in [
        (Text("строкА"), Text("Строка")),
        (Text("строка"), Text("СТРОКА")),
        (Text("строка"), Text("строка")),
        (Text("string"), Text("STRING")),
        (Text("strinG"), Text("String")),
        (Text("string"), Text("string")),
    ] {
        assert_eq!(left_eq, right_eq);
    }
}

#[test]
fn services_lexer_tokenize() {
    for (input, output) in [
        ("some_str", vec![Text("some_str")]),
        (
            "some_str some_another_str",
            vec![Text("some_str"), Text("some_another_str")],
        ),
        (
            "some_str\rsome_another_str",
            vec![Text("some_str"), Text("some_another_str")],
        ),
        (
            "some_str \n some_another_str",
            vec![Text("some_str"), Newline, Text("some_another_str")],
        ),
        (
            "some_str\n \n some_another_str",
            vec![Text("some_str"), Newline, Newline, Text("some_another_str")],
        ),
        (
            "\nsome_str\n \n some_another_str",
            vec![
                Newline,
                Text("some_str"),
                Newline,
                Newline,
                Text("some_another_str"),
            ],
        ),
        ("", vec![]),
    ] {
        assert_eq!(tokenize(input), output);
    }
}

#[test]
fn services_lexer_keeps_punctuation_in_words() {
    assert_eq!(tokenize("\nsome_str?"), vec![Newline, Text("some_str?")]);
}

#[test]
fn tokenized_text_splits_lines_and_words() {
    assert_eq!(tokenized_text(None), None);
    assert_eq!(tokenized_text(Some("")), Some(vec![]));
    assert_eq!(
        tokenized_text(Some("хлеб кто\tбулочка\r\n\n  два  слова ")),
        Some(vec![vec!["хлеб", "кто", "булочка"], vec![], vec!["два", "слова"]])
    );
    assert_eq!(tokenized_text(Some("a\n")), Some(vec![vec!["a"]]));
}

#[test]
fn white_space_matches_std_for_every_char() {
    for code in 0..=0x10FFFFu32 {
        if let Some(c) = char::from_u32(code) {
            assert_eq!(bread_bot::services::text_helper::char_is_whitespace(c), c.is_whitespace(), "{code:x}");
        }
    }
}
