use bread_bot::common::answer_entity_service::{substring_keys, trigger_keys};
use bread_bot::common::callback_service::{callback_action, CallbackAction};
use bread_bot::common::command_parser::{command_setting, parse_command, Command, CommandRegistry};
use bread_bot::common::command_service::{
    answer_chance_request, answer_entity_response, command_details_help, commands_help_list, deleted_keys_text,
    help, new_keys, remember_keys, who_pretext, who_text, ChanceRequest,
};
use bread_bot::common::db::{AnswerEntity, AnswerEntityId, ChatId, EntityContentType, EntityReactionType};
use bread_bot::common::error::ProcessError;
use bread_bot::common::lexer::{tokenize, tokens_to_string};
use bread_bot::common::request::{
    Chat, Message, MessageBase, MessageBody, MessageExt, ReplyMarkup, ReplyMarkupButton, User,
};
use bread_bot::common::response::ResponseMessage;

fn help_text(input: &str) -> String {
    let tokens = tokenize(input);
    let registry = CommandRegistry::new();
    let container = registry.resolve(&tokens, false).unwrap();
    match help(&registry, &container, 1, 2).unwrap() {
        ResponseMessage::Text { text, base_body, .. } => {
            assert_eq!(base_body.chat_id, 1);
            assert_eq!(base_body.reply_to_message_id, Some(2));
            text
        }
        other => panic!("unexpected response {other:?}"),
    }
}

#[test]
fn help_answers() {
    assert!(help_text("хлеб хелп").starts_with("Привет. Я бот и меня зовут Хлебушек."));
    assert!(help_text("хлеб хелп команды").contains("цит:"));
    assert!(help_text("хлеб хелп механика").starts_with("Основные элементы"));
    assert!(help_text("хлеб хелп бред").starts_with("Команда: \"бред\""));
}

#[test]
fn command_details_text() {
    let text = command_details_help(&command_setting(Command::AnswerChance));
    assert!(text.starts_with("Команда: \"процент\". Показ и установка процента"));
    assert!(text.contains("- Алиасы: [\"процент\", \"процент срабатывания\"]\n"));
    assert!(text.contains("- Объекты редактирования: бред, подстроки. Объект по-умолчанию: подстроки\n"));
    assert!(text.ends_with("- Значения обязательны: Да\n- Значение в виде ответа на сообщение: Нет\n- Несколько значений через \",\" и \"или\": Нет"));
    let add = command_details_help(&command_setting(Command::Add));
    assert!(add.contains("- Объекты редактирования: бред. Указание объекта обязательно\n"));
    let top = command_details_help(&command_setting(Command::Top));
    assert!(top.contains("- Объекты редактирования: -\n"));
}

#[test]
fn commands_list_is_numbered() {
    let list = commands_help_list();
    assert!(list.starts_with("1) help: Получить информацию"));
    assert!(list.contains("\n20) совет: \n"));
    assert!(list.ends_with("\nЧтобы узнать подробнее о нужной команде необходимо написать: \"хлеб help [команда]\""));
}

#[test]
fn who_answers() {
    let cases = [
        ("хлеб кто собака", "FirstName LastName собака"),
        ("хлеб кто динозавр?", "FirstName LastName динозавр"),
        ("хлеб кто", "FirstName LastName"),
        ("хлеб у кого", "у него(неё): FirstName LastName"),
        ("хлеб у кого динозавр?", "динозавр у него(неё): FirstName LastName"),
        ("хлеб про кого песня?", "песня про него(неё): FirstName LastName"),
    ];
    for (input, expected) in cases {
        let tokens = tokenize(input);
        let container = parse_command(&tokens, false).unwrap();
        let rest = tokens_to_string(container.rest, true);
        let pretext = who_pretext(container.command_aliases).unwrap();
        assert_eq!(who_text(&rest, pretext, "FirstName LastName"), expected);
    }
    let tokens = tokenize("хлеб У КОГО");
    let container = parse_command(&tokens, false).unwrap();
    assert_eq!(who_pretext(container.command_aliases), Some("у него(неё):"));
}

#[test]
fn answer_chance_requests() {
    let cases = [
        ("хлеб процент", Ok(ChanceRequest::ShowSubstring)),
        ("хлеб процент подстрок", Ok(ChanceRequest::ShowSubstring)),
        ("хлеб процент бреда", Ok(ChanceRequest::ShowMorph)),
        ("хлеб процент 25", Ok(ChanceRequest::SetSubstring(25))),
        ("хлеб процент бреда 10", Ok(ChanceRequest::SetMorph(10))),
        ("хлеб процент +100", Ok(ChanceRequest::SetSubstring(100))),
        ("хлеб процент string", Err(ProcessError::Feedback { message: "Указано неверное значение. Должно быть целое число от 0 до 100" })),
        ("хлеб процент 199", Err(ProcessError::Feedback { message: "Указано неверное значение. Должно быть целое число от 0 до 100" })),
        ("хлеб процент подстрок -199", Err(ProcessError::Feedback { message: "Указано неверное значение. Должно быть целое число от 0 до 100" })),
        ("хлеб процент 100500", Err(ProcessError::Feedback { message: "Указано неверное значение. Должно быть целое число от 0 до 100" })),
        ("хлеб процент 1 2", Err(ProcessError::Feedback { message: "Указано неверное значение. Должно быть целое число от 0 до 100" })),
    ];
    for (input, expected) in cases {
        let tokens = tokenize(input);
        let container = parse_command(&tokens, false).unwrap();
        assert_eq!(answer_chance_request(&container), expected, "{input}");
    }
}

#[test]
fn remember_splits_keys_at_commas() {
    let tokens = tokenize("хлеб запомни булочка, фонарь-истребитель, аптека вертолет, substring_key");
    let container = parse_command(&tokens, true).unwrap();
    assert_eq!(
        remember_keys(container.rest),
        vec!["булочка", "фонарь-истребитель", "аптека вертолет", "substring_key"]
    );
    assert_eq!(remember_keys(&tokenize("a , b\nc")), vec!["a", "b\n c"]);
    let keys = vec!["булочка".to_string(), "".to_string(), "батончик".to_string(), "ёлочка".to_string()];
    let stored = vec!["батончик".to_string()];
    assert_eq!(new_keys(&keys, &stored), vec!["булочка", "ёлочка"]);
}

#[test]
fn deleted_keys_are_listed() {
    assert_eq!(deleted_keys_text(&vec!["substring_key".to_string()]), "Был удален контент на ключах: substring_key");
    assert_eq!(deleted_keys_text(&vec!["a".to_string(), "b".to_string()]), "Был удален контент на ключах: a, b");
}

fn entity(content_type: EntityContentType) -> AnswerEntity {
    AnswerEntity {
        id: AnswerEntityId::new(7),
        chat_id: ChatId::new(1),
        content_type,
        reaction_type: EntityReactionType::Substring,
        key: "substring_key".to_string(),
        value: "substring_text_value".to_string(),
        description: Some("caption".to_string()),
        file_unique_id: None,
    }
}

#[test]
fn stored_answers_are_sent_back_in_their_kind() {
    match answer_entity_response(entity(EntityContentType::Text), 3, 4) {
        ResponseMessage::Text { text, base_body, .. } => {
            assert_eq!(text, "substring_text_value");
            assert_eq!(base_body.reply_to_message_id, Some(4));
            assert_eq!(base_body.reply_markup.unwrap().inline_keyboard[0][0].text, "Roll");
        }
        other => panic!("unexpected {other:?}"),
    }
    match answer_entity_response(entity(EntityContentType::Picture), 3, 4) {
        ResponseMessage::Photo { photo, caption, .. } => {
            assert_eq!(photo, "substring_text_value");
            assert_eq!(caption, Some("caption".to_string()));
        }
        other => panic!("unexpected {other:?}"),
    }
    assert!(matches!(answer_entity_response(entity(EntityContentType::Sticker), 3, 4), ResponseMessage::Sticker { .. }));
}

#[test]
fn lookup_keys_are_normalized() {
    let tokens = tokenize("Ёлка ABC, да");
    assert_eq!(substring_keys(&tokens), vec!["Ёлка abc, да", "Ёлка", "abc", "да"]);
    assert_eq!(trigger_keys(&tokens), vec!["Ёлка abc, да"]);
    assert_eq!(substring_keys(&tokenize("ёж")), vec!["еж"]);
}

fn body(text: &str) -> MessageBody {
    let user = User { id: 1, is_bot: false, first_name: None, last_name: None, username: None };
    let chat = Chat { id: 1, title: None, first_name: None, last_name: None, username: None };
    MessageBody {
        base: MessageBase { message_id: 5, from: user, chat, forward_from: None, forward_from_chat: None },
        ext: MessageExt::Text { text: text.to_string() },
    }
}

fn keyboard(text: &str) -> Option<ReplyMarkup> {
    Some(ReplyMarkup {
        inline_keyboard: vec![vec![ReplyMarkupButton { text: text.to_string(), callback_data: "".to_string() }]],
    })
}

#[test]
fn callback_decisions() {
    let common = Message::Common { direct: body("x"), reply_markup: keyboard("Roll") };
    assert_eq!(callback_action(&common), CallbackAction::Next);
    let roll = Message::Replied { direct: body("x"), reply: Box::new(body("хлеб кто динозавр")), reply_markup: keyboard("Roll") };
    assert_eq!(callback_action(&roll), CallbackAction::Roll);
    let other = Message::Replied { direct: body("x"), reply: Box::new(body("y")), reply_markup: keyboard("Other") };
    assert_eq!(callback_action(&other), CallbackAction::Stop);
    let bare = Message::Replied { direct: body("x"), reply: Box::new(body("y")), reply_markup: None };
    assert_eq!(callback_action(&bare), CallbackAction::Next);
}

#[test]
fn i16_reading_matches_std() {
    let mut inputs: Vec<String> = vec![
        "", "+", "-", "0", "-0", "+0", "007", "100", "+100", "-199", "32767", "32768", "-32768", "-32769",
        "100500", "99999999999999999999", "1 2", " 1", "1 ", "1a", "a1", "--1", "+-1", "٣", "１",
    ]
    .into_iter()
    .map(String::from)
    .collect();
    for n in -40000i32..40000 {
        inputs.push(n.to_string());
    }
    for input in &inputs {
        assert_eq!(bread_bot::common::command_service::parse_i16(input), input.parse::<i16>().ok(), "{input:?}");
    }
}
