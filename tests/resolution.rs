use bread_bot::common::command_parser::Command::{AnswerChance, Remember, Show, Who};
use bread_bot::common::command_parser::{
    command_keywords, command_setting, find_command, parse_command, CommandContainer, CommandRegistry, ControlItem,
};
use bread_bot::common::error::ProcessError;
use bread_bot::common::lexer::{tokenize, Token};

#[test]
fn not_addressed_messages_resolve_to_next() {
    for text in ["кто булочка", "хлебушкек кто", "- хлеб кто", "\nхлеб кто", "булочка хлеб кто"] {
        assert_eq!(parse_command(&tokenize(text), true), Err(ProcessError::Next));
        assert_eq!(parse_command(&tokenize(text), false), Err(ProcessError::Next));
    }
}

#[test]
fn unknown_alias_after_wake_word_is_next() {
    assert_eq!(parse_command(&tokenize("хлеб булочка"), true), Err(ProcessError::Next));
    assert_eq!(parse_command(&tokenize("хлеб ? кто"), true), Err(ProcessError::Next));
}

#[test]
fn longest_alias_wins() {
    let tokens = tokenize("хлеб процент срабатывания");
    assert_eq!(
        parse_command(&tokens, false),
        Ok(CommandContainer {
            command: &AnswerChance,
            command_aliases: &[Token::Word("процент"), Token::Word("срабатывания")],
            control_item: Some(&ControlItem::Substring),
            split_values: false,
            rest: &[],
        })
    );
    let rest = tokenize("процент срабатывания 10");
    let (command, alias, after) = find_command(&rest).unwrap();
    assert_eq!(*command, AnswerChance);
    assert_eq!(alias.len(), 2);
    assert_eq!(after, &[Token::Word("10")]);
}

#[test]
fn wake_words_and_aliases_ignore_case() {
    for wake in ["ХЛЕБ", "Хлеб", "хлеб"] {
        let text = format!("{wake} КТО булочка");
        let tokens = tokenize(&text);
        let resolved = parse_command(&tokens, false).unwrap();
        assert_eq!(*resolved.command, Who);
        assert_eq!(resolved.rest, &[Token::Word("булочка")]);
    }
    assert_eq!(Token::Word("КТО"), Token::Word("кто"));
}

#[test]
fn reply_required_gives_feedback_whatever_follows() {
    for text in ["хлеб покажи", "хлеб покажи ключи обед", "хлеб удали", "хлеб запомни триггер кот", "хлеб бред 1 2 3"] {
        assert_eq!(
            parse_command(&tokenize(text), false),
            Err(ProcessError::Feedback { message: "Необходимо выбрать сообщение в ответ" })
        );
    }
}

#[test]
fn default_control_item_consumes_nothing() {
    let tokens = tokenize("хлеб проверь кот пёс");
    let resolved = parse_command(&tokens, false).unwrap();
    assert_eq!(resolved.control_item, Some(&ControlItem::Substring));
    assert_eq!(resolved.rest, &[Token::Word("кот"), Token::Word("пёс")]);
}

#[test]
fn rejected_control_item_falls_back_to_default_and_is_consumed() {
    let tokens = tokenize("хлеб запомни бред кот");
    let resolved = parse_command(&tokens, true).unwrap();
    assert_eq!(*resolved.command, Remember);
    assert_eq!(resolved.control_item, Some(&ControlItem::Substring));
    assert_eq!(resolved.rest, &[Token::Word("кот")]);
    assert_eq!(
        parse_command(&tokenize("хлеб добавь ключи кот"), false),
        Err(ProcessError::Feedback { message: "Указан недопустимый объект для редактирования" })
    );
}

#[test]
fn value_required_after_control_item() {
    assert_eq!(
        parse_command(&tokenize("хлеб проверь триггер"), false),
        Err(ProcessError::Feedback { message: "Необходимо указать значения" })
    );
    let tokens = tokenize("хлеб проверь триггер кот");
    assert!(parse_command(&tokens, false).is_ok());
    assert_eq!(
        parse_command(&tokenize("хлеб скажи"), false),
        Err(ProcessError::Feedback { message: "Необходимо указать значения" })
    );
}

#[test]
fn get_or_set_commands_need_no_value() {
    let tokens = tokenize("хлеб процент бреда");
    let resolved = parse_command(&tokens, false).unwrap();
    assert_eq!(resolved.control_item, Some(&ControlItem::MorphWord));
    assert!(resolved.rest.is_empty());
}

#[test]
fn registry_built_once_resolves_like_parse_command() {
    let registry = CommandRegistry::new();
    for (text, reply) in [("хлеб покажи ключи", true), ("хлеб добавь", false), ("нет", false), ("хлеб морф дебаг слово", false)] {
        let tokens = tokenize(text);
        assert_eq!(registry.resolve(&tokens, reply), parse_command(&tokens, reply));
    }
    let tokens = tokenize("хлеб морф дебаг слово");
    assert_eq!(registry.resolve(&tokens, false).unwrap().command_aliases.len(), 2);
}

#[test]
fn every_command_has_a_consistent_setting() {
    for command in bread_bot::common::command_parser::all_commands_vec() {
        let setting = command_setting(command);
        assert!(!setting.aliases.is_empty());
        if let Some(items) = &setting.available_control_items {
            assert!(!items.is_empty());
            if setting.default_control_item.is_none() {
                assert!(setting.required_value || setting.required_reply || setting.get_or_set_value);
            }
        } else {
            assert!(setting.default_control_item.is_none());
        }
    }
    assert_eq!(command_setting(Show).aliases, vec!["покажи", "show"]);
}

#[test]
fn control_item_names() {
    assert_eq!(ControlItem::Substring.name(), "подстроки");
    assert_eq!(ControlItem::Trigger.name(), "триггеры");
    assert_eq!(ControlItem::MorphWord.name(), "бред");
    assert_eq!(ControlItem::KeyWord.name(), "ключи");
    assert_eq!(ControlItem::try_from_token(&Token::Word("ПОДСТРОК")), Some(ControlItem::Substring));
    assert_eq!(ControlItem::try_from_token(&Token::Word("обед")), None);
}

#[test]
fn keywords_are_in_funnel_order() {
    let keywords = command_keywords();
    assert!(keywords.windows(2).all(|w| w[0].1.len() >= w[1].1.len()));
    assert_eq!(keywords[0].0, Who);
    assert_eq!(keywords[0].1, vec![Token::Word("с"), Token::Word("кем")]);
    let position = |alias: &str| {
        let tokens = tokenize(alias);
        keywords.iter().position(|(_, k)| *k == tokens).unwrap()
    };
    assert!(position("с кем") < position("кем"));
    assert!(position("морф дебаг") < position("морф"));
    assert!(position("кто") < position("кому"));
    assert!(position("help") < position("кто"));
    assert_eq!(keywords.iter().filter(|(_, k)| k.len() == 2).count(), 8);
}
