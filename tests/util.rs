use bread_bot::common::lexer::{tokenize, Token};
use bread_bot::util::command_parser::Command::{Add, AnswerChance, Who};
use bread_bot::util::command_parser::{
    is_bot_call, parse_command, CommandParseError, CommandProperty, ControlItem,
};

#[test]
fn command_parser_test_is_bot_call() {
    for (input, output) in [
        (Token::Word("хлеб"), true),
        (Token::Word("Хлеб"), true),
        (Token::Word("Хлебушек"), true),
        (Token::Word("хлебушек"), true),
        (Token::Word("bread_bot"), true),
        (Token::Word("bread"), true),
        (Token::Word("BREAD_BOT"), true),
        (Token::Word("хлебушкек"), false),
        (Token::Newline, false),
        (Token::Punctuation("-"), false),
    ] {
        assert_eq!(is_bot_call(&input), output)
    }
}

#[test]
fn command_parser_test_to_command() {
    for (input, output) in [
        (
            Some("хлеб проверь"),
            Err(CommandParseError {
                message: "Команда нуждается в указанных значениях для обработки",
            }),
        ),
        (
            Some("хлеб добавь неподстроку?"),
            Err(CommandParseError {
                message:
                    "Ошибка ввода команды. Команда должна содержать объект для редактирования",
            }),
        ),
        (
            Some("хлеб добавь подстроку?"),
            Ok(Some(CommandProperty {
                command: &Add,
                control_item: Some(ControlItem::Substring),
                rest: &[Token::Punctuation("?")],
            })),
        ),
        (
            Some("хлеб кто булочка?"),
            Ok(Some(CommandProperty {
                command: &Who,
                control_item: None,
                rest: &[Token::Word("булочка"), Token::Punctuation("?")],
            })),
        ),
        (
            Some("хлеб КТО булочка?"),
            Ok(Some(CommandProperty {
                command: &Who,
                control_item: None,
                rest: &[Token::Word("булочка"), Token::Punctuation("?")],
            })),
        ),
        (
            Some("ХЛЕБ кто булочка?"),
            Ok(Some(CommandProperty {
                command: &Who,
                control_item: None,
                rest: &[Token::Word("булочка"), Token::Punctuation("?")],
            })),
        ),
        (
            Some("хлеб who булочка?"),
            Ok(Some(CommandProperty {
                command: &Who,
                control_item: None,
                rest: &[Token::Word("булочка"), Token::Punctuation("?")],
            })),
        ),
        (
            Some("хлеб кто?"),
            Ok(Some(CommandProperty {
                command: &Who,
                control_item: None,
                rest: &[Token::Punctuation("?")],
            })),
        ),
        (
            Some("хлеб кто"),
            Ok(Some(CommandProperty {
                command: &Who,
                control_item: None,
                rest: &[],
            })),
        ),
        (
            Some("хлеб процент срабатывания"),
            Ok(Some(CommandProperty {
                command: &AnswerChance,
                control_item: None,
                rest: &[],
            })),
        ),
        (
            Some("хлеб процент"),
            Ok(Some(CommandProperty {
                command: &AnswerChance,
                control_item: None,
                rest: &[],
            })),
        ),
        (Some(""), Ok(None)),
        (Some("some_wrong_text"), Ok(None)),
        (Some("хлеб"), Ok(None)),
        (Some("Хлеб"), Ok(None)),
        (None, Ok(None)),
    ] {
        assert_eq!(parse_command(&tokenize(input.unwrap_or_default())), output);
    }
}

#[test]
fn util_remember_with_two_word_alias() {
    assert_eq!(
        parse_command(&tokenize("хлеб запомни значение триггер кот")),
        Ok(Some(CommandProperty {
            command: &bread_bot::util::command_parser::Command::Remember,
            control_item: Some(ControlItem::Trigger),
            rest: &[Token::Word("кот")],
        }))
    );
}
