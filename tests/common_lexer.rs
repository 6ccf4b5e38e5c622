use bread_bot::common::lexer::Token::{Newline, Punctuation, Symbol, Word};
use bread_bot::common::lexer::{normalize_text, tokenize, tokens_to_string};

#[test]
fn lexer_test_text_equals() {
    [
        (Word("строкА"), Word("Строка")),
        (Word("строка"), Word("СТРОКА")),
        (Word("строка"), Word("строка")),
        (Word("string"), Word("STRING")),
        (Word("strinG"), Word("String")),
        (Word("string"), Word("string")),
    ]
    .iter()
    .for_each(|(left_eq, right_eq)| assert_eq!(left_eq, right_eq));
}

#[test]
fn lexer_test_tokenize() {
    [
        ("some_str", vec![Word("some_str")]),
        ("some_str?", vec![Word("some_str"), Punctuation("?")]),
        ("?some_str", vec![Word("?some_str")]),
        ("some - str", vec![Word("some"), Symbol("-"), Word("str")]),
        (
            "some_str some_another_str",
            vec![Word("some_str"), Word("some_another_str")],
        ),
        (
            "some_str\rsome_another_str",
            vec![Word("some_str"), Word("some_another_str")],
        ),
        (
            "some_str \n some_another_str",
            vec![Word("some_str"), Newline, Word("some_another_str")],
        ),
        (
            "some_str\n \n some_another_str",
            vec![Word("some_str"), Newline, Newline, Word("some_another_str")],
        ),
        (
            "\nsome_str\n \n some_another_str",
            vec![
                Newline,
                Word("some_str"),
                Newline,
                Newline,
                Word("some_another_str"),
            ],
        ),
        ("", vec![]),
    ]
    .iter()
    .for_each(|(input, output)| assert_eq!(tokenize(input), *output));
}

#[test]
fn tokenize_empty_text_gives_no_tokens() {
    assert!(tokenize("").is_empty());
    assert!(tokenize("   \r  ").is_empty());
}

#[test]
fn tokenize_twice_gives_the_same_tokens() {
    let text = "хлеб процент срабатывания бреда 10?\nещё - строка";
    assert_eq!(tokenize(text), tokenize(text));
}

#[test]
fn tokenize_collapses_symbol_runs_to_their_last_char() {
    assert_eq!(tokenize("?!"), vec![Symbol("!")]);
    assert_eq!(tokenize("a -- b"), vec![Word("a"), Symbol("-"), Word("b")]);
}

#[test]
fn tokenize_splits_non_ascii_trailing_punctuation() {
    assert_eq!(tokenize("привет…"), vec![Word("привет"), Punctuation("…")]);
    assert_eq!(tokenize("слово\n"), vec![Word("слово"), Newline]);
}

#[test]
fn words_compare_by_case_but_punctuation_exactly() {
    assert_eq!(Word("ХЛЕБ"), Word("хлеб"));
    assert_ne!(Word("хлеб"), Word("хлебушек"));
    assert_ne!(Punctuation("?"), Punctuation("!"));
    assert_ne!(Word("?"), Punctuation("?"));
    assert_eq!(Symbol("-"), Symbol("-"));
}

#[test]
fn tokens_to_string_joins_words_and_attaches_punctuation() {
    let tokens = tokenize("кто булочка, да?");
    assert_eq!(tokens_to_string(&tokens, false), "кто булочка, да?");
    assert_eq!(tokens_to_string(&tokens, true), "кто булочка, да");
    let lines = tokenize("a\nb - c");
    assert_eq!(tokens_to_string(&lines, false), "a\n b - c");
}

#[test]
fn normalize_text_lowers_ascii_and_replaces_yo() {
    assert_eq!(normalize_text("ЁЛКА Ёлочка ёжик ABC".to_string()), "ЁЛКА Ёлочка ежик abc");
}

#[test]
fn tokens_to_string_spaces_standalone_symbols() {
    let tokens = tokenize("кто булочка , да");
    assert_eq!(tokens_to_string(&tokens, true), "кто булочка , да");
}
