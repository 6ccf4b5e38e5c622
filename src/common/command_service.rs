use vstd::prelude::*;
use vstd::string::*;

use crate::common::command_parser::{
    all_commands, all_commands_vec, command_setting, control_item_name, found_command, CommandRegistry,
    funnel_entries, lemma_settings_well_formed, setting_spec, Command, CommandContainer, CommandSetting, ControlItem,
    SettingView,
};
use crate::common::db::{AnswerEntity, EntityContentType};
use crate::common::error::{ProcessError, ProcessErrorView};
use crate::common::lexer::{case_fold, chars_of, words_equal};
use crate::common::lexer::{push_char, token_eq, views, Token, TokenView};
use crate::common::response::{
    is_roll_markup, is_text_response, roll_reply_markup, text_message, text_message_with_roll, BaseBody, ResponseMessage,
};
use crate::common::user_service::{decimal, push_decimal};

verus! {

pub const HELP_MAIN: &'static str = "Привет. Я бот и меня зовут Хлебушек.\n\
    Я создан для того, чтобы делать ваши групповые чаты чуточку веселее. \
    Распознаю команды и рандомно и весело отвечаю на сообщения. \
    Достаточно добавить меня в группу и дать доступ на чтение сообщений. \
    Чтобы меня вызвать, нужно придерживаться следующего:\n\n\
    - Конструкция вызова: 'хлеб [команда] [объект для редактирования] [значение]'\n\
    \t> [команда] - обязательный параметр\n\
    \t> [объект для редактирования] - опциональный параметр. Нужен, если этого требует команда.\n\
    \t> [значение] - опциональный параметр. Нужен, если этого требует команда.\n\
    \t> Важно: некоторые команды требуют значение в виде выбранного сообщения в качестве ответа.\n\n\
    - Посмотреть весь список команд: 'хлеб хелп команды'.\n\n\
    - Посмотреть детальную информацию о команде: 'хлеб хелп [команда]'\n\n\
    \t- значение для [команда] можно найти из списка\n\n\
    - Посмотреть информацию о механике и терминологии бота: 'хлеб хелп механика'\n\n\
    Продвигать проект и оставлять пожелания можно на boosty: https://boosty.to/levkey/donate";

pub const HELP_INSTRUCTIONS: &'static str = "Основные элементы:\n\nЗначение \
    - это текст, картинка, видео, гифка, стикер или голосовое сообщение, \
    которое можно у меня сохранить и которые я буду подкидывать в момент, \
    когда ты меньше всего этого ожидаешь :)\n\n\
    Ключ - это строка, на которую закрепили определенное значение\n\n\
    Триггер - это целая строка в тексте сообщения, на которую я 100% среагирую \
    и пришлю тебе сохраненное на эту строку `значение`\n\n\
    Подстрока - это часть строки, которое есть в тексте сообщения. \
    Я сработаю с определенным `процентом срабатывания` \
    и пришлю тебе сохраненное на эту часть строки `значение`\n\n\
    Бред - это должно быть очень смешное слово, на которое \
    я по команде или с определенным `процентом срабатывания` меняю изначальные слова \
    у сообщения в случайной последовательности.\n\n\
    Процент срабатывания - это тот процент, который задает частоту \
    моего автоматического срабатывания на `подстроки` или `бред`. \
    Для `бреда` и `подстроки` можно задать разные проценты. По-умолчанию - это 15%\n\n\
    Алиас - это псевдонимы команд. То есть, у одной команды может быть несколько псевдонимов, \
    по которым можно её вызвать. Это придумано для удобства\n\n\
    Объект редактирования - это обобщенное название `ключу`, `триггеру`, `бреду` и `подстроке`. \
    В некоторых командах их стоит перечислить для операций добавления или удаления";

pub const HELP_LIST_FOOTER: &'static str = "\nЧтобы узнать подробнее о нужной команде необходимо написать: \"хлеб help [команда]\"";

/// The parts joined, with `sep` between each two.
pub open spec fn join(parts: Seq<Seq<char>>, sep: Seq<char>) -> Seq<char>
    decreases parts.len(),
{
    if parts.len() == 0 {
        seq![]
    } else if parts.len() == 1 {
        parts[0]
    } else {
        join(parts.drop_last(), sep) + sep + parts.last()
    }
}

/// Joins texts with `sep` between each two.
pub fn join_strs(parts: &Vec<&str>, sep: &str) -> (r: String)
    ensures
        r@ == join(parts@.map_values(|p: &str| p@), sep@),
{
    let ghost all = parts@.map_values(|p: &str| p@);
    let mut r = String::new();
    let mut i: usize = 0;
    while i < parts.len()
        invariant
            all == parts@.map_values(|p: &str| p@),
            i <= parts@.len(),
            r@ == join(all.take(i as int), sep@),
        decreases parts@.len() - i,
    {
        if i > 0 {
            r.append(sep);
        }
        r.append(parts[i]);
        assert(all.take(i + 1).drop_last() =~= all.take(i as int));
        i = i + 1;
        assert(r@ =~= join(all.take(i as int), sep@));
    }
    assert(all.take(i as int) =~= all);
    r
}

/// Joins texts with `sep` between each two.
pub fn join_strings(parts: &Vec<String>, sep: &str) -> (r: String)
    ensures
        r@ == join(parts@.map_values(|p: String| p@), sep@),
{
    let ghost all = parts@.map_values(|p: String| p@);
    let mut r = String::new();
    let mut i: usize = 0;
    while i < parts.len()
        invariant
            all == parts@.map_values(|p: String| p@),
            i <= parts@.len(),
            r@ == join(all.take(i as int), sep@),
        decreases parts@.len() - i,
    {
        if i > 0 {
            r.append(sep);
        }
        r.append(parts[i].as_str());
        assert(all.take(i + 1).drop_last() =~= all.take(i as int));
        i = i + 1;
        assert(r@ =~= join(all.take(i as int), sep@));
    }
    assert(all.take(i as int) =~= all);
    r
}

pub open spec fn yes_no(b: bool) -> Seq<char> {
    if b {
        "Да"@
    } else {
        "Нет"@
    }
}

/// What the help says of a command's objects.
pub open spec fn items_info(s: SettingView) -> Seq<char> {
    match s.available_control_items {
        None => "-"@,
        Some(items) => join(items.map_values(|c: ControlItem| control_item_name(c)), ", "@) + match s.default_control_item {
            Some(d) => ". Объект по-умолчанию: "@ + control_item_name(d),
            None => ". Указание объекта обязательно"@,
        },
    }
}

/// The help text of one command.
pub open spec fn details_text(s: SettingView) -> Seq<char> {
    "Команда: \""@ + s.aliases[0] + "\". "@ + s.description + "\n\n- Алиасы: [\""@ + join(s.aliases, "\", \""@)
        + "\"]\n- Объекты редактирования: "@ + items_info(s) + "\n- Значения обязательны: "@ + yes_no(s.required_value)
        + "\n- Значение в виде ответа на сообщение: "@ + yes_no(s.required_reply)
        + "\n- Несколько значений через \",\" и \"или\": "@ + yes_no(s.split_values)
}

fn yes_no_str(b: bool) -> (r: &'static str)
    ensures
        r@ == yes_no(b),
{
    if b {
        "Да"
    } else {
        "Нет"
    }
}

fn items_info_text(setting: &CommandSetting) -> (r: String)
    ensures
        r@ == items_info(setting@),
{
    match &setting.available_control_items {
        None => "-".to_string(),
        Some(items) => {
            let mut names: Vec<String> = Vec::new();
            let mut i: usize = 0;
            while i < items.len()
                invariant
                    i <= items@.len(),
                    names@.len() == i,
                    forall|j: int| 0 <= j < i ==> (#[trigger] names@[j])@ == control_item_name(items@[j]),
                decreases items@.len() - i,
            {
                let name = items[i].name();
                names.push(name);
                i = i + 1;
            }
            assert(names@.map_values(|p: String| p@) =~= items@.map_values(|c: ControlItem| control_item_name(c)));
            let mut r = join_strings(&names, ", ");
            match setting.default_control_item {
                Some(d) => {
                    r.append(". Объект по-умолчанию: ");
                    let name = d.name();
                    r.append(name.as_str());
                },
                None => r.append(". Указание объекта обязательно"),
            }
            r
        },
    }
}

/// The help text of a command.
pub fn command_details_help(command_setting: &CommandSetting) -> (r: String)
    requires
        command_setting@.aliases.len() >= 1,
    ensures
        r@ == details_text(command_setting@),
{
    let s = command_setting;
    let mut r = String::new();
    r.append("Команда: \"");
    r.append(s.aliases[0]);
    r.append("\". ");
    r.append(s.description);
    r.append("\n\n- Алиасы: [\"");
    let aliases = join_strs(&s.aliases, "\", \"");
    r.append(aliases.as_str());
    r.append("\"]\n- Объекты редактирования: ");
    let items = items_info_text(s);
    r.append(items.as_str());
    r.append("\n- Значения обязательны: ");
    r.append(yes_no_str(s.required_value));
    r.append("\n- Значение в виде ответа на сообщение: ");
    r.append(yes_no_str(s.required_reply));
    r.append("\n- Несколько значений через \",\" и \"или\": ");
    r.append(yes_no_str(s.split_values));
    assert(r@ =~= details_text(command_setting@));
    r
}

/// The line of the command list for the command with number `n`.
pub open spec fn list_line(n: nat, s: SettingView) -> Seq<char> {
    decimal(n) + ") "@ + s.aliases[0] + ": "@ + s.description + "\n"@
}

/// The lines of the first `k` commands, numbered from one.
pub open spec fn list_lines(cs: Seq<Command>, k: int) -> Seq<char>
    decreases k,
{
    if k <= 0 {
        seq![]
    } else {
        list_lines(cs, k - 1) + list_line(k as nat, setting_spec(cs[k - 1]))
    }
}

/// The numbered list of every command with its description.
pub open spec fn commands_list_text() -> Seq<char> {
    list_lines(all_commands(), all_commands().len() as int) + HELP_LIST_FOOTER@
}

/// The numbered list of every command with its description.
pub fn commands_help_list() -> (r: String)
    ensures
        r@ == commands_list_text(),
{
    let commands = all_commands_vec();
    let mut r = String::new();
    let mut i: usize = 0;
    while i < commands.len()
        invariant
            commands@ == all_commands(),
            i <= commands@.len(),
            r@ == list_lines(all_commands(), i as int),
        decreases commands@.len() - i,
    {
        let setting = command_setting(commands[i]);
        proof {
            lemma_settings_well_formed(commands@[i as int]);
        }
        let ghost before = r@;
        assert(setting@.aliases[0] == setting.aliases@[0]@);
        push_decimal(&mut r, (i + 1) as u64);
        r.append(") ");
        r.append(setting.aliases[0]);
        r.append(": ");
        r.append(setting.description);
        r.append("\n");
        assert(r@ =~= before + list_line((i + 1) as nat, setting_spec(commands@[i as int])));
        assert(all_commands()[i as int] == commands@[i as int]);
        i = i + 1;
        assert(r@ =~= list_lines(all_commands(), i as int));
    }
    r.append(HELP_LIST_FOOTER);
    r
}

/// What the help command answers to the tokens after its alias: the mechanics, the
/// command list, the help of the command named, or the general help.
pub open spec fn help_text(rest: Seq<TokenView>) -> Seq<char> {
    if rest.len() > 0 && token_eq(rest[0], TokenView::Word("механика"@)) {
        HELP_INSTRUCTIONS@
    } else if rest.len() > 0 && token_eq(rest[0], TokenView::Word("команды"@)) {
        commands_list_text()
    } else {
        match found_command(funnel_entries(), rest) {
            None => HELP_MAIN@,
            Some((c, _)) => details_text(setting_spec(c)),
        }
    }
}

/// Answers the help command.
pub fn help<'a>(
    registry: &CommandRegistry,
    command_container: &CommandContainer<'a>,
    chat_id: i64,
    message_id: i64,
) -> (r: Result<ResponseMessage, ProcessError<'a>>)
    requires
        registry.wf(),
    ensures
        r matches Ok(m) && is_text_response(m, help_text(views(command_container.rest@)), chat_id, message_id)
            && m->Text_base_body.reply_markup is None,
{
    let rest = command_container.rest;
    let text = if rest.len() > 0 && rest[0] == Token::Word("механика") {
        HELP_INSTRUCTIONS.to_string()
    } else if rest.len() > 0 && rest[0] == Token::Word("команды") {
        commands_help_list()
    } else {
        match registry.find(rest) {
            None => HELP_MAIN.to_string(),
            Some((command, _, _)) => {
                proof {
                    lemma_settings_well_formed(*command);
                }
                command_details_help(&command_setting(*command))
            },
        }
    };
    Ok(text_message(text, chat_id, message_id))
}


pub const UNSUPPORTED_ITEM: &'static str = "Объект редактирования не поддерживается";

pub const WRONG_CHANCE: &'static str = "Указано неверное значение. Должно быть целое число от 0 до 100";

pub const DELETED_PREFIX: &'static str = "Был удален контент на ключах: ";

pub open spec fn digit_value(c: char) -> int {
    if c == '0' { 0 } else if c == '1' { 1 } else if c == '2' { 2 } else if c == '3' { 3 } else if c == '4' { 4 }
    else if c == '5' { 5 } else if c == '6' { 6 } else if c == '7' { 7 } else if c == '8' { 8 } else { 9 }
}

pub open spec fn is_digit(c: char) -> bool {
    '0' <= c <= '9'
}

/// The value of a sequence of decimal digits.
pub open spec fn digits_value(d: Seq<char>) -> int
    decreases d.len(),
{
    if d.len() == 0 {
        0
    } else {
        digits_value(d.drop_last()) * 10 + digit_value(d.last())
    }
}

/// Whether a text opens with a sign.
pub open spec fn has_sign(s: Seq<char>) -> bool {
    s.len() > 0 && (s[0] == '+' || s[0] == '-')
}

/// The text after its sign, if it has one.
pub open spec fn digits_part(s: Seq<char>) -> Seq<char> {
    if has_sign(s) {
        s.drop_first()
    } else {
        s
    }
}

pub open spec fn all_digits(d: Seq<char>) -> bool {
    forall|i: int| 0 <= i < d.len() ==> is_digit(#[trigger] d[i])
}

/// The integer a text writes: an optional `+` or `-` followed by at least one
/// decimal digit, and nothing else.
pub open spec fn decimal_value(s: Seq<char>) -> Option<int> {
    if digits_part(s).len() > 0 && all_digits(digits_part(s)) {
        Some(if has_sign(s) && s[0] == '-' { -digits_value(digits_part(s)) } else { digits_value(digits_part(s)) })
    } else {
        None
    }
}

/// The 16-bit integer a text writes, if it writes one that fits.
pub open spec fn i16_of(s: Seq<char>) -> Option<i16> {
    match decimal_value(s) {
        Some(v) => if i16::MIN <= v <= i16::MAX {
            Some(v as i16)
        } else {
            None
        },
        None => None,
    }
}

fn digit_of(c: char) -> (r: Option<u32>)
    ensures
        is_digit(c) ==> r == Some(digit_value(c) as u32),
        !is_digit(c) ==> r is None,
{
    match c {
        '0' => Some(0),
        '1' => Some(1),
        '2' => Some(2),
        '3' => Some(3),
        '4' => Some(4),
        '5' => Some(5),
        '6' => Some(6),
        '7' => Some(7),
        '8' => Some(8),
        '9' => Some(9),
        _ => None,
    }
}

/// Beyond the magnitude of any 16-bit integer.
pub const MAGNITUDE_CAP: u32 = 32769;

pub open spec fn capped(v: int) -> int {
    if v < MAGNITUDE_CAP { v } else { MAGNITUDE_CAP as int }
}

/// Reads a 16-bit integer: an optional `+` or `-` followed by at least one decimal
/// digit, whose value fits.
pub fn parse_i16(s: &str) -> (r: Option<i16>)
    ensures
        r == i16_of(s@),
{
    let chars = chars_of(s);
    let n = chars.len();
    let signed = n > 0 && (chars[0] == '+' || chars[0] == '-');
    let negative = signed && chars[0] == '-';
    let start: usize = if signed { 1 } else { 0 };
    let ghost d = digits_part(s@);
    assert(d =~= s@.subrange(start as int, n as int));
    if start == n {
        return None;
    }
    let mut v: u32 = 0;
    let mut i: usize = start;
    assert(s@.subrange(start as int, start as int) =~= Seq::<char>::empty());
    while i < n
        invariant
            chars@ == s@,
            n == s@.len(),
            start <= i <= n,
            d == s@.subrange(start as int, n as int),
            d == digits_part(s@),
            start == (if has_sign(s@) { 1usize } else { 0usize }),
            negative == (s@.len() > 0 && s@[0] == '-'),
            v as int == capped(digits_value(s@.subrange(start as int, i as int))),
            v <= MAGNITUDE_CAP,
            forall|j: int| start <= j < i ==> is_digit(#[trigger] s@[j]),
        decreases n - i,
    {
        let c = chars[i];
        match digit_of(c) {
            None => {
                assert(!is_digit(d[i - start]));
                assert(!all_digits(d));
                return None;
            },
            Some(x) => {
                let ghost before = s@.subrange(start as int, i as int);
                assert(s@.subrange(start as int, i + 1).drop_last() =~= before);
                assert(digits_value(s@.subrange(start as int, i + 1)) == digits_value(before) * 10 + digit_value(c));
                let w = v * 10 + x;
                v = if w < MAGNITUDE_CAP { w } else { MAGNITUDE_CAP };
            },
        }
        i = i + 1;
    }
    assert(s@.subrange(start as int, n as int) =~= d);
    assert forall|j: int| 0 <= j < d.len() implies is_digit(#[trigger] d[j]) by {
        assert(d[j] == s@[start + j]);
    }
    assert(all_digits(d));
    if negative {
        if v <= 32768 {
            Some((0 - (v as i32)) as i16)
        } else {
            None
        }
    } else if v <= 32767 {
        Some(v as i16)
    } else {
        None
    }
}

/// What the answer-chance command asks for.
#[derive(Debug, Clone, Copy, PartialEq, Eq, Structural)]
pub enum ChanceRequest {
    ShowSubstring,
    ShowMorph,
    SetSubstring(i16),
    SetMorph(i16),
}

/// The request of an answer-chance call on `item` followed by `rest`: show the chance
/// with no value, set it with one whole number from 0 to 100.
pub open spec fn chance_request_spec(item: ControlItem, rest: Seq<TokenView>) -> Result<ChanceRequest, ProcessErrorView> {
    if rest.len() == 0 {
        match item {
            ControlItem::Substring => Ok(ChanceRequest::ShowSubstring),
            ControlItem::MorphWord => Ok(ChanceRequest::ShowMorph),
            _ => Err(ProcessErrorView::Feedback(UNSUPPORTED_ITEM@)),
        }
    } else if rest.len() == 1 && rest[0] is Word {
        match i16_of(rest[0]->Word_0) {
            Some(x) => if 0 <= x <= 100 {
                match item {
                    ControlItem::Substring => Ok(ChanceRequest::SetSubstring(x)),
                    ControlItem::MorphWord => Ok(ChanceRequest::SetMorph(x)),
                    _ => Err(ProcessErrorView::Feedback(UNSUPPORTED_ITEM@)),
                }
            } else {
                Err(ProcessErrorView::Feedback(WRONG_CHANCE@))
            },
            None => Err(ProcessErrorView::Feedback(WRONG_CHANCE@)),
        }
    } else {
        Err(ProcessErrorView::Feedback(WRONG_CHANCE@))
    }
}

pub open spec fn request_view<'a>(r: Result<ChanceRequest, ProcessError<'a>>) -> Result<ChanceRequest, ProcessErrorView> {
    match r {
        Ok(x) => Ok(x),
        Err(e) => Err(e@),
    }
}

/// Reads what an answer-chance call asks for.
pub fn answer_chance_request<'a>(command_container: &CommandContainer<'a>) -> (r: Result<ChanceRequest, ProcessError<'static>>)
    requires
        command_container.control_item is Some,
    ensures
        request_view(r) == chance_request_spec(command_container@.control_item->Some_0, command_container@.rest),
{
    let item = match command_container.control_item {
        Some(c) => *c,
        None => ControlItem::Substring,
    };
    let rest = command_container.rest;
    if rest.len() == 0 {
        return match item {
            ControlItem::Substring => Ok(ChanceRequest::ShowSubstring),
            ControlItem::MorphWord => Ok(ChanceRequest::ShowMorph),
            _ => Err(ProcessError::Feedback { message: UNSUPPORTED_ITEM }),
        };
    }
    assert(views(rest@)[0] == rest@[0]@);
    if rest.len() == 1 {
        if let Token::Word(value) = rest[0] {
            return match parse_i16(value) {
                Some(x) => if 0 <= x && x <= 100 {
                    match item {
                        ControlItem::Substring => Ok(ChanceRequest::SetSubstring(x)),
                        ControlItem::MorphWord => Ok(ChanceRequest::SetMorph(x)),
                        _ => Err(ProcessError::Feedback { message: UNSUPPORTED_ITEM }),
                    }
                } else {
                    Err(ProcessError::Feedback { message: WRONG_CHANCE })
                },
                None => Err(ProcessError::Feedback { message: WRONG_CHANCE }),
            };
        }
    }
    Err(ProcessError::Feedback { message: WRONG_CHANCE })
}

/// The question word of each alias of the "who" command, beside the words that
/// stand before the chosen name in the answer.
pub open spec fn who_forms() -> Seq<(Seq<char>, Seq<char>)> {
    seq![
        (""@, ""@), ("кто"@, ""@), ("кому"@, "ему(ей):"@), ("кем"@, "им(ей):"@), ("с кем"@, "с ним(ней):"@),
        ("кого"@, "его(eё):"@), ("у кого"@, "у него(неё):"@), ("про кого"@, "про него(неё):"@),
        ("о ком"@, "о нём(ней):"@), ("чьё"@, "его(её):"@), ("чье"@, "его(её):"@), ("чья"@, "его(её):"@),
        ("чей"@, "его(её):"@), ("who"@, "его(её):"@),
    ]
}

fn who_forms_vec() -> (r: Vec<(&'static str, &'static str)>)
    ensures
        r@.map_values(|f: (&'static str, &'static str)| (f.0@, f.1@)) == who_forms(),
{
    let r = vec![
        ("", ""), ("кто", ""), ("кому", "ему(ей):"), ("кем", "им(ей):"), ("с кем", "с ним(ней):"),
        ("кого", "его(eё):"), ("у кого", "у него(неё):"), ("про кого", "про него(неё):"),
        ("о ком", "о нём(ней):"), ("чьё", "его(её):"), ("чье", "его(её):"), ("чья", "его(её):"),
        ("чей", "его(её):"), ("who", "его(её):"),
    ];
    assert(r@.map_values(|f: (&'static str, &'static str)| (f.0@, f.1@)) =~= who_forms());
    r
}

/// The form whose question word is `key`, regardless of case.
pub open spec fn form_of(forms: Seq<(Seq<char>, Seq<char>)>, key: Seq<char>) -> Option<Seq<char>>
    decreases forms.len(),
{
    if forms.len() == 0 {
        None
    } else if case_fold(forms[0].0) == case_fold(key) {
        Some(forms[0].1)
    } else {
        form_of(forms.drop_first(), key)
    }
}

/// The question word of an alias: its one word, or its two words joined by a space.
pub open spec fn who_key(aliases: Seq<TokenView>) -> Seq<char> {
    if aliases.len() == 2 && aliases[0] is Word && aliases[1] is Word {
        aliases[0]->Word_0.push(' ') + aliases[1]->Word_0
    } else if aliases.len() == 1 && aliases[0] is Word {
        aliases[0]->Word_0
    } else {
        seq![]
    }
}

/// The words that stand before the chosen name when "who" is asked by `aliases`.
pub fn who_pretext(aliases: &[Token]) -> (r: Option<&'static str>)
    ensures
        match form_of(who_forms(), who_key(views(aliases@))) {
            Some(p) => r matches Some(x) && x@ == p,
            None => r is None,
        },
{
    let mut key = String::new();
    if aliases.len() == 2 {
        if let (Token::Word(pretext), Token::Word(question)) = (aliases[0], aliases[1]) {
            key.append(pretext);
            push_char(&mut key, ' ');
            key.append(question);
        }
    } else if aliases.len() == 1 {
        if let Token::Word(question) = aliases[0] {
            key.append(question);
        }
    }
    assert(key@ =~= who_key(views(aliases@)));
    let forms = who_forms_vec();
    let ghost all = who_forms();
    let mut i: usize = 0;
    assert(all.skip(0) =~= all);
    while i < forms.len()
        invariant
            forms@.map_values(|f: (&'static str, &'static str)| (f.0@, f.1@)) == all,
            all == who_forms(),
            key@ == who_key(views(aliases@)),
            i <= forms@.len(),
            form_of(all, key@) == form_of(all.skip(i as int), key@),
        decreases forms@.len() - i,
    {
        assert(all.skip(i as int)[0] == (forms@[i as int].0@, forms@[i as int].1@));
        assert(all.skip(i as int).drop_first() =~= all.skip(i + 1));
        if words_equal(forms[i].0, key.as_str()) {
            assert(form_of(all.skip(i as int), key@) == Some(forms@[i as int].1@));
            return Some(forms[i].1);
        }
        i = i + 1;
    }
    assert(all.skip(i as int) =~= Seq::<(Seq<char>, Seq<char>)>::empty());
    None
}

/// The answer to "who": the chosen name, with the question's rest and the words of
/// its form around it.
pub open spec fn who_answer(rest: Seq<char>, pretext: Seq<char>, username: Seq<char>) -> Seq<char> {
    if rest.len() > 0 && pretext.len() == 0 {
        username.push(' ') + rest
    } else if rest.len() > 0 {
        rest.push(' ') + pretext.push(' ') + username
    } else if pretext.len() > 0 {
        pretext.push(' ') + username
    } else {
        username
    }
}

/// Builds the answer to "who".
pub fn who_text(rest: &str, pretext: &str, username: &str) -> (r: String)
    ensures
        r@ == who_answer(rest@, pretext@, username@),
{
    let mut r = String::new();
    if !rest.is_empty() && pretext.is_empty() {
        r.append(username);
        push_char(&mut r, ' ');
        r.append(rest);
    } else if !rest.is_empty() {
        r.append(rest);
        push_char(&mut r, ' ');
        r.append(pretext);
        push_char(&mut r, ' ');
        r.append(username);
    } else if !pretext.is_empty() {
        r.append(pretext);
        push_char(&mut r, ' ');
        r.append(username);
    } else {
        r.append(username);
    }
    assert(r@ =~= who_answer(rest@, pretext@, username@));
    r
}

pub open spec fn strings_view(v: Seq<String>) -> Seq<Seq<char>> {
    v.map_values(|s: String| s@)
}

/// Whether a token separates two keys.
pub open spec fn is_comma(t: TokenView) -> bool {
    t == TokenView::Punctuation(seq![',']) || t == TokenView::Symbol(seq![','])
}

/// The keys after token `t` is read into `keys`: a comma opens a new key, a newline
/// or punctuation sticks to the last key, a word or symbol joins it after a space.
pub open spec fn key_step(keys: Seq<Seq<char>>, t: TokenView) -> Seq<Seq<char>> {
    if is_comma(t) {
        keys.push(seq![])
    } else {
        match t {
            TokenView::Newline => if keys.len() == 0 {
                seq![seq!['\n']]
            } else {
                keys.update(keys.len() - 1, keys.last().push('\n'))
            },
            TokenView::Punctuation(x) => if keys.len() == 0 {
                seq![x]
            } else {
                keys.update(keys.len() - 1, keys.last() + x)
            },
            TokenView::Word(x) => if keys.len() == 0 {
                seq![x]
            } else if keys.last().len() == 0 {
                keys.update(keys.len() - 1, x)
            } else {
                keys.update(keys.len() - 1, keys.last().push(' ') + x)
            },
            TokenView::Symbol(x) => if keys.len() == 0 {
                seq![x]
            } else if keys.last().len() == 0 {
                keys.update(keys.len() - 1, x)
            } else {
                keys.update(keys.len() - 1, keys.last().push(' ') + x)
            },
        }
    }
}

/// The keys the first `k` tokens of `ts` spell.
pub open spec fn keys_of(ts: Seq<TokenView>, k: int) -> Seq<Seq<char>>
    decreases k,
{
    if k <= 0 {
        seq![]
    } else {
        key_step(keys_of(ts, k - 1), ts[k - 1])
    }
}

fn is_comma_token(t: Token) -> (r: bool)
    ensures
        r == is_comma(t@),
{
    let comma = match t {
        Token::Punctuation(x) => x.unicode_len() == 1 && x.get_char(0) == ',',
        Token::Symbol(x) => x.unicode_len() == 1 && x.get_char(0) == ',',
        _ => false,
    };
    proof {
        match t {
            Token::Punctuation(x) => if x@.len() == 1 && x@[0] == ',' {
                assert(x@ =~= seq![',']);
            },
            Token::Symbol(x) => if x@.len() == 1 && x@[0] == ',' {
                assert(x@ =~= seq![',']);
            },
            _ => {},
        }
    }
    comma
}

/// The keys a "remember" call lists after its object, separated by commas.
pub fn remember_keys(rest: &[Token]) -> (r: Vec<String>)
    ensures
        strings_view(r@) == keys_of(views(rest@), rest@.len() as int),
{
    let mut keys: Vec<String> = Vec::new();
    let mut i: usize = 0;
    while i < rest.len()
        invariant
            i <= rest@.len(),
            strings_view(keys@) == keys_of(views(rest@), i as int),
        decreases rest@.len() - i,
    {
        let t = rest[i];
        let ghost before = strings_view(keys@);
        assert(views(rest@)[i as int] == t@);
        if is_comma_token(t) {
            keys.push(String::new());
        } else if keys.len() == 0 {
            let mut first = String::new();
            match t {
                Token::Newline => push_char(&mut first, '\n'),
                Token::Punctuation(x) | Token::Word(x) | Token::Symbol(x) => first.append(x),
            }
            keys.push(first);
        } else {
            let mut last = keys.pop().unwrap();
            match t {
                Token::Newline => push_char(&mut last, '\n'),
                Token::Punctuation(x) => last.append(x),
                Token::Word(x) | Token::Symbol(x) => {
                    if !last.as_str().is_empty() {
                        push_char(&mut last, ' ');
                    }
                    last.append(x);
                },
            }
            keys.push(last);
        }
        i = i + 1;
        assert(strings_view(keys@) =~= key_step(before, t@));
    }
    keys
}

/// The keys of `keys` that are not empty and not already stored, in order.
pub open spec fn kept_keys(keys: Seq<Seq<char>>, stored: Seq<Seq<char>>, k: int) -> Seq<Seq<char>>
    decreases k,
{
    if k <= 0 {
        seq![]
    } else if keys[k - 1].len() > 0 && !stored.contains(keys[k - 1]) {
        kept_keys(keys, stored, k - 1).push(keys[k - 1])
    } else {
        kept_keys(keys, stored, k - 1)
    }
}

fn is_stored(key: &String, stored: &Vec<String>) -> (r: bool)
    ensures
        r == strings_view(stored@).contains(key@),
{
    let mut i: usize = 0;
    while i < stored.len()
        invariant
            i <= stored@.len(),
            forall|j: int| 0 <= j < i ==> stored@[j]@ != key@,
        decreases stored@.len() - i,
    {
        if stored[i] == *key {
            assert(strings_view(stored@)[i as int] == key@);
            return true;
        }
        i = i + 1;
    }
    assert(!strings_view(stored@).contains(key@)) by {
        if strings_view(stored@).contains(key@) {
            let j = choose|j: int| 0 <= j < strings_view(stored@).len() && strings_view(stored@)[j] == key@;
            assert(stored@[j]@ == key@);
        }
    }
    false
}

/// The keys to store: those not empty and not stored already.
pub fn new_keys(keys: &Vec<String>, stored: &Vec<String>) -> (r: Vec<String>)
    ensures
        strings_view(r@) == kept_keys(strings_view(keys@), strings_view(stored@), keys@.len() as int),
{
    let mut r: Vec<String> = Vec::new();
    let mut i: usize = 0;
    while i < keys.len()
        invariant
            i <= keys@.len(),
            strings_view(r@) == kept_keys(strings_view(keys@), strings_view(stored@), i as int),
        decreases keys@.len() - i,
    {
        let ghost before = strings_view(r@);
        assert(strings_view(keys@)[i as int] == keys@[i as int]@);
        if !keys[i].as_str().is_empty() && !is_stored(&keys[i], stored) {
            r.push(keys[i].clone());
            assert(strings_view(r@) =~= before.push(keys@[i as int]@));
        }
        i = i + 1;
    }
    r
}

/// The text that reports deleted keys.
pub fn deleted_keys_text(keys: &Vec<String>) -> (r: String)
    ensures
        r@ == DELETED_PREFIX@ + join(strings_view(keys@), ", "@),
{
    let mut r = DELETED_PREFIX.to_string();
    let joined = join_strings(keys, ", ");
    assert(keys@.map_values(|p: String| p@) =~= strings_view(keys@));
    r.append(joined.as_str());
    r
}

/// A response to message `message_id` of chat `chat_id` with the "Roll" keyboard.
pub open spec fn is_roll_base(b: BaseBody, chat_id: i64, message_id: i64) -> bool {
    b.chat_id == chat_id && b.reply_to_message_id == Some(message_id) && is_roll_markup(b.reply_markup)
}

/// The response that sends a stored answer back: its value in the message kind of
/// its content, with its description as caption where that kind has one.
pub open spec fn answers_with(r: ResponseMessage, e: AnswerEntity, chat_id: i64, message_id: i64) -> bool {
    match e.content_type {
        EntityContentType::Text => is_text_response(r, e.value@, chat_id, message_id) && is_roll_markup(
            r->Text_base_body.reply_markup,
        ),
        EntityContentType::Voice => r matches ResponseMessage::Voice { base_body, voice, caption }
            && is_roll_base(base_body, chat_id, message_id) && voice == e.value && caption == e.description,
        EntityContentType::Picture => r matches ResponseMessage::Photo { base_body, photo, caption }
            && is_roll_base(base_body, chat_id, message_id) && photo == e.value && caption == e.description,
        EntityContentType::Animation => r matches ResponseMessage::Animation { base_body, animation, caption }
            && is_roll_base(base_body, chat_id, message_id) && animation == e.value && caption == e.description,
        EntityContentType::Video => r matches ResponseMessage::Video { base_body, video, caption }
            && is_roll_base(base_body, chat_id, message_id) && video == e.value && caption == e.description,
        EntityContentType::VideoNote => r matches ResponseMessage::VideoNote { base_body, video_note }
            && is_roll_base(base_body, chat_id, message_id) && video_note == e.value,
        EntityContentType::Sticker => r matches ResponseMessage::Sticker { base_body, sticker }
            && is_roll_base(base_body, chat_id, message_id) && sticker == e.value,
        EntityContentType::Audio => r matches ResponseMessage::Audio { base_body, audio, caption }
            && is_roll_base(base_body, chat_id, message_id) && audio == e.value && caption == e.description,
        EntityContentType::Document => r matches ResponseMessage::Document { base_body, document, caption }
            && is_roll_base(base_body, chat_id, message_id) && document == e.value && caption == e.description,
    }
}

fn roll_base(chat_id: i64, message_id: i64) -> (r: BaseBody)
    ensures
        is_roll_base(r, chat_id, message_id),
{
    BaseBody { chat_id, reply_to_message_id: Some(message_id), reply_markup: roll_reply_markup() }
}

/// The response that sends a stored answer back.
pub fn answer_entity_response(entity: AnswerEntity, chat_id: i64, message_id: i64) -> (r: ResponseMessage)
    ensures
        answers_with(r, entity, chat_id, message_id),
{
    let base_body = roll_base(chat_id, message_id);
    match entity.content_type {
        EntityContentType::Text => text_message_with_roll(entity.value, chat_id, message_id),
        EntityContentType::Voice => ResponseMessage::Voice { base_body, voice: entity.value, caption: entity.description },
        EntityContentType::Picture => ResponseMessage::Photo { base_body, photo: entity.value, caption: entity.description },
        EntityContentType::Animation => ResponseMessage::Animation {
            base_body,
            animation: entity.value,
            caption: entity.description,
        },
        EntityContentType::Video => ResponseMessage::Video { base_body, video: entity.value, caption: entity.description },
        EntityContentType::VideoNote => ResponseMessage::VideoNote { base_body, video_note: entity.value },
        EntityContentType::Sticker => ResponseMessage::Sticker { base_body, sticker: entity.value },
        EntityContentType::Audio => ResponseMessage::Audio { base_body, audio: entity.value, caption: entity.description },
        EntityContentType::Document => ResponseMessage::Document {
            base_body,
            document: entity.value,
            caption: entity.description,
        },
    }
}

} // verus!
