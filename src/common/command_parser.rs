use vstd::prelude::*;

use crate::common::error::{ProcessError, ProcessErrorView};
use crate::common::lexer::{case_fold, fold_with, token_eq, tokenize, tokens_of, views, Token, TokenView};

verus! {

/// The commands the bot understands.
#[derive(Debug, Clone, Copy, PartialEq, Eq, Structural, Hash)]
pub enum Command {
    Help,
    Who,
    AnswerChance,
    Show,
    Add,
    Remember,
    Delete,
    Check,
    Say,
    Couple,
    Top,
    Channel,
    RandomChance,
    RandomChoose,
    GenerateNonsense,
    Morph,
    MorphDebug,
    Quote,
    Joke,
    Advice,
}

/// The kind of object a command acts on.
#[derive(Debug, Clone, Copy, PartialEq, Eq, Structural, Hash)]
pub enum ControlItem {
    Substring,
    Trigger,
    MorphWord,
    KeyWord,
}

/// How one command is called and what it asks of its input.
#[derive(Debug, Clone)]
pub struct CommandSetting<'a> {
    /// The names of the command; the first is the one shown to users.
    pub aliases: Vec<&'a str>,
    pub description: &'a str,
    pub split_values: bool,
    /// The objects the command accepts, if it acts on an object at all.
    pub available_control_items: Option<Vec<ControlItem>>,
    /// The object taken when none, or one not accepted, is named.
    pub default_control_item: Option<ControlItem>,
    pub required_value: bool,
    pub get_or_set_value: bool,
    pub required_reply: bool,
}

pub struct SettingView {
    pub aliases: Seq<Seq<char>>,
    pub description: Seq<char>,
    pub split_values: bool,
    pub available_control_items: Option<Seq<ControlItem>>,
    pub default_control_item: Option<ControlItem>,
    pub required_value: bool,
    pub get_or_set_value: bool,
    pub required_reply: bool,
}

impl<'a> View for CommandSetting<'a> {
    type V = SettingView;

    open spec fn view(&self) -> SettingView {
        SettingView {
            aliases: self.aliases@.map_values(|a: &'a str| a@),
            description: self.description@,
            split_values: self.split_values,
            available_control_items: match self.available_control_items {
                Some(v) => Some(v@),
                None => None,
            },
            default_control_item: self.default_control_item,
            required_value: self.required_value,
            get_or_set_value: self.get_or_set_value,
            required_reply: self.required_reply,
        }
    }
}

pub const HELP_DESCRIPTION: &'static str = "Получить информацию о том, \
    как пользоваться командами и ботом в целом.";

pub const WHO_DESCRIPTION: &'static str = "Случайно выбирает пользователя группы \
    и приписывает заданное значение к имени пользователя";

pub const ANSWER_CHANCE_DESCRIPTION: &'static str = "Показ и установка процента автоматического \
    срабатывания на сущности `бред` и `подстроки`. Чтобы показать значение - \
    достаточно вызвать команду и указать на какой из доступных объектов это показать, \
    без целочисленных параметров. Чтобы установить значение, \
    необходимо добавить параметр из целого числа от 0 до 100";

/// A command that acts on no object and keeps its value whole.
pub open spec fn simple_setting(aliases: Seq<Seq<char>>, required_value: bool, required_reply: bool) -> SettingView {
    SettingView {
        aliases,
        description: ""@,
        split_values: false,
        available_control_items: None,
        default_control_item: None,
        required_value,
        get_or_set_value: false,
        required_reply,
    }
}

/// The settings of every command.
pub open spec fn setting_spec(c: Command) -> SettingView {
    match c {
        Command::Help => SettingView {
            description: HELP_DESCRIPTION@,
            ..simple_setting(seq!["help"@, "хелп"@, "хлеп"@, "помощь"@], false, false)
        },
        Command::Who => SettingView {
            description: WHO_DESCRIPTION@,
            ..simple_setting(
                seq![
                    "кто"@, "кому"@, "кем"@, "с кем"@, "кого"@, "у кого"@, "про кого"@,
                    "о ком"@, "чьё"@, "чье"@, "чья"@, "чей"@, "who"@,
                ],
                false,
                false,
            )
        },
        Command::AnswerChance => SettingView {
            aliases: seq!["процент"@, "процент срабатывания"@],
            description: ANSWER_CHANCE_DESCRIPTION@,
            split_values: false,
            available_control_items: Some(seq![ControlItem::MorphWord, ControlItem::Substring]),
            default_control_item: Some(ControlItem::Substring),
            required_value: true,
            get_or_set_value: true,
            required_reply: false,
        },
        Command::Show => SettingView {
            aliases: seq!["покажи"@, "show"@],
            description: ""@,
            split_values: false,
            available_control_items: Some(
                seq![ControlItem::Trigger, ControlItem::MorphWord, ControlItem::Substring, ControlItem::KeyWord],
            ),
            default_control_item: Some(ControlItem::Substring),
            required_value: false,
            get_or_set_value: false,
            required_reply: true,
        },
        Command::Add => SettingView {
            aliases: seq!["добавь"@, "add"@],
            description: ""@,
            split_values: true,
            available_control_items: Some(seq![ControlItem::MorphWord]),
            default_control_item: None,
            required_value: true,
            get_or_set_value: false,
            required_reply: false,
        },
        Command::Remember => SettingView {
            aliases: seq!["запомни"@, "remember"@],
            description: ""@,
            split_values: true,
            available_control_items: Some(seq![ControlItem::Trigger, ControlItem::Substring]),
            default_control_item: Some(ControlItem::Substring),
            required_value: true,
            get_or_set_value: false,
            required_reply: true,
        },
        Command::Check => SettingView {
            aliases: seq!["проверь"@, "проверка"@, "check"@],
            description: ""@,
            split_values: false,
            available_control_items: Some(seq![ControlItem::Trigger, ControlItem::Substring]),
            default_control_item: Some(ControlItem::Substring),
            required_value: true,
            get_or_set_value: false,
            required_reply: false,
        },
        Command::Say => simple_setting(seq!["скажи"@, "say"@], true, false),
        Command::Delete => simple_setting(seq!["удали"@, "delete"@], false, true),
        Command::Couple => simple_setting(seq!["парочка"@, "пара"@, "couple"@], false, false),
        Command::Top => simple_setting(seq!["топ"@, "top"@], false, false),
        Command::Channel => simple_setting(seq!["канал"@, "channel"@, "all"@], false, false),
        Command::RandomChance => simple_setting(seq!["вероятность"@, "шанс"@, "chance"@], false, false),
        Command::RandomChoose => SettingView {
            split_values: true,
            ..simple_setting(seq!["выбери"@, "выбор"@, "choose"@], true, false)
        },
        Command::GenerateNonsense => simple_setting(seq!["бред"@, "давай"@, "nonsense"@], false, true),
        Command::Morph => simple_setting(seq!["морф"@, "морфируй"@, "morph"@], true, false),
        Command::MorphDebug => simple_setting(seq!["морф дебаг"@, "морфируй дебаг"@, "morph debug"@], true, false),
        Command::Quote => simple_setting(seq!["цит"@, "цитата"@, "quote"@], false, false),
        Command::Joke => simple_setting(seq!["анекдот"@, "анек"@, "joke"@], false, false),
        Command::Advice => simple_setting(seq!["совет"@, "advice"@], false, false),
    }
}

/// A command's settings hang together: it has a name; a list of accepted objects is
/// never empty; a default object comes only with such a list; and a command that
/// demands an object without a default has some way to be given one.
pub open spec fn setting_well_formed(s: SettingView) -> bool {
    &&& s.aliases.len() >= 1
    &&& s.available_control_items matches Some(items) ==> items.len() >= 1
    &&& s.default_control_item is Some ==> s.available_control_items is Some
    &&& (s.available_control_items is Some && s.default_control_item is None) ==> (s.required_value
        || s.required_reply || s.get_or_set_value)
}

fn simple(aliases: Vec<&'static str>, required_value: bool, required_reply: bool) -> (r: CommandSetting<'static>)
    ensures
        r@ == simple_setting(aliases@.map_values(|a: &'static str| a@), required_value, required_reply),
{
    CommandSetting {
        aliases,
        description: "",
        split_values: false,
        available_control_items: None,
        default_control_item: None,
        required_value,
        get_or_set_value: false,
        required_reply,
    }
}

/// The settings of one command.
pub fn command_setting(command: Command) -> (r: CommandSetting<'static>)
    ensures
        r@ == setting_spec(command),
{
    let r = match command {
        Command::Help => CommandSetting {
            description: HELP_DESCRIPTION,
            ..simple(vec!["help", "хелп", "хлеп", "помощь"], false, false)
        },
        Command::Who => CommandSetting {
            description: WHO_DESCRIPTION,
            ..simple(
                vec![
                    "кто", "кому", "кем", "с кем", "кого", "у кого", "про кого", "о ком", "чьё", "чье",
                    "чья", "чей", "who",
                ],
                false,
                false,
            )
        },
        Command::AnswerChance => CommandSetting {
            aliases: vec!["процент", "процент срабатывания"],
            description: ANSWER_CHANCE_DESCRIPTION,
            split_values: false,
            available_control_items: Some(vec![ControlItem::MorphWord, ControlItem::Substring]),
            default_control_item: Some(ControlItem::Substring),
            required_value: true,
            get_or_set_value: true,
            required_reply: false,
        },
        Command::Show => CommandSetting {
            aliases: vec!["покажи", "show"],
            description: "",
            split_values: false,
            available_control_items: Some(
                vec![ControlItem::Trigger, ControlItem::MorphWord, ControlItem::Substring, ControlItem::KeyWord],
            ),
            default_control_item: Some(ControlItem::Substring),
            required_value: false,
            get_or_set_value: false,
            required_reply: true,
        },
        Command::Add => CommandSetting {
            aliases: vec!["добавь", "add"],
            description: "",
            split_values: true,
            available_control_items: Some(vec![ControlItem::MorphWord]),
            default_control_item: None,
            required_value: true,
            get_or_set_value: false,
            required_reply: false,
        },
        Command::Remember => CommandSetting {
            aliases: vec!["запомни", "remember"],
            description: "",
            split_values: true,
            available_control_items: Some(vec![ControlItem::Trigger, ControlItem::Substring]),
            default_control_item: Some(ControlItem::Substring),
            required_value: true,
            get_or_set_value: false,
            required_reply: true,
        },
        Command::Check => CommandSetting {
            aliases: vec!["проверь", "проверка", "check"],
            description: "",
            split_values: false,
            available_control_items: Some(vec![ControlItem::Trigger, ControlItem::Substring]),
            default_control_item: Some(ControlItem::Substring),
            required_value: true,
            get_or_set_value: false,
            required_reply: false,
        },
        Command::Say => simple(vec!["скажи", "say"], true, false),
        Command::Delete => simple(vec!["удали", "delete"], false, true),
        Command::Couple => simple(vec!["парочка", "пара", "couple"], false, false),
        Command::Top => simple(vec!["топ", "top"], false, false),
        Command::Channel => simple(vec!["канал", "channel", "all"], false, false),
        Command::RandomChance => simple(vec!["вероятность", "шанс", "chance"], false, false),
        Command::RandomChoose => CommandSetting {
            split_values: true,
            ..simple(vec!["выбери", "выбор", "choose"], true, false)
        },
        Command::GenerateNonsense => simple(vec!["бред", "давай", "nonsense"], false, true),
        Command::Morph => simple(vec!["морф", "морфируй", "morph"], true, false),
        Command::MorphDebug => simple(vec!["морф дебаг", "морфируй дебаг", "morph debug"], true, false),
        Command::Quote => simple(vec!["цит", "цитата", "quote"], false, false),
        Command::Joke => simple(vec!["анекдот", "анек", "joke"], false, false),
        Command::Advice => simple(vec!["совет", "advice"], false, false),
    };
    assert(r@.aliases =~= setting_spec(command).aliases);
    assert(r@.available_control_items == setting_spec(command).available_control_items);
    r
}


/// Every command, in declaration order.
pub open spec fn all_commands() -> Seq<Command> {
    seq![
        Command::Help, Command::Who, Command::AnswerChance, Command::Show, Command::Add,
        Command::Remember, Command::Delete, Command::Check, Command::Say, Command::Couple,
        Command::Top, Command::Channel, Command::RandomChance, Command::RandomChoose,
        Command::GenerateNonsense, Command::Morph, Command::MorphDebug, Command::Quote,
        Command::Joke, Command::Advice,
    ]
}

/// Every command, in declaration order.
pub fn all_commands_vec() -> (r: Vec<Command>)
    ensures
        r@ == all_commands(),
{
    let r = vec![
        Command::Help, Command::Who, Command::AnswerChance, Command::Show, Command::Add,
        Command::Remember, Command::Delete, Command::Check, Command::Say, Command::Couple,
        Command::Top, Command::Channel, Command::RandomChance, Command::RandomChoose,
        Command::GenerateNonsense, Command::Morph, Command::MorphDebug, Command::Quote,
        Command::Joke, Command::Advice,
    ];
    assert(r@ =~= all_commands());
    r
}

/// The settings table is complete and every entry of it is well formed.
pub proof fn lemma_settings_well_formed(c: Command)
    ensures
        all_commands().contains(c),
        setting_well_formed(setting_spec(c)),
{
    let all = all_commands();
    match c {
        Command::Help => assert(all[0] == c),
        Command::Who => assert(all[1] == c),
        Command::AnswerChance => assert(all[2] == c),
        Command::Show => assert(all[3] == c),
        Command::Add => assert(all[4] == c),
        Command::Remember => assert(all[5] == c),
        Command::Delete => assert(all[6] == c),
        Command::Check => assert(all[7] == c),
        Command::Say => assert(all[8] == c),
        Command::Couple => assert(all[9] == c),
        Command::Top => assert(all[10] == c),
        Command::Channel => assert(all[11] == c),
        Command::RandomChance => assert(all[12] == c),
        Command::RandomChoose => assert(all[13] == c),
        Command::GenerateNonsense => assert(all[14] == c),
        Command::Morph => assert(all[15] == c),
        Command::MorphDebug => assert(all[16] == c),
        Command::Quote => assert(all[17] == c),
        Command::Joke => assert(all[18] == c),
        Command::Advice => assert(all[19] == c),
    }
}

/// The object a token names, if it names one.
pub open spec fn control_item_of(t: TokenView) -> Option<ControlItem> {
    let named = |w: Seq<char>| token_eq(TokenView::Word(w), t);
    if named("триггер"@) || named("триггеры"@) {
        Some(ControlItem::Trigger)
    } else if named("подстроку"@) || named("подстроки"@) || named("подстрок"@) {
        Some(ControlItem::Substring)
    } else if named("бред"@) || named("бреда"@) {
        Some(ControlItem::MorphWord)
    } else if named("ключ"@) || named("ключи"@) {
        Some(ControlItem::KeyWord)
    } else {
        None
    }
}

pub open spec fn control_item_name(c: ControlItem) -> Seq<char> {
    match c {
        ControlItem::Substring => "подстроки"@,
        ControlItem::Trigger => "триггеры"@,
        ControlItem::MorphWord => "бред"@,
        ControlItem::KeyWord => "ключи"@,
    }
}

impl ControlItem {
    /// The object that `token` names, if any.
    pub fn try_from_token(token: &Token) -> (r: Option<ControlItem>)
        ensures
            r == control_item_of(token@),
    {
        let t = *token;
        if Token::Word("триггер") == t || Token::Word("триггеры") == t {
            Some(ControlItem::Trigger)
        } else if Token::Word("подстроку") == t || Token::Word("подстроки") == t || Token::Word("подстрок") == t {
            Some(ControlItem::Substring)
        } else if Token::Word("бред") == t || Token::Word("бреда") == t {
            Some(ControlItem::MorphWord)
        } else if Token::Word("ключ") == t || Token::Word("ключи") == t {
            Some(ControlItem::KeyWord)
        } else {
            None
        }
    }

    /// The name shown to users.
    pub fn name(&self) -> (r: String)
        ensures
            r@ == control_item_name(*self),
    {
        match self {
            ControlItem::Substring => "подстроки".to_string(),
            ControlItem::Trigger => "триггеры".to_string(),
            ControlItem::MorphWord => "бред".to_string(),
            ControlItem::KeyWord => "ключи".to_string(),
        }
    }
}

/// Whether a token is one of the bot's wake-words, regardless of case.
pub open spec fn is_wake_word(t: TokenView) -> bool {
    ||| token_eq(TokenView::Word("хлеб"@), t)
    ||| token_eq(TokenView::Word("хлебушек"@), t)
    ||| token_eq(TokenView::Word("bread"@), t)
    ||| token_eq(TokenView::Word("bread_bot"@), t)
}

/// Whether `token` calls the bot.
pub fn is_bot_call(token: &Token) -> (r: bool)
    ensures
        r == is_wake_word(token@),
{
    let t = *token;
    Token::Word("хлеб") == t || Token::Word("хлебушек") == t || Token::Word("bread") == t
        || Token::Word("bread_bot") == t
}


/// The alias entries of one command: the command beside the tokens of each alias.
pub open spec fn alias_entries(c: Command) -> Seq<(Command, Seq<TokenView>)> {
    setting_spec(c).aliases.map_values(|a: Seq<char>| (c, tokens_of(a)))
}

/// The entries `per` gives for each of the commands `cs`, in order.
pub open spec fn entries_of(cs: Seq<Command>, per: spec_fn(Command) -> Seq<(Command, Seq<TokenView>)>) -> Seq<(Command, Seq<TokenView>)>
    decreases cs.len(),
{
    if cs.len() == 0 {
        seq![]
    } else {
        entries_of(cs.drop_last(), per) + per(cs.last())
    }
}

pub open spec fn per_command_aliases() -> spec_fn(Command) -> Seq<(Command, Seq<TokenView>)> {
    |c: Command| alias_entries(c)
}

/// Every alias of every command, tokenized, in declaration order.
pub open spec fn keyword_entries() -> Seq<(Command, Seq<TokenView>)> {
    entries_of(all_commands(), per_command_aliases())
}

/// The registry's list: every alias of every command, tokenized, in funnel order.
pub open spec fn funnel_entries() -> Seq<(Command, Seq<TokenView>)> {
    funnel(keyword_entries())
}

pub open spec fn keyword_views<'a>(v: Seq<(Command, Vec<Token<'a>>)>) -> Seq<(Command, Seq<TokenView>)> {
    v.map_values(|e: (Command, Vec<Token<'a>>)| (e.0, views(e.1@)))
}

/// Whether `alias` matches the tokens at the start of `rest`, token by token.
pub open spec fn alias_matches(rest: Seq<TokenView>, alias: Seq<TokenView>) -> bool {
    &&& alias.len() <= rest.len()
    &&& forall|i: int| 0 <= i < alias.len() ==> token_eq(#[trigger] rest[i], alias[i])
}

/// The entries among `kw[0..k]` whose alias has `l` tokens, in their order in `kw`.
pub open spec fn with_len(kw: Seq<(Command, Seq<TokenView>)>, l: int, k: int) -> Seq<(Command, Seq<TokenView>)>
    decreases k,
{
    if k <= 0 {
        seq![]
    } else if kw[k - 1].1.len() == l {
        with_len(kw, l, k - 1).push(kw[k - 1])
    } else {
        with_len(kw, l, k - 1)
    }
}

/// The token count of the longest alias among `kw[0..k]`.
pub open spec fn max_len(kw: Seq<(Command, Seq<TokenView>)>, k: int) -> int
    decreases k,
{
    if k <= 0 {
        0
    } else if kw[k - 1].1.len() > max_len(kw, k - 1) {
        kw[k - 1].1.len() as int
    } else {
        max_len(kw, k - 1)
    }
}

/// The entries of `kw` whose alias has from `lo` to `hi` tokens: longer aliases
/// first, equally long ones in their order in `kw`.
pub open spec fn funnel_between(kw: Seq<(Command, Seq<TokenView>)>, hi: int, lo: int) -> Seq<(Command, Seq<TokenView>)>
    decreases hi + 1 - lo,
{
    if lo > hi {
        seq![]
    } else {
        funnel_between(kw, hi, lo + 1) + with_len(kw, lo, kw.len() as int)
    }
}

/// Funnel order: the entries of `kw` sorted by the token count of their alias,
/// longest first, entries of equal count in their order in `kw`.
pub open spec fn funnel(kw: Seq<(Command, Seq<TokenView>)>) -> Seq<(Command, Seq<TokenView>)> {
    funnel_between(kw, max_len(kw, kw.len() as int), 0)
}

/// No alias is longer than one before it.
pub open spec fn is_descending(s: Seq<(Command, Seq<TokenView>)>) -> bool {
    forall|i: int, j: int| 0 <= i < j < s.len() ==> (#[trigger] s[i]).1.len() >= (#[trigger] s[j]).1.len()
}

proof fn lemma_with_len_lengths(kw: Seq<(Command, Seq<TokenView>)>, l: int, k: int)
    ensures
        forall|i: int| 0 <= i < with_len(kw, l, k).len() ==> (#[trigger] with_len(kw, l, k)[i]).1.len() == l,
    decreases k,
{
    if k > 0 {
        lemma_with_len_lengths(kw, l, k - 1);
        let prev = with_len(kw, l, k - 1);
        if kw[k - 1].1.len() == l {
            assert forall|i: int| 0 <= i < prev.push(kw[k - 1]).len() implies (#[trigger] prev.push(kw[k - 1])[i]).1.len() == l by {
                if i < prev.len() {
                    assert(prev.push(kw[k - 1])[i] == prev[i]);
                }
            }
        }
    }
}

proof fn lemma_funnel_between_descending(kw: Seq<(Command, Seq<TokenView>)>, hi: int, lo: int)
    ensures
        is_descending(funnel_between(kw, hi, lo)),
        forall|i: int| 0 <= i < funnel_between(kw, hi, lo).len() ==> (#[trigger] funnel_between(kw, hi, lo)[i]).1.len() >= lo,
    decreases hi + 1 - lo,
{
    if lo <= hi {
        lemma_funnel_between_descending(kw, hi, lo + 1);
        lemma_with_len_lengths(kw, lo, kw.len() as int);
        let a = funnel_between(kw, hi, lo + 1);
        let b = with_len(kw, lo, kw.len() as int);
        let s = a + b;
        assert forall|i: int, j: int| 0 <= i < j < s.len() implies (#[trigger] s[i]).1.len() >= (#[trigger] s[j]).1.len() by {
            if j < a.len() {
                assert(s[i] == a[i] && s[j] == a[j]);
            } else if i < a.len() {
                assert(s[i] == a[i] && s[j] == b[j - a.len()]);
            } else {
                assert(s[i] == b[i - a.len()] && s[j] == b[j - a.len()]);
            }
        }
        assert forall|i: int| 0 <= i < s.len() implies (#[trigger] s[i]).1.len() >= lo by {
            if i < a.len() {
                assert(s[i] == a[i]);
            } else {
                assert(s[i] == b[i - a.len()]);
            }
        }
    }
}

/// A list in funnel order has no alias longer than one before it.
pub proof fn lemma_funnel_descending(kw: Seq<(Command, Seq<TokenView>)>)
    ensures
        is_descending(funnel(kw)),
{
    lemma_funnel_between_descending(kw, max_len(kw, kw.len() as int), 0);
}

/// The position of the first entry of `fl[i..]` whose alias matches the start of `rest`.
pub open spec fn first_match(fl: Seq<(Command, Seq<TokenView>)>, rest: Seq<TokenView>, i: int) -> Option<int>
    decreases fl.len() - i,
{
    if i < 0 || i >= fl.len() {
        None
    } else if alias_matches(rest, fl[i].1) {
        Some(i)
    } else {
        first_match(fl, rest, i + 1)
    }
}

/// The command of the first entry of `fl` whose alias matches the start of `rest`,
/// and the number of tokens that alias takes.
pub open spec fn found_command(fl: Seq<(Command, Seq<TokenView>)>, rest: Seq<TokenView>) -> Option<(Command, int)> {
    match first_match(fl, rest, 0) {
        Some(i) => Some((fl[i].0, fl[i].1.len() as int)),
        None => None,
    }
}

/// In a list in funnel order the first matching alias is a longest one: it
/// matches, no matching entry after it is longer and none before it matches.
pub proof fn lemma_first_match_is_longest(fl: Seq<(Command, Seq<TokenView>)>, rest: Seq<TokenView>, i: int)
    requires
        is_descending(fl),
        0 <= i <= fl.len(),
    ensures
        first_match(fl, rest, i) matches Some(m) ==> {
            &&& i <= m < fl.len()
            &&& alias_matches(rest, fl[m].1)
            &&& forall|j: int| i <= j < fl.len() && alias_matches(rest, #[trigger] fl[j].1) ==> fl[j].1.len() <= fl[m].1.len()
            &&& forall|j: int| i <= j < m ==> !alias_matches(rest, #[trigger] fl[j].1)
        },
        first_match(fl, rest, i) is None ==> forall|j: int| i <= j < fl.len() ==> !alias_matches(rest, #[trigger] fl[j].1),
    decreases fl.len() - i,
{
    if i < fl.len() {
        lemma_first_match_is_longest(fl, rest, i + 1);
        if alias_matches(rest, fl[i].1) {
            assert forall|j: int| i <= j < fl.len() && alias_matches(rest, #[trigger] fl[j].1) implies fl[j].1.len() <= fl[i].1.len() by {
                if i < j {
                    assert(fl[i].1.len() >= fl[j].1.len());
                }
            }
        }
    }
}

/// The alias registry: every alias of every command, tokenized once.
pub struct CommandRegistry {
    keywords: Vec<(Command, Vec<Token<'static>>)>,
}

impl CommandRegistry {
    /// The registry's alias entries, in the order they were registered.
    pub closed spec fn entries(&self) -> Seq<(Command, Seq<TokenView>)> {
        keyword_views(self.keywords@)
    }

    /// The registry holds every alias of every command, in funnel order.
    pub open spec fn wf(&self) -> bool {
        self.entries() == funnel_entries()
    }

    /// A registry of the given alias entries.
    pub fn from_keywords(keywords: Vec<(Command, Vec<Token<'static>>)>) -> (r: CommandRegistry)
        ensures
            r.entries() == keyword_views(keywords@),
    {
        CommandRegistry { keywords }
    }

    /// Tokenizes every alias of every command.
    pub fn new() -> (r: CommandRegistry)
        ensures
            r.wf(),
    {
        CommandRegistry { keywords: command_keywords() }
    }

    /// The command whose alias opens `tokens`, the tokens of that alias and the tokens
    /// after it: the first matching entry of the registry's list. In a registry in
    /// funnel order that is the longest matching alias, the first of equally long ones.
    pub fn find<'a>(&self, tokens: &'a [Token<'a>]) -> (r: Option<(&'a Command, &'a [Token<'a>], &'a [Token<'a>])>)
        ensures
            match found_command(self.entries(), views(tokens@)) {
                None => r is None,
                Some((c, len)) => r matches Some((rc, alias, rest)) && *rc == c
                    && views(alias@) == views(tokens@).take(len) && views(rest@) == views(tokens@).skip(len),
            },
    {
        let ghost fl = self.entries();
        let ghost tv = views(tokens@);
        let n = self.keywords.len();
        let mut i: usize = 0;
        while i < n
            invariant
                fl == self.entries(),
                tv == views(tokens@),
                n == self.keywords@.len(),
                i <= n,
                first_match(fl, tv, 0) == first_match(fl, tv, i as int),
            decreases n - i,
        {
            let alias = &self.keywords[i].1;
            assert(fl[i as int].1 == views(alias@));
            if prefix_matches(tokens, alias) {
                let len = alias.len();
                let found = &tokens[0..len];
                let rest = &tokens[len..tokens.len()];
                assert(views(found@) =~= tv.take(len as int));
                assert(views(rest@) =~= tv.skip(len as int));
                assert(fl[i as int].0 == self.keywords@[i as int].0);
                return Some((command_ref(self.keywords[i].0), found, rest));
            }
            i = i + 1;
        }
        None
    }
}

/// Whether `alias` matches `tokens` at their start.
fn prefix_matches(tokens: &[Token], alias: &Vec<Token>) -> (r: bool)
    ensures
        r == alias_matches(views(tokens@), views(alias@)),
{
    if alias.len() > tokens.len() {
        return false;
    }
    let mut i: usize = 0;
    while i < alias.len()
        invariant
            alias@.len() <= tokens@.len(),
            i <= alias@.len(),
            forall|j: int| 0 <= j < i ==> token_eq(#[trigger] views(tokens@)[j], views(alias@)[j]),
        decreases alias@.len() - i,
    {
        if !(tokens[i] == alias[i]) {
            assert(!token_eq(views(tokens@)[i as int], views(alias@)[i as int]));
            return false;
        }
        i = i + 1;
    }
    true
}

/// A reference that lives as long as the program to a command.
fn command_ref(c: Command) -> (r: &'static Command)
    ensures
        *r == c,
{
    match c {
        Command::Help => &Command::Help,
        Command::Who => &Command::Who,
        Command::AnswerChance => &Command::AnswerChance,
        Command::Show => &Command::Show,
        Command::Add => &Command::Add,
        Command::Remember => &Command::Remember,
        Command::Delete => &Command::Delete,
        Command::Check => &Command::Check,
        Command::Say => &Command::Say,
        Command::Couple => &Command::Couple,
        Command::Top => &Command::Top,
        Command::Channel => &Command::Channel,
        Command::RandomChance => &Command::RandomChance,
        Command::RandomChoose => &Command::RandomChoose,
        Command::GenerateNonsense => &Command::GenerateNonsense,
        Command::Morph => &Command::Morph,
        Command::MorphDebug => &Command::MorphDebug,
        Command::Quote => &Command::Quote,
        Command::Joke => &Command::Joke,
        Command::Advice => &Command::Advice,
    }
}

/// Every alias of every command beside its command, tokenized, in declaration order.
fn registered_keywords() -> (r: Vec<(Command, Vec<Token<'static>>)>)
    ensures
        keyword_views(r@) == keyword_entries(),
{
    let commands = all_commands_vec();
    let mut r: Vec<(Command, Vec<Token<'static>>)> = Vec::new();
    let mut k: usize = 0;
    assert(keyword_views(r@) =~= entries_of(all_commands().take(0), per_command_aliases()));
    while k < commands.len()
        invariant
            commands@ == all_commands(),
            k <= commands@.len(),
            keyword_views(r@) == entries_of(all_commands().take(k as int), per_command_aliases()),
        decreases commands@.len() - k,
    {
        let c = commands[k];
        let setting = command_setting(c);
        let ghost before = keyword_views(r@);
        let mut j: usize = 0;
        assert(before + alias_entries(c).take(0) =~= before);
        while j < setting.aliases.len()
            invariant
                setting@ == setting_spec(c),
                j <= setting.aliases@.len(),
                keyword_views(r@) == before + alias_entries(c).take(j as int),
            decreases setting.aliases@.len() - j,
        {
            let toks = tokenize(setting.aliases[j]);
            let ghost old_r = r@;
            r.push((c, toks));
            assert(setting@.aliases[j as int] == setting.aliases@[j as int]@);
            assert(alias_entries(c)[j as int] == (c, views(toks@)));
            assert(keyword_views(r@) =~= keyword_views(old_r).push((c, views(toks@))));
            assert(alias_entries(c).take(j + 1) =~= alias_entries(c).take(j as int).push((c, views(toks@))));
            assert(keyword_views(r@) =~= before + alias_entries(c).take(j + 1));
            j = j + 1;
        }
        assert(alias_entries(c).take(j as int) =~= alias_entries(c));
        assert(all_commands().take(k + 1).drop_last() =~= all_commands().take(k as int));
        k = k + 1;
    }
    assert(all_commands().take(k as int) =~= all_commands());
    r
}

fn copy_tokens<'a>(v: &Vec<Token<'a>>) -> (r: Vec<Token<'a>>)
    ensures
        r@ == v@,
{
    let mut r: Vec<Token<'a>> = Vec::new();
    let mut i: usize = 0;
    while i < v.len()
        invariant
            i <= v@.len(),
            r@ == v@.take(i as int),
        decreases v@.len() - i,
    {
        r.push(v[i]);
        i = i + 1;
        assert(r@ =~= v@.take(i as int));
    }
    assert(v@.take(i as int) =~= v@);
    r
}

fn longest_alias<'a>(kw: &Vec<(Command, Vec<Token<'a>>)>) -> (r: usize)
    ensures
        r == max_len(keyword_views(kw@), kw@.len() as int),
{
    let ghost v = keyword_views(kw@);
    let mut m: usize = 0;
    let mut i: usize = 0;
    while i < kw.len()
        invariant
            v == keyword_views(kw@),
            i <= kw@.len(),
            m == max_len(v, i as int),
        decreases kw@.len() - i,
    {
        assert(v[i as int].1.len() == kw@[i as int].1@.len());
        if kw[i].1.len() > m {
            m = kw[i].1.len();
        }
        i = i + 1;
    }
    m
}

/// The entries of `kw` in funnel order: longest alias first, equally long ones in
/// their order in `kw`.
pub(crate) fn funnel_order<'a>(kw: &Vec<(Command, Vec<Token<'a>>)>) -> (r: Vec<(Command, Vec<Token<'a>>)>)
    ensures
        keyword_views(r@) == funnel(keyword_views(kw@)),
{
    let ghost v = keyword_views(kw@);
    let top = longest_alias(kw);
    let mut r: Vec<(Command, Vec<Token<'a>>)> = Vec::new();
    let mut l: usize = top;
    let mut more = true;
    assert(keyword_views(r@) =~= funnel_between(v, top as int, top + 1));
    while more
        invariant
            v == keyword_views(kw@),
            l <= top,
            more ==> keyword_views(r@) == funnel_between(v, top as int, l + 1),
            !more ==> keyword_views(r@) == funnel(v),
            top == max_len(v, v.len() as int),
        decreases l + (if more { 1int } else { 0int }),
    {
        let ghost base = keyword_views(r@);
        let mut i: usize = 0;
        assert(base + with_len(v, l as int, 0) =~= base);
        while i < kw.len()
            invariant
                v == keyword_views(kw@),
                i <= kw@.len(),
                keyword_views(r@) == base + with_len(v, l as int, i as int),
            decreases kw@.len() - i,
        {
            let ghost old_r = r@;
            assert(v[i as int] == (kw@[i as int].0, views(kw@[i as int].1@)));
            if kw[i].1.len() == l {
                let toks = copy_tokens(&kw[i].1);
                r.push((kw[i].0, toks));
                assert(keyword_views(r@) =~= keyword_views(old_r).push(v[i as int]));
            }
            i = i + 1;
            assert(keyword_views(r@) =~= base + with_len(v, l as int, i as int));
        }
        assert(funnel_between(v, top as int, l as int) == funnel_between(v, top as int, l + 1) + with_len(
            v,
            l as int,
            v.len() as int,
        ));
        if l == 0 {
            more = false;
        } else {
            l = l - 1;
        }
    }
    r
}

/// Every alias of every command beside its command, tokenized, in funnel order:
/// aliases of more tokens first, those of equal count in declaration order.
pub fn command_keywords() -> (r: Vec<(Command, Vec<Token<'static>>)>)
    ensures
        keyword_views(r@) == funnel_entries(),
        is_descending(keyword_views(r@)),
{
    let r = funnel_order(&registered_keywords());
    proof {
        lemma_funnel_descending(keyword_entries());
    }
    r
}

/// Where `tokens` opens with an alias of a command: that command, the tokens of the
/// alias and the tokens after it. It builds a registry for the one call; to read many
/// messages, build a `CommandRegistry` once and call `find` on it.
pub fn find_command<'a>(tokens: &'a [Token<'a>]) -> (r: Option<(&'a Command, &'a [Token<'a>], &'a [Token<'a>])>)
    ensures
        match found_command(funnel_entries(), views(tokens@)) {
            None => r is None,
            Some((c, len)) => r matches Some((rc, alias, rest)) && *rc == c
                && views(alias@) == views(tokens@).take(len) && views(rest@) == views(tokens@).skip(len),
        },
{
    let registry = CommandRegistry::new();
    registry.find(tokens)
}


pub const REPLY_REQUIRED: &'static str = "Необходимо выбрать сообщение в ответ";

pub const TARGET_REQUIRED: &'static str = "Необходимо указать объект для редактирования";

pub const TARGET_INVALID: &'static str = "Указан недопустимый объект для редактирования";

pub const VALUE_REQUIRED: &'static str = "Необходимо указать значения";

/// A resolved command call.
#[derive(Debug)]
pub struct CommandContainer<'a> {
    pub command: &'a Command,
    /// The tokens of the alias the command was called by.
    pub command_aliases: &'a [Token<'a>],
    pub control_item: Option<&'a ControlItem>,
    pub split_values: bool,
    /// The tokens after the alias and the object, if one was named.
    pub rest: &'a [Token<'a>],
}

pub struct ContainerView {
    pub command: Command,
    pub command_aliases: Seq<TokenView>,
    pub control_item: Option<ControlItem>,
    pub split_values: bool,
    pub rest: Seq<TokenView>,
}

impl<'a> View for CommandContainer<'a> {
    type V = ContainerView;

    open spec fn view(&self) -> ContainerView {
        ContainerView {
            command: *self.command,
            command_aliases: views(self.command_aliases@),
            control_item: match self.control_item {
                Some(c) => Some(*c),
                None => None,
            },
            split_values: self.split_values,
            rest: views(self.rest@),
        }
    }
}

/// Two token sequences agree token by token.
pub open spec fn tokens_agree(a: Seq<TokenView>, b: Seq<TokenView>) -> bool {
    a.len() == b.len() && forall|i: int| 0 <= i < a.len() ==> token_eq(#[trigger] a[i], b[i])
}

/// Two resolved calls agree field by field, tokens compared as tokens.
pub open spec fn containers_agree(a: ContainerView, b: ContainerView) -> bool {
    &&& a.command == b.command
    &&& a.control_item == b.control_item
    &&& a.split_values == b.split_values
    &&& tokens_agree(a.command_aliases, b.command_aliases)
    &&& tokens_agree(a.rest, b.rest)
}

pub(crate) fn slices_agree(a: &[Token], b: &[Token]) -> (r: bool)
    ensures
        r == tokens_agree(views(a@), views(b@)),
{
    if a.len() != b.len() {
        return false;
    }
    let mut i: usize = 0;
    while i < a.len()
        invariant
            a@.len() == b@.len(),
            i <= a@.len(),
            forall|j: int| 0 <= j < i ==> token_eq(#[trigger] views(a@)[j], views(b@)[j]),
        decreases a@.len() - i,
    {
        if !(a[i] == b[i]) {
            assert(!token_eq(views(a@)[i as int], views(b@)[i as int]));
            return false;
        }
        i = i + 1;
    }
    true
}

impl<'a> PartialEq for CommandContainer<'a> {
    fn eq(&self, other: &CommandContainer<'a>) -> (r: bool)
        ensures
            r == containers_agree(self@, other@),
    {
        let control_item_equal = match (self.control_item, other.control_item) {
            (Some(a), Some(b)) => *a == *b,
            (None, None) => true,
            _ => false,
        };
        *self.command == *other.command && control_item_equal && self.split_values == other.split_values
            && slices_agree(self.command_aliases, other.command_aliases) && slices_agree(self.rest, other.rest)
    }
}

impl<'a> vstd::std_specs::cmp::PartialEqSpecImpl for CommandContainer<'a> {
    open spec fn obeys_eq_spec() -> bool {
        true
    }

    open spec fn eq_spec(&self, other: &CommandContainer<'a>) -> bool {
        containers_agree(self@, other@)
    }
}

/// The object and remaining tokens when the first token of `rest` names no object.
pub open spec fn without_named_item(s: SettingView, rest: Seq<TokenView>) -> Result<(Option<ControlItem>, Seq<TokenView>), ProcessErrorView> {
    match (s.available_control_items, s.default_control_item) {
        (Some(_), None) => Err(ProcessErrorView::Feedback(TARGET_REQUIRED@)),
        (Some(_), Some(d)) => Ok((Some(d), rest)),
        _ => Ok((None, rest)),
    }
}

/// The object and remaining tokens when the first token of `rest` names `item`.
pub open spec fn with_named_item(s: SettingView, item: ControlItem, rest: Seq<TokenView>) -> Result<(Option<ControlItem>, Seq<TokenView>), ProcessErrorView> {
    match s.available_control_items {
        None => match s.default_control_item {
            None => Ok((None, rest)),
            Some(_) => Ok((Some(item), rest.drop_first())),
        },
        Some(items) => if items.contains(item) {
            Ok((Some(item), rest.drop_first()))
        } else {
            match s.default_control_item {
                Some(d) => Ok((Some(d), rest.drop_first())),
                None => Err(ProcessErrorView::Feedback(TARGET_INVALID@)),
            }
        },
    }
}

/// The object a command acts on, and the tokens left after it.
pub open spec fn resolve_item(s: SettingView, rest: Seq<TokenView>) -> Result<(Option<ControlItem>, Seq<TokenView>), ProcessErrorView> {
    if rest.len() > 0 && control_item_of(rest[0]) is Some {
        with_named_item(s, control_item_of(rest[0])->0, rest)
    } else {
        without_named_item(s, rest)
    }
}

/// Checks the preconditions of command `c`, called by the alias tokens `alias` and
/// followed by `rest`: a reply where one is required, then the object, then a value.
pub open spec fn settle(c: Command, alias: Seq<TokenView>, rest: Seq<TokenView>, has_reply: bool) -> Result<ContainerView, ProcessErrorView> {
    let s = setting_spec(c);
    if s.required_reply && !has_reply {
        Err(ProcessErrorView::Feedback(REPLY_REQUIRED@))
    } else {
        match resolve_item(s, rest) {
            Err(e) => Err(e),
            Ok((item, left)) => if left.len() == 0 && s.required_value && !s.get_or_set_value {
                Err(ProcessErrorView::Feedback(VALUE_REQUIRED@))
            } else {
                Ok(ContainerView { command: c, command_aliases: alias, control_item: item, split_values: s.split_values, rest: left })
            },
        }
    }
}

/// What a message of tokens `tokens` resolves to: `Next` unless it opens with a
/// wake-word followed by an alias, else the outcome of the command's checks.
pub open spec fn resolve_spec(tokens: Seq<TokenView>, has_reply: bool) -> Result<ContainerView, ProcessErrorView> {
    if tokens.len() == 0 || !is_wake_word(tokens[0]) {
        Err(ProcessErrorView::Next)
    } else {
        let after = tokens.drop_first();
        match found_command(funnel_entries(), after) {
            None => Err(ProcessErrorView::Next),
            Some((c, len)) => settle(c, after.take(len), after.skip(len), has_reply),
        }
    }
}

pub open spec fn result_view<'a>(r: Result<CommandContainer<'a>, ProcessError<'a>>) -> Result<ContainerView, ProcessErrorView> {
    match r {
        Ok(c) => Ok(c@),
        Err(e) => Err(e@),
    }
}

pub open spec fn item_result_view<'a>(r: Result<(Option<&'a ControlItem>, &'a [Token<'a>]), ProcessError<'a>>) -> Result<(Option<ControlItem>, Seq<TokenView>), ProcessErrorView> {
    match r {
        Ok((Some(c), rest)) => Ok((Some(*c), views(rest@))),
        Ok((None, rest)) => Ok((None, views(rest@))),
        Err(e) => Err(e@),
    }
}

fn control_item_ref(c: ControlItem) -> (r: &'static ControlItem)
    ensures
        *r == c,
{
    match c {
        ControlItem::Substring => &ControlItem::Substring,
        ControlItem::Trigger => &ControlItem::Trigger,
        ControlItem::MorphWord => &ControlItem::MorphWord,
        ControlItem::KeyWord => &ControlItem::KeyWord,
    }
}

fn item_listed(items: &Vec<ControlItem>, item: ControlItem) -> (r: bool)
    ensures
        r == items@.contains(item),
{
    let mut i: usize = 0;
    while i < items.len()
        invariant
            i <= items@.len(),
            forall|j: int| 0 <= j < i ==> items@[j] != item,
        decreases items@.len() - i,
    {
        if items[i] == item {
            return true;
        }
        i = i + 1;
    }
    false
}

/// The object when the first token of `rest` names none.
fn negative_control_item_settings<'a>(settings: &CommandSetting, rest: &'a [Token<'a>]) -> (r: Result<(Option<&'a ControlItem>, &'a [Token<'a>]), ProcessError<'a>>)
    ensures
        item_result_view(r) == without_named_item(settings@, views(rest@)),
{
    match (&settings.available_control_items, settings.default_control_item) {
        (Some(_), None) => Err(ProcessError::Feedback { message: TARGET_REQUIRED }),
        (Some(_), Some(d)) => Ok((Some(control_item_ref(d)), rest)),
        _ => Ok((None, rest)),
    }
}

/// The object when the first token of `rest` names `control_item`.
fn positive_control_item_settings<'a>(settings: &CommandSetting, control_item: ControlItem, rest: &'a [Token<'a>]) -> (r: Result<(Option<&'a ControlItem>, &'a [Token<'a>]), ProcessError<'a>>)
    requires
        rest@.len() > 0,
    ensures
        item_result_view(r) == with_named_item(settings@, control_item, views(rest@)),
{
    let after = &rest[1..rest.len()];
    assert(views(after@) =~= views(rest@).drop_first());
    match &settings.available_control_items {
        None => match settings.default_control_item {
            None => Ok((None, rest)),
            Some(_) => Ok((Some(control_item_ref(control_item)), after)),
        },
        Some(items) => if item_listed(items, control_item) {
            Ok((Some(control_item_ref(control_item)), after))
        } else {
            match settings.default_control_item {
                Some(d) => Ok((Some(control_item_ref(d)), after)),
                None => Err(ProcessError::Feedback { message: TARGET_INVALID }),
            }
        },
    }
}

impl CommandRegistry {
    /// Resolves a message's tokens to a command call, checking the command's
    /// preconditions in order: reply, object, value.
    pub fn resolve<'a>(&self, tokens: &'a [Token<'a>], has_reply: bool) -> (r: Result<CommandContainer<'a>, ProcessError<'a>>)
        requires
            self.wf(),
        ensures
            result_view(r) == resolve_spec(views(tokens@), has_reply),
    {
        if tokens.len() == 0 || !is_bot_call(&tokens[0]) {
            return Err(ProcessError::Next);
        }
        let after = &tokens[1..tokens.len()];
        assert(views(after@) =~= views(tokens@).drop_first());
        match self.find(after) {
            None => Err(ProcessError::Next),
            Some((command, command_aliases, rest_after_command)) => {
                let settings = command_setting(*command);
                if settings.required_reply && !has_reply {
                    return Err(ProcessError::Feedback { message: REPLY_REQUIRED });
                }
                let item = if rest_after_command.len() == 0 {
                    negative_control_item_settings(&settings, rest_after_command)
                } else {
                    match ControlItem::try_from_token(&rest_after_command[0]) {
                        None => negative_control_item_settings(&settings, rest_after_command),
                        Some(control_item) => positive_control_item_settings(&settings, control_item, rest_after_command),
                    }
                };
                match item {
                    Err(e) => Err(e),
                    Ok((control_item, rest)) => {
                        if rest.len() == 0 && settings.required_value && !settings.get_or_set_value {
                            Err(ProcessError::Feedback { message: VALUE_REQUIRED })
                        } else {
                            Ok(CommandContainer {
                                command,
                                command_aliases,
                                control_item,
                                split_values: settings.split_values,
                                rest,
                            })
                        }
                    },
                }
            },
        }
    }
}

/// Resolves a message's tokens to a command call: `Next` where the message does not
/// call the bot or names no command, `Feedback` where the command's preconditions
/// fail, else the call. It builds a registry for the one call; to read many messages,
/// build a `CommandRegistry` once and call `resolve` on it.
pub fn parse_command<'a>(tokens: &'a [Token<'a>], has_reply: bool) -> (r: Result<CommandContainer<'a>, ProcessError<'a>>)
    ensures
        result_view(r) == resolve_spec(views(tokens@), has_reply),
{
    let registry = CommandRegistry::new();
    registry.resolve(tokens, has_reply)
}


/// The command a message calls and the number of tokens its alias takes, where the
/// message opens with a wake-word followed by an alias.
pub open spec fn call_of(tokens: Seq<TokenView>) -> Option<(Command, int)> {
    if tokens.len() == 0 || !is_wake_word(tokens[0]) {
        None
    } else {
        found_command(funnel_entries(), tokens.drop_first())
    }
}

/// The tokens after the alias of the command a message calls.
pub open spec fn after_alias(tokens: Seq<TokenView>, len: int) -> Seq<TokenView> {
    tokens.drop_first().skip(len)
}

/// A message whose first token is not a wake-word, or that has no token at all, is
/// not for the bot: it resolves to `Next`, whatever follows.
pub proof fn law_not_addressed_is_next(tokens: Seq<TokenView>, has_reply: bool)
    requires
        tokens.len() == 0 || !is_wake_word(tokens[0]),
    ensures
        resolve_spec(tokens, has_reply) == Err::<ContainerView, ProcessErrorView>(ProcessErrorView::Next),
{
}

/// A command that needs a reply, called without one, gives feedback asking for the
/// reply, whatever tokens follow its alias.
pub proof fn law_reply_required(tokens: Seq<TokenView>, c: Command, len: int)
    requires
        call_of(tokens) == Some((c, len)),
        setting_spec(c).required_reply,
    ensures
        resolve_spec(tokens, false) == Err::<ContainerView, ProcessErrorView>(ProcessErrorView::Feedback(REPLY_REQUIRED@)),
{
}

/// A command with a default object, followed by no token that names an object,
/// resolves to that default and keeps every token after its alias; where it needs
/// no reply or has one, and needs no value or has tokens left for it.
pub proof fn law_default_item_when_none_named(tokens: Seq<TokenView>, c: Command, len: int, has_reply: bool)
    requires
        call_of(tokens) == Some((c, len)),
        setting_spec(c).default_control_item is Some,
        after_alias(tokens, len).len() == 0 || control_item_of(after_alias(tokens, len)[0]) is None,
        has_reply || !setting_spec(c).required_reply,
        after_alias(tokens, len).len() > 0 || !setting_spec(c).required_value || setting_spec(c).get_or_set_value,
    ensures
        (resolve_spec(tokens, has_reply) matches Ok(v) && v.command == c
            && v.control_item == setting_spec(c).default_control_item && v.rest == after_alias(tokens, len)),
{
    lemma_settings_well_formed(c);
}

/// A token naming an object the command does not accept is consumed and replaced by
/// the command's default object; without a default the call gives feedback that the
/// object is not accepted. The reply and value checks stand as before.
pub proof fn law_rejected_item(tokens: Seq<TokenView>, c: Command, len: int, has_reply: bool, item: ControlItem)
    requires
        call_of(tokens) == Some((c, len)),
        after_alias(tokens, len).len() > 0,
        control_item_of(after_alias(tokens, len)[0]) == Some(item),
        setting_spec(c).available_control_items matches Some(items) && !items.contains(item),
        has_reply || !setting_spec(c).required_reply,
    ensures
        setting_spec(c).default_control_item matches Some(d) ==> ((
            after_alias(tokens, len).len() > 1 || !setting_spec(c).required_value || setting_spec(c).get_or_set_value
        ) ==> (resolve_spec(tokens, has_reply) matches Ok(v) && v.control_item == Some(d)
            && v.rest == after_alias(tokens, len).drop_first())),
        setting_spec(c).default_control_item is None ==> resolve_spec(tokens, has_reply)
            == Err::<ContainerView, ProcessErrorView>(ProcessErrorView::Feedback(TARGET_INVALID@)),
{
}

/// A command that needs a value and has no tokens left once its object is settled
/// gives feedback asking for a value; with tokens left the call succeeds.
pub proof fn law_value_required(tokens: Seq<TokenView>, c: Command, len: int, has_reply: bool)
    requires
        call_of(tokens) == Some((c, len)),
        setting_spec(c).required_value,
        !setting_spec(c).get_or_set_value,
        has_reply || !setting_spec(c).required_reply,
        resolve_item(setting_spec(c), after_alias(tokens, len)) is Ok,
    ensures
        ({
            let left = resolve_item(setting_spec(c), after_alias(tokens, len))->Ok_0.1;
            &&& left.len() == 0 ==> resolve_spec(tokens, has_reply)
                == Err::<ContainerView, ProcessErrorView>(ProcessErrorView::Feedback(VALUE_REQUIRED@))
            &&& left.len() > 0 ==> (resolve_spec(tokens, has_reply) matches Ok(v) && v.command == c && v.rest == left)
        }),
{
}


proof fn lemma_alias_matches_agree(r1: Seq<TokenView>, r2: Seq<TokenView>, alias: Seq<TokenView>)
    requires
        tokens_agree(r1, r2),
    ensures
        alias_matches(r1, alias) == alias_matches(r2, alias),
{
    assert forall|i: int| 0 <= i < alias.len() && i < r1.len() implies token_eq(#[trigger] r1[i], alias[i]) == token_eq(
        r2[i],
        alias[i],
    ) by {
        assert(token_eq(r1[i], r2[i]));
    }
    if alias_matches(r1, alias) {
        assert forall|i: int| 0 <= i < alias.len() implies token_eq(#[trigger] r2[i], alias[i]) by {
            assert(token_eq(r1[i], alias[i]));
        }
    }
    if alias_matches(r2, alias) {
        assert forall|i: int| 0 <= i < alias.len() implies token_eq(#[trigger] r1[i], alias[i]) by {
            assert(token_eq(r2[i], alias[i]));
        }
    }
}

proof fn lemma_first_match_agrees(fl: Seq<(Command, Seq<TokenView>)>, r1: Seq<TokenView>, r2: Seq<TokenView>, i: int)
    requires
        tokens_agree(r1, r2),
    ensures
        first_match(fl, r1, i) == first_match(fl, r2, i),
    decreases fl.len() - i,
{
    if 0 <= i < fl.len() {
        lemma_alias_matches_agree(r1, r2, fl[i].1);
        lemma_first_match_agrees(fl, r1, r2, i + 1);
    }
}

proof fn lemma_agree_subrange(a: Seq<TokenView>, b: Seq<TokenView>, lo: int, hi: int)
    requires
        tokens_agree(a, b),
        0 <= lo <= hi <= a.len(),
    ensures
        tokens_agree(a.subrange(lo, hi), b.subrange(lo, hi)),
{
    assert forall|i: int| 0 <= i < hi - lo implies token_eq(#[trigger] a.subrange(lo, hi)[i], b.subrange(lo, hi)[i]) by {
        assert(token_eq(a[lo + i], b[lo + i]));
    }
}

/// Words are read regardless of case: two messages whose tokens agree token by token,
/// words compared by their case folding, resolve alike: to the same error, or to the
/// same command and object with agreeing alias and remaining tokens.
pub proof fn law_resolution_ignores_case(t1: Seq<TokenView>, t2: Seq<TokenView>, has_reply: bool)
    requires
        tokens_agree(t1, t2),
    ensures
        match (resolve_spec(t1, has_reply), resolve_spec(t2, has_reply)) {
            (Ok(a), Ok(b)) => containers_agree(a, b),
            (Err(x), Err(y)) => x == y,
            _ => false,
        },
{
    if t1.len() > 0 {
        assert(token_eq(t1[0], t2[0]));
        assert(is_wake_word(t1[0]) == is_wake_word(t2[0]));
        let a1 = t1.drop_first();
        let a2 = t2.drop_first();
        lemma_agree_subrange(t1, t2, 1, t1.len() as int);
        assert(a1 =~= t1.subrange(1, t1.len() as int));
        assert(a2 =~= t2.subrange(1, t2.len() as int));
        let kw = funnel_entries();
        lemma_first_match_agrees(kw, a1, a2, 0);
        lemma_funnel_descending(keyword_entries());
        if is_wake_word(t1[0]) {
            if let Some((c, len)) = found_command(kw, a1) {
                lemma_first_match_is_longest(kw, a1, 0);
                let i = first_match(kw, a1, 0)->Some_0;
                assert(alias_matches(a1, kw[i].1));
                lemma_agree_subrange(a1, a2, 0, len);
                lemma_agree_subrange(a1, a2, len, a1.len() as int);
                assert(a1.take(len) =~= a1.subrange(0, len));
                assert(a2.take(len) =~= a2.subrange(0, len));
                assert(a1.skip(len) =~= a1.subrange(len, a1.len() as int));
                assert(a2.skip(len) =~= a2.subrange(len, a2.len() as int));
                let r1 = a1.skip(len);
                let r2 = a2.skip(len);
                if r1.len() > 0 {
                    assert(token_eq(r1[0], r2[0]));
                    assert(control_item_of(r1[0]) == control_item_of(r2[0]));
                    lemma_agree_subrange(r1, r2, 1, r1.len() as int);
                    assert(r1.drop_first() =~= r1.subrange(1, r1.len() as int));
                    assert(r2.drop_first() =~= r2.subrange(1, r2.len() as int));
                }
            }
        }
    }
}


/// A message is resolved by the longest of the aliases that match the tokens after
/// its wake-word: the alias taken is one of the command's and matches there, no
/// matching alias of any command is longer, and no entry before it in the registry's
/// list matches.
pub proof fn law_longest_alias_resolves(tokens: Seq<TokenView>, c: Command, len: int)
    requires
        call_of(tokens) == Some((c, len)),
    ensures
        exists|i: int|
            0 <= i < funnel_entries().len() && (#[trigger] funnel_entries()[i]).0 == c && funnel_entries()[i].1.len()
                == len && alias_matches(tokens.drop_first(), funnel_entries()[i].1) && forall|j: int|
                0 <= j < i ==> !alias_matches(tokens.drop_first(), (#[trigger] funnel_entries()[j]).1),
        forall|j: int|
            0 <= j < funnel_entries().len() && alias_matches(tokens.drop_first(), (#[trigger] funnel_entries()[j]).1)
                ==> funnel_entries()[j].1.len() <= len,
{
    let fl = funnel_entries();
    lemma_funnel_descending(keyword_entries());
    lemma_first_match_is_longest(fl, tokens.drop_first(), 0);
    let i = first_match(fl, tokens.drop_first(), 0)->Some_0;
    assert(fl[i].0 == c);
}


/// The wake-word reads alike in capitals, capitalized and in small letters, and an
/// alias written in capitals equals the alias.
pub proof fn law_wake_word_in_any_case()
    ensures
        is_wake_word(TokenView::Word("ХЛЕБ"@)),
        is_wake_word(TokenView::Word("Хлеб"@)),
        is_wake_word(TokenView::Word("хлеб"@)),
        token_eq(TokenView::Word("КТО"@), TokenView::Word("кто"@)),
{
    reveal_strlit("ХЛЕБ");
    reveal_strlit("Хлеб");
    reveal_strlit("хлеб");
    reveal_strlit("КТО");
    reveal_strlit("кто");
    reveal_with_fuel(fold_with, 5);
    assert(case_fold("ХЛЕБ"@) =~= case_fold("хлеб"@));
    assert(case_fold("Хлеб"@) =~= case_fold("хлеб"@));
    assert(case_fold("КТО"@) =~= case_fold("кто"@));
}

} // verus!
