use vstd::prelude::*;

use crate::basic::command::aliases;
use crate::basic::command::aliases_of;
pub use crate::common::command_parser::{is_bot_call, Command, ControlItem};
use crate::common::command_parser::{
    all_commands, all_commands_vec, entries_of, found_command, funnel, funnel_order, is_descending, is_wake_word,
    keyword_views, lemma_funnel_descending, slices_agree,
    tokens_agree, CommandRegistry,
};
use crate::common::lexer::{same_text, tokenize, tokens_of, views, Token, TokenView};

verus! {

pub const VALUES_REQUIRED: &'static str = "Команда нуждается в указанных значениях для обработки";

pub const OBJECT_REQUIRED: &'static str = "Ошибка ввода команды. Команда должна содержать объект для редактирования";

/// A command call: the command, the object it acts on, the tokens after both.
#[derive(Debug)]
pub struct CommandProperty<'a> {
    pub command: &'a Command,
    pub control_item: Option<ControlItem>,
    pub rest: &'a [Token<'a>],
}

/// Why a call could not be read.
#[derive(Debug)]
pub struct CommandParseError<'a> {
    pub message: &'a str,
}

impl<'a> PartialEq for CommandParseError<'a> {
    fn eq(&self, other: &CommandParseError<'a>) -> (r: bool)
        ensures
            r == (self.message@ == other.message@),
    {
        same_text(self.message, other.message)
    }
}

impl<'a> vstd::std_specs::cmp::PartialEqSpecImpl for CommandParseError<'a> {
    open spec fn obeys_eq_spec() -> bool {
        true
    }

    open spec fn eq_spec(&self, other: &CommandParseError<'a>) -> bool {
        self.message@ == other.message@
    }
}

impl<'a> PartialEq for CommandProperty<'a> {
    fn eq(&self, other: &CommandProperty<'a>) -> (r: bool)
        ensures
            r == (*self.command == *other.command && self.control_item == other.control_item
                && tokens_agree(views(self.rest@), views(other.rest@))),
    {
        *self.command == *other.command && self.control_item == other.control_item
            && slices_agree(self.rest, other.rest)
    }
}

impl<'a> vstd::std_specs::cmp::PartialEqSpecImpl for CommandProperty<'a> {
    open spec fn obeys_eq_spec() -> bool {
        true
    }

    open spec fn eq_spec(&self, other: &CommandProperty<'a>) -> bool {
        *self.command == *other.command && self.control_item == other.control_item
            && tokens_agree(views(self.rest@), views(other.rest@))
    }
}

pub open spec fn per_command() -> spec_fn(Command) -> Seq<(Command, Seq<TokenView>)> {
    |c: Command| aliases_of(c).map_values(|a: Seq<char>| (c, tokens_of(a)))
}

/// The aliases of this parser, tokenized, in declaration order.
pub open spec fn keyword_entries() -> Seq<(Command, Seq<TokenView>)> {
    entries_of(all_commands(), per_command())
}

/// Every alias of this parser beside its command, tokenized, in declaration order.
fn registered_keywords() -> (r: Vec<(Command, Vec<Token<'static>>)>)
    ensures
        keyword_views(r@) == keyword_entries(),
{
    let commands = all_commands_vec();
    let mut r: Vec<(Command, Vec<Token<'static>>)> = Vec::new();
    let mut k: usize = 0;
    assert(keyword_views(r@) =~= entries_of(all_commands().take(0), per_command()));
    while k < commands.len()
        invariant
            commands@ == all_commands(),
            k <= commands@.len(),
            keyword_views(r@) == entries_of(all_commands().take(k as int), per_command()),
        decreases commands@.len() - k,
    {
        let c = commands[k];
        let names = aliases(c);
        let ghost before = keyword_views(r@);
        let ghost mine = (per_command())(c);
        let mut j: usize = 0;
        assert(before + mine.take(0) =~= before);
        while j < names.len()
            invariant
                names@.map_values(|a: &'static str| a@) == aliases_of(c),
                mine == (per_command())(c),
                j <= names@.len(),
                keyword_views(r@) == before + mine.take(j as int),
            decreases names@.len() - j,
        {
            let toks = tokenize(names[j]);
            let ghost old_r = r@;
            r.push((c, toks));
            assert(aliases_of(c)[j as int] == names@[j as int]@);
            assert(mine[j as int] == (c, views(toks@)));
            assert(keyword_views(r@) =~= keyword_views(old_r).push((c, views(toks@))));
            assert(mine.take(j + 1) =~= mine.take(j as int).push((c, views(toks@))));
            j = j + 1;
        }
        assert(mine.take(j as int) =~= mine);
        assert(all_commands().take(k + 1).drop_last() =~= all_commands().take(k as int));
        k = k + 1;
    }
    assert(all_commands().take(k as int) =~= all_commands());
    r
}

/// This parser's aliases in funnel order.
pub open spec fn funnel_entries() -> Seq<(Command, Seq<TokenView>)> {
    funnel(keyword_entries())
}

/// Every alias of this parser beside its command, tokenized, in funnel order:
/// aliases of more tokens first, those of equal count in declaration order.
pub fn command_keywords() -> (r: Vec<(Command, Vec<Token<'static>>)>)
    ensures
        keyword_views(r@) == funnel_entries(),
        is_descending(keyword_views(r@)),
{
    let r = funnel_order(&registered_keywords());
    proof {
        lemma_funnel_descending(keyword_entries());
    }
    r
}

/// The command a message calls and the number of its alias tokens, where it opens
/// with a wake-word followed by an alias of this parser.
pub open spec fn call_of(tokens: Seq<TokenView>) -> Option<(Command, int)> {
    if tokens.len() == 0 || !is_wake_word(tokens[0]) {
        None
    } else {
        found_command(funnel_entries(), tokens.drop_first())
    }
}

/// Where `tokens` opens with a wake-word and an alias: the command, the tokens of
/// the alias and the tokens after it.
pub fn find_command<'a>(tokens: &'a [Token<'a>]) -> (r: Option<(&'a Command, &'a [Token<'a>], &'a [Token<'a>])>)
    ensures
        match call_of(views(tokens@)) {
            None => r is None,
            Some((c, len)) => r matches Some((rc, alias, rest)) && *rc == c
                && views(alias@) == views(tokens@).drop_first().take(len)
                && views(rest@) == views(tokens@).drop_first().skip(len),
        },
{
    if tokens.len() == 0 || !is_bot_call(&tokens[0]) {
        return None;
    }
    let after = &tokens[1..tokens.len()];
    assert(views(after@) =~= views(tokens@).drop_first());
    let registry = CommandRegistry::from_keywords(command_keywords());
    registry.find(after)
}

/// Whether a token is the exact word `w`.
pub open spec fn is_exact_word(t: TokenView, w: Seq<char>) -> bool {
    t == TokenView::Word(w)
}

/// The object a command names with `token`: only showing, adding, deleting and
/// remembering commands name one, and for them the token must name it exactly.
pub open spec fn item_from_token(c: Command, t: TokenView) -> Result<Option<ControlItem>, ()> {
    if c == Command::Show || c == Command::Add || c == Command::Delete || c == Command::Remember {
        if is_exact_word(t, "триггер"@) || is_exact_word(t, "триггеры"@) {
            Ok(Some(ControlItem::Trigger))
        } else if is_exact_word(t, "подстроку"@) || is_exact_word(t, "подстроки"@) {
            Ok(Some(ControlItem::Substring))
        } else if is_exact_word(t, "бред"@) {
            Ok(Some(ControlItem::MorphWord))
        } else if is_exact_word(t, "ключ"@) || is_exact_word(t, "ключи"@) {
            Ok(Some(ControlItem::KeyWord))
        } else {
            Err(())
        }
    } else {
        Ok(None)
    }
}

fn exact_word(t: Token, w: &str) -> (r: bool)
    ensures
        r == is_exact_word(t@, w@),
{
    match t {
        Token::Word(x) => same_text(x, w),
        _ => false,
    }
}

/// The object `control_token` names for `command`.
pub fn control_item_from_token<'a>(command: &Command, control_token: &'a Token) -> (r: Result<Option<ControlItem>, CommandParseError<'a>>)
    ensures
        match item_from_token(*command, control_token@) {
            Ok(x) => r == Ok::<Option<ControlItem>, CommandParseError<'a>>(x),
            Err(_) => r matches Err(e) && e.message@ == OBJECT_REQUIRED@,
        },
{
    let t = *control_token;
    match command {
        Command::Show | Command::Add | Command::Delete | Command::Remember => {
            if exact_word(t, "триггер") || exact_word(t, "триггеры") {
                Ok(Some(ControlItem::Trigger))
            } else if exact_word(t, "подстроку") || exact_word(t, "подстроки") {
                Ok(Some(ControlItem::Substring))
            } else if exact_word(t, "бред") {
                Ok(Some(ControlItem::MorphWord))
            } else if exact_word(t, "ключ") || exact_word(t, "ключи") {
                Ok(Some(ControlItem::KeyWord))
            } else {
                Err(CommandParseError { message: OBJECT_REQUIRED })
            }
        },
        _ => Ok(None),
    }
}

/// Commands that need tokens after their alias.
pub open spec fn needs_values(c: Command) -> bool {
    c == Command::Say || c == Command::Help || c == Command::Check || c == Command::RandomChoose
}

/// What a message reads as: no call, a call, or the reason the call is malformed.
pub open spec fn parse_spec(tokens: Seq<TokenView>) -> Result<Option<(Command, Option<ControlItem>, Seq<TokenView>)>, Seq<char>> {
    match call_of(tokens) {
        None => Ok(None),
        Some((c, len)) => {
            let rest = tokens.drop_first().skip(len);
            if needs_values(c) && rest.len() == 0 {
                Err(VALUES_REQUIRED@)
            } else if rest.len() == 0 {
                Ok(Some((c, None, rest)))
            } else {
                match item_from_token(c, rest[0]) {
                    Err(_) => Err(OBJECT_REQUIRED@),
                    Ok(Some(x)) => Ok(Some((c, Some(x), rest.drop_first()))),
                    Ok(None) => Ok(Some((c, None, rest))),
                }
            }
        },
    }
}

pub open spec fn parse_view<'a>(r: Result<Option<CommandProperty<'a>>, CommandParseError<'a>>) -> Result<Option<(Command, Option<ControlItem>, Seq<TokenView>)>, Seq<char>> {
    match r {
        Ok(Some(p)) => Ok(Some((*p.command, p.control_item, views(p.rest@)))),
        Ok(None) => Ok(None),
        Err(e) => Err(e.message@),
    }
}

/// Reads a message as a command call: none where it does not call the bot with a
/// known alias; an error where the command needs values and has none, or names no
/// object it accepts.
pub fn parse_command<'a>(tokens: &'a [Token<'a>]) -> (r: Result<Option<CommandProperty<'a>>, CommandParseError<'a>>)
    ensures
        parse_view(r) == parse_spec(views(tokens@)),
{
    match find_command(tokens) {
        None => Ok(None),
        Some((command, _, rest_after_command)) => {
            let c = *command;
            if (c == Command::Say || c == Command::Help || c == Command::Check || c == Command::RandomChoose)
                && rest_after_command.len() == 0 {
                return Err(CommandParseError { message: VALUES_REQUIRED });
            }
            if rest_after_command.len() == 0 {
                return Ok(Some(CommandProperty { command, control_item: None, rest: rest_after_command }));
            }
            let after_control_item = &rest_after_command[1..rest_after_command.len()];
            assert(views(after_control_item@) =~= views(rest_after_command@).drop_first());
            match control_item_from_token(command, &rest_after_command[0]) {
                Err(e) => Err(e),
                Ok(Some(x)) => Ok(Some(CommandProperty { command, control_item: Some(x), rest: after_control_item })),
                Ok(None) => Ok(Some(CommandProperty { command, control_item: None, rest: rest_after_command })),
            }
        },
    }
}

} // verus!
