use vstd::prelude::*;

use crate::common::lexer::{same_text, TokenView};
use crate::services::lexer::{tokenize, tokens_of, views, Token};
use crate::telegram::request::WebhookRequest;

verus! {

/// The commands of the fixed-form reader, which matches its names exactly.
#[derive(Debug, Clone, Copy, PartialEq, Eq, Structural)]
pub enum Command {
    Help,
    Who,
    GetAnswerChance,
    SetAnswerChance,
}

/// The command a name stands for, compared exactly.
pub open spec fn command_named(s: Seq<char>) -> Option<Command> {
    if s == "хелп"@ || s == "help"@ || s == "помощь"@ {
        Some(Command::Help)
    } else if s == "кто"@ || s == "who"@ {
        Some(Command::Who)
    } else if s == "процент срабатывания"@ || s == "процент"@ {
        Some(Command::SetAnswerChance)
    } else {
        None
    }
}

/// The command a name stands for.
pub fn command_from_name(s: &str) -> (r: Option<Command>)
    ensures
        r == command_named(s@),
{
    if same_text(s, "хелп") || same_text(s, "help") || same_text(s, "помощь") {
        Some(Command::Help)
    } else if same_text(s, "кто") || same_text(s, "who") {
        Some(Command::Who)
    } else if same_text(s, "процент срабатывания") || same_text(s, "процент") {
        Some(Command::SetAnswerChance)
    } else {
        None
    }
}

impl std::str::FromStr for Command {
    type Err = ();

    fn from_str(s: &str) -> Result<Command, ()> {
        match command_from_name(s) {
            Some(c) => Ok(c),
            None => Err(()),
        }
    }
}

/// Whether a token is the exact text `w`.
pub open spec fn text_is(t: TokenView, w: Seq<char>) -> bool {
    t == TokenView::Word(w)
}

/// The command a message's tokens call: the message opens with `хлеб` or
/// `bread_bot`, exactly, and at least one token follows; the answer-chance command
/// only reads its value when something follows its alias.
pub open spec fn command_of_tokens(v: Seq<TokenView>) -> Option<Command> {
    if v.len() >= 2 && (text_is(v[0], "хлеб"@) || text_is(v[0], "bread_bot"@)) {
        let r = v.drop_first();
        if text_is(r[0], "хелп"@) || text_is(r[0], "help"@) || text_is(r[0], "помощь"@) {
            Some(Command::Help)
        } else if text_is(r[0], "кто"@) || text_is(r[0], "who"@) {
            Some(Command::Who)
        } else if text_is(r[0], "процент"@) {
            if r.len() == 1 || (r.len() == 2 && text_is(r[1], "срабатывания"@)) {
                Some(Command::GetAnswerChance)
            } else {
                Some(Command::SetAnswerChance)
            }
        } else {
            None
        }
    } else {
        None
    }
}

fn token_is(t: Token, w: &str) -> (r: bool)
    ensures
        r == text_is(t@, w@),
{
    match t {
        Token::Text(x) => same_text(x, w),
        Token::Newline => false,
    }
}

impl Command {
    /// The command a message's tokens call.
    pub fn try_from(value: Vec<Token>) -> (r: Result<Command, ()>)
        ensures
            match command_of_tokens(views(value@)) {
                Some(c) => r == Ok::<Command, ()>(c),
                None => r is Err,
            },
    {
        if value.len() < 2 || !(token_is(value[0], "хлеб") || token_is(value[0], "bread_bot")) {
            return Err(());
        }
        let first = value[1];
        if token_is(first, "хелп") || token_is(first, "help") || token_is(first, "помощь") {
            Ok(Command::Help)
        } else if token_is(first, "кто") || token_is(first, "who") {
            Ok(Command::Who)
        } else if token_is(first, "процент") {
            if value.len() == 2 || (value.len() == 3 && token_is(value[2], "срабатывания")) {
                Ok(Command::GetAnswerChance)
            } else {
                Ok(Command::SetAnswerChance)
            }
        } else {
            Err(())
        }
    }
}

/// The command the message of a request calls, read from its text or caption.
pub fn to_command(request: WebhookRequest) -> (r: Option<Command>)
    ensures
        r == match request.spec_any_message().spec_direct().ext.spec_raw_text() {
            None => None,
            Some(t) => command_of_tokens(tokens_of(t)),
        },
{
    match request.any_message().direct().ext.raw_text() {
        None => None,
        Some(text) => match Command::try_from(tokenize(text)) {
            Ok(command) => Some(command),
            Err(_) => None,
        },
    }
}

} // verus!
