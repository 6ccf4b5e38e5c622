use vstd::prelude::*;

use crate::basic::lexer::{tokenize, tokens_of, views, Token};
pub use crate::common::command_parser::Command;
use crate::common::command_parser::{
    all_commands, all_commands_vec, entries_of, first_match, found_command, funnel, funnel_between,
    is_descending, lemma_funnel_descending, max_len, with_len,
};
use crate::common::lexer::{token_eq, TokenView};

verus! {

/// Where a command call ends: the command and the number of alias tokens after the
/// wake-word.
#[derive(Debug, PartialEq)]
pub struct CommandProperty<'a> {
    pub command: &'a Command,
    pub command_end_position: usize,
}

/// Whether a token is a wake-word of this lookup, regardless of case.
pub open spec fn is_key_word(t: TokenView) -> bool {
    ||| token_eq(TokenView::Word("хлеб"@), t)
    ||| token_eq(TokenView::Word("хлебушек"@), t)
    ||| token_eq(TokenView::Word("bread_bot"@), t)
}

/// The aliases of each command in this lookup.
pub open spec fn aliases_of(c: Command) -> Seq<Seq<char>> {
    match c {
        Command::Help => seq!["хелп"@, "хлеп"@, "help"@],
        Command::Who => seq!["кто"@, "who"@],
        Command::AnswerChance => seq!["процент"@, "процент срабатывания"@],
        Command::Show => seq!["покажи"@, "show"@],
        Command::Add => seq!["добавь"@, "add"@],
        Command::Remember => seq!["запомни"@, "запомни значение"@, "remember"@],
        Command::Delete => seq!["удали"@, "delete"@],
        Command::Check => seq!["проверь"@, "проверка"@, "check"@],
        Command::Say => seq!["скажи"@, "say"@],
        Command::Couple => seq!["парочка"@, "пара"@, "couple"@],
        Command::Top => seq!["топ"@, "top"@],
        Command::Channel => seq!["канал"@, "channel"@, "all"@],
        Command::RandomChance => seq!["вероятность"@, "шанс"@, "chance"@],
        Command::RandomChoose => seq!["выбери"@, "выбор"@, "choose"@],
        Command::GenerateNonsense => seq!["бред"@, "давай"@, "nonsense"@],
        Command::Morph => seq!["морф"@, "морфируй"@, "morph"@],
        Command::MorphDebug => seq!["морф дебаг"@, "морфируй дебаг"@, "morph debug"@],
        Command::Quote => seq!["цит"@, "цитата"@, "quote"@],
        Command::Joke => seq!["анекдот"@, "анек"@, "joke"@],
        Command::Advice => seq!["совет"@, "advice"@],
    }
}

/// The aliases of each command in this lookup.
pub fn aliases(c: Command) -> (r: Vec<&'static str>)
    ensures
        r@.map_values(|a: &'static str| a@) == aliases_of(c),
{
    let r = match c {
        Command::Help => vec!["хелп", "хлеп", "help"],
        Command::Who => vec!["кто", "who"],
        Command::AnswerChance => vec!["процент", "процент срабатывания"],
        Command::Show => vec!["покажи", "show"],
        Command::Add => vec!["добавь", "add"],
        Command::Remember => vec!["запомни", "запомни значение", "remember"],
        Command::Delete => vec!["удали", "delete"],
        Command::Check => vec!["проверь", "проверка", "check"],
        Command::Say => vec!["скажи", "say"],
        Command::Couple => vec!["парочка", "пара", "couple"],
        Command::Top => vec!["топ", "top"],
        Command::Channel => vec!["канал", "channel", "all"],
        Command::RandomChance => vec!["вероятность", "шанс", "chance"],
        Command::RandomChoose => vec!["выбери", "выбор", "choose"],
        Command::GenerateNonsense => vec!["бред", "давай", "nonsense"],
        Command::Morph => vec!["морф", "морфируй", "morph"],
        Command::MorphDebug => vec!["морф дебаг", "морфируй дебаг", "morph debug"],
        Command::Quote => vec!["цит", "цитата", "quote"],
        Command::Joke => vec!["анекдот", "анек", "joke"],
        Command::Advice => vec!["совет", "advice"],
    };
    assert(r@.map_values(|a: &'static str| a@) =~= aliases_of(c));
    r
}

pub open spec fn per_command() -> spec_fn(Command) -> Seq<(Command, Seq<TokenView>)> {
    |c: Command| aliases_of(c).map_values(|a: Seq<char>| (c, tokens_of(a)))
}

/// Every alias of every command, tokenized by this lexer, in declaration order.
pub open spec fn keyword_entries() -> Seq<(Command, Seq<TokenView>)> {
    entries_of(all_commands(), per_command())
}

pub open spec fn keyword_views<'a>(v: Seq<(Command, Vec<Token<'a>>)>) -> Seq<(Command, Seq<TokenView>)> {
    v.map_values(|e: (Command, Vec<Token<'a>>)| (e.0, views(e.1@)))
}

/// Every alias of every command beside its command, tokenized, in declaration order.
fn registered_keywords() -> (r: Vec<(Command, Vec<Token<'static>>)>)
    ensures
        keyword_views(r@) == keyword_entries(),
{
    let commands = all_commands_vec();
    let mut r: Vec<(Command, Vec<Token<'static>>)> = Vec::new();
    let mut k: usize = 0;
    assert(keyword_views(r@) =~= entries_of(all_commands().take(0), per_command()));
    while k < commands.len()
        invariant
            commands@ == all_commands(),
            k <= commands@.len(),
            keyword_views(r@) == entries_of(all_commands().take(k as int), per_command()),
        decreases commands@.len() - k,
    {
        let c = commands[k];
        let names = aliases(c);
        let ghost before = keyword_views(r@);
        let ghost mine = (per_command())(c);
        let mut j: usize = 0;
        assert(before + mine.take(0) =~= before);
        while j < names.len()
            invariant
                names@.map_values(|a: &'static str| a@) == aliases_of(c),
                mine == (per_command())(c),
                j <= names@.len(),
                keyword_views(r@) == before + mine.take(j as int),
            decreases names@.len() - j,
        {
            let toks = tokenize(names[j]);
            let ghost old_r = r@;
            r.push((c, toks));
            assert(aliases_of(c)[j as int] == names@[j as int]@);
            assert(mine[j as int] == (c, views(toks@)));
            assert(keyword_views(r@) =~= keyword_views(old_r).push((c, views(toks@))));
            assert(mine.take(j + 1) =~= mine.take(j as int).push((c, views(toks@))));
            j = j + 1;
        }
        assert(mine.take(j as int) =~= mine);
        assert(all_commands().take(k + 1).drop_last() =~= all_commands().take(k as int));
        k = k + 1;
    }
    assert(all_commands().take(k as int) =~= all_commands());
    r
}

fn copy_tokens<'a>(v: &Vec<Token<'a>>) -> (r: Vec<Token<'a>>)
    ensures
        r@ == v@,
{
    let mut r: Vec<Token<'a>> = Vec::new();
    let mut i: usize = 0;
    while i < v.len()
        invariant
            i <= v@.len(),
            r@ == v@.take(i as int),
        decreases v@.len() - i,
    {
        r.push(v[i]);
        i = i + 1;
        assert(r@ =~= v@.take(i as int));
    }
    assert(v@.take(i as int) =~= v@);
    r
}

fn longest_alias<'a>(kw: &Vec<(Command, Vec<Token<'a>>)>) -> (r: usize)
    ensures
        r == max_len(keyword_views(kw@), kw@.len() as int),
{
    let ghost v = keyword_views(kw@);
    let mut m: usize = 0;
    let mut i: usize = 0;
    while i < kw.len()
        invariant
            v == keyword_views(kw@),
            i <= kw@.len(),
            m == max_len(v, i as int),
        decreases kw@.len() - i,
    {
        assert(v[i as int].1.len() == kw@[i as int].1@.len());
        if kw[i].1.len() > m {
            m = kw[i].1.len();
        }
        i = i + 1;
    }
    m
}

/// The entries of `kw` in funnel order: longest alias first, equally long ones in
/// their order in `kw`.
fn funnel_order<'a>(kw: &Vec<(Command, Vec<Token<'a>>)>) -> (r: Vec<(Command, Vec<Token<'a>>)>)
    ensures
        keyword_views(r@) == funnel(keyword_views(kw@)),
{
    let ghost v = keyword_views(kw@);
    let top = longest_alias(kw);
    let mut r: Vec<(Command, Vec<Token<'a>>)> = Vec::new();
    let mut l: usize = top;
    let mut more = true;
    assert(keyword_views(r@) =~= funnel_between(v, top as int, top + 1));
    while more
        invariant
            v == keyword_views(kw@),
            l <= top,
            more ==> keyword_views(r@) == funnel_between(v, top as int, l + 1),
            !more ==> keyword_views(r@) == funnel(v),
            top == max_len(v, v.len() as int),
        decreases l + (if more { 1int } else { 0int }),
    {
        let ghost base = keyword_views(r@);
        let mut i: usize = 0;
        assert(base + with_len(v, l as int, 0) =~= base);
        while i < kw.len()
            invariant
                v == keyword_views(kw@),
                i <= kw@.len(),
                keyword_views(r@) == base + with_len(v, l as int, i as int),
            decreases kw@.len() - i,
        {
            let ghost old_r = r@;
            assert(v[i as int] == (kw@[i as int].0, views(kw@[i as int].1@)));
            if kw[i].1.len() == l {
                let toks = copy_tokens(&kw[i].1);
                r.push((kw[i].0, toks));
                assert(keyword_views(r@) =~= keyword_views(old_r).push(v[i as int]));
            }
            i = i + 1;
            assert(keyword_views(r@) =~= base + with_len(v, l as int, i as int));
        }
        assert(funnel_between(v, top as int, l as int) == funnel_between(v, top as int, l + 1) + with_len(
            v,
            l as int,
            v.len() as int,
        ));
        if l == 0 {
            more = false;
        } else {
            l = l - 1;
        }
    }
    r
}

/// This lookup's aliases in funnel order.
pub open spec fn funnel_entries() -> Seq<(Command, Seq<TokenView>)> {
    funnel(keyword_entries())
}

/// Every alias of every command beside its command, tokenized, in funnel order:
/// aliases of more tokens first, those of equal count in declaration order.
pub fn command_keywords() -> (r: Vec<(Command, Vec<Token<'static>>)>)
    ensures
        keyword_views(r@) == funnel_entries(),
        is_descending(keyword_views(r@)),
{
    let r = funnel_order(&registered_keywords());
    proof {
        lemma_funnel_descending(keyword_entries());
    }
    r
}

/// The first token of `value`, where it is a wake-word.
pub fn bot_key_word<'a>(value: &'a Vec<Token>) -> (r: Option<Token<'a>>)
    ensures
        value@.len() > 0 && is_key_word(value@[0]@) ==> r == Some(value@[0]),
        !(value@.len() > 0 && is_key_word(value@[0]@)) ==> r is None,
{
    if value.len() == 0 {
        return None;
    }
    let t = value[0];
    if Token::Word("хлеб") == t || Token::Word("хлебушек") == t || Token::Word("bread_bot") == t {
        Some(t)
    } else {
        None
    }
}

/// Whether `alias` matches `tokens` from position 1 on.
fn matches_after_key_word(tokens: &Vec<Token>, alias: &Vec<Token>) -> (r: bool)
    requires
        tokens@.len() > 0,
    ensures
        r == crate::common::command_parser::alias_matches(views(tokens@).drop_first(), views(alias@)),
{
    if alias.len() > tokens.len() - 1 {
        return false;
    }
    let ghost rest = views(tokens@).drop_first();
    let mut i: usize = 0;
    while i < alias.len()
        invariant
            tokens@.len() > 0,
            rest == views(tokens@).drop_first(),
            alias@.len() <= tokens@.len() - 1,
            i <= alias@.len(),
            forall|j: int| 0 <= j < i ==> token_eq(#[trigger] rest[j], views(alias@)[j]),
        decreases alias@.len() - i,
    {
        if !(tokens[i + 1] == alias[i]) {
            assert(!token_eq(rest[i as int], views(alias@)[i as int]));
            return false;
        }
        i = i + 1;
    }
    true
}

/// The command called by a message whose tokens are `tokens`, and the position
/// where its alias ends, counted after the wake-word.
pub open spec fn property_of(tokens: Seq<TokenView>) -> Option<(Command, int)> {
    if tokens.len() == 0 || !is_key_word(tokens[0]) {
        None
    } else {
        found_command(funnel_entries(), tokens.drop_first())
    }
}

fn command_ref(c: Command) -> (r: &'static Command)
    ensures
        *r == c,
{
    match c {
        Command::Help => &Command::Help,
        Command::Who => &Command::Who,
        Command::AnswerChance => &Command::AnswerChance,
        Command::Show => &Command::Show,
        Command::Add => &Command::Add,
        Command::Remember => &Command::Remember,
        Command::Delete => &Command::Delete,
        Command::Check => &Command::Check,
        Command::Say => &Command::Say,
        Command::Couple => &Command::Couple,
        Command::Top => &Command::Top,
        Command::Channel => &Command::Channel,
        Command::RandomChance => &Command::RandomChance,
        Command::RandomChoose => &Command::RandomChoose,
        Command::GenerateNonsense => &Command::GenerateNonsense,
        Command::Morph => &Command::Morph,
        Command::MorphDebug => &Command::MorphDebug,
        Command::Quote => &Command::Quote,
        Command::Joke => &Command::Joke,
        Command::Advice => &Command::Advice,
    }
}

/// The command a message calls and where its alias ends: none unless the message
/// opens with a wake-word followed by an alias; the longest alias wins.
pub fn to_command_property<'a>(tokens: Vec<Token<'a>>) -> (r: Option<CommandProperty<'a>>)
    ensures
        match property_of(views(tokens@)) {
            None => r is None,
            Some((c, len)) => r matches Some(p) && *p.command == c && p.command_end_position == len,
        },
{
    bot_key_word(&tokens)?;
    let keywords = command_keywords();
    let ghost fl = funnel_entries();
    let ghost tv = views(tokens@).drop_first();
    let n = keywords.len();
    let mut i: usize = 0;
    while i < n
        invariant
            tokens@.len() > 0,
            keyword_views(keywords@) == fl,
            fl == funnel_entries(),
            tv == views(tokens@).drop_first(),
            property_of(views(tokens@)) == found_command(fl, tv),
            n == keywords@.len(),
            i <= n,
            first_match(fl, tv, 0) == first_match(fl, tv, i as int),
        decreases n - i,
    {
        let alias = &keywords[i].1;
        assert(fl[i as int].1 == views(alias@));
        if matches_after_key_word(&tokens, alias) {
            assert(fl[i as int].0 == keywords@[i as int].0);
            assert(views(alias@).len() == alias@.len());
            return Some(CommandProperty { command: command_ref(keywords[i].0), command_end_position: alias.len() });
        }
        i = i + 1;
    }
    None
}

} // verus!
