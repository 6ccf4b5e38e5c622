use vstd::prelude::*;

use crate::common::lexer::{chars_of, token_eq, words_equal, TokenView};

verus! {

/// A token of the word lexer: words and line breaks only.
#[derive(Clone, Copy, Debug)]
pub enum Token<'a> {
    Newline,
    Text(&'a str),
}

impl<'a> View for Token<'a> {
    type V = TokenView;

    open spec fn view(&self) -> TokenView {
        match *self {
            Token::Newline => TokenView::Newline,
            Token::Text(w) => TokenView::Word(w@),
        }
    }
}

pub open spec fn views<'a>(ts: Seq<Token<'a>>) -> Seq<TokenView> {
    ts.map_values(|t: Token<'a>| t@)
}

impl<'a> PartialEq for Token<'a> {
    fn eq(&self, other: &Token<'a>) -> (r: bool)
        ensures
            r == token_eq(self@, other@),
    {
        match (*self, *other) {
            (Token::Newline, Token::Newline) => true,
            (Token::Text(x), Token::Text(y)) => words_equal(x, y),
            _ => false,
        }
    }
}

impl<'a> vstd::std_specs::cmp::PartialEqSpecImpl for Token<'a> {
    open spec fn obeys_eq_spec() -> bool {
        true
    }

    open spec fn eq_spec(&self, other: &Token<'a>) -> bool {
        token_eq(self@, other@)
    }
}

/// The tokens of one fragment.
pub open spec fn fragment_tokens(f: Seq<char>) -> Seq<TokenView> {
    if f.len() == 0 {
        seq![]
    } else if f == seq!['\n'] {
        seq![TokenView::Newline]
    } else if f.last() == '\n' {
        seq![TokenView::Word(f.drop_last()), TokenView::Newline]
    } else {
        seq![TokenView::Word(f)]
    }
}

/// The tokens of `s`, read left to right, where `pending` holds the chars of the
/// fragment read so far.
pub open spec fn lex(s: Seq<char>, pending: Seq<char>) -> Seq<TokenView>
    decreases s.len(),
{
    if s.len() == 0 {
        fragment_tokens(pending)
    } else if s[0] == ' ' || s[0] == '\r' {
        fragment_tokens(pending) + lex(s.drop_first(), seq![])
    } else if s[0] == '\n' {
        fragment_tokens(pending.push('\n')) + lex(s.drop_first(), seq![])
    } else {
        lex(s.drop_first(), pending.push(s[0]))
    }
}

pub open spec fn tokens_of(s: Seq<char>) -> Seq<TokenView> {
    lex(s, seq![])
}

fn push_fragment<'a>(text: &'a str, chars: &Vec<char>, start: usize, end: usize, out: &mut Vec<Token<'a>>)
    requires
        chars@ == text@,
        start <= end <= chars@.len(),
    ensures
        views(final(out)@) == views(old(out)@) + fragment_tokens(text@.subrange(start as int, end as int)),
{
    let ghost f = text@.subrange(start as int, end as int);
    if start == end {
        assert(views(out@) + fragment_tokens(f) =~= views(out@));
        return;
    }
    let last = chars[end - 1];
    assert(f.last() == last);
    if end - start == 1 && last == '\n' {
        assert(f =~= seq!['\n']);
        out.push(Token::Newline);
    } else if last == '\n' {
        assert(f != seq!['\n']);
        let word = text.substring_char(start, end - 1);
        assert(word@ =~= f.drop_last());
        out.push(Token::Text(word));
        out.push(Token::Newline);
    } else {
        let word = text.substring_char(start, end);
        out.push(Token::Text(word));
    }
    assert(views(out@) =~= views(old(out)@) + fragment_tokens(f));
}

/// Splits a text into words and line breaks.
pub fn tokenize(text: &str) -> (r: Vec<Token<'_>>)
    ensures
        views(r@) == tokens_of(text@),
{
    let chars = chars_of(text);
    let n = chars.len();
    let mut out: Vec<Token<'_>> = Vec::new();
    let mut start: usize = 0;
    let mut i: usize = 0;
    assert(text@.subrange(0, n as int) =~= text@);
    assert(text@.subrange(0, 0) =~= seq![]);
    while i < n
        invariant
            chars@ == text@,
            n == chars@.len(),
            start <= i <= n,
            tokens_of(text@) == views(out@) + lex(text@.subrange(i as int, n as int), text@.subrange(start as int, i as int)),
        decreases n - i,
    {
        let c = chars[i];
        let ghost rest = text@.subrange(i as int, n as int);
        assert(rest[0] == c);
        assert(rest.drop_first() =~= text@.subrange(i + 1, n as int));
        if c == ' ' || c == '\r' {
            push_fragment(text, &chars, start, i, &mut out);
            start = i + 1;
            assert(text@.subrange(start as int, i + 1) =~= seq![]);
        } else if c == '\n' {
            assert(text@.subrange(start as int, i as int).push('\n') =~= text@.subrange(start as int, i + 1));
            push_fragment(text, &chars, start, i + 1, &mut out);
            start = i + 1;
            assert(text@.subrange(start as int, i + 1) =~= seq![]);
        } else {
            assert(text@.subrange(start as int, i as int).push(c) =~= text@.subrange(start as int, i + 1));
        }
        i = i + 1;
    }
    assert(text@.subrange(n as int, n as int) =~= seq![]);
    push_fragment(text, &chars, start, n, &mut out);
    out
}

} // verus!
