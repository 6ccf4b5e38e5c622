use vstd::prelude::*;

use crate::common::command_service::strings_view;
use crate::common::lexer::{normalize_text, normalized_char, render, tokens_to_string, views, Token, TokenView};

verus! {

/// A text as stored keys hold it.
pub open spec fn normalized(s: Seq<char>) -> Seq<char> {
    s.map_values(|c: char| normalized_char(c))
}

/// The normalized words among the first `k` tokens, in order.
pub open spec fn word_keys(ts: Seq<TokenView>, k: int) -> Seq<Seq<char>>
    decreases k,
{
    if k <= 0 {
        seq![]
    } else {
        match ts[k - 1] {
            TokenView::Word(w) => word_keys(ts, k - 1).push(normalized(w)),
            _ => word_keys(ts, k - 1),
        }
    }
}

/// The keys a message is looked up by as substrings: the whole text where it has more
/// than one token, then each of its words.
pub open spec fn substring_keys_spec(ts: Seq<TokenView>) -> Seq<Seq<char>> {
    (if ts.len() > 1 {
        seq![normalized(render(ts, ts.len() as int, false))]
    } else {
        seq![]
    }) + word_keys(ts, ts.len() as int)
}

/// The keys a message is looked up by as substrings.
pub fn substring_keys(tokens: &[Token]) -> (r: Vec<String>)
    ensures
        strings_view(r@) == substring_keys_spec(views(tokens@)),
{
    let mut keys: Vec<String> = Vec::new();
    if tokens.len() > 1 {
        keys.push(normalize_text(tokens_to_string(tokens, false)));
    }
    let ghost head = strings_view(keys@);
    let mut i: usize = 0;
    while i < tokens.len()
        invariant
            i <= tokens@.len(),
            strings_view(keys@) == head + word_keys(views(tokens@), i as int),
        decreases tokens@.len() - i,
    {
        assert(views(tokens@)[i as int] == tokens@[i as int]@);
        if let Token::Word(word) = tokens[i] {
            let ghost before = strings_view(keys@);
            keys.push(normalize_text(word.to_string()));
            assert(strings_view(keys@) =~= before.push(normalized(word@)));
        }
        i = i + 1;
        assert(strings_view(keys@) =~= head + word_keys(views(tokens@), i as int));
    }
    keys
}

/// The key a message is looked up by as a trigger: its whole text.
pub fn trigger_keys(tokens: &[Token]) -> (r: Vec<String>)
    ensures
        strings_view(r@) == seq![normalized(render(views(tokens@), tokens@.len() as int, false))],
{
    let r = vec![normalize_text(tokens_to_string(tokens, false))];
    assert(strings_view(r@) =~= seq![normalized(render(views(tokens@), tokens@.len() as int, false))]);
    r
}

} // verus!
