use vstd::prelude::*;
use vstd::std_specs::iter::IteratorSpec;
use vstd::string::*;

verus! {

/// The case folding, as code points, of a char beyond ASCII and the Cyrillic letters
/// U+0400 to U+045F, as `unicase`'s folding table gives it.
pub uninterp spec fn fold_beyond(c: char) -> Seq<u32>;

/// The case folding of one char, as code points: ASCII capitals and the Cyrillic
/// capitals U+0400 to U+042F become their small letters, the other ASCII chars and
/// the Cyrillic small letters U+0430 to U+045F stay as they are.
pub open spec fn char_fold(c: char, beyond: spec_fn(char) -> Seq<u32>) -> Seq<u32> {
    let x = c as u32;
    if x < 0x80 {
        if 0x41 <= x <= 0x5a {
            seq![(x + 0x20) as u32]
        } else {
            seq![x]
        }
    } else if 0x400 <= x <= 0x40f {
        seq![(x + 0x50) as u32]
    } else if 0x410 <= x <= 0x42f {
        seq![(x + 0x20) as u32]
    } else if 0x430 <= x <= 0x45f {
        seq![x]
    } else {
        beyond(c)
    }
}

/// The case folding of a text, char by char, where `beyond` folds the chars the
/// known ranges leave out.
pub open spec fn fold_with(s: Seq<char>, beyond: spec_fn(char) -> Seq<u32>) -> Seq<u32>
    decreases s.len(),
{
    if s.len() == 0 {
        seq![]
    } else {
        fold_with(s.drop_last(), beyond) + char_fold(s.last(), beyond)
    }
}

/// Unicode case folding of a text, char by char: what `unicase` compares when it
/// tests two texts for equality regardless of case.
pub open spec fn case_fold(s: Seq<char>) -> Seq<u32> {
    fold_with(s, |c: char| fold_beyond(c))
}

/// Whether a char beyond ASCII and the Cyrillic letters U+0400 to U+045F is
/// alphabetic or numeric in Unicode's sense.
pub uninterp spec fn alphanumeric_beyond(c: char) -> bool;

/// Whether a char is alphabetic or numeric: in ASCII the letters and digits; the
/// Cyrillic letters U+0400 to U+045F; `beyond` for the other chars.
pub open spec fn alphanumeric_with(c: char, beyond: bool) -> bool {
    let x = c as u32;
    if x < 0x80 {
        (0x30 <= x <= 0x39) || (0x41 <= x <= 0x5a) || (0x61 <= x <= 0x7a)
    } else if 0x400 <= x <= 0x45f {
        true
    } else {
        beyond
    }
}

/// Whether a char is alphabetic or numeric in Unicode's sense.
pub open spec fn is_alphanumeric(c: char) -> bool {
    alphanumeric_with(c, alphanumeric_beyond(c))
}

/// Relies on `unicase::eq`: both texts are mapped char by char to their case folding
/// (`unicase`'s `lookup` table; on ASCII texts `eq_ignore_ascii_case`) and the folded
/// sequences are compared.
#[verifier::external_body]
pub(crate) fn words_equal(a: &str, b: &str) -> (r: bool)
    ensures
        r == (fold_with(a@, |c: char| fold_beyond(c)) == fold_with(b@, |c: char| fold_beyond(c))),
{
    unicase::eq(a, b)
}

/// Relies on `char::is_alphanumeric`: Unicode's Alphabetic property or a numeric
/// general category.
#[verifier::external_body]
pub(crate) fn char_is_alphanumeric(c: char) -> (r: bool)
    ensures
        r == alphanumeric_with(c, alphanumeric_beyond(c)),
{
    c.is_alphanumeric()
}

/// The chars of a text, in order.
pub(crate) fn chars_of(s: &str) -> (r: Vec<char>)
    ensures
        r@ == s@,
{
    let mut it = s.chars();
    let mut r: Vec<char> = Vec::new();
    proof {
        assert(s@.subrange(0, s@.len() as int) =~= s@);
    }
    loop
        invariant
            it.obeys_prophetic_iter_laws(),
            r@.len() <= s@.len(),
            r@ == s@.subrange(0, r@.len() as int),
            it.remaining() == s@.subrange(r@.len() as int, s@.len() as int),
        decreases s@.len() - r@.len(),
    {
        match it.next() {
            Some(c) => {
                proof {
                    assert(s@.subrange(r@.len() as int, s@.len() as int).len() > 0);
                }
                r.push(c);
                proof {
                    assert(r@ =~= s@.subrange(0, r@.len() as int));
                    assert(it.remaining() =~= s@.subrange(r@.len() as int, s@.len() as int));
                }
            },
            None => {
                proof {
                    assert(r@ =~= s@);
                }
                return r;
            },
        }
    }
}

/// Equality of two texts, char by char.
pub(crate) fn same_text(a: &str, b: &str) -> (r: bool)
    ensures
        r == (a@ == b@),
{
    let x = chars_of(a);
    let y = chars_of(b);
    if x.len() != y.len() {
        return false;
    }
    let mut i: usize = 0;
    while i < x.len()
        invariant
            x@ == a@,
            y@ == b@,
            x@.len() == y@.len(),
            i <= x@.len(),
            forall|j: int| 0 <= j < i ==> x@[j] == y@[j],
        decreases x@.len() - i,
    {
        if x[i] != y[i] {
            return false;
        }
        i = i + 1;
    }
    proof {
        assert(a@ =~= b@);
    }
    true
}


/// One lexical unit of a message. Words keep their original casing; a word is equal
/// to another when their case foldings agree, every other kind compares exactly.
#[derive(Clone, Copy, Debug)]
pub enum Token<'a> {
    Newline,
    Word(&'a str),
    Punctuation(&'a str),
    Symbol(&'a str),
}

/// What a token holds, as a mathematical value.
pub enum TokenView {
    Newline,
    Word(Seq<char>),
    Punctuation(Seq<char>),
    Symbol(Seq<char>),
}

impl<'a> View for Token<'a> {
    type V = TokenView;

    open spec fn view(&self) -> TokenView {
        match *self {
            Token::Newline => TokenView::Newline,
            Token::Word(w) => TokenView::Word(w@),
            Token::Punctuation(p) => TokenView::Punctuation(p@),
            Token::Symbol(s) => TokenView::Symbol(s@),
        }
    }
}

/// The views of a sequence of tokens.
pub open spec fn views<'a>(ts: Seq<Token<'a>>) -> Seq<TokenView> {
    ts.map_values(|t: Token<'a>| t@)
}

/// Token equality: words regardless of case, everything else exactly.
pub open spec fn token_eq(a: TokenView, b: TokenView) -> bool {
    match (a, b) {
        (TokenView::Newline, TokenView::Newline) => true,
        (TokenView::Word(x), TokenView::Word(y)) => case_fold(x) == case_fold(y),
        (TokenView::Punctuation(x), TokenView::Punctuation(y)) => x == y,
        (TokenView::Symbol(x), TokenView::Symbol(y)) => x == y,
        _ => false,
    }
}

impl<'a> PartialEq for Token<'a> {
    fn eq(&self, other: &Token<'a>) -> (r: bool)
        ensures
            r == token_eq(self@, other@),
    {
        match (*self, *other) {
            (Token::Newline, Token::Newline) => true,
            (Token::Word(x), Token::Word(y)) => words_equal(x, y),
            (Token::Punctuation(x), Token::Punctuation(y)) => same_text(x, y),
            (Token::Symbol(x), Token::Symbol(y)) => same_text(x, y),
            _ => false,
        }
    }
}

impl<'a> vstd::std_specs::cmp::PartialEqSpecImpl for Token<'a> {
    open spec fn obeys_eq_spec() -> bool {
        true
    }

    open spec fn eq_spec(&self, other: &Token<'a>) -> bool {
        token_eq(self@, other@)
    }
}

/// The tokens of one fragment: a maximal run of chars with no space or carriage
/// return in it, ending at a newline or before a separator.
pub open spec fn fragment_tokens(f: Seq<char>) -> Seq<TokenView> {
    if f.len() == 0 {
        seq![]
    } else if f == seq!['\n'] {
        seq![TokenView::Newline]
    } else if forall|i: int| 0 <= i < f.len() ==> !is_alphanumeric(#[trigger] f[i]) {
        seq![TokenView::Symbol(seq![f.last()])]
    } else if f.last() == '\n' {
        seq![TokenView::Word(f.drop_last()), TokenView::Newline]
    } else if !is_alphanumeric(f.last()) {
        seq![TokenView::Word(f.drop_last()), TokenView::Punctuation(seq![f.last()])]
    } else {
        seq![TokenView::Word(f)]
    }
}

/// The tokens of `s`, read left to right, where `pending` holds the chars of the
/// fragment read so far. Spaces and carriage returns end a fragment and are
/// dropped; a newline ends a fragment and belongs to it.
pub open spec fn lex(s: Seq<char>, pending: Seq<char>) -> Seq<TokenView>
    decreases s.len(),
{
    if s.len() == 0 {
        fragment_tokens(pending)
    } else if s[0] == ' ' || s[0] == '\r' {
        fragment_tokens(pending) + lex(s.drop_first(), seq![])
    } else if s[0] == '\n' {
        fragment_tokens(pending.push('\n')) + lex(s.drop_first(), seq![])
    } else {
        lex(s.drop_first(), pending.push(s[0]))
    }
}

/// The tokens of a whole text.
pub open spec fn tokens_of(s: Seq<char>) -> Seq<TokenView> {
    lex(s, seq![])
}

/// Appends the tokens of the fragment `chars[start..end]` of `text` to `out`.
fn push_fragment<'a>(text: &'a str, chars: &Vec<char>, start: usize, end: usize, out: &mut Vec<Token<'a>>)
    requires
        chars@ == text@,
        start <= end <= chars@.len(),
    ensures
        views(final(out)@) == views(old(out)@) + fragment_tokens(text@.subrange(start as int, end as int)),
{
    let ghost f = text@.subrange(start as int, end as int);
    if start == end {
        assert(views(out@) + fragment_tokens(f) =~= views(out@));
        return;
    }
    let last = chars[end - 1];
    assert(f.last() == last);
    if end - start == 1 && last == '\n' {
        assert(f =~= seq!['\n']);
        out.push(Token::Newline);
        assert(views(out@) =~= views(old(out)@) + fragment_tokens(f));
        return;
    }
    assert(f != seq!['\n']);
    let mut i: usize = start;
    let mut has_alnum = false;
    while i < end
        invariant
            chars@ == text@,
            start <= i <= end <= chars@.len(),
            f == text@.subrange(start as int, end as int),
            has_alnum == exists|j: int| 0 <= j < i - start && is_alphanumeric(#[trigger] f[j]),
        decreases end - i,
    {
        if char_is_alphanumeric(chars[i]) {
            has_alnum = true;
            assert(is_alphanumeric(f[i - start]));
        }
        i = i + 1;
    }
    if !has_alnum {
        let sym = text.substring_char(end - 1, end);
        assert(sym@ =~= seq![f.last()]);
        out.push(Token::Symbol(sym));
    } else if last == '\n' || !char_is_alphanumeric(last) {
        let word = text.substring_char(start, end - 1);
        assert(word@ =~= f.drop_last());
        out.push(Token::Word(word));
        if last == '\n' {
            out.push(Token::Newline);
        } else {
            let p = text.substring_char(end - 1, end);
            assert(p@ =~= seq![f.last()]);
            out.push(Token::Punctuation(p));
        }
    } else {
        let word = text.substring_char(start, end);
        out.push(Token::Word(word));
    }
    assert(views(out@) =~= views(old(out)@) + fragment_tokens(f));
}

/// Splits a text into tokens. The same text always gives the same tokens, and the
/// empty text gives none.
pub fn tokenize(text: &str) -> (r: Vec<Token<'_>>)
    ensures
        views(r@) == tokens_of(text@),
{
    let chars = chars_of(text);
    let n = chars.len();
    let mut out: Vec<Token<'_>> = Vec::new();
    let mut start: usize = 0;
    let mut i: usize = 0;
    assert(text@.subrange(0, n as int) =~= text@);
    assert(text@.subrange(0, 0) =~= seq![]);
    while i < n
        invariant
            chars@ == text@,
            n == chars@.len(),
            start <= i <= n,
            tokens_of(text@) == views(out@) + lex(text@.subrange(i as int, n as int), text@.subrange(start as int, i as int)),
        decreases n - i,
    {
        let c = chars[i];
        let ghost rest = text@.subrange(i as int, n as int);
        assert(rest[0] == c);
        assert(rest.drop_first() =~= text@.subrange(i + 1, n as int));
        if c == ' ' || c == '\r' {
            push_fragment(text, &chars, start, i, &mut out);
            start = i + 1;
            assert(text@.subrange(start as int, i + 1) =~= seq![]);
        } else if c == '\n' {
            assert(text@.subrange(start as int, i as int).push('\n') =~= text@.subrange(start as int, i + 1));
            push_fragment(text, &chars, start, i + 1, &mut out);
            start = i + 1;
            assert(text@.subrange(start as int, i + 1) =~= seq![]);
        } else {
            assert(text@.subrange(start as int, i as int).push(c) =~= text@.subrange(start as int, i + 1));
        }
        i = i + 1;
        proof {
            assert(tokens_of(text@) == views(out@) + lex(text@.subrange(i as int, n as int), text@.subrange(start as int, i as int))) by {
                assert(views(out@) + lex(text@.subrange(i as int, n as int), text@.subrange(start as int, i as int))
                    =~= views(out@) + lex(text@.subrange(i as int, n as int), text@.subrange(start as int, i as int)));
            }
        }
    }
    assert(text@.subrange(n as int, n as int) =~= seq![]);
    push_fragment(text, &chars, start, n, &mut out);
    out
}


/// Relies on `String::push`: appends one char.
#[verifier::external_body]
pub(crate) fn push_char(s: &mut String, c: char)
    ensures
        final(s)@ == old(s)@.push(c),
{
    s.push(c)
}

/// The text after `res` takes in token `t`; `last` tells whether `t` ends the
/// sequence.
pub open spec fn render_step(res: Seq<char>, t: TokenView, last: bool, drop_question: bool) -> Seq<char> {
    match t {
        TokenView::Newline => res.push('\n'),
        TokenView::Word(w) => if res.len() == 0 { w } else { res.push(' ') + w },
        TokenView::Symbol(w) => if res.len() == 0 { w } else { res.push(' ') + w },
        TokenView::Punctuation(p) => if drop_question && last && p == seq!['?'] { res } else { res + p },
    }
}

/// The text of the first `k` tokens of `ts`: words and symbols separated by one
/// space, punctuation attached, newlines kept.
pub open spec fn render(ts: Seq<TokenView>, k: int, drop_question: bool) -> Seq<char>
    decreases k,
{
    if k <= 0 {
        seq![]
    } else {
        render_step(render(ts, k - 1, drop_question), ts[k - 1], k == ts.len(), drop_question)
    }
}

/// Joins tokens back into a text; with `remove_question_mark`, a `?` that ends the
/// sequence is left out.
pub fn tokens_to_string<'a>(tokens: &'a [Token<'a>], remove_question_mark: bool) -> (r: String)
    ensures
        r@ == render(views(tokens@), tokens@.len() as int, remove_question_mark),
{
    let mut result = String::new();
    let n = tokens.len();
    let mut i: usize = 0;
    while i < n
        invariant
            n == tokens@.len(),
            i <= n,
            result@ == render(views(tokens@), i as int, remove_question_mark),
        decreases n - i,
    {
        let ghost before = result@;
        let t = tokens[i];
        assert(views(tokens@)[i as int] == t@);
        let empty = result.as_str().is_empty();
        match t {
            Token::Newline => push_char(&mut result, '\n'),
            Token::Word(w) | Token::Symbol(w) => {
                if !empty {
                    push_char(&mut result, ' ');
                }
                result.append(w);
                if empty {
                    assert(result@ =~= w@);
                }
            },
            Token::Punctuation(p) => {
                let question = p.unicode_len() == 1 && p.get_char(0) == '?';
                assert(question == (p@ == seq!['?'])) by {
                    if p@.len() == 1 && p@[0] == '?' {
                        assert(p@ =~= seq!['?']);
                    }
                }
                if !(remove_question_mark && question && i + 1 == n) {
                    result.append(p);
                }
            },
        }
        i = i + 1;
    }
    result
}

/// A char as `normalize_text` leaves it: ASCII capitals lowered, `ё` read as `е`.
pub open spec fn normalized_char(c: char) -> char {
    if 'A' <= c <= 'Z' {
        ((c as u8) + 32) as char
    } else if c == 'ё' {
        'е'
    } else {
        c
    }
}

/// Lowers ASCII capitals and replaces every `ё` by `е`.
pub fn normalize_text(text: String) -> (r: String)
    ensures
        r@ == text@.map_values(|c: char| normalized_char(c)),
{
    let chars = chars_of(text.as_str());
    let mut r = String::new();
    let mut i: usize = 0;
    while i < chars.len()
        invariant
            chars@ == text@,
            i <= chars@.len(),
            r@ =~= text@.subrange(0, i as int).map_values(|c: char| normalized_char(c)),
        decreases chars@.len() - i,
    {
        let c = chars[i];
        let d = if 'A' <= c && c <= 'Z' {
            ((c as u8) + 32) as char
        } else if c == 'ё' {
            'е'
        } else {
            c
        };
        push_char(&mut r, d);
        i = i + 1;
        assert(r@ =~= text@.subrange(0, i as int).map_values(|c: char| normalized_char(c)));
    }
    assert(text@.subrange(0, i as int) =~= text@);
    r
}


/// The empty text has no tokens.
pub proof fn law_empty_text_has_no_tokens()
    ensures
        tokens_of(seq![]) == Seq::<TokenView>::empty(),
{
    assert(fragment_tokens(seq![]) =~= Seq::<TokenView>::empty());
}

/// Tokens depend on the text alone: equal texts give equal token sequences, so
/// tokenizing a text twice gives the same tokens.
pub proof fn law_tokens_depend_on_text_alone(a: Seq<char>, b: Seq<char>)
    requires
        a == b,
    ensures
        tokens_of(a) == tokens_of(b),
{
}

} // verus!
