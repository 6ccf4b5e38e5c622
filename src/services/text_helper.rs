use vstd::prelude::*;
use vstd::string::*;

use crate::common::lexer::chars_of;

verus! {

/// Whether a char has Unicode's White_Space property, as `char::is_whitespace`
/// tests it: the controls U+0009 to U+000D, the space, U+0085, U+00A0, U+1680, U+2000
/// to U+200A, U+2028, U+2029, U+202F, U+205F and U+3000.
pub open spec fn is_white_space(c: char) -> bool {
    ||| ('\u{9}' <= c && c <= '\u{d}')
    ||| c == ' '
    ||| c == '\u{85}'
    ||| c == '\u{a0}'
    ||| c == '\u{1680}'
    ||| ('\u{2000}' <= c && c <= '\u{200a}')
    ||| c == '\u{2028}'
    ||| c == '\u{2029}'
    ||| c == '\u{202f}'
    ||| c == '\u{205f}'
    ||| c == '\u{3000}'
}

/// Whether a char has Unicode's White_Space property.
pub fn char_is_whitespace(c: char) -> (r: bool)
    ensures
        r == is_white_space(c),
{
    ('\u{9}' <= c && c <= '\u{d}') || c == ' ' || c == '\u{85}' || c == '\u{a0}' || c == '\u{1680}'
        || ('\u{2000}' <= c && c <= '\u{200a}') || c == '\u{2028}' || c == '\u{2029}' || c == '\u{202f}'
        || c == '\u{205f}' || c == '\u{3000}'
}

/// `words` with `word` added, where `word` is not empty.
pub open spec fn with_word(words: Seq<Seq<char>>, word: Seq<char>) -> Seq<Seq<char>> {
    if word.len() > 0 {
        words.push(word)
    } else {
        words
    }
}

/// The lines of `s` split into words, read left to right: `started` tells whether
/// the current line has begun, `words` holds its finished words and `word` the
/// chars of the word being read. A newline ends a line; a final line ending adds no
/// empty line.
pub open spec fn scan_lines(s: Seq<char>, started: bool, words: Seq<Seq<char>>, word: Seq<char>) -> Seq<Seq<Seq<char>>>
    decreases s.len(),
{
    if s.len() == 0 {
        if started {
            seq![with_word(words, word)]
        } else {
            seq![]
        }
    } else if s[0] == '\n' {
        seq![with_word(words, word)] + scan_lines(s.drop_first(), false, seq![], seq![])
    } else if is_white_space(s[0]) {
        scan_lines(s.drop_first(), true, with_word(words, word), seq![])
    } else {
        scan_lines(s.drop_first(), true, words, word.push(s[0]))
    }
}

pub open spec fn lines_view<'a>(v: Seq<Vec<&'a str>>) -> Seq<Seq<Seq<char>>> {
    v.map_values(|l: Vec<&'a str>| l@.map_values(|w: &'a str| w@))
}

pub open spec fn words_view<'a>(l: Seq<&'a str>) -> Seq<Seq<char>> {
    l.map_values(|w: &'a str| w@)
}

/// The text's lines, each split into its words at white space; none for no text.
pub fn tokenized_text(text: Option<&str>) -> (r: Option<Vec<Vec<&str>>>)
    ensures
        match text {
            None => r is None,
            Some(t) => r matches Some(lines) && lines_view(lines@) == scan_lines(t@, false, seq![], seq![]),
        },
{
    let body = match text {
        Some(t) => t,
        None => return None,
    };
    let chars = chars_of(body);
    let n = chars.len();
    let mut lines: Vec<Vec<&str>> = Vec::new();
    let mut line: Vec<&str> = Vec::new();
    let mut started = false;
    let mut start: usize = 0;
    let mut i: usize = 0;
    assert(body@.subrange(0, n as int) =~= body@);
    assert(body@.subrange(0, 0) =~= seq![]);
    assert(words_view(line@) =~= Seq::<Seq<char>>::empty());
    assert(lines_view(lines@) + scan_lines(body@, false, seq![], seq![]) =~= scan_lines(body@, false, seq![], seq![]));
    while i < n
        invariant
            chars@ == body@,
            n == chars@.len(),
            start <= i <= n,
            scan_lines(body@, false, seq![], seq![]) == lines_view(lines@) + scan_lines(
                body@.subrange(i as int, n as int),
                started,
                words_view(line@),
                body@.subrange(start as int, i as int),
            ),
        decreases n - i,
    {
        let c = chars[i];
        let ghost rest = body@.subrange(i as int, n as int);
        let ghost word = body@.subrange(start as int, i as int);
        assert(rest[0] == c);
        assert(rest.drop_first() =~= body@.subrange(i + 1, n as int));
        if c == '\n' || char_is_whitespace(c) {
            let ghost line_before = words_view(line@);
            if start < i {
                let w = body.substring_char(start, i);
                line.push(w);
            }
            assert(words_view(line@) =~= with_word(line_before, word)) by {
                if start < i {
                    assert(word.len() > 0);
                }
            }
            if c == '\n' {
                let ghost finished = words_view(line@);
                let ghost before = lines@;
                lines.push(line);
                line = Vec::new();
                assert(lines_view(lines@) =~= lines_view(before).push(finished));
                assert(words_view(line@) =~= seq![]);
                started = false;
            } else {
                started = true;
            }
            start = i + 1;
            assert(body@.subrange(start as int, i + 1) =~= seq![]);
        } else {
            assert(word.push(c) =~= body@.subrange(start as int, i + 1));
            started = true;
        }
        i = i + 1;
    }
    assert(body@.subrange(n as int, n as int) =~= seq![]);
    if started {
        let ghost line_before = words_view(line@);
        let ghost word = body@.subrange(start as int, n as int);
        if start < n {
            let w = body.substring_char(start, n);
            line.push(w);
        }
        assert(words_view(line@) =~= with_word(line_before, word)) by {
            if start < n {
                assert(word.len() > 0);
            }
        }
        let ghost finished = words_view(line@);
        let ghost before = lines@;
        lines.push(line);
        assert(lines_view(lines@) =~= lines_view(before).push(finished));
    } else {
        assert(lines_view(lines@) + Seq::<Seq<Seq<char>>>::empty() =~= lines_view(lines@));
    }
    Some(lines)
}

} // verus!
