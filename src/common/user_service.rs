use vstd::prelude::*;
use vstd::string::*;

use crate::common::db::Member;
use crate::common::lexer::push_char;
use crate::common::request::Chat;

verus! {

pub open spec fn digit_char(d: int) -> char {
    if d == 0 { '0' } else if d == 1 { '1' } else if d == 2 { '2' } else if d == 3 { '3' } else if d == 4 { '4' }
    else if d == 5 { '5' } else if d == 6 { '6' } else if d == 7 { '7' } else if d == 8 { '8' } else { '9' }
}

/// The decimal digits of a natural number, most significant first.
pub open spec fn decimal(n: nat) -> Seq<char>
    decreases n,
{
    if n < 10 {
        seq![digit_char(n as int)]
    } else {
        decimal(n / 10).push(digit_char((n % 10) as int))
    }
}

/// An integer as decimal text, with a leading `-` when negative.
pub open spec fn signed_decimal(n: int) -> Seq<char> {
    if n < 0 {
        seq!['-'] + decimal((-n) as nat)
    } else {
        decimal(n as nat)
    }
}

fn to_digit_char(d: u64) -> (r: char)
    requires
        d < 10,
    ensures
        r == digit_char(d as int),
{
    match d {
        0 => '0',
        1 => '1',
        2 => '2',
        3 => '3',
        4 => '4',
        5 => '5',
        6 => '6',
        7 => '7',
        8 => '8',
        _ => '9',
    }
}

pub(crate) fn push_decimal(s: &mut String, n: u64)
    ensures
        final(s)@ == old(s)@ + decimal(n as nat),
    decreases n,
{
    if n >= 10 {
        push_decimal(s, n / 10);
    }
    push_char(s, to_digit_char(n % 10));
    assert(final(s)@ =~= old(s)@ + decimal(n as nat));
}

/// An integer as decimal text.
pub fn integer_text(n: i64) -> (r: String)
    ensures
        r@ == signed_decimal(n as int),
{
    let mut s = String::new();
    if n < 0 {
        push_char(&mut s, '-');
        let magnitude: u64 = (0i128 - n as i128) as u64;
        push_decimal(&mut s, magnitude);
    } else {
        push_decimal(&mut s, n as u64);
    }
    assert(s@ =~= signed_decimal(n as int));
    s
}

/// Two names joined by one space.
pub(crate) fn full_name(first: &str, last: &str) -> (r: String)
    ensures
        r@ == first@.push(' ') + last@,
{
    let mut s = first.to_string();
    push_char(&mut s, ' ');
    s.append(last);
    s
}

/// How a member is shown: first and last name where either is known, else the
/// username, else the member's number.
pub open spec fn member_display_name(m: Member) -> Seq<char> {
    if m.first_name@.len() > 0 || m.last_name@.len() > 0 {
        m.first_name@.push(' ') + m.last_name@
    } else if m.username@.len() > 0 {
        m.username@
    } else {
        signed_decimal(m.member_id as int)
    }
}

/// The name a member is shown by.
pub fn pretty_username(member_db: &Member) -> (r: String)
    ensures
        r@ == member_display_name(*member_db),
{
    if !member_db.first_name.as_str().is_empty() || !member_db.last_name.as_str().is_empty() {
        full_name(member_db.first_name.as_str(), member_db.last_name.as_str())
    } else if !member_db.username.as_str().is_empty() {
        member_db.username.as_str().to_string()
    } else {
        integer_text(member_db.member_id)
    }
}

pub open spec fn nonempty(t: Option<String>) -> bool {
    t matches Some(s) && s@.len() > 0
}

/// How a chat is shown: its title, else its username, else the first and last name
/// where both are given and one is not empty, else its number.
pub open spec fn chat_display_name(c: Chat) -> Seq<char> {
    if nonempty(c.title) {
        c.title->Some_0@
    } else if nonempty(c.username) {
        c.username->Some_0@
    } else if c.first_name is Some && c.last_name is Some && (nonempty(c.first_name) || nonempty(c.last_name)) {
        c.first_name->Some_0@.push(' ') + c.last_name->Some_0@
    } else {
        signed_decimal(c.id as int)
    }
}

/// The name a chat is shown by.
pub fn chat_title(chat: &Chat) -> (r: String)
    ensures
        r@ == chat_display_name(*chat),
{
    if let Some(title) = &chat.title {
        if !title.as_str().is_empty() {
            return title.as_str().to_string();
        }
    }
    if let Some(username) = &chat.username {
        if !username.as_str().is_empty() {
            return username.as_str().to_string();
        }
    }
    if let (Some(first_name), Some(last_name)) = (&chat.first_name, &chat.last_name) {
        if !first_name.as_str().is_empty() || !last_name.as_str().is_empty() {
            return full_name(first_name.as_str(), last_name.as_str());
        }
    }
    integer_text(chat.id)
}

} // verus!
