use vstd::prelude::*;

use crate::common::user_service::{full_name, integer_text, nonempty, signed_decimal};
use crate::telegram::request::{Chat, User};

verus! {

/// Why a member or chat could not be stored; each names the id concerned.
#[derive(Debug, PartialEq)]
pub enum UserServiceError<'a> {
    UserBotUnable(&'a i64),
    UserUpdate(&'a i64),
    ChatNameUpdate(&'a i64),
    UserCreate(&'a i64),
    ChatCreate(&'a i64),
}

/// How a chat is shown: its title, else its username, else the first and last name
/// where both are given and one is not empty, else its number.
pub open spec fn chat_display_name(c: Chat) -> Seq<char> {
    if nonempty(c.title) {
        c.title->Some_0@
    } else if nonempty(c.username) {
        c.username->Some_0@
    } else if c.first_name is Some && c.last_name is Some && (nonempty(c.first_name) || nonempty(c.last_name)) {
        c.first_name->Some_0@.push(' ') + c.last_name->Some_0@
    } else {
        signed_decimal(c.id as int)
    }
}

/// The name a chat is shown by.
pub fn chat_title(chat: &Chat) -> (r: String)
    ensures
        r@ == chat_display_name(*chat),
{
    if let Some(title) = &chat.title {
        if !title.as_str().is_empty() {
            return title.as_str().to_string();
        }
    }
    if let Some(username) = &chat.username {
        if !username.as_str().is_empty() {
            return username.as_str().to_string();
        }
    }
    if let (Some(first_name), Some(last_name)) = (&chat.first_name, &chat.last_name) {
        if !first_name.as_str().is_empty() || !last_name.as_str().is_empty() {
            return full_name(first_name.as_str(), last_name.as_str());
        }
    }
    integer_text(chat.id as i64)
}

/// How a user is shown: the first and last name where both are given and one is
/// not empty, else the username, else the user's number.
pub open spec fn user_display_name(u: User) -> Seq<char> {
    if u.first_name is Some && u.last_name is Some && (nonempty(u.first_name) || nonempty(u.last_name)) {
        u.first_name->Some_0@.push(' ') + u.last_name->Some_0@
    } else if nonempty(u.username) {
        u.username->Some_0@
    } else {
        signed_decimal(u.id as int)
    }
}

/// The name a user is shown by.
pub fn username(user: &User) -> (r: String)
    ensures
        r@ == user_display_name(*user),
{
    if let (Some(first_name), Some(last_name)) = (&user.first_name, &user.last_name) {
        if !first_name.as_str().is_empty() || !last_name.as_str().is_empty() {
            return full_name(first_name.as_str(), last_name.as_str());
        }
    }
    if let Some(username) = &user.username {
        if !username.as_str().is_empty() {
            return username.as_str().to_string();
        }
    }
    integer_text(user.id as i64)
}

} // verus!
