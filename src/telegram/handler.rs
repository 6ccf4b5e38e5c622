use vstd::prelude::*;

use crate::basic::lexer::{tokenize, tokens_of, views, Token};
use crate::telegram::request::WebhookRequest;

verus! {

/// The tokens of the text or caption of the message a request is about; none where
/// the message has neither.
pub fn tokens_from_request(request: &WebhookRequest) -> (r: Option<Vec<Token<'_>>>)
    ensures
        match request.spec_any_message().spec_direct().ext.spec_raw_text() {
            None => r is None,
            Some(t) => r matches Some(ts) && views(ts@) == tokens_of(t),
        },
{
    match request.any_message().direct().ext.raw_text() {
        None => None,
        Some(text) => Some(tokenize(text)),
    }
}

} // verus!
