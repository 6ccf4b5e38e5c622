use vstd::prelude::*;

use crate::common::lexer::same_text;

verus! {

/// Why a processor did not produce a response.
#[derive(Debug)]
pub enum ProcessError<'a> {
    /// Stop processing the message, silently.
    Stop,
    /// The message is not for this processor: try the next one.
    Next,
    /// Stop processing the message and tell the user `message`.
    Feedback { message: &'a str },
}

pub enum ProcessErrorView {
    Stop,
    Next,
    Feedback(Seq<char>),
}

impl<'a> View for ProcessError<'a> {
    type V = ProcessErrorView;

    open spec fn view(&self) -> ProcessErrorView {
        match *self {
            ProcessError::Stop => ProcessErrorView::Stop,
            ProcessError::Next => ProcessErrorView::Next,
            ProcessError::Feedback { message } => ProcessErrorView::Feedback(message@),
        }
    }
}

impl<'a> PartialEq for ProcessError<'a> {
    fn eq(&self, other: &ProcessError<'a>) -> (r: bool)
        ensures
            r == (self@ == other@),
    {
        match (self, other) {
            (ProcessError::Stop, ProcessError::Stop) => true,
            (ProcessError::Next, ProcessError::Next) => true,
            (ProcessError::Feedback { message: a }, ProcessError::Feedback { message: b }) => same_text(a, b),
            _ => false,
        }
    }
}

impl<'a> vstd::std_specs::cmp::PartialEqSpecImpl for ProcessError<'a> {
    open spec fn obeys_eq_spec() -> bool {
        true
    }

    open spec fn eq_spec(&self, other: &ProcessError<'a>) -> bool {
        self@ == other@
    }
}

} // verus!
