use vstd::prelude::*;

use crate::common::error::{ProcessError, ProcessErrorView};

verus! {

/// The handlers a message is offered to, in this order.
#[derive(Debug, Clone, Copy, PartialEq, Eq, Structural)]
pub enum Processor {
    Callback,
    Command,
    AutoTrigger,
    AutoSubstring,
    AutoMorph,
}

/// The processors in the order they are tried: explicit calls before automatic
/// responders.
pub open spec fn processor_order() -> Seq<Processor> {
    seq![Processor::Callback, Processor::Command, Processor::AutoTrigger, Processor::AutoSubstring, Processor::AutoMorph]
}

/// The processors in the order they are tried.
pub fn processors() -> (r: Vec<Processor>)
    ensures
        r@ == processor_order(),
{
    let r = vec![Processor::Callback, Processor::Command, Processor::AutoTrigger, Processor::AutoSubstring, Processor::AutoMorph];
    assert(r@ =~= processor_order());
    r
}

/// How a processor answered a message.
#[derive(Debug, Clone, Copy, PartialEq, Eq, Structural)]
pub enum Outcome {
    /// It produced a response.
    Respond,
    /// It stopped the message silently.
    Stop,
    /// It rejected the input with a message for the user.
    Feedback,
    /// The message is not for it.
    Next,
}

pub open spec fn outcome_of<R>(r: Result<R, ProcessErrorView>) -> Outcome {
    match r {
        Ok(_) => Outcome::Respond,
        Err(ProcessErrorView::Stop) => Outcome::Stop,
        Err(ProcessErrorView::Feedback(_)) => Outcome::Feedback,
        Err(ProcessErrorView::Next) => Outcome::Next,
    }
}

pub open spec fn error_view<'a, R>(r: &Result<R, ProcessError<'a>>) -> Result<(), ProcessErrorView> {
    match r {
        Ok(_) => Ok(()),
        Err(e) => Err(e@),
    }
}

/// What the driver of the chain does next.
#[derive(Debug)]
pub enum ChainAction<'a> {
    /// Offer the message to this processor.
    Attempt(Processor),
    /// Deliver the response the last processor produced; the chain is over.
    Deliver,
    /// Deliver this message to the user as a plain response; the chain is over.
    DeliverFeedback(&'a str),
    /// Deliver nothing; the chain is over.
    Abort,
    /// Every processor passed: the message is dropped silently.
    Drop,
}

/// Where a message is in the chain: the position of the processor it is offered to,
/// and whether the chain is over.
#[derive(Debug, Clone, Copy, PartialEq, Eq, Structural)]
pub struct ChainState {
    pub position: usize,
    pub finished: bool,
}

/// The state after the processor at `s.position` answered `o`.
pub open spec fn step(s: ChainState, o: Outcome) -> ChainState {
    match o {
        Outcome::Next => ChainState {
            position: (s.position + 1) as usize,
            finished: s.position + 1 >= processor_order().len(),
        },
        _ => ChainState { position: s.position, finished: true },
    }
}

/// Whether the state is one a chain can be in.
pub open spec fn chain_state_valid(s: ChainState) -> bool {
    s.finished || s.position < processor_order().len()
}

pub open spec fn start_state() -> ChainState {
    ChainState { position: 0, finished: false }
}

/// The processors a message is offered to from state `s`, where the processors
/// from `s.position` on would answer `outcomes` in turn.
pub open spec fn attempts(s: ChainState, outcomes: Seq<Outcome>) -> Seq<Processor>
    decreases outcomes.len(),
{
    if s.finished || outcomes.len() == 0 || s.position >= processor_order().len() {
        seq![]
    } else {
        seq![processor_order()[s.position as int]] + attempts(step(s, outcomes[0]), outcomes.drop_first())
    }
}

impl ChainState {
    /// A message about to be offered to the first processor.
    pub fn start() -> (r: ChainState)
        ensures
            r == start_state(),
    {
        ChainState { position: 0, finished: false }
    }

    /// The processor the message is to be offered to, unless the chain is over.
    pub fn current(&self) -> (r: Option<Processor>)
        requires
            chain_state_valid(*self),
        ensures
            self.finished ==> r is None,
            !self.finished ==> r == Some(processor_order()[self.position as int]),
    {
        if self.finished {
            None
        } else {
            let order = processors();
            Some(order[self.position])
        }
    }

    /// Takes the answer of the current processor: a response, a stop or feedback ends
    /// the chain, `Next` moves on to the following processor or, after the last one,
    /// drops the message.
    pub fn advance<'a, R>(&mut self, outcome: &Result<R, ProcessError<'a>>) -> (r: ChainAction<'a>)
        requires
            chain_state_valid(*old(self)),
            !old(self).finished,
        ensures
            *final(self) == step(*old(self), outcome_of(error_view(outcome))),
            chain_state_valid(*final(self)),
            match outcome {
                Ok(_) => r is Deliver,
                Err(ProcessError::Stop) => r is Abort,
                Err(ProcessError::Feedback { message }) => r == ChainAction::DeliverFeedback(message),
                Err(ProcessError::Next) => if final(self).finished {
                    r is Drop
                } else {
                    r == ChainAction::Attempt(processor_order()[final(self).position as int])
                },
            },
    {
        match outcome {
            Ok(_) => {
                self.finished = true;
                ChainAction::Deliver
            },
            Err(ProcessError::Stop) => {
                self.finished = true;
                ChainAction::Abort
            },
            Err(ProcessError::Feedback { message }) => {
                self.finished = true;
                ChainAction::DeliverFeedback(message)
            },
            Err(ProcessError::Next) => {
                let order = processors();
                self.position = self.position + 1;
                if self.position >= order.len() {
                    self.finished = true;
                    ChainAction::Drop
                } else {
                    ChainAction::Attempt(order[self.position])
                }
            },
        }
    }
}

/// From a state at position `k`, where the processors before the first one that does
/// not pass are offered the message, a message is offered to exactly the processors
/// from `k` up to and including that one.
proof fn lemma_attempts_up_to_first_answer(k: int, outcomes: Seq<Outcome>, t: int)
    requires
        0 <= k <= t < processor_order().len(),
        t - k < outcomes.len(),
        forall|j: int| 0 <= j < t - k ==> outcomes[j] == Outcome::Next,
        outcomes[t - k] != Outcome::Next,
    ensures
        attempts(ChainState { position: k as usize, finished: false }, outcomes) == processor_order().subrange(k, t + 1),
    decreases t - k,
{
    let s = ChainState { position: k as usize, finished: false };
    if k < t {
        lemma_attempts_up_to_first_answer(k + 1, outcomes.drop_first(), t);
        assert(step(s, outcomes[0]) == ChainState { position: (k + 1) as usize, finished: false });
        assert(processor_order().subrange(k, t + 1) =~= seq![processor_order()[k]] + processor_order().subrange(k + 1, t + 1));
    } else {
        assert(step(s, outcomes[0]).finished);
        assert(attempts(step(s, outcomes[0]), outcomes.drop_first()) == Seq::<Processor>::empty());
        assert(processor_order().subrange(k, t + 1) =~= seq![processor_order()[k]]);
    }
}

/// A message that the command processor answers with a response, after the callback
/// processor passed it on, never reaches an automatic responder.
pub proof fn law_command_response_skips_auto_responders(outcomes: Seq<Outcome>)
    requires
        outcomes.len() == processor_order().len(),
        outcomes[0] == Outcome::Next,
        outcomes[1] == Outcome::Respond,
    ensures
        attempts(start_state(), outcomes) == seq![Processor::Callback, Processor::Command],
        !attempts(start_state(), outcomes).contains(Processor::AutoTrigger),
        !attempts(start_state(), outcomes).contains(Processor::AutoSubstring),
        !attempts(start_state(), outcomes).contains(Processor::AutoMorph),
{
    lemma_attempts_up_to_first_answer(0, outcomes, 1);
    assert(processor_order().subrange(0, 2) =~= seq![Processor::Callback, Processor::Command]);
    let a = attempts(start_state(), outcomes);
    assert(a[0] == Processor::Callback && a[1] == Processor::Command);
}

/// Feedback from a processor ends the chain: the message is offered to that
/// processor and those before it, and to none after it.
pub proof fn law_feedback_stops_chain(outcomes: Seq<Outcome>, t: int)
    requires
        outcomes.len() == processor_order().len(),
        0 <= t < outcomes.len(),
        forall|j: int| 0 <= j < t ==> outcomes[j] == Outcome::Next,
        outcomes[t] == Outcome::Feedback,
    ensures
        attempts(start_state(), outcomes) == processor_order().take(t + 1),
        forall|j: int| t < j < processor_order().len() ==> !attempts(start_state(), outcomes).contains(
            #[trigger] processor_order()[j],
        ),
{
    lemma_attempts_up_to_first_answer(0, outcomes, t);
    assert(processor_order().subrange(0, t + 1) =~= processor_order().take(t + 1));
    let a = attempts(start_state(), outcomes);
    assert forall|j: int| t < j < processor_order().len() implies !a.contains(#[trigger] processor_order()[j]) by {
        if a.contains(processor_order()[j]) {
            let i = choose|i: int| 0 <= i < a.len() && a[i] == processor_order()[j];
            assert(a[i] == processor_order()[i]);
        }
    }
}

} // verus!
