use bread_bot::common::error::ProcessError;
use bread_bot::common::message_service::{processors, ChainAction, ChainState, Processor};

/// Runs the chain over processors that answer as `answers` says, counting how often
/// each one is invoked.
fn run(answers: &[Result<&'static str, ProcessError<'static>>; 5]) -> ([usize; 5], Vec<String>) {
    let order = processors();
    let mut invoked = [0usize; 5];
    let mut delivered = vec![];
    let mut state = ChainState::start();
    while let Some(processor) = state.current() {
        let index = order.iter().position(|p| *p == processor).unwrap();
        invoked[index] += 1;
        let outcome = match &answers[index] {
            Ok(text) => Ok(*text),
            Err(ProcessError::Stop) => Err(ProcessError::Stop),
            Err(ProcessError::Next) => Err(ProcessError::Next),
            Err(ProcessError::Feedback { message }) => Err(ProcessError::Feedback { message }),
        };
        match state.advance(&outcome) {
            ChainAction::Deliver => delivered.push(outcome.unwrap().to_string()),
            ChainAction::DeliverFeedback(message) => delivered.push(message.to_string()),
            ChainAction::Attempt(next) => assert_eq!(Some(next), state.current()),
            ChainAction::Abort | ChainAction::Drop => {}
        }
    }
    (invoked, delivered)
}

#[test]
fn processors_are_tried_in_fixed_order() {
    assert_eq!(
        processors(),
        vec![
            Processor::Callback,
            Processor::Command,
            Processor::AutoTrigger,
            Processor::AutoSubstring,
            Processor::AutoMorph
        ]
    );
}

#[test]
fn command_response_never_reaches_auto_responders() {
    let (invoked, delivered) = run(&[
        Err(ProcessError::Next),
        Ok("command answer"),
        Ok("trigger answer"),
        Ok("substring answer"),
        Ok("morph answer"),
    ]);
    assert_eq!(invoked, [1, 1, 0, 0, 0]);
    assert_eq!(delivered, vec!["command answer".to_string()]);
}

#[test]
fn feedback_stops_every_later_processor() {
    let (invoked, delivered) = run(&[
        Err(ProcessError::Feedback { message: "Необходимо указать значения" }),
        Ok("command answer"),
        Ok("trigger answer"),
        Err(ProcessError::Next),
        Err(ProcessError::Next),
    ]);
    assert_eq!(invoked, [1, 0, 0, 0, 0]);
    assert_eq!(delivered, vec!["Необходимо указать значения".to_string()]);
    let (invoked, _) = run(&[
        Err(ProcessError::Next),
        Err(ProcessError::Next),
        Err(ProcessError::Feedback { message: "x" }),
        Ok("substring answer"),
        Ok("morph answer"),
    ]);
    assert_eq!(invoked, [1, 1, 1, 0, 0]);
}

#[test]
fn stop_delivers_nothing() {
    let (invoked, delivered) = run(&[
        Err(ProcessError::Next),
        Err(ProcessError::Stop),
        Ok("trigger answer"),
        Ok("substring answer"),
        Ok("morph answer"),
    ]);
    assert_eq!(invoked, [1, 1, 0, 0, 0]);
    assert!(delivered.is_empty());
}

#[test]
fn all_next_drops_the_message() {
    let mut state = ChainState::start();
    let mut last = None;
    while state.current().is_some() {
        let outcome: Result<(), ProcessError> = Err(ProcessError::Next);
        last = Some(state.advance(&outcome));
    }
    assert!(matches!(last, Some(ChainAction::Drop)));
    assert!(state.finished);
}
