use bridge_app::events::{AgentEvent, TurnOutcome};
use bridge_app::execution::Execution;
use bridge_app::ports::{BackendError, TurnRef};

fn turn(id: &str) -> TurnRef {
    TurnRef { epoch: 1, thread_id: "thread".into(), turn_id: id.into() }
}

fn output(id: &str) -> AgentEvent {
    AgentEvent::Output { turn: turn(id), item: "item".into(), delta: "text".into() }
}

#[test]
fn completion_before_start_response_is_retained_and_late_output_ignored() -> Result<(), BackendError> {
    let mut execution = Execution::starting(1, "thread".into(), 4);
    execution.event(output("old"))?;
    execution.event(output("new"))?;
    execution.event(AgentEvent::Finished { turn: turn("new"), outcome: TurnOutcome::Completed })?;
    execution.event(output("new"))?;
    let events = execution.bind(turn("new"))?;
    assert_eq!(events.len(), 2);
    assert!(execution.is_terminal());
    assert_eq!(execution.event(output("new"))?, None);
    Ok(())
}

#[test]
fn old_epochs_and_buffer_overflow_cannot_rebind() -> Result<(), BackendError> {
    let mut execution = Execution::starting(1, "thread".into(), 1);
    let mut old = turn("new");
    old.epoch = 0;
    assert_eq!(
        execution.event(AgentEvent::Finished {
            turn: old,
            outcome: TurnOutcome::Failed { message: None, details: None }
        })?,
        None
    );
    execution.event(output("new"))?;
    assert!(execution.event(output("new")).is_err());
    assert!(execution.bind(turn("new")).is_err());
    Ok(())
}

#[test]
fn a_bound_execution_passes_its_own_events_only() -> Result<(), BackendError> {
    let mut execution = Execution::starting(1, "thread".into(), 4);
    assert!(execution.accepts_request(&turn("any")));
    assert_eq!(execution.bind(turn("new"))?, vec![]);
    assert_eq!(execution.event(output("new"))?, Some(output("new")));
    assert_eq!(execution.event(output("other"))?, None);
    assert!(execution.accepts_request(&turn("new")));
    assert!(!execution.accepts_request(&turn("other")));
    assert_eq!(execution.bind(turn("new")), Err(BackendError::Incompatible));
    execution.disconnect();
    assert!(execution.is_terminal());
    assert_eq!(execution.event(output("new"))?, None);
    Ok(())
}
