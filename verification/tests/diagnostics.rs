use bridge_app::diagnostics::{record, startup_record, Diagnostics, Event, Sink, SinkError, Status};
use std::cell::RefCell;

struct Failing;

impl Sink for Failing {
    fn write(&self, _: &str, _: bool) -> Result<(), SinkError> {
        Err(SinkError)
    }
}

#[derive(Default)]
struct Kept(RefCell<Vec<(String, bool)>>);

impl Sink for Kept {
    fn write(&self, record: &str, panic: bool) -> Result<(), SinkError> {
        self.0.borrow_mut().push((record.to_string(), panic));
        Ok(())
    }
}

#[test]
fn failing_sinks_never_panic_and_missing_sinks_record_nothing() {
    assert!(!Diagnostics::new(Failing).emit(Event::Panic, Status::Failed, None, 0, 1, 2));
    assert!(Diagnostics::<Failing>::noop().emit(Event::Panic, Status::Failed, None, 0, 1, 2));
}

#[test]
fn startup_records_are_bounded_to_static_stage_names() {
    assert_eq!(
        startup_record("config", 12, 34),
        "{\"event\":\"startup_failed\",\"stage\":\"config\",\"unix_ms\":12,\"pid\":34}"
    );
    assert_eq!(
        startup_record("bad stage name with spaces and 故障详情", 12, 34),
        "{\"event\":\"startup_failed\",\"stage\":\"unknown\",\"unix_ms\":12,\"pid\":34}"
    );
    assert!(startup_record(&"a".repeat(32), 1, 1).contains(&"a".repeat(32)));
    assert!(startup_record(&"a".repeat(33), 1, 1).contains("unknown"));
    assert!(startup_record("", 1, 1).contains("unknown"));
}

#[test]
fn diagnostics_reject_payloads_and_preserve_internal_task_ids() {
    let valid = record(Event::QuestionSent, Status::Succeeded, Some("123:4"), 2, 1, 1);
    assert!(valid.contains("\"task\":\"123:4\""));
    assert!(valid.contains("\"count\":2"));
    for value in ["secret", "123\nforged", "\"token\"", "", &"1".repeat(65)] {
        assert!(record(Event::QuestionSent, Status::Failed, Some(value), 0, 1, 1).contains("\"task\":\"\""));
    }
}

#[test]
fn records_have_one_fixed_form() {
    assert_eq!(
        record(Event::TaskFinished, Status::Succeeded, Some("7:19"), 3, 1_700_000_000_123, 4321),
        "{\"event\":\"TaskFinished\",\"status\":\"Ok\",\"unix_ms\":1700000000123,\"pid\":4321,\"task\":\"7:19\",\"count\":3}"
    );
    assert_eq!(
        record(Event::Overloaded, Status::Rejected, Some("a"), 0, 0, 0),
        record(Event::Overloaded, Status::Rejected, None, 0, 0, 0)
    );
}

#[test]
fn sinks_get_the_record_and_whether_it_is_a_panic() {
    let diagnostics = Diagnostics::new(Kept::default());
    assert!(diagnostics.emit(Event::Reconnect, Status::Failed, Some("1:2"), 5, 9, 8));
    assert!(diagnostics.emit(Event::Panic, Status::Failed, None, 0, 9, 8));
    let kept = diagnostics.sink.map(|k| k.0.into_inner()).unwrap_or_default();
    assert_eq!(
        kept,
        vec![
            (record(Event::Reconnect, Status::Failed, Some("1:2"), 5, 9, 8), false),
            (record(Event::Panic, Status::Failed, None, 0, 9, 8), true),
        ]
    );
}
