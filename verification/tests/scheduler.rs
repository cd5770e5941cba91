use bridge_app::model::{Directory, ExecutionMode, SessionKey, TaskSpec};
use bridge_app::scheduler::{AdmissionError, MessageJournal, Scheduler};

#[derive(Default)]
struct Journal {
    ids: Vec<String>,
    fail: bool,
}

impl MessageJournal for Journal {
    type Error = &'static str;

    fn claim_message(&mut self, id: &str) -> Result<bool, Self::Error> {
        if self.fail {
            return Err("disk full");
        }
        if self.ids.iter().any(|i| i == id) {
            return Ok(false);
        }
        self.ids.push(id.into());
        Ok(true)
    }
}

fn session(user: &str) -> SessionKey {
    SessionKey {
        user: user.into(),
        workspace: Directory { text: "/tmp/project".into(), path: "/tmp/project".into() },
    }
}

fn task(id: &str) -> TaskSpec {
    TaskSpec {
        id: id.into(),
        session: session("user"),
        chat: "chat".into(),
        prompt: "hello".into(),
        model: None,
        mode: ExecutionMode::Plan,
    }
}

#[test]
fn full_and_failed_storage_do_not_accept_or_execute() {
    let mut scheduler = Scheduler::new(1);
    let mut journal = Journal { fail: true, ..Journal::default() };
    assert!(matches!(
        scheduler.admit_task(&mut journal, "m1", task("1")),
        Err(AdmissionError::Persistence(_))
    ));
    assert_eq!(scheduler.queued(), 0);
    journal.fail = false;
    assert_eq!(scheduler.admit_task(&mut journal, "m1", task("1")), Ok(true));
    assert_eq!(scheduler.admit_task(&mut journal, "m2", task("2")), Err(AdmissionError::Full));
    assert_eq!(journal.ids, ["m1"]);
}

#[test]
fn fifo_duplicate_and_stale_completion() {
    let mut scheduler = Scheduler::new(4);
    let mut journal = Journal::default();
    assert_eq!(scheduler.admit_task(&mut journal, "m1", task("1")), Ok(true));
    assert_eq!(scheduler.admit_task(&mut journal, "m1", task("duplicate")), Ok(false));
    assert_eq!(scheduler.admit_task(&mut journal, "m2", task("2")), Ok(true));
    assert!(!scheduler.begin_session_mutation());
    assert_eq!(scheduler.start_next().map(|t| t.id.as_str()), Some("1"));
    assert!(scheduler.start_next().is_none());
    assert!(!scheduler.finish("old"));
    assert!(scheduler.finish("1"));
    assert_eq!(scheduler.start_next().map(|t| t.id.as_str()), Some("2"));
}

#[test]
fn invalidation_precedes_queue_and_pending_admissions_without_racing_active_work() {
    let mut scheduler = Scheduler::new(4);
    let ticket = match scheduler.reserve("message".into(), task("1")) {
        Ok(ticket) => ticket,
        Err(error) => panic!("unexpected reservation failure: {error:?}"),
    };
    assert!(scheduler.begin_invalidation());
    assert!(!scheduler.begin_invalidation());
    assert!(scheduler.commit_admission(ticket, true));
    assert!(scheduler.start_next().is_none());
    scheduler.end_session_mutation();
    assert!(scheduler.begin_invalidation());
    scheduler.end_session_mutation();
    assert_eq!(scheduler.start_next().map(|t| t.id.as_str()), Some("1"));
    assert!(!scheduler.begin_invalidation());
    assert!(scheduler.finish("1"));
    assert!(scheduler.begin_session_mutation());
    assert!(!scheduler.begin_invalidation());
}

#[test]
fn session_mutation_rejects_without_claiming() {
    let mut scheduler = Scheduler::new(4);
    let mut journal = Journal::default();
    assert!(scheduler.begin_session_mutation());
    assert_eq!(
        scheduler.admit_task(&mut journal, "m", task("1")),
        Err(AdmissionError::SessionMutation)
    );
    assert!(journal.ids.is_empty());
    scheduler.end_session_mutation();
    assert_eq!(scheduler.admit_task(&mut journal, "m", task("1")), Ok(true));
    assert_eq!(scheduler.cancel_queued(&session("other")), 0);
    assert_eq!(scheduler.cancel_queued(&task("1").session), 1);
}

#[test]
fn asynchronous_claims_preserve_fifo_when_disk_results_arrive_out_of_order() -> Result<(), AdmissionError<()>> {
    let mut scheduler = Scheduler::new(2);
    let first = scheduler.reserve("m1".into(), task("1"))?;
    let second = scheduler.reserve("m2".into(), task("2"))?;
    assert!(matches!(scheduler.reserve("m3".into(), task("3")), Err(AdmissionError::Full)));
    assert!(!scheduler.begin_session_mutation());
    assert!(scheduler.commit_admission(second, true));
    assert!(scheduler.start_next().is_none());
    assert!(scheduler.commit_admission(first, true));
    assert_eq!(scheduler.start_next().map(|t| t.id.as_str()), Some("1"));
    assert!(scheduler.finish("1"));
    assert_eq!(scheduler.start_next().map(|t| t.id.as_str()), Some("2"));
    Ok(())
}

#[test]
fn cancellation_and_failed_claim_never_enqueue_late_work() -> Result<(), AdmissionError<()>> {
    let mut scheduler = Scheduler::new(2);
    let first = scheduler.reserve("m1".into(), task("1"))?;
    assert_eq!(scheduler.cancel_queued(&task("1").session), 1);
    assert!(!scheduler.commit_admission(first, true));
    let second = scheduler.reserve("m2".into(), task("2"))?;
    scheduler.abort_admission(second);
    let duplicate = scheduler.reserve("m3".into(), task("3"))?;
    assert!(!scheduler.commit_admission(duplicate, false));
    assert!(scheduler.start_next().is_none());
    assert!(scheduler.begin_session_mutation());
    Ok(())
}

#[test]
fn admissions_need_an_identity_and_wait_behind_reservations() -> Result<(), AdmissionError<()>> {
    let mut scheduler = Scheduler::new(4);
    let mut journal = Journal::default();
    assert_eq!(scheduler.admit_task(&mut journal, "", task("1")), Err(AdmissionError::MissingId));
    assert!(matches!(scheduler.reserve(String::new(), task("1")), Err(AdmissionError::MissingId)));
    let first = scheduler.reserve("m1".into(), task("1"))?;
    assert_eq!(scheduler.pending_admissions(), 1);
    assert!(scheduler.has_task("1"));
    assert_eq!(scheduler.admit_task(&mut journal, "m2", task("2")), Err(AdmissionError::Pending));
    assert!(matches!(scheduler.reserve("m1".into(), task("9")), Err(AdmissionError::Pending)));
    assert!(journal.ids.is_empty());
    scheduler.abort_admission(first);
    assert_eq!(scheduler.pending_admissions(), 0);
    Ok(())
}

#[test]
fn every_admission_error_has_its_sentence() {
    let errors: Vec<AdmissionError<()>> = vec![
        AdmissionError::Full,
        AdmissionError::SessionMutation,
        AdmissionError::MissingId,
        AdmissionError::Pending,
        AdmissionError::Persistence(()),
    ];
    assert_eq!(
        errors.iter().map(|e| e.message()).collect::<Vec<_>>(),
        vec![
            "任务队列已满，请稍后重新发送",
            "对话操作中，请稍后重新发送",
            "消息 ID 不能为空",
            "该消息正在保存接收状态",
            "消息状态保存失败",
        ]
    );
}

#[test]
fn nothing_starts_while_a_session_is_changed() {
    let mut scheduler = Scheduler::new(4);
    assert!(scheduler.is_idle());
    assert!(scheduler.begin_session_mutation());
    assert!(!scheduler.is_idle());
    assert!(!scheduler.begin_session_mutation());
    assert!(matches!(scheduler.reserve("m1".into(), task("1")), Err(AdmissionError::SessionMutation)));
    assert!(scheduler.start_next().is_none());
    scheduler.end_session_mutation();
    assert!(scheduler.is_idle());
}
