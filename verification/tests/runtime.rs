use bridge_app::diagnostics::Event;
use bridge_app::events::{AgentEvent, Incoming, TurnOutcome};
use bridge_app::interactions::ReplyOutcome;
use bridge_app::messaging::MessageId;
use bridge_app::model::{Directory, ExecutionMode};
use bridge_app::outcome::{Compaction, Outcome};
use bridge_app::ports::{BackendError, Sandbox, TurnInput, TurnRef};
use bridge_app::presentation::Request;
use bridge_app::requests::{AgentRequest, Approval, ApprovalKind, Question, RequestKind};
use bridge_app::runtime::ack::Receipts;
use bridge_app::runtime::limits;
use bridge_app::runtime::state::{
    ActiveKind, CardDone, DeliveryDone, Done, Job, Jobs, SessionDone, TaskDone,
};
use bridge_app::runtime::tokens;
use bridge_app::runtime::{Ack, Input, Runtime, RuntimeError, Settings};
use bridge_app::sessions::{SessionStoreError, StartError};
use bridge_app::textmap::TextMap;

const SECOND: u64 = 1_000_000_000;
const START: u64 = 1_000_000_000_000;

fn dir(path: &str) -> Directory {
    Directory { text: path.to_string(), path: path.to_string() }
}

fn runtime() -> Runtime {
    Runtime::new(
        Settings {
            root: dir("/root"),
            directory: dir("/root"),
            allowed: vec!["user".into(), "second".into()],
            open_access: false,
            sandbox: Sandbox::WorkspaceWrite,
            epoch: 1,
        },
        true,
        TextMap::new(),
        128,
        START,
    )
}

fn input(id: &str, user: &str, text: &str, receipt: u64) -> Input {
    Input {
        attachments: vec![],
        card: None,
        id: id.into(),
        user: user.into(),
        chat: "chat".into(),
        text: Some(text.into()),
        ack: Ack::from_receipt(Some(receipt)),
    }
}

fn turn(id: &str) -> TurnRef {
    TurnRef { epoch: 1, thread_id: "thread".into(), turn_id: id.into() }
}

fn texts(runtime: &mut Runtime) -> Vec<String> {
    runtime
        .take_sent()
        .into_iter()
        .map(|r| match r {
            Request::Text(_, text) => text,
            Request::Answer { text, .. } => text,
            Request::Progress { text, .. } => text,
        })
        .collect()
}

/// Brings a runtime to the point where the task of `user` runs as turn "t".
fn running() -> Runtime {
    running_in(ExecutionMode::Execute)
}

fn running_in(mode: ExecutionMode) -> Runtime {
    let mut r = runtime();
    assert!(matches!(r.handle_input(input("m1", "user", "修复登录", 1), START), Ok(None)));
    let (ticket, claimed) = match r.take_jobs().pop() {
        Some(Job::ClaimTask { ticket, input }) => (ticket, input),
        _ => panic!("the message is claimed"),
    };
    assert!(r
        .handle_done(Done::Task(TaskDone::Admission { ticket, input: claimed, result: Ok(true) }), START)
        .is_ok());
    assert_eq!(r.take_receipts(), vec![(1, true)]);
    assert!(r.maintain(START).is_ok());
    let task = match r.take_jobs().pop() {
        Some(Job::Prepare { task, .. }) => task,
        _ => panic!("the task is prepared"),
    };
    let prepared = TurnInput {
        thread_id: "thread".into(),
        directory: dir("/root"),
        prompt: task.prompt.clone(),
        images: vec![],
        model: "m".into(),
        mode,
        sandbox: Sandbox::WorkspaceWrite,
    };
    assert!(r
        .handle_done(Done::Task(TaskDone::Prepared { id: task.id.clone(), result: Ok(prepared) }), START)
        .is_ok());
    match r.take_jobs().pop() {
        Some(Job::StartTurn { id, input }) => {
            assert_eq!(id, task.id);
            assert_eq!(input.prompt, "修复登录");
        }
        _ => panic!("the turn is started"),
    }
    assert!(r
        .handle_done(Done::Task(TaskDone::Started { id: task.id, result: Ok(turn("t")) }), START)
        .is_ok());
    assert!(r.take_jobs().is_empty());
    r.take_sent();
    r
}

/// Brings a runtime to the point where a compaction was submitted and not yet
/// acknowledged.
fn compacting() -> Runtime {
    let mut r = runtime();
    assert!(matches!(r.handle_input(input("c", "user", "/compact", 1), START), Ok(None)));
    let (claimed, session) = match r.take_jobs().pop() {
        Some(Job::ClaimCompact { input, session }) => (input, session),
        _ => panic!("the compaction is claimed"),
    };
    let claim = SessionDone::CompactClaim { input: claimed, session, result: Ok(true) };
    assert!(r.handle_done(Done::Session(claim), START).is_ok());
    let id = match r.take_jobs().pop() {
        Some(Job::PrepareCompact { id, .. }) => id,
        _ => panic!("the compaction is prepared"),
    };
    let prepared = SessionDone::CompactPrepared { id, result: Ok("thread".into()) };
    assert!(r.handle_done(Done::Session(prepared), START).is_ok());
    assert!(matches!(r.take_jobs().pop(), Some(Job::Compact { .. })));
    r.take_sent();
    r
}

fn parked(r: &Runtime) -> bool {
    matches!(
        r.active().as_ref().map(|active| &active.kind),
        Some(ActiveKind::Compact { terminal: Some(Outcome::Compact(Compaction::Completed)), .. })
    )
}

fn finished(id: &str) -> AgentEvent {
    AgentEvent::Finished { turn: turn(id), outcome: TurnOutcome::Completed }
}

#[test]
fn flow_compact_terminal_before_ack_keeps_mutation_gate_and_sends_no_success() -> Result<(), RuntimeError> {
    let mut r = compacting();
    r.event(finished("compact"), START)?;
    assert!(r.take_sent().is_empty());
    assert!(!r.scheduler().is_idle());
    if !parked(&r) {
        return Err(RuntimeError::Internal("missing terminal"));
    }
    r.finish(Outcome::Compact(Compaction::Completed))?;
    assert!(r.active().is_none());
    assert!(r.scheduler().is_idle());
    assert!(matches!(
        r.take_sent().pop(),
        Some(Request::Text(_, text)) if text == "上下文压缩完成。"
    ));
    Ok(())
}

#[test]
fn runtime_compact_terminal_before_ack_keeps_mutation_gate_and_sends_no_success() -> Result<(), String> {
    let mut r = compacting();
    r.event(finished("compact"), START).map_err(|e| e.message())?;
    assert!(r.take_sent().is_empty());
    assert!(!r.scheduler().is_idle());
    if !parked(&r) {
        return Err("missing terminal".into());
    }
    r.finish(Outcome::Compact(Compaction::Completed)).map_err(|e| e.message())?;
    assert!(r.active().is_none());
    assert!(r.scheduler().is_idle());
    assert!(matches!(r.take_sent().pop(), Some(Request::Text(_, text)) if text == "上下文压缩完成。"));
    Ok(())
}

#[test]
fn slow_user_jobs_leave_the_control_reserve_available() {
    let mut jobs = Jobs { running: 0, spawned: vec![] };
    for _ in 0..(limits::BACKGROUND_JOBS - limits::CONTROL_JOB_RESERVE) {
        jobs.running += 1;
    }
    assert!(!jobs.can_spawn(false));
    assert!(jobs.can_spawn(true));

    for _ in 0..limits::CONTROL_JOB_RESERVE {
        assert!(jobs.can_spawn(true));
        jobs.running += 1;
    }
    assert!(!jobs.can_spawn(false));
    assert!(!jobs.can_spawn(true));
}

#[test]
fn first_settle_wins_and_drop_rejects() {
    let mut receipts = Receipts::default();
    let (id, mut ack) = receipts.register().unwrap_or_else(|| panic!("a number"));
    let first = ack.settle(true);
    assert_eq!(first, Some((id, true)));
    assert_eq!(ack.settle(false), None);
    assert_eq!(receipts.decide(id, true), Some(true));
    assert_eq!(receipts.decide(id, false), None);

    let (dropped, ack) = receipts.register().unwrap_or_else(|| panic!("a number"));
    assert_ne!(dropped, id);
    drop(ack);
    assert_eq!(receipts.close(), vec![dropped]);
    assert_eq!(receipts.decide(dropped, true), None);
    assert!(receipts.close().is_empty());

    let mut ack = Ack::detached();
    assert_eq!(ack.settle(true), None);
}

#[test]
fn tokens_carry_their_epoch_and_sequence() {
    assert_eq!(tokens::panel_prefix(7, 12), "panel-7-12");
    assert_eq!(tokens::confirmation(7, 12), "cd-7-12");
    assert_eq!(tokens::approval(7, 12).as_str(), "approval-7-12");
    assert_eq!(tokens::task_id(7, 12), "7:12");
    assert_eq!(tokens::plan("7:12"), "plan-7:12");
    assert_eq!(tokens::click_receipt("panel-7-12-0"), "card:panel-7-12-0");
}

#[test]
fn a_task_runs_from_message_to_answer() {
    let mut r = running();
    for delta in ["你", "好"] {
        assert!(r
            .handle_protocol(
                Incoming::Notification(AgentEvent::Output {
                    turn: turn("t"),
                    item: "i".into(),
                    delta: delta.into()
                }),
                START
            )
            .is_ok());
    }
    assert!(r.handle_protocol(Incoming::Notification(finished("t")), START + SECOND).is_ok());
    assert!(r.active().is_none());
    let sent = texts(&mut r);
    assert_eq!(sent, vec!["执行完成\n\n你好"]);
    assert!(r.take_records().iter().any(|record| record.event == Event::TaskFinished));
}

#[test]
fn strangers_are_only_told_that_they_are_strangers() {
    let mut r = runtime();
    assert!(matches!(r.handle_input(input("m1", "other", "hello", 9), START), Ok(None)));
    assert_eq!(r.take_receipts(), vec![(9, true)]);
    assert!(r.take_jobs().is_empty());
    assert_eq!(r.scheduler().queued(), 0);
    assert!(texts(&mut r)[0].contains("尚未授权"));
}

#[test]
fn inputs_without_an_identity_are_rejected() {
    let mut r = runtime();
    assert!(matches!(r.handle_input(input("", "user", "hello", 9), START), Ok(None)));
    assert!(matches!(r.handle_input(input("m", "", "hello", 10), START), Ok(None)));
    assert_eq!(r.take_receipts(), vec![(9, false), (10, false)]);
    assert!(r.take_sent().is_empty());
}

#[test]
fn commands_run_once_per_message() {
    let mut r = runtime();
    assert!(r.handle_input(input("m1", "user", "/status", 1), START).is_ok());
    assert_eq!(r.take_sent().len(), 1);
    assert!(r.handle_input(input("m1", "user", "/status", 2), START).is_ok());
    assert!(r.take_sent().is_empty());
    assert_eq!(r.take_receipts(), vec![(1, true), (2, true)]);
}

#[test]
fn pairing_is_throttled_and_admits_its_user() {
    let mut r = runtime();
    for i in 0..10 {
        let paired = r.handle_input(input(&format!("p{i}"), "other", "/pair 1234", i), START);
        match paired {
            Ok(Some(p)) => assert_eq!(p.code, "1234"),
            _ => panic!("an attempt"),
        }
    }
    assert!(matches!(r.handle_input(input("p", "other", "/pair 1234", 99), START), Ok(None)));
    assert_eq!(r.take_receipts(), vec![(99, true)]);
    match r.handle_input(input("q", "other", "/pair 1234", 100), START + 60 * SECOND) {
        Ok(Some(p)) => assert!(r.handle_paired(p.input, Ok(true)).is_ok()),
        _ => panic!("the window is open again"),
    }
    assert!(texts(&mut r)[0].starts_with("配对成功"));
    assert!(r.handle_input(input("m", "other", "/status", 101), START).is_ok());
    assert!(texts(&mut r)[0].starts_with("Rust 桥接服务"));
    assert!(r.handle_paired(input("z", "third", "/pair 1", 5), Err(SessionStoreError)).is_ok());
    assert_eq!(r.take_receipts(), vec![(100, true), (101, true), (5, false)]);
    r.take_sent();
    assert!(r.handle_input(input("n", "third", "/status", 102), START).is_ok());
    assert!(texts(&mut r)[0].contains("尚未授权"));
}

fn approval_of(id: &str) -> AgentRequest {
    AgentRequest {
        turn: turn(id),
        item: "item".into(),
        kind: RequestKind::Approval(Approval {
            permissions: None,
            network_context: None,
            changes: None,
            kind: ApprovalKind::Command,
            command: Some("echo".into()),
            directory: Some("/root".into()),
            reason: None,
            grant_root: None,
            can_allow: true,
        }),
    }
}

fn question_of(id: &str) -> AgentRequest {
    AgentRequest {
        turn: turn(id),
        item: "item".into(),
        kind: RequestKind::Questions {
            blocking: true,
            questions: vec![Question {
                id: "q".into(),
                header: "h".into(),
                text: "t".into(),
                other: true,
                secret: false,
                options: vec![],
            }],
        },
    }
}

#[test]
fn requests_of_unknown_turns_are_denied() {
    let mut r = running();
    assert!(r.handle_protocol(Incoming::Request { request: approval_of("gone"), reply: 5 }, START).is_ok());
    assert!(matches!(r.take_jobs().pop(), Some(Job::Deny { reply: 5 })));
    assert!(r.interactions().is_empty());
}

#[test]
fn approvals_are_carded_clicked_and_answered_once() {
    let mut r = running();
    assert!(r.handle_protocol(Incoming::Request { request: approval_of("t"), reply: 5 }, START).is_ok());
    assert!(r.maintain(START).is_ok());
    let (token, panel, commands) = match r.take_jobs().pop() {
        Some(Job::SendCard { token, panel, commands, .. }) => (token, panel, commands),
        _ => panic!("the card is sent"),
    };
    assert_eq!(token, "approval-1-1");
    let button = commands[0].0.clone();
    assert_eq!(commands[0].1, "/approve approval-1-1");
    assert!(r
        .handle_done(
            Done::Card(CardDone::ApprovalSent { token, panel, commands, result: Ok(MessageId("card".into())) }),
            START
        )
        .is_ok());
    let click = |receipt: u64| Input {
        attachments: vec![],
        card: Some(bridge_app::cards::Click { token: button.clone(), source: "card".into() }),
        id: "click".into(),
        user: "user".into(),
        chat: "chat".into(),
        text: None,
        ack: Ack::from_receipt(Some(receipt)),
    };
    assert!(r.handle_input(click(21), START + SECOND).is_ok());
    match r.take_jobs().pop() {
        Some(Job::Reply { pending, allow }) => {
            assert_eq!(pending.reply, 5);
            assert!(allow);
        }
        _ => panic!("the agent is answered"),
    }
    assert!(r.handle_input(click(22), START + SECOND).is_ok());
    assert!(r.take_jobs().is_empty());
    assert!(texts(&mut r).iter().any(|t| t.starts_with("卡片操作无效")));
    assert_eq!(r.take_receipts(), vec![(21, true), (22, true)]);
}

#[test]
fn due_approvals_are_denied_and_due_questions_stop_the_run() {
    let late = START + limits::INTERACTION_TIMEOUT;
    let mut r = running();
    assert!(r.handle_protocol(Incoming::Request { request: approval_of("t"), reply: 5 }, START).is_ok());
    assert!(r.maintain(late).is_ok());
    assert!(r
        .take_jobs()
        .iter()
        .any(|job| matches!(job, Job::Reply { pending, allow: false } if pending.reply == 5)));
    assert!(r.interactions().is_empty());

    let mut r = running_in(ExecutionMode::Plan);
    assert!(r.handle_protocol(Incoming::Request { request: question_of("t"), reply: 6 }, START).is_ok());
    assert!(matches!(r.maintain(late), Err(RuntimeError::Interaction(_))));
    assert!(!r.take_jobs().iter().any(|job| matches!(job, Job::Reply { .. })));
}

#[test]
fn questions_outside_plan_mode_stop_the_run() {
    let mut r = running();
    assert!(matches!(
        r.handle_protocol(Incoming::Request { request: question_of("t"), reply: 6 }, START),
        Err(RuntimeError::Interaction(_))
    ));
    assert!(texts(&mut r)[0].starts_with("普通执行模式不支持"));
}

#[test]
fn a_shutdown_denies_every_open_request_and_ends_the_turn() {
    let mut r = running();
    assert!(r.handle_protocol(Incoming::Request { request: approval_of("t"), reply: 5 }, START).is_ok());
    assert_eq!(r.shut_down(), Some(turn("t")));
    assert!(r
        .take_jobs()
        .iter()
        .any(|job| matches!(job, Job::Reply { pending, allow: false } if pending.reply == 5)));
    assert!(r.active().is_none());
}

#[test]
fn unknown_results_stop_the_run() {
    let mut r = running();
    assert!(matches!(
        r.handle_done(Done::Task(TaskDone::Control { result: Err(BackendError::Uncertain) }), START),
        Err(RuntimeError::Backend(_))
    ));
    let mut r = running();
    let outcome = ReplyOutcome {
        questions: false,
        chat: "chat".into(),
        allow: true,
        result: Err(BackendError::Uncertain),
        submitted: true,
    };
    assert!(r.handle_done(Done::Card(CardDone::ApprovalReplied { outcome }), START).is_err());
    let mut r = runtime();
    assert!(r
        .handle_done(
            Done::Session(SessionDone::SessionChanged { chat: "chat".into(), result: Err(StartError::Reconcile) }),
            START
        )
        .is_err());
    let mut r = runtime();
    assert!(r
        .handle_done(Done::Session(SessionDone::ArchiveSynced { result: Err(SessionStoreError) }), START)
        .is_err());
}

#[test]
fn session_chains_hold_the_gate_until_they_end() {
    let mut r = runtime();
    assert!(r.handle_input(input("m1", "user", "/plan on", 1), START).is_ok());
    assert!(!r.scheduler().is_idle());
    let (claimed, session, change) = match r.take_jobs().pop() {
        Some(Job::ClaimPreference { input, session, change }) => (input, session, change),
        _ => panic!("the change is claimed"),
    };
    assert!(r
        .handle_done(
            Done::Session(SessionDone::PreferenceClaim { input: claimed, session, change, result: Ok(true) }),
            START
        )
        .is_ok());
    assert!(!r.scheduler().is_idle());
    assert!(matches!(r.take_jobs().pop(), Some(Job::ChangePreference { .. })));
    assert!(r
        .handle_done(
            Done::Session(SessionDone::PreferenceChanged { chat: "chat".into(), result: Ok(()) }),
            START
        )
        .is_ok());
    assert!(r.scheduler().is_idle());
}

#[test]
fn repeated_claims_start_nothing_and_open_the_gate() {
    let mut r = runtime();
    assert!(r.handle_input(input("m1", "user", "/compact", 1), START).is_ok());
    let (claimed, session) = match r.take_jobs().pop() {
        Some(Job::ClaimCompact { input, session }) => (input, session),
        _ => panic!("the compaction is claimed"),
    };
    assert!(r
        .handle_done(
            Done::Session(SessionDone::CompactClaim { input: claimed, session, result: Ok(false) }),
            START
        )
        .is_ok());
    assert_eq!(r.take_receipts(), vec![(1, true)]);
    assert!(r.take_jobs().is_empty());
    assert!(r.active().is_none());
    assert!(r.scheduler().is_idle());
}

#[test]
fn early_compaction_end_is_told_at_the_acknowledgement() {
    let mut r = compacting();
    assert!(r.event(finished("compact"), START).is_ok());
    assert!(r
        .handle_done(
            Done::Session(SessionDone::CompactSubmitted { id: "1:1".into(), result: Ok(()) }),
            START
        )
        .is_ok());
    assert_eq!(texts(&mut r), vec!["上下文压缩完成。"]);
    assert!(r.scheduler().is_idle());
}

#[test]
fn output_is_cut_at_its_bound() {
    let mut r = running();
    for _ in 0..3 {
        assert!(r
            .event(
                AgentEvent::Output { turn: turn("t"), item: "i".into(), delta: "文".repeat(6000) },
                START
            )
            .is_ok());
    }
    let active = match r.active() {
        Some(active) => active,
        None => panic!("the task runs"),
    };
    assert_eq!(active.output.len(), 32766);
    assert!(active.truncated);
}

#[test]
fn stopping_interrupts_the_running_turn() {
    let mut r = running();
    assert!(r.handle_input(input("m2", "user", "/stop", 2), START).is_ok());
    assert!(r.take_jobs().iter().any(|job| matches!(job, Job::Interrupt { turn: t } if *t == turn("t"))));
    assert_eq!(r.take_receipts(), vec![(2, true)]);
}

#[test]
fn tasks_time_out() {
    let mut r = running();
    assert!(r.handle_tick(START + limits::TASK_TIMEOUT).is_ok());
    assert!(matches!(r.handle_tick(START + limits::TASK_TIMEOUT + 1), Err(RuntimeError::Maintenance(_))));
}

#[test]
fn help_is_a_card_and_its_buttons_act_for_their_owner_only() {
    let mut r = runtime();
    assert!(r.handle_input(input("m1", "user", "/help", 1), START).is_ok());
    let (owner, panel, commands, deadline) = match r.take_jobs().pop() {
        Some(Job::SendPanel { owner, panel, commands, deadline, .. }) => (owner, panel, commands, deadline),
        _ => panic!("a card is sent"),
    };
    let button = commands[0].0.clone();
    let entries = bridge_app::runtime::flow::panel_entries(commands, &owner, deadline);
    assert!(r
        .handle_done(
            Done::Card(CardDone::PanelSent {
                refreshed: false,
                panel,
                entries,
                result: Ok(MessageId("card".into()))
            }),
            START
        )
        .is_ok());
    let click = |user: &str| Input {
        attachments: vec![],
        card: Some(bridge_app::cards::Click { token: button.clone(), source: "card".into() }),
        id: "click".into(),
        user: user.into(),
        chat: "chat".into(),
        text: None,
        ack: Ack::detached(),
    };
    assert!(r.handle_input(click("second"), START).is_ok());
    assert!(texts(&mut r)[0].starts_with("卡片操作无效"));
    assert!(r.handle_input(click("user"), START).is_ok());
    let sent = texts(&mut r);
    assert_eq!(sent.len(), 1);
    assert!(!sent[0].starts_with("卡片操作无效"));
    assert!(r.handle_input(click("user"), START).is_ok());
    assert!(texts(&mut r)[0].starts_with("卡片操作无效"));
}

#[test]
fn a_full_outbox_stops_the_run() {
    let mut r = runtime();
    r.sender_is_at(0, false);
    assert!(matches!(
        r.handle_input(input("m1", "user", "/status", 1), START),
        Err(RuntimeError::Capacity(_))
    ));
    assert_eq!(r.take_receipts(), vec![(1, false)]);
    assert!(r.handle_input(input("m2", "user", "/stop", 2), START).is_err());
    assert!(r.handle_input(input("m3", "stranger", "hello", 3), START).is_err());
    assert!(r.handle_paired(input("m4", "stranger", "/pair 1", 4), Ok(true)).is_err());
    assert_eq!(r.take_receipts(), vec![(2, false), (3, false), (4, false)]);
}

#[test]
fn a_failed_archive_sync_opens_the_gate_and_stops_the_run() {
    let mut r = runtime();
    let archived = AgentEvent::Archived { epoch: 1, thread: "0190a0b0-0000-7000-8000-000000000001".into() };
    assert!(r.handle_protocol(Incoming::Notification(archived), START).is_ok());
    assert!(r.maintain(START).is_ok());
    assert!(matches!(r.take_jobs().pop(), Some(Job::SyncArchive { .. })));
    assert!(!r.scheduler().is_idle());
    let synced = SessionDone::ArchiveSynced { result: Err(SessionStoreError) };
    assert!(matches!(r.handle_done(Done::Session(synced), START), Err(RuntimeError::Storage(_))));
    assert!(r.scheduler().is_idle());
}

#[test]
fn an_uncertain_compaction_opens_the_gate_and_stops_the_run() {
    let mut r = compacting();
    assert!(!r.scheduler().is_idle());
    let submitted = SessionDone::CompactSubmitted { id: "1:1".into(), result: Err(BackendError::Uncertain) };
    assert!(matches!(r.handle_done(Done::Session(submitted), START), Err(RuntimeError::Maintenance(_))));
    assert!(r.scheduler().is_idle());
    assert!(texts(&mut r)[0].starts_with("压缩启动结果不确定"));
}

#[test]
fn a_compaction_that_cannot_be_announced_opens_the_gate() {
    let mut r = runtime();
    assert!(r.handle_input(input("c", "user", "/compact", 1), START).is_ok());
    let (claimed, session) = match r.take_jobs().pop() {
        Some(Job::ClaimCompact { input, session }) => (input, session),
        _ => panic!("the compaction is claimed"),
    };
    r.sender_is_at(0, false);
    let claim = SessionDone::CompactClaim { input: claimed, session, result: Ok(true) };
    assert!(r.handle_done(Done::Session(claim), START).is_err());
    assert_eq!(r.take_receipts(), vec![(1, true)]);
    assert!(r.take_jobs().is_empty());
    assert!(r.scheduler().is_idle());
}

#[test]
fn a_second_request_for_an_item_revokes_the_first() {
    let mut r = running();
    assert!(r.handle_protocol(Incoming::Request { request: approval_of("t"), reply: 5 }, START).is_ok());
    assert!(r.handle_protocol(Incoming::Request { request: approval_of("t"), reply: 6 }, START).is_ok());
    assert!(matches!(r.take_jobs().pop(), Some(Job::Deny { reply: 6 })));
    assert!(texts(&mut r)[0].starts_with("审批请求重复"));
    assert!(r.maintain(START).is_ok());
    assert!(r
        .take_jobs()
        .iter()
        .any(|job| matches!(job, Job::Reply { pending, allow: false } if pending.reply == 5)));
    assert!(r.interactions().is_empty());
}

#[test]
fn file_delivery_ends_with_its_receipt() {
    let mut r = runtime();
    assert!(r.handle_done(Done::Delivery(DeliveryDone::FilesDelivered), START).is_ok());
    assert!(r.maintain(START).is_ok());
    assert!(r.take_jobs().is_empty());
}

#[test]
fn plans_are_offered_only_when_they_were_kept_whole() {
    let plan = |text: String| {
        let mut r = running_in(ExecutionMode::Plan);
        assert!(r.event(AgentEvent::Plan { turn: turn("t"), item: "i".into(), text }, START).is_ok());
        assert!(r.event(finished("t"), START).is_ok());
        r
    };
    match plan("第一步".into()).plan_offer() {
        Some(offer) => {
            assert_eq!(offer.text, "第一步");
            assert_eq!(offer.token, "plan-1:1");
            assert!(!offer.sent);
        }
        None => panic!("the plan is offered"),
    }
    assert!(plan(" ".into()).plan_offer().is_none());
    assert!(plan("x".repeat(16001)).plan_offer().is_none());
    assert!(plan("x".repeat(40000)).plan_offer().is_none());
    let mut r = running();
    assert!(r.event(AgentEvent::Plan { turn: turn("t"), item: "i".into(), text: "a".into() }, START).is_ok());
    assert!(r.event(finished("t"), START).is_ok());
    assert!(r.plan_offer().is_none());
}

#[test]
fn settings_wait_until_nothing_runs() {
    let mut r = running();
    assert!(r.handle_input(input("m2", "user", "/plan on", 2), START).is_ok());
    assert!(r.take_jobs().is_empty());
    assert_eq!(r.take_receipts(), vec![(2, true)]);
    assert!(texts(&mut r)[0].starts_with("有任务执行中"));
}

#[test]
fn cards_sent_before_a_directory_change_open_nothing() {
    let mut r = runtime();
    assert!(r.handle_input(input("m1", "user", "/help", 1), START).is_ok());
    let (owner, panel, commands, deadline) = match r.take_jobs().pop() {
        Some(Job::SendPanel { owner, panel, commands, deadline, .. }) => (owner, panel, commands, deadline),
        _ => panic!("a card is sent"),
    };
    let token = commands[0].0.clone();
    let entries = bridge_app::runtime::flow::panel_entries(commands, &owner, deadline);
    assert!(r
        .handle_done(
            Done::Session(SessionDone::DirectoryChanged {
                user: "user".into(),
                chat: "chat".into(),
                result: Ok(dir("/root/a"))
            }),
            START
        )
        .is_ok());
    assert_eq!(r.generation("user"), 1);
    assert_eq!(r.current("user"), dir("/root/a"));
    assert!(r
        .handle_done(
            Done::Card(CardDone::PanelSent {
                refreshed: false,
                panel,
                entries,
                result: Ok(MessageId("card".into()))
            }),
            START
        )
        .is_ok());
    r.take_sent();
    let click = Input {
        attachments: vec![],
        card: Some(bridge_app::cards::Click { token, source: "card".into() }),
        id: "click".into(),
        user: "user".into(),
        chat: "chat".into(),
        text: None,
        ack: Ack::detached(),
    };
    assert!(r.handle_input(click, START).is_ok());
    assert!(texts(&mut r)[0].starts_with("卡片操作无效"));
}

#[test]
fn requests_before_the_turn_is_bound_wait_unopened() {
    let mut r = runtime();
    assert!(r.handle_input(input("m1", "user", "修复登录", 1), START).is_ok());
    let (ticket, claimed) = match r.take_jobs().pop() {
        Some(Job::ClaimTask { ticket, input }) => (ticket, input),
        _ => panic!("the message is claimed"),
    };
    assert!(r
        .handle_done(Done::Task(TaskDone::Admission { ticket, input: claimed, result: Ok(true) }), START)
        .is_ok());
    assert!(r.maintain(START).is_ok());
    let id = match r.take_jobs().pop() {
        Some(Job::Prepare { task, .. }) => task.id,
        _ => panic!("the task is prepared"),
    };
    let prepared = TurnInput {
        thread_id: "thread".into(),
        directory: dir("/root"),
        prompt: String::new(),
        images: vec![],
        model: "m".into(),
        mode: ExecutionMode::Execute,
        sandbox: Sandbox::WorkspaceWrite,
    };
    assert!(r.handle_done(Done::Task(TaskDone::Prepared { id, result: Ok(prepared) }), START).is_ok());
    r.take_jobs();
    assert!(r.handle_protocol(Incoming::Request { request: approval_of("t"), reply: 5 }, START).is_ok());
    assert_eq!(r.interactions().len(), 1);
    assert!(r.maintain(START).is_ok());
    assert!(r.take_jobs().is_empty());
}

#[test]
fn status_says_what_runs_where_and_what_waits() {
    let mut r = runtime();
    assert!(r.handle_input(input("m1", "user", "/status", 1), START).is_ok());
    assert_eq!(texts(&mut r), vec!["Rust 桥接服务：空闲\n当前目录：/root\n等待：0，保存中：0"]);
    let mut r = running();
    assert!(r.handle_input(input("m2", "user", "/status", 2), START + 61 * SECOND).is_ok());
    assert_eq!(
        texts(&mut r),
        vec!["Rust 桥接服务：运行中，已用 61 秒\n当前目录：/root\n等待：0，保存中：0"]
    );
}

#[test]
fn previews_are_throttled_and_wait_for_their_delivery() {
    let mut r = running();
    assert!(r.handle_tick(START + 3 * SECOND - 1).is_ok());
    assert!(r.take_sent().is_empty());
    assert!(r.handle_tick(START + 3 * SECOND).is_ok());
    assert_eq!(texts(&mut r), vec!["正在执行 · 已用 3 秒\n\n等待 Codex 输出…"]);
    assert!(r.handle_tick(START + 6 * SECOND).is_ok());
    assert!(r.take_sent().is_empty());
    r.sender_is_at(128, false);
    assert!(r
        .event(
            AgentEvent::Output { turn: turn("t"), item: "i".into(), delta: "文".repeat(1001) },
            START
        )
        .is_ok());
    assert!(r.handle_tick(START + 9 * SECOND).is_ok());
    assert_eq!(
        texts(&mut r),
        vec![format!(
            "正在执行 · 已用 9 秒\n\n{}\n\n（进度预览，完整内容将在结束后发送）",
            "文".repeat(1000)
        )]
    );
}

#[test]
fn directory_creation_needs_a_confirmation_in_time() {
    let mut r = runtime();
    let proposed = SessionDone::DirectoryProposed {
        user: "user".into(),
        chat: "chat".into(),
        current: dir("/root"),
        target: "new".into(),
        result: Ok(Some(dir("/root/new"))),
    };
    assert!(r.handle_done(Done::Session(proposed), START).is_ok());
    match r.take_jobs().pop() {
        Some(Job::SendPanel { panel, commands, .. }) => {
            assert!(panel.body.starts_with("目录不存在：/root/new"));
            assert_eq!(commands[0].1, "/cd-confirm cd-1-1");
        }
        _ => panic!("the confirmation is asked for"),
    }
    assert!(r.handle_tick(START + limits::INTERACTION_TIMEOUT).is_ok());
    assert_eq!(
        texts(&mut r),
        vec!["目录创建确认已过期：/root/new\n未自动创建；如需继续，请重新发送 /cd <路径>。"]
    );
    assert!(r.handle_input(input("m1", "user", "/cd-confirm cd-1-1", 1), START).is_ok());
    assert!(texts(&mut r)[0].starts_with("创建确认无效"));
    assert!(r.take_jobs().is_empty());
}

#[test]
fn answers_are_recorded_question_by_question() {
    let mut r = running_in(ExecutionMode::Plan);
    assert!(r.handle_protocol(Incoming::Request { request: question_of("t"), reply: 6 }, START).is_ok());
    assert!(r.maintain(START).is_ok());
    let (token, panel, commands) = match r.take_jobs().pop() {
        Some(Job::SendCard { token, panel, commands, .. }) => (token, panel, commands),
        _ => panic!("the card is sent"),
    };
    assert_eq!(commands, vec![(commands[0].0.clone(), format!("/choice {token} 0 other"))]);
    let button = commands[0].0.clone();
    assert!(r
        .handle_done(
            Done::Card(CardDone::ApprovalSent {
                token: token.clone(),
                panel,
                commands,
                result: Ok(MessageId("card".into()))
            }),
            START
        )
        .is_ok());
    assert!(r.handle_input(input("m2", "user", &format!("/answer {token} 0 早了"), 2), START).is_ok());
    assert!(texts(&mut r)[0].starts_with("答案未接收"));
    let click = Input {
        attachments: vec![],
        card: Some(bridge_app::cards::Click { token: button, source: "card".into() }),
        id: "click".into(),
        user: "user".into(),
        chat: "chat".into(),
        text: None,
        ack: Ack::detached(),
    };
    assert!(r.handle_input(click, START).is_ok());
    r.take_sent();
    assert!(r.handle_input(input("m3", "user", &format!("/answer {token} 0 茶"), 3), START).is_ok());
    assert_eq!(texts(&mut r), vec!["答案已记录。"]);
    match r.take_jobs().pop() {
        Some(Job::Reply { pending, .. }) => {
            assert_eq!(pending.reply, 6);
            assert_eq!(pending.answers.get("q").map(|a| a.items.clone()), Some(vec!["茶".to_string()]));
        }
        _ => panic!("the answers go back"),
    }
}

#[test]
fn tasks_run_one_at_a_time_in_order() {
    let mut r = running();
    for (id, text) in [("m2", "second"), ("m3", "third")] {
        assert!(r.handle_input(input(id, "user", text, 9), START).is_ok());
        let (ticket, claimed) = match r.take_jobs().pop() {
            Some(Job::ClaimTask { ticket, input }) => (ticket, input),
            _ => panic!("the message is claimed"),
        };
        assert!(r
            .handle_done(Done::Task(TaskDone::Admission { ticket, input: claimed, result: Ok(true) }), START)
            .is_ok());
    }
    assert!(r.maintain(START).is_ok());
    assert!(r.take_jobs().is_empty());
    assert!(r.event(finished("t"), START).is_ok());
    assert!(r.maintain(START).is_ok());
    assert!(matches!(r.take_jobs().pop(), Some(Job::FinishFiles { task }) if task.prompt == "修复登录"));
    assert!(r.maintain(START).is_ok());
    assert!(r.take_jobs().is_empty());
    assert!(r.handle_done(Done::Delivery(DeliveryDone::FilesDelivered), START).is_ok());
    assert!(r.maintain(START).is_ok());
    assert!(matches!(r.take_jobs().pop(), Some(Job::Prepare { task, .. }) if task.prompt == "second"));
    assert_eq!(r.scheduler().queued(), 1);
}
