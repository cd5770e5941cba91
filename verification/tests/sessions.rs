use bridge_app::command::{Command, ParseError};
use bridge_app::messaging::DeliveryError;
use bridge_app::files::PreparedFiles;
use bridge_app::model::{Directory, ExecutionMode, SessionKey, TaskSpec};
use bridge_app::ports::{BackendError, Model, Sandbox, ThreadSummary};
use bridge_app::runtime::errands::{
    reset_clears, reset_result, show_setting, CheckedEvent, CheckedStage, PlanErrand, PlanEvent, PlanStage, SettingEvent,
    SettingStage, TaskErrand, TaskEvent, TaskStage,
};
use bridge_app::runtime::state::{ListedContent, PlanChoice, PreferenceQuery};
use bridge_app::sessions::{
    list, list_entries, valid_thread_id, ChangeEvent, ChangeStage, PreferenceChange, PreferenceUpdate, Preferences,
    Preparation, PrepareEvent, PrepareStage, ResumeEvent, ResumeStage, Resumption, SessionStoreError, StartError,
};

fn dir(path: &str) -> Directory {
    Directory { text: path.to_string(), path: path.to_string() }
}

fn session() -> SessionKey {
    SessionKey { user: "user".into(), workspace: dir("/root") }
}

fn task(model: Option<&str>) -> TaskSpec {
    TaskSpec {
        id: "1:1".into(),
        session: session(),
        chat: "chat".into(),
        prompt: "hello".into(),
        model: model.map(|m| m.to_string()),
        mode: ExecutionMode::Execute,
    }
}

fn thread(id: &str, directory: &str) -> ThreadSummary {
    ThreadSummary { id: id.into(), title: "title".into(), directory: Some(dir(directory)), active: false }
}

fn offered() -> Vec<Model> {
    vec![Model { id: "small".into(), is_default: false }, Model { id: "large".into(), is_default: true }]
}

#[test]
fn a_new_session_starts_a_thread_and_binds_it_before_its_turn() {
    let p = Preparation::prepare(task(None), vec![], Sandbox::WorkspaceWrite);
    assert!(matches!(p.stage, PrepareStage::Models));
    let p = p.step(PrepareEvent::Models(Ok(offered())));
    assert!(matches!(&p.stage, PrepareStage::Previous { model } if model == "large"));
    let p = p.step(PrepareEvent::Previous(Ok(None)));
    assert!(matches!(&p.stage, PrepareStage::Thread { previous: None, .. }));
    let p = p.step(PrepareEvent::Thread(Ok(thread("t1", "/root"))));
    assert!(matches!(&p.stage, PrepareStage::Binding { thread, .. } if thread == "t1"));
    let p = p.step(PrepareEvent::Bound(Ok(())));
    match p.stage {
        PrepareStage::Ended(Ok(input)) => {
            assert_eq!(input.thread_id, "t1");
            assert_eq!(input.prompt, "hello");
            assert_eq!(input.model, "large");
        }
        _ => panic!("the turn is ready"),
    }
}

#[test]
fn a_stored_thread_is_resumed_and_must_stay_in_its_directory() {
    let at = || {
        Preparation::prepare(task(Some("small")), vec![], Sandbox::WorkspaceWrite)
            .step(PrepareEvent::Models(Ok(offered())))
            .step(PrepareEvent::Previous(Ok(Some("t0".into()))))
    };
    assert!(matches!(&at().stage, PrepareStage::Thread { previous: Some(t), .. } if t == "t0"));
    let moved = at().step(PrepareEvent::Thread(Ok(thread("t0", "/elsewhere"))));
    assert!(matches!(moved.stage, PrepareStage::Ended(Err(StartError::Backend(BackendError::Incompatible)))));
    let other = at().step(PrepareEvent::Thread(Ok(thread("t9", "/root"))));
    assert!(matches!(other.stage, PrepareStage::Ended(Err(StartError::Backend(BackendError::Incompatible)))));
    let gone = at().step(PrepareEvent::Thread(Err(BackendError::Disconnected)));
    assert!(matches!(gone.stage, PrepareStage::Ended(Err(StartError::Backend(BackendError::Disconnected)))));
}

#[test]
fn missing_models_and_failed_stores_end_a_preparation() {
    let p = Preparation::prepare(task(None), vec![], Sandbox::WorkspaceWrite)
        .step(PrepareEvent::Models(Ok(vec![Model { id: "small".into(), is_default: false }])));
    assert!(matches!(p.stage, PrepareStage::Ended(Err(StartError::Backend(BackendError::Incompatible)))));
    let p = Preparation::prepare(task(Some("")), vec![], Sandbox::WorkspaceWrite);
    assert!(matches!(p.stage, PrepareStage::Ended(Err(StartError::Backend(BackendError::Incompatible)))));
    let p = Preparation::prepare(task(None), vec![], Sandbox::WorkspaceWrite)
        .step(PrepareEvent::Models(Ok(offered())))
        .step(PrepareEvent::Previous(Err(SessionStoreError)));
    assert!(matches!(p.stage, PrepareStage::Ended(Err(StartError::Storage(_)))));
}

#[test]
fn settings_choose_the_model_and_the_mode_of_a_turn() {
    let p = Preparation::prepare_configured(
        task(None),
        Preferences { model: Some("small".into()), plan: true },
        Sandbox::WorkspaceWrite,
    );
    assert_eq!(p.task.model, Some("small".to_string()));
    assert_eq!(p.task.mode, ExecutionMode::Plan);
}

#[test]
fn resuming_checks_the_thread_before_and_after() {
    let mut r = Resumption::resume(session(), "t1".into());
    assert!(matches!(r.stage, ResumeStage::Reading));
    r.step(ResumeEvent::Thread(Ok(thread("t1", "/root"))));
    assert!(matches!(r.stage, ResumeStage::Resuming));
    r.step(ResumeEvent::Thread(Ok(thread("t1", "/root"))));
    assert!(matches!(r.stage, ResumeStage::Binding));
    r.step(ResumeEvent::Bound(Ok(())));
    assert!(matches!(r.stage, ResumeStage::Ended(Ok(()))));

    let mut r = Resumption::resume(session(), "t1".into());
    r.step(ResumeEvent::Thread(Ok(thread("t1", "/elsewhere"))));
    assert!(matches!(r.stage, ResumeStage::Ended(Err(_))));
    assert!(matches!(Resumption::resume(session(), "not a thread".into()).stage, ResumeStage::Ended(Err(_))));
}

#[test]
fn only_offered_models_are_saved() {
    let mut u = PreferenceUpdate::change_preference(session(), PreferenceChange::Model(Some("small".into())));
    assert!(matches!(u.stage, ChangeStage::Checking));
    u.step(ChangeEvent::Models(Ok(offered())));
    assert!(matches!(u.stage, ChangeStage::Saving));
    u.step(ChangeEvent::Saved(Ok(())));
    assert!(matches!(u.stage, ChangeStage::Ended(Ok(()))));
    let mut u = PreferenceUpdate::change_preference(session(), PreferenceChange::Model(Some("huge".into())));
    u.step(ChangeEvent::Models(Ok(offered())));
    assert!(matches!(u.stage, ChangeStage::Ended(Err(_))));
    let u = PreferenceUpdate::change_preference(session(), PreferenceChange::Plan(true));
    assert!(matches!(u.stage, ChangeStage::Saving));
}

#[test]
fn thread_ids_are_short_and_plain() {
    assert!(valid_thread_id("Thread_1-a"));
    assert!(!valid_thread_id(""));
    assert!(!valid_thread_id("a b"));
    assert!(!valid_thread_id("线程"));
    assert!(valid_thread_id(&"a".repeat(256)));
    assert!(!valid_thread_id(&"a".repeat(257)));
}

#[test]
fn lists_show_the_threads_of_their_directory() {
    let threads = vec![thread("t1", "/root"), thread("t2", "/elsewhere")];
    let entries = list_entries(&threads, &dir("/root"));
    assert_eq!(entries.len(), 1);
    assert_eq!(entries[0].id, "t1");
    assert_eq!(entries[0].title, "title");
    assert!(list(&threads, &dir("/root")).contains("t1"));
    assert!(!list(&threads, &dir("/root")).contains("t2"));
}

#[test]
fn commands_are_parsed_with_their_arguments() {
    assert_eq!(Command::parse("/models"), Ok(Command::Models));
    assert_eq!(Command::parse("/model small"), Ok(Command::Model(Some("small".into()))));
    assert_eq!(Command::parse("/plan on"), Ok(Command::Plan(Some(true))));
    assert_eq!(Command::parse("/plan off"), Ok(Command::Plan(Some(false))));
    assert_eq!(Command::parse("/approve t"), Ok(Command::Approve { token: "t".into(), allow: true }));
    assert_eq!(Command::parse("/deny t"), Ok(Command::Approve { token: "t".into(), allow: false }));
    assert_eq!(Command::parse("/cd a b"), Ok(Command::ChangeDirectory(Some("a b".into()))));
    assert_eq!(Command::parse("/archived"), Ok(Command::Archived));
    assert_eq!(Command::parse("hello"), Err(ParseError));
}

#[test]
fn models_are_asked_for_only_to_be_shown() {
    let preferences = || Preferences { model: Some("m".into()), plan: true };
    let stage = SettingStage::Preferences.step(PreferenceQuery::Plan, SettingEvent::Preferences(Ok(preferences())));
    assert!(matches!(stage, SettingStage::Ended(Ok(ListedContent::Text(t))) if t.starts_with("Plan 模式：已开启")));
    let stage = SettingStage::Preferences.step(PreferenceQuery::Models, SettingEvent::Preferences(Ok(preferences())));
    assert!(matches!(stage, SettingStage::Models { .. }));
    let stage = stage.step(PreferenceQuery::Models, SettingEvent::Models(Err(BackendError::Disconnected)));
    assert!(matches!(stage, SettingStage::Ended(Err(StartError::Backend(BackendError::Disconnected)))));
    let stage = SettingStage::Preferences.step(PreferenceQuery::Model, SettingEvent::Preferences(Err(SessionStoreError)));
    assert!(matches!(stage, SettingStage::Ended(Err(StartError::Storage(_)))));
}

#[test]
fn nothing_is_done_in_an_invalid_directory() {
    let stage: CheckedStage<String> = CheckedStage::Validating;
    let stage = stage.step(CheckedEvent::Acted(Ok("early".into())));
    assert!(matches!(stage, CheckedStage::Validating));
    let stage = stage.step(CheckedEvent::Validated(Err(SessionStoreError)));
    assert!(matches!(stage, CheckedStage::Ended(Err(StartError::Storage(_)))));
    let stage: CheckedStage<String> = CheckedStage::Validating;
    let stage = stage.step(CheckedEvent::Validated(Ok(())));
    assert!(matches!(stage, CheckedStage::Acting));
    let stage = stage.step(CheckedEvent::Acted(Err(StartError::Reconcile)));
    assert!(matches!(stage, CheckedStage::Ended(Err(StartError::Reconcile))));
}

#[test]
fn a_chosen_plan_is_claimed_and_checked_before_settings_change() {
    let mut e = PlanErrand::new("t1".into(), PlanChoice::Implement);
    assert!(matches!(e.stage, PlanStage::Claiming));
    e.step(PlanEvent::Claimed(Ok(true)));
    assert!(matches!(e.stage, PlanStage::Validating));
    e.step(PlanEvent::Validated(Ok(())));
    assert!(matches!(e.stage, PlanStage::Thread));
    e.step(PlanEvent::Thread(Ok(Some("t1".into()))));
    assert!(matches!(e.stage, PlanStage::Preferences));
    e.step(PlanEvent::Preferences(Ok(Preferences { model: None, plan: true })));
    assert!(matches!(e.stage, PlanStage::Reconciling));
    e.step(PlanEvent::Reconciled(Ok(())));
    assert!(matches!(e.stage, PlanStage::Setting));
    assert!(matches!(e.setting(), PreferenceChange::Plan(false)));
    e.step(PlanEvent::Saved(Ok(())));
    assert!(matches!(e.stage, PlanStage::Ended(Ok(true))));

    let mut e = PlanErrand::new("t1".into(), PlanChoice::Implement);
    e.step(PlanEvent::Claimed(Ok(false)));
    assert!(matches!(e.stage, PlanStage::Ended(Ok(false))));
    let mut e = PlanErrand::new("t1".into(), PlanChoice::Fresh);
    e.step(PlanEvent::Claimed(Ok(true)));
    e.step(PlanEvent::Validated(Ok(())));
    e.step(PlanEvent::Thread(Ok(Some("t2".into()))));
    assert!(matches!(e.stage, PlanStage::Ended(Err(_))));
}

#[test]
fn a_task_is_prepared_step_by_step() {
    let e = TaskErrand::new(task(None), Sandbox::WorkspaceWrite).step(TaskEvent::Validated(Ok(())));
    assert!(matches!(e.stage, TaskStage::Staging));
    let mut files = PreparedFiles::default();
    files.staged(dir("/root/a.png"), true);
    let e = e.step(TaskEvent::Staged(Some(Ok(files))));
    let e = e.step(TaskEvent::Preferences(Ok(Preferences::default())));
    let e = e
        .step(TaskEvent::Turn(PrepareEvent::Models(Ok(offered()))))
        .step(TaskEvent::Turn(PrepareEvent::Previous(Ok(None))))
        .step(TaskEvent::Turn(PrepareEvent::Thread(Ok(thread("t1", "/root")))))
        .step(TaskEvent::Turn(PrepareEvent::Bound(Ok(()))));
    assert!(matches!(e.stage, TaskStage::Files { .. }));
    match e.step(TaskEvent::Bound(Some(Ok(())))).stage {
        TaskStage::Ended(Ok(input)) => {
            assert_eq!(input.thread_id, "t1");
            assert_eq!(input.images, vec![dir("/root/a.png")]);
        }
        _ => panic!("the task is ready"),
    }
    let late = TaskErrand::new(task(None), Sandbox::WorkspaceWrite)
        .step(TaskEvent::Validated(Ok(())))
        .step(TaskEvent::Staged(None));
    assert!(matches!(late.stage, TaskStage::Ended(Err(_))));
    let failed = TaskErrand::new(task(None), Sandbox::WorkspaceWrite)
        .step(TaskEvent::Validated(Ok(())))
        .step(TaskEvent::Staged(Some(Err(DeliveryError::TooLarge))));
    assert!(matches!(failed.stage, TaskStage::Ended(Err(e)) if e.contains("文件超过大小限制")));
}

#[test]
fn settings_are_shown_as_asked() {
    let chosen = || Preferences { model: Some("small".into()), plan: true };
    assert!(matches!(
        show_setting(PreferenceQuery::Models, chosen(), offered()),
        ListedContent::Models { entries, current: Some(c) } if entries.len() == 2 && c == "small"
    ));
    assert!(matches!(
        show_setting(PreferenceQuery::Model, chosen(), vec![]),
        ListedContent::Text(t) if t.contains("small")
    ));
    assert!(matches!(show_setting(PreferenceQuery::Plan, chosen(), vec![]), ListedContent::Text(_)));
}

#[test]
fn a_reset_clears_only_what_it_claimed() {
    assert!(reset_clears(&Ok(true)));
    assert!(!reset_clears(&Ok(false)));
    assert!(!reset_clears(&Err(SessionStoreError)));
    assert_eq!(reset_result(Ok(true), Some(Ok(()))), Ok(true));
    assert_eq!(reset_result(Ok(true), Some(Err(SessionStoreError))), Err(()));
    assert_eq!(reset_result(Ok(false), None), Ok(false));
    assert_eq!(reset_result(Err(SessionStoreError), None), Err(()));
}

#[test]
fn session_errors_have_their_sentences() {
    assert_eq!(StartError::Storage(SessionStoreError).message(), "状态保存或读取失败");
    assert_eq!(StartError::Backend(BackendError::Rejected(-5)).message(), "代理拒绝请求（code=-5）");
    assert_eq!(StartError::Backend(BackendError::Uncertain).message(), "代理操作结果未知；请勿自动重试");
    assert_eq!(StartError::Backend(BackendError::Disconnected).message(), "代理连接已关闭");
    assert_eq!(StartError::Backend(BackendError::Incompatible).message(), "代理协议不兼容");
    assert_eq!(StartError::Reconcile.message(), "归档结果不确定，需核对本地绑定和远端状态");
}

#[test]
fn lists_have_one_fixed_form() {
    let mut busy = thread("t2", "/root");
    busy.active = true;
    busy.title = format!("a\nb{}", "文".repeat(200));
    assert_eq!(
        list(&vec![thread("t1", "/root"), busy], &dir("/root")),
        format!(
            "当前目录最近会话（最多 8 项），复制对应命令恢复：\n\ntitle\n/resume t1\n\nab{}（执行中）\n/resume t2",
            "文".repeat(158)
        )
    );
    assert_eq!(list(&vec![], &dir("/root")), "当前目录没有可恢复的会话。");
    let many: Vec<ThreadSummary> = (0..9).map(|i| thread(&format!("t{i}"), "/root")).collect();
    assert_eq!(list_entries(&many, &dir("/root")).len(), 8);
}
