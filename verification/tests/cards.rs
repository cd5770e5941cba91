use bridge_app::approval_card::approval;
use bridge_app::cards::{help, models, question, question_supported, threads, Action, Actions, Click, Views};
use bridge_app::model::Directory;
use bridge_app::plans::{panel as plan_panel, Offer};
use bridge_app::ports::Model;
use bridge_app::requests::{Approval, ApprovalKind, FileChange, Question, QuestionOption};
use bridge_app::sessions::ListedThread;
use bridge_app::view::{ButtonAction, ButtonStyle, Tone};

const SECOND: u64 = 1_000_000_000;

fn dir(path: &str) -> Directory {
    Directory { text: path.to_string(), path: path.to_string() }
}

fn command_approval() -> Approval {
    Approval {
        permissions: None,
        network_context: None,
        changes: None,
        kind: ApprovalKind::Command,
        command: Some("echo ```\n**not a heading**".into()),
        directory: Some("/workspace".into()),
        reason: Some("读取测试结果".into()),
        grant_root: None,
        can_allow: true,
    }
}

fn action(command: &str, deadline: u64, stop_snapshot: Option<(u64, Option<String>)>) -> Action {
    Action {
        generation: 0,
        user: "user".into(),
        chat: "chat".into(),
        directory: dir("/root"),
        source: "source".into(),
        deadline,
        command: command.to_string(),
        stop_snapshot,
    }
}

#[test]
fn approval_details_are_literal_and_incomplete_display_cannot_allow() {
    let mut request = command_approval();
    let (card, commands) = approval(&request, "request-1", "card-1");
    assert!(card.body.contains("````\necho ```\n**not a heading**\n````"));
    assert!(card.body.contains("/workspace"));
    assert_eq!(
        commands.iter().map(|(_, command)| command.as_str()).collect::<Vec<_>>(),
        vec!["/approve request-1", "/deny request-1"]
    );
    assert!(card.buttons.iter().all(|button| button.group.is_none()));
    for value in ["x".repeat(4097), "hidden\u{1b}[0m".into()] {
        request.command = Some(value);
        let (card, commands) = approval(&request, "request-1", "card-2");
        assert_eq!(commands.len(), 1);
        assert_eq!(commands[0].1, "/deny request-1");
        assert!(card.body.contains("暂不能通过卡片同意"));
    }
    request.command = Some("echo ok".into());
    request.can_allow = false;
    assert_eq!(approval(&request, "request-1", "card-3").1.len(), 1);
    request.can_allow = true;
    request.command = None;
    assert_eq!(approval(&request, "request-1", "missing-command").1.len(), 1);
    request.command = Some("echo ok".into());
    request.directory = None;
    assert_eq!(approval(&request, "request-1", "missing-directory").1.len(), 1);
    request.directory = Some("/workspace".into());
    request.can_allow = true;
    request.kind = ApprovalKind::FileChange;
    let (card, commands) = approval(&request, "request-1", "card-4");
    assert!(card.body.contains("尚未提供逐文件修改详情"));
    assert_eq!(commands.len(), 1);
    request.kind = ApprovalKind::WriteStdin;
    request.command = Some("`".repeat(4096));
    request.directory = request.command.clone();
    request.reason = request.command.clone();
    let (card, commands) = approval(&request, "request-1", "card-5");
    assert!(card.body.len() < 24 * 1024);
    assert_eq!(commands.len(), 1);
}

#[test]
fn view_updates_remove_only_consumed_actions_and_expire_remaining_buttons() -> Result<(), &'static str> {
    let now = 5 * SECOND;
    let deadline = now + 600 * SECOND;
    let (panel, commands) = help("view");
    let mut actions = Actions::default();
    actions.insert(
        commands.into_iter().map(|(token, command)| (token, action(&command, deadline, None))).collect(),
        now,
    );
    let mut views = Views::default();
    views.insert("source".into(), panel);
    assert!(views.next_update(&actions, now, &(0, None)).is_none());
    let click = Click { token: "view-0".into(), source: "source".into() };
    assert!(actions.take(&click, "wrong", "chat", &dir("/root"), now, &(0, None)).is_none());
    assert!(views.next_update(&actions, now, &(0, None)).is_none());
    assert_eq!(
        actions.take(&click, "user", "chat", &dir("/root"), now, &(0, None)),
        Some("/status".into())
    );
    let (_, updated) = views.next_update(&actions, now, &(0, None)).ok_or("consumed view")?;
    assert_eq!(updated.buttons.len(), 8);
    assert!(updated.body.contains("操作结果请查看单独回复"));
    assert!(views.next_update(&actions, now, &(0, None)).is_none());
    let (_, expired) = views.next_update(&actions, deadline, &(0, None)).ok_or("expired view")?;
    assert!(expired.buttons.is_empty());
    assert!(expired.body.contains("均已使用或失效"));
    assert!(views.is_empty());
    Ok(())
}

#[test]
fn view_updates_follow_directory_invalidation_and_stale_stop() -> Result<(), &'static str> {
    let now = 5 * SECOND;
    let (panel, commands) = help("view");
    let mut actions = Actions::default();
    actions.insert(
        commands
            .into_iter()
            .map(|(token, command)| {
                let stop_snapshot = if command == "/stop" { Some((0, None)) } else { None };
                (token, action(&command, now + 600 * SECOND, stop_snapshot))
            })
            .collect(),
        now,
    );
    let mut views = Views::default();
    views.insert("source".into(), panel);
    let (_, updated) = views.next_update(&actions, now, &(1, None)).ok_or("stale stop")?;
    assert_eq!(updated.buttons.len(), 8);
    assert!(!updated.buttons.iter().any(|b| b.label.contains("停止")));
    actions.invalidate("user");
    let (_, updated) = views.next_update(&actions, now, &(1, None)).ok_or("directory changed")?;
    assert!(updated.buttons.is_empty());
    Ok(())
}

#[test]
fn stale_stop_and_expired_card_do_not_consume_valid_action() {
    let now = 5 * SECOND;
    let deadline = now + 600 * SECOND;
    let mut registry = Actions::default();
    let snapshot = (2, Some("task".into()));
    let mut stop = action("/stop", deadline, Some(snapshot.clone()));
    stop.source = "card".into();
    assert!(registry.insert(vec![("token".into(), stop)], now));
    let click = Click { token: "token".into(), source: "card".into() };
    let root = dir("/root");
    assert!(registry.take(&click, "user", "chat", &root, now, &(3, Some("new".into()))).is_none());
    assert!(registry.take(&click, "user", "chat", &root, deadline, &snapshot).is_none());
    assert_eq!(registry.take(&click, "user", "chat", &root, now, &snapshot), Some("/stop".into()));
    assert!(registry.take(&click, "user", "chat", &root, now, &snapshot).is_none());
}

fn drinks() -> Question {
    Question {
        id: "drink".into(),
        header: "饮料".into(),
        text: "请选择".into(),
        other: false,
        secret: false,
        options: vec![
            QuestionOption { label: "咖啡".into(), description: "A".into() },
            QuestionOption { label: "茶".into(), description: "B".into() },
        ],
    }
}

#[test]
fn plan_question_does_not_offer_skip_button() {
    let q = drinks();
    let (panel, commands) = question(&q, 0, 1, "token", "panel");
    assert!(panel.buttons.iter().all(|button| button.label != "跳过本题"));
    assert!(commands.iter().all(|(_, command)| !command.ends_with(" skip")));
}

#[test]
fn lists_preserve_fallback_context_and_offer_full_width_navigation() {
    let entries = vec![ListedThread { id: "thread-1".into(), title: "登录修复".repeat(30), active: true }];
    let (card, commands) = threads(&entries, false, "recent");
    assert!(card.body.contains(&entries[0].title));
    assert!(card.body.contains("（执行中）"));
    assert!(card.body.contains("/resume thread-1"));
    assert!(card.body.contains("/archive thread-1"));
    assert!(card.buttons.iter().all(|b| b.group.is_none() && b.label.chars().count() < 20));
    assert_eq!(commands.last().map(|(_, c)| c.as_str()), Some("/archived"));
    let (empty, commands) = threads(&vec![], true, "empty");
    assert!(empty.body.contains("没有已归档会话"));
    assert_eq!(
        commands.iter().map(|(_, c)| c.as_str()).collect::<Vec<_>>(),
        vec!["/archived", "/resume"]
    );
    let (_, archived) = threads(&entries, true, "archive");
    assert_eq!(archived[0].1, "/unarchive thread-1");
    assert!(!archived.iter().any(|(_, c)| c.starts_with("/archive ")));
    let (card, _) = models(&vec![Model { id: "long-model".repeat(20), is_default: false }], None, "models");
    assert!(card.buttons.iter().all(|b| b.group.is_none()));
    assert!(card.body.contains("全局空闲"));
}

#[test]
fn list_cards_keep_thread_commands_and_model_selection() {
    let entries = vec![ListedThread { id: "thread-1".into(), title: "修复登录".into(), active: false }];
    let (_, thread_commands) = threads(&entries, false, "threads");
    assert_eq!(thread_commands[0].1, "/resume thread-1");
    assert_eq!(thread_commands[1].1, "/archive thread-1");

    let available_models = vec![Model { id: "gpt-test".into(), is_default: true }];
    let (_, model_commands) = models(&available_models, Some("gpt-test"), "models");
    assert_eq!(model_commands[0].1, "/model gpt-test");
    assert_eq!(model_commands.last().map(|(_, command)| command.as_str()), Some("/models"));
    assert!(model_commands.iter().any(|(_, command)| command == "/model default"));
}

#[test]
fn button_tokens_number_the_buttons_of_a_card() {
    let (card, commands) = help("panel-1-2");
    assert_eq!(card.buttons.len(), commands.len());
    for (i, button) in card.buttons.iter().enumerate() {
        let ButtonAction::Interaction { token, choice } = &button.action;
        assert_eq!(token, &format!("panel-1-2-{i}"));
        assert_eq!(&commands[i].0, token);
        assert_eq!(choice, "run");
    }
}

#[test]
fn file_changes_are_shown_whole_before_they_can_be_allowed() {
    let mut request = command_approval();
    request.kind = ApprovalKind::FileChange;
    request.command = None;
    request.changes = Some(vec![FileChange {
        path: "src/a.rs".into(),
        operation: "update".into(),
        move_path: None,
        diff: "-old\n+new".into(),
    }]);
    let (card, commands) = approval(&request, "request-1", "card");
    assert!(card.body.contains("src/a.rs"));
    assert!(card.body.contains("-old\n+new"));
    assert_eq!(commands[0].1, "/approve request-1");
    assert_eq!(commands.len(), 2);
    request.changes = Some(vec![]);
    assert_eq!(approval(&request, "request-1", "card").1.len(), 1);
}

#[test]
fn questions_number_their_options_and_offer_free_text_only_where_allowed() {
    let mut q = drinks();
    assert!(question_supported(&q));
    let (_, commands) = question(&q, 1, 3, "token", "panel");
    assert_eq!(commands[0], ("panel-0".to_string(), "/choice token 1 0".to_string()));
    assert_eq!(commands[1].1, "/choice token 1 1");
    assert_eq!(commands.len(), 2);
    q.other = true;
    let (_, commands) = question(&q, 1, 3, "token", "panel");
    assert_eq!(commands[2].1, "/choice token 1 other");
    q.secret = true;
    let (panel, commands) = question(&q, 1, 3, "token", "panel");
    assert!(!panel.body.contains("咖啡"));
    assert_eq!(commands.len(), 1);
    q.text = " ".into();
    assert!(!question_supported(&q));
    assert!(question(&q, 1, 3, "token", "panel").1.is_empty());
}

#[test]
fn full_registry_refuses_new_actions_until_old_ones_expire() {
    let now = 5 * SECOND;
    let mut registry = Actions::default();
    let many: Vec<(String, Action)> =
        (0..1000).map(|i| (format!("t{i}"), action("/status", now + SECOND, None))).collect();
    assert!(registry.insert(many, now));
    assert!(!registry.insert(vec![("late".into(), action("/status", now + SECOND, None))], now));
    assert!(registry.get("late").is_none());
    assert!(registry.insert(
        vec![("late".into(), action("/status", now + 9 * SECOND, None))],
        now + 2 * SECOND
    ));
    assert!(registry.get("t0").is_none());
    assert!(registry.get("late").is_some());
}

#[test]
fn plan_offers_keep_their_token_in_every_choice() {
    let offer = Offer {
        task: bridge_app::model::TaskSpec {
            id: "1:1".into(),
            session: bridge_app::model::SessionKey { user: "user".into(), workspace: dir("/root") },
            chat: "chat".into(),
            prompt: String::new(),
            model: None,
            mode: bridge_app::model::ExecutionMode::Plan,
        },
        thread: "thread".into(),
        text: "第一步".into(),
        token: "plan-1:1".into(),
        sent: false,
        deadline: 0,
    };
    let (card, commands) = plan_panel(&offer, "panel-1-0");
    assert!(card.body.contains("第一步"));
    assert_eq!(commands.len(), 3);
    assert!(commands.iter().all(|(_, command)| command.contains("plan-1:1")));
    assert_eq!(card.tone, Tone::Info);
    assert!(card.buttons.iter().all(|b| b.style != ButtonStyle::Destructive));
}

#[test]
fn question_buttons_never_carry_an_answer() {
    let mut other = drinks();
    other.options[0].label = "水".into();
    other.text = "喝什么".into();
    assert_eq!(question(&drinks(), 0, 1, "token", "panel").1, question(&other, 0, 1, "token", "panel").1);
}
