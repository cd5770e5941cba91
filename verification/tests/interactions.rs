use bridge_app::cards::{CardToken, Owner};
use bridge_app::interactions::{
    reply_for, reply_outcome, Choice, Claim, Interactions, Pending, ReplyOutcome, TextOutcome,
};
use bridge_app::model::Directory;
use bridge_app::ports::{BackendError, TurnRef};
use bridge_app::requests::{
    AgentReply, AgentRequest, Answers, Approval, ApprovalKind, Question, QuestionOption, RequestKind,
};
use bridge_app::text::Texts;

const SECOND: u64 = 1_000_000_000;
const NOW: u64 = 5_000_000_000;

fn dir(path: &str) -> Directory {
    Directory { text: path.to_string(), path: path.to_string() }
}

fn token(text: &str) -> CardToken {
    CardToken::new(text.to_string())
}

fn owner() -> Owner {
    Owner {
        user: "user".into(),
        chat: "chat".into(),
        directory: dir("/workspace"),
        generation: 3,
        stop_snapshot: (0, None),
    }
}

fn turn_of(token: &CardToken) -> TurnRef {
    TurnRef { epoch: 1, thread_id: "thread".into(), turn_id: format!("turn-{}", token.as_str()) }
}

fn approval_request(token: &CardToken) -> AgentRequest {
    AgentRequest {
        turn: turn_of(token),
        item: format!("item-{}", token.as_str()),
        kind: RequestKind::Approval(Approval {
            permissions: None,
            network_context: None,
            changes: None,
            kind: ApprovalKind::Command,
            command: Some("echo".into()),
            directory: Some("/workspace".into()),
            reason: None,
            grant_root: None,
            can_allow: true,
        }),
    }
}

fn question_request(token: &CardToken) -> AgentRequest {
    AgentRequest {
        turn: turn_of(token),
        item: format!("item-{}", token.as_str()),
        kind: RequestKind::Questions {
            blocking: true,
            questions: vec![
                Question {
                    id: "q1".into(),
                    header: "h".into(),
                    text: "t".into(),
                    other: true,
                    secret: false,
                    options: vec![],
                },
                Question {
                    id: "q2".into(),
                    header: "h".into(),
                    text: "t".into(),
                    other: false,
                    secret: false,
                    options: vec![],
                },
            ],
        },
    }
}

fn pending(request: AgentRequest, source: Option<String>) -> Pending {
    Pending {
        waiting_text: false,
        answers: Answers::new(),
        question: 0,
        request,
        reply: 1,
        task: "7:1".into(),
        owner: owner(),
        deadline: NOW + 600 * SECOND,
        card_dispatched: false,
        source,
    }
}

fn insert_approval(registry: &mut Interactions, token: &CardToken) -> bool {
    registry.insert(token.clone(), pending(approval_request(token), Some("card".into())))
}

fn insert_questions(registry: &mut Interactions, token: &CardToken) {
    assert!(registry.insert(token.clone(), pending(question_request(token), None)));
}

/// Writes what is to be written with the given result, or nothing.
fn deliver_reply(pending: Pending, allow: bool, result: Result<(), BackendError>) -> (Option<AgentReply>, ReplyOutcome) {
    let reply = reply_for(&pending, allow);
    let written = if reply.is_some() { Some(result) } else { None };
    let outcome = reply_outcome(pending, allow, written);
    (reply, outcome)
}

#[test]
fn approval_storm_is_bounded_and_refuses_duplicate_turn_items() {
    let mut registry = Interactions::default();
    for index in 0..32 {
        assert!(insert_approval(&mut registry, &token(&format!("t{index}"))));
    }
    assert!(!insert_approval(&mut registry, &token("extra")));
    let mut duplicate = Interactions::default();
    assert!(insert_approval(&mut duplicate, &token("first")));
    // The second registration reuses the first request's turn and item.
    let mut second = pending(approval_request(&token("first")), Some("card".into()));
    second.request.turn.thread_id = "thread".into();
    assert!(!duplicate.insert(token("second"), second));
    assert!(!duplicate.item_is_open(
        &TurnRef { epoch: 9, thread_id: "x".into(), turn_id: "y".into() },
        "item-first"
    ));
}

#[test]
fn foreign_owners_and_unknown_sources_never_consume() {
    let mut registry = Interactions::default();
    insert_approval(&mut registry, &token("token"));
    let directory = dir("/workspace");
    assert!(registry
        .approve(
            &token("token"),
            Claim { user: "other", chat: "chat", directory: &directory, now: NOW },
            "card",
            |_| true
        )
        .is_none());
    assert!(registry
        .approve(
            &token("token"),
            Claim { user: "user", chat: "elsewhere", directory: &directory, now: NOW },
            "card",
            |_| true
        )
        .is_none());
    assert!(registry
        .approve(
            &token("token"),
            Claim { user: "user", chat: "chat", directory: &directory, now: NOW },
            "stale",
            |_| true
        )
        .is_none());
    assert!(registry
        .approve(
            &token("token"),
            Claim { user: "user", chat: "chat", directory: &directory, now: NOW },
            "card",
            |_| false
        )
        .is_none());
    // A questions entry is never consumable through the approval path.
    insert_questions(&mut registry, &token("questions"));
    assert!(registry
        .approve(
            &token("questions"),
            Claim { user: "user", chat: "chat", directory: &directory, now: NOW },
            "card",
            |_| true
        )
        .is_none());
    assert_eq!(registry.len(), 2);
}

#[test]
fn approval_consumes_before_write_and_denial_is_returned() -> Result<(), &'static str> {
    let mut registry = Interactions::default();
    insert_approval(&mut registry, &token("token"));
    let directory = dir("/workspace");
    let claim = || Claim { user: "user", chat: "chat", directory: &directory, now: NOW };
    let pending = registry
        .approve(&token("token"), claim(), "card", |_| true)
        .ok_or("approval must be consumable")?;
    assert!(registry.is_empty());
    // The second attempt has nothing to consume.
    assert!(registry.approve(&token("token"), claim(), "card", |_| true).is_none());
    let (reply, outcome) = deliver_reply(pending, false, Ok(()));
    assert!(matches!(reply, Some(AgentReply::Approve(false))));
    assert!(outcome.submitted);
    Ok(())
}

#[test]
fn uncertain_reply_is_reported_and_incomplete_answers_are_never_submitted() -> Result<(), &'static str> {
    let mut registry = Interactions::default();
    insert_questions(&mut registry, &token("token"));
    let mut pending = registry.remove(&token("token")).ok_or("entry")?;
    pending.answers.insert("q1".into(), Texts::one("first".into()));
    pending.answers.insert("q2".into(), Texts::one("second".into()));
    let (_, outcome) = deliver_reply(pending, false, Err(BackendError::Rejected(1)));
    assert_eq!(outcome.result, Err(BackendError::Rejected(1)));
    assert!(outcome.submitted);
    // An expired questions group drops the reply slot without any write.
    let mut expired = Interactions::default();
    insert_questions(&mut expired, &token("token"));
    expired.get_mut(&token("token")).ok_or("entry")?.deadline = NOW;
    // Expired entries stay registered until expire() removes them once.
    let pending = expired.expire(NOW).into_iter().next().ok_or("expired entry")?;
    assert!(expired.expire(NOW).is_empty());
    let (reply, outcome) = deliver_reply(pending, false, Err(BackendError::Rejected(1)));
    assert!(reply.is_none());
    assert!(!outcome.submitted);
    assert_eq!(outcome.result, Ok(()));
    Ok(())
}

#[test]
fn per_question_answers_progress_and_reject_mismatched_steps() -> Result<(), &'static str> {
    let mut registry = Interactions::default();
    insert_questions(&mut registry, &token("token"));
    let directory = dir("/workspace");
    let claim = || Claim { user: "user", chat: "chat", directory: &directory, now: NOW };
    // Buttons only work after the card source has been delivered.
    assert!(matches!(
        registry.answer_choice(&token("token"), claim(), "card", 0, "0", |_| true),
        Choice::Invalid
    ));
    registry.get_mut(&token("token")).ok_or("entry")?.source = Some("card".into());
    assert!(matches!(
        registry.answer_choice(&token("token"), claim(), "card", 1, "0", |_| true),
        Choice::Invalid
    ));
    // "other" without options waits for text.
    assert!(matches!(
        registry.answer_choice(&token("token"), claim(), "card", 0, "other", |_| true),
        Choice::WaitingText
    ));
    // The first question has no options; a choice index cannot record.
    assert!(matches!(
        registry.answer_choice(&token("token"), claim(), "card", 0, "0", |_| true),
        Choice::Invalid
    ));
    // Text answers only apply to the waiting question.
    assert!(matches!(
        registry.answer_text(&token("token"), claim(), 1, "late", false, |_| true),
        TextOutcome::Invalid
    ));
    assert!(matches!(
        registry.answer_text(&token("token"), claim(), 0, "first answer", false, |_| true),
        TextOutcome::Recorded { complete: false, finished: None }
    ));
    // The next question re-enters text mode through its own card click;
    // the re-delivered card installs a fresh source first.
    registry.get_mut(&token("token")).ok_or("entry")?.source = Some("card".into());
    assert!(matches!(
        registry.answer_choice(&token("token"), claim(), "card", 1, "other", |_| true),
        Choice::WaitingText
    ));
    assert!(matches!(
        registry.answer_text(&token("token"), claim(), 1, "second answer", false, |_| true),
        TextOutcome::Recorded { complete: true, finished: Some(_) }
    ));
    assert!(registry.is_empty());
    Ok(())
}

#[test]
fn stale_and_expired_entries_are_reported_once() {
    let mut registry = Interactions::default();
    insert_approval(&mut registry, &token("token"));
    let stale = registry.stale_tokens(NOW, |_| false);
    assert_eq!(stale, vec![token("token")]);
    assert!(registry.stale_tokens(NOW, |_| true).is_empty());
    let removed = registry.expire(NOW + 601 * SECOND);
    assert_eq!(removed.len(), 1);
    assert!(registry.is_empty());
    assert!(registry.expire(NOW).is_empty());
}

#[test]
fn a_duplicate_request_revokes_the_first() {
    let mut registry = Interactions::default();
    assert!(insert_approval(&mut registry, &token("first")));
    assert!(insert_approval(&mut registry, &token("other")));
    let second = pending(approval_request(&token("first")), Some("card".into()));
    assert!(!registry.insert(token("second"), second));
    assert_eq!(registry.len(), 2);
    let directory = dir("/workspace");
    let claim = |now: u64| Claim { user: "user", chat: "chat", directory: &directory, now };
    assert!(registry.approve(&token("first"), claim(0), "card", |_| true).is_none());
    assert!(registry.approve(&token("first"), claim(NOW), "card", |_| true).is_none());
    assert!(registry.approve(&token("second"), claim(NOW), "card", |_| true).is_none());
    assert_eq!(registry.expire(0).len(), 1);
    assert!(registry.approve(&token("other"), claim(NOW), "card", |_| true).is_some());
    assert!(registry.is_empty());
}

#[test]
fn an_option_ends_the_wait_for_text() -> Result<(), &'static str> {
    let mut request = question_request(&token("token"));
    if let RequestKind::Questions { questions, .. } = &mut request.kind {
        questions[0].options = vec![QuestionOption { label: "茶".into(), description: "d".into() }];
    }
    let mut registry = Interactions::default();
    assert!(registry.insert(token("token"), pending(request, Some("card".into()))));
    let directory = dir("/workspace");
    let claim = || Claim { user: "user", chat: "chat", directory: &directory, now: NOW };
    assert!(matches!(
        registry.answer_choice(&token("token"), claim(), "card", 0, "other", |_| true),
        Choice::WaitingText
    ));
    assert!(matches!(
        registry.answer_choice(&token("token"), claim(), "card", 0, "0", |_| true),
        Choice::Recorded { complete: false, finished: None }
    ));
    assert!(matches!(
        registry.answer_text(&token("token"), claim(), 1, "x", false, |_| true),
        TextOutcome::Invalid
    ));
    let entry = registry.get(&token("token")).ok_or("entry")?;
    assert_eq!(entry.question, 1);
    assert!(!entry.waiting_text);
    assert!(entry.answers.get("q2").is_none());
    Ok(())
}

#[test]
fn turn_revocation_marks_entries_expired() {
    let mut registry = Interactions::default();
    insert_approval(&mut registry, &token("token"));
    registry.expire_turn(
        &TurnRef { epoch: 1, thread_id: "thread".into(), turn_id: "turn-token".into() },
        "item-token",
        NOW,
    );
    assert_eq!(registry.expire(NOW).len(), 1);
}

#[test]
fn dead_turns_are_reported_stale_while_live_ones_stay() {
    // Turn liveness (including the connection epoch) is expressed through
    // the caller-supplied `alive` check; entries of a dead turn must be
    // reported stale without being consumed by the report itself.
    let mut registry = Interactions::default();
    insert_approval(&mut registry, &token("token"));
    assert_eq!(registry.stale_tokens(NOW, |_| false), vec![token("token")]);
    assert_eq!(registry.len(), 1);
    assert!(registry.stale_tokens(NOW, |_| true).is_empty());
}

#[test]
fn finished_groups_submit_every_answer_in_its_place() -> Result<(), &'static str> {
    let mut registry = Interactions::default();
    insert_questions(&mut registry, &token("token"));
    let mut entry = registry.remove(&token("token")).ok_or("entry")?;
    entry.answers.insert("q1".into(), Texts::one("first".into()));
    assert!(reply_for(&entry, true).is_none());
    entry.answers.insert("q2".into(), Texts::one("draft".into()));
    entry.answers.insert("q2".into(), Texts::one("second".into()));
    match reply_for(&entry, true) {
        Some(AgentReply::Answers(answers)) => {
            assert_eq!(answers.get("q1"), Some(&Texts::one("first".into())));
            assert_eq!(answers.get("q2"), Some(&Texts::one("second".into())));
            assert_eq!(answers.get("q3"), None);
        }
        _ => panic!("a complete group is submitted"),
    }
    Ok(())
}

#[test]
fn draining_hands_out_every_open_request() {
    let mut registry = Interactions::default();
    insert_approval(&mut registry, &token("a"));
    insert_questions(&mut registry, &token("b"));
    assert!(registry.contains(&token("a")));
    assert_eq!(registry.drain().len(), 2);
    assert!(registry.is_empty());
}
