use bridge_app::answering::{AnsweringEvent, AnsweringStage};
use bridge_app::markdown::markdown_parts;
use bridge_app::messaging::{DeliveryError, MessageId};
use bridge_app::outcome::{answer_tone, Compaction, Outcome};
use bridge_app::presentation::{Presentation, ProgressStep, Request};
use bridge_app::diagnostics::{Event, Status};
use bridge_app::runtime::reports::{files_report, route, sent_records, Route};
use bridge_app::view::{Panel, Tone};

/// A messenger that records what it is asked to deliver.
#[derive(Default)]
struct Fake {
    events: Vec<String>,
    tones: Vec<Tone>,
    fail_panel: bool,
    fail_update: bool,
    fail_text: Option<&'static str>,
}

impl Fake {
    fn send_panel(&mut self, panel: &Panel) -> Result<MessageId, DeliveryError> {
        self.tones.push(panel.tone);
        self.events.push(format!("panel:{}:{}", panel.title, panel.body));
        if self.fail_panel {
            Err(DeliveryError::Transport)
        } else {
            Ok(MessageId("preview".into()))
        }
    }

    fn update_panel(&mut self, id: &MessageId, panel: &Panel) -> Result<(), DeliveryError> {
        self.events.push(format!("update:{}:{}:{}", id.0, panel.title, panel.body));
        if self.fail_update {
            Err(DeliveryError::Transport)
        } else {
            Ok(())
        }
    }

    fn send_text(&mut self, text: &str) -> Result<(), DeliveryError> {
        self.events.push(format!("text:{text}"));
        if self.fail_text.is_some_and(|part| text.contains(part)) {
            Err(DeliveryError::Transport)
        } else {
            Ok(())
        }
    }

    fn progress(&mut self, presentation: &mut Presentation, task: &str, text: &str) {
        let delivered = match presentation.progress(task, text) {
            ProgressStep::Skip => return,
            ProgressStep::Send(panel) => self.send_panel(&panel).ok(),
            ProgressStep::Update(id, panel) => self.update_panel(&id, &panel).ok().map(|_| id),
        };
        presentation.progress_done(task.to_string(), delivered);
    }

    fn answer(&mut self, presentation: &mut Presentation, task: &str, text: &str) -> Result<(), DeliveryError> {
        let mut answering = presentation.answer(task, text);
        loop {
            let event = match answering.stage() {
                AnsweringStage::Closing { id, panel } => AnsweringEvent::Closed(self.update_panel(id, panel).is_ok()),
                AnsweringStage::Showing { panel, .. } => AnsweringEvent::Shown(self.send_panel(panel).is_ok()),
                AnsweringStage::Telling { fallback } => AnsweringEvent::Told(self.send_text(fallback).is_ok()),
                AnsweringStage::Ended(result) => return *result,
            };
            answering.step(event);
        }
    }
}

#[test]
fn preview_updates_same_message_then_ends_before_complete_answer() -> Result<(), DeliveryError> {
    let mut m = Fake::default();
    let mut p = Presentation::default();
    m.progress(&mut p, "task", "first");
    m.progress(&mut p, "task", "second");
    m.answer(&mut p, "task", "执行完成\n**完整回复**")?;
    assert_eq!(m.events.len(), 4);
    assert!(m.events[0].starts_with("panel:Codex 执行进度"));
    assert!(m.events[1].starts_with("update:preview:Codex 执行进度"));
    assert!(m.events[2].contains("本轮已结束"));
    assert!(m.events[3].contains("**完整回复**"));
    assert_eq!(m.tones.last(), Some(&Tone::Success));
    m.answer(&mut p, "failed", "执行失败：测试错误")?;
    assert_eq!(m.tones.last(), Some(&Tone::Error));
    Ok(())
}

#[test]
fn progress_failure_stops_retries_but_final_answer_still_falls_back() -> Result<(), DeliveryError> {
    let mut m = Fake::default();
    let mut p = Presentation::default();
    m.fail_panel = true;
    m.progress(&mut p, "task", "first");
    m.progress(&mut p, "task", "second");
    assert_eq!(m.events.len(), 1);
    m.answer(&mut p, "task", "final")?;
    assert!(m.events.last().is_some_and(|e| e.starts_with("text:") && e.contains("final")));
    m.fail_panel = false;
    m.progress(&mut p, "next", "new");
    assert!(m.events.last().is_some_and(|e| e.contains("执行进度:new")));
    Ok(())
}

#[test]
fn failed_preview_update_does_not_suppress_final_parts() -> Result<(), DeliveryError> {
    let mut m = Fake::default();
    let mut p = Presentation::default();
    m.progress(&mut p, "task", "first");
    m.fail_update = true;
    m.progress(&mut p, "task", "second");
    m.progress(&mut p, "task", "third");
    assert_eq!(m.events.len(), 2);
    m.answer(&mut p, "task", &"文".repeat(6000))?;
    assert_eq!(m.events.iter().filter(|e| e.starts_with("panel:Codex 回复")).count(), 4);
    assert_eq!(m.events.iter().map(|e| e.matches('文').count()).sum::<usize>(), 6000);
    Ok(())
}

#[test]
fn long_unicode_code_line_is_bounded_and_fences_reopen() {
    let text = format!("说明\n```rust\n{}\n```\n结尾", "中".repeat(10000));
    let parts = markdown_parts(&text);
    assert!(parts.len() > 3);
    assert!(parts.iter().all(|p| p.len() < 6000 && p.matches("```").count() == 2));
    assert_eq!(parts.iter().map(|p| p.matches('中').count()).sum::<usize>(), 10000);
    assert!(parts.last().is_some_and(|p| p.ends_with("结尾")));
}

#[test]
fn incomplete_and_tilde_fences_are_closed_without_losing_content() {
    for fence in ["```python", "~~~~text"] {
        let parts = markdown_parts(&format!("{fence}\n{}", "x".repeat(18000)));
        assert_eq!(
            parts.iter().map(|p| p.matches('x').count()).sum::<usize>(),
            18000 + if fence.ends_with("text") { parts.len() } else { 0 }
        );
        assert!(parts.iter().all(|p| p.starts_with(fence) && p.len() < 6000));
    }
}

#[test]
fn failed_deliveries_are_reported_after_every_part() {
    let mut m = Fake { fail_panel: true, fail_text: Some("回复 1/4"), ..Fake::default() };
    let mut p = Presentation::default();
    assert_eq!(m.answer(&mut p, "task", &"文".repeat(6000)), Err(DeliveryError::Transport));
    assert_eq!(m.events.len(), 8);
    for (index, pair) in m.events.chunks(2).enumerate() {
        assert!(pair[0].starts_with(&format!("panel:Codex 回复 · {}/4", index + 1)));
        assert!(pair[1].starts_with(&format!("text:回复 {}/4（卡片发送未确认，文字补发）", index + 1)));
    }
    let mut m = Fake { fail_panel: true, ..Fake::default() };
    assert_eq!(m.answer(&mut p, "task", &"文".repeat(6000)), Ok(()));
    assert_eq!(m.events.len(), 8);
    let mut m = Fake { fail_text: Some("回复"), ..Fake::default() };
    assert_eq!(m.answer(&mut p, "task", "final"), Ok(()));
    assert_eq!(m.events, vec!["panel:Codex 回复:final"]);
}

#[test]
fn answers_ignore_what_they_do_not_wait_for() {
    let mut p = Presentation::default();
    let mut answering = p.answer("task", "final");
    answering.step(AnsweringEvent::Closed(true));
    answering.step(AnsweringEvent::Told(false));
    assert!(matches!(answering.stage(), AnsweringStage::Showing { panel, .. } if panel.body == "final"));
    answering.step(AnsweringEvent::Shown(true));
    assert!(matches!(answering.stage(), AnsweringStage::Ended(Ok(()))));
}

#[test]
fn no_part_is_empty() {
    for text in ["", "\n", "```", "```\n```", "a\n```rust\n"] {
        assert!(markdown_parts(text).iter().all(|part| !part.is_empty()));
    }
    let fences = format!("{}\n```rust\nx\n```\n", "中".repeat(1832));
    assert!(markdown_parts(&fences).iter().all(|part| !part.is_empty()));
    assert_eq!(markdown_parts(""), vec!["（无文本输出）"]);
}

#[test]
fn short_texts_are_one_part_and_open_fences_are_closed() {
    assert_eq!(markdown_parts("plain"), vec!["plain"]);
    assert_eq!(markdown_parts("```\ncode"), vec!["```\ncode\n```"]);
    assert_eq!(markdown_parts("```\ncode\n```"), vec!["```\ncode\n```"]);
}

#[test]
fn answers_take_the_tone_of_their_outcome() {
    assert_eq!(answer_tone(&Outcome::Completed.label()), Outcome::Completed.tone());
    assert_eq!(answer_tone(&Outcome::Stopped.label()), Outcome::Stopped.tone());
    assert_eq!(Outcome::Failed { detail: "x".into() }.label(), "执行失败：x");
    assert_eq!(Outcome::Failed { detail: "x".into() }.tone(), Tone::Error);
    assert_eq!(Outcome::Compact(Compaction::Completed).label(), "上下文压缩完成。");
}

#[test]
fn delivery_errors_have_their_sentences() {
    assert_eq!(DeliveryError::Transport.message(), "消息接口请求失败");
    assert_eq!(DeliveryError::Rejected(-42).message(), "消息平台拒绝请求（code=-42）");
    assert_eq!(DeliveryError::Incompatible.message(), "消息平台响应格式不兼容");
    assert_eq!(DeliveryError::TooLarge.message(), "文件超过大小限制");
    assert_eq!(DeliveryError::LocalIo.message(), "本地文件读写失败");
    assert_eq!(DeliveryError::Authentication.message(), "认证配置无效");
}

#[test]
fn cards_go_out_only_where_they_are_shown() {
    let text = Request::Text("chat".into(), "t".into());
    let answer = Request::Answer { task: "1:1".into(), chat: "chat".into(), text: "t".into() };
    let preview = Request::Progress { task: "1:1".into(), chat: "chat".into(), text: "t".into() };
    assert_eq!([route(&text, true), route(&answer, true), route(&preview, true)], [
        Route::Text,
        Route::Answer,
        Route::Preview
    ]);
    assert_eq!([route(&text, false), route(&answer, false), route(&preview, false)], [
        Route::Text,
        Route::Text,
        Route::Dropped
    ]);
    assert!(sent_records(&text, true).is_empty());
    assert!(sent_records(&preview, false).is_empty());
    let records = sent_records(&answer, false);
    assert_eq!(records.len(), 2);
    assert_eq!((records[0].event, records[0].status), (Event::AnswerDelivered, Status::Failed));
    assert_eq!(records[0].task.as_deref(), Some("1:1"));
    assert_eq!((records[1].event, records[1].status), (Event::DeliveryFailed, Status::Failed));
    assert_eq!(records[1].task, None);
    assert_eq!(sent_records(&answer, true).len(), 1);
    assert_eq!(sent_records(&text, false)[0].event, Event::DeliveryFailed);
}

#[test]
fn failed_file_deliveries_are_told() {
    let (record, notice) = files_report("1:1", true);
    assert_eq!((record.event, record.status), (Event::FilesFinished, Status::Succeeded));
    assert_eq!(notice, None);
    let (record, notice) = files_report("1:1", false);
    assert_eq!(record.status, Status::Failed);
    assert_eq!(notice.as_deref(), Some("成果物处理失败或超时，未自动重试；请检查工作目录。"));
}
