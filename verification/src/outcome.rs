//! Terminal dispositions of task and compaction flows.
//!
//! `Outcome` is pure data: the runtime carries it beside the accumulated
//! output, and the user-visible label, the card tone and the diagnostic status
//! are derived from it. The sender, which is handed an answer as text alone,
//! reads the tone off the label that the text begins with: [`answer_tone`]
//! agrees with the outcome that the label was made from.
use vstd::prelude::*;
use vstd::string::*;
use crate::diagnostics::Status;
use crate::text::{begins_with, starts_with};
use crate::view::Tone;

verus! {

/// Why one task or bridge flow ended.
pub enum Outcome {
    /// The turn finished normally.
    Completed,
    /// The user stopped the task before it finished.
    Stopped,
    /// The bridge itself is shutting down; the task will not be resumed.
    BridgeStopped,
    /// The backend turn failed and reported a reason.
    Failed { detail: String },
    /// Preparation failed before a turn could start; nothing executed.
    PrepareFailed { detail: String },
    /// The start request's result is unknown; the turn may be running, so the
    /// bridge stops instead of retrying.
    StartUnknown { detail: String },
    /// A compaction-specific terminal state; its wording differs from tasks.
    Compact(Compaction),
    /// The flow was refused or cancelled before any effect. The label is the
    /// full user-visible sentence; no detail is appended.
    NotStarted { label: String },
}

/// Terminal states of a context-compaction flow.
pub enum Compaction {
    Completed,
    Stopped,
    Failed { detail: String },
    PrepareFailed { detail: String },
}

/// An outcome by its texts.
pub enum OutcomeView {
    Completed,
    Stopped,
    BridgeStopped,
    Failed(Seq<char>),
    PrepareFailed(Seq<char>),
    StartUnknown(Seq<char>),
    CompactCompleted,
    CompactStopped,
    CompactFailed(Seq<char>),
    CompactPrepareFailed(Seq<char>),
    NotStarted(Seq<char>),
}

impl View for Outcome {
    type V = OutcomeView;

    open spec fn view(&self) -> OutcomeView {
        match self {
            Outcome::Completed => OutcomeView::Completed,
            Outcome::Stopped => OutcomeView::Stopped,
            Outcome::BridgeStopped => OutcomeView::BridgeStopped,
            Outcome::Failed { detail } => OutcomeView::Failed(detail@),
            Outcome::PrepareFailed { detail } => OutcomeView::PrepareFailed(detail@),
            Outcome::StartUnknown { detail } => OutcomeView::StartUnknown(detail@),
            Outcome::Compact(Compaction::Completed) => OutcomeView::CompactCompleted,
            Outcome::Compact(Compaction::Stopped) => OutcomeView::CompactStopped,
            Outcome::Compact(Compaction::Failed { detail }) => OutcomeView::CompactFailed(detail@),
            Outcome::Compact(Compaction::PrepareFailed { detail }) => OutcomeView::CompactPrepareFailed(detail@),
            Outcome::NotStarted { label } => OutcomeView::NotStarted(label@),
        }
    }
}

/// The sentence that a user reads.
pub open spec fn outcome_label(o: OutcomeView) -> Seq<char> {
    match o {
        OutcomeView::Completed => "执行完成"@,
        OutcomeView::Stopped => "任务已停止"@,
        OutcomeView::BridgeStopped => "桥接已停止；未完成任务不会自动重跑。"@,
        OutcomeView::Failed(detail) => "执行失败："@ + detail,
        OutcomeView::PrepareFailed(detail) => "准备失败："@ + detail,
        OutcomeView::StartUnknown(detail) => "启动结果未知或失败："@ + detail + "；不会自动重试。"@,
        OutcomeView::CompactCompleted => "上下文压缩完成。"@,
        OutcomeView::CompactStopped => "上下文压缩已停止。"@,
        OutcomeView::CompactFailed(detail) => "上下文压缩失败："@ + detail,
        OutcomeView::CompactPrepareFailed(detail) => "压缩准备失败："@ + detail + "；不会自动重试。"@,
        OutcomeView::NotStarted(label) => label,
    }
}

/// The tone of the answer card.
pub open spec fn outcome_tone(o: OutcomeView) -> Tone {
    match o {
        OutcomeView::Completed => Tone::Success,
        OutcomeView::Stopped | OutcomeView::BridgeStopped => Tone::Warning,
        OutcomeView::Failed(_) | OutcomeView::PrepareFailed(_) | OutcomeView::StartUnknown(_) => Tone::Error,
        _ => Tone::Info,
    }
}

pub open spec fn outcome_status(o: OutcomeView) -> Status {
    if o is Completed {
        Status::Succeeded
    } else {
        Status::Failed
    }
}

impl Outcome {
    pub fn label(&self) -> (r: String)
        ensures
            r@ == outcome_label(self@),
    {
        match self {
            Outcome::Completed => "执行完成".to_owned(),
            Outcome::Stopped => "任务已停止".to_owned(),
            Outcome::BridgeStopped => "桥接已停止；未完成任务不会自动重跑。".to_owned(),
            Outcome::Failed { detail } => Self::prefixed("执行失败：", detail),
            Outcome::PrepareFailed { detail } => Self::prefixed("准备失败：", detail),
            Outcome::StartUnknown { detail } => {
                let mut t = Self::prefixed("启动结果未知或失败：", detail);
                t.append("；不会自动重试。");
                t
            },
            Outcome::Compact(Compaction::Completed) => "上下文压缩完成。".to_owned(),
            Outcome::Compact(Compaction::Stopped) => "上下文压缩已停止。".to_owned(),
            Outcome::Compact(Compaction::Failed { detail }) => Self::prefixed("上下文压缩失败：", detail),
            Outcome::Compact(Compaction::PrepareFailed { detail }) => {
                let mut t = Self::prefixed("压缩准备失败：", detail);
                t.append("；不会自动重试。");
                t
            },
            Outcome::NotStarted { label } => label.clone(),
        }
    }

    fn prefixed(prefix: &str, detail: &String) -> (r: String)
        ensures
            r@ == prefix@ + detail@,
    {
        let mut t = prefix.to_owned();
        t.append(detail.as_str());
        t
    }

    pub fn tone(&self) -> (r: Tone)
        ensures
            r == outcome_tone(self@),
    {
        match self {
            Outcome::Completed => Tone::Success,
            Outcome::Stopped => Tone::Warning,
            Outcome::BridgeStopped => Tone::Warning,
            Outcome::Failed { .. } => Tone::Error,
            Outcome::PrepareFailed { .. } => Tone::Error,
            Outcome::StartUnknown { .. } => Tone::Error,
            Outcome::Compact(_) => Tone::Info,
            Outcome::NotStarted { .. } => Tone::Info,
        }
    }

    pub fn status(&self) -> (r: Status)
        ensures
            r == outcome_status(self@),
    {
        match self {
            Outcome::Completed => Status::Succeeded,
            _ => Status::Failed,
        }
    }
}

/// The tone of an answer whose text opens with an outcome's label.
pub open spec fn answer_tone_of(text: Seq<char>) -> Tone {
    if begins_with(text, "执行完成"@) {
        Tone::Success
    } else if begins_with(text, "任务已停止"@) || begins_with(text, "桥接已停止"@) {
        Tone::Warning
    } else if begins_with(text, "执行失败"@) || begins_with(text, "准备失败"@) || begins_with(text, "启动结果未知"@) {
        Tone::Error
    } else {
        Tone::Info
    }
}

/// The tone in which an answer is shown.
pub fn answer_tone(text: &str) -> (r: Tone)
    ensures
        r == answer_tone_of(text@),
{
    if starts_with(text, "执行完成") {
        Tone::Success
    } else if starts_with(text, "任务已停止") || starts_with(text, "桥接已停止") {
        Tone::Warning
    } else if starts_with(text, "执行失败") || starts_with(text, "准备失败") || starts_with(text, "启动结果未知") {
        Tone::Error
    } else {
        Tone::Info
    }
}

proof fn opens(prefix: Seq<char>, text: Seq<char>, rest: Seq<char>)
    requires
        begins_with(text, prefix),
    ensures
        begins_with(text + rest, prefix),
{
    assert((text + rest).take(prefix.len() as int) =~= text.take(prefix.len() as int));
}

/// An answer is shown in its outcome's tone, whatever output follows the label.
pub proof fn answers_show_their_outcome(o: OutcomeView, rest: Seq<char>)
    requires
        !(o is NotStarted),
    ensures
        answer_tone_of(outcome_label(o) + rest) == outcome_tone(o),
{
    reveal_strlit("执行完成");
    reveal_strlit("任务已停止");
    reveal_strlit("桥接已停止");
    reveal_strlit("桥接已停止；未完成任务不会自动重跑。");
    reveal_strlit("执行失败");
    reveal_strlit("准备失败");
    reveal_strlit("启动结果未知");
    reveal_strlit("执行失败：");
    reveal_strlit("准备失败：");
    reveal_strlit("启动结果未知或失败：");
    reveal_strlit("上下文压缩完成。");
    reveal_strlit("上下文压缩已停止。");
    reveal_strlit("上下文压缩失败：");
    reveal_strlit("压缩准备失败：");
    let t = outcome_label(o) + rest;
    assert(begins_with(t, "执行完成"@) ==> t.take(4)[0] == '执' && t.take(4)[2] == '完');
    assert(begins_with(t, "任务已停止"@) ==> t.take(5)[0] == '任');
    assert(begins_with(t, "桥接已停止"@) ==> t.take(5)[0] == '桥');
    assert(begins_with(t, "执行失败"@) ==> t.take(4)[0] == '执' && t.take(4)[2] == '失');
    assert(begins_with(t, "准备失败"@) ==> t.take(4)[0] == '准');
    assert(begins_with(t, "启动结果未知"@) ==> t.take(6)[0] == '启');
    match o {
        OutcomeView::Completed => {
            assert(t.take(4) =~= "执行完成"@);
        },
        OutcomeView::Stopped => {
            assert(t.take(5) =~= "任务已停止"@);
        },
        OutcomeView::BridgeStopped => {
            assert(t.take(5) =~= "桥接已停止"@);
        },
        OutcomeView::Failed(_) => {
            assert(t.take(4) =~= "执行失败"@);
        },
        OutcomeView::PrepareFailed(_) => {
            assert(t.take(4) =~= "准备失败"@);
        },
        OutcomeView::StartUnknown(_) => {
            assert(t.take(6) =~= "启动结果未知"@);
        },
        _ => {},
    }
}

/// Success, a stop and a failure are told apart by the tone of the answer.
pub proof fn tones_tell_how_it_went(detail: Seq<char>, rest: Seq<char>)
    ensures
        answer_tone_of("执行完成"@ + rest) == Tone::Success,
        answer_tone_of("任务已停止"@ + rest) == Tone::Warning,
        answer_tone_of("桥接已停止；未完成任务不会自动重跑。"@ + rest) == Tone::Warning,
        answer_tone_of("执行失败："@ + detail + rest) == Tone::Error,
        answer_tone_of("准备失败："@ + detail + rest) == Tone::Error,
        answer_tone_of("启动结果未知或失败："@ + detail + "；不会自动重试。"@ + rest) == Tone::Error,
{
    answers_show_their_outcome(OutcomeView::Completed, rest);
    answers_show_their_outcome(OutcomeView::Stopped, rest);
    answers_show_their_outcome(OutcomeView::BridgeStopped, rest);
    answers_show_their_outcome(OutcomeView::Failed(detail), rest);
    answers_show_their_outcome(OutcomeView::PrepareFailed(detail), rest);
    answers_show_their_outcome(OutcomeView::StartUnknown(detail), rest);
}

} // verus!
