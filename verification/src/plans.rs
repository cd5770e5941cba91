//! A completed, fully retained plan is the only source of an implementation offer.
use vstd::prelude::*;
use vstd::string::*;
use crate::cards::{card_commands, command_panel, pairs};
use crate::model::{TaskSpec, TaskText};
use crate::view::Panel;

verus! {

pub struct Offer {
    pub task: TaskSpec,
    pub thread: String,
    pub text: String,
    pub token: String,
    pub sent: bool,
    pub deadline: u64,
}

/// An offer by its texts.
pub struct OfferText {
    pub task: TaskText,
    pub thread: Seq<char>,
    pub text: Seq<char>,
    pub token: Seq<char>,
    pub sent: bool,
    pub deadline: u64,
}

impl View for Offer {
    type V = OfferText;

    open spec fn view(&self) -> OfferText {
        OfferText {
            task: self.task@,
            thread: self.thread@,
            text: self.text@,
            token: self.token@,
            sent: self.sent,
            deadline: self.deadline,
        }
    }
}

/// The command of one choice about the plan of `token`.
pub open spec fn plan_command(token: Seq<char>, choice: Seq<char>) -> Seq<char> {
    "/plan-action "@ + token + choice
}

pub open spec fn plan_entries(token: Seq<char>) -> Seq<(Seq<char>, Seq<char>)> {
    seq![
        ("确认并实施"@, plan_command(token, " implement"@)),
        ("清空上下文后实施"@, plan_command(token, " fresh"@)),
        ("继续讨论计划"@, plan_command(token, " stay"@)),
    ]
}

pub open spec fn plan_body(text: Seq<char>) -> Seq<char> {
    text
        + "\n\n请选择直接实施、清空上下文后实施，或继续讨论。实施会关闭 Plan 模式；继续讨论保持 Plan 模式。仅本人在原聊天、目录和会话中操作，10 分钟有效。新任务或会话设置变更会使本计划失效。"@
}

fn plan_text(token: &str, choice: &str) -> (r: String)
    ensures
        r@ == plan_command(token@, choice@),
{
    let mut t = "/plan-action ".to_owned();
    t.append(token);
    t.append(choice);
    t
}

/// The card that offers a plan's choices.
pub fn panel(offer: &Offer, prefix: &str) -> (r: (Panel, Vec<(String, String)>))
    ensures
        r.0@ == command_panel("Plan 已完成，请确认下一步"@, plan_body(offer@.text), plan_entries(offer@.token), prefix@),
        pairs(r.1@) == card_commands(plan_entries(offer@.token), prefix@),
{
    let mut body = offer.text.clone();
    body.append(
        "\n\n请选择直接实施、清空上下文后实施，或继续讨论。实施会关闭 Plan 模式；继续讨论保持 Plan 模式。仅本人在原聊天、目录和会话中操作，10 分钟有效。新任务或会话设置变更会使本计划失效。",
    );
    let mut entries: Vec<(String, String)> = Vec::new();
    entries.push(("确认并实施".to_owned(), plan_text(offer.token.as_str(), " implement")));
    entries.push(("清空上下文后实施".to_owned(), plan_text(offer.token.as_str(), " fresh")));
    entries.push(("继续讨论计划".to_owned(), plan_text(offer.token.as_str(), " stay")));
    proof {
        assert(pairs(entries@) =~= plan_entries(offer@.token));
    }
    crate::cards::panel("Plan 已完成，请确认下一步", body, entries, prefix)
}

} // verus!
