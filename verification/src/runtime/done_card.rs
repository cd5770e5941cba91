//! Card and panel delivery receipts: approval cards, interaction replies,
//! panel updates, list panels and the refresh queue.
use vstd::prelude::*;
use vstd::string::*;
use crate::cards::{
    actions_after, actions_fit, card_commands, command_panel, entries_text, list_entries_of, models_body, models_entries_of, pairs, snapshot_text,
    threads_body, ungrouped, Action, ActionText, CardToken, Owner, OwnerText, SnapshotText, REGISTRY_CAPACITY,
};
use crate::diagnostics::{Event, Status};
use crate::interactions::{item_free, Pending, PendingText, ReplyOutcome};
use crate::lists::{keep, selection_maps};
use crate::messaging::{DeliveryError, MessageId};
use crate::model::SessionText;
use crate::ports::same_turn;
use crate::runtime::done_task::success;
use crate::runtime::flow::{clock, panel_sent, replied};
use crate::runtime::limits;
use crate::runtime::state::{
    begin, fault_of, generation_in, waits, CardDone, Fault, ListedContent, PanelRefresh, RefreshText, Runtime, RuntimeError, State,
    Step,
};
use crate::runtime::tokens::{self, panel_prefix_text};
use crate::sessions::{start_sentence, StartError};
use crate::text::{opt, same};
use crate::view::{Panel, PanelView};

verus! {

/// The views after a card was delivered as the message `source`.
pub open spec fn shown_view(views: Map<Seq<char>, PanelView>, source: Seq<char>, panel: PanelView) -> Map<Seq<char>, PanelView> {
    if panel.buttons.len() > 0 && views.dom().len() < REGISTRY_CAPACITY {
        views.insert(source, panel)
    } else {
        views
    }
}

/// The action behind a button of a request's card.
pub open spec fn request_action(p: PendingText, command: Seq<char>, source: Seq<char>) -> ActionText {
    ActionText {
        generation: p.owner.generation,
        user: p.owner.user,
        chat: p.owner.chat,
        directory: p.owner.directory,
        source,
        deadline: p.deadline,
        command,
        stop_snapshot: None,
    }
}

pub open spec fn request_actions(p: PendingText, commands: Seq<(Seq<char>, Seq<char>)>, source: Seq<char>) -> Seq<(Seq<char>, ActionText)> {
    commands.map_values(|c: (Seq<char>, Seq<char>)| (c.0, request_action(p, c.1, source)))
}

/// The request is in time, and the running task's turn still waits for it.
pub open spec fn still_valid(s: State, p: PendingText, now: u64) -> bool {
    &&& now < p.deadline
    &&& s.active matches Some(a) && !a.stopping && a.spec.id == p.task && (a.turn matches Some(t) && same_turn(t, p.turn))
}

/// A request that cannot be shown is answered safely: an approval is denied, a
/// question stops the run.
pub open spec fn undeliverable(s: Step, p: PendingText) -> Step {
    if p.kind is Questions {
        s.tell(p.owner.chat, "问答卡片发送失败或失效，停止本次运行；未提交空答案。"@).fail(Fault::Interaction("问答无法交付"@))
    } else {
        replied(s.tell(p.owner.chat, "审批卡片发送失败、已失效或登记已满，正在拒绝请求。"@), p, false)
    }
}

/// The buttons of a request that was taken out of the registry are registered
/// against the message that showed them, and the request is put back, if it is
/// still valid and they fit.
#[verifier::opaque]
pub open spec fn request_bound(
    s: Step,
    token: Seq<char>,
    p: PendingText,
    commands: Seq<(Seq<char>, Seq<char>)>,
    source: Seq<char>,
    now: u64,
) -> Step {
    let entries = request_actions(p, commands, source);
    if !still_valid(s.state, p, now) {
        undeliverable(s, p)
    } else {
        let t = Step { state: State { actions: actions_after(s.state.actions, entries, now), ..s.state }, ..s };
        if actions_fit(s.state.actions, entries.len(), now) {
            Step { state: State { interactions: s.state.interactions.insert(token, p), ..t.state }, ..t }
        } else {
            undeliverable(t, p)
        }
    }
}

/// The buttons of a request are registered against the message that showed
/// them; a request that is gone has none.
pub open spec fn card_bound(s: Step, token: Seq<char>, commands: Seq<(Seq<char>, Seq<char>)>, source: Seq<char>, now: u64) -> Step {
    if !s.state.interactions.contains_key(token) {
        s
    } else {
        request_bound(
            Step { state: State { interactions: s.state.interactions.remove(token), ..s.state }, ..s },
            token,
            PendingText { source: Some(source), ..s.state.interactions[token] },
            commands,
            source,
            now,
        )
    }
}

/// An approval or question card was delivered (or failed). Registration binds
/// its buttons to the delivered message; a failed or stale delivery replies
/// with the safe default instead of leaving the agent waiting.
#[verifier::opaque]
pub open spec fn after_approval_sent(
    s0: State,
    token: Seq<char>,
    panel: PanelView,
    commands: Seq<(Seq<char>, Seq<char>)>,
    result: Result<MessageId, DeliveryError>,
    now: u64,
) -> Step {
    let s = if panel.title == "Codex 问答"@ {
        begin(s0).record(
            Event::QuestionSent,
            success(result is Ok),
            if s0.interactions.contains_key(token) {
                Some(s0.interactions[token].task)
            } else {
                None
            },
            panel.buttons.len(),
        )
    } else if result is Err {
        begin(s0).record(Event::CardFailed, Status::Failed, None, 0)
    } else {
        begin(s0)
    };
    match result {
        Ok(id) => card_bound(
            Step { state: State { views: shown_view(s0.views, id.0@, panel), ..s.state }, ..s },
            token,
            commands,
            id.0@,
            now,
        ),
        Err(_) => if s0.interactions.contains_key(token) {
            undeliverable(
                Step { state: State { interactions: s0.interactions.remove(token), ..s.state }, ..s },
                s0.interactions[token],
            )
        } else {
            s
        },
    }
}

/// The controlled reply to an approval or question reached the backend. An
/// uncertain result stops the run: the request may or may not be open.
pub open spec fn after_replied(s: State, o: ReplyOutcome) -> Step {
    if !o.submitted {
        begin(s)
    } else if o.result is Ok {
        begin(s).tell(
            o.chat@,
            if o.questions {
                "已向 Codex 回传答案。"@
            } else if o.allow {
                "已向 Codex 回传本次同意；执行结果请等待任务回复。"@
            } else {
                "已向 Codex 回传拒绝。"@
            },
        )
    } else {
        begin(s).tell(
            o.chat@,
            if o.questions {
                "问答回传结果不确定，已停止连接，不会自动重试。"@
            } else {
                "审批回传结果不确定，已停止连接，不会自动重试。"@
            },
        ).fail(Fault::Interaction("交互回传失败"@))
    }
}

/// The buttons whose cards were not invalidated since, bound to their message.
pub open spec fn current_entries(generations: Map<Seq<char>, u64>, entries: Seq<(Seq<char>, ActionText)>, source: Seq<char>) -> Seq<(Seq<char>, ActionText)> {
    entries.filter(|e: (Seq<char>, ActionText)| e.1.generation == generation_in(generations, e.1.user)).map_values(
        |e: (Seq<char>, ActionText)| (e.0, ActionText { source, ..e.1 }),
    )
}

/// A panel was delivered: its buttons are registered against the message.
#[verifier::opaque]
pub open spec fn after_panel_sent(
    s0: State,
    refreshed: bool,
    panel: PanelView,
    entries: Seq<(Seq<char>, ActionText)>,
    result: Result<MessageId, DeliveryError>,
    now: u64,
) -> Step {
    let s = begin(State { updating_panel: s0.updating_panel && !refreshed, ..s0 });
    match result {
        Ok(id) => {
            let current = current_entries(s0.generations, entries, id.0@);
            let t = Step {
                state: State {
                    views: shown_view(s0.views, id.0@, panel),
                    actions: actions_after(s0.actions, current, now),
                    ..s.state
                },
                ..s
            };
            if actions_fit(s0.actions, current.len(), now) {
                t
            } else {
                t.record(Event::CardFailed, Status::Rejected, None, 0)
            }
        },
        Err(_) => s,
    }
}

pub open spec fn list_owner(session: SessionText, chat: Seq<char>, generation: u64, snapshot: SnapshotText) -> OwnerText {
    OwnerText { user: session.user, chat, directory: session.workspace, generation, stop_snapshot: snapshot }
}

/// A list card is sent, or queued to replace the card that asked for it.
pub open spec fn list_delivered(
    s0: State,
    refresh: Option<Seq<char>>,
    owner: OwnerText,
    panel: PanelView,
    commands: Seq<(Seq<char>, Seq<char>)>,
    now: u64,
) -> Step {
    let s = begin(State { next_panel: (s0.next_panel + 1) as u64, ..s0 });
    match refresh {
        Some(source) => if s0.refreshes.len() >= limits::PANEL_REFRESHES {
            s.tell(owner.chat, "卡片刷新队列已满，请重新发送列表命令。"@)
        } else {
            begin(
                State { refreshes: s0.refreshes.push(RefreshText { source, owner, panel, commands }), ..s.state },
            )
        },
        None => if s0.can_spawn(false) {
            panel_sent(s, None, owner, panel, commands, now)
        } else {
            s.tell(owner.chat, "系统繁忙，请稍后重新发送列表命令。"@)
        },
    }
}

#[verifier::opaque]
pub open spec fn after_listed(
    s: State,
    refresh: Option<Seq<char>>,
    owner: OwnerText,
    result: Result<ListedContent, StartError>,
    now: u64,
) -> Step {
    match result {
        Ok(ListedContent::Text(text)) => begin(s).tell(owner.chat, text@),
        Err(error) => begin(s).tell(owner.chat, "读取会话列表失败："@ + start_sentence(error)),
        Ok(content) => if s.next_panel == u64::MAX {
            begin(s).fail(Fault::Capacity("卡片编号耗尽"@))
        } else {
            let prefix = panel_prefix_text(s.epoch, (s.next_panel + 1) as u64);
            match content {
                ListedContent::Threads { entries, archived } => list_delivered(
                    s,
                    refresh,
                    owner,
                    ungrouped(
                        command_panel(
                            if archived {
                                "已归档会话"@
                            } else {
                                "最近会话"@
                            },
                            threads_body(entries@, archived),
                            list_entries_of(entries@, archived),
                            prefix,
                        ),
                    ),
                    card_commands(list_entries_of(entries@, archived), prefix),
                    now,
                ),
                ListedContent::Models { entries, current } => list_delivered(
                    s,
                    refresh,
                    owner,
                    ungrouped(
                        command_panel("可用模型"@, models_body(opt(current)), models_entries_of(entries@, opt(current)), prefix),
                    ),
                    card_commands(models_entries_of(entries@, opt(current)), prefix),
                    now,
                ),
                ListedContent::Text(text) => begin(s).tell(owner.chat, text@),
            }
        },
    }
}

#[verifier::opaque]
pub open spec fn after_card_done(s: State, done: CardDone, now: u64) -> Step {
    match done {
        CardDone::ApprovalSent { token, panel, commands, result } => after_approval_sent(
            s,
            token@,
            panel@,
            pairs(commands@),
            result,
            now,
        ),
        CardDone::ApprovalReplied { outcome } => after_replied(s, outcome),
        CardDone::PanelUpdated => begin(State { updating_panel: false, ..s }),
        CardDone::PanelSent { refreshed, panel, entries, result } => after_panel_sent(
            s,
            refreshed,
            panel@,
            entries_text(entries@),
            result,
            now,
        ),
        CardDone::Listed { refresh, chat, session, generation, snapshot, result } => after_listed(
            s,
            opt(refresh),
            list_owner(session@, chat@, generation, snapshot_text(snapshot)),
            result,
            now,
        ),
    }
}

/// The actions behind the buttons of a request's card.
fn make_actions(owner: &Owner, deadline: u64, commands: Vec<(String, String)>, source: &str, Ghost(p): Ghost<PendingText>) -> (r: Vec<(String, Action)>)
    requires
        p.owner == owner@,
        p.deadline == deadline,
    ensures
        entries_text(r@) == request_actions(p, pairs(commands@), source@),
{
    let ghost all = pairs(commands@);
    let mut out: Vec<(String, Action)> = Vec::new();
    let mut i: usize = 0;
    while i < commands.len()
        invariant
            i <= commands@.len(),
            all == pairs(commands@),
            out@.len() == i,
            p.owner == owner@,
            p.deadline == deadline,
            forall|j: int| 0 <= j < i ==> ((#[trigger] out@[j]).0@, out@[j].1@) == (all[j].0, request_action(p, all[j].1, source@)),
        decreases commands.len() - i,
    {
        out.push(
            (
                commands[i].0.clone(),
                Action {
                    user: owner.user.clone(),
                    chat: owner.chat.clone(),
                    directory: owner.directory.clone(),
                    generation: owner.generation,
                    deadline,
                    source: source.to_owned(),
                    command: commands[i].1.clone(),
                    stop_snapshot: None,
                },
            ),
        );
        i = i + 1;
    }
    proof {
        assert(entries_text(out@) =~= request_actions(p, all, source@));
    }
    out
}

impl Runtime {
    /// Answers a request that cannot be shown.
    fn give_up(&mut self, pending: crate::interactions::Pending) -> (r: Result<(), RuntimeError>)
        requires
            old(self).wf(),
        ensures
            final(self).at(undeliverable(begin(old(self)@), pending@)),
            fault_of(r) == undeliverable(begin(old(self)@), pending@).fault,
    {
        if pending.is_questions() {
            return match self.tell(
                pending.owner.chat.as_str(),
                "问答卡片发送失败或失效，停止本次运行；未提交空答案。",
            ) {
                Ok(()) => Err(RuntimeError::Interaction("问答无法交付")),
                Err(e) => Err(e),
            };
        }
        match self.tell(
            pending.owner.chat.as_str(),
            "审批卡片发送失败、已失效或登记已满，正在拒绝请求。",
        ) {
            Ok(()) => self.spawn_reply(pending, false),
            Err(e) => Err(e),
        }
    }

    fn approval_sent(&mut self, token: String, panel: Panel, commands: Vec<(String, String)>, result: Result<MessageId, DeliveryError>, now: u64) -> (r: Result<(), RuntimeError>)
        requires
            old(self).wf(),
        ensures
            final(self).at(after_approval_sent(old(self)@, token@, panel@, pairs(commands@), result, now)),
            fault_of(r) == after_approval_sent(old(self)@, token@, panel@, pairs(commands@), result, now).fault,
    {
        proof {
            reveal(after_approval_sent);
        }
        let ghost s0 = self@;
        let token = CardToken::new(token);
        let delivered = result.is_ok();
        if same(panel.title.as_str(), "Codex 问答") {
            let task = match self.approvals.interactions.get(&token) {
                Some(pending) => Some(pending.task.clone()),
                None => None,
            };
            let status = if delivered {
                Status::Succeeded
            } else {
                Status::Failed
            };
            let buttons: usize = panel.buttons.len();
            self.record(Event::QuestionSent, status, task, buttons);
        } else if !delivered {
            self.record(Event::CardFailed, Status::Failed, None, 0);
        }
        match result {
            Err(_) => match self.approvals.interactions.remove(&token) {
                Some(pending) => self.give_up(pending),
                None => {
                    proof {
                        assert(s0.interactions.remove(token@) =~= s0.interactions);
                    }
                    Ok(())
                },
            },
            Ok(id) => {
                self.cards.views.insert(id.0.clone(), panel);
                self.bind_card(token, commands, id, now)
            },
        }
    }

    fn is_valid(&self, pending: &Pending, now: u64) -> (r: bool)
        ensures
            r == still_valid(self@, pending@, now),
    {
        now < pending.deadline && match &self.tasks.active {
            Some(active) => !active.stopping && same(active.spec.id.as_str(), pending.task.as_str()) && match &active.turn {
                Some(turn) => turn.same(&pending.request.turn),
                None => false,
            },
            None => false,
        }
    }

    /// Binds a request's buttons to the message that was delivered.
    fn bind_card(&mut self, token: CardToken, commands: Vec<(String, String)>, id: MessageId, now: u64) -> (r: Result<(), RuntimeError>)
        requires
            old(self).wf(),
        ensures
            final(self).at(card_bound(begin(old(self)@), token@, pairs(commands@), id.0@, now)),
            fault_of(r) == card_bound(begin(old(self)@), token@, pairs(commands@), id.0@, now).fault,
    {
        let ghost s0 = self@;
        match self.approvals.interactions.remove(&token) {
            None => {
                proof {
                    assert(s0.interactions.remove(token@) =~= s0.interactions);
                }
                Ok(())
            },
            Some(mut pending) => {
                let ghost taken = pending@;
                pending.source = Some(id.0.clone());
                proof {
                    assert(item_free(self@.interactions, pending@)) by {
                        reveal(item_free);
                        assert(item_free(self@.interactions, taken));
                    }
                }
                self.bind_request(token, pending, commands, id, now)
            },
        }
    }

    fn bind_request(&mut self, token: CardToken, pending: Pending, commands: Vec<(String, String)>, id: MessageId, now: u64) -> (r: Result<(), RuntimeError>)
        requires
            old(self).wf(),
            old(self)@.interactions.dom().len() < limits::INTERACTIONS,
            item_free(old(self)@.interactions, pending@),
            waits(pending@),
        ensures
            final(self).at(request_bound(begin(old(self)@), token@, pending@, pairs(commands@), id.0@, now)),
            fault_of(r) == request_bound(begin(old(self)@), token@, pending@, pairs(commands@), id.0@, now).fault,
    {
        proof {
            reveal(request_bound);
        }
        let ghost p = pending@;
        if self.is_valid(&pending, now) {
            let entries = make_actions(&pending.owner, pending.deadline, commands, id.0.as_str(), Ghost(p));
            if self.cards.actions.insert(entries, now) {
                self.approvals.interactions.insert_back(token, pending);
                return Ok(());
            }
        }
        self.give_up(pending)
    }

    fn approval_replied(&mut self, outcome: ReplyOutcome) -> (r: Result<(), RuntimeError>)
        requires
            old(self).wf(),
        ensures
            final(self).at(after_replied(old(self)@, outcome)),
            fault_of(r) == after_replied(old(self)@, outcome).fault,
    {
        if !outcome.submitted {
            return Ok(());
        }
        if outcome.result.is_ok() {
            let text: &str = if outcome.questions {
                "已向 Codex 回传答案。"
            } else if outcome.allow {
                "已向 Codex 回传本次同意；执行结果请等待任务回复。"
            } else {
                "已向 Codex 回传拒绝。"
            };
            return self.tell(outcome.chat.as_str(), text);
        }
        let text: &str = if outcome.questions {
            "问答回传结果不确定，已停止连接，不会自动重试。"
        } else {
            "审批回传结果不确定，已停止连接，不会自动重试。"
        };
        match self.tell(outcome.chat.as_str(), text) {
            Ok(()) => Err(RuntimeError::Interaction("交互回传失败")),
            Err(e) => Err(e),
        }
    }

    fn register_panel(&mut self, refreshed: bool, panel: Panel, entries: Vec<(String, Action)>, result: Result<MessageId, DeliveryError>, now: u64)
        requires
            old(self).wf(),
        ensures
            final(self).at(after_panel_sent(old(self)@, refreshed, panel@, entries_text(entries@), result, now)),
            after_panel_sent(old(self)@, refreshed, panel@, entries_text(entries@), result, now).fault is None,
    {
        proof {
            reveal(after_panel_sent);
        }
        let ghost s0 = self@;
        if refreshed {
            self.cards.updating_panel = false;
        }
        match result {
            Err(_) => {},
            Ok(id) => {
                self.cards.views.insert(id.0.clone(), panel);
                let current = self.rebind(entries, id.0.as_str());
                if !self.cards.actions.insert(current, now) {
                    self.record(Event::CardFailed, Status::Rejected, None, 0);
                }
            },
        }
    }

    /// The entries whose cards are current, bound to their message.
    fn rebind(&self, entries: Vec<(String, Action)>, source: &str) -> (r: Vec<(String, Action)>)
        requires
            self.wf(),
        ensures
            entries_text(r@) == current_entries(self@.generations, entries_text(entries@), source@),
    {
        let ghost f = |e: (Seq<char>, ActionText)| (e.0, ActionText { source: source@, ..e.1 });
        let ghost p = |e: (Seq<char>, ActionText)| e.1.generation == generation_in(self@.generations, e.1.user);
        let ghost view = |e: (String, Action)| (e.0@, e.1@);
        let ghost q = |e: (String, Action)| e.1@.generation == generation_in(self@.generations, e.1@.user);
        let ghost given = entries@;
        let mut kept = entries;
        let fresh = |e: &(String, Action)| -> (r: bool)
            ensures
                r == (e.1@.generation == generation_in(self@.generations, e.1@.user)),
        { e.1.generation == self.generation(e.1.user.as_str()) };
        keep(&mut kept, fresh, Ghost(q));
        proof {
            selection_maps(given, q, view, p);
            assert(entries_text(given) =~= given.map_values(view));
        }
        let ghost chosen = kept@;
        let mut i: usize = 0;
        while i < kept.len()
            invariant
                i <= kept@.len() == chosen.len(),
                f == (|e: (Seq<char>, ActionText)| (e.0, ActionText { source: source@, ..e.1 })),
                view == (|e: (String, Action)| (e.0@, e.1@)),
                forall|j: int| 0 <= j < i ==> view(#[trigger] kept@[j]) == f(view(chosen[j])),
                forall|j: int| i <= j < chosen.len() ==> #[trigger] kept@[j] == chosen[j],
            decreases kept.len() - i,
        {
            kept[i].1.source = source.to_owned();
            i = i + 1;
        }
        proof {
            assert(entries_text(kept@) =~= entries_text(chosen).map_values(f));
            assert(entries_text(chosen) =~= chosen.map_values(view));
        }
        kept
    }

    fn deliver_list(&mut self, refresh: Option<String>, owner: Owner, panel: Panel, commands: Vec<(String, String)>, now: u64) -> (r: Result<(), RuntimeError>)
        requires
            old(self).wf(),
            clock(now),
            old(self)@.next_panel < u64::MAX,
        ensures
            final(self).at(list_delivered(old(self)@, opt(refresh), owner@, panel@, pairs(commands@), now)),
            fault_of(r) == list_delivered(old(self)@, opt(refresh), owner@, panel@, pairs(commands@), now).fault,
    {
        self.cards.next_panel = self.cards.next_panel + 1;
        match refresh {
            Some(source) => {
                if self.cards.refreshes.len() >= limits::PANEL_REFRESHES {
                    return self.tell(owner.chat.as_str(), "卡片刷新队列已满，请重新发送列表命令。");
                }
                let ghost before = self@.refreshes;
                let refresh = PanelRefresh { source, owner, panel, commands };
                self.cards.refreshes.push_back(refresh);
                proof {
                    assert(self@.refreshes =~= before.push(refresh@));
                }
                Ok(())
            },
            None => {
                if !self.can_spawn(false) {
                    return self.tell(owner.chat.as_str(), "系统繁忙，请稍后重新发送列表命令。");
                }
                self.send_panel(None, owner, panel, commands, now);
                Ok(())
            },
        }
    }

    fn listed(&mut self, refresh: Option<String>, owner: Owner, result: Result<ListedContent, StartError>, now: u64) -> (r: Result<(), RuntimeError>)
        requires
            old(self).wf(),
            clock(now),
        ensures
            final(self).at(after_listed(old(self)@, opt(refresh), owner@, result, now)),
            fault_of(r) == after_listed(old(self)@, opt(refresh), owner@, result, now).fault,
    {
        proof {
            reveal(after_listed);
        }
        match result {
            Err(error) => {
                let mut text = "读取会话列表失败：".to_owned();
                text.append(error.message().as_str());
                self.tell(owner.chat.as_str(), text.as_str())
            },
            Ok(ListedContent::Text(text)) => self.tell(owner.chat.as_str(), text.as_str()),
            Ok(ListedContent::Threads { entries, archived }) => {
                if self.cards.next_panel == u64::MAX {
                    return Err(RuntimeError::Capacity("卡片编号耗尽"));
                }
                let prefix = tokens::panel_prefix(self.settings.epoch, self.cards.next_panel + 1);
                let (panel, commands) = crate::cards::threads(&entries, archived, prefix.as_str());
                self.deliver_list(refresh, owner, panel, commands, now)
            },
            Ok(ListedContent::Models { entries, current }) => {
                if self.cards.next_panel == u64::MAX {
                    return Err(RuntimeError::Capacity("卡片编号耗尽"));
                }
                let prefix = tokens::panel_prefix(self.settings.epoch, self.cards.next_panel + 1);
                let chosen: Option<&str> = match &current {
                    Some(c) => Some(c.as_str()),
                    None => None,
                };
                let (panel, commands) = crate::cards::models(&entries, chosen, prefix.as_str());
                self.deliver_list(refresh, owner, panel, commands, now)
            },
        }
    }

    pub fn handle_card_done(&mut self, done: CardDone, now: u64) -> (r: Result<(), RuntimeError>)
        requires
            old(self).wf(),
            clock(now),
        ensures
            final(self).at(after_card_done(old(self)@, done, now)),
            fault_of(r) == after_card_done(old(self)@, done, now).fault,
    {
        proof {
            reveal(after_card_done);
        }
        match done {
            CardDone::ApprovalSent { token, panel, commands, result } => self.approval_sent(token, panel, commands, result, now),
            CardDone::ApprovalReplied { outcome } => self.approval_replied(outcome),
            CardDone::PanelUpdated => {
                self.cards.updating_panel = false;
                Ok(())
            },
            CardDone::PanelSent { refreshed, panel, entries, result } => {
                self.register_panel(refreshed, panel, entries, result, now);
                Ok(())
            },
            CardDone::Listed { refresh, chat, session, generation, snapshot, result } => {
                let owner = Owner {
                    user: session.user,
                    chat,
                    directory: session.workspace,
                    generation,
                    stop_snapshot: snapshot,
                };
                self.listed(refresh, owner, result, now)
            },
        }
    }
}

} // verus!
