//! What holds of completed jobs, of the cards they show and of the plans and
//! changes that follow from them.
use vstd::prelude::*;
use vstd::string::*;
use crate::cards::{
    actions_after, actions_fit, extended, live_actions, pairs, snapshot_text, ActionText, OwnerText,
};
use crate::directories::CreationText;
use crate::events::{AgentEvent, TurnOutcome};
use crate::messaging::{DeliveryError, MessageId};
use crate::model::{Directory, DirectoryText, ExecutionMode, SessionText};
use crate::ports::BackendError;
use crate::runtime::answers::{after_plan_request, can_mutate};
use crate::runtime::changes::{
    after_compact_request, after_confirmation, after_directory_change, after_preferences, after_reset_request, after_threads,
};
use crate::runtime::done_card::{
    after_approval_sent, after_card_done, after_listed, after_panel_sent, current_entries, list_owner, request_bound, still_valid,
};
use crate::runtime::done_session::{
    after_archive_synced, after_compact_claim, after_compact_prepared, after_compact_submitted, after_creation_claim,
    after_directory_proposed, after_preference_changed, after_reset, after_session_changed, after_session_done, claim_decided,
    directory_settled,
};
use crate::runtime::done_task::{after_admission, after_plan_action, after_prepared, after_task_done, after_turn_started};
use crate::runtime::effects::after_done;
use crate::runtime::flow::{finished, folded, folded_all};
use crate::runtime::laws::{acknowledged, input_of};
use crate::runtime::limits;
use crate::runtime::state::{
    begin, generation_in, CardDone, Done, InputText, JobText, ListedContent, PreferenceQuery, SessionDone, State, Step, TaskDone,
};
use crate::scheduler::Admissions;
use crate::sessions::{ChangeText, SessionStoreError, StartError, ThreadAction};
use crate::text::{blank, byte_count, opt};
use crate::view::PanelView;

verus! {

/// The input that a completion of a chain over sessions brings back.
pub open spec fn session_input(done: SessionDone) -> Option<InputText> {
    match done {
        SessionDone::CreationClaim { input, .. } => Some(input@),
        SessionDone::DirectoryClaim { input, .. } => Some(input@),
        SessionDone::CompactClaim { input, .. } => Some(input@),
        SessionDone::PreferenceClaim { input, .. } => Some(input@),
        SessionDone::ThreadClaim { input, .. } => Some(input@),
        SessionDone::Reset { input, .. } => Some(input@),
        _ => None,
    }
}

/// The input that a completion of a task's step brings back.
pub open spec fn task_input(done: TaskDone) -> Option<InputText> {
    match done {
        TaskDone::PlanAction { input, .. } => Some(input@),
        TaskDone::Admission { input, .. } => Some(input@),
        _ => None,
    }
}

/// The input that a completion brings back.
pub open spec fn returned(done: Done) -> Option<InputText> {
    match done {
        Done::Session(d) => session_input(d),
        Done::Task(d) => task_input(d),
        _ => None,
    }
}

proof fn claims_settle(s: State, input: InputText, result: Result<bool, ()>, job: JobText, failure: Seq<char>, receipt: u64)
    requires
        input.ack == Some(receipt),
        input_of(job) is None,
    ensures
        acknowledged(s, claim_decided(s, input, result, job, failure).state, receipt),
{
    reveal(claim_decided);
}

proof fn creations_settle(s: State, input: InputText, creation: CreationText, result: Result<bool, ()>, now: u64, receipt: u64)
    requires
        input.ack == Some(receipt),
    ensures
        acknowledged(s, after_creation_claim(s, input, creation, result, now).state, receipt),
{
    reveal(after_creation_claim);
}

proof fn compactions_settle(s: State, input: InputText, session: SessionText, result: Result<bool, ()>, now: u64, receipt: u64)
    requires
        input.ack == Some(receipt),
    ensures
        acknowledged(s, after_compact_claim(s, input, session, result, now).state, receipt),
{
    reveal(finished);
    reveal(after_compact_claim);
}

proof fn session_completions_settle(s: State, done: SessionDone, now: u64, receipt: u64)
    requires
        session_input(done) matches Some(i) && i.ack == Some(receipt),
    ensures
        acknowledged(s, after_session_done(s, done, now).state, receipt),
{
    reveal(after_session_done);
    match done {
        SessionDone::DirectoryClaim { input, current, target, result } => {
            claims_settle(
                s,
                input@,
                result,
                JobText::ProposeDirectory { user: input@.user, chat: input@.chat, current: current@, target: target@ },
                "目录请求保存失败，未切换；请重新发送。"@,
                receipt,
            );
        },
        SessionDone::PreferenceClaim { input, session, change, result } => {
            claims_settle(
                s,
                input@,
                result,
                JobText::ChangePreference { chat: input@.chat, session: session@, change: change@ },
                "设置请求保存失败，请重新发送。"@,
                receipt,
            );
        },
        SessionDone::ThreadClaim { input, session, thread, action, result } => {
            claims_settle(
                s,
                input@,
                result,
                JobText::ChangeThread { chat: input@.chat, session: session@, thread: thread@, action },
                "会话操作请求保存失败，未执行；请重新发送。"@,
                receipt,
            );
        },
        SessionDone::CreationClaim { input, creation, result } => {
            creations_settle(s, input@, creation@, result, now, receipt);
        },
        SessionDone::CompactClaim { input, session, result } => {
            compactions_settle(s, input@, session@, result, now, receipt);
        },
        _ => {
            reveal(after_reset);
        },
    }
}

proof fn folding_settles_nothing(s: Step, events: Seq<AgentEvent>, now: u64)
    ensures
        folded_all(s, events, now).state.receipts == s.state.receipts,
    decreases events.len(),
{
    reveal(folded);
    reveal(finished);
    if events.len() > 0 {
        folding_settles_nothing(s, events.drop_last(), now);
        assert(folded(folded_all(s, events.drop_last(), now), events.last(), now).state.receipts == s.state.receipts);
    }
}

proof fn proposals_settle_nothing(
    s: State,
    user: Seq<char>,
    chat: Seq<char>,
    current: DirectoryText,
    target: Seq<char>,
    result: Result<Option<Directory>, SessionStoreError>,
    now: u64,
)
    ensures
        after_directory_proposed(s, user, chat, current, target, result, now).state.receipts == s.receipts,
{
    reveal(after_directory_proposed);
}

proof fn prepared_compactions_settle_nothing(s: State, id: Seq<char>, result: Result<String, StartError>)
    ensures
        after_compact_prepared(s, id, result).state.receipts == s.receipts,
{
    reveal(after_compact_prepared);
    reveal(finished);
}

proof fn submitted_compactions_settle_nothing(s: State, id: Seq<char>, result: Result<(), BackendError>)
    ensures
        after_compact_submitted(s, id, result).state.receipts == s.receipts,
{
    reveal(after_compact_submitted);
    reveal(finished);
}

proof fn other_sessions_settle_nothing(s: State, done: SessionDone, now: u64)
    requires
        session_input(done) is None,
    ensures
        after_session_done(s, done, now).state.receipts == s.receipts,
{
    reveal(after_session_done);
    match done {
        SessionDone::DirectoryProposed { user, chat, current, target, result } => {
            proposals_settle_nothing(s, user@, chat@, current@, target@, result, now);
        },
        SessionDone::CompactPrepared { id, result } => {
            prepared_compactions_settle_nothing(s, id@, result);
        },
        SessionDone::CompactSubmitted { id, result } => {
            submitted_compactions_settle_nothing(s, id@, result);
        },
        SessionDone::ArchiveSynced { .. } => {
            reveal(after_archive_synced);
        },
        SessionDone::PreferenceChanged { .. } => {
            reveal(after_preference_changed);
        },
        SessionDone::SessionChanged { .. } => {
            reveal(after_session_changed);
        },
        _ => {
            reveal(directory_settled);
        },
    }
}

proof fn other_tasks_settle_nothing(s: State, done: TaskDone, now: u64)
    requires
        task_input(done) is None,
    ensures
        after_task_done(s, done, now).state.receipts == s.receipts,
{
    reveal(after_task_done);
    reveal(after_prepared);
    reveal(after_turn_started);
    reveal(finished);
    match done {
        TaskDone::Started { id, result } => {
            if let Ok(turn) = result {
                let a = s.active->Some_0;
                let g = a.gate->Some_0;
                let events = crate::execution::replay(g.early, turn).0;
                let t = begin(s).record(
                    crate::diagnostics::Event::TaskStarted,
                    crate::runtime::done_task::success(true),
                    Some(id@),
                    0,
                ).state;
                let bound = begin(
                    State {
                        active: Some(
                            crate::runtime::state::ActiveText {
                                turn: Some(turn),
                                gate: Some(crate::runtime::protocol::bound_gate(g, turn)),
                                ..a
                            },
                        ),
                        ..t
                    },
                );
                folding_settles_nothing(bound, events, now);
                folding_settles_nothing(
                    crate::runtime::flow::interrupted(bound, turn, "控制容量耗尽，无法回传停止请求"@),
                    events,
                    now,
                );
            }
        },
        _ => {},
    }
}

proof fn task_completions_settle(s: State, done: TaskDone, now: u64, receipt: u64)
    requires
        task_input(done) matches Some(i) && i.ack == Some(receipt),
    ensures
        acknowledged(s, after_task_done(s, done, now).state, receipt),
{
    reveal(after_task_done);
    reveal(after_plan_action);
    reveal(after_admission);
}

proof fn lists_settle_nothing(s: State, refresh: Option<Seq<char>>, owner: OwnerText, result: Result<ListedContent, StartError>, now: u64)
    ensures
        after_listed(s, refresh, owner, result, now).state.receipts == s.receipts,
{
    reveal(after_listed);
}

proof fn requests_settle_nothing(
    s: State,
    token: Seq<char>,
    panel: PanelView,
    commands: Seq<(Seq<char>, Seq<char>)>,
    result: Result<MessageId, DeliveryError>,
    now: u64,
)
    ensures
        after_approval_sent(s, token, panel, commands, result, now).state.receipts == s.receipts,
{
    reveal(request_bound);
    reveal(after_approval_sent);
}

proof fn cards_settle_nothing(s: State, done: CardDone, now: u64)
    ensures
        after_card_done(s, done, now).state.receipts == s.receipts,
{
    reveal(after_card_done);
    match done {
        CardDone::ApprovalSent { token, panel, commands, result } => {
            requests_settle_nothing(s, token@, panel@, pairs(commands@), result, now);
        },
        CardDone::Listed { refresh, chat, session, generation, snapshot, result } => {
            lists_settle_nothing(
                s,
                opt(refresh),
                list_owner(session@, chat@, generation, snapshot_text(snapshot)),
                result,
                now,
            );
        },
        _ => {
            reveal(after_panel_sent);
        },
    }
}

/// A completion settles the receipt of the input it brings back, exactly once
/// and without handing the input on, also where the run stops; a completion
/// without an input settles nothing.
pub proof fn completions_settle_their_input(s: State, done: Done, now: u64, receipt: u64)
    ensures
        match returned(done) {
            Some(i) => i.ack == Some(receipt) ==> acknowledged(s, after_done(s, done, now).state, receipt),
            None => after_done(s, done, now).state.receipts == s.receipts,
        },
{
    let t = crate::runtime::effects::job_ended(s);
    match done {
        Done::Session(d) => {
            if session_input(d) is None {
                other_sessions_settle_nothing(t, d, now);
            } else if session_input(d)->Some_0.ack == Some(receipt) {
                session_completions_settle(t, d, now, receipt);
            }
        },
        Done::Task(d) => {
            if task_input(d) is None {
                other_tasks_settle_nothing(t, d, now);
            } else if task_input(d)->Some_0.ack == Some(receipt) {
                task_completions_settle(t, d, now, receipt);
            }
        },
        Done::Card(d) => {
            cards_settle_nothing(t, d, now);
        },
        Done::Delivery(_) => {},
    }
}

/// What an extension holds comes from the old map or from the new entries.
proof fn extension_adds_entries(m: Map<Seq<char>, ActionText>, entries: Seq<(Seq<char>, ActionText)>, k: Seq<char>)
    requires
        extended(m, entries).contains_key(k),
    ensures
        (m.contains_key(k) && extended(m, entries)[k] == m[k]) || exists|i: int|
            0 <= i < entries.len() && (#[trigger] entries[i]) == (k, extended(m, entries)[k]),
    decreases entries.len(),
{
    if entries.len() > 0 {
        let last = entries.last();
        if last.0 == k {
            assert(entries[entries.len() - 1] == (k, extended(m, entries)[k]));
        } else {
            let rest = entries.drop_last();
            extension_adds_entries(m, rest, k);
            if !(m.contains_key(k) && extended(m, rest)[k] == m[k]) {
                let i = choose|i: int| 0 <= i < rest.len() && (#[trigger] rest[i]) == (k, extended(m, rest)[k]);
                assert(entries[i] == (k, extended(m, entries)[k]));
            }
        }
    }
}

/// A card that was invalidated while it was on its way opens nothing: every
/// button that its delivery registers is of its user's current generation.
pub proof fn outdated_cards_open_nothing(
    s: State,
    refreshed: bool,
    panel: PanelView,
    entries: Seq<(Seq<char>, ActionText)>,
    result: Result<MessageId, DeliveryError>,
    now: u64,
    k: Seq<char>,
)
    requires
        after_panel_sent(s, refreshed, panel, entries, result, now).state.actions.contains_key(k),
    ensures
        ({
            let a = after_panel_sent(s, refreshed, panel, entries, result, now).state.actions[k];
            s.actions.contains_key(k) && s.actions[k] == a || a.generation == generation_in(s.generations, a.user)
        }),
{
    reveal(after_panel_sent);
    if let Ok(id) = result {
        let current = current_entries(s.generations, entries, id.0@);
        let live = live_actions(s.actions, now);
        if actions_fit(s.actions, current.len(), now) {
            extension_adds_entries(live, current, k);
            let a = actions_after(s.actions, current, now)[k];
            if !(live.contains_key(k) && a == live[k]) {
                let i = choose|i: int| 0 <= i < current.len() && (#[trigger] current[i]) == (k, a);
                let f = |e: (Seq<char>, ActionText)| e.1.generation == generation_in(s.generations, e.1.user);
                entries.lemma_filter_pred(f, i);
                assert(current[i].1.user == entries.filter(f)[i].1.user);
            }
        }
    }
}

/// A request's buttons are opened only while the running task's turn is bound
/// and waits for the request: before that the request may wait, but nobody can
/// approve it.
pub proof fn requests_open_only_for_bound_turns(
    s: State,
    token: Seq<char>,
    panel: PanelView,
    commands: Seq<(Seq<char>, Seq<char>)>,
    result: Result<MessageId, DeliveryError>,
    now: u64,
)
    requires
        s.interactions.contains_key(token),
        s.interactions[token].source is None,
    ensures
        ({
            let after = after_approval_sent(s, token, panel, commands, result, now).state;
            after.interactions.contains_key(token) ==> still_valid(s, s.interactions[token], now)
        }),
{
    reveal(request_bound);
    reveal(after_approval_sent);
}

/// A completed plan that was kept whole is the only source of an offer to
/// implement it, and the offer shows exactly that plan.
pub proof fn only_whole_plans_are_offered(s: State, event: AgentEvent, now: u64)
    ensures
        ({
            let offer = folded(begin(s), event, now).state.plan_offer;
            offer != s.plan_offer ==> {
                &&& event matches AgentEvent::Finished { outcome: TurnOutcome::Completed, .. }
                &&& s.active matches Some(a) && !a.is_compact() && !a.stopping && a.spec.mode == ExecutionMode::Plan && (
                a.plan matches Some(p) && !p.1 && !blank(p.0) && byte_count(p.0) <= limits::PLAN_BYTES && (
                offer matches Some(o) && o.text == p.0 && o.task == a.spec && !o.sent))
            }
        }),
{
    reveal(folded);
    reveal(finished);
}

/// The input was handed to a job that changes sessions.
pub open spec fn took_over(before: State, after: State) -> bool {
    after.spawned.len() > before.spawned.len() && input_of(after.spawned.last()) is Some
}

/// The scheduler was idle, and its mutation gate is closed now.
pub open spec fn gate_taken(before: State, after: State) -> bool {
    can_mutate(before.admissions) && after.admissions == (Admissions { mutating: true, ..before.admissions })
}

/// A job that changes sessions took the input over and holds the mutation gate,
/// or the scheduler is as it was.
pub open spec fn gate_moved(before: State, after: Step) -> bool {
    if took_over(before, after.state) {
        after.fault is None && gate_taken(before, after.state)
    } else {
        after.state.admissions == before.admissions
    }
}

proof fn confirmations_move_the_gate(s: State, input: InputText, text: Seq<char>, now: u64)
    ensures
        gate_moved(s, after_confirmation(s, input, text, now)),
{
    reveal(after_confirmation);
}

proof fn directories_move_the_gate(s: State, input: InputText, target: Option<Seq<char>>)
    ensures
        gate_moved(s, after_directory_change(s, input, target)),
{
    reveal(after_directory_change);
}

proof fn preferences_move_the_gate(s: State, input: InputText, change: Option<ChangeText>, what: PreferenceQuery, refresh: Option<Seq<char>>)
    ensures
        gate_moved(s, after_preferences(s, input, change, what, refresh)),
{
    reveal(after_preferences);
}

proof fn threads_move_the_gate(s: State, input: InputText, target: Option<Seq<char>>, action: ThreadAction, archived: bool, refresh: Option<Seq<char>>)
    ensures
        gate_moved(s, after_threads(s, input, target, action, archived, refresh)),
{
    reveal(after_threads);
}

proof fn plans_move_the_gate(s: State, input: InputText, text: Seq<char>, source: Option<Seq<char>>, now: u64)
    ensures
        gate_moved(s, after_plan_request(s, input, text, source, now)),
{
    reveal(after_plan_request);
}

/// Sessions, directories and settings are changed only while nothing runs or
/// waits, and whoever changes them holds the mutation gate from then on. What is
/// refused, or stops the run, leaves the mutation gate as it was.
pub proof fn changes_need_an_idle_scheduler(
    s: State,
    input: InputText,
    text: Seq<char>,
    target: Option<Seq<char>>,
    change: Option<ChangeText>,
    what: PreferenceQuery,
    action: ThreadAction,
    archived: bool,
    refresh: Option<Seq<char>>,
    source: Option<Seq<char>>,
    now: u64,
)
    ensures
        gate_moved(s, after_confirmation(s, input, text, now)),
        gate_moved(s, after_directory_change(s, input, target)),
        gate_moved(s, after_preferences(s, input, change, what, refresh)),
        gate_moved(s, after_threads(s, input, target, action, archived, refresh)),
        gate_moved(s, after_compact_request(s, input)),
        gate_moved(s, after_reset_request(s, input)),
        gate_moved(s, after_plan_request(s, input, text, source, now)),
{
    confirmations_move_the_gate(s, input, text, now);
    directories_move_the_gate(s, input, target);
    preferences_move_the_gate(s, input, change, what, refresh);
    threads_move_the_gate(s, input, target, action, archived, refresh);
    plans_move_the_gate(s, input, text, source, now);
    reveal(after_compact_request);
    reveal(after_reset_request);
}

} // verus!
