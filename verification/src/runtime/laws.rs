//! What holds of the runtime as a whole, whatever the events.
use vstd::prelude::*;
use vstd::string::*;
use crate::cards::{usable, ActionText};
use crate::command::{command_of, CommandText};
use crate::directories::CreationText;
use crate::events::{AgentEvent, TurnOutcome};
use crate::interactions::{stale, unsent, PendingText, ReplyOutcome};
use crate::markdown::fitting_fits;
use crate::outcome::OutcomeView;
use crate::ports::BackendError;
use crate::runtime::answers::{after_answer, after_approve, after_choice, after_plan_request};
use crate::runtime::changes::{
    after_compact_request, after_confirmation, after_directory_change, after_preferences, after_reset_request, after_threads, shown,
};
use crate::runtime::control::{after_help, after_simple, after_task_request, asked_task};
use crate::runtime::done_card::after_replied;
use crate::runtime::done_task::{after_control, after_plan_action, after_turn_started, runs};
use crate::runtime::done_session::{
    after_archive_synced, after_compact_claim, after_compact_prepared, after_compact_submitted, after_creation_claim,
    after_directory_proposed, after_preference_changed, after_reset, after_session_changed, after_session_done, claim_decided,
    compacts, directory_settled,
};
use crate::runtime::effects::{after_shutdown, denials};
use crate::runtime::flow::{finished, folded, turn_outcome};
use crate::runtime::input::{
    after_click, after_command, after_input, after_message, after_paired, after_session_command, after_text, change_of, described, keeps_offer,
    query_of, said,
};
use crate::runtime::limits;
use crate::runtime::maintain::{
    after_maintenance, archive_synced, card_dispatched, cards_dispatched, expired_all, expired_one, new_task, of_turn, stale_expired,
    tidied,
};
use crate::runtime::state::{
    alive, begin, fits, ActiveKindText, ActiveText, InputText, JobText, SessionDone, State, Step,
};
use crate::model::{Directory, DirectoryText, SessionText, TaskText};
use crate::runtime::tokens::task_id_text;
use crate::scheduler::{admission_keeps_the_gate, can_reserve, reserved, tickets_given_up_leave_nothing, Admissions};
use crate::sessions::{SessionStoreError, StartError, ThreadAction};
use crate::text::{begins_with, byte_count, bytes_add};
use crate::textmap::{kept, order_exists, order_selection, ordered};

verus! {

/// The input that a job has taken over, if it has taken one.
pub open spec fn input_of(job: JobText) -> Option<InputText> {
    match job {
        JobText::ClaimCreation { input, .. } => Some(input),
        JobText::ClaimDirectory { input, .. } => Some(input),
        JobText::ClaimCompact { input, .. } => Some(input),
        JobText::ClaimPreference { input, .. } => Some(input),
        JobText::ClaimThread { input, .. } => Some(input),
        JobText::Reset { input, .. } => Some(input),
        JobText::PlanAction { input, .. } => Some(input),
        JobText::ClaimTask { input, .. } => Some(input),
        _ => None,
    }
}

/// The receipt was settled, once, and no new job carries the input.
pub open spec fn acknowledged(before: State, after: State, receipt: u64) -> bool {
    &&& after.receipts == before.receipts.push((receipt, true)) || after.receipts == before.receipts.push((receipt, false))
    &&& before.spawned.len() <= after.spawned.len()
    &&& forall|i: int| before.spawned.len() <= i < after.spawned.len() ==> input_of(#[trigger] after.spawned[i]) is None
}

/// One new job carries the input and its receipt, which is still open.
pub open spec fn handed_over(before: State, after: State, receipt: u64) -> bool {
    &&& after.receipts == before.receipts
    &&& after.spawned.len() == before.spawned.len() + 1
    &&& input_of(after.spawned.last()) matches Some(i) && i.ack == Some(receipt)
}

/// The input was acknowledged or handed over, exactly one of them; where the
/// run stops, it was rejected.
pub open spec fn handled(before: State, after: Step, receipt: u64) -> bool {
    &&& acknowledged(before, after.state, receipt) || handed_over(before, after.state, receipt)
    &&& after.fault is Some ==> after.state.receipts == before.receipts.push((receipt, false))
}

proof fn plan_choices_are_handled(s: State, input: InputText, text: Seq<char>, source: Option<Seq<char>>, now: u64, receipt: u64)
    requires
        input.ack == Some(receipt),
    ensures
        handled(s, after_plan_request(s, input, text, source, now), receipt),
{
    reveal(after_plan_request);
}

proof fn typed_answers_are_handled(s: State, input: InputText, text: Seq<char>, source: Option<Seq<char>>, now: u64, receipt: u64)
    requires
        input.ack == Some(receipt),
    ensures
        handled(s, after_answer(s, input, text, source, now), receipt),
{
    reveal(after_answer);
}

proof fn clicked_answers_are_handled(s: State, input: InputText, text: Seq<char>, source: Option<Seq<char>>, now: u64, receipt: u64)
    requires
        input.ack == Some(receipt),
    ensures
        handled(s, after_choice(s, input, text, source, now), receipt),
{
    reveal(after_choice);
}

proof fn answers_are_handled(s: State, input: InputText, text: Seq<char>, token: Seq<char>, allow: bool, source: Option<Seq<char>>, now: u64, receipt: u64)
    requires
        input.ack == Some(receipt),
    ensures
        handled(s, after_plan_request(s, input, text, source, now), receipt),
        handled(s, after_answer(s, input, text, source, now), receipt),
        handled(s, after_choice(s, input, text, source, now), receipt),
        handled(s, after_approve(s, input, token, allow, source, now), receipt),
{
    plan_choices_are_handled(s, input, text, source, now, receipt);
    typed_answers_are_handled(s, input, text, source, now, receipt);
    clicked_answers_are_handled(s, input, text, source, now, receipt);
    reveal(after_approve);
}

proof fn changes_are_handled(s: State, input: InputText, text: Seq<char>, target: Option<Seq<char>>, now: u64, receipt: u64)
    requires
        input.ack == Some(receipt),
    ensures
        handled(s, after_confirmation(s, input, text, now), receipt),
        handled(s, after_directory_change(s, input, target), receipt),
        handled(s, after_compact_request(s, input), receipt),
        handled(s, after_reset_request(s, input), receipt),
{
    reveal(after_confirmation);
    reveal(after_directory_change);
    reveal(after_compact_request);
    reveal(after_reset_request);
}

proof fn settings_are_handled(s: State, input: InputText, command: CommandText, target: Option<Seq<char>>, action: ThreadAction, archived: bool, refresh: Option<Seq<char>>, receipt: u64)
    requires
        input.ack == Some(receipt),
    ensures
        handled(s, after_preferences(s, input, change_of(command), query_of(command), refresh), receipt),
        handled(s, after_threads(s, input, target, action, archived, refresh), receipt),
{
    reveal(after_preferences);
    reveal(after_threads);
}

proof fn control_is_handled(s: State, input: InputText, text: Seq<char>, now: u64, receipt: u64)
    requires
        input.ack == Some(receipt),
    ensures
        handled(s, after_help(s, input, now), receipt),
        handled(s, after_simple(s, input, text, now), receipt),
        handled(s, after_task_request(s, input, text), receipt),
{
    reveal(after_help);
    reveal(after_simple);
    reveal(after_task_request);
}

proof fn session_commands_are_handled(s: State, input: InputText, text: Seq<char>, refresh: Option<Seq<char>>, now: u64, receipt: u64)
    requires
        input.ack == Some(receipt),
    ensures
        handled(s, after_session_command(s, input, text, refresh, now), receipt),
{
    reveal(after_session_command);
    changes_are_handled(s, input, text, None, now, receipt);
    control_is_handled(s, input, text, now, receipt);
    match command_of(text) {
        Some(CommandText::Resume(target)) => {
            settings_are_handled(s, input, CommandText::Models, target, ThreadAction::Resume, false, refresh, receipt);
        },
        Some(CommandText::Archive(id)) => {
            settings_are_handled(s, input, CommandText::Models, Some(id), ThreadAction::Archive, false, refresh, receipt);
        },
        Some(CommandText::Unarchive(id)) => {
            settings_are_handled(s, input, CommandText::Models, Some(id), ThreadAction::Unarchive, true, refresh, receipt);
        },
        Some(CommandText::Archived) => {
            settings_are_handled(s, input, CommandText::Models, None, ThreadAction::Unarchive, true, refresh, receipt);
        },
        Some(command) => {
            settings_are_handled(s, input, command, None, ThreadAction::Resume, false, refresh, receipt);
        },
        None => {},
    }
}

proof fn commands_are_handled(s0: State, input: InputText, text: Seq<char>, source: Option<Seq<char>>, refresh: Option<Seq<char>>, now: u64, receipt: u64)
    requires
        input.ack == Some(receipt),
    ensures
        handled(s0, after_command(s0, input, text, source, refresh, now), receipt),
{
    reveal(after_command);
    let s = if begins_with(text, "/"@) && !keeps_offer(text) {
        State { plan_offer: None, ..s0 }
    } else {
        s0
    };
    session_commands_are_handled(s, input, text, refresh, now, receipt);
    control_is_handled(s, input, text, now, receipt);
    match command_of(text) {
        Some(CommandText::Approve { token, allow }) => {
            answers_are_handled(s, input, text, token, allow, source, now, receipt);
        },
        Some(CommandText::ConfirmDirectory(token)) => {
            changes_are_handled(s, input, token, None, now, receipt);
        },
        Some(CommandText::ChangeDirectory(target)) => {
            changes_are_handled(s, input, text, target, now, receipt);
        },
        _ => {},
    }
}

proof fn texts_are_handled(s: State, input: InputText, source: Option<Seq<char>>, refresh: Option<Seq<char>>, now: u64, receipt: u64)
    requires
        input.ack == Some(receipt),
    ensures
        handled(s, after_text(s, input, source, refresh, now), receipt),
{
    reveal(after_text);
    let text = said(input);
    answers_are_handled(s, input, text, text, true, source, now, receipt);
    commands_are_handled(s, input, text, source, refresh, now, receipt);
}

proof fn messages_are_handled(s: State, input: InputText, now: u64, receipt: u64)
    requires
        input.ack == Some(receipt),
    ensures
        handled(s, after_message(s, input, now), receipt),
{
    reveal(after_message);
    match input.card {
        Some((token, source)) => {
            reveal(after_click);
            let rest = s.actions.remove(token);
            let run = InputText { card: None, id: "card:"@ + token, text: Some(s.actions[token].command), ..input };
            let refreshed = State {
                actions: kept(rest, |k: Seq<char>, a: ActionText| a.source != source),
                views: s.views.remove(source),
                ..s
            };
            texts_are_handled(refreshed, run, Some(source), Some(source), now, receipt);
            texts_are_handled(State { actions: rest, ..s }, run, Some(source), None, now, receipt);
        },
        None => {
            texts_are_handled(s, InputText { text: Some(described(input.text)), ..input }, None, None, now, receipt);
            texts_are_handled(s, input, None, None, now, receipt);
        },
    }
}

/// Every input is handled exactly once: its receipt is settled, or one job (or
/// the pairing attempt) takes it over with its receipt open. Where the run stops
/// on the way, the input is rejected.
pub proof fn inputs_are_handled_once(s: State, input: InputText, now: u64, receipt: u64)
    requires
        input.ack == Some(receipt),
    ensures
        ({
            let (after, pairing) = after_input(s, input, now);
            match pairing {
                Some(p) => after.fault is None && p.input == input && after.state.receipts == s.receipts
                    && after.state.spawned == s.spawned,
                None => handled(s, after, receipt),
            }
        }),
{
    messages_are_handled(s, input, now, receipt);
}

/// A pairing attempt that the store has decided settles its input, once.
pub proof fn pairings_settle_their_input(s: State, input: InputText, result: Result<bool, SessionStoreError>, receipt: u64)
    requires
        input.ack == Some(receipt),
    ensures
        handled(s, after_paired(s, input, result), receipt),
        acknowledged(s, after_paired(s, input, result).state, receipt),
{
}

/// A message that does not become a task leaves no attachments behind: what it
/// staged belongs to no task that the scheduler knows, and is gone after the
/// next maintenance.
pub proof fn refused_tasks_keep_no_attachments(s: State, input: InputText, text: Seq<char>, now: u64)
    requires
        s.wf(),
        s.next_task < u64::MAX,
        !s.admissions.knows(task_id_text(s.epoch, (s.next_task + 1) as u64)),
        after_task_request(s, input, text).state.spawned == s.spawned,
    ensures
        ({
            let after = after_task_request(s, input, text).state;
            let id = task_id_text(s.epoch, (s.next_task + 1) as u64);
            &&& !after.admissions.knows(id)
            &&& !tidied(after, now).resources.contains_key(id)
        }),
{
    reveal(after_task_request);
    let id = task_id_text(s.epoch, (s.next_task + 1) as u64);
    assert forall|job: JobText| s.spawned.push(job) != s.spawned by {
        assert(s.spawned.push(job).len() != s.spawned.len());
    }
    if can_reserve(s.admissions, input.id) {
        tickets_given_up_leave_nothing(s.admissions, input.id, asked_task(s, input, text, id));
    }
}

/// Every action was there before, unchanged.
pub open spec fn no_new_actions(before: Map<Seq<char>, ActionText>, after: Map<Seq<char>, ActionText>) -> bool {
    forall|k: Seq<char>| #[trigger] after.contains_key(k) ==> before.contains_key(k) && after[k] == before[k]
}

proof fn answers_mint_nothing(s: State, input: InputText, text: Seq<char>, token: Seq<char>, allow: bool, source: Option<Seq<char>>, now: u64)
    ensures
        no_new_actions(s.actions, after_plan_request(s, input, text, source, now).state.actions),
        no_new_actions(s.actions, after_answer(s, input, text, source, now).state.actions),
        no_new_actions(s.actions, after_choice(s, input, text, source, now).state.actions),
        no_new_actions(s.actions, after_approve(s, input, token, allow, source, now).state.actions),
{
    reveal(after_plan_request);
    reveal(after_answer);
    reveal(after_choice);
    reveal(after_approve);
}

proof fn changes_mint_nothing(s: State, input: InputText, text: Seq<char>, target: Option<Seq<char>>, now: u64)
    ensures
        after_confirmation(s, input, text, now).state.actions == s.actions,
        after_directory_change(s, input, target).state.actions == s.actions,
        after_compact_request(s, input).state.actions == s.actions,
        after_reset_request(s, input).state.actions == s.actions,
{
    reveal(after_confirmation);
    reveal(after_directory_change);
    reveal(after_compact_request);
    reveal(after_reset_request);
}

proof fn settings_mint_nothing(s: State, input: InputText, command: CommandText, target: Option<Seq<char>>, action: ThreadAction, archived: bool, refresh: Option<Seq<char>>)
    ensures
        after_preferences(s, input, change_of(command), query_of(command), refresh).state.actions == s.actions,
        after_threads(s, input, target, action, archived, refresh).state.actions == s.actions,
{
    reveal(after_preferences);
    reveal(after_threads);
}

proof fn control_mints_nothing(s: State, input: InputText, text: Seq<char>, now: u64)
    ensures
        after_help(s, input, now).state.actions == s.actions,
        after_simple(s, input, text, now).state.actions == s.actions,
        after_task_request(s, input, text).state.actions == s.actions,
{
    reveal(after_help);
    reveal(after_simple);
    reveal(after_task_request);
}

proof fn session_commands_mint_nothing(s: State, input: InputText, text: Seq<char>, refresh: Option<Seq<char>>, now: u64)
    ensures
        after_session_command(s, input, text, refresh, now).state.actions == s.actions,
{
    reveal(after_session_command);
    changes_mint_nothing(s, input, text, None, now);
    control_mints_nothing(s, input, text, now);
    match command_of(text) {
        Some(CommandText::Resume(target)) => {
            settings_mint_nothing(s, input, CommandText::Models, target, ThreadAction::Resume, false, refresh);
        },
        Some(CommandText::Archive(id)) => {
            settings_mint_nothing(s, input, CommandText::Models, Some(id), ThreadAction::Archive, false, refresh);
        },
        Some(CommandText::Unarchive(id)) => {
            settings_mint_nothing(s, input, CommandText::Models, Some(id), ThreadAction::Unarchive, true, refresh);
        },
        Some(CommandText::Archived) => {
            settings_mint_nothing(s, input, CommandText::Models, None, ThreadAction::Unarchive, true, refresh);
        },
        Some(command) => {
            settings_mint_nothing(s, input, command, None, ThreadAction::Resume, false, refresh);
        },
        None => {},
    }
}

proof fn commands_mint_nothing(s0: State, input: InputText, text: Seq<char>, source: Option<Seq<char>>, refresh: Option<Seq<char>>, now: u64)
    ensures
        no_new_actions(s0.actions, after_command(s0, input, text, source, refresh, now).state.actions),
{
    reveal(after_command);
    let s = if begins_with(text, "/"@) && !keeps_offer(text) {
        State { plan_offer: None, ..s0 }
    } else {
        s0
    };
    session_commands_mint_nothing(s, input, text, refresh, now);
    control_mints_nothing(s, input, text, now);
    match command_of(text) {
        Some(CommandText::Approve { token, allow }) => {
            answers_mint_nothing(s, input, text, token, allow, source, now);
        },
        Some(CommandText::ConfirmDirectory(token)) => {
            changes_mint_nothing(s, input, token, None, now);
        },
        Some(CommandText::ChangeDirectory(target)) => {
            changes_mint_nothing(s, input, text, target, now);
        },
        _ => {},
    }
}

proof fn texts_mint_nothing(s: State, input: InputText, source: Option<Seq<char>>, refresh: Option<Seq<char>>, now: u64)
    ensures
        no_new_actions(s.actions, after_text(s, input, source, refresh, now).state.actions),
{
    reveal(after_text);
    let text = said(input);
    answers_mint_nothing(s, input, text, text, true, source, now);
    commands_mint_nothing(s, input, text, source, refresh, now);
}

/// A button works once: a click that runs its command leaves no action under
/// its token, whatever the command does; a click that is refused leaves every
/// action as it was.
pub proof fn clicks_work_once(s: State, input: InputText, token: Seq<char>, source: Seq<char>, now: u64)
    ensures
        ({
            let after = after_click(s, input, token, source, now).state;
            let used = s.actions.contains_key(token) && usable(
                s.actions[token],
                source,
                input.user,
                input.chat,
                s.current(input.user),
                now,
                s.card_snapshot(),
            );
            if used {
                !after.actions.contains_key(token) && no_new_actions(s.actions, after.actions)
            } else {
                after.actions == s.actions
            }
        }),
{
    reveal(after_click);
    let rest = s.actions.remove(token);
    let run = InputText { card: None, id: "card:"@ + token, text: Some(s.actions[token].command), ..input };
    let refreshed = State {
        actions: kept(rest, |k: Seq<char>, a: ActionText| a.source != source),
        views: s.views.remove(source),
        ..s
    };
    texts_mint_nothing(refreshed, run, Some(source), Some(source), now);
    texts_mint_nothing(State { actions: rest, ..s }, run, Some(source), None, now);
}

/// A job that carries a session chain on.
pub open spec fn continues_chain(job: JobText) -> bool {
    ||| job is ProposeDirectory
    ||| job is ChangeDirectory
    ||| job is CreateDirectory
    ||| job is PrepareCompact
    ||| job is Compact
    ||| job is ChangePreference
    ||| job is ChangeThread
}

/// The session-mutation gate is open, or the run goes on and a new job carries
/// the chain on or a compaction is under way.
pub open spec fn gate_accounted(before: State, after: Step) -> bool {
    !after.state.admissions.mutating || after.fault is None && {
        ||| after.state.spawned.len() == before.spawned.len() + 1 && continues_chain(after.state.spawned.last())
        ||| after.state.active matches Some(a) && a.is_compact()
    }
}

proof fn proposals_release_their_gate(
    s: State,
    user: Seq<char>,
    chat: Seq<char>,
    current: DirectoryText,
    target: Seq<char>,
    result: Result<Option<Directory>, SessionStoreError>,
    now: u64,
)
    ensures
        gate_accounted(s, after_directory_proposed(s, user, chat, current, target, result, now)),
{
    reveal(after_directory_proposed);
}

proof fn compactions_begin_or_release(s: State, input: InputText, session: SessionText, result: Result<bool, ()>, now: u64)
    ensures
        gate_accounted(s, after_compact_claim(s, input, session, result, now)),
{
    reveal(finished);
    reveal(after_compact_claim);
}

proof fn compactions_go_on_or_release(s: State, id: Seq<char>, result: Result<String, StartError>)
    requires
        compacts(s, id),
    ensures
        gate_accounted(s, after_compact_prepared(s, id, result)),
{
    reveal(finished);
    reveal(after_compact_prepared);
}

proof fn claims_release_their_gate(s: State, input: InputText, result: Result<bool, ()>, job: JobText, failure: Seq<char>)
    requires
        continues_chain(job),
    ensures
        gate_accounted(s, claim_decided(s, input, result, job, failure)),
{
    reveal(claim_decided);
}

proof fn directories_release_their_gate(s: State, done: SessionDone, now: u64)
    requires
        done is ArchiveSynced || done is DirectoryClaim || done is DirectoryCreated || done is DirectoryChanged || done is CreationClaim,
    ensures
        gate_accounted(s, after_session_done(s, done, now)),
{
    reveal(after_session_done);
    match done {
        SessionDone::DirectoryClaim { input, current, target, result } => {
            claims_release_their_gate(
                s,
                input@,
                result,
                JobText::ProposeDirectory { user: input@.user, chat: input@.chat, current: current@, target: target@ },
                "目录请求保存失败，未切换；请重新发送。"@,
            );
        },
        SessionDone::ArchiveSynced { .. } => {
            reveal(after_archive_synced);
        },
        SessionDone::CreationClaim { .. } => {
            reveal(after_creation_claim);
        },
        _ => {
            reveal(directory_settled);
        },
    }
}

proof fn settings_release_their_gate(s: State, done: SessionDone, now: u64)
    requires
        done is PreferenceClaim || done is PreferenceChanged || done is ThreadClaim || done is SessionChanged || done is Reset,
    ensures
        gate_accounted(s, after_session_done(s, done, now)),
{
    reveal(after_session_done);
    match done {
        SessionDone::PreferenceClaim { input, session, change, result } => {
            claims_release_their_gate(
                s,
                input@,
                result,
                JobText::ChangePreference { chat: input@.chat, session: session@, change: change@ },
                "设置请求保存失败，请重新发送。"@,
            );
        },
        SessionDone::ThreadClaim { input, session, thread, action, result } => {
            claims_release_their_gate(
                s,
                input@,
                result,
                JobText::ChangeThread { chat: input@.chat, session: session@, thread: thread@, action },
                "会话操作请求保存失败，未执行；请重新发送。"@,
            );
        },
        SessionDone::PreferenceChanged { .. } => {
            reveal(after_preference_changed);
        },
        SessionDone::SessionChanged { .. } => {
            reveal(after_session_changed);
        },
        _ => {
            reveal(after_reset);
        },
    }
}

proof fn others_release_their_gate(s: State, done: SessionDone, now: u64)
    requires
        done is DirectoryProposed || done is CompactClaim || done is CompactPrepared || done is CompactSubmitted,
        done matches SessionDone::CompactPrepared { id, .. } ==> compacts(s, id@),
        done matches SessionDone::CompactSubmitted { id, .. } ==> compacts(s, id@),
    ensures
        gate_accounted(s, after_session_done(s, done, now)),
{
    reveal(finished);
    reveal(after_session_done);
    match done {
        SessionDone::DirectoryProposed { user, chat, current, target, result } => {
            proposals_release_their_gate(s, user@, chat@, current@, target@, result, now);
        },
        SessionDone::CompactClaim { input, session, result } => {
            compactions_begin_or_release(s, input@, session@, result, now);
        },
        SessionDone::CompactPrepared { id, result } => {
            compactions_go_on_or_release(s, id@, result);
        },
        _ => {
            reveal(after_compact_submitted);
        },
    }
}

/// Whichever chain closed the session-mutation gate opens it at its end, the end
/// of the run included: after each completion of a chain its gate is open unless
/// the chain goes on.
pub proof fn chains_release_their_gate(s: State, done: SessionDone, now: u64)
    requires
        !(done is DirectoryListed),
        done matches SessionDone::CompactPrepared { id, .. } ==> compacts(s, id@),
        done matches SessionDone::CompactSubmitted { id, .. } ==> compacts(s, id@),
    ensures
        gate_accounted(s, after_session_done(s, done, now)),
{
    if done is DirectoryProposed || done is CompactClaim || done is CompactPrepared || done is CompactSubmitted {
        others_release_their_gate(s, done, now);
    } else if done is PreferenceClaim || done is PreferenceChanged || done is ThreadClaim || done is SessionChanged || done is Reset {
        settings_release_their_gate(s, done, now);
    } else {
        directories_release_their_gate(s, done, now);
    }
}

/// A decided plan opens its gate, whatever came of the decision.
pub proof fn plans_release_their_gate(s: State, input: InputText, task: Option<TaskText>, result: Result<bool, String>)
    ensures
        !after_plan_action(s, input, task, result).state.admissions.mutating,
{
    reveal(after_plan_action);
    let a = Admissions { mutating: false, ..s.admissions };
    if let Some(t) = task {
        admission_keeps_the_gate(reserved(a, input.id, t), a.next, true);
    }
}

/// A compaction that ends opens its gate, even when its user cannot be told.
pub proof fn compactions_release_their_gate(s: State, o: OutcomeView)
    requires
        s.active matches Some(a) && a.is_compact(),
    ensures
        !finished(begin(s), o).state.admissions.mutating,
        finished(begin(s), o).state.active is None,
{
    reveal(finished);
}

/// A compaction whose end is reported before the agent acknowledged it stays:
/// its gate stays closed and nobody is told. The acknowledgement then ends it
/// with what was reported.
pub proof fn early_compaction_end_waits(s: State, turn: crate::ports::TurnRef, outcome: TurnOutcome, now: u64)
    requires
        s.active matches Some(a) && (a.kind matches ActiveKindText::Compact { acknowledged: false, .. }),
        s.room > 0,
    ensures
        ({
            let a = s.active->Some_0;
            let o = turn_outcome(outcome, true);
            let parked = folded(begin(s), AgentEvent::Finished { turn, outcome }, now);
            let ended = after_compact_submitted(parked.state, a.spec.id, Ok(()));
            &&& parked.fault is None
            &&& parked.state.sent == s.sent
            &&& parked.state.admissions == s.admissions
            &&& parked.state.active matches Some(b) && b.is_compact() && b.compact_is_terminal()
            &&& ended.fault is None
            &&& ended.state.active is None
            &&& !ended.state.admissions.mutating
            &&& ended.state.sent == s.sent.push(
                crate::presentation::RequestText::Text(a.spec.chat, crate::outcome::outcome_label(o)),
            )
        }),
{
    reveal(folded);
    reveal(finished);
    reveal(after_compact_submitted);
}

/// However many user jobs are spawned, the control reserve stays free: as long
/// as only user spawns happen, a control job can still be spawned as often as
/// the reserve says.
pub proof fn user_jobs_leave_the_reserve(len: nat, control_jobs: nat)
    requires
        fits(len, false),
        control_jobs < limits::CONTROL_JOB_RESERVE,
    ensures
        fits(len + 1 + control_jobs, true),
{
}

/// What an execution has produced stays within its bounds.
pub open spec fn output_bounded(a: ActiveText) -> bool {
    &&& byte_count(a.output) <= limits::OUTPUT_BYTES
    &&& a.plan matches Some(p) ==> byte_count(p.0) <= limits::OUTPUT_BYTES
}

/// Events never grow an execution's output or plan beyond its bounds.
pub proof fn output_stays_bounded(s: State, event: AgentEvent, now: u64)
    requires
        s.active matches Some(a) && output_bounded(a),
    ensures
        folded(begin(s), event, now).state.active matches Some(a) ==> output_bounded(a),
{
    reveal(folded);
    reveal(finished);
    let a = s.active->Some_0;
    match event {
        AgentEvent::Plan { text, .. } => {
            fitting_fits(text@, limits::OUTPUT_BYTES as int);
        },
        AgentEvent::Output { delta, .. } => {
            let room = limits::OUTPUT_BYTES - byte_count(a.output) as int;
            fitting_fits(delta@, room);
            bytes_add(a.output, crate::runtime::flow::clipped(delta@, room));
        },
        _ => {},
    }
}

/// A stranger changes nothing: whoever is not allowed is told so, and nothing
/// but the reply and the receipt comes of it.
pub proof fn strangers_change_nothing(s: State, input: InputText, now: u64)
    requires
        !s.open_access,
        !s.allowed.contains(input.user),
    ensures
        ({
            let after = after_message(s, input, now).state;
            after == (State { room: after.room, sent: after.sent, receipts: after.receipts, ..s })
        }),
{
    reveal(after_message);
}

/// A command that ran is not run again under the same id: it is only
/// acknowledged.
pub proof fn repeated_commands_do_nothing(s: State, input: InputText, text: Seq<char>, job: JobText, now: u64)
    requires
        s.seen.contains(input.id),
    ensures
        shown(s, input, job) == begin(s).settle(input.ack, true),
        after_help(s, input, now) == begin(s).settle(input.ack, true),
        after_simple(s, input, text, now) == begin(s).settle(input.ack, true),
{
    reveal(after_help);
    reveal(after_simple);
}

/// The requests left after the walk over `tokens`, and the denials sent.
proof fn walk_denies(s: Step, tokens: Seq<Seq<char>>)
    requires
        s.fault is None,
        tokens.no_duplicates(),
        forall|i: int| 0 <= i < tokens.len() ==> s.state.interactions.contains_key(#[trigger] tokens[i]),
        expired_all(s, tokens).fault is None,
    ensures
        expired_all(s, tokens).state.interactions == s.state.interactions.remove_keys(tokens.to_set()),
        expired_all(s, tokens).state.spawned == s.state.spawned + tokens.map_values(
            |k: Seq<char>| JobText::Reply { pending: s.state.interactions[k], allow: false },
        ),
        expired_all(s, tokens).state.active == s.state.active,
        forall|i: int| 0 <= i < tokens.len() ==> !(s.state.interactions[#[trigger] tokens[i]].kind is Questions),
    decreases tokens.len(),
{
    let m = s.state.interactions;
    let f = |k: Seq<char>| JobText::Reply { pending: m[k], allow: false };
    if tokens.len() == 0 {
        assert(m.remove_keys(tokens.to_set()) =~= m);
        assert(s.state.spawned + tokens.map_values(f) =~= s.state.spawned);
    } else {
        let k = tokens[0];
        let rest = tokens.drop_first();
        let t = expired_one(s, k);
        if t.fault is Some {
            walk_stops(t, rest);
        }
        assert(t.state.interactions == m.remove(k));
        assert forall|i: int| 0 <= i < rest.len() implies t.state.interactions.contains_key(#[trigger] rest[i]) by {
            assert(rest[i] == tokens[i + 1]);
            assert(m.contains_key(tokens[i + 1]));
        }
        assert(rest.no_duplicates()) by {
            assert forall|i: int, j: int| 0 <= i < rest.len() && 0 <= j < rest.len() && i != j implies rest[i] != rest[j] by {
                assert(rest[i] == tokens[i + 1] && rest[j] == tokens[j + 1]);
            }
        }
        walk_denies(t, rest);
        let g = |k: Seq<char>| JobText::Reply { pending: t.state.interactions[k], allow: false };
        assert(rest.map_values(g) =~= rest.map_values(f)) by {
            assert forall|i: int| 0 <= i < rest.len() implies g(#[trigger] rest[i]) == f(rest[i]) by {
                assert(rest[i] == tokens[i + 1]);
                assert(rest[i] != k);
            }
        }
        assert(tokens.map_values(f) =~= seq![f(k)] + rest.map_values(f));
        assert(t.state.spawned == s.state.spawned.push(f(k)));
        assert(s.state.spawned + tokens.map_values(f) =~= t.state.spawned + rest.map_values(f));
        assert(m.remove(k).remove_keys(rest.to_set()) =~= m.remove_keys(tokens.to_set())) by {
            assert forall|x: Seq<char>| tokens.to_set().contains(x) <==> (x == k || rest.to_set().contains(x)) by {
                if tokens.contains(x) {
                    let i = choose|i: int| 0 <= i < tokens.len() && tokens[i] == x;
                    if i > 0 {
                        assert(rest[i - 1] == x);
                    }
                }
                if rest.contains(x) {
                    let i = choose|i: int| 0 <= i < rest.len() && rest[i] == x;
                    assert(tokens[i + 1] == x);
                }
                if x == k {
                    assert(tokens[0] == x);
                }
            }
        }
        assert forall|i: int| 0 <= i < tokens.len() implies !(m[#[trigger] tokens[i]].kind is Questions) by {
            if i > 0 {
                assert(tokens[i] == rest[i - 1]);
                assert(tokens[i] != k);
            }
        }
    }
}

proof fn walk_stops(s: Step, tokens: Seq<Seq<char>>)
    requires
        s.fault is Some,
    ensures
        expired_all(s, tokens) == s,
    decreases tokens.len(),
{
    if tokens.len() > 0 {
        walk_stops(expired_one(s, tokens[0]), tokens.drop_first());
    }
}

/// No request outlives its deadline or its turn: when the expiry does not stop
/// the run, every request that is due or dead was an approval and is denied,
/// once and in token order, and every request that is left is alive and in time.
pub proof fn stale_requests_are_denied(s: State, now: u64)
    requires
        s.interactions.dom().finite(),
        stale_expired(s, now).fault is None,
    ensures
        ({
            let after = stale_expired(s, now).state;
            let tokens = stale(s.interactions, now, |p: PendingText| alive(s.active, p));
            &&& forall|k: Seq<char>|
                #[trigger] after.interactions.contains_key(k) ==> now < after.interactions[k].deadline && alive(
                    s.active,
                    after.interactions[k],
                )
            &&& forall|i: int| 0 <= i < tokens.len() ==> s.interactions[#[trigger] tokens[i]].kind is Approval
            &&& after.spawned == s.spawned + tokens.map_values(
                |k: Seq<char>| JobText::Reply { pending: s.interactions[k], allow: false },
            )
        }),
{
    let m = s.interactions;
    let p = |q: PendingText| alive(s.active, q);
    let due = |k: Seq<char>| now >= m[k].deadline || !p(m[k]);
    let tokens = stale(m, now, p);
    order_exists(m.dom());
    order_selection(ordered(m.dom()), m.dom(), due);
    assert(tokens == ordered(m.dom()).filter(due));
    walk_denies(begin(s), tokens);
    let after = stale_expired(s, now).state;
    assert forall|k: Seq<char>| #[trigger] after.interactions.contains_key(k) implies now < after.interactions[k].deadline && alive(
        s.active,
        after.interactions[k],
    ) by {
        if due(k) {
            assert(tokens.contains(k));
        }
    }
}

proof fn expiry_keeps_tasks(s: Step, tokens: Seq<Seq<char>>)
    ensures
        expired_all(s, tokens).state.active == s.state.active,
        expired_all(s, tokens).state.admissions == s.state.admissions,
        expired_all(s, tokens).state.files == s.state.files,
    decreases tokens.len(),
{
    if tokens.len() > 0 {
        expiry_keeps_tasks(expired_one(s, tokens[0]), tokens.drop_first());
    }
}

proof fn cards_keep_tasks(s: State, tokens: Seq<Seq<char>>)
    ensures
        cards_dispatched(s, tokens).active == s.active,
        cards_dispatched(s, tokens).admissions == s.admissions,
        cards_dispatched(s, tokens).files == s.files,
    decreases tokens.len(),
{
    if tokens.len() > 0 && s.can_spawn(false) {
        if !s.interactions.contains_key(tokens[0]) {
            cards_keep_tasks(s, tokens.drop_first());
        } else if s.next_panel < u64::MAX {
            cards_keep_tasks(card_dispatched(s, tokens[0]), tokens.drop_first());
        }
    }
}

/// One execution at a time, in the order of admission: a round of maintenance
/// leaves the running execution as it is; where nothing runs, no session is
/// being changed and no files are being delivered, it may start the first
/// queued task, and only that.
pub proof fn tasks_run_one_at_a_time(s: State, now: u64)
    ensures
        ({
            let after = after_maintenance(s, now).state;
            ||| after.active == s.active && after.admissions.queue == s.admissions.queue
            ||| {
                &&& s.active is None
                &&& s.files is Idle
                &&& s.admissions.active is None
                &&& !s.admissions.mutating
                &&& s.admissions.queue.len() > 0
                &&& after.active == Some(new_task(s.admissions.queue[0], now))
                &&& after.admissions.active == Some(s.admissions.queue[0])
                &&& after.admissions.queue == s.admissions.queue.drop_first()
            }
        }),
{
    let t = tidied(archive_synced(s), now);
    let tokens = stale(t.interactions, now, |p: PendingText| alive(t.active, p));
    expiry_keeps_tasks(begin(t), tokens);
    let u = stale_expired(t, now).state;
    cards_keep_tasks(u, unsent(u.interactions, |p: PendingText| of_turn(u.active, p)));
}

/// A question that nobody answered in time stops the run; no answer is made up.
pub proof fn unanswered_questions_stop_the_run(s: State, token: Seq<char>)
    requires
        s.interactions.contains_key(token),
        s.interactions[token].kind is Questions,
    ensures
        expired_one(begin(s), token).fault is Some,
        expired_one(begin(s), token).state.spawned == s.spawned,
{
}

/// A run that ends denies every open request once and leaves no other work.
pub proof fn shutdown_denies_every_request(s: State, token: Seq<char>)
    requires
        s.interactions.dom().finite(),
        s.interactions.contains_key(token),
    ensures
        after_shutdown(s).spawned.contains(JobText::Reply { pending: s.interactions[token], allow: false }),
        after_shutdown(s).interactions == Map::<Seq<char>, PendingText>::empty(),
        after_shutdown(s).active is None,
{
    let keys = ordered(s.interactions.dom());
    order_exists(s.interactions.dom());
    assert(keys.contains(token));
    let i = choose|i: int| 0 <= i < keys.len() && keys[i] == token;
    assert(denials(s.interactions)[i] == (JobText::Reply { pending: s.interactions[token], allow: false }));
}

/// A result that nobody knows stops the run; nothing is retried.
pub proof fn uncertain_results_stop_the_run(s: State, id: Seq<char>, error: BackendError, outcome: ReplyOutcome, chat: Seq<char>, now: u64)
    requires
        outcome.submitted,
        outcome.result is Err,
    ensures
        runs(s, id) ==> after_turn_started(s, id, Err(error), now).fault is Some,
        compacts(s, id) && !(error is Rejected) ==> after_compact_submitted(s, id, Err(error)).fault is Some,
        after_control(s, Err(error)).fault is Some,
        after_replied(s, outcome).fault is Some,
        after_session_changed(s, chat, Err(StartError::Reconcile)).fault is Some,
        after_archive_synced(s, Err(SessionStoreError)).fault is Some,
{
    reveal(after_turn_started);
    reveal(after_compact_submitted);
    reveal(after_session_changed);
    reveal(after_archive_synced);
}

/// An input that was claimed before is not executed again: its chain ends, the
/// gate opens, and no job is started.
pub proof fn repeated_claims_start_nothing(s: State, input: InputText, job: JobText, failure: Seq<char>, session: SessionText, creation: CreationText, now: u64)
    ensures
        claim_decided(s, input, Ok(false), job, failure) == begin(s).release().settle(input.ack, true),
        after_compact_claim(s, input, session, Ok(false), now) == begin(s).release().settle(input.ack, true),
        after_creation_claim(s, input, creation, Ok(false), now) == begin(s).release().settle(input.ack, true),
        after_reset(s, input, Ok(false)) == begin(s).release().settle(input.ack, true),
{
    reveal(claim_decided);
    reveal(after_compact_claim);
    reveal(after_creation_claim);
    reveal(after_reset);
}

} // verus!
