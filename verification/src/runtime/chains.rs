//! What becomes of a change that a user asked for: once it is claimed it is
//! carried out as it was asked for, and the user is told how it went.
use vstd::prelude::*;
use vstd::string::*;
use crate::cards::{buttons_say_what_they_run, says_what_it_runs, ActionText};
use crate::directories::{listing, Creation, CreationText, DirectoryView};
use crate::model::{Directory, DirectoryText, SessionKey, TaskSpec, TaskText};
use crate::ports::BackendError;
use crate::presentation::RequestText;
use crate::runtime::decisions::taken;
use crate::runtime::done_session::{
    after_compact_claim, after_compact_prepared, after_compact_submitted, after_creation_claim, after_directory_proposed, after_preference_changed, after_reset,
    after_session_changed, after_session_done, claim_decided, creation_entries, creation_prompt, directory_settled,
};
use crate::runtime::done_task::{after_admission, after_plan_action, after_task_done};
use crate::runtime::effects::after_done;
use crate::runtime::flow::finished;
use crate::runtime::state::{ActiveKindText, Done, Input, InputText, JobText, SessionDone, State, Step, TaskDone};
use crate::runtime::tokens::{confirmation_text, panel_prefix_text};
use crate::scheduler::{decided_claims_queue_their_task, is_pending, AdmissionTicket, Admissions};
use crate::sessions::{PreferenceChange, SessionStoreError, StartError, ThreadAction};
use crate::text::{begins_with, texts};

verus! {

/// The state has room for one more job of a user once the one that ended is gone.
pub open spec fn room_after(s: State) -> bool {
    s.running > 0 && s.running - 1 + s.spawned.len() + 16 < 128
}

/// The chain goes on with one job, its input taken; nothing is said yet.
pub open spec fn goes_on(s: State, r: Step, input: InputText, job: JobText) -> bool {
    &&& r.fault is None
    &&& r.state.spawned == s.spawned.push(job)
    &&& r.state.admissions == s.admissions
    &&& r.state.sent == s.sent
    &&& r.state.receipts == taken(s.receipts, input.ack)
}

/// A chain whose input was claimed goes on with what the input asked for: the
/// same setting, thread, action or directory, for the same session and chat.
pub proof fn claimed_changes_go_on(
    s: State,
    input: Input,
    session: SessionKey,
    change: PreferenceChange,
    thread: String,
    action: ThreadAction,
    current: Directory,
    target: String,
    now: u64,
)
    requires
        room_after(s),
    ensures
        goes_on(
            s,
            after_done(s, Done::Session(SessionDone::PreferenceClaim { input, session, change, result: Ok(true) }), now),
            input@,
            JobText::ChangePreference { chat: input.chat@, session: session@, change: change@ },
        ),
        goes_on(
            s,
            after_done(s, Done::Session(SessionDone::ThreadClaim { input, session, thread, action, result: Ok(true) }), now),
            input@,
            JobText::ChangeThread { chat: input.chat@, session: session@, thread: thread@, action },
        ),
        goes_on(
            s,
            after_done(s, Done::Session(SessionDone::DirectoryClaim { input, current, target, result: Ok(true) }), now),
            input@,
            JobText::ProposeDirectory { user: input.user@, chat: input.chat@, current: current@, target: target@ },
        ),
{
    reveal(after_session_done);
    reveal(claim_decided);
}

/// A directory that exists is changed to; one that does not is offered to be
/// created.
pub proof fn existing_directories_are_changed_to(s: State, user: String, chat: String, current: Directory, target: String, now: u64)
    requires
        room_after(s),
    ensures
        ({
            let r = after_done(
                s,
                Done::Session(SessionDone::DirectoryProposed { user, chat, current, target, result: Ok(None) }),
                now,
            );
            &&& r.fault is None
            &&& r.state.spawned == s.spawned.push(
                JobText::ChangeDirectory { user: user@, chat: chat@, current: current@, target: target@ },
            )
            &&& r.state.sent == s.sent
            &&& r.state.admissions == s.admissions
            &&& r.state.directories == s.directories
        }),
{
    reveal(after_session_done);
    reveal(after_directory_proposed);
}

/// A directory that does not exist is created only after a confirmation, which
/// its user alone can give, in this chat and from the present directory, for ten
/// minutes. The card that asks for it names the path and confirms just that.
pub proof fn missing_directories_are_offered(
    s: State,
    user: String,
    chat: String,
    current: Directory,
    target: String,
    path: Directory,
    now: u64,
)
    requires
        room_after(s),
        s.next_confirmation < u64::MAX,
        s.next_panel < u64::MAX,
        s.confirmations.dom().finite(),
        s.confirmations =~= Map::empty(),
        now + 600_000_000_000 <= u64::MAX,
    ensures
        ({
            let r = after_done(
                s,
                Done::Session(SessionDone::DirectoryProposed { user, chat, current, target, result: Ok(Some(path)) }),
                now,
            );
            let token = confirmation_text(s.epoch, (s.next_confirmation + 1) as u64);
            let job = r.state.spawned.last();
            &&& r.fault is None
            &&& !r.state.admissions.mutating
            &&& r.state.directories == s.directories
            &&& r.state.confirmations == Map::<Seq<char>, CreationText>::empty().insert(
                token,
                CreationText {
                    user: user@,
                    chat: chat@,
                    current: current@,
                    input: target@,
                    target: path@,
                    deadline: (now + 600_000_000_000) as u64,
                },
            )
            &&& r.state.spawned.len() == s.spawned.len() + 1
            &&& r.state.spawned.drop_last() == s.spawned
            &&& job is SendPanel
            &&& job->owner.user == user@
            &&& job->owner.chat == chat@
            &&& job->owner.directory == current@
            &&& job->deadline == now + 600_000_000_000
            &&& begins_with(job->SendPanel_panel.body, "目录不存在："@ + path@.text)
            &&& says_what_it_runs(
                job->SendPanel_panel,
                job->SendPanel_commands,
                seq![("确认创建并切换"@, "/cd-confirm "@ + token)],
            )
        }),
{
    reveal(after_session_done);
    reveal(after_directory_proposed);
    let token = confirmation_text(s.epoch, (s.next_confirmation + 1) as u64);
    let t = crate::runtime::effects::job_ended(s);
    reveal_strlit("cd-");
    let rest = crate::directories::of_others(t.confirmations, user@);
    assert(rest =~= Map::empty());
    assert(rest.dom() =~= Set::empty());
    let prefix = panel_prefix_text(s.epoch, (s.next_panel + 1) as u64);
    buttons_say_what_they_run("创建目录确认"@, creation_prompt(path@.text, token), creation_entries(token), prefix);
    let r = after_done(
        s,
        Done::Session(SessionDone::DirectoryProposed { user, chat, current, target, result: Ok(Some(path)) }),
        now,
    );
    assert(r.state.spawned.drop_last() =~= s.spawned);
    let head = "目录不存在："@ + path@.text;
    assert(creation_prompt(path@.text, token).take(head.len() as int) =~= head);
}

/// A confirmation that was claimed in time creates what it stands for; one that
/// was claimed too late creates nothing.
pub proof fn claimed_confirmations_create(s: State, input: Input, creation: Creation, now: u64)
    requires
        room_after(s),
    ensures
        now < creation@.deadline ==> goes_on(
            s,
            after_done(s, Done::Session(SessionDone::CreationClaim { input, creation, result: Ok(true) }), now),
            input@,
            JobText::CreateDirectory { creation: creation@ },
        ),
        now >= creation@.deadline ==> after_done(
            s,
            Done::Session(SessionDone::CreationClaim { input, creation, result: Ok(true) }),
            now,
        ).state.spawned == s.spawned,
{
    reveal(after_session_done);
    reveal(after_creation_claim);
}

/// The user now works in `path`, and is told `text`. The user's own cards and
/// confirmations are void, nobody else's are, and nobody else's directory changed.
pub open spec fn moved(s: State, r: Step, user: Seq<char>, chat: Seq<char>, path: DirectoryText, text: Seq<char>) -> bool {
    &&& r.fault is None
    &&& r.state.directories == s.directories.insert(user, path)
    &&& r.state.sent == s.sent.push(RequestText::Text(chat, text))
    &&& r.state.spawned == s.spawned
    &&& !r.state.admissions.mutating
    &&& forall|k: Seq<char>| #[trigger] r.state.actions.contains_key(k) <==> s.actions.contains_key(k) && s.actions[k].user != user
    &&& forall|k: Seq<char>| #[trigger] r.state.actions.contains_key(k) ==> r.state.actions[k] == s.actions[k]
    &&& r.state.generations == s.generations.insert(user, (s.generation(user) + 1) as u64)
}

/// A directory that was created or changed to becomes the user's directory.
pub proof fn directories_become_the_users(s: State, user: String, chat: String, path: Directory, now: u64)
    requires
        s.room > 0,
        s.running > 0,
    ensures
        moved(
            s,
            after_done(s, Done::Session(SessionDone::DirectoryChanged { user, chat, result: Ok(path) }), now),
            user@,
            chat@,
            path@,
            "已切换目录："@ + path@.text + "\n后续消息使用此目录的会话、模型和 Plan 设置。"@,
        ),
        moved(
            s,
            after_done(s, Done::Session(SessionDone::DirectoryCreated { user, chat, result: Ok(path) }), now),
            user@,
            chat@,
            path@,
            "目录已创建并切换："@ + path@.text + ""@,
        ),
{
    reveal(after_session_done);
    reveal(directory_settled);
}

/// A directory that could not be changed to leaves everything as it was; the
/// session-mutation gate opens and the user is told.
pub proof fn failed_moves_change_nothing(s: State, user: String, chat: String, error: SessionStoreError, now: u64)
    requires
        s.room > 0,
        s.running > 0,
    ensures
        ({
            let r = after_done(s, Done::Session(SessionDone::DirectoryChanged { user, chat, result: Err(error) }), now);
            let c = after_done(s, Done::Session(SessionDone::DirectoryCreated { user, chat, result: Err(error) }), now);
            &&& r.state.directories == s.directories && c.state.directories == s.directories
            &&& r.state.actions == s.actions && c.state.actions == s.actions
            &&& r.state.generations == s.generations && c.state.generations == s.generations
            &&& r.state.spawned == s.spawned && c.state.spawned == s.spawned
            &&& !r.state.admissions.mutating && !c.state.admissions.mutating
            &&& r.state.sent.len() == s.sent.len() + 1 && r.state.sent.last() is Text && r.state.sent.last()->Text_0 == chat@
            &&& c.state.sent.len() == s.sent.len() + 1 && c.state.sent.last() is Text && c.state.sent.last()->Text_0 == chat@
            &&& begins_with(r.state.sent.last()->Text_1, "切换目录失败："@)
        }),
{
    reveal(after_session_done);
    reveal(directory_settled);
    reveal_strlit("切换目录失败：");
    reveal_strlit("切换目录失败：路径可能已变化或状态保存失败。当前目录未切换；请检查后重新发送 /cd <路径>。");
    let told = "切换目录失败：路径可能已变化或状态保存失败。当前目录未切换；请检查后重新发送 /cd <路径>。"@;
    assert(told.take("切换目录失败："@.len() as int) =~= "切换目录失败："@);
}

/// A session that is to be compacted is compacted: the compaction runs for the
/// session and chat that asked for it, and its thread is the one to compact.
pub proof fn claimed_compactions_run(s: State, input: Input, session: SessionKey, now: u64)
    requires
        room_after(s),
        s.next_task < u64::MAX,
        s.room > 0,
    ensures
        ({
            let r = after_done(s, Done::Session(SessionDone::CompactClaim { input, session, result: Ok(true) }), now);
            &&& r.fault is None
            &&& r.state.active matches Some(a) && a.kind is Compact && a.spec.session == session@ && a.spec.chat == input.chat@
                && !a.stopping && a.started == now && r.state.spawned == s.spawned.push(
                JobText::PrepareCompact { id: a.spec.id, session: session@ },
            )
            &&& r.state.receipts == taken(s.receipts, input@.ack)
        }),
{
    reveal(after_session_done);
    reveal(after_compact_claim);
}

/// The thread that a compaction found is the one it compacts.
pub proof fn prepared_compactions_are_submitted(s: State, id: String, thread: String, now: u64)
    requires
        room_after(s),
        s.active matches Some(a) && a.kind is Compact && a.spec.id == id@ && !a.stopping,
    ensures
        ({
            let r = after_done(s, Done::Session(SessionDone::CompactPrepared { id, result: Ok(thread) }), now);
            &&& r.fault is None
            &&& r.state.spawned == s.spawned.push(JobText::Compact { id: id@, thread: thread@ })
            &&& r.state.active matches Some(a) && (a.gate matches Some(g) && g.thread == thread@ && g.turn is None && !g.terminal)
        }),
{
    reveal(after_session_done);
    reveal(after_compact_prepared);
}

/// Users are told whether a setting was saved.
pub proof fn saved_settings_are_told(s: State, chat: String, error: StartError, now: u64)
    requires
        s.room > 0,
        s.running > 0,
    ensures
        ({
            let ok = after_done(s, Done::Session(SessionDone::PreferenceChanged { chat, result: Ok(()) }), now);
            let failed = after_done(s, Done::Session(SessionDone::PreferenceChanged { chat, result: Err(error) }), now);
            &&& ok.fault is None && failed.fault is None
            &&& !ok.state.admissions.mutating && !failed.state.admissions.mutating
            &&& ok.state.sent == s.sent.push(
                RequestText::Text(chat@, "设置已保存，后续任务生效。使用 /model 或 /plan 查看。"@),
            )
            &&& failed.state.sent.len() == s.sent.len() + 1
            &&& failed.state.sent.last() is Text
            &&& failed.state.sent.last()->Text_0 == chat@
            &&& begins_with(failed.state.sent.last()->Text_1, "设置失败："@)
        }),
{
    reveal(after_session_done);
    reveal(after_preference_changed);
    let told = "设置失败："@ + crate::sessions::start_sentence(error) + "；模型请从 /models 选择。不会自动重试，请检查后重新发送。"@;
    assert(told.take("设置失败："@.len() as int) =~= "设置失败："@);
}

/// Users are told what came of a thread that they acted on.
pub proof fn changed_threads_are_told(s: State, chat: String, text: String, now: u64)
    requires
        s.room > 0,
        s.running > 0,
    ensures
        ({
            let r = after_done(s, Done::Session(SessionDone::SessionChanged { chat, result: Ok(text) }), now);
            &&& r.fault is None
            &&& !r.state.admissions.mutating
            &&& r.state.sent == s.sent.push(RequestText::Text(chat@, text@))
            &&& r.state.spawned == s.spawned
        }),
{
    reveal(after_session_done);
    reveal(after_session_changed);
}

/// A session that was cleared for this input is told to be new; a repetition is
/// told nothing.
pub proof fn cleared_sessions_are_told(s: State, input: Input, now: u64)
    requires
        s.room > 0,
        s.running > 0,
    ensures
        ({
            let new = after_done(s, Done::Session(SessionDone::Reset { input, result: Ok(true) }), now);
            let again = after_done(s, Done::Session(SessionDone::Reset { input, result: Ok(false) }), now);
            &&& new.state.sent == s.sent.push(RequestText::Text(input.chat@, "已切换到新会话，下次提问时自动创建。"@))
            &&& again.state.sent == s.sent
            &&& new.state.receipts == taken(s.receipts, input@.ack)
            &&& again.state.receipts == taken(s.receipts, input@.ack)
            &&& !new.state.admissions.mutating && !again.state.admissions.mutating
            &&& new.state.spawned == s.spawned && again.state.spawned == s.spawned
        }),
{
    reveal(after_session_done);
    reveal(after_reset);
}

/// A task that was claimed waits for its turn, and its user is told; one that
/// was claimed before is dropped in silence.
pub proof fn claimed_tasks_wait(s: State, ticket: AdmissionTicket, input: Input, now: u64)
    requires
        s.room > 0,
        s.running > 0,
        s.admissions.wf(),
        s.admissions.pending.len() == 1,
        s.admissions.pending[0].id == ticket.id(),
    ensures
        ({
            let new = after_done(s, Done::Task(TaskDone::Admission { ticket, input, result: Ok(true) }), now);
            let again = after_done(s, Done::Task(TaskDone::Admission { ticket, input, result: Ok(false) }), now);
            &&& new.fault is None && again.fault is None
            &&& new.state.admissions.queue == s.admissions.queue.push(s.admissions.pending[0].task)
            &&& new.state.admissions.pending.len() == 0
            &&& again.state.admissions.queue == s.admissions.queue
            &&& again.state.admissions.pending.len() == 0
            &&& new.state.sent == s.sent.push(RequestText::Text(input.chat@, "请求已接收。"@))
            &&& again.state.sent == s.sent
            &&& new.state.receipts == taken(s.receipts, input@.ack)
            &&& again.state.receipts == taken(s.receipts, input@.ack)
        }),
{
    reveal(after_task_done);
    reveal(after_admission);
    assert(is_pending(s.admissions.pending, s.admissions.pending[0].id));
    decided_claims_queue_their_task(s.admissions);
}

/// A plan that was decided to be carried out waits as a task, and the user is
/// told that the planning mode is off; one that was kept leaves no task, and the
/// user is told that the planning mode stays.
pub proof fn decided_plans_wait(s: State, input: Input, task: TaskSpec, now: u64)
    requires
        s.room > 0,
        s.running > 0,
        s.admissions.wf(),
        s.admissions.pending.len() == 0,
        s.admissions.queue.len() < s.admissions.capacity,
        s.admissions.next < u64::MAX,
        input.id@.len() > 0,
    ensures
        ({
            let go = after_done(s, Done::Task(TaskDone::PlanAction { input, task: Some(task), result: Ok(true) }), now);
            let stay = after_done(s, Done::Task(TaskDone::PlanAction { input, task: None, result: Ok(true) }), now);
            &&& go.fault is None && stay.fault is None
            &&& go.state.admissions.queue == s.admissions.queue.push(task@)
            &&& stay.state.admissions.queue == s.admissions.queue
            &&& !go.state.admissions.mutating && !stay.state.admissions.mutating
            &&& go.state.sent == s.sent.push(RequestText::Text(input.chat@, "已关闭 Plan 模式，确认的计划已加入实施队列。"@))
            &&& stay.state.sent == s.sent.push(
                RequestText::Text(input.chat@, "保持 Plan 模式，可继续发送消息讨论或修改计划。"@),
            )
        }),
{
    reveal(after_task_done);
    reveal(after_plan_action);
    let a = Admissions { mutating: false, ..s.admissions };
    let r = crate::scheduler::reserved(a, input.id@, task@);
    assert(r.wf());
    assert(is_pending(r.pending, a.next)) by {
        assert(r.pending[0].id == a.next);
    }
    decided_claims_queue_their_task(r);
    crate::scheduler::admission_keeps_the_gate(r, a.next, true);
}

/// A user has one directory to confirm at a time: a new offer takes the place of
/// that user's earlier ones, and leaves those of others.
pub proof fn offers_replace_the_users_own(
    s: State,
    user: String,
    chat: String,
    current: Directory,
    target: String,
    path: Directory,
    now: u64,
    token: Seq<char>,
)
    requires
        s.confirmations.contains_key(token),
        token != confirmation_text(s.epoch, (s.next_confirmation + 1) as u64),
        s.next_confirmation < u64::MAX,
    ensures
        ({
            let left = after_done(
                s,
                Done::Session(SessionDone::DirectoryProposed { user, chat, current, target, result: Ok(Some(path)) }),
                now,
            ).state.confirmations;
            left.contains_key(token) <==> s.confirmations[token].user != user@
        }),
{
    reveal(after_session_done);
    reveal(after_directory_proposed);
}

/// Where a user is, and what is there, is told in the chat that asked.
pub proof fn directories_are_told(s: State, chat: String, v: DirectoryView, now: u64)
    requires
        s.room > 0,
        s.running > 0,
    ensures
        after_done(s, Done::Session(SessionDone::DirectoryListed { chat, result: Ok(v) }), now).state.sent == s.sent.push(
            RequestText::Text(chat@, listing(v.path.text@, texts(v.children@))),
        ),
{
    reveal(after_session_done);
}

/// A compaction that the agent took is told to run; one that it refused ends and
/// is told to be refused; one of which nobody knows stops the run. Its end, where
/// it was reported before, is told at once.
pub proof fn submitted_compactions_are_told(s: State, id: String, thread: Option<Seq<char>>, error: BackendError, now: u64)
    requires
        s.running > 0,
        s.room > 0,
        s.active matches Some(a) && a.spec.id == id@ && a.kind == (ActiveKindText::Compact {
            acknowledged: false,
            terminal: None,
            thread,
        }),
    ensures
        ({
            let a = s.active->Some_0;
            let ok = after_done(s, Done::Session(SessionDone::CompactSubmitted { id, result: Ok(()) }), now);
            let no = after_done(s, Done::Session(SessionDone::CompactSubmitted { id, result: Err(error) }), now);
            &&& ok.fault is None
            &&& ok.state.active matches Some(b) && (b.kind matches ActiveKindText::Compact { acknowledged, .. } && acknowledged)
            &&& ok.state.sent == s.sent.push(
                RequestText::Text(
                    a.spec.chat,
                    "已请求压缩上下文，正在等待完成；可发送 /status 或 /stop。"@,
                ),
            )
            &&& error is Rejected && a.turn is None ==> no.fault is None && no.state.active is None
                && !no.state.admissions.mutating && no.state.sent == s.sent.push(
                RequestText::Text(a.spec.chat, "压缩请求被拒绝；不会自动重试。"@),
            )
            &&& !(error is Rejected) ==> no.fault is Some
        }),
{
    reveal(after_session_done);
    reveal(after_compact_submitted);
    reveal(finished);
}

/// A thread operation of which nobody knows how it went stops the run; any other
/// failure is told and the run goes on.
pub proof fn uncertain_threads_stop_the_run(s: State, chat: String, error: StartError, now: u64)
    requires
        s.room > 0,
        s.running > 0,
    ensures
        ({
            let r = after_done(s, Done::Session(SessionDone::SessionChanged { chat, result: Err(error) }), now);
            &&& error is Reconcile <==> r.fault is Some
            &&& r.state.sent.len() == s.sent.len() + 1
            &&& r.state.sent.last() is Text
            &&& r.state.sent.last()->Text_0 == chat@
            &&& begins_with(r.state.sent.last()->Text_1, "会话操作失败："@)
            &&& !r.state.admissions.mutating
        }),
{
    reveal(after_session_done);
    reveal(after_session_changed);
    let told = "会话操作失败："@ + crate::sessions::start_sentence(error) + "。目标必须属于当前目录且处于空闲状态；不会自动重试。"@;
    assert(told.take("会话操作失败："@.len() as int) =~= "会话操作失败："@);
}

/// A plan's choice that was made before, or that could not be carried out, starts
/// no task; the user is told which.
pub proof fn failed_choices_start_nothing(s: State, input: Input, task: Option<TaskSpec>, error: String, now: u64)
    requires
        s.room > 0,
        s.running > 0,
    ensures
        ({
            let again = after_done(s, Done::Task(TaskDone::PlanAction { input, task, result: Ok(false) }), now);
            let failed = after_done(s, Done::Task(TaskDone::PlanAction { input, task, result: Err(error) }), now);
            &&& again.fault is None && failed.fault is None
            &&& again.state.admissions.queue == s.admissions.queue && failed.state.admissions.queue == s.admissions.queue
            &&& again.state.admissions.pending == s.admissions.pending && failed.state.admissions.pending == s.admissions.pending
            &&& !again.state.admissions.mutating && !failed.state.admissions.mutating
            &&& again.state.sent == s.sent.push(RequestText::Text(input.chat@, "此计划选择已处理，不会重复执行。"@))
            &&& failed.state.sent.len() == s.sent.len() + 1
            &&& failed.state.sent.last() is Text
            &&& begins_with(failed.state.sent.last()->Text_1, "计划选择处理失败："@ + error@)
        }),
{
    reveal(after_task_done);
    reveal(after_plan_action);
    let head = "计划选择处理失败："@ + error@;
    let told = head
        + "。未启动实施，设置可能已部分保存；请检查 /plan 和当前会话后重新生成计划，不会自动重试。"@;
    assert(told.take(head.len() as int) =~= head);
}

/// A task whose claim could not be saved is not started: its ticket is given up,
/// the input is rejected and the user is told.
pub proof fn unsaved_claims_start_nothing(s: State, ticket: AdmissionTicket, input: Input, now: u64)
    requires
        s.room > 0,
        s.running > 0,
        s.admissions.pending.len() == 1,
        s.admissions.pending[0].id == ticket.id(),
    ensures
        ({
            let r = after_done(s, Done::Task(TaskDone::Admission { ticket, input, result: Err(()) }), now);
            &&& r.fault is None
            &&& r.state.admissions.queue == s.admissions.queue
            &&& r.state.admissions.pending.len() == 0
            &&& r.state.sent == s.sent.push(RequestText::Text(input.chat@, "接收状态保存失败，未启动任务。"@))
            &&& input@.ack matches Some(receipt) ==> r.state.receipts == s.receipts.push((receipt, false))
        }),
{
    reveal(after_task_done);
    reveal(after_admission);
    reveal_with_fuel(Seq::filter, 2);
    let p = s.admissions.pending;
    assert(p.drop_last() =~= Seq::empty());
    assert(p.last() == p[0]);
    let others = |r: crate::scheduler::Reservation| r.id != ticket.id();
    assert(p.filter(others) =~= Seq::empty());
}

} // verus!
