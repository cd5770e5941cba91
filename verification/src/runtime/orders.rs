//! What users' messages come to: which job a command starts, for which session,
//! and how a message becomes a task.
use vstd::prelude::*;
use vstd::string::*;
use crate::cards::{buttons_say_what_they_run, help_body, help_entries, says_what_it_runs};
use crate::command::{
    command_of, commands_begin_with_a_slash, decisions_are_read, directories_are_read, other_words_are_no_commands,
    preference_commands_are_read, thread_commands_are_read,
};
use crate::files::Attachment;
use crate::model::{same_session, SessionText, TaskText};
use crate::ports::TurnRef;
use crate::presentation::RequestText;
use crate::runtime::changes::{
    after_compact_request, after_confirmation, after_directory_change, after_preferences, after_reset_request, after_threads,
};
use crate::runtime::control::{after_help, after_simple, after_task_request, seconds_since, status_text};
use crate::runtime::decisions::{begins_otherwise, idle, not_pairing, says, taken, working_directory};
use crate::runtime::input::{after_command, after_input, after_message, after_paired, after_session_command, after_text, described, harmless, inside};
use crate::runtime::state::{ActiveText, InputText, JobText, PreferenceQuery, State, Step};
use crate::scheduler::{
    can_reserve, cancellation_keeps_the_work_of_others, cancellation_leaves_no_work, cancelled, drained, Admissions,
};
use crate::runtime::tokens::panel_prefix_text;
use crate::sessions::{thread_id_ok, ChangeText, SessionStoreError, ThreadAction};
use crate::text::{byte_count, bytes_per_char, decimal, has_control, is_space, trimmed_of_trimmed};
use crate::words::{is_word, two_words, words};

verus! {

/// The session that a user works in.
pub open spec fn own_session(s: State, user: Seq<char>) -> SessionText {
    SessionText { user, workspace: working_directory(s, user) }
}

/// One job took the input over, with its receipt open, and sessions are closed
/// to other changes; nothing else was started or said.
pub open spec fn taken_over(s: State, r: Step, job: JobText) -> bool {
    &&& r.fault is None
    &&& r.state.spawned == s.spawned.push(job)
    &&& r.state.admissions == (Admissions { mutating: true, ..s.admissions })
    &&& r.state.sent == s.sent
    &&& r.state.receipts == s.receipts
}

/// One job was started for the input, which is settled; sessions stay open.
pub open spec fn looked_up(s: State, r: Step, input: InputText, job: JobText) -> bool {
    &&& r.fault is None
    &&& r.state.spawned == s.spawned.push(job)
    &&& r.state.admissions == s.admissions
    &&& r.state.sent == s.sent
    &&& r.state.receipts == taken(s.receipts, input.ack)
}

/// The text is none of the answers that are looked for first.
pub open spec fn ordinary(text: Seq<char>) -> bool {
    &&& text.len() > 0
    &&& {
        ||| text[0] != '/'
        ||| text.len() == 1
        ||| text[1] != 'p' && text[1] != 'a' && text[1] != 'c'
        ||| text[1] == 'p' && (text.len() <= 5 || text[5] != '-')
        ||| text[1] == 'a' && text.len() > 2 && text[2] != 'n'
        ||| text[1] == 'c' && text.len() > 2 && text[2] != 'h'
    }
}

proof fn ordinary_texts_are_commands(s: State, input: InputText, text: Seq<char>, now: u64)
    requires
        says(s, input, text),
        ordinary(text),
        s.files !is Delivering || harmless(text),
        words(text)[0] != "/pair"@,
    ensures
        after_input(s, input, now).0 == after_command(s, input, text, None, None, now),
        after_input(s, input, now).1 is None,
{
    reveal_strlit("/plan-action ");
    reveal_strlit("/answer ");
    reveal_strlit("/answer-skip ");
    reveal_strlit("/choice ");
    let plan = if text[0] != '/' {
        0int
    } else if text.len() > 1 && text[1] == 'p' {
        5
    } else {
        1
    };
    let answer = if text[0] != '/' {
        0int
    } else if text.len() > 1 && text[1] == 'a' {
        2
    } else {
        1
    };
    let choice = if text[0] != '/' {
        0int
    } else if text.len() > 1 && text[1] == 'c' {
        2
    } else {
        1
    };
    begins_otherwise(text, "/plan-action "@, plan);
    begins_otherwise(text, "/answer "@, answer);
    begins_otherwise(text, "/answer-skip "@, answer);
    begins_otherwise(text, "/choice "@, choice);
    trimmed_of_trimmed(text);
    reveal(after_message);
    reveal(after_text);
}

proof fn never_pairs(text: Seq<char>)
    requires
        command_of(text) is Some,
    ensures
        words(text)[0] != "/pair"@,
{
    not_pairing(text);
}

/// `/plan on` asks to turn the planning mode on, `/plan off` to turn it off,
/// `/model` with a name asks for that model and with `default` for none, each
/// for the session that the user works in.
pub proof fn settings_are_changed_as_asked(s: State, input: InputText, m: Seq<char>, now: u64)
    requires
        idle(s),
        is_word(m),
        inside(working_directory(s, input.user), s.root),
    ensures
        says(s, input, "/plan on"@) ==> taken_over(
            s,
            after_input(s, input, now).0,
            JobText::ClaimPreference { input, session: own_session(s, input.user), change: ChangeText::Plan(true) },
        ),
        says(s, input, "/plan off"@) ==> taken_over(
            s,
            after_input(s, input, now).0,
            JobText::ClaimPreference { input, session: own_session(s, input.user), change: ChangeText::Plan(false) },
        ),
        says(s, input, "/model "@ + m) && m != "default"@ ==> taken_over(
            s,
            after_input(s, input, now).0,
            JobText::ClaimPreference { input, session: own_session(s, input.user), change: ChangeText::Model(Some(m)) },
        ),
        says(s, input, "/model "@ + m) && m == "default"@ ==> taken_over(
            s,
            after_input(s, input, now).0,
            JobText::ClaimPreference { input, session: own_session(s, input.user), change: ChangeText::Model(None) },
        ),
{
    reveal_strlit("/plan on");
    reveal_strlit("/plan off");
    reveal_strlit("/model ");
    reveal_strlit("/compact");
    reveal_strlit("/help");
    preference_commands_are_read(m);
    let text = input.text->Some_0;
    if says(s, input, "/plan on"@) || says(s, input, "/plan off"@) || says(s, input, "/model "@ + m) {
        assert(("/model "@ + m)[1] == 'm');
        assert("/compact"@[1] == 'c' && "/help"@[1] == 'h');
        never_pairs(text);
        ordinary_texts_are_commands(s, input, text, now);
        reveal(after_command);
        reveal(after_session_command);
        reveal(after_preferences);
    }
}

/// `/resume`, `/archive` and `/unarchive` with a thread's id ask for just that
/// to be done to that thread, in the session that the user works in.
pub proof fn threads_are_changed_as_asked(s: State, input: InputText, id: Seq<char>, now: u64)
    requires
        idle(s),
        is_word(id),
        thread_id_ok(id),
        inside(working_directory(s, input.user), s.root),
    ensures
        says(s, input, "/resume "@ + id) ==> taken_over(
            s,
            after_input(s, input, now).0,
            JobText::ClaimThread { input, session: own_session(s, input.user), thread: id, action: ThreadAction::Resume },
        ),
        says(s, input, "/archive "@ + id) ==> taken_over(
            s,
            after_input(s, input, now).0,
            JobText::ClaimThread { input, session: own_session(s, input.user), thread: id, action: ThreadAction::Archive },
        ),
        says(s, input, "/unarchive "@ + id) ==> taken_over(
            s,
            after_input(s, input, now).0,
            JobText::ClaimThread { input, session: own_session(s, input.user), thread: id, action: ThreadAction::Unarchive },
        ),
{
    reveal_strlit("/resume ");
    reveal_strlit("/archive ");
    reveal_strlit("/unarchive ");
    reveal_strlit("/compact");
    reveal_strlit("/help");
    thread_commands_are_read(id);
    let text = input.text->Some_0;
    if says(s, input, "/resume "@ + id) || says(s, input, "/archive "@ + id) || says(s, input, "/unarchive "@ + id) {
        assert(("/resume "@ + id)[1] == 'r');
        assert(("/archive "@ + id)[1] == 'a' && ("/archive "@ + id)[2] == 'r');
        assert(("/unarchive "@ + id)[1] == 'u');
        assert("/compact"@[1] == 'c' && "/help"@[1] == 'h');
        never_pairs(text);
        ordinary_texts_are_commands(s, input, text, now);
        reveal(after_command);
        reveal(after_session_command);
        reveal(after_threads);
    }
}

/// `/new` asks to clear the session that the user works in, and `/compact` to
/// compact it.
pub proof fn sessions_are_changed_as_asked(s: State, input: InputText, now: u64)
    requires
        idle(s),
        inside(working_directory(s, input.user), s.root),
    ensures
        says(s, input, "/new"@) ==> taken_over(
            s,
            after_input(s, input, now).0,
            JobText::Reset { input, session: own_session(s, input.user) },
        ),
        says(s, input, "/compact"@) ==> taken_over(
            s,
            after_input(s, input, now).0,
            JobText::ClaimCompact { input, session: own_session(s, input.user) },
        ),
{
    reveal_strlit("/new");
    reveal_strlit("/compact");
    reveal_strlit("/help");
    reveal_strlit("/pair");
    reveal_strlit("/cd");
    reveal_strlit("/models");
    reveal_strlit("/model");
    reveal_strlit("/plan");
    reveal_strlit("/resume");
    reveal_strlit("/archived");
    assert("/new"@.len() == 4 && "/compact"@.len() == 8 && "/cd"@.len() == 3 && "/models"@.len() == 7 && "/model"@.len() == 6);
    assert("/plan"@.len() == 5 && "/resume"@.len() == 7 && "/archived"@.len() == 9);
    other_words_are_no_commands("/new"@);
    other_words_are_no_commands("/compact"@);
    let text = input.text->Some_0;
    if says(s, input, "/new"@) || says(s, input, "/compact"@) {
        assert("/help"@.len() == 5 && "/pair"@.len() == 5 && "/new"@.len() == 4 && "/compact"@.len() == 8);
        ordinary_texts_are_commands(s, input, text, now);
        reveal(after_command);
        reveal(after_session_command);
        reveal(after_reset_request);
        reveal(after_compact_request);
    }
}

/// `/cd` with a path asks for that path, from where the user is; without one it
/// shows where the user is.
pub proof fn directories_are_changed_as_asked(s: State, input: InputText, path: Seq<char>, now: u64)
    requires
        idle(s),
        path.len() > 0,
        !is_space(path[0]),
        !is_space(path.last()),
        byte_count(path) <= 4096,
        !has_control(path),
        !s.seen.contains(input.id),
    ensures
        says(s, input, "/cd "@ + path) ==> taken_over(
            s,
            after_input(s, input, now).0,
            JobText::ClaimDirectory { input, current: working_directory(s, input.user), target: path },
        ),
        says(s, input, "/cd"@) ==> looked_up(
            s,
            after_input(s, input, now).0,
            input,
            JobText::InspectDirectory { chat: input.chat, current: working_directory(s, input.user) },
        ),
{
    reveal_strlit("/cd");
    reveal_strlit("/cd ");
    directories_are_read(path);
    let text = input.text->Some_0;
    if says(s, input, "/cd "@ + path) || says(s, input, "/cd"@) {
        assert(("/cd "@ + path)[1] == 'c' && ("/cd "@ + path)[2] == 'd');
        never_pairs(text);
        ordinary_texts_are_commands(s, input, text, now);
        reveal(after_command);
        reveal(after_directory_change);
    }
}

/// Confirming creates the directory that was asked for: the one that the
/// confirmation of this token, user, chat and directory stands for. The
/// confirmation is used up.
pub proof fn confirmed_directories_are_created(s: State, input: InputText, token: Seq<char>, now: u64)
    requires
        idle(s),
        is_word(token),
        s.confirmations.contains_key(token),
        s.confirmations[token].user == input.user,
        s.confirmations[token].chat == input.chat,
        s.confirmations[token].current.path == working_directory(s, input.user).path,
        now < s.confirmations[token].deadline,
        says(s, input, "/cd-confirm "@ + token),
    ensures
        taken_over(
            s,
            after_input(s, input, now).0,
            JobText::ClaimCreation { input, creation: s.confirmations[token] },
        ),
        after_input(s, input, now).0.state.confirmations == s.confirmations.remove(token),
{
    reveal_strlit("/cd-confirm ");
    decisions_are_read(token);
    let text = input.text->Some_0;
    assert(("/cd-confirm "@ + token)[1] == 'c' && ("/cd-confirm "@ + token)[2] == 'd');
    never_pairs(text);
    ordinary_texts_are_commands(s, input, text, now);
    reveal(after_command);
    reveal(after_confirmation);
}

/// Lists and settings are shown on demand: each command asks for its own, for the
/// session that the user works in, and the answer goes to the user's chat.
pub proof fn lists_are_shown_as_asked(s: State, input: InputText, now: u64)
    requires
        s.running + s.spawned.len() + 16 < 128,
        inside(working_directory(s, input.user), s.root),
        !s.seen.contains(input.id),
    ensures
        ({
            let session = own_session(s, input.user);
            let generation = s.generation(input.user);
            let snapshot = s.card_snapshot();
            let r = after_input(s, input, now).0;
            let chat = input.chat;
            &&& says(s, input, "/models"@) ==> looked_up(
                s,
                r,
                input,
                JobText::ShowPreferences { what: PreferenceQuery::Models, refresh: None, chat, session, generation, snapshot },
            )
            &&& says(s, input, "/model"@) ==> looked_up(
                s,
                r,
                input,
                JobText::ShowPreferences { what: PreferenceQuery::Model, refresh: None, chat, session, generation, snapshot },
            )
            &&& says(s, input, "/plan"@) ==> looked_up(
                s,
                r,
                input,
                JobText::ShowPreferences { what: PreferenceQuery::Plan, refresh: None, chat, session, generation, snapshot },
            )
            &&& says(s, input, "/resume"@) ==> looked_up(
                s,
                r,
                input,
                JobText::ListThreads { archived: false, refresh: None, chat, session, generation, snapshot },
            )
            &&& says(s, input, "/archived"@) ==> looked_up(
                s,
                r,
                input,
                JobText::ListThreads { archived: true, refresh: None, chat, session, generation, snapshot },
            )
        }),
{
    reveal_strlit("/models");
    reveal_strlit("/model");
    reveal_strlit("/plan");
    reveal_strlit("/resume");
    reveal_strlit("/archived");
    reveal_strlit("/compact");
    reveal_strlit("/help");
    assert(is_word("/models"@));
    preference_commands_are_read("/models"@);
    thread_commands_are_read("/models"@);
    let text = input.text->Some_0;
    if says(s, input, "/models"@) || says(s, input, "/model"@) || says(s, input, "/plan"@) || says(s, input, "/resume"@) || says(
        s,
        input,
        "/archived"@,
    ) {
        assert("/compact"@[1] == 'c' && "/help"@[1] == 'h' && "/models"@[1] == 'm' && "/model"@[1] == 'm' && "/plan"@[1] == 'p');
        assert("/resume"@[1] == 'r' && "/archived"@[1] == 'a' && "/archived"@[2] == 'r');
        never_pairs(text);
        ordinary_texts_are_commands(s, input, text, now);
        reveal(after_command);
        reveal(after_session_command);
        reveal(after_preferences);
        reveal(after_threads);
    }
}

/// A message that is no command becomes a task: it is reserved under the next
/// ticket, with the message's text as its prompt, in the session that the user
/// works in and for the chat it came from, and its claim is put to the store.
pub proof fn messages_become_tasks(s: State, input: InputText, text: Seq<char>, now: u64)
    requires
        says(s, input, text),
        text[0] != '/',
        byte_count(text) <= 32768,
        inside(working_directory(s, input.user), s.root),
        !s.admissions.mutating,
        forall|i: int| 0 <= i < s.admissions.pending.len() ==> (#[trigger] s.admissions.pending[i]).message != input.id,
        s.admissions.queue.len() + s.admissions.pending.len() < s.admissions.capacity,
        s.admissions.next < u64::MAX,
        s.next_task < u64::MAX,
        s.running + s.spawned.len() + 16 < 128,
    ensures
        ({
            let r = after_input(s, input, now).0;
            let p = r.state.admissions.pending;
            &&& r.fault is None
            &&& r.state.spawned == s.spawned.push(JobText::ClaimTask { ticket: s.admissions.next, input })
            &&& p.len() == s.admissions.pending.len() + 1
            &&& p.drop_last() == s.admissions.pending
            &&& p.last().id == s.admissions.next
            &&& p.last().message == input.id
            &&& p.last().task.prompt == text
            &&& p.last().task.session == own_session(s, input.user)
            &&& p.last().task.chat == input.chat
            &&& p.last().ready is None
            &&& r.state.admissions.queue == s.admissions.queue
            &&& r.state.sent == s.sent
            &&& r.state.receipts == s.receipts
            &&& r.state.plan_offer == s.plan_offer
            &&& r.state.resources == s.resources
        }),
{
    commands_begin_with_a_slash(text);
    reveal_strlit("/pair");
    reveal_strlit("/");
    reveal_strlit("/compact");
    reveal_strlit("/help");
    reveal_strlit("/new");
    reveal_strlit("/status");
    reveal_strlit("/stop");
    begins_otherwise(text, "/"@, 0);
    message_routed(s, input, text, now);
    reveal(after_command);
    reveal(after_session_command);
    reveal(after_task_request);
    let r = after_input(s, input, now).0;
    assert(r.state.admissions.pending.drop_last() =~= s.admissions.pending);
    assert(Seq::<Attachment>::empty() =~= input.attachments);
}

proof fn message_routed(s: State, input: InputText, text: Seq<char>, now: u64)
    requires
        says(s, input, text),
        text[0] != '/',
        words(text)[0] != "/pair"@,
    ensures
        after_input(s, input, now).0 == after_command(s, input, text, None, None, now),
{
    reveal_strlit("/plan-action ");
    reveal_strlit("/answer ");
    reveal_strlit("/answer-skip ");
    reveal_strlit("/choice ");
    reveal_strlit("/");
    begins_otherwise(text, "/plan-action "@, 0);
    begins_otherwise(text, "/answer "@, 0);
    begins_otherwise(text, "/answer-skip "@, 0);
    begins_otherwise(text, "/choice "@, 0);
    begins_otherwise(text, "/"@, 0);
    trimmed_of_trimmed(text);
    reveal(after_message);
    reveal(after_text);
}

/// How much waits, and where the user works.
pub open spec fn waiting_line(s: State, user: Seq<char>) -> Seq<char> {
    "\n当前目录："@ + working_directory(s, user).text + "\n等待："@ + decimal(s.admissions.queue.len()) + "，保存中："@ + decimal(
        s.admissions.pending.len(),
    )
}

/// What the running execution is, and for how many whole seconds.
pub open spec fn running_line(compact: bool, stopping: bool, elapsed: nat) -> Seq<char> {
    (if compact {
        "上下文压缩中"@
    } else {
        "运行中"@
    }) + "，已用 "@ + decimal(elapsed) + " 秒"@ + (if stopping {
        "，正在停止"@
    } else {
        ""@
    })
}

/// The status names what is going on, where the user works and what waits.
pub proof fn status_names_what_runs(s: State, user: Seq<char>, now: u64)
    ensures
        s.active is None ==> status_text(s, user, now) == "Rust 桥接服务："@ + "空闲"@ + waiting_line(s, user),
        s.active matches Some(a) ==> {
            &&& now <= a.started ==> status_text(s, user, now) == "Rust 桥接服务："@ + running_line(a.kind is Compact, a.stopping, 0)
                + waiting_line(s, user)
            &&& now > a.started ==> status_text(s, user, now) == "Rust 桥接服务："@ + running_line(
                a.kind is Compact,
                a.stopping,
                ((now - a.started) / 1_000_000_000) as nat,
            ) + waiting_line(s, user)
        },
{
    let told = status_text(s, user, now);
    match s.active {
        None => {
            assert(told =~= "Rust 桥接服务："@ + "空闲"@ + waiting_line(s, user));
        },
        Some(a) => {
            let elapsed = seconds_since(a.started, now);
            assert(told =~= "Rust 桥接服务："@ + running_line(a.kind is Compact, a.stopping, elapsed) + waiting_line(s, user));
        },
    }
}

/// `/status` tells the user the status, and changes nothing.
pub proof fn status_is_told(s: State, input: InputText, now: u64)
    requires
        says(s, input, "/status"@),
        !s.seen.contains(input.id),
        s.room > 0,
    ensures
        ({
            let r = after_input(s, input, now).0;
            &&& r.fault is None
            &&& r.state.sent == s.sent.push(RequestText::Text(input.chat, status_text(s, input.user, now)))
            &&& r.state.spawned == s.spawned
            &&& r.state.active == s.active
            &&& r.state.admissions == s.admissions
            &&& r.state.plan_offer == s.plan_offer
            &&& r.state.receipts == taken(s.receipts, input.ack)
        }),
{
    reveal_strlit("/status");
    reveal_strlit("/stop");
    assert("/status"@.len() == 7 && "/stop"@.len() == 5);
    control_routed(s, input, "/status"@, now);
    reveal(after_simple);
}

proof fn control_routed(s: State, input: InputText, text: Seq<char>, now: u64)
    requires
        text == "/status"@ || text == "/stop"@,
        says(s, input, text),
    ensures
        after_input(s, input, now).0 == after_simple(
            if text == "/stop"@ {
                State { plan_offer: None, ..s }
            } else {
                s
            },
            input,
            text,
            now,
        ),
{
    reveal_strlit("/status");
    reveal_strlit("/stop");
    reveal_strlit("/help");
    reveal_strlit("/new");
    reveal_strlit("/pair");
    reveal_strlit("/compact");
    reveal_strlit("/cd");
    reveal_strlit("/models");
    reveal_strlit("/model");
    reveal_strlit("/plan");
    reveal_strlit("/resume");
    reveal_strlit("/archived");
    reveal_strlit("/");
    reveal_strlit("/plan-action ");
    reveal_strlit("/answer ");
    reveal_strlit("/answer-skip ");
    reveal_strlit("/choice ");
    assert(text[1] == 's');
    assert("/help"@[1] == 'h' && "/new"@[1] == 'n' && "/pair"@[1] == 'p' && "/compact"@[1] == 'c' && "/cd"@[1] == 'c');
    assert("/models"@[1] == 'm' && "/model"@[1] == 'm' && "/plan"@[1] == 'p' && "/resume"@[1] == 'r' && "/archived"@[1] == 'a');
    other_words_are_no_commands(text);
    assert(text.take(1) =~= "/"@);
    begins_otherwise(text, "/plan-action "@, 1);
    begins_otherwise(text, "/answer "@, 1);
    begins_otherwise(text, "/answer-skip "@, 1);
    begins_otherwise(text, "/choice "@, 1);
    trimmed_of_trimmed(text);
    assert("/status"@.len() == 7 && "/stop"@.len() == 5);
    reveal(after_message);
    reveal(after_text);
    reveal(after_command);
    reveal(after_session_command);
}

/// The task belongs to the user's session.
pub open spec fn own_task(t: TaskText, s: State, user: Seq<char>) -> bool {
    t.session.user == user && t.session.workspace.path == working_directory(s, user).path
}

/// `/stop` asks the running turn to stop where it is of the user's own session
/// and chat: the execution is marked and its turn is interrupted, once.
pub proof fn own_work_is_stopped(s: State, input: InputText, a: ActiveText, turn: TurnRef, now: u64)
    requires
        says(s, input, "/stop"@),
        !s.seen.contains(input.id),
        s.room > 0,
        s.active == Some(a),
        own_task(a.spec, s, input.user),
        a.spec.chat == input.chat,
        a.kind is Task,
        !a.stopping,
        a.turn == Some(turn),
        s.running + s.spawned.len() < 128,
    ensures
        ({
            let r = after_input(s, input, now).0;
            let left = r.state.admissions.queue.len() + r.state.admissions.pending.len();
            &&& r.fault is None
            &&& r.state.active == Some(ActiveText { stopping: true, ..a })
            &&& r.state.spawned == s.spawned.push(JobText::Interrupt { turn })
            &&& r.state.sent == s.sent.push(
                RequestText::Text(
                    input.chat,
                    "已取消 "@ + decimal((s.admissions.queue.len() + s.admissions.pending.len() - left) as nat)
                        + " 项等待请求；"@ + "已请求停止当前任务"@,
                ),
            )
            &&& r.state.receipts == taken(s.receipts, input.ack)
        }),
{
    control_routed(s, input, "/stop"@, now);
    reveal(after_simple);
    reveal_strlit("/stop");
    reveal_strlit("/status");
    assert("/status"@.len() == 7 && "/stop"@.len() == 5);
}

/// `/stop` leaves an execution that is not the user's, or of another chat,
/// alone, and interrupts nothing that is already being stopped.
pub proof fn foreign_work_is_not_stopped(s: State, input: InputText, now: u64)
    requires
        says(s, input, "/stop"@),
        s.active matches Some(a) ==> !own_task(a.spec, s, input.user) || a.spec.chat != input.chat || a.stopping,
    ensures
        after_input(s, input, now).0.state.active == s.active,
        after_input(s, input, now).0.state.spawned == s.spawned,
{
    control_routed(s, input, "/stop"@, now);
    reveal(after_simple);
    reveal_strlit("/stop");
    reveal_strlit("/status");
    assert("/status"@.len() == 7 && "/stop"@.len() == 5);
}

/// `/stop` cancels what waits of the user's session, and nothing of others.
pub proof fn own_waiting_work_is_cancelled(s: State, input: InputText, now: u64)
    requires
        says(s, input, "/stop"@),
        !s.seen.contains(input.id),
    ensures
        ({
            let r = after_input(s, input, now).0.state.admissions;
            let others = s.admissions.queue.filter(|t: TaskText| !own_task(t, s, input.user));
            &&& forall|i: int| 0 <= i < r.queue.len() ==> !own_task(#[trigger] r.queue[i], s, input.user)
            &&& forall|i: int| 0 <= i < r.pending.len() ==> !own_task((#[trigger] r.pending[i]).task, s, input.user)
            &&& others.len() <= r.queue.len()
            &&& r.queue.take(others.len() as int) == others
            &&& r.active == s.admissions.active
        }),
{
    control_routed(s, input, "/stop"@, now);
    reveal(after_simple);
    reveal_strlit("/stop");
    reveal_strlit("/status");
    assert("/status"@.len() == 7 && "/stop"@.len() == 5);
    let session = own_session(s, input.user);
    cancellation_leaves_no_work(s.admissions, session);
    let k = cancellation_keeps_the_work_of_others(s.admissions, session);
    let r = after_input(s, input, now).0.state.admissions;
    assert(r == drained(cancelled(s.admissions, session)));
    let p = |t: TaskText| !(t.session.user == session.user && t.session.workspace.path == session.workspace.path);
    let q = |t: TaskText| !own_task(t, s, input.user);
    same_tasks(s.admissions.queue, p, q);
    assert forall|i: int| 0 <= i < r.queue.len() implies !own_task(#[trigger] r.queue[i], s, input.user) by {
        assert(!same_session(r.queue[i].session, session));
    }
    assert forall|i: int| 0 <= i < r.pending.len() implies !own_task((#[trigger] r.pending[i]).task, s, input.user) by {
        assert(!same_session(r.pending[i].task.session, session));
    }
}

proof fn same_tasks(s: Seq<TaskText>, p: spec_fn(TaskText) -> bool, q: spec_fn(TaskText) -> bool)
    requires
        forall|t: TaskText| p(t) == #[trigger] q(t),
    ensures
        s.filter(p) == s.filter(q),
    decreases s.len(),
{
    reveal(Seq::filter);
    if s.len() > 0 {
        same_tasks(s.drop_last(), p, q);
        assert(p(s.last()) == q(s.last()));
    }
}

/// `/help` sends the control panel to the user's chat: one button for each of
/// its commands, for ten minutes, for this user in this directory.
pub proof fn help_shows_the_commands(s: State, input: InputText, now: u64)
    requires
        says(s, input, "/help"@),
        !s.seen.contains(input.id),
        s.files !is Delivering,
        s.running + s.spawned.len() + 16 < 128,
        s.next_panel < u64::MAX,
        now + 600_000_000_000 <= u64::MAX,
    ensures
        ({
            let r = after_input(s, input, now).0;
            let job = r.state.spawned.last();
            &&& r.fault is None
            &&& r.state.spawned.len() == s.spawned.len() + 1
            &&& r.state.spawned.drop_last() == s.spawned
            &&& job is SendPanel
            &&& job->SendPanel_source is None
            &&& job->owner.user == input.user
            &&& job->owner.chat == input.chat
            &&& job->owner.directory == working_directory(s, input.user)
            &&& job->deadline == now + 600_000_000_000
            &&& says_what_it_runs(
                job->SendPanel_panel,
                job->SendPanel_commands,
                seq![
                    ("状态 /status"@, "/status"@),
                    ("目录 /cd"@, "/cd"@),
                    ("恢复 /resume"@, "/resume"@),
                    ("新建 /new"@, "/new"@),
                    ("模型 /models"@, "/models"@),
                    ("Plan /plan"@, "/plan"@),
                    ("压缩 /compact"@, "/compact"@),
                    ("刷新 /help"@, "/help"@),
                    ("停止 /stop"@, "/stop"@),
                ],
            )
            &&& r.state.receipts == taken(s.receipts, input.ack)
        }),
{
    reveal_strlit("/help");
    reveal_strlit("/pair");
    reveal_strlit("/cd");
    reveal_strlit("/models");
    reveal_strlit("/model");
    reveal_strlit("/plan");
    reveal_strlit("/resume");
    reveal_strlit("/archived");
    assert("/help"@[1] == 'h' && "/pair"@[1] == 'p' && "/cd"@[1] == 'c' && "/models"@[1] == 'm' && "/model"@[1] == 'm');
    assert("/plan"@[1] == 'p' && "/resume"@[1] == 'r' && "/archived"@[1] == 'a');
    other_words_are_no_commands("/help"@);
    ordinary_texts_are_commands(s, input, "/help"@, now);
    reveal(after_command);
    reveal(after_help);
    let prefix = panel_prefix_text(s.epoch, (s.next_panel + 1) as u64);
    buttons_say_what_they_run("Codex 控制面板"@, help_body(), help_entries(), prefix);
    let r = after_input(s, input, now).0;
    assert(r.state.spawned.drop_last() =~= s.spawned);
}

/// A message with attachments becomes a task that has them. It is never taken
/// for a command: without a text it asks to look at the attachments.
pub proof fn attachments_go_with_their_task(s: State, input: InputText, now: u64)
    requires
        input.id.len() > 0,
        input.user.len() > 0,
        input.chat.len() > 0,
        input.card is None,
        0 < input.attachments.len() <= 10,
        s.open_access || s.allowed.contains(input.user),
        input.text matches Some(t) ==> t.len() > 0 && t[0] != '/' && !is_space(t[0]) && !is_space(t.last()) && byte_count(t)
            <= 32768,
        inside(working_directory(s, input.user), s.root),
        !s.admissions.mutating,
        forall|i: int| 0 <= i < s.admissions.pending.len() ==> (#[trigger] s.admissions.pending[i]).message != input.id,
        s.admissions.queue.len() + s.admissions.pending.len() < s.admissions.capacity,
        s.admissions.next < u64::MAX,
        s.next_task < u64::MAX,
        s.running + s.spawned.len() + 16 < 128,
    ensures
        ({
            let r = after_input(s, input, now).0;
            let p = r.state.admissions.pending;
            &&& r.fault is None
            &&& r.state.spawned.len() == s.spawned.len() + 1
            &&& r.state.spawned.last() is ClaimTask
            &&& p.len() == s.admissions.pending.len() + 1
            &&& p.last().task.prompt == match input.text {
                Some(t) => t,
                None => "请查看附件并处理用户请求。"@,
            }
            &&& p.last().task.session == own_session(s, input.user)
            &&& p.last().task.chat == input.chat
            &&& r.state.resources.contains_key(p.last().task.id)
            &&& r.state.resources[p.last().task.id] == input.attachments
        }),
{
    let text = match input.text {
        Some(t) => t,
        None => "请查看附件并处理用户请求。"@,
    };
    reveal_strlit("请查看附件并处理用户请求。");
    reveal_strlit("/pair");
    reveal_strlit("/");
    reveal_strlit("/compact");
    reveal_strlit("/help");
    reveal_strlit("/new");
    reveal_strlit("/status");
    reveal_strlit("/stop");
    reveal_strlit("/plan-action ");
    reveal_strlit("/answer ");
    reveal_strlit("/answer-skip ");
    reveal_strlit("/choice ");
    commands_begin_with_a_slash(text);
    begins_otherwise(text, "/plan-action "@, 0);
    begins_otherwise(text, "/answer "@, 0);
    begins_otherwise(text, "/answer-skip "@, 0);
    begins_otherwise(text, "/choice "@, 0);
    begins_otherwise(text, "/"@, 0);
    bytes_per_char(text);
    trimmed_of_trimmed(text);
    reveal(after_message);
    reveal(after_text);
    let described = InputText { text: Some(text), ..input };
    attached_task(s, described, text, now);
}

proof fn attached_task(s: State, input: InputText, text: Seq<char>, now: u64)
    requires
        input.text == Some(text),
        text.len() > 0,
        text[0] != '/',
        !is_space(text[0]),
        command_of(text) is None,
        byte_count(text) <= 32768,
        input.attachments.len() > 0,
        inside(working_directory(s, input.user), s.root),
        can_reserve(s.admissions, input.id),
        s.next_task < u64::MAX,
        s.running + s.spawned.len() + 16 < 128,
    ensures
        ({
            let r = after_command(s, input, text, None, None, now);
            let p = r.state.admissions.pending;
            &&& r.fault is None
            &&& r.state.spawned.len() == s.spawned.len() + 1
            &&& r.state.spawned.last() is ClaimTask
            &&& p.len() == s.admissions.pending.len() + 1
            &&& p.last().task.prompt == text
            &&& p.last().task.session == own_session(s, input.user)
            &&& p.last().task.chat == input.chat
            &&& r.state.resources.contains_key(p.last().task.id)
            &&& r.state.resources[p.last().task.id] == input.attachments
        }),
{
    reveal_strlit("/");
    reveal_strlit("/compact");
    reveal_strlit("/help");
    reveal_strlit("/new");
    reveal_strlit("/status");
    reveal_strlit("/stop");
    begins_otherwise(text, "/"@, 0);
    reveal(after_command);
    reveal(after_session_command);
    reveal(after_task_request);
}

/// A message with attachments whose text looks like a command is a description.
pub proof fn described_attachments_are_no_command(t: Seq<char>)
    requires
        t.len() > 0,
        t[0] == '/',
    ensures
        described(Some(t)) == "附件说明："@ + t,
        described(Some(t))[0] == '附',
{
    reveal_strlit("/");
    reveal_strlit("附件说明：");
    assert(t.take(1) =~= "/"@);
}

/// A pairing attempt is put to the store with the code that was sent, for the
/// user who sent it; of one minute no more than ten are.
pub proof fn pairing_attempts_reach_the_store(s: State, input: InputText, code: Seq<char>, now: u64)
    requires
        input.id.len() > 0,
        input.user.len() > 0,
        input.chat.len() > 0,
        input.card is None,
        input.attachments.len() == 0,
        is_word(code),
        byte_count(code) <= 256,
        input.text == Some("/pair "@ + code),
        s.pairing_attempts < u32::MAX,
    ensures
        ({
            let (r, attempt) = after_input(s, input, now);
            let fresh = now >= s.pairing_window && now - s.pairing_window >= 60_000_000_000;
            &&& r.fault is None
            &&& r.state.spawned == s.spawned
            &&& r.state.sent == s.sent
            &&& r.state.allowed == s.allowed
            &&& fresh || s.pairing_attempts < 10 ==> (attempt matches Some(p) && p.input == input && p.code == code)
            &&& !fresh && s.pairing_attempts >= 10 ==> attempt is None
            &&& !fresh && s.pairing_attempts < 10 ==> r.state.pairing_attempts == s.pairing_attempts + 1
            &&& fresh ==> r.state.pairing_attempts == 1 && r.state.pairing_window == now
        }),
{
    reveal_strlit("/pair");
    reveal_strlit("/pair ");
    reveal_strlit(" ");
    assert("/pair "@ =~= "/pair"@ + " "@);
    two_words("/pair"@, code);
    assert("/pair "@ + code =~= "/pair"@ + " "@ + code);
    let w = words(input.text->Some_0);
    assert(w[0] == "/pair"@ && w[1] == code);
}

/// Pairing admits the user who asked, if the store says so, and nobody else; the
/// user is told how it went.
pub proof fn pairing_admits_who_asked(s: State, input: InputText, error: SessionStoreError)
    requires
        s.room > 0,
    ensures
        ({
            let yes = after_paired(s, input, Ok(true));
            let no = after_paired(s, input, Ok(false));
            let unknown = after_paired(s, input, Err(error));
            &&& yes.state.allowed == s.allowed.insert(input.user)
            &&& no.state.allowed == s.allowed
            &&& unknown.state.allowed == s.allowed
            &&& yes.state.sent == s.sent.push(
                RequestText::Text(input.chat, "配对成功，后续消息可使用机器人。发送 /help 查看功能。"@),
            )
            &&& no.state.sent == s.sent.push(
                RequestText::Text(input.chat, "配对未成功，请核对配对码或联系管理员。"@),
            )
            &&& unknown.state.sent == s.sent.push(
                RequestText::Text(input.chat, "配对保存失败，尚未授权，请稍后重试。"@),
            )
            &&& yes.state.receipts == taken(s.receipts, input.ack)
            &&& no.state.receipts == taken(s.receipts, input.ack)
        }),
{
}

/// A change that is asked for while work runs, waits or is being changed is
/// refused: the user is told, the input is taken and nothing is started.
pub proof fn changes_wait_for_an_idle_moment(s: State, input: InputText, m: Seq<char>, now: u64)
    requires
        is_word(m),
        inside(working_directory(s, input.user), s.root),
        s.files !is Delivering,
        s.room > 0,
        s.admissions.mutating || s.admissions.active is Some || s.admissions.queue.len() > 0 || s.admissions.pending.len() > 0,
        says(s, input, "/plan on"@) || says(s, input, "/plan off"@) || says(s, input, "/model "@ + m) || says(s, input, "/new"@)
            || says(s, input, "/compact"@),
    ensures
        ({
            let r = after_input(s, input, now).0;
            &&& r.fault is None
            &&& r.state.spawned == s.spawned
            &&& r.state.admissions == s.admissions
            &&& r.state.sent.len() == s.sent.len() + 1
            &&& r.state.sent.last() is Text
            &&& r.state.sent.last()->Text_0 == input.chat
            &&& r.state.receipts == taken(s.receipts, input.ack)
        }),
{
    let text = input.text->Some_0;
    reveal_strlit("/plan on");
    reveal_strlit("/plan off");
    reveal_strlit("/model ");
    reveal_strlit("/new");
    reveal_strlit("/compact");
    reveal_strlit("/help");
    reveal_strlit("/pair");
    reveal_strlit("/cd");
    reveal_strlit("/models");
    reveal_strlit("/model");
    reveal_strlit("/plan");
    reveal_strlit("/resume");
    reveal_strlit("/archived");
    assert("/new"@.len() == 4 && "/compact"@.len() == 8 && "/cd"@.len() == 3 && "/models"@.len() == 7 && "/model"@.len() == 6);
    assert("/plan"@.len() == 5 && "/resume"@.len() == 7 && "/archived"@.len() == 9 && "/help"@.len() == 5);
    assert("/compact"@[1] == 'c' && "/help"@[1] == 'h' && "/new"@[1] == 'n');
    assert(("/model "@ + m)[1] == 'm');
    preference_commands_are_read(m);
    if text == "/new"@ || text == "/compact"@ {
        other_words_are_no_commands(text);
        assert("/pair"@.len() == 5);
    } else {
        never_pairs(text);
    }
    ordinary_texts_are_commands(s, input, text, now);
    reveal(after_command);
    reveal(after_session_command);
    reveal(after_preferences);
    reveal(after_reset_request);
    reveal(after_compact_request);
}

/// A command that changes something voids an offered plan; one that only shows
/// something leaves it.
pub proof fn commands_void_an_offered_plan(s: State, input: InputText, now: u64)
    requires
        inside(working_directory(s, input.user), s.root),
        s.files !is Delivering,
    ensures
        says(s, input, "/new"@) || says(s, input, "/compact"@) || says(s, input, "/stop"@) ==> after_input(
            s,
            input,
            now,
        ).0.state.plan_offer is None,
        says(s, input, "/status"@) ==> after_input(s, input, now).0.state.plan_offer == s.plan_offer,
{
    let text = input.text->Some_0;
    if says(s, input, "/status"@) || says(s, input, "/stop"@) {
        reveal_strlit("/stop");
        reveal_strlit("/status");
        reveal_strlit("/new");
        reveal_strlit("/compact");
        assert("/status"@.len() == 7 && "/stop"@.len() == 5 && "/new"@.len() == 4 && "/compact"@.len() == 8);
        control_routed(s, input, text, now);
        reveal(after_simple);
    } else if says(s, input, "/new"@) || says(s, input, "/compact"@) {
        voided_by_change(s, input, text, now);
    }
}

proof fn voided_by_change(s: State, input: InputText, text: Seq<char>, now: u64)
    requires
        text == "/new"@ || text == "/compact"@,
        says(s, input, text),
        inside(working_directory(s, input.user), s.root),
        s.files !is Delivering,
    ensures
        after_input(s, input, now).0.state.plan_offer is None,
{
    reveal_strlit("/new");
    reveal_strlit("/compact");
    reveal_strlit("/help");
    reveal_strlit("/pair");
    reveal_strlit("/cd");
    reveal_strlit("/models");
    reveal_strlit("/model");
    reveal_strlit("/plan");
    reveal_strlit("/resume");
    reveal_strlit("/archived");
    reveal_strlit("/status");
    reveal_strlit("/stop");
    reveal_strlit("/");
    assert("/new"@.len() == 4 && "/compact"@.len() == 8 && "/cd"@.len() == 3 && "/models"@.len() == 7 && "/model"@.len() == 6);
    assert("/plan"@.len() == 5 && "/resume"@.len() == 7 && "/archived"@.len() == 9 && "/help"@.len() == 5 && "/pair"@.len() == 5);
    assert("/status"@.len() == 7 && "/stop"@.len() == 5);
    other_words_are_no_commands(text);
    assert(text.take(1) =~= "/"@);
    ordinary_texts_are_commands(s, input, text, now);
    reveal(after_command);
    reveal(after_session_command);
    reveal(after_reset_request);
    reveal(after_compact_request);
}

/// More than ten attachments, or more than 32768 bytes of text, are refused: the
/// user is told and nothing is started.
pub proof fn oversized_messages_are_refused(s: State, input: InputText, text: Seq<char>, now: u64)
    requires
        input.id.len() > 0,
        input.user.len() > 0,
        input.chat.len() > 0,
        input.card is None,
        s.open_access || s.allowed.contains(input.user),
        s.room > 0,
        input.text == Some(text),
        text.len() > 0,
        text[0] != '/',
        !is_space(text[0]),
        !is_space(text.last()),
        input.attachments.len() > 10 || (input.attachments.len() == 0 && byte_count(text) > 32768 && inside(
            working_directory(s, input.user),
            s.root,
        )),
    ensures
        ({
            let r = after_input(s, input, now).0;
            &&& r.fault is None
            &&& r.state.spawned == s.spawned
            &&& r.state.admissions == s.admissions
            &&& r.state.resources == s.resources
            &&& r.state.sent == s.sent.push(
                RequestText::Text(
                    input.chat,
                    if input.attachments.len() > 10 {
                        "单条消息最多接收 10 个附件。"@
                    } else {
                        "输入超过 32 KiB 上限。"@
                    },
                ),
            )
            &&& r.state.receipts == taken(s.receipts, input.ack)
        }),
{
    commands_begin_with_a_slash(text);
    reveal_strlit("/pair");
    reveal_strlit("/");
    reveal_strlit("/compact");
    reveal_strlit("/help");
    reveal_strlit("/new");
    reveal_strlit("/status");
    reveal_strlit("/stop");
    begins_otherwise(text, "/"@, 0);
    reveal(after_message);
    if input.attachments.len() == 0 {
        message_routed(s, input, text, now);
        reveal(after_command);
        reveal(after_session_command);
    }
}

/// A user whose directory is no longer inside the workspace must choose another
/// before anything is done there.
pub proof fn strayed_users_choose_again(s: State, input: InputText, text: Seq<char>, now: u64)
    requires
        says(s, input, text),
        text[0] != '/',
        !inside(working_directory(s, input.user), s.root),
        s.room > 0,
    ensures
        ({
            let r = after_input(s, input, now).0;
            &&& r.fault is None
            &&& r.state.spawned == s.spawned
            &&& r.state.admissions == s.admissions
            &&& r.state.sent == s.sent.push(
                RequestText::Text(input.chat, "保存的目录已越出工作区；请使用 /cd <工作区内绝对路径> 重新选择。"@),
            )
        }),
{
    commands_begin_with_a_slash(text);
    reveal_strlit("/pair");
    reveal_strlit("/");
    reveal_strlit("/help");
    reveal_strlit("/status");
    reveal_strlit("/stop");
    begins_otherwise(text, "/"@, 0);
    message_routed(s, input, text, now);
    reveal(after_command);
    reveal(after_session_command);
}

/// While files are delivered, commands that change something are refused, and
/// nothing is started by them.
pub proof fn deliveries_hold_changes_back(s: State, input: InputText, text: Seq<char>, now: u64)
    requires
        s.files is Delivering,
        says(s, input, text),
        text == "/new"@ || text == "/compact"@ || text == "/plan on"@ || text == "/plan off"@,
        s.room > 0,
    ensures
        ({
            let r = after_input(s, input, now).0;
            &&& r.fault is None
            &&& r.state.spawned == s.spawned
            &&& r.state.admissions == s.admissions
            &&& r.state.sent == s.sent.push(
                RequestText::Text(input.chat, "正在整理本轮成果，请交付结束后再修改会话、目录或设置。"@),
            )
        }),
{
    reveal_strlit("/new");
    reveal_strlit("/compact");
    reveal_strlit("/plan on");
    reveal_strlit("/plan off");
    reveal_strlit("/status");
    reveal_strlit("/help");
    reveal_strlit("/stop");
    reveal_strlit("/model");
    reveal_strlit("/models");
    reveal_strlit("/resume");
    reveal_strlit("/archived");
    reveal_strlit("/plan");
    reveal_strlit("/cd");
    reveal_strlit("/pair");
    reveal_strlit("/");
    reveal_strlit("/plan-action ");
    assert("/new"@.len() == 4 && "/compact"@.len() == 8 && "/plan on"@.len() == 8 && "/plan off"@.len() == 9);
    assert("/status"@.len() == 7 && "/help"@.len() == 5 && "/stop"@.len() == 5 && "/model"@.len() == 6 && "/models"@.len() == 7);
    assert("/resume"@.len() == 7 && "/archived"@.len() == 9 && "/plan"@.len() == 5 && "/cd"@.len() == 3 && "/pair"@.len() == 5);
    assert("/archived"@[1] == 'a' && "/plan off"@[1] == 'p');
    if text == "/new"@ || text == "/compact"@ {
        other_words_are_no_commands(text);
    } else {
        preference_commands_are_read("/model"@);
        never_pairs(text);
    }
    begins_otherwise(text, "/plan-action "@, 5);
    assert(text.take(1) =~= "/"@);
    trimmed_of_trimmed(text);
    reveal(after_message);
    reveal(after_text);
}

/// A command that shows something is answered once: its id is remembered, and the
/// same id is only acknowledged from then on.
pub proof fn answered_commands_are_remembered(s: State, input: InputText, now: u64)
    requires
        says(s, input, "/status"@) || says(s, input, "/stop"@),
        s.seen.finite(),
    ensures
        after_input(s, input, now).0.state.seen.contains(input.id),
        s.seen.contains(input.id) ==> ({
            let r = after_input(s, input, now).0;
            &&& r.state.sent == s.sent
            &&& r.state.spawned == s.spawned
            &&& r.state.active == s.active
            &&& r.state.receipts == taken(s.receipts, input.ack)
        }),
{
    let text = input.text->Some_0;
    control_routed(s, input, text, now);
    reveal(after_simple);
    reveal_strlit("/stop");
    reveal_strlit("/status");
    assert("/status"@.len() == 7 && "/stop"@.len() == 5);
}

/// A message that finds the queue full, or sessions being changed, is not taken:
/// its user is told to send it again, and it is rejected.
pub proof fn crowded_out_messages_are_rejected(s: State, input: InputText, text: Seq<char>, now: u64)
    requires
        says(s, input, text),
        text[0] != '/',
        byte_count(text) <= 32768,
        inside(working_directory(s, input.user), s.root),
        s.admissions.mutating || s.admissions.queue.len() + s.admissions.pending.len() >= s.admissions.capacity,
        s.next_task < u64::MAX,
        s.room > 0,
    ensures
        ({
            let r = after_input(s, input, now).0;
            &&& r.fault is None
            &&& r.state.spawned == s.spawned
            &&& r.state.admissions == s.admissions
            &&& r.state.sent == s.sent.push(RequestText::Text(input.chat, "任务队列繁忙，请稍后重新发送。"@))
            &&& input.ack matches Some(receipt) ==> r.state.receipts == s.receipts.push((receipt, false))
        }),
{
    commands_begin_with_a_slash(text);
    reveal_strlit("/pair");
    reveal_strlit("/");
    reveal_strlit("/compact");
    reveal_strlit("/help");
    reveal_strlit("/new");
    begins_otherwise(text, "/"@, 0);
    message_routed(s, input, text, now);
    reveal(after_command);
    reveal(after_session_command);
    reveal(after_task_request);
}

} // verus!
