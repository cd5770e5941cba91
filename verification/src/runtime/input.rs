//! User input handling: pairing, authorization, card clicks and the dispatch of
//! commands, answers and tasks. Every path acknowledges the input exactly once
//! or hands it to the one job that will.
use vstd::prelude::*;
use vstd::string::*;
use crate::cards::{usable, ActionText, Click};
use crate::command::{command_of, Command, CommandText};
use crate::model::{climbs, is_rooted, lies_in, DirectoryText};
use crate::runtime::answers::{after_answer, after_approve, after_choice, after_plan_request, answered_with};
use crate::runtime::changes::{
    after_compact_request, after_confirmation, after_directory_change, after_preferences, after_reset_request, after_threads,
};
use crate::runtime::control::{after_help, after_simple, after_task_request};
use crate::runtime::flow::clock;
use crate::runtime::limits;
use crate::runtime::state::{
    begin, fault_of, FileDelivery, Input, InputText, PreferenceQuery, Runtime, RuntimeError, State, Step,
};
use crate::runtime::tokens;
use crate::sessions::{ChangeText, PreferenceChange, SessionStoreError, ThreadAction};
use crate::text::{begins_with, byte_count, byte_len, opt, same, starts_with, texts, trim, trimmed};
use crate::textmap::kept;
use crate::view::PanelView;
use crate::words::{split_words, words};

verus! {

/// A pairing attempt for the store to decide.
pub struct Pairing {
    pub input: Input,
    pub code: String,
}

/// A pairing attempt by its texts.
pub struct PairingText {
    pub input: InputText,
    pub code: Seq<char>,
}

impl View for Pairing {
    type V = PairingText;

    open spec fn view(&self) -> PairingText {
        PairingText { input: self.input@, code: self.code@ }
    }
}

pub open spec fn opt_pairing(p: Option<Pairing>) -> Option<PairingText> {
    match p {
        Some(p) => Some(p@),
        None => None,
    }
}

/// A message that asks to be paired.
pub open spec fn asks_pairing(input: InputText) -> bool {
    input.card is None && (input.text matches Some(t) && words(t).len() > 0 && words(t)[0] == "/pair"@)
}

/// The code of a pairing message; a malformed message carries none.
pub open spec fn pairing_code(input: InputText) -> Seq<char> {
    match input.text {
        Some(t) => if words(t).len() == 2 && byte_count(words(t)[1]) <= limits::PAIRING_CODE_BYTES && input.attachments.len()
            == 0 {
            words(t)[1]
        } else {
            Seq::empty()
        },
        None => Seq::empty(),
    }
}

/// The throttle's window: a new one begins once the old one is over.
pub open spec fn window_renewed(s: State, now: u64) -> State {
    if now >= s.pairing_window && now - s.pairing_window >= limits::PAIRING_WINDOW {
        State { pairing_window: now, pairing_attempts: 0, ..s }
    } else {
        s
    }
}

/// A pairing attempt is counted and put to the store, unless there were too many.
pub open spec fn after_pairing(s0: State, input: InputText, now: u64) -> (Step, Option<PairingText>) {
    let s = window_renewed(s0, now);
    if s.pairing_attempts >= limits::PAIRING_ATTEMPTS {
        (begin(s).settle(input.ack, true), None)
    } else {
        (
            begin(State { pairing_attempts: (s.pairing_attempts + 1) as u32, ..s }),
            Some(PairingText { input, code: pairing_code(input) }),
        )
    }
}

/// The store has decided a pairing attempt.
pub open spec fn after_paired(s: State, input: InputText, result: Result<bool, SessionStoreError>) -> Step {
    match result {
        Ok(true) => answered_with(
            begin(State { allowed: s.allowed.insert(input.user), ..s }),
            input,
            "配对成功，后续消息可使用机器人。发送 /help 查看功能。"@,
        ),
        Ok(false) => answered_with(begin(s), input, "配对未成功，请核对配对码或联系管理员。"@),
        Err(_) => begin(s).tell(input.chat, "配对保存失败，尚未授权，请稍后重试。"@).settle(input.ack, false),
    }
}

/// The command changes nothing, and so may run while files are delivered.
pub open spec fn harmless(text: Seq<char>) -> bool {
    ||| text == "/status"@
    ||| text == "/help"@
    ||| text == "/stop"@
    ||| text == "/model"@
    ||| text == "/models"@
    ||| text == "/resume"@
    ||| text == "/archived"@
    ||| text == "/plan"@
    ||| text == "/cd"@
}

/// A command that leaves an offered plan as it is.
pub open spec fn keeps_offer(text: Seq<char>) -> bool {
    harmless(text) && text != "/stop"@
}

/// The directory is usable: absolute, inside the workspace, never going up.
pub open spec fn inside(current: DirectoryText, root: DirectoryText) -> bool {
    is_rooted(current) && lies_in(current, root) && !climbs(current)
}

pub open spec fn change_of(command: CommandText) -> Option<ChangeText> {
    match command {
        CommandText::Model(Some(model)) => Some(
            ChangeText::Model(
                if model == "default"@ {
                    None
                } else {
                    Some(model)
                },
            ),
        ),
        CommandText::Plan(Some(value)) => Some(ChangeText::Plan(value)),
        _ => None,
    }
}

pub open spec fn query_of(command: CommandText) -> PreferenceQuery {
    match command {
        CommandText::Models => PreferenceQuery::Models,
        CommandText::Model(_) => PreferenceQuery::Model,
        _ => PreferenceQuery::Plan,
    }
}

/// What is left once answers, confirmations and directory changes are handled.
#[verifier::opaque]
pub open spec fn after_session_command(s: State, input: InputText, text: Seq<char>, refresh: Option<Seq<char>>, now: u64) -> Step {
    if !inside(s.current(input.user), s.root) && text != "/status"@ && text != "/stop"@ {
        answered_with(begin(s), input, "保存的目录已越出工作区；请使用 /cd <工作区内绝对路径> 重新选择。"@)
    } else if text == "/compact"@ {
        after_compact_request(s, input)
    } else {
        match command_of(text) {
            Some(CommandText::Models) | Some(CommandText::Model(_)) | Some(CommandText::Plan(_)) => {
                let command = command_of(text)->Some_0;
                after_preferences(s, input, change_of(command), query_of(command), refresh)
            },
            Some(CommandText::Resume(target)) => after_threads(s, input, target, ThreadAction::Resume, false, refresh),
            Some(CommandText::Archive(id)) => after_threads(s, input, Some(id), ThreadAction::Archive, false, refresh),
            Some(CommandText::Unarchive(id)) => after_threads(s, input, Some(id), ThreadAction::Unarchive, true, refresh),
            Some(CommandText::Archived) => after_threads(s, input, None, ThreadAction::Unarchive, true, refresh),
            _ => if text == "/new"@ {
                after_reset_request(s, input)
            } else if input.text is None || text.len() == 0 || begins_with(text, "/"@) {
                after_simple(s, input, text, now)
            } else if byte_count(text) > limits::INPUT_BYTES {
                answered_with(begin(s), input, "输入超过 32 KiB 上限。"@)
            } else {
                after_task_request(s, input, text)
            },
        }
    }
}

/// A command or a task.
#[verifier::opaque]
pub open spec fn after_command(s0: State, input: InputText, text: Seq<char>, source: Option<Seq<char>>, refresh: Option<Seq<char>>, now: u64) -> Step {
    let s = if begins_with(text, "/"@) && !keeps_offer(text) {
        State { plan_offer: None, ..s0 }
    } else {
        s0
    };
    match command_of(text) {
        Some(CommandText::Approve { token, allow }) => after_approve(s, input, token, allow, source, now),
        Some(CommandText::ConfirmDirectory(token)) => after_confirmation(s, input, token, now),
        Some(CommandText::ChangeDirectory(target)) => after_directory_change(s, input, target),
        _ => if text == "/help"@ {
            after_help(s, input, now)
        } else {
            after_session_command(s, input, text, refresh, now)
        },
    }
}

/// What an input says, without white space around it.
pub open spec fn said(input: InputText) -> Seq<char> {
    match input.text {
        Some(t) => trimmed(t),
        None => trimmed(""@),
    }
}

/// An authorized input whose click, if it was one, has been resolved.
#[verifier::opaque]
pub open spec fn after_text(s: State, input: InputText, source: Option<Seq<char>>, refresh: Option<Seq<char>>, now: u64) -> Step {
    let text = said(input);
    if begins_with(text, "/plan-action "@) {
        after_plan_request(s, input, text, source, now)
    } else if s.files is Delivering && begins_with(text, "/"@) && !harmless(text) {
        answered_with(begin(s), input, "正在整理本轮成果，请交付结束后再修改会话、目录或设置。"@)
    } else if begins_with(text, "/answer "@) || begins_with(text, "/answer-skip "@) {
        after_answer(s, input, text, source, now)
    } else if begins_with(text, "/choice "@) {
        after_choice(s, input, text, source, now)
    } else {
        after_command(s, input, text, source, refresh, now)
    }
}

/// A delivered card that lists threads or models.
pub open spec fn is_list(views: Map<Seq<char>, PanelView>, source: Seq<char>) -> bool {
    views.contains_key(source) && ({
        let title = views[source].title;
        title == "最近会话"@ || title == "已归档会话"@ || title == "可用模型"@
    })
}

/// A command that shows a list.
pub open spec fn lists(command: Seq<char>) -> bool {
    command == "/resume"@ || command == "/archived"@ || command == "/models"@
}

/// A click runs its button's command as if the user had sent it. A list that
/// is asked for from a list replaces that card.
#[verifier::opaque]
pub open spec fn after_click(s: State, input: InputText, token: Seq<char>, source: Seq<char>, now: u64) -> Step {
    if !(s.actions.contains_key(token) && usable(
        s.actions[token],
        source,
        input.user,
        input.chat,
        s.current(input.user),
        now,
        s.card_snapshot(),
    )) {
        answered_with(begin(s), input, "卡片操作无效、已使用或已过期；请重新发送 /help 或 /cd <路径>。"@)
    } else {
        let command = s.actions[token].command;
        let rest = s.actions.remove(token);
        let run = InputText { card: None, id: "card:"@ + token, text: Some(command), ..input };
        if lists(command) && is_list(s.views, source) {
            after_text(
                State {
                    actions: kept(rest, |k: Seq<char>, a: ActionText| a.source != source),
                    views: s.views.remove(source),
                    ..s
                },
                run,
                Some(source),
                Some(source),
                now,
            )
        } else {
            after_text(State { actions: rest, ..s }, run, Some(source), None, now)
        }
    }
}

/// What a message with attachments says: never a command.
pub open spec fn described(text: Option<Seq<char>>) -> Seq<char> {
    match text {
        None => "请查看附件并处理用户请求。"@,
        Some(t) => if begins_with(t, "/"@) {
            "附件说明："@ + t
        } else {
            t
        },
    }
}

/// A message or click of anybody.
#[verifier::opaque]
pub open spec fn after_message(s: State, input: InputText, now: u64) -> Step {
    if !s.open_access && !s.allowed.contains(input.user) {
        answered_with(
            begin(s),
            input,
            "当前飞书用户尚未授权。如管理员启用了配对，请发送 /pair <配对码>；否则请联系管理员加入白名单。"@,
        )
    } else if input.attachments.len() > limits::ATTACHMENTS_PER_MESSAGE {
        answered_with(begin(s), input, "单条消息最多接收 10 个附件。"@)
    } else {
        match input.card {
            Some((token, source)) => if input.attachments.len() > 0 {
                begin(s).settle(input.ack, false)
            } else {
                after_click(s, input, token, source, now)
            },
            None => if input.attachments.len() > 0 {
                after_text(s, InputText { text: Some(described(input.text)), ..input }, None, None, now)
            } else {
                after_text(s, input, None, None, now)
            },
        }
    }
}

/// Any input. What cannot be attributed is rejected; a pairing attempt is put
/// to the store.
pub open spec fn after_input(s: State, input: InputText, now: u64) -> (Step, Option<PairingText>) {
    if input.id.len() == 0 || input.user.len() == 0 || input.chat.len() == 0 {
        (begin(s).settle(input.ack, false), None)
    } else if asks_pairing(input) {
        after_pairing(s, input, now)
    } else {
        (after_message(s, input, now), None)
    }
}

fn is_harmless(text: &str) -> (r: bool)
    ensures
        r == harmless(text@),
{
    same(text, "/status") || same(text, "/help") || same(text, "/stop") || same(text, "/model") || same(text, "/models") || same(
        text,
        "/resume",
    ) || same(text, "/archived") || same(text, "/plan") || same(text, "/cd")
}

fn pairing_requested(input: &Input) -> (r: bool)
    ensures
        r == asks_pairing(input@),
{
    if input.card.is_some() {
        return false;
    }
    match &input.text {
        Some(t) => {
            let w = split_words(t.as_str());
            proof {
                assert(texts(w@).len() == w@.len());
                if w@.len() > 0 {
                    assert(texts(w@)[0] == w@[0]@);
                }
            }
            w.len() > 0 && same(w[0].as_str(), "/pair")
        },
        None => false,
    }
}

fn read_code(input: &Input) -> (r: String)
    ensures
        r@ == pairing_code(input@),
{
    let none = String::new();
    proof {
        assert(none@ =~= Seq::empty());
    }
    match &input.text {
        Some(t) => {
            let w = split_words(t.as_str());
            proof {
                assert(texts(w@).len() == w@.len());
                if w@.len() > 1 {
                    assert(texts(w@)[1] == w@[1]@);
                }
            }
            if w.len() == 2 && byte_len(w[1].as_str()) <= limits::PAIRING_CODE_BYTES && input.attachments.len() == 0 {
                w[1].clone()
            } else {
                none
            }
        },
        None => none,
    }
}

impl Runtime {
    /// Counts a pairing attempt; the store decides it.
    fn handle_pairing(&mut self, input: Input, now: u64) -> (r: Option<Pairing>)
        requires
            old(self).wf(),
        ensures
            final(self).at(after_pairing(old(self)@, input@, now).0),
            opt_pairing(r) == after_pairing(old(self)@, input@, now).1,
    {
        if now >= self.admission.pairing_window && now - self.admission.pairing_window >= limits::PAIRING_WINDOW {
            self.admission.pairing_window = now;
            self.admission.pairing_attempts = 0;
        }
        let mut input = input;
        if self.admission.pairing_attempts >= limits::PAIRING_ATTEMPTS {
            self.settle(&mut input.ack, true);
            return None;
        }
        self.admission.pairing_attempts = self.admission.pairing_attempts + 1;
        let code = read_code(&input);
        Some(Pairing { input, code })
    }

    /// The store has decided a pairing attempt.
    pub fn handle_paired(&mut self, input: Input, result: Result<bool, SessionStoreError>) -> (r: Result<(), RuntimeError>)
        requires
            old(self).wf(),
        ensures
            final(self).at(after_paired(old(self)@, input@, result)),
            fault_of(r) == after_paired(old(self)@, input@, result).fault,
    {
        match result {
            Ok(true) => {
                self.admission.allowed.insert(input.user.clone(), ());
                proof {
                    assert(self@.allowed =~= old(self)@.allowed.insert(input@.user));
                }
                self.answer_with(input, "配对成功，后续消息可使用机器人。发送 /help 查看功能。")
            },
            Ok(false) => self.answer_with(input, "配对未成功，请核对配对码或联系管理员。"),
            Err(_) => {
                let told = self.tell(input.chat.as_str(), "配对保存失败，尚未授权，请稍后重试。");
                self.conclude(input.ack, false, told)
            },
        }
    }

    fn is_inside(&self, user: &str) -> (r: bool)
        requires
            self.wf(),
        ensures
            r == inside(self@.current(user@), self@.root),
    {
        let current = self.current(user);
        current.is_absolute() && current.starts_with(&self.settings.root) && !current.has_parent_component()
    }

    fn handle_session_command(&mut self, input: Input, text: String, command: Option<Command>, refresh: Option<String>, now: u64) -> (r: Result<(), RuntimeError>)
        requires
            old(self).wf(),
            match command {
                Some(c) => command_of(text@) == Some(c@),
                None => command_of(text@) is None,
            },
        ensures
            final(self).at(after_session_command(old(self)@, input@, text@, opt(refresh), now)),
            fault_of(r) == after_session_command(old(self)@, input@, text@, opt(refresh), now).fault,
    {
        proof {
            reveal(after_session_command);
        }
        if !self.is_inside(input.user.as_str()) && !same(text.as_str(), "/status") && !same(text.as_str(), "/stop") {
            return self.answer_with(input, "保存的目录已越出工作区；请使用 /cd <工作区内绝对路径> 重新选择。");
        }
        if same(text.as_str(), "/compact") {
            return self.handle_compact(input);
        }
        match command {
            Some(Command::Models) => {
                return self.handle_preferences(input, None, PreferenceQuery::Models, refresh);
            },
            Some(Command::Model(model)) => {
                let change: Option<PreferenceChange> = match model {
                    Some(model) => if same(model.as_str(), "default") {
                        Some(PreferenceChange::Model(None))
                    } else {
                        Some(PreferenceChange::Model(Some(model)))
                    },
                    None => None,
                };
                return self.handle_preferences(input, change, PreferenceQuery::Model, refresh);
            },
            Some(Command::Plan(value)) => {
                let change: Option<PreferenceChange> = match value {
                    Some(value) => Some(PreferenceChange::Plan(value)),
                    None => None,
                };
                return self.handle_preferences(input, change, PreferenceQuery::Plan, refresh);
            },
            Some(Command::Resume(target)) => {
                return self.handle_threads(input, target, ThreadAction::Resume, false, refresh);
            },
            Some(Command::Archive(id)) => {
                return self.handle_threads(input, Some(id), ThreadAction::Archive, false, refresh);
            },
            Some(Command::Unarchive(id)) => {
                return self.handle_threads(input, Some(id), ThreadAction::Unarchive, true, refresh);
            },
            Some(Command::Archived) => {
                return self.handle_threads(input, None, ThreadAction::Unarchive, true, refresh);
            },
            _ => {},
        }
        if same(text.as_str(), "/new") {
            return self.handle_reset(input);
        }
        if input.text.is_none() || text.as_str().is_empty() || starts_with(text.as_str(), "/") {
            return self.handle_simple_command(input, text.as_str(), now);
        }
        if byte_len(text.as_str()) > limits::INPUT_BYTES {
            return self.answer_with(input, "输入超过 32 KiB 上限。");
        }
        self.admit_task(input, text)
    }

    fn handle_command(&mut self, input: Input, text: String, source: Option<String>, refresh: Option<String>, now: u64) -> (r: Result<(), RuntimeError>)
        requires
            old(self).wf(),
            clock(now),
        ensures
            final(self).at(after_command(old(self)@, input@, text@, opt(source), opt(refresh), now)),
            fault_of(r) == after_command(old(self)@, input@, text@, opt(source), opt(refresh), now).fault,
    {
        proof {
            reveal(after_command);
        }
        if starts_with(text.as_str(), "/") && !(is_harmless(text.as_str()) && !same(text.as_str(), "/stop")) {
            self.cards.plan_offer = None;
        }
        let command = match Command::parse(text.as_str()) {
            Ok(c) => Some(c),
            Err(_) => None,
        };
        match command {
            Some(Command::Approve { token, allow }) => self.handle_approve(input, token, allow, source, now),
            Some(Command::ConfirmDirectory(token)) => self.handle_confirmation(input, token.as_str(), now),
            Some(Command::ChangeDirectory(target)) => self.handle_directory_change(input, target),
            command => {
                if same(text.as_str(), "/help") {
                    return self.handle_help(input, now);
                }
                self.handle_session_command(input, text, command, refresh, now)
            },
        }
    }

    fn handle_text(&mut self, input: Input, source: Option<String>, refresh: Option<String>, now: u64) -> (r: Result<(), RuntimeError>)
        requires
            old(self).wf(),
            clock(now),
        ensures
            final(self).at(after_text(old(self)@, input@, opt(source), opt(refresh), now)),
            fault_of(r) == after_text(old(self)@, input@, opt(source), opt(refresh), now).fault,
    {
        proof {
            reveal(after_text);
        }
        let text = match &input.text {
            Some(t) => trim(t.as_str()),
            None => trim(""),
        };
        if starts_with(text.as_str(), "/plan-action ") {
            return self.handle_plan_action(input, text.as_str(), source, now);
        }
        let delivering = match &self.tasks.files {
            FileDelivery::Delivering => true,
            _ => false,
        };
        if delivering && starts_with(text.as_str(), "/") && !is_harmless(text.as_str()) {
            return self.answer_with(input, "正在整理本轮成果，请交付结束后再修改会话、目录或设置。");
        }
        if starts_with(text.as_str(), "/answer ") || starts_with(text.as_str(), "/answer-skip ") {
            return self.handle_answer(input, text.as_str(), source, now);
        }
        if starts_with(text.as_str(), "/choice ") {
            return self.handle_choice(input, text.as_str(), source, now);
        }
        self.handle_command(input, text, source, refresh, now)
    }

    fn handle_click(&mut self, input: Input, click: Click, now: u64) -> (r: Result<(), RuntimeError>)
        requires
            old(self).wf(),
            clock(now),
            input.card is None,
        ensures
            final(self).at(after_click(old(self)@, input@, click.token@, click.source@, now)),
            fault_of(r) == after_click(old(self)@, input@, click.token@, click.source@, now).fault,
    {
        proof {
            reveal(after_click);
        }
        let snapshot = self.card_snapshot();
        let current = self.current(input.user.as_str());
        let mut input = input;
        let taken = self.cards.actions.take(
            &click,
            input.user.as_str(),
            input.chat.as_str(),
            &current,
            now,
            &snapshot,
        );
        let command = match taken {
            Some(command) => command,
            None => {
                return self.answer_with(input, "卡片操作无效、已使用或已过期；请重新发送 /help 或 /cd <路径>。");
            },
        };
        let listing = same(command.as_str(), "/resume") || same(command.as_str(), "/archived") || same(
            command.as_str(),
            "/models",
        );
        let refresh: Option<String> = if listing && self.cards.views.is_list(click.source.as_str()) {
            self.cards.actions.invalidate_source(click.source.as_str());
            self.cards.views.remove(click.source.as_str());
            Some(click.source.clone())
        } else {
            None
        };
        input.id = tokens::click_receipt(click.token.as_str());
        input.text = Some(command);
        self.handle_text(input, Some(click.source), refresh, now)
    }

    fn handle_message(&mut self, input: Input, now: u64) -> (r: Result<(), RuntimeError>)
        requires
            old(self).wf(),
            clock(now),
        ensures
            final(self).at(after_message(old(self)@, input@, now)),
            fault_of(r) == after_message(old(self)@, input@, now).fault,
    {
        proof {
            reveal(after_message);
            reveal(after_click);
        }
        let mut input = input;
        if !self.settings.open_access && !self.admission.allowed.contains(input.user.as_str()) {
            return self.answer_with(
                input,
                "当前飞书用户尚未授权。如管理员启用了配对，请发送 /pair <配对码>；否则请联系管理员加入白名单。",
            );
        }
        if input.attachments.len() > limits::ATTACHMENTS_PER_MESSAGE {
            return self.answer_with(input, "单条消息最多接收 10 个附件。");
        }
        let attached = input.attachments.len() > 0;
        match input.card.take() {
            Some(click) => {
                if attached {
                    self.settle(&mut input.ack, false);
                    return Ok(());
                }
                self.handle_click(input, click, now)
            },
            None => {
                if attached {
                    let text = match input.text.take() {
                        None => "请查看附件并处理用户请求。".to_owned(),
                        Some(t) => if starts_with(t.as_str(), "/") {
                            let mut d = "附件说明：".to_owned();
                            d.append(t.as_str());
                            d
                        } else {
                            t
                        },
                    };
                    input.text = Some(text);
                }
                self.handle_text(input, None, None, now)
            },
        }
    }

    /// Handles one input. A pairing attempt comes back: the store decides it,
    /// and [`Runtime::handle_paired`] takes the decision.
    pub fn handle_input(&mut self, input: Input, now: u64) -> (r: Result<Option<Pairing>, RuntimeError>)
        requires
            old(self).wf(),
            clock(now),
        ensures
            final(self).at(after_input(old(self)@, input@, now).0),
            match r {
                Ok(p) => after_input(old(self)@, input@, now).0.fault is None && opt_pairing(p) == after_input(
                    old(self)@,
                    input@,
                    now,
                ).1,
                Err(e) => after_input(old(self)@, input@, now).0.fault == Some(e@),
            },
    {
        let mut input = input;
        if input.id.as_str().is_empty() || input.user.as_str().is_empty() || input.chat.as_str().is_empty() {
            self.settle(&mut input.ack, false);
            return Ok(None);
        }
        if pairing_requested(&input) {
            return Ok(self.handle_pairing(input, now));
        }
        match self.handle_message(input, now) {
            Ok(()) => Ok(None),
            Err(e) => Err(e),
        }
    }
}

} // verus!
