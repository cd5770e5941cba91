//! Cards carry opaque, one-use actions bound to the message actually delivered.
use vstd::prelude::*;
use vstd::string::*;
pub use crate::approval_card::approval;
use crate::lists::{keep, selection_length, selection_maps};
use crate::model::{same_path, Directory, DirectoryText};
use crate::ports::Model;
use crate::requests::{Question, QuestionOption};
use crate::sessions::ListedThread;
use crate::text::{
    begins_with, blank, byte_count, byte_len, contains_control, decimal, decimal_is_injective, decimal_text, has_control, is_blank,
    opt, opt_str,
    same, same_opt, starts_with,
};
use crate::textmap::{kept, order_exists, ordered, TextMap};
use crate::words::is_word;
use crate::view::{buttons_view, Button, ButtonAction, ButtonStyle, ButtonView, Panel, PanelView, Tone};

verus! {

/// An opaque capability: whoever presents it may use what it stands for, once.
#[derive(Debug, PartialEq, Eq)]
pub struct CardToken {
    text: String,
}

impl View for CardToken {
    type V = Seq<char>;

    closed spec fn view(&self) -> Seq<char> {
        self.text@
    }
}

impl CardToken {
    pub fn new(text: String) -> (r: Self)
        ensures
            r@ == text@,
    {
        CardToken { text }
    }

    pub fn as_str(&self) -> (r: &str)
        ensures
            r@ == self@,
    {
        self.text.as_str()
    }
}

impl Clone for CardToken {
    fn clone(&self) -> (r: Self)
        ensures
            r@ == self@,
            r == *self,
    {
        CardToken { text: self.text.clone() }
    }
}

pub struct Click {
    pub token: String,
    pub source: String,
}

pub struct Action {
    pub generation: u64,
    pub user: String,
    pub chat: String,
    pub directory: Directory,
    pub source: String,
    /// Nanoseconds on the monotonic clock.
    pub deadline: u64,
    pub command: String,
    pub stop_snapshot: Option<(u64, Option<String>)>,
}

pub struct Owner {
    pub user: String,
    pub chat: String,
    pub directory: Directory,
    pub generation: u64,
    pub stop_snapshot: (u64, Option<String>),
}

/// How many tasks had been accepted, and which one was running.
pub type SnapshotText = (u64, Option<Seq<char>>);

pub open spec fn snapshot_text(s: (u64, Option<String>)) -> SnapshotText {
    (s.0, opt(s.1))
}

/// An action by its texts.
pub struct ActionText {
    pub generation: u64,
    pub user: Seq<char>,
    pub chat: Seq<char>,
    pub directory: DirectoryText,
    pub source: Seq<char>,
    pub deadline: u64,
    pub command: Seq<char>,
    pub stop_snapshot: Option<SnapshotText>,
}

impl View for Action {
    type V = ActionText;

    open spec fn view(&self) -> ActionText {
        ActionText {
            generation: self.generation,
            user: self.user@,
            chat: self.chat@,
            directory: self.directory@,
            source: self.source@,
            deadline: self.deadline,
            command: self.command@,
            stop_snapshot: match self.stop_snapshot {
                Some(s) => Some(snapshot_text(s)),
                None => None,
            },
        }
    }
}

/// An owner by its texts.
pub struct OwnerText {
    pub user: Seq<char>,
    pub chat: Seq<char>,
    pub directory: DirectoryText,
    pub generation: u64,
    pub stop_snapshot: SnapshotText,
}

impl View for Owner {
    type V = OwnerText;

    open spec fn view(&self) -> OwnerText {
        OwnerText {
            user: self.user@,
            chat: self.chat@,
            directory: self.directory@,
            generation: self.generation,
            stop_snapshot: snapshot_text(self.stop_snapshot),
        }
    }
}

impl Clone for Owner {
    fn clone(&self) -> (r: Self)
        ensures
            r == *self,
    {
        Owner {
            user: self.user.clone(),
            chat: self.chat.clone(),
            directory: self.directory.clone(),
            generation: self.generation,
            stop_snapshot: (self.stop_snapshot.0, self.stop_snapshot.1.clone()),
        }
    }
}

fn snapshots_agree(a: &(u64, Option<String>), b: &(u64, Option<String>)) -> (r: bool)
    ensures
        r == (snapshot_text(*a) == snapshot_text(*b)),
{
    a.0 == b.0 && same_opt(&a.1, &b.1)
}

/// At most this many actions, and this many delivered views, are kept.
pub const REGISTRY_CAPACITY: usize = 1000;

/// Unused actions by their token.
pub struct Actions(TextMap<Action>);

/// The click may use this action now: same user, chat, directory and card,
/// before the deadline, and for a stop button nothing started since.
pub open spec fn usable(
    a: ActionText,
    source: Seq<char>,
    user: Seq<char>,
    chat: Seq<char>,
    directory: DirectoryText,
    now: u64,
    snapshot: SnapshotText,
) -> bool {
    &&& a.user == user
    &&& a.chat == chat
    &&& same_path(a.directory, directory)
    &&& a.source == source
    &&& now < a.deadline
    &&& a.stop_snapshot matches Some(s) ==> s == snapshot
}

/// An action of the plan named by `token`, or of no plan.
pub open spec fn plan_kept(command: Seq<char>, token: Option<Seq<char>>) -> bool {
    !begins_with(command, "/plan-action "@) || (token matches Some(t) && begins_with(
        command,
        "/plan-action "@ + t + " "@,
    ))
}

/// A command that answers the request of `token`.
pub open spec fn answers(command: Seq<char>, token: Seq<char>) -> bool {
    ||| command == "/approve "@ + token
    ||| command == "/deny "@ + token
    ||| begins_with(command, "/choice "@ + token + " "@)
}

/// `m` with all of `entries`; of two entries with one token the later stays.
pub open spec fn extended(m: Map<Seq<char>, ActionText>, entries: Seq<(Seq<char>, ActionText)>) -> Map<Seq<char>, ActionText>
    decreases entries.len(),
{
    if entries.len() == 0 {
        m
    } else {
        extended(m, entries.drop_last()).insert(entries.last().0, entries.last().1)
    }
}

/// Entries by their texts.
pub open spec fn entries_text(entries: Seq<(String, Action)>) -> Seq<(Seq<char>, ActionText)> {
    entries.map_values(|e: (String, Action)| (e.0@, e.1@))
}

/// Actions that have not expired.
pub open spec fn live_actions(actions: Map<Seq<char>, ActionText>, now: u64) -> Map<Seq<char>, ActionText> {
    kept(actions, |k: Seq<char>, a: ActionText| now < a.deadline)
}

/// New actions fit beside those that have not expired.
pub open spec fn actions_fit(actions: Map<Seq<char>, ActionText>, count: nat, now: u64) -> bool {
    live_actions(actions, now).dom().len() + count <= REGISTRY_CAPACITY
}

pub open spec fn actions_after(actions: Map<Seq<char>, ActionText>, entries: Seq<(Seq<char>, ActionText)>, now: u64) -> Map<Seq<char>, ActionText> {
    if actions_fit(actions, entries.len(), now) {
        extended(live_actions(actions, now), entries)
    } else {
        live_actions(actions, now)
    }
}

impl Default for Actions {
    fn default() -> (r: Self)
        ensures
            r.wf(),
            r@ == Map::<Seq<char>, ActionText>::empty(),
    {
        Actions(TextMap::new())
    }
}

impl Actions {
    pub closed spec fn view(&self) -> Map<Seq<char>, ActionText> {
        self.0@
    }

    pub closed spec fn wf(&self) -> bool {
        &&& self.0.wf()
        &&& self.0@.dom().len() <= REGISTRY_CAPACITY
    }

    /// The registry holds a bounded number of actions.
    pub proof fn is_bounded(&self)
        requires
            self.wf(),
        ensures
            self@.dom().finite(),
            self@.dom().len() <= REGISTRY_CAPACITY,
    {
        self.0.keys_enumerate();
    }

    /// The action of a token, if it is still unused.
    pub fn get(&self, token: &str) -> (r: Option<&Action>)
        requires
            self.wf(),
        ensures
            r is Some <==> self@.contains_key(token@),
            r matches Some(a) ==> a@ == self@[token@],
    {
        self.0.get(token)
    }

    fn keep_actions<F: Fn(&String, &Action) -> bool>(&mut self, f: F, Ghost(p): Ghost<spec_fn(Seq<char>, ActionText) -> bool>)
        requires
            old(self).wf(),
            forall|k: &String, v: &Action| #[trigger] call_requires(f, (k, v)),
            forall|k: &String, v: &Action, r: bool| #[trigger] call_ensures(f, (k, v), r) ==> r == p(k@, v@),
        ensures
            final(self).wf(),
            final(self)@ == kept(old(self)@, p),
    {
        proof {
            self.0.keys_enumerate();
            let m = self.0@;
            assert(kept(m, p).dom().subset_of(m.dom()));
            vstd::set_lib::lemma_len_subset(kept(m, p).dom(), m.dom());
        }
        self.0.retain(f, Ghost(p));
    }

    /// Only the plan named by `token` keeps its buttons.
    pub fn retain_plan(&mut self, token: Option<&str>)
        requires
            old(self).wf(),
        ensures
            final(self).wf(),
            final(self)@ == kept(
                old(self)@,
                |k: Seq<char>, a: ActionText| plan_kept(a.command, opt_str(token)),
            ),
    {
        let prefix: Option<String> = match token {
            Some(t) => {
                let mut p = "/plan-action ".to_owned();
                p.append(t);
                p.append(" ");
                Some(p)
            },
            None => None,
        };
        let f = |k: &String, a: &Action| -> (r: bool)
            ensures
                r == plan_kept(a.command@, opt_str(token)),
        {
            if !starts_with(a.command.as_str(), "/plan-action ") {
                true
            } else {
                match &prefix {
                    Some(p) => starts_with(a.command.as_str(), p.as_str()),
                    None => false,
                }
            }
        };
        self.keep_actions(f, Ghost(|k: Seq<char>, a: ActionText| plan_kept(a.command, opt_str(token))));
    }

    /// The buttons that answer the request of `token` are gone.
    pub fn invalidate_approval(&mut self, token: &str)
        requires
            old(self).wf(),
        ensures
            final(self).wf(),
            final(self)@ == kept(old(self)@, |k: Seq<char>, a: ActionText| !answers(a.command, token@)),
    {
        let mut allow = "/approve ".to_owned();
        allow.append(token);
        let mut deny = "/deny ".to_owned();
        deny.append(token);
        let mut choice = "/choice ".to_owned();
        choice.append(token);
        choice.append(" ");
        let f = |k: &String, a: &Action| -> (r: bool)
            ensures
                r == !answers(a.command@, token@),
        {
            !same(a.command.as_str(), allow.as_str()) && !same(a.command.as_str(), deny.as_str()) && !starts_with(
                a.command.as_str(),
                choice.as_str(),
            )
        };
        self.keep_actions(f, Ghost(|k: Seq<char>, a: ActionText| !answers(a.command, token@)));
    }

    /// The buttons of one delivered card are gone.
    pub fn invalidate_source(&mut self, source: &str)
        requires
            old(self).wf(),
        ensures
            final(self).wf(),
            final(self)@ == kept(old(self)@, |k: Seq<char>, a: ActionText| a.source != source@),
    {
        let f = |k: &String, a: &Action| -> (r: bool)
            ensures
                r == (a.source@ != source@),
        { !same(a.source.as_str(), source) };
        self.keep_actions(f, Ghost(|k: Seq<char>, a: ActionText| a.source != source@));
    }

    /// Registers all of a card's actions or, when they do not fit, none.
    /// Expired actions leave either way.
    pub fn insert(&mut self, entries: Vec<(String, Action)>, now: u64) -> (r: bool)
        requires
            old(self).wf(),
        ensures
            final(self).wf(),
            r == actions_fit(old(self)@, entries@.len(), now),
            final(self)@ == actions_after(old(self)@, entries_text(entries@), now),
    {
        let f = |k: &String, a: &Action| -> (r: bool)
            ensures
                r == (now < a.deadline),
        { now < a.deadline };
        self.keep_actions(f, Ghost(|k: Seq<char>, a: ActionText| now < a.deadline));
        let ghost live = self.0@;
        let present: usize = self.0.len();
        if entries.len() > REGISTRY_CAPACITY || present + entries.len() > REGISTRY_CAPACITY {
            return false;
        }
        let ghost all = entries_text(entries@);
        let ghost raw = entries@;
        let mut rest = entries;
        let ghost mut n: int = 0;
        proof {
            assert(raw.skip(0) =~= raw);
            assert(all.take(0) =~= Seq::empty());
        }
        while rest.len() > 0
            invariant
                0 <= n <= all.len(),
                all == entries_text(raw),
                rest@ == raw.skip(n),
                self.0.wf(),
                self.0@ == extended(live, all.take(n)),
                self.0@.dom().finite(),
                self.0@.dom().len() <= present + n,
                present + all.len() <= REGISTRY_CAPACITY,
            decreases rest.len(),
        {
            let (token, action) = rest.remove(0);
            proof {
                assert((token, action) == raw[n]);
                assert(all.take(n + 1).drop_last() =~= all.take(n));
                assert(rest@ =~= raw.skip(n + 1));
                n = n + 1;
            }
            self.0.insert(token, action);
        }
        proof {
            assert(all.take(n) =~= all);
        }
        true
    }

    /// Uses an action up, if the click may use it.
    pub fn take(&mut self, click: &Click, user: &str, chat: &str, directory: &Directory, now: u64, stop_snapshot: &(u64, Option<String>)) -> (r: Option<String>)
        requires
            old(self).wf(),
        ensures
            final(self).wf(),
            r is Some <==> old(self)@.contains_key(click.token@) && usable(
                old(self)@[click.token@],
                click.source@,
                user@,
                chat@,
                directory@,
                now,
                snapshot_text(*stop_snapshot),
            ),
            match r {
                Some(command) => command@ == old(self)@[click.token@].command && final(self)@ == old(self)@.remove(
                    click.token@,
                ),
                None => final(self)@ == old(self)@,
            },
    {
        match self.0.get(click.token.as_str()) {
            None => {
                return None;
            },
            Some(entry) => {
                let stale = match &entry.stop_snapshot {
                    Some(snapshot) => !snapshots_agree(snapshot, stop_snapshot),
                    None => false,
                };
                if !same(entry.user.as_str(), user) || !same(entry.chat.as_str(), chat) || !entry.directory.same(
                    directory,
                ) || !same(entry.source.as_str(), click.source.as_str()) || now >= entry.deadline || stale {
                    return None;
                }
            },
        }
        proof {
            self.0.keys_enumerate();
        }
        match self.0.remove(click.token.as_str()) {
            Some(a) => Some(a.command),
            None => None,
        }
    }

    /// The user's buttons are gone.
    pub fn invalidate(&mut self, user: &str)
        requires
            old(self).wf(),
        ensures
            final(self).wf(),
            final(self)@ == kept(old(self)@, |k: Seq<char>, a: ActionText| a.user != user@),
    {
        let f = |k: &String, a: &Action| -> (r: bool)
            ensures
                r == (a.user@ != user@),
        { !same(a.user.as_str(), user) };
        self.keep_actions(f, Ghost(|k: Seq<char>, a: ActionText| a.user != user@));
    }
}

/// Keep delivered views until all their actions have disappeared. Updates are
/// serialized by the runtime, so an older snapshot cannot restore a button.
pub struct Views(TextMap<Panel>);

impl Default for Views {
    fn default() -> (r: Self)
        ensures
            r.wf(),
            r@ == Map::<Seq<char>, PanelView>::empty(),
    {
        let r = Views(TextMap::new());
        proof {
            assert(r@ =~= Map::<Seq<char>, PanelView>::empty());
        }
        r
    }
}

/// A button that can still be used.
pub open spec fn is_live(b: ButtonView, source: Seq<char>, actions: Map<Seq<char>, ActionText>, now: u64, snapshot: SnapshotText) -> bool {
    &&& actions.contains_key(b.token)
    &&& actions[b.token].source == source
    &&& now < actions[b.token].deadline
    &&& actions[b.token].stop_snapshot matches Some(s) ==> s == snapshot
}

/// The buttons of a delivered panel that can still be used.
pub open spec fn live_buttons(p: PanelView, source: Seq<char>, actions: Map<Seq<char>, ActionText>, now: u64, snapshot: SnapshotText) -> Seq<ButtonView> {
    p.buttons.filter(|b: ButtonView| is_live(b, source, actions, now, snapshot))
}

/// The delivered panel shows a button that cannot be used any more.
pub open spec fn outdated(p: PanelView, source: Seq<char>, actions: Map<Seq<char>, ActionText>, now: u64, snapshot: SnapshotText) -> bool {
    exists|i: int| 0 <= i < p.buttons.len() && !is_live(#[trigger] p.buttons[i], source, actions, now, snapshot)
}

/// The first delivered card, in source order, that is outdated.
pub open spec fn first_outdated(views: Map<Seq<char>, PanelView>, actions: Map<Seq<char>, ActionText>, now: u64, snapshot: SnapshotText) -> Option<Seq<char>> {
    let found = ordered(views.dom()).filter(|k: Seq<char>| outdated(views[k], k, actions, now, snapshot));
    if found.len() == 0 {
        None
    } else {
        Some(found[0])
    }
}

/// The card as it is shown after the update: without dead buttons.
pub open spec fn updated_panel(p: PanelView, live: Seq<ButtonView>) -> PanelView {
    PanelView { body: p.body + update_note(live.len() > 0), buttons: live, ..p }
}

/// The views after the update of `source`: dead buttons leave, and a view
/// without buttons leaves too.
pub open spec fn updated_views(views: Map<Seq<char>, PanelView>, source: Seq<char>, live: Seq<ButtonView>) -> Map<Seq<char>, PanelView> {
    if live.len() > 0 {
        views.insert(source, PanelView { buttons: live, ..views[source] })
    } else {
        views.remove(source)
    }
}

/// A note was appended to a delivered card.
pub open spec fn noted(views: Map<Seq<char>, PanelView>, source: Seq<char>, text: Seq<char>) -> Map<Seq<char>, PanelView> {
    if views.contains_key(source) {
        let p = views[source];
        views.insert(source, PanelView { body: p.body + "\n\n"@ + text, ..p })
    } else {
        views
    }
}

pub open spec fn update_note(buttons_left: bool) -> Seq<char> {
    if buttons_left {
        "\n\n已移除使用过或失效的按钮；操作结果请查看单独回复。"@
    } else {
        "\n\n本卡片按钮均已使用或失效。请重新发送对应列表命令或 /help。"@
    }
}

impl Views {
    pub closed spec fn view(&self) -> Map<Seq<char>, PanelView> {
        self.0@
    }

    pub closed spec fn wf(&self) -> bool {
        &&& self.0.wf()
        &&& self.0@.dom().len() <= REGISTRY_CAPACITY
    }

    /// The registry holds a bounded number of views.
    pub proof fn is_bounded(&self)
        requires
            self.wf(),
        ensures
            self@.dom().finite(),
            self@.dom().len() <= REGISTRY_CAPACITY,
    {
        self.0.keys_enumerate();
        assert(self@.dom() =~= self.0@.dom());
    }

    /// Appends a note to a delivered view's body.
    pub fn note(&mut self, source: &str, text: &str)
        requires
            old(self).wf(),
        ensures
            final(self).wf(),
            final(self)@ == noted(old(self)@, source@, text@),
    {
        proof {
            self.0.keys_enumerate();
        }
        match self.0.get_mut(source) {
            Some(panel) => {
                panel.body.append("\n\n");
                panel.body.append(text);
            },
            None => {},
        }
        proof {
            self.0.keys_enumerate();
            if old(self)@.contains_key(source@) {
                let p = old(self)@[source@];
                assert(self@ =~= old(self)@.insert(source@, PanelView { body: p.body + "\n\n"@ + text@, ..p }));
            }
        }
    }

    pub fn is_list(&self, source: &str) -> (r: bool)
        requires
            self.wf(),
        ensures
            r == (self@.contains_key(source@) && ({
                let title = self@[source@].title;
                title == "最近会话"@ || title == "已归档会话"@ || title == "可用模型"@
            })),
    {
        match self.0.get(source) {
            Some(panel) => same(panel.title.as_str(), "最近会话") || same(panel.title.as_str(), "已归档会话") || same(
                panel.title.as_str(),
                "可用模型",
            ),
            None => false,
        }
    }

    pub fn remove(&mut self, source: &str)
        requires
            old(self).wf(),
        ensures
            final(self).wf(),
            final(self)@ == old(self)@.remove(source@),
    {
        proof {
            self.0.keys_enumerate();
        }
        self.0.remove(source);
        proof {
            assert(self@ =~= old(self)@.remove(source@));
        }
    }

    /// Only a panel with buttons is kept, and only while there is room.
    pub fn insert(&mut self, source: String, panel: Panel)
        requires
            old(self).wf(),
        ensures
            final(self).wf(),
            final(self)@ == if panel@.buttons.len() > 0 && old(self)@.dom().len() < REGISTRY_CAPACITY {
                old(self)@.insert(source@, panel@)
            } else {
                old(self)@
            },
    {
        proof {
            assert(self@.dom() =~= self.0@.dom());
        }
        if panel.buttons.len() > 0 && self.0.len() < REGISTRY_CAPACITY {
            self.0.insert(source, panel);
            proof {
                assert(self@ =~= old(self)@.insert(source@, panel@));
            }
        }
    }

    /// The first delivered view, in source order, that shows a button which can
    /// no longer be used: the update to send. Used-up buttons leave the stored
    /// view, and the view leaves once it has none.
    pub fn next_update(&mut self, actions: &Actions, now: u64, snapshot: &(u64, Option<String>)) -> (r: Option<(String, Panel)>)
        requires
            old(self).wf(),
            actions.wf(),
        ensures
            final(self).wf(),
            match first_outdated(old(self)@, actions@, now, snapshot_text(*snapshot)) {
                None => r is None && final(self)@ == old(self)@,
                Some(k) => {
                    let p = old(self)@[k];
                    let live = live_buttons(p, k, actions@, now, snapshot_text(*snapshot));
                    &&& old(self)@.contains_key(k)
                    &&& r matches Some(update) && update.0@ == k && update.1@ == updated_panel(p, live)
                    &&& final(self)@ == updated_views(old(self)@, k, live)
                },
            },
    {
        let ghost dead = |k: Seq<char>| outdated(self@[k], k, actions@, now, snapshot_text(*snapshot));
        proof {
            self.0.keys_enumerate();
            assert(self@.dom() =~= self.0@.dom());
            self.0.keys_are_ordered();
        }
        let total: usize = self.0.len();
        let mut i: usize = 0;
        while i < total
            invariant
                *self == *old(self),
                self.wf(),
                actions.wf(),
                total == self.0.keys().len(),
                i <= total,
                self@.dom() == self.0@.dom(),
                self.0.keys() == ordered(self@.dom()),
                dead == (|k: Seq<char>| outdated(self@[k], k, actions@, now, snapshot_text(*snapshot))),
                forall|n: int| 0 <= n < self.0.keys().len() ==> self.0@.contains_key(#[trigger] self.0.keys()[n]),
                forall|j: int| 0 <= j < i ==> !outdated(self@[#[trigger] self.0.keys()[j]], self.0.keys()[j], actions@, now, snapshot_text(*snapshot)),
            decreases total - i,
        {
            let source = self.0.key_at(i).clone();
            if Self::needs_update(self.0.value_at(i), source.as_str(), actions, now, snapshot) {
                proof {
                    crate::lists::first_selected(self.0.keys(), dead, i as int);
                }
                let update = self.update_view(source, actions, now, snapshot);
                return Some(update);
            }
            i = i + 1;
        }
        proof {
            crate::lists::none_selected(self.0.keys(), dead);
        }
        None
    }

    fn button_is_live(button: &Button, source: &str, actions: &Actions, now: u64, snapshot: &(u64, Option<String>)) -> (r: bool)
        requires
            actions.wf(),
        ensures
            r == is_live(button@, source@, actions@, now, snapshot_text(*snapshot)),
    {
        match &button.action {
            ButtonAction::Interaction { token, .. } => match actions.get(token.as_str()) {
                Some(a) => same(a.source.as_str(), source) && now < a.deadline && match &a.stop_snapshot {
                    Some(s) => snapshots_agree(s, snapshot),
                    None => true,
                },
                None => false,
            },
        }
    }

    fn needs_update(panel: &Panel, source: &str, actions: &Actions, now: u64, snapshot: &(u64, Option<String>)) -> (r: bool)
        requires
            actions.wf(),
        ensures
            r == outdated(panel@, source@, actions@, now, snapshot_text(*snapshot)),
    {
        let mut i: usize = 0;
        while i < panel.buttons.len()
            invariant
                actions.wf(),
                i <= panel.buttons@.len(),
                forall|j: int| 0 <= j < i ==> is_live(#[trigger] panel@.buttons[j], source@, actions@, now, snapshot_text(*snapshot)),
            decreases panel.buttons.len() - i,
        {
            if !Self::button_is_live(&panel.buttons[i], source, actions, now, snapshot) {
                assert(!is_live(panel@.buttons[i as int], source@, actions@, now, snapshot_text(*snapshot)));
                return true;
            }
            i = i + 1;
        }
        false
    }

    fn update_view(&mut self, source: String, actions: &Actions, now: u64, snapshot: &(u64, Option<String>)) -> (r: (String, Panel))
        requires
            old(self).wf(),
            actions.wf(),
            old(self)@.contains_key(source@),
        ensures
            final(self).wf(),
            r.0@ == source@,
            ({
                let k = source@;
                let p = old(self)@[k];
                let live = live_buttons(p, k, actions@, now, snapshot_text(*snapshot));
                &&& r.1@ == updated_panel(p, live)
                &&& final(self)@ == updated_views(old(self)@, k, live)
            }),
    {
        let ghost k = source@;
        let ghost before = self.0@;
        proof {
            self.0.keys_enumerate();
        }
        let taken = self.0.remove(source.as_str());
        let mut panel = match taken {
            Some(p) => p,
            None => Panel { title: String::new(), body: String::new(), tone: crate::view::Tone::Info, buttons: Vec::new() },
        };
        let ghost shown = panel.buttons@;
        let ghost alive = |b: Button| is_live(b@, k, actions@, now, snapshot_text(*snapshot));
        let f = |b: &Button| -> (r: bool)
            ensures
                r == is_live(b@, source@, actions@, now, snapshot_text(*snapshot)),
        { Self::button_is_live(b, source.as_str(), actions, now, snapshot) };
        keep(&mut panel.buttons, f, Ghost(alive));
        proof {
            selection_maps(shown, alive, |b: Button| b@, |b: ButtonView| is_live(b, k, actions@, now, snapshot_text(*snapshot)));
        }
        let mut updated = panel.clone();
        if panel.buttons.len() == 0 {
            updated.body.append("\n\n本卡片按钮均已使用或失效。请重新发送对应列表命令或 /help。");
            proof {
                assert(self@ =~= old(self)@.remove(k));
            }
        } else {
            updated.body.append("\n\n已移除使用过或失效的按钮；操作结果请查看单独回复。");
            let key = source.clone();
            let ghost stored = panel@;
            self.0.insert(key, panel);
            proof {
                assert(self.0@.dom() =~= before.dom());
                assert(self@ =~= old(self)@.insert(k, stored));
            }
        }
        (source, updated)
    }

    pub fn is_empty(&self) -> (r: bool)
        requires
            self.wf(),
        ensures
            r == (self@.dom().len() == 0),
    {
        proof {
            assert(self@.dom() =~= self.0@.dom());
        }
        self.0.len() == 0
    }
}

/// A token works once: after it was used, no click can use it again.
pub proof fn token_works_once(m: Map<Seq<char>, ActionText>, token: Seq<char>)
    ensures
        !m.remove(token).contains_key(token),
{
}

/// An update never brings a button back: what a view shows afterwards is a
/// selection of what it showed, and every button in it can be used.
pub proof fn updates_only_remove(p: PanelView, source: Seq<char>, actions: Map<Seq<char>, ActionText>, now: u64, snapshot: SnapshotText)
    ensures
        ({
            let live = live_buttons(p, source, actions, now, snapshot);
            &&& forall|i: int|
                0 <= i < live.len() ==> p.buttons.contains(#[trigger] live[i]) && is_live(
                    live[i],
                    source,
                    actions,
                    now,
                    snapshot,
                )
            &&& live.len() <= p.buttons.len()
            &&& live.len() < p.buttons.len() <==> outdated(p, source, actions, now, snapshot)
            &&& !outdated(PanelView { buttons: live, ..p }, source, actions, now, snapshot)
        }),
{
    let q = |b: ButtonView| is_live(b, source, actions, now, snapshot);
    selection_length(p.buttons, q);
    let live = live_buttons(p, source, actions, now, snapshot);
    assert forall|i: int| 0 <= i < live.len() implies p.buttons.contains(#[trigger] live[i]) && q(live[i]) by {
        crate::lists::selected(p.buttons, q, i);
    }
    if live.len() < p.buttons.len() {
        let i = choose|i: int| 0 <= i < p.buttons.len() && !q(#[trigger] p.buttons[i]);
        assert(!is_live(p.buttons[i], source, actions, now, snapshot));
    }
}

/// The token of a card's button: the card's prefix and the button's number.
pub open spec fn button_token(prefix: Seq<char>, index: nat) -> Seq<char> {
    prefix + "-"@ + decimal(index)
}

/// The heading under which a button stands; a lone button and the stop button have none.
pub open spec fn button_group(index: nat, grouped: bool, command: Seq<char>) -> Option<Seq<char>> {
    if !grouped || command == "/stop"@ {
        None
    } else {
        Some(
            if index < 2 {
                "导航"@
            } else if index < 4 {
                "会话"@
            } else if index < 6 {
                "设置"@
            } else if index < 8 {
                "任务"@
            } else {
                "更多"@
            },
        )
    }
}

/// The button for a label and the command that it runs.
pub open spec fn command_button(entry: (Seq<char>, Seq<char>), index: nat, grouped: bool, prefix: Seq<char>) -> ButtonView {
    ButtonView {
        label: entry.0,
        description: None,
        section: None,
        group: button_group(index, grouped, entry.1),
        separate: entry.1 == "/stop"@,
        style: if entry.1 == "/stop"@ {
            ButtonStyle::Destructive
        } else {
            ButtonStyle::Default
        },
        token: button_token(prefix, index),
        choice: "run"@,
    }
}

/// The card of a list of labelled commands.
pub open spec fn command_panel(title: Seq<char>, body: Seq<char>, entries: Seq<(Seq<char>, Seq<char>)>, prefix: Seq<char>) -> PanelView {
    PanelView {
        title,
        body,
        tone: Tone::Info,
        buttons: Seq::new(entries.len(), |i: int| command_button(entries[i], i as nat, entries.len() > 1, prefix)),
    }
}

/// Which command each token of the card runs.
pub open spec fn card_commands(entries: Seq<(Seq<char>, Seq<char>)>, prefix: Seq<char>) -> Seq<(Seq<char>, Seq<char>)> {
    Seq::new(entries.len(), |i: int| (button_token(prefix, i as nat), entries[i].1))
}

/// Pairs of texts by their contents.
pub open spec fn pairs(v: Seq<(String, String)>) -> Seq<(Seq<char>, Seq<char>)> {
    v.map_values(|e: (String, String)| (e.0@, e.1@))
}

fn offer(entries: &mut Vec<(String, String)>, label: String, command: String)
    ensures
        pairs(final(entries)@) == pairs(old(entries)@).push((label@, command@)),
{
    entries.push((label, command));
    proof {
        assert(pairs(entries@) =~= pairs(old(entries)@).push((label@, command@)));
    }
}

fn token_text(prefix: &str, index: usize) -> (r: String)
    ensures
        r@ == button_token(prefix@, index as nat),
{
    let mut t = prefix.to_owned();
    t.append("-");
    t.append(decimal_text(index as u64).as_str());
    t
}

/// Builds a card: one button per labelled command, and the token of each.
pub fn panel(title: &str, body: String, buttons: Vec<(String, String)>, prefix: &str) -> (r: (Panel, Vec<(String, String)>))
    ensures
        r.0@ == command_panel(title@, body@, pairs(buttons@), prefix@),
        pairs(r.1@) == card_commands(pairs(buttons@), prefix@),
{
    let ghost entries = pairs(buttons@);
    let grouped = buttons.len() > 1;
    let mut actions: Vec<(String, String)> = Vec::new();
    let mut out: Vec<Button> = Vec::new();
    let mut index: usize = 0;
    proof {
        assert(buttons_view(out@) =~= command_panel(title@, body@, entries, prefix@).buttons.take(0));
        assert(pairs(actions@) =~= card_commands(entries, prefix@).take(0));
    }
    while index < buttons.len()
        invariant
            index <= buttons@.len(),
            entries == pairs(buttons@),
            grouped == (entries.len() > 1),
            buttons_view(out@) == command_panel(title@, body@, entries, prefix@).buttons.take(index as int),
            pairs(actions@) == card_commands(entries, prefix@).take(index as int),
        decreases buttons.len() - index,
    {
        let ghost full = command_panel(title@, body@, entries, prefix@).buttons;
        let ghost all = card_commands(entries, prefix@);
        let ghost before = out@;
        let token = token_text(prefix, index);
        let label = buttons[index].0.clone();
        let command = buttons[index].1.clone();
        let stop = same(command.as_str(), "/stop");
        let group: Option<String> = if !grouped || stop {
            None
        } else if index < 2 {
            Some("导航".to_owned())
        } else if index < 4 {
            Some("会话".to_owned())
        } else if index < 6 {
            Some("设置".to_owned())
        } else if index < 8 {
            Some("任务".to_owned())
        } else {
            Some("更多".to_owned())
        };
        offer(&mut actions, token.clone(), command);
        out.push(
            Button {
                label,
                description: None,
                section: None,
                group,
                separate: stop,
                style: if stop {
                    ButtonStyle::Destructive
                } else {
                    ButtonStyle::Default
                },
                action: ButtonAction::Interaction { token, choice: "run".to_owned() },
            },
        );
        proof {
            assert(out@.last()@ == full[index as int]);
            assert(buttons_view(out@) =~= buttons_view(before).push(out@.last()@));
            assert(full.take(index + 1) =~= full.take(index as int).push(full[index as int]));
            assert(all.take(index + 1) =~= all.take(index as int).push(all[index as int]));
        }
        index = index + 1;
    }
    let r = Panel { title: title.to_owned(), body, tone: Tone::Info, buttons: out };
    proof {
        let full = command_panel(title@, body@, entries, prefix@).buttons;
        assert(full.take(index as int) =~= full);
        let all = card_commands(entries, prefix@);
        assert(all.take(index as int) =~= all);
        assert(r@ =~= command_panel(title@, body@, entries, prefix@));
    }
    (r, actions)
}

/// The same card with its buttons under no heading.
pub open spec fn ungrouped(p: PanelView) -> PanelView {
    PanelView { buttons: p.buttons.map_values(|b: ButtonView| ButtonView { group: None, ..b }), ..p }
}

fn ungroup(card: &mut Panel)
    ensures
        final(card)@ == ungrouped(old(card)@),
{
    let ghost o = card.buttons@;
    let mut i: usize = 0;
    while i < card.buttons.len()
        invariant
            i <= card.buttons@.len() == o.len(),
            card.title == old(card).title,
            card.body == old(card).body,
            card.tone == old(card).tone,
            o == old(card).buttons@,
            forall|j: int| 0 <= j < i ==> (#[trigger] card.buttons@[j])@ == (ButtonView { group: None, ..o[j]@ }),
            forall|j: int| i <= j < o.len() ==> #[trigger] card.buttons@[j] == o[j],
        decreases card.buttons.len() - i,
    {
        card.buttons[i].group = None;
        i = i + 1;
    }
    proof {
        assert(card@ =~= ungrouped(old(card)@));
    }
}

/// The entries of the help card.
pub open spec fn help_entries() -> Seq<(Seq<char>, Seq<char>)> {
    seq![
        ("状态 /status"@, "/status"@),
        ("目录 /cd"@, "/cd"@),
        ("恢复 /resume"@, "/resume"@),
        ("新建 /new"@, "/new"@),
        ("模型 /models"@, "/models"@),
        ("Plan /plan"@, "/plan"@),
        ("压缩 /compact"@, "/compact"@),
        ("刷新 /help"@, "/help"@),
        ("停止 /stop"@, "/stop"@),
    ]
}

pub open spec fn help_body() -> Seq<char> {
    "发送文本开始任务。按钮限本人在当前聊天和目录使用，10 分钟内有效，每个按钮可执行一次；失效后重新发送 /help。\n/cd <路径> 切换目录，不存在时请求创建确认。\n/cd-confirm <编号> 确认创建。\n/archive <ID>、/archived、/unarchive <ID> 管理归档。\n/model [ID|default] 设置模型；/plan [on|off] 设置计划模式。\n目录和设置修改需全局空闲。"@
}

/// The control panel.
pub fn help(prefix: &str) -> (r: (Panel, Vec<(String, String)>))
    ensures
        r.0@ == command_panel("Codex 控制面板"@, help_body(), help_entries(), prefix@),
        pairs(r.1@) == card_commands(help_entries(), prefix@),
{
    let mut entries: Vec<(String, String)> = Vec::new();
    proof {
        assert(pairs(entries@) =~= Seq::empty());
    }
    offer(&mut entries, "状态 /status".to_owned(), "/status".to_owned());
    offer(&mut entries, "目录 /cd".to_owned(), "/cd".to_owned());
    offer(&mut entries, "恢复 /resume".to_owned(), "/resume".to_owned());
    offer(&mut entries, "新建 /new".to_owned(), "/new".to_owned());
    offer(&mut entries, "模型 /models".to_owned(), "/models".to_owned());
    offer(&mut entries, "Plan /plan".to_owned(), "/plan".to_owned());
    offer(&mut entries, "压缩 /compact".to_owned(), "/compact".to_owned());
    offer(&mut entries, "刷新 /help".to_owned(), "/help".to_owned());
    offer(&mut entries, "停止 /stop".to_owned(), "/stop".to_owned());
    proof {
        assert(pairs(entries@) =~= help_entries());
    }
    panel(
        "Codex 控制面板",
        "发送文本开始任务。按钮限本人在当前聊天和目录使用，10 分钟内有效，每个按钮可执行一次；失效后重新发送 /help。\n/cd <路径> 切换目录，不存在时请求创建确认。\n/cd-confirm <编号> 确认创建。\n/archive <ID>、/archived、/unarchive <ID> 管理归档。\n/model [ID|default] 设置模型；/plan [on|off] 设置计划模式。\n目录和设置修改需全局空闲。".to_owned(),
        entries,
        prefix,
    )
}

pub open spec fn thread_title(t: ListedThread) -> Seq<char> {
    if t.title@.len() == 0 {
        "未命名会话"@
    } else {
        t.title@
    }
}

/// The command that opens a listed thread.
pub open spec fn open_command(archived: bool) -> Seq<char> {
    if archived {
        "/unarchive"@
    } else {
        "/resume"@
    }
}

/// The list's body up to its last thread.
pub open spec fn thread_lines(entries: Seq<ListedThread>, archived: bool) -> Seq<char>
    decreases entries.len(),
{
    if entries.len() == 0 {
        "最多 8 项；按钮限本人在当前聊天和目录使用，10 分钟有效，每个按钮一次。\n"@
    } else {
        let t = entries.last();
        let shown = thread_lines(entries.drop_last(), archived) + "\n"@ + decimal(entries.len()) + ". "@ + thread_title(t)
            + (if t.active {
            "（执行中）"@
        } else {
            ""@
        }) + "\n"@ + t.id@ + "\n"@ + open_command(archived) + " "@ + t.id@ + "\n"@;
        if archived {
            shown
        } else {
            shown + "/archive "@ + t.id@ + "\n"@
        }
    }
}

/// The list's body.
pub open spec fn threads_body(entries: Seq<ListedThread>, archived: bool) -> Seq<char> {
    if entries.len() > 0 {
        thread_lines(entries, archived)
    } else if archived {
        thread_lines(entries, archived) + "当前目录没有已归档会话。"@
    } else {
        thread_lines(entries, archived) + "当前目录没有可恢复的会话。"@
    }
}

/// The buttons of the listed threads.
pub open spec fn thread_entries(entries: Seq<ListedThread>, archived: bool) -> Seq<(Seq<char>, Seq<char>)>
    decreases entries.len(),
{
    if entries.len() == 0 {
        Seq::empty()
    } else {
        let before = thread_entries(entries.drop_last(), archived);
        let number = decimal(entries.len());
        let id = entries.last().id@;
        if archived {
            before.push((number + ". "@ + "取消归档"@, "/unarchive"@ + " "@ + id))
        } else {
            before.push((number + ". "@ + "恢复会话"@, "/resume"@ + " "@ + id)).push(
                (number + ". 归档会话"@, "/archive "@ + id),
            )
        }
    }
}

/// All buttons of the list: the threads, a refresh and the other list.
pub open spec fn list_entries_of(entries: Seq<ListedThread>, archived: bool) -> Seq<(Seq<char>, Seq<char>)> {
    thread_entries(entries, archived).push(
        (
            "刷新列表"@,
            if archived {
                "/archived"@
            } else {
                "/resume"@
            },
        ),
    ).push(
        if archived {
            ("查看最近会话"@, "/resume"@)
        } else {
            ("查看已归档会话"@, "/archived"@)
        },
    )
}

/// The card of a thread list.
pub fn threads(entries: &Vec<ListedThread>, archived: bool, prefix: &str) -> (r: (Panel, Vec<(String, String)>))
    ensures
        r.0@ == ungrouped(
            command_panel(
                if archived {
                    "已归档会话"@
                } else {
                    "最近会话"@
                },
                threads_body(entries@, archived),
                list_entries_of(entries@, archived),
                prefix@,
            ),
        ),
        pairs(r.1@) == card_commands(list_entries_of(entries@, archived), prefix@),
{
    let mut body = "最多 8 项；按钮限本人在当前聊天和目录使用，10 分钟有效，每个按钮一次。\n".to_owned();
    let mut buttons: Vec<(String, String)> = Vec::new();
    let action: &str = if archived {
        "/unarchive"
    } else {
        "/resume"
    };
    let mut index: usize = 0;
    proof {
        assert(pairs(buttons@) =~= Seq::empty());
        assert(entries@.take(0) =~= Seq::empty());
    }
    while index < entries.len()
        invariant
            index <= entries@.len(),
            action@ == open_command(archived),
            body@ == thread_lines(entries@.take(index as int), archived),
            pairs(buttons@) == thread_entries(entries@.take(index as int), archived),
        decreases entries.len() - index,
    {
        let entry = &entries[index];
        proof {
            assert(entries@.take(index + 1).drop_last() =~= entries@.take(index as int));
        }
        let number = decimal_text(index as u64 + 1);
        body.append("\n");
        body.append(number.as_str());
        body.append(". ");
        if entry.title.as_str().is_empty() {
            body.append("未命名会话");
        } else {
            body.append(entry.title.as_str());
        }
        if entry.active {
            body.append("（执行中）");
        } else {
            body.append("");
        }
        body.append("\n");
        body.append(entry.id.as_str());
        body.append("\n");
        body.append(action);
        body.append(" ");
        body.append(entry.id.as_str());
        body.append("\n");
        let mut label = number.clone();
        label.append(". ");
        let mut command = action.to_owned();
        command.append(" ");
        command.append(entry.id.as_str());
        if archived {
            label.append("取消归档");
            offer(&mut buttons, label, command);
        } else {
            label.append("恢复会话");
            offer(&mut buttons, label, command);
            body.append("/archive ");
            body.append(entry.id.as_str());
            body.append("\n");
            let mut store = number.clone();
            store.append(". 归档会话");
            let mut archive = "/archive ".to_owned();
            archive.append(entry.id.as_str());
            offer(&mut buttons, store, archive);
        }
        index = index + 1;
    }
    proof {
        assert(entries@.take(index as int) =~= entries@);
    }
    if entries.len() == 0 {
        if archived {
            body.append("当前目录没有已归档会话。");
        } else {
            body.append("当前目录没有可恢复的会话。");
        }
    }
    if archived {
        offer(&mut buttons, "刷新列表".to_owned(), "/archived".to_owned());
        offer(&mut buttons, "查看最近会话".to_owned(), "/resume".to_owned());
    } else {
        offer(&mut buttons, "刷新列表".to_owned(), "/resume".to_owned());
        offer(&mut buttons, "查看已归档会话".to_owned(), "/archived".to_owned());
    }
    let (mut card, commands) = panel(
        if archived {
            "已归档会话"
        } else {
            "最近会话"
        },
        body,
        buttons,
        prefix,
    );
    ungroup(&mut card);
    (card, commands)
}

/// A model id that can be shown and selected.
pub open spec fn listable(id: Seq<char>) -> bool {
    id.len() > 0 && byte_count(id) <= 256 && !has_control(id)
}

pub open spec fn model_entry(m: Model, current: Option<Seq<char>>) -> (Seq<char>, Seq<char>) {
    (
        m.id@ + (if current == Some(m.id@) {
            "（已选择）"@
        } else if m.is_default {
            "（默认）"@
        } else {
            ""@
        }),
        "/model "@ + m.id@,
    )
}

/// The buttons of the listable models.
pub open spec fn model_entries(models: Seq<Model>, current: Option<Seq<char>>) -> Seq<(Seq<char>, Seq<char>)>
    decreases models.len(),
{
    if models.len() == 0 {
        Seq::empty()
    } else {
        let before = model_entries(models.drop_last(), current);
        if listable(models.last().id@) {
            before.push(model_entry(models.last(), current))
        } else {
            before
        }
    }
}

pub open spec fn first_models(models: Seq<Model>) -> Seq<Model> {
    models.take(
        if models.len() < 20 {
            models.len() as int
        } else {
            20
        },
    )
}

pub open spec fn models_entries_of(models: Seq<Model>, current: Option<Seq<char>>) -> Seq<(Seq<char>, Seq<char>)> {
    model_entries(first_models(models), current).push(("恢复 Codex 默认模型"@, "/model default"@)).push(
        ("刷新模型列表"@, "/models"@),
    )
}

pub open spec fn models_body(current: Option<Seq<char>>) -> Seq<char> {
    "当前模型："@ + (match current {
        Some(id) => id,
        None => "Codex 默认"@,
    }) + "。全局空闲时可修改，保存成功后回复确认。\n按钮限本人在当前聊天和目录使用，10 分钟有效，每个按钮一次。"@
}

/// The card of the first twenty models.
pub fn models(available: &Vec<Model>, current: Option<&str>, prefix: &str) -> (r: (Panel, Vec<(String, String)>))
    ensures
        r.0@ == ungrouped(
            command_panel("可用模型"@, models_body(opt_str(current)), models_entries_of(available@, opt_str(current)), prefix@),
        ),
        pairs(r.1@) == card_commands(models_entries_of(available@, opt_str(current)), prefix@),
{
    let mut buttons: Vec<(String, String)> = Vec::new();
    let shown: usize = if available.len() < 20 {
        available.len()
    } else {
        20
    };
    let mut i: usize = 0;
    proof {
        assert(pairs(buttons@) =~= Seq::empty());
        assert(available@.take(0) =~= Seq::empty());
    }
    while i < shown
        invariant
            i <= shown <= available@.len(),
            pairs(buttons@) == model_entries(available@.take(i as int), opt_str(current)),
        decreases shown - i,
    {
        let model = &available[i];
        proof {
            assert(available@.take(i + 1).drop_last() =~= available@.take(i as int));
        }
        if !model.id.as_str().is_empty() && byte_len(model.id.as_str()) <= 256 && !contains_control(model.id.as_str()) {
            let chosen = match current {
                Some(c) => same(c, model.id.as_str()),
                None => false,
            };
            let mut label = model.id.clone();
            if chosen {
                label.append("（已选择）");
            } else if model.is_default {
                label.append("（默认）");
            } else {
                label.append("");
            }
            let mut command = "/model ".to_owned();
            command.append(model.id.as_str());
            offer(&mut buttons, label, command);
        }
        i = i + 1;
    }
    offer(&mut buttons, "恢复 Codex 默认模型".to_owned(), "/model default".to_owned());
    offer(&mut buttons, "刷新模型列表".to_owned(), "/models".to_owned());
    let mut body = "当前模型：".to_owned();
    match current {
        Some(c) => body.append(c),
        None => body.append("Codex 默认"),
    }
    body.append("。全局空闲时可修改，保存成功后回复确认。\n按钮限本人在当前聊天和目录使用，10 分钟有效，每个按钮一次。");
    let (mut card, commands) = panel("可用模型", body, buttons, prefix);
    ungroup(&mut card);
    (card, commands)
}

/// The bytes of all labels and descriptions.
pub open spec fn option_bytes(options: Seq<QuestionOption>) -> nat
    decreases options.len(),
{
    if options.len() == 0 {
        0
    } else {
        option_bytes(options.drop_last()) + byte_count(options.last().label@) + byte_count(options.last().description@)
    }
}

/// The question can be shown completely on one card.
pub open spec fn supported(q: Question) -> bool {
    &&& q.options@.len() <= 20
    &&& !blank(q.text@)
    &&& q.secret || forall|i: int| 0 <= i < q.options@.len() ==> !blank((#[trigger] q.options@[i]).label@)
    &&& byte_count(q.text@) + byte_count(q.header@) + option_bytes(q.options@) <= 16000
}

proof fn option_bytes_grow(options: Seq<QuestionOption>, i: int)
    requires
        0 <= i <= options.len(),
    ensures
        option_bytes(options.take(i)) <= option_bytes(options),
    decreases options.len(),
{
    if i < options.len() {
        option_bytes_grow(options.drop_last(), i);
        assert(options.drop_last().take(i) =~= options.take(i));
    } else {
        assert(options.take(i) =~= options);
    }
}

/// One question per card; opaque commands carry indices, never answer text.
pub fn question_supported(question: &Question) -> (r: bool)
    ensures
        r == supported(*question),
{
    if question.options.len() > 20 || is_blank(question.text.as_str()) {
        return false;
    }
    let text: usize = byte_len(question.text.as_str());
    let header: usize = byte_len(question.header.as_str());
    if text > 16000 || header > 16000 - text {
        return false;
    }
    let mut sum: usize = text + header;
    let mut i: usize = 0;
    proof {
        assert(question.options@.take(0) =~= Seq::empty());
    }
    while i < question.options.len()
        invariant
            i <= question.options@.len(),
            sum <= 16000,
            sum == byte_count(question.text@) + byte_count(question.header@) + option_bytes(question.options@.take(i as int)),
            !question.secret ==> forall|j: int| 0 <= j < i ==> !blank((#[trigger] question.options@[j]).label@),
        decreases question.options.len() - i,
    {
        let option = &question.options[i];
        let label: usize = byte_len(option.label.as_str());
        let description: usize = byte_len(option.description.as_str());
        proof {
            assert(question.options@.take(i + 1).drop_last() =~= question.options@.take(i as int));
            option_bytes_grow(question.options@, i + 1);
        }
        if !question.secret && is_blank(option.label.as_str()) {
            return false;
        }
        if label > 16000 - sum || description > 16000 - sum - label {
            return false;
        }
        sum = sum + label + description;
        i = i + 1;
    }
    proof {
        assert(question.options@.take(i as int) =~= question.options@);
    }
    true
}

/// The text and buttons of the options shown so far.
pub open spec fn option_lines(start: Seq<char>, options: Seq<QuestionOption>) -> Seq<char>
    decreases options.len(),
{
    if options.len() == 0 {
        start
    } else {
        option_lines(start, options.drop_last()) + "\n"@ + decimal(options.len()) + ". "@ + options.last().label@ + "\n"@
            + options.last().description@ + "\n"@
    }
}

/// The command that answers question `index` of the request of `token`.
pub open spec fn choice_command(token: Seq<char>, index: nat, answer: Seq<char>) -> Seq<char> {
    "/choice "@ + token + " "@ + decimal(index) + " "@ + answer
}

pub open spec fn option_entries(count: nat, token: Seq<char>, index: nat) -> Seq<(Seq<char>, Seq<char>)> {
    Seq::new(
        count,
        |i: int| ("选择 "@ + decimal((i + 1) as nat), choice_command(token, index, decimal(i as nat))),
    )
}

/// The user may answer in their own words.
pub open spec fn free_answer(q: Question) -> bool {
    q.other || q.options@.len() == 0 || q.secret
}

/// A secret question shows no options.
pub open spec fn shown_options(q: Question) -> Seq<QuestionOption> {
    if q.secret {
        Seq::empty()
    } else {
        q.options@
    }
}

pub open spec fn question_body(q: Question, index: nat, total: nat) -> Seq<char> {
    let head = "第 "@ + decimal(index + 1) + " / "@ + decimal(total)
        + " 题。请选择或自行回答。整组问答 10 分钟有效；超时停止本次桥接运行，不提交空答案。\n"@;
    if supported(q) {
        let body = option_lines(head + q.header@ + "\n"@ + q.text@ + "\n"@, shown_options(q));
        if free_answer(q) {
            body + "\n点击自行回答后，按提示发送专用答案命令。答案不在确认回复中回显；飞书聊天仍保留输入。\n"@
        } else {
            body
        }
    } else {
        head + "本题详情超过展示上限，无法完整展示，已停止问答。\n"@
    }
}

pub open spec fn question_entries(q: Question, index: nat, token: Seq<char>) -> Seq<(Seq<char>, Seq<char>)> {
    if supported(q) {
        let options = option_entries(shown_options(q).len(), token, index);
        if free_answer(q) {
            options.push(("其他／自行回答"@, choice_command(token, index, "other"@)))
        } else {
            options
        }
    } else {
        Seq::empty()
    }
}

/// The commands behind a question's buttons carry indices, never an answer's
/// text: they depend only on how many options are shown and on whether a free
/// answer is offered.
pub proof fn question_commands_hide_answers(a: Question, b: Question, index: nat, token: Seq<char>, prefix: Seq<char>)
    requires
        supported(a) == supported(b),
        shown_options(a).len() == shown_options(b).len(),
        free_answer(a) == free_answer(b),
    ensures
        card_commands(question_entries(a, index, token), prefix) == card_commands(question_entries(b, index, token), prefix),
{
    assert(question_entries(a, index, token) =~= question_entries(b, index, token));
}

fn choice_text(token: &str, index: usize, answer: &str) -> (r: String)
    ensures
        r@ == choice_command(token@, index as nat, answer@),
{
    let mut c = "/choice ".to_owned();
    c.append(token);
    c.append(" ");
    c.append(decimal_text(index as u64).as_str());
    c.append(" ");
    c.append(answer);
    c
}

/// The card of one question of a group.
pub fn question(asked: &Question, index: usize, total: usize, token: &str, prefix: &str) -> (r: (Panel, Vec<(String, String)>))
    requires
        index < usize::MAX,
    ensures
        r.0@ == ungrouped(
            command_panel(
                "Codex 问答"@,
                question_body(*asked, index as nat, total as nat),
                question_entries(*asked, index as nat, token@),
                prefix@,
            ),
        ),
        pairs(r.1@) == card_commands(question_entries(*asked, index as nat, token@), prefix@),
{
    let mut body = "第 ".to_owned();
    body.append(decimal_text(index as u64 + 1).as_str());
    body.append(" / ");
    body.append(decimal_text(total as u64).as_str());
    body.append(" 题。请选择或自行回答。整组问答 10 分钟有效；超时停止本次桥接运行，不提交空答案。\n");
    let mut buttons: Vec<(String, String)> = Vec::new();
    proof {
        assert(pairs(buttons@) =~= Seq::empty());
    }
    if question_supported(asked) {
        body.append(asked.header.as_str());
        body.append("\n");
        body.append(asked.text.as_str());
        body.append("\n");
        let ghost start = body@;
        let ghost shown = shown_options(*asked);
        let ghost all = option_entries(shown.len(), token@, index as nat);
        if !asked.secret {
            let mut i: usize = 0;
            proof {
                assert(shown.take(0) =~= Seq::empty());
                assert(all.take(0) =~= Seq::empty());
            }
            while i < asked.options.len()
                invariant
                    i <= asked.options@.len(),
                    shown == asked.options@,
                    all == option_entries(shown.len(), token@, index as nat),
                    body@ == option_lines(start, shown.take(i as int)),
                    pairs(buttons@) == all.take(i as int),
                decreases asked.options.len() - i,
            {
                let option = &asked.options[i];
                proof {
                    assert(shown.take(i + 1).drop_last() =~= shown.take(i as int));
                    assert(all.take(i + 1) =~= all.take(i as int).push(all[i as int]));
                }
                let number = decimal_text(i as u64 + 1);
                body.append("\n");
                body.append(number.as_str());
                body.append(". ");
                body.append(option.label.as_str());
                body.append("\n");
                body.append(option.description.as_str());
                body.append("\n");
                let mut label = "选择 ".to_owned();
                label.append(number.as_str());
                let command = choice_text(token, index, decimal_text(i as u64).as_str());
                offer(&mut buttons, label, command);
                i = i + 1;
            }
            proof {
                assert(shown.take(i as int) =~= shown);
                assert(all.take(i as int) =~= all);
            }
        } else {
            proof {
                assert(all =~= Seq::empty());
            }
        }
        if asked.other || asked.options.len() == 0 || asked.secret {
            body.append("\n点击自行回答后，按提示发送专用答案命令。答案不在确认回复中回显；飞书聊天仍保留输入。\n");
            offer(&mut buttons, "其他／自行回答".to_owned(), choice_text(token, index, "other"));
        }
    } else {
        body.append("本题详情超过展示上限，无法完整展示，已停止问答。\n");
    }
    let (mut card, commands) = panel("Codex 问答", body, buttons, prefix);
    ungroup(&mut card);
    (card, commands)
}

/// The card shows one button for each entry, in order and each with its label;
/// `commands` gives every button's token what its entry runs, and no two
/// buttons share a token.
pub open spec fn says_what_it_runs(panel: PanelView, commands: Seq<(Seq<char>, Seq<char>)>, entries: Seq<(Seq<char>, Seq<char>)>) -> bool {
    &&& panel.buttons.len() == entries.len()
    &&& commands.len() == entries.len()
    &&& forall|i: int|
        0 <= i < entries.len() ==> (#[trigger] panel.buttons[i]).label == entries[i].0 && panel.buttons[i].token == commands[i].0
            && commands[i].1 == entries[i].1
    &&& forall|i: int, j: int|
        #![trigger commands[i], commands[j]]
        0 <= i < j < entries.len() ==> commands[i].0 != commands[j].0
}

proof fn button_tokens_differ(prefix: Seq<char>, i: nat, j: nat)
    requires
        i != j,
    ensures
        button_token(prefix, i) != button_token(prefix, j),
{
    let a = button_token(prefix, i);
    let b = button_token(prefix, j);
    let n = (prefix + "-"@).len() as int;
    assert(a.skip(n) =~= decimal(i));
    assert(b.skip(n) =~= decimal(j));
    if a == b {
        decimal_is_injective(i, j);
    }
}

/// A card of labelled commands shows what it is given to show, and each of its
/// buttons says what it runs, with or without headings.
pub proof fn buttons_say_what_they_run(title: Seq<char>, body: Seq<char>, entries: Seq<(Seq<char>, Seq<char>)>, prefix: Seq<char>)
    ensures
        ({
            let panel = command_panel(title, body, entries, prefix);
            &&& panel.title == title
            &&& panel.body == body
            &&& says_what_it_runs(panel, card_commands(entries, prefix), entries)
            &&& ungrouped(panel).title == title
            &&& ungrouped(panel).body == body
            &&& says_what_it_runs(ungrouped(panel), card_commands(entries, prefix), entries)
        }),
{
    let commands = card_commands(entries, prefix);
    assert forall|i: int, j: int|
        #![trigger commands[i], commands[j]]
        0 <= i < j < entries.len() implies commands[i].0 != commands[j].0 by {
        button_tokens_differ(prefix, i as nat, j as nat);
    }
}

/// What was registered last for a token is what it runs.
pub proof fn registered_buttons_are_found(m: Map<Seq<char>, ActionText>, entries: Seq<(Seq<char>, ActionText)>, i: int)
    requires
        0 <= i < entries.len(),
        forall|a: int, b: int|
            #![trigger entries[a], entries[b]]
            0 <= a < b < entries.len() ==> entries[a].0 != entries[b].0,
    ensures
        extended(m, entries).contains_key(entries[i].0),
        extended(m, entries)[entries[i].0] == entries[i].1,
    decreases entries.len(),
{
    if i < entries.len() - 1 {
        let before = entries.drop_last();
        assert(before[i] == entries[i]);
        assert forall|a: int, b: int|
            #![trigger before[a], before[b]]
            0 <= a < b < before.len() implies before[a].0 != before[b].0 by {
            assert(before[a] == entries[a] && before[b] == entries[b]);
        }
        registered_buttons_are_found(m, before, i);
        assert(entries[entries.len() - 1] == entries.last());
    }
}

/// A listed thread can be opened and, in the list of recent ones, put away:
/// each by a button that carries its number and acts on its id.
pub proof fn listed_threads_have_their_buttons(entries: Seq<ListedThread>, k: int)
    requires
        0 <= k < entries.len(),
    ensures
        thread_entries(entries, true).len() == entries.len(),
        thread_entries(entries, false).len() == 2 * entries.len(),
        thread_entries(entries, true)[k] == (
            decimal((k + 1) as nat) + ". "@ + "取消归档"@,
            "/unarchive"@ + " "@ + entries[k].id@,
        ),
        thread_entries(entries, false)[2 * k] == (
            decimal((k + 1) as nat) + ". "@ + "恢复会话"@,
            "/resume"@ + " "@ + entries[k].id@,
        ),
        thread_entries(entries, false)[2 * k + 1] == (
            decimal((k + 1) as nat) + ". 归档会话"@,
            "/archive "@ + entries[k].id@,
        ),
    decreases entries.len(),
{
    thread_entries_count(entries);
    thread_entries_count(entries.drop_last());
    if k < entries.len() - 1 {
        listed_threads_have_their_buttons(entries.drop_last(), k);
    }
}

proof fn thread_entries_count(entries: Seq<ListedThread>)
    ensures
        thread_entries(entries, true).len() == entries.len(),
        thread_entries(entries, false).len() == 2 * entries.len(),
    decreases entries.len(),
{
    if entries.len() > 0 {
        thread_entries_count(entries.drop_last());
    }
}

/// Behind the threads of a list stand the buttons that show this list again and
/// the other one.
pub proof fn lists_lead_to_each_other(entries: Seq<ListedThread>)
    ensures
        list_entries_of(entries, false).len() == 2 * entries.len() + 2,
        list_entries_of(entries, false).take(2 * entries.len() as int) == thread_entries(entries, false),
        list_entries_of(entries, false)[2 * entries.len() as int] == ("刷新列表"@, "/resume"@),
        list_entries_of(entries, false)[2 * entries.len() as int + 1] == ("查看已归档会话"@, "/archived"@),
        list_entries_of(entries, true).len() == entries.len() + 2,
        list_entries_of(entries, true).take(entries.len() as int) == thread_entries(entries, true),
        list_entries_of(entries, true)[entries.len() as int] == ("刷新列表"@, "/archived"@),
        list_entries_of(entries, true)[entries.len() as int + 1] == ("查看最近会话"@, "/resume"@),
{
    thread_entries_count(entries);
    assert(list_entries_of(entries, false).take(2 * entries.len() as int) =~= thread_entries(entries, false));
    assert(list_entries_of(entries, true).take(entries.len() as int) =~= thread_entries(entries, true));
}

/// Every model that can be listed, of the first twenty, has a button that
/// begins with its id and selects it; after them come the default and a refresh.
pub proof fn listed_models_have_their_buttons(models: Seq<Model>, current: Option<Seq<char>>, k: int) -> (at: int)
    requires
        0 <= k < models.len(),
        k < 20,
        models[k].id@.len() > 0,
        byte_count(models[k].id@) <= 256,
        !has_control(models[k].id@),
    ensures
        ({
            let entries = models_entries_of(models, current);
            &&& 0 <= at < entries.len() - 2
            &&& entries[at].1 == "/model "@ + models[k].id@
            &&& begins_with(entries[at].0, models[k].id@)
            &&& current == Some(models[k].id@) ==> entries[at].0 == models[k].id@ + "（已选择）"@
            &&& current != Some(models[k].id@) && models[k].is_default ==> entries[at].0 == models[k].id@ + "（默认）"@
            &&& entries[entries.len() - 2] == ("恢复 Codex 默认模型"@, "/model default"@)
            &&& entries[entries.len() - 1] == ("刷新模型列表"@, "/models"@)
        }),
{
    let first = first_models(models);
    let at = model_entry_at(first, current, k);
    let entry = model_entry(models[k], current);
    assert(entry.0.take(models[k].id@.len() as int) =~= models[k].id@);
    at
}

proof fn model_entry_at(models: Seq<Model>, current: Option<Seq<char>>, k: int) -> (at: int)
    requires
        0 <= k < models.len(),
        listable(models[k].id@),
    ensures
        0 <= at < model_entries(models, current).len(),
        model_entries(models, current)[at] == model_entry(models[k], current),
    decreases models.len(),
{
    if k == models.len() - 1 {
        model_entries(models, current).len() - 1
    } else {
        assert(models.drop_last()[k] == models[k]);
        model_entry_at(models.drop_last(), current, k)
    }
}

/// A model's button is the button of one of the models that were listed.
pub proof fn model_buttons_are_of_models(models: Seq<Model>, current: Option<Seq<char>>, at: int) -> (k: int)
    requires
        0 <= at < models_entries_of(models, current).len() - 2,
    ensures
        0 <= k < models.len(),
        k < 20,
        models_entries_of(models, current)[at].1 == "/model "@ + models[k].id@,
{
    let first = first_models(models);
    model_of_entry(first, current, at)
}

proof fn model_of_entry(models: Seq<Model>, current: Option<Seq<char>>, at: int) -> (k: int)
    requires
        0 <= at < model_entries(models, current).len(),
    ensures
        0 <= k < models.len(),
        model_entries(models, current)[at].1 == "/model "@ + models[k].id@,
    decreases models.len(),
{
    let before = model_entries(models.drop_last(), current);
    if at < before.len() {
        model_of_entry(models.drop_last(), current, at)
    } else {
        models.len() - 1
    }
}

/// A question that can be shown has one button per option: the button that
/// says 选择 n+1 answers with option n. Behind them stands a button for an
/// answer of one's own, exactly where the question takes one. A secret question
/// has no buttons for its options.
pub proof fn options_have_their_buttons(q: Question, index: nat, token: Seq<char>)
    requires
        supported(q),
    ensures
        ({
            let entries = question_entries(q, index, token);
            let shown = if q.secret {
                0
            } else {
                q.options@.len() as int
            };
            &&& forall|n: int|
                0 <= n < shown ==> (#[trigger] entries[n]).0 == "选择 "@ + decimal((n + 1) as nat) && entries[n].1 == "/choice "@
                    + token + " "@ + decimal(index) + " "@ + decimal(n as nat)
            &&& q.other || q.options@.len() == 0 || q.secret ==> entries.len() == shown + 1 && entries[shown] == (
                "其他／自行回答"@,
                "/choice "@ + token + " "@ + decimal(index) + " "@ + "other"@,
            )
            &&& !(q.other || q.options@.len() == 0 || q.secret) ==> entries.len() == shown
        }),
{
}

/// A question that can be shown is shown with its number, its heading and its
/// text, and each option with the number of its button, its label and its
/// description.
pub proof fn options_are_shown(q: Question, index: nat, total: nat, n: int) -> (at: int)
    requires
        supported(q),
        !q.secret,
        0 <= n < q.options@.len(),
    ensures
        ({
            let body = question_body(q, index, total);
            let line = "\n"@ + decimal((n + 1) as nat) + ". "@ + q.options@[n].label@ + "\n"@ + q.options@[n].description@
                + "\n"@;
            &&& 0 <= at <= at + line.len() <= body.len()
            &&& body.subrange(at, at + line.len()) == line
        }),
        begins_with(
            question_body(q, index, total),
            "第 "@ + decimal(index + 1) + " / "@ + decimal(total)
                + " 题。请选择或自行回答。整组问答 10 分钟有效；超时停止本次桥接运行，不提交空答案。\n"@ + q.header@ + "\n"@
                + q.text@ + "\n"@,
        ),
{
    let start = "第 "@ + decimal(index + 1) + " / "@ + decimal(total)
        + " 题。请选择或自行回答。整组问答 10 分钟有效；超时停止本次桥接运行，不提交空答案。\n"@ + q.header@ + "\n"@ + q.text@
        + "\n"@;
    let at = option_line_at(start, q.options@, n);
    let lines = option_lines(start, q.options@);
    let body = question_body(q, index, total);
    assert(lines == body.take(lines.len() as int)) by {
        assert(body.take(lines.len() as int) =~= lines);
    }
    let line = "\n"@ + decimal((n + 1) as nat) + ". "@ + q.options@[n].label@ + "\n"@ + q.options@[n].description@ + "\n"@;
    assert(body.subrange(at, at + line.len()) =~= lines.subrange(at, at + line.len()));
    assert(body.take(start.len() as int) =~= start);
    at
}

proof fn option_line_at(start: Seq<char>, options: Seq<QuestionOption>, n: int) -> (at: int)
    requires
        0 <= n < options.len(),
    ensures
        ({
            let lines = option_lines(start, options);
            let line = "\n"@ + decimal((n + 1) as nat) + ". "@ + options[n].label@ + "\n"@ + options[n].description@ + "\n"@;
            &&& start.len() <= at <= at + line.len() <= lines.len()
            &&& lines.subrange(at, at + line.len()) == line
            &&& lines.take(start.len() as int) == start
        }),
    decreases options.len(),
{
    let lines = option_lines(start, options);
    let before = option_lines(start, options.drop_last());
    let line = "\n"@ + decimal((n + 1) as nat) + ". "@ + options[n].label@ + "\n"@ + options[n].description@ + "\n"@;
    let last = "\n"@ + decimal(options.len()) + ". "@ + options.last().label@ + "\n"@ + options.last().description@ + "\n"@;
    assert(lines =~= before + last);
    option_lines_begin(start, options.drop_last());
    assert(lines.take(start.len() as int) =~= before.take(start.len() as int));
    if n == options.len() - 1 {
        assert(lines.subrange(before.len() as int, before.len() as int + line.len()) =~= line);
        before.len() as int
    } else {
        assert(options.drop_last()[n] == options[n]);
        let at = option_line_at(start, options.drop_last(), n);
        assert(lines.subrange(at, at + line.len()) =~= before.subrange(at, at + line.len()));
        at
    }
}

proof fn option_lines_begin(start: Seq<char>, options: Seq<QuestionOption>)
    ensures
        start.len() <= option_lines(start, options).len(),
        option_lines(start, options).take(start.len() as int) == start,
    decreases options.len(),
{
    let lines = option_lines(start, options);
    if options.len() == 0 {
        assert(lines.take(start.len() as int) =~= start);
    } else {
        option_lines_begin(start, options.drop_last());
        assert(lines.take(start.len() as int) =~= option_lines(start, options.drop_last()).take(start.len() as int));
    }
}

/// A delivered button counts as usable exactly while its action is registered
/// for the card that shows it, is in time, and no task started or ended since
/// where it depends on that.
pub proof fn buttons_live_while_they_can_be_used(
    b: ButtonView,
    source: Seq<char>,
    actions: Map<Seq<char>, ActionText>,
    now: u64,
    snapshot: SnapshotText,
)
    ensures
        is_live(b, source, actions, now, snapshot) <==> actions.contains_key(b.token) && actions[b.token].source == source && now
            < actions[b.token].deadline && (actions[b.token].stop_snapshot is None || actions[b.token].stop_snapshot == Some(
            snapshot,
        )),
{
}

/// Stopping is set apart: its button alone is marked as destructive, stands by
/// itself and under no heading.
pub proof fn stopping_is_set_apart(entry: (Seq<char>, Seq<char>), index: nat, grouped: bool, prefix: Seq<char>)
    ensures
        ({
            let b = command_button(entry, index, grouped, prefix);
            &&& b.style == ButtonStyle::Destructive <==> entry.1 == "/stop"@
            &&& b.separate <==> entry.1 == "/stop"@
            &&& entry.1 == "/stop"@ || !grouped ==> b.group is None
            &&& entry.1 != "/stop"@ && grouped ==> b.group is Some
            &&& b.label == entry.0
            &&& b.choice == "run"@
        }),
{
}

/// An update keeps what a card says and its usable buttons, and says that others
/// were taken away.
pub proof fn updates_keep_the_card(p: PanelView, live: Seq<ButtonView>)
    ensures
        updated_panel(p, live).title == p.title,
        updated_panel(p, live).buttons == live,
        begins_with(updated_panel(p, live).body, p.body),
        updated_panel(p, live).tone == p.tone,
{
    assert(updated_panel(p, live).body.take(p.body.len() as int) =~= p.body);
}

/// What a list shows of its thread number `n`: its title, whether it runs, its id
/// and the command that opens it.
pub open spec fn shown_thread(t: ListedThread, n: nat, archived: bool) -> Seq<char> {
    let title = if t.title@.len() == 0 {
        "未命名会话"@
    } else {
        t.title@
    };
    let state = if t.active {
        "（执行中）"@
    } else {
        ""@
    };
    let opener = if archived {
        "/unarchive"@
    } else {
        "/resume"@
    };
    "\n"@ + decimal(n) + ". "@ + title + state + "\n"@ + t.id@ + "\n"@ + opener + " "@ + t.id@ + "\n"@
}

/// A list shows each of its threads.
pub proof fn listed_threads_are_shown(entries: Seq<ListedThread>, archived: bool, k: int) -> (at: int)
    requires
        0 <= k < entries.len(),
    ensures
        ({
            let line = shown_thread(entries[k], (k + 1) as nat, archived);
            let body = threads_body(entries, archived);
            &&& 0 <= at <= at + line.len() <= body.len()
            &&& body.subrange(at, at + line.len()) == line
        }),
    decreases entries.len(),
{
    let line = shown_thread(entries[k], (k + 1) as nat, archived);
    let before = thread_lines(entries.drop_last(), archived);
    let body = thread_lines(entries, archived);
    if k == entries.len() - 1 {
        last_thread_shown(entries, archived);
        before.len() as int
    } else {
        assert(entries.drop_last()[k] == entries[k]);
        let at = listed_threads_are_shown(entries.drop_last(), archived, k);
        thread_lines_grow(entries, archived);
        assert(body.subrange(at, at + line.len()) =~= body.take(before.len() as int).subrange(at, at + line.len()));
        at
    }
}

proof fn last_thread_shown(entries: Seq<ListedThread>, archived: bool)
    requires
        entries.len() > 0,
    ensures
        ({
            let line = shown_thread(entries.last(), entries.len(), archived);
            let at = thread_lines(entries.drop_last(), archived).len() as int;
            let body = thread_lines(entries, archived);
            &&& at + line.len() <= body.len()
            &&& body.subrange(at, at + line.len()) == line
        }),
{
    let line = shown_thread(entries.last(), entries.len(), archived);
    let before = thread_lines(entries.drop_last(), archived);
    let body = thread_lines(entries, archived);
    let at = before.len() as int;
    let id = entries.last().id@;
    let rest = if archived {
        Seq::<char>::empty()
    } else {
        "/archive "@ + id + "\n"@
    };
    assert(body =~= before + line + rest);
    assert((before + line + rest).subrange(at, at + line.len()) =~= line);
}

proof fn thread_lines_grow(entries: Seq<ListedThread>, archived: bool)
    requires
        entries.len() > 0,
    ensures
        ({
            let before = thread_lines(entries.drop_last(), archived);
            let body = thread_lines(entries, archived);
            before.len() <= body.len() && body.take(before.len() as int) == before
        }),
{
    let before = thread_lines(entries.drop_last(), archived);
    let body = thread_lines(entries, archived);
    assert(body.take(before.len() as int) =~= before);
}

/// The list of models names the one that is set.
pub proof fn the_set_model_is_named(current: Option<Seq<char>>)
    ensures
        begins_with(
            models_body(current),
            "当前模型："@ + (match current {
                Some(id) => id,
                None => "Codex 默认"@,
            }) + "。"@,
        ),
{
    let name = match current {
        Some(id) => id,
        None => "Codex 默认"@,
    };
    let head = "当前模型："@ + name + "。"@;
    reveal_strlit("。");
    reveal_strlit("。全局空闲时可修改，保存成功后回复确认。\n按钮限本人在当前聊天和目录使用，10 分钟有效，每个按钮一次。");
    assert(models_body(current).take(head.len() as int) =~= head);
}

/// The card to bring up to date is one that shows a dead button, if any does.
pub proof fn updates_find_dead_buttons(views: Map<Seq<char>, PanelView>, actions: Map<Seq<char>, ActionText>, now: u64, snapshot: SnapshotText)
    requires
        views.dom().finite(),
    ensures
        first_outdated(views, actions, now, snapshot) matches Some(source) ==> views.contains_key(source) && outdated(
            views[source],
            source,
            actions,
            now,
            snapshot,
        ),
        first_outdated(views, actions, now, snapshot) is None ==> forall|source: Seq<char>| #[trigger]
            views.contains_key(source) ==> !outdated(views[source], source, actions, now, snapshot),
{
    let p = |k: Seq<char>| outdated(views[k], k, actions, now, snapshot);
    order_exists(views.dom());
    let keys = ordered(views.dom());
    let found = keys.filter(p);
    if found.len() > 0 {
        keys.lemma_filter_pred(p, 0);
        assert(found.contains(found[0]));
        keys.lemma_filter_contains_rev(p, found[0]);
        assert(views.dom().contains(found[0]));
    } else {
        assert forall|source: Seq<char>| #[trigger] views.contains_key(source) implies !outdated(
            views[source],
            source,
            actions,
            now,
            snapshot,
        ) by {
            assert(views.dom().contains(source));
            assert(keys.contains(source));
            let i = choose|i: int| 0 <= i < keys.len() && keys[i] == source;
            if p(keys[i]) {
                keys.lemma_filter_contains(p, i);
                assert(found.contains(source));
            }
        }
    }
}

/// Of plans only the buttons of the offered one are kept.
pub proof fn buttons_of_other_plans_are_dropped(token: Seq<char>, other: Seq<char>, choice: Seq<char>)
    requires
        is_word(token),
        is_word(other),
    ensures
        plan_kept("/plan-action "@ + other + " "@ + choice, Some(token)) <==> other == token,
        !plan_kept("/plan-action "@ + other + " "@ + choice, None),
{
    reveal_strlit(" ");
    let command = "/plan-action "@ + other + " "@ + choice;
    let mine = "/plan-action "@ + token + " "@;
    assert(command.take("/plan-action "@.len() as int) =~= "/plan-action "@);
    let n = "/plan-action "@.len() as int;
    if other == token {
        assert(command.take(mine.len() as int) =~= mine);
    } else if begins_with(command, mine) {
        assert(command.take(mine.len() as int) == mine);
        assert forall|i: int| 0 <= i < mine.len() implies command[i] == mine[i] by {
            assert(command.take(mine.len() as int)[i] == mine[i]);
        }
        if other.len() < token.len() {
            assert(command[n + other.len()] == ' ');
            assert(mine[n + other.len()] == token[other.len() as int]);
        } else if token.len() < other.len() {
            assert(mine[n + token.len()] == ' ');
            assert(command[n + token.len()] == other[token.len() as int]);
        } else {
            assert forall|i: int| 0 <= i < token.len() implies token[i] == other[i] by {
                assert(mine[n + i] == token[i] && command[n + i] == other[i]);
            }
            assert(token =~= other);
        }
    }
}

/// A card whose buttons do not fit beside the ones that can still be used
/// registers none of them.
pub proof fn crowded_cards_register_nothing(actions: Map<Seq<char>, ActionText>, entries: Seq<(Seq<char>, ActionText)>, now: u64, k: Seq<char>)
    requires
        live_actions(actions, now).dom().len() + entries.len() > 1000,
    ensures
        actions_after(actions, entries, now).contains_key(k) ==> actions.contains_key(k) && now < actions[k].deadline
            && actions_after(actions, entries, now)[k] == actions[k],
{
}

/// A question is shown only if all of it can be: at most twenty options, a text
/// that is not blank, labels that are not blank, and no more than 16000 bytes.
pub proof fn only_whole_questions_are_shown(q: Question)
    requires
        supported(q),
    ensures
        q.options@.len() <= 20,
        !blank(q.text@),
        !q.secret ==> forall|i: int| 0 <= i < q.options@.len() ==> !blank((#[trigger] q.options@[i]).label@),
        byte_count(q.text@) + byte_count(q.header@) + option_bytes(q.options@) <= 16000,
{
}

} // verus!
