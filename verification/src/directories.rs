//! Directory navigation: what a user is shown, and which creations a user has
//! been asked to confirm.
use vstd::prelude::*;
use vstd::string::*;
use crate::model::{same_path, Directory, DirectoryText};
use crate::text::{begins_with, same, texts};
use crate::textmap::{kept, ordered, TextMap};

verus! {

/// A directory creation that waits for its user's confirmation.
pub struct Creation {
    pub user: String,
    pub chat: String,
    pub current: Directory,
    pub input: String,
    pub target: Directory,
    pub deadline: u64,
}

impl Clone for Creation {
    fn clone(&self) -> (r: Self)
        ensures
            r == *self,
    {
        Creation {
            user: self.user.clone(),
            chat: self.chat.clone(),
            current: self.current.clone(),
            input: self.input.clone(),
            target: self.target.clone(),
            deadline: self.deadline,
        }
    }
}

/// A creation by its texts.
pub struct CreationText {
    pub user: Seq<char>,
    pub chat: Seq<char>,
    pub current: DirectoryText,
    pub input: Seq<char>,
    pub target: DirectoryText,
    pub deadline: u64,
}

impl View for Creation {
    type V = CreationText;

    open spec fn view(&self) -> CreationText {
        CreationText {
            user: self.user@,
            chat: self.chat@,
            current: self.current@,
            input: self.input@,
            target: self.target@,
            deadline: self.deadline,
        }
    }
}

/// At most this many creations wait for confirmation.
pub const CONFIRMATIONS: usize = 100;

/// Creations by their confirmation token.
pub struct Confirmations(TextMap<Creation>);

/// The confirmations of other users.
pub open spec fn of_others(m: Map<Seq<char>, CreationText>, user: Seq<char>) -> Map<Seq<char>, CreationText> {
    kept(m, |k: Seq<char>, c: CreationText| c.user != user)
}

/// The confirmation may be used: by its user, in its chat and directory, in time.
pub open spec fn confirmable(c: CreationText, user: Seq<char>, chat: Seq<char>, current: DirectoryText, now: u64) -> bool {
    &&& c.user == user
    &&& c.chat == chat
    &&& same_path(c.current, current)
    &&& now < c.deadline
}

/// Tokens of confirmations that are due, in token order.
pub open spec fn overdue(m: Map<Seq<char>, CreationText>, now: u64) -> Seq<Seq<char>> {
    ordered(m.dom()).filter(|k: Seq<char>| now >= m[k].deadline)
}

/// Creations by their texts.
pub open spec fn creation_texts(v: Seq<Creation>) -> Seq<CreationText> {
    v.map_values(|c: Creation| c@)
}

impl Default for Confirmations {
    fn default() -> (r: Self)
        ensures
            r.wf(),
            r@ == Map::<Seq<char>, CreationText>::empty(),
    {
        Confirmations(TextMap::new())
    }
}

impl Confirmations {
    pub closed spec fn view(&self) -> Map<Seq<char>, CreationText> {
        self.0@
    }

    pub closed spec fn wf(&self) -> bool {
        &&& self.0.wf()
        &&& self.0@.dom().len() <= CONFIRMATIONS
    }

    /// A bounded number of creations waits for confirmation.
    pub proof fn is_bounded(&self)
        requires
            self.wf(),
        ensures
            self@.dom().finite(),
            self@.dom().len() <= CONFIRMATIONS,
    {
        self.0.keys_enumerate();
    }

    /// Registers a creation in place of the user's earlier ones, if it fits.
    pub fn insert(&mut self, token: String, entry: Creation) -> (r: bool)
        requires
            old(self).wf(),
        ensures
            final(self).wf(),
            ({
                let rest = of_others(old(self)@, entry@.user);
                &&& r == (rest.dom().len() < CONFIRMATIONS && token@.len() > 0 && !rest.contains_key(token@))
                &&& final(self)@ == if r {
                    rest.insert(token@, entry@)
                } else {
                    rest
                }
            }),
    {
        self.invalidate(entry.user.as_str());
        if self.0.len() >= CONFIRMATIONS || token.as_str().is_empty() || self.0.contains(token.as_str()) {
            return false;
        }
        self.0.insert(token, entry);
        true
    }

    pub fn get(&self, token: &str, user: &str, chat: &str, current: &Directory, now: u64) -> (r: Option<Creation>)
        requires
            self.wf(),
        ensures
            r is Some <==> self@.contains_key(token@) && confirmable(self@[token@], user@, chat@, current@, now),
            r matches Some(c) ==> c@ == self@[token@],
    {
        match self.0.get(token) {
            Some(c) => {
                if same(c.user.as_str(), user) && same(c.chat.as_str(), chat) && c.current.same(current) && now < c.deadline {
                    Some(c.clone())
                } else {
                    None
                }
            },
            None => None,
        }
    }

    pub fn remove(&mut self, token: &str)
        requires
            old(self).wf(),
        ensures
            final(self).wf(),
            final(self)@ == old(self)@.remove(token@),
    {
        proof {
            self.0.keys_enumerate();
        }
        self.0.remove(token);
    }

    pub fn invalidate(&mut self, user: &str)
        requires
            old(self).wf(),
        ensures
            final(self).wf(),
            final(self)@ == of_others(old(self)@, user@),
    {
        let f = |k: &String, c: &Creation| -> (r: bool)
            ensures
                r == (c@.user != user@),
        { !same(c.user.as_str(), user) };
        proof {
            self.0.keys_enumerate();
            let m = self.0@;
            assert(of_others(m, user@).dom().subset_of(m.dom()));
            vstd::set_lib::lemma_len_subset(of_others(m, user@).dom(), m.dom());
        }
        self.0.retain(f, Ghost(|k: Seq<char>, c: CreationText| c.user != user@));
    }

    /// Removes and returns what is due, in token order.
    pub fn expire(&mut self, now: u64) -> (r: Vec<Creation>)
        requires
            old(self).wf(),
        ensures
            final(self).wf(),
            creation_texts(r@) == overdue(old(self)@, now).map_values(|k: Seq<char>| old(self)@[k]),
            final(self)@ == kept(old(self)@, |k: Seq<char>, c: CreationText| now < c.deadline),
    {
        let ghost keys = self.0.keys();
        let ghost m = self@;
        let ghost p = |k: Seq<char>| now >= m[k].deadline;
        let ghost f = |k: Seq<char>| m[k];
        proof {
            self.0.keys_are_ordered();
            self.0.keys_enumerate();
            reveal(Seq::filter);
            assert(keys.take(0) =~= Seq::empty());
        }
        let n: usize = self.0.len();
        let mut r: Vec<Creation> = Vec::new();
        let mut i: usize = 0;
        proof {
            assert(creation_texts(r@) =~= keys.take(0).filter(p).map_values(f));
        }
        while i < n
            invariant
                self.wf(),
                m == self@,
                keys == self.0.keys(),
                n == keys.len(),
                i <= n,
                p == (|k: Seq<char>| now >= m[k].deadline),
                f == (|k: Seq<char>| m[k]),
                creation_texts(r@) == keys.take(i as int).filter(p).map_values(f),
            decreases n - i,
        {
            let ghost before = r@;
            let c = self.0.value_at(i);
            proof {
                assert(keys.take(i + 1).drop_last() =~= keys.take(i as int));
                assert(keys.take(i + 1).last() == keys[i as int]);
                reveal(Seq::filter);
            }
            if now >= c.deadline {
                r.push(c.clone());
                proof {
                    assert(creation_texts(r@) =~= creation_texts(before).push(m[keys[i as int]]));
                    let t = keys.take(i as int).filter(p);
                    assert(keys.take(i + 1).filter(p) =~= t.push(keys[i as int]));
                    assert(t.push(keys[i as int]).map_values(f) =~= t.map_values(f).push(m[keys[i as int]]));
                }
            }
            i = i + 1;
        }
        proof {
            assert(keys.take(i as int) =~= keys);
            let live = kept(m, |k: Seq<char>, c: CreationText| now < c.deadline);
            assert(live.dom().subset_of(m.dom()));
            vstd::set_lib::lemma_len_subset(live.dom(), m.dom());
        }
        let g = |k: &String, c: &Creation| -> (r: bool)
            ensures
                r == (now < c@.deadline),
        { now < c.deadline };
        self.0.retain(g, Ghost(|k: Seq<char>, c: CreationText| now < c.deadline));
        r
    }
}

/// A confirmation is reported as expired once, and from its deadline on nobody
/// can use it.
pub proof fn confirmation_expires_once(m: Map<Seq<char>, CreationText>, token: Seq<char>, user: Seq<char>, chat: Seq<char>, current: DirectoryText, now: u64)
    requires
        m.contains_key(token),
        now >= m[token].deadline,
    ensures
        !confirmable(m[token], user, chat, current, now),
        !kept(m, |k: Seq<char>, c: CreationText| now < c.deadline).contains_key(token),
{
}

/// A directory and its subdirectories as a user is shown them.
#[derive(Debug)]
pub struct DirectoryView {
    pub path: Directory,
    pub children: Vec<String>,
}

pub open spec fn child_lines(start: Seq<char>, children: Seq<Seq<char>>) -> Seq<char>
    decreases children.len(),
{
    if children.len() == 0 {
        start
    } else {
        child_lines(start, children.drop_last()) + "\n/cd "@ + children.last()
    }
}

/// The text of a directory listing.
pub open spec fn listing(path: Seq<char>, children: Seq<Seq<char>>) -> Seq<char> {
    child_lines("当前目录："@ + path + "\n子目录（最多 20 项）："@, children)
        + "\n\n/cd <路径> 切换目录；支持相对路径、绝对路径和空格。\n/cd .. 返回上级（限工作区内）。目标不存在时先请求创建确认。"@
}

impl DirectoryView {
    pub fn text(&self) -> (r: String)
        ensures
            r@ == listing(self.path.text@, texts(self.children@)),
    {
        let mut text = "当前目录：".to_owned();
        text.append(self.path.text.as_str());
        text.append("\n子目录（最多 20 项）：");
        let ghost start = text@;
        let ghost all = texts(self.children@);
        let mut i: usize = 0;
        proof {
            assert(all.take(0) =~= Seq::empty());
        }
        while i < self.children.len()
            invariant
                i <= self.children@.len(),
                all == texts(self.children@),
                text@ == child_lines(start, all.take(i as int)),
            decreases self.children.len() - i,
        {
            proof {
                assert(all.take(i + 1).drop_last() =~= all.take(i as int));
            }
            text.append("\n/cd ");
            text.append(self.children[i].as_str());
            i = i + 1;
        }
        proof {
            assert(all.take(i as int) =~= all);
        }
        text.append(
            "\n\n/cd <路径> 切换目录；支持相对路径、绝对路径和空格。\n/cd .. 返回上级（限工作区内）。目标不存在时先请求创建确认。",
        );
        text
    }
}

/// A confirmation is for the user it was offered to, in that chat, from that
/// directory, before its deadline, and for nobody else.
pub proof fn confirmations_are_personal(c: CreationText, user: Seq<char>, chat: Seq<char>, current: DirectoryText, now: u64)
    ensures
        confirmable(c, user, chat, current, now) <==> c.user == user && c.chat == chat && c.current.path == current.path && now
            < c.deadline,
{
}

/// A listing names the directory, and each subdirectory with the command that
/// changes to it.
pub proof fn listings_name_the_subdirectories(path: Seq<char>, children: Seq<Seq<char>>, i: int) -> (at: int)
    requires
        0 <= i < children.len(),
    ensures
        ({
            let line = "\n/cd "@ + children[i];
            &&& 0 <= at <= at + line.len() <= listing(path, children).len()
            &&& listing(path, children).subrange(at, at + line.len()) == line
        }),
        begins_with(listing(path, children), "当前目录："@ + path + "\n子目录（最多 20 项）："@),
{
    let start = "当前目录："@ + path + "\n子目录（最多 20 项）："@;
    let at = child_line_at(start, children, i);
    let line = "\n/cd "@ + children[i];
    let lines = child_lines(start, children);
    assert(listing(path, children).subrange(at, at + line.len()) =~= lines.subrange(at, at + line.len()));
    assert(listing(path, children).take(start.len() as int) =~= lines.take(start.len() as int));
    at
}

proof fn child_line_at(start: Seq<char>, children: Seq<Seq<char>>, i: int) -> (at: int)
    requires
        0 <= i < children.len(),
    ensures
        ({
            let line = "\n/cd "@ + children[i];
            let lines = child_lines(start, children);
            &&& start.len() <= at <= at + line.len() <= lines.len()
            &&& lines.subrange(at, at + line.len()) == line
            &&& lines.take(start.len() as int) == start
        }),
    decreases children.len(),
{
    let before = child_lines(start, children.drop_last());
    let lines = child_lines(start, children);
    let line = "\n/cd "@ + children[i];
    child_lines_begin(start, children.drop_last());
    assert(lines =~= before + ("\n/cd "@ + children.last()));
    assert(lines.take(start.len() as int) =~= before.take(start.len() as int));
    if i == children.len() - 1 {
        assert(lines.subrange(before.len() as int, before.len() as int + line.len()) =~= line);
        before.len() as int
    } else {
        assert(children.drop_last()[i] == children[i]);
        let at = child_line_at(start, children.drop_last(), i);
        assert(lines.subrange(at, at + line.len()) =~= before.subrange(at, at + line.len()));
        at
    }
}

proof fn child_lines_begin(start: Seq<char>, children: Seq<Seq<char>>)
    ensures
        start.len() <= child_lines(start, children).len(),
        child_lines(start, children).take(start.len() as int) == start,
    decreases children.len(),
{
    let lines = child_lines(start, children);
    if children.len() == 0 {
        assert(lines.take(start.len() as int) =~= start);
    } else {
        child_lines_begin(start, children.drop_last());
        assert(lines.take(start.len() as int) =~= child_lines(start, children.drop_last()).take(start.len() as int));
    }
}

} // verus!
