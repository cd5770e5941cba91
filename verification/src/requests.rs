//! Platform-independent agent interactions. Replies are single use: a reply
//! slot is named by a number that is handed out once.
use vstd::prelude::*;
use crate::ports::TurnRef;
use crate::text::{opt, same, Texts};

verus! {

#[derive(Debug, Clone, Copy, PartialEq, Eq, Structural)]
pub enum ApprovalKind {
    Command,
    WriteStdin,
    FileChange,
}

/// One file of a proposed modification.
#[derive(Debug, PartialEq, Eq)]
pub struct FileChange {
    pub path: String,
    pub operation: String,
    pub move_path: Option<String>,
    pub diff: String,
}

impl Clone for FileChange {
    fn clone(&self) -> (r: Self)
        ensures
            r == *self,
    {
        FileChange {
            path: self.path.clone(),
            operation: self.operation.clone(),
            move_path: self.move_path.clone(),
            diff: self.diff.clone(),
        }
    }
}

#[derive(Debug, PartialEq, Eq)]
pub struct Approval {
    pub kind: ApprovalKind,
    pub command: Option<String>,
    pub directory: Option<String>,
    pub reason: Option<String>,
    pub grant_root: Option<String>,
    pub permissions: Option<String>,
    pub network_context: Option<String>,
    pub changes: Option<Vec<FileChange>>,
    pub can_allow: bool,
}

/// An approval by its texts.
pub struct ApprovalText {
    pub kind: ApprovalKind,
    pub command: Option<Seq<char>>,
    pub directory: Option<Seq<char>>,
    pub reason: Option<Seq<char>>,
    pub grant_root: Option<Seq<char>>,
    pub permissions: Option<Seq<char>>,
    pub network_context: Option<Seq<char>>,
    pub changes: Option<Seq<FileChange>>,
    pub can_allow: bool,
}

impl View for Approval {
    type V = ApprovalText;

    open spec fn view(&self) -> ApprovalText {
        ApprovalText {
            kind: self.kind,
            command: opt(self.command),
            directory: opt(self.directory),
            reason: opt(self.reason),
            grant_root: opt(self.grant_root),
            permissions: opt(self.permissions),
            network_context: opt(self.network_context),
            changes: match self.changes {
                Some(c) => Some(c@),
                None => None,
            },
            can_allow: self.can_allow,
        }
    }
}

#[derive(Debug, PartialEq, Eq)]
pub struct QuestionOption {
    pub label: String,
    pub description: String,
}

#[derive(Debug, PartialEq, Eq)]
pub struct Question {
    pub id: String,
    pub header: String,
    pub text: String,
    pub other: bool,
    pub secret: bool,
    pub options: Vec<QuestionOption>,
}

#[derive(Debug, PartialEq, Eq)]
pub enum RequestKind {
    Approval(Approval),
    Questions { blocking: bool, questions: Vec<Question> },
}

/// A request's kind by its texts.
pub enum KindText {
    Approval(ApprovalText),
    Questions { blocking: bool, questions: Seq<Question> },
}

impl View for RequestKind {
    type V = KindText;

    open spec fn view(&self) -> KindText {
        match self {
            RequestKind::Approval(a) => KindText::Approval(a@),
            RequestKind::Questions { blocking, questions } => KindText::Questions { blocking: *blocking, questions: questions@ },
        }
    }
}

#[derive(Debug, PartialEq, Eq)]
pub struct AgentRequest {
    pub turn: TurnRef,
    pub item: String,
    pub kind: RequestKind,
}

/// Answers by question id; a later answer to one question replaces the earlier.
#[derive(Debug, PartialEq, Eq)]
pub struct Answers {
    entries: Vec<(String, Texts)>,
}

spec fn replaced(entries: Seq<(String, Texts)>) -> Map<Seq<char>, Seq<Seq<char>>>
    decreases entries.len(),
{
    if entries.len() == 0 {
        Map::empty()
    } else {
        replaced(entries.drop_last()).insert(entries.last().0@, entries.last().1@)
    }
}

impl View for Answers {
    type V = Map<Seq<char>, Seq<Seq<char>>>;

    closed spec fn view(&self) -> Map<Seq<char>, Seq<Seq<char>>> {
        replaced(self.entries@)
    }
}

impl Answers {
    pub fn new() -> (r: Self)
        ensures
            r@ == Map::<Seq<char>, Seq<Seq<char>>>::empty(),
    {
        Answers { entries: Vec::new() }
    }

    pub fn insert(&mut self, id: String, answer: Texts)
        ensures
            final(self)@ == old(self)@.insert(id@, answer@),
    {
        self.entries.push((id, answer));
        proof {
            assert(self.entries@.drop_last() =~= old(self).entries@);
        }
    }

    pub fn get(&self, id: &str) -> (r: Option<&Texts>)
        ensures
            r is Some <==> self@.contains_key(id@),
            r matches Some(t) ==> t@ == self@[id@],
    {
        let mut i: usize = self.entries.len();
        proof {
            assert(self.entries@.take(i as int) =~= self.entries@);
        }
        while i > 0
            invariant
                i <= self.entries@.len(),
                self@.contains_key(id@) == replaced(self.entries@.take(i as int)).contains_key(id@),
                self@.contains_key(id@) ==> self@[id@] == replaced(self.entries@.take(i as int))[id@],
            decreases i,
        {
            proof {
                let t = self.entries@.take(i as int);
                assert(t.drop_last() =~= self.entries@.take(i - 1));
                assert(t.last() == self.entries@[i - 1]);
            }
            if same(self.entries[i - 1].0.as_str(), id) {
                return Some(&self.entries[i - 1].1);
            }
            i = i - 1;
        }
        None
    }

    /// How many answers were recorded, replaced ones counted too.
    pub fn recorded(&self) -> (n: usize)
        ensures
            n == self.history().len(),
    {
        self.entries.len()
    }

    /// Every answer in the order in which it was recorded.
    pub closed spec fn history(&self) -> Seq<(Seq<char>, Seq<Seq<char>>)> {
        self.entries@.map_values(|e: (String, Texts)| (e.0@, e.1@))
    }

    /// One recorded answer, by its place in the order.
    pub fn entry(&self, i: usize) -> (r: (&String, &Texts))
        requires
            i < self.history().len(),
        ensures
            (r.0@, r.1@) == self.history()[i as int],
    {
        (&self.entries[i].0, &self.entries[i].1)
    }
}

impl Clone for Answers {
    fn clone(&self) -> (r: Self)
        ensures
            r@ == self@,
            r.history() == self.history(),
    {
        let mut entries: Vec<(String, Texts)> = Vec::new();
        let mut i: usize = 0;
        while i < self.entries.len()
            invariant
                i <= self.entries@.len(),
                entries@.len() == i,
                replaced(entries@) == replaced(self.entries@.take(i as int)),
                forall|j: int| 0 <= j < i ==> (#[trigger] entries@[j]).0@ == self.entries@[j].0@ && entries@[j].1@ == self.entries@[j].1@,
            decreases self.entries.len() - i,
        {
            let ghost before = entries@;
            entries.push((self.entries[i].0.clone(), self.entries[i].1.clone()));
            proof {
                assert(self.entries@.take(i + 1).drop_last() =~= self.entries@.take(i as int));
                assert(entries@.drop_last() =~= before);
            }
            i = i + 1;
        }
        proof {
            assert(self.entries@.take(i as int) =~= self.entries@);
        }
        let r = Answers { entries };
        proof {
            assert(r.history() =~= self.history());
        }
        r
    }
}

/// What is written back to the agent. Answers are keyed by question id.
pub enum AgentReply {
    Approve(bool),
    Answers(Answers),
}

} // verus!
