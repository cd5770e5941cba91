//! Values shared by every part of the bridge: directories, session keys, tasks.
use vstd::prelude::*;
use vstd::string::*;
use crate::text::{begins_with, chars_of, opt, same, starts_with};

verus! {

/// A directory or file path. `text` is how it is shown; `path` is its
/// normalized form, by which paths are compared: components joined by `/`,
/// without repeated or trailing separators and without `.` components.
#[derive(Debug, PartialEq, Eq)]
pub struct Directory {
    pub text: String,
    pub path: String,
}

impl Clone for Directory {
    fn clone(&self) -> (r: Self)
        ensures
            r == *self,
    {
        Directory { text: self.text.clone(), path: self.path.clone() }
    }
}

/// A path by its texts.
pub struct DirectoryText {
    pub text: Seq<char>,
    pub path: Seq<char>,
}

impl View for Directory {
    type V = DirectoryText;

    open spec fn view(&self) -> DirectoryText {
        DirectoryText { text: self.text@, path: self.path@ }
    }
}

/// Paths are the same when their normalized forms are.
pub open spec fn same_path(a: DirectoryText, b: DirectoryText) -> bool {
    a.path == b.path
}

/// The path starts at the root of the file system.
pub open spec fn is_rooted(d: DirectoryText) -> bool {
    d.path.len() > 0 && d.path[0] == '/'
}

/// The path is `root` or lies below it, component by component.
pub open spec fn lies_in(d: DirectoryText, root: DirectoryText) -> bool {
    ||| root.path.len() == 0
    ||| d.path == root.path
    ||| root.path == "/"@ && is_rooted(d)
    ||| begins_with(d.path, root.path + "/"@)
}

/// The component that begins at `i` goes up one level.
pub open spec fn climbs_at(path: Seq<char>, i: int) -> bool {
    &&& 0 <= i
    &&& i + 2 <= path.len()
    &&& path[i] == '.'
    &&& path[i + 1] == '.'
    &&& i == 0 || path[i - 1] == '/'
    &&& i + 2 == path.len() || path[i + 2] == '/'
}

/// Some component of the path goes up one level.
pub open spec fn climbs(d: DirectoryText) -> bool {
    exists|i: int| #[trigger] climbs_at(d.path, i)
}

impl Directory {
    pub fn is_absolute(&self) -> (r: bool)
        ensures
            r == is_rooted(self@),
    {
        self.path.as_str().unicode_len() > 0 && self.path.as_str().get_char(0) == '/'
    }

    pub fn starts_with(&self, root: &Directory) -> (r: bool)
        ensures
            r == lies_in(self@, root@),
    {
        if root.path.as_str().is_empty() || same(self.path.as_str(), root.path.as_str()) {
            return true;
        }
        if same(root.path.as_str(), "/") && self.is_absolute() {
            return true;
        }
        let mut below = root.path.clone();
        below.append("/");
        starts_with(self.path.as_str(), below.as_str())
    }

    pub fn has_parent_component(&self) -> (r: bool)
        ensures
            r == climbs(self@),
    {
        let c = chars_of(self.path.as_str());
        if c.len() < 2 {
            return false;
        }
        let mut i: usize = 0;
        while i <= c.len() - 2
            invariant
                c@ == self@.path,
                2 <= c@.len(),
                i + 1 <= c@.len(),
                forall|j: int| 0 <= j < i ==> !#[trigger] climbs_at(self@.path, j),
            decreases c.len() - i,
        {
            if c[i] == '.' && c[i + 1] == '.' && (i == 0 || c[i - 1] == '/') && (i + 2 == c.len() || c[i + 2] == '/') {
                assert(climbs_at(self@.path, i as int));
                return true;
            }
            i = i + 1;
        }
        false
    }

    pub fn same(&self, other: &Directory) -> (r: bool)
        ensures
            r == same_path(self@, other@),
    {
        same(self.path.as_str(), other.path.as_str())
    }
}

/// One user working in one directory.
#[derive(Debug, PartialEq, Eq)]
pub struct SessionKey {
    pub user: String,
    pub workspace: Directory,
}

impl Clone for SessionKey {
    fn clone(&self) -> (r: Self)
        ensures
            r == *self,
    {
        SessionKey { user: self.user.clone(), workspace: self.workspace.clone() }
    }
}

/// A session key by its texts.
pub struct SessionText {
    pub user: Seq<char>,
    pub workspace: DirectoryText,
}

impl View for SessionKey {
    type V = SessionText;

    open spec fn view(&self) -> SessionText {
        SessionText { user: self.user@, workspace: self.workspace@ }
    }
}

/// The same user in the same directory.
pub open spec fn same_session(a: SessionText, b: SessionText) -> bool {
    a.user == b.user && same_path(a.workspace, b.workspace)
}

impl SessionKey {
    pub fn same(&self, other: &SessionKey) -> (r: bool)
        ensures
            r == same_session(self@, other@),
    {
        same(self.user.as_str(), other.user.as_str()) && self.workspace.same(&other.workspace)
    }
}

#[derive(Debug, Clone, Copy, PartialEq, Eq, Structural)]
pub enum ExecutionMode {
    Plan,
    Execute,
}

/// One prompt to execute for a session.
#[derive(Debug, PartialEq, Eq)]
pub struct TaskSpec {
    pub id: String,
    pub session: SessionKey,
    pub chat: String,
    pub prompt: String,
    pub model: Option<String>,
    pub mode: ExecutionMode,
}

/// A task by its texts.
pub struct TaskText {
    pub id: Seq<char>,
    pub session: SessionText,
    pub chat: Seq<char>,
    pub prompt: Seq<char>,
    pub model: Option<Seq<char>>,
    pub mode: ExecutionMode,
}

impl View for TaskSpec {
    type V = TaskText;

    open spec fn view(&self) -> TaskText {
        TaskText {
            id: self.id@,
            session: self.session@,
            chat: self.chat@,
            prompt: self.prompt@,
            model: opt(self.model),
            mode: self.mode,
        }
    }
}

impl Clone for TaskSpec {
    fn clone(&self) -> (r: Self)
        ensures
            r == *self,
    {
        TaskSpec {
            id: self.id.clone(),
            session: self.session.clone(),
            chat: self.chat.clone(),
            prompt: self.prompt.clone(),
            model: self.model.clone(),
            mode: self.mode,
        }
    }
}

/// What is below a directory lies in it; what only begins with the same letters
/// does not.
pub proof fn only_what_is_below_lies_in(d: DirectoryText, root: DirectoryText, rest: Seq<char>, c: char)
    requires
        root.path.len() > 1,
    ensures
        d.path == root.path ==> lies_in(d, root),
        d.path == root.path + "/"@ + rest ==> lies_in(d, root),
        d.path == root.path.push(c) + rest && c != '/' ==> !lies_in(d, root),
        d.path.len() < root.path.len() ==> !lies_in(d, root),
{
    reveal_strlit("/");
    if d.path == root.path + "/"@ + rest {
        assert(d.path.take((root.path + "/"@).len() as int) =~= root.path + "/"@);
    }
    if d.path == root.path.push(c) + rest && c != '/' {
        assert(d.path[root.path.len() as int] == c);
        if begins_with(d.path, root.path + "/"@) {
            assert(d.path.take((root.path + "/"@).len() as int)[root.path.len() as int] == '/');
        }
    }
}

/// A path climbs where one of its components is two dots, and only there.
pub proof fn two_dots_climb(d: DirectoryText, head: Seq<char>, rest: Seq<char>)
    ensures
        d.path == head + "/.."@ ==> climbs(d),
        d.path == head + "/../"@ + rest ==> climbs(d),
        d.path == ".."@ ==> climbs(d),
        (forall|i: int| 0 <= i && i + 1 < d.path.len() ==> !(d.path[i] == '.' && #[trigger] d.path[i + 1] == '.')) ==> !climbs(d),
{
    reveal_strlit("/..");
    reveal_strlit("/../");
    reveal_strlit("..");
    if d.path == head + "/.."@ {
        assert(climbs_at(d.path, head.len() as int + 1));
    }
    if d.path == head + "/../"@ + rest {
        assert(climbs_at(d.path, head.len() as int + 1));
    }
    if d.path == ".."@ {
        assert(climbs_at(d.path, 0));
    }
    if forall|i: int| 0 <= i && i + 1 < d.path.len() ==> !(d.path[i] == '.' && #[trigger] d.path[i + 1] == '.') {
        assert forall|i: int| !(#[trigger] climbs_at(d.path, i)) by {
            if climbs_at(d.path, i) {
                assert(d.path[i + 1] == '.');
            }
        }
    }
}

} // verus!
