//! The slash commands that a user may send.
use vstd::prelude::*;
use vstd::string::*;
use crate::text::{is_space, opt, same, texts, trim, trimmed, trimmed_of_trimmed};
use crate::words::{
    cut_field, fields_end_at_white_space, first_field, first_word, first_word_begins, is_word, spaced, spaced_words_are_read, split_words, two_words, words,
};

verus! {

/// A command with its arguments.
#[derive(Debug, PartialEq, Eq)]
pub enum Command {
    Approve { token: String, allow: bool },
    ConfirmDirectory(String),
    ChangeDirectory(Option<String>),
    Models,
    Model(Option<String>),
    Plan(Option<bool>),
    Resume(Option<String>),
    Archive(String),
    Unarchive(String),
    Archived,
}

/// A command by its texts.
pub enum CommandText {
    Approve { token: Seq<char>, allow: bool },
    ConfirmDirectory(Seq<char>),
    ChangeDirectory(Option<Seq<char>>),
    Models,
    Model(Option<Seq<char>>),
    Plan(Option<bool>),
    Resume(Option<Seq<char>>),
    Archive(Seq<char>),
    Unarchive(Seq<char>),
    Archived,
}

impl View for Command {
    type V = CommandText;

    open spec fn view(&self) -> CommandText {
        match self {
            Command::Approve { token, allow } => CommandText::Approve { token: token@, allow: *allow },
            Command::ConfirmDirectory(t) => CommandText::ConfirmDirectory(t@),
            Command::ChangeDirectory(t) => CommandText::ChangeDirectory(opt(*t)),
            Command::Models => CommandText::Models,
            Command::Model(m) => CommandText::Model(opt(*m)),
            Command::Plan(p) => CommandText::Plan(*p),
            Command::Resume(t) => CommandText::Resume(opt(*t)),
            Command::Archive(t) => CommandText::Archive(t@),
            Command::Unarchive(t) => CommandText::Unarchive(t@),
            Command::Archived => CommandText::Archived,
        }
    }
}

/// The text is no known command, or its arguments do not fit.
#[derive(Debug, Clone, Copy, PartialEq, Eq, Structural)]
pub struct ParseError;

/// The command that a text without surrounding white space stands for.
pub open spec fn command_of(text: Seq<char>) -> Option<CommandText> {
    let w = words(text);
    if w.len() == 0 {
        None
    } else if w[0] == "/cd"@ {
        // A path may hold spaces: everything after the command belongs to it.
        match first_field(text).1 {
            None => Some(CommandText::ChangeDirectory(None)),
            Some(rest) => Some(CommandText::ChangeDirectory(Some(trimmed(rest)))),
        }
    } else if w.len() == 1 {
        if w[0] == "/models"@ {
            Some(CommandText::Models)
        } else if w[0] == "/model"@ {
            Some(CommandText::Model(None))
        } else if w[0] == "/plan"@ {
            Some(CommandText::Plan(None))
        } else if w[0] == "/resume"@ {
            Some(CommandText::Resume(None))
        } else if w[0] == "/archived"@ {
            Some(CommandText::Archived)
        } else {
            None
        }
    } else if w.len() == 2 {
        if w[0] == "/approve"@ {
            Some(CommandText::Approve { token: w[1], allow: true })
        } else if w[0] == "/deny"@ {
            Some(CommandText::Approve { token: w[1], allow: false })
        } else if w[0] == "/cd-confirm"@ {
            Some(CommandText::ConfirmDirectory(w[1]))
        } else if w[0] == "/model"@ {
            Some(CommandText::Model(Some(w[1])))
        } else if w[0] == "/plan"@ && w[1] == "on"@ {
            Some(CommandText::Plan(Some(true)))
        } else if w[0] == "/plan"@ && w[1] == "off"@ {
            Some(CommandText::Plan(Some(false)))
        } else if w[0] == "/resume"@ {
            Some(CommandText::Resume(Some(w[1])))
        } else if w[0] == "/archive"@ {
            Some(CommandText::Archive(w[1]))
        } else if w[0] == "/unarchive"@ {
            Some(CommandText::Unarchive(w[1]))
        } else {
            None
        }
    } else {
        None
    }
}

impl Command {
    pub fn parse(text: &str) -> (r: Result<Command, ParseError>)
        ensures
            match r {
                Ok(c) => command_of(text@) == Some(c@),
                Err(_) => command_of(text@) is None,
            },
    {
        let w = split_words(text);
        proof {
            assert(texts(w@).len() == w@.len());
            assert forall|i: int| 0 <= i < w@.len() implies words(text@)[i] == (#[trigger] w@[i])@ by {
                assert(texts(w@)[i] == w@[i]@);
            }
        }
        if w.len() == 0 {
            return Err(ParseError);
        }
        if same(w[0].as_str(), "/cd") {
            let (_, rest) = cut_field(text);
            return match rest {
                None => Ok(Command::ChangeDirectory(None)),
                Some(path) => Ok(Command::ChangeDirectory(Some(trim(path.as_str())))),
            };
        }
        let name = w[0].as_str();
        if w.len() == 1 {
            if same(name, "/models") {
                Ok(Command::Models)
            } else if same(name, "/model") {
                Ok(Command::Model(None))
            } else if same(name, "/plan") {
                Ok(Command::Plan(None))
            } else if same(name, "/resume") {
                Ok(Command::Resume(None))
            } else if same(name, "/archived") {
                Ok(Command::Archived)
            } else {
                Err(ParseError)
            }
        } else if w.len() == 2 {
            let argument = w[1].clone();
            if same(name, "/approve") {
                Ok(Command::Approve { token: argument, allow: true })
            } else if same(name, "/deny") {
                Ok(Command::Approve { token: argument, allow: false })
            } else if same(name, "/cd-confirm") {
                Ok(Command::ConfirmDirectory(argument))
            } else if same(name, "/model") {
                Ok(Command::Model(Some(argument)))
            } else if same(name, "/plan") && same(argument.as_str(), "on") {
                Ok(Command::Plan(Some(true)))
            } else if same(name, "/plan") && same(argument.as_str(), "off") {
                Ok(Command::Plan(Some(false)))
            } else if same(name, "/resume") {
                Ok(Command::Resume(Some(argument)))
            } else if same(name, "/archive") {
                Ok(Command::Archive(argument))
            } else if same(name, "/unarchive") {
                Ok(Command::Unarchive(argument))
            } else {
                Err(ParseError)
            }
        } else {
            Err(ParseError)
        }
    }
}

/// The names of commands are words, and no two are the same.
proof fn names_differ()
    ensures
        is_word("/approve"@),
        is_word("/deny"@),
        is_word("/cd-confirm"@),
        is_word("/model"@),
        is_word("/models"@),
        is_word("/plan"@),
        is_word("/resume"@),
        is_word("/archive"@),
        is_word("/archived"@),
        is_word("/unarchive"@),
        is_word("/cd"@),
        is_word("on"@),
        is_word("off"@),
        "/cd"@.len() == 3,
        "/deny"@.len() == 5,
        "/plan"@.len() == 5,
        "/model"@.len() == 6,
        "/models"@.len() == 7,
        "/resume"@.len() == 7,
        "/approve"@.len() == 8,
        "/archive"@.len() == 8,
        "/archived"@.len() == 9,
        "/unarchive"@.len() == 10,
        "/cd-confirm"@.len() == 11,
        "/deny"@[1] == 'd',
        "/plan"@[1] == 'p',
        "/models"@[1] == 'm',
        "/resume"@[1] == 'r',
        "/approve"@[2] == 'p',
        "/archive"@[2] == 'r',
        "on"@.len() == 2,
        "off"@.len() == 3,
{
    reveal_strlit("/approve");
    reveal_strlit("/deny");
    reveal_strlit("/cd-confirm");
    reveal_strlit("/model");
    reveal_strlit("/models");
    reveal_strlit("/plan");
    reveal_strlit("/resume");
    reveal_strlit("/archive");
    reveal_strlit("/archived");
    reveal_strlit("/unarchive");
    reveal_strlit("/cd");
    reveal_strlit("on");
    reveal_strlit("off");
}

/// A command with one argument, as its words.
proof fn one_argument(name: Seq<char>, line: Seq<char>, t: Seq<char>)
    requires
        is_word(name),
        is_word(t),
        line == name + " "@,
    ensures
        words(line + t) == seq![name, t],
        words(line + t)[0] == name,
        words(line + t)[1] == t,
{
    two_words(name, t);
    assert(line + t == name + " "@ + t);
}

/// An approval is read as one and a refusal as a refusal, each of the request
/// whose token follows the word.
pub proof fn decisions_are_read(t: Seq<char>)
    requires
        is_word(t),
    ensures
        command_of("/approve "@ + t) == Some(CommandText::Approve { token: t, allow: true }),
        command_of("/deny "@ + t) == Some(CommandText::Approve { token: t, allow: false }),
        command_of("/cd-confirm "@ + t) == Some(CommandText::ConfirmDirectory(t)),
{
    names_differ();
    reveal_strlit(" ");
    reveal_strlit("/approve");
    reveal_strlit("/deny");
    reveal_strlit("/cd-confirm");
    reveal_strlit("/approve ");
    reveal_strlit("/deny ");
    reveal_strlit("/cd-confirm ");
    assert("/approve "@ =~= "/approve"@ + " "@);
    assert("/deny "@ =~= "/deny"@ + " "@);
    assert("/cd-confirm "@ =~= "/cd-confirm"@ + " "@);
    one_argument("/approve"@, "/approve "@, t);
    one_argument("/deny"@, "/deny "@, t);
    one_argument("/cd-confirm"@, "/cd-confirm "@, t);
}

/// A session's threads are opened, put away and taken back by their own words.
pub proof fn thread_commands_are_read(t: Seq<char>)
    requires
        is_word(t),
    ensures
        command_of("/resume "@ + t) == Some(CommandText::Resume(Some(t))),
        command_of("/archive "@ + t) == Some(CommandText::Archive(t)),
        command_of("/unarchive "@ + t) == Some(CommandText::Unarchive(t)),
        command_of("/resume"@) == Some(CommandText::Resume(None)),
        command_of("/archived"@) == Some(CommandText::Archived),
{
    names_differ();
    reveal_strlit(" ");
    reveal_strlit("/resume");
    reveal_strlit("/archive");
    reveal_strlit("/unarchive");
    reveal_strlit("/resume ");
    reveal_strlit("/archive ");
    reveal_strlit("/unarchive ");
    assert("/resume "@ =~= "/resume"@ + " "@);
    assert("/archive "@ =~= "/archive"@ + " "@);
    assert("/unarchive "@ =~= "/unarchive"@ + " "@);
    one_argument("/resume"@, "/resume "@, t);
    one_argument("/archive"@, "/archive "@, t);
    one_argument("/unarchive"@, "/unarchive "@, t);
    one_word("/resume"@);
    one_word("/archived"@);
}

/// A text that is one word.
pub proof fn one_word(name: Seq<char>)
    requires
        is_word(name),
    ensures
        words(name) == seq![name],
        words(name)[0] == name,
{
    reveal_with_fuel(spaced, 2);
    spaced_words_are_read(seq![name]);
}

/// Preferences are shown without an argument and set with one; `on` and `off`
/// set the planning mode to what they say.
pub proof fn preference_commands_are_read(m: Seq<char>)
    requires
        is_word(m),
    ensures
        command_of("/models"@) == Some(CommandText::Models),
        command_of("/model"@) == Some(CommandText::Model(None)),
        command_of("/model "@ + m) == Some(CommandText::Model(Some(m))),
        command_of("/plan"@) == Some(CommandText::Plan(None)),
        command_of("/plan on"@) == Some(CommandText::Plan(Some(true))),
        command_of("/plan off"@) == Some(CommandText::Plan(Some(false))),
{
    names_differ();
    reveal_strlit(" ");
    reveal_strlit("/model");
    reveal_strlit("/model ");
    assert("/model "@ =~= "/model"@ + " "@);
    one_argument("/model"@, "/model "@, m);
    one_word("/models"@);
    one_word("/model"@);
    one_word("/plan"@);
    plan_words();
}

proof fn plan_words()
    ensures
        words("/plan on"@) == seq!["/plan"@, "on"@],
        words("/plan off"@) == seq!["/plan"@, "off"@],
{
    names_differ();
    reveal_strlit(" ");
    reveal_strlit("/plan");
    reveal_strlit("on");
    reveal_strlit("off");
    reveal_strlit("/plan on");
    reveal_strlit("/plan off");
    assert("/plan on"@ =~= "/plan"@ + " "@ + "on"@);
    assert("/plan off"@ =~= "/plan"@ + " "@ + "off"@);
    two_words("/plan"@, "on"@);
    two_words("/plan"@, "off"@);
}

/// A directory may hold blanks: all that follows the command belongs to its path.
pub proof fn directories_are_read(path: Seq<char>)
    requires
        path.len() > 0 ==> !is_space(path[0]) && !is_space(path.last()),
    ensures
        command_of("/cd"@) == Some(CommandText::ChangeDirectory(None)),
        command_of("/cd "@ + path) == Some(CommandText::ChangeDirectory(Some(path))),
{
    names_differ();
    reveal_strlit(" ");
    reveal_strlit("/cd");
    reveal_strlit("/cd ");
    one_word("/cd"@);
    let line = "/cd "@ + path;
    assert(line =~= "/cd"@ + " "@ + path);
    fields_end_at_white_space("/cd"@, path);
    trimmed_of_trimmed(path);
    first_word("/cd"@, " "@ + path);
    assert(line =~= "/cd"@ + (" "@ + path));
    assert(words(line)[0] == "/cd"@);
}

/// A text that does not begin with a slash is no command.
pub proof fn commands_begin_with_a_slash(text: Seq<char>)
    requires
        text.len() > 0,
        !is_space(text[0]),
        text[0] != '/',
    ensures
        command_of(text) is None,
        words(text).len() > 0,
        words(text)[0].len() > 0,
        words(text)[0][0] == text[0],
{
    names_differ();
    reveal_strlit("/approve");
    reveal_strlit("/deny");
    reveal_strlit("/cd-confirm");
    reveal_strlit("/model");
    reveal_strlit("/models");
    reveal_strlit("/plan");
    reveal_strlit("/resume");
    reveal_strlit("/archive");
    reveal_strlit("/archived");
    reveal_strlit("/unarchive");
    reveal_strlit("/cd");
    first_word_begins(text);
}

/// A single word that names no command.
pub proof fn other_words_are_no_commands(text: Seq<char>)
    requires
        is_word(text),
        text != "/cd"@,
        text != "/models"@,
        text != "/model"@,
        text != "/plan"@,
        text != "/resume"@,
        text != "/archived"@,
    ensures
        command_of(text) is None,
        words(text) == seq![text],
{
    one_word(text);
}

/// A sent command is read as what it says, with the argument that follows it.
pub proof fn sent_commands_are_read(text: &str, t: Seq<char>, r: Result<Command, ParseError>)
    requires
        call_ensures(Command::parse, (text,), r),
        is_word(t),
    ensures
        text@ == "/approve "@ + t ==> (r matches Ok(Command::Approve { token, allow }) && token@ == t && allow),
        text@ == "/deny "@ + t ==> (r matches Ok(Command::Approve { token, allow }) && token@ == t && !allow),
        text@ == "/cd-confirm "@ + t ==> (r matches Ok(Command::ConfirmDirectory(token)) && token@ == t),
        text@ == "/resume "@ + t ==> (r matches Ok(Command::Resume(Some(id))) && id@ == t),
        text@ == "/archive "@ + t ==> (r matches Ok(Command::Archive(id)) && id@ == t),
        text@ == "/unarchive "@ + t ==> (r matches Ok(Command::Unarchive(id)) && id@ == t),
        text@ == "/model "@ + t ==> (r matches Ok(Command::Model(Some(m))) && m@ == t),
        text@ == "/plan on"@ ==> r == Ok::<Command, ParseError>(Command::Plan(Some(true))),
        text@ == "/plan off"@ ==> r == Ok::<Command, ParseError>(Command::Plan(Some(false))),
        text@ == "/cd "@ + t ==> (r matches Ok(Command::ChangeDirectory(Some(path))) && path@ == t),
{
    decisions_are_read(t);
    thread_commands_are_read(t);
    preference_commands_are_read(t);
    assert(!is_space(t[0]) && !is_space(t[t.len() - 1]));
    directories_are_read(t);
}

} // verus!
