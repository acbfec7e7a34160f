//! Session files and the sessions that they describe.

use vstd::prelude::*;
use vstd::string::*;

use crate::command::{command_of, session_command};
use crate::path::{file_stem, file_stem_of};
use crate::pattern::{capture_first_group, first_group};

verus! {

/// The pattern that finds the launch command: `Exec=`, then the rest of the
/// line, which is captured.
pub const EXEC_PATTERN: &'static str = "Exec=(.*)";

/// The pattern that finds the display name: `Name=`, then the rest of the
/// line, which is captured.
pub const NAME_PATTERN: &'static str = "Name=(.*)";

/// A session file that was read: where it lies and what it holds.
#[derive(Debug, PartialEq, Eq)]
pub struct SessionFile {
    /// The path of the file.
    pub path: String,
    /// The contents of the file.
    pub text: String,
}

/// A session file as a plain value.
pub struct SessionFileView {
    /// The characters of the path.
    pub path: Seq<char>,
    /// The characters of the contents.
    pub text: Seq<char>,
}

impl View for SessionFile {
    type V = SessionFileView;

    open spec fn view(&self) -> SessionFileView {
        SessionFileView { path: self.path@, text: self.text@ }
    }
}

impl DeepView for SessionFile {
    type V = SessionFileView;

    open spec fn deep_view(&self) -> SessionFileView {
        self@
    }
}

/// A session that can be launched: the name under which it is offered and
/// the words of the command that starts it.
#[derive(Debug, PartialEq, Eq)]
pub struct SessionDescriptor {
    /// The name shown for the session.
    pub name: String,
    /// The command and its arguments. It has at least one word.
    pub command: Vec<String>,
}

/// A session as a plain value.
pub struct SessionDescriptorView {
    /// The characters of the name.
    pub name: Seq<char>,
    /// The words of the command, each as its characters.
    pub command: Seq<Seq<char>>,
}

impl View for SessionDescriptor {
    type V = SessionDescriptorView;

    open spec fn view(&self) -> SessionDescriptorView {
        SessionDescriptorView { name: self.name@, command: self.command.deep_view() }
    }
}

impl DeepView for SessionDescriptor {
    type V = SessionDescriptorView;

    open spec fn deep_view(&self) -> SessionDescriptorView {
        self@
    }
}

/// The name of a session whose `Name` value was captured as `capture` from
/// the file at `path`: the captured value where there is one, even an empty
/// one; else the stem of the file's name; none where the path names no file.
pub open spec fn name_of(capture: Option<Seq<char>>, path: Seq<char>) -> Option<Seq<char>> {
    match capture {
        Some(name) => Some(name),
        None => file_stem(path),
    }
}

/// The session that a file describes, if it describes one: it must have a
/// command, and a name of its own or a file name to borrow one from.
pub open spec fn descriptor_of(file: SessionFileView) -> Option<SessionDescriptorView> {
    match command_of(first_group(EXEC_PATTERN@, file.text)) {
        Some(command) => match name_of(first_group(NAME_PATTERN@, file.text), file.path) {
            Some(name) => Some(SessionDescriptorView { name, command }),
            None => None,
        },
        None => None,
    }
}

/// The sessions that `files` describe, by name: each file that describes a
/// session puts it under its name, in the order of `files`, so that of two
/// sessions with one name the later stays.
pub open spec fn sessions_of(files: Seq<SessionFileView>) -> Map<Seq<char>, Seq<Seq<char>>>
    decreases files.len(),
{
    if files.len() == 0 {
        Map::empty()
    } else {
        let earlier = sessions_of(files.drop_last());
        match descriptor_of(files.last()) {
            Some(session) => earlier.insert(session.name, session.command),
            None => earlier,
        }
    }
}

/// A file without a command describes no session, whatever name it gives:
/// it leaves the sessions as they were.
pub proof fn lemma_no_command_no_session(files: Seq<SessionFileView>, file: SessionFileView)
    requires
        first_group(EXEC_PATTERN@, file.text) matches Some(line) ==> line.len() == 0,
    ensures
        descriptor_of(file) is None,
        sessions_of(files.push(file)) == sessions_of(files),
{
    assert(files.push(file).drop_last() =~= files);
}

/// Whether the file at `i` describes a session called `name`.
pub open spec fn described_as(files: Seq<SessionFileView>, name: Seq<char>, i: int) -> bool {
    0 <= i < files.len() && (descriptor_of(files[i]) matches Some(session) && session.name == name)
}

/// A name is among the sessions exactly where a file describes a session of
/// that name, and it leads to the command of the last such file.
pub proof fn lemma_session_entry(files: Seq<SessionFileView>, name: Seq<char>)
    ensures
        sessions_of(files).contains_key(name) <==> exists|i: int| described_as(files, name, i),
        sessions_of(files).contains_key(name) ==> exists|i: int|
            {
                &&& #[trigger] described_as(files, name, i)
                &&& Some(sessions_of(files)[name]) == command_of(
                    first_group(EXEC_PATTERN@, files[i].text),
                )
                &&& forall|j: int| i < j ==> !described_as(files, name, j)
            },
    decreases files.len(),
{
    if files.len() > 0 {
        let front = files.drop_last();
        let last = files.len() - 1;
        lemma_session_entry(front, name);
        assert forall|i: int| described_as(front, name, i) implies described_as(files, name, i) by {
            assert(front[i] == files[i]);
        }
        assert forall|i: int| i != last && described_as(files, name, i) implies described_as(
            front,
            name,
            i,
        ) by {
            assert(front[i] == files[i]);
        }
        if described_as(files, name, last) {
            assert(sessions_of(files)[name] == descriptor_of(files[last])->Some_0.command);
        } else if sessions_of(files).contains_key(name) {
            assert(sessions_of(front).contains_key(name));
            let i = choose|i: int|
                {
                    &&& #[trigger] described_as(front, name, i)
                    &&& Some(sessions_of(front)[name]) == command_of(
                        first_group(EXEC_PATTERN@, front[i].text),
                    )
                    &&& forall|j: int| i < j ==> !described_as(front, name, j)
                };
            assert(described_as(files, name, i));
            assert(front[i] == files[i]);
            assert forall|j: int| i < j implies !described_as(files, name, j) by {
                if j != last && described_as(files, name, j) {
                    assert(described_as(front, name, j));
                }
            }
        }
    }
}

/// The files of two lists, one after the other, come to the sessions of the
/// first list overlaid with those of the second. So where a file of the
/// second list describes a session under a name that the first list has
/// used, the second list's command is the one that stays.
pub proof fn lemma_later_files_win(first: Seq<SessionFileView>, second: Seq<SessionFileView>)
    ensures
        sessions_of(first + second) == sessions_of(first).union_prefer_right(sessions_of(second)),
        forall|name: Seq<char>| #[trigger]
            sessions_of(second).contains_key(name) ==> sessions_of(first + second)[name]
                == sessions_of(second)[name],
    decreases second.len(),
{
    if second.len() == 0 {
        assert(first + second =~= first);
        assert(sessions_of(first).union_prefer_right(sessions_of(second)) =~= sessions_of(first));
    } else {
        lemma_later_files_win(first, second.drop_last());
        assert((first + second).drop_last() =~= first + second.drop_last());
        assert((first + second).last() == second.last());
        assert(sessions_of(first + second) =~= sessions_of(first).union_prefer_right(
            sessions_of(second),
        ));
    }
}

/// Every session has a command of at least one word.
pub proof fn lemma_sessions_have_commands(files: Seq<SessionFileView>, name: Seq<char>)
    requires
        sessions_of(files).contains_key(name),
    ensures
        sessions_of(files)[name].len() > 0,
    decreases files.len(),
{
    if files.len() > 0 {
        if sessions_of(files.drop_last()).contains_key(name) {
            lemma_sessions_have_commands(files.drop_last(), name);
        }
    }
}

/// Chooses the name of a session: the captured `Name` value where there is
/// one, else the stem of the file's name.
pub fn session_name(capture: Option<String>, path: &str) -> (name: Option<String>)
    ensures
        name.deep_view() == name_of(capture.deep_view(), path@),
{
    match capture {
        Some(name) => Some(name),
        None => file_stem_of(path),
    }
}

/// Reads a session file: finds its command and its name. `None` where the
/// file describes no session that could be offered.
pub fn describe(file: &SessionFile) -> (session: Option<SessionDescriptor>)
    ensures
        session.deep_view() == descriptor_of(file@),
{
    let exec = capture_first_group(EXEC_PATTERN, file.text.as_str());
    match session_command(&exec) {
        Some(command) => {
            let label = capture_first_group(NAME_PATTERN, file.text.as_str());
            match session_name(label, file.path.as_str()) {
                Some(name) => Some(SessionDescriptor { name, command }),
                None => None,
            }
        },
        None => None,
    }
}

} // verus!
