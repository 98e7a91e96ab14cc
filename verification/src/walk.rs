//! The source driver's decisions: what kind of source a path names, which entries of a
//! directory are searched or descended into, in which order, which failures are
//! reported, and what the run found.

use crate::text::same_text;
use vstd::prelude::*;

verus! {

/// The argument that stands for standard input.
pub const STDIN_PLACEHOLDER: &'static str = "-";

/// The exit status of a run that reported at least one line.
pub const EXIT_FOUND: i32 = 0;

/// The exit status of a run that reported no line.
pub const EXIT_NOT_FOUND: i32 = 1;

/// The exit status after a usage error or a pattern that does not compile.
pub const EXIT_ERROR: i32 = 2;

/// What a source argument names.
#[derive(Clone, Copy, Debug, PartialEq, Eq, Structural)]
pub enum SourceKind {
    /// The standard input stream.
    StandardInput,
    /// A directory, whose entries are searched.
    Directory,
    /// A file, read as a whole.
    File,
}

/// What a source argument names: a directory if the path is one, else standard input
/// if it is the placeholder, else a file.
pub open spec fn source_kind(path: Seq<char>, is_directory: bool) -> SourceKind {
    if is_directory {
        SourceKind::Directory
    } else if path == STDIN_PLACEHOLDER@ {
        SourceKind::StandardInput
    } else {
        SourceKind::File
    }
}

/// Classifies a source argument; `is_directory` tells whether the path is a directory.
pub fn classify_source(path: &str, is_directory: bool) -> (r: SourceKind)
    ensures
        r == source_kind(path@, is_directory),
{
    if is_directory {
        SourceKind::Directory
    } else if same_text(path, STDIN_PLACEHOLDER) {
        SourceKind::StandardInput
    } else {
        SourceKind::File
    }
}

/// What an entry of a directory is.
#[derive(Clone, Copy, Debug, PartialEq, Eq, Structural)]
pub enum EntryKind {
    Directory,
    File,
    /// Neither a directory nor a regular file.
    Other,
}

/// Classifies an entry of a directory from what the file system says of it.
pub fn classify_entry(is_directory: bool, is_file: bool) -> (r: EntryKind)
    ensures
        r == if is_directory {
            EntryKind::Directory
        } else if is_file {
            EntryKind::File
        } else {
            EntryKind::Other
        },
{
    if is_directory {
        EntryKind::Directory
    } else if is_file {
        EntryKind::File
    } else {
        EntryKind::Other
    }
}

/// An entry of a directory: its path and what it is.
#[derive(Debug)]
pub struct Entry {
    pub path: String,
    pub kind: EntryKind,
}

/// A source argument together with what the file system says of it.
#[derive(Debug)]
pub struct Source {
    pub path: String,
    pub is_directory: bool,
}

/// What a piece of work asks for.
#[derive(Clone, Copy, Debug, PartialEq, Eq, Structural)]
pub enum Action {
    /// Read standard input to its end, search it, and hand back whether it had a
    /// reported line.
    ReadStandardInput,
    /// List the directory at the path and hand its entries back.
    List,
    /// Read the file at the path, search it, and hand back whether it had a reported
    /// line.
    Search,
}

/// A piece of work for the driver.
#[derive(Debug)]
pub struct Task {
    pub action: Action,
    pub path: String,
    /// Whether the path was named on the command line. A failure on such a path is
    /// reported; a failure on a path found below a directory is passed over.
    pub named: bool,
}

/// The mathematical value of a [`Task`].
pub struct TaskView {
    pub action: Action,
    pub path: Seq<char>,
    pub named: bool,
}

impl View for Task {
    type V = TaskView;

    open spec fn view(&self) -> TaskView {
        TaskView { action: self.action, path: self.path@, named: self.named }
    }
}

/// The work that a source argument gives.
pub open spec fn source_task(source: Source) -> TaskView {
    TaskView {
        action: match source_kind(source.path@, source.is_directory) {
            SourceKind::Directory => Action::List,
            SourceKind::StandardInput => Action::ReadStandardInput,
            SourceKind::File => Action::Search,
        },
        path: source.path@,
        named: true,
    }
}

/// The work that the source arguments give, in the order of the command line.
pub open spec fn source_tasks(sources: Seq<Source>) -> Seq<TaskView> {
    Seq::new(sources.len(), |i: int| source_task(sources[i]))
}

/// What is done with an entry of a directory: a file is searched, a directory is
/// listed if the walk is recursive and passed over otherwise, and anything else is
/// passed over.
pub open spec fn entry_action(kind: EntryKind, recursive: bool) -> Option<Action> {
    match kind {
        EntryKind::Directory => if recursive {
            Some(Action::List)
        } else {
            None
        },
        EntryKind::File => Some(Action::Search),
        EntryKind::Other => None,
    }
}

/// What is done with an entry of a directory, if anything. An entry that is passed
/// over needs no path.
pub fn action_for_entry(kind: EntryKind, recursive: bool) -> (r: Option<Action>)
    ensures
        r == entry_action(kind, recursive),
{
    match kind {
        EntryKind::Directory => if recursive {
            Some(Action::List)
        } else {
            None
        },
        EntryKind::File => Some(Action::Search),
        EntryKind::Other => None,
    }
}

/// The work that one entry of a directory gives, if any. A failure on it is passed
/// over.
pub open spec fn entry_task(entry: Entry, recursive: bool) -> Option<TaskView> {
    match entry_action(entry.kind, recursive) {
        Some(action) => Some(TaskView { action, path: entry.path@, named: false }),
        None => None,
    }
}

/// The work that the entries of one directory give, in the order of the listing.
pub open spec fn entry_tasks(entries: Seq<Entry>, recursive: bool) -> Seq<TaskView>
    decreases entries.len(),
{
    if entries.len() == 0 {
        Seq::empty()
    } else {
        match entry_task(entries.last(), recursive) {
            Some(task) => entry_tasks(entries.drop_last(), recursive).push(task),
            None => entry_tasks(entries.drop_last(), recursive),
        }
    }
}

/// A run through the sources: the work that is left, and whether any source searched
/// so far had a reported line.
pub struct Walk {
    /// The work that is left, the next piece last.
    pending: Vec<Task>,
    recursive: bool,
    found: bool,
}

/// The mathematical value of a [`Walk`].
pub struct WalkView {
    /// The work that is left, the next piece first.
    pub pending: Seq<TaskView>,
    pub recursive: bool,
    pub found: bool,
}

/// The tasks of a stack, the top of the stack first.
pub open spec fn from_top(stack: Seq<Task>) -> Seq<TaskView> {
    Seq::new(stack.len(), |i: int| stack[stack.len() - 1 - i]@)
}

impl View for Walk {
    type V = WalkView;

    closed spec fn view(&self) -> WalkView {
        WalkView { pending: from_top(self.pending@), recursive: self.recursive, found: self.found }
    }
}

impl Walk {
    /// A walk with no work yet that has found nothing.
    pub fn new(recursive: bool) -> (walk: Walk)
        ensures
            walk@ == (WalkView { pending: Seq::empty(), recursive, found: false }),
    {
        let walk = Walk { pending: Vec::new(), recursive, found: false };
        assert(walk@.pending =~= Seq::empty());
        walk
    }

    /// Takes in the source arguments: their work comes before all the work that was
    /// left, in the order of the command line.
    pub fn add_sources(&mut self, sources: Vec<Source>)
        ensures
            final(self)@ == (WalkView {
                pending: source_tasks(sources@) + old(self)@.pending,
                ..old(self)@
            }),
    {
        let ghost before = from_top(self.pending@);
        let ghost all = sources@;
        let mut sources = sources;
        assert(all.take(all.len() as int) =~= all);
        while sources.len() > 0
            invariant
                sources@ == all.take(sources@.len() as int),
                sources@.len() <= all.len(),
                self.recursive == old(self).recursive,
                self.found == old(self).found,
                source_tasks(sources@) + from_top(self.pending@) == source_tasks(all) + before,
            decreases sources@.len(),
        {
            let ghost stack = self.pending@;
            let ghost rest = sources@;
            let source = sources.pop().unwrap();
            assert(sources@ =~= all.take(sources@.len() as int));
            let action = match classify_source(source.path.as_str(), source.is_directory) {
                SourceKind::Directory => Action::List,
                SourceKind::StandardInput => Action::ReadStandardInput,
                SourceKind::File => Action::Search,
            };
            self.pending.push(Task { action, path: source.path, named: true });
            assert(from_top(self.pending@) =~= seq![source_task(source)] + from_top(stack));
            assert(source_tasks(rest) =~= source_tasks(sources@).push(source_task(source)));
            assert(source_tasks(rest) + from_top(stack) =~= source_tasks(sources@) + from_top(
                self.pending@,
            ));
        }
        assert(source_tasks(sources@) =~= Seq::empty());
        assert(from_top(self.pending@) =~= source_tasks(all) + before);
    }

    /// Takes in the listing of a directory: the work its entries give comes before
    /// all the work that was left, in the order of the listing.
    pub fn enter(&mut self, entries: Vec<Entry>)
        ensures
            final(self)@ == (WalkView {
                pending: entry_tasks(entries@, old(self)@.recursive) + old(self)@.pending,
                ..old(self)@
            }),
    {
        let ghost before = from_top(self.pending@);
        let ghost all = entries@;
        let recursive = self.recursive;
        let mut entries = entries;
        assert(all.take(all.len() as int) =~= all);
        while entries.len() > 0
            invariant
                entries@ == all.take(entries@.len() as int),
                entries@.len() <= all.len(),
                self.recursive == recursive,
                self.found == old(self).found,
                recursive == old(self).recursive,
                entry_tasks(entries@, recursive) + from_top(self.pending@) == entry_tasks(
                    all,
                    recursive,
                ) + before,
            decreases entries@.len(),
        {
            let ghost stack = self.pending@;
            let ghost rest = entries@;
            let entry = entries.pop().unwrap();
            assert(entries@ =~= all.take(entries@.len() as int));
            assert(entries@ == rest.drop_last());
            assert(entry == rest.last());
            match action_for_entry(entry.kind, recursive) {
                Some(action) => {
                    let ghost task = TaskView { action, path: entry.path@, named: false };
                    self.pending.push(Task { action, path: entry.path, named: false });
                    assert(from_top(self.pending@) =~= seq![task] + from_top(stack));
                    assert(entry_tasks(rest, recursive) + from_top(stack) =~= entry_tasks(
                        entries@,
                        recursive,
                    ) + from_top(self.pending@));
                },
                None => {},
            }
        }
        assert(entry_tasks(entries@, recursive) =~= Seq::empty());
        assert(from_top(self.pending@) =~= entry_tasks(all, recursive) + before);
    }

    /// Takes the next piece of work, if any is left.
    pub fn next(&mut self) -> (task: Option<Task>)
        ensures
            old(self)@.pending.len() == 0 ==> task is None && final(self)@ == old(self)@,
            old(self)@.pending.len() > 0 ==> task is Some && task.unwrap()@ == old(self)@.pending[0]
                && final(self)@ == (WalkView {
                pending: old(self)@.pending.skip(1),
                ..old(self)@
            }),
    {
        let ghost stack = self.pending@;
        let task = self.pending.pop();
        proof {
            if stack.len() > 0 {
                assert(from_top(self.pending@) =~= from_top(stack).skip(1));
            } else {
                assert(self.pending@ =~= stack);
            }
        }
        task
    }

    /// Takes in the result of one search.
    pub fn record(&mut self, found: bool)
        ensures
            final(self)@ == (WalkView { found: old(self)@.found || found, ..old(self)@ }),
    {
        self.found = self.found || found;
    }

    /// Whether directories below a listed directory are listed too.
    pub fn recursive(&self) -> (r: bool)
        ensures
            r == self@.recursive,
    {
        self.recursive
    }

    /// Whether any search so far had a reported line.
    pub fn found(&self) -> (r: bool)
        ensures
            r == self@.found,
    {
        self.found
    }
}

/// The exit status of a run: success exactly when some source had a reported line.
pub fn exit_code(found: bool) -> (r: i32)
    ensures
        r == if found {
            EXIT_FOUND
        } else {
            EXIT_NOT_FOUND
        },
{
    if found {
        EXIT_FOUND
    } else {
        EXIT_NOT_FOUND
    }
}

} // verus!
