//! Using a stored tag: which tag of a task is meant, and what is done with
//! the path that it names.

use crate::item::{decode, TodoItem};
use crate::list::{names_task, retagged, InvalidTaskNumber, TagChange, TodoList};
use crate::text::{trim, trimmed};
use vstd::prelude::*;

verus! {

/// Which tag of a task is meant.
#[derive(Clone, Debug, PartialEq, Eq)]
pub enum Selection {
    /// The task has no tags.
    NoTags,
    /// This tag is meant.
    Chosen(String),
    /// The task has several tags and no number was given; these are its tags.
    Unnumbered(Vec<String>),
    /// The number given names none of the task's tags; these are its tags.
    OutOfRange(Vec<String>),
}

/// A selection, as mathematical sequences.
pub enum SelectionView {
    NoTags,
    Chosen(Seq<char>),
    Unnumbered(Seq<Seq<char>>),
    OutOfRange(Seq<Seq<char>>),
}

impl View for Selection {
    type V = SelectionView;

    open spec fn view(&self) -> SelectionView {
        match self {
            Selection::NoTags => SelectionView::NoTags,
            Selection::Chosen(tag) => SelectionView::Chosen(tag@),
            Selection::Unnumbered(tags) => SelectionView::Unnumbered(tags.deep_view()),
            Selection::OutOfRange(tags) => SelectionView::OutOfRange(tags.deep_view()),
        }
    }
}

/// The tag that is meant among `tags`: the one numbered `tag_num`, counted
/// from 1, or the only one there is where no number is given.
pub open spec fn selection(tags: Seq<Seq<char>>, tag_num: Option<usize>) -> SelectionView {
    if tags.len() == 0 {
        SelectionView::NoTags
    } else {
        match tag_num {
            Some(n) => if 1 <= n <= tags.len() {
                SelectionView::Chosen(tags[n - 1])
            } else {
                SelectionView::OutOfRange(tags)
            },
            None => if tags.len() == 1 {
                SelectionView::Chosen(tags[0])
            } else {
                SelectionView::Unnumbered(tags)
            },
        }
    }
}

/// The tag of `task` that is meant.
pub fn select_tag(task: TodoItem, tag_num: Option<usize>) -> (chosen: Selection)
    ensures
        chosen@ == selection(task@.tags, tag_num),
{
    let mut tags = task.tags;
    if tags.len() == 0 {
        return Selection::NoTags;
    }
    match tag_num {
        Some(n) => {
            if 1 <= n && n <= tags.len() {
                Selection::Chosen(tags.swap_remove(n - 1))
            } else {
                Selection::OutOfRange(tags)
            }
        },
        None => {
            if tags.len() == 1 {
                Selection::Chosen(tags.swap_remove(0))
            } else {
                Selection::Unnumbered(tags)
            }
        },
    }
}

/// What was found at the path that a tag names.
#[derive(Clone, Copy, Debug, PartialEq, Eq, Structural)]
pub enum PathKind {
    /// Nothing is there.
    Missing,
    /// A directory.
    Directory,
    /// A regular file.
    File,
    /// Something that is neither.
    Other,
}

/// What is done with a tag once it is known what its path leads to.
#[derive(Clone, Debug, PartialEq, Eq)]
pub enum TagAction {
    /// The path is gone: ask whether the tag is to be removed.
    ConfirmRemoval,
    /// Print this command and nothing else, for a shell to evaluate.
    PrintCommand(String),
    /// Offer this command: copy it to the clipboard and show how to use it.
    OfferCommand(String),
    /// Show this path of a file and copy it to the clipboard.
    ShowFile(String),
    /// Do nothing.
    Nothing,
}

/// An action, as mathematical sequences.
pub enum TagActionView {
    ConfirmRemoval,
    PrintCommand(Seq<char>),
    OfferCommand(Seq<char>),
    ShowFile(Seq<char>),
    Nothing,
}

impl View for TagAction {
    type V = TagActionView;

    open spec fn view(&self) -> TagActionView {
        match self {
            TagAction::ConfirmRemoval => TagActionView::ConfirmRemoval,
            TagAction::PrintCommand(command) => TagActionView::PrintCommand(command@),
            TagAction::OfferCommand(command) => TagActionView::OfferCommand(command@),
            TagAction::ShowFile(path) => TagActionView::ShowFile(path@),
            TagAction::Nothing => TagActionView::Nothing,
        }
    }
}

/// The shell command that changes to the directory `path`.
pub open spec fn cd_command(path: Seq<char>) -> Seq<char> {
    "cd "@ + path
}

/// What is done with the tag `path`, given what the path leads to and
/// whether output is meant for a shell to evaluate.
pub open spec fn action(path: Seq<char>, kind: PathKind, eval: bool) -> TagActionView {
    match kind {
        PathKind::Missing => TagActionView::ConfirmRemoval,
        PathKind::Directory => if eval {
            TagActionView::PrintCommand(cd_command(path))
        } else {
            TagActionView::OfferCommand(cd_command(path))
        },
        PathKind::File => TagActionView::ShowFile(path),
        PathKind::Other => TagActionView::Nothing,
    }
}

/// What is done with the tag `path`.
pub fn tag_action(path: &str, kind: PathKind, eval: bool) -> (act: TagAction)
    ensures
        act@ == action(path@, kind, eval),
{
    match kind {
        PathKind::Missing => TagAction::ConfirmRemoval,
        PathKind::Directory => {
            let mut command = "cd ".to_owned();
            command.append(path);
            if eval {
                TagAction::PrintCommand(command)
            } else {
                TagAction::OfferCommand(command)
            }
        },
        PathKind::File => TagAction::ShowFile(path.to_owned()),
        PathKind::Other => TagAction::Nothing,
    }
}

/// Whether `answer` says yes: it is `y` or `Y`, white space around it aside.
pub open spec fn is_yes(answer: Seq<char>) -> bool {
    trimmed(answer) == "y"@ || trimmed(answer) == "Y"@
}

/// Whether `answer` says yes.
pub fn confirms(answer: &str) -> (yes: bool)
    ensures
        yes == is_yes(answer@),
{
    let word = trim(answer);
    word.as_str().eq("y") || word.as_str().eq("Y")
}

impl TodoList {
    /// The tag that is meant of the task numbered `task_num`. A task number
    /// that names no task is refused.
    pub fn use_tag(&self, task_num: usize, tag_num: Option<usize>) -> (found: Result<
        Selection,
        InvalidTaskNumber,
    >)
        ensures
            match found {
                Ok(chosen) => names_task(self@.len(), task_num) && chosen@ == selection(
                    decode(self@[task_num - 1]).tags,
                    tag_num,
                ),
                Err(_) => !names_task(self@.len(), task_num),
            },
    {
        match self.task(task_num) {
            Ok(task) => Ok(select_tag(task, tag_num)),
            Err(refused) => Err(refused),
        }
    }

    /// Settles a tag whose path is gone, given the answer to the question
    /// whether to remove it: on a yes the tag leaves the task numbered
    /// `task_num` and every line is written back as read; on anything else,
    /// and for a number that names no task, the list stays as it is.
    pub fn settle_stale_tag(&mut self, task_num: usize, tag: &str, answer: &str) -> (removed: bool)
        ensures
            removed == (is_yes(answer@) && names_task(old(self)@.len(), task_num)),
            removed ==> final(self)@ == retagged(
                old(self)@,
                task_num - 1,
                tag@,
                TagChange::Detach,
            ),
            !removed ==> *final(self) == *old(self),
    {
        if confirms(answer) {
            self.remove_tag(task_num, tag).is_ok()
        } else {
            false
        }
    }
}

} // verus!
