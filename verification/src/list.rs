//! A list of tasks, held as the lines that store them and numbered from 1.

use crate::item::{decode, encode, touched, without, ItemView, TodoItem};
use crate::number::{decimal, format_number};
use vstd::prelude::*;

verus! {

/// The tasks of one list, one stored line for each, in the order of the list.
#[derive(Clone, Debug, PartialEq, Eq)]
pub struct TodoList {
    pub lines: Vec<String>,
}

impl View for TodoList {
    type V = Seq<Seq<char>>;

    open spec fn view(&self) -> Seq<Seq<char>> {
        self.lines.deep_view()
    }
}

/// The answer to a task number that names no task of the list.
#[derive(Clone, Copy, Debug, PartialEq, Eq, Structural)]
pub struct InvalidTaskNumber;

impl InvalidTaskNumber {
    /// The words that report the refusal.
    pub fn message(&self) -> (text: String)
        ensures
            text@ == "Error: Invalid task number"@,
    {
        "Error: Invalid task number".to_owned()
    }
}

/// What is done to the tags of one task.
#[derive(Clone, Copy, Debug, PartialEq, Eq, Structural)]
pub enum TagChange {
    /// The tag is attached, or moved to the end if it was there.
    Attach,
    /// The tag is taken away.
    Detach,
}

/// Whether `task_num` names a task of a list of `len` tasks: tasks are
/// numbered from 1.
pub open spec fn names_task(len: nat, task_num: usize) -> bool {
    1 <= task_num <= len
}

/// The line as it is written back after reading: the line that stores the
/// task which `line` stores.
pub open spec fn restored(line: Seq<char>) -> Seq<char> {
    encode(decode(line))
}

/// The tags after `change` was made with `tag`.
pub open spec fn changed_tags(tags: Seq<Seq<char>>, tag: Seq<char>, change: TagChange) -> Seq<
    Seq<char>,
> {
    match change {
        TagChange::Attach => touched(tags, tag),
        TagChange::Detach => without(tags, tag),
    }
}

/// The line that stores the task of `line` after `change` was made with `tag`.
pub open spec fn retagged_line(line: Seq<char>, tag: Seq<char>, change: TagChange) -> Seq<char> {
    let task = decode(line);
    encode(ItemView { text: task.text, tags: changed_tags(task.tags, tag, change) })
}

/// The lines after `change` was made with `tag` to the task at index `at`:
/// every line is read and written back, the one at `at` with its tags changed.
pub open spec fn retagged(lines: Seq<Seq<char>>, at: int, tag: Seq<char>, change: TagChange) -> Seq<
    Seq<char>,
> {
    Seq::new(
        lines.len(),
        |i: int|
            if i == at {
                retagged_line(lines[i], tag, change)
            } else {
                restored(lines[i])
            },
    )
}

/// The line shown for the entry at `index`: the indent, the entry's number
/// counted from 1, a full stop, a space, and the entry.
pub open spec fn numbered_line(indent: Seq<char>, index: int, entry: Seq<char>) -> Seq<char> {
    indent + decimal((index + 1) as nat) + ". "@ + entry
}

/// The lines shown for `entries`, each with its number.
pub open spec fn numbered_lines(indent: Seq<char>, entries: Seq<Seq<char>>) -> Seq<Seq<char>> {
    Seq::new(entries.len(), |i: int| numbered_line(indent, i, entries[i]))
}

/// Each line as it is written back after reading.
pub open spec fn restored_lines(lines: Seq<Seq<char>>) -> Seq<Seq<char>> {
    Seq::new(lines.len(), |i: int| restored(lines[i]))
}

/// What a list shows of itself among all lists: its lines as they are,
/// numbered and indented, or a note where it has none.
pub open spec fn overview_lines(lines: Option<Seq<Seq<char>>>) -> Seq<Seq<char>> {
    match lines {
        Some(lines) => if lines.len() > 0 {
            numbered_lines("  "@, lines)
        } else {
            seq!["  (empty)"@]
        },
        None => seq!["  (empty)"@],
    }
}

/// The lines shown for `entries`, each with its number.
pub fn number_lines(indent: &str, entries: &Vec<String>) -> (out: Vec<String>)
    ensures
        out.deep_view() == numbered_lines(indent@, entries.deep_view()),
{
    let mut out: Vec<String> = Vec::new();
    let mut i: usize = 0;
    while i < entries.len()
        invariant
            i <= entries.len(),
            out.len() == i,
            forall|k: int|
                0 <= k < i ==> (#[trigger] out[k])@ == numbered_line(indent@, k, entries[k]@),
        decreases entries.len() - i,
    {
        let mut line = indent.to_owned();
        line.append(format_number(i + 1).as_str());
        line.append(". ");
        line.append(entries[i].as_str());
        out.push(line);
        i += 1;
    }
    out
}

impl TodoList {
    /// The list of the given stored lines.
    pub fn new(lines: Vec<String>) -> (list: TodoList)
        ensures
            list.lines == lines,
    {
        TodoList { lines }
    }

    /// Takes the task numbered `task_num` out of the list. A number that
    /// names no task is refused and the list stays as it is.
    pub fn remove_task(&mut self, task_num: usize) -> (done: Result<(), InvalidTaskNumber>)
        ensures
            names_task(old(self)@.len(), task_num) ==> done is Ok && final(self)@ == old(
                self,
            )@.remove(task_num - 1),
            !names_task(old(self)@.len(), task_num) ==> done is Err && *final(self) == *old(self),
    {
        if task_num == 0 || task_num > self.lines.len() {
            return Err(InvalidTaskNumber);
        }
        self.lines.remove(task_num - 1);
        Ok(())
    }

    /// Puts `new_text` in place of the stored line of the task numbered
    /// `task_num`; the tags that the line held are gone with it. A number
    /// that names no task is refused and the list stays as it is.
    pub fn edit_task(&mut self, task_num: usize, new_text: &str) -> (done: Result<
        (),
        InvalidTaskNumber,
    >)
        ensures
            names_task(old(self)@.len(), task_num) ==> done is Ok && final(self)@ == old(
                self,
            )@.update(task_num - 1, new_text@),
            !names_task(old(self)@.len(), task_num) ==> done is Err && *final(self) == *old(self),
    {
        if task_num == 0 || task_num > self.lines.len() {
            return Err(InvalidTaskNumber);
        }
        self.lines[task_num - 1] = new_text.to_owned();
        Ok(())
    }

    /// The task numbered `task_num`, read from its stored line.
    pub fn task(&self, task_num: usize) -> (found: Result<TodoItem, InvalidTaskNumber>)
        ensures
            match found {
                Ok(task) => names_task(self@.len(), task_num) && task@ == decode(
                    self@[task_num - 1],
                ),
                Err(_) => !names_task(self@.len(), task_num),
            },
    {
        if task_num == 0 || task_num > self.lines.len() {
            return Err(InvalidTaskNumber);
        }
        Ok(TodoItem::from_string(self.lines[task_num - 1].as_str()))
    }

    /// Every line read and written back, the one at index `at` with `change`
    /// made to its tags.
    fn retag(&mut self, at: usize, tag: &str, change: TagChange)
        requires
            at < old(self)@.len(),
        ensures
            final(self)@ == retagged(old(self)@, at as int, tag@, change),
    {
        let mut lines: Vec<String> = Vec::new();
        let mut i: usize = 0;
        while i < self.lines.len()
            invariant
                i <= self.lines.len(),
                lines.len() == i,
                forall|k: int|
                    0 <= k < i ==> (#[trigger] lines[k])@ == retagged(
                        self@,
                        at as int,
                        tag@,
                        change,
                    )[k],
            decreases self.lines.len() - i,
        {
            let mut task = TodoItem::from_string(self.lines[i].as_str());
            if i == at {
                match change {
                    TagChange::Attach => task.add_tag(tag.to_owned()),
                    TagChange::Detach => task.remove_tag(tag),
                }
            }
            lines.push(task.to_string());
            i += 1;
        }
        self.lines = lines;
    }

    /// Tags the task numbered `task_num` with `tag`, and writes every line
    /// back as read. A number that names no task is refused and the list
    /// stays as it is.
    pub fn add_tag(&mut self, task_num: usize, tag: &str) -> (done: Result<(), InvalidTaskNumber>)
        ensures
            names_task(old(self)@.len(), task_num) ==> done is Ok && final(self)@ == retagged(
                old(self)@,
                task_num - 1,
                tag@,
                TagChange::Attach,
            ),
            !names_task(old(self)@.len(), task_num) ==> done is Err && *final(self) == *old(self),
    {
        if task_num == 0 || task_num > self.lines.len() {
            return Err(InvalidTaskNumber);
        }
        self.retag(task_num - 1, tag, TagChange::Attach);
        Ok(())
    }

    /// Takes `tag` from the task numbered `task_num`, and writes every line
    /// back as read. A number that names no task is refused and the list
    /// stays as it is.
    pub fn remove_tag(&mut self, task_num: usize, tag: &str) -> (done: Result<
        (),
        InvalidTaskNumber,
    >)
        ensures
            names_task(old(self)@.len(), task_num) ==> done is Ok && final(self)@ == retagged(
                old(self)@,
                task_num - 1,
                tag@,
                TagChange::Detach,
            ),
            !names_task(old(self)@.len(), task_num) ==> done is Err && *final(self) == *old(self),
    {
        if task_num == 0 || task_num > self.lines.len() {
            return Err(InvalidTaskNumber);
        }
        self.retag(task_num - 1, tag, TagChange::Detach);
        Ok(())
    }

    /// The lines shown for the list: each task as read from its line, with
    /// its number.
    pub fn list_tasks(&self) -> (out: Vec<String>)
        ensures
            out.deep_view() == numbered_lines(Seq::empty(), restored_lines(self@)),
    {
        let mut shown: Vec<String> = Vec::new();
        let mut i: usize = 0;
        while i < self.lines.len()
            invariant
                i <= self.lines.len(),
                shown.len() == i,
                forall|k: int| 0 <= k < i ==> (#[trigger] shown[k])@ == restored(self@[k]),
            decreases self.lines.len() - i,
        {
            shown.push(TodoItem::from_string(self.lines[i].as_str()).to_string());
            i += 1;
        }
        proof {
            reveal_strlit("");
        }
        number_lines("", &shown)
    }
}

/// What a list shows of itself among all lists; `None` is a list without a
/// file.
pub fn overview(list: Option<&TodoList>) -> (out: Vec<String>)
    ensures
        out.deep_view() == overview_lines(
            match list {
                Some(list) => Some(list@),
                None => None,
            },
        ),
{
    if let Some(list) = list {
        if list.lines.len() > 0 {
            return number_lines("  ", &list.lines);
        }
    }
    let mut out: Vec<String> = Vec::new();
    out.push("  (empty)".to_owned());
    out
}

} // verus!
