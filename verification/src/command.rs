//! The command line: from the words of an invocation to the command that
//! they give.
//!
//! The words are those of the whole invocation, the program's name first.
//! The marker words `to`, `from` and `in` are looked for at fixed places,
//! mostly counted from the end, so that a task text of any number of words
//! fits in between.

use crate::number::{machine_number, parse_number};
use crate::text::{join, joined};
use vstd::prelude::*;

verus! {

/// The usage notes, one for the whole program and one for each command
/// that can be given in a wrong shape.
#[derive(Clone, Copy, Debug, PartialEq, Eq, Structural)]
pub enum Usage {
    /// Every command: no command was given, or one that is not known.
    Full,
    /// `add` without a task.
    Add,
    /// `add` with `to` in the wrong place.
    AddTo,
    /// `remove` in a wrong shape.
    Remove,
    /// `edit` in a wrong shape.
    Edit,
    /// `tag` in a wrong shape.
    Tag,
    /// `use` in a wrong shape.
    Use,
    /// `cleanup` without a list.
    Cleanup,
}

/// A command with its operands.
#[derive(Clone, Debug, PartialEq, Eq)]
pub enum Command {
    /// Show a usage note and do nothing else.
    Usage(Usage),
    /// Add a task to a named list.
    Add { task: String, list: String },
    /// Add a task to a list that is yet to be asked for.
    AddAsking { task: String },
    /// Show the names of all lists.
    ListNames,
    /// Show every list with its tasks.
    ListAll,
    /// Show the tasks of one list.
    ListTasks { list: String },
    /// Remove a task, by number, from a list.
    Remove { num: usize, list: String },
    /// Replace a task of a list, by number, with a new text.
    Edit { num: usize, list: String, text: String },
    /// Tag a task of a list, by number, with a path, or with the current
    /// directory where none is given.
    Tag { file: Option<String>, num: usize, list: String },
    /// Use a tag of a task of a list, both by number.
    Use { num: usize, tag_num: Option<usize>, list: String },
    /// Delete what is stored of a list.
    Cleanup { list: String },
    /// Report that a task number was not a number.
    InvalidTaskNumber,
}

/// A command, as mathematical sequences.
pub enum CommandView {
    Usage(Usage),
    Add { task: Seq<char>, list: Seq<char> },
    AddAsking { task: Seq<char> },
    ListNames,
    ListAll,
    ListTasks { list: Seq<char> },
    Remove { num: usize, list: Seq<char> },
    Edit { num: usize, list: Seq<char>, text: Seq<char> },
    Tag { file: Option<Seq<char>>, num: usize, list: Seq<char> },
    Use { num: usize, tag_num: Option<usize>, list: Seq<char> },
    Cleanup { list: Seq<char> },
    InvalidTaskNumber,
}

impl View for Command {
    type V = CommandView;

    open spec fn view(&self) -> CommandView {
        match self {
            Command::Usage(which) => CommandView::Usage(*which),
            Command::Add { task, list } => CommandView::Add { task: task@, list: list@ },
            Command::AddAsking { task } => CommandView::AddAsking { task: task@ },
            Command::ListNames => CommandView::ListNames,
            Command::ListAll => CommandView::ListAll,
            Command::ListTasks { list } => CommandView::ListTasks { list: list@ },
            Command::Remove { num, list } => CommandView::Remove { num: *num, list: list@ },
            Command::Edit { num, list, text } => CommandView::Edit {
                num: *num,
                list: list@,
                text: text@,
            },
            Command::Tag { file, num, list } => CommandView::Tag {
                file: match file {
                    Some(file) => Some(file@),
                    None => None,
                },
                num: *num,
                list: list@,
            },
            Command::Use { num, tag_num, list } => CommandView::Use {
                num: *num,
                tag_num: *tag_num,
                list: list@,
            },
            Command::Cleanup { list } => CommandView::Cleanup { list: list@ },
            Command::InvalidTaskNumber => CommandView::InvalidTaskNumber,
        }
    }
}

/// The words from index `from` up to index `to`, with one space between
/// neighbours.
pub open spec fn phrase(args: Seq<Seq<char>>, from: int, to: int) -> Seq<char> {
    joined(args.subrange(from, to), " "@)
}

/// Whether a word behind the command word is `to`.
pub open spec fn names_target(args: Seq<Seq<char>>) -> bool {
    exists|i: int| 2 <= i < args.len() && #[trigger] args[i] == "to"@
}

/// `add <task...> to <list>`, with `to` as the last word but one, or
/// `add <task...>` where no word of the task is `to`. A `to` in any other
/// place fits neither form.
pub open spec fn route_add(args: Seq<Seq<char>>) -> CommandView {
    let n = args.len() as int;
    if n < 3 {
        CommandView::Usage(Usage::Add)
    } else if names_target(args) {
        if n < 5 || args[n - 2] != "to"@ {
            CommandView::Usage(Usage::AddTo)
        } else {
            CommandView::Add { task: phrase(args, 2, n - 2), list: args[n - 1] }
        }
    } else {
        CommandView::AddAsking { task: phrase(args, 2, n) }
    }
}

/// `list`, `list all` or `list <list>`; words behind these are not read.
pub open spec fn route_list(args: Seq<Seq<char>>) -> CommandView {
    if args.len() < 3 {
        CommandView::ListNames
    } else if args[2] == "all"@ {
        CommandView::ListAll
    } else {
        CommandView::ListTasks { list: args[2] }
    }
}

/// `remove <num> from <list>`: `from` is the last word but one, the number
/// the first word behind `remove`.
pub open spec fn route_remove(args: Seq<Seq<char>>) -> CommandView {
    let n = args.len() as int;
    if n < 5 || args[n - 2] != "from"@ {
        CommandView::Usage(Usage::Remove)
    } else {
        match machine_number(args[2]) {
            Some(num) => CommandView::Remove { num, list: args[n - 1] },
            None => CommandView::InvalidTaskNumber,
        }
    }
}

/// `edit <num> in <list> <text...>`: `in` is the second word behind `edit`,
/// and at least one word of text follows the list.
pub open spec fn route_edit(args: Seq<Seq<char>>) -> CommandView {
    let n = args.len() as int;
    if n < 6 || args[3] != "in"@ {
        CommandView::Usage(Usage::Edit)
    } else {
        match machine_number(args[2]) {
            Some(num) => CommandView::Edit { num, list: args[4], text: phrase(args, 5, n) },
            None => CommandView::InvalidTaskNumber,
        }
    }
}

/// `tag <num> in <list>` or `tag <file> <num> in <list>`: the number is the
/// word before `in`, and a file is given where there are more words than
/// the first form has.
pub open spec fn route_tag(args: Seq<Seq<char>>) -> CommandView {
    let n = args.len() as int;
    if n >= 5 && args[n - 2] == "in"@ {
        match machine_number(args[n - 3]) {
            Some(num) => CommandView::Tag {
                file: if n > 5 {
                    Some(args[2])
                } else {
                    None
                },
                num,
                list: args[n - 1],
            },
            None => CommandView::InvalidTaskNumber,
        }
    } else {
        CommandView::Usage(Usage::Tag)
    }
}

/// `use <num> in <list>` or `use <num> <tag_num> in <list>`: a task number
/// that is no number counts as 0, which names no task; a tag number is read
/// where there are more words than the first form has.
pub open spec fn route_use(args: Seq<Seq<char>>) -> CommandView {
    let n = args.len() as int;
    if n < 5 || args[n - 2] != "in"@ {
        CommandView::Usage(Usage::Use)
    } else {
        CommandView::Use {
            num: match machine_number(args[2]) {
                Some(num) => num,
                None => 0,
            },
            tag_num: if n > 5 {
                machine_number(args[3])
            } else {
                None
            },
            list: args[n - 1],
        }
    }
}

/// `cleanup <list>`; words behind the list are not read.
pub open spec fn route_cleanup(args: Seq<Seq<char>>) -> CommandView {
    if args.len() < 3 {
        CommandView::Usage(Usage::Cleanup)
    } else {
        CommandView::Cleanup { list: args[2] }
    }
}

/// The command that the words of an invocation give. The first word is the
/// program's name, the second names the command.
pub open spec fn route(args: Seq<Seq<char>>) -> CommandView {
    if args.len() < 2 {
        CommandView::Usage(Usage::Full)
    } else if args[1] == "add"@ {
        route_add(args)
    } else if args[1] == "list"@ {
        route_list(args)
    } else if args[1] == "remove"@ {
        route_remove(args)
    } else if args[1] == "edit"@ {
        route_edit(args)
    } else if args[1] == "tag"@ {
        route_tag(args)
    } else if args[1] == "use"@ {
        route_use(args)
    } else if args[1] == "cleanup"@ {
        route_cleanup(args)
    } else {
        CommandView::Usage(Usage::Full)
    }
}

/// Whether the word at index `i` is `word`.
fn word_is(args: &Vec<String>, i: usize, word: &str) -> (same: bool)
    requires
        i < args.len(),
    ensures
        same == (args.deep_view()[i as int] == word@),
{
    args[i].as_str().eq(word)
}

/// Whether a word behind the command word is `to`.
fn has_target(args: &Vec<String>) -> (found: bool)
    ensures
        found == names_target(args.deep_view()),
{
    let mut i: usize = 2;
    while i < args.len()
        invariant
            2 <= i,
            forall|k: int| 2 <= k < i && k < args.len() ==> args.deep_view()[k] != "to"@,
        decreases args.len() - i,
    {
        if word_is(args, i, "to") {
            return true;
        }
        i += 1;
    }
    false
}

/// The words from index `from` up to index `to`, with one space between
/// neighbours.
fn words(args: &Vec<String>, from: usize, to: usize) -> (out: String)
    requires
        from <= to <= args.len(),
    ensures
        out@ == phrase(args.deep_view(), from as int, to as int),
{
    join(args, from, to, " ")
}

fn parse_add(args: &Vec<String>) -> (command: Command)
    requires
        args.len() >= 2,
    ensures
        command@ == route_add(args.deep_view()),
{
    let n = args.len();
    if n < 3 {
        Command::Usage(Usage::Add)
    } else if has_target(args) {
        if n < 5 || !word_is(args, n - 2, "to") {
            Command::Usage(Usage::AddTo)
        } else {
            Command::Add { task: words(args, 2, n - 2), list: args[n - 1].clone() }
        }
    } else {
        Command::AddAsking { task: words(args, 2, n) }
    }
}

fn parse_list(args: &Vec<String>) -> (command: Command)
    requires
        args.len() >= 2,
    ensures
        command@ == route_list(args.deep_view()),
{
    if args.len() < 3 {
        Command::ListNames
    } else if word_is(args, 2, "all") {
        Command::ListAll
    } else {
        Command::ListTasks { list: args[2].clone() }
    }
}

fn parse_remove(args: &Vec<String>) -> (command: Command)
    requires
        args.len() >= 2,
    ensures
        command@ == route_remove(args.deep_view()),
{
    let n = args.len();
    if n < 5 || !word_is(args, n - 2, "from") {
        Command::Usage(Usage::Remove)
    } else {
        match parse_number(args[2].as_str()) {
            Some(num) => Command::Remove { num, list: args[n - 1].clone() },
            None => Command::InvalidTaskNumber,
        }
    }
}

fn parse_edit(args: &Vec<String>) -> (command: Command)
    requires
        args.len() >= 2,
    ensures
        command@ == route_edit(args.deep_view()),
{
    let n = args.len();
    if n < 6 || !word_is(args, 3, "in") {
        Command::Usage(Usage::Edit)
    } else {
        match parse_number(args[2].as_str()) {
            Some(num) => Command::Edit { num, list: args[4].clone(), text: words(args, 5, n) },
            None => Command::InvalidTaskNumber,
        }
    }
}

fn parse_tag(args: &Vec<String>) -> (command: Command)
    requires
        args.len() >= 2,
    ensures
        command@ == route_tag(args.deep_view()),
{
    let n = args.len();
    if n >= 5 && word_is(args, n - 2, "in") {
        match parse_number(args[n - 3].as_str()) {
            Some(num) => {
                let file = if n > 5 {
                    Some(args[2].clone())
                } else {
                    None
                };
                Command::Tag { file, num, list: args[n - 1].clone() }
            },
            None => Command::InvalidTaskNumber,
        }
    } else {
        Command::Usage(Usage::Tag)
    }
}

fn parse_use(args: &Vec<String>) -> (command: Command)
    requires
        args.len() >= 2,
    ensures
        command@ == route_use(args.deep_view()),
{
    let n = args.len();
    if n < 5 || !word_is(args, n - 2, "in") {
        Command::Usage(Usage::Use)
    } else {
        let num = match parse_number(args[2].as_str()) {
            Some(num) => num,
            None => 0,
        };
        let tag_num = if n > 5 {
            parse_number(args[3].as_str())
        } else {
            None
        };
        Command::Use { num, tag_num, list: args[n - 1].clone() }
    }
}

fn parse_cleanup(args: &Vec<String>) -> (command: Command)
    requires
        args.len() >= 2,
    ensures
        command@ == route_cleanup(args.deep_view()),
{
    if args.len() < 3 {
        Command::Usage(Usage::Cleanup)
    } else {
        Command::Cleanup { list: args[2].clone() }
    }
}

/// The command that the words of an invocation give.
pub fn parse_command(args: &Vec<String>) -> (command: Command)
    ensures
        command@ == route(args.deep_view()),
{
    if args.len() < 2 {
        Command::Usage(Usage::Full)
    } else if word_is(args, 1, "add") {
        parse_add(args)
    } else if word_is(args, 1, "list") {
        parse_list(args)
    } else if word_is(args, 1, "remove") {
        parse_remove(args)
    } else if word_is(args, 1, "edit") {
        parse_edit(args)
    } else if word_is(args, 1, "tag") {
        parse_tag(args)
    } else if word_is(args, 1, "use") {
        parse_use(args)
    } else if word_is(args, 1, "cleanup") {
        parse_cleanup(args)
    } else {
        Command::Usage(Usage::Full)
    }
}

/// Whether output is meant for a shell to evaluate: some word of the
/// invocation, wherever it stands, is `--eval`.
pub fn eval_mode(args: &Vec<String>) -> (eval: bool)
    ensures
        eval == args.deep_view().contains("--eval"@),
{
    let mut i: usize = 0;
    while i < args.len()
        invariant
            i <= args.len(),
            forall|k: int| 0 <= k < i ==> args.deep_view()[k] != "--eval"@,
        decreases args.len() - i,
    {
        if word_is(args, i, "--eval") {
            return true;
        }
        i += 1;
    }
    false
}

} // verus!
