//! Where the lists are stored: one directory below the user's home
//! directory, with one file for each list.
//!
//! Paths are held as strings. Putting paths together and taking them apart
//! is left to `std::path`, which knows the platform's rules.

use crate::chars::chars_of;
use crate::text::{find_last, strip, stripped, CharClass};
use vstd::prelude::*;

verus! {

/// The path that `std::path::Path::join` makes of the path `base` and the
/// path `leaf`.
pub uninterp spec fn path_join(base: Seq<char>, leaf: Seq<char>) -> Seq<char>;

/// The stem that `std::path::Path::file_stem` finds in `path`, if it finds
/// one.
pub uninterp spec fn path_stem(path: Seq<char>) -> Option<Seq<char>>;

/// Calls `dirs::home_dir`, which asks the operating system for the current
/// user's home directory. Nothing is claimed of the answer: it may be any
/// path or none, and it may differ from one call to the next. A path that is
/// not valid UTF-8 cannot be held as a string and is given as none.
#[verifier::external_body]
fn home_dir() -> (home: Option<String>) {
    dirs::home_dir().and_then(|path| path.into_os_string().into_string().ok())
}

/// Calls `std::path::Path::join` on `base` with `leaf`. The claim is that the
/// result depends on the two paths alone, by the rules of the platform that
/// the program is built for; what it is, is left to the name `path_join`.
/// Both paths are valid UTF-8, and so is the result.
#[verifier::external_body]
fn join_path(base: &str, leaf: &str) -> (path: String)
    ensures
        path@ == path_join(base@, leaf@),
{
    std::path::Path::new(base).join(leaf).to_string_lossy().into_owned()
}

/// Calls `std::path::Path::file_stem` on `path`. The claim is that the result
/// depends on the path alone, by the rules of the platform that the program
/// is built for; what it is, is left to the name `path_stem`.
#[verifier::external_body]
fn file_stem(path: &str) -> (stem: Option<String>)
    ensures
        stem.deep_view() == path_stem(path@),
{
    std::path::Path::new(path).file_stem().map(|stem| stem.to_string_lossy().into_owned())
}

/// The name of the directory, below the home directory, that holds the lists.
pub open spec fn todo_dir() -> Seq<char> {
    ".todo_lists"@
}

/// The name of the file that stores the list `list_name`.
pub open spec fn file_name(list_name: Seq<char>) -> Seq<char> {
    list_name + ".txt"@
}

/// The store of all lists.
#[derive(Clone, Debug, PartialEq, Eq)]
pub struct TodoApp {
    /// The directory that holds one file for each list.
    pub base_dir: String,
}

/// The store that belongs to a home directory, if there is one.
pub open spec fn store_of(home: Option<Seq<char>>) -> Option<Seq<char>> {
    match home {
        Some(home) => Some(path_join(home, todo_dir())),
        None => None,
    }
}

impl TodoApp {
    /// The store below the home directory `home`; none where there is no
    /// home directory.
    pub fn below(home: Option<String>) -> (app: Option<TodoApp>)
        ensures
            match app {
                Some(app) => Some(app.base_dir@),
                None => None,
            } == store_of(home.deep_view()),
    {
        match home {
            Some(home) => Some(TodoApp { base_dir: join_path(home.as_str(), ".todo_lists") }),
            None => None,
        }
    }

    /// The store below the current user's home directory; none where no home
    /// directory is found. The directory itself is not created.
    pub fn new() -> (app: Option<TodoApp>)
        ensures
            app matches Some(app) ==> exists|home: Seq<char>|
                app.base_dir@ == path_join(home, todo_dir()),
    {
        TodoApp::below(home_dir())
    }

    /// The path of the file that stores the list `list_name`.
    pub fn get_list_path(&self, list_name: &str) -> (path: String)
        ensures
            path@ == path_join(self.base_dir@, file_name(list_name@)),
    {
        let mut name = list_name.to_owned();
        name.append(".txt");
        join_path(self.base_dir.as_str(), name.as_str())
    }
}

/// The path that a tag stands for. Without a file argument it is the
/// current directory. A file argument that holds `/` is taken as it is; any
/// other is put below the current directory, without the quotation marks
/// around it.
pub open spec fn resolved(file_arg: Option<Seq<char>>, current_dir: Seq<char>) -> Seq<char> {
    match file_arg {
        Some(name) => if name.contains('/') {
            name
        } else {
            path_join(current_dir, stripped(name, CharClass::Quote))
        },
        None => current_dir,
    }
}

/// The path that a tag stands for.
pub fn resolve_file_path(file_arg: Option<&str>, current_dir: &str) -> (path: String)
    ensures
        path@ == resolved(
            match file_arg {
                Some(name) => Some(name@),
                None => None,
            },
            current_dir@,
        ),
{
    match file_arg {
        Some(name) => {
            let cs = chars_of(name);
            proof {
                cs@.index_of_last_ensures('/');
            }
            if find_last(&cs, '/').is_some() {
                name.to_owned()
            } else {
                let bare = strip(name, CharClass::Quote);
                join_path(current_dir, bare.as_str())
            }
        },
        None => current_dir.to_owned(),
    }
}

/// The stems of the paths `entries`, in their order; a path without a stem
/// gives none.
pub open spec fn stems(entries: Seq<Seq<char>>) -> Seq<Seq<char>> {
    entries.filter_map(|entry: Seq<char>| path_stem(entry))
}

/// The lists that can be chosen from, given the paths found in the store:
/// their stems, or the list `default` where there are none.
pub open spec fn choices(entries: Seq<Seq<char>>) -> Seq<Seq<char>> {
    if stems(entries).len() == 0 {
        seq!["default"@]
    } else {
        stems(entries)
    }
}

/// The names of the lists whose files are at the paths `entries`.
pub fn list_names(entries: &Vec<String>) -> (names: Vec<String>)
    ensures
        names.deep_view() == stems(entries.deep_view()),
{
    let ghost all = entries.deep_view();
    let mut names: Vec<String> = Vec::new();
    let mut i: usize = 0;
    while i < entries.len()
        invariant
            i <= entries.len(),
            all == entries.deep_view(),
            names.deep_view() == stems(all.take(i as int)),
        decreases entries.len() - i,
    {
        proof {
            all.lemma_filter_map_take_succ(|entry: Seq<char>| path_stem(entry), i as int);
        }
        if let Some(stem) = file_stem(entries[i].as_str()) {
            names.push(stem);
        }
        i += 1;
    }
    assert(all.take(i as int) =~= all);
    names
}

/// The lists that can be chosen from, given the paths found in the store.
pub fn get_available_lists(entries: &Vec<String>) -> (lists: Vec<String>)
    ensures
        lists.deep_view() == choices(entries.deep_view()),
{
    let mut lists = list_names(entries);
    if lists.len() == 0 {
        lists.push("default".to_owned());
    }
    lists
}

} // verus!
