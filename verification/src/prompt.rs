//! Asking for the list that a new task goes to.

use crate::number::{machine_number, parse_number};
use crate::text::{trim, trimmed};
use vstd::prelude::*;

verus! {

/// The list meant by the answer `input`, given the lists on offer. White
/// space around the answer does not count. `!q` means none: the task is not
/// added. An empty answer means the list `default`. The number of a list on
/// offer, counted from 1, means that list. Any other answer is itself the
/// name of the list.
pub open spec fn chosen_list(lists: Seq<Seq<char>>, input: Seq<char>) -> Option<Seq<char>> {
    let word = trimmed(input);
    if word == "!q"@ {
        None
    } else if word.len() == 0 {
        Some("default"@)
    } else {
        match machine_number(word) {
            Some(n) => if 1 <= n <= lists.len() {
                Some(lists[n - 1])
            } else {
                Some(word)
            },
            None => Some(word),
        }
    }
}

/// The list meant by the answer `input`, given the lists on offer.
pub fn choose_list(lists: &Vec<String>, input: &str) -> (list: Option<String>)
    ensures
        list.deep_view() == chosen_list(lists.deep_view(), input@),
{
    let word = trim(input);
    if word.as_str().eq("!q") {
        return None;
    }
    if word.as_str().is_empty() {
        return Some("default".to_owned());
    }
    if let Some(n) = parse_number(word.as_str()) {
        if 1 <= n && n <= lists.len() {
            return Some(lists[n - 1].clone());
        }
    }
    Some(word)
}

} // verus!
