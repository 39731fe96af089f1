//! One task, the paths it is tagged with, and the line of text that stores it.
//!
//! A task without tags is stored as its text. A task with tags is stored as
//! its text, the marker ` [TAGS:`, the tags with `|` between them, and `]`.

use crate::chars::{chars_of, string_of};
use crate::text::{
    find_first, find_last, first_occurrence, is_first_occurrence, join, joined,
    lemma_first_occurrence, lemma_first_occurrence_is, lemma_joined_lacks,
    lemma_pieces_lack_sep, lemma_pieces_of_joined, lemma_stripped_range,
    occurs, occurs_at, pieces, split, trim, trimmed, CharClass,
};
use vstd::prelude::*;

verus! {

/// A task: a free-form text and the paths it is tagged with, oldest first.
#[derive(Clone, Debug, PartialEq, Eq)]
pub struct TodoItem {
    pub text: String,
    pub tags: Vec<String>,
}

/// What a task holds, as mathematical sequences.
pub struct ItemView {
    pub text: Seq<char>,
    pub tags: Seq<Seq<char>>,
}

impl View for TodoItem {
    type V = ItemView;

    open spec fn view(&self) -> ItemView {
        ItemView { text: self.text@, tags: self.tags.deep_view() }
    }
}

/// The characters that open the tag section of a stored line.
pub open spec fn marker() -> Seq<char> {
    " [TAGS:"@
}

/// The marker has seven characters, and only the first of them is a space.
pub proof fn lemma_marker_shape()
    ensures
        marker().len() == 7,
        marker()[0] == ' ',
        forall|k: int| 1 <= k < 7 ==> marker()[k] != ' ',
        !marker().contains(']'),
{
    reveal_strlit(" [TAGS:");
}

/// The line that stores `item`.
pub open spec fn encode(item: ItemView) -> Seq<char> {
    if item.tags.len() == 0 {
        item.text
    } else {
        item.text + marker() + joined(item.tags, seq!['|']) + seq![']']
    }
}

/// Each of `parts` without the white space at either end.
pub open spec fn trim_each(parts: Seq<Seq<char>>) -> Seq<Seq<char>> {
    Seq::new(parts.len(), |i: int| trimmed(parts[i]))
}

/// The task made of a whole line, without tags.
pub open spec fn untagged(line: Seq<char>) -> ItemView {
    ItemView { text: line, tags: Seq::empty() }
}

/// The task that `line` stores. The tag section runs from the first marker
/// to the last `]` of the line. A line without a marker, or without a `]`
/// behind its first marker, is a task without tags.
pub open spec fn decode(line: Seq<char>) -> ItemView {
    match first_occurrence(line, marker()) {
        Some(start) => match line.index_of_last(']') {
            Some(end) => if start + marker().len() <= end {
                ItemView {
                    text: line.take(start),
                    tags: trim_each(pieces(line.subrange(start + marker().len(), end), '|')),
                }
            } else {
                untagged(line)
            },
            None => untagged(line),
        },
        None => untagged(line),
    }
}

/// `tags` without every occurrence of `tag`.
pub open spec fn without(tags: Seq<Seq<char>>, tag: Seq<char>) -> Seq<Seq<char>> {
    tags.filter(|t: Seq<char>| t != tag)
}

/// `tags` after tagging with `tag`: earlier occurrences of `tag` leave, the
/// other tags keep their order, and `tag` comes last.
pub open spec fn touched(tags: Seq<Seq<char>>, tag: Seq<char>) -> Seq<Seq<char>> {
    without(tags, tag).push(tag)
}

/// The strings of `tags` that differ from `tag`, in their order.
fn remove_all(tags: &Vec<String>, tag: &str) -> (kept: Vec<String>)
    ensures
        kept.deep_view() == without(tags.deep_view(), tag@),
{
    let ghost all = tags.deep_view();
    let mut kept: Vec<String> = Vec::new();
    let mut i: usize = 0;
    while i < tags.len()
        invariant
            i <= tags.len(),
            all == tags.deep_view(),
            kept.deep_view() == without(all.take(i as int), tag@),
        decreases tags.len() - i,
    {
        proof {
            assert(all.take(i + 1) =~= all.take(i as int).push(tags[i as int]@));
            all.take(i as int).lemma_filter_push(tags[i as int]@, |t: Seq<char>| t != tag@);
        }
        if !tags[i].as_str().eq(tag) {
            kept.push(tags[i].clone());
        }
        i += 1;
    }
    assert(all.take(i as int) =~= all);
    kept
}

/// Each of `parts` without the white space at either end.
fn trim_all(parts: &Vec<String>) -> (out: Vec<String>)
    ensures
        out.deep_view() == trim_each(parts.deep_view()),
{
    let mut out: Vec<String> = Vec::new();
    let mut i: usize = 0;
    while i < parts.len()
        invariant
            i <= parts.len(),
            out.len() == i,
            forall|k: int| 0 <= k < i ==> (#[trigger] out[k])@ == trimmed(parts[k]@),
        decreases parts.len() - i,
    {
        out.push(trim(parts[i].as_str()));
        i += 1;
    }
    out
}

impl TodoItem {
    /// Whether no tag occurs twice among the task's tags. It holds of a new
    /// task, and tagging and untagging keep it.
    pub open spec fn has_distinct_tags(&self) -> bool {
        self@.tags.no_duplicates()
    }

    /// A task with the given text and no tags.
    pub fn new(text: String) -> (item: TodoItem)
        ensures
            item@ == untagged(text@),
            item.has_distinct_tags(),
    {
        let item = TodoItem { text, tags: Vec::new() };
        assert(item.tags.deep_view() =~= Seq::empty());
        item
    }

    /// The line that stores the task.
    pub fn to_string(&self) -> (line: String)
        ensures
            line@ == encode(self@),
    {
        let mut line = self.text.clone();
        if self.tags.len() > 0 {
            proof {
                reveal_strlit("|");
                reveal_strlit("]");
                assert("|"@ =~= seq!['|']);
                assert("]"@ =~= seq![']']);
                assert(self.tags.deep_view().subrange(0, self.tags.len() as int)
                    =~= self.tags.deep_view());
            }
            line.append(" [TAGS:");
            let tags = join(&self.tags, 0, self.tags.len(), "|");
            line.append(tags.as_str());
            line.append("]");
        }
        line
    }

    /// The task that the line `s` stores.
    pub fn from_string(s: &str) -> (item: TodoItem)
        ensures
            item@ == decode(s@),
    {
        let cs = chars_of(s);
        let mark = chars_of(" [TAGS:");
        proof {
            lemma_marker_shape();
            lemma_first_occurrence(cs@, marker());
        }
        if let Some(start) = find_first(&cs, &mark) {
            assert(start + 7 <= cs.len()) by {
                assert(occurs_at(cs@, marker(), start as int));
            }
            if let Some(end) = find_last(&cs, ']') {
                if start + 7 <= end {
                    proof {
                        cs@.index_of_last_ensures(']');
                        assert(cs@.subrange(0, start as int) =~= cs@.take(start as int));
                    }
                    let text = string_of(&cs, 0, start);
                    let parts = split(&cs, start + 7, end, '|');
                    let tags = trim_all(&parts);
                    return TodoItem { text, tags };
                }
            }
        }
        TodoItem::new(s.to_owned())
    }

    /// Tags the task with `new_tag`, which becomes its last tag. Where the
    /// task had that tag already, the earlier occurrence leaves.
    pub fn add_tag(&mut self, new_tag: String)
        ensures
            final(self)@.text == old(self)@.text,
            final(self)@.tags == touched(old(self)@.tags, new_tag@),
            old(self).has_distinct_tags() ==> final(self).has_distinct_tags(),
    {
        proof {
            if self.has_distinct_tags() {
                lemma_touch_distinct(self@.tags, new_tag@);
            }
        }
        let mut tags = remove_all(&self.tags, new_tag.as_str());
        tags.push(new_tag);
        self.tags = tags;
    }

    /// Takes every occurrence of `tag` from the task's tags.
    pub fn remove_tag(&mut self, tag: &str)
        ensures
            final(self)@.text == old(self)@.text,
            final(self)@.tags == without(old(self)@.tags, tag@),
            old(self).has_distinct_tags() ==> final(self).has_distinct_tags(),
    {
        proof {
            lemma_without_members(self@.tags, tag@);
        }
        self.tags = remove_all(&self.tags, tag);
    }
}

/// Where a tag occurs exactly once, the tags without it are the tags with
/// that one place taken out.
pub proof fn lemma_without_once(tags: Seq<Seq<char>>, tag: Seq<char>, k: int)
    requires
        0 <= k < tags.len(),
        tags[k] == tag,
        forall|j: int| 0 <= j < tags.len() && j != k ==> tags[j] != tag,
    ensures
        without(tags, tag) == tags.remove(k),
    decreases tags.len(),
{
    reveal(Seq::filter);
    let init = tags.drop_last();
    if k == tags.len() - 1 {
        lemma_without_absent(init, tag);
    } else {
        lemma_without_once(init, tag, k);
    }
}

/// Tags among which `tag` does not occur are left as they are.
pub proof fn lemma_without_absent(tags: Seq<Seq<char>>, tag: Seq<char>)
    requires
        forall|j: int| 0 <= j < tags.len() ==> tags[j] != tag,
    ensures
        without(tags, tag) == tags,
    decreases tags.len(),
{
    reveal(Seq::filter);
    if tags.len() > 0 {
        lemma_without_absent(tags.drop_last(), tag);
    }
}

/// What is left without `tag` is taken from `tags`, does not hold `tag`, and
/// holds nothing twice that `tags` held once.
pub proof fn lemma_without_members(tags: Seq<Seq<char>>, tag: Seq<char>)
    ensures
        forall|i: int|
            0 <= i < without(tags, tag).len() ==> (#[trigger] without(tags, tag)[i]) != tag
                && tags.contains(without(tags, tag)[i]),
        tags.no_duplicates() ==> without(tags, tag).no_duplicates(),
    decreases tags.len(),
{
    reveal(Seq::filter);
    if tags.len() > 0 {
        let init = tags.drop_last();
        let last = tags.last();
        let kept = without(init, tag);
        lemma_without_members(init, tag);
        assert forall|i: int| 0 <= i < kept.len() implies tags.contains(#[trigger] kept[i]) by {
            let j = choose|j: int| 0 <= j < init.len() && init[j] == kept[i];
            assert(tags[j] == kept[i]);
        }
        assert(tags.contains(last)) by {
            assert(tags[tags.len() - 1] == last);
        }
        if tags.no_duplicates() {
            assert forall|i: int| 0 <= i < kept.len() implies (#[trigger] kept[i]) != last by {
                let j = choose|j: int| 0 <= j < init.len() && init[j] == kept[i];
                assert(tags[j] == kept[i]);
            }
        }
    }
}

/// Tagging leaves no tag twice where none was there twice before.
pub proof fn lemma_touch_distinct(tags: Seq<Seq<char>>, tag: Seq<char>)
    requires
        tags.no_duplicates(),
    ensures
        touched(tags, tag).no_duplicates(),
{
    lemma_without_members(tags, tag);
}

/// Tagging a task with a tag that it already has, once, keeps the number of
/// its tags and moves that tag to the last place; the others keep their order.
pub proof fn lemma_touch_existing(tags: Seq<Seq<char>>, tag: Seq<char>)
    requires
        tags.no_duplicates(),
        tags.contains(tag),
    ensures
        touched(tags, tag).len() == tags.len(),
        touched(tags, tag).last() == tag,
        touched(tags, tag) == tags.remove(tags.index_of(tag)).push(tag),
{
    let k = tags.index_of(tag);
    lemma_without_once(tags, tag, k);
}

/// Tagging a task with a tag that it does not have yet adds the tag at the
/// end and changes nothing else.
pub proof fn lemma_touch_new(tags: Seq<Seq<char>>, tag: Seq<char>)
    requires
        !tags.contains(tag),
    ensures
        touched(tags, tag) == tags.push(tag),
{
    lemma_without_absent(tags, tag);
}

/// Writing a line back as read is stable: the line written reads as the
/// same task, so that writing it back once more changes nothing.
pub proof fn lemma_rewrite_stable(line: Seq<char>)
    ensures
        decode(encode(decode(line))) == decode(line),
        encode(decode(encode(decode(line)))) == encode(decode(line)),
{
    let task = decode(line);
    lemma_first_occurrence(line, marker());
    lemma_marker_shape();
    if let Some(start) = first_occurrence(line, marker()) {
        if let Some(end) = line.index_of_last(']') {
            if start + marker().len() <= end {
                line.index_of_last_ensures(']');
                let parts = pieces(line.subrange(start + marker().len(), end), '|');
                lemma_pieces_lack_sep(line.subrange(start + marker().len(), end), '|');
                assert forall|j: int| !occurs_at(task.text, marker(), j) by {
                    if occurs_at(task.text, marker(), j) {
                        assert(line.subrange(j, j + marker().len()) =~= task.text.subrange(
                            j,
                            j + marker().len(),
                        ));
                        assert(occurs_at(line, marker(), j));
                    }
                }
                assert forall|i: int| 0 <= i < task.tags.len() implies !(#[trigger] task.tags[i]).contains(
                    '|',
                ) && trimmed(task.tags[i]) == task.tags[i] by {
                    let range = lemma_stripped_range(parts[i], CharClass::Space);
                    if task.tags[i].contains('|') {
                        let k = choose|k: int| 0 <= k < task.tags[i].len() && task.tags[i][k] == '|';
                        assert(parts[i][range.0 + k] == '|');
                    }
                }
                lemma_round_trip(task);
            }
        }
    }
}

/// A task is stored in one line: where neither its text nor a tag holds a
/// line feed, the stored line holds none.
pub proof fn lemma_encode_one_line(item: ItemView)
    requires
        !item.text.contains('\n'),
        forall|i: int| 0 <= i < item.tags.len() ==> !(#[trigger] item.tags[i]).contains('\n'),
    ensures
        !encode(item).contains('\n'),
{
    broadcast use vstd::seq_lib::lemma_seq_concat_contains_all_elements;

    reveal_strlit(" [TAGS:");
    assert(!seq!['|'].contains('\n'));
    assert(!seq![']'].contains('\n'));
    lemma_joined_lacks(item.tags, seq!['|'], '\n');
}

/// The marker cannot begin inside a text and end behind it where the marker
/// itself follows the text: its first character occurs nowhere else in it.
proof fn lemma_marker_at_end(text: Seq<char>, rest: Seq<char>)
    requires
        !occurs(text, marker()),
    ensures
        is_first_occurrence(text + marker() + rest, marker(), text.len() as int),
{
    let line = text + marker() + rest;
    let n = text.len() as int;
    lemma_marker_shape();
    assert(line.subrange(n, n + 7) =~= marker());
    assert forall|j: int| 0 <= j < n implies !occurs_at(line, marker(), j) by {
        if occurs_at(line, marker(), j) {
            let found = line.subrange(j, j + 7);
            if j + 7 <= n {
                assert(text.subrange(j, j + 7) =~= found);
                assert(occurs_at(text, marker(), j));
            } else {
                assert(marker()[n - j] != ' ');
            }
        }
    }
}

/// Storing a task and reading the line back gives the task again, provided
/// that the text does not hold the marker, no tag holds `|`, and no tag
/// begins or ends with white space. Tags may hold `]`.
pub proof fn lemma_round_trip(item: ItemView)
    requires
        !occurs(item.text, marker()),
        forall|i: int| 0 <= i < item.tags.len() ==> !(#[trigger] item.tags[i]).contains('|'),
        forall|i: int| 0 <= i < item.tags.len() ==> trimmed(#[trigger] item.tags[i]) == item.tags[i],
    ensures
        decode(encode(item)) == item,
{
    let line = encode(item);
    if item.tags.len() == 0 {
        assert(item.tags =~= Seq::empty());
    } else {
        let body = joined(item.tags, seq!['|']);
        let n = item.text.len() as int;
        let end = line.len() - 1;
        lemma_marker_shape();
        lemma_marker_at_end(item.text, body + seq![']']);
        assert(item.text + marker() + (body + seq![']']) =~= line);
        lemma_first_occurrence_is(line, marker(), n);
        line.index_of_last_ensures(']');
        assert(line[end] == ']');
        assert(line.contains(']'));
        assert(line.index_of_last(']') == Some(end));
        assert(line.take(n) =~= item.text);
        assert(line.subrange(n + 7, end) =~= body);
        lemma_pieces_of_joined(item.tags, '|');
        assert(trim_each(item.tags) =~= item.tags);
    }
}

} // verus!
