//! Searching, splitting, joining and stripping character sequences.

use crate::chars::{chars_of, string_of};
use vstd::prelude::*;

verus! {

/// Whether `pat` stands in `s` at index `i`.
pub open spec fn occurs_at(s: Seq<char>, pat: Seq<char>, i: int) -> bool {
    0 <= i && i + pat.len() <= s.len() && s.subrange(i, i + pat.len()) == pat
}

/// Whether `pat` stands somewhere in `s`.
pub open spec fn occurs(s: Seq<char>, pat: Seq<char>) -> bool {
    exists|i: int| occurs_at(s, pat, i)
}

/// Whether `i` is the least index at which `pat` stands in `s`.
pub open spec fn is_first_occurrence(s: Seq<char>, pat: Seq<char>, i: int) -> bool {
    occurs_at(s, pat, i) && forall|j: int| 0 <= j < i ==> !occurs_at(s, pat, j)
}

/// The least index at which `pat` stands in `s`, if it stands anywhere.
pub open spec fn first_occurrence(s: Seq<char>, pat: Seq<char>) -> Option<int> {
    if occurs(s, pat) {
        Some(choose|i: int| is_first_occurrence(s, pat, i))
    } else {
        None
    }
}

/// Among the indices at which `pat` stands in `s`, up to `bound`, one is least.
proof fn lemma_least_occurrence(s: Seq<char>, pat: Seq<char>, bound: int)
    requires
        occurs_at(s, pat, bound),
    ensures
        exists|i: int| is_first_occurrence(s, pat, i),
    decreases bound,
{
    if exists|j: int| 0 <= j < bound && occurs_at(s, pat, j) {
        let j = choose|j: int| 0 <= j < bound && occurs_at(s, pat, j);
        lemma_least_occurrence(s, pat, j);
    } else {
        assert(is_first_occurrence(s, pat, bound));
    }
}

/// An index that holds the first occurrence is the one `first_occurrence` gives.
pub proof fn lemma_first_occurrence_is(s: Seq<char>, pat: Seq<char>, i: int)
    requires
        is_first_occurrence(s, pat, i),
    ensures
        first_occurrence(s, pat) == Some(i),
{
}

/// What `first_occurrence` gives is the least index of an occurrence, and it
/// gives none only where there is no occurrence.
pub proof fn lemma_first_occurrence(s: Seq<char>, pat: Seq<char>)
    ensures
        match first_occurrence(s, pat) {
            Some(i) => is_first_occurrence(s, pat, i),
            None => forall|j: int| !occurs_at(s, pat, j),
        },
{
    if occurs(s, pat) {
        let w = choose|i: int| occurs_at(s, pat, i);
        lemma_least_occurrence(s, pat, w);
    }
}

/// Whether `pat` stands in `s` at index `i`.
fn matches_at(s: &Vec<char>, pat: &Vec<char>, i: usize) -> (found: bool)
    requires
        i + pat.len() <= s.len(),
    ensures
        found == occurs_at(s@, pat@, i as int),
{
    let mut k: usize = 0;
    while k < pat.len()
        invariant
            k <= pat.len(),
            i + pat.len() <= s.len(),
            forall|m: int| 0 <= m < k ==> s@[i + m] == pat@[m],
        decreases pat.len() - k,
    {
        if s[i + k] != pat[k] {
            return false;
        }
        k += 1;
    }
    assert(s@.subrange(i as int, i + pat.len()) =~= pat@);
    true
}

/// The least index at which `pat` stands in `s`.
pub fn find_first(s: &Vec<char>, pat: &Vec<char>) -> (found: Option<usize>)
    ensures
        match found {
            Some(i) => first_occurrence(s@, pat@) == Some(i as int),
            None => first_occurrence(s@, pat@) is None,
        },
{
    if pat.len() > s.len() {
        return None;
    }
    let last: usize = s.len() - pat.len();
    let mut i: usize = 0;
    loop
        invariant
            last == s.len() - pat.len(),
            i <= last,
            forall|j: int| 0 <= j < i ==> !occurs_at(s@, pat@, j),
        decreases last - i,
    {
        if matches_at(s, pat, i) {
            proof {
                lemma_first_occurrence_is(s@, pat@, i as int);
            }
            return Some(i);
        }
        if i == last {
            return None;
        }
        i += 1;
    }
}

/// The greatest index at which `c` stands in `s`.
pub fn find_last(s: &Vec<char>, c: char) -> (found: Option<usize>)
    ensures
        match found {
            Some(i) => s@.index_of_last(c) == Some(i as int),
            None => s@.index_of_last(c) is None,
        },
{
    let mut i: usize = s.len();
    while i > 0
        invariant
            i <= s.len(),
            forall|j: int| i <= j < s.len() ==> s@[j] != c,
        decreases i,
    {
        i -= 1;
        if s[i] == c {
            proof {
                s@.index_of_last_ensures(c);
            }
            return Some(i);
        }
    }
    proof {
        s@.index_of_last_ensures(c);
    }
    None
}

/// The pieces of `s` that lie between the occurrences of `sep`. A sequence
/// without `sep` is one piece; `n` occurrences give `n + 1` pieces.
pub open spec fn pieces(s: Seq<char>, sep: char) -> Seq<Seq<char>>
    decreases s.len(),
{
    match s.index_of_first(sep) {
        Some(i) => {
            proof {
                s.index_of_first_ensures(sep);
            }
            seq![s.take(i)] + pieces(s.skip(i + 1), sep)
        },
        None => seq![s],
    }
}

/// The parts one after another, with `sep` between each two neighbours.
pub open spec fn joined(parts: Seq<Seq<char>>, sep: Seq<char>) -> Seq<char>
    decreases parts.len(),
{
    if parts.len() == 0 {
        Seq::empty()
    } else if parts.len() == 1 {
        parts[0]
    } else {
        joined(parts.drop_last(), sep) + sep + parts.last()
    }
}

/// Where `sep` first stands at index `k`, the first piece ends there and the
/// other pieces are those of what follows.
pub proof fn lemma_pieces_at(s: Seq<char>, sep: char, k: int)
    requires
        0 <= k < s.len(),
        s[k] == sep,
        forall|j: int| 0 <= j < k ==> s[j] != sep,
    ensures
        pieces(s, sep) == seq![s.take(k)] + pieces(s.skip(k + 1), sep),
{
    s.index_of_first_ensures(sep);
}

/// A sequence in which `sep` does not stand is a single piece.
pub proof fn lemma_pieces_whole(s: Seq<char>, sep: char)
    requires
        !s.contains(sep),
    ensures
        pieces(s, sep) == seq![s],
{
    s.index_of_first_ensures(sep);
}

/// There is at least one piece, and the separator stands in none.
pub proof fn lemma_pieces_lack_sep(s: Seq<char>, sep: char)
    ensures
        pieces(s, sep).len() >= 1,
        forall|i: int| 0 <= i < pieces(s, sep).len() ==> !(#[trigger] pieces(s, sep)[i]).contains(sep),
    decreases s.len(),
{
    s.index_of_first_ensures(sep);
    if let Some(k) = s.index_of_first(sep) {
        lemma_pieces_lack_sep(s.skip(k + 1), sep);
    }
}

/// Splitting distributes over a separator: the pieces of `a`, `sep`, `b` in a
/// row are the pieces of `a` followed by the pieces of `b`.
pub proof fn lemma_pieces_concat(a: Seq<char>, b: Seq<char>, sep: char)
    ensures
        pieces(a + seq![sep] + b, sep) == pieces(a, sep) + pieces(b, sep),
    decreases a.len(),
{
    let s = a + seq![sep] + b;
    a.index_of_first_ensures(sep);
    match a.index_of_first(sep) {
        Some(k) => {
            lemma_pieces_at(s, sep, k);
            assert(s.take(k) =~= a.take(k));
            assert(s.skip(k + 1) =~= a.skip(k + 1) + seq![sep] + b);
            lemma_pieces_concat(a.skip(k + 1), b, sep);
        },
        None => {
            let k = a.len() as int;
            lemma_pieces_at(s, sep, k);
            assert(s.take(k) =~= a);
            assert(s.skip(k + 1) =~= b);
        },
    }
}

/// Splitting undoes joining: at least one part, none of them holding the
/// separator, come back as they were.
pub proof fn lemma_pieces_of_joined(parts: Seq<Seq<char>>, sep: char)
    requires
        parts.len() > 0,
        forall|i: int| 0 <= i < parts.len() ==> !(#[trigger] parts[i]).contains(sep),
    ensures
        pieces(joined(parts, seq![sep]), sep) == parts,
    decreases parts.len(),
{
    if parts.len() == 1 {
        lemma_pieces_whole(parts[0], sep);
    } else {
        let init = parts.drop_last();
        lemma_pieces_of_joined(init, sep);
        lemma_pieces_concat(joined(init, seq![sep]), parts.last(), sep);
        lemma_pieces_whole(parts.last(), sep);
    }
}

/// Joining one more part puts the separator and the part behind what the
/// parts before it give, unless it is the first.
pub proof fn lemma_joined_push(parts: Seq<Seq<char>>, sep: Seq<char>, part: Seq<char>)
    ensures
        joined(parts.push(part), sep) == if parts.len() == 0 {
            part
        } else {
            joined(parts, sep) + sep + part
        },
{
    assert(parts.push(part).drop_last() =~= parts);
}

/// A character that stands neither in a part nor in the separator does not
/// stand in what they are joined to.
pub proof fn lemma_joined_lacks(parts: Seq<Seq<char>>, sep: Seq<char>, c: char)
    requires
        !sep.contains(c),
        forall|i: int| 0 <= i < parts.len() ==> !(#[trigger] parts[i]).contains(c),
    ensures
        !joined(parts, sep).contains(c),
    decreases parts.len(),
{
    broadcast use vstd::seq_lib::lemma_seq_concat_contains_all_elements;

    if parts.len() > 1 {
        lemma_joined_lacks(parts.drop_last(), sep, c);
    }
}

/// The pieces of `s[from..to]` between the occurrences of `sep`.
pub fn split(s: &Vec<char>, from: usize, to: usize, sep: char) -> (out: Vec<String>)
    requires
        from <= to <= s.len(),
    ensures
        out.deep_view() == pieces(s@.subrange(from as int, to as int), sep),
{
    let ghost whole = s@.subrange(from as int, to as int);
    let mut out: Vec<String> = Vec::new();
    let mut start: usize = from;
    let mut i: usize = from;
    while i < to
        invariant
            from <= start <= i <= to <= s.len(),
            whole == s@.subrange(from as int, to as int),
            forall|j: int| start <= j < i ==> s@[j] != sep,
            out.deep_view() + pieces(s@.subrange(start as int, to as int), sep) == pieces(
                whole,
                sep,
            ),
        decreases to - i,
    {
        if s[i] == sep {
            let piece = string_of(s, start, i);
            proof {
                let rest = s@.subrange(start as int, to as int);
                lemma_pieces_at(rest, sep, i - start);
                assert(rest.take(i - start) =~= piece@);
                assert(rest.skip(i - start + 1) =~= s@.subrange(i + 1, to as int));
            }
            out.push(piece);
            start = i + 1;
        }
        i += 1;
    }
    let piece = string_of(s, start, to);
    proof {
        let rest = s@.subrange(start as int, to as int);
        lemma_pieces_whole(rest, sep);
    }
    out.push(piece);
    out
}

/// The strings `parts[from..to]` one after another, with `sep` between each
/// two neighbours.
pub fn join(parts: &Vec<String>, from: usize, to: usize, sep: &str) -> (out: String)
    requires
        from <= to <= parts.len(),
    ensures
        out@ == joined(parts.deep_view().subrange(from as int, to as int), sep@),
{
    let ghost all = parts.deep_view();
    let mut out = String::new();
    let mut i: usize = from;
    while i < to
        invariant
            from <= i <= to <= parts.len(),
            all == parts.deep_view(),
            out@ == joined(all.subrange(from as int, i as int), sep@),
        decreases to - i,
    {
        proof {
            lemma_joined_push(all.subrange(from as int, i as int), sep@, parts[i as int]@);
            assert(all.subrange(from as int, i as int).push(parts[i as int]@) =~= all.subrange(
                from as int,
                i + 1,
            ));
        }
        if i > from {
            out.append(sep);
        }
        out.append(parts[i].as_str());
        i += 1;
    }
    out
}

/// A class of characters that may be stripped from the ends of a text.
#[derive(Clone, Copy, Debug)]
pub enum CharClass {
    /// The characters that Unicode gives the property White_Space.
    Space,
    /// The double quotation mark.
    Quote,
}

/// Whether `c` has the Unicode property White_Space.
pub open spec fn is_space(c: char) -> bool {
    ||| '\u{9}' <= c <= '\u{D}'
    ||| c == ' '
    ||| c == '\u{85}'
    ||| c == '\u{A0}'
    ||| c == '\u{1680}'
    ||| '\u{2000}' <= c <= '\u{200A}'
    ||| c == '\u{2028}'
    ||| c == '\u{2029}'
    ||| c == '\u{202F}'
    ||| c == '\u{205F}'
    ||| c == '\u{3000}'
}

impl CharClass {
    /// Whether `c` belongs to the class.
    pub open spec fn holds(self, c: char) -> bool {
        match self {
            CharClass::Space => is_space(c),
            CharClass::Quote => c == '"',
        }
    }

    /// Whether `c` belongs to the class.
    pub fn has(self, c: char) -> (yes: bool)
        ensures
            yes == self.holds(c),
    {
        match self {
            CharClass::Space => {
                ('\u{9}' <= c && c <= '\u{D}') || c == ' ' || c == '\u{85}' || c == '\u{A0}' || c
                    == '\u{1680}' || ('\u{2000}' <= c && c <= '\u{200A}') || c == '\u{2028}' || c
                    == '\u{2029}' || c == '\u{202F}' || c == '\u{205F}' || c == '\u{3000}'
            },
            CharClass::Quote => c == '"',
        }
    }
}

/// `s` without the characters of `class` that it begins with.
pub open spec fn strip_start(s: Seq<char>, class: CharClass) -> Seq<char>
    decreases s.len(),
{
    if s.len() > 0 && class.holds(s.first()) {
        strip_start(s.drop_first(), class)
    } else {
        s
    }
}

/// `s` without the characters of `class` that it ends with.
pub open spec fn strip_end(s: Seq<char>, class: CharClass) -> Seq<char>
    decreases s.len(),
{
    if s.len() > 0 && class.holds(s.last()) {
        strip_end(s.drop_last(), class)
    } else {
        s
    }
}

/// `s` without the characters of `class` at either end.
pub open spec fn stripped(s: Seq<char>, class: CharClass) -> Seq<char> {
    strip_end(strip_start(s, class), class)
}

/// `s` without the white space at either end.
pub open spec fn trimmed(s: Seq<char>) -> Seq<char> {
    stripped(s, CharClass::Space)
}

/// What is left of `s` after stripping is a stretch of `s`, from an index
/// `a` up to an index `b`, that neither begins nor ends with a character of
/// `class`.
pub proof fn lemma_stripped_range(s: Seq<char>, class: CharClass) -> (range: (int, int))
    ensures
        0 <= range.0 <= range.1 <= s.len(),
        stripped(s, class) == s.subrange(range.0, range.1),
        range.0 < range.1 ==> !class.holds(s[range.0]) && !class.holds(s[range.1 - 1]),
{
    let a = lemma_strip_start_range(s, class);
    let b = lemma_strip_end_range(s.skip(a), class);
    (a, a + b)
}

/// What is left of `s` after stripping its start is `s` from an index on,
/// and does not begin with a character of `class`.
proof fn lemma_strip_start_range(s: Seq<char>, class: CharClass) -> (a: int)
    ensures
        0 <= a <= s.len(),
        strip_start(s, class) == s.skip(a),
        a < s.len() ==> !class.holds(s[a]),
    decreases s.len(),
{
    if s.len() > 0 && class.holds(s.first()) {
        lemma_strip_start_range(s.drop_first(), class) + 1
    } else {
        0
    }
}

/// What is left of `s` after stripping its end is `s` up to an index, and
/// does not end with a character of `class`.
proof fn lemma_strip_end_range(s: Seq<char>, class: CharClass) -> (b: int)
    ensures
        0 <= b <= s.len(),
        strip_end(s, class) == s.take(b),
        b > 0 ==> !class.holds(s[b - 1]),
    decreases s.len(),
{
    if s.len() > 0 && class.holds(s.last()) {
        lemma_strip_end_range(s.drop_last(), class)
    } else {
        s.len() as int
    }
}

/// `s` without the characters of `class` at either end.
pub fn strip(s: &str, class: CharClass) -> (out: String)
    ensures
        out@ == stripped(s@, class),
{
    let cs = chars_of(s);
    let mut from: usize = 0;
    assert(cs@.subrange(0, cs.len() as int) =~= cs@);
    while from < cs.len() && class.has(cs[from])
        invariant
            from <= cs.len(),
            strip_start(cs@, class) == strip_start(cs@.subrange(from as int, cs.len() as int), class),
        decreases cs.len() - from,
    {
        assert(cs@.subrange(from as int, cs.len() as int).drop_first() =~= cs@.subrange(
            from + 1,
            cs.len() as int,
        ));
        from += 1;
    }
    let mut to: usize = cs.len();
    while to > from && class.has(cs[to - 1])
        invariant
            from <= to <= cs.len(),
            stripped(cs@, class) == strip_end(cs@.subrange(from as int, to as int), class),
        decreases to,
    {
        assert(cs@.subrange(from as int, to as int).drop_last() =~= cs@.subrange(
            from as int,
            to - 1,
        ));
        to -= 1;
    }
    string_of(&cs, from, to)
}

/// `s` without the white space at either end.
pub fn trim(s: &str) -> (out: String)
    ensures
        out@ == trimmed(s@),
{
    strip(s, CharClass::Space)
}

} // verus!
