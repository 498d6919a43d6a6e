//! Text helpers shared by the analyzers: comparison, prefix, suffix and
//! substring tests, all stated over the characters of a string.

use vstd::prelude::*;
use vstd::string::*;

verus! {

/// The character sequences of a sequence of strings.
pub open spec fn texts(strings: Seq<String>) -> Seq<Seq<char>> {
    Seq::new(strings.len(), |i: int| strings[i]@)
}

/// Adding a string at the end adds its characters at the end.
pub proof fn lemma_texts_push(strings: Seq<String>, last: String)
    ensures
        texts(strings.push(last)) == texts(strings).push(last@),
{
    assert(texts(strings.push(last)) =~= texts(strings).push(last@));
}

/// `needle` occurs in `text` at position `at`.
pub open spec fn occurs_at(text: Seq<char>, needle: Seq<char>, at: int) -> bool {
    0 <= at && at + needle.len() <= text.len() && text.subrange(at, at + needle.len()) == needle
}

/// `needle` occurs somewhere in `text`.
pub open spec fn occurs_in(text: Seq<char>, needle: Seq<char>) -> bool {
    exists|at: int| occurs_at(text, needle, at)
}

/// The characters of `text`, in order.
pub fn chars_of(text: &str) -> (chars: Vec<char>)
    ensures
        chars@ == text@,
{
    let mut chars: Vec<char> = Vec::new();
    for c in it: text.chars()
        invariant
            it.seq() == text@,
            chars@ == it.seq().take(it.index() as int),
    {
        chars.push(c);
    }
    chars
}

/// Whether `needle` occurs in `text` at position `at`.
pub fn matches_at(text: &Vec<char>, needle: &Vec<char>, at: usize) -> (found: bool)
    ensures
        found == occurs_at(text@, needle@, at as int),
{
    if needle.len() > text.len() || at > text.len() - needle.len() {
        return false;
    }
    let mut k: usize = 0;
    while k < needle.len()
        invariant
            k <= needle.len(),
            at + needle.len() <= text.len(),
            forall|j: int| 0 <= j < k ==> text@[at + j] == needle@[j],
        decreases needle.len() - k,
    {
        if text[at + k] != needle[k] {
            assert(text@.subrange(at as int, at + needle.len())[k as int] != needle@[k as int]);
            return false;
        }
        k = k + 1;
    }
    assert(text@.subrange(at as int, at + needle.len()) =~= needle@);
    true
}

/// The first position at which `needle` occurs in `text`, if there is one.
pub fn find_in(text: &Vec<char>, needle: &Vec<char>) -> (found: Option<usize>)
    ensures
        match found {
            Some(at) => occurs_at(text@, needle@, at as int) && forall|j: int|
                0 <= j < at ==> !occurs_at(text@, needle@, j),
            None => !occurs_in(text@, needle@),
        },
{
    if needle.len() > text.len() {
        return None;
    }
    let last: usize = text.len() - needle.len();
    let mut at: usize = 0;
    loop
        invariant
            at <= last,
            last == text.len() - needle.len(),
            forall|j: int| 0 <= j < at ==> !occurs_at(text@, needle@, j),
        decreases last - at,
    {
        if matches_at(text, needle, at) {
            return Some(at);
        }
        if at == last {
            return None;
        }
        at = at + 1;
    }
}

/// Whether `text` begins with `prefix`.
pub fn starts_with(text: &str, prefix: &str) -> (yes: bool)
    ensures
        yes == prefix@.is_prefix_of(text@),
{
    let t = chars_of(text);
    let p = chars_of(prefix);
    let yes = matches_at(&t, &p, 0);
    proof {
        if p@.len() <= t@.len() {
            assert(t@.subrange(0, p@.len() as int) == p@ <==> p@.is_prefix_of(t@));
        }
    }
    yes
}

/// Whether `text` ends with `suffix`.
pub fn ends_with(text: &str, suffix: &str) -> (yes: bool)
    ensures
        yes == suffix@.is_suffix_of(text@),
{
    let t = chars_of(text);
    let s = chars_of(suffix);
    if s.len() > t.len() {
        return false;
    }
    matches_at(&t, &s, t.len() - s.len())
}

/// Whether `needle` occurs in `text`.
pub fn contains(text: &str, needle: &str) -> (yes: bool)
    ensures
        yes == occurs_in(text@, needle@),
{
    let t = chars_of(text);
    let n = chars_of(needle);
    find_in(&t, &n).is_some()
}

/// `str`'s `==`: two string slices are equal when they hold the same
/// characters in the same order.
pub assume_specification[ <str as PartialEq>::eq ](a: &str, b: &str) -> (same: bool)
    ensures
        same == (a@ == b@),
;

/// Whether two string slices hold the same characters.
pub fn same_text(a: &str, b: &str) -> (same: bool)
    ensures
        same == (a@ == b@),
{
    *a == *b
}

/// The position of the first line feed of `text`, or its length where it has none.
pub open spec fn line_end(text: Seq<char>) -> int
    decreases text.len(),
{
    if text.len() == 0 || text[0] == '\n' {
        0
    } else {
        1 + line_end(text.drop_first())
    }
}

/// A line without the carriage return that precedes its line feed.
pub open spec fn without_carriage_return(line: Seq<char>) -> Seq<char> {
    if line.len() > 0 && line.last() == '\r' {
        line.drop_last()
    } else {
        line
    }
}

/// The lines of `text`: each ends before a line feed, without the carriage
/// return that may precede it; what follows the last line feed is a line of
/// its own unless it is empty.
pub open spec fn split_lines(text: Seq<char>) -> Seq<Seq<char>>
    decreases text.len(),
{
    let end = line_end(text);
    if text.len() == 0 {
        Seq::empty()
    } else if 0 <= end < text.len() {
        seq![without_carriage_return(text.take(end))] + split_lines(text.skip(end + 1))
    } else {
        seq![text]
    }
}

/// `str::lines`, each line copied into a string of its own: the lines end at
/// line feeds, a carriage return directly before a line feed belongs to the
/// line ending, and a final line ending is optional.
#[verifier::external_body]
pub(crate) fn lines_of(text: &str) -> (lines: Vec<String>)
    ensures
        texts(lines@) == split_lines(text@),
{
    text.lines().map(|line| line.to_string()).collect()
}

/// What `str::trim` leaves of a text: the text without its leading and
/// trailing white space.
pub uninterp spec fn trimmed(text: Seq<char>) -> Seq<char>;

/// `str::trim`, the result copied into a string of its own.
#[verifier::external_body]
pub(crate) fn trim(text: &str) -> (inner: String)
    ensures
        inner@ == trimmed(text@),
{
    text.trim().to_string()
}

/// What `str::to_lowercase` makes of a text: the text with every character
/// in its lower case.
pub uninterp spec fn lowercased(text: Seq<char>) -> Seq<char>;

/// `str::to_lowercase`.
#[verifier::external_body]
pub(crate) fn to_lowercase(text: &str) -> (lower: String)
    ensures
        lower@ == lowercased(text@),
{
    text.to_lowercase()
}

/// The position of the last `mark` in `text`.
pub open spec fn last_position(text: Seq<char>, mark: char) -> Option<int>
    decreases text.len(),
{
    if text.len() == 0 {
        None
    } else if text.last() == mark {
        Some(text.len() - 1)
    } else {
        last_position(text.drop_last(), mark)
    }
}

/// What the last position is: `mark` stands there and nowhere behind it.
pub proof fn lemma_last_position(text: Seq<char>, mark: char)
    ensures
        match last_position(text, mark) {
            Some(i) => 0 <= i < text.len() && text[i] == mark && forall|j: int|
                i < j < text.len() ==> text[j] != mark,
            None => forall|j: int| 0 <= j < text.len() ==> text[j] != mark,
        },
    decreases text.len(),
{
    if text.len() > 0 && text.last() != mark {
        lemma_last_position(text.drop_last(), mark);
        assert forall|j: int| 0 <= j < text.len() - 1 implies text.drop_last()[j] == text[j] by {}
    }
}

/// The position of the last `mark` in `text`.
pub fn last_index_of(text: &Vec<char>, mark: char) -> (found: Option<usize>)
    ensures
        match found {
            Some(i) => i < text.len() && last_position(text@, mark) == Some(i as int),
            None => last_position(text@, mark) is None,
        },
{
    let mut i: usize = text.len();
    while i > 0
        invariant
            i <= text.len(),
            forall|j: int| i <= j < text.len() ==> text@[j] != mark,
        decreases i,
    {
        i = i - 1;
        if text[i] == mark {
            proof {
                lemma_last_position(text@, mark);
            }
            return Some(i);
        }
    }
    proof {
        lemma_last_position(text@, mark);
    }
    None
}

/// The last component of a path: what follows its last slash.
pub open spec fn file_name(path: Seq<char>) -> Seq<char> {
    match last_position(path, '/') {
        Some(i) => path.skip(i + 1),
        None => path,
    }
}

/// The extension of a path: what follows the last dot of its last
/// component, unless the component has no dot or only one at its very start.
pub open spec fn extension(path: Seq<char>) -> Option<Seq<char>> {
    let name = file_name(path);
    match last_position(name, '.') {
        Some(i) => if i > 0 {
            Some(name.skip(i + 1))
        } else {
            None
        },
        None => None,
    }
}

/// The extension of `path`, if it has one.
pub fn extension_of(path: &str) -> (found: Option<String>)
    ensures
        match found {
            Some(e) => extension(path@) == Some(e@),
            None => extension(path@) is None,
        },
{
    let chars = chars_of(path);
    let start: usize = match last_index_of(&chars, '/') {
        Some(i) => i + 1,
        None => 0,
    };
    let name = path.substring_char(start, chars.len());
    assert(name@ =~= file_name(path@));
    let name_chars = chars_of(name);
    match last_index_of(&name_chars, '.') {
        Some(i) => {
            if i > 0 {
                let tail = name.substring_char(i + 1, name_chars.len());
                assert(tail@ =~= name@.skip(i + 1));
                Some(tail.to_owned())
            } else {
                None
            }
        },
        None => None,
    }
}

} // verus!
