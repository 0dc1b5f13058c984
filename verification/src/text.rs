//! Texts as sequences of characters, and what the library asks of them.

use vstd::prelude::*;
use vstd::string::StrSliceExecFns;

verus! {

/// `String::push` appends one character.
pub assume_specification[ String::push ](s: &mut String, c: char)
    ensures
        final(s)@ == old(s)@.push(c),
;

/// The characters of a text.
pub fn chars_of(text: &str) -> (chars: Vec<char>)
    ensures
        chars@ == text@,
{
    let mut chars: Vec<char> = Vec::new();
    for c in it: text.chars()
        invariant
            it.seq() == text@,
            chars@ == it.seq().take(it.index() as int),
    {
        chars.push(c);
        proof {
            assert(chars@ =~= it.seq().take(it.index() + 1));
        }
    }
    proof {
        assert(chars@ =~= text@);
    }
    chars
}

/// The text that is made of these characters.
pub fn text_from(chars: &Vec<char>) -> (text: String)
    ensures
        text@ == chars@,
{
    let mut text = String::new();
    let mut i: usize = 0;
    while i < chars.len()
        invariant
            0 <= i <= chars@.len(),
            text@ == chars@.take(i as int),
        decreases chars@.len() - i,
    {
        text.push(chars[i]);
        proof {
            assert(chars@.take(i + 1) =~= chars@.take(i as int).push(chars@[i as int]));
        }
        i = i + 1;
    }
    proof {
        assert(chars@.take(i as int) =~= chars@);
    }
    text
}

/// The text of the characters from one position up to another.
pub fn text_between(chars: &Vec<char>, from: usize, to: usize) -> (text: String)
    requires
        from <= to <= chars@.len(),
    ensures
        text@ == chars@.subrange(from as int, to as int),
{
    let mut text = String::new();
    let mut i: usize = from;
    while i < to
        invariant
            from <= i <= to <= chars@.len(),
            text@ == chars@.subrange(from as int, i as int),
        decreases to - i,
    {
        text.push(chars[i]);
        proof {
            assert(chars@.subrange(from as int, i + 1) =~= chars@.subrange(
                from as int,
                i as int,
            ).push(chars@[i as int]));
        }
        i = i + 1;
    }
    text
}

/// Whether two texts are the same.
pub fn same_text(a: &str, b: &str) -> (same: bool)
    ensures
        same == (a@ == b@),
{
    a.to_owned() == b.to_owned()
}

/// Whether a name begins with a dot, as the names of hidden files do.
pub open spec fn is_hidden(name: Seq<char>) -> bool {
    name.len() > 0 && name[0] == '.'
}

/// Whether a name begins with a dot.
pub fn starts_with_dot(name: &str) -> (hidden: bool)
    ensures
        hidden == is_hidden(name@),
{
    if name.is_empty() {
        false
    } else {
        name.get_char(0) == '.'
    }
}

/// Whether a list of texts holds a text.
pub open spec fn holds(list: Seq<String>, text: Seq<char>) -> bool {
    exists|i: int| 0 <= i < list.len() && (#[trigger] list[i])@ == text
}

/// Whether a list of texts holds a text.
pub fn list_holds(list: &Vec<String>, text: &str) -> (found: bool)
    ensures
        found == holds(list@, text@),
{
    let mut i: usize = 0;
    while i < list.len()
        invariant
            0 <= i <= list@.len(),
            forall|j: int| 0 <= j < i ==> (#[trigger] list@[j])@ != text@,
        decreases list@.len() - i,
    {
        if same_text(list[i].as_str(), text) {
            return true;
        }
        i = i + 1;
    }
    false
}

/// No text stands twice in the list.
pub open spec fn distinct(list: Seq<String>) -> bool {
    forall|i: int, j: int|
        0 <= i < j < list.len() ==> (#[trigger] list[i])@ != (#[trigger] list[j])@
}

/// Adds a text to a list in which no text stands twice, unless the list
/// holds it.
pub fn insert_distinct(list: &mut Vec<String>, text: String)
    requires
        distinct(old(list)@),
    ensures
        distinct(final(list)@),
        holds(old(list)@, text@) ==> final(list)@ == old(list)@,
        !holds(old(list)@, text@) ==> final(list)@ == old(list)@.push(text),
        forall|other: Seq<char>| #[trigger]
            holds(final(list)@, other) <==> (holds(old(list)@, other) || other == text@),
{
    if !list_holds(list, text.as_str()) {
        list.push(text);
        proof {
            assert forall|other: Seq<char>|
                holds(list@, other) <==> (holds(old(list)@, other) || other == text@) by {
                if holds(old(list)@, other) {
                    let i = choose|i: int| 0 <= i < old(list)@.len() && (#[trigger] old(list)@[i])@ == other;
                    assert(list@[i]@ == other);
                }
                if other == text@ {
                    assert(list@[list@.len() - 1]@ == other);
                }
                if holds(list@, other) {
                    let i = choose|i: int| 0 <= i < list@.len() && (#[trigger] list@[i])@ == other;
                    if i < old(list)@.len() {
                        assert(old(list)@[i]@ == other);
                    }
                }
            }
        }
    } else {
        proof {
            assert forall|other: Seq<char>|
                holds(list@, other) <==> (holds(old(list)@, other) || other == text@) by {}
        }
    }
}

/// Whether `needle` stands in `text` at position `at`.
pub open spec fn occurs_at(text: Seq<char>, needle: Seq<char>, at: int) -> bool {
    0 <= at && at + needle.len() <= text.len() && text.subrange(at, at + needle.len()) == needle
}

/// Whether `needle` stands somewhere in `text`. The empty text stands in
/// every text.
pub open spec fn contains_text(text: Seq<char>, needle: Seq<char>) -> bool {
    exists|at: int| occurs_at(text, needle, at)
}

/// Whether `needle` stands in `text` at position `at`.
pub fn matches_at(text: &Vec<char>, needle: &Vec<char>, at: usize) -> (found: bool)
    requires
        at + needle@.len() <= text@.len(),
    ensures
        found == occurs_at(text@, needle@, at as int),
{
    let length: usize = text.len();
    let mut k: usize = 0;
    while k < needle.len()
        invariant
            0 <= k <= needle@.len(),
            length == text@.len(),
            at + needle@.len() <= text@.len(),
            forall|j: int| 0 <= j < k ==> text@[at + j] == needle@[j],
        decreases needle@.len() - k,
    {
        if text[at + k] != needle[k] {
            proof {
                let part = text@.subrange(at as int, at + needle@.len());
                assert(part[k as int] == text@[at + k]);
            }
            return false;
        }
        k = k + 1;
    }
    proof {
        assert(text@.subrange(at as int, at + needle@.len()) =~= needle@);
    }
    true
}

/// Whether `needle` stands somewhere in `text`.
pub fn contains(text: &Vec<char>, needle: &Vec<char>) -> (found: bool)
    ensures
        found == contains_text(text@, needle@),
{
    if needle.len() > text.len() {
        return false;
    }
    let last: usize = text.len() - needle.len();
    let mut at: usize = 0;
    while at < last
        invariant
            0 <= at <= last,
            last == text@.len() - needle@.len(),
            forall|j: int| 0 <= j < at ==> !occurs_at(text@, needle@, j),
        decreases last - at,
    {
        if matches_at(text, needle, at) {
            return true;
        }
        at = at + 1;
    }
    matches_at(text, needle, last)
}

/// A text in lower case, as `str::to_lowercase` folds it.
pub uninterp spec fn lowercased(text: Seq<char>) -> Seq<char>;

/// Folds a text to lower case by `str::to_lowercase`. The claim is that the
/// outcome depends on the text alone.
#[verifier::external_body]
pub(crate) fn lowercase(text: &str) -> (lower: String)
    ensures
        lower@ == lowercased(text@),
{
    text.to_lowercase()
}

/// A text without the white space at its ends, as `str::trim` trims it.
pub uninterp spec fn trimmed(text: Seq<char>) -> Seq<char>;

/// Trims a text by `str::trim`. The claim is that the outcome depends on the
/// text alone.
#[verifier::external_body]
pub(crate) fn trim(text: &str) -> (inner: &str)
    ensures
        inner@ == trimmed(text@),
{
    text.trim()
}

/// The words of a text: its parts between white space, as
/// `str::split_whitespace` splits it.
pub uninterp spec fn words_of(text: Seq<char>) -> Seq<Seq<char>>;

/// The texts of a list.
pub open spec fn texts(list: Seq<String>) -> Seq<Seq<char>> {
    Seq::new(list.len(), |i: int| list[i]@)
}

/// The texts of a list of parts.
pub open spec fn part_texts(parts: Seq<&str>) -> Seq<Seq<char>> {
    Seq::new(parts.len(), |i: int| parts[i]@)
}

/// Splits a text into its words by `str::split_whitespace`. The claim is that
/// the outcome depends on the text alone.
#[verifier::external_body]
fn whitespace_parts(text: &str) -> (words: Vec<&str>)
    ensures
        part_texts(words@) == words_of(text@),
{
    text.split_whitespace().collect()
}

/// The words of a text: its parts between white space.
pub fn split_words(text: &str) -> (words: Vec<String>)
    ensures
        texts(words@) == words_of(text@),
{
    let parts = whitespace_parts(text);
    let mut words: Vec<String> = Vec::new();
    let mut i: usize = 0;
    while i < parts.len()
        invariant
            0 <= i <= parts@.len(),
            words@.len() == i,
            forall|j: int| 0 <= j < i ==> (#[trigger] words@[j])@ == parts@[j]@,
        decreases parts@.len() - i,
    {
        words.push(parts[i].to_owned());
        i = i + 1;
    }
    proof {
        assert(texts(words@) =~= part_texts(parts@));
    }
    words
}

/// A path with another path joined to it, as `std::path::Path::join` joins
/// them on the platform that the library is built for.
pub uninterp spec fn joined(base: Seq<char>, part: Seq<char>) -> Seq<char>;

/// Joins two paths by `std::path::Path::join`. The claim is that the outcome
/// depends on the two paths alone.
#[verifier::external_body]
pub(crate) fn join_path(base: &str, part: &str) -> (whole: String)
    ensures
        whole@ == joined(base@, part@),
{
    std::path::Path::new(base).join(part).to_string_lossy().into_owned()
}

/// The last part of a path: its file name, as `std::path::Path::file_name`
/// tells it on the platform that the library is built for, or `None` where
/// the path has none.
pub uninterp spec fn file_name_of(path: Seq<char>) -> Option<Seq<char>>;

/// The file name of a path by `std::path::Path::file_name`. The claim is that
/// the outcome depends on the path alone.
#[verifier::external_body]
pub(crate) fn file_name(path: &str) -> (name: Option<String>)
    ensures
        match name {
            Some(n) => file_name_of(path@) == Some(n@),
            None => file_name_of(path@).is_none(),
        },
{
    match std::path::Path::new(path).file_name() {
        Some(name) => Some(name.to_string_lossy().into_owned()),
        None => None,
    }
}

} // verus!
