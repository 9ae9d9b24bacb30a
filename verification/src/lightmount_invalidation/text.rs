//! Text comparisons.

use vstd::prelude::*;

verus! {

/// `<str as PartialEq>::eq`: whether the two texts have the same characters.
#[verifier::external_body]
pub(crate) fn same_text(left: &str, right: &str) -> (same: bool)
    ensures
        same == (left@ == right@),
{
    left == right
}

/// `str::starts_with` with a text as its pattern: whether `text` begins with
/// the characters of `prefix`.
#[verifier::external_body]
pub(crate) fn text_starts_with(text: &str, prefix: &str) -> (found: bool)
    ensures
        found == prefix@.is_prefix_of(text@),
{
    text.starts_with(prefix)
}

/// The character with an ASCII capital letter replaced by its small letter.
pub open spec fn ascii_lower_char(c: char) -> char {
    if 'A' <= c && c <= 'Z' {
        ((c as u8) + 32) as u8 as char
    } else {
        c
    }
}

/// The characters with ASCII capital letters replaced by small letters.
pub open spec fn ascii_lower(text: Seq<char>) -> Seq<char> {
    text.map_values(|c: char| ascii_lower_char(c))
}

/// `str::to_ascii_lowercase`: the letters `A` to `Z` become `a` to `z`, all
/// other characters stay.
#[verifier::external_body]
pub(crate) fn ascii_lowercase(text: &str) -> (lower: String)
    ensures
        lower@ == ascii_lower(text@),
{
    text.to_ascii_lowercase()
}

/// Whether some text of the list has these characters.
pub open spec fn lists_text(texts: Seq<String>, text: Seq<char>) -> bool {
    exists|i: int| 0 <= i < texts.len() && (#[trigger] texts[i])@ == text
}

/// A concatenation lists the texts of both lists.
pub proof fn lemma_lists_text_concat(first: Seq<String>, second: Seq<String>, text: Seq<char>)
    ensures
        lists_text(first + second, text) == (lists_text(first, text) || lists_text(second, text)),
{
    let all = first + second;
    if lists_text(first, text) {
        let i = choose|i: int| 0 <= i < first.len() && (#[trigger] first[i])@ == text;
        assert(all[i]@ == text);
    }
    if lists_text(second, text) {
        let i = choose|i: int| 0 <= i < second.len() && (#[trigger] second[i])@ == text;
        assert(all[first.len() + i]@ == text);
    }
    if lists_text(all, text) {
        let i = choose|i: int| 0 <= i < all.len() && (#[trigger] all[i])@ == text;
        if i < first.len() {
            assert(first[i]@ == text);
        } else {
            assert(second[i - first.len()]@ == text);
        }
    }
}

/// Return whether some text of the list has the characters of `text`.
pub fn list_has_text(texts: &Vec<String>, text: &str) -> (found: bool)
    ensures
        found == lists_text(texts@, text@),
{
    let mut index: usize = 0;
    while index < texts.len()
        invariant
            index <= texts.len(),
            forall|i: int| 0 <= i < index ==> (#[trigger] texts@[i])@ != text@,
        decreases texts.len() - index,
    {
        if same_text(texts[index].as_str(), text) {
            return true;
        }
        index = index + 1;
    }
    false
}

/// The characters of each text of a list.
pub open spec fn text_views(texts: Seq<String>) -> Seq<Seq<char>> {
    texts.map_values(|text: String| text@)
}

/// A list has a text exactly when its characters are among those of the list.
pub proof fn lemma_lists_text_views(texts: Seq<String>, text: Seq<char>)
    ensures
        lists_text(texts, text) == text_views(texts).contains(text),
{
    let views = text_views(texts);
    if lists_text(texts, text) {
        let i = choose|i: int| 0 <= i < texts.len() && (#[trigger] texts[i])@ == text;
        assert(views[i] == text);
    }
    if views.contains(text) {
        let i = views.index_of(text);
        assert(texts[i]@ == text);
    }
}

/// Add a text at the end of a list unless the list has it.
pub fn note_text(texts: &mut Vec<String>, text: String)
    ensures
        text_views(final(texts)@) == super::ordered_set::push_unique(
            text_views(old(texts)@),
            text@,
        ),
{
    let ghost before = texts@;
    proof {
        lemma_lists_text_views(texts@, text@);
    }
    if !list_has_text(texts, text.as_str()) {
        texts.push(text);
        assert(text_views(texts@) =~= text_views(before).push(text@));
    }
}

/// Return a copy of a list of texts.
pub fn copy_texts(texts: &Vec<String>) -> (copy: Vec<String>)
    ensures
        copy@ == texts@,
{
    let mut copy: Vec<String> = Vec::new();
    let mut index: usize = 0;
    while index < texts.len()
        invariant
            index <= texts.len(),
            copy@ == texts@.take(index as int),
        decreases texts.len() - index,
    {
        copy.push(texts[index].clone());
        assert(copy@ =~= texts@.take(index + 1));
        index = index + 1;
    }
    assert(texts@.take(texts@.len() as int) =~= texts@);
    copy
}

/// Return a copy of an optional text.
pub fn copy_optional_text(text: &Option<String>) -> (copy: Option<String>)
    ensures
        copy == *text,
{
    match text {
        Some(text) => Some(text.clone()),
        None => None,
    }
}

} // verus!
