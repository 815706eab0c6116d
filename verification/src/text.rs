//! Text and the bytes that encode it.

use vstd::prelude::*;
use vstd::utf8::{encode_utf8, valid_utf8};

verus! {

/// `String::from_utf8`: the text that `bytes` encode in UTF-8, or `None`
/// where they encode none. Trusted from the documentation of the standard
/// library.
#[verifier::external_body]
pub(crate) fn text_from_utf8(bytes: Vec<u8>) -> (text: Option<String>)
    ensures
        match text {
            Some(text) => encode_utf8(text@) == bytes@,
            None => !valid_utf8(bytes@),
        },
{
    String::from_utf8(bytes).ok()
}

/// Whether `phrase` stands somewhere in `text`.
pub open spec fn occurs_in(phrase: Seq<char>, text: Seq<char>) -> bool {
    exists|at: int|
        0 <= at <= text.len() - phrase.len() && #[trigger] text.subrange(at, at + phrase.len())
            == phrase
}

/// `str::contains` with a text as its pattern: whether the phrase stands
/// somewhere in the text. Trusted from the documentation of the standard
/// library.
#[verifier::external_body]
pub(crate) fn text_contains(text: &str, phrase: &str) -> (found: bool)
    ensures
        found == occurs_in(phrase@, text@),
{
    text.contains(phrase)
}

/// The views of a sequence of strings.
pub open spec fn views_of(texts: Seq<String>) -> Seq<Seq<char>> {
    texts.map_values(|text: String| text@)
}

/// The views of a list with one more text are the views of the list with
/// one more view.
pub proof fn lemma_views_push(texts: Seq<String>, text: String)
    ensures
        views_of(texts.push(text)) == views_of(texts).push(text@),
{
    assert(views_of(texts.push(text)) =~= views_of(texts).push(text@));
}

/// Whether two lists hold the same texts in the same order.
pub fn same_texts(left: &Vec<String>, right: &Vec<String>) -> (same: bool)
    ensures
        same == (views_of(left@) == views_of(right@)),
{
    if left.len() != right.len() {
        assert(views_of(left@).len() != views_of(right@).len());
        return false;
    }
    let mut i: usize = 0;
    while i < left.len()
        invariant
            i <= left.len(),
            left.len() == right.len(),
            views_of(left@).take(i as int) == views_of(right@).take(i as int),
        decreases left.len() - i,
    {
        if left[i] != right[i] {
            assert(views_of(left@)[i as int] != views_of(right@)[i as int]);
            return false;
        }
        assert(views_of(left@).take(i + 1) =~= views_of(left@).take(i as int).push(left[i as int]@));
        assert(views_of(right@).take(i + 1) =~= views_of(right@).take(i as int).push(
            right[i as int]@,
        ));
        i += 1;
    }
    assert(views_of(left@).take(i as int) =~= views_of(left@));
    assert(views_of(right@).take(i as int) =~= views_of(right@));
    true
}

/// Whether `texts` holds `text`.
pub fn holds_text(texts: &Vec<String>, text: &str) -> (held: bool)
    ensures
        held == views_of(texts@).contains(text@),
{
    let wanted = text.to_owned();
    let mut i: usize = 0;
    while i < texts.len()
        invariant
            i <= texts.len(),
            wanted@ == text@,
            forall|j: int| 0 <= j < i ==> views_of(texts@)[j] != text@,
        decreases texts.len() - i,
    {
        if texts[i] == wanted {
            assert(views_of(texts@)[i as int] == text@);
            return true;
        }
        assert(views_of(texts@)[i as int] != text@);
        i += 1;
    }
    false
}

/// A copy of `texts`.
pub fn copy_texts(texts: &Vec<String>) -> (copy: Vec<String>)
    ensures
        views_of(copy@) == views_of(texts@),
{
    let mut copy: Vec<String> = Vec::new();
    let mut i: usize = 0;
    while i < texts.len()
        invariant
            i <= texts.len(),
            views_of(copy@) == views_of(texts@).take(i as int),
        decreases texts.len() - i,
    {
        let ghost before = copy@;
        copy.push(texts[i].clone());
        proof {
            lemma_views_push(before, copy@.last());
            assert(views_of(texts@).take(i + 1) =~= views_of(texts@).take(i as int).push(
                texts[i as int]@,
            ));
        }
        i += 1;
    }
    assert(views_of(texts@).take(i as int) =~= views_of(texts@));
    copy
}

} // verus!
