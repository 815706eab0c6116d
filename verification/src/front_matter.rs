//! The layout of a note file: a block of front matter between two fence
//! lines, then the body.
//!
//! A fence line is three hyphens alone on a line. A file has front matter
//! when it opens with a fence line and a later line is a fence too; the
//! front matter is what stands between the first two fences and the body
//! is everything behind the second. Any other file is all body.

use vstd::prelude::*;
use vstd::slice::{slice_subrange, slice_to_vec};

verus! {

/// The byte of a hyphen.
pub const HYPHEN: u8 = 45;

/// The byte of a line feed.
pub const LINE_FEED: u8 = 10;

/// A fence line with its line feed.
pub open spec fn fence() -> Seq<u8> {
    seq![HYPHEN, HYPHEN, HYPHEN, LINE_FEED]
}

/// Whether `bytes` begin with a fence line.
pub open spec fn opens_with_fence(bytes: Seq<u8>) -> bool {
    &&& bytes.len() >= 4
    &&& bytes[0] == HYPHEN
    &&& bytes[1] == HYPHEN
    &&& bytes[2] == HYPHEN
    &&& bytes[3] == LINE_FEED
}

/// Whether a fence line begins at `at`, behind the line before it: three
/// hyphens from the start of a line to its end, or to the end of the file.
pub open spec fn is_fence_at(bytes: Seq<u8>, at: int) -> bool {
    &&& 0 < at
    &&& at + 3 <= bytes.len()
    &&& bytes[at - 1] == LINE_FEED
    &&& bytes[at] == HYPHEN
    &&& bytes[at + 1] == HYPHEN
    &&& bytes[at + 2] == HYPHEN
    &&& (at + 3 == bytes.len() || bytes[at + 3] == LINE_FEED)
}

/// Where the first fence line at or behind `from` begins.
pub open spec fn first_fence(bytes: Seq<u8>, from: int) -> Option<int>
    decreases bytes.len() - from,
{
    if from < 0 || from + 3 > bytes.len() {
        None
    } else if is_fence_at(bytes, from) {
        Some(from)
    } else {
        first_fence(bytes, from + 1)
    }
}

/// Where the fence line that closes the front matter begins, in a file
/// that has front matter.
pub open spec fn closing_fence(bytes: Seq<u8>) -> Option<int> {
    if opens_with_fence(bytes) {
        first_fence(bytes, 4)
    } else {
        None
    }
}

/// The front matter of a file, where it has one.
pub open spec fn matter_of(bytes: Seq<u8>) -> Option<Seq<u8>> {
    match closing_fence(bytes) {
        Some(at) => Some(bytes.subrange(4, at)),
        None => None,
    }
}

/// The body of a file.
pub open spec fn body_of(bytes: Seq<u8>) -> Seq<u8> {
    match closing_fence(bytes) {
        Some(at) => if at + 4 <= bytes.len() {
            bytes.subrange(at + 4, bytes.len() as int)
        } else {
            Seq::empty()
        },
        None => bytes,
    }
}

/// A block of front matter with its opening fence, as it can stand at the
/// head of a file: it opens with a fence line, ends with a line feed, and
/// no other line of it is a fence.
pub open spec fn block_sound(block: Seq<u8>) -> bool {
    &&& opens_with_fence(block)
    &&& block.last() == LINE_FEED
    &&& first_fence(block, 4) is None
}

/// The file made of a block of front matter, the closing fence and a body.
pub open spec fn framed(block: Seq<u8>, body: Seq<u8>) -> Seq<u8> {
    block + fence() + body
}

/// In a file framed from a sound block no fence line begins inside the
/// block, so the first one is the closing fence that framing put there.
proof fn lemma_first_fence_of_framed(block: Seq<u8>, body: Seq<u8>, from: int)
    requires
        4 <= from <= block.len(),
        block.last() == LINE_FEED,
        first_fence(block, from) is None,
    ensures
        first_fence(framed(block, body), from) == Some(block.len() as int),
    decreases block.len() - from,
{
    let file = framed(block, body);
    assert(file.len() == block.len() + 4 + body.len());
    assert(forall|i: int| 0 <= i < block.len() ==> file[i] == block[i]);
    let end = block.len() as int;
    assert(file[end] == HYPHEN);
    assert(file[end + 1] == HYPHEN);
    assert(file[end + 2] == HYPHEN);
    assert(file[end + 3] == LINE_FEED);
    if from == block.len() {
        assert(is_fence_at(file, from));
    } else {
        if is_fence_at(file, from) {
            if from + 3 < block.len() {
                assert(is_fence_at(block, from));
            }
            assert(false);
        }
        lemma_first_fence_of_framed(block, body, from + 1);
    }
}

/// A file framed from a sound block and a body splits into that block's
/// front matter and that body, whatever the body holds.
pub proof fn lemma_framed_splits(block: Seq<u8>, body: Seq<u8>)
    requires
        block_sound(block),
    ensures
        matter_of(framed(block, body)) == Some(block.subrange(4, block.len() as int)),
        body_of(framed(block, body)) == body,
{
    let file = framed(block, body);
    lemma_first_fence_of_framed(block, body, 4);
    assert(opens_with_fence(file));
    assert(file.subrange(4, block.len() as int) =~= block.subrange(4, block.len() as int));
    assert(file.subrange(block.len() as int + 4, file.len() as int) =~= body);
}

/// Whether a fence line begins at `at`.
fn fence_at(bytes: &[u8], at: usize) -> (found: bool)
    requires
        0 < at,
        at + 3 <= bytes@.len(),
    ensures
        found == is_fence_at(bytes@, at as int),
{
    bytes[at - 1] == LINE_FEED && bytes[at] == HYPHEN && bytes[at + 1] == HYPHEN && bytes[at + 2]
        == HYPHEN && (at + 3 == bytes.len() || bytes[at + 3] == LINE_FEED)
}

/// Where the first fence line at or behind `from` begins.
fn find_fence(bytes: &[u8], from: usize) -> (found: Option<usize>)
    requires
        0 < from,
    ensures
        match found {
            Some(at) => {
                &&& from <= at
                &&& at + 3 <= bytes@.len()
                &&& first_fence(bytes@, from as int) == Some(at as int)
            },
            None => first_fence(bytes@, from as int) is None,
        },
{
    let mut at = from;
    while at <= bytes.len() && bytes.len() - at >= 3
        invariant
            0 < from <= at,
            first_fence(bytes@, from as int) == first_fence(bytes@, at as int),
        decreases bytes@.len() + 1 - at,
    {
        if fence_at(bytes, at) {
            return Some(at);
        }
        at += 1;
    }
    None
}

/// Whether `bytes` begin with a fence line.
fn begins_with_fence(bytes: &[u8]) -> (found: bool)
    ensures
        found == opens_with_fence(bytes@),
{
    bytes.len() >= 4 && bytes[0] == HYPHEN && bytes[1] == HYPHEN && bytes[2] == HYPHEN && bytes[3]
        == LINE_FEED
}

/// The two parts of a note file.
pub struct Document {
    /// The front matter, where the file has one.
    pub matter: Option<Vec<u8>>,
    /// The body.
    pub body: Vec<u8>,
}

/// Splits a file into its front matter and its body.
pub fn split_document(bytes: &[u8]) -> (document: Document)
    ensures
        match document.matter {
            Some(matter) => matter_of(bytes@) == Some(matter@),
            None => matter_of(bytes@) is None,
        },
        document.body@ == body_of(bytes@),
{
    if begins_with_fence(bytes) {
        if let Some(at) = find_fence(bytes, 4) {
            let matter = slice_to_vec(slice_subrange(bytes, 4, at));
            let body = if bytes.len() - at >= 4 {
                slice_to_vec(slice_subrange(bytes, at + 4, bytes.len()))
            } else {
                Vec::new()
            };
            return Document { matter: Some(matter), body };
        }
    }
    Document { matter: None, body: slice_to_vec(bytes) }
}

/// Whether `block` can stand at the head of a file as its front matter.
pub fn is_sound_block(block: &[u8]) -> (sound: bool)
    ensures
        sound == block_sound(block@),
{
    begins_with_fence(block) && block[block.len() - 1] == LINE_FEED && find_fence(block, 4).is_none()
}

/// The file made of a block of front matter, the closing fence and a body.
pub fn frame_document(block: &[u8], body: &[u8]) -> (file: Vec<u8>)
    ensures
        file@ == framed(block@, body@),
{
    let mut file = slice_to_vec(block);
    file.push(HYPHEN);
    file.push(HYPHEN);
    file.push(HYPHEN);
    file.push(LINE_FEED);
    let mut rest = slice_to_vec(body);
    file.append(&mut rest);
    assert(file@ =~= framed(block@, body@));
    file
}

} // verus!
