//! Random-art fingerprints: a byte string is hashed, the digest steers a
//! walk over a small grid, and the visit counts are drawn as text.

pub mod canvas;
pub mod digest;
pub mod render;
pub mod walk;

use crate::digest::{sha512, sha512_of};
use crate::render::{
    lemma_text_is_ascii, lemma_text_len, lemma_text_marks_start, render, text_index, text_of,
};
use crate::walk::{start_of, walk, walked};
use vstd::prelude::*;
use vstd::utf8::is_ascii_chars;

verus! {

/// The error for a canvas without columns.
pub const ZERO_WIDTH: &'static str = "width is 0";

/// The error for a canvas without rows.
pub const ZERO_HEIGHT: &'static str = "height is 0";

/// The picture of a digest on a canvas of at least one cell.
pub open spec fn art_text(digest: Seq<u8>, width: int, height: int) -> Seq<char> {
    text_of(walked(digest, width, height), start_of(width, height))
}

/// What drawing a digest yields: the picture, or the error for the first
/// dimension that is zero, the width being looked at first.
pub open spec fn art_outcome(digest: Seq<u8>, width: int, height: int) -> Result<
    Seq<char>,
    Seq<char>,
> {
    if width == 0 {
        Err(ZERO_WIDTH@)
    } else if height == 0 {
        Err(ZERO_HEIGHT@)
    } else {
        Ok(art_text(digest, width, height))
    }
}

/// What `to_art` yields for an input: the outcome of drawing its SHA-512 digest.
pub open spec fn fingerprint(input: Seq<u8>, width: int, height: int) -> Result<
    Seq<char>,
    Seq<char>,
> {
    art_outcome(sha512_of(input), width, height)
}

/// A result as plain values: the characters of the picture or of the error.
pub open spec fn outcome_of(result: Result<String, &'static str>) -> Result<Seq<char>, Seq<char>> {
    match result {
        Ok(text) => Ok(text@),
        Err(message) => Err(message@),
    }
}

/// The place of the start marker in a picture of the given size.
pub open spec fn start_index(width: int, height: int) -> int {
    text_index(width, start_of(width, height).0, start_of(width, height).1)
}

/// A picture has one line of `width + 1` characters for each of its rows.
pub proof fn lemma_art_len(digest: Seq<u8>, width: int, height: int)
    requires
        width >= 1,
        height >= 1,
    ensures
        art_text(digest, width, height).len() == height * (width + 1),
{
    lemma_text_len(walked(digest, width, height), start_of(width, height));
}

/// A picture shows `S` in its middle cell, whatever the digest holds.
pub proof fn lemma_art_marks_start(digest: Seq<u8>, width: int, height: int)
    requires
        width >= 1,
        height >= 1,
    ensures
        0 <= start_index(width, height) < art_text(digest, width, height).len(),
        art_text(digest, width, height)[start_index(width, height)] == 'S',
{
    lemma_text_marks_start(walked(digest, width, height), start_of(width, height));
}

/// A picture is plain ASCII, so it takes one byte for each character.
pub proof fn lemma_art_is_ascii(digest: Seq<u8>, width: int, height: int)
    requires
        width >= 1,
        height >= 1,
    ensures
        is_ascii_chars(art_text(digest, width, height)),
{
    lemma_text_is_ascii(walked(digest, width, height), start_of(width, height));
}

/// The two errors can be told apart, and a canvas without columns or rows gets
/// the one that names its first missing dimension.
pub proof fn lemma_zero_size_is_refused(digest: Seq<u8>, width: int, height: int)
    requires
        width == 0 || height == 0,
    ensures
        ZERO_WIDTH@ != ZERO_HEIGHT@,
        width == 0 ==> art_outcome(digest, width, height) == Err::<Seq<char>, Seq<char>>(
            ZERO_WIDTH@,
        ),
        width != 0 ==> art_outcome(digest, width, height) == Err::<Seq<char>, Seq<char>>(
            ZERO_HEIGHT@,
        ),
{
    reveal_strlit("width is 0");
    reveal_strlit("height is 0");
    assert(ZERO_WIDTH@.len() != ZERO_HEIGHT@.len());
}

/// Drawing is a function of its arguments: two results that both meet the
/// contract of `to_art` for the same input and size hold the same picture or
/// the same error.
pub proof fn lemma_to_art_deterministic(
    input: Seq<u8>,
    width: usize,
    height: usize,
    first: Result<String, &'static str>,
    second: Result<String, &'static str>,
)
    ensures
        ({
            &&& outcome_of(first) == fingerprint(input, width as int, height as int)
            &&& outcome_of(second) == fingerprint(input, width as int, height as int)
        }) ==> outcome_of(first) == outcome_of(second),
{
}

/// Accepts a canvas of at least one cell. A missing dimension is refused, the
/// width being looked at before the height.
pub fn check_size(width: usize, height: usize) -> (result: Result<(), &'static str>)
    ensures
        width == 0 ==> (result matches Err(message) && message@ == ZERO_WIDTH@),
        width != 0 && height == 0 ==> (result matches Err(message) && message@ == ZERO_HEIGHT@),
        width != 0 && height != 0 ==> result is Ok,
{
    if width == 0 {
        Err(ZERO_WIDTH)
    } else if height == 0 {
        Err(ZERO_HEIGHT)
    } else {
        Ok(())
    }
}

/// Walks the digest over a canvas of at least one cell and draws it.
fn draw(digest: &[u8], width: usize, height: usize) -> (text: String)
    requires
        width >= 1,
        height >= 1,
    ensures
        text@ == art_text(digest@, width as int, height as int),
        text@.len() == height * (width + 1),
        text@[start_index(width as int, height as int)] == 'S',
        is_ascii_chars(text@),
{
    proof {
        lemma_art_len(digest@, width as int, height as int);
        lemma_art_marks_start(digest@, width as int, height as int);
        lemma_art_is_ascii(digest@, width as int, height as int);
    }
    let (canvas, start) = walk(digest, width, height);
    render(&canvas, start)
}

/// Draws a digest of any length on a canvas of the given size. No hashing is
/// involved: the bytes are walked as they are.
pub fn art_from_digest(digest: &[u8], width: usize, height: usize) -> (result: Result<
    String,
    &'static str,
>)
    ensures
        outcome_of(result) == art_outcome(digest@, width as int, height as int),
        width == 0 ==> outcome_of(result) == Err::<Seq<char>, Seq<char>>(ZERO_WIDTH@),
        width != 0 && height == 0 ==> outcome_of(result) == Err::<Seq<char>, Seq<char>>(
            ZERO_HEIGHT@,
        ),
        width != 0 && height != 0 ==> result is Ok,
        result matches Ok(text) ==> {
            &&& text@.len() == height * (width + 1)
            &&& text@[start_index(width as int, height as int)] == 'S'
            &&& is_ascii_chars(text@)
        },
{
    match check_size(width, height) {
        Err(message) => Err(message),
        Ok(()) => Ok(draw(digest, width, height)),
    }
}

/// Draws the fingerprint of `input`: the picture of its SHA-512 digest, which
/// has 64 bytes, on a canvas `width` columns wide and `height` rows high. The
/// size is checked before anything is hashed or drawn.
pub fn to_art(input: &[u8], width: usize, height: usize) -> (result: Result<String, &'static str>)
    ensures
        outcome_of(result) == fingerprint(input@, width as int, height as int),
        width == 0 ==> outcome_of(result) == Err::<Seq<char>, Seq<char>>(ZERO_WIDTH@),
        width != 0 && height == 0 ==> outcome_of(result) == Err::<Seq<char>, Seq<char>>(
            ZERO_HEIGHT@,
        ),
        width != 0 && height != 0 ==> result is Ok,
        result is Ok ==> sha512_of(input@).len() == 64,
        result matches Ok(text) ==> {
            &&& text@.len() == height * (width + 1)
            &&& text@[start_index(width as int, height as int)] == 'S'
            &&& is_ascii_chars(text@)
        },
{
    match check_size(width, height) {
        Err(message) => Err(message),
        Ok(()) => {
            let digest: [u8; 64] = sha512(input);
            Ok(draw(digest.as_slice(), width, height))
        },
    }
}

} // verus!
