//! Kanji classifier: which characters count as kanji, and how a review
//! interval maps to a coarse knowledge tier.

use vstd::prelude::*;

verus! {

/// Coarse knowledge tiers a learner can hold for one kanji.
pub enum Knowledge {
    Unknown,
    Seen,
    Recognize,
    Familiar,
    Write,
    Master,
}

/// One row of the kanji knowledge table: a single kanji and its tier.
#[derive(Debug, Clone, PartialEq, Eq)]
pub struct KanjiEntry {
    pub kanji: String,
    pub level: u8,
}

/// Relies on `char::to_string` (via `ToString`): the returned string holds
/// exactly the one character it was given.
#[verifier::external_body]
pub(crate) fn char_to_string(c: char) -> (s: String)
    ensures
        s@ == seq![c],
{
    c.to_string()
}

/// True iff the code point lies in one of the seven CJK ideograph ranges
/// (the main block, extension A, and extensions B through G).
pub open spec fn is_kanji_spec(c: char) -> bool {
    let u = c as u32;
    ||| 0x4E00 <= u <= 0x9FFF
    ||| 0x3400 <= u <= 0x4DBF
    ||| 0x20000 <= u <= 0x2A6DF
    ||| 0x2A700 <= u <= 0x2B73F
    ||| 0x2B740 <= u <= 0x2B81F
    ||| 0x2B820 <= u <= 0x2CEAF
    ||| 0x2CEB0 <= u <= 0x2EBEF
}

/// Decides whether a character is a kanji.  Pure and total: every character
/// outside the seven ranges yields `false`, every character inside, `true`.
#[verifier::when_used_as_spec(is_kanji_spec)]
pub fn is_kanji(c: char) -> (r: bool)
    ensures
        r == is_kanji_spec(c),
{
    let u = c as u32;
    (0x4E00 <= u && u <= 0x9FFF)
        || (0x3400 <= u && u <= 0x4DBF)
        || (0x20000 <= u && u <= 0x2A6DF)
        || (0x2A700 <= u && u <= 0x2B73F)
        || (0x2B740 <= u && u <= 0x2B81F)
        || (0x2B820 <= u && u <= 0x2CEAF)
        || (0x2CEB0 <= u && u <= 0x2EBEF)
}

/// The fixed step function from a card's review interval (in days) to a
/// knowledge tier: `>= 100` gives 3, `60..=99` gives 2, `1..=59` gives 1,
/// `0` gives 0.
pub open spec fn recommended_level_spec(interval: u16) -> u8 {
    if interval >= 100 {
        3
    } else if interval >= 60 {
        2
    } else if interval > 0 {
        1
    } else {
        0
    }
}

/// Maps a review interval to the coarse knowledge tier it recommends.
#[verifier::when_used_as_spec(recommended_level_spec)]
pub fn recommended_level(interval: u16) -> (r: u8)
    ensures
        r == recommended_level_spec(interval),
{
    if interval >= 100 {
        3
    } else if interval >= 60 {
        2
    } else if interval > 0 {
        1
    } else {
        0
    }
}

/// The recommended tier never drops as the interval grows.
pub proof fn lemma_recommended_level_monotonic(i1: u16, i2: u16)
    requires
        i1 <= i2,
    ensures
        recommended_level_spec(i1) <= recommended_level_spec(i2),
{
}

} // verus!
