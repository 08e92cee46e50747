//! Plain-value model of the per-kanji scheduling state.
//!
//! The scheduling algorithm itself is an outside capability: the core only
//! stores and moves the state it produces.  Timestamps are integer epoch
//! seconds; the scheduler's two real-valued parameters (stability and
//! difficulty) are carried as opaque 64-bit encodings that the core never
//! interprets.

use vstd::prelude::*;

verus! {

/// The state tag of an SRS record.
#[derive(Debug, Clone, Copy, PartialEq, Eq, Structural)]
pub enum State {
    New,
    Learning,
    Review,
    Relearning,
}

/// A learner's rating of one review.
#[derive(Debug, Clone, Copy, PartialEq, Eq, Structural)]
pub enum Rating {
    Again,
    Hard,
    Good,
    Easy,
}

/// The most recent review of one kanji, as the scheduler reported it.
#[derive(Debug, Clone, Copy, PartialEq, Eq, Structural)]
pub struct ReviewLog {
    pub rating: Rating,
    pub elapsed_days: u32,
    pub scheduled_days: u32,
    pub state: State,
    /// Epoch seconds of the review.
    pub reviewed_date: i64,
}

/// The scheduling state of one kanji, as the scheduler last produced it.
#[derive(Debug, Clone, Copy, PartialEq, Eq, Structural)]
pub struct SrsCard {
    /// Epoch seconds at which the card is next due.
    pub due: i64,
    /// Opaque encoding of the scheduler's stability parameter.
    pub stability: u64,
    /// Opaque encoding of the scheduler's difficulty parameter.
    pub difficulty: u64,
    pub elapsed_days: u32,
    pub scheduled_days: u32,
    pub lapses: u32,
    pub reps: u32,
    pub state: State,
    /// Epoch seconds of the last review.
    pub last_review: i64,
    pub previous_state: State,
    pub log: Option<ReviewLog>,
}

/// A kanji together with its scheduling state.
#[derive(Debug, Clone, Copy, PartialEq, Eq, Structural)]
pub struct KanjiSrs {
    pub kanji: char,
    pub card: SrsCard,
}

/// The state a kanji starts in when it is first seen: due immediately,
/// never reviewed, in the `New` state.
pub open spec fn fresh_card(now: i64) -> SrsCard {
    SrsCard {
        due: now,
        stability: 0u64,
        difficulty: 0u64,
        elapsed_days: 0u32,
        scheduled_days: 0u32,
        lapses: 0u32,
        reps: 0u32,
        state: State::New,
        last_review: now,
        previous_state: State::New,
        log: None,
    }
}

impl SrsCard {
    /// The state a kanji starts in when it is first seen: due immediately,
    /// never reviewed, in the `New` state.
    pub fn new(now: i64) -> (c: SrsCard)
        ensures
            c == fresh_card(now),
    {
        SrsCard {
            due: now,
            stability: 0,
            difficulty: 0,
            elapsed_days: 0,
            scheduled_days: 0,
            lapses: 0,
            reps: 0,
            state: State::New,
            last_review: now,
            previous_state: State::New,
            log: None,
        }
    }
}

/// The stored integer code of each state tag.
pub open spec fn state_code_spec(s: State) -> u8 {
    match s {
        State::New => 0,
        State::Learning => 1,
        State::Review => 2,
        State::Relearning => 3,
    }
}

/// Encodes a state tag as the integer the store persists.
#[verifier::when_used_as_spec(state_code_spec)]
pub fn state_code(s: State) -> (r: u8)
    ensures
        r == state_code_spec(s),
{
    match s {
        State::New => 0,
        State::Learning => 1,
        State::Review => 2,
        State::Relearning => 3,
    }
}

/// Decodes a stored state code; any out-of-range code falls back to `New`.
pub fn state_u8(i: u8) -> (r: State)
    ensures
        i == 0 ==> r == State::New,
        i == 1 ==> r == State::Learning,
        i == 2 ==> r == State::Review,
        i == 3 ==> r == State::Relearning,
        i > 3 ==> r == State::New,
{
    match i {
        0 => State::New,
        1 => State::Learning,
        2 => State::Review,
        3 => State::Relearning,
        _ => State::New,
    }
}

/// The stored integer code of each rating.
pub open spec fn rating_code_spec(r: Rating) -> u8 {
    match r {
        Rating::Again => 0,
        Rating::Hard => 1,
        Rating::Good => 2,
        Rating::Easy => 3,
    }
}

/// Encodes a rating as the integer the store persists.
#[verifier::when_used_as_spec(rating_code_spec)]
pub fn rating_code(r: Rating) -> (c: u8)
    ensures
        c == rating_code_spec(r),
{
    match r {
        Rating::Again => 0,
        Rating::Hard => 1,
        Rating::Good => 2,
        Rating::Easy => 3,
    }
}

/// Decodes a stored rating code; any out-of-range code falls back to `Again`.
pub fn rating_u8(i: u8) -> (r: Rating)
    ensures
        i == 0 ==> r == Rating::Again,
        i == 1 ==> r == Rating::Hard,
        i == 2 ==> r == Rating::Good,
        i == 3 ==> r == Rating::Easy,
        i > 3 ==> r == Rating::Again,
{
    match i {
        0 => Rating::Again,
        1 => Rating::Hard,
        2 => Rating::Good,
        3 => Rating::Easy,
        _ => Rating::Again,
    }
}

} // verus!
