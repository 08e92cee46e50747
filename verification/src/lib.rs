//! Core of a kanji spaced-repetition tracker.
//!
//! The library owns the kanji classifier, the in-memory image of the local
//! data store (kanji knowledge entries, per-kanji SRS records, review logs,
//! word records), the SRS card manager, the word manager, the candidate
//! selector and the request framing for the remote card service.  Everything
//! that touches the outside world (the database file, the network, the
//! terminal, the clock, the scheduler) lives outside the library and hands
//! plain values in and out.

use vstd::prelude::*;
use vstd::string::StringExecFns;

pub mod ankiconnect;
pub mod card_manager;
pub mod config;
pub mod db;
pub mod kanji;
pub mod lists;
pub mod selector;
pub mod srs;
pub mod sync;
pub mod table;
pub mod word_manager;

verus! {

/// Failure taxonomy of the core.
///
/// `Store` covers store-layer failures (a table that does not exist,
/// an exhausted identifier space); `NotFound` covers a missing record or an
/// empty candidate set; `Remote` carries the error string of a card-service
/// response.
#[derive(Debug, Clone, PartialEq, Eq)]
pub enum CliError {
    Store,
    NotFound,
    Remote(String),
}

impl CliError {
    /// A short human-readable description of the failure.
    pub fn message(&self) -> (r: String)
        ensures
            self is Store ==> r@ == "store-layer failure"@,
            self is NotFound ==> r@ == "not found"@,
            self matches CliError::Remote(m) ==> r@ == "card service error: "@ + m@,
    {
        match self {
            CliError::Store => "store-layer failure".to_owned(),
            CliError::NotFound => "not found".to_owned(),
            CliError::Remote(m) => {
                let r = "card service error: ".to_owned().concat(m.as_str());
                assert(r@ =~= "card service error: "@ + m@);
                r
            },
        }
    }
}

} // verus!
