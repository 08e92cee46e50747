//! Deck configuration: which field of each deck holds the headword, the
//! definition and the reading.  A deck must be mapped here before it can be
//! synced or used as a candidate source.  Loading and saving the file that
//! persists this mapping happens outside the library.

use vstd::prelude::*;
use crate::CliError;

verus! {

/// Field mapping of one deck.
#[derive(Debug, Clone)]
pub struct DeckConfig {
    pub name: String,
    pub word_field: String,
    pub furigana_field: String,
    pub def_field: String,
}

/// The persisted configuration: one mapping per synced deck.
#[derive(Debug, Clone)]
pub struct Config {
    pub decks: Vec<DeckConfig>,
}

/// Whether a deck of that name is already configured.
pub open spec fn has_deck(decks: Seq<DeckConfig>, name: Seq<char>) -> bool {
    exists|i: int| 0 <= i < decks.len() && (#[trigger] decks[i]).name@ == name
}

/// Index of the first configured deck with the given name, if any.
pub fn find_deck(config: &Config, name: &String) -> (r: Option<usize>)
    ensures
        r is Some <==> has_deck(config.decks@, name@),
        r matches Some(i) ==> i < config.decks@.len() && config.decks@[i as int].name@ == name@
            && forall|p: int| 0 <= p < i ==> (#[trigger] config.decks@[p]).name@ != name@,
{
    let n = config.decks.len();
    let mut i: usize = 0;
    while i < n
        invariant
            n == config.decks@.len(),
            i <= n,
            forall|p: int| 0 <= p < i ==> (#[trigger] config.decks@[p]).name@ != name@,
        decreases n - i,
    {
        if config.decks[i].name == *name {
            assert(config.decks@[i as int].name@ == name@);
            return Some(i);
        }
        i = i + 1;
    }
    None
}

/// Extends the configuration with a mapping for `deck_name`, unless one
/// already exists; an existing mapping wins and nothing changes.
pub fn add_deck(
    config: &mut Config,
    deck_name: String,
    word_field: String,
    def_field: String,
    furigana_field: String,
) -> (r: Result<(), CliError>)
    ensures
        r is Ok,
        has_deck(old(config).decks@, deck_name@) ==> final(config).decks == old(config).decks,
        !has_deck(old(config).decks@, deck_name@) ==> final(config).decks@ == old(
            config,
        ).decks@.push(
            DeckConfig { name: deck_name, word_field, furigana_field, def_field },
        ),
{
    match find_deck(config, &deck_name) {
        Some(_) => Ok(()),
        None => {
            config.decks.push(
                DeckConfig { name: deck_name, word_field, furigana_field, def_field },
            );
            Ok(())
        },
    }
}

} // verus!
