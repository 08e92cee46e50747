//! The word manager: persisted word/definition/reading records keyed by the
//! source card's identifier, with substring lookup by kanji.

use vstd::prelude::*;
use vstd::string::StrSliceExecFns;
use crate::db::{ensure_word_db, word_key, word_view, Database, WordRecord};
use crate::table::{
    absent, lemma_lookup_at, lemma_lookup_none, lemma_lookup_push,
    lemma_lookup_update, lemma_unique_push, lemma_unique_update,
};
use crate::CliError;

verus! {

/// A word with its definition and reading, as handed back to callers.
#[derive(Debug, Clone, PartialEq, Eq)]
pub struct Word {
    pub word: String,
    pub def: String,
    pub furigana: String,
}

/// Whether the character occurs in the text.
pub open spec fn contains_char(w: Seq<char>, k: char) -> bool {
    exists|i: int| 0 <= i < w.len() && w[i] == k
}

/// The word records whose word text contains the character, in table order,
/// stripped of their keys.
pub open spec fn find_words_spec(t: Seq<WordRecord>, k: char) -> Seq<Word>
    decreases t.len(),
{
    if t.len() == 0 {
        Seq::empty()
    } else {
        let rest = find_words_spec(t.drop_first(), k);
        if contains_char(t[0].word@, k) {
            seq![Word { word: t[0].word, def: t[0].def, furigana: t[0].furigana }] + rest
        } else {
            rest
        }
    }
}

/// Sole writer of the word table.
pub struct WordManager {}

impl WordManager {
    /// Builds a manager over the store, creating the word table if needed.
    pub fn new(db: &mut Database) -> (m: WordManager)
        ensures
            final(db).words is Some,
            old(db).words is Some ==> final(db).words == old(db).words,
            old(db).words is None ==> final(db).words_tab() =~= Seq::<WordRecord>::empty(),
            final(db).kanji == old(db).kanji,
            final(db).srs == old(db).srs,
            final(db).revlog == old(db).revlog,
            old(db).wf() ==> final(db).wf(),
    {
        let m = WordManager {  };
        m.ensure_word_db(db);
        m
    }

    /// Creates the word table if it does not exist yet (idempotent).
    pub fn ensure_word_db(&self, db: &mut Database)
        ensures
            final(db).words is Some,
            old(db).words is Some ==> final(db).words == old(db).words,
            old(db).words is None ==> final(db).words_tab() =~= Seq::<WordRecord>::empty(),
            final(db).kanji == old(db).kanji,
            final(db).srs == old(db).srs,
            final(db).revlog == old(db).revlog,
            old(db).wf() ==> final(db).wf(),
    {
        ensure_word_db(db);
    }

    /// Insert-or-replace keyed by the source card's identifier: a re-sync of
    /// the same card overwrites word, definition and reading.  Fails with a
    /// store-layer error exactly when the word table does not exist; a
    /// failure changes nothing.
    pub fn insert_or_update_word(
        &self,
        db: &mut Database,
        id: u64,
        word: &String,
        def: &String,
        furigana: &String,
    ) -> (r: Result<(), CliError>)
        requires
            old(db).wf(),
        ensures
            final(db).wf(),
            final(db).kanji == old(db).kanji,
            final(db).srs == old(db).srs,
            final(db).revlog == old(db).revlog,
            old(db).words is None <==> r is Err,
            r is Err ==> r == Err::<(), CliError>(CliError::Store) && *final(db) == *old(db),
            r is Ok ==> {
                &&& final(db).words is Some
                &&& word_view(final(db).words_tab(), id) == Some((word@, def@, furigana@))
                &&& forall|id2: u64| id2 != id ==> word_view(final(db).words_tab(), id2)
                    == word_view(old(db).words_tab(), id2)
                &&& final(db).words_tab().len() == old(db).words_tab().len() + (if word_view(
                    old(db).words_tab(),
                    id,
                ) is Some {
                    0int
                } else {
                    1int
                })
            },
    {
        if db.words.is_none() {
            return Err(CliError::Store);
        }
        let ghost t0 = db.words_tab();
        let at = find_word_index(db.words.as_ref().unwrap(), id);
        let mut tab = match db.words.take() {
            Some(v) => v,
            None => {
                assert(false);
                Vec::new()
            },
        };
        let rec = WordRecord {
            id,
            word: word.clone(),
            def: def.clone(),
            furigana: furigana.clone(),
        };
        match at {
            Some(fi) => {
                proof {
                    lemma_lookup_at(t0, word_key(), fi as int);
                    lemma_lookup_update(t0, word_key(), fi as int, rec, id);
                    lemma_unique_update(t0, word_key(), fi as int, rec);
                }
                tab[fi] = rec;
                proof {
                    assert forall|id2: u64| id2 != id implies word_view(tab@, id2) == word_view(
                        t0,
                        id2,
                    ) by {
                        lemma_lookup_update(t0, word_key(), fi as int, rec, id2);
                    }
                }
            },
            None => {
                proof {
                    lemma_lookup_none(t0, word_key(), id);
                    lemma_lookup_push(t0, word_key(), rec, id);
                    lemma_unique_push(t0, word_key(), rec);
                }
                tab.push(rec);
                proof {
                    assert forall|id2: u64| id2 != id implies word_view(tab@, id2) == word_view(
                        t0,
                        id2,
                    ) by {
                        lemma_lookup_push(t0, word_key(), rec, id2);
                    }
                }
            },
        }
        db.words = Some(tab);
        Ok(())
    }

    /// All word records whose word text contains the given character, in
    /// table order.  Fails with a store-layer error exactly when the word
    /// table does not exist.
    pub fn find_words(&self, db: &Database, kanji: char) -> (r: Result<Vec<Word>, CliError>)
        ensures
            db.words is None ==> r == Err::<Vec<Word>, CliError>(CliError::Store),
            db.words is Some ==> r is Ok,
            r matches Ok(v) ==> db.words is Some && v@ == find_words_spec(db.words_tab(), kanji),
    {
        let tab = match db.words.as_ref() {
            Some(v) => v,
            None => {
                return Err(CliError::Store);
            },
        };
        let n = tab.len();
        let mut out: Vec<Word> = Vec::new();
        let mut i: usize = 0;
        proof {
            assert(tab@.skip(0) =~= tab@);
            assert(out@ + find_words_spec(tab@, kanji) =~= find_words_spec(tab@, kanji));
        }
        while i < n
            invariant
                n == tab@.len(),
                i <= n,
                out@ + find_words_spec(tab@.skip(i as int), kanji) =~= find_words_spec(
                    tab@,
                    kanji,
                ),
            decreases n - i,
        {
            proof {
                assert(tab@.skip(i as int).drop_first() =~= tab@.skip(i as int + 1));
                assert(tab@.skip(i as int)[0] == tab@[i as int]);
            }
            if string_contains_char(&tab[i].word, kanji) {
                let w = Word {
                    word: tab[i].word.clone(),
                    def: tab[i].def.clone(),
                    furigana: tab[i].furigana.clone(),
                };
                assert(w == (Word {
                    word: tab@[i as int].word,
                    def: tab@[i as int].def,
                    furigana: tab@[i as int].furigana,
                }));
                out.push(w);
                proof {
                    assert(out@ =~= out@.drop_last().push(Word {
                        word: tab@[i as int].word,
                        def: tab@[i as int].def,
                        furigana: tab@[i as int].furigana,
                    }));
                    assert(out@ + find_words_spec(tab@.skip(i as int + 1), kanji)
                        =~= out@.drop_last() + (seq![
                        Word {
                            word: tab@[i as int].word,
                            def: tab@[i as int].def,
                            furigana: tab@[i as int].furigana,
                        },
                    ] + find_words_spec(tab@.skip(i as int + 1), kanji)));
                }
            }
            i = i + 1;
        }
        proof {
            assert(tab@.skip(n as int) =~= Seq::<WordRecord>::empty());
            assert(out@ + find_words_spec(tab@.skip(n as int), kanji) =~= out@);
        }
        Ok(out)
    }
}

/// Index of the row for `id` in the word table, if any.
fn find_word_index(tab: &Vec<WordRecord>, id: u64) -> (r: Option<usize>)
    ensures
        r is None ==> absent(tab@, word_key(), id),
        r matches Some(i) ==> i < tab@.len() && word_key()(tab@[i as int]) == id,
{
    let n = tab.len();
    let mut i: usize = 0;
    let mut found: Option<usize> = None;
    while i < n
        invariant_except_break
            found is None,
            i <= n,
            forall|p: int| 0 <= p < i ==> word_key()(#[trigger] tab@[p]) != id,
        invariant
            n == tab@.len(),
        ensures
            found is None ==> forall|p: int| 0 <= p < n ==> word_key()(#[trigger] tab@[p]) != id,
            found matches Some(fi) ==> fi < n && word_key()(tab@[fi as int]) == id,
        decreases n - i,
    {
        if tab[i].id == id {
            found = Some(i);
            break;
        }
        i = i + 1;
    }
    found
}

/// Whether the character occurs in the string.
pub fn string_contains_char(s: &String, k: char) -> (b: bool)
    ensures
        b == contains_char(s@, k),
{
    let st = s.as_str();
    let n = st.unicode_len();
    let mut i: usize = 0;
    while i < n
        invariant
            n == st@.len(),
            st@ == s@,
            i <= n,
            forall|p: int| 0 <= p < i ==> s@[p] != k,
        decreases n - i,
    {
        if st.get_char(i) == k {
            assert(s@[i as int] == k);
            return true;
        }
        i = i + 1;
    }
    false
}

} // verus!
