//! In-memory image of the local data store.
//!
//! The store owns four entity families: kanji knowledge entries, per-kanji
//! SRS rows, per-kanji review-log rows and word records.  A table that has
//! not been created yet is `None`; reading it is a store-layer failure,
//! mirroring a statement against a missing relation.  The file that backs
//! the store is read and written outside the library, which only ever sees
//! plain rows.

use vstd::prelude::*;
use crate::kanji::{char_to_string, is_kanji, KanjiEntry};
use crate::srs::{ReviewLog, SrsCard, KanjiSrs};
use crate::table::{
    absent, lookup, unique_keys, lemma_lookup_at, lemma_lookup_none, lemma_lookup_push,
    lemma_lookup_update, lemma_unique_push, lemma_unique_update,
};
use crate::CliError;

verus! {

/// One row of the SRS table: the kanji (primary key), its surrogate
/// identifier and the stored scheduling state.
#[derive(Debug, Clone, Copy, PartialEq, Eq, Structural)]
pub struct SrsRow {
    pub kanji: char,
    pub id: u32,
    pub card: SrsCard,
}

/// One row of the review-log table: the last review recorded for a kanji.
#[derive(Debug, Clone, Copy, PartialEq, Eq, Structural)]
pub struct ReviewLogEntry {
    pub kanji: char,
    pub log: ReviewLog,
}

/// One row of the word table, keyed by the source card's identifier.
#[derive(Debug, Clone, PartialEq, Eq)]
pub struct WordRecord {
    pub id: u64,
    pub word: String,
    pub def: String,
    pub furigana: String,
}

/// Key projection of the kanji knowledge table.
pub open spec fn kanji_key() -> spec_fn(KanjiEntry) -> Seq<char> {
    |e: KanjiEntry| e.kanji@
}

/// Key projection of the SRS table.
pub open spec fn srs_key() -> spec_fn(SrsRow) -> char {
    |r: SrsRow| r.kanji
}

/// Key projection of the review-log table.
pub open spec fn revlog_key() -> spec_fn(ReviewLogEntry) -> char {
    |r: ReviewLogEntry| r.kanji
}

/// Key projection of the word table.
pub open spec fn word_key() -> spec_fn(WordRecord) -> u64 {
    |r: WordRecord| r.id
}

/// The knowledge level stored for kanji `k`, if any.
pub open spec fn level_view(t: Seq<KanjiEntry>, k: char) -> Option<u8> {
    match lookup(t, kanji_key(), seq![k]) {
        Some(e) => Some(e.level),
        None => None,
    }
}

/// The SRS row stored for kanji `k`, if any.
pub open spec fn srs_view(t: Seq<SrsRow>, k: char) -> Option<SrsRow> {
    lookup(t, srs_key(), k)
}

/// The last review stored for kanji `k`, if any.
pub open spec fn log_view(t: Seq<ReviewLogEntry>, k: char) -> Option<ReviewLog> {
    match lookup(t, revlog_key(), k) {
        Some(e) => Some(e.log),
        None => None,
    }
}

/// The word-record fields stored for source card `id`, if any.
pub open spec fn word_view(t: Seq<WordRecord>, id: u64) -> Option<(Seq<char>, Seq<char>, Seq<char>)> {
    match lookup(t, word_key(), id) {
        Some(r) => Some((r.word@, r.def@, r.furigana@)),
        None => None,
    }
}

/// Surrogate identifiers grow strictly along the table: rows stand in
/// insertion order and no identifier repeats.
pub open spec fn ids_increasing(t: Seq<SrsRow>) -> bool {
    forall|i: int, j: int| 0 <= i < j < t.len() ==> t[i].id < t[j].id
}

/// Well-formedness of the kanji knowledge table: every key is a single
/// character and keys are unique.
pub open spec fn kanji_tab_wf(t: Seq<KanjiEntry>) -> bool {
    &&& forall|i: int| 0 <= i < t.len() ==> (#[trigger] t[i].kanji@).len() == 1
    &&& unique_keys(t, kanji_key())
}

/// Well-formedness of the SRS table: one row per kanji, identifiers
/// strictly increasing in table order.
pub open spec fn srs_tab_wf(t: Seq<SrsRow>) -> bool {
    &&& unique_keys(t, srs_key())
    &&& ids_increasing(t)
}

/// The in-memory store.  `None` stands for a table that has not been
/// created yet.
pub struct Database {
    pub kanji: Option<Vec<KanjiEntry>>,
    pub srs: Option<Vec<SrsRow>>,
    pub revlog: Option<Vec<ReviewLogEntry>>,
    pub words: Option<Vec<WordRecord>>,
}

impl Database {
    /// Content of the kanji knowledge table (meaningful when it exists).
    pub open spec fn kanji_tab(self) -> Seq<KanjiEntry> {
        self.kanji.unwrap()@
    }

    /// Content of the SRS table (meaningful when it exists).
    pub open spec fn srs_tab(self) -> Seq<SrsRow> {
        self.srs.unwrap()@
    }

    /// Content of the review-log table (meaningful when it exists).
    pub open spec fn revlog_tab(self) -> Seq<ReviewLogEntry> {
        self.revlog.unwrap()@
    }

    /// Content of the word table (meaningful when it exists).
    pub open spec fn words_tab(self) -> Seq<WordRecord> {
        self.words.unwrap()@
    }

    /// Every table that exists satisfies its uniqueness constraints.
    pub open spec fn wf(self) -> bool {
        &&& self.kanji is Some ==> kanji_tab_wf(self.kanji_tab())
        &&& self.srs is Some ==> srs_tab_wf(self.srs_tab())
        &&& self.revlog is Some ==> unique_keys(self.revlog_tab(), revlog_key())
        &&& self.words is Some ==> unique_keys(self.words_tab(), word_key())
    }

    /// A store with no tables yet, as a fresh database file presents itself.
    pub fn new() -> (d: Database)
        ensures
            d.kanji is None,
            d.srs is None,
            d.revlog is None,
            d.words is None,
            d.wf(),
    {
        Database { kanji: None, srs: None, revlog: None, words: None }
    }

    /// The kanji knowledge rows, if the table exists.
    pub fn kanji_rows(&self) -> (r: Option<&Vec<KanjiEntry>>)
        ensures
            r is Some <==> self.kanji is Some,
            r matches Some(v) ==> v@ == self.kanji_tab(),
    {
        self.kanji.as_ref()
    }

    /// The SRS rows, if the table exists.
    pub fn srs_rows(&self) -> (r: Option<&Vec<SrsRow>>)
        ensures
            r is Some <==> self.srs is Some,
            r matches Some(v) ==> v@ == self.srs_tab(),
    {
        self.srs.as_ref()
    }

    /// The review-log rows, if the table exists.
    pub fn revlog_rows(&self) -> (r: Option<&Vec<ReviewLogEntry>>)
        ensures
            r is Some <==> self.revlog is Some,
            r matches Some(v) ==> v@ == self.revlog_tab(),
    {
        self.revlog.as_ref()
    }

    /// The word rows, if the table exists.
    pub fn word_rows(&self) -> (r: Option<&Vec<WordRecord>>)
        ensures
            r is Some <==> self.words is Some,
            r matches Some(v) ==> v@ == self.words_tab(),
    {
        self.words.as_ref()
    }
}

/// Creates the SRS and review-log tables if they do not exist yet;
/// existing rows are left untouched (idempotent schema creation).
pub fn ensure_card_db(db: &mut Database)
    ensures
        final(db).srs is Some,
        final(db).revlog is Some,
        old(db).srs is Some ==> final(db).srs == old(db).srs,
        old(db).srs is None ==> final(db).srs_tab() =~= Seq::<SrsRow>::empty(),
        old(db).revlog is Some ==> final(db).revlog == old(db).revlog,
        old(db).revlog is None ==> final(db).revlog_tab() =~= Seq::<ReviewLogEntry>::empty(),
        final(db).kanji == old(db).kanji,
        final(db).words == old(db).words,
        old(db).wf() ==> final(db).wf(),
{
    if db.srs.is_none() {
        db.srs = Some(Vec::new());
    }
    if db.revlog.is_none() {
        db.revlog = Some(Vec::new());
    }
}

/// Creates the word table if it does not exist yet; existing rows are left
/// untouched.
pub fn ensure_word_db(db: &mut Database)
    ensures
        final(db).words is Some,
        old(db).words is Some ==> final(db).words == old(db).words,
        old(db).words is None ==> final(db).words_tab() =~= Seq::<WordRecord>::empty(),
        final(db).kanji == old(db).kanji,
        final(db).srs == old(db).srs,
        final(db).revlog == old(db).revlog,
        old(db).wf() ==> final(db).wf(),
{
    if db.words.is_none() {
        db.words = Some(Vec::new());
    }
}

/// Empties the SRS and review-log tables (a full wipe of the scheduling
/// state); knowledge entries and word records stay.
pub fn wipe_srs_db(db: &mut Database) -> (r: Result<(), CliError>)
    ensures
        r is Ok,
        final(db).srs is Some && final(db).srs_tab() =~= Seq::<SrsRow>::empty(),
        final(db).revlog is Some && final(db).revlog_tab() =~= Seq::<ReviewLogEntry>::empty(),
        final(db).kanji == old(db).kanji,
        final(db).words == old(db).words,
        old(db).wf() ==> final(db).wf(),
{
    db.srs = Some(Vec::new());
    db.revlog = Some(Vec::new());
    Ok(())
}

/// All stored knowledge entries, in table order.  Fails with a store-layer
/// error exactly when the table does not exist.
pub fn get_all_kanji(db: &Database) -> (r: Result<Vec<KanjiEntry>, CliError>)
    ensures
        db.kanji is None ==> r == Err::<Vec<KanjiEntry>, CliError>(CliError::Store),
        db.kanji is Some ==> r is Ok,
        r matches Ok(v) ==> db.kanji is Some && v@ == db.kanji_tab(),
{
    let tab = match db.kanji.as_ref() {
        Some(v) => v,
        None => {
            return Err(CliError::Store);
        },
    };
    let mut out: Vec<KanjiEntry> = Vec::new();
    let n = tab.len();
    let mut i: usize = 0;
    while i < n
        invariant
            n == tab@.len(),
            i <= n,
            out@ =~= tab@.take(i as int),
        decreases n - i,
    {
        let e = KanjiEntry { kanji: tab[i].kanji.clone(), level: tab[i].level };
        assert(e == tab@[i as int]);
        out.push(e);
        assert(out@ =~= tab@.take(i as int + 1));
        i = i + 1;
    }
    assert(tab@.take(n as int) =~= tab@);
    Ok(out)
}

/// The number of stored knowledge entries.  Fails with a store-layer error
/// exactly when the table does not exist.
pub fn kanji_count(db: &Database) -> (r: Result<usize, CliError>)
    ensures
        db.kanji is None ==> r == Err::<usize, CliError>(CliError::Store),
        db.kanji is Some ==> r == Ok::<usize, CliError>(db.kanji_tab().len() as usize),
{
    match db.kanji.as_ref() {
        Some(v) => Ok(v.len()),
        None => Err(CliError::Store),
    }
}

/// The maximum of a stored level and a newly recommended one.
pub open spec fn level_max(stored: u8, lvl: u8) -> u8 {
    if lvl > stored {
        lvl
    } else {
        stored
    }
}

/// Upserts a knowledge entry for `kanji`, creating the table on first use.
/// Characters that are not kanji are ignored.  A stored level never
/// decreases: the new level is the maximum of the stored and given ones.
pub fn add_kanji(db: &mut Database, kanji: char, level: u8) -> (r: Result<(), CliError>)
    requires
        old(db).wf(),
    ensures
        r is Ok,
        final(db).wf(),
        final(db).srs == old(db).srs,
        final(db).revlog == old(db).revlog,
        final(db).words == old(db).words,
        final(db).kanji is Some,
        kanji_after(*old(db), *final(db), kanji, level),
        // a stored level never decreases
        forall|k2: char| #![all_triggers]
            (old(db).kanji is Some && level_view(old(db).kanji_tab(), k2) is Some) ==> (level_view(
                final(db).kanji_tab(),
                k2,
            ) is Some && level_view(final(db).kanji_tab(), k2).unwrap() >= level_view(
                old(db).kanji_tab(),
                k2,
            ).unwrap()),
{
    let mut tab: Vec<KanjiEntry> = match db.kanji.take() {
        Some(v) => v,
        None => Vec::new(),
    };
    let ghost t0 = tab@;
    if !is_kanji(kanji) {
        db.kanji = Some(tab);
        return Ok(());
    }
    // look the kanji up; the table holds at most one entry for it
    let n = tab.len();
    let mut i: usize = 0;
    let mut found: Option<usize> = None;
    while i < n
        invariant_except_break
            found is None,
            i <= n,
            forall|p: int| 0 <= p < i ==> (#[trigger] tab@[p].kanji@) != seq![kanji],
        invariant
            n == tab@.len(),
        ensures
            found is None ==> forall|p: int|
                0 <= p < n ==> (#[trigger] tab@[p].kanji@) != seq![kanji],
            found matches Some(fi) ==> fi < n && tab@[fi as int].kanji@ == seq![kanji],
        decreases n - i,
    {
        if eq_single_char(&tab[i].kanji, kanji) {
            found = Some(i);
            break;
        }
        i = i + 1;
    }
    match found {
        Some(fi) => {
            proof {
                lemma_lookup_at(t0, kanji_key(), fi as int);
            }
            if level > tab[fi].level {
                let kept = tab[fi].kanji.clone();
                let e = KanjiEntry { kanji: kept, level };
                proof {
                    lemma_lookup_update(t0, kanji_key(), fi as int, e, seq![kanji]);
                    lemma_unique_update(t0, kanji_key(), fi as int, e);
                }
                tab[fi] = e;
                proof {
                    assert forall|k2: char| k2 != kanji implies level_view(tab@, k2) == level_view(
                        t0,
                        k2,
                    ) by {
                        assert(seq![k2] != seq![kanji]) by {
                            assert(seq![k2][0] == k2 && seq![kanji][0] == kanji);
                        }
                        lemma_lookup_update(
                            t0,
                            kanji_key(),
                            fi as int,
                            KanjiEntry { kanji: tab@[fi as int].kanji, level },
                            seq![k2],
                        );
                    }
                }
            } else {
                proof {
                    assert(level_view(tab@, kanji) == Some(level_max(t0[fi as int].level, level)));
                }
            }
            db.kanji = Some(tab);
            Ok(())
        },
        None => {
            assert(absent(t0, kanji_key(), seq![kanji])) by {
                assert(forall|p: int| 0 <= p < t0.len() ==> (#[trigger] t0[p].kanji@)
                    != seq![kanji]);
            }
            let e = KanjiEntry { kanji: char_to_string(kanji), level };
            proof {
                lemma_lookup_none(t0, kanji_key(), seq![kanji]);
                lemma_lookup_push(t0, kanji_key(), e, seq![kanji]);
                lemma_unique_push(t0, kanji_key(), e);
            }
            tab.push(e);
            proof {
                assert forall|k2: char| k2 != kanji implies level_view(tab@, k2) == level_view(
                    t0,
                    k2,
                ) by {
                    assert(seq![k2] != seq![kanji]) by {
                        assert(seq![k2][0] == k2 && seq![kanji][0] == kanji);
                    }
                    lemma_lookup_push(t0, kanji_key(), e, seq![k2]);
                }
                assert(forall|p: int| 0 <= p < tab@.len() ==> (#[trigger] tab@[p].kanji@).len()
                    == 1);
            }
            db.kanji = Some(tab);
            Ok(())
        },
    }
}

/// How one `add_kanji` call relates the kanji table before and after: the
/// named character's level becomes the maximum of old and new, every other
/// character's entry is untouched, and the table is created on first use.
pub open spec fn kanji_after(pre: Database, post: Database, kanji: char, level: u8) -> bool {
    let t0: Seq<KanjiEntry> = if pre.kanji is Some {
        pre.kanji_tab()
    } else {
        Seq::empty()
    };
    let t1 = post.kanji_tab();
    &&& !is_kanji(kanji) ==> t1 =~= t0
    &&& is_kanji(kanji) ==> {
        &&& level_view(t1, kanji) == (match level_view(t0, kanji) {
            Some(stored) => Some(level_max(stored, level)),
            None => Some(level),
        })
        &&& forall|k2: char| k2 != kanji ==> level_view(t1, k2) == level_view(t0, k2)
        &&& t1.len() == t0.len() + (if level_view(t0, kanji) is Some {
            0int
        } else {
            1int
        })
    }
}

/// The cards whose due time lies before `now`, in table order, with the
/// stored scheduling state.
pub open spec fn due_cards_spec(t: Seq<SrsRow>, now: i64) -> Seq<KanjiSrs>
    decreases t.len(),
{
    if t.len() == 0 {
        Seq::empty()
    } else {
        let rest = due_cards_spec(t.drop_first(), now);
        if t[0].card.due < now {
            seq![KanjiSrs { kanji: t[0].kanji, card: t[0].card }] + rest
        } else {
            rest
        }
    }
}

/// All SRS records due before `now`.  Fails with a store-layer error exactly
/// when the SRS table does not exist.
pub fn due_cards(db: &Database, now: i64) -> (r: Result<Vec<KanjiSrs>, CliError>)
    ensures
        db.srs is None ==> r == Err::<Vec<KanjiSrs>, CliError>(CliError::Store),
        db.srs is Some ==> r is Ok,
        r matches Ok(v) ==> db.srs is Some && v@ == due_cards_spec(db.srs_tab(), now),
{
    let tab = match db.srs.as_ref() {
        Some(v) => v,
        None => {
            return Err(CliError::Store);
        },
    };
    let n = tab.len();
    let mut out: Vec<KanjiSrs> = Vec::new();
    let mut i: usize = 0;
    proof {
        assert(tab@.skip(0) =~= tab@);
        assert(out@ + due_cards_spec(tab@, now) =~= due_cards_spec(tab@, now));
    }
    while i < n
        invariant
            n == tab@.len(),
            i <= n,
            out@ + due_cards_spec(tab@.skip(i as int), now) =~= due_cards_spec(tab@, now),
        decreases n - i,
    {
        proof {
            assert(tab@.skip(i as int).drop_first() =~= tab@.skip(i as int + 1));
            assert(tab@.skip(i as int)[0] == tab@[i as int]);
        }
        let row = tab[i];
        if row.card.due < now {
            out.push(KanjiSrs { kanji: row.kanji, card: row.card });
            proof {
                assert(out@ =~= out@.drop_last().push(KanjiSrs {
                    kanji: tab@[i as int].kanji,
                    card: tab@[i as int].card,
                }));
                assert(out@ + due_cards_spec(tab@.skip(i as int + 1), now) =~= out@.drop_last() + (
                seq![KanjiSrs { kanji: tab@[i as int].kanji, card: tab@[i as int].card }]
                    + due_cards_spec(tab@.skip(i as int + 1), now)));
            }
        }
        i = i + 1;
    }
    proof {
        assert(tab@.skip(n as int) =~= Seq::<SrsRow>::empty());
        assert(out@ + due_cards_spec(tab@.skip(n as int), now) =~= out@);
    }
    Ok(out)
}

/// Checks the kanji knowledge rows loaded from the backing file: keys are
/// single characters and unique.
pub fn kanji_rows_ok(v: &Vec<KanjiEntry>) -> (b: bool)
    ensures
        b == kanji_tab_wf(v@),
{
    let n = v.len();
    let mut i: usize = 0;
    while i < n
        invariant
            n == v@.len(),
            i <= n,
            forall|p: int| 0 <= p < i ==> (#[trigger] v@[p].kanji@).len() == 1,
        decreases n - i,
    {
        if v[i].kanji.as_str().unicode_len() != 1 {
            return false;
        }
        i = i + 1;
    }
    i = 0;
    while i < n
        invariant
            n == v@.len(),
            i <= n,
            forall|p: int| 0 <= p < n ==> (#[trigger] v@[p].kanji@).len() == 1,
            forall|p: int, q: int| 0 <= p < q < n && p < i ==> kanji_key()(v@[p]) != kanji_key()(
                v@[q],
            ),
        decreases n - i,
    {
        let mut j: usize = i + 1;
        while j < n
            invariant
                n == v@.len(),
                i < j || (i + 1 == j && j <= n),
                i < n,
                j <= n,
                forall|q: int| i < q < j ==> kanji_key()(v@[i as int]) != kanji_key()(#[trigger] v@[q]),
            decreases n - j,
        {
            if v[i].kanji == v[j].kanji {
                assert(kanji_key()(v@[i as int]) == kanji_key()(v@[j as int]));
                return false;
            }
            j = j + 1;
        }
        i = i + 1;
    }
    true
}

/// Checks the SRS rows loaded from the backing file: identifiers strictly
/// increasing in row order, at most one row per kanji.
pub fn srs_rows_ok(v: &Vec<SrsRow>) -> (b: bool)
    ensures
        b == srs_tab_wf(v@),
{
    let n = v.len();
    let mut i: usize = 1;
    while i < n
        invariant
            n == v@.len(),
            1 <= i || n == 0,
            i <= n || n == 0,
            forall|p: int, q: int| 0 <= p < q < i ==> v@[p].id < v@[q].id,
        decreases n - i,
    {
        if v[i - 1].id >= v[i].id {
            return false;
        }
        assert forall|p: int| 0 <= p < i implies v@[p].id < v@[i as int].id by {
            if p < i - 1 {
                assert(v@[p].id < v@[i - 1].id);
            }
        }
        i = i + 1;
    }
    i = 0;
    while i < n
        invariant
            n == v@.len(),
            i <= n,
            ids_increasing(v@),
            forall|p: int, q: int| 0 <= p < q < n && p < i ==> srs_key()(v@[p]) != srs_key()(v@[q]),
        decreases n - i,
    {
        let mut j: usize = i + 1;
        while j < n
            invariant
                n == v@.len(),
                i < j,
                i < n,
                j <= n,
                forall|q: int| i < q < j ==> srs_key()(v@[i as int]) != srs_key()(#[trigger] v@[q]),
            decreases n - j,
        {
            if v[i].kanji == v[j].kanji {
                assert(srs_key()(v@[i as int]) == srs_key()(v@[j as int]));
                return false;
            }
            j = j + 1;
        }
        i = i + 1;
    }
    true
}

/// Checks the review-log rows loaded from the backing file: at most one row
/// per kanji.
pub fn revlog_rows_ok(v: &Vec<ReviewLogEntry>) -> (b: bool)
    ensures
        b == unique_keys(v@, revlog_key()),
{
    let n = v.len();
    let mut i: usize = 0;
    while i < n
        invariant
            n == v@.len(),
            i <= n,
            forall|p: int, q: int| 0 <= p < q < n && p < i ==> revlog_key()(v@[p]) != revlog_key()(
                v@[q],
            ),
        decreases n - i,
    {
        let mut j: usize = i + 1;
        while j < n
            invariant
                n == v@.len(),
                i < j,
                i < n,
                j <= n,
                forall|q: int| i < q < j ==> revlog_key()(v@[i as int]) != revlog_key()(
                    #[trigger] v@[q],
                ),
            decreases n - j,
        {
            if v[i].kanji == v[j].kanji {
                assert(revlog_key()(v@[i as int]) == revlog_key()(v@[j as int]));
                return false;
            }
            j = j + 1;
        }
        i = i + 1;
    }
    true
}

/// Checks the word rows loaded from the backing file: at most one row per
/// source-card identifier.
pub fn word_rows_ok(v: &Vec<WordRecord>) -> (b: bool)
    ensures
        b == unique_keys(v@, word_key()),
{
    let n = v.len();
    let mut i: usize = 0;
    while i < n
        invariant
            n == v@.len(),
            i <= n,
            forall|p: int, q: int| 0 <= p < q < n && p < i ==> word_key()(v@[p]) != word_key()(
                v@[q],
            ),
        decreases n - i,
    {
        let mut j: usize = i + 1;
        while j < n
            invariant
                n == v@.len(),
                i < j,
                i < n,
                j <= n,
                forall|q: int| i < q < j ==> word_key()(v@[i as int]) != word_key()(
                    #[trigger] v@[q],
                ),
            decreases n - j,
        {
            if v[i].id == v[j].id {
                assert(word_key()(v@[i as int]) == word_key()(v@[j as int]));
                return false;
            }
            j = j + 1;
        }
        i = i + 1;
    }
    true
}

impl Database {
    /// Rebuilds the store from rows read out of the backing file, after
    /// checking every constraint the store maintains.  A malformed load (a
    /// duplicate key, identifiers out of order, a key that is not a single
    /// character) is a store-layer failure and leaves nothing constructed.
    pub fn from_rows(
        kanji_rows: Vec<KanjiEntry>,
        srs_rows: Vec<SrsRow>,
        revlog_rows: Vec<ReviewLogEntry>,
        word_rows: Vec<WordRecord>,
    ) -> (r: Result<Database, CliError>)
        ensures
            r is Ok <==> kanji_tab_wf(kanji_rows@) && srs_tab_wf(srs_rows@) && unique_keys(
                revlog_rows@,
                revlog_key(),
            ) && unique_keys(word_rows@, word_key()),
            r matches Ok(d) ==> {
                &&& d.wf()
                &&& d.kanji is Some && d.kanji_tab() == kanji_rows@
                &&& d.srs is Some && d.srs_tab() == srs_rows@
                &&& d.revlog is Some && d.revlog_tab() == revlog_rows@
                &&& d.words is Some && d.words_tab() == word_rows@
            },
            r is Err ==> r == Err::<Database, CliError>(CliError::Store),
    {
        if !kanji_rows_ok(&kanji_rows) {
            return Err(CliError::Store);
        }
        if !srs_rows_ok(&srs_rows) {
            return Err(CliError::Store);
        }
        if !revlog_rows_ok(&revlog_rows) {
            return Err(CliError::Store);
        }
        if !word_rows_ok(&word_rows) {
            return Err(CliError::Store);
        }
        Ok(
            Database {
                kanji: Some(kanji_rows),
                srs: Some(srs_rows),
                revlog: Some(revlog_rows),
                words: Some(word_rows),
            },
        )
    }
}

/// Compares a stored single-character key with a character.
fn eq_single_char(s: &String, c: char) -> (r: bool)
    ensures
        r == (s@ == seq![c]),
{
    let n = s.as_str().unicode_len();
    if n != 1 {
        proof {
            assert(seq![c].len() == 1);
        }
        return false;
    }
    let c0 = s.as_str().get_char(0);
    proof {
        if c0 == c {
            assert(s@ =~= seq![c]);
        } else {
            assert(s@[0] != seq![c][0]);
        }
    }
    c0 == c
}

} // verus!
