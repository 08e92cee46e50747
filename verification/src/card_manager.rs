//! The SRS card manager: lifecycle of per-kanji scheduling records.
//!
//! The manager owns the monotonic surrogate-identifier counter and is the
//! only writer of the SRS and review-log tables.  It never decides a state
//! transition itself: it persists the state the outside scheduler returns.

use vstd::prelude::*;
use crate::db::{
    ensure_card_db, log_view, srs_view, srs_key, revlog_key, srs_tab_wf, Database, ReviewLogEntry,
    SrsRow,
};
use crate::srs::{ReviewLog, SrsCard, State, KanjiSrs};
use crate::table::{
    absent, lemma_lookup_at, lemma_lookup_none, lemma_lookup_push,
    lemma_lookup_update, lemma_unique_push, lemma_unique_update,
};
use crate::CliError;

verus! {

/// The card a row stores: the scheduling state without its embedded log
/// (the review-log table holds the log).
pub open spec fn stored_card(c: SrsCard) -> SrsCard {
    SrsCard { log: None, ..c }
}

/// A row joined with the last review recorded for its kanji.
pub open spec fn joined(row: SrsRow, rl: Seq<ReviewLogEntry>) -> KanjiSrs {
    KanjiSrs { kanji: row.kanji, card: SrsCard { log: log_view(rl, row.kanji), ..row.card } }
}

/// The first `limit` rows in the `New` state, in table (= identifier)
/// order, each joined with its review log.
pub open spec fn new_cards_spec(t: Seq<SrsRow>, rl: Seq<ReviewLogEntry>, limit: nat) -> Seq<
    KanjiSrs,
>
    decreases t.len(),
{
    if t.len() == 0 || limit == 0 {
        Seq::empty()
    } else if t[0].card.state is New {
        seq![joined(t[0], rl)] + new_cards_spec(t.drop_first(), rl, (limit - 1) as nat)
    } else {
        new_cards_spec(t.drop_first(), rl, limit)
    }
}

/// What `new_cards` yields is never longer than the limit and never holds a
/// record outside the `New` state.
pub proof fn lemma_new_cards_spec_props(t: Seq<SrsRow>, rl: Seq<ReviewLogEntry>, limit: nat)
    ensures
        new_cards_spec(t, rl, limit).len() <= limit,
        forall|i: int| 0 <= i < new_cards_spec(t, rl, limit).len() ==> (#[trigger] new_cards_spec(
            t,
            rl,
            limit,
        )[i]).card.state is New,
    decreases t.len(),
{
    if t.len() == 0 || limit == 0 {
    } else if t[0].card.state is New {
        lemma_new_cards_spec_props(t.drop_first(), rl, (limit - 1) as nat);
    } else {
        lemma_new_cards_spec_props(t.drop_first(), rl, limit);
    }
}

/// Owns identifier assignment for new SRS rows.
pub struct CardManager {
    /// The next surrogate identifier to hand out; process-local state,
    /// strictly above every identifier already stored.
    pub next_id: u32,
}

impl CardManager {
    /// The counter sits strictly above every stored identifier.
    pub open spec fn inv(self, db: Database) -> bool {
        &&& db.srs is Some
        &&& forall|i: int| 0 <= i < db.srs_tab().len() ==> (#[trigger] db.srs_tab()[i].id)
            < self.next_id
    }

    /// Builds a manager over the store: creates the card tables if needed
    /// and seeds the counter from the greatest stored identifier plus one
    /// (one, if the table is empty).  Fails with a store-layer error exactly
    /// when that seed does not fit the counter.
    pub fn new(db: &mut Database) -> (r: Result<CardManager, CliError>)
        requires
            old(db).wf(),
        ensures
            final(db).wf(),
            final(db).srs is Some,
            final(db).revlog is Some,
            old(db).srs is Some ==> final(db).srs == old(db).srs,
            old(db).srs is None ==> final(db).srs_tab() =~= Seq::<SrsRow>::empty(),
            old(db).revlog is Some ==> final(db).revlog == old(db).revlog,
            old(db).revlog is None ==> final(db).revlog_tab() =~= Seq::<ReviewLogEntry>::empty(),
            final(db).kanji == old(db).kanji,
            final(db).words == old(db).words,
            r is Err <==> final(db).srs_tab().len() > 0 && final(db).srs_tab().last().id
                == u32::MAX,
            r is Err ==> r == Err::<CardManager, CliError>(CliError::Store),
            r matches Ok(m) ==> {
                &&& m.inv(*final(db))
                &&& m.next_id == (if final(db).srs_tab().len() == 0 {
                    1u32
                } else {
                    (final(db).srs_tab().last().id + 1) as u32
                })
            },
    {
        ensure_card_db(db);
        let tab = db.srs.as_ref().unwrap();
        let n = tab.len();
        if n == 0 {
            Ok(CardManager { next_id: 1 })
        } else {
            let last = tab[n - 1];
            if last.id == u32::MAX {
                Err(CliError::Store)
            } else {
                proof {
                    assert(srs_tab_wf(db.srs_tab()));
                    assert forall|i: int| 0 <= i < db.srs_tab().len() implies (
                    #[trigger] db.srs_tab()[i].id) < last.id + 1 by {
                        if i < n - 1 {
                            assert(db.srs_tab()[i].id < db.srs_tab()[n - 1].id);
                        }
                    }
                }
                Ok(CardManager { next_id: last.id + 1 })
            }
        }
    }
    /// Inserts a new SRS record for `c.kanji` with the next identifier if
    /// and only if no record exists for that kanji; an existing record is
    /// left untouched.  A supplied review log is upserted keyed by the
    /// kanji, overwriting any prior log.  Fails with a store-layer error
    /// exactly when the log table is missing while a log is supplied, or
    /// when an insertion is due and the identifier space is exhausted; a
    /// failure changes nothing.
    pub fn create_card(&mut self, db: &mut Database, c: KanjiSrs) -> (r: Result<(), CliError>)
        requires
            old(db).wf(),
            old(self).inv(*old(db)),
        ensures
            final(db).wf(),
            final(self).inv(*final(db)),
            final(db).kanji == old(db).kanji,
            final(db).words == old(db).words,
            r is Err <==> (c.card.log is Some && old(db).revlog is None) || (srs_view(
                old(db).srs_tab(),
                c.kanji,
            ) is None && old(self).next_id == u32::MAX),
            r is Err ==> r == Err::<(), CliError>(CliError::Store) && *final(db) == *old(db)
                && *final(self) == *old(self),
            r is Ok ==> {
                &&& srs_view(old(db).srs_tab(), c.kanji) matches Some(row) ==> final(db).srs == old(
                    db,
                ).srs && final(self).next_id == old(self).next_id
                &&& srs_view(old(db).srs_tab(), c.kanji) is None ==> final(db).srs_tab() =~= old(
                    db,
                ).srs_tab().push(
                    SrsRow { kanji: c.kanji, id: old(self).next_id, card: stored_card(c.card) },
                ) && final(self).next_id == old(self).next_id + 1
                &&& c.card.log is None ==> final(db).revlog == old(db).revlog
                &&& c.card.log matches Some(l) ==> {
                    &&& final(db).revlog is Some
                    &&& log_view(final(db).revlog_tab(), c.kanji) == Some(l)
                    &&& forall|k2: char| k2 != c.kanji ==> log_view(final(db).revlog_tab(), k2)
                        == log_view(old(db).revlog_tab(), k2)
                    &&& final(db).revlog_tab().len() == old(db).revlog_tab().len() + (
                    if log_view(old(db).revlog_tab(), c.kanji) is Some {
                        0int
                    } else {
                        1int
                    })
                }
            },
    {
        let has_log = c.card.log.is_some();
        if has_log && db.revlog.is_none() {
            return Err(CliError::Store);
        }
        let ghost srs0 = db.srs_tab();
        let found = find_srs_index(db.srs.as_ref().unwrap(), c.kanji);
        proof {
            match found {
                Some(fi) => {
                    lemma_lookup_at(srs0, srs_key(), fi as int);
                },
                None => {
                    lemma_lookup_none(srs0, srs_key(), c.kanji);
                },
            }
        }
        if found.is_none() {
            if self.next_id == u32::MAX {
                return Err(CliError::Store);
            }
            let mut tab = match db.srs.take() {
                Some(v) => v,
                None => {
                    assert(false);
                    Vec::new()
                },
            };
            let row = SrsRow { kanji: c.kanji, id: self.next_id, card: strip_log(c.card) };
            proof {
                lemma_unique_push(tab@, srs_key(), row);
                assert forall|p: int, q: int| 0 <= p < q < tab@.push(row).len() implies tab@.push(
                    row,
                )[p].id < tab@.push(row)[q].id by {
                    if q < tab@.len() {
                        assert(tab@.push(row)[p] == tab@[p] && tab@.push(row)[q] == tab@[q]);
                    } else {
                        assert(tab@.push(row)[q] == row && tab@.push(row)[p] == tab@[p]);
                    }
                }
            }
            tab.push(row);
            db.srs = Some(tab);
            self.next_id = self.next_id + 1;
        }
        if has_log {
            let l = match c.card.log {
                Some(l) => l,
                None => {
                    assert(false);
                    return Err(CliError::Store);
                },
            };
            let entry = ReviewLogEntry { kanji: c.kanji, log: l };
            let ghost rl0 = db.revlog_tab();
            let at = find_revlog_index(db.revlog.as_ref().unwrap(), c.kanji);
            let mut rl = match db.revlog.take() {
                Some(v) => v,
                None => {
                    assert(false);
                    Vec::new()
                },
            };
            match at {
                Some(fi) => {
                    proof {
                        lemma_lookup_at(rl0, revlog_key(), fi as int);
                        lemma_lookup_update(rl0, revlog_key(), fi as int, entry, c.kanji);
                        lemma_unique_update(rl0, revlog_key(), fi as int, entry);
                    }
                    rl[fi] = entry;
                    proof {
                        assert forall|k2: char| k2 != c.kanji implies log_view(rl@, k2) == log_view(
                            rl0,
                            k2,
                        ) by {
                            lemma_lookup_update(rl0, revlog_key(), fi as int, entry, k2);
                        }
                    }
                },
                None => {
                    proof {
                        lemma_lookup_none(rl0, revlog_key(), c.kanji);
                        lemma_lookup_push(rl0, revlog_key(), entry, c.kanji);
                        lemma_unique_push(rl0, revlog_key(), entry);
                    }
                    rl.push(entry);
                    proof {
                        assert forall|k2: char| k2 != c.kanji implies log_view(rl@, k2) == log_view(
                            rl0,
                            k2,
                        ) by {
                            lemma_lookup_push(rl0, revlog_key(), entry, k2);
                        }
                    }
                },
            }
            db.revlog = Some(rl);
        }
        Ok(())
    }
}

impl CardManager {
    /// The most recent review recorded for `kanji`, or `None` if none is.
    /// Fails with a store-layer error exactly when the log table does not
    /// exist.
    pub fn revlog(&self, db: &Database, kanji: char) -> (r: Result<Option<ReviewLog>, CliError>)
        requires
            db.wf(),
        ensures
            db.revlog is None ==> r == Err::<Option<ReviewLog>, CliError>(CliError::Store),
            db.revlog is Some ==> r == Ok::<Option<ReviewLog>, CliError>(
                log_view(db.revlog_tab(), kanji),
            ),
    {
        let tab = match db.revlog.as_ref() {
            Some(v) => v,
            None => {
                return Err(CliError::Store);
            },
        };
        match find_revlog_index(tab, kanji) {
            Some(i) => {
                proof {
                    lemma_lookup_at(tab@, revlog_key(), i as int);
                }
                Ok(Some(tab[i].log))
            },
            None => {
                proof {
                    lemma_lookup_none(tab@, revlog_key(), kanji);
                }
                Ok(None)
            },
        }
    }

    /// Up to `limit` records in the `New` state — the unseen-kanji queue —
    /// in ascending identifier order, each joined with its review log.
    /// Fails with a store-layer error exactly when a card table is missing.
    pub fn new_cards(&self, db: &Database, limit: u8) -> (r: Result<Vec<KanjiSrs>, CliError>)
        requires
            db.wf(),
        ensures
            (db.srs is None || db.revlog is None) ==> r == Err::<Vec<KanjiSrs>, CliError>(
                CliError::Store,
            ),
            (db.srs is Some && db.revlog is Some) ==> r is Ok,
            r matches Ok(v) ==> {
                &&& v@ == new_cards_spec(db.srs_tab(), db.revlog_tab(), limit as nat)
                &&& v@.len() <= limit
                &&& forall|i: int| 0 <= i < v@.len() ==> (#[trigger] v@[i]).card.state is New
            },
    {
        if db.srs.is_none() || db.revlog.is_none() {
            return Err(CliError::Store);
        }
        let tab = db.srs.as_ref().unwrap();
        let ghost rl = db.revlog_tab();
        let n = tab.len();
        let lim: usize = limit as usize;
        let mut out: Vec<KanjiSrs> = Vec::new();
        let mut i: usize = 0;
        proof {
            assert(tab@.skip(0) =~= tab@);
            assert(out@ + new_cards_spec(tab@, rl, limit as nat) =~= new_cards_spec(
                tab@,
                rl,
                limit as nat,
            ));
        }
        while i < n && out.len() < lim
            invariant
                n == tab@.len(),
                i <= n,
                lim == limit,
                out@.len() <= lim,
                db.wf(),
                db.srs is Some && db.revlog is Some,
                tab@ == db.srs_tab(),
                rl == db.revlog_tab(),
                out@ + new_cards_spec(tab@.skip(i as int), rl, (limit - out@.len()) as nat)
                    =~= new_cards_spec(tab@, rl, limit as nat),
            decreases n - i,
        {
            proof {
                assert(tab@.skip(i as int).drop_first() =~= tab@.skip(i as int + 1));
                assert(tab@.skip(i as int)[0] == tab@[i as int]);
            }
            let row = tab[i];
            if matches!(row.card.state, State::New) {
                let log = match self.revlog(db, row.kanji) {
                    Ok(l) => l,
                    Err(_) => {
                        assert(false);
                        None
                    },
                };
                let item = KanjiSrs { kanji: row.kanji, card: with_log(row.card, log) };
                assert(item == joined(tab@[i as int], rl));
                out.push(item);
                proof {
                    assert(out@ =~= out@.drop_last().push(joined(tab@[i as int], rl)));
                    assert(out@ + new_cards_spec(tab@.skip(i as int + 1), rl, (limit
                        - out@.len()) as nat) =~= out@.drop_last() + (seq![
                        joined(tab@[i as int], rl),
                    ] + new_cards_spec(tab@.skip(i as int + 1), rl, (limit - out@.len()) as nat)));
                }
            }
            i = i + 1;
        }
        proof {
            if out@.len() == limit {
                assert(new_cards_spec(tab@.skip(i as int), rl, 0) =~= Seq::<KanjiSrs>::empty());
            } else {
                assert(i == n);
                assert(tab@.skip(n as int) =~= Seq::<SrsRow>::empty());
                assert(new_cards_spec(tab@.skip(n as int), rl, (limit - out@.len()) as nat)
                    =~= Seq::<KanjiSrs>::empty());
            }
            assert(out@ + Seq::<KanjiSrs>::empty() =~= out@);
            lemma_new_cards_spec_props(tab@, rl, limit as nat);
        }
        Ok(out)
    }
}

/// The unseen-card queue a review session works through, with the cursor
/// operations the review screen needs.
pub struct CardCollection {
    pub cards: Vec<KanjiSrs>,
}

impl CardCollection {
    /// Wraps a queue of records.
    pub fn new(cards: Vec<KanjiSrs>) -> (c: CardCollection)
        ensures
            c.cards == cards,
    {
        CardCollection { cards }
    }

    /// The record at `index`.
    pub fn with_index(&self, index: usize) -> (r: &KanjiSrs)
        requires
            index < self.cards@.len(),
        ensures
            *r == self.cards@[index as int],
    {
        &self.cards[index]
    }

    /// Persists the scheduling state the outside scheduler returned for the
    /// record at `index`; the kanji itself and every other record are
    /// untouched.  The collection never decides a transition itself.
    pub fn review(&mut self, index: usize, scheduled: SrsCard)
        requires
            index < old(self).cards@.len(),
        ensures
            final(self).cards@ == old(self).cards@.update(
                index as int,
                KanjiSrs { kanji: old(self).cards@[index as int].kanji, card: scheduled },
            ),
    {
        let kanji = self.cards[index].kanji;
        self.cards[index] = KanjiSrs { kanji, card: scheduled };
    }
}

/// A stored card with the joined review log put back in.
fn with_log(c: SrsCard, l: Option<ReviewLog>) -> (r: SrsCard)
    ensures
        r == (SrsCard { log: l, ..c }),
{
    SrsCard {
        due: c.due,
        stability: c.stability,
        difficulty: c.difficulty,
        elapsed_days: c.elapsed_days,
        scheduled_days: c.scheduled_days,
        lapses: c.lapses,
        reps: c.reps,
        state: c.state,
        last_review: c.last_review,
        previous_state: c.previous_state,
        log: l,
    }
}

/// A card as the SRS table stores it: the embedded log column is not
/// persisted there.
fn strip_log(c: SrsCard) -> (r: SrsCard)
    ensures
        r == stored_card(c),
{
    SrsCard {
        due: c.due,
        stability: c.stability,
        difficulty: c.difficulty,
        elapsed_days: c.elapsed_days,
        scheduled_days: c.scheduled_days,
        lapses: c.lapses,
        reps: c.reps,
        state: c.state,
        last_review: c.last_review,
        previous_state: c.previous_state,
        log: None,
    }
}

/// Index of the row for `k` in the SRS table, if any.
fn find_srs_index(tab: &Vec<SrsRow>, k: char) -> (r: Option<usize>)
    ensures
        r is None ==> absent(tab@, srs_key(), k),
        r matches Some(i) ==> i < tab@.len() && srs_key()(tab@[i as int]) == k,
{
    let n = tab.len();
    let mut i: usize = 0;
    let mut found: Option<usize> = None;
    while i < n
        invariant_except_break
            found is None,
            i <= n,
            forall|p: int| 0 <= p < i ==> srs_key()(#[trigger] tab@[p]) != k,
        invariant
            n == tab@.len(),
        ensures
            found is None ==> forall|p: int| 0 <= p < n ==> srs_key()(#[trigger] tab@[p]) != k,
            found matches Some(fi) ==> fi < n && srs_key()(tab@[fi as int]) == k,
        decreases n - i,
    {
        if tab[i].kanji == k {
            found = Some(i);
            break;
        }
        i = i + 1;
    }
    found
}

/// Index of the row for `k` in the review-log table, if any.
fn find_revlog_index(tab: &Vec<ReviewLogEntry>, k: char) -> (r: Option<usize>)
    ensures
        r is None ==> absent(tab@, revlog_key(), k),
        r matches Some(i) ==> i < tab@.len() && revlog_key()(tab@[i as int]) == k,
{
    let n = tab.len();
    let mut i: usize = 0;
    let mut found: Option<usize> = None;
    while i < n
        invariant_except_break
            found is None,
            i <= n,
            forall|p: int| 0 <= p < i ==> revlog_key()(#[trigger] tab@[p]) != k,
        invariant
            n == tab@.len(),
        ensures
            found is None ==> forall|p: int| 0 <= p < n ==> revlog_key()(#[trigger] tab@[p]) != k,
            found matches Some(fi) ==> fi < n && revlog_key()(tab@[fi as int]) == k,
        decreases n - i,
    {
        if tab[i].kanji == k {
            found = Some(i);
            break;
        }
        i = i + 1;
    }
    found
}

} // verus!
