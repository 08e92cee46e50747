//! The sync computation: folding a batch of fetched source cards into the
//! store.
//!
//! For every card whose mapped word, definition and reading fields are all
//! present, the word record is upserted, and every kanji occurring in the
//! word gets a knowledge entry (at the level its interval recommends, never
//! lowering a stored level) and a fresh SRS record if it has none.  A card
//! missing a required field is skipped and counted.

use vstd::prelude::*;
use vstd::string::StrSliceExecFns;
use crate::ankiconnect::{field_lookup, field_value, CardContent, Field};
use crate::card_manager::{stored_card, CardManager};
use crate::config::DeckConfig;
use crate::db::{
    add_kanji, level_max, level_view, srs_key, srs_view, word_view, Database, SrsRow,
};
use crate::table::lemma_lookup_push;
use crate::kanji::{is_kanji, recommended_level, recommended_level_spec};
use crate::srs::{fresh_card, KanjiSrs, SrsCard};
use crate::word_manager::{contains_char, WordManager};

verus! {

/// The mapped word field of a card.
pub open spec fn word_of(c: CardContent, m: DeckConfig) -> Option<Field> {
    field_lookup(c.fields@, m.word_field@)
}

/// The mapped definition field of a card.
pub open spec fn def_of(c: CardContent, m: DeckConfig) -> Option<Field> {
    field_lookup(c.fields@, m.def_field@)
}

/// The mapped reading field of a card.
pub open spec fn furigana_of(c: CardContent, m: DeckConfig) -> Option<Field> {
    field_lookup(c.fields@, m.furigana_field@)
}

/// A card is processed when all three mapped fields are present; otherwise
/// it is skipped.
pub open spec fn card_processed(c: CardContent, m: DeckConfig) -> bool {
    &&& word_of(c, m) is Some
    &&& def_of(c, m) is Some
    &&& furigana_of(c, m) is Some
}

/// How many cards of the batch are skipped for a missing field.
pub open spec fn skipped_count(cards: Seq<CardContent>, m: DeckConfig) -> nat
    decreases cards.len(),
{
    if cards.len() == 0 {
        0
    } else {
        skipped_count(cards.drop_last(), m) + (if card_processed(cards.last(), m) {
            0nat
        } else {
            1nat
        })
    }
}

/// Whether syncing this card touches kanji `k`: the card is processed and
/// `k` is a kanji occurring anywhere in its mapped word field.
pub open spec fn card_touches(c: CardContent, m: DeckConfig, k: char) -> bool {
    card_processed(c, m) && is_kanji(k) && contains_char(word_of(c, m).unwrap().value@, k)
}

/// Whether any card of the batch touches kanji `k`.
pub open spec fn touched(cards: Seq<CardContent>, m: DeckConfig, k: char) -> bool {
    exists|i: int| 0 <= i < cards.len() && card_touches(#[trigger] cards[i], m, k)
}

/// A stored level raised to at least `lvl` (set to it when absent).
pub open spec fn bump(stored: Option<u8>, lvl: u8) -> Option<u8> {
    match stored {
        Some(p) => Some(level_max(p, lvl)),
        None => Some(lvl),
    }
}

/// The knowledge level of `k` after the batch, given its level before.
pub open spec fn level_after(
    cards: Seq<CardContent>,
    m: DeckConfig,
    k: char,
    init: Option<u8>,
) -> Option<u8>
    decreases cards.len(),
{
    if cards.len() == 0 {
        init
    } else {
        let prev = level_after(cards.drop_last(), m, k, init);
        if card_touches(cards.last(), m, k) {
            bump(prev, recommended_level_spec(cards.last().interval))
        } else {
            prev
        }
    }
}

/// The word record of source card `id` after the batch, given its state
/// before: the last processed card with that identifier wins.
pub open spec fn word_after(
    cards: Seq<CardContent>,
    m: DeckConfig,
    id: u64,
    init: Option<(Seq<char>, Seq<char>, Seq<char>)>,
) -> Option<(Seq<char>, Seq<char>, Seq<char>)>
    decreases cards.len(),
{
    if cards.len() == 0 {
        init
    } else {
        let c = cards.last();
        if card_processed(c, m) && c.card_id == id {
            Some(
                (
                    word_of(c, m).unwrap().value@,
                    def_of(c, m).unwrap().value@,
                    furigana_of(c, m).unwrap().value@,
                ),
            )
        } else {
            word_after(cards.drop_last(), m, id, init)
        }
    }
}

/// The knowledge level stored for `k`, `None` when the table is missing or
/// holds no entry.
pub open spec fn levels(db: Database, k: char) -> Option<u8> {
    if db.kanji is Some {
        level_view(db.kanji_tab(), k)
    } else {
        None
    }
}

/// The length of the mapped word field, zero when absent.
pub open spec fn word_len(c: CardContent, m: DeckConfig) -> nat {
    match word_of(c, m) {
        Some(f) => f.value@.len(),
        None => 0,
    }
}

/// An upper bound on the identifiers a sync of the batch can consume: the
/// total length of the mapped word fields.
pub open spec fn total_word_chars(cards: Seq<CardContent>, m: DeckConfig) -> nat
    decreases cards.len(),
{
    if cards.len() == 0 {
        0
    } else {
        word_len(cards[0], m) + total_word_chars(cards.drop_first(), m)
    }
}

/// What a sync reports: how many cards were folded in and how many were
/// skipped for a missing required field.
#[derive(Debug, Clone, Copy, PartialEq, Eq, Structural)]
pub struct SyncOutcome {
    pub processed: usize,
    pub skipped: usize,
}

/// Whether the identifier counter has room for the whole batch; syncing
/// asks for this headroom up front.
pub fn sync_capacity_ok(manager: &CardManager, cards: &Vec<CardContent>, mapping: &DeckConfig) -> (b:
    bool)
    ensures
        b == (manager.next_id + total_word_chars(cards@, *mapping) <= u32::MAX),
{
    let n = cards.len();
    let mut sum: u64 = 0;
    let mut i: usize = 0;
    proof {
        assert(cards@.skip(0) =~= cards@);
    }
    while i < n
        invariant
            n == cards@.len(),
            i <= n,
            sum <= u32::MAX,
            sum + total_word_chars(cards@.skip(i as int), *mapping) == total_word_chars(
                cards@,
                *mapping,
            ),
        decreases n - i,
    {
        proof {
            assert(cards@.skip(i as int).drop_first() =~= cards@.skip(i as int + 1));
            assert(cards@.skip(i as int)[0] == cards@[i as int]);
        }
        let wl: usize = match field_value(&cards[i], &mapping.word_field) {
            Some(v) => v.as_str().unicode_len(),
            None => 0,
        };
        assert(wl == word_len(cards@[i as int], *mapping));
        if wl as u64 > u32::MAX as u64 {
            assert(total_word_chars(cards@, *mapping) > u32::MAX);
            return false;
        }
        if sum + (wl as u64) > u32::MAX as u64 {
            assert(total_word_chars(cards@, *mapping) > u32::MAX);
            return false;
        }
        sum = sum + (wl as u64);
        i = i + 1;
    }
    proof {
        assert(cards@.skip(n as int) =~= Seq::<CardContent>::empty());
    }
    manager.next_id as u64 + sum <= u32::MAX as u64
}

/// Whether `k` occurs among the first `j` characters of `w`.
pub open spec fn seen_in(w: Seq<char>, j: int, k: char) -> bool {
    exists|t: int| 0 <= t < j && w[t] == k
}

/// Whether the kanji `k` occurs among the first `j` characters of `w`.
pub open spec fn kanji_seen(w: Seq<char>, j: int, k: char) -> bool {
    is_kanji(k) && seen_in(w, j, k)
}

/// Extending the batch by one card touches exactly what the batch or the
/// card touches.
proof fn lemma_touched_step(cards: Seq<CardContent>, m: DeckConfig, i: int, k: char)
    requires
        0 <= i < cards.len(),
    ensures
        touched(cards.take(i + 1), m, k) == (touched(cards.take(i), m, k) || card_touches(
            cards[i],
            m,
            k,
        )),
{
    let a = cards.take(i + 1);
    let b = cards.take(i);
    if touched(a, m, k) {
        let p = choose|p: int| 0 <= p < a.len() && card_touches(a[p], m, k);
        if p == i {
            assert(a[p] == cards[i]);
        } else {
            assert(b[p] == a[p]);
            assert(touched(b, m, k));
        }
    }
    if touched(b, m, k) {
        let p = choose|p: int| 0 <= p < b.len() && card_touches(b[p], m, k);
        assert(a[p] == b[p]);
        assert(touched(a, m, k));
    }
    if card_touches(cards[i], m, k) {
        assert(a[i] == cards[i]);
        assert(touched(a, m, k));
    }
}

/// Folds a batch of fetched source cards into the store under one deck's
/// field mapping.  Per processed card: the word record is upserted by the
/// card's identifier, and every kanji occurring in the word has its
/// knowledge level raised to at least what the card's interval recommends
/// and gains a fresh SRS record in the `New` state if it has none (an
/// existing record is never touched).  Cards missing a mapped field are
/// skipped and counted; review logs are never written.
pub fn sync_cards(
    db: &mut Database,
    manager: &mut CardManager,
    words: &WordManager,
    mapping: &DeckConfig,
    cards: &Vec<CardContent>,
    now: i64,
) -> (out: SyncOutcome)
    requires
        old(db).wf(),
        old(manager).inv(*old(db)),
        old(db).words is Some,
        old(manager).next_id + total_word_chars(cards@, *mapping) <= u32::MAX,
    ensures
        final(db).wf(),
        final(manager).inv(*final(db)),
        final(db).srs is Some,
        final(db).words is Some,
        final(db).revlog == old(db).revlog,
        out.skipped == skipped_count(cards@, *mapping),
        out.processed + out.skipped == cards@.len(),
        forall|k: char| #![all_triggers]
            levels(*final(db), k) == level_after(cards@, *mapping, k, levels(*old(db), k)),
        forall|k: char| #![all_triggers]
            srs_view(old(db).srs_tab(), k) is Some ==> srs_view(final(db).srs_tab(), k) == srs_view(
                old(db).srs_tab(),
                k,
            ),
        forall|k: char| #![all_triggers]
            (srs_view(old(db).srs_tab(), k) is None && touched(cards@, *mapping, k)) ==> (srs_view(
                final(db).srs_tab(),
                k,
            ) is Some && srs_view(final(db).srs_tab(), k).unwrap().kanji == k && srs_view(
                final(db).srs_tab(),
                k,
            ).unwrap().card == fresh_card(now) && old(manager).next_id <= srs_view(
                final(db).srs_tab(),
                k,
            ).unwrap().id && srs_view(final(db).srs_tab(), k).unwrap().id
                < final(manager).next_id),
        forall|k: char| #![all_triggers]
            (srs_view(old(db).srs_tab(), k) is None && !touched(cards@, *mapping, k)) ==> srs_view(
                final(db).srs_tab(),
                k,
            ) is None,
        forall|id: u64| #![all_triggers]
            word_view(final(db).words_tab(), id) == word_after(
                cards@,
                *mapping,
                id,
                word_view(old(db).words_tab(), id),
            ),
        old(db).srs_tab().is_prefix_of(final(db).srs_tab()),
        final(db).srs_tab().len() - old(db).srs_tab().len() == final(manager).next_id - old(
            manager,
        ).next_id,
        old(manager).next_id <= final(manager).next_id,
{
    let ghost m = *mapping;
    let ghost cs = cards@;
    let ghost dbin = *db;
    let ghost nid0 = manager.next_id;
    let n = cards.len();
    let mut skipped: usize = 0;
    let mut ci: usize = 0;
    proof {
        assert(cs.take(0) =~= Seq::<CardContent>::empty());
        assert(cs.skip(0) =~= cs);
    }
    while ci < n
        invariant
            n == cs.len(),
            cs == cards@,
            m == *mapping,
            ci <= n,
            skipped <= ci,
            db.wf(),
            manager.inv(*db),
            db.words is Some,
            db.srs is Some,
            db.revlog == dbin.revlog,
            dbin.wf(),
            dbin.srs is Some,
            dbin.words is Some,
            skipped == skipped_count(cs.take(ci as int), m),
            forall|k: char| #![all_triggers]
                levels(*db, k) == level_after(cs.take(ci as int), m, k, levels(dbin, k)),
            forall|k: char| #![all_triggers]
                srs_view(dbin.srs_tab(), k) is Some ==> srs_view(db.srs_tab(), k) == srs_view(
                    dbin.srs_tab(),
                    k,
                ),
            forall|k: char| #![all_triggers]
                (srs_view(dbin.srs_tab(), k) is None && touched(cs.take(ci as int), m, k)) ==> (
                srs_view(db.srs_tab(), k) is Some && srs_view(db.srs_tab(), k).unwrap().kanji == k
                    && srs_view(db.srs_tab(), k).unwrap().card == fresh_card(now) && nid0
                    <= srs_view(db.srs_tab(), k).unwrap().id && srs_view(
                    db.srs_tab(),
                    k,
                ).unwrap().id < manager.next_id),
            forall|k: char| #![all_triggers]
                (srs_view(dbin.srs_tab(), k) is None && !touched(cs.take(ci as int), m, k))
                    ==> srs_view(db.srs_tab(), k) is None,
            forall|id: u64| #![all_triggers]
                word_view(db.words_tab(), id) == word_after(
                    cs.take(ci as int),
                    m,
                    id,
                    word_view(dbin.words_tab(), id),
                ),
            manager.next_id + total_word_chars(cs.skip(ci as int), m) <= u32::MAX,
            dbin.srs_tab().is_prefix_of(db.srs_tab()),
            db.srs_tab().len() - dbin.srs_tab().len() == manager.next_id - nid0,
            nid0 <= manager.next_id,
        decreases n - ci,
    {
        proof {
            assert(cs.take(ci as int + 1).drop_last() =~= cs.take(ci as int));
            assert(cs.take(ci as int + 1).last() == cs[ci as int]);
            assert(cs.skip(ci as int).drop_first() =~= cs.skip(ci as int + 1));
            assert(cs.skip(ci as int)[0] == cs[ci as int]);
        }
        let card = &cards[ci];
        let wordo = field_value(card, &mapping.word_field);
        let defo = field_value(card, &mapping.def_field);
        let furo = field_value(card, &mapping.furigana_field);
        if wordo.is_some() && defo.is_some() && furo.is_some() {
            let w = wordo.unwrap();
            let d = defo.unwrap();
            let f = furo.unwrap();
            assert(card_processed(cs[ci as int], m));
            assert(w@ == word_of(cs[ci as int], m).unwrap().value@);
            assert(d@ == def_of(cs[ci as int], m).unwrap().value@);
            assert(f@ == furigana_of(cs[ci as int], m).unwrap().value@);
            let ghost db_start = *db;
            match words.insert_or_update_word(db, card.card_id, w, d, f) {
                Ok(_) => {},
                Err(_) => {
                    assert(false);
                },
            }
            let ghost dbc = *db;
            let ghost nidc = manager.next_id;
            proof {
                assert(dbc.kanji == db_start.kanji);
                assert(dbc.srs == db_start.srs);
                assert(dbc.revlog == db_start.revlog);
            }
            let ws = w.as_str();
            let wlen = ws.unicode_len();
            proof {
                assert(wlen == word_len(cs[ci as int], m));
                assert(total_word_chars(cs.skip(ci as int), m) == wlen + total_word_chars(
                    cs.skip(ci as int + 1),
                    m,
                ));
            }
            let rl_level = recommended_level(card.interval);
            let mut j: usize = 0;
            while j < wlen
                invariant
                    n == cs.len(),
                    cs == cards@,
                    m == *mapping,
                    ci < n,
                    j <= wlen,
                    wlen == ws@.len(),
                    ws@ == word_of(cs[ci as int], m).unwrap().value@,
                    card_processed(cs[ci as int], m),
                    rl_level == recommended_level_spec(cs[ci as int].interval),
                    db.wf(),
                    manager.inv(*db),
                    db.srs is Some,
                    db.words == dbc.words,
                    db.revlog == dbc.revlog,
                    dbc.wf(),
                    dbc.srs is Some,
                    dbc.words is Some,
                    forall|k: char| #![all_triggers]
                        levels(*db, k) == (if kanji_seen(ws@, j as int, k) {
                            bump(levels(dbc, k), rl_level)
                        } else {
                            levels(dbc, k)
                        }),
                    forall|k: char| #![all_triggers]
                        srs_view(dbc.srs_tab(), k) is Some ==> srs_view(db.srs_tab(), k)
                            == srs_view(dbc.srs_tab(), k),
                    forall|k: char| #![all_triggers]
                        (srs_view(dbc.srs_tab(), k) is None && kanji_seen(ws@, j as int, k)) ==> (
                        srs_view(db.srs_tab(), k) is Some && srs_view(db.srs_tab(), k).unwrap().kanji
                            == k && srs_view(db.srs_tab(), k).unwrap().card == fresh_card(now)
                            && nidc <= srs_view(db.srs_tab(), k).unwrap().id && srs_view(
                            db.srs_tab(),
                            k,
                        ).unwrap().id < manager.next_id),
                    forall|k: char| #![all_triggers]
                        (srs_view(dbc.srs_tab(), k) is None && !kanji_seen(ws@, j as int, k))
                            ==> srs_view(db.srs_tab(), k) is None,
                    dbc.srs_tab().is_prefix_of(db.srs_tab()),
                    db.srs_tab().len() - dbc.srs_tab().len() == manager.next_id - nidc,
                    nidc <= manager.next_id,
                    manager.next_id - nidc <= j,
                    nidc + total_word_chars(cs.skip(ci as int), m) - wlen + (wlen - j)
                        <= u32::MAX + total_word_chars(cs.skip(ci as int + 1), m),
                    nidc + wlen + total_word_chars(cs.skip(ci as int + 1), m) <= u32::MAX,
                decreases wlen - j,
            {
                let c = ws.get_char(j);
                // the seen set of kanji gains `c` exactly when `c` is one
                proof {
                    assert forall|k: char| #![all_triggers] k != c implies seen_in(
                        ws@,
                        j as int + 1,
                        k,
                    ) == seen_in(ws@, j as int, k) by {
                        if seen_in(ws@, j as int + 1, k) {
                            let t = choose|t: int| 0 <= t < j + 1 && ws@[t] == k;
                            assert(t < j);
                        }
                        if seen_in(ws@, j as int, k) {
                            let t = choose|t: int| 0 <= t < j && ws@[t] == k;
                            assert(0 <= t < j + 1 && ws@[t] == k);
                        }
                    }
                    assert(seen_in(ws@, j as int + 1, c)) by {
                        assert(ws@[j as int] == c);
                    }
                }
                if is_kanji(c) {
                    let ghost db_pre = *db;
                    let ghost nid_pre = manager.next_id;
                    match add_kanji(db, c, rl_level) {
                        Ok(_) => {},
                        Err(_) => {},
                    }
                    proof {
                        assert(db.srs == db_pre.srs);
                        assert(db.revlog == db_pre.revlog);
                        assert(db.words == db_pre.words);
                        // levels step: the named kanji is raised, others keep
                        assert forall|k: char| #![all_triggers]
                            levels(*db, k) == (if kanji_seen(ws@, j as int + 1, k) {
                                bump(levels(dbc, k), rl_level)
                            } else {
                                levels(dbc, k)
                            }) by {
                            if k == c {
                                assert(kanji_seen(ws@, j as int + 1, k));
                            }
                        }
                    }
                    let srscard = SrsCard::new(now);
                    proof {
                        assert(manager.next_id < u32::MAX);
                        assert(srs_view(db.srs_tab(), c) is None ==> manager.next_id < u32::MAX);
                    }
                    match manager.create_card(db, KanjiSrs { kanji: c, card: srscard }) {
                        Ok(_) => {},
                        Err(_) => {
                            assert(false);
                        },
                    }
                    proof {
                        let pre_tab = db_pre.srs_tab();
                        let post_tab = db.srs_tab();
                        if srs_view(pre_tab, c) is None {
                            let row = SrsRow { kanji: c, id: nid_pre, card: stored_card(srscard) };
                            assert(post_tab =~= pre_tab.push(row));
                            assert(stored_card(srscard) == fresh_card(now));
                            assert forall|k: char| #![all_triggers] k != c implies srs_view(
                                post_tab,
                                k,
                            ) == srs_view(pre_tab, k) by {
                                lemma_lookup_push(pre_tab, srs_key(), row, k);
                            }
                            assert(srs_view(post_tab, c) == Some(row)) by {
                                lemma_lookup_push(pre_tab, srs_key(), row, c);
                            }
                            assert(dbc.srs_tab().is_prefix_of(post_tab)) by {
                                assert(dbc.srs_tab() =~= post_tab.subrange(
                                    0,
                                    dbc.srs_tab().len() as int,
                                ));
                            }
                        } else {
                            assert(post_tab == pre_tab);
                        }
                    }
                } else {
                    // a character that is no kanji changes nothing: `c`
                    // itself fails `kanji_seen`, every other key's seen
                    // status is untouched
                    proof {
                        assert(!kanji_seen(ws@, j as int + 1, c));
                        assert forall|k: char| #![all_triggers]
                            levels(*db, k) == (if kanji_seen(ws@, j as int + 1, k) {
                                bump(levels(dbc, k), rl_level)
                            } else {
                                levels(dbc, k)
                            }) by {}
                    }
                }
                j = j + 1;
            }
            // the kanji of the whole word are exactly what the loop walked
            proof {
                assert forall|k: char| #![all_triggers] (is_kanji(k) && contains_char(ws@, k))
                    == kanji_seen(ws@, j as int, k) by {
                    if kanji_seen(ws@, j as int, k) {
                        let t = choose|t: int| 0 <= t < j && ws@[t] == k;
                        assert(0 <= t < ws@.len() && ws@[t] == k);
                        assert(contains_char(ws@, k));
                    }
                    if is_kanji(k) && contains_char(ws@, k) {
                        let t = choose|t: int| 0 <= t < ws@.len() && ws@[t] == k;
                        assert(0 <= t < j && ws@[t] == k);
                        assert(seen_in(ws@, j as int, k));
                    }
                }
                // fold the card into the batch-level views
                assert forall|k: char| #![all_triggers]
                    levels(*db, k) == level_after(
                        cs.take(ci as int + 1),
                        m,
                        k,
                        levels(dbin, k),
                    ) by {
                    assert(card_touches(cs[ci as int], m, k) == kanji_seen(ws@, j as int, k));
                    assert(levels(db_start, k) == level_after(
                        cs.take(ci as int),
                        m,
                        k,
                        levels(dbin, k),
                    ));
                    assert(levels(dbc, k) == levels(db_start, k));
                }
                assert forall|k: char| #![all_triggers]
                    (srs_view(dbin.srs_tab(), k) is None && touched(
                        cs.take(ci as int + 1),
                        m,
                        k,
                    )) implies (srs_view(db.srs_tab(), k) is Some && srs_view(
                    db.srs_tab(),
                    k,
                ).unwrap().kanji == k && srs_view(db.srs_tab(), k).unwrap().card == fresh_card(now)
                    && nid0 <= srs_view(db.srs_tab(), k).unwrap().id && srs_view(
                    db.srs_tab(),
                    k,
                ).unwrap().id < manager.next_id) by {
                    lemma_touched_step(cs, m, ci as int, k);
                    assert(card_touches(cs[ci as int], m, k) == kanji_seen(ws@, j as int, k));
                    assert(srs_view(dbc.srs_tab(), k) == srs_view(db_start.srs_tab(), k));
                }
                assert forall|k: char| #![all_triggers]
                    (srs_view(dbin.srs_tab(), k) is None && !touched(
                        cs.take(ci as int + 1),
                        m,
                        k,
                    )) implies srs_view(db.srs_tab(), k) is None by {
                    lemma_touched_step(cs, m, ci as int, k);
                    assert(card_touches(cs[ci as int], m, k) == kanji_seen(ws@, j as int, k));
                    assert(srs_view(dbc.srs_tab(), k) == srs_view(db_start.srs_tab(), k));
                }
                assert forall|k: char| #![all_triggers]
                    srs_view(dbin.srs_tab(), k) is Some implies srs_view(db.srs_tab(), k)
                    == srs_view(dbin.srs_tab(), k) by {
                    assert(srs_view(dbc.srs_tab(), k) == srs_view(db_start.srs_tab(), k));
                }
                assert forall|id: u64| #![all_triggers]
                    word_view(db.words_tab(), id) == word_after(
                        cs.take(ci as int + 1),
                        m,
                        id,
                        word_view(dbin.words_tab(), id),
                    ) by {
                    assert(db.words == dbc.words);
                    if id == cs[ci as int].card_id {
                        assert(word_view(dbc.words_tab(), id) == Some((w@, d@, f@)));
                    } else {
                        assert(word_view(dbc.words_tab(), id) == word_view(
                            db_start.words_tab(),
                            id,
                        ));
                    }
                }
                assert(dbin.srs_tab().is_prefix_of(db.srs_tab())) by {
                    assert(dbin.srs_tab() =~= db.srs_tab().subrange(
                        0,
                        dbin.srs_tab().len() as int,
                    ));
                }
                assert(skipped_count(cs.take(ci as int + 1), m) == skipped_count(
                    cs.take(ci as int),
                    m,
                ));
            }
        } else {
            skipped = skipped + 1;
            proof {
                assert(!card_processed(cs[ci as int], m));
                assert forall|k: char| #![all_triggers]
                    levels(*db, k) == level_after(
                        cs.take(ci as int + 1),
                        m,
                        k,
                        levels(dbin, k),
                    ) by {
                    assert(!card_touches(cs[ci as int], m, k));
                }
                assert forall|k: char| #![all_triggers]
                    (srs_view(dbin.srs_tab(), k) is None) implies (touched(
                        cs.take(ci as int + 1),
                        m,
                        k,
                    ) == touched(cs.take(ci as int), m, k)) by {
                    lemma_touched_step(cs, m, ci as int, k);
                    assert(!card_touches(cs[ci as int], m, k));
                }
                assert forall|id: u64| #![all_triggers]
                    word_view(db.words_tab(), id) == word_after(
                        cs.take(ci as int + 1),
                        m,
                        id,
                        word_view(dbin.words_tab(), id),
                    ) by {}
            }
        }
        ci = ci + 1;
    }
    proof {
        assert(cs.take(n as int) =~= cs);
    }
    SyncOutcome { processed: n - skipped, skipped }
}

} // verus!
