//! Candidate selection: of all cards that contain a target kanji, across
//! every configured deck, pick one to show as the example.
//!
//! A kanji may appear in several decks with different field layouts, so a
//! candidate carries the index of the deck it came from.  The randomness
//! source is injected: the caller supplies the drawn number, and selection
//! is the drawn number reduced modulo the candidate count.

use vstd::prelude::*;
use crate::CliError;

verus! {

/// One card eligible as the example for a kanji, tagged with the deck (an
/// index into the configured deck list) whose field mapping applies to it.
#[derive(Debug, Clone, Copy, PartialEq, Eq, Structural)]
pub struct Candidate {
    pub card_id: u64,
    pub deck_index: usize,
}

/// The candidates of one deck: each identifier tagged with the deck index.
pub open spec fn deck_candidates(ids: Seq<u64>, deck: int) -> Seq<Candidate>
    decreases ids.len(),
{
    if ids.len() == 0 {
        Seq::empty()
    } else {
        seq![Candidate { card_id: ids[0], deck_index: deck as usize }] + deck_candidates(
            ids.drop_first(),
            deck,
        )
    }
}

/// All candidates over the per-deck search results, deck by deck.
pub open spec fn all_candidates(results: Seq<Seq<u64>>, deck: int) -> Seq<Candidate>
    decreases results.len() - deck,
{
    if deck < 0 || deck >= results.len() {
        Seq::empty()
    } else {
        deck_candidates(results[deck], deck) + all_candidates(results, deck + 1)
    }
}

/// Collects every returned card identifier across all configured decks,
/// tagging each with the deck it came from.  `results[d]` holds the search
/// result for deck `d`.
pub fn collect_candidates(results: &Vec<Vec<u64>>) -> (v: Vec<Candidate>)
    ensures
        v@ == all_candidates(results.deep_view(), 0),
{
    let ghost rs = results.deep_view();
    let nd = results.len();
    let mut out: Vec<Candidate> = Vec::new();
    let mut d: usize = 0;
    proof {
        assert(rs.len() == nd);
    }
    while d < nd
        invariant
            rs == results.deep_view(),
            rs.len() == nd,
            nd == results@.len(),
            d <= nd,
            forall|p: int| 0 <= p < nd ==> #[trigger] rs[p] == results@[p]@,
            out@ + all_candidates(rs, d as int) =~= all_candidates(rs, 0),
        decreases nd - d,
    {
        let ids = &results[d];
        let ni = ids.len();
        let mut i: usize = 0;
        proof {
            assert(rs[d as int].skip(0) =~= rs[d as int]);
        }
        while i < ni
            invariant
                rs == results.deep_view(),
                rs.len() == nd,
                nd == results@.len(),
                forall|p: int| 0 <= p < nd ==> #[trigger] rs[p] == results@[p]@,
                d < nd,
                ni == rs[d as int].len(),
                ids == &results@[d as int],
                i <= ni,
                out@ + deck_candidates(rs[d as int].skip(i as int), d as int) + all_candidates(
                    rs,
                    d as int + 1,
                ) =~= all_candidates(rs, 0),
            decreases ni - i,
        {
            proof {
                assert(rs[d as int].skip(i as int).drop_first() =~= rs[d as int].skip(
                    i as int + 1,
                ));
                assert(rs[d as int].skip(i as int)[0] == rs[d as int][i as int]);
            }
            out.push(Candidate { card_id: ids[i], deck_index: d });
            proof {
                assert(out@ =~= out@.drop_last().push(Candidate {
                    card_id: rs[d as int][i as int],
                    deck_index: d,
                }));
                assert(out@ + deck_candidates(rs[d as int].skip(i as int + 1), d as int)
                    =~= out@.drop_last() + (seq![
                    Candidate { card_id: rs[d as int][i as int], deck_index: d },
                ] + deck_candidates(rs[d as int].skip(i as int + 1), d as int)));
            }
            i = i + 1;
        }
        proof {
            assert(rs[d as int].skip(ni as int) =~= Seq::<u64>::empty());
            assert(deck_candidates(rs[d as int].skip(ni as int), d as int) =~= Seq::<
                Candidate,
            >::empty());
            assert(out@ + Seq::<Candidate>::empty() =~= out@);
        }
        d = d + 1;
    }
    proof {
        assert(all_candidates(rs, nd as int) =~= Seq::<Candidate>::empty());
        assert(out@ + Seq::<Candidate>::empty() =~= out@);
    }
    out
}

/// Picks the candidate the drawn number lands on: the draw reduced modulo
/// the candidate count.  An empty candidate set — the kanji occurs in no
/// configured deck — fails with a not-found error.
pub fn select_candidate(cands: &Vec<Candidate>, random: u64) -> (r: Result<Candidate, CliError>)
    ensures
        cands@.len() == 0 ==> r == Err::<Candidate, CliError>(CliError::NotFound),
        cands@.len() > 0 ==> r == Ok::<Candidate, CliError>(
            cands@[(random as int) % (cands@.len() as int)],
        ),
{
    let n = cands.len();
    if n == 0 {
        return Err(CliError::NotFound);
    }
    let idx: usize = (random % (n as u64)) as usize;
    proof {
        assert((random % (n as u64)) < (n as u64));
        assert((random % (n as u64)) as int == (random as int) % (n as int));
    }
    Ok(cands[idx])
}

} // verus!
