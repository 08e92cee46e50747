use immerse::ankiconnect::{
    card_content_result, cards_info_request, cards_result_ids, deck_names_request, field_value,
    find_cards_in_deck_request, find_cards_request, u64_to_string, CardContent, Field,
    GetCardsContentResult, GetCardsResult,
};
use immerse::selector::{collect_candidates, select_candidate, Candidate};
use immerse::CliError;

#[test]
fn request_bodies_are_framed_exactly() {
    assert_eq!(
        deck_names_request(),
        "{\"action\":\"deckNames\",\"version\":6}"
    );
    assert_eq!(
        find_cards_request("Mining"),
        "{\"action\":\"findCards\",\"version\":6,\"params\":{\"query\":\"deck:\\\"Mining\\\"\"}}"
    );
    assert_eq!(
        find_cards_in_deck_request("Mining", "Word", '本'),
        "{\"action\":\"findCards\",\"version\":6,\"params\":{\"query\":\"deck:\\\"Mining\\\" Word:*本*\"}}"
    );
    assert_eq!(
        cards_info_request(&vec![3, 12034, 0]),
        "{\"action\":\"cardsInfo\",\"version\":6,\"params\":{\"cards\":[3,12034,0]}}"
    );
    assert_eq!(
        cards_info_request(&vec![]),
        "{\"action\":\"cardsInfo\",\"version\":6,\"params\":{\"cards\":[]}}"
    );
}

#[test]
fn decimal_rendering_is_exact() {
    assert_eq!(u64_to_string(0), "0");
    assert_eq!(u64_to_string(7), "7");
    assert_eq!(u64_to_string(10), "10");
    assert_eq!(u64_to_string(12034), "12034");
    assert_eq!(u64_to_string(u64::MAX), "18446744073709551615");
}

#[test]
fn a_populated_error_string_is_surfaced() {
    let bad = GetCardsResult { result: vec![1], err: Some("no such deck".to_string()) };
    assert_eq!(
        cards_result_ids(bad),
        Err(CliError::Remote("no such deck".to_string()))
    );
    let good = GetCardsResult { result: vec![5, 6], err: None };
    assert_eq!(cards_result_ids(good), Ok(vec![5, 6]));

    let bad = GetCardsContentResult { result: vec![], err: Some("boom".to_string()) };
    assert!(matches!(card_content_result(bad), Err(CliError::Remote(_))));

    // the message method spells the failure out
    assert_eq!(
        CliError::Remote("boom".to_string()).message(),
        "card service error: boom"
    );
    assert_eq!(CliError::NotFound.message(), "not found");
    assert_eq!(CliError::Store.message(), "store-layer failure");
}

#[test]
fn field_lookup_finds_the_first_match() {
    let card = CardContent {
        card_id: 1,
        interval: 0,
        fields: vec![
            Field { name: "Word".to_string(), value: "本".to_string(), order: 0 },
            Field { name: "Def".to_string(), value: "book".to_string(), order: 1 },
        ],
    };
    assert_eq!(field_value(&card, &"Def".to_string()), Some(&"book".to_string()));
    assert_eq!(field_value(&card, &"Reading".to_string()), None);
}

#[test]
fn candidates_carry_their_deck_and_selection_is_by_modulus() {
    let per_deck = vec![vec![], vec![77], vec![10, 11]];
    let cands = collect_candidates(&per_deck);
    assert_eq!(
        cands,
        vec![
            Candidate { card_id: 77, deck_index: 1 },
            Candidate { card_id: 10, deck_index: 2 },
            Candidate { card_id: 11, deck_index: 2 },
        ]
    );
    // 4 modulo 3 candidates lands on the second
    assert_eq!(
        select_candidate(&cands, 4).unwrap(),
        Candidate { card_id: 10, deck_index: 2 }
    );
    assert_eq!(
        select_candidate(&cands, 5).unwrap(),
        Candidate { card_id: 11, deck_index: 2 }
    );
}

#[test]
fn a_kanji_found_in_exactly_one_card_is_always_selected() {
    // the kanji occurs in one card of one configured deck
    let per_deck = vec![vec![], vec![4242], vec![]];
    let cands = collect_candidates(&per_deck);
    assert_eq!(cands.len(), 1);
    for random in [0u64, 1, 2, 999] {
        let picked = select_candidate(&cands, random).unwrap();
        assert_eq!(picked.card_id, 4242);
        assert_eq!(picked.deck_index, 1);
    }
}

#[test]
fn selection_over_no_candidates_is_not_found() {
    let cands = collect_candidates(&vec![vec![], vec![]]);
    assert!(cands.is_empty());
    assert_eq!(select_candidate(&cands, 3), Err(CliError::NotFound));
}
