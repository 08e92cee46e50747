use immerse::card_manager::{CardCollection, CardManager};
use immerse::db::{Database, SrsRow};
use immerse::srs::{Rating, ReviewLog, SrsCard, State, KanjiSrs};
use immerse::CliError;

fn fresh_manager() -> (Database, CardManager) {
    let mut db = Database::new();
    let manager = CardManager::new(&mut db).unwrap();
    (db, manager)
}

#[test]
fn manager_seeds_the_counter_from_the_greatest_identifier() {
    let (_, manager) = fresh_manager();
    assert_eq!(manager.next_id, 1);

    let srs = vec![
        SrsRow { kanji: '一', id: 4, card: SrsCard::new(0) },
        SrsRow { kanji: '二', id: 17, card: SrsCard::new(0) },
    ];
    let mut db = Database::from_rows(vec![], srs, vec![], vec![]).unwrap();
    let manager = CardManager::new(&mut db).unwrap();
    assert_eq!(manager.next_id, 18);
}

#[test]
fn create_card_assigns_sequential_identifiers() {
    let (mut db, mut manager) = fresh_manager();
    manager.create_card(&mut db, KanjiSrs { kanji: '本', card: SrsCard::new(5) }).unwrap();
    manager.create_card(&mut db, KanjiSrs { kanji: '桜', card: SrsCard::new(6) }).unwrap();
    let rows = db.srs_rows().unwrap();
    assert_eq!(rows.len(), 2);
    assert_eq!(rows[0].id, 1);
    assert_eq!(rows[1].id, 2);
    assert_eq!(manager.next_id, 3);
}

#[test]
fn create_card_is_idempotent_for_an_existing_kanji() {
    let (mut db, mut manager) = fresh_manager();
    manager.create_card(&mut db, KanjiSrs { kanji: '本', card: SrsCard::new(5) }).unwrap();
    let before = db.srs_rows().unwrap().clone();

    let mut other = SrsCard::new(99);
    other.state = State::Review;
    other.reps = 7;
    manager.create_card(&mut db, KanjiSrs { kanji: '本', card: other }).unwrap();

    let after = db.srs_rows().unwrap();
    assert_eq!(after.len(), 1);
    assert_eq!(after[0], before[0]);
}

fn sample_log(reviewed: i64) -> ReviewLog {
    ReviewLog {
        rating: Rating::Good,
        elapsed_days: 1,
        scheduled_days: 3,
        state: State::Learning,
        reviewed_date: reviewed,
    }
}

#[test]
fn a_supplied_review_log_overwrites_the_stored_one() {
    let (mut db, mut manager) = fresh_manager();
    let mut card = SrsCard::new(5);
    card.log = Some(sample_log(100));
    manager.create_card(&mut db, KanjiSrs { kanji: '本', card }).unwrap();
    assert_eq!(manager.revlog(&db, '本').unwrap(), Some(sample_log(100)));

    // a second create leaves the record but upserts the log
    let mut card2 = SrsCard::new(6);
    card2.log = Some(sample_log(200));
    manager.create_card(&mut db, KanjiSrs { kanji: '本', card: card2 }).unwrap();
    assert_eq!(manager.revlog(&db, '本').unwrap(), Some(sample_log(200)));
    assert_eq!(db.revlog_rows().unwrap().len(), 1);
    assert_eq!(manager.revlog(&db, '木').unwrap(), None);
}

#[test]
fn new_cards_respects_limit_state_and_order() {
    let (mut db, mut manager) = fresh_manager();
    for (k, due) in [('一', 3), ('二', 1), ('三', 2), ('四', 9)] {
        manager.create_card(&mut db, KanjiSrs { kanji: k, card: SrsCard::new(due) }).unwrap();
    }
    // push one record out of the New state
    {
        let rows = db.srs_rows().unwrap().clone();
        let mut reviewed = rows[1];
        reviewed.card.state = State::Review;
        let mut all = rows.clone();
        all[1] = reviewed;
        db = Database::from_rows(vec![], all, vec![], vec![]).unwrap();
    }
    let manager = CardManager::new(&mut db).unwrap();

    let two = manager.new_cards(&db, 2).unwrap();
    assert_eq!(two.len(), 2);
    assert_eq!(two[0].kanji, '一');
    assert_eq!(two[1].kanji, '三');
    assert!(two.iter().all(|c| c.card.state == State::New));

    let all = manager.new_cards(&db, 20).unwrap();
    assert_eq!(all.len(), 3);
    assert_eq!(all[2].kanji, '四');

    let none = manager.new_cards(&db, 0).unwrap();
    assert!(none.is_empty());
}

#[test]
fn new_cards_joins_the_review_log() {
    let (mut db, mut manager) = fresh_manager();
    let mut card = SrsCard::new(5);
    card.log = Some(sample_log(123));
    manager.create_card(&mut db, KanjiSrs { kanji: '本', card }).unwrap();
    let got = manager.new_cards(&db, 10).unwrap();
    assert_eq!(got.len(), 1);
    // the stored row drops the log; the read joins it back in
    assert_eq!(db.srs_rows().unwrap()[0].card.log, None);
    assert_eq!(got[0].card.log, Some(sample_log(123)));
}

#[test]
fn card_manager_reads_fail_without_tables() {
    let db = Database::new();
    let manager = CardManager { next_id: 1 };
    assert_eq!(manager.new_cards(&db, 5), Err(CliError::Store));
    assert_eq!(manager.revlog(&db, '本'), Err(CliError::Store));
}

#[test]
fn card_collection_review_replaces_only_the_reviewed_card() {
    let a = KanjiSrs { kanji: '一', card: SrsCard::new(1) };
    let b = KanjiSrs { kanji: '二', card: SrsCard::new(2) };
    let mut coll = CardCollection::new(vec![a, b]);
    assert_eq!(coll.with_index(1).kanji, '二');

    let mut scheduled = SrsCard::new(50);
    scheduled.state = State::Learning;
    scheduled.reps = 1;
    coll.review(1, scheduled);
    assert_eq!(coll.with_index(0).card, SrsCard::new(1));
    assert_eq!(coll.with_index(1).kanji, '二');
    assert_eq!(coll.with_index(1).card, scheduled);
}
