use immerse::db::{
    add_kanji, due_cards, ensure_card_db, get_all_kanji, kanji_count, wipe_srs_db, Database,
    ReviewLogEntry, SrsRow, WordRecord,
};
use immerse::kanji::KanjiEntry;
use immerse::srs::{Rating, ReviewLog, SrsCard, State};
use immerse::CliError;

#[test]
fn reads_on_a_fresh_store_are_store_errors() {
    let db = Database::new();
    assert_eq!(get_all_kanji(&db), Err(CliError::Store));
    assert_eq!(kanji_count(&db), Err(CliError::Store));
    assert!(due_cards(&db, 0).is_err());
}

#[test]
fn add_kanji_creates_and_upserts_with_max() {
    let mut db = Database::new();
    add_kanji(&mut db, '本', 1).unwrap();
    add_kanji(&mut db, '本', 3).unwrap();
    add_kanji(&mut db, '本', 2).unwrap();
    let all = get_all_kanji(&db).unwrap();
    assert_eq!(all.len(), 1);
    assert_eq!(all[0].kanji, "本");
    assert_eq!(all[0].level, 3);
    assert_eq!(kanji_count(&db), Ok(1));
}

#[test]
fn add_kanji_ignores_non_kanji() {
    let mut db = Database::new();
    add_kanji(&mut db, 'h', 3).unwrap();
    add_kanji(&mut db, 'に', 2).unwrap();
    // the table exists but holds nothing
    assert_eq!(kanji_count(&db), Ok(0));
}

#[test]
fn wipe_clears_scheduling_state_only() {
    let mut db = Database::new();
    add_kanji(&mut db, '本', 2).unwrap();
    ensure_card_db(&mut db);
    wipe_srs_db(&mut db).unwrap();
    assert_eq!(db.srs_rows().unwrap().len(), 0);
    assert_eq!(db.revlog_rows().unwrap().len(), 0);
    assert_eq!(kanji_count(&db), Ok(1));
}

fn card_at(due: i64, state: State) -> SrsCard {
    let mut c = SrsCard::new(due);
    c.state = state;
    c
}

#[test]
fn due_cards_returns_exactly_the_due_rows() {
    let rows = vec![
        SrsRow { kanji: '一', id: 1, card: card_at(10, State::Review) },
        SrsRow { kanji: '二', id: 2, card: card_at(100, State::Review) },
        SrsRow { kanji: '三', id: 3, card: card_at(50, State::Learning) },
    ];
    let db = Database::from_rows(vec![], rows, vec![], vec![]).unwrap();
    let due = due_cards(&db, 60).unwrap();
    assert_eq!(due.len(), 2);
    assert_eq!(due[0].kanji, '一');
    assert_eq!(due[1].kanji, '三');
}

#[test]
fn from_rows_accepts_a_consistent_load() {
    let kanji = vec![
        KanjiEntry { kanji: "本".to_string(), level: 3 },
        KanjiEntry { kanji: "桜".to_string(), level: 1 },
    ];
    let srs = vec![
        SrsRow { kanji: '本', id: 3, card: SrsCard::new(7) },
        SrsRow { kanji: '桜', id: 9, card: SrsCard::new(8) },
    ];
    let revlog = vec![ReviewLogEntry {
        kanji: '本',
        log: ReviewLog {
            rating: Rating::Good,
            elapsed_days: 1,
            scheduled_days: 2,
            state: State::Learning,
            reviewed_date: 55,
        },
    }];
    let words = vec![WordRecord {
        id: 7,
        word: "本".to_string(),
        def: "book".to_string(),
        furigana: "ほん".to_string(),
    }];
    let db = Database::from_rows(kanji, srs, revlog, words).unwrap();
    assert_eq!(db.kanji_rows().unwrap().len(), 2);
    assert_eq!(db.srs_rows().unwrap().len(), 2);
    assert_eq!(db.revlog_rows().unwrap().len(), 1);
    assert_eq!(db.word_rows().unwrap().len(), 1);
}

#[test]
fn from_rows_rejects_malformed_loads() {
    // duplicate kanji key
    let dup = vec![
        KanjiEntry { kanji: "本".to_string(), level: 1 },
        KanjiEntry { kanji: "本".to_string(), level: 2 },
    ];
    assert!(Database::from_rows(dup, vec![], vec![], vec![]).is_err());
    // a key that is not a single character
    let long = vec![KanjiEntry { kanji: "本桜".to_string(), level: 1 }];
    assert!(Database::from_rows(long, vec![], vec![], vec![]).is_err());
    // identifiers out of order
    let unsorted = vec![
        SrsRow { kanji: '一', id: 2, card: SrsCard::new(0) },
        SrsRow { kanji: '二', id: 1, card: SrsCard::new(0) },
    ];
    assert_eq!(
        Database::from_rows(vec![], unsorted, vec![], vec![]).err(),
        Some(CliError::Store)
    );
    // duplicate word key
    let words = vec![
        WordRecord {
            id: 1,
            word: "a".to_string(),
            def: "b".to_string(),
            furigana: "c".to_string(),
        },
        WordRecord {
            id: 1,
            word: "d".to_string(),
            def: "e".to_string(),
            furigana: "f".to_string(),
        },
    ];
    assert!(Database::from_rows(vec![], vec![], vec![], words).is_err());
}
