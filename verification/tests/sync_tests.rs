use immerse::ankiconnect::{CardContent, Field};
use immerse::card_manager::CardManager;
use immerse::config::{add_deck, find_deck, Config, DeckConfig};
use immerse::db::Database;
use immerse::srs::State;
use immerse::sync::{sync_capacity_ok, sync_cards};
use immerse::word_manager::WordManager;

fn mapping() -> DeckConfig {
    DeckConfig {
        name: "Mining".to_string(),
        word_field: "Word".to_string(),
        furigana_field: "Reading".to_string(),
        def_field: "Def".to_string(),
    }
}

fn field(name: &str, value: &str, order: u8) -> Field {
    Field { name: name.to_string(), value: value.to_string(), order }
}

fn card(id: u64, interval: u16, word: &str, def: &str, reading: &str) -> CardContent {
    CardContent {
        card_id: id,
        interval,
        fields: vec![
            field("Word", word, 0),
            field("Def", def, 1),
            field("Reading", reading, 2),
        ],
    }
}

#[test]
fn sync_one_card_end_to_end() {
    let mut db = Database::new();
    let mut manager = CardManager::new(&mut db).unwrap();
    let wm = WordManager::new(&mut db);
    let cards = vec![card(11, 120, "本", "book", "ほん")];
    assert!(sync_capacity_ok(&manager, &cards, &mapping()));

    let out = sync_cards(&mut db, &mut manager, &wm, &mapping(), &cards, 777);
    assert_eq!(out.processed, 1);
    assert_eq!(out.skipped, 0);

    let kanji = db.kanji_rows().unwrap();
    assert_eq!(kanji.len(), 1);
    assert_eq!(kanji[0].kanji, "本");
    assert_eq!(kanji[0].level, 3);

    let srs = db.srs_rows().unwrap();
    assert_eq!(srs.len(), 1);
    assert_eq!(srs[0].kanji, '本');
    assert_eq!(srs[0].id, 1);
    assert_eq!(srs[0].card.state, State::New);
    assert_eq!(srs[0].card.due, 777);
    assert_eq!(srs[0].card.log, None);

    let words = db.word_rows().unwrap();
    assert_eq!(words.len(), 1);
    assert_eq!(words[0].id, 11);
    assert_eq!(words[0].word, "本");
    assert_eq!(words[0].def, "book");
    assert_eq!(words[0].furigana, "ほん");

    assert_eq!(db.revlog_rows().unwrap().len(), 0);
}

#[test]
fn sync_records_every_kanji_of_the_word_and_counts_skips() {
    let mut db = Database::new();
    let mut manager = CardManager::new(&mut db).unwrap();
    let wm = WordManager::new(&mut db);
    let cards = vec![
        // every kanji of the word is tracked; the kana are not
        card(1, 0, "日本のご", "Japanese thing", "にほんのご"),
        // missing the mapped Def field: skipped
        CardContent {
            card_id: 2,
            interval: 50,
            fields: vec![field("Word", "桜", 0), field("Reading", "さくら", 2)],
        },
        // a kanji standing after a kana character is tracked too
        card(3, 70, "お金", "money", "おかね"),
    ];
    let out = sync_cards(&mut db, &mut manager, &wm, &mapping(), &cards, 5);
    assert_eq!(out.processed, 2);
    assert_eq!(out.skipped, 1);

    let kanji = db.kanji_rows().unwrap();
    let mut names: Vec<(String, u8)> =
        kanji.iter().map(|e| (e.kanji.clone(), e.level)).collect();
    names.sort();
    assert_eq!(
        names,
        vec![
            ("日".to_string(), 0),
            ("本".to_string(), 0),
            ("金".to_string(), 2)
        ]
    );

    // 桜 was on the skipped card: no srs record, no word record for it
    let srs = db.srs_rows().unwrap();
    assert_eq!(srs.len(), 3);
    assert!(srs.iter().all(|r| r.card.state == State::New));
    let words = db.word_rows().unwrap();
    assert_eq!(words.len(), 2);
}

#[test]
fn sync_never_lowers_a_level_and_reuses_records() {
    let mut db = Database::new();
    let mut manager = CardManager::new(&mut db).unwrap();
    let wm = WordManager::new(&mut db);
    let first = vec![card(1, 120, "本", "book", "ほん")];
    sync_cards(&mut db, &mut manager, &wm, &mapping(), &first, 10);
    let again = vec![card(1, 30, "本", "tome", "ほん")];
    let out = sync_cards(&mut db, &mut manager, &wm, &mapping(), &again, 20);
    assert_eq!(out.processed, 1);

    let kanji = db.kanji_rows().unwrap();
    assert_eq!(kanji.len(), 1);
    // level stays at the maximum ever recommended
    assert_eq!(kanji[0].level, 3);
    // the SRS record is left untouched (created at the first sync)
    let srs = db.srs_rows().unwrap();
    assert_eq!(srs.len(), 1);
    assert_eq!(srs[0].card.due, 10);
    // the word record took the latest values
    assert_eq!(db.word_rows().unwrap()[0].def, "tome");
}

#[test]
fn deck_configuration_grows_once_per_deck() {
    let mut config = Config { decks: vec![] };
    add_deck(
        &mut config,
        "Mining".to_string(),
        "Word".to_string(),
        "Def".to_string(),
        "Reading".to_string(),
    )
    .unwrap();
    add_deck(
        &mut config,
        "Mining".to_string(),
        "Other".to_string(),
        "Other".to_string(),
        "Other".to_string(),
    )
    .unwrap();
    assert_eq!(config.decks.len(), 1);
    assert_eq!(config.decks[0].word_field, "Word");
    assert_eq!(find_deck(&config, &"Mining".to_string()), Some(0));
    assert_eq!(find_deck(&config, &"Core".to_string()), None);
}
