use immerse::db::Database;
use immerse::word_manager::WordManager;
use immerse::CliError;

#[test]
fn word_upsert_keeps_one_record_with_the_latest_values() {
    let mut db = Database::new();
    let wm = WordManager::new(&mut db);
    wm.insert_or_update_word(
        &mut db,
        42,
        &"本".to_string(),
        &"book".to_string(),
        &"ほん".to_string(),
    )
    .unwrap();
    wm.insert_or_update_word(
        &mut db,
        42,
        &"本棚".to_string(),
        &"bookshelf".to_string(),
        &"ほんだな".to_string(),
    )
    .unwrap();

    let rows = db.word_rows().unwrap();
    assert_eq!(rows.len(), 1);
    assert_eq!(rows[0].id, 42);
    assert_eq!(rows[0].word, "本棚");
    assert_eq!(rows[0].def, "bookshelf");
    assert_eq!(rows[0].furigana, "ほんだな");
}

#[test]
fn word_upsert_without_a_table_is_a_store_error() {
    let mut db = Database::new();
    let wm = WordManager {};
    let r = wm.insert_or_update_word(
        &mut db,
        1,
        &"a".to_string(),
        &"b".to_string(),
        &"c".to_string(),
    );
    assert_eq!(r, Err(CliError::Store));
    assert!(wm.find_words(&db, '本').is_err());
}

#[test]
fn find_words_matches_by_contained_character() {
    let mut db = Database::new();
    let wm = WordManager::new(&mut db);
    let entries = [
        (1u64, "本棚", "bookshelf", "ほんだな"),
        (2u64, "日本", "Japan", "にほん"),
        (3u64, "桜", "cherry", "さくら"),
    ];
    for (id, w, d, f) in entries {
        wm.insert_or_update_word(&mut db, id, &w.to_string(), &d.to_string(), &f.to_string())
            .unwrap();
    }
    let hits = wm.find_words(&db, '本').unwrap();
    assert_eq!(hits.len(), 2);
    assert_eq!(hits[0].word, "本棚");
    assert_eq!(hits[1].word, "日本");
    assert_eq!(hits[1].def, "Japan");
    assert_eq!(hits[1].furigana, "にほん");

    assert!(wm.find_words(&db, '木').unwrap().is_empty());
}
