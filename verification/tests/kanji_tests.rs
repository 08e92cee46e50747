use immerse::kanji::{is_kanji, recommended_level};
use immerse::lists::round_up_to_nearest_10;

#[test]
fn test_is_kanji() {
    assert!(is_kanji('千'));
    assert!(is_kanji('本'));
    assert!(is_kanji('桜'));
    assert_ne!(is_kanji('に'), true);
    assert_ne!(is_kanji('h'), true);
    assert_ne!(is_kanji('1'), true)
}

#[test]
fn is_kanji_accepts_a_representative_of_each_range() {
    // main block, extension A, extensions B through G
    assert!(is_kanji('\u{4E00}'));
    assert!(is_kanji('\u{3400}'));
    assert!(is_kanji('\u{20000}'));
    assert!(is_kanji('\u{2A700}'));
    assert!(is_kanji('\u{2B740}'));
    assert!(is_kanji('\u{2B820}'));
    assert!(is_kanji('\u{2CEB0}'));
}

#[test]
fn is_kanji_rejects_characters_outside_the_ranges() {
    assert!(!is_kanji('\u{4DFF}'));
    assert!(!is_kanji('\u{A000}'));
    assert!(!is_kanji('\u{33FF}'));
    assert!(!is_kanji('\u{1FFFF}'));
    assert!(!is_kanji('\u{2A6E0}'));
    assert!(!is_kanji('\u{2EBF0}'));
    assert!(!is_kanji(' '));
    assert!(!is_kanji('ア'));
}

#[test]
fn recommended_level_boundaries() {
    assert_eq!(recommended_level(0), 0);
    assert_eq!(recommended_level(1), 1);
    assert_eq!(recommended_level(59), 1);
    assert_eq!(recommended_level(60), 2);
    assert_eq!(recommended_level(99), 2);
    assert_eq!(recommended_level(100), 3);
    assert_eq!(recommended_level(u16::MAX), 3);
}

#[test]
fn recommended_level_is_monotonic_on_samples() {
    let mut prev = 0u8;
    for interval in 0..300u16 {
        let lvl = recommended_level(interval);
        assert!(lvl >= prev);
        prev = lvl;
    }
}

#[test]
fn round_up_rounds_to_page_multiples() {
    assert_eq!(round_up_to_nearest_10(0), 0);
    assert_eq!(round_up_to_nearest_10(1), 450);
    assert_eq!(round_up_to_nearest_10(450), 450);
    assert_eq!(round_up_to_nearest_10(451), 900);
    assert_eq!(round_up_to_nearest_10(65086), 65250);
}
