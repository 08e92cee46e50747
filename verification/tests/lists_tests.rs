use immerse::kanji::KanjiEntry;
use immerse::lists::{SelectionList, StatefulList};
use immerse::srs::{rating_code, rating_u8, state_code, state_u8, Rating, State};

#[test]
fn selection_wraps_both_ways() {
    let items = vec!["a".to_string(), "b".to_string(), "c".to_string()];
    let mut list = SelectionList::new(items);
    assert_eq!(list.state, None);
    list.next();
    assert_eq!(list.state, Some(0));
    list.next();
    list.next();
    assert_eq!(list.state, Some(2));
    list.next();
    assert_eq!(list.state, Some(0));
    list.previous();
    assert_eq!(list.state, Some(2));
    list.unselect();
    assert_eq!(list.state, None);
    list.previous();
    assert_eq!(list.state, Some(0));
}

fn entries(n: usize) -> Vec<KanjiEntry> {
    (0..n).map(|i| KanjiEntry { kanji: "本".to_string(), level: (i % 4) as u8 }).collect()
}

#[test]
fn paging_wraps_over_the_page_count() {
    let mut grid = StatefulList::with_items(entries(1000));
    assert_eq!(grid.page_count, 3);
    assert_eq!(grid.page, 1);
    grid.next();
    grid.next();
    assert_eq!(grid.page, 3);
    grid.next();
    assert_eq!(grid.page, 1);
    grid.previous();
    assert_eq!(grid.page, 3);
    grid.previous();
    assert_eq!(grid.page, 2);

    let empty = StatefulList::with_items(entries(0));
    assert_eq!(empty.page_count, 0);
}

#[test]
fn page_bounds_cut_the_last_page_at_the_end() {
    let mut grid = StatefulList::with_items(entries(1000));
    assert_eq!(grid.page_bounds(), (0, 450));
    grid.next();
    assert_eq!(grid.page_bounds(), (450, 900));
    grid.next();
    assert_eq!(grid.page_bounds(), (900, 1000));
}

#[test]
fn state_and_rating_codes_round_trip() {
    let states = [State::New, State::Learning, State::Review, State::Relearning];
    for (i, s) in states.into_iter().enumerate() {
        assert_eq!(state_code(s), i as u8);
        assert_eq!(state_u8(i as u8), s);
    }
    assert_eq!(state_u8(250), State::New);

    let ratings = [Rating::Again, Rating::Hard, Rating::Good, Rating::Easy];
    for (i, r) in ratings.into_iter().enumerate() {
        assert_eq!(rating_code(r), i as u8);
        assert_eq!(rating_u8(i as u8), r);
    }
    assert_eq!(rating_u8(99), Rating::Again);
}
