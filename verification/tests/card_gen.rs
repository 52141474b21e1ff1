use std::collections::HashSet;

use tui_bingo::card::BingoCell;
use tui_bingo::card::BingoError;
use tui_bingo::card::NUMBER_OF_CELLS;
use tui_bingo::card::generate_card;

fn pool(n: usize) -> Vec<BingoCell> {
    let mut cells = Vec::new();
    for i in 0..n {
        cells.push(BingoCell { string: format!("label {}", i) });
    }
    cells
}

#[test]
fn card_has_25_distinct_labels_from_the_pool() {
    let all = pool(40);
    let allowed: HashSet<String> = all.iter().map(|c| c.string.clone()).collect();
    for _ in 0..50 {
        let card = generate_card(pool(40)).unwrap();
        assert_eq!(card.len(), NUMBER_OF_CELLS);
        let picked: HashSet<String> = card.iter().map(|c| c.string.clone()).collect();
        assert_eq!(picked.len(), NUMBER_OF_CELLS);
        assert!(picked.is_subset(&allowed));
    }
}

#[test]
fn exact_pool_keeps_every_label_once() {
    let card = generate_card(pool(25)).unwrap();
    assert_eq!(card.len(), 25);
    let picked: HashSet<String> = card.iter().map(|c| c.string.clone()).collect();
    let allowed: HashSet<String> = pool(25).iter().map(|c| c.string.clone()).collect();
    assert_eq!(picked, allowed);
}

#[test]
fn short_pool_is_rejected() {
    match generate_card(pool(24)) {
        Err(e) => assert_eq!(e, BingoError::InsufficientData),
        Ok(_) => panic!("a short pool must be rejected"),
    }
}

#[test]
fn empty_pool_is_rejected() {
    match generate_card(Vec::new()) {
        Err(e) => assert_eq!(e, BingoError::InsufficientData),
        Ok(_) => panic!("an empty pool must be rejected"),
    }
}

#[test]
fn duplicate_labels_are_not_over_drawn() {
    // A pool of 26 entries where one label occurs twice: the card may hold
    // that label at most twice and every other label at most once.
    let mut all = pool(24);
    all.push(BingoCell { string: "twin".to_string() });
    all.push(BingoCell { string: "twin".to_string() });
    for _ in 0..20 {
        let card = generate_card(all.clone()).unwrap();
        assert_eq!(card.len(), 25);
        let twins: usize = card.iter().filter(|c| c.string == "twin").count();
        assert!(twins <= 2);
        for i in 0..24 {
            let label = format!("label {}", i);
            assert!(card.iter().filter(|c| c.string == label).count() <= 1);
        }
    }
}
