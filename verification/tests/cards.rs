use plnk::cards::{filter_cards_from_board_snapshot, CardKey};
use plnk::models::CardLabel;

fn card(id: &str, list_id: &str) -> CardKey {
    CardKey { id: id.to_string(), list_id: list_id.to_string() }
}

fn card_label(card_id: &str, label_id: &str) -> CardLabel {
    CardLabel {
        id: format!("{card_id}-{label_id}"),
        card_id: card_id.to_string(),
        label_id: label_id.to_string(),
        created_at: "2026-01-01T00:00:00Z".to_string(),
    }
}

fn fixture_cards() -> Vec<CardKey> {
    vec![card("card-1", "list-a"), card("card-2", "list-a"), card("card-3", "list-b")]
}

fn kept_ids(cards: &[CardKey], positions: &[usize]) -> Vec<String> {
    positions.iter().map(|&i| cards[i].id.clone()).collect()
}

#[test]
fn snapshot_filter_by_single_label() {
    let cards = fixture_cards();
    let card_labels = vec![
        card_label("card-1", "label-red"),
        card_label("card-2", "label-blue"),
        card_label("card-3", "label-red"),
    ];
    let filtered = filter_cards_from_board_snapshot(&cards, &card_labels, None, &["label-red".into()]);
    assert_eq!(kept_ids(&cards, &filtered), vec!["card-1", "card-3"]);
}

#[test]
fn snapshot_filter_by_multiple_labels_uses_and_semantics() {
    let cards = fixture_cards();
    let card_labels = vec![
        card_label("card-1", "label-red"),
        card_label("card-1", "label-blue"),
        card_label("card-2", "label-red"),
        card_label("card-3", "label-blue"),
    ];
    let filtered = filter_cards_from_board_snapshot(
        &cards,
        &card_labels,
        None,
        &["label-red".into(), "label-blue".into()],
    );
    assert_eq!(kept_ids(&cards, &filtered), vec!["card-1"]);
}

#[test]
fn snapshot_filter_applies_list_scope_after_label_filter() {
    let cards = fixture_cards();
    let card_labels = vec![card_label("card-1", "label-red"), card_label("card-3", "label-red")];
    let filtered = filter_cards_from_board_snapshot(&cards, &card_labels, Some("list-a"), &["label-red".into()]);
    assert_eq!(kept_ids(&cards, &filtered), vec!["card-1"]);
}

#[test]
fn snapshot_filter_without_labels_keeps_every_card_of_the_list() {
    let cards = fixture_cards();
    let filtered = filter_cards_from_board_snapshot(&cards, &[], Some("list-b"), &[]);
    assert_eq!(kept_ids(&cards, &filtered), vec!["card-3"]);
    let all = filter_cards_from_board_snapshot(&cards, &[], None, &[]);
    assert_eq!(all, vec![0, 1, 2]);
}
