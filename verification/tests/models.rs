use kanban::models::{Card, List};

#[test]
fn card_display_impl_validation() {
    let card = Card {
        id: 1,
        list_id: 2,
        title: "TITLE".to_string(),
        description: None,
        sort_order: None,
    };

    let string_result = card.to_string();

    assert_eq!("    [1] TITLE", string_result);
}

#[test]
fn list_display_impl_validation() {
    let card = Card {
        id: 1,
        list_id: 1,
        title: "TITLE".to_string(),
        description: None,
        sort_order: None,
    };

    let list = List {
        id: 1,
        board_id: 1,
        name: "NAME".to_string(),
        cards: vec!(card)
    };

    let string_result = list.to_string();

    assert!(string_result.contains("List: NAME (id: 1)"));
    assert!(string_result.contains("    [1] TITLE"));
}

#[test]
fn list_text_is_header_then_one_line_per_card() {
    let cards = vec![
        Card { id: 7, list_id: 3, title: "a".to_string(), description: None, sort_order: Some(1) },
        Card { id: 12, list_id: 3, title: "b c".to_string(), description: Some("d".to_string()), sort_order: None },
    ];
    let list = List { id: 3, board_id: 9, name: "Doing".to_string(), cards };

    assert_eq!("List: Doing (id: 3)\n    [7] a\n    [12] b c\n", list.to_string());
}

#[test]
fn empty_list_text_is_its_header() {
    let list = List { id: 1234567890, board_id: 1, name: "".to_string(), cards: vec![] };

    assert_eq!("List:  (id: 1234567890)\n", list.to_string());
}

#[test]
fn card_line_renders_large_ids() {
    let card = Card { id: u64::MAX, list_id: 0, title: "x".to_string(), description: None, sort_order: None };

    assert_eq!("    [18446744073709551615] x", card.to_string());
}

#[test]
fn renamed_list_keeps_id_and_name_only() {
    let list = List::renamed(5, "New".to_string());

    assert_eq!(5, list.id);
    assert_eq!(0, list.board_id);
    assert_eq!("New", list.name);
    assert!(list.cards.is_empty());
}
