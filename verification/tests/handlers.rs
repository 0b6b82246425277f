use kanban::errors::KanbanError;
use kanban::handlers::{
    api_card_location, board_delete_outcome, board_rename_outcome, board_rename_target,
    card_update_outcome, card_view_location, list_rename_outcome, title_search_pattern,
    CreateBoardRequest, CreateCardRequest, CreateListRequest, NewContainerFormTemplate,
};
use kanban::models::{Board, Card, List};
use kanban::turbo::{TurboStream, TURBO_STREAM_CONTENT_TYPE};
use kanban::validation::FormErrors;

#[test]
fn created_card_carries_request_fields() {
    let request = CreateCardRequest {
        title: "This is a new card.".to_string(),
        description: Some("This is a new description.".to_string()),
    };

    let card = Card::created(19, 1, request);

    assert_eq!(19, card.id);
    assert_eq!(1, card.list_id);
    assert_eq!("This is a new card.", card.title);
    assert_eq!("This is a new description.", card.description.unwrap());
    assert!(card.sort_order.is_none());
}

#[test]
fn card_update_must_touch_one_row() {
    assert_eq!(Ok(()), card_update_outcome(1));
    assert_eq!(
        Err(KanbanError::DatabaseError("Update failed. Refresh and try again.".to_string())),
        card_update_outcome(0)
    );
    assert!(card_update_outcome(2).is_err());
}

#[test]
fn post_board_rename_request_error_if_path_and_form_ref_different_boards() {
    let result = board_rename_target(1, 1000).unwrap_err();

    assert_eq!(
        KanbanError::RequestError("Ambiguous board specified, path says `1` and the form says `1000`".to_string()),
        result
    );
    assert_eq!(Ok(()), board_rename_target(7, 7));
}

#[test]
fn post_board_rename_database_error_if_board_doesnt_exist() {
    assert_eq!(
        Err(KanbanError::DatabaseError("Update failed please try again.".to_string())),
        board_rename_outcome(1000, 0)
    );
}

#[test]
fn board_rename_shows_header() {
    assert_eq!(Ok("/boards/1/header".to_string()), board_rename_outcome(1, 1));
}

#[test]
fn post_board_delete_board_not_found_error_if_board_doesnt_exist() {
    assert_eq!(Err(KanbanError::BoardNotFound(1000)), board_delete_outcome(1000, 0));
    assert_eq!(Ok("/".to_string()), board_delete_outcome(1, 1));
}

#[test]
fn list_rename_outcomes() {
    assert_eq!(Ok("/lists/1/header".to_string()), list_rename_outcome(1, 1));
    assert_eq!(
        Err(KanbanError::DatabaseError("Update failed please try again.".to_string())),
        list_rename_outcome(1000, 0)
    );
}

#[test]
fn redirect_locations() {
    assert_eq!("/cards/1/view", card_view_location(1));
    assert_eq!("/cards/-3/view", card_view_location(-3));
    assert_eq!("/api/cards/1", api_card_location(1));
}

#[test]
fn search_pattern_wraps_keyword() {
    assert_eq!("%Card 1%", title_search_pattern("Card 1"));
    assert_eq!("%%", title_search_pattern(""));
}

#[test]
fn board_forms() {
    let form: NewContainerFormTemplate<Board> = NewContainerFormTemplate::board_form();
    assert_eq!("board", form.sub_id);
    assert_eq!("/boards", form.action);
    assert_eq!("New board&hellip;", form.place_holder);
    assert_eq!("Board", form.button_sub_label);
    assert!(form.errors.is_none());
    assert!(form.request.is_none());

    let request = CreateBoardRequest { name: "x".to_string() };
    let failed = NewContainerFormTemplate::board_form_with_errors(FormErrors::default(), request);
    assert_eq!("", failed.place_holder);
    assert_eq!("x", failed.request.unwrap().name);
    assert!(failed.errors.is_some());
}

#[test]
fn list_forms() {
    let form: NewContainerFormTemplate<List> = NewContainerFormTemplate::list_form(12);
    assert_eq!("list", form.sub_id);
    assert_eq!("/boards/12/lists", form.action);
    assert_eq!("New list&hellip;", form.place_holder);
    assert_eq!("List", form.button_sub_label);

    let failed = NewContainerFormTemplate::list_form_with_errors(
        3,
        FormErrors::default(),
        CreateListRequest { name: "".to_string() },
    );
    assert_eq!("/boards/3/lists", failed.action);
    assert_eq!("", failed.place_holder);
}

#[test]
fn post_list_delete_deletes_the_list() {
    assert_eq!(
        "<turbo-stream action=\"remove\" target=\"list-1\"></turbo-stream>",
        TurboStream::remove_list(1).0
    );
}

#[test]
fn delete_card_form_removes_the_card() {
    assert_eq!(
        "<turbo-stream action=\"remove\" target=\"card-10000\"></turbo-stream>",
        TurboStream::remove_card(10000).0
    );
}

#[test]
fn turbo_stream_content_type() {
    assert_eq!("text/vnd.turbo-stream.html", TURBO_STREAM_CONTENT_TYPE);
}
