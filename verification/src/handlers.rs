//! What the request handlers decide between reading and writing: the records
//! that requests carry, the outcome of each write and where the browser goes
//! next.

use vstd::prelude::*;
use vstd::string::*;
use crate::errors::KanbanError;
use crate::models::{Card, CardMoveEvent, CardSortUpdate};
use crate::text::{
    decimal, i64_to_decimal, is_numeral, lemma_decimal_is_numeral, lemma_framed_decimal_injective,
    lemma_signed_decimal_is_numeral, numeral_value, signed_decimal, u64_to_decimal,
};
use crate::validation::FormErrors;

verus! {

/// The body of a request that adds a list to a board.
#[derive(Debug, Clone)]
pub struct CreateListRequest {
    pub name: String,
}

/// The body of a request that adds a card to a list.
#[derive(Debug, Clone)]
pub struct CreateCardRequest {
    pub title: String,
    pub description: Option<String>,
}

/// The query of a card search by title.
#[derive(Debug, Clone)]
pub struct SearchQuery {
    pub keyword: String,
}

/// The form that creates a board.
#[derive(Debug, Clone)]
pub struct CreateBoardRequest {
    pub name: String,
}

/// The form that renames a board; it names the board again.
#[derive(Debug, Clone)]
pub struct BoardRename {
    pub id: u64,
    pub name: String,
}

/// The form that renames a list.
#[derive(Debug, Clone)]
pub struct ListRename {
    pub name: String,
}

/// What a live board is told.
#[derive(Debug, Clone)]
pub enum SocketEvents {
    CardMoved(CardMoveEvent),
    ListsSorted(CardSortUpdate),
}

/// The form that adds a board or a list, with the messages and the input of
/// a failed attempt.
#[derive(Debug)]
pub struct NewContainerFormTemplate<T> {
    pub sub_id: String,
    pub action: String,
    pub place_holder: String,
    pub button_sub_label: String,
    pub errors: Option<FormErrors>,
    pub request: Option<T>,
}

impl<T> NewContainerFormTemplate<T> {
    /// The empty form that adds a board.
    pub fn board_form() -> (form: Self)
        ensures
            form.sub_id@ == "board"@,
            form.action@ == "/boards"@,
            form.place_holder@ == "New board&hellip;"@,
            form.button_sub_label@ == "Board"@,
            form.errors is None,
            form.request is None,
    {
        NewContainerFormTemplate {
            sub_id: String::from_str("board"),
            action: String::from_str("/boards"),
            place_holder: String::from_str("New board&hellip;"),
            button_sub_label: String::from_str("Board"),
            errors: None,
            request: None,
        }
    }

    /// The form that adds a board, shown again with what went wrong.
    pub fn board_form_with_errors(errors: FormErrors, request: T) -> (form: Self)
        ensures
            form.sub_id@ == "board"@,
            form.action@ == "/boards"@,
            form.place_holder@ == ""@,
            form.button_sub_label@ == "Board"@,
            form.errors == Some(errors),
            form.request == Some(request),
    {
        NewContainerFormTemplate {
            sub_id: String::from_str("board"),
            action: String::from_str("/boards"),
            place_holder: String::from_str(""),
            button_sub_label: String::from_str("Board"),
            errors: Some(errors),
            request: Some(request),
        }
    }

    /// The empty form that adds a list to the board `board_id`.
    pub fn list_form(board_id: u64) -> (form: Self)
        ensures
            form.sub_id@ == "list"@,
            form.action@ == lists_path(board_id),
            form.place_holder@ == "New list&hellip;"@,
            form.button_sub_label@ == "List"@,
            form.errors is None,
            form.request is None,
    {
        NewContainerFormTemplate {
            sub_id: String::from_str("list"),
            action: lists_action(board_id),
            place_holder: String::from_str("New list&hellip;"),
            button_sub_label: String::from_str("List"),
            errors: None,
            request: None,
        }
    }

    /// The form that adds a list to the board `board_id`, shown again with
    /// what went wrong.
    pub fn list_form_with_errors(board_id: u64, errors: FormErrors, request: T) -> (form: Self)
        ensures
            form.sub_id@ == "list"@,
            form.action@ == lists_path(board_id),
            form.place_holder@ == ""@,
            form.button_sub_label@ == "List"@,
            form.errors == Some(errors),
            form.request == Some(request),
    {
        NewContainerFormTemplate {
            sub_id: String::from_str("list"),
            action: lists_action(board_id),
            place_holder: String::from_str(""),
            button_sub_label: String::from_str("List"),
            errors: Some(errors),
            request: Some(request),
        }
    }
}

/// The path that lists of the board `board_id` are posted to.
pub open spec fn lists_path(board_id: u64) -> Seq<char> {
    "/boards/"@ + decimal(board_id as nat) + "/lists"@
}

fn lists_action(board_id: u64) -> (path: String)
    ensures
        path@ == lists_path(board_id),
{
    let digits = u64_to_decimal(board_id);
    String::from_str("/boards/").concat(digits.as_str()).concat("/lists")
}

impl Card {
    /// The card that a create request made, once stored under `card_id`;
    /// new cards have no place among their siblings yet.
    pub fn created(card_id: u64, list_id: u64, request: CreateCardRequest) -> (card: Card)
        ensures
            card.id == card_id,
            card.list_id == list_id,
            card.title == request.title,
            card.description == request.description,
            card.sort_order is None,
    {
        Card {
            id: card_id,
            list_id,
            title: request.title,
            description: request.description,
            sort_order: None,
        }
    }
}

/// The `LIKE` pattern that matches titles containing `keyword`.
pub fn title_search_pattern(keyword: &str) -> (pattern: String)
    ensures
        pattern@ == "%"@ + keyword@ + "%"@,
{
    String::from_str("%").concat(keyword).concat("%")
}

/// A card update must change exactly one row.
pub fn card_update_outcome(rows_affected: u64) -> (res: Result<(), KanbanError>)
    ensures
        rows_affected == 1 <==> res is Ok,
        res matches Err(e) ==> e matches KanbanError::DatabaseError(m) && m@
            == "Update failed. Refresh and try again."@,
{
    if rows_affected != 1 {
        return Err(KanbanError::DatabaseError(String::from_str("Update failed. Refresh and try again.")));
    }
    Ok(())
}

/// The message of a rename whose form names another board than its path.
pub open spec fn ambiguous_board_message(path_id: u64, form_id: u64) -> Seq<char> {
    "Ambiguous board specified, path says `"@ + decimal(path_id as nat) + "` and the form says `"@
        + decimal(form_id as nat) + "`"@
}

/// A board rename must name the same board in its path and its form.
pub fn board_rename_target(path_id: u64, form_id: u64) -> (res: Result<(), KanbanError>)
    ensures
        path_id == form_id <==> res is Ok,
        res matches Err(e) ==> e matches KanbanError::RequestError(m) && m@ == ambiguous_board_message(
            path_id,
            form_id,
        ),
{
    if path_id != form_id {
        let p = u64_to_decimal(path_id);
        let f = u64_to_decimal(form_id);
        let message = String::from_str("Ambiguous board specified, path says `").concat(p.as_str()).concat(
            "` and the form says `",
        ).concat(f.as_str()).concat("`");
        return Err(KanbanError::RequestError(message));
    }
    Ok(())
}

/// Where a renamed board's header is shown again.
pub open spec fn board_header_path(board_id: u64) -> Seq<char> {
    "/boards/"@ + decimal(board_id as nat) + "/header"@
}

/// After a board rename: the header to show, or a database error when no
/// single row changed.
pub fn board_rename_outcome(board_id: u64, rows_affected: u64) -> (res: Result<String, KanbanError>)
    ensures
        match res {
            Ok(location) => rows_affected == 1 && location@ == board_header_path(board_id),
            Err(e) => rows_affected != 1 && (e matches KanbanError::DatabaseError(m) && m@
                == "Update failed please try again."@),
        },
{
    if rows_affected != 1 {
        return Err(KanbanError::DatabaseError(String::from_str("Update failed please try again.")));
    }
    let digits = u64_to_decimal(board_id);
    Ok(String::from_str("/boards/").concat(digits.as_str()).concat("/header"))
}

/// After a board delete: back to the landing page, or not found when no
/// single row went.
pub fn board_delete_outcome(board_id: u64, rows_affected: u64) -> (res: Result<String, KanbanError>)
    ensures
        match res {
            Ok(location) => rows_affected == 1 && location@ == "/"@,
            Err(e) => rows_affected != 1 && e == KanbanError::BoardNotFound(board_id),
        },
{
    if rows_affected != 1 {
        return Err(KanbanError::BoardNotFound(board_id));
    }
    Ok(String::from_str("/"))
}

/// Where a renamed list's header is shown again.
pub open spec fn list_header_path(list_id: u64) -> Seq<char> {
    "/lists/"@ + decimal(list_id as nat) + "/header"@
}

/// After a list rename: the header to show, or a database error when no
/// single row changed.
pub fn list_rename_outcome(list_id: u64, rows_affected: u64) -> (res: Result<String, KanbanError>)
    ensures
        match res {
            Ok(location) => rows_affected == 1 && location@ == list_header_path(list_id),
            Err(e) => rows_affected != 1 && (e matches KanbanError::DatabaseError(m) && m@
                == "Update failed please try again."@),
        },
{
    if rows_affected != 1 {
        return Err(KanbanError::DatabaseError(String::from_str("Update failed please try again.")));
    }
    let digits = u64_to_decimal(list_id);
    Ok(String::from_str("/lists/").concat(digits.as_str()).concat("/header"))
}

/// Where an edited card is shown.
pub fn card_view_location(card_id: i64) -> (location: String)
    ensures
        location@ == "/cards/"@ + signed_decimal(card_id as int) + "/view"@,
{
    let digits = i64_to_decimal(card_id);
    String::from_str("/cards/").concat(digits.as_str()).concat("/view")
}

/// Where the API serves a card.
pub fn api_card_location(card_id: u64) -> (location: String)
    ensures
        location@ == "/api/cards/"@ + decimal(card_id as nat),
{
    let digits = u64_to_decimal(card_id);
    String::from_str("/api/cards/").concat(digits.as_str())
}

/// The message of an ambiguous rename names the path's board and then the
/// form's board, each by the canonical numeral of its id.
pub proof fn lemma_ambiguous_board_message_names_both(path_id: u64, form_id: u64)
    ensures
        exists|p: Seq<char>, f: Seq<char>|
            #![trigger numeral_value(p), numeral_value(f)]
            is_numeral(p) && numeral_value(p) == path_id && is_numeral(f) && numeral_value(f) == form_id
                && ambiguous_board_message(path_id, form_id) == "Ambiguous board specified, path says `"@
                + p + "` and the form says `"@ + f + "`"@,
{
    lemma_decimal_is_numeral(path_id as nat);
    lemma_decimal_is_numeral(form_id as nat);
    let p = decimal(path_id as nat);
    let f = decimal(form_id as nat);
    assert(numeral_value(p) == path_id && numeral_value(f) == form_id);
}

/// Where an edited card is shown names the card by its id: a canonical
/// numeral, after a `-` exactly when the id is negative.
pub proof fn lemma_card_view_location_names_card(card_id: i64)
    ensures
        card_id >= 0 ==> is_numeral(signed_decimal(card_id as int)) && numeral_value(
            signed_decimal(card_id as int),
        ) == card_id,
        card_id < 0 ==> signed_decimal(card_id as int)[0] == '-' && is_numeral(
            signed_decimal(card_id as int).drop_first(),
        ) && numeral_value(signed_decimal(card_id as int).drop_first()) == -card_id,
{
    lemma_signed_decimal_is_numeral(card_id as int);
}

/// The new-list form of a board posts to `/boards/{n}/lists`, where `n` is
/// the canonical numeral of that board's id.
pub proof fn lemma_lists_path_names_board(board_id: u64)
    ensures
        exists|n: Seq<char>|
            #![trigger numeral_value(n)]
            is_numeral(n) && numeral_value(n) == board_id && lists_path(board_id) == "/boards/"@ + n
                + "/lists"@,
{
    lemma_decimal_is_numeral(board_id as nat);
    let n = decimal(board_id as nat);
    assert(numeral_value(n) == board_id);
}

/// The new-list forms of different boards post to different paths.
pub proof fn lemma_lists_path_distinct(a: u64, b: u64)
    requires
        lists_path(a) == lists_path(b),
    ensures
        a == b,
{
    lemma_framed_decimal_injective("/boards/"@, "/lists"@, a as nat, b as nat);
}

/// A renamed board's header is shown at `/boards/{n}/header`, where `n` is
/// the canonical numeral of that board's id.
pub proof fn lemma_board_header_path_names_board(board_id: u64)
    ensures
        exists|n: Seq<char>|
            #![trigger numeral_value(n)]
            is_numeral(n) && numeral_value(n) == board_id && board_header_path(board_id) == "/boards/"@
                + n + "/header"@,
{
    lemma_decimal_is_numeral(board_id as nat);
    let n = decimal(board_id as nat);
    assert(numeral_value(n) == board_id);
}

/// Different boards have their headers at different paths.
pub proof fn lemma_board_header_path_distinct(a: u64, b: u64)
    requires
        board_header_path(a) == board_header_path(b),
    ensures
        a == b,
{
    lemma_framed_decimal_injective("/boards/"@, "/header"@, a as nat, b as nat);
}

/// A renamed list's header is shown at `/lists/{n}/header`, where `n` is the
/// canonical numeral of that list's id.
pub proof fn lemma_list_header_path_names_list(list_id: u64)
    ensures
        exists|n: Seq<char>|
            #![trigger numeral_value(n)]
            is_numeral(n) && numeral_value(n) == list_id && list_header_path(list_id) == "/lists/"@ + n
                + "/header"@,
{
    lemma_decimal_is_numeral(list_id as nat);
    let n = decimal(list_id as nat);
    assert(numeral_value(n) == list_id);
}

/// Different lists have their headers at different paths.
pub proof fn lemma_list_header_path_distinct(a: u64, b: u64)
    requires
        list_header_path(a) == list_header_path(b),
    ensures
        a == b,
{
    lemma_framed_decimal_injective("/lists/"@, "/header"@, a as nat, b as nat);
}

} // verus!
