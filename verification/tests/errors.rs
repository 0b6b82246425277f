use kanban::errors::KanbanError;

fn assert_message(error: KanbanError, expected: &str) {
    assert_eq!(error.to_string(), expected.to_string());
}

#[test]
fn board_not_found_message() {
    assert_message(KanbanError::BoardNotFound(67), "Board with ID (67) was not found.");
}

#[test]
fn list_not_found_message() {
    assert_message(KanbanError::ListNotFound(67), "List with ID (67) was not found.");
}

#[test]
fn card_not_found_message() {
    assert_message(KanbanError::CardNotFound(67), "Card with ID (67) was not found.");
}

#[test]
fn serialization_error_message() {
    assert_message(
        KanbanError::SerializationError("Something totally went wrong.".to_string()),
        "There was an error during serialization: Something totally went wrong.",
    );
}

#[test]
fn io_error_message() {
    assert_message(
        KanbanError::IoError("I can't even read this thing.".to_string()),
        "There was an IO error: I can't even read this thing.",
    );
}

#[test]
fn database_error_message() {
    assert_message(
        KanbanError::DatabaseError("Tables be locked yo.".to_string()),
        "There was a database error: Tables be locked yo.",
    );
}

#[test]
fn template_error_message() {
    assert_message(
        KanbanError::TemplateError("Template is totally messed up man.".to_string()),
        "There was a templating error: Template is totally messed up man.",
    );
}

#[test]
fn request_error_message() {
    assert_message(
        KanbanError::RequestError("We don't even speak that language.".to_string()),
        "There was a request error: We don't even speak that language.",
    );
}

#[test]
fn not_found_errors_answer_404() {
    assert_eq!(404, KanbanError::BoardNotFound(67).status_code());
    assert_eq!(404, KanbanError::ListNotFound(67).status_code());
    assert_eq!(404, KanbanError::CardNotFound(67).status_code());
}

#[test]
fn input_errors_answer_400() {
    assert_eq!(400, KanbanError::SerializationError("Couldn't serialize.".to_string()).status_code());
    assert_eq!(400, KanbanError::RequestError("I'm not ready to receive you.".to_string()).status_code());
}

#[test]
fn server_errors_answer_500() {
    assert_eq!(500, KanbanError::IoError("Couldn't read the file.".to_string()).status_code());
    assert_eq!(500, KanbanError::DatabaseError("Tables be locked yo.".to_string()).status_code());
    assert_eq!(500, KanbanError::TemplateError("I'm not even supposed to be here today.".to_string()).status_code());
}

#[test]
fn zero_id_message() {
    assert_message(KanbanError::CardNotFound(0), "Card with ID (0) was not found.");
}
