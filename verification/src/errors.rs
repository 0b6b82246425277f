//! The errors that the application reports, their messages and the HTTP
//! status that each one is answered with.

use vstd::prelude::*;
use vstd::string::*;
use crate::text::{
    decimal, is_numeral, lemma_decimal_is_numeral, lemma_framed_decimal_injective, numeral_value,
    u64_to_decimal,
};

verus! {

/// What went wrong while serving a request.
#[derive(Debug, PartialEq, Clone)]
pub enum KanbanError {
    BoardNotFound(u64),
    ListNotFound(u64),
    CardNotFound(u64),
    SerializationError(String),
    IoError(String),
    DatabaseError(String),
    TemplateError(String),
    RequestError(String),
}

/// HTTP 400.
pub const BAD_REQUEST: u16 = 400;

/// HTTP 404.
pub const NOT_FOUND: u16 = 404;

/// HTTP 500.
pub const INTERNAL_SERVER_ERROR: u16 = 500;

impl KanbanError {
    /// The message that describes the error to the user.
    pub open spec fn message(&self) -> Seq<char> {
        match self {
            KanbanError::BoardNotFound(id) => "Board with ID ("@ + decimal(*id as nat) + ") was not found."@,
            KanbanError::ListNotFound(id) => "List with ID ("@ + decimal(*id as nat) + ") was not found."@,
            KanbanError::CardNotFound(id) => "Card with ID ("@ + decimal(*id as nat) + ") was not found."@,
            KanbanError::SerializationError(e) => "There was an error during serialization: "@ + e@,
            KanbanError::IoError(e) => "There was an IO error: "@ + e@,
            KanbanError::DatabaseError(e) => "There was a database error: "@ + e@,
            KanbanError::TemplateError(e) => "There was a templating error: "@ + e@,
            KanbanError::RequestError(e) => "There was a request error: "@ + e@,
        }
    }

    /// The HTTP status that answers the error: missing items are not found,
    /// bad input is a bad request, everything else a server error.
    pub open spec fn status(&self) -> u16 {
        match self {
            KanbanError::BoardNotFound(_) => NOT_FOUND,
            KanbanError::ListNotFound(_) => NOT_FOUND,
            KanbanError::CardNotFound(_) => NOT_FOUND,
            KanbanError::SerializationError(_) => BAD_REQUEST,
            KanbanError::IoError(_) => INTERNAL_SERVER_ERROR,
            KanbanError::DatabaseError(_) => INTERNAL_SERVER_ERROR,
            KanbanError::TemplateError(_) => INTERNAL_SERVER_ERROR,
            KanbanError::RequestError(_) => BAD_REQUEST,
        }
    }

    /// The message that describes the error to the user.
    pub fn to_string(&self) -> (text: String)
        ensures
            text@ == self.message(),
    {
        match self {
            KanbanError::BoardNotFound(id) => {
                let digits = u64_to_decimal(*id);
                String::from_str("Board with ID (").concat(digits.as_str()).concat(") was not found.")
            },
            KanbanError::ListNotFound(id) => {
                let digits = u64_to_decimal(*id);
                String::from_str("List with ID (").concat(digits.as_str()).concat(") was not found.")
            },
            KanbanError::CardNotFound(id) => {
                let digits = u64_to_decimal(*id);
                String::from_str("Card with ID (").concat(digits.as_str()).concat(") was not found.")
            },
            KanbanError::SerializationError(e) => {
                String::from_str("There was an error during serialization: ").concat(e.as_str())
            },
            KanbanError::IoError(e) => String::from_str("There was an IO error: ").concat(e.as_str()),
            KanbanError::DatabaseError(e) => {
                String::from_str("There was a database error: ").concat(e.as_str())
            },
            KanbanError::TemplateError(e) => {
                String::from_str("There was a templating error: ").concat(e.as_str())
            },
            KanbanError::RequestError(e) => {
                String::from_str("There was a request error: ").concat(e.as_str())
            },
        }
    }

    /// The HTTP status that answers the error.
    pub fn status_code(&self) -> (code: u16)
        ensures
            code == self.status(),
    {
        match self {
            KanbanError::BoardNotFound(_) => NOT_FOUND,
            KanbanError::ListNotFound(_) => NOT_FOUND,
            KanbanError::CardNotFound(_) => NOT_FOUND,
            KanbanError::SerializationError(_) => BAD_REQUEST,
            KanbanError::IoError(_) => INTERNAL_SERVER_ERROR,
            KanbanError::DatabaseError(_) => INTERNAL_SERVER_ERROR,
            KanbanError::TemplateError(_) => INTERNAL_SERVER_ERROR,
            KanbanError::RequestError(_) => BAD_REQUEST,
        }
    }
}

/// A missing board, list or card is answered "not found", whatever its id.
pub proof fn lemma_not_found_status(id: u64)
    ensures
        KanbanError::BoardNotFound(id).status() == 404,
        KanbanError::ListNotFound(id).status() == 404,
        KanbanError::CardNotFound(id).status() == 404,
{
}

/// The status of an error depends on its kind alone, never on the id or
/// the text it carries: bad input is 400, failures of the server are 500.
pub proof fn lemma_status_by_kind(a: KanbanError, b: KanbanError)
    ensures
        (a is BoardNotFound || a is ListNotFound || a is CardNotFound) ==> a.status() == 404,
        (a is SerializationError || a is RequestError) ==> a.status() == 400,
        (a is IoError || a is DatabaseError || a is TemplateError) ==> a.status() == 500,
        (a is BoardNotFound && b is BoardNotFound) || (a is ListNotFound && b is ListNotFound) || (
        a is CardNotFound && b is CardNotFound) || (a is SerializationError && b is SerializationError)
            || (a is IoError && b is IoError) || (a is DatabaseError && b is DatabaseError) || (
        a is TemplateError && b is TemplateError) || (a is RequestError && b is RequestError)
            ==> a.status() == b.status(),
{
}

/// The message of a missing board, list or card names its id by the
/// canonical numeral of the id.
pub proof fn lemma_not_found_message_names_id(id: u64)
    ensures
        exists|n: Seq<char>|
            #![trigger numeral_value(n)]
            is_numeral(n) && numeral_value(n) == id && KanbanError::BoardNotFound(id).message()
                == "Board with ID ("@ + n + ") was not found."@,
        exists|n: Seq<char>|
            #![trigger numeral_value(n)]
            is_numeral(n) && numeral_value(n) == id && KanbanError::ListNotFound(id).message()
                == "List with ID ("@ + n + ") was not found."@,
        exists|n: Seq<char>|
            #![trigger numeral_value(n)]
            is_numeral(n) && numeral_value(n) == id && KanbanError::CardNotFound(id).message()
                == "Card with ID ("@ + n + ") was not found."@,
{
    lemma_decimal_is_numeral(id as nat);
    let n = decimal(id as nat);
    assert(numeral_value(n) == id);
}

/// Missing items with different ids are reported with different messages.
pub proof fn lemma_not_found_message_distinct(a: u64, b: u64)
    requires
        KanbanError::BoardNotFound(a).message() == KanbanError::BoardNotFound(b).message()
            || KanbanError::ListNotFound(a).message() == KanbanError::ListNotFound(b).message()
            || KanbanError::CardNotFound(a).message() == KanbanError::CardNotFound(b).message(),
    ensures
        a == b,
{
    if KanbanError::BoardNotFound(a).message() == KanbanError::BoardNotFound(b).message() {
        lemma_framed_decimal_injective("Board with ID ("@, ") was not found."@, a as nat, b as nat);
    } else if KanbanError::ListNotFound(a).message() == KanbanError::ListNotFound(b).message() {
        lemma_framed_decimal_injective("List with ID ("@, ") was not found."@, a as nat, b as nat);
    } else {
        lemma_framed_decimal_injective("Card with ID ("@, ") was not found."@, a as nat, b as nat);
    }
}

} // verus!
