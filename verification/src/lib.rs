//! Verified core of a kanban board web application: board, list and card
//! models, error reporting, CSRF token masking, form validation reports and the
//! request decisions that the HTTP layer delegates to.

pub mod text;
pub mod csrf;
pub mod errors;
pub mod models;
pub mod validation;
pub mod security;
pub mod access;
pub mod turbo;
pub mod handlers;
