use kanban::access::{bearer_authorized, check_csrf, check_csrf_form, database_url, form_value, get_database_id, seeds_sample_data};
use kanban::csrf::{generate_secret, mask};
use kanban::errors::KanbanError;
use sha2::Digest;

#[test]
fn bearer_token_grants_access() {
    assert!(bearer_authorized(Some("Bearer super-secret")));
}

#[test]
fn missing_or_wrong_bearer_token_is_refused() {
    assert!(!bearer_authorized(None));
    assert!(!bearer_authorized(Some("super-secret")));
    assert!(!bearer_authorized(Some("Bearer super-secret ")));
    assert!(!bearer_authorized(Some("bearer super-secret")));
    assert!(!bearer_authorized(Some("Bearer other")));
}

#[test]
fn form_value_finds_first_field() {
    let body = b"a=1&csrf_token=first&csrf_token=second";

    assert_eq!(Some("first".to_string()), form_value(body, "csrf_token"));
    assert_eq!(Some("1".to_string()), form_value(body, "a"));
    assert_eq!(None, form_value(body, "b"));
}

#[test]
fn form_value_decodes_url_encoding() {
    let body = b"name=New+list%21&x";

    assert_eq!(Some("New list!".to_string()), form_value(body, "name"));
    assert_eq!(Some("".to_string()), form_value(body, "x"));
}

#[test]
fn posted_form_with_valid_token_passes() {
    let secret = generate_secret();
    let body = format!("name=x&csrf_token={}", mask(&secret));

    assert_eq!(Ok(()), check_csrf_form(body.as_bytes(), &secret));
}

#[test]
fn posted_form_without_token_is_refused() {
    let secret = generate_secret();

    assert_eq!(
        Err(KanbanError::RequestError("No CSRF token found.".to_string())),
        check_csrf_form(b"name=x", &secret)
    );
}

#[test]
fn posted_form_with_token_of_other_secret_is_refused() {
    let body = format!("csrf_token={}", mask(&generate_secret()));

    assert_eq!(
        Err(KanbanError::RequestError("No CSRF token found.".to_string())),
        check_csrf_form(body.as_bytes(), &generate_secret())
    );
}

#[test]
fn database_id_is_debug_hex_of_digest() {
    let id = get_database_id(-1000, "dev".to_string());

    assert_eq!(
        "[8d, ea, 35, dc, bf, 3c, f3, e8, 86, 14, 11, f8, d8, a4, 13, c7, d4, 3c, d4, e1, 7f, ce, d6, a, c3, 8, 85, f2, 76, 98, bb, 27]",
        id
    );
}

#[test]
fn database_id_matches_streamed_digest_rendering() {
    let mut hasher = sha2::Sha256::new();
    hasher.update(1i64.to_string().as_bytes());
    hasher.update("github".as_bytes());
    let expected = format!("{:x?}", hasher.finalize());

    assert_eq!(expected, get_database_id(1, "github".to_string()));
}

#[test]
fn database_id_depends_on_source() {
    assert_ne!(get_database_id(5, "dev".to_string()), get_database_id(5, "github".to_string()));
    assert_eq!(get_database_id(i64::MIN, "dev".to_string()), get_database_id(i64::MIN, "dev".to_string()));
}

#[test]
fn database_url_places_file_in_databases_folder() {
    assert_eq!("sqlite:./databases/abc.kanban.db", database_url("abc"));
}

#[test]
fn only_dev_databases_are_seeded() {
    assert!(seeds_sample_data("dev"));
    assert!(seeds_sample_data("dev-123"));
    assert!(!seeds_sample_data("de"));
    assert!(!seeds_sample_data("[8d, ea]"));
    assert!(!seeds_sample_data("Dev"));
}

#[test]
fn header_token_is_accepted_for_json_posts() {
    let secret = generate_secret();
    let token = mask(&secret);

    assert_eq!(Ok(()), check_csrf(Some(&token), br#"{"card_ids":[1,2]}"#, &secret));
}

#[test]
fn form_token_is_accepted_without_header() {
    let secret = generate_secret();
    let body = format!("csrf_token={}", mask(&secret));

    assert_eq!(Ok(()), check_csrf(None, body.as_bytes(), &secret));
}

#[test]
fn wrong_header_token_falls_back_to_form_token() {
    let secret = generate_secret();
    let body = format!("csrf_token={}", mask(&secret));

    assert_eq!(Ok(()), check_csrf(Some("00:00"), body.as_bytes(), &secret));
}

#[test]
fn missing_or_wrong_tokens_everywhere_are_refused() {
    let secret = generate_secret();
    let other = mask(&generate_secret());

    assert_eq!(
        Err(KanbanError::RequestError("No CSRF token found.".to_string())),
        check_csrf(None, b"{}", &secret)
    );
    assert_eq!(
        Err(KanbanError::RequestError("No CSRF token found.".to_string())),
        check_csrf(Some(&other), b"name=x", &secret)
    );
}

#[test]
fn distinct_users_get_distinct_databases() {
    let ids = [
        get_database_id(1, "dev".to_string()),
        get_database_id(1, "github".to_string()),
        get_database_id(-1, "dev".to_string()),
        get_database_id(10, "dev".to_string()),
    ];

    for i in 0..ids.len() {
        for j in 0..ids.len() {
            assert_eq!(i == j, ids[i] == ids[j]);
        }
    }
}
