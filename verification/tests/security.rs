use kanban::errors::KanbanError;
use kanban::models::User;
use kanban::security::{bearer_header, check_oauth_state, require_pkce_verifier, AuthDevForm, AuthSources, GitHubUser, LoggedInUser};

#[test]
fn auth_source_names() {
    assert_eq!("github", AuthSources::GITHUB);
    assert_eq!("dev", AuthSources::DEV);
}

#[test]
fn github_user_signs_in_with_login_as_name() {
    let user = LoggedInUser::from_github_user(GitHubUser { id: 42, login: "octo".to_string() });

    assert_eq!(42, user.id);
    assert_eq!("octo", user.name);
    assert_eq!("github", user.source);
}

#[test]
fn github_user_is_stored_without_profile_details() {
    let user = User::from_github_user(GitHubUser { id: 42, login: "octo".to_string() });

    assert_eq!(42, user.user_id);
    assert_eq!("github", user.source);
    assert_eq!("octo", user.oauth_login);
    assert!(user.display_name.is_none());
    assert!(user.avatar_url.is_none());
}

#[test]
fn dev_form_user_login_carries_the_id() {
    let form = AuthDevForm { id: -1000, name: "your face".to_string() };

    let stored = User::from_dev_form(form.clone());
    let logged_in = LoggedInUser::from_dev_form(form);

    assert_eq!(-1000, stored.user_id);
    assert_eq!("dev", stored.source);
    assert_eq!("dev---1000", stored.oauth_login);
    assert!(stored.display_name.is_none());
    assert!(stored.avatar_url.is_none());
    assert_eq!(-1000, logged_in.id);
    assert_eq!("your face", logged_in.name);
    assert_eq!("dev", logged_in.source);
}

#[test]
fn dev_form_login_of_extreme_ids() {
    let min = User::from_dev_form(AuthDevForm { id: i64::MIN, name: String::new() });
    let max = User::from_dev_form(AuthDevForm { id: i64::MAX, name: String::new() });

    assert_eq!("dev---9223372036854775808", min.oauth_login);
    assert_eq!("dev--9223372036854775807", max.oauth_login);
}

#[test]
fn oauth_state_must_match_the_stored_one() {
    assert_eq!(Ok(()), check_oauth_state(Some("abc".to_string()), "abc"));
    assert_eq!(
        Err(KanbanError::RequestError("CSRF token mismatch.".to_string())),
        check_oauth_state(Some("abc".to_string()), "abd")
    );
    assert_eq!(
        Err(KanbanError::RequestError("Missing CSRF token.".to_string())),
        check_oauth_state(None, "abc")
    );
}

#[test]
fn bearer_header_presents_token() {
    assert_eq!("Bearer gho_123", bearer_header("gho_123"));
}

#[test]
fn pkce_verifier_must_be_stored() {
    assert_eq!(Ok("verifier".to_string()), require_pkce_verifier(Some("verifier".to_string())));
    assert_eq!(
        Err(KanbanError::RequestError("Missing PKCE verifier.".to_string())),
        require_pkce_verifier(None)
    );
}
