use archivist::authenticate::Authenticator;

#[test]
fn secret_is_the_pinned_text_without_the_command() {
    let auth = Authenticator::new();
    assert_eq!(auth.get_auth(Some("/auth s3cret")), Some("s3cret".to_string()));
    assert_eq!(auth.get_auth(Some("s3cret")), Some("s3cret".to_string()));
    assert_eq!(auth.get_auth(Some("/auth")), Some("/auth".to_string()));
    assert_eq!(auth.get_auth(Some("")), Some("".to_string()));
}

#[test]
fn chat_without_pinned_text_has_no_secret() {
    assert_eq!(Authenticator::new().get_auth(None), None);
}

#[test]
fn auth_command_opens_the_message() {
    let auth = Authenticator::new();
    assert!(auth.is_auth_command("/auth s3cret"));
    assert!(auth.is_auth_command("/auth"));
    assert!(!auth.is_auth_command(" /auth x"));
    assert!(!auth.is_auth_command("hello"));
    assert!(!auth.is_auth_command(""));
}
