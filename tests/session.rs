use idlemmo::error::AppError;
use idlemmo::models::Character;
use idlemmo::session::{
    account_name_from_url, account_stays, auth_headers, character_switch_url, cookie_header, login_form, session_tokens,
    switch_form,
};

#[test]
fn account_name_is_the_last_piece_without_slash() {
    assert_eq!(account_name_from_url("https://web.idle-mmo.com/@Hero").as_deref(), Some("Hero"));
    assert_eq!(account_name_from_url("https://a.b/@x@y").as_deref(), Some("y"));
    assert_eq!(account_name_from_url("https://a.b/p@q/r").as_deref(), None);
    assert_eq!(account_name_from_url("https://a.b@name@c/d").as_deref(), Some("name"));
}

#[test]
fn invalid_session_has_no_name() {
    assert_eq!(account_name_from_url("https://web.idle-mmo.com/login"), None);
    assert_eq!(account_name_from_url("plain"), Some("plain".to_string()));
    assert_eq!(account_name_from_url(""), Some(String::new()));
}

#[test]
fn headers_from_token() {
    let h = auth_headers("abc.DEF-123").unwrap();
    assert_eq!(h.authorization.value.to_str().unwrap(), "Bearer abc.DEF-123");
    assert_eq!(h.referer.value.to_str().unwrap(), "https://web.idle-mmo.com/");
    assert!(matches!(auth_headers("bad\ntoken"), Err(AppError::InvalidHeaderValue)));
}

#[test]
fn cookie_header_checks_characters() {
    assert_eq!(cookie_header("session=abc; x=1").unwrap().value.to_str().unwrap(), "session=abc; x=1");
    assert!(matches!(cookie_header("a\u{7f}b"), Err(AppError::InvalidHeaderValue)));
}

#[test]
fn tokens_after_login() {
    let html = r#"<meta name="api-token" content="api-xyz"><meta name="character-id" content="42">"#;
    let t = session_tokens(html).unwrap();
    assert_eq!(t.api_token, "api-xyz");
    assert_eq!(t.character_id, "42");
    match session_tokens(r#"<meta name="api-token" content="api-xyz">"#) {
        Err(AppError::Parse(m)) => assert_eq!(m, "Failed to find value for key: CharacterId"),
        other => panic!("unexpected {other:?}"),
    }
}

#[test]
fn switch_only_to_another_character() {
    let mut c = Character { id: 3071, name: "Alt".to_string(), class_name: "Warrior".to_string(), level: 9, is_current: true };
    assert_eq!(character_switch_url(&c), None);
    c.is_current = false;
    assert_eq!(character_switch_url(&c).as_deref(), Some("https://web.idle-mmo.com/user/character/switch/3071"));
}

fn pairs(form: &[(String, String)]) -> Vec<(&str, &str)> {
    form.iter().map(|(k, v)| (k.as_str(), v.as_str())).collect()
}

#[test]
fn login_and_switch_forms_carry_the_token() {
    let form = login_form("tok", "me@x.io", "pw");
    assert_eq!(pairs(&form), vec![("remember", "true"), ("_token", "tok"), ("email", "me@x.io"), ("password", "pw")]);
    let form = switch_form("tok");
    assert_eq!(pairs(&form), vec![("_token", "tok"), ("return_to_current_page", "false")]);
}

#[test]
fn account_stays_only_when_everything_succeeded() {
    let name = Some("Hero".to_string());
    assert!(account_stays(&name, true, true));
    assert!(!account_stays(&name, true, false));
    assert!(!account_stays(&name, false, false));
    assert!(!account_stays(&None, true, true));
}
