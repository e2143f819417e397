use idlemmo::error::AppError;
use idlemmo::parser::Parser;
use idlemmo::text::unescape;

#[test]
fn csrf_token_is_the_marker_content() {
    let html = r#"<head><meta name="csrf-token" content="AbC123xyz"></head>"#;
    assert_eq!(Parser::CsrfToken.get_value(html).unwrap(), "AbC123xyz");
}

#[test]
fn csrf_token_is_html_decoded() {
    let html = r#"<meta name="csrf-token"   content="a&amp;b&lt;c">"#;
    assert_eq!(Parser::CsrfToken.get_value(html).unwrap(), "a&b<c");
}

#[test]
fn missing_rule_names_itself() {
    match Parser::CsrfToken.get_value("<html></html>") {
        Err(AppError::Parse(m)) => assert_eq!(m, "Failed to find value for key: CsrfToken"),
        other => panic!("unexpected {other:?}"),
    }
    match Parser::LocationsAllApiEndpoint.get_value("") {
        Err(AppError::Parse(m)) => assert_eq!(m, "Failed to find value for key: LocationsAllApiEndpoint"),
        other => panic!("unexpected {other:?}"),
    }
}

#[test]
fn endpoint_with_escaped_slashes() {
    let text = r#"{"url":"https:\/\/web.idle-mmo.com\/api\/locations\/all?v=1&x=2"}"#;
    assert_eq!(
        Parser::LocationsAllApiEndpoint.get_value(text).unwrap(),
        "https://web.idle-mmo.com/api/locations/all?v=1&x=2"
    );
}

#[test]
fn two_factor_url_found() {
    let html = r#"<form method="POST" action="https://web.idle-mmo.com/2fa/verify/abc">"#;
    assert_eq!(Parser::TwoFactorUrl.get_value(html).unwrap(), "https://web.idle-mmo.com/2fa/verify/abc");
    assert!(Parser::TwoFactorUrl.get_value("<form action=\"/login\">").is_err());
}

#[test]
fn unescape_removes_backslashes_and_u0026() {
    assert_eq!(unescape(r"a\/b\\c"), "a/bc");
    assert_eq!(unescape("x=1u0026y=2"), "x=1&y=2");
    assert_eq!(unescape("uu0026u0026"), "u&&");
    assert_eq!(unescape(""), "");
}

#[test]
fn rule_names() {
    assert_eq!(Parser::SkillsStartApiEndpoint.name(), "SkillsStartApiEndpoint");
    assert!(Parser::CsrfToken.to_regex().contains("csrf-token"));
}
