use idlemmo::login::{LoginAction, LoginFlow, LoginPhase};

const CHALLENGE: &str = r#"<form action="https://web.idle-mmo.com/2fa/check/xyz" method="post">"#;
const HOME: &str = "<html><body>Welcome back</body></html>";

#[test]
fn one_code_then_done() {
    let mut flow = LoginFlow::new();
    let mut submitted = 0;
    match flow.on_reply(CHALLENGE) {
        LoginAction::PromptCode { first_attempt } => assert!(first_attempt),
        other => panic!("unexpected {other:?}"),
    }
    match flow.on_code(123456, "tok") {
        LoginAction::SubmitCode { url, token, code } => {
            submitted += 1;
            assert_eq!(url, "https://web.idle-mmo.com/2fa/check/xyz");
            assert_eq!(token, "tok");
            assert_eq!(code, 123456);
        }
        other => panic!("unexpected {other:?}"),
    }
    assert!(matches!(flow.on_reply(HOME), LoginAction::Refresh));
    assert_eq!(flow.phase, LoginPhase::Done);
    assert_eq!(submitted, 1);
}

#[test]
fn no_challenge_means_done_at_once() {
    let mut flow = LoginFlow::new();
    assert!(matches!(flow.on_reply(HOME), LoginAction::Refresh));
    assert_eq!(flow.phase, LoginPhase::Done);
}

#[test]
fn repeated_challenge_is_not_first_attempt() {
    let mut flow = LoginFlow::new();
    flow.on_reply(CHALLENGE);
    flow.on_code(1, "t");
    match flow.on_reply(CHALLENGE) {
        LoginAction::PromptCode { first_attempt } => assert!(!first_attempt),
        other => panic!("unexpected {other:?}"),
    }
    assert_eq!(flow.phase, LoginPhase::AwaitingCode);
}
