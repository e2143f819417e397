use vstd::prelude::*;

use crate::parser::{resolve, Parser};

verus! {

/// Where the login protocol stands.
#[derive(Debug, Clone, Copy, PartialEq, Eq, Structural)]
pub enum LoginPhase {
    /// The credentials were sent; their reply is awaited.
    AwaitingLogin,
    /// The reply asked for a second-factor code; the caller must supply one.
    AwaitingCode,
    /// A code was sent; its reply is awaited.
    AwaitingChallengeReply,
    /// No challenge is left: the session is established.
    Done,
}

/// What the caller must do next.
#[derive(Debug)]
pub enum LoginAction {
    /// Ask for a second-factor code; `first_attempt` is false after a code
    /// was already sent.
    PromptCode { first_attempt: bool },
    /// Send `code` with the security token to the challenge address.
    SubmitCode { url: String, token: String, code: i64 },
    /// Login is over: refresh the world snapshot.
    Refresh,
}

/// The kind of an action, for reasoning about runs.
#[derive(Debug, Clone, Copy, PartialEq, Eq, Structural)]
pub enum ActionKind {
    PromptCode,
    SubmitCode,
    Refresh,
}

/// An input to the protocol: a server reply's text, or a code from the
/// caller.
pub enum LoginEvent {
    Reply(Seq<char>),
    Code,
}

pub open spec fn action_kind(a: LoginAction) -> ActionKind {
    match a {
        LoginAction::PromptCode { .. } => ActionKind::PromptCode,
        LoginAction::SubmitCode { .. } => ActionKind::SubmitCode,
        LoginAction::Refresh => ActionKind::Refresh,
    }
}

/// Whether a reply carries the second-factor challenge.
pub open spec fn has_challenge(text: Seq<char>) -> bool {
    resolve(Parser::TwoFactorUrl, text) is Some
}

/// One step of the protocol: a reply with a challenge asks for a code, one
/// without ends the login; a code is sent and its reply awaited.
pub open spec fn login_step(phase: LoginPhase, ev: LoginEvent) -> (LoginPhase, ActionKind) {
    match ev {
        LoginEvent::Reply(text) => if has_challenge(text) {
            (LoginPhase::AwaitingCode, ActionKind::PromptCode)
        } else {
            (LoginPhase::Done, ActionKind::Refresh)
        },
        LoginEvent::Code => (LoginPhase::AwaitingChallengeReply, ActionKind::SubmitCode),
    }
}

/// The phase reached and the actions asked for after a run of events.
pub open spec fn login_run(phase: LoginPhase, evs: Seq<LoginEvent>) -> (LoginPhase, Seq<ActionKind>)
    decreases evs.len(),
{
    if evs.len() == 0 {
        (phase, Seq::empty())
    } else {
        let (next, kind) = login_step(phase, evs[0]);
        let (last, rest) = login_run(next, evs.subrange(1, evs.len() as int));
        (last, seq![kind] + rest)
    }
}

pub open spec fn submissions(kinds: Seq<ActionKind>) -> nat {
    kinds.filter(|k: ActionKind| k == ActionKind::SubmitCode).len()
}

/// The login protocol after the credentials were sent.
#[derive(Debug)]
pub struct LoginFlow {
    pub phase: LoginPhase,
    /// The challenge address of the latest reply that carried one.
    pub challenge_url: String,
}

impl LoginFlow {
    /// The state right after the credentials were sent.
    pub fn new() -> (r: LoginFlow)
        ensures
            r.phase == LoginPhase::AwaitingLogin,
    {
        LoginFlow { phase: LoginPhase::AwaitingLogin, challenge_url: String::new() }
    }

    /// Takes a reply of the server.
    pub fn on_reply(&mut self, text: &str) -> (r: LoginAction)
        ensures
            (final(self).phase, action_kind(r)) == login_step(old(self).phase, LoginEvent::Reply(text@)),
            match resolve(Parser::TwoFactorUrl, text@) {
                Some(url) => final(self).challenge_url@ == url && r == (LoginAction::PromptCode {
                    first_attempt: old(self).phase == LoginPhase::AwaitingLogin,
                }),
                None => final(self).challenge_url == old(self).challenge_url,
            },
    {
        match Parser::TwoFactorUrl.get_value(text) {
            Ok(url) => {
                let first_attempt = self.phase == LoginPhase::AwaitingLogin;
                self.challenge_url = url;
                self.phase = LoginPhase::AwaitingCode;
                LoginAction::PromptCode { first_attempt }
            },
            Err(_) => {
                self.phase = LoginPhase::Done;
                LoginAction::Refresh
            },
        }
    }

    /// Takes the code the caller supplied, for the latest challenge.
    pub fn on_code(&mut self, code: i64, token: &str) -> (r: LoginAction)
        ensures
            (final(self).phase, action_kind(r)) == login_step(old(self).phase, LoginEvent::Code),
            final(self).challenge_url == old(self).challenge_url,
            r matches LoginAction::SubmitCode { url, token: t, code: c } && url@
                == old(self).challenge_url@ && t@ == token@ && c == code,
    {
        self.phase = LoginPhase::AwaitingChallengeReply;
        LoginAction::SubmitCode {
            url: self.challenge_url.clone(),
            token: String::from_str(token),
            code,
        }
    }
}

/// A login whose first reply carries the challenge and whose reply to the
/// code does not ends, done, after exactly one code was sent.
pub proof fn lemma_one_code_then_done(first: Seq<char>, second: Seq<char>)
    requires
        has_challenge(first),
        !has_challenge(second),
    ensures
        ({
            let (phase, kinds) = login_run(
                LoginPhase::AwaitingLogin,
                seq![LoginEvent::Reply(first), LoginEvent::Code, LoginEvent::Reply(second)],
            );
            &&& phase == LoginPhase::Done
            &&& kinds == seq![ActionKind::PromptCode, ActionKind::SubmitCode, ActionKind::Refresh]
            &&& submissions(kinds) == 1
        }),
{
    let evs = seq![LoginEvent::Reply(first), LoginEvent::Code, LoginEvent::Reply(second)];
    let e1 = evs.subrange(1, 3);
    let e2 = e1.subrange(1, 2);
    let e3 = e2.subrange(1, 1);
    assert(e1 =~= seq![LoginEvent::Code, LoginEvent::Reply(second)]);
    assert(e2 =~= seq![LoginEvent::Reply(second)]);
    assert(e3 =~= Seq::<LoginEvent>::empty());
    assert(e2[0] == LoginEvent::Reply(second));
    assert(e1[0] == LoginEvent::Code);
    assert(evs[0] == LoginEvent::Reply(first));
    assert(login_run(LoginPhase::Done, e3) == (LoginPhase::Done, Seq::<ActionKind>::empty()));
    assert(login_run(LoginPhase::AwaitingChallengeReply, e2) == (
        LoginPhase::Done,
        seq![ActionKind::Refresh] + Seq::<ActionKind>::empty(),
    ));
    assert(login_run(LoginPhase::AwaitingCode, e1) == (
        LoginPhase::Done,
        seq![ActionKind::SubmitCode] + (seq![ActionKind::Refresh] + Seq::<ActionKind>::empty()),
    ));
    let kinds = seq![ActionKind::PromptCode, ActionKind::SubmitCode, ActionKind::Refresh];
    assert(login_run(LoginPhase::AwaitingLogin, evs).1 =~= kinds);
    reveal_with_fuel(Seq::filter, 4);
    assert(kinds.drop_last() =~= seq![ActionKind::PromptCode, ActionKind::SubmitCode]);
    assert(kinds.drop_last().drop_last() =~= seq![ActionKind::PromptCode]);
    assert(kinds.drop_last().drop_last().drop_last() =~= Seq::<ActionKind>::empty());
    assert(kinds.filter(|k: ActionKind| k == ActionKind::SubmitCode) =~= seq![ActionKind::SubmitCode]);
}

} // verus!
