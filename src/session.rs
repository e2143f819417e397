use vstd::prelude::*;

use reqwest::header::{HeaderValue, InvalidHeaderValue};

use crate::error::AppError;
use crate::models::Character;
use crate::obfuscation::{decimal_chars, decimal_text};
use crate::text::push_char;
use crate::parser::{missing_value_message, resolve, Parser};
use crate::travel::ORIGIN;

verus! {

/// reqwest's header value, carried through opaque.
#[verifier::external_type_specification]
#[verifier::external_body]
pub struct ExHeaderValue(HeaderValue);

/// The error `HeaderValue::from_str` gives; only its presence is used.
#[verifier::external_type_specification]
#[verifier::external_body]
pub struct ExInvalidHeaderValue(InvalidHeaderValue);

/// A character a header value may hold: a tab, or anything from space up but
/// the delete character (non-ASCII characters are carried as opaque bytes).
pub open spec fn header_char_ok(c: char) -> bool {
    c == '\t' || (c as u32 >= 32 && c as u32 != 127)
}

pub open spec fn header_text_ok(s: Seq<char>) -> bool {
    forall|i: int| 0 <= i < s.len() ==> header_char_ok(#[trigger] s[i])
}

/// Relies on `reqwest::header::HeaderValue::from_str` (from the `http`
/// crate): it accepts exactly the texts whose every byte is a tab or at
/// least 32 and not 127.
/// The value it builds holds the text it was given.
#[verifier::external_body]
fn header_value(s: &str) -> (r: Result<Header, InvalidHeaderValue>)
    ensures
        r is Ok <==> header_text_ok(s@),
        r matches Ok(h) ==> h.text@ == s@,
{
    HeaderValue::from_str(s).map(|value| Header { value, text: Ghost(s@) })
}

/// A header value together with the text it holds.
pub struct Header {
    pub value: HeaderValue,
    pub text: Ghost<Seq<char>>,
}

/// The headers every authenticated request carries.
pub struct AuthHeaders {
    /// `Bearer` and the API token.
    pub authorization: Header,
    /// The origin address.
    pub referer: Header,
}

/// The values that a successful login leaves in the page.
#[derive(Debug)]
pub struct SessionTokens {
    pub api_token: String,
    pub character_id: String,
}

/// Builds the headers for an API token; an `InvalidHeaderValue` error when
/// the token holds a character a header cannot carry.
pub fn auth_headers(api_token: &str) -> (r: Result<AuthHeaders, AppError>)
    ensures
        r is Ok <==> header_text_ok(api_token@),
        r matches Ok(h) ==> h.authorization.text@ == "Bearer "@ + api_token@ && h.referer.text@
            == ORIGIN@,
        r is Err ==> r matches Err(AppError::InvalidHeaderValue),
{
    let mut bearer = String::from_str("Bearer ");
    bearer.append(api_token);
    proof {
        reveal_strlit("Bearer ");
        reveal_strlit("https://web.idle-mmo.com/");
        let b = bearer@;
        assert(b == "Bearer "@ + api_token@);
        assert(header_text_ok(b) <==> header_text_ok(api_token@)) by {
            if header_text_ok(api_token@) {
                assert forall|i: int| 0 <= i < b.len() implies header_char_ok(#[trigger] b[i]) by {
                    if i >= 7 {
                        assert(b[i] == api_token@[i - 7]);
                    }
                }
            }
            if header_text_ok(b) {
                assert forall|i: int| 0 <= i < api_token@.len() implies header_char_ok(
                    #[trigger] api_token@[i],
                ) by {
                    assert(b[i + 7] == api_token@[i]);
                }
            }
        }
        assert(header_text_ok(ORIGIN@));
    }
    let authorization = match header_value(bearer.as_str()) {
        Ok(v) => v,
        Err(_) => {
            return Err(AppError::InvalidHeaderValue);
        },
    };
    let referer = match header_value(ORIGIN) {
        Ok(v) => v,
        Err(_) => {
            return Err(AppError::InvalidHeaderValue);
        },
    };
    Ok(AuthHeaders { authorization, referer })
}

/// The header value for a stored cookie string.
pub fn cookie_header(cookie_str: &str) -> (r: Result<Header, AppError>)
    ensures
        r is Ok <==> header_text_ok(cookie_str@),
        r matches Ok(h) ==> h.text@ == cookie_str@,
        r is Err ==> r matches Err(AppError::InvalidHeaderValue),
{
    match header_value(cookie_str) {
        Ok(v) => Ok(v),
        Err(_) => Err(AppError::InvalidHeaderValue),
    }
}

/// Reads the API token, then the character id, from the page after login.
pub fn session_tokens(html: &str) -> (r: Result<SessionTokens, AppError>)
    ensures
        match (resolve(Parser::ApiToken, html@), resolve(Parser::CharacterId, html@)) {
            (Some(t), Some(c)) => r matches Ok(s) && s.api_token@ == t && s.character_id@ == c,
            (None, _) => r matches Err(AppError::Parse(m)) && m@ == missing_value_message(
                Parser::ApiToken,
            ),
            (Some(_), None) => r matches Err(AppError::Parse(m)) && m@ == missing_value_message(
                Parser::CharacterId,
            ),
        },
{
    let api_token = Parser::ApiToken.get_value(html)?;
    let character_id = Parser::CharacterId.get_value(html)?;
    Ok(SessionTokens { api_token, character_id })
}

/// The account name in the address a session lands on: of the pieces between
/// `@` signs, the last that holds no `/`. `tail` is the piece being read,
/// which follows `s`.
pub open spec fn name_in(s: Seq<char>, tail: Seq<char>) -> Option<Seq<char>>
    decreases s.len(),
{
    if s.len() == 0 {
        if tail.contains('/') {
            None
        } else {
            Some(tail)
        }
    } else if s.last() == '@' {
        if !tail.contains('/') {
            Some(tail)
        } else {
            name_in(s.drop_last(), Seq::empty())
        }
    } else {
        name_in(s.drop_last(), seq![s.last()] + tail)
    }
}

pub open spec fn account_name(url: Seq<char>) -> Option<Seq<char>> {
    name_in(url, Seq::empty())
}

/// The account name in the address a session request ended on; `None` marks
/// a session that is no longer valid.
pub fn account_name_from_url(url: &str) -> (r: Option<String>)
    ensures
        match account_name(url@) {
            Some(n) => r matches Some(s) && s@ == n,
            None => r is None,
        },
{
    let n = url.unicode_len();
    let ghost s = url@;
    let mut end: usize = n;
    let mut i: usize = n;
    let mut slash = false;
    assert(s.subrange(0, n as int) =~= s);
    assert(s.subrange(n as int, n as int) =~= Seq::<char>::empty());
    while i > 0
        invariant
            i <= end <= n,
            n == s.len(),
            s == url@,
            slash == s.subrange(i as int, end as int).contains('/'),
            account_name(s) == name_in(s.subrange(0, i as int), s.subrange(i as int, end as int)),
        decreases i,
    {
        let c = url.get_char(i - 1);
        let ghost head = s.subrange(0, i as int);
        let ghost tail = s.subrange(i as int, end as int);
        assert(head.last() == c);
        assert(head.drop_last() =~= s.subrange(0, i - 1));
        if c == '@' {
            if !slash {
                return Some(String::from_str(url.substring_char(i, end)));
            }
            end = i - 1;
            i = i - 1;
            slash = false;
            assert(s.subrange(i as int, end as int) =~= Seq::<char>::empty());
        } else {
            assert(seq![c] + tail =~= s.subrange(i - 1, end as int));
            assert(s.subrange(i - 1, end as int).contains('/') <==> (c == '/' || tail.contains('/')))
                by {
                let t2 = s.subrange(i - 1, end as int);
                if t2.contains('/') {
                    let j = choose|j: int| 0 <= j < t2.len() && t2[j] == '/';
                    if j > 0 {
                        assert(tail[j - 1] == '/');
                    }
                }
                if tail.contains('/') {
                    let j = choose|j: int| 0 <= j < tail.len() && tail[j] == '/';
                    assert(t2[j + 1] == '/');
                }
                if c == '/' {
                    assert(t2[0] == '/');
                }
            }
            if c == '/' {
                slash = true;
            }
            i = i - 1;
        }
    }
    assert(s.subrange(0, 0) =~= Seq::<char>::empty());
    if slash {
        None
    } else {
        Some(String::from_str(url.substring_char(0, end)))
    }
}

/// Where to switch to `character`; `None` when it is already the active one
/// and nothing needs to be sent.
pub fn character_switch_url(character: &Character) -> (r: Option<String>)
    ensures
        character.is_current ==> r is None,
        !character.is_current ==> (r matches Some(u) && u@ == ORIGIN@ + "user/character/switch/"@
            + decimal_text(character.id as nat)),
{
    if character.is_current {
        return None;
    }
    let mut url = String::from_str(ORIGIN);
    url.append("user/character/switch/");
    let ghost prefix = url@;
    let digits = decimal_chars(character.id);
    let mut i: usize = 0;
    while i < digits.len()
        invariant
            i <= digits@.len(),
            url@ == prefix + digits@.subrange(0, i as int),
        decreases digits@.len() - i,
    {
        assert(digits@.subrange(0, i + 1) =~= digits@.subrange(0, i as int).push(digits@[i as int]));
        push_char(&mut url, digits[i]);
        i = i + 1;
    }
    assert(digits@.subrange(0, digits@.len() as int) =~= digits@);
    Some(url)
}

/// A form field, name and value.
pub open spec fn field_is(f: (String, String), name: Seq<char>, value: Seq<char>) -> bool {
    f.0@ == name && f.1@ == value
}

fn field(name: &str, value: &str) -> (r: (String, String))
    ensures
        field_is(r, name@, value@),
{
    (String::from_str(name), String::from_str(value))
}

/// The login form: stay signed in, the security token, and the credentials.
pub fn login_form(token: &str, email: &str, password: &str) -> (r: Vec<(String, String)>)
    ensures
        r@.len() == 4,
        field_is(r@[0], "remember"@, "true"@),
        field_is(r@[1], "_token"@, token@),
        field_is(r@[2], "email"@, email@),
        field_is(r@[3], "password"@, password@),
{
    let mut form: Vec<(String, String)> = Vec::new();
    form.push(field("remember", "true"));
    form.push(field("_token", token));
    form.push(field("email", email));
    form.push(field("password", password));
    form
}

/// The form that switches the active character.
pub fn switch_form(token: &str) -> (r: Vec<(String, String)>)
    ensures
        r@.len() == 2,
        field_is(r@[0], "_token"@, token@),
        field_is(r@[1], "return_to_current_page"@, "false"@),
{
    let mut form: Vec<(String, String)> = Vec::new();
    form.push(field("_token", token));
    form.push(field("return_to_current_page", "false"));
    form
}

/// Whether a loaded account stays in the store: its session landed on an
/// address that names the account, and the refresh and the location load
/// that follow both succeeded. Otherwise the account is removed.
pub fn account_stays(landed_name: &Option<String>, refreshed: bool, located: bool) -> (r: bool)
    ensures
        r == (landed_name is Some && refreshed && located),
{
    landed_name.is_some() && refreshed && located
}

} // verus!
