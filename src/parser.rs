use vstd::prelude::*;

use crate::error::AppError;
use crate::text::{unescape, unescaped};

verus! {

/// Named rules that find dynamic values (tokens, API addresses) in text the
/// server delivers.
#[derive(Debug, Clone, Copy, PartialEq, Eq, Structural)]
pub enum Parser {
    CsrfToken,
    ApiToken,
    CharacterId,
    TwoFactorUrl,
    SkillData,
    CharacterInformationApiEndpoint,
    CharactersAllApiEndpoint,
    LocationsAllApiEndpoint,
    LocationsTravelApiEndpoint,
    QuickViewLocationApiEndpoint,
    ActionActiveApiEndpoint,
    SkillsStartApiEndpoint,
    SkillsDataApiEndpoint,
}

/// The first capture group of the leftmost match of a regular expression in a
/// text; `None` when nothing matches.
pub uninterp spec fn regex_group_one(pattern: Seq<char>, text: Seq<char>) -> Option<Seq<char>>;

/// The two capture groups of each successive match of a regular expression
/// in a text.
pub uninterp spec fn regex_group_pairs(pattern: Seq<char>, text: Seq<char>) -> Seq<
    (Seq<char>, Seq<char>),
>;

pub open spec fn pair_views(pairs: Seq<(String, String)>) -> Seq<(Seq<char>, Seq<char>)> {
    pairs.map_values(|p: (String, String)| (p.0@, p.1@))
}

/// Text with its HTML character references decoded.
pub uninterp spec fn html_decoded(s: Seq<char>) -> Seq<char>;

/// Relies on `regex::Regex::new` and `Regex::captures`: compiles `pattern` and
/// returns the text of capture group 1 of the leftmost match in `text`.
#[verifier::external_body]
fn first_group(pattern: &str, text: &str) -> (r: Option<String>)
    ensures
        match r {
            Some(s) => regex_group_one(pattern@, text@) == Some(s@),
            None => regex_group_one(pattern@, text@) is None,
        },
{
    let re = regex::Regex::new(pattern).ok()?;
    re.captures(text)?.get(1).map(|m| m.as_str().to_string())
}

/// Relies on `regex::Regex::captures_iter` and `Captures::extract`: the two
/// groups of every match, in order. The skill-data rule has exactly two
/// groups, both always taking part, so `extract` does not panic.
#[verifier::external_body]
pub(crate) fn all_group_pairs(pattern: &str, text: &str) -> (r: Vec<(String, String)>)
    requires
        pattern@ == rule_pattern(Parser::SkillData),
    ensures
        pair_views(r@) == regex_group_pairs(pattern@, text@),
{
    match regex::Regex::new(pattern) {
        Ok(re) => re.captures_iter(text).map(|c| {
            let (_, [a, b]) = c.extract();
            (a.to_string(), b.to_string())
        }).collect(),
        Err(_) => Vec::new(),
    }
}

/// Relies on `html_escape::decode_html_entities`: decodes character
/// references; a text without `&` holds none and comes back unchanged.
#[verifier::external_body]
fn decode_entities(s: &str) -> (r: String)
    ensures
        r@ == html_decoded(s@),
        !s@.contains('&') ==> r@ == s@,
{
    html_escape::decode_html_entities(s).into_owned()
}

pub open spec fn rule_pattern(p: Parser) -> Seq<char> {
    match p {
        Parser::CsrfToken => r#"name="csrf-token"\s*content="([^"]+)"#@,
        Parser::ApiToken => r#"name="api-token"\s*content="([^"]+)""#@,
        Parser::CharacterId => r#"name="character-id"\s*content="([^"]+)"#@,
        Parser::TwoFactorUrl => r#"action="(https://web.idle-mmo.com/2fa/[^"]+)"#@,
        Parser::SkillData => r#"(?s)level: (\d+).+?skills/view/([^'\"]+)"#@,
        Parser::CharacterInformationApiEndpoint => r#"(https?.+?/character\\?/information[^'"]+)""#@,
        Parser::CharactersAllApiEndpoint => r#"(https?.+?/characters\\?/all[^'"]+)""#@,
        Parser::LocationsAllApiEndpoint => r#"(https?.*?/locations\\?/all[^'"]+)""#@,
        Parser::LocationsTravelApiEndpoint => r#"travel.*?(https?.*?/locations\\?/travel[^'"]+)""#@,
        Parser::QuickViewLocationApiEndpoint => r#"(https?.*?/quick-view\\?/location[^'"]+)"#@,
        Parser::ActionActiveApiEndpoint => r#"(https?.*?/action\\?/active[^'"]+)""#@,
        Parser::SkillsStartApiEndpoint => r#"(https?.*?/skills\\?/start[^'"]+)""#@,
        Parser::SkillsDataApiEndpoint => r#"(https?.*?/skills\\?/data[^'"]+)""#@,
    }
}

pub open spec fn rule_name(p: Parser) -> Seq<char> {
    match p {
        Parser::CsrfToken => "CsrfToken"@,
        Parser::ApiToken => "ApiToken"@,
        Parser::CharacterId => "CharacterId"@,
        Parser::TwoFactorUrl => "TwoFactorUrl"@,
        Parser::SkillData => "SkillData"@,
        Parser::CharacterInformationApiEndpoint => "CharacterInformationApiEndpoint"@,
        Parser::CharactersAllApiEndpoint => "CharactersAllApiEndpoint"@,
        Parser::LocationsAllApiEndpoint => "LocationsAllApiEndpoint"@,
        Parser::LocationsTravelApiEndpoint => "LocationsTravelApiEndpoint"@,
        Parser::QuickViewLocationApiEndpoint => "QuickViewLocationApiEndpoint"@,
        Parser::ActionActiveApiEndpoint => "ActionActiveApiEndpoint"@,
        Parser::SkillsStartApiEndpoint => "SkillsStartApiEndpoint"@,
        Parser::SkillsDataApiEndpoint => "SkillsDataApiEndpoint"@,
    }
}

/// The value a rule finds in a text: the captured text, HTML-decoded and
/// cleaned of escapes; `None` when the rule does not match.
pub open spec fn resolve(p: Parser, text: Seq<char>) -> Option<Seq<char>> {
    match regex_group_one(rule_pattern(p), text) {
        Some(captured) => Some(unescaped(html_decoded(captured))),
        None => None,
    }
}

pub open spec fn missing_value_message(p: Parser) -> Seq<char> {
    "Failed to find value for key: "@ + rule_name(p)
}

impl Parser {
    /// The regular expression of this rule.
    pub fn to_regex(&self) -> (r: &'static str)
        ensures
            r@ == rule_pattern(*self),
    {
        match self {
            Parser::CsrfToken => r#"name="csrf-token"\s*content="([^"]+)"#,
            Parser::ApiToken => r#"name="api-token"\s*content="([^"]+)""#,
            Parser::CharacterId => r#"name="character-id"\s*content="([^"]+)"#,
            Parser::TwoFactorUrl => r#"action="(https://web.idle-mmo.com/2fa/[^"]+)"#,
            Parser::SkillData => r#"(?s)level: (\d+).+?skills/view/([^'\"]+)"#,
            Parser::CharacterInformationApiEndpoint => r#"(https?.+?/character\\?/information[^'"]+)""#,
            Parser::CharactersAllApiEndpoint => r#"(https?.+?/characters\\?/all[^'"]+)""#,
            Parser::LocationsAllApiEndpoint => r#"(https?.*?/locations\\?/all[^'"]+)""#,
            Parser::LocationsTravelApiEndpoint => r#"travel.*?(https?.*?/locations\\?/travel[^'"]+)""#,
            Parser::QuickViewLocationApiEndpoint => r#"(https?.*?/quick-view\\?/location[^'"]+)"#,
            Parser::ActionActiveApiEndpoint => r#"(https?.*?/action\\?/active[^'"]+)""#,
            Parser::SkillsStartApiEndpoint => r#"(https?.*?/skills\\?/start[^'"]+)""#,
            Parser::SkillsDataApiEndpoint => r#"(https?.*?/skills\\?/data[^'"]+)""#,
        }
    }

    /// The rule's name, as error messages show it.
    pub fn name(&self) -> (r: &'static str)
        ensures
            r@ == rule_name(*self),
    {
        match self {
            Parser::CsrfToken => "CsrfToken",
            Parser::ApiToken => "ApiToken",
            Parser::CharacterId => "CharacterId",
            Parser::TwoFactorUrl => "TwoFactorUrl",
            Parser::SkillData => "SkillData",
            Parser::CharacterInformationApiEndpoint => "CharacterInformationApiEndpoint",
            Parser::CharactersAllApiEndpoint => "CharactersAllApiEndpoint",
            Parser::LocationsAllApiEndpoint => "LocationsAllApiEndpoint",
            Parser::LocationsTravelApiEndpoint => "LocationsTravelApiEndpoint",
            Parser::QuickViewLocationApiEndpoint => "QuickViewLocationApiEndpoint",
            Parser::ActionActiveApiEndpoint => "ActionActiveApiEndpoint",
            Parser::SkillsStartApiEndpoint => "SkillsStartApiEndpoint",
            Parser::SkillsDataApiEndpoint => "SkillsDataApiEndpoint",
        }
    }

    /// Finds this rule's value in `input_text`; a `Parse` error naming the
    /// rule when it does not match.
    pub fn get_value(&self, input_text: &str) -> (r: Result<String, AppError>)
        ensures
            match resolve(*self, input_text@) {
                Some(v) => r matches Ok(s) && s@ == v,
                None => r matches Err(AppError::Parse(m)) && m@ == missing_value_message(*self),
            },
    {
        match first_group(self.to_regex(), input_text) {
            Some(captured) => {
                let decoded = decode_entities(captured.as_str());
                Ok(unescape(decoded.as_str()))
            },
            None => {
                let mut message = String::from_str("Failed to find value for key: ");
                message.append(self.name());
                Err(AppError::Parse(message))
            },
        }
    }
}

/// A security token found by its meta marker comes back exactly as the
/// marker's content, HTML-decoded, whenever that content holds no escape
/// sequence.
pub proof fn lemma_csrf_token_is_marker_content(text: Seq<char>, content: Seq<char>)
    requires
        regex_group_one(rule_pattern(Parser::CsrfToken), text) == Some(content),
        !html_decoded(content).contains('\\'),
        forall|i: int|
            0 <= i < html_decoded(content).len() ==> !#[trigger] crate::text::has_u0026_at(
                html_decoded(content),
                i,
            ),
    ensures
        resolve(Parser::CsrfToken, text) == Some(html_decoded(content)),
{
    crate::text::lemma_unescaped_plain(html_decoded(content));
}

} // verus!
