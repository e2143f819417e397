use vstd::prelude::*;

use crate::cache::CachedData;
use crate::error::AppError;
use crate::models::{Location, TravelMode};
use crate::obfuscation::{generate_obfuscated_data, obfuscation_of, API_VERSION, DEFAULT_KEY};
use crate::parser::{missing_value_message, resolve, Parser};

verus! {

/// The address every relative path of the game hangs from.
pub const ORIGIN: &'static str = "https://web.idle-mmo.com/";

/// The body of a walking request.
#[derive(Debug)]
pub struct TravelRequest {
    pub location_id: u64,
    pub ts2mic5ytx: String,
    pub qty6bx4peh: String,
    pub v: String,
}

/// What moving to a location takes.
#[derive(Debug)]
pub enum TravelPlan {
    /// Too little currency for the teleport: nothing is sent.
    NotEnoughGold,
    /// Send the security token to `url`, refresh, then compare currency with
    /// `gold_before`.
    Teleport { url: String, token: String, gold_before: u64 },
    /// Send `request` to `url`; the reply's message is the outcome.
    Walk { url: String, request: TravelRequest },
}

/// How a move ended.
#[derive(Debug)]
pub enum TravelOutcome {
    NotEnoughGold,
    Teleported,
    AlreadyThere,
    Walked(String),
}

/// A fresh anti-automation value under the default key.
pub open spec fn fresh_field(s: Seq<char>) -> bool {
    exists|n: u64| 400 <= n < 600 && s == obfuscation_of(n, DEFAULT_KEY@)
}

/// Decides how to move to `location` from the cached snapshot.
pub fn plan_travel(cache: &CachedData, travel_mode: TravelMode, location: &Location) -> (r: Result<
    TravelPlan,
    AppError,
>)
    ensures
        travel_mode == TravelMode::Teleport ==> if cache.character_info.gold < location.teleport_cost {
            r matches Ok(TravelPlan::NotEnoughGold)
        } else {
            r matches Ok(TravelPlan::Teleport { url, token, gold_before }) && url@ == ORIGIN@
                + "locations/teleport/"@ + location.key@ && token@ == cache.csrf_token@
                && gold_before == cache.character_info.gold
        },
        travel_mode == TravelMode::Walk ==> match resolve(
            Parser::LocationsTravelApiEndpoint,
            cache.html@,
        ) {
            Some(u) => r matches Ok(TravelPlan::Walk { url, request }) && url@ == u
                && request.location_id == location.id && fresh_field(request.ts2mic5ytx@)
                && fresh_field(request.qty6bx4peh@) && request.v@ == API_VERSION@,
            None => r matches Err(AppError::Parse(m)) && m@ == missing_value_message(
                Parser::LocationsTravelApiEndpoint,
            ),
        },
{
    match travel_mode {
        TravelMode::Teleport => {
            let gold = cache.character_info.gold;
            if gold < location.teleport_cost {
                return Ok(TravelPlan::NotEnoughGold);
            }
            let mut url = String::from_str(ORIGIN);
            url.append("locations/teleport/");
            url.append(location.key.as_str());
            let token = cache.csrf_token.clone();
            Ok(TravelPlan::Teleport { url, token, gold_before: gold })
        },
        TravelMode::Walk => {
            let url = Parser::LocationsTravelApiEndpoint.get_value(cache.html.as_str())?;
            proof {
                reveal_strlit("fair-maiden");
            }
            let first = generate_obfuscated_data(None);
            let second = generate_obfuscated_data(None);
            let request = TravelRequest {
                location_id: location.id,
                ts2mic5ytx: first,
                qty6bx4peh: second,
                v: String::from_str(API_VERSION),
            };
            Ok(TravelPlan::Walk { url, request })
        },
    }
}

/// Reads a teleport's effect from the currency before and after the refresh
/// that follows it: any change means it happened.
pub fn teleport_outcome(gold_before: u64, gold_after: u64) -> (r: TravelOutcome)
    ensures
        gold_after != gold_before ==> r is Teleported,
        gold_after == gold_before ==> r is AlreadyThere,
{
    if gold_after != gold_before {
        TravelOutcome::Teleported
    } else {
        TravelOutcome::AlreadyThere
    }
}

impl TravelOutcome {
    /// The status line for this outcome.
    pub fn message(&self) -> (r: String)
        ensures
            self is NotEnoughGold ==> r@ == "Teleport failed: Not enough gold."@,
            self is Teleported ==> r@ == "Teleport successful"@,
            self is AlreadyThere ==> r@ == "You already at location"@,
            self matches TravelOutcome::Walked(m) ==> r@ == m@,
    {
        match self {
            TravelOutcome::NotEnoughGold => String::from_str("Teleport failed: Not enough gold."),
            TravelOutcome::Teleported => String::from_str("Teleport successful"),
            TravelOutcome::AlreadyThere => String::from_str("You already at location"),
            TravelOutcome::Walked(m) => String::from_str(m.as_str()),
        }
    }
}

} // verus!
