use vstd::prelude::*;

use crate::character::CharacterInfo;
use crate::error::AppError;
use crate::locations::{
    lemma_narrowed_all_offers, narrow_locations, narrowed_all, offers_only_eligible,
    sort_by_distance, sorted_by_distance,
};
use crate::models::Location;
use crate::parser::{missing_value_message, resolve, Parser};
use vstd::seq_lib::to_multiset_contains;

verus! {

/// The latest world snapshot: page text with the security token taken from
/// it, the character record, and the filtered location list.
#[derive(Debug)]
pub struct CachedData {
    pub locations: Vec<Location>,
    pub character_info: CharacterInfo,
    pub csrf_token: String,
    pub html: String,
}

/// What answering a location request takes next.
#[derive(Debug)]
pub enum LocationsStep<'a> {
    /// The cached list answers it; no request is made.
    Cached(&'a Vec<Location>),
    /// The list must be fetched from this address.
    Fetch(String),
}

impl CachedData {
    /// An empty snapshot.
    pub fn new() -> (r: CachedData)
        ensures
            r.locations@.len() == 0,
            r.csrf_token@.len() == 0,
            r.html@.len() == 0,
            r.character_info.skill_level@.len() == 0,
    {
        CachedData {
            locations: Vec::new(),
            character_info: CharacterInfo::empty(),
            csrf_token: String::new(),
            html: String::new(),
        }
    }

    /// Stores a freshly fetched page with the security token found in it, as
    /// one unit; on a page without a token nothing changes.
    pub fn apply_page(&mut self, html: String) -> (r: Result<(), AppError>)
        ensures
            final(self).locations == old(self).locations,
            final(self).character_info == old(self).character_info,
            match resolve(Parser::CsrfToken, html@) {
                Some(token) => r is Ok && final(self).html@ == html@ && final(self).csrf_token@
                    == token,
                None => r matches Err(AppError::Parse(m)) && m@ == missing_value_message(
                    Parser::CsrfToken,
                ) && final(self).html == old(self).html && final(self).csrf_token == old(
                    self,
                ).csrf_token,
            },
    {
        let token = Parser::CsrfToken.get_value(html.as_str())?;
        self.html = html;
        self.csrf_token = token;
        Ok(())
    }

    /// Takes the outcome of a character fetch: a fetched record replaces the
    /// cached one whole; after a failure the cached one stays. Returns whether
    /// the record was replaced.
    pub fn apply_character_info(&mut self, fetched: Result<CharacterInfo, AppError>) -> (r: bool)
        ensures
            final(self).locations == old(self).locations,
            final(self).html == old(self).html,
            final(self).csrf_token == old(self).csrf_token,
            match fetched {
                Ok(info) => r && final(self).character_info == info,
                Err(_) => !r && final(self).character_info == old(self).character_info,
            },
    {
        match fetched {
            Ok(info) => {
                self.character_info = info;
                true
            },
            Err(_) => false,
        }
    }

    /// The first step of a location request: the cached list when reuse is
    /// allowed and the cache holds some; otherwise the address of the full
    /// list, found in the cached page.
    pub fn begin_locations(&self, use_cache: bool) -> (r: Result<LocationsStep<'_>, AppError>)
        ensures
            use_cache && self.locations@.len() > 0 ==> (r matches Ok(LocationsStep::Cached(v))
                && *v == self.locations),
            !(use_cache && self.locations@.len() > 0) ==> match resolve(
                Parser::LocationsAllApiEndpoint,
                self.html@,
            ) {
                Some(url) => r matches Ok(LocationsStep::Fetch(u)) && u@ == url,
                None => r matches Err(AppError::Parse(m)) && m@ == missing_value_message(
                    Parser::LocationsAllApiEndpoint,
                ),
            },
    {
        if use_cache && self.locations.len() > 0 {
            return Ok(LocationsStep::Cached(&self.locations));
        }
        let url = Parser::LocationsAllApiEndpoint.get_value(self.html.as_str())?;
        Ok(LocationsStep::Fetch(url))
    }

    /// Replaces the cached list with the fetched locations narrowed to what
    /// the character is eligible for, those left with nothing dropped, the
    /// rest sorted farthest first.
    pub fn store_locations(&mut self, fetched: Vec<Location>)
        ensures
            final(self).character_info == old(self).character_info,
            final(self).html == old(self).html,
            final(self).csrf_token == old(self).csrf_token,
            exists|kept: Seq<Location>|
                narrowed_all(fetched@, kept, old(self).character_info) && #[trigger] kept.to_multiset()
                    == final(self).locations@.to_multiset(),
            sorted_by_distance(final(self).locations@),
            forall|i: int|
                0 <= i < final(self).locations@.len() ==> offers_only_eligible(
                    #[trigger] final(self).locations@[i],
                    old(self).character_info,
                ),
    {
        let kept = narrow_locations(fetched, &self.character_info);
        let ghost kept_view = kept@;
        let sorted = sort_by_distance(kept);
        proof {
            lemma_narrowed_all_offers(fetched@, kept_view, self.character_info);
            assert forall|i: int| 0 <= i < sorted@.len() implies offers_only_eligible(
                #[trigger] sorted@[i],
                self.character_info,
            ) by {
                to_multiset_contains(sorted@, sorted@[i]);
                to_multiset_contains(kept_view, sorted@[i]);
                assert(sorted@.contains(sorted@[i]));
                let j = choose|j: int| 0 <= j < kept_view.len() && kept_view[j] == sorted@[i];
                assert(offers_only_eligible(kept_view[j], self.character_info));
            }
        }
        self.locations = sorted;
    }
}

} // verus!
