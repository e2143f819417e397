use vstd::prelude::*;

use crate::character::CharacterInfo;
use crate::error::AppError;
use crate::models::Location;
use crate::obfuscation::{generate_obfuscated_data, API_VERSION, DEFAULT_KEY};
use crate::selection::{best_skill_result, find_best_skill, ranks_highest};
use crate::skill::{lower_name, SkillConfig, SkillItem};
use crate::travel::{fresh_field, ORIGIN};

verus! {

/// Where and what to start, as chosen from the cached locations.
#[derive(Debug)]
pub struct SkillStartPlan<'a> {
    pub location: &'a Location,
    pub item: &'a SkillItem,
    /// The character stands elsewhere and must teleport first.
    pub needs_travel: bool,
    /// The page whose text holds the start address.
    pub view_url: String,
}

/// The body of a request to start an activity.
#[derive(Debug)]
pub struct SkillStartRequest {
    pub skill_item_id: u64,
    pub quantity: u64,
    pub essence_crystal: Option<u64>,
    pub auto_purchase: bool,
    pub ts2mic5ytx: String,
    pub qty6bx4peh: String,
    pub v: String,
}

/// Chooses the activity to start; an `Application` error when no location
/// offers the configured type.
pub fn plan_skill_start<'a>(
    locations: &'a [Location],
    info: &CharacterInfo,
    config: &SkillConfig,
) -> (r: Result<SkillStartPlan<'a>, AppError>)
    requires
        !(config.filter_by is ItemName),
    ensures
        match r {
            Ok(p) => best_skill_result(
                locations@,
                config.skill_type,
                ranks_highest(config.filter_by),
                Some((p.location, p.item)),
            ) && p.needs_travel == (info.location_id != p.location.id) && p.view_url@ == ORIGIN@
                + "skills/view/"@ + lower_name(config.skill_type),
            Err(e) => best_skill_result(
                locations@,
                config.skill_type,
                ranks_highest(config.filter_by),
                None,
            ) && (e matches AppError::Application(m) && m@ == "No suitable skill found"@),
        },
{
    match find_best_skill(locations, config) {
        None => Err(AppError::Application(String::from_str("No suitable skill found"))),
        Some((location, item)) => {
            let mut view_url = String::from_str(ORIGIN);
            view_url.append("skills/view/");
            view_url.append(config.skill_type.lower_name());
            Ok(SkillStartPlan { location, item, needs_travel: info.location_id != location.id, view_url })
        },
    }
}

/// The request that starts one unit of the chosen item.
pub fn skill_start_request(skill_item_id: u64, config: &SkillConfig) -> (r: SkillStartRequest)
    ensures
        r.skill_item_id == skill_item_id,
        r.quantity == 1,
        r.essence_crystal == config.essence_crystal,
        r.auto_purchase == config.auto_purchase,
        fresh_field(r.ts2mic5ytx@),
        fresh_field(r.qty6bx4peh@),
        r.v@ == API_VERSION@,
{
    proof {
        reveal_strlit("fair-maiden");
    }
    let first = generate_obfuscated_data(None);
    let second = generate_obfuscated_data(None);
    SkillStartRequest {
        skill_item_id,
        quantity: 1,
        essence_crystal: config.essence_crystal,
        auto_purchase: config.auto_purchase,
        ts2mic5ytx: first,
        qty6bx4peh: second,
        v: String::from_str(API_VERSION),
    }
}

} // verus!
