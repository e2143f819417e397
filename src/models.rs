use vstd::prelude::*;

use crate::skill::{SkillItem, SkillType};

verus! {

/// An enemy or dungeon entry of a location.
#[derive(Debug, Clone)]
pub struct Item {
    pub id: u64,
    pub name: String,
    pub level: u64,
}

/// A place in the world and what can be done there.
#[derive(Debug)]
pub struct Location {
    pub id: u64,
    pub key: String,
    pub name: String,
    pub recommended_level: u64,
    pub teleport_cost: u64,
    pub distance: u64,
    pub enemies: Vec<Item>,
    pub dungeons: Vec<Item>,
    pub skill_items: Vec<SkillItem>,
}

/// How to move between locations.
#[derive(Debug, Clone, Copy, PartialEq, Eq, Structural)]
pub enum TravelMode {
    Walk,
    Teleport,
}

/// One character of an account, as the character list shows it.
#[derive(Debug, Clone)]
pub struct Character {
    pub id: u64,
    pub name: String,
    pub class_name: String,
    pub level: u64,
    pub is_current: bool,
}

/// A persisted account record.
#[derive(Debug, Clone)]
pub struct Account {
    pub id: i64,
    pub email: String,
    pub api_token: String,
    pub cookie_str: String,
}

} // verus!
