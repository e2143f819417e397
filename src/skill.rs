use vstd::prelude::*;

use crate::error::AppError;

verus! {

/// A category of in-world work that a character can level up.
#[derive(Debug, Clone, Copy, PartialEq, Eq, Structural)]
pub enum SkillType {
    /// No activity; what an unset type means.
    NoSkill,
    Woodcutting,
    Mining,
    Fishing,
    Alchemy,
    Smelting,
    Cooking,
    Forge,
    Meditation,
    Travelling,
}

/// A unit of work at a location.
#[derive(Debug)]
pub struct SkillItem {
    pub id: u64,
    pub name: String,
    pub skill_type: SkillType,
    pub level_required: u64,
    pub wait_length_ms: u64,
    pub requirements: Vec<SkillItem>,
    pub quantity_requirement: u64,
}

/// What a request to start an activity carries.
#[derive(Debug, Clone, PartialEq, Eq, Structural)]
pub struct SkillRequestData {
    pub skill_item_id: u64,
    pub quantity: u64,
    pub essence_crystal: Option<u64>,
    pub auto_purchase: bool,
}

/// How to rank candidate activity items.
#[derive(Debug, Clone)]
pub enum FilterBy {
    HighestLevelRequired,
    LowestLevelRequired,
    ItemName(String),
}

/// What activity to look for and how to start it.
#[derive(Debug, Clone)]
pub struct SkillConfig {
    pub skill_type: SkillType,
    pub essence_crystal: Option<u64>,
    pub auto_purchase: bool,
    pub filter_by: FilterBy,
}

/// The lower-case form of a text.
pub uninterp spec fn lower_of(s: Seq<char>) -> Seq<char>;

/// Relies on `str::to_lowercase`: the result depends on the characters alone.
#[verifier::external_body]
fn lowercase(s: &str) -> (r: String)
    ensures
        r@ == lower_of(s@),
{
    s.to_lowercase()
}

/// The name of an activity type, as it is displayed.
pub open spec fn skill_name(t: SkillType) -> Seq<char> {
    match t {
        SkillType::NoSkill => "None"@,
        SkillType::Woodcutting => "Woodcutting"@,
        SkillType::Mining => "Mining"@,
        SkillType::Fishing => "Fishing"@,
        SkillType::Alchemy => "Alchemy"@,
        SkillType::Smelting => "Smelting"@,
        SkillType::Cooking => "Cooking"@,
        SkillType::Forge => "Forge"@,
        SkillType::Meditation => "Meditation"@,
        SkillType::Travelling => "Travelling"@,
    }
}

/// The name in lower case, as the server's addresses write it.
pub open spec fn lower_name(t: SkillType) -> Seq<char> {
    match t {
        SkillType::NoSkill => "none"@,
        SkillType::Woodcutting => "woodcutting"@,
        SkillType::Mining => "mining"@,
        SkillType::Fishing => "fishing"@,
        SkillType::Alchemy => "alchemy"@,
        SkillType::Smelting => "smelting"@,
        SkillType::Cooking => "cooking"@,
        SkillType::Forge => "forge"@,
        SkillType::Meditation => "meditation"@,
        SkillType::Travelling => "travelling"@,
    }
}

/// The activity type whose lower-case name is `lower`, if any.
pub open spec fn skill_of_lower(lower: Seq<char>) -> Option<SkillType> {
    if lower == "none"@ {
        Some(SkillType::NoSkill)
    } else if lower == "woodcutting"@ {
        Some(SkillType::Woodcutting)
    } else if lower == "mining"@ {
        Some(SkillType::Mining)
    } else if lower == "fishing"@ {
        Some(SkillType::Fishing)
    } else if lower == "alchemy"@ {
        Some(SkillType::Alchemy)
    } else if lower == "smelting"@ {
        Some(SkillType::Smelting)
    } else if lower == "cooking"@ {
        Some(SkillType::Cooking)
    } else if lower == "forge"@ {
        Some(SkillType::Forge)
    } else if lower == "meditation"@ {
        Some(SkillType::Meditation)
    } else if lower == "travelling"@ {
        Some(SkillType::Travelling)
    } else {
        None
    }
}

/// Whether two texts hold the same characters.
pub fn same_text(a: &str, b: &str) -> (r: bool)
    ensures
        r == (a@ == b@),
{
    let n = a.unicode_len();
    if n != b.unicode_len() {
        return false;
    }
    let mut i: usize = 0;
    while i < n
        invariant
            i <= n,
            n == a@.len(),
            n == b@.len(),
            forall|j: int| 0 <= j < i ==> a@[j] == b@[j],
        decreases n - i,
    {
        if a.get_char(i) != b.get_char(i) {
            return false;
        }
        i = i + 1;
    }
    assert(a@ =~= b@);
    true
}

impl SkillType {
    /// The displayed name.
    pub fn name(&self) -> (r: &'static str)
        ensures
            r@ == skill_name(*self),
    {
        match self {
            SkillType::NoSkill => "None",
            SkillType::Woodcutting => "Woodcutting",
            SkillType::Mining => "Mining",
            SkillType::Fishing => "Fishing",
            SkillType::Alchemy => "Alchemy",
            SkillType::Smelting => "Smelting",
            SkillType::Cooking => "Cooking",
            SkillType::Forge => "Forge",
            SkillType::Meditation => "Meditation",
            SkillType::Travelling => "Travelling",
        }
    }

    /// The name in lower case.
    pub fn lower_name(&self) -> (r: &'static str)
        ensures
            r@ == lower_name(*self),
    {
        match self {
            SkillType::NoSkill => "none",
            SkillType::Woodcutting => "woodcutting",
            SkillType::Mining => "mining",
            SkillType::Fishing => "fishing",
            SkillType::Alchemy => "alchemy",
            SkillType::Smelting => "smelting",
            SkillType::Cooking => "cooking",
            SkillType::Forge => "forge",
            SkillType::Meditation => "meditation",
            SkillType::Travelling => "travelling",
        }
    }

    /// The activity type whose lower-case name is `lower`.
    pub fn from_lowercase(lower: &str) -> (r: Option<SkillType>)
        ensures
            r == skill_of_lower(lower@),
    {
        let r =
        if same_text(lower, "none") {
            Some(SkillType::NoSkill)
        } else if same_text(lower, "woodcutting") {
            Some(SkillType::Woodcutting)
        } else if same_text(lower, "mining") {
            Some(SkillType::Mining)
        } else if same_text(lower, "fishing") {
            Some(SkillType::Fishing)
        } else if same_text(lower, "alchemy") {
            Some(SkillType::Alchemy)
        } else if same_text(lower, "smelting") {
            Some(SkillType::Smelting)
        } else if same_text(lower, "cooking") {
            Some(SkillType::Cooking)
        } else if same_text(lower, "forge") {
            Some(SkillType::Forge)
        } else if same_text(lower, "meditation") {
            Some(SkillType::Meditation)
        } else if same_text(lower, "travelling") {
            Some(SkillType::Travelling)
        } else {
            None
        };
        r
    }

    /// Reads an activity type from its name in any case; a `Parse` error when
    /// no type has that name.
    pub fn from_str(input_string: &str) -> (r: Result<SkillType, AppError>)
        ensures
            match skill_of_lower(lower_of(input_string@)) {
                Some(t) => r == Ok::<SkillType, AppError>(t),
                None => r matches Err(AppError::Parse(m)) && m@ == "Failed to parse skill type."@,
            },
    {
        let lower = lowercase(input_string);
        match SkillType::from_lowercase(lower.as_str()) {
            Some(t) => Ok(t),
            None => Err(AppError::Parse(String::from_str("Failed to parse skill type."))),
        }
    }
}

} // verus!
