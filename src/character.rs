use vstd::prelude::*;

use crate::error::AppError;
use crate::numbers::{decimal_u64, parse_u64};
use crate::error::IntErrorKind;
use crate::parser::{all_group_pairs, pair_views, regex_group_pairs, rule_pattern, Parser};
use crate::skill::{lower_of, skill_of_lower, SkillType};

verus! {

/// The character's identity, levels, currencies, health and place.
///
/// `skill_level` pairs each activity type with the level learned in it; the
/// first entry of a type is the one that counts, and updates keep each type
/// to one entry (`levels_unique`).
#[derive(Debug)]
pub struct CharacterInfo {
    pub id: u64,
    pub name: String,
    pub combat_level: u64,
    pub skill_level: Vec<(SkillType, u64)>,
    pub total_level: u64,
    pub gold: u64,
    pub tokens: u64,
    pub shards: u64,
    pub health: u64,
    pub max_health: u64,
    pub location_id: u64,
}

/// The level of the first entry of type `t`.
pub open spec fn level_entry(entries: Seq<(SkillType, u64)>, t: SkillType) -> Option<u64>
    decreases entries.len(),
{
    if entries.len() == 0 {
        None
    } else if entries[0].0 == t {
        Some(entries[0].1)
    } else {
        level_entry(entries.subrange(1, entries.len() as int), t)
    }
}

/// No activity type has two entries.
pub open spec fn levels_unique(entries: Seq<(SkillType, u64)>) -> bool {
    forall|i: int, j: int|
        0 <= i < j < entries.len() ==> (#[trigger] entries[i]).0 != (#[trigger] entries[j]).0
}

/// The learned levels, one per activity type that has been recorded.
pub open spec fn skill_levels(entries: Seq<(SkillType, u64)>) -> Map<SkillType, u64> {
    Map::new(|t: SkillType| level_entry(entries, t) is Some, |t: SkillType| level_entry(entries, t)->0)
}

/// The learned level for `t`; zero while none is recorded.
pub open spec fn level_for(entries: Seq<(SkillType, u64)>, t: SkillType) -> u64 {
    match level_entry(entries, t) {
        Some(v) => v,
        None => 0,
    }
}

/// `a` and `b` agree on everything but the learned levels.
pub open spec fn same_but_levels(a: CharacterInfo, b: CharacterInfo) -> bool {
    &&& a.id == b.id
    &&& a.name == b.name
    &&& a.combat_level == b.combat_level
    &&& a.total_level == b.total_level
    &&& a.gold == b.gold
    &&& a.tokens == b.tokens
    &&& a.shards == b.shards
    &&& a.health == b.health
    &&& a.max_health == b.max_health
    &&& a.location_id == b.location_id
}

proof fn lemma_entry_at_first(entries: Seq<(SkillType, u64)>, i: int, t: SkillType, u: SkillType, v: u64)
    requires
        0 <= i < entries.len(),
        entries[i].0 == t,
        forall|j: int| 0 <= j < i ==> (#[trigger] entries[j]).0 != t,
    ensures
        level_entry(entries.update(i, (t, v)), u) == if u == t {
            Some(v)
        } else {
            level_entry(entries, u)
        },
    decreases i,
{
    let e2 = entries.update(i, (t, v));
    if i > 0 {
        let rest = entries.subrange(1, entries.len() as int);
        assert(e2.subrange(1, e2.len() as int) =~= rest.update(i - 1, (t, v)));
        assert(forall|j: int| 0 <= j < i - 1 ==> #[trigger] rest[j] == entries[j + 1]);
        assert(entries[0].0 != t);
        assert(e2[0] == entries[0]);
        lemma_entry_at_first(rest, i - 1, t, u, v);
    } else {
        assert(e2.subrange(1, e2.len() as int) =~= entries.subrange(1, entries.len() as int));
        assert(e2[0] == (t, v));
    }
}

proof fn lemma_entry_pushed(entries: Seq<(SkillType, u64)>, t: SkillType, u: SkillType, v: u64)
    requires
        forall|j: int| 0 <= j < entries.len() ==> (#[trigger] entries[j]).0 != t,
    ensures
        level_entry(entries.push((t, v)), u) == if u == t {
            Some(v)
        } else {
            level_entry(entries, u)
        },
    decreases entries.len(),
{
    let e2 = entries.push((t, v));
    if entries.len() > 0 {
        let rest = entries.subrange(1, entries.len() as int);
        assert(e2.subrange(1, e2.len() as int) =~= rest.push((t, v)));
        assert(forall|j: int| 0 <= j < rest.len() ==> #[trigger] rest[j] == entries[j + 1]);
        assert(entries[0].0 != t);
        assert(e2[0] == entries[0]);
        lemma_entry_pushed(rest, t, u, v);
    } else {
        assert(e2.subrange(1, e2.len() as int) =~= Seq::<(SkillType, u64)>::empty());
        assert(level_entry(e2.subrange(1, e2.len() as int), u) is None);
        assert(e2[0] == (t, v));
    }
}

proof fn lemma_entry_absent(entries: Seq<(SkillType, u64)>, t: SkillType)
    requires
        forall|j: int| 0 <= j < entries.len() ==> (#[trigger] entries[j]).0 != t,
    ensures
        level_entry(entries, t) is None,
    decreases entries.len(),
{
    if entries.len() > 0 {
        let rest = entries.subrange(1, entries.len() as int);
        assert(forall|j: int| 0 <= j < rest.len() ==> #[trigger] rest[j] == entries[j + 1]);
        assert(entries[0].0 != t);
        lemma_entry_absent(rest, t);
    }
}

proof fn lemma_entry_found(entries: Seq<(SkillType, u64)>, i: int, t: SkillType)
    requires
        0 <= i < entries.len(),
        entries[i].0 == t,
        forall|j: int| 0 <= j < i ==> (#[trigger] entries[j]).0 != t,
    ensures
        level_entry(entries, t) == Some(entries[i].1),
    decreases i,
{
    if i > 0 {
        let rest = entries.subrange(1, entries.len() as int);
        assert(forall|j: int| 0 <= j < rest.len() ==> #[trigger] rest[j] == entries[j + 1]);
        assert(entries[0].0 != t);
        lemma_entry_found(rest, i - 1, t);
    }
}

/// Position of the first entry of type `t`.
fn find_entry(entries: &Vec<(SkillType, u64)>, t: SkillType) -> (r: Option<usize>)
    ensures
        match r {
            Some(i) => i < entries@.len() && entries@[i as int].0 == t && forall|j: int|
                0 <= j < i ==> (#[trigger] entries@[j]).0 != t,
            None => forall|j: int| 0 <= j < entries@.len() ==> (#[trigger] entries@[j]).0 != t,
        },
{
    let mut i: usize = 0;
    while i < entries.len()
        invariant
            i <= entries@.len(),
            forall|j: int| 0 <= j < i ==> (#[trigger] entries@[j]).0 != t,
        decreases entries.len() - i,
    {
        if entries[i].0 == t {
            return Some(i);
        }
        i = i + 1;
    }
    None
}

impl CharacterInfo {
    /// A record with nothing known yet.
    pub fn empty() -> (r: CharacterInfo)
        ensures
            r.id == 0 && r.name@.len() == 0 && r.combat_level == 0 && r.skill_level@.len() == 0
                && r.total_level == 0 && r.gold == 0 && r.tokens == 0 && r.shards == 0
                && r.health == 0 && r.max_health == 0 && r.location_id == 0,
    {
        CharacterInfo {
            id: 0,
            name: String::new(),
            combat_level: 0,
            skill_level: Vec::new(),
            total_level: 0,
            gold: 0,
            tokens: 0,
            shards: 0,
            health: 0,
            max_health: 0,
            location_id: 0,
        }
    }

    /// The learned level for an activity type; zero while none is recorded.
    pub fn level_of(&self, skill_type: SkillType) -> (r: u64)
        ensures
            r == level_for(self.skill_level@, skill_type),
    {
        match find_entry(&self.skill_level, skill_type) {
            Some(i) => {
                proof {
                    lemma_entry_found(self.skill_level@, i as int, skill_type);
                }
                self.skill_level[i].1
            },
            None => {
                proof {
                    lemma_entry_absent(self.skill_level@, skill_type);
                }
                0
            },
        }
    }

    /// Records the level read from `value` for `skill_type`; a `ParseInt`
    /// error, and no change, when `value` is not a decimal `u64`.
    pub fn update_skill(&mut self, skill_type: SkillType, value: &str) -> (r: Result<(), AppError>)
        ensures
            same_but_levels(*final(self), *old(self)),
            levels_unique(old(self).skill_level@) ==> levels_unique(final(self).skill_level@),
            match decimal_u64(value@) {
                Ok(v) => r is Ok && skill_levels(final(self).skill_level@) == skill_levels(
                    old(self).skill_level@,
                ).insert(skill_type, v),
                Err(e) => r matches Err(AppError::ParseInt(k)) && k == e && final(self).skill_level@
                    == old(self).skill_level@,
            },
    {
        let value_int = match parse_u64(value) {
            Ok(v) => v,
            Err(e) => {
                return Err(AppError::ParseInt(e));
            },
        };
        let ghost before = self.skill_level@;
        match find_entry(&self.skill_level, skill_type) {
            Some(i) => {
                self.skill_level.set(i, (skill_type, value_int));
                proof {
                    assert forall|u: SkillType| #[trigger]
                        level_entry(self.skill_level@, u) == if u == skill_type {
                            Some(value_int)
                        } else {
                            level_entry(before, u)
                        } by {
                        lemma_entry_at_first(before, i as int, skill_type, u, value_int);
                    }
                }
            },
            None => {
                self.skill_level.push((skill_type, value_int));
                proof {
                    assert forall|u: SkillType| #[trigger]
                        level_entry(self.skill_level@, u) == if u == skill_type {
                            Some(value_int)
                        } else {
                            level_entry(before, u)
                        } by {
                        lemma_entry_pushed(before, skill_type, u, value_int);
                    }
                }
            },
        }
        assert(skill_levels(self.skill_level@) =~= skill_levels(before).insert(
            skill_type,
            value_int,
        ));
        Ok(())
    }
}

/// The learned levels after reading each (level, type name) pair in order;
/// the first pair that fails gives the error: `None` for an unknown type
/// name, the number error for a bad level.
pub open spec fn levels_after(levels: Map<SkillType, u64>, pairs: Seq<(Seq<char>, Seq<char>)>) -> Result<
    Map<SkillType, u64>,
    Option<IntErrorKind>,
>
    decreases pairs.len(),
{
    if pairs.len() == 0 {
        Ok(levels)
    } else {
        match skill_of_lower(lower_of(pairs[0].1)) {
            None => Err(None),
            Some(t) => match decimal_u64(pairs[0].0) {
                Err(e) => Err(Some(e)),
                Ok(v) => levels_after(levels.insert(t, v), pairs.subrange(1, pairs.len() as int)),
            },
        }
    }
}

pub open spec fn levels_outcome(
    old_levels: Seq<(SkillType, u64)>,
    new_levels: Seq<(SkillType, u64)>,
    pairs: Seq<(Seq<char>, Seq<char>)>,
    r: Result<(), AppError>,
) -> bool {
    match levels_after(skill_levels(old_levels), pairs) {
        Ok(m) => r is Ok && skill_levels(new_levels) == m,
        Err(None) => r matches Err(AppError::Parse(msg)) && msg@ == "Failed to parse skill type."@,
        Err(Some(k)) => r matches Err(AppError::ParseInt(k2)) && k2 == k,
    }
}

impl CharacterInfo {
    /// Records the level of each (level, type name) pair in order, stopping
    /// at the first that fails.
    pub fn apply_skill_pairs(&mut self, pairs: &Vec<(String, String)>) -> (r: Result<(), AppError>)
        ensures
            same_but_levels(*final(self), *old(self)),
            levels_unique(old(self).skill_level@) ==> levels_unique(final(self).skill_level@),
            levels_outcome(old(self).skill_level@, final(self).skill_level@, pair_views(pairs@), r),
    {
        let ghost all = pair_views(pairs@);
        let ghost start = skill_levels(self.skill_level@);
        let mut i: usize = 0;
        assert(all.subrange(0, all.len() as int) =~= all);
        while i < pairs.len()
            invariant
                i <= pairs@.len(),
                all == pair_views(pairs@),
                all.len() == pairs@.len(),
                same_but_levels(*self, *old(self)),
                levels_unique(old(self).skill_level@) ==> levels_unique(self.skill_level@),
                start == skill_levels(old(self).skill_level@),
                levels_after(start, all) == levels_after(
                    skill_levels(self.skill_level@),
                    all.subrange(i as int, all.len() as int),
                ),
            decreases pairs@.len() - i,
        {
            let ghost rest = all.subrange(i as int, all.len() as int);
            assert(rest[0] == (pairs@[i as int].0@, pairs@[i as int].1@));
            assert(rest.subrange(1, rest.len() as int) =~= all.subrange(i + 1, all.len() as int));
            let skill_type = match SkillType::from_str(pairs[i].1.as_str()) {
                Ok(t) => t,
                Err(e) => {
                    return Err(e);
                },
            };
            match self.update_skill(skill_type, pairs[i].0.as_str()) {
                Ok(()) => {},
                Err(e) => {
                    return Err(e);
                },
            }
            i = i + 1;
        }
        proof {
            assert(all.subrange(i as int, all.len() as int) =~= Seq::<(Seq<char>, Seq<char>)>::empty());
        }
        Ok(())
    }

    /// Reads the learned levels that a page shows, with the skill-data rule.
    pub fn apply_skill_data(&mut self, html: &str) -> (r: Result<(), AppError>)
        ensures
            same_but_levels(*final(self), *old(self)),
            levels_unique(old(self).skill_level@) ==> levels_unique(final(self).skill_level@),
            levels_outcome(
                old(self).skill_level@,
                final(self).skill_level@,
                regex_group_pairs(rule_pattern(Parser::SkillData), html@),
                r,
            ),
    {
        let pairs = all_group_pairs(Parser::SkillData.to_regex(), html);
        self.apply_skill_pairs(&pairs)
    }
}

} // verus!
