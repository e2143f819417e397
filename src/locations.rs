use vstd::prelude::*;
use vstd::seq_lib::{to_multiset_build, to_multiset_contains, to_multiset_insert};

use crate::character::{level_for, CharacterInfo};
use crate::models::{Item, Location};
use crate::skill::SkillItem;

verus! {

/// An enemy the character's combat level can take on.
pub open spec fn enemy_eligible(e: Item, info: CharacterInfo) -> bool {
    e.level <= info.combat_level
}

/// An activity item whose required level the character has learned.
pub open spec fn item_eligible(s: SkillItem, info: CharacterInfo) -> bool {
    s.level_required <= level_for(info.skill_level@, s.skill_type)
}

pub open spec fn eligible_enemies(loc: Location, info: CharacterInfo) -> Seq<Item> {
    loc.enemies@.filter(|e: Item| enemy_eligible(e, info))
}

pub open spec fn eligible_items(loc: Location, info: CharacterInfo) -> Seq<SkillItem> {
    loc.skill_items@.filter(|s: SkillItem| item_eligible(s, info))
}

/// Whether a location offers the character anything.
pub open spec fn worth_keeping(loc: Location, info: CharacterInfo) -> bool {
    eligible_enemies(loc, info).len() > 0 || eligible_items(loc, info).len() > 0
}

/// `r` is `loc` with only the enemies and items the character is eligible for.
pub open spec fn narrowed(r: Location, loc: Location, info: CharacterInfo) -> bool {
    &&& r.id == loc.id
    &&& r.key == loc.key
    &&& r.name == loc.name
    &&& r.recommended_level == loc.recommended_level
    &&& r.teleport_cost == loc.teleport_cost
    &&& r.distance == loc.distance
    &&& r.dungeons == loc.dungeons
    &&& r.enemies@ == eligible_enemies(loc, info)
    &&& r.skill_items@ == eligible_items(loc, info)
}

/// `out` holds, in order, the narrowed form of each location of `fetched`
/// worth keeping, and nothing else.
pub open spec fn narrowed_all(fetched: Seq<Location>, out: Seq<Location>, info: CharacterInfo) -> bool
    decreases fetched.len(),
{
    if fetched.len() == 0 {
        out.len() == 0
    } else if worth_keeping(fetched.last(), info) {
        &&& out.len() > 0
        &&& narrowed(out.last(), fetched.last(), info)
        &&& narrowed_all(fetched.drop_last(), out.drop_last(), info)
    } else {
        narrowed_all(fetched.drop_last(), out, info)
    }
}

/// Farthest first.
pub open spec fn sorted_by_distance(s: Seq<Location>) -> bool {
    forall|i: int, j: int| 0 <= i < j < s.len() ==> #[trigger] s[i].distance >= #[trigger] s[j].distance
}

/// What each kept location offers: something, and only what fits.
pub open spec fn offers_only_eligible(loc: Location, info: CharacterInfo) -> bool {
    &&& loc.enemies@.len() > 0 || loc.skill_items@.len() > 0
    &&& forall|j: int| 0 <= j < loc.enemies@.len() ==> enemy_eligible(#[trigger] loc.enemies@[j], info)
    &&& forall|j: int|
        0 <= j < loc.skill_items@.len() ==> item_eligible(#[trigger] loc.skill_items@[j], info)
}

fn retain_enemies(v: Vec<Item>, info: &CharacterInfo) -> (r: Vec<Item>)
    ensures
        r@ == v@.filter(|e: Item| enemy_eligible(e, *info)),
{
    let ghost orig = v@;
    let mut out: Vec<Item> = Vec::new();
    for e in it: v.into_iter()
        invariant
            it.seq() == orig,
            out@ == orig.take(it.index() as int).filter(|e: Item| enemy_eligible(e, *info)),
    {
        proof {
            let k = it.index() as int;
            assert(orig.take(k + 1) =~= orig.take(k).push(orig[k]));
            reveal(Seq::filter);
            assert(orig.take(k).push(orig[k]).drop_last() =~= orig.take(k));
        }
        if e.level <= info.combat_level {
            out.push(e);
        }
    }
    proof {
        assert(orig.take(orig.len() as int) =~= orig);
    }
    out
}

fn retain_items(v: Vec<SkillItem>, info: &CharacterInfo) -> (r: Vec<SkillItem>)
    ensures
        r@ == v@.filter(|s: SkillItem| item_eligible(s, *info)),
{
    let ghost orig = v@;
    let mut out: Vec<SkillItem> = Vec::new();
    for s in it: v.into_iter()
        invariant
            it.seq() == orig,
            out@ == orig.take(it.index() as int).filter(|s: SkillItem| item_eligible(s, *info)),
    {
        proof {
            let k = it.index() as int;
            assert(orig.take(k + 1) =~= orig.take(k).push(orig[k]));
            reveal(Seq::filter);
            assert(orig.take(k).push(orig[k]).drop_last() =~= orig.take(k));
        }
        let learned = info.level_of(s.skill_type);
        if s.level_required <= learned {
            out.push(s);
        }
    }
    proof {
        assert(orig.take(orig.len() as int) =~= orig);
    }
    out
}

proof fn lemma_narrowed_offers(r: Location, loc: Location, info: CharacterInfo)
    requires
        narrowed(r, loc, info),
        worth_keeping(loc, info),
    ensures
        offers_only_eligible(r, info),
{
    let pe = |e: Item| enemy_eligible(e, info);
    let pi = |s: SkillItem| item_eligible(s, info);
    assert forall|j: int| 0 <= j < r.enemies@.len() implies enemy_eligible(#[trigger] r.enemies@[j], info) by {
        loc.enemies@.lemma_filter_pred(pe, j);
    }
    assert forall|j: int| 0 <= j < r.skill_items@.len() implies item_eligible(
        #[trigger] r.skill_items@[j],
        info,
    ) by {
        loc.skill_items@.lemma_filter_pred(pi, j);
    }
}

/// The location with only what the character is eligible for; `None` when
/// that leaves neither enemies nor activity items.
pub fn filter_location(loc: Location, info: &CharacterInfo) -> (r: Option<Location>)
    ensures
        match r {
            None => !worth_keeping(loc, *info),
            Some(l) => worth_keeping(loc, *info) && narrowed(l, loc, *info),
        },
{
    let Location {
        id,
        key,
        name,
        recommended_level,
        teleport_cost,
        distance,
        enemies,
        dungeons,
        skill_items,
    } = loc;
    let enemies = retain_enemies(enemies, info);
    let skill_items = retain_items(skill_items, info);
    if enemies.len() == 0 && skill_items.len() == 0 {
        None
    } else {
        Some(
            Location {
                id,
                key,
                name,
                recommended_level,
                teleport_cost,
                distance,
                enemies,
                dungeons,
                skill_items,
            },
        )
    }
}

/// The same locations in order of distance, farthest first.
pub fn sort_by_distance(v: Vec<Location>) -> (r: Vec<Location>)
    ensures
        r@.to_multiset() == v@.to_multiset(),
        sorted_by_distance(r@),
{
    broadcast use to_multiset_build, to_multiset_insert;

    let ghost orig = v@;
    let mut out: Vec<Location> = Vec::new();
    assert(out@ =~= orig.take(0));
    for x in it: v.into_iter()
        invariant
            it.seq() == orig,
            out@.to_multiset() == orig.take(it.index() as int).to_multiset(),
            sorted_by_distance(out@),
    {
        let ghost k = it.index() as int;
        proof {
            assert(orig.take(k + 1) =~= orig.take(k).push(orig[k]));
        }
        let mut pos: usize = 0;
        while pos < out.len() && out[pos].distance >= x.distance
            invariant
                pos <= out@.len(),
                forall|j: int| 0 <= j < pos ==> #[trigger] out@[j].distance >= x.distance,
            decreases out@.len() - pos,
        {
            pos = pos + 1;
        }
        let ghost before = out@;
        let ghost xv = x;
        out.insert(pos, x);
        proof {
            assert(xv == orig[k]);
            assert(out@ == before.insert(pos as int, xv));
            to_multiset_insert(before, pos as int, xv);
            to_multiset_build(orig.take(k), orig[k]);
            assert(orig.take(k + 1) == orig.take(k).push(orig[k]));
            assert forall|i: int, j: int| 0 <= i < j < out@.len() implies #[trigger] out@[i].distance
                >= #[trigger] out@[j].distance by {
                if pos < before.len() {
                    assert(before[pos as int].distance < x.distance);
                }
                if i < pos && j > pos {
                    assert(before[i].distance >= before[j - 1].distance);
                } else if i > pos {
                    assert(before[i - 1].distance >= before[j - 1].distance);
                } else if i == pos && j > pos {
                    if j - 1 > pos {
                        assert(before[pos as int].distance >= before[j - 1].distance);
                    }
                }
            }
        }
    }
    proof {
        assert(orig.take(orig.len() as int) =~= orig);
    }
    out
}

/// Each location of a narrowed list offers something and only what fits.
pub proof fn lemma_narrowed_all_offers(fetched: Seq<Location>, out: Seq<Location>, info: CharacterInfo)
    requires
        narrowed_all(fetched, out, info),
    ensures
        forall|i: int| 0 <= i < out.len() ==> offers_only_eligible(#[trigger] out[i], info),
    decreases fetched.len(),
{
    if fetched.len() > 0 {
        if worth_keeping(fetched.last(), info) {
            lemma_narrowed_all_offers(fetched.drop_last(), out.drop_last(), info);
            lemma_narrowed_offers(out.last(), fetched.last(), info);
            assert forall|i: int| 0 <= i < out.len() implies offers_only_eligible(#[trigger] out[i], info) by {
                if i < out.len() - 1 {
                    assert(out.drop_last()[i] == out[i]);
                }
            }
        } else {
            lemma_narrowed_all_offers(fetched.drop_last(), out, info);
        }
    }
}

/// Narrows every fetched location and keeps those worth keeping, in order.
pub fn narrow_locations(fetched: Vec<Location>, info: &CharacterInfo) -> (r: Vec<Location>)
    ensures
        narrowed_all(fetched@, r@, *info),
{
    let ghost orig = fetched@;
    let mut out: Vec<Location> = Vec::new();
    for loc in it: fetched.into_iter()
        invariant
            it.seq() == orig,
            narrowed_all(orig.take(it.index() as int), out@, *info),
    {
        let ghost k = it.index() as int;
        let ghost before = out@;
        proof {
            assert(orig.take(k + 1).drop_last() =~= orig.take(k));
            assert(orig.take(k + 1).last() == orig[k]);
        }
        match filter_location(loc, info) {
            Some(l) => {
                out.push(l);
                proof {
                    assert(out@.drop_last() =~= before);
                }
            },
            None => {},
        }
    }
    proof {
        assert(orig.take(orig.len() as int) =~= orig);
    }
    out
}

/// The ids present among the entries of the full location list, in order.
pub open spec fn present_ids(entries: Seq<Option<u64>>) -> Seq<u64>
    decreases entries.len(),
{
    if entries.len() == 0 {
        Seq::empty()
    } else {
        match entries.last() {
            Some(id) => present_ids(entries.drop_last()).push(id),
            None => present_ids(entries.drop_last()),
        }
    }
}

/// Keeps the entries that carry a numeric id.
pub fn collect_location_ids(entries: &Vec<Option<u64>>) -> (r: Vec<u64>)
    ensures
        r@ == present_ids(entries@),
{
    let mut ids: Vec<u64> = Vec::new();
    let mut i: usize = 0;
    while i < entries.len()
        invariant
            i <= entries@.len(),
            ids@ == present_ids(entries@.subrange(0, i as int)),
        decreases entries@.len() - i,
    {
        proof {
            assert(entries@.subrange(0, i + 1).drop_last() =~= entries@.subrange(0, i as int));
        }
        if let Some(id) = entries[i] {
            ids.push(id);
        }
        i = i + 1;
    }
    assert(entries@.subrange(0, entries@.len() as int) =~= entries@);
    ids
}

} // verus!
