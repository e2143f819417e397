use vstd::prelude::*;

use crate::models::Location;
use crate::skill::{FilterBy, SkillConfig, SkillItem, SkillType};

verus! {

/// `b` is the candidate chosen among `keys` (`None` entries are no
/// candidates): when `highest`, the last of the greatest keys; otherwise the
/// first of the least.
pub open spec fn picks(keys: Seq<Option<u64>>, highest: bool, b: int) -> bool {
    &&& 0 <= b < keys.len()
    &&& keys[b] is Some
    &&& forall|j: int|
        #![trigger keys[j]]
        0 <= j < keys.len() && keys[j] is Some ==> if highest {
            keys[j]->0 <= keys[b]->0 && (j > b ==> keys[j]->0 < keys[b]->0)
        } else {
            keys[j]->0 >= keys[b]->0 && (j < b ==> keys[j]->0 > keys[b]->0)
        }
}

pub open spec fn has_candidate(keys: Seq<Option<u64>>) -> bool {
    exists|j: int| 0 <= j < keys.len() && #[trigger] keys[j] is Some
}

/// The level each item requires, for the items of type `ty`.
pub open spec fn item_keys(items: Seq<SkillItem>, ty: SkillType) -> Seq<Option<u64>> {
    Seq::new(
        items.len(),
        |j: int|
            if items[j].skill_type == ty {
                Some(items[j].level_required)
            } else {
                None
            },
    )
}

/// The level of the item a location offers under the ranking, if any.
pub open spec fn location_key(loc: Location, ty: SkillType, highest: bool) -> Option<u64> {
    let keys = item_keys(loc.skill_items@, ty);
    if has_candidate(keys) {
        Some(keys[choose|b: int| picks(keys, highest, b)]->0)
    } else {
        None
    }
}

pub open spec fn location_keys(locs: Seq<Location>, ty: SkillType, highest: bool) -> Seq<
    Option<u64>,
> {
    Seq::new(locs.len(), |i: int| location_key(locs[i], ty, highest))
}

pub open spec fn ranks_highest(f: FilterBy) -> bool {
    f is HighestLevelRequired
}

/// What `find_best_skill` returns: nothing when no location offers an item of
/// type `ty`; otherwise the chosen location and its chosen item.
pub open spec fn best_skill_result(
    locations: Seq<Location>,
    ty: SkillType,
    highest: bool,
    r: Option<(&Location, &SkillItem)>,
) -> bool {
    match r {
        None => forall|i: int|
            0 <= i < locations.len() ==> !has_candidate(
                #[trigger] item_keys(locations[i].skill_items@, ty),
            ),
        Some((l, s)) => exists|i: int, b: int|
            picks(location_keys(locations, ty, highest), highest, i) && *l == locations[i]
                && picks(item_keys(l.skill_items@, ty), highest, b) && *s == l.skill_items@[b],
    }
}

/// At most one candidate is chosen.
pub proof fn lemma_picks_unique(keys: Seq<Option<u64>>, highest: bool, b1: int, b2: int)
    requires
        picks(keys, highest, b1),
        picks(keys, highest, b2),
    ensures
        b1 == b2,
{
    assert(keys[b1] is Some && keys[b2] is Some);
}

/// Where there is a candidate, one of them is chosen.
pub proof fn lemma_pick_exists(keys: Seq<Option<u64>>, highest: bool)
    requires
        has_candidate(keys),
    ensures
        exists|b: int| picks(keys, highest, b),
    decreases keys.len(),
{
    let n = keys.len() as int;
    let pre = keys.drop_last();
    assert(forall|j: int| 0 <= j < n - 1 ==> #[trigger] pre[j] == keys[j]);
    if has_candidate(pre) {
        lemma_pick_exists(pre, highest);
        let b = choose|b: int| picks(pre, highest, b);
        assert(forall|j: int| 0 <= j < n - 1 && #[trigger] keys[j] is Some ==> pre[j] is Some);
        if keys[n - 1] is Some && ((highest && keys[n - 1]->0 >= keys[b]->0) || (!highest
            && keys[n - 1]->0 < keys[b]->0)) {
            assert forall|j: int| 0 <= j < n - 1 && #[trigger] keys[j] is Some implies if highest {
                keys[j]->0 <= keys[n - 1]->0
            } else {
                keys[j]->0 > keys[n - 1]->0
            } by {
                assert(pre[j] is Some);
            }
            assert(picks(keys, highest, n - 1));
        } else {
            assert forall|j: int| 0 <= j < n - 1 && #[trigger] keys[j] is Some implies if highest {
                keys[j]->0 <= keys[b]->0 && (j > b ==> keys[j]->0 < keys[b]->0)
            } else {
                keys[j]->0 >= keys[b]->0 && (j < b ==> keys[j]->0 > keys[b]->0)
            } by {
                assert(pre[j] is Some);
            }
            assert(picks(keys, highest, b));
        }
    } else {
        let w = choose|j: int| 0 <= j < keys.len() && #[trigger] keys[j] is Some;
        if w < n - 1 {
            assert(pre[w] is Some);
        }
        assert forall|j: int| 0 <= j < n - 1 implies !(#[trigger] keys[j] is Some) by {
            assert(!(pre[j] is Some));
        }
        assert(picks(keys, highest, n - 1));
    }
}

/// Chooses among `keys` as `picks` says; `None` when there is no candidate.
fn pick_index(keys: &Vec<Option<u64>>, highest: bool) -> (r: Option<usize>)
    ensures
        match r {
            None => !has_candidate(keys@),
            Some(b) => picks(keys@, highest, b as int),
        },
{
    let mut best: Option<usize> = None;
    let mut i: usize = 0;
    while i < keys.len()
        invariant
            i <= keys.len(),
            match best {
                None => forall|j: int| 0 <= j < i ==> !(#[trigger] keys@[j] is Some),
                Some(b) => picks(keys@.subrange(0, i as int), highest, b as int),
            },
        decreases keys.len() - i,
    {
        let ghost prev = keys@.subrange(0, i as int);
        let ghost next = keys@.subrange(0, i + 1);
        assert(forall|j: int| 0 <= j < i ==> #[trigger] next[j] == prev[j]);
        if let Some(k) = keys[i] {
            match best {
                None => {
                    best = Some(i);
                },
                Some(b) => {
                    let kb = keys[b].unwrap();
                    assert(prev[b as int] == keys@[b as int]);
                    if (highest && k >= kb) || (!highest && k < kb) {
                        best = Some(i);
                    }
                },
            }
        }
        i = i + 1;
    }
    proof {
        assert(keys@.subrange(0, keys@.len() as int) =~= keys@);
    }
    best
}

/// The best item of the configured type at one location.
pub fn find_best_skill_for_location<'a>(location: &'a Location, config: &SkillConfig) -> (r:
    Option<&'a SkillItem>)
    requires
        !(config.filter_by is ItemName),
    ensures
        ({
            let keys = item_keys(location.skill_items@, config.skill_type);
            let highest = ranks_highest(config.filter_by);
            match r {
                None => !has_candidate(keys),
                Some(s) => exists|b: int|
                    picks(keys, highest, b) && *s == location.skill_items@[b],
            }
        }),
{
    let highest = match config.filter_by {
        FilterBy::HighestLevelRequired => true,
        _ => false,
    };
    assert(highest == ranks_highest(config.filter_by));
    let items = &location.skill_items;
    let mut keys: Vec<Option<u64>> = Vec::new();
    let mut j: usize = 0;
    while j < items.len()
        invariant
            j <= items.len(),
            keys@.len() == j,
            forall|k: int|
                0 <= k < j ==> #[trigger] keys@[k] == item_keys(items@, config.skill_type)[k],
        decreases items.len() - j,
    {
        if items[j].skill_type == config.skill_type {
            keys.push(Some(items[j].level_required));
        } else {
            keys.push(None);
        }
        j = j + 1;
    }
    assert(keys@ =~= item_keys(items@, config.skill_type));
    match pick_index(&keys, highest) {
        None => None,
        Some(b) => {
            assert(picks(item_keys(items@, config.skill_type), highest, b as int));
            Some(&items[b])
        },
    }
}

/// The best item of the configured type over all locations, with its
/// location: the best item of each location first, then the best of those
/// under the same ranking. `None` when no location offers the type.
pub fn find_best_skill<'a>(locations: &'a [Location], config: &SkillConfig) -> (r: Option<
    (&'a Location, &'a SkillItem),
>)
    requires
        !(config.filter_by is ItemName),
    ensures
        best_skill_result(locations@, config.skill_type, ranks_highest(config.filter_by), r),
{
    let ghost ty = config.skill_type;
    let ghost highest = ranks_highest(config.filter_by);
    let is_highest = match config.filter_by {
        FilterBy::HighestLevelRequired => true,
        _ => false,
    };
    let mut keys: Vec<Option<u64>> = Vec::new();
    let mut i: usize = 0;
    while i < locations.len()
        invariant
            i <= locations@.len(),
            keys@.len() == i,
            is_highest == highest,
            highest == ranks_highest(config.filter_by),
            ty == config.skill_type,
            !(config.filter_by is ItemName),
            forall|k: int|
                0 <= k < i ==> #[trigger] keys@[k] == location_keys(locations@, ty, highest)[k],
        decreases locations@.len() - i,
    {
        match find_best_skill_for_location(&locations[i], config) {
            None => {
                keys.push(None);
            },
            Some(s) => {
                proof {
                    let ks = item_keys(locations@[i as int].skill_items@, ty);
                    let b = choose|b: int| picks(ks, highest, b) && *s == locations@[i as int].skill_items@[b];
                    let c = choose|c: int| picks(ks, highest, c);
                    lemma_picks_unique(ks, highest, b, c);
                    assert(ks[b] == Some(s.level_required));
                }
                keys.push(Some(s.level_required));
            },
        }
        i = i + 1;
    }
    assert(keys@ =~= location_keys(locations@, ty, highest));
    match pick_index(&keys, is_highest) {
        None => {
            proof {
                assert forall|i: int| 0 <= i < locations@.len() implies !has_candidate(
                    #[trigger] item_keys(locations@[i].skill_items@, ty),
                ) by {
                    assert(!(keys@[i] is Some));
                    assert(location_keys(locations@, ty, highest)[i] == location_key(
                        locations@[i],
                        ty,
                        highest,
                    ));
                }
                assert(best_skill_result(locations@, ty, highest, None));
            }
            None
        },
        Some(b) => {
            let loc = &locations[b];
            match find_best_skill_for_location(loc, config) {
                Some(s) => {
                    proof {
                        let b2 = choose|b2: int|
                            picks(item_keys(loc.skill_items@, ty), highest, b2) && *s
                                == loc.skill_items@[b2];
                        assert(picks(location_keys(locations@, ty, highest), highest, b as int)
                            && *loc == locations@[b as int] && picks(
                            item_keys(loc.skill_items@, ty),
                            highest,
                            b2,
                        ) && *s == loc.skill_items@[b2]);
                        assert(best_skill_result(locations@, ty, highest, Some((loc, s))));
                    }
                    Some((loc, s))
                },
                None => {
                    proof {
                        assert(keys@[b as int] is Some);
                        assert(location_keys(locations@, ty, highest)[b as int] == location_key(
                            locations@[b as int],
                            ty,
                            highest,
                        ));
                        assert(*loc == locations@[b as int]);
                        assert(false);
                    }
                    None
                },
            }
        },
    }
}

/// Under either ranking, the chosen item is extreme among all items of the
/// requested type in every location: no item requires more than it when the
/// highest is asked for, none requires less when the lowest is.
pub proof fn lemma_best_skill_is_extreme(
    locations: Seq<Location>,
    ty: SkillType,
    highest: bool,
    i: int,
    b: int,
)
    requires
        picks(location_keys(locations, ty, highest), highest, i),
        picks(item_keys(locations[i].skill_items@, ty), highest, b),
    ensures
        forall|i2: int, j2: int|
            0 <= i2 < locations.len() && 0 <= j2 < locations[i2].skill_items@.len()
                && (#[trigger] locations[i2].skill_items@[j2]).skill_type == ty ==> if highest {
                locations[i2].skill_items@[j2].level_required
                    <= locations[i].skill_items@[b].level_required
            } else {
                locations[i2].skill_items@[j2].level_required
                    >= locations[i].skill_items@[b].level_required
            },
{
    let lk = location_keys(locations, ty, highest);
    let ks = item_keys(locations[i].skill_items@, ty);
    let c = choose|c: int| picks(ks, highest, c);
    lemma_picks_unique(ks, highest, b, c);
    assert forall|i2: int, j2: int|
        0 <= i2 < locations.len() && 0 <= j2 < locations[i2].skill_items@.len()
            && (#[trigger] locations[i2].skill_items@[j2]).skill_type == ty implies if highest {
        locations[i2].skill_items@[j2].level_required
            <= locations[i].skill_items@[b].level_required
    } else {
        locations[i2].skill_items@[j2].level_required
            >= locations[i].skill_items@[b].level_required
    } by {
        let ks2 = item_keys(locations[i2].skill_items@, ty);
        assert(ks2[j2] is Some);
        assert(has_candidate(ks2));
        lemma_pick_exists(ks2, highest);
        let c2 = choose|c2: int| picks(ks2, highest, c2);
        assert(ks2[j2] is Some);
        assert(lk[i2] == Some(ks2[c2]->0));
        assert(lk[i2] is Some);
        assert(lk[i] == Some(ks[c]->0));
    }
}

} // verus!
