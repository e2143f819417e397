use idlemmo::models::Location;
use idlemmo::selection::{find_best_skill, find_best_skill_for_location};
use idlemmo::skill::{FilterBy, SkillConfig, SkillItem, SkillType};

fn item(id: u64, skill_type: SkillType, level_required: u64) -> SkillItem {
    SkillItem {
        id,
        name: format!("item{id}"),
        skill_type,
        level_required,
        wait_length_ms: 1000,
        requirements: Vec::new(),
        quantity_requirement: 0,
    }
}

fn location(id: u64, distance: u64, skill_items: Vec<SkillItem>) -> Location {
    Location {
        id,
        key: format!("loc-{id}"),
        name: format!("Location {id}"),
        recommended_level: 1,
        teleport_cost: 10,
        distance,
        enemies: Vec::new(),
        dungeons: Vec::new(),
        skill_items,
    }
}

fn config(skill_type: SkillType, filter_by: FilterBy) -> SkillConfig {
    SkillConfig { skill_type, essence_crystal: None, auto_purchase: false, filter_by }
}

#[test]
fn highest_level_of_three_seven_five_is_seven() {
    let locs = vec![location(
        1,
        5,
        vec![item(1, SkillType::Mining, 3), item(2, SkillType::Mining, 7), item(3, SkillType::Mining, 5)],
    )];
    let (l, s) = find_best_skill(&locs, &config(SkillType::Mining, FilterBy::HighestLevelRequired)).unwrap();
    assert_eq!(l.id, 1);
    assert_eq!(s.level_required, 7);
    assert_eq!(s.id, 2);
}

#[test]
fn lowest_level_of_three_seven_five_is_three() {
    let locs = vec![location(
        1,
        5,
        vec![item(1, SkillType::Mining, 3), item(2, SkillType::Mining, 7), item(3, SkillType::Mining, 5)],
    )];
    let (_, s) = find_best_skill(&locs, &config(SkillType::Mining, FilterBy::LowestLevelRequired)).unwrap();
    assert_eq!(s.level_required, 3);
    assert_eq!(s.id, 1);
}

#[test]
fn levels_spread_over_locations() {
    let locs = vec![
        location(1, 5, vec![item(1, SkillType::Mining, 3)]),
        location(2, 9, vec![item(2, SkillType::Mining, 7), item(4, SkillType::Fishing, 50)]),
        location(3, 1, vec![item(3, SkillType::Mining, 5)]),
    ];
    let (l, s) = find_best_skill(&locs, &config(SkillType::Mining, FilterBy::HighestLevelRequired)).unwrap();
    assert_eq!((l.id, s.level_required), (2, 7));
    let (l, s) = find_best_skill(&locs, &config(SkillType::Mining, FilterBy::LowestLevelRequired)).unwrap();
    assert_eq!((l.id, s.level_required), (1, 3));
}

#[test]
fn no_candidate_gives_none() {
    let empty: Vec<Location> = Vec::new();
    assert!(find_best_skill(&empty, &config(SkillType::Mining, FilterBy::HighestLevelRequired)).is_none());
    let locs = vec![location(1, 5, vec![item(1, SkillType::Fishing, 3)]), location(2, 3, Vec::new())];
    assert!(find_best_skill(&locs, &config(SkillType::Mining, FilterBy::LowestLevelRequired)).is_none());
}

#[test]
fn ties_take_last_highest_and_first_lowest() {
    let loc = location(
        1,
        5,
        vec![item(1, SkillType::Mining, 4), item(2, SkillType::Mining, 4), item(3, SkillType::Mining, 4)],
    );
    let high = find_best_skill_for_location(&loc, &config(SkillType::Mining, FilterBy::HighestLevelRequired));
    assert_eq!(high.unwrap().id, 3);
    let low = find_best_skill_for_location(&loc, &config(SkillType::Mining, FilterBy::LowestLevelRequired));
    assert_eq!(low.unwrap().id, 1);
}

#[test]
fn ties_between_locations() {
    let locs = vec![
        location(1, 5, vec![item(1, SkillType::Mining, 6)]),
        location(2, 5, vec![item(2, SkillType::Mining, 6)]),
    ];
    let (l, _) = find_best_skill(&locs, &config(SkillType::Mining, FilterBy::HighestLevelRequired)).unwrap();
    assert_eq!(l.id, 2);
    let (l, _) = find_best_skill(&locs, &config(SkillType::Mining, FilterBy::LowestLevelRequired)).unwrap();
    assert_eq!(l.id, 1);
}
