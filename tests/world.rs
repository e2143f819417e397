use idlemmo::cache::{CachedData, LocationsStep};
use idlemmo::character::CharacterInfo;
use idlemmo::error::AppError;
use idlemmo::locations::{collect_location_ids, filter_location, sort_by_distance};
use idlemmo::models::{Item, Location};
use idlemmo::skill::{SkillItem, SkillType};

fn enemy(level: u64) -> Item {
    Item { id: level, name: format!("enemy{level}"), level }
}

fn item(id: u64, skill_type: SkillType, level_required: u64) -> SkillItem {
    SkillItem {
        id,
        name: format!("item{id}"),
        skill_type,
        level_required,
        wait_length_ms: 0,
        requirements: Vec::new(),
        quantity_requirement: 0,
    }
}

fn location(id: u64, distance: u64, enemies: Vec<Item>, skill_items: Vec<SkillItem>) -> Location {
    Location {
        id,
        key: format!("loc-{id}"),
        name: format!("Location {id}"),
        recommended_level: 1,
        teleport_cost: 100,
        distance,
        enemies,
        dungeons: Vec::new(),
        skill_items,
    }
}

fn info(combat_level: u64) -> CharacterInfo {
    let mut c = CharacterInfo::empty();
    c.combat_level = combat_level;
    c.update_skill(SkillType::Mining, "10").unwrap();
    c
}

const PAGE: &str = r#"<meta name="csrf-token" content="tok12345"> "https://web.idle-mmo.com/api/locations/all?x=1""#;

#[test]
fn cached_list_is_returned_without_fetching() {
    let mut cache = CachedData::new();
    cache.apply_page(PAGE.to_string()).unwrap();
    cache.character_info = info(1);
    cache.store_locations(vec![location(1, 5, vec![], vec![item(1, SkillType::Mining, 1)])]);
    match cache.begin_locations(true).unwrap() {
        LocationsStep::Cached(v) => assert_eq!(v.len(), 1),
        other => panic!("unexpected {other:?}"),
    }
}

#[test]
fn reuse_not_allowed_or_empty_cache_fetches() {
    let mut cache = CachedData::new();
    cache.apply_page(PAGE.to_string()).unwrap();
    match cache.begin_locations(true).unwrap() {
        LocationsStep::Fetch(u) => assert_eq!(u, "https://web.idle-mmo.com/api/locations/all?x=1"),
        other => panic!("unexpected {other:?}"),
    }
    cache.character_info = info(1);
    cache.store_locations(vec![location(1, 5, vec![], vec![item(1, SkillType::Mining, 1)])]);
    assert_eq!(cache.locations.len(), 1);
    assert!(matches!(cache.begin_locations(false).unwrap(), LocationsStep::Fetch(_)));
}

#[test]
fn fetch_without_endpoint_fails() {
    let cache = CachedData::new();
    assert!(matches!(cache.begin_locations(false), Err(AppError::Parse(_))));
}

#[test]
fn stored_list_is_filtered_and_farthest_first() {
    let mut cache = CachedData::new();
    cache.character_info = info(20);
    cache.store_locations(vec![
        location(1, 3, vec![enemy(5), enemy(30)], vec![]),
        location(2, 9, vec![enemy(25)], vec![item(1, SkillType::Mining, 50)]),
        location(3, 7, vec![], vec![item(2, SkillType::Mining, 10), item(3, SkillType::Fishing, 1)]),
        location(4, 9, vec![enemy(20)], vec![]),
    ]);
    let ids: Vec<u64> = cache.locations.iter().map(|l| l.id).collect();
    assert_eq!(ids, vec![4, 3, 1]);
    assert_eq!(cache.locations[2].enemies.len(), 1);
    assert_eq!(cache.locations[2].enemies[0].level, 5);
    assert_eq!(cache.locations[1].skill_items.len(), 1);
    assert_eq!(cache.locations[1].skill_items[0].id, 2);
}

#[test]
fn fetching_nothing_overwrites_the_cache() {
    let mut cache = CachedData::new();
    cache.store_locations(vec![location(1, 5, vec![enemy(0)], vec![])]);
    assert_eq!(cache.locations.len(), 1);
    cache.store_locations(Vec::new());
    assert!(cache.locations.is_empty());
}

#[test]
fn unknown_skill_type_level_is_zero() {
    let c = info(1);
    let kept = filter_location(location(1, 1, vec![], vec![item(1, SkillType::Cooking, 1)]), &c);
    assert!(kept.is_none());
    let kept = filter_location(location(1, 1, vec![], vec![item(1, SkillType::Cooking, 0)]), &c);
    assert_eq!(kept.unwrap().skill_items.len(), 1);
}

#[test]
fn sort_keeps_equal_distances_in_order() {
    let v = vec![location(1, 2, vec![], vec![]), location(2, 8, vec![], vec![]), location(3, 2, vec![], vec![]), location(4, 8, vec![], vec![])];
    let ids: Vec<u64> = sort_by_distance(v).iter().map(|l| l.id).collect();
    assert_eq!(ids, vec![2, 4, 1, 3]);
}

#[test]
fn page_and_token_replace_together() {
    let mut cache = CachedData::new();
    cache.apply_page(PAGE.to_string()).unwrap();
    assert_eq!(cache.csrf_token, "tok12345");
    assert_eq!(cache.html, PAGE);
    assert!(cache.apply_page("<html>no token</html>".to_string()).is_err());
    assert_eq!(cache.csrf_token, "tok12345");
    assert_eq!(cache.html, PAGE);
}

#[test]
fn failed_character_fetch_keeps_the_record() {
    let mut cache = CachedData::new();
    cache.character_info = info(12);
    let replaced = cache.apply_character_info(Err(AppError::Parse("x".to_string())));
    assert!(!replaced);
    assert_eq!(cache.character_info.combat_level, 12);
    assert!(cache.apply_character_info(Ok(info(40))));
    assert_eq!(cache.character_info.combat_level, 40);
}

#[test]
fn location_ids_skip_entries_without_id() {
    assert_eq!(collect_location_ids(&vec![Some(3), None, Some(1)]), vec![3, 1]);
    assert!(collect_location_ids(&Vec::new()).is_empty());
}
