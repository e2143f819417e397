use idlemmo::cache::CachedData;
use idlemmo::models::{Location, TravelMode};
use idlemmo::travel::{plan_travel, teleport_outcome, TravelOutcome, TravelPlan};

fn destination(teleport_cost: u64) -> Location {
    Location {
        id: 17,
        key: "bluebell-hollow".to_string(),
        name: "Bluebell Hollow".to_string(),
        recommended_level: 3,
        teleport_cost,
        distance: 4,
        enemies: Vec::new(),
        dungeons: Vec::new(),
        skill_items: Vec::new(),
    }
}

#[test]
fn teleport_without_enough_gold_sends_nothing() {
    let mut cache = CachedData::new();
    cache.character_info.gold = 50;
    let plan = plan_travel(&cache, TravelMode::Teleport, &destination(100)).unwrap();
    assert!(matches!(plan, TravelPlan::NotEnoughGold));
    assert_eq!(TravelOutcome::NotEnoughGold.message(), "Teleport failed: Not enough gold.");
}

#[test]
fn teleport_with_enough_gold() {
    let mut cache = CachedData::new();
    cache.character_info.gold = 100;
    cache.csrf_token = "tok".to_string();
    match plan_travel(&cache, TravelMode::Teleport, &destination(100)).unwrap() {
        TravelPlan::Teleport { url, token, gold_before } => {
            assert_eq!(url, "https://web.idle-mmo.com/locations/teleport/bluebell-hollow");
            assert_eq!(token, "tok");
            assert_eq!(gold_before, 100);
        }
        other => panic!("unexpected {other:?}"),
    }
}

#[test]
fn teleport_outcomes() {
    assert!(matches!(teleport_outcome(100, 60), TravelOutcome::Teleported));
    assert!(matches!(teleport_outcome(100, 100), TravelOutcome::AlreadyThere));
    assert_eq!(teleport_outcome(5, 5).message(), "You already at location");
    assert_eq!(teleport_outcome(5, 4).message(), "Teleport successful");
}

#[test]
fn walk_builds_the_request() {
    let mut cache = CachedData::new();
    cache.html = r#"travel: "https://web.idle-mmo.com/api/locations/travel?sig=1""#.to_string();
    match plan_travel(&cache, TravelMode::Walk, &destination(0)).unwrap() {
        TravelPlan::Walk { url, request } => {
            assert_eq!(url, "https://web.idle-mmo.com/api/locations/travel?sig=1");
            assert_eq!(request.location_id, 17);
            assert_eq!(request.v, "1.0.0.1");
            assert_eq!(request.ts2mic5ytx.len(), 4);
            assert_eq!(request.qty6bx4peh.len(), 4);
        }
        other => panic!("unexpected {other:?}"),
    }
}

#[test]
fn walk_without_endpoint_fails() {
    let cache = CachedData::new();
    assert!(plan_travel(&cache, TravelMode::Walk, &destination(0)).is_err());
}
