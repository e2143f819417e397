use idlemmo::actions::{plan_skill_start, skill_start_request};
use idlemmo::character::CharacterInfo;
use idlemmo::config::Config;
use idlemmo::error::{AppError, IntErrorKind};
use idlemmo::models::Location;
use idlemmo::skill::{FilterBy, SkillConfig, SkillItem, SkillType};

#[test]
fn update_skill_sets_and_replaces() {
    let mut c = CharacterInfo::empty();
    assert_eq!(c.level_of(SkillType::Mining), 0);
    c.update_skill(SkillType::Mining, "12").unwrap();
    c.update_skill(SkillType::Fishing, "3").unwrap();
    c.update_skill(SkillType::Mining, "15").unwrap();
    assert_eq!(c.level_of(SkillType::Mining), 15);
    assert_eq!(c.level_of(SkillType::Fishing), 3);
    assert_eq!(c.skill_level.len(), 2);
}

#[test]
fn update_skill_rejects_non_numbers() {
    let mut c = CharacterInfo::empty();
    assert!(matches!(c.update_skill(SkillType::Mining, "x1"), Err(AppError::ParseInt(IntErrorKind::InvalidDigit))));
    assert!(c.skill_level.is_empty());
}

#[test]
fn skill_type_names() {
    assert_eq!(SkillType::from_str("MINING").unwrap(), SkillType::Mining);
    assert_eq!(SkillType::from_str("woodCutting").unwrap(), SkillType::Woodcutting);
    assert_eq!(SkillType::from_str("none").unwrap(), SkillType::NoSkill);
    match SkillType::from_str("dancing") {
        Err(AppError::Parse(m)) => assert_eq!(m, "Failed to parse skill type."),
        other => panic!("unexpected {other:?}"),
    }
    assert_eq!(SkillType::Travelling.name(), "Travelling");
    assert_eq!(SkillType::Alchemy.lower_name(), "alchemy");
    assert_eq!(SkillType::from_lowercase("forge"), Some(SkillType::Forge));
    assert_eq!(SkillType::from_lowercase("Forge"), None);
}

#[test]
fn skill_levels_from_page() {
    let html = "level: 12</span> <a href='https://web.idle-mmo.com/skills/view/woodcutting'>\n level: 4 <a href='/skills/view/mining'>";
    let mut c = CharacterInfo::empty();
    c.apply_skill_data(html).unwrap();
    assert_eq!(c.level_of(SkillType::Woodcutting), 12);
    assert_eq!(c.level_of(SkillType::Mining), 4);
    let mut d = CharacterInfo::empty();
    assert!(matches!(d.apply_skill_data("level: 3 skills/view/juggling'"), Err(AppError::Parse(_))));
}

#[test]
fn config_needs_both_settings() {
    let c = Config::from_values(Some("https://db".to_string()), Some("k".to_string())).unwrap();
    assert_eq!(c.supabase_url, "https://db");
    match Config::from_values(None, Some("k".to_string())) {
        Err(AppError::Config(m)) => assert_eq!(m, "SUPABASE_URL env var not set"),
        other => panic!("unexpected {other:?}"),
    }
    match Config::from_values(Some("u".to_string()), None) {
        Err(AppError::Config(m)) => assert_eq!(m, "SUPABASE_KEY env var not set"),
        other => panic!("unexpected {other:?}"),
    }
}

#[test]
fn skill_start_plan() {
    let locs = vec![Location {
        id: 8,
        key: "k".to_string(),
        name: "Mine".to_string(),
        recommended_level: 1,
        teleport_cost: 5,
        distance: 1,
        enemies: Vec::new(),
        dungeons: Vec::new(),
        skill_items: vec![SkillItem {
            id: 77,
            name: "Coal".to_string(),
            skill_type: SkillType::Mining,
            level_required: 2,
            wait_length_ms: 0,
            requirements: Vec::new(),
            quantity_requirement: 0,
        }],
    }];
    let config = SkillConfig {
        skill_type: SkillType::Mining,
        essence_crystal: Some(3),
        auto_purchase: true,
        filter_by: FilterBy::HighestLevelRequired,
    };
    let mut info = CharacterInfo::empty();
    info.location_id = 2;
    let plan = plan_skill_start(&locs, &info, &config).unwrap();
    assert_eq!(plan.item.id, 77);
    assert!(plan.needs_travel);
    assert_eq!(plan.view_url, "https://web.idle-mmo.com/skills/view/mining");
    let request = skill_start_request(plan.item.id, &config);
    assert_eq!((request.skill_item_id, request.quantity, request.essence_crystal), (77, 1, Some(3)));
    assert_eq!(request.v, "1.0.0.1");
    let fishing = SkillConfig { skill_type: SkillType::Fishing, ..config };
    match plan_skill_start(&locs, &info, &fishing) {
        Err(AppError::Application(m)) => assert_eq!(m, "No suitable skill found"),
        other => panic!("unexpected {other:?}"),
    }
}
