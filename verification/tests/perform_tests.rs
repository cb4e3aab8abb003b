use gamenv::skills::perform::{DamageType, Perform, PerformManager};

#[test]
fn test_perform_creation() {
    let perform = Perform::new(
        "test_perform".to_string(),
        "测试招式".to_string(),
        "test_skill".to_string(),
        10,
    );

    assert_eq!(perform.name_cn, "测试招式");
    assert_eq!(perform.required_level, 10);
    assert_eq!(perform.qi_cost, 10);
}

#[test]
fn test_perform_damage_calculation() {
    // The attack factor 1.5 is written in tenths.
    let perform = Perform::new(
        "test".to_string(),
        "测试".to_string(),
        "test_skill".to_string(),
        1,
    )
    .with_attack(15)
    .with_bonus_damage(10);

    let result = perform.calculate_damage(100, 30);
    // (100 * 1.5) - 30 + 10 = 150 - 30 + 10 = 130
    assert_eq!(result.damage, 130);
}

#[test]
fn perform_damage_floors_at_one_and_wraps_negative_bonus() {
    let p = Perform::new("t".to_string(), "t".to_string(), "s".to_string(), 1).with_attack(10);
    assert_eq!(p.calculate_damage(10, 50).damage, 1);
    let neg = p.clone().with_bonus_damage(-1);
    assert_eq!(neg.calculate_damage(10, 50).damage, u32::MAX);
    let big = p.with_attack(40);
    assert_eq!(big.calculate_damage(u32::MAX, 0).damage, u32::MAX);
}

#[test]
fn perform_card_shows_factor_and_cooldown() {
    let p = Perform::new("t".to_string(), "破剑式".to_string(), "s".to_string(), 20)
        .with_cost(30, 0)
        .with_attack(15)
        .with_description("华山剑法".to_string());
    assert_eq!(p.format_info(0), "§Y【破剑式】§N 20级\n消耗:内力30 精神0\n攻击系数: 1.5\n华山剑法");
    assert_eq!(p.format_info(2), "§Y【破剑式】§N 20级\n消耗:内力30 精神0\n攻击系数: 1.5 §c(冷却:2)§N\n华山剑法");
}

#[test]
fn perform_manager_filters_by_skill_and_level() {
    let m = PerformManager::new();
    assert_eq!(m.get_perform("perform_taiji_2").unwrap().damage_type, DamageType::Internal);
    assert!(m.get_perform("nope").is_none());
    assert_eq!(m.get_skill_performs("skill_taiji").len(), 2);
    let ids: Vec<&str> = m.get_available_performs("skill_taiji", 20).iter().map(|p| p.id.as_str()).collect();
    assert_eq!(ids, vec!["perform_taiji_1"]);
    assert_eq!(m.get_available_performs("skill_taiji", 5).len(), 0);
    assert_eq!(PerformManager::default().performs.len(), 8);
}
