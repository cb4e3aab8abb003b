use gamenv::skills::skill_system::{
    BasicSkillType, EnhancedSkillManager, PlayerSkillData, PlayerStats, ProficiencyCurve,
};

#[test]
fn test_proficiency_curve() {
    let curve = ProficiencyCurve::default();
    assert_eq!(curve.exp_for_level(10), 0);
    let exp_20 = curve.exp_for_level(20);
    assert!(exp_20 > 0);
    let level = curve.level_from_exp(exp_20);
    assert_eq!(level, 20);
}

#[test]
fn test_skill_learning() {
    let mut mgr = EnhancedSkillManager::new();
    let stats = PlayerStats { gen: 30, str: 30, con: 20, dex: 20, intellect: 20 };
    let result = mgr.learn_skill("player1".to_string(), "skill_xionghuquan".to_string(), &stats);
    assert!(result.is_ok());
}

#[test]
fn curve_formulas() {
    let curve = ProficiencyCurve::new();
    assert_eq!(curve.exp_for_next_level(0), 1);
    assert_eq!(curve.exp_for_next_level(9), 100);
    assert_eq!(curve.proficiency_percent(9, 50), 50);
    assert_eq!(curve.level_from_points(0), 0);
    assert_eq!(curve.level_from_points(1), 1);
    assert_eq!(curve.level_from_points(5), 2);
    assert_eq!(curve.exp_for_level(3), 1 + 4 + 9);
    assert_eq!(curve.level_from_exp(curve.exp_for_level(7)), 7);
}

#[test]
fn add_points_levels_up() {
    let mut d = PlayerSkillData::new();
    assert!(d.add_points(5));
    assert_eq!(d.level, 2);
    assert_eq!(d.points, 0);
    assert!(!d.add_points(8));
    assert_eq!(d.points, 8);
    assert!(d.add_points(1));
    assert_eq!(d.level, 3);
    assert_eq!(d.proficiency_percent(), 0);
    assert!(d.learn_perform("p1".to_string()));
    assert!(!d.learn_perform("p1".to_string()));
    assert!(d.has_perform("p1"));
}

#[test]
fn learn_enable_and_use() {
    let mut mgr = EnhancedSkillManager::new();
    let strong = PlayerStats { gen: 40, str: 40, con: 40, dex: 40, intellect: 40 };
    let weak = PlayerStats { gen: 1, str: 1, con: 1, dex: 1, intellect: 1 };
    assert_eq!(mgr.learn_skill("p".to_string(), "nope".to_string(), &strong), Err("技能不存在".to_string()));
    assert_eq!(mgr.learn_skill("p".to_string(), "skill_taiji".to_string(), &weak), Err("不满足学习条件".to_string()));
    assert_eq!(mgr.learn_skill("p".to_string(), "skill_taiji".to_string(), &strong), Ok("你学会了太极剑！".to_string()));
    assert_eq!(mgr.learn_skill("p".to_string(), "skill_taiji".to_string(), &strong), Err("已经学习过这个技能".to_string()));
    assert_eq!(
        mgr.enable_skill("p", "skill_unarmed_basic", "skill_taiji"),
        Err("你还没有学习 基础拳脚".to_string())
    );
    assert!(mgr.learn_skill("p".to_string(), "skill_unarmed_basic".to_string(), &strong).is_ok());
    assert_eq!(
        mgr.enable_skill("p", "skill_taiji", "skill_unarmed_basic"),
        Err("skill_taiji 不是基础技能".to_string())
    );
    assert_eq!(
        mgr.enable_skill("p", "skill_unarmed_basic", "skill_taiji"),
        Ok("你将 太极剑 启用为 基础拳脚 的基础武功".to_string())
    );
    let msgs = mgr.use_skill("p", "skill_taiji").unwrap();
    assert_eq!(msgs[0], "你使用了太极剑");
    assert_eq!(msgs.len(), 2);
    assert_eq!(msgs[1], "§g你的 太极剑 提升到了 2 级(55%)§N");
    assert_eq!(mgr.effective_level("p", "skill_unarmed_basic"), 2);
    assert_eq!(mgr.effective_level("q", "skill_unarmed_basic"), 0);
    assert_eq!(mgr.get_player_skills("p").len(), 2);
    assert_eq!(mgr.use_skill("q", "skill_taiji"), Err("你还没有学习这个技能".to_string()));
    assert_eq!(BasicSkillType::Sword.cn_name(), "剑法");
}

#[test]
fn skill_info_text() {
    let mgr = EnhancedSkillManager::new();
    let s = mgr.get_skill("skill_xionghuquan").unwrap();
    let d = PlayerSkillData::with_level(3);
    assert_eq!(
        s.format_info(Some(&d)),
        "§Y【猛虎拳】Lv.3§N\n类型: 拳脚\n门派: 武堂\n武堂独门拳法，刚猛如虎，气势磅礴。\n\n§H属性要求§N\n根骨 ≥ 20\n臂力 ≥ 25\n\n"
    );
}
