use gamenv::daemons::autofightd::{AutofightConfig, AutofightDaemon, AutofightStatus};
use gamenv::daemons::bangd::BangDaemon;
use gamenv::daemons::traded::{TradeDaemon, TradeItem};
use gamenv::daemons::crond::{CronDaemon, CronJobTrait};
use gamenv::daemons::malld::{MallDaemon, MallItemType};
use gamenv::daemons::schoold::SchoolDaemon;
use gamenv::daemons::skilld::{SkillDaemon, SkillType};
use gamenv::errors::MudError;
use gamenv::player_state::PlayerState;

#[test]
fn mall_starts_with_four_goods() {
    let d = MallDaemon::new();
    assert_eq!(d.get_all_items().len(), 4);
    let stone = d.get_item("mall_reinforce_stone").unwrap();
    assert_eq!(stone.name, "强化石");
    assert_eq!(stone.item_type, MallItemType::Material);
    assert!(stone.available);
    assert_eq!(stone.vip_requirement, 0);
    assert_eq!(stone.level_requirement, 10);
    assert_eq!(stone.sort_order, 10);
    assert_eq!(stone.icon, "💎");
    let pack = d.get_item("mall_starter_pack").unwrap();
    assert_eq!(pack.item_type, MallItemType::GiftPack);
    assert_eq!(pack.original_price, 1000);
    assert_eq!(pack.current_price, 100);
    assert_eq!(pack.discount, 90);
    assert_eq!(pack.tags, vec!["礼包".to_string(), "新手".to_string()]);
    assert_eq!(d.get_items_by_type(MallItemType::Consumable).len(), 2);
    assert_eq!(d.get_available_items(1, 0).len(), 3);
    assert_eq!(d.get_available_items(10, 0).len(), 4);
}

#[test]
fn large_experience_gains_many_levels() {
    let mut p = PlayerState::new("u1".to_string(), "张三".to_string());
    assert!(p.add_exp(100_000_000_000));
    assert_eq!(p.level, 44721);
    assert_eq!(p.exp, 3_844_000);
    assert_eq!(p.exp_needed, 4_472_100);
    assert_eq!(p.attack, 134_175);
    assert_eq!(p.defense, 89_450);
    assert_eq!(p.hp_max, 447_310);
    assert!(!p.add_exp(1));
}

struct Counter;

impl CronJobTrait for Counter {
    fn name(&self) -> &str {
        "count"
    }
    fn schedule(&self) -> &str {
        "* * * * *"
    }
    fn execute(&self) -> Result<(), MudError> {
        Err(MudError::RuntimeError("ran".to_string()))
    }
}

#[test]
fn cron_trigger_runs_the_registered_job() {
    let mut d = CronDaemon::new();
    assert_eq!(d.trigger("count"), Err(MudError::NotFound("任务 count 不存在".to_string())));
    d.register("count".to_string(), "* * * * *".to_string(), Box::new(Counter));
    assert_eq!(d.trigger("count"), Err(MudError::RuntimeError("ran".to_string())));
    assert_eq!(d.trigger("other"), Err(MudError::NotFound("任务 other 不存在".to_string())));
}

#[test]
fn skill_registry_learning_and_use() {
    let mut d = SkillDaemon::new();
    assert_eq!(d.get_all_skills().len(), 5);
    let fireball = d.get_skill("skill_fireball").unwrap();
    assert_eq!(fireball.skill_type, SkillType::Attack);
    assert_eq!(fireball.damage_multiplier, 25);
    assert_eq!(fireball.format(), "§H[攻击]§N 火球术 - MP消耗:20 冷却:3秒\n向敌人投掷火球，造成大量魔法伤害。");
    assert!(fireball.can_use(5, 20));
    assert!(!fireball.can_use(4, 20));
    assert!(!fireball.can_use(5, 19));
    assert_eq!(d.learn_skill("u".to_string(), "nope".to_string()), Err(MudError::NotFound("技能不存在".to_string())));
    assert_eq!(d.learn_skill("u".to_string(), "skill_fireball".to_string()),
        Err(MudError::RuntimeError("需要先学习前置技能".to_string())));
    assert_eq!(d.use_skill("u", "skill_basic_attack", 10, 100),
        Err(MudError::RuntimeError("未学习此技能".to_string())));
    assert_eq!(d.learn_skill("u".to_string(), "skill_basic_attack".to_string()), Ok(()));
    assert_eq!(d.learn_skill("u".to_string(), "skill_basic_attack".to_string()),
        Err(MudError::RuntimeError("已学习此技能".to_string())));
    assert_eq!(d.learn_skill("u".to_string(), "skill_fireball".to_string()), Ok(()));
    let e = d.use_skill("u", "skill_fireball", 5, 20).unwrap();
    assert_eq!((e.damage, e.heal, e.mp_cost, e.cooldown), (250, 0, 20, 3));
    assert_eq!(d.use_skill("u", "skill_fireball", 5, 10), Err(MudError::RuntimeError("无法使用此技能".to_string())));
    assert_eq!(d.use_skill("u", "nope", 5, 10), Err(MudError::NotFound("技能不存在".to_string())));
    let mine = d.get_player_skills("u");
    assert_eq!(mine.len(), 2);
    assert_eq!(mine[1].0.id, "skill_fireball");
    assert_eq!(mine[1].1.level, 1);
    assert_eq!(d.format_skill_list(&mine),
        "§H=== 技能列表 ===§N\n§Y[基础攻击 Lv.1]§N [攻击] 最基础的攻击技能，所有冒险者都会。\n\
         §Y[火球术 Lv.1]§N [攻击] 向敌人投掷火球，造成大量魔法伤害。\n");
    assert_eq!(d.format_skill_list(&d.get_player_skills("nobody")), "§H=== 技能列表 ===§N\n你还没有学习任何技能。\n");
    let heal = d.get_skill("skill_heal").unwrap();
    assert_eq!(heal.heal_multiplier, 15);
}

#[test]
fn skills_open_to_learn_lowest_level_first() {
    let d = SkillDaemon::default();
    assert_eq!(d.format_available_skills(5, &["skill_basic_attack".to_string()]),
        "§H=== 可学技能 ===§N\n§Y[治愈术]§N Lv.3 - 恢复自身HP值。\n\
         §Y[火球术]§N Lv.5 - 向敌人投掷火球，造成大量魔法伤害。\n\
         §Y[强力防御]§N Lv.5 - 暂时提升防御力，减少受到的伤害。\n");
    assert_eq!(d.format_available_skills(0, &[]), "§H=== 可学技能 ===§N\n暂时没有可学的技能。\n");
}

#[test]
fn schools_find_skills_in_the_registry() {
    let schools = SchoolDaemon::new();
    let skills = SkillDaemon::new();
    assert_eq!(schools.get_skill(&skills, "skill_heal").unwrap().school, "wudang");
    assert!(schools.get_skill(&skills, "skill_none").is_none());
}

#[test]
fn autofight_round_rewards_and_stops() {
    let mut d = AutofightDaemon::new();
    let mut p = PlayerState::new("u1".to_string(), "张三".to_string());
    assert_eq!(d.execute_round("u1", &mut p, true, true, 10, 50, 5),
        Err(MudError::NotFound("没有自动战斗会话".to_string())));
    assert_eq!(p.exp, 0);
    let config = AutofightConfig { max_fights: Some(1), ..AutofightConfig::default() };
    assert!(d.start_autofight("u1".to_string(), config).is_ok());
    assert_eq!(d.execute_round("u1", &mut p, false, false, 10, 50, 5), Ok(()));
    assert_eq!(p.exp, 0);
    assert_eq!(d.get_session("u1").unwrap().status, AutofightStatus::Fighting);
    assert_eq!(d.execute_round("u1", &mut p, true, true, 10, 150, 5), Ok(()));
    assert_eq!(p.level, 2);
    assert_eq!(p.exp, 50);
    assert_eq!(p.gold, 5 + PlayerState::new("x".to_string(), "x".to_string()).gold);
    let s = d.get_session("u1").unwrap();
    assert_eq!((s.fight_count, s.total_exp, s.total_gold, s.total_damage), (1, 150, 5, 10));
    assert_eq!(s.status, AutofightStatus::Stopping);
}

#[test]
fn guild_leader_stays_member_leaves() {
    let mut d = BangDaemon::new();
    let g = d.create_guild("L".to_string(), "帮主".to_string(), "青龙帮".to_string(), "青龙".to_string()).unwrap();
    assert_eq!(g.member_count(), 1);
    assert_eq!(d.join_guild(&g.id, "M".to_string(), "帮众".to_string()), Ok(()));
    assert_eq!(d.get_guild(&g.id).unwrap().member_count(), 2);
    assert_eq!(d.leave_guild("L"), Err(MudError::RuntimeError("帮主无法离开帮派".to_string())));
    assert_eq!(d.get_guild(&g.id).unwrap().member_count(), 2);
    assert_eq!(d.leave_guild("M"), Ok(()));
    assert!(d.get_player_guild("M").is_none());
    assert_eq!(d.get_guild(&g.id).unwrap().member_count(), 1);
    assert!(matches!(d.leave_guild("X"), Err(MudError::NotFound(_))));
}

#[test]
fn trade_hands_each_side_the_other_offer() {
    let mut d = TradeDaemon::new();
    d.request_trade("p1".to_string(), "甲".to_string(), "p2".to_string(), "乙".to_string()).unwrap();
    let x = TradeItem { item_id: "sword".to_string(), item_name: "剑".to_string(), count: 1, quality: 0 };
    assert_eq!(d.add_item("p1", x), Ok(()));
    assert_eq!(d.set_gold("p2", 50), Ok(()));
    assert!(d.complete_trade("p1").is_err());
    assert_eq!(d.confirm_trade("p1"), Ok(false));
    assert_eq!(d.confirm_trade("p2"), Ok(true));
    let r = d.complete_trade("p1").unwrap();
    assert!(r.player1_items.is_empty());
    assert_eq!(r.player1_gold, 50);
    assert_eq!(r.player2_items.len(), 1);
    assert_eq!(r.player2_items[0].item_id, "sword");
    assert_eq!(r.player2_gold, 0);
    assert!(!d.is_in_trade("p1") && !d.is_in_trade("p2"));
}
