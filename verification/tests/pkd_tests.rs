use gamenv::daemons::pkd::{
    BattleSkillState, CombatStats, CombatStatus, FighterSkills, PkBattle, PkDaemon, PkLevel, PkMode, SkillBook, SkillCard,
    Strike,
};

fn fighter(id: &str, name: &str, hp: i32, qi: i32, mode: PkMode, level: i32) -> CombatStats {
    CombatStats {
        id: id.to_string(),
        name: name.to_string(),
        name_cn: name.to_string(),
        level,
        hp,
        hp_max: 100,
        mp: 0,
        mp_max: 0,
        jing: 0,
        jing_max: 0,
        qi,
        qi_max: 100,
        attack: 20,
        defense: 10,
        dodge: 5,
        parry: 5,
        pk_mode: mode,
        pk_value: 0,
        kill_streak: 0,
        is_killing: false,
    }
}

fn book() -> SkillBook {
    SkillBook {
        cards: vec![
            SkillCard { skill_id: "skill_power_strike".to_string(), name_cn: "强力一击".to_string(), qi_cost: 10 },
            SkillCard { skill_id: "skill_heal".to_string(), name_cn: "治疗术".to_string(), qi_cost: 50 },
        ],
    }
}

fn strike(d: i32, t: &str) -> Strike {
    Strike { damage: d, effect_desc: t.to_string() }
}

#[test]
fn pk_modes_decide_who_may_fight() {
    assert!(!PkMode::Peace.can_attack(PkMode::Free));
    assert!(!PkMode::Free.can_attack(PkMode::Peace));
    assert!(PkMode::Free.can_attack(PkMode::Team));
    assert!(PkMode::Guild.can_attack(PkMode::Guild));
    assert_eq!(PkMode::Team.as_str(), "组队模式");
    assert_eq!(PkMode::default(), PkMode::Peace);
}

#[test]
fn pk_levels_follow_thresholds() {
    assert_eq!(PkLevel::from_value(0), PkLevel::Citizen);
    assert_eq!(PkLevel::from_value(1), PkLevel::Gray);
    assert_eq!(PkLevel::from_value(19), PkLevel::Gray);
    assert_eq!(PkLevel::from_value(20), PkLevel::Red);
    assert_eq!(PkLevel::from_value(50), PkLevel::Evil);
    assert_eq!(PkLevel::from_value(100), PkLevel::Demon);
    assert_eq!(PkLevel::Red.name(), "红名");
    assert_eq!(PkLevel::Demon.color_code(), "#ff00ff");
}

#[test]
fn combat_stats_percent_and_refusal() {
    let a = fighter("a", "甲", 150, 10, PkMode::Free, 1);
    assert_eq!(a.hp_percent(), 100);
    let b = fighter("b", "乙", 33, 10, PkMode::Peace, 1);
    assert_eq!(b.hp_percent(), 33);
    assert_eq!(a.can_attack(&b), Err("对方的PK模式不允许被攻击".to_string()));
    let c = fighter("c", "丙", 0, 10, PkMode::Free, 1);
    assert!(a.can_attack(&c).is_ok());
    assert!(!c.is_alive());
}

#[test]
fn fighter_skills_cool_down() {
    let mut f = FighterSkills::new();
    f.add_skill("x".to_string(), 2);
    assert!(f.can_use_skill("x"));
    assert!(f.use_skill("x"));
    assert_eq!(f.this_round_skill, Some("x".to_string()));
    assert!(!f.use_skill("x"));
    assert!(!f.can_use_skill("missing"));
    f.tick_all_cooldowns();
    assert_eq!(f.get_skills_info(), vec![("x".to_string(), 1, 2)]);
    assert!(f.get_available_skills().is_empty());
    f.tick_all_cooldowns();
    assert_eq!(f.get_available_skills(), vec!["x".to_string()]);
    let s = BattleSkillState::new("y".to_string(), 3);
    assert!(s.is_ready());
}

#[test]
fn battle_starts_with_skills_of_level() {
    let b = PkBattle::new_at(fighter("a", "甲", 100, 50, PkMode::Free, 10), fighter("b", "乙", 100, 50, PkMode::Free, 1),
        "r1".to_string(), 1000);
    assert_eq!(b.battle_id, "pk_a_b");
    let ids: Vec<String> = b.challenger_skills.skills.iter().map(|s| s.skill_id.clone()).collect();
    assert_eq!(ids, vec!["skill_basic_attack", "skill_power_strike", "skill_quick_strike", "skill_defense", "skill_heal"]);
    let low: Vec<String> = b.defender_skills.skills.iter().map(|s| s.skill_id.clone()).collect();
    assert_eq!(low, vec!["skill_basic_attack", "skill_power_strike"]);
    assert_eq!(b.status, CombatStatus::Fighting);
    assert!(!b.has_npc());
    assert!(!b.should_auto_execute_at(5000));
}

#[test]
fn npc_battles_run_by_themselves() {
    let b = PkBattle::new_at(fighter("a", "甲", 100, 50, PkMode::Free, 1), fighter("room/wolf", "狼", 100, 50, PkMode::Free, 1),
        "r1".to_string(), 1000);
    assert!(PkBattle::is_npc("room/wolf"));
    assert_eq!(b.get_npc_id(), Some("room/wolf".to_string()));
    assert!(!b.should_auto_execute_at(1001));
    assert!(b.should_auto_execute_at(1002));
    assert_eq!(b.npc_select_skill_with("room/wolf", false, 0), "skill_basic_attack");
    assert_eq!(b.npc_select_skill_with("room/wolf", true, 7), "skill_power_strike");
}

#[test]
fn selecting_skills_checks_cooldown_and_force() {
    let mut b = PkBattle::new_at(fighter("a", "甲", 100, 5, PkMode::Free, 10), fighter("b", "乙", 100, 50, PkMode::Free, 1),
        "r1".to_string(), 1000);
    let bk = book();
    assert_eq!(b.select_skill("z", "skill_power_strike", &bk), Err("你不是战斗参与者！".to_string()));
    assert_eq!(b.select_skill("b", "skill_heal", &bk), Err("技能不可用或正在冷却中！".to_string()));
    assert_eq!(b.select_skill("a", "skill_power_strike", &bk), Err("内力不足！需要 10".to_string()));
    assert_eq!(b.select_skill("a", "skill_quick_strike", &bk), Ok(()));
    assert_eq!(b.planned_skill("a"), "skill_quick_strike");
    assert_eq!(b.planned_skill("b"), "skill_basic_attack");
}

#[test]
fn a_round_trades_blows() {
    let mut b = PkBattle::new_at(fighter("a", "甲", 100, 50, PkMode::Free, 1), fighter("b", "乙", 30, 50, PkMode::Free, 1),
        "r1".to_string(), 1000);
    let bk = book();
    b.select_skill("a", "skill_power_strike", &bk).unwrap();
    let r = b.execute_round_at(1010, &bk, strike(12, "重击"), strike(7, "反击"));
    assert_eq!(r.round_number, 1);
    assert_eq!(r.attacker_damage, 12);
    assert_eq!(r.defender_damage, 7);
    assert_eq!(r.defender_hp, 18);
    assert_eq!(r.attacker_hp, 93);
    assert_eq!(r.log, vec!["§Y甲§N重击".to_string(), "§R乙§N反击".to_string()]);
    assert_eq!(r.skill_used, Some("skill_power_strike".to_string()));
    assert!(!r.ended);
    assert_eq!(b.challenger.qi, 40);
    assert_eq!(b.total_damage_dealt, 12);
    assert_eq!(b.last_round_time, 1010);
    let ps = b.challenger_skills.skills.iter().find(|s| s.skill_id == "skill_power_strike").unwrap();
    assert_eq!(ps.current_cooldown, 2);
    let r2 = b.execute_round_at(1020, &bk, strike(50, "致命"), strike(9, "不会发生"));
    assert!(r2.ended);
    assert_eq!(r2.winner, Some("a".to_string()));
    assert_eq!(r2.defender_damage, 0);
    assert_eq!(r2.log.len(), 1);
    assert_eq!(b.status, CombatStatus::Dead);
    assert_eq!(b.generate_result_at(1030), "[§Y返回房间§N:look]\n\n§Y胜利者: 甲§N\n战斗回合: 2\n战斗时长: 30秒\n");
}

#[test]
fn status_views_show_both_sides() {
    let b = PkBattle::new_at(fighter("a", "甲", 60, 50, PkMode::Free, 3), fighter("b", "乙", 10, 40, PkMode::Free, 2),
        "r1".to_string(), 1000);
    let bk = book();
    let s = b.generate_status();
    assert!(s.contains("§Y生命: §G60/100§N\n"));
    assert!(s.contains("§R生命: §R10/100§N\n"));
    let p = b.generate_status_for_player("a", &bk);
    assert!(p.starts_with("[查看技能:skills] [继续战斗:pk continue] [逃跑:escape] [投降:surrender]\n\n§c未选择技能（使用普通攻击）§N\n\n§Y回合: 0§N\n\n"));
    assert_eq!(b.generate_status_for_player("x", &bk), "你不在战斗中！");
    let l = b.generate_skills_list("a", &bk);
    assert!(l.contains("§Y[强力一击:cast skill_power_strike]§N\n"));
    assert!(l.ends_with("\n§H默认技能§N\n基础攻击 (无消耗)\n[返回:look]\n"));
    assert_eq!(b.generate_skills_list("x", &bk), "你不在战斗中！\n[返回:look]");
}

#[test]
fn daemon_keeps_one_fight_per_player() {
    let mut d = PkDaemon::new();
    let bk = book();
    let b = d.challenge_at(fighter("a", "甲", 100, 50, PkMode::Free, 1), fighter("b", "乙", 100, 50, PkMode::Free, 1),
        "r1".to_string(), 1000).unwrap();
    assert_eq!(b.battle_id, "pk_a_b");
    assert!(d.get_battle("pk_a_b").is_some());
    assert_eq!(d.get_player_battle("b").unwrap().battle_id, "pk_a_b");
    let again = d.challenge_at(fighter("a", "甲", 100, 50, PkMode::Free, 1), fighter("c", "丙", 100, 50, PkMode::Free, 1),
        "r1".to_string(), 1000);
    assert_eq!(again.err(), Some("你正在战斗中！".to_string()));
    let busy = d.challenge_at(fighter("c", "丙", 100, 50, PkMode::Free, 1), fighter("b", "乙", 100, 50, PkMode::Free, 1),
        "r1".to_string(), 1000);
    assert_eq!(busy.err(), Some("对方正在战斗中！".to_string()));
    let peace = d.challenge_at(fighter("c", "丙", 100, 50, PkMode::Peace, 1), fighter("e", "戊", 100, 50, PkMode::Free, 1),
        "r1".to_string(), 1000);
    assert_eq!(peace.err(), Some("对方的PK模式不允许被攻击".to_string()));
    assert_eq!(d.select_skill("a", "skill_power_strike", &bk), Ok("§Y你选择了 skill_power_strike§N\n[继续战斗:pk continue]".to_string()));
    assert_eq!(d.select_skill("q", "skill_power_strike", &bk), Err("你不在战斗中！".to_string()));
    let round = d.next_round_at("pk_a_b", 1005, &bk, strike(5, "x"), strike(5, "y")).unwrap();
    assert_eq!(round.round_number, 1);
    assert_eq!(d.surrender("b"), Err("只有发起者可以投降！".to_string()));
    assert_eq!(d.escape_with("b", false), Err("§R你逃跑失败了！§N".to_string()));
    assert_eq!(d.surrender("a"), Ok("§Y你投降了！§N".to_string()));
    assert!(d.get_player_battle("a").is_none());
    assert!(d.get_player_battle("b").is_none());
    assert_eq!(d.escape_with("a", true), Err("你不在战斗中！".to_string()));
}

#[test]
fn ended_fight_names_the_fallen_npc() {
    let mut d = PkDaemon::new();
    d.challenge_at(fighter("a", "甲", 100, 50, PkMode::Free, 1), fighter("room/wolf", "狼", 0, 50, PkMode::Free, 1),
        "room".to_string(), 1000).unwrap();
    let due = d.due_battles_at(1003);
    assert_eq!(due, vec!["pk_a_room/wolf".to_string()]);
    let b = d.end_battle("pk_a_room/wolf").unwrap();
    assert_eq!(PkDaemon::fallen_npc(&b), Some("room/wolf".to_string()));
    assert!(d.end_battle("pk_a_room/wolf").is_none());
}
