use gamenv::errors::MudError;
use gamenv::npc::base::{NpcBase, NpcType};
use gamenv::npc::merchant::{buy_from_shop, render_shop, shop_item_info, MerchantType, ShopItem};
use gamenv::npc::monster::{create_preset_monsters, spawn_monster_for_level, Monster, MonsterRarity};
use gamenv::npc::npc::{CombatStats, Npc, NpcManager};
use gamenv::npc::trainer::{create_preset_trainers, Trainer};

#[test]
fn npc_base_renders_name_and_description() {
    let n = NpcBase::new("guard".to_string(), "守卫".to_string(), NpcType::Guard);
    assert_eq!(n.level, 1);
    assert_eq!(n.respawn_time, 300);
    assert_eq!(n.render(), "§c守卫§r\n");
    assert!(n.get_random_dialogue().is_none());
    let mut n = n.with_desc("站岗的人".to_string()).with_level(7);
    n.add_dialogue("站住！".to_string());
    assert_eq!(n.render(), "§c守卫§r\n站岗的人\n");
    assert_eq!(n.get_random_dialogue().unwrap(), "站住！");
}

#[test]
fn preset_trainers_teach_in_order() {
    let ts = create_preset_trainers();
    assert_eq!(ts.len(), 2);
    let t = &ts[0];
    assert_eq!(t.teachable_skills[0].skill_name, "基础攻击");
    let open: Vec<&str> = t.get_learnable_skills(4, 600).iter().map(|s| s.skill_id.as_str()).collect();
    assert_eq!(open, vec!["skill_basic_attack", "skill_defense"]);
    assert_eq!(t.can_learn("nope", 99, 99999, &[]), Err(MudError::NotFound("技能不存在".to_string())));
    assert_eq!(t.can_learn("skill_power_strike", 4, 99999, &[]),
        Err(MudError::InvalidOperation("等级不足，需要5级".to_string())));
    assert_eq!(t.can_learn("skill_power_strike", 5, 999, &[]),
        Err(MudError::InvalidOperation("修为不足，需要1000".to_string())));
    assert_eq!(t.can_learn("skill_power_strike", 5, 1000, &[]),
        Err(MudError::InvalidOperation("需要先学习前置技能: skill_basic_attack".to_string())));
    assert_eq!(t.can_learn("skill_power_strike", 5, 1000, &["skill_basic_attack".to_string()]), Ok(()));
    assert_eq!(ts[1].can_learn("skill_meditation", 15, 40000, &[]),
        Err(MudError::InvalidOperation("修为不足，需要5万".to_string())));
    assert_eq!(t.render_skill_list(4, 600),
        "=== 基础战斗 技能列表 ===\n训练师: 武师\n\n§g可学§r【基础攻击】skill_basic_attack - 100 金 \n\
§c未解锁§r【强力攻击】skill_power_strike - 500 金 (需5级)\n§g可学§r【防御姿态】skill_defense - 300 金 \n");
}

#[test]
fn new_trainer_describes_its_school() {
    let t = Trainer::new("t".to_string(), "老师".to_string(), "剑术".to_string());
    assert_eq!(t.base.desc, "剑术的训练师，可以教授各种技能。");
    assert_eq!(MonsterRarity::Boss.name(), "首领");
    assert_eq!(MonsterRarity::Elite.color_code(), "§g");
    assert_eq!(MonsterRarity::Rare.stat_multiplier(), 5);
}

fn stats_for(level: u32) -> CombatStats {
    CombatStats { hp: 100 + level * 10, max_hp: 100 + level * 10, qi: 50, max_qi: 50, shen: 20, max_shen: 20,
        attack: 10 + level * 2, defense: 5 + level }
}

#[test]
fn npc_takes_damage_heals_and_respawns() {
    let mut n = Npc::new("guard".to_string(), "守卫".to_string(), NpcType::Guard, 3, stats_for(3));
    assert!(n.is_alive());
    assert!(!n.is_monster());
    assert_eq!(n.render_info(), "§c守卫§r\n等级: 3\n");
    assert!(!n.take_damage(30));
    assert_eq!(n.combat.hp, 100);
    n.heal(500);
    assert_eq!(n.combat.hp, 130);
    assert!(n.take_damage(130));
    assert_eq!(n.combat.hp, 0);
    assert!(!n.is_alive());
    assert!(n.died_at.is_some());
    n.combat.qi = 0;
    n.respawn();
    assert!(n.is_alive());
    assert_eq!(n.combat.hp, 130);
    assert_eq!(n.combat.qi, 50);
    assert!(n.died_at.is_none());
}

#[test]
fn npc_manager_spawns_from_templates() {
    let mut m = NpcManager::new();
    assert_eq!(m.spawn_npc("guard", "room/a".to_string()),
        Err(MudError::NotFound("NPC模板不存在: guard".to_string())));
    m.register_template(Npc::new("guard".to_string(), "守卫".to_string(), NpcType::Guard, 2, stats_for(2)));
    let a = m.spawn_npc("guard", "room/a".to_string()).unwrap();
    let b = m.spawn_npc("guard", "room/b".to_string()).unwrap();
    assert_ne!(a, b);
    assert_eq!(m.get_npc(&a).unwrap().current_room, Some("room/a".to_string()));
    let here = m.get_npcs_in_room("room/a");
    assert_eq!(here.len(), 1);
    assert_eq!(here[0].base.name_cn, "守卫");
    assert!(m.get_npcs_in_room("room/c").is_empty());
    assert!(m.get_npc_mut("nobody").is_none());
    m.get_npc_mut(&a).unwrap().take_damage(20);
    assert_eq!(m.get_npc(&a).unwrap().combat.hp, 100);
    assert_eq!(m.get_npc(&b).unwrap().combat.hp, 120);
    let gone = m.remove_npc(&a).unwrap();
    assert_eq!(gone.base.id, a);
    assert!(m.get_npc(&a).is_none());
    assert!(m.remove_npc(&a).is_none());
    assert!(m.get_npcs_in_room("room/a").is_empty());
    assert_eq!(m.get_npcs_in_room("room/b").len(), 1);
}

#[test]
fn monster_rarity_scales_figures_and_rewards() {
    let m = Monster::new("wolf".to_string(), "野狼".to_string(), 5, stats_for(5));
    assert_eq!(m.exp_reward, 25);
    assert_eq!(m.potential_reward, 5);
    assert_eq!(m.drop_rate, 1000);
    assert_eq!(m.render_info(), "§w野狼§r (Lv5)\n");
    let b = m.with_rarity(MonsterRarity::Boss);
    assert_eq!(b.npc.combat.max_hp, 1500);
    assert_eq!(b.npc.combat.hp, 1500);
    assert_eq!(b.npc.combat.attack, 200);
    assert_eq!(b.npc.combat.defense, 100);
    assert_eq!(b.npc.combat.qi, 50);
    assert_eq!(b.exp_reward, 250);
    assert_eq!(b.potential_reward, 50);
    assert_eq!(b.render_info(), "§o首领野狼§r (Lv5)\n");
    let mut hurt = b;
    hurt.npc.combat.hp = 40;
    assert_eq!(hurt.render_info(), "§o首领野狼§r (Lv5)\n生命: 40/1500\n");
    let big = Monster::new("x".to_string(), "巨".to_string(), 1, CombatStats { max_hp: 4_000_000_000, ..stats_for(1) })
        .with_rarity(MonsterRarity::Elite);
    assert_eq!(big.npc.combat.max_hp, u32::MAX);
}

#[test]
fn monster_drops_follow_the_roll() {
    let m = Monster::new("bandit".to_string(), "强盗".to_string(), 10, stats_for(10))
        .with_drops(vec!["item/a".to_string(), "item/b".to_string()], 3000)
        .with_aggressive(true);
    assert!(m.npc.base.aggressive);
    assert_eq!(m.drop_for(2999, 0), Some("item/a".to_string()));
    assert_eq!(m.drop_for(0, 3), Some("item/b".to_string()));
    assert_eq!(m.drop_for(3000, 0), None);
    let none = Monster::new("rat".to_string(), "老鼠".to_string(), 1, stats_for(1)).with_drops(Vec::new(), 10000);
    assert_eq!(none.drop_for(0, 0), None);
    assert_eq!(none.calculate_drops(), None);
    let sure = Monster::new("boss".to_string(), "首".to_string(), 1, stats_for(1))
        .with_drops(vec!["item/epic".to_string()], 10000);
    assert_eq!(sure.calculate_drops(), Some("item/epic".to_string()));
}

#[test]
fn preset_monsters_and_level_pick() {
    let ms = create_preset_monsters(stats_for);
    assert_eq!(ms.len(), 6);
    assert_eq!(ms[0].npc.base.name, "monster_rat");
    assert_eq!(ms[4].rarity, MonsterRarity::Elite);
    assert_eq!(ms[4].npc.combat.max_hp, 2 * 300);
    assert_eq!(ms[4].drops, vec!["item/iron_sword".to_string(), "item/leather_armor".to_string()]);
    assert_eq!(ms[5].exp_reward, 25000);
    assert!(ms[2].npc.base.aggressive);
    let m = spawn_monster_for_level(45, "forest", stats_for).unwrap();
    assert_eq!(m.npc.base.name, "monster_dungeon_boss");
    assert!(spawn_monster_for_level(100, "forest", stats_for).is_none());
    let low = spawn_monster_for_level(1, "forest", stats_for).unwrap();
    assert!(low.npc.base.level <= 11);
}

#[test]
fn merchant_titles() {
    assert_eq!(MerchantType::Weapon.name(), "武器商");
    assert_eq!(MerchantType::Pawnshop.name(), "当铺");
    assert_eq!(MerchantType::Bank.name(), "钱庄");
}

fn good(id: &str, price: u64, stock: u32) -> ShopItem {
    ShopItem { item_id: id.to_string(), price, buyback_price: price / 2, stock }
}

#[test]
fn shop_list_and_buying() {
    let mut goods = vec![good("item/iron_sword", 100, 2), good("med/hp_small", 10, 0)];
    assert_eq!(render_shop("武器商", "铁匠", &goods),
        "=== 武器商 ===\n店主: 铁匠\n1. item/iron_sword - 100 金 (库存: 2)\n2. med/hp_small - 10 金 (库存: 无限)\n\
         \n§c[buy <编号> <数量>] - 购买物品§r\n§c[sell <物品名>] - 出售物品§r\n");
    assert_eq!(shop_item_info(&goods, "med/hp_small").unwrap().price, 10);
    assert!(shop_item_info(&goods, "none").is_none());
    assert_eq!(buy_from_shop(&mut goods, "none", 1, 1000), Err(MudError::NotFound("商品不存在".to_string())));
    assert_eq!(buy_from_shop(&mut goods, "item/iron_sword", 3, 1000),
        Err(MudError::InvalidOperation("库存不足".to_string())));
    assert_eq!(buy_from_shop(&mut goods, "item/iron_sword", 2, 199),
        Err(MudError::InvalidOperation("金钱不足".to_string())));
    assert_eq!(goods[0].stock, 2);
    assert_eq!(buy_from_shop(&mut goods, "item/iron_sword", 2, 200), Ok((200, 2)));
    assert_eq!(goods[0].stock, 0);
    assert_eq!(buy_from_shop(&mut goods, "med/hp_small", 50, 500), Ok((500, 50)));
    assert_eq!(goods[1].stock, 0);
}
