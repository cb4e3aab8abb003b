use gamenv::daemons::spawn_d::{BossConfig, NpcSpawnPoint, SpawnDaemon, SpawnZone, SpawnedNpc};
use gamenv::world::GameWorld;
use gamenv::world::room::Room;

fn boss(min_players: usize) -> BossConfig {
    BossConfig {
        npc_id: "boss_x".to_string(),
        name: "恶龙".to_string(),
        zones: vec![SpawnZone::Dali],
        respawn_interval: 100,
        lifetime: 50,
        min_online_players: min_players,
        broadcast_message: "$ZONE突然出现 $NAME！($OR)".to_string(),
    }
}

#[test]
fn zones_have_codes() {
    assert_eq!(SpawnZone::Gmd.as_str(), "gmd");
    assert_eq!(SpawnZone::from_str("dali"), Some(SpawnZone::Dali));
    assert_eq!(SpawnZone::from_str("mars"), None);
}

#[test]
fn built_in_tables() {
    let d = SpawnDaemon::new();
    assert_eq!(d.boss_configs.len(), 5);
    assert_eq!(d.boss_configs[0].npc_id, "boss_miaofengshi");
    assert_eq!(d.boss_configs[4].broadcast_message, "$OR突然出现 §R$NAME§N！");
    assert_eq!(d.npc_spawn_points[0].spawns[0].max_count, 3);
    assert_eq!(d.npc_spawn_points[0].spawns[1].respawn_time, 60);
}

#[test]
fn bosses_need_players_and_rooms() {
    let mut d = SpawnDaemon::new();
    let mut world = GameWorld::new();
    let c = boss(2);
    assert!(!d.can_spawn_at(&c, 1000));
    d.update_online_players(2);
    assert!(d.can_spawn_at(&c, 1000));
    assert!(d.spawn_boss_at(&c, &world, 1000).is_none());
    let room = Room {
        id: "dali/a".to_string(),
        name: "a".to_string(),
        short: "a".to_string(),
        long: String::new(),
        exits: vec![],
        npcs: vec![],
        monsters: vec![],
        items: vec![],
        zone: "dali".to_string(),
        light: 1,
        danger_level: 1,
        room_type: String::new(),
        links: String::new(),
        is_peaceful: false,
        is_bedroom: false,
        spawn_configs: vec![],
        killed_npcs: vec![],
        last_reset: 0,
        reset_interval: 0,
    };
    world.add_room(room);
    let n = d.spawn_boss_at(&c, &world, 1000).unwrap();
    assert_eq!(n.room_id, "dali/a");
    assert_eq!(n.expires_at, 1050);
    assert!(!d.can_spawn_at(&c, 1060));
    assert_eq!(d.get_active_bosses_at(1040).len(), 1);
    assert_eq!(d.get_boss_status("boss_x"), Some("Boss: boss_x - 所在区域: dali - 刷新时间: 1000 - 过期时间: 1050".to_string()));
    assert_eq!(d.on_npc_killed("boss_x", "张三"), "boss_x 被 张三 击败了！");
    assert_eq!(d.on_npc_killed("boss_x", "张三"), "");
    assert_eq!(d.cleanup_expired_at(1051), 1);
    assert!(d.can_spawn_at(&c, 1100));
}

#[test]
fn broadcast_fills_placeholders() {
    let d = SpawnDaemon::new();
    assert_eq!(d.format_broadcast(&boss(0), &SpawnZone::Dali), "§Y[游戏公告]§N 大理突然出现 恶龙！(大理)");
}

#[test]
fn dead_npcs_wait_and_come_back() {
    let mut d = SpawnDaemon::new();
    let mut p = NpcSpawnPoint::new("mob/cat".to_string(), "room".to_string()).with_max_count(2).with_respawn_time(10);
    p.active_npcs.push("cat1".to_string());
    d.add_npc_spawn_point(p);
    d.on_npc_died_at("cat1", "mob/cat", "room", 100);
    let attempts = d.respawn_attempts_at(105);
    assert!(attempts.is_empty());
    let attempts = d.respawn_attempts_at(110);
    assert_eq!(attempts, vec![("room".to_string(), 0, "mob/cat".to_string())]);
    d.settle_spawn_at("room", 0, 110, &vec![Some("cat2".to_string())]);
    let s = &d.npc_spawn_points.iter().find(|r| r.room_id == "room").unwrap().spawns[0];
    assert_eq!(s.active_npcs, vec!["cat2".to_string()]);
    assert!(s.pending_respawns.is_empty());
}

#[test]
fn spawned_npc_expires() {
    let n = SpawnedNpc::new_at("b".to_string(), "r".to_string(), SpawnZone::Gmd, 10, true, 100);
    assert!(!n.is_expired_at(110));
    assert!(n.is_expired_at(111));
}
