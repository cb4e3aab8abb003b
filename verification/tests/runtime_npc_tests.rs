use gamenv::daemons::runtime_npc_d::{NpcInstanceState, RuntimeNpcDaemon};

fn templates(ts: &[&str]) -> Vec<String> {
    ts.iter().map(|t| t.to_string()).collect()
}

#[test]
fn intervals_follow_rules() {
    let mut d = RuntimeNpcDaemon::new();
    assert_eq!(d.get_respawn_interval("default"), 300);
    assert_eq!(d.get_respawn_interval("xinshoucun/dog"), 180);
    assert_eq!(d.get_respawn_interval("monster_wolf"), 120);
    assert_eq!(d.get_respawn_interval("big_boss_1"), 3600);
    assert_eq!(d.get_respawn_interval("room/elite_guard"), 600);
    assert_eq!(d.get_respawn_interval("room/villager"), 300);
    d.set_respawn_interval("room/".to_string(), 42);
    assert_eq!(d.get_respawn_interval("room/villager"), 42);
}

#[test]
fn killed_npcs_come_back_when_due() {
    let mut d = RuntimeNpcDaemon::new();
    d.init_room_npcs_at("r", &templates(&["monster_a", "monster_a", "npc_b"]), 1000);
    assert_eq!(d.get_alive_npcs("r"), templates(&["monster_a", "monster_a", "npc_b"]));
    assert_eq!(d.get_all_npcs("r")[0].instance_id, "monster_a_r_1000");
    d.on_npc_killed_at("monster_a", "r", 2000);
    assert_eq!(d.get_alive_npcs("r"), templates(&["monster_a", "npc_b"]));
    assert!(!d.is_npc_alive("monster_a", "r"));
    assert!(d.is_npc_alive("npc_b", "r"));
    assert!(d.is_npc_alive("ghost", "r"));
    assert_eq!(d.dead_count(), 1);
    assert_eq!(d.total_count(), 3);
    assert_eq!(d.get_room_npc_status_at("r", 2030), "monster_a: 1分30秒后复活\nmonster_a: 存活中\nnpc_b: 存活中\n");
    assert_eq!(d.process_respawns_at(2119), 0);
    assert_eq!(d.process_respawns_at(2120), 1);
    assert_eq!(d.dead_count(), 0);
    assert_eq!(d.get_room_npc_status_at("nowhere", 0), "房间未初始化");
}

#[test]
fn force_respawn_needs_a_dead_instance() {
    let mut d = RuntimeNpcDaemon::new();
    d.init_room_npcs_at("r", &templates(&["x"]), 0);
    assert!(!d.force_respawn("x", "r"));
    d.on_npc_killed_at("x", "r", 10);
    assert!(d.force_respawn("x", "r"));
    assert!(d.is_npc_alive("x", "r"));
    assert_eq!(d.cleanup(), 0);
}

#[test]
fn remaining_time_texts() {
    let mut s = NpcInstanceState::new_at("t".to_string(), "r".to_string(), 7200, 0);
    assert_eq!(s.format_remaining_at(0), "存活中");
    s.mark_dead_at(0);
    assert_eq!(s.format_remaining_at(0), "2小时0分后复活");
    assert_eq!(s.format_remaining_at(7170), "30秒后复活");
    assert_eq!(s.format_remaining_at(7200), "即将复活");
    assert_eq!(s.respawn_remaining_at(100), 7100);
    assert!(s.can_respawn_at(7200));
    s.respawn();
    assert!(s.is_alive && s.respawn_at.is_none());
}
