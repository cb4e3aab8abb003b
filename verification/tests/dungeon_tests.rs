use gamenv::daemons::fbdd::{DungeonInstance, DungeonStatus, FbdDaemon};
use gamenv::errors::MudError;

fn names(ps: &[&str]) -> Vec<String> {
    ps.iter().map(|p| p.to_string()).collect()
}

#[test]
fn default_has_the_boar_cave() {
    let d = FbdDaemon::default();
    let g = d.get_dungeon("newbie_cave").unwrap();
    assert_eq!(g.name, "野猪洞穴");
    assert_eq!(g.rewards.gold, 200);
    assert_eq!(d.get_all_dungeons().len(), 1);
    assert_eq!(d.format_dungeon_list(), "§H=== 副本列表 ===§N\n§Y[野猪洞穴]§N 单人 - 1-1人 - Lv.1-10\n  状态: §G等待中§N\n");
}

#[test]
fn instances_check_party_and_membership() {
    let mut d = FbdDaemon::default();
    assert!(matches!(d.create_instance_at("nope", names(&["a"]), 5), Err(MudError::NotFound(ref m)) if m == "副本 nope 不存在"));
    assert!(matches!(d.create_instance_at("newbie_cave", names(&["a", "b"]), 5),
        Err(MudError::RuntimeError(ref m)) if m == "人数不符合要求，需要 1-1 人"));
    let id = d.create_instance_at("newbie_cave", names(&["a"]), 5).unwrap();
    assert_eq!(id, "inst_newbie_cave_5");
    assert!(matches!(d.create_instance_at("newbie_cave", names(&["a"]), 6),
        Err(MudError::RuntimeError(ref m)) if m == "玩家 a 已在副本中"));
    assert_eq!(d.get_player_instance("a").unwrap().id, id);
    d.join_instance(&id, "b".to_string()).unwrap();
    assert_eq!(d.get_player_instance("b").unwrap().players, names(&["a", "b"]));
    assert!(matches!(d.join_instance("zzz", "c".to_string()), Err(MudError::NotFound(ref m)) if m == "副本实例不存在"));
    d.leave_instance("a").unwrap();
    assert_eq!(d.get_player_instance("b").unwrap().players, names(&["b"]));
    d.leave_instance("b").unwrap();
    assert!(d.get_player_instance("b").is_none());
    assert!(matches!(d.leave_instance("b"), Err(MudError::NotFound(ref m)) if m == "玩家不在副本中"));
}

#[test]
fn full_instances_refuse_joiners() {
    let mut d = FbdDaemon::new();
    let mut x = DungeonInstance::new_at("g".to_string(), names(&["1", "2", "3", "4", "5"]), 0);
    x.id = "inst".to_string();
    d.instances.push(x);
    assert!(matches!(d.join_instance("inst", "6".to_string()), Err(MudError::RuntimeError(ref m)) if m == "副本已满"));
}

#[test]
fn instance_life_cycle() {
    let mut x = DungeonInstance::new_at("g".to_string(), names(&["a"]), 100);
    assert_eq!(x.status, DungeonStatus::Waiting);
    assert_eq!(x.get_elapsed_time_at(130), 30);
    x.start_at(110);
    assert_eq!(x.status, DungeonStatus::InProgress);
    x.complete_at(150);
    assert_eq!(x.status, DungeonStatus::Completed);
    assert_eq!(x.get_elapsed_time_at(999), 40);
    x.fail_at(160);
    assert_eq!(x.status, DungeonStatus::Failed);
}
