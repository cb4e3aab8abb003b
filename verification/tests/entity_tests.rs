use gamenv::traits::composition::{DialogFeature, ShopFeature};
use gamenv::traits::entity::GameEntity;
use gamenv::world::npc::{Npc, NpcBehavior};

fn npc(id: &str, shop: Option<String>) -> Npc {
    Npc {
        id: id.to_string(),
        name: "测试NPC".to_string(),
        short: "测试".to_string(),
        long: "这是一个测试NPC".to_string(),
        level: 10,
        hp: 100,
        hp_max: 100,
        mp: 50,
        mp_max: 50,
        attack: 15,
        defense: 10,
        exp: 100,
        gold: 50,
        behavior: NpcBehavior::Passive,
        dialogs: vec![],
        shop,
        loot: vec![],
    }
}

#[test]
fn test_game_entity_creation() {
    let npc = npc("npc_001", None);
    let entity = GameEntity::from_npc(&npc);
    assert!(entity.can_fight());
    assert!(entity.can_move());
    assert_eq!(entity.hp_percent(), 100);
    assert!(entity.is_alive());
}

#[test]
fn entity_from_npc_with_shop() {
    let npc = npc("npc_test", Some("shop_001".to_string()));
    let entity = GameEntity::from_npc(&npc);
    assert!(entity.has_shop());
    assert!(!entity.can_talk());
    assert_eq!(entity.get_feature::<ShopFeature>().unwrap().shop_id, "shop_001");
    assert!(entity.get_feature::<DialogFeature>().is_none());
}
