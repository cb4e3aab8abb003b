use gamenv::traits::composition::{
    DialogFeature, FeatureContainer, FightFeature, InventoryFeature, MovableFeature,
};

#[test]
fn test_feature_container() {
    let mut container = FeatureContainer::new();
    container.add(FightFeature::new(100, 100, 10, 5));
    assert!(container.has::<FightFeature>());
    if let Some(fight) = container.get::<FightFeature>() {
        assert_eq!(fight.hp, 100);
        assert_eq!(fight.attack, 10);
    }
    container.remove::<FightFeature>("test_id");
    assert!(!container.has::<FightFeature>());
}

#[test]
fn test_multiple_features() {
    let mut container = FeatureContainer::new();
    container.add(FightFeature::new(100, 100, 10, 5));
    container.add(InventoryFeature::new(20));
    container.add(DialogFeature::new("dialog_001".to_string()));
    container.add(MovableFeature::new());
    assert!(container.has::<FightFeature>());
    assert!(container.has::<InventoryFeature>());
    assert!(container.has::<DialogFeature>());
    assert!(container.has::<MovableFeature>());
    let features = container.list_features();
    assert_eq!(features.len(), 4);
}

#[test]
fn test_inventory_operations() {
    let mut inv = InventoryFeature::new(5);
    assert!(inv.add_item("item_001".to_string()).is_ok());
    assert!(inv.add_item("item_002".to_string()).is_ok());
    assert_eq!(inv.items.len(), 2);
    for i in 3..=6 {
        inv.add_item(format!("item_{:03}", i)).ok();
    }
    assert_eq!(inv.items.len(), 5);
    assert!(inv.add_item("item_007".to_string()).is_err());
    let list = inv.list_items();
    assert!(list.contains("item_001"));
    assert!(inv.remove_item("item_001").is_ok());
    assert_eq!(inv.items.len(), 4);
}

#[test]
fn test_fight_feature() {
    let fight = FightFeature::new(100, 100, 15, 5);
    assert_eq!(fight.hp, 100);
    assert_eq!(fight.hp_percent(), 100);
    assert!(fight.is_alive());
    let fight = FightFeature::new(50, 100, 10, 5);
    assert_eq!(fight.hp_percent(), 50);
}

#[test]
fn test_dialog_feature() {
    let dialog = DialogFeature::new("test_dialog".to_string());
    assert!(dialog.has_topic("你好"));
    assert!(dialog.has_topic("任务"));
    assert!(!dialog.has_topic("不存在"));
}

#[test]
fn adding_same_kind_replaces() {
    let mut c = FeatureContainer::new();
    c.add(FightFeature::new(10, 10, 1, 1));
    c.add(FightFeature::new(20, 30, 2, 2));
    assert_eq!(c.count(), 1);
    assert_eq!(c.get::<FightFeature>().unwrap().hp, 20);
    assert!(!c.remove::<InventoryFeature>("x"));
    c.clear();
    assert_eq!(c.count(), 0);
}

#[test]
fn inventory_listing_and_errors() {
    let mut inv = InventoryFeature::new(2);
    assert_eq!(inv.list_items(), "背包是空的。");
    inv.add_item("a".to_string()).unwrap();
    inv.add_item("b".to_string()).unwrap();
    assert_eq!(inv.list_items(), "你的背包：\n  1. a\n  2. b\n");
    assert_eq!(inv.add_item("c".to_string()), Err("背包已满".to_string()));
    assert_eq!(inv.remove_item("z"), Err("物品不存在".to_string()));
    assert_eq!(inv.remove_item("a"), Ok("a".to_string()));
}

#[test]
fn hp_percent_clamps() {
    assert_eq!(FightFeature::new(150, 100, 1, 1).hp_percent(), 100);
    assert_eq!(FightFeature::new(-5, 100, 1, 1).hp_percent(), 0);
    assert_eq!(FightFeature::new(5, 0, 1, 1).hp_percent(), 0);
    assert_eq!(FightFeature::new(1, 3, 1, 1).hp_percent(), 33);
}
