use gamenv::world::loader::{WorldLoader, RoomData, NpcData, ItemData, ShopData, GoodsData};
use gamenv::world::item::{Inventory, InventoryItem, ItemInstance, ItemType, ItemQuality};
use gamenv::world::npc::NpcBehavior;
use gamenv::world::GameWorld;

#[test]
fn test_loader_creation() {
    let loader = WorldLoader::new("./data/world");
    assert_eq!(loader.data_dir, "./data/world");
}

#[test]
fn data_file_joins_directory() {
    let loader = WorldLoader::new("./data/world");
    assert_eq!(loader.data_file("rooms_data.json"), "./data/world/rooms_data.json");
}

#[test]
fn zone_is_text_before_first_slash() {
    let loader = WorldLoader::new("d");
    assert_eq!(loader.extract_zone("beijing/zhengyangmen"), "beijing");
    assert_eq!(loader.extract_zone("a/b/c"), "a");
    assert_eq!(loader.extract_zone("nowhere"), "unknown");
    assert_eq!(loader.extract_zone("/x"), "");
}

#[test]
fn room_from_record() {
    let loader = WorldLoader::new("d");
    let data = RoomData {
        name_cn: Some("正阳门".to_string()),
        desc: Some("城门".to_string()),
        room_type: None,
        exits: vec![
            Some("north:beijing/a".to_string()),
            None,
            Some("bad".to_string()),
            Some("north:beijing/b".to_string()),
            Some("east:x:y".to_string()),
        ],
        npcs: vec![Some("guard".to_string()), None, Some("dog".to_string())],
        is_peaceful: Some(1),
        is_bedroom: Some(2),
        links: None,
    };
    let room = loader.parse_room("beijing/zhengyangmen", &data).unwrap();
    assert_eq!(room.id, "beijing/zhengyangmen");
    assert_eq!(room.name, "正阳门");
    assert_eq!(room.short, "正阳门");
    assert_eq!(room.long, "城门");
    assert_eq!(room.room_type, "normal");
    assert_eq!(room.zone, "beijing");
    assert_eq!(room.npcs, vec!["guard".to_string(), "dog".to_string()]);
    assert_eq!(room.exits.len(), 2);
    assert_eq!(room.get_exit("north").cloned(), Some("beijing/b".to_string()));
    assert_eq!(room.get_exit("east").cloned(), Some("x:y".to_string()));
    assert!(room.is_peaceful);
    assert!(!room.is_bedroom);
    assert_eq!(room.danger_level, 0);
    assert_eq!(room.light, 100);
    assert_eq!(room.reset_interval, 100);
}

#[test]
fn room_defaults() {
    let loader = WorldLoader::new("d");
    let data = RoomData {
        name_cn: None,
        desc: None,
        room_type: Some("inn".to_string()),
        exits: vec![],
        npcs: vec![],
        is_peaceful: None,
        is_bedroom: Some(1),
        links: Some("l".to_string()),
    };
    let room = loader.parse_room("lonely", &data).unwrap();
    assert_eq!(room.name, "未知房间");
    assert_eq!(room.long, "");
    assert_eq!(room.room_type, "inn");
    assert_eq!(room.zone, "unknown");
    assert_eq!(room.danger_level, 1);
    assert!(room.is_bedroom);
    assert_eq!(room.links, "l");
}

#[test]
fn npc_from_record() {
    let loader = WorldLoader::new("d");
    let data = NpcData { name_cn: Some("店小二".to_string()), desc: None, level: Some(12), hp: Some(300), max_hp: None, daoheng: Some(7) };
    let npc = loader.parse_npc("xiaoer", &data).unwrap();
    assert_eq!(npc.id, "xiaoer");
    assert_eq!(npc.name, "店小二");
    assert_eq!(npc.level, 12);
    assert_eq!(npc.hp, 300);
    assert_eq!(npc.hp_max, 300);
    assert_eq!(npc.mp, 7);
    assert_eq!(npc.attack, 120);
    assert_eq!(npc.defense, 60);
    assert_eq!(npc.exp, 1200);
    assert_eq!(npc.gold, 120);
    assert_eq!(npc.behavior, NpcBehavior::Passive);
    let empty = NpcData { name_cn: None, desc: None, level: None, hp: None, max_hp: None, daoheng: None };
    let npc = loader.parse_npc("x", &empty).unwrap();
    assert_eq!(npc.name, "未知NPC");
    assert_eq!(npc.level, 1);
    assert_eq!(npc.hp, 100);
    assert_eq!(npc.hp_max, 100);
}

#[test]
fn item_from_record() {
    let loader = WorldLoader::new("d");
    let data = ItemData {
        name_cn: Some("长剑".to_string()),
        desc: None,
        item_type: Some("weapon".to_string()),
        level: Some(120),
        value: Some(500),
        attack_power: Some(30),
        parry_power: None,
        skill: Some("sword".to_string()),
    };
    let item = loader.parse_item("sword", &data).unwrap();
    assert_eq!(item.item_type, ItemType::Weapon);
    assert_eq!(item.quality, ItemQuality::Rare);
    assert_eq!(item.stats.attack, 30);
    assert_eq!(item.stats.defense, 0);
    assert_eq!(item.price, 500);
    assert_eq!(item.subtype, "sword");
    assert!(!item.stackable);
    let food = ItemData { name_cn: None, desc: None, item_type: Some("food".to_string()), level: Some(600), value: None, attack_power: None, parry_power: None, skill: None };
    let item = loader.parse_item("bun", &food).unwrap();
    assert_eq!(item.name, "未知物品");
    assert_eq!(item.item_type, ItemType::Potion);
    assert!(item.stackable);
    assert_eq!(item.quality, ItemQuality::Legendary);
    assert_eq!(item.subtype, "unarmed");
    let misc = ItemData { name_cn: None, desc: None, item_type: None, level: Some(51), value: None, attack_power: None, parry_power: None, skill: None };
    let item = loader.parse_item("rock", &misc).unwrap();
    assert_eq!(item.item_type, ItemType::Other);
    assert_eq!(item.quality, ItemQuality::Uncommon);
}

#[test]
fn shop_from_record() {
    let loader = WorldLoader::new("d");
    let data = ShopData {
        name_cn: None,
        goods: vec![
            Some(GoodsData { item_path: Some("obj/bun".to_string()), short_name: Some("包子".to_string()) }),
            None,
            Some(GoodsData { item_path: Some("obj/tea".to_string()), short_name: None }),
            Some(GoodsData { item_path: None, short_name: None }),
        ],
    };
    let shop = loader.parse_shop("inn", &data).unwrap();
    assert_eq!(shop.id, "inn");
    assert_eq!(shop.name, "未知商店");
    assert_eq!(shop.items.len(), 3);
    assert_eq!(shop.items[0].item_id, "obj/bun");
    assert_eq!(shop.items[0].name, "包子");
    assert_eq!(shop.items[1].name, "obj/tea");
    assert_eq!(shop.items[2].item_id, "");
    assert_eq!(shop.items[2].price, 100);
    assert_eq!(shop.items[2].stock, -1);
}

#[test]
fn world_tables_replace_by_id() {
    let loader = WorldLoader::new("d");
    let mut world = GameWorld::new();
    let mut data = RoomData { name_cn: Some("A".to_string()), desc: None, room_type: None, exits: vec![], npcs: vec![], is_peaceful: None, is_bedroom: None, links: None };
    world.add_room(loader.parse_room("r1", &data).unwrap());
    data.name_cn = Some("B".to_string());
    world.add_room(loader.parse_room("r2", &data).unwrap());
    data.name_cn = Some("C".to_string());
    world.add_room(loader.parse_room("r1", &data).unwrap());
    assert_eq!(world.room_count(), 2);
    assert_eq!(world.get_room("r1").unwrap().name, "C");
    assert_eq!(world.get_room("r2").unwrap().name, "B");
    assert!(world.get_room("r3").is_none());
    assert_eq!(world.npc_count(), 0);
    assert_eq!(world.item_count(), 0);
    assert_eq!(world.shop_count(), 0);
}

fn stack(template_id: &str, count: i32) -> InventoryItem {
    InventoryItem {
        item: ItemInstance { id: format!("{}_x", template_id), template_id: template_id.to_string(), count,
            enhance_level: 0, custom_stats: None },
        slot: None,
    }
}

#[test]
fn failed_removal_uses_up_every_stack() {
    let mut inv = Inventory { items: vec![stack("herb", 3), stack("sword", 1), stack("herb", 2)], capacity: 10 };
    assert_eq!(inv.get_item_count("herb"), 5);
    assert_eq!(inv.remove_item("herb", 4), Ok(()));
    assert_eq!(inv.get_item_count("herb"), 1);
    assert_eq!(inv.items.len(), 2);
    assert_eq!(inv.remove_item("herb", 3), Err("物品数量不足，还需要2".to_string()));
    assert_eq!(inv.get_item_count("herb"), 0);
    assert_eq!(inv.items.len(), 1);
    assert_eq!(inv.items[0].item.template_id, "sword");
}
