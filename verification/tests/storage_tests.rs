use gamenv::daemons::storaged::{PlayerStorage, StorageDaemon, StoragePage, StorageSlot};
use gamenv::errors::MudError;

fn item(id: &str) -> StorageSlot {
    StorageSlot {
        item_id: id.to_string(),
        item_name: format!("物品{}", id),
        count: 1,
        item_type: "misc".to_string(),
        quality: 3,
        bound: false,
    }
}

#[test]
fn page_slots() {
    let mut p = StoragePage::new(1, 3);
    assert_eq!(p.free_slots(), 3);
    assert_eq!(p.first_free_slot(), Some(1));
    assert!(p.add_item(1, item("a")).is_ok());
    assert_eq!(p.add_item(1, item("b")), Err(MudError::RuntimeError("格子已被占用".to_string())));
    assert_eq!(p.add_item(4, item("b")), Err(MudError::RuntimeError("格子位置无效".to_string())));
    assert_eq!(p.first_free_slot(), Some(2));
    assert_eq!(p.remove_item(1).unwrap().item_id, "a");
    assert_eq!(p.remove_item(1), Err(MudError::NotFound("格子为空".to_string())));
    assert!(!p.is_full());
}

#[test]
fn store_and_retrieve_round_trip() {
    let mut st = PlayerStorage::new("p1".to_string(), 2, 2);
    assert_eq!(st.store_item(item("a"), None), Ok(101));
    assert_eq!(st.store_item(item("b"), Some(2)), Ok(201));
    assert_eq!(st.store_item(item("c"), None), Ok(102));
    assert_eq!(st.store_item(item("d"), None), Ok(202));
    assert_eq!(st.store_item(item("e"), None), Err(MudError::RuntimeError("仓库已满".to_string())));
    assert_eq!(st.retrieve_item(102).unwrap().item_id, "c");
    assert_eq!(st.retrieve_item(102), Err(MudError::NotFound("格子为空".to_string())));
    assert_eq!(st.retrieve_item(901), Err(MudError::NotFound("页面不存在".to_string())));
    assert_eq!(st.total_items(), 3);
    assert_eq!(st.total_free_slots(), 1);
}

#[test]
fn move_swaps_items() {
    let mut st = PlayerStorage::new("p1".to_string(), 2, 3);
    st.store_item(item("a"), None).unwrap();
    st.store_item(item("b"), Some(2)).unwrap();
    assert!(st.move_item(101, 201).is_ok());
    assert_eq!(st.get_page(1).unwrap().get_item(1).unwrap().item_id, "b");
    assert_eq!(st.get_page(2).unwrap().get_item(1).unwrap().item_id, "a");
    assert!(st.move_item(101, 103).is_ok());
    assert!(st.get_page(1).unwrap().get_item(1).is_none());
    assert_eq!(st.move_item(101, 103), Err(MudError::NotFound("格子为空".to_string())));
}

#[test]
fn gold_and_pages() {
    let mut st = PlayerStorage::new("p1".to_string(), 1, 2);
    st.store_gold(50).unwrap();
    assert_eq!(st.retrieve_gold(60), Err(MudError::RuntimeError("金币不足".to_string())));
    assert_eq!(st.retrieve_gold(20), Ok(20));
    assert_eq!(st.gold_stored, 30);
    assert!(st.add_page().is_ok());
    assert_eq!(st.page_count, 2);
    assert_eq!(st.format_page(2), "§H=== 仓库 (第2/2页) ===§N\n金币: 30 | 空位: 2/2\n\n此页面为空。\n");
    st.store_item(item("x"), Some(1)).unwrap();
    assert_eq!(st.format_page(1), "§H=== 仓库 (第1/2页) ===§N\n金币: 30 | 空位: 1/2\n\n  [1] §B物品x x1\n");
    assert_eq!(st.format_page(7), "§R页面不存在§N");
}

#[test]
fn daemon_operations() {
    let mut d = StorageDaemon::new();
    assert!(d.get_storage("p").is_none());
    assert_eq!(d.get_storage_info("p"), "§R你还没有开通仓库§N");
    assert_eq!(d.retrieve_item("p", 101), Err(MudError::NotFound("仓库不存在".to_string())));
    assert_eq!(d.store_item("p", item("a"), None), Ok(101));
    assert_eq!(d.get_storage("p").unwrap().page_count, 2);
    assert_eq!(d.expand_page("p", 5), Err(MudError::RuntimeError("金币不足，需要10000金币".to_string())));
    assert!(d.expand_page("p", 10000).is_ok());
    d.store_gold("p", 7).unwrap();
    assert_eq!(d.retrieve_gold("p", 3), Ok(3));
    assert_eq!(
        d.get_storage_info("p"),
        "§H=== 仓库信息 ===§N\n页数: 3/10\n每页容量: 20\n总物品: 1\n总空位: 59\n存储金币: 4"
    );
    assert_eq!(d.retrieve_item("p", 101).unwrap().item_id, "a");
    assert_eq!(d.get_or_create_storage("q").page_count, 2);
}

#[test]
fn storages_and_pages_change_in_place() {
    let mut d = StorageDaemon::new();
    assert!(d.get_storage_mut("p").is_none());
    assert_eq!(d.store_item("p", item("a"), None), Ok(101));
    d.get_storage_mut("p").unwrap().gold_stored = 9;
    assert_eq!(d.get_storage("p").unwrap().gold_stored, 9);
    let s = d.get_storage_mut("p").unwrap();
    assert!(s.get_page_mut(7).is_none());
    let page = s.get_page_mut(1).unwrap();
    assert_eq!(page.page_num, 1);
    page.capacity = 5;
    assert_eq!(d.get_storage("p").unwrap().get_page(1).unwrap().capacity, 5);
}
