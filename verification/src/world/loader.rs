//! Building the world's rooms, NPCs, items and shops from the records of
//! the world data files. Reading the files and decoding their JSON is the
//! caller's part; a record holds, as plain values, what a data file gives
//! for one entry (`None` where a key is missing or holds another kind of
//! value).
use vstd::prelude::*;
use crate::text::{push_str, string_of, str_eq};
use crate::util::{key_get, keys_unique, put_key};
use crate::words::{split_once, split_at_char};
use crate::world::room::{Exit, Room};
use crate::world::npc::{Npc, NpcBehavior};
use crate::world::item::{ItemTemplate, ItemType, ItemQuality, ItemStats};
use crate::world::shop::{Shop, ShopItem};

verus! {

/// Reads the world from the data files of one directory.
#[derive(Debug)]
pub struct WorldLoader {
    pub data_dir: String,
}

/// One entry of the rooms file.
#[derive(Debug)]
pub struct RoomData {
    pub name_cn: Option<String>,
    pub desc: Option<String>,
    pub room_type: Option<String>,
    /// The entries of the `exits` list, each `direction:room`.
    pub exits: Vec<Option<String>>,
    /// The entries of the `npcs` list.
    pub npcs: Vec<Option<String>>,
    pub is_peaceful: Option<i64>,
    pub is_bedroom: Option<i64>,
    pub links: Option<String>,
}

/// One entry of the NPCs file.
#[derive(Debug)]
pub struct NpcData {
    pub name_cn: Option<String>,
    pub desc: Option<String>,
    pub level: Option<i64>,
    pub hp: Option<i64>,
    pub max_hp: Option<i64>,
    pub daoheng: Option<i64>,
}

/// One entry of the items file.
#[derive(Debug)]
pub struct ItemData {
    pub name_cn: Option<String>,
    pub desc: Option<String>,
    pub item_type: Option<String>,
    pub level: Option<i64>,
    pub value: Option<i64>,
    pub attack_power: Option<i64>,
    pub parry_power: Option<i64>,
    pub skill: Option<String>,
}

/// One entry of a shop's `goods` list.
#[derive(Debug)]
pub struct GoodsData {
    pub item_path: Option<String>,
    pub short_name: Option<String>,
}

/// One entry of the shops file.
#[derive(Debug)]
pub struct ShopData {
    pub name_cn: Option<String>,
    /// The entries of the `goods` list; `None` for one that is no object.
    pub goods: Vec<Option<GoodsData>>,
}

/// A text field, or `d` where it is missing.
pub open spec fn text_or(o: Option<String>, d: Seq<char>) -> Seq<char> {
    match o {
        Some(s) => s@,
        None => d,
    }
}

/// A number field, or `d` where it is missing.
pub open spec fn number_or(o: Option<i64>, d: i64) -> i64 {
    match o {
        Some(n) => n,
        None => d,
    }
}

/// A flag field: set where it holds 1.
pub open spec fn flag_set(o: Option<i64>) -> bool {
    o == Some(1i64)
}

/// The texts of a list, skipping the entries that are no text.
pub open spec fn list_texts(s: Seq<Option<String>>) -> Seq<Seq<char>>
    decreases s.len(),
{
    if s.len() == 0 {
        Seq::empty()
    } else {
        let rest = list_texts(s.drop_last());
        match s.last() {
            Some(x) => rest.push(x@),
            None => rest,
        }
    }
}

/// The exits that a list of `direction:room` texts gives, a later entry
/// for a direction replacing an earlier one; entries without `:` are
/// skipped.
pub open spec fn exit_map(s: Seq<Option<String>>) -> Map<Seq<char>, Seq<char>>
    decreases s.len(),
{
    if s.len() == 0 {
        Map::empty()
    } else {
        let m = exit_map(s.drop_last());
        match s.last() {
            Some(x) => match split_at_char(x@, ':') {
                Some((d, t)) => m.insert(d, t),
                None => m,
            },
            None => m,
        }
    }
}

/// The zone of a room id: the part before the first `/`, or `unknown`.
pub open spec fn zone_of(room_id: Seq<char>) -> Seq<char> {
    match split_at_char(room_id, '/') {
        Some((z, _)) => z,
        None => "unknown"@,
    }
}

/// The kind of item a type name of the data names.
pub open spec fn data_item_type(t: Seq<char>) -> ItemType {
    if t == "weapon"@ {
        ItemType::Weapon
    } else if t == "armor"@ {
        ItemType::Armor
    } else if t == "food"@ {
        ItemType::Potion
    } else {
        ItemType::Other
    }
}

/// The quality of an item of the level.
pub open spec fn level_quality(level: int) -> ItemQuality {
    if level > 500 {
        ItemQuality::Legendary
    } else if level > 300 {
        ItemQuality::Epic
    } else if level > 100 {
        ItemQuality::Rare
    } else if level > 50 {
        ItemQuality::Uncommon
    } else {
        ItemQuality::Common
    }
}

/// The exits hold exactly the directions of `m`, each leading where `m` says.
pub open spec fn exits_match(exits: Seq<Exit>, m: Map<Seq<char>, Seq<char>>) -> bool {
    &&& keys_unique(exits)
    &&& forall|d: Seq<char>| #[trigger] m.dom().contains(d) <==> key_get(exits, d) is Some
    &&& forall|d: Seq<char>| #[trigger] key_get(exits, d) is Some ==> key_get(exits, d)->0.direction@ == d && key_get(exits, d)->0.room_id@ == m[d]
}

/// A text field, or `d` where it is missing.
fn text_field(o: &Option<String>, d: &str) -> (r: String)
    ensures
        r@ == text_or(*o, d@),
{
    match o {
        Some(s) => s.clone(),
        None => string_of(d),
    }
}

/// A number field, or `d` where it is missing.
fn number_field(o: Option<i64>, d: i64) -> (r: i64)
    ensures
        r == number_or(o, d),
{
    match o {
        Some(n) => n,
        None => d,
    }
}

/// The texts of a list, skipping the entries that are no text.
fn collect_texts(s: &Vec<Option<String>>) -> (r: Vec<String>)
    ensures
        r@.map_values(|x: String| x@) == list_texts(s@),
{
    let mut out: Vec<String> = Vec::new();
    let mut i: usize = 0;
    while i < s.len()
        invariant
            i <= s@.len(),
            out@.map_values(|x: String| x@) == list_texts(s@.take(i as int)),
        decreases s.len() - i,
    {
        let ghost before = out@.map_values(|x: String| x@);
        assert(s@.take(i + 1).drop_last() =~= s@.take(i as int));
        match &s[i] {
            Some(x) => {
                out.push(x.clone());
                assert(out@.map_values(|x: String| x@) =~= before.push(x@));
            },
            None => {},
        }
        i = i + 1;
    }
    assert(s@.take(i as int) =~= s@);
    out
}

/// The exits that a list of `direction:room` texts gives.
fn collect_exits(s: &Vec<Option<String>>) -> (r: Vec<Exit>)
    ensures
        exits_match(r@, exit_map(s@)),
{
    let mut out: Vec<Exit> = Vec::new();
    let mut i: usize = 0;
    while i < s.len()
        invariant
            i <= s@.len(),
            exits_match(out@, exit_map(s@.take(i as int))),
        decreases s.len() - i,
    {
        let ghost m0 = exit_map(s@.take(i as int));
        let ghost o0 = out@;
        assert(s@.take(i + 1).drop_last() =~= s@.take(i as int));
        match &s[i] {
            Some(x) => {
                match split_once(x.as_str(), ':') {
                    Some((d, t)) => {
                        let ghost dv = d@;
                        let ghost tv = t@;
                        put_key(&mut out, Exit { direction: d, room_id: t });
                        proof {
                            let m1 = m0.insert(dv, tv);
                            assert(exit_map(s@.take(i + 1)) == m1);
                            assert forall|k: Seq<char>| #[trigger] m1.dom().contains(k) <==> key_get(out@, k) is Some by {
                                if k != dv {
                                    assert(key_get(out@, k) == key_get(o0, k));
                                }
                            }
                            assert forall|k: Seq<char>| #[trigger] key_get(out@, k) is Some implies key_get(out@, k)->0.direction@ == k && key_get(out@, k)->0.room_id@ == m1[k] by {
                                if k != dv {
                                    assert(key_get(out@, k) == key_get(o0, k));
                                }
                            }
                        }
                    },
                    None => {
                        assert(exit_map(s@.take(i + 1)) == m0);
                    },
                }
            },
            None => {
                assert(exit_map(s@.take(i + 1)) == m0);
            },
        }
        i = i + 1;
    }
    assert(s@.take(i as int) =~= s@);
    out
}

impl WorldLoader {
    /// A loader for the data files of `data_dir`.
    pub fn new(data_dir: &str) -> (r: Self)
        ensures
            r.data_dir@ == data_dir@,
    {
        WorldLoader { data_dir: string_of(data_dir) }
    }

    /// The path of a data file of the directory.
    pub fn data_file(&self, file_name: &str) -> (r: String)
        ensures
            r@ == self.data_dir@ + "/"@ + file_name@,
    {
        let mut p = self.data_dir.clone();
        push_str(&mut p, "/");
        push_str(&mut p, file_name);
        p
    }

    /// The zone of a room id: the part before the first `/`, or `unknown`.
    pub fn extract_zone(&self, room_id: &str) -> (r: String)
        ensures
            r@ == zone_of(room_id@),
    {
        match split_once(room_id, '/') {
            Some((z, _)) => z,
            None => string_of("unknown"),
        }
    }

    /// The room that an entry of the rooms file describes.
    pub fn parse_room(&self, room_id: &str, data: &RoomData) -> (r: Result<Room, String>)
        ensures
            r matches Ok(room) && {
                &&& room.id@ == room_id@
                &&& room.name@ == text_or(data.name_cn, "未知房间"@)
                &&& room.short@ == room.name@
                &&& room.long@ == text_or(data.desc, ""@)
                &&& room.room_type@ == text_or(data.room_type, "normal"@)
                &&& room.links@ == text_or(data.links, ""@)
                &&& exits_match(room.exits@, exit_map(data.exits@))
                &&& room.npcs@.map_values(|x: String| x@) == list_texts(data.npcs@)
                &&& room.monsters@.len() == 0 && room.items@.len() == 0
                &&& room.zone@ == zone_of(room_id@)
                &&& room.light == 100
                &&& room.is_peaceful == flag_set(data.is_peaceful)
                &&& room.is_bedroom == flag_set(data.is_bedroom)
                &&& room.danger_level == (if room.is_peaceful { 0i32 } else { 1i32 })
                &&& room.spawn_configs@.len() == 0 && room.killed_npcs@.len() == 0
                &&& room.last_reset == 0 && room.reset_interval == 100
            },
    {
        let name_cn = text_field(&data.name_cn, "未知房间");
        let desc = text_field(&data.desc, "");
        let room_type = text_field(&data.room_type, "normal");
        let exits = collect_exits(&data.exits);
        let npcs = collect_texts(&data.npcs);
        let is_peaceful = number_field(data.is_peaceful, 0) == 1;
        let is_bedroom = number_field(data.is_bedroom, 0) == 1;
        let links = text_field(&data.links, "");
        Ok(Room {
            id: string_of(room_id),
            name: name_cn.clone(),
            short: name_cn,
            long: desc,
            exits,
            npcs,
            monsters: Vec::new(),
            items: Vec::new(),
            zone: self.extract_zone(room_id),
            light: 100,
            danger_level: if is_peaceful { 0 } else { 1 },
            room_type,
            links,
            is_peaceful,
            is_bedroom,
            spawn_configs: Vec::new(),
            killed_npcs: Vec::new(),
            last_reset: 0,
            reset_interval: 100,
        })
    }

    /// The NPC that an entry of the NPCs file describes. Numbers are cut to
    /// 32 bits; attack, defense, experience and gold grow with the level.
    pub fn parse_npc(&self, npc_id: &str, data: &NpcData) -> (r: Result<Npc, String>)
        requires
            -21474836 <= number_or(data.level, 1) as i32 <= 21474836,
        ensures
            r matches Ok(npc) && {
                let level = number_or(data.level, 1) as i32;
                let hp = number_or(data.hp, 100) as i32;
                let daoheng = number_or(data.daoheng, 0) as i32;
                &&& npc.id@ == npc_id@
                &&& npc.name@ == text_or(data.name_cn, "未知NPC"@)
                &&& npc.short@ == npc.name@
                &&& npc.long@ == text_or(data.desc, ""@)
                &&& npc.level == level
                &&& npc.hp == hp
                &&& npc.hp_max == number_or(data.max_hp, hp as i64) as i32
                &&& npc.mp == daoheng && npc.mp_max == daoheng
                &&& npc.attack == level * 10 && npc.defense == level * 5
                &&& npc.exp == level * 100 && npc.gold == level * 10
                &&& npc.behavior == NpcBehavior::Passive
                &&& npc.dialogs@.len() == 0 && npc.shop is None && npc.loot@.len() == 0
            },
    {
        let name_cn = text_field(&data.name_cn, "未知NPC");
        let desc = text_field(&data.desc, "");
        let level = number_field(data.level, 1) as i32;
        let hp = number_field(data.hp, 100) as i32;
        let max_hp = number_field(data.max_hp, hp as i64) as i32;
        let daoheng = number_field(data.daoheng, 0) as i32;
        Ok(Npc {
            id: string_of(npc_id),
            name: name_cn.clone(),
            short: name_cn,
            long: desc,
            level,
            hp,
            hp_max: max_hp,
            mp: daoheng,
            mp_max: daoheng,
            attack: level * 10,
            defense: level * 5,
            exp: level * 100,
            gold: level * 10,
            behavior: NpcBehavior::Passive,
            dialogs: Vec::new(),
            shop: None,
            loot: Vec::new(),
        })
    }

    /// The item that an entry of the items file describes. Numbers are cut
    /// to 32 bits; the quality follows the level.
    pub fn parse_item(&self, item_id: &str, data: &ItemData) -> (r: Result<ItemTemplate, String>)
        ensures
            r matches Ok(item) && {
                let level = number_or(data.level, 1) as i32;
                &&& item.id@ == item_id@
                &&& item.name@ == text_or(data.name_cn, "未知物品"@)
                &&& item.description@ == text_or(data.desc, ""@)
                &&& item.item_type == data_item_type(text_or(data.item_type, "misc"@))
                &&& item.subtype@ == text_or(data.skill, "unarmed"@)
                &&& item.quality == level_quality(level as int)
                &&& item.level == level
                &&& item.stats == (ItemStats {
                    attack: number_or(data.attack_power, 0) as i32,
                    defense: number_or(data.parry_power, 0) as i32,
                    hp_bonus: 0,
                    mp_bonus: 0,
                    crit_rate: 0,
                    crit_damage: 0,
                })
                &&& item.price == number_or(data.value, 0) as i32
                &&& item.stackable == (item.item_type == ItemType::Potion)
                &&& item.effects@.len() == 0
            },
    {
        let name_cn = text_field(&data.name_cn, "未知物品");
        let desc = text_field(&data.desc, "");
        let kind_text = text_field(&data.item_type, "misc");
        let item_type = if str_eq(kind_text.as_str(), "weapon") {
            ItemType::Weapon
        } else if str_eq(kind_text.as_str(), "armor") {
            ItemType::Armor
        } else if str_eq(kind_text.as_str(), "food") {
            ItemType::Potion
        } else {
            ItemType::Other
        };
        let level = number_field(data.level, 1) as i32;
        let value = number_field(data.value, 0) as i32;
        let attack_power = number_field(data.attack_power, 0) as i32;
        let parry_power = number_field(data.parry_power, 0) as i32;
        let skill = text_field(&data.skill, "unarmed");
        let quality = if level > 500 {
            ItemQuality::Legendary
        } else if level > 300 {
            ItemQuality::Epic
        } else if level > 100 {
            ItemQuality::Rare
        } else if level > 50 {
            ItemQuality::Uncommon
        } else {
            ItemQuality::Common
        };
        let stackable = match item_type {
            ItemType::Potion => true,
            _ => false,
        };
        Ok(ItemTemplate {
            id: string_of(item_id),
            name: name_cn,
            item_type,
            subtype: skill,
            description: desc,
            quality,
            level,
            stats: ItemStats {
                attack: attack_power,
                defense: parry_power,
                hp_bonus: 0,
                mp_bonus: 0,
                crit_rate: 0,
                crit_damage: 0,
            },
            price: value,
            stackable,
            effects: Vec::new(),
        })
    }

    /// The shop that an entry of the shops file describes: one good, at
    /// price 100 and without a stock limit, for each goods object.
    pub fn parse_shop(&self, shop_id: &str, data: &ShopData) -> (r: Result<Shop, String>)
        ensures
            r matches Ok(shop) && {
                &&& shop.id@ == shop_id@
                &&& shop.name@ == text_or(data.name_cn, "未知商店"@)
                &&& shop.items@.len() == goods_count(data.goods@)
                &&& forall|i: int| 0 <= i < shop.items@.len() ==> {
                    let g = nth_goods(data.goods@, i);
                    let path = text_or(g.item_path, ""@);
                    &&& (#[trigger] shop.items@[i]).item_id@ == path
                    &&& shop.items@[i].name@ == text_or(g.short_name, path)
                    &&& shop.items@[i].price == 100
                    &&& shop.items@[i].stock == -1
                }
            },
    {
        let name_cn = text_field(&data.name_cn, "未知商店");
        let mut items: Vec<ShopItem> = Vec::new();
        let mut i: usize = 0;
        while i < data.goods.len()
            invariant
                i <= data.goods@.len(),
                items@.len() == goods_count(data.goods@.take(i as int)),
                forall|j: int| 0 <= j < items@.len() ==> {
                    let g = nth_goods(data.goods@.take(i as int), j);
                    let path = text_or(g.item_path, ""@);
                    &&& (#[trigger] items@[j]).item_id@ == path
                    &&& items@[j].name@ == text_or(g.short_name, path)
                    &&& items@[j].price == 100
                    &&& items@[j].stock == -1
                },
            decreases data.goods.len() - i,
        {
            let ghost pre = data.goods@.take(i as int);
            let ghost post = data.goods@.take(i + 1);
            assert(post.drop_last() =~= pre);
            proof {
                assert forall|j: int| 0 <= j < goods_count(pre) implies nth_goods(post, j) == nth_goods(pre, j) by {
                    lemma_nth_goods_prefix(post, j);
                }
            }
            match &data.goods[i] {
                Some(obj) => {
                    let path = text_field(&obj.item_path, "");
                    let short_name = match &obj.short_name {
                        Some(n) => n.clone(),
                        None => path.clone(),
                    };
                    proof {
                        lemma_nth_goods_last(post);
                    }
                    items.push(ShopItem { item_id: path, name: short_name, price: 100, stock: -1 });
                },
                None => {},
            }
            i = i + 1;
        }
        assert(data.goods@.take(i as int) =~= data.goods@);
        Ok(Shop { id: string_of(shop_id), name: name_cn, items })
    }
}

/// The number of goods objects in a list.
pub open spec fn goods_count(s: Seq<Option<GoodsData>>) -> nat
    decreases s.len(),
{
    if s.len() == 0 {
        0
    } else {
        goods_count(s.drop_last()) + if s.last() is Some { 1nat } else { 0nat }
    }
}

/// The `j`-th goods object of a list, not counting the entries that are
/// no object.
pub open spec fn nth_goods(s: Seq<Option<GoodsData>>, j: int) -> GoodsData
    decreases s.len(),
{
    if s.len() == 0 {
        GoodsData { item_path: None, short_name: None }
    } else if j == goods_count(s.drop_last()) && s.last() is Some {
        s.last()->0
    } else {
        nth_goods(s.drop_last(), j)
    }
}

/// The goods objects before the last entry keep their places.
pub proof fn lemma_nth_goods_prefix(s: Seq<Option<GoodsData>>, j: int)
    requires
        s.len() > 0,
        0 <= j < goods_count(s.drop_last()),
    ensures
        nth_goods(s, j) == nth_goods(s.drop_last(), j),
{
}

/// A last entry that is an object is the last goods object.
pub proof fn lemma_nth_goods_last(s: Seq<Option<GoodsData>>)
    requires
        s.len() > 0,
        s.last() is Some,
    ensures
        nth_goods(s, goods_count(s.drop_last()) as int) == s.last()->0,
        goods_count(s) == goods_count(s.drop_last()) + 1,
{
}

} // verus!
