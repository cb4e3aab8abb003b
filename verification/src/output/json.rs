//! What the web client is sent about rooms, NPCs, items, players and
//! fights.
use vstd::prelude::*;

verus! {

/// An NPC as the client sees it.
#[derive(Debug)]
pub struct NpcInfo {
    pub id: String,
    pub name: String,
    pub name_cn: String,
    pub level: u32,
    pub hp_percent: i32,
}

/// An item as the client sees it.
#[derive(Debug)]
pub struct ItemInfo {
    pub id: String,
    pub name: String,
    pub name_cn: String,
}

/// A player as the client sees it.
#[derive(Debug)]
pub struct PlayerInfo {
    pub id: String,
    pub name: String,
    pub name_cn: String,
    pub level: u32,
}

/// A room as the client sees it.
#[derive(Debug)]
pub struct RoomInfo {
    pub id: String,
    pub name: String,
    pub description: String,
    pub exits: Vec<String>,
    pub npcs: Vec<NpcInfo>,
    pub items: Vec<ItemInfo>,
    pub players: Vec<PlayerInfo>,
}

/// A side of a fight as the client sees it.
#[derive(Debug)]
pub struct CombatantInfo {
    pub id: String,
    pub name: String,
    pub name_cn: String,
    pub hp: i32,
    pub hp_max: i32,
    pub hp_percent: i32,
    pub level: u32,
}

/// A fight as the client sees it.
#[derive(Debug)]
pub struct CombatInfo {
    pub battle_id: String,
    pub self_info: CombatantInfo,
    pub enemy_info: CombatantInfo,
    pub current_round: u32,
    pub log: Vec<String>,
}

} // verus!
