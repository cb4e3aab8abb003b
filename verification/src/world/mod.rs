//! The game world: its rooms, NPCs, item templates and shops, each found
//! by its id.
use vstd::prelude::*;
use crate::util::{Keyed, key_get, key_in, keys_unique, get_key, put_key};

pub mod npc;
pub mod item;
pub mod shop;
pub mod room;
pub mod loader;

use crate::world::room::Room;
use crate::world::npc::Npc;
use crate::world::item::ItemTemplate;
use crate::world::shop::Shop;

verus! {

impl Keyed for Room {
    open spec fn key_view(&self) -> Seq<char> {
        self.id@
    }

    fn key(&self) -> (r: &String) {
        &self.id
    }
}

impl Keyed for Npc {
    open spec fn key_view(&self) -> Seq<char> {
        self.id@
    }

    fn key(&self) -> (r: &String) {
        &self.id
    }
}

/// The game world. Each table holds at most one entry per id.
#[derive(Debug)]
pub struct GameWorld {
    pub rooms: Vec<Room>,
    pub npcs: Vec<Npc>,
    pub items: Vec<ItemTemplate>,
    pub shops: Vec<Shop>,
}

impl GameWorld {
    /// Each table holds at most one entry per id.
    pub open spec fn wf(&self) -> bool {
        &&& keys_unique(self.rooms@)
        &&& keys_unique(self.npcs@)
        &&& keys_unique(self.items@)
        &&& keys_unique(self.shops@)
    }

    /// An empty world; the data files are loaded into it by adding their
    /// entries.
    pub fn new() -> (r: Self)
        ensures
            r.wf(),
            r.rooms@.len() == 0 && r.npcs@.len() == 0 && r.items@.len() == 0 && r.shops@.len() == 0,
    {
        GameWorld { rooms: Vec::new(), npcs: Vec::new(), items: Vec::new(), shops: Vec::new() }
    }

    /// The room with the id.
    pub fn get_room(&self, id: &str) -> (r: Option<&Room>)
        ensures
            r matches Some(x) ==> key_get(self.rooms@, id@) == Some(*x),
            r is None <==> key_get(self.rooms@, id@) is None,
    {
        get_key(&self.rooms, id)
    }

    /// The NPC with the id.
    pub fn get_npc(&self, id: &str) -> (r: Option<&Npc>)
        ensures
            r matches Some(x) ==> key_get(self.npcs@, id@) == Some(*x),
            r is None <==> key_get(self.npcs@, id@) is None,
    {
        get_key(&self.npcs, id)
    }

    /// The item template with the id.
    pub fn get_item_template(&self, id: &str) -> (r: Option<&ItemTemplate>)
        ensures
            r matches Some(x) ==> key_get(self.items@, id@) == Some(*x),
            r is None <==> key_get(self.items@, id@) is None,
    {
        get_key(&self.items, id)
    }

    /// The shop with the id.
    pub fn get_shop(&self, id: &str) -> (r: Option<&Shop>)
        ensures
            r matches Some(x) ==> key_get(self.shops@, id@) == Some(*x),
            r is None <==> key_get(self.shops@, id@) is None,
    {
        get_key(&self.shops, id)
    }

    /// Adds a room, replacing the one with the same id.
    pub fn add_room(&mut self, room: Room)
        requires
            old(self).wf(),
        ensures
            final(self).wf(),
            final(self).npcs@ == old(self).npcs@ && final(self).items@ == old(self).items@ && final(self).shops@ == old(self).shops@,
            key_get(final(self).rooms@, room.id@) == Some(room),
            forall|k: Seq<char>| k != room.id@ ==> #[trigger] key_get(final(self).rooms@, k) == key_get(old(self).rooms@, k),
            final(self).rooms@.len() == old(self).rooms@.len() + if key_in(old(self).rooms@, room.id@) { 0int } else { 1int },
    {
        put_key(&mut self.rooms, room);
    }

    /// Adds an NPC, replacing the one with the same id.
    pub fn add_npc(&mut self, npc: Npc)
        requires
            old(self).wf(),
        ensures
            final(self).wf(),
            final(self).rooms@ == old(self).rooms@ && final(self).items@ == old(self).items@ && final(self).shops@ == old(self).shops@,
            key_get(final(self).npcs@, npc.id@) == Some(npc),
            forall|k: Seq<char>| k != npc.id@ ==> #[trigger] key_get(final(self).npcs@, k) == key_get(old(self).npcs@, k),
            final(self).npcs@.len() == old(self).npcs@.len() + if key_in(old(self).npcs@, npc.id@) { 0int } else { 1int },
    {
        put_key(&mut self.npcs, npc);
    }

    /// Adds an item template, replacing the one with the same id.
    pub fn add_item_template(&mut self, item: ItemTemplate)
        requires
            old(self).wf(),
        ensures
            final(self).wf(),
            final(self).rooms@ == old(self).rooms@ && final(self).npcs@ == old(self).npcs@ && final(self).shops@ == old(self).shops@,
            key_get(final(self).items@, item.id@) == Some(item),
            forall|k: Seq<char>| k != item.id@ ==> #[trigger] key_get(final(self).items@, k) == key_get(old(self).items@, k),
            final(self).items@.len() == old(self).items@.len() + if key_in(old(self).items@, item.id@) { 0int } else { 1int },
    {
        put_key(&mut self.items, item);
    }

    /// Adds a shop, replacing the one with the same id.
    pub fn add_shop(&mut self, shop: Shop)
        requires
            old(self).wf(),
        ensures
            final(self).wf(),
            final(self).rooms@ == old(self).rooms@ && final(self).npcs@ == old(self).npcs@ && final(self).items@ == old(self).items@,
            key_get(final(self).shops@, shop.id@) == Some(shop),
            forall|k: Seq<char>| k != shop.id@ ==> #[trigger] key_get(final(self).shops@, k) == key_get(old(self).shops@, k),
            final(self).shops@.len() == old(self).shops@.len() + if key_in(old(self).shops@, shop.id@) { 0int } else { 1int },
    {
        put_key(&mut self.shops, shop);
    }

    /// The number of rooms.
    pub fn room_count(&self) -> (r: usize)
        ensures
            r == self.rooms@.len(),
    {
        self.rooms.len()
    }

    /// The number of NPCs.
    pub fn npc_count(&self) -> (r: usize)
        ensures
            r == self.npcs@.len(),
    {
        self.npcs.len()
    }

    /// The number of item templates.
    pub fn item_count(&self) -> (r: usize)
        ensures
            r == self.items@.len(),
    {
        self.items.len()
    }

    /// The number of shops.
    pub fn shop_count(&self) -> (r: usize)
        ensures
            r == self.shops@.len(),
    {
        self.shops.len()
    }
}

} // verus!
