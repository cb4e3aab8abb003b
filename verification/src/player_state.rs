//! The state of a player: level and experience, health and mana, gold, an
//! inventory keyed by item id, and quests in progress.
use vstd::prelude::*;
use crate::errors::{MudError, runtime_error, not_found};
use crate::text::{push_str, push_u64, string_of, nat_digits};
use crate::util::{Keyed, key_pos, key_in, keys_unique, find_key, get_key, key_get, put_key, remove_key, lemma_key_get_at, lemma_key_get_none, lemma_key_first, lemma_key_get_after_remove};
use crate::world::item::ItemTemplate;
use crate::outside::current_timestamp;

verus! {

/// What a player holds of one item: its template, count and whether it stacks.
#[derive(Debug)]
pub struct InventorySlot {
    pub item_id: String,
    pub template_id: String,
    pub count: i32,
    pub stackable: bool,
}

impl Clone for InventorySlot {
    fn clone(&self) -> (r: Self)
        ensures
            r == *self,
    {
        InventorySlot { item_id: self.item_id.clone(), template_id: self.template_id.clone(), count: self.count, stackable: self.stackable }
    }
}

impl Keyed for InventorySlot {
    open spec fn key_view(&self) -> Seq<char> {
        self.item_id@
    }

    fn key(&self) -> (r: &String) {
        &self.item_id
    }
}

/// A quest a player has taken: what to do, how far along, and the reward.
#[derive(Debug)]
pub struct QuestProgress {
    pub quest_id: String,
    pub target: String,
    pub current: i32,
    pub target_count: i32,
    pub reward_exp: u32,
    pub reward_gold: u32,
}

impl Clone for QuestProgress {
    fn clone(&self) -> (r: Self)
        ensures
            r == *self,
    {
        QuestProgress {
            quest_id: self.quest_id.clone(),
            target: self.target.clone(),
            current: self.current,
            target_count: self.target_count,
            reward_exp: self.reward_exp,
            reward_gold: self.reward_gold,
        }
    }
}

/// A player.
#[derive(Debug)]
pub struct PlayerState {
    pub userid: String,
    pub name: String,
    pub level: u32,
    pub exp: u64,
    pub exp_needed: u64,
    pub hp: u32,
    pub hp_max: u32,
    pub mp: u32,
    pub mp_max: u32,
    pub attack: u32,
    pub defense: u32,
    pub gold: u64,
    pub current_room: String,
    pub inventory: Vec<InventorySlot>,
    pub inventory_capacity: usize,
    pub active_quests: Vec<QuestProgress>,
    pub completed_quests: Vec<String>,
    pub last_save: i64,
    pub online: bool,
}

/// `p` after one level up: the level rises by one, the experience needed
/// becomes 100 per level, HP and MP are refilled to 100 + 10 and 50 + 5 per
/// level, attack gains 3 and defense 2.
pub open spec fn level_up_spec(p: PlayerState) -> PlayerState {
    let l = p.level + 1;
    PlayerState {
        level: l as u32,
        exp_needed: (100 * l) as u64,
        hp_max: (100 + l * 10) as u32,
        hp: (100 + l * 10) as u32,
        mp_max: (50 + l * 5) as u32,
        mp: (50 + l * 5) as u32,
        attack: (p.attack + 3) as u32,
        defense: (p.defense + 2) as u32,
        ..p
    }
}

/// `p` after spending its experience on level ups while it covers what the
/// next level needs.
pub open spec fn after_exp(p: PlayerState) -> PlayerState
    decreases p.exp,
{
    if p.exp_needed > 0 && p.exp >= p.exp_needed {
        after_exp(level_up_spec(PlayerState { exp: (p.exp - p.exp_needed) as u64, ..p }))
    } else {
        p
    }
}

/// The experience the levels from `from` up to (not including) `to` each
/// ask to go one level higher: 100 per level.
pub open spec fn level_costs(from: int, to: int) -> int
    decreases to - from,
{
    if to <= from { 0 } else { 100 * from + level_costs(from + 1, to) }
}

/// Levelling up spends experience and loses none: what is left is below
/// what the next level needs, and what was spent is the need of the first
/// level plus 100 per level passed after it.
pub proof fn lemma_exp_spent(p: PlayerState)
    requires
        exp_room(p, 0),
    ensures
        ({
            let q = after_exp(p);
            &&& q.exp < q.exp_needed
            &&& (q.level > p.level) == (p.exp >= p.exp_needed)
            &&& q.level > p.level ==> q.exp_needed == 100 * q.level
            &&& p.exp == q.exp + (if q.level > p.level { p.exp_needed + level_costs(p.level + 1, q.level as int) } else { 0 })
        }),
    decreases p.exp,
{
    if p.exp >= p.exp_needed {
        let p1 = level_up_spec(PlayerState { exp: (p.exp - p.exp_needed) as u64, ..p });
        assert(level_ups(p.exp as int, p.exp_needed as int, p.level as int)
            == 1 + level_ups(p.exp - p.exp_needed, 100 * (p.level + 1), p.level + 1));
        assert(p1.level == p.level + 1);
        assert(p1.exp_needed == 100 * (p.level + 1));
        lemma_exp_spent(p1);
        let q = after_exp(p1);
        assert(after_exp(p) == q);
        if q.level > p1.level {
            assert(level_costs(p.level + 1, q.level as int) == 100 * (p.level + 1) + level_costs(p.level + 2, q.level as int));
        } else {
            assert(level_costs(p.level + 1, q.level as int) == 0);
        }
    }
}

/// What `add_exp` keeps: from experience below the need, adding `amount`
/// leaves experience below the new need, says whether a level was gained,
/// and spends on the levels passed exactly the experience that went away.
pub proof fn lemma_add_exp_conserves(p: PlayerState, amount: int)
    requires
        0 <= amount,
        p.exp < p.exp_needed,
        exp_room(p, amount),
    ensures
        ({
            let q = after_exp(PlayerState { exp: (p.exp + amount) as u64, ..p });
            &&& q.exp < q.exp_needed
            &&& (q.level > p.level) == (p.exp + amount >= p.exp_needed)
            &&& q.level > p.level ==> q.exp_needed == 100 * q.level
            &&& p.exp + amount == q.exp + (if q.level > p.level { p.exp_needed + level_costs(p.level + 1, q.level as int) } else { 0 })
        }),
{
    lemma_exp_spent(PlayerState { exp: (p.exp + amount) as u64, ..p });
}

/// How many levels `e` experience buys from level `level`, the next
/// level asking `need` and each later one 100 per level.
pub open spec fn level_ups(e: int, need: int, level: int) -> nat
    decreases e,
{
    if need > 0 && e >= need { 1 + level_ups(e - need, 100 * (level + 1), level + 1) } else { 0 }
}

/// Adding `amount` experience stays within the integer types: the levels
/// it buys (see `level_ups`) keep the new maximum HP, attack and defence
/// within `u32`.
pub open spec fn exp_room(p: PlayerState, amount: int) -> bool {
    let g = level_ups(p.exp + amount, p.exp_needed as int, p.level as int);
    &&& p.exp_needed > 0
    &&& p.exp + amount <= u64::MAX
    &&& g > 0 ==> (p.level + g) * 10 + 100 <= u32::MAX && p.attack + 3 * g <= u32::MAX && p.defense + 2 * g <= u32::MAX
}

/// The count of item `item_id`, 0 when none is held.
pub open spec fn slot_count(inv: Seq<InventorySlot>, item_id: Seq<char>) -> int {
    match key_get(inv, item_id) {
        Some(s) => s.count as int,
        None => 0,
    }
}

/// `q` after `count` more toward `target`, capped at its target count.
pub open spec fn quest_step(q: QuestProgress, target: Seq<char>, count: int) -> QuestProgress {
    if q.target@ == target {
        let c = q.current + count;
        QuestProgress { current: (if c <= q.target_count { c } else { q.target_count as int }) as i32, ..q }
    } else {
        q
    }
}

/// The step completes the quest.
pub open spec fn step_completes(q: QuestProgress, target: Seq<char>, count: int) -> bool {
    q.target@ == target && quest_step(q, target, count).current >= q.target_count
}

/// The first quest from position `i` on that the step completes.
pub open spec fn first_completed(qs: Seq<QuestProgress>, target: Seq<char>, count: int, i: int) -> Option<int>
    decreases qs.len() - i,
{
    if i < 0 || i >= qs.len() {
        None
    } else if step_completes(qs[i], target, count) {
        Some(i)
    } else {
        first_completed(qs, target, count, i + 1)
    }
}

/// The score sheet of a player.
pub open spec fn score_text(p: PlayerState) -> Seq<char> {
    "玩家: "@ + p.name@ + "\n等级: "@ + nat_digits(p.level as nat) + "\n经验: "@ + nat_digits(p.exp as nat) + "/"@ + nat_digits(p.exp_needed as nat)
        + "\nHP: "@ + nat_digits(p.hp as nat) + "/"@ + nat_digits(p.hp_max as nat) + "\nMP: "@ + nat_digits(p.mp as nat) + "/"@ + nat_digits(p.mp_max as nat)
        + "\n攻击: "@ + nat_digits(p.attack as nat) + "\n防御: "@ + nat_digits(p.defense as nat) + "\n金币: "@ + nat_digits(p.gold as nat)
}

impl PlayerState {
    /// A level 1 player in the newbie square, saved at `now`.
    pub fn new_at(userid: String, name: String, now: i64) -> (r: Self)
        ensures
            new_done(userid, name, now, r),
    {
        PlayerState {
            userid,
            name,
            level: 1,
            exp: 0,
            exp_needed: 100,
            hp: 100,
            hp_max: 100,
            mp: 50,
            mp_max: 50,
            attack: 15,
            defense: 10,
            gold: 100,
            current_room: string_of("newbie_square"),
            inventory: Vec::new(),
            inventory_capacity: 20,
            active_quests: Vec::new(),
            completed_quests: Vec::new(),
            last_save: now,
            online: true,
        }
    }

    /// A level 1 player in the newbie square, saved now.
    pub fn new(userid: String, name: String) -> (r: Self)
        ensures
            exists|now: i64| #[trigger] new_done(userid, name, now, r),
            r.userid == userid && r.name == name,
            r.level == 1 && r.exp == 0 && r.exp_needed == 100,
            r.hp == 100 && r.hp_max == 100 && r.mp == 50 && r.mp_max == 50,
            r.attack == 15 && r.defense == 10 && r.gold == 100,
            r.current_room@ == "newbie_square"@,
            r.inventory@.len() == 0 && r.inventory_capacity == 20,
            r.active_quests@.len() == 0 && r.completed_quests@.len() == 0,
            r.online,
    {
        let now = current_timestamp();
        Self::new_at(userid, name, now)
    }

    /// Some HP left.
    pub fn is_alive(&self) -> (r: bool)
        ensures
            r == (self.hp > 0),
    {
        self.hp > 0
    }

    /// No HP left.
    pub fn is_dead(&self) -> (r: bool)
        ensures
            r == (self.hp == 0),
    {
        self.hp == 0
    }

    /// Loses up to `damage` HP; returns the HP lost.
    pub fn take_damage(&mut self, damage: u32) -> (r: u32)
        ensures
            r == if damage <= old(self).hp { damage } else { old(self).hp },
            *final(self) == (PlayerState { hp: (old(self).hp - r) as u32, ..*old(self) }),
    {
        let actual = if damage <= self.hp { damage } else { self.hp };
        self.hp = if self.hp >= damage { self.hp - damage } else { 0 };
        actual
    }

    /// Gains `amount` HP, up to the maximum.
    pub fn heal(&mut self, amount: u32)
        requires
            old(self).hp + amount <= u32::MAX,
        ensures
            *final(self) == (PlayerState { hp: (if old(self).hp + amount <= old(self).hp_max { old(self).hp + amount } else { old(self).hp_max as int }) as u32, ..*old(self) }),
    {
        let v = self.hp + amount;
        self.hp = if v <= self.hp_max { v } else { self.hp_max };
    }

    /// Gains `amount` MP, up to the maximum.
    pub fn restore_mp(&mut self, amount: u32)
        requires
            old(self).mp + amount <= u32::MAX,
        ensures
            *final(self) == (PlayerState { mp: (if old(self).mp + amount <= old(self).mp_max { old(self).mp + amount } else { old(self).mp_max as int }) as u32, ..*old(self) }),
    {
        let v = self.mp + amount;
        self.mp = if v <= self.mp_max { v } else { self.mp_max };
    }

    /// Gains `amount` experience and levels up while it covers the next
    /// level; returns whether the player levelled up.
    pub fn add_exp(&mut self, amount: u64) -> (r: bool)
        requires
            exp_room(*old(self), amount as int),
        ensures
            *final(self) == after_exp(PlayerState { exp: (old(self).exp + amount) as u64, ..*old(self) }),
            r == (old(self).exp + amount >= old(self).exp_needed),
    {
        let ghost total = self.exp + amount;
        let ghost start = PlayerState { exp: (self.exp + amount) as u64, ..*self };
        let ghost level0 = self.level;
        let ghost attack0 = self.attack;
        let ghost defense0 = self.defense;
        let ghost needed0 = self.exp_needed;
        let ghost g = level_ups(total, needed0 as int, level0 as int);
        self.exp = self.exp + amount;
        let mut leveled = false;
        let ghost mut k: int = 0;
        while self.exp >= self.exp_needed
            invariant
                after_exp(*self) == after_exp(start),
                self.exp_needed > 0,
                k >= 0,
                self.level == level0 + k,
                self.attack == attack0 + 3 * k,
                self.defense == defense0 + 2 * k,
                k == 0 ==> self.exp == total && self.exp_needed == needed0,
                k > 0 ==> total >= needed0,
                leveled == (k > 0),
                k + level_ups(self.exp as int, self.exp_needed as int, self.level as int) == g,
                g > 0 ==> (level0 + g) * 10 + 100 <= u32::MAX && attack0 + 3 * g <= u32::MAX && defense0 + 2 * g <= u32::MAX,
            decreases self.exp,
        {
            assert(level_ups(self.exp as int, self.exp_needed as int, self.level as int)
                == 1 + level_ups(self.exp - self.exp_needed, 100 * (self.level + 1), self.level + 1));
            let ghost before = *self;
            self.exp = self.exp - self.exp_needed;
            self.level_up();
            leveled = true;
            proof {
                k = k + 1;
                assert(*self == level_up_spec(PlayerState { exp: (before.exp - before.exp_needed) as u64, ..before }));
            }
        }
        leveled
    }

    fn level_up(&mut self)
        requires
            (old(self).level + 1) * 10 + 100 <= u32::MAX,
            old(self).attack + 3 <= u32::MAX,
            old(self).defense + 2 <= u32::MAX,
        ensures
            *final(self) == level_up_spec(*old(self)),
    {
        self.level = self.level + 1;
        self.exp_needed = self.calculate_exp_needed();
        self.hp_max = 100 + self.level * 10;
        self.hp = self.hp_max;
        self.mp_max = 50 + self.level * 5;
        self.mp = self.mp_max;
        self.attack = self.attack + 3;
        self.defense = self.defense + 2;
    }

    fn calculate_exp_needed(&self) -> (r: u64)
        ensures
            r == 100 * self.level,
    {
        100 * (self.level as u64)
    }

    /// Puts `count` of an item in the inventory, adding to what is held.
    /// Fails with 背包已满 when the inventory is full and the item is new.
    pub fn add_item(&mut self, item: &ItemTemplate, count: i32) -> (r: Result<(), MudError>)
        requires
            i32::MIN <= slot_count(old(self).inventory@, item.id@) + count <= i32::MAX,
        ensures
            (old(self).inventory@.len() >= old(self).inventory_capacity && !key_in(old(self).inventory@, item.id@)) ==> (r matches Err(MudError::RuntimeError(m)) && m@ == "背包已满"@) && *final(self) == *old(self),
            !(old(self).inventory@.len() >= old(self).inventory_capacity && !key_in(old(self).inventory@, item.id@)) ==> {
                &&& r is Ok
                &&& *final(self) == (PlayerState { inventory: final(self).inventory, ..*old(self) })
                &&& key_get(final(self).inventory@, item.id@) == Some(match key_get(old(self).inventory@, item.id@) {
                    Some(o) => InventorySlot { count: (o.count + count) as i32, ..o },
                    None => InventorySlot { item_id: item.id, template_id: item.id, count, stackable: item.stackable },
                })
                &&& forall|k: Seq<char>| k != item.id@ ==> #[trigger] key_get(final(self).inventory@, k) == key_get(old(self).inventory@, k)
                &&& keys_unique(old(self).inventory@) ==> keys_unique(final(self).inventory@)
            },
    {
        let held = find_key(&self.inventory, item.id.as_str());
        if self.inventory.len() >= self.inventory_capacity && held.is_none() {
            return Err(runtime_error("背包已满"));
        }
        let slot = match held {
            Some(i) => {
                proof {
                    lemma_key_get_at(self.inventory@, item.id@, i as int);
                }
                let o = &self.inventory[i];
                InventorySlot { item_id: o.item_id.clone(), template_id: o.template_id.clone(), count: o.count + count, stackable: o.stackable }
            },
            None => {
                proof {
                    lemma_key_get_none(self.inventory@, item.id@);
                }
                InventorySlot { item_id: item.id.clone(), template_id: item.id.clone(), count, stackable: item.stackable }
            },
        };
        put_key(&mut self.inventory, slot);
        Ok(())
    }

    /// Takes `count` of an item; the item leaves the inventory when none is
    /// left. Fails with 物品数量不足 when fewer are held and with
    /// 背包中没有这个物品 when none is.
    pub fn remove_item(&mut self, item_id: &str, count: i32) -> (r: Result<(), MudError>)
        requires
            keys_unique(old(self).inventory@),
            key_get(old(self).inventory@, item_id@) matches Some(s) ==> s.count - count <= i32::MAX,
        ensures
            keys_unique(final(self).inventory@),
            *final(self) == (PlayerState { inventory: final(self).inventory, ..*old(self) }),
            match key_get(old(self).inventory@, item_id@) {
                None => (r matches Err(MudError::NotFound(m)) && m@ == "背包中没有这个物品"@) && final(self).inventory@ == old(self).inventory@,
                Some(s) => if s.count < count {
                    (r matches Err(MudError::RuntimeError(m)) && m@ == "物品数量不足"@) && final(self).inventory@ == old(self).inventory@
                } else {
                    &&& r is Ok
                    &&& key_get(final(self).inventory@, item_id@) == if s.count - count <= 0 { None } else { Some(InventorySlot { count: (s.count - count) as i32, ..s }) }
                    &&& forall|k: Seq<char>| k != item_id@ ==> #[trigger] key_get(final(self).inventory@, k) == key_get(old(self).inventory@, k)
                },
            },
    {
        let i = match find_key(&self.inventory, item_id) {
            Some(i) => i,
            None => {
                proof {
                    lemma_key_get_none(self.inventory@, item_id@);
                }
                return Err(not_found("背包中没有这个物品"));
            },
        };
        proof {
            lemma_key_get_at(self.inventory@, item_id@, i as int);
        }
        if self.inventory[i].count < count {
            return Err(runtime_error("物品数量不足"));
        }
        let left = self.inventory[i].count - count;
        if left <= 0 {
            let ghost inv0 = self.inventory@;
            let removed = remove_key(&mut self.inventory, item_id);
            proof {
                lemma_key_get_none(self.inventory@, item_id@);
                assert forall|k: Seq<char>| k != item_id@ implies #[trigger] key_get(self.inventory@, k) == key_get(inv0, k) by {
                    lemma_key_get_after_remove(inv0, item_id@, i as int, k);
                }
            }
        } else {
            let o = &self.inventory[i];
            let slot = InventorySlot { item_id: o.item_id.clone(), template_id: o.template_id.clone(), count: left, stackable: o.stackable };
            put_key(&mut self.inventory, slot);
        }
        Ok(())
    }

    /// The count of an item held, 0 when none is.
    pub fn get_item_count(&self, item_id: &str) -> (r: i32)
        ensures
            r == slot_count(self.inventory@, item_id@),
    {
        match get_key(&self.inventory, item_id) {
            Some(s) => s.count,
            None => 0,
        }
    }

    /// At least `count` of an item held.
    pub fn has_item(&self, item_id: &str, count: i32) -> (r: bool)
        ensures
            r == (slot_count(self.inventory@, item_id@) >= count),
    {
        self.get_item_count(item_id) >= count
    }

    /// Pays `amount` gold. Fails with 金币不足 when there is less.
    pub fn spend_gold(&mut self, amount: u64) -> (r: Result<(), MudError>)
        ensures
            old(self).gold < amount ==> (r matches Err(MudError::RuntimeError(m)) && m@ == "金币不足"@) && *final(self) == *old(self),
            old(self).gold >= amount ==> r is Ok && *final(self) == (PlayerState { gold: (old(self).gold - amount) as u64, ..*old(self) }),
    {
        if self.gold < amount {
            return Err(runtime_error("金币不足"));
        }
        self.gold = self.gold - amount;
        Ok(())
    }

    /// Receives `amount` gold.
    pub fn add_gold(&mut self, amount: u64)
        requires
            old(self).gold + amount <= u64::MAX,
        ensures
            *final(self) == (PlayerState { gold: (old(self).gold + amount) as u64, ..*old(self) }),
    {
        self.gold = self.gold + amount;
    }

    /// Moves to another room.
    pub fn move_to(&mut self, room_id: String)
        ensures
            *final(self) == (PlayerState { current_room: room_id, ..*old(self) }),
    {
        self.current_room = room_id;
    }

    /// Takes a quest unless one with its id is already taken.
    pub fn add_quest(&mut self, quest: QuestProgress)
        ensures
            *final(self) == (PlayerState { active_quests: final(self).active_quests, ..*old(self) }),
            (exists|i: int| 0 <= i < old(self).active_quests@.len() && old(self).active_quests@[i].quest_id@ == quest.quest_id@) ==> final(self).active_quests@ == old(self).active_quests@,
            !(exists|i: int| 0 <= i < old(self).active_quests@.len() && old(self).active_quests@[i].quest_id@ == quest.quest_id@) ==> final(self).active_quests@ == old(self).active_quests@.push(quest),
    {
        let mut i: usize = 0;
        while i < self.active_quests.len()
            invariant
                i <= self.active_quests@.len(),
                forall|j: int| 0 <= j < i ==> self.active_quests@[j].quest_id@ != quest.quest_id@,
            decreases self.active_quests.len() - i,
        {
            if crate::text::str_eq(self.active_quests[i].quest_id.as_str(), quest.quest_id.as_str()) {
                return;
            }
            i = i + 1;
        }
        self.active_quests.push(quest);
    }

    /// Adds `count` to every quest toward `target`, capped at its target
    /// count, up to the first quest this completes, which is returned;
    /// quests after it are left alone.
    pub fn update_quest_progress(&mut self, target: &str, count: i32) -> (r: Option<QuestProgress>)
        requires
            forall|i: int| 0 <= i < old(self).active_quests@.len() ==> i32::MIN <= #[trigger] old(self).active_quests@[i].current + count <= i32::MAX,
        ensures
            *final(self) == (PlayerState { active_quests: final(self).active_quests, ..*old(self) }),
            final(self).active_quests@.len() == old(self).active_quests@.len(),
            ({
                let qs = old(self).active_quests@;
                let stop = match first_completed(qs, target@, count as int, 0) { Some(k) => k + 1, None => qs.len() as int };
                &&& forall|i: int| 0 <= i < qs.len() ==> #[trigger] final(self).active_quests@[i] == if i < stop { quest_step(qs[i], target@, count as int) } else { qs[i] }
                &&& r == match first_completed(qs, target@, count as int, 0) { Some(k) => Some(quest_step(qs[k], target@, count as int)), None => None }
            }),
    {
        let ghost qs = self.active_quests@;
        let ghost old_self = *self;
        let mut i: usize = 0;
        while i < self.active_quests.len()
            invariant
                i <= qs.len(),
                self.active_quests@.len() == qs.len(),
                *self == (PlayerState { active_quests: self.active_quests, ..old_self }),
                old_self == *old(self),
                qs == old(self).active_quests@,
                forall|j: int| 0 <= j < qs.len() ==> i32::MIN <= #[trigger] qs[j].current + count <= i32::MAX,
                first_completed(qs, target@, count as int, 0) == first_completed(qs, target@, count as int, i as int),
                forall|j: int| 0 <= j < i ==> #[trigger] self.active_quests@[j] == quest_step(qs[j], target@, count as int),
                forall|j: int| i <= j < qs.len() ==> #[trigger] self.active_quests@[j] == qs[j],
            decreases qs.len() - i,
        {
            let ghost before = self.active_quests@;
            if crate::text::str_eq(self.active_quests[i].target.as_str(), target) {
                let c = self.active_quests[i].current + count;
                let tc = self.active_quests[i].target_count;
                let nc = if c <= tc { c } else { tc };
                let q = &mut self.active_quests[i];
                q.current = nc;
                if nc >= tc {
                    let done = self.active_quests[i].clone();
                    proof {
                        assert(self.active_quests@ == before.update(i as int, self.active_quests@[i as int]));
                        assert(*self == (PlayerState { active_quests: self.active_quests, ..old_self }));
                        assert(step_completes(qs[i as int], target@, count as int));
                        assert forall|j: int| 0 <= j < qs.len() implies #[trigger] self.active_quests@[j] == if j < i + 1 { quest_step(qs[j], target@, count as int) } else { qs[j] } by {
                            if j != i {
                                assert(self.active_quests@[j] == before[j]);
                            }
                        }
                    }
                    return Some(done);
                }
                proof {
                    assert(self.active_quests@ == before.update(i as int, self.active_quests@[i as int]));
                    assert(!step_completes(qs[i as int], target@, count as int));
                    assert forall|j: int| 0 <= j < i + 1 implies #[trigger] self.active_quests@[j] == quest_step(qs[j], target@, count as int) by {
                        if j != i {
                            assert(self.active_quests@[j] == before[j]);
                        }
                    }
                    assert forall|j: int| i + 1 <= j < qs.len() implies #[trigger] self.active_quests@[j] == qs[j] by {
                        assert(self.active_quests@[j] == before[j]);
                    }
                }
            } else {
                proof {
                    assert(!step_completes(qs[i as int], target@, count as int));
                    assert(quest_step(qs[i as int], target@, count as int) == qs[i as int]);
                }
            }
            i = i + 1;
        }
        None
    }

    /// Finishes a taken quest: it leaves the taken list, its id joins the
    /// completed list, and its experience and gold are gained.
    pub fn complete_quest(&mut self, quest_id: &str) -> (r: Option<QuestProgress>)
        requires
            forall|i: int| 0 <= i < old(self).active_quests@.len() && (#[trigger] old(self).active_quests@[i]).quest_id@ == quest_id@ ==> {
                &&& exp_room(*old(self), old(self).active_quests@[i].reward_exp as int)
                &&& old(self).gold + old(self).active_quests@[i].reward_gold <= u64::MAX
            },
        ensures
            !(exists|i: int| 0 <= i < old(self).active_quests@.len() && old(self).active_quests@[i].quest_id@ == quest_id@) ==> r is None && *final(self) == *old(self),
            (exists|i: int| 0 <= i < old(self).active_quests@.len() && old(self).active_quests@[i].quest_id@ == quest_id@) ==> exists|i: int| {
                &&& 0 <= i < old(self).active_quests@.len()
                &&& old(self).active_quests@[i].quest_id@ == quest_id@
                &&& forall|j: int| 0 <= j < i ==> old(self).active_quests@[j].quest_id@ != quest_id@
                &&& r == Some(old(self).active_quests@[i])
                &&& final(self).active_quests@ == old(self).active_quests@.remove(i)
                &&& final(self).completed_quests@.len() == old(self).completed_quests@.len() + 1
                &&& final(self).completed_quests@.drop_last() == old(self).completed_quests@
                &&& final(self).completed_quests@.last()@ == quest_id@
                &&& {
                    let p = after_exp(PlayerState { exp: (old(self).exp + old(self).active_quests@[i].reward_exp) as u64, ..*old(self) });
                    *final(self) == PlayerState {
                        gold: (p.gold + old(self).active_quests@[i].reward_gold) as u64,
                        active_quests: final(self).active_quests,
                        completed_quests: final(self).completed_quests,
                        ..p
                    }
                }
            },
    {
        let mut i: usize = 0;
        while i < self.active_quests.len()
            invariant
                i <= self.active_quests@.len(),
                *self == *old(self),
                forall|j: int| 0 <= j < i ==> self.active_quests@[j].quest_id@ != quest_id@,
                forall|i: int| 0 <= i < old(self).active_quests@.len() && (#[trigger] old(self).active_quests@[i]).quest_id@ == quest_id@ ==> {
                    &&& exp_room(*old(self), old(self).active_quests@[i].reward_exp as int)
                    &&& old(self).gold + old(self).active_quests@[i].reward_gold <= u64::MAX
                },
            decreases self.active_quests.len() - i,
        {
            if crate::text::str_eq(self.active_quests[i].quest_id.as_str(), quest_id) {
                let ghost old_self = *self;
                let quest = self.active_quests.remove(i);
                assert(quest == old_self.active_quests@[i as int]);
                self.completed_quests.push(string_of(quest_id));
                let ghost mid = *self;
                proof {
                    assert(exp_room(old_self, quest.reward_exp as int));
                    assert(exp_room(mid, quest.reward_exp as int));
                }
                let _ = self.add_exp(quest.reward_exp as u64);
                proof {
                    lemma_after_exp_gold(PlayerState { exp: (mid.exp + quest.reward_exp) as u64, ..mid });
                }
                self.add_gold(quest.reward_gold as u64);
                proof {
                    lemma_after_exp_frame(
                        PlayerState { exp: (mid.exp + quest.reward_exp) as u64, ..mid },
                        PlayerState { exp: (old_self.exp + quest.reward_exp) as u64, ..old_self },
                    );
                }
                return Some(quest);
            }
            i = i + 1;
        }
        None
    }

    /// The player's name, level, experience, HP, MP, attack, defense and gold.
    pub fn format_score(&self) -> (r: String)
        ensures
            r@ == score_text(*self),
    {
        let mut s = string_of("玩家: ");
        push_str(&mut s, self.name.as_str());
        push_str(&mut s, "\n等级: ");
        push_u64(&mut s, self.level as u64);
        push_str(&mut s, "\n经验: ");
        push_u64(&mut s, self.exp);
        push_str(&mut s, "/");
        push_u64(&mut s, self.exp_needed);
        push_str(&mut s, "\nHP: ");
        push_u64(&mut s, self.hp as u64);
        push_str(&mut s, "/");
        push_u64(&mut s, self.hp_max as u64);
        push_str(&mut s, "\nMP: ");
        push_u64(&mut s, self.mp as u64);
        push_str(&mut s, "/");
        push_u64(&mut s, self.mp_max as u64);
        push_str(&mut s, "\n攻击: ");
        push_u64(&mut s, self.attack as u64);
        push_str(&mut s, "\n防御: ");
        push_u64(&mut s, self.defense as u64);
        push_str(&mut s, "\n金币: ");
        push_u64(&mut s, self.gold);
        s
    }

    /// HP as a percentage of the maximum, at most 100; 0 without a maximum.
    pub fn hp_percent(&self) -> (r: u32)
        requires
            self.hp * 100 <= u32::MAX,
        ensures
            r == if self.hp_max == 0 { 0 } else if self.hp * 100 / self.hp_max as int <= 100 { self.hp * 100 / self.hp_max as int } else { 100 },
    {
        if self.hp_max == 0 {
            return 0;
        }
        let v = self.hp * 100 / self.hp_max;
        if v <= 100 { v } else { 100 }
    }

    /// MP as a percentage of the maximum, at most 100; 0 without a maximum.
    pub fn mp_percent(&self) -> (r: u32)
        requires
            self.mp * 100 <= u32::MAX,
        ensures
            r == if self.mp_max == 0 { 0 } else if self.mp * 100 / self.mp_max as int <= 100 { self.mp * 100 / self.mp_max as int } else { 100 },
    {
        if self.mp_max == 0 {
            return 0;
        }
        let v = self.mp * 100 / self.mp_max;
        if v <= 100 { v } else { 100 }
    }

    /// Experience as a percentage of what the next level needs, at most 100.
    pub fn exp_percent(&self) -> (r: u32)
        requires
            self.exp * 100 <= u64::MAX,
        ensures
            r == if self.exp_needed == 0 { 0 } else if self.exp * 100 / self.exp_needed as int <= 100 { self.exp * 100 / self.exp_needed as int } else { 100 },
    {
        if self.exp_needed == 0 {
            return 0;
        }
        let v = self.exp * 100 / self.exp_needed;
        if v <= 100 { v as u32 } else { 100 }
    }
}

/// Level ups leave the gold alone.
pub proof fn lemma_after_exp_gold(p: PlayerState)
    ensures
        after_exp(p).gold == p.gold,
    decreases p.exp,
{
    if p.exp_needed > 0 && p.exp >= p.exp_needed {
        lemma_after_exp_gold(level_up_spec(PlayerState { exp: (p.exp - p.exp_needed) as u64, ..p }));
    }
}

/// Level ups leave the quest lists alone, so they commute with changing them.
proof fn lemma_after_exp_frame(p: PlayerState, q: PlayerState)
    requires
        p == (PlayerState { active_quests: p.active_quests, completed_quests: p.completed_quests, ..q }),
    ensures
        after_exp(p) == (PlayerState { active_quests: p.active_quests, completed_quests: p.completed_quests, ..after_exp(q) }),
    decreases p.exp,
{
    if p.exp_needed > 0 && p.exp >= p.exp_needed {
        lemma_after_exp_frame(
            level_up_spec(PlayerState { exp: (p.exp - p.exp_needed) as u64, ..p }),
            level_up_spec(PlayerState { exp: (q.exp - q.exp_needed) as u64, ..q }),
        );
    }
}

/// What `PlayerState::new_at` promises: for the arguments given, `r` what it gives back.
pub open spec fn new_done(userid: String, name: String, now: i64, r: PlayerState) -> bool {
    &&& (r.userid == userid && r.name == name)
    &&& (r.level == 1 && r.exp == 0 && r.exp_needed == 100)
    &&& (r.hp == 100 && r.hp_max == 100 && r.mp == 50 && r.mp_max == 50)
    &&& (r.attack == 15 && r.defense == 10 && r.gold == 100)
    &&& (r.current_room@ == "newbie_square"@)
    &&& (r.inventory@.len() == 0 && r.inventory_capacity == 20)
    &&& (r.active_quests@.len() == 0 && r.completed_quests@.len() == 0)
    &&& (r.last_save == now && r.online)
}

} // verus!
