//! NPCs of the game world as the world data describes them: stats,
//! behaviour, dialogue tree, shop and loot table.
use vstd::prelude::*;
use crate::text::{push_str, push_i64, string_of, int_digits};
use crate::outside::random_range;

verus! {

/// An NPC of the world data.
#[derive(Clone, Debug)]
pub struct Npc {
    pub id: String,
    pub name: String,
    pub short: String,
    pub long: String,
    pub level: i32,
    pub hp: i32,
    pub hp_max: i32,
    pub mp: i32,
    pub mp_max: i32,
    pub attack: i32,
    pub defense: i32,
    pub exp: i32,
    pub gold: i32,
    pub behavior: NpcBehavior,
    pub dialogs: Vec<DialogNode>,
    pub shop: Option<String>,
    pub loot: Vec<LootDrop>,
}

/// How an NPC behaves towards players.
#[derive(Clone, Copy, Debug, PartialEq, Eq, Structural)]
pub enum NpcBehavior {
    Passive,
    Aggressive,
    Guard,
    Merchant,
    Trainer,
}

impl Default for NpcBehavior {
    fn default() -> (r: Self)
        ensures
            r == NpcBehavior::Passive,
    {
        NpcBehavior::Passive
    }
}

/// A node of a dialogue tree.
#[derive(Clone, Debug)]
pub struct DialogNode {
    pub id: String,
    pub text: String,
    pub options: Vec<DialogOption>,
    pub action: Option<DialogAction>,
}

/// A choice offered at a dialogue node.
#[derive(Clone, Debug)]
pub struct DialogOption {
    pub text: String,
    pub next: String,
}

/// What a dialogue node triggers.
#[derive(Clone, Debug)]
pub enum DialogAction {
    GiveQuest { quest_id: String, target: String, count: i32, reward_exp: i32, reward_gold: i32 },
    CompleteQuest { quest_id: String },
    OpenShop { shop_id: String },
    Teleport { room_id: String },
    GiveItem { item_id: String, count: i32 },
    TeachSkill { skill_id: String },
    Heal,
}

/// An entry of a loot table: the item, its chance in percent and the
/// inclusive range of the count dropped.
#[derive(Debug)]
pub struct LootDrop {
    pub item_id: String,
    pub chance: i32,
    pub count: (i32, i32),
}

impl Clone for LootDrop {
    fn clone(&self) -> (r: Self)
        ensures
            r == *self,
    {
        LootDrop { item_id: self.item_id.clone(), chance: self.chance, count: self.count }
    }
}

/// The loot that a table yields for the given rolls: entry `i` drops, with
/// count `counts[i]`, when `chances[i]` is below its chance.
pub open spec fn loot_for_rolls(
    loot: Seq<LootDrop>,
    chances: Seq<i64>,
    counts: Seq<i64>,
) -> Seq<(Seq<char>, int)>
    decreases loot.len(),
{
    if loot.len() == 0 {
        Seq::empty()
    } else {
        let n = (loot.len() - 1) as int;
        let prev = loot_for_rolls(loot.take(n), chances.take(n), counts.take(n));
        if chances[n] < loot[n].chance {
            prev.push((loot[n].item_id@, counts[n] as int))
        } else {
            prev
        }
    }
}

/// The view of a list of dropped items.
pub open spec fn drops_view(v: Seq<(String, i32)>) -> Seq<(Seq<char>, int)> {
    v.map_values(|p: (String, i32)| (p.0@, p.1 as int))
}

/// The short description: `[★` for monsters, the level, `级] ` and the short text.
pub open spec fn npc_short_text(npc: Npc) -> Seq<char> {
    "["@ + (if npc.behavior == NpcBehavior::Aggressive { "★"@ } else { ""@ }) + int_digits(
        npc.level as int,
    ) + "级] "@ + npc.short@
}

/// The status line: name, HP, MP, attack and defense.
pub open spec fn npc_status_text(npc: Npc) -> Seq<char> {
    npc.name@ + " - HP:"@ + int_digits(npc.hp as int) + "/"@ + int_digits(npc.hp_max as int)
        + " MP:"@ + int_digits(npc.mp as int) + "/"@ + int_digits(npc.mp_max as int) + " 攻击:"@
        + int_digits(npc.attack as int) + " 防御:"@ + int_digits(npc.defense as int)
}

impl Npc {
    /// Alive while HP is positive.
    pub fn is_alive(&self) -> (r: bool)
        ensures
            r == (self.hp > 0),
    {
        self.hp > 0
    }

    /// Dead once HP is zero or below.
    pub fn is_dead(&self) -> (r: bool)
        ensures
            r == (self.hp <= 0),
    {
        self.hp <= 0
    }

    /// Takes `damage` (negative damage counts as none); HP does not drop
    /// below zero. Returns the damage taken.
    pub fn take_damage(&mut self, damage: i32) -> (r: i32)
        requires
            old(self).hp - (if damage > 0 { damage as int } else { 0 }) >= i32::MIN,
        ensures
            r == if damage > 0 { damage } else { 0 },
            final(self).hp == if old(self).hp - r > 0 { old(self).hp - r } else { 0 },
            final(self).hp_max == old(self).hp_max,
            final(self).id == old(self).id,
    {
        let actual = if damage > 0 { damage } else { 0 };
        let left = self.hp - actual;
        self.hp = if left > 0 { left } else { 0 };
        actual
    }

    /// Heals `amount`, up to the maximum HP.
    pub fn heal(&mut self, amount: i32)
        requires
            i32::MIN <= old(self).hp + amount <= i32::MAX,
        ensures
            final(self).hp == if old(self).hp + amount < old(self).hp_max {
                old(self).hp + amount
            } else {
                old(self).hp_max as int
            },
            final(self).hp_max == old(self).hp_max,
    {
        let sum = self.hp + amount;
        self.hp = if sum < self.hp_max { sum } else { self.hp_max };
    }

    /// The first dialogue node with id `node_id`.
    pub fn get_dialog(&self, node_id: &str) -> (r: Option<&DialogNode>)
        ensures
            r matches Some(d) ==> exists|i: int|
                0 <= i < self.dialogs@.len() && self.dialogs@[i] == *d && d.id@ == node_id@
                    && forall|j: int| 0 <= j < i ==> self.dialogs@[j].id@ != node_id@,
            r is None <==> forall|j: int|
                0 <= j < self.dialogs@.len() ==> self.dialogs@[j].id@ != node_id@,
    {
        let key = string_of(node_id);
        let mut i: usize = 0;
        while i < self.dialogs.len()
            invariant
                i <= self.dialogs@.len(),
                key@ == node_id@,
                forall|j: int| 0 <= j < i ==> self.dialogs@[j].id@ != node_id@,
            decreases self.dialogs.len() - i,
        {
            if self.dialogs[i].id == key {
                return Some(&self.dialogs[i]);
            }
            i = i + 1;
        }
        None
    }

    /// The NPC has a shop.
    pub fn has_shop(&self) -> (r: bool)
        ensures
            r == self.shop.is_some(),
    {
        self.shop.is_some()
    }

    /// The NPC is a monster: it attacks on sight.
    pub fn is_monster(&self) -> (r: bool)
        ensures
            r == (self.behavior == NpcBehavior::Aggressive),
    {
        self.behavior == NpcBehavior::Aggressive
    }

    /// The loot for given rolls: entry `i` drops `counts[i]` items when
    /// `chances[i]` is below its chance.
    pub fn loot_for(&self, chances: &Vec<i64>, counts: &Vec<i64>) -> (r: Vec<(String, i32)>)
        requires
            chances@.len() == self.loot@.len(),
            counts@.len() == self.loot@.len(),
            forall|i: int| 0 <= i < counts@.len() ==> i32::MIN <= #[trigger] counts@[i] <= i32::MAX,
        ensures
            drops_view(r@) == loot_for_rolls(self.loot@, chances@, counts@),
    {
        let mut r: Vec<(String, i32)> = Vec::new();
        let mut i: usize = 0;
        while i < self.loot.len()
            invariant
                i <= self.loot@.len(),
                chances@.len() == self.loot@.len(),
                counts@.len() == self.loot@.len(),
                forall|k: int| 0 <= k < counts@.len() ==> i32::MIN <= #[trigger] counts@[k] <= i32::MAX,
                drops_view(r@) == loot_for_rolls(
                    self.loot@.take(i as int),
                    chances@.take(i as int),
                    counts@.take(i as int),
                ),
            decreases self.loot.len() - i,
        {
            let ghost prev = r@;
            assert(self.loot@.take(i + 1).take(i as int) =~= self.loot@.take(i as int));
            assert(chances@.take(i + 1).take(i as int) =~= chances@.take(i as int));
            assert(counts@.take(i + 1).take(i as int) =~= counts@.take(i as int));
            if chances[i] < self.loot[i].chance as i64 {
                let c = counts[i] as i32;
                r.push((self.loot[i].item_id.clone(), c));
                assert(drops_view(r@) =~= drops_view(prev).push((self.loot@[i as int].item_id@, counts@[i as int] as int)));
            }
            i = i + 1;
        }
        assert(self.loot@.take(self.loot@.len() as int) =~= self.loot@);
        assert(chances@.take(self.loot@.len() as int) =~= chances@);
        assert(counts@.take(self.loot@.len() as int) =~= counts@);
        r
    }

    /// Rolls the loot table: each entry drops with its chance in percent, in
    /// a count drawn from its range. Every entry's range must be ordered.
    pub fn calculate_loot(&self) -> (r: Vec<(String, i32)>)
        requires
            forall|i: int| 0 <= i < self.loot@.len() ==> #[trigger] self.loot@[i].count.0 <= self.loot@[i].count.1,
        ensures
            exists|chances: Seq<i64>, counts: Seq<i64>|
                chances.len() == self.loot@.len() && counts.len() == self.loot@.len()
                && drops_view(r@) == loot_for_rolls(self.loot@, chances, counts)
                && forall|i: int| 0 <= i < self.loot@.len() ==> {
                    &&& 0 <= #[trigger] chances[i] < 100
                    &&& self.loot@[i].count.0 <= counts[i] <= self.loot@[i].count.1
                },
    {
        let mut chances: Vec<i64> = Vec::new();
        let mut counts: Vec<i64> = Vec::new();
        let mut i: usize = 0;
        while i < self.loot.len()
            invariant
                i <= self.loot@.len(),
                chances@.len() == i,
                counts@.len() == i,
                forall|k: int| 0 <= k < self.loot@.len() ==> #[trigger] self.loot@[k].count.0 <= self.loot@[k].count.1,
                forall|k: int| 0 <= k < i ==> 0 <= #[trigger] chances@[k] < 100,
                forall|k: int| 0 <= k < i ==> self.loot@[k].count.0 <= #[trigger] counts@[k] <= self.loot@[k].count.1,
            decreases self.loot.len() - i,
        {
            let roll = random_range(0, 100);
            chances.push(roll);
            let lo = self.loot[i].count.0 as i64;
            let hi = self.loot[i].count.1 as i64;
            if roll < self.loot[i].chance as i64 {
                let c = random_range(lo, hi + 1);
                counts.push(c);
            } else {
                counts.push(lo);
            }
            i = i + 1;
        }
        assert forall|k: int| 0 <= k < counts@.len() implies i32::MIN <= #[trigger] counts@[k] <= i32::MAX by {
            assert(self.loot@[k].count.0 <= counts@[k] <= self.loot@[k].count.1);
        }
        self.loot_for(&chances, &counts)
    }

    /// The short description, such as `[★10级] 野狼`.
    pub fn format_short(&self) -> (r: String)
        ensures
            r@ == npc_short_text(*self),
    {
        let mut s = string_of("[");
        if self.is_monster() {
            push_str(&mut s, "★");
        } else {
            push_str(&mut s, "");
        }
        push_i64(&mut s, self.level as i64);
        push_str(&mut s, "级] ");
        push_str(&mut s, self.short.as_str());
        s
    }

    /// The status line with HP, MP, attack and defense.
    pub fn format_status(&self) -> (r: String)
        ensures
            r@ == npc_status_text(*self),
    {
        let mut s = self.name.clone();
        push_str(&mut s, " - HP:");
        push_i64(&mut s, self.hp as i64);
        push_str(&mut s, "/");
        push_i64(&mut s, self.hp_max as i64);
        push_str(&mut s, " MP:");
        push_i64(&mut s, self.mp as i64);
        push_str(&mut s, "/");
        push_i64(&mut s, self.mp_max as i64);
        push_str(&mut s, " 攻击:");
        push_i64(&mut s, self.attack as i64);
        push_str(&mut s, " 防御:");
        push_i64(&mut s, self.defense as i64);
        s
    }
}

} // verus!
