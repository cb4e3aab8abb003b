//! Monsters: how rare they are, what they reward and drop, the monsters
//! the game starts with, and picking one for a player's level.
use vstd::prelude::*;
use crate::text::{push_str, push_u64, string_of, nat_digits};
use crate::outside::{current_timestamp, random_range};
use crate::npc::base::NpcType;
use crate::npc::npc::{CombatStats, Npc, same_npc};

verus! {

/// How rare a monster is, from the most common up.
#[derive(Clone, Copy, Debug, PartialEq, Eq, Structural)]
pub enum MonsterRarity {
    Common,
    Elite,
    Rare,
    Boss,
}

impl MonsterRarity {
    /// The word put before a monster's name (none for a common one).
    pub fn name(&self) -> (r: &'static str)
        ensures
            r@ == (match *self {
                MonsterRarity::Common => ""@,
                MonsterRarity::Elite => "精英"@,
                MonsterRarity::Rare => "稀有"@,
                MonsterRarity::Boss => "首领"@,
            }),
    {
        match self {
            MonsterRarity::Common => "",
            MonsterRarity::Elite => "精英",
            MonsterRarity::Rare => "稀有",
            MonsterRarity::Boss => "首领",
        }
    }

    /// The colour code of a monster's name.
    pub fn color_code(&self) -> (r: &'static str)
        ensures
            r@ == (match *self {
                MonsterRarity::Common => "§w"@,
                MonsterRarity::Elite => "§g"@,
                MonsterRarity::Rare => "§b"@,
                MonsterRarity::Boss => "§o"@,
            }),
    {
        match self {
            MonsterRarity::Common => "§w",
            MonsterRarity::Elite => "§g",
            MonsterRarity::Rare => "§b",
            MonsterRarity::Boss => "§o",
        }
    }

    /// How many times a common monster's stats and rewards a monster of this
    /// rarity has: 1, 2, 5 or 10.
    pub fn stat_multiplier(&self) -> (r: u32)
        ensures
            r == (match *self {
                MonsterRarity::Common => 1u32,
                MonsterRarity::Elite => 2u32,
                MonsterRarity::Rare => 5u32,
                MonsterRarity::Boss => 10u32,
            }),
    {
        match self {
            MonsterRarity::Common => 1,
            MonsterRarity::Elite => 2,
            MonsterRarity::Rare => 5,
            MonsterRarity::Boss => 10,
        }
    }
}


/// `x` times `m`, at most `u32::MAX`.
pub open spec fn scaled(x: u32, m: u32) -> u32 {
    if x * m > u32::MAX { u32::MAX } else { (x * m) as u32 }
}

fn scale(x: u32, m: u32) -> (r: u32)
    ensures
        r == scaled(x, m),
{
    assert(x * m <= 0xffff_ffff * 0xffff_ffff) by (nonlinear_arith);
    let p: u64 = (x as u64) * (m as u64);
    if p > 0xffff_ffff { 0xffff_ffff } else { p as u32 }
}

/// A monster: an NPC that may be attacked, its rarity, its rewards and what
/// it drops, with the chance in ten-thousandths.
#[derive(Debug)]
pub struct Monster {
    pub npc: Npc,
    pub rarity: MonsterRarity,
    pub exp_reward: u32,
    pub potential_reward: u32,
    pub drops: Vec<String>,
    pub drop_rate: u32,
}

/// `a` and `b` are the same monster in every field.
pub open spec fn same_monster(a: Monster, b: Monster) -> bool {
    same_npc(a.npc, b.npc) && a.rarity == b.rarity && a.exp_reward == b.exp_reward && a.potential_reward == b.potential_reward
        && a.drops@ == b.drops@ && a.drop_rate == b.drop_rate
}

/// The information line of monster `m`: its rarity's colour and word, its
/// name and level, and its HP when hurt.
pub open spec fn monster_info(m: Monster) -> Seq<char> {
    rarity_color(m.rarity) + rarity_word(m.rarity) + m.npc.base.name_cn@ + "§r "@ + "(Lv"@ + nat_digits(m.npc.base.level as nat)
        + ")\n"@ + if m.npc.combat.hp < m.npc.combat.max_hp {
            "生命: "@ + nat_digits(m.npc.combat.hp as nat) + "/"@ + nat_digits(m.npc.combat.max_hp as nat) + "\n"@
        } else {
            seq![]
        }
}

/// The word of a rarity.
pub open spec fn rarity_word(r: MonsterRarity) -> Seq<char> {
    match r {
        MonsterRarity::Common => ""@,
        MonsterRarity::Elite => "精英"@,
        MonsterRarity::Rare => "稀有"@,
        MonsterRarity::Boss => "首领"@,
    }
}

/// The colour of a rarity.
pub open spec fn rarity_color(r: MonsterRarity) -> Seq<char> {
    match r {
        MonsterRarity::Common => "§w"@,
        MonsterRarity::Elite => "§g"@,
        MonsterRarity::Rare => "§b"@,
        MonsterRarity::Boss => "§o"@,
    }
}

/// The multiplier of a rarity.
pub open spec fn rarity_factor(r: MonsterRarity) -> u32 {
    match r {
        MonsterRarity::Common => 1u32,
        MonsterRarity::Elite => 2u32,
        MonsterRarity::Rare => 5u32,
        MonsterRarity::Boss => 10u32,
    }
}

/// What a monster drops for a roll `roll` out of 10000 and a pick `pick`:
/// nothing without drops or when the roll misses the chance, else the drop
/// the pick names.
pub open spec fn drop_of(drops: Seq<String>, rate: u32, roll: int, pick: int) -> Option<String> {
    if drops.len() == 0 || roll >= rate { None } else { Some(drops[pick % (drops.len() as int)]) }
}

impl Clone for Monster {
    fn clone(&self) -> (r: Self)
        ensures
            same_monster(r, *self),
    {
        Monster {
            npc: self.npc.clone(),
            rarity: self.rarity,
            exp_reward: self.exp_reward,
            potential_reward: self.potential_reward,
            drops: crate::npc::base::copy_strings(&self.drops),
            drop_rate: self.drop_rate,
        }
    }
}

impl Monster {
    /// A common monster of `level` with combat figures `combat`, made at
    /// `now`, that may be attacked; it rewards level² experience and
    /// `level` potential, and drops nothing, at a 10% chance.
    pub fn new_at(name: String, name_cn: String, level: u32, combat: CombatStats, now: i64) -> (r: Self)
        requires
            level * level <= u32::MAX,
        ensures
            new_done(name, name_cn, level, combat, now, r),
    {
        let mut npc = Npc::new_at(name, name_cn, NpcType::Monster, level, combat, now);
        npc.base.attackable = true;
        Monster { npc, rarity: MonsterRarity::Common, exp_reward: level * level, potential_reward: level, drops: Vec::new(),
            drop_rate: 1000 }
    }

    /// A monster made now (see `new_at`).
    pub fn new(name: String, name_cn: String, level: u32, combat: CombatStats) -> (r: Self)
        requires
            level * level <= u32::MAX,
        ensures
            exists|now: i64| #[trigger] new_done(name, name_cn, level, combat, now, r),
            r.npc.base.name == name && r.npc.base.name_cn == name_cn && r.npc.base.level == level,
            r.npc.base.npc_type == NpcType::Monster && r.npc.base.attackable && !r.npc.base.aggressive,
            r.npc.combat == combat && r.rarity == MonsterRarity::Common && r.exp_reward == level * level
                && r.potential_reward == level && r.drops@.len() == 0 && r.drop_rate == 1000,
    {
        let now = current_timestamp();
        Self::new_at(name, name_cn, level, combat, now)
    }

    /// The monster made `rarity`: its maximum HP (and HP, now full), attack,
    /// defence and rewards multiplied by the rarity's factor, at most
    /// `u32::MAX` each.
    pub fn with_rarity(self, rarity: MonsterRarity) -> (r: Self)
        ensures
            ({
                let f = rarity_factor(rarity);
                let c = self.npc.combat;
                &&& r.npc == (Npc { combat: CombatStats { max_hp: scaled(c.max_hp, f), hp: scaled(c.max_hp, f),
                    attack: scaled(c.attack, f), defense: scaled(c.defense, f), ..c }, ..self.npc })
                &&& r.rarity == rarity && r.exp_reward == scaled(self.exp_reward, f)
                &&& r.potential_reward == scaled(self.potential_reward, f)
                &&& r.drops == self.drops && r.drop_rate == self.drop_rate
            }),
    {
        let f = rarity.stat_multiplier();
        let mut m = self;
        let max_hp = scale(m.npc.combat.max_hp, f);
        m.npc.combat.max_hp = max_hp;
        m.npc.combat.hp = max_hp;
        m.npc.combat.attack = scale(m.npc.combat.attack, f);
        m.npc.combat.defense = scale(m.npc.combat.defense, f);
        m.exp_reward = scale(m.exp_reward, f);
        m.potential_reward = scale(m.potential_reward, f);
        m.rarity = rarity;
        m
    }

    /// The monster dropping `drops`, at a chance of `drop_rate` in 10000.
    pub fn with_drops(self, drops: Vec<String>, drop_rate: u32) -> (r: Self)
        ensures
            r == (Monster { drops, drop_rate, ..self }),
    {
        Monster { drops, drop_rate, ..self }
    }

    /// The monster attacking first or not.
    pub fn with_aggressive(self, aggressive: bool) -> (r: Self)
        ensures
            r.npc.base == (crate::npc::base::NpcBase { aggressive, ..self.npc.base }),
            r.npc.combat == self.npc.combat && r.npc.current_room == self.npc.current_room,
            r.npc.created_at == self.npc.created_at && r.npc.died_at == self.npc.died_at,
            r.rarity == self.rarity && r.exp_reward == self.exp_reward && r.potential_reward == self.potential_reward,
            r.drops == self.drops && r.drop_rate == self.drop_rate,
    {
        let mut m = self;
        m.npc.base.aggressive = aggressive;
        m
    }

    /// The monster's information (see `monster_info`).
    pub fn render_info(&self) -> (r: String)
        ensures
            r@ == monster_info(*self),
    {
        let mut out = string_of(self.rarity.color_code());
        push_str(&mut out, self.rarity.name());
        push_str(&mut out, self.npc.base.name_cn.as_str());
        push_str(&mut out, "§r ");
        push_str(&mut out, "(Lv");
        push_u64(&mut out, self.npc.base.level as u64);
        push_str(&mut out, ")\n");
        if self.npc.combat.hp < self.npc.combat.max_hp {
            push_str(&mut out, "生命: ");
            push_u64(&mut out, self.npc.combat.hp as u64);
            push_str(&mut out, "/");
            push_u64(&mut out, self.npc.combat.max_hp as u64);
            push_str(&mut out, "\n");
        }
        proof {
            assert(out@ =~= monster_info(*self)) by {
                match self.rarity {
                    MonsterRarity::Common => {},
                    MonsterRarity::Elite => {},
                    MonsterRarity::Rare => {},
                    MonsterRarity::Boss => {},
                }
            }
        }
        out
    }

    /// What the monster drops for a roll `roll` out of 10000 and a pick
    /// `pick` (see `drop_of`).
    pub fn drop_for(&self, roll: u32, pick: usize) -> (r: Option<String>)
        ensures
            r == drop_of(self.drops@, self.drop_rate, roll as int, pick as int),
    {
        if self.drops.len() == 0 || roll >= self.drop_rate {
            None
        } else {
            Some(self.drops[pick % self.drops.len()].clone())
        }
    }

    /// What the monster drops, by chance: a roll below its chance out of
    /// 10000 gives one of its drops picked by chance.
    pub fn calculate_drops(&self) -> (r: Option<String>)
        ensures
            self.drops@.len() == 0 ==> r is None,
            r matches Some(d) ==> self.drops@.contains(d),
            self.drop_rate == 0 ==> r is None,
            self.drops@.len() > 0 && self.drop_rate >= 10000 ==> r is Some,
    {
        let roll = random_range(0, 10000) as u32;
        let n = self.drops.len();
        let pick: usize = if n == 0 || (n as u64) > 0x7fff_ffff_ffff_ffffu64 { 0 } else { random_range(0, n as i64) as usize };
        let r = self.drop_for(roll, pick);
        proof {
            if r is Some {
                let k = pick as int % (self.drops@.len() as int);
                assert(self.drops@[k] == r->0);
            }
        }
        r
    }
}

/// The monsters the game starts with: name, Chinese name, level, rarity,
/// whether they attack first, drops and drop chance.
pub open spec fn preset_rows() -> Seq<(Seq<char>, Seq<char>, u32, MonsterRarity, bool, Seq<Seq<char>>, u32)> {
    seq![
        ("monster_rat"@, "老鼠"@, 1u32, MonsterRarity::Common, false, seq![], 1000u32),
        ("monster_snake"@, "毒蛇"@, 3u32, MonsterRarity::Common, false, seq![], 1000u32),
        ("monster_wolf"@, "野狼"@, 5u32, MonsterRarity::Common, true, seq![], 1000u32),
        ("monster_bandit"@, "强盗"@, 10u32, MonsterRarity::Common, true, seq![], 1000u32),
        ("monster_bandit_leader"@, "强盗头目"@, 20u32, MonsterRarity::Elite, true,
            seq!["item/iron_sword"@, "item/leather_armor"@], 3000u32),
        ("monster_dungeon_boss"@, "守护兽"@, 50u32, MonsterRarity::Boss, false,
            seq!["item/epic_weapon"@, "item/boss_armor"@], 10000u32),
    ]
}

/// The values of monster `m` a preset row fixes.
pub open spec fn monster_row(m: Monster) -> (Seq<char>, Seq<char>, u32, MonsterRarity, bool, Seq<Seq<char>>, u32) {
    (m.npc.base.name@, m.npc.base.name_cn@, m.npc.base.level, m.rarity, m.npc.base.aggressive,
        m.drops@.map_values(|d: String| d@), m.drop_rate)
}

/// Monster `m` is preset row `row` made with combat figures `c` at `now`:
/// its HP, attack, defence and rewards scaled by the rarity.
pub open spec fn preset_monster(m: Monster, row: (Seq<char>, Seq<char>, u32, MonsterRarity, bool, Seq<Seq<char>>, u32),
    c: CombatStats) -> bool {
    let f = rarity_factor(row.3);
    &&& monster_row(m) == row
    &&& m.npc.base.npc_type == NpcType::Monster && m.npc.base.attackable
    &&& m.npc.combat == CombatStats { max_hp: scaled(c.max_hp, f), hp: scaled(c.max_hp, f), attack: scaled(c.attack, f),
        defense: scaled(c.defense, f), ..c }
    &&& m.exp_reward == scaled((row.2 * row.2) as u32, f) && m.potential_reward == scaled(row.2, f)
}

fn strings2(a: &str, b: &str) -> (r: Vec<String>)
    ensures
        r@.map_values(|d: String| d@) == seq![a@, b@],
{
    let mut v: Vec<String> = Vec::new();
    v.push(string_of(a));
    v.push(string_of(b));
    assert(v@.map_values(|d: String| d@) =~= seq![a@, b@]);
    v
}

fn preset(name: &str, name_cn: &str, level: u32, rarity: MonsterRarity, aggressive: bool, drops: Vec<String>, rate: u32,
    combat: CombatStats, now: i64) -> (r: Monster)
    requires
        level <= 1000,
    ensures
        preset_monster(r, (name@, name_cn@, level, rarity, aggressive, drops@.map_values(|d: String| d@), rate), combat),
{
    assert(level * level <= 1_000_000) by (nonlinear_arith) requires level <= 1000;
    let m = Monster::new_at(string_of(name), string_of(name_cn), level, combat, now).with_rarity(rarity)
        .with_aggressive(aggressive).with_drops(drops, rate);
    m
}

/// The monsters the game starts with (see `preset_rows`), each made now
/// with the combat figures `stats` gives for its level.
pub fn create_preset_monsters(stats: impl Fn(u32) -> CombatStats) -> (r: Vec<Monster>)
    requires
        forall|l: u32| #[trigger] stats.requires((l,)),
    ensures
        r@.len() == 6,
        forall|i: int| #![trigger r@[i]] 0 <= i < 6 ==> exists|c: CombatStats| stats.ensures((preset_rows()[i].2,), c)
            && #[trigger] preset_monster(r@[i], preset_rows()[i], c),
{
    let now = current_timestamp();
    let mut r: Vec<Monster> = Vec::new();
    let c0 = stats(1);
    r.push(preset("monster_rat", "老鼠", 1, MonsterRarity::Common, false, Vec::new(), 1000, c0, now));
    let c1 = stats(3);
    r.push(preset("monster_snake", "毒蛇", 3, MonsterRarity::Common, false, Vec::new(), 1000, c1, now));
    let c2 = stats(5);
    r.push(preset("monster_wolf", "野狼", 5, MonsterRarity::Common, true, Vec::new(), 1000, c2, now));
    let c3 = stats(10);
    r.push(preset("monster_bandit", "强盗", 10, MonsterRarity::Common, true, Vec::new(), 1000, c3, now));
    let c4 = stats(20);
    r.push(preset("monster_bandit_leader", "强盗头目", 20, MonsterRarity::Elite, true,
        strings2("item/iron_sword", "item/leather_armor"), 3000, c4, now));
    let c5 = stats(50);
    r.push(preset("monster_dungeon_boss", "守护兽", 50, MonsterRarity::Boss, false,
        strings2("item/epic_weapon", "item/boss_armor"), 10000, c5, now));
    proof {
        let e = Seq::<String>::empty().map_values(|d: String| d@);
        assert(e =~= Seq::<Seq<char>>::empty());
        assert(preset_monster(r@[0], preset_rows()[0], c0));
        assert(preset_monster(r@[1], preset_rows()[1], c1));
        assert(preset_monster(r@[2], preset_rows()[2], c2));
        assert(preset_monster(r@[3], preset_rows()[3], c3));
        assert(preset_monster(r@[4], preset_rows()[4], c4));
        assert(preset_monster(r@[5], preset_rows()[5], c5));
    }
    r
}

/// Level `a` is within ten levels of `b`.
pub open spec fn near_level(a: u32, b: u32) -> bool {
    (if a > b { a - b } else { b - a }) <= 10
}

/// A monster for a player of `level`: one of the monsters the game starts
/// with (see `create_preset_monsters`) within ten levels, picked by chance;
/// none when no such monster exists. `area` is not read.
pub fn spawn_monster_for_level(level: u32, area: &str, stats: impl Fn(u32) -> CombatStats) -> (r: Option<Monster>)
    requires
        forall|l: u32| #[trigger] stats.requires((l,)),
    ensures
        r is None <==> (forall|i: int| 0 <= i < 6 ==> !near_level(#[trigger] preset_rows()[i].2, level)),
        r matches Some(m) ==> exists|i: int| 0 <= i < 6 && near_level(preset_rows()[i].2, level)
            && monster_row(m) == #[trigger] preset_rows()[i],
{
    let presets = create_preset_monsters(stats);
    assert forall|j: int| 0 <= j < 6 implies monster_row(#[trigger] presets@[j]) == preset_rows()[j] by {
        let c = choose|c: CombatStats| stats.ensures((preset_rows()[j].2,), c)
            && preset_monster(presets@[j], preset_rows()[j], c);
    }
    let mut suitable: Vec<usize> = Vec::new();
    let mut i: usize = 0;
    while i < presets.len()
        invariant
            presets@.len() == 6,
            i <= 6,
            suitable@.len() <= i,
            forall|t: int| 0 <= t < suitable@.len() ==> #[trigger] suitable@[t] < 6
                && near_level(preset_rows()[suitable@[t] as int].2, level),
            forall|j: int| 0 <= j < i && near_level(#[trigger] preset_rows()[j].2, level) ==> suitable@.len() > 0,
            forall|j: int| 0 <= j < 6 ==> monster_row(#[trigger] presets@[j]) == preset_rows()[j],
        decreases 6 - i,
    {
        let lv = presets[i].npc.base.level;
        assert(monster_row(presets@[i as int]) == preset_rows()[i as int]);
        let diff = if lv > level { lv - level } else { level - lv };
        if diff <= 10 {
            suitable.push(i);
            assert(suitable@[suitable@.len() - 1] == i);
        }
        i = i + 1;
    }
    if suitable.len() == 0 {
        return None;
    }
    let n = suitable.len();
    let k = random_range(0, n as i64) as usize;
    let j = suitable[k];
    assert(suitable@[k as int] < 6);
    let m = presets[j].clone();
    proof {
        assert(monster_row(presets@[j as int]) == preset_rows()[j as int]);
        assert(m.drops@.map_values(|d: String| d@) =~= presets@[j as int].drops@.map_values(|d: String| d@));
        assert(monster_row(m) == preset_rows()[j as int]);
    }
    Some(m)
}

/// What `Monster::new_at` promises: for the arguments given, `r` what it gives back.
pub open spec fn new_done(name: String, name_cn: String, level: u32, combat: CombatStats, now: i64, r: Monster) -> bool {
    &&& (r.npc.base.name == name && r.npc.base.name_cn == name_cn && r.npc.base.level == level)
    &&& (r.npc.base.npc_type == NpcType::Monster && r.npc.base.attackable && !r.npc.base.aggressive)
    &&& (r.npc.combat == combat && r.npc.created_at == now && r.npc.current_room is None && r.npc.died_at is None)
    &&& (r.rarity == MonsterRarity::Common && r.exp_reward == level * level && r.potential_reward == level)
    &&& (r.drops@.len() == 0 && r.drop_rate == 1000)
}

} // verus!
