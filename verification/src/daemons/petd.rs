//! Pets: growth, care and combat stats of a pet, and the daemon that keeps
//! pet templates, every pet, their owners and the pets out with players.
use vstd::prelude::*;
use crate::errors::{MudError, runtime_error, not_found};
use crate::text::{push_str, push_i64, push_u64, string_of, int_digits, nat_digits};
use crate::util::{Keyed, key_pos, key_in, keys_unique, find_key, has_str, contains_str, without_str, remove_all_str, lemma_unique_pos, key_get, get_key, upsert, remove_key, lemma_key_get_at, lemma_key_get_none};
use crate::outside::current_timestamp;

verus! {

/// What a pet is doing.
#[derive(Clone, Copy, Debug, PartialEq, Eq, Structural)]
pub enum PetStatus {
    Resting,
    Following,
    Fighting,
    Dead,
}

/// How grown a pet is.
#[derive(Clone, Copy, Debug, PartialEq, Eq, Structural)]
pub enum PetGrowthStage {
    Baby,
    Growing,
    Mature,
    Perfect,
}

/// A pet's attributes.
#[derive(Clone, Copy, Debug, PartialEq, Eq, Structural)]
pub struct PetStats {
    pub strength: u32,
    pub agility: u32,
    pub intelligence: u32,
    pub constitution: u32,
    pub luck: u32,
}

impl Default for PetStats {
    fn default() -> (r: Self)
        ensures
            r == (PetStats { strength: 10, agility: 10, intelligence: 10, constitution: 10, luck: 5 }),
    {
        PetStats { strength: 10, agility: 10, intelligence: 10, constitution: 10, luck: 5 }
    }
}

/// A pet's combat values.
#[derive(Clone, Copy, Debug, PartialEq, Eq, Structural)]
pub struct PetCombatStats {
    pub hp: u32,
    pub hp_max: u32,
    pub attack: u32,
    pub defense: u32,
    pub crit_rate: u32,
    pub dodge_rate: u32,
}

/// A skill of a pet.
#[derive(Debug)]
pub struct PetSkill {
    pub id: String,
    pub name: String,
    pub level: u32,
    pub description: String,
}

impl Clone for PetSkill {
    fn clone(&self) -> (r: Self)
        ensures
            r == *self,
    {
        PetSkill { id: self.id.clone(), name: self.name.clone(), level: self.level, description: self.description.clone() }
    }
}

/// A pet.
#[derive(Debug)]
pub struct Pet {
    pub id: String,
    pub template_id: String,
    pub name: String,
    pub owner_id: String,
    pub level: u32,
    pub exp: u64,
    pub growth_stage: PetGrowthStage,
    pub status: PetStatus,
    pub stats: PetStats,
    pub combat: PetCombatStats,
    pub skills: Vec<PetSkill>,
    pub loyalty: u32,
    pub happiness: u32,
    pub hunger: u32,
    pub obtained_at: i64,
    pub last_fed: i64,
}

/// `a` is a copy of `b`: the same fields, and skills with the same contents.
pub open spec fn pet_copy(a: Pet, b: Pet) -> bool {
    a == (Pet { skills: a.skills, ..b }) && a.skills@ == b.skills@
}

impl Clone for Pet {
    fn clone(&self) -> (r: Self)
        ensures
            pet_copy(r, *self),
    {
        let skills = self.skills.clone();
        proof {
            assert forall|i: int| 0 <= i < skills@.len() implies skills@[i] == self.skills@[i] by {
                assert(cloned::<PetSkill>(self.skills[i], skills[i]));
            }
            assert(skills@ =~= self.skills@);
        }
        Pet {
            id: self.id.clone(),
            template_id: self.template_id.clone(),
            name: self.name.clone(),
            owner_id: self.owner_id.clone(),
            level: self.level,
            exp: self.exp,
            growth_stage: self.growth_stage,
            status: self.status,
            stats: self.stats,
            combat: self.combat,
            skills,
            loyalty: self.loyalty,
            happiness: self.happiness,
            hunger: self.hunger,
            obtained_at: self.obtained_at,
            last_fed: self.last_fed,
        }
    }
}

impl Keyed for Pet {
    open spec fn key_view(&self) -> Seq<char> {
        self.id@
    }

    fn key(&self) -> (r: &String) {
        &self.id
    }
}

/// The growth stage of a level: baby to 19, growing to 49, mature to 79,
/// perfect to 100, baby beyond.
pub open spec fn stage_for(level: u32) -> PetGrowthStage {
    if 1 <= level <= 19 {
        PetGrowthStage::Baby
    } else if 20 <= level <= 49 {
        PetGrowthStage::Growing
    } else if 50 <= level <= 79 {
        PetGrowthStage::Mature
    } else if 80 <= level <= 100 {
        PetGrowthStage::Perfect
    } else {
        PetGrowthStage::Baby
    }
}

/// `v + d` capped at 100.
pub open spec fn cap100(v: int, d: int) -> int {
    if v + d < 100 { v + d } else { 100 }
}

/// `v - d`, or 0 when that is negative.
pub open spec fn sat_sub(v: int, d: int) -> int {
    if v >= d { v - d } else { 0 }
}

/// The attack of a pet: base attack, half the strength, twice the level.
pub open spec fn pet_attack(p: Pet) -> int {
    p.combat.attack + p.stats.strength / 2 + p.level * 2
}

/// The defense of a pet: base defense, three tenths of the constitution, the level.
pub open spec fn pet_defense(p: Pet) -> int {
    p.combat.defense + (p.stats.constitution * 3) / 10 + p.level
}

/// The coloured name of a growth stage.
pub open spec fn stage_label(s: PetGrowthStage) -> Seq<char> {
    match s {
        PetGrowthStage::Baby => "§C幼年期§N"@,
        PetGrowthStage::Growing => "§G成长期§N"@,
        PetGrowthStage::Mature => "§B成熟期§N"@,
        PetGrowthStage::Perfect => "§Y完全体§N"@,
    }
}

/// The short name of a growth stage.
pub open spec fn stage_short(s: PetGrowthStage) -> Seq<char> {
    match s {
        PetGrowthStage::Baby => "幼年"@,
        PetGrowthStage::Growing => "成长"@,
        PetGrowthStage::Mature => "成熟"@,
        PetGrowthStage::Perfect => "完全"@,
    }
}

/// The coloured name of a status, as the pet card shows it.
pub open spec fn status_label(s: PetStatus) -> Seq<char> {
    match s {
        PetStatus::Resting => "休息中"@,
        PetStatus::Following => "§G跟随中§N"@,
        PetStatus::Fighting => "§R战斗中§N"@,
        PetStatus::Dead => "§X死亡§N"@,
    }
}

/// The pet card.
pub open spec fn pet_info_text(p: Pet) -> Seq<char> {
    "§H["@ + p.name@ + "]§N "@ + stage_label(p.growth_stage) + " Lv."@ + nat_digits(p.level as nat) + "\n状态: "@
        + status_label(p.status) + " | 阶段: "@ + stage_short(p.growth_stage) + "\nHP: "@ + nat_digits(p.combat.hp as nat)
        + "/"@ + nat_digits(p.combat.hp_max as nat) + " | 攻击: "@ + nat_digits(pet_attack(p) as nat) + " | 防御: "@
        + nat_digits(pet_defense(p) as nat) + "\n忠诚: "@ + nat_digits(p.loyalty as nat) + "% | 快乐: "@ + nat_digits(
        p.happiness as nat,
    ) + "% | 饱食: "@ + nat_digits(p.hunger as nat) + "%\n力:"@ + nat_digits(p.stats.strength as nat) + " 敏:"@
        + nat_digits(p.stats.agility as nat) + " 智:"@ + nat_digits(p.stats.intelligence as nat) + " 体:"@ + nat_digits(
        p.stats.constitution as nat,
    ) + " 运:"@ + nat_digits(p.stats.luck as nat)
}

/// A newly obtained pet: level 1, a baby at rest, default attributes,
/// 100 HP, attack 15, defense 10, loyalty and happiness 50, hunger 80.
pub open spec fn fresh_pet(p: Pet, id: Seq<char>, template_id: Seq<char>, name: Seq<char>, owner_id: Seq<char>, now: i64) -> bool {
    &&& p.id@ == id
    &&& p.template_id@ == template_id
    &&& p.name@ == name
    &&& p.owner_id@ == owner_id
    &&& p.level == 1
    &&& p.exp == 0
    &&& p.growth_stage == PetGrowthStage::Baby
    &&& p.status == PetStatus::Resting
    &&& p.combat == (PetCombatStats { hp: 100, hp_max: 100, attack: 15, defense: 10, crit_rate: 5, dodge_rate: 5 })
    &&& p.skills@.len() == 0
    &&& p.loyalty == 50
    &&& p.happiness == 50
    &&& p.hunger == 80
    &&& p.obtained_at == now
    &&& p.last_fed == now
}

impl Pet {
    /// A new pet obtained at time `now`.
    pub fn new_at(id: String, template_id: String, name: String, owner_id: String, now: i64) -> (r: Self)
        ensures
            fresh_pet(r, id@, template_id@, name@, owner_id@, now),
            r.stats == (PetStats { strength: 10, agility: 10, intelligence: 10, constitution: 10, luck: 5 }),
    {
        Pet {
            id,
            template_id,
            name,
            owner_id,
            level: 1,
            exp: 0,
            growth_stage: PetGrowthStage::Baby,
            status: PetStatus::Resting,
            stats: PetStats::default(),
            combat: PetCombatStats { hp: 100, hp_max: 100, attack: 15, defense: 10, crit_rate: 5, dodge_rate: 5 },
            skills: Vec::new(),
            loyalty: 50,
            happiness: 50,
            hunger: 80,
            obtained_at: now,
            last_fed: now,
        }
    }

    /// A new pet obtained now.
    pub fn new(id: String, template_id: String, name: String, owner_id: String) -> (r: Self)
        ensures
            exists|now: i64| fresh_pet(r, id@, template_id@, name@, owner_id@, now),
    {
        let now = current_timestamp();
        Self::new_at(id, template_id, name, owner_id, now)
    }

    /// Alive: not dead and with HP left.
    pub fn is_alive(&self) -> (r: bool)
        ensures
            r == (self.status != PetStatus::Dead && self.combat.hp > 0),
    {
        self.status != PetStatus::Dead && self.combat.hp > 0
    }

    /// Hungry below 30.
    pub fn is_hungry(&self) -> (r: bool)
        ensures
            r == (self.hunger < 30),
    {
        self.hunger < 30
    }

    /// Unhappy below 30.
    pub fn is_unhappy(&self) -> (r: bool)
        ensures
            r == (self.happiness < 30),
    {
        self.happiness < 30
    }

    /// Gains a level unless at level 100: 10 more maximum HP, full HP,
    /// 3 more attack, 2 more defense, and the growth stage of the new level.
    pub fn level_up(&mut self) -> (r: bool)
        requires
            old(self).combat.hp_max + 10 <= u32::MAX,
            old(self).combat.attack + 3 <= u32::MAX,
            old(self).combat.defense + 2 <= u32::MAX,
        ensures
            r == (old(self).level < 100),
            !r ==> *final(self) == *old(self),
            r ==> {
                &&& final(self).level == old(self).level + 1
                &&& final(self).combat.hp_max == old(self).combat.hp_max + 10
                &&& final(self).combat.hp == final(self).combat.hp_max
                &&& final(self).combat.attack == old(self).combat.attack + 3
                &&& final(self).combat.defense == old(self).combat.defense + 2
                &&& final(self).combat.crit_rate == old(self).combat.crit_rate
                &&& final(self).combat.dodge_rate == old(self).combat.dodge_rate
                &&& final(self).growth_stage == stage_for(final(self).level)
                &&& final(self).exp == old(self).exp
                &&& final(self).status == old(self).status
                &&& final(self).id == old(self).id
                &&& final(self).name == old(self).name
                &&& final(self).owner_id == old(self).owner_id
            },
    {
        if self.level >= 100 {
            return false;
        }
        self.level = self.level + 1;
        self.combat.hp_max = self.combat.hp_max + 10;
        self.combat.hp = self.combat.hp_max;
        self.combat.attack = self.combat.attack + 3;
        self.combat.defense = self.combat.defense + 2;
        self.check_growth_stage();
        true
    }

    /// Adds experience; when it reaches `level * 100` that much is spent and
    /// the pet levels up. Reports whether it levelled up.
    pub fn add_exp(&mut self, exp: u64) -> (r: bool)
        requires
            old(self).exp + exp <= u64::MAX,
            old(self).combat.hp_max + 10 <= u32::MAX,
            old(self).combat.attack + 3 <= u32::MAX,
            old(self).combat.defense + 2 <= u32::MAX,
        ensures
            old(self).exp + exp < old(self).level * 100 ==> !r && final(self).exp == old(self).exp + exp && final(self).level == old(self).level,
            old(self).exp + exp >= old(self).level * 100 ==> {
                &&& final(self).exp == old(self).exp + exp - old(self).level * 100
                &&& r == (old(self).level < 100)
                &&& final(self).level == if r { old(self).level + 1 } else { old(self).level as int }
            },
            final(self).id == old(self).id,
            final(self).name == old(self).name,
            final(self).status == old(self).status,
    {
        self.exp = self.exp + exp;
        let needed = self.level as u64 * 100;
        if self.exp >= needed {
            self.exp = self.exp - needed;
            return self.level_up();
        }
        false
    }

    /// Sets the growth stage that the level calls for.
    pub fn check_growth_stage(&mut self)
        ensures
            final(self).growth_stage == stage_for(old(self).level),
            *final(self) == (Pet { growth_stage: final(self).growth_stage, ..*old(self) }),
    {
        self.growth_stage = if 1 <= self.level && self.level <= 19 {
            PetGrowthStage::Baby
        } else if 20 <= self.level && self.level <= 49 {
            PetGrowthStage::Growing
        } else if 50 <= self.level && self.level <= 79 {
            PetGrowthStage::Mature
        } else if 80 <= self.level && self.level <= 100 {
            PetGrowthStage::Perfect
        } else {
            PetGrowthStage::Baby
        };
    }

    /// Feeds the pet at time `now`: hunger up by `amount`, happiness by 5 and
    /// loyalty by 2, each capped at 100. Fails with 宠物已死亡 for a dead pet.
    pub fn feed_at(&mut self, amount: u32, now: i64) -> (r: Result<(), MudError>)
        requires
            old(self).hunger + amount <= u32::MAX,
            old(self).happiness + 5 <= u32::MAX,
            old(self).loyalty + 2 <= u32::MAX,
        ensures
            feed_done(*old(self), *final(self), amount, now, r),
    {
        if self.status == PetStatus::Dead {
            return Err(runtime_error("宠物已死亡"));
        }
        self.hunger = if self.hunger + amount < 100 { self.hunger + amount } else { 100 };
        self.happiness = if self.happiness + 5 < 100 { self.happiness + 5 } else { 100 };
        self.loyalty = if self.loyalty + 2 < 100 { self.loyalty + 2 } else { 100 };
        self.last_fed = now;
        Ok(())
    }

    /// Feeds the pet now (see `feed_at`).
    pub fn feed(&mut self, amount: u32) -> (r: Result<(), MudError>)
        requires
            old(self).hunger + amount <= u32::MAX,
            old(self).happiness + 5 <= u32::MAX,
            old(self).loyalty + 2 <= u32::MAX,
        ensures
            exists|now: i64| #[trigger] feed_done(*old(self), *final(self), amount, now, r),
            old(self).status == PetStatus::Dead ==> (r matches Err(MudError::RuntimeError(m)) && m@ == "宠物已死亡"@) && *final(self) == *old(self),
            old(self).status != PetStatus::Dead ==> {
                &&& r is Ok
                &&& final(self).hunger == cap100(old(self).hunger as int, amount as int)
                &&& final(self).happiness == cap100(old(self).happiness as int, 5)
                &&& final(self).loyalty == cap100(old(self).loyalty as int, 2)
                &&& *final(self) == (Pet { hunger: final(self).hunger, happiness: final(self).happiness, loyalty: final(self).loyalty, last_fed: final(self).last_fed, ..*old(self) })
            },
    {
        let now = current_timestamp();
        self.feed_at(amount, now)
    }

    /// Strokes the pet: happiness up by 10 and loyalty by 3, capped at 100.
    /// Fails with 宠物已死亡 for a dead pet.
    pub fn pet(&mut self) -> (r: Result<(), MudError>)
        requires
            old(self).happiness + 10 <= u32::MAX,
            old(self).loyalty + 3 <= u32::MAX,
        ensures
            old(self).status == PetStatus::Dead ==> (r matches Err(MudError::RuntimeError(m)) && m@ == "宠物已死亡"@) && *final(self) == *old(self),
            old(self).status != PetStatus::Dead ==> r is Ok && *final(self) == (Pet {
                happiness: cap100(old(self).happiness as int, 10) as u32,
                loyalty: cap100(old(self).loyalty as int, 3) as u32,
                ..*old(self)
            }),
    {
        if self.status == PetStatus::Dead {
            return Err(runtime_error("宠物已死亡"));
        }
        self.happiness = if self.happiness + 10 < 100 { self.happiness + 10 } else { 100 };
        self.loyalty = if self.loyalty + 3 < 100 { self.loyalty + 3 } else { 100 };
        Ok(())
    }

    /// Takes damage; at zero HP the pet dies.
    pub fn take_damage(&mut self, damage: u32)
        ensures
            damage >= old(self).combat.hp ==> final(self).combat.hp == 0 && final(self).status == PetStatus::Dead,
            damage < old(self).combat.hp ==> final(self).combat.hp == old(self).combat.hp - damage && final(self).status == old(self).status,
            final(self).combat.hp_max == old(self).combat.hp_max,
            final(self).level == old(self).level,
    {
        if damage >= self.combat.hp {
            self.combat.hp = 0;
            self.status = PetStatus::Dead;
        } else {
            self.combat.hp = self.combat.hp - damage;
        }
    }

    /// Heals up to the maximum HP; a dead pet is not healed.
    pub fn heal(&mut self, amount: u32)
        requires
            old(self).combat.hp + amount <= u32::MAX,
        ensures
            old(self).status == PetStatus::Dead ==> *final(self) == *old(self),
            old(self).status != PetStatus::Dead ==> final(self).combat.hp == (if old(self).combat.hp + amount < old(self).combat.hp_max { old(self).combat.hp + amount } else { old(self).combat.hp_max as int }),
            final(self).status == old(self).status,
            final(self).combat.hp_max == old(self).combat.hp_max,
    {
        if self.status == PetStatus::Dead {
            return;
        }
        let sum = self.combat.hp + amount;
        self.combat.hp = if sum < self.combat.hp_max { sum } else { self.combat.hp_max };
    }

    /// Brings a dead pet back to rest with half its maximum HP (at least 1).
    pub fn revive(&mut self)
        ensures
            old(self).status != PetStatus::Dead ==> *final(self) == *old(self),
            old(self).status == PetStatus::Dead ==> {
                &&& final(self).status == PetStatus::Resting
                &&& final(self).combat.hp == if old(self).combat.hp_max / 2 > 1 { old(self).combat.hp_max / 2 } else { 1 }
                &&& final(self).combat.hp_max == old(self).combat.hp_max
            },
    {
        if self.status == PetStatus::Dead {
            self.status = PetStatus::Resting;
            let half = self.combat.hp_max / 2;
            self.combat.hp = if half > 1 { half } else { 1 };
        }
    }

    /// The attack: base attack, half the strength, twice the level.
    pub fn calculate_attack(&self) -> (r: u32)
        requires
            pet_attack(*self) <= u32::MAX,
        ensures
            r == pet_attack(*self),
    {
        self.combat.attack + self.stats.strength / 2 + self.level * 2
    }

    /// The defense: base defense, three tenths of the constitution, the level.
    pub fn calculate_defense(&self) -> (r: u32)
        requires
            pet_defense(*self) <= u32::MAX,
        ensures
            r == pet_defense(*self),
    {
        let c = self.stats.constitution as u64;
        let bonus = ((c * 3) / 10) as u32;
        self.combat.defense + bonus + self.level
    }

    /// The pet card.
    pub fn format_info(&self) -> (r: String)
        requires
            pet_attack(*self) <= u32::MAX,
            pet_defense(*self) <= u32::MAX,
        ensures
            r@ == pet_info_text(*self),
    {
        let stage = match self.growth_stage {
            PetGrowthStage::Baby => "§C幼年期§N",
            PetGrowthStage::Growing => "§G成长期§N",
            PetGrowthStage::Mature => "§B成熟期§N",
            PetGrowthStage::Perfect => "§Y完全体§N",
        };
        let status = match self.status {
            PetStatus::Resting => "休息中",
            PetStatus::Following => "§G跟随中§N",
            PetStatus::Fighting => "§R战斗中§N",
            PetStatus::Dead => "§X死亡§N",
        };
        let short = match self.growth_stage {
            PetGrowthStage::Baby => "幼年",
            PetGrowthStage::Growing => "成长",
            PetGrowthStage::Mature => "成熟",
            PetGrowthStage::Perfect => "完全",
        };
        let mut s = string_of("§H[");
        push_str(&mut s, self.name.as_str());
        push_str(&mut s, "]§N ");
        push_str(&mut s, stage);
        push_str(&mut s, " Lv.");
        push_u64(&mut s, self.level as u64);
        push_str(&mut s, "\n状态: ");
        push_str(&mut s, status);
        push_str(&mut s, " | 阶段: ");
        push_str(&mut s, short);
        push_str(&mut s, "\nHP: ");
        push_u64(&mut s, self.combat.hp as u64);
        push_str(&mut s, "/");
        push_u64(&mut s, self.combat.hp_max as u64);
        push_str(&mut s, " | 攻击: ");
        push_u64(&mut s, self.calculate_attack() as u64);
        push_str(&mut s, " | 防御: ");
        push_u64(&mut s, self.calculate_defense() as u64);
        push_str(&mut s, "\n忠诚: ");
        push_u64(&mut s, self.loyalty as u64);
        push_str(&mut s, "% | 快乐: ");
        push_u64(&mut s, self.happiness as u64);
        push_str(&mut s, "% | 饱食: ");
        push_u64(&mut s, self.hunger as u64);
        push_str(&mut s, "%\n力:");
        push_u64(&mut s, self.stats.strength as u64);
        push_str(&mut s, " 敏:");
        push_u64(&mut s, self.stats.agility as u64);
        push_str(&mut s, " 智:");
        push_u64(&mut s, self.stats.intelligence as u64);
        push_str(&mut s, " 体:");
        push_u64(&mut s, self.stats.constitution as u64);
        push_str(&mut s, " 运:");
        push_u64(&mut s, self.stats.luck as u64);
        s
    }

    /// A tick of time: hunger drops by 1; a hungry pet then loses 2
    /// happiness and 1 loyalty (never below 0).
    pub fn update(&mut self)
        ensures
            final(self).hunger == sat_sub(old(self).hunger as int, 1),
            final(self).hunger < 30 ==> final(self).happiness == sat_sub(old(self).happiness as int, 2) && final(self).loyalty == sat_sub(old(self).loyalty as int, 1),
            final(self).hunger >= 30 ==> final(self).happiness == old(self).happiness && final(self).loyalty == old(self).loyalty,
            *final(self) == (Pet { hunger: final(self).hunger, happiness: final(self).happiness, loyalty: final(self).loyalty, ..*old(self) }),
    {
        self.hunger = if self.hunger >= 1 { self.hunger - 1 } else { 0 };
        if self.is_hungry() {
            self.happiness = if self.happiness >= 2 { self.happiness - 2 } else { 0 };
            self.loyalty = if self.loyalty >= 1 { self.loyalty - 1 } else { 0 };
        }
    }
}


/// A kind of pet that players can obtain.
#[derive(Debug)]
pub struct PetTemplate {
    pub id: String,
    pub name: String,
    pub description: String,
    pub stat_bonus: PetStats,
    pub rarity: u32,
    pub initial_skills: Vec<String>,
    pub obtain_method: String,
}

impl Keyed for PetTemplate {
    open spec fn key_view(&self) -> Seq<char> {
        self.id@
    }

    fn key(&self) -> (r: &String) {
        &self.id
    }
}

/// The pets a player owns, by pet id.
#[derive(Debug)]
pub struct PlayerPets {
    pub player_id: String,
    pub pet_ids: Vec<String>,
}

impl Keyed for PlayerPets {
    open spec fn key_view(&self) -> Seq<char> {
        self.player_id@
    }

    fn key(&self) -> (r: &String) {
        &self.player_id
    }
}

/// The pet a player has out.
#[derive(Debug)]
pub struct ActivePet {
    pub player_id: String,
    pub pet_id: String,
}

impl Keyed for ActivePet {
    open spec fn key_view(&self) -> Seq<char> {
        self.player_id@
    }

    fn key(&self) -> (r: &String) {
        &self.player_id
    }
}

/// The skills a new pet gets from its template's skill ids.
pub open spec fn initial_skills_ok(skills: Seq<PetSkill>, ids: Seq<String>) -> bool {
    &&& skills.len() == ids.len()
    &&& forall|i: int| 0 <= i < ids.len() ==> {
        &&& (#[trigger] skills[i]).id@ == ids[i]@
        &&& skills[i].name@ == "技能_"@ + ids[i]@
        &&& skills[i].level == 1
        &&& skills[i].description@ == "初始技能"@
    }
}

/// The id of a pet created at time `now`: `pet_<owner>_<template>_<now>`.
pub open spec fn pet_id_text(owner: Seq<char>, template_id: Seq<char>, now: i64) -> Seq<char> {
    "pet_"@ + owner + "_"@ + template_id + "_"@ + int_digits(now as int)
}

/// The pets of a player: the status word of the list.
pub open spec fn list_status(s: PetStatus) -> Seq<char> {
    match s {
        PetStatus::Resting => "休息中"@,
        PetStatus::Following => "跟随中"@,
        PetStatus::Fighting => "战斗中"@,
        PetStatus::Dead => "§R已死亡§N"@,
    }
}

/// The line of a pet in a player's pet list.
pub open spec fn pet_line(p: Pet, active: bool) -> Seq<char> {
    (if active { "§G[出战]§N"@ } else { ""@ }) + " "@ + p.name@ + " [Lv."@ + nat_digits(p.level as nat) + "] "@ + list_status(p.status) + "\n"@
}

/// The pets that the ids name, skipping ids without a pet.
pub open spec fn pets_of(pets: Seq<Pet>, ids: Seq<String>) -> Seq<Pet>
    decreases ids.len(),
{
    if ids.len() == 0 {
        Seq::empty()
    } else {
        let prev = pets_of(pets, ids.drop_last());
        match key_get(pets, ids.last()@) {
            Some(p) => prev.push(p),
            None => prev,
        }
    }
}

/// The lines of a pet list, marking the pet that is out.
pub open spec fn pet_lines(ps: Seq<Pet>, active: Option<Seq<char>>) -> Seq<char>
    decreases ps.len(),
{
    if ps.len() == 0 {
        Seq::empty()
    } else {
        pet_lines(ps.drop_last(), active) + pet_line(ps.last(), active == Some(ps.last().id@))
    }
}

/// One line of a pet list.
fn format_pet_line(p: &Pet, active: bool) -> (r: String)
    ensures
        r@ == pet_line(*p, active),
{
    let mut out = if active { string_of("§G[出战]§N") } else { string_of("") };
    push_str(&mut out, " ");
    push_str(&mut out, p.name.as_str());
    push_str(&mut out, " [Lv.");
    push_u64(&mut out, p.level as u64);
    push_str(&mut out, "] ");
    let st = match p.status {
        PetStatus::Resting => "休息中",
        PetStatus::Following => "跟随中",
        PetStatus::Fighting => "战斗中",
        PetStatus::Dead => "§R已死亡§N",
    };
    push_str(&mut out, st);
    push_str(&mut out, "\n");
    out
}

/// Pet templates, all pets, which player owns which pets, and which pet
/// each player has out.
pub struct PetDaemon {
    pets: Vec<Pet>,
    player_pets: Vec<PlayerPets>,
    templates: Vec<PetTemplate>,
    active_pets: Vec<ActivePet>,
}

fn template(
    id: &str,
    name: &str,
    description: &str,
    stat_bonus: PetStats,
    rarity: u32,
    skill: &str,
    obtain_method: &str,
) -> (r: PetTemplate)
    ensures
        r.id@ == id@,
        r.name@ == name@,
        r.stat_bonus == stat_bonus,
        r.rarity == rarity,
        r.initial_skills@.len() == 1,
        r.initial_skills@[0]@ == skill@,
{
    let mut skills: Vec<String> = Vec::new();
    skills.push(string_of(skill));
    PetTemplate {
        id: string_of(id),
        name: string_of(name),
        description: string_of(description),
        stat_bonus,
        rarity,
        initial_skills: skills,
        obtain_method: string_of(obtain_method),
    }
}

impl PetDaemon {
    /// The pets.
    pub closed spec fn pets_view(&self) -> Seq<Pet> {
        self.pets@
    }

    /// The pets each player owns.
    pub closed spec fn owners_view(&self) -> Seq<PlayerPets> {
        self.player_pets@
    }

    /// The templates.
    pub closed spec fn templates_view(&self) -> Seq<PetTemplate> {
        self.templates@
    }

    /// The pets out with players.
    pub closed spec fn active_view(&self) -> Seq<ActivePet> {
        self.active_pets@
    }

    /// Each table has at most one entry per key.
    pub open spec fn wf(&self) -> bool {
        &&& keys_unique(self.pets_view())
        &&& keys_unique(self.owners_view())
        &&& keys_unique(self.templates_view())
        &&& keys_unique(self.active_view())
    }

    /// No pets; the templates of the fire dragon, wind eagle, earth golem
    /// and spirit fox.
    pub fn new() -> (r: Self)
        ensures
            r.wf(),
            r.pets_view().len() == 0,
            r.owners_view().len() == 0,
            r.active_view().len() == 0,
            r.templates_view().len() == 4,
            r.templates_view()[0].id@ == "pet_fire_dragon"@,
            r.templates_view()[0].name@ == "小火龙"@,
            r.templates_view()[0].stat_bonus == (PetStats { strength: 15, agility: 10, intelligence: 12, constitution: 10, luck: 5 }),
            r.templates_view()[1].id@ == "pet_wind_eagle"@,
            r.templates_view()[2].id@ == "pet_earth_golem"@,
            r.templates_view()[3].id@ == "pet_spirit_fox"@,
    {
        let mut templates: Vec<PetTemplate> = Vec::new();
        templates.push(template(
            "pet_fire_dragon",
            "小火龙",
            "拥有火焰之力的幼龙，成长后会变得非常强大。",
            PetStats { strength: 15, agility: 10, intelligence: 12, constitution: 10, luck: 5 },
            4,
            "skill_fire_breath",
            "完成「火之试炼」任务",
        ));
        templates.push(template(
            "pet_wind_eagle",
            "风鹰",
            "翱翔于天际的猎鹰，敏捷极高。",
            PetStats { strength: 8, agility: 18, intelligence: 10, constitution: 8, luck: 10 },
            3,
            "skill_wind_dash",
            "在悬崖峭壁间捕捉",
        ));
        templates.push(template(
            "pet_earth_golem",
            "地精",
            "由岩石构成的生命，防御力惊人。",
            PetStats { strength: 12, agility: 5, intelligence: 5, constitution: 20, luck: 3 },
            3,
            "skill_earth_armor",
            "完成「大地守护」任务",
        ));
        templates.push(template(
            "pet_spirit_fox",
            "小灵狐",
            "机灵可爱的狐狸，幸运值很高。",
            PetStats { strength: 8, agility: 12, intelligence: 15, constitution: 8, luck: 15 },
            2,
            "skill_luck_boost",
            "在灵狐森林捕获",
        ));
        let r = PetDaemon { pets: Vec::new(), player_pets: Vec::new(), templates, active_pets: Vec::new() };
        proof {
            reveal_strlit("pet_fire_dragon");
            reveal_strlit("pet_wind_eagle");
            reveal_strlit("pet_earth_golem");
            reveal_strlit("pet_spirit_fox");
            assert("pet_fire_dragon"@[4] != "pet_earth_golem"@[4]);
            assert("pet_wind_eagle"@[4] != "pet_spirit_fox"@[4]);
            assert(keys_unique(r.templates@));
        }
        r
    }

    /// The template with id `template_id`.
    pub fn get_template(&self, template_id: &str) -> (r: Option<&PetTemplate>)
        ensures
            r matches Some(t) ==> key_get(self.templates_view(), template_id@) == Some(*t),
            r is None <==> !key_in(self.templates_view(), template_id@),
    {
        get_key(&self.templates, template_id)
    }

    /// All templates.
    pub fn get_all_templates(&self) -> (r: Vec<&PetTemplate>)
        ensures
            r@.len() == self.templates_view().len(),
            forall|i: int| 0 <= i < r@.len() ==> *r@[i] == self.templates_view()[i],
    {
        let mut r: Vec<&PetTemplate> = Vec::new();
        let mut i: usize = 0;
        while i < self.templates.len()
            invariant
                i <= self.templates@.len(),
                r@.len() == i,
                forall|j: int| 0 <= j < i ==> *r@[j] == self.templates@[j],
            decreases self.templates.len() - i,
        {
            r.push(&self.templates[i]);
            i = i + 1;
        }
        r
    }

    /// Creates a pet of a template for `owner_id` at time `now`, named
    /// `custom_name` or after the template, with the template's attributes
    /// and initial skills; the owner's pet list gains its id. Fails with
    /// 宠物模板不存在 for an unknown template.
    pub fn create_pet_at(&mut self, template_id: &str, owner_id: String, custom_name: Option<String>, now: i64) -> (r: Result<Pet, MudError>)
        requires
            old(self).wf(),
        ensures
            create_pet_done(*old(self), *final(self), template_id, owner_id, custom_name, now, r),
    {
        let t = match get_key(&self.templates, template_id) {
            Some(t) => t,
            None => {
                return Err(not_found("宠物模板不存在"));
            },
        };
        let mut pet_id = string_of("pet_");
        push_str(&mut pet_id, owner_id.as_str());
        push_str(&mut pet_id, "_");
        push_str(&mut pet_id, template_id);
        push_str(&mut pet_id, "_");
        push_i64(&mut pet_id, now);
        let name = match custom_name {
            Some(n) => n,
            None => t.name.clone(),
        };
        let mut pet = Pet::new_at(pet_id.clone(), string_of(template_id), name, owner_id.clone(), now);
        pet.stats = t.stat_bonus;
        let mut i: usize = 0;
        while i < t.initial_skills.len()
            invariant
                i <= t.initial_skills@.len(),
                initial_skills_ok(pet.skills@, t.initial_skills@.take(i as int)),
                pet.id@ == pet_id@,
                pet.id@ == pet_id_text(owner_id@, template_id@, now),
                pet.template_id@ == template_id@,
                pet.owner_id@ == owner_id@,
                pet.stats == t.stat_bonus,
                pet.level == 1 && pet.exp == 0 && pet.status == PetStatus::Resting,
                pet.obtained_at == now,
                pet.name@ == (match custom_name { Some(n) => n@, None => t.name@ }),
            decreases t.initial_skills.len() - i,
        {
            let sid = &t.initial_skills[i];
            let mut sname = string_of("技能_");
            push_str(&mut sname, sid.as_str());
            pet.skills.push(PetSkill { id: sid.clone(), name: sname, level: 1, description: string_of("初始技能") });
            i = i + 1;
            assert(t.initial_skills@.take(i as int).drop_last() =~= t.initial_skills@.take(i - 1));
        }
        assert(t.initial_skills@.take(i as int) =~= t.initial_skills@);
        let stored = pet.clone();
        let pr = upsert(&mut self.pets, stored);
        proof {
            let idx = match pr { Some(k) => k as int, None => old(self).pets@.len() as int };
            lemma_key_get_at(self.pets@, pet.id@, idx);
        }
        let ghost owners0 = self.player_pets@;
        match find_key(&self.player_pets, owner_id.as_str()) {
            Some(k) => {
                let entry = &mut self.player_pets[k];
                entry.pet_ids.push(pet_id);
                proof {
                    assert(self.player_pets@ == owners0.update(k as int, self.player_pets@[k as int]));
                    assert(keys_unique(self.player_pets@)) by {
                        assert forall|a: int, b: int| 0 <= a < b < self.player_pets@.len() implies self.player_pets@[a].key_view() != self.player_pets@[b].key_view() by {
                            assert(owners0[a].key_view() != owners0[b].key_view());
                        }
                    }
                    lemma_unique_pos(self.player_pets@, k as int);
                    lemma_key_get_at(self.player_pets@, owner_id@, k as int);
                }
            },
            None => {
                let mut ids: Vec<String> = Vec::new();
                ids.push(pet_id);
                let pr2 = upsert(&mut self.player_pets, PlayerPets { player_id: owner_id, pet_ids: ids });
                proof {
                    lemma_key_get_at(self.player_pets@, owner_id@, owners0.len() as int);
                }
            },
        }
        Ok(pet)
    }

    /// Creates a pet now (see `create_pet_at`).
    pub fn create_pet(&mut self, template_id: &str, owner_id: String, custom_name: Option<String>) -> (r: Result<Pet, MudError>)
        requires
            old(self).wf(),
        ensures
            exists|now: i64| #[trigger] create_pet_done(*old(self), *final(self), template_id, owner_id, custom_name, now, r),
            final(self).wf(),
            !key_in(old(self).templates_view(), template_id@) ==> (r matches Err(MudError::NotFound(m)) && m@ == "宠物模板不存在"@),
            key_in(old(self).templates_view(), template_id@) ==> (r matches Ok(pet) && key_get(final(self).pets_view(), pet.id@) matches Some(q) && pet_copy(q, pet)),
    {
        let now = current_timestamp();
        let r = self.create_pet_at(template_id, owner_id, custom_name, now);
        proof {
            if key_in(old(self).templates_view(), template_id@) {
                let i = choose|i: int| 0 <= i < old(self).templates_view().len() && old(self).templates_view()[i].key_view() == template_id@;
                lemma_unique_pos(old(self).templates_view(), i);
                lemma_key_get_at(old(self).templates_view(), template_id@, i);
            }
        }
        r
    }

    /// The pets of a player, in the order obtained.
    pub fn get_player_pets(&self, player_id: &str) -> (r: Vec<&Pet>)
        ensures
            key_get(self.owners_view(), player_id@) is None ==> r@.len() == 0,
            key_get(self.owners_view(), player_id@) matches Some(o) ==> r@.map_values(|p: &Pet| *p) == pets_of(self.pets_view(), o.pet_ids@),
    {
        let mut r: Vec<&Pet> = Vec::new();
        match get_key(&self.player_pets, player_id) {
            None => r,
            Some(o) => {
                let mut i: usize = 0;
                while i < o.pet_ids.len()
                    invariant
                        i <= o.pet_ids@.len(),
                        r@.map_values(|p: &Pet| *p) == pets_of(self.pets@, o.pet_ids@.take(i as int)),
                    decreases o.pet_ids.len() - i,
                {
                    let ghost prev = r@;
                    assert(o.pet_ids@.take(i + 1).drop_last() =~= o.pet_ids@.take(i as int));
                    match get_key(&self.pets, o.pet_ids[i].as_str()) {
                        Some(p) => {
                            r.push(p);
                            assert(r@.map_values(|p: &Pet| *p) =~= prev.map_values(|p: &Pet| *p).push(*p));
                        },
                        None => {},
                    }
                    i = i + 1;
                }
                assert(o.pet_ids@.take(i as int) =~= o.pet_ids@);
                r
            },
        }
    }

    /// The pet with id `pet_id`.
    pub fn get_pet(&self, pet_id: &str) -> (r: Option<&Pet>)
        ensures
            r matches Some(p) ==> key_get(self.pets_view(), pet_id@) == Some(*p),
            r is None <==> !key_in(self.pets_view(), pet_id@),
    {
        get_key(&self.pets, pet_id)
    }

    /// The pet with id `pet_id`, for changing it.
    pub fn get_pet_mut(&mut self, pet_id: &str) -> (r: Option<&mut Pet>)
        ensures
            r is None <==> !key_in(old(self).pets_view(), pet_id@),
            r is None ==> final(self).pets_view() == old(self).pets_view(),
            r matches Some(p) ==> key_get(old(self).pets_view(), pet_id@) == Some(*p)
                && (exists|i: int| key_pos(old(self).pets_view(), pet_id@, i)
                    && final(self).pets_view() == old(self).pets_view().update(i, *final(p))),
            final(self).owners_view() == old(self).owners_view(),
            final(self).templates_view() == old(self).templates_view(),
            final(self).active_view() == old(self).active_view(),
    {
        proof {
            crate::util::lemma_key_in_get(self.pets@, pet_id@);
        }
        crate::util::get_key_mut(&mut self.pets, pet_id)
    }

    fn owns(&self, player_id: &str, pet_id: &str) -> (r: Option<bool>)
        ensures
            r is None <==> key_get(self.owners_view(), player_id@) is None,
            r matches Some(b) ==> (key_get(self.owners_view(), player_id@) matches Some(o) && b == has_str(o.pet_ids@, pet_id@)),
    {
        match get_key(&self.player_pets, player_id) {
            Some(o) => Some(contains_str(&o.pet_ids, pet_id)),
            None => None,
        }
    }

    /// Sends a player's pet out. Fails with 没有宠物 for a player without
    /// pets, a permission error for someone else's pet and 宠物已死亡 for a
    /// dead pet.
    pub fn set_active_pet(&mut self, player_id: &str, pet_id: &str) -> (r: Result<(), MudError>)
        requires
            old(self).wf(),
        ensures
            final(self).wf(),
            final(self).pets_view() == old(self).pets_view(),
            final(self).owners_view() == old(self).owners_view(),
            final(self).templates_view() == old(self).templates_view(),
            match key_get(old(self).owners_view(), player_id@) {
                None => (r matches Err(MudError::NotFound(m)) && m@ == "没有宠物"@) && final(self).active_view() == old(self).active_view(),
                Some(o) => if !has_str(o.pet_ids@, pet_id@) {
                    r == Err::<(), MudError>(MudError::PermissionDenied) && final(self).active_view() == old(self).active_view()
                } else if key_get(old(self).pets_view(), pet_id@) matches Some(p) && p.status == PetStatus::Dead {
                    (r matches Err(MudError::RuntimeError(m)) && m@ == "宠物已死亡"@) && final(self).active_view() == old(self).active_view()
                } else {
                    r is Ok && (key_get(final(self).active_view(), player_id@) matches Some(a) && a.pet_id@ == pet_id@)
                },
            },
    {
        match self.owns(player_id, pet_id) {
            None => {
                return Err(not_found("没有宠物"));
            },
            Some(false) => {
                return Err(MudError::PermissionDenied);
            },
            Some(true) => {},
        }
        match get_key(&self.pets, pet_id) {
            Some(p) => {
                if p.status == PetStatus::Dead {
                    return Err(runtime_error("宠物已死亡"));
                }
            },
            None => {},
        }
        let ghost a0 = self.active_pets@;
        let pr = upsert(&mut self.active_pets, ActivePet { player_id: string_of(player_id), pet_id: string_of(pet_id) });
        proof {
            let idx = match pr { Some(k) => k as int, None => a0.len() as int };
            lemma_key_get_at(self.active_pets@, player_id@, idx);
        }
        Ok(())
    }

    /// The pet a player has out.
    pub fn get_active_pet(&self, player_id: &str) -> (r: Option<&Pet>)
        ensures
            key_get(self.active_view(), player_id@) is None ==> r is None,
            key_get(self.active_view(), player_id@) matches Some(a) ==> match key_get(self.pets_view(), a.pet_id@) {
                Some(p) => r matches Some(q) && *q == p,
                None => r is None,
            },
    {
        match get_key(&self.active_pets, player_id) {
            Some(a) => get_key(&self.pets, a.pet_id.as_str()),
            None => None,
        }
    }

    /// The pet a player has out, for changing it.
    pub fn get_active_pet_mut(&mut self, player_id: &str) -> (r: Option<&mut Pet>)
        ensures
            key_get(old(self).active_view(), player_id@) is None ==> r is None,
            key_get(old(self).active_view(), player_id@) matches Some(a) ==> match key_get(old(self).pets_view(), a.pet_id@) {
                Some(p) => r matches Some(q) && *q == p && (exists|i: int| key_pos(old(self).pets_view(), a.pet_id@, i)
                    && final(self).pets_view() == old(self).pets_view().update(i, *final(q))),
                None => r is None,
            },
            r is None ==> final(self).pets_view() == old(self).pets_view(),
            final(self).owners_view() == old(self).owners_view(),
            final(self).templates_view() == old(self).templates_view(),
            final(self).active_view() == old(self).active_view(),
    {
        let pid = match get_key(&self.active_pets, player_id) {
            Some(a) => a.pet_id.clone(),
            None => {
                return None;
            },
        };
        match self.get_pet_mut(pid.as_str()) {
            Some(p) => Some(p),
            None => {
                proof {
                    lemma_key_get_none(old(self).pets_view(), pid@);
                }
                None
            },
        }
    }

    /// Calls back the pet a player has out: it rests. Fails with 没有出战宠物
    /// when none is out.
    pub fn recall_pet(&mut self, player_id: &str) -> (r: Result<(), MudError>)
        requires
            old(self).wf(),
        ensures
            final(self).wf(),
            key_get(old(self).active_view(), player_id@) is None ==> (r matches Err(MudError::NotFound(m)) && m@ == "没有出战宠物"@) && final(self).active_view() == old(self).active_view() && final(self).pets_view() == old(self).pets_view(),
            key_get(old(self).active_view(), player_id@) matches Some(a) ==> {
                &&& r is Ok
                &&& !key_in(final(self).active_view(), player_id@)
                &&& final(self).pets_view().len() == old(self).pets_view().len()
                &&& (key_get(old(self).pets_view(), a.pet_id@) matches Some(p) ==> key_get(final(self).pets_view(), a.pet_id@) == Some(Pet { status: PetStatus::Resting, ..p }))
            },
            final(self).owners_view() == old(self).owners_view(),
            final(self).templates_view() == old(self).templates_view(),
    {
        let pid = match get_key(&self.active_pets, player_id) {
            Some(a) => a.pet_id.clone(),
            None => {
                return Err(not_found("没有出战宠物"));
            },
        };
        match find_key(&self.pets, pid.as_str()) {
            Some(i) => {
                let ghost p0 = self.pets@;
                proof {
                    lemma_key_get_at(p0, pid@, i as int);
                }
                let pet = &mut self.pets[i];
                pet.status = PetStatus::Resting;
                proof {
                    assert(self.pets@ == p0.update(i as int, self.pets@[i as int]));
                    assert(keys_unique(self.pets@)) by {
                        assert forall|a: int, b: int| 0 <= a < b < self.pets@.len() implies self.pets@[a].key_view() != self.pets@[b].key_view() by {
                            assert(p0[a].key_view() != p0[b].key_view());
                        }
                    }
                    assert(key_pos(self.pets@, pid@, i as int));
                    lemma_key_get_at(self.pets@, pid@, i as int);
                }
            },
            None => {},
        }
        let removed = remove_key(&mut self.active_pets, player_id);
        Ok(())
    }

    /// Lets a player's pet go: it leaves the player's list and the pets, and
    /// is called back first when out. Fails with 没有宠物 for a player
    /// without pets and a permission error for someone else's pet.
    pub fn release_pet(&mut self, player_id: &str, pet_id: &str) -> (r: Result<(), MudError>)
        requires
            old(self).wf(),
        ensures
            final(self).wf(),
            final(self).templates_view() == old(self).templates_view(),
            match key_get(old(self).owners_view(), player_id@) {
                None => (r matches Err(MudError::NotFound(m)) && m@ == "没有宠物"@) && final(self).pets_view() == old(self).pets_view() && final(self).active_view() == old(self).active_view(),
                Some(o) => if !has_str(o.pet_ids@, pet_id@) {
                    r == Err::<(), MudError>(MudError::PermissionDenied) && final(self).pets_view() == old(self).pets_view() && final(self).active_view() == old(self).active_view()
                } else {
                    &&& r is Ok
                    &&& !key_in(final(self).pets_view(), pet_id@)
                    &&& key_get(final(self).owners_view(), player_id@) matches Some(o2) && o2.pet_ids@ == without_str(o.pet_ids@, pet_id@)
                    &&& (key_get(old(self).active_view(), player_id@) matches Some(a) && a.pet_id@ == pet_id@) ==> !key_in(final(self).active_view(), player_id@)
                },
            },
    {
        let k = match find_key(&self.player_pets, player_id) {
            Some(k) => k,
            None => {
                proof {
                    lemma_key_get_none(old(self).owners_view(), player_id@);
                }
                return Err(not_found("没有宠物"));
            },
        };
        proof {
            lemma_key_get_at(self.player_pets@, player_id@, k as int);
        }
        if !contains_str(&self.player_pets[k].pet_ids, pet_id) {
            return Err(MudError::PermissionDenied);
        }
        let ghost o0 = self.player_pets@;
        let kept = remove_all_str(&self.player_pets[k].pet_ids, pet_id);
        let entry = &mut self.player_pets[k];
        entry.pet_ids = kept;
        proof {
            assert(self.player_pets@ == o0.update(k as int, self.player_pets@[k as int]));
            assert(keys_unique(self.player_pets@)) by {
                assert forall|a: int, b: int| 0 <= a < b < self.player_pets@.len() implies self.player_pets@[a].key_view() != self.player_pets@[b].key_view() by {
                    assert(o0[a].key_view() != o0[b].key_view());
                }
            }
            assert(key_pos(self.player_pets@, player_id@, k as int));
            lemma_key_get_at(self.player_pets@, player_id@, k as int);
        }
        let is_active = match get_key(&self.active_pets, player_id) {
            Some(a) => crate::text::str_eq(a.pet_id.as_str(), pet_id),
            None => false,
        };
        if is_active {
            let removed = remove_key(&mut self.active_pets, player_id);
        }
        let removed_pet = remove_key(&mut self.pets, pet_id);
        Ok(())
    }

    /// A tick of time for every pet (see `Pet::update`).
    pub fn update_all_pets(&mut self)
        requires
            old(self).wf(),
        ensures
            final(self).wf(),
            final(self).pets_view().len() == old(self).pets_view().len(),
            forall|i: int| 0 <= i < old(self).pets_view().len() ==> {
                let p = #[trigger] old(self).pets_view()[i];
                let q = final(self).pets_view()[i];
                &&& q.hunger == sat_sub(p.hunger as int, 1)
                &&& q.hunger < 30 ==> q.happiness == sat_sub(p.happiness as int, 2) && q.loyalty == sat_sub(p.loyalty as int, 1)
                &&& q.hunger >= 30 ==> q.happiness == p.happiness && q.loyalty == p.loyalty
                &&& q == (Pet { hunger: q.hunger, happiness: q.happiness, loyalty: q.loyalty, ..p })
            },
            final(self).owners_view() == old(self).owners_view(),
            final(self).active_view() == old(self).active_view(),
            final(self).templates_view() == old(self).templates_view(),
    {
        let mut i: usize = 0;
        while i < self.pets.len()
            invariant
                i <= self.pets@.len(),
                self.pets@.len() == old(self).pets@.len(),
                keys_unique(old(self).pets@),
                self.player_pets@ == old(self).player_pets@,
                self.active_pets@ == old(self).active_pets@,
                self.templates@ == old(self).templates@,
                keys_unique(self.player_pets@),
                keys_unique(self.active_pets@),
                keys_unique(self.templates@),
                forall|j: int| i <= j < self.pets@.len() ==> self.pets@[j] == old(self).pets@[j],
                forall|j: int| 0 <= j < i ==> {
                    let p = #[trigger] old(self).pets@[j];
                    let q = self.pets@[j];
                    &&& q.hunger == sat_sub(p.hunger as int, 1)
                    &&& q.hunger < 30 ==> q.happiness == sat_sub(p.happiness as int, 2) && q.loyalty == sat_sub(p.loyalty as int, 1)
                    &&& q.hunger >= 30 ==> q.happiness == p.happiness && q.loyalty == p.loyalty
                    &&& q == (Pet { hunger: q.hunger, happiness: q.happiness, loyalty: q.loyalty, ..p })
                },
            decreases self.pets.len() - i,
        {
            let pet = &mut self.pets[i];
            pet.update();
            i = i + 1;
        }
        proof {
            assert forall|a: int, b: int| 0 <= a < b < self.pets@.len() implies self.pets@[a].key_view() != self.pets@[b].key_view() by {
                assert(old(self).pets@[a].key_view() != old(self).pets@[b].key_view());
            }
        }
    }

    /// Feeds a pet by 10 at time `now`. Fails with a permission error when
    /// the player has pets but not this one, 宠物不存在 for an unknown pet and
    /// 宠物已死亡 for a dead pet.
    pub fn feed_pet_at(&mut self, player_id: &str, pet_id: &str, amount: u32, now: i64) -> (r: Result<String, MudError>)
        requires
            old(self).wf(),
            forall|i: int| 0 <= i < old(self).pets_view().len() ==> {
                &&& (#[trigger] old(self).pets_view()[i]).hunger + amount <= u32::MAX
                &&& old(self).pets_view()[i].happiness + 5 <= u32::MAX
                &&& old(self).pets_view()[i].loyalty + 2 <= u32::MAX
            },
        ensures
            feed_pet_done(*old(self), *final(self), player_id, pet_id, amount, now, r),
    {
        match self.owns(player_id, pet_id) {
            Some(false) => {
                return Err(MudError::PermissionDenied);
            },
            _ => {},
        }
        let i = match find_key(&self.pets, pet_id) {
            Some(i) => i,
            None => {
                proof {
                    lemma_key_get_none(old(self).pets_view(), pet_id@);
                }
                return Err(not_found("宠物不存在"));
            },
        };
        let ghost p0 = self.pets@;
        proof {
            lemma_key_get_at(p0, pet_id@, i as int);
            assert(p0[i as int].hunger + amount <= u32::MAX);
        }
        let pet = &mut self.pets[i];
        let fed = pet.feed_at(amount, now);
        let mut msg = string_of("你喂了");
        push_str(&mut msg, pet.name.as_str());
        push_str(&mut msg, "，它看起来很开心！");
        proof {
            assert(self.pets@ == p0.update(i as int, self.pets@[i as int]));
            assert forall|a: int, b: int| 0 <= a < b < self.pets@.len() implies self.pets@[a].key_view() != self.pets@[b].key_view() by {
                assert(p0[a].key_view() != p0[b].key_view());
            }
            assert(key_pos(self.pets@, pet_id@, i as int));
            lemma_key_get_at(self.pets@, pet_id@, i as int);
        }
        match fed {
            Err(e) => {
                assert(self.pets@ =~= p0);
                Err(e)
            },
            Ok(()) => Ok(msg),
        }
    }

    /// Feeds a pet now (see `feed_pet_at`).
    pub fn feed_pet(&mut self, player_id: &str, pet_id: &str, amount: u32) -> (r: Result<String, MudError>)
        requires
            old(self).wf(),
            forall|i: int| 0 <= i < old(self).pets_view().len() ==> {
                &&& (#[trigger] old(self).pets_view()[i]).hunger + amount <= u32::MAX
                &&& old(self).pets_view()[i].happiness + 5 <= u32::MAX
                &&& old(self).pets_view()[i].loyalty + 2 <= u32::MAX
            },
        ensures
            exists|now: i64| #[trigger] feed_pet_done(*old(self), *final(self), player_id, pet_id, amount, now, r),
            final(self).wf(),
            (key_get(old(self).owners_view(), player_id@) matches Some(rec) && !has_str(rec.pet_ids@, pet_id@)) ==> r == Err::<String, MudError>(MudError::PermissionDenied),
            !(key_get(old(self).owners_view(), player_id@) matches Some(rec) && !has_str(rec.pet_ids@, pet_id@)) ==> match key_get(old(self).pets_view(), pet_id@) {
                None => r matches Err(MudError::NotFound(m)) && m@ == "宠物不存在"@,
                Some(p) => if p.status == PetStatus::Dead {
                    r matches Err(MudError::RuntimeError(m)) && m@ == "宠物已死亡"@
                } else {
                    r matches Ok(m) && m@ == "你喂了"@ + p.name@ + "，它看起来很开心！"@
                },
            },
    {
        let now = current_timestamp();
        self.feed_pet_at(player_id, pet_id, amount, now)
    }

    /// Strokes a pet. Fails with a permission error when the player has pets
    /// but not this one, 宠物不存在 for an unknown pet and 宠物已死亡 for a
    /// dead pet.
    pub fn pet_pet(&mut self, player_id: &str, pet_id: &str) -> (r: Result<String, MudError>)
        requires
            old(self).wf(),
            forall|i: int| 0 <= i < old(self).pets_view().len() ==> {
                &&& (#[trigger] old(self).pets_view()[i]).happiness + 10 <= u32::MAX
                &&& old(self).pets_view()[i].loyalty + 3 <= u32::MAX
            },
        ensures
            final(self).wf(),
            final(self).owners_view() == old(self).owners_view(),
            final(self).active_view() == old(self).active_view(),
            (key_get(old(self).owners_view(), player_id@) matches Some(rec) && !has_str(rec.pet_ids@, pet_id@)) ==> r == Err::<String, MudError>(MudError::PermissionDenied) && final(self).pets_view() == old(self).pets_view(),
            !(key_get(old(self).owners_view(), player_id@) matches Some(rec) && !has_str(rec.pet_ids@, pet_id@)) ==> match key_get(old(self).pets_view(), pet_id@) {
                None => (r matches Err(MudError::NotFound(m)) && m@ == "宠物不存在"@) && final(self).pets_view() == old(self).pets_view(),
                Some(p) => if p.status == PetStatus::Dead {
                    (r matches Err(MudError::RuntimeError(m)) && m@ == "宠物已死亡"@) && final(self).pets_view() == old(self).pets_view()
                } else {
                    &&& r matches Ok(m) && m@ == "你摸了摸"@ + p.name@ + "，它摇着尾巴很开心！"@
                    &&& key_get(final(self).pets_view(), pet_id@) matches Some(q) && q.happiness == cap100(p.happiness as int, 10) && q.loyalty == cap100(p.loyalty as int, 3)
                },
            },
    {
        match self.owns(player_id, pet_id) {
            Some(false) => {
                return Err(MudError::PermissionDenied);
            },
            _ => {},
        }
        let i = match find_key(&self.pets, pet_id) {
            Some(i) => i,
            None => {
                proof {
                    lemma_key_get_none(old(self).pets_view(), pet_id@);
                }
                return Err(not_found("宠物不存在"));
            },
        };
        let ghost p0 = self.pets@;
        proof {
            lemma_key_get_at(p0, pet_id@, i as int);
            assert(p0[i as int].happiness + 10 <= u32::MAX);
        }
        let pet = &mut self.pets[i];
        let done = pet.pet();
        let mut msg = string_of("你摸了摸");
        push_str(&mut msg, pet.name.as_str());
        push_str(&mut msg, "，它摇着尾巴很开心！");
        proof {
            assert(self.pets@ == p0.update(i as int, self.pets@[i as int]));
            assert forall|a: int, b: int| 0 <= a < b < self.pets@.len() implies self.pets@[a].key_view() != self.pets@[b].key_view() by {
                assert(p0[a].key_view() != p0[b].key_view());
            }
            assert(key_pos(self.pets@, pet_id@, i as int));
            lemma_key_get_at(self.pets@, pet_id@, i as int);
        }
        match done {
            Err(e) => {
                assert(self.pets@ =~= p0);
                Err(e)
            },
            Ok(()) => Ok(msg),
        }
    }

    /// The list of a player's pets, marking the one that is out.
    pub fn format_pet_list(&self, player_id: &str) -> (r: String)
        ensures
            ({
                let ps = match key_get(self.owners_view(), player_id@) {
                    Some(o) => pets_of(self.pets_view(), o.pet_ids@),
                    None => Seq::<Pet>::empty(),
                };
                let active = match key_get(self.active_view(), player_id@) {
                    Some(a) => Some(a.pet_id@),
                    None => None,
                };
                r@ == "§H=== 宠物列表 ("@ + nat_digits(ps.len()) + "只) ===§N\n"@ + if ps.len() == 0 {
                    "你还没有宠物。\n"@
                } else {
                    pet_lines(ps, active)
                }
            }),
    {
        let pets = self.get_player_pets(player_id);
        let ghost ps = pets@.map_values(|p: &Pet| *p);
        let active: Option<String> = match get_key(&self.active_pets, player_id) {
            Some(a) => Some(a.pet_id.clone()),
            None => None,
        };
        let ghost av = match &active { Some(a) => Some(a@), None => None::<Seq<char>> };
        let mut out = string_of("§H=== 宠物列表 (");
        push_u64(&mut out, pets.len() as u64);
        push_str(&mut out, "只) ===§N\n");
        if pets.len() == 0 {
            push_str(&mut out, "你还没有宠物。\n");
        } else {
            let ghost head = out@;
            let mut i: usize = 0;
            while i < pets.len()
                invariant
                    i <= pets@.len(),
                    ps == pets@.map_values(|p: &Pet| *p),
                    out@ == head + pet_lines(ps.take(i as int), av),
                    av == match active { Some(a) => Some(a@), None => None::<Seq<char>> },
                decreases pets.len() - i,
            {
                let p = pets[i];
                let is_active = match &active {
                    Some(a) => *a == p.id,
                    None => false,
                };
                let line = format_pet_line(p, is_active);
                push_str(&mut out, line.as_str());
                assert(ps.take(i + 1).drop_last() =~= ps.take(i as int));
                assert(ps[i as int] == *p);
                i = i + 1;
                assert(out@ =~= head + pet_lines(ps.take(i as int), av));
            }
            assert(ps.take(i as int) =~= ps);
        }
        out
    }
}

impl Default for PetDaemon {
    fn default() -> (r: Self)
        ensures
            r.wf(),
            r.pets_view().len() == 0,
            r.templates_view().len() == 4,
    {
        Self::new()
    }
}

/// What `Pet::feed_at` promises: `o` is the value before the call, `f` the value after, `r` what it
/// gives back.
pub open spec fn feed_done(o: Pet, f: Pet, amount: u32, now: i64, r: Result<(), MudError>) -> bool {
    &&& (o.status == PetStatus::Dead ==> (r matches Err(MudError::RuntimeError(m)) && m@ == "宠物已死亡"@) && f == o)
    &&& (o.status != PetStatus::Dead ==> {
        &&& r is Ok
        &&& f.hunger == cap100(o.hunger as int, amount as int)
        &&& f.happiness == cap100(o.happiness as int, 5)
        &&& f.loyalty == cap100(o.loyalty as int, 2)
        &&& f.last_fed == now
        &&& f == (Pet { hunger: f.hunger, happiness: f.happiness, loyalty: f.loyalty, last_fed: now, ..o })
    })
}

/// What `PetDaemon::create_pet_at` promises: `o` is the value before the call, `f` the value after, `r`
/// what it gives back.
pub open spec fn create_pet_done(
    o: PetDaemon, f: PetDaemon, template_id: &str, owner_id: String, custom_name: Option<String>, now: i64,
    r: Result<Pet, MudError>) -> bool {
    &&& (f.wf())
    &&& (f.templates_view() == o.templates_view())
    &&& (f.active_view() == o.active_view())
    &&& (!key_in(o.templates_view(), template_id@) ==> (r matches Err(MudError::NotFound(m)) && m@ == "宠物模板不存在"@) && f.pets_view() == o.pets_view() && f.owners_view() == o.owners_view())
    &&& (key_get(o.templates_view(), template_id@) matches Some(t) ==> (r matches Ok(pet) && {
        &&& pet.id@ == pet_id_text(owner_id@, template_id@, now)
        &&& pet.template_id@ == template_id@
        &&& pet.name@ == (match custom_name { Some(n) => n@, None => t.name@ })
        &&& pet.owner_id@ == owner_id@
        &&& pet.stats == t.stat_bonus
        &&& initial_skills_ok(pet.skills@, t.initial_skills@)
        &&& pet.level == 1 && pet.exp == 0 && pet.status == PetStatus::Resting
        &&& pet.obtained_at == now
        &&& key_get(f.pets_view(), pet.id@) matches Some(q) && pet_copy(q, pet)
        &&& key_get(f.owners_view(), owner_id@) matches Some(rec) && rec.pet_ids@.len() > 0 && rec.pet_ids@.last()@ == pet.id@
    }))
}

/// What `PetDaemon::feed_pet_at` promises: `o` is the value before the call, `f` the value after, `r`
/// what it gives back.
pub open spec fn feed_pet_done(
    o: PetDaemon, f: PetDaemon, player_id: &str, pet_id: &str, amount: u32, now: i64,
    r: Result<String, MudError>) -> bool {
    &&& (f.wf())
    &&& (f.owners_view() == o.owners_view())
    &&& (f.active_view() == o.active_view())
    &&& ((key_get(o.owners_view(), player_id@) matches Some(rec) && !has_str(rec.pet_ids@, pet_id@)) ==> r == Err::<String, MudError>(MudError::PermissionDenied) && f.pets_view() == o.pets_view())
    &&& (!(key_get(o.owners_view(), player_id@) matches Some(rec) && !has_str(rec.pet_ids@, pet_id@)) ==> match key_get(o.pets_view(), pet_id@) {
        None => (r matches Err(MudError::NotFound(m)) && m@ == "宠物不存在"@) && f.pets_view() == o.pets_view(),
        Some(p) => if p.status == PetStatus::Dead {
            (r matches Err(MudError::RuntimeError(m)) && m@ == "宠物已死亡"@) && f.pets_view() == o.pets_view()
        } else {
            &&& r matches Ok(m) && m@ == "你喂了"@ + p.name@ + "，它看起来很开心！"@
            &&& key_get(f.pets_view(), pet_id@) matches Some(q) && q.hunger == cap100(p.hunger as int, amount as int) && q.happiness == cap100(p.happiness as int, 5) && q.loyalty == cap100(p.loyalty as int, 2) && q.last_fed == now
        },
    })
}

} // verus!
