//! Fights between two combatants: PK modes and PK levels, the combat figures
//! of each side, per-fight skill cooldowns, the resolution of a round and the
//! daemon that keeps the running fights and who is in which.
//!
//! What a skill costs and is called comes from the skill registry, which the
//! caller hands in as a `SkillBook`; how much a blow takes off is decided by
//! chance outside, and reaches a round as a `Strike`.
use vstd::prelude::*;
use crate::text::{push_str, push_u64, push_i64, string_of, str_eq, str_contains, seq_contains, nat_digits, int_digits};
use crate::util::{take_key, Keyed, key_pos, key_get, key_in, keys_unique, find_key, get_key, put_key, drop_key,
    lemma_key_get_at, lemma_key_get_none, lemma_keyed_update, lemma_key_in_get, percent_i32, percent_of};
use crate::outside::{current_timestamp, random_ratio, random_usize};

verus! {

/// Whom a combatant lets itself fight.
#[derive(Clone, Copy, Debug, PartialEq, Eq, Structural)]
pub enum PkMode {
    Peace,
    Free,
    Team,
    Guild,
}

impl Default for PkMode {
    fn default() -> (r: Self)
        ensures
            r == PkMode::Peace,
    {
        PkMode::Peace
    }
}

/// The display name of a PK mode.
pub open spec fn pk_mode_label(m: PkMode) -> Seq<char> {
    match m {
        PkMode::Peace => "和平模式"@,
        PkMode::Free => "自由模式"@,
        PkMode::Team => "组队模式"@,
        PkMode::Guild => "帮派模式"@,
    }
}

/// A fight may start between modes `a` (attacking) and `b` (attacked)
/// exactly when neither side is in peace mode.
pub open spec fn modes_allow(a: PkMode, b: PkMode) -> bool {
    a != PkMode::Peace && b != PkMode::Peace
}

impl PkMode {
    /// The display name of the mode.
    pub fn as_str(&self) -> (r: &'static str)
        ensures
            r@ == pk_mode_label(*self),
    {
        match self {
            PkMode::Peace => "和平模式",
            PkMode::Free => "自由模式",
            PkMode::Team => "组队模式",
            PkMode::Guild => "帮派模式",
        }
    }

    /// Whether a combatant in this mode may attack one in `other_mode`: a
    /// peaceful side neither attacks nor is attacked.
    pub fn can_attack(self, other_mode: PkMode) -> (r: bool)
        ensures
            r == modes_allow(self, other_mode),
    {
        match (self, other_mode) {
            (PkMode::Peace, _) => false,
            (_, PkMode::Peace) => false,
            _ => true,
        }
    }
}

/// The standing a PK value gives.
#[derive(Clone, Copy, Debug, PartialEq, Eq, Structural, PartialOrd, Ord)]
pub enum PkLevel {
    Citizen,
    Gray,
    Red,
    Evil,
    Demon,
}

/// The standing of PK value `v`: below 1 a citizen, below 20 gray, below
/// 50 red, below 100 evil, else a demon.
pub open spec fn level_of_value(v: int) -> PkLevel {
    if v < 1 {
        PkLevel::Citizen
    } else if v < 20 {
        PkLevel::Gray
    } else if v < 50 {
        PkLevel::Red
    } else if v < 100 {
        PkLevel::Evil
    } else {
        PkLevel::Demon
    }
}

/// The colour in which a standing is shown.
pub open spec fn level_color(l: PkLevel) -> Seq<char> {
    match l {
        PkLevel::Citizen => "#00ff00"@,
        PkLevel::Gray => "#cccccc"@,
        PkLevel::Red => "#ffff00"@,
        PkLevel::Evil => "#ff0000"@,
        PkLevel::Demon => "#ff00ff"@,
    }
}

/// The name of a standing.
pub open spec fn level_name(l: PkLevel) -> Seq<char> {
    match l {
        PkLevel::Citizen => "良民"@,
        PkLevel::Gray => "灰名"@,
        PkLevel::Red => "红名"@,
        PkLevel::Evil => "恶人"@,
        PkLevel::Demon => "恶魔"@,
    }
}

impl PkLevel {
    /// The standing of a PK value.
    pub fn from_value(value: i32) -> (r: PkLevel)
        ensures
            r == level_of_value(value as int),
    {
        if value < 1 {
            PkLevel::Citizen
        } else if value < 20 {
            PkLevel::Gray
        } else if value < 50 {
            PkLevel::Red
        } else if value < 100 {
            PkLevel::Evil
        } else {
            PkLevel::Demon
        }
    }

    /// The colour in which the standing is shown.
    pub fn color_code(&self) -> (r: &'static str)
        ensures
            r@ == level_color(*self),
    {
        match self {
            PkLevel::Citizen => "#00ff00",
            PkLevel::Gray => "#cccccc",
            PkLevel::Red => "#ffff00",
            PkLevel::Evil => "#ff0000",
            PkLevel::Demon => "#ff00ff",
        }
    }

    /// The name of the standing.
    pub fn name(&self) -> (r: &'static str)
        ensures
            r@ == level_name(*self),
    {
        match self {
            PkLevel::Citizen => "良民",
            PkLevel::Gray => "灰名",
            PkLevel::Red => "红名",
            PkLevel::Evil => "恶人",
            PkLevel::Demon => "恶魔",
        }
    }
}

/// Where a combatant stands in a fight.
#[derive(Clone, Copy, Debug, PartialEq, Eq, Structural)]
pub enum CombatStatus {
    Normal,
    Fighting,
    Escaped,
    Dead,
    Unconscious,
}

/// What a combatant does in a round.
#[derive(Debug)]
pub enum CombatAction {
    Attack,
    Escape,
    Perform(String),
    Cast(String),
    Surrender,
}

/// The combat figures of one side.
#[derive(Debug)]
pub struct CombatStats {
    pub id: String,
    pub name: String,
    pub name_cn: String,
    pub level: i32,
    pub hp: i32,
    pub hp_max: i32,
    pub mp: i32,
    pub mp_max: i32,
    pub jing: i32,
    pub jing_max: i32,
    pub qi: i32,
    pub qi_max: i32,
    pub attack: i32,
    pub defense: i32,
    pub dodge: i32,
    pub parry: i32,
    pub pk_mode: PkMode,
    pub pk_value: i32,
    pub kill_streak: i32,
    pub is_killing: bool,
}

impl Clone for CombatStats {
    fn clone(&self) -> (r: Self)
        ensures
            r == *self,
    {
        CombatStats {
            id: self.id.clone(),
            name: self.name.clone(),
            name_cn: self.name_cn.clone(),
            level: self.level,
            hp: self.hp,
            hp_max: self.hp_max,
            mp: self.mp,
            mp_max: self.mp_max,
            jing: self.jing,
            jing_max: self.jing_max,
            qi: self.qi,
            qi_max: self.qi_max,
            attack: self.attack,
            defense: self.defense,
            dodge: self.dodge,
            parry: self.parry,
            pk_mode: self.pk_mode,
            pk_value: self.pk_value,
            kill_streak: self.kill_streak,
            is_killing: self.is_killing,
        }
    }
}

/// The text of the refusal when the modes forbid a fight.
pub open spec fn refused_by_mode() -> Seq<char> {
    "对方的PK模式不允许被攻击"@
}

impl CombatStats {
    /// Alive while hit points remain.
    pub fn is_alive(&self) -> (r: bool)
        ensures
            r == (self.hp > 0),
    {
        self.hp > 0
    }

    /// Hit points as a percentage of the maximum, rounded toward zero and
    /// clamped to `[0, 100]`; 0 when the maximum is 0. `hp * 100` must fit
    /// in an `i32`.
    pub fn hp_percent(&self) -> (r: i32)
        requires
            -21474836 <= self.hp <= 21474836,
        ensures
            r == percent_of(self.hp as int, self.hp_max as int),
            0 <= r <= 100,
    {
        percent_i32(self.hp, self.hp_max)
    }

    /// Whether this side may attack `target`: refused when either is in
    /// peace mode.
    pub fn can_attack(&self, target: &CombatStats) -> (r: Result<(), String>)
        ensures
            r is Ok <==> modes_allow(self.pk_mode, target.pk_mode),
            r matches Err(e) ==> e@ == refused_by_mode(),
    {
        if !self.pk_mode.can_attack(target.pk_mode) {
            return Err(string_of("对方的PK模式不允许被攻击"));
        }
        Ok(())
    }
}

/// What a round came to.
#[derive(Debug)]
pub struct CombatRound {
    pub round_number: u32,
    pub attacker_damage: i32,
    pub defender_damage: i32,
    pub attacker_hp: i32,
    pub defender_hp: i32,
    pub log: Vec<String>,
    pub ended: bool,
    pub winner: Option<String>,
    pub skill_used: Option<String>,
    pub skill_effect: Option<String>,
}

/// A skill's cooldown within a fight.
#[derive(Debug)]
pub struct BattleSkillState {
    pub skill_id: String,
    pub current_cooldown: u32,
    pub base_cooldown: u32,
}

impl Clone for BattleSkillState {
    fn clone(&self) -> (r: Self)
        ensures
            r == *self,
    {
        BattleSkillState { skill_id: self.skill_id.clone(), current_cooldown: self.current_cooldown, base_cooldown: self.base_cooldown }
    }
}

impl Keyed for BattleSkillState {
    open spec fn key_view(&self) -> Seq<char> {
        self.skill_id@
    }

    fn key(&self) -> (r: &String) {
        &self.skill_id
    }
}

impl BattleSkillState {
    /// A skill that is ready, cooling `base_cooldown` rounds after each use.
    pub fn new(skill_id: String, base_cooldown: u32) -> (r: Self)
        ensures
            r.skill_id == skill_id && r.current_cooldown == 0 && r.base_cooldown == base_cooldown,
    {
        BattleSkillState { skill_id, current_cooldown: 0, base_cooldown }
    }

    /// Ready when no cooldown is left.
    pub fn is_ready(&self) -> (r: bool)
        ensures
            r == (self.current_cooldown == 0),
    {
        self.current_cooldown == 0
    }

    /// After a use the full cooldown starts.
    pub fn use_skill(&mut self)
        ensures
            final(self).current_cooldown == old(self).base_cooldown,
            final(self).skill_id == old(self).skill_id && final(self).base_cooldown == old(self).base_cooldown,
    {
        self.current_cooldown = self.base_cooldown;
    }

    /// One round passes: the cooldown drops by one, down to 0.
    pub fn tick_cooldown(&mut self)
        ensures
            final(self).current_cooldown == (if old(self).current_cooldown > 0 { old(self).current_cooldown - 1 } else { 0 }),
            final(self).skill_id == old(self).skill_id && final(self).base_cooldown == old(self).base_cooldown,
    {
        if self.current_cooldown > 0 {
            self.current_cooldown = self.current_cooldown - 1;
        }
    }
}

/// One round later: each cooldown is one lower, down to 0.
pub open spec fn ticked(a: Seq<BattleSkillState>, b: Seq<BattleSkillState>) -> bool {
    &&& b.len() == a.len()
    &&& forall|i: int| 0 <= i < a.len() ==> {
        &&& (#[trigger] b[i]).skill_id == a[i].skill_id
        &&& b[i].base_cooldown == a[i].base_cooldown
        &&& b[i].current_cooldown == (if a[i].current_cooldown > 0 { a[i].current_cooldown - 1 } else { 0 })
    }
}

/// The skills of one side in a fight, each with its cooldown, and the one
/// used this round. Skill ids are distinct.
#[derive(Debug)]
pub struct FighterSkills {
    pub skills: Vec<BattleSkillState>,
    pub this_round_skill: Option<String>,
}

/// The state of skill `id`, if the side has it.
pub open spec fn skill_state(f: FighterSkills, id: Seq<char>) -> Option<BattleSkillState> {
    key_get(f.skills@, id)
}

/// Skill `id` is known and ready.
pub open spec fn skill_ready(f: FighterSkills, id: Seq<char>) -> bool {
    skill_state(f, id) matches Some(s) && s.current_cooldown == 0
}

impl FighterSkills {
    /// Skill ids are distinct.
    pub open spec fn wf(&self) -> bool {
        keys_unique(self.skills@)
    }

    /// No skills, none used.
    pub fn new() -> (r: Self)
        ensures
            r.wf(),
            r.skills@.len() == 0,
            r.this_round_skill is None,
    {
        FighterSkills { skills: Vec::new(), this_round_skill: None }
    }

    /// Gives the side skill `skill_id`, ready, with cooldown `cooldown`; a
    /// skill it had under that id is replaced.
    pub fn add_skill(&mut self, skill_id: String, cooldown: u32)
        requires
            old(self).wf(),
        ensures
            final(self).wf(),
            skill_state(*final(self), skill_id@) == Some(BattleSkillState { skill_id, current_cooldown: 0, base_cooldown: cooldown }),
            forall|k: Seq<char>| k != skill_id@ ==> #[trigger] skill_state(*final(self), k) == skill_state(*old(self), k),
            key_in(old(self).skills@, skill_id@) ==> final(self).skills@.len() == old(self).skills@.len(),
            !key_in(old(self).skills@, skill_id@) ==> final(self).skills@ == old(self).skills@.push(BattleSkillState { skill_id, current_cooldown: 0, base_cooldown: cooldown }),
            final(self).this_round_skill == old(self).this_round_skill,
    {
        let st = BattleSkillState::new(skill_id, cooldown);
        put_key(&mut self.skills, st);
    }

    /// Whether skill `skill_id` is known and ready.
    pub fn can_use_skill(&self, skill_id: &str) -> (r: bool)
        ensures
            r == skill_ready(*self, skill_id@),
    {
        match get_key(&self.skills, skill_id) {
            Some(s) => s.is_ready(),
            None => false,
        }
    }

    /// Uses skill `skill_id` if it is known and ready: its cooldown starts
    /// and it becomes this round's skill. Says whether it was used.
    pub fn use_skill(&mut self, skill_id: &str) -> (r: bool)
        requires
            old(self).wf(),
        ensures
            final(self).wf(),
            r == skill_ready(*old(self), skill_id@),
            r ==> {
                &&& skill_state(*old(self), skill_id@) matches Some(s)
                    && skill_state(*final(self), skill_id@) == Some(BattleSkillState { current_cooldown: s.base_cooldown, ..s })
                &&& final(self).this_round_skill matches Some(t) && t@ == skill_id@
                &&& forall|k: Seq<char>| k != skill_id@ ==> #[trigger] skill_state(*final(self), k) == skill_state(*old(self), k)
                &&& final(self).skills@.len() == old(self).skills@.len()
            },
            !r ==> *final(self) == *old(self),
            final(self).skills@ == after_use(old(self).skills@, skill_id@),
    {
        match find_key(&self.skills, skill_id) {
            Some(i) => {
                proof {
                    lemma_key_get_at(self.skills@, skill_id@, i as int);
                    assert forall|j: int| 0 <= j < self.skills@.len() && j != i implies self.skills@[j].skill_id@ != skill_id@ by {
                        if j < i {
                        } else {
                            assert(self.skills@[i as int].key_view() != self.skills@[j].key_view());
                        }
                    }
                }
                if self.skills[i].current_cooldown == 0 {
                    let mut st = self.skills[i].clone();
                    st.use_skill();
                    let ghost before = self.skills@;
                    self.skills.set(i, st);
                    proof {
                        lemma_keyed_update(before, i as int, st);
                        lemma_key_get_at(self.skills@, skill_id@, i as int);
                        assert(self.skills@ =~= after_use(before, skill_id@));
                    }
                    self.this_round_skill = Some(string_of(skill_id));
                    true
                } else {
                    assert(self.skills@ =~= after_use(self.skills@, skill_id@));
                    false
                }
            },
            None => {
                proof {
                    lemma_key_get_none(self.skills@, skill_id@);
                    assert(self.skills@ =~= after_use(self.skills@, skill_id@));
                }
                false
            },
        }
    }

    /// The round ends: every cooldown drops by one and no skill is this
    /// round's any more.
    pub fn tick_all_cooldowns(&mut self)
        requires
            old(self).wf(),
        ensures
            final(self).wf(),
            ticked(old(self).skills@, final(self).skills@),
            final(self).this_round_skill is None,
    {
        let mut i: usize = 0;
        while i < self.skills.len()
            invariant
                i <= self.skills@.len(),
                self.skills@.len() == old(self).skills@.len(),
                forall|j: int| 0 <= j < self.skills@.len() ==> (#[trigger] self.skills@[j]).skill_id == old(self).skills@[j].skill_id,
                forall|j: int| 0 <= j < self.skills@.len() ==> (#[trigger] self.skills@[j]).base_cooldown == old(self).skills@[j].base_cooldown,
                forall|j: int| i <= j < self.skills@.len() ==> (#[trigger] self.skills@[j]).current_cooldown == old(self).skills@[j].current_cooldown,
                forall|j: int| 0 <= j < i ==> (#[trigger] self.skills@[j]).current_cooldown == (if old(self).skills@[j].current_cooldown > 0 { old(self).skills@[j].current_cooldown - 1 } else { 0 }),
            decreases self.skills.len() - i,
        {
            let mut st = self.skills[i].clone();
            st.tick_cooldown();
            self.skills.set(i, st);
            i = i + 1;
        }
        proof {
            assert forall|a: int, b: int| 0 <= a < b < self.skills@.len() implies self.skills@[a].key_view() != self.skills@[b].key_view() by {
                assert(self.skills@[a].skill_id == old(self).skills@[a].skill_id);
                assert(self.skills@[b].skill_id == old(self).skills@[b].skill_id);
            }
        }
        self.this_round_skill = None;
    }

    /// The ids of the ready skills, in the order the side holds them.
    pub fn get_available_skills(&self) -> (r: Vec<String>)
        ensures
            texts(r@) == ready_ids(self.skills@),
    {
        let mut r: Vec<String> = Vec::new();
        let mut i: usize = 0;
        while i < self.skills.len()
            invariant
                i <= self.skills@.len(),
                texts(r@) == ready_ids(self.skills@.take(i as int)),
            decreases self.skills.len() - i,
        {
            assert(self.skills@.take(i as int + 1).drop_last() == self.skills@.take(i as int));
            if self.skills[i].current_cooldown == 0 {
                r.push(self.skills[i].skill_id.clone());
            }
            assert(texts(r@) =~= ready_ids(self.skills@.take(i as int + 1)));
            i = i + 1;
        }
        assert(self.skills@.take(self.skills@.len() as int) == self.skills@);
        r
    }

    /// Each skill with its current and its full cooldown.
    pub fn get_skills_info(&self) -> (r: Vec<(String, u32, u32)>)
        ensures
            r@.len() == self.skills@.len(),
            forall|i: int| 0 <= i < r@.len() ==> {
                &&& (#[trigger] r@[i]).0 == self.skills@[i].skill_id
                &&& r@[i].1 == self.skills@[i].current_cooldown
                &&& r@[i].2 == self.skills@[i].base_cooldown
            },
    {
        let mut r: Vec<(String, u32, u32)> = Vec::new();
        let mut i: usize = 0;
        while i < self.skills.len()
            invariant
                i <= self.skills@.len(),
                r@.len() == i,
                forall|j: int| 0 <= j < i ==> {
                    &&& (#[trigger] r@[j]).0 == self.skills@[j].skill_id
                    &&& r@[j].1 == self.skills@[j].current_cooldown
                    &&& r@[j].2 == self.skills@[j].base_cooldown
                },
            decreases self.skills.len() - i,
        {
            let s = &self.skills[i];
            r.push((s.skill_id.clone(), s.current_cooldown, s.base_cooldown));
            i = i + 1;
        }
        r
    }
}

/// The skills after `id` was used, if it was ready: its full cooldown starts.
pub open spec fn after_use(s: Seq<BattleSkillState>, id: Seq<char>) -> Seq<BattleSkillState> {
    s.map_values(|x: BattleSkillState| if x.skill_id@ == id && x.current_cooldown == 0 {
        BattleSkillState { current_cooldown: x.base_cooldown, ..x }
    } else {
        x
    })
}

/// The texts of a list of strings.
pub open spec fn texts(v: Seq<String>) -> Seq<Seq<char>> {
    v.map_values(|x: String| x@)
}

/// The ids of the ready skills of `s`, in order.
pub open spec fn ready_ids(s: Seq<BattleSkillState>) -> Seq<Seq<char>>
    decreases s.len(),
{
    if s.len() == 0 {
        seq![]
    } else {
        let rest = ready_ids(s.drop_last());
        if s.last().current_cooldown == 0 {
            rest.push(s.last().skill_id@)
        } else {
            rest
        }
    }
}

/// What the skill registry says of a skill that fights need: its display
/// name and the inner force a use costs.
#[derive(Debug)]
pub struct SkillCard {
    pub skill_id: String,
    pub name_cn: String,
    pub qi_cost: u32,
}

impl Keyed for SkillCard {
    open spec fn key_view(&self) -> Seq<char> {
        self.skill_id@
    }

    fn key(&self) -> (r: &String) {
        &self.skill_id
    }
}

/// The skill registry as fights read it. Costs fit in an `i32`.
#[derive(Debug)]
pub struct SkillBook {
    pub cards: Vec<SkillCard>,
}

/// The registry's card for skill `id`, if any.
pub open spec fn card_of(book: SkillBook, id: Seq<char>) -> Option<SkillCard> {
    key_get(book.cards@, id)
}

impl SkillBook {
    /// Every cost fits in an `i32`.
    pub open spec fn wf(&self) -> bool {
        forall|i: int| 0 <= i < self.cards@.len() ==> (#[trigger] self.cards@[i]).qi_cost <= i32::MAX
    }

    /// The card of skill `skill_id`, if the registry has one.
    pub fn get_skill(&self, skill_id: &str) -> (r: Option<&SkillCard>)
        ensures
            r matches Some(c) ==> card_of(*self, skill_id@) == Some(*c),
            r is None <==> card_of(*self, skill_id@) is None,
    {
        get_key(&self.cards, skill_id)
    }
}

/// The cost of a card of a well-formed registry fits in an `i32`.
proof fn lemma_card_cost(book: SkillBook, id: Seq<char>)
    requires
        book.wf(),
    ensures
        card_of(book, id) matches Some(c) ==> c.qi_cost <= i32::MAX,
{
    crate::util::lemma_key_get_in(book.cards@, id);
}

/// A blow as chance decided it: the damage and the text that tells it.
#[derive(Debug)]
pub struct Strike {
    pub damage: i32,
    pub effect_desc: String,
}

/// The skill a player picked for the next round.
#[derive(Debug)]
pub struct PendingSkill {
    pub player_id: String,
    pub skill_id: String,
}

impl Clone for PendingSkill {
    fn clone(&self) -> (r: Self)
        ensures
            r == *self,
    {
        PendingSkill { player_id: self.player_id.clone(), skill_id: self.skill_id.clone() }
    }
}

impl Keyed for PendingSkill {
    open spec fn key_view(&self) -> Seq<char> {
        self.player_id@
    }

    fn key(&self) -> (r: &String) {
        &self.player_id
    }
}

/// The id of the plain attack every fighter has.
pub open spec fn basic_attack() -> Seq<char> {
    "skill_basic_attack"@
}

/// The skills, with their cooldowns, a fighter of level `level` starts a
/// fight with: the plain attack and the power strike, then the quick strike
/// from level 2, the defence stance from 5, healing from 10, the whirlwind
/// from 15 and the critical strike from 20.
pub open spec fn starting_skills(level: u32) -> Seq<(Seq<char>, u32)> {
    let s0 = seq![(basic_attack(), 0u32), ("skill_power_strike"@, 3u32)];
    let s1 = if level >= 2 { s0.push(("skill_quick_strike"@, 2u32)) } else { s0 };
    let s2 = if level >= 5 { s1.push(("skill_defense"@, 4u32)) } else { s1 };
    let s3 = if level >= 10 { s2.push(("skill_heal"@, 5u32)) } else { s2 };
    let s4 = if level >= 15 { s3.push(("skill_whirlwind"@, 4u32)) } else { s3 };
    if level >= 20 { s4.push(("skill_critical_strike"@, 5u32)) } else { s4 }
}

/// The ids and full cooldowns of a list of skills.
pub open spec fn skill_rows(s: Seq<BattleSkillState>) -> Seq<(Seq<char>, u32)> {
    s.map_values(|x: BattleSkillState| (x.skill_id@, x.base_cooldown))
}

/// Every skill of the list is ready.
pub open spec fn all_ready(s: Seq<BattleSkillState>) -> bool {
    forall|i: int| 0 <= i < s.len() ==> (#[trigger] s[i]).current_cooldown == 0
}

/// A fight's skills for a fighter of level `level` (see `starting_skills`).
fn starting_fighter_skills(level: u32) -> (r: FighterSkills)
    ensures
        r.wf(),
        skill_rows(r.skills@) == starting_skills(level),
        all_ready(r.skills@),
        r.this_round_skill is None,
{
    let mut r = FighterSkills::new();
    r.skills.push(BattleSkillState::new(string_of("skill_basic_attack"), 0));
    assert(skill_rows(r.skills@) =~= seq![(basic_attack(), 0u32)]);
    PkBattle::add_skills_for_level(&mut r, level);
    r
}

/// Appending a skill whose id differs from every id held at position 6
/// keeps the ids distinct.
proof fn lemma_push_fresh(s: Seq<BattleSkillState>, x: BattleSkillState, used: Set<char>)
    requires
        keys_unique(s),
        forall|k: int| 0 <= k < s.len() ==> (#[trigger] s[k]).skill_id@.len() > 6 && used.contains(s[k].skill_id@[6]),
        x.skill_id@.len() > 6,
        !used.contains(x.skill_id@[6]),
    ensures
        keys_unique(s.push(x)),
        forall|k: int| 0 <= k < s.len() + 1 ==> (#[trigger] s.push(x)[k]).skill_id@.len() > 6
            && used.insert(x.skill_id@[6]).contains(s.push(x)[k].skill_id@[6]),
{
    let t = s.push(x);
    assert forall|i: int, j: int| 0 <= i < j < t.len() implies t[i].key_view() != t[j].key_view() by {
        if j == s.len() {
            assert(t[i] == s[i]);
            assert(used.contains(s[i].skill_id@[6]));
        } else {
            assert(t[i] == s[i] && t[j] == s[j]);
        }
    }
    assert forall|k: int| 0 <= k < s.len() + 1 implies (#[trigger] t[k]).skill_id@.len() > 6
        && used.insert(x.skill_id@[6]).contains(t[k].skill_id@[6]) by {
        if k < s.len() {
            assert(t[k] == s[k]);
        }
    }
}

/// The battle id of a fight between `c` and `d`: `pk_<c>_<d>`.
pub open spec fn battle_id_for(c: Seq<char>, d: Seq<char>) -> Seq<char> {
    "pk_"@ + c + "_"@ + d
}

/// An id with a `/` in it names an NPC.
pub open spec fn npc_id(id: Seq<char>) -> bool {
    seq_contains(id, "/"@)
}

/// `b` is a fight just started at `now` between `c` and `d` in `room`:
/// round 0, fighting, both sides with the skills of their level (see
/// `starting_skills`), nothing picked.
pub open spec fn fresh_battle(b: PkBattle, c: CombatStats, d: CombatStats, room: String, now: i64) -> bool {
    &&& b.battle_id@ == battle_id_for(c.id@, d.id@)
    &&& b.challenger == c && b.defender == d && b.room_id == room
    &&& b.round == 0 && b.total_damage_dealt == 0 && b.total_damage_taken == 0
    &&& b.start_time == now && b.last_round_time == now
    &&& b.status == CombatStatus::Fighting
    &&& b.combat_log@.len() == 0 && b.pending_skills@.len() == 0
    &&& skill_rows(b.challenger_skills.skills@) == starting_skills(c.level as u32)
    &&& skill_rows(b.defender_skills.skills@) == starting_skills(d.level as u32)
    &&& all_ready(b.challenger_skills.skills@) && all_ready(b.defender_skills.skills@)
    &&& b.challenger_skills.this_round_skill is None && b.defender_skills.this_round_skill is None
}

/// A fight between a challenger and a defender.
#[derive(Debug)]
pub struct PkBattle {
    pub battle_id: String,
    pub challenger: CombatStats,
    pub defender: CombatStats,
    pub round: u32,
    pub total_damage_dealt: i32,
    pub total_damage_taken: i32,
    pub start_time: i64,
    pub status: CombatStatus,
    pub combat_log: Vec<String>,
    pub challenger_skills: FighterSkills,
    pub defender_skills: FighterSkills,
    pub pending_skills: Vec<PendingSkill>,
    pub last_round_time: i64,
    pub room_id: String,
}

/// Two fighters' skill lists hold the same data.
pub open spec fn same_skills(a: FighterSkills, b: FighterSkills) -> bool {
    a.skills@ == b.skills@ && a.this_round_skill == b.this_round_skill
}

/// Two fights hold the same data.
pub open spec fn same_battle(a: PkBattle, b: PkBattle) -> bool {
    &&& a.battle_id == b.battle_id && a.challenger == b.challenger && a.defender == b.defender
    &&& a.round == b.round && a.total_damage_dealt == b.total_damage_dealt && a.total_damage_taken == b.total_damage_taken
    &&& a.start_time == b.start_time && a.status == b.status && a.combat_log@ == b.combat_log@
    &&& same_skills(a.challenger_skills, b.challenger_skills) && same_skills(a.defender_skills, b.defender_skills)
    &&& a.pending_skills@ == b.pending_skills@ && a.last_round_time == b.last_round_time && a.room_id == b.room_id
}

impl Clone for FighterSkills {
    fn clone(&self) -> (r: Self)
        ensures
            same_skills(r, *self),
    {
        let skills = self.skills.clone();
        proof {
            assert forall|i: int| 0 <= i < skills@.len() implies skills@[i] == self.skills@[i] by {
                assert(cloned::<BattleSkillState>(self.skills[i], skills[i]));
            }
            assert(skills@ =~= self.skills@);
        }
        FighterSkills { skills, this_round_skill: self.this_round_skill.clone() }
    }
}

impl Clone for PkBattle {
    fn clone(&self) -> (r: Self)
        ensures
            same_battle(r, *self),
    {
        let combat_log = self.combat_log.clone();
        let pending_skills = self.pending_skills.clone();
        proof {
            assert forall|i: int| 0 <= i < combat_log@.len() implies combat_log@[i] == self.combat_log@[i] by {
                assert(cloned::<String>(self.combat_log[i], combat_log[i]));
            }
            assert(combat_log@ =~= self.combat_log@);
            assert forall|i: int| 0 <= i < pending_skills@.len() implies pending_skills@[i] == self.pending_skills@[i] by {
                assert(cloned::<PendingSkill>(self.pending_skills[i], pending_skills[i]));
            }
            assert(pending_skills@ =~= self.pending_skills@);
        }
        PkBattle {
            battle_id: self.battle_id.clone(),
            challenger: self.challenger.clone(),
            defender: self.defender.clone(),
            round: self.round,
            total_damage_dealt: self.total_damage_dealt,
            total_damage_taken: self.total_damage_taken,
            start_time: self.start_time,
            status: self.status,
            combat_log,
            challenger_skills: self.challenger_skills.clone(),
            defender_skills: self.defender_skills.clone(),
            pending_skills,
            last_round_time: self.last_round_time,
            room_id: self.room_id.clone(),
        }
    }
}

impl Keyed for PkBattle {
    open spec fn key_view(&self) -> Seq<char> {
        self.battle_id@
    }

    fn key(&self) -> (r: &String) {
        &self.battle_id
    }
}

/// The skills of participant `id`: the challenger's if `id` is the
/// challenger, else the defender's if `id` is the defender.
pub open spec fn skills_of(b: PkBattle, id: Seq<char>) -> Option<FighterSkills> {
    if id == b.challenger.id@ {
        Some(b.challenger_skills)
    } else if id == b.defender.id@ {
        Some(b.defender_skills)
    } else {
        None
    }
}

/// The inner force of participant `id` (the defender's for anyone but the
/// challenger).
pub open spec fn qi_of(b: PkBattle, id: Seq<char>) -> i32 {
    if id == b.challenger.id@ { b.challenger.qi } else { b.defender.qi }
}

/// The skill `id` picked for the next round, or the plain attack.
pub open spec fn planned_skill_of(b: PkBattle, id: Seq<char>) -> Seq<char> {
    match key_get(b.pending_skills@, id) {
        Some(p) => p.skill_id@,
        None => basic_attack(),
    }
}

/// Why `player` may not pick `skill`, if it may not: it does not take part;
/// the skill is unknown to it or cooling down; the registry's cost exceeds
/// its force.
pub open spec fn select_refusal(b: PkBattle, book: SkillBook, player: Seq<char>, skill: Seq<char>) -> Option<Seq<char>> {
    match skills_of(b, player) {
        None => Some("你不是战斗参与者！"@),
        Some(f) => if !skill_ready(f, skill) {
            Some("技能不可用或正在冷却中！"@)
        } else if qi_short(b, book, player, skill) {
            Some("内力不足！需要 "@ + nat_digits(card_cost(book, skill)))
        } else {
            None
        },
    }
}

/// The side of NPC `npc`: the challenger's if it is the challenger, else
/// the defender's.
pub open spec fn npc_side(b: PkBattle, npc: Seq<char>) -> FighterSkills {
    if npc == b.challenger.id@ { b.challenger_skills } else { b.defender_skills }
}

/// The registry's cost of skill `id` (0 when it has no card).
pub open spec fn card_cost(book: SkillBook, id: Seq<char>) -> nat {
    match card_of(book, id) {
        Some(c) => c.qi_cost as nat,
        None => 0,
    }
}

/// The registry has a card for `skill` whose cost exceeds `player`'s force.
pub open spec fn qi_short(b: PkBattle, book: SkillBook, player: Seq<char>, skill: Seq<char>) -> bool {
    card_of(book, skill) is Some && qi_of(b, player) < card_cost(book, skill)
}

/// The ready skills other than the plain attack, in order.
pub open spec fn special_ids(ids: Seq<Seq<char>>) -> Seq<Seq<char>>
    decreases ids.len(),
{
    if ids.len() == 0 {
        seq![]
    } else {
        let rest = special_ids(ids.drop_last());
        if ids.last() != basic_attack() { rest.push(ids.last()) } else { rest }
    }
}

/// The skill an NPC picks from its ready skills `ids`: the plain attack,
/// unless `special` came up, more than one skill is ready and some are not
/// the plain attack; then the one at `pick` modulo their count.
pub open spec fn npc_choice(ids: Seq<Seq<char>>, special: bool, pick: nat) -> Seq<char> {
    let sp = special_ids(ids);
    if ids.len() == 0 {
        basic_attack()
    } else if special && ids.len() > 1 && sp.len() > 0 {
        sp[(pick % sp.len()) as int]
    } else {
        basic_attack()
    }
}

/// The ids other than the plain attack, kept in order.
fn specials_of(ids: &Vec<String>) -> (r: Vec<String>)
    ensures
        texts(r@) == special_ids(texts(ids@)),
{
    let ghost view = texts(ids@);
    let mut r: Vec<String> = Vec::new();
    let mut i: usize = 0;
    while i < ids.len()
        invariant
            i <= ids@.len(),
            view == texts(ids@),
            texts(r@) == special_ids(view.take(i as int)),
        decreases ids.len() - i,
    {
        assert(view.take(i as int + 1).drop_last() == view.take(i as int));
        assert(view.take(i as int + 1).last() == ids@[i as int]@);
        if !str_eq(ids[i].as_str(), "skill_basic_attack") {
            r.push(ids[i].clone());
        }
        assert(texts(r@) =~= special_ids(view.take(i as int + 1)));
        i = i + 1;
    }
    assert(view.take(view.len() as int) == view);
    r
}

impl PkBattle {
    /// Skill ids are distinct on each side and each player has at most one
    /// picked skill.
    pub open spec fn wf(&self) -> bool {
        &&& self.challenger_skills.wf()
        &&& self.defender_skills.wf()
        &&& keys_unique(self.pending_skills@)
    }

    /// A fight that starts at time `now`: round 0, fighting, both sides with
    /// the skills of their level (see `starting_skills`), nothing picked.
    pub fn new_at(challenger: CombatStats, defender: CombatStats, room_id: String, now: i64) -> (r: Self)
        ensures
            pk_battle_new_done(challenger, defender, room_id, now, r),
    {
        let mut battle_id = string_of("pk_");
        push_str(&mut battle_id, challenger.id.as_str());
        push_str(&mut battle_id, "_");
        push_str(&mut battle_id, defender.id.as_str());
        let challenger_skills = starting_fighter_skills(challenger.level as u32);
        let defender_skills = starting_fighter_skills(defender.level as u32);
        PkBattle {
            battle_id,
            challenger,
            defender,
            round: 0,
            total_damage_dealt: 0,
            total_damage_taken: 0,
            start_time: now,
            status: CombatStatus::Fighting,
            combat_log: Vec::new(),
            challenger_skills,
            defender_skills,
            pending_skills: Vec::new(),
            last_round_time: now,
            room_id,
        }
    }

    /// A fight that starts now (see `new_at`).
    pub fn new(challenger: CombatStats, defender: CombatStats, room_id: String) -> (r: Self)
        ensures
            exists|now: i64| #[trigger] pk_battle_new_done(challenger, defender, room_id, now, r),
            r.wf(),
            r.battle_id@ == battle_id_for(challenger.id@, defender.id@),
            r.challenger == challenger && r.defender == defender && r.room_id == room_id,
            r.round == 0 && r.total_damage_dealt == 0 && r.total_damage_taken == 0,
            r.start_time == r.last_round_time,
            r.status == CombatStatus::Fighting,
            r.combat_log@.len() == 0 && r.pending_skills@.len() == 0,
            skill_rows(r.challenger_skills.skills@) == starting_skills(challenger.level as u32),
            skill_rows(r.defender_skills.skills@) == starting_skills(defender.level as u32),
            all_ready(r.challenger_skills.skills@) && all_ready(r.defender_skills.skills@),
    {
        let now = current_timestamp();
        Self::new_at(challenger, defender, room_id, now)
    }

    /// Whether `id` names an NPC (it holds a `/`).
    pub fn is_npc(id: &str) -> (r: bool)
        ensures
            r == npc_id(id@),
    {
        str_contains(id, "/")
    }

    /// Whether either side is an NPC.
    pub fn has_npc(&self) -> (r: bool)
        ensures
            r == (npc_id(self.challenger.id@) || npc_id(self.defender.id@)),
    {
        Self::is_npc(self.challenger.id.as_str()) || Self::is_npc(self.defender.id.as_str())
    }

    /// The id of the NPC side, the challenger's first.
    pub fn get_npc_id(&self) -> (r: Option<String>)
        ensures
            npc_id(self.challenger.id@) ==> r == Some(self.challenger.id),
            !npc_id(self.challenger.id@) && npc_id(self.defender.id@) ==> r == Some(self.defender.id),
            !npc_id(self.challenger.id@) && !npc_id(self.defender.id@) ==> r is None,
    {
        if Self::is_npc(self.challenger.id.as_str()) {
            Some(self.challenger.id.clone())
        } else if Self::is_npc(self.defender.id.as_str()) {
            Some(self.defender.id.clone())
        } else {
            None
        }
    }

    /// Whether the next round should run by itself at time `now`: an NPC
    /// takes part, the fight goes on, and 2 seconds have passed since the
    /// last round.
    pub fn should_auto_execute_at(&self, now: i64) -> (r: bool)
        ensures
            should_auto_execute_done(*self, now, r),
    {
        if !self.has_npc() {
            return false;
        }
        if self.status != CombatStatus::Fighting {
            return false;
        }
        (now as i128) - (self.last_round_time as i128) >= 2
    }

    /// Whether the next round should run by itself now (see
    /// `should_auto_execute_at`).
    pub fn should_auto_execute(&self) -> (r: bool)
        ensures
            exists|now: i64| #[trigger] should_auto_execute_done(*self, now, r),
            r ==> (npc_id(self.challenger.id@) || npc_id(self.defender.id@)) && self.status == CombatStatus::Fighting,
    {
        let now = current_timestamp();
        self.should_auto_execute_at(now)
    }

    /// The skill NPC `npc_id` picks (see `npc_choice`), its side being the
    /// challenger's if `npc_id` is the challenger, else the defender's.
    pub fn npc_select_skill_with(&self, npc_id: &str, special: bool, pick: usize) -> (r: String)
        ensures
            r@ == npc_choice(
                ready_ids(npc_side(*self, npc_id@).skills@),
                special,
                pick as nat,
            ),
    {
        let skills = if str_eq(npc_id, self.challenger.id.as_str()) { &self.challenger_skills } else { &self.defender_skills };
        let available = skills.get_available_skills();
        let ghost ids = texts(available@);
        if available.len() == 0 {
            return string_of("skill_basic_attack");
        }
        if special && available.len() > 1 {
            let specials = specials_of(&available);
            if specials.len() > 0 {
                let k = pick % specials.len();
                let r = specials[k].clone();
                assert(r@ == texts(specials@)[k as int]);
                return r;
            }
        }
        string_of("skill_basic_attack")
    }

    /// The skill NPC `npc_id` picks: with odds of 3 in 10 a random one of its
    /// ready skills other than the plain attack, if more than one skill is
    /// ready; else the plain attack.
    pub fn npc_select_skill(&self, npc_id: &str) -> (r: String)
        ensures
            exists|special: bool, pick: nat| r@ == #[trigger] npc_choice(
                ready_ids(npc_side(*self, npc_id@).skills@),
                special,
                pick,
            ),
    {
        let special = random_ratio(3, 10);
        let pick = random_usize();
        let r = self.npc_select_skill_with(npc_id, special, pick);
        assert(r@ == npc_choice(
            ready_ids(npc_side(*self, npc_id@).skills@),
            special,
            pick as nat,
        ));
        r
    }

    /// Adds the skills of level `level` after the plain attack.
    fn add_skills_for_level(skills: &mut FighterSkills, level: u32)
        requires
            skill_rows(old(skills).skills@) == seq![(basic_attack(), 0u32)],
            all_ready(old(skills).skills@),
            old(skills).this_round_skill is None,
        ensures
            final(skills).wf(),
            skill_rows(final(skills).skills@) == starting_skills(level),
            all_ready(final(skills).skills@),
            final(skills).this_round_skill is None,
    {
        proof {
            reveal_strlit("skill_basic_attack");
            reveal_strlit("skill_power_strike");
            reveal_strlit("skill_quick_strike");
            reveal_strlit("skill_defense");
            reveal_strlit("skill_heal");
            reveal_strlit("skill_whirlwind");
            reveal_strlit("skill_critical_strike");
            let s0 = skills.skills@;
            assert(skill_rows(s0).len() == 1);
            assert(s0.len() == 1);
            assert(skill_rows(s0)[0] == (s0[0].skill_id@, s0[0].base_cooldown));
            assert(s0[0].skill_id@ == basic_attack());
            assert(keys_unique(s0));
        }
        let ghost mut used: Set<char> = set!['b'];
        let ghost mut rows = seq![(basic_attack(), 0u32)];
        let x = BattleSkillState::new(string_of("skill_power_strike"), 3);
        proof {
            lemma_push_fresh(skills.skills@, x, used);
            used = used.insert('p');
            rows = rows.push(("skill_power_strike"@, 3u32));
        }
        skills.skills.push(x);
        assert(skill_rows(skills.skills@) =~= rows);
        if level >= 2 {
            let x = BattleSkillState::new(string_of("skill_quick_strike"), 2);
            proof {
                lemma_push_fresh(skills.skills@, x, used);
                used = used.insert('q');
                rows = rows.push(("skill_quick_strike"@, 2u32));
            }
            skills.skills.push(x);
            assert(skill_rows(skills.skills@) =~= rows);
        }
        if level >= 5 {
            let x = BattleSkillState::new(string_of("skill_defense"), 4);
            proof {
                lemma_push_fresh(skills.skills@, x, used);
                used = used.insert('d');
                rows = rows.push(("skill_defense"@, 4u32));
            }
            skills.skills.push(x);
            assert(skill_rows(skills.skills@) =~= rows);
        }
        if level >= 10 {
            let x = BattleSkillState::new(string_of("skill_heal"), 5);
            proof {
                lemma_push_fresh(skills.skills@, x, used);
                used = used.insert('h');
                rows = rows.push(("skill_heal"@, 5u32));
            }
            skills.skills.push(x);
            assert(skill_rows(skills.skills@) =~= rows);
        }
        if level >= 15 {
            let x = BattleSkillState::new(string_of("skill_whirlwind"), 4);
            proof {
                lemma_push_fresh(skills.skills@, x, used);
                used = used.insert('w');
                rows = rows.push(("skill_whirlwind"@, 4u32));
            }
            skills.skills.push(x);
            assert(skill_rows(skills.skills@) =~= rows);
        }
        if level >= 20 {
            let x = BattleSkillState::new(string_of("skill_critical_strike"), 5);
            proof {
                lemma_push_fresh(skills.skills@, x, used);
                used = used.insert('c');
                rows = rows.push(("skill_critical_strike"@, 5u32));
            }
            skills.skills.push(x);
            assert(skill_rows(skills.skills@) =~= rows);
        }
        assert(rows =~= starting_skills(level));
    }

    /// The skills of participant `player_id`, to be changed in place: what
    /// is written through them becomes that side's skills, and nothing else
    /// changes.
    pub fn get_player_skills_mut(&mut self, player_id: &str) -> (r: Option<&mut FighterSkills>)
        ensures
            r is None <==> skills_of(*old(self), player_id@) is None,
            r is None ==> *final(self) == *old(self),
            r matches Some(x) ==> skills_of(*old(self), player_id@) == Some(*x)
                && *final(self) == if player_id@ == old(self).challenger.id@ {
                    PkBattle { challenger_skills: *final(x), ..*old(self) }
                } else {
                    PkBattle { defender_skills: *final(x), ..*old(self) }
                },
    {
        if str_eq(player_id, self.challenger.id.as_str()) {
            Some(&mut self.challenger_skills)
        } else if str_eq(player_id, self.defender.id.as_str()) {
            Some(&mut self.defender_skills)
        } else {
            None
        }
    }

    /// The skills of participant `player_id`.
    pub fn get_player_skills(&self, player_id: &str) -> (r: Option<&FighterSkills>)
        ensures
            r matches Some(f) ==> skills_of(*self, player_id@) == Some(*f),
            r is None <==> skills_of(*self, player_id@) is None,
    {
        if str_eq(player_id, self.challenger.id.as_str()) {
            Some(&self.challenger_skills)
        } else if str_eq(player_id, self.defender.id.as_str()) {
            Some(&self.defender_skills)
        } else {
            None
        }
    }

    /// The skill `player_id` will use next round: the one picked, or the
    /// plain attack.
    pub fn planned_skill(&self, player_id: &str) -> (r: String)
        ensures
            r@ == planned_skill_of(*self, player_id@),
    {
        match get_key(&self.pending_skills, player_id) {
            Some(p) => p.skill_id.clone(),
            None => string_of("skill_basic_attack"),
        }
    }

    /// Picks skill `skill_id` for `player_id`'s next round. Refused when the
    /// player does not take part, when the skill is unknown to the player or
    /// cooling down, and when the registry gives it a cost above the
    /// player's inner force.
    pub fn select_skill(&mut self, player_id: &str, skill_id: &str, book: &SkillBook) -> (r: Result<(), String>)
        requires
            old(self).wf(),
            book.wf(),
        ensures
            final(self).wf(),
            skills_of(*old(self), player_id@) is None ==> (r matches Err(e) && e@ == "你不是战斗参与者！"@),
            skills_of(*old(self), player_id@) matches Some(f) ==> {
                &&& !skill_ready(f, skill_id@) ==> (r matches Err(e) && e@ == "技能不可用或正在冷却中！"@)
                &&& skill_ready(f, skill_id@) && qi_short(*old(self), *book, player_id@, skill_id@)
                    ==> (r matches Err(e) && e@ == "内力不足！需要 "@ + nat_digits(card_cost(*book, skill_id@)))
                &&& skill_ready(f, skill_id@) && !qi_short(*old(self), *book, player_id@, skill_id@) ==> r is Ok
            },
            r is Ok ==> {
                &&& key_get(final(self).pending_skills@, player_id@) matches Some(p) && p.skill_id@ == skill_id@
                &&& forall|k: Seq<char>| k != player_id@ ==> #[trigger] key_get(final(self).pending_skills@, k) == key_get(old(self).pending_skills@, k)
                &&& final(self).pending_skills@.len() <= old(self).pending_skills@.len() + 1
            },
            select_refusal(*old(self), *book, player_id@, skill_id@) matches Some(t) ==> (r matches Err(e) && e@ == t),
            select_refusal(*old(self), *book, player_id@, skill_id@) is None ==> r is Ok,
            r is Err ==> final(self).pending_skills@ == old(self).pending_skills@,
            final(self).battle_id == old(self).battle_id && final(self).challenger == old(self).challenger,
            final(self).defender == old(self).defender && final(self).round == old(self).round,
            final(self).total_damage_dealt == old(self).total_damage_dealt && final(self).total_damage_taken == old(self).total_damage_taken,
            final(self).start_time == old(self).start_time && final(self).status == old(self).status,
            final(self).combat_log@ == old(self).combat_log@ && final(self).last_round_time == old(self).last_round_time,
            same_skills(final(self).challenger_skills, old(self).challenger_skills),
            same_skills(final(self).defender_skills, old(self).defender_skills),
            final(self).room_id == old(self).room_id,
    {
        let ready = match self.get_player_skills(player_id) {
            None => {
                return Err(string_of("你不是战斗参与者！"));
            },
            Some(f) => f.can_use_skill(skill_id),
        };
        if !ready {
            return Err(string_of("技能不可用或正在冷却中！"));
        }
        match book.get_skill(skill_id) {
            Some(c) => {
                proof {
                    lemma_card_cost(*book, skill_id@);
                }
                let qi = if str_eq(player_id, self.challenger.id.as_str()) { self.challenger.qi } else { self.defender.qi };
                if (qi as i64) < (c.qi_cost as i64) {
                    let mut e = string_of("内力不足！需要 ");
                    push_u64(&mut e, c.qi_cost as u64);
                    return Err(e);
                }
            },
            None => {},
        }
        put_key(&mut self.pending_skills, PendingSkill { player_id: string_of(player_id), skill_id: string_of(skill_id) });
        Ok(())
    }
}

/// The inner force left after paying for skill `id`: the registry's cost is
/// paid when it has a card for the skill and the force covers it.
pub open spec fn qi_after(qi: i32, book: SkillBook, id: Seq<char>) -> int {
    match card_of(book, id) {
        Some(c) => if qi >= c.qi_cost { qi - c.qi_cost } else { qi as int },
        None => qi as int,
    }
}

/// Hit points after a blow of `dmg`: lowered by it, not below 0, when it
/// is positive.
pub open spec fn hp_after(hp: i32, dmg: i32) -> int {
    if dmg > 0 {
        if hp - dmg > 0 { hp - dmg } else { 0 }
    } else {
        hp as int
    }
}

/// The text of a string option.
pub open spec fn opt_text(o: Option<String>) -> Option<Seq<char>> {
    match o {
        Some(s) => Some(s@),
        None => None,
    }
}

/// Who won once the hit points are `c_hp` and `d_hp`: nobody while both
/// live or when both fell, else the side still standing.
pub open spec fn round_winner(c_hp: int, d_hp: int, c_id: Seq<char>, d_id: Seq<char>) -> Option<Seq<char>> {
    if c_hp > 0 && d_hp > 0 {
        None
    } else if c_hp <= 0 && d_hp <= 0 {
        None
    } else if d_hp <= 0 {
        Some(c_id)
    } else {
        Some(d_id)
    }
}

/// The log line of a blow: the colour, the striker's name and the text of
/// the blow.
pub open spec fn blow_line(color: Seq<char>, name: Seq<char>, desc: Seq<char>) -> Seq<char> {
    color + name + "§N"@ + desc
}

/// The registry's cost paid, or not (see `qi_after`).
fn pay_qi(qi: i32, book: &SkillBook, skill_id: &str) -> (r: i32)
    requires
        book.wf(),
    ensures
        r == qi_after(qi, *book, skill_id@),
{
    match book.get_skill(skill_id) {
        Some(c) => {
            proof {
                lemma_card_cost(*book, skill_id@);
            }
            let cost = c.qi_cost as i32;
            if qi >= cost {
                qi - cost
            } else {
                qi
            }
        },
        None => qi,
    }
}

/// Hit points after a blow (see `hp_after`).
fn land_blow(hp: i32, dmg: i32) -> (r: i32)
    ensures
        r == hp_after(hp, dmg),
{
    if dmg > 0 {
        let left = (hp as i64) - (dmg as i64);
        if left > 0 {
            left as i32
        } else {
            0
        }
    } else {
        hp
    }
}

/// Appends copies of the lines of `src` to `dst`.
fn append_lines(dst: &mut Vec<String>, src: &Vec<String>)
    ensures
        final(dst)@ == old(dst)@ + src@,
{
    let mut i: usize = 0;
    while i < src.len()
        invariant
            i <= src@.len(),
            dst@ == old(dst)@ + src@.take(i as int),
        decreases src.len() - i,
    {
        dst.push(src[i].clone());
        assert(src@.take(i as int + 1) == src@.take(i as int).push(src@[i as int]));
        i = i + 1;
    }
    assert(src@.take(src@.len() as int) == src@);
}

/// Takes out the skill `id` picked, giving it, or the plain attack when it
/// picked none.
fn take_pending(v: &mut Vec<PendingSkill>, id: &str) -> (r: String)
    requires
        keys_unique(old(v)@),
    ensures
        r@ == (match key_get(old(v)@, id@) {
            Some(p) => p.skill_id@,
            None => basic_attack(),
        }),
        keys_unique(final(v)@),
        key_get(final(v)@, id@) is None,
        forall|o: Seq<char>| o != id@ ==> #[trigger] key_get(final(v)@, o) == key_get(old(v)@, o),
{
    let r = match get_key(v, id) {
        Some(p) => p.skill_id.clone(),
        None => string_of("skill_basic_attack"),
    };
    drop_key(v, id);
    r
}

/// `f` is the fight `o0` after a round played at time `now`, the blows
/// being `cs` and `ds`, with result `r` (see `PkBattle::execute_round_at`).
pub open spec fn round_played(o0: PkBattle, f: PkBattle, r: CombatRound, now: i64, book: SkillBook, cs: Strike, ds: Strike) -> bool {
    let o = o0;
        let c_id = o.challenger.id@;
        let d_id = o.defender.id@;
        let csid = planned_skill_of(o, c_id);
        let dsid = if d_id == c_id { basic_attack() } else { planned_skill_of(o, d_id) };
        let c_alive = o.challenger.hp > 0;
        let d_hp1 = if c_alive { hp_after(o.defender.hp, cs.damage) } else { o.defender.hp as int };
        let d_alive = d_hp1 > 0;
        let c_hp1 = if d_alive { hp_after(o.challenger.hp, ds.damage) } else { o.challenger.hp as int };
        let l1 = if c_alive { seq![blow_line("§Y"@, o.challenger.name_cn@, cs.effect_desc@)] } else { seq![] };
        let l2 = if d_alive { seq![blow_line("§R"@, o.defender.name_cn@, ds.effect_desc@)] } else { seq![] };
        let winner = round_winner(c_hp1, d_hp1, c_id, d_id);
        &&& f.round == o.round + 1 && r.round_number == f.round
        &&& f.last_round_time == now
        &&& key_get(f.pending_skills@, c_id) is None && key_get(f.pending_skills@, d_id) is None
        &&& forall|k: Seq<char>| k != c_id && k != d_id ==> #[trigger] key_get(f.pending_skills@, k) == key_get(o.pending_skills@, k)
        &&& f.challenger.qi == qi_after(o.challenger.qi, book, csid)
        &&& f.defender.qi == qi_after(o.defender.qi, book, dsid)
        &&& f.challenger.hp == c_hp1 && f.defender.hp == d_hp1
        &&& f.challenger == CombatStats { hp: f.challenger.hp, qi: f.challenger.qi, ..o.challenger }
        &&& f.defender == CombatStats { hp: f.defender.hp, qi: f.defender.qi, ..o.defender }
        &&& r.attacker_damage == (if c_alive { cs.damage } else { 0 })
        &&& r.defender_damage == (if d_alive { ds.damage } else { 0 })
        &&& f.total_damage_dealt == o.total_damage_dealt + (if c_alive && cs.damage > 0 { cs.damage } else { 0 })
        &&& f.total_damage_taken == o.total_damage_taken + (if d_alive && ds.damage > 0 { ds.damage } else { 0 })
        &&& r.attacker_hp == c_hp1 && r.defender_hp == d_hp1
        &&& ticked(if c_alive { after_use(o.challenger_skills.skills@, csid) } else { o.challenger_skills.skills@ },
            f.challenger_skills.skills@)
        &&& ticked(if d_alive { after_use(o.defender_skills.skills@, dsid) } else { o.defender_skills.skills@ },
            f.defender_skills.skills@)
        &&& f.challenger_skills.this_round_skill is None && f.defender_skills.this_round_skill is None
        &&& texts(r.log@) == l1 + l2
        &&& texts(f.combat_log@) == texts(o.combat_log@) + l1 + l2
        &&& opt_text(r.skill_used) == (if c_alive && csid != basic_attack() { Some(csid) } else { None })
        &&& opt_text(r.skill_effect) == (if c_alive && csid != basic_attack() { Some(cs.effect_desc@) } else { None })
        &&& r.ended == (c_hp1 <= 0 || d_hp1 <= 0)
        &&& opt_text(r.winner) == winner
        &&& f.status == (if winner is Some { CombatStatus::Dead } else { o.status })
        &&& f.battle_id == o.battle_id && f.start_time == o.start_time && f.room_id == o.room_id
    
}

impl PkBattle {
    /// Plays a round at time `now`, the blows being `cs` (the challenger's)
    /// and `ds` (the defender's): each side's picked skill (or the plain
    /// attack) is taken out of the picks and its cost paid (see `qi_after`);
    /// a living challenger strikes, and then a defender still alive strikes
    /// back (see `hp_after`); the skills used start their cooldowns, then
    /// every cooldown drops by one; with a winner the fight is over.
    pub fn execute_round_at(&mut self, now: i64, book: &SkillBook, cs: Strike, ds: Strike) -> (r: CombatRound)
        requires
            old(self).wf(),
            book.wf(),
            old(self).round < u32::MAX,
            cs.damage > 0 ==> old(self).total_damage_dealt + cs.damage <= i32::MAX,
            ds.damage > 0 ==> old(self).total_damage_taken + ds.damage <= i32::MAX,
        ensures
            execute_round_done(*old(self), *final(self), now, book, cs, ds, r),
    {
        let ghost o = *self;
        self.last_round_time = now;
        self.round = self.round + 1;
        let challenger_skill_id = take_pending(&mut self.pending_skills, self.challenger.id.as_str());
        let defender_skill_id = take_pending(&mut self.pending_skills, self.defender.id.as_str());
        proof {
            if o.defender.id@ == o.challenger.id@ {
                assert(key_get(self.pending_skills@, o.defender.id@) is None);
            }
        }
        self.challenger.qi = pay_qi(self.challenger.qi, book, challenger_skill_id.as_str());
        self.defender.qi = pay_qi(self.defender.qi, book, defender_skill_id.as_str());
        let mut attacker_damage: i32 = 0;
        let mut defender_damage: i32 = 0;
        let mut log: Vec<String> = Vec::new();
        let mut skill_used: Option<String> = None;
        let mut skill_effect: Option<String> = None;
        let c_alive = self.challenger.hp > 0;
        if c_alive {
            attacker_damage = cs.damage;
            if !str_eq(challenger_skill_id.as_str(), "skill_basic_attack") {
                skill_used = Some(challenger_skill_id.clone());
                skill_effect = Some(cs.effect_desc.clone());
            }
            let mut line = string_of("§Y");
            push_str(&mut line, self.challenger.name_cn.as_str());
            push_str(&mut line, "§N");
            push_str(&mut line, cs.effect_desc.as_str());
            log.push(line);
            if attacker_damage > 0 {
                self.defender.hp = land_blow(self.defender.hp, attacker_damage);
                self.total_damage_dealt = self.total_damage_dealt + attacker_damage;
            }
            self.challenger_skills.use_skill(challenger_skill_id.as_str());
        }
        let d_alive = self.defender.hp > 0;
        if d_alive {
            defender_damage = ds.damage;
            let mut line = string_of("§R");
            push_str(&mut line, self.defender.name_cn.as_str());
            push_str(&mut line, "§N");
            push_str(&mut line, ds.effect_desc.as_str());
            log.push(line);
            if defender_damage > 0 {
                self.challenger.hp = land_blow(self.challenger.hp, defender_damage);
                self.total_damage_taken = self.total_damage_taken + defender_damage;
            }
            self.defender_skills.use_skill(defender_skill_id.as_str());
        }
        self.challenger_skills.tick_all_cooldowns();
        self.defender_skills.tick_all_cooldowns();
        let c_up = self.challenger.hp > 0;
        let d_up = self.defender.hp > 0;
        let ended = !c_up || !d_up;
        let winner = if ended {
            if !c_up && !d_up {
                None
            } else if !d_up {
                Some(self.challenger.id.clone())
            } else {
                Some(self.defender.id.clone())
            }
        } else {
            None
        };
        if winner.is_some() {
            self.status = CombatStatus::Dead;
        }
        let ghost log0 = self.combat_log@;
        append_lines(&mut self.combat_log, &log);
        assert(texts(self.combat_log@) =~= texts(log0) + texts(log@));
        assert(texts(log@) =~= (if c_alive { seq![blow_line("§Y"@, o.challenger.name_cn@, cs.effect_desc@)] } else { seq![] })
            + (if d_alive { seq![blow_line("§R"@, o.defender.name_cn@, ds.effect_desc@)] } else { seq![] }));
        let r = CombatRound {
            round_number: self.round,
            attacker_damage,
            defender_damage,
            attacker_hp: self.challenger.hp,
            defender_hp: self.defender.hp,
            log,
            ended,
            winner,
            skill_used,
            skill_effect,
        };
        proof {
            let f = *self;
            let c_id = o.challenger.id@;
            let d_id = o.defender.id@;
            let csid = planned_skill_of(o, c_id);
            let dsid = if d_id == c_id { basic_attack() } else { planned_skill_of(o, d_id) };
            let d_hp1 = if c_alive { hp_after(o.defender.hp, cs.damage) } else { o.defender.hp as int };
            let c_hp1 = if d_alive { hp_after(o.challenger.hp, ds.damage) } else { o.challenger.hp as int };
            assert(f.challenger.qi == qi_after(o.challenger.qi, *book, csid));
            assert(f.defender.qi == qi_after(o.defender.qi, *book, dsid));
            assert(f.challenger.hp == c_hp1 && f.defender.hp == d_hp1);
            assert(f.challenger == CombatStats { hp: f.challenger.hp, qi: f.challenger.qi, ..o.challenger });
            assert(ticked(if c_alive { after_use(o.challenger_skills.skills@, csid) } else { o.challenger_skills.skills@ },
                    f.challenger_skills.skills@));
            assert(ticked(if d_alive { after_use(o.defender_skills.skills@, dsid) } else { o.defender_skills.skills@ },
                    f.defender_skills.skills@));
            assert(opt_text(r.winner) == round_winner(c_hp1, d_hp1, c_id, d_id));
            assert(opt_text(r.skill_used) == (if c_alive && csid != basic_attack() { Some(csid) } else { None }));
            assert(f.round == o.round + 1 && r.round_number == f.round);
            assert(key_get(f.pending_skills@, c_id) is None && key_get(f.pending_skills@, d_id) is None);
            assert(forall|k: Seq<char>| k != c_id && k != d_id ==> #[trigger] key_get(f.pending_skills@, k) == key_get(o.pending_skills@, k));
            assert(f.defender == CombatStats { hp: f.defender.hp, qi: f.defender.qi, ..o.defender });
            assert(r.attacker_damage == (if c_alive { cs.damage } else { 0 }));
            assert(r.defender_damage == (if d_alive { ds.damage } else { 0 }));
            let l1 = if c_alive { seq![blow_line("§Y"@, o.challenger.name_cn@, cs.effect_desc@)] } else { seq![] };
            let l2 = if d_alive { seq![blow_line("§R"@, o.defender.name_cn@, ds.effect_desc@)] } else { seq![] };
            assert(texts(r.log@) == l1 + l2);
            assert(texts(f.combat_log@) == texts(o.combat_log@) + l1 + l2);
            assert(r.ended == (c_hp1 <= 0 || d_hp1 <= 0));
            assert(f.status == (if round_winner(c_hp1, d_hp1, c_id, d_id) is Some { CombatStatus::Dead } else { o.status }));
            assert(opt_text(r.skill_effect) == (if c_alive && csid != basic_attack() { Some(cs.effect_desc@) } else { None }));
            assert(f.total_damage_dealt == o.total_damage_dealt + (if c_alive && cs.damage > 0 { cs.damage } else { 0 }));
            assert(f.total_damage_taken == o.total_damage_taken + (if d_alive && ds.damage > 0 { ds.damage } else { 0 }));
        }
        r
    }
}

impl PkBattle {
    /// Plays a round now (see `execute_round_at`).
    pub fn execute_round(&mut self, book: &SkillBook, cs: Strike, ds: Strike) -> (r: CombatRound)
        requires
            old(self).wf(),
            book.wf(),
            old(self).round < u32::MAX,
            cs.damage > 0 ==> old(self).total_damage_dealt + cs.damage <= i32::MAX,
            ds.damage > 0 ==> old(self).total_damage_taken + ds.damage <= i32::MAX,
        ensures
            exists|now: i64| #[trigger] execute_round_done(*old(self), *final(self), now, book, cs, ds, r),
            final(self).wf(),
            round_played(*old(self), *final(self), r, final(self).last_round_time, *book, cs, ds),
    {
        let now = current_timestamp();
        self.execute_round_at(now, book, cs, ds)
    }
}

/// The colour of a health bar at `pct` percent: green above 50, yellow
/// above 20, else red.
pub open spec fn hp_color(pct: int) -> Seq<char> {
    if pct > 50 { "§G"@ } else if pct > 20 { "§Y"@ } else { "§R"@ }
}

/// A fighter's name line: `<head> <name> (Lv.<level>)`.
pub open spec fn fighter_head(head: Seq<char>, f: CombatStats) -> Seq<char> {
    head + f.name_cn@ + " (Lv."@ + int_digits(f.level as int) + ")\n"@
}

/// A fighter's health: `<colour><hp>/<hp_max>§N`.
pub open spec fn fighter_hp(f: CombatStats) -> Seq<char> {
    hp_color(percent_of(f.hp as int, f.hp_max as int)) + int_digits(f.hp as int) + "/"@ + int_digits(f.hp_max as int) + "§N"@
}

/// A fighter's inner force: `<qi>/<qi_max>`.
pub open spec fn fighter_qi(f: CombatStats) -> Seq<char> {
    int_digits(f.qi as int) + "/"@ + int_digits(f.qi_max as int)
}

/// Both sides, each with its health and its force on its own line.
pub open spec fn sides_long(b: PkBattle) -> Seq<char> {
    fighter_head("§Y【挑战者】§N "@, b.challenger) + "§Y生命: "@ + fighter_hp(b.challenger) + "\n"@
        + "§Y内力: "@ + fighter_qi(b.challenger) + "\n"@
        + fighter_head("\n§R【防守者】§N "@, b.defender) + "§R生命: "@ + fighter_hp(b.defender) + "\n"@
        + "§R内力: "@ + fighter_qi(b.defender) + "\n"@
}

/// Both sides, health and force on one line each.
pub open spec fn sides_short(b: PkBattle) -> Seq<char> {
    fighter_head("§Y【挑战者】§N "@, b.challenger) + "§Y生命: "@ + fighter_hp(b.challenger) + " 内力: "@ + fighter_qi(b.challenger) + "\n"@
        + fighter_head("\n§R【防守者】§N "@, b.defender) + "§R生命: "@ + fighter_hp(b.defender) + " 内力: "@ + fighter_qi(b.defender) + "\n"@
}

/// The round line.
pub open spec fn round_line(b: PkBattle) -> Seq<char> {
    "§Y回合: "@ + nat_digits(b.round as nat) + "§N\n\n"@
}

/// The health of both sides can be turned into a percentage.
pub open spec fn hp_in_range(b: PkBattle) -> bool {
    -21474836 <= b.challenger.hp <= 21474836 && -21474836 <= b.defender.hp <= 21474836
}

/// The buttons of the fight view.
pub open spec fn fight_buttons() -> Seq<char> {
    "[查看技能:skills] [继续战斗:pk continue] [逃跑:escape] [投降:surrender]\n\n"@
}

/// The line about `player`'s pick: its name if the registry knows it,
/// nothing if not, and a note when no skill is picked.
pub open spec fn pick_line(b: PkBattle, book: SkillBook, player: Seq<char>) -> Seq<char> {
    match key_get(b.pending_skills@, player) {
        Some(p) => match card_of(book, p.skill_id@) {
            Some(c) => "§Y已选择技能: "@ + c.name_cn@ + "§N\n\n"@,
            None => seq![],
        },
        None => "§c未选择技能（使用普通攻击）§N\n\n"@,
    }
}

/// The lines of the cooling skills of `s` that the registry knows.
pub open spec fn cooling_lines(s: Seq<BattleSkillState>, book: SkillBook) -> Seq<char>
    decreases s.len(),
{
    if s.len() == 0 {
        seq![]
    } else {
        let x = s.last();
        let line = if x.current_cooldown > 0 {
            match card_of(book, x.skill_id@) {
                Some(c) => c.name_cn@ + " (冷却:"@ + nat_digits(x.current_cooldown as nat) + "回合)\n"@,
                None => seq![],
            }
        } else {
            seq![]
        };
        cooling_lines(s.drop_last(), book) + line
    }
}

/// Some skill of `s` is cooling down.
pub open spec fn any_cooling(s: Seq<BattleSkillState>) -> bool {
    exists|i: int| 0 <= i < s.len() && (#[trigger] s[i]).current_cooldown > 0
}

/// The cooling section: a heading and the lines, when anything cools.
pub open spec fn cooling_section(s: Seq<BattleSkillState>, book: SkillBook) -> Seq<char> {
    if any_cooling(s) { "\n§c【冷却中】§N\n"@ + cooling_lines(s, book) } else { seq![] }
}

/// The lines of a log, each followed by a line break.
pub open spec fn log_lines(l: Seq<Seq<char>>) -> Seq<char>
    decreases l.len(),
{
    if l.len() == 0 { seq![] } else { log_lines(l.drop_last()) + l.last() + "\n"@ }
}

/// The section of this round's log: nothing when the log is empty.
pub open spec fn log_section(l: Seq<Seq<char>>, effect: Option<Seq<char>>) -> Seq<char> {
    if l.len() == 0 {
        seq![]
    } else {
        "§H【本回合】§N\n"@ + log_lines(l) + (match effect {
            Some(e) => "\n§Y技能效果: "@ + e + "§N\n"@,
            None => seq![],
        }) + "\n"@
    }
}

/// The closing text at time `now`: a button back to the room, the winner
/// ("平局" when both fell, else the side still standing, the defender's
/// name otherwise), the rounds and the seconds since the start.
pub open spec fn result_text(b: PkBattle, now: int) -> Seq<char> {
    "[§Y返回房间§N:look]\n\n"@ + "§Y胜利者: "@
        + (if b.challenger.hp <= 0 && b.defender.hp <= 0 { "平局"@ }
           else if b.defender.hp <= 0 { b.challenger.name_cn@ } else { b.defender.name_cn@ })
        + "§N\n"@ + "战斗回合: "@ + nat_digits(b.round as nat) + "\n"@
        + "战斗时长: "@ + int_digits(now - b.start_time) + "秒\n"@
}

/// Appends `<head> <name> (Lv.<level>)`.
fn push_fighter_head(out: &mut String, head: &str, f: &CombatStats)
    ensures
        final(out)@ == old(out)@ + fighter_head(head@, *f),
{
    push_str(out, head);
    push_str(out, f.name_cn.as_str());
    push_str(out, " (Lv.");
    push_i64(out, f.level as i64);
    push_str(out, ")\n");
    assert(out@ =~= old(out)@ + fighter_head(head@, *f));
}

/// Appends a fighter's health.
fn push_fighter_hp(out: &mut String, f: &CombatStats)
    requires
        -21474836 <= f.hp <= 21474836,
    ensures
        final(out)@ == old(out)@ + fighter_hp(*f),
{
    let pct = f.hp_percent();
    if pct > 50 {
        push_str(out, "§G");
    } else if pct > 20 {
        push_str(out, "§Y");
    } else {
        push_str(out, "§R");
    }
    push_i64(out, f.hp as i64);
    push_str(out, "/");
    push_i64(out, f.hp_max as i64);
    push_str(out, "§N");
    assert(out@ =~= old(out)@ + fighter_hp(*f));
}

/// Appends a fighter's force.
fn push_fighter_qi(out: &mut String, f: &CombatStats)
    ensures
        final(out)@ == old(out)@ + fighter_qi(*f),
{
    push_i64(out, f.qi as i64);
    push_str(out, "/");
    push_i64(out, f.qi_max as i64);
    assert(out@ =~= old(out)@ + fighter_qi(*f));
}

/// Appends the cooling section of `skills`.
fn push_cooling(out: &mut String, skills: &FighterSkills, book: &SkillBook)
    ensures
        final(out)@ == old(out)@ + cooling_section(skills.skills@, *book),
{
    let s = &skills.skills;
    let mut any = false;
    let mut k: usize = 0;
    while k < s.len()
        invariant
            k <= s@.len(),
            any == exists|i: int| 0 <= i < k && (#[trigger] s@[i]).current_cooldown > 0,
        decreases s.len() - k,
    {
        if s[k].current_cooldown > 0 {
            any = true;
        }
        k = k + 1;
    }
    if !any {
        return;
    }
    push_str(out, "\n§c【冷却中】§N\n");
    let ghost start = out@;
    let mut i: usize = 0;
    while i < s.len()
        invariant
            i <= s@.len(),
            out@ == start + cooling_lines(s@.take(i as int), *book),
        decreases s.len() - i,
    {
        assert(s@.take(i as int + 1).drop_last() == s@.take(i as int));
        assert(s@.take(i as int + 1).last() == s@[i as int]);
        let x = &s[i];
        if x.current_cooldown > 0 {
            match book.get_skill(x.skill_id.as_str()) {
                Some(c) => {
                    push_str(out, c.name_cn.as_str());
                    push_str(out, " (冷却:");
                    push_u64(out, x.current_cooldown as u64);
                    push_str(out, "回合)\n");
                },
                None => {},
            }
        }
        assert(out@ =~= start + cooling_lines(s@.take(i as int + 1), *book));
        i = i + 1;
    }
    assert(s@.take(s@.len() as int) == s@);
}

/// Appends `player`'s pick line.
fn push_pick_line(out: &mut String, b: &PkBattle, book: &SkillBook, player_id: &str)
    ensures
        final(out)@ == old(out)@ + pick_line(*b, *book, player_id@),
{
    match get_key(&b.pending_skills, player_id) {
        Some(p) => {
            match book.get_skill(p.skill_id.as_str()) {
                Some(c) => {
                    push_str(out, "§Y已选择技能: ");
                    push_str(out, c.name_cn.as_str());
                    push_str(out, "§N\n\n");
                },
                None => {},
            }
        },
        None => {
            push_str(out, "§c未选择技能（使用普通攻击）§N\n\n");
        },
    }
    assert(out@ =~= old(out)@ + pick_line(*b, *book, player_id@));
}

/// Appends both sides, health and force on lines of their own.
fn push_sides_long(out: &mut String, b: &PkBattle)
    requires
        hp_in_range(*b),
    ensures
        final(out)@ == old(out)@ + sides_long(*b),
{
    push_fighter_head(out, "§Y【挑战者】§N ", &b.challenger);
    push_str(out, "§Y生命: ");
    push_fighter_hp(out, &b.challenger);
    push_str(out, "\n");
    push_str(out, "§Y内力: ");
    push_fighter_qi(out, &b.challenger);
    push_str(out, "\n");
    push_fighter_head(out, "\n§R【防守者】§N ", &b.defender);
    push_str(out, "§R生命: ");
    push_fighter_hp(out, &b.defender);
    push_str(out, "\n");
    push_str(out, "§R内力: ");
    push_fighter_qi(out, &b.defender);
    push_str(out, "\n");
    assert(out@ =~= old(out)@ + sides_long(*b));
}

/// Appends both sides, health and force on one line each.
fn push_sides_short(out: &mut String, b: &PkBattle)
    requires
        hp_in_range(*b),
    ensures
        final(out)@ == old(out)@ + sides_short(*b),
{
    push_fighter_head(out, "§Y【挑战者】§N ", &b.challenger);
    push_str(out, "§Y生命: ");
    push_fighter_hp(out, &b.challenger);
    push_str(out, " 内力: ");
    push_fighter_qi(out, &b.challenger);
    push_str(out, "\n");
    push_fighter_head(out, "\n§R【防守者】§N ", &b.defender);
    push_str(out, "§R生命: ");
    push_fighter_hp(out, &b.defender);
    push_str(out, " 内力: ");
    push_fighter_qi(out, &b.defender);
    push_str(out, "\n");
    assert(out@ =~= old(out)@ + sides_short(*b));
}

impl PkBattle {
    /// The closing text at time `now`: a button back to the room, the
    /// winner ("平局" when both fell, else the side still standing, the
    /// defender's name otherwise), the rounds and the seconds since the
    /// start.
    pub fn generate_result_at(&self, now: i64) -> (r: String)
        requires
            i64::MIN <= now - self.start_time <= i64::MAX,
        ensures
            r@ == result_text(*self, now as int),
    {
        let mut out = string_of("[§Y返回房间§N:look]\n\n");
        push_str(&mut out, "§Y胜利者: ");
        if !self.challenger.is_alive() && !self.defender.is_alive() {
            push_str(&mut out, "平局");
        } else if !self.defender.is_alive() {
            push_str(&mut out, self.challenger.name_cn.as_str());
        } else {
            push_str(&mut out, self.defender.name_cn.as_str());
        }
        push_str(&mut out, "§N\n");
        push_str(&mut out, "战斗回合: ");
        push_u64(&mut out, self.round as u64);
        push_str(&mut out, "\n");
        push_str(&mut out, "战斗时长: ");
        push_i64(&mut out, now - self.start_time);
        push_str(&mut out, "秒\n");
        assert(out@ =~= result_text(*self, now as int));
        out
    }

    /// The closing text now (see `generate_result_at`).
    pub fn generate_result(&self) -> (r: String)
        requires
            -9_000_000_000_000_000_000 <= self.start_time <= 9_000_000_000_000_000_000,
        ensures
            exists|now: int| r@ == #[trigger] result_text(*self, now),
    {
        let now = current_timestamp();
        let r = self.generate_result_at(now);
        assert(r@ == result_text(*self, now as int));
        r
    }

    /// The fight view: the buttons, the round, and both sides with health
    /// (coloured by its percentage) and force.
    pub fn generate_status(&self) -> (r: String)
        requires
            hp_in_range(*self),
        ensures
            r@ == "§H【操作】§N\n"@ + "[继续战斗:pk continue]\n"@ + "[§Y逃跑§N:escape]\n"@ + "[§Y投降§N:surrender]\n"@
                + "\n"@ + round_line(*self) + sides_long(*self),
    {
        let mut out = string_of("§H【操作】§N\n");
        push_str(&mut out, "[继续战斗:pk continue]\n");
        push_str(&mut out, "[§Y逃跑§N:escape]\n");
        push_str(&mut out, "[§Y投降§N:surrender]\n");
        push_str(&mut out, "\n");
        push_str(&mut out, "§Y回合: ");
        push_u64(&mut out, self.round as u64);
        push_str(&mut out, "§N\n\n");
        let ghost mid = out@;
        assert(mid =~= "§H【操作】§N\n"@ + "[继续战斗:pk continue]\n"@ + "[§Y逃跑§N:escape]\n"@ + "[§Y投降§N:surrender]\n"@
                + "\n"@ + round_line(*self));
        push_sides_long(&mut out, self);
        assert(out@ =~= mid + sides_long(*self));
        out
    }

    /// `player_id`'s fight view: the buttons, the pick line, the round,
    /// both sides, and the skills cooling down; a refusal for anyone not in
    /// the fight.
    pub fn generate_status_for_player(&self, player_id: &str, book: &SkillBook) -> (r: String)
        requires
            hp_in_range(*self),
        ensures
            skills_of(*self, player_id@) is None ==> r@ == "你不在战斗中！"@,
            skills_of(*self, player_id@) matches Some(f) ==> r@ == fight_buttons() + pick_line(*self, *book, player_id@)
                + round_line(*self) + sides_short(*self) + cooling_section(f.skills@, *book),
    {
        let skills = match self.get_player_skills(player_id) {
            Some(f) => f,
            None => {
                return string_of("你不在战斗中！");
            },
        };
        let mut out = string_of("[查看技能:skills] [继续战斗:pk continue] [逃跑:escape] [投降:surrender]\n\n");
        push_pick_line(&mut out, self, book, player_id);
        push_str(&mut out, "§Y回合: ");
        push_u64(&mut out, self.round as u64);
        push_str(&mut out, "§N\n\n");
        push_sides_short(&mut out, self);
        push_cooling(&mut out, skills, book);
        assert(out@ =~= fight_buttons() + pick_line(*self, *book, player_id@)
                + round_line(*self) + sides_short(*self) + cooling_section(skills.skills@, *book));
        out
    }

    /// `player_id`'s fight view with this round's log (and the effect of
    /// the skill used, if any) after the buttons; a refusal for anyone not
    /// in the fight.
    pub fn generate_status_with_log(&self, player_id: &str, combat_log: &Vec<String>, skill_effect: Option<&String>, book: &SkillBook) -> (r: String)
        requires
            hp_in_range(*self),
        ensures
            skills_of(*self, player_id@) is None ==> r@ == "你不在战斗中！"@,
            skills_of(*self, player_id@) matches Some(f) ==> r@ == fight_buttons()
                + log_section(texts(combat_log@), match skill_effect { Some(e) => Some(e@), None => None })
                + pick_line(*self, *book, player_id@)
                + round_line(*self) + sides_short(*self) + cooling_section(f.skills@, *book),
    {
        let skills = match self.get_player_skills(player_id) {
            Some(f) => f,
            None => {
                return string_of("你不在战斗中！");
            },
        };
        let mut out = string_of("[查看技能:skills] [继续战斗:pk continue] [逃跑:escape] [投降:surrender]\n\n");
        let ghost head = out@;
        if combat_log.len() > 0 {
            push_str(&mut out, "§H【本回合】§N\n");
            let ghost start = out@;
            let mut i: usize = 0;
            while i < combat_log.len()
                invariant
                    i <= combat_log@.len(),
                    out@ == start + log_lines(texts(combat_log@).take(i as int)),
                decreases combat_log.len() - i,
            {
                assert(texts(combat_log@).take(i as int + 1).drop_last() == texts(combat_log@).take(i as int));
                push_str(&mut out, combat_log[i].as_str());
                push_str(&mut out, "\n");
                assert(out@ =~= start + log_lines(texts(combat_log@).take(i as int + 1)));
                i = i + 1;
            }
            assert(texts(combat_log@).take(combat_log@.len() as int) == texts(combat_log@));
            match skill_effect {
                Some(e) => {
                    push_str(&mut out, "\n§Y技能效果: ");
                    push_str(&mut out, e.as_str());
                    push_str(&mut out, "§N\n");
                },
                None => {},
            }
            push_str(&mut out, "\n");
        }
        assert(out@ =~= head + log_section(texts(combat_log@), match skill_effect { Some(e) => Some(e@), None => None }));
        let ghost mid = out@;
        push_pick_line(&mut out, self, book, player_id);
        push_str(&mut out, "§Y回合: ");
        push_u64(&mut out, self.round as u64);
        push_str(&mut out, "§N\n\n");
        push_sides_short(&mut out, self);
        push_cooling(&mut out, skills, book);
        assert(out@ =~= mid + pick_line(*self, *book, player_id@)
                + round_line(*self) + sides_short(*self) + cooling_section(skills.skills@, *book));
        out
    }
}

/// The entry of a skill in the skills view of a fighter with force `qi`:
/// nothing for the plain attack or a skill the registry does not know; a
/// button when it is ready and affordable; else its name and why not.
pub open spec fn skill_entry(x: BattleSkillState, book: SkillBook, qi: i32) -> Seq<char> {
    if x.skill_id@ == basic_attack() {
        seq![]
    } else {
        match card_of(book, x.skill_id@) {
            Some(c) => if x.current_cooldown == 0 && qi >= c.qi_cost {
                "§Y["@ + c.name_cn@ + ":cast "@ + x.skill_id@ + "]§N\n"@
            } else {
                "§c"@ + c.name_cn@ + " "@ + (if x.current_cooldown != 0 {
                    "§c(冷却:"@ + nat_digits(x.current_cooldown as nat) + ")§N"@
                } else {
                    "§c(内力不足-需"@ + nat_digits(c.qi_cost as nat) + ")§N"@
                }) + "§N\n"@
            },
            None => seq![],
        }
    }
}

/// The entries of all skills of `s`, in order.
pub open spec fn skill_entries(s: Seq<BattleSkillState>, book: SkillBook, qi: i32) -> Seq<char>
    decreases s.len(),
{
    if s.len() == 0 { seq![] } else { skill_entries(s.drop_last(), book, qi) + skill_entry(s.last(), book, qi) }
}

/// The skills view of a fighter with skills `s` and force `qi`.
pub open spec fn skills_view(s: Seq<BattleSkillState>, book: SkillBook, qi: i32) -> Seq<char> {
    "§H【战斗技能】§N\n\n"@ + (if s.len() == 0 { "§c没有可用技能§N\n"@ } else { skill_entries(s, book, qi) })
        + "\n§H默认技能§N\n基础攻击 (无消耗)\n"@ + "[返回:look]\n"@
}

/// Appends a skill's entry (see `skill_entry`).
fn push_skill_entry(out: &mut String, x: &BattleSkillState, book: &SkillBook, qi: i32)
    requires
        book.wf(),
    ensures
        final(out)@ == old(out)@ + skill_entry(*x, *book, qi),
{
    if str_eq(x.skill_id.as_str(), "skill_basic_attack") {
        assert(out@ =~= old(out)@ + skill_entry(*x, *book, qi));
        return;
    }
    match book.get_skill(x.skill_id.as_str()) {
        Some(c) => {
            proof {
                lemma_card_cost(*book, x.skill_id@);
            }
            let ready = x.current_cooldown == 0;
            let affordable = (qi as i64) >= (c.qi_cost as i64);
            if ready && affordable {
                push_str(out, "§Y[");
                push_str(out, c.name_cn.as_str());
                push_str(out, ":cast ");
                push_str(out, x.skill_id.as_str());
                push_str(out, "]§N\n");
            } else {
                push_str(out, "§c");
                push_str(out, c.name_cn.as_str());
                push_str(out, " ");
                if !ready {
                    push_str(out, "§c(冷却:");
                    push_u64(out, x.current_cooldown as u64);
                    push_str(out, ")§N");
                } else {
                    push_str(out, "§c(内力不足-需");
                    push_u64(out, c.qi_cost as u64);
                    push_str(out, ")§N");
                }
                push_str(out, "§N\n");
            }
        },
        None => {},
    }
    assert(out@ =~= old(out)@ + skill_entry(*x, *book, qi));
}

impl PkBattle {
    /// `player_id`'s skills view (see `skills_view`), with the player's
    /// force; a refusal with a button back for anyone not in the fight.
    pub fn generate_skills_list(&self, player_id: &str, book: &SkillBook) -> (r: String)
        requires
            book.wf(),
        ensures
            skills_of(*self, player_id@) is None ==> r@ == "你不在战斗中！\n[返回:look]"@,
            skills_of(*self, player_id@) matches Some(f) ==> r@ == skills_view(f.skills@, *book, qi_of(*self, player_id@)),
    {
        let skills = match self.get_player_skills(player_id) {
            Some(f) => f,
            None => {
                return string_of("你不在战斗中！\n[返回:look]");
            },
        };
        let qi = if str_eq(player_id, self.challenger.id.as_str()) { self.challenger.qi } else { self.defender.qi };
        let mut out = string_of("§H【战斗技能】§N\n\n");
        let ghost head = out@;
        let s = &skills.skills;
        if s.len() == 0 {
            push_str(&mut out, "§c没有可用技能§N\n");
        } else {
            let mut i: usize = 0;
            while i < s.len()
                invariant
                    i <= s@.len(),
                    book.wf(),
                    out@ == head + skill_entries(s@.take(i as int), *book, qi),
                decreases s.len() - i,
            {
                assert(s@.take(i as int + 1).drop_last() == s@.take(i as int));
                assert(s@.take(i as int + 1).last() == s@[i as int]);
                push_skill_entry(&mut out, &s[i], book, qi);
                i = i + 1;
            }
            assert(s@.take(s@.len() as int) == s@);
        }
        push_str(&mut out, "\n§H默认技能§N\n基础攻击 (无消耗)\n");
        push_str(&mut out, "[返回:look]\n");
        assert(out@ =~= skills_view(skills.skills@, *book, qi));
        out
    }
}

/// The fight a player is in.
#[derive(Debug)]
pub struct PlayerBattle {
    pub player_id: String,
    pub battle_id: String,
}

impl Keyed for PlayerBattle {
    open spec fn key_view(&self) -> Seq<char> {
        self.player_id@
    }

    fn key(&self) -> (r: &String) {
        &self.player_id
    }
}

/// The running fights, by id, and which fight each player is in.
#[derive(Debug)]
pub struct PkDaemon {
    pub battles: Vec<PkBattle>,
    pub player_battles: Vec<PlayerBattle>,
}

/// The fight with id `id`.
pub open spec fn battle_at(d: PkDaemon, id: Seq<char>) -> Option<PkBattle> {
    key_get(d.battles@, id)
}

/// The id of the fight `player` is in.
pub open spec fn battle_of(d: PkDaemon, player: Seq<char>) -> Option<Seq<char>> {
    match key_get(d.player_battles@, player) {
        Some(p) => Some(p.battle_id@),
        None => None,
    }
}

/// The fight `player` is in, if its id leads to one.
pub open spec fn player_fight(d: PkDaemon, player: Seq<char>) -> Option<PkBattle> {
    match battle_of(d, player) {
        Some(id) => battle_at(d, id),
        None => None,
    }
}

/// The NPC that died in a finished fight: the defender if its id names an
/// NPC and it fell, else the challenger if its id names an NPC and it fell.
pub open spec fn fallen_npc(b: PkBattle) -> Option<Seq<char>> {
    if npc_id(b.defender.id@) {
        if b.defender.hp <= 0 { Some(b.defender.id@) } else { None }
    } else if npc_id(b.challenger.id@) {
        if b.challenger.hp <= 0 { Some(b.challenger.id@) } else { None }
    } else {
        None
    }
}

impl Default for PkDaemon {
    fn default() -> (r: Self)
        ensures
            r.wf(),
            r.battles@.len() == 0 && r.player_battles@.len() == 0,
    {
        PkDaemon::new()
    }
}

impl PkDaemon {
    /// Fight ids are distinct, every fight is well formed, and each player
    /// is in at most one fight.
    pub open spec fn wf(&self) -> bool {
        &&& keys_unique(self.battles@)
        &&& forall|k: Seq<char>| (#[trigger] key_get(self.battles@, k)) is Some ==> key_get(self.battles@, k)->0.wf()
        &&& keys_unique(self.player_battles@)
    }

    /// No fights.
    pub fn new() -> (r: Self)
        ensures
            r.wf(),
            r.battles@.len() == 0 && r.player_battles@.len() == 0,
    {
        PkDaemon { battles: Vec::new(), player_battles: Vec::new() }
    }

    /// The fight with id `battle_id`, copied.
    pub fn get_battle(&self, battle_id: &str) -> (r: Option<PkBattle>)
        ensures
            r matches Some(b) ==> battle_at(*self, battle_id@) matches Some(x) && same_battle(b, x),
            r is None <==> battle_at(*self, battle_id@) is None,
    {
        match get_key(&self.battles, battle_id) {
            Some(b) => Some(b.clone()),
            None => None,
        }
    }

    /// The fight `player_id` is in, copied.
    pub fn get_player_battle(&self, player_id: &str) -> (r: Option<PkBattle>)
        ensures
            r matches Some(b) ==> player_fight(*self, player_id@) matches Some(x) && same_battle(b, x),
            r is None <==> player_fight(*self, player_id@) is None,
    {
        match get_key(&self.player_battles, player_id) {
            Some(p) => self.get_battle(p.battle_id.as_str()),
            None => None,
        }
    }

    /// The NPC that died in finished fight `battle` (see `fallen_npc`),
    /// whose room must learn of it.
    pub fn fallen_npc(battle: &PkBattle) -> (r: Option<String>)
        ensures
            opt_text(r) == fallen_npc(*battle),
    {
        if PkBattle::is_npc(battle.defender.id.as_str()) {
            if !battle.defender.is_alive() { Some(battle.defender.id.clone()) } else { None }
        } else if PkBattle::is_npc(battle.challenger.id.as_str()) {
            if !battle.challenger.is_alive() { Some(battle.challenger.id.clone()) } else { None }
        } else {
            None
        }
    }
}

/// A round with blows `cs` and `ds` can be counted in fight `b`.
pub open spec fn round_fits(b: PkBattle, cs: Strike, ds: Strike) -> bool {
    &&& b.round < u32::MAX
    &&& cs.damage > 0 ==> b.total_damage_dealt + cs.damage <= i32::MAX
    &&& ds.damage > 0 ==> b.total_damage_taken + ds.damage <= i32::MAX
}

/// `f` is `o` with fight `b` over: the fight is gone and its two sides are
/// in no fight; every other fight and player is as before.
pub open spec fn fight_closed(o: PkDaemon, f: PkDaemon, b: PkBattle) -> bool {
    &&& battle_at(f, b.battle_id@) is None
    &&& forall|k: Seq<char>| k != b.battle_id@ ==> #[trigger] battle_at(f, k) == battle_at(o, k)
    &&& battle_of(f, b.challenger.id@) is None && battle_of(f, b.defender.id@) is None
    &&& forall|p: Seq<char>| p != b.challenger.id@ && p != b.defender.id@ ==> #[trigger] battle_of(f, p) == battle_of(o, p)
}

/// `player`'s fight view of fight `b` (see
/// `PkBattle::generate_status_for_player`).
pub open spec fn player_view(b: PkBattle, book: SkillBook, player: Seq<char>) -> Seq<char> {
    match skills_of(b, player) {
        None => "你不在战斗中！"@,
        Some(f) => fight_buttons() + pick_line(b, book, player) + round_line(b) + sides_short(b) + cooling_section(f.skills@, book),
    }
}

/// The daemon did not change.
pub open spec fn daemon_kept(o: PkDaemon, f: PkDaemon) -> bool {
    f.battles@ == o.battles@ && f.player_battles@ == o.player_battles@
}

impl PkDaemon {
    /// Starts a fight between `challenger` and `defender` in `room_id` at
    /// time `now` and gives a copy of it. Refused when the PK modes forbid
    /// it, when the challenger is in a fight, and when the defender is.
    pub fn challenge_at(&mut self, challenger: CombatStats, defender: CombatStats, room_id: String, now: i64) -> (r: Result<PkBattle, String>)
        requires
            old(self).wf(),
        ensures
            challenge_done(*old(self), *final(self), challenger, defender, room_id, now, r),
    {
        match challenger.can_attack(&defender) {
            Err(e) => {
                return Err(e);
            },
            Ok(()) => {},
        }
        proof {
            lemma_key_in_get(self.player_battles@, challenger.id@);
            lemma_key_in_get(self.player_battles@, defender.id@);
        }
        if find_key(&self.player_battles, challenger.id.as_str()).is_some() {
            return Err(string_of("你正在战斗中！"));
        }
        if find_key(&self.player_battles, defender.id.as_str()).is_some() {
            return Err(string_of("对方正在战斗中！"));
        }
        let ghost c0 = challenger;
        let ghost d0 = defender;
        let ghost room0 = room_id;
        let cid = challenger.id.clone();
        let did = defender.id.clone();
        let battle = PkBattle::new_at(challenger, defender, room_id, now);
        let copy = battle.clone();
        let ghost bid = battle.battle_id@;
        put_key(&mut self.player_battles, PlayerBattle { player_id: cid, battle_id: battle.battle_id.clone() });
        put_key(&mut self.player_battles, PlayerBattle { player_id: did, battle_id: battle.battle_id.clone() });
        let ghost b0 = battle;
        put_key(&mut self.battles, battle);
        proof {
            assert forall|k: Seq<char>| (#[trigger] key_get(self.battles@, k)) is Some implies key_get(self.battles@, k)->0.wf() by {
                if k != bid {
                    assert(key_get(self.battles@, k) == key_get(old(self).battles@, k));
                }
            }
        }
        Ok(copy)
    }

    /// Starts a fight now (see `challenge_at`).
    pub fn challenge(&mut self, challenger: CombatStats, defender: CombatStats, room_id: String) -> (r: Result<PkBattle, String>)
        requires
            old(self).wf(),
        ensures
            exists|now: i64| #[trigger] challenge_done(*old(self), *final(self), challenger, defender, room_id, now, r),
            final(self).wf(),
            !modes_allow(challenger.pk_mode, defender.pk_mode) ==> (r matches Err(e) && e@ == refused_by_mode()),
            modes_allow(challenger.pk_mode, defender.pk_mode) && battle_of(*old(self), challenger.id@) is Some
                ==> (r matches Err(e) && e@ == "你正在战斗中！"@),
            modes_allow(challenger.pk_mode, defender.pk_mode) && battle_of(*old(self), challenger.id@) is None
                && battle_of(*old(self), defender.id@) is Some ==> (r matches Err(e) && e@ == "对方正在战斗中！"@),
            r is Err ==> daemon_kept(*old(self), *final(self)),
            modes_allow(challenger.pk_mode, defender.pk_mode) && battle_of(*old(self), challenger.id@) is None
                && battle_of(*old(self), defender.id@) is None ==> r is Ok,
            r matches Ok(b) ==> {
                &&& fresh_battle(b, challenger, defender, room_id, b.start_time)
                &&& battle_at(*final(self), b.battle_id@) matches Some(x) && same_battle(x, b)
                &&& battle_of(*final(self), challenger.id@) == Some(b.battle_id@)
                &&& battle_of(*final(self), defender.id@) == Some(b.battle_id@)
            },
    {
        let now = current_timestamp();
        self.challenge_at(challenger, defender, room_id, now)
    }

    /// Plays a round of fight `battle_id` at time `now` with blows `cs`
    /// and `ds` (see `PkBattle::execute_round_at`), if the fight exists and
    /// goes on; otherwise nothing happens.
    pub fn next_round_at(&mut self, battle_id: &str, now: i64, book: &SkillBook, cs: Strike, ds: Strike) -> (r: Option<CombatRound>)
        requires
            old(self).wf(),
            book.wf(),
            battle_at(*old(self), battle_id@) matches Some(b) ==> round_fits(b, cs, ds),
        ensures
            next_round_done(*old(self), *final(self), battle_id, now, book, cs, ds, r),
    {
        let ghost o = *self;
        match take_key(&mut self.battles, battle_id) {
            Some(mut b) => {
                proof {
                    assert(key_get(o.battles@, battle_id@) is Some);
                }
                let ghost b0 = b;
                if b.status == CombatStatus::Fighting {
                    let rr = b.execute_round_at(now, book, cs, ds);
                    let ghost b1 = b;
                    put_key(&mut self.battles, b);
                    proof {
                        assert forall|k: Seq<char>| (#[trigger] key_get(self.battles@, k)) is Some implies key_get(self.battles@, k)->0.wf() by {
                            if k != battle_id@ {
                                assert(key_get(self.battles@, k) == key_get(o.battles@, k));
                            }
                        }
                    }
                    Some(rr)
                } else {
                    put_key(&mut self.battles, b);
                    proof {
                        assert forall|k: Seq<char>| (#[trigger] key_get(self.battles@, k)) is Some implies key_get(self.battles@, k)->0.wf() by {
                            if k != battle_id@ {
                                assert(key_get(self.battles@, k) == key_get(o.battles@, k));
                            }
                        }
                    }
                    None
                }
            },
            None => None,
        }
    }

    /// Plays a round of fight `battle_id` now (see `next_round_at`).
    pub fn next_round(&mut self, battle_id: &str, book: &SkillBook, cs: Strike, ds: Strike) -> (r: Option<CombatRound>)
        requires
            old(self).wf(),
            book.wf(),
            battle_at(*old(self), battle_id@) matches Some(b) ==> round_fits(b, cs, ds),
        ensures
            exists|now: i64| #[trigger] next_round_done(*old(self), *final(self), battle_id, now, book, cs, ds, r),
            final(self).wf(),
            final(self).player_battles@ == old(self).player_battles@,
            forall|k: Seq<char>| k != battle_id@ ==> #[trigger] battle_at(*final(self), k) == battle_at(*old(self), k),
            battle_at(*old(self), battle_id@) matches Some(b) ==> (b.status == CombatStatus::Fighting ==> {
                &&& r is Some
                &&& battle_at(*final(self), battle_id@) is Some
                &&& round_played(b, battle_at(*final(self), battle_id@)->0, r->0, battle_at(*final(self), battle_id@)->0.last_round_time, *book, cs, ds)
            }),
            !(battle_at(*old(self), battle_id@) matches Some(b) && b.status == CombatStatus::Fighting) ==> r is None,
    {
        let now = current_timestamp();
        self.next_round_at(battle_id, now, book, cs, ds)
    }

    /// Ends fight `battle_id`: it is taken out and given back, and its two
    /// sides are in no fight any more (see `fight_closed`).
    pub fn end_battle(&mut self, battle_id: &str) -> (r: Option<PkBattle>)
        requires
            old(self).wf(),
        ensures
            final(self).wf(),
            r == battle_at(*old(self), battle_id@),
            r matches Some(b) ==> fight_closed(*old(self), *final(self), b),
            r is None ==> daemon_kept(*old(self), *final(self)),
    {
        let ghost o = *self;
        let r = take_key(&mut self.battles, battle_id);
        match r {
            Some(b) => {
                proof {
                    assert(key_get(o.battles@, battle_id@) == Some(b));
                    assert forall|k: Seq<char>| (#[trigger] key_get(self.battles@, k)) is Some implies key_get(self.battles@, k)->0.wf() by {
                        assert(k != battle_id@);
                        assert(key_get(self.battles@, k) == key_get(o.battles@, k));
                    }
                }
                let ghost p1 = self.player_battles@;
                drop_key(&mut self.player_battles, b.challenger.id.as_str());
                drop_key(&mut self.player_battles, b.defender.id.as_str());
                proof {
                    assert(battle_at(*self, b.battle_id@) is None);
                }
                Some(b)
            },
            None => None,
        }
    }

    /// Ends `player_id`'s fight after an escape attempt that `succeeded`
    /// or not. Refused for a player in no fight, and when the attempt
    /// failed.
    pub fn escape_with(&mut self, player_id: &str, succeeded: bool) -> (r: Result<String, String>)
        requires
            old(self).wf(),
        ensures
            final(self).wf(),
            player_fight(*old(self), player_id@) is None ==> (r matches Err(e) && e@ == "你不在战斗中！"@),
            player_fight(*old(self), player_id@) matches Some(b) ==> {
                &&& succeeded ==> (r matches Ok(m) && m@ == "§Y你成功逃脱了！§N"@) && fight_closed(*old(self), *final(self), b)
                &&& !succeeded ==> (r matches Err(e) && e@ == "§R你逃跑失败了！§N"@)
            },
            r is Err ==> daemon_kept(*old(self), *final(self)),
    {
        let bid = match get_key(&self.player_battles, player_id) {
            Some(p) => p.battle_id.clone(),
            None => {
                return Err(string_of("你不在战斗中！"));
            },
        };
        proof {
            lemma_key_in_get(self.battles@, bid@);
        }
        if find_key(&self.battles, bid.as_str()).is_none() {
            return Err(string_of("你不在战斗中！"));
        }
        if succeeded {
            self.end_battle(bid.as_str());
            Ok(string_of("§Y你成功逃脱了！§N"))
        } else {
            Err(string_of("§R你逃跑失败了！§N"))
        }
    }

    /// `player_id` gives up its fight, which ends. Refused for a player in
    /// no fight and for one who did not start it.
    pub fn surrender(&mut self, player_id: &str) -> (r: Result<String, String>)
        requires
            old(self).wf(),
        ensures
            final(self).wf(),
            player_fight(*old(self), player_id@) is None ==> (r matches Err(e) && e@ == "你不在战斗中！"@),
            player_fight(*old(self), player_id@) matches Some(b) ==> {
                &&& b.challenger.id@ == player_id@ ==> (r matches Ok(m) && m@ == "§Y你投降了！§N"@) && fight_closed(*old(self), *final(self), b)
                &&& b.challenger.id@ != player_id@ ==> (r matches Err(e) && e@ == "只有发起者可以投降！"@)
            },
            r is Err ==> daemon_kept(*old(self), *final(self)),
    {
        let bid = match get_key(&self.player_battles, player_id) {
            Some(p) => p.battle_id.clone(),
            None => {
                return Err(string_of("你不在战斗中！"));
            },
        };
        let is_challenger = match get_key(&self.battles, bid.as_str()) {
            Some(b) => str_eq(b.challenger.id.as_str(), player_id),
            None => {
                return Err(string_of("你不在战斗中！"));
            },
        };
        if is_challenger {
            self.end_battle(bid.as_str());
            Ok(string_of("§Y你投降了！§N"))
        } else {
            Err(string_of("只有发起者可以投降！"))
        }
    }

    /// `player_id` picks `skill_id` for the next round of its fight (see
    /// `PkBattle::select_skill`). Refused for a player in no fight, when
    /// its fight is gone, and with the fight's own refusals.
    pub fn select_skill(&mut self, player_id: &str, skill_id: &str, book: &SkillBook) -> (r: Result<String, String>)
        requires
            old(self).wf(),
            book.wf(),
        ensures
            final(self).wf(),
            final(self).player_battles@ == old(self).player_battles@,
            battle_of(*old(self), player_id@) is None ==> (r matches Err(e) && e@ == "你不在战斗中！"@),
            battle_of(*old(self), player_id@) is Some && player_fight(*old(self), player_id@) is None
                ==> (r matches Err(e) && e@ == "战斗不存在！"@),
            player_fight(*old(self), player_id@) matches Some(b) ==> {
                &&& select_refusal(b, *book, player_id@, skill_id@) matches Some(t) ==> (r matches Err(e) && e@ == t)
                &&& select_refusal(b, *book, player_id@, skill_id@) is None ==> {
                    &&& r matches Ok(m) && m@ == "§Y你选择了 "@ + skill_id@ + "§N\n[继续战斗:pk continue]"@
                    &&& battle_at(*final(self), b.battle_id@) matches Some(f)
                        && key_get(f.pending_skills@, player_id@) matches Some(p) && p.skill_id@ == skill_id@
                }
            },
            player_fight(*old(self), player_id@) is None ==> forall|k: Seq<char>| #[trigger] battle_at(*final(self), k) == battle_at(*old(self), k),
            player_fight(*old(self), player_id@) matches Some(b) ==> (r is Err ==> (battle_at(*final(self), b.battle_id@) matches Some(f) && same_battle(f, b))),
            forall|k: Seq<char>| k != battle_of(*old(self), player_id@).unwrap_or(seq![]) ==> #[trigger] battle_at(*final(self), k) == battle_at(*old(self), k),
    {
        let ghost o = *self;
        let bid = match get_key(&self.player_battles, player_id) {
            Some(p) => p.battle_id.clone(),
            None => {
                return Err(string_of("你不在战斗中！"));
            },
        };
        match take_key(&mut self.battles, bid.as_str()) {
            Some(mut b) => {
                let res = b.select_skill(player_id, skill_id, book);
                put_key(&mut self.battles, b);
                proof {
                    assert forall|k: Seq<char>| (#[trigger] key_get(self.battles@, k)) is Some implies key_get(self.battles@, k)->0.wf() by {
                        if k != bid@ {
                            assert(key_get(self.battles@, k) == key_get(o.battles@, k));
                        }
                    }
                }
                match res {
                    Ok(()) => {
                        let mut m = string_of("§Y你选择了 ");
                        push_str(&mut m, skill_id);
                        push_str(&mut m, "§N\n[继续战斗:pk continue]");
                        Ok(m)
                    },
                    Err(e) => Err(e),
                }
            },
            None => Err(string_of("战斗不存在！")),
        }
    }

    /// `player_id`'s fight view (see `PkBattle::generate_status_for_player`),
    /// if it is in a fight.
    pub fn get_player_battle_status(&self, player_id: &str, book: &SkillBook) -> (r: Option<String>)
        requires
            player_fight(*self, player_id@) matches Some(b) ==> hp_in_range(b),
        ensures
            r is None <==> player_fight(*self, player_id@) is None,
            player_fight(*self, player_id@) matches Some(b) ==> (r matches Some(t) && t@ == player_view(b, *book, player_id@)),
    {
        match get_key(&self.player_battles, player_id) {
            Some(p) => match get_key(&self.battles, p.battle_id.as_str()) {
                Some(b) => {
                    let t = b.generate_status_for_player(player_id, book);
                    Some(t)
                },
                None => None,
            },
            None => None,
        }
    }
}

impl PkDaemon {
    /// `player_id`'s skills view (see `PkBattle::generate_skills_list`), if
    /// it is in a fight.
    pub fn get_player_skills_list(&self, player_id: &str, book: &SkillBook) -> (r: Option<String>)
        requires
            book.wf(),
        ensures
            r is None <==> player_fight(*self, player_id@) is None,
            player_fight(*self, player_id@) matches Some(b) ==> (r matches Some(t) && t@ == (match skills_of(b, player_id@) {
                None => "你不在战斗中！\n[返回:look]"@,
                Some(f) => skills_view(f.skills@, *book, qi_of(b, player_id@)),
            })),
    {
        match get_key(&self.player_battles, player_id) {
            Some(p) => match get_key(&self.battles, p.battle_id.as_str()) {
                Some(b) => Some(b.generate_skills_list(player_id, book)),
                None => None,
            },
            None => None,
        }
    }

    /// The ids of the fights whose next round should run by itself at
    /// time `now` (see `PkBattle::should_auto_execute_at`), in order.
    pub fn due_battles_at(&self, now: i64) -> (r: Vec<String>)
        ensures
            texts(r@) == due_ids(self.battles@, now),
    {
        let mut r: Vec<String> = Vec::new();
        let mut i: usize = 0;
        while i < self.battles.len()
            invariant
                i <= self.battles@.len(),
                texts(r@) == due_ids(self.battles@.take(i as int), now),
            decreases self.battles.len() - i,
        {
            assert(self.battles@.take(i as int + 1).drop_last() == self.battles@.take(i as int));
            assert(self.battles@.take(i as int + 1).last() == self.battles@[i as int]);
            if self.battles[i].should_auto_execute_at(now) {
                r.push(self.battles[i].battle_id.clone());
            }
            assert(texts(r@) =~= due_ids(self.battles@.take(i as int + 1), now));
            i = i + 1;
        }
        assert(self.battles@.take(self.battles@.len() as int) == self.battles@);
        r
    }

    /// Before a round that runs by itself, the NPC of fight `battle_id`
    /// picks its skill (see `PkBattle::npc_select_skill_with`); nothing
    /// happens without such a fight or NPC.
    pub fn prepare_npc_turn_with(&mut self, battle_id: &str, special: bool, pick: usize)
        requires
            old(self).wf(),
        ensures
            final(self).wf(),
            final(self).player_battles@ == old(self).player_battles@,
            forall|k: Seq<char>| k != battle_id@ ==> #[trigger] battle_at(*final(self), k) == battle_at(*old(self), k),
            battle_at(*old(self), battle_id@) matches Some(b) ==> {
                &&& battle_at(*final(self), battle_id@) is Some
                &&& npc_turn_taken(b, battle_at(*final(self), battle_id@)->0, special, pick as nat)
            },
            battle_at(*old(self), battle_id@) is None ==> battle_at(*final(self), battle_id@) is None,
    {
        let ghost o = *self;
        match take_key(&mut self.battles, battle_id) {
            Some(mut b) => {
                let ghost b0 = b;
                match b.get_npc_id() {
                    Some(npc) => {
                        let skill = b.npc_select_skill_with(npc.as_str(), special, pick);
                        put_key(&mut b.pending_skills, PendingSkill { player_id: npc, skill_id: skill });
                    },
                    None => {},
                }
                put_key(&mut self.battles, b);
                proof {
                    assert forall|k: Seq<char>| (#[trigger] key_get(self.battles@, k)) is Some implies key_get(self.battles@, k)->0.wf() by {
                        if k != battle_id@ {
                            assert(key_get(self.battles@, k) == key_get(o.battles@, k));
                        }
                    }
                }
            },
            None => {},
        }
    }

    /// Before a round that runs by itself, the NPC of fight `battle_id`
    /// picks its skill at random (see `PkBattle::npc_select_skill`).
    pub fn prepare_npc_turn(&mut self, battle_id: &str)
        requires
            old(self).wf(),
        ensures
            final(self).wf(),
            final(self).player_battles@ == old(self).player_battles@,
            forall|k: Seq<char>| k != battle_id@ ==> #[trigger] battle_at(*final(self), k) == battle_at(*old(self), k),
            battle_at(*old(self), battle_id@) matches Some(b) ==> {
                &&& battle_at(*final(self), battle_id@) is Some
                &&& exists|special: bool, pick: nat| #[trigger] npc_turn_taken(b, battle_at(*final(self), battle_id@)->0, special, pick)
            },
    {
        let special = random_ratio(3, 10);
        let pick = random_usize();
        self.prepare_npc_turn_with(battle_id, special, pick);
        assert(battle_at(*old(self), battle_id@) is Some ==> npc_turn_taken(battle_at(*old(self), battle_id@)->0,
            battle_at(*self, battle_id@)->0, special, pick as nat));
    }

    /// A round that runs by itself for fight `battle_id` at time `now`
    /// with blows `cs` and `ds`: the round is played (see `next_round_at`),
    /// a finished round ends the fight as lost by both or won, and the
    /// players (not the NPCs) to be told are given back.
    pub fn heartbeat_round_at(&mut self, battle_id: &str, now: i64, book: &SkillBook, cs: Strike, ds: Strike)
        -> (r: Option<(CombatRound, Vec<String>)>)
        requires
            old(self).wf(),
            book.wf(),
            battle_at(*old(self), battle_id@) matches Some(b) ==> round_fits(b, cs, ds),
        ensures
            final(self).wf(),
            final(self).player_battles@ == old(self).player_battles@,
            forall|k: Seq<char>| k != battle_id@ ==> #[trigger] battle_at(*final(self), k) == battle_at(*old(self), k),
            battle_at(*old(self), battle_id@) matches Some(b) ==> (b.status == CombatStatus::Fighting ==> {
                &&& r is Some
                &&& battle_at(*final(self), battle_id@) is Some
                &&& round_played(b, PkBattle {
                        status: if hb_round(r).winner is Some { CombatStatus::Dead } else { CombatStatus::Fighting },
                        ..battle_at(*final(self), battle_id@)->0
                    }, hb_round(r), now, *book, cs, ds)
                &&& battle_at(*final(self), battle_id@)->0.status == (if hb_round(r).ended || hb_round(r).winner is Some {
                        CombatStatus::Dead
                    } else {
                        CombatStatus::Fighting
                    })
                &&& texts(hb_notify(r)) == to_notify(b)
            }),
            !(battle_at(*old(self), battle_id@) matches Some(b) && b.status == CombatStatus::Fighting) ==> {
                &&& r is None
                &&& battle_at(*final(self), battle_id@) == battle_at(*old(self), battle_id@)
            },
    {
        let ghost o = *self;
        match self.next_round_at(battle_id, now, book, cs, ds) {
            Some(round) => {
                let ghost mid = *self;
                let mut notify: Vec<String> = Vec::new();
                match take_key(&mut self.battles, battle_id) {
                    Some(mut b) => {
                        if !PkBattle::is_npc(b.challenger.id.as_str()) {
                            notify.push(b.challenger.id.clone());
                        }
                        if !PkBattle::is_npc(b.defender.id.as_str()) {
                            notify.push(b.defender.id.clone());
                        }
                        if round.ended {
                            b.status = CombatStatus::Dead;
                        }
                        put_key(&mut self.battles, b);
                        proof {
                            assert forall|k: Seq<char>| (#[trigger] key_get(self.battles@, k)) is Some implies key_get(self.battles@, k)->0.wf() by {
                                if k != battle_id@ {
                                    assert(key_get(self.battles@, k) == key_get(mid.battles@, k));
                                }
                            }
                            assert forall|k: Seq<char>| k != battle_id@ implies #[trigger] battle_at(*self, k) == battle_at(o, k) by {
                                assert(key_get(self.battles@, k) == key_get(mid.battles@, k));
                                assert(battle_at(mid, k) == battle_at(o, k));
                            }
                            assert(texts(notify@) =~= to_notify(battle_at(o, battle_id@)->0));
                        }
                    },
                    None => {},
                }
                Some((round, notify))
            },
            None => None,
        }
    }
}

/// The ids of the fights of `s` due to run by themselves at `now`, in
/// order.
pub open spec fn due_ids(s: Seq<PkBattle>, now: i64) -> Seq<Seq<char>>
    decreases s.len(),
{
    if s.len() == 0 {
        seq![]
    } else {
        let b = s.last();
        let rest = due_ids(s.drop_last(), now);
        if (npc_id(b.challenger.id@) || npc_id(b.defender.id@)) && b.status == CombatStatus::Fighting && now - b.last_round_time >= 2 {
            rest.push(b.battle_id@)
        } else {
            rest
        }
    }
}

/// The round of a heartbeat's outcome.
pub open spec fn hb_round(r: Option<(CombatRound, Vec<String>)>) -> CombatRound {
    match r {
        Some((rr, _)) => rr,
        None => arbitrary(),
    }
}

/// The players to be told of a heartbeat's outcome.
pub open spec fn hb_notify(r: Option<(CombatRound, Vec<String>)>) -> Seq<String> {
    match r {
        Some((_, n)) => n@,
        None => seq![],
    }
}

/// The players of fight `b` (the sides that are not NPCs), challenger
/// first.
pub open spec fn to_notify(b: PkBattle) -> Seq<Seq<char>> {
    (if !npc_id(b.challenger.id@) { seq![b.challenger.id@] } else { seq![] })
        + (if !npc_id(b.defender.id@) { seq![b.defender.id@] } else { seq![] })
}

/// `f` is fight `b` after its NPC, if any, picked its skill with `special`
/// and `pick` (see `npc_choice`); all else is unchanged.
pub open spec fn npc_turn_taken(b: PkBattle, f: PkBattle, special: bool, pick: nat) -> bool {
    let npc = if npc_id(b.challenger.id@) { Some(b.challenger.id@) } else if npc_id(b.defender.id@) { Some(b.defender.id@) } else { None };
    &&& f.wf()
    &&& (match npc {
        Some(n) => {
            &&& key_get(f.pending_skills@, n) matches Some(p) && p.skill_id@ == npc_choice(ready_ids(npc_side(b, n).skills@), special, pick)
            &&& forall|k: Seq<char>| k != n ==> #[trigger] key_get(f.pending_skills@, k) == key_get(b.pending_skills@, k)
        },
        None => f.pending_skills@ == b.pending_skills@,
    })
    &&& same_battle(PkBattle { pending_skills: b.pending_skills, ..f }, b)
}

/// What `PkBattle::should_auto_execute_at` promises: `this` is the value it is called on, `r` what it
/// gives back.
pub open spec fn should_auto_execute_done(this: PkBattle, now: i64, r: bool) -> bool {
    &&& (r == ((npc_id(this.challenger.id@) || npc_id(this.defender.id@))
        && this.status == CombatStatus::Fighting && now - this.last_round_time >= 2))
}

/// What `PkBattle::execute_round_at` promises: `o` is the value before the call, `f` the value after,
/// `r` what it gives back.
pub open spec fn execute_round_done(
    o: PkBattle, f: PkBattle, now: i64, book: &SkillBook, cs: Strike, ds: Strike, r: CombatRound) -> bool {
    &&& (f.wf())
    &&& (round_played(o, f, r, now, *book, cs, ds))
}

/// What `PkDaemon::challenge_at` promises: `o` is the value before the call, `f` the value after, `r`
/// what it gives back.
pub open spec fn challenge_done(
    o: PkDaemon, f: PkDaemon, challenger: CombatStats, defender: CombatStats, room_id: String, now: i64,
    r: Result<PkBattle, String>) -> bool {
    &&& (f.wf())
    &&& (!modes_allow(challenger.pk_mode, defender.pk_mode) ==> (r matches Err(e) && e@ == refused_by_mode()))
    &&& (modes_allow(challenger.pk_mode, defender.pk_mode) && battle_of(o, challenger.id@) is Some
        ==> (r matches Err(e) && e@ == "你正在战斗中！"@))
    &&& (modes_allow(challenger.pk_mode, defender.pk_mode) && battle_of(o, challenger.id@) is None
        && battle_of(o, defender.id@) is Some ==> (r matches Err(e) && e@ == "对方正在战斗中！"@))
    &&& (r is Err ==> daemon_kept(o, f))
    &&& (modes_allow(challenger.pk_mode, defender.pk_mode) && battle_of(o, challenger.id@) is None
        && battle_of(o, defender.id@) is None ==> r is Ok)
    &&& (r matches Ok(b) ==> {
        &&& fresh_battle(b, challenger, defender, room_id, now)
        &&& battle_at(f, b.battle_id@) matches Some(x) && same_battle(x, b)
        &&& forall|k: Seq<char>| k != b.battle_id@ ==> #[trigger] battle_at(f, k) == battle_at(o, k)
        &&& battle_of(f, challenger.id@) == Some(b.battle_id@)
        &&& battle_of(f, defender.id@) == Some(b.battle_id@)
        &&& forall|p: Seq<char>| p != challenger.id@ && p != defender.id@ ==> #[trigger] battle_of(f, p) == battle_of(o, p)
    })
}

/// What `PkDaemon::next_round_at` promises: `o` is the value before the call, `f` the value after, `r`
/// what it gives back.
pub open spec fn next_round_done(
    o: PkDaemon, f: PkDaemon, battle_id: &str, now: i64, book: &SkillBook, cs: Strike, ds: Strike,
    r: Option<CombatRound>) -> bool {
    &&& (f.wf())
    &&& (f.player_battles@ == o.player_battles@)
    &&& (forall|k: Seq<char>| k != battle_id@ ==> #[trigger] battle_at(f, k) == battle_at(o, k))
    &&& (battle_at(o, battle_id@) matches Some(b) ==> (b.status == CombatStatus::Fighting ==> {
        &&& r is Some
        &&& battle_at(f, battle_id@) is Some
        &&& round_played(b, battle_at(f, battle_id@)->0, r->0, now, *book, cs, ds)
    }))
    &&& (!(battle_at(o, battle_id@) matches Some(b) && b.status == CombatStatus::Fighting) ==> {
        &&& r is None
        &&& battle_at(f, battle_id@) == battle_at(o, battle_id@)
    })
}

/// What `PkBattle::new_at` promises: for the arguments given, `r` what it gives back.
pub open spec fn pk_battle_new_done(
    challenger: CombatStats, defender: CombatStats, room_id: String, now: i64, r: PkBattle) -> bool {
    &&& (r.wf())
    &&& (fresh_battle(r, challenger, defender, room_id, now))
}

/// A round's winner is the one side still standing: the round names a
/// winner exactly when one fighter has hit points left after it and the
/// other has none, and then the winner is the fighter who has some; the
/// round ends exactly when a side has none, and the fight is then over
/// where it has a winner.
pub proof fn lemma_winner_still_stands(o: PkBattle, f: PkBattle, now: i64, book: &SkillBook, cs: Strike, ds: Strike,
    r: CombatRound)
    requires
        execute_round_done(o, f, now, book, cs, ds, r),
    ensures
        r.winner is Some <==> ((f.challenger.hp > 0) != (f.defender.hp > 0)),
        r.winner matches Some(w) ==> (f.challenger.hp > 0 && w@ == f.challenger.id@)
            || (f.defender.hp > 0 && w@ == f.defender.id@),
        r.winner matches Some(w) ==> (w@ == f.challenger.id@ ==> f.challenger.hp > 0 || f.challenger.id@ == f.defender.id@)
            && (w@ == f.defender.id@ ==> f.defender.hp > 0 || f.challenger.id@ == f.defender.id@),
        r.ended == (f.challenger.hp <= 0 || f.defender.hp <= 0),
        r.attacker_hp == f.challenger.hp && r.defender_hp == f.defender.hp,
        r.winner is Some ==> f.status == CombatStatus::Dead,
{
}

} // verus!
