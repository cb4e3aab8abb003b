//! The skill registry: the skills it knows, what each player has learned,
//! learning and using skills, and the lists shown to players.
use vstd::prelude::*;
use crate::outside::current_timestamp;
use crate::errors::{MudError, not_found, runtime_error};
use crate::text::{push_str, push_u64, push_i64, string_of, str_eq, nat_digits, int_digits};
use crate::util::has_str;
use crate::util::{Keyed, keys_unique, key_get, key_in, get_key, put_key, take_key};

verus! {

/// What a skill does.
#[derive(Clone, Copy, Debug, PartialEq, Eq, Structural)]
pub enum SkillType {
    Passive,
    Active,
    Attack,
    Defense,
    Heal,
    Buff,
    Debuff,
}

/// How a kind of skill is shown.
pub open spec fn skill_type_label(t: SkillType) -> Seq<char> {
    match t {
        SkillType::Passive => "被动"@,
        SkillType::Active => "主动"@,
        SkillType::Attack => "攻击"@,
        SkillType::Defense => "防御"@,
        SkillType::Heal => "治疗"@,
        SkillType::Buff => "辅助"@,
        SkillType::Debuff => "减益"@,
    }
}

impl SkillType {
    /// How the kind is shown (see `skill_type_label`).
    pub fn label(&self) -> (r: &'static str)
        ensures
            r@ == skill_type_label(*self),
    {
        match self {
            SkillType::Passive => "被动",
            SkillType::Active => "主动",
            SkillType::Attack => "攻击",
            SkillType::Defense => "防御",
            SkillType::Heal => "治疗",
            SkillType::Buff => "辅助",
            SkillType::Debuff => "减益",
        }
    }
}


/// A player's progress in a skill: its level, the experience toward the
/// next one, when it was learned and the moves learned in it.
#[derive(Debug)]
pub struct PlayerSkill {
    pub skill_id: String,
    pub level: u32,
    pub exp: u64,
    pub learned_at: i64,
    pub learned_performs: Vec<String>,
}

impl PlayerSkill {
    /// Skill `skill_id` learned at `now`: level 1, no experience, no move.
    pub fn new_at(skill_id: String, now: i64) -> (r: Self)
        ensures
            r.skill_id == skill_id && r.level == 1 && r.exp == 0 && r.learned_at == now && r.learned_performs@.len() == 0,
    {
        PlayerSkill { skill_id, level: 1, exp: 0, learned_at: now, learned_performs: Vec::new() }
    }

    /// Skill `skill_id` learned now (see `new_at`).
    pub fn new(skill_id: String) -> (r: Self)
        ensures
            r.skill_id == skill_id && r.level == 1 && r.exp == 0 && r.learned_performs@.len() == 0,
    {
        let now = current_timestamp();
        Self::new_at(skill_id, now)
    }

    /// Adds `exp` experience; once it reaches 100 per level, that much is
    /// spent and the skill goes up one level (one at most per call).
    /// Returns whether it did.
    pub fn add_exp(&mut self, exp: u64) -> (r: bool)
        requires
            old(self).exp + exp <= u64::MAX,
            old(self).exp + exp >= 100 * old(self).level ==> old(self).level < u32::MAX,
        ensures
            r == (old(self).exp + exp >= 100 * old(self).level),
            r ==> final(self).exp == old(self).exp + exp - 100 * old(self).level && final(self).level == old(self).level + 1,
            !r ==> final(self).exp == old(self).exp + exp && final(self).level == old(self).level,
            final(self).skill_id == old(self).skill_id && final(self).learned_at == old(self).learned_at,
            final(self).learned_performs == old(self).learned_performs,
    {
        self.exp = self.exp + exp;
        let needed: u64 = self.level as u64 * 100;
        if self.exp >= needed {
            self.exp = self.exp - needed;
            self.level = self.level + 1;
            return true;
        }
        false
    }
}

/// What using a skill does and costs.
#[derive(Clone, Copy, Debug, PartialEq, Eq, Structural)]
pub struct SkillEffect {
    pub damage: u32,
    pub heal: u32,
    pub mp_cost: u32,
    pub cooldown: u32,
}

/// A skill of the registry. Its damage and heal multipliers are in tenths.
#[derive(Debug)]
pub struct Skill {
    pub id: String,
    pub name: String,
    pub name_cn: String,
    pub skill_type: SkillType,
    pub school: String,
    pub level_req: i32,
    pub mp_cost: u32,
    pub cooldown: u32,
    pub cast_time: u32,
    pub damage_multiplier: u32,
    pub heal_multiplier: u32,
    pub description: String,
    pub prerequisite: Option<String>,
    pub max_level: u32,
    pub performs: Vec<(String, u32)>,
}

impl Keyed for Skill {
    open spec fn key_view(&self) -> Seq<char> {
        self.id@
    }

    fn key(&self) -> (r: &String) {
        &self.id
    }
}

impl Keyed for PlayerSkill {
    open spec fn key_view(&self) -> Seq<char> {
        self.skill_id@
    }

    fn key(&self) -> (r: &String) {
        &self.skill_id
    }
}

/// How a skill is shown: its kind, name, cost and cooldown, then its
/// description.
pub open spec fn skill_text(s: Skill) -> Seq<char> {
    "§H["@ + skill_type_label(s.skill_type) + "]§N "@ + s.name@ + " - MP消耗:"@ + nat_digits(s.mp_cost as nat)
        + " 冷却:"@ + nat_digits(s.cooldown as nat) + "秒\n"@ + s.description@
}

impl Skill {
    /// A player of `player_level` with `current_mp` may use the skill: the
    /// level reaches the skill's (read as unsigned) and the MP its cost.
    pub fn can_use(&self, player_level: u32, current_mp: u32) -> (r: bool)
        ensures
            r == (player_level >= self.level_req as u32 && current_mp >= self.mp_cost),
    {
        if player_level < self.level_req as u32 {
            return false;
        }
        if current_mp < self.mp_cost {
            return false;
        }
        true
    }

    /// The skill as shown (see `skill_text`).
    pub fn format(&self) -> (r: String)
        ensures
            r@ == skill_text(*self),
    {
        let mut out = string_of("§H[");
        push_str(&mut out, self.skill_type.label());
        push_str(&mut out, "]§N ");
        push_str(&mut out, self.name.as_str());
        push_str(&mut out, " - MP消耗:");
        push_u64(&mut out, self.mp_cost as u64);
        push_str(&mut out, " 冷却:");
        push_u64(&mut out, self.cooldown as u64);
        push_str(&mut out, "秒\n");
        push_str(&mut out, self.description.as_str());
        assert(out@ =~= skill_text(*self));
        out
    }
}

/// Skill `s` is the one given, its Chinese name its name, with no moves.
pub open spec fn skill_is(s: Skill, id: Seq<char>, name: Seq<char>, t: SkillType, school: Seq<char>, level_req: i32,
    mp_cost: u32, cooldown: u32, cast_time: u32, damage: u32, heal: u32, description: Seq<char>,
    prerequisite: Option<Seq<char>>, max_level: u32) -> bool {
    &&& s.id@ == id && s.name@ == name && s.name_cn@ == name && s.skill_type == t && s.school@ == school
    &&& s.level_req == level_req && s.mp_cost == mp_cost && s.cooldown == cooldown && s.cast_time == cast_time
    &&& s.damage_multiplier == damage && s.heal_multiplier == heal && s.description@ == description
    &&& s.max_level == max_level && s.performs@.len() == 0
    &&& match (s.prerequisite, prerequisite) {
        (Some(p), Some(q)) => p@ == q,
        (None, None) => true,
        _ => false,
    }
}

/// The five skills the registry starts with, in order.
pub open spec fn default_skills(s: Seq<Skill>) -> bool {
    &&& s.len() == 5
    &&& skill_is(s[0], "skill_basic_attack"@, "基础攻击"@, SkillType::Attack, "wutang"@, 1, 0, 1, 1, 10, 0,
        "最基础的攻击技能，所有冒险者都会。"@, None, 10)
    &&& skill_is(s[1], "skill_fireball"@, "火球术"@, SkillType::Attack, "huashan"@, 5, 20, 3, 2, 25, 0,
        "向敌人投掷火球，造成大量魔法伤害。"@, Some("skill_basic_attack"@), 10)
    &&& skill_is(s[2], "skill_heal"@, "治愈术"@, SkillType::Heal, "wudang"@, 3, 15, 5, 2, 0, 15,
        "恢复自身HP值。"@, None, 10)
    &&& skill_is(s[3], "skill_power_defense"@, "强力防御"@, SkillType::Defense, "shaolin"@, 5, 10, 10, 0, 0, 0,
        "暂时提升防御力，减少受到的伤害。"@, None, 5)
    &&& skill_is(s[4], "skill_crit_training"@, "暴击训练"@, SkillType::Passive, "wutang"@, 10, 0, 0, 0, 0, 0,
        "被动技能：永久提升暴击率。"@, Some("skill_basic_attack"@), 5)
}

fn make_skill(id: &str, name: &str, t: SkillType, school: &str, level_req: i32, mp_cost: u32, cooldown: u32,
    cast_time: u32, damage: u32, heal: u32, description: &str, prerequisite: Option<&str>, max_level: u32) -> (r: Skill)
    ensures
        skill_is(r, id@, name@, t, school@, level_req, mp_cost, cooldown, cast_time, damage, heal, description@,
            match prerequisite { Some(p) => Some(p@), None => None }, max_level),
{
    Skill {
        id: string_of(id),
        name: string_of(name),
        name_cn: string_of(name),
        skill_type: t,
        school: string_of(school),
        level_req,
        mp_cost,
        cooldown,
        cast_time,
        damage_multiplier: damage,
        heal_multiplier: heal,
        description: string_of(description),
        prerequisite: match prerequisite { Some(p) => Some(string_of(p)), None => None },
        max_level,
        performs: Vec::new(),
    }
}

/// The skills one player has learned, by skill id.
#[derive(Debug)]
pub struct PlayerSkillSet {
    pub userid: String,
    pub skills: Vec<PlayerSkill>,
}

impl Keyed for PlayerSkillSet {
    open spec fn key_view(&self) -> Seq<char> {
        self.userid@
    }

    fn key(&self) -> (r: &String) {
        &self.userid
    }
}

/// The skill registry: the skills by id, and each player's learned skills.
#[derive(Debug)]
pub struct SkillDaemon {
    pub skills: Vec<Skill>,
    pub player_skills: Vec<PlayerSkillSet>,
}

/// The learned skills of `user`, if the player has learned any.
pub open spec fn learned_of(d: SkillDaemon, user: Seq<char>) -> Option<Seq<PlayerSkill>> {
    match key_get(d.player_skills@, user) {
        Some(ps) => Some(ps.skills@),
        None => None,
    }
}

/// Player `user` has learned skill `skill`.
pub open spec fn has_learned(d: SkillDaemon, user: Seq<char>, skill: Seq<char>) -> bool {
    match learned_of(d, user) {
        Some(ss) => key_in(ss, skill),
        None => false,
    }
}

/// The skill that must come before skill `s` is missing for `user`.
pub open spec fn lacks_prerequisite(d: SkillDaemon, user: Seq<char>, s: Skill) -> bool {
    match s.prerequisite {
        Some(p) => !has_learned(d, user, p@),
        None => false,
    }
}

/// Player `user` may learn skill `skill`: the registry knows it, the
/// player does not know it yet and knows the skill that must come first.
pub open spec fn may_learn(d: SkillDaemon, user: Seq<char>, skill: Seq<char>) -> bool {
    match key_get(d.skills@, skill) {
        Some(s) => !has_learned(d, user, skill) && !lacks_prerequisite(d, user, s),
        None => false,
    }
}

/// The learned skills of `learned` the registry `reg` knows, each with its
/// registry entry, in the order learned.
pub open spec fn skill_pairs(reg: Seq<Skill>, learned: Seq<PlayerSkill>) -> Seq<(Skill, PlayerSkill)>
    decreases learned.len(),
{
    if learned.len() == 0 {
        seq![]
    } else {
        let prev = skill_pairs(reg, learned.drop_last());
        match key_get(reg, learned.last().skill_id@) {
            Some(s) => prev.push((s, learned.last())),
            None => prev,
        }
    }
}

/// What using skill `s` does: ten times its damage multiplier in tenths as
/// damage, five times its heal multiplier as healing, and its costs.
pub open spec fn effect_of(s: Skill) -> SkillEffect {
    SkillEffect { damage: (s.damage_multiplier * 10) as u32, heal: (s.heal_multiplier * 5) as u32, mp_cost: s.mp_cost,
        cooldown: s.cooldown }
}

/// The line of a learned skill in a player's list.
pub open spec fn learned_line(s: Skill, p: PlayerSkill) -> Seq<char> {
    "§Y["@ + s.name@ + " Lv."@ + nat_digits(p.level as nat) + "]§N ["@ + skill_type_label(s.skill_type) + "] "@
        + s.description@ + "\n"@
}

/// The lines of learned skills, in order.
pub open spec fn learned_lines(ps: Seq<(Skill, PlayerSkill)>) -> Seq<char>
    decreases ps.len(),
{
    if ps.len() == 0 {
        seq![]
    } else {
        learned_lines(ps.drop_last()) + learned_line(ps.last().0, ps.last().1)
    }
}

/// Skill `s` is open to a player of `level` who has learned `learned`.
pub open spec fn open_to(s: Skill, level: u32, learned: Seq<String>) -> bool {
    level >= s.level_req as u32 && !has_str(learned, s.id@)
}

/// The skills of `reg` open to the player, in the registry's order.
pub open spec fn open_skills(reg: Seq<Skill>, level: u32, learned: Seq<String>) -> Seq<Skill>
    decreases reg.len(),
{
    if reg.len() == 0 {
        seq![]
    } else {
        let prev = open_skills(reg.drop_last(), level, learned);
        if open_to(reg.last(), level, learned) { prev.push(reg.last()) } else { prev }
    }
}

/// `x` put into `s` after every skill whose level is not above its own.
pub open spec fn insert_by_level(x: Skill, s: Seq<Skill>) -> Seq<Skill>
    decreases s.len(),
{
    if s.len() == 0 {
        seq![x]
    } else if x.level_req < s[0].level_req {
        seq![x] + s
    } else {
        seq![s[0]] + insert_by_level(x, s.drop_first())
    }
}

/// `s` ordered by level, skills of one level in their order in `s`.
pub open spec fn by_level(s: Seq<Skill>) -> Seq<Skill>
    decreases s.len(),
{
    if s.len() == 0 {
        seq![]
    } else {
        insert_by_level(s.last(), by_level(s.drop_last()))
    }
}

/// The line of a skill a player may learn.
pub open spec fn open_line(s: Skill) -> Seq<char> {
    "§Y["@ + s.name@ + "]§N Lv."@ + int_digits(s.level_req as int) + " - "@ + s.description@ + "\n"@
}

/// The lines of skills a player may learn, in order.
pub open spec fn open_lines(ss: Seq<Skill>) -> Seq<char>
    decreases ss.len(),
{
    if ss.len() == 0 {
        seq![]
    } else {
        open_lines(ss.drop_last()) + open_line(ss.last())
    }
}

/// Inserting `x` at position `j` of `s`, after every skill of level not
/// above `x`'s and before the first of a higher level, is `insert_by_level`.
proof fn lemma_insert_at(x: Skill, s: Seq<Skill>, j: int)
    requires
        0 <= j <= s.len(),
        forall|k: int| 0 <= k < j ==> !(x.level_req < #[trigger] s[k].level_req),
        j < s.len() ==> x.level_req < s[j].level_req,
    ensures
        insert_by_level(x, s) == s.take(j) + seq![x] + s.skip(j),
    decreases j,
{
    if s.len() == 0 {
        assert(s.take(j) + seq![x] + s.skip(j) =~= seq![x]);
    } else if j == 0 {
        assert(s.take(j) + seq![x] + s.skip(j) =~= seq![x] + s);
    } else {
        let t = s.drop_first();
        assert forall|k: int| 0 <= k < j - 1 implies !(x.level_req < #[trigger] t[k].level_req) by {
            assert(t[k] == s[k + 1]);
        }
        lemma_insert_at(x, t, j - 1);
        assert(s.take(j) + seq![x] + s.skip(j) =~= seq![s[0]] + (t.take(j - 1) + seq![x] + t.skip(j - 1)));
    }
}

fn in_list(learned: &[String], id: &str) -> (r: bool)
    ensures
        r == has_str(learned@, id@),
{
    let mut i: usize = 0;
    while i < learned.len()
        invariant
            i <= learned@.len(),
            forall|j: int| 0 <= j < i ==> learned@[j]@ != id@,
        decreases learned.len() - i,
    {
        if str_eq(learned[i].as_str(), id) {
            return true;
        }
        i = i + 1;
    }
    false
}

impl SkillDaemon {
    /// Skill ids are unique, and so are the players.
    pub open spec fn wf(&self) -> bool {
        &&& keys_unique(self.skills@)
        &&& keys_unique(self.player_skills@)
        &&& forall|i: int| 0 <= i < self.skills@.len() ==> (#[trigger] self.skills@[i]).damage_multiplier <= 400_000_000
            && self.skills@[i].heal_multiplier <= 800_000_000
    }

    /// The registry with its five skills (see `default_skills`) and no
    /// player's skills.
    pub fn new() -> (r: Self)
        ensures
            r.wf(),
            default_skills(r.skills@),
            r.player_skills@.len() == 0,
    {
        let mut skills: Vec<Skill> = Vec::new();
        skills.push(make_skill("skill_basic_attack", "基础攻击", SkillType::Attack, "wutang", 1, 0, 1, 1, 10, 0,
            "最基础的攻击技能，所有冒险者都会。", None, 10));
        skills.push(make_skill("skill_fireball", "火球术", SkillType::Attack, "huashan", 5, 20, 3, 2, 25, 0,
            "向敌人投掷火球，造成大量魔法伤害。", Some("skill_basic_attack"), 10));
        skills.push(make_skill("skill_heal", "治愈术", SkillType::Heal, "wudang", 3, 15, 5, 2, 0, 15,
            "恢复自身HP值。", None, 10));
        skills.push(make_skill("skill_power_defense", "强力防御", SkillType::Defense, "shaolin", 5, 10, 10, 0, 0, 0,
            "暂时提升防御力，减少受到的伤害。", None, 5));
        skills.push(make_skill("skill_crit_training", "暴击训练", SkillType::Passive, "wutang", 10, 0, 0, 0, 0, 0,
            "被动技能：永久提升暴击率。", Some("skill_basic_attack"), 5));
        proof {
            reveal_strlit("skill_basic_attack");
            reveal_strlit("skill_fireball");
            reveal_strlit("skill_heal");
            reveal_strlit("skill_power_defense");
            reveal_strlit("skill_crit_training");
            assert(skills@[0].id@[6] == 'b' && skills@[1].id@[6] == 'f' && skills@[2].id@[6] == 'h'
                && skills@[3].id@[6] == 'p' && skills@[4].id@[6] == 'c');
            assert(keys_unique(skills@));
        }
        SkillDaemon { skills, player_skills: Vec::new() }
    }

    /// The skill `skill_id`, if the registry knows it.
    pub fn get_skill(&self, skill_id: &str) -> (r: Option<&Skill>)
        ensures
            r matches Some(s) ==> key_get(self.skills@, skill_id@) == Some(*s),
            r is None <==> key_get(self.skills@, skill_id@) is None,
    {
        get_key(&self.skills, skill_id)
    }

    /// Every skill of the registry, in its order.
    pub fn get_all_skills(&self) -> (r: Vec<&Skill>)
        ensures
            r@.map_values(|s: &Skill| *s) == self.skills@,
    {
        let mut r: Vec<&Skill> = Vec::new();
        let mut i: usize = 0;
        while i < self.skills.len()
            invariant
                i <= self.skills@.len(),
                r@.map_values(|s: &Skill| *s) == self.skills@.take(i as int),
            decreases self.skills.len() - i,
        {
            let ghost r0 = r@.map_values(|s: &Skill| *s);
            r.push(&self.skills[i]);
            assert(r@.map_values(|s: &Skill| *s) =~= r0.push(self.skills@[i as int]));
            assert(self.skills@.take(i + 1) =~= self.skills@.take(i as int).push(self.skills@[i as int]));
            i = i + 1;
        }
        assert(self.skills@.take(self.skills@.len() as int) =~= self.skills@);
        r
    }

    fn knows(&self, userid: &str, skill_id: &str) -> (r: bool)
        ensures
            r == has_learned(*self, userid@, skill_id@),
    {
        match get_key(&self.player_skills, userid) {
            Some(ps) => get_key(&ps.skills, skill_id).is_some(),
            None => false,
        }
    }

    /// Player `userid` learns skill `skill_id` now: refused when the
    /// registry does not know it, the player knows it already, or the
    /// player lacks the skill that must come first (see `may_learn`); else
    /// the player has it at level 1, and nothing else changes.
    pub fn learn_skill(&mut self, userid: String, skill_id: String) -> (r: Result<(), MudError>)
        requires
            old(self).wf(),
        ensures
            final(self).wf(),
            key_get(old(self).skills@, skill_id@) is None ==> (r matches Err(MudError::NotFound(m))
                && m@ == "技能不存在"@),
            key_get(old(self).skills@, skill_id@) is Some && has_learned(*old(self), userid@, skill_id@)
                ==> (r matches Err(MudError::RuntimeError(m)) && m@ == "已学习此技能"@),
            key_get(old(self).skills@, skill_id@) matches Some(s) && !has_learned(*old(self), userid@, skill_id@)
                && lacks_prerequisite(*old(self), userid@, s)
                ==> (r matches Err(MudError::RuntimeError(m)) && m@ == "需要先学习前置技能"@),
            r is Ok <==> may_learn(*old(self), userid@, skill_id@),
            r is Err ==> *final(self) == *old(self),
            r is Ok ==> final(self).skills == old(self).skills
                && (forall|u: Seq<char>| u != userid@ ==> #[trigger] learned_of(*final(self), u) == learned_of(*old(self), u)),
            r is Ok ==> (learned_of(*final(self), userid@) matches Some(ss)
                && key_get(ss, skill_id@) matches Some(p) && p.skill_id@ == skill_id@ && p.level == 1 && p.exp == 0
                    && p.learned_performs@.len() == 0
                && (forall|k: Seq<char>| k != skill_id@ ==> #[trigger] key_get(ss, k) == match learned_of(*old(self), userid@) {
                    Some(o) => key_get(o, k),
                    None => None,
                })),
    {
        let prereq: Option<String> = match get_key(&self.skills, skill_id.as_str()) {
            None => return Err(not_found("技能不存在")),
            Some(s) => match &s.prerequisite {
                Some(p) => Some(p.clone()),
                None => None,
            },
        };
        if self.knows(userid.as_str(), skill_id.as_str()) {
            return Err(runtime_error("已学习此技能"));
        }
        match prereq {
            Some(p) => {
                if !self.knows(userid.as_str(), p.as_str()) {
                    return Err(runtime_error("需要先学习前置技能"));
                }
            },
            None => {},
        }
        let ghost before = *self;
        let mut set = match take_key(&mut self.player_skills, userid.as_str()) {
            Some(ps) => ps,
            None => PlayerSkillSet { userid: userid.clone(), skills: Vec::new() },
        };
        put_key(&mut set.skills, PlayerSkill::new(skill_id));
        put_key(&mut self.player_skills, set);
        Ok(())
    }

    /// The skills player `userid` has learned that the registry knows, each
    /// with its registry entry, in the order learned (see `skill_pairs`).
    pub fn get_player_skills(&self, userid: &str) -> (r: Vec<(&Skill, &PlayerSkill)>)
        ensures
            r@.map_values(|p: (&Skill, &PlayerSkill)| (*p.0, *p.1)) == match learned_of(*self, userid@) {
                Some(ls) => skill_pairs(self.skills@, ls),
                None => seq![],
            },
    {
        let mut r: Vec<(&Skill, &PlayerSkill)> = Vec::new();
        match get_key(&self.player_skills, userid) {
            None => {
                assert(r@.map_values(|p: (&Skill, &PlayerSkill)| (*p.0, *p.1)) =~= seq![]);
                r
            },
            Some(ps) => {
                let ls = &ps.skills;
                let mut i: usize = 0;
                while i < ls.len()
                    invariant
                        i <= ls@.len(),
                        r@.map_values(|p: (&Skill, &PlayerSkill)| (*p.0, *p.1)) == skill_pairs(self.skills@, ls@.take(i as int)),
                    decreases ls.len() - i,
                {
                    let ghost r0 = r@.map_values(|p: (&Skill, &PlayerSkill)| (*p.0, *p.1));
                    assert(ls@.take(i + 1).drop_last() =~= ls@.take(i as int));
                    assert(ls@.take(i + 1).last() == ls@[i as int]);
                    match get_key(&self.skills, ls[i].skill_id.as_str()) {
                        Some(sk) => {
                            r.push((sk, &ls[i]));
                            assert(r@.map_values(|p: (&Skill, &PlayerSkill)| (*p.0, *p.1)) =~= r0.push((*sk, ls@[i as int])));
                        },
                        None => {},
                    }
                    i = i + 1;
                }
                assert(ls@.take(ls@.len() as int) =~= ls@);
                r
            },
        }
    }

    /// Player `userid` of `player_level` with `current_mp` uses skill
    /// `skill_id`: refused when the registry does not know it, the player
    /// has not learned it, or may not use it now; else what it does (see
    /// `effect_of`).
    pub fn use_skill(&self, userid: &str, skill_id: &str, player_level: u32, current_mp: u32) -> (r: Result<SkillEffect, MudError>)
        requires
            self.wf(),
        ensures
            key_get(self.skills@, skill_id@) is None ==> (r matches Err(MudError::NotFound(m)) && m@ == "技能不存在"@),
            key_get(self.skills@, skill_id@) is Some && !has_learned(*self, userid@, skill_id@)
                ==> (r matches Err(MudError::RuntimeError(m)) && m@ == "未学习此技能"@),
            key_get(self.skills@, skill_id@) matches Some(s) ==> (has_learned(*self, userid@, skill_id@)
                ==> if player_level >= s.level_req as u32 && current_mp >= s.mp_cost {
                    r == Ok::<SkillEffect, MudError>(effect_of(s))
                } else {
                    r matches Err(MudError::RuntimeError(m)) && m@ == "无法使用此技能"@
                }),
    {
        let skill = match get_key(&self.skills, skill_id) {
            Some(s) => s,
            None => return Err(not_found("技能不存在")),
        };
        if !self.knows(userid, skill_id) {
            return Err(runtime_error("未学习此技能"));
        }
        if !skill.can_use(player_level, current_mp) {
            return Err(runtime_error("无法使用此技能"));
        }
        proof {
            crate::util::lemma_key_get_in(self.skills@, skill_id@);
        }
        Ok(SkillEffect {
            damage: skill.damage_multiplier * 10,
            heal: skill.heal_multiplier * 5,
            mp_cost: skill.mp_cost,
            cooldown: skill.cooldown,
        })
    }

    /// A player's list of learned skills: a heading, then a line for each
    /// (see `learned_line`), or a note that there is none.
    pub fn format_skill_list(&self, skills: &[(&Skill, &PlayerSkill)]) -> (r: String)
        ensures
            ({
                let ps = skills@.map_values(|p: (&Skill, &PlayerSkill)| (*p.0, *p.1));
                r@ == "§H=== 技能列表 ===§N\n"@ + if ps.len() == 0 { "你还没有学习任何技能。\n"@ } else { learned_lines(ps) }
            }),
    {
        let ghost ps = skills@.map_values(|p: (&Skill, &PlayerSkill)| (*p.0, *p.1));
        let mut out = string_of("§H=== 技能列表 ===§N\n");
        if skills.len() == 0 {
            push_str(&mut out, "你还没有学习任何技能。\n");
            return out;
        }
        let ghost head = out@;
        let mut i: usize = 0;
        while i < skills.len()
            invariant
                i <= skills@.len(),
                ps == skills@.map_values(|p: (&Skill, &PlayerSkill)| (*p.0, *p.1)),
                out@ == head + learned_lines(ps.take(i as int)),
            decreases skills.len() - i,
        {
            let (sk, p) = skills[i];
            assert(ps.take(i + 1).drop_last() =~= ps.take(i as int));
            assert(ps.take(i + 1).last() == ps[i as int]);
            push_str(&mut out, "§Y[");
            push_str(&mut out, sk.name.as_str());
            push_str(&mut out, " Lv.");
            push_u64(&mut out, p.level as u64);
            push_str(&mut out, "]§N [");
            push_str(&mut out, sk.skill_type.label());
            push_str(&mut out, "] ");
            push_str(&mut out, sk.description.as_str());
            push_str(&mut out, "\n");
            assert(out@ =~= head + learned_lines(ps.take(i + 1)));
            i = i + 1;
        }
        assert(ps.take(ps.len() as int) =~= ps);
        out
    }

    /// The skills a player of `player_level` who has learned `learned` may
    /// learn: a heading, then a line for each open skill (see `open_to`),
    /// lowest level first, or a note that there is none.
    pub fn format_available_skills(&self, player_level: u32, learned: &[String]) -> (r: String)
        ensures
            ({
                let ss = by_level(open_skills(self.skills@, player_level, learned@));
                r@ == "§H=== 可学技能 ===§N\n"@ + open_lines(ss) + if ss.len() == 0 { "暂时没有可学的技能。\n"@ } else { seq![] }
            }),
    {
        let ghost reg = self.skills@;
        let mut sorted: Vec<&Skill> = Vec::new();
        let mut i: usize = 0;
        while i < self.skills.len()
            invariant
                i <= reg.len(),
                reg == self.skills@,
                sorted@.map_values(|s: &Skill| *s) == by_level(open_skills(reg.take(i as int), player_level, learned@)),
            decreases self.skills.len() - i,
        {
            let sk = &self.skills[i];
            assert(reg.take(i + 1).drop_last() =~= reg.take(i as int));
            assert(reg.take(i + 1).last() == reg[i as int]);
            let ghost prev = open_skills(reg.take(i as int), player_level, learned@);
            if player_level >= sk.level_req as u32 && !in_list(learned, sk.id.as_str()) {
                assert(open_skills(reg.take(i + 1), player_level, learned@) == prev.push(*sk));
                assert(prev.push(*sk).drop_last() =~= prev);
                assert(by_level(prev.push(*sk)) == insert_by_level(*sk, by_level(prev)));
                let ghost before = sorted@.map_values(|s: &Skill| *s);
                let mut j: usize = 0;
                while j < sorted.len() && !(sk.level_req < sorted[j].level_req)
                    invariant
                        j <= sorted@.len(),
                        before == sorted@.map_values(|s: &Skill| *s),
                        forall|k: int| 0 <= k < j ==> !(sk.level_req < #[trigger] before[k].level_req),
                    decreases sorted.len() - j,
                {
                    j = j + 1;
                }
                proof {
                    lemma_insert_at(*sk, before, j as int);
                }
                sorted.insert(j, sk);
                assert(sorted@.map_values(|s: &Skill| *s) =~= before.take(j as int) + seq![*sk] + before.skip(j as int));
            } else {
                assert(open_skills(reg.take(i + 1), player_level, learned@) == prev);
            }
            i = i + 1;
        }
        assert(reg.take(reg.len() as int) =~= reg);
        let ghost ss = sorted@.map_values(|s: &Skill| *s);
        let mut out = string_of("§H=== 可学技能 ===§N\n");
        let ghost head = out@;
        let mut k: usize = 0;
        while k < sorted.len()
            invariant
                k <= ss.len(),
                ss == sorted@.map_values(|s: &Skill| *s),
                out@ == head + open_lines(ss.take(k as int)),
            decreases sorted.len() - k,
        {
            let sk = sorted[k];
            assert(ss.take(k + 1).drop_last() =~= ss.take(k as int));
            assert(ss.take(k + 1).last() == ss[k as int]);
            push_str(&mut out, "§Y[");
            push_str(&mut out, sk.name.as_str());
            push_str(&mut out, "]§N Lv.");
            push_i64(&mut out, sk.level_req as i64);
            push_str(&mut out, " - ");
            push_str(&mut out, sk.description.as_str());
            push_str(&mut out, "\n");
            assert(out@ =~= head + open_lines(ss.take(k + 1)));
            k = k + 1;
        }
        assert(ss.take(ss.len() as int) =~= ss);
        if sorted.len() == 0 {
            push_str(&mut out, "暂时没有可学的技能。\n");
        }
        out
    }
}

impl Default for SkillDaemon {
    fn default() -> (r: Self)
        ensures
            r.wf(),
            default_skills(r.skills@),
            r.player_skills@.len() == 0,
    {
        Self::new()
    }
}

} // verus!
