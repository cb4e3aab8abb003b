//! The skill system: proficiency curves, a player's progress in a skill,
//! skill definitions with their requirements, and the manager that lets
//! players learn, enable and use skills.
use vstd::prelude::*;
use crate::text::{push_str, push_i64, string_of, int_digits};
use crate::util::{trunc_div, Keyed, key_pos, key_in, find_key, find_str, has_str, contains_str};

verus! {

/// The categories of skills.
#[derive(Clone, Copy, Debug, PartialEq, Eq, Structural)]
pub enum SkillCategory {
    Basic,
    Special,
    Passive,
}

/// The basic skill types that special skills can be enabled as.
#[derive(Clone, Copy, Debug, PartialEq, Eq, Structural)]
pub enum BasicSkillType {
    Unarmed,
    Sword,
    Blade,
    Spear,
    Club,
    HiddenWeapon,
    Movement,
    Force,
    Parry,
    Dodge,
}

/// The id prefix of a basic skill type.
pub open spec fn basic_prefix(t: BasicSkillType) -> Seq<char> {
    match t {
        BasicSkillType::Unarmed => "unarmed"@,
        BasicSkillType::Sword => "sword"@,
        BasicSkillType::Blade => "blade"@,
        BasicSkillType::Spear => "spear"@,
        BasicSkillType::Club => "club"@,
        BasicSkillType::HiddenWeapon => "hidden"@,
        BasicSkillType::Movement => "dodge"@,
        BasicSkillType::Force => "force"@,
        BasicSkillType::Parry => "parry"@,
        BasicSkillType::Dodge => "dodge"@,
    }
}

/// The Chinese name of a basic skill type.
pub open spec fn basic_cn(t: BasicSkillType) -> Seq<char> {
    match t {
        BasicSkillType::Unarmed => "拳脚"@,
        BasicSkillType::Sword => "剑法"@,
        BasicSkillType::Blade => "刀法"@,
        BasicSkillType::Spear => "枪棒"@,
        BasicSkillType::Club => "棍棒"@,
        BasicSkillType::HiddenWeapon => "暗器"@,
        BasicSkillType::Movement => "轻功"@,
        BasicSkillType::Force => "内功"@,
        BasicSkillType::Parry => "招架"@,
        BasicSkillType::Dodge => "闪避"@,
    }
}

impl BasicSkillType {
    /// The id prefix, such as `sword`.
    pub fn id_prefix(&self) -> (r: &'static str)
        ensures
            r@ == basic_prefix(*self),
    {
        match self {
            BasicSkillType::Unarmed => "unarmed",
            BasicSkillType::Sword => "sword",
            BasicSkillType::Blade => "blade",
            BasicSkillType::Spear => "spear",
            BasicSkillType::Club => "club",
            BasicSkillType::HiddenWeapon => "hidden",
            BasicSkillType::Movement => "dodge",
            BasicSkillType::Force => "force",
            BasicSkillType::Parry => "parry",
            BasicSkillType::Dodge => "dodge",
        }
    }

    /// The Chinese name, such as 剑法.
    pub fn cn_name(&self) -> (r: &'static str)
        ensures
            r@ == basic_cn(*self),
    {
        match self {
            BasicSkillType::Unarmed => "拳脚",
            BasicSkillType::Sword => "剑法",
            BasicSkillType::Blade => "刀法",
            BasicSkillType::Spear => "枪棒",
            BasicSkillType::Club => "棍棒",
            BasicSkillType::HiddenWeapon => "暗器",
            BasicSkillType::Movement => "轻功",
            BasicSkillType::Force => "内功",
            BasicSkillType::Parry => "招架",
            BasicSkillType::Dodge => "闪避",
        }
    }
}

/// The points needed to go from `level` to the next level: `(level + 1)²`.
pub open spec fn need(level: int) -> int {
    (level + 1) * (level + 1)
}

/// The points needed to go from level `from` up to level `to`.
pub open spec fn cum_need(from: int, to: int) -> int
    decreases to - from,
{
    if to <= from {
        0
    } else {
        need(from) + cum_need(from + 1, to)
    }
}

/// The level reached from `level` with `points`, spending `need(level)` per
/// level while the points last, up to `max`.
pub open spec fn level_reached(points: int, level: int, max: int) -> int
    decreases max - level,
{
    if level >= max || points < need(level) {
        level
    } else {
        level_reached(points - need(level), level + 1, max)
    }
}

/// The measure that decreases while a skill levels up.
pub open spec fn grow_measure(points: int, level: int) -> int {
    (if points >= 0 { points } else { 0 }) + (if level < 0 { 1int } else { 0int })
}

/// The points and level after levelling up from `level` with `points` as
/// long as the points cover `need(level)`.
pub open spec fn grow(points: int, level: int) -> (int, int)
    decreases grow_measure(points, level),
{
    if points >= need(level) && level >= -46341 {
        proof {
            lemma_need_positive(level);
        }
        grow(points - need(level), level + 1)
    } else {
        (points, level)
    }
}

/// The cost of a level is positive except for level -1.
pub proof fn lemma_need_positive(level: int)
    ensures
        level != -1 ==> need(level) >= 1,
        need(level) >= 0,
{
    if level < -1 {
        assert(need(level) >= 1) by (nonlinear_arith)
            requires
                level < -1,
        ;
    } else if level >= 0 {
        assert(need(level) >= 1) by (nonlinear_arith)
            requires
                level >= 0,
        ;
    }
    assert(need(level) >= 0) by (nonlinear_arith);
}

/// A proficiency curve: levels from `initial` up to `max_level`, level `l`
/// costing `(l + 1)²` points.
#[derive(Clone, Copy, Debug)]
pub struct ProficiencyCurve {
    pub initial: i32,
    pub max_level: i32,
}

/// The points needed over a curve: a square per level.
proof fn lemma_need_bounds(l: int)
    requires
        -46340 <= l < 46340,
    ensures
        0 <= need(l) <= 2147395600,
{
    assert(0 <= need(l) <= 2147395600) by (nonlinear_arith)
        requires
            -46340 <= l < 46340,
    ;
}

proof fn lemma_cum_need_nonneg(from: int, to: int)
    ensures
        cum_need(from, to) >= 0,
    decreases to - from,
{
    if to > from {
        lemma_cum_need_nonneg(from + 1, to);
        assert(need(from) >= 0) by (nonlinear_arith);
    }
}

proof fn lemma_cum_need_step(from: int, to: int)
    requires
        from <= to,
    ensures
        cum_need(from, to + 1) == cum_need(from, to) + need(to),
    decreases to - from,
{
    if from < to {
        lemma_cum_need_step(from + 1, to);
    } else {
        assert(cum_need(to + 1, to + 1) == 0);
        assert(cum_need(to, to) == 0);
    }
}

/// Levelling up from `from` with exactly the points needed to reach `to`
/// ends at `to`.
pub proof fn lemma_level_round_trip(from: int, to: int, max: int)
    requires
        0 <= from <= to <= max,
    ensures
        level_reached(cum_need(from, to), from, max) == to,
    decreases to - from,
{
    if from == to {
        assert(need(from) >= 1) by (nonlinear_arith)
            requires
                from >= 0,
        ;
    } else {
        lemma_cum_need_nonneg(from + 1, to);
        lemma_level_round_trip(from + 1, to, max);
    }
}

/// Points from what level `n` takes up to (not including) what level
/// `n + 1` takes lead from `from` to level `n` exactly; at the top level
/// `max`, any surplus stays unspent.
pub proof fn lemma_level_between(p: int, from: int, n: int, max: int)
    requires
        0 <= from <= n <= max,
        cum_need(from, n) <= p,
        n < max ==> p < cum_need(from, n + 1),
    ensures
        level_reached(p, from, max) == n,
    decreases n - from,
{
    if from < n {
        lemma_cum_need_nonneg(from + 1, n);
        lemma_level_between(p - need(from), from + 1, n, max);
    } else if n < max {
        assert(cum_need(n, n + 1) == need(n) + cum_need(n + 1, n + 1));
    }
}

impl ProficiencyCurve {
    /// The curve from level 0 to level 500.
    pub fn new() -> (r: Self)
        ensures
            r.initial == 0,
            r.max_level == 500,
    {
        ProficiencyCurve { initial: 0, max_level: 500 }
    }

    /// The points needed for the level after `level`: `(level + 1)²`.
    pub fn exp_for_next_level(&self, level: i32) -> (r: i64)
        requires
            -46341 <= level < 46340,
        ensures
            r == need(level as int),
    {
        let next = level + 1;
        proof {
            assert(-2147483648 <= next * next <= 2147483647) by (nonlinear_arith)
                requires
                    -46340 <= next < 46341,
            ;
        }
        (next * next) as i64
    }

    /// The percentage of the next level's points that `points` makes,
    /// rounded toward zero; 0 when nothing is needed.
    pub fn proficiency_percent(&self, level: i32, points: i64) -> (r: i32)
        requires
            -46341 <= level < 46340,
            -92233720368547758 <= points <= 92233720368547758,
        ensures
            r == if need(level as int) == 0 { 0 } else { trunc_div(points * 100, need(level as int)) as i32 },
    {
        let needed = self.exp_for_next_level(level);
        if needed == 0 {
            return 0;
        }
        proof {
            assert(needed > 0) by (nonlinear_arith)
                requires
                    needed == need(level as int),
                    needed != 0,
            ;
        }
        let a = points * 100;
        let q: i64 = if a >= 0 {
            a / needed
        } else {
            -((-a) / needed)
        };
        proof {
            assert(needed > 0) by (nonlinear_arith)
                requires
                    needed == need(level as int),
                    needed != 0,
            ;
        }
        #[verifier::truncate]
        (q as i32)
    }

    /// The level that `points` reach from the initial level, up to the
    /// maximum level.
    pub fn level_from_points(&self, points: i64) -> (r: i32)
        requires
            -46340 <= self.initial,
            self.max_level <= 46340,
        ensures
            r == level_reached(points as int, self.initial as int, self.max_level as int),
    {
        let mut p = points;
        let mut level = self.initial;
        while level < self.max_level
            invariant
                -46340 <= self.initial <= level,
                self.max_level <= 46340,
                level <= self.max_level || level == self.initial,
                level_reached(p as int, level as int, self.max_level as int)
                    == level_reached(points as int, self.initial as int, self.max_level as int),
            ensures
                level == level_reached(points as int, self.initial as int, self.max_level as int),
            decreases self.max_level - level,
        {
            proof {
                lemma_need_bounds(level as int);
            }
            let needed = self.exp_for_next_level(level);
            if p < needed {
                break;
            }
            p = p - needed;
            level = level + 1;
        }
        level
    }

    /// The points needed to reach `level` from the initial level (0 when
    /// `level` is not above it).
    pub fn exp_for_level(&self, level: i32) -> (r: i64)
        requires
            0 <= self.initial,
            level <= 46340,
        ensures
            r == cum_need(self.initial as int, level as int),
    {
        let mut sum: i64 = 0;
        let mut l = self.initial;
        if level <= l {
            return 0;
        }
        while l < level
            invariant
                0 <= self.initial <= l <= level <= 46340,
                sum == cum_need(self.initial as int, l as int),
                0 <= sum <= (l - self.initial) * 2147395600,
            decreases level - l,
        {
            proof {
                lemma_need_bounds(l as int);
                lemma_cum_need_step(self.initial as int, l as int);
                assert((l - self.initial) * 2147395600 <= 46340 * 2147395600) by (nonlinear_arith)
                    requires
                        0 <= l - self.initial <= 46340,
                ;
            }
            sum = sum + self.exp_for_next_level(l);
            l = l + 1;
        }
        sum
    }

    /// The level that `exp` points reach from the initial level.
    pub fn level_from_exp(&self, exp: i64) -> (r: i32)
        requires
            -46340 <= self.initial,
            self.max_level <= 46340,
        ensures
            r == level_reached(exp as int, self.initial as int, self.max_level as int),
    {
        self.level_from_points(exp)
    }
}

impl Default for ProficiencyCurve {
    /// The default curve starts at level 10, which needs no points, and
    /// ends at level 500.
    fn default() -> (r: Self)
        ensures
            r.initial == 10,
            r.max_level == 500,
    {
        ProficiencyCurve { initial: 10, max_level: 500 }
    }
}

/// A player's progress in one skill.
#[derive(Clone, Debug)]
pub struct PlayerSkillData {
    pub level: i32,
    pub points: i64,
    pub use_count: u64,
    pub learned_performs: Vec<String>,
}

impl PlayerSkillData {
    /// Level 0, no points, never used, no moves learned.
    pub fn new() -> (r: Self)
        ensures
            r.level == 0,
            r.points == 0,
            r.use_count == 0,
            r.learned_performs@.len() == 0,
    {
        PlayerSkillData { level: 0, points: 0, use_count: 0, learned_performs: Vec::new() }
    }

    /// Starts at `level`.
    pub fn with_level(level: i32) -> (r: Self)
        ensures
            r.level == level,
            r.points == 0,
            r.use_count == 0,
            r.learned_performs@.len() == 0,
    {
        PlayerSkillData { level, points: 0, use_count: 0, learned_performs: Vec::new() }
    }

    /// Adds points and levels up while they cover `(level + 1)²`, spending
    /// them; reports whether the level rose.
    pub fn add_points(&mut self, points: i64) -> (r: bool)
        requires
            i64::MIN <= old(self).points + points <= i64::MAX,
            -46340 <= old(self).level,
            grow(old(self).points + points, old(self).level as int).1 < 46340,
        ensures
            (final(self).points as int, final(self).level as int) == grow(old(self).points + points, old(self).level as int),
            r == (final(self).level != old(self).level),
            final(self).use_count == old(self).use_count,
            final(self).learned_performs == old(self).learned_performs,
    {
        self.points = self.points + points;
        let ghost start = (self.points as int, self.level as int);
        let mut leveled = false;
        let ghost level0 = self.level;
        let ghost uses = self.use_count;
        let ghost performs = self.learned_performs;
        loop
            invariant
                -46340 <= level0 <= self.level,
                grow(self.points as int, self.level as int) == grow(start.0, start.1),
                grow(start.0, start.1).1 < 46340,
                leveled == (self.level != level0),
                self.use_count == uses,
                self.learned_performs == performs,
            ensures
                (self.points as int, self.level as int) == grow(start.0, start.1),
                leveled == (self.level != level0),
                self.use_count == uses,
                self.learned_performs == performs,
            decreases grow_measure(self.points as int, self.level as int),
        {
            proof {
                assert(self.level <= grow(self.points as int, self.level as int).1) by {
                    lemma_grow_monotone(self.points as int, self.level as int);
                }
                lemma_need_bounds(self.level as int);
            }
            let next = self.level + 1;
            let needed = (next * next) as i64;
            if self.points >= needed {
                proof {
                    lemma_need_positive(self.level as int);
                }
                self.points = self.points - needed;
                self.level = self.level + 1;
                leveled = true;
            } else {
                break;
            }
        }
        leveled
    }

    /// The percentage of the next level's points reached, rounded toward zero.
    pub fn proficiency_percent(&self) -> (r: i32)
        requires
            -46341 <= self.level < 46340,
            -92233720368547758 <= self.points <= 92233720368547758,
        ensures
            r == if need(self.level as int) == 0 { 0 } else { trunc_div(self.points * 100, need(self.level as int)) as i32 },
    {
        let curve = ProficiencyCurve::new();
        curve.proficiency_percent(self.level, self.points)
    }

    /// Counts one more use.
    pub fn record_use(&mut self)
        requires
            old(self).use_count < u64::MAX,
        ensures
            final(self).use_count == old(self).use_count + 1,
            final(self).level == old(self).level,
            final(self).points == old(self).points,
            final(self).learned_performs == old(self).learned_performs,
    {
        self.use_count = self.use_count + 1;
    }

    /// Learns a move; false when it was already known.
    pub fn learn_perform(&mut self, perform_id: String) -> (r: bool)
        ensures
            r == !has_str(old(self).learned_performs@, perform_id@),
            r ==> final(self).learned_performs@ == old(self).learned_performs@.push(perform_id),
            !r ==> final(self).learned_performs@ == old(self).learned_performs@,
            final(self).level == old(self).level,
            final(self).points == old(self).points,
            final(self).use_count == old(self).use_count,
    {
        if contains_str(&self.learned_performs, perform_id.as_str()) {
            false
        } else {
            self.learned_performs.push(perform_id);
            true
        }
    }

    /// The move is known.
    pub fn has_perform(&self, perform_id: &str) -> (r: bool)
        ensures
            r == has_str(self.learned_performs@, perform_id@),
    {
        contains_str(&self.learned_performs, perform_id)
    }
}

/// Levelling up never lowers the level.
proof fn lemma_grow_monotone(points: int, level: int)
    ensures
        level <= grow(points, level).1,
    decreases grow_measure(points, level),
{
    if points >= need(level) && level >= -46341 {
        lemma_need_positive(level);
        lemma_grow_monotone(points - need(level), level + 1);
    }
}

impl Default for PlayerSkillData {
    fn default() -> (r: Self)
        ensures
            r.level == 0,
            r.points == 0,
            r.use_count == 0,
            r.learned_performs@.len() == 0,
    {
        Self::new()
    }
}

} // verus!

verus! {

/// Attribute thresholds a skill asks of a learner.
#[derive(Clone, Copy, Debug)]
pub struct StatRequirements {
    pub gen: Option<i32>,
    pub str: Option<i32>,
    pub con: Option<i32>,
    pub dex: Option<i32>,
    pub intellect: Option<i32>,
}

/// The bonuses a skill grants.
#[derive(Clone, Copy, Debug)]
pub struct SkillEffects {
    pub attack_bonus: i32,
    pub defense_bonus: i32,
    pub dodge_bonus: i32,
    pub parry_bonus: i32,
    pub hit_bonus: i32,
    pub crit_bonus: i32,
    pub crit_damage_bonus: i32,
    pub hp_bonus: i32,
    pub qi_bonus: i32,
}

impl Default for SkillEffects {
    fn default() -> (r: Self)
        ensures
            r == (SkillEffects { attack_bonus: 0, defense_bonus: 0, dodge_bonus: 0, parry_bonus: 0, hit_bonus: 0, crit_bonus: 0, crit_damage_bonus: 0, hp_bonus: 0, qi_bonus: 0 }),
    {
        SkillEffects {
            attack_bonus: 0,
            defense_bonus: 0,
            dodge_bonus: 0,
            parry_bonus: 0,
            hit_bonus: 0,
            crit_bonus: 0,
            crit_damage_bonus: 0,
            hp_bonus: 0,
            qi_bonus: 0,
        }
    }
}

/// A player's attributes, checked against skill requirements.
#[derive(Clone, Copy, Debug)]
pub struct PlayerStats {
    pub gen: i32,
    pub str: i32,
    pub con: i32,
    pub dex: i32,
    pub intellect: i32,
}

/// A skill definition.
#[derive(Clone, Debug)]
pub struct EnhancedSkill {
    pub id: String,
    pub name: String,
    pub name_cn: String,
    pub category: SkillCategory,
    pub basic_type: Option<BasicSkillType>,
    pub school: String,
    pub curve: ProficiencyCurve,
    pub prerequisites: Vec<String>,
    pub stat_requirements: StatRequirements,
    pub effects: SkillEffects,
    pub description: String,
}

impl Keyed for EnhancedSkill {
    open spec fn key_view(&self) -> Seq<char> {
        self.id@
    }

    fn key(&self) -> (r: &String) {
        &self.id
    }
}

/// `v` reaches the threshold `req`, if there is one.
pub open spec fn meets(req: Option<i32>, v: i32) -> bool {
    req matches Some(r) ==> v >= r
}

/// The learner's root, strength and constitution reach the skill's
/// thresholds (dexterity and intelligence are not checked).
pub open spec fn stats_ok(skill: EnhancedSkill, stats: PlayerStats) -> bool {
    meets(skill.stat_requirements.gen, stats.gen) && meets(skill.stat_requirements.str, stats.str)
        && meets(skill.stat_requirements.con, stats.con)
}

/// A threshold line of the skill description: label, value, line break.
pub open spec fn req_line(label: Seq<char>, req: Option<i32>) -> Seq<char> {
    match req {
        Some(r) => label + int_digits(r as int) + "\n"@,
        None => Seq::empty(),
    }
}

/// The description of a skill, with the player's level when learned.
pub open spec fn skill_info_text(skill: EnhancedSkill, data: Option<PlayerSkillData>) -> Seq<char> {
    let level_info = match data {
        Some(d) => "Lv."@ + int_digits(d.level as int),
        None => "未学习"@,
    };
    let head = "§Y【"@ + skill.name_cn@ + "】"@ + level_info + "§N\n"@;
    let kind = match skill.basic_type {
        Some(t) => "类型: "@ + basic_cn(t) + "\n"@,
        None => Seq::empty(),
    };
    let body = "门派: "@ + skill.school@ + "\n"@ + skill.description@ + "\n\n"@;
    let req = if skill.stat_requirements.gen.is_some() || skill.stat_requirements.str.is_some() {
        "§H属性要求§N\n"@ + req_line("根骨 ≥ "@, skill.stat_requirements.gen) + req_line(
            "臂力 ≥ "@,
            skill.stat_requirements.str,
        ) + req_line("体质 ≥ "@, skill.stat_requirements.con) + "\n"@
    } else {
        Seq::empty()
    };
    head + kind + body + req
}

fn push_req_line(s: &mut String, label: &str, req: Option<i32>)
    ensures
        final(s)@ == old(s)@ + req_line(label@, req),
{
    match req {
        Some(r) => {
            push_str(s, label);
            push_i64(s, r as i64);
            push_str(s, "\n");
        },
        None => {
            assert(old(s)@ + Seq::<char>::empty() =~= old(s)@);
        },
    }
}

fn meets_exec(req: Option<i32>, v: i32) -> (r: bool)
    ensures
        r == meets(req, v),
{
    match req {
        Some(x) => v >= x,
        None => true,
    }
}

impl EnhancedSkill {
    /// The learner meets the attribute thresholds.
    pub fn meets_stats(&self, player_stats: &PlayerStats) -> (r: bool)
        ensures
            r == stats_ok(*self, *player_stats),
    {
        meets_exec(self.stat_requirements.gen, player_stats.gen) && meets_exec(
            self.stat_requirements.str,
            player_stats.str,
        ) && meets_exec(self.stat_requirements.con, player_stats.con)
    }

    /// The learner meets the attribute thresholds and has learned every
    /// prerequisite.
    pub fn can_learn(&self, player_stats: &PlayerStats, learned_skills: &[String]) -> (r: bool)
        ensures
            r == (stats_ok(*self, *player_stats) && forall|i: int|
                0 <= i < self.prerequisites@.len() ==> has_str(learned_skills@, #[trigger] self.prerequisites@[i]@)),
    {
        if !self.meets_stats(player_stats) {
            return false;
        }
        let mut i: usize = 0;
        while i < self.prerequisites.len()
            invariant
                i <= self.prerequisites@.len(),
                forall|k: int| 0 <= k < i ==> has_str(learned_skills@, #[trigger] self.prerequisites@[k]@),
            decreases self.prerequisites.len() - i,
        {
            let mut found = false;
            let mut j: usize = 0;
            while j < learned_skills.len()
                invariant
                    j <= learned_skills@.len(),
                    i < self.prerequisites@.len(),
                    !found ==> forall|k: int| 0 <= k < j ==> learned_skills@[k]@ != self.prerequisites@[i as int]@,
                    found ==> has_str(learned_skills@, self.prerequisites@[i as int]@),
                decreases learned_skills.len() - j,
            {
                if learned_skills[j] == self.prerequisites[i] {
                    found = true;
                }
                j = j + 1;
            }
            if !found {
                assert(!has_str(learned_skills@, self.prerequisites@[i as int]@));
                return false;
            }
            i = i + 1;
        }
        true
    }

    /// The description of the skill, with the player's level when learned.
    pub fn format_info(&self, player_data: Option<&PlayerSkillData>) -> (r: String)
        ensures
            r@ == skill_info_text(
                *self,
                match player_data {
                    Some(d) => Some(*d),
                    None => None,
                },
            ),
    {
        let mut info = string_of("§Y【");
        push_str(&mut info, self.name_cn.as_str());
        push_str(&mut info, "】");
        match player_data {
            Some(d) => {
                push_str(&mut info, "Lv.");
                push_i64(&mut info, d.level as i64);
            },
            None => {
                push_str(&mut info, "未学习");
            },
        }
        push_str(&mut info, "§N\n");
        let ghost head = info@;
        let kind = self.kind_text();
        let body = self.body_text();
        let req = self.requirements_text();
        push_str(&mut info, kind.as_str());
        push_str(&mut info, body.as_str());
        push_str(&mut info, req.as_str());
        let ghost d = match player_data {
            Some(d) => Some(*d),
            None => None::<PlayerSkillData>,
        };
        assert(info@ =~= skill_info_text(*self, d));
        info
    }

    fn kind_text(&self) -> (r: String)
        ensures
            r@ == match self.basic_type {
                Some(t) => "类型: "@ + basic_cn(t) + "\n"@,
                None => Seq::<char>::empty(),
            },
    {
        match self.basic_type {
            Some(t) => {
                let mut s = string_of("类型: ");
                push_str(&mut s, t.cn_name());
                push_str(&mut s, "\n");
                s
            },
            None => String::new(),
        }
    }

    fn body_text(&self) -> (r: String)
        ensures
            r@ == "门派: "@ + self.school@ + "\n"@ + self.description@ + "\n\n"@,
    {
        let mut s = string_of("门派: ");
        push_str(&mut s, self.school.as_str());
        push_str(&mut s, "\n");
        push_str(&mut s, self.description.as_str());
        push_str(&mut s, "\n\n");
        s
    }

    fn requirements_text(&self) -> (r: String)
        ensures
            r@ == if self.stat_requirements.gen.is_some() || self.stat_requirements.str.is_some() {
                "§H属性要求§N\n"@ + req_line("根骨 ≥ "@, self.stat_requirements.gen) + req_line(
                    "臂力 ≥ "@,
                    self.stat_requirements.str,
                ) + req_line("体质 ≥ "@, self.stat_requirements.con) + "\n"@
            } else {
                Seq::<char>::empty()
            },
    {
        if self.stat_requirements.gen.is_some() || self.stat_requirements.str.is_some() {
            let mut s = string_of("§H属性要求§N\n");
            push_req_line(&mut s, "根骨 ≥ ", self.stat_requirements.gen);
            push_req_line(&mut s, "臂力 ≥ ", self.stat_requirements.str);
            push_req_line(&mut s, "体质 ≥ ", self.stat_requirements.con);
            push_str(&mut s, "\n");
            s
        } else {
            String::new()
        }
    }
}

/// One skill learned by one player.
#[derive(Clone, Debug)]
pub struct LearnedSkill {
    pub player_id: String,
    pub skill_id: String,
    pub data: PlayerSkillData,
}

/// A special skill enabled as a player's basic skill.
#[derive(Clone, Debug)]
pub struct SkillEnable {
    pub player_id: String,
    pub basic_skill: String,
    pub special_skill: String,
}

/// `i` is the first entry of player `p` for skill `k`.
pub open spec fn learned_pos(s: Seq<LearnedSkill>, p: Seq<char>, k: Seq<char>, i: int) -> bool {
    0 <= i < s.len() && s[i].player_id@ == p && s[i].skill_id@ == k && forall|j: int|
        0 <= j < i ==> !(s[j].player_id@ == p && s[j].skill_id@ == k)
}

/// Player `p` has learned skill `k`.
pub open spec fn learned_in(s: Seq<LearnedSkill>, p: Seq<char>, k: Seq<char>) -> bool {
    exists|i: int| 0 <= i < s.len() && s[i].player_id@ == p && s[i].skill_id@ == k
}

/// The level player `p` has in skill `k` (0 when not learned).
pub open spec fn learned_level(s: Seq<LearnedSkill>, p: Seq<char>, k: Seq<char>) -> int {
    if learned_in(s, p, k) {
        s[choose|i: int| learned_pos(s, p, k, i)].data.level as int
    } else {
        0
    }
}

/// `i` is the first enable entry of player `p` for basic skill `b`.
pub open spec fn enable_pos(s: Seq<SkillEnable>, p: Seq<char>, b: Seq<char>, i: int) -> bool {
    0 <= i < s.len() && s[i].player_id@ == p && s[i].basic_skill@ == b && forall|j: int|
        0 <= j < i ==> !(s[j].player_id@ == p && s[j].basic_skill@ == b)
}

/// Player `p` has enabled a special skill as basic skill `b`.
pub open spec fn enable_in(s: Seq<SkillEnable>, p: Seq<char>, b: Seq<char>) -> bool {
    exists|i: int| 0 <= i < s.len() && s[i].player_id@ == p && s[i].basic_skill@ == b
}

/// Every prerequisite of `skill` is learned by player `p`.
pub open spec fn prereqs_learned(skill: EnhancedSkill, s: Seq<LearnedSkill>, p: Seq<char>) -> bool {
    forall|i: int| 0 <= i < skill.prerequisites@.len() ==> learned_in(s, p, #[trigger] skill.prerequisites@[i]@)
}

/// The first-position property picks a single position.
pub proof fn lemma_learned_pos_unique(s: Seq<LearnedSkill>, p: Seq<char>, k: Seq<char>, i: int, j: int)
    requires
        learned_pos(s, p, k, i),
        learned_pos(s, p, k, j),
    ensures
        i == j,
{
}

/// The skills, the players who have learned any, their progress, and the
/// special skills they have enabled.
pub struct EnhancedSkillManager {
    skills: Vec<EnhancedSkill>,
    players: Vec<String>,
    learned: Vec<LearnedSkill>,
    enables: Vec<SkillEnable>,
}

/// Skill `s` is the one given: its ids and names, kind, basic kind, school,
/// curve, stat requirements, effects and description, with no prerequisite.
pub open spec fn skill_is(s: EnhancedSkill, id: Seq<char>, name: Seq<char>, name_cn: Seq<char>, category: SkillCategory,
    basic_type: BasicSkillType, school: Seq<char>, curve: ProficiencyCurve, reqs: StatRequirements, effects: SkillEffects,
    description: Seq<char>) -> bool {
    &&& s.id@ == id && s.name@ == name && s.name_cn@ == name_cn
    &&& s.category == category && s.basic_type == Some(basic_type) && s.school@ == school
    &&& s.curve == curve && s.stat_requirements == reqs && s.effects == effects
    &&& s.prerequisites@.len() == 0 && s.description@ == description
}

/// The effects given, without dodge.
pub open spec fn effects_of(attack: i32, defense: i32, parry: i32, hit: i32, crit: i32, crit_damage: i32, hp: i32, qi: i32) -> SkillEffects {
    SkillEffects { attack_bonus: attack, defense_bonus: defense, dodge_bonus: 0, parry_bonus: parry, hit_bonus: hit,
        crit_bonus: crit, crit_damage_bonus: crit_damage, hp_bonus: hp, qi_bonus: qi }
}

/// The stat requirements given.
pub open spec fn reqs_of(gen: Option<i32>, str: Option<i32>, con: Option<i32>, dex: Option<i32>, intellect: Option<i32>) -> StatRequirements {
    StatRequirements { gen, str, con, dex, intellect }
}

fn make_skill(
    id: &str,
    name: &str,
    name_cn: &str,
    category: SkillCategory,
    basic_type: BasicSkillType,
    school: &str,
    curve: ProficiencyCurve,
    stat_requirements: StatRequirements,
    effects: SkillEffects,
    description: &str,
) -> (r: EnhancedSkill)
    ensures
        skill_is(r, id@, name@, name_cn@, category, basic_type, school@, curve, stat_requirements, effects, description@),
{
    EnhancedSkill {
        id: string_of(id),
        name: string_of(name),
        name_cn: string_of(name_cn),
        category,
        basic_type: Some(basic_type),
        school: string_of(school),
        curve,
        prerequisites: Vec::new(),
        stat_requirements,
        effects,
        description: string_of(description),
    }
}

fn reqs(gen: Option<i32>, str: Option<i32>, con: Option<i32>, dex: Option<i32>, intellect: Option<i32>) -> (r: StatRequirements)
    ensures
        r == (StatRequirements { gen, str, con, dex, intellect }),
{
    StatRequirements { gen, str, con, dex, intellect }
}

fn effects(attack: i32, defense: i32, parry: i32, hit: i32, crit: i32, crit_damage: i32, hp: i32, qi: i32) -> (r: SkillEffects)
    ensures
        r == effects_of(attack, defense, parry, hit, crit, crit_damage, hp, qi),
{
    SkillEffects {
        attack_bonus: attack,
        defense_bonus: defense,
        dodge_bonus: 0,
        parry_bonus: parry,
        hit_bonus: hit,
        crit_bonus: crit,
        crit_damage_bonus: crit_damage,
        hp_bonus: hp,
        qi_bonus: qi,
    }
}

/// The skills player `p` has learned, with the player's progress, in the
/// order they were learned; entries whose skill `skills` does not know are
/// skipped.
pub open spec fn player_skill_list(learned: Seq<LearnedSkill>, skills: Seq<EnhancedSkill>, p: Seq<char>)
    -> Seq<(EnhancedSkill, PlayerSkillData)>
    decreases learned.len(),
{
    if learned.len() == 0 {
        seq![]
    } else {
        let rest = player_skill_list(learned.drop_last(), skills, p);
        let e = learned.last();
        if e.player_id@ == p && crate::util::key_get(skills, e.skill_id@) is Some {
            rest.push((crate::util::key_get(skills, e.skill_id@)->0, e.data))
        } else {
            rest
        }
    }
}

impl EnhancedSkillManager {
    /// The skill definitions.
    pub closed spec fn skills_view(&self) -> Seq<EnhancedSkill> {
        self.skills@
    }

    /// The players known to the manager.
    pub closed spec fn players_view(&self) -> Seq<String> {
        self.players@
    }

    /// The skills learned by players.
    pub closed spec fn learned_view(&self) -> Seq<LearnedSkill> {
        self.learned@
    }

    /// The enabled special skills.
    pub closed spec fn enables_view(&self) -> Seq<SkillEnable> {
        self.enables@
    }

    /// A manager holding the five default skills: basic unarmed combat
    /// (skill_unarmed_basic) and the school skills skill_xionghuquan,
    /// skill_taiji, skill_luohanquan and skill_dugujiujian.
    pub fn new() -> (r: Self)
        ensures
            r.skills_view().len() == 5,
            skill_is(r.skills_view()[0], "skill_unarmed_basic"@, "unarmed_basic"@, "基础拳脚"@, SkillCategory::Basic,
                BasicSkillType::Unarmed, "通用"@, ProficiencyCurve { initial: 10, max_level: 500 },
                reqs_of(None, None, None, None, None), effects_of(5, 2, 0, 0, 0, 0, 0, 0), "最基本的拳脚功夫。"@),
            skill_is(r.skills_view()[1], "skill_xionghuquan"@, "xionghuquan"@, "猛虎拳"@, SkillCategory::Special,
                BasicSkillType::Unarmed, "武堂"@, ProficiencyCurve { initial: 0, max_level: 500 },
                reqs_of(Some(20), Some(25), None, None, None), effects_of(30, 0, 0, 0, 10, 20, 50, 0),
                "武堂独门拳法，刚猛如虎，气势磅礴。"@),
            skill_is(r.skills_view()[2], "skill_taiji"@, "taiji"@, "太极剑"@, SkillCategory::Special,
                BasicSkillType::Sword, "武当"@, ProficiencyCurve { initial: 0, max_level: 500 },
                reqs_of(Some(30), Some(15), None, Some(20), None), effects_of(25, 15, 20, 0, 0, 0, 0, 100),
                "武当镇派剑法，以柔克刚，四两拨千斤。"@),
            skill_is(r.skills_view()[3], "skill_luohanquan"@, "luohanquan"@, "罗汉拳"@, SkillCategory::Special,
                BasicSkillType::Unarmed, "少林"@, ProficiencyCurve { initial: 0, max_level: 500 },
                reqs_of(Some(15), Some(30), Some(20), None, None), effects_of(35, 10, 0, 0, 0, 0, 100, 0),
                "少林七十二绝技之一，刚猛有力，威震八方。"@),
            skill_is(r.skills_view()[4], "skill_dugujiujian"@, "dugujiujian"@, "独孤九剑"@, SkillCategory::Special,
                BasicSkillType::Sword, "华山"@, ProficiencyCurve { initial: 0, max_level: 500 },
                reqs_of(Some(35), Some(20), None, Some(30), Some(25)), effects_of(40, 0, 0, 30, 20, 0, 0, 0),
                "华山派镇派绝学，专破天下武学，无招胜有招。"@),
            r.players_view().len() == 0,
            r.learned_view().len() == 0,
            r.enables_view().len() == 0,
    {
        let mut skills: Vec<EnhancedSkill> = Vec::new();
        skills.push(make_skill(
            "skill_unarmed_basic",
            "unarmed_basic",
            "基础拳脚",
            SkillCategory::Basic,
            BasicSkillType::Unarmed,
            "通用",
            ProficiencyCurve::default(),
            reqs(None, None, None, None, None),
            effects(5, 2, 0, 0, 0, 0, 0, 0),
            "最基本的拳脚功夫。",
        ));
        skills.push(make_skill(
            "skill_xionghuquan",
            "xionghuquan",
            "猛虎拳",
            SkillCategory::Special,
            BasicSkillType::Unarmed,
            "武堂",
            ProficiencyCurve::new(),
            reqs(Some(20), Some(25), None, None, None),
            effects(30, 0, 0, 0, 10, 20, 50, 0),
            "武堂独门拳法，刚猛如虎，气势磅礴。",
        ));
        skills.push(make_skill(
            "skill_taiji",
            "taiji",
            "太极剑",
            SkillCategory::Special,
            BasicSkillType::Sword,
            "武当",
            ProficiencyCurve::new(),
            reqs(Some(30), Some(15), None, Some(20), None),
            effects(25, 15, 20, 0, 0, 0, 0, 100),
            "武当镇派剑法，以柔克刚，四两拨千斤。",
        ));
        skills.push(make_skill(
            "skill_luohanquan",
            "luohanquan",
            "罗汉拳",
            SkillCategory::Special,
            BasicSkillType::Unarmed,
            "少林",
            ProficiencyCurve::new(),
            reqs(Some(15), Some(30), Some(20), None, None),
            effects(35, 10, 0, 0, 0, 0, 100, 0),
            "少林七十二绝技之一，刚猛有力，威震八方。",
        ));
        skills.push(make_skill(
            "skill_dugujiujian",
            "dugujiujian",
            "独孤九剑",
            SkillCategory::Special,
            BasicSkillType::Sword,
            "华山",
            ProficiencyCurve::new(),
            reqs(Some(35), Some(20), None, Some(30), Some(25)),
            effects(40, 0, 0, 30, 20, 0, 0, 0),
            "华山派镇派绝学，专破天下武学，无招胜有招。",
        ));
        EnhancedSkillManager { skills, players: Vec::new(), learned: Vec::new(), enables: Vec::new() }
    }

    /// The skill with id `skill_id`.
    pub fn get_skill(&self, skill_id: &str) -> (r: Option<&EnhancedSkill>)
        ensures
            r matches Some(s) ==> exists|i: int| key_pos(self.skills_view(), skill_id@, i) && *s == self.skills_view()[i],
            r is None <==> !key_in(self.skills_view(), skill_id@),
    {
        match find_key(&self.skills, skill_id) {
            Some(i) => {
                assert(key_pos(self.skills_view(), skill_id@, i as int));
                Some(&self.skills[i])
            },
            None => None,
        }
    }

    fn find_learned(&self, player_id: &str, skill_id: &str) -> (r: Option<usize>)
        ensures
            r matches Some(i) ==> learned_pos(self.learned@, player_id@, skill_id@, i as int),
            r is None <==> !learned_in(self.learned@, player_id@, skill_id@),
    {
        let p = string_of(player_id);
        let k = string_of(skill_id);
        let mut i: usize = 0;
        while i < self.learned.len()
            invariant
                i <= self.learned@.len(),
                p@ == player_id@,
                k@ == skill_id@,
                forall|j: int| 0 <= j < i ==> !(self.learned@[j].player_id@ == player_id@ && self.learned@[j].skill_id@ == skill_id@),
            decreases self.learned.len() - i,
        {
            if self.learned[i].player_id == p && self.learned[i].skill_id == k {
                return Some(i);
            }
            i = i + 1;
        }
        None
    }

    fn find_enable(&self, player_id: &str, basic_skill: &str) -> (r: Option<usize>)
        ensures
            r matches Some(i) ==> enable_pos(self.enables@, player_id@, basic_skill@, i as int),
            r is None <==> !enable_in(self.enables@, player_id@, basic_skill@),
    {
        let p = string_of(player_id);
        let k = string_of(basic_skill);
        let mut i: usize = 0;
        while i < self.enables.len()
            invariant
                i <= self.enables@.len(),
                p@ == player_id@,
                k@ == basic_skill@,
                forall|j: int| 0 <= j < i ==> !(self.enables@[j].player_id@ == player_id@ && self.enables@[j].basic_skill@ == basic_skill@),
            decreases self.enables.len() - i,
        {
            if self.enables[i].player_id == p && self.enables[i].basic_skill == k {
                return Some(i);
            }
            i = i + 1;
        }
        None
    }

    fn prereqs_met(&self, skill_index: usize, player_id: &str) -> (r: bool)
        requires
            skill_index < self.skills@.len(),
        ensures
            r == prereqs_learned(self.skills@[skill_index as int], self.learned@, player_id@),
    {
        let skill = &self.skills[skill_index];
        let mut i: usize = 0;
        while i < skill.prerequisites.len()
            invariant
                skill_index < self.skills@.len(),
                *skill == self.skills@[skill_index as int],
                i <= skill.prerequisites@.len(),
                forall|k: int| 0 <= k < i ==> learned_in(self.learned@, player_id@, #[trigger] skill.prerequisites@[k]@),
            decreases skill.prerequisites.len() - i,
        {
            match self.find_learned(player_id, skill.prerequisites[i].as_str()) {
                Some(_) => {},
                None => {
                    assert(!learned_in(self.learned@, player_id@, skill.prerequisites@[i as int]@));
                    assert(!prereqs_learned(self.skills@[skill_index as int], self.learned@, player_id@));
                    return false;
                },
            }
            i = i + 1;
        }
        true
    }

    /// Teaches `skill_id` to `player_id` at level 0. Fails with 技能不存在
    /// for an unknown skill, 已经学习过这个技能 when already learned and
    /// 不满足学习条件 when the attributes or prerequisites fall short. A known
    /// skill registers the player even when learning fails.
    pub fn learn_skill(&mut self, player_id: String, skill_id: String, player_stats: &PlayerStats) -> (r: Result<String, String>)
        ensures
            final(self).skills_view() == old(self).skills_view(),
            final(self).enables_view() == old(self).enables_view(),
            !key_in(old(self).skills_view(), skill_id@) ==> (r matches Err(e) && e@ == "技能不存在"@ && final(self).players_view() == old(self).players_view() && final(self).learned_view() == old(self).learned_view()),
            key_in(old(self).skills_view(), skill_id@) ==> has_str(final(self).players_view(), player_id@),
            key_in(old(self).skills_view(), skill_id@) && learned_in(old(self).learned_view(), player_id@, skill_id@) ==> (r matches Err(e) && e@ == "已经学习过这个技能"@ && final(self).learned_view() == old(self).learned_view()),
            forall|i: int| key_pos(old(self).skills_view(), skill_id@, i) ==> {
                let skill = #[trigger] old(self).skills_view()[i];
                !learned_in(old(self).learned_view(), player_id@, skill_id@) ==> if stats_ok(skill, *player_stats) && prereqs_learned(skill, old(self).learned_view(), player_id@) {
                    &&& r matches Ok(m) && m@ == "你学会了"@ + skill.name_cn@ + "！"@
                    &&& final(self).learned_view().len() == old(self).learned_view().len() + 1
                    &&& final(self).learned_view().take(old(self).learned_view().len() as int) == old(self).learned_view()
                    &&& final(self).learned_view().last().player_id == player_id
                    &&& final(self).learned_view().last().skill_id == skill_id
                    &&& final(self).learned_view().last().data.level == 0
                    &&& final(self).learned_view().last().data.points == 0
                    &&& final(self).learned_view().last().data.use_count == 0
                } else {
                    r matches Err(e) && e@ == "不满足学习条件"@ && final(self).learned_view() == old(self).learned_view()
                }
            },
    {
        let si = match find_key(&self.skills, skill_id.as_str()) {
            Some(i) => i,
            None => {
                return Err(string_of("技能不存在"));
            },
        };
        if !contains_str(&self.players, player_id.as_str()) {
            self.players.push(player_id.clone());
            assert(self.players@.last() == player_id);
        }
        match self.find_learned(player_id.as_str(), skill_id.as_str()) {
            Some(_) => {
                return Err(string_of("已经学习过这个技能"));
            },
            None => {},
        }
        if !self.skills[si].meets_stats(player_stats) || !self.prereqs_met(si, player_id.as_str()) {
            return Err(string_of("不满足学习条件"));
        }
        let mut msg = string_of("你学会了");
        push_str(&mut msg, self.skills[si].name_cn.as_str());
        push_str(&mut msg, "！");
        let ghost before = self.learned@;
        self.learned.push(LearnedSkill { player_id, skill_id, data: PlayerSkillData::new() });
        assert(self.learned@.take(before.len() as int) =~= before);
        Ok(msg)
    }

    /// Enables the special skill `special_skill` as the player's basic skill
    /// `basic_skill`, replacing an earlier choice.
    pub fn enable_skill(&mut self, player_id: &str, basic_skill: &str, special_skill: &str) -> (r: Result<String, String>)
        ensures
            final(self).skills_view() == old(self).skills_view(),
            final(self).players_view() == old(self).players_view(),
            final(self).learned_view() == old(self).learned_view(),
            !key_in(old(self).skills_view(), basic_skill@) ==> (r matches Err(e) && e@ == "基础技能 "@ + basic_skill@ + " 不存在"@),
            key_in(old(self).skills_view(), basic_skill@) && !key_in(old(self).skills_view(), special_skill@) ==> (r matches Err(e) && e@ == "特殊技能 "@ + special_skill@ + " 不存在"@),
            r is Err ==> final(self).enables_view() == old(self).enables_view(),
            r is Ok ==> {
                &&& has_str(old(self).players_view(), player_id@)
                &&& learned_in(old(self).learned_view(), player_id@, basic_skill@)
                &&& learned_in(old(self).learned_view(), player_id@, special_skill@)
                &&& enable_in(final(self).enables_view(), player_id@, basic_skill@)
                &&& forall|i: int| enable_pos(final(self).enables_view(), player_id@, basic_skill@, i) ==> #[trigger] final(self).enables_view()[i].special_skill@ == special_skill@
            },
            forall|i: int, j: int| key_pos(old(self).skills_view(), basic_skill@, i) && key_pos(old(self).skills_view(), special_skill@, j) ==> {
                let b = #[trigger] old(self).skills_view()[i];
                let s = #[trigger] old(self).skills_view()[j];
                if b.category != SkillCategory::Basic {
                    r matches Err(e) && e@ == basic_skill@ + " 不是基础技能"@
                } else if s.category != SkillCategory::Special {
                    r matches Err(e) && e@ == special_skill@ + " 不是特殊武功"@
                } else if !has_str(old(self).players_view(), player_id@) {
                    r matches Err(e) && e@ == "你还没有学习这些技能"@
                } else if !learned_in(old(self).learned_view(), player_id@, basic_skill@) {
                    r matches Err(e) && e@ == "你还没有学习 "@ + b.name_cn@
                } else if !learned_in(old(self).learned_view(), player_id@, special_skill@) {
                    r matches Err(e) && e@ == "你还没有学习 "@ + s.name_cn@
                } else {
                    r matches Ok(m) && m@ == "你将 "@ + s.name_cn@ + " 启用为 "@ + b.name_cn@ + " 的基础武功"@
                }
            },
    {
        let bi = match find_key(&self.skills, basic_skill) {
            Some(i) => i,
            None => {
                let mut e = string_of("基础技能 ");
                push_str(&mut e, basic_skill);
                push_str(&mut e, " 不存在");
                return Err(e);
            },
        };
        let si = match find_key(&self.skills, special_skill) {
            Some(i) => i,
            None => {
                let mut e = string_of("特殊技能 ");
                push_str(&mut e, special_skill);
                push_str(&mut e, " 不存在");
                return Err(e);
            },
        };
        if self.skills[bi].category != SkillCategory::Basic {
            let mut e = string_of(basic_skill);
            push_str(&mut e, " 不是基础技能");
            return Err(e);
        }
        if self.skills[si].category != SkillCategory::Special {
            let mut e = string_of(special_skill);
            push_str(&mut e, " 不是特殊武功");
            return Err(e);
        }
        if !contains_str(&self.players, player_id) {
            return Err(string_of("你还没有学习这些技能"));
        }
        if self.find_learned(player_id, basic_skill).is_none() {
            let mut e = string_of("你还没有学习 ");
            push_str(&mut e, self.skills[bi].name_cn.as_str());
            return Err(e);
        }
        if self.find_learned(player_id, special_skill).is_none() {
            let mut e = string_of("你还没有学习 ");
            push_str(&mut e, self.skills[si].name_cn.as_str());
            return Err(e);
        }
        let entry = SkillEnable {
            player_id: string_of(player_id),
            basic_skill: string_of(basic_skill),
            special_skill: string_of(special_skill),
        };
        match self.find_enable(player_id, basic_skill) {
            Some(i) => {
                self.enables.set(i, entry);
                assert(enable_pos(self.enables@, player_id@, basic_skill@, i as int));
            },
            None => {
                self.enables.push(entry);
                let ghost n = (self.enables@.len() - 1) as int;
                assert(enable_pos(self.enables@, player_id@, basic_skill@, n));
            },
        }
        let mut m = string_of("你将 ");
        push_str(&mut m, self.skills[si].name_cn.as_str());
        push_str(&mut m, " 启用为 ");
        push_str(&mut m, self.skills[bi].name_cn.as_str());
        push_str(&mut m, " 的基础武功");
        Ok(m)
    }

    /// The player's effective level in a basic skill: half the basic level
    /// (rounded toward zero) plus the level of the special skill enabled as
    /// it; 0 for an unknown player.
    pub fn effective_level(&self, player_id: &str, basic_skill: &str) -> (r: i32)
        requires
            forall|i: int| 0 <= i < self.learned_view().len() ==> -1073741824 <= #[trigger] self.learned_view()[i].data.level <= 1073741823,
        ensures
            !has_str(self.players_view(), player_id@) ==> r == 0,
            has_str(self.players_view(), player_id@) && !enable_in(self.enables_view(), player_id@, basic_skill@) ==> r == trunc_div(learned_level(self.learned_view(), player_id@, basic_skill@), 2),
            has_str(self.players_view(), player_id@) ==> forall|i: int| enable_pos(self.enables_view(), player_id@, basic_skill@, i) ==> r == trunc_div(learned_level(self.learned_view(), player_id@, basic_skill@), 2) + learned_level(self.learned_view(), player_id@, #[trigger] self.enables_view()[i].special_skill@),
    {
        if !contains_str(&self.players, player_id) {
            return 0;
        }
        let basic_level = match self.find_learned(player_id, basic_skill) {
            Some(i) => {
                proof {
                    let c = choose|c: int| learned_pos(self.learned@, player_id@, basic_skill@, c);
                    lemma_learned_pos_unique(self.learned@, player_id@, basic_skill@, i as int, c);
                    assert(-1073741824 <= self.learned_view()[i as int].data.level <= 1073741823);
                }
                self.learned[i].data.level
            },
            None => 0,
        };
        let half = basic_level / 2;
        match self.find_enable(player_id, basic_skill) {
            Some(e) => {
                let special = self.enables[e].special_skill.as_str();
                let special_level = match self.find_learned(player_id, special) {
                    Some(i) => {
                        proof {
                            let c = choose|c: int| learned_pos(self.learned@, player_id@, special@, c);
                            lemma_learned_pos_unique(self.learned@, player_id@, special@, i as int, c);
                            assert(-1073741824 <= self.learned_view()[i as int].data.level <= 1073741823);
                        }
                        self.learned[i].data.level
                    },
                    None => 0,
                };
                half + special_level
            },
            None => half,
        }
    }

    /// The skills the player has learned with the player's progress, in the
    /// order they were learned (entries whose skill is unknown are skipped).
    pub fn get_player_skills(&self, player_id: &str) -> (r: Vec<(&EnhancedSkill, &PlayerSkillData)>)
        ensures
            r@.len() <= self.learned_view().len(),
            forall|i: int| 0 <= i < r@.len() ==> #[trigger] self.is_player_entry(*r@[i].0, *r@[i].1, player_id@),
            r@.map_values(|e: (&EnhancedSkill, &PlayerSkillData)| (*e.0, *e.1))
                == player_skill_list(self.learned_view(), self.skills_view(), player_id@),
    {
        let mut r: Vec<(&EnhancedSkill, &PlayerSkillData)> = Vec::new();
        let p = string_of(player_id);
        let mut j: usize = 0;
        while j < self.learned.len()
            invariant
                j <= self.learned@.len(),
                p@ == player_id@,
                r@.len() <= j,
                forall|i: int| 0 <= i < r@.len() ==> #[trigger] self.is_player_entry(*r@[i].0, *r@[i].1, player_id@),
                r@.map_values(|e: (&EnhancedSkill, &PlayerSkillData)| (*e.0, *e.1))
                    == player_skill_list(self.learned@.take(j as int), self.skills@, player_id@),
            decreases self.learned.len() - j,
        {
            let ghost r0 = r@;
            proof {
                assert(self.learned@.take(j as int + 1).drop_last() == self.learned@.take(j as int));
                assert(self.learned@.take(j as int + 1).last() == self.learned@[j as int]);
            }
            if self.learned[j].player_id == p {
                match find_key(&self.skills, self.learned[j].skill_id.as_str()) {
                    Some(k) => {
                        let ghost old_r = r@;
                        proof { crate::util::lemma_key_get_at(self.skills@, self.learned@[j as int].skill_id@, k as int); }
                        assert(key_pos(self.skills@, self.learned@[j as int].skill_id@, k as int));
                        assert(self.is_player_entry(self.skills@[k as int], self.learned@[j as int].data, player_id@));
                        r.push((&self.skills[k], &self.learned[j].data));
                        assert forall|i: int| 0 <= i < r@.len() implies #[trigger] self.is_player_entry(*r@[i].0, *r@[i].1, player_id@) by {
                            if i < old_r.len() {
                                assert(r@[i] == old_r[i]);
                            }
                        }
                    },
                    None => {
                        proof { crate::util::lemma_key_get_none(self.skills@, self.learned@[j as int].skill_id@); }
                    },
                }
            }
            assert(r@.map_values(|e: (&EnhancedSkill, &PlayerSkillData)| (*e.0, *e.1))
                =~= player_skill_list(self.learned@.take(j as int + 1), self.skills@, player_id@));
            j = j + 1;
        }
        assert(self.learned@.take(j as int) =~= self.learned@);
        r
    }

    /// `skill` and `data` are a skill that player `p` has learned and the
    /// player's progress in it.
    pub closed spec fn is_player_entry(&self, skill: EnhancedSkill, data: PlayerSkillData, p: Seq<char>) -> bool {
        exists|j: int, k: int| #![trigger self.learned@[j], self.skills@[k]] {
            &&& 0 <= j < self.learned@.len()
            &&& self.learned@[j].player_id@ == p
            &&& key_pos(self.skills@, self.learned@[j].skill_id@, k)
            &&& skill == self.skills@[k]
            &&& data == self.learned@[j].data
        }
    }

    /// Uses a skill: counts the use and adds 10 points. The messages are
    /// 你使用了<name>, and on a level-up also the new level and proficiency.
    /// Fails with 技能不存在 for an unknown skill and 你还没有学习这个技能
    /// when the player has not learned it.
    pub fn use_skill(&mut self, player_id: &str, skill_id: &str) -> (r: Result<Vec<String>, String>)
        requires
            forall|i: int| 0 <= i < old(self).learned_view().len() ==> {
                &&& (#[trigger] old(self).learned_view()[i]).data.use_count < u64::MAX
                &&& -46340 <= old(self).learned_view()[i].data.level
                &&& old(self).learned_view()[i].data.points <= 92233720368547748
                &&& -92233720368547758 <= old(self).learned_view()[i].data.points
                &&& grow(old(self).learned_view()[i].data.points + 10, old(self).learned_view()[i].data.level as int).1 < 46339
                &&& grow(old(self).learned_view()[i].data.points + 10, old(self).learned_view()[i].data.level as int).0 <= 92233720368547758
                &&& grow(old(self).learned_view()[i].data.points + 10, old(self).learned_view()[i].data.level as int).0 >= -92233720368547758
            },
        ensures
            final(self).skills_view() == old(self).skills_view(),
            final(self).players_view() == old(self).players_view(),
            final(self).enables_view() == old(self).enables_view(),
            !key_in(old(self).skills_view(), skill_id@) ==> (r matches Err(e) && e@ == "技能不存在"@),
            key_in(old(self).skills_view(), skill_id@) && !(has_str(old(self).players_view(), player_id@) && learned_in(old(self).learned_view(), player_id@, skill_id@)) ==> (r matches Err(e) && e@ == "你还没有学习这个技能"@),
            r is Err ==> final(self).learned_view() == old(self).learned_view(),
            r is Ok ==> exists|i: int| {
                &&& learned_pos(old(self).learned_view(), player_id@, skill_id@, i)
                &&& final(self).learned_view() == old(self).learned_view().update(i, final(self).learned_view()[i])
                &&& final(self).learned_view()[i].player_id == old(self).learned_view()[i].player_id
                &&& final(self).learned_view()[i].skill_id == old(self).learned_view()[i].skill_id
                &&& final(self).learned_view()[i].data.use_count == old(self).learned_view()[i].data.use_count + 1
                &&& (final(self).learned_view()[i].data.points as int, final(self).learned_view()[i].data.level as int) == grow(old(self).learned_view()[i].data.points + 10, old(self).learned_view()[i].data.level as int)
            },
            r matches Ok(msgs) ==> msgs@.len() >= 1 && msgs@.len() <= 2,
    {
        let si = match find_key(&self.skills, skill_id) {
            Some(i) => i,
            None => {
                return Err(string_of("技能不存在"));
            },
        };
        if !contains_str(&self.players, player_id) {
            return Err(string_of("你还没有学习这个技能"));
        }
        let li = match self.find_learned(player_id, skill_id) {
            Some(i) => i,
            None => {
                return Err(string_of("你还没有学习这个技能"));
            },
        };
        let name_cn = self.skills[si].name_cn.clone();
        let ghost before = self.learned@;
        proof {
            let e = old(self).learned_view()[li as int];
            assert(e.data.use_count < u64::MAX);
            lemma_grow_monotone(e.data.points + 10, e.data.level as int);
        }
        let mut entry = self.learned.remove(li);
        assert(entry == before[li as int]);
        entry.data.record_use();
        let leveled = entry.data.add_points(10);
        let mut results: Vec<String> = Vec::new();
        let mut m = string_of("你使用了");
        push_str(&mut m, name_cn.as_str());
        results.push(m);
        if leveled {
            let percent = entry.data.proficiency_percent();
            let mut m2 = string_of("§g你的 ");
            push_str(&mut m2, name_cn.as_str());
            push_str(&mut m2, " 提升到了 ");
            push_i64(&mut m2, entry.data.level as i64);
            push_str(&mut m2, " 级(");
            push_i64(&mut m2, percent as i64);
            push_str(&mut m2, "%)§N");
            results.push(m2);
        }
        self.learned.insert(li, entry);
        assert(self.learned@ =~= before.update(li as int, self.learned@[li as int]));
        Ok(results)
    }
}

} // verus!
