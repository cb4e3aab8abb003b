//! Trainers: NPCs of a school who teach skills for gold to players of
//! enough level and cultivation.
use vstd::prelude::*;
use crate::errors::{MudError, not_found};
use crate::text::{push_str, push_u64, string_of, str_eq, nat_digits};
use crate::npc::base::{NpcBase, NpcType};

verus! {

/// A skill a trainer teaches: the level and cultivation it asks, its price
/// and the skill that must come first, if any.
#[derive(Debug)]
pub struct TeachableSkill {
    pub skill_id: String,
    pub skill_name: String,
    pub required_level: u32,
    pub required_exp: u64,
    pub cost: u64,
    pub prerequisite: Option<String>,
}

/// A trainer: the NPC, its school and the skills it teaches, in order.
#[derive(Debug)]
pub struct Trainer {
    pub base: NpcBase,
    pub school: String,
    pub teachable_skills: Vec<TeachableSkill>,
}

/// Skill `s` is open to a player of level `level` and cultivation `exp`.
pub open spec fn open_to(s: TeachableSkill, level: u32, exp: u64) -> bool {
    s.required_level <= level && s.required_exp <= exp
}

/// The skills of `ss` open to the player, in order.
pub open spec fn open_skills(ss: Seq<TeachableSkill>, level: u32, exp: u64) -> Seq<TeachableSkill>
    decreases ss.len(),
{
    if ss.len() == 0 {
        seq![]
    } else {
        let rest = open_skills(ss.drop_last(), level, exp);
        if open_to(ss.last(), level, exp) { rest.push(ss.last()) } else { rest }
    }
}

/// A number of cultivation points in words: in 亿 (10^8) or 万 (10^4),
/// rounded down, or as it is below 10^4.
pub open spec fn chinese_num_text(n: u64) -> Seq<char> {
    if n >= 1_0000_0000 {
        nat_digits((n / 1_0000_0000) as nat) + "亿"@
    } else if n >= 1_0000 {
        nat_digits((n / 1_0000) as nat) + "万"@
    } else {
        nat_digits(n as nat)
    }
}

/// The first place of skill `id` in `ss`.
pub open spec fn skill_pos(ss: Seq<TeachableSkill>, id: Seq<char>, i: int) -> bool {
    0 <= i < ss.len() && ss[i].skill_id@ == id && forall|j: int| 0 <= j < i ==> ss[j].skill_id@ != id
}

/// The line of skill `s` in a trainer's list for the player.
pub open spec fn skill_line(s: TeachableSkill, level: u32, exp: u64) -> Seq<char> {
    (if open_to(s, level, exp) { "§g可学§r"@ } else { "§c未解锁§r"@ }) + "【"@ + s.skill_name@ + "】"@ + s.skill_id@
        + " - "@ + nat_digits(s.cost as nat) + " 金 "@
        + (if s.required_level > level { "(需"@ + nat_digits(s.required_level as nat) + "级)"@ }
           else if s.prerequisite is Some { "(需前置技能)"@ } else { seq![] })
        + "\n"@
}

/// The lines of the skills of `ss`.
pub open spec fn skill_lines(ss: Seq<TeachableSkill>, level: u32, exp: u64) -> Seq<char>
    decreases ss.len(),
{
    if ss.len() == 0 { seq![] } else { skill_lines(ss.drop_last(), level, exp) + skill_line(ss.last(), level, exp) }
}

/// The strings of `v` hold `k`.
pub open spec fn holds(v: Seq<String>, k: Seq<char>) -> bool {
    exists|i: int| 0 <= i < v.len() && (#[trigger] v[i])@ == k
}

fn chinese_num(n: u64) -> (r: String)
    ensures
        r@ == chinese_num_text(n),
{
    let mut s = String::new();
    if n >= 1_0000_0000 {
        push_u64(&mut s, n / 1_0000_0000);
        push_str(&mut s, "亿");
    } else if n >= 1_0000 {
        push_u64(&mut s, n / 1_0000);
        push_str(&mut s, "万");
    } else {
        push_u64(&mut s, n);
    }
    s
}

fn slice_holds(v: &[String], k: &str) -> (r: bool)
    ensures
        r == holds(v@, k@),
{
    let mut i: usize = 0;
    while i < v.len()
        invariant
            i <= v@.len(),
            forall|j: int| 0 <= j < i ==> (#[trigger] v@[j])@ != k@,
        decreases v.len() - i,
    {
        if str_eq(v[i].as_str(), k) {
            return true;
        }
        i = i + 1;
    }
    false
}

impl Trainer {
    /// A trainer of school `school` teaching nothing yet, described as the
    /// school's trainer.
    pub fn new(name: String, name_cn: String, school: String) -> (r: Self)
        ensures
            r.base.name == name && r.base.template_id == name && r.base.name_cn == name_cn,
            r.base.npc_type == NpcType::Trainer && r.base.level == 1,
            r.base.desc@ == school@ + "的训练师，可以教授各种技能。"@,
            r.base.dialogue@.len() == 0,
            r.school == school && r.teachable_skills@.len() == 0,
    {
        let mut desc = String::new();
        push_str(&mut desc, school.as_str());
        push_str(&mut desc, "的训练师，可以教授各种技能。");
        let base = NpcBase::new(name, name_cn, NpcType::Trainer).with_desc(desc);
        Trainer { base, school, teachable_skills: Vec::new() }
    }

    /// Adds a skill at the end of the list.
    pub fn add_skill(&mut self, skill: TeachableSkill)
        ensures
            final(self).teachable_skills@ == old(self).teachable_skills@.push(skill),
            final(self).base == old(self).base && final(self).school == old(self).school,
    {
        self.teachable_skills.push(skill);
    }

    /// The skills open to a player of level `player_level` and cultivation
    /// `player_exp`, in order.
    pub fn get_learnable_skills(&self, player_level: u32, player_exp: u64) -> (r: Vec<&TeachableSkill>)
        ensures
            r@.map_values(|s: &TeachableSkill| *s) == open_skills(self.teachable_skills@, player_level, player_exp),
    {
        let ss = &self.teachable_skills;
        let mut r: Vec<&TeachableSkill> = Vec::new();
        let mut i: usize = 0;
        while i < ss.len()
            invariant
                i <= ss@.len(),
                r@.map_values(|s: &TeachableSkill| *s) == open_skills(ss@.take(i as int), player_level, player_exp),
            decreases ss.len() - i,
        {
            assert(ss@.take(i as int + 1).drop_last() == ss@.take(i as int));
            assert(ss@.take(i as int + 1).last() == ss@[i as int]);
            let ghost before = r@;
            if ss[i].required_level <= player_level && ss[i].required_exp <= player_exp {
                r.push(&ss[i]);
                assert(r@ == before.push(&ss@[i as int]));
            }
            assert(r@.map_values(|s: &TeachableSkill| *s) =~= open_skills(ss@.take(i as int + 1), player_level, player_exp));
            i = i + 1;
        }
        assert(ss@.take(ss@.len() as int) == ss@);
        r
    }

    /// Whether the player may learn skill `skill_id` (its first entry).
    /// Fails with 技能不存在 for a skill not taught, 等级不足，需要N级 below its
    /// level, 修为不足，需要N below its cultivation (see `chinese_num_text`)
    /// and 需要先学习前置技能: P without its prerequisite among
    /// `learned_skills`.
    pub fn can_learn(&self, skill_id: &str, player_level: u32, player_exp: u64, learned_skills: &[String]) -> (r: Result<(), MudError>)
        ensures
            (forall|i: int| 0 <= i < self.teachable_skills@.len() ==> (#[trigger] self.teachable_skills@[i]).skill_id@ != skill_id@)
                ==> (r matches Err(MudError::NotFound(m)) && m@ == "技能不存在"@),
            forall|i: int| #[trigger] skill_pos(self.teachable_skills@, skill_id@, i) ==> ({
                let s = self.teachable_skills@[i];
                if s.required_level > player_level {
                    r matches Err(MudError::InvalidOperation(m)) && m@ == "等级不足，需要"@ + nat_digits(s.required_level as nat) + "级"@
                } else if s.required_exp > player_exp {
                    r matches Err(MudError::InvalidOperation(m)) && m@ == "修为不足，需要"@ + chinese_num_text(s.required_exp)
                } else if s.prerequisite matches Some(p) && !holds(learned_skills@, p@) {
                    r matches Err(MudError::InvalidOperation(m)) && m@ == "需要先学习前置技能: "@ + s.prerequisite->0@
                } else {
                    r is Ok
                }
            }),
    {
        let ss = &self.teachable_skills;
        let mut i: usize = 0;
        while i < ss.len()
            invariant
                i <= ss@.len(),
                ss@ == self.teachable_skills@,
                forall|j: int| 0 <= j < i ==> (#[trigger] ss@[j]).skill_id@ != skill_id@,
            decreases ss.len() - i,
        {
            if str_eq(ss[i].skill_id.as_str(), skill_id) {
                let s = &ss[i];
                assert(self.teachable_skills@[i as int].skill_id@ == skill_id@);
                assert(skill_pos(ss@, skill_id@, i as int));
                assert forall|k: int| #[trigger] skill_pos(ss@, skill_id@, k) implies k == i by {
                    if k < i { } else if k > i { assert(ss@[i as int].skill_id@ == skill_id@); }
                }
                if s.required_level > player_level {
                    let mut m = string_of("等级不足，需要");
                    push_u64(&mut m, s.required_level as u64);
                    push_str(&mut m, "级");
                    return Err(MudError::InvalidOperation(m));
                }
                if s.required_exp > player_exp {
                    let mut m = string_of("修为不足，需要");
                    let t = chinese_num(s.required_exp);
                    push_str(&mut m, t.as_str());
                    return Err(MudError::InvalidOperation(m));
                }
                match &s.prerequisite {
                    Some(p) => {
                        if !slice_holds(learned_skills, p.as_str()) {
                            let mut m = string_of("需要先学习前置技能: ");
                            push_str(&mut m, p.as_str());
                            return Err(MudError::InvalidOperation(m));
                        }
                    },
                    None => {},
                }
                return Ok(());
            }
            i = i + 1;
        }
        Err(not_found("技能不存在"))
    }

    /// The trainer's list for a player of level `player_level` and
    /// cultivation `player_exp`: a heading, the trainer's name, then a line
    /// per skill (see `skill_line`).
    pub fn render_skill_list(&self, player_level: u32, player_exp: u64) -> (r: String)
        ensures
            r@ == "=== "@ + self.school@ + " 技能列表 ===\n训练师: "@ + self.base.name_cn@ + "\n\n"@
                + skill_lines(self.teachable_skills@, player_level, player_exp),
    {
        let mut out = string_of("=== ");
        push_str(&mut out, self.school.as_str());
        push_str(&mut out, " 技能列表 ===\n训练师: ");
        push_str(&mut out, self.base.name_cn.as_str());
        push_str(&mut out, "\n\n");
        let ghost head = out@;
        let ss = &self.teachable_skills;
        let mut i: usize = 0;
        while i < ss.len()
            invariant
                i <= ss@.len(),
                out@ == head + skill_lines(ss@.take(i as int), player_level, player_exp),
            decreases ss.len() - i,
        {
            assert(ss@.take(i as int + 1).drop_last() == ss@.take(i as int));
            assert(ss@.take(i as int + 1).last() == ss@[i as int]);
            let s = &ss[i];
            let ghost before = out@;
            if s.required_level <= player_level && s.required_exp <= player_exp {
                push_str(&mut out, "§g可学§r");
            } else {
                push_str(&mut out, "§c未解锁§r");
            }
            push_str(&mut out, "【");
            push_str(&mut out, s.skill_name.as_str());
            push_str(&mut out, "】");
            push_str(&mut out, s.skill_id.as_str());
            push_str(&mut out, " - ");
            push_u64(&mut out, s.cost);
            push_str(&mut out, " 金 ");
            if s.required_level > player_level {
                push_str(&mut out, "(需");
                push_u64(&mut out, s.required_level as u64);
                push_str(&mut out, "级)");
            } else if s.prerequisite.is_some() {
                push_str(&mut out, "(需前置技能)");
            }
            push_str(&mut out, "\n");
            assert(out@ =~= before + skill_line(ss@[i as int], player_level, player_exp));
            i = i + 1;
        }
        assert(ss@.take(ss@.len() as int) == ss@);
        out
    }
}

/// `s` is the skill given.
pub open spec fn teaches(s: TeachableSkill, id: Seq<char>, name: Seq<char>, level: u32, exp: u64, cost: u64,
    prereq: Option<Seq<char>>) -> bool {
    &&& s.skill_id@ == id && s.skill_name@ == name && s.required_level == level && s.required_exp == exp && s.cost == cost
    &&& match prereq { Some(p) => s.prerequisite matches Some(q) && q@ == p, None => s.prerequisite is None }
}

fn skill(id: &str, name: &str, level: u32, exp: u64, cost: u64, prereq: Option<&str>) -> (r: TeachableSkill)
    ensures
        teaches(r, id@, name@, level, exp, cost, match prereq { Some(p) => Some(p@), None => None }),
{
    TeachableSkill {
        skill_id: string_of(id),
        skill_name: string_of(name),
        required_level: level,
        required_exp: exp,
        cost,
        prerequisite: match prereq { Some(p) => Some(string_of(p)), None => None },
    }
}

/// The trainers the game starts with: the 武师 of 基础战斗 (three skills)
/// and the 道长 of 内功心法 (two skills).
pub fn create_preset_trainers() -> (r: Vec<Trainer>)
    ensures
        r@.len() == 2,
        r@[0].base.name@ == "trainer_basic"@ && r@[0].base.name_cn@ == "武师"@ && r@[0].school@ == "基础战斗"@,
        r@[0].base.desc@ == "一位经验丰富的武师，可以教给你基本的战斗技巧。"@,
        r@[0].base.dialogue@.len() == 1 && r@[0].base.dialogue@[0]@ == "想学功夫吗？我可以教你几招！"@,
        r@[0].teachable_skills@.len() == 3,
        teaches(r@[0].teachable_skills@[0], "skill_basic_attack"@, "基础攻击"@, 1, 0, 100, None),
        teaches(r@[0].teachable_skills@[1], "skill_power_strike"@, "强力攻击"@, 5, 1000, 500, Some("skill_basic_attack"@)),
        teaches(r@[0].teachable_skills@[2], "skill_defense"@, "防御姿态"@, 3, 500, 300, None),
        r@[1].base.name@ == "trainer_neigong"@ && r@[1].base.name_cn@ == "道长"@ && r@[1].school@ == "内功心法"@,
        r@[1].base.desc@ == "一位修为高深的道长，精通各种内功心法。"@,
        r@[1].base.dialogue@.len() == 0,
        r@[1].teachable_skills@.len() == 2,
        teaches(r@[1].teachable_skills@[0], "skill_qigong"@, "基础气功"@, 10, 10000, 1000, None),
        teaches(r@[1].teachable_skills@[1], "skill_meditation"@, "打坐调息"@, 15, 50000, 5000, Some("skill_qigong"@)),
{
    let mut basic = Trainer::new(string_of("trainer_basic"), string_of("武师"), string_of("基础战斗"));
    basic.base.desc = string_of("一位经验丰富的武师，可以教给你基本的战斗技巧。");
    basic.base.add_dialogue(string_of("想学功夫吗？我可以教你几招！"));
    basic.add_skill(skill("skill_basic_attack", "基础攻击", 1, 0, 100, None));
    basic.add_skill(skill("skill_power_strike", "强力攻击", 5, 1000, 500, Some("skill_basic_attack")));
    basic.add_skill(skill("skill_defense", "防御姿态", 3, 500, 300, None));
    let mut neigong = Trainer::new(string_of("trainer_neigong"), string_of("道长"), string_of("内功心法"));
    neigong.base.desc = string_of("一位修为高深的道长，精通各种内功心法。");
    neigong.add_skill(skill("skill_qigong", "基础气功", 10, 10000, 1000, None));
    neigong.add_skill(skill("skill_meditation", "打坐调息", 15, 50000, 5000, Some("skill_qigong")));
    let mut r: Vec<Trainer> = Vec::new();
    r.push(basic);
    r.push(neigong);
    r
}

} // verus!
