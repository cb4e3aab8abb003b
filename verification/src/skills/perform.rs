//! Special moves: what they cost, how hard they hit, and which of them a
//! player can use. The attack factor is held in tenths (15 means 1.5).
use vstd::prelude::*;
use crate::text::{push_str, push_u64, string_of, str_eq, nat_digits};
use crate::util::{Keyed, key_get, keys_unique, get_key};

verus! {

/// The kind of harm a move does.
#[derive(Clone, Copy, Debug, PartialEq, Eq, Structural)]
pub enum DamageType {
    Normal,
    Poison,
    Ice,
    Fire,
    Thunder,
    Internal,
}

/// What a performed move came to.
#[derive(Clone, Copy, Debug, PartialEq, Eq, Structural)]
pub struct PerformResult {
    pub damage: u32,
    pub qi_damage: u32,
    pub shen_damage: u32,
    pub jing_damage: u32,
    pub damage_type: DamageType,
    pub is_aoe: bool,
    pub stun_rounds: u32,
}

/// A special move of a skill.
#[derive(Clone, Debug)]
pub struct Perform {
    pub id: String,
    pub name: String,
    pub name_cn: String,
    pub skill_id: String,
    pub required_level: u32,
    pub qi_cost: u32,
    pub shen_cost: u32,
    /// The attack factor in tenths.
    pub attack_tenths: u32,
    pub damage_type: DamageType,
    pub bonus_damage: i32,
    pub qi_damage: u32,
    pub shen_damage: u32,
    pub jing_damage: u32,
    pub is_aoe: bool,
    pub stun_rounds: u32,
    pub cooldown: u32,
    pub description: String,
}

impl Keyed for Perform {
    open spec fn key_view(&self) -> Seq<char> {
        self.id@
    }

    fn key(&self) -> (r: &String) {
        &self.id
    }
}

/// `p` holds the cost, factor, extra harm, cooldown and text given.
pub open spec fn perform_shape(p: Perform, qi: u32, shen: u32, tenths: u32, dtype: DamageType, bonus: i32,
    qd: u32, sd: u32, jd: u32, cd: u32, desc: Seq<char>) -> bool {
    &&& p.qi_cost == qi && p.shen_cost == shen && p.attack_tenths == tenths
    &&& p.damage_type == dtype && p.bonus_damage == bonus
    &&& p.qi_damage == qd && p.shen_damage == sd && p.jing_damage == jd
    &&& !p.is_aoe && p.stun_rounds == 0 && p.cooldown == cd && p.description@ == desc
}

/// The bonus as the unsigned value it wraps to.
pub open spec fn wrapped_bonus(b: i32) -> int {
    if b >= 0 { b as int } else { b + 0x1_0000_0000 }
}

/// The damage a move with this factor and bonus does: the scaled attack
/// (capped at `u32::MAX`), less the defence but at least 1, plus the
/// wrapped bonus, capped at `u32::MAX`.
pub open spec fn move_damage(tenths: int, bonus: i32, attack: int, defense: int) -> int {
    let scaled = attack * tenths / 10;
    let base = if scaled > u32::MAX { u32::MAX as int } else { scaled };
    let after = if base > defense { base - defense } else { 0 };
    let floor = if after < 1 { 1 } else { after };
    let total = floor + wrapped_bonus(bonus);
    if total > u32::MAX { u32::MAX as int } else { total }
}

/// The cooldown note of the move card.
pub open spec fn cooldown_note(cd: u32) -> Seq<char> {
    if cd > 0 { " §c(冷却:"@ + nat_digits(cd as nat) + ")§N"@ } else { seq![] }
}

/// The card that describes move `p` with `cd` rounds of cooldown left.
pub open spec fn perform_card(p: Perform, cd: u32) -> Seq<char> {
    "§Y【"@ + p.name_cn@ + "】§N "@ + nat_digits(p.required_level as nat) + "级\n消耗:内力"@
        + nat_digits(p.qi_cost as nat) + " 精神"@ + nat_digits(p.shen_cost as nat) + "\n攻击系数: "@
        + nat_digits((p.attack_tenths / 10) as nat) + "."@ + nat_digits((p.attack_tenths % 10) as nat)
        + cooldown_note(cd) + "\n"@ + p.description@
}

impl Perform {
    /// A move of skill `skill_id` that needs level `required_level`: it
    /// costs 10 qi, hits with factor 1.0, has a cooldown of 1 and no extras.
    pub fn new(id: String, name_cn: String, skill_id: String, required_level: u32) -> (r: Self)
        ensures
            r.id == id && r.name@ == name_cn@ && r.name_cn == name_cn && r.skill_id == skill_id,
            r.required_level == required_level,
            perform_shape(r, 10, 0, 10, DamageType::Normal, 0, 0, 0, 0, 1, seq![]),
    {
        let name = name_cn.clone();
        Perform {
            id,
            name,
            name_cn,
            skill_id,
            required_level,
            qi_cost: 10,
            shen_cost: 0,
            attack_tenths: 10,
            damage_type: DamageType::Normal,
            bonus_damage: 0,
            qi_damage: 0,
            shen_damage: 0,
            jing_damage: 0,
            is_aoe: false,
            stun_rounds: 0,
            cooldown: 1,
            description: String::new(),
        }
    }

    /// The move with its qi and spirit costs set.
    pub fn with_cost(self, qi_cost: u32, shen_cost: u32) -> (r: Self)
        ensures
            r == (Perform { qi_cost, shen_cost, ..self }),
    {
        Perform { qi_cost, shen_cost, ..self }
    }

    /// The move with its attack factor set, in tenths.
    pub fn with_attack(self, tenths: u32) -> (r: Self)
        ensures
            r == (Perform { attack_tenths: tenths, ..self }),
    {
        Perform { attack_tenths: tenths, ..self }
    }

    /// The move with its kind of harm set.
    pub fn with_damage_type(self, dtype: DamageType) -> (r: Self)
        ensures
            r == (Perform { damage_type: dtype, ..self }),
    {
        Perform { damage_type: dtype, ..self }
    }

    /// The move with its harm to qi, body and spirit set.
    pub fn with_special_damage(self, qi: u32, shen: u32, jing: u32) -> (r: Self)
        ensures
            r == (Perform { qi_damage: qi, shen_damage: shen, jing_damage: jing, ..self }),
    {
        Perform { qi_damage: qi, shen_damage: shen, jing_damage: jing, ..self }
    }

    /// The move with its extra damage set.
    pub fn with_bonus_damage(self, bonus: i32) -> (r: Self)
        ensures
            r == (Perform { bonus_damage: bonus, ..self }),
    {
        Perform { bonus_damage: bonus, ..self }
    }

    /// The move with its area flag set.
    pub fn with_aoe(self, is_aoe: bool) -> (r: Self)
        ensures
            r == (Perform { is_aoe, ..self }),
    {
        Perform { is_aoe, ..self }
    }

    /// The move with its cooldown set.
    pub fn with_cooldown(self, cd: u32) -> (r: Self)
        ensures
            r == (Perform { cooldown: cd, ..self }),
    {
        Perform { cooldown: cd, ..self }
    }

    /// The move with its description set.
    pub fn with_description(self, desc: String) -> (r: Self)
        ensures
            r == (Perform { description: desc, ..self }),
    {
        Perform { description: desc, ..self }
    }

    /// What the move does from an attack of `attacker_attack` against a
    /// defence of `defender_defense`.
    pub fn calculate_damage(&self, attacker_attack: u32, defender_defense: u32) -> (r: PerformResult)
        ensures
            r.damage == move_damage(self.attack_tenths as int, self.bonus_damage, attacker_attack as int,
                defender_defense as int),
            r.qi_damage == self.qi_damage && r.shen_damage == self.shen_damage && r.jing_damage == self.jing_damage,
            r.damage_type == self.damage_type && r.is_aoe == self.is_aoe && r.stun_rounds == self.stun_rounds,
    {
        let a: u64 = attacker_attack as u64;
        let t: u64 = self.attack_tenths as u64;
        assert(a * t <= 0xffff_ffffu64 * 0xffff_ffffu64) by (nonlinear_arith)
            requires a <= 0xffff_ffffu64, t <= 0xffff_ffffu64;
        let scaled: u64 = a * t / 10;
        let base: u32 = if scaled > 0xffff_ffff { 0xffff_ffff } else { scaled as u32 };
        let after: u32 = base.saturating_sub(defender_defense);
        let floor: u32 = if after < 1 { 1 } else { after };
        let bonus: u32 = if self.bonus_damage >= 0 {
            self.bonus_damage as u32
        } else {
            (self.bonus_damage as i64 + 0x1_0000_0000i64) as u32
        };
        let damage: u32 = floor.saturating_add(bonus);
        PerformResult {
            damage,
            qi_damage: self.qi_damage,
            shen_damage: self.shen_damage,
            jing_damage: self.jing_damage,
            damage_type: self.damage_type,
            is_aoe: self.is_aoe,
            stun_rounds: self.stun_rounds,
        }
    }

    /// The card that describes the move, with `current_cd` rounds of
    /// cooldown left.
    pub fn format_info(&self, current_cd: u32) -> (r: String)
        ensures
            r@ == perform_card(*self, current_cd),
    {
        let mut s = string_of("§Y【");
        push_str(&mut s, self.name_cn.as_str());
        push_str(&mut s, "】§N ");
        push_u64(&mut s, self.required_level as u64);
        push_str(&mut s, "级\n消耗:内力");
        push_u64(&mut s, self.qi_cost as u64);
        push_str(&mut s, " 精神");
        push_u64(&mut s, self.shen_cost as u64);
        push_str(&mut s, "\n攻击系数: ");
        push_u64(&mut s, (self.attack_tenths / 10) as u64);
        push_str(&mut s, ".");
        push_u64(&mut s, (self.attack_tenths % 10) as u64);
        if current_cd > 0 {
            push_str(&mut s, " §c(冷却:");
            push_u64(&mut s, current_cd as u64);
            push_str(&mut s, ")§N");
        }
        push_str(&mut s, "\n");
        push_str(&mut s, self.description.as_str());
        proof {
            if current_cd > 0 {
                assert(s@ =~= perform_card(*self, current_cd));
            } else {
                assert(s@ =~= perform_card(*self, current_cd));
            }
        }
        s
    }
}

/// `p` is of skill `skill` and, where a level is given, needs no more than it.
pub open spec fn perform_fits(p: Perform, skill: Seq<char>, level: Option<u32>) -> bool {
    p.skill_id@ == skill && match level {
        Some(l) => p.required_level <= l,
        None => true,
    }
}

/// The moves of `s` that fit, in order.
pub open spec fn performs_fitting(s: Seq<Perform>, skill: Seq<char>, level: Option<u32>) -> Seq<Perform>
    decreases s.len(),
{
    if s.len() == 0 {
        seq![]
    } else {
        let rest = performs_fitting(s.drop_last(), skill, level);
        if perform_fits(s.last(), skill, level) { rest.push(s.last()) } else { rest }
    }
}

/// The moves the game starts with, by id, and what each one is.
pub open spec fn default_perform(p: Perform, i: int) -> bool {
    let id = p.id@;
    let name = p.name_cn@;
    let skill = p.skill_id@;
    let level = p.required_level;
    p.name@ == name && (
        if i == 0 {
            id == "perform_basic_attack_1"@ && name == "普通攻击"@ && skill == "skill_basic_attack"@ && level == 1
            && perform_shape(p, 0, 0, 10, DamageType::Normal, 0, 0, 0, 0, 0, "最基础的攻击招式。"@)
        } else if i == 1 {
            id == "perform_xionghuquan_1"@ && name == "猛虎出笼"@ && skill == "skill_xionghuquan"@ && level == 10
            && perform_shape(p, 15, 0, 13, DamageType::Normal, 0, 0, 10, 0, 2, "武堂入门招式，如猛虎出笼。"@)
        } else if i == 2 {
            id == "perform_xionghuquan_2"@ && name == "虎啸山林"@ && skill == "skill_xionghuquan"@ && level == 30
            && perform_shape(p, 25, 5, 16, DamageType::Normal, 0, 10, 20, 5, 3, "武堂进阶招式，虎啸山林震八方。"@)
        } else if i == 3 {
            id == "perform_taiji_1"@ && name == "太极起手"@ && skill == "skill_taiji"@ && level == 10
            && perform_shape(p, 10, 0, 11, DamageType::Internal, 0, 0, 0, 0, 2, "武当入门剑法，以柔克刚。"@)
        } else if i == 4 {
            id == "perform_taiji_2"@ && name == "太极圆转"@ && skill == "skill_taiji"@ && level == 30
            && perform_shape(p, 20, 5, 14, DamageType::Internal, 0, 0, 15, 10, 3, "武当进阶剑法，圆转如意。"@)
        } else if i == 5 {
            id == "perform_luohanquan_1"@ && name == "罗汉拜佛"@ && skill == "skill_luohanquan"@ && level == 10
            && perform_shape(p, 15, 0, 12, DamageType::Normal, 5, 0, 0, 0, 2, "少林入门拳法，刚猛有力。"@)
        } else if i == 6 {
            id == "perform_luohanquan_2"@ && name == "罗汉降龙"@ && skill == "skill_luohanquan"@ && level == 30
            && perform_shape(p, 25, 5, 15, DamageType::Normal, 15, 10, 0, 0, 3, "少林进阶拳法，势不可挡。"@)
        } else {
            id == "perform_dugu_1"@ && name == "破剑式"@ && skill == "skill_dugujiujian"@ && level == 20
            && perform_shape(p, 30, 0, 15, DamageType::Internal, 0, 0, 20, 0, 3, "华山剑法，专破诸般兵刃。"@)
        })
}

/// The registry of special moves.
pub struct PerformManager {
    pub performs: Vec<Perform>,
}

impl PerformManager {
    /// No two moves share an id.
    pub open spec fn wf(&self) -> bool {
        keys_unique(self.performs@)
    }

    /// The registry with the moves the game starts with.
    pub fn new() -> (r: Self)
        ensures
            r.wf(),
            r.performs@.len() == 8,
            forall|i: int| 0 <= i < 8 ==> default_perform(#[trigger] r.performs@[i], i),
    {
        let mut m = PerformManager { performs: Vec::new() };
        m.init_default_performs();
        m
    }

    fn init_default_performs(&mut self)
        requires
            old(self).performs@.len() == 0,
        ensures
            final(self).wf(),
            final(self).performs@.len() == 8,
            forall|i: int| 0 <= i < 8 ==> default_perform(#[trigger] final(self).performs@[i], i),
    {
        let p0 = Perform::new(string_of("perform_basic_attack_1"), string_of("普通攻击"), string_of("skill_basic_attack"), 1)
            .with_cost(0, 0).with_attack(10).with_cooldown(0).with_description(string_of("最基础的攻击招式。"));
        let p1 = Perform::new(string_of("perform_xionghuquan_1"), string_of("猛虎出笼"), string_of("skill_xionghuquan"), 10)
            .with_cost(15, 0).with_attack(13).with_special_damage(0, 10, 0).with_cooldown(2)
            .with_description(string_of("武堂入门招式，如猛虎出笼。"));
        let p2 = Perform::new(string_of("perform_xionghuquan_2"), string_of("虎啸山林"), string_of("skill_xionghuquan"), 30)
            .with_cost(25, 5).with_attack(16).with_special_damage(10, 20, 5).with_cooldown(3)
            .with_description(string_of("武堂进阶招式，虎啸山林震八方。"));
        let p3 = Perform::new(string_of("perform_taiji_1"), string_of("太极起手"), string_of("skill_taiji"), 10)
            .with_cost(10, 0).with_attack(11).with_damage_type(DamageType::Internal).with_cooldown(2)
            .with_description(string_of("武当入门剑法，以柔克刚。"));
        let p4 = Perform::new(string_of("perform_taiji_2"), string_of("太极圆转"), string_of("skill_taiji"), 30)
            .with_cost(20, 5).with_attack(14).with_damage_type(DamageType::Internal).with_special_damage(0, 15, 10)
            .with_cooldown(3).with_description(string_of("武当进阶剑法，圆转如意。"));
        let p5 = Perform::new(string_of("perform_luohanquan_1"), string_of("罗汉拜佛"), string_of("skill_luohanquan"), 10)
            .with_cost(15, 0).with_attack(12).with_bonus_damage(5).with_cooldown(2)
            .with_description(string_of("少林入门拳法，刚猛有力。"));
        let p6 = Perform::new(string_of("perform_luohanquan_2"), string_of("罗汉降龙"), string_of("skill_luohanquan"), 30)
            .with_cost(25, 5).with_attack(15).with_bonus_damage(15).with_special_damage(10, 0, 0).with_cooldown(3)
            .with_description(string_of("少林进阶拳法，势不可挡。"));
        let p7 = Perform::new(string_of("perform_dugu_1"), string_of("破剑式"), string_of("skill_dugujiujian"), 20)
            .with_cost(30, 0).with_attack(15).with_damage_type(DamageType::Internal).with_special_damage(0, 20, 0)
            .with_cooldown(3).with_description(string_of("华山剑法，专破诸般兵刃。"));
        self.performs.push(p0);
        self.performs.push(p1);
        self.performs.push(p2);
        self.performs.push(p3);
        self.performs.push(p4);
        self.performs.push(p5);
        self.performs.push(p6);
        self.performs.push(p7);
        proof {
            let s = self.performs@;
            assert(default_perform(s[0], 0));
            assert(default_perform(s[1], 1));
            assert(default_perform(s[2], 2));
            assert(default_perform(s[3], 3));
            assert(default_perform(s[4], 4));
            assert(default_perform(s[5], 5));
            assert(default_perform(s[6], 6));
            assert(default_perform(s[7], 7));
            reveal_strlit("perform_basic_attack_1");
            reveal_strlit("perform_xionghuquan_1");
            reveal_strlit("perform_xionghuquan_2");
            reveal_strlit("perform_taiji_1");
            reveal_strlit("perform_taiji_2");
            reveal_strlit("perform_luohanquan_1");
            reveal_strlit("perform_luohanquan_2");
            reveal_strlit("perform_dugu_1");
            assert forall|i: int, j: int| 0 <= i < j < s.len() implies s[i].key_view() != s[j].key_view() by {
                if s[i].key_view() == s[j].key_view() {
                    let a = s[i].key_view();
                    let b = s[j].key_view();
                    assert(a.len() == b.len());
                    assert(a[a.len() - 1] == b[b.len() - 1]);
                }
            }
        }
    }

    /// The move with id `perform_id`, if any.
    pub fn get_perform(&self, perform_id: &str) -> (r: Option<&Perform>)
        requires
            self.wf(),
        ensures
            r matches Some(p) ==> key_get(self.performs@, perform_id@) == Some(*p),
            r is None <==> key_get(self.performs@, perform_id@) is None,
    {
        get_key(&self.performs, perform_id)
    }

    fn fitting(&self, skill_id: &str, level: Option<u32>) -> (r: Vec<&Perform>)
        ensures
            r@.map_values(|p: &Perform| *p) == performs_fitting(self.performs@, skill_id@, level),
    {
        let ps = &self.performs;
        let mut r: Vec<&Perform> = Vec::new();
        let mut i: usize = 0;
        while i < ps.len()
            invariant
                i <= ps@.len(),
                r@.map_values(|p: &Perform| *p) == performs_fitting(ps@.take(i as int), skill_id@, level),
            decreases ps.len() - i,
        {
            assert(ps@.take(i as int + 1).drop_last() == ps@.take(i as int));
            assert(ps@.take(i as int + 1).last() == ps@[i as int]);
            let ghost before = r@;
            let same = str_eq(ps[i].skill_id.as_str(), skill_id);
            let fits = match level {
                Some(l) => same && ps[i].required_level <= l,
                None => same,
            };
            if fits {
                r.push(&ps[i]);
                assert(r@ == before.push(&ps[i as int]));
            }
            assert(r@.map_values(|p: &Perform| *p) =~= performs_fitting(ps@.take(i as int + 1), skill_id@, level));
            i = i + 1;
        }
        assert(ps@.take(ps@.len() as int) == ps@);
        r
    }

    /// The moves of skill `skill_id`, in the order they were registered.
    pub fn get_skill_performs(&self, skill_id: &str) -> (r: Vec<&Perform>)
        ensures
            r@.map_values(|p: &Perform| *p) == performs_fitting(self.performs@, skill_id@, None),
    {
        self.fitting(skill_id, None)
    }

    /// The moves of skill `skill_id` that a skill level of `skill_level`
    /// allows, in the order they were registered.
    pub fn get_available_performs(&self, skill_id: &str, skill_level: u32) -> (r: Vec<&Perform>)
        ensures
            r@.map_values(|p: &Perform| *p) == performs_fitting(self.performs@, skill_id@, Some(skill_level)),
    {
        self.fitting(skill_id, Some(skill_level))
    }
}

impl Default for PerformManager {
    fn default() -> (r: Self)
        ensures
            r.wf(),
            r.performs@.len() == 8,
            forall|i: int| 0 <= i < 8 ==> default_perform(#[trigger] r.performs@[i], i),
    {
        PerformManager::new()
    }
}

} // verus!
