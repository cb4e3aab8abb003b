//! The schools (sects) of the game: their names, descriptions and
//! skills, listed in the order of their Chinese names.
use vstd::prelude::*;
use crate::text::{push_str, string_of, str_less, text_less};
use crate::util::{Keyed, key_get, keys_unique, get_key};
use crate::daemons::skilld::{Skill, SkillDaemon};

verus! {

/// A school.
#[derive(Debug)]
pub struct School {
    pub id: String,
    pub name: String,
    pub name_cn: String,
    pub description: String,
    pub skills: Vec<String>,
}

impl Keyed for School {
    open spec fn key_view(&self) -> Seq<char> {
        self.id@
    }

    fn key(&self) -> (r: &String) {
        &self.id
    }
}

impl School {
    /// The school's line: its Chinese name and description.
    pub fn format(&self) -> (r: String)
        ensures
            r@ == "§Y"@ + self.name_cn@ + "§N - "@ + self.description@ + "\n"@,
    {
        let mut out = string_of("§Y");
        push_str(&mut out, self.name_cn.as_str());
        push_str(&mut out, "§N - ");
        push_str(&mut out, self.description.as_str());
        push_str(&mut out, "\n");
        out
    }
}

/// The school register.
#[derive(Debug)]
pub struct SchoolDaemon {
    pub schools: Vec<School>,
}

/// `s` with `x` put after every school whose Chinese name does not come
/// after its own.
pub open spec fn insert_by_name(s: Seq<School>, x: School) -> Seq<School>
    decreases s.len(),
{
    if s.len() == 0 {
        seq![x]
    } else if !text_less(x.name_cn@, s.last().name_cn@) {
        s.push(x)
    } else {
        insert_by_name(s.drop_last(), x).push(s.last())
    }
}

/// The schools in the order of their Chinese names; schools of one name
/// keep their order.
pub open spec fn by_name(s: Seq<School>) -> Seq<School>
    decreases s.len(),
{
    if s.len() == 0 {
        Seq::empty()
    } else {
        insert_by_name(by_name(s.drop_last()), s.last())
    }
}

fn insert_school_ref<'a>(v: &mut Vec<&'a School>, x: &'a School)
    ensures
        final(v)@.map_values(|y: &School| *y) == insert_by_name(old(v)@.map_values(|y: &School| *y), *x),
{
    let ghost s0 = old(v)@.map_values(|y: &School| *y);
    let mut j: usize = v.len();
    assert(s0.take(j as int) =~= s0);
    assert(s0.skip(j as int) =~= Seq::<School>::empty());
    while j > 0 && str_less(x.name_cn.as_str(), v[j - 1].name_cn.as_str())
        invariant
            j <= v@.len(),
            v@ == old(v)@,
            s0 == v@.map_values(|y: &School| *y),
            insert_by_name(s0, *x) == insert_by_name(s0.take(j as int), *x) + s0.skip(j as int),
        decreases j,
    {
        proof {
            let t = s0.take(j as int);
            assert(t.drop_last() =~= s0.take(j - 1));
            assert(t.last() == s0[j - 1]);
            assert(s0.skip(j - 1) =~= seq![s0[j - 1]] + s0.skip(j as int));
            assert(insert_by_name(t, *x) =~= insert_by_name(s0.take(j - 1), *x).push(s0[j - 1]));
            assert(insert_by_name(s0.take(j - 1), *x).push(s0[j - 1]) + s0.skip(j as int)
                =~= insert_by_name(s0.take(j - 1), *x) + s0.skip(j - 1));
        }
        j = j - 1;
    }
    proof {
        let t = s0.take(j as int);
        if j == 0 {
            assert(t =~= Seq::<School>::empty());
        } else {
            assert(t.last() == s0[j - 1]);
        }
        assert(insert_by_name(t, *x) =~= t.push(*x));
    }
    v.insert(j, x);
    proof {
        assert(v@.map_values(|y: &School| *y) =~= s0.take(j as int).push(*x) + s0.skip(j as int));
    }
}

impl SchoolDaemon {
    /// Skill `skill_id` as the skill registry `skills` holds it, if it
    /// knows it: the schools keep no skills of their own.
    pub fn get_skill<'a>(&self, skills: &'a SkillDaemon, skill_id: &str) -> (r: Option<&'a Skill>)
        ensures
            r matches Some(s) ==> key_get(skills.skills@, skill_id@) == Some(*s),
            r is None <==> key_get(skills.skills@, skill_id@) is None,
    {
        skills.get_skill(skill_id)
    }

    /// One school per id.
    pub open spec fn wf(&self) -> bool {
        keys_unique(self.schools@)
    }

    /// The register with the nine schools of the game: 武堂, 武当, 少林, 天鹏,
    /// 游龙, 凝凤, 灵鹫, 星影宗 and 雄风宗.
    pub fn new() -> (r: Self)
        ensures
            r.wf(),
            r.schools@.len() == 9,
            r.schools@[0].id@ == "wutang"@ && r.schools@[1].id@ == "wudang"@ && r.schools@[2].id@ == "shaolin"@,
            r.schools@[3].id@ == "tianpeng"@ && r.schools@[4].id@ == "youlong"@ && r.schools@[5].id@ == "ningfeng"@,
            r.schools@[6].id@ == "lingjiu"@ && r.schools@[7].id@ == "xingxiu"@ && r.schools@[8].id@ == "huashan"@,
            forall|i: int| 0 <= i < 9 ==> (#[trigger] r.schools@[i]).name@ == r.schools@[i].id@,
    {
        let mut d = SchoolDaemon { schools: Vec::new() };
        d.init_default_schools();
        d
    }

    fn init_default_schools(&mut self)
        requires
            old(self).schools@.len() == 0,
        ensures
            final(self).wf(),
            final(self).schools@.len() == 9,
            final(self).schools@[0].id@ == "wutang"@ && final(self).schools@[1].id@ == "wudang"@ && final(self).schools@[2].id@ == "shaolin"@,
            final(self).schools@[3].id@ == "tianpeng"@ && final(self).schools@[4].id@ == "youlong"@ && final(self).schools@[5].id@ == "ningfeng"@,
            final(self).schools@[6].id@ == "lingjiu"@ && final(self).schools@[7].id@ == "xingxiu"@ && final(self).schools@[8].id@ == "huashan"@,
            forall|i: int| 0 <= i < 9 ==> (#[trigger] final(self).schools@[i]).name@ == final(self).schools@[i].id@,
    {
        let mut skills: Vec<String> = Vec::new();
        skills.push(string_of("skill_basic_attack"));
        skills.push(string_of("skill_crit_training"));
        self.schools.push(School { id: string_of("wutang"), name: string_of("wutang"), name_cn: string_of("武堂"), description: string_of("游戏中比较特殊的门派。武功特点为化繁为简，招式虽少，但威力惊人，武功易学易用。不管刀剑都采其别门派的绝学优点汇聚而成。"), skills });
        let mut skills: Vec<String> = Vec::new();
        skills.push(string_of("skill_heal"));
        self.schools.push(School { id: string_of("wudang"), name: string_of("wudang"), name_cn: string_of("武当"), description: string_of("素有\"北宗少林，南尊武当\"之称的武当门派由天涯剑客丰所创，武功讲求以柔克刚，借力打力。特点是形神合一，用意不用力，圆转贯串，滔滔不绝，为内家功之鼻祖。"), skills });
        let mut skills: Vec<String> = Vec::new();
        skills.push(string_of("skill_power_defense"));
        self.schools.push(School { id: string_of("shaolin"), name: string_of("shaolin"), name_cn: string_of("少林"), description: string_of("少林武功博大精深，名显于世。三十六路拳脚十八般兵器及各式各样的武学密籍，易筋无尽经书、洗髓经、72绝技更乃世间奇功。"), skills });
        let mut skills: Vec<String> = Vec::new();
        self.schools.push(School { id: string_of("tianpeng"), name: string_of("tianpeng"), name_cn: string_of("天鹏"), description: string_of("天鹏门善用剑法，门派依靠绝学天鹏剑法、金鹏剑法震慑武林。此剑法诡奇狠辣，难躲难防，如松之劲，如风之迅。"), skills });
        let mut skills: Vec<String> = Vec::new();
        self.schools.push(School { id: string_of("youlong"), name: string_of("youlong"), name_cn: string_of("游龙"), description: string_of("五行龙派以刀法闻名于世，出手诡异，变化多端，刚柔相济，浑厚苍劲。前期修炼突飞猛进。"), skills });
        let mut skills: Vec<String> = Vec::new();
        self.schools.push(School { id: string_of("ningfeng"), name: string_of("ningfeng"), name_cn: string_of("凝凤"), description: string_of("凝凤以剑法著称，门派绝学凝凤剑术与傲凰剑决，此派前期武功威力比较明显，但后期提高较慢，剑法妙招纷着，层出不穷。"), skills });
        let mut skills: Vec<String> = Vec::new();
        self.schools.push(School { id: string_of("lingjiu"), name: string_of("lingjiu"), name_cn: string_of("灵鹫"), description: string_of("灵鹫庙位于天山飘渺峰上，是武林之中的一大神秘帮派。由于灵鹫庙弟子行事隐秘，武功高强，招式狠毒。最为厉害的是八荒六合唯我独尊功。"), skills });
        let mut skills: Vec<String> = Vec::new();
        self.schools.push(School { id: string_of("xingxiu"), name: string_of("xingxiu"), name_cn: string_of("星影宗"), description: string_of("星影宗的开山祖师丁宏伟不同于道家的炼丹而是一生精于炼毒，任何功夫上都带有剧毒。主要武功有化功无尽大法、摘星功、吸髓掌、三阴蜈蚣无影爪等。"), skills });
        let mut skills: Vec<String> = Vec::new();
        skills.push(string_of("skill_fireball"));
        self.schools.push(School { id: string_of("huashan"), name: string_of("huashan"), name_cn: string_of("雄风宗"), description: string_of("原为五岳剑派中势力最强的雄风宗武功博大精深，历史源远流长。主要武功有华山飞瀑剑法、华山身法、三仙剑等，更有独影十八剑。"), skills });
        proof {
            reveal_strlit("wutang");
            reveal_strlit("wudang");
            reveal_strlit("shaolin");
            reveal_strlit("tianpeng");
            reveal_strlit("youlong");
            reveal_strlit("ningfeng");
            reveal_strlit("lingjiu");
            reveal_strlit("xingxiu");
            reveal_strlit("huashan");
            assert forall|a: int, b: int| 0 <= a < b < self.schools@.len() implies self.schools@[a].key_view() != self.schools@[b].key_view() by {
                assert(self.schools@[a].id@[0] != self.schools@[b].id@[0] || self.schools@[a].id@[2] != self.schools@[b].id@[2]
                    || self.schools@[a].id@.len() != self.schools@[b].id@.len());
            }
        }
    }

    /// The school with the id.
    pub fn get_school(&self, school_id: &str) -> (r: Option<&School>)
        ensures
            r matches Some(s) ==> key_get(self.schools@, school_id@) == Some(*s),
            r is None <==> key_get(self.schools@, school_id@) is None,
    {
        get_key(&self.schools, school_id)
    }

    /// Every school, in the order of their Chinese names.
    pub fn get_all_schools(&self) -> (r: Vec<&School>)
        ensures
            r@.map_values(|s: &School| *s) == by_name(self.schools@),
    {
        let mut sorted: Vec<&School> = Vec::new();
        let mut i: usize = 0;
        while i < self.schools.len()
            invariant
                i <= self.schools@.len(),
                sorted@.map_values(|s: &School| *s) == by_name(self.schools@.take(i as int)),
            decreases self.schools.len() - i,
        {
            assert(self.schools@.take(i + 1).drop_last() =~= self.schools@.take(i as int));
            insert_school_ref(&mut sorted, &self.schools[i]);
            i = i + 1;
        }
        assert(self.schools@.take(i as int) =~= self.schools@);
        sorted
    }
}

impl Default for SchoolDaemon {
    fn default() -> (r: Self)
        ensures
            r.wf(),
            r.schools@.len() == 9,
    {
        Self::new()
    }
}

} // verus!
