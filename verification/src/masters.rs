//! Masters and schools: a player becomes the apprentice of a master whose
//! requirements it meets, joins the master's school, rises through its
//! ranks and learns the skills its rank allows.
use vstd::prelude::*;
use crate::text::{push_str, push_u64, push_i64, string_of, str_eq, nat_digits, int_digits};
use crate::util::{take_key, Keyed, key_get, key_in, keys_unique, find_key, get_key, put_key, without_str,
    remove_all_str, lemma_key_in_get};
use crate::outside::current_timestamp;

verus! {

/// A rank in a school, from plain disciple up to grand master.
#[derive(Clone, Copy, Debug, PartialEq, Eq, Structural)]
pub enum SchoolRank {
    Disciple,
    InnerDisciple,
    SeniorDisciple,
    Elder,
    Master,
    GrandMaster,
}

/// The height of a rank: 1 for a disciple up to 6 for a grand master.
pub open spec fn rank_height(r: SchoolRank) -> int {
    match r {
        SchoolRank::Disciple => 1,
        SchoolRank::InnerDisciple => 2,
        SchoolRank::SeniorDisciple => 3,
        SchoolRank::Elder => 4,
        SchoolRank::Master => 5,
        SchoolRank::GrandMaster => 6,
    }
}

/// The name of a rank.
pub open spec fn rank_name(r: SchoolRank) -> Seq<char> {
    match r {
        SchoolRank::Disciple => "普通弟子"@,
        SchoolRank::InnerDisciple => "入室弟子"@,
        SchoolRank::SeniorDisciple => "传功弟子"@,
        SchoolRank::Elder => "长老"@,
        SchoolRank::Master => "掌门"@,
        SchoolRank::GrandMaster => "祖师"@,
    }
}

/// The rank above `r`, none above a grand master.
pub open spec fn rank_after(r: SchoolRank) -> Option<SchoolRank> {
    match r {
        SchoolRank::Disciple => Some(SchoolRank::InnerDisciple),
        SchoolRank::InnerDisciple => Some(SchoolRank::SeniorDisciple),
        SchoolRank::SeniorDisciple => Some(SchoolRank::Elder),
        SchoolRank::Elder => Some(SchoolRank::Master),
        SchoolRank::Master => Some(SchoolRank::GrandMaster),
        SchoolRank::GrandMaster => None,
    }
}

impl SchoolRank {
    /// The rank's name.
    pub fn cn_name(&self) -> (r: &'static str)
        ensures
            r@ == rank_name(*self),
    {
        match self {
            SchoolRank::Disciple => "普通弟子",
            SchoolRank::InnerDisciple => "入室弟子",
            SchoolRank::SeniorDisciple => "传功弟子",
            SchoolRank::Elder => "长老",
            SchoolRank::Master => "掌门",
            SchoolRank::GrandMaster => "祖师",
        }
    }

    /// The rank above, none above a grand master.
    pub fn next(&self) -> (r: Option<SchoolRank>)
        ensures
            r == rank_after(*self),
            r matches Some(n) ==> rank_height(n) == rank_height(*self) + 1,
    {
        match self {
            SchoolRank::Disciple => Some(SchoolRank::InnerDisciple),
            SchoolRank::InnerDisciple => Some(SchoolRank::SeniorDisciple),
            SchoolRank::SeniorDisciple => Some(SchoolRank::Elder),
            SchoolRank::Elder => Some(SchoolRank::Master),
            SchoolRank::Master => Some(SchoolRank::GrandMaster),
            SchoolRank::GrandMaster => None,
        }
    }

    /// The rank's height (see `rank_height`).
    pub fn height(&self) -> (r: u8)
        ensures
            r == rank_height(*self),
    {
        match self {
            SchoolRank::Disciple => 1,
            SchoolRank::InnerDisciple => 2,
            SchoolRank::SeniorDisciple => 3,
            SchoolRank::Elder => 4,
            SchoolRank::Master => 5,
            SchoolRank::GrandMaster => 6,
        }
    }
}

/// The bond of a master and an apprentice.
#[derive(Debug)]
pub struct MasterApprentice {
    pub master_id: String,
    pub apprentice_id: String,
    pub school_id: String,
    pub dharma_name: Option<String>,
    pub since: i64,
    pub rank: SchoolRank,
    pub contribution: i32,
}

impl Keyed for MasterApprentice {
    open spec fn key_view(&self) -> Seq<char> {
        self.apprentice_id@
    }

    fn key(&self) -> (r: &String) {
        &self.apprentice_id
    }
}

impl MasterApprentice {
    /// A bond made at `now`: a plain disciple, no dharma name, nothing
    /// contributed.
    pub fn new_at(master_id: String, apprentice_id: String, school_id: String, now: i64) -> (r: Self)
        ensures
            master_apprentice_new_done(master_id, apprentice_id, school_id, now, r),
    {
        MasterApprentice { master_id, apprentice_id, school_id, dharma_name: None, since: now, rank: SchoolRank::Disciple, contribution: 0 }
    }

    /// A bond made now (see `new_at`).
    pub fn new(master_id: String, apprentice_id: String, school_id: String) -> (r: Self)
        ensures
            exists|now: i64| #[trigger] master_apprentice_new_done(master_id, apprentice_id, school_id, now, r),
            r == (MasterApprentice { master_id, apprentice_id, school_id, dharma_name: None, since: r.since,
                rank: SchoolRank::Disciple, contribution: 0 }),
    {
        let now = current_timestamp();
        Self::new_at(master_id, apprentice_id, school_id, now)
    }
}

/// Bounds on a player's attributes: bone, strength, constitution,
/// dexterity and wit, each where it is set.
#[derive(Clone, Copy, Debug, PartialEq, Eq, Structural)]
pub struct StatRequirements {
    pub gen: Option<i32>,
    pub str: Option<i32>,
    pub con: Option<i32>,
    pub dex: Option<i32>,
    pub wit: Option<i32>,
}

impl Default for StatRequirements {
    fn default() -> (r: Self)
        ensures
            r == (StatRequirements { gen: None, str: None, con: None, dex: None, wit: None }),
    {
        StatRequirements { gen: None, str: None, con: None, dex: None, wit: None }
    }
}

/// A skill a master teaches, to apprentices of a rank or higher.
#[derive(Debug)]
pub struct TeachableSkill {
    pub skill_id: String,
    pub required_rank: SchoolRank,
    pub stat_requirements: Option<StatRequirements>,
    pub prerequisites: Vec<String>,
    pub cost: u32,
}

/// What a master asks of an apprentice.
#[derive(Debug)]
pub struct MasterRequirements {
    pub min_level: Option<u32>,
    pub stat_requirements: Option<StatRequirements>,
    pub exclusive: bool,
    pub quest_required: Option<String>,
}

/// A master.
#[derive(Debug)]
pub struct MasterData {
    pub id: String,
    pub name: String,
    pub school_id: String,
    pub rank: SchoolRank,
    pub teachable_skills: Vec<TeachableSkill>,
    pub requirements: MasterRequirements,
    pub location: String,
}

impl Keyed for MasterData {
    open spec fn key_view(&self) -> Seq<char> {
        self.id@
    }

    fn key(&self) -> (r: &String) {
        &self.id
    }
}

/// The members of a school.
#[derive(Debug)]
pub struct SchoolMembers {
    pub school_id: String,
    pub members: Vec<String>,
}

impl Keyed for SchoolMembers {
    open spec fn key_view(&self) -> Seq<char> {
        self.school_id@
    }

    fn key(&self) -> (r: &String) {
        &self.school_id
    }
}

/// The masters, each player's bond, and each school's members.
#[derive(Debug)]
pub struct MasterDaemon {
    pub masters: Vec<MasterData>,
    pub apprenticeships: Vec<MasterApprentice>,
    pub school_members: Vec<SchoolMembers>,
}

/// The master with id `id`.
pub open spec fn master_at(d: MasterDaemon, id: Seq<char>) -> Option<MasterData> {
    key_get(d.masters@, id)
}

/// The bond of player `p`.
pub open spec fn bond_of(d: MasterDaemon, p: Seq<char>) -> Option<MasterApprentice> {
    key_get(d.apprenticeships@, p)
}

/// The members of school `s`.
pub open spec fn members_of(d: MasterDaemon, s: Seq<char>) -> Seq<String> {
    match key_get(d.school_members@, s) {
        Some(m) => m.members@,
        None => seq![],
    }
}

/// The first bound of `req` that `stats` (an unset attribute counting as
/// 0) falls short of, in the order bone, strength, constitution,
/// dexterity, wit: the attribute's name and the bound.
pub open spec fn first_shortfall(req: StatRequirements, stats: StatRequirements) -> Option<(Seq<char>, i32)> {
    if short(req.gen, stats.gen) {
        Some(("根骨"@, req.gen->0))
    } else if short(req.str, stats.str) {
        Some(("臂力"@, req.str->0))
    } else if short(req.con, stats.con) {
        Some(("体质"@, req.con->0))
    } else if short(req.dex, stats.dex) {
        Some(("灵巧"@, req.dex->0))
    } else if short(req.wit, stats.wit) {
        Some(("悟性"@, req.wit->0))
    } else {
        None
    }
}

/// A bound is set and the attribute (0 when unset) falls short of it.
pub open spec fn short(bound: Option<i32>, have: Option<i32>) -> bool {
    bound is Some && (match have { Some(x) => x, None => 0i32 }) < bound->0
}

/// Why `player` of level `level` with attributes `stats` may not become an
/// apprentice of `master`, if it may not.
pub open spec fn apprentice_refusal(d: MasterDaemon, player: Seq<char>, master: Seq<char>, stats: StatRequirements, level: u32)
    -> Option<Seq<char>> {
    match master_at(d, master) {
        None => Some("找不到这位师父"@),
        Some(m) => if bond_of(d, player) is Some {
            Some("你已经拜过师父了，不能重复拜师"@)
        } else if m.requirements.min_level matches Some(min) && level < min {
            Some("你的等级不足，需要达到"@ + nat_digits(m.requirements.min_level->0 as nat) + "级才能拜师"@)
        } else {
            match m.requirements.stat_requirements {
                Some(req) => match first_shortfall(req, stats) {
                    Some((name, b)) => Some("你的"@ + name + "不足，需要达到"@ + int_digits(b as int)),
                    None => None,
                },
                None => None,
            }
        },
    }
}

/// The first skill of `s` with id `id`, if any.
pub open spec fn skill_in(s: Seq<TeachableSkill>, id: Seq<char>) -> Option<TeachableSkill>
    decreases s.len(),
{
    if s.len() == 0 {
        None
    } else {
        match skill_in(s.drop_last(), id) {
            Some(x) => Some(x),
            None => if s.last().skill_id@ == id { Some(s.last()) } else { None },
        }
    }
}

/// Why `player` may not learn skill `skill`, if it may not: it has no
/// master, its master is gone, the master does not teach the skill, or its
/// rank is too low.
pub open spec fn learn_refusal(d: MasterDaemon, player: Seq<char>, skill: Seq<char>) -> Option<Seq<char>> {
    match bond_of(d, player) {
        None => Some("你还没有拜师，无法学习门派武功"@),
        Some(b) => match master_at(d, b.master_id@) {
            None => Some("找不到你的师父"@),
            Some(m) => match skill_in(m.teachable_skills@, skill) {
                None => Some("你的师父不会这门武功"@),
                Some(t) => if rank_height(b.rank) < rank_height(t.required_rank) {
                    Some("你需要达到"@ + rank_name(t.required_rank) + "才能学习这门武功"@)
                } else {
                    None
                },
            },
        },
    }
}

/// The masters of `ms` in school `school`, in order.
pub open spec fn masters_in(ms: Seq<MasterData>, school: Seq<char>) -> Seq<MasterData>
    decreases ms.len(),
{
    if ms.len() == 0 {
        seq![]
    } else {
        let rest = masters_in(ms.drop_last(), school);
        if ms.last().school_id@ == school { rest.push(ms.last()) } else { rest }
    }
}

/// The rows of the built-in masters: id, name, school, rank, place,
/// level asked, attributes asked, and the one skill taught with the rank
/// it asks, the attributes it asks and its cost.
pub open spec fn master_row(m: MasterData) -> (Seq<char>, Seq<char>, Seq<char>, SchoolRank, Seq<char>, Option<u32>,
    Option<StatRequirements>, Seq<(Seq<char>, SchoolRank, Option<StatRequirements>, u32)>) {
    (m.id@, m.name@, m.school_id@, m.rank, m.location@, m.requirements.min_level, m.requirements.stat_requirements,
        m.teachable_skills@.map_values(|t: TeachableSkill| (t.skill_id@, t.required_rank, t.stat_requirements, t.cost)))
}

/// Master `m` takes disciples of no other master, asks no quest, and
/// teaches skills without prerequisites.
pub open spec fn plain_master(m: MasterData) -> bool {
    &&& m.requirements.exclusive && m.requirements.quest_required is None
    &&& forall|j: int| 0 <= j < m.teachable_skills@.len() ==> (#[trigger] m.teachable_skills@[j]).prerequisites@.len() == 0
}

/// Attributes with bone, strength, constitution, dexterity and wit.
pub open spec fn stats(gen: Option<i32>, str: Option<i32>, con: Option<i32>, dex: Option<i32>, wit: Option<i32>) -> StatRequirements {
    StatRequirements { gen, str, con, dex, wit }
}

/// The built-in masters of the martial hall, Wudang, Shaolin and Huashan.
pub open spec fn default_master_rows() -> Seq<(Seq<char>, Seq<char>, Seq<char>, SchoolRank, Seq<char>, Option<u32>,
    Option<StatRequirements>, Seq<(Seq<char>, SchoolRank, Option<StatRequirements>, u32)>)> {
    seq![
        ("master_wutang_leader"@, "武堂堂主"@, "wutang"@, SchoolRank::Master, "wutang_hall"@, Some(10u32),
            Some(stats(None, Some(20), None, None, None)),
            seq![("skill_xionghuquan"@, SchoolRank::Disciple, Some(stats(Some(20), Some(25), None, None, None)), 100u32)]),
        ("master_wudang_leader"@, "武当掌门"@, "wudang"@, SchoolRank::Master, "wudang_hall"@, Some(10u32),
            Some(stats(Some(25), None, None, None, None)),
            seq![("skill_taiji"@, SchoolRank::Disciple, Some(stats(Some(30), Some(15), None, Some(20), None)), 100u32)]),
        ("master_shaolin_leader"@, "少林方丈"@, "shaolin"@, SchoolRank::GrandMaster, "shaolin_hall"@, Some(10u32),
            Some(stats(None, Some(25), Some(15), None, None)),
            seq![("skill_luohanquan"@, SchoolRank::Disciple, Some(stats(None, Some(30), Some(20), None, None)), 100u32)]),
        ("master_huashan_leader"@, "华山掌门"@, "huashan"@, SchoolRank::Master, "huashan_hall"@, Some(20u32),
            Some(stats(None, None, None, Some(25), Some(30))),
            seq![("skill_dugujiujian"@, SchoolRank::InnerDisciple, Some(stats(Some(35), Some(20), None, Some(30), Some(25))), 500u32)]),
    ]
}

fn make_master(id: &str, name: &str, school: &str, rank: SchoolRank, location: &str, min_level: u32, req: StatRequirements,
    skill: &str, skill_rank: SchoolRank, skill_req: StatRequirements, cost: u32) -> (r: MasterData)
    ensures
        master_row(r) == (id@, name@, school@, rank, location@, Some(min_level), Some(req),
            seq![(skill@, skill_rank, Some(skill_req), cost)]),
        plain_master(r),
{
    let mut skills: Vec<TeachableSkill> = Vec::new();
    skills.push(TeachableSkill { skill_id: string_of(skill), required_rank: skill_rank, stat_requirements: Some(skill_req),
        prerequisites: Vec::new(), cost });
    let r = MasterData {
        id: string_of(id),
        name: string_of(name),
        school_id: string_of(school),
        rank,
        teachable_skills: skills,
        requirements: MasterRequirements { min_level: Some(min_level), stat_requirements: Some(req), exclusive: true, quest_required: None },
        location: string_of(location),
    };
    assert(r.teachable_skills@.map_values(|t: TeachableSkill| (t.skill_id@, t.required_rank, t.stat_requirements, t.cost))
        =~= seq![(skill@, skill_rank, Some(skill_req), cost)]);
    r
}

impl MasterDaemon {
    /// One master per id, one bond per player, one member list per school.
    pub open spec fn wf(&self) -> bool {
        keys_unique(self.masters@) && keys_unique(self.apprenticeships@) && keys_unique(self.school_members@)
    }

    /// The built-in masters, and nobody bound to one.
    pub fn new() -> (r: Self)
        ensures
            r.wf(),
            r.masters@.map_values(|m: MasterData| master_row(m)) == default_master_rows(),
            forall|i: int| 0 <= i < r.masters@.len() ==> plain_master(#[trigger] r.masters@[i]),
            r.apprenticeships@.len() == 0 && r.school_members@.len() == 0,
    {
        let mut d = MasterDaemon { masters: Vec::new(), apprenticeships: Vec::new(), school_members: Vec::new() };
        d.init_default_masters();
        d
    }

    fn init_default_masters(&mut self)
        requires
            old(self).masters@.len() == 0,
        ensures
            keys_unique(final(self).masters@),
            final(self).masters@.map_values(|m: MasterData| master_row(m)) == default_master_rows(),
            forall|i: int| 0 <= i < final(self).masters@.len() ==> plain_master(#[trigger] final(self).masters@[i]),
            final(self).apprenticeships@ == old(self).apprenticeships@ && final(self).school_members@ == old(self).school_members@,
    {
        let none = StatRequirements::default();
        self.masters.push(make_master("master_wutang_leader", "武堂堂主", "wutang", SchoolRank::Master, "wutang_hall", 10,
            StatRequirements { str: Some(20), ..none },
            "skill_xionghuquan", SchoolRank::Disciple, StatRequirements { gen: Some(20), str: Some(25), ..none }, 100));
        self.masters.push(make_master("master_wudang_leader", "武当掌门", "wudang", SchoolRank::Master, "wudang_hall", 10,
            StatRequirements { gen: Some(25), ..none },
            "skill_taiji", SchoolRank::Disciple, StatRequirements { gen: Some(30), str: Some(15), dex: Some(20), ..none }, 100));
        self.masters.push(make_master("master_shaolin_leader", "少林方丈", "shaolin", SchoolRank::GrandMaster, "shaolin_hall", 10,
            StatRequirements { str: Some(25), con: Some(15), ..none },
            "skill_luohanquan", SchoolRank::Disciple, StatRequirements { str: Some(30), con: Some(20), ..none }, 100));
        self.masters.push(make_master("master_huashan_leader", "华山掌门", "huashan", SchoolRank::Master, "huashan_hall", 20,
            StatRequirements { wit: Some(30), dex: Some(25), ..none },
            "skill_dugujiujian", SchoolRank::InnerDisciple,
            StatRequirements { gen: Some(35), str: Some(20), dex: Some(30), wit: Some(25), ..none }, 500));
        proof {
            reveal_strlit("master_wutang_leader");
            reveal_strlit("master_wudang_leader");
            reveal_strlit("master_shaolin_leader");
            reveal_strlit("master_huashan_leader");
            let s = self.masters@;
            assert(s[0].id@[9] == 't' && s[1].id@[9] == 'd' && s[2].id@[7] == 's' && s[3].id@[7] == 'h');
            assert(s[0].id@[7] == 'w' && s[1].id@[7] == 'w');
            assert forall|a: int, b: int| 0 <= a < b < s.len() implies s[a].key_view() != s[b].key_view() by {
                if a == 0 && b == 1 {
                    assert(s[a].id@[9] != s[b].id@[9]);
                } else if a <= 1 {
                    assert(s[a].id@[7] != s[b].id@[7]);
                } else {
                    assert(s[a].id@[7] != s[b].id@[7]);
                }
            }
            assert(s.map_values(|m: MasterData| master_row(m)) =~= default_master_rows());
        }
    }

    /// The master with id `master_id`.
    pub fn get_master(&self, master_id: &str) -> (r: Option<&MasterData>)
        ensures
            r matches Some(m) ==> master_at(*self, master_id@) == Some(*m),
            r is None <==> master_at(*self, master_id@) is None,
    {
        get_key(&self.masters, master_id)
    }

    /// The masters of school `school_id`, in order.
    pub fn get_school_masters(&self, school_id: &str) -> (r: Vec<&MasterData>)
        ensures
            r@.map_values(|m: &MasterData| *m) == masters_in(self.masters@, school_id@),
    {
        let ms = &self.masters;
        let mut r: Vec<&MasterData> = Vec::new();
        let mut i: usize = 0;
        while i < ms.len()
            invariant
                i <= ms@.len(),
                r@.map_values(|m: &MasterData| *m) == masters_in(ms@.take(i as int), school_id@),
            decreases ms.len() - i,
        {
            assert(ms@.take(i as int + 1).drop_last() == ms@.take(i as int));
            assert(ms@.take(i as int + 1).last() == ms@[i as int]);
            let ghost before = r@;
            if str_eq(ms[i].school_id.as_str(), school_id) {
                r.push(&ms[i]);
                assert(r@ == before.push(&ms[i as int]));
            }
            assert(r@.map_values(|m: &MasterData| *m) =~= masters_in(ms@.take(i as int + 1), school_id@));
            i = i + 1;
        }
        assert(ms@.take(ms@.len() as int) == ms@);
        r
    }

    /// Whether `player_id` has a master.
    pub fn has_master(&self, player_id: &str) -> (r: bool)
        ensures
            r == bond_of(*self, player_id@) is Some,
    {
        get_key(&self.apprenticeships, player_id).is_some()
    }

    /// `player_id`'s bond.
    pub fn get_apprenticeship(&self, player_id: &str) -> (r: Option<&MasterApprentice>)
        ensures
            r matches Some(b) ==> bond_of(*self, player_id@) == Some(*b),
            r is None <==> bond_of(*self, player_id@) is None,
    {
        get_key(&self.apprenticeships, player_id)
    }
}

/// The first bound of `req` that `stats` falls short of (see
/// `first_shortfall`).
fn check_stats(req: &StatRequirements, stats: &StatRequirements) -> (r: Option<(&'static str, i32)>)
    ensures
        match r {
            Some((n, b)) => first_shortfall(*req, *stats) == Some((n@, b)),
            None => first_shortfall(*req, *stats) is None,
        },
{
    let v = |o: Option<i32>| -> (x: i32)
        ensures
            x == (match o { Some(y) => y, None => 0i32 }),
    {
        match o {
            Some(y) => y,
            None => 0,
        }
    };
    match req.gen {
        Some(b) => if v(stats.gen) < b { return Some(("根骨", b)); },
        None => {},
    }
    match req.str {
        Some(b) => if v(stats.str) < b { return Some(("臂力", b)); },
        None => {},
    }
    match req.con {
        Some(b) => if v(stats.con) < b { return Some(("体质", b)); },
        None => {},
    }
    match req.dex {
        Some(b) => if v(stats.dex) < b { return Some(("灵巧", b)); },
        None => {},
    }
    match req.wit {
        Some(b) => if v(stats.wit) < b { return Some(("悟性", b)); },
        None => {},
    }
    None
}

impl MasterDaemon {
    /// `player_id` of level `player_level` with attributes `player_stats`
    /// becomes at `now` a plain disciple of `master_id` and a member of its
    /// school. Refused when there is no such master, when the player has a
    /// master, or when it falls short of the master's level or attributes
    /// (see `apprentice_refusal`).
    pub fn apprentice_to_at(&mut self, player_id: &str, master_id: &str, player_stats: &StatRequirements, player_level: u32, now: i64)
        -> (r: Result<String, String>)
        requires
            old(self).wf(),
        ensures
            apprentice_to_done(*old(self), *final(self), player_id, master_id, player_stats, player_level, now, r),
    {
        let ghost o = *self;
        let (school_id, master_name) = match self.get_master(master_id) {
            Some(m) => (m.school_id.clone(), m.name.clone()),
            None => {
                return Err(string_of("找不到这位师父"));
            },
        };
        if self.has_master(player_id) {
            return Err(string_of("你已经拜过师父了，不能重复拜师"));
        }
        let m = self.get_master(master_id).unwrap();
        match m.requirements.min_level {
            Some(min_level) => {
                if player_level < min_level {
                    let mut e = string_of("你的等级不足，需要达到");
                    push_u64(&mut e, min_level as u64);
                    push_str(&mut e, "级才能拜师");
                    return Err(e);
                }
            },
            None => {},
        }
        match &m.requirements.stat_requirements {
            Some(req) => match check_stats(req, player_stats) {
                Some((name, b)) => {
                    let mut e = string_of("你的");
                    push_str(&mut e, name);
                    push_str(&mut e, "不足，需要达到");
                    push_i64(&mut e, b as i64);
                    return Err(e);
                },
                None => {},
            },
            None => {},
        }
        let bond = MasterApprentice::new_at(string_of(master_id), string_of(player_id), school_id.clone(), now);
        put_key(&mut self.apprenticeships, bond);
        let ghost mid = *self;
        match take_key(&mut self.school_members, school_id.as_str()) {
            Some(mut sm) => {
                sm.members.push(string_of(player_id));
                put_key(&mut self.school_members, sm);
            },
            None => {
                let mut members: Vec<String> = Vec::new();
                members.push(string_of(player_id));
                put_key(&mut self.school_members, SchoolMembers { school_id: school_id.clone(), members });
            },
        }
        proof {
            assert(members_of(*self, school_id@).map_values(|x: String| x@)
                =~= members_of(o, school_id@).map_values(|x: String| x@).push(player_id@));
            assert forall|s: Seq<char>| s != school_id@ implies #[trigger] members_of(*self, s) == members_of(o, s) by {
                assert(key_get(self.school_members@, s) == key_get(mid.school_members@, s));
            }
        }
        let mut t = string_of("你成功拜");
        push_str(&mut t, master_name.as_str());
        push_str(&mut t, "为师，成为");
        push_str(&mut t, school_id.as_str());
        push_str(&mut t, "普通弟子");
        Ok(t)
    }

    /// Apprenticeship now (see `apprentice_to_at`).
    pub fn apprentice_to(&mut self, player_id: &str, master_id: &str, player_stats: &StatRequirements, player_level: u32)
        -> (r: Result<String, String>)
        requires
            old(self).wf(),
        ensures
            exists|now: i64| #[trigger] apprentice_to_done(*old(self), *final(self), player_id, master_id, player_stats, player_level, now, r),
            final(self).wf(),
            apprentice_refusal(*old(self), player_id@, master_id@, *player_stats, player_level) matches Some(t)
                ==> (r matches Err(e) && e@ == t),
            apprentice_refusal(*old(self), player_id@, master_id@, *player_stats, player_level) is None
                ==> r is Ok && (bond_of(*final(self), player_id@) matches Some(b) && b.master_id@ == master_id@
                && b.rank == SchoolRank::Disciple),
            forall|p: Seq<char>| p != player_id@ ==> #[trigger] bond_of(*final(self), p) == bond_of(*old(self), p),
    {
        let now = current_timestamp();
        self.apprentice_to_at(player_id, master_id, player_stats, player_level, now)
    }

    /// `player_id` leaves its master and school. Refused without a master.
    pub fn leave_school(&mut self, player_id: &str) -> (r: Result<String, String>)
        requires
            old(self).wf(),
        ensures
            final(self).wf(),
            bond_of(*old(self), player_id@) is None ==> (r matches Err(e) && e@ == "你还没有拜师"@)
                && final(self).apprenticeships@ == old(self).apprenticeships@ && final(self).school_members@ == old(self).school_members@,
            bond_of(*old(self), player_id@) matches Some(b) ==> {
                &&& r matches Ok(t) && t@ == "你已经离开门派，恢复自由身"@
                &&& bond_of(*final(self), player_id@) is None
                &&& members_of(*final(self), b.school_id@) == without_str(members_of(*old(self), b.school_id@), player_id@)
                &&& forall|s: Seq<char>| s != b.school_id@ ==> #[trigger] members_of(*final(self), s) == members_of(*old(self), s)
            },
            forall|p: Seq<char>| p != player_id@ ==> #[trigger] bond_of(*final(self), p) == bond_of(*old(self), p),
            final(self).masters@ == old(self).masters@,
    {
        let ghost o = *self;
        let bond = match take_key(&mut self.apprenticeships, player_id) {
            Some(b) => b,
            None => {
                return Err(string_of("你还没有拜师"));
            },
        };
        let ghost mid = *self;
        match take_key(&mut self.school_members, bond.school_id.as_str()) {
            Some(mut sm) => {
                let kept = remove_all_str(&sm.members, player_id);
                sm.members = kept;
                put_key(&mut self.school_members, sm);
            },
            None => {
                assert(without_str(Seq::<String>::empty(), player_id@) =~= Seq::<String>::empty());
            },
        }
        proof {
            assert forall|s: Seq<char>| s != bond.school_id@ implies #[trigger] members_of(*self, s) == members_of(o, s) by {
                assert(key_get(self.school_members@, s) == key_get(mid.school_members@, s));
            }
        }
        Ok(string_of("你已经离开门派，恢复自由身"))
    }

    /// The members of school `school_id`.
    pub fn get_school_members(&self, school_id: &str) -> (r: Vec<String>)
        ensures
            r@ == members_of(*self, school_id@),
    {
        match get_key(&self.school_members, school_id) {
            Some(sm) => {
                let r = sm.members.clone();
                proof {
                    assert forall|i: int| 0 <= i < r@.len() implies r@[i] == sm.members@[i] by {
                        assert(cloned::<String>(sm.members[i], r[i]));
                    }
                    assert(r@ =~= sm.members@);
                }
                r
            },
            None => Vec::new(),
        }
    }

    /// `player_id` rises one rank. Refused without a master and at the
    /// highest rank.
    pub fn promote(&mut self, player_id: &str) -> (r: Result<String, String>)
        requires
            old(self).wf(),
        ensures
            final(self).wf(),
            bond_of(*old(self), player_id@) is None ==> (r matches Err(e) && e@ == "你还没有拜师"@)
                && final(self).apprenticeships@ == old(self).apprenticeships@,
            bond_of(*old(self), player_id@) matches Some(b) ==> {
                &&& rank_after(b.rank) is None ==> (r matches Err(e) && e@ == "你已经是最高等级了"@)
                    && bond_of(*final(self), player_id@) == Some(b)
                &&& rank_after(b.rank) matches Some(n) ==> (r matches Ok(t) && t@ == "恭喜你晋升为"@ + rank_name(n))
                    && bond_of(*final(self), player_id@) == Some(MasterApprentice { rank: n, ..b })
            },
            forall|p: Seq<char>| p != player_id@ ==> #[trigger] bond_of(*final(self), p) == bond_of(*old(self), p),
            final(self).masters@ == old(self).masters@ && final(self).school_members@ == old(self).school_members@,
    {
        let mut bond = match take_key(&mut self.apprenticeships, player_id) {
            Some(b) => b,
            None => {
                return Err(string_of("你还没有拜师"));
            },
        };
        match bond.rank.next() {
            Some(n) => {
                bond.rank = n;
                put_key(&mut self.apprenticeships, bond);
                let mut t = string_of("恭喜你晋升为");
                push_str(&mut t, n.cn_name());
                Ok(t)
            },
            None => {
                put_key(&mut self.apprenticeships, bond);
                Err(string_of("你已经是最高等级了"))
            },
        }
    }

    /// Whether `player_id` may learn skill `skill_id` (see
    /// `learn_refusal`).
    pub fn can_learn_skill(&self, player_id: &str, skill_id: &str) -> (r: Result<(), String>)
        ensures
            learn_refusal(*self, player_id@, skill_id@) matches Some(t) ==> (r matches Err(e) && e@ == t),
            learn_refusal(*self, player_id@, skill_id@) is None ==> r is Ok,
    {
        let bond = match get_key(&self.apprenticeships, player_id) {
            Some(b) => b,
            None => {
                return Err(string_of("你还没有拜师，无法学习门派武功"));
            },
        };
        let m = match self.get_master(bond.master_id.as_str()) {
            Some(m) => m,
            None => {
                return Err(string_of("找不到你的师父"));
            },
        };
        let ts = &m.teachable_skills;
        let mut i: usize = 0;
        while i < ts.len()
            invariant
                i <= ts@.len(),
                bond_of(*self, player_id@) == Some(*bond),
                master_at(*self, bond.master_id@) == Some(*m),
                ts@ == m.teachable_skills@,
                skill_in(ts@.take(i as int), skill_id@) is None,
            decreases ts.len() - i,
        {
            assert(ts@.take(i as int + 1).drop_last() == ts@.take(i as int));
            assert(ts@.take(i as int + 1).last() == ts@[i as int]);
            if str_eq(ts[i].skill_id.as_str(), skill_id) {
                proof {
                    lemma_skill_in_extends(ts@, i as int + 1, skill_id@);
                }
                if bond.rank.height() < ts[i].required_rank.height() {
                    let mut e = string_of("你需要达到");
                    push_str(&mut e, ts[i].required_rank.cn_name());
                    push_str(&mut e, "才能学习这门武功");
                    return Err(e);
                }
                return Ok(());
            }
            i = i + 1;
        }
        assert(ts@.take(ts@.len() as int) == ts@);
        Err(string_of("你的师父不会这门武功"))
    }
}

/// Once a prefix finds the skill, the whole list finds the same one.
proof fn lemma_skill_in_extends(s: Seq<TeachableSkill>, n: int, id: Seq<char>)
    requires
        0 <= n <= s.len(),
        skill_in(s.take(n), id) is Some,
    ensures
        skill_in(s, id) == skill_in(s.take(n), id),
    decreases s.len() - n,
{
    if n < s.len() {
        assert(s.take(n + 1).drop_last() == s.take(n));
        lemma_skill_in_extends(s, n + 1, id);
    } else {
        assert(s.take(n) == s);
    }
}

impl Default for MasterDaemon {
    fn default() -> (r: Self)
        ensures
            r.wf(),
            r.masters@.map_values(|m: MasterData| master_row(m)) == default_master_rows(),
            forall|i: int| 0 <= i < r.masters@.len() ==> plain_master(#[trigger] r.masters@[i]),
            r.apprenticeships@.len() == 0 && r.school_members@.len() == 0,
    {
        MasterDaemon::new()
    }
}

/// What `MasterDaemon::apprentice_to_at` promises: `o` is the value before the call, `f` the value
/// after, `r` what it gives back.
pub open spec fn apprentice_to_done(
    o: MasterDaemon, f: MasterDaemon, player_id: &str, master_id: &str, player_stats: &StatRequirements,
    player_level: u32, now: i64, r: Result<String, String>) -> bool {
    &&& (f.wf())
    &&& (apprentice_refusal(o, player_id@, master_id@, *player_stats, player_level) matches Some(t)
        ==> (r matches Err(e) && e@ == t) && f.apprenticeships@ == o.apprenticeships@
        && f.school_members@ == o.school_members@)
    &&& (apprentice_refusal(o, player_id@, master_id@, *player_stats, player_level) is None ==> {
        let m = master_at(o, master_id@)->0;
        &&& r matches Ok(t) && t@ == "你成功拜"@ + m.name@ + "为师，成为"@ + m.school_id@ + "普通弟子"@
        &&& bond_of(f, player_id@) matches Some(b) && b.master_id@ == master_id@ && b.apprentice_id@ == player_id@
            && b.school_id == m.school_id && b.dharma_name is None && b.since == now && b.rank == SchoolRank::Disciple
            && b.contribution == 0
        &&& members_of(f, m.school_id@).map_values(|x: String| x@)
            == members_of(o, m.school_id@).map_values(|x: String| x@).push(player_id@)
        &&& forall|s: Seq<char>| s != m.school_id@ ==> #[trigger] members_of(f, s) == members_of(o, s)
    })
    &&& (forall|p: Seq<char>| p != player_id@ ==> #[trigger] bond_of(f, p) == bond_of(o, p))
    &&& (f.masters@ == o.masters@)
}

/// What `MasterApprentice::new_at` promises: for the arguments given, `r` what it gives back.
pub open spec fn master_apprentice_new_done(
    master_id: String, apprentice_id: String, school_id: String, now: i64, r: MasterApprentice) -> bool {
    &&& (r == (MasterApprentice { master_id, apprentice_id, school_id, dharma_name: None, since: now,
        rank: SchoolRank::Disciple, contribution: 0 }))
}

} // verus!
