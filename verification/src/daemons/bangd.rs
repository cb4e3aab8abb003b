//! Guilds: members and their ranks, contribution, the guild's level and
//! funds, applications to join, and the guild register.
use vstd::prelude::*;
use crate::errors::{MudError, runtime_error, not_found};
use crate::text::{push_str, push_u64, push_i64, string_of, nat_digits, int_digits, str_eq};
use crate::util::{Keyed, key_pos, key_get, key_in, keys_unique, find_key, get_key, put_key, drop_key,
    lemma_key_get_at, lemma_key_get_none, lemma_keyed_update, lemma_key_in_get};
use crate::outside::current_timestamp;

verus! {

/// The rank of a guild member, from member up to leader.
#[derive(Clone, Copy, Debug, PartialEq, Eq, Structural, PartialOrd, Ord)]
pub enum GuildRank {
    Member,
    Elder,
    ViceLeader,
    Leader,
}

/// A member of a guild.
#[derive(Debug)]
pub struct GuildMember {
    pub userid: String,
    pub name: String,
    pub rank: GuildRank,
    pub contribution: u64,
    pub joined_at: i64,
}

impl Clone for GuildMember {
    fn clone(&self) -> (r: Self)
        ensures
            r == *self,
    {
        GuildMember {
            userid: self.userid.clone(),
            name: self.name.clone(),
            rank: self.rank,
            contribution: self.contribution,
            joined_at: self.joined_at,
        }
    }
}

/// A guild.
#[derive(Debug)]
pub struct Guild {
    pub id: String,
    pub name: String,
    pub short_name: String,
    pub leader_id: String,
    pub leader_name: String,
    pub level: u32,
    pub exp: u64,
    pub funds: u64,
    pub members: Vec<GuildMember>,
    pub max_members: usize,
    pub created_at: i64,
    pub announcement: String,
    pub description: String,
}

/// Two guilds hold the same data.
pub open spec fn same_guild(a: Guild, b: Guild) -> bool {
    &&& a.id == b.id && a.name == b.name && a.short_name == b.short_name
    &&& a.leader_id == b.leader_id && a.leader_name == b.leader_name
    &&& a.level == b.level && a.exp == b.exp && a.funds == b.funds
    &&& a.members@ == b.members@ && a.max_members == b.max_members && a.created_at == b.created_at
    &&& a.announcement == b.announcement && a.description == b.description
}

impl Clone for Guild {
    fn clone(&self) -> (r: Self)
        ensures
            same_guild(r, *self),
    {
        let members = self.members.clone();
        proof {
            assert forall|i: int| 0 <= i < members@.len() implies members@[i] == self.members@[i] by {
                assert(cloned::<GuildMember>(self.members[i], members[i]));
            }
            assert(members@ =~= self.members@);
        }
        Guild {
            id: self.id.clone(),
            name: self.name.clone(),
            short_name: self.short_name.clone(),
            leader_id: self.leader_id.clone(),
            leader_name: self.leader_name.clone(),
            level: self.level,
            exp: self.exp,
            funds: self.funds,
            members,
            max_members: self.max_members,
            created_at: self.created_at,
            announcement: self.announcement.clone(),
            description: self.description.clone(),
        }
    }
}

impl Keyed for Guild {
    open spec fn key_view(&self) -> Seq<char> {
        self.id@
    }

    fn key(&self) -> (r: &String) {
        &self.id
    }
}

/// `i` is the first member with the id.
pub open spec fn member_pos(m: Seq<GuildMember>, userid: Seq<char>, i: int) -> bool {
    0 <= i < m.len() && m[i].userid@ == userid && forall|j: int| 0 <= j < i ==> (#[trigger] m[j]).userid@ != userid
}

/// No member has the id.
pub open spec fn no_member(m: Seq<GuildMember>, userid: Seq<char>) -> bool {
    forall|j: int| 0 <= j < m.len() ==> (#[trigger] m[j]).userid@ != userid
}

/// The tag of a rank in the member list.
pub open spec fn rank_tag(r: GuildRank) -> Seq<char> {
    match r {
        GuildRank::Leader => "§Y[帮主]§N"@,
        GuildRank::ViceLeader => "§C[副帮主]§N"@,
        GuildRank::Elder => "§G[长老]§N"@,
        GuildRank::Member => "[成员]"@,
    }
}

/// The lines of the member list.
pub open spec fn member_lines(m: Seq<GuildMember>) -> Seq<char>
    decreases m.len(),
{
    if m.len() == 0 {
        Seq::empty()
    } else {
        member_lines(m.drop_last()) + rank_tag(m.last().rank) + " "@ + m.last().name@ + " - 贡献: "@
            + nat_digits(m.last().contribution as nat) + "\n"@
    }
}

/// A text, or 暂无 when it is empty.
pub open spec fn or_none_text(s: Seq<char>) -> Seq<char> {
    if s.len() == 0 { "暂无"@ } else { s }
}

/// The guild's information. Its fields follow one another without line
/// breaks after the first line.
pub open spec fn guild_text(g: Guild) -> Seq<char> {
    "§H=== "@ + g.name@ + " ===§N\n等级: "@ + nat_digits(g.level as nat) + "  成员: "@ + nat_digits(g.members@.len())
        + "/"@ + nat_digits(g.max_members as nat) + "  资金: "@ + nat_digits(g.funds as nat) + "帮主: "@ + g.leader_name@
        + "帮派简介: "@ + or_none_text(g.description@) + "公告: "@ + or_none_text(g.announcement@)
}

/// The members limit at a level: 20 plus 5 per level, at most 100.
pub open spec fn members_limit(level: int) -> int {
    if 20 + level * 5 < 100 { 20 + level * 5 } else { 100 }
}

fn find_member(m: &Vec<GuildMember>, userid: &str) -> (r: Option<usize>)
    ensures
        r matches Some(i) ==> member_pos(m@, userid@, i as int),
        r is None ==> no_member(m@, userid@),
{
    let mut i: usize = 0;
    while i < m.len()
        invariant
            i <= m@.len(),
            forall|j: int| 0 <= j < i ==> (#[trigger] m@[j]).userid@ != userid@,
        decreases m.len() - i,
    {
        if str_eq(m[i].userid.as_str(), userid) {
            return Some(i);
        }
        i = i + 1;
    }
    None
}

impl Guild {
    /// A guild of level 1 founded at time `now`, with its leader as the
    /// only member and room for 20.
    pub fn new_at(id: String, name: String, short_name: String, leader_id: String, leader_name: String, now: i64) -> (r: Self)
        ensures
            guild_new_done(id, name, short_name, leader_id, leader_name, now, r),
    {
        let leader = GuildMember { userid: leader_id.clone(), name: leader_name.clone(), rank: GuildRank::Leader, contribution: 0, joined_at: now };
        let mut members: Vec<GuildMember> = Vec::new();
        members.push(leader);
        assert(members@ =~= seq![GuildMember { userid: leader_id, name: leader_name, rank: GuildRank::Leader, contribution: 0, joined_at: now }]);
        Guild {
            id,
            name,
            short_name,
            leader_id,
            leader_name,
            level: 1,
            exp: 0,
            funds: 0,
            members,
            max_members: 20,
            created_at: now,
            announcement: String::new(),
            description: String::new(),
        }
    }

    /// A guild founded now (see `new_at`).
    pub fn new(id: String, name: String, short_name: String, leader_id: String, leader_name: String) -> (r: Self)
        ensures
            exists|now: i64| #[trigger] guild_new_done(id, name, short_name, leader_id, leader_name, now, r),
            r.id == id && r.name == name && r.short_name == short_name,
            r.leader_id == leader_id && r.leader_name == leader_name,
            r.level == 1 && r.exp == 0 && r.funds == 0 && r.max_members == 20,
            r.members@.len() == 1 && r.members@[0].userid == leader_id && r.members@[0].rank == GuildRank::Leader,
    {
        Self::new_at(id, name, short_name, leader_id, leader_name, current_timestamp())
    }

    /// The number of members.
    pub fn member_count(&self) -> (r: usize)
        ensures
            r == self.members@.len(),
    {
        self.members.len()
    }

    /// The guild has reached its limit.
    pub fn is_full(&self) -> (r: bool)
        ensures
            r == (self.members@.len() >= self.max_members),
    {
        self.members.len() >= self.max_members
    }

    /// Adds a member at time `now`; fails with 帮派已满 when full.
    pub fn add_member_at(&mut self, userid: String, name: String, now: i64) -> (r: Result<(), MudError>)
        ensures
            add_member_done(*old(self), *final(self), userid, name, now, r),
    {
        if self.is_full() {
            return Err(runtime_error("帮派已满"));
        }
        self.members.push(GuildMember { userid, name, rank: GuildRank::Member, contribution: 0, joined_at: now });
        Ok(())
    }

    /// Adds a member now (see `add_member_at`).
    pub fn add_member(&mut self, userid: String, name: String) -> (r: Result<(), MudError>)
        ensures
            exists|now: i64| #[trigger] add_member_done(*old(self), *final(self), userid, name, now, r),
            old(self).members@.len() >= old(self).max_members ==> (r matches Err(MudError::RuntimeError(m)) && m@ == "帮派已满"@)
                && final(self).members@ == old(self).members@,
            old(self).members@.len() < old(self).max_members ==> r is Ok && final(self).members@.drop_last() == old(self).members@
                && final(self).members@.len() == old(self).members@.len() + 1 && final(self).members@.last().userid == userid,
            *final(self) == (Guild { members: final(self).members, ..*old(self) }),
    {
        let r = self.add_member_at(userid, name, current_timestamp());
        r
    }

    /// Removes the first member with the id; the leader cannot be removed.
    pub fn remove_member(&mut self, userid: &str) -> (r: Result<(), MudError>)
        ensures
            *final(self) == (Guild { members: final(self).members, ..*old(self) }),
            no_member(old(self).members@, userid@) ==> (r matches Err(MudError::NotFound(m)) && m@ == "成员不存在"@)
                && final(self).members@ == old(self).members@,
            forall|i: int| member_pos(old(self).members@, userid@, i) ==> if old(self).members@[i].rank == GuildRank::Leader {
                (r matches Err(MudError::RuntimeError(m)) && m@ == "无法移除帮主"@) && final(self).members@ == old(self).members@
            } else {
                r is Ok && final(self).members@ == old(self).members@.remove(i)
            },
    {
        let pos = match find_member(&self.members, userid) {
            Some(p) => p,
            None => return Err(not_found("成员不存在")),
        };
        proof {
            assert forall|i: int| member_pos(old(self).members@, userid@, i) implies i == pos by {
                if i < pos {
                    assert(self.members@[i].userid@ != userid@);
                } else if i > pos {
                    assert(self.members@[pos as int].userid@ != userid@);
                }
            }
        }
        if self.members[pos].rank == GuildRank::Leader {
            return Err(runtime_error("无法移除帮主"));
        }
        self.members.remove(pos);
        Ok(())
    }

    /// Sets the rank of the first member with the id; the leader's rank
    /// cannot change.
    pub fn set_member_rank(&mut self, userid: &str, rank: GuildRank) -> (r: Result<(), MudError>)
        ensures
            *final(self) == (Guild { members: final(self).members, ..*old(self) }),
            no_member(old(self).members@, userid@) ==> (r matches Err(MudError::NotFound(m)) && m@ == "成员不存在"@)
                && final(self).members@ == old(self).members@,
            forall|i: int| member_pos(old(self).members@, userid@, i) ==> if old(self).members@[i].rank == GuildRank::Leader {
                (r matches Err(MudError::RuntimeError(m)) && m@ == "无法修改帮主职位"@) && final(self).members@ == old(self).members@
            } else {
                r is Ok && final(self).members@ == old(self).members@.update(i, GuildMember { rank, ..old(self).members@[i] })
            },
    {
        let pos = match find_member(&self.members, userid) {
            Some(p) => p,
            None => return Err(not_found("成员不存在")),
        };
        proof {
            assert forall|i: int| member_pos(old(self).members@, userid@, i) implies i == pos by {
                if i < pos {
                    assert(self.members@[i].userid@ != userid@);
                } else if i > pos {
                    assert(self.members@[pos as int].userid@ != userid@);
                }
            }
        }
        if self.members[pos].rank == GuildRank::Leader {
            return Err(runtime_error("无法修改帮主职位"));
        }
        let mut m = self.members[pos].clone();
        m.rank = rank;
        self.members.set(pos, m);
        Ok(())
    }

    /// Adds to the contribution of the first member with the id, if any.
    pub fn add_contribution(&mut self, userid: &str, amount: u64)
        requires
            forall|i: int| member_pos(old(self).members@, userid@, i) ==> old(self).members@[i].contribution + amount <= u64::MAX,
        ensures
            *final(self) == (Guild { members: final(self).members, ..*old(self) }),
            no_member(old(self).members@, userid@) ==> final(self).members@ == old(self).members@,
            forall|i: int| member_pos(old(self).members@, userid@, i) ==> final(self).members@ == old(self).members@.update(i,
                GuildMember { contribution: (old(self).members@[i].contribution + amount) as u64, ..old(self).members@[i] }),
    {
        match find_member(&self.members, userid) {
            Some(pos) => {
                proof {
                    assert forall|i: int| member_pos(old(self).members@, userid@, i) implies i == pos by {
                        if i < pos {
                            assert(self.members@[i].userid@ != userid@);
                        } else if i > pos {
                            assert(self.members@[pos as int].userid@ != userid@);
                        }
                    }
                }
                let mut m = self.members[pos].clone();
                m.contribution = m.contribution + amount;
                self.members.set(pos, m);
            },
            None => {},
        }
    }

    /// Adds experience; at 1000 times the level the guild rises a level
    /// (keeping what is over) and its member limit grows. Returns whether
    /// it rose.
    pub fn add_exp(&mut self, exp: u64) -> (r: bool)
        requires
            old(self).exp + exp <= u64::MAX,
            old(self).level < 100_000_000,
        ensures
            ({
                let total = old(self).exp + exp;
                let needed = 1000 * old(self).level;
                if total >= needed {
                    &&& r
                    &&& *final(self) == (Guild {
                        exp: (total - needed) as u64,
                        level: (old(self).level + 1) as u32,
                        max_members: members_limit(old(self).level + 1) as usize,
                        ..*old(self)
                    })
                } else {
                    !r && *final(self) == (Guild { exp: total as u64, ..*old(self) })
                }
            }),
    {
        self.exp = self.exp + exp;
        let needed: u64 = 1000 * (self.level as u64);
        if self.exp >= needed {
            self.exp = self.exp - needed;
            self.level = self.level + 1;
            let limit: usize = 20 + (self.level * 5) as usize;
            self.max_members = if limit < 100 { limit } else { 100 };
            return true;
        }
        false
    }

    /// The guild's information.
    pub fn format_info(&self) -> (r: String)
        ensures
            r@ == guild_text(*self),
    {
        let mut out = string_of("§H=== ");
        push_str(&mut out, self.name.as_str());
        push_str(&mut out, " ===§N\n等级: ");
        push_u64(&mut out, self.level as u64);
        push_str(&mut out, "  成员: ");
        push_u64(&mut out, self.member_count() as u64);
        push_str(&mut out, "/");
        push_u64(&mut out, self.max_members as u64);
        push_str(&mut out, "  资金: ");
        push_u64(&mut out, self.funds);
        push_str(&mut out, "帮主: ");
        push_str(&mut out, self.leader_name.as_str());
        push_str(&mut out, "帮派简介: ");
        if self.description.as_str().unicode_len() == 0 {
            push_str(&mut out, "暂无");
        } else {
            push_str(&mut out, self.description.as_str());
        }
        push_str(&mut out, "公告: ");
        if self.announcement.as_str().unicode_len() == 0 {
            push_str(&mut out, "暂无");
        } else {
            push_str(&mut out, self.announcement.as_str());
        }
        out
    }

    /// The member list: rank, name and contribution of each member.
    pub fn format_members(&self) -> (r: String)
        ensures
            r@ == "§H=== "@ + self.name@ + " 成员列表 ===§N\n"@ + member_lines(self.members@),
    {
        let mut out = string_of("§H=== ");
        push_str(&mut out, self.name.as_str());
        push_str(&mut out, " 成员列表 ===§N\n");
        let ghost base = out@;
        let mut i: usize = 0;
        while i < self.members.len()
            invariant
                i <= self.members@.len(),
                out@ == base + member_lines(self.members@.take(i as int)),
            decreases self.members.len() - i,
        {
            assert(self.members@.take(i + 1).drop_last() =~= self.members@.take(i as int));
            let m = &self.members[i];
            push_str(&mut out, match m.rank {
                GuildRank::Leader => "§Y[帮主]§N",
                GuildRank::ViceLeader => "§C[副帮主]§N",
                GuildRank::Elder => "§G[长老]§N",
                GuildRank::Member => "[成员]",
            });
            push_str(&mut out, " ");
            push_str(&mut out, m.name.as_str());
            push_str(&mut out, " - 贡献: ");
            push_u64(&mut out, m.contribution);
            push_str(&mut out, "\n");
            i = i + 1;
        }
        assert(self.members@.take(i as int) =~= self.members@);
        out
    }
}

/// An application to join a guild.
#[derive(Debug)]
pub struct GuildApplication {
    pub userid: String,
    pub name: String,
    pub applied_at: i64,
}

/// The guild a player belongs to.
#[derive(Debug)]
pub struct PlayerGuild {
    pub userid: String,
    pub guild_id: String,
}

impl Keyed for PlayerGuild {
    open spec fn key_view(&self) -> Seq<char> {
        self.userid@
    }

    fn key(&self) -> (r: &String) {
        &self.userid
    }
}

/// The applications to one guild, in the order they came.
#[derive(Debug)]
pub struct GuildApplications {
    pub guild_id: String,
    pub list: Vec<GuildApplication>,
}

impl Keyed for GuildApplications {
    open spec fn key_view(&self) -> Seq<char> {
        self.guild_id@
    }

    fn key(&self) -> (r: &String) {
        &self.guild_id
    }
}

/// The guild register: guilds by id, each player's guild, and the
/// applications to each guild.
#[derive(Debug)]
pub struct BangDaemon {
    pub guilds: Vec<Guild>,
    pub player_guilds: Vec<PlayerGuild>,
    pub applications: Vec<GuildApplications>,
}

/// The guild with the id.
pub open spec fn guild_at(d: BangDaemon, id: Seq<char>) -> Option<Guild> {
    key_get(d.guilds@, id)
}

/// The id of the player's guild.
pub open spec fn player_guild(d: BangDaemon, userid: Seq<char>) -> Option<Seq<char>> {
    match key_get(d.player_guilds@, userid) {
        Some(p) => Some(p.guild_id@),
        None => None,
    }
}

/// The applications to a guild.
pub open spec fn apps_of(d: BangDaemon, guild_id: Seq<char>) -> Seq<GuildApplication> {
    match key_get(d.applications@, guild_id) {
        Some(a) => a.list@,
        None => Seq::empty(),
    }
}

/// Some guild has the name.
pub open spec fn name_taken(gs: Seq<Guild>, name: Seq<char>) -> bool {
    exists|j: int| 0 <= j < gs.len() && (#[trigger] gs[j]).name@ == name
}

/// `gs` with `g` put after every guild of its level or higher.
pub open spec fn insert_by_level(gs: Seq<Guild>, g: Guild) -> Seq<Guild>
    decreases gs.len(),
{
    if gs.len() == 0 {
        seq![g]
    } else if gs.last().level >= g.level {
        gs.push(g)
    } else {
        insert_by_level(gs.drop_last(), g).push(gs.last())
    }
}

/// The guilds from the highest level down; guilds of one level keep their
/// order.
pub open spec fn by_level(gs: Seq<Guild>) -> Seq<Guild>
    decreases gs.len(),
{
    if gs.len() == 0 {
        Seq::empty()
    } else {
        insert_by_level(by_level(gs.drop_last()), gs.last())
    }
}

/// The lines of the guild list.
pub open spec fn guild_lines(gs: Seq<Guild>) -> Seq<char>
    decreases gs.len(),
{
    if gs.len() == 0 {
        Seq::empty()
    } else {
        guild_lines(gs.drop_last()) + "§Y["@ + gs.last().name@ + "]§N Lv."@ + nat_digits(gs.last().level as nat) + "  成员:"@
            + nat_digits(gs.last().members@.len()) + "/"@ + nat_digits(gs.last().max_members as nat) + "  帮主:"@
            + gs.last().leader_name@ + "\n"@
    }
}

/// A list ordered from the highest level down stays so with a guild put
/// in by `insert_by_level`.
pub proof fn lemma_insert_by_level(gs: Seq<Guild>, g: Guild)
    requires
        forall|i: int, j: int| 0 <= i <= j < gs.len() ==> (#[trigger] gs[i]).level >= (#[trigger] gs[j]).level,
    ensures
        insert_by_level(gs, g).len() == gs.len() + 1,
        forall|i: int, j: int| 0 <= i <= j < gs.len() + 1 ==> (#[trigger] insert_by_level(gs, g)[i]).level >= (#[trigger] insert_by_level(gs, g)[j]).level,
    decreases gs.len(),
{
    if gs.len() > 0 && gs.last().level < g.level {
        let t = gs.drop_last();
        lemma_insert_by_level(t, g);
        let u = insert_by_level(t, g);
        assert forall|k: int| 0 <= k < u.len() implies (#[trigger] u[k]).level >= gs.last().level by {
            if u[k] != g {
                lemma_insert_members(t, g, k);
                let m = choose|m: int| 0 <= m < t.len() && t[m] == u[k];
                assert(gs[m] == t[m]);
            }
        }
    }
}

/// Every guild of `insert_by_level(gs, g)` is `g` or one of `gs`.
pub proof fn lemma_insert_members(gs: Seq<Guild>, g: Guild, k: int)
    requires
        0 <= k < gs.len() + 1,
    ensures
        insert_by_level(gs, g).len() == gs.len() + 1,
        insert_by_level(gs, g)[k] == g || exists|m: int| 0 <= m < gs.len() && gs[m] == insert_by_level(gs, g)[k],
    decreases gs.len(),
{
    if gs.len() > 0 && gs.last().level < g.level {
        let t = gs.drop_last();
        if k < gs.len() {
            lemma_insert_members(t, g, k);
            if insert_by_level(t, g)[k] != g {
                let m = choose|m: int| 0 <= m < t.len() && t[m] == insert_by_level(t, g)[k];
                assert(gs[m] == t[m]);
            }
        } else {
            lemma_insert_members(t, g, 0);
            assert(insert_by_level(gs, g)[k] == gs[gs.len() - 1]);
        }
    } else if gs.len() > 0 {
        if k < gs.len() {
            assert(insert_by_level(gs, g)[k] == gs[k]);
        }
    }
}

/// The guild list runs from the highest level down.
pub proof fn lemma_by_level_sorted(gs: Seq<Guild>)
    ensures
        by_level(gs).len() == gs.len(),
        forall|i: int, j: int| 0 <= i <= j < gs.len() ==> (#[trigger] by_level(gs)[i]).level >= (#[trigger] by_level(gs)[j]).level,
    decreases gs.len(),
{
    if gs.len() > 0 {
        lemma_by_level_sorted(gs.drop_last());
        lemma_insert_by_level(by_level(gs.drop_last()), gs.last());
    }
}

fn insert_guild_ref<'a>(v: &mut Vec<&'a Guild>, g: &'a Guild)
    ensures
        final(v)@.map_values(|x: &Guild| *x) == insert_by_level(old(v)@.map_values(|x: &Guild| *x), *g),
{
    let ghost s0 = old(v)@.map_values(|x: &Guild| *x);
    let mut j: usize = v.len();
    assert(s0.take(j as int) =~= s0);
    assert(s0.skip(j as int) =~= Seq::<Guild>::empty());
    while j > 0 && v[j - 1].level < g.level
        invariant
            j <= v@.len(),
            v@ == old(v)@,
            s0 == v@.map_values(|x: &Guild| *x),
            insert_by_level(s0, *g) == insert_by_level(s0.take(j as int), *g) + s0.skip(j as int),
        decreases j,
    {
        proof {
            let t = s0.take(j as int);
            assert(t.drop_last() =~= s0.take(j - 1));
            assert(t.last() == s0[j - 1]);
            assert(s0.skip(j - 1) =~= seq![s0[j - 1]] + s0.skip(j as int));
            assert(insert_by_level(t, *g) =~= insert_by_level(s0.take(j - 1), *g).push(s0[j - 1]));
            assert(insert_by_level(s0.take(j - 1), *g).push(s0[j - 1]) + s0.skip(j as int)
                =~= insert_by_level(s0.take(j - 1), *g) + s0.skip(j - 1));
        }
        j = j - 1;
    }
    proof {
        let t = s0.take(j as int);
        if j == 0 {
            assert(t =~= Seq::<Guild>::empty());
        } else {
            assert(t.last() == s0[j - 1]);
        }
        assert(insert_by_level(t, *g) =~= t.push(*g));
    }
    v.insert(j, g);
    proof {
        assert(v@.map_values(|x: &Guild| *x) =~= s0.take(j as int).push(*g) + s0.skip(j as int));
    }
}

impl BangDaemon {
    /// One guild per id, one guild per player, one application list per
    /// guild.
    pub open spec fn wf(&self) -> bool {
        &&& keys_unique(self.guilds@)
        &&& keys_unique(self.player_guilds@)
        &&& keys_unique(self.applications@)
    }

    /// An empty register.
    pub fn new() -> (r: Self)
        ensures
            r.wf(),
            r.guilds@.len() == 0 && r.player_guilds@.len() == 0 && r.applications@.len() == 0,
    {
        BangDaemon { guilds: Vec::new(), player_guilds: Vec::new(), applications: Vec::new() }
    }

    fn set_player_guild(&mut self, userid: String, guild_id: String)
        requires
            old(self).wf(),
        ensures
            final(self).wf(),
            final(self).guilds@ == old(self).guilds@ && final(self).applications@ == old(self).applications@,
            player_guild(*final(self), userid@) == Some(guild_id@),
            forall|u: Seq<char>| u != userid@ ==> #[trigger] player_guild(*final(self), u) == player_guild(*old(self), u),
    {
        let ghost uv = userid@;
        put_key(&mut self.player_guilds, PlayerGuild { userid, guild_id });
        proof {
            assert forall|u: Seq<char>| u != uv implies #[trigger] player_guild(*self, u) == player_guild(*old(self), u) by {
                assert(key_get(self.player_guilds@, u) == key_get(old(self).player_guilds@, u));
            }
        }
    }

    fn clear_player_guild(&mut self, userid: &str)
        requires
            old(self).wf(),
        ensures
            final(self).wf(),
            final(self).guilds@ == old(self).guilds@ && final(self).applications@ == old(self).applications@,
            player_guild(*final(self), userid@) is None,
            forall|u: Seq<char>| u != userid@ ==> #[trigger] player_guild(*final(self), u) == player_guild(*old(self), u),
    {
        drop_key(&mut self.player_guilds, userid);
        proof {
            assert forall|u: Seq<char>| u != userid@ implies #[trigger] player_guild(*self, u) == player_guild(*old(self), u) by {
                assert(key_get(self.player_guilds@, u) == key_get(old(self).player_guilds@, u));
            }
        }
    }

    /// Founds a guild at time `now` with id `guild_<now>`, led by its
    /// creator. Fails when the creator is in a guild or the name is taken.
    pub fn create_guild_at(&mut self, creator_id: String, creator_name: String, name: String, short_name: String, now: i64) -> (r: Result<Guild, MudError>)
        requires
            old(self).wf(),
        ensures
            create_guild_done(*old(self), *final(self), creator_id, creator_name, name, short_name, now, r),
    {
        proof {
            lemma_key_in_get(self.player_guilds@, creator_id@);
        }
        if find_key(&self.player_guilds, creator_id.as_str()).is_some() {
            return Err(runtime_error("你已在其他帮派中"));
        }
        let mut i: usize = 0;
        while i < self.guilds.len()
            invariant
                i <= self.guilds@.len(),
                self.wf(),
                self.guilds@ == old(self).guilds@ && self.player_guilds@ == old(self).player_guilds@,
                self.applications@ == old(self).applications@,
                player_guild(*old(self), creator_id@) is None,
                forall|j: int| 0 <= j < i ==> (#[trigger] self.guilds@[j]).name@ != name@,
            decreases self.guilds.len() - i,
        {
            if str_eq(self.guilds[i].name.as_str(), name.as_str()) {
                return Err(runtime_error("帮派名称已存在"));
            }
            i = i + 1;
        }
        let mut guild_id = string_of("guild_");
        push_i64(&mut guild_id, now);
        let ghost gid = guild_id@;
        let guild = Guild::new_at(guild_id.clone(), name, short_name, creator_id.clone(), creator_name, now);
        self.set_player_guild(creator_id, guild_id);
        let ghost after_set = *self;
        let stored = guild.clone();
        let ghost gs = stored;
        let ghost g0 = self.guilds@;
        put_key(&mut self.guilds, stored);
        proof {
            assert forall|k: Seq<char>| k != gid implies #[trigger] guild_at(*self, k) == guild_at(*old(self), k) by {
                assert(key_get(self.guilds@, k) == key_get(g0, k));
            }
            assert(guild_at(*self, gid) == Some(gs));
            assert(same_guild(gs, guild));
            assert(guild.id@ == gid);
            assert(player_guild(*self, creator_id@) == Some(gid));
            assert(!name_taken(old(self).guilds@, name@));
            assert forall|u: Seq<char>| u != creator_id@ implies #[trigger] player_guild(*self, u) == player_guild(*old(self), u) by {
                assert(player_guild(*self, u) == player_guild(after_set, u));
            }
        }
        Ok(guild)
    }

    /// Founds a guild now (see `create_guild_at`).
    pub fn create_guild(&mut self, creator_id: String, creator_name: String, name: String, short_name: String) -> (r: Result<Guild, MudError>)
        requires
            old(self).wf(),
        ensures
            exists|now: i64| #[trigger] create_guild_done(*old(self), *final(self), creator_id, creator_name, name, short_name, now, r),
            final(self).wf(),
            player_guild(*old(self), creator_id@) is Some ==> (r matches Err(MudError::RuntimeError(m)) && m@ == "你已在其他帮派中"@),
            player_guild(*old(self), creator_id@) is None && name_taken(old(self).guilds@, name@) ==> (r matches Err(MudError::RuntimeError(m))
                && m@ == "帮派名称已存在"@),
            player_guild(*old(self), creator_id@) is None && !name_taken(old(self).guilds@, name@) ==> (r matches Ok(g)
                && g.leader_id == creator_id && g.name == name && player_guild(*final(self), creator_id@) == Some(g.id@)),
    {
        self.create_guild_at(creator_id, creator_name, name, short_name, current_timestamp())
    }

    /// Disbands a guild; only its leader may. Every member leaves it and
    /// its applications are dropped.
    pub fn disband_guild(&mut self, guild_id: &str, leader_id: &str) -> (r: Result<(), MudError>)
        requires
            old(self).wf(),
        ensures
            final(self).wf(),
            match guild_at(*old(self), guild_id@) {
                None => (r matches Err(MudError::NotFound(m)) && m@ == "帮派不存在"@) && final(self).guilds@ == old(self).guilds@
                    && final(self).player_guilds@ == old(self).player_guilds@ && final(self).applications@ == old(self).applications@,
                Some(g) => if g.leader_id@ != leader_id@ {
                    r == Err::<(), MudError>(MudError::PermissionDenied) && final(self).guilds@ == old(self).guilds@
                        && final(self).player_guilds@ == old(self).player_guilds@ && final(self).applications@ == old(self).applications@
                } else {
                    &&& r is Ok
                    &&& guild_at(*final(self), guild_id@) is None
                    &&& forall|k: Seq<char>| k != guild_id@ ==> #[trigger] guild_at(*final(self), k) == guild_at(*old(self), k)
                    &&& forall|j: int| 0 <= j < g.members@.len() ==> player_guild(*final(self), (#[trigger] g.members@[j]).userid@) is None
                    &&& forall|u: Seq<char>| no_member(g.members@, u) ==> #[trigger] player_guild(*final(self), u) == player_guild(*old(self), u)
                    &&& apps_of(*final(self), guild_id@).len() == 0
                    &&& forall|k: Seq<char>| k != guild_id@ ==> #[trigger] apps_of(*final(self), k) == apps_of(*old(self), k)
                },
            },
    {
        let i = match find_key(&self.guilds, guild_id) {
            Some(i) => i,
            None => {
                proof {
                    lemma_key_get_none(self.guilds@, guild_id@);
                }
                return Err(not_found("帮派不存在"));
            },
        };
        proof {
            lemma_key_get_at(self.guilds@, guild_id@, i as int);
        }
        if !str_eq(self.guilds[i].leader_id.as_str(), leader_id) {
            return Err(MudError::PermissionDenied);
        }
        let ghost g = self.guilds@[i as int];
        let ghost p0 = *self;
        let mut j: usize = 0;
        while j < self.guilds[i].members.len()
            invariant
                self.wf(),
                i < self.guilds@.len(),
                self.guilds@ == old(self).guilds@,
                self.applications@ == old(self).applications@,
                g == self.guilds@[i as int],
                j <= g.members@.len(),
                forall|m: int| 0 <= m < j ==> player_guild(*self, (#[trigger] g.members@[m]).userid@) is None,
                forall|u: Seq<char>| (forall|m: int| 0 <= m < j ==> (#[trigger] g.members@[m]).userid@ != u)
                    ==> #[trigger] player_guild(*self, u) == player_guild(p0, u),
            decreases g.members@.len() - j,
        {
            let ghost before = *self;
            let uid = self.guilds[i].members[j].userid.clone();
            self.clear_player_guild(uid.as_str());
            proof {
                assert forall|m: int| 0 <= m < j + 1 implies player_guild(*self, (#[trigger] g.members@[m]).userid@) is None by {
                    if m < j && g.members@[m].userid@ != uid@ {
                        assert(player_guild(before, g.members@[m].userid@) is None);
                    }
                }
                assert forall|u: Seq<char>| (forall|m: int| 0 <= m < j + 1 ==> (#[trigger] g.members@[m]).userid@ != u)
                    implies #[trigger] player_guild(*self, u) == player_guild(p0, u) by {
                    assert(g.members@[j as int].userid@ != u);
                }
            }
            j = j + 1;
        }
        let ghost mid = *self;
        let ghost g0 = self.guilds@;
        drop_key(&mut self.guilds, guild_id);
        let ghost a0 = self.applications@;
        drop_key(&mut self.applications, guild_id);
        proof {
            assert forall|k: Seq<char>| k != guild_id@ implies #[trigger] guild_at(*self, k) == guild_at(*old(self), k) by {
                assert(key_get(self.guilds@, k) == key_get(g0, k));
            }
            assert forall|k: Seq<char>| k != guild_id@ implies #[trigger] apps_of(*self, k) == apps_of(*old(self), k) by {
                assert(key_get(self.applications@, k) == key_get(a0, k));
            }
            assert forall|u: Seq<char>| no_member(g.members@, u) implies #[trigger] player_guild(*self, u) == player_guild(*old(self), u) by {
                assert forall|m: int| 0 <= m < g.members@.len() implies (#[trigger] g.members@[m]).userid@ != u by {}
                assert(player_guild(*self, u) == player_guild(mid, u));
                assert(player_guild(mid, u) == player_guild(p0, u));
                assert(player_guild(p0, u) == player_guild(*old(self), u));
            }
            assert forall|m: int| 0 <= m < g.members@.len() implies player_guild(*self, (#[trigger] g.members@[m]).userid@) is None by {
                assert(player_guild(mid, g.members@[m].userid@) is None);
            }
        }
        Ok(())
    }
}

/// A player's application is in the list.
pub open spec fn has_applied(apps: Seq<GuildApplication>, userid: Seq<char>) -> bool {
    exists|j: int| 0 <= j < apps.len() && (#[trigger] apps[j]).userid@ == userid
}

/// `i` is the first application of the player.
pub open spec fn app_pos(apps: Seq<GuildApplication>, userid: Seq<char>, i: int) -> bool {
    0 <= i < apps.len() && apps[i].userid@ == userid && forall|j: int| 0 <= j < i ==> (#[trigger] apps[j]).userid@ != userid
}

/// The rank of the first member with the id, if any.
pub open spec fn rank_in(m: Seq<GuildMember>, userid: Seq<char>) -> Option<GuildRank> {
    if exists|i: int| member_pos(m, userid, i) {
        Some(m[choose|i: int| member_pos(m, userid, i)].rank)
    } else {
        None
    }
}

impl BangDaemon {
    /// Takes the guild at `i` out, changes it with `f`'s result, and puts it
    /// back at the same place.
    fn put_guild_back(&mut self, i: usize, g: Guild)
        requires
            old(self).wf(),
            i < old(self).guilds@.len(),
            g.id@ == old(self).guilds@[i as int].id@,
        ensures
            final(self).wf(),
            final(self).guilds@ == old(self).guilds@.update(i as int, g),
            final(self).player_guilds@ == old(self).player_guilds@ && final(self).applications@ == old(self).applications@,
            guild_at(*final(self), g.id@) == Some(g),
            forall|k: Seq<char>| k != g.id@ ==> #[trigger] guild_at(*final(self), k) == guild_at(*old(self), k),
    {
        let ghost v0 = self.guilds@;
        let ghost gg = g;
        proof {
            crate::util::lemma_unique_pos(v0, i as int);
            lemma_keyed_update(v0, i as int, gg);
        }
        self.guilds.set(i, g);
    }

    /// Adds a player to a guild at time `now` and records the guild as the
    /// player's. Fails for an unknown guild and a full one.
    pub fn join_guild_at(&mut self, guild_id: &str, userid: String, name: String, now: i64) -> (r: Result<(), MudError>)
        requires
            old(self).wf(),
        ensures
            join_guild_done(*old(self), *final(self), guild_id, userid, name, now, r),
    {
        let i = match find_key(&self.guilds, guild_id) {
            Some(i) => i,
            None => {
                proof {
                    lemma_key_get_none(self.guilds@, guild_id@);
                }
                return Err(not_found("帮派不存在"));
            },
        };
        proof {
            lemma_key_get_at(self.guilds@, guild_id@, i as int);
        }
        if self.guilds[i].is_full() {
            return Err(runtime_error("帮派已满"));
        }
        let ghost uv = userid@;
        let ghost gu = userid;
        let ghost gn = name;
        let mut g = self.guilds.remove(i);
        let ghost g0 = g;
        let res = g.add_member_at(userid.clone(), name, now);
        self.guilds.insert(i, g);
        let ghost v1 = self.guilds@;
        proof {
            assert(v1 =~= old(self).guilds@.update(i as int, v1[i as int]));
            lemma_keyed_update(old(self).guilds@, i as int, v1[i as int]);
        }
        let ghost mid = *self;
        self.set_player_guild(userid, string_of(guild_id));
        proof {
            assert forall|k: Seq<char>| k != guild_id@ implies #[trigger] guild_at(*self, k) == guild_at(*old(self), k) by {
                assert(key_get(v1, k) == key_get(old(self).guilds@, k));
            }
            assert(guild_at(*self, guild_id@) == Some(v1[i as int]));
        }
        Ok(())
    }

    /// Adds a player to a guild now (see `join_guild_at`).
    pub fn join_guild(&mut self, guild_id: &str, userid: String, name: String) -> (r: Result<(), MudError>)
        requires
            old(self).wf(),
        ensures
            exists|now: i64| #[trigger] join_guild_done(*old(self), *final(self), guild_id, userid, name, now, r),
            final(self).wf(),
            guild_at(*old(self), guild_id@) is None ==> (r matches Err(MudError::NotFound(m)) && m@ == "帮派不存在"@),
            guild_at(*old(self), guild_id@) matches Some(g) ==> (g.members@.len() >= g.max_members ==> (r matches Err(MudError::RuntimeError(m)) && m@ == "帮派已满"@)),
            r is Ok ==> player_guild(*final(self), userid@) == Some(guild_id@),
    {
        self.join_guild_at(guild_id, userid, name, current_timestamp())
    }

    /// A player leaves their guild; the leader cannot.
    pub fn leave_guild(&mut self, userid: &str) -> (r: Result<(), MudError>)
        requires
            old(self).wf(),
        ensures
            left(*old(self), *final(self), userid@, r),
    {
        let pi = match find_key(&self.player_guilds, userid) {
            Some(pi) => pi,
            None => {
                proof {
                    lemma_key_get_none(self.player_guilds@, userid@);
                }
                return Err(not_found("你不在任何帮派中"));
            },
        };
        proof {
            lemma_key_get_at(self.player_guilds@, userid@, pi as int);
        }
        let gid = self.player_guilds[pi].guild_id.clone();
        let i = match find_key(&self.guilds, gid.as_str()) {
            Some(i) => i,
            None => {
                proof {
                    lemma_key_get_none(self.guilds@, gid@);
                }
                return Err(not_found("帮派不存在"));
            },
        };
        proof {
            lemma_key_get_at(self.guilds@, gid@, i as int);
        }
        if str_eq(self.guilds[i].leader_id.as_str(), userid) {
            return Err(runtime_error("帮主无法离开帮派"));
        }
        let ghost gm = self.guilds@[i as int].members@;
        match find_member(&self.guilds[i].members, userid) {
            Some(p) => {
                proof {
                    assert forall|k: int| member_pos(gm, userid@, k) implies k == p by {
                        if k < p {
                            assert(gm[k].userid@ != userid@);
                        } else if k > p {
                            assert(gm[p as int].userid@ != userid@);
                        }
                    }
                }
                if self.guilds[i].members[p].rank == GuildRank::Leader {
                    return Err(runtime_error("无法移除帮主"));
                }
            },
            None => return Err(not_found("成员不存在")),
        }
        let mut g = self.guilds.remove(i);
        let res = g.remove_member(userid);
        self.guilds.insert(i, g);
        let ghost v1 = self.guilds@;
        proof {
            assert(v1 =~= old(self).guilds@.update(i as int, v1[i as int]));
            lemma_keyed_update(old(self).guilds@, i as int, v1[i as int]);
        }
        self.clear_player_guild(userid);
        proof {
            assert forall|k: Seq<char>| k != gid@ implies #[trigger] guild_at(*self, k) == guild_at(*old(self), k) by {
                assert(key_get(v1, k) == key_get(old(self).guilds@, k));
            }
            assert(guild_at(*self, gid@) == Some(v1[i as int]));
        }
        Ok(())
    }

    /// The player's guild.
    pub fn get_player_guild(&self, userid: &str) -> (r: Option<&Guild>)
        ensures
            match player_guild(*self, userid@) {
                Some(gid) => match guild_at(*self, gid) {
                    Some(g) => r == Some(&g),
                    None => r is None,
                },
                None => r is None,
            },
    {
        match get_key(&self.player_guilds, userid) {
            Some(p) => get_key(&self.guilds, p.guild_id.as_str()),
            None => None,
        }
    }

    /// The guild with the id.
    pub fn get_guild(&self, guild_id: &str) -> (r: Option<&Guild>)
        ensures
            r matches Some(g) ==> guild_at(*self, guild_id@) == Some(*g),
            r is None <==> guild_at(*self, guild_id@) is None,
    {
        get_key(&self.guilds, guild_id)
    }

    /// Every guild, in the register's order.
    pub fn get_all_guilds(&self) -> (r: Vec<&Guild>)
        ensures
            r@.map_values(|g: &Guild| *g) == self.guilds@,
    {
        let mut r: Vec<&Guild> = Vec::new();
        let mut i: usize = 0;
        while i < self.guilds.len()
            invariant
                i <= self.guilds@.len(),
                r@.map_values(|g: &Guild| *g) == self.guilds@.take(i as int),
            decreases self.guilds.len() - i,
        {
            let ghost r0 = r@.map_values(|g: &Guild| *g);
            r.push(&self.guilds[i]);
            assert(r@.map_values(|g: &Guild| *g) =~= r0.push(self.guilds@[i as int]));
            assert(self.guilds@.take(i + 1) =~= self.guilds@.take(i as int).push(self.guilds@[i as int]));
            i = i + 1;
        }
        assert(self.guilds@.take(i as int) =~= self.guilds@);
        r
    }

    /// A player applies to a guild at time `now`. Fails when the player is
    /// in a guild or has applied to this one already; the guild's list of
    /// applications is opened either way once the player is in no guild.
    pub fn apply_to_guild_at(&mut self, guild_id: &str, userid: String, name: String, now: i64) -> (r: Result<(), MudError>)
        requires
            old(self).wf(),
        ensures
            apply_to_guild_done(*old(self), *final(self), guild_id, userid, name, now, r),
    {
        proof {
            lemma_key_in_get(self.player_guilds@, userid@);
        }
        if find_key(&self.player_guilds, userid.as_str()).is_some() {
            return Err(runtime_error("你已在其他帮派中"));
        }
        let ghost a0 = self.applications@;
        let i = match find_key(&self.applications, guild_id) {
            Some(i) => {
                proof {
                    lemma_key_get_at(a0, guild_id@, i as int);
                }
                i
            },
            None => {
                proof {
                    lemma_key_get_none(a0, guild_id@);
                }
                let n = self.applications.len();
                self.applications.push(GuildApplications { guild_id: string_of(guild_id), list: Vec::new() });
                proof {
                    assert forall|a: int, b: int| 0 <= a < b < self.applications@.len() implies
                        self.applications@[a].key_view() != self.applications@[b].key_view() by {
                        if b == a0.len() {
                            assert(a0[a].key_view() != guild_id@);
                        }
                    }
                    assert(key_pos(self.applications@, guild_id@, a0.len() as int));
                }
                n
            },
        };
        let ghost a1 = self.applications@;
        let ghost mid = *self;
        proof {
            crate::util::lemma_unique_pos(a1, i as int);
            lemma_key_get_at(a1, guild_id@, i as int);
            assert forall|k: Seq<char>| k != guild_id@ implies #[trigger] apps_of(*self, k) == apps_of(*old(self), k) by {
                if i < a0.len() {
                    assert(a1 == a0);
                } else {
                    crate::util::lemma_key_get_other(a0, a1, a1[i as int], k);
                }
            }
            assert(apps_of(*self, guild_id@) == apps_of(*old(self), guild_id@));
        }
        let mut j: usize = 0;
        while j < self.applications[i].list.len()
            invariant
                self.applications@ == a1,
                *self == mid,
                mid.wf(),
                player_guild(*old(self), userid@) is None,
                mid.guilds@ == old(self).guilds@ && mid.player_guilds@ == old(self).player_guilds@,
                key_in(a1, guild_id@),
                forall|k: Seq<char>| k != guild_id@ ==> #[trigger] apps_of(mid, k) == apps_of(*old(self), k),
                apps_of(mid, guild_id@) == apps_of(*old(self), guild_id@),
                key_get(a1, guild_id@) == Some(a1[i as int]),
                i < a1.len(),
                j <= a1[i as int].list@.len(),
                forall|m: int| 0 <= m < j ==> (#[trigger] a1[i as int].list@[m]).userid@ != userid@,
            decreases self.applications[i as int].list@.len() - j,
        {
            if str_eq(self.applications[i].list[j].userid.as_str(), userid.as_str()) {
                return Err(runtime_error("你已申请过此帮派"));
            }
            j = j + 1;
        }
        let mut e = self.applications.remove(i);
        e.list.push(GuildApplication { userid, name, applied_at: now });
        let ghost e1 = e;
        self.applications.insert(i, e);
        proof {
            assert(self.applications@ =~= a1.update(i as int, e1));
            lemma_keyed_update(a1, i as int, e1);
            assert forall|k: Seq<char>| k != guild_id@ implies #[trigger] apps_of(*self, k) == apps_of(*old(self), k) by {
                assert(key_get(self.applications@, k) == key_get(a1, k));
                assert(apps_of(mid, k) == apps_of(*old(self), k));
            }
            assert(apps_of(*self, guild_id@) == e1.list@);
            assert forall|m: int| 0 <= m < apps_of(*old(self), guild_id@).len() implies (#[trigger] apps_of(*old(self), guild_id@)[m]).userid@ != userid@ by {
                assert(a1[i as int].list@[m].userid@ != userid@);
            }
        }
        Ok(())
    }

    /// Applies to a guild now (see `apply_to_guild_at`).
    pub fn apply_to_guild(&mut self, guild_id: &str, userid: String, name: String) -> (r: Result<(), MudError>)
        requires
            old(self).wf(),
        ensures
            exists|now: i64| #[trigger] apply_to_guild_done(*old(self), *final(self), guild_id, userid, name, now, r),
            final(self).wf(),
            player_guild(*old(self), userid@) is Some ==> (r matches Err(MudError::RuntimeError(m)) && m@ == "你已在其他帮派中"@),
            player_guild(*old(self), userid@) is None && has_applied(apps_of(*old(self), guild_id@), userid@) ==> (r matches Err(MudError::RuntimeError(m))
                && m@ == "你已申请过此帮派"@),
            player_guild(*old(self), userid@) is None && !has_applied(apps_of(*old(self), guild_id@), userid@) ==> r is Ok
                && apps_of(*final(self), guild_id@).len() == apps_of(*old(self), guild_id@).len() + 1,
    {
        self.apply_to_guild_at(guild_id, userid, name, current_timestamp())
    }

    /// Answers a player's application to a guild at time `now`: it is
    /// taken off the list, and on acceptance the player joins (see
    /// `join_guild_at`, whose failure is returned).
    pub fn handle_application_at(&mut self, guild_id: &str, applicant_id: &str, accept: bool, now: i64) -> (r: Result<(), MudError>)
        requires
            old(self).wf(),
        ensures
            handle_application_done(*old(self), *final(self), guild_id, applicant_id, accept, now, r),
    {
        let ghost a0 = self.applications@;
        let i = match find_key(&self.applications, guild_id) {
            Some(i) => i,
            None => return Err(not_found("没有申请记录")),
        };
        proof {
            lemma_key_get_at(a0, guild_id@, i as int);
        }
        let mut pos: usize = 0;
        while pos < self.applications[i].list.len() && !str_eq(self.applications[i].list[pos].userid.as_str(), applicant_id)
            invariant
                self.applications@ == a0,
                i < a0.len(),
                pos <= a0[i as int].list@.len(),
                forall|m: int| 0 <= m < pos ==> (#[trigger] a0[i as int].list@[m]).userid@ != applicant_id@,
            decreases self.applications[i as int].list@.len() - pos,
        {
            pos = pos + 1;
        }
        if pos == self.applications[i].list.len() {
            return Err(not_found("申请不存在"));
        }
        let ghost l0 = a0[i as int].list@;
        proof {
            assert(app_pos(l0, applicant_id@, pos as int));
            assert forall|p: int| app_pos(l0, applicant_id@, p) implies p == pos by {
                if p < pos {
                    assert(l0[p].userid@ != applicant_id@);
                } else if p > pos {
                    assert(l0[pos as int].userid@ != applicant_id@);
                }
            }
        }
        let mut e = self.applications.remove(i);
        let application = e.list.remove(pos);
        let ghost e1 = e;
        self.applications.insert(i, e);
        proof {
            assert(self.applications@ =~= a0.update(i as int, e1));
            lemma_keyed_update(a0, i as int, e1);
            assert forall|k: Seq<char>| k != guild_id@ implies #[trigger] apps_of(*self, k) == apps_of(*old(self), k) by {
                assert(key_get(self.applications@, k) == key_get(a0, k));
            }
        }
        if accept {
            let ghost mid = *self;
            let r = self.join_guild_at(guild_id, application.userid, application.name, now);
            proof {
                assert(self.applications@ == mid.applications@);
                assert forall|k: Seq<char>| k != guild_id@ implies #[trigger] apps_of(*self, k) == apps_of(*old(self), k) by {
                    assert(apps_of(*self, k) == apps_of(mid, k));
                }
            }
            r
        } else {
            Ok(())
        }
    }

    /// Answers an application now (see `handle_application_at`).
    pub fn handle_application(&mut self, guild_id: &str, applicant_id: &str, accept: bool) -> (r: Result<(), MudError>)
        requires
            old(self).wf(),
        ensures
            exists|now: i64| #[trigger] handle_application_done(*old(self), *final(self), guild_id, applicant_id, accept, now, r),
            final(self).wf(),
            !key_in(old(self).applications@, guild_id@) ==> (r matches Err(MudError::NotFound(m)) && m@ == "没有申请记录"@),
            key_in(old(self).applications@, guild_id@) && !has_applied(apps_of(*old(self), guild_id@), applicant_id@)
                ==> (r matches Err(MudError::NotFound(m)) && m@ == "申请不存在"@),
    {
        self.handle_application_at(guild_id, applicant_id, accept, current_timestamp())
    }

    /// The guild list, from the highest level down.
    #[verifier::rlimit(40)]
    pub fn format_guild_list(&self) -> (r: String)
        ensures
            r@ == "§H=== 帮派列表 ===§N\n"@ + guild_lines(by_level(self.guilds@)),
    {
        let mut sorted: Vec<&Guild> = Vec::new();
        let mut i: usize = 0;
        while i < self.guilds.len()
            invariant
                i <= self.guilds@.len(),
                sorted@.map_values(|g: &Guild| *g) == by_level(self.guilds@.take(i as int)),
            decreases self.guilds.len() - i,
        {
            assert(self.guilds@.take(i + 1).drop_last() =~= self.guilds@.take(i as int));
            insert_guild_ref(&mut sorted, &self.guilds[i]);
            i = i + 1;
        }
        assert(self.guilds@.take(i as int) =~= self.guilds@);
        let ghost s = sorted@.map_values(|g: &Guild| *g);
        let mut out = string_of("§H=== 帮派列表 ===§N\n");
        let ghost base = out@;
        let mut j: usize = 0;
        while j < sorted.len()
            invariant
                j <= sorted@.len(),
                s == sorted@.map_values(|g: &Guild| *g),
                out@ == base + guild_lines(s.take(j as int)),
            decreases sorted.len() - j,
        {
            assert(s.take(j + 1).drop_last() =~= s.take(j as int));
            let g = sorted[j];
            assert(*g == s[j as int]);
            push_str(&mut out, "§Y[");
            push_str(&mut out, g.name.as_str());
            push_str(&mut out, "]§N Lv.");
            push_u64(&mut out, g.level as u64);
            push_str(&mut out, "  成员:");
            push_u64(&mut out, g.member_count() as u64);
            push_str(&mut out, "/");
            push_u64(&mut out, g.max_members as u64);
            push_str(&mut out, "  帮主:");
            push_str(&mut out, g.leader_name.as_str());
            push_str(&mut out, "\n");
            j = j + 1;
        }
        assert(s.take(j as int) =~= s);
        out
    }

    /// The player's rank in their guild.
    pub fn get_player_rank(&self, userid: &str) -> (r: Option<GuildRank>)
        ensures
            r == match player_guild(*self, userid@) {
                Some(gid) => match guild_at(*self, gid) {
                    Some(g) => rank_in(g.members@, userid@),
                    None => None,
                },
                None => None,
            },
    {
        match get_key(&self.player_guilds, userid) {
            Some(p) => match get_key(&self.guilds, p.guild_id.as_str()) {
                Some(g) => match find_member(&g.members, userid) {
                    Some(i) => {
                        proof {
                            let k = choose|k: int| member_pos(g.members@, userid@, k);
                            if k < i {
                                assert(g.members@[k].userid@ != userid@);
                            } else if k > i {
                                assert(g.members@[i as int].userid@ != userid@);
                            }
                        }
                        Some(g.members[i].rank)
                    },
                    None => None,
                },
                None => None,
            },
            None => None,
        }
    }

    /// The player leads the guild.
    pub fn is_leader(&self, userid: &str, guild_id: &str) -> (r: bool)
        ensures
            r == (guild_at(*self, guild_id@) matches Some(g) && g.leader_id@ == userid@),
    {
        match get_key(&self.guilds, guild_id) {
            Some(g) => str_eq(g.leader_id.as_str(), userid),
            None => false,
        }
    }

    /// Gives funds to the player's guild, counted as the player's
    /// contribution.
    pub fn donate(&mut self, userid: &str, amount: u64) -> (r: Result<(), MudError>)
        requires
            old(self).wf(),
            forall|g: Guild| #[trigger] old(self).guilds@.contains(g) ==> g.funds + amount <= u64::MAX
                && forall|i: int| 0 <= i < g.members@.len() ==> (#[trigger] g.members@[i]).contribution + amount <= u64::MAX,
        ensures
            final(self).wf(),
            final(self).player_guilds@ == old(self).player_guilds@ && final(self).applications@ == old(self).applications@,
            match player_guild(*old(self), userid@) {
                None => (r matches Err(MudError::NotFound(m)) && m@ == "你不在任何帮派中"@) && final(self).guilds@ == old(self).guilds@,
                Some(gid) => match guild_at(*old(self), gid) {
                    None => (r matches Err(MudError::NotFound(m)) && m@ == "帮派不存在"@) && final(self).guilds@ == old(self).guilds@,
                    Some(g) => {
                        &&& r is Ok
                        &&& guild_at(*final(self), gid) matches Some(x) && {
                            &&& x == (Guild { funds: (g.funds + amount) as u64, members: x.members, ..g })
                            &&& no_member(g.members@, userid@) ==> x.members@ == g.members@
                            &&& forall|i: int| member_pos(g.members@, userid@, i) ==> x.members@ == g.members@.update(i,
                                GuildMember { contribution: (g.members@[i].contribution + amount) as u64, ..g.members@[i] })
                        }
                        &&& forall|k: Seq<char>| k != gid ==> #[trigger] guild_at(*final(self), k) == guild_at(*old(self), k)
                    },
                },
            },
    {
        let pi = match find_key(&self.player_guilds, userid) {
            Some(pi) => pi,
            None => {
                proof {
                    lemma_key_get_none(self.player_guilds@, userid@);
                }
                return Err(not_found("你不在任何帮派中"));
            },
        };
        proof {
            lemma_key_get_at(self.player_guilds@, userid@, pi as int);
        }
        let gid = self.player_guilds[pi].guild_id.clone();
        let i = match find_key(&self.guilds, gid.as_str()) {
            Some(i) => i,
            None => {
                proof {
                    lemma_key_get_none(self.guilds@, gid@);
                }
                return Err(not_found("帮派不存在"));
            },
        };
        proof {
            lemma_key_get_at(self.guilds@, gid@, i as int);
            assert(old(self).guilds@.contains(self.guilds@[i as int]));
        }
        let mut g = self.guilds.remove(i);
        g.funds = g.funds + amount;
        g.add_contribution(userid, amount);
        self.guilds.insert(i, g);
        let ghost v1 = self.guilds@;
        proof {
            assert(v1 =~= old(self).guilds@.update(i as int, v1[i as int]));
            lemma_keyed_update(old(self).guilds@, i as int, v1[i as int]);
            assert forall|k: Seq<char>| k != gid@ implies #[trigger] guild_at(*self, k) == guild_at(*old(self), k) by {
                assert(key_get(v1, k) == key_get(old(self).guilds@, k));
            }
        }
        Ok(())
    }
}

impl Default for BangDaemon {
    fn default() -> (r: Self)
        ensures
            r.wf(),
            r.guilds@.len() == 0 && r.player_guilds@.len() == 0 && r.applications@.len() == 0,
    {
        Self::new()
    }
}


/// `f` and `r` are what player `userid` (named `name`) joining guild `gid`
/// at `now` makes of `o`: refused for a missing or full guild, else the
/// player is added last as a member and belongs to the guild.
pub open spec fn joined(o: BangDaemon, f: BangDaemon, gid: Seq<char>, userid: String, name: String, now: i64,
    r: Result<(), MudError>) -> bool {
    &&& f.wf()
    &&& f.applications@ == o.applications@
    &&& match guild_at(o, gid) {
        None => (r matches Err(MudError::NotFound(m)) && m@ == "帮派不存在"@) && f.guilds@ == o.guilds@
            && f.player_guilds@ == o.player_guilds@,
        Some(g) => if g.members@.len() >= g.max_members {
            (r matches Err(MudError::RuntimeError(m)) && m@ == "帮派已满"@) && f.guilds@ == o.guilds@
                && f.player_guilds@ == o.player_guilds@
        } else {
            &&& r is Ok
            &&& guild_at(f, gid) matches Some(x) && x == (Guild { members: x.members, ..g })
                && x.members@ == g.members@.push(GuildMember { userid, name, rank: GuildRank::Member, contribution: 0, joined_at: now })
            &&& forall|k: Seq<char>| k != gid ==> #[trigger] guild_at(f, k) == guild_at(o, k)
            &&& player_guild(f, userid@) == Some(gid)
            &&& forall|u: Seq<char>| u != userid@ ==> #[trigger] player_guild(f, u) == player_guild(o, u)
        },
    }
}

/// `f` and `r` are what player `uid` leaving their guild makes of `o`:
/// refused outside a guild, for a missing guild, for the leader or a
/// non-member; else the player's first entry is removed and the player
/// belongs to no guild.
pub open spec fn left(o: BangDaemon, f: BangDaemon, uid: Seq<char>, r: Result<(), MudError>) -> bool {
    &&& f.wf()
    &&& f.applications@ == o.applications@
    &&& match player_guild(o, uid) {
        None => (r matches Err(MudError::NotFound(m)) && m@ == "你不在任何帮派中"@) && f.guilds@ == o.guilds@
            && f.player_guilds@ == o.player_guilds@,
        Some(gid) => match guild_at(o, gid) {
            None => (r matches Err(MudError::NotFound(m)) && m@ == "帮派不存在"@) && f.guilds@ == o.guilds@
                && f.player_guilds@ == o.player_guilds@,
            Some(g) => if g.leader_id@ == uid {
                (r matches Err(MudError::RuntimeError(m)) && m@ == "帮主无法离开帮派"@) && f.guilds@ == o.guilds@
                    && f.player_guilds@ == o.player_guilds@
            } else if no_member(g.members@, uid) {
                (r matches Err(MudError::NotFound(m)) && m@ == "成员不存在"@) && f.guilds@ == o.guilds@
                    && f.player_guilds@ == o.player_guilds@
            } else {
                forall|i: int| member_pos(g.members@, uid, i) ==> if g.members@[i].rank == GuildRank::Leader {
                    (r matches Err(MudError::RuntimeError(m)) && m@ == "无法移除帮主"@) && f.guilds@ == o.guilds@
                        && f.player_guilds@ == o.player_guilds@
                } else {
                    &&& r is Ok
                    &&& guild_at(f, gid) matches Some(x) && x == (Guild { members: x.members, ..g }) && x.members@ == g.members@.remove(i)
                    &&& forall|k: Seq<char>| k != gid ==> #[trigger] guild_at(f, k) == guild_at(o, k)
                    &&& player_guild(f, uid) is None
                    &&& forall|u: Seq<char>| u != uid ==> #[trigger] player_guild(f, u) == player_guild(o, u)
                }
            },
        },
    }
}

/// Joining a guild one was not in and then leaving it again succeeds, and
/// leaves the guild's members as they were and the player in no guild.
pub proof fn lemma_join_then_leave(d0: BangDaemon, d1: BangDaemon, d2: BangDaemon, gid: Seq<char>, userid: String,
    name: String, now: i64, r1: Result<(), MudError>, r2: Result<(), MudError>)
    requires
        joined(d0, d1, gid, userid, name, now, r1),
        r1 is Ok,
        left(d1, d2, userid@, r2),
        guild_at(d0, gid) matches Some(g) && no_member(g.members@, userid@) && g.leader_id@ != userid@,
    ensures
        r2 is Ok,
        guild_at(d2, gid) matches Some(x) && guild_at(d0, gid) matches Some(g) && x.members@ == g.members@,
        player_guild(d2, userid@) is None,
{
    let g = guild_at(d0, gid)->0;
    let x = guild_at(d1, gid)->0;
    let n = g.members@.len() as int;
    assert(x.members@[n].userid@ == userid@);
    assert(member_pos(x.members@, userid@, n)) by {
        assert forall|j: int| 0 <= j < n implies (#[trigger] x.members@[j]).userid@ != userid@ by {
            assert(x.members@[j] == g.members@[j]);
        }
    }
    assert(!no_member(x.members@, userid@));
    assert forall|i: int| member_pos(x.members@, userid@, i) implies i == n by {
        if i < n { assert(x.members@[i] == g.members@[i]); }
    }
    assert(x.members@.remove(n) =~= g.members@);
}

/// What `Guild::add_member_at` promises: `o` is the value before the call, `f` the value after, `r`
/// what it gives back.
pub open spec fn add_member_done(
    o: Guild, f: Guild, userid: String, name: String, now: i64, r: Result<(), MudError>) -> bool {
    &&& (o.members@.len() >= o.max_members ==> (r matches Err(MudError::RuntimeError(m)) && m@ == "帮派已满"@)
        && f.members@ == o.members@)
    &&& (o.members@.len() < o.max_members ==> r is Ok && f.members@ == o.members@.push(
        GuildMember { userid, name, rank: GuildRank::Member, contribution: 0, joined_at: now }))
    &&& (f == (Guild { members: f.members, ..o }))
}

/// What `BangDaemon::create_guild_at` promises: `o` is the value before the call, `f` the value after,
/// `r` what it gives back.
pub open spec fn create_guild_done(
    o: BangDaemon, f: BangDaemon, creator_id: String, creator_name: String, name: String, short_name: String,
    now: i64, r: Result<Guild, MudError>) -> bool {
    &&& (f.wf())
    &&& (player_guild(o, creator_id@) is Some ==> (r matches Err(MudError::RuntimeError(m)) && m@ == "你已在其他帮派中"@)
        && f.guilds@ == o.guilds@ && f.player_guilds@ == o.player_guilds@)
    &&& (player_guild(o, creator_id@) is None && name_taken(o.guilds@, name@) ==> (r matches Err(MudError::RuntimeError(m))
        && m@ == "帮派名称已存在"@) && f.guilds@ == o.guilds@ && f.player_guilds@ == o.player_guilds@)
    &&& (player_guild(o, creator_id@) is None && !name_taken(o.guilds@, name@) ==> {
        let id = "guild_"@ + int_digits(now as int);
        &&& r matches Ok(g) && {
            &&& g.id@ == id && g.name == name && g.short_name == short_name
            &&& g.leader_id == creator_id && g.leader_name == creator_name
            &&& g.level == 1 && g.exp == 0 && g.funds == 0 && g.max_members == 20 && g.created_at == now
            &&& g.members@ == seq![GuildMember { userid: creator_id, name: creator_name, rank: GuildRank::Leader, contribution: 0, joined_at: now }]
            &&& g.announcement@.len() == 0 && g.description@.len() == 0
            &&& guild_at(f, id) matches Some(x) && same_guild(x, g)
        }
        &&& forall|k: Seq<char>| k != id ==> #[trigger] guild_at(f, k) == guild_at(o, k)
        &&& player_guild(f, creator_id@) == Some(id)
        &&& forall|u: Seq<char>| u != creator_id@ ==> #[trigger] player_guild(f, u) == player_guild(o, u)
    })
    &&& (f.applications@ == o.applications@)
}

/// What `BangDaemon::join_guild_at` promises: `o` is the value before the call, `f` the value after,
/// `r` what it gives back.
pub open spec fn join_guild_done(
    o: BangDaemon, f: BangDaemon, guild_id: &str, userid: String, name: String, now: i64,
    r: Result<(), MudError>) -> bool {
    &&& (joined(o, f, guild_id@, userid, name, now, r))
}

/// What `BangDaemon::apply_to_guild_at` promises: `o` is the value before the call, `f` the value
/// after, `r` what it gives back.
pub open spec fn apply_to_guild_done(
    o: BangDaemon, f: BangDaemon, guild_id: &str, userid: String, name: String, now: i64,
    r: Result<(), MudError>) -> bool {
    &&& (f.wf())
    &&& (f.guilds@ == o.guilds@ && f.player_guilds@ == o.player_guilds@)
    &&& (player_guild(o, userid@) is Some ==> (r matches Err(MudError::RuntimeError(m)) && m@ == "你已在其他帮派中"@)
        && f.applications@ == o.applications@)
    &&& (player_guild(o, userid@) is None ==> key_in(f.applications@, guild_id@)
        && forall|k: Seq<char>| k != guild_id@ ==> #[trigger] apps_of(f, k) == apps_of(o, k))
    &&& (player_guild(o, userid@) is None && has_applied(apps_of(o, guild_id@), userid@) ==> (r matches Err(MudError::RuntimeError(m))
        && m@ == "你已申请过此帮派"@) && apps_of(f, guild_id@) == apps_of(o, guild_id@))
    &&& (player_guild(o, userid@) is None && !has_applied(apps_of(o, guild_id@), userid@) ==> r is Ok
        && apps_of(f, guild_id@) == apps_of(o, guild_id@).push(GuildApplication { userid, name, applied_at: now }))
}

/// What `BangDaemon::handle_application_at` promises: `o` is the value before the call, `f` the value
/// after, `r` what it gives back.
pub open spec fn handle_application_done(
    o: BangDaemon, f: BangDaemon, guild_id: &str, applicant_id: &str, accept: bool, now: i64,
    r: Result<(), MudError>) -> bool {
    &&& (f.wf())
    &&& (!key_in(o.applications@, guild_id@) ==> (r matches Err(MudError::NotFound(m)) && m@ == "没有申请记录"@)
        && f.guilds@ == o.guilds@ && f.player_guilds@ == o.player_guilds@
        && f.applications@ == o.applications@)
    &&& (key_in(o.applications@, guild_id@) && !has_applied(apps_of(o, guild_id@), applicant_id@)
        ==> (r matches Err(MudError::NotFound(m)) && m@ == "申请不存在"@) && f.guilds@ == o.guilds@
        && f.player_guilds@ == o.player_guilds@ && f.applications@ == o.applications@)
    &&& (forall|p: int| key_in(o.applications@, guild_id@) && #[trigger] app_pos(apps_of(o, guild_id@), applicant_id@, p) ==> {
        let a = apps_of(o, guild_id@)[p];
        &&& apps_of(f, guild_id@) == apps_of(o, guild_id@).remove(p)
        &&& forall|k: Seq<char>| k != guild_id@ ==> #[trigger] apps_of(f, k) == apps_of(o, k)
        &&& !accept ==> r is Ok && f.guilds@ == o.guilds@ && f.player_guilds@ == o.player_guilds@
        &&& accept ==> match guild_at(o, guild_id@) {
            None => (r matches Err(MudError::NotFound(m)) && m@ == "帮派不存在"@) && f.guilds@ == o.guilds@,
            Some(g) => if g.members@.len() >= g.max_members {
                (r matches Err(MudError::RuntimeError(m)) && m@ == "帮派已满"@) && f.guilds@ == o.guilds@
            } else {
                &&& r is Ok
                &&& guild_at(f, guild_id@) matches Some(x) && x.members@ == g.members@.push(
                    GuildMember { userid: a.userid, name: a.name, rank: GuildRank::Member, contribution: 0, joined_at: now })
                &&& player_guild(f, applicant_id@) == Some(guild_id@)
            },
        }
    })
}

/// What `Guild::new_at` promises: for the arguments given, `r` what it gives back.
pub open spec fn guild_new_done(
    id: String, name: String, short_name: String, leader_id: String, leader_name: String, now: i64, r: Guild) -> bool {
    &&& (r.id == id && r.name == name && r.short_name == short_name)
    &&& (r.leader_id == leader_id && r.leader_name == leader_name)
    &&& (r.level == 1 && r.exp == 0 && r.funds == 0)
    &&& (r.members@ == seq![GuildMember { userid: leader_id, name: leader_name, rank: GuildRank::Leader, contribution: 0, joined_at: now }])
    &&& (r.max_members == 20 && r.created_at == now)
    &&& (r.announcement@.len() == 0 && r.description@.len() == 0)
}

/// A guild just created by `leader`, then joined by another player
/// `member`: the join succeeds; the leader may not leave, and trying
/// changes nothing; the member may, leaving the leader its only member and
/// the member in no guild.
pub proof fn lemma_create_join_leave(d0: BangDaemon, d1: BangDaemon, d2: BangDaemon, d3: BangDaemon, d4: BangDaemon,
    leader: String, leader_name: String, name: String, short_name: String, now1: i64, r1: Result<Guild, MudError>,
    member: String, member_name: String, now2: i64, r2: Result<(), MudError>, r3: Result<(), MudError>,
    r4: Result<(), MudError>)
    requires
        create_guild_done(d0, d1, leader, leader_name, name, short_name, now1, r1),
        r1 is Ok,
        joined(d1, d2, r1->Ok_0.id@, member, member_name, now2, r2),
        member@ != leader@,
        left(d2, d3, leader@, r3),
        left(d2, d4, member@, r4),
    ensures
        r2 is Ok,
        r3 matches Err(MudError::RuntimeError(m)) && m@ == "帮主无法离开帮派"@,
        d3.guilds@ == d2.guilds@ && d3.player_guilds@ == d2.player_guilds@,
        r4 is Ok,
        player_guild(d4, member@) is None,
        guild_at(d4, r1->Ok_0.id@) matches Some(x) && x.members@.len() == 1 && x.members@[0].userid == leader,
{
    let g = r1->Ok_0;
    let gid = g.id@;
    assert(player_guild(d0, leader@) is None);
    let x1 = guild_at(d1, gid)->0;
    assert(x1.members@.len() == 1);
    assert(no_member(x1.members@, member@)) by {
        assert(x1.members@[0].userid == leader);
    }
    lemma_join_then_leave(d1, d2, d4, gid, member, member_name, now2, r2, r4);
    assert(player_guild(d2, leader@) == Some(gid));
}

} // verus!
