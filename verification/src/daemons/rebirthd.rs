//! Rebirth: a player of high enough level starts over and gains bonus
//! points to allocate; rebirths are counted, recorded and ranked.
use vstd::prelude::*;
use crate::errors::{MudError, runtime_error, not_found};
use crate::text::{push_str, push_u64, push_i64, string_of, nat_digits, int_digits};
use crate::util::{take_key, Keyed, key_get, key_in, keys_unique, find_key, get_key, put_key};
use crate::outside::current_timestamp;

verus! {

/// Where a player's rebirth stands.
#[derive(Clone, Copy, Debug, PartialEq, Eq, Structural)]
pub enum RebirthStatus {
    Available,
    InProgress,
    Cooldown,
}

/// One rebirth, as recorded.
#[derive(Clone, Copy, Debug, PartialEq, Eq, Structural)]
pub struct RebirthRecord {
    pub count: i32,
    pub total_bonus_points: i32,
    pub rebirth_time: i64,
}

/// The rules of rebirth.
#[derive(Clone, Copy, Debug, PartialEq, Eq, Structural)]
pub struct RebirthConfig {
    pub level_requirement: i32,
    pub cooldown_hours: i64,
    pub bonus_points_per_rebirth: i32,
    pub max_bonus_points: i32,
    pub keep_skills: bool,
    pub keep_equipment: bool,
    pub gold_retention_rate: i32,
}

impl Default for RebirthConfig {
    fn default() -> (r: Self)
        ensures
            r == (RebirthConfig {
                level_requirement: 100,
                cooldown_hours: 0,
                bonus_points_per_rebirth: 10,
                max_bonus_points: 5000,
                keep_skills: true,
                keep_equipment: true,
                gold_retention_rate: 50,
            }),
    {
        RebirthConfig {
            level_requirement: 100,
            cooldown_hours: 0,
            bonus_points_per_rebirth: 10,
            max_bonus_points: 5000,
            keep_skills: true,
            keep_equipment: true,
            gold_retention_rate: 50,
        }
    }
}

/// A player's rebirths and bonus points.
#[derive(Debug)]
pub struct RebirthInfo {
    pub player_id: String,
    pub rebirth_count: i32,
    pub bonus_points: i32,
    pub allocated_points: i32,
    pub last_rebirth_time: Option<i64>,
    pub status: RebirthStatus,
}

impl Keyed for RebirthInfo {
    open spec fn key_view(&self) -> Seq<char> {
        self.player_id@
    }

    fn key(&self) -> (r: &String) {
        &self.player_id
    }
}

/// Whether a player with `info` of level `level` may be reborn at `now`:
/// the level must be reached; then an available player may, one cooling
/// down once the cooldown since the last rebirth is over (or without a last
/// rebirth), one in progress may not.
pub open spec fn may_rebirth(info: RebirthInfo, c: RebirthConfig, level: int, now: int) -> bool {
    if level < c.level_requirement {
        false
    } else {
        match info.status {
            RebirthStatus::Available => true,
            RebirthStatus::Cooldown => match info.last_rebirth_time {
                Some(t) => now >= t + c.cooldown_hours * 3600,
                None => true,
            },
            RebirthStatus::InProgress => false,
        }
    }
}

impl RebirthInfo {
    /// A player never reborn.
    pub fn new(player_id: String) -> (r: Self)
        ensures
            r == (RebirthInfo { player_id, rebirth_count: 0, bonus_points: 0, allocated_points: 0, last_rebirth_time: None,
                status: RebirthStatus::Available }),
    {
        RebirthInfo { player_id, rebirth_count: 0, bonus_points: 0, allocated_points: 0, last_rebirth_time: None, status: RebirthStatus::Available }
    }

    /// Bonus points not yet allocated.
    pub fn available_points(&self) -> (r: i32)
        requires
            i32::MIN <= self.bonus_points - self.allocated_points <= i32::MAX,
        ensures
            r == self.bonus_points - self.allocated_points,
    {
        self.bonus_points - self.allocated_points
    }

    /// Whether the player may be reborn at `now` (see `may_rebirth`).
    pub fn can_rebirth_at(&self, config: &RebirthConfig, current_level: i32, now: i64) -> (r: bool)
        requires
            self.status == RebirthStatus::Cooldown && current_level >= config.level_requirement && self.last_rebirth_time is Some
                ==> i64::MIN <= config.cooldown_hours * 3600 <= i64::MAX
                && i64::MIN <= self.last_rebirth_time->0 + config.cooldown_hours * 3600 <= i64::MAX,
        ensures
            r == may_rebirth(*self, *config, current_level as int, now as int),
    {
        if current_level < config.level_requirement {
            return false;
        }
        match self.status {
            RebirthStatus::Available => true,
            RebirthStatus::Cooldown => match self.last_rebirth_time {
                Some(t) => now >= t + config.cooldown_hours * 3600,
                None => true,
            },
            RebirthStatus::InProgress => false,
        }
    }

    /// Whether the player may be reborn now.
    pub fn can_rebirth(&self, config: &RebirthConfig, current_level: i32) -> (r: bool)
        requires
            self.status == RebirthStatus::Cooldown && current_level >= config.level_requirement && self.last_rebirth_time is Some
                ==> i64::MIN <= config.cooldown_hours * 3600 <= i64::MAX
                && i64::MIN <= self.last_rebirth_time->0 + config.cooldown_hours * 3600 <= i64::MAX,
        ensures
            exists|now: int| r == #[trigger] may_rebirth(*self, *config, current_level as int, now),
    {
        let now = current_timestamp();
        self.can_rebirth_at(config, current_level, now)
    }

    /// Allocates `points` of the available bonus points. Fails when fewer
    /// are available.
    pub fn allocate_points(&mut self, points: i32) -> (r: Result<(), MudError>)
        requires
            i32::MIN <= old(self).bonus_points - old(self).allocated_points <= i32::MAX,
            i32::MIN <= old(self).allocated_points + points,
        ensures
            points > old(self).bonus_points - old(self).allocated_points ==> (r matches Err(MudError::RuntimeError(m))
                && m@ == "可用点数不足"@) && *final(self) == *old(self),
            points <= old(self).bonus_points - old(self).allocated_points ==> r is Ok
                && *final(self) == (RebirthInfo { allocated_points: (old(self).allocated_points + points) as i32, ..*old(self) }),
    {
        if points > self.available_points() {
            return Err(runtime_error("可用点数不足"));
        }
        self.allocated_points = self.allocated_points + points;
        Ok(())
    }
}

/// What a rebirth gave.
#[derive(Debug)]
pub struct RebirthResult {
    pub player_id: String,
    pub player_name: String,
    pub rebirth_count: i32,
    pub bonus_points_gained: i32,
    pub total_bonus_points: i32,
}

/// The players' rebirths, the record of every rebirth and the rules.
#[derive(Debug)]
pub struct RebirthDaemon {
    pub player_rebirths: Vec<RebirthInfo>,
    pub records: Vec<RebirthRecord>,
    pub config: RebirthConfig,
}

/// The rebirths of player `id`.
pub open spec fn info_of(d: RebirthDaemon, id: Seq<char>) -> Option<RebirthInfo> {
    key_get(d.player_rebirths@, id)
}

/// The bonus points after a rebirth from `points`: the rule's bonus added,
/// up to the rule's cap.
pub open spec fn capped_total(points: int, c: RebirthConfig) -> int {
    if points + c.bonus_points_per_rebirth > c.max_bonus_points { c.max_bonus_points as int }
    else { points + c.bonus_points_per_rebirth }
}

/// A known player `id` may not be reborn at level `level` at `now`.
pub open spec fn rebirth_refused(d: RebirthDaemon, id: Seq<char>, level: int, now: int) -> bool {
    info_of(d, id) matches Some(x) && !may_rebirth(x, d.config, level, now)
}

/// The arithmetic of a rebirth of `id` at `level` and `now` stays in range.
pub open spec fn rebirth_fits(d: RebirthDaemon, id: Seq<char>, level: int, now: int) -> bool {
    &&& info_of(d, id) matches Some(x) ==> {
        &&& (x.status == RebirthStatus::Cooldown && level >= d.config.level_requirement && x.last_rebirth_time is Some
            ==> i64::MIN <= d.config.cooldown_hours * 3600 <= i64::MAX
            && i64::MIN <= x.last_rebirth_time->0 + d.config.cooldown_hours * 3600 <= i64::MAX)
        &&& x.rebirth_count < i32::MAX
        &&& i32::MIN <= x.bonus_points + d.config.bonus_points_per_rebirth <= i32::MAX
    }
}

/// The rebirths of a player never reborn.
pub open spec fn no_rebirths(id: Seq<char>) -> RebirthInfo {
    RebirthInfo { player_id: arbitrary(), rebirth_count: 0, bonus_points: 0, allocated_points: 0,
        last_rebirth_time: None, status: RebirthStatus::Available }
}

/// `f` and `r` are what a rebirth of `id` (named `name`) at level `level`
/// at `now` makes of `o`: refused for a known player who may not, else the
/// count rises by one, the bonus is added up to the cap, the time is noted,
/// the player is available, and the rebirth is recorded.
pub open spec fn rebirth_done(o: RebirthDaemon, f: RebirthDaemon, id: Seq<char>, name: String, level: int, now: i64,
    r: Result<RebirthResult, MudError>) -> bool {
    &&& f.wf()
    &&& f.config == o.config
    &&& rebirth_refused(o, id, level, now as int) ==> (r matches Err(MudError::RuntimeError(m)) && m@ == "不满足转生条件"@)
        && f.player_rebirths@ == o.player_rebirths@ && f.records@ == o.records@
    &&& !rebirth_refused(o, id, level, now as int) ==> {
        let x = match info_of(o, id) { Some(x) => x, None => no_rebirths(id) };
        let count = x.rebirth_count + 1;
        let total = capped_total(x.bonus_points as int, o.config);
        &&& r matches Ok(res) && res.player_id@ == id && res.player_name == name && res.rebirth_count == count
            && res.bonus_points_gained == o.config.bonus_points_per_rebirth && res.total_bonus_points == total
        &&& info_of(f, id) matches Some(y) && y.player_id@ == id && y.rebirth_count == count
            && y.bonus_points == total && y.allocated_points == x.allocated_points && y.last_rebirth_time == Some(now)
            && y.status == RebirthStatus::Available
        &&& f.records@ == o.records@.push(RebirthRecord { count: count as i32, total_bonus_points: total as i32, rebirth_time: now })
    }
    &&& forall|k: Seq<char>| k != id ==> #[trigger] info_of(f, k) == info_of(o, k)
}

/// The bonus points a player holds after `n` rebirths from none.
pub open spec fn points_after(n: nat, c: RebirthConfig) -> int
    decreases n,
{
    if n == 0 { 0 } else { capped_total(points_after((n - 1) as nat, c), c) }
}

/// After `n` rebirths from none, with a bonus and a cap that are not
/// negative, a player holds `n` bonuses, but never more than the cap.
pub proof fn lemma_points_after(n: nat, c: RebirthConfig)
    requires
        c.bonus_points_per_rebirth >= 0,
        c.max_bonus_points >= 0,
    ensures
        points_after(n, c) == if n * c.bonus_points_per_rebirth > c.max_bonus_points { c.max_bonus_points as int }
            else { n * c.bonus_points_per_rebirth },
    decreases n,
{
    if n > 0 {
        let m = (n - 1) as nat;
        lemma_points_after(m, c);
        let b = c.bonus_points_per_rebirth as int;
        assert(m * b + b == n * b) by (nonlinear_arith) requires m + 1 == n;
        assert(m * b <= n * b) by (nonlinear_arith) requires b >= 0, m + 1 == n;
        assert(points_after(n, c) == capped_total(points_after(m, c), c));
    } else {
        assert(n * c.bonus_points_per_rebirth == 0) by (nonlinear_arith) requires n == 0;
    }
}

/// A rebirth never takes a player's bonus points above the cap: if no
/// player held more than the cap before, none does after. And a player
/// whose points are those of their rebirths so far (see `points_after`)
/// still holds those of their rebirths after this one.
pub proof fn lemma_rebirth_within_cap(o: RebirthDaemon, f: RebirthDaemon, id: Seq<char>, name: String, level: int,
    now: i64, r: Result<RebirthResult, MudError>)
    requires
        rebirth_done(o, f, id, name, level, now, r),
        forall|k: Seq<char>| #[trigger] info_of(o, k) matches Some(x) ==> x.bonus_points <= o.config.max_bonus_points,
        o.config.max_bonus_points >= 0,
    ensures
        forall|k: Seq<char>| #[trigger] info_of(f, k) matches Some(y) ==> y.bonus_points <= f.config.max_bonus_points,
        !rebirth_refused(o, id, level, now as int) ==> ({
            let x = match info_of(o, id) { Some(x) => x, None => no_rebirths(id) };
            x.rebirth_count >= 0 && x.bonus_points == points_after(x.rebirth_count as nat, o.config)
                ==> (r matches Ok(res) && res.total_bonus_points == points_after(res.rebirth_count as nat, o.config))
        }),
{
    assert forall|k: Seq<char>| #[trigger] info_of(f, k) is Some implies info_of(f, k)->0.bonus_points <= f.config.max_bonus_points by {
        if k != id {
            assert(info_of(f, k) == info_of(o, k));
        }
    }
    if !rebirth_refused(o, id, level, now as int) {
        let x = match info_of(o, id) { Some(x) => x, None => no_rebirths(id) };
        if x.rebirth_count >= 0 && x.bonus_points == points_after(x.rebirth_count as nat, o.config) {
            let n = (x.rebirth_count + 1) as nat;
            assert(points_after(n, o.config) == capped_total(points_after((n - 1) as nat, o.config), o.config));
        }
    }
}

/// The rows of a ranking as text.
pub open spec fn rows_of(v: Seq<(&str, i32)>) -> Seq<(Seq<char>, i32)> {
    v.map_values(|y: (&str, i32)| (y.0@, y.1))
}

/// The ranking rows of `s`: player and rebirth count.
pub open spec fn rank_rows(s: Seq<RebirthInfo>) -> Seq<(Seq<char>, i32)> {
    s.map_values(|x: RebirthInfo| (x.player_id@, x.rebirth_count))
}

/// `rs` with `x` put after every row of its count or higher.
pub open spec fn insert_by_count(rs: Seq<(Seq<char>, i32)>, x: (Seq<char>, i32)) -> Seq<(Seq<char>, i32)>
    decreases rs.len(),
{
    if rs.len() == 0 {
        seq![x]
    } else if rs.last().1 >= x.1 {
        rs.push(x)
    } else {
        insert_by_count(rs.drop_last(), x).push(rs.last())
    }
}

/// The rows from the most rebirths down; rows of one count keep their order.
pub open spec fn by_count(rs: Seq<(Seq<char>, i32)>) -> Seq<(Seq<char>, i32)>
    decreases rs.len(),
{
    if rs.len() == 0 { seq![] } else { insert_by_count(by_count(rs.drop_last()), rs.last()) }
}

/// The ranking: the first hundred rows from the most rebirths down.
pub open spec fn leaderboard(s: Seq<RebirthInfo>) -> Seq<(Seq<char>, i32)> {
    let all = by_count(rank_rows(s));
    if all.len() > 100 { all.take(100) } else { all }
}

/// The ranking lines of `rs`, numbered from `start`.
pub open spec fn rank_lines(rs: Seq<(Seq<char>, i32)>) -> Seq<char>
    decreases rs.len(),
{
    if rs.len() == 0 {
        seq![]
    } else {
        rank_lines(rs.drop_last()) + "  "@ + nat_digits(rs.len()) + ". "@ + rs.last().0 + " - "@
            + int_digits(rs.last().1 as int) + "转\n"@
    }
}

/// The ranking view: at most ten rows.
pub open spec fn leaderboard_text(rs: Seq<(Seq<char>, i32)>) -> Seq<char> {
    "§H=== 转生排行榜 (前10名) ===§N\n"@ + (if rs.len() == 0 {
        "暂无转生记录。\n"@
    } else {
        rank_lines(if rs.len() > 10 { rs.take(10) } else { rs })
    })
}

/// The rebirth view of a player with `info` under rules `c`.
pub open spec fn info_text(info: RebirthInfo, c: RebirthConfig) -> Seq<char> {
    "§H=== 转生系统 ===§N\n转生次数: "@ + int_digits(info.rebirth_count as int) + "\n获得属性点: "@
        + int_digits(info.bonus_points as int) + "\n已分配: "@ + int_digits(info.allocated_points as int) + "\n可分配: "@
        + int_digits(info.bonus_points - info.allocated_points) + "\n等级要求: "@ + int_digits(c.level_requirement as int)
        + "级\n每次转生: +"@ + int_digits(c.bonus_points_per_rebirth as int) + "点"@
}

/// Puts `x` in place in a ranking ordered from the most rebirths down.
fn insert_row<'a>(v: &mut Vec<(&'a str, i32)>, x: (&'a str, i32))
    ensures
        rows_of(final(v)@) == insert_by_count(rows_of(old(v)@), (x.0@, x.1)),
{
    let ghost s0 = rows_of(old(v)@);
    let ghost xv = (x.0@, x.1);
    let mut j: usize = v.len();
    assert(s0.take(j as int) =~= s0);
    assert(s0.skip(j as int) =~= Seq::<(Seq<char>, i32)>::empty());
    while j > 0 && v[j - 1].1 < x.1
        invariant
            j <= v@.len(),
            v@ == old(v)@,
            s0 == rows_of(v@),
            xv == (x.0@, x.1),
            insert_by_count(s0, xv) == insert_by_count(s0.take(j as int), xv) + s0.skip(j as int),
        decreases j,
    {
        proof {
            let t = s0.take(j as int);
            assert(t.drop_last() =~= s0.take(j - 1));
            assert(t.last() == s0[j - 1]);
            assert(s0.skip(j - 1) =~= seq![s0[j - 1]] + s0.skip(j as int));
            assert(insert_by_count(t, xv) =~= insert_by_count(s0.take(j - 1), xv).push(s0[j - 1]));
            assert(insert_by_count(s0.take(j - 1), xv).push(s0[j - 1]) + s0.skip(j as int)
                =~= insert_by_count(s0.take(j - 1), xv) + s0.skip(j - 1));
        }
        j = j - 1;
    }
    proof {
        let t = s0.take(j as int);
        if j == 0 {
            assert(t =~= Seq::<(Seq<char>, i32)>::empty());
        } else {
            assert(t.last() == s0[j - 1]);
        }
        assert(insert_by_count(t, xv) =~= t.push(xv));
    }
    v.insert(j, x);
    proof {
        assert(rows_of(v@) =~= s0.take(j as int).push(xv) + s0.skip(j as int));
    }
}

impl RebirthDaemon {
    /// One entry per player.
    pub open spec fn wf(&self) -> bool {
        keys_unique(self.player_rebirths@)
    }

    /// Nobody reborn, the default rules.
    pub fn new() -> (r: Self)
        ensures
            r.wf(),
            r.player_rebirths@.len() == 0 && r.records@.len() == 0,
            r.config == (RebirthConfig {
                level_requirement: 100,
                cooldown_hours: 0,
                bonus_points_per_rebirth: 10,
                max_bonus_points: 5000,
                keep_skills: true,
                keep_equipment: true,
                gold_retention_rate: 50,
            }),
    {
        RebirthDaemon { player_rebirths: Vec::new(), records: Vec::new(), config: RebirthConfig::default() }
    }

    /// Player `player_id`'s rebirths.
    pub fn get_rebirth_info(&self, player_id: &str) -> (r: Option<&RebirthInfo>)
        ensures
            r matches Some(x) ==> info_of(*self, player_id@) == Some(*x),
            r is None <==> info_of(*self, player_id@) is None,
    {
        get_key(&self.player_rebirths, player_id)
    }

    /// Rebirth of `player_id` (named `player_name`) at level `current_level`
    /// at `now` (see `rebirth_done`): the count rises by one, the rule's
    /// bonus points are added up to the rule's cap, the time is noted, the
    /// player is available again, and the rebirth is recorded. Fails for a
    /// known player who may not (see `may_rebirth`); a player never reborn
    /// always may.
    pub fn rebirth_at(&mut self, player_id: &str, player_name: String, current_level: i32, now: i64) -> (r: Result<RebirthResult, MudError>)
        requires
            old(self).wf(),
            rebirth_fits(*old(self), player_id@, current_level as int, now as int),
        ensures
            rebirth_done(*old(self), *final(self), player_id@, player_name, current_level as int, now, r),
    {
        let ghost o = *self;
        match get_key(&self.player_rebirths, player_id) {
            Some(x) => {
                if !x.can_rebirth_at(&self.config, current_level, now) {
                    return Err(runtime_error("不满足转生条件"));
                }
            },
            None => {},
        }
        let bonus = self.config.bonus_points_per_rebirth;
        let cap = self.config.max_bonus_points;
        let mut info = match take_key(&mut self.player_rebirths, player_id) {
            Some(x) => x,
            None => RebirthInfo::new(string_of(player_id)),
        };
        let count = info.rebirth_count + 1;
        let sum = info.bonus_points + bonus;
        let total = if sum > cap { cap } else { sum };
        info.rebirth_count = count;
        info.bonus_points = total;
        info.last_rebirth_time = Some(now);
        info.status = RebirthStatus::Available;
        put_key(&mut self.player_rebirths, info);
        self.records.push(RebirthRecord { count, total_bonus_points: total, rebirth_time: now });
        Ok(RebirthResult {
            player_id: string_of(player_id),
            player_name,
            rebirth_count: count,
            bonus_points_gained: bonus,
            total_bonus_points: total,
        })
    }

    /// Rebirth now: what `rebirth_at` does at the time the clock gives.
    /// Whatever that time, a known player below the level asked, or one in
    /// the middle of a rebirth, is refused, and a player never reborn is
    /// reborn.
    pub fn rebirth(&mut self, player_id: &str, player_name: String, current_level: i32) -> (r: Result<RebirthResult, MudError>)
        requires
            old(self).wf(),
            info_of(*old(self), player_id@) matches Some(x) ==> {
                &&& (x.last_rebirth_time matches Some(t) ==> -1_000_000_000_000_000_000 <= t <= 1_000_000_000_000_000_000)
                &&& -1_000_000_000_000 <= old(self).config.cooldown_hours <= 1_000_000_000_000
                &&& x.rebirth_count < i32::MAX
                &&& i32::MIN <= x.bonus_points + old(self).config.bonus_points_per_rebirth <= i32::MAX
            },
        ensures
            exists|now: i64| #[trigger] rebirth_done(*old(self), *final(self), player_id@, player_name, current_level as int, now, r),
            (info_of(*old(self), player_id@) matches Some(x) && (current_level < old(self).config.level_requirement
                || x.status == RebirthStatus::InProgress)) ==> (r matches Err(MudError::RuntimeError(m)) && m@ == "不满足转生条件"@),
            info_of(*old(self), player_id@) is None ==> r is Ok,
    {
        let now = current_timestamp();
        let ghost name = player_name;
        let r = self.rebirth_at(player_id, player_name, current_level, now);
        assert(rebirth_done(*old(self), *self, player_id@, name, current_level as int, now, r));
        r
    }


    /// Allocates `points` of `player_id`'s bonus points (see
    /// `RebirthInfo::allocate_points`). Fails for a player never reborn.
    pub fn allocate_points(&mut self, player_id: &str, points: i32) -> (r: Result<(), MudError>)
        requires
            old(self).wf(),
            info_of(*old(self), player_id@) matches Some(x) ==> i32::MIN <= x.bonus_points - x.allocated_points <= i32::MAX
                && i32::MIN <= x.allocated_points + points,
        ensures
            final(self).wf(),
            info_of(*old(self), player_id@) is None ==> (r matches Err(MudError::NotFound(m)) && m@ == "转生信息不存在"@),
            info_of(*old(self), player_id@) matches Some(x) ==> {
                &&& points > x.bonus_points - x.allocated_points ==> (r matches Err(MudError::RuntimeError(m)) && m@ == "可用点数不足"@)
                    && info_of(*final(self), player_id@) == Some(x)
                &&& points <= x.bonus_points - x.allocated_points ==> r is Ok
                    && info_of(*final(self), player_id@) == Some(RebirthInfo { allocated_points: (x.allocated_points + points) as i32, ..x })
            },
            forall|k: Seq<char>| k != player_id@ ==> #[trigger] info_of(*final(self), k) == info_of(*old(self), k),
            final(self).records@ == old(self).records@ && final(self).config == old(self).config,
    {
        match take_key(&mut self.player_rebirths, player_id) {
            Some(mut x) => {
                let r = x.allocate_points(points);
                put_key(&mut self.player_rebirths, x);
                r
            },
            None => Err(not_found("转生信息不存在")),
        }
    }

    /// How often `player_id` was reborn (0 if never).
    pub fn get_rebirth_count(&self, player_id: &str) -> (r: i32)
        ensures
            r == (match info_of(*self, player_id@) { Some(x) => x.rebirth_count, None => 0 }),
    {
        match get_key(&self.player_rebirths, player_id) {
            Some(x) => x.rebirth_count,
            None => 0,
        }
    }

    /// The bonus points `player_id` allocated (0 if never reborn).
    pub fn get_stat_bonus(&self, player_id: &str) -> (r: i32)
        ensures
            r == (match info_of(*self, player_id@) { Some(x) => x.allocated_points, None => 0 }),
    {
        match get_key(&self.player_rebirths, player_id) {
            Some(x) => x.allocated_points,
            None => 0,
        }
    }

    /// `player_id`'s rebirth view (see `info_text`), or a note for a
    /// player never reborn.
    pub fn format_rebirth_info(&self, player_id: &str) -> (r: String)
        requires
            info_of(*self, player_id@) matches Some(x) ==> i32::MIN <= x.bonus_points - x.allocated_points <= i32::MAX,
        ensures
            r@ == (match info_of(*self, player_id@) {
                Some(x) => info_text(x, self.config),
                None => "§H=== 转生系统 ===§N\n你还没有转过生。"@,
            }),
    {
        match self.get_rebirth_info(player_id) {
            Some(x) => {
                let mut out = string_of("§H=== 转生系统 ===§N\n转生次数: ");
                push_i64(&mut out, x.rebirth_count as i64);
                push_str(&mut out, "\n获得属性点: ");
                push_i64(&mut out, x.bonus_points as i64);
                push_str(&mut out, "\n已分配: ");
                push_i64(&mut out, x.allocated_points as i64);
                push_str(&mut out, "\n可分配: ");
                push_i64(&mut out, x.available_points() as i64);
                push_str(&mut out, "\n等级要求: ");
                push_i64(&mut out, self.config.level_requirement as i64);
                push_str(&mut out, "级\n每次转生: +");
                push_i64(&mut out, self.config.bonus_points_per_rebirth as i64);
                push_str(&mut out, "点");
                assert(out@ =~= info_text(*x, self.config));
                out
            },
            None => string_of("§H=== 转生系统 ===§N\n你还没有转过生。"),
        }
    }

    /// The ranking: the first hundred players from the most rebirths down
    /// (see `leaderboard`).
    pub fn get_leaderboard(&self) -> (r: Vec<(&str, i32)>)
        ensures
            rows_of(r@) == leaderboard(self.player_rebirths@),
    {
        let s = &self.player_rebirths;
        let mut all: Vec<(&str, i32)> = Vec::new();
        let mut i: usize = 0;
        while i < s.len()
            invariant
                i <= s@.len(),
                rows_of(all@) == by_count(rank_rows(s@.take(i as int))),
            decreases s.len() - i,
        {
            assert(rank_rows(s@.take(i as int + 1)).drop_last() =~= rank_rows(s@.take(i as int)));
            assert(rank_rows(s@.take(i as int + 1)).last() == (s@[i as int].player_id@, s@[i as int].rebirth_count));
            insert_row(&mut all, (s[i].player_id.as_str(), s[i].rebirth_count));
            i = i + 1;
        }
        assert(s@.take(s@.len() as int) == s@);
        if all.len() > 100 {
            let mut top: Vec<(&str, i32)> = Vec::new();
            let mut k: usize = 0;
            while k < 100
                invariant
                    k <= 100,
                    all@.len() > 100,
                    top@.len() == k,
                    rows_of(top@) == rows_of(all@).take(k as int),
                decreases 100 - k,
            {
                let ghost before = top@;
                top.push(all[k]);
                assert(top@ == before.push(all@[k as int]));
                assert(rows_of(all@)[k as int] == (all@[k as int].0@, all@[k as int].1));
                assert forall|t: int| 0 <= t < k + 1 implies rows_of(top@)[t] == rows_of(all@).take(k as int + 1)[t] by {
                    if t < k {
                        assert(top@[t] == before[t]);
                        assert(rows_of(before)[t] == rows_of(all@).take(k as int)[t]);
                    }
                }
                assert(rows_of(top@) =~= rows_of(all@).take(k as int + 1));
                k = k + 1;
            }
            top
        } else {
            all
        }
    }

    /// The ranking view: the first ten of the ranking (see
    /// `leaderboard_text`).
    pub fn format_leaderboard(&self) -> (r: String)
        ensures
            r@ == leaderboard_text(leaderboard(self.player_rebirths@)),
    {
        let board = self.get_leaderboard();
        let ghost rows = rows_of(board@);
        let mut out = string_of("§H=== 转生排行榜 (前10名) ===§N\n");
        if board.len() == 0 {
            push_str(&mut out, "暂无转生记录。\n");
        } else {
            let n = if board.len() > 10 { 10 } else { board.len() };
            let ghost shown = if rows.len() > 10 { rows.take(10) } else { rows };
            assert(shown =~= rows.take(n as int));
            let ghost start = out@;
            let mut i: usize = 0;
            while i < n
                invariant
                    i <= n,
                    n <= board@.len(),
                    rows == rows_of(board@),
                    out@ == start + rank_lines(rows.take(i as int)),
                decreases n - i,
            {
                assert(rows.take(i as int + 1).drop_last() =~= rows.take(i as int));
                assert(rows.take(i as int + 1).last() == rows[i as int]);
                push_str(&mut out, "  ");
                push_u64(&mut out, (i + 1) as u64);
                push_str(&mut out, ". ");
                push_str(&mut out, board[i].0);
                push_str(&mut out, " - ");
                push_i64(&mut out, board[i].1 as i64);
                push_str(&mut out, "转\n");
                assert(out@ =~= start + rank_lines(rows.take(i as int + 1)));
                i = i + 1;
            }
        }
        out
    }
}

impl Default for RebirthDaemon {
    fn default() -> (r: Self)
        ensures
            r.wf(),
            r.player_rebirths@.len() == 0 && r.records@.len() == 0,
    {
        RebirthDaemon::new()
    }
}

} // verus!
