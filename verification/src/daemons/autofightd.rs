//! Automatic fighting: a player's session keeps fighting monsters, counts
//! its fights, damage, experience and gold, and stops when told, when the
//! player dies or after a set number of fights.
//!
//! A round itself is fought by the combat system; a session only learns
//! how it ended (see `AutofightDaemon::record_round_at`).
use vstd::prelude::*;
use crate::errors::{MudError, runtime_error, not_found};
use crate::text::{push_str, push_u64, push_i64, string_of, nat_digits, int_digits};
use crate::util::{lemma_key_in_get, take_key, Keyed, key_get, key_in, keys_unique, find_key, get_key, put_key};
use crate::player_state::{PlayerState, after_exp, exp_room, lemma_after_exp_gold};
use crate::outside::current_timestamp;

verus! {

/// Where a session stands.
#[derive(Clone, Copy, Debug, PartialEq, Eq, Structural)]
pub enum AutofightStatus {
    Stopped,
    Preparing,
    Fighting,
    Paused,
    Stopping,
}

/// How a session fights.
#[derive(Debug)]
pub struct AutofightConfig {
    pub enabled: bool,
    pub auto_use_potion: bool,
    pub hp_threshold: u32,
    pub auto_loot: bool,
    pub fight_interval: u64,
    pub max_fights: Option<i32>,
    pub target_monster: Option<String>,
}

impl Default for AutofightConfig {
    fn default() -> (r: Self)
        ensures
            !r.enabled && r.auto_use_potion && r.hp_threshold == 30 && r.auto_loot && r.fight_interval == 2000,
            r.max_fights is None && r.target_monster is None,
    {
        AutofightConfig {
            enabled: false,
            auto_use_potion: true,
            hp_threshold: 30,
            auto_loot: true,
            fight_interval: 2000,
            max_fights: None,
            target_monster: None,
        }
    }
}

/// A player's automatic fighting; `in_combat` tells whether a fight is
/// open.
#[derive(Debug)]
pub struct AutofightSession {
    pub userid: String,
    pub in_combat: bool,
    pub status: AutofightStatus,
    pub config: AutofightConfig,
    pub fight_count: i32,
    pub total_damage: u64,
    pub total_exp: u64,
    pub total_gold: u64,
    pub start_time: i64,
    pub last_fight_time: i64,
}

impl Keyed for AutofightSession {
    open spec fn key_view(&self) -> Seq<char> {
        self.userid@
    }

    fn key(&self) -> (r: &String) {
        &self.userid
    }
}

/// The session may fight on: it is fighting and, with a limit, has not
/// reached it.
pub open spec fn continues(s: AutofightSession) -> bool {
    s.status == AutofightStatus::Fighting && !(s.config.max_fights matches Some(m) && s.fight_count >= m)
}

/// Minutes and seconds of `d` seconds as Rust's `/` and `%` give them
/// (rounding toward zero).
pub open spec fn trunc_parts(d: int) -> (int, int) {
    if d >= 0 { (d / 60, d % 60) } else { (-((-d) / 60), -((-d) % 60)) }
}

impl AutofightSession {
    /// A session of `userid` started at `now`, preparing, with nothing
    /// counted.
    pub fn new_at(userid: String, config: AutofightConfig, now: i64) -> (r: Self)
        ensures
            autofight_session_new_done(userid, config, now, r),
    {
        AutofightSession {
            userid,
            in_combat: false,
            status: AutofightStatus::Preparing,
            config,
            fight_count: 0,
            total_damage: 0,
            total_exp: 0,
            total_gold: 0,
            start_time: now,
            last_fight_time: 0,
        }
    }

    /// A session started now (see `new_at`).
    pub fn new(userid: String, config: AutofightConfig) -> (r: Self)
        ensures
            exists|now: i64| #[trigger] autofight_session_new_done(userid, config, now, r),
            r.userid == userid && r.config == config && !r.in_combat && r.status == AutofightStatus::Preparing,
            r.fight_count == 0 && r.total_damage == 0 && r.total_exp == 0 && r.total_gold == 0 && r.last_fight_time == 0,
    {
        let now = current_timestamp();
        Self::new_at(userid, config, now)
    }

    /// Whether the session may fight on (see `continues`).
    pub fn should_continue(&self) -> (r: bool)
        ensures
            r == continues(*self),
    {
        if self.status != AutofightStatus::Fighting {
            return false;
        }
        match self.config.max_fights {
            Some(max) => self.fight_count < max,
            None => true,
        }
    }

    /// A fight won at `now` with `damage` dealt, `exp` and `gold` gained:
    /// counted and added up.
    pub fn add_stats_at(&mut self, damage: u32, exp: u64, gold: u64, now: i64)
        requires
            old(self).fight_count < i32::MAX,
            old(self).total_damage + damage <= u64::MAX,
            old(self).total_exp + exp <= u64::MAX,
            old(self).total_gold + gold <= u64::MAX,
        ensures
            add_stats_done(*old(self), *final(self), damage, exp, gold, now),
    {
        self.fight_count = self.fight_count + 1;
        self.total_damage = self.total_damage + damage as u64;
        self.total_exp = self.total_exp + exp;
        self.total_gold = self.total_gold + gold;
        self.last_fight_time = now;
    }

    /// A fight won now (see `add_stats_at`).
    pub fn add_stats(&mut self, damage: u32, exp: u64, gold: u64)
        requires
            old(self).fight_count < i32::MAX,
            old(self).total_damage + damage <= u64::MAX,
            old(self).total_exp + exp <= u64::MAX,
            old(self).total_gold + gold <= u64::MAX,
        ensures
            exists|now: i64| #[trigger] add_stats_done(*old(self), *final(self), damage, exp, gold, now),
            final(self).fight_count == old(self).fight_count + 1,
            final(self).total_damage == old(self).total_damage + damage,
            final(self).total_exp == old(self).total_exp + exp,
            final(self).total_gold == old(self).total_gold + gold,
            final(self).status == old(self).status,
    {
        let now = current_timestamp();
        self.add_stats_at(damage, exp, gold, now);
    }

    /// Seconds the session has run at `now`.
    pub fn get_duration_at(&self, now: i64) -> (r: i64)
        requires
            i64::MIN <= now - self.start_time <= i64::MAX,
        ensures
            get_duration_done(*self, now, r),
    {
        now - self.start_time
    }

    /// Seconds the session has run now (the clock's reading less the
    /// start).
    pub fn get_duration(&self) -> (r: i64)
        requires
            -1_000_000_000_000_000_000 <= self.start_time <= 1_000_000_000_000_000_000,
        ensures
            exists|now: i64| #[trigger] get_duration_done(*self, now, r),
            -200_000_000_000_000 - self.start_time <= r <= 200_000_000_000_000 - self.start_time,
    {
        let now = current_timestamp();
        self.get_duration_at(now)
    }

    /// The statistics at `now`: run time in minutes and seconds, fights,
    /// damage, experience, gold, and the average damage per fight.
    pub fn format_stats_at(&self, now: i64) -> (r: String)
        requires
            i64::MIN <= now - self.start_time <= i64::MAX,
        ensures
            r@ == stats_view(*self, now as int),
    {
        let duration = self.get_duration_at(now);
        let d = duration as i128;
        let (mins, secs): (i64, i64) = if d >= 0 {
            ((d / 60) as i64, (d % 60) as i64)
        } else {
            ((-((-d) / 60)) as i64, (-((-d) % 60)) as i64)
        };
        assert(mins == trunc_parts(duration as int).0 && secs == trunc_parts(duration as int).1);
        let mut out = string_of("§H=== 自动战斗统计 ===§N\n运行时间: ");
        push_i64(&mut out, mins);
        push_str(&mut out, "分");
        push_i64(&mut out, secs);
        push_str(&mut out, "秒\n战斗次数: ");
        push_i64(&mut out, self.fight_count as i64);
        push_str(&mut out, "\n总伤害: ");
        push_u64(&mut out, self.total_damage);
        push_str(&mut out, "\n获得经验: ");
        push_u64(&mut out, self.total_exp);
        push_str(&mut out, "\n获得金币: ");
        push_u64(&mut out, self.total_gold);
        push_str(&mut out, "\n平均每战: ");
        let avg: u64 = if self.fight_count > 0 { self.total_damage / (self.fight_count as u64) } else { 0 };
        push_u64(&mut out, avg);
        push_str(&mut out, "伤害");
        out
    }

    /// The statistics now: what `format_stats_at` gives at the time the
    /// clock gives.
    pub fn format_stats(&self) -> (r: String)
        requires
            -1_000_000_000_000_000_000 <= self.start_time <= 1_000_000_000_000_000_000,
        ensures
            exists|now: int| -200_000_000_000_000 <= now <= 200_000_000_000_000 && r@ == #[trigger] stats_view(*self, now),
    {
        let now = current_timestamp();
        self.format_stats_at(now)
    }
}

/// The running sessions, one per player.
#[derive(Debug)]
pub struct AutofightDaemon {
    pub sessions: Vec<AutofightSession>,
}

/// The session of `userid`.
pub open spec fn session_of(d: AutofightDaemon, userid: Seq<char>) -> Option<AutofightSession> {
    key_get(d.sessions@, userid)
}

/// The players of the sessions of `s` in state `st`, in order.
pub open spec fn users_in(s: Seq<AutofightSession>, st: AutofightStatus) -> Seq<Seq<char>>
    decreases s.len(),
{
    if s.len() == 0 {
        seq![]
    } else {
        let rest = users_in(s.drop_last(), st);
        if s.last().status == st { rest.push(s.last().userid@) } else { rest }
    }
}

/// The sessions of `s` not stopped, in order.
pub open spec fn not_stopped(s: Seq<AutofightSession>) -> Seq<AutofightSession>
    decreases s.len(),
{
    if s.len() == 0 {
        seq![]
    } else {
        let rest = not_stopped(s.drop_last());
        if s.last().status != AutofightStatus::Stopped { rest.push(s.last()) } else { rest }
    }
}

/// The statistics of session `s` at `now`: run time in minutes and seconds,
/// fights, damage, experience, gold, and the average damage per fight.
pub open spec fn stats_view(s: AutofightSession, now: int) -> Seq<char> {
    "§H=== 自动战斗统计 ===§N\n运行时间: "@ + int_digits(trunc_parts(now - s.start_time).0) + "分"@
        + int_digits(trunc_parts(now - s.start_time).1) + "秒\n战斗次数: "@ + int_digits(s.fight_count as int)
        + "\n总伤害: "@ + nat_digits(s.total_damage as nat) + "\n获得经验: "@ + nat_digits(s.total_exp as nat)
        + "\n获得金币: "@ + nat_digits(s.total_gold as nat) + "\n平均每战: "@
        + nat_digits(if s.fight_count > 0 { (s.total_damage as nat) / (s.fight_count as nat) } else { 0 }) + "伤害"@
}

/// The status view of `userid`'s session at `now`.
pub open spec fn status_view(d: AutofightDaemon, userid: Seq<char>, now: int) -> Seq<char> {
    match session_of(d, userid) {
        Some(s) => "§H=== 自动战斗状态 ===§N\n状态: "@ + status_text(s.status) + "\n战斗次数: "@
            + int_digits(s.fight_count as int) + "\n运行时间: "@ + int_digits(now - s.start_time) + "秒"@,
        None => "§R未启动自动战斗§N"@,
    }
}

/// The state of a session as shown.
pub open spec fn status_text(st: AutofightStatus) -> Seq<char> {
    match st {
        AutofightStatus::Stopped => "§R已停止§N"@,
        AutofightStatus::Preparing => "§Y准备中§N"@,
        AutofightStatus::Fighting => "§G战斗中§N"@,
        AutofightStatus::Paused => "§C暂停中§N"@,
        AutofightStatus::Stopping => "§Y停止中§N"@,
    }
}

/// A session after a round that ended (`ended`) won (`won`) or not, with
/// `damage` dealt and `exp` and `gold` as rewards, the player then dead or
/// not, at `now`: a won fight is counted and closed; a dead player's session
/// stops, one that may not go on is stopping.
pub open spec fn after_round(s: AutofightSession, ended: bool, won: bool, damage: u32, exp: u64, gold: u64,
    dead: bool, now: i64) -> AutofightSession {
    let t = if ended && won {
        AutofightSession {
            fight_count: (s.fight_count + 1) as i32,
            total_damage: (s.total_damage + damage) as u64,
            total_exp: (s.total_exp + exp) as u64,
            total_gold: (s.total_gold + gold) as u64,
            last_fight_time: now,
            in_combat: false,
            ..s
        }
    } else {
        AutofightSession { in_combat: true, ..s }
    };
    if dead {
        AutofightSession { status: AutofightStatus::Stopped, ..t }
    } else if !continues(t) {
        AutofightSession { status: AutofightStatus::Stopping, ..t }
    } else {
        t
    }
}

impl AutofightDaemon {
    /// One session per player.
    pub open spec fn wf(&self) -> bool {
        keys_unique(self.sessions@)
    }

    /// No sessions.
    pub fn new() -> (r: Self)
        ensures
            r.wf(),
            r.sessions@.len() == 0,
    {
        AutofightDaemon { sessions: Vec::new() }
    }

    /// Starts `userid`'s session at `now`, fighting. Fails when one runs.
    pub fn start_autofight_at(&mut self, userid: String, config: AutofightConfig, now: i64) -> (r: Result<(), MudError>)
        requires
            old(self).wf(),
        ensures
            start_autofight_done(*old(self), *final(self), userid, config, now, r),
    {
        proof {
            lemma_key_in_get(self.sessions@, userid@);
        }
        if find_key(&self.sessions, userid.as_str()).is_some() {
            return Err(runtime_error("自动战斗已在运行"));
        }
        let mut session = AutofightSession::new_at(userid, config, now);
        session.status = AutofightStatus::Fighting;
        put_key(&mut self.sessions, session);
        Ok(())
    }

    /// Starts `userid`'s session now (see `start_autofight_at`).
    pub fn start_autofight(&mut self, userid: String, config: AutofightConfig) -> (r: Result<(), MudError>)
        requires
            old(self).wf(),
        ensures
            exists|now: i64| #[trigger] start_autofight_done(*old(self), *final(self), userid, config, now, r),
            final(self).wf(),
            session_of(*old(self), userid@) is Some ==> (r matches Err(MudError::RuntimeError(m)) && m@ == "自动战斗已在运行"@),
            session_of(*old(self), userid@) is None ==> r is Ok && (session_of(*final(self), userid@) matches Some(s)
                && s.status == AutofightStatus::Fighting && s.fight_count == 0),
            forall|k: Seq<char>| k != userid@ ==> #[trigger] session_of(*final(self), k) == session_of(*old(self), k),
    {
        let now = current_timestamp();
        self.start_autofight_at(userid, config, now)
    }

    /// Ends `userid`'s session and gives it back, stopped. Fails without one.
    pub fn stop_autofight(&mut self, userid: &str) -> (r: Result<AutofightSession, MudError>)
        requires
            old(self).wf(),
        ensures
            final(self).wf(),
            session_of(*old(self), userid@) is None ==> (r matches Err(MudError::NotFound(m)) && m@ == "没有自动战斗会话"@),
            session_of(*old(self), userid@) matches Some(s) ==> (r matches Ok(t) && t == AutofightSession { status: AutofightStatus::Stopped, ..s }),
            session_of(*final(self), userid@) is None,
            forall|k: Seq<char>| k != userid@ ==> #[trigger] session_of(*final(self), k) == session_of(*old(self), k),
    {
        match take_key(&mut self.sessions, userid) {
            Some(mut s) => {
                s.status = AutofightStatus::Stopped;
                Ok(s)
            },
            None => Err(not_found("没有自动战斗会话")),
        }
    }

    fn set_status(&mut self, userid: &str, st: AutofightStatus) -> (r: Result<(), MudError>)
        requires
            old(self).wf(),
        ensures
            final(self).wf(),
            session_of(*old(self), userid@) is None ==> (r matches Err(MudError::NotFound(m)) && m@ == "没有自动战斗会话"@)
                && final(self).sessions@ == old(self).sessions@,
            session_of(*old(self), userid@) matches Some(s) ==> r is Ok
                && session_of(*final(self), userid@) == Some(AutofightSession { status: st, ..s }),
            forall|k: Seq<char>| k != userid@ ==> #[trigger] session_of(*final(self), k) == session_of(*old(self), k),
    {
        match take_key(&mut self.sessions, userid) {
            Some(mut s) => {
                s.status = st;
                put_key(&mut self.sessions, s);
                Ok(())
            },
            None => Err(not_found("没有自动战斗会话")),
        }
    }

    /// Pauses `userid`'s session. Fails without one.
    pub fn pause_autofight(&mut self, userid: &str) -> (r: Result<(), MudError>)
        requires
            old(self).wf(),
        ensures
            final(self).wf(),
            session_of(*old(self), userid@) is None ==> (r matches Err(MudError::NotFound(m)) && m@ == "没有自动战斗会话"@),
            session_of(*old(self), userid@) matches Some(s) ==> r is Ok
                && session_of(*final(self), userid@) == Some(AutofightSession { status: AutofightStatus::Paused, ..s }),
            forall|k: Seq<char>| k != userid@ ==> #[trigger] session_of(*final(self), k) == session_of(*old(self), k),
    {
        self.set_status(userid, AutofightStatus::Paused)
    }

    /// Resumes `userid`'s session, fighting. Fails without one.
    pub fn resume_autofight(&mut self, userid: &str) -> (r: Result<(), MudError>)
        requires
            old(self).wf(),
        ensures
            final(self).wf(),
            session_of(*old(self), userid@) is None ==> (r matches Err(MudError::NotFound(m)) && m@ == "没有自动战斗会话"@),
            session_of(*old(self), userid@) matches Some(s) ==> r is Ok
                && session_of(*final(self), userid@) == Some(AutofightSession { status: AutofightStatus::Fighting, ..s }),
            forall|k: Seq<char>| k != userid@ ==> #[trigger] session_of(*final(self), k) == session_of(*old(self), k),
    {
        self.set_status(userid, AutofightStatus::Fighting)
    }

    /// The session of `userid`, to be changed in place, if any: what is
    /// written through it becomes that session, and nothing else changes.
    pub fn get_session_mut(&mut self, userid: &str) -> (r: Option<&mut AutofightSession>)
        ensures
            r is None <==> session_of(*old(self), userid@) is None,
            r is None ==> final(self).sessions@ == old(self).sessions@,
            r matches Some(x) ==> session_of(*old(self), userid@) == Some(*x)
                && (exists|i: int| crate::util::key_pos(old(self).sessions@, userid@, i)
                    && final(self).sessions@ == old(self).sessions@.update(i, *final(x))),
    {
        crate::util::get_key_mut(&mut self.sessions, userid)
    }

    /// `userid`'s session.
    pub fn get_session(&self, userid: &str) -> (r: Option<&AutofightSession>)
        ensures
            r matches Some(s) ==> session_of(*self, userid@) == Some(*s),
            r is None <==> session_of(*self, userid@) is None,
    {
        get_key(&self.sessions, userid)
    }

    /// What a round fought by `userid`'s session at `now` comes to (see
    /// `after_round`). Fails without a session.
    pub fn record_round_at(&mut self, userid: &str, ended: bool, won: bool, damage: u32, exp: u64, gold: u64,
        dead: bool, now: i64) -> (r: Result<(), MudError>)
        requires
            old(self).wf(),
            session_of(*old(self), userid@) matches Some(s) ==> (ended && won ==> {
                &&& s.fight_count < i32::MAX
                &&& s.total_damage + damage <= u64::MAX
                &&& s.total_exp + exp <= u64::MAX
                &&& s.total_gold + gold <= u64::MAX
            }),
        ensures
            final(self).wf(),
            session_of(*old(self), userid@) is None ==> (r matches Err(MudError::NotFound(m)) && m@ == "没有自动战斗会话"@)
                && final(self).sessions@ == old(self).sessions@,
            session_of(*old(self), userid@) matches Some(s) ==> r is Ok
                && session_of(*final(self), userid@) == Some(after_round(s, ended, won, damage, exp, gold, dead, now)),
            forall|k: Seq<char>| k != userid@ ==> #[trigger] session_of(*final(self), k) == session_of(*old(self), k),
    {
        match take_key(&mut self.sessions, userid) {
            Some(mut s) => {
                s.in_combat = true;
                if ended && won {
                    s.add_stats_at(damage, exp, gold, now);
                    s.in_combat = false;
                }
                if dead {
                    s.status = AutofightStatus::Stopped;
                } else if !s.should_continue() {
                    s.status = AutofightStatus::Stopping;
                }
                put_key(&mut self.sessions, s);
                Ok(())
            },
            None => Err(not_found("没有自动战斗会话")),
        }
    }

    /// Whether `player` should drink a potion: alive, below 30% of its
    /// health.
    pub fn check_auto_potion(&self, player: &PlayerState) -> (r: bool)
        requires
            player.hp > 0 ==> player.hp_max > 0 && player.hp * 100 <= u32::MAX,
        ensures
            r == (player.hp > 0 && (player.hp * 100) / (player.hp_max as int) < 30),
    {
        if !player.is_alive() {
            return false;
        }
        let pct = (player.hp * 100) / player.hp_max;
        pct < 30
    }

    /// The players whose sessions are fighting, in order.
    pub fn get_active_players(&self) -> (r: Vec<String>)
        ensures
            r@.map_values(|s: String| s@) == users_in(self.sessions@, AutofightStatus::Fighting),
    {
        let s = &self.sessions;
        let mut r: Vec<String> = Vec::new();
        let mut i: usize = 0;
        while i < s.len()
            invariant
                i <= s@.len(),
                r@.map_values(|x: String| x@) == users_in(s@.take(i as int), AutofightStatus::Fighting),
            decreases s.len() - i,
        {
            assert(s@.take(i as int + 1).drop_last() == s@.take(i as int));
            assert(s@.take(i as int + 1).last() == s@[i as int]);
            if s[i].status == AutofightStatus::Fighting {
                r.push(s[i].userid.clone());
            }
            assert(r@.map_values(|x: String| x@) =~= users_in(s@.take(i as int + 1), AutofightStatus::Fighting));
            i = i + 1;
        }
        assert(s@.take(s@.len() as int) == s@);
        r
    }

    /// Drops the stopped sessions and gives their players, in order.
    pub fn cleanup_finished(&mut self) -> (r: Vec<String>)
        requires
            old(self).wf(),
        ensures
            final(self).wf(),
            r@.map_values(|s: String| s@) == users_in(old(self).sessions@, AutofightStatus::Stopped),
            final(self).sessions@ == not_stopped(old(self).sessions@),
    {
        let mut src: Vec<AutofightSession> = Vec::new();
        std::mem::swap(&mut src, &mut self.sessions);
        let ghost o = src@;
        let mut kept: Vec<AutofightSession> = Vec::new();
        let mut done: Vec<String> = Vec::new();
        let mut i: usize = 0;
        let ghost n = src@.len();
        while src.len() > 0
            invariant
                o.len() == n,
                src@ == o.skip(n - src@.len()),
                src@.len() <= n,
                kept@ == not_stopped(o.take(n - src@.len())),
                done@.map_values(|x: String| x@) == users_in(o.take(n - src@.len()), AutofightStatus::Stopped),
            decreases src.len(),
        {
            let ghost k = n - src@.len();
            let e = src.remove(0);
            proof {
                assert(o.take(k + 1).drop_last() =~= o.take(k));
                assert(o.take(k + 1).last() == o[k]);
                assert(o[k] == e);
                assert(src@ =~= o.skip(k + 1));
            }
            if e.status == AutofightStatus::Stopped {
                done.push(e.userid.clone());
            } else {
                kept.push(e);
            }
            assert(done@.map_values(|x: String| x@) =~= users_in(o.take(k + 1), AutofightStatus::Stopped));
        }
        assert(o.take(n as int) == o);
        proof {
            lemma_not_stopped_unique(o);
        }
        self.sessions = kept;
        done
    }

    /// `userid`'s session state at `now`: its state, fights and run time;
    /// a note when it has none.
    pub fn format_status_at(&self, userid: &str, now: i64) -> (r: String)
        requires
            session_of(*self, userid@) matches Some(s) ==> i64::MIN <= now - s.start_time <= i64::MAX,
        ensures
            r@ == status_view(*self, userid@, now as int),
    {
        match self.get_session(userid) {
            Some(s) => {
                let mut out = string_of("§H=== 自动战斗状态 ===§N\n状态: ");
                match s.status {
                    AutofightStatus::Stopped => push_str(&mut out, "§R已停止§N"),
                    AutofightStatus::Preparing => push_str(&mut out, "§Y准备中§N"),
                    AutofightStatus::Fighting => push_str(&mut out, "§G战斗中§N"),
                    AutofightStatus::Paused => push_str(&mut out, "§C暂停中§N"),
                    AutofightStatus::Stopping => push_str(&mut out, "§Y停止中§N"),
                }
                push_str(&mut out, "\n战斗次数: ");
                push_i64(&mut out, s.fight_count as i64);
                push_str(&mut out, "\n运行时间: ");
                push_i64(&mut out, s.get_duration_at(now));
                push_str(&mut out, "秒");
                out
            },
            None => string_of("§R未启动自动战斗§N"),
        }
    }

    /// The session's status now: what `format_status_at` gives at the time
    /// the clock gives.
    pub fn format_status(&self, userid: &str) -> (r: String)
        requires
            session_of(*self, userid@) matches Some(s) ==> -1_000_000_000_000_000_000 <= s.start_time <= 1_000_000_000_000_000_000,
        ensures
            exists|now: int| r@ == #[trigger] status_view(*self, userid@, now),
    {
        let now = current_timestamp();
        self.format_status_at(userid, now)
    }
}

/// What is kept of a list with distinct players has distinct players.
proof fn lemma_not_stopped_unique(s: Seq<AutofightSession>)
    requires
        keys_unique(s),
    ensures
        keys_unique(not_stopped(s)),
        forall|j: int| 0 <= j < not_stopped(s).len() ==> s.contains(#[trigger] not_stopped(s)[j]),
    decreases s.len(),
{
    if s.len() > 0 {
        let p = s.drop_last();
        assert forall|a: int, b: int| 0 <= a < b < p.len() implies p[a].key_view() != p[b].key_view() by {
            assert(s[a] == p[a] && s[b] == p[b]);
        }
        lemma_not_stopped_unique(p);
        let k = not_stopped(s);
        let kp = not_stopped(p);
        assert forall|j: int| 0 <= j < k.len() implies s.contains(#[trigger] k[j]) by {
            if j < kp.len() {
                assert(k[j] == kp[j]);
                let w = choose|w: int| 0 <= w < p.len() && p[w] == kp[j];
                assert(s[w] == p[w]);
            } else {
                assert(s[s.len() - 1] == k[j]);
            }
        }
        assert forall|a: int, b: int| 0 <= a < b < k.len() implies k[a].key_view() != k[b].key_view() by {
            if b < kp.len() {
                assert(k[a] == kp[a] && k[b] == kp[b]);
            } else {
                assert(k[a] == kp[a]);
                let w = choose|w: int| 0 <= w < p.len() && p[w] == kp[a];
                assert(s[w] == p[w]);
                assert(s[w].key_view() != s[s.len() - 1].key_view());
            }
        }
    }
}

impl Default for AutofightDaemon {
    fn default() -> (r: Self)
        ensures
            r.wf(),
            r.sessions@.len() == 0,
    {
        AutofightDaemon::new()
    }
}

/// What `AutofightSession::add_stats_at` promises: `o` is the value before the call, `f` the value
/// after.
pub open spec fn add_stats_done(
    o: AutofightSession, f: AutofightSession, damage: u32, exp: u64, gold: u64, now: i64) -> bool {
    &&& (f.fight_count == o.fight_count + 1)
    &&& (f.total_damage == o.total_damage + damage)
    &&& (f.total_exp == o.total_exp + exp)
    &&& (f.total_gold == o.total_gold + gold)
    &&& (f.last_fight_time == now)
    &&& (f.userid == o.userid && f.in_combat == o.in_combat)
    &&& (f.status == o.status && f.config == o.config)
    &&& (f.start_time == o.start_time)
}

/// What `AutofightSession::get_duration_at` promises: `this` is the value it is called on, `r` what it
/// gives back.
pub open spec fn get_duration_done(this: AutofightSession, now: i64, r: i64) -> bool {
    &&& (r == now - this.start_time)
}

/// What `AutofightDaemon::start_autofight_at` promises: `o` is the value before the call, `f` the value
/// after, `r` what it gives back.
pub open spec fn start_autofight_done(
    o: AutofightDaemon, f: AutofightDaemon, userid: String, config: AutofightConfig, now: i64,
    r: Result<(), MudError>) -> bool {
    &&& (f.wf())
    &&& (session_of(o, userid@) is Some ==> (r matches Err(MudError::RuntimeError(m)) && m@ == "自动战斗已在运行"@)
        && f.sessions@ == o.sessions@)
    &&& (session_of(o, userid@) is None ==> r is Ok && session_of(f, userid@) == Some(AutofightSession {
        userid, in_combat: false, status: AutofightStatus::Fighting, config, fight_count: 0, total_damage: 0, total_exp: 0,
        total_gold: 0, start_time: now, last_fight_time: 0 }))
    &&& (forall|k: Seq<char>| k != userid@ ==> #[trigger] session_of(f, k) == session_of(o, k))
}

/// What `AutofightSession::new_at` promises: for the arguments given, `r` what it gives back.
pub open spec fn autofight_session_new_done(
    userid: String, config: AutofightConfig, now: i64, r: AutofightSession) -> bool {
    &&& (r.userid == userid && r.config == config && !r.in_combat && r.status == AutofightStatus::Preparing)
    &&& (r.fight_count == 0 && r.total_damage == 0 && r.total_exp == 0 && r.total_gold == 0)
    &&& (r.start_time == now && r.last_fight_time == 0)
}

/// Player `p` after winning a fight worth `exp` experience and `gold` gold:
/// the experience is gained (see `after_exp`), then the gold.
pub open spec fn rewarded(p: PlayerState, exp: u64, gold: u64) -> PlayerState {
    let q = after_exp(PlayerState { exp: (p.exp + exp) as u64, ..p });
    PlayerState { gold: (q.gold + gold) as u64, ..q }
}

/// The rewards of a won fight fit in a player and a session.
pub open spec fn round_fits(d: AutofightDaemon, userid: Seq<char>, p: PlayerState, ended: bool, won: bool, damage: u32,
    exp: u64, gold: u64) -> bool {
    ended && won ==> {
        &&& exp_room(p, exp as int)
        &&& p.gold + gold <= u64::MAX
        &&& session_of(d, userid) matches Some(s) ==> {
            &&& s.fight_count < i32::MAX
            &&& s.total_damage + damage <= u64::MAX
            &&& s.total_exp + exp <= u64::MAX
            &&& s.total_gold + gold <= u64::MAX
        }
    }
}

/// What settling a round of `userid`'s fight at `now` makes of the daemon
/// `o` and player `p` (`f` and `q` after): without a session it fails with
/// 没有自动战斗会话 and nothing changes; else a won fight rewards the
/// player (see `rewarded`), and the session takes the round in (see
/// `after_round`), stopped when the player is then dead.
pub open spec fn round_settled(o: AutofightDaemon, f: AutofightDaemon, p: PlayerState, q: PlayerState, userid: Seq<char>,
    ended: bool, won: bool, damage: u32, exp: u64, gold: u64, now: i64, r: Result<(), MudError>) -> bool {
    &&& f.wf()
    &&& forall|k: Seq<char>| k != userid ==> #[trigger] session_of(f, k) == session_of(o, k)
    &&& match session_of(o, userid) {
        None => (r matches Err(MudError::NotFound(m)) && m@ == "没有自动战斗会话"@) && f.sessions@ == o.sessions@ && q == p,
        Some(s) => {
            &&& r is Ok
            &&& q == if ended && won { rewarded(p, exp, gold) } else { p }
            &&& session_of(f, userid) == Some(after_round(s, ended, won, damage, exp, gold, q.hp == 0, now))
        },
    }
}

impl AutofightDaemon {
    /// Settles a round of `userid`'s fight at `now` that came out as given:
    /// whether the fight `ended`, whether the player `won`, the damage the
    /// player dealt and the fight's experience and gold (see
    /// `round_settled`).
    pub fn execute_round_at(&mut self, userid: &str, player: &mut PlayerState, ended: bool, won: bool, player_damage: u32,
        reward_exp: u64, reward_gold: u64, now: i64) -> (r: Result<(), MudError>)
        requires
            old(self).wf(),
            round_fits(*old(self), userid@, *old(player), ended, won, player_damage, reward_exp, reward_gold),
        ensures
            round_settled(*old(self), *final(self), *old(player), *final(player), userid@, ended, won, player_damage,
                reward_exp, reward_gold, now, r),
    {
        if get_key(&self.sessions, userid).is_none() {
            return Err(not_found("没有自动战斗会话"));
        }
        if ended && won {
            proof {
                lemma_after_exp_gold(PlayerState { exp: (player.exp + reward_exp) as u64, ..*player });
            }
            player.add_exp(reward_exp);
            player.add_gold(reward_gold);
        }
        let dead = player.is_dead();
        self.record_round_at(userid, ended, won, player_damage, reward_exp, reward_gold, dead, now)
    }

    /// Settles a round now (see `execute_round_at`).
    pub fn execute_round(&mut self, userid: &str, player: &mut PlayerState, ended: bool, won: bool, player_damage: u32,
        reward_exp: u64, reward_gold: u64) -> (r: Result<(), MudError>)
        requires
            old(self).wf(),
            round_fits(*old(self), userid@, *old(player), ended, won, player_damage, reward_exp, reward_gold),
        ensures
            exists|now: i64| #[trigger] round_settled(*old(self), *final(self), *old(player), *final(player), userid@, ended,
                won, player_damage, reward_exp, reward_gold, now, r),
    {
        let now = current_timestamp();
        self.execute_round_at(userid, player, ended, won, player_damage, reward_exp, reward_gold, now)
    }
}

} // verus!
