//! Activities: timed tasks with conditions and rewards, each player's
//! progress toward them and the claiming of rewards.
use vstd::prelude::*;
use crate::errors::{MudError, runtime_error, not_found};
use crate::text::{push_str, push_u64, push_i64, string_of, int_digits, nat_digits};
use crate::util::{
    Keyed, key_pos, key_in, keys_unique, find_key, get_key, key_get, put_key, lemma_key_get_at,
    lemma_key_get_none, lemma_key_first, lemma_keyed_update,
};
use crate::outside::current_timestamp;

verus! {

/// How often an activity comes back.
#[derive(Clone, Copy, Debug, PartialEq, Eq, Structural)]
pub enum ActivityType {
    Daily,
    Weekly,
    Event,
    Limited,
    Online,
    Cumulative,
}

/// Where an activity stands.
#[derive(Clone, Copy, Debug, PartialEq, Eq, Structural)]
pub enum ActivityStatus {
    NotStarted,
    Ongoing,
    Ended,
    Completed,
}

/// A condition of an activity: a counter and the value it must reach.
#[derive(Debug)]
pub struct ActivityCondition {
    pub condition_type: String,
    pub target_value: i32,
    pub description: String,
}

impl Clone for ActivityCondition {
    fn clone(&self) -> (r: Self)
        ensures
            r == *self,
    {
        ActivityCondition { condition_type: self.condition_type.clone(), target_value: self.target_value, description: self.description.clone() }
    }
}

impl Keyed for ActivityCondition {
    open spec fn key_view(&self) -> Seq<char> {
        self.condition_type@
    }

    fn key(&self) -> (r: &String) {
        &self.condition_type
    }
}

/// What an activity gives.
#[derive(Debug)]
pub struct ActivityReward {
    pub exp: u64,
    pub gold: u64,
    pub items: Vec<String>,
    pub title: Option<String>,
}

/// `a` is a copy of `b`.
pub open spec fn activity_reward_copy(a: ActivityReward, b: ActivityReward) -> bool {
    a.exp == b.exp && a.gold == b.gold && a.items@ == b.items@ && a.title == b.title
}

impl Clone for ActivityReward {
    fn clone(&self) -> (r: Self)
        ensures
            activity_reward_copy(r, *self),
    {
        let items = self.items.clone();
        proof {
            assert forall|i: int| 0 <= i < items@.len() implies items@[i] == self.items@[i] by {
                assert(cloned::<String>(self.items[i], items[i]));
            }
            assert(items@ =~= self.items@);
        }
        let title = match &self.title {
            Some(t) => Some(t.clone()),
            None => None,
        };
        ActivityReward { exp: self.exp, gold: self.gold, items, title }
    }
}

/// A player's progress in one activity.
#[derive(Debug)]
pub struct ActivityProgress {
    pub activity_id: String,
    pub player_id: String,
    pub current_value: i32,
    pub claimed: bool,
    pub updated_at: i64,
}

impl Clone for ActivityProgress {
    fn clone(&self) -> (r: Self)
        ensures
            r == *self,
    {
        ActivityProgress {
            activity_id: self.activity_id.clone(),
            player_id: self.player_id.clone(),
            current_value: self.current_value,
            claimed: self.claimed,
            updated_at: self.updated_at,
        }
    }
}

impl Keyed for ActivityProgress {
    open spec fn key_view(&self) -> Seq<char> {
        self.activity_id@
    }

    fn key(&self) -> (r: &String) {
        &self.activity_id
    }
}

impl ActivityProgress {
    /// No progress yet, unclaimed, updated at `now`.
    pub fn new_at(activity_id: String, player_id: String, now: i64) -> (r: Self)
        ensures
            activity_progress_new_done(activity_id, player_id, now, r),
    {
        ActivityProgress { activity_id, player_id, current_value: 0, claimed: false, updated_at: now }
    }

    /// No progress yet, unclaimed, updated now.
    pub fn new(activity_id: String, player_id: String) -> (r: Self)
        ensures
            exists|now: i64| #[trigger] activity_progress_new_done(activity_id, player_id, now, r),
            r.activity_id == activity_id && r.player_id == player_id && r.current_value == 0 && !r.claimed,
    {
        let now = current_timestamp();
        Self::new_at(activity_id, player_id, now)
    }

    /// The value reached `target_value`.
    pub fn is_completed(&self, target_value: i32) -> (r: bool)
        ensures
            r == (self.current_value >= target_value),
    {
        self.current_value >= target_value
    }

    /// Completed and its reward not yet claimed.
    pub fn can_claim(&self, target_value: i32) -> (r: bool)
        ensures
            r == (self.current_value >= target_value && !self.claimed),
    {
        self.is_completed(target_value) && !self.claimed
    }
}

/// An activity.
#[derive(Debug)]
pub struct Activity {
    pub id: String,
    pub name: String,
    pub description: String,
    pub activity_type: ActivityType,
    pub status: ActivityStatus,
    pub start_time: i64,
    pub end_time: i64,
    pub conditions: Vec<ActivityCondition>,
    pub rewards: ActivityReward,
    pub vip_requirement: i32,
    pub level_requirement: i32,
    pub sort_order: i32,
}

impl Keyed for Activity {
    open spec fn key_view(&self) -> Seq<char> {
        self.id@
    }

    fn key(&self) -> (r: &String) {
        &self.id
    }
}

/// The label of an activity status.
pub open spec fn status_text(s: ActivityStatus) -> Seq<char> {
    match s {
        ActivityStatus::NotStarted => "§C未开始§N"@,
        ActivityStatus::Ongoing => "§G进行中§N"@,
        ActivityStatus::Ended => "§R已结束§N"@,
        ActivityStatus::Completed => "§Y已完成§N"@,
    }
}

/// The mark of an activity type: 日 for daily, 周 for weekly, 特 otherwise.
pub open spec fn type_mark(t: ActivityType) -> Seq<char> {
    if t == ActivityType::Daily {
        "日"@
    } else if t == ActivityType::Weekly {
        "周"@
    } else {
        "特"@
    }
}

/// The description of an activity with a player's progress.
pub open spec fn info_text(a: Activity, p: Option<ActivityProgress>) -> Seq<char> {
    "§H["@ + type_mark(a.activity_type) + "]§N "@ + a.name@ + " - "@ + a.description@ + "\n状态: "@ + status_text(a.status) + match p {
        Some(pr) => if !pr.claimed {
            if a.conditions@.len() > 0 {
                let t = a.conditions@[0].target_value;
                "\n进度: "@ + int_digits(pr.current_value as int) + "/"@ + int_digits(t as int) + " "@ + if pr.current_value >= t { "§G[已完成]§N"@ } else { ""@ }
            } else {
                ""@
            }
        } else {
            " §Y[已领取]§N"@
        },
        None => ""@,
    }
}

impl Activity {
    /// Ongoing, and `now` lies between its start and end.
    pub open spec fn available_at(&self, now: i64) -> bool {
        self.status == ActivityStatus::Ongoing && self.start_time <= now <= self.end_time
    }

    /// Whether the activity can be taken part in at time `now`.
    pub fn is_available_at(&self, now: i64) -> (r: bool)
        ensures
            r == self.available_at(now),
    {
        if self.status != ActivityStatus::Ongoing {
            return false;
        }
        if now < self.start_time || now > self.end_time {
            return false;
        }
        true
    }

    /// Whether the activity can be taken part in now.
    pub fn is_available(&self) -> (r: bool)
        ensures
            r ==> self.status == ActivityStatus::Ongoing,
            exists|now: i64| r == self.available_at(now),
    {
        let now = current_timestamp();
        self.is_available_at(now)
    }

    /// The activity ended before `now`.
    pub open spec fn expired_at(&self, now: i64) -> bool {
        now > self.end_time
    }

    /// The activity ended before `now`.
    pub fn is_expired_at(&self, now: i64) -> (r: bool)
        ensures
            r == self.expired_at(now),
    {
        now > self.end_time
    }

    /// The activity has ended.
    pub fn is_expired(&self) -> (r: bool)
        ensures
            exists|now: i64| r == self.expired_at(now),
    {
        let now = current_timestamp();
        self.is_expired_at(now)
    }

    /// The activity's type, name, description and status, then the player's
    /// progress toward its first condition, or that its reward was claimed.
    pub fn format_info(&self, progress: Option<&ActivityProgress>) -> (r: String)
        ensures
            r@ == info_text(*self, match progress { Some(p) => Some(*p), None => None }),
    {
        let status = match self.status {
            ActivityStatus::NotStarted => "§C未开始§N",
            ActivityStatus::Ongoing => "§G进行中§N",
            ActivityStatus::Ended => "§R已结束§N",
            ActivityStatus::Completed => "§Y已完成§N",
        };
        let mark = if self.activity_type == ActivityType::Daily {
            "日"
        } else if self.activity_type == ActivityType::Weekly {
            "周"
        } else {
            "特"
        };
        let mut out = string_of("§H[");
        push_str(&mut out, mark);
        push_str(&mut out, "]§N ");
        push_str(&mut out, self.name.as_str());
        push_str(&mut out, " - ");
        push_str(&mut out, self.description.as_str());
        push_str(&mut out, "\n状态: ");
        push_str(&mut out, status);
        let ghost head = out@;
        match progress {
            Some(p) => {
                if !p.claimed {
                    if self.conditions.len() > 0 {
                        let t = self.conditions[0].target_value;
                        push_str(&mut out, "\n进度: ");
                        push_i64(&mut out, p.current_value as i64);
                        push_str(&mut out, "/");
                        push_i64(&mut out, t as i64);
                        push_str(&mut out, " ");
                        if p.is_completed(t) {
                            push_str(&mut out, "§G[已完成]§N");
                        } else {
                            push_str(&mut out, "");
                        }
                        assert(out@ =~= head + ("\n进度: "@ + int_digits(p.current_value as int) + "/"@ + int_digits(t as int) + " "@ + if p.current_value >= t { "§G[已完成]§N"@ } else { ""@ }));
                    } else {
                        push_str(&mut out, "");
                    }
                } else {
                    push_str(&mut out, " §Y[已领取]§N");
                }
            },
            None => {
                push_str(&mut out, "");
            },
        }
        out
    }
}

/// The activities of one player.
#[derive(Debug)]
pub struct PlayerActivities {
    pub player_id: String,
    pub entries: Vec<ActivityProgress>,
}

impl Keyed for PlayerActivities {
    open spec fn key_view(&self) -> Seq<char> {
        self.player_id@
    }

    fn key(&self) -> (r: &String) {
        &self.player_id
    }
}

/// The activities and every player's progress in them.
pub struct ActivityDaemon {
    activities: Vec<Activity>,
    player_progress: Vec<PlayerActivities>,
}

/// `a` has the given fields and one condition.
pub open spec fn activity_is(
    a: Activity,
    id: Seq<char>,
    name: Seq<char>,
    description: Seq<char>,
    start: i64,
    end: int,
    ct: Seq<char>,
    target: int,
    cdesc: Seq<char>,
    exp: int,
    gold: int,
    level: int,
    order: int,
) -> bool {
    &&& a.id@ == id
    &&& a.name@ == name
    &&& a.description@ == description
    &&& a.activity_type == ActivityType::Daily
    &&& a.status == ActivityStatus::Ongoing
    &&& a.start_time == start
    &&& a.end_time == end
    &&& a.conditions@.len() == 1
    &&& a.conditions@[0].condition_type@ == ct
    &&& a.conditions@[0].target_value == target
    &&& a.conditions@[0].description@ == cdesc
    &&& a.rewards.exp == exp
    &&& a.rewards.gold == gold
    &&& a.rewards.items@.len() == 0
    &&& a.rewards.title is None
    &&& a.vip_requirement == 0
    &&& a.level_requirement == level
    &&& a.sort_order == order
}

fn daily_activity(
    id: &str,
    name: &str,
    description: &str,
    start: i64,
    end: i64,
    ct: &str,
    target: i32,
    cdesc: &str,
    exp: u64,
    gold: u64,
    level: i32,
    order: i32,
) -> (r: Activity)
    ensures
        activity_is(r, id@, name@, description@, start, end as int, ct@, target as int, cdesc@, exp as int, gold as int, level as int, order as int),
{
    let mut conditions: Vec<ActivityCondition> = Vec::new();
    conditions.push(ActivityCondition { condition_type: string_of(ct), target_value: target, description: string_of(cdesc) });
    Activity {
        id: string_of(id),
        name: string_of(name),
        description: string_of(description),
        activity_type: ActivityType::Daily,
        status: ActivityStatus::Ongoing,
        start_time: start,
        end_time: end,
        conditions,
        rewards: ActivityReward { exp, gold, items: Vec::new(), title: None },
        vip_requirement: 0,
        level_requirement: level,
        sort_order: order,
    }
}

/// The activities the daemon starts with at time `now`: the daily sign-in,
/// monster hunt and dungeon activities, each lasting a day.
pub open spec fn default_activities(s: Seq<Activity>, now: i64) -> bool {
    &&& s.len() == 3
    &&& activity_is(s[0], "daily_checkin"@, "每日签到"@, "每天登录即可获得奖励"@, now, now + 86400, "login"@, 1, "登录游戏"@, 1000, 500, 1, 1)
    &&& activity_is(s[1], "daily_monster_100"@, "猎魔先锋"@, "击杀100只怪物"@, now, now + 86400, "kill_monster"@, 100, "击杀怪物"@, 5000, 2000, 1, 2)
    &&& activity_is(s[2], "daily_dungeon_5"@, "副本挑战者"@, "完成5次副本"@, now, now + 86400, "complete_dungeon"@, 5, "完成副本"@, 10000, 5000, 10, 3)
}

/// Activities that can be taken part in at `now` by a player of the given
/// level and VIP level, in catalogue order.
pub open spec fn available_list(cat: Seq<Activity>, level: int, vip: int, now: i64) -> Seq<Activity> {
    cat.filter(|a: Activity| a.available_at(now) && a.level_requirement <= level && a.vip_requirement <= vip)
}

/// An update of condition `ct` at `now` concerns activity `a`.
pub open spec fn act_matches(a: Activity, ct: Seq<char>, now: i64) -> bool {
    a.available_at(now) && key_in(a.conditions@, ct)
}

/// Some of the first `n` activities concerned by the update has id `id`.
pub open spec fn touched(cat: Seq<Activity>, ct: Seq<char>, now: i64, n: int, id: Seq<char>) -> bool {
    exists|j: int| 0 <= j < n && cat[j].id@ == id && #[trigger] act_matches(cat[j], ct, now)
}

/// A player's entries, none for an unknown player.
pub open spec fn activity_entries(players: Seq<PlayerActivities>, player_id: Seq<char>) -> Seq<ActivityProgress> {
    match key_get(players, player_id) {
        Some(pl) => pl.entries@,
        None => Seq::empty(),
    }
}

/// The value before an update (0 without an entry).
pub open spec fn base_value(old: Option<ActivityProgress>) -> int {
    match old {
        Some(o) => o.current_value as int,
        None => 0,
    }
}

/// The reward of the entry was claimed.
pub open spec fn is_claimed(old: Option<ActivityProgress>) -> bool {
    match old {
        Some(o) => o.claimed,
        None => false,
    }
}

/// `e` is the entry `old` for activity `id` of `player` after adding
/// `value` at `now`: a claimed entry stays as it was; otherwise the value
/// grows (from 0 for a new entry) and the time is `now`.
pub open spec fn progressed(old: Option<ActivityProgress>, id: Seq<char>, player: Seq<char>, value: int, now: i64, e: ActivityProgress) -> bool {
    match old {
        Some(o) => if o.claimed {
            e == o
        } else {
            e == ActivityProgress { current_value: (o.current_value + value) as i32, updated_at: now, ..o }
        },
        None => e.activity_id@ == id && e.player_id@ == player && e.current_value == value && !e.claimed && e.updated_at == now,
    }
}

/// The update completes activity `a`: its entry is unclaimed and the new
/// value reaches the target of its first condition of type `ct`.
pub open spec fn completes(old: Option<ActivityProgress>, a: Activity, ct: Seq<char>, value: int) -> bool {
    !is_claimed(old) && base_value(old) + value >= key_get(a.conditions@, ct).unwrap().target_value
}

/// The ids of the first `n` activities that the update completes.
pub open spec fn activity_completions(cat: Seq<Activity>, es: Seq<ActivityProgress>, ct: Seq<char>, value: int, now: i64, n: int) -> Seq<Seq<char>>
    decreases n,
{
    if n <= 0 {
        Seq::empty()
    } else {
        let prev = activity_completions(cat, es, ct, value, now, n - 1);
        let a = cat[n - 1];
        if act_matches(a, ct, now) && completes(key_get(es, a.id@), a, ct, value) {
            prev.push(a.id@)
        } else {
            prev
        }
    }
}

/// An entry survives a daily reset: its activity exists and is not daily.
pub open spec fn survives_reset(cat: Seq<Activity>, e: ActivityProgress) -> bool {
    key_get(cat, e.activity_id@) matches Some(a) && a.activity_type != ActivityType::Daily
}

/// The target of the first condition of an activity, 0 without conditions.
pub open spec fn first_target(a: Activity) -> int {
    if a.conditions@.len() > 0 {
        a.conditions@[0].target_value as int
    } else {
        0
    }
}

/// The texts of a sequence of strings.
pub open spec fn id_texts(v: Seq<String>) -> Seq<Seq<char>> {
    v.map_values(|s: String| s@)
}

/// The line of one activity in the list.
pub open spec fn activity_line(players: Seq<PlayerActivities>, player_id: Seq<char>, a: Activity) -> Seq<char> {
    "  "@ + info_text(a, key_get(activity_entries(players, player_id), a.id@)) + "\n"@
}

/// The lines of a list of activities.
pub open spec fn activity_lines(players: Seq<PlayerActivities>, player_id: Seq<char>, s: Seq<Activity>) -> Seq<char>
    decreases s.len(),
{
    if s.len() == 0 {
        Seq::empty()
    } else {
        activity_lines(players, player_id, s.drop_last()) + activity_line(players, player_id, s.last())
    }
}

/// `new` is `old` with every activity past its end at `now` that is not
/// daily ended.
pub open spec fn cleaned(old: Seq<Activity>, new: Seq<Activity>, now: i64) -> bool {
    &&& new.len() == old.len()
    &&& forall|i: int| 0 <= i < old.len() ==> #[trigger] new[i] == if old[i].expired_at(now) && old[i].activity_type != ActivityType::Daily {
        Activity { status: ActivityStatus::Ended, ..old[i] }
    } else {
        old[i]
    }
}

/// The activity list: a count, then one line per activity or a note that
/// none is open.
pub open spec fn activity_list_text(players: Seq<PlayerActivities>, player_id: Seq<char>, acts: Seq<Activity>) -> Seq<char> {
    "§H=== 活动列表 ("@ + nat_digits(acts.len()) + "个) ===§N\n"@ + if acts.len() == 0 {
        "暂无可用活动。\n"@
    } else {
        activity_lines(players, player_id, acts)
    }
}

impl ActivityDaemon {
    /// The activities, in the order they were made.
    pub closed spec fn activities_view(&self) -> Seq<Activity> {
        self.activities@
    }

    /// Each player's entries.
    pub closed spec fn players_view(&self) -> Seq<PlayerActivities> {
        self.player_progress@
    }

    /// Activities and players each occur once.
    pub open spec fn wf(&self) -> bool {
        keys_unique(self.activities_view()) && keys_unique(self.players_view())
    }

    /// The default activities starting at `now`, and no players.
    pub fn new_at(now: i64) -> (r: Self)
        requires
            now <= i64::MAX - 86400,
        ensures
            activity_daemon_new_done(now, r),
    {
        let day_end = now + 24 * 60 * 60;
        let mut activities: Vec<Activity> = Vec::new();
        activities.push(daily_activity("daily_checkin", "每日签到", "每天登录即可获得奖励", now, day_end, "login", 1, "登录游戏", 1000, 500, 1, 1));
        activities.push(daily_activity("daily_monster_100", "猎魔先锋", "击杀100只怪物", now, day_end, "kill_monster", 100, "击杀怪物", 5000, 2000, 1, 2));
        activities.push(daily_activity("daily_dungeon_5", "副本挑战者", "完成5次副本", now, day_end, "complete_dungeon", 5, "完成副本", 10000, 5000, 10, 3));
        proof {
            reveal_strlit("daily_checkin");
            reveal_strlit("daily_monster_100");
            reveal_strlit("daily_dungeon_5");
            assert(activities@[0].key_view()[6] != activities@[1].key_view()[6]);
            assert(activities@[0].key_view()[6] != activities@[2].key_view()[6]);
            assert(activities@[1].key_view()[6] != activities@[2].key_view()[6]);
        }
        ActivityDaemon { activities, player_progress: Vec::new() }
    }

    /// The default activities starting now, and no players.
    pub fn new() -> (r: Self)
        ensures
            exists|now: i64| #[trigger] activity_daemon_new_done(now, r),
            r.wf(),
            exists|now: i64| default_activities(r.activities_view(), now),
            r.players_view().len() == 0,
    {
        let now = current_timestamp();
        Self::new_at(now)
    }

    /// The activity with id `activity_id`.
    pub fn get_activity(&self, activity_id: &str) -> (r: Option<&Activity>)
        ensures
            r matches Some(a) ==> key_get(self.activities_view(), activity_id@) == Some(*a),
            r is None <==> !key_in(self.activities_view(), activity_id@),
    {
        get_key(&self.activities, activity_id)
    }

    /// All activities.
    pub fn get_all_activities(&self) -> (r: Vec<&Activity>)
        ensures
            r@.map_values(|a: &Activity| *a) == self.activities_view(),
    {
        let mut r: Vec<&Activity> = Vec::new();
        let mut i: usize = 0;
        while i < self.activities.len()
            invariant
                i <= self.activities@.len(),
                r@.map_values(|a: &Activity| *a) == self.activities@.take(i as int),
            decreases self.activities.len() - i,
        {
            let ghost prev = r@;
            r.push(&self.activities[i]);
            assert(r@.map_values(|a: &Activity| *a) =~= prev.map_values(|a: &Activity| *a).push(self.activities@[i as int]));
            i = i + 1;
            assert(r@.map_values(|a: &Activity| *a) =~= self.activities@.take(i as int));
        }
        assert(self.activities@.take(i as int) =~= self.activities@);
        r
    }

    /// The activities open at `now` to a player of level `player_level` and
    /// VIP level `player_vip`.
    pub fn get_available_activities_at(&self, player_level: i32, player_vip: i32, now: i64) -> (r: Vec<&Activity>)
        ensures
            r@.map_values(|a: &Activity| *a) == available_list(self.activities_view(), player_level as int, player_vip as int, now),
    {
        let ghost cat = self.activities@;
        let mut r: Vec<&Activity> = Vec::new();
        let mut i: usize = 0;
        while i < self.activities.len()
            invariant
                i <= cat.len(),
                cat == self.activities@,
                r@.map_values(|a: &Activity| *a) == available_list(cat.take(i as int), player_level as int, player_vip as int, now),
            decreases self.activities.len() - i,
        {
            let a = &self.activities[i];
            let ghost prev = r@;
            proof {
                assert(cat.take(i + 1) =~= cat.take(i as int).push(cat[i as int]));
                cat.take(i as int).lemma_filter_push(cat[i as int], |a: Activity| a.available_at(now) && a.level_requirement <= player_level as int && a.vip_requirement <= player_vip as int);
            }
            if a.is_available_at(now) && a.level_requirement <= player_level && a.vip_requirement <= player_vip {
                r.push(a);
                assert(r@.map_values(|a: &Activity| *a) =~= prev.map_values(|a: &Activity| *a).push(*a));
            }
            i = i + 1;
        }
        assert(cat.take(i as int) =~= cat);
        r
    }

    /// The activities open now to a player of the given levels.
    pub fn get_available_activities(&self, player_level: i32, player_vip: i32) -> (r: Vec<&Activity>)
        ensures
            exists|now: i64| r@.map_values(|a: &Activity| *a) == available_list(self.activities_view(), player_level as int, player_vip as int, now),
    {
        let now = current_timestamp();
        self.get_available_activities_at(player_level, player_vip, now)
    }

    /// A player's entry for an activity.
    pub fn get_player_progress(&self, player_id: &str, activity_id: &str) -> (r: Option<&ActivityProgress>)
        ensures
            r matches Some(p) ==> key_get(activity_entries(self.players_view(), player_id@), activity_id@) == Some(*p),
            r is None <==> key_get(activity_entries(self.players_view(), player_id@), activity_id@) is None,
    {
        match get_key(&self.player_progress, player_id) {
            Some(pl) => get_key(&pl.entries, activity_id),
            None => {
                proof {
                    lemma_key_get_none(Seq::<ActivityProgress>::empty(), activity_id@);
                }
                None
            },
        }
    }
}


impl ActivityDaemon {
    /// Every concerned, unclaimed entry can take `value` within `i32`.
    pub open spec fn update_fits(&self, player_id: Seq<char>, ct: Seq<char>, value: int, now: i64) -> bool {
        forall|j: int| 0 <= j < self.activities_view().len() && #[trigger] act_matches(self.activities_view()[j], ct, now) && !is_claimed(key_get(activity_entries(self.players_view(), player_id), self.activities_view()[j].id@))
            ==> i32::MIN <= base_value(key_get(activity_entries(self.players_view(), player_id), self.activities_view()[j].id@)) + value <= i32::MAX
    }

    /// Adds `value` to the player's entry (made when missing) of every
    /// activity open at `now` with a condition of type `condition_type`,
    /// unless its reward was claimed; returns the ids of those activities
    /// whose first condition of that type is now met, in catalogue order.
    pub fn update_progress_at(&mut self, player_id: &str, condition_type: &str, value: i32, now: i64) -> (r: Vec<String>)
        requires
            old(self).wf(),
            old(self).update_fits(player_id@, condition_type@, value as int, now),
        ensures
            progress_updated(*old(self), *final(self), player_id@, condition_type@, value as int, now, id_texts(r@)),
    {
        let ghost cat = self.activities@;
        let ghost ct = condition_type@;
        let ghost old_es = activity_entries(self.player_progress@, player_id@);
        let ghost old_self = *self;
        let mut r: Vec<String> = Vec::new();
        let mut any = false;
        let mut i: usize = 0;
        while i < self.activities.len()
            invariant
                i <= cat.len(),
                cat == self.activities@,
                ct == condition_type@,
                any <==> exists|j: int| 0 <= j < i && #[trigger] act_matches(cat[j], ct, now),
            decreases self.activities.len() - i,
        {
            if self.activities[i].is_available_at(now) && find_key(&self.activities[i].conditions, condition_type).is_some() {
                any = true;
                assert(act_matches(cat[i as int], ct, now));
            }
            i = i + 1;
        }
        if !any {
            proof {
                lemma_act_none(cat, id_texts(r@), old_es, ct, value as int, now, cat.len() as int);
            }
            return r;
        }
        let mut entries: Vec<ActivityProgress> = match find_key(&self.player_progress, player_id) {
            Some(k) => {
                proof {
                    lemma_key_get_at(self.player_progress@, player_id@, k as int);
                }
                let mut e: Vec<ActivityProgress> = Vec::new();
                let pp = &mut self.player_progress[k];
                std::mem::swap(&mut e, &mut pp.entries);
                proof {
                    lemma_keyed_update(old_self.player_progress@, k as int, self.player_progress@[k as int]);
                }
                e
            },
            None => {
                proof {
                    lemma_key_get_none(self.player_progress@, player_id@);
                    lemma_key_get_none(Seq::<ActivityProgress>::empty(), player_id@);
                }
                Vec::new()
            },
        };
        let ghost mid = self.player_progress@;
        assert(entries@ == old_es);
        let mut i: usize = 0;
        while i < self.activities.len()
            invariant
                i <= cat.len(),
                cat == self.activities@,
                ct == condition_type@,
                keys_unique(cat),
                self.player_progress@ == mid,
                old_self.update_fits(player_id@, ct, value as int, now),
                old_self.activities_view() == cat,
                activity_entries(old_self.players_view(), player_id@) == old_es,
                forall|j: int| 0 <= j < i && #[trigger] act_matches(cat[j], ct, now) ==> (key_get(entries@, cat[j].id@) matches Some(e) && progressed(key_get(old_es, cat[j].id@), cat[j].id@, player_id@, value as int, now, e)),
                forall|id: Seq<char>| !touched(cat, ct, now, i as int, id) ==> #[trigger] key_get(entries@, id) == key_get(old_es, id),
                id_texts(r@) == activity_completions(cat, old_es, ct, value as int, now, i as int),
            decreases self.activities.len() - i,
        {
            let a = &self.activities[i];
            let ghost ai = cat[i as int];
            let ghost e0 = entries@;
            let ghost r0 = r@;
            proof {
                if touched(cat, ct, now, i as int, ai.id@) {
                    let j = choose|j: int| 0 <= j < i && cat[j].id@ == ai.id@ && #[trigger] act_matches(cat[j], ct, now);
                    assert(cat[j].key_view() != cat[i as int].key_view());
                }
            }
            if a.is_available_at(now) && find_key(&a.conditions, condition_type).is_some() {
                let old_entry: Option<ActivityProgress> = match get_key(&entries, a.id.as_str()) {
                    Some(e) => Some(e.clone()),
                    None => None,
                };
                proof {
                    lemma_key_first(a.conditions@, ct);
                    assert(act_matches(cat[i as int], ct, now));
                    assert(old_entry == key_get(old_es, ai.id@));
                    assert(old_self.activities_view()[i as int] == ai);
                    if !is_claimed(old_entry) {
                        assert(i32::MIN <= base_value(old_entry) + value <= i32::MAX);
                    }
                }
                let target = match get_key(&a.conditions, condition_type) {
                    Some(c) => c.target_value,
                    None => 0,
                };
                let newe = match old_entry {
                    Some(o) => {
                        if o.claimed {
                            o
                        } else {
                            ActivityProgress { current_value: o.current_value + value, updated_at: now, ..o }
                        }
                    },
                    None => ActivityProgress { activity_id: a.id.clone(), player_id: string_of(player_id), current_value: value, claimed: false, updated_at: now },
                };
                let done = !newe.claimed && newe.current_value >= target;
                if done {
                    r.push(a.id.clone());
                }
                proof {
                    assert(done == completes(key_get(old_es, ai.id@), ai, ct, value as int));
                }
                let ghost gn = newe;
                put_key(&mut entries, newe);
                proof {
                    assert forall|j: int| 0 <= j < i + 1 && #[trigger] act_matches(cat[j], ct, now) implies (key_get(entries@, cat[j].id@) matches Some(e) && progressed(key_get(old_es, cat[j].id@), cat[j].id@, player_id@, value as int, now, e)) by {
                        if j < i {
                            assert(cat[j].key_view() != cat[i as int].key_view());
                        }
                    }
                    assert forall|id: Seq<char>| !touched(cat, ct, now, i + 1, id) implies #[trigger] key_get(entries@, id) == key_get(old_es, id) by {
                        assert(!touched(cat, ct, now, i as int, id));
                        if id == ai.id@ {
                            assert(cat[i as int].id@ == id && act_matches(cat[i as int], ct, now));
                            assert(touched(cat, ct, now, i + 1, id));
                        }
                    }
                    if done {
                        assert(id_texts(r@) =~= id_texts(r0).push(ai.id@));
                    }
                }
            } else {
                proof {
                    assert(!act_matches(ai, ct, now));
                    assert forall|id: Seq<char>| !touched(cat, ct, now, i + 1, id) implies #[trigger] key_get(entries@, id) == key_get(old_es, id) by {
                        assert(!touched(cat, ct, now, i as int, id));
                    }
                }
            }
            i = i + 1;
        }
        let ghost final_entries = entries@;
        put_key(&mut self.player_progress, PlayerActivities { player_id: string_of(player_id), entries });
        proof {
            assert forall|k: Seq<char>| k != player_id@ implies #[trigger] key_get(self.player_progress@, k) == key_get(old_self.player_progress@, k) by {
                assert(key_get(self.player_progress@, k) == key_get(mid, k));
            }
            assert(activity_entries(self.player_progress@, player_id@) == final_entries);
        }
        r
    }
}

proof fn lemma_act_none(cat: Seq<Activity>, r: Seq<Seq<char>>, es: Seq<ActivityProgress>, ct: Seq<char>, value: int, now: i64, n: int)
    requires
        r.len() == 0,
        0 <= n <= cat.len(),
        !(exists|j: int| 0 <= j < cat.len() && #[trigger] act_matches(cat[j], ct, now)),
    ensures
        r == activity_completions(cat, es, ct, value, now, n),
    decreases n,
{
    if n > 0 {
        lemma_act_none(cat, r, es, ct, value, now, n - 1);
        assert(!act_matches(cat[n - 1], ct, now));
    }
}


impl ActivityDaemon {
    /// What `update_progress_at` does at the time the clock gives: the
    /// player's entries and the completed activities both follow that time.
    pub fn update_progress(&mut self, player_id: &str, condition_type: &str, value: i32) -> (r: Vec<String>)
        requires
            old(self).wf(),
            forall|now: i64| old(self).update_fits(player_id@, condition_type@, value as int, now),
        ensures
            final(self).wf(),
            final(self).activities_view() == old(self).activities_view(),
            forall|k: Seq<char>| k != player_id@ ==> #[trigger] key_get(final(self).players_view(), k) == key_get(old(self).players_view(), k),
            exists|now: i64| #[trigger] progress_updated(*old(self), *final(self), player_id@, condition_type@, value as int, now, id_texts(r@)),
    {
        let now = current_timestamp();
        self.update_progress_at(player_id, condition_type, value, now)
    }

    /// Claims the reward of a completed activity. Fails with 活动不存在 for
    /// an unknown activity, 活动进度不存在 without an entry, 奖励已领取 when
    /// claimed already and 活动未完成 below the first condition's target.
    pub fn claim_reward(&mut self, player_id: &str, activity_id: &str) -> (r: Result<ActivityReward, MudError>)
        requires
            old(self).wf(),
        ensures
            final(self).wf(),
            final(self).activities_view() == old(self).activities_view(),
            match key_get(old(self).activities_view(), activity_id@) {
                None => (r matches Err(MudError::NotFound(m)) && m@ == "活动不存在"@) && *final(self) == *old(self),
                Some(a) => match key_get(activity_entries(old(self).players_view(), player_id@), activity_id@) {
                    None => (r matches Err(MudError::NotFound(m)) && m@ == "活动进度不存在"@) && *final(self) == *old(self),
                    Some(e) => if e.claimed {
                        (r matches Err(MudError::RuntimeError(m)) && m@ == "奖励已领取"@) && *final(self) == *old(self)
                    } else if e.current_value < first_target(a) {
                        (r matches Err(MudError::RuntimeError(m)) && m@ == "活动未完成"@) && *final(self) == *old(self)
                    } else {
                        &&& r matches Ok(rw) && activity_reward_copy(rw, a.rewards)
                        &&& key_get(activity_entries(final(self).players_view(), player_id@), activity_id@) == Some(ActivityProgress { claimed: true, ..e })
                        &&& forall|id: Seq<char>| id != activity_id@ ==> #[trigger] key_get(activity_entries(final(self).players_view(), player_id@), id) == key_get(activity_entries(old(self).players_view(), player_id@), id)
                        &&& forall|k: Seq<char>| k != player_id@ ==> #[trigger] key_get(final(self).players_view(), k) == key_get(old(self).players_view(), k)
                    },
                },
            },
    {
        let a = match get_key(&self.activities, activity_id) {
            Some(a) => a,
            None => {
                return Err(not_found("活动不存在"));
            },
        };
        let k = match find_key(&self.player_progress, player_id) {
            Some(k) => k,
            None => {
                proof {
                    lemma_key_get_none(self.player_progress@, player_id@);
                    lemma_key_get_none(Seq::<ActivityProgress>::empty(), activity_id@);
                }
                return Err(not_found("活动进度不存在"));
            },
        };
        proof {
            lemma_key_get_at(self.player_progress@, player_id@, k as int);
        }
        let j = match find_key(&self.player_progress[k].entries, activity_id) {
            Some(j) => j,
            None => {
                proof {
                    lemma_key_get_none(self.player_progress@[k as int].entries@, activity_id@);
                }
                return Err(not_found("活动进度不存在"));
            },
        };
        proof {
            lemma_key_get_at(self.player_progress@[k as int].entries@, activity_id@, j as int);
        }
        if self.player_progress[k].entries[j].claimed {
            return Err(runtime_error("奖励已领取"));
        }
        let target: i32 = if a.conditions.len() > 0 { a.conditions[0].target_value } else { 0 };
        if self.player_progress[k].entries[j].current_value < target {
            return Err(runtime_error("活动未完成"));
        }
        let reward = a.rewards.clone();
        let ghost p0 = self.player_progress@;
        let ghost es0 = p0[k as int].entries@;
        let pp = &mut self.player_progress[k];
        let e = &mut pp.entries[j];
        e.claimed = true;
        proof {
            let es1 = self.player_progress@[k as int].entries@;
            assert(es1 == es0.update(j as int, es1[j as int]));
            lemma_keyed_update(es0, j as int, es1[j as int]);
            assert(self.player_progress@ == p0.update(k as int, self.player_progress@[k as int]));
            lemma_keyed_update(p0, k as int, self.player_progress@[k as int]);
        }
        Ok(reward)
    }

    /// The list of activities open at `now` to a player of the given
    /// levels, each with the player's progress.
    pub fn format_activity_list_at(&self, player_id: &str, player_level: i32, player_vip: i32, now: i64) -> (r: String)
        ensures
            r@ == activity_list_text(self.players_view(), player_id@, available_list(self.activities_view(), player_level as int, player_vip as int, now)),
    {
        let acts = self.get_available_activities_at(player_level, player_vip, now);
        let ghost av = acts@.map_values(|a: &Activity| *a);
        let mut out = string_of("§H=== 活动列表 (");
        push_u64(&mut out, acts.len() as u64);
        push_str(&mut out, "个) ===§N\n");
        let ghost head = out@;
        if acts.len() == 0 {
            push_str(&mut out, "暂无可用活动。\n");
        } else {
            let mut i: usize = 0;
            while i < acts.len()
                invariant
                    i <= acts@.len(),
                    av == acts@.map_values(|a: &Activity| *a),
                    out@ == head + activity_lines(self.player_progress@, player_id@, av.take(i as int)),
                decreases acts.len() - i,
            {
                let a = acts[i];
                let p = self.get_player_progress(player_id, a.id.as_str());
                let info = a.format_info(p);
                push_str(&mut out, "  ");
                push_str(&mut out, info.as_str());
                push_str(&mut out, "\n");
                assert(av.take(i + 1).drop_last() =~= av.take(i as int));
                assert(av[i as int] == *a);
                i = i + 1;
            }
            assert(av.take(i as int) =~= av);
        }
        out
    }

    /// The list of activities open now (see `format_activity_list_at`).
    pub fn format_activity_list(&self, player_id: &str, player_level: i32, player_vip: i32) -> (r: String)
        ensures
            exists|now: i64| r@ == activity_list_text(self.players_view(), player_id@, #[trigger] available_list(self.activities_view(), player_level as int, player_vip as int, now)),
    {
        let now = current_timestamp();
        self.format_activity_list_at(player_id, player_level, player_vip, now)
    }

    /// Drops a player's entries of daily activities and of activities that
    /// no longer exist; the other entries stay in order.
    pub fn reset_daily_activities(&mut self, player_id: &str)
        requires
            old(self).wf(),
        ensures
            final(self).wf(),
            final(self).activities_view() == old(self).activities_view(),
            forall|k: Seq<char>| k != player_id@ ==> #[trigger] key_get(final(self).players_view(), k) == key_get(old(self).players_view(), k),
            key_get(old(self).players_view(), player_id@) is None ==> *final(self) == *old(self),
            key_get(old(self).players_view(), player_id@) matches Some(pl) ==> (key_get(final(self).players_view(), player_id@) matches Some(pl2) && pl2.entries@ == pl.entries@.filter(|e: ActivityProgress| survives_reset(old(self).activities_view(), e))),
    {
        let k = match find_key(&self.player_progress, player_id) {
            Some(k) => k,
            None => {
                proof {
                    lemma_key_get_none(self.player_progress@, player_id@);
                }
                return;
            },
        };
        proof {
            lemma_key_get_at(self.player_progress@, player_id@, k as int);
        }
        let ghost cat = self.activities@;
        let ghost es = self.player_progress@[k as int].entries@;
        let mut kept: Vec<ActivityProgress> = Vec::new();
        let mut i: usize = 0;
        while i < self.player_progress[k].entries.len()
            invariant
                k < self.player_progress@.len(),
                es == self.player_progress@[k as int].entries@,
                cat == self.activities@,
                i <= es.len(),
                kept@ == es.take(i as int).filter(|e: ActivityProgress| survives_reset(cat, e)),
            decreases es.len() - i,
        {
            let e = &self.player_progress[k].entries[i];
            proof {
                assert(es.take(i + 1) =~= es.take(i as int).push(es[i as int]));
                es.take(i as int).lemma_filter_push(es[i as int], |e: ActivityProgress| survives_reset(cat, e));
            }
            let keep = match get_key(&self.activities, e.activity_id.as_str()) {
                Some(a) => a.activity_type != ActivityType::Daily,
                None => false,
            };
            if keep {
                kept.push(e.clone());
            }
            i = i + 1;
        }
        assert(es.take(i as int) =~= es);
        let ghost p0 = self.player_progress@;
        let pp = &mut self.player_progress[k];
        pp.entries = kept;
        proof {
            assert(self.player_progress@ == p0.update(k as int, self.player_progress@[k as int]));
            lemma_keyed_update(p0, k as int, self.player_progress@[k as int]);
        }
    }

    /// Ends, as of `now`, every activity past its end that is not daily.
    pub fn cleanup_expired_activities_at(&mut self, now: i64)
        requires
            old(self).wf(),
        ensures
            final(self).wf(),
            final(self).players_view() == old(self).players_view(),
            cleaned(old(self).activities_view(), final(self).activities_view(), now),
    {
        let ghost cat = self.activities@;
        let ghost pp0 = self.player_progress@;
        let mut i: usize = 0;
        while i < self.activities.len()
            invariant
                i <= cat.len(),
                self.player_progress@ == pp0,
                keys_unique(pp0),
                self.activities@.len() == cat.len(),
                keys_unique(cat),
                forall|j: int| 0 <= j < cat.len() ==> #[trigger] self.activities@[j].key_view() == cat[j].key_view(),
                forall|j: int| i <= j < cat.len() ==> #[trigger] self.activities@[j] == cat[j],
                forall|j: int| 0 <= j < i ==> #[trigger] self.activities@[j] == if cat[j].expired_at(now) && cat[j].activity_type != ActivityType::Daily {
                    Activity { status: ActivityStatus::Ended, ..cat[j] }
                } else {
                    cat[j]
                },
            decreases cat.len() - i,
        {
            if self.activities[i].is_expired_at(now) && self.activities[i].activity_type != ActivityType::Daily {
                let a = &mut self.activities[i];
                a.status = ActivityStatus::Ended;
            }
            i = i + 1;
        }
        proof {
            assert forall|a: int, b: int| 0 <= a < b < self.activities@.len() implies self.activities@[a].key_view() != self.activities@[b].key_view() by {
                assert(cat[a].key_view() != cat[b].key_view());
            }
        }
    }

    /// Ends every activity past its end now that is not daily.
    pub fn cleanup_expired_activities(&mut self)
        requires
            old(self).wf(),
        ensures
            final(self).wf(),
            final(self).players_view() == old(self).players_view(),
            exists|now: i64| cleaned(old(self).activities_view(), final(self).activities_view(), now),
    {
        let now = current_timestamp();
        self.cleanup_expired_activities_at(now)
    }
}

impl Default for ActivityDaemon {
    fn default() -> (r: Self)
        ensures
            r.wf(),
            exists|now: i64| default_activities(r.activities_view(), now),
    {
        Self::new()
    }
}


/// `f` is what updating player `pid`'s progress on condition `ct` by
/// `value` at `now` makes of `o`, and `ids` are the activities it completes:
/// each activity of that condition running at `now` progresses, the others
/// and the other players stay as they were.
pub open spec fn progress_updated(o: ActivityDaemon, f: ActivityDaemon, pid: Seq<char>, ct: Seq<char>, value: int, now: i64,
    ids: Seq<Seq<char>>) -> bool {
    &&& f.wf()
    &&& f.activities_view() == o.activities_view()
    &&& forall|k: Seq<char>| k != pid ==> #[trigger] key_get(f.players_view(), k) == key_get(o.players_view(), k)
    &&& ({
        let cat = o.activities_view();
        let old_es = activity_entries(o.players_view(), pid);
        let new_es = activity_entries(f.players_view(), pid);
        &&& ids == activity_completions(cat, old_es, ct, value, now, cat.len() as int)
        &&& (forall|j: int| 0 <= j < cat.len() ==> !#[trigger] act_matches(cat[j], ct, now)) ==> f == o
        &&& (exists|j: int| 0 <= j < cat.len() && #[trigger] act_matches(cat[j], ct, now)) ==> key_in(f.players_view(), pid)
        &&& forall|j: int| 0 <= j < cat.len() && #[trigger] act_matches(cat[j], ct, now) ==> (key_get(new_es, cat[j].id@) matches Some(e) && progressed(key_get(old_es, cat[j].id@), cat[j].id@, pid, value, now, e))
        &&& forall|id: Seq<char>| !touched(cat, ct, now, cat.len() as int, id) ==> #[trigger] key_get(new_es, id) == key_get(old_es, id)
    })
}

/// What `ActivityProgress::new_at` promises: for the arguments given, `r` what it gives back.
pub open spec fn activity_progress_new_done(
    activity_id: String, player_id: String, now: i64, r: ActivityProgress) -> bool {
    &&& (r == (ActivityProgress { activity_id, player_id, current_value: 0, claimed: false, updated_at: now }))
}

/// What `ActivityDaemon::new_at` promises: for the arguments given, `r` what it gives back.
pub open spec fn activity_daemon_new_done(now: i64, r: ActivityDaemon) -> bool {
    &&& (r.wf())
    &&& (default_activities(r.activities_view(), now))
    &&& (r.players_view().len() == 0)
}

} // verus!
