//! Achievements: the catalogue, each player's progress toward every
//! achievement, completions and the statistics kept per player.
use vstd::prelude::*;
use crate::errors::{MudError, runtime_error, not_found};
use crate::text::{push_str, push_u64, push_i64, string_of, int_digits, nat_digits};
use crate::util::{
    Keyed, key_pos, key_in, keys_unique, find_key, get_key, key_get, upsert, has_str, lemma_key_get_at,
    lemma_key_get_none, lemma_key_first, lemma_key_get_other, lemma_key_get_self, lemma_key_get_in,
};
use crate::outside::{current_timestamp, utc_date, utc_date_text};

verus! {

/// What an achievement rewards.
#[derive(Clone, Copy, Debug, PartialEq, Eq, Structural)]
pub enum AchievementType {
    Level,
    Combat,
    Exploration,
    Social,
    Collection,
    Economic,
    Dungeon,
    Pk,
    Special,
}

/// The name of an achievement type, as the statistics count it.
pub open spec fn kind_label(t: AchievementType) -> Seq<char> {
    match t {
        AchievementType::Level => "Level"@,
        AchievementType::Combat => "Combat"@,
        AchievementType::Exploration => "Exploration"@,
        AchievementType::Social => "Social"@,
        AchievementType::Collection => "Collection"@,
        AchievementType::Economic => "Economic"@,
        AchievementType::Dungeon => "Dungeon"@,
        AchievementType::Pk => "Pk"@,
        AchievementType::Special => "Special"@,
    }
}

fn kind_label_of(t: AchievementType) -> (r: &'static str)
    ensures
        r@ == kind_label(t),
{
    match t {
        AchievementType::Level => "Level",
        AchievementType::Combat => "Combat",
        AchievementType::Exploration => "Exploration",
        AchievementType::Social => "Social",
        AchievementType::Collection => "Collection",
        AchievementType::Economic => "Economic",
        AchievementType::Dungeon => "Dungeon",
        AchievementType::Pk => "Pk",
        AchievementType::Special => "Special",
    }
}

/// How hard an achievement is, from common to legendary.
#[derive(Clone, Copy, Debug, PartialEq, Eq, Structural)]
pub enum AchievementDifficulty {
    Common,
    Uncommon,
    Rare,
    Epic,
    Legendary,
}

impl AchievementDifficulty {
    /// The place of the difficulty in the order common < uncommon < rare <
    /// epic < legendary.
    pub open spec fn rank_spec(self) -> int {
        match self {
            AchievementDifficulty::Common => 0,
            AchievementDifficulty::Uncommon => 1,
            AchievementDifficulty::Rare => 2,
            AchievementDifficulty::Epic => 3,
            AchievementDifficulty::Legendary => 4,
        }
    }

    /// The place of the difficulty in the order of difficulties.
    pub fn rank(&self) -> (r: u8)
        ensures
            r == self.rank_spec(),
    {
        match self {
            AchievementDifficulty::Common => 0,
            AchievementDifficulty::Uncommon => 1,
            AchievementDifficulty::Rare => 2,
            AchievementDifficulty::Epic => 3,
            AchievementDifficulty::Legendary => 4,
        }
    }
}

/// The label of a difficulty in the achievement list.
pub open spec fn difficulty_label(d: AchievementDifficulty) -> Seq<char> {
    match d {
        AchievementDifficulty::Common => "§G普通§N"@,
        AchievementDifficulty::Uncommon => "§C困难§N"@,
        AchievementDifficulty::Rare => "§B稀有§N"@,
        AchievementDifficulty::Epic => "§M史诗§N"@,
        AchievementDifficulty::Legendary => "§Y传说§N"@,
    }
}

/// A condition of an achievement: a counter and the value it must reach.
#[derive(Debug)]
pub struct AchievementCondition {
    pub condition_type: String,
    pub target_value: i32,
    pub current_value: i32,
}

impl Clone for AchievementCondition {
    fn clone(&self) -> (r: Self)
        ensures
            r == *self,
    {
        AchievementCondition { condition_type: self.condition_type.clone(), target_value: self.target_value, current_value: self.current_value }
    }
}

impl Keyed for AchievementCondition {
    open spec fn key_view(&self) -> Seq<char> {
        self.condition_type@
    }

    fn key(&self) -> (r: &String) {
        &self.condition_type
    }
}

/// What completing an achievement gives.
#[derive(Debug)]
pub struct AchievementReward {
    pub exp: u64,
    pub gold: u64,
    pub items: Vec<String>,
    pub title: Option<String>,
}

/// `a` is a copy of `b`.
pub open spec fn reward_copy(a: AchievementReward, b: AchievementReward) -> bool {
    a.exp == b.exp && a.gold == b.gold && a.items@ == b.items@ && a.title == b.title
}

impl Clone for AchievementReward {
    fn clone(&self) -> (r: Self)
        ensures
            reward_copy(r, *self),
    {
        let items = self.items.clone();
        proof {
            assert forall|i: int| 0 <= i < items@.len() implies items@[i] == self.items@[i] by {
                assert(cloned::<String>(self.items[i], items[i]));
            }
            assert(items@ =~= self.items@);
        }
        let title = match &self.title {
            Some(t) => Some(t.clone()),
            None => None,
        };
        AchievementReward { exp: self.exp, gold: self.gold, items, title }
    }
}

/// An achievement of the catalogue.
#[derive(Debug)]
pub struct Achievement {
    pub id: String,
    pub name: String,
    pub description: String,
    pub achievement_type: AchievementType,
    pub difficulty: AchievementDifficulty,
    pub prerequisite: Option<String>,
    pub conditions: Vec<AchievementCondition>,
    pub reward: AchievementReward,
    pub points: i32,
    pub hidden: bool,
}

impl Keyed for Achievement {
    open spec fn key_view(&self) -> Seq<char> {
        self.id@
    }

    fn key(&self) -> (r: &String) {
        &self.id
    }
}

/// A player's value for one kind of condition.
#[derive(Debug)]
pub struct ConditionProgress {
    pub condition_type: String,
    pub value: i32,
}

impl Keyed for ConditionProgress {
    open spec fn key_view(&self) -> Seq<char> {
        self.condition_type@
    }

    fn key(&self) -> (r: &String) {
        &self.condition_type
    }
}

/// A player's progress toward one achievement.
#[derive(Debug)]
pub struct PlayerAchievement {
    pub achievement_id: String,
    pub completed: bool,
    pub completed_at: Option<i64>,
    pub progress: Vec<ConditionProgress>,
}

impl Keyed for PlayerAchievement {
    open spec fn key_view(&self) -> Seq<char> {
        self.achievement_id@
    }

    fn key(&self) -> (r: &String) {
        &self.achievement_id
    }
}

/// How many achievements of one type a player completed.
#[derive(Debug)]
pub struct TypeCount {
    pub kind_label: String,
    pub count: i32,
}

impl Keyed for TypeCount {
    open spec fn key_view(&self) -> Seq<char> {
        self.kind_label@
    }

    fn key(&self) -> (r: &String) {
        &self.kind_label
    }
}

/// A player's achievement statistics.
#[derive(Debug)]
pub struct AchievementStats {
    pub total_completed: i32,
    pub total_points: i32,
    pub by_type: Vec<TypeCount>,
}

/// The progress of one player.
#[derive(Debug)]
pub struct PlayerProgress {
    pub player_id: String,
    pub entries: Vec<PlayerAchievement>,
}

impl Keyed for PlayerProgress {
    open spec fn key_view(&self) -> Seq<char> {
        self.player_id@
    }

    fn key(&self) -> (r: &String) {
        &self.player_id
    }
}

/// The statistics of one player.
#[derive(Debug)]
pub struct PlayerStatsEntry {
    pub player_id: String,
    pub stats: AchievementStats,
}

impl Keyed for PlayerStatsEntry {
    open spec fn key_view(&self) -> Seq<char> {
        self.player_id@
    }

    fn key(&self) -> (r: &String) {
        &self.player_id
    }
}

/// The catalogue of achievements, each player's progress and statistics.
pub struct AchievementDaemon {
    achievements: Vec<Achievement>,
    player_progress: Vec<PlayerProgress>,
    player_stats: Vec<PlayerStatsEntry>,
}

/// `a` has the given fields, one condition of type `ct` with target
/// `target`, no reward items and is not hidden.
pub open spec fn achievement_is(
    a: Achievement,
    id: Seq<char>,
    name: Seq<char>,
    description: Seq<char>,
    t: AchievementType,
    d: AchievementDifficulty,
    prerequisite: Option<Seq<char>>,
    ct: Seq<char>,
    target: int,
    exp: int,
    gold: int,
    title: Option<Seq<char>>,
    points: int,
) -> bool {
    &&& a.id@ == id
    &&& a.name@ == name
    &&& a.description@ == description
    &&& a.achievement_type == t
    &&& a.difficulty == d
    &&& (match a.prerequisite { Some(p) => prerequisite == Some(p@), None => prerequisite is None })
    &&& a.conditions@.len() == 1
    &&& a.conditions@[0].condition_type@ == ct
    &&& a.conditions@[0].target_value == target
    &&& a.conditions@[0].current_value == 0
    &&& a.reward.exp == exp
    &&& a.reward.gold == gold
    &&& a.reward.items@.len() == 0
    &&& (match a.reward.title { Some(s) => title == Some(s@), None => title is None })
    &&& a.points == points
    &&& !a.hidden
}

fn make_achievement(
    id: String,
    name: String,
    description: String,
    t: AchievementType,
    d: AchievementDifficulty,
    prerequisite: Option<String>,
    ct: &str,
    target: i32,
    exp: u64,
    gold: u64,
    title: Option<&str>,
    points: i32,
) -> (r: Achievement)
    ensures
        achievement_is(
            r,
            id@,
            name@,
            description@,
            t,
            d,
            match prerequisite { Some(p) => Some(p@), None => None },
            ct@,
            target as int,
            exp as int,
            gold as int,
            match title { Some(s) => Some(s@), None => None },
            points as int,
        ),
{
    let mut conditions: Vec<AchievementCondition> = Vec::new();
    conditions.push(AchievementCondition { condition_type: string_of(ct), target_value: target, current_value: 0 });
    let title = match title {
        Some(s) => Some(string_of(s)),
        None => None,
    };
    Achievement {
        id,
        name,
        description,
        achievement_type: t,
        difficulty: d,
        prerequisite,
        conditions,
        reward: AchievementReward { exp, gold, items: Vec::new(), title },
        points,
        hidden: false,
    }
}

/// The text `prefix` followed by the digits of `n` and `suffix`.
fn text_with_number(prefix: &str, n: u64, suffix: &str) -> (r: String)
    ensures
        r@ == prefix@ + nat_digits(n as nat) + suffix@,
{
    let mut s = string_of(prefix);
    push_u64(&mut s, n);
    push_str(&mut s, suffix);
    s
}

/// The level achievement for reaching `level` (one of 10, 20, 30, 50, 80, 100).
pub open spec fn level_achievement_is(a: Achievement, level: int) -> bool {
    achievement_is(
        a,
        "level_"@ + nat_digits(level as nat),
        "达到"@ + nat_digits(level as nat) + "级"@,
        "角色等级达到"@ + nat_digits(level as nat) + "级"@,
        AchievementType::Level,
        if level >= 80 {
            AchievementDifficulty::Epic
        } else if level >= 50 {
            AchievementDifficulty::Rare
        } else {
            AchievementDifficulty::Common
        },
        if level > 10 { Some("level_"@ + nat_digits((level - 10) as nat)) } else { None },
        "level"@,
        level,
        level * 1000,
        level * 100,
        if level >= 100 { Some("百级强者"@) } else { None },
        level,
    )
}

fn level_achievement(level: i32) -> (r: Achievement)
    requires
        10 <= level <= 100,
    ensures
        level_achievement_is(r, level as int),
{
    let l = level as u64;
    let d = if level >= 80 {
        AchievementDifficulty::Epic
    } else if level >= 50 {
        AchievementDifficulty::Rare
    } else {
        AchievementDifficulty::Common
    };
    let prerequisite = if level > 10 { Some(text_with_number("level_", (level - 10) as u64, "")) } else { None };
    let title = if level >= 100 { Some("百级强者") } else { None };
    let id = text_with_number("level_", l, "");
    assert(id@ == "level_"@ + nat_digits(level as nat)) by {
        reveal_strlit("");
        assert(id@ =~= "level_"@ + nat_digits(l as nat) + ""@);
    }
    let r = make_achievement(
        id,
        text_with_number("达到", l, "级"),
        text_with_number("角色等级达到", l, "级"),
        AchievementType::Level,
        d,
        prerequisite,
        "level",
        level,
        l * 1000,
        l * 100,
        title,
        level,
    );
    proof {
        reveal_strlit("");
        if level > 10 {
            assert(("level_"@ + nat_digits((level - 10) as nat) + ""@) =~= "level_"@ + nat_digits((level - 10) as nat));
        }
    }
    r
}

/// The catalogue the daemon starts with: the six level achievements, then
/// the monster hunter, PK master, collector and tycoon achievements.
pub open spec fn default_catalogue(s: Seq<Achievement>) -> bool {
    &&& s.len() == 10
    &&& level_achievement_is(s[0], 10)
    &&& level_achievement_is(s[1], 20)
    &&& level_achievement_is(s[2], 30)
    &&& level_achievement_is(s[3], 50)
    &&& level_achievement_is(s[4], 80)
    &&& level_achievement_is(s[5], 100)
    &&& achievement_is(s[6], "monster_killer_100"@, "怪物猎人"@, "击杀100只怪物"@, AchievementType::Combat, AchievementDifficulty::Common, None, "kills"@, 100, 5000, 500, None, 10)
    &&& achievement_is(s[7], "pk_winner_10"@, "PK高手"@, "赢得10场PK战斗"@, AchievementType::Pk, AchievementDifficulty::Uncommon, None, "pk_wins"@, 10, 10000, 1000, Some("PK高手"@), 30)
    &&& achievement_is(s[8], "item_collector_100"@, "收藏家"@, "收集100种不同的物品"@, AchievementType::Collection, AchievementDifficulty::Uncommon, None, "unique_items"@, 100, 8000, 800, None, 20)
    &&& achievement_is(s[9], "gold_100000"@, "大富翁"@, "拥有10万金币"@, AchievementType::Economic, AchievementDifficulty::Rare, None, "gold_held"@, 100000, 20000, 5000, Some("大富翁"@), 50)
}

/// Every achievement is worth between 0 and 100 points.
pub open spec fn points_bounded(s: Seq<Achievement>) -> bool {
    forall|i: int| 0 <= i < s.len() ==> 0 <= #[trigger] s[i].points <= 100
}

proof fn lemma_default_keys(s: Seq<Achievement>)
    requires
        default_catalogue(s),
    ensures
        keys_unique(s),
        points_bounded(s),
{
    reveal_with_fuel(nat_digits, 4);
    reveal_strlit("level_");
    reveal_strlit("monster_killer_100");
    reveal_strlit("pk_winner_10");
    reveal_strlit("item_collector_100");
    reveal_strlit("gold_100000");
    let d10 = nat_digits(10);
    let d20 = nat_digits(20);
    let d30 = nat_digits(30);
    let d50 = nat_digits(50);
    let d80 = nat_digits(80);
    let d100 = nat_digits(100);
    assert(d10 =~= seq!['1', '0']);
    assert(d20 =~= seq!['2', '0']);
    assert(d30 =~= seq!['3', '0']);
    assert(d50 =~= seq!['5', '0']);
    assert(d80 =~= seq!['8', '0']);
    assert(d100 =~= seq!['1', '0', '0']);
    assert forall|i: int, j: int| 0 <= i < j < s.len() implies s[i].key_view() != s[j].key_view() by {
        if i < 6 && j < 6 {
            if j == 5 {
                assert(s[i].key_view().len() != s[j].key_view().len());
            } else {
                assert(s[i].key_view()[6] != s[j].key_view()[6]);
            }
        } else {
            assert(s[i].key_view()[0] != s[j].key_view()[0]);
        }
    }
}

fn default_achievements() -> (r: Vec<Achievement>)
    ensures
        default_catalogue(r@),
        keys_unique(r@),
        points_bounded(r@),
{
    let mut v: Vec<Achievement> = Vec::new();
    v.push(level_achievement(10));
    v.push(level_achievement(20));
    v.push(level_achievement(30));
    v.push(level_achievement(50));
    v.push(level_achievement(80));
    v.push(level_achievement(100));
    v.push(make_achievement(
        string_of("monster_killer_100"),
        string_of("怪物猎人"),
        string_of("击杀100只怪物"),
        AchievementType::Combat,
        AchievementDifficulty::Common,
        None,
        "kills",
        100,
        5000,
        500,
        None,
        10,
    ));
    v.push(make_achievement(
        string_of("pk_winner_10"),
        string_of("PK高手"),
        string_of("赢得10场PK战斗"),
        AchievementType::Pk,
        AchievementDifficulty::Uncommon,
        None,
        "pk_wins",
        10,
        10000,
        1000,
        Some("PK高手"),
        30,
    ));
    v.push(make_achievement(
        string_of("item_collector_100"),
        string_of("收藏家"),
        string_of("收集100种不同的物品"),
        AchievementType::Collection,
        AchievementDifficulty::Uncommon,
        None,
        "unique_items",
        100,
        8000,
        800,
        None,
        20,
    ));
    v.push(make_achievement(
        string_of("gold_100000"),
        string_of("大富翁"),
        string_of("拥有10万金币"),
        AchievementType::Economic,
        AchievementDifficulty::Rare,
        None,
        "gold_held",
        100000,
        20000,
        5000,
        Some("大富翁"),
        50,
    ));
    proof {
        lemma_default_keys(v@);
    }
    v
}


/// A player's value for condition `ct`, 0 when none is recorded.
pub open spec fn progress_value(p: Seq<ConditionProgress>, ct: Seq<char>) -> int {
    match key_get(p, ct) {
        Some(e) => e.value as int,
        None => 0,
    }
}

/// Every condition of `conds` is met by the values `p`.
pub open spec fn conditions_met(conds: Seq<AchievementCondition>, p: Seq<ConditionProgress>) -> bool {
    forall|i: int| 0 <= i < conds.len() ==> progress_value(p, #[trigger] conds[i].condition_type@) >= conds[i].target_value
}

/// The target of the first condition of `a` of type `ct`, if any.
pub open spec fn target_for(a: Achievement, ct: Seq<char>) -> Option<i32> {
    match key_get(a.conditions@, ct) {
        Some(c) => Some(c.target_value),
        None => None,
    }
}

/// The entries a player starts with: one per achievement of the catalogue,
/// in its order, not completed and with no values.
pub open spec fn fresh_entries(es: Seq<PlayerAchievement>, achs: Seq<Achievement>) -> bool {
    &&& es.len() == achs.len()
    &&& forall|i: int| 0 <= i < es.len() ==> {
        &&& (#[trigger] es[i]).achievement_id@ == achs[i].id@
        &&& !es[i].completed
        &&& es[i].completed_at is None
        &&& es[i].progress@.len() == 0
    }
}

/// The number of completed achievements of one type in a player's
/// statistics, 0 when none is recorded.
pub open spec fn kind_count(by_type: Seq<TypeCount>, t: Seq<char>) -> int {
    match key_get(by_type, t) {
        Some(c) => c.count as int,
        None => 0,
    }
}

/// The texts of a sequence of strings.
pub open spec fn texts(v: Seq<String>) -> Seq<Seq<char>> {
    v.map_values(|s: String| s@)
}

impl AchievementDaemon {
    /// The catalogue, in the order it was built.
    pub closed spec fn achievements_view(&self) -> Seq<Achievement> {
        self.achievements@
    }

    /// Each player's progress.
    pub closed spec fn progress_view(&self) -> Seq<PlayerProgress> {
        self.player_progress@
    }

    /// Each player's statistics.
    pub closed spec fn stats_view(&self) -> Seq<PlayerStatsEntry> {
        self.player_stats@
    }

    /// The catalogue is not empty, its ids are distinct and its points lie
    /// in `[0, 100]`; players occur once in each table; the statistics
    /// are not negative.
    pub open spec fn wf(&self) -> bool {
        &&& self.achievements_view().len() > 0
        &&& keys_unique(self.achievements_view())
        &&& points_bounded(self.achievements_view())
        &&& keys_unique(self.progress_view())
        &&& keys_unique(self.stats_view())
        &&& forall|i: int| 0 <= i < self.stats_view().len() ==> {
            &&& 0 <= (#[trigger] self.stats_view()[i]).stats.total_completed
            &&& 0 <= self.stats_view()[i].stats.total_points
        }
    }

    /// The default catalogue and no players.
    pub fn new() -> (r: Self)
        ensures
            r.wf(),
            default_catalogue(r.achievements_view()),
            r.progress_view().len() == 0,
            r.stats_view().len() == 0,
    {
        AchievementDaemon { achievements: default_achievements(), player_progress: Vec::new(), player_stats: Vec::new() }
    }

    /// The achievement with id `achievement_id`.
    pub fn get_achievement(&self, achievement_id: &str) -> (r: Option<&Achievement>)
        ensures
            r matches Some(a) ==> key_get(self.achievements_view(), achievement_id@) == Some(*a),
            r is None <==> !key_in(self.achievements_view(), achievement_id@),
    {
        get_key(&self.achievements, achievement_id)
    }

    /// All achievements of the catalogue.
    pub fn get_all_achievements(&self) -> (r: Vec<&Achievement>)
        ensures
            r@.len() == self.achievements_view().len(),
            forall|i: int| 0 <= i < r@.len() ==> *r@[i] == self.achievements_view()[i],
    {
        let mut r: Vec<&Achievement> = Vec::new();
        let mut i: usize = 0;
        while i < self.achievements.len()
            invariant
                i <= self.achievements@.len(),
                r@.len() == i,
                forall|j: int| 0 <= j < i ==> *r@[j] == self.achievements@[j],
            decreases self.achievements.len() - i,
        {
            r.push(&self.achievements[i]);
            i = i + 1;
        }
        r
    }

    /// A player's entries paired with their achievements, skipping entries
    /// of achievements no longer in the catalogue.
    pub fn get_player_progress(&self, player_id: &str) -> (r: Vec<(&Achievement, &PlayerAchievement)>)
        ensures
            key_get(self.progress_view(), player_id@) is None ==> r@.len() == 0,
            key_get(self.progress_view(), player_id@) matches Some(pp) ==> r@.map_values(|x: (&Achievement, &PlayerAchievement)| (*x.0, *x.1)) == progress_pairs(self.achievements_view(), pp.entries@),
    {
        let mut r: Vec<(&Achievement, &PlayerAchievement)> = Vec::new();
        match get_key(&self.player_progress, player_id) {
            None => r,
            Some(pp) => {
                let mut i: usize = 0;
                while i < pp.entries.len()
                    invariant
                        i <= pp.entries@.len(),
                        r@.map_values(|x: (&Achievement, &PlayerAchievement)| (*x.0, *x.1)) == progress_pairs(self.achievements@, pp.entries@.take(i as int)),
                    decreases pp.entries.len() - i,
                {
                    let ghost prev = r@;
                    assert(pp.entries@.take(i + 1).drop_last() =~= pp.entries@.take(i as int));
                    let e = &pp.entries[i];
                    match get_key(&self.achievements, e.achievement_id.as_str()) {
                        Some(a) => {
                            r.push((a, e));
                            assert(r@.map_values(|x: (&Achievement, &PlayerAchievement)| (*x.0, *x.1)) =~= prev.map_values(|x: (&Achievement, &PlayerAchievement)| (*x.0, *x.1)).push((*a, *e)));
                        },
                        None => {},
                    }
                    i = i + 1;
                }
                assert(pp.entries@.take(i as int) =~= pp.entries@);
                r
            },
        }
    }

    /// Gives a player who has none yet an entry for every achievement and
    /// empty statistics; a known player is left as is.
    pub fn init_player(&mut self, player_id: &str)
        requires
            old(self).wf(),
        ensures
            final(self).wf(),
            final(self).achievements_view() == old(self).achievements_view(),
            key_in(old(self).progress_view(), player_id@) ==> *final(self) == *old(self),
            !key_in(old(self).progress_view(), player_id@) ==> {
                &&& key_get(final(self).progress_view(), player_id@) matches Some(pp) && fresh_entries(pp.entries@, old(self).achievements_view())
                &&& key_get(final(self).stats_view(), player_id@) matches Some(s) && s.stats.total_completed == 0 && s.stats.total_points == 0 && s.stats.by_type@.len() == 0
                &&& forall|k: Seq<char>| k != player_id@ ==> key_get(final(self).progress_view(), k) == key_get(old(self).progress_view(), k) && key_get(final(self).stats_view(), k) == key_get(old(self).stats_view(), k)
            },
    {
        if find_key(&self.player_progress, player_id).is_some() {
            return;
        }
        let mut entries: Vec<PlayerAchievement> = Vec::new();
        let mut i: usize = 0;
        while i < self.achievements.len()
            invariant
                i <= self.achievements@.len(),
                fresh_entries(entries@, self.achievements@.take(i as int)),
            decreases self.achievements.len() - i,
        {
            entries.push(PlayerAchievement {
                achievement_id: self.achievements[i].id.clone(),
                completed: false,
                completed_at: None,
                progress: Vec::new(),
            });
            i = i + 1;
        }
        assert(self.achievements@.take(i as int) =~= self.achievements@);
        let ghost p0 = self.player_progress@;
        let ghost s0 = self.player_stats@;
        let pp = PlayerProgress { player_id: string_of(player_id), entries };
        let ghost gpp = pp;
        let r1 = upsert(&mut self.player_progress, pp);
        let st = PlayerStatsEntry { player_id: string_of(player_id), stats: AchievementStats { total_completed: 0, total_points: 0, by_type: Vec::new() } };
        let ghost gst = st;
        let r2 = upsert(&mut self.player_stats, st);
        proof {
            match r1 { Some(j) => { assert(key_pos(p0, gpp.key_view(), j as int) && self.player_progress@ == p0.update(j as int, gpp)); }, None => {} }
            match r2 { Some(j) => { assert(key_pos(s0, gst.key_view(), j as int) && self.player_stats@ == s0.update(j as int, gst)); }, None => {} }
            lemma_key_get_self(p0, self.player_progress@, gpp);
            lemma_key_get_self(s0, self.player_stats@, gst);
            assert forall|k: Seq<char>| k != player_id@ implies key_get(self.player_progress@, k) == key_get(p0, k) && key_get(self.player_stats@, k) == key_get(s0, k) by {
                lemma_key_get_other(p0, self.player_progress@, gpp, k);
                lemma_key_get_other(s0, self.player_stats@, gst, k);
            }
            assert forall|i: int| 0 <= i < self.player_stats@.len() implies {
                &&& 0 <= (#[trigger] self.player_stats@[i]).stats.total_completed
                &&& 0 <= self.player_stats@[i].stats.total_points
            } by {
                if self.player_stats@[i] != gst {
                    assert(i < s0.len() && self.player_stats@[i] == s0[i]);
                }
            }
        }
    }

    /// A player's statistics.
    pub fn get_player_stats(&self, player_id: &str) -> (r: Option<&AchievementStats>)
        ensures
            r matches Some(s) ==> key_get(self.stats_view(), player_id@) matches Some(e) && e.stats == *s,
            r is None <==> key_get(self.stats_view(), player_id@) is None,
    {
        match get_key(&self.player_stats, player_id) {
            Some(e) => Some(&e.stats),
            None => None,
        }
    }
}

/// A player's entries paired with their achievements, skipping entries of
/// unknown achievements.
pub open spec fn progress_pairs(achs: Seq<Achievement>, es: Seq<PlayerAchievement>) -> Seq<(Achievement, PlayerAchievement)>
    decreases es.len(),
{
    if es.len() == 0 {
        Seq::empty()
    } else {
        let prev = progress_pairs(achs, es.drop_last());
        match key_get(achs, es.last().achievement_id@) {
            Some(a) => prev.push((a, es.last())),
            None => prev,
        }
    }
}

impl Default for AchievementDaemon {
    fn default() -> (r: Self)
        ensures
            r.wf(),
            default_catalogue(r.achievements_view()),
            r.progress_view().len() == 0,
    {
        Self::new()
    }
}


/// An entry that an update of condition `ct` advances: not completed, of an
/// achievement of the catalogue that has a condition of type `ct`.
pub open spec fn advances(achs: Seq<Achievement>, e: PlayerAchievement, ct: Seq<char>) -> bool {
    !e.completed && (key_get(achs, e.achievement_id@) matches Some(a) && target_for(a, ct) is Some)
}

/// The value of `ct` after adding `value`, capped at the condition's target.
pub open spec fn advanced_value(achs: Seq<Achievement>, e: PlayerAchievement, ct: Seq<char>, value: int) -> int {
    let t = target_for(key_get(achs, e.achievement_id@).unwrap(), ct).unwrap() as int;
    let v = progress_value(e.progress@, ct) + value;
    if v <= t { v } else { t }
}

/// `e2` is the entry `e` after adding `value` to condition `ct` at time
/// `now`: an advanced entry gets the capped value and is completed when all
/// conditions of its achievement are met; any other entry is unchanged.
pub open spec fn entry_updated(achs: Seq<Achievement>, e: PlayerAchievement, e2: PlayerAchievement, ct: Seq<char>, value: int, now: i64) -> bool {
    if advances(achs, e, ct) {
        let a = key_get(achs, e.achievement_id@).unwrap();
        &&& e2.achievement_id == e.achievement_id
        &&& progress_value(e2.progress@, ct) == advanced_value(achs, e, ct, value)
        &&& forall|k: Seq<char>| k != ct ==> #[trigger] key_get(e2.progress@, k) == key_get(e.progress@, k)
        &&& e2.completed == conditions_met(a.conditions@, e2.progress@)
        &&& e2.completed_at == if e2.completed { Some(now) } else { e.completed_at }
    } else {
        e2 == e
    }
}

/// The entry became completed by the update.
pub open spec fn done_now(achs: Seq<Achievement>, e: PlayerAchievement, e2: PlayerAchievement, ct: Seq<char>) -> bool {
    advances(achs, e, ct) && e2.completed
}

/// The ids of the first `n` entries that the update completed, in order.
pub open spec fn completed_upto(achs: Seq<Achievement>, es: Seq<PlayerAchievement>, es2: Seq<PlayerAchievement>, ct: Seq<char>, n: int) -> Seq<Seq<char>>
    decreases n,
{
    if n <= 0 {
        Seq::empty()
    } else {
        let prev = completed_upto(achs, es, es2, ct, n - 1);
        if done_now(achs, es[n - 1], es2[n - 1], ct) {
            prev.push(es[n - 1].achievement_id@)
        } else {
            prev
        }
    }
}

/// The points of the achievements among the first `n` entries that the
/// update completed.
pub open spec fn points_upto(achs: Seq<Achievement>, es: Seq<PlayerAchievement>, es2: Seq<PlayerAchievement>, ct: Seq<char>, n: int) -> int
    decreases n,
{
    if n <= 0 {
        0
    } else {
        let prev = points_upto(achs, es, es2, ct, n - 1);
        if done_now(achs, es[n - 1], es2[n - 1], ct) {
            prev + key_get(achs, es[n - 1].achievement_id@).unwrap().points
        } else {
            prev
        }
    }
}

/// How many of the first `n` entries that the update completed belong to
/// achievements of the type named `t`.
pub open spec fn kind_upto(achs: Seq<Achievement>, es: Seq<PlayerAchievement>, es2: Seq<PlayerAchievement>, ct: Seq<char>, n: int, t: Seq<char>) -> int
    decreases n,
{
    if n <= 0 {
        0
    } else {
        let prev = kind_upto(achs, es, es2, ct, n - 1, t);
        if done_now(achs, es[n - 1], es2[n - 1], ct) && kind_label(key_get(achs, es[n - 1].achievement_id@).unwrap().achievement_type) == t {
            prev + 1
        } else {
            prev
        }
    }
}

fn all_conditions_met(conds: &Vec<AchievementCondition>, p: &Vec<ConditionProgress>) -> (r: bool)
    ensures
        r == conditions_met(conds@, p@),
{
    let mut i: usize = 0;
    while i < conds.len()
        invariant
            i <= conds@.len(),
            forall|j: int| 0 <= j < i ==> progress_value(p@, #[trigger] conds@[j].condition_type@) >= conds@[j].target_value,
        decreases conds.len() - i,
    {
        let v: i32 = match get_key(p, conds[i].condition_type.as_str()) {
            Some(e) => e.value,
            None => 0,
        };
        if v < conds[i].target_value {
            return false;
        }
        i = i + 1;
    }
    true
}

/// Adds `value` to condition `ct` of an entry, capped at the target of the
/// achievement's first condition of that type, and completes the entry at
/// `now` when every condition is met.
fn apply_update(e: &mut PlayerAchievement, a: &Achievement, ct: &str, value: i32, now: i64) -> (done: bool)
    requires
        !old(e).completed,
        target_for(*a, ct@) is Some,
        i32::MIN <= progress_value(old(e).progress@, ct@) + value <= i32::MAX,
    ensures
        final(e).achievement_id == old(e).achievement_id,
        progress_value(final(e).progress@, ct@) == ({
            let v = progress_value(old(e).progress@, ct@) + value;
            let t = target_for(*a, ct@).unwrap() as int;
            if v <= t { v } else { t }
        }),
        forall|k: Seq<char>| k != ct@ ==> #[trigger] key_get(final(e).progress@, k) == key_get(old(e).progress@, k),
        final(e).completed == conditions_met(a.conditions@, final(e).progress@),
        final(e).completed_at == if final(e).completed { Some(now) } else { old(e).completed_at },
        done == final(e).completed,
{
    let t = match get_key(&a.conditions, ct) {
        Some(c) => c.target_value,
        None => 0,
    };
    let cur: i32 = match get_key(&e.progress, ct) {
        Some(p) => p.value,
        None => 0,
    };
    let sum = cur + value;
    let nv = if sum <= t { sum } else { t };
    let ghost p0 = e.progress@;
    let x = ConditionProgress { condition_type: string_of(ct), value: nv };
    let ghost gx = x;
    let pr = upsert(&mut e.progress, x);
    proof {
        match pr {
            Some(j) => {
                assert(key_pos(p0, gx.key_view(), j as int) && e.progress@ == p0.update(j as int, gx));
            },
            None => {},
        }
        lemma_key_get_self(p0, e.progress@, gx);
        assert forall|k: Seq<char>| k != ct@ implies #[trigger] key_get(e.progress@, k) == key_get(p0, k) by {
            lemma_key_get_other(p0, e.progress@, gx, k);
        }
    }
    let met = all_conditions_met(&a.conditions, &e.progress);
    if met {
        e.completed = true;
        e.completed_at = Some(now);
    }
    met
}

/// Adds one to the count of type `t`.
fn bump_kind(by_type: &mut Vec<TypeCount>, t: &str)
    requires
        kind_count(old(by_type)@, t@) < i32::MAX,
    ensures
        kind_count(final(by_type)@, t@) == kind_count(old(by_type)@, t@) + 1,
        forall|k: Seq<char>| k != t@ ==> #[trigger] kind_count(final(by_type)@, k) == kind_count(old(by_type)@, k),
{
    let c: i32 = match get_key(by_type, t) {
        Some(e) => e.count,
        None => 0,
    };
    let ghost b0 = by_type@;
    let x = TypeCount { kind_label: string_of(t), count: c + 1 };
    let ghost gx = x;
    let pr = upsert(by_type, x);
    proof {
        match pr {
            Some(j) => {
                assert(key_pos(b0, gx.key_view(), j as int) && by_type@ == b0.update(j as int, gx));
            },
            None => {},
        }
        lemma_key_get_self(b0, by_type@, gx);
        assert forall|k: Seq<char>| k != t@ implies #[trigger] kind_count(by_type@, k) == kind_count(b0, k) by {
            lemma_key_get_other(b0, by_type@, gx, k);
        }
    }
}

/// `new` is the daemon `old` after `update_progress_at` with these
/// arguments returned the ids `r`.
pub open spec fn updated_by(old: AchievementDaemon, new: AchievementDaemon, player_id: Seq<char>, ct: Seq<char>, value: int, now: i64, r: Seq<String>) -> bool {
    &&& (new.wf())
    &&& (new.achievements_view() == old.achievements_view())
    &&& (forall|k: Seq<char>| k != player_id ==> #[trigger] key_get(new.progress_view(), k) == key_get(old.progress_view(), k))
    &&& (forall|k: Seq<char>| k != player_id ==> #[trigger] key_get(new.stats_view(), k) == key_get(old.stats_view(), k))
    &&& (key_get(old.progress_view(), player_id) is None ==> r.len() == 0 && new == old)
    &&& (key_get(old.progress_view(), player_id) matches Some(pp) ==> {
        let achs = old.achievements_view();
        let es = pp.entries@;
        &&& key_get(new.progress_view(), player_id) matches Some(pp2) && {
            let es2 = pp2.entries@;
            &&& es2.len() == es.len()
            &&& forall|i: int| 0 <= i < es.len() ==> entry_updated(achs, #[trigger] es[i], es2[i], ct, value, now)
            &&& texts(r) == completed_upto(achs, es, es2, ct, es.len() as int)
            &&& match key_get(old.stats_view(), player_id) {
                None => key_get(new.stats_view(), player_id) is None,
                Some(s) => key_get(new.stats_view(), player_id) matches Some(s2) && {
                    &&& s2.stats.total_completed == s.stats.total_completed + r.len()
                    &&& s2.stats.total_points == s.stats.total_points + points_upto(achs, es, es2, ct, es.len() as int)
                    &&& forall|t: Seq<char>| #[trigger] kind_count(s2.stats.by_type@, t) == kind_count(s.stats.by_type@, t) + kind_upto(achs, es, es2, ct, es.len() as int, t)
                },
            }
        }
    })
}

impl AchievementDaemon {
    /// The number of entries of a player, 0 for an unknown player.
    pub open spec fn entry_count(&self, player_id: Seq<char>) -> int {
        match key_get(self.progress_view(), player_id) {
            Some(pp) => pp.entries@.len() as int,
            None => 0,
        }
    }

    /// An update of `ct` by `value` for the player stays within `i32`: each
    /// advanced value, and the statistics even if every entry completes.
    pub open spec fn update_fits(&self, player_id: Seq<char>, ct: Seq<char>, value: int) -> bool {
        &&& (key_get(self.progress_view(), player_id) matches Some(pp) ==> forall|i: int| 0 <= i < pp.entries@.len() && advances(self.achievements_view(), #[trigger] pp.entries@[i], ct) ==> i32::MIN <= progress_value(pp.entries@[i].progress@, ct) + value <= i32::MAX)
        &&& (key_get(self.stats_view(), player_id) matches Some(s) ==> {
            &&& s.stats.total_completed + self.entry_count(player_id) <= i32::MAX
            &&& s.stats.total_points + 100 * self.entry_count(player_id) <= i32::MAX
            &&& forall|t: Seq<char>| #[trigger] kind_count(s.stats.by_type@, t) + self.entry_count(player_id) <= i32::MAX
        })
    }

    /// Adds `value` to condition `condition_type` for each of the player's
    /// entries it advances (capped at the target), completes at `now` those
    /// whose conditions are all met, counts them in the statistics, and
    /// returns their ids in the order of the entries.
    pub fn update_progress_at(&mut self, player_id: &str, condition_type: &str, value: i32, now: i64) -> (r: Vec<String>)
        requires
            old(self).wf(),
            old(self).update_fits(player_id@, condition_type@, value as int),
        ensures
            updated_by(*old(self), *final(self), player_id@, condition_type@, value as int, now, r@),
    {
        let mut r: Vec<String> = Vec::new();
        let k = match find_key(&self.player_progress, player_id) {
            Some(k) => k,
            None => {
                proof {
                    lemma_key_get_none(self.player_progress@, player_id@);
                }
                return r;
            },
        };
        proof {
            lemma_key_get_at(self.player_progress@, player_id@, k as int);
        }
        let ks = find_key(&self.player_stats, player_id);
        proof {
            match ks {
                Some(j) => lemma_key_get_at(self.player_stats@, player_id@, j as int),
                None => lemma_key_get_none(self.player_stats@, player_id@),
            }
        }
        let ghost old_self = *self;
        let ghost achs = self.achievements@;
        let ghost es = self.player_progress@[k as int].entries@;
        let ghost st0 = self.player_stats@;
        let ghost ct = condition_type@;
        let mut entries: Vec<PlayerAchievement> = Vec::new();
        std::mem::swap(&mut entries, &mut self.player_progress[k].entries);
        let ghost p_mid = self.player_progress@;
        let mut i: usize = 0;
        while i < entries.len()
            invariant
                i <= entries@.len(),
                entries@.len() == es.len(),
                achs == self.achievements@,
                self.achievements@ == old_self.achievements@,
                self.player_progress@ == p_mid,
                old_self.wf(),
                old_self.update_fits(player_id@, ct, value as int),
                ct == condition_type@,
                key_get(old_self.progress_view(), player_id@) matches Some(pp) && pp.entries@ == es,
                forall|j: int| 0 <= j < i ==> entry_updated(achs, #[trigger] es[j], entries@[j], ct, value as int, now),
                forall|j: int| i <= j < es.len() ==> #[trigger] entries@[j] == es[j],
                texts(r@) == completed_upto(achs, es, entries@, ct, i as int),
                r@.len() <= i,
                self.player_stats@.len() == st0.len(),
                forall|j: int| 0 <= j < st0.len() && (ks is None || j != ks.unwrap()) ==> #[trigger] self.player_stats@[j] == st0[j],
                old_self.player_stats@ == st0,
                ks is None ==> self.player_stats@ == st0,
                ks matches Some(x) ==> x < st0.len() && key_pos(st0, player_id@, x as int) && key_get(st0, player_id@) == Some(st0[x as int]),
                ks matches Some(x) ==> self.player_stats@[x as int].player_id == st0[x as int].player_id,
                ks matches Some(x) ==> self.player_stats@[x as int].stats.total_completed == st0[x as int].stats.total_completed + r@.len(),
                ks matches Some(x) ==> self.player_stats@[x as int].stats.total_points == st0[x as int].stats.total_points + points_upto(achs, es, entries@, ct, i as int),
                ks matches Some(x) ==> forall|t: Seq<char>| #[trigger] kind_count(self.player_stats@[x as int].stats.by_type@, t) == kind_count(st0[x as int].stats.by_type@, t) + kind_upto(achs, es, entries@, ct, i as int, t),
                0 <= points_upto(achs, es, entries@, ct, i as int) <= 100 * i,
                forall|t: Seq<char>| 0 <= #[trigger] kind_upto(achs, es, entries@, ct, i as int, t) <= i,
            decreases entries.len() - i,
        {
            let ghost e_before = entries@;
            let mut done = false;
            let mut points: i32 = 0;
            let mut kind = AchievementType::Level;
            let ghost mut ga: Option<Achievement> = None;
            if !entries[i].completed {
                match get_key(&self.achievements, entries[i].achievement_id.as_str()) {
                    Some(a) => {
                        if find_key(&a.conditions, condition_type).is_some() {
                            proof {
                                let j = choose|j: int| key_pos(a.conditions@, ct, j);
                                lemma_key_get_at(a.conditions@, ct, j);
                                assert(advances(achs, es[i as int], ct));
                                assert(es[i as int] == entries@[i as int]);
                            }
                            done = apply_update(&mut entries[i], a, condition_type, value, now);
                            points = a.points;
                            kind = a.achievement_type;
                            proof {
                                ga = Some(*a);
                                lemma_key_first(achs, entries@[i as int].achievement_id@);
                                lemma_key_get_in(achs, entries@[i as int].achievement_id@);
                                let j = choose|j: int| 0 <= j < achs.len() && achs[j] == *a && a.key_view() == entries@[i as int].achievement_id@;
                                assert(0 <= achs[j].points <= 100);
                            }
                        } else {
                            proof {
                                lemma_key_get_none(a.conditions@, ct);
                            }
                        }
                    },
                    None => {},
                }
            }
            proof {
                assert forall|j: int| 0 <= j < entries@.len() && j != i implies entries@[j] == e_before[j] by {}
                assert(entry_updated(achs, es[i as int], entries@[i as int], ct, value as int, now));
                assert forall|n: int| 0 <= n <= i implies completed_upto(achs, es, entries@, ct, n) == completed_upto(achs, es, e_before, ct, n)
                    && points_upto(achs, es, entries@, ct, n) == points_upto(achs, es, e_before, ct, n) by {
                    lemma_upto_prefix(achs, es, entries@, e_before, ct, n, i as int);
                }
                assert forall|t: Seq<char>, n: int| 0 <= n <= i implies #[trigger] kind_upto(achs, es, entries@, ct, n, t) == kind_upto(achs, es, e_before, ct, n, t) by {
                    lemma_upto_prefix(achs, es, entries@, e_before, ct, n, i as int);
                    lemma_kind_prefix(achs, es, entries@, e_before, ct, n, i as int, t);
                }
                assert(done == done_now(achs, es[i as int], entries@[i as int], ct));
                assert(done ==> ga == key_get(achs, es[i as int].achievement_id@) && ga is Some && kind == ga.unwrap().achievement_type && points == ga.unwrap().points);
                assert forall|t: Seq<char>| #[trigger] kind_upto(achs, es, entries@, ct, i + 1, t) == kind_upto(achs, es, entries@, ct, i as int, t) + (if done && kind_label(kind) == t { 1int } else { 0int }) by {}
            }
            if done {
                r.push(entries[i].achievement_id.clone());
                match ks {
                    Some(x) => {
                        let ghost sb = self.player_stats@;
                        let se = &mut self.player_stats[x];
                        se.stats.total_completed = se.stats.total_completed + 1;
                        se.stats.total_points = se.stats.total_points + points;
                        bump_kind(&mut se.stats.by_type, kind_label_of(kind));
                        proof {
                            assert forall|j: int| 0 <= j < st0.len() && j != x implies #[trigger] self.player_stats@[j] == sb[j] by {}
                        }
                    },
                    None => {},
                }
            }
            i = i + 1;
        }
        let ghost final_entries = entries@;
        let pp = &mut self.player_progress[k];
        pp.entries = entries;
        proof {
            assert(self.player_progress@ == p_mid.update(k as int, self.player_progress@[k as int]));
            assert(p_mid == old_self.player_progress@.update(k as int, p_mid[k as int]));
            assert forall|a: int, b: int| 0 <= a < b < self.player_progress@.len() implies self.player_progress@[a].key_view() != self.player_progress@[b].key_view() by {
                assert(old_self.player_progress@[a].key_view() != old_self.player_progress@[b].key_view());
            }
            assert(key_pos(self.player_progress@, player_id@, k as int));
            lemma_key_get_at(self.player_progress@, player_id@, k as int);
            assert(key_pos(old_self.player_progress@, player_id@, k as int));
            assert(self.player_progress@ == old_self.player_progress@.update(k as int, self.player_progress@[k as int]));
            assert(self.player_progress@[k as int].key_view() == player_id@);
            assert forall|kk: Seq<char>| kk != player_id@ implies #[trigger] key_get(self.player_progress@, kk) == key_get(old_self.player_progress@, kk) by {
                lemma_key_get_other(old_self.player_progress@, self.player_progress@, self.player_progress@[k as int], kk);
            }
            assert(texts(r@) =~= completed_upto(achs, es, final_entries, ct, es.len() as int));
            match ks {
                Some(x) => {
                    assert(self.player_stats@ == st0.update(x as int, self.player_stats@[x as int]));
                    assert forall|a: int, b: int| 0 <= a < b < self.player_stats@.len() implies self.player_stats@[a].key_view() != self.player_stats@[b].key_view() by {
                        assert(st0[a].key_view() != st0[b].key_view());
                    }
                    assert(key_pos(self.player_stats@, player_id@, x as int));
                    lemma_key_get_at(self.player_stats@, player_id@, x as int);
                    assert forall|kk: Seq<char>| kk != player_id@ implies #[trigger] key_get(self.player_stats@, kk) == key_get(st0, kk) by {
                        lemma_key_get_other(st0, self.player_stats@, self.player_stats@[x as int], kk);
                    }
                },
                None => {},
            }
        }
        r
    }
}

proof fn lemma_upto_prefix(achs: Seq<Achievement>, es: Seq<PlayerAchievement>, a: Seq<PlayerAchievement>, b: Seq<PlayerAchievement>, ct: Seq<char>, n: int, i: int)
    requires
        0 <= n <= i,
        i < a.len(),
        a.len() == b.len(),
        forall|j: int| 0 <= j < a.len() && j != i ==> a[j] == b[j],
    ensures
        completed_upto(achs, es, a, ct, n) == completed_upto(achs, es, b, ct, n),
        points_upto(achs, es, a, ct, n) == points_upto(achs, es, b, ct, n),
    decreases n,
{
    if n > 0 {
        lemma_upto_prefix(achs, es, a, b, ct, n - 1, i);
    }
}

proof fn lemma_kind_prefix(achs: Seq<Achievement>, es: Seq<PlayerAchievement>, a: Seq<PlayerAchievement>, b: Seq<PlayerAchievement>, ct: Seq<char>, n: int, i: int, t: Seq<char>)
    requires
        0 <= n <= i,
        i < a.len(),
        a.len() == b.len(),
        forall|j: int| 0 <= j < a.len() && j != i ==> a[j] == b[j],
    ensures
        kind_upto(achs, es, a, ct, n, t) == kind_upto(achs, es, b, ct, n, t),
    decreases n,
{
    if n > 0 {
        lemma_kind_prefix(achs, es, a, b, ct, n - 1, i, t);
    }
}


/// The entry of achievement `achievement_id` in a player's progress.
pub open spec fn player_entry(d: AchievementDaemon, player_id: Seq<char>, achievement_id: Seq<char>) -> Option<PlayerAchievement> {
    match key_get(d.progress_view(), player_id) {
        Some(pp) => key_get(pp.entries@, achievement_id),
        None => None,
    }
}

/// A player's entries, none for an unknown player.
pub open spec fn player_entries(d: AchievementDaemon, player_id: Seq<char>) -> Seq<PlayerAchievement> {
    match key_get(d.progress_view(), player_id) {
        Some(pp) => pp.entries@,
        None => Seq::empty(),
    }
}

/// Some entry of `es` for achievement `id` is completed.
pub open spec fn is_done(es: Seq<PlayerAchievement>, id: Seq<char>) -> bool {
    exists|i: int| 0 <= i < es.len() && es[i].completed && es[i].achievement_id@ == id
}

/// An achievement a player can work toward: not completed, not hidden, and
/// with its prerequisite, if any, completed.
pub open spec fn is_available(a: Achievement, es: Seq<PlayerAchievement>) -> bool {
    &&& !is_done(es, a.id@)
    &&& !a.hidden
    &&& (a.prerequisite matches Some(p) ==> is_done(es, p@))
}

/// The available achievements of difficulty rank `r`, in catalogue order.
pub open spec fn available_rank(achs: Seq<Achievement>, es: Seq<PlayerAchievement>, r: int) -> Seq<Achievement> {
    achs.filter(|a: Achievement| is_available(a, es) && a.difficulty.rank_spec() == r)
}

/// The available achievements of ranks below `r`, easier ranks first.
pub open spec fn available_below(achs: Seq<Achievement>, es: Seq<PlayerAchievement>, r: int) -> Seq<Achievement>
    decreases r,
{
    if r <= 0 {
        Seq::empty()
    } else {
        available_below(achs, es, r - 1) + available_rank(achs, es, r - 1)
    }
}

/// The available achievements ordered by difficulty, ties in catalogue order.
pub open spec fn available_sorted(achs: Seq<Achievement>, es: Seq<PlayerAchievement>) -> Seq<Achievement> {
    available_below(achs, es, 5)
}

/// Some of the first `n` entries of `es` for achievement `id` is completed.
pub open spec fn done_before(es: Seq<PlayerAchievement>, id: Seq<char>, n: int) -> bool {
    exists|m: int| 0 <= m < n && #[trigger] es[m].completed && es[m].achievement_id@ == id
}

/// The ids of the completed entries.
fn done_ids(es: &Vec<PlayerAchievement>) -> (r: Vec<String>)
    ensures
        forall|id: Seq<char>| #[trigger] has_str(r@, id) <==> is_done(es@, id),
{
    let mut r: Vec<String> = Vec::new();
    let mut i: usize = 0;
    while i < es.len()
        invariant
            i <= es@.len(),
            forall|id: Seq<char>| #[trigger] has_str(r@, id) <==> done_before(es@, id, i as int),
        decreases es.len() - i,
    {
        let ghost r0 = r@;
        if es[i].completed {
            r.push(es[i].achievement_id.clone());
        }
        proof {
            assert forall|id: Seq<char>| #[trigger] has_str(r@, id) <==> done_before(es@, id, i + 1) by {
                if es@[i as int].completed {
                    assert(r@ == r0.push(es@[i as int].achievement_id));
                    crate::util::lemma_has_str_push(r0, es@[i as int].achievement_id, id);
                } else {
                    assert(r@ == r0);
                }
                if done_before(es@, id, i + 1) {
                    let m = choose|m: int| 0 <= m < i + 1 && #[trigger] es@[m].completed && es@[m].achievement_id@ == id;
                    if m < i {
                        assert(done_before(es@, id, i as int));
                    }
                }
                if done_before(es@, id, i as int) {
                    let m = choose|m: int| 0 <= m < i && #[trigger] es@[m].completed && es@[m].achievement_id@ == id;
                    assert(done_before(es@, id, i + 1));
                }
            }
        }
        i = i + 1;
    }
    assert forall|id: Seq<char>| done_before(es@, id, i as int) <==> is_done(es@, id) by {
        if is_done(es@, id) {
            let m = choose|m: int| 0 <= m < es@.len() && es@[m].completed && es@[m].achievement_id@ == id;
            assert(es@[m].completed);
        }
    }
    r
}

/// The text of `c / t` as a percentage with one decimal, rounded to the
/// nearest tenth, ties to an even last digit.
pub open spec fn percent_tenths(c: int, t: int) -> int {
    let q = (c * 1000) / t;
    let rem = (c * 1000) % t;
    if 2 * rem > t {
        q + 1
    } else if 2 * rem < t {
        q
    } else {
        q + q % 2
    }
}

/// `percent_tenths` written as digits, a point and the tenths digit.
pub open spec fn percent_text(c: int, t: int) -> Seq<char> {
    let v = percent_tenths(c, t);
    nat_digits((v / 10) as nat) + "."@ + seq![crate::text::digit_char(v % 10)]
}

fn percent_string(c: i32, t: usize) -> (r: String)
    requires
        0 <= c,
        0 < t <= 1_000_000,
    ensures
        r@ == percent_text(c as int, t as int),
{
    let cc = (c as u64) * 1000;
    let tt = t as u64;
    let q = cc / tt;
    let rem = cc % tt;
    let v: u64 = if 2 * rem > tt {
        q + 1
    } else if 2 * rem < tt {
        q
    } else {
        q + q % 2
    };
    let mut s = String::new();
    push_u64(&mut s, v / 10);
    push_str(&mut s, ".");
    push_u64(&mut s, v % 10);
    proof {
        reveal_with_fuel(nat_digits, 2);
        assert(nat_digits((v % 10) as nat) =~= seq![crate::text::digit_char((v % 10) as int)]);
    }
    s
}

/// One line of the achievement list.
pub open spec fn available_line(a: Achievement) -> Seq<char> {
    "  "@ + a.name@ + " ["@ + difficulty_label(a.difficulty) + "] "@ + a.description@ + " - "@ + int_digits(a.points as int) + "点\n"@
}

/// The lines of a list of achievements.
pub open spec fn available_lines(s: Seq<Achievement>) -> Seq<char>
    decreases s.len(),
{
    if s.len() == 0 {
        Seq::empty()
    } else {
        available_lines(s.drop_last()) + available_line(s.last())
    }
}

fn difficulty_label_of(d: AchievementDifficulty) -> (r: &'static str)
    ensures
        r@ == difficulty_label(d),
{
    match d {
        AchievementDifficulty::Common => "§G普通§N",
        AchievementDifficulty::Uncommon => "§C困难§N",
        AchievementDifficulty::Rare => "§B稀有§N",
        AchievementDifficulty::Epic => "§M史诗§N",
        AchievementDifficulty::Legendary => "§Y传说§N",
    }
}

fn format_available_line(a: &Achievement) -> (r: String)
    ensures
        r@ == available_line(*a),
{
    let mut s = string_of("  ");
    push_str(&mut s, a.name.as_str());
    push_str(&mut s, " [");
    push_str(&mut s, difficulty_label_of(a.difficulty));
    push_str(&mut s, "] ");
    push_str(&mut s, a.description.as_str());
    push_str(&mut s, " - ");
    push_i64(&mut s, a.points as i64);
    push_str(&mut s, "点\n");
    s
}

/// The date shown for a completion: chrono's date of the time, or 未知.
pub open spec fn completion_date(t: Option<i64>) -> Seq<char> {
    match t {
        Some(ts) => match utc_date_text(ts) {
            Some(d) => d,
            None => "未知"@,
        },
        None => "未知"@,
    }
}

/// One line of the completed list.
pub open spec fn completed_line(x: (Achievement, PlayerAchievement)) -> Seq<char> {
    "  "@ + x.0.name@ + " - "@ + int_digits(x.0.points as int) + "点 ["@ + completion_date(x.1.completed_at) + "]\n"@
}

/// The completed achievements of a player's entries, paired with the entries.
pub open spec fn completed_pairs(achs: Seq<Achievement>, es: Seq<PlayerAchievement>) -> Seq<(Achievement, PlayerAchievement)> {
    progress_pairs(achs, es).filter(|x: (Achievement, PlayerAchievement)| x.1.completed)
}

/// The lines of the completed list.
pub open spec fn completed_lines(s: Seq<(Achievement, PlayerAchievement)>) -> Seq<char>
    decreases s.len(),
{
    if s.len() == 0 {
        Seq::empty()
    } else {
        completed_lines(s.drop_last()) + completed_line(s.last())
    }
}

fn format_completed_line(a: &Achievement, e: &PlayerAchievement) -> (r: String)
    ensures
        r@ == completed_line((*a, *e)),
{
    let mut s = string_of("  ");
    push_str(&mut s, a.name.as_str());
    push_str(&mut s, " - ");
    push_i64(&mut s, a.points as i64);
    push_str(&mut s, "点 [");
    match e.completed_at {
        Some(t) => match utc_date(t) {
            Some(d) => push_str(&mut s, d.as_str()),
            None => push_str(&mut s, "未知"),
        },
        None => push_str(&mut s, "未知"),
    }
    push_str(&mut s, "]\n");
    s
}

impl AchievementDaemon {
    /// `update_progress_at` at the current time.
    pub fn update_progress(&mut self, player_id: &str, condition_type: &str, value: i32) -> (r: Vec<String>)
        requires
            old(self).wf(),
            old(self).update_fits(player_id@, condition_type@, value as int),
        ensures
            exists|now: i64| updated_by(*old(self), *final(self), player_id@, condition_type@, value as int, now, r@),
    {
        let now = current_timestamp();
        self.update_progress_at(player_id, condition_type, value, now)
    }

    /// Completes an achievement for a player by hand at time `now`, counts
    /// it and its points in the statistics, and returns its reward. Fails
    /// with 成就不存在 for an achievement outside the catalogue or without an
    /// entry for the player, and with 成就已完成 when it is already completed.
    pub fn complete_achievement_at(&mut self, player_id: &str, achievement_id: &str, now: i64) -> (r: Result<AchievementReward, MudError>)
        requires
            old(self).wf(),
            key_get(old(self).stats_view(), player_id@) matches Some(s) ==> s.stats.total_completed < i32::MAX && s.stats.total_points + 100 <= i32::MAX,
        ensures
            complete_achievement_done(*old(self), *final(self), player_id, achievement_id, now, r),
    {
        let a = match get_key(&self.achievements, achievement_id) {
            Some(a) => a,
            None => {
                return Err(not_found("成就不存在"));
            },
        };
        let reward = a.reward.clone();
        let points = a.points;
        proof {
            lemma_key_get_in(self.achievements@, achievement_id@);
            let j = choose|j: int| 0 <= j < self.achievements@.len() && self.achievements@[j] == *a && a.key_view() == achievement_id@;
            assert(0 <= self.achievements@[j].points <= 100);
        }
        let k = match find_key(&self.player_progress, player_id) {
            Some(k) => k,
            None => {
                proof {
                    lemma_key_get_none(self.player_progress@, player_id@);
                }
                return Err(not_found("成就不存在"));
            },
        };
        proof {
            lemma_key_get_at(self.player_progress@, player_id@, k as int);
        }
        let j = match find_key(&self.player_progress[k].entries, achievement_id) {
            Some(j) => j,
            None => {
                proof {
                    lemma_key_get_none(self.player_progress@[k as int].entries@, achievement_id@);
                }
                return Err(not_found("成就不存在"));
            },
        };
        proof {
            lemma_key_get_at(self.player_progress@[k as int].entries@, achievement_id@, j as int);
        }
        if self.player_progress[k].entries[j].completed {
            return Err(runtime_error("成就已完成"));
        }
        let ghost old_self = *self;
        let ghost es0 = self.player_progress@[k as int].entries@;
        let pp = &mut self.player_progress[k];
        let e = &mut pp.entries[j];
        e.completed = true;
        e.completed_at = Some(now);
        proof {
            let es1 = self.player_progress@[k as int].entries@;
            assert(es1 == es0.update(j as int, es1[j as int]));
            assert(key_pos(es1, achievement_id@, j as int));
            lemma_key_get_at(es1, achievement_id@, j as int);
            let p0 = old_self.player_progress@;
            assert(self.player_progress@ == p0.update(k as int, self.player_progress@[k as int]));
            assert forall|x: int, y: int| 0 <= x < y < self.player_progress@.len() implies self.player_progress@[x].key_view() != self.player_progress@[y].key_view() by {
                assert(p0[x].key_view() != p0[y].key_view());
            }
            assert(key_pos(p0, player_id@, k as int));
            assert(key_pos(self.player_progress@, player_id@, k as int));
            lemma_key_get_at(self.player_progress@, player_id@, k as int);
            assert forall|kk: Seq<char>| kk != player_id@ implies #[trigger] key_get(self.player_progress@, kk) == key_get(p0, kk) by {
                lemma_key_get_other(p0, self.player_progress@, self.player_progress@[k as int], kk);
            }
        }
        match find_key(&self.player_stats, player_id) {
            Some(x) => {
                proof {
                    lemma_key_get_at(self.player_stats@, player_id@, x as int);
                }
                let ghost s0 = self.player_stats@;
                let se = &mut self.player_stats[x];
                se.stats.total_completed = se.stats.total_completed + 1;
                se.stats.total_points = se.stats.total_points + points;
                proof {
                    assert(self.player_stats@ == s0.update(x as int, self.player_stats@[x as int]));
                    assert forall|a1: int, b1: int| 0 <= a1 < b1 < self.player_stats@.len() implies self.player_stats@[a1].key_view() != self.player_stats@[b1].key_view() by {
                        assert(s0[a1].key_view() != s0[b1].key_view());
                    }
                    assert(key_pos(self.player_stats@, player_id@, x as int));
                    lemma_key_get_at(self.player_stats@, player_id@, x as int);
                    assert forall|kk: Seq<char>| kk != player_id@ implies #[trigger] key_get(self.player_stats@, kk) == key_get(s0, kk) by {
                        lemma_key_get_other(s0, self.player_stats@, self.player_stats@[x as int], kk);
                    }
                }
            },
            None => {
                proof {
                    lemma_key_get_none(self.player_stats@, player_id@);
                }
            },
        }
        Ok(reward)
    }

    /// `complete_achievement_at` at the current time.
    pub fn complete_achievement(&mut self, player_id: &str, achievement_id: &str) -> (r: Result<AchievementReward, MudError>)
        requires
            old(self).wf(),
            key_get(old(self).stats_view(), player_id@) matches Some(s) ==> s.stats.total_completed < i32::MAX && s.stats.total_points + 100 <= i32::MAX,
        ensures
            exists|now: i64| #[trigger] complete_achievement_done(*old(self), *final(self), player_id, achievement_id, now, r),
            final(self).wf(),
            final(self).achievements_view() == old(self).achievements_view(),
            key_get(old(self).achievements_view(), achievement_id@) is None ==> (r matches Err(MudError::NotFound(m)) && m@ == "成就不存在"@),
            player_entry(*old(self), player_id@, achievement_id@) is None ==> (r matches Err(MudError::NotFound(m)) && m@ == "成就不存在"@),
            key_get(old(self).achievements_view(), achievement_id@) is Some ==> (player_entry(*old(self), player_id@, achievement_id@) matches Some(e) && e.completed ==> (r matches Err(MudError::RuntimeError(m)) && m@ == "成就已完成"@)),
            key_get(old(self).achievements_view(), achievement_id@) matches Some(a) ==> (player_entry(*old(self), player_id@, achievement_id@) matches Some(e) && !e.completed ==> {
                &&& r matches Ok(rw) && reward_copy(rw, a.reward)
                &&& player_entry(*final(self), player_id@, achievement_id@) matches Some(e2) && e2.completed
            }),
    {
        let now = current_timestamp();
        self.complete_achievement_at(player_id, achievement_id, now)
    }

    /// The achievements a player can work toward, easier first, ties in
    /// catalogue order.
    pub fn get_available_achievements(&self, player_id: &str) -> (r: Vec<&Achievement>)
        ensures
            r@.map_values(|a: &Achievement| *a) == available_sorted(self.achievements_view(), player_entries(*self, player_id@)),
    {
        let ghost es = player_entries(*self, player_id@);
        let done: Vec<String> = match get_key(&self.player_progress, player_id) {
            Some(pp) => done_ids(&pp.entries),
            None => {
                proof {
                    assert forall|id: Seq<char>| !is_done(es, id) by {}
                }
                Vec::new()
            },
        };
        let ghost achs = self.achievements@;
        let mut r: Vec<&Achievement> = Vec::new();
        let mut rank: u8 = 0;
        while rank < 5
            invariant
                rank <= 5,
                achs == self.achievements@,
                forall|id: Seq<char>| #[trigger] has_str(done@, id) <==> is_done(es, id),
                r@.map_values(|a: &Achievement| *a) == available_below(achs, es, rank as int),
            decreases 5 - rank,
        {
            let ghost base = r@.map_values(|a: &Achievement| *a);
            let mut i: usize = 0;
            while i < self.achievements.len()
                invariant
                    i <= achs.len(),
                    achs == self.achievements@,
                    rank < 5,
                    forall|id: Seq<char>| #[trigger] has_str(done@, id) <==> is_done(es, id),
                    r@.map_values(|a: &Achievement| *a) == base + achs.take(i as int).filter(|a: Achievement| is_available(a, es) && a.difficulty.rank_spec() == rank as int),
                decreases achs.len() - i,
            {
                let a = &self.achievements[i];
                let ghost prev = r@;
                proof {
                    assert(achs.take(i + 1) =~= achs.take(i as int).push(achs[i as int]));
                    achs.take(i as int).lemma_filter_push(achs[i as int], |a: Achievement| is_available(a, es) && a.difficulty.rank_spec() == rank as int);
                }
                let completed = crate::util::contains_str(&done, a.id.as_str());
                let prereq_ok = match &a.prerequisite {
                    Some(p) => crate::util::contains_str(&done, p.as_str()),
                    None => true,
                };
                if !completed && !a.hidden && prereq_ok && a.difficulty.rank() == rank {
                    r.push(a);
                    assert(r@.map_values(|a: &Achievement| *a) =~= prev.map_values(|a: &Achievement| *a).push(*a));
                }
                i = i + 1;
            }
            assert(achs.take(i as int) =~= achs);
            rank = rank + 1;
        }
        r
    }

    /// The achievement list of a player: progress and points when the player
    /// has statistics, then up to twenty available achievements, or a
    /// congratulation when none is left.
    pub fn format_achievement_list(&self, player_id: &str) -> (r: String)
        requires
            self.wf(),
            self.achievements_view().len() <= 1_000_000,
        ensures
            ({
                let avail = available_sorted(self.achievements_view(), player_entries(*self, player_id@));
                let total = self.achievements_view().len() as int;
                let head = match key_get(self.stats_view(), player_id@) {
                    Some(s) => "§H=== 成就系统 ===§N\n"@ + "进度: "@ + int_digits(s.stats.total_completed as int) + "/"@ + nat_digits(total as nat) + " ("@ + percent_text(s.stats.total_completed as int, total) + "%) | 点数: "@ + int_digits(s.stats.total_points as int) + "\n"@,
                    None => "§H=== 成就系统 ===§N\n"@,
                };
                r@ == head + if avail.len() == 0 {
                    "§Y恭喜！你已完成所有成就！§N\n"@
                } else {
                    "\n§H--- 可完成成就 ---§N\n"@ + available_lines(avail.take(if avail.len() < 20 { avail.len() as int } else { 20 }))
                }
            }),
    {
        let avail = self.get_available_achievements(player_id);
        let ghost av = avail@.map_values(|a: &Achievement| *a);
        let total = self.achievements.len();
        let mut out = string_of("§H=== 成就系统 ===§N\n");
        match get_key(&self.player_stats, player_id) {
            Some(e) => {
                proof {
                    lemma_key_get_in(self.player_stats@, player_id@);
                    let j = choose|j: int| 0 <= j < self.player_stats@.len() && self.player_stats@[j] == *e && e.key_view() == player_id@;
                    assert(0 <= self.player_stats@[j].stats.total_completed);
                }
                push_str(&mut out, "进度: ");
                push_i64(&mut out, e.stats.total_completed as i64);
                push_str(&mut out, "/");
                push_u64(&mut out, total as u64);
                push_str(&mut out, " (");
                let pct = percent_string(e.stats.total_completed, total);
                push_str(&mut out, pct.as_str());
                push_str(&mut out, "%) | 点数: ");
                push_i64(&mut out, e.stats.total_points as i64);
                push_str(&mut out, "\n");
            },
            None => {},
        }
        let ghost head = out@;
        if avail.len() == 0 {
            push_str(&mut out, "§Y恭喜！你已完成所有成就！§N\n");
        } else {
            push_str(&mut out, "\n§H--- 可完成成就 ---§N\n");
            let ghost head2 = out@;
            let n = if avail.len() < 20 { avail.len() } else { 20 };
            let mut i: usize = 0;
            while i < n
                invariant
                    i <= n,
                    n <= avail@.len(),
                    av == avail@.map_values(|a: &Achievement| *a),
                    out@ == head2 + available_lines(av.take(i as int)),
                decreases n - i,
            {
                let line = format_available_line(avail[i]);
                push_str(&mut out, line.as_str());
                assert(av.take(i + 1).drop_last() =~= av.take(i as int));
                assert(av[i as int] == *avail@[i as int]);
                i = i + 1;
            }
            assert(out@ =~= head + ("\n§H--- 可完成成就 ---§N\n"@ + available_lines(av.take(i as int))));
        }
        out
    }

    /// The completed achievements of a player with their points and dates.
    pub fn format_completed_achievements(&self, player_id: &str) -> (r: String)
        ensures
            ({
                let done = completed_pairs(self.achievements_view(), player_entries(*self, player_id@));
                r@ == "§H=== 已完成成就 ("@ + nat_digits(done.len()) + ") ===§N\n"@ + completed_lines(done)
            }),
    {
        let pairs = self.get_player_progress(player_id);
        let ghost all = pairs@.map_values(|x: (&Achievement, &PlayerAchievement)| (*x.0, *x.1));
        proof {
            if key_get(self.player_progress@, player_id@) is None {
                assert(all =~= progress_pairs(self.achievements@, Seq::empty()));
            }
        }
        let mut done: Vec<(&Achievement, &PlayerAchievement)> = Vec::new();
        let mut i: usize = 0;
        while i < pairs.len()
            invariant
                i <= pairs@.len(),
                all == pairs@.map_values(|x: (&Achievement, &PlayerAchievement)| (*x.0, *x.1)),
                done@.map_values(|x: (&Achievement, &PlayerAchievement)| (*x.0, *x.1)) == all.take(i as int).filter(|x: (Achievement, PlayerAchievement)| x.1.completed),
            decreases pairs.len() - i,
        {
            let ghost prev = done@;
            proof {
                assert(all.take(i + 1) =~= all.take(i as int).push(all[i as int]));
                all.take(i as int).lemma_filter_push(all[i as int], |x: (Achievement, PlayerAchievement)| x.1.completed);
            }
            let x = pairs[i];
            if x.1.completed {
                done.push(x);
                assert(done@.map_values(|x: (&Achievement, &PlayerAchievement)| (*x.0, *x.1)) =~= prev.map_values(|x: (&Achievement, &PlayerAchievement)| (*x.0, *x.1)).push((*x.0, *x.1)));
            }
            i = i + 1;
        }
        assert(all.take(i as int) =~= all);
        let ghost dv = done@.map_values(|x: (&Achievement, &PlayerAchievement)| (*x.0, *x.1));
        let mut out = string_of("§H=== 已完成成就 (");
        push_u64(&mut out, done.len() as u64);
        push_str(&mut out, ") ===§N\n");
        let ghost head = out@;
        let mut j: usize = 0;
        while j < done.len()
            invariant
                j <= done@.len(),
                dv == done@.map_values(|x: (&Achievement, &PlayerAchievement)| (*x.0, *x.1)),
                out@ == head + completed_lines(dv.take(j as int)),
            decreases done.len() - j,
        {
            let x = done[j];
            let line = format_completed_line(x.0, x.1);
            push_str(&mut out, line.as_str());
            assert(dv.take(j + 1).drop_last() =~= dv.take(j as int));
            assert(dv[j as int] == (*x.0, *x.1));
            j = j + 1;
        }
        assert(dv.take(j as int) =~= dv);
        out
    }
}

/// What `AchievementDaemon::complete_achievement_at` promises: `o` is the value before the call, `f`
/// the value after, `r` what it gives back.
pub open spec fn complete_achievement_done(
    o: AchievementDaemon, f: AchievementDaemon, player_id: &str, achievement_id: &str, now: i64,
    r: Result<AchievementReward, MudError>) -> bool {
    &&& (f.wf())
    &&& (f.achievements_view() == o.achievements_view())
    &&& (match (key_get(o.achievements_view(), achievement_id@), player_entry(o, player_id@, achievement_id@)) {
        (Some(a), Some(e)) => if e.completed {
            (r matches Err(MudError::RuntimeError(m)) && m@ == "成就已完成"@) && f == o
        } else {
            &&& r matches Ok(rw) && reward_copy(rw, a.reward)
            &&& player_entry(f, player_id@, achievement_id@) == Some(PlayerAchievement { completed: true, completed_at: Some(now), ..e })
            &&& forall|k: Seq<char>| k != player_id@ ==> #[trigger] key_get(f.progress_view(), k) == key_get(o.progress_view(), k)
            &&& forall|k: Seq<char>| k != player_id@ ==> #[trigger] key_get(f.stats_view(), k) == key_get(o.stats_view(), k)
            &&& match key_get(o.stats_view(), player_id@) {
                None => key_get(f.stats_view(), player_id@) is None,
                Some(s) => key_get(f.stats_view(), player_id@) == Some(PlayerStatsEntry {
                    stats: AchievementStats { total_completed: (s.stats.total_completed + 1) as i32, total_points: (s.stats.total_points + a.points) as i32, ..s.stats },
                    ..s
                }),
            }
        },
        _ => (r matches Err(MudError::NotFound(m)) && m@ == "成就不存在"@) && f == o,
    })
}

} // verus!
