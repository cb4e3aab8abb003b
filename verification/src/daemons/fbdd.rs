//! Dungeons: their templates, the running instances players go through,
//! and which instance each player is in.
use vstd::prelude::*;
use crate::errors::{MudError, runtime_error, not_found};
use crate::text::{push_str, push_i64, string_of, str_eq, int_digits};
use crate::util::{take_key, Keyed, key_get, key_in, keys_unique, find_key, get_key, put_key, drop_key,
    without_str, remove_all_str, lemma_key_in_get};
use crate::outside::current_timestamp;

verus! {

/// Who a dungeon is for.
#[derive(Clone, Copy, Debug, PartialEq, Eq, Structural)]
pub enum DungeonType {
    Solo,
    Team,
    Guild,
    WorldBoss,
    Tower,
}

/// Where a dungeon or an instance stands.
#[derive(Clone, Copy, Debug, PartialEq, Eq, Structural)]
pub enum DungeonStatus {
    Closed,
    Waiting,
    InProgress,
    Completed,
    Failed,
}

/// What finishing a dungeon gives.
#[derive(Debug)]
pub struct DungeonRewards {
    pub exp: u64,
    pub gold: u64,
    pub items: Vec<(String, i32)>,
}

/// A dungeon template.
#[derive(Debug)]
pub struct Dungeon {
    pub id: String,
    pub name: String,
    pub dungeon_type: DungeonType,
    pub min_level: i32,
    pub max_level: i32,
    pub min_players: i32,
    pub max_players: i32,
    pub time_limit: i32,
    pub status: DungeonStatus,
    pub entrance_room: String,
    pub rooms: Vec<String>,
    pub boss_npc: String,
    pub rewards: DungeonRewards,
}

impl Keyed for Dungeon {
    open spec fn key_view(&self) -> Seq<char> {
        self.id@
    }

    fn key(&self) -> (r: &String) {
        &self.id
    }
}

/// A run of a dungeon by some players.
#[derive(Debug)]
pub struct DungeonInstance {
    pub id: String,
    pub dungeon_id: String,
    pub players: Vec<String>,
    pub created_at: i64,
    pub started_at: Option<i64>,
    pub completed_at: Option<i64>,
    pub current_room_index: usize,
    pub killed_monsters: Vec<String>,
    pub status: DungeonStatus,
}

impl Keyed for DungeonInstance {
    open spec fn key_view(&self) -> Seq<char> {
        self.id@
    }

    fn key(&self) -> (r: &String) {
        &self.id
    }
}

/// The id of an instance of `dungeon` made at `now`: `inst_<dungeon>_<now>`.
pub open spec fn instance_id_text(dungeon: Seq<char>, now: int) -> Seq<char> {
    "inst_"@ + dungeon + "_"@ + int_digits(now)
}

/// Seconds an instance has run at `now`: from its start (or its making)
/// to its end (or `now`).
pub open spec fn elapsed_at(x: DungeonInstance, now: int) -> int {
    let start = match x.started_at { Some(t) => t as int, None => x.created_at as int };
    let end = match x.completed_at { Some(t) => t as int, None => now };
    end - start
}

impl DungeonInstance {
    /// An instance of `dungeon_id` for `players`, made at `now`, waiting.
    pub fn new_at(dungeon_id: String, players: Vec<String>, now: i64) -> (r: Self)
        ensures
            dungeon_instance_new_done(dungeon_id, players, now, r),
    {
        let mut id = string_of("inst_");
        push_str(&mut id, dungeon_id.as_str());
        push_str(&mut id, "_");
        push_i64(&mut id, now);
        DungeonInstance {
            id,
            dungeon_id,
            players,
            created_at: now,
            started_at: None,
            completed_at: None,
            current_room_index: 0,
            killed_monsters: Vec::new(),
            status: DungeonStatus::Waiting,
        }
    }

    /// An instance made now (see `new_at`).
    pub fn new(dungeon_id: String, players: Vec<String>) -> (r: Self)
        ensures
            exists|now: i64| #[trigger] dungeon_instance_new_done(dungeon_id, players, now, r),
            r.id@ == instance_id_text(dungeon_id@, r.created_at as int),
            r.dungeon_id == dungeon_id && r.players == players,
            r.started_at is None && r.completed_at is None && r.status == DungeonStatus::Waiting,
    {
        let now = current_timestamp();
        Self::new_at(dungeon_id, players, now)
    }

    /// Starts at `now`.
    pub fn start_at(&mut self, now: i64)
        ensures
            start_done(*old(self), *final(self), now),
    {
        self.started_at = Some(now);
        self.status = DungeonStatus::InProgress;
    }

    /// Starts now.
    pub fn start(&mut self)
        ensures
            exists|now: i64| #[trigger] start_done(*old(self), *final(self), now),
            final(self).started_at is Some && final(self).status == DungeonStatus::InProgress,
            *final(self) == (DungeonInstance { started_at: final(self).started_at, status: DungeonStatus::InProgress, ..*old(self) }),
    {
        let now = current_timestamp();
        self.start_at(now);
    }

    /// Ends at `now`, finished.
    pub fn complete_at(&mut self, now: i64)
        ensures
            complete_done(*old(self), *final(self), now),
    {
        self.completed_at = Some(now);
        self.status = DungeonStatus::Completed;
    }

    /// Ends now, finished.
    pub fn complete(&mut self)
        ensures
            exists|now: i64| #[trigger] complete_done(*old(self), *final(self), now),
            final(self).completed_at is Some,
            *final(self) == (DungeonInstance { completed_at: final(self).completed_at, status: DungeonStatus::Completed, ..*old(self) }),
    {
        let now = current_timestamp();
        self.complete_at(now);
    }

    /// Ends at `now`, failed.
    pub fn fail_at(&mut self, now: i64)
        ensures
            fail_done(*old(self), *final(self), now),
    {
        self.completed_at = Some(now);
        self.status = DungeonStatus::Failed;
    }

    /// Ends now, failed.
    pub fn fail(&mut self)
        ensures
            exists|now: i64| #[trigger] fail_done(*old(self), *final(self), now),
            final(self).completed_at is Some,
            *final(self) == (DungeonInstance { completed_at: final(self).completed_at, status: DungeonStatus::Failed, ..*old(self) }),
    {
        let now = current_timestamp();
        self.fail_at(now);
    }

    /// Seconds it has run at `now` (see `elapsed_at`).
    pub fn get_elapsed_time_at(&self, now: i64) -> (r: i64)
        requires
            i64::MIN <= elapsed_at(*self, now as int) <= i64::MAX,
        ensures
            r == elapsed_at(*self, now as int),
    {
        let start = match self.started_at {
            Some(t) => t,
            None => self.created_at,
        };
        let end = match self.completed_at {
            Some(t) => t,
            None => now,
        };
        end - start
    }

    /// Seconds it has run now.
    pub fn get_elapsed_time(&self) -> (r: i64)
        requires
            self.completed_at is Some ==> i64::MIN <= elapsed_at(*self, 0) <= i64::MAX,
            -1_000_000_000_000_000_000 <= self.created_at <= 1_000_000_000_000_000_000,
            self.started_at matches Some(t) ==> -1_000_000_000_000_000_000 <= t <= 1_000_000_000_000_000_000,
        ensures
            exists|now: int| r == #[trigger] elapsed_at(*self, now),
    {
        let now = current_timestamp();
        self.get_elapsed_time_at(now)
    }
}

/// Which instance a player is in.
#[derive(Debug)]
pub struct PlayerInstance {
    pub player: String,
    pub instance_id: String,
}

impl Keyed for PlayerInstance {
    open spec fn key_view(&self) -> Seq<char> {
        self.player@
    }

    fn key(&self) -> (r: &String) {
        &self.player
    }
}

/// The dungeon templates, the running instances and each player's
/// instance.
#[derive(Debug)]
pub struct FbdDaemon {
    pub dungeons: Vec<Dungeon>,
    pub instances: Vec<DungeonInstance>,
    pub player_instances: Vec<PlayerInstance>,
}

/// The dungeon with id `id`.
pub open spec fn dungeon_at(d: FbdDaemon, id: Seq<char>) -> Option<Dungeon> {
    key_get(d.dungeons@, id)
}

/// The instance with id `id`.
pub open spec fn instance_at(d: FbdDaemon, id: Seq<char>) -> Option<DungeonInstance> {
    key_get(d.instances@, id)
}

/// The id of the instance `player` is in.
pub open spec fn instance_of(d: FbdDaemon, player: Seq<char>) -> Option<Seq<char>> {
    match key_get(d.player_instances@, player) {
        Some(p) => Some(p.instance_id@),
        None => None,
    }
}

/// The texts of a list of names.
pub open spec fn names(v: Seq<String>) -> Seq<Seq<char>> {
    v.map_values(|s: String| s@)
}

/// The first player of `ps` already in an instance, if any.
pub open spec fn first_busy(d: FbdDaemon, ps: Seq<String>, i: int) -> bool {
    &&& 0 <= i < ps.len() && instance_of(d, ps[i]@) is Some
    &&& forall|j: int| 0 <= j < i ==> instance_of(d, (#[trigger] ps[j])@) is None
}

/// The name of a dungeon type in the list.
pub open spec fn type_label(t: DungeonType) -> Seq<char> {
    match t {
        DungeonType::Solo => "单人"@,
        DungeonType::Team => "组队"@,
        DungeonType::Guild => "帮派"@,
        DungeonType::WorldBoss => "世界BOSS"@,
        DungeonType::Tower => "无限塔"@,
    }
}

/// The state of a dungeon in the list.
pub open spec fn status_label(s: DungeonStatus) -> Seq<char> {
    match s {
        DungeonStatus::Closed => "§R关闭§N"@,
        DungeonStatus::Waiting => "§G等待中§N"@,
        DungeonStatus::InProgress => "§Y进行中§N"@,
        DungeonStatus::Completed => "§C已完成§N"@,
        DungeonStatus::Failed => "§R已失败§N"@,
    }
}

/// A dungeon's entry in the list.
pub open spec fn dungeon_entry(g: Dungeon) -> Seq<char> {
    "§Y["@ + g.name@ + "]§N "@ + type_label(g.dungeon_type) + " - "@ + int_digits(g.min_players as int) + "-"@
        + int_digits(g.max_players as int) + "人 - Lv."@ + int_digits(g.min_level as int) + "-"@ + int_digits(g.max_level as int)
        + "\n  状态: "@ + status_label(g.status) + "\n"@
}

/// The entries of the dungeons of `gs`, in order.
pub open spec fn dungeon_entries(gs: Seq<Dungeon>) -> Seq<char>
    decreases gs.len(),
{
    if gs.len() == 0 { seq![] } else { dungeon_entries(gs.drop_last()) + dungeon_entry(gs.last()) }
}

/// The built-in dungeon: the boar cave.
pub open spec fn boar_cave(g: Dungeon) -> bool {
    &&& g.id@ == "newbie_cave"@ && g.name@ == "野猪洞穴"@ && g.dungeon_type == DungeonType::Solo
    &&& g.min_level == 1 && g.max_level == 10 && g.min_players == 1 && g.max_players == 1 && g.time_limit == 1800
    &&& g.status == DungeonStatus::Waiting && g.entrance_room@ == "newbie_cave_entrance"@
    &&& g.rooms@.map_values(|s: String| s@) == seq!["newbie_cave_1"@, "newbie_cave_2"@, "newbie_cave_boss"@]
    &&& g.boss_npc@ == "boar_king"@ && g.rewards.exp == 500 && g.rewards.gold == 200
    &&& g.rewards.items@.map_values(|x: (String, i32)| (x.0@, x.1)) == seq![("newbie_sword"@, 1i32)]
}

impl FbdDaemon {
    /// One template per id, one instance per id, one instance per player.
    pub open spec fn wf(&self) -> bool {
        keys_unique(self.dungeons@) && keys_unique(self.instances@) && keys_unique(self.player_instances@)
    }

    /// No dungeons and nobody in one.
    pub fn new() -> (r: Self)
        ensures
            r.wf(),
            r.dungeons@.len() == 0 && r.instances@.len() == 0 && r.player_instances@.len() == 0,
    {
        FbdDaemon { dungeons: Vec::new(), instances: Vec::new(), player_instances: Vec::new() }
    }

    /// Stores `dungeon`, in place of one with its id.
    pub fn add_dungeon(&mut self, dungeon: Dungeon)
        requires
            old(self).wf(),
        ensures
            final(self).wf(),
            dungeon_at(*final(self), dungeon.id@) == Some(dungeon),
            forall|k: Seq<char>| k != dungeon.id@ ==> #[trigger] dungeon_at(*final(self), k) == dungeon_at(*old(self), k),
            final(self).instances@ == old(self).instances@ && final(self).player_instances@ == old(self).player_instances@,
    {
        put_key(&mut self.dungeons, dungeon);
    }

    /// The dungeon with id `dungeon_id`.
    pub fn get_dungeon(&self, dungeon_id: &str) -> (r: Option<&Dungeon>)
        ensures
            r matches Some(g) ==> dungeon_at(*self, dungeon_id@) == Some(*g),
            r is None <==> dungeon_at(*self, dungeon_id@) is None,
    {
        get_key(&self.dungeons, dungeon_id)
    }

    /// All dungeons.
    pub fn get_all_dungeons(&self) -> (r: Vec<&Dungeon>)
        ensures
            r@.map_values(|x: &Dungeon| *x) == self.dungeons@,
    {
        let mut r: Vec<&Dungeon> = Vec::new();
        let mut i: usize = 0;
        while i < self.dungeons.len()
            invariant
                i <= self.dungeons@.len(),
                r@.map_values(|x: &Dungeon| *x) == self.dungeons@.take(i as int),
            decreases self.dungeons.len() - i,
        {
            let ghost before = r@;
            r.push(&self.dungeons[i]);
            assert(r@ == before.push(&self.dungeons[i as int]));
            assert(self.dungeons@.take(i as int + 1) == self.dungeons@.take(i as int).push(self.dungeons@[i as int]));
            assert(r@.map_values(|x: &Dungeon| *x) =~= self.dungeons@.take(i as int + 1));
            i = i + 1;
        }
        assert(self.dungeons@.take(self.dungeons@.len() as int) == self.dungeons@);
        r
    }

    /// Opens an instance of dungeon `dungeon_id` for `players` at `now`,
    /// every player put in it, and gives its id. Fails without such a
    /// dungeon, when a player (the first found) is in an instance, and when
    /// the party's size is outside the dungeon's bounds.
    pub fn create_instance_at(&mut self, dungeon_id: &str, players: Vec<String>, now: i64) -> (r: Result<String, MudError>)
        requires
            old(self).wf(),
        ensures
            create_instance_done(*old(self), *final(self), dungeon_id, players, now, r),
    {
        let (min_p, max_p) = match get_key(&self.dungeons, dungeon_id) {
            Some(g) => (g.min_players, g.max_players),
            None => {
                let mut m = string_of("副本 ");
                push_str(&mut m, dungeon_id);
                push_str(&mut m, " 不存在");
                return Err(MudError::NotFound(m));
            },
        };
        let mut i: usize = 0;
        while i < players.len()
            invariant
                i <= players@.len(),
                *self == *old(self),
                self.wf(),
                dungeon_at(*self, dungeon_id@) matches Some(g) && g.min_players == min_p && g.max_players == max_p,
                forall|j: int| 0 <= j < i ==> instance_of(*self, (#[trigger] players@[j])@) is None,
            decreases players.len() - i,
        {
            proof {
                lemma_key_in_get(self.player_instances@, players@[i as int]@);
            }
            if find_key(&self.player_instances, players[i].as_str()).is_some() {
                proof {
                    assert(first_busy(*self, players@, i as int));
                    let c = choose|c: int| first_busy(*self, players@, c);
                    if c < i {
                    } else if c > i {
                        assert(instance_of(*self, players@[i as int]@) is None);
                    }
                }
                let mut m = string_of("玩家 ");
                push_str(&mut m, players[i].as_str());
                push_str(&mut m, " 已在副本中");
                return Err(MudError::RuntimeError(m));
            }
            i = i + 1;
        }
        proof {
            assert(!(exists|c: int| first_busy(*self, players@, c)));
        }
        let count = players.len() as i32;
        if count < min_p || count > max_p {
            let mut m = string_of("人数不符合要求，需要 ");
            push_i64(&mut m, min_p as i64);
            push_str(&mut m, "-");
            push_i64(&mut m, max_p as i64);
            push_str(&mut m, " 人");
            return Err(MudError::RuntimeError(m));
        }
        let instance = DungeonInstance::new_at(string_of(dungeon_id), players, now);
        let instance_id = instance.id.clone();
        let ghost o = *self;
        let ghost ps = instance.players@;
        let mut j: usize = 0;
        while j < instance.players.len()
            invariant
                j <= instance.players@.len(),
                instance.players@ == ps,
                keys_unique(self.player_instances@),
                forall|t: int| 0 <= t < j ==> instance_of(*self, (#[trigger] ps[t])@) == Some(instance_id@),
                forall|p: Seq<char>| !names(ps.take(j as int)).contains(p) ==> #[trigger] instance_of(*self, p) == instance_of(o, p),
                self.dungeons@ == o.dungeons@ && self.instances@ == o.instances@,
            decreases instance.players.len() - j,
        {
            let ghost before = *self;
            put_key(&mut self.player_instances, PlayerInstance { player: instance.players[j].clone(), instance_id: instance_id.clone() });
            proof {
                assert forall|t: int| 0 <= t < j + 1 implies instance_of(*self, (#[trigger] ps[t])@) == Some(instance_id@) by {
                    if ps[t]@ != ps[j as int]@ {
                        assert(key_get(self.player_instances@, ps[t]@) == key_get(before.player_instances@, ps[t]@));
                    }
                }
                assert forall|p: Seq<char>| !names(ps.take(j + 1)).contains(p) implies #[trigger] instance_of(*self, p) == instance_of(o, p) by {
                    assert(names(ps.take(j + 1))[j as int] == ps[j as int]@);
                    if p == ps[j as int]@ {
                        assert(names(ps.take(j + 1)).contains(p));
                    }
                    assert(key_get(self.player_instances@, p) == key_get(before.player_instances@, p));
                    if names(ps.take(j as int)).contains(p) {
                        let w = choose|w: int| 0 <= w < names(ps.take(j as int)).len() && #[trigger] names(ps.take(j as int))[w] == p;
                        assert(ps.take(j as int)[w] == ps[w]);
                        assert(ps.take(j + 1)[w] == ps[w]);
                        assert(names(ps.take(j + 1))[w] == p);
                        assert(names(ps.take(j + 1)).contains(p));
                    }
                    assert(!names(ps.take(j as int)).contains(p));
                    assert(instance_of(before, p) == instance_of(o, p));
                    assert(instance_of(*self, p) == instance_of(before, p));
                }
            }
            j = j + 1;
        }
        assert(ps.take(ps.len() as int) == ps);
        let ghost inst = instance;
        let ghost mid = *self;
        put_key(&mut self.instances, instance);
        proof {
            assert(instance_at(*self, instance_id@) == Some(inst));
            assert(forall|k: Seq<char>| k != instance_id@ ==> #[trigger] instance_at(*self, k) == instance_at(mid, k));
            assert(forall|i: int| 0 <= i < players@.len() ==> instance_of(*self, (#[trigger] players@[i])@) == Some(instance_id@));
            assert forall|p: Seq<char>| !names(players@).contains(p) implies #[trigger] instance_of(*self, p) == instance_of(*old(self), p) by {
                assert(names(ps.take(ps.len() as int)) == names(players@));
                assert(instance_of(mid, p) == instance_of(o, p));
            }
        }
        Ok(instance_id)
    }

    /// Opens an instance now (see `create_instance_at`).
    pub fn create_instance(&mut self, dungeon_id: &str, players: Vec<String>) -> (r: Result<String, MudError>)
        requires
            old(self).wf(),
        ensures
            exists|now: i64| #[trigger] create_instance_done(*old(self), *final(self), dungeon_id, players, now, r),
            final(self).wf(),
            dungeon_at(*old(self), dungeon_id@) is None ==> (r matches Err(MudError::NotFound(m)) && m@ == "副本 "@ + dungeon_id@ + " 不存在"@),
            r is Err ==> final(self).instances@ == old(self).instances@ && final(self).player_instances@ == old(self).player_instances@,
            r matches Ok(id) ==> instance_at(*final(self), id@) matches Some(x) && x.players@ == players@,
    {
        let now = current_timestamp();
        self.create_instance_at(dungeon_id, players, now)
    }

    /// Puts `player` last in instance `instance_id`. Fails without such an
    /// instance and when it holds five players.
    pub fn join_instance(&mut self, instance_id: &str, player: String) -> (r: Result<(), MudError>)
        requires
            old(self).wf(),
        ensures
            final(self).wf(),
            instance_at(*old(self), instance_id@) is None ==> (r matches Err(MudError::NotFound(m)) && m@ == "副本实例不存在"@),
            instance_at(*old(self), instance_id@) matches Some(x) ==> {
                &&& x.players@.len() >= 5 ==> (r matches Err(MudError::RuntimeError(m)) && m@ == "副本已满"@)
                &&& x.players@.len() < 5 ==> r is Ok && (instance_at(*final(self), instance_id@) matches Some(y)
                    && y.players@ == x.players@.push(player) && y == (DungeonInstance { players: y.players, ..x }))
                    && instance_of(*final(self), player@) == Some(instance_id@)
            },
            r is Err ==> final(self).instances@ == old(self).instances@ && final(self).player_instances@ == old(self).player_instances@,
            forall|k: Seq<char>| k != instance_id@ ==> #[trigger] instance_at(*final(self), k) == instance_at(*old(self), k),
            forall|p: Seq<char>| p != player@ ==> #[trigger] instance_of(*final(self), p) == instance_of(*old(self), p),
            final(self).dungeons@ == old(self).dungeons@,
    {
        let ghost o = *self;
        match get_key(&self.instances, instance_id) {
            Some(x) => {
                if x.players.len() >= 5 {
                    return Err(runtime_error("副本已满"));
                }
            },
            None => {
                return Err(not_found("副本实例不存在"));
            },
        }
        let mut x = take_key(&mut self.instances, instance_id).unwrap();
        let ghost pv = player@;
        x.players.push(player.clone());
        put_key(&mut self.instances, x);
        put_key(&mut self.player_instances, PlayerInstance { player, instance_id: string_of(instance_id) });
        proof {
            assert forall|p: Seq<char>| p != pv implies #[trigger] instance_of(*self, p) == instance_of(o, p) by {
                assert(key_get(self.player_instances@, p) == key_get(o.player_instances@, p));
            }
        }
        Ok(())
    }

    /// Takes `player` out of its instance; an instance left empty closes.
    /// Fails for a player in none.
    pub fn leave_instance(&mut self, player: &str) -> (r: Result<(), MudError>)
        requires
            old(self).wf(),
        ensures
            final(self).wf(),
            instance_of(*old(self), player@) is None ==> (r matches Err(MudError::NotFound(m)) && m@ == "玩家不在副本中"@)
                && final(self).instances@ == old(self).instances@ && final(self).player_instances@ == old(self).player_instances@,
            instance_of(*old(self), player@) matches Some(id) ==> {
                &&& r is Ok
                &&& instance_of(*final(self), player@) is None
                &&& (instance_at(*old(self), id) matches Some(x) ==> {
                    let left = without_str(x.players@, player@);
                    &&& left.len() == 0 ==> instance_at(*final(self), id) is None
                    &&& left.len() > 0 ==> (instance_at(*final(self), id) matches Some(y) && y.players@ == left
                        && y == (DungeonInstance { players: y.players, ..x }))
                })
                &&& instance_at(*old(self), id) is None ==> instance_at(*final(self), id) is None
                &&& forall|k: Seq<char>| k != id ==> #[trigger] instance_at(*final(self), k) == instance_at(*old(self), k)
            },
            forall|p: Seq<char>| p != player@ ==> #[trigger] instance_of(*final(self), p) == instance_of(*old(self), p),
            final(self).dungeons@ == old(self).dungeons@,
    {
        let ghost o = *self;
        let entry = match take_key(&mut self.player_instances, player) {
            Some(e) => e,
            None => {
                return Err(not_found("玩家不在副本中"));
            },
        };
        proof {
            assert forall|p: Seq<char>| p != player@ implies #[trigger] instance_of(*self, p) == instance_of(o, p) by {
                assert(key_get(self.player_instances@, p) == key_get(o.player_instances@, p));
            }
        }
        match take_key(&mut self.instances, entry.instance_id.as_str()) {
            Some(mut x) => {
                let kept = remove_all_str(&x.players, player);
                x.players = kept;
                if x.players.len() > 0 {
                    put_key(&mut self.instances, x);
                }
            },
            None => {},
        }
        Ok(())
    }

    /// The instance `player` is in.
    pub fn get_player_instance(&self, player: &str) -> (r: Option<&DungeonInstance>)
        ensures
            r matches Some(x) ==> instance_of(*self, player@) matches Some(id) && instance_at(*self, id) == Some(*x),
            r is None <==> (instance_of(*self, player@) matches Some(id) ==> instance_at(*self, id) is None),
    {
        match get_key(&self.player_instances, player) {
            Some(p) => get_key(&self.instances, p.instance_id.as_str()),
            None => None,
        }
    }

    /// The dungeon list: a heading, then each dungeon with its type, party
    /// size, levels and state (see `dungeon_entry`).
    pub fn format_dungeon_list(&self) -> (r: String)
        ensures
            r@ == "§H=== 副本列表 ===§N\n"@ + dungeon_entries(self.dungeons@),
    {
        let mut out = string_of("§H=== 副本列表 ===§N\n");
        let ghost head = out@;
        let gs = &self.dungeons;
        let mut i: usize = 0;
        while i < gs.len()
            invariant
                i <= gs@.len(),
                out@ == head + dungeon_entries(gs@.take(i as int)),
            decreases gs.len() - i,
        {
            assert(gs@.take(i as int + 1).drop_last() == gs@.take(i as int));
            assert(gs@.take(i as int + 1).last() == gs@[i as int]);
            push_dungeon_entry(&mut out, &gs[i]);
            i = i + 1;
        }
        assert(gs@.take(gs@.len() as int) == gs@);
        out
    }

    /// Adds the built-in boar cave (see `boar_cave`).
    pub fn init_default_dungeons(&mut self)
        requires
            old(self).wf(),
        ensures
            final(self).wf(),
            dungeon_at(*final(self), "newbie_cave"@) matches Some(g) && boar_cave(g),
            forall|k: Seq<char>| k != "newbie_cave"@ ==> #[trigger] dungeon_at(*final(self), k) == dungeon_at(*old(self), k),
            final(self).instances@ == old(self).instances@ && final(self).player_instances@ == old(self).player_instances@,
    {
        let mut rooms: Vec<String> = Vec::new();
        rooms.push(string_of("newbie_cave_1"));
        rooms.push(string_of("newbie_cave_2"));
        rooms.push(string_of("newbie_cave_boss"));
        let mut items: Vec<(String, i32)> = Vec::new();
        items.push((string_of("newbie_sword"), 1));
        let g = Dungeon {
            id: string_of("newbie_cave"),
            name: string_of("野猪洞穴"),
            dungeon_type: DungeonType::Solo,
            min_level: 1,
            max_level: 10,
            min_players: 1,
            max_players: 1,
            time_limit: 1800,
            status: DungeonStatus::Waiting,
            entrance_room: string_of("newbie_cave_entrance"),
            rooms,
            boss_npc: string_of("boar_king"),
            rewards: DungeonRewards { exp: 500, gold: 200, items },
        };
        assert(g.rooms@.map_values(|s: String| s@) =~= seq!["newbie_cave_1"@, "newbie_cave_2"@, "newbie_cave_boss"@]);
        assert(g.rewards.items@.map_values(|x: (String, i32)| (x.0@, x.1)) =~= seq![("newbie_sword"@, 1i32)]);
        self.add_dungeon(g);
    }
}

/// Appends a dungeon's entry.
#[verifier::rlimit(50)]
fn push_dungeon_entry(out: &mut String, g: &Dungeon)
    ensures
        final(out)@ == old(out)@ + dungeon_entry(*g),
{
    push_str(out, "§Y[");
    push_str(out, g.name.as_str());
    push_str(out, "]§N ");
    match g.dungeon_type {
        DungeonType::Solo => push_str(out, "单人"),
        DungeonType::Team => push_str(out, "组队"),
        DungeonType::Guild => push_str(out, "帮派"),
        DungeonType::WorldBoss => push_str(out, "世界BOSS"),
        DungeonType::Tower => push_str(out, "无限塔"),
    }
    push_str(out, " - ");
    push_i64(out, g.min_players as i64);
    push_str(out, "-");
    push_i64(out, g.max_players as i64);
    push_str(out, "人 - Lv.");
    push_i64(out, g.min_level as i64);
    push_str(out, "-");
    push_i64(out, g.max_level as i64);
    push_str(out, "\n  状态: ");
    match g.status {
        DungeonStatus::Closed => push_str(out, "§R关闭§N"),
        DungeonStatus::Waiting => push_str(out, "§G等待中§N"),
        DungeonStatus::InProgress => push_str(out, "§Y进行中§N"),
        DungeonStatus::Completed => push_str(out, "§C已完成§N"),
        DungeonStatus::Failed => push_str(out, "§R已失败§N"),
    }
    push_str(out, "\n");
    assert(out@ =~= old(out)@ + dungeon_entry(*g));
}

impl Default for FbdDaemon {
    fn default() -> (r: Self)
        ensures
            r.wf(),
            dungeon_at(r, "newbie_cave"@) matches Some(g) && boar_cave(g),
            r.instances@.len() == 0 && r.player_instances@.len() == 0,
    {
        let mut d = FbdDaemon::new();
        d.init_default_dungeons();
        d
    }
}

/// What `DungeonInstance::start_at` promises: `o` is the value before the call, `f` the value after.
pub open spec fn start_done(o: DungeonInstance, f: DungeonInstance, now: i64) -> bool {
    &&& (f == (DungeonInstance { started_at: Some(now), status: DungeonStatus::InProgress, ..o }))
}

/// What `DungeonInstance::complete_at` promises: `o` is the value before the call, `f` the value after.
pub open spec fn complete_done(o: DungeonInstance, f: DungeonInstance, now: i64) -> bool {
    &&& (f == (DungeonInstance { completed_at: Some(now), status: DungeonStatus::Completed, ..o }))
}

/// What `DungeonInstance::fail_at` promises: `o` is the value before the call, `f` the value after.
pub open spec fn fail_done(o: DungeonInstance, f: DungeonInstance, now: i64) -> bool {
    &&& (f == (DungeonInstance { completed_at: Some(now), status: DungeonStatus::Failed, ..o }))
}

/// What `FbdDaemon::create_instance_at` promises: `o` is the value before the call, `f` the value
/// after, `r` what it gives back.
pub open spec fn create_instance_done(
    o: FbdDaemon, f: FbdDaemon, dungeon_id: &str, players: Vec<String>, now: i64,
    r: Result<String, MudError>) -> bool {
    &&& (f.wf())
    &&& (dungeon_at(o, dungeon_id@) is None ==> (r matches Err(MudError::NotFound(m)) && m@ == "副本 "@ + dungeon_id@ + " 不存在"@))
    &&& (dungeon_at(o, dungeon_id@) is Some && (exists|i: int| first_busy(o, players@, i)) ==> {
        let i = choose|i: int| first_busy(o, players@, i);
        r matches Err(MudError::RuntimeError(m)) && m@ == "玩家 "@ + players@[i]@ + " 已在副本中"@
    })
    &&& (dungeon_at(o, dungeon_id@) matches Some(g) ==> ((forall|i: int| 0 <= i < players@.len() ==> instance_of(o, (#[trigger] players@[i])@) is None)
        && ((players@.len() as i32) < g.min_players || (players@.len() as i32) > g.max_players)
        ==> (r matches Err(MudError::RuntimeError(m)) && m@ == "人数不符合要求，需要 "@ + int_digits(g.min_players as int) + "-"@
            + int_digits(g.max_players as int) + " 人"@)))
    &&& (r is Err ==> f.dungeons@ == o.dungeons@ && f.instances@ == o.instances@
        && f.player_instances@ == o.player_instances@)
    &&& (dungeon_at(o, dungeon_id@) matches Some(g) ==> ((forall|i: int| 0 <= i < players@.len() ==> instance_of(o, (#[trigger] players@[i])@) is None)
        && !((players@.len() as i32) < g.min_players || (players@.len() as i32) > g.max_players) ==> r is Ok))
    &&& (r matches Ok(id) ==> {
        &&& id@ == instance_id_text(dungeon_id@, now as int)
        &&& instance_at(f, id@) matches Some(x) && x.dungeon_id@ == dungeon_id@ && x.players@ == players@
            && x.created_at == now && x.status == DungeonStatus::Waiting && x.started_at is None && x.completed_at is None
        &&& forall|k: Seq<char>| k != id@ ==> #[trigger] instance_at(f, k) == instance_at(o, k)
        &&& forall|i: int| 0 <= i < players@.len() ==> instance_of(f, (#[trigger] players@[i])@) == Some(id@)
        &&& forall|p: Seq<char>| !names(players@).contains(p) ==> #[trigger] instance_of(f, p) == instance_of(o, p)
        &&& f.dungeons@ == o.dungeons@
    })
}

/// What `DungeonInstance::new_at` promises: for the arguments given, `r` what it gives back.
pub open spec fn dungeon_instance_new_done(
    dungeon_id: String, players: Vec<String>, now: i64, r: DungeonInstance) -> bool {
    &&& (r.id@ == instance_id_text(dungeon_id@, now as int))
    &&& (r.dungeon_id == dungeon_id && r.players == players && r.created_at == now)
    &&& (r.started_at is None && r.completed_at is None && r.current_room_index == 0)
    &&& (r.killed_monsters@.len() == 0 && r.status == DungeonStatus::Waiting)
}

} // verus!
