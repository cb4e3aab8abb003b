//! Spawning: bosses that appear now and then in some zone of the world,
//! and ordinary NPCs that come back at their spawn points some time after
//! they die. Creating the NPC objects themselves is left to the caller:
//! the daemon says which returns fall due and takes back what came of them.
use vstd::prelude::*;
use crate::text::{push_str, push_i64, string_of, str_eq, str_replace, int_digits, replace_all};
use crate::util::{take_key, Keyed, key_get, key_in, keys_unique, put_key, without_str, remove_all_str};
use crate::outside::{current_timestamp, random_usize};
use crate::world::GameWorld;

verus! {

/// The zones a boss may appear in.
#[derive(Clone, Copy, Debug, PartialEq, Eq, Structural)]
pub enum SpawnZone {
    Jhxz,
    Dali,
    Beijing,
    Erenxia,
    Xueshan,
    Shenlong,
    Gmd,
    Sichou,
}

/// The code of zone `z`, as rooms name their zone.
pub open spec fn zone_code(z: SpawnZone) -> Seq<char> {
    match z {
        SpawnZone::Jhxz => "jhxz"@,
        SpawnZone::Dali => "dali"@,
        SpawnZone::Beijing => "beijing"@,
        SpawnZone::Erenxia => "erenxia"@,
        SpawnZone::Xueshan => "xueshan"@,
        SpawnZone::Shenlong => "shenlong"@,
        SpawnZone::Gmd => "gmd"@,
        SpawnZone::Sichou => "sichou"@,
    }
}

/// The name of zone `z`, as announcements give it.
pub open spec fn zone_title(z: SpawnZone) -> Seq<char> {
    match z {
        SpawnZone::Jhxz => "江湖小镇"@,
        SpawnZone::Dali => "大理"@,
        SpawnZone::Beijing => "北京"@,
        SpawnZone::Erenxia => "恶人峡"@,
        SpawnZone::Xueshan => "雪山"@,
        SpawnZone::Shenlong => "神龙"@,
        SpawnZone::Gmd => "广幕洞"@,
        SpawnZone::Sichou => "丝绸之路"@,
    }
}

impl SpawnZone {
    /// The zone's code.
    pub fn as_str(&self) -> (r: &'static str)
        ensures
            r@ == zone_code(*self),
    {
        match self {
            SpawnZone::Jhxz => "jhxz",
            SpawnZone::Dali => "dali",
            SpawnZone::Beijing => "beijing",
            SpawnZone::Erenxia => "erenxia",
            SpawnZone::Xueshan => "xueshan",
            SpawnZone::Shenlong => "shenlong",
            SpawnZone::Gmd => "gmd",
            SpawnZone::Sichou => "sichou",
        }
    }

    /// The zone whose code is `s`, if any.
    pub fn from_str(s: &str) -> (r: Option<Self>)
        ensures
            r matches Some(z) ==> zone_code(z) == s@,
            r is None ==> forall|z: SpawnZone| zone_code(z) != s@,
    {
        if str_eq(s, "jhxz") {
            Some(SpawnZone::Jhxz)
        } else if str_eq(s, "dali") {
            Some(SpawnZone::Dali)
        } else if str_eq(s, "beijing") {
            Some(SpawnZone::Beijing)
        } else if str_eq(s, "erenxia") {
            Some(SpawnZone::Erenxia)
        } else if str_eq(s, "xueshan") {
            Some(SpawnZone::Xueshan)
        } else if str_eq(s, "shenlong") {
            Some(SpawnZone::Shenlong)
        } else if str_eq(s, "gmd") {
            Some(SpawnZone::Gmd)
        } else if str_eq(s, "sichou") {
            Some(SpawnZone::Sichou)
        } else {
            assert forall|z: SpawnZone| zone_code(z) != s@ by {
                match z {
                    SpawnZone::Jhxz => {},
                    SpawnZone::Dali => {},
                    SpawnZone::Beijing => {},
                    SpawnZone::Erenxia => {},
                    SpawnZone::Xueshan => {},
                    SpawnZone::Shenlong => {},
                    SpawnZone::Gmd => {},
                    SpawnZone::Sichou => {},
                }
            }
            None
        }
    }
}

/// A spawn point of ordinary NPCs of one template in one room: at most
/// `max_count` alive at once, each coming back `respawn_time` seconds after
/// it died. A pending return is the time of death, the template and the room.
#[derive(Debug)]
pub struct NpcSpawnPoint {
    pub template_id: String,
    pub room_id: String,
    pub max_count: usize,
    pub respawn_time: u64,
    pub active_npcs: Vec<String>,
    pub pending_respawns: Vec<(i64, String, String)>,
}

impl NpcSpawnPoint {
    /// Whether another NPC fits.
    pub open spec fn can_spawn_spec(&self) -> bool {
        self.active_npcs@.len() < self.max_count
    }

    /// A point for one NPC coming back after 30 seconds.
    pub fn new(template_id: String, room_id: String) -> (r: Self)
        ensures
            r.template_id == template_id && r.room_id == room_id,
            r.max_count == 1 && r.respawn_time == 30,
            r.active_npcs@.len() == 0 && r.pending_respawns@.len() == 0,
    {
        NpcSpawnPoint { template_id, room_id, max_count: 1, respawn_time: 30, active_npcs: Vec::new(), pending_respawns: Vec::new() }
    }

    /// The point with room for `count` NPCs.
    pub fn with_max_count(self, count: usize) -> (r: Self)
        ensures
            r == (NpcSpawnPoint { max_count: count, ..self }),
    {
        NpcSpawnPoint { max_count: count, ..self }
    }

    /// The point with NPCs coming back after `seconds`.
    pub fn with_respawn_time(self, seconds: u64) -> (r: Self)
        ensures
            r == (NpcSpawnPoint { respawn_time: seconds, ..self }),
    {
        NpcSpawnPoint { respawn_time: seconds, ..self }
    }

    /// Whether another NPC fits.
    pub fn can_spawn(&self) -> (r: bool)
        ensures
            r == self.can_spawn_spec(),
    {
        self.active_npcs.len() < self.max_count
    }

    /// Forgets the living NPC `npc_id`.
    pub fn remove_npc(&mut self, npc_id: &str)
        ensures
            final(self).active_npcs@ == without_str(old(self).active_npcs@, npc_id@),
            final(self).template_id == old(self).template_id && final(self).room_id == old(self).room_id,
            final(self).max_count == old(self).max_count && final(self).respawn_time == old(self).respawn_time,
            final(self).pending_respawns == old(self).pending_respawns,
    {
        self.active_npcs = remove_all_str(&self.active_npcs, npc_id);
    }

    /// Notes a return of template `template_id` to room `room_id` for an NPC
    /// that died at `death_time`.
    pub fn add_pending_respawn(&mut self, death_time: i64, template_id: String, room_id: String)
        ensures
            final(self).pending_respawns@ == old(self).pending_respawns@.push((death_time, template_id, room_id)),
            final(self).template_id == old(self).template_id && final(self).room_id == old(self).room_id,
            final(self).max_count == old(self).max_count && final(self).respawn_time == old(self).respawn_time,
            final(self).active_npcs == old(self).active_npcs,
    {
        self.pending_respawns.push((death_time, template_id, room_id));
    }
}

/// A boss that appeared: where, when, until when, and whether it lives.
#[derive(Debug)]
pub struct SpawnedNpc {
    pub npc_id: String,
    pub room_id: String,
    pub zone: SpawnZone,
    pub spawned_at: i64,
    pub expires_at: i64,
    pub is_boss: bool,
    pub is_alive: bool,
}

impl SpawnedNpc {
    /// Whether the NPC is gone at `now`.
    pub open spec fn expired_at(&self, now: int) -> bool {
        now > self.expires_at
    }

    /// An NPC that appeared at `now` and stays `lifetime_seconds`.
    pub fn new_at(npc_id: String, room_id: String, zone: SpawnZone, lifetime_seconds: i64, is_boss: bool, now: i64) -> (r: Self)
        requires
            i64::MIN <= now + lifetime_seconds <= i64::MAX,
        ensures
            spawned_npc_new_done(npc_id, room_id, zone, lifetime_seconds, is_boss, now, r),
    {
        SpawnedNpc { npc_id, room_id, zone, spawned_at: now, expires_at: now + lifetime_seconds, is_boss, is_alive: true }
    }

    /// An NPC that appears now (see `new_at`).
    pub fn new(npc_id: String, room_id: String, zone: SpawnZone, lifetime_seconds: i64, is_boss: bool) -> (r: Self)
        requires
            -1_000_000_000_000_000_000 <= lifetime_seconds <= 1_000_000_000_000_000_000,
        ensures
            exists|now: i64| #[trigger] spawned_npc_new_done(npc_id, room_id, zone, lifetime_seconds, is_boss, now, r),
            r.npc_id == npc_id && r.room_id == room_id && r.zone == zone && r.is_boss == is_boss && r.is_alive,
            r.expires_at == r.spawned_at + lifetime_seconds,
    {
        let now = current_timestamp();
        Self::new_at(npc_id, room_id, zone, lifetime_seconds, is_boss, now)
    }

    /// Whether the NPC is gone at `now`: `now` is past its end.
    pub fn is_expired_at(&self, now: i64) -> (r: bool)
        ensures
            r == self.expired_at(now as int),
    {
        now > self.expires_at
    }

    /// Whether the NPC is gone now.
    pub fn is_expired(&self) -> (r: bool)
        ensures
            exists|now: int| r == #[trigger] self.expired_at(now),
    {
        let now = current_timestamp();
        self.is_expired_at(now)
    }
}

/// How a boss appears: in one of `zones`, once per `respawn_interval`
/// seconds, for `lifetime` seconds, when `min_online_players` are on line,
/// with an announcement in which `$ZONE`, `$NAME` and `$OR` are filled in.
#[derive(Debug)]
pub struct BossConfig {
    pub npc_id: String,
    pub name: String,
    pub zones: Vec<SpawnZone>,
    pub respawn_interval: i64,
    pub lifetime: i64,
    pub min_online_players: usize,
    pub broadcast_message: String,
}

/// The values of a boss configuration.
pub open spec fn boss_row(c: BossConfig) -> (Seq<char>, Seq<char>, Seq<SpawnZone>, i64, i64, usize, Seq<char>) {
    (c.npc_id@, c.name@, c.zones@, c.respawn_interval, c.lifetime, c.min_online_players, c.broadcast_message@)
}

/// The zones of the first boss.
pub open spec fn five_zones() -> Seq<SpawnZone> {
    seq![SpawnZone::Jhxz, SpawnZone::Dali, SpawnZone::Erenxia, SpawnZone::Sichou, SpawnZone::Xueshan]
}

/// The zones of the dragons.
pub open spec fn seven_zones() -> Seq<SpawnZone> {
    seq![SpawnZone::Jhxz, SpawnZone::Dali, SpawnZone::Beijing, SpawnZone::Erenxia, SpawnZone::Xueshan,
        SpawnZone::Shenlong, SpawnZone::Gmd]
}

/// The bosses the game knows.
pub open spec fn default_boss_rows() -> Seq<(Seq<char>, Seq<char>, Seq<SpawnZone>, i64, i64, usize, Seq<char>)> {
    seq![
        ("boss_miaofengshi"@, "飘风剑使者"@, five_zones(), 3600i64, 3600i64, 3usize, "出现了$ZONE$NAME，此人行踪诡异定有蹊跷！"@),
        ("boss_guanglong"@, "三阶剑气光龙"@, seven_zones(), 7200i64, 1200i64, 3usize, "$ZONE突然出现 $NAME！"@),
        ("boss_guanglong_cai"@, "三阶剑气彩光龙"@, seven_zones(), 14400i64, 1200i64, 3usize, "$ZONE突然出现 §H$NAME§N！"@),
        ("boss_guanglong_cai2"@, "三阶剑气彩光龙(二阶)"@, seven_zones(), 14400i64, 1200i64, 3usize, "$ZONE突然出现 §Y$NAME§N！"@),
        ("boss_guanglong_cai3"@, "三阶剑气彩光龙(三阶)"@, seven_zones(), 14400i64, 1200i64, 3usize, "$OR突然出现 §R$NAME§N！"@),
    ]
}

fn zones_five() -> (r: Vec<SpawnZone>)
    ensures
        r@ == five_zones(),
{
    let mut v: Vec<SpawnZone> = Vec::new();
    v.push(SpawnZone::Jhxz);
    v.push(SpawnZone::Dali);
    v.push(SpawnZone::Erenxia);
    v.push(SpawnZone::Sichou);
    v.push(SpawnZone::Xueshan);
    assert(v@ =~= five_zones());
    v
}

fn zones_seven() -> (r: Vec<SpawnZone>)
    ensures
        r@ == seven_zones(),
{
    let mut v: Vec<SpawnZone> = Vec::new();
    v.push(SpawnZone::Jhxz);
    v.push(SpawnZone::Dali);
    v.push(SpawnZone::Beijing);
    v.push(SpawnZone::Erenxia);
    v.push(SpawnZone::Xueshan);
    v.push(SpawnZone::Shenlong);
    v.push(SpawnZone::Gmd);
    assert(v@ =~= seven_zones());
    v
}

fn make_boss(id: &str, name: &str, zones: Vec<SpawnZone>, interval: i64, lifetime: i64, msg: &str) -> (r: BossConfig)
    ensures
        boss_row(r) == (id@, name@, zones@, interval, lifetime, 3usize, msg@),
{
    BossConfig {
        npc_id: string_of(id),
        name: string_of(name),
        zones,
        respawn_interval: interval,
        lifetime,
        min_online_players: 3,
        broadcast_message: string_of(msg),
    }
}

/// A boss that appeared, under the id it was filed by.
#[derive(Debug)]
pub struct SpawnEntry {
    pub spawn_id: String,
    pub npc: SpawnedNpc,
}

impl Keyed for SpawnEntry {
    open spec fn key_view(&self) -> Seq<char> {
        self.spawn_id@
    }

    fn key(&self) -> (r: &String) {
        &self.spawn_id
    }
}

/// When boss `npc_id` last appeared.
#[derive(Debug)]
pub struct LastSpawn {
    pub npc_id: String,
    pub time: i64,
}

impl Keyed for LastSpawn {
    open spec fn key_view(&self) -> Seq<char> {
        self.npc_id@
    }

    fn key(&self) -> (r: &String) {
        &self.npc_id
    }
}

/// The spawn points of one room.
#[derive(Debug)]
pub struct RoomSpawns {
    pub room_id: String,
    pub spawns: Vec<NpcSpawnPoint>,
}

impl Keyed for RoomSpawns {
    open spec fn key_view(&self) -> Seq<char> {
        self.room_id@
    }

    fn key(&self) -> (r: &String) {
        &self.room_id
    }
}

/// The spawner: bosses that appeared, the boss table, when each boss last
/// appeared, how many players are on line, and the spawn points by room.
#[derive(Debug)]
pub struct SpawnDaemon {
    pub spawned_npcs: Vec<SpawnEntry>,
    pub boss_configs: Vec<BossConfig>,
    pub last_spawn_times: Vec<LastSpawn>,
    pub online_players: usize,
    pub npc_spawn_points: Vec<RoomSpawns>,
}

/// The spawn points of room `room` (none for a room without any).
pub open spec fn spawns_of(d: SpawnDaemon, room: Seq<char>) -> Seq<NpcSpawnPoint> {
    match key_get(d.npc_spawn_points@, room) {
        Some(r) => r.spawns@,
        None => seq![],
    }
}

/// The room the game starts with spawn points in.
pub open spec fn start_room() -> Seq<char> {
    "xinshoucun/changetang"@
}

/// `p` is a fresh point of template `t` in the start room, for `n` NPCs
/// coming back after `secs`.
pub open spec fn start_point(p: NpcSpawnPoint, t: Seq<char>, n: usize, secs: u64) -> bool {
    p.template_id@ == t && p.room_id@ == start_room() && p.max_count == n && p.respawn_time == secs
        && p.active_npcs@.len() == 0 && p.pending_respawns@.len() == 0
}

impl SpawnDaemon {
    /// No two rooms share an entry.
    pub open spec fn wf(&self) -> bool {
        keys_unique(self.npc_spawn_points@)
    }

    /// The spawner with the boss table, no bosses about, nobody on line,
    /// and the spawn points of the start room: wolves (3, back after 30
    /// seconds) and villagers (5, back after 60 seconds).
    pub fn new() -> (r: Self)
        ensures
            r.wf(),
            r.boss_configs@.map_values(|c: BossConfig| boss_row(c)) == default_boss_rows(),
            r.spawned_npcs@.len() == 0 && r.last_spawn_times@.len() == 0 && r.online_players == 0,
            spawns_of(r, start_room()).len() == 2,
            start_point(spawns_of(r, start_room())[0], "mob/wolf"@, 3, 30),
            start_point(spawns_of(r, start_room())[1], "npc/villager"@, 5, 60),
    {
        let mut d = SpawnDaemon {
            spawned_npcs: Vec::new(),
            boss_configs: Vec::new(),
            last_spawn_times: Vec::new(),
            online_players: 0,
            npc_spawn_points: Vec::new(),
        };
        d.boss_configs.push(make_boss("boss_miaofengshi", "飘风剑使者", zones_five(), 3600, 3600,
            "出现了$ZONE$NAME，此人行踪诡异定有蹊跷！"));
        d.boss_configs.push(make_boss("boss_guanglong", "三阶剑气光龙", zones_seven(), 7200, 1200, "$ZONE突然出现 $NAME！"));
        d.boss_configs.push(make_boss("boss_guanglong_cai", "三阶剑气彩光龙", zones_seven(), 14400, 1200,
            "$ZONE突然出现 §H$NAME§N！"));
        d.boss_configs.push(make_boss("boss_guanglong_cai2", "三阶剑气彩光龙(二阶)", zones_seven(), 14400, 1200,
            "$ZONE突然出现 §Y$NAME§N！"));
        d.boss_configs.push(make_boss("boss_guanglong_cai3", "三阶剑气彩光龙(三阶)", zones_seven(), 14400, 1200,
            "$OR突然出现 §R$NAME§N！"));
        assert(d.boss_configs@.map_values(|c: BossConfig| boss_row(c)) =~= default_boss_rows());
        let ghost bosses = d.boss_configs@;
        d.add_npc_spawn_point(NpcSpawnPoint::new(string_of("mob/wolf"), string_of("xinshoucun/changetang"))
            .with_max_count(3).with_respawn_time(30));
        d.add_npc_spawn_point(NpcSpawnPoint::new(string_of("npc/villager"), string_of("xinshoucun/changetang"))
            .with_max_count(5).with_respawn_time(60));
        d
    }

    /// Adds spawn point `spawn` after the others of its room.
    pub fn add_npc_spawn_point(&mut self, spawn: NpcSpawnPoint)
        requires
            old(self).wf(),
        ensures
            final(self).wf(),
            spawns_of(*final(self), spawn.room_id@) == spawns_of(*old(self), spawn.room_id@).push(spawn),
            forall|k: Seq<char>| k != spawn.room_id@ ==> #[trigger] spawns_of(*final(self), k) == spawns_of(*old(self), k),
            final(self).spawned_npcs == old(self).spawned_npcs && final(self).boss_configs == old(self).boss_configs,
            final(self).last_spawn_times == old(self).last_spawn_times && final(self).online_players == old(self).online_players,
    {
        let ghost o = *self;
        let ghost sp = spawn;
        let room_id = spawn.room_id.clone();
        proof {
            crate::util::lemma_key_in_get(self.npc_spawn_points@, room_id@);
            if key_in(self.npc_spawn_points@, room_id@) {
                crate::util::lemma_key_first(self.npc_spawn_points@, room_id@);
            }
        }
        let mut rs = match take_key(&mut self.npc_spawn_points, room_id.as_str()) {
            Some(rs) => rs,
            None => RoomSpawns { room_id: room_id.clone(), spawns: Vec::new() },
        };
        rs.spawns.push(spawn);
        let ghost mid = self.npc_spawn_points@;
        proof { crate::util::lemma_key_in_get(mid, room_id@); }
        put_key(&mut self.npc_spawn_points, rs);
        proof {
            assert forall|k: Seq<char>| k != sp.room_id@ implies #[trigger] spawns_of(*self, k) == spawns_of(o, k) by {
                assert(key_get(self.npc_spawn_points@, k) == key_get(mid, k));
            }
        }
    }

    /// Sets how many players are on line.
    pub fn update_online_players(&mut self, count: usize)
        ensures
            *final(self) == (SpawnDaemon { online_players: count, ..*old(self) }),
    {
        self.online_players = count;
    }
}

/// Entry `e` is a living boss `id` not yet gone at `now`.
pub open spec fn boss_about(e: SpawnEntry, id: Seq<char>, now: int) -> bool {
    e.npc.npc_id@ == id && e.npc.is_alive && !e.npc.expired_at(now)
}

/// Whether boss `c` may appear at `now`: enough players are on line, its
/// interval has passed since it last appeared, and it is not about already.
pub open spec fn may_spawn(d: SpawnDaemon, c: BossConfig, now: int) -> bool {
    &&& d.online_players >= c.min_online_players
    &&& (key_get(d.last_spawn_times@, c.npc_id@) matches Some(l) ==> now - l.time >= c.respawn_interval)
    &&& !exists|i: int| 0 <= i < d.spawned_npcs@.len() && boss_about(#[trigger] d.spawned_npcs@[i], c.npc_id@, now)
}

/// The id a boss `id` that appeared at `now` is filed by.
pub open spec fn spawn_key(id: Seq<char>, now: int) -> Seq<char> {
    "spawn_"@ + id + "_"@ + int_digits(now)
}

/// Room `i` of `w` lies in the zone with code `code`.
pub open spec fn in_zone(w: GameWorld, code: Seq<char>, i: int) -> bool {
    0 <= i < w.rooms@.len() && w.rooms@[i].zone@ == code
}

/// Some room of `w` lies in the zone with code `code`.
pub open spec fn zone_has_room(w: GameWorld, code: Seq<char>) -> bool {
    exists|i: int| #[trigger] in_zone(w, code, i)
}

/// An entry is kept by a clean-up at `now`: it is alive or not yet gone.
pub open spec fn kept_at(e: SpawnEntry, now: int) -> bool {
    !e.npc.expired_at(now) || e.npc.is_alive
}

/// The entries of `s` kept by a clean-up at `now`, in order.
pub open spec fn kept_spawns(s: Seq<SpawnEntry>, now: int) -> Seq<SpawnEntry> {
    s.filter(|e: SpawnEntry| kept_at(e, now))
}

/// `i` is the first entry of `s` that is boss `id` alive.
pub open spec fn first_alive(s: Seq<SpawnEntry>, id: Seq<char>, i: int) -> bool {
    &&& 0 <= i < s.len() && s[i].npc.npc_id@ == id && s[i].npc.is_alive
    &&& forall|j: int| 0 <= j < i ==> !(s[j].npc.npc_id@ == id && s[j].npc.is_alive)
}

/// Some entry of `s` is boss `id` alive.
pub open spec fn some_alive(s: Seq<SpawnEntry>, id: Seq<char>) -> bool {
    exists|i: int| 0 <= i < s.len() && (#[trigger] s[i]).npc.npc_id@ == id && s[i].npc.is_alive
}

/// The bosses of `s` alive and not gone at `now`, in order.
pub open spec fn active_bosses(s: Seq<SpawnEntry>, now: int) -> Seq<SpawnedNpc>
    decreases s.len(),
{
    if s.len() == 0 {
        seq![]
    } else {
        let rest = active_bosses(s.drop_last(), now);
        let n = s.last().npc;
        if n.is_boss && n.is_alive && !n.expired_at(now) { rest.push(n) } else { rest }
    }
}

/// The status line of boss `n`.
pub open spec fn boss_status_text(n: SpawnedNpc) -> Seq<char> {
    "Boss: "@ + n.npc_id@ + " - 所在区域: "@ + zone_code(n.zone) + " - 刷新时间: "@ + int_digits(n.spawned_at as int)
        + " - 过期时间: "@ + int_digits(n.expires_at as int)
}

/// The announcement of boss `c` in zone `z`.
pub open spec fn broadcast_text(c: BossConfig, z: SpawnZone) -> Seq<char> {
    "§Y[游戏公告]§N "@ + replace_all(replace_all(replace_all(c.broadcast_message@, "$ZONE"@, zone_title(z)), "$NAME"@, c.name@),
        "$OR"@, zone_title(z))
}

impl SpawnDaemon {
    /// Whether boss `config` may appear at `now` (see `may_spawn`).
    pub fn can_spawn_at(&self, config: &BossConfig, now: i64) -> (r: bool)
        ensures
            r == may_spawn(*self, *config, now as int),
    {
        if self.online_players < config.min_online_players {
            return false;
        }
        match crate::util::get_key(&self.last_spawn_times, config.npc_id.as_str()) {
            Some(l) => {
                if (now as i128) - (l.time as i128) < (config.respawn_interval as i128) {
                    return false;
                }
            },
            None => {},
        }
        let mut i: usize = 0;
        while i < self.spawned_npcs.len()
            invariant
                i <= self.spawned_npcs@.len(),
                forall|j: int| 0 <= j < i ==> !boss_about(#[trigger] self.spawned_npcs@[j], config.npc_id@, now as int),
            decreases self.spawned_npcs.len() - i,
        {
            let n = &self.spawned_npcs[i].npc;
            if str_eq(n.npc_id.as_str(), config.npc_id.as_str()) && n.is_alive && !n.is_expired_at(now) {
                assert(boss_about(self.spawned_npcs@[i as int], config.npc_id@, now as int));
                return false;
            }
            i = i + 1;
        }
        true
    }

    /// Whether boss `config` may appear now.
    pub fn can_spawn(&self, config: &BossConfig) -> (r: bool)
        ensures
            exists|now: int| r == #[trigger] may_spawn(*self, *config, now),
    {
        let now = current_timestamp();
        self.can_spawn_at(config, now)
    }

    /// Lets boss `config` appear at `now`, where it may (see `may_spawn`):
    /// in a zone of its list picked by chance, in a room of that zone of
    /// `world` with danger picked by chance (the zone's first room after
    /// 51 draws without one). The boss is filed under `spawn_<id>_<now>`
    /// and `now` noted as its last appearance. Nothing happens, and none is
    /// given back, where it may not or the zone picked has no room.
    pub fn spawn_boss_at(&mut self, config: &BossConfig, world: &GameWorld, now: i64) -> (r: Option<SpawnedNpc>)
        requires
            may_spawn(*old(self), *config, now as int) ==> config.zones@.len() > 0
                && i64::MIN <= now + config.lifetime <= i64::MAX,
        ensures
            spawn_boss_done(*old(self), *final(self), config, world, now, r),
    {
        if !self.can_spawn_at(config, now) {
            return None;
        }
        let zi = random_usize() % config.zones.len();
        let zone = config.zones[zi];
        let code = zone.as_str();
        let rooms = &world.rooms;
        let mut zone_rooms: Vec<usize> = Vec::new();
        let mut i: usize = 0;
        while i < rooms.len()
            invariant
                i <= rooms@.len(),
                code@ == zone_code(zone),
                forall|t: int| 0 <= t < zone_rooms@.len() ==> in_zone(*world, code@, #[trigger] zone_rooms@[t] as int),
                forall|j: int| 0 <= j < i && in_zone(*world, code@, j) ==> zone_rooms@.len() > 0,
                zone_rooms@.len() > 0 ==> forall|j: int| 0 <= j < zone_rooms@[0] ==> !in_zone(*world, code@, j),
                zone_rooms@.len() == 0 ==> forall|j: int| 0 <= j < i ==> !in_zone(*world, code@, j),
                rooms == &world.rooms,
            decreases rooms.len() - i,
        {
            if str_eq(rooms[i].zone.as_str(), code) {
                zone_rooms.push(i);
            }
            i = i + 1;
        }
        if zone_rooms.len() == 0 {
            proof {
                assert(!zone_has_room(*world, zone_code(zone)));
                assert(config.zones@[zi as int] == zone);
            }
            return None;
        }
        let mut pick: usize = zone_rooms[0];
        let mut attempts: usize = 0;
        let mut found = false;
        while !found && attempts < 51
            invariant
                zone_rooms@.len() > 0,
                forall|t: int| 0 <= t < zone_rooms@.len() ==> in_zone(*world, code@, #[trigger] zone_rooms@[t] as int),
                forall|j: int| 0 <= j < zone_rooms@[0] ==> !in_zone(*world, code@, j),
                rooms == &world.rooms,
                code@ == zone_code(zone),
                attempts <= 51,
                in_zone(*world, code@, pick as int),
                found ==> world.rooms@[pick as int].danger_level > 0,
                !found ==> pick == zone_rooms@[0],
            decreases 51 - attempts, if found { 0int } else { 1int },
        {
            let c = zone_rooms[random_usize() % zone_rooms.len()];
            if rooms[c].danger_level > 0 {
                pick = c;
                found = true;
            } else {
                attempts = attempts + 1;
            }
        }
        assert(in_zone(*world, code@, pick as int));
        let mut key = string_of("spawn_");
        push_str(&mut key, config.npc_id.as_str());
        push_str(&mut key, "_");
        push_i64(&mut key, now);
        let filed = SpawnedNpc::new_at(config.npc_id.clone(), rooms[pick].id.clone(), zone, config.lifetime, true, now);
        let given = SpawnedNpc::new_at(config.npc_id.clone(), rooms[pick].id.clone(), zone, config.lifetime, true, now);
        put_key(&mut self.spawned_npcs, SpawnEntry { spawn_id: key, npc: filed });
        put_key(&mut self.last_spawn_times, LastSpawn { npc_id: config.npc_id.clone(), time: now });
        proof {
            assert(config.zones@[zi as int] == zone);
            assert(key@ == spawn_key(config.npc_id@, now as int));
            assert(world.rooms@[pick as int].id == given.room_id);
            assert(filed == given);
        }
        Some(given)
    }
}

impl SpawnDaemon {
    /// Lets boss `config` appear now, where it may (see `spawn_boss_at`).
    pub fn spawn_boss(&mut self, config: &BossConfig, world: &GameWorld) -> (r: Option<SpawnedNpc>)
        requires
            config.zones@.len() > 0,
            -1_000_000_000_000_000_000 <= config.lifetime <= 1_000_000_000_000_000_000,
        ensures
            exists|now: i64| #[trigger] spawn_boss_done(*old(self), *final(self), config, world, now, r),
            r is None ==> *final(self) == *old(self),
            r matches Some(n) ==> n.npc_id == config.npc_id && config.zones@.contains(n.zone) && n.is_boss && n.is_alive
                && n.expires_at == n.spawned_at + config.lifetime
                && (key_get(final(self).last_spawn_times@, config.npc_id@) matches Some(l) && l.time == n.spawned_at),
    {
        let now = current_timestamp();
        self.spawn_boss_at(config, world, now)
    }

    /// Drops the bosses that are dead and gone at `now`, the others staying
    /// in order; gives back how many were dropped.
    pub fn cleanup_expired_at(&mut self, now: i64) -> (r: usize)
        ensures
            final(self).spawned_npcs@ == kept_spawns(old(self).spawned_npcs@, now as int),
            r == old(self).spawned_npcs@.len() - final(self).spawned_npcs@.len(),
            final(self).boss_configs == old(self).boss_configs && final(self).last_spawn_times == old(self).last_spawn_times,
            final(self).online_players == old(self).online_players && final(self).npc_spawn_points == old(self).npc_spawn_points,
    {
        let mut all: Vec<SpawnEntry> = Vec::new();
        std::mem::swap(&mut all, &mut self.spawned_npcs);
        let ghost s0 = all@;
        let before = all.len();
        let mut kept: Vec<SpawnEntry> = Vec::new();
        let mut rev: Vec<SpawnEntry> = Vec::new();
        while all.len() > 0
            invariant
                all@.len() <= s0.len(),
                all@ == s0.take(all@.len() as int),
                rev@.len() == s0.len() - all@.len(),
                forall|t: int| 0 <= t < rev@.len() ==> rev@[t] == s0[s0.len() - 1 - t],
            decreases all.len(),
        {
            let ghost n = all@.len();
            let e = all.pop().unwrap();
            rev.push(e);
            assert(all@ =~= s0.take(n - 1));
        }
        let ghost total = rev@.len();
        while rev.len() > 0
            invariant
                rev@.len() <= total,
                total == s0.len(),
                forall|t: int| 0 <= t < rev@.len() ==> rev@[t] == s0[s0.len() - 1 - t],
                kept@ == kept_spawns(s0.take(s0.len() - rev@.len()), now as int),
            decreases rev.len(),
        {
            let ghost m = s0.len() - rev@.len();
            let e = rev.pop().unwrap();
            proof {
                assert(e == s0[m]);
                assert(s0.take(m + 1) =~= s0.take(m).push(e));
                s0.take(m).lemma_filter_push(e, |x: SpawnEntry| kept_at(x, now as int));
            }
            if !e.npc.is_expired_at(now) || e.npc.is_alive {
                kept.push(e);
            }
        }
        proof {
            assert(s0.take(s0.len() as int) =~= s0);
            s0.lemma_filter_len(|x: SpawnEntry| kept_at(x, now as int));
        }
        self.spawned_npcs = kept;
        before - self.spawned_npcs.len()
    }

    /// Drops the bosses that are dead and gone now (see `cleanup_expired_at`).
    pub fn cleanup_expired(&mut self) -> (r: usize)
        ensures
            exists|now: int| final(self).spawned_npcs@ == #[trigger] kept_spawns(old(self).spawned_npcs@, now),
            r == old(self).spawned_npcs@.len() - final(self).spawned_npcs@.len(),
            final(self).boss_configs == old(self).boss_configs && final(self).last_spawn_times == old(self).last_spawn_times,
            final(self).online_players == old(self).online_players && final(self).npc_spawn_points == old(self).npc_spawn_points,
    {
        let now = current_timestamp();
        self.cleanup_expired_at(now)
    }

    /// Boss `npc_id` was beaten by `killer_name`: its first living entry
    /// dies, and the announcement `<id> 被 <killer> 击败了！` is given back;
    /// nothing changes and the text is empty without a living entry.
    pub fn on_npc_killed(&mut self, npc_id: &str, killer_name: &str) -> (r: String)
        ensures
            some_alive(old(self).spawned_npcs@, npc_id@) ==> {
                &&& r@ == npc_id@ + " 被 "@ + killer_name@ + " 击败了！"@
                &&& exists|i: int| first_alive(old(self).spawned_npcs@, npc_id@, i)
                    && final(self).spawned_npcs@ == old(self).spawned_npcs@.update(i, SpawnEntry {
                        npc: SpawnedNpc { is_alive: false, ..old(self).spawned_npcs@[i].npc }, ..old(self).spawned_npcs@[i] })
            },
            !some_alive(old(self).spawned_npcs@, npc_id@) ==> r@ == Seq::<char>::empty() && final(self).spawned_npcs == old(self).spawned_npcs,
            final(self).boss_configs == old(self).boss_configs && final(self).last_spawn_times == old(self).last_spawn_times,
            final(self).online_players == old(self).online_players && final(self).npc_spawn_points == old(self).npc_spawn_points,
    {
        let mut i: usize = 0;
        while i < self.spawned_npcs.len()
            invariant
                i <= self.spawned_npcs@.len(),
                *self == *old(self),
                forall|j: int| 0 <= j < i ==> !(self.spawned_npcs@[j].npc.npc_id@ == npc_id@ && self.spawned_npcs@[j].npc.is_alive),
            decreases self.spawned_npcs.len() - i,
        {
            if str_eq(self.spawned_npcs[i].npc.npc_id.as_str(), npc_id) && self.spawned_npcs[i].npc.is_alive {
                let ghost o = self.spawned_npcs@;
                let mut e = self.spawned_npcs.remove(i);
                e.npc.is_alive = false;
                self.spawned_npcs.insert(i, e);
                proof {
                    assert(first_alive(o, npc_id@, i as int));
                    assert(some_alive(o, npc_id@));
                    assert(self.spawned_npcs@ =~= o.update(i as int, SpawnEntry {
                        npc: SpawnedNpc { is_alive: false, ..o[i as int].npc }, ..o[i as int] }));
                }
                let mut msg = string_of(npc_id);
                push_str(&mut msg, " 被 ");
                push_str(&mut msg, killer_name);
                push_str(&mut msg, " 击败了！");
                return msg;
            }
            i = i + 1;
        }
        proof {
            if some_alive(old(self).spawned_npcs@, npc_id@) {
                let k = choose|k: int| 0 <= k < old(self).spawned_npcs@.len() && (#[trigger] old(self).spawned_npcs@[k]).npc.npc_id@ == npc_id@
                    && old(self).spawned_npcs@[k].npc.is_alive;
                assert(!(self.spawned_npcs@[k].npc.npc_id@ == npc_id@ && self.spawned_npcs@[k].npc.is_alive));
            }
        }
        String::new()
    }

    /// The bosses alive and not gone at `now`, in order.
    pub fn get_active_bosses_at(&self, now: i64) -> (r: Vec<&SpawnedNpc>)
        ensures
            r@.map_values(|n: &SpawnedNpc| *n) == active_bosses(self.spawned_npcs@, now as int),
    {
        let s = &self.spawned_npcs;
        let mut r: Vec<&SpawnedNpc> = Vec::new();
        let mut i: usize = 0;
        while i < s.len()
            invariant
                i <= s@.len(),
                r@.map_values(|n: &SpawnedNpc| *n) == active_bosses(s@.take(i as int), now as int),
            decreases s.len() - i,
        {
            assert(s@.take(i as int + 1).drop_last() == s@.take(i as int));
            assert(s@.take(i as int + 1).last() == s@[i as int]);
            let ghost before = r@;
            let n = &s[i].npc;
            if n.is_boss && n.is_alive && !n.is_expired_at(now) {
                r.push(n);
                assert(r@ == before.push(&s@[i as int].npc));
            }
            assert(r@.map_values(|n: &SpawnedNpc| *n) =~= active_bosses(s@.take(i as int + 1), now as int));
            i = i + 1;
        }
        assert(s@.take(s@.len() as int) == s@);
        r
    }

    /// The bosses alive and not gone now (see `get_active_bosses_at`).
    pub fn get_active_bosses(&self) -> (r: Vec<&SpawnedNpc>)
        ensures
            exists|now: int| r@.map_values(|n: &SpawnedNpc| *n) == #[trigger] active_bosses(self.spawned_npcs@, now),
    {
        let now = current_timestamp();
        self.get_active_bosses_at(now)
    }

    /// The status line of the first living entry of boss `npc_id` (see
    /// `boss_status_text`), none without one.
    pub fn get_boss_status(&self, npc_id: &str) -> (r: Option<String>)
        ensures
            !some_alive(self.spawned_npcs@, npc_id@) ==> r is None,
            some_alive(self.spawned_npcs@, npc_id@) ==> exists|i: int| first_alive(self.spawned_npcs@, npc_id@, i)
                && (r matches Some(t) && t@ == boss_status_text(self.spawned_npcs@[i].npc)),
    {
        let mut i: usize = 0;
        while i < self.spawned_npcs.len()
            invariant
                i <= self.spawned_npcs@.len(),
                forall|j: int| 0 <= j < i ==> !(self.spawned_npcs@[j].npc.npc_id@ == npc_id@ && self.spawned_npcs@[j].npc.is_alive),
            decreases self.spawned_npcs.len() - i,
        {
            let n = &self.spawned_npcs[i].npc;
            if str_eq(n.npc_id.as_str(), npc_id) && n.is_alive {
                let mut t = string_of("Boss: ");
                push_str(&mut t, n.npc_id.as_str());
                push_str(&mut t, " - 所在区域: ");
                push_str(&mut t, n.zone.as_str());
                push_str(&mut t, " - 刷新时间: ");
                push_i64(&mut t, n.spawned_at);
                push_str(&mut t, " - 过期时间: ");
                push_i64(&mut t, n.expires_at);
                assert(first_alive(self.spawned_npcs@, npc_id@, i as int));
                assert(t@ =~= boss_status_text(self.spawned_npcs@[i as int].npc));
                return Some(t);
            }
            i = i + 1;
        }
        None
    }

    /// The announcement of boss `config` in `zone` (see `broadcast_text`).
    pub fn format_broadcast(&self, config: &BossConfig, zone: &SpawnZone) -> (r: String)
        ensures
            r@ == broadcast_text(*config, *zone),
    {
        let zone_name: &str = match zone {
            SpawnZone::Jhxz => "江湖小镇",
            SpawnZone::Dali => "大理",
            SpawnZone::Beijing => "北京",
            SpawnZone::Erenxia => "恶人峡",
            SpawnZone::Xueshan => "雪山",
            SpawnZone::Shenlong => "神龙",
            SpawnZone::Gmd => "广幕洞",
            SpawnZone::Sichou => "丝绸之路",
        };
        proof {
            reveal_strlit("$ZONE");
            reveal_strlit("$NAME");
            reveal_strlit("$OR");
        }
        let a = str_replace(config.broadcast_message.as_str(), "$ZONE", zone_name);
        let b = str_replace(a.as_str(), "$NAME", config.name.as_str());
        let c = str_replace(b.as_str(), "$OR", zone_name);
        let mut out = string_of("§Y[游戏公告]§N ");
        push_str(&mut out, c.as_str());
        out
    }
}

/// Point `q` is point `p` after NPC `npc` of template `t` died in room
/// `room` at `now`: a point of that template forgets the NPC and notes its
/// return; any other point stays as it was.
pub open spec fn died_at_point(p: NpcSpawnPoint, q: NpcSpawnPoint, npc: Seq<char>, t: Seq<char>, room: Seq<char>, now: i64) -> bool {
    &&& q.template_id == p.template_id && q.room_id == p.room_id
    &&& q.max_count == p.max_count && q.respawn_time == p.respawn_time
    &&& p.template_id@ == t ==> {
        &&& q.active_npcs@ == without_str(p.active_npcs@, npc)
        &&& q.pending_respawns@.len() == p.pending_respawns@.len() + 1
        &&& q.pending_respawns@.take(p.pending_respawns@.len() as int) == p.pending_respawns@
        &&& q.pending_respawns@.last().0 == now && q.pending_respawns@.last().1@ == t && q.pending_respawns@.last().2@ == room
    }
    &&& p.template_id@ != t ==> q.active_npcs == p.active_npcs && q.pending_respawns == p.pending_respawns
}

/// The points `qs` are the points `ps` after the death (see `died_at_point`).
pub open spec fn after_death(ps: Seq<NpcSpawnPoint>, qs: Seq<NpcSpawnPoint>, npc: Seq<char>, t: Seq<char>, room: Seq<char>, now: i64) -> bool {
    qs.len() == ps.len() && forall|i: int| 0 <= i < ps.len() ==> died_at_point(ps[i], #[trigger] qs[i], npc, t, room, now)
}

/// The returns among `ps` due at `now` for a point whose NPCs come back
/// after `rt` seconds, as the room's id, the point's place and the template.
pub open spec fn due_returns(ps: Seq<(i64, String, String)>, room: Seq<char>, j: usize, rt: int, now: int)
    -> Seq<(Seq<char>, usize, Seq<char>)>
    decreases ps.len(),
{
    if ps.len() == 0 {
        seq![]
    } else {
        let rest = due_returns(ps.drop_last(), room, j, rt, now);
        if now - ps.last().0 >= rt { rest.push((room, j, ps.last().1@)) } else { rest }
    }
}

/// The returns due at `now` at the point at place `j` of room `room`: none
/// where the point is full.
pub open spec fn point_returns(sp: NpcSpawnPoint, room: Seq<char>, j: usize, now: int) -> Seq<(Seq<char>, usize, Seq<char>)> {
    if sp.can_spawn_spec() {
        due_returns(sp.pending_respawns@, room, j, secs_as_i64(sp.respawn_time), now)
    } else {
        seq![]
    }
}

/// The returns due at `now` at the points `ps` of room `room`, in order.
pub open spec fn room_returns(ps: Seq<NpcSpawnPoint>, room: Seq<char>, now: int) -> Seq<(Seq<char>, usize, Seq<char>)>
    decreases ps.len(),
{
    if ps.len() == 0 {
        seq![]
    } else {
        room_returns(ps.drop_last(), room, now) + point_returns(ps.last(), room, (ps.len() - 1) as usize, now)
    }
}

/// The returns due at `now` in the rooms `rs`, in order.
pub open spec fn all_returns(rs: Seq<RoomSpawns>, now: int) -> Seq<(Seq<char>, usize, Seq<char>)>
    decreases rs.len(),
{
    if rs.len() == 0 {
        seq![]
    } else {
        all_returns(rs.drop_last(), now) + room_returns(rs.last().spawns@, rs.last().room_id@, now)
    }
}

/// The plain values of the return triples.
pub open spec fn return_views(v: Seq<(String, usize, String)>) -> Seq<(Seq<char>, usize, Seq<char>)> {
    v.map_values(|t: (String, usize, String)| (t.0@, t.1, t.2@))
}

/// Unsigned seconds as a signed number takes them: above `i64::MAX` they
/// wrap around.
pub open spec fn secs_as_i64(u: u64) -> int {
    if u <= i64::MAX { u as int } else { u - 0x1_0000_0000_0000_0000 }
}

fn secs_to_i64(u: u64) -> (r: i64)
    ensures
        r == secs_as_i64(u),
{
    if u <= 0x7fff_ffff_ffff_ffff {
        u as i64
    } else {
        let d: u64 = u - 0x8000_0000_0000_0000;
        (d as i64) - 0x7fff_ffff_ffff_ffff - 1
    }
}

/// Settling the pending returns `ps` of a point at `now` (returns after
/// `rt` seconds; `can` whether the point had room), the NPCs brought back
/// being `outs` in order, one per return due: the NPCs added, the returns
/// still pending, and how many of `outs` were used. A return due whose
/// outcome is missing or none stays pending.
pub open spec fn settle(ps: Seq<(i64, String, String)>, outs: Seq<Option<String>>, rt: int, now: int, can: bool)
    -> (Seq<String>, Seq<(i64, String, String)>, int)
    decreases ps.len(),
{
    if ps.len() == 0 {
        (seq![], seq![], 0)
    } else {
        let (added, kept, used) = settle(ps.drop_last(), outs, rt, now, can);
        let e = ps.last();
        if can && now - e.0 >= rt {
            if 0 <= used < outs.len() && outs[used] is Some {
                (added.push(outs[used]->0), kept, used + 1)
            } else {
                (added, kept.push(e), used + 1)
            }
        } else {
            (added, kept.push(e), used)
        }
    }
}

/// Point `q` is point `p` settled at `now` with `outs` (see `settle`).
pub open spec fn settled_point(p: NpcSpawnPoint, q: NpcSpawnPoint, outs: Seq<Option<String>>, now: int) -> bool {
    let (added, kept, used) = settle(p.pending_respawns@, outs, secs_as_i64(p.respawn_time), now, p.can_spawn_spec());
    &&& q.template_id == p.template_id && q.room_id == p.room_id
    &&& q.max_count == p.max_count && q.respawn_time == p.respawn_time
    &&& q.active_npcs@ == p.active_npcs@ + added
    &&& q.pending_respawns@ == kept
}

fn point_died(p: &mut NpcSpawnPoint, npc_id: &str, template_id: &str, room_id: &str, now: i64)
    ensures
        died_at_point(*old(p), *final(p), npc_id@, template_id@, room_id@, now),
{
    if str_eq(p.template_id.as_str(), template_id) {
        p.remove_npc(npc_id);
        p.add_pending_respawn(now, string_of(template_id), string_of(room_id));
        assert(p.pending_respawns@.take(old(p).pending_respawns@.len() as int) =~= old(p).pending_respawns@);
    }
}

fn settle_point(p: &mut NpcSpawnPoint, outcomes: &Vec<Option<String>>, now: i64)
    ensures
        settled_point(*old(p), *final(p), outcomes@, now as int),
{
    let can = p.can_spawn();
    let rt = secs_to_i64(p.respawn_time);
    let mut ps: Vec<(i64, String, String)> = Vec::new();
    std::mem::swap(&mut ps, &mut p.pending_respawns);
    let ghost a0 = p.active_npcs@;
    let mut kept: Vec<(i64, String, String)> = Vec::new();
    let mut used: usize = 0;
    let mut k: usize = 0;
    while k < ps.len()
        invariant
            k <= ps@.len(),
            ps@ == old(p).pending_respawns@,
            can == old(p).can_spawn_spec(),
            rt == secs_as_i64(old(p).respawn_time),
            p.template_id == old(p).template_id && p.room_id == old(p).room_id,
            p.max_count == old(p).max_count && p.respawn_time == old(p).respawn_time,
            a0 == old(p).active_npcs@,
            used <= k,
            ({
                let (added, kept_s, used_s) = settle(ps@.take(k as int), outcomes@, rt as int, now as int, can);
                &&& p.active_npcs@ == a0 + added
                &&& kept@ == kept_s
                &&& used == used_s
            }),
        decreases ps.len() - k,
    {
        let ghost before_active = p.active_npcs@;
        let ghost before_kept = kept@;
        assert(ps@.take(k as int + 1).drop_last() == ps@.take(k as int));
        assert(ps@.take(k as int + 1).last() == ps@[k as int]);
        let e = &ps[k];
        let entry = (e.0, e.1.clone(), e.2.clone());
        assert(entry == ps@[k as int]);
        if can && (now as i128) - (e.0 as i128) >= (rt as i128) {
            if used < outcomes.len() && outcomes[used].is_some() {
                let id = outcomes[used].as_ref().unwrap().clone();
                p.active_npcs.push(id);
                assert(p.active_npcs@ =~= before_active.push(outcomes@[used as int]->0));
            } else {
                kept.push(entry);
            }
            used = used + 1;
        } else {
            kept.push(entry);
        }
        proof {
            let (added, kept_s, used_s) = settle(ps@.take(k as int), outcomes@, rt as int, now as int, can);
            assert(before_active == a0 + added);
            assert(p.active_npcs@ =~= a0 + settle(ps@.take(k as int + 1), outcomes@, rt as int, now as int, can).0);
        }
        k = k + 1;
    }
    assert(ps@.take(ps@.len() as int) == ps@);
    p.pending_respawns = kept;
}

impl SpawnDaemon {
    /// NPC `npc_id` of template `template_id` died in room `room_id` at
    /// `now`: each point of that template in the room forgets it and notes
    /// its return (see `after_death`). Taking the NPC out of the world is
    /// the caller's part.
    pub fn on_npc_died_at(&mut self, npc_id: &str, template_id: &str, room_id: &str, now: i64)
        requires
            old(self).wf(),
        ensures
            final(self).wf(),
            after_death(spawns_of(*old(self), room_id@), spawns_of(*final(self), room_id@), npc_id@, template_id@, room_id@, now),
            forall|k: Seq<char>| k != room_id@ ==> #[trigger] spawns_of(*final(self), k) == spawns_of(*old(self), k),
            final(self).spawned_npcs == old(self).spawned_npcs && final(self).boss_configs == old(self).boss_configs,
            final(self).last_spawn_times == old(self).last_spawn_times && final(self).online_players == old(self).online_players,
    {
        let ghost o = *self;
        proof {
            crate::util::lemma_key_in_get(self.npc_spawn_points@, room_id@);
            if key_in(self.npc_spawn_points@, room_id@) {
                crate::util::lemma_key_first(self.npc_spawn_points@, room_id@);
            }
        }
        match take_key(&mut self.npc_spawn_points, room_id) {
            Some(mut rs) => {
                let ghost ps0 = rs.spawns@;
                let mut j: usize = 0;
                while j < rs.spawns.len()
                    invariant
                        j <= rs.spawns@.len(),
                        rs.spawns@.len() == ps0.len(),
                        rs.room_id@ == room_id@,
                        forall|t: int| 0 <= t < j ==> died_at_point(ps0[t], #[trigger] rs.spawns@[t], npc_id@, template_id@, room_id@, now),
                        forall|t: int| j <= t < ps0.len() ==> #[trigger] rs.spawns@[t] == ps0[t],
                    decreases rs.spawns.len() - j,
                {
                    let ghost before = rs.spawns@;
                    let mut p = rs.spawns.remove(j);
                    point_died(&mut p, npc_id, template_id, room_id, now);
                    rs.spawns.insert(j, p);
                    proof {
                        assert forall|t: int| 0 <= t < ps0.len() && t != j implies #[trigger] rs.spawns@[t] == before[t] by {
                            if t < j { assert(rs.spawns@[t] == before.remove(j as int)[t]); }
                            else { assert(rs.spawns@[t] == before.remove(j as int)[t - 1]); }
                        }
                    }
                    j = j + 1;
                }
                let ghost mid = self.npc_spawn_points@;
                put_key(&mut self.npc_spawn_points, rs);
                proof {
                    assert forall|k: Seq<char>| k != room_id@ implies #[trigger] spawns_of(*self, k) == spawns_of(o, k) by {
                        assert(key_get(self.npc_spawn_points@, k) == key_get(mid, k));
                    }
                }
            },
            None => {},
        }
    }

    /// NPC `npc_id` died now (see `on_npc_died_at`).
    pub fn on_npc_died(&mut self, npc_id: &str, template_id: &str, room_id: &str)
        requires
            old(self).wf(),
        ensures
            final(self).wf(),
            exists|now: i64| #[trigger] after_death(spawns_of(*old(self), room_id@), spawns_of(*final(self), room_id@), npc_id@,
                template_id@, room_id@, now),
            forall|k: Seq<char>| k != room_id@ ==> #[trigger] spawns_of(*final(self), k) == spawns_of(*old(self), k),
    {
        let now = current_timestamp();
        self.on_npc_died_at(npc_id, template_id, room_id, now);
    }

    /// The returns that fall due at `now`, in order: room by room, and in
    /// each room point by point, each pending return due at a point with
    /// room for an NPC, as the room's id, the point's place among the
    /// room's points and the template to bring back (see `all_returns`).
    pub fn respawn_attempts_at(&self, now: i64) -> (r: Vec<(String, usize, String)>)
        ensures
            return_views(r@) == all_returns(self.npc_spawn_points@, now as int),
    {
        let mut r: Vec<(String, usize, String)> = Vec::new();
        let rooms = &self.npc_spawn_points;
        let mut i: usize = 0;
        while i < rooms.len()
            invariant
                i <= rooms@.len(),
                return_views(r@) == all_returns(rooms@.take(i as int), now as int),
            decreases rooms.len() - i,
        {
            assert(rooms@.take(i as int + 1).drop_last() == rooms@.take(i as int));
            assert(rooms@.take(i as int + 1).last() == rooms@[i as int]);
            let room = &rooms[i];
            let ghost base = return_views(r@);
            let mut j: usize = 0;
            while j < room.spawns.len()
                invariant
                    j <= room.spawns@.len(),
                    return_views(r@) == base + room_returns(room.spawns@.take(j as int), room.room_id@, now as int),
                decreases room.spawns.len() - j,
            {
                assert(room.spawns@.take(j as int + 1).drop_last() == room.spawns@.take(j as int));
                assert(room.spawns@.take(j as int + 1).last() == room.spawns@[j as int]);
                let sp = &room.spawns[j];
                let ghost base2 = return_views(r@);
                if sp.can_spawn() {
                    let rt = secs_to_i64(sp.respawn_time);
                    let mut k: usize = 0;
                    while k < sp.pending_respawns.len()
                        invariant
                            k <= sp.pending_respawns@.len(),
                            rt == secs_as_i64(sp.respawn_time),
                            return_views(r@) == base2 + due_returns(sp.pending_respawns@.take(k as int), room.room_id@, j, rt as int, now as int),
                        decreases sp.pending_respawns.len() - k,
                    {
                        let ghost ps = sp.pending_respawns@;
                        assert(ps.take(k as int + 1).drop_last() == ps.take(k as int));
                        assert(ps.take(k as int + 1).last() == ps[k as int]);
                        let e = &sp.pending_respawns[k];
                        let ghost before = r@;
                        if (now as i128) - (e.0 as i128) >= (rt as i128) {
                            r.push((room.room_id.clone(), j, e.1.clone()));
                            assert(return_views(r@) =~= return_views(before).push((room.room_id@, j, e.1@)));
                        }
                        assert(return_views(r@) =~= base2 + due_returns(ps.take(k as int + 1), room.room_id@, j, rt as int, now as int));
                        k = k + 1;
                    }
                    assert(sp.pending_respawns@.take(sp.pending_respawns@.len() as int) == sp.pending_respawns@);
                }
                assert(return_views(r@) =~= base + room_returns(room.spawns@.take(j as int + 1), room.room_id@, now as int));
                j = j + 1;
            }
            assert(room.spawns@.take(room.spawns@.len() as int) == room.spawns@);
            assert(return_views(r@) =~= all_returns(rooms@.take(i as int + 1), now as int));
            i = i + 1;
        }
        assert(rooms@.take(rooms@.len() as int) == rooms@);
        r
    }

    /// Settles the pending returns of the point at place `index` of room
    /// `room_id` at `now`, the NPCs brought back being `outcomes` in order
    /// (none where bringing one back failed): see `settle`. Whether the
    /// point has room is judged once, before. Nothing changes where the
    /// room has no such point.
    pub fn settle_spawn_at(&mut self, room_id: &str, index: usize, now: i64, outcomes: &Vec<Option<String>>)
        requires
            old(self).wf(),
        ensures
            final(self).wf(),
            index < spawns_of(*old(self), room_id@).len() ==> {
                &&& spawns_of(*final(self), room_id@).len() == spawns_of(*old(self), room_id@).len()
                &&& settled_point(spawns_of(*old(self), room_id@)[index as int], spawns_of(*final(self), room_id@)[index as int],
                    outcomes@, now as int)
                &&& forall|t: int| 0 <= t < spawns_of(*old(self), room_id@).len() && t != index
                    ==> #[trigger] spawns_of(*final(self), room_id@)[t] == spawns_of(*old(self), room_id@)[t]
            },
            index >= spawns_of(*old(self), room_id@).len() ==> spawns_of(*final(self), room_id@) == spawns_of(*old(self), room_id@),
            forall|k: Seq<char>| k != room_id@ ==> #[trigger] spawns_of(*final(self), k) == spawns_of(*old(self), k),
            final(self).spawned_npcs == old(self).spawned_npcs && final(self).boss_configs == old(self).boss_configs,
            final(self).last_spawn_times == old(self).last_spawn_times && final(self).online_players == old(self).online_players,
    {
        let ghost o = *self;
        proof {
            crate::util::lemma_key_in_get(self.npc_spawn_points@, room_id@);
            if key_in(self.npc_spawn_points@, room_id@) {
                crate::util::lemma_key_first(self.npc_spawn_points@, room_id@);
            }
        }
        match take_key(&mut self.npc_spawn_points, room_id) {
            Some(mut rs) => {
                let ghost ps0 = rs.spawns@;
                if index < rs.spawns.len() {
                    let mut p = rs.spawns.remove(index);
                    settle_point(&mut p, outcomes, now);
                    rs.spawns.insert(index, p);
                    proof {
                        assert forall|t: int| 0 <= t < ps0.len() && t != index implies #[trigger] rs.spawns@[t] == ps0[t] by {
                            if t < index { assert(rs.spawns@[t] == ps0.remove(index as int)[t]); }
                            else { assert(rs.spawns@[t] == ps0.remove(index as int)[t - 1]); }
                        }
                    }
                }
                let ghost mid = self.npc_spawn_points@;
                put_key(&mut self.npc_spawn_points, rs);
                proof {
                    assert forall|k: Seq<char>| k != room_id@ implies #[trigger] spawns_of(*self, k) == spawns_of(o, k) by {
                        assert(key_get(self.npc_spawn_points@, k) == key_get(mid, k));
                    }
                }
            },
            None => {},
        }
    }
}

impl Default for SpawnDaemon {
    fn default() -> (r: Self)
        ensures
            r.wf(),
            r.boss_configs@.map_values(|c: BossConfig| boss_row(c)) == default_boss_rows(),
            r.spawned_npcs@.len() == 0 && r.last_spawn_times@.len() == 0 && r.online_players == 0,
            spawns_of(r, start_room()).len() == 2,
            start_point(spawns_of(r, start_room())[0], "mob/wolf"@, 3, 30),
            start_point(spawns_of(r, start_room())[1], "npc/villager"@, 5, 60),
    {
        SpawnDaemon::new()
    }
}

/// What `SpawnDaemon::spawn_boss_at` promises: `o` is the value before the call, `f` the value after,
/// `r` what it gives back.
pub open spec fn spawn_boss_done(
    o: SpawnDaemon, f: SpawnDaemon, config: &BossConfig, world: &GameWorld, now: i64, r: Option<SpawnedNpc>) -> bool {
    &&& (!may_spawn(o, *config, now as int) ==> r is None)
    &&& (r is None ==> f == o)
    &&& (may_spawn(o, *config, now as int)
        && (forall|k: int| 0 <= k < config.zones@.len() ==> zone_has_room(*world, zone_code(#[trigger] config.zones@[k])))
        ==> r is Some)
    &&& (r matches Some(n) ==> {
        &&& n.npc_id == config.npc_id && config.zones@.contains(n.zone)
        &&& n.spawned_at == now && n.expires_at == now + config.lifetime && n.is_boss && n.is_alive
        &&& exists|i: int| in_zone(*world, zone_code(n.zone), i) && (#[trigger] world.rooms@[i]).id == n.room_id
            && (world.rooms@[i].danger_level > 0 || forall|j: int| 0 <= j < i ==> !in_zone(*world, zone_code(n.zone), j))
        &&& key_get(f.spawned_npcs@, spawn_key(config.npc_id@, now as int)) == Some(SpawnEntry {
            spawn_id: key_get(f.spawned_npcs@, spawn_key(config.npc_id@, now as int))->0.spawn_id, npc: n })
        &&& forall|k: Seq<char>| k != spawn_key(config.npc_id@, now as int)
            ==> #[trigger] key_get(f.spawned_npcs@, k) == key_get(o.spawned_npcs@, k)
        &&& key_get(f.last_spawn_times@, config.npc_id@) matches Some(l) && l.time == now
        &&& forall|k: Seq<char>| k != config.npc_id@
            ==> #[trigger] key_get(f.last_spawn_times@, k) == key_get(o.last_spawn_times@, k)
        &&& f.boss_configs == o.boss_configs && f.online_players == o.online_players
        &&& f.npc_spawn_points == o.npc_spawn_points
    })
}

/// What `SpawnedNpc::new_at` promises: for the arguments given, `r` what it gives back.
pub open spec fn spawned_npc_new_done(
    npc_id: String, room_id: String, zone: SpawnZone, lifetime_seconds: i64, is_boss: bool, now: i64,
    r: SpawnedNpc) -> bool {
    &&& (r == (SpawnedNpc { npc_id, room_id, zone, spawned_at: now, expires_at: (now + lifetime_seconds) as i64, is_boss,
        is_alive: true }))
}

} // verus!
