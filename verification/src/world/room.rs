//! Rooms: exits, the NPCs and items in a room, and the periodic reset that
//! brings killed NPCs back.
use vstd::prelude::*;
use crate::text::{push_str, push_i64, push_char, string_of, int_digits, chars_of, seq_contains, str_contains};
use crate::util::{Keyed, key_get, key_in, keys_unique, find_key, get_key, put_key, drop_key, without_str, remove_all_str};
use crate::words::is_ws;
use crate::outside::{current_timestamp, current_timestamp_millis};

verus! {

/// How a room brings back an NPC: at most `max_count` of the template, each
/// `respawn_time` seconds after it was killed.
#[derive(Debug)]
pub struct NpcSpawnConfig {
    pub template_id: String,
    pub max_count: usize,
    pub respawn_time: u64,
}

impl NpcSpawnConfig {
    /// A spawn rule.
    pub fn new(template_id: String, max_count: usize, respawn_time: u64) -> (r: Self)
        ensures
            r == (NpcSpawnConfig { template_id, max_count, respawn_time }),
    {
        NpcSpawnConfig { template_id, max_count, respawn_time }
    }
}

/// A killed NPC waiting to come back.
#[derive(Debug)]
pub struct KilledNpc {
    pub template_id: String,
    pub death_time: i64,
}

impl Clone for KilledNpc {
    fn clone(&self) -> (r: Self)
        ensures
            r == *self,
    {
        KilledNpc { template_id: self.template_id.clone(), death_time: self.death_time }
    }
}

/// An exit: a direction and the room it leads to.
#[derive(Debug)]
pub struct Exit {
    pub direction: String,
    pub room_id: String,
}

impl Keyed for Exit {
    open spec fn key_view(&self) -> Seq<char> {
        self.direction@
    }

    fn key(&self) -> (r: &String) {
        &self.direction
    }
}

/// A room.
#[derive(Debug)]
pub struct Room {
    pub id: String,
    pub name: String,
    pub short: String,
    pub long: String,
    pub exits: Vec<Exit>,
    pub npcs: Vec<String>,
    pub monsters: Vec<String>,
    pub items: Vec<String>,
    pub zone: String,
    pub light: i32,
    pub danger_level: i32,
    pub room_type: String,
    pub links: String,
    pub is_peaceful: bool,
    pub is_bedroom: bool,
    pub spawn_configs: Vec<NpcSpawnConfig>,
    pub killed_npcs: Vec<KilledNpc>,
    pub last_reset: i64,
    pub reset_interval: i64,
}

/// An unsigned number of seconds as a signed one takes it: values above
/// `i64::MAX` wrap around.
pub open spec fn as_i64(u: u64) -> int {
    if u <= i64::MAX { u as int } else { u - 0x1_0000_0000_0000_0000 }
}

fn to_i64(u: u64) -> (r: i64)
    ensures
        r == as_i64(u),
{
    let r = u as i64;
    assert(u <= 0x7fff_ffff_ffff_ffff ==> r == u) by (bit_vector)
        requires
            r == u as i64,
    ;
    assert(u > 0x7fff_ffff_ffff_ffff ==> r == u - 0x1_0000_0000_0000_0000) by (bit_vector)
        requires
            r == u as i64,
    ;
    r
}

/// How many of the NPC ids contain `t`.
pub open spec fn count_containing(npcs: Seq<String>, t: Seq<char>) -> int
    decreases npcs.len(),
{
    if npcs.len() == 0 {
        0
    } else {
        count_containing(npcs.drop_last(), t) + if seq_contains(npcs.last()@, t) { 1int } else { 0int }
    }
}

/// Some killed NPC of template `t` has waited `respawn` seconds by `now`.
pub open spec fn ready(killed: Seq<KilledNpc>, t: Seq<char>, respawn: u64, now: i64) -> bool {
    exists|i: int| 0 <= i < killed.len() && (#[trigger] killed[i]).template_id@ == t && now - killed[i].death_time >= as_i64(respawn)
}

/// The templates a reset brings back, in the order of the spawn rules: those
/// with a killed NPC ready and fewer NPCs in the room than allowed.
pub open spec fn spawn_list(configs: Seq<NpcSpawnConfig>, npcs: Seq<String>, killed: Seq<KilledNpc>, now: i64) -> Seq<Seq<char>>
    decreases configs.len(),
{
    if configs.len() == 0 {
        Seq::empty()
    } else {
        let prev = spawn_list(configs.drop_last(), npcs, killed, now);
        let c = configs.last();
        if ready(killed, c.template_id@, c.respawn_time, now) && count_containing(npcs, c.template_id@) < c.max_count {
            prev.push(c.template_id@)
        } else {
            prev
        }
    }
}

/// `s` without its first record of template `t`.
pub open spec fn remove_first_killed(s: Seq<KilledNpc>, t: Seq<char>) -> Seq<KilledNpc>
    decreases s.len(),
{
    if s.len() == 0 {
        s
    } else if s[0].template_id@ == t {
        s.skip(1)
    } else {
        seq![s[0]] + remove_first_killed(s.skip(1), t)
    }
}

/// The killed records after bringing back each template of `list` in turn.
pub open spec fn after_spawns(killed: Seq<KilledNpc>, list: Seq<Seq<char>>) -> Seq<KilledNpc>
    decreases list.len(),
{
    if list.len() == 0 {
        killed
    } else {
        remove_first_killed(after_spawns(killed, list.drop_last()), list.last())
    }
}

/// The respawn time of the first rule for template `t`, if any.
pub open spec fn first_respawn(configs: Seq<NpcSpawnConfig>, t: Seq<char>, i: int) -> Option<u64>
    decreases configs.len() - i,
{
    if i < 0 || i >= configs.len() {
        None
    } else if configs[i].template_id@ == t {
        Some(configs[i].respawn_time)
    } else {
        first_respawn(configs, t, i + 1)
    }
}

/// A killed record stays after a reset at `now`: a rule knows its template
/// and it has not waited the first such rule's respawn time.
pub open spec fn stays_killed(configs: Seq<NpcSpawnConfig>, k: KilledNpc, now: i64) -> bool {
    match first_respawn(configs, k.template_id@, 0) {
        Some(t) => now - k.death_time < as_i64(t),
        None => false,
    }
}

/// `s` with every `/` replaced by `_`.
pub open spec fn slashes_to_underscores(s: Seq<char>) -> Seq<char> {
    Seq::new(s.len(), |i: int| if s[i] == '/' { '_' } else { s[i] })
}

/// The id of an NPC a reset brings back.
pub open spec fn spawned_id(room_id: Seq<char>, t: Seq<char>, millis: i64) -> Seq<char> {
    room_id + "/"@ + slashes_to_underscores(t) + "_"@ + int_digits(millis as int)
}

/// `s` without leading and trailing white space (`str::trim`).
pub open spec fn trim_ws(s: Seq<char>) -> Seq<char>
    decreases s.len(),
{
    if s.len() > 0 && is_ws(s[0]) {
        trim_ws(s.skip(1))
    } else if s.len() > 0 && is_ws(s.last()) {
        trim_ws(s.drop_last())
    } else {
        s
    }
}

/// The Chinese name of a direction, or the direction itself.
pub open spec fn direction_name(d: Seq<char>) -> Seq<char> {
    if d == "north"@ {
        "北方"@
    } else if d == "south"@ {
        "南方"@
    } else if d == "east"@ {
        "东方"@
    } else if d == "west"@ {
        "西方"@
    } else if d == "up"@ {
        "上方"@
    } else if d == "down"@ {
        "下方"@
    } else if d == "northeast"@ {
        "东北"@
    } else if d == "northwest"@ {
        "西北"@
    } else if d == "southeast"@ {
        "东南"@
    } else if d == "southwest"@ {
        "西南"@
    } else {
        d
    }
}

/// The names of the exits, space separated.
pub open spec fn exit_names(exits: Seq<Exit>) -> Seq<char>
    decreases exits.len(),
{
    if exits.len() == 0 {
        Seq::empty()
    } else if exits.len() == 1 {
        direction_name(exits[0].direction@)
    } else {
        exit_names(exits.drop_last()) + " "@ + direction_name(exits.last().direction@)
    }
}

fn direction_name_of(d: &str) -> (r: String)
    ensures
        r@ == direction_name(d@),
{
    if crate::text::str_eq(d, "north") {
        string_of("北方")
    } else if crate::text::str_eq(d, "south") {
        string_of("南方")
    } else if crate::text::str_eq(d, "east") {
        string_of("东方")
    } else if crate::text::str_eq(d, "west") {
        string_of("西方")
    } else if crate::text::str_eq(d, "up") {
        string_of("上方")
    } else if crate::text::str_eq(d, "down") {
        string_of("下方")
    } else if crate::text::str_eq(d, "northeast") {
        string_of("东北")
    } else if crate::text::str_eq(d, "northwest") {
        string_of("西北")
    } else if crate::text::str_eq(d, "southeast") {
        string_of("东南")
    } else if crate::text::str_eq(d, "southwest") {
        string_of("西南")
    } else {
        string_of(d)
    }
}

/// `str::trim`.
pub fn trim_text(s: &str) -> (r: String)
    ensures
        r@ == trim_ws(s@),
{
    let cs = chars_of(s);
    let mut lo: usize = 0;
    let mut hi: usize = cs.len();
    assert(cs@.subrange(0, cs@.len() as int) =~= cs@);
    while lo < hi && crate::words::is_ws_char(cs[lo])
        invariant
            cs@ == s@,
            lo <= hi <= cs@.len(),
            hi == cs@.len(),
            trim_ws(s@) == trim_ws(cs@.subrange(lo as int, hi as int)),
        decreases hi - lo,
    {
        proof {
            let t = cs@.subrange(lo as int, hi as int);
            assert(t.skip(1) =~= cs@.subrange(lo + 1, hi as int));
        }
        lo = lo + 1;
    }
    while lo < hi && crate::words::is_ws_char(cs[hi - 1])
        invariant
            cs@ == s@,
            lo <= hi <= cs@.len(),
            lo < hi ==> !is_ws(cs@[lo as int]),
            trim_ws(s@) == trim_ws(cs@.subrange(lo as int, hi as int)),
        decreases hi - lo,
    {
        proof {
            let t = cs@.subrange(lo as int, hi as int);
            assert(t.drop_last() =~= cs@.subrange(lo as int, hi - 1));
            assert(t[0] == cs@[lo as int]);
        }
        hi = hi - 1;
    }
    let mut out = String::new();
    let mut i: usize = lo;
    while i < hi
        invariant
            cs@ == s@,
            lo <= i <= hi <= cs@.len(),
            out@ == cs@.subrange(lo as int, i as int),
        decreases hi - i,
    {
        push_char(&mut out, cs[i]);
        i = i + 1;
        assert(out@ =~= cs@.subrange(lo as int, i as int));
    }
    proof {
        let t = cs@.subrange(lo as int, hi as int);
        if t.len() > 0 {
            assert(t[0] == cs@[lo as int]);
            assert(t.last() == cs@[hi - 1]);
        }
        assert(trim_ws(t) == t);
    }
    out
}

/// The text of a room: its name, trimmed description and exits.
pub open spec fn room_text(r: Room) -> Seq<char> {
    r.name@ + "\n\n"@ + trim_ws(r.long@) + "\n\n出口: "@ + if r.exits@.len() == 0 { "无明显出口"@ } else { exit_names(r.exits@) }
}

impl Room {
    /// Adds a spawn rule.
    pub fn add_spawn_config(&mut self, template_id: String, max_count: usize, respawn_time: u64)
        ensures
            *final(self) == (Room { spawn_configs: final(self).spawn_configs, ..*old(self) }),
            final(self).spawn_configs@ == old(self).spawn_configs@.push(NpcSpawnConfig { template_id, max_count, respawn_time }),
    {
        self.spawn_configs.push(NpcSpawnConfig::new(template_id, max_count, respawn_time));
    }

    /// Records that an NPC of a template was killed at `now`.
    pub fn on_npc_killed_at(&mut self, template_id: String, now: i64)
        ensures
            *final(self) == (Room { killed_npcs: final(self).killed_npcs, ..*old(self) }),
            final(self).killed_npcs@ == old(self).killed_npcs@.push(KilledNpc { template_id, death_time: now }),
    {
        self.killed_npcs.push(KilledNpc { template_id, death_time: now });
    }

    /// Records that an NPC of a template was killed now.
    pub fn on_npc_killed(&mut self, template_id: String)
        ensures
            *final(self) == (Room { killed_npcs: final(self).killed_npcs, ..*old(self) }),
            exists|now: i64| final(self).killed_npcs@ == old(self).killed_npcs@.push(KilledNpc { template_id, death_time: now }),
    {
        let now = current_timestamp();
        self.on_npc_killed_at(template_id, now)
    }

    /// The exits as (direction, room) pairs.
    pub fn get_exits(&self) -> (r: Vec<(String, String)>)
        ensures
            r@.len() == self.exits@.len(),
            forall|i: int| 0 <= i < r@.len() ==> (#[trigger] r@[i]).0 == self.exits@[i].direction && r@[i].1 == self.exits@[i].room_id,
    {
        let mut r: Vec<(String, String)> = Vec::new();
        let mut i: usize = 0;
        while i < self.exits.len()
            invariant
                i <= self.exits@.len(),
                r@.len() == i,
                forall|j: int| 0 <= j < i ==> (#[trigger] r@[j]).0 == self.exits@[j].direction && r@[j].1 == self.exits@[j].room_id,
            decreases self.exits.len() - i,
        {
            r.push((self.exits[i].direction.clone(), self.exits[i].room_id.clone()));
            i = i + 1;
        }
        r
    }

    /// There is an exit in the direction.
    pub fn has_exit(&self, direction: &str) -> (r: bool)
        ensures
            r == key_in(self.exits@, direction@),
    {
        find_key(&self.exits, direction).is_some()
    }

    /// The room the exit in the direction leads to.
    pub fn get_exit(&self, direction: &str) -> (r: Option<&String>)
        ensures
            match key_get(self.exits@, direction@) {
                Some(e) => r == Some(&e.room_id),
                None => r is None,
            },
    {
        match get_key(&self.exits, direction) {
            Some(e) => Some(&e.room_id),
            None => None,
        }
    }

    /// Adds an exit, replacing one in the same direction.
    pub fn add_exit(&mut self, direction: String, room_id: String)
        ensures
            *final(self) == (Room { exits: final(self).exits, ..*old(self) }),
            key_get(final(self).exits@, direction@) == Some(Exit { direction, room_id }),
            forall|d: Seq<char>| d != direction@ ==> #[trigger] key_get(final(self).exits@, d) == key_get(old(self).exits@, d),
            keys_unique(old(self).exits@) ==> keys_unique(final(self).exits@),
    {
        put_key(&mut self.exits, Exit { direction, room_id });
    }

    /// Removes the exit in the direction.
    pub fn remove_exit(&mut self, direction: &str)
        requires
            keys_unique(old(self).exits@),
        ensures
            *final(self) == (Room { exits: final(self).exits, ..*old(self) }),
            keys_unique(final(self).exits@),
            key_get(final(self).exits@, direction@) is None,
            forall|d: Seq<char>| d != direction@ ==> #[trigger] key_get(final(self).exits@, d) == key_get(old(self).exits@, d),
    {
        drop_key(&mut self.exits, direction);
    }

    /// Adds an NPC.
    pub fn add_npc(&mut self, npc_id: String)
        ensures
            *final(self) == (Room { npcs: final(self).npcs, ..*old(self) }),
            final(self).npcs@ == old(self).npcs@.push(npc_id),
    {
        self.npcs.push(npc_id);
    }

    /// Removes every occurrence of an NPC.
    pub fn remove_npc(&mut self, npc_id: &str)
        ensures
            *final(self) == (Room { npcs: final(self).npcs, ..*old(self) }),
            final(self).npcs@ == without_str(old(self).npcs@, npc_id@),
    {
        let kept = remove_all_str(&self.npcs, npc_id);
        self.npcs = kept;
    }

    /// Adds an item on the ground.
    pub fn add_item(&mut self, item_id: String)
        ensures
            *final(self) == (Room { items: final(self).items, ..*old(self) }),
            final(self).items@ == old(self).items@.push(item_id),
    {
        self.items.push(item_id);
    }

    /// Removes every occurrence of an item from the ground.
    pub fn remove_item(&mut self, item_id: &str)
        ensures
            *final(self) == (Room { items: final(self).items, ..*old(self) }),
            final(self).items@ == without_str(old(self).items@, item_id@),
    {
        let kept = remove_all_str(&self.items, item_id);
        self.items = kept;
    }

    /// Light below 30.
    pub fn is_dark(&self) -> (r: bool)
        ensures
            r == (self.light < 30),
    {
        self.light < 30
    }

    /// The room's name, description and exits.
    pub fn format(&self) -> (r: String)
        ensures
            r@ == room_text(*self),
    {
        let exits = self.format_exits();
        let mut s = self.name.clone();
        push_str(&mut s, "\n\n");
        let t = trim_text(self.long.as_str());
        push_str(&mut s, t.as_str());
        push_str(&mut s, "\n\n出口: ");
        push_str(&mut s, exits.as_str());
        s
    }

    /// The names of the exits, space separated, or 无明显出口.
    pub fn format_exits(&self) -> (r: String)
        ensures
            r@ == if self.exits@.len() == 0 { "无明显出口"@ } else { exit_names(self.exits@) },
    {
        if self.exits.len() == 0 {
            return string_of("无明显出口");
        }
        let mut out = String::new();
        let mut i: usize = 0;
        while i < self.exits.len()
            invariant
                i <= self.exits@.len(),
                out@ == exit_names(self.exits@.take(i as int)),
            decreases self.exits.len() - i,
        {
            let name = direction_name_of(self.exits[i].direction.as_str());
            proof {
                assert(self.exits@.take(i + 1).drop_last() =~= self.exits@.take(i as int));
                assert(self.exits@.take(i + 1).last() == self.exits@[i as int]);
            }
            if i > 0 {
                push_str(&mut out, " ");
            }
            push_str(&mut out, name.as_str());
            proof {
                if i == 0 {
                    assert(self.exits@.take(1)[0] == self.exits@[0]);
                }
            }
            i = i + 1;
        }
        assert(self.exits@.take(i as int) =~= self.exits@);
        out
    }
}


proof fn lemma_remove_first(s: Seq<KilledNpc>, t: Seq<char>, i: int)
    requires
        0 <= i < s.len(),
        s[i].template_id@ == t,
        forall|j: int| 0 <= j < i ==> s[j].template_id@ != t,
    ensures
        remove_first_killed(s, t) == s.remove(i),
    decreases i,
{
    if i == 0 {
        assert(s.skip(1) =~= s.remove(0));
    } else {
        assert(s[0].template_id@ != t);
        lemma_remove_first(s.skip(1), t, i - 1);
        assert(seq![s[0]] + s.skip(1).remove(i - 1) =~= s.remove(i));
    }
}

proof fn lemma_remove_none(s: Seq<KilledNpc>, t: Seq<char>)
    requires
        forall|j: int| 0 <= j < s.len() ==> s[j].template_id@ != t,
    ensures
        remove_first_killed(s, t) == s,
    decreases s.len(),
{
    if s.len() > 0 {
        assert(s[0].template_id@ != t);
        lemma_remove_none(s.skip(1), t);
        assert(seq![s[0]] + s.skip(1) =~= s);
    }
}

fn underscored(t: &str) -> (r: String)
    ensures
        r@ == slashes_to_underscores(t@),
{
    let cs = chars_of(t);
    let mut out = String::new();
    let mut i: usize = 0;
    while i < cs.len()
        invariant
            cs@ == t@,
            i <= cs@.len(),
            out@ == slashes_to_underscores(t@).take(i as int),
        decreases cs.len() - i,
    {
        if cs[i] == '/' {
            push_char(&mut out, '_');
        } else {
            push_char(&mut out, cs[i]);
        }
        i = i + 1;
        assert(out@ =~= slashes_to_underscores(t@).take(i as int));
    }
    assert(slashes_to_underscores(t@).take(i as int) =~= slashes_to_underscores(t@));
    out
}

fn count_npcs_containing(npcs: &Vec<String>, t: &str) -> (r: usize)
    ensures
        r == count_containing(npcs@, t@),
{
    let mut n: usize = 0;
    let mut i: usize = 0;
    while i < npcs.len()
        invariant
            i <= npcs@.len(),
            n == count_containing(npcs@.take(i as int), t@),
            n <= i,
        decreases npcs.len() - i,
    {
        proof {
            assert(npcs@.take(i + 1).drop_last() =~= npcs@.take(i as int));
            assert(npcs@.take(i + 1).last() == npcs@[i as int]);
        }
        if str_contains(npcs[i].as_str(), t) {
            n = n + 1;
        }
        i = i + 1;
    }
    assert(npcs@.take(i as int) =~= npcs@);
    n
}

fn is_ready(killed: &Vec<KilledNpc>, t: &str, respawn: u64, now: i64) -> (r: bool)
    requires
        forall|j: int| 0 <= j < killed@.len() ==> i64::MIN <= now - (#[trigger] killed@[j]).death_time <= i64::MAX,
    ensures
        r == ready(killed@, t@, respawn, now),
{
    let rt = to_i64(respawn);
    let mut i: usize = 0;
    while i < killed.len()
        invariant
            i <= killed@.len(),
            rt == as_i64(respawn),
            forall|j: int| 0 <= j < killed@.len() ==> i64::MIN <= now - (#[trigger] killed@[j]).death_time <= i64::MAX,
            forall|j: int| 0 <= j < i ==> !((#[trigger] killed@[j]).template_id@ == t@ && now - killed@[j].death_time >= as_i64(respawn)),
        decreases killed.len() - i,
    {
        if crate::text::str_eq(killed[i].template_id.as_str(), t) && now - killed[i].death_time >= rt {
            return true;
        }
        i = i + 1;
    }
    false
}

fn first_respawn_of(configs: &Vec<NpcSpawnConfig>, t: &str) -> (r: Option<u64>)
    ensures
        r == first_respawn(configs@, t@, 0),
{
    let mut i: usize = 0;
    while i < configs.len()
        invariant
            i <= configs@.len(),
            first_respawn(configs@, t@, 0) == first_respawn(configs@, t@, i as int),
        decreases configs.len() - i,
    {
        if crate::text::str_eq(configs[i].template_id.as_str(), t) {
            return Some(configs[i].respawn_time);
        }
        i = i + 1;
    }
    None
}

/// `new` is `old` after a reset at `now` whose new NPCs carry `millis`: the
/// templates of `spawn_list` come back, each with a new id, each taking away
/// its first killed record, and the records that remain keep only those
/// still waiting (see `stays_killed`).
pub open spec fn reset_by(old: Room, new: Room, now: i64, millis: i64) -> bool {
    let list = spawn_list(old.spawn_configs@, old.npcs@, old.killed_npcs@, now);
    &&& new == (Room { npcs: new.npcs, killed_npcs: new.killed_npcs, ..old })
    &&& new.npcs@.len() == old.npcs@.len() + list.len()
    &&& new.npcs@.take(old.npcs@.len() as int) == old.npcs@
    &&& forall|j: int| 0 <= j < list.len() ==> #[trigger] new.npcs@[old.npcs@.len() + j]@ == spawned_id(old.id@, list[j], millis)
    &&& new.killed_npcs@ == after_spawns(old.killed_npcs@, list).filter(|k: KilledNpc| stays_killed(old.spawn_configs@, k, now))
}

/// The death times of the killed records stay within reach of `now`.
pub open spec fn times_fit(killed: Seq<KilledNpc>, now: i64) -> bool {
    forall|j: int| 0 <= j < killed.len() ==> i64::MIN <= now - (#[trigger] killed[j]).death_time <= i64::MAX
}

proof fn lemma_remove_first_sub(s: Seq<KilledNpc>, t: Seq<char>, now: i64)
    requires
        times_fit(s, now),
    ensures
        times_fit(remove_first_killed(s, t), now),
        forall|j: int| 0 <= j < remove_first_killed(s, t).len() ==> exists|k: int| 0 <= k < s.len() && s[k] == #[trigger] remove_first_killed(s, t)[j],
    decreases s.len(),
{
    if s.len() > 0 {
        if s[0].template_id@ == t {
            assert forall|j: int| 0 <= j < s.skip(1).len() implies exists|k: int| 0 <= k < s.len() && s[k] == #[trigger] s.skip(1)[j] by {
                assert(s[j + 1] == s.skip(1)[j]);
            }
        } else {
            assert(times_fit(s.skip(1), now)) by {
                assert forall|j: int| 0 <= j < s.skip(1).len() implies i64::MIN <= now - (#[trigger] s.skip(1)[j]).death_time <= i64::MAX by {
                    assert(s.skip(1)[j] == s[j + 1]);
                }
            }
            lemma_remove_first_sub(s.skip(1), t, now);
            let r = remove_first_killed(s, t);
            let q = remove_first_killed(s.skip(1), t);
            assert(r == seq![s[0]] + q);
            assert forall|j: int| 0 <= j < r.len() implies exists|k: int| 0 <= k < s.len() && s[k] == #[trigger] r[j] by {
                if j == 0 {
                    assert(s[0] == r[0]);
                } else {
                    assert(r[j] == q[j - 1]);
                    let k = choose|k: int| 0 <= k < s.skip(1).len() && s.skip(1)[k] == q[j - 1];
                    assert(s[k + 1] == s.skip(1)[k]);
                }
            }
        }
    }
}

impl Room {
    fn spawn_npc_at(&mut self, template_id: &str, millis: i64)
        ensures
            *final(self) == (Room { npcs: final(self).npcs, killed_npcs: final(self).killed_npcs, ..*old(self) }),
            final(self).npcs@.len() == old(self).npcs@.len() + 1,
            final(self).npcs@.drop_last() == old(self).npcs@,
            final(self).npcs@.last()@ == spawned_id(old(self).id@, template_id@, millis),
            final(self).killed_npcs@ == remove_first_killed(old(self).killed_npcs@, template_id@),
    {
        let mut npc_id = self.id.clone();
        push_str(&mut npc_id, "/");
        let u = underscored(template_id);
        push_str(&mut npc_id, u.as_str());
        push_str(&mut npc_id, "_");
        push_i64(&mut npc_id, millis);
        let ghost before_push = self.npcs@;
        self.npcs.push(npc_id);
        assert(self.npcs@.drop_last() =~= before_push);
        let ghost pushed = *self;
        let mut i: usize = 0;
        while i < self.killed_npcs.len()
            invariant
                i <= self.killed_npcs@.len(),
                *self == pushed,
                pushed == (Room { npcs: pushed.npcs, ..*old(self) }),
                pushed.npcs@.len() == old(self).npcs@.len() + 1,
                pushed.npcs@.drop_last() == old(self).npcs@,
                pushed.npcs@.last()@ == spawned_id(old(self).id@, template_id@, millis),
                forall|j: int| 0 <= j < i ==> self.killed_npcs@[j].template_id@ != template_id@,
            decreases self.killed_npcs.len() - i,
        {
            if crate::text::str_eq(self.killed_npcs[i].template_id.as_str(), template_id) {
                proof {
                    lemma_remove_first(self.killed_npcs@, template_id@, i as int);
                }
                self.killed_npcs.remove(i);
                return;
            }
            i = i + 1;
        }
        proof {
            lemma_remove_none(self.killed_npcs@, template_id@);
        }
    }

    fn reset_at(&mut self, now: i64, millis: i64)
        requires
            times_fit(old(self).killed_npcs@, now),
        ensures
            reset_by(*old(self), *final(self), now, millis),
    {
        let ghost old_self = *self;
        let ghost configs = self.spawn_configs@;
        let mut to_spawn: Vec<String> = Vec::new();
        let mut i: usize = 0;
        while i < self.spawn_configs.len()
            invariant
                i <= configs.len(),
                *self == old_self,
                configs == old_self.spawn_configs@,
                times_fit(old_self.killed_npcs@, now),
                to_spawn@.map_values(|s: String| s@) == spawn_list(configs.take(i as int), old_self.npcs@, old_self.killed_npcs@, now),
            decreases configs.len() - i,
        {
            let c = &self.spawn_configs[i];
            let ghost prev = to_spawn@;
            proof {
                assert(configs.take(i + 1).drop_last() =~= configs.take(i as int));
                assert(configs.take(i + 1).last() == configs[i as int]);
            }
            let count = count_npcs_containing(&self.npcs, c.template_id.as_str());
            if is_ready(&self.killed_npcs, c.template_id.as_str(), c.respawn_time, now) && count < c.max_count {
                to_spawn.push(c.template_id.clone());
                assert(to_spawn@.map_values(|s: String| s@) =~= prev.map_values(|s: String| s@).push(c.template_id@));
            }
            i = i + 1;
        }
        assert(configs.take(i as int) =~= configs);
        let ghost list = to_spawn@.map_values(|s: String| s@);
        let mut k: usize = 0;
        while k < to_spawn.len()
            invariant
                k <= to_spawn@.len(),
                list == to_spawn@.map_values(|s: String| s@),
                list == spawn_list(old_self.spawn_configs@, old_self.npcs@, old_self.killed_npcs@, now),
                *self == (Room { npcs: self.npcs, killed_npcs: self.killed_npcs, ..old_self }),
                self.npcs@.len() == old_self.npcs@.len() + k,
                self.npcs@.take(old_self.npcs@.len() as int) == old_self.npcs@,
                forall|j: int| 0 <= j < k ==> #[trigger] self.npcs@[old_self.npcs@.len() + j]@ == spawned_id(old_self.id@, list[j], millis),
                self.killed_npcs@ == after_spawns(old_self.killed_npcs@, list.take(k as int)),
                times_fit(self.killed_npcs@, now),
                forall|j: int| 0 <= j < self.killed_npcs@.len() ==> exists|m: int| 0 <= m < old_self.killed_npcs@.len() && old_self.killed_npcs@[m] == #[trigger] self.killed_npcs@[j],
            decreases to_spawn.len() - k,
        {
            let ghost before = *self;
            proof {
                lemma_remove_first_sub(self.killed_npcs@, list[k as int], now);
                assert(list.take(k + 1).drop_last() =~= list.take(k as int));
                assert(list.take(k + 1).last() == list[k as int]);
            }
            self.spawn_npc_at(to_spawn[k].as_str(), millis);
            proof {
                assert forall|j: int| 0 <= j < self.killed_npcs@.len() implies exists|m: int| 0 <= m < old_self.killed_npcs@.len() && old_self.killed_npcs@[m] == #[trigger] self.killed_npcs@[j] by {
                    let q = choose|q: int| 0 <= q < before.killed_npcs@.len() && before.killed_npcs@[q] == self.killed_npcs@[j];
                }
                assert(self.npcs@.take(old_self.npcs@.len() as int) =~= old_self.npcs@) by {
                    assert(self.npcs@.drop_last() == before.npcs@);
                    assert forall|j: int| 0 <= j < old_self.npcs@.len() implies self.npcs@[j] == old_self.npcs@[j] by {
                        assert(before.npcs@.take(old_self.npcs@.len() as int)[j] == old_self.npcs@[j]);
                        assert(self.npcs@.drop_last()[j] == self.npcs@[j]);
                    }
                }
                assert forall|j: int| 0 <= j < k + 1 implies #[trigger] self.npcs@[old_self.npcs@.len() + j]@ == spawned_id(old_self.id@, list[j], millis) by {
                    if j < k {
                        assert(self.npcs@.drop_last()[old_self.npcs@.len() + j] == self.npcs@[old_self.npcs@.len() + j]);
                    }
                }
            }
            k = k + 1;
        }
        assert(list.take(k as int) =~= list);
        let ghost mid = self.killed_npcs@;
        let mut kept: Vec<KilledNpc> = Vec::new();
        let mut j: usize = 0;
        while j < self.killed_npcs.len()
            invariant
                j <= mid.len(),
                mid == self.killed_npcs@,
                configs == self.spawn_configs@,
                times_fit(mid, now),
                kept@ == mid.take(j as int).filter(|k: KilledNpc| stays_killed(configs, k, now)),
            decreases mid.len() - j,
        {
            let kn = &self.killed_npcs[j];
            proof {
                assert(mid.take(j + 1) =~= mid.take(j as int).push(mid[j as int]));
                mid.take(j as int).lemma_filter_push(mid[j as int], |k: KilledNpc| stays_killed(configs, k, now));
            }
            let keep = match first_respawn_of(&self.spawn_configs, kn.template_id.as_str()) {
                Some(t) => now - kn.death_time < to_i64(t),
                None => false,
            };
            if keep {
                kept.push(kn.clone());
            }
            j = j + 1;
        }
        assert(mid.take(j as int) =~= mid);
        self.killed_npcs = kept;
    }

    /// Resets the room at `now` when more than its reset interval has passed
    /// since the last reset (see `reset_by`); new NPCs carry `millis`.
    pub fn try_reset_at(&mut self, now: i64, millis: i64)
        requires
            i64::MIN <= now - old(self).last_reset <= i64::MAX,
            times_fit(old(self).killed_npcs@, now),
        ensures
            try_reset_done(*old(self), *final(self), now, millis),
    {
        if now - self.last_reset > self.reset_interval {
            self.last_reset = now;
            self.reset_at(now, millis);
        }
    }

    /// Resets the room now when due (see `try_reset_at`).
    pub fn try_reset(&mut self)
        requires
            -200_000_000_000_000 <= old(self).last_reset <= 200_000_000_000_000,
            forall|j: int| 0 <= j < old(self).killed_npcs@.len() ==> -200_000_000_000_000 <= (#[trigger] old(self).killed_npcs@[j]).death_time <= 200_000_000_000_000,
        ensures
            exists|now: i64, millis: i64| #[trigger] try_reset_done(*old(self), *final(self), now, millis),
            final(self).id == old(self).id,
    {
        let now = current_timestamp();
        let millis = current_timestamp_millis();
        self.try_reset_at(now, millis)
    }
}

/// What `Room::try_reset_at` promises: `o` is the value before the call, `f` the value after.
pub open spec fn try_reset_done(o: Room, f: Room, now: i64, millis: i64) -> bool {
    &&& (now - o.last_reset > o.reset_interval ==> reset_by(Room { last_reset: now, ..o }, f, now, millis))
    &&& (now - o.last_reset <= o.reset_interval ==> f == o)
}

} // verus!
