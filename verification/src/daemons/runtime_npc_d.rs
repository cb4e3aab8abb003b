//! The NPCs standing in rooms at run time: each room's instances, which of
//! them are dead and when they come back. How long an NPC stays dead
//! depends on its template id, by rules of id patterns.
use vstd::prelude::*;
use crate::text::{push_str, push_i64, string_of, str_eq, str_contains, str_starts_with, starts_with, seq_contains,
    int_digits};
use crate::util::{take_key, Keyed, key_get, key_in, keys_unique, find_key, get_key, put_key};
use crate::outside::current_timestamp;

verus! {

/// One NPC in a room.
#[derive(Debug)]
pub struct NpcInstanceState {
    pub template_id: String,
    pub instance_id: String,
    pub current_room: String,
    pub is_alive: bool,
    pub died_at: Option<i64>,
    pub respawn_at: Option<i64>,
    pub respawn_interval: i64,
    pub created_at: i64,
}

impl Clone for NpcInstanceState {
    fn clone(&self) -> (r: Self)
        ensures
            r == *self,
    {
        NpcInstanceState {
            template_id: self.template_id.clone(),
            instance_id: self.instance_id.clone(),
            current_room: self.current_room.clone(),
            is_alive: self.is_alive,
            died_at: self.died_at,
            respawn_at: self.respawn_at,
            respawn_interval: self.respawn_interval,
            created_at: self.created_at,
        }
    }
}

/// Seconds left until `s` comes back at time `now`: none while no return
/// is due, never below 0.
pub open spec fn remaining_at(s: NpcInstanceState, now: int) -> int {
    match s.respawn_at {
        Some(t) => if t - now > 0 { t - now } else { 0 },
        None => 0,
    }
}

/// How long until `s` comes back, as shown: alive, about to, in seconds,
/// in minutes and seconds, or in hours and minutes.
pub open spec fn remaining_text(s: NpcInstanceState, now: int) -> Seq<char> {
    let secs = remaining_at(s, now);
    if s.is_alive {
        "存活中"@
    } else if secs <= 0 {
        "即将复活"@
    } else if secs < 60 {
        int_digits(secs) + "秒后复活"@
    } else if secs < 3600 {
        int_digits(secs / 60) + "分"@ + int_digits(secs % 60) + "秒后复活"@
    } else {
        int_digits(secs / 3600) + "小时"@ + int_digits((secs % 3600) / 60) + "分后复活"@
    }
}

/// The status of the NPCs of room `room` at `now`.
pub open spec fn room_status(d: RuntimeNpcDaemon, room: Seq<char>, now: int) -> Seq<char> {
    match room_instances(d, room) {
        Some(s) => status_lines(s, now),
        None => "房间未初始化"@,
    }
}

/// The times an instance can hold without its arithmetic overflowing.
pub open spec fn time_ok(t: int) -> bool {
    -1_000_000_000_000_000_000 <= t <= 1_000_000_000_000_000_000
}

impl NpcInstanceState {
    /// A living instance of `template_id` in `room_id`, made at `now`, with
    /// id `<template>_<room>_<now>`.
    pub fn new_at(template_id: String, room_id: String, respawn_seconds: i64, now: i64) -> (r: Self)
        ensures
            npc_instance_state_new_done(template_id, room_id, respawn_seconds, now, r),
    {
        let mut instance_id = template_id.clone();
        push_str(&mut instance_id, "_");
        push_str(&mut instance_id, room_id.as_str());
        push_str(&mut instance_id, "_");
        push_i64(&mut instance_id, now);
        NpcInstanceState {
            template_id,
            instance_id,
            current_room: room_id,
            is_alive: true,
            died_at: None,
            respawn_at: None,
            respawn_interval: respawn_seconds,
            created_at: now,
        }
    }

    /// A living instance made now (see `new_at`).
    pub fn new(template_id: String, room_id: String, respawn_seconds: i64) -> (r: Self)
        ensures
            exists|now: i64| #[trigger] npc_instance_state_new_done(template_id, room_id, respawn_seconds, now, r),
            r.instance_id@ == template_id@ + "_"@ + room_id@ + "_"@ + int_digits(r.created_at as int),
            r.template_id == template_id && r.current_room == room_id,
            r.is_alive && r.died_at is None && r.respawn_at is None,
            r.respawn_interval == respawn_seconds,
    {
        let now = current_timestamp();
        Self::new_at(template_id, room_id, respawn_seconds, now)
    }

    /// Dies at `now`, to come back one interval later.
    pub fn mark_dead_at(&mut self, now: i64)
        requires
            i64::MIN <= now + old(self).respawn_interval <= i64::MAX,
        ensures
            mark_dead_done(*old(self), *final(self), now),
    {
        self.is_alive = false;
        self.died_at = Some(now);
        self.respawn_at = Some(now + self.respawn_interval);
    }

    /// Dies now (see `mark_dead_at`).
    pub fn mark_dead(&mut self)
        requires
            time_ok(old(self).respawn_interval as int),
        ensures
            exists|now: i64| #[trigger] mark_dead_done(*old(self), *final(self), now),
            !final(self).is_alive,
            final(self).died_at matches Some(t) && final(self).respawn_at == Some((t + old(self).respawn_interval) as i64),
            final(self).template_id == old(self).template_id && final(self).instance_id == old(self).instance_id,
            final(self).current_room == old(self).current_room && final(self).respawn_interval == old(self).respawn_interval,
            final(self).created_at == old(self).created_at,
    {
        let now = current_timestamp();
        self.mark_dead_at(now);
    }

    /// Comes back to life.
    pub fn respawn(&mut self)
        ensures
            *final(self) == (NpcInstanceState { is_alive: true, died_at: None, respawn_at: None, ..*old(self) }),
    {
        self.is_alive = true;
        self.died_at = None;
        self.respawn_at = None;
    }

    /// Whether its return is due at `now`.
    pub fn can_respawn_at(&self, now: i64) -> (r: bool)
        ensures
            can_respawn_done(*self, now, r),
    {
        match self.respawn_at {
            Some(t) => now >= t,
            None => false,
        }
    }

    /// Whether its return is due now.
    pub fn can_respawn(&self) -> (r: bool)
        ensures
            exists|now: i64| #[trigger] can_respawn_done(*self, now, r),
            r ==> self.respawn_at is Some,
    {
        let now = current_timestamp();
        self.can_respawn_at(now)
    }

    /// Seconds left until it comes back at `now` (see `remaining_at`).
    pub fn respawn_remaining_at(&self, now: i64) -> (r: i64)
        requires
            self.respawn_at matches Some(t) ==> time_ok(t as int),
            time_ok(now as int),
        ensures
            respawn_remaining_done(*self, now, r),
    {
        match self.respawn_at {
            Some(t) => {
                let d = t - now;
                if d > 0 { d } else { 0 }
            },
            None => 0,
        }
    }

    /// Seconds left until it comes back now.
    pub fn respawn_remaining(&self) -> (r: i64)
        requires
            self.respawn_at matches Some(t) ==> time_ok(t as int),
        ensures
            exists|now: i64| #[trigger] respawn_remaining_done(*self, now, r),
            r >= 0,
            self.respawn_at is None ==> r == 0,
    {
        let now = current_timestamp();
        self.respawn_remaining_at(now)
    }

    /// How long until it comes back at `now`, as shown (see
    /// `remaining_text`).
    pub fn format_remaining_at(&self, now: i64) -> (r: String)
        requires
            self.respawn_at matches Some(t) ==> time_ok(t as int),
            time_ok(now as int),
        ensures
            r@ == remaining_text(*self, now as int),
    {
        if self.is_alive {
            return string_of("存活中");
        }
        let secs = self.respawn_remaining_at(now);
        if secs <= 0 {
            string_of("即将复活")
        } else if secs < 60 {
            let mut out = String::new();
            push_i64(&mut out, secs);
            push_str(&mut out, "秒后复活");
            assert(out@ =~= remaining_text(*self, now as int));
            out
        } else if secs < 3600 {
            let mut out = String::new();
            push_i64(&mut out, secs / 60);
            push_str(&mut out, "分");
            push_i64(&mut out, secs % 60);
            push_str(&mut out, "秒后复活");
            assert(out@ =~= remaining_text(*self, now as int));
            out
        } else {
            let mut out = String::new();
            push_i64(&mut out, secs / 3600);
            push_str(&mut out, "小时");
            push_i64(&mut out, (secs % 3600) / 60);
            push_str(&mut out, "分后复活");
            assert(out@ =~= remaining_text(*self, now as int));
            out
        }
    }

    /// How long until it comes back now, as shown.
    pub fn format_remaining(&self) -> (r: String)
        requires
            self.respawn_at matches Some(t) ==> time_ok(t as int),
        ensures
            exists|now: int| r@ == #[trigger] remaining_text(*self, now),
    {
        let now = current_timestamp();
        self.format_remaining_at(now)
    }
}

/// The instances of one room.
#[derive(Debug)]
pub struct RoomNpcs {
    pub room_id: String,
    pub instances: Vec<NpcInstanceState>,
}

impl Keyed for RoomNpcs {
    open spec fn key_view(&self) -> Seq<char> {
        self.room_id@
    }

    fn key(&self) -> (r: &String) {
        &self.room_id
    }
}

/// How long NPCs whose template id matches `pattern` stay dead.
#[derive(Debug)]
pub struct RespawnRule {
    pub pattern: String,
    pub seconds: i64,
}

impl Keyed for RespawnRule {
    open spec fn key_view(&self) -> Seq<char> {
        self.pattern@
    }

    fn key(&self) -> (r: &String) {
        &self.pattern
    }
}

/// The rooms' instances, the respawn rules and whether the background
/// task runs.
#[derive(Debug)]
pub struct RuntimeNpcDaemon {
    pub room_npcs: Vec<RoomNpcs>,
    pub respawn_intervals: Vec<RespawnRule>,
    pub background_running: bool,
}

/// The instances of room `room` (none when it was never set up).
pub open spec fn room_instances(d: RuntimeNpcDaemon, room: Seq<char>) -> Option<Seq<NpcInstanceState>> {
    match key_get(d.room_npcs@, room) {
        Some(r) => Some(r.instances@),
        None => None,
    }
}

/// The seconds of the rule for exactly `pattern`.
pub open spec fn rule_of(d: RuntimeNpcDaemon, pattern: Seq<char>) -> Option<i64> {
    match key_get(d.respawn_intervals@, pattern) {
        Some(r) => Some(r.seconds),
        None => None,
    }
}

/// The first rule of `rules` whose pattern starts `id`.
pub open spec fn first_prefix_rule(rules: Seq<RespawnRule>, id: Seq<char>) -> Option<i64>
    decreases rules.len(),
{
    if rules.len() == 0 {
        None
    } else {
        match first_prefix_rule(rules.drop_last(), id) {
            Some(s) => Some(s),
            None => if starts_with(id, rules.last().pattern@) { Some(rules.last().seconds) } else { None },
        }
    }
}

/// How long an NPC of template `id` stays dead: the rule for exactly its
/// id; else the first rule whose pattern starts its id; else the `boss`
/// rule (3600 without one) for ids holding `boss`, the `elite` rule (600)
/// for ids holding `elite`, and the `default` rule (300).
pub open spec fn interval_for(d: RuntimeNpcDaemon, id: Seq<char>) -> i64 {
    match rule_of(d, id) {
        Some(s) => s,
        None => match first_prefix_rule(d.respawn_intervals@, id) {
            Some(s) => s,
            None => if seq_contains(id, "boss"@) {
                match rule_of(d, "boss"@) { Some(s) => s, None => 3600 }
            } else if seq_contains(id, "elite"@) {
                match rule_of(d, "elite"@) { Some(s) => s, None => 600 }
            } else {
                match rule_of(d, "default"@) { Some(s) => s, None => 300 }
            },
        },
    }
}

/// The position of the first instance of template `t` in `s` that is
/// alive (`alive`) or dead (not `alive`).
pub open spec fn first_in_state(s: Seq<NpcInstanceState>, t: Seq<char>, alive: bool, i: int) -> bool {
    &&& 0 <= i < s.len() && s[i].template_id@ == t && s[i].is_alive == alive
    &&& forall|j: int| 0 <= j < i ==> !((#[trigger] s[j]).template_id@ == t && s[j].is_alive == alive)
}

/// The templates of the living instances of `s`, in order.
pub open spec fn alive_templates(s: Seq<NpcInstanceState>) -> Seq<Seq<char>>
    decreases s.len(),
{
    if s.len() == 0 {
        seq![]
    } else {
        let rest = alive_templates(s.drop_last());
        if s.last().is_alive { rest.push(s.last().template_id@) } else { rest }
    }
}

/// The dead instances of `s`.
pub open spec fn dead_in(s: Seq<NpcInstanceState>) -> nat
    decreases s.len(),
{
    if s.len() == 0 { 0 } else { dead_in(s.drop_last()) + if s.last().is_alive { 0nat } else { 1nat } }
}

/// The dead instances of all rooms of `rs`.
pub open spec fn dead_total(rs: Seq<RoomNpcs>) -> nat
    decreases rs.len(),
{
    if rs.len() == 0 { 0 } else { dead_total(rs.drop_last()) + dead_in(rs.last().instances@) }
}

/// The instances of all rooms of `rs`.
pub open spec fn instance_total(rs: Seq<RoomNpcs>) -> nat
    decreases rs.len(),
{
    if rs.len() == 0 { 0 } else { instance_total(rs.drop_last()) + rs.last().instances@.len() }
}

/// The status lines of `s` at `now`: each template with its return time.
pub open spec fn status_lines(s: Seq<NpcInstanceState>, now: int) -> Seq<char>
    decreases s.len(),
{
    if s.len() == 0 {
        seq![]
    } else {
        status_lines(s.drop_last(), now) + s.last().template_id@ + ": "@ + remaining_text(s.last(), now) + "\n"@
    }
}

/// `s` after the dead instances due at `now` came back.
pub open spec fn respawned(s: Seq<NpcInstanceState>, now: int) -> Seq<NpcInstanceState> {
    s.map_values(|x: NpcInstanceState| if !x.is_alive && (x.respawn_at matches Some(t) && now >= t) {
        NpcInstanceState { is_alive: true, died_at: None, respawn_at: None, ..x }
    } else {
        x
    })
}

/// The instances of `s` due to come back at `now`.
pub open spec fn due_in(s: Seq<NpcInstanceState>, now: int) -> nat
    decreases s.len(),
{
    if s.len() == 0 {
        0
    } else {
        due_in(s.drop_last(), now) + if !s.last().is_alive && (s.last().respawn_at matches Some(t) && now >= t) { 1nat } else { 0nat }
    }
}

/// The instances of all rooms of `rs` due to come back at `now`.
pub open spec fn due_total(rs: Seq<RoomNpcs>, now: int) -> nat
    decreases rs.len(),
{
    if rs.len() == 0 { 0 } else { due_total(rs.drop_last(), now) + due_in(rs.last().instances@, now) }
}

/// The instance at `i` after its death at `now`.
pub open spec fn killed(x: NpcInstanceState, now: int) -> NpcInstanceState {
    NpcInstanceState { is_alive: false, died_at: Some(now as i64), respawn_at: Some((now + x.respawn_interval) as i64), ..x }
}

/// The instance at `i` back to life.
pub open spec fn revived(x: NpcInstanceState) -> NpcInstanceState {
    NpcInstanceState { is_alive: true, died_at: None, respawn_at: None, ..x }
}

/// The default rules: 300 seconds by default, 180 for `xinshoucun/`, 120
/// for monsters, 3600 for bosses and 600 for elites.
pub open spec fn default_rules(rules: Seq<RespawnRule>) -> bool {
    rules.map_values(|r: RespawnRule| (r.pattern@, r.seconds)) == seq![
        ("default"@, 300i64), ("xinshoucun/"@, 180i64), ("monster"@, 120i64), ("boss"@, 3600i64), ("elite"@, 600i64)]
}

/// The position of the first instance of template `t` in `s`, alive or not.
pub open spec fn first_of(s: Seq<NpcInstanceState>, t: Seq<char>, i: int) -> bool {
    &&& 0 <= i < s.len() && s[i].template_id@ == t
    &&& forall|j: int| 0 <= j < i ==> (#[trigger] s[j]).template_id@ != t
}

/// Where the first instance of `t` in state `alive` is, if any.
fn find_in_state(s: &Vec<NpcInstanceState>, t: &str, alive: bool) -> (r: Option<usize>)
    ensures
        r matches Some(i) ==> first_in_state(s@, t@, alive, i as int),
        r is None ==> forall|j: int| 0 <= j < s@.len() ==> !((#[trigger] s@[j]).template_id@ == t@ && s@[j].is_alive == alive),
{
    let mut i: usize = 0;
    while i < s.len()
        invariant
            i <= s@.len(),
            forall|j: int| 0 <= j < i ==> !((#[trigger] s@[j]).template_id@ == t@ && s@[j].is_alive == alive),
        decreases s.len() - i,
    {
        if str_eq(s[i].template_id.as_str(), t) && s[i].is_alive == alive {
            return Some(i);
        }
        i = i + 1;
    }
    None
}

impl RuntimeNpcDaemon {
    /// One entry per room and one rule per pattern.
    pub open spec fn wf(&self) -> bool {
        keys_unique(self.room_npcs@) && keys_unique(self.respawn_intervals@)
    }

    /// No rooms set up, the default rules, no background task.
    pub fn new() -> (r: Self)
        ensures
            r.wf(),
            r.room_npcs@.len() == 0,
            default_rules(r.respawn_intervals@),
            !r.background_running,
    {
        let mut rules: Vec<RespawnRule> = Vec::new();
        rules.push(RespawnRule { pattern: string_of("default"), seconds: 300 });
        rules.push(RespawnRule { pattern: string_of("xinshoucun/"), seconds: 180 });
        rules.push(RespawnRule { pattern: string_of("monster"), seconds: 120 });
        rules.push(RespawnRule { pattern: string_of("boss"), seconds: 3600 });
        rules.push(RespawnRule { pattern: string_of("elite"), seconds: 600 });
        proof {
            reveal_strlit("default");
            reveal_strlit("xinshoucun/");
            reveal_strlit("monster");
            reveal_strlit("boss");
            reveal_strlit("elite");
            assert(rules@[0].pattern@.len() == 7 && rules@[1].pattern@.len() == 11 && rules@[2].pattern@.len() == 7);
            assert(rules@[3].pattern@.len() == 4 && rules@[4].pattern@.len() == 5);
            assert(rules@[0].pattern@[0] == 'd' && rules@[2].pattern@[0] == 'm');
            assert forall|a: int, b: int| 0 <= a < b < rules@.len() implies rules@[a].key_view() != rules@[b].key_view() by {
                if a == 0 && b == 2 {
                    assert(rules@[a].pattern@[0] != rules@[b].pattern@[0]);
                }
            }
            assert(rules@.map_values(|r: RespawnRule| (r.pattern@, r.seconds)) =~= seq![
                ("default"@, 300i64), ("xinshoucun/"@, 180i64), ("monster"@, 120i64), ("boss"@, 3600i64), ("elite"@, 600i64)]);
        }
        RuntimeNpcDaemon { room_npcs: Vec::new(), respawn_intervals: rules, background_running: false }
    }

    /// How long an NPC of template `template_id` stays dead (see
    /// `interval_for`).
    pub fn get_respawn_interval(&self, template_id: &str) -> (r: i64)
        ensures
            r == interval_for(*self, template_id@),
    {
        match get_key(&self.respawn_intervals, template_id) {
            Some(rule) => {
                return rule.seconds;
            },
            None => {},
        }
        let rules = &self.respawn_intervals;
        let mut i: usize = 0;
        while i < rules.len()
            invariant
                i <= rules@.len(),
                rules == &self.respawn_intervals,
                rule_of(*self, template_id@) is None,
                first_prefix_rule(rules@.take(i as int), template_id@) is None,
            decreases rules.len() - i,
        {
            assert(rules@.take(i as int + 1).drop_last() == rules@.take(i as int));
            assert(rules@.take(i as int + 1).last() == rules@[i as int]);
            if str_starts_with(template_id, rules[i].pattern.as_str()) {
                assert(first_prefix_rule(rules@.take(i as int + 1), template_id@) == Some(rules@[i as int].seconds));
                assert(rules@.take(rules@.len() as int) == rules@);
                proof {
                    lemma_prefix_rule_extends(rules@, i as int + 1, template_id@);
                }
                return rules[i].seconds;
            }
            i = i + 1;
        }
        assert(rules@.take(rules@.len() as int) == rules@);
        if str_contains(template_id, "boss") {
            match get_key(&self.respawn_intervals, "boss") {
                Some(rule) => rule.seconds,
                None => 3600,
            }
        } else if str_contains(template_id, "elite") {
            match get_key(&self.respawn_intervals, "elite") {
                Some(rule) => rule.seconds,
                None => 600,
            }
        } else {
            match get_key(&self.respawn_intervals, "default") {
                Some(rule) => rule.seconds,
                None => 300,
            }
        }
    }

    /// Sets room `room_id` up at `now` with one living instance per
    /// template of `npc_templates`, in order, each staying dead as long as
    /// its template's rule says; what the room had before is replaced.
    pub fn init_room_npcs_at(&mut self, room_id: &str, npc_templates: &Vec<String>, now: i64)
        requires
            old(self).wf(),
        ensures
            init_room_npcs_done(*old(self), *final(self), room_id, npc_templates, now),
    {
        let mut instances: Vec<NpcInstanceState> = Vec::new();
        let mut i: usize = 0;
        while i < npc_templates.len()
            invariant
                i <= npc_templates@.len(),
                instances@.len() == i,
                forall|j: int| 0 <= j < i ==> {
                    &&& (#[trigger] instances@[j]).template_id == npc_templates@[j]
                    &&& instances@[j].instance_id@ == npc_templates@[j]@ + "_"@ + room_id@ + "_"@ + int_digits(now as int)
                    &&& instances@[j].current_room@ == room_id@ && instances@[j].is_alive && instances@[j].died_at is None
                    &&& instances@[j].respawn_at is None
                    &&& instances@[j].respawn_interval == interval_for(*self, npc_templates@[j]@) && instances@[j].created_at == now
                },
            decreases npc_templates.len() - i,
        {
            let secs = self.get_respawn_interval(npc_templates[i].as_str());
            let x = NpcInstanceState::new_at(npc_templates[i].clone(), string_of(room_id), secs, now);
            instances.push(x);
            i = i + 1;
        }
        let ghost o = *self;
        put_key(&mut self.room_npcs, RoomNpcs { room_id: string_of(room_id), instances });
        proof {
            assert forall|k: Seq<char>| k != room_id@ implies #[trigger] room_instances(*self, k) == room_instances(o, k) by {
                assert(key_get(self.room_npcs@, k) == key_get(o.room_npcs@, k));
            }
        }
    }

    /// Sets room `room_id` up now (see `init_room_npcs_at`).
    pub fn init_room_npcs(&mut self, room_id: &str, npc_templates: &Vec<String>)
        requires
            old(self).wf(),
        ensures
            exists|now: i64| #[trigger] init_room_npcs_done(*old(self), *final(self), room_id, npc_templates, now),
            final(self).wf(),
            room_instances(*final(self), room_id@) matches Some(s) && s.len() == npc_templates@.len(),
            forall|k: Seq<char>| k != room_id@ ==> #[trigger] room_instances(*final(self), k) == room_instances(*old(self), k),
    {
        let now = current_timestamp();
        self.init_room_npcs_at(room_id, npc_templates, now);
    }

    /// The templates of the living instances of room `room_id`, in order;
    /// none for a room never set up.
    pub fn get_alive_npcs(&self, room_id: &str) -> (r: Vec<String>)
        ensures
            r@.map_values(|s: String| s@) == (match room_instances(*self, room_id@) {
                Some(s) => alive_templates(s),
                None => seq![],
            }),
    {
        let mut r: Vec<String> = Vec::new();
        match get_key(&self.room_npcs, room_id) {
            Some(room) => {
                let s = &room.instances;
                let mut i: usize = 0;
                while i < s.len()
                    invariant
                        i <= s@.len(),
                        r@.map_values(|x: String| x@) == alive_templates(s@.take(i as int)),
                    decreases s.len() - i,
                {
                    assert(s@.take(i as int + 1).drop_last() == s@.take(i as int));
                    assert(s@.take(i as int + 1).last() == s@[i as int]);
                    if s[i].is_alive {
                        r.push(s[i].template_id.clone());
                    }
                    assert(r@.map_values(|x: String| x@) =~= alive_templates(s@.take(i as int + 1)));
                    i = i + 1;
                }
                assert(s@.take(s@.len() as int) == s@);
            },
            None => {
                assert(r@.map_values(|x: String| x@) =~= Seq::<Seq<char>>::empty());
            },
        }
        r
    }

    /// A copy of all instances of room `room_id`, dead or alive.
    pub fn get_all_npcs(&self, room_id: &str) -> (r: Vec<NpcInstanceState>)
        ensures
            r@ == (match room_instances(*self, room_id@) {
                Some(s) => s,
                None => seq![],
            }),
    {
        match get_key(&self.room_npcs, room_id) {
            Some(room) => {
                let r = room.instances.clone();
                proof {
                    assert forall|i: int| 0 <= i < r@.len() implies r@[i] == room.instances@[i] by {
                        assert(cloned::<NpcInstanceState>(room.instances[i], r[i]));
                    }
                    assert(r@ =~= room.instances@);
                }
                r
            },
            None => Vec::new(),
        }
    }

    /// An NPC of template `template_id` died in room `room_id` at `now`:
    /// the first living instance of it there dies (see `killed`); nothing
    /// happens without one.
    pub fn on_npc_killed_at(&mut self, template_id: &str, room_id: &str, now: i64)
        requires
            old(self).wf(),
            room_instances(*old(self), room_id@) matches Some(s) ==> forall|i: int| 0 <= i < s.len()
                && (#[trigger] s[i]).template_id@ == template_id@ ==> i64::MIN <= now + s[i].respawn_interval <= i64::MAX,
        ensures
            on_npc_killed_done(*old(self), *final(self), template_id, room_id, now),
    {
        let ghost o = *self;
        match take_key(&mut self.room_npcs, room_id) {
            Some(mut room) => {
                let ghost s0 = room.instances@;
                assert(key_get(o.room_npcs@, room_id@) == Some(room));
                match find_in_state(&room.instances, template_id, true) {
                    Some(i) => {
                        let mut x = room.instances[i].clone();
                        assert(room.instances@ == s0);
                        assert(key_get(o.room_npcs@, room_id@) matches Some(rr) && rr.instances@ == s0);
                        assert(s0[i as int].template_id@ == template_id@);
                        assert(x == s0[i as int]);
                        assert(i64::MIN <= now + s0[i as int].respawn_interval <= i64::MAX) by {
                            let s = room_instances(*old(self), room_id@)->0;
                            assert(s == s0);
                            assert(s[i as int].template_id@ == template_id@);
                        }
                        x.mark_dead_at(now);
                        room.instances.set(i, x);
                        proof {
                            let c = choose|j: int| first_in_state(s0, template_id@, true, j);
                            if c < i {
                                assert(!(s0[c].template_id@ == template_id@ && s0[c].is_alive == true));
                            } else if c > i {
                                assert(!(s0[i as int].template_id@ == template_id@ && s0[i as int].is_alive == true));
                            }
                        }
                    },
                    None => {},
                }
                put_key(&mut self.room_npcs, room);
                proof {
                    assert forall|k: Seq<char>| k != room_id@ implies #[trigger] room_instances(*self, k) == room_instances(o, k) by {
                        assert(key_get(self.room_npcs@, k) == key_get(o.room_npcs@, k));
                    }
                }
            },
            None => {},
        }
    }

    /// An NPC of template `template_id` died in room `room_id` now (see
    /// `on_npc_killed_at`).
    pub fn on_npc_killed(&mut self, template_id: &str, room_id: &str)
        requires
            old(self).wf(),
            room_instances(*old(self), room_id@) matches Some(s) ==> forall|i: int| 0 <= i < s.len()
                && (#[trigger] s[i]).template_id@ == template_id@ ==> time_ok(s[i].respawn_interval as int),
        ensures
            exists|now: i64| #[trigger] on_npc_killed_done(*old(self), *final(self), template_id, room_id, now),
            final(self).wf(),
            forall|k: Seq<char>| k != room_id@ ==> #[trigger] room_instances(*final(self), k) == room_instances(*old(self), k),
    {
        let now = current_timestamp();
        self.on_npc_killed_at(template_id, room_id, now);
    }

    /// Brings back every dead instance whose return is due at `now` (see
    /// `respawned`); gives how many came back.
    pub fn process_respawns_at(&mut self, now: i64) -> (r: usize)
        requires
            old(self).wf(),
            due_total(old(self).room_npcs@, now as int) <= usize::MAX,
        ensures
            final(self).wf(),
            final(self).respawn_intervals@ == old(self).respawn_intervals@,
            final(self).background_running == old(self).background_running,
            r == due_total(old(self).room_npcs@, now as int),
            final(self).room_npcs@.len() == old(self).room_npcs@.len(),
            forall|i: int| 0 <= i < final(self).room_npcs@.len() ==> {
                &&& (#[trigger] final(self).room_npcs@[i]).room_id == old(self).room_npcs@[i].room_id
                &&& final(self).room_npcs@[i].instances@ == respawned(old(self).room_npcs@[i].instances@, now as int)
            },
    {
        let ghost o = self.room_npcs@;
        let mut count: usize = 0;
        let mut i: usize = 0;
        while i < self.room_npcs.len()
            invariant
                i <= self.room_npcs@.len(),
                self.room_npcs@.len() == o.len(),
                o == old(self).room_npcs@,
                self.respawn_intervals@ == old(self).respawn_intervals@,
                self.background_running == old(self).background_running,
                keys_unique(old(self).respawn_intervals@),
                due_total(o, now as int) <= usize::MAX,
                count == due_total(o.take(i as int), now as int),
                forall|j: int| 0 <= j < o.len() ==> (#[trigger] self.room_npcs@[j]).room_id == o[j].room_id,
                forall|j: int| 0 <= j < i ==> (#[trigger] self.room_npcs@[j]).instances@ == respawned(o[j].instances@, now as int),
                forall|j: int| i <= j < o.len() ==> (#[trigger] self.room_npcs@[j]).instances@ == o[j].instances@,
            decreases self.room_npcs.len() - i,
        {
            assert(o.take(i as int + 1).drop_last() == o.take(i as int));
            assert(o.take(i as int + 1).last() == o[i as int]);
            proof {
                lemma_due_total_prefix(o, i as int + 1, now as int);
            }
            let mut room = self.room_npcs.remove(i);
            let n = respawn_due(&mut room.instances, now);
            count = count + n;
            self.room_npcs.insert(i, room);
            i = i + 1;
        }
        assert(o.take(o.len() as int) == o);
        proof {
            assert forall|a: int, b: int| 0 <= a < b < self.room_npcs@.len() implies self.room_npcs@[a].key_view() != self.room_npcs@[b].key_view() by {
                assert(o[a].key_view() != o[b].key_view());
            }
        }
        count
    }

    /// Brings back every dead instance whose return is due now.
    pub fn process_respawns(&mut self) -> (r: usize)
        requires
            old(self).wf(),
            forall|now: int| #[trigger] due_total(old(self).room_npcs@, now) <= usize::MAX,
        ensures
            final(self).wf(),
            exists|now: int| r == #[trigger] due_total(old(self).room_npcs@, now),
    {
        let now = current_timestamp();
        self.process_respawns_at(now)
    }

    /// Nothing is left to clean: returns are handled as they fall due.
    pub fn cleanup(&mut self) -> (r: usize)
        ensures
            r == 0,
            *final(self) == *old(self),
    {
        0
    }

    /// Whether the first instance of template `template_id` in room
    /// `room_id` lives; an NPC without instances there counts as alive.
    pub fn is_npc_alive(&self, template_id: &str, room_id: &str) -> (r: bool)
        ensures
            r == (match room_instances(*self, room_id@) {
                Some(s) => if exists|i: int| first_of(s, template_id@, i) {
                    s[choose|i: int| first_of(s, template_id@, i)].is_alive
                } else {
                    true
                },
                None => true,
            }),
    {
        match get_key(&self.room_npcs, room_id) {
            Some(room) => {
                let s = &room.instances;
                let mut i: usize = 0;
                while i < s.len()
                    invariant
                        i <= s@.len(),
                        s == &room.instances,
                        room_instances(*self, room_id@) == Some(s@),
                        forall|j: int| 0 <= j < i ==> (#[trigger] s@[j]).template_id@ != template_id@,
                    decreases s.len() - i,
                {
                    if str_eq(s[i].template_id.as_str(), template_id) {
                        proof {
                            assert(first_of(s@, template_id@, i as int));
                            let c = choose|c: int| first_of(s@, template_id@, c);
                            if c < i {
                            } else if c > i {
                                assert(s@[i as int].template_id@ != template_id@);
                            }
                        }
                        return s[i].is_alive;
                    }
                    i = i + 1;
                }
                true
            },
            None => true,
        }
    }

    /// Brings the first dead instance of template `template_id` in room
    /// `room_id` back; says whether there was one.
    pub fn force_respawn(&mut self, template_id: &str, room_id: &str) -> (r: bool)
        requires
            old(self).wf(),
        ensures
            final(self).wf(),
            final(self).respawn_intervals@ == old(self).respawn_intervals@,
            forall|k: Seq<char>| k != room_id@ ==> #[trigger] room_instances(*final(self), k) == room_instances(*old(self), k),
            r == (room_instances(*old(self), room_id@) matches Some(s) && exists|i: int| first_in_state(s, template_id@, false, i)),
            room_instances(*old(self), room_id@) matches Some(s) ==> room_instances(*final(self), room_id@) == Some(
                if exists|i: int| first_in_state(s, template_id@, false, i) {
                    let i = choose|i: int| first_in_state(s, template_id@, false, i);
                    s.update(i, revived(s[i]))
                } else {
                    s
                }),
            room_instances(*old(self), room_id@) is None ==> room_instances(*final(self), room_id@) is None,
    {
        let ghost o = *self;
        match take_key(&mut self.room_npcs, room_id) {
            Some(mut room) => {
                let ghost s0 = room.instances@;
                let found = match find_in_state(&room.instances, template_id, false) {
                    Some(i) => {
                        let mut x = room.instances[i].clone();
                        x.respawn();
                        room.instances.set(i, x);
                        proof {
                            let c = choose|j: int| first_in_state(s0, template_id@, false, j);
                            if c < i {
                                assert(!(s0[c].template_id@ == template_id@ && s0[c].is_alive == false));
                            } else if c > i {
                                assert(!(s0[i as int].template_id@ == template_id@ && s0[i as int].is_alive == false));
                            }
                        }
                        true
                    },
                    None => false,
                };
                put_key(&mut self.room_npcs, room);
                proof {
                    assert forall|k: Seq<char>| k != room_id@ implies #[trigger] room_instances(*self, k) == room_instances(o, k) by {
                        assert(key_get(self.room_npcs@, k) == key_get(o.room_npcs@, k));
                    }
                }
                found
            },
            None => false,
        }
    }

    /// Each instance of room `room_id` with its return time at `now` (see
    /// `status_lines`); a note for a room never set up.
    pub fn get_room_npc_status_at(&self, room_id: &str, now: i64) -> (r: String)
        requires
            time_ok(now as int),
            room_instances(*self, room_id@) matches Some(s) ==> forall|i: int| 0 <= i < s.len()
                ==> ((#[trigger] s[i]).respawn_at matches Some(t) ==> time_ok(t as int)),
        ensures
            r@ == room_status(*self, room_id@, now as int),
    {
        match get_key(&self.room_npcs, room_id) {
            Some(room) => {
                let s = &room.instances;
                assert(room_instances(*self, room_id@) == Some(s@));
                assert forall|j: int| 0 <= j < s@.len() implies ((#[trigger] s@[j]).respawn_at matches Some(t) ==> time_ok(t as int)) by {
                    let ss = room_instances(*self, room_id@)->0;
                    assert(ss == s@);
                    assert(ss[j] == s@[j]);
                }
                let mut out = String::new();
                let mut i: usize = 0;
                while i < s.len()
                    invariant
                        i <= s@.len(),
                        time_ok(now as int),
                        forall|j: int| 0 <= j < s@.len() ==> ((#[trigger] s@[j]).respawn_at matches Some(t) ==> time_ok(t as int)),
                        out@ == status_lines(s@.take(i as int), now as int),
                    decreases s.len() - i,
                {
                    assert(s@.take(i as int + 1).drop_last() == s@.take(i as int));
                    assert(s@.take(i as int + 1).last() == s@[i as int]);
                    push_str(&mut out, s[i].template_id.as_str());
                    push_str(&mut out, ": ");
                    let t = s[i].format_remaining_at(now);
                    push_str(&mut out, t.as_str());
                    push_str(&mut out, "\n");
                    assert(out@ =~= status_lines(s@.take(i as int + 1), now as int));
                    i = i + 1;
                }
                assert(s@.take(s@.len() as int) == s@);
                out
            },
            None => string_of("房间未初始化"),
        }
    }

    /// The room's NPCs now: what `get_room_npc_status_at` gives at the time
    /// the clock gives.
    pub fn get_room_npc_status(&self, room_id: &str) -> (r: String)
        requires
            room_instances(*self, room_id@) matches Some(s) ==> forall|i: int| 0 <= i < s.len()
                ==> ((#[trigger] s[i]).respawn_at matches Some(t) ==> time_ok(t as int)),
        ensures
            exists|now: int| time_ok(now) && r@ == #[trigger] room_status(*self, room_id@, now),
    {
        let now = current_timestamp();
        self.get_room_npc_status_at(room_id, now)
    }

    /// Sets how long NPCs whose template matches `pattern` stay dead.
    pub fn set_respawn_interval(&mut self, pattern: String, seconds: i64)
        requires
            old(self).wf(),
        ensures
            final(self).wf(),
            rule_of(*final(self), pattern@) == Some(seconds),
            forall|k: Seq<char>| k != pattern@ ==> #[trigger] rule_of(*final(self), k) == rule_of(*old(self), k),
            final(self).room_npcs@ == old(self).room_npcs@,
    {
        let ghost o = *self;
        let ghost pv = pattern@;
        put_key(&mut self.respawn_intervals, RespawnRule { pattern, seconds });
        proof {
            assert forall|k: Seq<char>| k != pv implies #[trigger] rule_of(*self, k) == rule_of(o, k) by {
                assert(key_get(self.respawn_intervals@, k) == key_get(o.respawn_intervals@, k));
            }
        }
    }

    /// The number of dead instances in all rooms.
    pub fn dead_count(&self) -> (r: usize)
        requires
            dead_total(self.room_npcs@) <= usize::MAX,
        ensures
            r == dead_total(self.room_npcs@),
    {
        let rs = &self.room_npcs;
        let mut count: usize = 0;
        let mut i: usize = 0;
        while i < rs.len()
            invariant
                i <= rs@.len(),
                dead_total(rs@) <= usize::MAX,
                count == dead_total(rs@.take(i as int)),
            decreases rs.len() - i,
        {
            assert(rs@.take(i as int + 1).drop_last() == rs@.take(i as int));
            assert(rs@.take(i as int + 1).last() == rs@[i as int]);
            proof {
                lemma_dead_total_prefix(rs@, i as int + 1);
            }
            let s = &rs[i].instances;
            let mut j: usize = 0;
            let ghost base = count;
            while j < s.len()
                invariant
                    j <= s@.len(),
                    base + dead_in(s@) <= usize::MAX,
                    count == base + dead_in(s@.take(j as int)),
                decreases s.len() - j,
            {
                assert(s@.take(j as int + 1).drop_last() == s@.take(j as int));
                assert(s@.take(j as int + 1).last() == s@[j as int]);
                proof {
                    lemma_dead_in_prefix(s@, j as int + 1);
                }
                if !s[j].is_alive {
                    count = count + 1;
                }
                j = j + 1;
            }
            assert(s@.take(s@.len() as int) == s@);
            i = i + 1;
        }
        assert(rs@.take(rs@.len() as int) == rs@);
        count
    }

    /// The number of instances in all rooms.
    pub fn total_count(&self) -> (r: usize)
        requires
            instance_total(self.room_npcs@) <= usize::MAX,
        ensures
            r == instance_total(self.room_npcs@),
    {
        let rs = &self.room_npcs;
        let mut count: usize = 0;
        let mut i: usize = 0;
        while i < rs.len()
            invariant
                i <= rs@.len(),
                instance_total(rs@) <= usize::MAX,
                count == instance_total(rs@.take(i as int)),
            decreases rs.len() - i,
        {
            assert(rs@.take(i as int + 1).drop_last() == rs@.take(i as int));
            assert(rs@.take(i as int + 1).last() == rs@[i as int]);
            proof {
                lemma_instance_total_prefix(rs@, i as int + 1);
            }
            count = count + rs[i].instances.len();
            i = i + 1;
        }
        assert(rs@.take(rs@.len() as int) == rs@);
        count
    }
}

impl Default for RuntimeNpcDaemon {
    fn default() -> (r: Self)
        ensures
            r.wf(),
            r.room_npcs@.len() == 0,
            default_rules(r.respawn_intervals@),
            !r.background_running,
    {
        RuntimeNpcDaemon::new()
    }
}

/// Once a prefix of the rules has a match, longer prefixes keep it.
proof fn lemma_prefix_rule_extends(rules: Seq<RespawnRule>, n: int, id: Seq<char>)
    requires
        0 <= n <= rules.len(),
        first_prefix_rule(rules.take(n), id) is Some,
    ensures
        first_prefix_rule(rules, id) == first_prefix_rule(rules.take(n), id),
    decreases rules.len() - n,
{
    if n < rules.len() {
        assert(rules.take(n + 1).drop_last() == rules.take(n));
        lemma_prefix_rule_extends(rules, n + 1, id);
    } else {
        assert(rules.take(n) == rules);
    }
}

/// A prefix counts no more than the whole.
proof fn lemma_due_total_prefix(rs: Seq<RoomNpcs>, n: int, now: int)
    requires
        0 <= n <= rs.len(),
    ensures
        due_total(rs.take(n), now) <= due_total(rs, now),
    decreases rs.len() - n,
{
    if n < rs.len() {
        assert(rs.take(n + 1).drop_last() == rs.take(n));
        lemma_due_total_prefix(rs, n + 1, now);
    } else {
        assert(rs.take(n) == rs);
    }
}

/// A prefix counts no more than the whole.
proof fn lemma_dead_total_prefix(rs: Seq<RoomNpcs>, n: int)
    requires
        0 <= n <= rs.len(),
    ensures
        dead_total(rs.take(n)) <= dead_total(rs),
    decreases rs.len() - n,
{
    if n < rs.len() {
        assert(rs.take(n + 1).drop_last() == rs.take(n));
        lemma_dead_total_prefix(rs, n + 1);
    } else {
        assert(rs.take(n) == rs);
    }
}

/// A prefix counts no more than the whole.
proof fn lemma_dead_in_prefix(s: Seq<NpcInstanceState>, n: int)
    requires
        0 <= n <= s.len(),
    ensures
        dead_in(s.take(n)) <= dead_in(s),
    decreases s.len() - n,
{
    if n < s.len() {
        assert(s.take(n + 1).drop_last() == s.take(n));
        lemma_dead_in_prefix(s, n + 1);
    } else {
        assert(s.take(n) == s);
    }
}

/// A prefix counts no more than the whole.
proof fn lemma_instance_total_prefix(rs: Seq<RoomNpcs>, n: int)
    requires
        0 <= n <= rs.len(),
    ensures
        instance_total(rs.take(n)) <= instance_total(rs),
    decreases rs.len() - n,
{
    if n < rs.len() {
        assert(rs.take(n + 1).drop_last() == rs.take(n));
        lemma_instance_total_prefix(rs, n + 1);
    } else {
        assert(rs.take(n) == rs);
    }
}

/// Brings back the instances of `s` due at `now`; gives how many.
fn respawn_due(s: &mut Vec<NpcInstanceState>, now: i64) -> (r: usize)
    ensures
        final(s)@ == respawned(old(s)@, now as int),
        r == due_in(old(s)@, now as int),
{
    let ghost o = s@;
    let mut n: usize = 0;
    let mut i: usize = 0;
    while i < s.len()
        invariant
            i <= s@.len(),
            s@.len() == o.len(),
            n == due_in(o.take(i as int), now as int),
            n <= i,
            forall|j: int| 0 <= j < i ==> (#[trigger] s@[j]) == respawned(o, now as int)[j],
            forall|j: int| i <= j < o.len() ==> (#[trigger] s@[j]) == o[j],
        decreases s.len() - i,
    {
        assert(o.take(i as int + 1).drop_last() == o.take(i as int));
        assert(o.take(i as int + 1).last() == o[i as int]);
        if !s[i].is_alive && s[i].can_respawn_at(now) {
            let mut x = s[i].clone();
            x.respawn();
            s.set(i, x);
            n = n + 1;
        }
        i = i + 1;
    }
    assert(o.take(o.len() as int) == o);
    assert(s@ =~= respawned(o, now as int));
    n
}

/// What `NpcInstanceState::mark_dead_at` promises: `o` is the value before the call, `f` the value
/// after.
pub open spec fn mark_dead_done(o: NpcInstanceState, f: NpcInstanceState, now: i64) -> bool {
    &&& (f == (NpcInstanceState {
        is_alive: false,
        died_at: Some(now),
        respawn_at: Some((now + o.respawn_interval) as i64),
        ..o
    }))
}

/// What `NpcInstanceState::can_respawn_at` promises: `this` is the value it is called on, `r` what it
/// gives back.
pub open spec fn can_respawn_done(this: NpcInstanceState, now: i64, r: bool) -> bool {
    &&& (r == (this.respawn_at matches Some(t) && now >= t))
}

/// What `NpcInstanceState::respawn_remaining_at` promises: `this` is the value it is called on, `r`
/// what it gives back.
pub open spec fn respawn_remaining_done(this: NpcInstanceState, now: i64, r: i64) -> bool {
    &&& (r == remaining_at(this, now as int))
}

/// What `RuntimeNpcDaemon::init_room_npcs_at` promises: `o` is the value before the call, `f` the value
/// after.
pub open spec fn init_room_npcs_done(
    o: RuntimeNpcDaemon, f: RuntimeNpcDaemon, room_id: &str, npc_templates: &Vec<String>, now: i64) -> bool {
    &&& (f.wf())
    &&& (f.respawn_intervals@ == o.respawn_intervals@)
    &&& (f.background_running == o.background_running)
    &&& (room_instances(f, room_id@) matches Some(s) && {
        &&& s.len() == npc_templates@.len()
        &&& forall|i: int| 0 <= i < s.len() ==> {
            &&& (#[trigger] s[i]).template_id == npc_templates@[i]
            &&& s[i].instance_id@ == npc_templates@[i]@ + "_"@ + room_id@ + "_"@ + int_digits(now as int)
            &&& s[i].current_room@ == room_id@ && s[i].is_alive && s[i].died_at is None && s[i].respawn_at is None
            &&& s[i].respawn_interval == interval_for(o, npc_templates@[i]@) && s[i].created_at == now
        }
    })
    &&& (forall|k: Seq<char>| k != room_id@ ==> #[trigger] room_instances(f, k) == room_instances(o, k))
}

/// What `RuntimeNpcDaemon::on_npc_killed_at` promises: `o` is the value before the call, `f` the value
/// after.
pub open spec fn on_npc_killed_done(
    o: RuntimeNpcDaemon, f: RuntimeNpcDaemon, template_id: &str, room_id: &str, now: i64) -> bool {
    &&& (f.wf())
    &&& (f.respawn_intervals@ == o.respawn_intervals@)
    &&& (f.background_running == o.background_running)
    &&& (forall|k: Seq<char>| k != room_id@ ==> #[trigger] room_instances(f, k) == room_instances(o, k))
    &&& (room_instances(o, room_id@) matches Some(s) ==> room_instances(f, room_id@) == Some(
        if exists|i: int| first_in_state(s, template_id@, true, i) {
            let i = choose|i: int| first_in_state(s, template_id@, true, i);
            s.update(i, killed(s[i], now as int))
        } else {
            s
        }))
    &&& (room_instances(o, room_id@) is None ==> room_instances(f, room_id@) is None)
}

/// What `NpcInstanceState::new_at` promises: for the arguments given, `r` what it gives back.
pub open spec fn npc_instance_state_new_done(
    template_id: String, room_id: String, respawn_seconds: i64, now: i64, r: NpcInstanceState) -> bool {
    &&& (r.instance_id@ == template_id@ + "_"@ + room_id@ + "_"@ + int_digits(now as int))
    &&& (r.template_id == template_id && r.current_room == room_id)
    &&& (r.is_alive && r.died_at is None && r.respawn_at is None)
    &&& (r.respawn_interval == respawn_seconds && r.created_at == now)
}

} // verus!
