//! An NPC with its combat figures and place, and the manager that makes
//! NPCs from templates and keeps the ones in the world. The combat figures
//! come from the caller: the game derives them from the NPC's level
//! elsewhere.
use vstd::prelude::*;
use crate::errors::MudError;
use crate::text::{push_str, push_u64, string_of, str_eq, nat_digits};
use crate::util::{Keyed, key_get, keys_unique, get_key, put_key, take_key};
use crate::outside::{current_timestamp, new_uuid};
use crate::npc::base::{NpcBase, NpcType, npc_render, same_base};

verus! {

/// The combat figures of an NPC that NPCs themselves use.
#[derive(Clone, Copy, Debug, PartialEq, Eq, Structural)]
pub struct CombatStats {
    pub hp: u32,
    pub max_hp: u32,
    pub qi: u32,
    pub max_qi: u32,
    pub shen: u32,
    pub max_shen: u32,
    pub attack: u32,
    pub defense: u32,
}

/// An NPC in full: its attributes, combat figures, room, and when it was
/// made and when it died.
#[derive(Debug)]
pub struct Npc {
    pub base: NpcBase,
    pub combat: CombatStats,
    pub current_room: Option<String>,
    pub created_at: i64,
    pub died_at: Option<i64>,
}

impl Keyed for Npc {
    open spec fn key_view(&self) -> Seq<char> {
        self.base.id@
    }

    fn key(&self) -> (r: &String) {
        &self.base.id
    }
}

/// `a` and `b` are the same NPC in every field.
pub open spec fn same_npc(a: Npc, b: Npc) -> bool {
    same_base(a.base, b.base) && a.combat == b.combat && a.current_room == b.current_room && a.created_at == b.created_at
        && a.died_at == b.died_at
}

/// The information line of NPC `n` before its saying: description, level
/// and, for one that may be attacked, its HP.
pub open spec fn npc_info_head(n: Npc) -> Seq<char> {
    npc_render(n.base.name_cn@, n.base.desc@) + "等级: "@ + nat_digits(n.base.level as nat) + "\n"@
        + if n.base.attackable {
            "生命: "@ + nat_digits(n.combat.hp as nat) + "/"@ + nat_digits(n.combat.max_hp as nat) + "\n"@
        } else {
            seq![]
        }
}

impl Clone for Npc {
    fn clone(&self) -> (r: Self)
        ensures
            same_npc(r, *self),
    {
        let current_room = match &self.current_room {
            Some(x) => Some(x.clone()),
            None => None,
        };
        Npc { base: self.base.clone(), combat: self.combat, current_room, created_at: self.created_at, died_at: self.died_at }
    }
}

impl Npc {
    /// An NPC of `npc_type` at `level` with combat figures `combat`, made at
    /// `now`, in no room and alive (see `NpcBase::new` for the rest).
    pub fn new_at(name: String, name_cn: String, npc_type: NpcType, level: u32, combat: CombatStats, now: i64) -> (r: Self)
        ensures
            npc_new_done(name, name_cn, npc_type, level, combat, now, r),
    {
        let base = NpcBase::new(name, name_cn, npc_type).with_level(level);
        Npc { base, combat, current_room: None, created_at: now, died_at: None }
    }

    /// An NPC made now (see `new_at`).
    pub fn new(name: String, name_cn: String, npc_type: NpcType, level: u32, combat: CombatStats) -> (r: Self)
        ensures
            exists|now: i64| #[trigger] npc_new_done(name, name_cn, npc_type, level, combat, now, r),
            r.base.name == name && r.base.name_cn == name_cn && r.base.npc_type == npc_type && r.base.level == level,
            r.combat == combat && r.current_room is None && r.died_at is None,
    {
        let now = current_timestamp();
        Self::new_at(name, name_cn, npc_type, level, combat, now)
    }

    /// The NPC with combat figures `combat`.
    pub fn with_combat(self, combat: CombatStats) -> (r: Self)
        ensures
            r == (Npc { combat, ..self }),
    {
        Npc { combat, ..self }
    }

    /// The NPC in room `room_id`.
    pub fn with_room(self, room_id: String) -> (r: Self)
        ensures
            r == (Npc { current_room: Some(room_id), ..self }),
    {
        Npc { current_room: Some(room_id), ..self }
    }

    /// Whether the NPC lives: it has HP left.
    pub fn is_alive(&self) -> (r: bool)
        ensures
            r == (self.combat.hp > 0),
    {
        self.combat.hp > 0
    }

    /// Whether the NPC is a monster or a boss.
    pub fn is_monster(&self) -> (r: bool)
        ensures
            r == (self.base.npc_type == NpcType::Monster || self.base.npc_type == NpcType::Boss),
    {
        match self.base.npc_type {
            NpcType::Monster | NpcType::Boss => true,
            _ => false,
        }
    }

    /// The NPC's information (see `npc_info_head`), followed by one of its
    /// lines, picked by chance, in quotes when it has any.
    pub fn render_info(&self) -> (r: String)
        ensures
            self.base.dialogue@.len() == 0 ==> r@ == npc_info_head(*self),
            self.base.dialogue@.len() > 0 ==> exists|i: int| 0 <= i < self.base.dialogue@.len()
                && r@ == npc_info_head(*self) + "\""@ + (#[trigger] self.base.dialogue@[i])@ + "\"\n"@,
    {
        let mut out = self.base.render();
        push_str(&mut out, "等级: ");
        push_u64(&mut out, self.base.level as u64);
        push_str(&mut out, "\n");
        if self.base.attackable {
            push_str(&mut out, "生命: ");
            push_u64(&mut out, self.combat.hp as u64);
            push_str(&mut out, "/");
            push_u64(&mut out, self.combat.max_hp as u64);
            push_str(&mut out, "\n");
        }
        assert(out@ =~= npc_info_head(*self));
        if self.base.dialogue.len() > 0 {
            match self.base.get_random_dialogue() {
                Some(d) => {
                    let ghost i = choose|i: int| 0 <= i < self.base.dialogue@.len() && self.base.dialogue@[i] == *d;
                    push_str(&mut out, "\"");
                    push_str(&mut out, d.as_str());
                    push_str(&mut out, "\"\n");
                    assert(out@ =~= npc_info_head(*self) + "\""@ + self.base.dialogue@[i]@ + "\"\n"@);
                },
                None => {},
            }
        }
        out
    }

    /// Takes `damage` at `now`: at or above the HP left, the NPC dies then
    /// (HP 0) and true is given back; otherwise the HP drop.
    pub fn take_damage_at(&mut self, damage: u32, now: i64) -> (r: bool)
        ensures
            take_damage_done(*old(self), *final(self), damage, now, r),
    {
        if damage >= self.combat.hp {
            self.combat.hp = 0;
            self.died_at = Some(now);
            true
        } else {
            self.combat.hp = self.combat.hp - damage;
            false
        }
    }

    /// Takes `damage` now (see `take_damage_at`).
    pub fn take_damage(&mut self, damage: u32) -> (r: bool)
        ensures
            exists|now: i64| #[trigger] take_damage_done(*old(self), *final(self), damage, now, r),
            r == (damage >= old(self).combat.hp),
            r ==> final(self).combat == (CombatStats { hp: 0, ..old(self).combat }) && final(self).died_at is Some,
            !r ==> final(self).combat == (CombatStats { hp: (old(self).combat.hp - damage) as u32, ..old(self).combat })
                && final(self).died_at == old(self).died_at,
            final(self).base == old(self).base && final(self).current_room == old(self).current_room,
    {
        let now = current_timestamp();
        self.take_damage_at(damage, now)
    }

    /// Heals `amount` HP, up to the maximum.
    pub fn heal(&mut self, amount: u32)
        requires
            old(self).combat.hp + amount <= u32::MAX,
        ensures
            *final(self) == (Npc { combat: CombatStats { hp: if old(self).combat.hp + amount < old(self).combat.max_hp {
                (old(self).combat.hp + amount) as u32 } else { old(self).combat.max_hp }, ..old(self).combat }, ..*old(self) }),
    {
        let h = self.combat.hp + amount;
        self.combat.hp = if h < self.combat.max_hp { h } else { self.combat.max_hp };
    }

    /// Brings the NPC back at `now`: HP, qi and spirit full, alive, made anew.
    pub fn respawn_at(&mut self, now: i64)
        ensures
            respawn_done(*old(self), *final(self), now),
    {
        self.combat.hp = self.combat.max_hp;
        self.combat.qi = self.combat.max_qi;
        self.combat.shen = self.combat.max_shen;
        self.died_at = None;
        self.created_at = now;
    }

    /// Brings the NPC back now (see `respawn_at`).
    pub fn respawn(&mut self)
        ensures
            exists|now: i64| #[trigger] respawn_done(*old(self), *final(self), now),
            final(self).combat == (CombatStats { hp: old(self).combat.max_hp, qi: old(self).combat.max_qi,
                shen: old(self).combat.max_shen, ..old(self).combat }),
            final(self).died_at is None && final(self).base == old(self).base && final(self).current_room == old(self).current_room,
    {
        let now = current_timestamp();
        self.respawn_at(now);
    }
}

/// A template of NPCs, filed by its template id.
#[derive(Debug)]
pub struct NpcTemplate {
    pub npc: Npc,
}

impl Keyed for NpcTemplate {
    open spec fn key_view(&self) -> Seq<char> {
        self.npc.base.template_id@
    }

    fn key(&self) -> (r: &String) {
        &self.npc.base.template_id
    }
}

/// The NPC templates by template id, and the NPCs in the world by id.
#[derive(Debug)]
pub struct NpcManager {
    pub templates: Vec<NpcTemplate>,
    pub active_npcs: Vec<Npc>,
}

/// `n` is made from template `t` at `now`: the same but for a fresh id, the
/// time it was made and no death.
pub open spec fn made_from(n: Npc, t: Npc, now: i64) -> bool {
    &&& n.base == NpcBase { id: n.base.id, dialogue: n.base.dialogue, shop_items: n.base.shop_items, teach_skills: n.base.teach_skills, ..t.base }
    &&& n.base.dialogue@ == t.base.dialogue@ && n.base.shop_items@ == t.base.shop_items@ && n.base.teach_skills@ == t.base.teach_skills@
    &&& n.combat == t.combat && n.current_room == t.current_room && n.created_at == now && n.died_at is None
}

/// The NPCs of `s` in room `room`, in order.
pub open spec fn npcs_in(s: Seq<Npc>, room: Seq<char>) -> Seq<Npc>
    decreases s.len(),
{
    if s.len() == 0 {
        seq![]
    } else {
        let rest = npcs_in(s.drop_last(), room);
        if s.last().current_room matches Some(r) && r@ == room { rest.push(s.last()) } else { rest }
    }
}

impl NpcManager {
    /// One template per template id, one NPC per id.
    pub open spec fn wf(&self) -> bool {
        keys_unique(self.templates@) && keys_unique(self.active_npcs@)
    }

    /// No templates and no NPCs.
    pub fn new() -> (r: Self)
        ensures
            r.wf(),
            r.templates@.len() == 0 && r.active_npcs@.len() == 0,
    {
        NpcManager { templates: Vec::new(), active_npcs: Vec::new() }
    }

    /// An NPC made at `now` from template `template_id` (see `made_from`),
    /// with a fresh random id. Fails with `NPC模板不存在: <id>` for an
    /// unknown template.
    pub fn create_npc_at(&self, template_id: &str, now: i64) -> (r: Result<Npc, MudError>)
        ensures
            key_get(self.templates@, template_id@) is None ==> (r matches Err(MudError::NotFound(m))
                && m@ == "NPC模板不存在: "@ + template_id@),
            key_get(self.templates@, template_id@) matches Some(t) ==> (r matches Ok(n) && made_from(n, t.npc, now)),
    {
        match get_key(&self.templates, template_id) {
            Some(t) => {
                let mut n = t.npc.clone();
                n.base.id = new_uuid();
                n.created_at = now;
                n.died_at = None;
                Ok(n)
            },
            None => {
                let mut m = string_of("NPC模板不存在: ");
                push_str(&mut m, template_id);
                Err(MudError::NotFound(m))
            },
        }
    }

    /// Files `npc` as a template under its template id, replacing one.
    pub fn register_template(&mut self, npc: Npc)
        requires
            old(self).wf(),
        ensures
            final(self).wf(),
            key_get(final(self).templates@, npc.base.template_id@) == Some(NpcTemplate { npc }),
            forall|k: Seq<char>| k != npc.base.template_id@ ==> #[trigger] key_get(final(self).templates@, k)
                == key_get(old(self).templates@, k),
            final(self).active_npcs == old(self).active_npcs,
    {
        put_key(&mut self.templates, NpcTemplate { npc });
    }

    /// Makes an NPC from template `template_id` at `now` and puts it in
    /// room `room_id`; gives back its id. Fails as `create_npc_at` does.
    pub fn spawn_npc_at(&mut self, template_id: &str, room_id: String, now: i64) -> (r: Result<String, MudError>)
        requires
            old(self).wf(),
        ensures
            spawn_npc_done(*old(self), *final(self), template_id, room_id, now, r),
    {
        let ghost room = room_id;
        let mut n = match self.create_npc_at(template_id, now) {
            Ok(n) => n,
            Err(e) => return Err(e),
        };
        n.current_room = Some(room_id);
        let id = n.base.id.clone();
        put_key(&mut self.active_npcs, n);
        Ok(id)
    }

    /// Makes an NPC from a template now and puts it in a room (see
    /// `spawn_npc_at`).
    pub fn spawn_npc(&mut self, template_id: &str, room_id: String) -> (r: Result<String, MudError>)
        requires
            old(self).wf(),
        ensures
            exists|now: i64| #[trigger] spawn_npc_done(*old(self), *final(self), template_id, room_id, now, r),
            final(self).wf(),
            key_get(old(self).templates@, template_id@) is None ==> (r matches Err(MudError::NotFound(m))
                && m@ == "NPC模板不存在: "@ + template_id@),
            key_get(old(self).templates@, template_id@) is Some ==> (r matches Ok(id)
                && key_get(final(self).active_npcs@, id@) matches Some(n) && n.current_room == Some(room_id)),
    {
        let now = current_timestamp();
        self.spawn_npc_at(template_id, room_id, now)
    }

    /// The NPC with id `npc_id` in the world.
    pub fn get_npc(&self, npc_id: &str) -> (r: Option<&Npc>)
        ensures
            r matches Some(n) ==> key_get(self.active_npcs@, npc_id@) == Some(*n),
            r is None <==> key_get(self.active_npcs@, npc_id@) is None,
    {
        get_key(&self.active_npcs, npc_id)
    }

    /// The NPC with id `npc_id`, to be changed in place, if it is in the
    /// world: what is written through it becomes that NPC, and nothing
    /// else changes.
    pub fn get_npc_mut(&mut self, npc_id: &str) -> (r: Option<&mut Npc>)
        ensures
            r is None <==> key_get(old(self).active_npcs@, npc_id@) is None,
            r is None ==> *final(self) == *old(self),
            r matches Some(n) ==> key_get(old(self).active_npcs@, npc_id@) == Some(*n)
                && final(self).templates == old(self).templates
                && (exists|i: int| crate::util::key_pos(old(self).active_npcs@, npc_id@, i)
                    && final(self).active_npcs@ == old(self).active_npcs@.update(i, *final(n))),
    {
        match crate::util::find_key(&self.active_npcs, npc_id) {
            Some(i) => {
                proof {
                    crate::util::lemma_key_get_at(self.active_npcs@, npc_id@, i as int);
                }
                Some(&mut self.active_npcs[i])
            },
            None => {
                proof {
                    crate::util::lemma_key_get_none(self.active_npcs@, npc_id@);
                }
                None
            },
        }
    }

    /// Takes the NPC with id `npc_id` out of the world.
    pub fn remove_npc(&mut self, npc_id: &str) -> (r: Option<Npc>)
        requires
            old(self).wf(),
        ensures
            final(self).wf(),
            r == key_get(old(self).active_npcs@, npc_id@),
            key_get(final(self).active_npcs@, npc_id@) is None,
            forall|k: Seq<char>| k != npc_id@ ==> #[trigger] key_get(final(self).active_npcs@, k) == key_get(old(self).active_npcs@, k),
            final(self).templates == old(self).templates,
    {
        take_key(&mut self.active_npcs, npc_id)
    }

    /// The NPCs in room `room_id`, in order.
    pub fn get_npcs_in_room(&self, room_id: &str) -> (r: Vec<&Npc>)
        ensures
            r@.map_values(|n: &Npc| *n) == npcs_in(self.active_npcs@, room_id@),
    {
        let s = &self.active_npcs;
        let mut r: Vec<&Npc> = Vec::new();
        let mut i: usize = 0;
        while i < s.len()
            invariant
                i <= s@.len(),
                r@.map_values(|n: &Npc| *n) == npcs_in(s@.take(i as int), room_id@),
            decreases s.len() - i,
        {
            assert(s@.take(i as int + 1).drop_last() == s@.take(i as int));
            assert(s@.take(i as int + 1).last() == s@[i as int]);
            let ghost before = r@;
            let here = match &s[i].current_room {
                Some(x) => str_eq(x.as_str(), room_id),
                None => false,
            };
            if here {
                r.push(&s[i]);
                assert(r@ == before.push(&s@[i as int]));
            }
            assert(r@.map_values(|n: &Npc| *n) =~= npcs_in(s@.take(i as int + 1), room_id@));
            i = i + 1;
        }
        assert(s@.take(s@.len() as int) == s@);
        r
    }
}

impl Default for NpcManager {
    fn default() -> (r: Self)
        ensures
            r.wf(),
            r.templates@.len() == 0 && r.active_npcs@.len() == 0,
    {
        NpcManager::new()
    }
}

/// What `Npc::take_damage_at` promises: `o` is the value before the call, `f` the value after, `r` what
/// it gives back.
pub open spec fn take_damage_done(o: Npc, f: Npc, damage: u32, now: i64, r: bool) -> bool {
    &&& (r == (damage >= o.combat.hp))
    &&& (r ==> f == (Npc { combat: CombatStats { hp: 0, ..o.combat }, died_at: Some(now), ..o }))
    &&& (!r ==> f == (Npc { combat: CombatStats { hp: (o.combat.hp - damage) as u32, ..o.combat },
        ..o }))
}

/// What `Npc::respawn_at` promises: `o` is the value before the call, `f` the value after.
pub open spec fn respawn_done(o: Npc, f: Npc, now: i64) -> bool {
    &&& (f == (Npc { combat: CombatStats { hp: o.combat.max_hp, qi: o.combat.max_qi,
        shen: o.combat.max_shen, ..o.combat }, died_at: None, created_at: now, ..o }))
}

/// What `NpcManager::spawn_npc_at` promises: `o` is the value before the call, `f` the value after, `r`
/// what it gives back.
pub open spec fn spawn_npc_done(
    o: NpcManager, f: NpcManager, template_id: &str, room_id: String, now: i64, r: Result<String, MudError>) -> bool {
    &&& (f.wf())
    &&& (f.templates == o.templates)
    &&& (key_get(o.templates@, template_id@) is None ==> (r matches Err(MudError::NotFound(m))
        && m@ == "NPC模板不存在: "@ + template_id@) && f.active_npcs == o.active_npcs)
    &&& (key_get(o.templates@, template_id@) matches Some(t) ==> (r matches Ok(id)
        && key_get(f.active_npcs@, id@) matches Some(n) && made_from(Npc { current_room: t.npc.current_room, ..n }, t.npc, now)
        && n.current_room == Some(room_id)
        && forall|k: Seq<char>| k != id@ ==> #[trigger] key_get(f.active_npcs@, k) == key_get(o.active_npcs@, k)))
}

/// What `Npc::new_at` promises: for the arguments given, `r` what it gives back.
pub open spec fn npc_new_done(
    name: String, name_cn: String, npc_type: NpcType, level: u32, combat: CombatStats, now: i64, r: Npc) -> bool {
    &&& (r.base.name == name && r.base.template_id == name && r.base.name_cn == name_cn && r.base.npc_type == npc_type)
    &&& (r.base.level == level && r.base.desc@.len() == 0 && r.base.dialogue@.len() == 0 && !r.base.attackable
        && !r.base.aggressive)
    &&& (r.combat == combat && r.current_room is None && r.created_at == now && r.died_at is None)
}

} // verus!
