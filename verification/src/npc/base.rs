//! The attributes every NPC has.
use vstd::prelude::*;
use crate::text::{push_str, string_of};
use crate::outside::{new_uuid, random_range};

verus! {

/// What kind of NPC it is.
#[derive(Clone, Copy, Debug, PartialEq, Eq, Structural)]
pub enum NpcType {
    Normal,
    Merchant,
    Monster,
    Quest,
    Trainer,
    Guard,
    Boss,
}

/// How an NPC moves.
#[derive(Clone, Copy, Debug, PartialEq, Eq, Structural)]
pub enum NpcBehavior {
    Static,
    Wander,
    Patrol,
    Chase,
    Flee,
}

/// The basic attributes of an NPC. Its id is a fresh random identifier.
#[derive(Debug)]
pub struct NpcBase {
    pub id: String,
    pub template_id: String,
    pub name: String,
    pub name_cn: String,
    pub desc: String,
    pub npc_type: NpcType,
    pub level: u32,
    pub behavior: NpcBehavior,
    pub dialogue: Vec<String>,
    pub shop_items: Vec<String>,
    pub teach_skills: Vec<String>,
    pub quest_id: Option<String>,
    pub respawn_time: u32,
    pub attackable: bool,
    pub aggressive: bool,
}

/// The description of an NPC: its name, then its description if any.
pub open spec fn npc_render(name_cn: Seq<char>, desc: Seq<char>) -> Seq<char> {
    "§c"@ + name_cn + "§r\n"@ + if desc.len() > 0 { desc + "\n"@ } else { seq![] }
}

impl NpcBase {
    /// A static, peaceful NPC of level 1 named `name` (its template too),
    /// with nothing to say, sell, teach or ask, coming back after 300
    /// seconds.
    pub fn new(name: String, name_cn: String, npc_type: NpcType) -> (r: Self)
        ensures
            r.template_id == name && r.name == name && r.name_cn == name_cn && r.desc@.len() == 0,
            r.npc_type == npc_type && r.level == 1 && r.behavior == NpcBehavior::Static,
            r.dialogue@.len() == 0 && r.shop_items@.len() == 0 && r.teach_skills@.len() == 0 && r.quest_id is None,
            r.respawn_time == 300 && !r.attackable && !r.aggressive,
    {
        let template_id = name.clone();
        NpcBase {
            id: new_uuid(),
            template_id,
            name,
            name_cn,
            desc: String::new(),
            npc_type,
            level: 1,
            behavior: NpcBehavior::Static,
            dialogue: Vec::new(),
            shop_items: Vec::new(),
            teach_skills: Vec::new(),
            quest_id: None,
            respawn_time: 300,
            attackable: false,
            aggressive: false,
        }
    }

    /// The NPC with description `desc`.
    pub fn with_desc(self, desc: String) -> (r: Self)
        ensures
            r == (NpcBase { desc, ..self }),
    {
        NpcBase { desc, ..self }
    }

    /// The NPC at level `level`.
    pub fn with_level(self, level: u32) -> (r: Self)
        ensures
            r == (NpcBase { level, ..self }),
    {
        NpcBase { level, ..self }
    }

    /// The NPC moving as `behavior` says.
    pub fn with_behavior(self, behavior: NpcBehavior) -> (r: Self)
        ensures
            r == (NpcBase { behavior, ..self }),
    {
        NpcBase { behavior, ..self }
    }

    /// Adds a line to what the NPC says.
    pub fn add_dialogue(&mut self, text: String)
        ensures
            final(self).dialogue@ == old(self).dialogue@.push(text),
            *final(self) == (NpcBase { dialogue: final(self).dialogue, ..*old(self) }),
    {
        self.dialogue.push(text);
    }

    /// The NPC that may be attacked or not.
    pub fn with_attackable(self, attackable: bool) -> (r: Self)
        ensures
            r == (NpcBase { attackable, ..self }),
    {
        NpcBase { attackable, ..self }
    }

    /// The NPC that attacks first or not.
    pub fn with_aggressive(self, aggressive: bool) -> (r: Self)
        ensures
            r == (NpcBase { aggressive, ..self }),
    {
        NpcBase { aggressive, ..self }
    }

    /// The NPC's description (see `npc_render`).
    pub fn render(&self) -> (r: String)
        ensures
            r@ == npc_render(self.name_cn@, self.desc@),
    {
        let mut out = string_of("§c");
        push_str(&mut out, self.name_cn.as_str());
        push_str(&mut out, "§r\n");
        if self.desc.unicode_len() > 0 {
            push_str(&mut out, self.desc.as_str());
            push_str(&mut out, "\n");
        }
        out
    }

    /// One of the NPC's lines, picked by chance; none when it has none.
    pub fn get_random_dialogue(&self) -> (r: Option<&String>)
        ensures
            self.dialogue@.len() == 0 <==> r is None,
            r matches Some(t) ==> self.dialogue@.contains(*t),
    {
        let n = self.dialogue.len();
        if n == 0 {
            None
        } else if (n as u64) > 0x7fff_ffff_ffff_ffffu64 {
            Some(&self.dialogue[0])
        } else {
            let k = random_range(0, n as i64) as usize;
            Some(&self.dialogue[k])
        }
    }
}


/// A copy of the strings of `v`.
pub fn copy_strings(v: &Vec<String>) -> (r: Vec<String>)
    ensures
        r@ == v@,
{
    let mut r: Vec<String> = Vec::new();
    let mut i: usize = 0;
    while i < v.len()
        invariant
            i <= v@.len(),
            r@ == v@.take(i as int),
        decreases v.len() - i,
    {
        r.push(v[i].clone());
        assert(r@ =~= v@.take(i as int + 1));
        i = i + 1;
    }
    assert(v@.take(i as int) =~= v@);
    r
}

/// `a` and `b` hold the same attributes.
pub open spec fn same_base(a: NpcBase, b: NpcBase) -> bool {
    &&& a.id == b.id && a.template_id == b.template_id && a.name == b.name && a.name_cn == b.name_cn && a.desc == b.desc
    &&& a.npc_type == b.npc_type && a.level == b.level && a.behavior == b.behavior
    &&& a.dialogue@ == b.dialogue@ && a.shop_items@ == b.shop_items@ && a.teach_skills@ == b.teach_skills@
    &&& a.quest_id == b.quest_id && a.respawn_time == b.respawn_time && a.attackable == b.attackable && a.aggressive == b.aggressive
}

impl Clone for NpcBase {
    fn clone(&self) -> (r: Self)
        ensures
            same_base(r, *self),
    {
        let quest_id = match &self.quest_id {
            Some(q) => Some(q.clone()),
            None => None,
        };
        NpcBase {
            id: self.id.clone(),
            template_id: self.template_id.clone(),
            name: self.name.clone(),
            name_cn: self.name_cn.clone(),
            desc: self.desc.clone(),
            npc_type: self.npc_type,
            level: self.level,
            behavior: self.behavior,
            dialogue: copy_strings(&self.dialogue),
            shop_items: copy_strings(&self.shop_items),
            teach_skills: copy_strings(&self.teach_skills),
            quest_id,
            respawn_time: self.respawn_time,
            attackable: self.attackable,
            aggressive: self.aggressive,
        }
    }
}

} // verus!
