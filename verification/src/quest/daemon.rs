//! The quest service: quest templates by NPC, kept in order of the level
//! they ask for, the choice of a quest for a player, rewards, and the
//! checks that move a quest forward.
use vstd::prelude::*;
use crate::text::{push_str, push_i64, push_char, string_of, int_digits, str_eq, str_ends_with, ends_with, trim_start_char,
    trim_leading, is_alphanumeric_char, alphanumeric, seq_contains};
use crate::util::{Keyed, key_pos, key_get, key_in, keys_unique, find_key, get_key, put_key, lemma_key_get_at,
    lemma_key_get_none, lemma_keyed_update, lemma_unique_pos};
use crate::words::{split_text, split_char, parse_i32, parse_signed};
use crate::world::room::{trim_text, trim_ws};
use crate::outside::random_usize;
use crate::quest::types::{QuestType, Currency, RewardType, Quest, PlayerQuestData, QuestCacheEntry, MainLinePath,
    QuestTemplate, NpcTemplates, RewardList, QuestDaemonData, QuestCsvRow, main_path, currency_of, currency_cn,
    quest_type_of};

verus! {

impl Keyed for NpcTemplates {
    open spec fn key_view(&self) -> Seq<char> {
        self.npc_name@
    }

    fn key(&self) -> (r: &String) {
        &self.npc_name
    }
}

impl Keyed for RewardList {
    open spec fn key_view(&self) -> Seq<char> {
        self.code@
    }

    fn key(&self) -> (r: &String) {
        &self.code
    }
}

/// The templates run from the lowest level asked for to the highest.
pub open spec fn sorted_by_level(s: Seq<QuestTemplate>) -> bool {
    forall|i: int, j: int| 0 <= i <= j < s.len() ==> (#[trigger] s[i]).required_level <= (#[trigger] s[j]).required_level
}

/// `new` is `old` with `t` put in at `p`.
pub open spec fn inserted_at(before: Seq<QuestTemplate>, after: Seq<QuestTemplate>, t: QuestTemplate, p: int) -> bool {
    0 <= p <= before.len() && after == before.insert(p, t)
}

/// The NPC has a list of templates.
pub open spec fn has_npc(d: QuestDaemonData, npc: Seq<char>) -> bool {
    key_in(d.quest_templates@, npc)
}

/// The templates of an NPC, none for an NPC without a list.
pub open spec fn npc_templates(d: QuestDaemonData, npc: Seq<char>) -> Seq<QuestTemplate> {
    match key_get(d.quest_templates@, npc) {
        Some(e) => e.templates@,
        None => Seq::empty(),
    }
}

/// The quest service.
#[derive(Debug)]
pub struct QuestDaemon {
    pub data: QuestDaemonData,
}

impl QuestDaemon {
    /// One entry per NPC and per reward code; each NPC has templates, in
    /// order of level.
    pub open spec fn wf(&self) -> bool {
        &&& keys_unique(self.data.quest_templates@)
        &&& keys_unique(self.data.rewards@)
        &&& forall|i: int| 0 <= i < self.data.quest_templates@.len() ==> {
            let e = #[trigger] self.data.quest_templates@[i];
            &&& sorted_by_level(e.templates@)
            &&& e.templates@.len() > 0
        }
    }

    /// A service without templates or rewards.
    pub fn new() -> (r: Self)
        ensures
            r.wf(),
            r.data.quest_templates@.len() == 0 && r.data.rewards@.len() == 0,
    {
        QuestDaemon { data: QuestDaemonData { quest_templates: Vec::new(), rewards: Vec::new() } }
    }

    /// The templates of an NPC are in order and there is one at least.
    pub proof fn lemma_templates(&self, npc: Seq<char>)
        requires
            self.wf(),
        ensures
            has_npc(self.data, npc) ==> sorted_by_level(npc_templates(self.data, npc)) && npc_templates(self.data, npc).len() > 0,
    {
        if key_in(self.data.quest_templates@, npc) {
            crate::util::lemma_key_first(self.data.quest_templates@, npc);
            let i = choose|i: int| key_pos(self.data.quest_templates@, npc, i);
            lemma_key_get_at(self.data.quest_templates@, npc, i);
            assert(self.data.quest_templates@[i].templates@.len() > 0);
        } else {
            lemma_key_get_none(self.data.quest_templates@, npc);
        }
    }

    /// Adds a template to its NPC's list, at a place that keeps the list in
    /// order of level.
    pub fn add_quest_template(&mut self, template: QuestTemplate)
        requires
            old(self).wf(),
        ensures
            final(self).wf(),
            final(self).data.rewards@ == old(self).data.rewards@,
            has_npc(final(self).data, template.npc_name@),
            !has_npc(old(self).data, template.npc_name@) ==> npc_templates(final(self).data, template.npc_name@) == seq![template],
            has_npc(old(self).data, template.npc_name@) ==> exists|p: int| inserted_at(npc_templates(old(self).data, template.npc_name@), npc_templates(final(self).data, template.npc_name@), template, p),
            forall|k: Seq<char>| k != template.npc_name@ ==> #[trigger] has_npc(final(self).data, k) == has_npc(old(self).data, k),
            forall|k: Seq<char>| k != template.npc_name@ ==> #[trigger] npc_templates(final(self).data, k) == npc_templates(old(self).data, k),
    {
        let ghost t = template;
        let ghost v0 = self.data.quest_templates@;
        match find_key(&self.data.quest_templates, template.npc_name.as_str()) {
            Some(i) => {
                proof {
                    lemma_key_get_at(v0, t.npc_name@, i as int);
                }
                let mut entry = self.data.quest_templates.remove(i);
                let ghost s = entry.templates@;
                assert(v0[i as int] == entry);
                let p = level_insert_pos(&entry.templates, template.required_level);
                entry.templates.insert(p, template);
                proof {
                    assert(entry.templates@ == s.insert(p as int, t));
                    assert forall|a: int, b: int| 0 <= a <= b < entry.templates@.len() implies (#[trigger] entry.templates@[a]).required_level <= (#[trigger] entry.templates@[b]).required_level by {
                        if a < p && b < p {
                            assert(s[a].required_level <= s[b].required_level);
                        } else if a < p && b == p {
                        } else if a < p {
                            assert(s[a].required_level <= s[b - 1].required_level);
                        } else if a == p {
                        } else {
                            assert(s[a - 1].required_level <= s[b - 1].required_level);
                        }
                    }
                }
                let ghost e1 = entry;
                self.data.quest_templates.insert(i, entry);
                proof {
                    assert(self.data.quest_templates@ =~= v0.update(i as int, e1));
                    lemma_keyed_update(v0, i as int, e1);
                    assert(npc_templates(self.data, t.npc_name@) == s.insert(p as int, t));
                    assert(npc_templates(old(self).data, t.npc_name@) == s);
                    assert(inserted_at(s, s.insert(p as int, t), t, p as int));
                    crate::util::lemma_key_get_in(v0.update(i as int, e1), t.npc_name@);
                    assert forall|k: Seq<char>| k != t.npc_name@ implies #[trigger] npc_templates(self.data, k) == npc_templates(old(self).data, k)
                        && has_npc(self.data, k) == has_npc(old(self).data, k) by {
                        assert(key_get(v0.update(i as int, e1), k) == key_get(v0, k));
                        crate::util::lemma_key_in_get(v0, k);
                        crate::util::lemma_key_in_get(self.data.quest_templates@, k);
                    }
                    assert forall|k: Seq<char>| k != t.npc_name@ implies #[trigger] has_npc(self.data, k) == has_npc(old(self).data, k) by {
                        assert(npc_templates(self.data, k) == npc_templates(old(self).data, k));
                    }
                    assert forall|j: int| 0 <= j < self.data.quest_templates@.len() implies {
                        let e = #[trigger] self.data.quest_templates@[j];
                        &&& sorted_by_level(e.templates@)
                        &&& e.templates@.len() > 0
                    } by {
                        if j != i {
                            assert(self.data.quest_templates@[j] == v0[j]);
                        }
                    }
                }
            },
            None => {
                proof {
                    lemma_key_get_none(v0, t.npc_name@);
                }
                let npc_name = template.npc_name.clone();
                let mut templates: Vec<QuestTemplate> = Vec::new();
                templates.push(template);
                let entry = NpcTemplates { npc_name, templates };
                let ghost e1 = entry;
                put_key(&mut self.data.quest_templates, entry);
                proof {
                    assert(e1.templates@ =~= seq![t]);
                    assert(self.data.quest_templates@ == v0.push(e1));
                    assert(npc_templates(self.data, t.npc_name@) == seq![t]);
                    crate::util::lemma_key_get_in(self.data.quest_templates@, t.npc_name@);
                    assert forall|k: Seq<char>| k != t.npc_name@ implies #[trigger] npc_templates(self.data, k) == npc_templates(old(self).data, k)
                        && has_npc(self.data, k) == has_npc(old(self).data, k) by {
                        assert(key_get(self.data.quest_templates@, k) == key_get(v0, k));
                        crate::util::lemma_key_in_get(v0, k);
                        crate::util::lemma_key_in_get(self.data.quest_templates@, k);
                    }
                    assert forall|k: Seq<char>| k != t.npc_name@ implies #[trigger] has_npc(self.data, k) == has_npc(old(self).data, k) by {
                        assert(npc_templates(self.data, k) == npc_templates(old(self).data, k));
                    }
                    assert forall|j: int| 0 <= j < self.data.quest_templates@.len() implies {
                        let e = #[trigger] self.data.quest_templates@[j];
                        &&& sorted_by_level(e.templates@)
                        &&& e.templates@.len() > 0
                    } by {
                        if j < v0.len() {
                            assert(self.data.quest_templates@[j] == v0[j]);
                        }
                    }
                }
            },
        }
    }
}

/// A place for a template of level `level` that keeps `s` in order: every
/// template before it asks for less, every one from it on for as much or
/// more.
fn level_insert_pos(s: &Vec<QuestTemplate>, level: i32) -> (r: usize)
    requires
        sorted_by_level(s@),
    ensures
        r <= s@.len(),
        forall|j: int| 0 <= j < r ==> (#[trigger] s@[j]).required_level < level,
        forall|j: int| r <= j < s@.len() ==> (#[trigger] s@[j]).required_level >= level,
{
    let mut lo: usize = 0;
    let mut hi: usize = s.len();
    while lo < hi
        invariant
            lo <= hi <= s@.len(),
            sorted_by_level(s@),
            forall|j: int| 0 <= j < lo ==> (#[trigger] s@[j]).required_level < level,
            forall|j: int| hi <= j < s@.len() ==> (#[trigger] s@[j]).required_level >= level,
        decreases hi - lo,
    {
        let mid = lo + (hi - lo) / 2;
        if s[mid].required_level < level {
            proof {
                assert forall|j: int| 0 <= j <= mid implies (#[trigger] s@[j]).required_level < level by {
                    assert(s@[j].required_level <= s@[mid as int].required_level);
                }
            }
            lo = mid + 1;
        } else {
            proof {
                assert forall|j: int| mid <= j < s@.len() implies (#[trigger] s@[j]).required_level >= level by {
                    assert(s@[mid as int].required_level <= s@[j].required_level);
                }
            }
            hi = mid;
        }
    }
    lo
}

/// The search for a level over `s[i..k]`, as the quest service makes it: a
/// halving search that stops at a template of exactly that level, and
/// otherwise ends at the place after the lower ones, kept within the list.
pub open spec fn level_search(s: Seq<QuestTemplate>, level: i32, i: int, k: int) -> int
    decreases k - i,
{
    if 0 <= i < k <= s.len() {
        let j = (k - i) / 2 + i;
        if s[j].required_level == level {
            j
        } else if s[j].required_level > level {
            level_search(s, level, i, j)
        } else {
            level_search(s, level, j + 1, k)
        }
    } else if i < s.len() {
        i
    } else if s.len() > 0 {
        s.len() - 1
    } else {
        0
    }
}

/// Some template asks for exactly `level`.
pub open spec fn has_level(s: Seq<QuestTemplate>, level: i32) -> bool {
    exists|j: int| 0 <= j < s.len() && (#[trigger] s[j]).required_level == level
}

/// On a list in order, the search finds a template of the level where
/// there is one, and otherwise the first template asking for more, or the
/// last template where none does.
pub proof fn lemma_level_search(s: Seq<QuestTemplate>, level: i32, i: int, k: int)
    requires
        sorted_by_level(s),
        0 <= i <= k <= s.len(),
        forall|j: int| 0 <= j < i ==> (#[trigger] s[j]).required_level < level,
        forall|j: int| k <= j < s.len() ==> (#[trigger] s[j]).required_level > level,
    ensures
        s.len() > 0 ==> 0 <= level_search(s, level, i, k) < s.len(),
        has_level(s, level) ==> s[level_search(s, level, i, k)].required_level == level,
        !has_level(s, level) && s.len() > 0 ==> {
            let r = level_search(s, level, i, k);
            &&& forall|j: int| 0 <= j < r ==> (#[trigger] s[j]).required_level < level
            &&& (r == s.len() - 1 || s[r].required_level > level)
        },
    decreases k - i,
{
    if i < k {
        let j = (k - i) / 2 + i;
        if s[j].required_level == level {
        } else if s[j].required_level > level {
            assert forall|m: int| j <= m < s.len() implies (#[trigger] s[m]).required_level > level by {
                assert(s[j].required_level <= s[m].required_level);
            }
            lemma_level_search(s, level, i, j);
        } else {
            assert forall|m: int| 0 <= m < j + 1 implies (#[trigger] s[m]).required_level < level by {
                assert(s[m].required_level <= s[j].required_level);
            }
            lemma_level_search(s, level, j + 1, k);
        }
    } else {
        if has_level(s, level) {
            let m = choose|m: int| 0 <= m < s.len() && (#[trigger] s[m]).required_level == level;
            if m < i {
                assert(s[m].required_level < level);
            } else {
                assert(s[m].required_level > level);
            }
        }
        if s.len() > 0 && i >= s.len() {
            assert(s[s.len() - 1].required_level < level);
        }
    }
}

/// The range of template indices a random quest is drawn from, around the
/// index `base` of a list of `len` templates.
pub open spec fn random_window(base: int, len: int) -> (int, int) {
    let lo0 = if base - 200 < 0 { 0 } else { base - 200 };
    let hi0 = if base - 200 < 0 { 400 } else { base + 200 };
    let hi = if hi0 >= len { len - 1 } else { hi0 };
    let lo1 = hi / 4;
    let lo = if hi - lo1 < 200 { 0 } else { lo1 };
    (lo, hi)
}

/// The index that a random number `roll` picks in `[lower, upper]`, kept
/// within a list of `len` templates.
pub open spec fn window_pick(lower: int, upper: int, len: int, roll: int) -> int {
    let x = lower + roll % (upper - lower + 1);
    if x < len - 1 { x } else { len - 1 }
}

/// The cached entries of a player for an NPC.
pub open spec fn cache_count(q: Seq<QuestCacheEntry>, npc: Seq<char>) -> nat
    decreases q.len(),
{
    if q.len() == 0 {
        0
    } else {
        cache_count(q.drop_last(), npc) + if q.last().quest@ == npc { 1nat } else { 0nat }
    }
}

/// The player's cache for an NPC holds the key.
pub open spec fn cache_has(q: Seq<QuestCacheEntry>, npc: Seq<char>, key: Seq<char>) -> bool {
    exists|j: int| 0 <= j < q.len() && (#[trigger] q[j]).quest@ == npc && q[j].key@ == key
}

/// The index that a random number `roll` picks in `[lower, upper]`, kept
/// within a list of `len` templates.
pub fn pick_in_window(lower: usize, upper: usize, len: usize, roll: usize) -> (r: usize)
    requires
        lower <= upper < len,
    ensures
        r == window_pick(lower as int, upper as int, len as int, roll as int),
        lower <= r <= upper,
{
    let x = lower + roll % (upper - lower + 1);
    if x < len - 1 { x } else { len - 1 }
}

fn count_cache(q: &Vec<QuestCacheEntry>, npc: &str) -> (r: usize)
    ensures
        r == cache_count(q@, npc@),
{
    let mut n: usize = 0;
    let mut i: usize = 0;
    while i < q.len()
        invariant
            i <= q@.len(),
            n == cache_count(q@.take(i as int), npc@),
            n <= i,
        decreases q.len() - i,
    {
        assert(q@.take(i + 1).drop_last() =~= q@.take(i as int));
        if str_eq(q[i].quest.as_str(), npc) {
            n = n + 1;
        }
        i = i + 1;
    }
    assert(q@.take(i as int) =~= q@);
    n
}

fn find_cache(q: &Vec<QuestCacheEntry>, npc: &str, key: &str) -> (r: bool)
    ensures
        r == cache_has(q@, npc@, key@),
{
    let mut i: usize = 0;
    while i < q.len()
        invariant
            i <= q@.len(),
            forall|j: int| 0 <= j < i ==> !((#[trigger] q@[j]).quest@ == npc@ && q@[j].key@ == key@),
        decreases q.len() - i,
    {
        if str_eq(q[i].quest.as_str(), npc) && str_eq(q[i].key.as_str(), key) {
            return true;
        }
        i = i + 1;
    }
    false
}

impl QuestDaemon {
    /// The index of the NPC's template that suits a player of the level
    /// (see `level_search`), none for an NPC without templates.
    pub fn quest_accurate_index(&self, npc_name: &str, player_level: i32) -> (r: Option<usize>)
        ensures
            r is Some <==> has_npc(self.data, npc_name@),
            r matches Some(x) ==> x == level_search(npc_templates(self.data, npc_name@), player_level, 0, npc_templates(self.data, npc_name@).len() as int),
    {
        match get_key(&self.data.quest_templates, npc_name) {
            Some(e) => {
                let templates = &e.templates;
                let ghost s = templates@;
                proof {
                    crate::util::lemma_key_in_get(self.data.quest_templates@, npc_name@);
                }
                let mut i: usize = 0;
                let mut k: usize = templates.len();
                while i < k
                    invariant
                        s == templates@,
                        s == npc_templates(self.data, npc_name@),
                        has_npc(self.data, npc_name@),
                        i <= k <= s.len(),
                        level_search(s, player_level, i as int, k as int) == level_search(s, player_level, 0, s.len() as int),
                    decreases k - i,
                {
                    let j = (k - i) / 2 + i;
                    let quest_level = templates[j].required_level;
                    if quest_level == player_level {
                        return Some(j);
                    } else if quest_level > player_level {
                        k = j;
                    } else {
                        i = j + 1;
                    }
                }
                let last = if templates.len() > 0 { templates.len() - 1 } else { 0 };
                Some(if i < last { i } else { last })
            },
            None => None,
        }
    }

    /// A random template index for a player of the level: drawn from a
    /// window around `quest_accurate_index`, avoiding, over forty draws,
    /// templates in the player's cache for the NPC. None for an NPC without
    /// templates and for a player with thirty cached entries for it.
    pub fn quest_random_index(&self, npc_name: &str, player_level: i32, player: &PlayerQuestData) -> (r: Option<usize>)
        requires
            self.wf(),
            npc_templates(self.data, npc_name@).len() <= 0x7fff_0000,
        ensures
            r is None <==> (!has_npc(self.data, npc_name@) || cache_count(player.quest_cache@, npc_name@) >= 30),
            r matches Some(x) ==> {
                let s = npc_templates(self.data, npc_name@);
                let w = random_window(level_search(s, player_level, 0, s.len() as int), s.len() as int);
                w.0 <= x <= w.1 && x < s.len()
            },
    {
        proof {
            self.lemma_templates(npc_name@);
            crate::util::lemma_key_in_get(self.data.quest_templates@, npc_name@);
        }
        let e = match get_key(&self.data.quest_templates, npc_name) {
            Some(e) => e,
            None => return None,
        };
        let templates = &e.templates;
        let base_index = match self.quest_accurate_index(npc_name, player_level) {
            Some(b) => b,
            None => return None,
        };
        proof {
            let s = templates@;
            if !has_level(s, player_level) {
                assert forall|j: int| 0 <= j < 0 implies (#[trigger] s[j]).required_level < player_level by {}
            }
            lemma_level_search(s, player_level, 0, s.len() as int);
        }
        let len = templates.len() as i32;
        let mut lower: i32 = base_index as i32 - 200;
        let mut upper: i32 = base_index as i32 + 200;
        if lower < 0 {
            lower = 0;
            upper = 400;
        }
        if upper >= len {
            upper = len - 1;
        }
        lower = upper / 4;
        if upper - lower < 200 {
            lower = 0;
        }
        let lo = lower as usize;
        let hi = upper as usize;
        let ghost w = random_window(base_index as int, templates@.len() as int);
        assert(lo == w.0 && hi == w.1);
        assert(lo <= hi < templates@.len());
        let count = count_cache(&player.quest_cache, npc_name);
        if count > 0 {
            if count >= 30 {
                return None;
            }
            let mut tries: usize = 0;
            while tries < 40
                invariant
                    lo <= hi < templates@.len(),
                    templates@ == npc_templates(self.data, npc_name@),
                    has_npc(self.data, npc_name@),
                    count == cache_count(player.quest_cache@, npc_name@),
                    count < 30,
                    lo == w.0 && hi == w.1,
                    w == random_window(level_search(templates@, player_level, 0, templates@.len() as int), templates@.len() as int),
                decreases 40 - tries,
            {
                let idx = pick_in_window(lo, hi, templates.len(), random_usize());
                let mut key = string_of(npc_name);
                push_str(&mut key, ":");
                push_str(&mut key, templates[idx].quest_name.as_str());
                if !find_cache(&player.quest_cache, npc_name, key.as_str()) {
                    return Some(idx);
                }
                tries = tries + 1;
            }
        }
        Some(pick_in_window(lo, hi, templates.len(), random_usize()))
    }
}

/// One requirement of a main-line quest's `base_quest`, as the service
/// reads it: `{name` forbids a quest of the line already done, `[name` is
/// not checked, a requirement not starting with a letter or digit is a
/// final quest that no recorded path may end with; `(` and `/` in front are
/// skipped.
pub open spec fn requirement_met(req: Seq<char>, base: Seq<char>, player: PlayerQuestData) -> bool {
    if req.len() == 0 {
        true
    } else {
        let r = trim_leading(trim_leading(req, '('), '/');
        if r.len() > 0 && r[0] == '{' {
            !(key_in(player.main_quests@, base) && seq_contains(main_path(player.main_quests@, base), "/"@ + trim_leading(r, '{')))
        } else if r.len() > 0 && r[0] == '[' {
            true
        } else if !(r.len() > 0 && alphanumeric(r[0])) {
            forall|k: int| 0 <= k < player.main_quests@.len() ==> !ends_with((#[trigger] player.main_quests@[k]).path@, "/"@ + r)
        } else {
            true
        }
    }
}

/// The player meets every requirement of the template's `base_quest`, the
/// requirements being its pieces between `)`s.
pub open spec fn can_accept(t: QuestTemplate, player: PlayerQuestData) -> bool {
    t.base_quest@.len() == 0 || forall|i: int| 0 <= i < split_char(t.base_quest@, ')').len()
        ==> requirement_met(#[trigger] split_char(t.base_quest@, ')')[i], t.base_quest@, player)
}

/// The template is a main-line quest (a negative level) the player can take.
pub open spec fn main_quest_open(t: QuestTemplate, player: PlayerQuestData) -> bool {
    t.required_level < 0 && can_accept(t, player)
}

fn requirement_met_exec(req: &str, base: &str, player: &PlayerQuestData) -> (r: bool)
    ensures
        r == requirement_met(req@, base@, *player),
{
    if req.unicode_len() == 0 {
        return true;
    }
    let r1 = trim_start_char(req, '(');
    let r = trim_start_char(r1.as_str(), '/');
    let n = r.as_str().unicode_len();
    if n > 0 && r.as_str().get_char(0) == '{' {
        let name = trim_start_char(r.as_str(), '{');
        !player.is_main_quest_completed(base, name.as_str())
    } else if n > 0 && r.as_str().get_char(0) == '[' {
        true
    } else if !(n > 0 && is_alphanumeric_char(r.as_str().get_char(0))) {
        let mut pat = string_of("/");
        push_str(&mut pat, r.as_str());
        assert(r@ == trim_leading(trim_leading(req@, '('), '/'));
        assert(requirement_met(req@, base@, *player) == forall|j: int| 0 <= j < player.main_quests@.len()
            ==> !ends_with((#[trigger] player.main_quests@[j]).path@, pat@));
        let mut k: usize = 0;
        while k < player.main_quests.len()
            invariant
                requirement_met(req@, base@, *player) == forall|j: int| 0 <= j < player.main_quests@.len()
                    ==> !ends_with((#[trigger] player.main_quests@[j]).path@, pat@),
                k <= player.main_quests@.len(),
                pat@ == "/"@ + trim_leading(trim_leading(req@, '('), '/'),
                forall|j: int| 0 <= j < k ==> !ends_with((#[trigger] player.main_quests@[j]).path@, pat@),
            decreases player.main_quests.len() - k,
        {
            if str_ends_with(player.main_quests[k].path.as_str(), pat.as_str()) {
                return false;
            }
            k = k + 1;
        }
        true
    } else {
        true
    }
}

impl QuestDaemon {
    /// The player meets every requirement of the template's `base_quest`.
    pub fn can_accept_main_quest(&self, template: &QuestTemplate, player: &PlayerQuestData) -> (r: bool)
        ensures
            r == can_accept(*template, *player),
    {
        if template.base_quest.as_str().unicode_len() == 0 {
            return true;
        }
        let pieces = split_text(template.base_quest.as_str(), ')');
        let ghost ps = split_char(template.base_quest@, ')');
        let mut i: usize = 0;
        while i < pieces.len()
            invariant
                pieces@.map_values(|x: String| x@) == ps,
                ps == split_char(template.base_quest@, ')'),
                template.base_quest@.len() > 0,
                i <= pieces@.len(),
                forall|j: int| 0 <= j < i ==> requirement_met(#[trigger] ps[j], template.base_quest@, *player),
            decreases pieces.len() - i,
        {
            assert(pieces@.map_values(|x: String| x@)[i as int] == pieces@[i as int]@);
            if !requirement_met_exec(pieces[i].as_str(), template.base_quest.as_str(), player) {
                return false;
            }
            i = i + 1;
        }
        true
    }

    /// The first main-line template of the NPC that the player can take,
    /// with its `base_quest`.
    pub fn get_main_quest(&self, npc_name: &str, player: &PlayerQuestData) -> (r: Option<(usize, String)>)
        ensures
            match r {
                Some((i, b)) => {
                    let s = npc_templates(self.data, npc_name@);
                    &&& has_npc(self.data, npc_name@)
                    &&& 0 <= i < s.len()
                    &&& main_quest_open(s[i as int], *player)
                    &&& forall|j: int| 0 <= j < i ==> !main_quest_open(#[trigger] s[j], *player)
                    &&& b@ == s[i as int].base_quest@
                },
                None => !has_npc(self.data, npc_name@) || forall|j: int| 0 <= j < npc_templates(self.data, npc_name@).len()
                    ==> !main_quest_open(#[trigger] npc_templates(self.data, npc_name@)[j], *player),
            },
    {
        proof {
            crate::util::lemma_key_in_get(self.data.quest_templates@, npc_name@);
        }
        let e = match get_key(&self.data.quest_templates, npc_name) {
            Some(e) => e,
            None => return None,
        };
        let templates = &e.templates;
        let mut i: usize = 0;
        while i < templates.len()
            invariant
                templates@ == npc_templates(self.data, npc_name@),
                has_npc(self.data, npc_name@),
                i <= templates@.len(),
                forall|j: int| 0 <= j < i ==> !main_quest_open(#[trigger] templates@[j], *player),
            decreases templates.len() - i,
        {
            let template = &templates[i];
            if template.required_level < 0 && self.can_accept_main_quest(template, player) {
                return Some((i, template.base_quest.clone()));
            }
            i = i + 1;
        }
        None
    }
}

/// The amount of a reward code's pieces: the third piece read as an `i32`,
/// else 1.
pub open spec fn reward_amount(parts: Seq<Seq<char>>) -> i32 {
    if parts.len() > 2 {
        match parse_signed(parts[2], i32::MIN as int, i32::MAX as int) {
            Some(v) => v as i32,
            None => 1,
        }
    } else {
        1
    }
}

/// A reward kind the codes know: add, money or give.
pub open spec fn known_kind(kind: Seq<char>) -> bool {
    kind == "add"@ || kind == "money"@ || kind == "give"@
}

/// The reward of kind `kind` with value `value` and the amount: an
/// attribute, money (silver for an unknown currency) or an item.
pub open spec fn reward_from(r: RewardType, kind: Seq<char>, value: Seq<char>, amount: i32) -> bool {
    if kind == "add"@ {
        r matches RewardType::Add { attr, amount: a } && attr@ == value && a == amount
    } else if kind == "money"@ {
        r == RewardType::Money {
            currency: match currency_of(value) {
                Some(c) => c,
                None => Currency::Silver,
            },
            amount,
        }
    } else {
        r matches RewardType::GiveItem { item_id, amount: a } && item_id@ == value && a == amount
    }
}

/// The code `kind:value[:amount]` names a reward.
pub open spec fn code_parses(code: Seq<char>) -> bool {
    let parts = split_char(code, ':');
    parts.len() >= 2 && known_kind(parts[0])
}

/// The reward that a code names.
pub open spec fn reward_of_code(r: RewardType, code: Seq<char>) -> bool {
    let parts = split_char(code, ':');
    reward_from(r, parts[0], parts[1], reward_amount(parts))
}

/// The reward given where a code names none: 100 experience.
pub open spec fn default_reward(r: RewardType) -> bool {
    r matches RewardType::Add { attr, amount } && attr@ == "exp"@ && amount == 100
}

/// The message that announces a reward.
pub open spec fn reward_text(r: RewardType) -> Seq<char> {
    match r {
        RewardType::Add { attr, amount } => if attr@ == "exp"@ || attr@ == "daoheng"@ {
            "§Y你得到了 "@ + int_digits(amount as int) + " 修为§N"@
        } else if attr@ == "pot"@ || attr@ == "potential"@ {
            "§Y你得到了 "@ + int_digits(amount as int) + " 点潜能§N"@
        } else {
            "§Y你得到了 "@ + int_digits(amount as int) + " "@ + attr@ + "§N"@
        },
        RewardType::Money { currency, amount } => "§Y你得到了 "@ + int_digits(amount as int) + " "@ + currency_cn(currency) + "§N"@,
        RewardType::GiveItem { item_id, amount } => "§Y你得到了 "@ + item_id@ + " x"@ + int_digits(amount as int) + "§N"@,
    }
}

/// `q` is the quest a template gives, with `main_line` as its main line.
pub open spec fn quest_of(q: Quest, t: QuestTemplate, main_line: Seq<char>) -> bool {
    let main = t.required_level < 0;
    &&& q.id@ == t.npc_name@ + "_"@ + t.quest_name@
    &&& q.quest_type == t.quest_type
    &&& q.target_npc@ == t.target_npc@ && q.target_object@ == t.target_object@
    &&& q.target_amount == t.target_amount && q.current_amount == 0
    &&& q.required_level == (if t.required_level < 0 { -t.required_level } else { t.required_level as int })
    &&& q.quest_talk@ == t.quest_talk@ && q.finish_talk@ == t.finish_talk@ && q.npc_talk@ == t.npc_talk@
    &&& (if code_parses(t.reward_code@) { reward_of_code(q.reward, t.reward_code@) } else { default_reward(q.reward) })
    &&& q.is_main_quest == main
    &&& q.quest_name@ == (if main { t.quest_name@ } else { ""@ })
    &&& (if main { q.main_line_name matches Some(m) && m@ == main_line } else { q.main_line_name is None })
    &&& (if main && t.delete_name@.len() > 0 { q.delete_name matches Some(d) && d@ == t.delete_name@ } else { q.delete_name is None })
}

fn reward_of_parts(parts: &Vec<String>) -> (r: Option<RewardType>)
    ensures
        match r {
            Some(x) => parts@.len() >= 2 && known_kind(parts@[0]@) && reward_from(x, parts@[0]@, parts@[1]@,
                reward_amount(parts@.map_values(|p: String| p@))),
            None => !(parts@.len() >= 2 && known_kind(parts@[0]@)),
        },
{
    if parts.len() < 2 {
        return None;
    }
    let ghost pv = parts@.map_values(|p: String| p@);
    assert(pv[0] == parts@[0]@ && pv[1] == parts@[1]@);
    let amount: i32 = if parts.len() > 2 {
        assert(pv[2] == parts@[2]@);
        match parse_i32(parts[2].as_str()) {
            Some(v) => v,
            None => 1,
        }
    } else {
        1
    };
    let kind = parts[0].as_str();
    let value = parts[1].as_str();
    if str_eq(kind, "add") {
        Some(RewardType::Add { attr: string_of(value), amount })
    } else if str_eq(kind, "money") {
        match Currency::from_str(value) {
            Some(currency) => Some(RewardType::Money { currency, amount }),
            None => Some(RewardType::Money { currency: Currency::Silver, amount }),
        }
    } else if str_eq(kind, "give") {
        Some(RewardType::GiveItem { item_id: string_of(value), amount })
    } else {
        None
    }
}

impl QuestDaemon {
    /// The reward a code `kind:value[:amount]` names, or 100 experience
    /// where it names none.
    pub fn parse_reward(&self, reward_code: &str) -> (r: RewardType)
        ensures
            code_parses(reward_code@) ==> reward_of_code(r, reward_code@),
            !code_parses(reward_code@) ==> default_reward(r),
    {
        let parts = split_text(reward_code, ':');
        match reward_of_parts(&parts) {
            Some(x) => x,
            None => RewardType::Add { attr: string_of("exp"), amount: 100 },
        }
    }

    /// The reward one line `kind:value[:amount]` names, if it names one.
    pub fn parse_reward_line(&self, line: &str) -> (r: Option<RewardType>)
        ensures
            code_parses(line@) ==> (r matches Some(x) && reward_of_code(x, line@)),
            !code_parses(line@) ==> r is None,
    {
        let parts = split_text(line, ':');
        reward_of_parts(&parts)
    }

    /// The message that announces a reward.
    pub fn format_reward(&self, reward: &RewardType) -> (r: String)
        ensures
            r@ == reward_text(*reward),
    {
        let mut s = string_of("§Y你得到了 ");
        match reward {
            RewardType::Add { attr, amount } => {
                push_i64(&mut s, *amount as i64);
                if str_eq(attr.as_str(), "exp") || str_eq(attr.as_str(), "daoheng") {
                    push_str(&mut s, " 修为§N");
                } else if str_eq(attr.as_str(), "pot") || str_eq(attr.as_str(), "potential") {
                    push_str(&mut s, " 点潜能§N");
                } else {
                    push_str(&mut s, " ");
                    push_str(&mut s, attr.as_str());
                    push_str(&mut s, "§N");
                }
            },
            RewardType::Money { currency, amount } => {
                push_i64(&mut s, *amount as i64);
                push_str(&mut s, " ");
                push_str(&mut s, currency.cn_name());
                push_str(&mut s, "§N");
            },
            RewardType::GiveItem { item_id, amount } => {
                push_str(&mut s, item_id.as_str());
                push_str(&mut s, " x");
                push_i64(&mut s, *amount as i64);
                push_str(&mut s, "§N");
            },
        }
        s
    }

    /// The quest a template gives: id `npc_quest`, the level without its
    /// sign, the template's talk and parsed reward; a negative level makes it
    /// a main-line quest of `main_line`.
    pub fn template_to_quest(&self, template: &QuestTemplate, main_line: String) -> (r: Quest)
        requires
            template.required_level != i32::MIN,
        ensures
            quest_of(r, *template, main_line@),
    {
        let is_main = template.required_level < 0;
        let mut id = template.npc_name.clone();
        push_str(&mut id, "_");
        push_str(&mut id, template.quest_name.as_str());
        let level = if template.required_level < 0 { -template.required_level } else { template.required_level };
        let reward = self.parse_reward(template.reward_code.as_str());
        let mut quest = Quest::new(
            id,
            template.quest_type,
            template.target_npc.clone(),
            template.target_object.clone(),
            template.target_amount,
            level,
        ).with_talks(template.quest_talk.as_str(), template.finish_talk.as_str(), template.npc_talk.as_str()).with_reward(reward);
        if is_main {
            let delete_name = if template.delete_name.as_str().unicode_len() == 0 {
                None
            } else {
                Some(template.delete_name.clone())
            };
            quest = quest.with_main_quest(template.quest_name.as_str(), main_line.as_str(), delete_name);
        }
        proof {
            reveal_strlit("");
            reveal_strlit("_");
            let t = *template;
            let q = quest;
            assert(q.id@ == t.npc_name@ + "_"@ + t.quest_name@);
            assert(q.quest_type == t.quest_type);
            assert(q.target_npc@ == t.target_npc@ && q.target_object@ == t.target_object@);
            assert(q.target_amount == t.target_amount && q.current_amount == 0);
            assert(q.quest_talk@ == t.quest_talk@ && q.finish_talk@ == t.finish_talk@ && q.npc_talk@ == t.npc_talk@);
            assert(q.is_main_quest == is_main);
            assert(q.required_level == (if t.required_level < 0 { -t.required_level } else { t.required_level as int }));
            assert(if code_parses(t.reward_code@) { reward_of_code(q.reward, t.reward_code@) } else { default_reward(q.reward) });
            assert(q.quest_name@ == (if is_main { t.quest_name@ } else { ""@ }));
            assert(if is_main { q.main_line_name matches Some(m) && m@ == main_line@ } else { q.main_line_name is None });
            assert(if is_main && t.delete_name@.len() > 0 { q.delete_name matches Some(d) && d@ == t.delete_name@ } else { q.delete_name is None });
        }
        quest
    }
}

/// `i` is the first main-line template of `s` the player can take.
pub open spec fn first_open(s: Seq<QuestTemplate>, player: PlayerQuestData, i: int) -> bool {
    &&& 0 <= i < s.len()
    &&& main_quest_open(s[i], player)
    &&& forall|j: int| 0 <= j < i ==> !main_quest_open(#[trigger] s[j], player)
}

/// No level of the NPC's templates is `i32::MIN`, whose sign cannot be
/// dropped in an `i32`.
pub open spec fn levels_signable(s: Seq<QuestTemplate>) -> bool {
    forall|j: int| 0 <= j < s.len() ==> (#[trigger] s[j]).required_level != i32::MIN
}

/// The message of a give or find quest whose object was handed over.
pub open spec fn give_text(q: Quest, npc: Seq<char>) -> Seq<char> {
    "你把"@ + q.target_object@ + "交给了"@ + q.target_npc@ + "，可以向"@ + npc + "交差了。"@
}

/// The message of an ask quest.
pub open spec fn ask_text(q: Quest, npc: Seq<char>) -> Seq<char> {
    "关于"@ + q.target_object@ + "的事情我已经知道了，你可以向"@ + npc + "交差了。"@
}

/// The thanks for a completed quest: its finishing talk, or a sentence for
/// its kind.
pub open spec fn completion_text(q: Quest, npc: Seq<char>) -> Seq<char> {
    if q.finish_talk@.len() > 0 {
        q.finish_talk@
    } else {
        match q.quest_type {
            QuestType::Find => "多谢这位客官，为"@ + q.target_npc@ + "找到"@ + q.target_object@ + "，这是我的一点心意！"@,
            QuestType::Give => "帮"@ + npc + "把"@ + q.target_object@ + "交给了"@ + q.target_npc@ + "，这是我的一点心意！"@,
            QuestType::Kill => "帮"@ + npc + "杀死了"@ + q.target_npc@ + "，这是我的一点心意！"@,
            QuestType::Ask => "帮"@ + npc + "向"@ + q.target_npc@ + "打听关于"@ + q.target_object@ + "的事情，这是我的一点心意！"@,
        }
    }
}

/// The quest a player has taken from an NPC.
pub open spec fn taken_quest(p: PlayerQuestData, npc: Seq<char>) -> Option<Quest> {
    match key_get(p.pending_quests@, npc) {
        Some(e) => Some(e.quest),
        None => None,
    }
}

impl QuestDaemon {
    /// A quest of the NPC for a player of the level: the first main-line
    /// quest the player can take, else a random one around the level (the
    /// first template when the player's cache for the NPC is full). None for
    /// an NPC without templates.
    pub fn assign_quest(&self, npc_name: &str, player_level: i32, player_data: &PlayerQuestData) -> (r: Option<Quest>)
        requires
            self.wf(),
            npc_templates(self.data, npc_name@).len() <= 0x7fff_0000,
            levels_signable(npc_templates(self.data, npc_name@)),
        ensures
            r is None <==> !has_npc(self.data, npc_name@),
            r matches Some(q) ==> {
                let s = npc_templates(self.data, npc_name@);
                let w = random_window(level_search(s, player_level, 0, s.len() as int), s.len() as int);
                if exists|i: int| first_open(s, *player_data, i) {
                    exists|i: int| first_open(s, *player_data, i) && quest_of(q, s[i], s[i].base_quest@)
                } else if cache_count(player_data.quest_cache@, npc_name@) >= 30 {
                    quest_of(q, s[0], ""@)
                } else {
                    exists|i: int| w.0 <= i <= w.1 && i < s.len() && quest_of(q, #[trigger] s[i], ""@)
                }
            },
    {
        proof {
            self.lemma_templates(npc_name@);
            crate::util::lemma_key_in_get(self.data.quest_templates@, npc_name@);
        }
        let e = match get_key(&self.data.quest_templates, npc_name) {
            Some(e) => e,
            None => return None,
        };
        let templates = &e.templates;
        let ghost s = templates@;
        assert(s == npc_templates(self.data, npc_name@));
        if let Some((idx, main_line)) = self.get_main_quest(npc_name, player_data) {
            let q = self.template_to_quest(&templates[idx], main_line);
            proof {
                assert(first_open(s, *player_data, idx as int));
            }
            return Some(q);
        }
        proof {
            assert forall|i: int| !first_open(s, *player_data, i) by {
                if first_open(s, *player_data, i) {
                    assert(!main_quest_open(s[i], *player_data));
                }
            }
        }
        if let Some(idx) = self.quest_random_index(npc_name, player_level, player_data) {
            let none = String::new();
            proof {
                reveal_strlit("");
                assert(none@ =~= ""@);
            }
            let q = self.template_to_quest(&templates[idx], none);
            proof {
                assert(quest_of(q, s[idx as int], ""@));
                assert(cache_count(player_data.quest_cache@, npc_name@) < 30);
            }
            return Some(q);
        }
        let none = String::new();
        proof {
            reveal_strlit("");
            assert(none@ =~= ""@);
        }
        let q = self.template_to_quest(&templates[0], none);
        proof {
            assert(quest_of(q, s[0], ""@));
            assert(cache_count(player_data.quest_cache@, npc_name@) >= 30);
        }
        Some(q)
    }

    /// For a give or find quest of the NPC not yet completed: the message
    /// that the object was handed over, when the player has it.
    pub fn check_give_quest(&self, player_data: &mut PlayerQuestData, npc_name: &str, has_item: bool) -> (r: Option<String>)
        ensures
            *final(player_data) == *old(player_data),
            match taken_quest(*old(player_data), npc_name@) {
                Some(q) => if (q.quest_type == QuestType::Give || q.quest_type == QuestType::Find) && q.current_amount < q.target_amount && has_item {
                    r matches Some(m) && m@ == give_text(q, npc_name@)
                } else {
                    r is None
                },
                None => r is None,
            },
    {
        let quest = match player_data.get_quest(npc_name) {
            Some(q) => q,
            None => return None,
        };
        match quest.quest_type {
            QuestType::Give | QuestType::Find => {
                if quest.is_completed() {
                    return None;
                }
                if has_item {
                    let mut m = string_of("你把");
                    push_str(&mut m, quest.target_object.as_str());
                    push_str(&mut m, "交给了");
                    push_str(&mut m, quest.target_npc.as_str());
                    push_str(&mut m, "，可以向");
                    push_str(&mut m, npc_name);
                    push_str(&mut m, "交差了。");
                    Some(m)
                } else {
                    None
                }
            },
            _ => None,
        }
    }

    /// For an ask quest of the NPC not yet completed: the message that the
    /// matter is known.
    pub fn check_ask_quest(&self, player_data: &mut PlayerQuestData, npc_name: &str) -> (r: Option<String>)
        ensures
            *final(player_data) == *old(player_data),
            match taken_quest(*old(player_data), npc_name@) {
                Some(q) => if q.quest_type == QuestType::Ask && q.current_amount < q.target_amount {
                    r matches Some(m) && m@ == ask_text(q, npc_name@)
                } else {
                    r is None
                },
                None => r is None,
            },
    {
        let quest = match player_data.get_quest(npc_name) {
            Some(q) => q,
            None => return None,
        };
        if quest.quest_type == QuestType::Ask && !quest.is_completed() {
            let mut m = string_of("关于");
            push_str(&mut m, quest.target_object.as_str());
            push_str(&mut m, "的事情我已经知道了，你可以向");
            push_str(&mut m, npc_name);
            push_str(&mut m, "交差了。");
            Some(m)
        } else {
            None
        }
    }

    /// For a kill quest of the NPC not yet completed: one more kill, and
    /// the message with the progress.
    pub fn check_kill_quest(&self, player_data: &mut PlayerQuestData, npc_name: &str) -> (r: Option<String>)
        ensures
            final(player_data).main_quests@ == old(player_data).main_quests@,
            final(player_data).quest_cache@ == old(player_data).quest_cache@,
            match taken_quest(*old(player_data), npc_name@) {
                Some(q) => if q.quest_type == QuestType::Kill && q.current_amount < q.target_amount {
                    &&& taken_quest(*final(player_data), npc_name@) == Some(Quest { current_amount: (q.current_amount + 1) as i32, ..q })
                    &&& forall|k: Seq<char>| k != npc_name@ ==> #[trigger] taken_quest(*final(player_data), k) == taken_quest(*old(player_data), k)
                    &&& r matches Some(m) && m@ == "你击杀了"@ + npc_name@ + "！任务进度: "@ + int_digits(q.current_amount + 1) + "/"@
                        + int_digits(q.target_amount as int)
                } else {
                    r is None && *final(player_data) == *old(player_data)
                },
                None => r is None && *final(player_data) == *old(player_data),
            },
    {
        let ghost p0 = player_data.pending_quests@;
        let i = match find_key(&player_data.pending_quests, npc_name) {
            Some(i) => i,
            None => {
                proof {
                    lemma_key_get_none(p0, npc_name@);
                }
                return None;
            },
        };
        proof {
            lemma_key_get_at(p0, npc_name@, i as int);
        }
        if !(player_data.pending_quests[i].quest.quest_type == QuestType::Kill && !player_data.pending_quests[i].quest.is_completed()) {
            return None;
        }
        let mut entry = player_data.pending_quests.remove(i);
        assert(entry == p0[i as int]);
        entry.quest.add_progress(1);
        let mut m = string_of("你击杀了");
        push_str(&mut m, npc_name);
        push_str(&mut m, "！任务进度: ");
        push_i64(&mut m, entry.quest.current_amount as i64);
        push_str(&mut m, "/");
        push_i64(&mut m, entry.quest.target_amount as i64);
        let ghost e1 = entry;
        player_data.pending_quests.insert(i, entry);
        proof {
            assert(player_data.pending_quests@ =~= p0.update(i as int, e1));
            lemma_keyed_update(p0, i as int, e1);
            assert forall|k: Seq<char>| k != npc_name@ implies #[trigger] taken_quest(*player_data, k) == taken_quest(*old(player_data), k) by {
                assert(key_get(p0.update(i as int, e1), k) == key_get(p0, k));
            }
        }
        Some(m)
    }

    /// Completes the quest taken from the NPC: records a main-line quest in
    /// its line (and drops the named record), and gives the quest back with
    /// the thanks and the reward message.
    pub fn complete_quest(&self, player_data: &mut PlayerQuestData, npc_name: &str) -> (r: Option<(Quest, String)>)
        requires
            keys_unique(old(player_data).pending_quests@),
        ensures
            final(player_data).quest_cache@ == old(player_data).quest_cache@,
            taken_quest(*old(player_data), npc_name@) is None ==> r is None && final(player_data).pending_quests@ == old(player_data).pending_quests@
                && final(player_data).main_quests@ == old(player_data).main_quests@,
            taken_quest(*old(player_data), npc_name@) matches Some(q) ==> (r matches Some((rq, m)) && rq == q
                && m@ == completion_text(q, npc_name@) + "\n"@ + reward_text(q.reward)),
            taken_quest(*old(player_data), npc_name@) is Some ==> taken_quest(*final(player_data), npc_name@) is None,
            forall|k: Seq<char>| k != npc_name@ ==> #[trigger] taken_quest(*final(player_data), k) == taken_quest(*old(player_data), k),
            taken_quest(*old(player_data), npc_name@) matches Some(q) ==> ((q.is_main_quest && q.main_line_name is Some) ==> {
                let line = q.main_line_name->0@;
                let recorded = main_path(old(player_data).main_quests@, line) + "/"@ + q.quest_name@;
                &&& main_path(final(player_data).main_quests@, line) == match q.delete_name {
                    Some(d) => crate::quest::types::replace_all(recorded, "/"@ + d@, ""@),
                    None => recorded,
                }
                &&& forall|l: Seq<char>| l != line ==> #[trigger] key_get(final(player_data).main_quests@, l) == key_get(old(player_data).main_quests@, l)
            }),
            taken_quest(*old(player_data), npc_name@) matches Some(q) ==> (!(q.is_main_quest && q.main_line_name is Some)
                ==> final(player_data).main_quests@ == old(player_data).main_quests@),
    {
        let ghost p0 = player_data.pending_quests@;
        let quest = match player_data.remove_quest(npc_name) {
            Some(q) => q,
            None => {
                return None;
            },
        };
        let ghost p1 = player_data.pending_quests@;
        proof {
            let i = choose|i: int| key_pos(p0, npc_name@, i) && player_data.pending_quests@ == p0.remove(i);
            assert forall|k: Seq<char>| k != npc_name@ implies #[trigger] key_get(p1, k) == key_get(p0, k) by {
                crate::util::lemma_key_get_after_remove(p0, npc_name@, i, k);
            }
            crate::util::lemma_key_get_removed(p0, npc_name@, i);
        }
        if quest.is_main_quest {
            match &quest.main_line_name {
                Some(main_line) => {
                    player_data.add_main_quest_completion(main_line.as_str(), quest.quest_name.as_str());
                    match &quest.delete_name {
                        Some(delete_name) => {
                            player_data.remove_main_quest_entry(main_line.as_str(), delete_name.as_str());
                        },
                        None => {},
                    }
                },
                None => {},
            }
        }
        let reward_msg = self.format_reward(&quest.reward);
        let mut complete_msg = if quest.finish_talk.as_str().unicode_len() > 0 {
            quest.finish_talk.clone()
        } else {
            match quest.quest_type {
                QuestType::Find => {
                    let mut m = string_of("多谢这位客官，为");
                    push_str(&mut m, quest.target_npc.as_str());
                    push_str(&mut m, "找到");
                    push_str(&mut m, quest.target_object.as_str());
                    push_str(&mut m, "，这是我的一点心意！");
                    m
                },
                QuestType::Give => {
                    let mut m = string_of("帮");
                    push_str(&mut m, npc_name);
                    push_str(&mut m, "把");
                    push_str(&mut m, quest.target_object.as_str());
                    push_str(&mut m, "交给了");
                    push_str(&mut m, quest.target_npc.as_str());
                    push_str(&mut m, "，这是我的一点心意！");
                    m
                },
                QuestType::Kill => {
                    let mut m = string_of("帮");
                    push_str(&mut m, npc_name);
                    push_str(&mut m, "杀死了");
                    push_str(&mut m, quest.target_npc.as_str());
                    push_str(&mut m, "，这是我的一点心意！");
                    m
                },
                QuestType::Ask => {
                    let mut m = string_of("帮");
                    push_str(&mut m, npc_name);
                    push_str(&mut m, "向");
                    push_str(&mut m, quest.target_npc.as_str());
                    push_str(&mut m, "打听关于");
                    push_str(&mut m, quest.target_object.as_str());
                    push_str(&mut m, "的事情，这是我的一点心意！");
                    m
                },
            }
        };
        push_str(&mut complete_msg, "\n");
        push_str(&mut complete_msg, reward_msg.as_str());
        proof {
            assert(player_data.pending_quests@ == p1);
            assert forall|k: Seq<char>| k != npc_name@ implies #[trigger] taken_quest(*player_data, k) == taken_quest(*old(player_data), k) by {
                assert(key_get(p1, k) == key_get(p0, k));
            }
        }
        Some((quest, complete_msg))
    }
}

/// The rewards listed under a code, none for an unknown code.
pub open spec fn code_rewards(d: QuestDaemonData, code: Seq<char>) -> Seq<RewardType> {
    match key_get(d.rewards@, code) {
        Some(e) => e.rewards@,
        None => Seq::empty(),
    }
}

/// A number field of the quest table: the text read as an `i32`, else `d`.
pub open spec fn i32_or(s: Seq<char>, d: i32) -> i32 {
    match parse_signed(s, i32::MIN as int, i32::MAX as int) {
        Some(v) => v as i32,
        None => d,
    }
}

/// A row of the quest table that makes a template: not the heading row,
/// with an NPC and a known quest kind.
pub open spec fn row_accepted(row: QuestCsvRow) -> bool {
    &&& row.npc_name@ != "发放任务的人"@
    &&& row.npc_name@.len() > 0
    &&& quest_type_of(trim_ws(row.quest_type@)) is Some
}

/// The template a row makes: the level defaults to 1000 and the amount to
/// 1; the two parts of the quest talk are joined by a line break when both
/// are there.
pub open spec fn template_of_row(t: QuestTemplate, row: QuestCsvRow) -> bool {
    &&& t.npc_name@ == row.npc_name@
    &&& t.required_level == i32_or(row.required_level@, 1000)
    &&& quest_type_of(trim_ws(row.quest_type@)) == Some(t.quest_type)
    &&& t.target_npc@ == row.target_npc@ && t.target_object@ == row.target_object@
    &&& t.target_amount == i32_or(row.target_amount@, 1)
    &&& t.quest_talk@ == (if row.quest_talk_part1@.len() > 0 && row.quest_talk_part2@.len() > 0 {
        row.quest_talk_part1@ + "\n"@ + row.quest_talk_part2@
    } else {
        row.quest_talk_part1@
    })
    &&& t.finish_talk@ == row.finish_talk@ && t.npc_talk@ == row.npc_talk@ && t.reward_code@ == row.reward_code@
    &&& t.quest_name@ == row.quest_name@ && t.base_quest@ == row.base_quest@ && t.delete_name@ == row.delete_name@
}

/// The rows of `rows` that make a template for the NPC.
pub open spec fn rows_for(rows: Seq<QuestCsvRow>, npc: Seq<char>) -> nat
    decreases rows.len(),
{
    if rows.len() == 0 {
        0
    } else {
        rows_for(rows.drop_last(), npc) + if row_accepted(rows.last()) && rows.last().npc_name@ == npc { 1nat } else { 0nat }
    }
}

/// The rows of `rows` that make a template for NPC `npc`, in order.
pub open spec fn accepted_rows(rows: Seq<QuestCsvRow>, npc: Seq<char>) -> Seq<QuestCsvRow>
    decreases rows.len(),
{
    if rows.len() == 0 {
        seq![]
    } else {
        let rest = accepted_rows(rows.drop_last(), npc);
        if row_accepted(rows.last()) && rows.last().npc_name@ == npc { rest.push(rows.last()) } else { rest }
    }
}

/// `after` is `before` with the template of each row of `rs` inserted, in
/// the order of the rows, each at some place.
pub open spec fn built_from(after: Seq<QuestTemplate>, before: Seq<QuestTemplate>, rs: Seq<QuestCsvRow>) -> bool
    decreases rs.len(),
{
    if rs.len() == 0 {
        after == before
    } else {
        exists|mid: Seq<QuestTemplate>, t: QuestTemplate, p: int| built_from(mid, before, rs.drop_last())
            && template_of_row(t, rs.last()) && #[trigger] inserted_at(mid, after, t, p)
    }
}

/// The rows of `rows` that make a template.
pub open spec fn rows_accepted(rows: Seq<QuestCsvRow>) -> nat
    decreases rows.len(),
{
    if rows.len() == 0 {
        0
    } else {
        rows_accepted(rows.drop_last()) + if row_accepted(rows.last()) { 1nat } else { 0nat }
    }
}

/// The rewards the lines of a reward text give, the lines read through
/// `str::trim`, blank ones and those naming no reward skipped.
pub open spec fn rewards_of_lines(rs: Seq<RewardType>, lines: Seq<Seq<char>>) -> bool
    decreases lines.len(),
{
    if lines.len() == 0 {
        rs.len() == 0
    } else {
        let t = trim_ws(lines.last());
        if t.len() > 0 && code_parses(t) {
            rs.len() > 0 && reward_of_code(rs.last(), t) && rewards_of_lines(rs.drop_last(), lines.drop_last())
        } else {
            rewards_of_lines(rs, lines.drop_last())
        }
    }
}

/// The rewards of a text, a line each (see `rewards_of_lines`).
pub open spec fn rewards_of_text(rs: Seq<RewardType>, text: Seq<char>) -> bool {
    rewards_of_lines(rs, split_char(text, '\n'))
}

/// A record of the reward table that is loaded: a code (trimmed, not the
/// heading 模块名称) and a reward text that gives a reward.
pub open spec fn record_loaded(rec: Seq<String>, rewards: Seq<RewardType>) -> bool {
    &&& rec.len() >= 2
    &&& trim_ws(rec[0]@).len() > 0
    &&& rec[1]@.len() > 0
    &&& trim_ws(rec[0]@) != "模块名称"@
    &&& rewards.len() > 0
}

impl QuestDaemon {
    /// The reward at the place a number `roll` picks in the code's list.
    pub fn reward_at_roll(&self, reward_key: &str, roll: usize) -> (r: Option<RewardType>)
        ensures
            code_rewards(self.data, reward_key@).len() == 0 ==> r is None,
            code_rewards(self.data, reward_key@).len() > 0 ==> r == Some(code_rewards(self.data, reward_key@)[roll as int % code_rewards(self.data, reward_key@).len() as int]),
    {
        match get_key(&self.data.rewards, reward_key) {
            Some(e) => {
                if e.rewards.len() == 0 {
                    None
                } else {
                    Some(e.rewards[roll % e.rewards.len()].clone())
                }
            },
            None => None,
        }
    }

    /// A random reward of the code's list; none for an unknown code or an
    /// empty list.
    pub fn get_random_reward(&self, reward_key: &str) -> (r: Option<RewardType>)
        ensures
            r is None <==> code_rewards(self.data, reward_key@).len() == 0,
            r matches Some(x) ==> exists|j: int| 0 <= j < code_rewards(self.data, reward_key@).len() && code_rewards(self.data, reward_key@)[j] == x,
    {
        let r = self.reward_at_roll(reward_key, random_usize());
        r
    }

    /// The template a row of the quest table makes, if it makes one.
    pub fn template_from_row(row: &QuestCsvRow) -> (r: Option<QuestTemplate>)
        ensures
            r is Some <==> row_accepted(*row),
            r matches Some(t) ==> template_of_row(t, *row),
    {
        if str_eq(row.npc_name.as_str(), "发放任务的人") || row.npc_name.as_str().unicode_len() == 0 {
            return None;
        }
        let kind = trim_text(row.quest_type.as_str());
        let quest_type = match QuestType::from_str(kind.as_str()) {
            Some(t) => t,
            None => return None,
        };
        let required_level = match parse_i32(row.required_level.as_str()) {
            Some(v) => v,
            None => 1000,
        };
        let quest_talk = if row.quest_talk_part1.as_str().unicode_len() > 0 && row.quest_talk_part2.as_str().unicode_len() > 0 {
            let mut t = row.quest_talk_part1.clone();
            push_str(&mut t, "\n");
            push_str(&mut t, row.quest_talk_part2.as_str());
            t
        } else {
            row.quest_talk_part1.clone()
        };
        let target_amount = match parse_i32(row.target_amount.as_str()) {
            Some(v) => v,
            None => 1,
        };
        Some(QuestTemplate {
            npc_name: row.npc_name.clone(),
            required_level,
            quest_type,
            target_npc: row.target_npc.clone(),
            target_object: row.target_object.clone(),
            target_amount,
            quest_talk,
            finish_talk: row.finish_talk.clone(),
            npc_talk: row.npc_talk.clone(),
            reward_code: row.reward_code.clone(),
            quest_name: row.quest_name.clone(),
            base_quest: row.base_quest.clone(),
            delete_name: row.delete_name.clone(),
        })
    }

    /// Adds the template of each row of the quest table that makes one, and
    /// returns how many were added.
    pub fn load_quest_rows(&mut self, rows: &Vec<QuestCsvRow>) -> (r: usize)
        requires
            old(self).wf(),
        ensures
            final(self).wf(),
            r == rows_accepted(rows@),
            final(self).data.rewards@ == old(self).data.rewards@,
            forall|k: Seq<char>| #[trigger] npc_templates(final(self).data, k).len() == npc_templates(old(self).data, k).len() + rows_for(rows@, k),
            forall|k: Seq<char>| #[trigger] built_from(npc_templates(final(self).data, k), npc_templates(old(self).data, k),
                accepted_rows(rows@, k)),
    {
        let mut count: usize = 0;
        let mut i: usize = 0;
        while i < rows.len()
            invariant
                self.wf(),
                i <= rows@.len(),
                count == rows_accepted(rows@.take(i as int)),
                count <= i,
                self.data.rewards@ == old(self).data.rewards@,
                forall|k: Seq<char>| #[trigger] npc_templates(self.data, k).len() == npc_templates(old(self).data, k).len() + rows_for(rows@.take(i as int), k),
                forall|k: Seq<char>| #[trigger] built_from(npc_templates(self.data, k), npc_templates(old(self).data, k),
                    accepted_rows(rows@.take(i as int), k)),
            decreases rows.len() - i,
        {
            let ghost d0 = self.data;
            assert(rows@.take(i + 1).drop_last() =~= rows@.take(i as int));
            match Self::template_from_row(&rows[i]) {
                Some(t) => {
                    let ghost gt = t;
                    self.add_quest_template(t);
                    proof {
                        assert forall|k: Seq<char>| #[trigger] npc_templates(self.data, k).len() == npc_templates(old(self).data, k).len() + rows_for(rows@.take(i + 1), k) by {
                            if k == gt.npc_name@ {
                                if has_npc(d0, k) {
                                    let p = choose|p: int| inserted_at(npc_templates(d0, k), npc_templates(self.data, k), gt, p);
                                } else {
                                    crate::util::lemma_key_get_none(d0.quest_templates@, k);
                                }
                            } else {
                                assert(npc_templates(self.data, k) == npc_templates(d0, k));
                            }
                        }
                        assert forall|k: Seq<char>| #[trigger] built_from(npc_templates(self.data, k), npc_templates(old(self).data, k),
                            accepted_rows(rows@.take(i + 1), k)) by {
                            let pre = accepted_rows(rows@.take(i as int), k);
                            if k == gt.npc_name@ {
                                let ext = accepted_rows(rows@.take(i + 1), k);
                                assert(ext == pre.push(rows@[i as int]));
                                assert(ext.drop_last() =~= pre);
                                assert(built_from(npc_templates(d0, k), npc_templates(old(self).data, k), pre));
                                if has_npc(d0, k) {
                                    let p = choose|p: int| inserted_at(npc_templates(d0, k), npc_templates(self.data, k), gt, p);
                                    assert(inserted_at(npc_templates(d0, k), npc_templates(self.data, k), gt, p));
                                } else {
                                    crate::util::lemma_key_get_none(d0.quest_templates@, k);
                                    assert(npc_templates(self.data, k) =~= npc_templates(d0, k).insert(0, gt));
                                    assert(inserted_at(npc_templates(d0, k), npc_templates(self.data, k), gt, 0));
                                }
                            } else {
                                assert(accepted_rows(rows@.take(i + 1), k) == pre);
                                assert(npc_templates(self.data, k) == npc_templates(d0, k));
                            }
                        }
                    }
                    count = count + 1;
                },
                None => {
                    assert forall|k: Seq<char>| #[trigger] built_from(npc_templates(self.data, k), npc_templates(old(self).data, k),
                        accepted_rows(rows@.take(i + 1), k)) by {
                        assert(accepted_rows(rows@.take(i + 1), k) == accepted_rows(rows@.take(i as int), k));
                    }
                },
            }
            i = i + 1;
        }
        assert(rows@.take(i as int) =~= rows@);
        count
    }

    /// The rewards of a reward text, one per line that names one.
    pub fn rewards_of_text(&self, text: &str) -> (r: Vec<RewardType>)
        ensures
            rewards_of_text(r@, text@),
    {
        let lines = split_text(text, '\n');
        let ghost ls = split_char(text@, '\n');
        let mut out: Vec<RewardType> = Vec::new();
        let mut i: usize = 0;
        while i < lines.len()
            invariant
                lines@.map_values(|x: String| x@) == ls,
                i <= lines@.len(),
                rewards_of_lines(out@, ls.take(i as int)),
            decreases lines.len() - i,
        {
            assert(ls.take(i + 1).drop_last() =~= ls.take(i as int));
            assert(ls.take(i + 1).last() == lines@[i as int]@);
            let line = trim_text(lines[i].as_str());
            if line.as_str().unicode_len() > 0 {
                match self.parse_reward_line(line.as_str()) {
                    Some(x) => {
                        let ghost o0 = out@;
                        out.push(x);
                        assert(out@.drop_last() =~= o0);
                    },
                    None => {},
                }
            }
            i = i + 1;
        }
        assert(ls.take(i as int) =~= ls);
        out
    }

    /// Loads the records of the reward table: each record whose code and
    /// text are there and whose text gives a reward (see `record_gives`)
    /// has its rewards stored under the trimmed code, replacing earlier ones,
    /// so that each code ends with the rewards of its last such record.
    /// Returns how many records were loaded.
    pub fn load_reward_records(&mut self, records: &Vec<Vec<String>>) -> (r: usize)
        requires
            old(self).wf(),
        ensures
            final(self).wf(),
            r == records_loaded(records@),
            final(self).data.quest_templates@ == old(self).data.quest_templates@,
            forall|k: Seq<char>, j: int| #[trigger] last_loaded(records@, k, j) ==>
                (key_get(final(self).data.rewards@, k) matches Some(e) && rewards_of_text(e.rewards@, records@[j]@[1]@)),
            forall|k: Seq<char>| !(exists|j: int| #[trigger] loaded_key(records@, j, k))
                ==> #[trigger] key_get(final(self).data.rewards@, k) == key_get(old(self).data.rewards@, k),
    {
        let mut count: usize = 0;
        let mut i: usize = 0;
        while i < records.len()
            invariant
                self.wf(),
                i <= records@.len(),
                count == records_loaded(records@.take(i as int)),
                count <= i,
                self.data.quest_templates@ == old(self).data.quest_templates@,
                forall|k: Seq<char>, j: int| #[trigger] last_loaded(records@.take(i as int), k, j) ==>
                    (key_get(self.data.rewards@, k) matches Some(e) && rewards_of_text(e.rewards@, records@[j]@[1]@)),
                forall|k: Seq<char>| !(exists|j: int| #[trigger] loaded_key(records@.take(i as int), j, k))
                    ==> #[trigger] key_get(self.data.rewards@, k) == key_get(old(self).data.rewards@, k),
            decreases records.len() - i,
        {
            let ghost pre = records@.take(i as int);
            let ghost post = records@.take(i as int + 1);
            assert(post.drop_last() =~= pre);
            assert(post.last() == records@[i as int]);
            let ghost rewards0 = self.data.rewards@;
            let ghost rec = records@[i as int]@;
            let record = &records[i];
            let mut loaded = false;
            let ghost mut kv: Seq<char> = Seq::empty();
            if record.len() >= 2 {
                let key = trim_text(record[0].as_str());
                let text = record[1].as_str();
                if key.as_str().unicode_len() > 0 && text.unicode_len() > 0 && !str_eq(key.as_str(), "模块名称") {
                    let rewards = self.rewards_of_text(text);
                    proof { lemma_rewards_count(rewards@, split_char(text@, '\n')); }
                    if rewards.len() > 0 {
                        proof { kv = key@; }
                        let ghost rv = rewards@;
                        put_key(&mut self.data.rewards, RewardList { code: key, rewards });
                        loaded = true;
                        assert(key_get(self.data.rewards@, kv) matches Some(e) && e.rewards@ == rv);
                        count = count + 1;
                    }
                }
            }
            proof {
                assert(loaded == record_gives(rec));
                if loaded {
                    assert(kv == trim_ws(rec[0]@));
                    assert(loaded_key(post, i as int, kv));
                    assert forall|k: Seq<char>, j: int| #[trigger] last_loaded(post, k, j) implies
                        (key_get(self.data.rewards@, k) matches Some(e) && rewards_of_text(e.rewards@, records@[j]@[1]@)) by {
                        if k == kv {
                            if j != i as int {
                                assert(loaded_key(post, i as int, k));
                            }
                        } else {
                            assert(key_get(self.data.rewards@, k) == key_get(rewards0, k));
                            assert(j != i as int);
                            lemma_last_loaded_prefix(post, k, j);
                        }
                    }
                    assert forall|k: Seq<char>| !(exists|j: int| #[trigger] loaded_key(post, j, k)) implies
                        #[trigger] key_get(self.data.rewards@, k) == key_get(old(self).data.rewards@, k) by {
                        assert(k != kv);
                        assert(key_get(self.data.rewards@, k) == key_get(rewards0, k));
                        assert forall|j: int| !loaded_key(pre, j, k) by {
                            if loaded_key(pre, j, k) { assert(loaded_key(post, j, k)); }
                        }
                    }
                } else {
                    assert(self.data.rewards@ == rewards0);
                    assert forall|k: Seq<char>, j: int| #[trigger] last_loaded(post, k, j) implies
                        (key_get(self.data.rewards@, k) matches Some(e) && rewards_of_text(e.rewards@, records@[j]@[1]@)) by {
                        assert(j != i as int);
                        lemma_last_loaded_prefix(post, k, j);
                    }
                    assert forall|k: Seq<char>| !(exists|j: int| #[trigger] loaded_key(post, j, k)) implies
                        #[trigger] key_get(self.data.rewards@, k) == key_get(old(self).data.rewards@, k) by {
                        assert forall|j: int| !loaded_key(pre, j, k) by {
                            if loaded_key(pre, j, k) { assert(loaded_key(post, j, k)); }
                        }
                    }
                }
            }
            i = i + 1;
        }
        assert(records@.take(i as int) =~= records@);
        count
    }
}

/// A record that is last for its code in `recs`, and not the final
/// record, is last for it without the final record too.
pub proof fn lemma_last_loaded_prefix(recs: Seq<Vec<String>>, k: Seq<char>, j: int)
    requires
        last_loaded(recs, k, j),
        j < recs.len() - 1,
    ensures
        last_loaded(recs.drop_last(), k, j),
{
    let pre = recs.drop_last();
    assert(pre[j] == recs[j]);
    assert forall|j2: int| j < j2 < pre.len() implies !loaded_key(pre, j2, k) by {
        assert(pre[j2] == recs[j2]);
        assert(!loaded_key(recs, j2, k));
    }
}

/// How many lines of a reward text name a reward, read through `str::trim`.
pub open spec fn reward_count(lines: Seq<Seq<char>>) -> nat
    decreases lines.len(),
{
    if lines.len() == 0 {
        0
    } else {
        let t = trim_ws(lines.last());
        reward_count(lines.drop_last()) + if t.len() > 0 && code_parses(t) { 1nat } else { 0nat }
    }
}

/// The rewards a text gives are as many as its lines that name one.
pub proof fn lemma_rewards_count(rs: Seq<RewardType>, lines: Seq<Seq<char>>)
    requires
        rewards_of_lines(rs, lines),
    ensures
        rs.len() == reward_count(lines),
    decreases lines.len(),
{
    if lines.len() > 0 {
        let t = trim_ws(lines.last());
        if t.len() > 0 && code_parses(t) {
            lemma_rewards_count(rs.drop_last(), lines.drop_last());
        } else {
            lemma_rewards_count(rs, lines.drop_last());
        }
    }
}

/// A record of the reward table gives rewards: it has a code (trimmed, not
/// the heading 模块名称) and a text with a line that names a reward.
pub open spec fn record_gives(rec: Seq<String>) -> bool {
    &&& rec.len() >= 2
    &&& trim_ws(rec[0]@).len() > 0
    &&& rec[1]@.len() > 0
    &&& trim_ws(rec[0]@) != "模块名称"@
    &&& reward_count(split_char(rec[1]@, '\n')) > 0
}

/// How many records of `recs` give rewards.
pub open spec fn records_loaded(recs: Seq<Vec<String>>) -> nat
    decreases recs.len(),
{
    if recs.len() == 0 {
        0
    } else {
        records_loaded(recs.drop_last()) + if record_gives(recs.last()@) { 1nat } else { 0nat }
    }
}

/// Record `j` of `recs` gives rewards under code `k`.
pub open spec fn loaded_key(recs: Seq<Vec<String>>, j: int, k: Seq<char>) -> bool {
    0 <= j < recs.len() && record_gives(recs[j]@) && trim_ws(recs[j]@[0]@) == k
}

/// Record `j` of `recs` is the last to give rewards under code `k`.
pub open spec fn last_loaded(recs: Seq<Vec<String>>, k: Seq<char>, j: int) -> bool {
    loaded_key(recs, j, k) && forall|j2: int| j < j2 < recs.len() ==> !loaded_key(recs, j2, k)
}

impl Default for QuestDaemon {
    fn default() -> (r: Self)
        ensures
            r.wf(),
            r.data.quest_templates@.len() == 0 && r.data.rewards@.len() == 0,
    {
        Self::new()
    }
}

} // verus!
