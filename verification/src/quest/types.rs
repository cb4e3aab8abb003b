//! Quests: their kinds and rewards, a quest's progress, a player's quest
//! book and main-line records, and the shape of quest templates.
use vstd::prelude::*;
use crate::text::{push_str, push_i64, string_of, int_digits, chars_of, push_char, seq_contains, str_contains};
use crate::util::{Keyed, key_pos, key_get, key_in, keys_unique, find_key, get_key, put_key, drop_key, lemma_key_get_at, lemma_key_get_none, lemma_keyed_update, remove_key};

verus! {

/// `c` lowercases to the ASCII lowercase letter or character `t`.
pub open spec fn lowers_to(c: char, t: char) -> bool {
    c == t || ('a' <= t && t <= 'z' && (c as int) == (t as int) - 32) || (t == 'k' && c == '\u{212A}')
}

/// `s` lowercases to the ASCII text `t`.
pub open spec fn lowers_to_text(s: Seq<char>, t: Seq<char>) -> bool {
    s.len() == t.len() && forall|i: int| 0 <= i < s.len() ==> lowers_to(#[trigger] s[i], t[i])
}

fn lowers_to_exec(c: char, t: char) -> (r: bool)
    requires
        (t as int) < 128,
    ensures
        r == lowers_to(c, t),
{
    if c == t {
        return true;
    }
    if t == 'k' && c == '\u{212A}' {
        return true;
    }
    if 'a' <= t && t <= 'z' {
        let tu = t as u32;
        let cu = c as u32;
        return cu + 32 == tu;
    }
    false
}

/// Whether `s` lowercases to the ASCII text `t`.
fn lower_eq(s: &str, t: &str) -> (r: bool)
    requires
        forall|i: int| 0 <= i < t@.len() ==> (#[trigger] t@[i] as int) < 128,
    ensures
        r == lowers_to_text(s@, t@),
{
    let a = chars_of(s);
    let b = chars_of(t);
    if a.len() != b.len() {
        return false;
    }
    let mut i: usize = 0;
    while i < a.len()
        invariant
            a@ == s@,
            b@ == t@,
            a@.len() == b@.len(),
            i <= a@.len(),
            forall|j: int| 0 <= j < t@.len() ==> (#[trigger] t@[j] as int) < 128,
            forall|j: int| 0 <= j < i ==> lowers_to(#[trigger] a@[j], b@[j]),
        decreases a.len() - i,
    {
        if !lowers_to_exec(a[i], b[i]) {
            return false;
        }
        i = i + 1;
    }
    true
}

/// The kind of a quest.
#[derive(Clone, Copy, Debug, PartialEq, Eq, Structural)]
pub enum QuestType {
    Find,
    Give,
    Kill,
    Ask,
}

/// The name of a quest kind.
pub open spec fn quest_type_name(t: QuestType) -> Seq<char> {
    match t {
        QuestType::Find => "find"@,
        QuestType::Give => "give"@,
        QuestType::Kill => "kill"@,
        QuestType::Ask => "ask"@,
    }
}

/// The Chinese name of a quest kind.
pub open spec fn quest_type_cn(t: QuestType) -> Seq<char> {
    match t {
        QuestType::Find => "寻找"@,
        QuestType::Give => "送达"@,
        QuestType::Kill => "击杀"@,
        QuestType::Ask => "打听"@,
    }
}

/// The quest kind a name stands for, in any letter case.
pub open spec fn quest_type_of(s: Seq<char>) -> Option<QuestType> {
    if lowers_to_text(s, "find"@) {
        Some(QuestType::Find)
    } else if lowers_to_text(s, "give"@) {
        Some(QuestType::Give)
    } else if lowers_to_text(s, "kill"@) {
        Some(QuestType::Kill)
    } else if lowers_to_text(s, "ask"@) {
        Some(QuestType::Ask)
    } else {
        None
    }
}

proof fn lemma_ascii(t: &str)
    requires
        t@ == "find"@ || t@ == "give"@ || t@ == "kill"@ || t@ == "ask"@ || t@ == "gold"@ || t@ == "silver"@ || t@ == "coin"@,
    ensures
        forall|i: int| 0 <= i < t@.len() ==> (#[trigger] t@[i] as int) < 128,
{
    reveal_strlit("find");
    reveal_strlit("give");
    reveal_strlit("kill");
    reveal_strlit("ask");
    reveal_strlit("gold");
    reveal_strlit("silver");
    reveal_strlit("coin");
}

impl QuestType {
    /// The kind named `s` (find, give, kill or ask, in any letter case).
    pub fn from_str(s: &str) -> (r: Option<Self>)
        ensures
            r == quest_type_of(s@),
    {
        proof {
            lemma_ascii("find");
            lemma_ascii("give");
            lemma_ascii("kill");
            lemma_ascii("ask");
        }
        if lower_eq(s, "find") {
            Some(QuestType::Find)
        } else if lower_eq(s, "give") {
            Some(QuestType::Give)
        } else if lower_eq(s, "kill") {
            Some(QuestType::Kill)
        } else if lower_eq(s, "ask") {
            Some(QuestType::Ask)
        } else {
            None
        }
    }

    /// The name of the kind.
    pub fn as_str(&self) -> (r: &'static str)
        ensures
            r@ == quest_type_name(*self),
    {
        match self {
            QuestType::Find => "find",
            QuestType::Give => "give",
            QuestType::Kill => "kill",
            QuestType::Ask => "ask",
        }
    }

    /// The Chinese name of the kind.
    pub fn cn_name(&self) -> (r: &'static str)
        ensures
            r@ == quest_type_cn(*self),
    {
        match self {
            QuestType::Find => "寻找",
            QuestType::Give => "送达",
            QuestType::Kill => "击杀",
            QuestType::Ask => "打听",
        }
    }
}

/// A currency.
#[derive(Clone, Copy, Debug, PartialEq, Eq, Structural)]
pub enum Currency {
    Gold,
    Silver,
    Coin,
}

/// The currency a name stands for, in any letter case.
pub open spec fn currency_of(s: Seq<char>) -> Option<Currency> {
    if lowers_to_text(s, "gold"@) {
        Some(Currency::Gold)
    } else if lowers_to_text(s, "silver"@) {
        Some(Currency::Silver)
    } else if lowers_to_text(s, "coin"@) {
        Some(Currency::Coin)
    } else {
        None
    }
}

/// The Chinese name of a currency.
pub open spec fn currency_cn(c: Currency) -> Seq<char> {
    match c {
        Currency::Gold => "金币"@,
        Currency::Silver => "银两"@,
        Currency::Coin => "铜钱"@,
    }
}

impl Currency {
    /// The currency named `s` (gold, silver or coin, in any letter case).
    pub fn from_str(s: &str) -> (r: Option<Self>)
        ensures
            r == currency_of(s@),
    {
        proof {
            lemma_ascii("gold");
            lemma_ascii("silver");
            lemma_ascii("coin");
        }
        if lower_eq(s, "gold") {
            Some(Currency::Gold)
        } else if lower_eq(s, "silver") {
            Some(Currency::Silver)
        } else if lower_eq(s, "coin") {
            Some(Currency::Coin)
        } else {
            None
        }
    }

    /// The Chinese name of the currency.
    pub fn cn_name(&self) -> (r: &'static str)
        ensures
            r@ == currency_cn(*self),
    {
        match self {
            Currency::Gold => "金币",
            Currency::Silver => "银两",
            Currency::Coin => "铜钱",
        }
    }
}

/// What completing a quest gives.
#[derive(Debug, PartialEq, Eq)]
pub enum RewardType {
    Add { attr: String, amount: i32 },
    Money { currency: Currency, amount: i32 },
    GiveItem { item_id: String, amount: i32 },
}

impl Clone for RewardType {
    fn clone(&self) -> (r: Self)
        ensures
            r == *self,
    {
        match self {
            RewardType::Add { attr, amount } => RewardType::Add { attr: attr.clone(), amount: *amount },
            RewardType::Money { currency, amount } => RewardType::Money { currency: *currency, amount: *amount },
            RewardType::GiveItem { item_id, amount } => RewardType::GiveItem { item_id: item_id.clone(), amount: *amount },
        }
    }
}

/// Where a quest stands.
#[derive(Clone, Copy, Debug, PartialEq, Eq, Structural)]
pub enum QuestStatus {
    NotStarted,
    InProgress,
    Completed,
    Failed,
}

/// A quest: what to do for which NPC, progress, talk and reward.
#[derive(Debug)]
pub struct Quest {
    pub id: String,
    pub quest_type: QuestType,
    pub target_npc: String,
    pub target_object: String,
    pub target_amount: i32,
    pub current_amount: i32,
    pub quest_talk: String,
    pub finish_talk: String,
    pub npc_talk: String,
    pub reward: RewardType,
    pub quest_name: String,
    pub required_level: i32,
    pub is_main_quest: bool,
    pub main_line_name: Option<String>,
    pub delete_name: Option<String>,
}

impl Clone for Quest {
    fn clone(&self) -> (r: Self)
        ensures
            r == *self,
    {
        Quest {
            id: self.id.clone(),
            quest_type: self.quest_type,
            target_npc: self.target_npc.clone(),
            target_object: self.target_object.clone(),
            target_amount: self.target_amount,
            current_amount: self.current_amount,
            quest_talk: self.quest_talk.clone(),
            finish_talk: self.finish_talk.clone(),
            npc_talk: self.npc_talk.clone(),
            reward: self.reward.clone(),
            quest_name: self.quest_name.clone(),
            required_level: self.required_level,
            is_main_quest: self.is_main_quest,
            main_line_name: match &self.main_line_name { Some(s) => Some(s.clone()), None => None },
            delete_name: match &self.delete_name { Some(s) => Some(s.clone()), None => None },
        }
    }
}

/// The description of a quest: name, kind, object and progress.
pub open spec fn quest_text(q: Quest) -> Seq<char> {
    q.quest_name@ + " - "@ + quest_type_cn(q.quest_type) + q.target_object@ + " "@ + if q.current_amount >= q.target_amount {
        "§g[可完成]§r"@
    } else {
        "§Y进度: "@ + int_digits(q.current_amount as int) + "/"@ + int_digits(q.target_amount as int) + "§r"@
    }
}

impl Quest {
    /// A quest without talk, rewarding 100 experience; a negative level
    /// makes it a main-line quest.
    pub fn new(id: String, quest_type: QuestType, target_npc: String, target_object: String, target_amount: i32, required_level: i32) -> (r: Self)
        ensures
            r.id == id && r.quest_type == quest_type && r.target_npc == target_npc && r.target_object == target_object,
            r.target_amount == target_amount && r.current_amount == 0,
            r.quest_talk@.len() == 0 && r.finish_talk@.len() == 0 && r.npc_talk@.len() == 0 && r.quest_name@.len() == 0,
            r.reward matches RewardType::Add { attr, amount } && attr@ == "exp"@ && amount == 100,
            r.required_level == required_level,
            r.is_main_quest == (required_level < 0),
            r.main_line_name is None && r.delete_name is None,
    {
        Quest {
            id,
            quest_type,
            target_npc,
            target_object,
            target_amount,
            current_amount: 0,
            quest_talk: String::new(),
            finish_talk: String::new(),
            npc_talk: String::new(),
            reward: RewardType::Add { attr: string_of("exp"), amount: 100 },
            quest_name: String::new(),
            required_level,
            is_main_quest: required_level < 0,
            main_line_name: None,
            delete_name: None,
        }
    }

    /// The quest with the given talk.
    pub fn with_talks(self, quest_talk: &str, finish_talk: &str, npc_talk: &str) -> (r: Self)
        ensures
            r.quest_talk@ == quest_talk@ && r.finish_talk@ == finish_talk@ && r.npc_talk@ == npc_talk@,
            r == (Quest { quest_talk: r.quest_talk, finish_talk: r.finish_talk, npc_talk: r.npc_talk, ..self }),
    {
        let mut q = self;
        q.quest_talk = string_of(quest_talk);
        q.finish_talk = string_of(finish_talk);
        q.npc_talk = string_of(npc_talk);
        q
    }

    /// The quest with the given reward.
    pub fn with_reward(self, reward: RewardType) -> (r: Self)
        ensures
            r == (Quest { reward, ..self }),
    {
        let mut q = self;
        q.reward = reward;
        q
    }

    /// The quest as a main-line quest of `main_line` named `quest_name`.
    pub fn with_main_quest(self, quest_name: &str, main_line: &str, delete_name: Option<String>) -> (r: Self)
        ensures
            r.is_main_quest,
            r.quest_name@ == quest_name@,
            r.main_line_name matches Some(m) && m@ == main_line@,
            r.delete_name == delete_name,
            r == (Quest { is_main_quest: true, quest_name: r.quest_name, main_line_name: r.main_line_name, delete_name, ..self }),
    {
        let mut q = self;
        q.is_main_quest = true;
        q.quest_name = string_of(quest_name);
        q.main_line_name = Some(string_of(main_line));
        q.delete_name = delete_name;
        q
    }

    /// The target amount is reached.
    pub fn is_completed(&self) -> (r: bool)
        ensures
            r == (self.current_amount >= self.target_amount),
    {
        self.current_amount >= self.target_amount
    }

    /// Adds to the progress, capped at the target; returns whether the quest
    /// is completed.
    pub fn add_progress(&mut self, amount: i32) -> (r: bool)
        requires
            i32::MIN <= old(self).current_amount + amount <= i32::MAX,
        ensures
            *final(self) == (Quest {
                current_amount: (if old(self).current_amount + amount <= old(self).target_amount { old(self).current_amount + amount } else { old(self).target_amount as int }) as i32,
                ..*old(self)
            }),
            r == (final(self).current_amount >= final(self).target_amount),
    {
        let v = self.current_amount + amount;
        self.current_amount = if v <= self.target_amount { v } else { self.target_amount };
        self.is_completed()
    }

    /// The quest's name, kind, object and progress.
    pub fn render(&self) -> (r: String)
        ensures
            r@ == quest_text(*self),
    {
        let mut s = self.quest_name.clone();
        push_str(&mut s, " - ");
        push_str(&mut s, self.quest_type.cn_name());
        push_str(&mut s, self.target_object.as_str());
        push_str(&mut s, " ");
        if self.is_completed() {
            push_str(&mut s, "§g[可完成]§r");
        } else {
            push_str(&mut s, "§Y进度: ");
            push_i64(&mut s, self.current_amount as i64);
            push_str(&mut s, "/");
            push_i64(&mut s, self.target_amount as i64);
            push_str(&mut s, "§r");
        }
        s
    }
}

/// A quest taken from an NPC.
#[derive(Debug)]
pub struct NpcQuest {
    pub npc_name: String,
    pub quest: Quest,
}

impl Keyed for NpcQuest {
    open spec fn key_view(&self) -> Seq<char> {
        self.npc_name@
    }

    fn key(&self) -> (r: &String) {
        &self.npc_name
    }
}

/// The finished quests of one main line, as a path `/name/name...`.
#[derive(Debug)]
pub struct MainLinePath {
    pub main_line: String,
    pub path: String,
}

impl Keyed for MainLinePath {
    open spec fn key_view(&self) -> Seq<char> {
        self.main_line@
    }

    fn key(&self) -> (r: &String) {
        &self.main_line
    }
}

/// A cached count for a quest.
#[derive(Debug)]
pub struct QuestCacheEntry {
    pub quest: String,
    pub key: String,
    pub value: i32,
}

/// A player's quest book.
#[derive(Debug)]
pub struct PlayerQuestData {
    pub pending_quests: Vec<NpcQuest>,
    pub main_quests: Vec<MainLinePath>,
    pub quest_cache: Vec<QuestCacheEntry>,
}

impl Default for PlayerQuestData {
    fn default() -> (r: Self)
        ensures
            r.pending_quests@.len() == 0 && r.main_quests@.len() == 0 && r.quest_cache@.len() == 0,
    {
        PlayerQuestData { pending_quests: Vec::new(), main_quests: Vec::new(), quest_cache: Vec::new() }
    }
}

/// The path recorded for a main line, empty when none is.
pub open spec fn main_path(m: Seq<MainLinePath>, line: Seq<char>) -> Seq<char> {
    match key_get(m, line) {
        Some(p) => p.path@,
        None => Seq::empty(),
    }
}

/// `s` with every occurrence of the non-empty `pat`, left to right and not
/// overlapping, replaced by `rep` (`str::replace`).
pub open spec fn replace_all(s: Seq<char>, pat: Seq<char>, rep: Seq<char>) -> Seq<char>
    recommends
        pat.len() > 0,
    decreases s.len(),
{
    if pat.len() == 0 || s.len() < pat.len() {
        s
    } else if s.take(pat.len() as int) == pat {
        rep + replace_all(s.skip(pat.len() as int), pat, rep)
    } else {
        seq![s[0]] + replace_all(s.skip(1), pat, rep)
    }
}

/// `str::replace` for a non-empty pattern.
pub fn replace_text(s: &str, pat: &str, rep: &str) -> (r: String)
    requires
        pat@.len() > 0,
    ensures
        r@ == replace_all(s@, pat@, rep@),
{
    let cs = chars_of(s);
    let ps = chars_of(pat);
    let mut out = String::new();
    let mut i: usize = 0;
    assert(cs@.skip(0) =~= cs@);
    assert(out@ + replace_all(cs@, ps@, rep@) =~= replace_all(cs@, ps@, rep@));
    while i < cs.len()
        invariant
            cs@ == s@,
            ps@ == pat@,
            ps@.len() > 0,
            i <= cs@.len(),
            out@ + replace_all(cs@.skip(i as int), ps@, rep@) == replace_all(cs@, ps@, rep@),
        decreases cs.len() - i,
    {
        let ghost rest = cs@.skip(i as int);
        let mut hit = ps.len() <= cs.len() - i;
        if hit {
            let mut j: usize = 0;
            while j < ps.len()
                invariant
                    i + ps@.len() <= cs@.len(),
                    i + ps.len() <= cs.len(),
                    j <= ps@.len(),
                    hit ==> forall|m: int| 0 <= m < j ==> cs@[i + m] == ps@[m],
                    !hit ==> exists|m: int| 0 <= m < j && cs@[i + m] != ps@[m],
                decreases ps.len() - j,
            {
                if cs[i + j] != ps[j] {
                    hit = false;
                }
                j = j + 1;
            }
            proof {
                if hit {
                    assert(rest.take(ps@.len() as int) =~= ps@);
                } else {
                    assert(rest.take(ps@.len() as int) != ps@) by {
                        let m = choose|m: int| 0 <= m < ps@.len() && cs@[i + m] != ps@[m];
                        assert(rest.take(ps@.len() as int)[m] == cs@[i + m]);
                    }
                }
            }
        } else {
            assert(rest.len() < ps@.len());
        }
        if hit {
            push_str(&mut out, rep);
            proof {
                assert(rest.skip(ps@.len() as int) =~= cs@.skip(i + ps@.len()));
                assert(out@ + replace_all(cs@.skip(i + ps@.len()), ps@, rep@) =~= (out@.subrange(0, out@.len() - rep@.len())) + replace_all(rest, ps@, rep@));
            }
            i = i + ps.len();
        } else {
            let ghost before = out@;
            push_char(&mut out, cs[i]);
            proof {
                if rest.len() < ps@.len() {
                    assert(replace_all(rest, ps@, rep@) == rest);
                    assert(rest.skip(1).len() < ps@.len());
                    assert(replace_all(rest.skip(1), ps@, rep@) == rest.skip(1));
                    assert(rest =~= seq![rest[0]] + rest.skip(1));
                }
                assert(rest.skip(1) =~= cs@.skip(i + 1));
                assert(out@ + replace_all(cs@.skip(i + 1), ps@, rep@) =~= before + replace_all(rest, ps@, rep@));
            }
            i = i + 1;
        }
    }
    proof {
        assert(cs@.skip(i as int).len() == 0);
        assert(replace_all(cs@.skip(i as int), ps@, rep@) =~= Seq::<char>::empty());
    }
    assert(out@ =~= replace_all(cs@, ps@, rep@));
    out
}

impl PlayerQuestData {
    /// Takes a quest from an NPC. Fails with 已有N的任务 when one of that NPC
    /// is taken and with 已有3个任务，无法接受更多任务 at three quests.
    pub fn add_quest(&mut self, npc_name: &str, quest: Quest) -> (r: Result<(), String>)
        ensures
            final(self).main_quests@ == old(self).main_quests@ && final(self).quest_cache@ == old(self).quest_cache@,
            key_in(old(self).pending_quests@, npc_name@) ==> (r matches Err(m) && m@ == "已有"@ + npc_name@ + "的任务"@) && final(self).pending_quests@ == old(self).pending_quests@,
            !key_in(old(self).pending_quests@, npc_name@) && old(self).pending_quests@.len() >= 3 ==> (r matches Err(m) && m@ == "已有3个任务，无法接受更多任务"@) && final(self).pending_quests@ == old(self).pending_quests@,
            !key_in(old(self).pending_quests@, npc_name@) && old(self).pending_quests@.len() < 3 ==> r is Ok && final(self).pending_quests@.len() == old(self).pending_quests@.len() + 1
                && final(self).pending_quests@.drop_last() == old(self).pending_quests@
                && final(self).pending_quests@.last().npc_name@ == npc_name@ && final(self).pending_quests@.last().quest == quest,
    {
        if find_key(&self.pending_quests, npc_name).is_some() {
            let mut m = string_of("已有");
            push_str(&mut m, npc_name);
            push_str(&mut m, "的任务");
            return Err(m);
        }
        if self.pending_quests.len() >= 3 {
            return Err(string_of("已有3个任务，无法接受更多任务"));
        }
        self.pending_quests.push(NpcQuest { npc_name: string_of(npc_name), quest });
        Ok(())
    }

    /// The quest taken from an NPC.
    pub fn get_quest(&self, npc_name: &str) -> (r: Option<&Quest>)
        ensures
            match key_get(self.pending_quests@, npc_name@) {
                Some(e) => r == Some(&e.quest),
                None => r is None,
            },
    {
        match get_key(&self.pending_quests, npc_name) {
            Some(e) => Some(&e.quest),
            None => None,
        }
    }

    /// The quest taken from an NPC, for changing it.
    pub fn get_quest_mut(&mut self, npc_name: &str) -> (r: Option<&mut Quest>)
        ensures
            match key_get(old(self).pending_quests@, npc_name@) {
                Some(e) => r matches Some(q) && *q == e.quest && (exists|i: int| key_pos(old(self).pending_quests@, npc_name@, i)
                    && final(self).pending_quests@ == old(self).pending_quests@.update(i, NpcQuest { quest: *final(q), ..e })),
                None => r is None && final(self).pending_quests@ == old(self).pending_quests@,
            },
            final(self).main_quests == old(self).main_quests && final(self).quest_cache == old(self).quest_cache,
    {
        match find_key(&self.pending_quests, npc_name) {
            Some(i) => {
                proof {
                    lemma_key_get_at(self.pending_quests@, npc_name@, i as int);
                }
                Some(&mut self.pending_quests[i].quest)
            },
            None => {
                proof {
                    lemma_key_get_none(self.pending_quests@, npc_name@);
                }
                None
            },
        }
    }

    /// Gives up the quest taken from an NPC and returns it.
    pub fn remove_quest(&mut self, npc_name: &str) -> (r: Option<Quest>)
        ensures
            final(self).main_quests@ == old(self).main_quests@ && final(self).quest_cache@ == old(self).quest_cache@,
            match key_get(old(self).pending_quests@, npc_name@) {
                Some(e) => r == Some(e.quest) && exists|i: int| key_pos(old(self).pending_quests@, npc_name@, i) && final(self).pending_quests@ == old(self).pending_quests@.remove(i),
                None => r is None && final(self).pending_quests@ == old(self).pending_quests@,
            },
    {
        let ghost p0 = self.pending_quests@;
        match remove_key(&mut self.pending_quests, npc_name) {
            Some(e) => {
                proof {
                    let i = choose|i: int| key_pos(p0, npc_name@, i) && e == p0[i] && self.pending_quests@ == p0.remove(i);
                    lemma_key_get_at(p0, npc_name@, i);
                }
                Some(e.quest)
            },
            None => {
                proof {
                    lemma_key_get_none(p0, npc_name@);
                }
                None
            },
        }
    }

    /// The main line's path holds `/quest_name`.
    pub fn is_main_quest_completed(&self, main_line: &str, quest_name: &str) -> (r: bool)
        ensures
            r == (key_in(self.main_quests@, main_line@) && seq_contains(main_path(self.main_quests@, main_line@), "/"@ + quest_name@)),
    {
        match get_key(&self.main_quests, main_line) {
            Some(p) => {
                let mut pat = string_of("/");
                push_str(&mut pat, quest_name);
                str_contains(p.path.as_str(), pat.as_str())
            },
            None => false,
        }
    }

    /// Appends `/quest_name` to the main line's path.
    pub fn add_main_quest_completion(&mut self, main_line: &str, quest_name: &str)
        ensures
            final(self).pending_quests@ == old(self).pending_quests@ && final(self).quest_cache@ == old(self).quest_cache@,
            main_path(final(self).main_quests@, main_line@) == main_path(old(self).main_quests@, main_line@) + "/"@ + quest_name@,
            key_in(final(self).main_quests@, main_line@),
            forall|l: Seq<char>| l != main_line@ ==> #[trigger] key_get(final(self).main_quests@, l) == key_get(old(self).main_quests@, l),
    {
        let mut path = match get_key(&self.main_quests, main_line) {
            Some(p) => p.path.clone(),
            None => String::new(),
        };
        push_str(&mut path, "/");
        push_str(&mut path, quest_name);
        let entry = MainLinePath { main_line: string_of(main_line), path };
        let ghost ge = entry;
        put_key(&mut self.main_quests, entry);
        proof {
            assert(key_get(self.main_quests@, main_line@) == Some(ge));
        }
    }

    /// Removes every `/quest_name` from the main line's path.
    pub fn remove_main_quest_entry(&mut self, main_line: &str, quest_name: &str)
        ensures
            final(self).pending_quests@ == old(self).pending_quests@ && final(self).quest_cache@ == old(self).quest_cache@,
            key_in(old(self).main_quests@, main_line@) ==> main_path(final(self).main_quests@, main_line@) == replace_all(main_path(old(self).main_quests@, main_line@), "/"@ + quest_name@, ""@),
            !key_in(old(self).main_quests@, main_line@) ==> final(self).main_quests@ == old(self).main_quests@,
            forall|l: Seq<char>| l != main_line@ ==> #[trigger] key_get(final(self).main_quests@, l) == key_get(old(self).main_quests@, l),
    {
        match get_key(&self.main_quests, main_line) {
            Some(p) => {
                let mut pat = string_of("/");
                push_str(&mut pat, quest_name);
                proof {
                    reveal_strlit("/");
                }
                assert(pat@.len() > 0);
                let path = replace_text(p.path.as_str(), pat.as_str(), "");
                let entry = MainLinePath { main_line: string_of(main_line), path };
                put_key(&mut self.main_quests, entry);
            },
            None => {},
        }
    }
}

/// A quest as the quest table gives it.
#[derive(Debug)]
pub struct QuestTemplate {
    pub npc_name: String,
    pub required_level: i32,
    pub quest_type: QuestType,
    pub target_npc: String,
    pub target_object: String,
    pub target_amount: i32,
    pub quest_talk: String,
    pub finish_talk: String,
    pub npc_talk: String,
    pub reward_code: String,
    pub quest_name: String,
    pub base_quest: String,
    pub delete_name: String,
}

/// The quest templates of one NPC.
#[derive(Debug)]
pub struct NpcTemplates {
    pub npc_name: String,
    pub templates: Vec<QuestTemplate>,
}

/// The rewards of one reward code.
#[derive(Debug)]
pub struct RewardList {
    pub code: String,
    pub rewards: Vec<RewardType>,
}

/// The quest templates by NPC and the rewards by code.
#[derive(Debug)]
pub struct QuestDaemonData {
    pub quest_templates: Vec<NpcTemplates>,
    pub rewards: Vec<RewardList>,
}

impl Default for QuestDaemonData {
    fn default() -> (r: Self)
        ensures
            r.quest_templates@.len() == 0 && r.rewards@.len() == 0,
    {
        QuestDaemonData { quest_templates: Vec::new(), rewards: Vec::new() }
    }
}

/// A row of the quest table, as text.
#[derive(Debug)]
pub struct QuestCsvRow {
    pub npc_name: String,
    pub required_level: String,
    pub quest_type: String,
    pub target_npc: String,
    pub target_object: String,
    pub target_amount: String,
    pub quest_talk_part1: String,
    pub quest_talk_part2: String,
    pub finish_talk: String,
    pub npc_talk: String,
    pub reward_code: String,
    pub quest_name: String,
    pub base_quest: String,
    pub delete_name: String,
}

} // verus!
