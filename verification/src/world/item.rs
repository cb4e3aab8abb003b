//! Items: templates as the world data describes them, instances held by
//! players, and a slot-based inventory.
use vstd::prelude::*;
use crate::text::{push_str, push_i64, string_of, int_digits};
use crate::util::Keyed;
use crate::outside::new_uuid;

verus! {

/// An effect an item has while used or worn.
#[derive(Debug)]
pub struct ItemEffect {
    pub effect_type: String,
    pub value: i32,
    pub duration: i32,
}

impl Clone for ItemEffect {
    fn clone(&self) -> (r: Self)
        ensures
            r == *self,
    {
        ItemEffect { effect_type: self.effect_type.clone(), value: self.value, duration: self.duration }
    }
}

/// The kind of an item.
#[derive(Clone, Copy, Debug, PartialEq, Eq, Structural)]
pub enum ItemType {
    Consumable,
    Weapon,
    Armor,
    Accessory,
    Quest,
    Material,
    Other,
    Book,
    Charm,
    Potion,
    Tool,
    Mount,
    Treasure,
}

/// The quality of an item, from common to legendary.
#[derive(Clone, Copy, Debug, PartialEq, Eq, Structural)]
pub enum ItemQuality {
    Common,
    Uncommon,
    Rare,
    Epic,
    Legendary,
}

/// The colour of a quality.
pub open spec fn quality_color(q: ItemQuality) -> Seq<char> {
    match q {
        ItemQuality::Common => "#888888"@,
        ItemQuality::Uncommon => "#1eff00"@,
        ItemQuality::Rare => "#0070dd"@,
        ItemQuality::Epic => "#a335ee"@,
        ItemQuality::Legendary => "#ff8000"@,
    }
}

/// The name of a quality.
pub open spec fn quality_name(q: ItemQuality) -> Seq<char> {
    match q {
        ItemQuality::Common => "普通"@,
        ItemQuality::Uncommon => "优秀"@,
        ItemQuality::Rare => "稀有"@,
        ItemQuality::Epic => "史诗"@,
        ItemQuality::Legendary => "传说"@,
    }
}

impl ItemQuality {
    /// The colour of the quality.
    pub fn color_code(&self) -> (r: &'static str)
        ensures
            r@ == quality_color(*self),
    {
        match self {
            ItemQuality::Common => "#888888",
            ItemQuality::Uncommon => "#1eff00",
            ItemQuality::Rare => "#0070dd",
            ItemQuality::Epic => "#a335ee",
            ItemQuality::Legendary => "#ff8000",
        }
    }

    /// The name of the quality.
    pub fn chinese_name(&self) -> (r: &'static str)
        ensures
            r@ == quality_name(*self),
    {
        match self {
            ItemQuality::Common => "普通",
            ItemQuality::Uncommon => "优秀",
            ItemQuality::Rare => "稀有",
            ItemQuality::Epic => "史诗",
            ItemQuality::Legendary => "传说",
        }
    }
}

/// The bonuses an item gives.
#[derive(Clone, Copy, Debug, PartialEq, Eq, Structural)]
pub struct ItemStats {
    pub attack: i32,
    pub defense: i32,
    pub hp_bonus: i32,
    pub mp_bonus: i32,
    pub crit_rate: i32,
    pub crit_damage: i32,
}

impl Default for ItemStats {
    fn default() -> (r: Self)
        ensures
            r == (ItemStats { attack: 0, defense: 0, hp_bonus: 0, mp_bonus: 0, crit_rate: 0, crit_damage: 0 }),
    {
        ItemStats { attack: 0, defense: 0, hp_bonus: 0, mp_bonus: 0, crit_rate: 0, crit_damage: 0 }
    }
}

/// An item as the world data describes it.
#[derive(Debug)]
pub struct ItemTemplate {
    pub id: String,
    pub name: String,
    pub item_type: ItemType,
    pub subtype: String,
    pub description: String,
    pub quality: ItemQuality,
    pub level: i32,
    pub stats: ItemStats,
    pub price: i32,
    pub stackable: bool,
    pub effects: Vec<ItemEffect>,
}

impl Keyed for ItemTemplate {
    open spec fn key_view(&self) -> Seq<char> {
        self.id@
    }

    fn key(&self) -> (r: &String) {
        &self.id
    }
}

impl Default for ItemTemplate {
    fn default() -> (r: Self)
        ensures
            r.id@.len() == 0 && r.name@.len() == 0 && r.subtype@.len() == 0 && r.description@.len() == 0,
            r.item_type == ItemType::Other,
            r.quality == ItemQuality::Common,
            r.level == 1,
            r.stats == ItemStats::default_spec(),
            r.price == 0,
            !r.stackable,
            r.effects@.len() == 0,
    {
        ItemTemplate {
            id: String::new(),
            name: String::new(),
            item_type: ItemType::Other,
            subtype: String::new(),
            description: String::new(),
            quality: ItemQuality::Common,
            level: 1,
            stats: ItemStats::default(),
            price: 0,
            stackable: false,
            effects: Vec::new(),
        }
    }
}

impl ItemStats {
    /// No bonus at all.
    pub open spec fn default_spec() -> ItemStats {
        ItemStats { attack: 0, defense: 0, hp_bonus: 0, mp_bonus: 0, crit_rate: 0, crit_damage: 0 }
    }
}

/// A held item: a template, a count and an enhancement.
#[derive(Debug)]
pub struct ItemInstance {
    pub id: String,
    pub template_id: String,
    pub count: i32,
    pub enhance_level: i32,
    pub custom_stats: Option<ItemStats>,
}

impl Clone for ItemInstance {
    fn clone(&self) -> (r: Self)
        ensures
            r == *self,
    {
        ItemInstance {
            id: self.id.clone(),
            template_id: self.template_id.clone(),
            count: self.count,
            enhance_level: self.enhance_level,
            custom_stats: self.custom_stats,
        }
    }
}

/// The bonuses of a template worth listing, each as `name+value`.
pub open spec fn stat_parts(s: ItemStats) -> Seq<Seq<char>> {
    let a = if s.attack > 0 { seq!["攻击+"@ + int_digits(s.attack as int)] } else { Seq::empty() };
    let d = if s.defense > 0 { seq!["防御+"@ + int_digits(s.defense as int)] } else { Seq::empty() };
    let h = if s.hp_bonus > 0 { seq!["HP+"@ + int_digits(s.hp_bonus as int)] } else { Seq::empty() };
    let m = if s.mp_bonus > 0 { seq!["MP+"@ + int_digits(s.mp_bonus as int)] } else { Seq::empty() };
    a + d + h + m
}

/// Texts joined with single spaces.
pub open spec fn join_spaced(parts: Seq<Seq<char>>) -> Seq<char>
    decreases parts.len(),
{
    if parts.len() == 0 {
        Seq::empty()
    } else if parts.len() == 1 {
        parts[0]
    } else {
        join_spaced(parts.drop_last()) + " "@ + parts.last()
    }
}

fn push_part(out: &mut String, parts: Ghost<Seq<Seq<char>>>, any: bool, label: &str, v: i32) -> (r: (bool, Ghost<Seq<Seq<char>>>))
    requires
        old(out)@ == join_spaced(parts@),
        any == (parts@.len() > 0),
    ensures
        v > 0 ==> r.1@ == parts@.push(label@ + int_digits(v as int)),
        v <= 0 ==> r.1@ == parts@,
        r.0 == (r.1@.len() > 0),
        final(out)@ == join_spaced(r.1@),
{
    if v > 0 {
        if any {
            push_str(out, " ");
        }
        push_str(out, label);
        push_i64(out, v as i64);
        let ghost np = parts@.push(label@ + int_digits(v as int));
        proof {
            assert(np.drop_last() =~= parts@);
            assert(out@ =~= join_spaced(np));
        }
        (true, Ghost(np))
    } else {
        (any, parts)
    }
}

impl ItemTemplate {
    /// An instance of `count` items with a fresh id: the template's id,
    /// `_` and a random identifier.
    pub fn create_instance(&self, count: i32) -> (r: ItemInstance)
        ensures
            exists|u: Seq<char>| r.id@ == self.id@ + "_"@ + u,
            r.template_id@ == self.id@,
            r.count == count,
            r.enhance_level == 0,
            r.custom_stats is None,
    {
        let u = new_uuid();
        let mut id = self.id.clone();
        push_str(&mut id, "_");
        push_str(&mut id, u.as_str());
        ItemInstance { id, template_id: self.id.clone(), count, enhance_level: 0, custom_stats: None }
    }

    /// `[quality]name - description`.
    pub fn format(&self) -> (r: String)
        ensures
            r@ == "["@ + quality_name(self.quality) + "]"@ + self.name@ + " - "@ + self.description@,
    {
        let mut s = string_of("[");
        push_str(&mut s, self.quality.chinese_name());
        push_str(&mut s, "]");
        push_str(&mut s, self.name.as_str());
        push_str(&mut s, " - ");
        push_str(&mut s, self.description.as_str());
        s
    }

    /// The positive attack, defense, HP and MP bonuses, space separated.
    pub fn format_stats(&self) -> (r: String)
        ensures
            r@ == join_spaced(stat_parts(self.stats)),
    {
        let mut s = String::new();
        let p0: Ghost<Seq<Seq<char>>> = Ghost(Seq::empty());
        let (a1, p1) = push_part(&mut s, p0, false, "攻击+", self.stats.attack);
        let (a2, p2) = push_part(&mut s, p1, a1, "防御+", self.stats.defense);
        let (a3, p3) = push_part(&mut s, p2, a2, "HP+", self.stats.hp_bonus);
        let (a4, p4) = push_part(&mut s, p3, a3, "MP+", self.stats.mp_bonus);
        proof {
            assert(p4@ =~= stat_parts(self.stats));
        }
        s
    }
}

impl ItemInstance {
    /// The template's name, with ` xN` for a stack of more than one.
    pub fn display_name(&self, template: &ItemTemplate) -> (r: String)
        ensures
            r@ == if template.stackable && self.count > 1 {
                template.name@ + " x"@ + int_digits(self.count as int)
            } else {
                template.name@
            },
    {
        if template.stackable && self.count > 1 {
            let mut s = template.name.clone();
            push_str(&mut s, " x");
            push_i64(&mut s, self.count as i64);
            s
        } else {
            template.name.clone()
        }
    }

    /// Same template and enhancement.
    pub fn can_stack(&self, other: &ItemInstance) -> (r: bool)
        ensures
            r == (self.template_id@ == other.template_id@ && self.enhance_level == other.enhance_level),
    {
        crate::text::str_eq(self.template_id.as_str(), other.template_id.as_str()) && self.enhance_level == other.enhance_level
    }

    /// Adds `amount` to the count.
    pub fn add_count(&mut self, amount: i32)
        requires
            i32::MIN <= old(self).count + amount <= i32::MAX,
        ensures
            *final(self) == (ItemInstance { count: (old(self).count + amount) as i32, ..*old(self) }),
    {
        self.count = self.count + amount;
    }

    /// Takes `amount` from the count when there are that many.
    pub fn reduce_count(&mut self, amount: i32) -> (r: bool)
        requires
            old(self).count >= amount ==> old(self).count - amount <= i32::MAX,
        ensures
            r == (old(self).count >= amount),
            r ==> *final(self) == (ItemInstance { count: (old(self).count - amount) as i32, ..*old(self) }),
            !r ==> *final(self) == *old(self),
    {
        if self.count >= amount {
            self.count = self.count - amount;
            true
        } else {
            false
        }
    }
}

/// An item in an inventory slot.
#[derive(Debug)]
pub struct InventoryItem {
    pub item: ItemInstance,
    pub slot: Option<i32>,
}

impl Clone for InventoryItem {
    fn clone(&self) -> (r: Self)
        ensures
            r == *self,
    {
        InventoryItem { item: self.item.clone(), slot: self.slot }
    }
}

/// A bag of items with a capacity.
#[derive(Debug)]
pub struct Inventory {
    pub items: Vec<InventoryItem>,
    pub capacity: i32,
}

impl Default for Inventory {
    fn default() -> (r: Self)
        ensures
            r.items@.len() == 0 && r.capacity == 0,
    {
        Inventory { items: Vec::new(), capacity: 0 }
    }
}

/// The first position from `i` on of an item of template `tid`.
pub open spec fn first_of_from(s: Seq<InventoryItem>, tid: Seq<char>, i: int) -> Option<int>
    decreases s.len() - i,
{
    if i >= s.len() || i < 0 {
        None
    } else if s[i].item.template_id@ == tid {
        Some(i)
    } else {
        first_of_from(s, tid, i + 1)
    }
}

/// Takes up to `rem` items of template `tid` from the items in order: an
/// item with enough covers the rest and ends the walk, a smaller one is
/// emptied. Returns the items and what could not be taken.
pub open spec fn drain(s: Seq<InventoryItem>, tid: Seq<char>, rem: int) -> (Seq<InventoryItem>, int)
    decreases s.len(),
{
    if s.len() == 0 {
        (s, rem)
    } else {
        let x = s[0];
        if x.item.template_id@ == tid {
            if x.item.count >= rem {
                (seq![InventoryItem { item: ItemInstance { count: (x.item.count - rem) as i32, ..x.item }, ..x }] + s.skip(1), 0)
            } else {
                let (rest, r2) = drain(s.skip(1), tid, rem - x.item.count);
                (seq![InventoryItem { item: ItemInstance { count: 0, ..x.item }, ..x }] + rest, r2)
            }
        } else {
            let (rest, r2) = drain(s.skip(1), tid, rem);
            (seq![x] + rest, r2)
        }
    }
}

/// When `drain` cannot take all it was asked for, every item of the
/// template it walked past is left empty.
proof fn lemma_failed_drain_empties(s: Seq<InventoryItem>, tid: Seq<char>, rem: int)
    ensures
        drain(s, tid, rem).1 != 0 ==> forall|i: int| 0 <= i < drain(s, tid, rem).0.len()
            && (#[trigger] drain(s, tid, rem).0[i]).item.template_id@ == tid ==> drain(s, tid, rem).0[i].item.count == 0,
    decreases s.len(),
{
    if s.len() > 0 {
        let x = s[0];
        if x.item.template_id@ == tid {
            if x.item.count < rem {
                lemma_failed_drain_empties(s.skip(1), tid, rem - x.item.count);
                let (rest, r2) = drain(s.skip(1), tid, rem - x.item.count);
                let out = seq![InventoryItem { item: ItemInstance { count: 0, ..x.item }, ..x }] + rest;
                assert forall|i: int| 0 < i < out.len() implies out[i] == rest[i - 1] by {}
            }
        } else {
            lemma_failed_drain_empties(s.skip(1), tid, rem);
            let (rest, r2) = drain(s.skip(1), tid, rem);
            let out = seq![x] + rest;
            assert forall|i: int| 0 < i < out.len() implies out[i] == rest[i - 1] by {}
        }
    }
}

/// The items left after taking `count` of template `tid` from `items`
/// (see `Inventory::remove_item`): the drained items that are not empty.
pub open spec fn left_after_removal(items: Seq<InventoryItem>, tid: Seq<char>, count: int) -> Seq<InventoryItem> {
    drain(items, tid, count).0.filter(|x: InventoryItem| x.item.count > 0)
}

/// A removal that cannot take all it was asked for leaves no item of the
/// template behind (see `Inventory::remove_item`): each was used up and
/// dropped.
pub proof fn lemma_failed_removal_leaves_none(items: Seq<InventoryItem>, tid: Seq<char>, count: int)
    requires
        drain(items, tid, count).1 != 0,
    ensures
        forall|i: int| 0 <= i < left_after_removal(items, tid, count).len()
            ==> (#[trigger] left_after_removal(items, tid, count)[i]).item.template_id@ != tid,
{
    let d = drain(items, tid, count).0;
    let pred = |x: InventoryItem| x.item.count > 0;
    let f = d.filter(pred);
    lemma_failed_drain_empties(items, tid, count);
    d.filter_lemma(pred);
    assert forall|i: int| 0 <= i < f.len() implies (#[trigger] f[i]).item.template_id@ != tid by {
        assert(f.contains(f[i]));
        d.lemma_filter_contains_rev(pred, f[i]);
        let j = choose|j: int| 0 <= j < d.len() && d[j] == f[i];
        assert(pred(f[i]));
    }
    assert(f == left_after_removal(items, tid, count));
}

/// The count of `tid` in an item followed by others.
proof fn lemma_count_of_cons(x: InventoryItem, rest: Seq<InventoryItem>, tid: Seq<char>)
    ensures
        count_of(seq![x] + rest, tid) == (if x.item.template_id@ == tid { x.item.count as int } else { 0 })
            + count_of(rest, tid),
    decreases rest.len(),
{
    let s = seq![x] + rest;
    assert(s.len() > 0);
    if rest.len() == 0 {
        assert(s.drop_last() =~= Seq::<InventoryItem>::empty());
        assert(s.last() == x);
        assert(count_of(Seq::<InventoryItem>::empty(), tid) == 0);
        assert(count_of(s, tid) == count_of(s.drop_last(), tid)
            + if s.last().item.template_id@ == tid { s.last().item.count as int } else { 0 });
    } else {
        lemma_count_of_cons(x, rest.drop_last(), tid);
        assert(s.drop_last() =~= seq![x] + rest.drop_last());
        assert(s.last() == rest.last());
        assert(count_of(s, tid) == count_of(s.drop_last(), tid)
            + if s.last().item.template_id@ == tid { s.last().item.count as int } else { 0 });
        assert(count_of(rest, tid) == count_of(rest.drop_last(), tid)
            + if rest.last().item.template_id@ == tid { rest.last().item.count as int } else { 0 });
    }
}

/// What `drain` does to the counts, where no step leaves `i32`: the count
/// of `tid` drops by what was asked less what could not be taken; when
/// what was asked is not negative, neither is what could not be taken, nor
/// does any count turn negative; the counts of other templates stay.
proof fn lemma_drain_counts(s: Seq<InventoryItem>, tid: Seq<char>, rem: int, u: Seq<char>)
    requires
        drain_fits(s, tid, rem),
    ensures
        count_of(drain(s, tid, rem).0, tid) == count_of(s, tid) - rem + drain(s, tid, rem).1,
        u != tid ==> count_of(drain(s, tid, rem).0, u) == count_of(s, u),
        rem >= 0 ==> 0 <= drain(s, tid, rem).1,
        rem >= 0 && (forall|i: int| 0 <= i < s.len() ==> (#[trigger] s[i]).item.count >= 0) ==>
            forall|i: int| 0 <= i < drain(s, tid, rem).0.len() ==> (#[trigger] drain(s, tid, rem).0[i]).item.count >= 0,
    decreases s.len(),
{
    if s.len() > 0 {
        let x = s[0];
        let t = s.skip(1);
        assert(s =~= seq![x] + t);
        lemma_count_of_cons(x, t, tid);
        lemma_count_of_cons(x, t, u);
        if x.item.template_id@ == tid {
            if x.item.count >= rem {
                let y = InventoryItem { item: ItemInstance { count: (x.item.count - rem) as i32, ..x.item }, ..x };
                lemma_count_of_cons(y, t, tid);
                lemma_count_of_cons(y, t, u);
                let d = seq![y] + t;
                assert(drain(s, tid, rem) == (d, 0int));
                if rem >= 0 && (forall|i: int| 0 <= i < s.len() ==> (#[trigger] s[i]).item.count >= 0) {
                    assert forall|i: int| 0 <= i < d.len() implies (#[trigger] d[i]).item.count >= 0 by {
                        if i > 0 { assert(d[i] == s[i]); }
                    }
                }
            } else {
                lemma_drain_counts(t, tid, rem - x.item.count, u);
                let (rest, r2) = drain(t, tid, rem - x.item.count);
                let y = InventoryItem { item: ItemInstance { count: 0, ..x.item }, ..x };
                lemma_count_of_cons(y, rest, tid);
                lemma_count_of_cons(y, rest, u);
                let d = seq![y] + rest;
                assert(drain(s, tid, rem) == (d, r2));
                if rem >= 0 && (forall|i: int| 0 <= i < s.len() ==> (#[trigger] s[i]).item.count >= 0) {
                    assert forall|i: int| 0 <= i < t.len() implies (#[trigger] t[i]).item.count >= 0 by {
                        assert(t[i] == s[i + 1]);
                    }
                    assert forall|i: int| 0 <= i < d.len() implies (#[trigger] d[i]).item.count >= 0 by {
                        if i > 0 { assert(d[i] == rest[i - 1]); }
                    }
                }
            }
        } else {
            lemma_drain_counts(t, tid, rem, u);
            let (rest, r2) = drain(t, tid, rem);
            lemma_count_of_cons(x, rest, tid);
            lemma_count_of_cons(x, rest, u);
            let d = seq![x] + rest;
            assert(drain(s, tid, rem) == (d, r2));
            if rem >= 0 && (forall|i: int| 0 <= i < s.len() ==> (#[trigger] s[i]).item.count >= 0) {
                assert forall|i: int| 0 <= i < t.len() implies (#[trigger] t[i]).item.count >= 0 by {
                    assert(t[i] == s[i + 1]);
                }
                assert forall|i: int| 0 <= i < d.len() implies (#[trigger] d[i]).item.count >= 0 by {
                    if i > 0 { assert(d[i] == rest[i - 1]); }
                }
            }
        }
    }
}

/// Counts that are not negative add up to a total that is not negative, and
/// to 0 where every item of the template is empty.
proof fn lemma_count_of_bounds(s: Seq<InventoryItem>, tid: Seq<char>)
    ensures
        (forall|i: int| 0 <= i < s.len() ==> (#[trigger] s[i]).item.count >= 0) ==> count_of(s, tid) >= 0,
        (forall|i: int| 0 <= i < s.len() && (#[trigger] s[i]).item.template_id@ == tid ==> s[i].item.count == 0)
            ==> count_of(s, tid) == 0,
    decreases s.len(),
{
    if s.len() > 0 {
        let p = s.drop_last();
        lemma_count_of_bounds(p, tid);
        assert forall|i: int| 0 <= i < p.len() implies #[trigger] p[i] == s[i] by {}
    }
}

/// Dropping the empty items of items whose counts are not negative keeps
/// every template's count.
proof fn lemma_count_of_kept(d: Seq<InventoryItem>, u: Seq<char>)
    requires
        forall|i: int| 0 <= i < d.len() ==> (#[trigger] d[i]).item.count >= 0,
    ensures
        count_of(d.filter(|x: InventoryItem| x.item.count > 0), u) == count_of(d, u),
    decreases d.len(),
{
    let pred = |x: InventoryItem| x.item.count > 0;
    if d.len() == 0 {
        reveal(Seq::filter);
        assert(d.filter(pred) =~= d);
    } else {
        let p = d.drop_last();
        let x = d.last();
        assert forall|i: int| 0 <= i < p.len() implies (#[trigger] p[i]).item.count >= 0 by {
            assert(p[i] == d[i]);
        }
        lemma_count_of_kept(p, u);
        p.lemma_filter_push(x, pred);
        assert(p.push(x) =~= d);
        let fp = p.filter(pred);
        if pred(x) {
            assert(fp.push(x).drop_last() =~= fp);
        }
    }
}

/// Taking `count` of template `tid` (see `Inventory::remove_item`) from
/// items that are all there (each count above 0), where no step leaves
/// `i32`: it succeeds exactly when the template's count reaches `count`,
/// and then that count drops by `count`; otherwise `count` less that count
/// is what is missing, and none of the template is left. The counts of
/// other templates stay either way.
pub proof fn lemma_removal_counts(items: Seq<InventoryItem>, tid: Seq<char>, count: int, u: Seq<char>)
    requires
        count >= 0,
        drain_fits(items, tid, count),
        forall|i: int| 0 <= i < items.len() ==> (#[trigger] items[i]).item.count > 0,
    ensures
        (drain(items, tid, count).1 == 0) == (count_of(items, tid) >= count),
        drain(items, tid, count).1 == 0 ==> count_of(left_after_removal(items, tid, count), tid) == count_of(items, tid) - count,
        drain(items, tid, count).1 != 0 ==> count_of(left_after_removal(items, tid, count), tid) == 0
            && drain(items, tid, count).1 == count - count_of(items, tid),
        u != tid ==> count_of(left_after_removal(items, tid, count), u) == count_of(items, u),
{
    let d = drain(items, tid, count).0;
    lemma_drain_counts(items, tid, count, u);
    assert forall|i: int| 0 <= i < items.len() implies (#[trigger] items[i]).item.count >= 0 by {}
    assert(forall|i: int| 0 <= i < d.len() ==> (#[trigger] d[i]).item.count >= 0);
    lemma_count_of_kept(d, tid);
    lemma_count_of_kept(d, u);
    lemma_count_of_bounds(d, tid);
    lemma_failed_drain_empties(items, tid, count);
}

/// Every step of `drain` stays within `i32`.
pub open spec fn drain_fits(s: Seq<InventoryItem>, tid: Seq<char>, rem: int) -> bool
    decreases s.len(),
{
    if s.len() == 0 {
        true
    } else {
        let x = s[0];
        if x.item.template_id@ == tid {
            if x.item.count >= rem {
                i32::MIN <= x.item.count - rem <= i32::MAX
            } else {
                i32::MIN <= rem - x.item.count <= i32::MAX && drain_fits(s.skip(1), tid, rem - x.item.count)
            }
        } else {
            drain_fits(s.skip(1), tid, rem)
        }
    }
}

/// The total count of the items of template `tid`.
pub open spec fn count_of(s: Seq<InventoryItem>, tid: Seq<char>) -> int
    decreases s.len(),
{
    if s.len() == 0 {
        0
    } else {
        count_of(s.drop_last(), tid) + if s.last().item.template_id@ == tid { s.last().item.count as int } else { 0 }
    }
}

/// The inventory is full: a capacity that is not negative is reached.
pub open spec fn inventory_full(items: Seq<InventoryItem>, capacity: i32) -> bool {
    capacity >= 0 && items.len() >= capacity
}

impl Inventory {
    /// An empty inventory of the given capacity.
    pub fn new(capacity: i32) -> (r: Self)
        ensures
            r.items@.len() == 0 && r.capacity == capacity,
    {
        Inventory { items: Vec::new(), capacity }
    }

    /// Adds `count` items of a template: onto the first stack of the
    /// template when it stacks, else as a new instance. Fails with 背包已满
    /// when the inventory is full.
    pub fn add_item(&mut self, template: &ItemTemplate, count: i32) -> (r: Result<(), String>)
        requires
            template.stackable ==> (first_of_from(old(self).items@, template.id@, 0) matches Some(i) ==> i32::MIN <= old(self).items@[i].item.count + count <= i32::MAX),
        ensures
            final(self).capacity == old(self).capacity,
            inventory_full(old(self).items@, old(self).capacity) ==> (r matches Err(m) && m@ == "背包已满"@) && final(self).items@ == old(self).items@,
            !inventory_full(old(self).items@, old(self).capacity) ==> r is Ok && match (template.stackable, first_of_from(old(self).items@, template.id@, 0)) {
                (true, Some(i)) => final(self).items@ == old(self).items@.update(i, InventoryItem { item: ItemInstance { count: (old(self).items@[i].item.count + count) as i32, ..old(self).items@[i].item }, ..old(self).items@[i] }),
                _ => {
                    &&& final(self).items@.len() == old(self).items@.len() + 1
                    &&& final(self).items@.drop_last() == old(self).items@
                    &&& final(self).items@.last().item.template_id@ == template.id@
                    &&& final(self).items@.last().item.count == count
                    &&& final(self).items@.last().item.enhance_level == 0
                    &&& final(self).items@.last().item.custom_stats is None
                    &&& final(self).items@.last().slot is None
                },
            },
    {
        if self.capacity >= 0 && self.items.len() >= self.capacity as usize {
            return Err(string_of("背包已满"));
        }
        if template.stackable {
            let mut i: usize = 0;
            while i < self.items.len()
                invariant
                    i <= self.items@.len(),
                    self.items@ == old(self).items@,
                    self.capacity == old(self).capacity,
                    !inventory_full(old(self).items@, old(self).capacity),
                    template.stackable,
                    first_of_from(old(self).items@, template.id@, 0) matches Some(k) ==> i32::MIN <= old(self).items@[k].item.count + count <= i32::MAX,
                    first_of_from(self.items@, template.id@, 0) == first_of_from(self.items@, template.id@, i as int),
                decreases self.items.len() - i,
            {
                if crate::text::str_eq(self.items[i].item.template_id.as_str(), template.id.as_str()) {
                    let ghost s0 = self.items@;
                    let it = &mut self.items[i];
                    it.item.add_count(count);
                    proof {
                        assert(self.items@ == s0.update(i as int, self.items@[i as int]));
                    }
                    return Ok(());
                }
                i = i + 1;
            }
        }
        let instance = template.create_instance(count);
        self.items.push(InventoryItem { item: instance, slot: None });
        Ok(())
    }

    /// Takes `count` items of template `template_id` (see `drain`) and drops
    /// the emptied items. Fails with 物品数量不足，还需要N, N the count that
    /// could not be taken; the taking still happens.
    pub fn remove_item(&mut self, template_id: &str, count: i32) -> (r: Result<(), String>)
        requires
            drain_fits(old(self).items@, template_id@, count as int),
        ensures
            final(self).capacity == old(self).capacity,
            final(self).items@ == left_after_removal(old(self).items@, template_id@, count as int),
            drain(old(self).items@, template_id@, count as int).1 == 0 ==> r is Ok,
            drain(old(self).items@, template_id@, count as int).1 != 0 ==> (r matches Err(m) && m@ == "物品数量不足，还需要"@ + int_digits(drain(old(self).items@, template_id@, count as int).1)),
    {
        let ghost s = self.items@;
        let ghost tid = template_id@;
        let mut out: Vec<InventoryItem> = Vec::new();
        let mut remaining = count;
        let mut i: usize = 0;
        let mut done = false;
        assert(s.skip(0) =~= s);
        while i < self.items.len() && !done
            invariant
                i <= s.len(),
                s == self.items@,
                tid == template_id@,
                !done ==> drain(s, tid, count as int) == (out@ + drain(s.skip(i as int), tid, remaining as int).0, drain(s.skip(i as int), tid, remaining as int).1),
                !done ==> drain_fits(s.skip(i as int), tid, remaining as int),
                done ==> drain(s, tid, count as int) == (out@ + s.skip(i as int), 0int),
                done ==> remaining == 0,
            decreases s.len() - i,
        {
            let x = &self.items[i];
            proof {
                assert(s.skip(i as int).skip(1) =~= s.skip(i + 1));
                assert(s.skip(i as int)[0] == s[i as int]);
            }
            if crate::text::str_eq(x.item.template_id.as_str(), template_id) {
                if x.item.count >= remaining {
                    let mut y = x.clone();
                    y.item.count = x.item.count - remaining;
                    out.push(y);
                    remaining = 0;
                    done = true;
                    proof {
                        assert(out@ + s.skip(i + 1) =~= out@.drop_last() + (seq![out@.last()] + s.skip(i as int).skip(1)));
                    }
                } else {
                    let mut y = x.clone();
                    y.item.count = 0;
                    let rest = remaining - x.item.count;
                    out.push(y);
                    remaining = rest;
                    proof {
                        let (d, r2) = drain(s.skip(i + 1), tid, remaining as int);
                        assert(out@ + d =~= out@.drop_last() + (seq![out@.last()] + d));
                    }
                }
            } else {
                out.push(x.clone());
                proof {
                    let (d, r2) = drain(s.skip(i + 1), tid, remaining as int);
                    assert(out@ + d =~= out@.drop_last() + (seq![out@.last()] + d));
                }
            }
            i = i + 1;
        }
        proof {
            if !done {
                assert(s.skip(i as int) =~= Seq::<InventoryItem>::empty());
                assert(out@ + Seq::<InventoryItem>::empty() =~= out@);
            }
        }
        while i < self.items.len()
            invariant
                i <= s.len(),
                s == self.items@,
                drain(s, tid, count as int) == (out@ + s.skip(i as int), remaining as int),
            decreases s.len() - i,
        {
            out.push(self.items[i].clone());
            proof {
                assert(out@ + s.skip(i + 1) =~= out@.drop_last() + s.skip(i as int));
            }
            i = i + 1;
        }
        proof {
            assert(s.skip(i as int) =~= Seq::<InventoryItem>::empty());
            assert(out@ + s.skip(i as int) =~= out@);
        }
        let ghost all = out@;
        let mut kept: Vec<InventoryItem> = Vec::new();
        let mut j: usize = 0;
        while j < out.len()
            invariant
                j <= all.len(),
                all == out@,
                kept@ == all.take(j as int).filter(|x: InventoryItem| x.item.count > 0),
            decreases all.len() - j,
        {
            proof {
                assert(all.take(j + 1) =~= all.take(j as int).push(all[j as int]));
                all.take(j as int).lemma_filter_push(all[j as int], |x: InventoryItem| x.item.count > 0);
            }
            if out[j].item.count > 0 {
                kept.push(out[j].clone());
            }
            j = j + 1;
        }
        assert(all.take(j as int) =~= all);
        self.items = kept;
        if remaining == 0 {
            Ok(())
        } else {
            let mut m = string_of("物品数量不足，还需要");
            push_i64(&mut m, remaining as i64);
            Err(m)
        }
    }

    /// The total count of the items of template `template_id`.
    pub fn get_item_count(&self, template_id: &str) -> (r: i32)
        requires
            forall|n: int| 0 <= n <= self.items@.len() ==> i32::MIN <= #[trigger] count_of(self.items@.take(n), template_id@) <= i32::MAX,
        ensures
            r == count_of(self.items@, template_id@),
    {
        let mut total: i32 = 0;
        let mut i: usize = 0;
        while i < self.items.len()
            invariant
                i <= self.items@.len(),
                total == count_of(self.items@.take(i as int), template_id@),
                forall|n: int| 0 <= n <= self.items@.len() ==> i32::MIN <= #[trigger] count_of(self.items@.take(n), template_id@) <= i32::MAX,
            decreases self.items.len() - i,
        {
            proof {
                assert(self.items@.take(i + 1).drop_last() =~= self.items@.take(i as int));
                assert(self.items@.take(i + 1).last() == self.items@[i as int]);
                let c = count_of(self.items@.take(i + 1), template_id@);
            }
            if crate::text::str_eq(self.items[i].item.template_id.as_str(), template_id) {
                total = total + self.items[i].item.count;
            }
            i = i + 1;
        }
        assert(self.items@.take(i as int) =~= self.items@);
        total
    }

    /// At least `count` items of template `template_id`.
    pub fn has_item(&self, template_id: &str, count: i32) -> (r: bool)
        requires
            forall|n: int| 0 <= n <= self.items@.len() ==> i32::MIN <= #[trigger] count_of(self.items@.take(n), template_id@) <= i32::MAX,
        ensures
            r == (count_of(self.items@, template_id@) >= count),
    {
        self.get_item_count(template_id) >= count
    }
}

} // verus!
