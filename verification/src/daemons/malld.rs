//! The mall: goods with prices, discounts, stock and daily limits, the
//! purchases players make, and the record of purchases.
use vstd::prelude::*;
use crate::errors::{MudError, runtime_error, not_found};
use crate::text::{push_str, push_u64, push_i64, push_char, string_of, nat_digits, int_digits, str_eq};
use crate::util::{Keyed, key_pos, key_get, key_in, keys_unique, find_key, get_key, put_key,
    lemma_key_get_at, lemma_key_get_none, lemma_keyed_update, lemma_key_in_get};
use crate::outside::{current_timestamp, random_ratio, random_usize};

verus! {

/// The kind of a good.
#[derive(Clone, Copy, Debug, PartialEq, Eq, Structural)]
pub enum MallItemType {
    Consumable,
    Equipment,
    Material,
    Pet,
    GiftPack,
    Special,
}

/// The currency a good is paid in.
#[derive(Clone, Copy, Debug, PartialEq, Eq, Structural)]
pub enum CurrencyType {
    Gold,
    Diamond,
    BoundDiamond,
    Token,
    VIPPoints,
}

/// A good of the mall. The discount is a percentage off, 0 to 100; a stock
/// of -1 means no limit.
#[derive(Debug)]
pub struct MallItem {
    pub id: String,
    pub name: String,
    pub description: String,
    pub item_type: MallItemType,
    pub original_price: u64,
    pub current_price: u64,
    pub currency: CurrencyType,
    pub discount: i32,
    pub stock: i32,
    pub daily_limit: Option<i32>,
    pub vip_requirement: i32,
    pub level_requirement: i32,
    pub available: bool,
    pub sort_order: i32,
    pub tags: Vec<String>,
    pub icon: String,
}

impl Keyed for MallItem {
    open spec fn key_view(&self) -> Seq<char> {
        self.id@
    }

    fn key(&self) -> (r: &String) {
        &self.id
    }
}

/// The price after the discount, rounded down.
pub open spec fn actual_price(m: MallItem) -> int {
    if m.discount > 0 { m.current_price * (100 - m.discount) / 100 } else { m.current_price as int }
}

/// The name of a currency.
pub open spec fn currency_name(c: CurrencyType) -> Seq<char> {
    match c {
        CurrencyType::Gold => "金币"@,
        CurrencyType::Diamond => "钻石"@,
        CurrencyType::BoundDiamond => "绑定钻石"@,
        CurrencyType::Token => "代币"@,
        CurrencyType::VIPPoints => "VIP积分"@,
    }
}

/// The name of a kind of good.
pub open spec fn mall_type_name(t: MallItemType) -> Seq<char> {
    match t {
        MallItemType::Consumable => "消耗品"@,
        MallItemType::Equipment => "装备"@,
        MallItemType::Material => "材料"@,
        MallItemType::Pet => "宠物"@,
        MallItemType::GiftPack => "礼包"@,
        MallItemType::Special => "特殊"@,
    }
}

/// A price is representable: the discount is at most 100 percent and the
/// discounted product fits.
pub open spec fn price_ok(m: MallItem) -> bool {
    m.discount <= 100 && m.current_price * 100 <= u64::MAX
}

/// The detail view of a good.
pub open spec fn mall_item_text(m: MallItem) -> Seq<char> {
    "§H["@ + m.icon@ + "]§N "@ + m.name@ + "\n类型: "@ + mall_type_name(m.item_type) + " | 价格: "@
        + nat_digits(actual_price(m) as nat) + " "@ + currency_name(m.currency)
        + (if m.discount > 0 { " §R("@ + int_digits(m.discount as int) + "折)§N"@ } else { Seq::empty() })
        + "\n库存: "@ + (if m.stock < 0 { "无限"@ } else { int_digits(m.stock as int) }) + " | 描述: "@ + m.description@
}

fn currency_text(c: CurrencyType) -> (r: &'static str)
    ensures
        r@ == currency_name(c),
{
    match c {
        CurrencyType::Gold => "金币",
        CurrencyType::Diamond => "钻石",
        CurrencyType::BoundDiamond => "绑定钻石",
        CurrencyType::Token => "代币",
        CurrencyType::VIPPoints => "VIP积分",
    }
}

impl MallItem {
    /// The price after the discount, rounded down.
    pub fn get_actual_price(&self) -> (r: u64)
        requires
            price_ok(*self),
        ensures
            r == actual_price(*self),
    {
        if self.discount > 0 {
            let keep = (100 - self.discount) as u64;
            assert(self.current_price * keep <= self.current_price * 100) by (nonlinear_arith)
                requires
                    keep <= 100,
            ;
            (self.current_price * keep) / 100
        } else {
            self.current_price
        }
    }

    /// The good is discounted.
    pub fn has_discount(&self) -> (r: bool)
        ensures
            r == (self.discount > 0),
    {
        self.discount > 0
    }

    /// The good has no stock limit or some stock left.
    pub fn has_stock(&self) -> (r: bool)
        ensures
            r == (self.stock < 0 || self.stock > 0),
    {
        self.stock < 0 || self.stock > 0
    }

    /// The detail view of the good.
    pub fn format_info(&self) -> (r: String)
        requires
            price_ok(*self),
        ensures
            r@ == mall_item_text(*self),
    {
        let kind = match self.item_type {
            MallItemType::Consumable => "消耗品",
            MallItemType::Equipment => "装备",
            MallItemType::Material => "材料",
            MallItemType::Pet => "宠物",
            MallItemType::GiftPack => "礼包",
            MallItemType::Special => "特殊",
        };
        let mut out = string_of("§H[");
        push_str(&mut out, self.icon.as_str());
        push_str(&mut out, "]§N ");
        push_str(&mut out, self.name.as_str());
        push_str(&mut out, "\n类型: ");
        push_str(&mut out, kind);
        push_str(&mut out, " | 价格: ");
        push_u64(&mut out, self.get_actual_price());
        push_str(&mut out, " ");
        push_str(&mut out, currency_text(self.currency));
        let ghost a = out@;
        if self.has_discount() {
            push_str(&mut out, " §R(");
            push_i64(&mut out, self.discount as i64);
            push_str(&mut out, "折)§N");
        }
        let ghost b = out@;
        push_str(&mut out, "\n库存: ");
        if self.stock < 0 {
            push_str(&mut out, "无限");
        } else {
            push_i64(&mut out, self.stock as i64);
        }
        push_str(&mut out, " | 描述: ");
        push_str(&mut out, self.description.as_str());
        out
    }
}

/// A purchase made.
#[derive(Debug)]
pub struct PurchaseRecord {
    pub player_id: String,
    pub item_id: String,
    pub count: i32,
    pub price: u64,
    pub purchased_at: i64,
}

/// How many of a good a player bought today.
#[derive(Debug)]
pub struct DailyCount {
    pub item_id: String,
    pub count: i32,
}

impl Keyed for DailyCount {
    open spec fn key_view(&self) -> Seq<char> {
        self.item_id@
    }

    fn key(&self) -> (r: &String) {
        &self.item_id
    }
}

/// A player's purchases of the day.
#[derive(Debug)]
pub struct PlayerMallData {
    pub daily_purchases: Vec<DailyCount>,
    pub last_update_date: i64,
}

/// How many of a good the player bought today.
pub open spec fn bought_today(p: PlayerMallData, item_id: Seq<char>) -> int {
    match key_get(p.daily_purchases@, item_id) {
        Some(c) => c.count as int,
        None => 0,
    }
}

/// The UNIX day of a time, as Rust's `/` on a non-negative time gives it.
pub open spec fn day_of(t: int) -> int {
    crate::util::trunc_div(t, 86400)
}

impl PlayerMallData {
    /// Nothing bought, never updated.
    pub fn new() -> (r: Self)
        ensures
            r.daily_purchases@.len() == 0 && r.last_update_date == 0,
    {
        PlayerMallData { daily_purchases: Vec::new(), last_update_date: 0 }
    }

    /// The day at `now` is not the day of the last update.
    pub fn needs_reset_at(&self, now: i64) -> (r: bool)
        ensures
            r == (day_of(now as int) != day_of(self.last_update_date as int)),
    {
        now / 86400 != self.last_update_date / 86400
    }

    /// The day now is not the day of the last update.
    pub fn needs_reset(&self) -> (r: bool)
        ensures
            exists|now: int| -200_000_000_000_000 <= now <= 200_000_000_000_000 && r == (#[trigger] day_of(now) != day_of(self.last_update_date as int)),
    {
        self.needs_reset_at(current_timestamp())
    }

    /// Forgets the day's purchases, at time `now`.
    pub fn reset_daily_at(&mut self, now: i64)
        ensures
            reset_daily_done(*old(self), *final(self), now),
    {
        self.daily_purchases = Vec::new();
        self.last_update_date = now;
    }

    /// Forgets the day's purchases now.
    pub fn reset_daily(&mut self)
        ensures
            exists|now: i64| #[trigger] reset_daily_done(*old(self), *final(self), now),
            final(self).daily_purchases@.len() == 0,
    {
        self.reset_daily_at(current_timestamp());
    }

    /// How many of a good the player bought today.
    pub fn get_today_purchased(&self, item_id: &str) -> (r: i32)
        ensures
            r == bought_today(*self, item_id@),
    {
        match get_key(&self.daily_purchases, item_id) {
            Some(c) => c.count,
            None => 0,
        }
    }

    /// Counts `count` more of a good bought today.
    pub fn add_purchase(&mut self, item_id: &str, count: i32)
        requires
            keys_unique(old(self).daily_purchases@),
            i32::MIN <= bought_today(*old(self), item_id@) + count <= i32::MAX,
        ensures
            keys_unique(final(self).daily_purchases@),
            final(self).last_update_date == old(self).last_update_date,
            bought_today(*final(self), item_id@) == bought_today(*old(self), item_id@) + count,
            forall|k: Seq<char>| k != item_id@ ==> #[trigger] bought_today(*final(self), k) == bought_today(*old(self), k),
    {
        let before = self.get_today_purchased(item_id);
        let ghost d0 = self.daily_purchases@;
        put_key(&mut self.daily_purchases, DailyCount { item_id: string_of(item_id), count: before + count });
        proof {
            assert forall|k: Seq<char>| k != item_id@ implies #[trigger] bought_today(*self, k) == bought_today(*old(self), k) by {
                assert(key_get(self.daily_purchases@, k) == key_get(d0, k));
            }
        }
    }
}

impl Default for PlayerMallData {
    fn default() -> (r: Self)
        ensures
            r.daily_purchases@.len() == 0 && r.last_update_date == 0,
    {
        Self::new()
    }
}

/// What a purchase bought and cost.
#[derive(Debug)]
pub struct PurchaseResult {
    pub item_id: String,
    pub item_name: String,
    pub count: i32,
    pub cost: u64,
    pub currency: CurrencyType,
}

/// A player's mall data.
#[derive(Debug)]
pub struct PlayerMallEntry {
    pub player_id: String,
    pub data: PlayerMallData,
}

impl Keyed for PlayerMallEntry {
    open spec fn key_view(&self) -> Seq<char> {
        self.player_id@
    }

    fn key(&self) -> (r: &String) {
        &self.player_id
    }
}

/// The mall: goods by id, players' daily purchases, and the purchases made.
#[derive(Debug)]
pub struct MallDaemon {
    pub items: Vec<MallItem>,
    pub player_data: Vec<PlayerMallEntry>,
    pub purchase_records: Vec<PurchaseRecord>,
}

/// The good with the id.
pub open spec fn mall_item(d: MallDaemon, id: Seq<char>) -> Option<MallItem> {
    key_get(d.items@, id)
}

/// A player's mall data.
pub open spec fn player_mall(d: MallDaemon, p: Seq<char>) -> Option<PlayerMallData> {
    match key_get(d.player_data@, p) {
        Some(e) => Some(e.data),
        None => None,
    }
}

/// The player's day changed since their last update at `now` (a player
/// without data counts as last updated at time 0).
pub open spec fn reset_due(d: MallDaemon, p: Seq<char>, now: int) -> bool {
    match player_mall(d, p) {
        Some(x) => day_of(now) != day_of(x.last_update_date as int),
        None => day_of(now) != 0,
    }
}

/// How many of the good the player had bought today before a purchase at
/// `now`.
pub open spec fn bought_before(d: MallDaemon, p: Seq<char>, item_id: Seq<char>, now: int) -> int {
    if reset_due(d, p, now) {
        0
    } else {
        match player_mall(d, p) {
            Some(x) => bought_today(x, item_id),
            None => 0,
        }
    }
}

/// The good can be bought by a player of the level and VIP level: it is
/// available, required levels are met and it has stock.
pub open spec fn offered_to(m: MallItem, level: int, vip: int) -> bool {
    m.available && m.level_requirement <= level && m.vip_requirement <= vip && (m.stock < 0 || m.stock > 0)
}

/// The list lines of goods.
pub open spec fn mall_lines(items: Seq<MallItem>) -> Seq<char>
    decreases items.len(),
{
    if items.len() == 0 {
        Seq::empty()
    } else {
        mall_lines(items.drop_last()) + mall_line(items.last())
    }
}

/// The start of a good's list line: icon, name, price and currency.
pub open spec fn mall_line_head(m: MallItem) -> Seq<char> {
    "  "@ + m.icon@ + " "@ + m.name@ + " "@ + nat_digits(actual_price(m) as nat) + " "@ + currency_name(m.currency)
}

/// The discount tag of a good's list line.
pub open spec fn discount_tag(m: MallItem) -> Seq<char> {
    if m.discount > 0 { " §R"@ + int_digits(m.discount as int) + "折§N"@ } else { Seq::empty() }
}

/// The daily limit tag of a good's list line.
pub open spec fn limit_tag(m: MallItem) -> Seq<char> {
    match m.daily_limit {
        Some(l) => " [限购"@ + int_digits(l as int) + "]"@,
        None => Seq::empty(),
    }
}

/// The list line of a good.
pub open spec fn mall_line(m: MallItem) -> Seq<char> {
    mall_line_head(m) + discount_tag(m) + limit_tag(m) + "\n"@
}

#[verifier::rlimit(40)]
fn push_mall_line(out: &mut String, m: &MallItem)
    requires
        price_ok(*m),
    ensures
        final(out)@ == old(out)@ + mall_line(*m),
{
    push_str(out, "  ");
    push_str(out, m.icon.as_str());
    push_str(out, " ");
    push_str(out, m.name.as_str());
    push_str(out, " ");
    push_u64(out, m.get_actual_price());
    push_str(out, " ");
    push_str(out, currency_text(m.currency));
    let ghost a = out@;
    assert(a =~= old(out)@ + mall_line_head(*m));
    if m.has_discount() {
        push_str(out, " §R");
        push_i64(out, m.discount as i64);
        push_str(out, "折§N");
    }
    let ghost b = out@;
    assert(b =~= a + discount_tag(*m));
    match m.daily_limit {
        Some(l) => {
            push_str(out, " [限购");
            push_i64(out, l as i64);
            push_str(out, "]");
        },
        None => {},
    }
    let ghost c = out@;
    assert(c =~= b + limit_tag(*m));
    push_str(out, "\n");
}

/// The records kept by a clean-up with the cutoff.
pub open spec fn recent_records(s: Seq<PurchaseRecord>, cutoff: int) -> Seq<PurchaseRecord>
    decreases s.len(),
{
    if s.len() == 0 {
        Seq::empty()
    } else {
        let rest = recent_records(s.drop_last(), cutoff);
        if s.last().purchased_at > cutoff { rest.push(s.last()) } else { rest }
    }
}

/// The discount a refresh gives: with the one-in-ten chance `hit`, 10, 20,
/// 30 or 50 as `roll` picks, else none.
pub open spec fn refreshed_discount(hit: bool, roll: int) -> int {
    if hit {
        let k = roll % 4;
        if k == 0 { 10 } else if k == 1 { 20 } else if k == 2 { 30 } else { 50 }
    } else {
        0
    }
}

/// The discount a refresh gives for a chance `hit` and a number `roll`.
pub fn discount_for(hit: bool, roll: usize) -> (r: i32)
    ensures
        r == refreshed_discount(hit, roll as int),
{
    if hit {
        let k = roll % 4;
        if k == 0 { 10 } else if k == 1 { 20 } else if k == 2 { 30 } else { 50 }
    } else {
        0
    }
}

/// Good `m` is the one given: available, asking no VIP level, with two
/// tags.
pub open spec fn mall_good(m: MallItem, id: Seq<char>, name: Seq<char>, description: Seq<char>, item_type: MallItemType,
    original_price: u64, current_price: u64, currency: CurrencyType, discount: i32, stock: i32, daily_limit: i32,
    level_requirement: i32, sort_order: i32, tag1: Seq<char>, tag2: Seq<char>, icon: Seq<char>) -> bool {
    &&& m.id@ == id && m.name@ == name && m.description@ == description && m.item_type == item_type
    &&& m.original_price == original_price && m.current_price == current_price && m.currency == currency
    &&& m.discount == discount && m.stock == stock && m.daily_limit == Some(daily_limit)
    &&& m.vip_requirement == 0 && m.level_requirement == level_requirement && m.available && m.sort_order == sort_order
    &&& m.tags@.len() == 2 && m.tags@[0]@ == tag1 && m.tags@[1]@ == tag2 && m.icon@ == icon
}

/// The four goods the mall starts with, in order.
pub open spec fn default_goods(items: Seq<MallItem>) -> bool {
    &&& items.len() == 4
    &&& mall_good(items[0], "mall_hp_potion_small"@, "小生命药水"@, "恢复100点HP"@, MallItemType::Consumable, 100, 100,
        CurrencyType::Gold, 0, -1i32, 100, 1, 1, "消耗品"@, "药水"@, "🧪"@)
    &&& mall_good(items[1], "mall_mp_potion_small"@, "小魔法药水"@, "恢复100点MP"@, MallItemType::Consumable, 100, 100,
        CurrencyType::Gold, 0, -1i32, 100, 1, 2, "消耗品"@, "药水"@, "🧪"@)
    &&& mall_good(items[2], "mall_reinforce_stone"@, "强化石"@, "用于装备强化"@, MallItemType::Material, 1000, 1000,
        CurrencyType::Gold, 0, -1i32, 50, 10, 10, "材料"@, "强化"@, "💎"@)
    &&& mall_good(items[3], "mall_starter_pack"@, "新手礼包"@, "包含大量新手必备物品"@, MallItemType::GiftPack, 1000, 100,
        CurrencyType::Diamond, 90, 1, 1, 1, 100, "礼包"@, "新手"@, "🎁"@)
}

fn make_item(id: &str, name: &str, description: &str, item_type: MallItemType, original_price: u64, current_price: u64,
    currency: CurrencyType, discount: i32, stock: i32, daily_limit: i32, level_requirement: i32, sort_order: i32,
    tag1: &str, tag2: &str, icon: &str) -> (r: MallItem)
    ensures
        mall_good(r, id@, name@, description@, item_type, original_price, current_price, currency, discount, stock,
            daily_limit, level_requirement, sort_order, tag1@, tag2@, icon@),
{
    let mut tags: Vec<String> = Vec::new();
    tags.push(string_of(tag1));
    tags.push(string_of(tag2));
    MallItem {
        id: string_of(id),
        name: string_of(name),
        description: string_of(description),
        item_type,
        original_price,
        current_price,
        currency,
        discount,
        stock,
        daily_limit: Some(daily_limit),
        vip_requirement: 0,
        level_requirement,
        available: true,
        sort_order,
        tags,
        icon: string_of(icon),
    }
}

impl MallDaemon {
    /// One good per id, one record per player, and each player's daily
    /// counts by good.
    pub open spec fn wf(&self) -> bool {
        &&& keys_unique(self.items@)
        &&& keys_unique(self.player_data@)
        &&& forall|i: int| 0 <= i < self.player_data@.len() ==> keys_unique((#[trigger] self.player_data@[i]).data.daily_purchases@)
    }

    /// The mall with its four goods (see `default_goods`): small HP and MP
    /// potions (100 gold, 100 a day), the reinforcing stone (1000 gold, 50 a
    /// day, level 10) and the starter pack (100 diamonds, 90 percent off, one
    /// in stock, one a day), all available to every VIP level.
    pub fn new() -> (r: Self)
        ensures
            r.wf(),
            r.player_data@.len() == 0 && r.purchase_records@.len() == 0,
            default_goods(r.items@),
    {
        let mut d = MallDaemon { items: Vec::new(), player_data: Vec::new(), purchase_records: Vec::new() };
        d.init_default_items();
        d
    }

    fn init_default_items(&mut self)
        requires
            old(self).items@.len() == 0,
            keys_unique(old(self).player_data@),
            forall|i: int| 0 <= i < old(self).player_data@.len() ==> keys_unique((#[trigger] old(self).player_data@[i]).data.daily_purchases@),
        ensures
            final(self).wf(),
            final(self).player_data@ == old(self).player_data@ && final(self).purchase_records@ == old(self).purchase_records@,
            default_goods(final(self).items@),
    {
        self.items.push(make_item("mall_hp_potion_small", "小生命药水", "恢复100点HP", MallItemType::Consumable, 100, 100,
            CurrencyType::Gold, 0, -1i32, 100, 1, 1, "消耗品", "药水", "🧪"));
        self.items.push(make_item("mall_mp_potion_small", "小魔法药水", "恢复100点MP", MallItemType::Consumable, 100, 100,
            CurrencyType::Gold, 0, -1i32, 100, 1, 2, "消耗品", "药水", "🧪"));
        self.items.push(make_item("mall_reinforce_stone", "强化石", "用于装备强化", MallItemType::Material, 1000, 1000,
            CurrencyType::Gold, 0, -1i32, 50, 10, 10, "材料", "强化", "💎"));
        self.items.push(make_item("mall_starter_pack", "新手礼包", "包含大量新手必备物品", MallItemType::GiftPack, 1000, 100,
            CurrencyType::Diamond, 90, 1, 1, 1, 100, "礼包", "新手", "🎁"));
        proof {
            reveal_strlit("mall_hp_potion_small");
            reveal_strlit("mall_mp_potion_small");
            reveal_strlit("mall_reinforce_stone");
            reveal_strlit("mall_starter_pack");
            assert("mall_hp_potion_small"@[5] != "mall_mp_potion_small"@[5]);
            assert("mall_hp_potion_small"@[5] != "mall_reinforce_stone"@[5]);
            assert(self.items@[0].key_view() != self.items@[1].key_view());
            assert(self.items@[0].key_view() != self.items@[2].key_view());
            assert(self.items@[0].key_view() != self.items@[3].key_view());
            assert(self.items@[1].key_view() != self.items@[2].key_view());
            assert(self.items@[1].key_view() != self.items@[3].key_view());
            assert(self.items@[2].key_view() != self.items@[3].key_view());
        }
    }

    /// The good with the id.
    pub fn get_item(&self, item_id: &str) -> (r: Option<&MallItem>)
        ensures
            r matches Some(m) ==> mall_item(*self, item_id@) == Some(*m),
            r is None <==> mall_item(*self, item_id@) is None,
    {
        get_key(&self.items, item_id)
    }

    /// Every good, in the mall's order.
    pub fn get_all_items(&self) -> (r: Vec<&MallItem>)
        ensures
            r@.map_values(|m: &MallItem| *m) == self.items@,
    {
        let mut r: Vec<&MallItem> = Vec::new();
        let mut i: usize = 0;
        while i < self.items.len()
            invariant
                i <= self.items@.len(),
                r@.map_values(|m: &MallItem| *m) == self.items@.take(i as int),
            decreases self.items.len() - i,
        {
            let ghost r0 = r@.map_values(|m: &MallItem| *m);
            r.push(&self.items[i]);
            assert(r@.map_values(|m: &MallItem| *m) =~= r0.push(self.items@[i as int]));
            assert(self.items@.take(i + 1) =~= self.items@.take(i as int).push(self.items@[i as int]));
            i = i + 1;
        }
        assert(self.items@.take(i as int) =~= self.items@);
        r
    }

    /// The available goods of a kind, in the mall's order.
    pub fn get_items_by_type(&self, item_type: MallItemType) -> (r: Vec<&MallItem>)
        ensures
            r@.map_values(|m: &MallItem| *m) == self.items@.filter(|m: MallItem| m.item_type == item_type && m.available),
    {
        let mut r: Vec<&MallItem> = Vec::new();
        let ghost s = self.items@;
        let mut i: usize = 0;
        while i < self.items.len()
            invariant
                s == self.items@,
                i <= s.len(),
                r@.map_values(|m: &MallItem| *m) == s.take(i as int).filter(|m: MallItem| m.item_type == item_type && m.available),
            decreases self.items.len() - i,
        {
            let ghost prev = r@;
            proof {
                assert(s.take(i + 1) =~= s.take(i as int).push(s[i as int]));
                s.take(i as int).lemma_filter_push(s[i as int], |m: MallItem| m.item_type == item_type && m.available);
            }
            if self.items[i].item_type == item_type && self.items[i].available {
                r.push(&self.items[i]);
                assert(r@.map_values(|m: &MallItem| *m) =~= prev.map_values(|m: &MallItem| *m).push(s[i as int]));
            }
            i = i + 1;
        }
        assert(s.take(i as int) =~= s);
        r
    }

    /// The goods a player of the level and VIP level can buy, in the mall's
    /// order.
    pub fn get_available_items(&self, player_level: i32, player_vip: i32) -> (r: Vec<&MallItem>)
        ensures
            r@.map_values(|m: &MallItem| *m) == self.items@.filter(|m: MallItem| offered_to(m, player_level as int, player_vip as int)),
    {
        let mut r: Vec<&MallItem> = Vec::new();
        let ghost s = self.items@;
        let mut i: usize = 0;
        while i < self.items.len()
            invariant
                s == self.items@,
                i <= s.len(),
                r@.map_values(|m: &MallItem| *m) == s.take(i as int).filter(|m: MallItem| offered_to(m, player_level as int, player_vip as int)),
            decreases self.items.len() - i,
        {
            let ghost prev = r@;
            proof {
                assert(s.take(i + 1) =~= s.take(i as int).push(s[i as int]));
                s.take(i as int).lemma_filter_push(s[i as int], |m: MallItem| offered_to(m, player_level as int, player_vip as int));
            }
            let m = &self.items[i];
            if m.available && m.level_requirement <= player_level && m.vip_requirement <= player_vip && m.has_stock() {
                r.push(m);
                assert(r@.map_values(|m: &MallItem| *m) =~= prev.map_values(|m: &MallItem| *m).push(s[i as int]));
            }
            i = i + 1;
        }
        assert(s.take(i as int) =~= s);
        r
    }
}

impl MallDaemon {
    /// The player's data, made if missing; returns its place.
    fn player_entry(&mut self, player_id: &str) -> (r: usize)
        requires
            old(self).wf(),
        ensures
            final(self).wf(),
            final(self).items@ == old(self).items@ && final(self).purchase_records@ == old(self).purchase_records@,
            r < final(self).player_data@.len(),
            final(self).player_data@[r as int].player_id@ == player_id@,
            key_pos(final(self).player_data@, player_id@, r as int),
            player_mall(*old(self), player_id@) matches Some(x) ==> final(self).player_data@ == old(self).player_data@
                && final(self).player_data@[r as int].data == x,
            player_mall(*old(self), player_id@) is None ==> final(self).player_data@ == old(self).player_data@.push(
                final(self).player_data@[r as int]) && final(self).player_data@[r as int].data.daily_purchases@.len() == 0
                && final(self).player_data@[r as int].data.last_update_date == 0,
    {
        let ghost p0 = self.player_data@;
        match find_key(&self.player_data, player_id) {
            Some(j) => {
                proof {
                    lemma_key_get_at(p0, player_id@, j as int);
                }
                j
            },
            None => {
                proof {
                    lemma_key_get_none(p0, player_id@);
                }
                let n = self.player_data.len();
                self.player_data.push(PlayerMallEntry { player_id: string_of(player_id), data: PlayerMallData::new() });
                proof {
                    assert forall|a: int, b: int| 0 <= a < b < self.player_data@.len() implies
                        self.player_data@[a].key_view() != self.player_data@[b].key_view() by {
                        if b == n {
                            assert(p0[a].key_view() != player_id@);
                        }
                    }
                    assert(key_pos(self.player_data@, player_id@, n as int));
                    assert forall|k: int| 0 <= k < self.player_data@.len() implies keys_unique((#[trigger] self.player_data@[k]).data.daily_purchases@) by {
                        if k < n {
                            assert(self.player_data@[k] == p0[k]);
                        } else {
                            assert(self.player_data@[k].data.daily_purchases@.len() == 0);
                        }
                    }
                }
                n
            },
        }
    }

    /// A player of the level and VIP level buys `count` of a good at time
    /// `now`. Fails for an unknown good, a good off sale, a level or VIP
    /// level too low, too little stock, and a daily limit exceeded (the
    /// player's day is renewed first when it changed). On success the
    /// purchase is recorded, the day's count and the stock are updated.
    pub fn purchase_at(&mut self, player_id: &str, player_level: i32, player_vip: i32, item_id: &str, count: i32, now: i64)
        -> (r: Result<PurchaseResult, MudError>)
        requires
            old(self).wf(),
            mall_item(*old(self), item_id@) matches Some(m) ==> {
                &&& price_ok(m)
                &&& actual_price(m) * crate::shop_system::as_u64(count as int) <= u64::MAX
                &&& i32::MIN <= bought_before(*old(self), player_id@, item_id@, now as int) + count <= i32::MAX
                &&& i32::MIN <= m.stock - count <= i32::MAX
            },
        ensures
            purchased(*old(self), *final(self), player_id@, player_level, player_vip, item_id@, count, now, r),
    {
        let i = match find_key(&self.items, item_id) {
            Some(i) => i,
            None => {
                proof {
                    lemma_key_get_none(self.items@, item_id@);
                }
                return Err(not_found("商品不存在"));
            },
        };
        proof {
            lemma_key_get_at(self.items@, item_id@, i as int);
        }
        if !self.items[i].available {
            return Err(runtime_error("商品已下架"));
        }
        if player_level < self.items[i].level_requirement {
            return Err(runtime_error("等级不足"));
        }
        if player_vip < self.items[i].vip_requirement {
            return Err(runtime_error("VIP等级不足"));
        }
        if self.items[i].stock >= 0 && self.items[i].stock < count {
            return Err(runtime_error("库存不足"));
        }
        let daily_limit = self.items[i].daily_limit;
        let actual = self.items[i].get_actual_price();
        let n = crate::shop_system::to_u64(count as i64);
        let total = actual * n;
        let item_name = self.items[i].name.clone();
        let currency = self.items[i].currency;
        let ghost d0 = *self;
        let pj = self.player_entry(player_id);
        let ghost p1 = self.player_data@;
        let mut e = self.player_data.remove(pj);
        let ghost e0 = e;
        if e.data.needs_reset_at(now) {
            e.data.reset_daily_at(now);
        }
        proof {
            lemma_key_get_at(self.player_data@.insert(pj as int, e0), player_id@, pj as int);
            if player_mall(*old(self), player_id@) is None {
                lemma_key_in_get(old(self).player_data@, player_id@);
            }
            assert(keys_unique(e.data.daily_purchases@));
            assert(bought_today(e.data, item_id@) == bought_before(*old(self), player_id@, item_id@, now as int));
        }
        match daily_limit {
            Some(limit) => {
                let purchased = e.data.get_today_purchased(item_id);
                if purchased + count > limit {
                    self.player_data.insert(pj, e);
                    proof {
                        self.lemma_entry_back(p1, pj as int);
                    }
                    let mut msg = string_of("超过每日限购数量(");
                    push_i64(&mut msg, limit as i64);
                    push_str(&mut msg, ")");
                    return Err(MudError::RuntimeError(msg));
                }
                e.data.add_purchase(item_id, count);
            },
            None => {},
        }
        let ghost e1 = e;
        self.player_data.insert(pj, e);
        proof {
            self.lemma_entry_back(p1, pj as int);
            assert(player_mall(*self, player_id@) == Some(e1.data)) by {
                lemma_key_get_at(self.player_data@, player_id@, pj as int);
            }
        }
        self.purchase_records.push(PurchaseRecord { player_id: string_of(player_id), item_id: string_of(item_id), count, price: total, purchased_at: now });
        if self.items[i].stock >= 0 {
            let ghost v0 = self.items@;
            let mut it = self.items.remove(i);
            it.stock = it.stock - count;
            let ghost g1 = it;
            self.items.insert(i, it);
            proof {
                assert(self.items@ =~= v0.update(i as int, g1));
                lemma_keyed_update(v0, i as int, g1);
            }
        }
        assert(self.purchase_records@.drop_last() =~= old(self).purchase_records@);
        Ok(PurchaseResult { item_id: string_of(item_id), item_name, count, cost: total, currency })
    }

    /// Reinserting a player's entry at its place keeps the mall well formed.
    proof fn lemma_entry_back(&self, p0: Seq<PlayerMallEntry>, j: int)
        requires
            keys_unique(p0),
            0 <= j < p0.len(),
            self.player_data@.len() == p0.len(),
            self.player_data@[j].player_id == p0[j].player_id,
            keys_unique(self.player_data@[j].data.daily_purchases@),
            forall|k: int| 0 <= k < p0.len() && k != j ==> self.player_data@[k] == p0[k],
            forall|k: int| 0 <= k < p0.len() ==> keys_unique((#[trigger] p0[k]).data.daily_purchases@),
            keys_unique(self.items@),
        ensures
            self.wf(),
    {
        assert forall|a: int, b: int| 0 <= a < b < self.player_data@.len() implies self.player_data@[a].key_view() != self.player_data@[b].key_view() by {
            assert(p0[a].key_view() != p0[b].key_view());
        }
        assert forall|k: int| 0 <= k < self.player_data@.len() implies keys_unique((#[trigger] self.player_data@[k]).data.daily_purchases@) by {
            if k != j {
                assert(self.player_data@[k] == p0[k]);
            }
        }
    }
}

impl MallDaemon {
    /// A purchase now (see `purchase_at`).
    pub fn purchase(&mut self, player_id: &str, player_level: i32, player_vip: i32, item_id: &str, count: i32) -> (r: Result<PurchaseResult, MudError>)
        requires
            old(self).wf(),
            mall_item(*old(self), item_id@) matches Some(m) ==> {
                &&& price_ok(m)
                &&& actual_price(m) * crate::shop_system::as_u64(count as int) <= u64::MAX
                &&& (player_mall(*old(self), player_id@) matches Some(x) ==> i32::MIN <= bought_today(x, item_id@) + count <= i32::MAX)
                &&& i32::MIN <= m.stock - count <= i32::MAX
            },
        ensures
            exists|now: i64| #[trigger] purchased(*old(self), *final(self), player_id@, player_level, player_vip, item_id@, count, now, r),
            final(self).wf(),
            mall_item(*old(self), item_id@) is None ==> (r matches Err(MudError::NotFound(msg)) && msg@ == "商品不存在"@),
            mall_item(*old(self), item_id@) matches Some(m) ==> {
                &&& !m.available ==> (r matches Err(MudError::RuntimeError(msg)) && msg@ == "商品已下架"@)
                &&& m.available && player_level < m.level_requirement ==> (r matches Err(MudError::RuntimeError(msg)) && msg@ == "等级不足"@)
                &&& m.available && player_level >= m.level_requirement && player_vip < m.vip_requirement
                    ==> (r matches Err(MudError::RuntimeError(msg)) && msg@ == "VIP等级不足"@)
                &&& m.available && player_level >= m.level_requirement && player_vip >= m.vip_requirement && m.stock >= 0 && m.stock < count
                    ==> (r matches Err(MudError::RuntimeError(msg)) && msg@ == "库存不足"@)
            },
            r matches Ok(res) ==> res.item_id@ == item_id@ && res.count == count,
    {
        let now = current_timestamp();
        self.purchase_at(player_id, player_level, player_vip, item_id, count, now)
    }

    /// The list of goods: a heading with their number, then a line each, or
    /// a line saying there are none.
    pub fn format_item_list(&self, items: &[&MallItem]) -> (r: String)
        requires
            forall|j: int| 0 <= j < items@.len() ==> price_ok(*(#[trigger] items@[j])),
        ensures
            r@ == "§H=== 商城商品 ("@ + nat_digits(items@.len()) + "件) ===§N\n"@ + if items@.len() == 0 {
                "暂无可用商品。\n"@
            } else {
                mall_lines(items@.map_values(|m: &MallItem| *m))
            },
    {
        let mut out = string_of("§H=== 商城商品 (");
        push_u64(&mut out, items.len() as u64);
        push_str(&mut out, "件) ===§N\n");
        if items.len() == 0 {
            push_str(&mut out, "暂无可用商品。\n");
        } else {
            let ghost base = out@;
            let ghost s = items@.map_values(|m: &MallItem| *m);
            let mut i: usize = 0;
            while i < items.len()
                invariant
                    i <= items@.len(),
                    s == items@.map_values(|m: &MallItem| *m),
                    forall|j: int| 0 <= j < items@.len() ==> price_ok(*(#[trigger] items@[j])),
                    out@ == base + mall_lines(s.take(i as int)),
                decreases items.len() - i,
            {
                assert(s.take(i + 1).drop_last() =~= s.take(i as int));
                let m = items[i];
                assert(price_ok(*items@[i as int]));
                push_mall_line(&mut out, m);
                i = i + 1;
            }
            assert(s.take(i as int) =~= s);
        }
        out
    }

    /// The player's purchases, in the order they were made.
    pub fn get_purchase_records(&self, player_id: &str) -> (r: Vec<&PurchaseRecord>)
        ensures
            r@.map_values(|x: &PurchaseRecord| *x) == self.purchase_records@.filter(|x: PurchaseRecord| x.player_id@ == player_id@),
    {
        let mut r: Vec<&PurchaseRecord> = Vec::new();
        let ghost s = self.purchase_records@;
        let mut i: usize = 0;
        while i < self.purchase_records.len()
            invariant
                s == self.purchase_records@,
                i <= s.len(),
                r@.map_values(|x: &PurchaseRecord| *x) == s.take(i as int).filter(|x: PurchaseRecord| x.player_id@ == player_id@),
            decreases self.purchase_records.len() - i,
        {
            let ghost prev = r@;
            proof {
                assert(s.take(i + 1) =~= s.take(i as int).push(s[i as int]));
                s.take(i as int).lemma_filter_push(s[i as int], |x: PurchaseRecord| x.player_id@ == player_id@);
            }
            if str_eq(self.purchase_records[i].player_id.as_str(), player_id) {
                r.push(&self.purchase_records[i]);
                assert(r@.map_values(|x: &PurchaseRecord| *x) =~= prev.map_values(|x: &PurchaseRecord| *x).push(s[i as int]));
            }
            i = i + 1;
        }
        assert(s.take(i as int) =~= s);
        r
    }

    /// Drops the purchases made `days` days or more before `now`; returns
    /// how many were dropped.
    pub fn cleanup_old_records_at(&mut self, days: i64, now: i64) -> (r: usize)
        requires
            i64::MIN <= days * 86400 <= i64::MAX,
            i64::MIN <= now - days * 86400 <= i64::MAX,
        ensures
            final(self).purchase_records@ == recent_records(old(self).purchase_records@, now - days * 86400),
            r == old(self).purchase_records@.len() - final(self).purchase_records@.len(),
            final(self).items@ == old(self).items@ && final(self).player_data@ == old(self).player_data@,
    {
        let cutoff = now - days * 86400;
        let ghost s0 = self.purchase_records@;
        let mut rest: Vec<PurchaseRecord> = Vec::new();
        std::mem::swap(&mut rest, &mut self.purchase_records);
        let original = rest.len();
        let mut n: usize = 0;
        while rest.len() > 0
            invariant
                rest@ == s0.skip(n as int),
                s0 == old(self).purchase_records@,
                n <= s0.len(),
                self.purchase_records@ == recent_records(s0.take(n as int), cutoff as int),
                self.purchase_records@.len() <= n,
                self.items@ == old(self).items@ && self.player_data@ == old(self).player_data@,
            decreases rest@.len(),
        {
            let x = rest.remove(0);
            assert(s0.take(n + 1).drop_last() =~= s0.take(n as int));
            assert(s0.take(n + 1).last() == s0[n as int]);
            assert(rest@ =~= s0.skip(n + 1));
            if x.purchased_at > cutoff {
                self.purchase_records.push(x);
            }
            assert(n < old(self).purchase_records.len());
            n = n + 1;
        }
        assert(s0.take(n as int) =~= s0);
        original - self.purchase_records.len()
    }

    /// Drops the purchases made `days` days or more ago.
    pub fn cleanup_old_records(&mut self, days: i64) -> (r: usize)
        requires
            -1_000_000_000_000 <= days <= 1_000_000_000_000,
        ensures
            r == old(self).purchase_records@.len() - final(self).purchase_records@.len(),
            exists|c: int| final(self).purchase_records@ == #[trigger] recent_records(old(self).purchase_records@, c),
    {
        self.cleanup_old_records_at(days, current_timestamp())
    }

    /// Sets each good's discount anew: one good in ten, by chance, gets 10,
    /// 20, 30 or 50 percent off, the others none.
    pub fn refresh_discounts(&mut self)
        requires
            old(self).wf(),
        ensures
            final(self).wf(),
            final(self).items@.len() == old(self).items@.len(),
            forall|j: int| 0 <= j < old(self).items@.len() ==> {
                let a = old(self).items@[j];
                let b = #[trigger] final(self).items@[j];
                &&& b == MallItem { discount: b.discount, ..a }
                &&& b.discount == 0 || b.discount == 10 || b.discount == 20 || b.discount == 30 || b.discount == 50
            },
            final(self).player_data@ == old(self).player_data@ && final(self).purchase_records@ == old(self).purchase_records@,
    {
        let ghost s0 = self.items@;
        let mut i: usize = 0;
        while i < self.items.len()
            invariant
                i <= self.items@.len(),
                self.items@.len() == s0.len(),
                s0 == old(self).items@,
                keys_unique(self.player_data@),
                forall|k: int| 0 <= k < self.player_data@.len() ==> keys_unique((#[trigger] self.player_data@[k]).data.daily_purchases@),
                self.player_data@ == old(self).player_data@ && self.purchase_records@ == old(self).purchase_records@,
                forall|j: int| 0 <= j < s0.len() ==> (#[trigger] self.items@[j]).id == s0[j].id,
                forall|j: int| i <= j < s0.len() ==> self.items@[j] == s0[j],
                forall|j: int| 0 <= j < i ==> {
                    let a = s0[j];
                    let b = #[trigger] self.items@[j];
                    &&& b == MallItem { discount: b.discount, ..a }
                    &&& b.discount == 0 || b.discount == 10 || b.discount == 20 || b.discount == 30 || b.discount == 50
                },
            decreases self.items.len() - i,
        {
            let hit = random_ratio(1, 10);
            let d = discount_for(hit, random_usize());
            let mut it = self.items.remove(i);
            it.discount = d;
            self.items.insert(i, it);
            i = i + 1;
        }
        proof {
            assert forall|a: int, b: int| 0 <= a < b < self.items@.len() implies self.items@[a].key_view() != self.items@[b].key_view() by {
                assert(s0[a].key_view() != s0[b].key_view());
            }
        }
    }
}

impl Default for MallDaemon {
    fn default() -> (r: Self)
        ensures
            r.wf(),
            default_goods(r.items@) && r.player_data@.len() == 0 && r.purchase_records@.len() == 0,
    {
        Self::new()
    }
}


/// `f` and `r` are what a purchase of `count` of good `iid` by player `pid`
/// (of level `level` and VIP level `vip`) at `now` makes of `o`: refused
/// where the good is missing, withdrawn, above the player's levels, short
/// of stock or over the day's limit; else the stock falls, the purchase is
/// recorded and counted for the day.
pub open spec fn purchased(o: MallDaemon, f: MallDaemon, pid: Seq<char>, level: i32, vip: i32, iid: Seq<char>, count: i32,
    now: i64, r: Result<PurchaseResult, MudError>) -> bool {
    &&& f.wf()
    &&& match mall_item(o, iid) {
        None => (r matches Err(MudError::NotFound(msg)) && msg@ == "商品不存在"@) && f.items@ == o.items@
            && f.player_data@ == o.player_data@ && f.purchase_records@ == o.purchase_records@,
        Some(m) => if !m.available {
            (r matches Err(MudError::RuntimeError(msg)) && msg@ == "商品已下架"@) && f.items@ == o.items@
                && f.player_data@ == o.player_data@ && f.purchase_records@ == o.purchase_records@
        } else if level < m.level_requirement {
            (r matches Err(MudError::RuntimeError(msg)) && msg@ == "等级不足"@) && f.items@ == o.items@
                && f.player_data@ == o.player_data@ && f.purchase_records@ == o.purchase_records@
        } else if vip < m.vip_requirement {
            (r matches Err(MudError::RuntimeError(msg)) && msg@ == "VIP等级不足"@) && f.items@ == o.items@
                && f.player_data@ == o.player_data@ && f.purchase_records@ == o.purchase_records@
        } else if m.stock >= 0 && m.stock < count {
            (r matches Err(MudError::RuntimeError(msg)) && msg@ == "库存不足"@) && f.items@ == o.items@
                && f.player_data@ == o.player_data@ && f.purchase_records@ == o.purchase_records@
        } else if m.daily_limit is Some && bought_before(o, pid, iid, now as int) + count > m.daily_limit->0 {
            (r matches Err(MudError::RuntimeError(msg)) && msg@ == "超过每日限购数量("@ + int_digits(m.daily_limit->0 as int) + ")"@)
                && f.items@ == o.items@ && f.purchase_records@ == o.purchase_records@
        } else {
            let cost = actual_price(m) * crate::shop_system::as_u64(count as int);
            &&& r matches Ok(res) && res.item_id@ == iid && res.item_name == m.name && res.count == count
                && res.cost == cost && res.currency == m.currency
            &&& f.purchase_records@.len() == o.purchase_records@.len() + 1
            &&& f.purchase_records@.drop_last() == o.purchase_records@
            &&& ({
                let rec = f.purchase_records@.last();
                rec.player_id@ == pid && rec.item_id@ == iid && rec.count == count && rec.price == cost && rec.purchased_at == now
            })
            &&& mall_item(f, iid) == Some(MallItem { stock: if m.stock >= 0 { (m.stock - count) as i32 } else { m.stock }, ..m })
            &&& forall|k: Seq<char>| k != iid ==> #[trigger] mall_item(f, k) == mall_item(o, k)
            &&& m.daily_limit is Some ==> (player_mall(f, pid) matches Some(x)
                && bought_today(x, iid) == bought_before(o, pid, iid, now as int) + count)
        },
    }
}

/// What `PlayerMallData::reset_daily_at` promises: `o` is the value before the call, `f` the value
/// after.
pub open spec fn reset_daily_done(o: PlayerMallData, f: PlayerMallData, now: i64) -> bool {
    &&& (f.daily_purchases@.len() == 0 && f.last_update_date == now)
}

/// A mall purchase that goes through keeps the mall's rules: the good is on
/// sale, the player's level and VIP level reach what it asks, a limited
/// stock covers the count and drops by it, the player's purchases of it
/// today stay within its daily limit, and, with a discount between 0 and
/// 100, the cost is at most the current price per item.
pub proof fn lemma_mall_purchase_keeps_rules(o: MallDaemon, f: MallDaemon, pid: Seq<char>, level: i32, vip: i32,
    iid: Seq<char>, count: i32, now: i64, r: Result<PurchaseResult, MudError>)
    requires
        purchased(o, f, pid, level, vip, iid, count, now, r),
        r is Ok,
        count >= 0,
    ensures
        mall_item(o, iid) matches Some(m) && {
            &&& m.available && level >= m.level_requirement && vip >= m.vip_requirement
            &&& m.stock >= 0 ==> m.stock >= count && (mall_item(f, iid) matches Some(m2) && m2.stock == m.stock - count)
            &&& m.daily_limit is Some ==> (player_mall(f, pid) matches Some(x) && bought_today(x, iid) <= m.daily_limit->0)
            &&& r->Ok_0.item_id@ == iid && r->Ok_0.count == count
            &&& 0 <= m.discount <= 100 ==> r->Ok_0.cost <= m.current_price * count
        },
{
    let m = mall_item(o, iid)->0;
    if 0 <= m.discount <= 100 {
        let c = m.current_price as int;
        let d = m.discount as int;
        if d > 0 {
            assert(c * (100 - d) / 100 <= c) by (nonlinear_arith) requires c >= 0, 0 < d <= 100;
        }
        assert(actual_price(m) <= c);
        assert(actual_price(m) >= 0) by (nonlinear_arith) requires c >= 0, 0 <= d <= 100,
            actual_price(m) == (if d > 0 { c * (100 - d) / 100 } else { c });
        assert(actual_price(m) * count <= c * count) by (nonlinear_arith)
            requires actual_price(m) <= c, count >= 0;
    }
}

} // verus!
