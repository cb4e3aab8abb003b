//! Trading with shops: buying and selling for gold, the shop list, and the
//! commands a player types while in a shop.
use vstd::prelude::*;
use crate::errors::{MudError, invalid_operation};
use crate::text::{push_str, push_i64, push_u64, string_of, int_digits, nat_digits, seq_contains, str_contains};
use crate::util::{Keyed, key_pos, key_get, key_in, keys_unique, find_key, get_key, put_key, trunc_div, lemma_key_get_at, lemma_key_get_none};
use crate::words::{words, split_ws, parse_usize, parse_i32, parse_unsigned, parse_signed, pad_right, push_padded};
use crate::world::shop::{Shop, ShopItem, in_stock, reduced};
use crate::world::item::ItemTemplate;
use crate::player_state::{PlayerState, InventorySlot, slot_count};

verus! {

/// How a trade ended.
#[derive(Clone, Debug)]
pub enum TradeResult {
    Success { message: String, change_gold: i64 },
    Failed(String),
    OutOfStock,
    NotEnoughGold,
    InventoryFull,
}

/// Which way a trade goes.
#[derive(Clone, Copy, Debug, PartialEq, Eq, Structural)]
pub enum TransactionType {
    Buy,
    Sell,
}

/// A record of a trade.
#[derive(Clone, Debug)]
pub struct ShopTransaction {
    pub item_id: String,
    pub item_name: String,
    pub count: i32,
    pub price: i32,
    pub total: i32,
    pub transaction_type: TransactionType,
}

/// The kind of a trade's end, without its data.
#[derive(Clone, Copy, Debug, PartialEq, Eq, Structural)]
pub enum TradeKind {
    Success,
    Failed,
    OutOfStock,
    NotEnoughGold,
    InventoryFull,
}

/// `r` is a trade end of kind `k`, with message `m` for a success or a
/// failure and gold change `g` for a success.
pub open spec fn trade_is(r: TradeResult, k: TradeKind, m: Seq<char>, g: int) -> bool {
    match r {
        TradeResult::Success { message, change_gold } => k == TradeKind::Success && message@ == m && change_gold == g,
        TradeResult::Failed(msg) => k == TradeKind::Failed && msg@ == m,
        TradeResult::OutOfStock => k == TradeKind::OutOfStock,
        TradeResult::NotEnoughGold => k == TradeKind::NotEnoughGold,
        TradeResult::InventoryFull => k == TradeKind::InventoryFull,
    }
}

/// A gold amount as an unsigned 64-bit number takes it: negative amounts
/// wrap around.
pub open spec fn as_u64(t: int) -> int {
    if t >= 0 { t } else { t + 0x1_0000_0000_0000_0000 }
}

pub fn to_u64(t: i64) -> (r: u64)
    ensures
        r == as_u64(t as int),
{
    let r = t as u64;
    assert(t < 0 ==> r == t + 0x1_0000_0000_0000_0000) by (bit_vector)
        requires
            r == t as u64,
    ;
    assert(t >= 0 ==> r == t) by (bit_vector)
        requires
            r == t as u64,
    ;
    r
}

/// How buying `count` of `item_id` ends, before anything changes.
pub open spec fn buy_kind(items: Seq<ShopItem>, item_id: Seq<char>, count: int, p: PlayerState) -> TradeKind {
    if count <= 0 {
        TradeKind::Failed
    } else {
        match key_get(items, item_id) {
            None => TradeKind::Failed,
            Some(it) => if !in_stock(it) || (it.stock >= 0 && it.stock < count) {
                TradeKind::OutOfStock
            } else if (p.gold as int) < as_u64(it.price * count) {
                TradeKind::NotEnoughGold
            } else if p.inventory@.len() >= p.inventory_capacity && !key_in(p.inventory@, item_id) {
                TradeKind::InventoryFull
            } else {
                TradeKind::Success
            },
        }
    }
}

/// The message of a purchase.
pub open spec fn buy_message(items: Seq<ShopItem>, item_id: Seq<char>, count: int) -> Seq<char> {
    if count <= 0 {
        "数量必须大于0"@
    } else {
        match key_get(items, item_id) {
            None => "商店没有这个物品"@,
            Some(it) => "你购买了 "@ + it.name@ + " x"@ + int_digits(count) + "，花费了 "@ + int_digits(it.price * count) + " 金币"@,
        }
    }
}

/// The player `p1` is `p0` after paying `cost` and receiving `count` of
/// `item_id` when the world knows the item.
pub open spec fn bought(p0: PlayerState, p1: PlayerState, item_id: Seq<char>, count: int, cost: int, world: Seq<ItemTemplate>) -> bool {
    &&& p1 == (PlayerState { gold: (p0.gold - cost) as u64, inventory: p1.inventory, ..p0 })
    &&& match key_get(world, item_id) {
        None => p1.inventory@ == p0.inventory@,
        Some(t) => {
            &&& key_get(p1.inventory@, item_id) == Some(match key_get(p0.inventory@, item_id) {
                Some(o) => InventorySlot { count: (o.count + count) as i32, ..o },
                None => InventorySlot { item_id: t.id, template_id: t.id, count: count as i32, stackable: t.stackable },
            })
            &&& forall|k: Seq<char>| k != item_id ==> #[trigger] key_get(p1.inventory@, k) == key_get(p0.inventory@, k)
        },
    }
}

/// How selling `count` of `item_id` ends, before anything changes.
pub open spec fn sell_kind(item_id: Seq<char>, count: int, p: PlayerState, world: Seq<ItemTemplate>) -> TradeKind {
    if count <= 0 || slot_count(p.inventory@, item_id) < count || key_get(world, item_id) is None {
        TradeKind::Failed
    } else {
        TradeKind::Success
    }
}

/// What selling `count` of an item worth `price` brings.
pub open spec fn sell_total(price: int, count: int) -> int {
    trunc_div(price, 2) * count
}

/// The message of a sale.
pub open spec fn sell_message(item_id: Seq<char>, count: int, p: PlayerState, world: Seq<ItemTemplate>) -> Seq<char> {
    if count <= 0 {
        "数量必须大于0"@
    } else if slot_count(p.inventory@, item_id) < count {
        "你没有足够的物品"@
    } else {
        match key_get(world, item_id) {
            None => "物品不存在"@,
            Some(t) => "你出售了 "@ + t.name@ + " x"@ + int_digits(count) + "，获得了 "@ + int_digits(sell_total(t.price as int, count)) + " 金币"@,
        }
    }
}

/// The player `p1` is `p0` after handing over `count` of `item_id` and
/// receiving `gain` gold.
pub open spec fn sold(p0: PlayerState, p1: PlayerState, item_id: Seq<char>, count: int, gain: int) -> bool {
    let s = key_get(p0.inventory@, item_id).unwrap();
    &&& p1 == (PlayerState { gold: (p0.gold + gain) as u64, inventory: p1.inventory, ..p0 })
    &&& key_get(p1.inventory@, item_id) == if s.count - count <= 0 { None } else { Some(InventorySlot { count: (s.count - count) as i32, ..s }) }
    &&& forall|k: Seq<char>| k != item_id ==> #[trigger] key_get(p1.inventory@, k) == key_get(p0.inventory@, k)
}

/// What buying `count` of `item_id` from shop `s0` by player `p0` ends as:
/// the end `r` (see `buy_kind` and `buy_message`), the shop `s1` and the
/// player `p1` after.
pub open spec fn purchase_outcome(s0: Shop, s1: Shop, p0: PlayerState, p1: PlayerState, item_id: Seq<char>, count: int,
    world: Seq<ItemTemplate>, r: TradeResult) -> bool {
    let k = buy_kind(s0.items@, item_id, count, p0);
    let it = key_get(s0.items@, item_id).unwrap();
    &&& trade_is(r, k, buy_message(s0.items@, item_id, count), -(it.price * count))
    &&& s1.id == s0.id && s1.name == s0.name
    &&& k != TradeKind::Success ==> s1.items@ == s0.items@ && p1 == p0
    &&& k == TradeKind::Success ==> s1.items@ == reduced(s0.items@, item_id, count).0
        && bought(p0, p1, item_id, count, as_u64(it.price * count), world)
}

/// A purchase that goes through, of a good whose price `p` is not
/// negative, costs the player `p` gold per item, which is the gold change
/// it reports; the player then holds `count` more of the item where the
/// world knows it, and a limited stock drops by `count`.
pub proof fn lemma_purchase_pays_price(s0: Shop, s1: Shop, p0: PlayerState, p1: PlayerState, item_id: Seq<char>, count: int,
    world: Seq<ItemTemplate>, r: TradeResult)
    requires
        purchase_outcome(s0, s1, p0, p1, item_id, count, world, r),
        buy_kind(s0.items@, item_id, count, p0) == TradeKind::Success,
        key_get(s0.items@, item_id)->0.price >= 0,
        buy_fits(s0.items@, p0, item_id, count),
    ensures
        ({
            let it = key_get(s0.items@, item_id)->0;
            let cost = it.price * count;
            &&& r matches TradeResult::Success { change_gold, .. } && change_gold == -cost
            &&& p1.gold + cost == p0.gold
            &&& key_get(world, item_id) is Some ==> slot_count(p1.inventory@, item_id) == slot_count(p0.inventory@, item_id) + count
            &&& it.stock != -1 ==> exists|i: int| key_pos(s0.items@, item_id, i)
                && s1.items@ == s0.items@.update(i, ShopItem { stock: (it.stock - count) as i32, ..it })
            &&& it.stock == -1 ==> s1.items@ == s0.items@
        }),
{
    let it = key_get(s0.items@, item_id)->0;
    assert(count > 0);
    assert(it.price * count >= 0) by (nonlinear_arith) requires it.price >= 0, count > 0;
    if it.stock != -1 {
        crate::util::lemma_key_in_get(s0.items@, item_id);
        crate::util::lemma_key_first(s0.items@, item_id);
    }
}

/// What selling `count` of `item_id` from player `p0` ends as: the end `r`
/// (see `sell_kind` and `sell_message`) and the player `p1` after.
pub open spec fn sale_outcome(p0: PlayerState, p1: PlayerState, item_id: Seq<char>, count: int, world: Seq<ItemTemplate>,
    r: TradeResult) -> bool {
    let k = sell_kind(item_id, count, p0, world);
    let t = key_get(world, item_id).unwrap();
    &&& trade_is(r, k, sell_message(item_id, count, p0, world), sell_total(t.price as int, count))
    &&& k != TradeKind::Success ==> p1 == p0
    &&& k == TradeKind::Success ==> sold(p0, p1, item_id, count, as_u64(sell_total(t.price as int, count)))
}

/// A sale pays half the price per item, rounded down: where it goes
/// through for an item whose price `p` is not negative, the gold the player
/// gains, doubled, is at most `p` per item and at least `p - 1` per item,
/// and it is the gold change the sale reports.
pub proof fn lemma_sale_pays_half(p0: PlayerState, p1: PlayerState, item_id: Seq<char>, count: int,
    world: Seq<ItemTemplate>, r: TradeResult)
    requires
        sell_fits(p0, item_id, count, world),
        sale_outcome(p0, p1, item_id, count, world, r),
        sell_kind(item_id, count, p0, world) == TradeKind::Success,
        key_get(world, item_id)->0.price >= 0,
    ensures
        ({
            let p = key_get(world, item_id)->0.price as int;
            let gain = p1.gold - p0.gold;
            &&& r matches TradeResult::Success { change_gold, .. } && change_gold == gain
            &&& 2 * gain <= p * count
            &&& p * count - count <= 2 * gain
        }),
{
    let p = key_get(world, item_id)->0.price as int;
    let h = p / 2;
    assert(trunc_div(p, 2) == h);
    assert(2 * h <= p && p <= 2 * h + 1);
    assert(count > 0);
    assert(2 * (h * count) <= p * count && p * count - count <= 2 * (h * count)) by (nonlinear_arith)
        requires 2 * h <= p, p <= 2 * h + 1, count > 0, h >= 0;
    assert(h * count >= 0) by (nonlinear_arith) requires h >= 0, count > 0;
}

/// One line of the shop list: the number, name, price and stock of a good.
pub open spec fn list_line(idx: int, it: ShopItem) -> Seq<char> {
    pad_right(nat_digits((idx + 1) as nat), 5) + " "@ + pad_right(it.name@, 20) + " "@ + pad_right(int_digits(it.price as int) + "金币"@, 10) + " "@
        + pad_right(int_digits(it.stock as int) + if it.stock > 999 { "∞"@ } else { "§"@ }, 10) + "\n"@
}

/// The lines of the shop list for the first `n` goods.
pub open spec fn list_lines(items: Seq<ShopItem>, n: int) -> Seq<char>
    decreases n,
{
    if n <= 0 {
        Seq::empty()
    } else {
        list_lines(items, n - 1) + list_line(n - 1, items[n - 1])
    }
}

/// The shop list shown to a player with `gold` gold.
pub open spec fn shop_list_text(name: Seq<char>, items: Seq<ShopItem>, gold: int) -> Seq<char> {
    "§C=== "@ + name + " ===§N\n"@ + "你的金币: §Y"@ + nat_digits(gold as nat) + "§N\n\n"@ + if items.len() == 0 {
        "商店目前没有商品。\n"@
    } else {
        "§H商品列表:§N\n"@ + table_head() + list_lines(items, items.len() as int)
    }
}

/// The help text of the shop commands.
pub open spec fn buy_help_text() -> Seq<char> {
    "\n使用方法:\n  buy <序号> [数量] - 购买商品\n  sell <物品名> [数量] - 出售物品\n  list - 查看商品列表\n  done - 离开商店\n\n示例:\n  buy 1 - 购买第1件商品（1个）\n  buy 2 5 - 购买第2件商品（5个）\n  sell 生命药水 3 - 出售3个生命药水\n"@
}

/// The index and count a buy command gives, read from its words.
pub open spec fn parse_buy_words(ws: Seq<Seq<char>>) -> Result<(int, int), Seq<char>> {
    if ws.len() == 0 || ws.len() > 2 {
        Err("命令格式错误"@)
    } else {
        match parse_unsigned(ws[0], usize::MAX as int) {
            None => Err("无效的序号"@),
            Some(index) => if ws.len() > 1 {
                match parse_signed(ws[1], i32::MIN as int, i32::MAX as int) {
                    None => Err("无效的数量"@),
                    Some(count) => Ok((index, count)),
                }
            } else {
                Ok((index, 1))
            },
        }
    }
}

/// The first item of the world whose name contains `name`.
pub open spec fn first_named(world: Seq<ItemTemplate>, name: Seq<char>, i: int) -> Option<ItemTemplate>
    decreases world.len() - i,
{
    if i < 0 || i >= world.len() {
        None
    } else if seq_contains(world[i].name@, name) {
        Some(world[i])
    } else {
        first_named(world, name, i + 1)
    }
}

/// A purchase that goes through leaves the held count within `i32`.
pub open spec fn buy_fits(items: Seq<ShopItem>, p: PlayerState, item_id: Seq<char>, count: int) -> bool {
    buy_kind(items, item_id, count, p) == TradeKind::Success ==> slot_count(p.inventory@, item_id) + count <= i32::MAX
}

/// The inventory holds each item once, and a sale that goes through
/// leaves the gold within `u64`.
pub open spec fn sell_fits(p: PlayerState, item_id: Seq<char>, count: int, world: Seq<ItemTemplate>) -> bool {
    &&& keys_unique(p.inventory@)
    &&& (sell_kind(item_id, count, p, world) == TradeKind::Success
        ==> (p.gold as int) + as_u64(sell_total(key_get(world, item_id)->0.price as int, count)) <= u64::MAX)
}

proof fn lemma_i32_product(a: int, b: int)
    requires
        i32::MIN <= a <= i32::MAX,
        i32::MIN <= b <= i32::MAX,
    ensures
        -0x4000_0000_0000_0000 <= a * b <= 0x4000_0000_0000_0000,
{
    assert(-0x4000_0000_0000_0000 <= a * b <= 0x4000_0000_0000_0000) by (nonlinear_arith)
        requires
            -0x8000_0000 <= a <= 0x8000_0000,
            -0x8000_0000 <= b <= 0x8000_0000,
    ;
}

/// The two header lines of the shop table.
pub open spec fn table_head() -> Seq<char> {
    pad_right("序号"@, 5) + " "@ + pad_right("商品"@, 20) + " "@ + pad_right("价格"@, 10) + " "@ + pad_right("库存"@, 10) + "\n"@
        + pad_right("──"@, 5) + " "@ + pad_right("────"@, 20) + " "@ + pad_right("────"@, 10) + " "@ + pad_right("────"@, 10) + "\n"@
}

fn table_head_string() -> (r: String)
    ensures
        r@ == table_head(),
{
    let mut out = String::new();
    push_padded(&mut out, "序号", 5);
    push_str(&mut out, " ");
    push_padded(&mut out, "商品", 20);
    push_str(&mut out, " ");
    push_padded(&mut out, "价格", 10);
    push_str(&mut out, " ");
    push_padded(&mut out, "库存", 10);
    push_str(&mut out, "\n");
    push_padded(&mut out, "──", 5);
    push_str(&mut out, " ");
    push_padded(&mut out, "────", 20);
    push_str(&mut out, " ");
    push_padded(&mut out, "────", 10);
    push_str(&mut out, " ");
    push_padded(&mut out, "────", 10);
    push_str(&mut out, "\n");
    assert(out@ =~= table_head());
    out
}

fn list_line_string(i: usize, it: &ShopItem) -> (r: String)
    requires
        i < u64::MAX,
    ensures
        r@ == list_line(i as int, *it),
{
    let mut out = String::new();
    let num = crate::text::u64_string((i as u64) + 1);
    push_padded(&mut out, num.as_str(), 5);
    push_str(&mut out, " ");
    push_padded(&mut out, it.name.as_str(), 20);
    push_str(&mut out, " ");
    let mut price = crate::text::i64_string(it.price as i64);
    push_str(&mut price, "金币");
    push_padded(&mut out, price.as_str(), 10);
    push_str(&mut out, " ");
    let mut stock = crate::text::i64_string(it.stock as i64);
    if it.stock > 999 {
        push_str(&mut stock, "∞");
    } else {
        push_str(&mut stock, "§");
    }
    push_padded(&mut out, stock.as_str(), 10);
    push_str(&mut out, "\n");
    assert(out@ =~= list_line(i as int, *it));
    out
}

/// The commands of a shop.
pub struct ShopSystem;

impl ShopSystem {
    /// Buys `count` of a good (see `buy_kind`): on success the stock drops,
    /// the gold is paid and the item joins the inventory when the world
    /// knows it.
    pub fn buy_item(shop: &mut Shop, item_id: &str, count: i32, player: &mut PlayerState, world_items: &Vec<ItemTemplate>) -> (r: TradeResult)
        requires
            buy_fits(old(shop).items@, *old(player), item_id@, count as int),
        ensures
            purchase_outcome(*old(shop), *final(shop), *old(player), *final(player), item_id@, count as int, world_items@, r),
    {
        if count <= 0 {
            return TradeResult::Failed(string_of("数量必须大于0"));
        }
        let (price, name) = match shop.get_item(item_id) {
            Some(it) => (it.price, it.name.clone()),
            None => {
                return TradeResult::Failed(string_of("商店没有这个物品"));
            },
        };
        if !shop.has_stock(item_id) {
            return TradeResult::OutOfStock;
        }
        match shop.get_item(item_id) {
            Some(it) => {
                if it.stock >= 0 && it.stock < count {
                    return TradeResult::OutOfStock;
                }
            },
            None => {},
        }
        proof {
            lemma_i32_product(price as int, count as int);
        }
        let total: i64 = (price as i64) * (count as i64);
        let cost = to_u64(total);
        if player.gold < cost {
            return TradeResult::NotEnoughGold;
        }
        if player.inventory.len() >= player.inventory_capacity && find_key(&player.inventory, item_id).is_none() {
            return TradeResult::InventoryFull;
        }
        let _ = player.spend_gold(cost);
        let _ = shop.reduce_stock(item_id, count);
        match get_key(world_items, item_id) {
            Some(t) => {
                let _ = player.add_item(t, count);
            },
            None => {},
        }
        let mut message = string_of("你购买了 ");
        push_str(&mut message, name.as_str());
        push_str(&mut message, " x");
        push_i64(&mut message, count as i64);
        push_str(&mut message, "，花费了 ");
        push_i64(&mut message, total);
        push_str(&mut message, " 金币");
        TradeResult::Success { message, change_gold: -total }
    }

    /// Sells `count` of an item the player holds for half its price, rounded
    /// toward zero, per item (see `sell_kind`).
    pub fn sell_item(shop: &Shop, item_id: &str, count: i32, player: &mut PlayerState, world_items: &Vec<ItemTemplate>) -> (r: TradeResult)
        requires
            sell_fits(*old(player), item_id@, count as int, world_items@),
        ensures
            sale_outcome(*old(player), *final(player), item_id@, count as int, world_items@, r),
    {
        if count <= 0 {
            return TradeResult::Failed(string_of("数量必须大于0"));
        }
        if player.get_item_count(item_id) < count {
            return TradeResult::Failed(string_of("你没有足够的物品"));
        }
        let t = match get_key(world_items, item_id) {
            Some(t) => t,
            None => {
                return TradeResult::Failed(string_of("物品不存在"));
            },
        };
        let half: i32 = t.price / 2;
        proof {
            lemma_i32_product(half as int, count as int);
        }
        let total: i64 = (half as i64) * (count as i64);
        proof {
            assert(half == trunc_div(t.price as int, 2));
        }
        let _ = player.remove_item(item_id, count);
        let gain = to_u64(total);
        player.add_gold(gain);
        let mut message = string_of("你出售了 ");
        push_str(&mut message, t.name.as_str());
        push_str(&mut message, " x");
        push_i64(&mut message, count as i64);
        push_str(&mut message, "，获得了 ");
        push_i64(&mut message, total);
        push_str(&mut message, " 金币");
        TradeResult::Success { message, change_gold: total }
    }

    /// The shop's name, the player's gold and a table of the goods.
    pub fn format_shop_list(shop: &Shop, player_gold: u64) -> (r: String)
        ensures
            r@ == shop_list_text(shop.name@, shop.items@, player_gold as int),
    {
        let mut out = string_of("§C=== ");
        push_str(&mut out, shop.name.as_str());
        push_str(&mut out, " ===§N\n");
        push_str(&mut out, "你的金币: §Y");
        push_u64(&mut out, player_gold);
        push_str(&mut out, "§N\n\n");
        let ghost head = out@;
        if shop.items.len() == 0 {
            push_str(&mut out, "商店目前没有商品。\n");
        } else {
            push_str(&mut out, "§H商品列表:§N\n");
            let th = table_head_string();
            push_str(&mut out, th.as_str());
            let ghost head2 = out@;
            let mut i: usize = 0;
            while i < shop.items.len()
                invariant
                    i <= shop.items@.len(),
                    out@ == head2 + list_lines(shop.items@, i as int),
                decreases shop.items.len() - i,
            {
                let line = list_line_string(i, &shop.items[i]);
                push_str(&mut out, line.as_str());
                i = i + 1;
            }
            assert(out@ =~= head + ("§H商品列表:§N\n"@ + table_head() + list_lines(shop.items@, shop.items@.len() as int)));
        }
        out
    }

    /// How to use the shop commands.
    pub fn get_buy_help() -> (r: &'static str)
        ensures
            r@ == buy_help_text(),
    {
        "\n使用方法:\n  buy <序号> [数量] - 购买商品\n  sell <物品名> [数量] - 出售物品\n  list - 查看商品列表\n  done - 离开商店\n\n示例:\n  buy 1 - 购买第1件商品（1个）\n  buy 2 5 - 购买第2件商品（5个）\n  sell 生命药水 3 - 出售3个生命药水\n"
    }

    /// Reads `<index> [count]` (count 1 when left out). Fails with
    /// 命令格式错误 for no word or more than two, 无效的序号 and 无效的数量
    /// for words that are not numbers.
    pub fn parse_buy_command(input: &str) -> (r: Result<(usize, i32), MudError>)
        ensures
            match parse_buy_words(words(input@)) {
                Ok((index, count)) => r == Ok::<(usize, i32), MudError>((index as usize, count as i32)),
                Err(m) => r matches Err(MudError::InvalidOperation(e)) && e@ == m,
            },
    {
        let parts = split_ws(input);
        Self::parse_buy_parts(&parts, 0)
    }

    fn parse_buy_parts(parts: &Vec<String>, from: usize) -> (r: Result<(usize, i32), MudError>)
        requires
            from <= parts@.len(),
        ensures
            match parse_buy_words(parts@.map_values(|w: String| w@).skip(from as int)) {
                Ok((index, count)) => r == Ok::<(usize, i32), MudError>((index as usize, count as i32)),
                Err(m) => r matches Err(MudError::InvalidOperation(e)) && e@ == m,
            },
            r matches Ok((i, c)) ==> parse_buy_words(parts@.map_values(|w: String| w@).skip(from as int)) == Ok::<(int, int), Seq<char>>((i as int, c as int)),
            r is Err ==> parse_buy_words(parts@.map_values(|w: String| w@).skip(from as int)) is Err,
    {
        let ghost ws = parts@.map_values(|w: String| w@).skip(from as int);
        let n = parts.len() - from;
        if n == 0 || n > 2 {
            return Err(invalid_operation("命令格式错误"));
        }
        assert(ws[0] == parts@[from as int]@);
        let index = match parse_usize(parts[from].as_str()) {
            Some(i) => i,
            None => {
                return Err(invalid_operation("无效的序号"));
            },
        };
        let count: i32 = if n > 1 {
            assert(ws[1] == parts@[from + 1]@);
            match parse_i32(parts[from + 1].as_str()) {
                Some(c) => c,
                None => {
                    return Err(invalid_operation("无效的数量"));
                },
            }
        } else {
            1
        };
        Ok((index, count))
    }
}


/// The first word is one of the given names.
pub open spec fn word_is(ws: Seq<Seq<char>>, a: Seq<char>, b: Seq<char>) -> bool {
    ws.len() > 0 && (ws[0] == a || ws[0] == b)
}

/// The reply to a trade end.
pub open spec fn trade_reply(k: TradeKind, m: Seq<char>, buying: bool) -> Seq<char> {
    match k {
        TradeKind::Success => "§G"@ + m + "§N\n"@,
        TradeKind::Failed => "§R"@ + m + "§N\n"@,
        TradeKind::OutOfStock => if buying { "§R库存不足！§N\n"@ } else { "§R交易失败！§N\n"@ },
        TradeKind::NotEnoughGold => if buying { "§R金币不足！§N\n"@ } else { "§R交易失败！§N\n"@ },
        TradeKind::InventoryFull => if buying { "§R背包已满！§N\n"@ } else { "§R交易失败！§N\n"@ },
    }
}

/// The count a sell command gives: its third word when that is a number,
/// else 1.
pub open spec fn sell_count(ws: Seq<Seq<char>>) -> int {
    if ws.len() > 2 {
        match parse_signed(ws[2], i32::MIN as int, i32::MAX as int) {
            Some(c) => c,
            None => 1,
        }
    } else {
        1
    }
}

/// The purchase a buy command asks for: the good's index and the count.
pub open spec fn buy_request(items: Seq<ShopItem>, ws: Seq<Seq<char>>) -> Option<(Seq<char>, int)> {
    if ws.len() < 2 {
        None
    } else {
        match parse_buy_words(ws.skip(1)) {
            Ok((index, count)) => if index == 0 || index > items.len() { None } else { Some((items[index - 1].item_id@, count)) },
            Err(_) => None,
        }
    }
}

/// The sale a sell command asks for: the item and the count.
pub open spec fn sell_request(world: Seq<ItemTemplate>, ws: Seq<Seq<char>>) -> Option<(Seq<char>, int)> {
    if ws.len() < 2 {
        None
    } else {
        match first_named(world, ws[1], 0) {
            Some(t) => Some((t.id@, sell_count(ws))),
            None => None,
        }
    }
}

/// The reply to a shop command with words `ws`.
pub open spec fn command_reply(ws: Seq<Seq<char>>, shop: Shop, p: PlayerState, world: Seq<ItemTemplate>) -> Seq<char> {
    if ws.len() == 0 || word_is(ws, "list"@, "l"@) {
        shop_list_text(shop.name@, shop.items@, p.gold as int)
    } else if word_is(ws, "buy"@, "b"@) {
        if ws.len() < 2 {
            "请输入要购买的序号。\n"@
        } else {
            match parse_buy_words(ws.skip(1)) {
                Err(_) => "§R命令格式错误！§N\n使用: buy <序号> [数量]\n"@,
                Ok((index, count)) => if index == 0 || index > shop.items@.len() {
                    "无效的序号。\n"@
                } else {
                    let id = shop.items@[index - 1].item_id@;
                    trade_reply(buy_kind(shop.items@, id, count, p), buy_message(shop.items@, id, count), true)
                },
            }
        }
    } else if word_is(ws, "sell"@, "s"@) {
        if ws.len() < 2 {
            "请输入要出售的物品名。\n"@
        } else {
            match sell_request(world, ws) {
                None => "§R找不到这个物品！§N\n"@,
                Some((id, count)) => trade_reply(sell_kind(id, count, p, world), sell_message(id, count, p, world), false),
            }
        }
    } else if word_is(ws, "help"@, "h"@) || (ws.len() > 0 && ws[0] == "?"@) {
        buy_help_text()
    } else if word_is(ws, "done"@, "exit"@) || word_is(ws, "quit"@, "q"@) {
        "感谢光临！\n"@
    } else {
        "§R未知命令！§N\n输入 help 查看帮助。\n"@
    }
}

/// The trade a command makes, if it reaches one.
pub open spec fn command_trade(ws: Seq<Seq<char>>, shop: Shop, world: Seq<ItemTemplate>) -> Option<(bool, Seq<char>, int)> {
    if ws.len() == 0 || word_is(ws, "list"@, "l"@) {
        None
    } else if word_is(ws, "buy"@, "b"@) {
        match buy_request(shop.items@, ws) {
            Some((id, count)) => Some((true, id, count)),
            None => None,
        }
    } else if word_is(ws, "sell"@, "s"@) {
        match sell_request(world, ws) {
            Some((id, count)) => Some((false, id, count)),
            None => None,
        }
    } else {
        None
    }
}

/// The trade a command reaches stays within bounds.
pub open spec fn command_fits(ws: Seq<Seq<char>>, shop: Shop, p: PlayerState, world: Seq<ItemTemplate>) -> bool {
    match command_trade(ws, shop, world) {
        Some((true, id, count)) => buy_fits(shop.items@, p, id, count),
        Some((false, id, count)) => sell_fits(p, id, count, world),
        None => true,
    }
}

fn trade_reply_string(r: TradeResult, buying: bool) -> (s: String)
    ensures
        forall|k: TradeKind, m: Seq<char>, g: int| trade_is(r, k, m, g) ==> s@ == trade_reply(k, m, buying),
{
    match r {
        TradeResult::Success { message, .. } => {
            let mut s = string_of("§G");
            push_str(&mut s, message.as_str());
            push_str(&mut s, "§N\n");
            s
        },
        TradeResult::Failed(msg) => {
            let mut s = string_of("§R");
            push_str(&mut s, msg.as_str());
            push_str(&mut s, "§N\n");
            s
        },
        TradeResult::OutOfStock => if buying { string_of("§R库存不足！§N\n") } else { string_of("§R交易失败！§N\n") },
        TradeResult::NotEnoughGold => if buying { string_of("§R金币不足！§N\n") } else { string_of("§R交易失败！§N\n") },
        TradeResult::InventoryFull => if buying { string_of("§R背包已满！§N\n") } else { string_of("§R交易失败！§N\n") },
    }
}

fn find_named(world: &Vec<ItemTemplate>, name: &str) -> (r: Option<usize>)
    ensures
        match r {
            Some(i) => i < world@.len() && first_named(world@, name@, 0) == Some(world@[i as int]),
            None => first_named(world@, name@, 0) is None,
        },
{
    let mut i: usize = 0;
    while i < world.len()
        invariant
            i <= world@.len(),
            first_named(world@, name@, 0) == first_named(world@, name@, i as int),
        decreases world.len() - i,
    {
        if str_contains(world[i].name.as_str(), name) {
            return Some(i);
        }
        i = i + 1;
    }
    None
}

fn word_eq(w: &String, lit: &str) -> (r: bool)
    ensures
        r == (w@ == lit@),
{
    crate::text::str_eq(w.as_str(), lit)
}

impl ShopSystem {
    /// Runs a shop command: list, buy, sell, help or done (see
    /// `command_reply`). A purchase is made on a copy of the shop, so the
    /// shop's stock stays as it was; the player pays and receives.
    pub fn execute_shop_command(cmd: &str, shop: &mut Shop, player: &mut PlayerState, world_items: &Vec<ItemTemplate>) -> (r: Result<String, MudError>)
        requires
            command_fits(words(cmd@), *old(shop), *old(player), world_items@),
        ensures
            *final(shop) == *old(shop),
            r matches Ok(s) && s@ == command_reply(words(cmd@), *old(shop), *old(player), world_items@),
            match command_trade(words(cmd@), *old(shop), world_items@) {
                None => *final(player) == *old(player),
                Some((true, id, count)) => {
                    let it = key_get(old(shop).items@, id).unwrap();
                    if buy_kind(old(shop).items@, id, count, *old(player)) == TradeKind::Success {
                        bought(*old(player), *final(player), id, count, as_u64(it.price * count), world_items@)
                    } else {
                        *final(player) == *old(player)
                    }
                },
                Some((false, id, count)) => {
                    let t = key_get(world_items@, id).unwrap();
                    if sell_kind(id, count, *old(player), world_items@) == TradeKind::Success {
                        sold(*old(player), *final(player), id, count, as_u64(sell_total(t.price as int, count)))
                    } else {
                        *final(player) == *old(player)
                    }
                },
            },
    {
        let parts = split_ws(cmd);
        let ghost ws = words(cmd@);
        assert(parts@.map_values(|w: String| w@) == ws);
        if parts.len() == 0 {
            return Ok(Self::format_shop_list(shop, player.gold));
        }
        assert(ws[0] == parts@[0]@);
        let w0 = &parts[0];
        if word_eq(w0, "list") || word_eq(w0, "l") {
            return Ok(Self::format_shop_list(shop, player.gold));
        }
        if word_eq(w0, "buy") || word_eq(w0, "b") {
            if parts.len() < 2 {
                return Ok(string_of("请输入要购买的序号。\n"));
            }
            assert(parts@.map_values(|w: String| w@).skip(1) == ws.skip(1));
            match Self::parse_buy_parts(&parts, 1) {
                Ok((index, count)) => {
                    if index == 0 || index > shop.items.len() {
                        return Ok(string_of("无效的序号。\n"));
                    }
                    let id = shop.items[index - 1].item_id.clone();
                    let mut copy = shop.clone();
                    let res = Self::buy_item(&mut copy, id.as_str(), count, player, world_items);
                    return Ok(trade_reply_string(res, true));
                },
                Err(_) => {
                    return Ok(string_of("§R命令格式错误！§N\n使用: buy <序号> [数量]\n"));
                },
            }
        }
        if word_eq(w0, "sell") || word_eq(w0, "s") {
            if parts.len() < 2 {
                return Ok(string_of("请输入要出售的物品名。\n"));
            }
            assert(ws[1] == parts@[1]@);
            let count: i32 = if parts.len() > 2 {
                assert(ws[2] == parts@[2]@);
                match parse_i32(parts[2].as_str()) {
                    Some(c) => c,
                    None => 1,
                }
            } else {
                1
            };
            let k = match find_named(world_items, parts[1].as_str()) {
                Some(k) => k,
                None => {
                    return Ok(string_of("§R找不到这个物品！§N\n"));
                },
            };
            let id = world_items[k].id.clone();
            let res = Self::sell_item(shop, id.as_str(), count, player, world_items);
            return Ok(trade_reply_string(res, false));
        }
        if word_eq(w0, "help") || word_eq(w0, "h") || word_eq(w0, "?") {
            return Ok(string_of(Self::get_buy_help()));
        }
        if word_eq(w0, "done") || word_eq(w0, "exit") || word_eq(w0, "quit") || word_eq(w0, "q") {
            return Ok(string_of("感谢光临！\n"));
        }
        Ok(string_of("§R未知命令！§N\n输入 help 查看帮助。\n"))
    }
}

/// All shops, by id.
pub struct ShopManager {
    shops: Vec<Shop>,
}

impl ShopManager {
    /// The shops.
    pub closed spec fn shops_view(&self) -> Seq<Shop> {
        self.shops@
    }

    /// No shops.
    pub fn new() -> (r: Self)
        ensures
            r.shops_view().len() == 0,
    {
        ShopManager { shops: Vec::new() }
    }

    /// Adds a shop, replacing one with the same id.
    pub fn add_shop(&mut self, shop: Shop)
        ensures
            key_get(final(self).shops_view(), shop.id@) == Some(shop),
            forall|k: Seq<char>| k != shop.id@ ==> #[trigger] key_get(final(self).shops_view(), k) == key_get(old(self).shops_view(), k),
            keys_unique(old(self).shops_view()) ==> keys_unique(final(self).shops_view()),
    {
        put_key(&mut self.shops, shop);
    }

    /// The shop with id `shop_id`.
    pub fn get_shop(&self, shop_id: &str) -> (r: Option<&Shop>)
        ensures
            r matches Some(s) ==> key_get(self.shops_view(), shop_id@) == Some(*s),
            r is None <==> key_get(self.shops_view(), shop_id@) is None,
    {
        get_key(&self.shops, shop_id)
    }

    /// The shop with id `shop_id`, for changing it.
    pub fn get_shop_mut(&mut self, shop_id: &str) -> (r: Option<&mut Shop>)
        ensures
            r is None <==> key_get(old(self).shops_view(), shop_id@) is None,
            r is None ==> final(self).shops_view() == old(self).shops_view(),
            r matches Some(s) ==> key_get(old(self).shops_view(), shop_id@) == Some(*s)
                && (exists|i: int| key_pos(old(self).shops_view(), shop_id@, i)
                    && final(self).shops_view() == old(self).shops_view().update(i, *final(s))),
    {
        crate::util::get_key_mut(&mut self.shops, shop_id)
    }

    /// Restocks every shop (see `Shop::restock`).
    pub fn restock_all(&mut self)
        ensures
            final(self).shops_view().len() == old(self).shops_view().len(),
            forall|i: int| 0 <= i < old(self).shops_view().len() ==> {
                let a = old(self).shops_view()[i];
                let b = #[trigger] final(self).shops_view()[i];
                &&& b.id == a.id && b.name == a.name
                &&& b.items@.len() == a.items@.len()
                &&& forall|j: int| 0 <= j < a.items@.len() ==> #[trigger] b.items@[j] == crate::world::shop::restocked(a.items@[j])
            },
    {
        let ghost s0 = self.shops@;
        let mut i: usize = 0;
        while i < self.shops.len()
            invariant
                i <= s0.len(),
                self.shops@.len() == s0.len(),
                s0 == old(self).shops@,
                forall|k: int| 0 <= k < i ==> {
                    let a = s0[k];
                    let b = #[trigger] self.shops@[k];
                    &&& b.id == a.id && b.name == a.name
                    &&& b.items@.len() == a.items@.len()
                    &&& forall|j: int| 0 <= j < a.items@.len() ==> #[trigger] b.items@[j] == crate::world::shop::restocked(a.items@[j])
                },
                forall|k: int| i <= k < s0.len() ==> #[trigger] self.shops@[k] == s0[k],
            decreases s0.len() - i,
        {
            let ghost before = self.shops@;
            let sh = &mut self.shops[i];
            sh.restock();
            proof {
                assert forall|k: int| 0 <= k < s0.len() && k != i implies #[trigger] self.shops@[k] == before[k] by {}
            }
            i = i + 1;
        }
    }
}

impl Default for ShopManager {
    fn default() -> (r: Self)
        ensures
            r.shops_view().len() == 0,
    {
        Self::new()
    }
}

} // verus!
