//! Merchants: the kinds of shopkeeper NPCs and their titles, the goods a
//! merchant sells, the shop list shown to players, and buying from it.
use vstd::prelude::*;
use crate::errors::{MudError, not_found, invalid_operation};
use crate::text::{push_str, push_u64, string_of, nat_digits};
use crate::util::{Keyed, key_get, key_pos, find_key, lemma_key_get_at, lemma_key_get_none};

verus! {

/// The kind of goods a merchant deals in.
#[derive(Debug, Clone, Copy, PartialEq, Eq, Structural)]
pub enum MerchantType {
    Weapon,
    Armor,
    Medicine,
    General,
    Pawnshop,
    Bank,
}

/// The title of a merchant of kind `t`.
pub open spec fn merchant_title(t: MerchantType) -> Seq<char> {
    match t {
        MerchantType::Weapon => "武器商"@,
        MerchantType::Armor => "防具商"@,
        MerchantType::Medicine => "药品商"@,
        MerchantType::General => "杂货商"@,
        MerchantType::Pawnshop => "当铺"@,
        MerchantType::Bank => "钱庄"@,
    }
}

impl MerchantType {
    /// The title of this kind of merchant (see `merchant_title`).
    pub fn name(&self) -> (r: &'static str)
        ensures
            r@ == merchant_title(*self),
    {
        match self {
            MerchantType::Weapon => "武器商",
            MerchantType::Armor => "防具商",
            MerchantType::Medicine => "药品商",
            MerchantType::General => "杂货商",
            MerchantType::Pawnshop => "当铺",
            MerchantType::Bank => "钱庄",
        }
    }
}

/// A good a merchant sells: its item template, price, buy-back price and
/// stock (0 for no limit).
#[derive(Debug)]
pub struct ShopItem {
    pub item_id: String,
    pub price: u64,
    pub buyback_price: u64,
    pub stock: u32,
}

impl Clone for ShopItem {
    fn clone(&self) -> (r: Self)
        ensures
            r == *self,
    {
        ShopItem { item_id: self.item_id.clone(), price: self.price, buyback_price: self.buyback_price, stock: self.stock }
    }
}

impl Keyed for ShopItem {
    open spec fn key_view(&self) -> Seq<char> {
        self.item_id@
    }

    fn key(&self) -> (r: &String) {
        &self.item_id
    }
}

/// The good `item_id` of a shop, if it sells it (the first such).
pub fn shop_item_info<'a>(items: &'a Vec<ShopItem>, item_id: &str) -> (r: Option<&'a ShopItem>)
    ensures
        r matches Some(x) ==> key_get(items@, item_id@) == Some(*x),
        r is None <==> key_get(items@, item_id@) is None,
{
    crate::util::get_key(items, item_id)
}

/// The line of good `x` at number `n` of a shop list.
pub open spec fn shop_line(n: nat, x: ShopItem) -> Seq<char> {
    nat_digits(n) + ". "@ + x.item_id@ + " - "@ + nat_digits(x.price as nat) + " 金 (库存: "@
        + (if x.stock == 0 { "无限"@ } else { nat_digits(x.stock as nat) }) + ")\n"@
}

/// The lines of the goods `s`, numbered from 1.
pub open spec fn shop_lines(s: Seq<ShopItem>) -> Seq<char>
    decreases s.len(),
{
    if s.len() == 0 {
        seq![]
    } else {
        shop_lines(s.drop_last()) + shop_line(s.len(), s.last())
    }
}

/// The shop list: the merchant's title, the shopkeeper, the numbered goods
/// and how to buy and sell.
pub open spec fn shop_text(title: Seq<char>, owner: Seq<char>, s: Seq<ShopItem>) -> Seq<char> {
    "=== "@ + title + " ===\n"@ + "店主: "@ + owner + "\n"@ + shop_lines(s)
        + "\n§c[buy <编号> <数量>] - 购买物品§r\n"@ + "§c[sell <物品名>] - 出售物品§r\n"@
}

/// The shop list of a merchant titled `title` kept by `owner` (see
/// `shop_text`).
pub fn render_shop(title: &str, owner: &str, items: &Vec<ShopItem>) -> (r: String)
    ensures
        r@ == shop_text(title@, owner@, items@),
{
    let mut out = string_of("=== ");
    push_str(&mut out, title);
    push_str(&mut out, " ===\n");
    push_str(&mut out, "店主: ");
    push_str(&mut out, owner);
    push_str(&mut out, "\n");
    let ghost head = out@;
    let mut i: usize = 0;
    while i < items.len()
        invariant
            i <= items@.len(),
            out@ == head + shop_lines(items@.take(i as int)),
        decreases items.len() - i,
    {
        let x = &items[i];
        assert(items@.take(i + 1).drop_last() =~= items@.take(i as int));
        assert(items@.take(i + 1).last() == items@[i as int]);
        push_u64(&mut out, i as u64 + 1);
        push_str(&mut out, ". ");
        push_str(&mut out, x.item_id.as_str());
        push_str(&mut out, " - ");
        push_u64(&mut out, x.price);
        push_str(&mut out, " 金 (库存: ");
        if x.stock == 0 {
            push_str(&mut out, "无限");
        } else {
            push_u64(&mut out, x.stock as u64);
        }
        push_str(&mut out, ")\n");
        assert(out@ =~= head + shop_lines(items@.take(i + 1)));
        i = i + 1;
    }
    assert(items@.take(items@.len() as int) =~= items@);
    push_str(&mut out, "\n§c[buy <编号> <数量>] - 购买物品§r\n");
    push_str(&mut out, "§c[sell <物品名>] - 出售物品§r\n");
    out
}

/// Buys `quantity` of good `item_id` with `player_money`: refused when the
/// shop does not sell it (商品不存在), when a limited stock is below the
/// quantity (库存不足), or when the price of them all is above the money
/// (金钱不足); else a limited stock drops by the quantity and the cost and
/// quantity are given back. A refused purchase changes nothing.
pub fn buy_from_shop(items: &mut Vec<ShopItem>, item_id: &str, quantity: u32, player_money: u64) -> (r: Result<(u64, u32), MudError>)
    requires
        key_get(old(items)@, item_id@) matches Some(x) ==> x.price * quantity <= u64::MAX,
    ensures
        key_get(old(items)@, item_id@) is None ==> (r matches Err(MudError::NotFound(m)) && m@ == "商品不存在"@),
        key_get(old(items)@, item_id@) matches Some(x) ==> {
            if x.stock != 0 && x.stock < quantity {
                r matches Err(MudError::InvalidOperation(m)) && m@ == "库存不足"@
            } else if x.price * quantity > player_money {
                r matches Err(MudError::InvalidOperation(m)) && m@ == "金钱不足"@
            } else {
                &&& r == Ok::<(u64, u32), MudError>(((x.price * quantity) as u64, quantity))
                &&& exists|i: int| key_pos(old(items)@, item_id@, i) && final(items)@ == old(items)@.update(i,
                    if x.stock != 0 { ShopItem { stock: (x.stock - quantity) as u32, ..x } } else { x })
            }
        },
        r is Err ==> final(items)@ == old(items)@,
{
    let i = match find_key(items, item_id) {
        Some(i) => i,
        None => {
            proof {
                lemma_key_get_none(items@, item_id@);
            }
            return Err(not_found("商品不存在"));
        },
    };
    proof {
        lemma_key_get_at(items@, item_id@, i as int);
    }
    let stock = items[i].stock;
    let price = items[i].price;
    if stock != 0 && stock < quantity {
        return Err(invalid_operation("库存不足"));
    }
    let total_cost = price * quantity as u64;
    if total_cost > player_money {
        return Err(invalid_operation("金钱不足"));
    }
    if stock != 0 {
        let x = ShopItem { item_id: items[i].item_id.clone(), price, buyback_price: items[i].buyback_price,
            stock: stock - quantity };
        items.set(i, x);
    }
    Ok((total_cost, quantity))
}

} // verus!
