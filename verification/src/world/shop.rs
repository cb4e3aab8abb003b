//! Shops: the goods a shop sells, their prices and stock.
use vstd::prelude::*;
use crate::text::{push_str, push_i64, push_u64, string_of, int_digits, nat_digits};
use crate::util::{Keyed, key_get, key_pos, find_key, get_key, lemma_key_get_at, lemma_key_get_none, lemma_keyed_update};

verus! {

/// A good of a shop: the item, its price and stock (-1 for unlimited).
#[derive(Debug)]
pub struct ShopItem {
    pub item_id: String,
    pub name: String,
    pub price: i32,
    pub stock: i32,
}

impl Clone for ShopItem {
    fn clone(&self) -> (r: Self)
        ensures
            r == *self,
    {
        ShopItem { item_id: self.item_id.clone(), name: self.name.clone(), price: self.price, stock: self.stock }
    }
}

impl Keyed for ShopItem {
    open spec fn key_view(&self) -> Seq<char> {
        self.item_id@
    }

    fn key(&self) -> (r: &String) {
        &self.item_id
    }
}

/// A shop and its goods.
#[derive(Debug)]
pub struct Shop {
    pub id: String,
    pub name: String,
    pub items: Vec<ShopItem>,
}

impl Clone for Shop {
    fn clone(&self) -> (r: Self)
        ensures
            r.id == self.id && r.name == self.name && r.items@ == self.items@,
    {
        let items = self.items.clone();
        proof {
            assert forall|i: int| 0 <= i < items@.len() implies items@[i] == self.items@[i] by {
                assert(cloned::<ShopItem>(self.items[i], items[i]));
            }
            assert(items@ =~= self.items@);
        }
        Shop { id: self.id.clone(), name: self.name.clone(), items }
    }
}

impl Keyed for Shop {
    open spec fn key_view(&self) -> Seq<char> {
        self.id@
    }

    fn key(&self) -> (r: &String) {
        &self.id
    }
}

/// The good has stock: unlimited or some left.
pub open spec fn in_stock(it: ShopItem) -> bool {
    it.stock == -1 || it.stock > 0
}

/// The goods after selling `count` of `item_id`, and whether the sale went
/// through: unlimited stock always sells, limited stock only when enough.
pub open spec fn reduced(items: Seq<ShopItem>, item_id: Seq<char>, count: int) -> (Seq<ShopItem>, bool) {
    match key_get(items, item_id) {
        None => (items, false),
        Some(it) => if it.stock == -1 {
            (items, true)
        } else if it.stock >= count {
            (items.update(choose|i: int| key_pos(items, item_id, i), ShopItem { stock: (it.stock - count) as i32, ..it }), true)
        } else {
            (items, false)
        },
    }
}

/// One line of `Shop::format_items`.
pub open spec fn shop_line(idx: int, it: ShopItem) -> Seq<char> {
    nat_digits((idx + 1) as nat) + ". "@ + it.name@ + " - "@ + int_digits(it.price as int) + "金币 ("@ + (if it.stock == -1 { "无限"@ } else { "库存:"@ + int_digits(it.stock as int) }) + ")\n"@
}

/// The lines of `Shop::format_items` for the first `n` goods.
pub open spec fn shop_lines(items: Seq<ShopItem>, n: int) -> Seq<char>
    decreases n,
{
    if n <= 0 {
        Seq::empty()
    } else {
        shop_lines(items, n - 1) + shop_line(n - 1, items[n - 1])
    }
}

/// The goods after a restock: stock below 10 becomes 999.
pub open spec fn restocked(it: ShopItem) -> ShopItem {
    if it.stock < 10 { ShopItem { stock: 999, ..it } } else { it }
}

impl Shop {
    /// A shop without goods.
    pub fn new(id: String, name: String) -> (r: Self)
        ensures
            r.id == id && r.name == name && r.items@.len() == 0,
    {
        Shop { id, name, items: Vec::new() }
    }

    /// Adds a good.
    pub fn add_item(&mut self, item_id: String, name: String, price: i32, stock: i32)
        ensures
            final(self).id == old(self).id && final(self).name == old(self).name,
            final(self).items@ == old(self).items@.push(ShopItem { item_id, name, price, stock }),
    {
        self.items.push(ShopItem { item_id, name, price, stock });
    }

    /// The first good with id `item_id`.
    pub fn get_item(&self, item_id: &str) -> (r: Option<&ShopItem>)
        ensures
            r matches Some(it) ==> key_get(self.items@, item_id@) == Some(*it),
            r is None <==> key_get(self.items@, item_id@) is None,
    {
        get_key(&self.items, item_id)
    }

    /// The good is sold here and in stock.
    pub fn has_stock(&self, item_id: &str) -> (r: bool)
        ensures
            r == (key_get(self.items@, item_id@) matches Some(it) && in_stock(it)),
    {
        match self.get_item(item_id) {
            Some(it) => it.stock == -1 || it.stock > 0,
            None => false,
        }
    }

    /// Sells `count` of a good from the stock (see `reduced`).
    pub fn reduce_stock(&mut self, item_id: &str, count: i32) -> (r: bool)
        requires
            key_get(old(self).items@, item_id@) matches Some(it) ==> (it.stock != -1 && it.stock >= count ==> it.stock - count <= i32::MAX),
        ensures
            final(self).id == old(self).id && final(self).name == old(self).name,
            (final(self).items@, r) == reduced(old(self).items@, item_id@, count as int),
    {
        match find_key(&self.items, item_id) {
            Some(i) => {
                proof {
                    lemma_key_get_at(self.items@, item_id@, i as int);
                }
                if self.items[i].stock == -1 {
                    return true;
                }
                if self.items[i].stock >= count {
                    let it = &mut self.items[i];
                    it.stock = it.stock - count;
                    true
                } else {
                    false
                }
            },
            None => {
                proof {
                    lemma_key_get_none(self.items@, item_id@);
                }
                false
            },
        }
    }

    /// `=== name ===` and a numbered line per good with its price and stock.
    pub fn format_items(&self) -> (r: String)
        ensures
            r@ == "=== "@ + self.name@ + " ===\n"@ + shop_lines(self.items@, self.items@.len() as int),
    {
        let mut out = string_of("=== ");
        push_str(&mut out, self.name.as_str());
        push_str(&mut out, " ===\n");
        let ghost head = out@;
        let mut i: usize = 0;
        while i < self.items.len()
            invariant
                i <= self.items@.len(),
                out@ == head + shop_lines(self.items@, i as int),
            decreases self.items.len() - i,
        {
            let it = &self.items[i];
            let ghost before = out@;
            push_u64(&mut out, (i as u64) + 1);
            push_str(&mut out, ". ");
            push_str(&mut out, it.name.as_str());
            push_str(&mut out, " - ");
            push_i64(&mut out, it.price as i64);
            push_str(&mut out, "金币 (");
            if it.stock == -1 {
                push_str(&mut out, "无限");
            } else {
                push_str(&mut out, "库存:");
                push_i64(&mut out, it.stock as i64);
            }
            push_str(&mut out, ")\n");
            assert(out@ =~= before + shop_line(i as int, *it));
            i = i + 1;
        }
        out
    }

    /// Every good with stock below 10 gets 999.
    pub fn restock(&mut self)
        ensures
            final(self).id == old(self).id && final(self).name == old(self).name,
            final(self).items@.len() == old(self).items@.len(),
            forall|i: int| 0 <= i < old(self).items@.len() ==> #[trigger] final(self).items@[i] == restocked(old(self).items@[i]),
    {
        let ghost s0 = self.items@;
        let mut i: usize = 0;
        while i < self.items.len()
            invariant
                i <= s0.len(),
                self.items@.len() == s0.len(),
                self.id == old(self).id && self.name == old(self).name,
                s0 == old(self).items@,
                forall|j: int| 0 <= j < i ==> #[trigger] self.items@[j] == restocked(s0[j]),
                forall|j: int| i <= j < s0.len() ==> #[trigger] self.items@[j] == s0[j],
            decreases s0.len() - i,
        {
            if self.items[i].stock < 10 {
                let it = &mut self.items[i];
                it.stock = 999;
            }
            i = i + 1;
        }
    }
}

} // verus!
