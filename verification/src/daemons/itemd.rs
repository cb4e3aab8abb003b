//! The item register: item templates by id, with lookups by kind, level
//! and name.
use vstd::prelude::*;
use crate::text::{str_contains, seq_contains};
use crate::util::{key_get, keys_unique, get_key, put_key, key_in};
use crate::world::item::{ItemTemplate, ItemType};

verus! {

/// The item register.
#[derive(Debug)]
pub struct ItemDaemon {
    pub items: Vec<ItemTemplate>,
}

/// The item's name or id holds the keyword.
pub open spec fn item_matches(t: ItemTemplate, keyword: Seq<char>) -> bool {
    seq_contains(t.name@, keyword) || seq_contains(t.id@, keyword)
}

impl ItemDaemon {
    /// One template per id.
    pub open spec fn wf(&self) -> bool {
        keys_unique(self.items@)
    }

    /// An empty register.
    pub fn new() -> (r: Self)
        ensures
            r.wf(),
            r.items@.len() == 0,
    {
        ItemDaemon { items: Vec::new() }
    }

    /// Adds a template, replacing the one with the same id.
    pub fn add_item(&mut self, item: ItemTemplate)
        requires
            old(self).wf(),
        ensures
            final(self).wf(),
            key_get(final(self).items@, item.id@) == Some(item),
            forall|k: Seq<char>| k != item.id@ ==> #[trigger] key_get(final(self).items@, k) == key_get(old(self).items@, k),
            final(self).items@.len() == old(self).items@.len() + if key_in(old(self).items@, item.id@) { 0int } else { 1int },
    {
        put_key(&mut self.items, item);
    }

    /// The template with the id.
    pub fn get_item(&self, item_id: &str) -> (r: Option<&ItemTemplate>)
        ensures
            r matches Some(t) ==> key_get(self.items@, item_id@) == Some(*t),
            r is None <==> key_get(self.items@, item_id@) is None,
    {
        get_key(&self.items, item_id)
    }

    /// Every template, in the register's order.
    pub fn get_all_items(&self) -> (r: Vec<&ItemTemplate>)
        ensures
            r@.map_values(|t: &ItemTemplate| *t) == self.items@,
    {
        let mut r: Vec<&ItemTemplate> = Vec::new();
        let mut i: usize = 0;
        while i < self.items.len()
            invariant
                i <= self.items@.len(),
                r@.map_values(|t: &ItemTemplate| *t) == self.items@.take(i as int),
            decreases self.items.len() - i,
        {
            let ghost r0 = r@.map_values(|t: &ItemTemplate| *t);
            r.push(&self.items[i]);
            assert(r@.map_values(|t: &ItemTemplate| *t) =~= r0.push(self.items@[i as int]));
            assert(self.items@.take(i + 1) =~= self.items@.take(i as int).push(self.items@[i as int]));
            i = i + 1;
        }
        assert(self.items@.take(i as int) =~= self.items@);
        r
    }

    /// The templates of a kind, in the register's order.
    pub fn get_items_by_type(&self, item_type: &ItemType) -> (r: Vec<&ItemTemplate>)
        ensures
            r@.map_values(|t: &ItemTemplate| *t) == self.items@.filter(|t: ItemTemplate| t.item_type == *item_type),
    {
        let mut r: Vec<&ItemTemplate> = Vec::new();
        let ghost s = self.items@;
        let mut i: usize = 0;
        while i < self.items.len()
            invariant
                s == self.items@,
                i <= s.len(),
                r@.map_values(|t: &ItemTemplate| *t) == s.take(i as int).filter(|t: ItemTemplate| t.item_type == *item_type),
            decreases self.items.len() - i,
        {
            let ghost prev = r@;
            proof {
                assert(s.take(i + 1) =~= s.take(i as int).push(s[i as int]));
                s.take(i as int).lemma_filter_push(s[i as int], |t: ItemTemplate| t.item_type == *item_type);
            }
            if self.items[i].item_type == *item_type {
                r.push(&self.items[i]);
                assert(r@.map_values(|t: &ItemTemplate| *t) =~= prev.map_values(|t: &ItemTemplate| *t).push(s[i as int]));
            }
            i = i + 1;
        }
        assert(s.take(i as int) =~= s);
        r
    }

    /// The templates whose level is within `[min_level, max_level]`, in the
    /// register's order.
    pub fn get_items_by_level(&self, min_level: i32, max_level: i32) -> (r: Vec<&ItemTemplate>)
        ensures
            r@.map_values(|t: &ItemTemplate| *t) == self.items@.filter(|t: ItemTemplate| min_level <= t.level <= max_level),
    {
        let mut r: Vec<&ItemTemplate> = Vec::new();
        let ghost s = self.items@;
        let mut i: usize = 0;
        while i < self.items.len()
            invariant
                s == self.items@,
                i <= s.len(),
                r@.map_values(|t: &ItemTemplate| *t) == s.take(i as int).filter(|t: ItemTemplate| min_level <= t.level <= max_level),
            decreases self.items.len() - i,
        {
            let ghost prev = r@;
            proof {
                assert(s.take(i + 1) =~= s.take(i as int).push(s[i as int]));
                s.take(i as int).lemma_filter_push(s[i as int], |t: ItemTemplate| min_level <= t.level <= max_level);
            }
            if self.items[i].level >= min_level && self.items[i].level <= max_level {
                r.push(&self.items[i]);
                assert(r@.map_values(|t: &ItemTemplate| *t) =~= prev.map_values(|t: &ItemTemplate| *t).push(s[i as int]));
            }
            i = i + 1;
        }
        assert(s.take(i as int) =~= s);
        r
    }

    /// The templates whose name or id holds the keyword, in the register's
    /// order.
    pub fn search_items(&self, keyword: &str) -> (r: Vec<&ItemTemplate>)
        ensures
            r@.map_values(|t: &ItemTemplate| *t) == self.items@.filter(|t: ItemTemplate| item_matches(t, keyword@)),
    {
        let mut r: Vec<&ItemTemplate> = Vec::new();
        let ghost s = self.items@;
        let mut i: usize = 0;
        while i < self.items.len()
            invariant
                s == self.items@,
                i <= s.len(),
                r@.map_values(|t: &ItemTemplate| *t) == s.take(i as int).filter(|t: ItemTemplate| item_matches(t, keyword@)),
            decreases self.items.len() - i,
        {
            let ghost prev = r@;
            proof {
                assert(s.take(i + 1) =~= s.take(i as int).push(s[i as int]));
                s.take(i as int).lemma_filter_push(s[i as int], |t: ItemTemplate| item_matches(t, keyword@));
            }
            if str_contains(self.items[i].name.as_str(), keyword) || str_contains(self.items[i].id.as_str(), keyword) {
                r.push(&self.items[i]);
                assert(r@.map_values(|t: &ItemTemplate| *t) =~= prev.map_values(|t: &ItemTemplate| *t).push(s[i as int]));
            }
            i = i + 1;
        }
        assert(s.take(i as int) =~= s);
        r
    }

    /// Loads the default items: there are none to load yet, so the register
    /// is left as it is.
    pub fn init_default_items(&mut self)
        ensures
            final(self).items@ == old(self).items@,
    {
    }
}

impl Default for ItemDaemon {
    fn default() -> (r: Self)
        ensures
            r.wf(),
            r.items@.len() == 0,
    {
        Self::new()
    }
}

} // verus!
