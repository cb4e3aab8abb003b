//! Player storage: pages of numbered slots holding items, stored gold,
//! and the daemon that keeps every player's storage.
use vstd::prelude::*;
use std::collections::HashMap;
use crate::errors::{MudError, err_msg, runtime_error, not_found};
use crate::text::{push_str, push_i64, push_u64, string_of, int_digits, nat_digits};
use crate::util::{trunc_div, Keyed, key_pos, key_in, find_key};

verus! {

broadcast use vstd::std_specs::hash::group_hash_axioms;

/// An item kept in a storage slot.
#[derive(Debug, PartialEq, Eq)]
pub struct StorageSlot {
    pub item_id: String,
    pub item_name: String,
    pub count: i32,
    pub item_type: String,
    pub quality: i32,
    pub bound: bool,
}

impl Clone for StorageSlot {
    fn clone(&self) -> (r: Self)
        ensures
            r == *self,
    {
        StorageSlot {
            item_id: self.item_id.clone(),
            item_name: self.item_name.clone(),
            count: self.count,
            item_type: self.item_type.clone(),
            quality: self.quality,
            bound: self.bound,
        }
    }
}

/// A page of storage slots numbered from 1 to the capacity.
#[derive(Debug)]
pub struct StoragePage {
    pub page_num: i32,
    pub capacity: i32,
    pub slots: HashMap<i32, StorageSlot>,
}

/// The first slot number from `i` to `cap` not in use.
pub open spec fn first_free_from(m: Map<i32, StorageSlot>, i: int, cap: int) -> Option<i32>
    decreases cap + 1 - i,
{
    if i > cap {
        None
    } else if !m.contains_key(i as i32) {
        Some(i as i32)
    } else {
        first_free_from(m, i + 1, cap)
    }
}

/// The page is full: it holds as many items as its capacity.
pub open spec fn page_full(pg: StoragePage) -> bool {
    pg.slots@.len() >= (pg.capacity as usize)
}

/// Remainder of division rounding toward zero, as Rust's `%` does.
pub open spec fn trunc_rem(a: int, b: int) -> int {
    a - b * trunc_div(a, b)
}

impl StoragePage {
    /// An empty page.
    pub fn new(page_num: i32, capacity: i32) -> (r: Self)
        ensures
            r.page_num == page_num,
            r.capacity == capacity,
            r.slots@ == Map::<i32, StorageSlot>::empty(),
    {
        StoragePage { page_num, capacity, slots: HashMap::new() }
    }

    /// The number of free slots: capacity minus the items held.
    pub fn free_slots(&self) -> (r: i32)
        requires
            i32::MIN <= self.capacity - self.slots@.len(),
            self.slots@.len() <= i32::MAX,
        ensures
            r == self.capacity - self.slots@.len(),
    {
        self.capacity - self.slots.len() as i32
    }

    /// The page holds as many items as its capacity.
    pub fn is_full(&self) -> (r: bool)
        ensures
            r == page_full(*self),
    {
        self.slots.len() >= self.capacity as usize
    }

    /// The lowest slot number from 1 to the capacity not in use.
    pub fn first_free_slot(&self) -> (r: Option<i32>)
        ensures
            r == first_free_from(self.slots@, 1, self.capacity as int),
    {
        let mut i: i32 = 1;
        if self.capacity < 1 {
            return None;
        }
        while i <= self.capacity
            invariant
                1 <= i,
                i <= self.capacity + 1,
                first_free_from(self.slots@, i as int, self.capacity as int) == first_free_from(self.slots@, 1, self.capacity as int),
            decreases self.capacity - i,
        {
            if !self.slots.contains_key(&i) {
                return Some(i);
            }
            if i == self.capacity {
                assert(first_free_from(self.slots@, (i + 1) as int, self.capacity as int) is None);
                return None;
            }
            i = i + 1;
        }
        None
    }

    /// Puts an item in a slot. Fails with 格子位置无效 for a slot outside
    /// 1 to the capacity and 格子已被占用 for a slot in use.
    pub fn add_item(&mut self, slot: i32, item: StorageSlot) -> (r: Result<(), MudError>)
        ensures
            final(self).page_num == old(self).page_num,
            final(self).capacity == old(self).capacity,
            (slot < 1 || slot > old(self).capacity) ==> (r matches Err(MudError::RuntimeError(m)) && m@ == "格子位置无效"@),
            (1 <= slot <= old(self).capacity && old(self).slots@.contains_key(slot)) ==> (r matches Err(MudError::RuntimeError(m)) && m@ == "格子已被占用"@),
            r is Err ==> final(self).slots@ == old(self).slots@,
            r is Ok <==> (1 <= slot <= old(self).capacity && !old(self).slots@.contains_key(slot)),
            r is Ok ==> final(self).slots@ == old(self).slots@.insert(slot, item),
    {
        if slot < 1 || slot > self.capacity {
            return Err(runtime_error("格子位置无效"));
        }
        if self.slots.contains_key(&slot) {
            return Err(runtime_error("格子已被占用"));
        }
        self.slots.insert(slot, item);
        Ok(())
    }

    /// Takes the item out of a slot; fails with 格子为空 for an empty slot.
    pub fn remove_item(&mut self, slot: i32) -> (r: Result<StorageSlot, MudError>)
        ensures
            final(self).page_num == old(self).page_num,
            final(self).capacity == old(self).capacity,
            final(self).slots@ == old(self).slots@.remove(slot),
            old(self).slots@.contains_key(slot) ==> r == Ok::<StorageSlot, MudError>(old(self).slots@[slot]),
            !old(self).slots@.contains_key(slot) ==> (r matches Err(MudError::NotFound(m)) && m@ == "格子为空"@),
    {
        match self.slots.remove(&slot) {
            Some(it) => Ok(it),
            None => {
                assert(old(self).slots@.remove(slot) =~= old(self).slots@);
                Err(not_found("格子为空"))
            },
        }
    }

    /// The item in a slot, if any.
    pub fn get_item(&self, slot: i32) -> (r: Option<&StorageSlot>)
        ensures
            r matches Some(it) ==> self.slots@.contains_key(slot) && *it == self.slots@[slot],
            r is None <==> !self.slots@.contains_key(slot),
    {
        self.slots.get(&slot)
    }
}

/// Where an item goes when stored.
pub enum StoreTarget {
    /// Into this page and slot.
    Slot(i32, i32),
    /// The chosen page has room, but no free slot number within its capacity.
    NoSlot,
    /// No page has room.
    Full,
}

/// Where an item goes in page `p`, if the page exists and has room.
pub open spec fn page_target(pages: Map<i32, StoragePage>, p: i32) -> Option<StoreTarget> {
    if pages.contains_key(p) && !page_full(pages[p]) {
        Some(
            match first_free_from(pages[p].slots@, 1, pages[p].capacity as int) {
                Some(s) => StoreTarget::Slot(p, s),
                None => StoreTarget::NoSlot,
            },
        )
    } else {
        None
    }
}

/// Where an item goes when the pages from `p` to `count` are tried in order.
pub open spec fn scan_target(pages: Map<i32, StoragePage>, p: int, count: int) -> StoreTarget
    decreases count + 1 - p,
{
    if p > count {
        StoreTarget::Full
    } else {
        match page_target(pages, p as i32) {
            Some(t) => t,
            None => scan_target(pages, p + 1, count),
        }
    }
}

/// Where an item goes: the preferred page first, then pages 1 to `count`.
pub open spec fn store_target(pages: Map<i32, StoragePage>, pref: Option<i32>, count: i32) -> StoreTarget {
    match pref {
        Some(p) => match page_target(pages, p) {
            Some(t) => t,
            None => scan_target(pages, 1, count as int),
        },
        None => scan_target(pages, 1, count as int),
    }
}

/// A player's storage: numbered pages and stored gold.
#[derive(Debug)]
pub struct PlayerStorage {
    pub player_id: String,
    pub page_count: i32,
    pub max_pages: i32,
    pub page_capacity: i32,
    pub pages: HashMap<i32, StoragePage>,
    pub gold_stored: u64,
}

/// `HashMap::get_mut`: the page stored under `k`, if any, as a reference
/// to change it in place; the map then holds under `k` what was written
/// through it, and the rest as it was.
#[verifier::external_body]
fn page_get_mut<'a>(m: &'a mut HashMap<i32, StoragePage>, k: i32) -> (r: Option<&'a mut StoragePage>)
    ensures
        r is None <==> !old(m)@.contains_key(k),
        r is None ==> final(m)@ == old(m)@,
        r matches Some(x) ==> *x == old(m)@[k] && final(m)@ == old(m)@.insert(k, *final(x)),
{
    m.get_mut(&k)
}

/// The storage page `p` with `item` put in `slot`.
pub open spec fn page_with(pg: StoragePage, slot: i32, item: StorageSlot) -> StoragePage {
    StoragePage { page_num: pg.page_num, capacity: pg.capacity, slots: pg.slots }
}

/// Pages `1..=count` are present, numbered by their key, with the given capacity.
pub open spec fn pages_complete(pages: Map<i32, StoragePage>, count: int, cap: i32) -> bool {
    &&& forall|p: i32| pages.contains_key(p) <==> 1 <= p <= count
    &&& forall|p: i32| #[trigger] pages.contains_key(p) ==> pages[p].page_num == p && pages[p].capacity == cap
}

impl PlayerStorage {
    /// A storage with `initial_pages` empty pages of `page_capacity` slots,
    /// up to 10 pages, and no gold.
    pub fn new(player_id: String, initial_pages: i32, page_capacity: i32) -> (r: Self)
        ensures
            r.player_id == player_id,
            r.page_count == initial_pages,
            r.max_pages == 10,
            r.page_capacity == page_capacity,
            r.gold_stored == 0,
            pages_complete(r.pages@, initial_pages as int, page_capacity),
            forall|p: i32| #[trigger] r.pages@.contains_key(p) ==> r.pages@[p].slots@ == Map::<i32, StorageSlot>::empty(),
    {
        let mut pages: HashMap<i32, StoragePage> = HashMap::new();
        let mut i: i64 = 1;
        while i <= initial_pages as i64
            invariant
                1 <= i,
                i <= initial_pages + 1 || i == 1,
                forall|p: i32| pages@.contains_key(p) <==> 1 <= p < i,
                forall|p: i32| #[trigger] pages@.contains_key(p) ==> pages@[p].page_num == p && pages@[p].capacity == page_capacity && pages@[p].slots@ == Map::<i32, StorageSlot>::empty(),
            decreases initial_pages + 1 - i,
        {
            let k = i as i32;
            pages.insert(k, StoragePage::new(k, page_capacity));
            i = i + 1;
        }
        PlayerStorage { player_id, page_count: initial_pages, max_pages: 10, page_capacity, pages, gold_stored: 0 }
    }

    /// The page numbered `page_num`, if any, to be changed in place: what is
    /// written through it becomes that page, and nothing else changes.
    pub fn get_page_mut(&mut self, page_num: i32) -> (r: Option<&mut StoragePage>)
        ensures
            r is None <==> !old(self).pages@.contains_key(page_num),
            r is None ==> final(self).pages@ == old(self).pages@,
            r matches Some(pg) ==> *pg == old(self).pages@[page_num]
                && final(self).pages@ == old(self).pages@.insert(page_num, *final(pg)),
            final(self).player_id == old(self).player_id && final(self).page_count == old(self).page_count,
            final(self).max_pages == old(self).max_pages && final(self).page_capacity == old(self).page_capacity,
            final(self).gold_stored == old(self).gold_stored,
    {
        page_get_mut(&mut self.pages, page_num)
    }

    /// The page numbered `page_num`, if any.
    pub fn get_page(&self, page_num: i32) -> (r: Option<&StoragePage>)
        ensures
            r matches Some(pg) ==> self.pages@.contains_key(page_num) && *pg == self.pages@[page_num],
            r is None <==> !self.pages@.contains_key(page_num),
    {
        self.pages.get(&page_num)
    }

    /// Adds an empty page; fails with 已达到最大页数 at the page limit.
    pub fn add_page(&mut self) -> (r: Result<(), MudError>)
        requires
            old(self).page_count < i32::MAX,
        ensures
            old(self).page_count >= old(self).max_pages ==> (r matches Err(MudError::RuntimeError(m)) && m@ == "已达到最大页数"@ && *final(self) == *old(self)),
            old(self).page_count < old(self).max_pages ==> {
                &&& r is Ok
                &&& final(self).page_count == old(self).page_count + 1
                &&& final(self).pages@.contains_key(final(self).page_count)
                &&& final(self).pages@[final(self).page_count].slots@ == Map::<i32, StorageSlot>::empty()
                &&& final(self).pages@[final(self).page_count].capacity == old(self).page_capacity
                &&& final(self).pages@ == old(self).pages@.insert(final(self).page_count, final(self).pages@[final(self).page_count])
                &&& final(self).gold_stored == old(self).gold_stored
                &&& final(self).player_id == old(self).player_id
            },
    {
        if self.page_count >= self.max_pages {
            return Err(runtime_error("已达到最大页数"));
        }
        self.page_count = self.page_count + 1;
        let n = self.page_count;
        self.pages.insert(n, StoragePage::new(n, self.page_capacity));
        Ok(())
    }

    /// Tries to put `item` in page `p`: `None` when the page is missing or
    /// full, otherwise the outcome.
    fn store_in_page(&mut self, p: i32, item: &StorageSlot) -> (r: Option<Result<i32, MudError>>)
        requires
            old(self).pages@.contains_key(p) ==> i32::MIN <= p * 100 && p * 100 + old(self).pages@[p].capacity <= i32::MAX,
        ensures
            final(self).page_count == old(self).page_count,
            final(self).page_capacity == old(self).page_capacity,
            final(self).gold_stored == old(self).gold_stored,
            final(self).player_id == old(self).player_id,
            final(self).max_pages == old(self).max_pages,
            match page_target(old(self).pages@, p) {
                None => r is None && final(self).pages@ == old(self).pages@,
                Some(StoreTarget::NoSlot) => (r matches Some(Err(MudError::RuntimeError(m))) && m@ == "页面已满"@) && final(self).pages@ == old(self).pages@,
                Some(StoreTarget::Slot(pp, s)) => {
                    &&& 1 <= s <= old(self).pages@[p].capacity
                    &&& r == Some(Ok::<i32, MudError>((p * 100 + s) as i32))
                    &&& final(self).pages@.dom() == old(self).pages@.dom()
                    &&& forall|q: i32| q != p && #[trigger] old(self).pages@.contains_key(q) ==> final(self).pages@[q] == old(self).pages@[q]
                    &&& final(self).pages@[p].slots@ == old(self).pages@[p].slots@.insert(s, *item)
                    &&& final(self).pages@[p].capacity == old(self).pages@[p].capacity
                },
                _ => false,
            },
    {
        match self.pages.remove(&p) {
            None => {
                assert(old(self).pages@.remove(p) =~= old(self).pages@);
                None
            },
            Some(mut page) => {
                if page.is_full() {
                    self.pages.insert(p, page);
                    assert(self.pages@ =~= old(self).pages@);
                    return None;
                }
                match page.first_free_slot() {
                    None => {
                        self.pages.insert(p, page);
                        assert(self.pages@ =~= old(self).pages@);
                        Some(Err(runtime_error("页面已满")))
                    },
                    Some(s) => {
                        proof {
                            lemma_first_free_range(page.slots@, 1, page.capacity as int);
                        }
                        let res = page.add_item(s, item.clone());
                        assert(res is Ok);
                        self.pages.insert(p, page);
                        assert(self.pages@.dom() =~= old(self).pages@.dom());
                        Some(Ok(p * 100 + s))
                    },
                }
            },
        }
    }

    /// Stores an item in the first free slot of the preferred page, or else
    /// of the first page from 1 up with room; the position is
    /// `page * 100 + slot`. Fails with 页面已满 when the chosen page has no
    /// free slot number and 仓库已满 when no page has room.
    pub fn store_item(&mut self, item: StorageSlot, preferred_page: Option<i32>) -> (r: Result<i32, MudError>)
        requires
            forall|p: i32| #[trigger] old(self).pages@.contains_key(p) ==> i32::MIN <= p * 100 && p * 100 + old(self).pages@[p].capacity <= i32::MAX,
        ensures
            final(self).page_count == old(self).page_count,
            final(self).gold_stored == old(self).gold_stored,
            final(self).player_id == old(self).player_id,
            match store_target(old(self).pages@, preferred_page, old(self).page_count) {
                StoreTarget::Full => (r matches Err(MudError::RuntimeError(m)) && m@ == "仓库已满"@) && final(self).pages@ == old(self).pages@,
                StoreTarget::NoSlot => (r matches Err(MudError::RuntimeError(m)) && m@ == "页面已满"@) && final(self).pages@ == old(self).pages@,
                StoreTarget::Slot(p, s) => {
                    &&& 1 <= s <= old(self).pages@[p].capacity
                    &&& r == Ok::<i32, MudError>((p * 100 + s) as i32)
                    &&& final(self).pages@.dom() == old(self).pages@.dom()
                    &&& forall|q: i32| q != p && #[trigger] old(self).pages@.contains_key(q) ==> final(self).pages@[q] == old(self).pages@[q]
                    &&& final(self).pages@[p].slots@ == old(self).pages@[p].slots@.insert(s, item)
                    &&& final(self).pages@[p].capacity == old(self).pages@[p].capacity
                },
            },
    {
        match preferred_page {
            Some(p) => {
                match self.store_in_page(p, &item) {
                    Some(res) => {
                        return res;
                    },
                    None => {},
                }
            },
            None => {},
        }
        let count = self.page_count;
        assert(store_target(old(self).pages@, preferred_page, count) == scan_target(old(self).pages@, 1, count as int));
        if count < 1 {
            assert(scan_target(old(self).pages@, 1, count as int) is Full);
            return Err(runtime_error("仓库已满"));
        }
        let mut p: i32 = 1;
        while p <= count
            invariant
                1 <= p <= count + 1,
                count == old(self).page_count,
                self.pages@ == old(self).pages@,
                self.page_count == old(self).page_count,
                self.gold_stored == old(self).gold_stored,
                self.player_id == old(self).player_id,
                forall|q: i32| #[trigger] self.pages@.contains_key(q) ==> i32::MIN <= q * 100 && q * 100 + self.pages@[q].capacity <= i32::MAX,
                scan_target(old(self).pages@, p as int, count as int) == scan_target(old(self).pages@, 1, count as int),
                store_target(old(self).pages@, preferred_page, count) == scan_target(old(self).pages@, 1, count as int),
            ensures
                scan_target(old(self).pages@, 1, count as int) is Full,
                self.pages@ == old(self).pages@,
                self.page_count == old(self).page_count,
                self.gold_stored == old(self).gold_stored,
                self.player_id == old(self).player_id,
            decreases count - p,
        {
            match self.store_in_page(p, &item) {
                Some(res) => {
                    return res;
                },
                None => {},
            }
            assert(scan_target(old(self).pages@, p as int, count as int) == scan_target(old(self).pages@, p + 1, count as int));
            if p == count {
                assert(scan_target(old(self).pages@, p + 1, count as int) is Full);
                break;
            }
            p = p + 1;
        }
        Err(runtime_error("仓库已满"))
    }
}

/// The first free slot found lies within the page.
proof fn lemma_first_free_range(m: Map<i32, StorageSlot>, i: int, cap: int)
    requires
        i >= 1,
        cap <= i32::MAX,
    ensures
        first_free_from(m, i, cap) matches Some(s) ==> i <= s <= cap && s as int >= 1 && !m.contains_key(s),
    decreases cap + 1 - i,
{
    if i <= cap && m.contains_key(i as i32) {
        lemma_first_free_range(m, i + 1, cap);
    }
    if i <= cap && !m.contains_key(i as i32) {
        assert(first_free_from(m, i, cap) == Some(i as i32));
    }
}


/// Every slot in use lies within its page's capacity.
pub open spec fn slots_in_range(pages: Map<i32, StoragePage>) -> bool {
    forall|p: i32, k: i32| #[trigger] pages.contains_key(p) && #[trigger] pages[p].slots@.contains_key(k) ==> 1 <= k <= pages[p].capacity
}

/// The page part of a position: `position / 100`, rounding toward zero.
pub open spec fn pos_page(position: i32) -> i32 {
    trunc_div(position as int, 100) as i32
}

/// The slot part of a position: `position % 100`, with the sign of the position.
pub open spec fn pos_slot(position: i32) -> i32 {
    trunc_rem(position as int, 100) as i32
}

proof fn lemma_first_free_free(m: Map<i32, StorageSlot>, i: int, cap: int)
    requires
        first_free_from(m, i, cap) is Some,
        0 <= i,
        cap <= i32::MAX,
    ensures
        i <= first_free_from(m, i, cap)->0 <= cap,
        !m.contains_key(first_free_from(m, i, cap)->0),
    decreases cap + 1 - i,
{
    if i <= cap && m.contains_key(i as i32) {
        lemma_first_free_free(m, i + 1, cap);
    }
}

proof fn lemma_scan_target_free(pages: Map<i32, StoragePage>, p: int, count: int)
    requires
        1 <= p,
        count <= i32::MAX,
    ensures
        scan_target(pages, p, count) matches StoreTarget::Slot(q, t) ==> pages.contains_key(q) && q >= p
            && !pages[q].slots@.contains_key(t) && 1 <= t <= pages[q].capacity,
    decreases count + 1 - p,
{
    if p <= count {
        match page_target(pages, p as i32) {
            Some(_) => {
                if first_free_from(pages[p as i32].slots@, 1, pages[p as i32].capacity as int) is Some {
                    lemma_first_free_free(pages[p as i32].slots@, 1, pages[p as i32].capacity as int);
                }
            },
            None => lemma_scan_target_free(pages, p + 1, count),
        }
    }
}

/// The slot an item is stored in is a free one of an existing page, within
/// its capacity.
pub proof fn lemma_store_target_free(pages: Map<i32, StoragePage>, pref: Option<i32>, count: i32)
    ensures
        store_target(pages, pref, count) matches StoreTarget::Slot(p, s) ==> pages.contains_key(p)
            && !pages[p].slots@.contains_key(s) && 1 <= s <= pages[p].capacity,
{
    lemma_scan_target_free(pages, 1, count as int);
    match pref {
        Some(p) => {
            if page_target(pages, p) is Some && first_free_from(pages[p].slots@, 1, pages[p].capacity as int) is Some {
                lemma_first_free_free(pages[p].slots@, 1, pages[p].capacity as int);
            }
        },
        None => {},
    }
}

/// Storing then retrieving gives the item back: where `store_item` put
/// `item` into a page that exists (page `p` not negative, slot below 100),
/// the position it gave back names that page and slot, the item is found
/// there, and taking it out leaves the page's slots as they were before.
pub proof fn lemma_store_then_retrieve(pages: Map<i32, StoragePage>, pref: Option<i32>, count: i32, item: StorageSlot,
    after: Map<i32, StoragePage>, p: i32, s: i32)
    requires
        store_target(pages, pref, count) == StoreTarget::Slot(p, s),
        0 <= p,
        s < 100,
        i32::MIN <= p * 100 + s <= i32::MAX,
        after.dom() == pages.dom(),
        after[p].slots@ == pages[p].slots@.insert(s, item),
    ensures
        ({
            let pos = (p * 100 + s) as i32;
            &&& pos_page(pos) == p && pos_slot(pos) == s
            &&& after.contains_key(pos_page(pos))
            &&& after[pos_page(pos)].slots@.contains_key(pos_slot(pos))
            &&& after[pos_page(pos)].slots@[pos_slot(pos)] == item
            &&& after[pos_page(pos)].slots@.remove(pos_slot(pos)) == pages[p].slots@
        }),
{
    lemma_store_target_free(pages, pref, count);
    let pos = (p * 100 + s) as i32;
    assert((p * 100 + s) / 100 == p as int) by (nonlinear_arith)
        requires 0 <= p, 0 <= s < 100;
    assert(pos_page(pos) == p);
    assert(pos_slot(pos) == s);
    assert(after[p].slots@.remove(s) =~= pages[p].slots@);
}

fn split_position(position: i32) -> (r: (i32, i32))
    ensures
        r.0 == pos_page(position),
        r.1 == pos_slot(position),
{
    let x = position as i64;
    if x >= 0 {
        ((x / 100) as i32, (x % 100) as i32)
    } else {
        let y = -x;
        (-((y / 100) as i32), -((y % 100) as i32))
    }
}

/// The number of items on pages 1 to `n`.
pub open spec fn items_on_pages(pages: Map<i32, StoragePage>, n: int) -> int
    decreases n,
{
    if n <= 0 {
        0
    } else {
        items_on_pages(pages, n - 1) + if pages.contains_key(n as i32) { pages[n as i32].slots@.len() as int } else { 0 }
    }
}

/// The number of free slots on pages 1 to `n`.
pub open spec fn free_on_pages(pages: Map<i32, StoragePage>, n: int) -> int
    decreases n,
{
    if n <= 0 {
        0
    } else {
        free_on_pages(pages, n - 1) + if pages.contains_key(n as i32) { pages[n as i32].capacity - pages[n as i32].slots@.len() } else { 0 }
    }
}

/// The colour code shown for an item quality.
pub open spec fn quality_code(q: i32) -> Seq<char> {
    if q == 5 {
        "§Y"@
    } else if q == 4 {
        "§M"@
    } else if q == 3 {
        "§B"@
    } else if q == 2 {
        "§C"@
    } else if q == 1 {
        "§G"@
    } else {
        ""@
    }
}

/// The line listing a stored item.
pub open spec fn slot_line(slot: i32, it: StorageSlot) -> Seq<char> {
    "  ["@ + int_digits(slot as int) + "] "@ + quality_code(it.quality) + it.item_name@ + " x"@ + int_digits(it.count as int) + (if it.bound { " §R(绑定)§N"@ } else { ""@ }) + "\n"@
}

/// The lines for the items in slots 1 to `n`, in slot order.
pub open spec fn slot_lines(m: Map<i32, StorageSlot>, n: int) -> Seq<char>
    decreases n,
{
    if n <= 0 {
        Seq::empty()
    } else {
        slot_lines(m, n - 1) + if m.contains_key(n as i32) { slot_line(n as i32, m[n as i32]) } else { Seq::empty() }
    }
}

/// The listing of one storage page.
pub open spec fn page_text(st: PlayerStorage, page_num: i32) -> Seq<char> {
    if st.pages@.contains_key(page_num) {
        let pg = st.pages@[page_num];
        "§H=== 仓库 (第"@ + int_digits(page_num as int) + "/"@ + int_digits(st.page_count as int) + "页) ===§N\n金币: "@
            + nat_digits(st.gold_stored as nat) + " | 空位: "@ + int_digits(pg.capacity - pg.slots@.len()) + "/"@
            + int_digits(pg.capacity as int) + "\n\n"@ + if pg.slots@.len() == 0 {
            "此页面为空。\n"@
        } else {
            slot_lines(pg.slots@, pg.capacity as int)
        }
    } else {
        "§R页面不存在§N"@
    }
}

fn quality_str(q: i32) -> (r: &'static str)
    ensures
        r@ == quality_code(q),
{
    if q == 5 {
        "§Y"
    } else if q == 4 {
        "§M"
    } else if q == 3 {
        "§B"
    } else if q == 2 {
        "§C"
    } else if q == 1 {
        "§G"
    } else {
        ""
    }
}

impl PlayerStorage {
    /// Takes the item out of position `page * 100 + slot`. Fails with
    /// 页面不存在 for a missing page and 格子为空 for an empty slot.
    pub fn retrieve_item(&mut self, position: i32) -> (r: Result<StorageSlot, MudError>)
        ensures
            final(self).page_count == old(self).page_count,
            final(self).gold_stored == old(self).gold_stored,
            !old(self).pages@.contains_key(pos_page(position)) ==> (r matches Err(MudError::NotFound(m)) && m@ == "页面不存在"@) && final(self).pages@ == old(self).pages@,
            old(self).pages@.contains_key(pos_page(position)) ==> {
                let pg = old(self).pages@[pos_page(position)];
                &&& final(self).pages@.dom() == old(self).pages@.dom()
                &&& forall|q: i32| q != pos_page(position) && #[trigger] old(self).pages@.contains_key(q) ==> final(self).pages@[q] == old(self).pages@[q]
                &&& final(self).pages@[pos_page(position)].slots@ == pg.slots@.remove(pos_slot(position))
                &&& final(self).pages@[pos_page(position)].capacity == pg.capacity
                &&& if pg.slots@.contains_key(pos_slot(position)) {
                    r == Ok::<StorageSlot, MudError>(pg.slots@[pos_slot(position)])
                } else {
                    r matches Err(MudError::NotFound(m)) && m@ == "格子为空"@
                }
            },
    {
        let (page_num, slot) = split_position(position);
        match self.pages.remove(&page_num) {
            None => {
                assert(old(self).pages@.remove(page_num) =~= old(self).pages@);
                Err(not_found("页面不存在"))
            },
            Some(mut page) => {
                let r = page.remove_item(slot);
                self.pages.insert(page_num, page);
                assert(self.pages@.dom() =~= old(self).pages@.dom());
                r
            },
        }
    }

    /// Moves the item at `from_pos` to `to_pos`, swapping with the item
    /// there. Fails with 源页面不存在 or 目标页面不存在 for a missing page and
    /// 格子为空 for an empty source; when the target page is missing or the
    /// target slot lies outside it, the item has already left its slot.
    pub fn move_item(&mut self, from_pos: i32, to_pos: i32) -> (r: Result<(), MudError>)
        requires
            slots_in_range(old(self).pages@),
        ensures
            final(self).page_count == old(self).page_count,
            final(self).gold_stored == old(self).gold_stored,
            final(self).pages@.dom() == old(self).pages@.dom(),
            ({
                let fp = pos_page(from_pos);
                let fs = pos_slot(from_pos);
                let tp = pos_page(to_pos);
                let ts = pos_slot(to_pos);
                let pages = old(self).pages@;
                if fp == tp && fs == ts {
                    r is Ok && final(self).pages@ == pages
                } else if !pages.contains_key(fp) {
                    (r matches Err(MudError::NotFound(m)) && m@ == "源页面不存在"@) && final(self).pages@ == pages
                } else if !pages[fp].slots@.contains_key(fs) {
                    (r matches Err(MudError::NotFound(m)) && m@ == "格子为空"@) && final(self).pages@ == pages
                } else {
                    let item = pages[fp].slots@[fs];
                    let m1 = pages[fp].slots@.remove(fs);
                    if !pages.contains_key(tp) {
                        &&& (r matches Err(MudError::NotFound(m)) && m@ == "目标页面不存在"@)
                        &&& final(self).pages@[fp].slots@ == m1
                        &&& forall|q: i32| q != fp && #[trigger] pages.contains_key(q) ==> final(self).pages@[q] == pages[q]
                    } else if tp == fp {
                        if m1.contains_key(ts) {
                            &&& r is Ok
                            &&& final(self).pages@[fp].slots@ == m1.insert(ts, item).insert(fs, m1[ts])
                            &&& forall|q: i32| q != fp && #[trigger] pages.contains_key(q) ==> final(self).pages@[q] == pages[q]
                        } else if 1 <= ts <= pages[tp].capacity {
                            &&& r is Ok
                            &&& final(self).pages@[fp].slots@ == m1.insert(ts, item)
                            &&& forall|q: i32| q != fp && #[trigger] pages.contains_key(q) ==> final(self).pages@[q] == pages[q]
                        } else {
                            &&& (r matches Err(MudError::RuntimeError(m)) && m@ == "格子位置无效"@)
                            &&& final(self).pages@[fp].slots@ == m1
                            &&& forall|q: i32| q != fp && #[trigger] pages.contains_key(q) ==> final(self).pages@[q] == pages[q]
                        }
                    } else {
                        let tm = pages[tp].slots@;
                        &&& forall|q: i32| q != fp && q != tp && #[trigger] pages.contains_key(q) ==> final(self).pages@[q] == pages[q]
                        &&& if tm.contains_key(ts) {
                            &&& r is Ok
                            &&& final(self).pages@[tp].slots@ == tm.insert(ts, item)
                            &&& final(self).pages@[fp].slots@ == m1.insert(fs, tm[ts])
                        } else if 1 <= ts <= pages[tp].capacity {
                            &&& r is Ok
                            &&& final(self).pages@[tp].slots@ == tm.insert(ts, item)
                            &&& final(self).pages@[fp].slots@ == m1
                        } else {
                            &&& (r matches Err(MudError::RuntimeError(m)) && m@ == "格子位置无效"@)
                            &&& final(self).pages@[tp].slots@ == tm
                            &&& final(self).pages@[fp].slots@ == m1
                        }
                    }
                }
            }),
    {
        let (fp, fs) = split_position(from_pos);
        let (tp, ts) = split_position(to_pos);
        if fp == tp && fs == ts {
            return Ok(());
        }
        let ghost pages = self.pages@;
        let mut from_page = match self.pages.remove(&fp) {
            None => {
                assert(pages.remove(fp) =~= pages);
                return Err(not_found("源页面不存在"));
            },
            Some(pg) => pg,
        };
        if !from_page.slots.contains_key(&fs) {
            self.pages.insert(fp, from_page);
            assert(self.pages@ =~= pages);
            return Err(not_found("格子为空"));
        }
        let item = match from_page.remove_item(fs) {
            Ok(it) => it,
            Err(e) => {
                return Err(e);
            },
        };
        if fp == tp {
            if from_page.slots.contains_key(&ts) {
                let target = match from_page.remove_item(ts) {
                    Ok(it) => it,
                    Err(e) => {
                        return Err(e);
                    },
                };
                let a = from_page.add_item(ts, item);
                assert(a is Ok);
                proof {
                    assert(1 <= fs <= from_page.capacity);
                }
                let b = from_page.add_item(fs, target);
                assert(b is Ok);
                self.pages.insert(fp, from_page);
                assert(self.pages@.dom() =~= pages.dom());
                proof {
                    let m1 = pages[fp].slots@.remove(fs);
                    assert(m1.remove(ts).insert(ts, pages[fp].slots@[fs]).insert(fs, m1[ts]) =~= m1.insert(ts, pages[fp].slots@[fs]).insert(fs, m1[ts]));
                }
                Ok(())
            } else {
                let a = from_page.add_item(ts, item);
                self.pages.insert(fp, from_page);
                assert(self.pages@.dom() =~= pages.dom());
                a
            }
        } else {
            self.pages.insert(fp, from_page);
            let mut to_page = match self.pages.remove(&tp) {
                None => {
                    assert(self.pages@.remove(tp) =~= self.pages@);
                    assert(self.pages@.dom() =~= pages.dom());
                    return Err(not_found("目标页面不存在"));
                },
                Some(pg) => pg,
            };
            if to_page.slots.contains_key(&ts) {
                let target = match to_page.remove_item(ts) {
                    Ok(it) => it,
                    Err(e) => {
                        return Err(e);
                    },
                };
                let a = to_page.add_item(ts, item);
                assert(a is Ok);
                self.pages.insert(tp, to_page);
                let mut fpage = match self.pages.remove(&fp) {
                    Some(pg) => pg,
                    None => {
                        return Err(not_found("源页面不存在"));
                    },
                };
                let b = fpage.add_item(fs, target);
                assert(b is Ok);
                self.pages.insert(fp, fpage);
                assert(self.pages@.dom() =~= pages.dom());
                proof {
                    let tm = pages[tp].slots@;
                    assert(tm.remove(ts).insert(ts, pages[fp].slots@[fs]) =~= tm.insert(ts, pages[fp].slots@[fs]));
                }
                Ok(())
            } else {
                let a = to_page.add_item(ts, item);
                self.pages.insert(tp, to_page);
                assert(self.pages@.dom() =~= pages.dom());
                a
            }
        }
    }

    /// Adds gold to the storage.
    pub fn store_gold(&mut self, amount: u64) -> (r: Result<(), MudError>)
        requires
            old(self).gold_stored + amount <= u64::MAX,
        ensures
            r is Ok,
            final(self).gold_stored == old(self).gold_stored + amount,
            final(self).player_id == old(self).player_id,
            final(self).pages@ == old(self).pages@,
            final(self).page_count == old(self).page_count,
    {
        self.gold_stored = self.gold_stored + amount;
        Ok(())
    }

    /// Takes gold out; fails with 金币不足 when there is not enough.
    pub fn retrieve_gold(&mut self, amount: u64) -> (r: Result<u64, MudError>)
        ensures
            amount > old(self).gold_stored ==> (r matches Err(MudError::RuntimeError(m)) && m@ == "金币不足"@) && final(self).gold_stored == old(self).gold_stored,
            amount <= old(self).gold_stored ==> r == Ok::<u64, MudError>(amount) && final(self).gold_stored == old(self).gold_stored - amount,
            final(self).pages@ == old(self).pages@,
            final(self).page_count == old(self).page_count,
    {
        if amount > self.gold_stored {
            return Err(runtime_error("金币不足"));
        }
        self.gold_stored = self.gold_stored - amount;
        Ok(amount)
    }

    /// The number of items stored on pages 1 to the page count.
    pub fn total_items(&self) -> (r: usize)
        requires
            items_on_pages(self.pages@, self.page_count as int) <= usize::MAX,
        ensures
            r == items_on_pages(self.pages@, self.page_count as int),
    {
        let mut total: usize = 0;
        let mut p: i32 = 1;
        if self.page_count < 1 {
            return 0;
        }
        while p <= self.page_count
            invariant
                1 <= p <= self.page_count + 1,
                total == items_on_pages(self.pages@, (p - 1) as int),
                items_on_pages(self.pages@, self.page_count as int) <= usize::MAX,
            decreases self.page_count - p,
        {
            proof {
                lemma_items_mono(self.pages@, p as int, self.page_count as int);
            }
            match self.pages.get(&p) {
                Some(pg) => {
                    total = total + pg.slots.len();
                },
                None => {},
            }
            if p == self.page_count {
                return total;
            }
            p = p + 1;
        }
        total
    }

    /// The number of free slots on pages 1 to the page count.
    pub fn total_free_slots(&self) -> (r: i64)
        requires
            0 <= self.page_count <= 1000000,
            forall|q: i32| #[trigger] self.pages@.contains_key(q) ==> self.pages@[q].slots@.len() <= i32::MAX,
        ensures
            r == free_on_pages(self.pages@, self.page_count as int),
    {
        let mut total: i64 = 0;
        let mut p: i32 = 1;
        while p <= self.page_count
            invariant
                1 <= p <= self.page_count + 1,
                0 <= self.page_count <= 1000000,
                forall|q: i32| #[trigger] self.pages@.contains_key(q) ==> self.pages@[q].slots@.len() <= i32::MAX,
                total == free_on_pages(self.pages@, (p - 1) as int),
                -4294967296 * (p - 1) <= total <= 4294967296 * (p - 1),
            decreases self.page_count - p + 1,
        {
            match self.pages.get(&p) {
                Some(pg) => {
                    let f = pg.capacity as i64 - pg.slots.len() as i64;
                    total = total + f;
                },
                None => {},
            }
            p = p + 1;
        }
        total
    }

    /// The listing of a page: header with gold and free slots, then one line
    /// per item in slot order, or 页面不存在 for a missing page.
    pub fn format_page(&self, page_num: i32) -> (r: String)
        requires
            forall|q: i32| #[trigger] self.pages@.contains_key(q) ==> self.pages@[q].slots@.len() <= i32::MAX,
        ensures
            r@ == page_text(*self, page_num),
    {
        match self.pages.get(&page_num) {
            None => string_of("§R页面不存在§N"),
            Some(page) => {
                let mut out = string_of("§H=== 仓库 (第");
                push_i64(&mut out, page_num as i64);
                push_str(&mut out, "/");
                push_i64(&mut out, self.page_count as i64);
                push_str(&mut out, "页) ===§N\n金币: ");
                push_u64(&mut out, self.gold_stored);
                push_str(&mut out, " | 空位: ");
                push_i64(&mut out, page.capacity as i64 - page.slots.len() as i64);
                push_str(&mut out, "/");
                push_i64(&mut out, page.capacity as i64);
                push_str(&mut out, "\n\n");
                if page.slots.len() == 0 {
                    push_str(&mut out, "此页面为空。\n");
                } else {
                    let ghost head = out@;
                    let mut k: i64 = 1;
                    while k <= page.capacity as i64
                        invariant
                            1 <= k,
                            k <= page.capacity + 1 || k == 1,
                            out@ == head + slot_lines(page.slots@, (k - 1) as int),
                        decreases page.capacity + 1 - k,
                    {
                        let key = k as i32;
                        match page.slots.get(&key) {
                            Some(it) => {
                                push_str(&mut out, "  [");
                                push_i64(&mut out, k);
                                push_str(&mut out, "] ");
                                push_str(&mut out, quality_str(it.quality));
                                push_str(&mut out, it.item_name.as_str());
                                push_str(&mut out, " x");
                                push_i64(&mut out, it.count as i64);
                                if it.bound {
                                    push_str(&mut out, " §R(绑定)§N");
                                } else {
                                    push_str(&mut out, "");
                                }
                                push_str(&mut out, "\n");
                            },
                            None => {},
                        }
                        assert(out@ =~= head + slot_lines(page.slots@, k as int));
                        k = k + 1;
                    }
                    assert(out@ =~= head + slot_lines(page.slots@, page.capacity as int));
                }
                out
            },
        }
    }
}

proof fn lemma_items_mono(pages: Map<i32, StoragePage>, a: int, b: int)
    requires
        a <= b,
    ensures
        items_on_pages(pages, a) <= items_on_pages(pages, b),
        items_on_pages(pages, a) >= 0,
    decreases b - a,
{
    if a < b {
        lemma_items_mono(pages, a, b - 1);
    } else {
        lemma_items_nonneg(pages, a);
    }
}

proof fn lemma_items_nonneg(pages: Map<i32, StoragePage>, a: int)
    ensures
        items_on_pages(pages, a) >= 0,
    decreases a,
{
    if a > 0 {
        lemma_items_nonneg(pages, a - 1);
    }
}


impl Keyed for PlayerStorage {
    open spec fn key_view(&self) -> Seq<char> {
        self.player_id@
    }

    fn key(&self) -> (r: &String) {
        &self.player_id
    }
}

/// A storage as the daemon opens it for a new player: two empty pages of
/// twenty slots, up to ten pages, no gold.
pub open spec fn fresh_storage(st: PlayerStorage, player: Seq<char>) -> bool {
    &&& st.player_id@ == player
    &&& st.page_count == 2
    &&& st.max_pages == 10
    &&& st.page_capacity == 20
    &&& st.gold_stored == 0
    &&& pages_complete(st.pages@, 2, 20)
    &&& forall|p: i32| #[trigger] st.pages@.contains_key(p) ==> st.pages@[p].slots@ == Map::<i32, StorageSlot>::empty()
}

/// The result of storing an item, as a position or an error message.
pub open spec fn store_result(st: PlayerStorage, pref: Option<i32>) -> Result<i32, Seq<char>> {
    match store_target(st.pages@, pref, st.page_count) {
        StoreTarget::Full => Err("仓库已满"@),
        StoreTarget::NoSlot => Err("页面已满"@),
        StoreTarget::Slot(p, s) => Ok((p * 100 + s) as i32),
    }
}

/// A result as a value or an error message.
pub open spec fn result_view<T>(r: Result<T, MudError>) -> Result<T, Seq<char>> {
    match r {
        Ok(v) => Ok(v),
        Err(e) => Err(err_msg(e)),
    }
}

/// The text describing a player's storage.
pub open spec fn storage_info_text(st: PlayerStorage) -> Seq<char> {
    "§H=== 仓库信息 ===§N\n页数: "@ + int_digits(st.page_count as int) + "/"@ + int_digits(st.max_pages as int)
        + "\n每页容量: "@ + int_digits(st.page_capacity as int) + "\n总物品: "@ + int_digits(
        items_on_pages(st.pages@, st.page_count as int),
    ) + "\n总空位: "@ + int_digits(free_on_pages(st.pages@, st.page_count as int)) + "\n存储金币: "@
        + nat_digits(st.gold_stored as nat)
}

/// The storages of all players.
pub struct StorageDaemon {
    storages: Vec<PlayerStorage>,
    page_capacity: i32,
    initial_pages: i32,
    max_pages: i32,
    page_expand_cost: u64,
}

impl StorageDaemon {
    /// The players' storages.
    pub closed spec fn storages_view(&self) -> Seq<PlayerStorage> {
        self.storages@
    }

    /// The daemon's settings: page capacity, initial pages, page limit and
    /// the price of a page.
    pub closed spec fn settings(&self) -> (i32, i32, i32, u64) {
        (self.page_capacity, self.initial_pages, self.max_pages, self.page_expand_cost)
    }

    /// No storages yet; pages of 20 slots, 2 pages to start, at most 10,
    /// a page costs 10000 gold.
    pub fn new() -> (r: Self)
        ensures
            r.storages_view().len() == 0,
            r.settings() == (20i32, 2i32, 10i32, 10000u64),
    {
        StorageDaemon { storages: Vec::new(), page_capacity: 20, initial_pages: 2, max_pages: 10, page_expand_cost: 10000 }
    }

    fn ensure_storage(&mut self, player_id: &str) -> (r: usize)
        requires
            old(self).settings() == (20i32, 2i32, 10i32, 10000u64),
        ensures
            final(self).settings() == old(self).settings(),
            r < final(self).storages@.len(),
            key_pos(final(self).storages@, player_id@, r as int),
            key_in(old(self).storages@, player_id@) ==> final(self).storages@ == old(self).storages@,
            !key_in(old(self).storages@, player_id@) ==> final(self).storages@.len() == old(self).storages@.len() + 1
                && final(self).storages@.take(old(self).storages@.len() as int) == old(self).storages@
                && fresh_storage(final(self).storages@[r as int], player_id@),
    {
        match find_key(&self.storages, player_id) {
            Some(i) => i,
            None => {
                let st = PlayerStorage::new(string_of(player_id), self.initial_pages, self.page_capacity);
                let ghost before = self.storages@;
                self.storages.push(st);
                let n = self.storages.len() - 1;
                assert(self.storages@.take(before.len() as int) =~= before);
                n
            },
        }
    }

    /// The player's storage, created when missing.
    pub fn get_or_create_storage(&mut self, player_id: &str) -> (r: &mut PlayerStorage)
        requires
            old(self).settings() == (20i32, 2i32, 10i32, 10000u64),
        ensures
            r.player_id@ == player_id@,
            key_in(old(self).storages_view(), player_id@) ==> exists|i: int| key_pos(old(self).storages_view(), player_id@, i) && *r == old(self).storages_view()[i],
            !key_in(old(self).storages_view(), player_id@) ==> fresh_storage(*r, player_id@),
    {
        let i = self.ensure_storage(player_id);
        &mut self.storages[i]
    }

    /// The player's storage, if opened, to be changed in place: what is
    /// written through it becomes that storage, and the other storages stay.
    pub fn get_storage_mut(&mut self, player_id: &str) -> (r: Option<&mut PlayerStorage>)
        ensures
            r is None <==> !key_in(old(self).storages_view(), player_id@),
            r is None ==> *final(self) == *old(self),
            r matches Some(st) ==> exists|i: int| key_pos(old(self).storages_view(), player_id@, i)
                && *st == old(self).storages_view()[i]
                && final(self).storages_view() == old(self).storages_view().update(i, *final(st)),
    {
        match find_key(&self.storages, player_id) {
            Some(i) => {
                assert(key_pos(self.storages_view(), player_id@, i as int));
                Some(&mut self.storages[i])
            },
            None => None,
        }
    }

    /// The player's storage, if opened.
    pub fn get_storage(&self, player_id: &str) -> (r: Option<&PlayerStorage>)
        ensures
            r matches Some(st) ==> exists|i: int| key_pos(self.storages_view(), player_id@, i) && *st == self.storages_view()[i],
            r is None <==> !key_in(self.storages_view(), player_id@),
    {
        match find_key(&self.storages, player_id) {
            Some(i) => {
                assert(key_pos(self.storages_view(), player_id@, i as int));
                Some(&self.storages[i])
            },
            None => None,
        }
    }

    /// Stores an item for the player, opening a storage when missing (see
    /// `PlayerStorage::store_item`).
    pub fn store_item(&mut self, player_id: &str, item: StorageSlot, preferred_page: Option<i32>) -> (r: Result<i32, MudError>)
        requires
            old(self).settings() == (20i32, 2i32, 10i32, 10000u64),
            forall|i: int, p: i32| 0 <= i < old(self).storages_view().len() && #[trigger] old(self).storages_view()[i].pages@.contains_key(p) ==> i32::MIN <= p * 100 && p * 100 + old(self).storages_view()[i].pages@[p].capacity <= i32::MAX,
        ensures
            final(self).settings() == old(self).settings(),
            key_in(final(self).storages_view(), player_id@),
            exists|pre: PlayerStorage| {
                &&& (key_in(old(self).storages_view(), player_id@) ==> exists|i: int| key_pos(old(self).storages_view(), player_id@, i) && pre == old(self).storages_view()[i])
                &&& (!key_in(old(self).storages_view(), player_id@) ==> fresh_storage(pre, player_id@))
                &&& result_view(r) == store_result(pre, preferred_page)
            },
    {
        let i = self.ensure_storage(player_id);
        let ghost pre = self.storages@[i as int];
        proof {
            if !key_in(old(self).storages@, player_id@) {
                assert forall|p: i32| #[trigger] pre.pages@.contains_key(p) implies i32::MIN <= p * 100 && p * 100 + pre.pages@[p].capacity <= i32::MAX by {
                    assert(1 <= p <= 2);
                }
            } else {
                assert forall|p: i32| #[trigger] pre.pages@.contains_key(p) implies i32::MIN <= p * 100 && p * 100 + pre.pages@[p].capacity <= i32::MAX by {
                    assert(old(self).storages_view()[i as int].pages@.contains_key(p));
                }
            }
        }
        let st = &mut self.storages[i];
        let r = st.store_item(item, preferred_page);
        proof {
            if key_in(old(self).storages@, player_id@) {
                assert(key_pos(old(self).storages_view(), player_id@, i as int));
            }
        }
        assert(result_view(r) == store_result(pre, preferred_page));
        assert(key_pos(self.storages_view(), player_id@, i as int));
        r
    }

    /// Takes an item out of the player's storage; fails with 仓库不存在 when
    /// the player has none (see `PlayerStorage::retrieve_item`).
    pub fn retrieve_item(&mut self, player_id: &str, position: i32) -> (r: Result<StorageSlot, MudError>)
        ensures
            final(self).settings() == old(self).settings(),
            final(self).storages_view().len() == old(self).storages_view().len(),
            !key_in(old(self).storages_view(), player_id@) ==> (r matches Err(MudError::NotFound(m)) && m@ == "仓库不存在"@) && final(self).storages_view() == old(self).storages_view(),
            forall|i: int| key_pos(old(self).storages_view(), player_id@, i) ==> {
                let pg = pos_page(position);
                let st = #[trigger] old(self).storages_view()[i];
                &&& final(self).storages_view() == old(self).storages_view().update(i, final(self).storages_view()[i])
                &&& if !st.pages@.contains_key(pg) {
                    r matches Err(MudError::NotFound(m)) && m@ == "页面不存在"@
                } else if st.pages@[pg].slots@.contains_key(pos_slot(position)) {
                    r == Ok::<StorageSlot, MudError>(st.pages@[pg].slots@[pos_slot(position)])
                } else {
                    r matches Err(MudError::NotFound(m)) && m@ == "格子为空"@
                }
            },
    {
        match find_key(&self.storages, player_id) {
            Some(i) => {
                let st = &mut self.storages[i];
                st.retrieve_item(position)
            },
            None => Err(not_found("仓库不存在")),
        }
    }

    /// Moves an item within the player's storage; fails with 仓库不存在 when
    /// the player has none (see `PlayerStorage::move_item`).
    pub fn move_item(&mut self, player_id: &str, from_pos: i32, to_pos: i32) -> (r: Result<(), MudError>)
        requires
            forall|i: int| 0 <= i < old(self).storages_view().len() ==> slots_in_range(#[trigger] old(self).storages_view()[i].pages@),
        ensures
            final(self).settings() == old(self).settings(),
            final(self).storages_view().len() == old(self).storages_view().len(),
            !key_in(old(self).storages_view(), player_id@) ==> (r matches Err(MudError::NotFound(m)) && m@ == "仓库不存在"@) && final(self).storages_view() == old(self).storages_view(),
            forall|i: int| key_pos(old(self).storages_view(), player_id@, i) ==> final(self).storages_view() == old(self).storages_view().update(i, #[trigger] final(self).storages_view()[i]),
    {
        match find_key(&self.storages, player_id) {
            Some(i) => {
                assert(slots_in_range(self.storages_view()[i as int].pages@));
                let st = &mut self.storages[i];
                st.move_item(from_pos, to_pos)
            },
            None => Err(not_found("仓库不存在")),
        }
    }

    /// Adds gold to the player's storage, opening one when missing.
    pub fn store_gold(&mut self, player_id: &str, amount: u64) -> (r: Result<(), MudError>)
        requires
            old(self).settings() == (20i32, 2i32, 10i32, 10000u64),
            forall|i: int| 0 <= i < old(self).storages_view().len() ==> #[trigger] old(self).storages_view()[i].gold_stored + amount <= u64::MAX,
        ensures
            r is Ok,
            final(self).settings() == old(self).settings(),
            exists|i: int| {
                &&& key_pos(final(self).storages_view(), player_id@, i)
                &&& final(self).storages_view()[i].gold_stored == amount + if key_in(old(self).storages_view(), player_id@) {
                    old(self).storages_view()[i].gold_stored as int
                } else {
                    0
                }
            },
    {
        let i = self.ensure_storage(player_id);
        proof {
            if key_in(old(self).storages@, player_id@) {
                assert(old(self).storages_view()[i as int].gold_stored + amount <= u64::MAX);
            }
        }
        let st = &mut self.storages[i];
        let r = st.store_gold(amount);
        assert(key_pos(self.storages_view(), player_id@, i as int));
        r
    }

    /// Takes gold out of the player's storage; fails with 仓库不存在 when the
    /// player has none and 金币不足 when there is not enough.
    pub fn retrieve_gold(&mut self, player_id: &str, amount: u64) -> (r: Result<u64, MudError>)
        ensures
            final(self).settings() == old(self).settings(),
            !key_in(old(self).storages_view(), player_id@) ==> (r matches Err(MudError::NotFound(m)) && m@ == "仓库不存在"@) && final(self).storages_view() == old(self).storages_view(),
            forall|i: int| key_pos(old(self).storages_view(), player_id@, i) ==> {
                let g = (#[trigger] old(self).storages_view()[i]).gold_stored;
                &&& final(self).storages_view() == old(self).storages_view().update(i, final(self).storages_view()[i])
                &&& if amount > g {
                    (r matches Err(MudError::RuntimeError(m)) && m@ == "金币不足"@) && final(self).storages_view()[i].gold_stored == g
                } else {
                    r == Ok::<u64, MudError>(amount) && final(self).storages_view()[i].gold_stored == g - amount
                }
            },
    {
        match find_key(&self.storages, player_id) {
            Some(i) => {
                let st = &mut self.storages[i];
                st.retrieve_gold(amount)
            },
            None => Err(not_found("仓库不存在")),
        }
    }

    /// Buys a page for the player's storage: fails with
    /// 金币不足，需要10000金币 when the player cannot pay, and 已达到最大页数 at
    /// the page limit; opens the storage when missing.
    pub fn expand_page(&mut self, player_id: &str, player_gold: u64) -> (r: Result<(), MudError>)
        requires
            old(self).settings() == (20i32, 2i32, 10i32, 10000u64),
            forall|i: int| 0 <= i < old(self).storages_view().len() ==> #[trigger] old(self).storages_view()[i].page_count < i32::MAX,
        ensures
            final(self).settings() == old(self).settings(),
            player_gold < 10000 ==> (r matches Err(MudError::RuntimeError(m)) && m@ == "金币不足，需要10000金币"@) && final(self).storages_view() == old(self).storages_view(),
            player_gold >= 10000 ==> exists|i: int| {
                &&& key_pos(final(self).storages_view(), player_id@, i)
                &&& (r is Ok <==> final(self).storages_view()[i].page_count > (if key_in(old(self).storages_view(), player_id@) { old(self).storages_view()[i].page_count as int } else { 2 }))
            },
    {
        if player_gold < self.page_expand_cost {
            let mut m = string_of("金币不足，需要");
            push_u64(&mut m, self.page_expand_cost);
            push_str(&mut m, "金币");
            assert(m@ =~= "金币不足，需要"@ + nat_digits(10000) + "金币"@);
            proof {
                reveal_strlit("金币不足，需要10000金币");
                reveal_strlit("金币不足，需要");
                reveal_strlit("金币");
                assert(nat_digits(10000) =~= seq!['1', '0', '0', '0', '0']) by {
                    assert(nat_digits(1) == seq!['1']);
                    assert(nat_digits(10) == seq!['1', '0']);
                    assert(nat_digits(100) == seq!['1', '0', '0']);
                    assert(nat_digits(1000) == seq!['1', '0', '0', '0']);
                }
                assert(m@ =~= "金币不足，需要10000金币"@);
            }
            return Err(MudError::RuntimeError(m));
        }
        let i = self.ensure_storage(player_id);
        proof {
            if key_in(old(self).storages@, player_id@) {
                assert(old(self).storages_view()[i as int].page_count < i32::MAX);
            }
        }
        let st = &mut self.storages[i];
        let r = st.add_page();
        assert(key_pos(self.storages_view(), player_id@, i as int));
        r
    }

    /// A summary of the player's storage, or 你还没有开通仓库 without one.
    pub fn get_storage_info(&self, player_id: &str) -> (r: String)
        requires
            forall|i: int| 0 <= i < self.storages_view().len() ==> {
                &&& 0 <= (#[trigger] self.storages_view()[i]).page_count <= 1000000
                &&& items_on_pages(self.storages_view()[i].pages@, self.storages_view()[i].page_count as int) <= usize::MAX
                &&& forall|q: i32| #[trigger] self.storages_view()[i].pages@.contains_key(q) ==> self.storages_view()[i].pages@[q].slots@.len() <= i32::MAX
            },
        ensures
            !key_in(self.storages_view(), player_id@) ==> r@ == "§R你还没有开通仓库§N"@,
            forall|i: int| key_pos(self.storages_view(), player_id@, i) ==> r@ == storage_info_text(#[trigger] self.storages_view()[i]),
    {
        match find_key(&self.storages, player_id) {
            None => string_of("§R你还没有开通仓库§N"),
            Some(i) => {
                let st = &self.storages[i];
                assert(0 <= self.storages_view()[i as int].page_count <= 1000000);
                let mut s = string_of("§H=== 仓库信息 ===§N\n页数: ");
                push_i64(&mut s, st.page_count as i64);
                push_str(&mut s, "/");
                push_i64(&mut s, st.max_pages as i64);
                push_str(&mut s, "\n每页容量: ");
                push_i64(&mut s, st.page_capacity as i64);
                push_str(&mut s, "\n总物品: ");
                let items = st.total_items();
                push_u64(&mut s, items as u64);
                push_str(&mut s, "\n总空位: ");
                push_i64(&mut s, st.total_free_slots());
                push_str(&mut s, "\n存储金币: ");
                push_u64(&mut s, st.gold_stored);
                proof {
                    lemma_items_nonneg(st.pages@, st.page_count as int);
                }
                s
            },
        }
    }
}

impl Default for StorageDaemon {
    fn default() -> (r: Self)
        ensures
            r.storages_view().len() == 0,
            r.settings() == (20i32, 2i32, 10i32, 10000u64),
    {
        Self::new()
    }
}

} // verus!
