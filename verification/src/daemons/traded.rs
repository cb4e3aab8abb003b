//! Trades between two players: each side puts items and gold in its slot
//! and confirms; once both have confirmed the trade is locked and can be
//! completed, each player receiving what the other offered.
use vstd::prelude::*;
use crate::errors::{MudError, runtime_error, not_found};
use crate::text::{push_str, push_u64, push_i64, string_of, nat_digits, int_digits, str_eq};
use crate::util::{Keyed, key_pos, key_get, key_in, keys_unique, find_key, get_key, put_key, drop_key,
    lemma_key_get_at, lemma_key_get_none, lemma_keyed_update, lemma_key_in_get};
use crate::outside::{current_timestamp, current_timestamp_nanos, random_u32};

verus! {

/// Where a trade stands.
#[derive(Clone, Copy, Debug, PartialEq, Eq, Structural)]
pub enum TradeStatus {
    Waiting,
    Confirmed,
    Cancelled,
    Completed,
}

/// An item offered in a trade.
#[derive(Debug)]
pub struct TradeItem {
    pub item_id: String,
    pub item_name: String,
    pub count: i32,
    pub quality: i32,
}

impl Clone for TradeItem {
    fn clone(&self) -> (r: Self)
        ensures
            r == *self,
    {
        TradeItem { item_id: self.item_id.clone(), item_name: self.item_name.clone(), count: self.count, quality: self.quality }
    }
}

/// What one side offers: items, gold, and whether it confirmed.
#[derive(Debug)]
pub struct TradeSlot {
    pub items: Vec<TradeItem>,
    pub gold: u64,
    pub confirmed: bool,
}

impl Default for TradeSlot {
    fn default() -> (r: Self)
        ensures
            r.items@.len() == 0 && r.gold == 0 && !r.confirmed,
    {
        TradeSlot { items: Vec::new(), gold: 0, confirmed: false }
    }
}

/// A trade between two players.
#[derive(Debug)]
pub struct TradeSession {
    pub trade_id: String,
    pub player1_id: String,
    pub player1_name: String,
    pub player2_id: String,
    pub player2_name: String,
    pub player1_slot: TradeSlot,
    pub player2_slot: TradeSlot,
    pub status: TradeStatus,
    pub created_at: i64,
    pub updated_at: i64,
}

impl Keyed for TradeSession {
    open spec fn key_view(&self) -> Seq<char> {
        self.trade_id@
    }

    fn key(&self) -> (r: &String) {
        &self.trade_id
    }
}

/// Which side of the trade a player is: 1, 2, or 0 for neither (the first
/// side wins when both ids are the player's).
pub open spec fn side_of(t: TradeSession, player_id: Seq<char>) -> int {
    if player_id == t.player1_id@ { 1 } else if player_id == t.player2_id@ { 2 } else { 0 }
}

/// The slot of a side.
pub open spec fn slot_of(t: TradeSession, side: int) -> TradeSlot {
    if side == 1 { t.player1_slot } else { t.player2_slot }
}

/// `b` is `a` with only the slot of `side` changed, besides the time of
/// the last change.
pub open spec fn only_slot_changed(a: TradeSession, b: TradeSession, side: int) -> bool {
    &&& b.trade_id == a.trade_id && b.player1_id == a.player1_id && b.player1_name == a.player1_name
    &&& b.player2_id == a.player2_id && b.player2_name == a.player2_name
    &&& b.created_at == a.created_at
    &&& side == 1 ==> b.player2_slot == a.player2_slot
    &&& side == 2 ==> b.player1_slot == a.player1_slot
}

/// `b` and `r` are what player `pid` confirming trade `a` at `now` makes:
/// a stranger is refused; otherwise the player's side is confirmed with its
/// goods unchanged, and the trade is locked once both sides have confirmed.
pub open spec fn confirmed_by(a: TradeSession, b: TradeSession, pid: Seq<char>, now: i64, r: Result<bool, MudError>) -> bool {
    let side = side_of(a, pid);
    if side == 0 {
        (r matches Err(MudError::NotFound(m)) && m@ == "玩家不在交易中"@) && b == a
    } else {
        let both = if side == 1 { a.player2_slot.confirmed } else { a.player1_slot.confirmed };
        &&& r == Ok::<bool, MudError>(both)
        &&& only_slot_changed(a, b, side)
        &&& b.updated_at == now
        &&& slot_of(b, side).items@ == slot_of(a, side).items@
        &&& slot_of(b, side).gold == slot_of(a, side).gold
        &&& slot_of(b, side).confirmed
        &&& b.status == (if both { TradeStatus::Confirmed } else { a.status })
    }
}

/// Once both sides confirm, one after the other, the trade is locked, the
/// second confirmation says so, and each side still offers the goods and
/// gold it offered before: so completing it hands each player what the
/// other offered.
pub proof fn lemma_both_confirm(t0: TradeSession, t1: TradeSession, t2: TradeSession, now1: i64, now2: i64,
    r1: Result<bool, MudError>, r2: Result<bool, MudError>)
    requires
        t0.player1_id@ != t0.player2_id@,
        confirmed_by(t0, t1, t0.player1_id@, now1, r1),
        confirmed_by(t1, t2, t0.player2_id@, now2, r2),
    ensures
        r2 == Ok::<bool, MudError>(true),
        t2.player1_slot.confirmed && t2.player2_slot.confirmed,
        t2.status == TradeStatus::Confirmed,
        t2.player1_id == t0.player1_id && t2.player2_id == t0.player2_id,
        t2.player1_slot.items@ == t0.player1_slot.items@ && t2.player1_slot.gold == t0.player1_slot.gold,
        t2.player2_slot.items@ == t0.player2_slot.items@ && t2.player2_slot.gold == t0.player2_slot.gold,
{
    assert(side_of(t0, t0.player1_id@) == 1);
    assert(side_of(t1, t0.player2_id@) == 2);
}

/// The status of a trade, as its view shows it.
pub open spec fn trade_status_text(s: TradeStatus) -> Seq<char> {
    match s {
        TradeStatus::Waiting => "等待确认"@,
        TradeStatus::Confirmed => "§G已锁定§N"@,
        TradeStatus::Cancelled => "§R已取消§N"@,
        TradeStatus::Completed => "§Y已完成§N"@,
    }
}

/// The item lines of a slot, numbered from 1.
pub open spec fn item_lines(items: Seq<TradeItem>) -> Seq<char>
    decreases items.len(),
{
    if items.len() == 0 {
        Seq::empty()
    } else {
        item_lines(items.drop_last()) + "  ["@ + nat_digits(items.len()) + "] "@ + items.last().item_name@ + " x"@
            + int_digits(items.last().count as int) + "\n"@
    }
}

/// The items of a slot, or (空) when there are none.
pub open spec fn slot_items_text(s: TradeSlot) -> Seq<char> {
    if s.items@.len() == 0 { "  (空)\n"@ } else { item_lines(s.items@) }
}

/// Whether a slot confirmed, as the view shows it.
pub open spec fn confirmed_text(s: TradeSlot) -> Seq<char> {
    if s.confirmed { "§G已确认§N"@ } else { "§Y未确认§N"@ }
}

/// The trade as a player sees it: their own offer first; a player who is
/// not the first side sees the first side's offer as the other one.
pub open spec fn trade_text(t: TradeSession, player_id: Seq<char>) -> Seq<char> {
    let mine = if player_id == t.player1_id@ { t.player1_slot } else { t.player2_slot };
    let other = if player_id == t.player1_id@ { t.player2_slot } else { t.player1_slot };
    let other_name = if player_id == t.player1_id@ { t.player2_name@ } else { t.player1_name@ };
    "§H=== 与 "@ + other_name + " 的交易 ===§N\n状态: "@ + trade_status_text(t.status) + "\n我的物品:\n"@
        + slot_items_text(mine) + "金币: "@ + nat_digits(mine.gold as nat) + "\n确认状态: "@ + confirmed_text(mine) + "\n\n对方物品:\n"@
        + slot_items_text(other) + "金币: "@ + nat_digits(other.gold as nat) + "\n确认状态: "@ + confirmed_text(other)
}

fn push_slot(out: &mut String, slot: &TradeSlot)
    ensures
        final(out)@ == old(out)@ + slot_items_text(*slot) + "金币: "@ + nat_digits(slot.gold as nat) + "\n确认状态: "@ + confirmed_text(*slot),
{
    if slot.items.len() == 0 {
        push_str(out, "  (空)\n");
    } else {
        let ghost base = out@;
        let mut i: usize = 0;
        while i < slot.items.len()
            invariant
                i <= slot.items@.len(),
                out@ == base + item_lines(slot.items@.take(i as int)),
            decreases slot.items.len() - i,
        {
            assert(slot.items@.take(i + 1).drop_last() =~= slot.items@.take(i as int));
            push_str(out, "  [");
            push_u64(out, (i + 1) as u64);
            push_str(out, "] ");
            push_str(out, slot.items[i].item_name.as_str());
            push_str(out, " x");
            push_i64(out, slot.items[i].count as i64);
            push_str(out, "\n");
            i = i + 1;
        }
        assert(slot.items@.take(i as int) =~= slot.items@);
    }
    push_str(out, "金币: ");
    push_u64(out, slot.gold);
    push_str(out, "\n确认状态: ");
    if slot.confirmed {
        push_str(out, "§G已确认§N");
    } else {
        push_str(out, "§Y未确认§N");
    }
}

impl TradeSession {
    /// A waiting trade started at time `now`, both slots empty.
    pub fn new_at(trade_id: String, player1_id: String, player1_name: String, player2_id: String, player2_name: String, now: i64) -> (r: Self)
        ensures
            trade_session_new_done(trade_id, player1_id, player1_name, player2_id, player2_name, now, r),
    {
        TradeSession {
            trade_id,
            player1_id,
            player1_name,
            player2_id,
            player2_name,
            player1_slot: TradeSlot::default(),
            player2_slot: TradeSlot::default(),
            status: TradeStatus::Waiting,
            created_at: now,
            updated_at: now,
        }
    }

    /// A waiting trade started now (see `new_at`).
    pub fn new(trade_id: String, player1_id: String, player1_name: String, player2_id: String, player2_name: String) -> (r: Self)
        ensures
            exists|now: i64| #[trigger] trade_session_new_done(trade_id, player1_id, player1_name, player2_id, player2_name, now, r),
            r.trade_id == trade_id && r.player1_id == player1_id && r.player1_name == player1_name,
            r.player2_id == player2_id && r.player2_name == player2_name,
            r.player1_slot.items@.len() == 0 && r.player1_slot.gold == 0 && !r.player1_slot.confirmed,
            r.player2_slot.items@.len() == 0 && r.player2_slot.gold == 0 && !r.player2_slot.confirmed,
            r.status == TradeStatus::Waiting && r.created_at == r.updated_at,
    {
        Self::new_at(trade_id, player1_id, player1_name, player2_id, player2_name, current_timestamp())
    }

    /// The trade is waiting or locked.
    pub fn is_active(&self) -> (r: bool)
        ensures
            r == (self.status == TradeStatus::Waiting || self.status == TradeStatus::Confirmed),
    {
        match self.status {
            TradeStatus::Waiting | TradeStatus::Confirmed => true,
            _ => false,
        }
    }

    /// The other player of the trade.
    pub fn get_opponent(&self, player_id: &str) -> (r: Option<&str>)
        ensures
            side_of(*self, player_id@) == 1 ==> (r matches Some(o) && o@ == self.player2_id@),
            side_of(*self, player_id@) == 2 ==> (r matches Some(o) && o@ == self.player1_id@),
            side_of(*self, player_id@) == 0 ==> r is None,
    {
        if str_eq(player_id, self.player1_id.as_str()) {
            Some(self.player2_id.as_str())
        } else if str_eq(player_id, self.player2_id.as_str()) {
            Some(self.player1_id.as_str())
        } else {
            None
        }
    }

    /// The player's slot.
    pub fn get_slot(&self, player_id: &str) -> (r: Option<&TradeSlot>)
        ensures
            side_of(*self, player_id@) == 0 ==> r is None,
            side_of(*self, player_id@) != 0 ==> r == Some(&slot_of(*self, side_of(*self, player_id@))),
    {
        if str_eq(player_id, self.player1_id.as_str()) {
            Some(&self.player1_slot)
        } else if str_eq(player_id, self.player2_id.as_str()) {
            Some(&self.player2_slot)
        } else {
            None
        }
    }

    /// The player's slot, for changing it.
    pub fn get_slot_mut(&mut self, player_id: &str) -> (r: Option<&mut TradeSlot>)
        ensures
            side_of(*old(self), player_id@) == 0 ==> r is None,
            side_of(*old(self), player_id@) != 0 ==> (r matches Some(s) && *s == slot_of(*old(self), side_of(*old(self), player_id@))),
            r is None ==> *final(self) == *old(self),
            r matches Some(s) ==> *final(self) == if side_of(*old(self), player_id@) == 1 {
                TradeSession { player1_slot: *final(s), ..*old(self) }
            } else {
                TradeSession { player2_slot: *final(s), ..*old(self) }
            },
    {
        if str_eq(player_id, self.player1_id.as_str()) {
            Some(&mut self.player1_slot)
        } else if str_eq(player_id, self.player2_id.as_str()) {
            Some(&mut self.player2_slot)
        } else {
            None
        }
    }

    /// Adds an item to the player's offer at time `now`; fails for a player
    /// not in the trade and for a confirmed offer.
    pub fn add_item_at(&mut self, player_id: &str, item: TradeItem, now: i64) -> (r: Result<(), MudError>)
        ensures
            trade_session_add_item_done(*old(self), *final(self), player_id, item, now, r),
    {
        if str_eq(player_id, self.player1_id.as_str()) {
            if self.player1_slot.confirmed {
                return Err(runtime_error("已确认，不能修改"));
            }
            self.player1_slot.items.push(item);
        } else if str_eq(player_id, self.player2_id.as_str()) {
            if self.player2_slot.confirmed {
                return Err(runtime_error("已确认，不能修改"));
            }
            self.player2_slot.items.push(item);
        } else {
            return Err(not_found("玩家不在交易中"));
        }
        self.updated_at = now;
        Ok(())
    }

    /// Adds an item to the player's offer now (see `add_item_at`).
    pub fn add_item(&mut self, player_id: &str, item: TradeItem) -> (r: Result<(), MudError>)
        ensures
            exists|now: i64| #[trigger] trade_session_add_item_done(*old(self), *final(self), player_id, item, now, r),
            side_of(*old(self), player_id@) == 0 ==> (r matches Err(MudError::NotFound(m)) && m@ == "玩家不在交易中"@),
            side_of(*old(self), player_id@) != 0 && slot_of(*old(self), side_of(*old(self), player_id@)).confirmed
                ==> (r matches Err(MudError::RuntimeError(m)) && m@ == "已确认，不能修改"@),
            r is Ok ==> slot_of(*final(self), side_of(*old(self), player_id@)).items@ == slot_of(*old(self), side_of(*old(self), player_id@)).items@.push(item),
    {
        self.add_item_at(player_id, item, current_timestamp())
    }

    /// Takes the item at `index` out of the player's offer at time `now`.
    pub fn remove_item_at(&mut self, player_id: &str, index: usize, now: i64) -> (r: Result<TradeItem, MudError>)
        ensures
            trade_session_remove_item_done(*old(self), *final(self), player_id, index, now, r),
    {
        let item = if str_eq(player_id, self.player1_id.as_str()) {
            if self.player1_slot.confirmed {
                return Err(runtime_error("已确认，不能修改"));
            }
            if index >= self.player1_slot.items.len() {
                return Err(not_found("物品不存在"));
            }
            self.player1_slot.items.remove(index)
        } else if str_eq(player_id, self.player2_id.as_str()) {
            if self.player2_slot.confirmed {
                return Err(runtime_error("已确认，不能修改"));
            }
            if index >= self.player2_slot.items.len() {
                return Err(not_found("物品不存在"));
            }
            self.player2_slot.items.remove(index)
        } else {
            return Err(not_found("玩家不在交易中"));
        };
        self.updated_at = now;
        Ok(item)
    }

    /// Takes an item out of the player's offer now (see `remove_item_at`).
    pub fn remove_item(&mut self, player_id: &str, index: usize) -> (r: Result<TradeItem, MudError>)
        ensures
            exists|now: i64| #[trigger] trade_session_remove_item_done(*old(self), *final(self), player_id, index, now, r),
            side_of(*old(self), player_id@) == 0 ==> (r matches Err(MudError::NotFound(m)) && m@ == "玩家不在交易中"@),
            r matches Ok(x) ==> x == slot_of(*old(self), side_of(*old(self), player_id@)).items@[index as int],
    {
        self.remove_item_at(player_id, index, current_timestamp())
    }

    /// Sets the gold of the player's offer at time `now`.
    pub fn set_gold_at(&mut self, player_id: &str, gold: u64, now: i64) -> (r: Result<(), MudError>)
        ensures
            trade_session_set_gold_done(*old(self), *final(self), player_id, gold, now, r),
    {
        if str_eq(player_id, self.player1_id.as_str()) {
            if self.player1_slot.confirmed {
                return Err(runtime_error("已确认，不能修改"));
            }
            self.player1_slot.gold = gold;
        } else if str_eq(player_id, self.player2_id.as_str()) {
            if self.player2_slot.confirmed {
                return Err(runtime_error("已确认，不能修改"));
            }
            self.player2_slot.gold = gold;
        } else {
            return Err(not_found("玩家不在交易中"));
        }
        self.updated_at = now;
        Ok(())
    }

    /// Sets the gold of the player's offer now (see `set_gold_at`).
    pub fn set_gold(&mut self, player_id: &str, gold: u64) -> (r: Result<(), MudError>)
        ensures
            exists|now: i64| #[trigger] trade_session_set_gold_done(*old(self), *final(self), player_id, gold, now, r),
            side_of(*old(self), player_id@) == 0 ==> (r matches Err(MudError::NotFound(m)) && m@ == "玩家不在交易中"@),
            r is Ok ==> slot_of(*final(self), side_of(*old(self), player_id@)).gold == gold,
    {
        self.set_gold_at(player_id, gold, current_timestamp())
    }

    /// The player confirms at time `now`; once both sides have confirmed
    /// the trade is locked. Returns whether it is.
    pub fn confirm_at(&mut self, player_id: &str, now: i64) -> (r: Result<bool, MudError>)
        ensures
            confirm_done(*old(self), *final(self), player_id, now, r),
    {
        if str_eq(player_id, self.player1_id.as_str()) {
            self.player1_slot.confirmed = true;
        } else if str_eq(player_id, self.player2_id.as_str()) {
            self.player2_slot.confirmed = true;
        } else {
            return Err(not_found("玩家不在交易中"));
        }
        self.updated_at = now;
        if self.player1_slot.confirmed && self.player2_slot.confirmed {
            self.status = TradeStatus::Confirmed;
            Ok(true)
        } else {
            Ok(false)
        }
    }

    /// The player confirms now (see `confirm_at`).
    pub fn confirm(&mut self, player_id: &str) -> (r: Result<bool, MudError>)
        ensures
            exists|now: i64| #[trigger] confirm_done(*old(self), *final(self), player_id, now, r),
            side_of(*old(self), player_id@) == 0 ==> (r matches Err(MudError::NotFound(m)) && m@ == "玩家不在交易中"@),
            r == Ok::<bool, MudError>(true) ==> final(self).status == TradeStatus::Confirmed,
            r is Ok ==> slot_of(*final(self), side_of(*old(self), player_id@)).confirmed,
    {
        self.confirm_at(player_id, current_timestamp())
    }

    /// The player withdraws their confirmation at time `now`; a locked
    /// trade cannot be unlocked.
    pub fn unconfirm_at(&mut self, player_id: &str, now: i64) -> (r: Result<(), MudError>)
        ensures
            unconfirm_done(*old(self), *final(self), player_id, now, r),
    {
        if self.status == TradeStatus::Confirmed {
            return Err(runtime_error("交易已锁定，不能取消"));
        }
        if str_eq(player_id, self.player1_id.as_str()) {
            self.player1_slot.confirmed = false;
        } else if str_eq(player_id, self.player2_id.as_str()) {
            self.player2_slot.confirmed = false;
        } else {
            return Err(not_found("玩家不在交易中"));
        }
        self.updated_at = now;
        Ok(())
    }

    /// The player withdraws their confirmation now (see `unconfirm_at`).
    pub fn unconfirm(&mut self, player_id: &str) -> (r: Result<(), MudError>)
        ensures
            exists|now: i64| #[trigger] unconfirm_done(*old(self), *final(self), player_id, now, r),
            old(self).status == TradeStatus::Confirmed ==> (r matches Err(MudError::RuntimeError(m)) && m@ == "交易已锁定，不能取消"@),
            r is Ok ==> !slot_of(*final(self), side_of(*old(self), player_id@)).confirmed,
    {
        self.unconfirm_at(player_id, current_timestamp())
    }

    /// Both sides have confirmed.
    pub fn can_complete(&self) -> (r: bool)
        ensures
            r == (self.player1_slot.confirmed && self.player2_slot.confirmed),
    {
        self.player1_slot.confirmed && self.player2_slot.confirmed
    }

    /// The trade as the player sees it.
    pub fn format_info(&self, player_id: &str) -> (r: String)
        ensures
            r@ == trade_text(*self, player_id@),
    {
        let is_player1 = str_eq(player_id, self.player1_id.as_str());
        let my_slot = if is_player1 { &self.player1_slot } else { &self.player2_slot };
        let other_slot = if is_player1 { &self.player2_slot } else { &self.player1_slot };
        let other_name = if is_player1 { self.player2_name.as_str() } else { self.player1_name.as_str() };
        let mut out = string_of("§H=== 与 ");
        push_str(&mut out, other_name);
        push_str(&mut out, " 的交易 ===§N\n状态: ");
        push_str(&mut out, match self.status {
            TradeStatus::Waiting => "等待确认",
            TradeStatus::Confirmed => "§G已锁定§N",
            TradeStatus::Cancelled => "§R已取消§N",
            TradeStatus::Completed => "§Y已完成§N",
        });
        push_str(&mut out, "\n我的物品:\n");
        push_slot(&mut out, my_slot);
        push_str(&mut out, "\n\n对方物品:\n");
        push_slot(&mut out, other_slot);
        out
    }
}

/// The trade a player is in.
#[derive(Debug)]
pub struct PlayerTrade {
    pub player_id: String,
    pub trade_id: String,
}

impl Keyed for PlayerTrade {
    open spec fn key_view(&self) -> Seq<char> {
        self.player_id@
    }

    fn key(&self) -> (r: &String) {
        &self.player_id
    }
}

/// What a completed trade gives each player: the other side's offer.
#[derive(Debug)]
pub struct TradeResult {
    pub player1_id: String,
    pub player1_items: Vec<TradeItem>,
    pub player1_gold: u64,
    pub player2_id: String,
    pub player2_items: Vec<TradeItem>,
    pub player2_gold: u64,
}

/// The open trades by id, the trade each player is in, and how long a
/// trade may stay untouched, in seconds.
#[derive(Debug)]
pub struct TradeDaemon {
    pub active_trades: Vec<TradeSession>,
    pub player_trades: Vec<PlayerTrade>,
    pub timeout: i64,
}

/// The trade with the id.
pub open spec fn trade_at(d: TradeDaemon, id: Seq<char>) -> Option<TradeSession> {
    key_get(d.active_trades@, id)
}

/// The id of the trade the player is in.
pub open spec fn trade_of(d: TradeDaemon, player_id: Seq<char>) -> Option<Seq<char>> {
    match key_get(d.player_trades@, player_id) {
        Some(p) => Some(p.trade_id@),
        None => None,
    }
}

/// The id a new trade gets: `trade_<nanoseconds>_<random number>`.
pub open spec fn new_trade_id(nanos: i64, roll: u32) -> Seq<char> {
    "trade_"@ + int_digits(nanos as int) + "_"@ + nat_digits(roll as nat)
}

/// The trades that a clean-up at `now` keeps: those touched within the
/// timeout, in order.
pub open spec fn live_trades(s: Seq<TradeSession>, now: int, timeout: int) -> Seq<TradeSession>
    decreases s.len(),
{
    if s.len() == 0 {
        Seq::empty()
    } else {
        let rest = live_trades(s.drop_last(), now, timeout);
        if now - s.last().updated_at > timeout { rest } else { rest.push(s.last()) }
    }
}

/// The player is a side of a trade that a clean-up at `now` drops.
pub open spec fn in_dead_trade(s: Seq<TradeSession>, now: int, timeout: int, p: Seq<char>) -> bool
    decreases s.len(),
{
    if s.len() == 0 {
        false
    } else {
        in_dead_trade(s.drop_last(), now, timeout, p) || (now - s.last().updated_at > timeout
            && (s.last().player1_id@ == p || s.last().player2_id@ == p))
    }
}

/// The kept trades are trades of the list, and keep their ids distinct.
pub proof fn lemma_live_trades(s: Seq<TradeSession>, now: int, timeout: int)
    ensures
        forall|a: int| 0 <= a < live_trades(s, now, timeout).len() ==> exists|j: int| 0 <= j < s.len() && s[j] == #[trigger] live_trades(s, now, timeout)[a],
        keys_unique(s) ==> keys_unique(live_trades(s, now, timeout)),
    decreases s.len(),
{
    if s.len() > 0 {
        let t = s.drop_last();
        lemma_live_trades(t, now, timeout);
        let f = live_trades(t, now, timeout);
        assert forall|a: int| 0 <= a < f.len() implies exists|j: int| 0 <= j < s.len() && s[j] == #[trigger] f[a] by {
            let j = choose|j: int| 0 <= j < t.len() && t[j] == f[a];
            assert(s[j] == t[j]);
        }
        if keys_unique(s) {
            assert(keys_unique(t));
            if now - s.last().updated_at <= timeout {
                assert forall|a: int| 0 <= a < f.len() implies f[a].key_view() != s.last().key_view() by {
                    let j = choose|j: int| 0 <= j < t.len() && t[j] == f[a];
                    assert(s[j] == t[j]);
                }
            }
        }
    }
}

fn clone_items(v: &Vec<TradeItem>) -> (r: Vec<TradeItem>)
    ensures
        r@ == v@,
{
    let r = v.clone();
    proof {
        assert forall|i: int| 0 <= i < r@.len() implies r@[i] == v@[i] by {
            assert(cloned::<TradeItem>(v[i], r[i]));
        }
        assert(r@ =~= v@);
    }
    r
}

impl TradeDaemon {
    /// One trade per id and one trade per player.
    pub open spec fn wf(&self) -> bool {
        &&& keys_unique(self.active_trades@)
        &&& keys_unique(self.player_trades@)
    }

    /// No trades; a trade left untouched for 300 seconds expires.
    pub fn new() -> (r: Self)
        ensures
            r.wf(),
            r.active_trades@.len() == 0 && r.player_trades@.len() == 0 && r.timeout == 300,
    {
        TradeDaemon { active_trades: Vec::new(), player_trades: Vec::new(), timeout: 300 }
    }

    /// Drops a trade and the records of its two players.
    fn cleanup_trade(&mut self, trade_id: &str)
        requires
            old(self).wf(),
        ensures
            final(self).wf(),
            final(self).timeout == old(self).timeout,
            trade_at(*final(self), trade_id@) is None,
            forall|k: Seq<char>| k != trade_id@ ==> #[trigger] trade_at(*final(self), k) == trade_at(*old(self), k),
            match trade_at(*old(self), trade_id@) {
                Some(t) => {
                    &&& trade_of(*final(self), t.player1_id@) is None && trade_of(*final(self), t.player2_id@) is None
                    &&& forall|p: Seq<char>| p != t.player1_id@ && p != t.player2_id@ ==> #[trigger] trade_of(*final(self), p) == trade_of(*old(self), p)
                },
                None => final(self).player_trades@ == old(self).player_trades@,
            },
    {
        let ghost t0 = self.active_trades@;
        let ghost p0 = self.player_trades@;
        match crate::util::remove_key(&mut self.active_trades, trade_id) {
            Some(t) => {
                proof {
                    let i = choose|i: int| key_pos(t0, trade_id@, i) && t == t0[i] && self.active_trades@ == t0.remove(i);
                    lemma_key_get_at(t0, trade_id@, i);
                    crate::util::lemma_key_get_removed(t0, trade_id@, i);
                    assert forall|k: Seq<char>| k != trade_id@ implies #[trigger] trade_at(*self, k) == trade_at(*old(self), k) by {
                        crate::util::lemma_key_get_after_remove(t0, trade_id@, i, k);
                    }
                }
                let ghost mid = *self;
                drop_key(&mut self.player_trades, t.player1_id.as_str());
                let ghost p1 = self.player_trades@;
                drop_key(&mut self.player_trades, t.player2_id.as_str());
                proof {
                    assert forall|k: Seq<char>| k != trade_id@ implies #[trigger] trade_at(*self, k) == trade_at(*old(self), k) by {
                        assert(trade_at(*self, k) == trade_at(mid, k));
                    }
                    assert forall|p: Seq<char>| p != t.player1_id@ && p != t.player2_id@ implies #[trigger] trade_of(*self, p) == trade_of(*old(self), p) by {
                        assert(key_get(self.player_trades@, p) == key_get(p1, p));
                        assert(key_get(p1, p) == key_get(p0, p));
                    }
                    if t.player1_id@ != t.player2_id@ {
                        assert(key_get(self.player_trades@, t.player1_id@) == key_get(p1, t.player1_id@));
                    }
                }
            },
            None => {
                proof {
                    lemma_key_get_none(t0, trade_id@);
                }
            },
        }
    }

    /// Opens a trade between two players with the id `trade_<nanos>_<roll>`.
    /// Fails when either is already trading.
    pub fn request_trade_at(&mut self, player1_id: String, player1_name: String, player2_id: String, player2_name: String,
        now: i64, nanos: i64, roll: u32) -> (r: Result<String, MudError>)
        requires
            old(self).wf(),
        ensures
            request_trade_done(*old(self), *final(self), player1_id, player1_name, player2_id, player2_name, now, nanos, roll, r),
    {
        proof {
            lemma_key_in_get(self.player_trades@, player1_id@);
            lemma_key_in_get(self.player_trades@, player2_id@);
        }
        if find_key(&self.player_trades, player1_id.as_str()).is_some() {
            return Err(runtime_error("你已在交易中"));
        }
        if find_key(&self.player_trades, player2_id.as_str()).is_some() {
            return Err(runtime_error("对方已在交易中"));
        }
        let mut id = string_of("trade_");
        push_i64(&mut id, nanos);
        push_str(&mut id, "_");
        push_u64(&mut id, roll as u64);
        let ghost idv = id@;
        let trade = TradeSession::new_at(id.clone(), player1_id.clone(), player1_name, player2_id.clone(), player2_name, now);
        let ghost t0 = self.active_trades@;
        put_key(&mut self.active_trades, trade);
        let ghost p0 = self.player_trades@;
        let ghost u1 = player1_id@;
        let ghost u2 = player2_id@;
        put_key(&mut self.player_trades, PlayerTrade { player_id: player1_id, trade_id: id.clone() });
        let ghost p1 = self.player_trades@;
        put_key(&mut self.player_trades, PlayerTrade { player_id: player2_id, trade_id: id.clone() });
        proof {
            assert forall|k: Seq<char>| k != idv implies #[trigger] trade_at(*self, k) == trade_at(*old(self), k) by {
                assert(key_get(self.active_trades@, k) == key_get(t0, k));
            }
            assert forall|p: Seq<char>| p != u1 && p != u2 implies #[trigger] trade_of(*self, p) == trade_of(*old(self), p) by {
                assert(key_get(self.player_trades@, p) == key_get(p1, p));
                assert(key_get(p1, p) == key_get(p0, p));
            }
            if u1 != u2 {
                assert(key_get(self.player_trades@, u1) == key_get(p1, u1));
            }
        }
        Ok(id)
    }

    /// Opens a trade now (see `request_trade_at`); fails with 时间超出范围
    /// when the clock is outside what nanoseconds can count.
    pub fn request_trade(&mut self, player1_id: String, player1_name: String, player2_id: String, player2_name: String) -> (r: Result<String, MudError>)
        requires
            old(self).wf(),
        ensures
            (exists|now: i64, nanos: i64, roll: u32| #[trigger] request_trade_done(*old(self), *final(self), player1_id,
                player1_name, player2_id, player2_name, now, nanos, roll, r))
                || ((r matches Err(MudError::RuntimeError(m)) && m@ == "时间超出范围"@) && *final(self) == *old(self)),
            final(self).wf(),
            trade_of(*old(self), player1_id@) is Some ==> (r matches Err(MudError::RuntimeError(m)) && m@ == "你已在交易中"@),
            trade_of(*old(self), player1_id@) is None && trade_of(*old(self), player2_id@) is Some ==> (r matches Err(MudError::RuntimeError(m))
                && m@ == "对方已在交易中"@),
            r matches Ok(id) ==> trade_of(*final(self), player1_id@) == Some(id@) && trade_of(*final(self), player2_id@) == Some(id@),
    {
        proof {
            lemma_key_in_get(self.player_trades@, player1_id@);
            lemma_key_in_get(self.player_trades@, player2_id@);
        }
        if find_key(&self.player_trades, player1_id.as_str()).is_some() || find_key(&self.player_trades, player2_id.as_str()).is_some() {
            return self.request_trade_at(player1_id, player1_name, player2_id, player2_name, 0, 0, 0);
        }
        let now = current_timestamp();
        match current_timestamp_nanos() {
            Some(nanos) => {
                let roll = random_u32();
                self.request_trade_at(player1_id, player1_name, player2_id, player2_name, now, nanos, roll)
            },
            None => Err(runtime_error("时间超出范围")),
        }
    }

    /// Cancels the player's trade and drops it.
    pub fn cancel_trade(&mut self, player_id: &str) -> (r: Result<(), MudError>)
        requires
            old(self).wf(),
        ensures
            final(self).wf(),
            match trade_of(*old(self), player_id@) {
                None => (r matches Err(MudError::NotFound(m)) && m@ == "未在交易中"@) && final(self).active_trades@ == old(self).active_trades@
                    && final(self).player_trades@ == old(self).player_trades@,
                Some(tid) => r is Ok && trade_at(*final(self), tid) is None
                    && forall|k: Seq<char>| k != tid ==> #[trigger] trade_at(*final(self), k) == trade_at(*old(self), k),
            },
    {
        let tid = match get_key(&self.player_trades, player_id) {
            Some(p) => p.trade_id.clone(),
            None => return Err(not_found("未在交易中")),
        };
        self.cleanup_trade(tid.as_str());
        Ok(())
    }

    /// The trade the player is in, taken out of the list with its place.
    fn take_trade(&mut self, player_id: &str) -> (r: Result<(usize, TradeSession), MudError>)
        requires
            old(self).wf(),
        ensures
            match trade_of(*old(self), player_id@) {
                None => (r matches Err(MudError::NotFound(m)) && m@ == "未在交易中"@) && *final(self) == *old(self),
                Some(tid) => match trade_at(*old(self), tid) {
                    None => (r matches Err(MudError::NotFound(m)) && m@ == "交易不存在"@) && *final(self) == *old(self),
                    Some(t) => r matches Ok((i, x)) && x == t && key_pos(old(self).active_trades@, tid, i as int)
                        && final(self).active_trades@ == old(self).active_trades@.remove(i as int)
                        && final(self).player_trades@ == old(self).player_trades@ && final(self).timeout == old(self).timeout,
                },
            },
    {
        let tid = match get_key(&self.player_trades, player_id) {
            Some(p) => p.trade_id.clone(),
            None => return Err(not_found("未在交易中")),
        };
        match find_key(&self.active_trades, tid.as_str()) {
            Some(i) => {
                proof {
                    lemma_key_get_at(self.active_trades@, tid@, i as int);
                }
                let t = self.active_trades.remove(i);
                Ok((i, t))
            },
            None => {
                proof {
                    lemma_key_get_none(self.active_trades@, tid@);
                }
                Err(not_found("交易不存在"))
            },
        }
    }

    /// Puts a trade back at its place.
    fn put_trade(&mut self, i: usize, t: TradeSession)
        requires
            i <= old(self).active_trades@.len(),
        ensures
            final(self).active_trades@ == old(self).active_trades@.insert(i as int, t),
            final(self).player_trades@ == old(self).player_trades@ && final(self).timeout == old(self).timeout,
    {
        self.active_trades.insert(i, t);
    }

    /// Adds an item to the player's offer in their trade.
    pub fn add_item(&mut self, player_id: &str, item: TradeItem) -> (r: Result<(), MudError>)
        requires
            old(self).wf(),
        ensures
            trade_of(*old(self), player_id@) matches Some(tid) ==> (trade_at(*old(self), tid) matches Some(t)
                ==> exists|now: i64, t2: TradeSession| trade_at(*final(self), tid) == Some(t2)
                    && #[trigger] trade_session_add_item_done(t, t2, player_id, item, now, r)),
            final(self).wf(),
            final(self).player_trades@ == old(self).player_trades@,
            trade_of(*old(self), player_id@) is None ==> (r matches Err(MudError::NotFound(m)) && m@ == "未在交易中"@),
            trade_of(*old(self), player_id@) matches Some(tid) ==> {
                &&& trade_at(*old(self), tid) is None ==> (r matches Err(MudError::NotFound(m)) && m@ == "交易不存在"@)
                &&& trade_at(*old(self), tid) matches Some(t) ==> {
                    let side = side_of(t, player_id@);
                    &&& side == 0 ==> (r matches Err(MudError::NotFound(m)) && m@ == "玩家不在交易中"@)
                    &&& side != 0 && slot_of(t, side).confirmed ==> (r matches Err(MudError::RuntimeError(m)) && m@ == "已确认，不能修改"@)
                    &&& r is Ok ==> (trade_at(*final(self), tid) matches Some(t2) && slot_of(t2, side).items@ == slot_of(t, side).items@.push(item))
                }
                &&& forall|k: Seq<char>| k != tid ==> #[trigger] trade_at(*final(self), k) == trade_at(*old(self), k)
            },
    {
        let ghost v0 = self.active_trades@;
        let (i, mut t) = match self.take_trade(player_id) {
            Ok(x) => x,
            Err(e) => return Err(e),
        };
        let res = t.add_item_at(player_id, item, current_timestamp());
        self.put_trade(i, t);
        proof {
            lemma_put_back(v0, i as int, t);
        }
        res
    }
}

impl TradeDaemon {
    /// Takes the item at `index` out of the player's offer.
    pub fn remove_item(&mut self, player_id: &str, index: usize) -> (r: Result<TradeItem, MudError>)
        requires
            old(self).wf(),
        ensures
            trade_of(*old(self), player_id@) matches Some(tid) ==> (trade_at(*old(self), tid) matches Some(t)
                ==> exists|now: i64, t2: TradeSession| trade_at(*final(self), tid) == Some(t2)
                    && #[trigger] trade_session_remove_item_done(t, t2, player_id, index, now, r)),
            final(self).wf(),
            final(self).player_trades@ == old(self).player_trades@,
            trade_of(*old(self), player_id@) is None ==> (r matches Err(MudError::NotFound(m)) && m@ == "未在交易中"@),
            trade_of(*old(self), player_id@) matches Some(tid) ==> {
                &&& trade_at(*old(self), tid) is None ==> (r matches Err(MudError::NotFound(m)) && m@ == "交易不存在"@)
                &&& trade_at(*old(self), tid) matches Some(t) ==> {
                    let side = side_of(t, player_id@);
                    &&& side == 0 ==> (r matches Err(MudError::NotFound(m)) && m@ == "玩家不在交易中"@)
                    &&& side != 0 && slot_of(t, side).confirmed ==> (r matches Err(MudError::RuntimeError(m)) && m@ == "已确认，不能修改"@)
                    &&& side != 0 && !slot_of(t, side).confirmed && index >= slot_of(t, side).items@.len()
                        ==> (r matches Err(MudError::NotFound(m)) && m@ == "物品不存在"@)
                    &&& r matches Ok(x) ==> x == slot_of(t, side).items@[index as int] && (trade_at(*final(self), tid) matches Some(t2)
                        && slot_of(t2, side).items@ == slot_of(t, side).items@.remove(index as int))
                }
                &&& forall|k: Seq<char>| k != tid ==> #[trigger] trade_at(*final(self), k) == trade_at(*old(self), k)
            },
    {
        let ghost v0 = self.active_trades@;
        let (i, mut t) = match self.take_trade(player_id) {
            Ok(x) => x,
            Err(e) => return Err(e),
        };
        let res = t.remove_item_at(player_id, index, current_timestamp());
        self.put_trade(i, t);
        proof {
            lemma_put_back(v0, i as int, t);
        }
        res
    }

    /// Sets the gold of the player's offer.
    pub fn set_gold(&mut self, player_id: &str, gold: u64) -> (r: Result<(), MudError>)
        requires
            old(self).wf(),
        ensures
            trade_of(*old(self), player_id@) matches Some(tid) ==> (trade_at(*old(self), tid) matches Some(t)
                ==> exists|now: i64, t2: TradeSession| trade_at(*final(self), tid) == Some(t2)
                    && #[trigger] trade_session_set_gold_done(t, t2, player_id, gold, now, r)),
            final(self).wf(),
            final(self).player_trades@ == old(self).player_trades@,
            trade_of(*old(self), player_id@) is None ==> (r matches Err(MudError::NotFound(m)) && m@ == "未在交易中"@),
            trade_of(*old(self), player_id@) matches Some(tid) ==> {
                &&& trade_at(*old(self), tid) is None ==> (r matches Err(MudError::NotFound(m)) && m@ == "交易不存在"@)
                &&& trade_at(*old(self), tid) matches Some(t) ==> {
                    let side = side_of(t, player_id@);
                    &&& side == 0 ==> (r matches Err(MudError::NotFound(m)) && m@ == "玩家不在交易中"@)
                    &&& side != 0 && slot_of(t, side).confirmed ==> (r matches Err(MudError::RuntimeError(m)) && m@ == "已确认，不能修改"@)
                    &&& r is Ok ==> (trade_at(*final(self), tid) matches Some(t2) && slot_of(t2, side).gold == gold)
                }
                &&& forall|k: Seq<char>| k != tid ==> #[trigger] trade_at(*final(self), k) == trade_at(*old(self), k)
            },
    {
        let ghost v0 = self.active_trades@;
        let (i, mut t) = match self.take_trade(player_id) {
            Ok(x) => x,
            Err(e) => return Err(e),
        };
        let res = t.set_gold_at(player_id, gold, current_timestamp());
        self.put_trade(i, t);
        proof {
            lemma_put_back(v0, i as int, t);
        }
        res
    }

    /// The player confirms their offer; returns whether both sides have.
    pub fn confirm_trade(&mut self, player_id: &str) -> (r: Result<bool, MudError>)
        requires
            old(self).wf(),
        ensures
            trade_of(*old(self), player_id@) matches Some(tid) ==> (trade_at(*old(self), tid) matches Some(t)
                ==> exists|now: i64, t2: TradeSession| trade_at(*final(self), tid) == Some(t2)
                    && #[trigger] confirm_done(t, t2, player_id, now, r)),
            final(self).wf(),
            final(self).player_trades@ == old(self).player_trades@,
            trade_of(*old(self), player_id@) is None ==> (r matches Err(MudError::NotFound(m)) && m@ == "未在交易中"@),
            trade_of(*old(self), player_id@) matches Some(tid) ==> {
                &&& trade_at(*old(self), tid) is None ==> (r matches Err(MudError::NotFound(m)) && m@ == "交易不存在"@)
                &&& trade_at(*old(self), tid) matches Some(t) ==> {
                    let side = side_of(t, player_id@);
                    let both = if side == 1 { t.player2_slot.confirmed } else { t.player1_slot.confirmed };
                    &&& side == 0 ==> (r matches Err(MudError::NotFound(m)) && m@ == "玩家不在交易中"@)
                    &&& side != 0 ==> r == Ok::<bool, MudError>(both) && (trade_at(*final(self), tid) matches Some(t2)
                        && slot_of(t2, side).confirmed && t2.status == (if both { TradeStatus::Confirmed } else { t.status }))
                }
                &&& forall|k: Seq<char>| k != tid ==> #[trigger] trade_at(*final(self), k) == trade_at(*old(self), k)
            },
    {
        let ghost v0 = self.active_trades@;
        let (i, mut t) = match self.take_trade(player_id) {
            Ok(x) => x,
            Err(e) => return Err(e),
        };
        let res = t.confirm_at(player_id, current_timestamp());
        self.put_trade(i, t);
        proof {
            lemma_put_back(v0, i as int, t);
        }
        res
    }

    /// The player withdraws their confirmation; a locked trade stays locked.
    pub fn unconfirm_trade(&mut self, player_id: &str) -> (r: Result<(), MudError>)
        requires
            old(self).wf(),
        ensures
            trade_of(*old(self), player_id@) matches Some(tid) ==> (trade_at(*old(self), tid) matches Some(t)
                ==> exists|now: i64, t2: TradeSession| trade_at(*final(self), tid) == Some(t2)
                    && #[trigger] unconfirm_done(t, t2, player_id, now, r)),
            final(self).wf(),
            final(self).player_trades@ == old(self).player_trades@,
            trade_of(*old(self), player_id@) is None ==> (r matches Err(MudError::NotFound(m)) && m@ == "未在交易中"@),
            trade_of(*old(self), player_id@) matches Some(tid) ==> {
                &&& trade_at(*old(self), tid) is None ==> (r matches Err(MudError::NotFound(m)) && m@ == "交易不存在"@)
                &&& trade_at(*old(self), tid) matches Some(t) ==> {
                    let side = side_of(t, player_id@);
                    &&& t.status == TradeStatus::Confirmed ==> (r matches Err(MudError::RuntimeError(m)) && m@ == "交易已锁定，不能取消"@)
                    &&& t.status != TradeStatus::Confirmed && side == 0 ==> (r matches Err(MudError::NotFound(m)) && m@ == "玩家不在交易中"@)
                    &&& r is Ok ==> (trade_at(*final(self), tid) matches Some(t2) && !slot_of(t2, side).confirmed)
                }
                &&& forall|k: Seq<char>| k != tid ==> #[trigger] trade_at(*final(self), k) == trade_at(*old(self), k)
            },
    {
        let ghost v0 = self.active_trades@;
        let (i, mut t) = match self.take_trade(player_id) {
            Ok(x) => x,
            Err(e) => return Err(e),
        };
        let res = t.unconfirm_at(player_id, current_timestamp());
        self.put_trade(i, t);
        proof {
            lemma_put_back(v0, i as int, t);
        }
        res
    }

    /// Completes the player's trade once both sides have confirmed: each
    /// player receives the other's items and gold, and the trade is dropped.
    pub fn complete_trade(&mut self, player_id: &str) -> (r: Result<TradeResult, MudError>)
        requires
            old(self).wf(),
        ensures
            final(self).wf(),
            match trade_of(*old(self), player_id@) {
                None => (r matches Err(MudError::NotFound(m)) && m@ == "未在交易中"@) && final(self).active_trades@ == old(self).active_trades@
                    && final(self).player_trades@ == old(self).player_trades@,
                Some(tid) => match trade_at(*old(self), tid) {
                    None => (r matches Err(MudError::NotFound(m)) && m@ == "交易不存在"@) && final(self).active_trades@ == old(self).active_trades@
                        && final(self).player_trades@ == old(self).player_trades@,
                    Some(t) => if !(t.player1_slot.confirmed && t.player2_slot.confirmed) {
                        (r matches Err(MudError::RuntimeError(m)) && m@ == "双方都未确认"@) && final(self).active_trades@ == old(self).active_trades@
                            && final(self).player_trades@ == old(self).player_trades@
                    } else {
                        &&& r matches Ok(res) && {
                            &&& res.player1_id == t.player1_id && res.player2_id == t.player2_id
                            &&& res.player1_items@ == t.player2_slot.items@ && res.player1_gold == t.player2_slot.gold
                            &&& res.player2_items@ == t.player1_slot.items@ && res.player2_gold == t.player1_slot.gold
                        }
                        &&& trade_at(*final(self), tid) is None
                        &&& forall|k: Seq<char>| k != tid ==> #[trigger] trade_at(*final(self), k) == trade_at(*old(self), k)
                        &&& trade_of(*final(self), t.player1_id@) is None && trade_of(*final(self), t.player2_id@) is None
                    },
                },
            },
    {
        let tid = match get_key(&self.player_trades, player_id) {
            Some(p) => p.trade_id.clone(),
            None => return Err(not_found("未在交易中")),
        };
        let t = match get_key(&self.active_trades, tid.as_str()) {
            Some(t) => t,
            None => return Err(not_found("交易不存在")),
        };
        if !t.can_complete() {
            return Err(runtime_error("双方都未确认"));
        }
        let result = TradeResult {
            player1_id: t.player1_id.clone(),
            player1_items: clone_items(&t.player2_slot.items),
            player1_gold: t.player2_slot.gold,
            player2_id: t.player2_id.clone(),
            player2_items: clone_items(&t.player1_slot.items),
            player2_gold: t.player1_slot.gold,
        };
        self.cleanup_trade(tid.as_str());
        Ok(result)
    }

    /// The player's trade as they see it.
    pub fn get_trade_info(&self, player_id: &str) -> (r: Option<String>)
        ensures
            match trade_of(*self, player_id@) {
                Some(tid) => match trade_at(*self, tid) {
                    Some(t) => r matches Some(x) && x@ == trade_text(t, player_id@),
                    None => r is None,
                },
                None => r is None,
            },
    {
        let p = match get_key(&self.player_trades, player_id) {
            Some(p) => p,
            None => return None,
        };
        match get_key(&self.active_trades, p.trade_id.as_str()) {
            Some(t) => Some(t.format_info(player_id)),
            None => None,
        }
    }

    /// The other player of the player's trade.
    pub fn get_opponent(&self, player_id: &str) -> (r: Option<String>)
        ensures
            match trade_of(*self, player_id@) {
                Some(tid) => match trade_at(*self, tid) {
                    Some(t) => {
                        &&& side_of(t, player_id@) == 1 ==> (r matches Some(o) && o@ == t.player2_id@)
                        &&& side_of(t, player_id@) == 2 ==> (r matches Some(o) && o@ == t.player1_id@)
                        &&& side_of(t, player_id@) == 0 ==> r is None
                    },
                    None => r is None,
                },
                None => r is None,
            },
    {
        let p = match get_key(&self.player_trades, player_id) {
            Some(p) => p,
            None => return None,
        };
        match get_key(&self.active_trades, p.trade_id.as_str()) {
            Some(t) => match t.get_opponent(player_id) {
                Some(o) => Some(string_of(o)),
                None => None,
            },
            None => None,
        }
    }

    /// Drops the trades left untouched for longer than the timeout at
    /// `now`, with their players' records; returns how many trades remain.
    pub fn cleanup_expired_at(&mut self, now: i64) -> (r: usize)
        requires
            old(self).wf(),
            forall|j: int| 0 <= j < old(self).active_trades@.len() ==> i64::MIN <= now - (#[trigger] old(self).active_trades@[j]).updated_at <= i64::MAX,
        ensures
            cleanup_expired_done(*old(self), *final(self), now, r),
    {
        let ghost s0 = self.active_trades@;
        let ghost tmo = self.timeout as int;
        let mut rest: Vec<TradeSession> = Vec::new();
        std::mem::swap(&mut rest, &mut self.active_trades);
        let mut n: usize = 0;
        while rest.len() > 0
            invariant
                rest@ == s0.skip(n as int),
                s0 == old(self).active_trades@,
                n <= s0.len(),
                tmo == self.timeout,
                self.timeout == old(self).timeout,
                keys_unique(s0),
                forall|j: int| 0 <= j < s0.len() ==> i64::MIN <= now - (#[trigger] s0[j]).updated_at <= i64::MAX,
                self.active_trades@ == live_trades(s0.take(n as int), now as int, tmo),
                keys_unique(self.player_trades@),
                forall|p: Seq<char>| #[trigger] trade_of(*self, p) == if in_dead_trade(s0.take(n as int), now as int, tmo, p) {
                    None
                } else {
                    trade_of(*old(self), p)
                },
            decreases rest@.len(),
        {
            let ghost before = *self;
            let t = rest.remove(0);
            assert(t == s0[n as int]);
            assert(s0.take(n + 1).drop_last() =~= s0.take(n as int));
            assert(s0.take(n + 1).last() == s0[n as int]);
            assert(rest@ =~= s0.skip(n + 1));
            if now - t.updated_at > self.timeout {
                let ghost gt = t;
                drop_key(&mut self.player_trades, t.player1_id.as_str());
                let ghost mid = self.player_trades@;
                drop_key(&mut self.player_trades, t.player2_id.as_str());
                proof {
                    assert forall|p: Seq<char>| #[trigger] trade_of(*self, p) == if in_dead_trade(s0.take(n + 1), now as int, tmo, p) {
                        None
                    } else {
                        trade_of(*old(self), p)
                    } by {
                        if p == gt.player1_id@ || p == gt.player2_id@ {
                            if p != gt.player2_id@ {
                                assert(key_get(self.player_trades@, p) == key_get(mid, p));
                            }
                        } else {
                            assert(key_get(self.player_trades@, p) == key_get(mid, p));
                            assert(trade_of(*self, p) == trade_of(before, p));
                        }
                    }
                }
            } else {
                self.active_trades.push(t);
                proof {
                    assert forall|p: Seq<char>| #[trigger] trade_of(*self, p) == if in_dead_trade(s0.take(n + 1), now as int, tmo, p) {
                        None
                    } else {
                        trade_of(*old(self), p)
                    } by {
                        assert(trade_of(*self, p) == trade_of(before, p));
                    }
                }
            }
            assert(n < old(self).active_trades.len());
            n = n + 1;
        }
        assert(s0.take(n as int) =~= s0);
        proof {
            lemma_live_trades(s0, now as int, tmo);
        }
        self.active_trades.len()
    }

    /// Drops the trades left untouched too long (see `cleanup_expired_at`).
    pub fn cleanup_expired(&mut self) -> (r: usize)
        requires
            old(self).wf(),
            forall|j: int| 0 <= j < old(self).active_trades@.len() ==> -0x7000_0000_0000_0000 <= (#[trigger] old(self).active_trades@[j]).updated_at <= 0x7000_0000_0000_0000,
        ensures
            exists|now: i64| #[trigger] cleanup_expired_done(*old(self), *final(self), now, r),
            final(self).wf(),
            r == final(self).active_trades@.len(),
    {
        let now = current_timestamp();
        self.cleanup_expired_at(now)
    }

    /// The player is in a trade.
    pub fn is_in_trade(&self, player_id: &str) -> (r: bool)
        ensures
            r == (trade_of(*self, player_id@) is Some),
    {
        proof {
            lemma_key_in_get(self.player_trades@, player_id@);
        }
        find_key(&self.player_trades, player_id).is_some()
    }
}

impl Default for TradeDaemon {
    fn default() -> (r: Self)
        ensures
            r.wf(),
            r.active_trades@.len() == 0 && r.player_trades@.len() == 0 && r.timeout == 300,
    {
        Self::new()
    }
}

/// Putting a changed trade back where it was taken keeps the ids distinct
/// and changes what its id finds only.
pub proof fn lemma_put_back(v0: Seq<TradeSession>, i: int, t: TradeSession)
    requires
        keys_unique(v0),
        0 <= i < v0.len(),
        t.trade_id@ == v0[i].trade_id@,
    ensures
        v0.remove(i).insert(i, t) == v0.update(i, t),
        keys_unique(v0.update(i, t)),
        key_get(v0.update(i, t), t.trade_id@) == Some(t),
        forall|k: Seq<char>| k != t.trade_id@ ==> #[trigger] key_get(v0.update(i, t), k) == key_get(v0, k),
{
    assert(v0.remove(i).insert(i, t) =~= v0.update(i, t));
    crate::util::lemma_unique_pos(v0, i);
    lemma_keyed_update(v0, i, t);
}

/// What `TradeSession::confirm_at` promises: `o` is the value before the call, `f` the value after, `r`
/// what it gives back.
pub open spec fn confirm_done(
    o: TradeSession, f: TradeSession, player_id: &str, now: i64, r: Result<bool, MudError>) -> bool {
    &&& (confirmed_by(o, f, player_id@, now, r))
}

/// What `TradeSession::unconfirm_at` promises: `o` is the value before the call, `f` the value after,
/// `r` what it gives back.
pub open spec fn unconfirm_done(
    o: TradeSession, f: TradeSession, player_id: &str, now: i64, r: Result<(), MudError>) -> bool {
    &&& (({
        let side = side_of(o, player_id@);
        if o.status == TradeStatus::Confirmed {
            (r matches Err(MudError::RuntimeError(m)) && m@ == "交易已锁定，不能取消"@) && f == o
        } else if side == 0 {
            (r matches Err(MudError::NotFound(m)) && m@ == "玩家不在交易中"@) && f == o
        } else {
            &&& r is Ok
            &&& only_slot_changed(o, f, side)
            &&& f.status == o.status && f.updated_at == now
            &&& slot_of(f, side).items@ == slot_of(o, side).items@
            &&& slot_of(f, side).gold == slot_of(o, side).gold
            &&& !slot_of(f, side).confirmed
        }
    }))
}

/// What `TradeDaemon::request_trade_at` promises: `o` is the value before the call, `f` the value
/// after, `r` what it gives back.
pub open spec fn request_trade_done(
    o: TradeDaemon, f: TradeDaemon, player1_id: String, player1_name: String, player2_id: String,
    player2_name: String, now: i64, nanos: i64, roll: u32, r: Result<String, MudError>) -> bool {
    &&& (f.wf())
    &&& (f.timeout == o.timeout)
    &&& (trade_of(o, player1_id@) is Some ==> (r matches Err(MudError::RuntimeError(m)) && m@ == "你已在交易中"@)
        && f.active_trades@ == o.active_trades@ && f.player_trades@ == o.player_trades@)
    &&& (trade_of(o, player1_id@) is None && trade_of(o, player2_id@) is Some ==> (r matches Err(MudError::RuntimeError(m))
        && m@ == "对方已在交易中"@) && f.active_trades@ == o.active_trades@
        && f.player_trades@ == o.player_trades@)
    &&& (trade_of(o, player1_id@) is None && trade_of(o, player2_id@) is None ==> {
        let id = new_trade_id(nanos, roll);
        &&& r matches Ok(x) && x@ == id
        &&& trade_at(f, id) matches Some(t) && {
            &&& t.player1_id == player1_id && t.player1_name == player1_name
            &&& t.player2_id == player2_id && t.player2_name == player2_name
            &&& t.status == TradeStatus::Waiting && t.created_at == now && t.updated_at == now
            &&& t.player1_slot.items@.len() == 0 && t.player1_slot.gold == 0 && !t.player1_slot.confirmed
            &&& t.player2_slot.items@.len() == 0 && t.player2_slot.gold == 0 && !t.player2_slot.confirmed
        }
        &&& forall|k: Seq<char>| k != id ==> #[trigger] trade_at(f, k) == trade_at(o, k)
        &&& trade_of(f, player1_id@) == Some(id) && trade_of(f, player2_id@) == Some(id)
        &&& forall|p: Seq<char>| p != player1_id@ && p != player2_id@ ==> #[trigger] trade_of(f, p) == trade_of(o, p)
    })
}

/// What `TradeDaemon::cleanup_expired_at` promises: `o` is the value before the call, `f` the value
/// after, `r` what it gives back.
pub open spec fn cleanup_expired_done(o: TradeDaemon, f: TradeDaemon, now: i64, r: usize) -> bool {
    &&& (f.wf())
    &&& (f.timeout == o.timeout)
    &&& (f.active_trades@ == live_trades(o.active_trades@, now as int, o.timeout as int))
    &&& (r == f.active_trades@.len())
    &&& (forall|p: Seq<char>| #[trigger] trade_of(f, p) == if in_dead_trade(o.active_trades@, now as int, o.timeout as int, p) {
        None
    } else {
        trade_of(o, p)
    })
}

/// What `TradeSession::new_at` promises: for the arguments given, `r` what it gives back.
pub open spec fn trade_session_new_done(
    trade_id: String, player1_id: String, player1_name: String, player2_id: String, player2_name: String,
    now: i64, r: TradeSession) -> bool {
    &&& (r.trade_id == trade_id && r.player1_id == player1_id && r.player1_name == player1_name)
    &&& (r.player2_id == player2_id && r.player2_name == player2_name)
    &&& (r.player1_slot.items@.len() == 0 && r.player1_slot.gold == 0 && !r.player1_slot.confirmed)
    &&& (r.player2_slot.items@.len() == 0 && r.player2_slot.gold == 0 && !r.player2_slot.confirmed)
    &&& (r.status == TradeStatus::Waiting && r.created_at == now && r.updated_at == now)
}

/// What `TradeSession::add_item_at` promises: `o` is the value before the call, `f` the value after,
/// `r` what it gives back.
pub open spec fn trade_session_add_item_done(
    o: TradeSession, f: TradeSession, player_id: &str, item: TradeItem, now: i64, r: Result<(), MudError>) -> bool {
    &&& (({
        let side = side_of(o, player_id@);
        let s = slot_of(o, side);
        if side == 0 {
            (r matches Err(MudError::NotFound(m)) && m@ == "玩家不在交易中"@) && f == o
        } else if s.confirmed {
            (r matches Err(MudError::RuntimeError(m)) && m@ == "已确认，不能修改"@) && f == o
        } else {
            &&& r is Ok
            &&& only_slot_changed(o, f, side)
            &&& f.status == o.status && f.updated_at == now
            &&& slot_of(f, side).items@ == s.items@.push(item)
            &&& slot_of(f, side).gold == s.gold && slot_of(f, side).confirmed == s.confirmed
        }
    }))
}

/// What `TradeSession::remove_item_at` promises: `o` is the value before the call, `f` the value after,
/// `r` what it gives back.
pub open spec fn trade_session_remove_item_done(
    o: TradeSession, f: TradeSession, player_id: &str, index: usize, now: i64,
    r: Result<TradeItem, MudError>) -> bool {
    &&& (({
        let side = side_of(o, player_id@);
        let s = slot_of(o, side);
        if side == 0 {
            (r matches Err(MudError::NotFound(m)) && m@ == "玩家不在交易中"@) && f == o
        } else if s.confirmed {
            (r matches Err(MudError::RuntimeError(m)) && m@ == "已确认，不能修改"@) && f == o
        } else if index >= s.items@.len() {
            (r matches Err(MudError::NotFound(m)) && m@ == "物品不存在"@) && f == o
        } else {
            &&& r == Ok::<TradeItem, MudError>(s.items@[index as int])
            &&& only_slot_changed(o, f, side)
            &&& f.status == o.status && f.updated_at == now
            &&& slot_of(f, side).items@ == s.items@.remove(index as int)
            &&& slot_of(f, side).gold == s.gold && slot_of(f, side).confirmed == s.confirmed
        }
    }))
}

/// What `TradeSession::set_gold_at` promises: `o` is the value before the call, `f` the value after,
/// `r` what it gives back.
pub open spec fn trade_session_set_gold_done(
    o: TradeSession, f: TradeSession, player_id: &str, gold: u64, now: i64, r: Result<(), MudError>) -> bool {
    &&& (({
        let side = side_of(o, player_id@);
        let s = slot_of(o, side);
        if side == 0 {
            (r matches Err(MudError::NotFound(m)) && m@ == "玩家不在交易中"@) && f == o
        } else if s.confirmed {
            (r matches Err(MudError::RuntimeError(m)) && m@ == "已确认，不能修改"@) && f == o
        } else {
            &&& r is Ok
            &&& only_slot_changed(o, f, side)
            &&& f.status == o.status && f.updated_at == now
            &&& slot_of(f, side).items@ == s.items@
            &&& slot_of(f, side).gold == gold && slot_of(f, side).confirmed == s.confirmed
        }
    }))
}

} // verus!
