//! The auction house: lots with a starting price, bids that must beat the
//! current one by a minimum step, buyout, cancellation, searches, and the
//! settling of lots whose time is up. The house keeps a fee of 5 percent.
use vstd::prelude::*;
use crate::errors::{MudError, runtime_error, not_found};
use crate::text::{push_str, push_u64, push_i64, string_of, nat_digits, int_digits, str_eq, str_contains, seq_contains};
use crate::util::{Keyed, key_pos, key_get, key_in, keys_unique, find_key, get_key, put_key, lemma_key_get_at,
    lemma_key_get_none, lemma_keyed_update, lemma_key_in_get};
use crate::outside::{current_timestamp, current_timestamp_nanos, utc_minute, utc_minute_text};
use crate::shop_system::{to_u64, as_u64};

verus! {

/// Where a lot stands.
#[derive(Clone, Copy, Debug, PartialEq, Eq, Structural)]
pub enum AuctionStatus {
    Active,
    Sold,
    Failed,
    Cancelled,
}

/// The kind of a lot.
#[derive(Clone, Copy, Debug, PartialEq, Eq, Structural)]
pub enum AuctionItemType {
    Equipment,
    Consumable,
    Material,
    Pet,
    Other,
}

/// A lot of the auction house.
#[derive(Debug)]
pub struct AuctionItem {
    pub id: String,
    pub item_id: String,
    pub item_name: String,
    pub item_type: AuctionItemType,
    pub description: String,
    pub seller_id: String,
    pub seller_name: String,
    pub starting_price: u64,
    pub buyout_price: Option<u64>,
    pub current_bid: u64,
    pub current_bidder: Option<String>,
    pub min_increment: u64,
    pub status: AuctionStatus,
    pub start_time: i64,
    pub end_time: i64,
    pub quality: i32,
}

impl Clone for AuctionItem {
    fn clone(&self) -> (r: Self)
        ensures
            r == *self,
    {
        AuctionItem {
            id: self.id.clone(),
            item_id: self.item_id.clone(),
            item_name: self.item_name.clone(),
            item_type: self.item_type,
            description: self.description.clone(),
            seller_id: self.seller_id.clone(),
            seller_name: self.seller_name.clone(),
            starting_price: self.starting_price,
            buyout_price: self.buyout_price,
            current_bid: self.current_bid,
            current_bidder: match &self.current_bidder {
                Some(b) => Some(b.clone()),
                None => None,
            },
            min_increment: self.min_increment,
            status: self.status,
            start_time: self.start_time,
            end_time: self.end_time,
            quality: self.quality,
        }
    }
}

impl Keyed for AuctionItem {
    open spec fn key_view(&self) -> Seq<char> {
        self.id@
    }

    fn key(&self) -> (r: &String) {
        &self.id
    }
}

/// The Chinese name of a kind of lot.
pub open spec fn auction_type_name(t: AuctionItemType) -> Seq<char> {
    match t {
        AuctionItemType::Equipment => "装备"@,
        AuctionItemType::Consumable => "消耗品"@,
        AuctionItemType::Material => "材料"@,
        AuctionItemType::Pet => "宠物"@,
        AuctionItemType::Other => "其他"@,
    }
}

/// The status of a lot, as the detail view shows it.
pub open spec fn auction_status_text(s: AuctionStatus) -> Seq<char> {
    match s {
        AuctionStatus::Active => "§G拍卖中§N"@,
        AuctionStatus::Sold => "§Y已成交§N"@,
        AuctionStatus::Failed => "§R已流拍§N"@,
        AuctionStatus::Cancelled => "§X已取消§N"@,
    }
}

/// The status of a lot, as the list shows it.
pub open spec fn auction_status_tag(s: AuctionStatus) -> Seq<char> {
    match s {
        AuctionStatus::Active => "§G[拍]§N"@,
        AuctionStatus::Sold => "§Y[售]§N"@,
        AuctionStatus::Failed => "§R[流]§N"@,
        AuctionStatus::Cancelled => "§X[消]§N"@,
    }
}

/// The smallest step a bid must add: 5 percent of the starting price, at
/// least 1.
pub open spec fn min_step(starting_price: int) -> int {
    if starting_price * 5 / 100 >= 1 { starting_price * 5 / 100 } else { 1 }
}

/// The house's fee on a price: 5 percent, rounded down.
pub open spec fn house_fee(price: int) -> int {
    price * 5 / 100
}

/// The hours left at `now`, 0 once the lot is over.
pub open spec fn hours_left(a: AuctionItem, now: int) -> int {
    if a.end_time - now >= 0 { (a.end_time - now) / 3600 } else { 0 }
}

/// The minutes left beyond the hours at `now`, 0 once the lot is over.
pub open spec fn minutes_left(a: AuctionItem, now: int) -> int {
    if a.end_time - now >= 0 { ((a.end_time - now) % 3600) / 60 } else { 0 }
}

/// The first lines of a lot's detail view, up to the starting price.
pub open spec fn lot_head(a: AuctionItem, now: int) -> Seq<char> {
    "§H["@ + a.item_name@ + "]§N "@ + auction_type_name(a.item_type) + " - Lv."@ + int_digits(a.quality as int)
        + "\n卖家: "@ + a.seller_name@ + "\n状态: "@ + auction_status_text(a.status) + " | 剩余: "@ + int_digits(hours_left(a, now))
        + "小时"@ + int_digits(minutes_left(a, now)) + "分\n起拍: "@ + nat_digits(a.starting_price as nat) + " 金币"@
}

/// The buyout price part of a lot's detail view.
pub open spec fn lot_buyout(a: AuctionItem) -> Seq<char> {
    match a.buyout_price {
        Some(b) => " | 一口价: "@ + nat_digits(b as nat) + " 金币"@,
        None => Seq::empty(),
    }
}

/// The current bid part of a lot's detail view, once someone bid above the
/// starting price.
pub open spec fn lot_bid(a: AuctionItem) -> Seq<char> {
    if a.current_bid > a.starting_price {
        "\n当前出价: "@ + nat_digits(a.current_bid as nat) + " 金币 (出价者: "@ + match a.current_bidder {
            Some(b) => b@,
            None => "未知"@,
        } + ")"@
    } else {
        Seq::empty()
    }
}

/// The detail view of a lot at time `now`.
pub open spec fn lot_text(a: AuctionItem, now: int) -> Seq<char> {
    lot_head(a, now) + lot_buyout(a) + lot_bid(a)
}

/// The list line of a lot.
pub open spec fn lot_line(a: AuctionItem) -> Seq<char> {
    auction_status_tag(a.status) + " "@ + a.item_name@ + " - "@ + nat_digits(a.current_bid as nat) + "金币 ("@ + a.seller_name@ + ")"@
}

impl AuctionItem {
    /// A lot put up at time `now` for `duration_hours` hours: active, bid at
    /// the starting price, with a step of `min_step`.
    pub fn new_at(
        id: String,
        item_id: String,
        item_name: String,
        item_type: AuctionItemType,
        seller_id: String,
        seller_name: String,
        starting_price: u64,
        duration_hours: u64,
        now: i64,
    ) -> (r: Self)
        requires
            duration_hours * 3600 <= i64::MAX,
            i64::MIN <= now + duration_hours * 3600 <= i64::MAX,
            starting_price * 5 <= u64::MAX,
        ensures
            auction_item_new_done(id, item_id, item_name, item_type, seller_id, seller_name, starting_price, duration_hours, now, r),
    {
        let step = starting_price * 5 / 100;
        AuctionItem {
            id,
            item_id,
            item_name,
            item_type,
            description: String::new(),
            seller_id,
            seller_name,
            starting_price,
            buyout_price: None,
            current_bid: starting_price,
            current_bidder: None,
            min_increment: if step >= 1 { step } else { 1 },
            status: AuctionStatus::Active,
            start_time: now,
            end_time: now + (duration_hours * 3600) as i64,
            quality: 1,
        }
    }

    /// A lot put up now (see `new_at`).
    pub fn new(
        id: String,
        item_id: String,
        item_name: String,
        item_type: AuctionItemType,
        seller_id: String,
        seller_name: String,
        starting_price: u64,
        duration_hours: u64,
    ) -> (r: Self)
        requires
            duration_hours <= 1_000_000_000_000,
            starting_price * 5 <= u64::MAX,
        ensures
            exists|now: i64| #[trigger] auction_item_new_done(id, item_id, item_name, item_type, seller_id, seller_name, starting_price, duration_hours, now, r),
            r.id == id && r.item_id == item_id && r.item_name == item_name && r.item_type == item_type,
            r.seller_id == seller_id && r.seller_name == seller_name,
            r.starting_price == starting_price && r.buyout_price is None,
            r.current_bid == starting_price && r.current_bidder is None,
            r.min_increment == min_step(starting_price as int),
            r.status == AuctionStatus::Active,
            r.end_time == r.start_time + duration_hours * 3600,
            r.quality == 1,
    {
        let now = current_timestamp();
        Self::new_at(id, item_id, item_name, item_type, seller_id, seller_name, starting_price, duration_hours, now)
    }

    /// The lot's time is over at `now`.
    pub fn is_expired_at(&self, now: i64) -> (r: bool)
        ensures
            is_expired_done(*self, now, r),
    {
        now > self.end_time
    }

    /// The lot's time is over.
    pub fn is_expired(&self) -> (r: bool)
        ensures
            exists|now: i64| #[trigger] is_expired_done(*self, now, r),
            self.end_time >= 200_000_000_000_000 ==> !r,
            self.end_time < -200_000_000_000_000 ==> r,
    {
        self.is_expired_at(current_timestamp())
    }

    /// The lot is active and has a buyout price.
    pub fn can_buyout(&self) -> (r: bool)
        ensures
            r == (self.status == AuctionStatus::Active && self.buyout_price is Some),
    {
        self.status == AuctionStatus::Active && self.buyout_price.is_some()
    }

    /// The lowest bid accepted: the current bid plus the step.
    pub fn get_min_bid(&self) -> (r: u64)
        requires
            self.current_bid + self.min_increment <= u64::MAX,
        ensures
            r == self.current_bid + self.min_increment,
    {
        self.current_bid + self.min_increment
    }

    /// The detail view of the lot at time `now`.
    pub fn format_info_at(&self, now: i64) -> (r: String)
        requires
            i64::MIN <= self.end_time - now <= i64::MAX,
        ensures
            r@ == lot_text(*self, now as int),
    {
        let kind_text = match self.item_type {
            AuctionItemType::Equipment => "装备",
            AuctionItemType::Consumable => "消耗品",
            AuctionItemType::Material => "材料",
            AuctionItemType::Pet => "宠物",
            AuctionItemType::Other => "其他",
        };
        let status_text = match self.status {
            AuctionStatus::Active => "§G拍卖中§N",
            AuctionStatus::Sold => "§Y已成交§N",
            AuctionStatus::Failed => "§R已流拍§N",
            AuctionStatus::Cancelled => "§X已取消§N",
        };
        let remaining = self.end_time - now;
        let hours: i64 = if remaining >= 0 { remaining / 3600 } else { 0 };
        let mins: i64 = if remaining >= 0 { (remaining % 3600) / 60 } else { 0 };
        let mut out = string_of("§H[");
        push_str(&mut out, self.item_name.as_str());
        push_str(&mut out, "]§N ");
        push_str(&mut out, kind_text);
        push_str(&mut out, " - Lv.");
        push_i64(&mut out, self.quality as i64);
        push_str(&mut out, "\n卖家: ");
        push_str(&mut out, self.seller_name.as_str());
        push_str(&mut out, "\n状态: ");
        push_str(&mut out, status_text);
        push_str(&mut out, " | 剩余: ");
        push_i64(&mut out, hours);
        push_str(&mut out, "小时");
        push_i64(&mut out, mins);
        push_str(&mut out, "分\n起拍: ");
        push_u64(&mut out, self.starting_price);
        push_str(&mut out, " 金币");
        let ghost base = out@;
        assert(base =~= lot_head(*self, now as int));
        match self.buyout_price {
            Some(b) => {
                push_str(&mut out, " | 一口价: ");
                push_u64(&mut out, b);
                push_str(&mut out, " 金币");
            },
            None => {},
        }
        let ghost mid = out@;
        assert(mid =~= base + lot_buyout(*self));
        if self.current_bid > self.starting_price {
            push_str(&mut out, "\n当前出价: ");
            push_u64(&mut out, self.current_bid);
            push_str(&mut out, " 金币 (出价者: ");
            match &self.current_bidder {
                Some(b) => push_str(&mut out, b.as_str()),
                None => push_str(&mut out, "未知"),
            }
            push_str(&mut out, ")");
        }
        assert(out@ =~= mid + lot_bid(*self));
        out
    }

    /// The detail view of the lot now.
    pub fn format_info(&self) -> (r: String)
        requires
            -0x7fff_0000_0000_0000 <= self.end_time <= 0x7fff_0000_0000_0000,
        ensures
            exists|now: i64| r@ == lot_text(*self, now as int),
    {
        self.format_info_at(current_timestamp())
    }

    /// The list line of the lot.
    pub fn format_list_item(&self) -> (r: String)
        ensures
            r@ == lot_line(*self),
    {
        let mut out = string_of(match self.status {
            AuctionStatus::Active => "§G[拍]§N",
            AuctionStatus::Sold => "§Y[售]§N",
            AuctionStatus::Failed => "§R[流]§N",
            AuctionStatus::Cancelled => "§X[消]§N",
        });
        push_str(&mut out, " ");
        push_str(&mut out, self.item_name.as_str());
        push_str(&mut out, " - ");
        push_u64(&mut out, self.current_bid);
        push_str(&mut out, "金币 (");
        push_str(&mut out, self.seller_name.as_str());
        push_str(&mut out, ")");
        out
    }
}

/// A bid on a lot.
#[derive(Debug)]
pub struct BidRecord {
    pub bidder_id: String,
    pub bidder_name: String,
    pub amount: u64,
    pub timestamp: i64,
}

/// What a search asks of a lot; each condition that is set must hold.
#[derive(Debug)]
pub struct AuctionSearch {
    pub item_type: Option<AuctionItemType>,
    pub min_price: Option<u64>,
    pub max_price: Option<u64>,
    pub min_quality: Option<i32>,
    pub seller_id: Option<String>,
    pub keyword: Option<String>,
}

impl Default for AuctionSearch {
    fn default() -> (r: Self)
        ensures
            r.item_type is None && r.min_price is None && r.max_price is None && r.min_quality is None,
            r.seller_id is None && r.keyword is None,
    {
        AuctionSearch { item_type: None, min_price: None, max_price: None, min_quality: None, seller_id: None, keyword: None }
    }
}

/// The lot is active and meets every condition of the search; the keyword
/// must occur in the name or the description.
pub open spec fn search_matches(s: AuctionSearch, a: AuctionItem) -> bool {
    &&& a.status == AuctionStatus::Active
    &&& (s.item_type matches Some(t) ==> a.item_type == t)
    &&& (s.min_price matches Some(m) ==> a.current_bid >= m)
    &&& (s.max_price matches Some(m) ==> a.current_bid <= m)
    &&& (s.min_quality matches Some(q) ==> a.quality >= q)
    &&& (s.seller_id matches Some(x) ==> a.seller_id@ == x@)
    &&& (s.keyword matches Some(k) ==> seq_contains(a.item_name@, k@) || seq_contains(a.description@, k@))
}

/// The bids made on one lot, in the order they came.
#[derive(Debug)]
pub struct BidHistory {
    pub auction_id: String,
    pub records: Vec<BidRecord>,
}

impl Keyed for BidHistory {
    open spec fn key_view(&self) -> Seq<char> {
        self.auction_id@
    }

    fn key(&self) -> (r: &String) {
        &self.auction_id
    }
}

/// The ids of the lots a seller put up, in order.
#[derive(Debug)]
pub struct SellerItems {
    pub seller_id: String,
    pub item_ids: Vec<String>,
}

impl Keyed for SellerItems {
    open spec fn key_view(&self) -> Seq<char> {
        self.seller_id@
    }

    fn key(&self) -> (r: &String) {
        &self.seller_id
    }
}

/// The auction house: its lots by id, the bids on each lot, and each
/// seller's lots; a fee in percent and the allowed durations in hours.
#[derive(Debug)]
pub struct AuctionDaemon {
    pub items: Vec<AuctionItem>,
    pub bid_history: Vec<BidHistory>,
    pub seller_items: Vec<SellerItems>,
    pub fee_percent: u64,
    pub min_duration: u64,
    pub max_duration: u64,
}

/// The lot with the id.
pub open spec fn lot(d: AuctionDaemon, id: Seq<char>) -> Option<AuctionItem> {
    key_get(d.items@, id)
}

/// The bids on the lot with the id.
pub open spec fn bids(d: AuctionDaemon, id: Seq<char>) -> Seq<BidRecord> {
    match key_get(d.bid_history@, id) {
        Some(h) => h.records@,
        None => Seq::empty(),
    }
}

/// The lot ids listed for a seller.
pub open spec fn seller_list(d: AuctionDaemon, seller: Seq<char>) -> Seq<String> {
    match key_get(d.seller_items@, seller) {
        Some(e) => e.item_ids@,
        None => Seq::empty(),
    }
}

/// The id a listing gets: `auction_<seller>_<nanoseconds>`.
pub open spec fn listing_id(seller: Seq<char>, nanos: i64) -> Seq<char> {
    "auction_"@ + seller + "_"@ + int_digits(nanos as int)
}

/// What settling a lot whose time is over gives: sold to the highest
/// bidder, the seller receiving the bid less the fee, or failed.
pub open spec fn settled(a: AuctionItem, fee_percent: int) -> (AuctionItem, Option<String>, int) {
    match a.current_bidder {
        Some(b) => (AuctionItem { status: AuctionStatus::Sold, ..a }, Some(b), a.current_bid - a.current_bid * fee_percent / 100),
        None => (AuctionItem { status: AuctionStatus::Failed, ..a }, None, 0),
    }
}

/// The lot is active and its time is over at `now`.
pub open spec fn due(a: AuctionItem, now: int) -> bool {
    a.status == AuctionStatus::Active && a.end_time < now
}

/// The lots after settling those that are due.
pub open spec fn after_settling(items: Seq<AuctionItem>, now: int, fee_percent: int) -> Seq<AuctionItem> {
    Seq::new(items.len(), |i: int| if due(items[i], now) { settled(items[i], fee_percent).0 } else { items[i] })
}

/// The settlements of the due lots, in order.
pub open spec fn settlements(items: Seq<AuctionItem>, now: int, fee_percent: int) -> Seq<(AuctionItem, Option<String>, int)>
    decreases items.len(),
{
    if items.len() == 0 {
        Seq::empty()
    } else {
        let rest = settlements(items.drop_last(), now, fee_percent);
        if due(items.last(), now) { rest.push(settled(items.last(), fee_percent)) } else { rest }
    }
}

/// What settling the lots due at `now` makes of `o` (`f` after) and gives
/// back (`r`): the due lots settled (see `settled`), the rest, the bids and
/// the seller lists as they were, and one settlement per due lot, in order.
pub open spec fn expired_settled(o: AuctionDaemon, f: AuctionDaemon, now: i64, r: Seq<(AuctionItem, Option<String>, u64)>) -> bool {
    &&& f.wf()
    &&& f.items@ == after_settling(o.items@, now as int, o.fee_percent as int)
    &&& f.bid_history@ == o.bid_history@ && f.seller_items@ == o.seller_items@
    &&& f.fee_percent == o.fee_percent
    &&& r.len() == settlements(o.items@, now as int, o.fee_percent as int).len()
    &&& forall|j: int| 0 <= j < r.len() ==> {
        let x = #[trigger] r[j];
        let y = settlements(o.items@, now as int, o.fee_percent as int)[j];
        x.0 == y.0 && x.1 == y.1 && x.2 as int == y.2
    }
}

/// Each settlement is of a lot of `items` due at `now`, settled.
proof fn lemma_settlements_of_due(items: Seq<AuctionItem>, now: int, fee_percent: int, j: int)
    requires
        0 <= j < settlements(items, now, fee_percent).len(),
    ensures
        exists|i: int| 0 <= i < items.len() && due(items[i], now)
            && settlements(items, now, fee_percent)[j] == #[trigger] settled(items[i], fee_percent),
    decreases items.len(),
{
    let rest = settlements(items.drop_last(), now, fee_percent);
    if j < rest.len() {
        lemma_settlements_of_due(items.drop_last(), now, fee_percent, j);
        let i = choose|i: int| 0 <= i < items.drop_last().len() && due(items.drop_last()[i], now)
            && rest[j] == #[trigger] settled(items.drop_last()[i], fee_percent);
        assert(items[i] == items.drop_last()[i]);
    } else {
        assert(due(items.last(), now));
        assert(items.last() == items[items.len() - 1]);
    }
}

/// Settling lots whose time is over: each lot with a bidder is sold to
/// that bidder, and the seller receives the bid less the house's fee (the
/// bid times the fee percentage, over 100), so that what the seller
/// receives and the fee add up to the bid; a lot without a bidder fails
/// and pays nothing. Every lot settled was active and past its end.
pub proof fn lemma_settled_lots_pay_seller(o: AuctionDaemon, f: AuctionDaemon, now: i64,
    r: Seq<(AuctionItem, Option<String>, u64)>, j: int)
    requires
        expired_settled(o, f, now, r),
        0 <= o.fee_percent <= 100,
        0 <= j < r.len(),
    ensures
        ({
            let x = r[j];
            let fee = x.0.current_bid * o.fee_percent / 100;
            &&& x.1 == x.0.current_bidder
            &&& x.0.end_time < now
            &&& x.1 is Some ==> x.0.status == AuctionStatus::Sold && x.2 + fee == x.0.current_bid
            &&& x.1 is None ==> x.0.status == AuctionStatus::Failed && x.2 == 0
        }),
{
    let fp = o.fee_percent as int;
    lemma_settlements_of_due(o.items@, now as int, fp, j);
    let i = choose|i: int| 0 <= i < o.items@.len() && due(o.items@[i], now as int)
        && settlements(o.items@, now as int, fp)[j] == #[trigger] settled(o.items@[i], fp);
    assert(r[j].0 == settled(o.items@[i], fp).0);
}

/// The line of one bid in the history.
pub open spec fn bid_line(b: BidRecord) -> Seq<char> {
    (match utc_minute_text(b.timestamp) {
        Some(t) => t,
        None => "未知"@,
    }) + " - "@ + b.bidder_name@ + " 出价 "@ + nat_digits(b.amount as nat) + "金币\n"@
}

/// The lines of the last bids, newest first: of `recs[..n]`, the ones from
/// `n - k` on.
pub open spec fn recent_bid_lines(recs: Seq<BidRecord>, n: int, k: int) -> Seq<char>
    decreases k,
{
    if k <= 0 || n <= 0 {
        Seq::empty()
    } else {
        bid_line(recs[n - 1]) + recent_bid_lines(recs, n - 1, k - 1)
    }
}

/// The list lines of lots.
pub open spec fn lot_lines(items: Seq<AuctionItem>) -> Seq<char>
    decreases items.len(),
{
    if items.len() == 0 {
        Seq::empty()
    } else {
        lot_lines(items.drop_last()) + "  "@ + lot_line(items.last()) + "\n"@
    }
}

impl AuctionDaemon {
    /// One lot per id, one history per lot, one list per seller.
    pub open spec fn wf(&self) -> bool {
        &&& keys_unique(self.items@)
        &&& keys_unique(self.bid_history@)
        &&& keys_unique(self.seller_items@)
    }

    /// An empty house with a fee of 5 percent and durations of 1 to 72 hours.
    pub fn new() -> (r: Self)
        ensures
            r.wf(),
            r.items@.len() == 0 && r.bid_history@.len() == 0 && r.seller_items@.len() == 0,
            r.fee_percent == 5 && r.min_duration == 1 && r.max_duration == 72,
    {
        AuctionDaemon { items: Vec::new(), bid_history: Vec::new(), seller_items: Vec::new(), fee_percent: 5, min_duration: 1, max_duration: 72 }
    }

    /// Appends a bid to the lot's history.
    fn record_bid(&mut self, auction_id: &str, rec: BidRecord)
        requires
            old(self).wf(),
        ensures
            final(self).wf(),
            final(self).items@ == old(self).items@ && final(self).seller_items@ == old(self).seller_items@,
            final(self).fee_percent == old(self).fee_percent,
            final(self).min_duration == old(self).min_duration && final(self).max_duration == old(self).max_duration,
            bids(*final(self), auction_id@) == bids(*old(self), auction_id@).push(rec),
            forall|k: Seq<char>| k != auction_id@ ==> #[trigger] bids(*final(self), k) == bids(*old(self), k),
    {
        let ghost h0 = self.bid_history@;
        let ghost gr = rec;
        match find_key(&self.bid_history, auction_id) {
            Some(i) => {
                proof {
                    lemma_key_get_at(h0, auction_id@, i as int);
                }
                let mut h = self.bid_history.remove(i);
                assert(h == h0[i as int]);
                h.records.push(rec);
                let ghost h1 = h;
                self.bid_history.insert(i, h);
                proof {
                    assert(self.bid_history@ =~= h0.update(i as int, h1));
                    lemma_keyed_update(h0, i as int, h1);
                    assert forall|k: Seq<char>| k != auction_id@ implies #[trigger] bids(*self, k) == bids(*old(self), k) by {
                        assert(key_get(h0.update(i as int, h1), k) == key_get(h0, k));
                    }
                }
            },
            None => {
                proof {
                    lemma_key_get_none(h0, auction_id@);
                }
                let mut records: Vec<BidRecord> = Vec::new();
                records.push(rec);
                let h = BidHistory { auction_id: string_of(auction_id), records };
                let ghost h1 = h;
                put_key(&mut self.bid_history, h);
                proof {
                    assert(h1.records@ =~= Seq::<BidRecord>::empty().push(gr));
                }
            },
        }
    }

    /// Writes a changed lot back at its place.
    fn store_lot(&mut self, i: usize, a: AuctionItem)
        requires
            old(self).wf(),
            i < old(self).items@.len(),
            a.id@ == old(self).items@[i as int].id@,
        ensures
            final(self).wf(),
            final(self).items@ == old(self).items@.update(i as int, a),
            final(self).bid_history@ == old(self).bid_history@ && final(self).seller_items@ == old(self).seller_items@,
            final(self).fee_percent == old(self).fee_percent,
            final(self).min_duration == old(self).min_duration && final(self).max_duration == old(self).max_duration,
            lot(*final(self), a.id@) == Some(a),
            forall|k: Seq<char>| k != a.id@ ==> #[trigger] lot(*final(self), k) == lot(*old(self), k),
    {
        let ghost v0 = self.items@;
        let ghost ga = a;
        proof {
            crate::util::lemma_unique_pos(v0, i as int);
            lemma_keyed_update(v0, i as int, ga);
        }
        self.items.set(i, a);
    }

    /// Puts a lot up with the id `auction_<seller>_<nanos>`, listed under
    /// the seller. Fails when the duration, in whole hours, is outside the
    /// allowed range, or the starting price is 0.
    pub fn list_item_at(&mut self, item: AuctionItem, seller_id: String, nanos: i64) -> (r: Result<(), MudError>)
        requires
            old(self).wf(),
            i64::MIN <= item.end_time - item.start_time <= i64::MAX,
        ensures
            final(self).wf(),
            ({
                let hours = as_u64(item.end_time - item.start_time) / 3600;
                if hours < old(self).min_duration || hours > old(self).max_duration {
                    &&& r matches Err(MudError::RuntimeError(m)) && m@ == "拍卖时长必须在"@ + nat_digits(old(self).min_duration as nat)
                        + "-"@ + nat_digits(old(self).max_duration as nat) + "小时之间"@
                    &&& final(self).items@ == old(self).items@ && final(self).seller_items@ == old(self).seller_items@
                } else if item.starting_price == 0 {
                    &&& r matches Err(MudError::RuntimeError(m)) && m@ == "起拍价不能为0"@
                    &&& final(self).items@ == old(self).items@ && final(self).seller_items@ == old(self).seller_items@
                } else {
                    let id = listing_id(seller_id@, nanos);
                    &&& r is Ok
                    &&& lot(*final(self), id) matches Some(a) && a == AuctionItem { id: a.id, ..item } && a.id@ == id
                    &&& forall|k: Seq<char>| k != id ==> #[trigger] lot(*final(self), k) == lot(*old(self), k)
                    &&& seller_list(*final(self), seller_id@).map_values(|x: String| x@) == seller_list(*old(self), seller_id@).map_values(|x: String| x@).push(id)
                    &&& forall|k: Seq<char>| k != seller_id@ ==> #[trigger] seller_list(*final(self), k) == seller_list(*old(self), k)
                }
            }),
            final(self).bid_history@ == old(self).bid_history@,
            final(self).fee_percent == old(self).fee_percent,
            final(self).min_duration == old(self).min_duration && final(self).max_duration == old(self).max_duration,
    {
        let span = to_u64(item.end_time - item.start_time);
        let duration = span / 3600;
        if duration < self.min_duration || duration > self.max_duration {
            let mut m = string_of("拍卖时长必须在");
            push_u64(&mut m, self.min_duration);
            push_str(&mut m, "-");
            push_u64(&mut m, self.max_duration);
            push_str(&mut m, "小时之间");
            return Err(MudError::RuntimeError(m));
        }
        if item.starting_price == 0 {
            return Err(runtime_error("起拍价不能为0"));
        }
        let mut id = string_of("auction_");
        push_str(&mut id, seller_id.as_str());
        push_str(&mut id, "_");
        push_i64(&mut id, nanos);
        let mut item = item;
        let ghost g0 = item;
        item.id = id.clone();
        let ghost gi = item;
        let ghost l0 = self.seller_items@;
        match find_key(&self.seller_items, seller_id.as_str()) {
            Some(i) => {
                proof {
                    lemma_key_get_at(l0, seller_id@, i as int);
                }
                let mut e = self.seller_items.remove(i);
                assert(e == l0[i as int]);
                let ghost before = e.item_ids@.map_values(|x: String| x@);
                e.item_ids.push(id);
                assert(e.item_ids@.map_values(|x: String| x@) =~= before.push(listing_id(seller_id@, nanos)));
                let ghost e1 = e;
                self.seller_items.insert(i, e);
                proof {
                    assert(self.seller_items@ =~= l0.update(i as int, e1));
                    lemma_keyed_update(l0, i as int, e1);
                    assert forall|k: Seq<char>| k != seller_id@ implies #[trigger] seller_list(*self, k) == seller_list(*old(self), k) by {
                        assert(key_get(l0.update(i as int, e1), k) == key_get(l0, k));
                    }
                }
            },
            None => {
                proof {
                    lemma_key_get_none(l0, seller_id@);
                }
                let mut ids: Vec<String> = Vec::new();
                ids.push(id);
                let e = SellerItems { seller_id: seller_id.clone(), item_ids: ids };
                let ghost e1 = e;
                put_key(&mut self.seller_items, e);
                proof {
                    assert(e1.item_ids@.map_values(|x: String| x@) =~= Seq::<String>::empty().map_values(|x: String| x@).push(listing_id(seller_id@, nanos)));
                }
            },
        }
        put_key(&mut self.items, item);
        proof {
            assert(gi == AuctionItem { id: gi.id, ..g0 });
        }
        Ok(())
    }

    /// Puts a lot up now (see `list_item_at`); fails with 时间超出范围 when
    /// the clock is outside what nanoseconds can count.
    pub fn list_item(&mut self, item: AuctionItem, seller_id: String) -> (r: Result<(), MudError>)
        requires
            old(self).wf(),
            i64::MIN <= item.end_time - item.start_time <= i64::MAX,
        ensures
            final(self).wf(),
            ({
                let hours = as_u64(item.end_time - item.start_time) / 3600;
                &&& (hours < old(self).min_duration || hours > old(self).max_duration) ==> (r matches Err(MudError::RuntimeError(m))
                    && m@ == "拍卖时长必须在"@ + nat_digits(old(self).min_duration as nat) + "-"@ + nat_digits(old(self).max_duration as nat) + "小时之间"@)
                &&& !(hours < old(self).min_duration || hours > old(self).max_duration) && item.starting_price == 0
                    ==> (r matches Err(MudError::RuntimeError(m)) && m@ == "起拍价不能为0"@)
            }),
            r is Err ==> final(self).items@ == old(self).items@,
            r is Ok ==> exists|nanos: i64| #[trigger] lot(*final(self), listing_id(seller_id@, nanos)) is Some,
    {
        let span = to_u64(item.end_time - item.start_time);
        let duration = span / 3600;
        if duration < self.min_duration || duration > self.max_duration || item.starting_price == 0 {
            return self.list_item_at(item, seller_id, 0);
        }
        match current_timestamp_nanos() {
            Some(nanos) => {
                let r = self.list_item_at(item, seller_id, nanos);
                r
            },
            None => Err(runtime_error("时间超出范围")),
        }
    }

    /// Bids `amount` on a lot at time `now`. Fails for an unknown lot, a lot
    /// not active, a lot whose time is over (which marks it failed), a bid
    /// below the current bid plus the step, and a bid on one's own lot.
    pub fn place_bid_at(&mut self, auction_id: &str, bidder_id: String, bidder_name: String, amount: u64, now: i64) -> (r: Result<(), MudError>)
        requires
            old(self).wf(),
            lot(*old(self), auction_id@) matches Some(a) ==> a.current_bid + a.min_increment <= u64::MAX,
        ensures
            bid_placed(*old(self), *final(self), auction_id@, bidder_id, bidder_name, amount, now, r),
    {
        let i = match find_key(&self.items, auction_id) {
            Some(i) => i,
            None => {
                proof {
                    lemma_key_get_none(self.items@, auction_id@);
                }
                return Err(not_found("拍品不存在"));
            },
        };
        proof {
            lemma_key_get_at(self.items@, auction_id@, i as int);
        }
        if self.items[i].status != AuctionStatus::Active {
            return Err(runtime_error("拍品不在拍卖中"));
        }
        if self.items[i].is_expired_at(now) {
            let mut a = self.items[i].clone();
            a.status = AuctionStatus::Failed;
            self.store_lot(i, a);
            return Err(runtime_error("拍卖已结束"));
        }
        let min_bid = self.items[i].get_min_bid();
        if amount < min_bid {
            let mut m = string_of("出价太低，最低出价为");
            push_u64(&mut m, min_bid);
            push_str(&mut m, "金币");
            return Err(MudError::RuntimeError(m));
        }
        if str_eq(self.items[i].seller_id.as_str(), bidder_id.as_str()) {
            return Err(runtime_error("不能竞拍自己的物品"));
        }
        let mut a = self.items[i].clone();
        a.current_bid = amount;
        a.current_bidder = Some(bidder_id.clone());
        let ghost ga = a;
        self.store_lot(i, a);
        let ghost mid = *self;
        self.record_bid(auction_id, BidRecord { bidder_id, bidder_name, amount, timestamp: now });
        proof {
            assert(lot(*self, auction_id@) == lot(mid, auction_id@));
            assert(lot(mid, auction_id@) == Some(ga));
            assert forall|k: Seq<char>| k != auction_id@ implies #[trigger] lot(*self, k) == lot(*old(self), k) by {
                assert(lot(*self, k) == lot(mid, k));
            }
        }
        Ok(())
    }

    /// Bids on a lot now (see `place_bid_at`).
    pub fn place_bid(&mut self, auction_id: &str, bidder_id: String, bidder_name: String, amount: u64) -> (r: Result<(), MudError>)
        requires
            old(self).wf(),
            lot(*old(self), auction_id@) matches Some(a) ==> a.current_bid + a.min_increment <= u64::MAX,
        ensures
            exists|now: i64| #[trigger] bid_placed(*old(self), *final(self), auction_id@, bidder_id, bidder_name, amount, now, r),
            final(self).wf(),
            lot(*old(self), auction_id@) is None ==> (r matches Err(MudError::NotFound(m)) && m@ == "拍品不存在"@),
            lot(*old(self), auction_id@) matches Some(a) ==> {
                &&& a.status != AuctionStatus::Active ==> (r matches Err(MudError::RuntimeError(m)) && m@ == "拍品不在拍卖中"@)
                &&& a.status == AuctionStatus::Active && amount < a.current_bid + a.min_increment ==> (r matches Err(MudError::RuntimeError(m))
                    && (m@ == "拍卖已结束"@ || m@ == "出价太低，最低出价为"@ + nat_digits((a.current_bid + a.min_increment) as nat) + "金币"@))
                &&& a.status == AuctionStatus::Active && a.seller_id@ == bidder_id@ ==> r is Err
            },
    {
        self.place_bid_at(auction_id, bidder_id, bidder_name, amount, current_timestamp())
    }

    /// Buys a lot at its buyout price at time `now`: the lot is sold to the
    /// buyer and the bid recorded; returns the lot and what the seller
    /// receives after the fee.
    pub fn buyout_at(&mut self, auction_id: &str, buyer_id: String, buyer_name: String, now: i64) -> (r: Result<(AuctionItem, u64), MudError>)
        requires
            old(self).wf(),
            old(self).fee_percent <= 100,
            lot(*old(self), auction_id@) matches Some(a) ==> (a.buyout_price matches Some(p) ==> p * old(self).fee_percent <= u64::MAX),
        ensures
            buyout_done(*old(self), *final(self), auction_id, buyer_id, buyer_name, now, r),
    {
        let i = match find_key(&self.items, auction_id) {
            Some(i) => i,
            None => {
                proof {
                    lemma_key_get_none(self.items@, auction_id@);
                }
                return Err(not_found("拍品不存在"));
            },
        };
        proof {
            lemma_key_get_at(self.items@, auction_id@, i as int);
        }
        if self.items[i].status != AuctionStatus::Active {
            return Err(runtime_error("拍品不在拍卖中"));
        }
        let price = match self.items[i].buyout_price {
            Some(p) => p,
            None => return Err(runtime_error("此拍品不支持一口价")),
        };
        if str_eq(self.items[i].seller_id.as_str(), buyer_id.as_str()) {
            return Err(runtime_error("不能购买自己的物品"));
        }
        let mut a = self.items[i].clone();
        a.status = AuctionStatus::Sold;
        a.current_bid = price;
        a.current_bidder = Some(buyer_id.clone());
        let result = a.clone();
        self.store_lot(i, a);
        let ghost mid = *self;
        self.record_bid(auction_id, BidRecord { bidder_id: buyer_id, bidder_name: buyer_name, amount: price, timestamp: now });
        proof {
            assert(lot(*self, auction_id@) == lot(mid, auction_id@));
            assert forall|k: Seq<char>| k != auction_id@ implies #[trigger] lot(*self, k) == lot(*old(self), k) by {
                assert(lot(*self, k) == lot(mid, k));
            }
        }
        let fp = self.fee_percent;
        assert(price * fp / 100 <= price) by (nonlinear_arith)
            requires
                fp <= 100,
        ;
        let fee = price * self.fee_percent / 100;
        Ok((result, price - fee))
    }

    /// Buys a lot at its buyout price now (see `buyout_at`).
    pub fn buyout(&mut self, auction_id: &str, buyer_id: String, buyer_name: String) -> (r: Result<(AuctionItem, u64), MudError>)
        requires
            old(self).wf(),
            old(self).fee_percent <= 100,
            lot(*old(self), auction_id@) matches Some(a) ==> (a.buyout_price matches Some(p) ==> p * old(self).fee_percent <= u64::MAX),
        ensures
            exists|now: i64| #[trigger] buyout_done(*old(self), *final(self), auction_id, buyer_id, buyer_name, now, r),
            final(self).wf(),
            lot(*old(self), auction_id@) is None ==> (r matches Err(MudError::NotFound(m)) && m@ == "拍品不存在"@),
            r matches Ok((x, receive)) ==> x.status == AuctionStatus::Sold && lot(*final(self), auction_id@) == Some(x),
    {
        self.buyout_at(auction_id, buyer_id, buyer_name, current_timestamp())
    }

    /// Withdraws an active lot without bids; only its seller may.
    pub fn cancel_auction(&mut self, auction_id: &str, seller_id: &str) -> (r: Result<(), MudError>)
        requires
            old(self).wf(),
        ensures
            final(self).wf(),
            final(self).seller_items@ == old(self).seller_items@ && final(self).bid_history@ == old(self).bid_history@,
            match lot(*old(self), auction_id@) {
                None => (r matches Err(MudError::NotFound(m)) && m@ == "拍品不存在"@) && final(self).items@ == old(self).items@,
                Some(a) => if a.seller_id@ != seller_id@ {
                    r == Err::<(), MudError>(MudError::PermissionDenied) && final(self).items@ == old(self).items@
                } else if a.status != AuctionStatus::Active {
                    (r matches Err(MudError::RuntimeError(m)) && m@ == "拍品不在拍卖中"@) && final(self).items@ == old(self).items@
                } else if a.current_bidder is Some {
                    (r matches Err(MudError::RuntimeError(m)) && m@ == "已有出价，无法取消"@) && final(self).items@ == old(self).items@
                } else {
                    &&& r is Ok
                    &&& lot(*final(self), auction_id@) == Some(AuctionItem { status: AuctionStatus::Cancelled, ..a })
                    &&& forall|k: Seq<char>| k != auction_id@ ==> #[trigger] lot(*final(self), k) == lot(*old(self), k)
                },
            },
    {
        let i = match find_key(&self.items, auction_id) {
            Some(i) => i,
            None => {
                proof {
                    lemma_key_get_none(self.items@, auction_id@);
                }
                return Err(not_found("拍品不存在"));
            },
        };
        proof {
            lemma_key_get_at(self.items@, auction_id@, i as int);
        }
        if !str_eq(self.items[i].seller_id.as_str(), seller_id) {
            return Err(MudError::PermissionDenied);
        }
        if self.items[i].status != AuctionStatus::Active {
            return Err(runtime_error("拍品不在拍卖中"));
        }
        if self.items[i].current_bidder.is_some() {
            return Err(runtime_error("已有出价，无法取消"));
        }
        let mut a = self.items[i].clone();
        a.status = AuctionStatus::Cancelled;
        self.store_lot(i, a);
        Ok(())
    }

    /// The lot with the id.
    pub fn get_item(&self, auction_id: &str) -> (r: Option<&AuctionItem>)
        ensures
            r matches Some(a) ==> lot(*self, auction_id@) == Some(*a),
            r is None <==> lot(*self, auction_id@) is None,
    {
        get_key(&self.items, auction_id)
    }
}

/// The ids of lots of `items` with the seller that are removed.
pub open spec fn strip_removed(list: Seq<String>, removed: Seq<AuctionItem>, seller: Seq<char>) -> Seq<String>
    decreases removed.len(),
{
    if removed.len() == 0 {
        list
    } else {
        let rest = strip_removed(list, removed.drop_last(), seller);
        if removed.last().seller_id@ == seller { crate::util::without_str(rest, removed.last().id@) } else { rest }
    }
}

/// The lots of the house with the ids, in order, skipping ids of lots
/// that are gone.
pub open spec fn found_lots(d: AuctionDaemon, ids: Seq<String>) -> Seq<AuctionItem>
    decreases ids.len(),
{
    if ids.len() == 0 {
        Seq::empty()
    } else {
        let rest = found_lots(d, ids.drop_last());
        match lot(d, ids.last()@) {
            Some(a) => rest.push(a),
            None => rest,
        }
    }
}

/// The lots that ended at `cutoff` or later, in order.
pub open spec fn kept_lots(s: Seq<AuctionItem>, cutoff: int) -> Seq<AuctionItem>
    decreases s.len(),
{
    if s.len() == 0 {
        Seq::empty()
    } else {
        let rest = kept_lots(s.drop_last(), cutoff);
        if s.last().end_time >= cutoff { rest.push(s.last()) } else { rest }
    }
}

/// The lots that ended before `cutoff`, in order.
pub open spec fn removed_lots(s: Seq<AuctionItem>, cutoff: int) -> Seq<AuctionItem>
    decreases s.len(),
{
    if s.len() == 0 {
        Seq::empty()
    } else {
        let rest = removed_lots(s.drop_last(), cutoff);
        if s.last().end_time < cutoff { rest.push(s.last()) } else { rest }
    }
}

/// The kept lots are lots of the list, and keep their ids distinct.
pub proof fn lemma_kept_lots(s: Seq<AuctionItem>, cutoff: int)
    ensures
        kept_lots(s, cutoff).len() + removed_lots(s, cutoff).len() == s.len(),
        forall|a: int| 0 <= a < kept_lots(s, cutoff).len() ==> exists|j: int| 0 <= j < s.len() && s[j] == #[trigger] kept_lots(s, cutoff)[a],
        keys_unique(s) ==> keys_unique(kept_lots(s, cutoff)),
    decreases s.len(),
{
    if s.len() > 0 {
        let t = s.drop_last();
        lemma_kept_lots(t, cutoff);
        let f = kept_lots(t, cutoff);
        assert forall|a: int| 0 <= a < f.len() implies exists|j: int| 0 <= j < s.len() && s[j] == #[trigger] f[a] by {
            let j = choose|j: int| 0 <= j < t.len() && t[j] == f[a];
            assert(s[j] == t[j]);
        }
        if keys_unique(s) {
            assert(keys_unique(t));
            if s.last().end_time >= cutoff {
                assert forall|a: int| 0 <= a < f.len() implies f[a].key_view() != s.last().key_view() by {
                    let j = choose|j: int| 0 <= j < t.len() && t[j] == f[a];
                    assert(s[j] == t[j]);
                }
            }
        }
    }
}

fn search_match_exec(search: &AuctionSearch, a: &AuctionItem) -> (r: bool)
    ensures
        r == search_matches(*search, *a),
{
    if a.status != AuctionStatus::Active {
        return false;
    }
    match search.item_type {
        Some(t) => {
            if a.item_type != t {
                return false;
            }
        },
        None => {},
    }
    match search.min_price {
        Some(m) => {
            if a.current_bid < m {
                return false;
            }
        },
        None => {},
    }
    match search.max_price {
        Some(m) => {
            if a.current_bid > m {
                return false;
            }
        },
        None => {},
    }
    match search.min_quality {
        Some(q) => {
            if a.quality < q {
                return false;
            }
        },
        None => {},
    }
    match &search.seller_id {
        Some(x) => {
            if !str_eq(a.seller_id.as_str(), x.as_str()) {
                return false;
            }
        },
        None => {},
    }
    match &search.keyword {
        Some(k) => {
            if !str_contains(a.item_name.as_str(), k.as_str()) && !str_contains(a.description.as_str(), k.as_str()) {
                return false;
            }
        },
        None => {},
    }
    true
}

impl AuctionDaemon {
    /// The lots that meet the search, in the house's order.
    pub fn search_items(&self, search: &AuctionSearch) -> (r: Vec<&AuctionItem>)
        ensures
            r@.map_values(|a: &AuctionItem| *a) == self.items@.filter(|a: AuctionItem| search_matches(*search, a)),
    {
        let mut r: Vec<&AuctionItem> = Vec::new();
        let ghost s = self.items@;
        let mut i: usize = 0;
        while i < self.items.len()
            invariant
                s == self.items@,
                i <= s.len(),
                r@.map_values(|a: &AuctionItem| *a) == s.take(i as int).filter(|a: AuctionItem| search_matches(*search, a)),
            decreases self.items.len() - i,
        {
            let ghost prev = r@;
            proof {
                assert(s.take(i + 1) =~= s.take(i as int).push(s[i as int]));
                s.take(i as int).lemma_filter_push(s[i as int], |a: AuctionItem| search_matches(*search, a));
            }
            if search_match_exec(search, &self.items[i]) {
                r.push(&self.items[i]);
                assert(r@.map_values(|a: &AuctionItem| *a) =~= prev.map_values(|a: &AuctionItem| *a).push(s[i as int]));
            }
            i = i + 1;
        }
        assert(s.take(i as int) =~= s);
        r
    }

    /// The seller's lots that are still in the house, in the order they
    /// were listed.
    pub fn get_seller_items(&self, seller_id: &str) -> (r: Vec<&AuctionItem>)
        ensures
            r@.map_values(|a: &AuctionItem| *a) == found_lots(*self, seller_list(*self, seller_id@)),
    {
        let mut r: Vec<&AuctionItem> = Vec::new();
        match get_key(&self.seller_items, seller_id) {
            Some(e) => {
                let ids = &e.item_ids;
                let mut t: usize = 0;
                while t < ids.len()
                    invariant
                        ids@ == seller_list(*self, seller_id@),
                        t <= ids@.len(),
                        r@.map_values(|a: &AuctionItem| *a) == found_lots(*self, ids@.take(t as int)),
                    decreases ids.len() - t,
                {
                    assert(ids@.take(t + 1).drop_last() =~= ids@.take(t as int));
                    assert(ids@.take(t + 1).last() == ids@[t as int]);
                    let ghost r0 = r@.map_values(|a: &AuctionItem| *a);
                    match get_key(&self.items, ids[t].as_str()) {
                        Some(a) => {
                            r.push(a);
                            assert(r@.map_values(|a: &AuctionItem| *a) =~= r0.push(*a));
                        },
                        None => {},
                    }
                    t = t + 1;
                }
                assert(ids@.take(t as int) =~= ids@);
            },
            None => {
                assert(r@.map_values(|a: &AuctionItem| *a) =~= Seq::<AuctionItem>::empty());
            },
        }
        r
    }

    /// Settles the lots whose time is over at `now`: sold to the highest
    /// bidder (the seller receiving the bid less the fee) or failed; returns
    /// the settlements in the house's order.
    pub fn process_expired_auctions_at(&mut self, now: i64) -> (r: Vec<(AuctionItem, Option<String>, u64)>)
        requires
            old(self).wf(),
            old(self).fee_percent <= 100,
            forall|j: int| 0 <= j < old(self).items@.len() ==> (#[trigger] old(self).items@[j]).current_bid * old(self).fee_percent <= u64::MAX,
        ensures
            expired_settled(*old(self), *final(self), now, r@),
    {
        let ghost s0 = self.items@;
        let fp = self.fee_percent;
        let mut out: Vec<(AuctionItem, Option<String>, u64)> = Vec::new();
        let mut i: usize = 0;
        while i < self.items.len()
            invariant
                self.wf(),
                self.items@.len() == s0.len(),
                i <= s0.len(),
                fp == self.fee_percent,
                fp <= 100,
                self.bid_history@ == old(self).bid_history@ && self.seller_items@ == old(self).seller_items@,
                forall|j: int| 0 <= j < s0.len() ==> (#[trigger] s0[j]).current_bid * fp <= u64::MAX,
                forall|j: int| 0 <= j < i ==> self.items@[j] == after_settling(s0, now as int, fp as int)[j],
                forall|j: int| i <= j < s0.len() ==> self.items@[j] == s0[j],
                forall|j: int| 0 <= j < s0.len() ==> (#[trigger] self.items@[j]).id@ == s0[j].id@,
                out@.len() == settlements(s0.take(i as int), now as int, fp as int).len(),
                forall|j: int| 0 <= j < out@.len() ==> {
                    let x = #[trigger] out@[j];
                    let y = settlements(s0.take(i as int), now as int, fp as int)[j];
                    x.0 == y.0 && x.1 == y.1 && x.2 as int == y.2
                },
            decreases s0.len() - i,
        {
            assert(s0.take(i + 1).drop_last() =~= s0.take(i as int));
            assert(s0.take(i + 1).last() == s0[i as int]);
            if self.items[i].status == AuctionStatus::Active && self.items[i].end_time < now {
                let mut a = self.items[i].clone();
                match &self.items[i].current_bidder {
                    Some(b) => {
                        a.status = AuctionStatus::Sold;
                        let bid = a.current_bid;
                        assert(bid * fp / 100 <= bid) by (nonlinear_arith)
                            requires
                                fp <= 100,
                        ;
                        let receive = bid - bid * fp / 100;
                        let ac = a.clone();
                        out.push((ac, Some(b.clone()), receive));
                    },
                    None => {
                        a.status = AuctionStatus::Failed;
                        let ac = a.clone();
                        out.push((ac, None, 0));
                    },
                }
                self.store_lot(i, a);
            }
            i = i + 1;
        }
        assert(s0.take(i as int) =~= s0);
        assert(self.items@ =~= after_settling(s0, now as int, fp as int));
        out
    }

    /// Settles the lots whose time is over now (see
    /// `process_expired_auctions_at`).
    pub fn process_expired_auctions(&mut self) -> (r: Vec<(AuctionItem, Option<String>, u64)>)
        requires
            old(self).wf(),
            old(self).fee_percent <= 100,
            forall|j: int| 0 <= j < old(self).items@.len() ==> (#[trigger] old(self).items@[j]).current_bid * old(self).fee_percent <= u64::MAX,
        ensures
            final(self).wf(),
            exists|now: i64| final(self).items@ == after_settling(old(self).items@, now as int, old(self).fee_percent as int),
    {
        self.process_expired_auctions_at(current_timestamp())
    }

    /// Removes the lots that ended more than `days` days before `now`, and
    /// their ids from their sellers' lists; returns how many were removed.
    pub fn cleanup_completed_at(&mut self, days: i64, now: i64) -> (r: usize)
        requires
            old(self).wf(),
            i64::MIN <= days * 86400 <= i64::MAX,
            i64::MIN <= now - days * 86400 <= i64::MAX,
        ensures
            final(self).wf(),
            final(self).items@ == kept_lots(old(self).items@, now - days * 86400),
            r == removed_lots(old(self).items@, now - days * 86400).len(),
            r == old(self).items@.len() - final(self).items@.len(),
            final(self).bid_history@ == old(self).bid_history@,
            forall|k: Seq<char>| #[trigger] seller_list(*final(self), k) == strip_removed(seller_list(*old(self), k),
                removed_lots(old(self).items@, now - days * 86400), k),
    {
        let cutoff = now - days * 86400;
        let ghost c = cutoff as int;
        let ghost s0 = self.items@;
        proof {
            lemma_kept_lots(s0, c);
        }
        let mut kept: Vec<AuctionItem> = Vec::new();
        let mut removed: Vec<AuctionItem> = Vec::new();
        let mut i: usize = 0;
        while i < self.items.len()
            invariant
                s0 == self.items@,
                c == cutoff,
                i <= s0.len(),
                kept@ == kept_lots(s0.take(i as int), c),
                removed@ == removed_lots(s0.take(i as int), c),
            decreases s0.len() - i,
        {
            assert(s0.take(i + 1).drop_last() =~= s0.take(i as int));
            assert(s0.take(i + 1).last() == s0[i as int]);
            let a = self.items[i].clone();
            if a.end_time < cutoff {
                removed.push(a);
            } else {
                kept.push(a);
            }
            i = i + 1;
        }
        assert(s0.take(i as int) =~= s0);
        let count = removed.len();
        self.items = kept;
        let ghost l0 = self.seller_items@;
        let mut t: usize = 0;
        while t < removed.len()
            invariant
                t <= removed@.len(),
                removed@ == removed_lots(s0, c),
                self.items@ == kept_lots(s0, c),
                keys_unique(self.items@),
                self.bid_history@ == old(self).bid_history@,
                keys_unique(self.bid_history@),
                keys_unique(self.seller_items@),
                self.seller_items@.len() == l0.len(),
                forall|j: int| 0 <= j < l0.len() ==> (#[trigger] self.seller_items@[j]).seller_id == l0[j].seller_id,
                forall|j: int| 0 <= j < l0.len() ==> (#[trigger] self.seller_items@[j]).item_ids@
                    == strip_removed(l0[j].item_ids@, removed@.take(t as int), l0[j].seller_id@),
            decreases removed.len() - t,
        {
            let ghost before = self.seller_items@;
            assert(removed@.take(t + 1).drop_last() =~= removed@.take(t as int));
            assert(removed@.take(t + 1).last() == removed@[t as int]);
            match find_key(&self.seller_items, removed[t].seller_id.as_str()) {
                Some(j) => {
                    let mut e = self.seller_items.remove(j);
                    assert(e == before[j as int]);
                    let ids = crate::util::remove_all_str(&e.item_ids, removed[t].id.as_str());
                    e.item_ids = ids;
                    self.seller_items.insert(j, e);
                    proof {
                        assert forall|a: int, b: int| 0 <= a < b < self.seller_items@.len() implies self.seller_items@[a].key_view() != self.seller_items@[b].key_view() by {
                            assert(self.seller_items@[a].seller_id == before[a].seller_id);
                            assert(self.seller_items@[b].seller_id == before[b].seller_id);
                        }
                        assert forall|m: int| 0 <= m < l0.len() implies (#[trigger] self.seller_items@[m]).item_ids@
                            == strip_removed(l0[m].item_ids@, removed@.take(t + 1), l0[m].seller_id@) by {
                            if m != j {
                                assert(self.seller_items@[m] == before[m]);
                                assert(before[m].seller_id@ != removed@[t as int].seller_id@);
                            }
                        }
                    }
                },
                None => {
                    proof {
                        assert forall|m: int| 0 <= m < l0.len() implies (#[trigger] self.seller_items@[m]).item_ids@
                            == strip_removed(l0[m].item_ids@, removed@.take(t + 1), l0[m].seller_id@) by {
                            assert(self.seller_items@[m].seller_id@ != removed@[t as int].seller_id@);
                        }
                    }
                },
            }
            t = t + 1;
        }
        proof {
            assert(removed@.take(t as int) =~= removed@);
            assert forall|k: Seq<char>| #[trigger] seller_list(*self, k) == strip_removed(seller_list(*old(self), k), removed@, k) by {
                if key_in(l0, k) {
                    crate::util::lemma_key_first(l0, k);
                    let j = choose|j: int| key_pos(l0, k, j);
                    lemma_key_get_at(l0, k, j);
                    assert(key_pos(self.seller_items@, k, j));
                    lemma_key_get_at(self.seller_items@, k, j);
                } else {
                    lemma_key_get_none(l0, k);
                    assert(!key_in(self.seller_items@, k));
                    lemma_key_get_none(self.seller_items@, k);
                    lemma_strip_empty(removed@, k);
                }
            }
        }
        count
    }

    /// Removes the lots that ended more than `days` days ago (see
    /// `cleanup_completed_at`).
    pub fn cleanup_completed(&mut self, days: i64) -> (r: usize)
        requires
            old(self).wf(),
            -1_000_000_000_000 <= days <= 1_000_000_000_000,
        ensures
            final(self).wf(),
            r == old(self).items@.len() - final(self).items@.len(),
            exists|c: int| final(self).items@ == #[trigger] kept_lots(old(self).items@, c),
    {
        let now = current_timestamp();
        self.cleanup_completed_at(days, now)
    }

    /// The list of lots: a heading with their number, then a line each, or
    /// a line saying there are none.
    pub fn format_auction_list(&self, items: &[&AuctionItem]) -> (r: String)
        ensures
            r@ == "§H=== 拍卖列表 ("@ + nat_digits(items@.len()) + "件) ===§N\n"@ + if items@.len() == 0 {
                "没有符合条件的拍品。\n"@
            } else {
                lot_lines(items@.map_values(|a: &AuctionItem| *a))
            },
    {
        let mut out = string_of("§H=== 拍卖列表 (");
        push_u64(&mut out, items.len() as u64);
        push_str(&mut out, "件) ===§N\n");
        if items.len() == 0 {
            push_str(&mut out, "没有符合条件的拍品。\n");
        } else {
            let ghost base = out@;
            let ghost s = items@.map_values(|a: &AuctionItem| *a);
            let mut i: usize = 0;
            while i < items.len()
                invariant
                    i <= items@.len(),
                    s == items@.map_values(|a: &AuctionItem| *a),
                    out@ == base + lot_lines(s.take(i as int)),
                decreases items.len() - i,
            {
                assert(s.take(i + 1).drop_last() =~= s.take(i as int));
                let line = items[i].format_list_item();
                push_str(&mut out, "  ");
                push_str(&mut out, line.as_str());
                push_str(&mut out, "\n");
                i = i + 1;
            }
            assert(s.take(i as int) =~= s);
        }
        out
    }

    /// The bids on a lot, in the order they came.
    pub fn get_bid_history(&self, auction_id: &str) -> (r: Vec<&BidRecord>)
        ensures
            r@.map_values(|b: &BidRecord| *b) == bids(*self, auction_id@),
    {
        let mut r: Vec<&BidRecord> = Vec::new();
        match get_key(&self.bid_history, auction_id) {
            Some(h) => {
                let mut i: usize = 0;
                while i < h.records.len()
                    invariant
                        i <= h.records@.len(),
                        h.records@ == bids(*self, auction_id@),
                        r@.map_values(|b: &BidRecord| *b) == h.records@.take(i as int),
                    decreases h.records.len() - i,
                {
                    let ghost r0 = r@.map_values(|b: &BidRecord| *b);
                    r.push(&h.records[i]);
                    assert(r@.map_values(|b: &BidRecord| *b) =~= r0.push(h.records@[i as int]));
                    assert(h.records@.take(i + 1) =~= h.records@.take(i as int).push(h.records@[i as int]));
                    i = i + 1;
                }
                assert(h.records@.take(i as int) =~= h.records@);
            },
            None => {
                assert(r@.map_values(|b: &BidRecord| *b) =~= Seq::<BidRecord>::empty());
            },
        }
        r
    }

    /// The last ten bids on a lot, newest first, or a line saying there
    /// are none.
    pub fn format_bid_history(&self, auction_id: &str) -> (r: String)
        ensures
            r@ == "§H=== 出价记录 ===§N\n"@ + if bids(*self, auction_id@).len() == 0 {
                "暂无出价记录。\n"@
            } else {
                recent_bid_lines(bids(*self, auction_id@), bids(*self, auction_id@).len() as int, 10)
            },
    {
        let records = self.get_bid_history(auction_id);
        let ghost rs = records@.map_values(|b: &BidRecord| *b);
        let mut out = string_of("§H=== 出价记录 ===§N\n");
        if records.len() == 0 {
            push_str(&mut out, "暂无出价记录。\n");
            return out;
        }
        let ghost base = out@;
        let mut n: usize = records.len();
        let mut k: usize = 0;
        assert(recent_bid_lines(rs, rs.len() as int, 10) == recent_bid_lines(rs, n as int, 10 - k as int));
        while k < 10 && n > 0
            invariant
                rs == records@.map_values(|b: &BidRecord| *b),
                n <= rs.len(),
                k <= 10,
                out@ + recent_bid_lines(rs, n as int, 10 - k as int) == base + recent_bid_lines(rs, rs.len() as int, 10),
            decreases 10 - k,
        {
            let rec = records[n - 1];
            assert(*rec == rs[n - 1]);
            let time = match utc_minute(rec.timestamp) {
                Some(t) => t,
                None => string_of("未知"),
            };
            let ghost o0 = out@;
            push_str(&mut out, time.as_str());
            push_str(&mut out, " - ");
            push_str(&mut out, rec.bidder_name.as_str());
            push_str(&mut out, " 出价 ");
            push_u64(&mut out, rec.amount);
            push_str(&mut out, "金币\n");
            assert(out@ =~= o0 + bid_line(rs[n - 1]));
            n = n - 1;
            k = k + 1;
        }
        proof {
            assert(recent_bid_lines(rs, n as int, 10 - k as int) =~= Seq::<char>::empty());
        }
        out
    }
}

impl Default for AuctionDaemon {
    fn default() -> (r: Self)
        ensures
            r.wf(),
            r.items@.len() == 0 && r.bid_history@.len() == 0 && r.seller_items@.len() == 0,
            r.fee_percent == 5 && r.min_duration == 1 && r.max_duration == 72,
    {
        Self::new()
    }
}

/// Stripping ids leaves an empty list empty.
proof fn lemma_strip_empty(removed: Seq<AuctionItem>, k: Seq<char>)
    ensures
        strip_removed(Seq::empty(), removed, k) == Seq::<String>::empty(),
    decreases removed.len(),
{
    if removed.len() > 0 {
        lemma_strip_empty(removed.drop_last(), k);
        assert(crate::util::without_str(Seq::<String>::empty(), removed.last().id@) =~= Seq::<String>::empty()) by {
            reveal(Seq::filter);
        }
    }
}


/// `f` and `r` are what a bid of `amount` by `bidder_id` (named
/// `bidder_name`) on lot `aid` at `now` makes of `o`: refused where the lot
/// is missing, not on sale, past its end (it then fails), too low or the
/// bidder's own; else the bid becomes the lot's and is recorded.
pub open spec fn bid_placed(o: AuctionDaemon, f: AuctionDaemon, aid: Seq<char>, bidder_id: String, bidder_name: String,
    amount: u64, now: i64, r: Result<(), MudError>) -> bool {
    &&& f.wf()
    &&& f.seller_items@ == o.seller_items@
    &&& match lot(o, aid) {
        None => (r matches Err(MudError::NotFound(m)) && m@ == "拍品不存在"@)
            && f.items@ == o.items@ && f.bid_history@ == o.bid_history@,
        Some(a) => if a.status != AuctionStatus::Active {
            &&& r matches Err(MudError::RuntimeError(m)) && m@ == "拍品不在拍卖中"@
            &&& f.items@ == o.items@ && f.bid_history@ == o.bid_history@
        } else if now > a.end_time {
            &&& r matches Err(MudError::RuntimeError(m)) && m@ == "拍卖已结束"@
            &&& lot(f, aid) == Some(AuctionItem { status: AuctionStatus::Failed, ..a })
            &&& forall|k: Seq<char>| k != aid ==> #[trigger] lot(f, k) == lot(o, k)
            &&& f.bid_history@ == o.bid_history@
        } else if amount < a.current_bid + a.min_increment {
            &&& r matches Err(MudError::RuntimeError(m)) && m@ == "出价太低，最低出价为"@ + nat_digits((a.current_bid + a.min_increment) as nat) + "金币"@
            &&& f.items@ == o.items@ && f.bid_history@ == o.bid_history@
        } else if a.seller_id@ == bidder_id@ {
            &&& r matches Err(MudError::RuntimeError(m)) && m@ == "不能竞拍自己的物品"@
            &&& f.items@ == o.items@ && f.bid_history@ == o.bid_history@
        } else {
            &&& r is Ok
            &&& lot(f, aid) == Some(AuctionItem { current_bid: amount, current_bidder: Some(bidder_id), ..a })
            &&& forall|k: Seq<char>| k != aid ==> #[trigger] lot(f, k) == lot(o, k)
            &&& bids(f, aid) == bids(o, aid).push(BidRecord { bidder_id, bidder_name, amount, timestamp: now })
            &&& forall|k: Seq<char>| k != aid ==> #[trigger] bids(f, k) == bids(o, k)
        },
    }
}

/// A bid on a lot that is up and not past its end succeeds exactly when it
/// reaches the current bid plus the increment and the bidder is not the
/// seller; then the lot carries the bid and bidder and its history gains
/// the one record; otherwise the lots and histories stay as they were.
pub proof fn lemma_bid_accepted_iff(o: AuctionDaemon, f: AuctionDaemon, aid: Seq<char>, bidder_id: String,
    bidder_name: String, amount: u64, now: i64, r: Result<(), MudError>)
    requires
        bid_placed(o, f, aid, bidder_id, bidder_name, amount, now, r),
        lot(o, aid) matches Some(a) && a.status == AuctionStatus::Active && now <= a.end_time,
    ensures
        ({
            let a = lot(o, aid)->0;
            &&& r is Ok <==> (amount >= a.current_bid + a.min_increment && a.seller_id@ != bidder_id@)
            &&& r is Ok ==> (lot(f, aid) matches Some(b) && b.current_bid == amount && b.current_bidder == Some(bidder_id)
                && bids(f, aid).len() == bids(o, aid).len() + 1
                && bids(f, aid).last() == (BidRecord { bidder_id, bidder_name, amount, timestamp: now }))
            &&& r is Err ==> f.items@ == o.items@ && f.bid_history@ == o.bid_history@
        }),
{
}

/// What `AuctionItem::is_expired_at` promises: `this` is the value it is called on, `r` what it gives
/// back.
pub open spec fn is_expired_done(this: AuctionItem, now: i64, r: bool) -> bool {
    &&& (r == (now > this.end_time))
}

/// What `AuctionDaemon::buyout_at` promises: `o` is the value before the call, `f` the value after, `r`
/// what it gives back.
pub open spec fn buyout_done(
    o: AuctionDaemon, f: AuctionDaemon, auction_id: &str, buyer_id: String, buyer_name: String, now: i64,
    r: Result<(AuctionItem, u64), MudError>) -> bool {
    &&& (f.wf())
    &&& (f.seller_items@ == o.seller_items@)
    &&& (match lot(o, auction_id@) {
        None => (r matches Err(MudError::NotFound(m)) && m@ == "拍品不存在"@)
            && f.items@ == o.items@ && f.bid_history@ == o.bid_history@,
        Some(a) => if a.status != AuctionStatus::Active {
            &&& r matches Err(MudError::RuntimeError(m)) && m@ == "拍品不在拍卖中"@
            &&& f.items@ == o.items@ && f.bid_history@ == o.bid_history@
        } else if a.buyout_price is None {
            &&& r matches Err(MudError::RuntimeError(m)) && m@ == "此拍品不支持一口价"@
            &&& f.items@ == o.items@ && f.bid_history@ == o.bid_history@
        } else if a.seller_id@ == buyer_id@ {
            &&& r matches Err(MudError::RuntimeError(m)) && m@ == "不能购买自己的物品"@
            &&& f.items@ == o.items@ && f.bid_history@ == o.bid_history@
        } else {
            let p = a.buyout_price->0;
            let sold = AuctionItem { status: AuctionStatus::Sold, current_bid: p, current_bidder: Some(buyer_id), ..a };
            &&& r matches Ok((x, receive)) && x == sold && receive == p - p * o.fee_percent / 100
            &&& lot(f, auction_id@) == Some(sold)
            &&& forall|k: Seq<char>| k != auction_id@ ==> #[trigger] lot(f, k) == lot(o, k)
            &&& bids(f, auction_id@) == bids(o, auction_id@).push(BidRecord { bidder_id: buyer_id, bidder_name: buyer_name, amount: p, timestamp: now })
            &&& forall|k: Seq<char>| k != auction_id@ ==> #[trigger] bids(f, k) == bids(o, k)
        },
    })
}

/// What `AuctionItem::new_at` promises: for the arguments given, `r` what it gives back.
pub open spec fn auction_item_new_done(
    id: String, item_id: String, item_name: String, item_type: AuctionItemType, seller_id: String,
    seller_name: String, starting_price: u64, duration_hours: u64, now: i64, r: AuctionItem) -> bool {
    &&& (r.id == id && r.item_id == item_id && r.item_name == item_name && r.item_type == item_type)
    &&& (r.description@.len() == 0)
    &&& (r.seller_id == seller_id && r.seller_name == seller_name)
    &&& (r.starting_price == starting_price && r.buyout_price is None)
    &&& (r.current_bid == starting_price && r.current_bidder is None)
    &&& (r.min_increment == min_step(starting_price as int))
    &&& (r.status == AuctionStatus::Active)
    &&& (r.start_time == now && r.end_time == now + duration_hours * 3600)
    &&& (r.quality == 1)
}

/// A buyout that goes through sells the lot to the buyer at its buyout
/// price, which becomes the lot's bid, and the seller receives that price
/// less the house's fee: what the seller receives and the fee add up to the
/// price. Only an active lot with a buyout price, bought by someone other
/// than its seller, is bought out.
pub proof fn lemma_buyout_pays_seller(o: AuctionDaemon, f: AuctionDaemon, auction_id: &str, buyer_id: String,
    buyer_name: String, now: i64, r: Result<(AuctionItem, u64), MudError>)
    requires
        buyout_done(o, f, auction_id, buyer_id, buyer_name, now, r),
        r is Ok,
    ensures
        lot(o, auction_id@) matches Some(a) && a.status == AuctionStatus::Active && a.buyout_price is Some
            && a.seller_id@ != buyer_id@
            && (r matches Ok((x, receive)) && x.current_bidder == Some(buyer_id) && x.status == AuctionStatus::Sold
                && x.current_bid == a.buyout_price->0
                && receive + a.buyout_price->0 * o.fee_percent / 100 == a.buyout_price->0
                && lot(f, auction_id@) == Some(x)),
{
}

} // verus!
