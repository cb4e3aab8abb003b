//! Friends: friend requests and their answers, two-way friendships with
//! intimacy and remarks, and each player's blacklist.
use vstd::prelude::*;
use crate::errors::{MudError, runtime_error, not_found};
use crate::text::{push_str, push_i64, push_u64, string_of, int_digits, nat_digits};
use crate::util::{
    Keyed, key_pos, key_in, keys_unique, find_key, get_key, key_get, put_key, drop_key, has_str, contains_str,
    without_str, remove_all_str, lemma_key_get_at, lemma_key_get_none, lemma_keyed_update, lemma_has_str_push,
};
use crate::outside::{current_timestamp, current_timestamp_nanos, utc_minute, utc_minute_text};

verus! {

/// The state of a friendship.
#[derive(Clone, Copy, Debug, PartialEq, Eq, Structural)]
pub enum FriendStatus {
    Normal,
    Blocked,
    Deleted,
}

/// One side of a friendship.
#[derive(Debug)]
pub struct FriendRelation {
    pub player_id: String,
    pub friend_id: String,
    pub friend_name: String,
    pub status: FriendStatus,
    pub intimacy: i32,
    pub added_at: i64,
    pub last_online: Option<i64>,
    pub remark: String,
}

impl Clone for FriendRelation {
    fn clone(&self) -> (r: Self)
        ensures
            r == *self,
    {
        FriendRelation {
            player_id: self.player_id.clone(),
            friend_id: self.friend_id.clone(),
            friend_name: self.friend_name.clone(),
            status: self.status,
            intimacy: self.intimacy,
            added_at: self.added_at,
            last_online: self.last_online,
            remark: self.remark.clone(),
        }
    }
}

impl Keyed for FriendRelation {
    open spec fn key_view(&self) -> Seq<char> {
        self.friend_id@
    }

    fn key(&self) -> (r: &String) {
        &self.friend_id
    }
}

/// A request to become friends.
#[derive(Debug)]
pub struct FriendRequest {
    pub request_id: String,
    pub applicant_id: String,
    pub applicant_name: String,
    pub target_id: String,
    pub message: String,
    pub created_at: i64,
    pub expired: bool,
}

impl Clone for FriendRequest {
    fn clone(&self) -> (r: Self)
        ensures
            r == *self,
    {
        FriendRequest {
            request_id: self.request_id.clone(),
            applicant_id: self.applicant_id.clone(),
            applicant_name: self.applicant_name.clone(),
            target_id: self.target_id.clone(),
            message: self.message.clone(),
            created_at: self.created_at,
            expired: self.expired,
        }
    }
}

/// The friendships of one player, by friend id.
#[derive(Debug)]
pub struct PlayerFriends {
    pub player_id: String,
    pub relations: Vec<FriendRelation>,
}

impl Keyed for PlayerFriends {
    open spec fn key_view(&self) -> Seq<char> {
        self.player_id@
    }

    fn key(&self) -> (r: &String) {
        &self.player_id
    }
}

/// The requests sent to one player.
#[derive(Debug)]
pub struct TargetRequests {
    pub target_id: String,
    pub requests: Vec<FriendRequest>,
}

impl Keyed for TargetRequests {
    open spec fn key_view(&self) -> Seq<char> {
        self.target_id@
    }

    fn key(&self) -> (r: &String) {
        &self.target_id
    }
}

/// The players one player has blocked.
#[derive(Debug)]
pub struct BlockList {
    pub player_id: String,
    pub blocked: Vec<String>,
}

impl Keyed for BlockList {
    open spec fn key_view(&self) -> Seq<char> {
        self.player_id@
    }

    fn key(&self) -> (r: &String) {
        &self.player_id
    }
}

/// Friendships, pending requests and blacklists.
pub struct FriendDaemon {
    friends: Vec<PlayerFriends>,
    pending_requests: Vec<TargetRequests>,
    blacklist: Vec<BlockList>,
}

/// The friendship of `p` with `f`, if any.
pub open spec fn rel_at(fs: Seq<PlayerFriends>, p: Seq<char>, f: Seq<char>) -> Option<FriendRelation> {
    match key_get(fs, p) {
        Some(pf) => key_get(pf.relations@, f),
        None => None,
    }
}

/// The friendships of `p`, in the order they were made.
pub open spec fn relations_of(fs: Seq<PlayerFriends>, p: Seq<char>) -> Seq<FriendRelation> {
    match key_get(fs, p) {
        Some(pf) => pf.relations@,
        None => Seq::empty(),
    }
}

/// The requests sent to `t`.
pub open spec fn requests_of(rs: Seq<TargetRequests>, t: Seq<char>) -> Seq<FriendRequest> {
    match key_get(rs, t) {
        Some(tr) => tr.requests@,
        None => Seq::empty(),
    }
}

/// The players `p` blocked.
pub open spec fn blocked_of(bs: Seq<BlockList>, p: Seq<char>) -> Seq<String> {
    match key_get(bs, p) {
        Some(b) => b.blocked@,
        None => Seq::empty(),
    }
}

/// Every player's friendships are keyed by distinct friend ids.
pub open spec fn friends_wf(fs: Seq<PlayerFriends>) -> bool {
    keys_unique(fs) && forall|i: int| 0 <= i < fs.len() ==> keys_unique((#[trigger] fs[i]).relations@)
}

/// The first pending request among `rs` with id `id`.
pub open spec fn first_pending(rs: Seq<FriendRequest>, id: Seq<char>, i: int) -> Option<int>
    decreases rs.len() - i,
{
    if i < 0 || i >= rs.len() {
        None
    } else if rs[i].request_id@ == id && !rs[i].expired {
        Some(i)
    } else {
        first_pending(rs, id, i + 1)
    }
}

/// Stores `rel` as the friendship of `p` with `rel.friend_id`.
fn put_relation(fs: &mut Vec<PlayerFriends>, p: &str, rel: FriendRelation)
    requires
        friends_wf(old(fs)@),
    ensures
        friends_wf(final(fs)@),
        rel_at(final(fs)@, p@, rel.friend_id@) == Some(rel),
        forall|q: Seq<char>, f: Seq<char>| !(q == p@ && f == rel.friend_id@) ==> #[trigger] rel_at(final(fs)@, q, f) == rel_at(old(fs)@, q, f),
{
    let ghost f0 = fs@;
    let ghost gr = rel;
    match find_key(fs, p) {
        Some(k) => {
            proof {
                lemma_key_get_at(fs@, p@, k as int);
            }
            let pf = &mut fs[k];
            put_key(&mut pf.relations, rel);
            proof {
                assert(fs@ == f0.update(k as int, fs@[k as int]));
                lemma_keyed_update(f0, k as int, fs@[k as int]);
                assert forall|i: int| 0 <= i < fs@.len() implies keys_unique((#[trigger] fs@[i]).relations@) by {
                    if i != k {
                        assert(fs@[i] == f0[i]);
                    }
                }
            }
        },
        None => {
            proof {
                lemma_key_get_none(fs@, p@);
            }
            let mut rels: Vec<FriendRelation> = Vec::new();
            rels.push(rel);
            proof {
                crate::util::lemma_key_get_self(Seq::<FriendRelation>::empty(), rels@, gr);
            }
            let pf = PlayerFriends { player_id: string_of(p), relations: rels };
            put_key(fs, pf);
            proof {
                assert forall|i: int| 0 <= i < fs@.len() implies keys_unique((#[trigger] fs@[i]).relations@) by {
                    if i < f0.len() {
                        assert(fs@[i] == f0[i]);
                    }
                }
                assert forall|q: Seq<char>, f: Seq<char>| !(q == p@ && f == gr.friend_id@) implies #[trigger] rel_at(fs@, q, f) == rel_at(f0, q, f) by {
                    if q == p@ {
                        assert(f != gr.friend_id@);
                        assert(rels@ == Seq::<FriendRelation>::empty().push(gr));
                        crate::util::lemma_key_get_other(Seq::<FriendRelation>::empty(), rels@, gr, f);
                        lemma_key_get_none(Seq::<FriendRelation>::empty(), f);
                    }
                }
            }
        },
    }
}

/// Removes the friendship of `p` with `f`, if any.
fn drop_relation(fs: &mut Vec<PlayerFriends>, p: &str, f: &str)
    requires
        friends_wf(old(fs)@),
    ensures
        friends_wf(final(fs)@),
        rel_at(final(fs)@, p@, f@) is None,
        forall|q: Seq<char>, g: Seq<char>| !(q == p@ && g == f@) ==> #[trigger] rel_at(final(fs)@, q, g) == rel_at(old(fs)@, q, g),
{
    let ghost f0 = fs@;
    match find_key(fs, p) {
        Some(k) => {
            proof {
                lemma_key_get_at(fs@, p@, k as int);
            }
            let pf = &mut fs[k];
            drop_key(&mut pf.relations, f);
            proof {
                assert(fs@ == f0.update(k as int, fs@[k as int]));
                lemma_keyed_update(f0, k as int, fs@[k as int]);
                assert forall|i: int| 0 <= i < fs@.len() implies keys_unique((#[trigger] fs@[i]).relations@) by {
                    if i != k {
                        assert(fs@[i] == f0[i]);
                    }
                }
            }
        },
        None => {
            proof {
                lemma_key_get_none(fs@, p@);
            }
        },
    }
}

/// A friendship made now with friend `f` named `name`.
pub open spec fn fresh_relation(r: FriendRelation, p: Seq<char>, f: Seq<char>, name: Seq<char>, now: i64) -> bool {
    &&& r.player_id@ == p
    &&& r.friend_id@ == f
    &&& r.friend_name@ == name
    &&& r.status == FriendStatus::Normal
    &&& r.intimacy == 0
    &&& r.added_at == now
    &&& r.last_online is None
    &&& r.remark@.len() == 0
}

/// The request after it expired at a clean-up at `now` (seven days after it
/// was made), or as it was.
pub open spec fn cleaned_request(r: FriendRequest, now: i64) -> FriendRequest {
    if !r.expired && now - r.created_at > 604800 { FriendRequest { expired: true, ..r } } else { r }
}

/// How many of the requests a clean-up at `now` expires.
pub open spec fn cleaned_count(rs: Seq<FriendRequest>, now: i64) -> int
    decreases rs.len(),
{
    if rs.len() == 0 {
        0
    } else {
        cleaned_count(rs.drop_last(), now) + if !rs.last().expired && now - rs.last().created_at > 604800 { 1int } else { 0int }
    }
}

/// How many requests of all lists a clean-up at `now` expires.
pub open spec fn cleaned_total(ls: Seq<TargetRequests>, now: i64) -> int
    decreases ls.len(),
{
    if ls.len() == 0 {
        0
    } else {
        cleaned_total(ls.drop_last(), now) + cleaned_count(ls.last().requests@, now)
    }
}

/// How many requests there are in all lists.
pub open spec fn request_total(ls: Seq<TargetRequests>) -> int
    decreases ls.len(),
{
    if ls.len() == 0 {
        0
    } else {
        request_total(ls.drop_last()) + ls.last().requests@.len()
    }
}

/// How long ago a friend was seen, as of `now`.
pub open spec fn online_text(last: Option<i64>, now: i64) -> Seq<char> {
    match last {
        Some(l) => {
            let elapsed = now - l;
            if elapsed < 300 {
                "§G[在线]§N"@
            } else {
                let mins = crate::util::trunc_div(elapsed, 60);
                if mins < 60 {
                    "["@ + int_digits(mins) + "分钟前]"@
                } else {
                    "["@ + int_digits(crate::util::trunc_div(mins, 60)) + "小时前]"@
                }
            }
        },
        None => "[离线]"@,
    }
}

/// The closeness a friendship's intimacy stands for.
pub open spec fn intimacy_text(i: int) -> Seq<char> {
    if i >= 80 {
        "§Y挚友§N"@
    } else if i >= 50 {
        "§C好友§N"@
    } else if i >= 20 {
        "§B相识§N"@
    } else {
        "§X陌生§N"@
    }
}

/// One line of the friend list.
pub open spec fn friend_line(r: FriendRelation, now: i64) -> Seq<char> {
    "  "@ + online_text(r.last_online, now) + " "@ + r.friend_name@ + " - "@ + intimacy_text(r.intimacy as int) + " "@
        + (if r.remark@.len() == 0 { ""@ } else { "("@ + r.remark@ + ")"@ }) + "\n"@
}

/// The lines of the friend list.
pub open spec fn friend_lines(rs: Seq<FriendRelation>, now: i64) -> Seq<char>
    decreases rs.len(),
{
    if rs.len() == 0 {
        Seq::empty()
    } else {
        friend_lines(rs.drop_last(), now) + friend_line(rs.last(), now)
    }
}

/// The friendships in force of `p`.
pub open spec fn normal_friends(fs: Seq<PlayerFriends>, p: Seq<char>) -> Seq<FriendRelation> {
    relations_of(fs, p).filter(|x: FriendRelation| is_normal(x))
}

/// The friend list of the friendships `fs` as of `now`.
pub open spec fn friend_list_text(fs: Seq<FriendRelation>, now: i64) -> Seq<char> {
    "§H=== 好友列表 ("@ + nat_digits(fs.len()) + "人) ===§N\n"@ + if fs.len() == 0 { "你还没有好友。\n"@ } else { friend_lines(fs, now) }
}

/// One entry of the request list.
pub open spec fn request_line(r: FriendRequest) -> Seq<char> {
    "  "@ + r.applicant_name@ + " ["@ + (match utc_minute_text(r.created_at) { Some(t) => t, None => "未知"@ }) + "] "@
        + (if r.message@.len() == 0 { "无留言"@ } else { r.message@ }) + "\n    \""@ + r.request_id@ + "\"\n"@
}

/// The entries of the request list.
pub open spec fn request_lines(rs: Seq<FriendRequest>) -> Seq<char>
    decreases rs.len(),
{
    if rs.len() == 0 {
        Seq::empty()
    } else {
        request_lines(rs.drop_last()) + request_line(rs.last())
    }
}

/// Whether a request is pending.
pub open spec fn is_pending(r: FriendRequest) -> bool {
    !r.expired
}

/// Whether a friendship is in force.
pub open spec fn is_normal(r: FriendRelation) -> bool {
    r.status == FriendStatus::Normal
}

proof fn lemma_first_pending_range(rs: Seq<FriendRequest>, id: Seq<char>, j: int)
    requires
        0 <= j,
    ensures
        first_pending(rs, id, j) matches Some(i) ==> j <= i < rs.len(),
    decreases rs.len() - j,
{
    if j < rs.len() && !(rs[j].request_id@ == id && !rs[j].expired) {
        lemma_first_pending_range(rs, id, j + 1);
    }
}

/// A pending request from `applicant` is among `rs`.
fn has_pending_from(rs: &Vec<FriendRequest>, applicant: &str) -> (r: bool)
    ensures
        r == exists|i: int| 0 <= i < rs@.len() && #[trigger] rs@[i].applicant_id@ == applicant@ && !rs@[i].expired,
{
    let mut i: usize = 0;
    while i < rs.len()
        invariant
            i <= rs@.len(),
            forall|m: int| 0 <= m < i ==> !(rs@[m].applicant_id@ == applicant@ && !rs@[m].expired),
        decreases rs.len() - i,
    {
        if crate::text::str_eq(rs[i].applicant_id.as_str(), applicant) && !rs[i].expired {
            return true;
        }
        i = i + 1;
    }
    false
}

/// The first pending request among `rs` with id `id`.
fn find_pending(rs: &Vec<FriendRequest>, id: &str) -> (r: Option<usize>)
    ensures
        r matches Some(j) ==> first_pending(rs@, id@, 0) == Some(j as int) && j < rs@.len(),
        r is None ==> first_pending(rs@, id@, 0) is None,
{
    let mut i: usize = 0;
    while i < rs.len()
        invariant
            i <= rs@.len(),
            first_pending(rs@, id@, 0) == first_pending(rs@, id@, i as int),
        decreases rs.len() - i,
    {
        if crate::text::str_eq(rs[i].request_id.as_str(), id) && !rs[i].expired {
            return Some(i);
        }
        i = i + 1;
    }
    None
}

impl FriendDaemon {
    /// Each player's friendships.
    pub closed spec fn friends_view(&self) -> Seq<PlayerFriends> {
        self.friends@
    }

    /// The requests sent to each player.
    pub closed spec fn requests_view(&self) -> Seq<TargetRequests> {
        self.pending_requests@
    }

    /// Each player's blacklist.
    pub closed spec fn blacklist_view(&self) -> Seq<BlockList> {
        self.blacklist@
    }

    /// Players occur once in each table, friends once per player.
    pub open spec fn wf(&self) -> bool {
        &&& friends_wf(self.friends_view())
        &&& keys_unique(self.requests_view())
        &&& keys_unique(self.blacklist_view())
    }

    /// No friendships, requests or blacklists.
    pub fn new() -> (r: Self)
        ensures
            r.wf(),
            r.friends_view().len() == 0 && r.requests_view().len() == 0 && r.blacklist_view().len() == 0,
    {
        FriendDaemon { friends: Vec::new(), pending_requests: Vec::new(), blacklist: Vec::new() }
    }

    /// Sends a friend request at time `now` (in seconds, and `nanos` in
    /// nanoseconds, which names the request). Fails with 不能添加自己为好友
    /// for oneself, 对方已经是你的好友 for a friend, 对方已将你加入黑名单 when
    /// blocked by the target and 已有待处理的好友申请 when a request is pending.
    pub fn send_request_at(&mut self, applicant_id: String, applicant_name: String, target_id: String, message: String, now: i64, nanos: i64) -> (r: Result<(), MudError>)
        requires
            old(self).wf(),
        ensures
            request_sent(*old(self), *final(self), applicant_id, applicant_name, target_id, message, now, nanos, r),
    {
        let ghost ga = applicant_id@;
        let ghost gt = target_id@;
        if crate::text::str_eq(applicant_id.as_str(), target_id.as_str()) {
            return Err(runtime_error("不能添加自己为好友"));
        }
        match get_key(&self.friends, applicant_id.as_str()) {
            Some(pf) => {
                if find_key(&pf.relations, target_id.as_str()).is_some() {
                    return Err(runtime_error("对方已经是你的好友"));
                }
            },
            None => {},
        }
        match get_key(&self.blacklist, target_id.as_str()) {
            Some(b) => {
                if contains_str(&b.blocked, applicant_id.as_str()) {
                    return Err(runtime_error("对方已将你加入黑名单"));
                }
            },
            None => {},
        }
        let k = find_key(&self.pending_requests, target_id.as_str());
        proof {
            match k {
                Some(j) => lemma_key_get_at(self.pending_requests@, target_id@, j as int),
                None => lemma_key_get_none(self.pending_requests@, target_id@),
            }
        }
        match k {
            Some(j) => {
                if has_pending_from(&self.pending_requests[j].requests, applicant_id.as_str()) {
                    assert(requests_of(self.pending_requests@, target_id@) == self.pending_requests@[j as int].requests@);
                    return Err(runtime_error("已有待处理的好友申请"));
                }
            },
            None => {},
        }
        let mut request_id = string_of("friend_req_");
        push_str(&mut request_id, applicant_id.as_str());
        push_str(&mut request_id, "_");
        push_i64(&mut request_id, nanos);
        let request = FriendRequest {
            request_id,
            applicant_id,
            applicant_name,
            target_id: target_id.clone(),
            message,
            created_at: now,
            expired: false,
        };
        let ghost gq = request;
        let ghost p0 = self.pending_requests@;
        match k {
            Some(j) => {
                let tr = &mut self.pending_requests[j];
                tr.requests.push(request);
                proof {
                    assert(self.pending_requests@ == p0.update(j as int, self.pending_requests@[j as int]));
                    lemma_keyed_update(p0, j as int, self.pending_requests@[j as int]);
                }
            },
            None => {
                let mut rs: Vec<FriendRequest> = Vec::new();
                rs.push(request);
                put_key(&mut self.pending_requests, TargetRequests { target_id, requests: rs });
                proof {
                    assert(requests_of(self.pending_requests@, target_id@).drop_last() =~= Seq::<FriendRequest>::empty());
                }
            },
        }
        assert(request_refusal(*old(self), ga, gt) is None);
        assert(requests_of(self.requests_view(), gt).drop_last() =~= requests_of(old(self).requests_view(), gt));
        Ok(())
    }

    /// Sends a friend request now: what `send_request_at` does at the time
    /// the clock gives, the request named by that time in nanoseconds. The
    /// refusals do not rest on the clock: each comes exactly when
    /// `request_refusal` names it. Where the clock lies outside what
    /// nanoseconds can count, a request that would be accepted fails with
    /// 时间超出范围 and nothing changes.
    pub fn send_request(&mut self, applicant_id: String, applicant_name: String, target_id: String, message: String) -> (r: Result<(), MudError>)
        requires
            old(self).wf(),
        ensures
            (exists|now: i64, nanos: i64| #[trigger] request_sent(*old(self), *final(self), applicant_id, applicant_name, target_id,
                message, now, nanos, r))
            || ((r matches Err(MudError::RuntimeError(m)) && m@ == "时间超出范围"@) && final(self).requests_view() == old(self).requests_view()
                && request_refusal(*old(self), applicant_id@, target_id@) is None),
            request_refusal(*old(self), applicant_id@, target_id@) matches Some(m)
                ==> (r matches Err(MudError::RuntimeError(e)) && e@ == m) && final(self).requests_view() == old(self).requests_view(),
            final(self).friends_view() == old(self).friends_view(),
            final(self).blacklist_view() == old(self).blacklist_view(),
            final(self).wf(),
    {
        let now = current_timestamp();
        match current_timestamp_nanos() {
            Some(nanos) => {
                let ghost a = applicant_id;
                let ghost n = applicant_name;
                let ghost t = target_id;
                let ghost m = message;
                let r = self.send_request_at(applicant_id, applicant_name, target_id, message, now, nanos);
                proof { lemma_sent_some(*old(self), *self, a, n, t, m, now, nanos, r); }
                r
            },
            None => {
                match self.refusal_of(applicant_id.as_str(), target_id.as_str()) {
                    Some(e) => {
                        let r: Result<(), MudError> = Err(e);
                        proof { lemma_sent_some(*old(self), *self, applicant_id, applicant_name, target_id, message, 0, 0, r); }
                        r
                    },
                    None => Err(runtime_error("时间超出范围")),
                }
            },
        }
    }

    /// The refusal a request from `applicant_id` to `target_id` meets (see
    /// `request_refusal`), if any.
    fn refusal_of(&self, applicant_id: &str, target_id: &str) -> (r: Option<MudError>)
        requires
            self.wf(),
        ensures
            match request_refusal(*self, applicant_id@, target_id@) {
                Some(m) => r matches Some(MudError::RuntimeError(e)) && e@ == m,
                None => r is None,
            },
    {
        if crate::text::str_eq(applicant_id, target_id) {
            return Some(runtime_error("不能添加自己为好友"));
        }
        match get_key(&self.friends, applicant_id) {
            Some(pf) => {
                if find_key(&pf.relations, target_id).is_some() {
                    return Some(runtime_error("对方已经是你的好友"));
                }
            },
            None => {},
        }
        match get_key(&self.blacklist, target_id) {
            Some(b) => {
                if contains_str(&b.blocked, applicant_id) {
                    return Some(runtime_error("对方已将你加入黑名单"));
                }
            },
            None => {},
        }
        let k = find_key(&self.pending_requests, target_id);
        proof {
            match k {
                Some(j) => lemma_key_get_at(self.pending_requests@, target_id@, j as int),
                None => lemma_key_get_none(self.pending_requests@, target_id@),
            }
        }
        match k {
            Some(j) => {
                if has_pending_from(&self.pending_requests[j].requests, applicant_id) {
                    assert(requests_of(self.pending_requests@, target_id@) == self.pending_requests@[j as int].requests@);
                    return Some(runtime_error("已有待处理的好友申请"));
                }
            },
            None => {},
        }
        None
    }

    /// The pending requests sent to a player, in the order they came.
    pub fn get_pending_requests(&self, player_id: &str) -> (r: Vec<&FriendRequest>)
        ensures
            r@.map_values(|q: &FriendRequest| *q) == requests_of(self.requests_view(), player_id@).filter(|q: FriendRequest| is_pending(q)),
    {
        let mut r: Vec<&FriendRequest> = Vec::new();
        match get_key(&self.pending_requests, player_id) {
            Some(tr) => {
                let ghost rs = tr.requests@;
                let mut i: usize = 0;
                while i < tr.requests.len()
                    invariant
                        i <= rs.len(),
                        rs == tr.requests@,
                        r@.map_values(|q: &FriendRequest| *q) == rs.take(i as int).filter(|q: FriendRequest| is_pending(q)),
                    decreases rs.len() - i,
                {
                    let ghost prev = r@;
                    proof {
                        assert(rs.take(i + 1) =~= rs.take(i as int).push(rs[i as int]));
                        rs.take(i as int).lemma_filter_push(rs[i as int], |q: FriendRequest| is_pending(q));
                    }
                    if !tr.requests[i].expired {
                        r.push(&tr.requests[i]);
                        assert(r@.map_values(|q: &FriendRequest| *q) =~= prev.map_values(|q: &FriendRequest| *q).push(rs[i as int]));
                    }
                    i = i + 1;
                }
                assert(rs.take(i as int) =~= rs);
                r
            },
            None => {
                assert(r@.map_values(|q: &FriendRequest| *q) =~= Seq::<FriendRequest>::empty().filter(|q: FriendRequest| is_pending(q))) by {
                    reveal(Seq::filter);
                }
                r
            },
        }
    }

    /// Marks the first pending request with id `request_id` sent to the
    /// player as answered and returns its index; fails when there is none.
    fn close_request(&mut self, request_id: &str, player_id: &str) -> (r: Option<usize>)
        requires
            old(self).wf(),
        ensures
            final(self).wf(),
            final(self).friends_view() == old(self).friends_view(),
            final(self).blacklist_view() == old(self).blacklist_view(),
            r matches Some(i) ==> first_pending(requests_of(old(self).requests_view(), player_id@), request_id@, 0) == Some(i as int),
            r is None ==> first_pending(requests_of(old(self).requests_view(), player_id@), request_id@, 0) is None,
            r is None ==> *final(self) == *old(self),
            r matches Some(i) ==> i < requests_of(old(self).requests_view(), player_id@).len(),
            r matches Some(i) ==> {
                let rs = requests_of(old(self).requests_view(), player_id@);
                &&& requests_of(final(self).requests_view(), player_id@) == rs.update(i as int, FriendRequest { expired: true, ..rs[i as int] })
                &&& forall|t: Seq<char>| t != player_id@ ==> #[trigger] key_get(final(self).requests_view(), t) == key_get(old(self).requests_view(), t)
            },
    {
        let k = match find_key(&self.pending_requests, player_id) {
            Some(k) => k,
            None => {
                proof {
                    lemma_key_get_none(self.pending_requests@, player_id@);
                }
                return None;
            },
        };
        proof {
            lemma_key_get_at(self.pending_requests@, player_id@, k as int);
        }
        let ghost rs = self.pending_requests@[k as int].requests@;
        match find_pending(&self.pending_requests[k].requests, request_id) {
            Some(i) => {
                let ghost p0 = self.pending_requests@;
                let tr = &mut self.pending_requests[k];
                let q = &mut tr.requests[i];
                q.expired = true;
                proof {
                    assert(self.pending_requests@[k as int].requests@ == rs.update(i as int, FriendRequest { expired: true, ..rs[i as int] }));
                    assert(self.pending_requests@ == p0.update(k as int, self.pending_requests@[k as int]));
                    assert(key_pos(p0, player_id@, k as int));
                    lemma_keyed_update(p0, k as int, self.pending_requests@[k as int]);
                }
                Some(i)
            },
            None => None,
        }
    }

    /// Accepts the pending request `request_id` sent to the player at time
    /// `now`: the request is answered and both become friends, with
    /// intimacy 0; returns the applicant's id. Fails with
    /// 好友申请不存在或已过期 when no such request is pending.
    pub fn accept_request_at(&mut self, request_id: &str, player_id: &str, player_name: String, now: i64) -> (r: Result<String, MudError>)
        requires
            old(self).wf(),
        ensures
            accepted(*old(self), *final(self), request_id@, player_id@, player_name@, now, r),
            first_pending(requests_of(old(self).requests_view(), player_id@), request_id@, 0) is None ==> *final(self) == *old(self),
    {
        let ghost rs0 = requests_of(self.pending_requests@, player_id@);
        proof {
            lemma_first_pending_range(rs0, request_id@, 0);
        }
        let i = match self.close_request(request_id, player_id) {
            Some(i) => i,
            None => {
                return Err(not_found("好友申请不存在或已过期"));
            },
        };
        let (applicant_id, applicant_name) = match get_key(&self.pending_requests, player_id) {
            Some(tr) => {
                proof {
                    assert(i < tr.requests@.len());
                }
                (tr.requests[i].applicant_id.clone(), tr.requests[i].applicant_name.clone())
            },
            None => {
                proof {
                    assert(requests_of(self.pending_requests@, player_id@).len() == 0);
                    assert(false);
                }
                (String::new(), String::new())
            },
        };
        let rel1 = FriendRelation {
            player_id: string_of(player_id),
            friend_id: applicant_id.clone(),
            friend_name: applicant_name,
            status: FriendStatus::Normal,
            intimacy: 0,
            added_at: now,
            last_online: None,
            remark: String::new(),
        };
        let rel2 = FriendRelation {
            player_id: applicant_id.clone(),
            friend_id: string_of(player_id),
            friend_name: player_name,
            status: FriendStatus::Normal,
            intimacy: 0,
            added_at: now,
            last_online: None,
            remark: String::new(),
        };
        put_relation(&mut self.friends, player_id, rel1);
        put_relation(&mut self.friends, applicant_id.as_str(), rel2);
        assert(requests_of(self.requests_view(), player_id@) =~= rs0.update(i as int, FriendRequest { expired: true, ..rs0[i as int] }));
        Ok(applicant_id)
    }

    /// Accepts a request now: what `accept_request_at` does at the time the
    /// clock gives (see `accepted`): both players become friends, each under
    /// the other's name, and the request is closed, so that a second accept
    /// fails. Only the time the friendship is dated by rests on the clock.
    pub fn accept_request(&mut self, request_id: &str, player_id: &str, player_name: String) -> (r: Result<String, MudError>)
        requires
            old(self).wf(),
        ensures
            exists|now: i64| #[trigger] accepted(*old(self), *final(self), request_id@, player_id@, player_name@, now, r),
            final(self).wf(),
            first_pending(requests_of(old(self).requests_view(), player_id@), request_id@, 0) is None ==> (r matches Err(MudError::NotFound(m)) && m@ == "好友申请不存在或已过期"@),
            first_pending(requests_of(old(self).requests_view(), player_id@), request_id@, 0) matches Some(i) ==> (r matches Ok(id) && id@ == requests_of(old(self).requests_view(), player_id@)[i].applicant_id@),
    {
        let now = current_timestamp();
        self.accept_request_at(request_id, player_id, player_name, now)
    }

    /// Declines the pending request `request_id` sent to the player. Fails
    /// with 好友申请不存在或已过期 when no such request is pending.
    pub fn reject_request(&mut self, request_id: &str, player_id: &str) -> (r: Result<(), MudError>)
        requires
            old(self).wf(),
        ensures
            final(self).wf(),
            final(self).friends_view() == old(self).friends_view(),
            final(self).blacklist_view() == old(self).blacklist_view(),
            match first_pending(requests_of(old(self).requests_view(), player_id@), request_id@, 0) {
                None => (r matches Err(MudError::NotFound(m)) && m@ == "好友申请不存在或已过期"@) && *final(self) == *old(self),
                Some(i) => r is Ok && requests_of(final(self).requests_view(), player_id@) == requests_of(old(self).requests_view(), player_id@).update(i, FriendRequest { expired: true, ..requests_of(old(self).requests_view(), player_id@)[i] }),
            },
    {
        proof {
            lemma_first_pending_range(requests_of(self.pending_requests@, player_id@), request_id@, 0);
        }
        match self.close_request(request_id, player_id) {
            Some(_) => Ok(()),
            None => Err(not_found("好友申请不存在或已过期")),
        }
    }

    /// A player's friendships in force.
    pub fn get_friends(&self, player_id: &str) -> (r: Vec<&FriendRelation>)
        ensures
            r@.map_values(|x: &FriendRelation| *x) == relations_of(self.friends_view(), player_id@).filter(|x: FriendRelation| is_normal(x)),
    {
        let mut r: Vec<&FriendRelation> = Vec::new();
        match get_key(&self.friends, player_id) {
            Some(pf) => {
                let ghost rs = pf.relations@;
                let mut i: usize = 0;
                while i < pf.relations.len()
                    invariant
                        i <= rs.len(),
                        rs == pf.relations@,
                        r@.map_values(|x: &FriendRelation| *x) == rs.take(i as int).filter(|x: FriendRelation| is_normal(x)),
                    decreases rs.len() - i,
                {
                    let ghost prev = r@;
                    proof {
                        assert(rs.take(i + 1) =~= rs.take(i as int).push(rs[i as int]));
                        rs.take(i as int).lemma_filter_push(rs[i as int], |x: FriendRelation| is_normal(x));
                    }
                    if pf.relations[i].status == FriendStatus::Normal {
                        r.push(&pf.relations[i]);
                        assert(r@.map_values(|x: &FriendRelation| *x) =~= prev.map_values(|x: &FriendRelation| *x).push(rs[i as int]));
                    }
                    i = i + 1;
                }
                assert(rs.take(i as int) =~= rs);
                r
            },
            None => {
                assert(r@.map_values(|x: &FriendRelation| *x) =~= Seq::<FriendRelation>::empty().filter(|x: FriendRelation| is_normal(x))) by {
                    reveal(Seq::filter);
                }
                r
            },
        }
    }

    /// The friends in force for whom `online_check` answers yes, in order:
    /// the check is asked once for each friend in force, by the friend's id,
    /// and `ans` below holds its answers.
    pub fn get_online_friends(&self, player_id: &str, online_check: impl Fn(&str) -> bool) -> (r: Vec<&FriendRelation>)
        requires
            forall|s: &str| #[trigger] online_check.requires((s,)),
        ensures
            exists|ans: Seq<bool>| #![trigger picked(in_force(relations_of(self.friends_view(), player_id@)), ans)] {
                let fs = in_force(relations_of(self.friends_view(), player_id@));
                &&& ans.len() == fs.len()
                &&& forall|i: int| 0 <= i < fs.len() ==> answered(online_check, fs[i].friend_id@, #[trigger] ans[i])
                &&& r@.map_values(|x: &FriendRelation| *x) == picked(fs, ans)
            },
    {
        let all = self.get_friends(player_id);
        let ghost fs = all@.map_values(|x: &FriendRelation| *x);
        let ghost mut ans: Seq<bool> = Seq::empty();
        let mut r: Vec<&FriendRelation> = Vec::new();
        let mut i: usize = 0;
        while i < all.len()
            invariant
                i <= all@.len(),
                fs == all@.map_values(|x: &FriendRelation| *x),
                fs == relations_of(self.friends_view(), player_id@).filter(|x: FriendRelation| is_normal(x)),
                forall|s: &str| #[trigger] online_check.requires((s,)),
                ans.len() == i,
                forall|j: int| 0 <= j < i ==> answered(online_check, fs[j].friend_id@, #[trigger] ans[j]),
                r@.map_values(|x: &FriendRelation| *x) == picked(fs.take(i as int), ans),
            decreases all.len() - i,
        {
            let f = all[i];
            assert(fs[i as int] == *f);
            let s = f.friend_id.as_str();
            let ok = online_check(s);
            let ghost before = r@;
            if ok {
                r.push(f);
                assert(r@ == before.push(f));
            }
            proof {
                let ans2 = ans.push(ok);
                assert(fs.take(i as int + 1).drop_last() =~= fs.take(i as int));
                assert(ans2.drop_last() =~= ans);
                assert(ans2.take(i as int) =~= ans);
                assert(picked(fs.take(i as int), ans2) == picked(fs.take(i as int), ans)) by {
                    lemma_picked_extra(fs.take(i as int), ans, ok);
                }
                assert(r@.map_values(|x: &FriendRelation| *x) =~= picked(fs.take(i as int + 1), ans2));
                assert forall|j: int| 0 <= j < i + 1 implies answered(online_check, fs[j].friend_id@, #[trigger] ans2[j]) by {
                    if j < i {
                        assert(ans2[j] == ans[j]);
                    } else {
                        assert(ans2[j] == ok);
                        assert(s@ == fs[j].friend_id@ && online_check.ensures((s,), ans2[j]));
                    }
                }
                ans = ans2;
            }
            i = i + 1;
        }
        assert(fs.take(i as int) =~= fs);
        assert(fs == in_force(relations_of(self.friends_view(), player_id@)));
        assert(r@.map_values(|x: &FriendRelation| *x) == picked(in_force(relations_of(self.friends_view(), player_id@)), ans));
        r
    }

    /// Ends the friendship both ways; always succeeds.
    pub fn remove_friend(&mut self, player_id: &str, friend_id: &str) -> (r: Result<(), MudError>)
        requires
            old(self).wf(),
        ensures
            final(self).wf(),
            r is Ok,
            final(self).requests_view() == old(self).requests_view(),
            final(self).blacklist_view() == old(self).blacklist_view(),
            rel_at(final(self).friends_view(), player_id@, friend_id@) is None,
            rel_at(final(self).friends_view(), friend_id@, player_id@) is None,
            forall|p: Seq<char>, f: Seq<char>| !(p == player_id@ && f == friend_id@) && !(p == friend_id@ && f == player_id@) ==> #[trigger] rel_at(final(self).friends_view(), p, f) == rel_at(old(self).friends_view(), p, f),
    {
        drop_relation(&mut self.friends, player_id, friend_id);
        drop_relation(&mut self.friends, friend_id, player_id);
        Ok(())
    }

    /// Ends the friendship both ways and adds the target to the player's
    /// blacklist; always succeeds.
    pub fn add_to_blacklist(&mut self, player_id: &str, target_id: &str) -> (r: Result<(), MudError>)
        requires
            old(self).wf(),
        ensures
            final(self).wf(),
            r is Ok,
            final(self).requests_view() == old(self).requests_view(),
            rel_at(final(self).friends_view(), player_id@, target_id@) is None,
            rel_at(final(self).friends_view(), target_id@, player_id@) is None,
            forall|p: Seq<char>, f: Seq<char>| !(p == player_id@ && f == target_id@) && !(p == target_id@ && f == player_id@) ==> #[trigger] rel_at(final(self).friends_view(), p, f) == rel_at(old(self).friends_view(), p, f),
            blocked_of(final(self).blacklist_view(), player_id@).drop_last() == blocked_of(old(self).blacklist_view(), player_id@),
            blocked_of(final(self).blacklist_view(), player_id@).len() == blocked_of(old(self).blacklist_view(), player_id@).len() + 1,
            blocked_of(final(self).blacklist_view(), player_id@).last()@ == target_id@,
            forall|q: Seq<char>| q != player_id@ ==> #[trigger] key_get(final(self).blacklist_view(), q) == key_get(old(self).blacklist_view(), q),
    {
        let _ = self.remove_friend(player_id, target_id);
        let ghost b0 = self.blacklist@;
        match find_key(&self.blacklist, player_id) {
            Some(k) => {
                proof {
                    lemma_key_get_at(self.blacklist@, player_id@, k as int);
                }
                let b = &mut self.blacklist[k];
                b.blocked.push(string_of(target_id));
                proof {
                    assert(self.blacklist@ == b0.update(k as int, self.blacklist@[k as int]));
                    lemma_keyed_update(b0, k as int, self.blacklist@[k as int]);
                }
            },
            None => {
                proof {
                    lemma_key_get_none(self.blacklist@, player_id@);
                }
                let mut v: Vec<String> = Vec::new();
                v.push(string_of(target_id));
                put_key(&mut self.blacklist, BlockList { player_id: string_of(player_id), blocked: v });
                proof {
                    assert(blocked_of(self.blacklist@, player_id@).drop_last() =~= Seq::<String>::empty());
                }
            },
        }
        Ok(())
    }

    /// Takes the target off the player's blacklist. Fails with
    /// 黑名单中没有该玩家 when the player has no blacklist.
    pub fn remove_from_blacklist(&mut self, player_id: &str, target_id: &str) -> (r: Result<(), MudError>)
        requires
            old(self).wf(),
        ensures
            final(self).wf(),
            final(self).friends_view() == old(self).friends_view(),
            final(self).requests_view() == old(self).requests_view(),
            key_get(old(self).blacklist_view(), player_id@) is None ==> (r matches Err(MudError::NotFound(m)) && m@ == "黑名单中没有该玩家"@) && *final(self) == *old(self),
            key_get(old(self).blacklist_view(), player_id@) is Some ==> {
                &&& r is Ok
                &&& blocked_of(final(self).blacklist_view(), player_id@) == without_str(blocked_of(old(self).blacklist_view(), player_id@), target_id@)
                &&& forall|q: Seq<char>| q != player_id@ ==> #[trigger] key_get(final(self).blacklist_view(), q) == key_get(old(self).blacklist_view(), q)
            },
    {
        match find_key(&self.blacklist, player_id) {
            Some(k) => {
                proof {
                    lemma_key_get_at(self.blacklist@, player_id@, k as int);
                }
                let ghost b0 = self.blacklist@;
                let kept = remove_all_str(&self.blacklist[k].blocked, target_id);
                let b = &mut self.blacklist[k];
                b.blocked = kept;
                proof {
                    assert(self.blacklist@ == b0.update(k as int, self.blacklist@[k as int]));
                    lemma_keyed_update(b0, k as int, self.blacklist@[k as int]);
                }
                Ok(())
            },
            None => {
                proof {
                    lemma_key_get_none(self.blacklist@, player_id@);
                }
                Err(not_found("黑名单中没有该玩家"))
            },
        }
    }

    /// The players a player blocked, in the order blocked.
    pub fn get_blacklist(&self, player_id: &str) -> (r: Vec<&str>)
        ensures
            r@.len() == blocked_of(self.blacklist_view(), player_id@).len(),
            forall|i: int| 0 <= i < r@.len() ==> (#[trigger] r@[i])@ == blocked_of(self.blacklist_view(), player_id@)[i]@,
    {
        let mut r: Vec<&str> = Vec::new();
        match get_key(&self.blacklist, player_id) {
            Some(b) => {
                let mut i: usize = 0;
                while i < b.blocked.len()
                    invariant
                        i <= b.blocked@.len(),
                        r@.len() == i,
                        forall|j: int| 0 <= j < i ==> (#[trigger] r@[j])@ == b.blocked@[j]@,
                    decreases b.blocked.len() - i,
                {
                    r.push(b.blocked[i].as_str());
                    i = i + 1;
                }
                r
            },
            None => r,
        }
    }

    /// The player blocked the target.
    pub fn is_blocked(&self, player_id: &str, target_id: &str) -> (r: bool)
        ensures
            r == has_str(blocked_of(self.blacklist_view(), player_id@), target_id@),
    {
        match get_key(&self.blacklist, player_id) {
            Some(b) => contains_str(&b.blocked, target_id),
            None => false,
        }
    }

    /// The player has the target as a friend in force.
    pub fn is_friend(&self, player_id: &str, target_id: &str) -> (r: bool)
        ensures
            r == (rel_at(self.friends_view(), player_id@, target_id@) matches Some(x) && x.status == FriendStatus::Normal),
    {
        match get_key(&self.friends, player_id) {
            Some(pf) => match get_key(&pf.relations, target_id) {
                Some(x) => x.status == FriendStatus::Normal,
                None => false,
            },
            None => false,
        }
    }

    /// Adds `amount` to the intimacy of the player with a friend, kept in
    /// `[0, 100]`; nothing happens without the friendship.
    pub fn add_intimacy(&mut self, player_id: &str, friend_id: &str, amount: i32)
        requires
            old(self).wf(),
            rel_at(old(self).friends_view(), player_id@, friend_id@) matches Some(x) ==> i32::MIN <= x.intimacy + amount <= i32::MAX,
        ensures
            final(self).wf(),
            final(self).requests_view() == old(self).requests_view(),
            final(self).blacklist_view() == old(self).blacklist_view(),
            rel_at(final(self).friends_view(), player_id@, friend_id@) == match rel_at(old(self).friends_view(), player_id@, friend_id@) {
                Some(x) => Some(FriendRelation { intimacy: crate::util::clamp(x.intimacy + amount, 0, 100) as i32, ..x }),
                None => None,
            },
            forall|p: Seq<char>, f: Seq<char>| !(p == player_id@ && f == friend_id@) ==> #[trigger] rel_at(final(self).friends_view(), p, f) == rel_at(old(self).friends_view(), p, f),
    {
        match get_key(&self.friends, player_id) {
            Some(pf) => match get_key(&pf.relations, friend_id) {
                Some(x) => {
                    let v = x.intimacy + amount;
                    let c = if v < 0 { 0 } else if v > 100 { 100 } else { v };
                    let mut y = x.clone();
                    y.intimacy = c;
                    put_relation(&mut self.friends, player_id, y);
                },
                None => {},
            },
            None => {},
        }
    }

    /// The intimacy of the player with a friend, 0 without the friendship.
    pub fn get_intimacy(&self, player_id: &str, friend_id: &str) -> (r: i32)
        ensures
            r == match rel_at(self.friends_view(), player_id@, friend_id@) { Some(x) => x.intimacy, None => 0 },
    {
        match get_key(&self.friends, player_id) {
            Some(pf) => match get_key(&pf.relations, friend_id) {
                Some(x) => x.intimacy,
                None => 0,
            },
            None => 0,
        }
    }

    /// Sets the remark on a friend. Fails with 好友不存在 without the friendship.
    pub fn set_remark(&mut self, player_id: &str, friend_id: &str, remark: String) -> (r: Result<(), MudError>)
        requires
            old(self).wf(),
        ensures
            final(self).wf(),
            final(self).requests_view() == old(self).requests_view(),
            final(self).blacklist_view() == old(self).blacklist_view(),
            match rel_at(old(self).friends_view(), player_id@, friend_id@) {
                None => (r matches Err(MudError::NotFound(m)) && m@ == "好友不存在"@) && *final(self) == *old(self),
                Some(x) => r is Ok && rel_at(final(self).friends_view(), player_id@, friend_id@) == Some(FriendRelation { remark, ..x }),
            },
            forall|p: Seq<char>, f: Seq<char>| !(p == player_id@ && f == friend_id@) ==> #[trigger] rel_at(final(self).friends_view(), p, f) == rel_at(old(self).friends_view(), p, f),
    {
        let y = match get_key(&self.friends, player_id) {
            Some(pf) => match get_key(&pf.relations, friend_id) {
                Some(x) => {
                    let mut y = x.clone();
                    y.remark = remark;
                    y
                },
                None => {
                    return Err(not_found("好友不存在"));
                },
            },
            None => {
                return Err(not_found("好友不存在"));
            },
        };
        put_relation(&mut self.friends, player_id, y);
        Ok(())
    }

    /// Records, for everyone who has the player as a friend, that the player
    /// was online at `now`.
    pub fn update_last_online_at(&mut self, player_id: &str, now: i64)
        requires
            old(self).wf(),
        ensures
            update_last_online_done(*old(self), *final(self), player_id, now),
    {
        let ghost f0 = self.friends@;
        let mut i: usize = 0;
        while i < self.friends.len()
            invariant
                i <= self.friends@.len(),
                self.friends@.len() == f0.len(),
                self.pending_requests@ == old(self).pending_requests@,
                self.blacklist@ == old(self).blacklist@,
                keys_unique(self.pending_requests@),
                keys_unique(self.blacklist@),
                friends_wf(f0),
                friends_wf(self.friends@),
                forall|j: int| 0 <= j < f0.len() ==> (#[trigger] self.friends@[j]).player_id == f0[j].player_id,
                forall|j: int| i <= j < f0.len() ==> #[trigger] self.friends@[j] == f0[j],
                forall|j: int, f: Seq<char>| 0 <= j < i ==> #[trigger] key_get(self.friends@[j].relations@, f) == if f == player_id@ {
                    match key_get(f0[j].relations@, f) {
                        Some(x) => Some(FriendRelation { last_online: Some(now), ..x }),
                        None => None,
                    }
                } else {
                    key_get(f0[j].relations@, f)
                },
            decreases f0.len() - i,
        {
            match get_key(&self.friends[i].relations, player_id) {
                Some(x) => {
                    let mut y = x.clone();
                    y.last_online = Some(now);
                    let ghost fb = self.friends@;
                    let pf = &mut self.friends[i];
                    put_key(&mut pf.relations, y);
                    proof {
                        assert(self.friends@ == fb.update(i as int, self.friends@[i as int]));
                        assert forall|j: int| 0 <= j < self.friends@.len() implies keys_unique((#[trigger] self.friends@[j]).relations@) by {
                            if j != i {
                                assert(self.friends@[j] == fb[j]);
                            }
                        }
                        assert forall|a: int, b: int| 0 <= a < b < self.friends@.len() implies self.friends@[a].key_view() != self.friends@[b].key_view() by {
                            assert(fb[a].key_view() != fb[b].key_view());
                        }
                    }
                },
                None => {},
            }
            i = i + 1;
        }
        proof {
            assert forall|p: Seq<char>, f: Seq<char>| #[trigger] rel_at(self.friends@, p, f) == if f == player_id@ {
                match rel_at(f0, p, f) {
                    Some(x) => Some(FriendRelation { last_online: Some(now), ..x }),
                    None => None,
                }
            } else {
                rel_at(f0, p, f)
            } by {
                if key_in(f0, p) {
                    crate::util::lemma_key_first(f0, p);
                    let j = choose|j: int| key_pos(f0, p, j);
                    assert(key_pos(self.friends@, p, j));
                    lemma_key_get_at(f0, p, j);
                    lemma_key_get_at(self.friends@, p, j);
                } else {
                    lemma_key_get_none(f0, p);
                    assert(!key_in(self.friends@, p)) by {
                        if key_in(self.friends@, p) {
                            let j = choose|j: int| 0 <= j < self.friends@.len() && self.friends@[j].key_view() == p;
                            assert(f0[j].key_view() == p);
                        }
                    }
                    lemma_key_get_none(self.friends@, p);
                }
            }
        }
    }

    /// Records that the player is online now (see `update_last_online_at`).
    pub fn update_last_online(&mut self, player_id: &str)
        requires
            old(self).wf(),
        ensures
            exists|now: i64| #[trigger] update_last_online_done(*old(self), *final(self), player_id, now),
            final(self).wf(),
            final(self).requests_view() == old(self).requests_view(),
            final(self).blacklist_view() == old(self).blacklist_view(),
    {
        let now = current_timestamp();
        self.update_last_online_at(player_id, now)
    }

    /// Expires, as of `now`, the pending requests older than seven days;
    /// returns how many.
    pub fn cleanup_expired_requests_at(&mut self, now: i64) -> (r: usize)
        requires
            old(self).wf(),
            request_total(old(self).requests_view()) <= usize::MAX,
            forall|k: int, j: int| 0 <= k < old(self).requests_view().len() && 0 <= j < old(self).requests_view()[k].requests@.len() ==> i64::MIN <= now - (#[trigger] old(self).requests_view()[k].requests@[j]).created_at <= i64::MAX,
        ensures
            final(self).wf(),
            final(self).friends_view() == old(self).friends_view(),
            final(self).blacklist_view() == old(self).blacklist_view(),
            final(self).requests_view().len() == old(self).requests_view().len(),
            forall|k: int| 0 <= k < old(self).requests_view().len() ==> {
                let a = old(self).requests_view()[k];
                let b = #[trigger] final(self).requests_view()[k];
                &&& b.target_id == a.target_id
                &&& b.requests@.len() == a.requests@.len()
                &&& forall|j: int| 0 <= j < a.requests@.len() ==> #[trigger] b.requests@[j] == cleaned_request(a.requests@[j], now)
            },
            r == cleaned_total(old(self).requests_view(), now),
    {
        let ghost l0 = self.pending_requests@;
        let mut cleaned: usize = 0;
        let mut k: usize = 0;
        while k < self.pending_requests.len()
            invariant
                k <= l0.len(),
                self.pending_requests@.len() == l0.len(),
                self.friends@ == old(self).friends@,
                self.blacklist@ == old(self).blacklist@,
                friends_wf(self.friends@),
                keys_unique(self.blacklist@),
                keys_unique(l0),
                request_total(l0) <= usize::MAX,
                forall|a: int, j: int| 0 <= a < l0.len() && 0 <= j < l0[a].requests@.len() ==> i64::MIN <= now - (#[trigger] l0[a].requests@[j]).created_at <= i64::MAX,
                cleaned == cleaned_total(l0.take(k as int), now),
                cleaned_total(l0.take(k as int), now) <= request_total(l0.take(k as int)),
                forall|a: int| k <= a < l0.len() ==> #[trigger] self.pending_requests@[a] == l0[a],
                forall|a: int| 0 <= a < k ==> {
                    let x = l0[a];
                    let y = #[trigger] self.pending_requests@[a];
                    &&& y.target_id == x.target_id
                    &&& y.requests@.len() == x.requests@.len()
                    &&& forall|j: int| 0 <= j < x.requests@.len() ==> #[trigger] y.requests@[j] == cleaned_request(x.requests@[j], now)
                },
            decreases l0.len() - k,
        {
            proof {
                lemma_request_total_prefix(l0, k as int);
            }
            let ghost rs = l0[k as int].requests@;
            let ghost base = cleaned;
            let ghost outer = self.pending_requests@;
            let mut j: usize = 0;
            while j < self.pending_requests[k].requests.len()
                invariant
                    k < l0.len(),
                    self.pending_requests@.len() == l0.len(),
                    self.friends@ == old(self).friends@,
                    self.blacklist@ == old(self).blacklist@,
                    rs == l0[k as int].requests@,
                    self.pending_requests@[k as int].target_id == l0[k as int].target_id,
                    self.pending_requests@[k as int].requests@.len() == rs.len(),
                    j <= rs.len(),
                    outer.len() == l0.len(),
                    forall|a: int| 0 <= a < l0.len() && a != k ==> #[trigger] self.pending_requests@[a] == outer[a],
                    forall|b: int| 0 <= b < rs.len() ==> i64::MIN <= now - (#[trigger] rs[b]).created_at <= i64::MAX,
                    forall|b: int| 0 <= b < j ==> #[trigger] self.pending_requests@[k as int].requests@[b] == cleaned_request(rs[b], now),
                    forall|b: int| j <= b < rs.len() ==> #[trigger] self.pending_requests@[k as int].requests@[b] == rs[b],
                    cleaned == base + cleaned_count(rs.take(j as int), now),
                    cleaned_count(rs.take(j as int), now) <= j,
                    base + rs.len() <= usize::MAX,
                decreases rs.len() - j,
            {
                let ghost before = self.pending_requests@;
                proof {
                    assert(rs.take(j + 1).drop_last() =~= rs.take(j as int));
                    assert(rs.take(j + 1).last() == rs[j as int]);
                }
                let q = &self.pending_requests[k].requests[j];
                if !q.expired && now - q.created_at > 604800 {
                    let tr = &mut self.pending_requests[k];
                    let qm = &mut tr.requests[j];
                    qm.expired = true;
                    cleaned = cleaned + 1;
                    proof {
                        assert forall|a: int| 0 <= a < l0.len() && a != k implies #[trigger] self.pending_requests@[a] == before[a] by {}
                    }
                }
                j = j + 1;
            }
            proof {
                assert(rs.take(j as int) =~= rs);
                assert(l0.take(k + 1).drop_last() =~= l0.take(k as int));
                assert(l0.take(k + 1).last() == l0[k as int]);
            }
            k = k + 1;
        }
        proof {
            assert(l0.take(k as int) =~= l0);
            assert forall|a: int, b: int| 0 <= a < b < self.pending_requests@.len() implies self.pending_requests@[a].key_view() != self.pending_requests@[b].key_view() by {
                assert(l0[a].key_view() != l0[b].key_view());
            }
        }
        cleaned
    }

    /// Expires the pending requests older than seven days now.
    pub fn cleanup_expired_requests(&mut self) -> (r: usize)
        requires
            old(self).wf(),
            request_total(old(self).requests_view()) <= usize::MAX,
            forall|k: int, j: int| 0 <= k < old(self).requests_view().len() && 0 <= j < old(self).requests_view()[k].requests@.len() ==> -200_000_000_000_000 <= (#[trigger] old(self).requests_view()[k].requests@[j]).created_at <= 200_000_000_000_000,
        ensures
            final(self).wf(),
            exists|now: i64| r == cleaned_total(old(self).requests_view(), now),
    {
        let now = current_timestamp();
        self.cleanup_expired_requests_at(now)
    }

    /// The friend list as of `now`: how long ago each friend in force was
    /// seen, their name, closeness and remark.
    pub fn format_friend_list_at(&self, player_id: &str, now: i64) -> (r: String)
        requires
            forall|i: int| 0 <= i < normal_friends(self.friends_view(), player_id@).len() ==> ((#[trigger] normal_friends(self.friends_view(), player_id@)[i]).last_online matches Some(l) ==> i64::MIN <= now - l <= i64::MAX),
        ensures
            r@ == friend_list_text(normal_friends(self.friends_view(), player_id@), now),
    {
        let friends = self.get_friends(player_id);
        let ghost fv = friends@.map_values(|x: &FriendRelation| *x);
        let mut out = string_of("§H=== 好友列表 (");
        push_u64(&mut out, friends.len() as u64);
        push_str(&mut out, "人) ===§N\n");
        let ghost head = out@;
        if friends.len() == 0 {
            push_str(&mut out, "你还没有好友。\n");
            return out;
        }
        let mut i: usize = 0;
        while i < friends.len()
            invariant
                i <= friends@.len(),
                fv == friends@.map_values(|x: &FriendRelation| *x),
                fv == normal_friends(self.friends_view(), player_id@),
                forall|i: int| 0 <= i < normal_friends(self.friends_view(), player_id@).len() ==> ((#[trigger] normal_friends(self.friends_view(), player_id@)[i]).last_online matches Some(l) ==> i64::MIN <= now - l <= i64::MAX),
                out@ == head + friend_lines(fv.take(i as int), now),
            decreases friends.len() - i,
        {
            let f = friends[i];
            proof {
                assert(fv[i as int] == *f);
                assert(normal_friends(self.friends_view(), player_id@)[i as int] == *f);
            }
            let line = friend_line_string(f, now);
            push_str(&mut out, line.as_str());
            assert(fv.take(i + 1).drop_last() =~= fv.take(i as int));
            i = i + 1;
        }
        assert(fv.take(i as int) =~= fv);
        out
    }

    /// The friend list now (see `format_friend_list_at`).
    pub fn format_friend_list(&self, player_id: &str) -> (r: String)
        requires
            forall|i: int| 0 <= i < normal_friends(self.friends_view(), player_id@).len() ==> ((#[trigger] normal_friends(self.friends_view(), player_id@)[i]).last_online matches Some(l) ==> -200_000_000_000_000 <= l <= 200_000_000_000_000),
        ensures
            exists|now: i64| r@ == #[trigger] friend_list_text(normal_friends(self.friends_view(), player_id@), now),
    {
        let now = current_timestamp();
        self.format_friend_list_at(player_id, now)
    }

    /// The pending requests sent to a player: applicant, date, message and id.
    pub fn format_pending_requests(&self, player_id: &str) -> (r: String)
        ensures
            ({
                let rs = requests_of(self.requests_view(), player_id@).filter(|q: FriendRequest| is_pending(q));
                r@ == "§H=== 好友申请 ("@ + nat_digits(rs.len()) + "条) ===§N\n"@ + if rs.len() == 0 { "暂无待处理的申请。\n"@ } else { request_lines(rs) }
            }),
    {
        let reqs = self.get_pending_requests(player_id);
        let ghost rv = reqs@.map_values(|q: &FriendRequest| *q);
        let mut out = string_of("§H=== 好友申请 (");
        push_u64(&mut out, reqs.len() as u64);
        push_str(&mut out, "条) ===§N\n");
        let ghost head = out@;
        if reqs.len() == 0 {
            push_str(&mut out, "暂无待处理的申请。\n");
            return out;
        }
        let mut i: usize = 0;
        while i < reqs.len()
            invariant
                i <= reqs@.len(),
                rv == reqs@.map_values(|q: &FriendRequest| *q),
                out@ == head + request_lines(rv.take(i as int)),
            decreases reqs.len() - i,
        {
            let q = reqs[i];
            let line = request_line_string(q);
            push_str(&mut out, line.as_str());
            assert(rv.take(i + 1).drop_last() =~= rv.take(i as int));
            assert(rv[i as int] == *q);
            i = i + 1;
        }
        assert(rv.take(i as int) =~= rv);
        out
    }
}

proof fn lemma_request_total_prefix(ls: Seq<TargetRequests>, k: int)
    requires
        0 <= k < ls.len(),
    ensures
        request_total(ls.take(k)) + ls[k].requests@.len() <= request_total(ls),
    decreases ls.len() - k,
{
    if k + 1 < ls.len() {
        lemma_request_total_prefix(ls, k + 1);
        assert(ls.take(k + 1).drop_last() =~= ls.take(k));
        assert(ls.take(k + 1).last() == ls[k]);
        lemma_request_total_prefix_mono(ls, k + 1);
    } else {
        assert(ls.drop_last() =~= ls.take(k));
    }
}

proof fn lemma_request_total_prefix_mono(ls: Seq<TargetRequests>, n: int)
    requires
        0 <= n <= ls.len(),
    ensures
        request_total(ls.take(n)) <= request_total(ls),
    decreases ls.len() - n,
{
    if n < ls.len() {
        lemma_request_total_prefix_mono(ls, n + 1);
        assert(ls.take(n + 1).drop_last() =~= ls.take(n));
    } else {
        assert(ls.take(n) =~= ls);
    }
}

fn friend_line_string(f: &FriendRelation, now: i64) -> (r: String)
    requires
        f.last_online matches Some(l) ==> i64::MIN <= now - l <= i64::MAX,
    ensures
        r@ == friend_line(*f, now),
{
    let mut out = string_of("  ");
    match f.last_online {
        Some(last) => {
            let elapsed = now - last;
            if elapsed < 300 {
                push_str(&mut out, "§G[在线]§N");
            } else {
                let mins = elapsed / 60;
                if mins < 60 {
                    push_str(&mut out, "[");
                    push_i64(&mut out, mins);
                    push_str(&mut out, "分钟前]");
                } else {
                    push_str(&mut out, "[");
                    push_i64(&mut out, mins / 60);
                    push_str(&mut out, "小时前]");
                }
            }
        },
        None => push_str(&mut out, "[离线]"),
    }
    push_str(&mut out, " ");
    push_str(&mut out, f.friend_name.as_str());
    push_str(&mut out, " - ");
    let lv = if f.intimacy >= 80 {
        "§Y挚友§N"
    } else if f.intimacy >= 50 {
        "§C好友§N"
    } else if f.intimacy >= 20 {
        "§B相识§N"
    } else {
        "§X陌生§N"
    };
    push_str(&mut out, lv);
    push_str(&mut out, " ");
    if f.remark.as_str().unicode_len() == 0 {
        push_str(&mut out, "");
    } else {
        push_str(&mut out, "(");
        push_str(&mut out, f.remark.as_str());
        push_str(&mut out, ")");
    }
    push_str(&mut out, "\n");
    out
}

fn request_line_string(q: &FriendRequest) -> (r: String)
    ensures
        r@ == request_line(*q),
{
    let mut out = string_of("  ");
    push_str(&mut out, q.applicant_name.as_str());
    push_str(&mut out, " [");
    match utc_minute(q.created_at) {
        Some(t) => push_str(&mut out, t.as_str()),
        None => push_str(&mut out, "未知"),
    }
    push_str(&mut out, "] ");
    if q.message.as_str().unicode_len() == 0 {
        push_str(&mut out, "无留言");
    } else {
        push_str(&mut out, q.message.as_str());
    }
    push_str(&mut out, "\n    \"");
    push_str(&mut out, q.request_id.as_str());
    push_str(&mut out, "\"\n");
    out
}

impl Default for FriendDaemon {
    fn default() -> (r: Self)
        ensures
            r.wf(),
    {
        Self::new()
    }
}


/// Asked by id `id`, the check `f` may answer `b`.
pub open spec fn answered<F: Fn(&str) -> bool>(f: F, id: Seq<char>, b: bool) -> bool {
    exists|s: &str| s@ == id && #[trigger] f.ensures((s,), b)
}

/// The relations of `rs` in force, in order.
pub open spec fn in_force(rs: Seq<FriendRelation>) -> Seq<FriendRelation> {
    rs.filter(|x: FriendRelation| is_normal(x))
}

/// The friends of `fs` whose answer in `ans` is yes, in order (answers
/// beyond the friends are not read).
pub open spec fn picked(fs: Seq<FriendRelation>, ans: Seq<bool>) -> Seq<FriendRelation>
    decreases fs.len(),
{
    if fs.len() == 0 {
        seq![]
    } else {
        let rest = picked(fs.drop_last(), ans);
        if 0 <= fs.len() - 1 < ans.len() && ans[fs.len() - 1] { rest.push(fs.last()) } else { rest }
    }
}

/// Answers past the friends change nothing.
pub proof fn lemma_picked_extra(fs: Seq<FriendRelation>, ans: Seq<bool>, b: bool)
    requires
        fs.len() <= ans.len(),
    ensures
        picked(fs, ans.push(b)) == picked(fs, ans),
    decreases fs.len(),
{
    if fs.len() > 0 {
        lemma_picked_extra(fs.drop_last(), ans, b);
        assert(ans.push(b)[fs.len() - 1] == ans[fs.len() - 1]);
    }
}


/// A send at some time is a send whose time exists.
pub proof fn lemma_sent_some(o: FriendDaemon, f: FriendDaemon, aid: String, aname: String, tid: String, msg: String,
    now: i64, nanos: i64, r: Result<(), MudError>)
    requires
        request_sent(o, f, aid, aname, tid, msg, now, nanos, r),
    ensures
        exists|x: i64, y: i64| #[trigger] request_sent(o, f, aid, aname, tid, msg, x, y, r),
{
}

/// A pending, unexpired request from `a` awaits `t`.
pub open spec fn pending_from(rs: Seq<TargetRequests>, t: Seq<char>, a: Seq<char>) -> bool {
    exists|i: int| 0 <= i < requests_of(rs, t).len() && #[trigger] requests_of(rs, t)[i].applicant_id@ == a
        && !requests_of(rs, t)[i].expired
}

/// Why a request from `a` to `t` is refused, if it is: oneself, a friend
/// already, blocked by the target, or a request already pending.
pub open spec fn request_refusal(d: FriendDaemon, a: Seq<char>, t: Seq<char>) -> Option<Seq<char>> {
    if a == t {
        Some("不能添加自己为好友"@)
    } else if key_in(relations_of(d.friends_view(), a), t) {
        Some("对方已经是你的好友"@)
    } else if has_str(blocked_of(d.blacklist_view(), t), a) {
        Some("对方已将你加入黑名单"@)
    } else if pending_from(d.requests_view(), t, a) {
        Some("已有待处理的好友申请"@)
    } else {
        None
    }
}

/// `f` and `r` are what sending a request from `aid` (named `aname`) to
/// `tid` with `msg` at `now` (`nanos` naming it) makes of `o`: refused as
/// `request_refusal` says, else the request is added last among those to
/// the target.
pub open spec fn request_sent(o: FriendDaemon, f: FriendDaemon, aid: String, aname: String, tid: String, msg: String,
    now: i64, nanos: i64, r: Result<(), MudError>) -> bool {
    &&& f.wf()
    &&& f.friends_view() == o.friends_view()
    &&& f.blacklist_view() == o.blacklist_view()
    &&& match request_refusal(o, aid@, tid@) {
        Some(m) => (r matches Err(MudError::RuntimeError(e)) && e@ == m) && f.requests_view() == o.requests_view(),
        None => {
            &&& r is Ok
            &&& requests_of(f.requests_view(), tid@).drop_last() == requests_of(o.requests_view(), tid@)
            &&& requests_of(f.requests_view(), tid@).len() == requests_of(o.requests_view(), tid@).len() + 1
            &&& ({
                let q = requests_of(f.requests_view(), tid@).last();
                &&& q.request_id@ == "friend_req_"@ + aid@ + "_"@ + int_digits(nanos as int)
                &&& q.applicant_id == aid && q.applicant_name == aname && q.target_id@ == tid@
                &&& q.message == msg && q.created_at == now && !q.expired
            })
            &&& forall|t: Seq<char>| t != tid@ ==> #[trigger] key_get(f.requests_view(), t) == key_get(o.requests_view(), t)
        },
    }
}


/// `f` and `r` are what accepting request `rid` sent to `pid` (named
/// `name`) at `now` makes of `o`: without such a pending request it fails
/// and nothing changes; else the request is closed, the applicant is
/// given back, and both become friends, each under the other's name, dated
/// `now`; no other request or friendship changes.
pub open spec fn accepted(o: FriendDaemon, f: FriendDaemon, rid: Seq<char>, pid: Seq<char>, name: Seq<char>, now: i64,
    r: Result<String, MudError>) -> bool {
    &&& f.wf()
    &&& f.blacklist_view() == o.blacklist_view()
    &&& match first_pending(requests_of(o.requests_view(), pid), rid, 0) {
        None => (r matches Err(MudError::NotFound(m)) && m@ == "好友申请不存在或已过期"@)
            && f.friends_view() == o.friends_view() && f.requests_view() == o.requests_view(),
        Some(i) => {
            let q = requests_of(o.requests_view(), pid)[i];
            let a = q.applicant_id@;
            &&& r matches Ok(id) && id@ == a
            &&& requests_of(f.requests_view(), pid) == requests_of(o.requests_view(), pid).update(i, FriendRequest { expired: true, ..q })
            &&& forall|t: Seq<char>| t != pid ==> #[trigger] key_get(f.requests_view(), t) == key_get(o.requests_view(), t)
            &&& rel_at(f.friends_view(), a, pid) matches Some(x) && fresh_relation(x, a, pid, name, now)
            &&& a != pid ==> (rel_at(f.friends_view(), pid, a) matches Some(x) && fresh_relation(x, pid, a, q.applicant_name@, now))
            &&& forall|p: Seq<char>, g: Seq<char>| !(p == pid && g == a) && !(p == a && g == pid) ==> #[trigger] rel_at(f.friends_view(), p, g) == rel_at(o.friends_view(), p, g)
        },
    }
}

/// With no pending request of id `id` from position `j` on, none is found.
proof fn lemma_no_pending(rs: Seq<FriendRequest>, id: Seq<char>, j: int)
    requires
        0 <= j,
        forall|k: int| j <= k < rs.len() ==> !((#[trigger] rs[k]).request_id@ == id && !rs[k].expired),
    ensures
        first_pending(rs, id, j) is None,
    decreases rs.len() - j,
{
    if j < rs.len() {
        lemma_no_pending(rs, id, j + 1);
    }
}

/// Request `rid` sent to `pid` is accepted, then accepted again: the first
/// time both players become friends in force, each of the other; the
/// second time, where `rid` named one pending request only, fails with
/// 好友申请不存在或已过期 and changes nothing.
pub proof fn lemma_accept_once(o: FriendDaemon, f: FriendDaemon, rid: Seq<char>, pid: Seq<char>, name: Seq<char>,
    now: i64, r: Result<String, MudError>, g: FriendDaemon, name2: Seq<char>, now2: i64, r2: Result<String, MudError>)
    requires
        accepted(o, f, rid, pid, name, now, r),
        accepted(f, g, rid, pid, name2, now2, r2),
        r is Ok,
        forall|k1: int, k2: int| 0 <= k1 < requests_of(o.requests_view(), pid).len()
            && 0 <= k2 < requests_of(o.requests_view(), pid).len()
            && (#[trigger] requests_of(o.requests_view(), pid)[k1]).request_id@ == rid && !requests_of(o.requests_view(), pid)[k1].expired
            && (#[trigger] requests_of(o.requests_view(), pid)[k2]).request_id@ == rid && !requests_of(o.requests_view(), pid)[k2].expired
            ==> k1 == k2,
    ensures
        rel_at(f.friends_view(), r->Ok_0@, pid) matches Some(x) && x.status == FriendStatus::Normal,
        r->Ok_0@ != pid ==> (rel_at(f.friends_view(), pid, r->Ok_0@) matches Some(x) && x.status == FriendStatus::Normal),
        r2 matches Err(MudError::NotFound(m)) && m@ == "好友申请不存在或已过期"@,
        g.friends_view() == f.friends_view() && g.requests_view() == f.requests_view(),
{
    let rs = requests_of(o.requests_view(), pid);
    lemma_first_pending_range(rs, rid, 0);
    let i = first_pending(rs, rid, 0)->0;
    let q = rs[i];
    let rs2 = requests_of(f.requests_view(), pid);
    assert(rs2 == rs.update(i, FriendRequest { expired: true, ..q }));
    assert(q.request_id@ == rid && !q.expired) by {
        lemma_first_pending_hit(rs, rid, 0);
    }
    assert forall|k: int| 0 <= k < rs2.len() implies !((#[trigger] rs2[k]).request_id@ == rid && !rs2[k].expired) by {
        if k != i {
            assert(rs2[k] == rs[k]);
        }
    }
    lemma_no_pending(rs2, rid, 0);
}

/// The request `first_pending` finds is pending with the id sought.
proof fn lemma_first_pending_hit(rs: Seq<FriendRequest>, id: Seq<char>, j: int)
    requires
        0 <= j,
    ensures
        first_pending(rs, id, j) matches Some(i) ==> rs[i].request_id@ == id && !rs[i].expired,
    decreases rs.len() - j,
{
    if j < rs.len() && !(rs[j].request_id@ == id && !rs[j].expired) {
        lemma_first_pending_hit(rs, id, j + 1);
    }
}

/// What `FriendDaemon::update_last_online_at` promises: `o` is the value before the call, `f` the value
/// after.
pub open spec fn update_last_online_done(o: FriendDaemon, f: FriendDaemon, player_id: &str, now: i64) -> bool {
    &&& (f.wf())
    &&& (f.requests_view() == o.requests_view())
    &&& (f.blacklist_view() == o.blacklist_view())
    &&& (forall|p: Seq<char>, g: Seq<char>| #[trigger] rel_at(f.friends_view(), p, g) == if g == player_id@ {
        match rel_at(o.friends_view(), p, g) {
            Some(x) => Some(FriendRelation { last_online: Some(now), ..x }),
            None => None,
        }
    } else {
        rel_at(o.friends_view(), p, g)
    })
}

} // verus!
