//! Mail between players: each mail may carry gold and items, which its
//! receiver claims once; mails expire thirty days after they are sent.
//! Every mail is listed in its receiver's inbox and its sender's sentbox.
use vstd::prelude::*;
use crate::errors::{MudError, runtime_error, not_found};
use crate::text::{push_str, push_u64, push_i64, string_of, str_eq, nat_digits, int_digits};
use crate::util::{lemma_key_get_at, without_str, remove_all_str, take_key, Keyed, key_get, key_in, keys_unique, find_key, get_key, put_key,
    lemma_key_in_get};
use crate::outside::{current_timestamp, random_u32, utc_date_minute, utc_date_minute_text};

verus! {

/// How long a mail lasts: thirty days, in seconds.
pub const MAIL_LIFETIME: i64 = 2592000;

/// What kind of mail it is.
#[derive(Clone, Copy, Debug, PartialEq, Eq, Structural)]
pub enum MailType {
    Normal,
    System,
    Reward,
    BattleReport,
}

/// Items sent with a mail.
#[derive(Debug)]
pub struct MailAttachment {
    pub item_id: String,
    pub item_name: String,
    pub count: i32,
}

impl Clone for MailAttachment {
    fn clone(&self) -> (r: Self)
        ensures
            r == *self,
    {
        MailAttachment { item_id: self.item_id.clone(), item_name: self.item_name.clone(), count: self.count }
    }
}

/// A mail.
#[derive(Debug)]
pub struct Mail {
    pub id: String,
    pub sender_id: String,
    pub sender_name: String,
    pub receiver_id: String,
    pub mail_type: MailType,
    pub title: String,
    pub content: String,
    pub gold: u64,
    pub items: Vec<MailAttachment>,
    pub read: bool,
    pub claimed: bool,
    pub sent_at: i64,
    pub expire_at: i64,
}

impl Keyed for Mail {
    open spec fn key_view(&self) -> Seq<char> {
        self.id@
    }

    fn key(&self) -> (r: &String) {
        &self.id
    }
}

/// The mark of a mail's kind in a list.
pub open spec fn type_icon(t: MailType) -> Seq<char> {
    match t {
        MailType::Normal => ""@,
        MailType::System => "§C[系统]§N "@,
        MailType::Reward => "§Y[奖励]§N "@,
        MailType::BattleReport => "§R[战报]§N "@,
    }
}

/// Gold or items come with the mail.
pub open spec fn attached(m: Mail) -> bool {
    m.gold > 0 || m.items@.len() > 0
}

/// The state mark of a mail in a list: unread, else unclaimed attachments,
/// else nothing.
pub open spec fn mail_status(m: Mail) -> Seq<char> {
    if !m.read { "§G[未读]§N"@ } else if attached(m) && !m.claimed { "§Y[附件]§N"@ } else { ""@ }
}

/// A mail's line in a list: `<kind><state> <sender> - <title>`.
pub open spec fn list_item(m: Mail) -> Seq<char> {
    type_icon(m.mail_type) + mail_status(m) + " "@ + m.sender_name@ + " - "@ + m.title@
}

/// The attachment lines: the gold if any, then each item with its count.
pub open spec fn item_lines(items: Seq<MailAttachment>) -> Seq<char>
    decreases items.len(),
{
    if items.len() == 0 {
        seq![]
    } else {
        item_lines(items.drop_last()) + items.last().item_name@ + " x"@ + int_digits(items.last().count as int) + "\n"@
    }
}

/// A mail shown in full: sender, time (`未知` where the calendar has none),
/// title and text, then the attachments if any.
pub open spec fn detail_text(m: Mail) -> Seq<char> {
    let time = match utc_date_minute_text(m.sent_at) {
        Some(t) => t,
        None => "未知"@,
    };
    "§H=== 邮件详情 ===§N\n发件人: "@ + m.sender_name@ + "\n时间: "@ + time + "\n标题: "@ + m.title@ + "\n\n"@
        + m.content@ + "\n"@
        + (if attached(m) {
            "\n§H--- 附件 ---§N\n"@ + (if m.gold > 0 { "金币: "@ + nat_digits(m.gold as nat) + "\n"@ } else { seq![] })
                + item_lines(m.items@)
        } else {
            seq![]
        })
}

/// Two mails hold the same data.
pub open spec fn same_mail(a: Mail, b: Mail) -> bool {
    &&& a.id == b.id && a.sender_id == b.sender_id && a.sender_name == b.sender_name
    &&& a.receiver_id == b.receiver_id && a.mail_type == b.mail_type && a.title == b.title
    &&& a.content == b.content && a.gold == b.gold && a.items@ == b.items@ && a.read == b.read
    &&& a.claimed == b.claimed && a.sent_at == b.sent_at && a.expire_at == b.expire_at
}

/// A copy of a list of attachments.
fn clone_attachments(v: &Vec<MailAttachment>) -> (r: Vec<MailAttachment>)
    ensures
        r@ == v@,
{
    let r = v.clone();
    proof {
        assert forall|i: int| 0 <= i < r@.len() implies r@[i] == v@[i] by {
            assert(cloned::<MailAttachment>(v[i], r[i]));
        }
        assert(r@ =~= v@);
    }
    r
}

impl Clone for Mail {
    fn clone(&self) -> (r: Self)
        ensures
            same_mail(r, *self),
    {
        Mail {
            id: self.id.clone(),
            sender_id: self.sender_id.clone(),
            sender_name: self.sender_name.clone(),
            receiver_id: self.receiver_id.clone(),
            mail_type: self.mail_type,
            title: self.title.clone(),
            content: self.content.clone(),
            gold: self.gold,
            items: clone_attachments(&self.items),
            read: self.read,
            claimed: self.claimed,
            sent_at: self.sent_at,
            expire_at: self.expire_at,
        }
    }
}

/// `<prefix><now>_<salt>`: a mail id.
pub open spec fn mail_id_text(prefix: Seq<char>, now: i64, salt: u32) -> Seq<char> {
    prefix + int_digits(now as int) + "_"@ + nat_digits(salt as nat)
}

/// `<prefix><now>_<salt>`.
fn make_mail_id(prefix: &str, now: i64, salt: u32) -> (r: String)
    ensures
        r@ == mail_id_text(prefix@, now, salt),
{
    let mut id = string_of(prefix);
    push_i64(&mut id, now);
    push_str(&mut id, "_");
    push_u64(&mut id, salt as u64);
    id
}

impl Mail {
    /// A mail sent at `now` with id `mail_<now>_<salt>`, unread, without
    /// attachments, expiring thirty days later.
    pub fn new_at(sender_id: String, sender_name: String, receiver_id: String, mail_type: MailType, title: String,
        content: String, now: i64, salt: u32) -> (r: Self)
        requires
            now <= i64::MAX - MAIL_LIFETIME,
        ensures
            r.id@ == mail_id_text("mail_"@, now, salt),
            r.sender_id == sender_id && r.sender_name == sender_name && r.receiver_id == receiver_id,
            r.mail_type == mail_type && r.title == title && r.content == content,
            r.gold == 0 && r.items@.len() == 0 && !r.read && !r.claimed,
            r.sent_at == now && r.expire_at == now + MAIL_LIFETIME,
    {
        Mail {
            id: make_mail_id("mail_", now, salt),
            sender_id,
            sender_name,
            receiver_id,
            mail_type,
            title,
            content,
            gold: 0,
            items: Vec::new(),
            read: false,
            claimed: false,
            sent_at: now,
            expire_at: now + MAIL_LIFETIME,
        }
    }

    /// A mail sent now, its id ending in a random number (see `new_at`).
    pub fn new(sender_id: String, sender_name: String, receiver_id: String, mail_type: MailType, title: String,
        content: String) -> (r: Self)
        ensures
            exists|salt: u32| r.id@ == #[trigger] mail_id_text("mail_"@, r.sent_at, salt),
            r.sender_id == sender_id && r.sender_name == sender_name && r.receiver_id == receiver_id,
            r.mail_type == mail_type && r.title == title && r.content == content,
            r.gold == 0 && r.items@.len() == 0 && !r.read && !r.claimed,
            r.expire_at == r.sent_at + MAIL_LIFETIME,
    {
        let now = current_timestamp();
        let salt = random_u32();
        Self::new_at(sender_id, sender_name, receiver_id, mail_type, title, content, now, salt)
    }

    /// Expired once `now` is past its expiry time.
    pub fn is_expired_at(&self, now: i64) -> (r: bool)
        ensures
            is_expired_done(*self, now, r),
    {
        now > self.expire_at
    }

    /// Expired now (see `is_expired_at`).
    pub fn is_expired(&self) -> (r: bool)
        ensures
            exists|now: i64| #[trigger] is_expired_done(*self, now, r),
            self.expire_at >= 200_000_000_000_000 ==> !r,
            self.expire_at < -200_000_000_000_000 ==> r,
    {
        let now = current_timestamp();
        self.is_expired_at(now)
    }

    /// Whether gold or items come with the mail.
    pub fn has_attachment(&self) -> (r: bool)
        ensures
            r == attached(*self),
    {
        self.gold > 0 || self.items.len() > 0
    }

    /// The mail's line in a list (see `list_item`).
    pub fn format_list_item(&self) -> (r: String)
        ensures
            r@ == list_item(*self),
    {
        proof {
            reveal_strlit("");
        }
        let mut out = match self.mail_type {
            MailType::Normal => string_of(""),
            MailType::System => string_of("§C[系统]§N "),
            MailType::Reward => string_of("§Y[奖励]§N "),
            MailType::BattleReport => string_of("§R[战报]§N "),
        };
        if !self.read {
            push_str(&mut out, "§G[未读]§N");
        } else if self.has_attachment() && !self.claimed {
            push_str(&mut out, "§Y[附件]§N");
        }
        push_str(&mut out, " ");
        push_str(&mut out, self.sender_name.as_str());
        push_str(&mut out, " - ");
        push_str(&mut out, self.title.as_str());
        assert(out@ =~= list_item(*self));
        out
    }

    /// The mail in full (see `detail_text`).
    pub fn format_detail(&self) -> (r: String)
        ensures
            r@ == detail_text(*self),
    {
        let mut out = string_of("§H=== 邮件详情 ===§N\n发件人: ");
        push_str(&mut out, self.sender_name.as_str());
        push_str(&mut out, "\n时间: ");
        match utc_date_minute(self.sent_at) {
            Some(t) => push_str(&mut out, t.as_str()),
            None => push_str(&mut out, "未知"),
        }
        push_str(&mut out, "\n标题: ");
        push_str(&mut out, self.title.as_str());
        push_str(&mut out, "\n\n");
        push_str(&mut out, self.content.as_str());
        push_str(&mut out, "\n");
        let ghost head = out@;
        if self.has_attachment() {
            push_str(&mut out, "\n§H--- 附件 ---§N\n");
            if self.gold > 0 {
                push_str(&mut out, "金币: ");
                push_u64(&mut out, self.gold);
                push_str(&mut out, "\n");
            }
            let ghost start = out@;
            let mut i: usize = 0;
            while i < self.items.len()
                invariant
                    i <= self.items@.len(),
                    out@ == start + item_lines(self.items@.take(i as int)),
                decreases self.items.len() - i,
            {
                assert(self.items@.take(i as int + 1).drop_last() == self.items@.take(i as int));
                push_str(&mut out, self.items[i].item_name.as_str());
                push_str(&mut out, " x");
                push_i64(&mut out, self.items[i].count as i64);
                push_str(&mut out, "\n");
                assert(out@ =~= start + item_lines(self.items@.take(i as int + 1)));
                i = i + 1;
            }
            assert(self.items@.take(self.items@.len() as int) == self.items@);
        }
        assert(out@ =~= detail_text(*self));
        out
    }
}

/// The mail ids listed for one player.
#[derive(Debug)]
pub struct MailIndex {
    pub userid: String,
    pub ids: Vec<String>,
}

impl Keyed for MailIndex {
    open spec fn key_view(&self) -> Seq<char> {
        self.userid@
    }

    fn key(&self) -> (r: &String) {
        &self.userid
    }
}

/// All mails by id, and each player's inbox and sentbox as lists of ids.
#[derive(Debug)]
pub struct MailDaemon {
    pub mails: Vec<Mail>,
    pub inbox: Vec<MailIndex>,
    pub sentbox: Vec<MailIndex>,
}

/// The mail with id `id`.
pub open spec fn mail_at(d: MailDaemon, id: Seq<char>) -> Option<Mail> {
    key_get(d.mails@, id)
}

/// The ids listed for `user` in an index (none without an entry).
pub open spec fn listed(index: Seq<MailIndex>, user: Seq<char>) -> Seq<String> {
    match key_get(index, user) {
        Some(x) => x.ids@,
        None => seq![],
    }
}

/// The mails that the ids `ids` lead to in `mails`, in order, skipping ids
/// without a mail and, when `only_live`, mails expired at `now`.
pub open spec fn mails_of(ids: Seq<String>, mails: Seq<Mail>, only_live: bool, now: i64) -> Seq<Mail>
    decreases ids.len(),
{
    if ids.len() == 0 {
        seq![]
    } else {
        let rest = mails_of(ids.drop_last(), mails, only_live, now);
        match key_get(mails, ids.last()@) {
            Some(m) => if only_live && now > m.expire_at { rest } else { rest.push(m) },
            None => rest,
        }
    }
}

/// `ms` with `m` put after every mail sent at its time or later.
pub open spec fn insert_by_time(ms: Seq<Mail>, m: Mail) -> Seq<Mail>
    decreases ms.len(),
{
    if ms.len() == 0 {
        seq![m]
    } else if ms.last().sent_at >= m.sent_at {
        ms.push(m)
    } else {
        insert_by_time(ms.drop_last(), m).push(ms.last())
    }
}

/// The mails from the newest down; mails sent at one time keep their order.
pub open spec fn newest_first(ms: Seq<Mail>) -> Seq<Mail>
    decreases ms.len(),
{
    if ms.len() == 0 {
        seq![]
    } else {
        insert_by_time(newest_first(ms.drop_last()), ms.last())
    }
}

/// The mails of a list of references.
pub open spec fn derefs(v: Seq<&Mail>) -> Seq<Mail> {
    v.map_values(|x: &Mail| *x)
}

/// The unread live mails that the ids `ids` lead to, counted with repeats.
pub open spec fn unread_count(ids: Seq<String>, mails: Seq<Mail>, now: i64) -> nat
    decreases ids.len(),
{
    if ids.len() == 0 {
        0
    } else {
        unread_count(ids.drop_last(), mails, now) + match key_get(mails, ids.last()@) {
            Some(m) => if !m.read && !(now > m.expire_at) { 1nat } else { 0nat },
            None => 0nat,
        }
    }
}

/// Puts `m` in place in a list ordered from the newest down.
fn insert_mail_ref<'a>(v: &mut Vec<&'a Mail>, m: &'a Mail)
    ensures
        derefs(final(v)@) == insert_by_time(derefs(old(v)@), *m),
{
    let ghost s0 = derefs(old(v)@);
    let mut j: usize = v.len();
    assert(s0.take(j as int) =~= s0);
    assert(s0.skip(j as int) =~= Seq::<Mail>::empty());
    while j > 0 && v[j - 1].sent_at < m.sent_at
        invariant
            j <= v@.len(),
            v@ == old(v)@,
            s0 == derefs(v@),
            insert_by_time(s0, *m) == insert_by_time(s0.take(j as int), *m) + s0.skip(j as int),
        decreases j,
    {
        proof {
            let t = s0.take(j as int);
            assert(t.drop_last() =~= s0.take(j - 1));
            assert(t.last() == s0[j - 1]);
            assert(s0.skip(j - 1) =~= seq![s0[j - 1]] + s0.skip(j as int));
            assert(insert_by_time(t, *m) =~= insert_by_time(s0.take(j - 1), *m).push(s0[j - 1]));
            assert(insert_by_time(s0.take(j - 1), *m).push(s0[j - 1]) + s0.skip(j as int)
                =~= insert_by_time(s0.take(j - 1), *m) + s0.skip(j - 1));
        }
        j = j - 1;
    }
    proof {
        let t = s0.take(j as int);
        if j == 0 {
            assert(t =~= Seq::<Mail>::empty());
        } else {
            assert(t.last() == s0[j - 1]);
        }
        assert(insert_by_time(t, *m) =~= t.push(*m));
    }
    v.insert(j, m);
    proof {
        assert(derefs(v@) =~= s0.take(j as int).push(*m) + s0.skip(j as int));
    }
}

/// A list ordered from the newest down stays so with a mail put in by
/// `insert_by_time`, and holds one mail more.
pub proof fn lemma_insert_by_time(ms: Seq<Mail>, m: Mail)
    requires
        forall|i: int, j: int| 0 <= i <= j < ms.len() ==> (#[trigger] ms[i]).sent_at >= (#[trigger] ms[j]).sent_at,
    ensures
        insert_by_time(ms, m).len() == ms.len() + 1,
        forall|i: int, j: int| 0 <= i <= j < ms.len() + 1 ==> (#[trigger] insert_by_time(ms, m)[i]).sent_at >= (#[trigger] insert_by_time(ms, m)[j]).sent_at,
        insert_by_time(ms, m).to_multiset() == ms.to_multiset().insert(m),
    decreases ms.len(),
{
    broadcast use vstd::multiset::group_multiset_axioms;
    broadcast use vstd::seq_lib::group_to_multiset_ensures;
    if ms.len() == 0 {
        assert(seq![m] =~= Seq::<Mail>::empty().push(m));
    } else if ms.last().sent_at >= m.sent_at {
    } else {
        let t = ms.drop_last();
        lemma_insert_by_time(t, m);
        let u = insert_by_time(t, m);
        assert(ms =~= t.push(ms.last()));
        assert forall|k: int| 0 <= k < u.len() implies (#[trigger] u[k]).sent_at >= ms.last().sent_at by {
            assert(u.to_multiset().count(u[k]) > 0);
            assert(t.to_multiset().insert(m).count(u[k]) > 0);
            if u[k] != m {
                assert(t.to_multiset().count(u[k]) > 0);
                assert(t.contains(u[k]));
                let w = choose|w: int| 0 <= w < t.len() && t[w] == u[k];
                assert(ms[w] == t[w]);
            }
        }
    }
}

/// The inbox runs from the newest mail down and holds the same mails as
/// the list it was made of.
pub proof fn lemma_newest_first(ms: Seq<Mail>)
    ensures
        newest_first(ms).len() == ms.len(),
        forall|i: int, j: int| 0 <= i <= j < ms.len() ==> (#[trigger] newest_first(ms)[i]).sent_at >= (#[trigger] newest_first(ms)[j]).sent_at,
        newest_first(ms).to_multiset() == ms.to_multiset(),
    decreases ms.len(),
{
    broadcast use vstd::multiset::group_multiset_axioms;
    broadcast use vstd::seq_lib::group_to_multiset_ensures;
    if ms.len() > 0 {
        lemma_newest_first(ms.drop_last());
        lemma_insert_by_time(newest_first(ms.drop_last()), ms.last());
        assert(ms =~= ms.drop_last().push(ms.last()));
    } else {
        assert(ms.to_multiset() =~= vstd::multiset::Multiset::<Mail>::empty());
        assert(newest_first(ms).to_multiset() =~= vstd::multiset::Multiset::<Mail>::empty());
    }
}

/// The mails of `ms` expired at `now`, in order.
pub open spec fn expired_mails(ms: Seq<Mail>, now: i64) -> Seq<Mail>
    decreases ms.len(),
{
    if ms.len() == 0 {
        seq![]
    } else {
        let rest = expired_mails(ms.drop_last(), now);
        if now > ms.last().expire_at { rest.push(ms.last()) } else { rest }
    }
}

/// `ids`, listed for `user`, without the ids of the mails of `gone` that
/// `user` received (`inbox`) or sent (not `inbox`).
pub open spec fn strip(ids: Seq<String>, gone: Seq<Mail>, user: Seq<char>, inbox: bool) -> Seq<String>
    decreases gone.len(),
{
    if gone.len() == 0 {
        ids
    } else {
        let rest = strip(ids, gone.drop_last(), user, inbox);
        let m = gone.last();
        if (if inbox { m.receiver_id@ } else { m.sender_id@ }) == user { without_str(rest, m.id@) } else { rest }
    }
}

/// The inbox list line: two spaces, the mail's line, a line break.
pub open spec fn inbox_lines(ms: Seq<Mail>) -> Seq<char>
    decreases ms.len(),
{
    if ms.len() == 0 { seq![] } else { inbox_lines(ms.drop_last()) + "  "@ + list_item(ms.last()) + "\n"@ }
}

/// The inbox view of the mails `ms`.
pub open spec fn inbox_text(ms: Seq<Mail>) -> Seq<char> {
    "§H=== 收件箱 ("@ + nat_digits(ms.len()) + "封) ===§N\n"@ + (if ms.len() == 0 { "收件箱为空。\n"@ } else { inbox_lines(ms) })
}

/// Appends `id` to `user`'s list, which is made if missing.
fn push_index(index: &mut Vec<MailIndex>, user: &str, id: String)
    requires
        keys_unique(old(index)@),
    ensures
        keys_unique(final(index)@),
        listed(final(index)@, user@) == listed(old(index)@, user@).push(id),
        forall|u: Seq<char>| u != user@ ==> #[trigger] listed(final(index)@, u) == listed(old(index)@, u),
{
    let ghost i0 = index@;
    match take_key(index, user) {
        Some(mut x) => {
            x.ids.push(id);
            put_key(index, x);
        },
        None => {
            let mut ids: Vec<String> = Vec::new();
            ids.push(id);
            put_key(index, MailIndex { userid: string_of(user), ids });
            assert(listed(i0, user@) =~= Seq::<String>::empty());
        },
    }
    proof {
        assert forall|u: Seq<char>| u != user@ implies #[trigger] listed(index@, u) == listed(i0, u) by {
            assert(key_get(index@, u) == key_get(i0, u));
        }
    }
}

/// Takes every `id` out of `user`'s list, if it has one.
fn retain_index(index: &mut Vec<MailIndex>, user: &str, id: &str)
    requires
        keys_unique(old(index)@),
    ensures
        keys_unique(final(index)@),
        listed(final(index)@, user@) == without_str(listed(old(index)@, user@), id@),
        forall|u: Seq<char>| u != user@ ==> #[trigger] listed(final(index)@, u) == listed(old(index)@, u),
{
    let ghost i0 = index@;
    match take_key(index, user) {
        Some(mut x) => {
            let ids = remove_all_str(&x.ids, id);
            x.ids = ids;
            put_key(index, x);
        },
        None => {
            assert(without_str(Seq::<String>::empty(), id@) =~= Seq::<String>::empty());
        },
    }
    proof {
        assert forall|u: Seq<char>| u != user@ implies #[trigger] listed(index@, u) == listed(i0, u) by {
            assert(key_get(index@, u) == key_get(i0, u));
        }
    }
}

impl MailDaemon {
    /// Mail ids are distinct, and each player has one inbox and one sentbox.
    pub open spec fn wf(&self) -> bool {
        keys_unique(self.mails@) && keys_unique(self.inbox@) && keys_unique(self.sentbox@)
    }

    /// No mails.
    pub fn new() -> (r: Self)
        ensures
            r.wf(),
            r.mails@.len() == 0 && r.inbox@.len() == 0 && r.sentbox@.len() == 0,
    {
        MailDaemon { mails: Vec::new(), inbox: Vec::new(), sentbox: Vec::new() }
    }

    /// Stores `mail` (in place of one with its id) and lists its id last
    /// in its receiver's inbox and its sender's sentbox.
    pub fn send_mail(&mut self, mail: Mail) -> (r: Result<(), MudError>)
        requires
            old(self).wf(),
        ensures
            final(self).wf(),
            r is Ok,
            mail_at(*final(self), mail.id@) == Some(mail),
            forall|k: Seq<char>| k != mail.id@ ==> #[trigger] mail_at(*final(self), k) == mail_at(*old(self), k),
            listed(final(self).inbox@, mail.receiver_id@) == listed(old(self).inbox@, mail.receiver_id@).push(mail.id),
            forall|u: Seq<char>| u != mail.receiver_id@ ==> #[trigger] listed(final(self).inbox@, u) == listed(old(self).inbox@, u),
            listed(final(self).sentbox@, mail.sender_id@) == listed(old(self).sentbox@, mail.sender_id@).push(mail.id),
            forall|u: Seq<char>| u != mail.sender_id@ ==> #[trigger] listed(final(self).sentbox@, u) == listed(old(self).sentbox@, u),
    {
        let ghost m0 = mail;
        let id1 = mail.id.clone();
        let id2 = mail.id.clone();
        push_index(&mut self.inbox, mail.receiver_id.as_str(), id1);
        push_index(&mut self.sentbox, mail.sender_id.as_str(), id2);
        put_key(&mut self.mails, mail);
        Ok(())
    }

    /// The live mails of `userid`'s inbox at time `now`, newest first (see
    /// `newest_first`; mails sent at one time keep the inbox's order).
    pub fn get_inbox_at(&self, userid: &str, now: i64) -> (r: Vec<&Mail>)
        ensures
            derefs(r@) == newest_first(mails_of(listed(self.inbox@, userid@), self.mails@, true, now)),
    {
        self.collect(&self.inbox, userid, true, now)
    }

    /// The live mails of `userid`'s inbox now (see `get_inbox_at`).
    pub fn get_inbox(&self, userid: &str) -> (r: Vec<&Mail>)
        ensures
            exists|now: i64| derefs(r@) == #[trigger] newest_first(mails_of(listed(self.inbox@, userid@), self.mails@, true, now)),
    {
        let now = current_timestamp();
        self.get_inbox_at(userid, now)
    }

    /// The mails of `userid`'s sentbox, newest first.
    pub fn get_sentbox(&self, userid: &str) -> (r: Vec<&Mail>)
        ensures
            derefs(r@) == newest_first(mails_of(listed(self.sentbox@, userid@), self.mails@, false, 0)),
    {
        self.collect(&self.sentbox, userid, false, 0)
    }

    fn collect<'a>(&'a self, index: &Vec<MailIndex>, userid: &str, only_live: bool, now: i64) -> (r: Vec<&'a Mail>)
        ensures
            derefs(r@) == newest_first(mails_of(listed(index@, userid@), self.mails@, only_live, now)),
    {
        let mut r: Vec<&Mail> = Vec::new();
        match get_key(index, userid) {
            Some(x) => {
                let ids = &x.ids;
                let mut i: usize = 0;
                while i < ids.len()
                    invariant
                        i <= ids@.len(),
                        derefs(r@) == newest_first(mails_of(ids@.take(i as int), self.mails@, only_live, now)),
                    decreases ids.len() - i,
                {
                    assert(ids@.take(i as int + 1).drop_last() == ids@.take(i as int));
                    assert(ids@.take(i as int + 1).last() == ids@[i as int]);
                    match get_key(&self.mails, ids[i].as_str()) {
                        Some(m) => {
                            if !(only_live && now > m.expire_at) {
                                let ghost before = mails_of(ids@.take(i as int), self.mails@, only_live, now);
                                insert_mail_ref(&mut r, m);
                                assert(mails_of(ids@.take(i as int + 1), self.mails@, only_live, now) == before.push(*m));
                                assert(before.push(*m).drop_last() =~= before);
                            }
                        },
                        None => {},
                    }
                    i = i + 1;
                }
                assert(ids@.take(ids@.len() as int) == ids@);
            },
            None => {
                assert(derefs(r@) =~= Seq::<Mail>::empty());
            },
        }
        r
    }

    /// The mail with id `mail_id`.
    pub fn get_mail(&self, mail_id: &str) -> (r: Option<&Mail>)
        ensures
            r matches Some(m) ==> mail_at(*self, mail_id@) == Some(*m),
            r is None <==> mail_at(*self, mail_id@) is None,
    {
        get_key(&self.mails, mail_id)
    }

    /// Marks mail `mail_id` read. Fails when there is no such mail.
    pub fn mark_read(&mut self, mail_id: &str) -> (r: Result<(), MudError>)
        requires
            old(self).wf(),
        ensures
            final(self).wf(),
            mail_at(*old(self), mail_id@) is None ==> (r matches Err(MudError::NotFound(m)) && m@ == "邮件不存在"@),
            mail_at(*old(self), mail_id@) matches Some(m) ==> r is Ok && mail_at(*final(self), mail_id@) == Some(Mail { read: true, ..m }),
            forall|k: Seq<char>| k != mail_id@ ==> #[trigger] mail_at(*final(self), k) == mail_at(*old(self), k),
            final(self).inbox@ == old(self).inbox@ && final(self).sentbox@ == old(self).sentbox@,
    {
        match take_key(&mut self.mails, mail_id) {
            Some(mut m) => {
                m.read = true;
                put_key(&mut self.mails, m);
                Ok(())
            },
            None => Err(not_found("邮件不存在")),
        }
    }

    /// Hands out the gold and items of mail `mail_id` and marks them
    /// claimed. Fails when there is no such mail, when nothing is attached
    /// and when it was claimed before.
    pub fn claim_attachment(&mut self, mail_id: &str) -> (r: Result<(u64, Vec<MailAttachment>), MudError>)
        requires
            old(self).wf(),
        ensures
            final(self).wf(),
            mail_at(*old(self), mail_id@) is None ==> (r matches Err(MudError::NotFound(m)) && m@ == "邮件不存在"@),
            mail_at(*old(self), mail_id@) matches Some(m) ==> {
                &&& !attached(m) ==> (r matches Err(MudError::RuntimeError(e)) && e@ == "没有附件"@)
                &&& attached(m) && m.claimed ==> (r matches Err(MudError::RuntimeError(e)) && e@ == "附件已领取"@)
                &&& attached(m) && !m.claimed ==> (r matches Ok((g, items)) && g == m.gold && items@ == m.items@)
                    && mail_at(*final(self), mail_id@) == Some(Mail { claimed: true, ..m })
            },
            r is Err ==> forall|k: Seq<char>| #[trigger] mail_at(*final(self), k) == mail_at(*old(self), k),
            forall|k: Seq<char>| k != mail_id@ ==> #[trigger] mail_at(*final(self), k) == mail_at(*old(self), k),
            final(self).inbox@ == old(self).inbox@ && final(self).sentbox@ == old(self).sentbox@,
    {
        let ghost o = *self;
        match take_key(&mut self.mails, mail_id) {
            Some(mut m) => {
                if !m.has_attachment() {
                    put_key(&mut self.mails, m);
                    return Err(runtime_error("没有附件"));
                }
                if m.claimed {
                    put_key(&mut self.mails, m);
                    return Err(runtime_error("附件已领取"));
                }
                m.claimed = true;
                let gold = m.gold;
                let items = clone_attachments(&m.items);
                put_key(&mut self.mails, m);
                Ok((gold, items))
            },
            None => Err(not_found("邮件不存在")),
        }
    }

    /// Deletes mail `mail_id` for `userid`, its receiver or sender: the
    /// mail goes, and its id leaves the receiver's inbox and the sender's
    /// sentbox. Fails when there is no such mail and for anyone else.
    pub fn delete_mail(&mut self, mail_id: &str, userid: &str) -> (r: Result<(), MudError>)
        requires
            old(self).wf(),
        ensures
            final(self).wf(),
            mail_at(*old(self), mail_id@) is None ==> (r matches Err(MudError::NotFound(m)) && m@ == "邮件不存在"@),
            mail_at(*old(self), mail_id@) matches Some(m) ==> {
                &&& m.receiver_id@ != userid@ && m.sender_id@ != userid@ ==> (r matches Err(MudError::PermissionDenied))
                &&& (m.receiver_id@ == userid@ || m.sender_id@ == userid@) ==> {
                    &&& r is Ok
                    &&& mail_at(*final(self), mail_id@) is None
                    &&& listed(final(self).inbox@, m.receiver_id@) == without_str(listed(old(self).inbox@, m.receiver_id@), mail_id@)
                    &&& forall|u: Seq<char>| u != m.receiver_id@ ==> #[trigger] listed(final(self).inbox@, u) == listed(old(self).inbox@, u)
                    &&& listed(final(self).sentbox@, m.sender_id@) == without_str(listed(old(self).sentbox@, m.sender_id@), mail_id@)
                    &&& forall|u: Seq<char>| u != m.sender_id@ ==> #[trigger] listed(final(self).sentbox@, u) == listed(old(self).sentbox@, u)
                }
            },
            r is Err ==> final(self).mails@ == old(self).mails@ && final(self).inbox@ == old(self).inbox@
                && final(self).sentbox@ == old(self).sentbox@,
            forall|k: Seq<char>| k != mail_id@ ==> #[trigger] mail_at(*final(self), k) == mail_at(*old(self), k),
    {
        let (receiver, sender) = match get_key(&self.mails, mail_id) {
            Some(m) => (m.receiver_id.clone(), m.sender_id.clone()),
            None => {
                return Err(not_found("邮件不存在"));
            },
        };
        if !str_eq(receiver.as_str(), userid) && !str_eq(sender.as_str(), userid) {
            return Err(MudError::PermissionDenied);
        }
        retain_index(&mut self.inbox, receiver.as_str(), mail_id);
        retain_index(&mut self.sentbox, sender.as_str(), mail_id);
        take_key(&mut self.mails, mail_id);
        Ok(())
    }

    /// Deletes every mail expired at time `now` (see `expired_mails`),
    /// taking its id out of its receiver's inbox and its sender's sentbox;
    /// gives their number.
    pub fn cleanup_expired_at(&mut self, now: i64) -> (r: usize)
        requires
            old(self).wf(),
        ensures
            cleanup_expired_done(*old(self), *final(self), now, r),
    {
        let ghost o = *self;
        let mut gone: Vec<(String, String, String)> = Vec::new();
        let mut i: usize = 0;
        while i < self.mails.len()
            invariant
                i <= self.mails@.len(),
                self.mails@ == o.mails@,
                gone@.len() == expired_mails(self.mails@.take(i as int), now).len(),
                forall|j: int| 0 <= j < gone@.len() ==> {
                    &&& (#[trigger] gone@[j]).0 == expired_mails(self.mails@.take(i as int), now)[j].id
                    &&& gone@[j].1 == expired_mails(self.mails@.take(i as int), now)[j].receiver_id
                    &&& gone@[j].2 == expired_mails(self.mails@.take(i as int), now)[j].sender_id
                },
            decreases self.mails.len() - i,
        {
            assert(self.mails@.take(i as int + 1).drop_last() == self.mails@.take(i as int));
            assert(self.mails@.take(i as int + 1).last() == self.mails@[i as int]);
            let m = &self.mails[i];
            if now > m.expire_at {
                gone.push((m.id.clone(), m.receiver_id.clone(), m.sender_id.clone()));
            }
            i = i + 1;
        }
        assert(self.mails@.take(self.mails@.len() as int) == self.mails@);
        let ghost ex = expired_mails(o.mails@, now);
        proof {
            lemma_expired_in(o.mails@, now);
        }
        let mut j: usize = 0;
        while j < gone.len()
            invariant
                j <= gone@.len(),
                gone@.len() == ex.len(),
                ex == expired_mails(o.mails@, now),
                forall|t: int| 0 <= t < gone@.len() ==> {
                    &&& (#[trigger] gone@[t]).0 == ex[t].id
                    &&& gone@[t].1 == ex[t].receiver_id
                    &&& gone@[t].2 == ex[t].sender_id
                },
                forall|t: int| 0 <= t < ex.len() ==> now > (#[trigger] ex[t]).expire_at && mail_at(o, ex[t].id@) == Some(ex[t]),
                self.wf(),
                forall|k: Seq<char>| #[trigger] mail_at(*self, k) == (if exists|t: int| 0 <= t < j && (#[trigger] ex[t]).id@ == k { None } else { mail_at(o, k) }),
                forall|u: Seq<char>| #[trigger] listed(self.inbox@, u) == strip(listed(o.inbox@, u), ex.take(j as int), u, true),
                forall|u: Seq<char>| #[trigger] listed(self.sentbox@, u) == strip(listed(o.sentbox@, u), ex.take(j as int), u, false),
            decreases gone.len() - j,
        {
            let ghost s_in = self.inbox@;
            let ghost s_out = self.sentbox@;
            let ghost s_m = *self;
            retain_index(&mut self.inbox, gone[j].1.as_str(), gone[j].0.as_str());
            retain_index(&mut self.sentbox, gone[j].2.as_str(), gone[j].0.as_str());
            take_key(&mut self.mails, gone[j].0.as_str());
            proof {
                assert(ex.take(j as int + 1).drop_last() == ex.take(j as int));
                assert(ex.take(j as int + 1).last() == ex[j as int]);
                assert forall|u: Seq<char>| #[trigger] listed(self.inbox@, u) == strip(listed(o.inbox@, u), ex.take(j as int + 1), u, true) by {
                    if u != ex[j as int].receiver_id@ {
                        assert(listed(self.inbox@, u) == listed(s_in, u));
                    }
                }
                assert forall|u: Seq<char>| #[trigger] listed(self.sentbox@, u) == strip(listed(o.sentbox@, u), ex.take(j as int + 1), u, false) by {
                    if u != ex[j as int].sender_id@ {
                        assert(listed(self.sentbox@, u) == listed(s_out, u));
                    }
                }
                assert forall|k: Seq<char>| #[trigger] mail_at(*self, k) == (if exists|t: int| 0 <= t < j + 1 && (#[trigger] ex[t]).id@ == k { None } else { mail_at(o, k) }) by {
                    if k == ex[j as int].id@ {
                    } else {
                        assert(mail_at(*self, k) == mail_at(s_m, k));
                        if exists|t: int| 0 <= t < j + 1 && (#[trigger] ex[t]).id@ == k {
                            let t = choose|t: int| 0 <= t < j + 1 && (#[trigger] ex[t]).id@ == k;
                            assert(t < j);
                        }
                    }
                }
            }
            j = j + 1;
        }
        proof {
            assert(ex.take(ex.len() as int) == ex);
            assert forall|k: Seq<char>| #[trigger] mail_at(*self, k) == (match mail_at(o, k) {
                Some(m) => if now > m.expire_at { None } else { Some(m) },
                None => None,
            }) by {
                lemma_expired_exact(o.mails@, now, k);
            }
        }
        gone.len()
    }

    /// Deletes every mail expired now (see `cleanup_expired_at`).
    pub fn cleanup_expired(&mut self) -> (r: usize)
        requires
            old(self).wf(),
        ensures
            exists|now: i64| #[trigger] cleanup_expired_done(*old(self), *final(self), now, r),
            final(self).wf(),
            r <= old(self).mails@.len(),
    {
        let now = current_timestamp();
        proof {
            lemma_expired_len(old(self).mails@, now);
        }
        self.cleanup_expired_at(now)
    }
}

/// Every expired mail is one of the list, found under its id.
proof fn lemma_expired_in(ms: Seq<Mail>, now: i64)
    requires
        keys_unique(ms),
    ensures
        forall|t: int| 0 <= t < expired_mails(ms, now).len() ==> now > (#[trigger] expired_mails(ms, now)[t]).expire_at
            && key_get(ms, expired_mails(ms, now)[t].id@) == Some(expired_mails(ms, now)[t]),
    decreases ms.len(),
{
    let e = expired_mails(ms, now);
    if ms.len() > 0 {
        let p = ms.drop_last();
        lemma_expired_in(p, now);
        let ep = expired_mails(p, now);
        assert forall|t: int| 0 <= t < e.len() implies now > (#[trigger] e[t]).expire_at && key_get(ms, e[t].id@) == Some(e[t]) by {
            if t < ep.len() {
                assert(e[t] == ep[t]);
                crate::util::lemma_key_get_in(p, ep[t].id@);
                let i = choose|i: int| 0 <= i < p.len() && p[i] == ep[t] && ep[t].key_view() == ep[t].id@;
                assert(ms[i] == p[i]);
                crate::util::lemma_unique_pos(ms, i);
                lemma_key_get_at(ms, ms[i].id@, i);
            } else {
                assert(e[t] == ms.last());
                crate::util::lemma_unique_pos(ms, ms.len() - 1);
                lemma_key_get_at(ms, ms.last().id@, ms.len() - 1);
            }
        }
    }
}

/// Each expired mail of the list is among the expired ones.
proof fn lemma_expired_has(ms: Seq<Mail>, now: i64, i: int)
    requires
        0 <= i < ms.len(),
        now > ms[i].expire_at,
    ensures
        exists|t: int| 0 <= t < expired_mails(ms, now).len() && #[trigger] expired_mails(ms, now)[t] == ms[i],
    decreases ms.len(),
{
    let e = expired_mails(ms, now);
    if i == ms.len() - 1 {
        assert(e[e.len() - 1] == ms[i]);
    } else {
        let p = ms.drop_last();
        lemma_expired_has(p, now, i);
        let t = choose|t: int| 0 <= t < expired_mails(p, now).len() && #[trigger] expired_mails(p, now)[t] == p[i];
        assert(e[t] == expired_mails(p, now)[t]);
    }
}

/// A mail is among the expired ones exactly when it expired.
proof fn lemma_expired_exact(ms: Seq<Mail>, now: i64, k: Seq<char>)
    requires
        keys_unique(ms),
    ensures
        (exists|t: int| 0 <= t < expired_mails(ms, now).len() && (#[trigger] expired_mails(ms, now)[t]).id@ == k)
            <==> (key_get(ms, k) matches Some(m) && now > m.expire_at),
{
    let e = expired_mails(ms, now);
    lemma_expired_in(ms, now);
    if key_get(ms, k) is Some && now > key_get(ms, k)->0.expire_at {
        let m = key_get(ms, k)->0;
        crate::util::lemma_key_get_in(ms, k);
        let i = choose|i: int| 0 <= i < ms.len() && ms[i] == m && m.key_view() == k;
        lemma_expired_has(ms, now, i);
    }
    if exists|t: int| 0 <= t < e.len() && (#[trigger] e[t]).id@ == k {
        let t = choose|t: int| 0 <= t < e.len() && (#[trigger] e[t]).id@ == k;
        assert(key_get(ms, e[t].id@) == Some(e[t]));
    }
}

/// There are no more expired mails than mails.
proof fn lemma_expired_len(ms: Seq<Mail>, now: i64)
    ensures
        expired_mails(ms, now).len() <= ms.len(),
    decreases ms.len(),
{
    if ms.len() > 0 {
        lemma_expired_len(ms.drop_last(), now);
    }
}

impl MailDaemon {
    /// Sends, from the system to `receiver_id`, a mail with id
    /// `sys_<now>_<salt>` carrying `gold` and `items`, sent at `now` and
    /// expiring thirty days later (see `send_mail`).
    pub fn send_system_mail_at(&mut self, receiver_id: String, title: String, content: String, gold: u64,
        items: Vec<MailAttachment>, now: i64, salt: u32)
        requires
            old(self).wf(),
            now <= i64::MAX - MAIL_LIFETIME,
        ensures
            final(self).wf(),
            mail_at(*final(self), mail_id_text("sys_"@, now, salt)) matches Some(m) && {
                &&& m.sender_id@ == "system"@ && m.sender_name@ == "系统"@ && m.receiver_id == receiver_id
                &&& m.mail_type == MailType::System && m.title == title && m.content == content
                &&& m.gold == gold && m.items == items && !m.read && !m.claimed
                &&& m.sent_at == now && m.expire_at == now + MAIL_LIFETIME
            },
            forall|k: Seq<char>| k != mail_id_text("sys_"@, now, salt) ==> #[trigger] mail_at(*final(self), k) == mail_at(*old(self), k),
            listed(final(self).inbox@, receiver_id@) == listed(old(self).inbox@, receiver_id@).push(
                mail_at(*final(self), mail_id_text("sys_"@, now, salt))->0.id),
            forall|u: Seq<char>| u != receiver_id@ ==> #[trigger] listed(final(self).inbox@, u) == listed(old(self).inbox@, u),
            listed(final(self).sentbox@, "system"@) == listed(old(self).sentbox@, "system"@).push(
                mail_at(*final(self), mail_id_text("sys_"@, now, salt))->0.id),
            forall|u: Seq<char>| u != "system"@ ==> #[trigger] listed(final(self).sentbox@, u) == listed(old(self).sentbox@, u),
    {
        let mail = Mail {
            id: make_mail_id("sys_", now, salt),
            sender_id: string_of("system"),
            sender_name: string_of("系统"),
            receiver_id,
            mail_type: MailType::System,
            title,
            content,
            gold,
            items,
            read: false,
            claimed: false,
            sent_at: now,
            expire_at: now + MAIL_LIFETIME,
        };
        let _ = self.send_mail(mail);
    }

    /// Sends a system mail now, its id ending in a random number (see
    /// `send_system_mail_at`).
    pub fn send_system_mail(&mut self, receiver_id: String, title: String, content: String, gold: u64,
        items: Vec<MailAttachment>)
        requires
            old(self).wf(),
        ensures
            final(self).wf(),
            exists|now: i64, salt: u32| #[trigger] mail_at(*final(self), mail_id_text("sys_"@, now, salt)) matches Some(m) && {
                &&& m.sender_id@ == "system"@ && m.receiver_id == receiver_id && m.mail_type == MailType::System
                &&& m.title == title && m.content == content && m.gold == gold && m.items == items
            },
    {
        let now = current_timestamp();
        let salt = random_u32();
        self.send_system_mail_at(receiver_id, title, content, gold, items, now, salt);
    }

    /// The inbox view of `userid` at time `now`: the count of live mails,
    /// then each as a line, newest first (see `inbox_text`).
    pub fn format_inbox_at(&self, userid: &str, now: i64) -> (r: String)
        ensures
            r@ == inbox_text(newest_first(mails_of(listed(self.inbox@, userid@), self.mails@, true, now))),
    {
        let mails = self.get_inbox_at(userid, now);
        let ghost ms = derefs(mails@);
        let mut out = string_of("§H=== 收件箱 (");
        push_u64(&mut out, mails.len() as u64);
        push_str(&mut out, "封) ===§N\n");
        if mails.len() == 0 {
            push_str(&mut out, "收件箱为空。\n");
        } else {
            let ghost start = out@;
            let mut i: usize = 0;
            while i < mails.len()
                invariant
                    i <= mails@.len(),
                    ms == derefs(mails@),
                    out@ == start + inbox_lines(ms.take(i as int)),
                decreases mails.len() - i,
            {
                assert(ms.take(i as int + 1).drop_last() == ms.take(i as int));
                assert(ms.take(i as int + 1).last() == *mails@[i as int]);
                push_str(&mut out, "  ");
                let line = mails[i].format_list_item();
                push_str(&mut out, line.as_str());
                push_str(&mut out, "\n");
                assert(out@ =~= start + inbox_lines(ms.take(i as int + 1)));
                i = i + 1;
            }
            assert(ms.take(ms.len() as int) == ms);
        }
        assert(out@ =~= inbox_text(ms));
        out
    }

    /// The inbox view of `userid` now (see `format_inbox_at`).
    pub fn format_inbox(&self, userid: &str) -> (r: String)
        ensures
            exists|now: i64| r@ == #[trigger] inbox_text(newest_first(mails_of(listed(self.inbox@, userid@), self.mails@, true, now))),
    {
        let now = current_timestamp();
        self.format_inbox_at(userid, now)
    }

    /// How many of `userid`'s inbox entries lead to a mail that is unread
    /// and live at time `now`.
    pub fn get_unread_count_at(&self, userid: &str, now: i64) -> (r: usize)
        ensures
            r == unread_count(listed(self.inbox@, userid@), self.mails@, now),
    {
        match get_key(&self.inbox, userid) {
            Some(x) => {
                let ids = &x.ids;
                let mut n: usize = 0;
                let mut i: usize = 0;
                while i < ids.len()
                    invariant
                        i <= ids@.len(),
                        n == unread_count(ids@.take(i as int), self.mails@, now),
                        n <= i,
                    decreases ids.len() - i,
                {
                    assert(ids@.take(i as int + 1).drop_last() == ids@.take(i as int));
                    assert(ids@.take(i as int + 1).last() == ids@[i as int]);
                    match get_key(&self.mails, ids[i].as_str()) {
                        Some(m) => {
                            if !m.read && !(now > m.expire_at) {
                                n = n + 1;
                            }
                        },
                        None => {},
                    }
                    i = i + 1;
                }
                assert(ids@.take(ids@.len() as int) == ids@);
                n
            },
            None => 0,
        }
    }

    /// How many of `userid`'s inbox mails are unread and live now.
    pub fn get_unread_count(&self, userid: &str) -> (r: usize)
        ensures
            exists|now: i64| r == #[trigger] unread_count(listed(self.inbox@, userid@), self.mails@, now),
    {
        let now = current_timestamp();
        self.get_unread_count_at(userid, now)
    }
}

impl Default for MailDaemon {
    fn default() -> (r: Self)
        ensures
            r.wf(),
            r.mails@.len() == 0 && r.inbox@.len() == 0 && r.sentbox@.len() == 0,
    {
        MailDaemon::new()
    }
}

/// What `Mail::is_expired_at` promises: `this` is the value it is called on, `r` what it gives back.
pub open spec fn is_expired_done(this: Mail, now: i64, r: bool) -> bool {
    &&& (r == (now > this.expire_at))
}

/// What `MailDaemon::cleanup_expired_at` promises: `o` is the value before the call, `f` the value
/// after, `r` what it gives back.
pub open spec fn cleanup_expired_done(o: MailDaemon, f: MailDaemon, now: i64, r: usize) -> bool {
    &&& (f.wf())
    &&& (r == expired_mails(o.mails@, now).len())
    &&& (forall|k: Seq<char>| #[trigger] mail_at(f, k) == (match mail_at(o, k) {
        Some(m) => if now > m.expire_at { None } else { Some(m) },
        None => None,
    }))
    &&& (forall|u: Seq<char>| #[trigger] listed(f.inbox@, u) == strip(listed(o.inbox@, u), expired_mails(o.mails@, now), u, true))
    &&& (forall|u: Seq<char>| #[trigger] listed(f.sentbox@, u) == strip(listed(o.sentbox@, u), expired_mails(o.mails@, now), u, false))
}

} // verus!
