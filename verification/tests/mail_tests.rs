use gamenv::daemons::maild::{Mail, MailAttachment, MailDaemon, MailType};

fn mail(id: &str, from: &str, to: &str, sent: i64) -> Mail {
    let mut m = Mail::new_at(from.to_string(), format!("{}名", from), to.to_string(), MailType::Normal,
        "标题".to_string(), "内容".to_string(), sent, 7);
    m.id = id.to_string();
    m
}

#[test]
fn new_mail_lasts_thirty_days() {
    let m = Mail::new_at("a".to_string(), "甲".to_string(), "b".to_string(), MailType::Reward, "t".to_string(),
        "c".to_string(), 1000, 42);
    assert_eq!(m.id, "mail_1000_42");
    assert_eq!(m.expire_at, 1000 + 2592000);
    assert!(!m.is_expired_at(1000 + 2592000));
    assert!(m.is_expired_at(1000 + 2592001));
    assert!(!m.has_attachment());
    assert_eq!(m.format_list_item(), "§Y[奖励]§N §G[未读]§N 甲 - t");
}

#[test]
fn list_item_marks_attachments_after_reading() {
    let mut m = mail("m1", "a", "b", 10);
    m.read = true;
    m.gold = 5;
    assert_eq!(m.format_list_item(), "§Y[附件]§N a名 - 标题");
    m.claimed = true;
    assert_eq!(m.format_list_item(), " a名 - 标题");
}

#[test]
fn detail_lists_attachments() {
    let mut m = mail("m1", "a", "b", 0);
    m.gold = 3;
    m.items.push(MailAttachment { item_id: "i".to_string(), item_name: "剑".to_string(), count: 2 });
    assert_eq!(m.format_detail(),
        "§H=== 邮件详情 ===§N\n发件人: a名\n时间: 1970-01-01 00:00\n标题: 标题\n\n内容\n\n§H--- 附件 ---§N\n金币: 3\n剑 x2\n");
}

#[test]
fn inbox_is_newest_first_and_skips_expired() {
    let mut d = MailDaemon::new();
    d.send_mail(mail("m1", "a", "b", 100)).unwrap();
    d.send_mail(mail("m2", "a", "b", 300)).unwrap();
    d.send_mail(mail("m3", "c", "b", 200)).unwrap();
    let ids: Vec<String> = d.get_inbox_at("b", 1000).iter().map(|m| m.id.clone()).collect();
    assert_eq!(ids, vec!["m2", "m3", "m1"]);
    let late: Vec<String> = d.get_inbox_at("b", 100 + 2592001).iter().map(|m| m.id.clone()).collect();
    assert_eq!(late, vec!["m2", "m3"]);
    let sent: Vec<String> = d.get_sentbox("a").iter().map(|m| m.id.clone()).collect();
    assert_eq!(sent, vec!["m2", "m1"]);
    assert_eq!(d.get_unread_count_at("b", 1000), 3);
    d.mark_read("m2").unwrap();
    assert_eq!(d.get_unread_count_at("b", 1000), 2);
    assert_eq!(d.format_inbox_at("nobody", 1000), "§H=== 收件箱 (0封) ===§N\n收件箱为空。\n");
    assert!(d.format_inbox_at("b", 1000).starts_with("§H=== 收件箱 (3封) ===§N\n   a名 - 标题\n  §G[未读]§N c名 - 标题\n"));
}

#[test]
fn attachments_are_claimed_once() {
    let mut d = MailDaemon::new();
    d.send_system_mail_at("b".to_string(), "奖励".to_string(), "给你".to_string(), 50,
        vec![MailAttachment { item_id: "i".to_string(), item_name: "药".to_string(), count: 1 }], 500, 9);
    let m = d.get_mail("sys_500_9").unwrap();
    assert_eq!(m.sender_id, "system");
    assert_eq!(m.mail_type, MailType::System);
    let (gold, items) = d.claim_attachment("sys_500_9").unwrap();
    assert_eq!(gold, 50);
    assert_eq!(items.len(), 1);
    assert!(matches!(d.claim_attachment("sys_500_9"), Err(gamenv::errors::MudError::RuntimeError(ref m)) if m == "附件已领取"));
    assert!(matches!(d.claim_attachment("none"), Err(gamenv::errors::MudError::NotFound(ref m)) if m == "邮件不存在"));
    d.send_mail(mail("plain", "a", "b", 1)).unwrap();
    assert!(matches!(d.claim_attachment("plain"), Err(gamenv::errors::MudError::RuntimeError(ref m)) if m == "没有附件"));
}

#[test]
fn only_sender_or_receiver_deletes() {
    let mut d = MailDaemon::new();
    d.send_mail(mail("m1", "a", "b", 100)).unwrap();
    assert!(matches!(d.delete_mail("m1", "z"), Err(gamenv::errors::MudError::PermissionDenied)));
    d.delete_mail("m1", "b").unwrap();
    assert!(d.get_mail("m1").is_none());
    assert!(d.get_inbox_at("b", 100).is_empty());
    assert!(d.get_sentbox("a").is_empty());
}

#[test]
fn cleanup_drops_expired_mail() {
    let mut d = MailDaemon::new();
    d.send_mail(mail("old", "a", "b", 0)).unwrap();
    d.send_mail(mail("new", "a", "b", 5_000_000)).unwrap();
    assert_eq!(d.cleanup_expired_at(3_000_000), 1);
    assert!(d.get_mail("old").is_none());
    assert!(d.get_mail("new").is_some());
    let ids: Vec<String> = d.get_sentbox("a").iter().map(|m| m.id.clone()).collect();
    assert_eq!(ids, vec!["new"]);
}
