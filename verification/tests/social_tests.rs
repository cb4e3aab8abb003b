use gamenv::daemons::friendd::FriendDaemon;
use gamenv::daemons::rebirthd::RebirthDaemon;
use gamenv::errors::MudError;
use gamenv::output::mud::MudFormatter;

#[test]
fn accepting_a_request_makes_both_friends_once() {
    let mut d = FriendDaemon::new();
    assert!(d.send_request("a".to_string(), "阿甲".to_string(), "b".to_string(), "hi".to_string()).is_ok());
    assert!(d.send_request("a".to_string(), "阿甲".to_string(), "b".to_string(), "hi".to_string()).is_err());
    assert!(d.send_request("a".to_string(), "阿甲".to_string(), "a".to_string(), "hi".to_string()).is_err());
    let rid = d.get_pending_requests("b")[0].request_id.clone();
    assert_eq!(d.accept_request(&rid, "b", "阿乙".to_string()), Ok("a".to_string()));
    assert!(d.is_friend("a", "b") && d.is_friend("b", "a"));
    assert_eq!(d.get_friends("a")[0].friend_name, "阿乙");
    assert_eq!(d.get_friends("b")[0].friend_name, "阿甲");
    assert!(d.get_pending_requests("b").is_empty());
    assert!(matches!(d.accept_request(&rid, "b", "阿乙".to_string()), Err(MudError::NotFound(_))));
}

#[test]
fn rebirth_bonus_is_capped() {
    let mut d = RebirthDaemon::new();
    for k in 0..500 {
        let r = d.rebirth("p", "名".to_string(), 100).unwrap();
        assert_eq!(r.rebirth_count, k + 1);
        assert_eq!(r.total_bonus_points, 10 * (k + 1));
    }
    let r = d.rebirth("p", "名".to_string(), 100).unwrap();
    assert_eq!(r.total_bonus_points, 5000);
    assert_eq!(d.get_rebirth_info("p").unwrap().bonus_points, 5000);
    assert!(d.rebirth("p", "名".to_string(), 99).is_err());
    assert!(d.rebirth("q", "新".to_string(), 1).is_ok());
}

#[test]
fn links_become_anchors() {
    assert_eq!(MudFormatter::links_to_html("[看看:look] x"), "<a href=\"#\" onclick=\"sendCmd('look')\">看看</a> x");
    assert_eq!(MudFormatter::links_to_html("[a:b:c]"), "<a href=\"#\" onclick=\"sendCmd('b:c')\">a</a>");
    assert_eq!(MudFormatter::links_to_html("[:x] [y:]"), "[:x] [y:]");
    assert_eq!(MudFormatter::links_to_html("[[a:b]"), "<a href=\"#\" onclick=\"sendCmd('b')\">[a</a>");
}

#[test]
fn player_skill_levels_once_per_call() {
    let mut s = gamenv::daemons::skilld::PlayerSkill::new_at("skill_x".to_string(), 5);
    assert!(!s.add_exp(99));
    assert!(s.add_exp(150));
    assert_eq!((s.level, s.exp), (2, 149));
    assert!(!s.add_exp(50));
    assert!(s.add_exp(1));
    assert_eq!((s.level, s.exp), (3, 0));
}
