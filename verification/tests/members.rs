use wcgate::members::{filter_members, filter_room_members, parse_filter, Member, RoomId};

fn member(wxid: &str) -> Member {
    Member { wxid: String::from(wxid), name: format!("name of {}", wxid), state: 0 }
}

fn wxids(members: &[Member]) -> Vec<&str> {
    members.iter().map(|m| m.wxid.as_str()).collect()
}

#[test]
fn parses_comma_separated_ids() {
    let ids = parse_filter(&Some(String::from("a,c")));
    assert_eq!(ids, vec![String::from("a"), String::from("c")]);
}

#[test]
fn trims_and_drops_empty_entries() {
    let ids = parse_filter(&Some(String::from(" a , c ,, ,")));
    assert_eq!(ids, vec![String::from("a"), String::from("c")]);
    assert_eq!(parse_filter(&Some(String::from(""))), Vec::<String>::new());
    assert_eq!(parse_filter(&Some(String::from(" , "))), Vec::<String>::new());
}

#[test]
fn absent_filter_parses_to_nothing() {
    assert_eq!(parse_filter(&None), Vec::<String>::new());
}

#[test]
fn room_query_carries_its_own_filter() {
    let q = RoomId { roomid: String::from("123@chatroom"), wxids: Some(String::from("wxid_a,wxid_b")) };
    assert_eq!(q.filter_ids(), vec![String::from("wxid_a"), String::from("wxid_b")]);
    let q = RoomId { roomid: String::from("123@chatroom"), wxids: None };
    assert_eq!(q.filter_ids(), Vec::<String>::new());
}

#[test]
fn filters_members_in_original_relative_order() {
    let members = vec![member("a"), member("b"), member("c")];
    let ids = parse_filter(&Some(String::from("a,c")));
    let kept = filter_members(members, &ids);
    assert_eq!(wxids(&kept), vec!["a", "c"]);
}

#[test]
fn filter_order_follows_members_not_the_filter() {
    let members = vec![member("a"), member("b"), member("c")];
    let ids = parse_filter(&Some(String::from("c,a")));
    let kept = filter_members(members, &ids);
    assert_eq!(wxids(&kept), vec!["a", "c"]);
}

#[test]
fn empty_filter_returns_all_members_unchanged() {
    let members = vec![member("a"), member("b"), member("c")];
    let expected = members.clone();
    let kept = filter_members(members, &Vec::new());
    assert_eq!(kept, expected);
}

#[test]
fn unmatched_filter_keeps_nothing() {
    let members = vec![member("a"), member("b")];
    let ids = vec![String::from("x")];
    let kept = filter_members(members, &ids);
    assert!(kept.is_empty());
}

#[test]
fn absent_member_list_yields_the_empty_list() {
    let ids = vec![String::from("a")];
    let kept = filter_room_members(None, &ids);
    assert!(kept.is_empty());
}

#[test]
fn present_member_list_is_filtered() {
    let members = vec![member("a"), member("b")];
    let ids = vec![String::from("b")];
    let kept = filter_room_members(Some(members), &ids);
    assert_eq!(wxids(&kept), vec!["b"]);
}
