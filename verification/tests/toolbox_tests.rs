use raft_visualizer::toolbox::{panel_requests, parse_node_ids, PanelRequest};
use std::collections::HashSet;

fn set(ids: &[u64]) -> HashSet<u64> {
    ids.iter().copied().collect()
}

#[test]
fn parses_a_plain_list() {
    assert_eq!(parse_node_ids("1,2,3"), Some(set(&[1, 2, 3])));
}

#[test]
fn trims_pieces_and_skips_blank_ones() {
    assert_eq!(parse_node_ids(" 1 , 2,\t3\n"), Some(set(&[1, 2, 3])));
    assert_eq!(parse_node_ids(" , ,5 ,"), Some(set(&[5])));
    assert_eq!(parse_node_ids("\u{3000}4\u{a0}"), Some(set(&[4])));
}

#[test]
fn empty_text_names_no_node() {
    assert_eq!(parse_node_ids(""), Some(set(&[])));
    assert_eq!(parse_node_ids("   "), Some(set(&[])));
}

#[test]
fn repeated_ids_count_once() {
    assert_eq!(parse_node_ids("1,1,01"), Some(set(&[1])));
}

#[test]
fn plus_sign_is_accepted() {
    assert_eq!(parse_node_ids("+7"), Some(set(&[7])));
}

#[test]
fn malformed_pieces_reject_the_whole_list() {
    assert_eq!(parse_node_ids("1,x"), None);
    assert_eq!(parse_node_ids("-1"), None);
    assert_eq!(parse_node_ids("+"), None);
    assert_eq!(parse_node_ids("1 2"), None);
    assert_eq!(parse_node_ids("1;2"), None);
    assert_eq!(parse_node_ids("٣"), None);
}

#[test]
fn ids_must_fit_in_u64() {
    assert_eq!(parse_node_ids("18446744073709551615"), Some(set(&[u64::MAX])));
    assert_eq!(parse_node_ids("18446744073709551616"), None);
    assert_eq!(parse_node_ids("99999999999999999999999,x"), None);
}

#[test]
fn set_learners_sends_the_ids_and_clears_the_text() {
    let mut args = String::from("1, 2");
    let reqs = panel_requests(&mut args, true, false, false);
    assert_eq!(args, "");
    assert_eq!(reqs.len(), 1);
    match &reqs[0] {
        PanelRequest::SetLearners { ids } => assert_eq!(*ids, set(&[1, 2])),
        _ => panic!("expected SetLearners"),
    }
}

#[test]
fn set_members_asks_for_fault_tolerance_one() {
    let mut args = String::from("0,1,2");
    let reqs = panel_requests(&mut args, false, true, false);
    assert_eq!(args, "");
    assert_eq!(reqs.len(), 1);
    match &reqs[0] {
        PanelRequest::SetMembers { ids, fault_tolerance } => {
            assert_eq!(*ids, set(&[0, 1, 2]));
            assert_eq!(*fault_tolerance, 1);
        }
        _ => panic!("expected SetMembers"),
    }
}

#[test]
fn malformed_text_sends_nothing_and_stays() {
    let mut args = String::from("a,b");
    let reqs = panel_requests(&mut args, true, true, false);
    assert_eq!(args, "a,b");
    assert!(reqs.is_empty());
}

#[test]
fn buttons_in_one_frame_see_the_cleared_text() {
    let mut args = String::from("3");
    let reqs = panel_requests(&mut args, true, true, true);
    assert_eq!(args, "");
    assert_eq!(reqs.len(), 3);
    match &reqs[0] {
        PanelRequest::SetLearners { ids } => assert_eq!(*ids, set(&[3])),
        _ => panic!("expected SetLearners"),
    }
    match &reqs[1] {
        PanelRequest::SetMembers { ids, fault_tolerance } => {
            assert!(ids.is_empty());
            assert_eq!(*fault_tolerance, 1);
        }
        _ => panic!("expected SetMembers"),
    }
    match &reqs[2] {
        PanelRequest::ClientRequest { data } => assert_eq!(data.msg, ""),
        _ => panic!("expected ClientRequest"),
    }
}

#[test]
fn client_request_sends_the_text_and_keeps_it() {
    let mut args = String::from("hello world");
    let reqs = panel_requests(&mut args, false, false, true);
    assert_eq!(args, "hello world");
    assert_eq!(reqs.len(), 1);
    match &reqs[0] {
        PanelRequest::ClientRequest { data } => assert_eq!(data.msg, "hello world"),
        _ => panic!("expected ClientRequest"),
    }
}

#[test]
fn no_click_no_request() {
    let mut args = String::from("1");
    assert!(panel_requests(&mut args, false, false, false).is_empty());
    assert_eq!(args, "1");
}

#[test]
fn written_id_parses_back() {
    for n in [0u64, 9, 10, 4096, u64::MAX] {
        assert_eq!(parse_node_ids(&n.to_string()), Some(set(&[n])));
    }
}
