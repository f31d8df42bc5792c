use raft_visualizer::state::{ClusterState, Delivery};

#[test]
fn new_cluster_has_every_link_enabled() {
    let c: ClusterState<&str> = ClusterState::new(3);
    assert_eq!(c.num_nodes, 3);
    assert_eq!(c.channels.len(), 9);
    for f in 0..3 {
        for t in 0..3 {
            assert!(c.is_channel_enabled(f, t));
        }
    }
    assert!(c.messages.is_empty());
    assert_eq!(c.selected_index, 0);
    assert_eq!(c.request_args, "");
}

#[test]
fn unknown_links_count_as_enabled() {
    let mut c: ClusterState<&str> = ClusterState::new(2);
    c.set_channel_enabled(0, 1, false);
    assert!(c.is_channel_enabled(5, 1));
    assert!(c.is_channel_enabled(0, 2));
}

#[test]
fn disabling_a_link_reads_back_and_leaves_others() {
    let mut c: ClusterState<&str> = ClusterState::new(3);
    c.set_channel_enabled(1, 2, false);
    assert!(!c.is_channel_enabled(1, 2));
    assert!(c.is_channel_enabled(2, 1));
    assert!(c.is_channel_enabled(1, 1));
    assert!(!c.channels[1 * 3 + 2].enabled);
    c.set_channel_enabled(1, 2, true);
    assert!(c.is_channel_enabled(1, 2));
}

#[test]
fn nothing_due_means_idle() {
    let mut c: ClusterState<&str> = ClusterState::new(2);
    assert!(matches!(c.deliver_next(100), Delivery::Idle));
    c.send_message(Some(0), 1, 50, "m");
    assert!(matches!(c.deliver_next(49), Delivery::Idle));
    assert_eq!(c.messages.len(), 1);
}

#[test]
fn due_message_is_delivered() {
    let mut c: ClusterState<&str> = ClusterState::new(2);
    c.send_message(Some(0), 1, 50, "m");
    match c.deliver_next(50) {
        Delivery::Deliver(m) => {
            assert_eq!((m.from, m.to, m.sent_at, m.msg), (Some(0), 1, 50, "m"));
        }
        _ => panic!("expected delivery"),
    }
    assert!(c.messages.is_empty());
}

#[test]
fn disabled_link_loses_the_message() {
    let mut c: ClusterState<&str> = ClusterState::new(2);
    c.set_channel_enabled(0, 1, false);
    c.send_message(Some(0), 1, 1, "lost");
    c.send_message(Some(1), 0, 2, "kept");
    assert!(matches!(c.deliver_next(10), Delivery::Dropped(m) if m.msg == "lost"));
    assert!(matches!(c.deliver_next(10), Delivery::Deliver(m) if m.msg == "kept"));
}

#[test]
fn panel_messages_ignore_links() {
    let mut c: ClusterState<&str> = ClusterState::new(2);
    c.set_channel_enabled(0, 1, false);
    c.set_channel_enabled(1, 1, false);
    c.send_message(None, 1, 0, "req");
    assert!(matches!(c.deliver_next(0), Delivery::Deliver(m) if m.msg == "req" && m.from.is_none()));
}

#[test]
fn oldest_message_leaves_first() {
    let mut c: ClusterState<u32> = ClusterState::new(2);
    c.send_message(Some(0), 1, 5, 1);
    c.send_message(Some(1), 0, 3, 2);
    c.send_message(Some(0), 1, 4, 3);
    let mut got = Vec::new();
    while let Delivery::Deliver(m) = c.deliver_next(10) {
        got.push(m.msg);
    }
    assert_eq!(got, vec![1, 2, 3]);
}

#[test]
fn a_later_message_waits_behind_an_undue_one() {
    let mut c: ClusterState<u32> = ClusterState::new(2);
    c.send_message(Some(0), 1, 20, 1);
    c.send_message(Some(1), 0, 1, 2);
    assert!(matches!(c.deliver_next(10), Delivery::Idle));
    assert_eq!(c.messages.len(), 2);
}

#[test]
fn last_clicked_node_becomes_selected() {
    let mut c: ClusterState<u32> = ClusterState::new(3);
    c.select_clicked(&vec![false, true, false]);
    assert_eq!(c.selected_index, 1);
    c.select_clicked(&vec![true, false, true]);
    assert_eq!(c.selected_index, 2);
}

#[test]
fn no_click_keeps_the_selection() {
    let mut c: ClusterState<u32> = ClusterState::new(3);
    c.select_clicked(&vec![false, false, true]);
    c.select_clicked(&vec![false, false, false]);
    assert_eq!(c.selected_index, 2);
    c.select_clicked(&vec![]);
    assert_eq!(c.selected_index, 2);
}
