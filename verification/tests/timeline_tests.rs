use flare::content::{DataMessage, Reaction};
use flare::message::{CallMessage, CallMessageType, DisplayMessage, TextMessage};
use flare::timeline::{Timeline, DAY_MILLIS};

const OWN: u128 = 0xaa;

fn text(sender: u128, ts: u64, body: &str) -> DisplayMessage {
    DisplayMessage::Text(TextMessage {
        sender,
        timestamp: ts,
        read: false,
        data: DataMessage {
            body: Some(body.to_string()),
            attachments: Vec::new(),
            group_v2: None,
            reaction: None,
            quote: None,
            has_sticker: false,
            delete: None,
            timestamp: Some(ts),
            body_ranges: Vec::new(),
        },
        reactions: Vec::new(),
        is_deleted: false,
        quote: None,
    })
}

fn call(sender: u128, ts: u64) -> DisplayMessage {
    DisplayMessage::Call(CallMessage { sender, timestamp: ts, read: false, call_type: CallMessageType::Hangup })
}

fn body_at(t: &Timeline, i: usize) -> String {
    match t.get(i) {
        DisplayMessage::Text(m) => m.data.body.clone().unwrap(),
        DisplayMessage::Call(_) => String::from("<call>"),
    }
}

#[test]
fn append_keeps_timestamps_ordered() {
    let mut t = Timeline::new(OWN);
    assert_eq!(t.own_uuid(), OWN);
    t.append(text(1, 30, "c"));
    t.append(text(1, 10, "a"));
    t.append(text(1, 20, "b"));
    assert_eq!(t.len(), 3);
    assert_eq!(body_at(&t, 0), "a");
    assert_eq!(body_at(&t, 1), "b");
    assert_eq!(body_at(&t, 2), "c");
}

#[test]
fn a_later_write_of_a_timestamp_replaces_the_earlier() {
    let mut t = Timeline::new(OWN);
    t.append(text(1, 10, "first"));
    t.append(text(1, 10, "second"));
    assert_eq!(t.len(), 1);
    match t.get_by_timestamp(10) {
        Some(DisplayMessage::Text(m)) => assert_eq!(m.data.body.as_deref(), Some("second")),
        _ => panic!("message missing"),
    }
    assert!(t.get_by_timestamp(11).is_none());
}

#[test]
fn search_gives_position_or_insertion_point() {
    let mut t = Timeline::new(OWN);
    t.append(text(1, 10, "a"));
    t.append(text(1, 30, "c"));
    assert_eq!(t.search(10), Ok(0));
    assert_eq!(t.search(30), Ok(1));
    assert_eq!(t.search(20), Err(1));
    assert_eq!(t.search(40), Err(2));
    assert_eq!(t.search(5), Err(0));
}

#[test]
fn prepend_merges_and_prefers_the_new_messages() {
    let mut t = Timeline::new(OWN);
    t.append(text(1, 50, "old 50"));
    t.append(text(1, 60, "old 60"));
    t.prepend(vec![text(1, 10, "new 10"), text(1, 50, "new 50")]);
    assert_eq!(t.len(), 3);
    assert_eq!(body_at(&t, 0), "new 10");
    assert_eq!(body_at(&t, 1), "new 50");
    assert_eq!(body_at(&t, 2), "old 60");
}

#[test]
fn trimming_keeps_the_last_message() {
    let mut t = Timeline::new(OWN);
    t.append(text(1, 10, "a"));
    t.append(text(1, 20, "b"));
    t.append(text(1, 30, "c"));
    t.trim_old();
    assert_eq!(t.len(), 1);
    assert_eq!(body_at(&t, 0), "c");
    t.clear();
    assert_eq!(t.len(), 0);
}

#[test]
fn header_and_timestamp_flags_follow_neighbours() {
    let mut t = Timeline::new(OWN);
    t.append(text(1, 1_000, "a"));
    t.append(text(1, 2_000, "b"));
    t.append(text(2, 3_000, "c"));
    t.append(text(OWN, 4_000, "mine"));
    assert!(t.show_header_at(0));
    assert!(!t.show_header_at(1));
    assert!(t.show_header_at(2));
    assert!(!t.show_header_at(3));
    assert!(!t.show_timestamp_at(0));
    assert!(t.show_timestamp_at(1));
    assert!(t.show_timestamp_at(2));
    assert!(t.show_timestamp_at(3));
}

#[test]
fn sections_are_days() {
    let mut t = Timeline::new(OWN);
    t.append(text(1, 10, "day0 a"));
    t.append(text(1, 20, "day0 b"));
    t.append(text(1, DAY_MILLIS + 5, "day1"));
    assert_eq!(t.section(0), (0, 2));
    assert_eq!(t.section(1), (0, 2));
    assert_eq!(t.section(2), (2, 3));
    assert_eq!(t.section(3), (3, u32::MAX));
}

#[test]
fn reactions_and_deletions_at_positions() {
    let mut t = Timeline::new(OWN);
    t.append(call(1, 5));
    t.append(text(1, 10, "a"));
    let r = Reaction {
        emoji: Some("👍".to_string()),
        remove: None,
        target_author_aci: None,
        target_author_aci_binary: None,
        target_sent_timestamp: Some(10),
    };
    assert!(!t.react_at(0, 2, r.clone()));
    assert!(t.react_at(1, 2, r));
    match t.get(1) {
        DisplayMessage::Text(m) => assert_eq!(m.reactions.len(), 1),
        _ => panic!("expected text"),
    }
    assert!(!t.mark_deleted_at(0));
    assert_eq!(t.last_message_index(), Some(1));
    assert!(t.mark_deleted_at(1));
    assert_eq!(t.last_message_index(), Some(0));
}

#[test]
fn marking_all_read_stops_at_the_first_read_message() {
    let u: u128 = 0x67e55044_10b1_426f_9247_bb680e5fe0c8;
    let mut t = Timeline::new(OWN);
    t.append(text(u, 16, "a"));
    t.append(text(u, 17, "b"));
    t.append(call(u, 18));
    t.append(text(u, 31, "d"));
    assert!(t.mark_read_at(1));
    assert!(!t.mark_read_at(1));
    assert_eq!(t.first_unread_index(), Some(2));
    let uids = t.mark_all_read();
    assert_eq!(uids, vec!["1f67e55044-10b1-426f-9247-bb680e5fe0c8".to_string()]);
    assert_eq!(t.first_unread_index(), None);
    assert!(!t.get(0).read());
    assert!(t.get(2).read());
}

#[test]
fn replacing_a_message_keeps_its_position() {
    let mut t = Timeline::new(OWN);
    t.append(text(1, 10, "a"));
    t.append(text(1, 20, "b"));
    t.append(text(1, 30, "c"));
    t.append(text(1, 20, "b2"));
    assert_eq!(t.len(), 3);
    assert_eq!(body_at(&t, 0), "a");
    assert_eq!(body_at(&t, 1), "b2");
    assert_eq!(body_at(&t, 2), "c");
    t.append(text(1, 25, "between"));
    assert_eq!(t.len(), 4);
    assert_eq!(body_at(&t, 2), "between");
    assert_eq!(body_at(&t, 3), "c");
}
