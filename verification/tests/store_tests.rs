use flare::contact::StoredContact;
use flare::content::{Content, ContentBody, DataMessage, Metadata, ServiceId};
use flare::core_model::{ChannelId, CoreMessage};
use flare::core_store::{
    contact_channel, group_channel, last_message_index, listed_messages, member_display_name,
    page, resolve_sender_name, select_messages, sort_by_keys_desc, sort_channels,
    sort_messages_desc, CoreChannel,
};

const ALICE: u128 = 0x67e55044_10b1_426f_9247_bb680e5fe0c8;

fn core_msg(ts: u64, body: &str) -> CoreMessage {
    let c = Content {
        metadata: Metadata { sender: ServiceId::Aci(ALICE), sender_label: "Aci(…)".to_string(), timestamp: ts },
        body: ContentBody::DataMessage(DataMessage {
            body: Some(body.to_string()),
            attachments: Vec::new(),
            group_v2: None,
            reaction: None,
            quote: None,
            has_sticker: false,
            delete: None,
            timestamp: Some(ts),
            body_ranges: Vec::new(),
        }),
    };
    CoreMessage::from_content(&c).unwrap()
}

fn bodies(ms: &[CoreMessage]) -> Vec<String> {
    ms.iter().map(|m| m.body.clone().unwrap_or_default()).collect()
}

fn contact(uuid: u128, name: &str, phone: Option<&str>) -> StoredContact {
    StoredContact { uuid, name: name.to_string(), phone_number: phone.map(|p| p.to_string()), expire_timer: 0, profile_key: vec![0; 32] }
}

#[test]
fn stable_descending_sort() {
    let items = vec!["a", "b", "c", "d"];
    let keys = vec![Some(1), None, Some(3), Some(1)];
    assert_eq!(sort_by_keys_desc(items, keys), vec!["c", "a", "d", "b"]);
    let sorted = sort_messages_desc(vec![core_msg(1, "one"), core_msg(3, "three"), core_msg(2, "two")]);
    assert_eq!(bodies(&sorted), vec!["three", "two", "one"]);
}

#[test]
fn channels_by_recent_activity() {
    let ch = |title: &str, ts: Option<u64>| CoreChannel {
        id: ChannelId::Contact(0),
        title: title.to_string(),
        is_group: false,
        last_message_text: None,
        last_message_timestamp: ts,
        unread_count: 0,
        members: Vec::new(),
    };
    let sorted = sort_channels(vec![ch("quiet", None), ch("old", Some(5)), ch("new", Some(9))]);
    let titles: Vec<String> = sorted.iter().map(|c| c.title.clone()).collect();
    assert_eq!(titles, vec!["new", "old", "quiet"]);
}

#[test]
fn pages_of_listed_messages() {
    let mut receipt = core_msg(4, "receipt");
    receipt.is_receipt = true;
    let mut typing = core_msg(5, "typing");
    typing.is_typing = true;
    let all = vec![core_msg(1, "one"), receipt, core_msg(3, "three"), typing, core_msg(2, "two")];
    assert_eq!(bodies(&listed_messages(all)), vec!["one", "three", "two"]);
    let all = vec![core_msg(1, "one"), core_msg(3, "three"), core_msg(2, "two"), core_msg(4, "four")];
    assert_eq!(bodies(&select_messages(all, 2, 1)), vec!["three", "two"]);
    let p = page(vec![core_msg(1, "a"), core_msg(2, "b")], 5, 1);
    assert_eq!(bodies(&p), vec!["b"]);
    assert!(page(vec![core_msg(1, "a")], 5, 3).is_empty());
}

#[test]
fn sender_names() {
    let contacts = vec![contact(ALICE, "", None), contact(ALICE, "Alice", None)];
    assert_eq!(resolve_sender_name(&contacts, ServiceId::Aci(ALICE), "label"), "Alice");
    assert_eq!(resolve_sender_name(&contacts, ServiceId::Aci(7), "label"), "label");
    assert_eq!(resolve_sender_name(&contacts, ServiceId::Pni(ALICE), "label"), "label");
    assert_eq!(member_display_name(&contacts, ALICE), "67e55044-10b1-426f-9247-bb680e5fe0c8");
    assert_eq!(member_display_name(&vec![contact(3, "Carol", None)], 3), "Carol");
}

#[test]
fn last_messages_and_channels() {
    let mut reaction = core_msg(9, "👍");
    reaction.is_reaction = true;
    let ms = vec![core_msg(5, "five"), core_msg(7, "seven"), reaction, core_msg(7, "seven again")];
    assert_eq!(last_message_index(&ms), Some(3));
    assert_eq!(last_message_index(&Vec::new()), None);
    let c = contact_channel(&contact(ALICE, "", Some("+4144")), Some(&ms[1]));
    assert_eq!(c.title, "+4144");
    assert_eq!(c.last_message_text.as_deref(), Some("seven"));
    assert_eq!(c.last_message_timestamp, Some(7));
    assert!(!c.is_group);
    let c = contact_channel(&contact(ALICE, "", None), None);
    assert_eq!(c.title, "67e55044-10b1-426f-9247-bb680e5fe0c8");
    assert!(c.last_message_text.is_none());
    let g = group_channel([2u8; 32], "Group", &vec![3, 4], Some(&vec![contact(3, "Carol", None)]), None);
    assert!(g.is_group);
    assert_eq!(g.members, vec!["Carol".to_string(), "00000000-0000-0000-0000-000000000004".to_string()]);
    let g = group_channel([2u8; 32], "Group", &vec![3], None, None);
    assert!(g.members.is_empty());
}
