use flare::channel::{channel_source, fill_typing_label, note_to_self_msgid, own_typing_msgid, typing_plural_args, Channel, ChannelSource, Group, Notify, TypingNotification};
use flare::contact::{unknown_contact_msgid, Contact, Profile, ProfileName, StoredContact};
use flare::content::{DataMessage, Delete, GroupContext, Reaction, ServiceId};
use flare::core_model::Thread;
use flare::message::{
    CallMessage, CallMessageType, DeletionMessage, DisplayMessage, Message, ReactionMessage,
    TextMessage,
};

const OWN: u128 = 0xaaaa;
const ALICE: u128 = 0x67e55044_10b1_426f_9247_bb680e5fe0c8;

fn data(body: &str, ts: u64) -> DataMessage {
    DataMessage {
        body: Some(body.to_string()),
        attachments: Vec::new(),
        group_v2: None,
        reaction: None,
        quote: None,
        has_sticker: false,
        delete: None,
        timestamp: Some(ts),
        body_ranges: Vec::new(),
    }
}

fn text_msg(sender: u128, ts: u64, body: &str) -> Message {
    Message::Display(DisplayMessage::Text(TextMessage {
        sender,
        timestamp: ts,
        read: false,
        data: data(body, ts),
        reactions: Vec::new(),
        is_deleted: false,
        quote: None,
    }))
}

fn reaction_msg(sender: u128, ts: u64, target: u64, emoji: &str) -> Message {
    Message::Reaction(ReactionMessage {
        sender,
        timestamp: ts,
        read: false,
        reaction: Reaction {
            emoji: Some(emoji.to_string()),
            remove: None,
            target_author_aci: None,
            target_author_aci_binary: None,
            target_sent_timestamp: Some(target),
        },
    })
}

fn alice() -> Contact {
    Contact::from_contact(
        StoredContact {
            uuid: ALICE,
            name: "Alice Liddell".to_string(),
            phone_number: Some("+41446681800".to_string()),
            expire_timer: 3600,
            profile_key: vec![7; 32],
        },
        OWN,
        "Me".to_string(),
    )
}

fn reactions_of(c: &Channel, i: usize) -> usize {
    match c.timeline.get(i) {
        DisplayMessage::Text(t) => t.reactions.len(),
        DisplayMessage::Call(_) => 0,
    }
}

#[test]
fn contact_channel_identity() {
    let c = Channel::from_contact(alice());
    assert!(c.is_contact());
    assert!(!c.is_self());
    assert_eq!(c.title(), "Alice Liddell");
    assert_eq!(c.disappearing_messages_timer(), 3600);
    assert_eq!(c.phone_number(), Some("+41446681800".to_string()));
    assert_eq!(c.name_parts(), (Some("Alice".to_string()), "Liddell".to_string()));
    assert_eq!(c.last_name(), "Liddell");
    assert_eq!(c.sort_name(true), "Liddell");
    assert_eq!(c.sort_name(false), "Alice Liddell");
    assert!(matches!(c.thread(), Thread::Contact(ServiceId::Aci(ALICE))));
}

#[test]
fn group_channel_identity() {
    let g = Group {
        title: "Hiking".to_string(),
        description: Some("Weekend trips".to_string()),
        disappearing_messages_timer: None,
    };
    let c = Channel::from_group(g, GroupContext { master_key: Some(vec![7u8; 32]) }, OWN);
    assert!(!c.is_contact());
    assert_eq!(c.title(), "Hiking");
    assert_eq!(c.description(), Some("Weekend trips".to_string()));
    assert_eq!(c.disappearing_messages_timer(), 0);
    assert_eq!(c.name_parts(), (None, "Hiking".to_string()));
    assert!(matches!(c.thread(), Thread::Group(k) if k == [7u8; 32]));
}

#[test]
fn notification_variant_round_trip() {
    let c = Channel::from_contact(alice());
    let (kind, data) = c.notification_variant();
    assert_eq!(kind, 0);
    assert_eq!(data.len(), 16);
    assert!(matches!(
        Channel::from_notification_variant(kind, &data),
        Thread::Contact(ServiceId::Aci(ALICE))
    ));
    let g = Group { title: "G".to_string(), description: None, disappearing_messages_timer: Some(5) };
    let gc = Channel::from_group(g, GroupContext { master_key: Some(vec![3u8; 32]) }, OWN);
    let (kind, data) = gc.notification_variant();
    assert_eq!(kind, 1);
    assert_eq!(data, vec![3u8; 32]);
    assert!(matches!(Channel::from_notification_variant(kind, &data), Thread::Group(k) if k == [3u8; 32]));
    assert_eq!(gc.disappearing_messages_timer(), 5);
}

#[test]
fn new_messages_are_notified_unless_read() {
    let mut c = Channel::from_contact(alice());
    let n = c.new_message(text_msg(ALICE, 100, "hello"), None, false);
    assert!(matches!(n, Notify::Display(100)));
    let n = c.new_message(text_msg(OWN, 200, "mine"), None, false);
    assert!(matches!(n, Notify::Nothing));
    assert_eq!(c.timeline.len(), 2);
    assert!(c.timeline.get(1).read());
    c.is_active = true;
    let n = c.new_message(text_msg(ALICE, 300, "seen"), None, false);
    assert!(matches!(n, Notify::Nothing));
    assert!(c.timeline.get(2).read());
}

#[test]
fn early_reactions_wait_for_their_message() {
    let mut c = Channel::from_contact(alice());
    let n = c.new_message(reaction_msg(ALICE, 150, 100, "👍"), None, true);
    assert!(matches!(n, Notify::Reaction(_)));
    assert_eq!(c.timeline.len(), 0);
    c.new_message(text_msg(OWN, 100, "question"), None, false);
    assert_eq!(reactions_of(&c, 0), 1);
    let n = c.new_message(reaction_msg(ALICE, 160, 100, "❤"), None, false);
    assert!(matches!(n, Notify::Nothing));
    assert_eq!(reactions_of(&c, 0), 1);
    match c.timeline.get(0) {
        DisplayMessage::Text(t) => assert_eq!(t.reactions[0].reaction.emoji.as_deref(), Some("❤")),
        _ => panic!("expected text"),
    }
}

#[test]
fn deletions_mark_their_message() {
    let mut c = Channel::from_contact(alice());
    c.new_message(text_msg(ALICE, 100, "oops"), None, false);
    let n = c.new_message(
        Message::Deletion(DeletionMessage {
            sender: ALICE,
            timestamp: 110,
            read: false,
            deletion: Delete { target_sent_timestamp: Some(100) },
        }),
        None,
        false,
    );
    assert!(matches!(n, Notify::Nothing));
    match c.timeline.get(0) {
        DisplayMessage::Text(t) => assert!(t.is_deleted),
        _ => panic!("expected text"),
    }
    assert!(c.last_message().is_none());
}

#[test]
fn mark_as_read_gives_notification_ids() {
    let mut c = Channel::from_contact(alice());
    c.new_message(text_msg(ALICE, 16, "a"), None, false);
    c.new_message(
        Message::Display(DisplayMessage::Call(CallMessage {
            sender: ALICE,
            timestamp: 17,
            read: false,
            call_type: CallMessageType::Offer,
        })),
        None,
        false,
    );
    let ids = c.mark_as_read();
    assert_eq!(ids, vec!["1067e55044-10b1-426f-9247-bb680e5fe0c8".to_string()]);
    assert!(c.timeline.get(0).read());
    assert!(c.last_message().is_some());
}

#[test]
fn sent_messages_are_read() {
    let mut c = Channel::from_contact(alice());
    match text_msg(OWN, 5, "sent") {
        Message::Display(d) => c.add_sent_message(d),
        _ => unreachable!(),
    }
    assert!(c.timeline.get(0).read());
}

#[test]
fn typing_notifications_replace_and_expire() {
    let mut c = Channel::from_contact(alice());
    assert!(!c.is_typing());
    c.add_user_typing(TypingNotification { sender: 2, sender_title: "Bob".to_string(), timestamp: 1 });
    c.add_user_typing(TypingNotification { sender: 1, sender_title: "Alice".to_string(), timestamp: 2 });
    c.add_user_typing(TypingNotification { sender: 2, sender_title: "Bob".to_string(), timestamp: 3 });
    assert_eq!(c.typing.len(), 2);
    assert_eq!(c.typing_titles(), vec!["Alice".to_string(), "Bob".to_string()]);
    assert_eq!(c.typing_label(), "Alice, Bob are typing");
    assert!(!c.typing_expired(2, 1));
    assert!(c.typing_expired(2, 3));
    assert_eq!(c.typing_label(), "Alice is typing");
    c.remove_user_typing(1);
    assert!(!c.is_typing());
}

#[test]
fn typing_label_template() {
    let titles = vec!["Alice".to_string(), "Bob".to_string()];
    assert_eq!(fill_typing_label("{} are typing", &titles), "Alice, Bob are typing");
}

#[test]
fn contact_descriptions_and_unknown_titles() {
    let mut c = Contact::from_uuid(5, OWN, "Me".to_string());
    assert_eq!(c.title(), "Unknown contact");
    assert_eq!(c.name_parts(), (None, "Unknown contact".to_string()));
    c.profile = Some(Profile {
        name: Some(ProfileName { given_name: "Carol".to_string(), family_name: Some("King".to_string()) }),
        about: Some("Singer".to_string()),
        about_emoji: Some("🎵".to_string()),
    });
    assert_eq!(c.title(), "Carol King");
    assert_eq!(c.name_parts(), (Some("Carol".to_string()), "King".to_string()));
    assert_eq!(c.description(), Some("🎵 Singer".to_string()));
    assert_eq!(c.uuid(), 5);
    assert!(!c.is_self());
    assert!(!c.is_blocked());
}

#[test]
fn phone_numbers_are_shown_in_national_form() {
    let mut c = Contact::from_uuid(6, OWN, "Me".to_string());
    c.phone_number = Some("+41446681800".to_string());
    assert_eq!(c.title(), "044 668 18 00");
    let own = Contact::from_contact(
        StoredContact { uuid: OWN, name: String::new(), phone_number: None, expire_timer: 0, profile_key: vec![0; 32] },
        OWN,
        "Me".to_string(),
    );
    assert!(own.is_self());
    assert_eq!(own.title(), "Me");
    assert_eq!(Channel::from_contact(own).title(), "Note to self");
}

#[test]
fn loading_stored_messages_stops_after_the_number_asked() {
    let mut c = Channel::from_contact(alice());
    c.new_message(text_msg(ALICE, 50, "live"), None, false);
    let stored = vec![
        Some((text_msg(ALICE, 30, "thirty"), None)),
        None,
        Some((reaction_msg(ALICE, 31, 10, "👍"), None)),
        Some((text_msg(ALICE, 10, "ten"), None)),
        Some((text_msg(ALICE, 5, "five"), None)),
    ];
    let taken = c.load_last(stored, 2);
    assert_eq!(taken, 4);
    assert_eq!(c.timeline.len(), 3);
    assert_eq!(c.timeline.get(0).timestamp(), 10);
    assert_eq!(c.timeline.get(1).timestamp(), 30);
    assert!(c.timeline.get(0).read());
    assert_eq!(reactions_of(&c, 0), 1);
    assert!(!c.timeline.get(2).read());
}

#[test]
fn loading_takes_everything_when_there_is_less() {
    let mut c = Channel::from_contact(alice());
    let stored = vec![Some((text_msg(ALICE, 30, "a"), None)), Some((text_msg(ALICE, 20, "b"), None))];
    assert_eq!(c.load_last(stored, 10), 2);
    assert_eq!(c.timeline.len(), 2);
    let mut d = Channel::from_contact(alice());
    assert_eq!(d.load_last(vec![None, Some((text_msg(ALICE, 1, "x"), None))], 0), 1);
    assert_eq!(d.timeline.len(), 0);
}

#[test]
fn channels_of_messages_come_from_the_known_ones_first() {
    let g = Group { title: "G".to_string(), description: None, disappearing_messages_timer: None };
    let known = vec![
        Channel::from_contact(alice()),
        Channel::from_group(g, GroupContext { master_key: Some(vec![4u8; 32]) }, OWN),
    ];
    assert!(matches!(
        channel_source(&known, &Some(GroupContext { master_key: Some(vec![4u8; 32]) })),
        ChannelSource::Known(1)
    ));
    assert!(matches!(
        channel_source(&known, &Some(GroupContext { master_key: Some(vec![5u8; 32]) })),
        ChannelSource::FetchGroup(k) if k == [5u8; 32]
    ));
    let only_group = vec![Channel::from_group(
        Group { title: "H".to_string(), description: None, disappearing_messages_timer: None },
        GroupContext { master_key: Some(vec![4u8; 32]) },
        OWN,
    )];
    assert!(matches!(
        channel_source(&only_group, &Some(GroupContext { master_key: Some(vec![5u8; 3]) })),
        ChannelSource::FetchGroup(k) if k == [0u8; 32]
    ));
    assert!(matches!(
        channel_source(&known, &Some(GroupContext { master_key: None })),
        ChannelSource::Known(0)
    ));
    assert!(matches!(channel_source(&known, &None), ChannelSource::Contact));
}

#[test]
fn typing_and_title_texts() {
    assert_eq!(own_typing_msgid(), "is typing");
    assert_eq!(typing_plural_args(2), ("{} is typing", "{} are typing", 2));
    assert_eq!(typing_plural_args(1), ("{} is typing", "{} are typing", 1));
    assert_eq!(note_to_self_msgid(), "Note to self");
    assert_eq!(unknown_contact_msgid(), "Unknown contact");
}

#[test]
fn several_waiting_reactions_are_applied_in_order() {
    let mut c = Channel::from_contact(alice());
    c.new_message(reaction_msg(7, 170, 100, "🎉"), None, false);
    c.new_message(reaction_msg(ALICE, 160, 100, "👍"), None, false);
    c.new_message(reaction_msg(ALICE, 150, 100, "❤"), None, false);
    c.new_message(text_msg(OWN, 100, "question"), None, false);
    assert_eq!(reactions_of(&c, 0), 2);
    match c.timeline.get(0) {
        DisplayMessage::Text(t) => {
            let of = |s: u128| {
                t.reactions.iter().find(|e| e.sender == s).and_then(|e| e.reaction.emoji.clone())
            };
            assert_eq!(of(ALICE).as_deref(), Some("👍"));
            assert_eq!(of(7).as_deref(), Some("🎉"));
        },
        _ => panic!("expected text"),
    }
}
