use flare::content::{
    AttachmentPointer, CallMessage as CallPayload, Content, ContentBody, DataMessage, Delete,
    GroupContext, Metadata, Quote, Reaction, ReadReceipt, Sent, ServiceId, SyncMessage,
    TypingAction, TypingMessage,
};
use flare::core_model::{
    channel_id_from_data, format_attachment, format_attachments, thread_for_channel, CallType,
    ChannelId, CoreMessage, Thread,
};
use flare::incoming::{read_receipt_uids, Incoming, IncomingKind, TypingTarget};
use flare::message::{CallMessageType, DisplayMessage, Message};

const ALICE: u128 = 0x67e55044_10b1_426f_9247_bb680e5fe0c8;

fn data(body: Option<&str>) -> DataMessage {
    DataMessage {
        body: body.map(|b| b.to_string()),
        attachments: Vec::new(),
        group_v2: None,
        reaction: None,
        quote: None,
        has_sticker: false,
        delete: None,
        timestamp: Some(1000),
        body_ranges: Vec::new(),
    }
}

fn content(body: ContentBody) -> Content {
    Content {
        metadata: Metadata { sender: ServiceId::Aci(ALICE), sender_label: "Alice".to_string(), timestamp: 1000 },
        body,
    }
}

fn pointer(ct: Option<&str>, name: Option<&str>) -> AttachmentPointer {
    AttachmentPointer {
        content_type: ct.map(|s| s.to_string()),
        file_name: name.map(|s| s.to_string()),
        size: None,
        width: None,
        height: None,
        blur_hash: None,
        flags: None,
    }
}

#[test]
fn data_messages_are_text_reaction_or_deletion() {
    match Message::from_content(content(ContentBody::DataMessage(data(Some("hi"))))) {
        Incoming::Message { channel, sender, timestamp, kind: IncomingKind::Text(d) } => {
            assert_eq!(channel.contact, ServiceId::Aci(ALICE));
            assert!(channel.group_v2.is_none());
            assert_eq!(sender, ALICE);
            assert_eq!(timestamp, 1000);
            assert_eq!(d.body.as_deref(), Some("hi"));
        },
        other => panic!("unexpected {:?}", other),
    }
    let mut dm = data(None);
    dm.reaction = Some(Reaction {
        emoji: Some("👍".to_string()),
        remove: None,
        target_author_aci: None,
        target_author_aci_binary: None,
        target_sent_timestamp: Some(5),
    });
    dm.delete = Some(Delete { target_sent_timestamp: Some(5) });
    assert!(matches!(
        Message::from_content(content(ContentBody::DataMessage(dm))),
        Incoming::Message { kind: IncomingKind::Reaction(_), .. }
    ));
    let mut dm = data(None);
    dm.delete = Some(Delete { target_sent_timestamp: Some(5) });
    assert!(matches!(
        Message::from_content(content(ContentBody::DataMessage(dm))),
        Incoming::Message { kind: IncomingKind::Deletion(Delete { target_sent_timestamp: Some(5) }), .. }
    ));
}

#[test]
fn sent_messages_go_to_their_destination() {
    let sm = SyncMessage {
        sent: Some(Sent { message: Some(data(Some("to bob"))), destination: Some(ServiceId::Aci(7)) }),
        read: Vec::new(),
        viewed: 0,
    };
    match Message::from_content(content(ContentBody::SynchronizeMessage(sm))) {
        Incoming::Message { channel, sender, .. } => {
            assert_eq!(channel.contact, ServiceId::Aci(7));
            assert_eq!(sender, ALICE);
        },
        other => panic!("unexpected {:?}", other),
    }
}

#[test]
fn read_receipts_withdraw_notifications() {
    let receipts = vec![
        ReadReceipt { timestamp: Some(255), sender_aci: Some(ALICE) },
        ReadReceipt { timestamp: None, sender_aci: Some(ALICE) },
    ];
    assert_eq!(read_receipt_uids(&receipts), vec!["ff67e55044-10b1-426f-9247-bb680e5fe0c8".to_string()]);
    let sm = SyncMessage { sent: None, read: receipts, viewed: 0 };
    match Message::from_content(content(ContentBody::SynchronizeMessage(sm))) {
        Incoming::WithdrawNotifications(ids) => assert_eq!(ids.len(), 1),
        other => panic!("unexpected {:?}", other),
    }
    let empty = SyncMessage { sent: None, read: Vec::new(), viewed: 3 };
    assert!(matches!(Message::from_content(content(ContentBody::SynchronizeMessage(empty))), Incoming::Ignored));
    assert!(matches!(Message::from_content(content(ContentBody::ReceiptMessage)), Incoming::Ignored));
}

#[test]
fn typing_notifications_name_their_channel() {
    let tm = TypingMessage { group_id: None, action: TypingAction::Started, timestamp: Some(9) };
    assert!(matches!(
        Message::from_content(content(ContentBody::TypingMessage(tm))),
        Incoming::TypingStarted { target: TypingTarget::Contact(ServiceId::Aci(ALICE)), sender: ALICE, timestamp: 9 }
    ));
    let tm = TypingMessage { group_id: Some(vec![1, 2]), action: TypingAction::Stopped, timestamp: None };
    match Message::from_content(content(ContentBody::TypingMessage(tm))) {
        Incoming::TypingStopped { target: TypingTarget::Group(g), sender } => {
            assert_eq!(g, vec![1, 2]);
            assert_eq!(sender, ALICE);
        },
        other => panic!("unexpected {:?}", other),
    }
}

#[test]
fn building_messages() {
    assert!(Message::build(IncomingKind::Text(data(None)), 1, 2, false, false).is_none());
    assert!(Message::build(IncomingKind::Text(data(Some("x"))), 1, 2, false, true).is_none());
    match Message::build(IncomingKind::Text(data(Some("x"))), 1, 2, true, false) {
        Some(Message::Display(DisplayMessage::Text(t))) => {
            assert!(t.read);
            assert_eq!(t.timestamp, 2);
        },
        other => panic!("unexpected {:?}", other),
    }
    let p = CallPayload { offer: false, answer: false, hangup: false, busy: true };
    match Message::build(IncomingKind::Call(p), 1, 2, true, false) {
        Some(Message::Display(DisplayMessage::Call(c))) => {
            assert_eq!(c.call_type, CallMessageType::Busy);
            assert!(!c.read);
        },
        other => panic!("unexpected {:?}", other),
    }
    let none = CallPayload { offer: false, answer: false, hangup: false, busy: false };
    assert!(Message::build(IncomingKind::Call(none), 1, 2, true, false).is_none());
}

#[test]
fn core_messages_describe_attachments() {
    assert_eq!(format_attachment(&pointer(Some("image/png"), Some("cat.png"))), "\u{1F5BC} cat.png");
    assert_eq!(format_attachment(&pointer(Some("audio/ogg"), None)), "\u{1F3B5} Attachment");
    let mut dm = data(Some("look"));
    dm.attachments = vec![pointer(Some("video/mp4"), Some("a.mp4")), pointer(None, Some("b.pdf"))];
    assert_eq!(format_attachments(&dm.attachments), "\u{1F3AC} a.mp4\n\u{1F4CE} b.pdf");
    dm.quote = Some(Quote { id: Some(77), author_aci: None, text: Some("earlier".to_string()) });
    let m = CoreMessage::from_content(&content(ContentBody::DataMessage(dm))).unwrap();
    assert_eq!(m.body.as_deref(), Some("look\n\u{1F3AC} a.mp4\n\u{1F4CE} b.pdf"));
    assert_eq!(m.sender_name, "Alice");
    assert!(matches!(m.channel_id, Some(ChannelId::Contact(ALICE))));
    assert_eq!(m.quote.as_ref().map(|q| q.ts), Some(77));
    let mut sticker = data(None);
    sticker.has_sticker = true;
    let m = CoreMessage::from_content(&content(ContentBody::DataMessage(sticker))).unwrap();
    assert_eq!(m.body.as_deref(), Some("[Sticker]"));
}

#[test]
fn core_messages_of_calls_and_reactions() {
    let p = CallPayload { offer: true, answer: false, hangup: false, busy: false };
    let m = CoreMessage::from_content(&content(ContentBody::CallMessage(p))).unwrap();
    assert!(m.is_call);
    assert_eq!(m.body.as_deref(), Some("Incoming call"));
    assert_eq!(CallType::Offer.display_text(true), "Outgoing call");
    assert_eq!(CallType::from_call_message(&p), Some(CallType::Offer));
    let mut dm = data(None);
    dm.reaction = Some(Reaction {
        emoji: Some("🎉".to_string()),
        remove: Some(true),
        target_author_aci: None,
        target_author_aci_binary: None,
        target_sent_timestamp: Some(3),
    });
    let m = CoreMessage::from_content(&content(ContentBody::DataMessage(dm))).unwrap();
    assert!(m.is_reaction && m.reaction_remove);
    assert_eq!(m.reaction_target_ts, Some(3));
    assert!(CoreMessage::from_content(&content(ContentBody::Other)).is_none());
}

#[test]
fn channel_ids_and_threads() {
    let g = Some(GroupContext { master_key: Some(vec![9u8; 32]) });
    assert!(matches!(channel_id_from_data(ServiceId::Aci(1), &g), Some(ChannelId::Group(k)) if k == [9u8; 32]));
    let short = Some(GroupContext { master_key: Some(vec![9u8; 3]) });
    assert!(matches!(channel_id_from_data(ServiceId::Aci(1), &short), Some(ChannelId::Contact(1))));
    assert!(channel_id_from_data(ServiceId::Pni(1), &None).is_none());
    assert!(matches!(thread_for_channel(&ChannelId::Contact(4)), Thread::Contact(ServiceId::Aci(4))));
}
