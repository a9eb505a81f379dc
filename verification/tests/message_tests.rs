use flare::content::{CallMessage as CallPayload, DataMessage, Delete, Reaction};
use flare::message::{
    message_uid, show_header, show_timestamp, CallMessage, CallMessageType, DeletionMessage,
    DisplayMessage, Message, ReactionEntry, ReactionMessage, TextMessage,
};

fn data(body: Option<&str>, ts: Option<u64>) -> DataMessage {
    DataMessage {
        body: body.map(|b| b.to_string()),
        attachments: Vec::new(),
        group_v2: None,
        reaction: None,
        quote: None,
        has_sticker: false,
        delete: None,
        timestamp: ts,
        body_ranges: Vec::new(),
    }
}

fn text(sender: u128, ts: u64) -> TextMessage {
    TextMessage {
        sender,
        timestamp: ts,
        read: false,
        data: data(Some("hi"), Some(ts)),
        reactions: Vec::new(),
        is_deleted: false,
        quote: None,
    }
}

fn reaction(emoji: &str, remove: bool, ts: u64) -> Reaction {
    Reaction {
        emoji: Some(emoji.to_string()),
        remove: Some(remove),
        target_author_aci: None,
        target_author_aci_binary: None,
        target_sent_timestamp: Some(ts),
    }
}

#[test]
fn uid_is_hex_timestamp_and_uuid() {
    let u: u128 = 0x67e55044_10b1_426f_9247_bb680e5fe0c8;
    assert_eq!(message_uid(255, u), "ff67e55044-10b1-426f-9247-bb680e5fe0c8");
    let m = DisplayMessage::Text(text(u, 255));
    assert_eq!(m.uid(), Some("ff67e55044-10b1-426f-9247-bb680e5fe0c8".to_string()));
    let c = DisplayMessage::Call(CallMessage {
        sender: u,
        timestamp: 1,
        read: false,
        call_type: CallMessageType::Offer,
    });
    assert_eq!(c.uid(), None);
}

#[test]
fn call_payload_kind_precedence() {
    let p = CallPayload { offer: true, answer: true, hangup: true, busy: true };
    assert_eq!(CallMessageType::try_from_payload(&p), Some(CallMessageType::Offer));
    let p = CallPayload { offer: false, answer: true, hangup: true, busy: false };
    assert_eq!(CallMessageType::try_from_payload(&p), Some(CallMessageType::Hangup));
    let p = CallPayload { offer: false, answer: true, hangup: false, busy: true };
    assert_eq!(CallMessageType::try_from_payload(&p), Some(CallMessageType::Answer));
    let p = CallPayload { offer: false, answer: false, hangup: false, busy: true };
    assert_eq!(CallMessageType::try_from_payload(&p), Some(CallMessageType::Busy));
    let p = CallPayload { offer: false, answer: false, hangup: false, busy: false };
    assert_eq!(CallMessageType::try_from_payload(&p), None);
}

#[test]
fn call_texts_and_icons() {
    assert_eq!(CallMessageType::Offer.description_msgid(false), "Incoming call");
    assert_eq!(CallMessageType::Offer.description_msgid(true), "Outgoing call");
    assert_eq!(CallMessageType::Busy.description_msgid(false), "Call declined");
    assert_eq!(CallMessageType::Busy.description_msgid(true), "Unanswered call");
    assert_eq!(CallMessageType::Hangup.icon_name(true), "call-stop-symbolic");
    assert_eq!(CallMessageType::Offer.icon_name(true), "call-outcoming-symbolic");
}

#[test]
fn latest_reaction_of_a_sender_wins() {
    let mut t = text(1, 100);
    t.react(2, reaction("👍", false, 100));
    t.react(3, reaction("❤", false, 100));
    t.react(2, reaction("😂", false, 100));
    assert_eq!(t.reactions.len(), 2);
    assert_eq!(t.reactions[0].sender, 3);
    assert_eq!(t.reactions[1].sender, 2);
    assert_eq!(t.reactions[1].reaction.emoji.as_deref(), Some("😂"));
    assert!(t.has_reaction_from(2));
    t.react(2, reaction("😂", true, 100));
    assert!(!t.has_reaction_from(2));
    assert!(t.has_reaction_from(3));
    assert_eq!(t.timestamp, 100);
}

#[test]
fn header_and_timestamp_rules() {
    let own: u128 = 9;
    assert!(show_header(None, (10, own), own));
    assert!(!show_header(Some((0, 1)), (10, own), own));
    assert!(show_header(Some((0, 1)), (10, 2), own));
    assert!(!show_header(Some((0, 1)), (239_999, 1), own));
    assert!(show_header(Some((0, 1)), (240_000, 1), own));
    assert!(show_timestamp((0, 1), None));
    assert!(!show_timestamp((0, 1), Some((59_999, 1))));
    assert!(show_timestamp((0, 1), Some((60_000, 1))));
    assert!(show_timestamp((0, 1), Some((5, 2))));
}

#[test]
fn marking_read_reports_the_change() {
    let mut m = Message::Display(DisplayMessage::Text(text(4, 5)));
    assert_eq!(m.sender(), 4);
    assert!(m.mark_as_read());
    assert!(!m.mark_as_read());
    let mut d = Message::Deletion(DeletionMessage {
        sender: 6,
        timestamp: 7,
        read: true,
        deletion: Delete { target_sent_timestamp: Some(5) },
    });
    assert!(!d.mark_as_read());
    let mut r = Message::Reaction(ReactionMessage {
        sender: 8,
        timestamp: 9,
        read: false,
        reaction: reaction("👍", false, 5),
    });
    assert!(r.mark_as_read());
    assert_eq!(r.sender(), 8);
    let e = ReactionEntry { sender: 1, reaction: reaction("x", false, 1) };
    assert_eq!(e.clone().sender, 1);
}
