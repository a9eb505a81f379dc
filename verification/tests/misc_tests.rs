use flare::attachment::{
    content_type_for_file, default_attachment_name, downloaded_file_name, file_extension,
    Attachment, AttachmentType, Flags, MediaKind,
};
use flare::content::{author_bytes, uuid_of_bytes, AttachmentPointer, DataMessage, Reaction};
use flare::describe::{
    attachments_summary_msgids, display_message_textual_description, fill_attachments_text,
    fill_reaction_notification, message_notification_text, notify_reaction, reaction_message_notified,
    reaction_target_author,
    reaction_notification_msgid, reaction_notification_text, reactions_summary_text, text_first_line, DisplayMessageExt,
    DisplayMessageImpl,
};
use flare::error::{ApplicationError, BackendFailure, ConfigurationError};
use flare::message::{
    CallMessage, CallMessageType, DisplayMessage, ReactionEntry, ReactionMessage, TextMessage,
};

fn pointer(ct: Option<&str>, name: Option<&str>) -> AttachmentPointer {
    AttachmentPointer {
        content_type: ct.map(|s| s.to_string()),
        file_name: name.map(|s| s.to_string()),
        size: Some(10),
        width: None,
        height: Some(20),
        blur_hash: None,
        flags: Some(1),
    }
}

fn text_with(body: Option<&str>, atts: Vec<AttachmentPointer>) -> TextMessage {
    TextMessage {
        sender: 1,
        timestamp: 2,
        read: false,
        data: DataMessage {
            body: body.map(|b| b.to_string()),
            attachments: atts,
            group_v2: None,
            reaction: None,
            quote: None,
            has_sticker: false,
            delete: None,
            timestamp: Some(2),
            body_ranges: Vec::new(),
        },
        reactions: Vec::new(),
        is_deleted: false,
        quote: None,
    }
}

fn entry(sender: u128, emoji: &str) -> ReactionEntry {
    ReactionEntry {
        sender,
        reaction: Reaction {
            emoji: Some(emoji.to_string()),
            remove: None,
            target_author_aci: None,
            target_author_aci_binary: None,
            target_sent_timestamp: Some(2),
        },
    }
}

#[test]
fn attachment_kinds_and_names() {
    assert_eq!(AttachmentType::from_content_type("image/gif"), AttachmentType::Gif);
    assert_eq!(AttachmentType::from_content_type("image/jpeg"), AttachmentType::Image);
    assert_eq!(AttachmentType::from_content_type("audio/aac"), AttachmentType::Audio);
    assert_eq!(AttachmentType::from_content_type("application/pdf"), AttachmentType::File);
    assert_eq!(Flags::from_number(0), Flags::NoFlags);
    assert_eq!(Flags::from_number(1), Flags::VoiceMessage);
    assert_eq!(Flags::from_number(4), Flags::Gif);
    assert_eq!(default_attachment_name(&Some("image/png".to_string())), "image.png");
    assert_eq!(default_attachment_name(&Some("text/plain".to_string())), "file");
    assert_eq!(default_attachment_name(&None), "file");
    assert_eq!(downloaded_file_name(".tmpAB12", "cat.png"), ".tmpAB12.cat.png");
    assert_eq!(file_extension("archive.tar.gz"), Some("gz".to_string()));
    assert_eq!(file_extension(".hidden"), None);
    assert_eq!(content_type_for_file(Some("shot.png"), "application/octet-stream"), "image/png");
    assert_eq!(content_type_for_file(Some("a.jpg"), "image/jpeg"), "image/jpeg");
}

#[test]
fn attachments_from_pointers() {
    let a = Attachment::from_pointer(&pointer(Some(""), None));
    assert_eq!(a.content_type.as_deref(), Some("image/webp"));
    assert_eq!(a.name.as_deref(), Some("image.webp"));
    assert_eq!(a.size, 10);
    assert_eq!(a.width, 0);
    assert_eq!(a.height, 20);
    assert!(a.is_image());
    assert_eq!(a.flags(), Flags::VoiceMessage);
    assert_eq!(a.media_kind(), MediaKind::Image);
    let v = Attachment::from_pointer(&pointer(Some("video/mp4"), Some("clip.mp4")));
    assert_eq!(v.name.as_deref(), Some("clip.mp4"));
    assert!(v.is_video());
    assert_eq!(v.attachment_type(), AttachmentType::Video);
    assert_eq!(v.media_kind(), MediaKind::Video);
}

#[test]
fn message_descriptions() {
    assert_eq!(text_first_line("first\nsecond"), Some("first".to_string()));
    assert_eq!(text_first_line(""), None);
    let t = text_with(Some("hello\nworld"), Vec::new());
    assert_eq!(t.textual_description(0), Some("hello".to_string()));
    let imgs = vec![pointer(Some("image/png"), None), pointer(Some("image/jpeg"), None)];
    assert_eq!(attachments_summary_msgids(&imgs), ("Sent an image", "Sent {} images"));
    let t = text_with(None, imgs);
    assert_eq!(t.textual_description(0), Some("Sent 2 images".to_string()));
    let mixed = vec![pointer(Some("image/png"), None), pointer(Some("audio/ogg"), None)];
    assert_eq!(attachments_summary_msgids(&mixed), ("Sent a file", "Sent {} files"));
    assert_eq!(fill_attachments_text("Sent {} files", 3), "Sent 3 files");
    let c = CallMessage { sender: 5, timestamp: 1, read: false, call_type: CallMessageType::Busy };
    assert_eq!(c.textual_description(5), Some("Unanswered call".to_string()));
    let d = DisplayMessage::Call(c);
    assert_eq!(display_message_textual_description(&d, 6), Some("Call declined".to_string()));
    assert_eq!(DisplayMessageExt::textual_description(&d, 6), Some("Call declined".to_string()));
}

#[test]
fn notifications() {
    assert_eq!(
        message_notification_text(false, Some("hi"), true, "Hiking", "Bob"),
        Some(("Hiking".to_string(), "Bob: hi".to_string()))
    );
    assert_eq!(
        message_notification_text(false, Some("hi"), false, "Bob", "Bob"),
        Some(("Bob".to_string(), "hi".to_string()))
    );
    assert_eq!(message_notification_text(true, Some("hi"), false, "Bob", "Bob"), None);
    assert_eq!(message_notification_text(false, Some(""), false, "Bob", "Bob"), None);
    assert!(notify_reaction(2, 1, 1));
    assert!(!notify_reaction(1, 1, 1));
    assert!(!notify_reaction(2, 3, 1));
    assert_eq!(
        fill_reaction_notification("{sender} reacted {emoji} to a message.", "Bob", "👍"),
        "Bob reacted 👍 to a message."
    );
    assert_eq!(
        reaction_notification_text(true, "Hiking", "Bob", "👍"),
        ("Hiking".to_string(), "Bob reacted 👍 to a message.".to_string())
    );
    assert_eq!(
        reaction_notification_text(false, "Hiking", "Bob", "👍"),
        ("Bob".to_string(), "Reacted 👍 to a message.".to_string())
    );
}

#[test]
fn reaction_summaries_count_emojis() {
    let es = vec![entry(1, "👍"), entry(2, "❤"), entry(3, "👍")];
    assert_eq!(reactions_summary_text(&es), "👍2 ❤");
    let mut t = text_with(Some("x"), Vec::new());
    t.reactions = es;
    assert_eq!(t.reactions_summary(), "👍2 ❤");
    assert_eq!(reactions_summary_text(&Vec::new()), "");
}

#[test]
fn backend_failures_become_errors() {
    let e = ApplicationError::from_failure(BackendFailure::WebSocket {
        message: "io: Network is unreachable".to_string(),
        source: None,
    });
    assert!(matches!(e, ApplicationError::NoInternet));
    assert!(!e.should_report());
    let e = ApplicationError::from_failure(BackendFailure::WebSocket {
        message: "closed".to_string(),
        source: Some("timed out".to_string()),
    });
    assert!(matches!(e, ApplicationError::NoInternet));
    let e = ApplicationError::from_failure(BackendFailure::WebSocket { message: "closed".to_string(), source: None });
    assert!(matches!(e, ApplicationError::Presage(ref m) if m == "closed"));
    assert!(e.should_report());
    let e = ApplicationError::from_failure(BackendFailure::MessageSender {
        send_reason: Some("failed to lookup address information: x".to_string()),
        details: "d".to_string(),
    });
    assert!(matches!(e, ApplicationError::NoInternet));
    let e = ApplicationError::from_failure(BackendFailure::MessageSender { send_reason: None, details: "d".to_string() });
    assert!(matches!(e, ApplicationError::SendFailed(ref m) if m == "d"));
    assert!(matches!(ApplicationError::from_failure(BackendFailure::Unauthorized), ApplicationError::UnauthorizedSignal));
    assert!(matches!(ApplicationError::from_failure(BackendFailure::Store("s".to_string())), ApplicationError::Db(_)));
    assert!(matches!(
        ApplicationError::from_failure(BackendFailure::SendError { reason: "r".to_string(), details: "x".to_string() }),
        ApplicationError::Presage(ref m) if m == "x"
    ));
}

#[test]
fn error_texts() {
    assert_eq!(ApplicationError::NoInternet.to_text(), "There does not seem to be a connection to the internet available.\n");
    assert_eq!(ApplicationError::NoInternet.more_information(), "Please check your internet connection.");
    assert_eq!(ApplicationError::Db("disk full".to_string()).more_information(), "disk full");
    let cfg = ApplicationError::ConfigurationError(ConfigurationError::CannotCreateDbFolder(
        "/data".to_string(),
        "denied".to_string(),
    ));
    assert_eq!(cfg.more_information(), "The database path at /data is cannot be created due to error denied.");
    assert_eq!(cfg.msgid(), "The application seems to be misconfigured.");
    assert!(cfg.should_report());
    assert_eq!(ApplicationError::ManagerThreadPanic.more_information_msgid(), Some("Please restart the application with logging and report this issue."));
    assert_eq!(ApplicationError::IOError("x".to_string()).more_information_msgid(), None);
    assert_eq!(
        ConfigurationError::DbPathNoFolder("/tmp/x".to_string()).message(),
        "provided path is not a folder /tmp/x\n"
    );
    let p = ApplicationError::ConfigurationError(ConfigurationError::DbPathNoFolder("/p".to_string()));
    assert_eq!(p.fill_information("at {} no"), "at /p no");
}

#[test]
fn reaction_targets_read_their_author() {
    let mut r = entry(1, "👍").reaction;
    assert_eq!(reaction_target_author(&r), None);
    r.target_author_aci = Some("67e55044-10b1-426f-9247-bb680e5fe0c8".to_string());
    assert_eq!(reaction_target_author(&r), Some(0x67e55044_10b1_426f_9247_bb680e5fe0c8));
    r.target_author_aci = Some("garbage".to_string());
    assert_eq!(reaction_target_author(&r), None);
}

#[test]
fn reaction_notification_texts_by_channel_kind() {
    assert_eq!(reaction_notification_msgid(true), "{sender} reacted {emoji} to a message.");
    assert_eq!(reaction_notification_msgid(false), "Reacted {emoji} to a message.");
}

const OWN_BYTES: [u8; 16] = [
    0x67, 0xe5, 0x50, 0x44, 0x10, 0xb1, 0x42, 0x6f, 0x92, 0x47, 0xbb, 0x68, 0x0e, 0x5f, 0xe0, 0xc8,
];
const OWN_UUID: u128 = 0x67e55044_10b1_426f_9247_bb680e5fe0c8;

#[test]
fn binary_reaction_authors() {
    assert_eq!(uuid_of_bytes(&OWN_BYTES), OWN_UUID);
    assert_eq!(author_bytes(&OWN_BYTES.to_vec()), Some(OWN_BYTES));
    assert_eq!(author_bytes(&vec![1, 2, 3]), None);
    let mut r = entry(1, "👍").reaction;
    r.target_author_aci_binary = Some(OWN_BYTES);
    assert_eq!(reaction_target_author(&r), Some(OWN_UUID));
    r.target_author_aci = Some("00000000-0000-0000-0000-000000000005".to_string());
    assert_eq!(reaction_target_author(&r), Some(OWN_UUID));
    r.target_author_aci_binary = None;
    assert_eq!(reaction_target_author(&r), Some(5));
}

#[test]
fn reactions_to_own_messages_are_notified() {
    let mut reaction = entry(1, "👍").reaction;
    reaction.target_author_aci_binary = Some(OWN_BYTES);
    let mut rm = ReactionMessage { sender: 9, timestamp: 3, read: false, reaction };
    assert_eq!(reaction_message_notified(&rm, OWN_UUID), Some(true));
    assert_eq!(reaction_message_notified(&rm, 5), Some(false));
    rm.sender = OWN_UUID;
    assert_eq!(reaction_message_notified(&rm, OWN_UUID), Some(false));
    rm.sender = 9;
    rm.reaction.target_author_aci_binary = None;
    assert_eq!(reaction_message_notified(&rm, OWN_UUID), None);
    rm.reaction.target_author_aci = Some("67e55044-10b1-426f-9247-bb680e5fe0c8".to_string());
    assert_eq!(reaction_message_notified(&rm, OWN_UUID), Some(true));
}
