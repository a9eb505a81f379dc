use flare::content::{BodyRange, DataMessage};
use flare::mentions::{
    decode_utf16_lossy, encode_utf16, format_body, mentions_fit_in, mentions_of, Mention,
};
use flare::message::TextMessage;

const ALICE_TEXT: &str = "67e55044-10b1-426f-9247-bb680e5fe0c8";
const ALICE: u128 = 0x67e55044_10b1_426f_9247_bb680e5fe0c8;

fn range(start: u32, length: u32, aci: Option<&str>) -> BodyRange {
    BodyRange { start: Some(start), length: Some(length), mention_aci: aci.map(|a| a.to_string()) }
}

fn message(body: Option<&str>, ranges: Vec<BodyRange>) -> TextMessage {
    TextMessage {
        sender: 1,
        timestamp: 2,
        read: false,
        data: DataMessage {
            body: body.map(|b| b.to_string()),
            attachments: Vec::new(),
            group_v2: None,
            reaction: None,
            quote: None,
            has_sticker: false,
            delete: None,
            timestamp: Some(2),
            body_ranges: ranges,
        },
        reactions: Vec::new(),
        is_deleted: false,
        quote: None,
    }
}

fn titled(mut ms: Vec<Mention>, title: &str) -> Vec<Mention> {
    for m in ms.iter_mut() {
        if m.uuid.is_some() {
            m.title = title.to_string();
        }
    }
    ms
}

#[test]
fn utf16_encoding_and_lossy_decoding() {
    assert_eq!(encode_utf16("a😀"), vec![0x61, 0xD83D, 0xDE00]);
    let units = encode_utf16("a😀b");
    assert_eq!(decode_utf16_lossy(&units, 0, units.len()), "a😀b");
    assert_eq!(decode_utf16_lossy(&units, 0, 2), "a\u{FFFD}");
    assert_eq!(decode_utf16_lossy(&units, 2, 4), "\u{FFFD}b");
}

#[test]
fn mention_ranges_read_their_uuids() {
    let ms = mentions_of(&vec![
        range(3, 1, Some(ALICE_TEXT)),
        range(0, 2, None),
        range(1, 1, Some("not a uuid")),
        BodyRange { start: None, length: None, mention_aci: Some("67E55044-10B1-426F-9247-BB680E5FE0C8".to_string()) },
        range(1, 1, Some("67e5504410b1426f9247bb680e5fe0c8")),
    ]);
    assert_eq!(ms[0].uuid, Some(ALICE));
    assert_eq!((ms[0].start, ms[0].length), (3, 1));
    assert_eq!(ms[1].uuid, None);
    assert_eq!(ms[2].uuid, None);
    assert_eq!(ms[3].uuid, Some(ALICE));
    assert_eq!((ms[3].start, ms[3].length), (0, 0));
    assert_eq!(ms[4].uuid, Some(ALICE));
    assert!(ms.iter().all(|m| m.title.is_empty()));
}

#[test]
fn mentions_become_titles_with_byte_marks() {
    let m = message(Some("Hi \u{FFFC} how are you"), vec![range(3, 1, Some(ALICE_TEXT))]);
    let ms = titled(m.mentions(), "Alice");
    assert!(mentions_fit_in(m.data.body.as_deref().unwrap(), &ms));
    let (text, marks) = m.format_body(ms);
    assert_eq!(text.as_deref(), Some("Hi @Alice how are you"));
    assert_eq!(marks, vec![(3, 9)]);
}

#[test]
fn offsets_count_utf16_units() {
    let body = "😀 \u{FFFC} y";
    let ms = titled(mentions_of(&vec![range(3, 1, Some(ALICE_TEXT))]), "Bob");
    let (text, marks) = format_body(body, ms);
    assert_eq!(text, "😀 @Bob y");
    assert_eq!(marks, vec![(5, 9)]);
}

#[test]
fn mentions_are_taken_by_start() {
    let body = "\u{FFFC} and \u{FFFC}";
    let ms = titled(
        mentions_of(&vec![range(6, 1, Some(ALICE_TEXT)), range(0, 1, Some(ALICE_TEXT)), range(2, 3, None)]),
        "A",
    );
    assert!(mentions_fit_in(body, &ms));
    let (text, marks) = format_body(body, ms);
    assert_eq!(text, "@A and @A");
    assert_eq!(marks, vec![(0, 2), (7, 9)]);
}

#[test]
fn a_split_surrogate_pair_shows_replacement_characters() {
    let ms = titled(mentions_of(&vec![range(1, 1, Some(ALICE_TEXT))]), "T");
    let (text, marks) = format_body("😀", ms);
    assert_eq!(text, "\u{FFFD}@T");
    assert_eq!(marks, vec![(3, 5)]);
}

#[test]
fn bodies_without_mentions_stay_as_they_are() {
    let m = message(Some("plain 😀 text"), Vec::new());
    assert_eq!(m.format_body(Vec::new()), (Some("plain 😀 text".to_string()), Vec::new()));
    let m = message(Some("styled"), vec![range(0, 3, None)]);
    let ms = m.mentions();
    assert_eq!(m.format_body(ms), (Some("styled".to_string()), Vec::new()));
    let m = message(None, vec![range(0, 3, Some(ALICE_TEXT))]);
    assert_eq!(m.format_body(Vec::new()), (None, Vec::new()));
}

#[test]
fn overlapping_or_outside_mentions_do_not_fit() {
    let overlapping = titled(
        mentions_of(&vec![range(0, 4, Some(ALICE_TEXT)), range(2, 1, Some(ALICE_TEXT))]),
        "A",
    );
    assert!(!mentions_fit_in("abcdef", &overlapping));
    let outside = titled(mentions_of(&vec![range(9, 1, Some(ALICE_TEXT))]), "A");
    assert!(!mentions_fit_in("abc", &outside));
    let at_end = titled(mentions_of(&vec![range(3, 5, Some(ALICE_TEXT))]), "A");
    assert!(mentions_fit_in("abc", &at_end));
    assert_eq!(format_body("abc", at_end), ("abc@A".to_string(), vec![(3, 5)]));
}
