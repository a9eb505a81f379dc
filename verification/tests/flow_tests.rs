use flare::attachment::Attachment;
use flare::channel::{Channel, Group};
use flare::compose::{deletion_data, has_content, reaction_data, Composer, SendTarget};
use flare::contact::{Contact, StoredContact};
use flare::content::{AttachmentPointer, GroupContext, ServiceId};
use flare::devices::{add_device_enabled, device_link_for_response, linked_devices, unlink_question, DeviceInfo, DeviceInfoItem, DeviceRecord};
use flare::error::{ApplicationError, BackendFailure};
use flare::message::{QuotedMessage, TextMessage};
use flare::receiving::{
    contact_profile_key, dummy_presage_contacts, loop_step, profile_key_for, start_step, Delivery, LoopAction,
    LoopEvent, LoopState, Manager, Notifications, RegistrationType, StartAnswer, StartOutcome,
    ThreadStart, OFFLINE_SLEEP_TIMEOUT,
};
use flare::ui::phone_call_url;
use flare::setup::{setup_step, Servers, SetupAction, SetupDecision, SetupEvent, SetupPhase, SetupResult};

const ALICE: u128 = 0x67e55044_10b1_426f_9247_bb680e5fe0c8;

fn attachment(ct: &str) -> Attachment {
    Attachment::from_pointer(&AttachmentPointer {
        content_type: Some(ct.to_string()),
        file_name: None,
        size: None,
        width: None,
        height: None,
        blur_hash: None,
        flags: None,
    })
}

#[test]
fn composing_a_text_message() {
    let mut m = TextMessage::from_text_channel_sender("hello", 1, 42);
    assert_eq!(m.data.body.as_deref(), Some("hello"));
    assert_eq!(m.data.timestamp, Some(42));
    assert!(!m.read);
    let empty = TextMessage::from_text_channel_sender("", 1, 43);
    assert!(empty.data.body.is_none());
    m.set_quote(QuotedMessage { timestamp: 7, author: Some(ALICE), body: Some("earlier".to_string()) });
    let q = m.data.quote.as_ref().unwrap();
    assert_eq!(q.id, Some(7));
    assert_eq!(q.author_aci.as_deref(), Some("67e55044-10b1-426f-9247-bb680e5fe0c8"));
    assert_eq!(q.text.as_deref(), Some("earlier"));
}

#[test]
fn sending_a_reaction_twice_removes_it() {
    let mut m = TextMessage::from_text_channel_sender("hello", ALICE, 42);
    let r = m.send_reaction(1, "👍", Some(ALICE));
    assert_eq!(r.remove, Some(false));
    assert_eq!(r.target_sent_timestamp, Some(42));
    assert_eq!(r.target_author_aci.as_deref(), Some("67e55044-10b1-426f-9247-bb680e5fe0c8"));
    assert_eq!(m.reactions.len(), 1);
    let r2 = m.send_reaction(1, "👍", None);
    assert_eq!(r2.remove, Some(true));
    assert!(r2.target_author_aci.is_none());
    assert_eq!(m.reactions.len(), 0);
    let d = reaction_data(r2, 50);
    assert!(d.body.is_none() && d.reaction.is_some());
    assert_eq!(d.timestamp, Some(50));
    let del = m.delete();
    assert!(m.is_deleted);
    assert_eq!(del.target_sent_timestamp, Some(42));
    let dd = deletion_data(del, 51);
    assert!(dd.delete.is_some() && dd.reaction.is_none());
}

#[test]
fn send_targets() {
    let c = Channel::from_contact(Contact::from_contact(
        StoredContact { uuid: ALICE, name: "Alice".to_string(), phone_number: None, expire_timer: 0, profile_key: vec![0; 32] },
        1,
        "Me".to_string(),
    ));
    assert!(matches!(c.send_target(), SendTarget::Contact(ServiceId::Aci(ALICE))));
    let g = Channel::from_group(
        Group { title: "G".to_string(), description: None, disappearing_messages_timer: None },
        GroupContext { master_key: Some(vec![1u8; 32]) },
        1,
    );
    assert!(matches!(g.send_target(), SendTarget::Group(ref k) if k == &vec![1u8; 32]));
    let unknown = Channel::from_contact(Contact::from_uuid(9, 1, "Me".to_string()));
    assert!(matches!(unknown.send_target(), SendTarget::Nobody));
}

#[test]
fn files_are_sent_alone() {
    let mut c = Composer::new();
    c.append_attachment(attachment("image/png"));
    c.append_attachment(attachment("image/jpeg"));
    assert_eq!(c.attachments.len(), 2);
    c.append_attachment(attachment("application/pdf"));
    assert_eq!(c.attachments.len(), 1);
    c.append_attachment(attachment("image/png"));
    assert_eq!(c.attachments.len(), 1);
    assert!(c.attachments[0].is_image());
    c.reply = Some(QuotedMessage { timestamp: 1, author: None, body: None });
    let (atts, reply) = c.take();
    assert_eq!(atts.len(), 1);
    assert!(reply.is_some());
    assert!(c.attachments.is_empty() && c.reply.is_none());
    assert!(!has_content("", &Vec::new()));
    assert!(has_content("x", &Vec::new()));
    assert!(has_content("", &atts));
}

#[test]
fn setup_by_linking() {
    let s = setup_step(SetupPhase::Loading, SetupEvent::Loaded(false));
    assert_eq!(s.phase, SetupPhase::AwaitDecision);
    assert!(matches!(s.notice, Some(SetupResult::Pending)));
    let s = setup_step(
        SetupPhase::AwaitDecision,
        SetupEvent::Decision(SetupDecision::Link(Servers::Production, "Flare".to_string())),
    );
    assert_eq!(s.phase, SetupPhase::Linking(false));
    assert!(matches!(s.action, Some(SetupAction::Link(Servers::Production, ref n)) if n == "Flare"));
    let s = setup_step(SetupPhase::Linking(false), SetupEvent::LinkUrl("sgnl://linkdevice".to_string()));
    assert!(matches!(s.notice, Some(SetupResult::DisplayLinkQR(ref u)) if u == "sgnl://linkdevice"));
    let s = setup_step(SetupPhase::Linking(true), SetupEvent::Linked(true));
    assert_eq!(s.phase, SetupPhase::RequestingContacts);
    assert!(matches!(s.action, Some(SetupAction::RequestContacts)));
    let s = setup_step(SetupPhase::RequestingContacts, SetupEvent::ContactsRequested);
    assert_eq!(s.phase, SetupPhase::Done(true));
    assert!(matches!(s.notice, Some(SetupResult::Finished)));
}

#[test]
fn setup_by_registering() {
    let s = setup_step(
        SetupPhase::AwaitDecision,
        SetupEvent::Decision(SetupDecision::Register(Servers::Staging, "+41446681800".to_string(), "tok".to_string())),
    );
    assert_eq!(s.phase, SetupPhase::Registering);
    let s = setup_step(SetupPhase::Registering, SetupEvent::Registered(true));
    assert!(matches!(s.notice, Some(SetupResult::Confirm)));
    let s = setup_step(SetupPhase::AwaitConfirmation, SetupEvent::Code("123456".to_string()));
    assert!(matches!(s.action, Some(SetupAction::Confirm(ref c)) if c == "123456"));
    let s = setup_step(SetupPhase::Confirming, SetupEvent::Confirmed(false));
    assert_eq!(s.phase, SetupPhase::Done(false));
    assert!(matches!(s.notice, Some(SetupResult::Finished)));
    let s = setup_step(SetupPhase::Registering, SetupEvent::Registered(false));
    assert_eq!(s.phase, SetupPhase::Done(false));
    assert!(s.notice.is_none());
    let s = setup_step(SetupPhase::Loading, SetupEvent::Loaded(true));
    assert_eq!(s.phase, SetupPhase::Done(true));
}

#[test]
fn receiving_loop_steps() {
    let (s, a) = loop_step(LoopState::Connecting, LoopEvent::StreamOpened);
    assert_eq!(s, LoopState::Receiving);
    assert!(a.is_none());
    let (s, a) = loop_step(LoopState::Receiving, LoopEvent::Content);
    assert_eq!(s, LoopState::Receiving);
    assert!(matches!(a, Some(LoopAction::Forward)));
    let (s, _) = loop_step(LoopState::Receiving, LoopEvent::ForwardFailed);
    assert_eq!(s, LoopState::Exited);
    let (s, a) = loop_step(LoopState::Receiving, LoopEvent::Resumed);
    assert_eq!(s, LoopState::Connecting);
    assert!(matches!(a, Some(LoopAction::OpenStream)));
    let (s, a) = loop_step(
        LoopState::Connecting,
        LoopEvent::StreamFailed(BackendFailure::WebSocket { message: "timed out".to_string(), source: None }),
    );
    assert_eq!(s, LoopState::Offline);
    assert!(matches!(a, Some(LoopAction::Wait(OFFLINE_SLEEP_TIMEOUT))));
    let (_, a) = loop_step(LoopState::Connecting, LoopEvent::StreamFailed(BackendFailure::Unauthorized));
    assert!(matches!(a, Some(LoopAction::ReportAndWait(ApplicationError::UnauthorizedSignal, 15))));
    let (s, a) = loop_step(LoopState::Offline, LoopEvent::Command);
    assert_eq!(s, LoopState::Offline);
    assert!(matches!(a, Some(LoopAction::HandleCommand)));
    let (s, _) = loop_step(LoopState::Offline, LoopEvent::WaitOver);
    assert_eq!(s, LoopState::Connecting);
}

#[test]
fn backend_thread_start() {
    let s = match start_step(ThreadStart::AwaitUuid, StartAnswer::Uuid(Some(ALICE))) {
        StartOutcome::Next(s) => s,
        other => panic!("unexpected {:?}", other),
    };
    let s = match start_step(s, StartAnswer::RegistrationType(Some(RegistrationType::Secondary))) {
        StartOutcome::Next(s) => s,
        other => panic!("unexpected {:?}", other),
    };
    match start_step(s, StartAnswer::Profile(Some(None))) {
        StartOutcome::Ready(t) => {
            assert_eq!(t.uuid(), ALICE);
            assert_eq!(t.registration_type(), Some(RegistrationType::Secondary));
            assert!(t.profile.is_none());
        },
        other => panic!("unexpected {:?}", other),
    }
    assert!(matches!(start_step(ThreadStart::AwaitUuid, StartAnswer::Uuid(None)), StartOutcome::Failed));
}

#[test]
fn notifications_wait_for_the_setup() {
    let mut n: Notifications<u32> = Notifications { enabled: true, has_application: true, finished_setup: false, pending: Vec::new() };
    assert!(matches!(n.send(Some("a".to_string()), 1), Delivery::Queued));
    assert!(matches!(n.send(Some("b".to_string()), 2), Delivery::Queued));
    assert!(!n.withdraw("a"));
    assert_eq!(n.pending.len(), 1);
    assert_eq!(n.pending[0].1, 2);
    n.finished_setup = true;
    assert!(matches!(n.send(None, 3), Delivery::Show(None, 3)));
    assert!(n.withdraw("b"));
    let mut off: Notifications<u32> = Notifications { enabled: false, has_application: true, finished_setup: true, pending: Vec::new() };
    assert!(matches!(off.send(None, 1), Delivery::Dropped));
}

#[test]
fn screenshot_mode_backend() {
    let m = Manager { uuid: 0 };
    assert_eq!(m.profile_name(), "You");
    assert!(m.is_primary());
    let contacts = dummy_presage_contacts();
    assert_eq!(contacts.len(), 5);
    assert_eq!(contacts[2].phone_number.as_deref(), Some("+123456789"));
    assert_eq!(contacts[4].name, "Agent Smith");
    for c in &contacts {
        assert_eq!(c.profile_key, vec![0u8; 32]);
        assert_eq!(contact_profile_key(c), Some([0u8; 32]));
    }
}

#[test]
fn profile_keys() {
    let members = vec![(1u128, [1u8; 32]), (2u128, [2u8; 32]), (2u128, [3u8; 32])];
    assert_eq!(profile_key_for(2, Some(&members), Some([9u8; 32])), Some([2u8; 32]));
    assert_eq!(profile_key_for(5, Some(&members), Some([9u8; 32])), None);
    assert_eq!(profile_key_for(5, None, Some([9u8; 32])), Some([9u8; 32]));
    let short = StoredContact {
        uuid: 1,
        name: String::new(),
        phone_number: None,
        expire_timer: 0,
        profile_key: vec![1, 2, 3],
    };
    assert_eq!(contact_profile_key(&short), None);
    let mut key = vec![0u8; 32];
    key[31] = 5;
    let full = StoredContact { profile_key: key, ..short };
    let mut expected = [0u8; 32];
    expected[31] = 5;
    assert_eq!(contact_profile_key(&full), Some(expected));
}

#[test]
fn linked_device_list() {
    let records = vec![
        DeviceRecord { id: 1, name: Some("Phone".to_string()), created: Some("Mon".to_string()), last_seen: None },
        DeviceRecord { id: 2, name: None, created: None, last_seen: None },
        DeviceRecord { id: 3, name: Some("Laptop".to_string()), created: None, last_seen: Some("Tue".to_string()) },
    ];
    let shown = linked_devices(records);
    assert_eq!(shown.len(), 2);
    assert_eq!(shown[0].id, 1);
    assert_eq!(shown[0].last_seen, "");
    assert_eq!(shown[1].name, "Laptop");
    let info = DeviceInfo::new(DeviceRecord { id: 4, name: None, created: None, last_seen: None });
    assert_eq!(info.name, "");
    let mut item = DeviceInfoItem::new();
    assert!(item.unlink().is_none());
    item.device_info = Some(info);
    assert_eq!(item.unlink().map(|d| d.id), Some(4));
    assert_eq!(unlink_question("Are you sure you want to unlink {}?", "Laptop"), "Are you sure you want to unlink Laptop?");
}

#[test]
fn device_links_and_phone_urls() {
    assert!(add_device_enabled("sgnl://linkdevice?uuid=abc&pub_key=xyz"));
    assert!(!add_device_enabled("not a url"));
    assert_eq!(device_link_for_response("add-device", "HTTPS://Example.org"), Some("https://example.org/".to_string()));
    assert_eq!(device_link_for_response("add-device", "nope"), None);
    assert_eq!(device_link_for_response("cancel", "https://example.org"), None);
    assert_eq!(phone_call_url(Some("+41446681800")), Some("tel:+41446681800".to_string()));
    assert_eq!(phone_call_url(None), None);
}

#[test]
fn screenshot_mode_messages_and_channels() {
    let ms = flare::receiving::dummy_messages(1_000);
    assert_eq!(ms.len(), 8);
    match &ms[0] {
        (5, flare::message::Message::Display(flare::message::DisplayMessage::Text(t))) => {
            assert_eq!(t.sender, 2);
            assert_eq!(t.timestamp, 1_018 * 60_000);
            assert_eq!(t.reactions.len(), 1);
            assert_eq!(t.reactions[0].reaction.emoji.as_deref(), Some("🎉🚀"));
        },
        other => panic!("unexpected {:?}", other),
    }
    match &ms[1] {
        (5, flare::message::Message::Display(flare::message::DisplayMessage::Text(t))) => {
            assert_eq!(t.data.body.as_deref(), Some("Updating now! The UI changes already look good in the screenshots."));
            assert_eq!(t.quote.as_ref().map(|q| q.timestamp), Some(1_018 * 60_000));
            assert_eq!(t.data.quote.as_ref().and_then(|q| q.author_aci.clone()), Some("00000000-0000-0000-0000-000000000002".to_string()));
        },
        other => panic!("unexpected {:?}", other),
    }
    match &ms[5] {
        (2, flare::message::Message::Display(flare::message::DisplayMessage::Text(t))) => {
            assert_eq!(t.timestamp, 900 * 60_000);
            assert_eq!(t.data.body.as_deref(), Some("Greetings"));
        },
        other => panic!("unexpected {:?}", other),
    }
    let channels = Manager { uuid: 0 }.dummy_channels();
    assert_eq!(channels.len(), 6);
    assert_eq!(channels[1].title(), "Postmarket OS Linux Mobile User");
    assert_eq!(channels[0].title(), "Note to self");
    assert_eq!(channels[5].title(), "Mobile Linux Group");
    assert!(matches!(channels[5].send_target(), SendTarget::Group(ref k) if k == &vec![2u8; 32]));
}

#[test]
fn outgoing_data_carries_the_group() {
    let g = Channel::from_group(
        Group { title: "G".to_string(), description: None, disappearing_messages_timer: None },
        GroupContext { master_key: Some(vec![1u8; 32]) },
        1,
    );
    let m = TextMessage::from_text_channel_sender("hi", 1, 5);
    let d = g.outgoing_data(m.data);
    assert_eq!(d.group_v2.and_then(|gc| gc.master_key), Some(vec![1u8; 32]));
    let c = Channel::from_contact(Contact::from_contact(
        StoredContact { uuid: ALICE, name: "Alice".to_string(), phone_number: None, expire_timer: 0, profile_key: vec![0; 32] },
        1,
        "Me".to_string(),
    ));
    let m = TextMessage::from_text_channel_sender("hi", 1, 6);
    assert!(c.outgoing_data(m.data).group_v2.is_none());
}

#[test]
fn primary_registration_decisions() {
    assert!(flare::setup::phone_number_accepted("+41446681800"));
    assert!(!flare::setup::phone_number_accepted("not a number"));
    match flare::setup::primary_decision(Servers::Production, "+41 44 668 18 00", "signalcaptcha://tok.en") {
        Some(SetupDecision::Register(Servers::Production, p, c)) => {
            assert_eq!(p, "+41446681800");
            assert_eq!(c, "tok.en");
        },
        other => panic!("unexpected {:?}", other),
    }
    assert!(flare::setup::primary_decision(Servers::Staging, "12", "x").is_none());
}
