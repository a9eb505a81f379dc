//! What the client does with received or stored content: which channel a message belongs to,
//! what kind of message it is, who starts or stops typing, which notifications go away.
//!
//! Classifying content is pure; finding the channel and the sender's contact is the store's
//! work. Once those are known, [Message::build] makes the message.
use vstd::prelude::*;

use crate::content::{
    CallMessage as CallPayload, Content, ContentBody, DataMessage, Delete, GroupContext, Reaction,
    ReadReceipt, Sent, ServiceId, SyncMessage, TypingAction,
};
use crate::message::{
    display_uid, message_uid, spec_call_message_type, spec_uid, CallMessage, CallMessageType, DeletionMessage,
    DisplayMessage, Message, ReactionMessage, TextMessage,
};
use crate::text::views;

verus! {

/// The channel that a message belongs to, as the store is asked for it: the group of the group
/// context where there is one, else the 1-to-1 channel of `contact`.
#[derive(Debug)]
pub struct ChannelRef {
    pub contact: ServiceId,
    pub group_v2: Option<GroupContext>,
}

/// The kind of a message, with what it carries.
#[derive(Debug)]
pub enum IncomingKind {
    Text(DataMessage),
    Reaction(Reaction),
    Deletion(Delete),
    Call(CallPayload),
}

/// The channel of a typing notification.
#[derive(Debug)]
pub enum TypingTarget {
    /// The group with this identifier.
    Group(Vec<u8>),
    /// The 1-to-1 channel of this account.
    Contact(ServiceId),
}

/// What received content asks of the client.
#[derive(Debug)]
pub enum Incoming {
    /// A message of the given kind from `sender`, sent at `timestamp`, for the channel `channel`.
    Message { channel: ChannelRef, sender: u128, timestamp: u64, kind: IncomingKind },
    /// `sender` started typing.
    TypingStarted { target: TypingTarget, sender: u128, timestamp: u64 },
    /// `sender` stopped typing.
    TypingStopped { target: TypingTarget, sender: u128 },
    /// The notifications with these identifiers are to be withdrawn: their messages were read
    /// on another device.
    WithdrawNotifications(Vec<String>),
    /// Nothing to do.
    Ignored,
}

/// The group context as plain values: whether there is one, and its master key.
pub open spec fn gc_view(g: Option<GroupContext>) -> Option<Option<Seq<u8>>> {
    match g {
        Some(gc) => Some(
            match gc.master_key {
                Some(k) => Some(k@),
                None => None,
            },
        ),
        None => None,
    }
}

/// `k` is the kind of the data message `dm`: a reaction where it holds one, else a deletion
/// where it holds one, else a text message that carries `dm`.
pub open spec fn data_kind(k: IncomingKind, dm: DataMessage) -> bool {
    match dm.reaction {
        Some(r) => k == IncomingKind::Reaction(r),
        None => match dm.delete {
            Some(d) => k == IncomingKind::Deletion(d),
            None => k matches IncomingKind::Text(d2) && d2 == DataMessage {
                group_v2: d2.group_v2,
                ..dm
            } && gc_view(d2.group_v2) == gc_view(dm.group_v2),
        },
    }
}

/// `r` is a message of the data message `dm` from `sender`, sent at `timestamp`, for the
/// channel of the group of `dm`, or of `contact`.
pub open spec fn data_message_for(
    r: Incoming,
    contact: ServiceId,
    dm: DataMessage,
    sender: u128,
    timestamp: u64,
) -> bool {
    &&& r matches Incoming::Message { channel, sender: s, timestamp: t, kind }
    &&& channel.contact == contact
    &&& gc_view(channel.group_v2) == gc_view(dm.group_v2)
    &&& s == sender
    &&& t == timestamp
    &&& data_kind(kind, dm)
}

/// The identifiers of the notifications of the messages that read receipts name: one for each
/// receipt that gives both a timestamp and a sender, in order.
pub open spec fn read_uids(rs: Seq<ReadReceipt>) -> Seq<Seq<char>>
    decreases rs.len(),
{
    if rs.len() == 0 {
        seq![]
    } else {
        let r = rs.last();
        let rest = read_uids(rs.drop_last());
        match (r.timestamp, r.sender_aci) {
            (Some(t), Some(u)) => rest.push(spec_uid(t, u)),
            _ => rest,
        }
    }
}

/// `r` is what the content `c` asks of the client:
/// - a data message is a message of its [kind](data_kind) for the channel of its group, or of
///   the sender;
/// - a message sent from another device is one for the channel of its group, or of its
///   destination (the sender where it names none);
/// - a call event is a call message for the sender's 1-to-1 channel;
/// - a typing notification starts or stops the sender's typing in its group, or in the sender's
///   1-to-1 channel;
/// - a synchronisation message without a sent message but with read receipts withdraws the
///   notifications of the messages read;
/// - anything else is ignored.
pub open spec fn incoming_of(c: Content, r: Incoming) -> bool {
    let sender = c.metadata.sender.spec_raw_uuid();
    let ts = c.metadata.timestamp;
    match c.body {
        ContentBody::DataMessage(dm) => data_message_for(r, c.metadata.sender, dm, sender, ts),
        ContentBody::SynchronizeMessage(sm) => {
            if sm.sent is Some && sm.sent->0.message is Some {
                let sent = sm.sent->0;
                let contact = match sent.destination {
                    Some(d) => d,
                    None => c.metadata.sender,
                };
                data_message_for(r, contact, sent.message->0, sender, ts)
            } else if sm.read.len() > 0 {
                r matches Incoming::WithdrawNotifications(v) && views(v@) == read_uids(
                    sm.read@,
                )
            } else {
                r == Incoming::Ignored
            }
        },
        ContentBody::CallMessage(cm) => r == Incoming::Message {
            channel: ChannelRef { contact: c.metadata.sender, group_v2: None },
            sender,
            timestamp: ts,
            kind: IncomingKind::Call(cm),
        },
        ContentBody::TypingMessage(tm) => {
            let target = match tm.group_id {
                Some(g) => TypingTarget::Group(g),
                None => TypingTarget::Contact(c.metadata.sender),
            };
            match tm.action {
                TypingAction::Started => r == Incoming::TypingStarted {
                    target,
                    sender,
                    timestamp: match tm.timestamp {
                        Some(t) => t,
                        None => 0,
                    },
                },
                TypingAction::Stopped => r == Incoming::TypingStopped { target, sender },
            }
        },
        _ => r == Incoming::Ignored,
    }
}

/// Copies bytes.
fn copy_bytes(v: &Vec<u8>) -> (r: Vec<u8>)
    ensures
        r@ == v@,
{
    let mut r: Vec<u8> = Vec::new();
    let mut i: usize = 0;
    while i < v.len()
        invariant
            i <= v@.len(),
            r@ == v@.take(i as int),
        decreases v.len() - i,
    {
        r.push(v[i]);
        assert(r@ =~= v@.take(i + 1));
        i += 1;
    }
    assert(v@.take(v@.len() as int) =~= v@);
    r
}

/// Copies a group context.
pub(crate) fn copy_group(g: &Option<GroupContext>) -> (r: Option<GroupContext>)
    ensures
        gc_view(r) == gc_view(*g),
{
    match g {
        Some(gc) => Some(
            GroupContext {
                master_key: match &gc.master_key {
                    Some(k) => Some(copy_bytes(k)),
                    None => None,
                },
            },
        ),
        None => None,
    }
}

/// The message of a data message for the channel of its group, or of `contact` (see
/// [data_message_for]).
fn message_of_data(dm: DataMessage, contact: ServiceId, sender: u128, timestamp: u64) -> (r: Incoming)
    ensures
        data_message_for(r, contact, dm, sender, timestamp),
{
    let group_v2 = copy_group(&dm.group_v2);
    let mut dm = dm;
    let kind = match dm.reaction.take() {
        Some(r) => IncomingKind::Reaction(r),
        None => match dm.delete {
            Some(d) => IncomingKind::Deletion(d),
            None => IncomingKind::Text(dm),
        },
    };
    Incoming::Message { channel: ChannelRef { contact, group_v2 }, sender, timestamp, kind }
}

/// The channel `channel` has the group context `g`: a group context where `g` is one, with the
/// same master key, and none where `g` is none.
pub open spec fn same_group(channel: ChannelRef, g: Option<GroupContext>) -> bool {
    match (channel.group_v2, g) {
        (Some(a), Some(b)) => match (a.master_key, b.master_key) {
            (Some(ka), Some(kb)) => ka@ == kb@,
            (None, None) => true,
            _ => false,
        },
        (None, None) => true,
        _ => false,
    }
}

/// A received data message goes to the channel of its group, with the same group context (the
/// same master key), where it belongs to a group, and to the 1-to-1 channel of its sender
/// otherwise; it keeps its sender and timestamp.
pub proof fn lemma_data_message_routed(c: Content, dm: DataMessage, r: Incoming)
    requires
        c.body == ContentBody::DataMessage(dm),
        incoming_of(c, r),
    ensures
        r is Message,
        r matches Incoming::Message { channel, sender, timestamp, .. } ==> {
            &&& channel.contact == c.metadata.sender
            &&& sender == c.metadata.sender.spec_raw_uuid()
            &&& timestamp == c.metadata.timestamp
            &&& same_group(channel, dm.group_v2)
        },
{
}

/// A message sent from another device of this account goes to the channel of its group, with
/// the same group context, where it belongs to a group, and otherwise to the 1-to-1 channel of
/// its destination.
pub proof fn lemma_sent_message_routed(
    c: Content,
    sm: SyncMessage,
    sent: Sent,
    dm: DataMessage,
    r: Incoming,
)
    requires
        c.body == ContentBody::SynchronizeMessage(sm),
        sm.sent == Some(sent),
        sent.message == Some(dm),
        incoming_of(c, r),
    ensures
        r is Message,
        r matches Incoming::Message { channel, .. } ==> {
            &&& same_group(channel, dm.group_v2)
            &&& sent.destination matches Some(d) ==> channel.contact == d
        },
{
}

/// The notification identifiers of the messages that read receipts name (see [read_uids]).
pub fn read_receipt_uids(rs: &Vec<ReadReceipt>) -> (r: Vec<String>)
    ensures
        views(r@) == read_uids(rs@),
{
    let mut out: Vec<String> = Vec::new();
    let mut i: usize = 0;
    while i < rs.len()
        invariant
            i <= rs@.len(),
            views(out@) == read_uids(rs@.take(i as int)),
        decreases rs.len() - i,
    {
        let ghost before = out@;
        assert(rs@.take(i + 1).drop_last() =~= rs@.take(i as int));
        match (rs[i].timestamp, rs[i].sender_aci) {
            (Some(t), Some(u)) => {
                let uid = message_uid(t, u);
                out.push(uid);
                assert(views(out@) =~= views(before).push(spec_uid(t, u)));
            },
            _ => {},
        }
        i += 1;
    }
    assert(rs@.take(rs@.len() as int) =~= rs@);
    out
}

impl Message {
    /// Classifies received or stored content: which channel it belongs to and what kind of
    /// message it is, or what else it asks for (see [incoming_of]).
    pub fn from_content(content: Content) -> (r: Incoming)
        ensures
            incoming_of(content, r),
    {
        let sender_id = content.metadata.sender;
        let sender = sender_id.raw_uuid();
        let ts = content.metadata.timestamp;
        match content.body {
            ContentBody::DataMessage(dm) => message_of_data(dm, sender_id, sender, ts),
            ContentBody::SynchronizeMessage(sm) => {
                let has_message = match &sm.sent {
                    Some(sent) => sent.message.is_some(),
                    None => false,
                };
                if has_message {
                    let sent = sm.sent.unwrap();
                    let contact = match sent.destination {
                        Some(d) => d,
                        None => sender_id,
                    };
                    message_of_data(sent.message.unwrap(), contact, sender, ts)
                } else if sm.read.len() > 0 {
                    Incoming::WithdrawNotifications(read_receipt_uids(&sm.read))
                } else {
                    Incoming::Ignored
                }
            },
            ContentBody::CallMessage(cm) => Incoming::Message {
                channel: ChannelRef { contact: sender_id, group_v2: None },
                sender,
                timestamp: ts,
                kind: IncomingKind::Call(cm),
            },
            ContentBody::TypingMessage(tm) => {
                let target = match tm.group_id {
                    Some(g) => TypingTarget::Group(g),
                    None => TypingTarget::Contact(sender_id),
                };
                match tm.action {
                    TypingAction::Started => Incoming::TypingStarted {
                        target,
                        sender,
                        timestamp: match tm.timestamp {
                            Some(t) => t,
                            None => 0,
                        },
                    },
                    TypingAction::Stopped => Incoming::TypingStopped { target, sender },
                }
            },
            _ => Incoming::Ignored,
        }
    }

    /// The message that a classified message becomes, once its channel and its sender's
    /// contact are known (see [built_message]).
    pub fn build(
        kind: IncomingKind,
        sender: u128,
        timestamp: u64,
        channel_active: bool,
        blocked: bool,
    ) -> (r: Option<Message>)
        ensures
            built_message(kind, sender, timestamp, channel_active, blocked, r),
    {
        if blocked {
            return None;
        }
        match kind {
            IncomingKind::Text(dm) => {
                if dm.body.is_none() && dm.attachments.len() == 0 && !dm.has_sticker {
                    None
                } else {
                    Some(
                        Message::Display(
                            DisplayMessage::Text(
                                TextMessage {
                                    sender,
                                    timestamp,
                                    read: channel_active,
                                    data: dm,
                                    reactions: Vec::new(),
                                    is_deleted: false,
                                    quote: None,
                                },
                            ),
                        ),
                    )
                }
            },
            IncomingKind::Reaction(reaction) => Some(
                Message::Reaction(
                    ReactionMessage { sender, timestamp, read: channel_active, reaction },
                ),
            ),
            IncomingKind::Deletion(deletion) => Some(
                Message::Deletion(DeletionMessage { sender, timestamp, read: false, deletion }),
            ),
            IncomingKind::Call(p) => match CallMessageType::try_from_payload(&p) {
                Some(call_type) => Some(
                    Message::Display(
                        DisplayMessage::Call(
                            CallMessage { sender, timestamp, read: false, call_type },
                        ),
                    ),
                ),
                None => None,
            },
        }
    }
}

/// `r` is the message that a classified message becomes: nothing from a blocked contact; a
/// text message without reactions, quote or deletion where it has a body, attachments or a
/// sticker, read where its channel is shown; a reaction, read where its channel is shown; an
/// unread deletion; an unread call event where the call payload names one.
pub open spec fn built_message(
    kind: IncomingKind,
    sender: u128,
    timestamp: u64,
    channel_active: bool,
    blocked: bool,
    r: Option<Message>,
) -> bool {
    if blocked {
        r is None
    } else {
        match kind {
            IncomingKind::Text(dm) => if dm.body is None && dm.attachments@.len() == 0
                && !dm.has_sticker {
                r is None
            } else {
                &&& r matches Some(Message::Display(DisplayMessage::Text(t)))
                &&& t.sender == sender && t.timestamp == timestamp && t.read == channel_active
                &&& t.data == dm && t.reactions@.len() == 0 && !t.is_deleted && t.quote is None
            },
            IncomingKind::Reaction(reaction) => r == Some(
                Message::Reaction(
                    ReactionMessage { sender, timestamp, read: channel_active, reaction },
                ),
            ),
            IncomingKind::Deletion(deletion) => r == Some(
                Message::Deletion(DeletionMessage { sender, timestamp, read: false, deletion }),
            ),
            IncomingKind::Call(p) => r == match spec_call_message_type(p) {
                Some(call_type) => Some(
                    Message::Display(
                        DisplayMessage::Call(
                            CallMessage { sender, timestamp, read: false, call_type },
                        ),
                    ),
                ),
                None => None,
            },
        }
    }
}

/// A read receipt that names a text message's data timestamp and sender withdraws exactly that
/// message's notification: the identifiers agree.
pub proof fn lemma_receipt_names_message(r: ReadReceipt, t: TextMessage)
    requires
        r.timestamp == t.data.timestamp,
        r.timestamp is Some,
        r.sender_aci == Some(t.sender),
    ensures
        read_uids(seq![r]) == seq![display_uid(DisplayMessage::Text(t))->0],
{
    let one = seq![r];
    assert(one.drop_last() =~= Seq::<ReadReceipt>::empty());
    assert(one.last() == r);
    assert(read_uids(one.drop_last()) == Seq::<Seq<char>>::empty());
    assert(read_uids(one) == Seq::<Seq<char>>::empty().push(spec_uid(r.timestamp->0, t.sender)));
    assert(read_uids(one) =~= seq![spec_uid(r.timestamp->0, t.sender)]);
}

} // verus!
