//! A light-weight representation of messages and channels, built directly from stored content.
use vstd::prelude::*;
use vstd::string::*;

use crate::content::{
    clone_pointers, AttachmentPointer, CallMessage, Content, ContentBody, DataMessage, GroupContext,
    Quote, Sent, ServiceId,
};
use crate::text::{join, join_strings, owned, starts_with, str_starts_with, views};

verus! {

/// The identity of a channel: a contact's UUID or a group's master key.
#[derive(Clone, Copy, Debug)]
pub enum ChannelId {
    Contact(u128),
    Group([u8; 32]),
}

/// The identity of a channel with the group key as a sequence of bytes.
pub enum ChannelKey {
    Contact(u128),
    Group(Seq<u8>),
}

/// The key of a channel identity.
pub open spec fn channel_key(c: ChannelId) -> ChannelKey {
    match c {
        ChannelId::Contact(u) => ChannelKey::Contact(u),
        ChannelId::Group(k) => ChannelKey::Group(k@),
    }
}

/// The key of an optional channel identity.
pub open spec fn opt_channel_key(c: Option<ChannelId>) -> Option<ChannelKey> {
    match c {
        Some(c) => Some(channel_key(c)),
        None => None,
    }
}

/// What a stored conversation is attached to: a contact or a group.
#[derive(Clone, Copy, Debug)]
pub enum Thread {
    Contact(ServiceId),
    Group([u8; 32]),
}

/// The quoted message of a message: its timestamp and text.
#[derive(Debug)]
pub struct QuoteData {
    pub ts: u64,
    pub text: Option<String>,
}

/// The kind of a call event.
#[derive(Clone, Copy, Debug, PartialEq, Eq, Structural)]
pub enum CallType {
    /// Incoming or outgoing call.
    Offer,
    /// Call started.
    Answer,
    /// Call ended.
    Hangup,
    /// Declined or missed.
    Busy,
}

/// The kind of call event that a call message describes, if any; the offer takes precedence,
/// then the hang-up, the answer and the busy signal.
pub open spec fn spec_call_type(cm: CallMessage) -> Option<CallType> {
    if cm.offer {
        Some(CallType::Offer)
    } else if cm.hangup {
        Some(CallType::Hangup)
    } else if cm.answer {
        Some(CallType::Answer)
    } else if cm.busy {
        Some(CallType::Busy)
    } else {
        None
    }
}

/// The text shown for a call event.
pub open spec fn call_text(ct: CallType, is_outgoing: bool) -> Seq<char> {
    match ct {
        CallType::Offer => if is_outgoing {
            "Outgoing call"@
        } else {
            "Incoming call"@
        },
        CallType::Answer => "Call started"@,
        CallType::Hangup => "Call ended"@,
        CallType::Busy => if is_outgoing {
            "Unanswered call"@
        } else {
            "Call declined"@
        },
    }
}

impl CallType {
    /// The kind of call event of a call message.
    pub fn from_call_message(cm: &CallMessage) -> (r: Option<Self>)
        ensures
            r == spec_call_type(*cm),
    {
        if cm.offer {
            Some(CallType::Offer)
        } else if cm.hangup {
            Some(CallType::Hangup)
        } else if cm.answer {
            Some(CallType::Answer)
        } else if cm.busy {
            Some(CallType::Busy)
        } else {
            None
        }
    }

    /// The text shown for this call event, from the point of view of the caller or callee.
    pub fn display_text(&self, is_outgoing: bool) -> (r: String)
        ensures
            r@ == call_text(*self, is_outgoing),
    {
        match self {
            CallType::Offer => {
                if is_outgoing {
                    owned("Outgoing call")
                } else {
                    owned("Incoming call")
                }
            },
            CallType::Answer => owned("Call started"),
            CallType::Hangup => owned("Call ended"),
            CallType::Busy => {
                if is_outgoing {
                    owned("Unanswered call")
                } else {
                    owned("Call declined")
                }
            },
        }
    }
}

/// A message as shown in the light-weight interface.
#[derive(Debug)]
pub struct CoreMessage {
    pub channel_id: Option<ChannelId>,
    pub sender: ServiceId,
    pub sender_name: String,
    pub timestamp: u64,
    pub body: Option<String>,
    pub is_outgoing: bool,
    pub is_reaction: bool,
    pub reaction_target_ts: Option<u64>,
    pub is_receipt: bool,
    pub is_call: bool,
    pub call_type: Option<CallType>,
    pub is_typing: bool,
    pub reaction_remove: bool,
    pub attachments: Vec<AttachmentPointer>,
    pub quote: Option<QuoteData>,
    /// Path to a locally cached image file for the first image attachment, if downloaded.
    pub image_path: Option<String>,
    /// Path to a locally cached video file, if downloaded.
    pub video_path: Option<String>,
    /// Path to a locally cached audio file, if downloaded.
    pub audio_path: Option<String>,
    /// Path to a locally cached generic file, if downloaded.
    pub file_path: Option<String>,
}

/// The characters of an optional string.
pub open spec fn opt_view(o: Option<String>) -> Option<Seq<char>> {
    match o {
        Some(s) => Some(s@),
        None => None,
    }
}

/// The characters of an optional string, or nothing.
pub open spec fn opt_chars(o: Option<String>) -> Seq<char> {
    match o {
        Some(s) => s@,
        None => seq![],
    }
}

/// The abstract value of a [CoreMessage].
pub struct CoreMessageView {
    pub channel: Option<ChannelKey>,
    pub sender: ServiceId,
    pub sender_name: Seq<char>,
    pub timestamp: u64,
    pub body: Option<Seq<char>>,
    pub is_outgoing: bool,
    pub is_reaction: bool,
    pub reaction_target_ts: Option<u64>,
    pub is_receipt: bool,
    pub is_call: bool,
    pub call_type: Option<CallType>,
    pub is_typing: bool,
    pub reaction_remove: bool,
    pub attachments: Seq<AttachmentPointer>,
    pub quote: Option<(u64, Option<Seq<char>>)>,
    pub image_path: Option<Seq<char>>,
    pub video_path: Option<Seq<char>>,
    pub audio_path: Option<Seq<char>>,
    pub file_path: Option<Seq<char>>,
}

impl View for CoreMessage {
    type V = CoreMessageView;

    open spec fn view(&self) -> CoreMessageView {
        CoreMessageView {
            channel: opt_channel_key(self.channel_id),
            sender: self.sender,
            sender_name: self.sender_name@,
            timestamp: self.timestamp,
            body: opt_view(self.body),
            is_outgoing: self.is_outgoing,
            is_reaction: self.is_reaction,
            reaction_target_ts: self.reaction_target_ts,
            is_receipt: self.is_receipt,
            is_call: self.is_call,
            call_type: self.call_type,
            is_typing: self.is_typing,
            reaction_remove: self.reaction_remove,
            attachments: self.attachments@,
            quote: match self.quote {
                Some(q) => Some((q.ts, opt_view(q.text))),
                None => None,
            },
            image_path: opt_view(self.image_path),
            video_path: opt_view(self.video_path),
            audio_path: opt_view(self.audio_path),
            file_path: opt_view(self.file_path),
        }
    }
}

/// The icon put before an attachment's name, chosen by its content type.
pub open spec fn attachment_icon(ct: Seq<char>) -> Seq<char> {
    if starts_with(ct, "image/"@) {
        "\u{1F5BC}"@
    } else if starts_with(ct, "video/"@) {
        "\u{1F3AC}"@
    } else if starts_with(ct, "audio/"@) {
        "\u{1F3B5}"@
    } else {
        "\u{1F4CE}"@
    }
}

/// The line describing an attachment: its icon, then its file name or the word "Attachment".
pub open spec fn attachment_line(p: AttachmentPointer) -> Seq<char> {
    let name = opt_chars(p.file_name);
    let icon = attachment_icon(opt_chars(p.content_type));
    if name.len() > 0 {
        icon + " "@ + name
    } else {
        icon + " Attachment"@
    }
}

/// The lines describing the attachments, one per line.
pub open spec fn attachments_text(ps: Seq<AttachmentPointer>) -> Seq<char> {
    join(ps.map_values(|p: AttachmentPointer| attachment_line(p)), "\n"@)
}

fn opt_str(o: &Option<String>) -> (r: &str)
    ensures
        r@ == opt_chars(*o),
{
    match o {
        Some(s) => s.as_str(),
        None => {
            proof {
                reveal_strlit("");
            }
            ""
        },
    }
}

/// Describes an attachment on one line.
pub fn format_attachment(att: &AttachmentPointer) -> (r: String)
    ensures
        r@ == attachment_line(*att),
{
    let name = opt_str(&att.file_name);
    let ct = opt_str(&att.content_type);
    let icon = if str_starts_with(ct, "image/") {
        "\u{1F5BC}"
    } else if str_starts_with(ct, "video/") {
        "\u{1F3AC}"
    } else if str_starts_with(ct, "audio/") {
        "\u{1F3B5}"
    } else {
        "\u{1F4CE}"
    };
    let mut r = owned(icon);
    if !name.is_empty() {
        r.append(" ");
        r.append(name);
    } else {
        r.append(" Attachment");
    }
    r
}

/// Describes attachments, one per line.
pub fn format_attachments(atts: &Vec<AttachmentPointer>) -> (r: String)
    ensures
        r@ == attachments_text(atts@),
{
    let mut lines: Vec<String> = Vec::new();
    let mut i: usize = 0;
    while i < atts.len()
        invariant
            i <= atts.len(),
            lines@.len() == i,
            views(lines@) == atts@.take(i as int).map_values(
                |p: AttachmentPointer| attachment_line(p),
            ),
        decreases atts.len() - i,
    {
        let line = format_attachment(&atts[i]);
        let ghost old_lines = lines@;
        lines.push(line);
        assert(lines@ == old_lines.push(line));
        assert forall|j: int| 0 <= j < i + 1 implies views(lines@)[j] == atts@.take(i + 1).map_values(
            |p: AttachmentPointer| attachment_line(p),
        )[j] by {
            if j < i {
                assert(views(old_lines)[j] == old_lines[j]@);
            }
        }
        assert(views(lines@) =~= atts@.take(i + 1).map_values(
            |p: AttachmentPointer| attachment_line(p),
        ));
        i += 1;
    }
    assert(atts@.take(atts.len() as int) =~= atts@);
    join_strings(&lines, "\n")
}

/// The body text of a data message: its text followed by the lines of its attachments, or a
/// sticker marker, or nothing.
pub open spec fn data_body(dm: DataMessage) -> Option<Seq<char>> {
    if dm.attachments@.len() > 0 {
        let att = attachments_text(dm.attachments@);
        match dm.body {
            Some(t) => Some(t@ + "\n"@ + att),
            None => Some(att),
        }
    } else if dm.body is Some {
        opt_view(dm.body)
    } else if dm.has_sticker {
        Some("[Sticker]"@)
    } else {
        None
    }
}

fn data_body_exec(dm: &DataMessage) -> (r: Option<String>)
    ensures
        opt_view(r) == data_body(*dm),
{
    if dm.attachments.len() > 0 {
        let att = format_attachments(&dm.attachments);
        match &dm.body {
            Some(t) => {
                let mut s = owned(t.as_str());
                s.append("\n");
                s.append(att.as_str());
                Some(s)
            },
            None => Some(att),
        }
    } else if let Some(t) = &dm.body {
        Some(owned(t.as_str()))
    } else if dm.has_sticker {
        Some(owned("[Sticker]"))
    } else {
        None
    }
}

/// The group key of a group context: its master key where it has 32 bytes.
pub open spec fn group_key(g: Option<GroupContext>) -> Option<Seq<u8>> {
    match g {
        Some(gc) => match gc.master_key {
            Some(k) => if k@.len() == 32 {
                Some(k@)
            } else {
                None
            },
            None => None,
        },
        None => None,
    }
}

/// The channel of a contact: the contact's channel for an account identity, none otherwise.
pub open spec fn contact_channel(sender: ServiceId) -> Option<ChannelKey> {
    match sender {
        ServiceId::Aci(u) => Some(ChannelKey::Contact(u)),
        ServiceId::Pni(_) => None,
    }
}

/// The channel of a data message: its group where it has a valid group key, else the sender's
/// contact channel.
pub open spec fn data_channel(sender: ServiceId, g: Option<GroupContext>) -> Option<ChannelKey> {
    match group_key(g) {
        Some(k) => Some(ChannelKey::Group(k)),
        None => contact_channel(sender),
    }
}

/// Copies 32 bytes into a group key.
pub fn key_from_bytes(v: &Vec<u8>) -> (r: [u8; 32])
    requires
        v@.len() == 32,
    ensures
        r@ == v@,
{
    let mut key = [0u8; 32];
    let mut i: usize = 0;
    while i < 32
        invariant
            i <= 32,
            v@.len() == 32,
            forall|j: int| 0 <= j < i ==> key@[j] == v@[j],
        decreases 32 - i,
    {
        key[i] = v[i];
        i += 1;
    }
    assert(key@ =~= v@);
    key
}

fn contact_channel_exec(sender: ServiceId) -> (r: Option<ChannelId>)
    ensures
        opt_channel_key(r) == contact_channel(sender),
{
    match sender {
        ServiceId::Aci(u) => Some(ChannelId::Contact(u)),
        ServiceId::Pni(_) => None,
    }
}

/// The channel that a data message belongs to: its group, where the group context holds a
/// 32-byte master key, else the sender's contact channel.
pub fn channel_id_from_data(sender: ServiceId, group_v2: &Option<GroupContext>) -> (r: Option<
    ChannelId,
>)
    ensures
        opt_channel_key(r) == data_channel(sender, *group_v2),
{
    if let Some(gv2) = group_v2 {
        if let Some(key_bytes) = &gv2.master_key {
            if key_bytes.len() == 32 {
                let key = key_from_bytes(key_bytes);
                return Some(ChannelId::Group(key));
            }
        }
    }
    contact_channel_exec(sender)
}

/// The quote of a data message, where it names the quoted message's timestamp.
pub open spec fn quote_of(q: Option<Quote>) -> Option<(u64, Option<Seq<char>>)> {
    match q {
        Some(q) => match q.id {
            Some(ts) => Some((ts, opt_view(q.text))),
            None => None,
        },
        None => None,
    }
}

fn quote_exec(q: &Option<Quote>) -> (r: Option<QuoteData>)
    ensures
        (match r {
            Some(q) => Some((q.ts, opt_view(q.text))),
            None => None,
        }) == quote_of(*q),
{
    match q {
        Some(q) => match q.id {
            Some(ts) => Some(QuoteData { ts, text: q.text.clone() }),
            None => None,
        },
        None => None,
    }
}

/// The view of a message built from content: everything not given is empty or false.
pub open spec fn base_view(c: Content) -> CoreMessageView {
    CoreMessageView {
        channel: None,
        sender: c.metadata.sender,
        sender_name: c.metadata.sender_label@,
        timestamp: c.metadata.timestamp,
        body: None,
        is_outgoing: false,
        is_reaction: false,
        reaction_target_ts: None,
        is_receipt: false,
        is_call: false,
        call_type: None,
        is_typing: false,
        reaction_remove: false,
        attachments: seq![],
        quote: None,
        image_path: None,
        video_path: None,
        audio_path: None,
        file_path: None,
    }
}

/// The channel of a typing notification: its group where the group id has 32 bytes (none for
/// another length), else the sender's contact channel.
pub open spec fn typing_channel(sender: ServiceId, group_id: Option<Vec<u8>>) -> Option<
    ChannelKey,
> {
    match group_id {
        Some(g) => if g@.len() == 32 {
            Some(ChannelKey::Group(g@))
        } else {
            None
        },
        None => contact_channel(sender),
    }
}

/// The channel of a message sent from another device: the group of the message where it has a
/// group context, else the destination where it is an account identity.
pub open spec fn sent_channel(sender: ServiceId, sent: Sent, dm: DataMessage) -> Option<
    ChannelKey,
> {
    if dm.group_v2 is Some {
        data_channel(sender, dm.group_v2)
    } else {
        match sent.destination {
            Some(ServiceId::Aci(u)) => Some(ChannelKey::Contact(u)),
            _ => None,
        }
    }
}

/// What the light-weight interface shows of content, if anything.
pub open spec fn core_message_of(c: Content) -> Option<CoreMessageView> {
    let base = base_view(c);
    let sender = c.metadata.sender;
    match c.body {
        ContentBody::DataMessage(dm) => match dm.reaction {
            Some(r) => Some(
                CoreMessageView {
                    channel: data_channel(sender, dm.group_v2),
                    body: opt_view(r.emoji),
                    is_reaction: true,
                    reaction_remove: r.remove == Some(true),
                    reaction_target_ts: r.target_sent_timestamp,
                    ..base
                },
            ),
            None => Some(
                CoreMessageView {
                    channel: data_channel(sender, dm.group_v2),
                    body: data_body(dm),
                    attachments: dm.attachments@,
                    quote: quote_of(dm.quote),
                    ..base
                },
            ),
        },
        ContentBody::SynchronizeMessage(sm) => match sm.sent {
            Some(sent) => match sent.message {
                Some(dm) => Some(
                    CoreMessageView {
                        channel: sent_channel(sender, sent, dm),
                        body: match dm.reaction {
                            Some(r) => opt_view(r.emoji),
                            None => data_body(dm),
                        },
                        is_outgoing: true,
                        is_reaction: dm.reaction is Some,
                        reaction_remove: match dm.reaction {
                            Some(r) => r.remove == Some(true),
                            None => false,
                        },
                        reaction_target_ts: match dm.reaction {
                            Some(r) => r.target_sent_timestamp,
                            None => None,
                        },
                        attachments: dm.attachments@,
                        quote: match dm.reaction {
                            Some(_) => None,
                            None => quote_of(dm.quote),
                        },
                        ..base
                    },
                ),
                None => None,
            },
            None => None,
        },
        ContentBody::CallMessage(cm) => Some(
            CoreMessageView {
                channel: contact_channel(sender),
                body: match spec_call_type(cm) {
                    Some(ct) => Some(call_text(ct, false)),
                    None => None,
                },
                is_call: true,
                call_type: spec_call_type(cm),
                ..base
            },
        ),
        ContentBody::TypingMessage(tm) => Some(
            CoreMessageView {
                channel: typing_channel(sender, tm.group_id),
                is_typing: true,
                ..base
            },
        ),
        ContentBody::ReceiptMessage => Some(
            CoreMessageView { channel: contact_channel(sender), is_receipt: true, ..base },
        ),
        ContentBody::Other => None,
    }
}

/// The view of an optional message.
pub open spec fn opt_message_view(m: Option<CoreMessage>) -> Option<CoreMessageView> {
    match m {
        Some(m) => Some(m@),
        None => None,
    }
}

impl CoreMessage {
    fn base(content: &Content) -> (r: CoreMessage)
        ensures
            r@ == base_view(*content),
    {
        CoreMessage {
            channel_id: None,
            sender: content.metadata.sender,
            sender_name: owned(content.metadata.sender_label.as_str()),
            timestamp: content.metadata.timestamp,
            body: None,
            is_outgoing: false,
            is_reaction: false,
            reaction_target_ts: None,
            is_receipt: false,
            is_call: false,
            call_type: None,
            is_typing: false,
            reaction_remove: false,
            attachments: Vec::new(),
            quote: None,
            image_path: None,
            video_path: None,
            audio_path: None,
            file_path: None,
        }
    }

    /// Builds the message that the light-weight interface shows for received or stored content:
    /// text messages (also those sent from another device), reactions, calls, typing
    /// notifications and receipts. Other content gives no message.
    pub fn from_content(content: &Content) -> (r: Option<Self>)
        ensures
            opt_message_view(r) == core_message_of(*content),
    {
        let sender = content.metadata.sender;
        match &content.body {
            ContentBody::DataMessage(dm) => {
                let channel_id = channel_id_from_data(sender, &dm.group_v2);
                let mut m = Self::base(content);
                m.channel_id = channel_id;
                if let Some(r) = &dm.reaction {
                    m.body = r.emoji.clone();
                    m.is_reaction = true;
                    m.reaction_remove = match r.remove {
                        Some(b) => b,
                        None => false,
                    };
                    m.reaction_target_ts = r.target_sent_timestamp;
                    return Some(m);
                }
                m.quote = quote_exec(&dm.quote);
                m.body = data_body_exec(dm);
                m.attachments = clone_pointers(&dm.attachments);
                Some(m)
            },
            ContentBody::SynchronizeMessage(sm) => {
                if let Some(sent) = &sm.sent {
                    if let Some(dm) = &sent.message {
                        let channel_id = if dm.group_v2.is_some() {
                            channel_id_from_data(sender, &dm.group_v2)
                        } else {
                            match sent.destination {
                                Some(ServiceId::Aci(u)) => Some(ChannelId::Contact(u)),
                                _ => None,
                            }
                        };
                        let mut m = Self::base(content);
                        m.channel_id = channel_id;
                        m.is_outgoing = true;
                        m.attachments = clone_pointers(&dm.attachments);
                        match &dm.reaction {
                            Some(r) => {
                                m.body = r.emoji.clone();
                                m.is_reaction = true;
                                m.reaction_target_ts = r.target_sent_timestamp;
                                m.reaction_remove = match r.remove {
                                    Some(b) => b,
                                    None => false,
                                };
                            },
                            None => {
                                m.quote = quote_exec(&dm.quote);
                                m.body = data_body_exec(dm);
                            },
                        }
                        return Some(m);
                    }
                }
                None
            },
            ContentBody::CallMessage(cm) => {
                let mut m = Self::base(content);
                m.channel_id = contact_channel_exec(sender);
                let call_type = CallType::from_call_message(cm);
                m.body = match call_type {
                    Some(ct) => Some(ct.display_text(false)),
                    None => None,
                };
                m.is_call = true;
                m.call_type = call_type;
                Some(m)
            },
            ContentBody::TypingMessage(tm) => {
                let mut m = Self::base(content);
                m.channel_id = match &tm.group_id {
                    Some(group_id) => {
                        if group_id.len() == 32 {
                            Some(ChannelId::Group(key_from_bytes(group_id)))
                        } else {
                            None
                        }
                    },
                    None => contact_channel_exec(sender),
                };
                m.is_typing = true;
                Some(m)
            },
            ContentBody::ReceiptMessage => {
                let mut m = Self::base(content);
                m.channel_id = contact_channel_exec(sender);
                m.is_receipt = true;
                Some(m)
            },
            ContentBody::Other => None,
        }
    }
}

/// The thread of stored messages that belongs to a channel.
pub fn thread_for_channel(channel_id: &ChannelId) -> (r: Thread)
    ensures
        match *channel_id {
            ChannelId::Contact(u) => r == Thread::Contact(ServiceId::Aci(u)),
            ChannelId::Group(k) => r == Thread::Group(k),
        },
{
    match channel_id {
        ChannelId::Contact(uuid) => Thread::Contact(ServiceId::Aci(*uuid)),
        ChannelId::Group(key) => Thread::Group(*key),
    }
}

} // verus!
