//! Writing messages: the message that this account sends, its quote, reactions and deletions
//! that it sends, the attachments waiting to be sent, and where a channel's messages go.
use vstd::prelude::*;

use crate::attachment::{Attachment, AttachmentType};
use crate::channel::{Channel, quote_data};
use crate::content::{DataMessage, Delete, GroupContext, Quote, Reaction, ServiceId};
use crate::core_model::opt_view;
use crate::incoming::{copy_group, gc_view};
use crate::message::{
    reacted_entries, reaction_map, DisplayMessage, QuotedMessage, TextMessage,
};
use crate::text::{owned, uuid_string, uuid_text};

verus! {

/// A data message that carries nothing else than what the given clauses say: no attachments,
/// group, reaction, quote, sticker, deletion or mentions beyond them.
pub open spec fn bare_data(d: DataMessage) -> bool {
    &&& d.attachments@.len() == 0
    &&& d.group_v2 is None
    &&& !d.has_sticker
    &&& d.body_ranges@.len() == 0
}

/// An empty data message sent at `timestamp`.
fn data_at(timestamp: u64) -> (r: DataMessage)
    ensures
        bare_data(r),
        r.body is None,
        r.reaction is None,
        r.quote is None,
        r.delete is None,
        r.timestamp == Some(timestamp),
{
    DataMessage {
        body: None,
        attachments: Vec::new(),
        group_v2: None,
        reaction: None,
        quote: None,
        has_sticker: false,
        delete: None,
        timestamp: Some(timestamp),
        body_ranges: Vec::new(),
    }
}

impl TextMessage {
    /// A message of `sender` (this account) with the text `text`, written at `timestamp`: its
    /// data holds the text as body, none for an empty text, and the timestamp; it is unread,
    /// without reactions, quote or deletion.
    pub fn from_text_channel_sender(text: &str, sender: u128, timestamp: u64) -> (r: TextMessage)
        ensures
            r.sender == sender,
            r.timestamp == timestamp,
            !r.read,
            r.reactions@.len() == 0,
            !r.is_deleted,
            r.quote is None,
            bare_data(r.data),
            opt_view(r.data.body) == if text@.len() == 0 {
                None::<Seq<char>>
            } else {
                Some(text@)
            },
            r.data.timestamp == Some(timestamp),
            r.data.reaction is None,
            r.data.quote is None,
            r.data.delete is None,
    {
        let mut data = data_at(timestamp);
        if text.unicode_len() > 0 {
            data.body = Some(owned(text));
        }
        TextMessage {
            sender,
            timestamp,
            read: false,
            data,
            reactions: Vec::new(),
            is_deleted: false,
            quote: None,
        }
    }

    /// Quotes `q`: the message keeps it, and its data carries the quote (see [quote_data]).
    pub fn set_quote(&mut self, q: QuotedMessage)
        ensures
            final(self).quote == Some(q),
            final(self).data.quote matches Some(dq) && (dq.id, opt_view(dq.author_aci), opt_view(
                dq.text,
            )) == quote_data(q),
            final(self).data == (DataMessage { quote: final(self).data.quote, ..old(self).data }),
            final(self).sender == old(self).sender,
            final(self).timestamp == old(self).timestamp,
            final(self).read == old(self).read,
            final(self).reactions == old(self).reactions,
            final(self).is_deleted == old(self).is_deleted,
    {
        let dq = Quote {
            id: Some(q.timestamp),
            author_aci: match q.author {
                Some(a) => Some(uuid_string(a)),
                None => None,
            },
            text: match &q.body {
                Some(b) => Some(owned(b.as_str())),
                None => None,
            },
        };
        self.data.quote = Some(dq);
        self.quote = Some(q);
    }

    /// The reaction with `emoji` that this account (`own`) sends to this message, applied here
    /// too: it removes the account's reaction where it has one; it names the message's
    /// timestamp and, where the sender is known (`author`), its sender.
    pub fn send_reaction(&mut self, own: u128, emoji: &str, author: Option<u128>) -> (r: Reaction)
        ensures
            opt_view(r.emoji) == Some(emoji@),
            r.remove == Some(reaction_map(old(self).reactions@).dom().contains(own)),
            opt_view(r.target_author_aci) == match author {
                Some(a) => Some(uuid_text(a)),
                None => None::<Seq<char>>,
            },
            r.target_author_aci_binary is None,
            r.target_sent_timestamp == Some(old(self).timestamp),
            final(self).reactions@ == reacted_entries(old(self).reactions@, own, r),
            final(self).sender == old(self).sender,
            final(self).timestamp == old(self).timestamp,
            final(self).read == old(self).read,
            final(self).data == old(self).data,
            final(self).is_deleted == old(self).is_deleted,
            final(self).quote == old(self).quote,
    {
        let had = self.has_reaction_from(own);
        let reaction = Reaction {
            emoji: Some(owned(emoji)),
            remove: Some(had),
            target_author_aci: match author {
                Some(a) => Some(uuid_string(a)),
                None => None,
            },
            target_author_aci_binary: None,
            target_sent_timestamp: Some(self.timestamp),
        };
        self.react(own, reaction.clone());
        reaction
    }

    /// Deletes the message: it is marked deleted, and the deletion request names its timestamp.
    pub fn delete(&mut self) -> (r: Delete)
        ensures
            r.target_sent_timestamp == Some(old(self).timestamp),
            *final(self) == (TextMessage { is_deleted: true, ..*old(self) }),
    {
        self.is_deleted = true;
        Delete { target_sent_timestamp: Some(self.timestamp) }
    }
}

/// The data message that sends a reaction at `timestamp`.
pub fn reaction_data(reaction: Reaction, timestamp: u64) -> (r: DataMessage)
    ensures
        bare_data(r),
        r.body is None,
        r.reaction == Some(reaction),
        r.quote is None,
        r.delete is None,
        r.timestamp == Some(timestamp),
{
    let mut d = data_at(timestamp);
    d.reaction = Some(reaction);
    d
}

/// The data message that sends a deletion at `timestamp`.
pub fn deletion_data(delete: Delete, timestamp: u64) -> (r: DataMessage)
    ensures
        bare_data(r),
        r.body is None,
        r.reaction is None,
        r.quote is None,
        r.delete == Some(delete),
        r.timestamp == Some(timestamp),
{
    let mut d = data_at(timestamp);
    d.delete = Some(delete);
    d
}

/// Where the messages of a channel go.
#[derive(Debug)]
pub enum SendTarget {
    /// To the contact with this account identity.
    Contact(ServiceId),
    /// To the group with this master key.
    Group(Vec<u8>),
    /// Nowhere: the channel has neither a contact in the contact list nor a group key.
    Nobody,
}

impl Channel {
    /// Where the channel's messages go: to the contact where it is in the contact list, else to
    /// the group where the group context has a master key, else nowhere.
    pub fn send_target(&self) -> (r: SendTarget)
        ensures
            match self.contact {
                Some(c) if c.contact is Some => r == SendTarget::Contact(
                    ServiceId::Aci(c.contact->0.uuid),
                ),
                _ => match self.group_context {
                    Some(gc) => match gc.master_key {
                        Some(k) => r matches SendTarget::Group(v) && v@ == k@,
                        None => r is Nobody,
                    },
                    None => r is Nobody,
                },
            },
    {
        match &self.contact {
            Some(c) => match &c.contact {
                Some(sc) => {
                    return SendTarget::Contact(ServiceId::Aci(sc.uuid));
                },
                None => {},
            },
            None => {},
        }
        match &self.group_context {
            Some(gc) => match &gc.master_key {
                Some(k) => SendTarget::Group(k.clone()),
                None => SendTarget::Nobody,
            },
            None => SendTarget::Nobody,
        }
    }
}

impl Channel {
    /// The data message as it is sent from this channel: to a contact of the contact list as it
    /// is; otherwise it carries the channel's group context (none where the channel has none).
    pub fn outgoing_data(&self, data: DataMessage) -> (r: DataMessage)
        ensures
            match self.contact {
                Some(c) if c.contact is Some => r == data,
                _ => r == (DataMessage { group_v2: r.group_v2, ..data }) && gc_view(r.group_v2)
                    == gc_view(self.group_context),
            },
    {
        let to_contact = match &self.contact {
            Some(c) => c.contact.is_some(),
            None => false,
        };
        if to_contact {
            data
        } else {
            let mut data = data;
            data.group_v2 = copy_group(&self.group_context);
            data
        }
    }
}

/// The attachments that wait to be sent with the next message, and the message it replies to.
#[derive(Debug)]
pub struct Composer {
    pub attachments: Vec<Attachment>,
    pub reply: Option<QuotedMessage>,
}

/// Whether an attachment is sent only alone: files are.
pub open spec fn is_file(a: Attachment) -> bool {
    a.spec_type() == AttachmentType::File
}

impl Composer {
    /// Nothing waits to be sent.
    pub fn new() -> (r: Self)
        ensures
            r.attachments@.len() == 0,
            r.reply is None,
    {
        Composer { attachments: Vec::new(), reply: None }
    }

    /// Adds an attachment: a file is sent alone, so adding a file, or adding anything to a file,
    /// first removes the attachments that wait.
    pub fn append_attachment(&mut self, a: Attachment)
        ensures
            final(self).reply == old(self).reply,
            final(self).attachments@ == if is_file(a) || exists|i: int|
                0 <= i < old(self).attachments@.len() && is_file(
                    #[trigger] old(self).attachments@[i],
                ) {
                seq![a]
            } else {
                old(self).attachments@.push(a)
            },
    {
        let mut any_file = false;
        let mut i: usize = 0;
        while i < self.attachments.len()
            invariant
                i <= self.attachments@.len(),
                any_file == exists|j: int| 0 <= j < i && is_file(#[trigger] self.attachments@[j]),
            decreases self.attachments.len() - i,
        {
            if self.attachments[i].is_file() {
                any_file = true;
            }
            i += 1;
        }
        if a.is_file() || any_file {
            self.attachments = Vec::new();
        }
        self.attachments.push(a);
        proof {
            if !(is_file(a) || exists|i: int|
                0 <= i < old(self).attachments@.len() && is_file(
                    #[trigger] old(self).attachments@[i],
                )) {
            } else {
                assert(self.attachments@ =~= seq![a]);
            }
        }
    }

    /// Takes what waits to be sent, for the next message: the attachments and the message it
    /// replies to; nothing waits afterwards.
    pub fn take(&mut self) -> (r: (Vec<Attachment>, Option<QuotedMessage>))
        ensures
            r.0 == old(self).attachments,
            r.1 == old(self).reply,
            final(self).attachments@.len() == 0,
            final(self).reply is None,
    {
        let mut attachments: Vec<Attachment> = Vec::new();
        std::mem::swap(&mut attachments, &mut self.attachments);
        let reply = self.reply.take();
        (attachments, reply)
    }
}

/// Whether sending is asked for something: a text or attachments.
pub fn has_content(text: &str, attachments: &Vec<Attachment>) -> (r: bool)
    ensures
        r == (text@.len() > 0 || attachments@.len() > 0),
{
    text.unicode_len() > 0 || attachments.len() > 0
}

} // verus!
