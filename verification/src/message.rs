//! Messages of a channel: text messages, call events, reactions and deletions.
use vstd::prelude::*;

use crate::content::{CallMessage as CallPayload, DataMessage, Delete, Reaction};
use crate::text::{hex, push_hex, uuid_string, uuid_text};

verus! {

/// At least this many milliseconds need to pass between two messages of the same sender for the
/// second one to show the sender's avatar and name again.
pub const MESSAGE_SENT_SHOW_NAME_DURATION: u64 = 240000;

/// At least this many milliseconds need to pass between two messages of the same sender for the
/// first one to show its timestamp.
pub const MESSAGE_SENT_SHOW_TIMESTAMP_DURATION: u64 = 60000;

/// The kind of a call event.
#[derive(Clone, Copy, Debug, PartialEq, Eq, Structural)]
pub enum CallMessageType {
    Offer,
    Answer,
    Hangup,
    Busy,
}

/// The kind of call event of a call payload: the offer takes precedence, then the hang-up, the
/// answer and the busy signal.
pub open spec fn spec_call_message_type(p: CallPayload) -> Option<CallMessageType> {
    if p.offer {
        Some(CallMessageType::Offer)
    } else if p.hangup {
        Some(CallMessageType::Hangup)
    } else if p.answer {
        Some(CallMessageType::Answer)
    } else if p.busy {
        Some(CallMessageType::Busy)
    } else {
        None
    }
}

impl CallMessageType {
    /// The kind of call event of a call payload; `None` where the payload holds none of them.
    pub fn try_from_payload(p: &CallPayload) -> (r: Option<Self>)
        ensures
            r == spec_call_message_type(*p),
    {
        if p.offer {
            Some(CallMessageType::Offer)
        } else if p.hangup {
            Some(CallMessageType::Hangup)
        } else if p.answer {
            Some(CallMessageType::Answer)
        } else if p.busy {
            Some(CallMessageType::Busy)
        } else {
            None
        }
    }

    /// The untranslated text that describes the call event, depending on whether this account
    /// sent it.
    pub fn description_msgid(&self, from_self: bool) -> (r: &'static str)
        ensures
            r@ == call_description(*self, from_self),
    {
        match (self, from_self) {
            (CallMessageType::Offer, false) => "Incoming call",
            (CallMessageType::Offer, true) => "Outgoing call",
            (CallMessageType::Answer, _) => "Call started",
            (CallMessageType::Hangup, _) => "Call ended",
            (CallMessageType::Busy, false) => "Call declined",
            (CallMessageType::Busy, true) => "Unanswered call",
        }
    }

    /// The name of the icon that shows the call event.
    pub fn icon_name(&self, from_self: bool) -> (r: &'static str)
        ensures
            r@ == call_icon(*self, from_self),
    {
        match (self, from_self) {
            (CallMessageType::Offer, false) => "call-incoming-symbolic",
            (CallMessageType::Offer, true) => "call-outcoming-symbolic",
            (CallMessageType::Answer, _) => "call-start-symbolic",
            (CallMessageType::Hangup, _) => "call-stop-symbolic",
            (CallMessageType::Busy, _) => "call-missed-symbolic",
        }
    }
}

/// The untranslated text that describes a call event.
pub open spec fn call_description(t: CallMessageType, from_self: bool) -> Seq<char> {
    match t {
        CallMessageType::Offer => if from_self {
            "Outgoing call"@
        } else {
            "Incoming call"@
        },
        CallMessageType::Answer => "Call started"@,
        CallMessageType::Hangup => "Call ended"@,
        CallMessageType::Busy => if from_self {
            "Unanswered call"@
        } else {
            "Call declined"@
        },
    }
}

/// How a call event is described, by who sent it: an offer of someone else is an incoming
/// call and one of this account an outgoing call; an answer starts the call and a hang-up ends
/// it, whoever sent it; a busy signal of someone else declines the call, and one of this account
/// leaves it unanswered.
pub proof fn lemma_call_description_direction(t: CallMessageType, sender: u128, own: u128)
    ensures
        t == CallMessageType::Offer ==> call_description(t, sender == own) == if sender == own {
            "Outgoing call"@
        } else {
            "Incoming call"@
        },
        t == CallMessageType::Answer ==> call_description(t, sender == own) == "Call started"@,
        t == CallMessageType::Hangup ==> call_description(t, sender == own) == "Call ended"@,
        t == CallMessageType::Busy ==> call_description(t, sender == own) == if sender == own {
            "Unanswered call"@
        } else {
            "Call declined"@
        },
{
}

/// The icon of a call event.
pub open spec fn call_icon(t: CallMessageType, from_self: bool) -> Seq<char> {
    match t {
        CallMessageType::Offer => if from_self {
            "call-outcoming-symbolic"@
        } else {
            "call-incoming-symbolic"@
        },
        CallMessageType::Answer => "call-start-symbolic"@,
        CallMessageType::Hangup => "call-stop-symbolic"@,
        CallMessageType::Busy => "call-missed-symbolic"@,
    }
}

/// The unique identifier of a message: its timestamp in lower-case hexadecimal, followed by its
/// sender's UUID in hyphenated lower-case form.
pub open spec fn spec_uid(timestamp: u64, sender: u128) -> Seq<char> {
    hex(timestamp as nat) + uuid_text(sender)
}

/// The unique identifier of a message, built from its timestamp and its sender; it also names
/// the message's notification.
pub fn message_uid(timestamp: u64, sender: u128) -> (r: String)
    ensures
        r@ == spec_uid(timestamp, sender),
{
    let mut s = String::new();
    push_hex(&mut s, timestamp);
    let u = uuid_string(sender);
    s.append(u.as_str());
    assert(s@ =~= spec_uid(timestamp, sender));
    s
}

/// A reaction of one account to a text message.
#[derive(Debug)]
pub struct ReactionEntry {
    pub sender: u128,
    pub reaction: Reaction,
}

/// The senders of a list of reactions.
pub open spec fn reaction_senders(es: Seq<ReactionEntry>) -> Seq<u128> {
    es.map_values(|e: ReactionEntry| e.sender)
}

/// Reactions are kept with at most one reaction per sender.
pub open spec fn reactions_wf(es: Seq<ReactionEntry>) -> bool {
    forall|i: int, j: int|
        0 <= i < j < es.len() ==> #[trigger] es[i].sender != #[trigger] es[j].sender
}

/// The reactions as a map from sender to reaction.
pub open spec fn reaction_map(es: Seq<ReactionEntry>) -> Map<u128, Reaction>
    decreases es.len(),
{
    if es.len() == 0 {
        Map::empty()
    } else {
        reaction_map(es.drop_last()).insert(es.last().sender, es.last().reaction)
    }
}

/// Whether a reaction asks to remove the sender's earlier reaction.
pub open spec fn is_removal(r: Reaction) -> bool {
    r.remove == Some(true)
}

/// A message with text, attachments or both.
#[derive(Debug)]
pub struct TextMessage {
    pub sender: u128,
    pub timestamp: u64,
    pub read: bool,
    pub data: DataMessage,
    pub reactions: Vec<ReactionEntry>,
    pub is_deleted: bool,
    /// The message that this one quotes, once it was found.
    pub quote: Option<QuotedMessage>,
}

/// What a text message keeps of the message that it quotes.
#[derive(Debug)]
pub struct QuotedMessage {
    pub timestamp: u64,
    /// The quoted message's sender, where the sender is a known contact.
    pub author: Option<u128>,
    pub body: Option<String>,
}

/// A call event shown in a channel.
#[derive(Clone, Copy, Debug)]
pub struct CallMessage {
    pub sender: u128,
    pub timestamp: u64,
    pub read: bool,
    pub call_type: CallMessageType,
}

/// A message that adds or removes a reaction.
#[derive(Debug)]
pub struct ReactionMessage {
    pub sender: u128,
    pub timestamp: u64,
    pub read: bool,
    pub reaction: Reaction,
}

/// A message that deletes an earlier message.
#[derive(Clone, Copy, Debug)]
pub struct DeletionMessage {
    pub sender: u128,
    pub timestamp: u64,
    pub read: bool,
    pub deletion: Delete,
}

/// The kinds of message that a channel holds.
pub trait MessageImpl {}

impl MessageImpl for TextMessage {}

impl MessageImpl for CallMessage {}

impl MessageImpl for ReactionMessage {}

impl MessageImpl for DeletionMessage {}

/// A message that is shown to the user.
#[derive(Debug)]
pub enum DisplayMessage {
    Text(TextMessage),
    Call(CallMessage),
}

/// Any message of a channel.
#[derive(Debug)]
pub enum Message {
    Display(DisplayMessage),
    Reaction(ReactionMessage),
    Deletion(DeletionMessage),
}

impl TextMessage {
    /// Whether the sender has a reaction on this message.
    pub fn has_reaction_from(&self, sender: u128) -> (r: bool)
        ensures
            r == reaction_map(self.reactions@).dom().contains(sender),
    {
        proof {
            lemma_reaction_map_dom(self.reactions@);
        }
        match self.reaction_index(sender) {
            Some(k) => {
                assert(reaction_senders(self.reactions@)[k as int] == sender);
                assert(reaction_senders(self.reactions@).contains(sender));
                true
            },
            None => false,
        }
    }

    /// Position of the sender's reaction, if the sender reacted.
    fn reaction_index(&self, sender: u128) -> (r: Option<usize>)
        ensures
            match r {
                Some(k) => k < self.reactions@.len() && self.reactions@[k as int].sender == sender,
                None => !reaction_senders(self.reactions@).contains(sender),
            },
    {
        let mut i: usize = 0;
        while i < self.reactions.len()
            invariant
                i <= self.reactions.len(),
                forall|j: int| 0 <= j < i ==> self.reactions@[j].sender != sender,
            decreases self.reactions.len() - i,
        {
            if self.reactions[i].sender == sender {
                return Some(i);
            }
            i += 1;
        }
        proof {
            if reaction_senders(self.reactions@).contains(sender) {
                let k = choose|k: int|
                    0 <= k < reaction_senders(self.reactions@).len() && reaction_senders(
                        self.reactions@,
                    )[k] == sender;
                assert(self.reactions@[k].sender == sender);
            }
        }
        None
    }

    /// Applies a reaction of `sender`: a removal removes the sender's reaction, any other
    /// reaction replaces it.
    pub fn react(&mut self, sender: u128, reaction: Reaction)
        ensures
            reactions_wf(old(self).reactions@) ==> reactions_wf(final(self).reactions@),
            final(self).reactions@ == reacted_entries(old(self).reactions@, sender, reaction),
            reaction_map(final(self).reactions@) == if is_removal(reaction) {
                reaction_map(old(self).reactions@).remove(sender)
            } else {
                reaction_map(old(self).reactions@).insert(sender, reaction)
            },
            final(self).sender == old(self).sender,
            final(self).timestamp == old(self).timestamp,
            final(self).read == old(self).read,
            final(self).data == old(self).data,
            final(self).is_deleted == old(self).is_deleted,
            final(self).quote == old(self).quote,
    {
        let removal = match reaction.remove {
            Some(b) => b,
            None => false,
        };
        let ghost es0 = self.reactions@;
        let mut kept: Vec<ReactionEntry> = Vec::new();
        let mut i: usize = 0;
        while i < self.reactions.len()
            invariant
                self.reactions@ == es0,
                i <= es0.len(),
                kept@ == without_sender(es0.take(i as int), sender),
            decreases self.reactions.len() - i,
        {
            assert(es0.take(i + 1).drop_last() =~= es0.take(i as int));
            if self.reactions[i].sender != sender {
                kept.push(self.reactions[i].clone());
            }
            i += 1;
        }
        assert(es0.take(es0.len() as int) =~= es0);
        proof {
            lemma_without_sender(es0, sender);
        }
        if !removal {
            let ghost es1 = kept@;
            kept.push(ReactionEntry { sender, reaction });
            proof {
                assert(kept@.drop_last() == es1);
                assert(reaction_map(es0).remove(sender).insert(sender, reaction) =~= reaction_map(
                    es0,
                ).insert(sender, reaction));
                if reactions_wf(es0) {
                    assert forall|i: int, j: int|
                        0 <= i < j < kept@.len() implies #[trigger] kept@[i].sender
                        != #[trigger] kept@[j].sender by {
                        if j == kept@.len() - 1 {
                            assert(es1[i].sender != sender);
                        } else {
                            assert(kept@[i] == es1[i] && kept@[j] == es1[j]);
                        }
                    }
                }
            }
        }
        self.reactions = kept;
    }
}

impl Clone for ReactionMessage {
    fn clone(&self) -> (r: Self)
        ensures
            r == *self,
    {
        ReactionMessage {
            sender: self.sender,
            timestamp: self.timestamp,
            read: self.read,
            reaction: self.reaction.clone(),
        }
    }
}

impl Clone for ReactionEntry {
    fn clone(&self) -> (r: Self)
        ensures
            r == *self,
    {
        ReactionEntry { sender: self.sender, reaction: self.reaction.clone() }
    }
}

/// The reactions after a reaction of `sender`: the sender's earlier reaction leaves, and a
/// reaction that is no removal is added at the end.
pub open spec fn reacted_entries(es: Seq<ReactionEntry>, sender: u128, reaction: Reaction) -> Seq<
    ReactionEntry,
> {
    if is_removal(reaction) {
        without_sender(es, sender)
    } else {
        without_sender(es, sender).push(ReactionEntry { sender, reaction })
    }
}

/// The entries of other senders than `x`, in order.
pub open spec fn without_sender(es: Seq<ReactionEntry>, x: u128) -> Seq<ReactionEntry>
    decreases es.len(),
{
    if es.len() == 0 {
        seq![]
    } else if es.last().sender != x {
        without_sender(es.drop_last(), x).push(es.last())
    } else {
        without_sender(es.drop_last(), x)
    }
}

/// Dropping a sender's entries removes the sender from the map, keeps well-formedness and
/// leaves no entry of the sender.
pub proof fn lemma_without_sender(es: Seq<ReactionEntry>, x: u128)
    ensures
        reaction_map(without_sender(es, x)) == reaction_map(es).remove(x),
        reactions_wf(es) ==> reactions_wf(without_sender(es, x)),
        forall|i: int|
            0 <= i < without_sender(es, x).len() ==> #[trigger] without_sender(es, x)[i].sender
                != x,
        forall|i: int|
            0 <= i < without_sender(es, x).len() ==> reaction_senders(es).contains(
                #[trigger] without_sender(es, x)[i].sender,
            ),
    decreases es.len(),
{
    if es.len() > 0 {
        let p = es.drop_last();
        lemma_without_sender(p, x);
        let w = without_sender(p, x);
        assert forall|i: int| 0 <= i < w.len() implies reaction_senders(es).contains(
            #[trigger] w[i].sender,
        ) by {
            let k = choose|k: int| 0 <= k < reaction_senders(p).len() && reaction_senders(p)[k] == w[i].sender;
            assert(reaction_senders(es)[k] == w[i].sender);
        }
        if es.last().sender != x {
            assert(without_sender(es, x).drop_last() == w);
            assert(reaction_map(without_sender(es, x)) =~= reaction_map(es).remove(x));
            assert(reaction_senders(es)[es.len() - 1] == es.last().sender);
            if reactions_wf(es) {
                assert forall|i: int, j: int| 0 <= i < j < p.len() implies #[trigger] p[i].sender
                    != #[trigger] p[j].sender by {
                    assert(p[i] == es[i] && p[j] == es[j]);
                }
                let r = without_sender(es, x);
                assert forall|i: int, j: int| 0 <= i < j < r.len() implies #[trigger] r[i].sender
                    != #[trigger] r[j].sender by {
                    if j == r.len() - 1 {
                        let k = choose|k: int| 0 <= k < reaction_senders(p).len() && reaction_senders(p)[k] == r[i].sender;
                        assert(es[k] == p[k]);
                    } else {
                        assert(r[i] == w[i] && r[j] == w[j]);
                    }
                }
            }
        } else {
            assert(reaction_map(without_sender(es, x)) =~= reaction_map(es).remove(x));
            if reactions_wf(es) {
                assert forall|i: int, j: int| 0 <= i < j < p.len() implies #[trigger] p[i].sender
                    != #[trigger] p[j].sender by {
                    assert(p[i] == es[i] && p[j] == es[j]);
                }
            }
        }
    }
}

/// The senders of a list of reactions are the keys of its map.
pub proof fn lemma_reaction_map_dom(es: Seq<ReactionEntry>)
    ensures
        forall|x: u128|
            reaction_map(es).dom().contains(x) <==> #[trigger] reaction_senders(es).contains(x),
    decreases es.len(),
{
    if es.len() > 0 {
        lemma_reaction_map_dom(es.drop_last());
        assert forall|x: u128|
            reaction_map(es).dom().contains(x) <==> #[trigger] reaction_senders(es).contains(
                x,
            ) by {
            let p = es.drop_last();
            if reaction_senders(es).contains(x) {
                let k = choose|k: int|
                    0 <= k < reaction_senders(es).len() && reaction_senders(es)[k] == x;
                if k < es.len() - 1 {
                    assert(reaction_senders(p)[k] == x);
                }
            }
            if reaction_senders(p).contains(x) {
                let k = choose|k: int|
                    0 <= k < reaction_senders(p).len() && reaction_senders(p)[k] == x;
                assert(reaction_senders(es)[k] == x);
            }
            if x == es.last().sender {
                assert(reaction_senders(es)[es.len() - 1] == x);
            }
        }
    }
}

impl DisplayMessage {
    /// The timestamp of the message.
    pub open spec fn ts(&self) -> u64 {
        match self {
            DisplayMessage::Text(t) => t.timestamp,
            DisplayMessage::Call(c) => c.timestamp,
        }
    }

    /// The sender of the message.
    pub open spec fn from(&self) -> u128 {
        match self {
            DisplayMessage::Text(t) => t.sender,
            DisplayMessage::Call(c) => c.sender,
        }
    }

    /// The same message, marked as read.
    pub open spec fn with_read(self) -> DisplayMessage {
        match self {
            DisplayMessage::Text(t) => DisplayMessage::Text(TextMessage { read: true, ..t }),
            DisplayMessage::Call(c) => DisplayMessage::Call(CallMessage { read: true, ..c }),
        }
    }

    /// Whether the message was read.
    pub open spec fn is_read(&self) -> bool {
        match self {
            DisplayMessage::Text(t) => t.read,
            DisplayMessage::Call(c) => c.read,
        }
    }

    /// The timestamp of the message.
    pub fn timestamp(&self) -> (r: u64)
        ensures
            r == self.ts(),
    {
        match self {
            DisplayMessage::Text(t) => t.timestamp,
            DisplayMessage::Call(c) => c.timestamp,
        }
    }

    /// The sender of the message.
    pub fn sender(&self) -> (r: u128)
        ensures
            r == self.from(),
    {
        match self {
            DisplayMessage::Text(t) => t.sender,
            DisplayMessage::Call(c) => c.sender,
        }
    }

    /// Whether the message was read.
    pub fn read(&self) -> (r: bool)
        ensures
            r == self.is_read(),
    {
        match self {
            DisplayMessage::Text(t) => t.read,
            DisplayMessage::Call(c) => c.read,
        }
    }

    /// Marks the message as read; tells whether it was unread before.
    pub fn mark_as_read(&mut self) -> (r: bool)
        ensures
            r == !old(self).is_read(),
            *final(self) == old(self).with_read(),
    {
        match self {
            DisplayMessage::Text(t) => {
                let was = t.read;
                t.read = true;
                !was
            },
            DisplayMessage::Call(c) => {
                let was = c.read;
                c.read = true;
                !was
            },
        }
    }
}

/// Whether a message shows its sender's avatar and name, given the message before it: the first
/// message does; any other does where the sender changed or enough time passed, and never for
/// messages of this account.
pub open spec fn header_rule(prev: Option<(u64, u128)>, cur: (u64, u128), own: u128) -> bool {
    match prev {
        None => true,
        Some(p) => (cur.1 != p.1 || cur.0 >= p.0 + MESSAGE_SENT_SHOW_NAME_DURATION) && cur.1 != own,
    }
}

/// Whether a message shows its timestamp, given the message after it: the last message does; any
/// other does where the sender changes or enough time passes until the next message.
pub open spec fn timestamp_rule(cur: (u64, u128), next: Option<(u64, u128)>) -> bool {
    match next {
        None => true,
        Some(n) => cur.1 != n.1 || n.0 >= cur.0 + MESSAGE_SENT_SHOW_TIMESTAMP_DURATION,
    }
}

/// Whether a message shows its sender's avatar and name (see [header_rule]).
pub fn show_header(prev: Option<(u64, u128)>, cur: (u64, u128), own: u128) -> (r: bool)
    ensures
        r == header_rule(prev, cur, own),
{
    match prev {
        None => true,
        Some(p) => (cur.1 != p.1 || (cur.0 >= MESSAGE_SENT_SHOW_NAME_DURATION && cur.0
            - MESSAGE_SENT_SHOW_NAME_DURATION >= p.0)) && cur.1 != own,
    }
}

/// Whether a message shows its timestamp (see [timestamp_rule]).
pub fn show_timestamp(cur: (u64, u128), next: Option<(u64, u128)>) -> (r: bool)
    ensures
        r == timestamp_rule(cur, next),
{
    match next {
        None => true,
        Some(n) => cur.1 != n.1 || (n.0 >= MESSAGE_SENT_SHOW_TIMESTAMP_DURATION && n.0
            - MESSAGE_SENT_SHOW_TIMESTAMP_DURATION >= cur.0),
    }
}

/// The unique identifier of a shown message: for a text message whose data holds a timestamp,
/// built from that timestamp and the sender ([spec_uid]); none otherwise.
pub open spec fn display_uid(m: DisplayMessage) -> Option<Seq<char>> {
    match m {
        DisplayMessage::Text(t) => match t.data.timestamp {
            Some(ts) => Some(spec_uid(ts, t.sender)),
            None => None,
        },
        DisplayMessage::Call(_) => None,
    }
}

impl DisplayMessage {
    /// The unique identifier of the message, which also names its notification.
    pub fn uid(&self) -> (r: Option<String>)
        ensures
            match r {
                Some(s) => display_uid(*self) == Some(s@),
                None => display_uid(*self) is None,
            },
    {
        match self {
            DisplayMessage::Text(t) => match t.data.timestamp {
                Some(ts) => Some(message_uid(ts, t.sender)),
                None => None,
            },
            DisplayMessage::Call(_) => None,
        }
    }
}

impl Message {
    /// The sender of the message.
    pub open spec fn from(&self) -> u128 {
        match self {
            Message::Display(d) => d.from(),
            Message::Reaction(r) => r.sender,
            Message::Deletion(d) => d.sender,
        }
    }

    /// Whether the message was read.
    pub open spec fn is_read(&self) -> bool {
        match self {
            Message::Display(d) => d.is_read(),
            Message::Reaction(r) => r.read,
            Message::Deletion(d) => d.read,
        }
    }

    /// The same message, marked as read.
    pub open spec fn with_read(self) -> Message {
        match self {
            Message::Display(d) => Message::Display(d.with_read()),
            Message::Reaction(r) => Message::Reaction(ReactionMessage { read: true, ..r }),
            Message::Deletion(d) => Message::Deletion(DeletionMessage { read: true, ..d }),
        }
    }

    /// The sender of the message.
    pub fn sender(&self) -> (r: u128)
        ensures
            r == self.from(),
    {
        match self {
            Message::Display(d) => d.sender(),
            Message::Reaction(r) => r.sender,
            Message::Deletion(d) => d.sender,
        }
    }

    /// Marks the message as read; tells whether it was unread before.
    pub fn mark_as_read(&mut self) -> (r: bool)
        ensures
            r == !old(self).is_read(),
            *final(self) == old(self).with_read(),
    {
        match self {
            Message::Display(d) => d.mark_as_read(),
            Message::Reaction(r) => {
                let was = r.read;
                r.read = true;
                !was
            },
            Message::Deletion(d) => {
                let was = d.read;
                d.read = true;
                !was
            },
        }
    }
}

/// After a reaction of `sender`, the sender has a reaction exactly where it was no removal, and
/// then it is that reaction; the reactions of others stay.
pub proof fn lemma_react_then_has(es: Seq<ReactionEntry>, sender: u128, reaction: Reaction)
    ensures
        reaction_map(reacted_entries(es, sender, reaction)).dom().contains(sender) == !is_removal(
            reaction,
        ),
        !is_removal(reaction) ==> reaction_map(reacted_entries(es, sender, reaction))[sender]
            == reaction,
        forall|u: u128|
            u != sender ==> (#[trigger] reaction_map(reacted_entries(es, sender, reaction)).dom().contains(u)
                == reaction_map(es).dom().contains(u)),
{
    lemma_without_sender(es, sender);
    let w = without_sender(es, sender);
    if !is_removal(reaction) {
        let p = w.push(ReactionEntry { sender, reaction });
        assert(p.drop_last() =~= w);
        assert(reaction_map(p) == reaction_map(w).insert(sender, reaction));
    }
    assert forall|u: u128| u != sender implies (#[trigger] reaction_map(
        reacted_entries(es, sender, reaction),
    ).dom().contains(u) == reaction_map(es).dom().contains(u)) by {}
}

/// A message of someone else shows its sender again once four minutes (240000 milliseconds) or
/// more passed since the previous message, whoever sent that one.
pub proof fn lemma_header_after_pause(prev: (u64, u128), cur: (u64, u128), own: u128)
    requires
        cur.1 != own,
        cur.0 >= prev.0 + 240000,
    ensures
        header_rule(Some(prev), cur, own),
{
}

/// A message of someone else shows its sender where the previous message is of another sender.
pub proof fn lemma_header_on_new_sender(prev: (u64, u128), cur: (u64, u128), own: u128)
    requires
        cur.1 != own,
        cur.1 != prev.1,
    ensures
        header_rule(Some(prev), cur, own),
{
}

/// A message that follows one of the same sender within four minutes does not show its sender.
pub proof fn lemma_header_hidden_in_a_run(prev: (u64, u128), cur: (u64, u128), own: u128)
    requires
        cur.1 == prev.1,
        cur.0 < prev.0 + 240000,
    ensures
        !header_rule(Some(prev), cur, own),
{
}

/// The later a message of the same sender comes, the more it shows its sender: where a message
/// shows it after some pause, it shows it after any longer pause too.
pub proof fn lemma_header_monotone(prev: (u64, u128), cur: (u64, u128), later: u64, own: u128)
    requires
        header_rule(Some(prev), cur, own),
        cur.0 <= later,
    ensures
        header_rule(Some(prev), (later, cur.1), own),
{
}

/// A message of this account never shows its sender, except as the first message.
pub proof fn lemma_own_messages_hide_header(prev: (u64, u128), cur: (u64, u128), own: u128)
    requires
        cur.1 == own,
    ensures
        !header_rule(Some(prev), cur, own),
{
}

/// The last message always shows its time, the first always its sender.
pub proof fn lemma_ends_show_flags(cur: (u64, u128), own: u128)
    ensures
        timestamp_rule(cur, None),
        header_rule(None, cur, own),
{
}

} // verus!
