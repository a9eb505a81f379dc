//! A channel: a conversation with a contact or a group, with its timeline, the reactions that
//! wait for their message, and who is typing.
use vstd::prelude::*;

use crate::contact::Contact;
use crate::content::{
    parse_service_id, service_id_bytes, DataMessage, GroupContext, Quote, Reaction, ServiceId,
};
use crate::core_model::{group_key, key_from_bytes, opt_view, Thread};
use crate::i18n::{gettext, ngettext};
use crate::text::{
    insert_sorted_unique, join, join_strings, owned, replace, replace_all, strictly_ascending,
    views,
};
use crate::message::{
    is_removal, reacted_entries, reaction_map, CallMessage, DeletionMessage, DisplayMessage,
    Message, QuotedMessage, ReactionMessage, TextMessage,
};
use crate::text::{uuid_string, uuid_text};
use crate::timeline::{
    by_ts, has_ts, strictly_sorted, is_deleted_text, lemma_by_ts_at, lemma_by_ts_update, uids_between, unread_from,
    Timeline,
};

verus! {

/// How long a typing notification lasts, in seconds.
pub const TYPING_NOTIFICATION_DURATION_SECONDS: u32 = 10;

/// Reactions that wait for the message that they react to.
#[derive(Debug)]
pub struct PendingEntry {
    pub target: u64,
    pub reactions: Vec<ReactionMessage>,
}

/// A contact that is typing, since when.
#[derive(Debug)]
pub struct TypingNotification {
    pub sender: u128,
    /// The title of the contact, as shown.
    pub sender_title: String,
    pub timestamp: u64,
}

/// The reactions of a list, ordered by non-decreasing timestamps.
pub open spec fn reactions_sorted(rs: Seq<ReactionMessage>) -> bool {
    forall|i: int, j: int|
        0 <= i <= j < rs.len() ==> #[trigger] rs[i].timestamp <= #[trigger] rs[j].timestamp
}

/// The pending reactions by target: every target appears once, and each list is ordered by
/// timestamp.
pub open spec fn pending_wf(es: Seq<PendingEntry>) -> bool {
    &&& forall|i: int, j: int|
        0 <= i < j < es.len() ==> #[trigger] es[i].target != #[trigger] es[j].target
    &&& forall|i: int| 0 <= i < es.len() ==> reactions_sorted(#[trigger] es[i].reactions@)
}

/// The pending reactions for `target`, in order (none where there are none).
pub open spec fn pending_for(es: Seq<PendingEntry>, target: u64) -> Seq<ReactionMessage>
    decreases es.len(),
{
    if es.len() == 0 {
        seq![]
    } else if es.last().target == target {
        es.last().reactions@
    } else {
        pending_for(es.drop_last(), target)
    }
}

/// The reaction map of a text message after applying the reactions `rs` in order.
pub open spec fn apply_reactions(m: Map<u128, Reaction>, rs: Seq<ReactionMessage>) -> Map<
    u128,
    Reaction,
>
    decreases rs.len(),
{
    if rs.len() == 0 {
        m
    } else {
        let r = rs.last();
        let before = apply_reactions(m, rs.drop_last());
        if is_removal(r.reaction) {
            before.remove(r.sender)
        } else {
            before.insert(r.sender, r.reaction)
        }
    }
}

/// The timestamp that a reaction targets (0 where it names none).
pub open spec fn reaction_target(r: Reaction) -> u64 {
    match r.target_sent_timestamp {
        Some(t) => t,
        None => 0,
    }
}

/// The protocol quote that a text message carries once the quoted message was found: its
/// timestamp, its sender's UUID in text form where the sender is known, and its body.
pub open spec fn quote_data(q: QuotedMessage) -> (Option<u64>, Option<Seq<char>>, Option<Seq<char>>) {
    (
        Some(q.timestamp),
        match q.author {
            Some(a) => Some(uuid_text(a)),
            None => None,
        },
        opt_view(q.body),
    )
}

/// The timestamp of the message that a text message quotes, if it quotes one.
pub open spec fn quote_ts(t: TextMessage) -> Option<u64> {
    match t.data.quote {
        Some(q) => q.id,
        None => None,
    }
}

/// What a shown message becomes when its channel receives it: it is marked read where `mark`
/// holds; a text message also keeps the quoted message, where it quotes one and that one was
/// found (`quoted`), and takes the reactions that waited for it (`pending`), in order.
pub open spec fn received_display(
    d: DisplayMessage,
    d2: DisplayMessage,
    mark: bool,
    quoted: Option<QuotedMessage>,
    pending: Seq<ReactionMessage>,
) -> bool {
    match (d, d2) {
        (DisplayMessage::Text(t), DisplayMessage::Text(t2)) => {
            &&& t2.sender == t.sender
            &&& t2.timestamp == t.timestamp
            &&& t2.read == (t.read || mark)
            &&& t2.is_deleted == t.is_deleted
            &&& if quote_ts(t) is Some && quoted is Some {
                &&& t2.quote == quoted
                &&& t2.data == (DataMessage { quote: t2.data.quote, ..t.data })
                &&& t2.data.quote matches Some(q) && (q.id, opt_view(q.author_aci), opt_view(q.text))
                    == quote_data(quoted->0)
            } else {
                &&& t2.quote == t.quote
                &&& t2.data == t.data
            }
            &&& reaction_map(t2.reactions@) == apply_reactions(reaction_map(t.reactions@), pending)
        },
        (DisplayMessage::Call(c), DisplayMessage::Call(c2)) => c2 == CallMessage {
            read: c.read || mark,
            ..c
        },
        _ => false,
    }
}

/// The timeline `s2` is `s` after the reaction `r` to a message of `s`: a text message takes the
/// reaction, any other message stays as it is, and every other message stays as it is.
pub open spec fn reacted_in(s: Seq<DisplayMessage>, s2: Seq<DisplayMessage>, r: ReactionMessage) -> bool {
    let t = reaction_target(r.reaction);
    let m = by_ts(s);
    let m2 = by_ts(s2);
    &&& m.dom().contains(t)
    &&& m2 == m.insert(t, m2[t])
    &&& match (m[t], m2[t]) {
        (DisplayMessage::Text(a), DisplayMessage::Text(b)) => {
            &&& b.reactions@ == reacted_entries(a.reactions@, r.sender, r.reaction)
            &&& b.sender == a.sender && b.timestamp == a.timestamp && b.read == a.read
            &&& b.data == a.data && b.is_deleted == a.is_deleted && b.quote == a.quote
        },
        (a, b) => a == b,
    }
}

/// The timeline `s2` is `s` after a deletion of the message with timestamp `target`: a text
/// message with that timestamp is marked as deleted; nothing else changes.
pub open spec fn deleted_in(s: Seq<DisplayMessage>, s2: Seq<DisplayMessage>, target: Option<u64>) -> bool {
    match target {
        Some(t) => if by_ts(s).dom().contains(t) && by_ts(s)[t] is Text {
            by_ts(s2) == by_ts(s).insert(
                t,
                match by_ts(s)[t] {
                    DisplayMessage::Text(x) => DisplayMessage::Text(TextMessage { is_deleted: true, ..x }),
                    other => other,
                },
            )
        } else {
            s2 == s
        },
        None => s2 == s,
    }
}

/// `rs2` is `rs` with `r` inserted at position `i`, after the reactions with smaller or equal
/// timestamps and before those with greater or equal ones.
pub open spec fn inserted_at(rs: Seq<ReactionMessage>, rs2: Seq<ReactionMessage>, r: ReactionMessage, i: int) -> bool {
    &&& 0 <= i <= rs.len()
    &&& rs2 == rs.insert(i, r)
    &&& forall|j: int| 0 <= j < i ==> (#[trigger] rs[j]).timestamp <= r.timestamp
    &&& forall|j: int| i <= j < rs.len() ==> (#[trigger] rs[j]).timestamp >= r.timestamp
}

/// What happens to the notification of a new message.
#[derive(Debug)]
pub enum Notify {
    /// Nothing is notified.
    Nothing,
    /// The shown message with this timestamp is notified.
    Display(u64),
    /// The reaction is notified.
    Reaction(ReactionMessage),
}

/// The parts of a group that the client shows.
#[derive(Debug)]
pub struct Group {
    pub title: String,
    pub description: Option<String>,
    /// Seconds after which messages disappear, where the group sets it.
    pub disappearing_messages_timer: Option<u32>,
}

/// A conversation's state: with whom, its timeline, the reactions that wait for their message
/// and who is typing.
pub struct Channel {
    /// The contact of a 1-to-1 channel.
    pub contact: Option<Contact>,
    /// The group of a group channel.
    pub group: Option<Group>,
    /// The group context that messages to the group carry.
    pub group_context: Option<GroupContext>,
    pub timeline: Timeline,
    pub pending_reactions: Vec<PendingEntry>,
    pub typing: Vec<TypingNotification>,
    /// Whether the channel is currently shown.
    pub is_active: bool,
    /// The text that the user started to write.
    pub draft: String,
}

impl Channel {
    /// The channel is consistent: its timeline is well-formed and the pending reactions are
    /// ordered by timestamp, with one list per target.
    pub closed spec fn wf(&self) -> bool {
        &&& self.timeline.wf()
        &&& pending_wf(self.pending_reactions@)
        &&& forall|i: int, j: int|
            0 <= i < j < self.typing@.len() ==> #[trigger] self.typing@[i].sender
                != #[trigger] self.typing@[j].sender
    }

    /// The reactions that wait for the message with timestamp `target`, in order.
    pub closed spec fn pending(&self, target: u64) -> Seq<ReactionMessage> {
        pending_for(self.pending_reactions@, target)
    }

    /// An empty 1-to-1 channel with `contact`.
    pub fn from_contact(contact: Contact) -> (r: Self)
        ensures
            r.wf(),
            r.timeline.items() == Seq::<DisplayMessage>::empty(),
            r.timeline.own() == contact.own_uuid,
            r.contact == Some(contact),
            r.group is None,
            r.group_context is None,
            forall|t: u64| r.pending(t) == Seq::<ReactionMessage>::empty(),
            r.typing@.len() == 0,
            !r.is_active,
            r.draft@.len() == 0,
    {
        let own = contact.own_uuid;
        Channel {
            contact: Some(contact),
            group: None,
            group_context: None,
            timeline: Timeline::new(own),
            pending_reactions: Vec::new(),
            typing: Vec::new(),
            is_active: false,
            draft: String::new(),
        }
    }

    /// An empty channel of `group`, whose messages carry `context`, for the account with UUID
    /// `own_uuid`.
    pub fn from_group(group: Group, context: GroupContext, own_uuid: u128) -> (r: Self)
        ensures
            r.wf(),
            r.timeline.items() == Seq::<DisplayMessage>::empty(),
            r.timeline.own() == own_uuid,
            r.contact is None,
            r.group == Some(group),
            r.group_context == Some(context),
            forall|t: u64| r.pending(t) == Seq::<ReactionMessage>::empty(),
            r.typing@.len() == 0,
            !r.is_active,
            r.draft@.len() == 0,
    {
        Channel {
            contact: None,
            group: Some(group),
            group_context: Some(context),
            timeline: Timeline::new(own_uuid),
            pending_reactions: Vec::new(),
            typing: Vec::new(),
            is_active: false,
            draft: String::new(),
        }
    }

    /// Whether the channel marks a new message as read: it does while it is shown, and for the
    /// messages of this account.
    pub open spec fn marks(&self, m: Message) -> bool {
        self.is_active || m.from() == self.timeline.own()
    }

    /// The state `new` is this channel after it received the reaction `r`: where the reacted
    /// message is in the timeline, it takes the reaction; otherwise the reaction waits for it,
    /// ordered by timestamp among the others that wait for the same message.
    pub open spec fn reaction_received(self, new: Channel, r: ReactionMessage) -> bool {
        let t = reaction_target(r.reaction);
        if by_ts(self.timeline.items()).dom().contains(t) {
            &&& reacted_in(self.timeline.items(), new.timeline.items(), r)
            &&& new.pending_reactions == self.pending_reactions
        } else {
            &&& new.timeline == self.timeline
            &&& forall|u: u64| u != t ==> #[trigger] new.pending(u) == self.pending(u)
            &&& exists|i: int| inserted_at(self.pending(t), new.pending(t), r, i)
        }
    }

    /// What stays when a message arrives.
    pub open spec fn keeps_settings(self, new: Channel) -> bool {
        &&& new.is_active == self.is_active
        &&& new.draft == self.draft
        &&& new.typing == self.typing
        &&& new.timeline.own() == self.timeline.own()
        &&& new.contact == self.contact
        &&& new.group == self.group
        &&& new.group_context == self.group_context
    }

    /// The state `new` is this channel after it registered `message`, with the message that it
    /// quotes where that was found (`quoted`), and gave back `r` (see
    /// [Channel::do_new_message]): the settings stay; a shown message comes back marked read
    /// where the channel [marks](Channel::marks) it, with the quoted message and the reactions
    /// that waited for it, and the channel stays as it is; a reaction is applied or waits
    /// ([reaction_received](Channel::reaction_received)); a deletion marks its message.
    pub open spec fn registered(
        self,
        new: Channel,
        message: Message,
        quoted: Option<QuotedMessage>,
        r: Message,
    ) -> bool {
        let mark = self.marks(message);
        &&& self.keeps_settings(new)
        &&& match message {
            Message::Display(d) => {
                &&& r matches Message::Display(d2) && received_display(
                    d,
                    d2,
                    mark,
                    quoted,
                    self.pending(d.ts()),
                )
                &&& new.timeline == self.timeline
                &&& new.pending_reactions == self.pending_reactions
            },
            Message::Reaction(rm) => {
                &&& r == Message::Reaction(ReactionMessage { read: rm.read || mark, ..rm })
                &&& self.reaction_received(new, ReactionMessage { read: rm.read || mark, ..rm })
            },
            Message::Deletion(dm) => {
                &&& r == Message::Deletion(DeletionMessage { read: dm.read || mark, ..dm })
                &&& deleted_in(
                    self.timeline.items(),
                    new.timeline.items(),
                    dm.deletion.target_sent_timestamp,
                )
                &&& new.pending_reactions == self.pending_reactions
            },
        }
    }

    /// Registers a new message with the channel and gives it back as it is now: it is marked
    /// read where the channel [marks](Channel::marks) it; a text message keeps the message that
    /// it quotes (`quoted`, where that was found) and takes the reactions that waited for it; a
    /// reaction is applied to its message, or waits for it; a deletion marks its text message
    /// as deleted.
    #[verifier::rlimit(40)]
    pub fn do_new_message(&mut self, message: Message, quoted: Option<QuotedMessage>) -> (r: Message)
        requires
            old(self).wf(),
        ensures
            final(self).wf(),
            old(self).registered(*final(self), message, quoted, r),
    {
        let mark = self.is_active || message.sender() == self.timeline.own_uuid();
        let mut message = message;
        if mark {
            message.mark_as_read();
        }
        match message {
            Message::Display(d) => Message::Display(self.take_display(d, quoted)),
            Message::Reaction(rm) => {
                let target = match rm.reaction.target_sent_timestamp {
                    Some(t) => t,
                    None => 0,
                };
                let ghost items = self.timeline.items();
                proof {
                    self.timeline.lemma_wf_sorted();
                }
                match self.timeline.search(target) {
                    Ok(i) => {
                        proof {
                            lemma_by_ts_at(items, i as int);
                        }
                        self.timeline.react_at(i, rm.sender, rm.reaction.clone());
                        proof {
                            lemma_by_ts_update(items, self.timeline.items(), i as int);
                            lemma_by_ts_at(self.timeline.items(), i as int);
                        }
                    },
                    Err(i) => {
                        proof {
                            if has_ts(items, target) {
                                let j = choose|j: int|
                                    0 <= j < items.len() && #[trigger] items[j].ts() == target;
                                if j < i {
                                } else {
                                }
                            }
                        }
                        let pos = self.add_pending(target, rm.clone());
                        assert(inserted_at(
                            old(self).pending(target),
                            self.pending(target),
                            rm,
                            pos as int,
                        ));
                    },
                }
                Message::Reaction(rm)
            },
            Message::Deletion(dm) => {
                match dm.deletion.target_sent_timestamp {
                    Some(target) => {
                        let ghost items = self.timeline.items();
                        proof {
                            self.timeline.lemma_wf_sorted();
                        }
                        match self.timeline.search(target) {
                            Ok(i) => {
                                proof {
                                    lemma_by_ts_at(items, i as int);
                                }
                                let is_text = self.timeline.mark_deleted_at(i);
                                proof {
                                    if is_text {
                                        lemma_by_ts_update(items, self.timeline.items(), i as int);
                                        lemma_by_ts_at(self.timeline.items(), i as int);
                                    }
                                }
                            },
                            Err(i) => {
                                proof {
                                    if has_ts(items, target) {
                                        let j = choose|j: int|
                                            0 <= j < items.len() && #[trigger] items[j].ts()
                                                == target;
                                        if j < i {
                                        } else {
                                        }
                                    }
                                }
                            },
                        }
                    },
                    None => {},
                }
                Message::Deletion(dm)
            },
        }
    }

    /// A received shown message: a text message takes the quoted message, where it quotes one
    /// and that was found, and the reactions that waited for it; the channel stays as it is.
    fn take_display(&mut self, d: DisplayMessage, quoted: Option<QuotedMessage>) -> (r:
        DisplayMessage)
        requires
            pending_wf(old(self).pending_reactions@),
        ensures
            *final(self) == *old(self),
            received_display(d, r, false, quoted, old(self).pending(d.ts())),
    {
        match d {
            DisplayMessage::Text(t) => DisplayMessage::Text(
                receive_text(&self.pending_reactions, t, quoted),
            ),
            DisplayMessage::Call(c) => DisplayMessage::Call(c),
        }
    }

    /// Adds a message to the channel: registers it (see [Channel::do_new_message]) and puts a
    /// shown message into the timeline. Tells what to notify: a shown message that is still
    /// unread, or a reaction that is still unread where reactions are notified
    /// (`notify_reactions`).
    pub fn new_message(
        &mut self,
        message: Message,
        quoted: Option<QuotedMessage>,
        notify_reactions: bool,
    ) -> (r: Notify)
        requires
            old(self).wf(),
        ensures
            final(self).wf(),
            old(self).keeps_settings(*final(self)),
            ({
                let mark = old(self).marks(message);
                match message {
                    Message::Display(d) => {
                        let m2 = by_ts(final(self).timeline.items());
                        &&& m2 == by_ts(old(self).timeline.items()).insert(d.ts(), m2[d.ts()])
                        &&& received_display(
                            d,
                            m2[d.ts()],
                            mark,
                            quoted,
                            old(self).pending(d.ts()),
                        )
                        &&& final(self).pending_reactions == old(self).pending_reactions
                        &&& r == if d.is_read() || mark {
                            Notify::Nothing
                        } else {
                            Notify::Display(d.ts())
                        }
                    },
                    Message::Reaction(rm) => {
                        let rm2 = ReactionMessage { read: rm.read || mark, ..rm };
                        &&& old(self).reaction_received(*final(self), rm2)
                        &&& r == if notify_reactions && !rm2.read {
                            Notify::Reaction(rm2)
                        } else {
                            Notify::Nothing
                        }
                    },
                    Message::Deletion(dm) => {
                        &&& deleted_in(
                            old(self).timeline.items(),
                            final(self).timeline.items(),
                            dm.deletion.target_sent_timestamp,
                        )
                        &&& final(self).pending_reactions == old(self).pending_reactions
                        &&& r == Notify::Nothing
                    },
                }
            }),
    {
        let m = self.do_new_message(message, quoted);
        match m {
            Message::Display(d) => {
                let ts = d.timestamp();
                let unread = !d.read();
                let ghost d2 = d;
                self.timeline.append(d);
                proof {
                    assert(by_ts(self.timeline.items())[ts] == d2);
                }
                if unread {
                    Notify::Display(ts)
                } else {
                    Notify::Nothing
                }
            },
            Message::Reaction(rm) => {
                if notify_reactions && !rm.read {
                    Notify::Reaction(rm)
                } else {
                    Notify::Nothing
                }
            },
            Message::Deletion(_) => Notify::Nothing,
        }
    }

    /// Keeps a reaction until its message arrives, ordered by timestamp among the others.
    fn add_pending(&mut self, target: u64, reaction: ReactionMessage) -> (pos: usize)
        requires
            pending_wf(old(self).pending_reactions@),
        ensures
            pending_wf(final(self).pending_reactions@),
            final(self).timeline == old(self).timeline,
            final(self).typing == old(self).typing,
            final(self).is_active == old(self).is_active,
            final(self).draft == old(self).draft,
            final(self).contact == old(self).contact,
            final(self).group == old(self).group,
            final(self).group_context == old(self).group_context,
            forall|t: u64| t != target ==> #[trigger] final(self).pending(t) == old(self).pending(t),
            pos <= old(self).pending(target).len(),
            final(self).pending(target) == old(self).pending(target).insert(pos as int, reaction),
            forall|j: int|
                0 <= j < pos ==> (#[trigger] old(self).pending(target)[j]).timestamp
                    <= reaction.timestamp,
            forall|j: int|
                pos <= j < old(self).pending(target).len() ==> (#[trigger] old(self).pending(
                    target,
                )[j]).timestamp >= reaction.timestamp,
    {
        let ghost es = self.pending_reactions@;
        proof {
            lemma_pending_for_index(es, target);
        }
        match pending_index(&self.pending_reactions, target) {
            Some(idx) => {
                let mut entry = self.pending_reactions.remove(idx);
                let pos = insertion_point(&entry.reactions, reaction.timestamp);
                let ghost before = entry.reactions@;
                entry.reactions.insert(pos, reaction);
                proof {
                    lemma_insert_keeps_sorted(before, pos as int, entry.reactions@[pos as int]);
                }
                self.pending_reactions.insert(idx, entry);
                proof {
                    let es2 = self.pending_reactions@;
                    assert(es2 =~= es.update(idx as int, es2[idx as int]));
                    lemma_pending_update(es, idx as int, es2[idx as int]);
                    assert(self.pending(target) == es2[idx as int].reactions@);
                    assert(before == es[idx as int].reactions@);
                }
                pos
            },
            None => {
                let mut rs: Vec<ReactionMessage> = Vec::new();
                rs.push(reaction);
                let ghost one = rs@;
                self.pending_reactions.push(PendingEntry { target, reactions: rs });
                proof {
                    let es2 = self.pending_reactions@;
                    assert(es2.drop_last() == es);
                    assert forall|i: int, j: int| 0 <= i < j < es2.len() implies #[trigger] es2[i].target
                        != #[trigger] es2[j].target by {
                        if j == es2.len() - 1 {
                            assert(es[i].target != target);
                        } else {
                            assert(es2[i] == es[i] && es2[j] == es[j]);
                        }
                    }
                    assert forall|i: int| 0 <= i < es2.len() implies reactions_sorted(
                        #[trigger] es2[i].reactions@,
                    ) by {
                        if i < es.len() {
                            assert(es2[i] == es[i]);
                        }
                    }
                    assert(self.pending(target) =~= Seq::<ReactionMessage>::empty().insert(
                        0,
                        one[0],
                    ));
                }
                0
            },
        }
    }
}

/// A thread as plain values: a contact's identity, or a group's master key.
pub enum ThreadKey {
    Contact(ServiceId),
    Group(Seq<u8>),
}

/// The plain values of a thread.
pub open spec fn thread_key(t: Thread) -> ThreadKey {
    match t {
        Thread::Contact(s) => ThreadKey::Contact(s),
        Thread::Group(k) => ThreadKey::Group(k@),
    }
}

/// The notification variant of a thread: kind 0 and the binary identity for a contact, kind 1
/// and the master key for a group.
pub open spec fn variant_of(t: ThreadKey) -> (u8, Seq<u8>) {
    match t {
        ThreadKey::Contact(s) => (0u8, service_id_bytes(s)),
        ThreadKey::Group(k) => (1u8, k),
    }
}

/// The thread of a notification variant, where it names one.
pub open spec fn thread_of_variant(kind: u8, data: Seq<u8>) -> Option<ThreadKey> {
    if kind == 0 {
        match parse_service_id(data) {
            Some(s) => Some(ThreadKey::Contact(s)),
            None => None,
        }
    } else if kind == 1 && data.len() == 32 {
        Some(ThreadKey::Group(data))
    } else {
        None
    }
}

/// Position of the typing notification of `sender` (-1 where there is none).
pub open spec fn typing_index(ts: Seq<TypingNotification>, sender: u128) -> int
    decreases ts.len(),
{
    if ts.len() == 0 {
        -1
    } else if ts.last().sender == sender {
        ts.len() - 1
    } else {
        typing_index(ts.drop_last(), sender)
    }
}

/// The typing notifications after `n` arrived: it replaces the one of the same sender, or is
/// added at the end.
pub open spec fn typing_added(ts: Seq<TypingNotification>, n: TypingNotification) -> Seq<
    TypingNotification,
> {
    let i = typing_index(ts, n.sender);
    if i >= 0 {
        ts.update(i, n)
    } else {
        ts.push(n)
    }
}

/// The typing notifications without the one of `sender`.
pub open spec fn typing_removed(ts: Seq<TypingNotification>, sender: u128) -> Seq<
    TypingNotification,
> {
    let i = typing_index(ts, sender);
    if i >= 0 {
        ts.remove(i)
    } else {
        ts
    }
}

/// The position is that of a notification of the sender, and no later one is.
pub proof fn lemma_typing_index(ts: Seq<TypingNotification>, sender: u128)
    ensures
        -1 <= typing_index(ts, sender) < ts.len(),
        typing_index(ts, sender) >= 0 ==> ts[typing_index(ts, sender)].sender == sender,
        forall|j: int| typing_index(ts, sender) < j < ts.len() ==> #[trigger] ts[j].sender != sender,
    decreases ts.len(),
{
    if ts.len() > 0 && ts.last().sender != sender {
        lemma_typing_index(ts.drop_last(), sender);
        assert forall|j: int| typing_index(ts, sender) < j < ts.len() implies #[trigger] ts[j].sender
            != sender by {
            if j < ts.len() - 1 {
                assert(ts[j] == ts.drop_last()[j]);
            }
        }
    }
}

/// The typing notification label for the given template and titles: every `{}` of the
/// template replaced by the titles joined with ", ".
pub open spec fn typing_label_text(template: Seq<char>, titles: Seq<Seq<char>>) -> Seq<char> {
    replace_all(template, "{}"@, join(titles, ", "@))
}

/// Fills the typing label template with the titles of those who type (see
/// [typing_label_text]).
pub fn fill_typing_label(template: &str, titles: &Vec<String>) -> (r: String)
    ensures
        r@ == typing_label_text(template@, views(titles@)),
{
    let joined = join_strings(titles, ", ");
    proof {
        reveal_strlit("{}");
    }
    replace(template, "{}", joined.as_str())
}

/// The untranslated title of the channel with this account itself.
pub fn note_to_self_msgid() -> (r: &'static str)
    ensures
        r@ == "Note to self"@,
{
    "Note to self"
}

/// The untranslated label of the channel with this account itself while it types.
pub fn own_typing_msgid() -> (r: &'static str)
    ensures
        r@ == "is typing"@,
{
    "is typing"
}

/// What the label of those who type hands to the plural translation: "{} is typing", its
/// plural "{} are typing", and the number of titles (as a `u32`, cut to its low 32 bits) that
/// picks the form.
pub fn typing_plural_args(num_titles: usize) -> (r: (&'static str, &'static str, u32))
    ensures
        r.0@ == "{} is typing"@,
        r.1@ == "{} are typing"@,
        r.2 == num_titles as u32,
{
    #[verifier::truncate]
    let n = num_titles as u32;
    ("{} is typing", "{} are typing", n)
}

/// Position of the pending entry of `target`.
fn pending_index(es: &Vec<PendingEntry>, target: u64) -> (r: Option<usize>)
    requires
        pending_wf(es@),
    ensures
        match r {
            Some(i) => i < es@.len()
                && es@[i as int].target == target,
            None => forall|i: int|
                0 <= i < es@.len()
                    ==> #[trigger] es@[i].target != target,
        },
{
    let mut i: usize = 0;
    while i < es.len()
        invariant
            i <= es@.len(),
            forall|j: int|
                0 <= j < i ==> #[trigger] es@[j].target != target,
        decreases es.len() - i,
    {
        if es[i].target == target {
            return Some(i);
        }
        i += 1;
    }
    None
}

/// A received text message with the quoted message, where it quotes one and that was found,
/// and with the reactions that waited for it.
fn receive_text(pending: &Vec<PendingEntry>, t: TextMessage, quoted: Option<QuotedMessage>) -> (r: TextMessage)
    requires
        pending_wf(pending@),
    ensures
        received_display(
            DisplayMessage::Text(t),
            DisplayMessage::Text(r),
            false,
            quoted,
            pending_for(pending@, t.timestamp),
        ),
{
    let mut t = t;
    let quotes = match &t.data.quote {
        Some(q) => q.id.is_some(),
        None => false,
    };
    if quotes && quoted.is_some() {
        let data_quote = match &quoted {
            Some(q) => Quote {
                id: Some(q.timestamp),
                author_aci: match q.author {
                    Some(a) => Some(uuid_string(a)),
                    None => None,
                },
                text: match &q.body {
                    Some(b) => Some(owned(b.as_str())),
                    None => None,
                },
            },
            None => Quote { id: None, author_aci: None, text: None },
        };
        t.data.quote = Some(data_quote);
        t.quote = quoted;
    }
    apply_pending(pending, &mut t);
    t
}

/// Applies the reactions that wait for the text message `t`, in order.
fn apply_pending(pending: &Vec<PendingEntry>, t: &mut TextMessage)
    requires
        pending_wf(pending@),
    ensures
        reaction_map(final(t).reactions@) == apply_reactions(
            reaction_map(old(t).reactions@),
            pending_for(pending@, old(t).timestamp),
        ),
        final(t).sender == old(t).sender,
        final(t).timestamp == old(t).timestamp,
        final(t).read == old(t).read,
        final(t).data == old(t).data,
        final(t).is_deleted == old(t).is_deleted,
        final(t).quote == old(t).quote,
{
    let ghost es = pending@;
    let ghost t0 = *t;
    proof {
        lemma_pending_for_index(es, t.timestamp);
    }
    match pending_index(pending, t.timestamp) {
        Some(idx) => {
            let rs = &pending[idx].reactions;
            let ghost m0 = reaction_map(t0.reactions@);
            let mut i: usize = 0;
            while i < rs.len()
                invariant
                    i <= rs@.len(),
                    reaction_map(t.reactions@) == apply_reactions(m0, rs@.take(i as int)),
                    t.sender == t0.sender,
                    t.timestamp == t0.timestamp,
                    t.read == t0.read,
                    t.data == t0.data,
                    t.is_deleted == t0.is_deleted,
                    t.quote == t0.quote,
                decreases rs.len() - i,
            {
                t.react(rs[i].sender, rs[i].reaction.clone());
                assert(rs@.take(i + 1).drop_last() =~= rs@.take(i as int));
                i += 1;
            }
            assert(rs@.take(rs@.len() as int) =~= rs@);
        },
        None => {},
    }
}

impl Channel {
    /// Whether the channel is a 1-to-1 channel.
    pub open spec fn spec_is_contact(&self) -> bool {
        self.contact is Some
    }

    /// Whether the channel is the one with this account itself.
    pub open spec fn spec_is_self(&self) -> bool {
        self.contact matches Some(c) && c.spec_is_self()
    }

    /// The title where it is known: the group's title, else the contact's title where that is
    /// known (the channel with this account itself has a translated title), else empty.
    pub open spec fn known_title(&self) -> Option<Seq<char>> {
        match self.group {
            Some(g) => Some(g.title@),
            None => match self.contact {
                Some(c) => if c.spec_is_self() {
                    None
                } else {
                    c.known_title()
                },
                None => Some(Seq::<char>::empty()),
            },
        }
    }

    /// Seconds after which messages disappear (0 for never): as the group sets it, else as the
    /// contact has it.
    pub open spec fn spec_disappearing_timer(&self) -> u32 {
        match self.group {
            Some(g) => match g.disappearing_messages_timer {
                Some(t) => t,
                None => 0,
            },
            None => match self.contact {
                Some(c) => match c.contact {
                    Some(sc) => sc.expire_timer,
                    None => 0,
                },
                None => 0,
            },
        }
    }

    /// The description: the contact's, else the group's.
    pub open spec fn spec_description(&self) -> Option<Seq<char>> {
        match self.contact {
            Some(c) => c.spec_description(),
            None => match self.group {
                Some(g) => match g.description {
                    Some(d) => Some(d@),
                    None => None,
                },
                None => None,
            },
        }
    }

    /// The thread of the channel can be named: the group context has a master key of 32 bytes,
    /// or the contact is in the contact list.
    pub open spec fn has_thread(&self) -> bool {
        group_key(self.group_context) is Some || (self.contact matches Some(c) && c.contact is Some)
    }

    /// The thread of the channel: the group of the master key, else the contact's account
    /// identity.
    pub open spec fn spec_thread(&self) -> ThreadKey {
        match group_key(self.group_context) {
            Some(k) => ThreadKey::Group(k),
            None => ThreadKey::Contact(ServiceId::Aci(self.contact->0.contact->0.uuid)),
        }
    }

    /// Whether the channel is a 1-to-1 channel.
    pub fn is_contact(&self) -> (r: bool)
        ensures
            r == self.spec_is_contact(),
    {
        self.contact.is_some()
    }

    /// Whether the channel is the one with this account itself.
    pub fn is_self(&self) -> (r: bool)
        ensures
            r == self.spec_is_self(),
    {
        match &self.contact {
            Some(c) => c.is_self(),
            None => false,
        }
    }

    /// The title of the channel: [known_title](Channel::known_title) where it is known, else the
    /// translation of [note_to_self_msgid].
    pub fn title(&self) -> (r: String)
        ensures
            self.known_title() matches Some(t) ==> r@ == t,
    {
        match &self.group {
            Some(g) => owned(g.title.as_str()),
            None => match &self.contact {
                Some(c) => if c.is_self() {
                    let id = note_to_self_msgid();
                    proof {
                        reveal_strlit("Note to self");
                    }
                    gettext(id)
                } else {
                    c.title()
                },
                None => String::new(),
            },
        }
    }

    /// Seconds after which messages disappear (see
    /// [spec_disappearing_timer](Channel::spec_disappearing_timer)).
    pub fn disappearing_messages_timer(&self) -> (r: u32)
        ensures
            r == self.spec_disappearing_timer(),
    {
        match &self.group {
            Some(g) => match g.disappearing_messages_timer {
                Some(t) => t,
                None => 0,
            },
            None => match &self.contact {
                Some(c) => c.expire_timer(),
                None => 0,
            },
        }
    }

    /// The phone number of the contact, in E.164 form.
    pub fn phone_number(&self) -> (r: Option<String>)
        ensures
            match self.contact {
                Some(c) => match c.contact {
                    Some(sc) => match sc.phone_number {
                        Some(p) => r matches Some(s) && s@ == p@,
                        None => r is None,
                    },
                    None => r is None,
                },
                None => r is None,
            },
    {
        match &self.contact {
            Some(c) => c.phone_number(),
            None => None,
        }
    }

    /// The description of the channel (see [spec_description](Channel::spec_description)).
    pub fn description(&self) -> (r: Option<String>)
        ensures
            match r {
                Some(s) => self.spec_description() == Some(s@),
                None => self.spec_description() is None,
            },
    {
        match &self.contact {
            Some(c) => c.description(),
            None => match &self.group {
                Some(g) => match &g.description {
                    Some(d) => Some(owned(d.as_str())),
                    None => None,
                },
                None => None,
            },
        }
    }

    /// The first names and the last name: for the channel with this account itself no first
    /// names and the translation of [note_to_self_msgid]; for a group no first names and its title;
    /// else the contact's name parts.
    pub fn name_parts(&self) -> (r: (Option<String>, String))
        requires
            self.group is Some || self.contact is Some,
        ensures
            self.spec_is_self() ==> r.0 is None,
            (!self.spec_is_self() && self.group is Some) ==> r.0 is None && r.1@ == self.group->0.title@,
            !self.spec_is_self() && self.group is None ==> (self.contact->0.known_name_parts() matches Some(k) ==> k == (
                match r.0 {
                    Some(x) => Some(x@),
                    None => None,
                },
                r.1@,
            )),
    {
        if self.is_self() {
            let id = note_to_self_msgid();
            proof {
                reveal_strlit("Note to self");
            }
            (None, gettext(id))
        } else {
            match &self.group {
                Some(g) => (None, owned(g.title.as_str())),
                None => self.contact.as_ref().unwrap().name_parts(),
            }
        }
    }

    /// The last name (see [name_parts](Channel::name_parts)).
    pub fn last_name(&self) -> (r: String)
        requires
            self.group is Some || self.contact is Some,
        ensures
            (!self.spec_is_self() && self.group is Some) ==> r@ == self.group->0.title@,
            !self.spec_is_self() && self.group is None ==> (self.contact->0.known_name_parts() matches Some(k) ==> k.1 == r@),
    {
        self.name_parts().1
    }

    /// The name by which channels are sorted: the last name where the settings sort by surname
    /// (`by_surname`), else the title.
    pub fn sort_name(&self, by_surname: bool) -> (r: String)
        requires
            self.group is Some || self.contact is Some,
        ensures
            !by_surname ==> (self.known_title() matches Some(t) ==> r@ == t),
            (by_surname && !self.spec_is_self() && self.group is Some) ==> r@ == self.group->0.title@,
    {
        if by_surname {
            self.last_name()
        } else {
            self.title()
        }
    }

    /// The thread of the channel (see [spec_thread](Channel::spec_thread)).
    pub fn thread(&self) -> (r: Thread)
        requires
            self.has_thread(),
        ensures
            thread_key(r) == self.spec_thread(),
    {
        match &self.group_context {
            Some(gc) => match &gc.master_key {
                Some(k) => if k.len() == 32 {
                    return Thread::Group(key_from_bytes(k));
                },
                None => {},
            },
            None => {},
        }
        let uuid = self.contact.as_ref().unwrap().contact.as_ref().unwrap().uuid;
        Thread::Contact(ServiceId::Aci(uuid))
    }

    /// What a notification of the channel carries to find the channel again (see
    /// [variant_of]).
    pub fn notification_variant(&self) -> (r: (u8, Vec<u8>))
        requires
            self.has_thread(),
        ensures
            (r.0, r.1@) == variant_of(self.spec_thread()),
    {
        match self.thread() {
            Thread::Contact(s) => (0, s.service_id_binary()),
            Thread::Group(k) => {
                let mut v: Vec<u8> = Vec::new();
                let mut i: usize = 0;
                while i < 32
                    invariant
                        i <= 32,
                        v@ == k@.take(i as int),
                    decreases 32 - i,
                {
                    v.push(k[i]);
                    assert(v@ =~= k@.take(i + 1));
                    i += 1;
                }
                assert(k@.take(32) =~= k@);
                (1, v)
            },
        }
    }

    /// The thread that a notification variant names (see [thread_of_variant]).
    pub fn from_notification_variant(kind: u8, data: &Vec<u8>) -> (r: Thread)
        requires
            thread_of_variant(kind, data@) is Some,
        ensures
            thread_of_variant(kind, data@) == Some(thread_key(r)),
    {
        if kind == 0 {
            Thread::Contact(ServiceId::parse_from_service_id_binary(data).unwrap())
        } else {
            Thread::Group(key_from_bytes(data))
        }
    }

    /// The last shown message that is not deleted.
    pub fn last_message(&self) -> (r: Option<&DisplayMessage>)
        ensures
            match r {
                Some(m) => exists|k: int|
                    0 <= k < self.timeline.items().len() && self.timeline.items()[k] == *m
                        && !is_deleted_text(*m) && forall|j: int|
                        k < j < self.timeline.items().len() ==> is_deleted_text(
                            #[trigger] self.timeline.items()[j],
                        ),
                None => forall|j: int|
                    0 <= j < self.timeline.items().len() ==> is_deleted_text(
                        #[trigger] self.timeline.items()[j],
                    ),
            },
    {
        match self.timeline.last_message_index() {
            Some(k) => Some(self.timeline.get(k)),
            None => None,
        }
    }

    /// Marks the unread messages at the end of the timeline as read (see
    /// [Timeline::mark_all_read]); gives the identifiers of their notifications.
    pub fn mark_as_read(&mut self) -> (r: Vec<String>)
        requires
            old(self).wf(),
        ensures
            final(self).wf(),
            old(self).keeps_settings(*final(self)),
            final(self).pending_reactions == old(self).pending_reactions,
            final(self).timeline.items().len() == old(self).timeline.items().len(),
            ({
                let s = old(self).timeline.items();
                let k = unread_from(s, s.len() as int);
                &&& forall|j: int|
                    0 <= j < k ==> #[trigger] final(self).timeline.items()[j] == s[j]
                &&& forall|j: int|
                    k <= j < s.len() ==> #[trigger] final(self).timeline.items()[j]
                        == s[j].with_read()
                &&& views(r@) == uids_between(s, k, s.len() as int)
            }),
    {
        self.timeline.mark_all_read()
    }

    /// Puts a message that this account sent into the timeline, marked read.
    pub fn add_sent_message(&mut self, m: DisplayMessage)
        requires
            old(self).wf(),
        ensures
            final(self).wf(),
            old(self).keeps_settings(*final(self)),
            final(self).pending_reactions == old(self).pending_reactions,
            by_ts(final(self).timeline.items()) == by_ts(old(self).timeline.items()).insert(
                m.ts(),
                m.with_read(),
            ),
    {
        let mut m = m;
        m.mark_as_read();
        self.timeline.append(m);
    }

    /// Loads earlier messages from storage, newest first (`stored`: for each stored content, the
    /// message that it is for the channel, where it is one, with the message that it quotes,
    /// where that was found): each is marked read and registered (see
    /// [Channel::do_new_message]), until `number` shown messages were taken; those are then put
    /// at the start of the timeline (see [Timeline::prepend]). Tells how many stored contents
    /// were taken (see [loaded_count]).
    pub fn load_last(&mut self, stored: Vec<Option<(Message, Option<QuotedMessage>)>>, number: usize) -> (r: usize)
        requires
            old(self).wf(),
            newest_first(stored@),
        ensures
            final(self).wf(),
            r == loaded_count(stored@, number as nat, 0),
            exists|states: Seq<Channel>, outs: Seq<Option<Message>>|
                #![trigger states.len(), outs.len()]
                {
                    &&& states.len() == r + 1
                    &&& outs.len() == r
                    &&& states[0] == *old(self)
                    &&& forall|i: int|
                        0 <= i < r ==> loaded_step(states[i], #[trigger] states[i + 1], stored@[i], outs[i])
                    &&& *final(self) == (Channel { timeline: final(self).timeline, ..states[r as int] })
                    &&& final(self).timeline.own() == states[r as int].timeline.own()
                    &&& by_ts(final(self).timeline.items()) == by_ts(
                        states[r as int].timeline.items(),
                    ).union_prefer_right(by_ts(shown_reversed(outs)))
                },
    {
        let ghost orig = stored@;
        let n = stored.len();
        let mut rest = stored;
        let mut results: Vec<DisplayMessage> = Vec::new();
        let ghost mut states: Seq<Channel> = seq![*self];
        let ghost mut outs: Seq<Option<Message>> = seq![];
        let mut i: usize = 0;
        assert(orig.take(0) =~= Seq::<Option<(Message, Option<QuotedMessage>)>>::empty());
        while i < n
            invariant_except_break
                loaded_count(orig, number as nat, 0) == loaded_count(orig, number as nat, i as int),
            invariant
                n == orig.len(),
                i <= n,
                rest@ == orig.subrange(i as int, n as int),
                newest_first(orig),
                self.wf(),
                states.len() == i + 1,
                outs.len() == i,
                states[0] == *old(self),
                states[i as int] == *self,
                forall|k: int| 0 <= k < i ==> loaded_step(states[k], #[trigger] states[k + 1], orig[k], outs[k]),
                results@ == shown_reversed(outs),
                results@.len() == display_count(orig.take(i as int)),
                strictly_sorted(results@),
                forall|a: int, j: int|
                    #![trigger results@[a], orig[j]]
                    0 <= a < results@.len() && i <= j < n ==> (orig[j] matches Some(
                        (Message::Display(d), _),
                    ) ==> results@[a].ts() > d.ts()),
            ensures
                i == loaded_count(orig, number as nat, 0),
            decreases n - i,
        {
            let item = rest.remove(0);
            assert(item == orig[i as int]);
            let ghost before = *self;
            let ghost old_results = results@;
            let ghost out: Option<Message> = None;
            match item {
                Some((message, quoted)) => {
                    let ghost m0 = message;
                    let mut message = message;
                    message.mark_as_read();
                    let m = self.do_new_message(message, quoted);
                    proof {
                        out = Some(m);
                    }
                    match m {
                        Message::Display(d) => {
                            proof {
                                assert(m0 matches Message::Display(d0) && d.ts() == d0.ts());
                                assert forall|a: int, b: int| 0 <= a < b < old_results.len() + 1 implies #[trigger] old_results.insert(0, d)[a].ts() < #[trigger] old_results.insert(0, d)[b].ts() by {
                                    if a > 0 {
                                        assert(old_results.insert(0, d)[a] == old_results[a - 1]);
                                    }
                                    assert(old_results.insert(0, d)[b] == old_results[b - 1]);
                                }
                            }
                            results.insert(0, d);
                        },
                        _ => {
                            proof {
                                assert(!(m0 is Display));
                            }
                        },
                    }
                },
                None => {},
            }
            proof {
                let old_outs = outs;
                states = states.push(*self);
                outs = outs.push(out);
                assert(outs.drop_last() =~= old_outs);
                assert(outs.last() == out);
                assert(states[i as int] == before);
                assert(loaded_step(states[i as int], states[i + 1], orig[i as int], outs[i as int]));
                assert(orig.take(i + 1).drop_last() =~= orig.take(i as int));
                assert(orig.take(i + 1).last() == orig[i as int]);
                match out {
                    Some(Message::Display(d)) => {
                        assert(results@ =~= seq![d] + old_results);
                    },
                    _ => {
                        assert(results@ == old_results);
                    },
                }
            }
            i += 1;
            assert(rest@ =~= orig.subrange(i as int, n as int));
            if results.len() == number {
                break;
            }
        }
        self.timeline.prepend(results);
        i
    }

    /// Whether someone is typing.
    pub fn is_typing(&self) -> (r: bool)
        ensures
            r == (self.typing@.len() > 0),
    {
        self.typing.len() > 0
    }

    /// Position of the typing notification of `sender`.
    fn typing_position(&self, sender: u128) -> (r: Option<usize>)
        ensures
            match r {
                Some(i) => i == typing_index(self.typing@, sender),
                None => typing_index(self.typing@, sender) == -1,
            },
    {
        let mut k = self.typing.len();
        assert(self.typing@.take(k as int) =~= self.typing@);
        while k > 0
            invariant
                k <= self.typing@.len(),
                typing_index(self.typing@, sender) == typing_index(self.typing@.take(k as int), sender),
            decreases k,
        {
            if self.typing[k - 1].sender == sender {
                return Some(k - 1);
            }
            assert(self.typing@.take(k as int).drop_last() =~= self.typing@.take(k - 1));
            k -= 1;
        }
        None
    }

    /// Records that a contact is typing: the notification replaces an earlier one of the same
    /// contact.
    pub fn add_user_typing(&mut self, n: TypingNotification)
        requires
            old(self).wf(),
        ensures
            final(self).wf(),
            final(self).typing@ == typing_added(old(self).typing@, n),
            final(self).timeline == old(self).timeline,
            final(self).pending_reactions == old(self).pending_reactions,
            final(self).is_active == old(self).is_active,
            final(self).draft == old(self).draft,
            final(self).contact == old(self).contact,
            final(self).group == old(self).group,
            final(self).group_context == old(self).group_context,
    {
        let ghost ts = self.typing@;
        proof {
            lemma_typing_index(ts, n.sender);
        }
        match self.typing_position(n.sender) {
            Some(i) => {
                self.typing.set(i, n);
                proof {
                    let t2 = self.typing@;
                    assert forall|a: int, b: int| 0 <= a < b < t2.len() implies #[trigger] t2[a].sender
                        != #[trigger] t2[b].sender by {
                        assert(ts[a].sender != ts[b].sender);
                    }
                }
            },
            None => {
                self.typing.push(n);
                proof {
                    let t2 = self.typing@;
                    assert forall|a: int, b: int| 0 <= a < b < t2.len() implies #[trigger] t2[a].sender
                        != #[trigger] t2[b].sender by {
                        if b == t2.len() - 1 {
                            assert(ts[a].sender != n.sender);
                        } else {
                            assert(t2[a] == ts[a] && t2[b] == ts[b]);
                        }
                    }
                }
            },
        }
    }

    /// Records that a contact stopped typing.
    pub fn remove_user_typing(&mut self, sender: u128)
        requires
            old(self).wf(),
        ensures
            final(self).wf(),
            final(self).typing@ == typing_removed(old(self).typing@, sender),
            final(self).timeline == old(self).timeline,
            final(self).pending_reactions == old(self).pending_reactions,
            final(self).is_active == old(self).is_active,
            final(self).draft == old(self).draft,
            final(self).contact == old(self).contact,
            final(self).group == old(self).group,
            final(self).group_context == old(self).group_context,
    {
        let ghost ts = self.typing@;
        proof {
            lemma_typing_index(ts, sender);
        }
        match self.typing_position(sender) {
            Some(i) => {
                self.typing.remove(i);
                proof {
                    let t2 = self.typing@;
                    assert forall|a: int, b: int| 0 <= a < b < t2.len() implies #[trigger] t2[a].sender
                        != #[trigger] t2[b].sender by {
                        if b < i {
                            assert(t2[a] == ts[a] && t2[b] == ts[b]);
                        } else if a < i {
                            assert(t2[a] == ts[a] && t2[b] == ts[b + 1]);
                        } else {
                            assert(t2[a] == ts[a + 1] && t2[b] == ts[b + 1]);
                        }
                    }
                }
            },
            None => {},
        }
    }

    /// A typing notification ran out: it is removed where it is still the contact's latest
    /// one (the notification with `timestamp`); tells whether it was.
    pub fn typing_expired(&mut self, sender: u128, timestamp: u64) -> (r: bool)
        requires
            old(self).wf(),
        ensures
            final(self).wf(),
            ({
                let ts = old(self).typing@;
                let i = typing_index(ts, sender);
                &&& r == (i >= 0 && ts[i].timestamp == timestamp)
                &&& final(self).typing@ == if r {
                    typing_removed(ts, sender)
                } else {
                    ts
                }
            }),
            final(self).timeline == old(self).timeline,
            final(self).pending_reactions == old(self).pending_reactions,
            final(self).is_active == old(self).is_active,
            final(self).draft == old(self).draft,
            final(self).contact == old(self).contact,
            final(self).group == old(self).group,
            final(self).group_context == old(self).group_context,
    {
        proof {
            lemma_typing_index(self.typing@, sender);
        }
        match self.typing_position(sender) {
            Some(i) => {
                if self.typing[i].timestamp == timestamp {
                    self.remove_user_typing(sender);
                    true
                } else {
                    false
                }
            },
            None => false,
        }
    }

    /// The titles of those who are typing, each once, in ascending order.
    pub fn typing_titles(&self) -> (r: Vec<String>)
        ensures
            strictly_ascending(views(r@)),
            forall|t: Seq<char>|
                #[trigger] views(r@).contains(t) <==> exists|i: int|
                    0 <= i < self.typing@.len() && self.typing@[i].sender_title@ == t,
    {
        let mut titles: Vec<String> = Vec::new();
        let mut i: usize = 0;
        while i < self.typing.len()
            invariant
                i <= self.typing@.len(),
                strictly_ascending(views(titles@)),
                forall|t: Seq<char>|
                    #[trigger] views(titles@).contains(t) <==> exists|j: int|
                        0 <= j < i && self.typing@[j].sender_title@ == t,
            decreases self.typing.len() - i,
        {
            let title = owned(self.typing[i].sender_title.as_str());
            let ghost before = views(titles@);
            insert_sorted_unique(&mut titles, title);
            proof {
                assert forall|t: Seq<char>|
                    #[trigger] views(titles@).contains(t) <==> exists|j: int|
                        0 <= j < i + 1 && self.typing@[j].sender_title@ == t by {
                    if views(titles@).contains(t) && t != self.typing@[i as int].sender_title@ {
                        assert(before.contains(t));
                    }
                    if exists|j: int| 0 <= j < i + 1 && self.typing@[j].sender_title@ == t {
                        let j = choose|j: int| 0 <= j < i + 1 && self.typing@[j].sender_title@ == t;
                        if j < i {
                            assert(before.contains(t));
                        }
                    }
                }
            }
            i += 1;
        }
        titles
    }

    /// The label that tells who is typing: for the channel with this account itself the
    /// translation of [own_typing_msgid]; else the plural translation of
    /// [typing_plural_args] for the number of [typing titles](Channel::typing_titles), with the
    /// titles joined in (see [fill_typing_label]).
    pub fn typing_label(&self) -> (r: String)
        ensures
            !self.spec_is_self() ==> exists|template: Seq<char>, titles: Seq<Seq<char>>|
                r@ == typing_label_text(template, titles) && strictly_ascending(titles) && (
                forall|t: Seq<char>|
                    #[trigger] titles.contains(t) <==> exists|i: int|
                        0 <= i < self.typing@.len() && self.typing@[i].sender_title@ == t),
    {
        if self.is_self() {
            let id = own_typing_msgid();
            proof {
                reveal_strlit("is typing");
            }
            gettext(id)
        } else {
            let titles = self.typing_titles();
            let (one, many, n) = typing_plural_args(titles.len());
            proof {
                reveal_strlit("{} is typing");
                reveal_strlit("{} are typing");
            }
            let template = ngettext(one, many, n);
            let r = fill_typing_label(template.as_str(), &titles);
            assert(r@ == typing_label_text(template@, views(titles@)));
            r
        }
    }
}

/// The latest reaction of `sender` among `rs`, where there is one.
pub open spec fn latest_reaction_of(rs: Seq<ReactionMessage>, sender: u128) -> Option<Reaction>
    decreases rs.len(),
{
    if rs.len() == 0 {
        None
    } else if rs.last().sender == sender {
        Some(rs.last().reaction)
    } else {
        latest_reaction_of(rs.drop_last(), sender)
    }
}

/// Applying reactions in order leaves, for each sender, what its latest reaction says: a
/// removal leaves no reaction of the sender, any other reaction is the sender's reaction; a
/// sender without reactions keeps what it had.
pub proof fn lemma_latest_reaction_wins(m: Map<u128, Reaction>, rs: Seq<ReactionMessage>, sender: u128)
    ensures
        match latest_reaction_of(rs, sender) {
            Some(r) => if is_removal(r) {
                !apply_reactions(m, rs).dom().contains(sender)
            } else {
                apply_reactions(m, rs).dom().contains(sender) && apply_reactions(m, rs)[sender]
                    == r
            },
            None => apply_reactions(m, rs).dom().contains(sender) == m.dom().contains(sender)
                && (m.dom().contains(sender) ==> apply_reactions(m, rs)[sender] == m[sender]),
        },
    decreases rs.len(),
{
    if rs.len() > 0 {
        lemma_latest_reaction_wins(m, rs.drop_last(), sender);
    }
}

/// Where the last reaction of `sender` among `rs` stands at `k`, it is the sender's latest.
proof fn lemma_latest_at(rs: Seq<ReactionMessage>, sender: u128, k: int)
    requires
        0 <= k < rs.len(),
        rs[k].sender == sender,
        forall|j: int| k < j < rs.len() ==> #[trigger] rs[j].sender != sender,
    ensures
        latest_reaction_of(rs, sender) == Some(rs[k].reaction),
    decreases rs.len(),
{
    if k < rs.len() - 1 {
        let front = rs.drop_last();
        assert(rs[rs.len() - 1].sender != sender);
        assert forall|j: int| k < j < front.len() implies #[trigger] front[j].sender != sender by {
            assert(front[j] == rs[j]);
        }
        lemma_latest_at(front, sender, k);
    }
}

/// A reaction that arrives before the message it reacts to waits for it, and the message takes
/// it when it arrives: after a channel registered the reaction `r` (see
/// [Channel::do_new_message]) to a message that its timeline does not hold, and then the text
/// message `tm` with the timestamp that `r` targets, `tm` comes back with `r`'s reaction as the
/// reaction of `r`'s sender. This holds where `r` removes no reaction, and where no reaction of
/// the same sender with the same or a later timestamp already waits for that message.
pub proof fn lemma_pending_reaction_applied(
    c0: Channel,
    c1: Channel,
    c2: Channel,
    r: ReactionMessage,
    q1: Option<QuotedMessage>,
    out1: Message,
    tm: TextMessage,
    q2: Option<QuotedMessage>,
    out2: Message,
)
    requires
        !by_ts(c0.timeline.items()).dom().contains(reaction_target(r.reaction)),
        !is_removal(r.reaction),
        forall|j: int|
            0 <= j < c0.pending(reaction_target(r.reaction)).len() && (#[trigger] c0.pending(
                reaction_target(r.reaction),
            )[j]).sender == r.sender ==> c0.pending(reaction_target(r.reaction))[j].timestamp
                < r.timestamp,
        c0.registered(c1, Message::Reaction(r), q1, out1),
        c1.registered(c2, Message::Display(DisplayMessage::Text(tm)), q2, out2),
        tm.timestamp == reaction_target(r.reaction),
    ensures
        out2 matches Message::Display(DisplayMessage::Text(t2)) && reaction_map(
            t2.reactions@,
        ).dom().contains(r.sender) && reaction_map(t2.reactions@)[r.sender] == r.reaction,
{
    let t = reaction_target(r.reaction);
    let r1 = ReactionMessage { read: r.read || c0.marks(Message::Reaction(r)), ..r };
    let before = c0.pending(t);
    let after = c1.pending(t);
    let i = choose|i: int| inserted_at(before, after, r1, i);
    assert(inserted_at(before, after, r1, i));
    assert(after[i] == r1);
    assert forall|j: int| i < j < after.len() implies #[trigger] after[j].sender != r.sender by {
        assert(after[j] == before[j - 1]);
        if before[j - 1].sender == r.sender {
            assert(before[j - 1].timestamp < r.timestamp);
        }
    }
    lemma_latest_at(after, r.sender, i);
    match out2 {
        Message::Display(DisplayMessage::Text(t2)) => {
            lemma_latest_reaction_wins(reaction_map(tm.reactions@), after, r.sender);
        },
        _ => {},
    }
}

/// A notification variant names again the thread that it was made for.
pub proof fn lemma_notification_variant_roundtrip(t: ThreadKey)
    requires
        t matches ThreadKey::Group(k) ==> k.len() == 32,
    ensures
        thread_of_variant(variant_of(t).0, variant_of(t).1) == Some(t),
{
    match t {
        ThreadKey::Contact(s) => {
            crate::content::lemma_service_id_roundtrip(s);
        },
        ThreadKey::Group(k) => {},
    }
}

/// After a contact stopped typing, no notification of it is left; after a notification
/// arrived, it is the one of its contact.
pub proof fn lemma_typing_add_remove(ts: Seq<TypingNotification>, n: TypingNotification)
    requires
        forall|i: int, j: int| 0 <= i < j < ts.len() ==> #[trigger] ts[i].sender != #[trigger] ts[j].sender,
    ensures
        typing_index(typing_removed(ts, n.sender), n.sender) == -1,
        typing_index(typing_added(ts, n), n.sender) >= 0,
        typing_added(ts, n)[typing_index(typing_added(ts, n), n.sender)] == n,
{
    lemma_typing_index(ts, n.sender);
    let i = typing_index(ts, n.sender);
    let r = typing_removed(ts, n.sender);
    lemma_typing_index(r, n.sender);
    if typing_index(r, n.sender) >= 0 {
        let k = typing_index(r, n.sender);
        if i >= 0 {
            if k < i {
                assert(r[k] == ts[k]);
                assert(ts[k].sender != ts[i].sender);
            } else {
                assert(r[k] == ts[k + 1]);
            }
        } else {
            assert(r[k] == ts[k]);
        }
    }
    let a = typing_added(ts, n);
    lemma_typing_index(a, n.sender);
    if i >= 0 {
        if typing_index(a, n.sender) != i {
            let k = typing_index(a, n.sender);
            if k >= 0 {
                assert(a[k] == ts[k]);
                assert(ts[k].sender != ts[i].sender);
            } else {
                assert(a[i] == n);
            }
        }
    } else {
        assert(a[ts.len() as int] == n);
    }
}

/// Where a reaction with timestamp `ts` goes in a list ordered by timestamp.
fn insertion_point(rs: &Vec<ReactionMessage>, ts: u64) -> (r: usize)
    requires
        reactions_sorted(rs@),
    ensures
        r <= rs@.len(),
        forall|j: int| 0 <= j < r ==> (#[trigger] rs@[j]).timestamp <= ts,
        forall|j: int| r <= j < rs@.len() ==> (#[trigger] rs@[j]).timestamp >= ts,
{
    let mut lo: usize = 0;
    let mut hi: usize = rs.len();
    while lo < hi
        invariant
            reactions_sorted(rs@),
            lo <= hi <= rs@.len(),
            forall|j: int| 0 <= j < lo ==> (#[trigger] rs@[j]).timestamp <= ts,
            forall|j: int| hi <= j < rs@.len() ==> (#[trigger] rs@[j]).timestamp >= ts,
        decreases hi - lo,
    {
        let mid = lo + (hi - lo) / 2;
        let t = rs[mid].timestamp;
        if t == ts {
            proof {
                assert forall|j: int| 0 <= j < mid implies (#[trigger] rs@[j]).timestamp <= ts by {
                    assert(rs@[j].timestamp <= rs@[mid as int].timestamp);
                }
                assert forall|j: int| mid <= j < rs@.len() implies (#[trigger] rs@[j]).timestamp
                    >= ts by {
                    assert(rs@[mid as int].timestamp <= rs@[j].timestamp);
                }
            }
            return mid;
        } else if t < ts {
            proof {
                assert forall|j: int| 0 <= j < mid + 1 implies (#[trigger] rs@[j]).timestamp <= ts by {
                    assert(rs@[j].timestamp <= rs@[mid as int].timestamp);
                }
            }
            lo = mid + 1;
        } else {
            proof {
                assert forall|j: int| mid <= j < rs@.len() implies (#[trigger] rs@[j]).timestamp
                    >= ts by {
                    assert(rs@[mid as int].timestamp <= rs@[j].timestamp);
                }
            }
            hi = mid;
        }
    }
    lo
}

/// Inserting at a place between smaller-or-equal and greater-or-equal timestamps keeps a list
/// ordered.
pub proof fn lemma_insert_keeps_sorted(rs: Seq<ReactionMessage>, i: int, r: ReactionMessage)
    requires
        reactions_sorted(rs),
        0 <= i <= rs.len(),
        forall|j: int| 0 <= j < i ==> (#[trigger] rs[j]).timestamp <= r.timestamp,
        forall|j: int| i <= j < rs.len() ==> (#[trigger] rs[j]).timestamp >= r.timestamp,
    ensures
        reactions_sorted(rs.insert(i, r)),
{
    let s = rs.insert(i, r);
    assert forall|a: int, b: int| 0 <= a <= b < s.len() implies #[trigger] s[a].timestamp
        <= #[trigger] s[b].timestamp by {
        if a < i && b < i {
            assert(s[a] == rs[a] && s[b] == rs[b]);
        } else if a < i && b == i {
            assert(s[a] == rs[a]);
        } else if a < i {
            assert(s[a] == rs[a] && s[b] == rs[b - 1]);
        } else if a == i && b > i {
            assert(s[b] == rs[b - 1]);
        } else if a > i {
            assert(s[a] == rs[a - 1] && s[b] == rs[b - 1]);
        }
    }
}

/// The pending reactions of a target are those of its entry.
pub proof fn lemma_pending_for_index(es: Seq<PendingEntry>, target: u64)
    requires
        pending_wf(es),
    ensures
        forall|i: int|
            0 <= i < es.len() && #[trigger] es[i].target == target ==> pending_for(es, target)
                == es[i].reactions@,
        (forall|i: int| 0 <= i < es.len() ==> #[trigger] es[i].target != target) ==> pending_for(
            es,
            target,
        ) == Seq::<ReactionMessage>::empty(),
    decreases es.len(),
{
    if es.len() > 0 {
        let p = es.drop_last();
        assert forall|i: int, j: int| 0 <= i < j < p.len() implies #[trigger] p[i].target
            != #[trigger] p[j].target by {
            assert(p[i] == es[i] && p[j] == es[j]);
        }
        assert forall|i: int| 0 <= i < p.len() implies reactions_sorted(#[trigger] p[i].reactions@) by {
            assert(p[i] == es[i]);
        }
        lemma_pending_for_index(p, target);
        assert forall|i: int|
            0 <= i < es.len() && #[trigger] es[i].target == target implies pending_for(es, target)
            == es[i].reactions@ by {
            if i < es.len() - 1 {
                assert(p[i] == es[i]);
                assert(es.last().target != target);
            }
        }
        if forall|i: int| 0 <= i < es.len() ==> #[trigger] es[i].target != target {
            assert(es[es.len() - 1].target != target);
            assert forall|i: int| 0 <= i < p.len() implies #[trigger] p[i].target != target by {
                assert(p[i] == es[i]);
            }
        }
    }
}

/// Replacing the reactions of an entry changes only the reactions of its target.
pub proof fn lemma_pending_update(es: Seq<PendingEntry>, idx: int, e: PendingEntry)
    requires
        pending_wf(es),
        0 <= idx < es.len(),
        e.target == es[idx].target,
        reactions_sorted(e.reactions@),
    ensures
        pending_wf(es.update(idx, e)),
        pending_for(es.update(idx, e), e.target) == e.reactions@,
        forall|t: u64| t != e.target ==> #[trigger] pending_for(es.update(idx, e), t) == pending_for(es, t),
{
    let u = es.update(idx, e);
    assert forall|i: int, j: int| 0 <= i < j < u.len() implies #[trigger] u[i].target
        != #[trigger] u[j].target by {
        assert(es[i].target != es[j].target);
    }
    assert forall|i: int| 0 <= i < u.len() implies reactions_sorted(#[trigger] u[i].reactions@) by {
        if i != idx {
            assert(u[i] == es[i]);
        }
    }
    lemma_pending_for_index(u, e.target);
    assert(u[idx].target == e.target);
    assert forall|t: u64| t != e.target implies #[trigger] pending_for(u, t) == pending_for(es, t) by {
        lemma_pending_for_index(es, t);
        lemma_pending_for_index(u, t);
        if exists|i: int| 0 <= i < es.len() && #[trigger] es[i].target == t {
            let i = choose|i: int| 0 <= i < es.len() && #[trigger] es[i].target == t;
            assert(u[i] == es[i]);
        } else {
            assert forall|i: int| 0 <= i < u.len() implies #[trigger] u[i].target != t by {
                if i != idx {
                    assert(u[i] == es[i]);
                }
            }
        }
    }
}

/// The shown messages among stored ones come newest first: strictly decreasing timestamps.
pub open spec fn newest_first(s: Seq<Option<(Message, Option<QuotedMessage>)>>) -> bool {
    forall|i: int, j: int|
        0 <= i < j < s.len() ==> match (#[trigger] s[i], #[trigger] s[j]) {
            (Some((Message::Display(a), _)), Some((Message::Display(b), _))) => a.ts() > b.ts(),
            _ => true,
        }
}

/// How many of the stored contents are shown messages.
pub open spec fn display_count(s: Seq<Option<(Message, Option<QuotedMessage>)>>) -> nat
    decreases s.len(),
{
    if s.len() == 0 {
        0
    } else {
        display_count(s.drop_last()) + if s.last() matches Some((Message::Display(_), _)) {
            1nat
        } else {
            0nat
        }
    }
}

/// How many stored contents loading takes, looking from position `k` on: up to and including
/// the first at which `number` shown messages were taken, else all.
pub open spec fn loaded_count(s: Seq<Option<(Message, Option<QuotedMessage>)>>, number: nat, k: int) -> int
    decreases s.len() - k,
{
    if k >= s.len() || k < 0 {
        s.len() as int
    } else if display_count(s.take(k + 1)) == number {
        k + 1
    } else {
        loaded_count(s, number, k + 1)
    }
}

/// One stored content loaded: a message is registered marked read (see
/// [registered](Channel::registered)) and gives back `out`; anything else leaves the channel as
/// it is.
pub open spec fn loaded_step(
    before: Channel,
    after: Channel,
    item: Option<(Message, Option<QuotedMessage>)>,
    out: Option<Message>,
) -> bool {
    match item {
        Some((m, q)) => out matches Some(r) && before.registered(after, m.with_read(), q, r),
        None => after == before && out is None,
    }
}

/// The shown messages among loaded ones, in reverse order.
pub open spec fn shown_reversed(outs: Seq<Option<Message>>) -> Seq<DisplayMessage>
    decreases outs.len(),
{
    if outs.len() == 0 {
        seq![]
    } else {
        let rest = shown_reversed(outs.drop_last());
        match outs.last() {
            Some(Message::Display(d)) => seq![d] + rest,
            _ => rest,
        }
    }
}

/// The master key of a channel's group context, where it has one (compared as an optional key,
/// as the client does: a channel without one has none).
pub open spec fn context_key(c: Channel) -> Option<Seq<u8>> {
    match c.group_context {
        Some(g) => match g.master_key {
            Some(k) => Some(k@),
            None => None,
        },
        None => None,
    }
}

/// The optional bytes as plain values.
pub open spec fn opt_bytes(k: Option<Vec<u8>>) -> Option<Seq<u8>> {
    match k {
        Some(v) => Some(v@),
        None => None,
    }
}

/// Where the channel of a message comes from.
#[derive(Debug)]
pub enum ChannelSource {
    /// The known channel at this position.
    Known(usize),
    /// The group with this key is to be fetched; where it is found, its channel is made, else
    /// the contact's.
    FetchGroup([u8; 32]),
    /// The contact's channel is made.
    Contact,
}

/// The key with which a group is fetched: the master key where it has 32 bytes, else 32 zero
/// bytes.
pub open spec fn fetch_key(k: Option<Seq<u8>>) -> Seq<u8> {
    match k {
        Some(v) => if v.len() == 32 {
            v
        } else {
            Seq::new(32, |i: int| 0u8)
        },
        None => Seq::new(32, |i: int| 0u8),
    }
}

/// Whether two optional byte strings are equal.
fn opt_bytes_eq(a: &Option<Vec<u8>>, b: &Option<Vec<u8>>) -> (r: bool)
    ensures
        r == (opt_bytes(*a) == opt_bytes(*b)),
{
    match (a, b) {
        (Some(x), Some(y)) => {
            if x.len() != y.len() {
                assert(x@ != y@ ==> opt_bytes(*a) != opt_bytes(*b));
                return false;
            }
            let mut i: usize = 0;
            while i < x.len()
                invariant
                    opt_bytes(*a) == Some(x@),
                    opt_bytes(*b) == Some(y@),
                    x@.len() == y@.len(),
                    i <= x@.len(),
                    forall|j: int| 0 <= j < i ==> x@[j] == y@[j],
                decreases x.len() - i,
            {
                if x[i] != y[i] {
                    assert(x@[i as int] != y@[i as int]);
                    return false;
                }
                i += 1;
            }
            assert(x@ =~= y@);
            true
        },
        (None, None) => true,
        _ => false,
    }
}

/// Where the channel of a message with the group context `context` comes from: for a group
/// context, the first known channel with the same optional master key (see [context_key]),
/// else the group is to be fetched with [fetch_key]; without one, the contact's channel.
pub fn channel_source(known: &Vec<Channel>, context: &Option<GroupContext>) -> (r: ChannelSource)
    ensures
        match *context {
            Some(g) => match r {
                ChannelSource::Known(i) => i < known@.len() && context_key(known@[i as int])
                    == opt_bytes(g.master_key) && forall|j: int|
                    0 <= j < i ==> context_key(#[trigger] known@[j]) != opt_bytes(g.master_key),
                ChannelSource::FetchGroup(k) => (forall|j: int|
                    0 <= j < known@.len() ==> context_key(#[trigger] known@[j]) != opt_bytes(
                        g.master_key,
                    )) && k@ == fetch_key(opt_bytes(g.master_key)),
                ChannelSource::Contact => false,
            },
            None => r is Contact,
        },
{
    match context {
        Some(g) => {
            let mut i: usize = 0;
            while i < known.len()
                invariant
                    *context == Some(*g),
                    i <= known@.len(),
                    forall|j: int|
                        0 <= j < i ==> context_key(#[trigger] known@[j]) != opt_bytes(g.master_key),
                decreases known.len() - i,
            {
                let theirs: &Option<Vec<u8>> = match &known[i].group_context {
                    Some(c) => &c.master_key,
                    None => &None,
                };
                if opt_bytes_eq(theirs, &g.master_key) {
                    return ChannelSource::Known(i);
                }
                i += 1;
            }
            let key = match &g.master_key {
                Some(k) => if k.len() == 32 {
                    key_from_bytes(k)
                } else {
                    [0u8; 32]
                },
                None => [0u8; 32],
            };
            assert(key@ =~= fetch_key(opt_bytes(g.master_key)));
            ChannelSource::FetchGroup(key)
        },
        None => ChannelSource::Contact,
    }
}

} // verus!
