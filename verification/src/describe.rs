//! Short descriptions of messages, for notifications and the channel list, and what the
//! notifications of messages and reactions say.
use vstd::prelude::*;

use crate::attachment::{fixed_content_type, type_of, AttachmentType};
use crate::content::{from_be, uuid_of_bytes, AttachmentPointer, Reaction};
use crate::mentions::{parse_uuid, uuid_of_text};
use crate::core_model::opt_view;
use crate::i18n::{gettext, ngettext};
use crate::message::{
    call_description, CallMessage, CallMessageType, DisplayMessage, ReactionEntry,
    ReactionMessage, TextMessage,
};
use crate::text::{
    decimal, decimal_string, join, join_strings, owned, replace, replace_all, str_eq, sub_string,
    views,
};

verus! {

/// Position of the first line break of `s` (its length where there is none).
pub open spec fn first_break(s: Seq<char>) -> int
    decreases s.len(),
{
    if s.len() == 0 {
        0
    } else if s[0] == '\n' {
        0
    } else {
        1 + first_break(s.drop_first())
    }
}

/// The first line of a text as Rust's `lines` gives it: none for an empty text; else what comes
/// before the first line break, without the carriage return that ends it.
pub open spec fn first_line(s: Seq<char>) -> Option<Seq<char>> {
    if s.len() == 0 {
        None
    } else {
        let i = first_break(s);
        if i < s.len() && i > 0 && s[i - 1] == '\r' {
            Some(s.subrange(0, i - 1))
        } else {
            Some(s.subrange(0, i))
        }
    }
}

/// The first line break comes after text without one.
pub proof fn lemma_first_break(s: Seq<char>)
    ensures
        0 <= first_break(s) <= s.len(),
        first_break(s) < s.len() ==> s[first_break(s)] == '\n',
        forall|j: int| 0 <= j < first_break(s) ==> s[j] != '\n',
    decreases s.len(),
{
    if s.len() > 0 && s[0] != '\n' {
        lemma_first_break(s.drop_first());
        assert forall|j: int| 0 <= j < first_break(s) implies s[j] != '\n' by {
            if j > 0 {
                assert(s[j] == s.drop_first()[j - 1]);
            }
        }
    }
}

/// The first line of a text (see [first_line]).
pub fn text_first_line(s: &str) -> (r: Option<String>)
    ensures
        match r {
            Some(l) => first_line(s@) == Some(l@),
            None => first_line(s@) is None,
        },
{
    let n = s.unicode_len();
    if n == 0 {
        return None;
    }
    let mut i: usize = 0;
    assert(s@.skip(0) =~= s@);
    while i < n && s.get_char(i) != '\n'
        invariant
            n == s@.len(),
            i <= n,
            first_break(s@) == i + first_break(s@.skip(i as int)),
        decreases n - i,
    {
        assert(s@.skip(i as int).drop_first() =~= s@.skip(i + 1));
        i += 1;
    }
    proof {
        if i < n {
            assert(s@.skip(i as int)[0] == '\n');
        } else {
            assert(s@.skip(i as int).len() == 0);
        }
    }
    if i < n && i > 0 && s.get_char(i - 1) == '\r' {
        Some(sub_string(s, 0, i - 1))
    } else {
        Some(sub_string(s, 0, i))
    }
}

/// The kind of attachment that a pointer is, by its [fixed](fixed_content_type) content type.
pub open spec fn pointer_type(p: AttachmentPointer) -> AttachmentType {
    type_of(fixed_content_type(p.content_type))
}

/// The untranslated singular and plural texts that describe a message with only attachments:
/// images where all are images, videos where all are videos, voice messages where all are
/// audio, else files.
pub open spec fn attachments_msgids(ps: Seq<AttachmentPointer>) -> (Seq<char>, Seq<char>) {
    if forall|i: int| 0 <= i < ps.len() ==> pointer_type(#[trigger] ps[i]) == AttachmentType::Image {
        ("Sent an image"@, "Sent {} images"@)
    } else if forall|i: int|
        0 <= i < ps.len() ==> pointer_type(#[trigger] ps[i]) == AttachmentType::Video {
        ("Sent an video"@, "Sent {} videos"@)
    } else if forall|i: int|
        0 <= i < ps.len() ==> pointer_type(#[trigger] ps[i]) == AttachmentType::Audio {
        ("Sent a voice message"@, "Sent {} voice messages"@)
    } else {
        ("Sent a file"@, "Sent {} files"@)
    }
}

/// The kind of attachment that a pointer is (see [pointer_type]).
fn type_of_pointer(p: &AttachmentPointer) -> (r: AttachmentType)
    ensures
        r == pointer_type(*p),
{
    match &p.content_type {
        Some(t) => if t.unicode_len() == 0 {
            proof {
                reveal_strlit("image/webp");
            }
            AttachmentType::from_content_type("image/webp")
        } else {
            AttachmentType::from_content_type(t.as_str())
        },
        None => AttachmentType::File,
    }
}

/// Whether all pointers are of the kind `t`.
fn all_of_type(ps: &Vec<AttachmentPointer>, t: AttachmentType) -> (r: bool)
    ensures
        r == forall|i: int| 0 <= i < ps@.len() ==> pointer_type(#[trigger] ps@[i]) == t,
{
    let mut i: usize = 0;
    while i < ps.len()
        invariant
            i <= ps@.len(),
            forall|j: int| 0 <= j < i ==> pointer_type(#[trigger] ps@[j]) == t,
        decreases ps.len() - i,
    {
        if type_of_pointer(&ps[i]) != t {
            return false;
        }
        i += 1;
    }
    true
}

/// The untranslated texts that describe a message with only attachments (see
/// [attachments_msgids]).
pub fn attachments_summary_msgids(ps: &Vec<AttachmentPointer>) -> (r: (&'static str, &'static str))
    ensures
        (r.0@, r.1@) == attachments_msgids(ps@),
{
    if all_of_type(ps, AttachmentType::Image) {
        ("Sent an image", "Sent {} images")
    } else if all_of_type(ps, AttachmentType::Video) {
        ("Sent an video", "Sent {} videos")
    } else if all_of_type(ps, AttachmentType::Audio) {
        ("Sent a voice message", "Sent {} voice messages")
    } else {
        ("Sent a file", "Sent {} files")
    }
}

/// The description of a message with only attachments, given the translation `template` for
/// their number: every `{}` replaced by the number.
pub open spec fn attachments_text(template: Seq<char>, count: nat) -> Seq<char> {
    replace_all(template, "{}"@, decimal(count))
}

/// Fills in the number of attachments (see [attachments_text]).
pub fn fill_attachments_text(template: &str, count: usize) -> (r: String)
    ensures
        r@ == attachments_text(template@, count as nat),
{
    let n = decimal_string(count as u64);
    proof {
        reveal_strlit("{}");
    }
    replace(template, "{}", n.as_str())
}

/// The description that each kind of shown message gives of itself; a kind that gives none
/// describes itself by nothing.
pub trait DisplayMessageImpl {
    /// A short text that describes the message, for the account with UUID `own_uuid`; a kind
    /// that does not give one of its own gives none.
    fn textual_description(&self, own_uuid: u128) -> (r: Option<String>)
        default_ensures
            r is None,
    {
        None
    }
}

/// What a text message without a body says of its attachments: the translated text for their
/// number, with every `{}` replaced by that number.
pub open spec fn describes_attachments(s: Seq<char>, count: nat) -> bool {
    exists|template: Seq<char>| s == attachments_text(template, count)
}

impl DisplayMessageImpl for TextMessage {
    /// The first line of the body, where there is a body; else the translated number of the
    /// attachments (see [attachments_msgids]).
    fn textual_description(&self, own_uuid: u128) -> (r: Option<String>)
        ensures
            match self.data.body {
                Some(b) => match r {
                    Some(l) => first_line(b@) == Some(l@),
                    None => first_line(b@) is None,
                },
                None => r matches Some(s) && describes_attachments(s@, self.data.attachments@.len()),
            },
    {
        match &self.data.body {
            Some(b) => text_first_line(b.as_str()),
            None => {
                let (one, many) = attachments_summary_msgids(&self.data.attachments);
                proof {
                    reveal_strlit("Sent an image");
                    reveal_strlit("Sent {} images");
                    reveal_strlit("Sent an video");
                    reveal_strlit("Sent {} videos");
                    reveal_strlit("Sent a voice message");
                    reveal_strlit("Sent {} voice messages");
                    reveal_strlit("Sent a file");
                    reveal_strlit("Sent {} files");
                }
                let count = self.data.attachments.len();
                #[verifier::truncate]
                let n = count as u32;
                let template = ngettext(one, many, n);
                let s = fill_attachments_text(template.as_str(), count);
                assert(s@ == attachments_text(template@, count as nat));
                Some(s)
            },
        }
    }
}

/// The untranslated description of a call event for this account (`own_uuid`): it depends on
/// whether this account sent the event (see [call_description] and
/// [lemma_call_description_direction](crate::message::lemma_call_description_direction)).
pub fn call_description_msgid(c: &CallMessage, own_uuid: u128) -> (r: &'static str)
    ensures
        r@ == call_description(c.call_type, c.sender == own_uuid),
{
    c.call_type.description_msgid(c.sender == own_uuid)
}

impl DisplayMessageImpl for CallMessage {
    /// The translation of the call's [description](call_description_msgid).
    fn textual_description(&self, own_uuid: u128) -> (r: Option<String>)
        ensures
            r is Some,
    {
        let id = call_description_msgid(self, own_uuid);
        proof {
            reveal_strlit("Incoming call");
            reveal_strlit("Outgoing call");
            reveal_strlit("Call started");
            reveal_strlit("Call ended");
            reveal_strlit("Call declined");
            reveal_strlit("Unanswered call");
        }
        Some(gettext(id))
    }
}

/// What a shown message's description is, given by its kind: see the impls of
/// [DisplayMessageImpl].
pub open spec fn description_of(m: DisplayMessage, r: Option<Seq<char>>) -> bool {
    match m {
        DisplayMessage::Text(t) => match t.data.body {
            Some(b) => first_line(b@) == r,
            None => r matches Some(s) && describes_attachments(s, t.data.attachments@.len()),
        },
        DisplayMessage::Call(_) => r is Some,
    }
}

/// The description of a shown message, asked of its kind.
pub fn display_message_textual_description(m: &DisplayMessage, own_uuid: u128) -> (r: Option<
    String,
>)
    ensures
        description_of(*m, opt_view(r)),
{
    match m {
        DisplayMessage::Text(t) => t.textual_description(own_uuid),
        DisplayMessage::Call(c) => c.textual_description(own_uuid),
    }
}

/// A short text that describes a shown message.
pub trait DisplayMessageExt {
    /// A short text that describes the message, for the account with UUID `own_uuid`.
    fn textual_description(&self, own_uuid: u128) -> Option<String>;
}

impl DisplayMessageExt for DisplayMessage {
    /// See [display_message_textual_description].
    fn textual_description(&self, own_uuid: u128) -> (r: Option<String>)
        ensures
            description_of(*self, opt_view(r)),
    {
        display_message_textual_description(self, own_uuid)
    }
}

/// What a notification of a shown message says, where one is sent: none for a message of this
/// account or one without a description; in a group the channel's title, and the sender's
/// title and the description separated by ": "; else the sender's title and the description.
pub open spec fn message_notification(
    from_self: bool,
    description: Option<Seq<char>>,
    is_group: bool,
    channel_title: Seq<char>,
    sender_title: Seq<char>,
) -> Option<(Seq<char>, Seq<char>)> {
    match description {
        Some(d) => if from_self || d.len() == 0 {
            None
        } else if is_group {
            Some((channel_title, sender_title + ": "@ + d))
        } else {
            Some((sender_title, d))
        },
        None => None,
    }
}

/// The title and body of the notification of a shown message (see [message_notification]).
pub fn message_notification_text(
    from_self: bool,
    description: Option<&str>,
    is_group: bool,
    channel_title: &str,
    sender_title: &str,
) -> (r: Option<(String, String)>)
    ensures
        match r {
            Some((t, b)) => message_notification(
                from_self,
                match description {
                    Some(d) => Some(d@),
                    None => None,
                },
                is_group,
                channel_title@,
                sender_title@,
            ) == Some((t@, b@)),
            None => message_notification(
                from_self,
                match description {
                    Some(d) => Some(d@),
                    None => None,
                },
                is_group,
                channel_title@,
                sender_title@,
            ) is None,
        },
{
    match description {
        Some(d) => if from_self || d.unicode_len() == 0 {
            None
        } else if is_group {
            let mut body = owned(sender_title);
            body.append(": ");
            body.append(d);
            proof {
                reveal_strlit(": ");
            }
            Some((owned(channel_title), body))
        } else {
            Some((owned(sender_title), owned(d)))
        },
        None => None,
    }
}

/// Whether a reaction is notified: not where this account sent it, and only where it reacts
/// to a message of this account.
pub open spec fn reaction_notified(sender: u128, target_author: u128, own_uuid: u128) -> bool {
    sender != own_uuid && target_author == own_uuid
}

/// The author of the message that a reaction targets: the UUID that its binary form gives (the
/// 16 bytes, the most significant first), where the reaction carries one; else the UUID that
/// its text form reads as (see [uuid_of_text]; a reaction without it gives the empty text),
/// none where it reads as none.
pub open spec fn target_author_of(r: Reaction) -> Option<u128> {
    match r.target_author_aci_binary {
        Some(b) => Some(from_be(b@) as u128),
        None => uuid_of_text(
            match r.target_author_aci {
                Some(t) => t@,
                None => Seq::<char>::empty(),
            },
        ),
    }
}

/// The author of the message that a reaction targets (see [target_author_of]).
pub fn reaction_target_author(r: &Reaction) -> (a: Option<u128>)
    ensures
        a == target_author_of(*r),
{
    if let Some(b) = &r.target_author_aci_binary {
        return Some(uuid_of_bytes(b));
    }
    match &r.target_author_aci {
        Some(t) => parse_uuid(t.as_str()),
        None => {
            proof {
                reveal_strlit("");
            }
            let empty = "";
            assert(empty@ =~= Seq::<char>::empty());
            parse_uuid(empty)
        },
    }
}

/// Whether a reaction is notified (see [reaction_notified]).
pub fn notify_reaction(sender: u128, target_author: u128, own_uuid: u128) -> (r: bool)
    ensures
        r == reaction_notified(sender, target_author, own_uuid),
{
    sender != own_uuid && target_author == own_uuid
}

/// Whether the reaction `rm` is notified to this account (`own_uuid`): not where this account
/// sent it, and only where the message that it reacts to is this account's, its author read as
/// [target_author_of] says. For a reaction of someone else that names no author that can be
/// read there is no answer (none): the client cannot decide it.
pub fn reaction_message_notified(rm: &ReactionMessage, own_uuid: u128) -> (r: Option<bool>)
    ensures
        rm.sender == own_uuid ==> r == Some(false),
        rm.sender != own_uuid ==> r == match target_author_of(rm.reaction) {
            Some(a) => Some(a == own_uuid),
            None => None::<bool>,
        },
{
    if rm.sender == own_uuid {
        return Some(false);
    }
    match reaction_target_author(&rm.reaction) {
        Some(a) => Some(notify_reaction(rm.sender, a, own_uuid)),
        None => None,
    }
}

/// The body of a reaction's notification for the translation `template`: `{sender}` replaced by
/// the sender's title, then `{emoji}` by the emoji.
pub open spec fn reaction_notification_body(
    template: Seq<char>,
    sender_title: Seq<char>,
    emoji: Seq<char>,
) -> Seq<char> {
    replace_all(replace_all(template, "{sender}"@, sender_title), "{emoji}"@, emoji)
}

/// Fills in a reaction's notification (see [reaction_notification_body]).
pub fn fill_reaction_notification(template: &str, sender_title: &str, emoji: &str) -> (r: String)
    ensures
        r@ == reaction_notification_body(template@, sender_title@, emoji@),
{
    proof {
        reveal_strlit("{sender}");
        reveal_strlit("{emoji}");
    }
    let s = replace(template, "{sender}", sender_title);
    replace(s.as_str(), "{emoji}", emoji)
}

/// The untranslated text of a reaction's notification: in a group it names the sender, in a
/// 1-to-1 channel it does not.
pub open spec fn reaction_msgid(is_group: bool) -> Seq<char> {
    if is_group {
        "{sender} reacted {emoji} to a message."@
    } else {
        "Reacted {emoji} to a message."@
    }
}

/// The untranslated text of a reaction's notification (see [reaction_msgid]).
pub fn reaction_notification_msgid(is_group: bool) -> (r: &'static str)
    ensures
        r@ == reaction_msgid(is_group),
{
    if is_group {
        "{sender} reacted {emoji} to a message."
    } else {
        "Reacted {emoji} to a message."
    }
}

/// The title and body of a reaction's notification: in a group the channel's title, else the
/// sender's title; the body is the translation of the
/// [untranslated text](reaction_notification_msgid) for the kind of channel, filled in (see
/// [reaction_notification_body]).
pub fn reaction_notification_text(
    is_group: bool,
    channel_title: &str,
    sender_title: &str,
    emoji: &str,
) -> (r: (String, String))
    ensures
        r.0@ == if is_group {
            channel_title@
        } else {
            sender_title@
        },
        exists|template: Seq<char>|
            r.1@ == reaction_notification_body(template, sender_title@, emoji@),
{
    let id = reaction_notification_msgid(is_group);
    proof {
        reveal_strlit("{sender} reacted {emoji} to a message.");
        reveal_strlit("Reacted {emoji} to a message.");
    }
    let template = gettext(id);
    let title = if is_group {
        owned(channel_title)
    } else {
        owned(sender_title)
    };
    (title, fill_reaction_notification(template.as_str(), sender_title, emoji))
}

/// The emoji of a reaction entry (empty where it names none).
pub open spec fn entry_emoji(e: ReactionEntry) -> Seq<char> {
    match e.reaction.emoji {
        Some(s) => s@,
        None => Seq::<char>::empty(),
    }
}

/// The emojis of reactions, each once, in the order in which they first occur.
pub open spec fn distinct_emojis(es: Seq<ReactionEntry>) -> Seq<Seq<char>>
    decreases es.len(),
{
    if es.len() == 0 {
        seq![]
    } else {
        let rest = distinct_emojis(es.drop_last());
        if rest.contains(entry_emoji(es.last())) {
            rest
        } else {
            rest.push(entry_emoji(es.last()))
        }
    }
}

/// How many reactions have the emoji `e`.
pub open spec fn emoji_count(es: Seq<ReactionEntry>, e: Seq<char>) -> nat
    decreases es.len(),
{
    if es.len() == 0 {
        0
    } else {
        emoji_count(es.drop_last(), e) + if entry_emoji(es.last()) == e {
            1nat
        } else {
            0nat
        }
    }
}

/// The summary of an emoji: the emoji, followed by its count where it is more than one.
pub open spec fn emoji_part(e: Seq<char>, count: nat) -> Seq<char> {
    if count > 1 {
        e + decimal(count)
    } else {
        e
    }
}

/// The summary of reactions: for each emoji, in the order in which it first occurs, the
/// [part](emoji_part) with its count, joined with spaces.
pub open spec fn reactions_summary(es: Seq<ReactionEntry>) -> Seq<char> {
    join(
        distinct_emojis(es).map_values(|e: Seq<char>| emoji_part(e, emoji_count(es, e))),
        " "@,
    )
}

/// An emoji that does not occur among the distinct emojis has no reaction.
pub proof fn lemma_absent_emoji(es: Seq<ReactionEntry>, e: Seq<char>)
    requires
        !distinct_emojis(es).contains(e),
    ensures
        emoji_count(es, e) == 0,
    decreases es.len(),
{
    if es.len() > 0 {
        let rest = distinct_emojis(es.drop_last());
        if rest.contains(e) {
            assert(distinct_emojis(es) == rest || distinct_emojis(es) == rest.push(
                entry_emoji(es.last()),
            ));
            let k = choose|k: int| 0 <= k < rest.len() && rest[k] == e;
            if distinct_emojis(es) == rest {
                assert(distinct_emojis(es)[k] == e);
            } else {
                assert(distinct_emojis(es)[k] == e);
            }
        }
        lemma_absent_emoji(es.drop_last(), e);
        if entry_emoji(es.last()) == e {
            if !rest.contains(e) {
                assert(distinct_emojis(es) == rest.push(e));
                assert(distinct_emojis(es)[rest.len() as int] == e);
            }
        }
    }
}

/// The emoji of a reaction entry (see [entry_emoji]).
fn emoji_of(e: &ReactionEntry) -> (r: String)
    ensures
        r@ == entry_emoji(*e),
{
    match &e.reaction.emoji {
        Some(s) => owned(s.as_str()),
        None => String::new(),
    }
}

/// The summary of reactions (see [reactions_summary]).
pub fn reactions_summary_text(es: &Vec<ReactionEntry>) -> (r: String)
    ensures
        r@ == reactions_summary(es@),
{
    let mut emojis: Vec<String> = Vec::new();
    let mut counts: Vec<usize> = Vec::new();
    let mut i: usize = 0;
    while i < es.len()
        invariant
            i <= es@.len(),
            emojis@.len() == counts@.len(),
            views(emojis@) == distinct_emojis(es@.take(i as int)),
            forall|k: int|
                0 <= k < counts@.len() ==> #[trigger] counts@[k] == emoji_count(
                    es@.take(i as int),
                    emojis@[k]@,
                ),
            forall|k: int| 0 <= k < counts@.len() ==> #[trigger] counts@[k] <= i,
        decreases es.len() - i,
    {
        let e = emoji_of(&es[i]);
        let ghost pre = es@.take(i as int);
        let ghost cur = es@.take(i + 1);
        assert(cur.drop_last() =~= pre);
        assert(cur.last() == es@[i as int]);
        let mut p: usize = 0;
        while p < emojis.len() && !str_eq(emojis[p].as_str(), e.as_str())
            invariant
                p <= emojis@.len(),
                forall|k: int| 0 <= k < p ==> (#[trigger] emojis@[k])@ != e@,
            decreases emojis.len() - p,
        {
            p += 1;
        }
        if p < emojis.len() {
            proof {
                assert(views(emojis@)[p as int] == e@);
                assert(distinct_emojis(pre).contains(e@));
                assert(distinct_emojis(cur) == distinct_emojis(pre));
            }
            let c = counts[p];
            counts.set(p, c + 1);
            proof {
                assert forall|k: int| 0 <= k < counts@.len() implies #[trigger] counts@[k]
                    == emoji_count(cur, emojis@[k]@) by {
                    if k != p {
                        assert(emojis@[k]@ != e@) by {
                            if emojis@[k]@ == e@ {
                                assert(views(emojis@)[k] == views(emojis@)[p as int]);
                                lemma_distinct_unique(pre, k, p as int);
                            }
                        }
                    }
                }
            }
        } else {
            proof {
                if distinct_emojis(pre).contains(e@) {
                    let k = choose|k: int|
                        0 <= k < distinct_emojis(pre).len() && distinct_emojis(pre)[k] == e@;
                    assert(views(emojis@)[k] == emojis@[k]@);
                }
                lemma_absent_emoji(pre, e@);
            }
            let ghost before = views(emojis@);
            emojis.push(e);
            counts.push(1);
            proof {
                assert(views(emojis@) =~= before.push(entry_emoji(es@[i as int])));
                assert forall|k: int| 0 <= k < counts@.len() implies #[trigger] counts@[k]
                    == emoji_count(cur, emojis@[k]@) by {
                    if k < counts@.len() - 1 {
                        assert(emojis@[k]@ == before[k]);
                        assert(before[k] != entry_emoji(es@[i as int])) by {
                            if before[k] == entry_emoji(es@[i as int]) {
                                assert(distinct_emojis(pre).contains(before[k]));
                            }
                        }
                    }
                }
            }
        }
        i += 1;
    }
    assert(es@.take(es@.len() as int) =~= es@);
    let mut parts: Vec<String> = Vec::new();
    let mut k: usize = 0;
    let ghost ds = distinct_emojis(es@);
    while k < emojis.len()
        invariant
            k <= emojis@.len(),
            emojis@.len() == counts@.len(),
            views(emojis@) == ds,
            ds == distinct_emojis(es@),
            forall|j: int|
                0 <= j < counts@.len() ==> #[trigger] counts@[j] == emoji_count(es@, emojis@[j]@),
            views(parts@).len() == k,
            forall|j: int|
                0 <= j < k ==> #[trigger] views(parts@)[j] == emoji_part(
                    ds[j],
                    emoji_count(es@, ds[j]),
                ),
        decreases emojis.len() - k,
    {
        let mut part = owned(emojis[k].as_str());
        if counts[k] > 1 {
            let n = decimal_string(counts[k] as u64);
            part.append(n.as_str());
        }
        proof {
            assert(views(emojis@)[k as int] == emojis@[k as int]@);
            assert(part@ == emoji_part(ds[k as int], emoji_count(es@, ds[k as int])));
        }
        let ghost before = views(parts@);
        parts.push(part);
        proof {
            assert(views(parts@) =~= before.push(part@));
        }
        k += 1;
    }
    assert(views(parts@) =~= ds.map_values(|e: Seq<char>| emoji_part(e, emoji_count(es@, e))));
    proof {
        reveal_strlit(" ");
    }
    join_strings(&parts, " ")
}

/// The distinct emojis are distinct.
pub proof fn lemma_distinct_unique(es: Seq<ReactionEntry>, a: int, b: int)
    requires
        0 <= a < distinct_emojis(es).len(),
        0 <= b < distinct_emojis(es).len(),
        distinct_emojis(es)[a] == distinct_emojis(es)[b],
    ensures
        a == b,
    decreases es.len(),
{
    if es.len() > 0 {
        let rest = distinct_emojis(es.drop_last());
        if rest.contains(entry_emoji(es.last())) {
            lemma_distinct_unique(es.drop_last(), a, b);
        } else {
            if a < rest.len() && b < rest.len() {
                lemma_distinct_unique(es.drop_last(), a, b);
            } else if a < rest.len() {
                assert(rest[a] == entry_emoji(es.last()));
            } else if b < rest.len() {
                assert(rest[b] == entry_emoji(es.last()));
            }
        }
    }
}

impl TextMessage {
    /// The summary of the message's reactions (see [reactions_summary]).
    pub fn reactions_summary(&self) -> (r: String)
        ensures
            r@ == reactions_summary(self.reactions@),
    {
        reactions_summary_text(&self.reactions)
    }
}

} // verus!
