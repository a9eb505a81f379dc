//! The backend's decisions: how the receiving loop reacts to the message stream, to commands and
//! to failures; how the backend thread is started; when notifications are shown.
use vstd::prelude::*;

use crate::channel::{Channel, Group};
use crate::contact::{Contact, Profile, StoredContact};
use crate::content::GroupContext;
use crate::content::Reaction;
use crate::core_model::opt_view;
use crate::message::{
    reacted_entries, DisplayMessage, Message, QuotedMessage, ReactionEntry, TextMessage,
};
use crate::error::{error_of_failure, lemma_offline_websocket, ApplicationError, BackendFailure};
use crate::text::{contains_seq, owned};

verus! {

/// How many commands may wait for the backend thread.
pub const MESSAGE_BOUND: usize = 10;

/// Seconds that the receiving loop waits, handling commands, after it failed to connect.
pub const OFFLINE_SLEEP_TIMEOUT: u64 = 15;

/// Where the receiving loop stands.
#[derive(Clone, Copy, Debug, PartialEq, Eq, Structural)]
pub enum LoopState {
    /// The message stream is being opened.
    Connecting,
    /// Messages and commands are handled as they come.
    Receiving,
    /// The stream could not be opened; commands are handled until the wait is over.
    Offline,
    /// The loop ended.
    Exited,
}

/// What the receiving loop learns.
#[derive(Debug)]
pub enum LoopEvent {
    /// The message stream is open.
    StreamOpened,
    /// Opening the message stream failed.
    StreamFailed(BackendFailure),
    /// Content arrived.
    Content,
    /// Content could not be handed on: nobody listens any more.
    ForwardFailed,
    /// The message stream ended.
    StreamEnded,
    /// A command arrived.
    Command,
    /// The command channel is closed.
    CommandsClosed,
    /// The machine woke up from suspend and is online again.
    Resumed,
    /// Neither the stream nor the commands have anything left.
    Complete,
    /// The wait after a failure is over.
    WaitOver,
}

/// What the receiving loop does.
#[derive(Debug)]
pub enum LoopAction {
    /// Open the message stream.
    OpenStream,
    /// Hand the content on.
    Forward,
    /// Carry out the command.
    HandleCommand,
    /// Report this error to the user interface, then wait this many seconds handling commands.
    ReportAndWait(ApplicationError, u64),
    /// Wait this many seconds handling commands.
    Wait(u64),
}

/// The events that can come in a state.
pub open spec fn loop_event_expected(s: LoopState, e: LoopEvent) -> bool {
    match (s, e) {
        (LoopState::Connecting, LoopEvent::StreamOpened) => true,
        (LoopState::Connecting, LoopEvent::StreamFailed(_)) => true,
        (LoopState::Receiving, LoopEvent::StreamOpened) => false,
        (LoopState::Receiving, LoopEvent::StreamFailed(_)) => false,
        (LoopState::Receiving, LoopEvent::WaitOver) => false,
        (LoopState::Receiving, _) => true,
        (LoopState::Offline, LoopEvent::Command) => true,
        (LoopState::Offline, LoopEvent::CommandsClosed) => true,
        (LoopState::Offline, LoopEvent::WaitOver) => true,
        _ => false,
    }
}

/// The next state and action of the receiving loop:
/// - an open stream is received from; a failure to open it is reported, unless it is a missing
///   connection (which the client handles by itself), and commands are handled while waiting
///   before the next try;
/// - content is handed on; where nobody takes it any more, the loop ends;
/// - commands are carried out, while receiving and while waiting;
/// - the end of the stream, a wake-up from suspend, or nothing left to wait for open the stream
///   anew, as does the end of the wait.
pub open spec fn loop_transition(s: LoopState, e: LoopEvent, r: (LoopState, Option<LoopAction>)) -> bool {
    match e {
        LoopEvent::StreamOpened => r == (LoopState::Receiving, None::<LoopAction>),
        LoopEvent::StreamFailed(f) => r.0 == LoopState::Offline && if error_of_failure(f)
            is NoInternet {
            r.1 == Some(LoopAction::Wait(OFFLINE_SLEEP_TIMEOUT))
        } else {
            r.1 == Some(LoopAction::ReportAndWait(error_of_failure(f), OFFLINE_SLEEP_TIMEOUT))
        },
        LoopEvent::Content => r == (LoopState::Receiving, Some(LoopAction::Forward)),
        LoopEvent::ForwardFailed => r == (LoopState::Exited, None::<LoopAction>),
        LoopEvent::Command => r == (s, Some(LoopAction::HandleCommand)),
        LoopEvent::CommandsClosed => r == (s, None::<LoopAction>),
        _ => r == (LoopState::Connecting, Some(LoopAction::OpenStream)),
    }
}

/// The next state and action of the receiving loop (see [loop_transition]).
pub fn loop_step(state: LoopState, event: LoopEvent) -> (r: (LoopState, Option<LoopAction>))
    requires
        loop_event_expected(state, event),
    ensures
        loop_transition(state, event, r),
{
    match event {
        LoopEvent::StreamOpened => (LoopState::Receiving, None),
        LoopEvent::StreamFailed(f) => {
            let e = ApplicationError::from_failure(f);
            match e {
                ApplicationError::NoInternet => (
                    LoopState::Offline,
                    Some(LoopAction::Wait(OFFLINE_SLEEP_TIMEOUT)),
                ),
                _ => (
                    LoopState::Offline,
                    Some(LoopAction::ReportAndWait(e, OFFLINE_SLEEP_TIMEOUT)),
                ),
            }
        },
        LoopEvent::Content => (LoopState::Receiving, Some(LoopAction::Forward)),
        LoopEvent::ForwardFailed => (LoopState::Exited, None),
        LoopEvent::Command => (state, Some(LoopAction::HandleCommand)),
        LoopEvent::CommandsClosed => (state, None),
        _ => (LoopState::Connecting, Some(LoopAction::OpenStream)),
    }
}

/// A missing connection is never reported, and the loop never ends but where nobody takes
/// the content any more.
pub proof fn lemma_loop_quiet_offline(s: LoopState, e: LoopEvent, r: (LoopState, Option<LoopAction>))
    requires
        loop_event_expected(s, e),
        loop_transition(s, e, r),
    ensures
        r.1 matches Some(LoopAction::ReportAndWait(err, _)) ==> !(err is NoInternet),
        r.0 == LoopState::Exited ==> e is ForwardFailed,
{
}

/// Where opening the stream fails because the machine is offline (the websocket's message
/// holds the text of a failed HTTP request, a failed name lookup, an unreachable network or a
/// timeout), the loop reports nothing and waits 15 seconds, handling commands, before it tries
/// again.
pub proof fn lemma_offline_failure_waits(
    message: String,
    source: Option<String>,
    t: Seq<char>,
    r: (LoopState, Option<LoopAction>),
)
    requires
        t == "failed to lookup address information"@ || t == "Network is unreachable"@ || t
            == "timed out"@ || t == "reqwest error"@,
        contains_seq(message@, t),
        loop_transition(
            LoopState::Connecting,
            LoopEvent::StreamFailed(BackendFailure::WebSocket { message, source }),
            r,
        ),
    ensures
        r.0 == LoopState::Offline,
        r.1 == Some(LoopAction::Wait(15)),
{
    lemma_offline_websocket(message, source, t);
}

/// How the account is registered.
#[derive(Clone, Copy, Debug, PartialEq, Eq, Structural)]
pub enum RegistrationType {
    Primary,
    Secondary,
}

/// What the backend thread keeps of the account once it started.
#[derive(Debug)]
pub struct ManagerThread {
    pub uuid: u128,
    pub registration_type: Option<RegistrationType>,
    pub profile: Option<Profile>,
}

/// Where the start of the backend thread stands: each answer is asked for in turn.
#[derive(Debug)]
pub enum ThreadStart {
    AwaitUuid,
    AwaitRegistrationType(u128),
    AwaitProfile(u128, RegistrationType),
}

/// An answer of the starting backend thread.
#[derive(Debug)]
pub enum StartAnswer {
    /// The account's UUID, or none where the thread did not answer.
    Uuid(Option<u128>),
    /// How the account is registered, or none where the thread did not answer.
    RegistrationType(Option<RegistrationType>),
    /// The account's profile: none where the thread did not answer, an empty answer where the
    /// profile could not be fetched.
    Profile(Option<Option<Profile>>),
}

/// The outcome of an answer while the backend thread starts.
#[derive(Debug)]
pub enum StartOutcome {
    /// Ask for the next answer, in this state.
    Next(ThreadStart),
    /// The thread is ready.
    Ready(ManagerThread),
    /// The thread did not answer: there is no backend thread.
    Failed,
}

/// The answers that fit a state.
pub open spec fn answer_expected(s: ThreadStart, a: StartAnswer) -> bool {
    match (s, a) {
        (ThreadStart::AwaitUuid, StartAnswer::Uuid(_)) => true,
        (ThreadStart::AwaitRegistrationType(_), StartAnswer::RegistrationType(_)) => true,
        (ThreadStart::AwaitProfile(_, _), StartAnswer::Profile(_)) => true,
        _ => false,
    }
}

/// The start of the backend thread asks for the UUID, then how the account is registered, then
/// the profile; it fails as soon as the thread does not answer, and is ready with all three
/// (the profile where it could be fetched).
pub open spec fn start_transition(s: ThreadStart, a: StartAnswer, r: StartOutcome) -> bool {
    match (s, a) {
        (ThreadStart::AwaitUuid, StartAnswer::Uuid(Some(u))) => r == StartOutcome::Next(
            ThreadStart::AwaitRegistrationType(u),
        ),
        (ThreadStart::AwaitRegistrationType(u), StartAnswer::RegistrationType(Some(t))) => r
            == StartOutcome::Next(ThreadStart::AwaitProfile(u, t)),
        (ThreadStart::AwaitProfile(u, t), StartAnswer::Profile(Some(p))) => r
            == StartOutcome::Ready(
            ManagerThread { uuid: u, registration_type: Some(t), profile: p },
        ),
        _ => r is Failed,
    }
}

/// The outcome of an answer while the backend thread starts (see [start_transition]).
pub fn start_step(s: ThreadStart, a: StartAnswer) -> (r: StartOutcome)
    requires
        answer_expected(s, a),
    ensures
        start_transition(s, a, r),
{
    match (s, a) {
        (ThreadStart::AwaitUuid, StartAnswer::Uuid(Some(u))) => StartOutcome::Next(
            ThreadStart::AwaitRegistrationType(u),
        ),
        (ThreadStart::AwaitRegistrationType(u), StartAnswer::RegistrationType(Some(t))) => StartOutcome::Next(
            ThreadStart::AwaitProfile(u, t),
        ),
        (ThreadStart::AwaitProfile(u, t), StartAnswer::Profile(Some(p))) => StartOutcome::Ready(
            ManagerThread { uuid: u, registration_type: Some(t), profile: p },
        ),
        _ => StartOutcome::Failed,
    }
}

impl ManagerThread {
    /// The account's UUID.
    pub fn uuid(&self) -> (r: u128)
        ensures
            r == self.uuid,
    {
        self.uuid
    }

    /// How the account is registered.
    pub fn registration_type(&self) -> (r: Option<RegistrationType>)
        ensures
            r == self.registration_type,
    {
        self.registration_type
    }
}

/// Whether notifications are delivered at once, kept until the setup is finished, or dropped.
#[derive(Debug)]
pub enum Delivery<N> {
    /// Show it now, under this identifier.
    Show(Option<String>, N),
    /// It waits until the setup is finished.
    Queued,
    /// Notifications are off.
    Dropped,
}

/// The notifications of the client: whether they are on, whether there is an application to
/// show them, whether the setup is finished, and those that wait for the setup.
#[derive(Debug)]
pub struct Notifications<N> {
    pub enabled: bool,
    pub has_application: bool,
    pub finished_setup: bool,
    pub pending: Vec<(Option<String>, N)>,
}

impl<N> Notifications<N> {
    /// Sends a notification: where notifications are on and there is an application, it is
    /// shown once the setup is finished, and waits otherwise; else it is dropped.
    pub fn send(&mut self, id: Option<String>, notification: N) -> (r: Delivery<N>)
        ensures
            final(self).enabled == old(self).enabled,
            final(self).has_application == old(self).has_application,
            final(self).finished_setup == old(self).finished_setup,
            if old(self).enabled && old(self).has_application {
                if old(self).finished_setup {
                    r == Delivery::Show(id, notification) && final(self).pending@ == old(
                        self,
                    ).pending@
                } else {
                    r is Queued && final(self).pending@ == old(self).pending@.push(
                        (id, notification),
                    )
                }
            } else {
                r is Dropped && final(self).pending@ == old(self).pending@
            },
    {
        if self.enabled && self.has_application {
            if self.finished_setup {
                Delivery::Show(id, notification)
            } else {
                self.pending.push((id, notification));
                Delivery::Queued
            }
        } else {
            Delivery::Dropped
        }
    }

    /// Withdraws the notification with identifier `id`: where notifications are on and there
    /// is an application, it is withdrawn from the application once the setup is finished
    /// (the result tells so); before, the waiting notifications with that identifier are
    /// dropped.
    pub fn withdraw(&mut self, id: &str) -> (r: bool)
        ensures
            final(self).enabled == old(self).enabled,
            final(self).has_application == old(self).has_application,
            final(self).finished_setup == old(self).finished_setup,
            r == (old(self).enabled && old(self).has_application && old(self).finished_setup),
            if old(self).enabled && old(self).has_application && !old(self).finished_setup {
                final(self).pending@ == old(self).pending@.filter(
                    |p: (Option<String>, N)| !named(p.0, id@),
                )
            } else {
                final(self).pending@ == old(self).pending@
            },
    {
        if self.enabled && self.has_application {
            if self.finished_setup {
                true
            } else {
                let ghost old_pending = self.pending@;
                let mut kept: Vec<(Option<String>, N)> = Vec::new();
                let mut rest: Vec<(Option<String>, N)> = Vec::new();
                std::mem::swap(&mut rest, &mut self.pending);
                let mut i: usize = 0;
                let n = rest.len();
                while rest.len() > 0
                    invariant
                        i + rest@.len() == n,
                        n == old_pending.len(),
                        rest@ == old_pending.subrange(i as int, n as int),
                        kept@ == old_pending.take(i as int).filter(
                            |p: (Option<String>, N)| !named(p.0, id@),
                        ),
                    decreases rest.len(),
                {
                    let ghost rest0 = rest@;
                    let p = rest.remove(0);
                    let drop = match &p.0 {
                        Some(s) => crate::text::str_eq(s.as_str(), id),
                        None => false,
                    };
                    reveal_with_fuel(Seq::filter, 1);
                    assert(p == rest0[0]);
                    assert(rest0[0] == old_pending[i as int]);
                    assert(old_pending.take(i + 1).drop_last() =~= old_pending.take(i as int));
                    assert(old_pending.take(i + 1).last() == p);
                    assert(named(p.0, id@) == drop);
                    assert(rest@ =~= old_pending.subrange(i + 1, n as int));
                    let ghost kept0 = kept@;
                    if !drop {
                        kept.push(p);
                    }

                    i += 1;
                }
                assert(old_pending.take(n as int) =~= old_pending);
                self.pending = kept;
                false
            }
        } else {
            false
        }
    }
}

/// Whether a notification's identifier is `id`.
pub open spec fn named(n: Option<String>, id: Seq<char>) -> bool {
    n matches Some(s) && s@ == id
}

/// The backend as the screenshot mode runs it: a registered primary device with the profile
/// name "You".
#[derive(Debug)]
pub struct Manager {
    pub uuid: u128,
}

impl Manager {
    /// The profile name of the account: "You".
    pub fn profile_name(&self) -> (r: String)
        ensures
            r@ == "You"@,
    {
        owned("You")
    }

    /// Whether the account is a primary device: it is.
    pub fn is_primary(&self) -> (r: bool)
        ensures
            r,
    {
        true
    }
}

/// The contacts of the screenshot mode: the UUIDs 0 to 4 with the names "", "Postmarket OS
/// Linux Mobile User", "Developer" (with the phone number +123456789), "Admrial Ackbar" and
/// "Agent Smith", none with disappearing messages, each with a profile key of 32 zero bytes.
pub fn dummy_presage_contacts() -> (r: Vec<StoredContact>)
    ensures
        r@.len() == 5,
        forall|i: int|
            0 <= i < 5 ==> (#[trigger] r@[i]).uuid == i && r@[i].expire_timer == 0
                && r@[i].profile_key@ == Seq::new(32, |j: int| 0u8),
        r@[0].name@ == ""@ && r@[0].phone_number is None,
        r@[1].name@ == "Postmarket OS Linux Mobile User"@ && r@[1].phone_number is None,
        r@[2].name@ == "Developer"@,
        r@[2].phone_number matches Some(p) && p@ == "+123456789"@,
        r@[3].name@ == "Admrial Ackbar"@ && r@[3].phone_number is None,
        r@[4].name@ == "Agent Smith"@ && r@[4].phone_number is None,
{
    let mut v: Vec<StoredContact> = Vec::new();
    v.push(StoredContact { uuid: 0, name: owned(""), phone_number: None, expire_timer: 0, profile_key: zero_key() });
    v.push(
        StoredContact {
            uuid: 1,
            name: owned("Postmarket OS Linux Mobile User"),
            phone_number: None,
            expire_timer: 0,
            profile_key: zero_key(),
        },
    );
    v.push(
        StoredContact {
            uuid: 2,
            name: owned("Developer"),
            phone_number: Some(owned("+123456789")),
            expire_timer: 0,
            profile_key: zero_key(),
        },
    );
    v.push(
        StoredContact { uuid: 3, name: owned("Admrial Ackbar"), phone_number: None, expire_timer: 0, profile_key: zero_key() },
    );
    v.push(StoredContact { uuid: 4, name: owned("Agent Smith"), phone_number: None, expire_timer: 0, profile_key: zero_key() });
    v
}

/// A profile key of 32 zero bytes.
fn zero_key() -> (r: Vec<u8>)
    ensures
        r@ == Seq::new(32, |j: int| 0u8),
{
    let v: Vec<u8> = vec![0u8; 32];
    assert(v@ =~= Seq::new(32, |j: int| 0u8));
    v
}

/// The profile key of a stored contact, where it has the 32 bytes of a valid one.
pub fn contact_profile_key(c: &StoredContact) -> (r: Option<[u8; 32]>)
    ensures
        match r {
            Some(k) => c.profile_key@.len() == 32 && k@ == c.profile_key@,
            None => c.profile_key@.len() != 32,
        },
{
    if c.profile_key.len() != 32 {
        return None;
    }
    let mut k: [u8; 32] = [0u8; 32];
    let mut i: usize = 0;
    while i < 32
        invariant
            i <= 32,
            c.profile_key@.len() == 32,
            forall|j: int| 0 <= j < i ==> k@[j] == c.profile_key@[j],
        decreases 32 - i,
    {
        k[i] = c.profile_key[i];
        i += 1;
    }
    assert(k@ =~= c.profile_key@);
    Some(k)
}

/// The key of the first member with the UUID `u`, where there is one.
pub open spec fn first_member_key(ms: Seq<(u128, [u8; 32])>, u: u128) -> Option<[u8; 32]>
    decreases ms.len(),
{
    if ms.len() == 0 {
        None
    } else if ms[0].0 == u {
        Some(ms[0].1)
    } else {
        first_member_key(ms.drop_first(), u)
    }
}

/// The profile key with which a contact's profile is fetched: in a group channel, that of the
/// first member with the contact's UUID (see [first_member_key]); else the contact's own, where
/// it has a valid one (see [contact_profile_key]).
pub fn profile_key_for(
    uuid: u128,
    group_members: Option<&Vec<(u128, [u8; 32])>>,
    contact_key: Option<[u8; 32]>,
) -> (r: Option<[u8; 32]>)
    ensures
        r == match group_members {
            Some(ms) => first_member_key(ms@, uuid),
            None => contact_key,
        },
{
    match group_members {
        Some(ms) => {
            let mut i: usize = 0;
            assert(ms@.skip(0) =~= ms@);
            while i < ms.len()
                invariant
                    group_members == Some(ms),
                    i <= ms@.len(),
                    first_member_key(ms@, uuid) == first_member_key(ms@.skip(i as int), uuid),
                decreases ms.len() - i,
            {
                assert(ms@.skip(i as int)[0] == ms@[i as int]);
                if ms[i].0 == uuid {
                    return Some(ms[i].1);
                }
                assert(ms@.skip(i as int).drop_first() =~= ms@.skip(i + 1));
                i += 1;
            }
            assert(ms@.skip(i as int).len() == 0);
            None
        },
        None => contact_key,
    }
}

/// The position of the group among the channels of the screenshot mode.
pub const DUMMY_GROUP: usize = 5;

/// The messages of the screenshot mode, in order: body, sender (a UUID of
/// [dummy_presage_contacts]), channel (a position among the screenshot channels: the contacts,
/// then the group at [DUMMY_GROUP]) and when it was sent, in minutes after the base minute.
pub open spec fn dummy_plan() -> Seq<(Seq<char>, u128, int, int)> {
    seq![
        ("Flare 0.19.0 was now released. This release will now show a loading screen on startup while it receives messages. Besides that, there have also been many minor UI changes, like a reduced spacing between reactions and their corresponding mesages, as well as a decreased spacing between messages sent shortly after another."@, 2u128, 5int, 18int),
        ("Updating now! The UI changes already look good in the screenshots."@, 1u128, 5int, 20int),
        ("Indeed, the new release looks magnificent."@, 1u128, 5int, 24int),
        ("Glad you like it."@, 2u128, 5int, 25int),
        ("YAY!"@, 0u128, 5int, 27int),
        ("Greetings"@, 2u128, 2int, -100int),
        ("It's a trap!"@, 3u128, 3int, 1int),
        ("Hello, Mr. Anderson"@, 4u128, 4int, 2int)
    ]
}

/// The emojis with which the first contact reacts to the first message of the screenshot mode.
pub open spec fn dummy_emoji() -> Seq<char> {
    "🎉🚀"@
}

/// The messages of the screenshot mode (see [dummy_plan]) for the minute `base_minute` (11:00
/// of the day, in minutes since 1970), each with the position of its channel: text messages of
/// their senders, sent at their minute; the second quotes the first, and the first carries the
/// reaction of the first contact (see [dummy_emoji]).
pub fn dummy_messages(base_minute: u64) -> (r: Vec<(usize, Message)>)
    requires
        100 <= base_minute,
        (base_minute + 27) * 60000 <= u64::MAX,
    ensures
        r@.len() == dummy_plan().len(),
        forall|i: int|
            0 <= i < r@.len() ==> {
                let (body, sender, channel, minute) = dummy_plan()[i];
                &&& (#[trigger] r@[i]).0 == channel
                &&& r@[i].1 matches Message::Display(DisplayMessage::Text(t))
                &&& t.sender == sender
                &&& t.timestamp == (base_minute + minute) * 60000
                &&& opt_view(t.data.body) == Some(body)
                &&& !t.read
                &&& !t.is_deleted
                &&& (i != 0 ==> t.reactions@.len() == 0)
                &&& (i == 0 ==> t.reactions@ == seq![
                    ReactionEntry {
                        sender: 0,
                        reaction: Reaction {
                            emoji: t.reactions@[0].reaction.emoji,
                            remove: Some(false),
                            target_author_aci: None,
                            target_author_aci_binary: None,
                            target_sent_timestamp: None,
                        },
                    },
                ] && opt_view(t.reactions@[0].reaction.emoji) == Some(dummy_emoji()))
                &&& (i != 1 ==> t.quote is None)
                &&& (i == 1 ==> t.quote == Some(
                    QuotedMessage {
                        timestamp: ((base_minute + 18) * 60000) as u64,
                        author: Some(2),
                        body: t.quote->0.body,
                    },
                ) && opt_view(t.quote->0.body) == Some(dummy_plan()[0].0))
            },
{
    proof {
        reveal_strlit("Flare 0.19.0 was now released. This release will now show a loading screen on startup while it receives messages. Besides that, there have also been many minor UI changes, like a reduced spacing between reactions and their corresponding mesages, as well as a decreased spacing between messages sent shortly after another.");
        reveal_strlit("Updating now! The UI changes already look good in the screenshots.");
        reveal_strlit("Indeed, the new release looks magnificent.");
        reveal_strlit("Glad you like it.");
        reveal_strlit("YAY!");
        reveal_strlit("Greetings");
        reveal_strlit("It's a trap!");
        reveal_strlit("Hello, Mr. Anderson");
        reveal_strlit("🎉🚀");
    }
    let minute: u64 = 60000;
    let first_text = "Flare 0.19.0 was now released. This release will now show a loading screen on startup while it receives messages. Besides that, there have also been many minor UI changes, like a reduced spacing between reactions and their corresponding mesages, as well as a decreased spacing between messages sent shortly after another.";
    let mut replied = TextMessage::from_text_channel_sender(first_text, 2, (base_minute + 18) * minute);
    let reaction = Reaction {
        emoji: Some(owned("🎉🚀")),
        remove: Some(false),
        target_author_aci: None,
        target_author_aci_binary: None,
        target_sent_timestamp: None,
    };
    replied.react(0, reaction);
    proof {
        assert(reacted_entries(Seq::<ReactionEntry>::empty(), 0, replied.reactions@[0].reaction)
            =~= replied.reactions@);
    }
    let mut reply = TextMessage::from_text_channel_sender("Updating now! The UI changes already look good in the screenshots.", 1, (base_minute + 20) * minute);
    reply.set_quote(QuotedMessage {
        timestamp: (base_minute + 18) * minute,
        author: Some(2),
        body: Some(owned(first_text)),
    });
    let mut out: Vec<(usize, Message)> = Vec::new();
    out.push((DUMMY_GROUP, Message::Display(DisplayMessage::Text(replied))));
    out.push((DUMMY_GROUP, Message::Display(DisplayMessage::Text(reply))));
    out.push((DUMMY_GROUP, Message::Display(DisplayMessage::Text(TextMessage::from_text_channel_sender("Indeed, the new release looks magnificent.", 1, (base_minute + 24) * minute)))));
    out.push((DUMMY_GROUP, Message::Display(DisplayMessage::Text(TextMessage::from_text_channel_sender("Glad you like it.", 2, (base_minute + 25) * minute)))));
    out.push((DUMMY_GROUP, Message::Display(DisplayMessage::Text(TextMessage::from_text_channel_sender("YAY!", 0, (base_minute + 27) * minute)))));
    out.push((2, Message::Display(DisplayMessage::Text(TextMessage::from_text_channel_sender("Greetings", 2, (base_minute - 100) * minute)))));
    out.push((3, Message::Display(DisplayMessage::Text(TextMessage::from_text_channel_sender("It's a trap!", 3, (base_minute + 1) * minute)))));
    out.push((4, Message::Display(DisplayMessage::Text(TextMessage::from_text_channel_sender("Hello, Mr. Anderson", 4, (base_minute + 2) * minute)))));
    out
}

impl Manager {
    /// The channels of the screenshot mode: one with each contact of [dummy_presage_contacts],
    /// in order, then the group "Mobile Linux Group" with the master key of 32 bytes 2 (at
    /// [DUMMY_GROUP]); all empty, for this account (its UUID and the profile name "You").
    pub fn dummy_channels(&self) -> (r: Vec<Channel>)
        ensures
            r@.len() == 6,
            forall|i: int|
                0 <= i < 5 ==> {
                    &&& (#[trigger] r@[i]).contact matches Some(c)
                    &&& c.contact matches Some(sc)
                    &&& sc.uuid == i
                    &&& c.own_uuid == self.uuid
                    &&& c.own_profile_name@ == "You"@
                    &&& r@[i].group is None
                    &&& r@[i].timeline.items().len() == 0
                    &&& r@[i].wf()
                },
            r@[5].contact is None,
            r@[5].group matches Some(g) && g.title@ == "Mobile Linux Group"@
                && g.description is None && g.disappearing_messages_timer is None,
            r@[5].group_context matches Some(gc) && gc.master_key matches Some(k) && k@
                == Seq::new(32, |i: int| 2u8),
            r@[5].timeline.items().len() == 0,
            r@[5].wf(),
    {
        let contacts = dummy_presage_contacts();
        let mut rest = contacts;
        let mut out: Vec<Channel> = Vec::new();
        let mut i: usize = 0;
        while rest.len() > 0
            invariant
                i + rest@.len() == 5,
                forall|k: int| 0 <= k < rest@.len() ==> (#[trigger] rest@[k]).uuid == i + k,
                out@.len() == i,
                forall|j: int|
                    0 <= j < i ==> {
                        &&& (#[trigger] out@[j]).contact matches Some(c)
                        &&& c.contact matches Some(sc)
                        &&& sc.uuid == j
                        &&& c.own_uuid == self.uuid
                        &&& c.own_profile_name@ == "You"@
                        &&& out@[j].group is None
                        &&& out@[j].timeline.items().len() == 0
                        &&& out@[j].wf()
                    },
            decreases rest.len(),
        {
            let stored = rest.remove(0);
            let contact = Contact::from_contact(stored, self.uuid, self.profile_name());
            out.push(Channel::from_contact(contact));
            i += 1;
            assert forall|k: int| 0 <= k < rest@.len() implies (#[trigger] rest@[k]).uuid == i + k by {
            }
        }
        let mut key: Vec<u8> = Vec::new();
        let mut k: usize = 0;
        while k < 32
            invariant
                k <= 32,
                key@ == Seq::new(k as nat, |j: int| 2u8),
            decreases 32 - k,
        {
            key.push(2u8);
            k += 1;
            assert(key@ =~= Seq::new(k as nat, |j: int| 2u8));
        }
        proof {
            reveal_strlit("Mobile Linux Group");
        }
        let group = Group {
            title: owned("Mobile Linux Group"),
            description: None,
            disappearing_messages_timer: None,
        };
        out.push(Channel::from_group(group, GroupContext { master_key: Some(key) }, self.uuid));
        out
    }
}

} // verus!
