//! Setting up the account: load a registered account, or let the user link this device to
//! another or register it as a primary device. The steps are decided here; the backend
//! performs them and reports back.
use vstd::prelude::*;

use crate::ui::{captcha_token, strip_captcha_prefix};

verus! {

/// The Signal servers to use.
#[derive(Clone, Copy, Debug, PartialEq, Eq, Structural)]
pub enum Servers {
    Staging,
    Production,
}

/// What the user decided on how to set up.
#[derive(Debug)]
pub enum SetupDecision {
    /// Link this device to another one, under this device name.
    Link(Servers, String),
    /// Register this device as a primary one, for this phone number (E.164) with this captcha.
    Register(Servers, String, String),
}

/// What the setup tells the user interface.
#[derive(Debug)]
pub enum SetupResult {
    /// A decision is needed: register as a primary device or link this one.
    Pending,
    /// The code sent by SMS is needed.
    Confirm,
    /// This link is to be shown as a QR code, for the other device to link this one.
    DisplayLinkQR(String),
    /// Everything is finished.
    Finished,
}

/// Where the setup stands.
#[derive(Clone, Copy, Debug, PartialEq, Eq, Structural)]
pub enum SetupPhase {
    /// The store is asked for a registered account.
    Loading,
    /// Waiting for the user's decision.
    AwaitDecision,
    /// Linking; whether the link was shown already.
    Linking(bool),
    /// Linked; the contacts are requested.
    RequestingContacts,
    /// Registering.
    Registering,
    /// Waiting for the SMS code.
    AwaitConfirmation,
    /// Confirming the SMS code.
    Confirming,
    /// Done; whether an account is set up.
    Done(bool),
}

/// What the backend reports to the setup.
#[derive(Debug)]
pub enum SetupEvent {
    /// Whether a registered account was loaded from the store.
    Loaded(bool),
    /// The user decided.
    Decision(SetupDecision),
    /// The link for the other device is there.
    LinkUrl(String),
    /// Linking ended; whether it succeeded.
    Linked(bool),
    /// The contacts were requested (whether or not that succeeded).
    ContactsRequested,
    /// Registering ended; whether it succeeded.
    Registered(bool),
    /// The user entered the SMS code.
    Code(String),
    /// Confirming the code ended; whether it succeeded.
    Confirmed(bool),
}

/// What the backend is to do next.
#[derive(Debug)]
pub enum SetupAction {
    /// Link this device, with these servers and this device name.
    Link(Servers, String),
    /// Register this device, with these servers, this phone number and this captcha.
    Register(Servers, String, String),
    /// Confirm the registration with this code.
    Confirm(String),
    /// Ask the linked device for the contacts.
    RequestContacts,
}

/// One step of the setup: where it stands after an event, what it tells the user interface and
/// what the backend is to do.
#[derive(Debug)]
pub struct SetupStep {
    pub phase: SetupPhase,
    pub notice: Option<SetupResult>,
    pub action: Option<SetupAction>,
}

/// The events that the backend can report in a phase: the result of loading while loading; a
/// decision while waiting for one; the link (once) or the end of linking, once the link was
/// shown, while linking; the request of the contacts; the end of registering; the code while
/// waiting for it; the end of confirming.
pub open spec fn event_expected(p: SetupPhase, e: SetupEvent) -> bool {
    match (p, e) {
        (SetupPhase::Loading, SetupEvent::Loaded(_)) => true,
        (SetupPhase::AwaitDecision, SetupEvent::Decision(_)) => true,
        (SetupPhase::Linking(false), SetupEvent::LinkUrl(_)) => true,
        (SetupPhase::Linking(true), SetupEvent::Linked(_)) => true,
        (SetupPhase::RequestingContacts, SetupEvent::ContactsRequested) => true,
        (SetupPhase::Registering, SetupEvent::Registered(_)) => true,
        (SetupPhase::AwaitConfirmation, SetupEvent::Code(_)) => true,
        (SetupPhase::Confirming, SetupEvent::Confirmed(_)) => true,
        _ => false,
    }
}

/// The step of the setup after an expected event:
/// - a loaded account finishes the setup; without one, a decision is asked for;
/// - to link, linking starts; its link is shown; once linked the contacts are requested, and
///   then the setup is finished; a failed linking ends the setup without an account;
/// - to register, registering starts; once registered, the SMS code is asked for and then
///   confirmed; the setup is finished whatever the confirmation gives; a failed registering
///   ends the setup without an account.
pub open spec fn setup_transition(p: SetupPhase, e: SetupEvent, s: SetupStep) -> bool {
    match e {
        SetupEvent::Loaded(true) => s.phase == SetupPhase::Done(true) && s.notice
            == Some(SetupResult::Finished) && s.action is None,
        SetupEvent::Loaded(false) => s.phase == SetupPhase::AwaitDecision && s.notice == Some(
            SetupResult::Pending,
        ) && s.action is None,
        SetupEvent::Decision(SetupDecision::Link(servers, name)) => s.phase
            == SetupPhase::Linking(false) && s.notice is None && s.action == Some(
            SetupAction::Link(servers, name),
        ),
        SetupEvent::Decision(SetupDecision::Register(servers, phone, captcha)) => s.phase
            == SetupPhase::Registering && s.notice is None && s.action == Some(
            SetupAction::Register(servers, phone, captcha),
        ),
        SetupEvent::LinkUrl(url) => s.phase == SetupPhase::Linking(true) && s.notice == Some(
            SetupResult::DisplayLinkQR(url),
        ) && s.action is None,
        SetupEvent::Linked(true) => s.phase == SetupPhase::RequestingContacts && s.notice is None
            && s.action == Some(SetupAction::RequestContacts),
        SetupEvent::Linked(false) => s.phase == SetupPhase::Done(false) && s.notice is None
            && s.action is None,
        SetupEvent::ContactsRequested => s.phase == SetupPhase::Done(true) && s.notice == Some(
            SetupResult::Finished,
        ) && s.action is None,
        SetupEvent::Registered(true) => s.phase == SetupPhase::AwaitConfirmation && s.notice
            == Some(SetupResult::Confirm) && s.action is None,
        SetupEvent::Registered(false) => s.phase == SetupPhase::Done(false) && s.notice is None
            && s.action is None,
        SetupEvent::Code(code) => s.phase == SetupPhase::Confirming && s.notice is None
            && s.action == Some(SetupAction::Confirm(code)),
        SetupEvent::Confirmed(ok) => s.phase == SetupPhase::Done(ok) && s.notice == Some(
            SetupResult::Finished,
        ) && s.action is None,
    }
}

/// The step of the setup after an expected event (see [setup_transition]).
pub fn setup_step(phase: SetupPhase, event: SetupEvent) -> (r: SetupStep)
    requires
        event_expected(phase, event),
    ensures
        setup_transition(phase, event, r),
{
    match event {
        SetupEvent::Loaded(found) => if found {
            SetupStep {
                phase: SetupPhase::Done(true),
                notice: Some(SetupResult::Finished),
                action: None,
            }
        } else {
            SetupStep {
                phase: SetupPhase::AwaitDecision,
                notice: Some(SetupResult::Pending),
                action: None,
            }
        },
        SetupEvent::Decision(SetupDecision::Link(servers, name)) => SetupStep {
            phase: SetupPhase::Linking(false),
            notice: None,
            action: Some(SetupAction::Link(servers, name)),
        },
        SetupEvent::Decision(SetupDecision::Register(servers, phone, captcha)) => SetupStep {
            phase: SetupPhase::Registering,
            notice: None,
            action: Some(SetupAction::Register(servers, phone, captcha)),
        },
        SetupEvent::LinkUrl(url) => SetupStep {
            phase: SetupPhase::Linking(true),
            notice: Some(SetupResult::DisplayLinkQR(url)),
            action: None,
        },
        SetupEvent::Linked(ok) => if ok {
            SetupStep {
                phase: SetupPhase::RequestingContacts,
                notice: None,
                action: Some(SetupAction::RequestContacts),
            }
        } else {
            SetupStep { phase: SetupPhase::Done(false), notice: None, action: None }
        },
        SetupEvent::ContactsRequested => SetupStep {
            phase: SetupPhase::Done(true),
            notice: Some(SetupResult::Finished),
            action: None,
        },
        SetupEvent::Registered(ok) => if ok {
            SetupStep {
                phase: SetupPhase::AwaitConfirmation,
                notice: Some(SetupResult::Confirm),
                action: None,
            }
        } else {
            SetupStep { phase: SetupPhase::Done(false), notice: None, action: None }
        },
        SetupEvent::Code(code) => SetupStep {
            phase: SetupPhase::Confirming,
            notice: None,
            action: Some(SetupAction::Confirm(code)),
        },
        SetupEvent::Confirmed(ok) => SetupStep {
            phase: SetupPhase::Done(ok),
            notice: Some(SetupResult::Finished),
            action: None,
        },
    }
}

/// The setup is finished towards the user interface exactly when it ends with an account, and
/// for a confirmed registration also when the confirmation failed: a step that announces the
/// end ends the setup, and a step that ends with an account announces it.
pub proof fn lemma_finished_means_done(p: SetupPhase, e: SetupEvent, s: SetupStep)
    requires
        event_expected(p, e),
        setup_transition(p, e, s),
    ensures
        s.notice == Some(SetupResult::Finished) ==> s.phase is Done,
        s.phase == SetupPhase::Done(true) ==> s.notice == Some(SetupResult::Finished),
        s.phase == SetupPhase::Done(false) && s.notice is None ==> (e matches SetupEvent::Linked(
            false,
        ) || e matches SetupEvent::Registered(false)),
{
}

/// Whether the backend's result that an event reports succeeded: loading found an account,
/// linking, registering or confirming succeeded, or the contacts of a linked device were
/// requested; none for an event that reports no such result.
pub open spec fn event_success(e: SetupEvent) -> Option<bool> {
    match e {
        SetupEvent::Loaded(b) => Some(b),
        SetupEvent::Linked(b) => Some(b),
        SetupEvent::ContactsRequested => Some(true),
        SetupEvent::Registered(b) => Some(b),
        SetupEvent::Confirmed(b) => Some(b),
        _ => None,
    }
}

/// The setup ends with an account exactly when the backend's last result succeeded: a step that
/// ends the setup follows an event that reports a result, and says that an account is set up
/// exactly when that result succeeded; a confirmation of the SMS code always ends the setup.
pub proof fn lemma_done_follows_last_result(p: SetupPhase, e: SetupEvent, s: SetupStep)
    requires
        event_expected(p, e),
        setup_transition(p, e, s),
    ensures
        s.phase matches SetupPhase::Done(b) ==> event_success(e) == Some(b),
        e is Confirmed ==> s.phase is Done,
{
}

/// No event is expected once the setup is done.
pub proof fn lemma_done_is_final(ok: bool, e: SetupEvent)
    ensures
        !event_expected(SetupPhase::Done(ok), e),
{
}

/// The E.164 form of the phone number that a text is, as the `phonenumber` crate parses it
/// (without a default country) and formats it; none where it does not parse.
pub uninterp spec fn e164_of(text: Seq<char>) -> Option<Seq<char>>;

/// Reads a phone number with `phonenumber::parse` (as `PhoneNumber::from_str` does) and gives
/// it in E.164 form (`PhoneNumber::format().mode(Mode::E164)`); none where the crate does not
/// parse it. The result is named, [e164_of].
#[verifier::external_body]
fn parse_phone_e164(text: &str) -> (r: Option<String>)
    ensures
        match r {
            Some(p) => e164_of(text@) == Some(p@),
            None => e164_of(text@) is None,
        },
{
    match phonenumber::parse(None, text) {
        Ok(p) => Some(p.format().mode(phonenumber::Mode::E164).to_string()),
        Err(_) => None,
    }
}

/// Whether the registration as a primary device can be confirmed: the phone number that was
/// entered reads as one.
pub fn phone_number_accepted(text: &str) -> (r: bool)
    ensures
        r == e164_of(text@) is Some,
{
    parse_phone_e164(text).is_some()
}

/// The decision to register as a primary device with the servers `servers`, the entered phone
/// number and the pasted captcha: the number in E.164 form (see [e164_of]) and the captcha
/// without the scheme of the captcha link (see [captcha_token]); none where the number does not
/// read as one.
pub fn primary_decision(servers: Servers, phone: &str, captcha: &str) -> (r: Option<SetupDecision>)
    ensures
        match e164_of(phone@) {
            Some(p) => r matches Some(SetupDecision::Register(s, p2, c)) && s == servers && p2@ == p
                && c@ == captcha_token(captcha@),
            None => r is None,
        },
{
    let token = strip_captcha_prefix(captcha);
    match parse_phone_e164(phone) {
        Some(p) => Some(SetupDecision::Register(servers, p, token)),
        None => None,
    }
}

} // verus!
