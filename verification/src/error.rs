//! The errors that the client shows to its user: what went wrong, what more there is to say,
//! and whether it is worth a report.
use vstd::prelude::*;

use crate::i18n::gettext;
use crate::text::{contains_seq, owned, replace, replace_all, str_contains};

verus! {

/// Part of the message of a failed name lookup.
pub const FAILED_TO_LOOK_UP_ADDRESS: &'static str = "failed to lookup address information";

/// Part of the message of an unreachable network.
pub const NETWORK_UNREACHABLE: &'static str = "Network is unreachable";

/// Part of the message of a timeout.
pub const TIMED_OUT: &'static str = "timed out";

/// Part of the message of a failed HTTP request.
pub const REQWEST_ERROR: &'static str = "reqwest error";

/// The storage of the client is set up wrongly.
#[derive(Debug)]
pub enum ConfigurationError {
    /// The database path (given as text) names something that is not a folder.
    DbPathNoFolder(String),
    /// The database folder (given as text) cannot be created; the second text is the error.
    CannotCreateDbFolder(String, String),
}

/// A failure of the Signal backend, as plain values: what the client distinguishes, and the
/// failure's text where the client only shows it.
#[derive(Debug)]
pub enum BackendFailure {
    /// The server refused the credentials.
    Unauthorized,
    /// The store failed.
    Store(String),
    /// The websocket failed, with this message and, where it has one, its source's message.
    WebSocket { message: String, source: Option<String> },
    /// Sending failed; `send_reason` is the reason where the server failed to send.
    MessageSender { send_reason: Option<String>, details: String },
    /// The server failed to send, for this reason.
    SendError { reason: String, details: String },
    /// Any other failure.
    Other(String),
}

/// An error of the client. The texts are the details that the error shows.
#[derive(Debug)]
pub enum ApplicationError {
    IOError(String),
    NoInternet,
    Glib(String),
    Libsecret(String),
    Db(String),
    UnauthorizedSignal,
    SendFailed(String),
    ReceiveFailed(String),
    FailedAttachmentUpload(String),
    Presage(String),
    ConfigurationError(ConfigurationError),
    ManagerThreadPanic,
}

/// The message of a configuration error.
pub open spec fn configuration_text(e: ConfigurationError) -> Seq<char> {
    match e {
        ConfigurationError::DbPathNoFolder(p) => "provided path is not a folder "@ + p@ + "\n"@,
        ConfigurationError::CannotCreateDbFolder(p, err) => "cannot create the database folder "@
            + p@ + ": "@ + err@ + "\n"@,
    }
}

impl ConfigurationError {
    /// The message of the error (see [configuration_text]).
    pub fn message(&self) -> (r: String)
        ensures
            r@ == configuration_text(*self),
    {
        match self {
            ConfigurationError::DbPathNoFolder(p) => {
                let mut s = owned("provided path is not a folder ");
                s.append(p.as_str());
                s.append("\n");
                proof {
                    reveal_strlit("provided path is not a folder ");
                    reveal_strlit("\n");
                }
                s
            },
            ConfigurationError::CannotCreateDbFolder(p, e) => {
                let mut s = owned("cannot create the database folder ");
                s.append(p.as_str());
                s.append(": ");
                s.append(e.as_str());
                s.append("\n");
                proof {
                    reveal_strlit("cannot create the database folder ");
                    reveal_strlit(": ");
                    reveal_strlit("\n");
                }
                s
            },
        }
    }
}

/// The message tells of a missing network connection: it holds one of the texts of a failed
/// name lookup, an unreachable network, a timeout or a failed HTTP request.
pub open spec fn tells_offline(m: Seq<char>) -> bool {
    ||| contains_seq(m, FAILED_TO_LOOK_UP_ADDRESS@)
    ||| contains_seq(m, NETWORK_UNREACHABLE@)
    ||| contains_seq(m, TIMED_OUT@)
    ||| contains_seq(m, REQWEST_ERROR@)
}

/// The error that a backend failure is: refused credentials are an unauthorized account; a
/// store failure is a database error; a websocket failure whose message or source tells of a
/// missing connection, and a failed send whose reason holds the text of a failed name lookup,
/// are a missing connection; another failed send of a message is a failed sending; anything
/// else is a backend error.
pub open spec fn error_of_failure(f: BackendFailure) -> ApplicationError {
    match f {
        BackendFailure::Unauthorized => ApplicationError::UnauthorizedSignal,
        BackendFailure::Store(d) => ApplicationError::Db(d),
        BackendFailure::WebSocket { message, source } => if tells_offline(message@) || (
        source matches Some(s) && tells_offline(s@)) {
            ApplicationError::NoInternet
        } else {
            ApplicationError::Presage(message)
        },
        BackendFailure::MessageSender { send_reason, details } => if send_reason matches Some(
            r,
        ) && contains_seq(r@, FAILED_TO_LOOK_UP_ADDRESS@) {
            ApplicationError::NoInternet
        } else {
            ApplicationError::SendFailed(details)
        },
        BackendFailure::SendError { reason, details } => if contains_seq(
            reason@,
            FAILED_TO_LOOK_UP_ADDRESS@,
        ) {
            ApplicationError::NoInternet
        } else {
            ApplicationError::Presage(details)
        },
        BackendFailure::Other(d) => ApplicationError::Presage(d),
    }
}

/// A websocket failure whose message or source holds the text of a failed name lookup
/// ("failed to lookup address information"), of an unreachable network ("Network is
/// unreachable"), of a timeout ("timed out") or of a failed HTTP request ("reqwest error") is a
/// missing connection; one whose texts hold none of them is a backend error with its message.
pub proof fn lemma_offline_websocket(message: String, source: Option<String>, t: Seq<char>)
    requires
        t == "failed to lookup address information"@ || t == "Network is unreachable"@ || t
            == "timed out"@ || t == "reqwest error"@,
    ensures
        (contains_seq(message@, t) || (source matches Some(src) && contains_seq(src@, t)))
            ==> error_of_failure(BackendFailure::WebSocket { message, source })
            == ApplicationError::NoInternet,
{
    reveal_strlit("failed to lookup address information");
    reveal_strlit("Network is unreachable");
    reveal_strlit("timed out");
    reveal_strlit("reqwest error");
}

/// A websocket failure whose message and source hold none of the texts of a missing
/// connection is a backend error that shows the failure's message.
pub proof fn lemma_online_websocket(message: String, source: Option<String>)
    requires
        !contains_seq(message@, "failed to lookup address information"@),
        !contains_seq(message@, "Network is unreachable"@),
        !contains_seq(message@, "timed out"@),
        !contains_seq(message@, "reqwest error"@),
        source matches Some(src) ==> {
            &&& !contains_seq(src@, "failed to lookup address information"@)
            &&& !contains_seq(src@, "Network is unreachable"@)
            &&& !contains_seq(src@, "timed out"@)
            &&& !contains_seq(src@, "reqwest error"@)
        },
    ensures
        error_of_failure(BackendFailure::WebSocket { message, source })
            == ApplicationError::Presage(message),
{
    reveal_strlit("failed to lookup address information");
    reveal_strlit("Network is unreachable");
    reveal_strlit("timed out");
    reveal_strlit("reqwest error");
}

/// Whether the message tells of a missing network connection (see [tells_offline]).
fn is_offline_message(m: &str) -> (r: bool)
    ensures
        r == tells_offline(m@),
{
    str_contains(m, FAILED_TO_LOOK_UP_ADDRESS) || str_contains(m, NETWORK_UNREACHABLE)
        || str_contains(m, TIMED_OUT) || str_contains(m, REQWEST_ERROR)
}

/// The untranslated text that tells what an error is.
pub open spec fn error_msgid(e: ApplicationError) -> Seq<char> {
    match e {
        ApplicationError::IOError(_) => "I/O Error."@,
        ApplicationError::NoInternet => "There does not seem to be a connection to the internet available."@,
        ApplicationError::Glib(_) => "Something glib-related failed."@,
        ApplicationError::Libsecret(_) => "The communication with libsecret failed."@,
        ApplicationError::Db(_) => "The backend database failed. Please restart the application or delete the database and relink the application."@,
        ApplicationError::UnauthorizedSignal => "You do not seem to be authorized with Signal. Please delete the database and relink the application."@,
        ApplicationError::SendFailed(_) => "Sending a message failed."@,
        ApplicationError::ReceiveFailed(_) => "Receiving a message failed."@,
        ApplicationError::FailedAttachmentUpload(_) => "Failed to upload an attachment"@,
        ApplicationError::Presage(_) => "Something unexpected happened with the signal backend. Please retry later."@,
        ApplicationError::ConfigurationError(_) => "The application seems to be misconfigured."@,
        ApplicationError::ManagerThreadPanic => "A part of the application crashed."@,
    }
}

/// Whether an error is worth a report: not for failures of the machine, the network, the
/// keyring or the account; for everything else.
pub open spec fn reportable(e: ApplicationError) -> bool {
    match e {
        ApplicationError::IOError(_) => false,
        ApplicationError::NoInternet => false,
        ApplicationError::Libsecret(_) => false,
        ApplicationError::UnauthorizedSignal => false,
        _ => true,
    }
}

/// The untranslated text that tells more of an error, for the errors that have no details of
/// their own.
pub open spec fn more_msgid(e: ApplicationError) -> Option<Seq<char>> {
    match e {
        ApplicationError::NoInternet => Some("Please check your internet connection."@),
        ApplicationError::UnauthorizedSignal => Some(
            "Please delete the database and relink the device."@,
        ),
        ApplicationError::ConfigurationError(ConfigurationError::DbPathNoFolder(_)) => Some(
            "The database path at {} is no folder."@,
        ),
        ApplicationError::ConfigurationError(ConfigurationError::CannotCreateDbFolder(_, _)) => Some(
            "The database path at {path} is cannot be created due to error {error}."@,
        ),
        ApplicationError::ManagerThreadPanic => Some(
            "Please restart the application with logging and report this issue."@,
        ),
        _ => None,
    }
}

/// The details that an error carries itself, where it carries some.
pub open spec fn own_details(e: ApplicationError) -> Option<Seq<char>> {
    match e {
        ApplicationError::IOError(d) => Some(d@),
        ApplicationError::Glib(d) => Some(d@),
        ApplicationError::Libsecret(d) => Some(d@),
        ApplicationError::Db(d) => Some(d@),
        ApplicationError::SendFailed(d) => Some(d@),
        ApplicationError::ReceiveFailed(d) => Some(d@),
        ApplicationError::FailedAttachmentUpload(d) => Some(d@),
        ApplicationError::Presage(d) => Some(d@),
        _ => None,
    }
}

/// The further information of an error that has no details of its own, given the translation
/// `t` of its text: the translation itself, with the path (and the error) filled in for a
/// configuration error.
pub open spec fn filled_information(e: ApplicationError, t: Seq<char>) -> Seq<char> {
    match e {
        ApplicationError::ConfigurationError(ConfigurationError::DbPathNoFolder(p)) => replace_all(
            t,
            "{}"@,
            p@,
        ),
        ApplicationError::ConfigurationError(ConfigurationError::CannotCreateDbFolder(p, err)) => replace_all(
            replace_all(t, "{path}"@, p@),
            "{error}"@,
            err@,
        ),
        _ => t,
    }
}

impl ApplicationError {
    /// The error that a backend failure is (see [error_of_failure]).
    pub fn from_failure(f: BackendFailure) -> (r: ApplicationError)
        ensures
            r == error_of_failure(f),
    {
        match f {
            BackendFailure::Unauthorized => ApplicationError::UnauthorizedSignal,
            BackendFailure::Store(d) => ApplicationError::Db(d),
            BackendFailure::WebSocket { message, source } => {
                let offline = is_offline_message(message.as_str()) || match &source {
                    Some(s) => is_offline_message(s.as_str()),
                    None => false,
                };
                if offline {
                    ApplicationError::NoInternet
                } else {
                    ApplicationError::Presage(message)
                }
            },
            BackendFailure::MessageSender { send_reason, details } => {
                let offline = match &send_reason {
                    Some(r) => str_contains(r.as_str(), FAILED_TO_LOOK_UP_ADDRESS),
                    None => false,
                };
                if offline {
                    ApplicationError::NoInternet
                } else {
                    ApplicationError::SendFailed(details)
                }
            },
            BackendFailure::SendError { reason, details } => {
                if str_contains(reason.as_str(), FAILED_TO_LOOK_UP_ADDRESS) {
                    ApplicationError::NoInternet
                } else {
                    ApplicationError::Presage(details)
                }
            },
            BackendFailure::Other(d) => ApplicationError::Presage(d),
        }
    }

    /// The untranslated text that tells what the error is (see [error_msgid]).
    pub fn msgid(&self) -> (r: &'static str)
        ensures
            r@ == error_msgid(*self),
    {
        match self {
            ApplicationError::IOError(_) => "I/O Error.",
            ApplicationError::NoInternet => "There does not seem to be a connection to the internet available.",
            ApplicationError::Glib(_) => "Something glib-related failed.",
            ApplicationError::Libsecret(_) => "The communication with libsecret failed.",
            ApplicationError::Db(_) => "The backend database failed. Please restart the application or delete the database and relink the application.",
            ApplicationError::UnauthorizedSignal => "You do not seem to be authorized with Signal. Please delete the database and relink the application.",
            ApplicationError::SendFailed(_) => "Sending a message failed.",
            ApplicationError::ReceiveFailed(_) => "Receiving a message failed.",
            ApplicationError::FailedAttachmentUpload(_) => "Failed to upload an attachment",
            ApplicationError::Presage(_) => "Something unexpected happened with the signal backend. Please retry later.",
            ApplicationError::ConfigurationError(_) => "The application seems to be misconfigured.",
            ApplicationError::ManagerThreadPanic => "A part of the application crashed.",
        }
    }

    /// The text that tells what the error is: the translation of its [text](ApplicationError::msgid),
    /// followed by a line break.
    pub fn to_text(&self) -> (r: String)
        ensures
            exists|t: Seq<char>| r@ == t + "\n"@,
    {
        let id = self.msgid();
        proof {
            reveal_strlit("I/O Error.");
            reveal_strlit("There does not seem to be a connection to the internet available.");
            reveal_strlit("Something glib-related failed.");
            reveal_strlit("The communication with libsecret failed.");
            reveal_strlit("The backend database failed. Please restart the application or delete the database and relink the application.");
            reveal_strlit("You do not seem to be authorized with Signal. Please delete the database and relink the application.");
            reveal_strlit("Sending a message failed.");
            reveal_strlit("Receiving a message failed.");
            reveal_strlit("Failed to upload an attachment");
            reveal_strlit("Something unexpected happened with the signal backend. Please retry later.");
            reveal_strlit("The application seems to be misconfigured.");
            reveal_strlit("A part of the application crashed.");
        }
        let mut s = gettext(id);
        let ghost t = s@;
        s.append("\n");
        s
    }

    /// Whether the error is worth a report (see [reportable]).
    pub fn should_report(&self) -> (r: bool)
        ensures
            r == reportable(*self),
    {
        match self {
            ApplicationError::IOError(_) => false,
            ApplicationError::NoInternet => false,
            ApplicationError::Libsecret(_) => false,
            ApplicationError::UnauthorizedSignal => false,
            _ => true,
        }
    }

    /// The untranslated text that tells more of the error, for the errors that have no details
    /// of their own (see [more_msgid]).
    pub fn more_information_msgid(&self) -> (r: Option<&'static str>)
        ensures
            match r {
                Some(s) => more_msgid(*self) == Some(s@),
                None => more_msgid(*self) is None,
            },
    {
        match self {
            ApplicationError::NoInternet => Some("Please check your internet connection."),
            ApplicationError::UnauthorizedSignal => Some(
                "Please delete the database and relink the device.",
            ),
            ApplicationError::ConfigurationError(ConfigurationError::DbPathNoFolder(_)) => Some(
                "The database path at {} is no folder.",
            ),
            ApplicationError::ConfigurationError(ConfigurationError::CannotCreateDbFolder(_, _)) => Some(
                "The database path at {path} is cannot be created due to error {error}.",
            ),
            ApplicationError::ManagerThreadPanic => Some(
                "Please restart the application with logging and report this issue.",
            ),
            _ => None,
        }
    }

    /// Fills the translation `t` of the further information of an error that has no details of
    /// its own (see [filled_information]).
    pub fn fill_information(&self, t: &str) -> (r: String)
        ensures
            r@ == filled_information(*self, t@),
    {
        proof {
            reveal_strlit("{}");
            reveal_strlit("{path}");
            reveal_strlit("{error}");
        }
        match self {
            ApplicationError::ConfigurationError(ConfigurationError::DbPathNoFolder(p)) => replace(
                t,
                "{}",
                p.as_str(),
            ),
            ApplicationError::ConfigurationError(
                ConfigurationError::CannotCreateDbFolder(p, e),
            ) => {
                let s = replace(t, "{path}", p.as_str());
                replace(s.as_str(), "{error}", e.as_str())
            },
            _ => owned(t),
        }
    }

    /// Further information on the error: its own details where it carries some, else the
    /// translation of its [further text](ApplicationError::more_information_msgid), filled in
    /// (see [filled_information]).
    pub fn more_information(&self) -> (r: String)
        ensures
            own_details(*self) matches Some(d) ==> r@ == d,
            own_details(*self) is None ==> exists|t: Seq<char>| r@ == filled_information(*self, t),
    {
        match self {
            ApplicationError::IOError(d) => owned(d.as_str()),
            ApplicationError::Glib(d) => owned(d.as_str()),
            ApplicationError::Libsecret(d) => owned(d.as_str()),
            ApplicationError::Db(d) => owned(d.as_str()),
            ApplicationError::SendFailed(d) => owned(d.as_str()),
            ApplicationError::ReceiveFailed(d) => owned(d.as_str()),
            ApplicationError::FailedAttachmentUpload(d) => owned(d.as_str()),
            ApplicationError::Presage(d) => owned(d.as_str()),
            _ => {
                let id = self.more_information_msgid().unwrap();
                proof {
                    reveal_strlit("Please check your internet connection.");
                    reveal_strlit("Please delete the database and relink the device.");
                    reveal_strlit("The database path at {} is no folder.");
                    reveal_strlit("The database path at {path} is cannot be created due to error {error}.");
                    reveal_strlit("Please restart the application with logging and report this issue.");
                }
                let t = gettext(id);
                self.fill_information(t.as_str())
            },
        }
    }
}

} // verus!
