//! A contact: a user of Signal, known from the contact list, from a profile or only by UUID;
//! how the client names it.
use vstd::prelude::*;

use crate::i18n::gettext;
use crate::text::{find_last, last_index_of, lemma_last_index_of, owned, remove_isolates, strip_isolates, sub_string};

verus! {

/// The name of a Signal profile.
#[derive(Debug)]
pub struct ProfileName {
    pub given_name: String,
    pub family_name: Option<String>,
}

/// The parts of a Signal profile that the client shows.
#[derive(Debug)]
pub struct Profile {
    pub name: Option<ProfileName>,
    pub about: Option<String>,
    pub about_emoji: Option<String>,
}

/// An entry of the contact list that Signal synchronises.
#[derive(Debug)]
pub struct StoredContact {
    pub uuid: u128,
    /// The name given to the contact; empty where there is none.
    pub name: String,
    /// The phone number, in E.164 form.
    pub phone_number: Option<String>,
    /// Seconds after which messages disappear; 0 for never.
    pub expire_timer: u32,
    /// The key with which the contact's profile is fetched; a valid one has 32 bytes.
    pub profile_key: Vec<u8>,
}

/// The untranslated title of a contact of whom nothing is known.
pub fn unknown_contact_msgid() -> (r: &'static str)
    ensures
        r@ == "Unknown contact"@,
{
    "Unknown contact"
}

/// A user of Signal as the client knows it.
#[derive(Debug)]
pub struct Contact {
    /// The entry of the contact list, where the user is in it.
    pub contact: Option<StoredContact>,
    /// The phone number, in E.164 form.
    pub phone_number: Option<String>,
    pub uuid: Option<u128>,
    /// The profile, once it was fetched.
    pub profile: Option<Profile>,
    /// The UUID of this account.
    pub own_uuid: u128,
    /// The profile name of this account.
    pub own_profile_name: String,
}

/// The national format of the phone number `e164` (given in E.164 form), as the `phonenumber`
/// crate formats it; none where the crate does not parse it.
pub uninterp spec fn national_format(e164: Seq<char>) -> Option<Seq<char>>;

/// Formats a phone number given in E.164 form in the national format of its country, with
/// `phonenumber::parse` and `PhoneNumber::format().mode(Mode::National)`.
///
/// The result is named, not stated: it is [national_format] of the argument, none where
/// `phonenumber::parse` fails. A number that parses carries a country code of the crate's
/// database, so that formatting it does not fail.
#[verifier::external_body]
fn format_national(e164: &str) -> (r: Option<String>)
    ensures
        match r {
            Some(s) => national_format(e164@) == Some(s@),
            None => national_format(e164@) is None,
        },
{
    match phonenumber::parse(None, e164) {
        Ok(p) => Some(p.format().mode(phonenumber::Mode::National).to_string()),
        Err(_) => None,
    }
}

/// The shown form of a profile name: the given name, then a space and the family name where
/// there is one.
pub open spec fn profile_name_text(n: ProfileName) -> Seq<char> {
    match n.family_name {
        Some(f) => n.given_name@ + " "@ + f@,
        None => n.given_name@,
    }
}

/// The shown form of a profile name (see [profile_name_text]).
pub fn format_profile_name(n: &ProfileName) -> (r: String)
    ensures
        r@ == profile_name_text(*n),
{
    let mut s = owned(n.given_name.as_str());
    match &n.family_name {
        Some(f) => {
            s.append(" ");
            s.append(f.as_str());
        },
        None => {},
    }
    s
}

/// A name split at its last space: the part before it, where there is a space, and the part
/// after it.
pub open spec fn split_last_space(name: Seq<char>) -> (Option<Seq<char>>, Seq<char>) {
    let i = last_index_of(name, ' ');
    if i >= 0 {
        (Some(name.subrange(0, i)), name.subrange(i + 1, name.len() as int))
    } else {
        (None, name)
    }
}

/// The optional text without isolate marks.
pub open spec fn strip_opt(s: Option<Seq<char>>) -> Option<Seq<char>> {
    match s {
        Some(t) => Some(strip_isolates(t)),
        None => None,
    }
}

impl Contact {
    /// Whether the contact is this account.
    pub open spec fn spec_is_self(&self) -> bool {
        self.contact matches Some(c) && c.uuid == self.own_uuid
    }

    /// The UUID of the contact: that of its contact-list entry, else the one it was made with,
    /// else the nil UUID.
    pub open spec fn spec_uuid(&self) -> u128 {
        match self.contact {
            Some(c) => c.uuid,
            None => match self.uuid {
                Some(u) => u,
                None => 0,
            },
        }
    }

    /// What names the contact, where anything does: the name in the contact list, else the
    /// profile name, else the phone number in national format.
    pub open spec fn title_source(&self) -> Option<Seq<char>> {
        if self.contact matches Some(c) && c.name@.len() > 0 {
            Some(self.contact->0.name@)
        } else if self.profile matches Some(p) && p.name is Some {
            Some(profile_name_text(self.profile->0.name->0))
        } else {
            match self.phone_number {
                Some(p) => national_format(p@),
                None => None,
            }
        }
    }

    /// The title of the contact where it is known: the profile name of this account for this
    /// account itself, else [title_source](Contact::title_source) without isolate marks.
    pub open spec fn known_title(&self) -> Option<Seq<char>> {
        if self.spec_is_self() {
            Some(self.own_profile_name@)
        } else {
            strip_opt(self.title_source())
        }
    }

    /// The first names and last name of the contact where they are known: for this account its
    /// profile name as the last name; else the name in the contact list split at its last
    /// space, else the profile's given and family name (the given name alone as the last name
    /// where there is no family name), else the phone number in national format; each part
    /// without isolate marks.
    pub open spec fn known_name_parts(&self) -> Option<(Option<Seq<char>>, Seq<char>)> {
        if self.spec_is_self() {
            Some((None, self.own_profile_name@))
        } else {
            let parts: Option<(Option<Seq<char>>, Seq<char>)> = if self.contact matches Some(c)
                && c.name@.len() > 0 {
                Some(split_last_space(self.contact->0.name@))
            } else if self.profile matches Some(p) && p.name is Some {
                let n = self.profile->0.name->0;
                match n.family_name {
                    Some(f) => Some((Some(n.given_name@), f@)),
                    None => Some((None, n.given_name@)),
                }
            } else {
                match self.phone_number {
                    Some(p) => match national_format(p@) {
                        Some(t) => Some((None, t)),
                        None => None,
                    },
                    None => None,
                }
            };
            match parts {
                Some((a, b)) => Some((strip_opt(a), strip_isolates(b))),
                None => None,
            }
        }
    }

    /// The description of the contact from its profile: the emoji and the text about it,
    /// separated by a space where both are there; none where neither is.
    pub open spec fn spec_description(&self) -> Option<Seq<char>> {
        match self.profile {
            Some(p) => {
                let emoji = match p.about_emoji {
                    Some(e) => e@,
                    None => Seq::<char>::empty(),
                };
                let about = match p.about {
                    Some(a) => a@,
                    None => Seq::<char>::empty(),
                };
                if emoji.len() == 0 && about.len() == 0 {
                    None
                } else if emoji.len() == 0 {
                    Some(about)
                } else if about.len() == 0 {
                    Some(emoji)
                } else {
                    Some(emoji + " "@ + about)
                }
            },
            None => None,
        }
    }

    /// A contact from the contact list.
    pub fn from_contact(contact: StoredContact, own_uuid: u128, own_profile_name: String) -> (r:
        Self)
        ensures
            r.contact == Some(contact),
            r.uuid == Some(contact.uuid),
            match contact.phone_number {
                Some(q) => r.phone_number matches Some(p) && p@ == q@,
                None => r.phone_number is None,
            },
            r.profile is None,
            r.own_uuid == own_uuid,
            r.own_profile_name == own_profile_name,
    {
        let phone_number = match &contact.phone_number {
            Some(p) => Some(owned(p.as_str())),
            None => None,
        };
        let uuid = contact.uuid;
        Contact {
            contact: Some(contact),
            phone_number,
            uuid: Some(uuid),
            profile: None,
            own_uuid,
            own_profile_name,
        }
    }

    /// A contact known only by its UUID.
    pub fn from_uuid(uuid: u128, own_uuid: u128, own_profile_name: String) -> (r: Self)
        ensures
            r.contact is None,
            r.uuid == Some(uuid),
            r.phone_number is None,
            r.profile is None,
            r.own_uuid == own_uuid,
            r.own_profile_name == own_profile_name,
    {
        Contact {
            contact: None,
            phone_number: None,
            uuid: Some(uuid),
            profile: None,
            own_uuid,
            own_profile_name,
        }
    }

    /// Whether the contact is blocked; blocking is not kept, so no contact is.
    pub fn is_blocked(&self) -> (r: bool)
        ensures
            !r,
    {
        false
    }

    /// Whether the contact is this account.
    pub fn is_self(&self) -> (r: bool)
        ensures
            r == self.spec_is_self(),
    {
        match &self.contact {
            Some(c) => c.uuid == self.own_uuid,
            None => false,
        }
    }

    /// The UUID of the contact (see [spec_uuid](Contact::spec_uuid)).
    pub fn uuid(&self) -> (r: u128)
        ensures
            r == self.spec_uuid(),
    {
        match &self.contact {
            Some(c) => c.uuid,
            None => match self.uuid {
                Some(u) => u,
                None => 0,
            },
        }
    }

    /// Seconds after which messages with the contact disappear; 0 for never.
    pub fn expire_timer(&self) -> (r: u32)
        ensures
            r == match self.contact {
                Some(c) => c.expire_timer,
                None => 0,
            },
    {
        match &self.contact {
            Some(c) => c.expire_timer,
            None => 0,
        }
    }

    /// The phone number of the contact-list entry, in E.164 form.
    pub fn phone_number(&self) -> (r: Option<String>)
        ensures
            match self.contact {
                Some(c) => match c.phone_number {
                    Some(p) => r matches Some(s) && s@ == p@,
                    None => r is None,
                },
                None => r is None,
            },
    {
        match &self.contact {
            Some(c) => match &c.phone_number {
                Some(p) => Some(owned(p.as_str())),
                None => None,
            },
            None => None,
        }
    }

    /// The description of the contact (see [spec_description](Contact::spec_description)).
    pub fn description(&self) -> (r: Option<String>)
        ensures
            match r {
                Some(s) => self.spec_description() == Some(s@),
                None => self.spec_description() is None,
            },
    {
        match &self.profile {
            Some(p) => {
                let emoji = match &p.about_emoji {
                    Some(e) => owned(e.as_str()),
                    None => String::new(),
                };
                let about = match &p.about {
                    Some(a) => owned(a.as_str()),
                    None => String::new(),
                };
                let ne = emoji.unicode_len();
                let na = about.unicode_len();
                if ne == 0 && na == 0 {
                    None
                } else if ne == 0 {
                    Some(about)
                } else if na == 0 {
                    Some(emoji)
                } else {
                    let mut s = emoji;
                    s.append(" ");
                    s.append(about.as_str());
                    Some(s)
                }
            },
            None => None,
        }
    }

    /// What names the contact, where anything does (see [title_source](Contact::title_source)).
    fn source_title(&self) -> (r: Option<String>)
        ensures
            match r {
                Some(s) => self.title_source() == Some(s@),
                None => self.title_source() is None,
            },
    {
        match &self.contact {
            Some(c) => {
                if c.name.unicode_len() > 0 {
                    return Some(owned(c.name.as_str()));
                }
            },
            None => {},
        }
        match &self.profile {
            Some(p) => match &p.name {
                Some(n) => {
                    return Some(format_profile_name(n));
                },
                None => {},
            },
            None => {},
        }
        match &self.phone_number {
            Some(p) => format_national(p.as_str()),
            None => None,
        }
    }

    /// The title of the contact where it is known (see [known_title](Contact::known_title)).
    pub fn title_if_known(&self) -> (r: Option<String>)
        ensures
            match r {
                Some(s) => self.known_title() == Some(s@),
                None => self.known_title() is None,
            },
    {
        if self.is_self() {
            return Some(owned(self.own_profile_name.as_str()));
        }
        match self.source_title() {
            Some(t) => Some(remove_isolates(t.as_str())),
            None => None,
        }
    }

    /// The title of the contact: [known_title](Contact::known_title) where it is known, else
    /// the translation of [unknown_contact_msgid] without isolate marks.
    pub fn title(&self) -> (r: String)
        ensures
            self.known_title() matches Some(t) ==> r@ == t,
            self.known_title() is None ==> exists|t: Seq<char>| r@ == strip_isolates(t),
    {
        match self.title_if_known() {
            Some(t) => t,
            None => {
                let id = unknown_contact_msgid();
                proof {
                    reveal_strlit("Unknown contact");
                }
                let unknown = gettext(id);
                remove_isolates(unknown.as_str())
            },
        }
    }

    /// The first names and last name of the contact where they are known (see
    /// [known_name_parts](Contact::known_name_parts)).
    pub fn name_parts_if_known(&self) -> (r: Option<(Option<String>, String)>)
        ensures
            match r {
                Some((a, b)) => self.known_name_parts() == Some(
                    (
                        match a {
                            Some(x) => Some(x@),
                            None => None,
                        },
                        b@,
                    ),
                ),
                None => self.known_name_parts() is None,
            },
    {
        if self.is_self() {
            return Some((None, owned(self.own_profile_name.as_str())));
        }
        let parts: Option<(Option<String>, String)> = match &self.contact {
            Some(c) if c.name.unicode_len() > 0 => {
                let name = c.name.as_str();
                proof {
                    lemma_last_index_of(name@, ' ');
                }
                match find_last(name, ' ') {
                    Some(i) => Some(
                        (
                            Some(sub_string(name, 0, i)),
                            sub_string(name, i + 1, name.unicode_len()),
                        ),
                    ),
                    None => Some((None, owned(name))),
                }
            },
            _ => match &self.profile {
                Some(p) if p.name.is_some() => {
                    let n = p.name.as_ref().unwrap();
                    match &n.family_name {
                        Some(f) => Some(
                            (Some(owned(n.given_name.as_str())), owned(f.as_str())),
                        ),
                        None => Some((None, owned(n.given_name.as_str()))),
                    }
                },
                _ => match &self.phone_number {
                    Some(p) => match format_national(p.as_str()) {
                        Some(t) => Some((None, t)),
                        None => None,
                    },
                    None => None,
                },
            },
        };
        match parts {
            Some((a, b)) => {
                let a2 = match a {
                    Some(x) => Some(remove_isolates(x.as_str())),
                    None => None,
                };
                Some((a2, remove_isolates(b.as_str())))
            },
            None => None,
        }
    }

    /// The first names and last name of the contact: [known_name_parts](Contact::known_name_parts)
    /// where they are known, else no first names and the translation of [unknown_contact_msgid]
    /// without isolate marks.
    pub fn name_parts(&self) -> (r: (Option<String>, String))
        ensures
            self.known_name_parts() matches Some(k) ==> k == (
                match r.0 {
                    Some(x) => Some(x@),
                    None => None,
                },
                r.1@,
            ),
            self.known_name_parts() is None ==> r.0 is None && exists|t: Seq<char>| r.1@
                == strip_isolates(t),
    {
        match self.name_parts_if_known() {
            Some(p) => p,
            None => {
                let id = unknown_contact_msgid();
                proof {
                    reveal_strlit("Unknown contact");
                }
                let unknown = gettext(id);
                (None, remove_isolates(unknown.as_str()))
            },
        }
    }
}

} // verus!
