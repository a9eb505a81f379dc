//! Translation of the texts that the client shows, through gettext.
use vstd::prelude::*;

verus! {

/// No character of the text is the NUL character, which gettext cannot take.
pub open spec fn no_nul(s: Seq<char>) -> bool {
    forall|i: int| 0 <= i < s.len() ==> s[i] != '\0'
}

/// Translates `msgid` with `gettextrs::gettext` into the language of the current locale.
///
/// The translation depends on the locale and on the installed message catalogues, so nothing
/// is stated of the result. `gettextrs::gettext` panics where `msgid` holds a NUL character,
/// which `requires` leaves out; it also panics where the installed catalogue holds a translation
/// that is not UTF-8, which no argument can rule out.
#[verifier::external_body]
pub(crate) fn gettext(msgid: &str) -> String
    requires
        no_nul(msgid@),
{
    gettextrs::gettext(msgid)
}

/// Translates `msgid`, or its plural form `msgid_plural`, for the count `n` with
/// `gettextrs::ngettext`.
///
/// The translation depends on the locale and on the installed message catalogues, so nothing
/// is stated of the result. `gettextrs::ngettext` panics where one of the texts holds a NUL
/// character, which `requires` leaves out; it also panics where the installed catalogue holds a
/// translation that is not UTF-8, which no argument can rule out.
#[verifier::external_body]
pub(crate) fn ngettext(msgid: &str, msgid_plural: &str, n: u32) -> String
    requires
        no_nul(msgid@),
        no_nul(msgid_plural@),
{
    gettextrs::ngettext(msgid, msgid_plural, n)
}

} // verus!
