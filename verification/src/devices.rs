//! The devices linked to the account, as the list of linked devices shows them.
use vstd::prelude::*;

use crate::text::{replace, replace_all, str_eq};

verus! {

/// A device linked to the account, as the backend reports it; the dates are already put into
/// words (none where that failed).
#[derive(Debug)]
pub struct DeviceRecord {
    pub id: u8,
    pub name: Option<String>,
    pub created: Option<String>,
    pub last_seen: Option<String>,
}

/// A linked device as the list shows it.
#[derive(Debug)]
pub struct DeviceInfo {
    pub id: u8,
    pub name: String,
    pub created: String,
    pub last_seen: String,
}

/// The text of an optional text, empty where there is none.
pub open spec fn or_empty(s: Option<String>) -> Seq<char> {
    match s {
        Some(t) => t@,
        None => Seq::<char>::empty(),
    }
}

impl DeviceInfo {
    /// The shown form of a reported device: its id and name, and the dates in words (empty
    /// where there are none).
    pub fn new(record: DeviceRecord) -> (r: DeviceInfo)
        ensures
            r.id == record.id,
            r.name@ == or_empty(record.name),
            r.created@ == or_empty(record.created),
            r.last_seen@ == or_empty(record.last_seen),
    {
        DeviceInfo {
            id: record.id,
            name: match record.name {
                Some(n) => n,
                None => String::new(),
            },
            created: match record.created {
                Some(c) => c,
                None => String::new(),
            },
            last_seen: match record.last_seen {
                Some(l) => l,
                None => String::new(),
            },
        }
    }
}

/// The devices that the list shows: those that have a name, in their order.
pub fn linked_devices(records: Vec<DeviceRecord>) -> (r: Vec<DeviceInfo>)
    ensures
        r@.len() == records@.filter(|d: DeviceRecord| d.name is Some).len(),
        forall|i: int|
            0 <= i < r@.len() ==> {
                let d = records@.filter(|d: DeviceRecord| d.name is Some)[i];
                &&& (#[trigger] r@[i]).id == d.id
                &&& r@[i].name@ == or_empty(d.name)
                &&& r@[i].created@ == or_empty(d.created)
                &&& r@[i].last_seen@ == or_empty(d.last_seen)
            },
{
    let ghost orig = records@;
    let mut rest = records;
    let mut out: Vec<DeviceInfo> = Vec::new();
    let n = rest.len();
    let mut i: usize = 0;
    while rest.len() > 0
        invariant
            n == orig.len(),
            i + rest@.len() == n,
            rest@ == orig.subrange(i as int, n as int),
            out@.len() == orig.take(i as int).filter(|d: DeviceRecord| d.name is Some).len(),
            forall|k: int|
                0 <= k < out@.len() ==> {
                    let d = orig.take(i as int).filter(|d: DeviceRecord| d.name is Some)[k];
                    &&& (#[trigger] out@[k]).id == d.id
                    &&& out@[k].name@ == or_empty(d.name)
                    &&& out@[k].created@ == or_empty(d.created)
                    &&& out@[k].last_seen@ == or_empty(d.last_seen)
                },
        decreases rest.len(),
    {
        let d = rest.remove(0);
        reveal_with_fuel(Seq::filter, 1);
        assert(orig.take(i + 1).drop_last() =~= orig.take(i as int));
        assert(orig.take(i + 1).last() == d);
        if d.name.is_some() {
            out.push(DeviceInfo::new(d));
        }
        assert(rest@ =~= orig.subrange(i + 1, n as int));
        i += 1;
    }
    assert(orig.take(n as int) =~= orig);
    out
}

/// An item of the list of linked devices.
#[derive(Debug)]
pub struct DeviceInfoItem {
    pub device_info: Option<DeviceInfo>,
}

impl DeviceInfoItem {
    /// An item that shows no device yet.
    pub fn new() -> (r: Self)
        ensures
            r.device_info is None,
    {
        DeviceInfoItem { device_info: None }
    }

    /// The user asks to unlink the device of the item: the device to unlink, where the item
    /// shows one.
    pub fn unlink(&self) -> (r: Option<&DeviceInfo>)
        ensures
            match self.device_info {
                Some(d) => r == Some(&d),
                None => r is None,
            },
    {
        self.device_info.as_ref()
    }
}

/// The question whether to unlink a device, for the translation `template` of "Are you sure you
/// want to unlink {}?": `{}` replaced by the device's name.
pub fn unlink_question(template: &str, name: &str) -> (r: String)
    ensures
        r@ == replace_all(template@, "{}"@, name@),
{
    proof {
        reveal_strlit("{}");
    }
    replace(template, "{}", name)
}

/// The serialization of the URL that a text is, as `url::Url::parse` reads it; none where it
/// reads none.
pub uninterp spec fn url_of_text(s: Seq<char>) -> Option<Seq<char>>;

/// Parses a URL with `url::Url::parse` and gives its serialization (`Url::as_str`); none where
/// the crate refuses the text. The result is named, [url_of_text]: the URL standard that the
/// crate implements takes pages to state.
#[verifier::external_body]
pub(crate) fn parse_url(s: &str) -> (r: Option<String>)
    ensures
        match r {
            Some(u) => url_of_text(s@) == Some(u@),
            None => url_of_text(s@) is None,
        },
{
    match url::Url::parse(s) {
        Ok(u) => Some(String::from(u.as_str())),
        Err(_) => None,
    }
}

/// Whether the dialog that adds a linked device can be confirmed: the device link that was
/// entered reads as a URL.
pub fn add_device_enabled(url: &str) -> (r: bool)
    ensures
        r == url_of_text(url@) is Some,
{
    parse_url(url).is_some()
}

/// The device link to act on after the dialog that adds a linked device closes: for the
/// response "add-device", the entered link where it reads as a URL (in its serialized form);
/// nothing for any other response.
pub fn device_link_for_response(response: &str, url: &str) -> (r: Option<String>)
    ensures
        response@ == "add-device"@ ==> match r {
            Some(u) => url_of_text(url@) == Some(u@),
            None => url_of_text(url@) is None,
        },
        response@ != "add-device"@ ==> r is None,
{
    if str_eq(response, "add-device") {
        parse_url(url)
    } else {
        None
    }
}

} // verus!
