//! What the light-weight interface shows of the store: the channels with their last messages,
//! ordered by recent activity, and pages of a channel's messages, newest first.
use vstd::prelude::*;

use crate::contact::StoredContact;
use crate::content::ServiceId;
use crate::core_model::{opt_view, ChannelId, CoreMessage};
use crate::text::{owned, uuid_string, uuid_text};

verus! {

/// A channel as the light-weight interface shows it.
#[derive(Debug)]
pub struct CoreChannel {
    pub id: ChannelId,
    pub title: String,
    pub is_group: bool,
    pub last_message_text: Option<String>,
    pub last_message_timestamp: Option<u64>,
    pub unread_count: u32,
    /// The names of the group's members (empty for 1-to-1 channels).
    pub members: Vec<String>,
}

/// `a` comes after `b` in an order where no value comes first and greater values come first.
pub open spec fn key_greater(a: Option<u64>, b: Option<u64>) -> bool {
    match (a, b) {
        (Some(x), Some(y)) => x > y,
        (Some(_), None) => true,
        _ => false,
    }
}

/// `out` is `input` sorted by descending keys, stably: `idx` tells for each position of `out`
/// where it was in `input`; it takes every position once; the keys do not increase; equal keys
/// keep their order.
pub open spec fn sorted_desc_by(
    input: Seq<Option<u64>>,
    out: Seq<Option<u64>>,
    idx: Seq<int>,
) -> bool {
    &&& out.len() == input.len()
    &&& idx.len() == input.len()
    &&& forall|a: int| 0 <= a < idx.len() ==> 0 <= #[trigger] idx[a] < input.len()
    &&& forall|a: int| 0 <= a < idx.len() ==> out[a] == input[#[trigger] idx[a]]
    &&& forall|a: int, b: int| 0 <= a < b < idx.len() ==> #[trigger] idx[a] != #[trigger] idx[b]
    &&& forall|a: int, b: int|
        0 <= a < b < out.len() ==> !key_greater(#[trigger] out[b], #[trigger] out[a])
    &&& forall|a: int, b: int|
        0 <= a < b < out.len() && out[a] == out[b] ==> #[trigger] idx[a] < #[trigger] idx[b]
}

/// The key of a message: its timestamp.
pub open spec fn message_key(m: CoreMessage) -> Option<u64> {
    Some(m.timestamp)
}

/// The keys of messages.
pub open spec fn message_keys(s: Seq<CoreMessage>) -> Seq<Option<u64>> {
    s.map_values(|m: CoreMessage| message_key(m))
}

/// The messages that the interface lists, in their order (see [listed]).
pub open spec fn listed_of(s: Seq<CoreMessage>) -> Seq<CoreMessage> {
    s.filter(|m: CoreMessage| listed(m))
}

/// The keys of channels: the timestamps of their last messages.
pub open spec fn channel_keys(s: Seq<CoreChannel>) -> Seq<Option<u64>> {
    s.map_values(|c: CoreChannel| c.last_message_timestamp)
}

/// Where an item with key `k` goes among items sorted by descending keys: after those with
/// greater or equal keys.
fn insertion_position(keys: &Vec<Option<u64>>, k: Option<u64>) -> (r: usize)
    requires
        forall|a: int, b: int|
            0 <= a < b < keys@.len() ==> !key_greater(#[trigger] keys@[b], #[trigger] keys@[a]),
    ensures
        r <= keys@.len(),
        forall|a: int| 0 <= a < r ==> !key_greater(k, #[trigger] keys@[a]),
        forall|a: int| r <= a < keys@.len() ==> key_greater(k, #[trigger] keys@[a]),
{
    let mut p: usize = 0;
    while p < keys.len() && !greater(k, keys[p])
        invariant
            p <= keys@.len(),
            forall|a: int| 0 <= a < p ==> !key_greater(k, #[trigger] keys@[a]),
        decreases keys.len() - p,
    {
        p += 1;
    }
    proof {
        assert forall|a: int| p <= a < keys@.len() implies key_greater(k, #[trigger] keys@[a]) by {
            if a > p {
                assert(!key_greater(keys@[a], keys@[p as int]));
            }
        }
    }
    p
}

/// Whether `a` comes after `b` (see [key_greater]).
fn greater(a: Option<u64>, b: Option<u64>) -> (r: bool)
    ensures
        r == key_greater(a, b),
{
    match (a, b) {
        (Some(x), Some(y)) => x > y,
        (Some(_), None) => true,
        _ => false,
    }
}

/// Inserting a new last item after the greater or equal keys keeps a stable descending order.
proof fn lemma_insert_keeps_order(
    input: Seq<Option<u64>>,
    out: Seq<Option<u64>>,
    idx: Seq<int>,
    p: int,
)
    requires
        input.len() > 0,
        sorted_desc_by(input.drop_last(), out, idx),
        0 <= p <= out.len(),
        forall|a: int| 0 <= a < p ==> !key_greater(input.last(), #[trigger] out[a]),
        forall|a: int| p <= a < out.len() ==> key_greater(input.last(), #[trigger] out[a]),
    ensures
        sorted_desc_by(input, out.insert(p, input.last()), idx.insert(p, input.len() - 1)),
{
    let n = input.len() - 1;
    let k = input.last();
    let o2 = out.insert(p, k);
    let i2 = idx.insert(p, n);
    let pre = input.drop_last();
    assert forall|a: int| 0 <= a < i2.len() implies 0 <= #[trigger] i2[a] < input.len() by {
        if a < p {
            assert(i2[a] == idx[a]);
        } else if a > p {
            assert(i2[a] == idx[a - 1]);
        }
    }
    assert forall|a: int| 0 <= a < i2.len() implies o2[a] == input[#[trigger] i2[a]] by {
        if a < p {
            assert(i2[a] == idx[a]);
            assert(input[idx[a]] == pre[idx[a]]);
        } else if a > p {
            assert(i2[a] == idx[a - 1]);
            assert(input[idx[a - 1]] == pre[idx[a - 1]]);
        }
    }
    assert forall|a: int, b: int| 0 <= a < b < i2.len() implies #[trigger] i2[a] != #[trigger] i2[b] by {
        if a != p && b != p {
            let x = if a < p {
                a
            } else {
                a - 1
            };
            let y = if b < p {
                b
            } else {
                b - 1
            };
            assert(i2[a] == idx[x] && i2[b] == idx[y]);
        } else if a == p {
            assert(i2[b] == idx[b - 1]);
        } else {
            assert(i2[a] == idx[a]);
        }
    }
    assert forall|a: int, b: int| 0 <= a < b < o2.len() implies !key_greater(
        #[trigger] o2[b],
        #[trigger] o2[a],
    ) by {
        if a < p && b < p {
            assert(o2[a] == out[a] && o2[b] == out[b]);
        } else if a < p && b == p {
            assert(o2[a] == out[a]);
        } else if a < p {
            assert(o2[a] == out[a] && o2[b] == out[b - 1]);
        } else if a == p {
            assert(o2[b] == out[b - 1]);
        } else {
            assert(o2[a] == out[a - 1] && o2[b] == out[b - 1]);
        }
    }
    assert forall|a: int, b: int| 0 <= a < b < o2.len() && o2[a] == o2[b] implies #[trigger] i2[a]
        < #[trigger] i2[b] by {
        if a < p && b < p {
            assert(o2[a] == out[a] && o2[b] == out[b]);
            assert(i2[a] == idx[a] && i2[b] == idx[b]);
        } else if a < p && b == p {
            assert(i2[a] == idx[a]);
        } else if a < p {
            assert(o2[a] == out[a] && o2[b] == out[b - 1]);
            assert(i2[a] == idx[a] && i2[b] == idx[b - 1]);
        } else if a == p {
            assert(o2[b] == out[b - 1]);
        } else {
            assert(o2[a] == out[a - 1] && o2[b] == out[b - 1]);
            assert(i2[a] == idx[a - 1] && i2[b] == idx[b - 1]);
        }
    }
}

/// `out` is `items` (with the keys `keys`) sorted by descending keys, stably (see
/// [sorted_desc_by]).
pub open spec fn sorted_items_desc<T>(items: Seq<T>, keys: Seq<Option<u64>>, out: Seq<T>) -> bool {
    exists|idx: Seq<int>, out_keys: Seq<Option<u64>>|
        #![trigger sorted_desc_by(keys, out_keys, idx)]
        sorted_desc_by(keys, out_keys, idx) && out.len() == idx.len() && forall|a: int|
            0 <= a < idx.len() ==> out[a] == items[#[trigger] idx[a]]
}

/// Sorts items by descending keys, stably (see [sorted_items_desc]).
pub fn sort_by_keys_desc<T>(items: Vec<T>, keys: Vec<Option<u64>>) -> (r: Vec<T>)
    requires
        items@.len() == keys@.len(),
    ensures
        sorted_items_desc(items@, keys@, r@),
{
    let ghost orig = items@;
    let ghost ks = keys@;
    let mut rest = items;
    let mut rest_keys = keys;
    let mut out: Vec<T> = Vec::new();
    let mut out_keys: Vec<Option<u64>> = Vec::new();
    let ghost mut idx: Seq<int> = seq![];
    let n = rest.len();
    let mut i: usize = 0;
    while rest.len() > 0
        invariant
            n == orig.len() == ks.len(),
            i + rest@.len() == n,
            rest_keys@.len() == rest@.len(),
            rest@ == orig.subrange(i as int, n as int),
            rest_keys@ == ks.subrange(i as int, n as int),
            out@.len() == idx.len(),
            sorted_desc_by(ks.take(i as int), out_keys@, idx),
            forall|a: int| 0 <= a < idx.len() ==> out@[a] == orig[#[trigger] idx[a]],
        decreases rest.len(),
    {
        let m = rest.remove(0);
        let k = rest_keys.remove(0);
        assert(m == orig[i as int]);
        assert(k == ks[i as int]);
        let p = insertion_position(&out_keys, k);
        proof {
            assert(ks.take(i + 1).drop_last() =~= ks.take(i as int));
            assert(ks.take(i + 1).last() == k);
            lemma_insert_keeps_order(ks.take(i + 1), out_keys@, idx, p as int);
        }
        out.insert(p, m);
        out_keys.insert(p, k);
        proof {
            let old_idx = idx;
            idx = idx.insert(p as int, i as int);
            assert forall|a: int| 0 <= a < idx.len() implies out@[a] == orig[#[trigger] idx[a]] by {
                if a < p {
                    assert(idx[a] == old_idx[a]);
                } else if a > p {
                    assert(idx[a] == old_idx[a - 1]);
                }
            }
            assert(rest@ =~= orig.subrange(i + 1, n as int));
            assert(rest_keys@ =~= ks.subrange(i + 1, n as int));
        }
        i += 1;
    }
    proof {
        assert(ks.take(n as int) =~= ks);
        assert(sorted_desc_by(ks, out_keys@, idx));
    }
    out
}

/// The messages sorted by descending timestamps, stably.
pub fn sort_messages_desc(input: Vec<CoreMessage>) -> (r: Vec<CoreMessage>)
    ensures
        sorted_items_desc(input@, message_keys(input@), r@),
{
    let mut keys: Vec<Option<u64>> = Vec::new();
    let mut i: usize = 0;
    while i < input.len()
        invariant
            i <= input@.len(),
            keys@ == message_keys(input@.take(i as int)),
        decreases input.len() - i,
    {
        keys.push(Some(input[i].timestamp));
        assert(keys@ =~= message_keys(input@.take(i + 1)));
        i += 1;
    }
    assert(input@.take(input@.len() as int) =~= input@);
    sort_by_keys_desc(input, keys)
}

/// The channels sorted by the timestamps of their last messages, most recent first and stably;
/// channels without messages last.
pub fn sort_channels(input: Vec<CoreChannel>) -> (r: Vec<CoreChannel>)
    ensures
        sorted_items_desc(input@, channel_keys(input@), r@),
{
    let mut keys: Vec<Option<u64>> = Vec::new();
    let mut i: usize = 0;
    while i < input.len()
        invariant
            i <= input@.len(),
            keys@ == channel_keys(input@.take(i as int)),
        decreases input.len() - i,
    {
        keys.push(input[i].last_message_timestamp);
        assert(keys@ =~= channel_keys(input@.take(i + 1)));
        i += 1;
    }
    assert(input@.take(input@.len() as int) =~= input@);
    sort_by_keys_desc(input, keys)
}

/// The messages that the light-weight interface lists: no receipts and no typing notifications.
pub open spec fn listed(m: CoreMessage) -> bool {
    !m.is_receipt && !m.is_typing
}

/// The messages that the interface lists, in their order.
pub fn listed_messages(input: Vec<CoreMessage>) -> (r: Vec<CoreMessage>)
    ensures
        r@ == listed_of(input@),
{
    let ghost orig = input@;
    let mut rest = input;
    let mut out: Vec<CoreMessage> = Vec::new();
    let n = rest.len();
    let mut i: usize = 0;
    while rest.len() > 0
        invariant
            n == orig.len(),
            i + rest@.len() == n,
            rest@ == orig.subrange(i as int, n as int),
            out@ == listed_of(orig.take(i as int)),
        decreases rest.len(),
    {
        let m = rest.remove(0);
        reveal_with_fuel(Seq::filter, 1);
        assert(orig.take(i + 1).drop_last() =~= orig.take(i as int));
        assert(orig.take(i + 1).last() == m);
        if !m.is_receipt && !m.is_typing {
            out.push(m);
        }
        assert(rest@ =~= orig.subrange(i + 1, n as int));
        i += 1;
    }
    assert(orig.take(n as int) =~= orig);
    out
}

/// The page of a sequence from position `offset` on, with at most `count` items.
pub open spec fn page_of<T>(s: Seq<T>, count: nat, offset: nat) -> Seq<T> {
    if offset >= s.len() {
        Seq::<T>::empty()
    } else if count >= s.len() - offset {
        s.subrange(offset as int, s.len() as int)
    } else {
        s.subrange(offset as int, (offset + count) as int)
    }
}

/// A page of sorted messages (see [page_of]).
pub fn page(sorted: Vec<CoreMessage>, count: usize, offset: usize) -> (r: Vec<CoreMessage>)
    ensures
        r@ == page_of(sorted@, count as nat, offset as nat),
{
    let ghost orig = sorted@;
    let mut rest = sorted;
    let mut out: Vec<CoreMessage> = Vec::new();
    let n = rest.len();
    let mut i: usize = 0;
    while rest.len() > 0
        invariant
            n == orig.len(),
            i + rest@.len() == n,
            rest@ == orig.subrange(i as int, n as int),
            out@ == if i <= offset {
                Seq::<CoreMessage>::empty()
            } else if i - offset <= count {
                orig.subrange(offset as int, i as int)
            } else {
                orig.subrange(offset as int, offset + count)
            },
        decreases rest.len(),
    {
        let m = rest.remove(0);
        assert(m == orig[i as int]);
        if i >= offset && i - offset < count {
            out.push(m);
            assert(out@ =~= orig.subrange(offset as int, i + 1));
        }
        assert(rest@ =~= orig.subrange(i + 1, n as int));
        i += 1;
    }
    proof {
        if offset < n {
            if n - offset <= count {
                assert(out@ =~= orig.subrange(offset as int, n as int));
            }
        }
    }
    out
}

/// The page of a channel's messages that the interface lists: the listed messages (see
/// [listed]), newest first and stably (see [sort_messages_desc]), from position `offset` on,
/// at most `count` of them.
pub fn select_messages(all: Vec<CoreMessage>, count: usize, offset: usize) -> (r: Vec<CoreMessage>)
    ensures
        exists|sorted: Seq<CoreMessage>|
            #![trigger page_of(sorted, count as nat, offset as nat)]
            sorted_items_desc(listed_of(all@), message_keys(listed_of(all@)), sorted) && r@
                == page_of(sorted, count as nat, offset as nat),
{
    let listed = listed_messages(all);
    let sorted = sort_messages_desc(listed);
    let ghost s = sorted@;
    let r = page(sorted, count, offset);
    r
}

/// The name of a message's sender: the name of the first entry of the contact list with the
/// sender's account identity and a name, else the sender's debug text (`label`).
pub fn resolve_sender_name(contacts: &Vec<StoredContact>, sender: ServiceId, label: &str) -> (r: String)
    ensures
        match sender {
            ServiceId::Aci(u) => match first_named(contacts@, u) {
                Some(i) => r@ == contacts@[i].name@,
                None => r@ == label@,
            },
            ServiceId::Pni(_) => r@ == label@,
        },
{
    match sender {
        ServiceId::Aci(u) => match find_named(contacts, u) {
            Some(i) => owned(contacts[i].name.as_str()),
            None => owned(label),
        },
        ServiceId::Pni(_) => owned(label),
    }
}

/// Position of the first entry of the contact list with the UUID `u` and a name (see
/// [first_named]).
fn find_named(contacts: &Vec<StoredContact>, u: u128) -> (r: Option<usize>)
    ensures
        match r {
            Some(i) => i < contacts@.len() && first_named(contacts@, u) == Some(i as int),
            None => first_named(contacts@, u) is None,
        },
{
    let mut i: usize = 0;
    while i < contacts.len()
        invariant
            i <= contacts@.len(),
            forall|j: int|
                0 <= j < i ==> !(contacts@[j].uuid == u && (#[trigger] contacts@[j]).name@.len() > 0),
        decreases contacts.len() - i,
    {
        if contacts[i].uuid == u && contacts[i].name.unicode_len() > 0 {
            proof {
                lemma_first_named(contacts@, u, i as int);
            }
            return Some(i);
        }
        i += 1;
    }
    proof {
        lemma_first_named_none(contacts@, u);
    }
    None
}

/// Position of the first entry of the contact list with the UUID `u` and a name.
pub open spec fn first_named(contacts: Seq<StoredContact>, u: u128) -> Option<int>
    decreases contacts.len(),
{
    if contacts.len() == 0 {
        None
    } else if contacts[0].uuid == u && contacts[0].name@.len() > 0 {
        Some(0)
    } else {
        match first_named(contacts.drop_first(), u) {
            Some(i) => Some(i + 1),
            None => None,
        }
    }
}

/// The first named entry is the first entry with the UUID and a name.
proof fn lemma_first_named(contacts: Seq<StoredContact>, u: u128, i: int)
    requires
        0 <= i < contacts.len(),
        contacts[i].uuid == u && contacts[i].name@.len() > 0,
        forall|j: int| 0 <= j < i ==> !(contacts[j].uuid == u && (#[trigger] contacts[j]).name@.len() > 0),
    ensures
        first_named(contacts, u) == Some(i),
    decreases i,
{
    if i > 0 {
        let t = contacts.drop_first();
        assert forall|j: int| 0 <= j < i - 1 implies !(t[j].uuid == u && (#[trigger] t[j]).name@.len() > 0) by {
            assert(t[j] == contacts[j + 1]);
        }
        lemma_first_named(t, u, i - 1);
        assert(!(contacts[0].uuid == u && contacts[0].name@.len() > 0));
    }
}

/// Without an entry with the UUID and a name there is no first one.
proof fn lemma_first_named_none(contacts: Seq<StoredContact>, u: u128)
    requires
        forall|j: int| 0 <= j < contacts.len() ==> !(contacts[j].uuid == u && (#[trigger] contacts[j]).name@.len() > 0),
    ensures
        first_named(contacts, u) is None,
    decreases contacts.len(),
{
    if contacts.len() > 0 {
        let t = contacts.drop_first();
        assert forall|j: int| 0 <= j < t.len() implies !(t[j].uuid == u && (#[trigger] t[j]).name@.len() > 0) by {
            assert(t[j] == contacts[j + 1]);
        }
        lemma_first_named_none(t, u);
        assert(!(contacts[0].uuid == u && contacts[0].name@.len() > 0));
    }
}

/// The messages that can be a channel's last message: no receipts, typing notifications or
/// reactions.
pub open spec fn displayable(m: CoreMessage) -> bool {
    !m.is_receipt && !m.is_typing && !m.is_reaction
}

/// The position of a channel's last message: the displayable message with the greatest
/// timestamp, the last of them where several have it.
pub open spec fn is_last_message(ms: Seq<CoreMessage>, i: int) -> bool {
    &&& 0 <= i < ms.len()
    &&& displayable(ms[i])
    &&& forall|j: int| 0 <= j < ms.len() && displayable(#[trigger] ms[j]) ==> ms[j].timestamp <= ms[i].timestamp
    &&& forall|j: int| i < j < ms.len() && displayable(#[trigger] ms[j]) ==> ms[j].timestamp < ms[i].timestamp
}

/// The position of a channel's last message (see [is_last_message]), none where no message is
/// displayable.
pub fn last_message_index(ms: &Vec<CoreMessage>) -> (r: Option<usize>)
    ensures
        match r {
            Some(i) => is_last_message(ms@, i as int),
            None => forall|j: int| 0 <= j < ms@.len() ==> !displayable(#[trigger] ms@[j]),
        },
{
    let mut best: Option<usize> = None;
    let mut i: usize = 0;
    while i < ms.len()
        invariant
            i <= ms@.len(),
            match best {
                Some(b) => b < i && displayable(ms@[b as int]) && (forall|j: int|
                    0 <= j < i && displayable(#[trigger] ms@[j]) ==> ms@[j].timestamp
                        <= ms@[b as int].timestamp) && (forall|j: int|
                    b < j < i && displayable(#[trigger] ms@[j]) ==> ms@[j].timestamp
                        < ms@[b as int].timestamp),
                None => forall|j: int| 0 <= j < i ==> !displayable(#[trigger] ms@[j]),
            },
        decreases ms.len() - i,
    {
        let m = &ms[i];
        if !m.is_receipt && !m.is_typing && !m.is_reaction {
            match best {
                Some(b) => {
                    if m.timestamp >= ms[b].timestamp {
                        best = Some(i);
                    }
                },
                None => {
                    best = Some(i);
                },
            }
        }
        i += 1;
    }
    best
}

/// The title of a contact's channel: its name, else its phone number, else its UUID.
pub open spec fn contact_title(c: StoredContact) -> Seq<char> {
    if c.name@.len() > 0 {
        c.name@
    } else {
        match c.phone_number {
            Some(p) => p@,
            None => uuid_text(c.uuid),
        }
    }
}

/// The text of a last message: its body.
pub open spec fn last_text(last: Option<CoreMessage>) -> Option<Seq<char>> {
    match last {
        Some(m) => opt_view(m.body),
        None => None,
    }
}

/// The timestamp of a last message.
pub open spec fn last_timestamp(last: Option<CoreMessage>) -> Option<u64> {
    match last {
        Some(m) => Some(m.timestamp),
        None => None,
    }
}

/// The text and timestamp of a last message.
fn last_parts(last: Option<&CoreMessage>) -> (r: (Option<String>, Option<u64>))
    ensures
        opt_view(r.0) == last_text(
            match last {
                Some(m) => Some(*m),
                None => None,
            },
        ),
        r.1 == last_timestamp(
            match last {
                Some(m) => Some(*m),
                None => None,
            },
        ),
{
    match last {
        Some(m) => (
            match &m.body {
                Some(b) => Some(owned(b.as_str())),
                None => None,
            },
            Some(m.timestamp),
        ),
        None => (None, None),
    }
}

/// The channel of a contact, with its last message (see [contact_title]).
pub fn contact_channel(c: &StoredContact, last: Option<&CoreMessage>) -> (r: CoreChannel)
    ensures
        r.id == ChannelId::Contact(c.uuid),
        r.title@ == contact_title(*c),
        !r.is_group,
        opt_view(r.last_message_text) == last_text(
            match last {
                Some(m) => Some(*m),
                None => None,
            },
        ),
        r.last_message_timestamp == last_timestamp(
            match last {
                Some(m) => Some(*m),
                None => None,
            },
        ),
        r.unread_count == 0,
        r.members@.len() == 0,
{
    let title = if c.name.unicode_len() > 0 {
        owned(c.name.as_str())
    } else {
        match &c.phone_number {
            Some(p) => owned(p.as_str()),
            None => uuid_string(c.uuid),
        }
    };
    let (text, ts) = last_parts(last);
    CoreChannel {
        id: ChannelId::Contact(c.uuid),
        title,
        is_group: false,
        last_message_text: text,
        last_message_timestamp: ts,
        unread_count: 0,
        members: Vec::new(),
    }
}

/// Position of the first entry of the contact list with the UUID `u`.
pub open spec fn first_with_uuid(contacts: Seq<StoredContact>, u: u128) -> Option<int>
    decreases contacts.len(),
{
    if contacts.len() == 0 {
        None
    } else if contacts[0].uuid == u {
        Some(0)
    } else {
        match first_with_uuid(contacts.drop_first(), u) {
            Some(i) => Some(i + 1),
            None => None,
        }
    }
}

/// The name of a group member: the name of its first entry in the contact list where that has
/// one, else its UUID.
pub open spec fn member_name(contacts: Seq<StoredContact>, u: u128) -> Seq<char> {
    match first_with_uuid(contacts, u) {
        Some(i) => if contacts[i].name@.len() > 0 {
            contacts[i].name@
        } else {
            uuid_text(u)
        },
        None => uuid_text(u),
    }
}

/// The first entry with a UUID is one with it, and no entry before it has it.
proof fn lemma_first_with_uuid(contacts: Seq<StoredContact>, u: u128)
    ensures
        match first_with_uuid(contacts, u) {
            Some(i) => 0 <= i < contacts.len() && contacts[i].uuid == u && forall|j: int|
                0 <= j < i ==> (#[trigger] contacts[j]).uuid != u,
            None => forall|j: int| 0 <= j < contacts.len() ==> (#[trigger] contacts[j]).uuid != u,
        },
    decreases contacts.len(),
{
    if contacts.len() > 0 {
        let t = contacts.drop_first();
        lemma_first_with_uuid(t, u);
        if contacts[0].uuid != u {
            match first_with_uuid(t, u) {
                Some(i) => {
                    assert forall|j: int| 0 <= j < i + 1 implies (#[trigger] contacts[j]).uuid != u by {
                        if j > 0 {
                            assert(contacts[j] == t[j - 1]);
                        }
                    }
                },
                None => {
                    assert forall|j: int| 0 <= j < contacts.len() implies (#[trigger] contacts[j]).uuid != u by {
                        if j > 0 {
                            assert(contacts[j] == t[j - 1]);
                        }
                    }
                },
            }
        }
    }
}

/// The name of a group member (see [member_name]).
pub fn member_display_name(contacts: &Vec<StoredContact>, u: u128) -> (r: String)
    ensures
        r@ == member_name(contacts@, u),
{
    proof {
        lemma_first_with_uuid(contacts@, u);
    }
    let mut i: usize = 0;
    while i < contacts.len()
        invariant
            i <= contacts@.len(),
            forall|j: int| 0 <= j < i ==> (#[trigger] contacts@[j]).uuid != u,
            match first_with_uuid(contacts@, u) {
                Some(k) => 0 <= k < contacts@.len() && contacts@[k].uuid == u && forall|j: int|
                    0 <= j < k ==> (#[trigger] contacts@[j]).uuid != u,
                None => forall|j: int| 0 <= j < contacts@.len() ==> (#[trigger] contacts@[j]).uuid != u,
            },
        decreases contacts.len() - i,
    {
        if contacts[i].uuid == u {
            assert(first_with_uuid(contacts@, u) == Some(i as int));
            if contacts[i].name.unicode_len() > 0 {
                return owned(contacts[i].name.as_str());
            } else {
                return uuid_string(u);
            }
        }
        i += 1;
    }
    uuid_string(u)
}

/// The channel of a group with the master key `key`, its title, the names of its members (none
/// where the contact list could not be read) and its last message.
pub fn group_channel(
    key: [u8; 32],
    title: &str,
    members: &Vec<u128>,
    contacts: Option<&Vec<StoredContact>>,
    last: Option<&CoreMessage>,
) -> (r: CoreChannel)
    ensures
        r.id == ChannelId::Group(key),
        r.title@ == title@,
        r.is_group,
        opt_view(r.last_message_text) == last_text(
            match last {
                Some(m) => Some(*m),
                None => None,
            },
        ),
        r.last_message_timestamp == last_timestamp(
            match last {
                Some(m) => Some(*m),
                None => None,
            },
        ),
        r.unread_count == 0,
        match contacts {
            Some(cs) => r.members@.len() == members@.len() && forall|i: int|
                0 <= i < members@.len() ==> (#[trigger] r.members@[i])@ == member_name(
                    cs@,
                    members@[i],
                ),
            None => r.members@.len() == 0,
        },
{
    let mut names: Vec<String> = Vec::new();
    match contacts {
        Some(cs) => {
            let mut i: usize = 0;
            while i < members.len()
                invariant
                    i <= members@.len(),
                    names@.len() == i,
                    forall|j: int|
                        0 <= j < i ==> (#[trigger] names@[j])@ == member_name(cs@, members@[j]),
                decreases members.len() - i,
            {
                names.push(member_display_name(cs, members[i]));
                i += 1;
            }
        },
        None => {},
    }
    let (text, ts) = last_parts(last);
    CoreChannel {
        id: ChannelId::Group(key),
        title: owned(title),
        is_group: true,
        last_message_text: text,
        last_message_timestamp: ts,
        unread_count: 0,
        members: names,
    }
}

} // verus!
