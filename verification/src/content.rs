//! Plain-value model of the Signal protocol content that the client receives and stores.
//!
//! Every value here holds, as plain data, exactly the parts of a received envelope that the
//! client's logic reads. Identifiers (UUIDs) are held as 128-bit integers.
use vstd::prelude::*;

verus! {

/// The identity of a Signal account: its account identity (ACI) or its phone-number identity (PNI).
#[derive(Clone, Copy, Debug, PartialEq, Eq, Structural)]
pub enum ServiceId {
    Aci(u128),
    Pni(u128),
}

impl ServiceId {
    /// The UUID behind the identity, whatever its kind.
    pub open spec fn spec_raw_uuid(self) -> u128 {
        match self {
            ServiceId::Aci(u) => u,
            ServiceId::Pni(u) => u,
        }
    }

    /// The UUID behind the identity, whatever its kind.
    pub fn raw_uuid(&self) -> (r: u128)
        ensures
            r == self.spec_raw_uuid(),
    {
        match self {
            ServiceId::Aci(u) => *u,
            ServiceId::Pni(u) => *u,
        }
    }
}

/// `256` to the power `k`.
pub open spec fn pow256(k: nat) -> nat
    decreases k,
{
    if k == 0 {
        1
    } else {
        256 * pow256((k - 1) as nat)
    }
}

/// The `k` lowest bytes of `n`, the most significant first.
pub open spec fn be_bytes(n: nat, k: nat) -> Seq<u8>
    decreases k,
{
    if k == 0 {
        seq![]
    } else {
        be_bytes(n / 256, (k - 1) as nat).push((n % 256) as u8)
    }
}

/// The number that bytes give, the most significant first.
pub open spec fn from_be(bs: Seq<u8>) -> nat
    decreases bs.len(),
{
    if bs.len() == 0 {
        0
    } else {
        from_be(bs.drop_last()) * 256 + bs.last() as nat
    }
}

/// The binary form of an identity: the 16 bytes of the UUID for an account identity, the same
/// after a byte 1 for a phone-number identity.
pub open spec fn service_id_bytes(s: ServiceId) -> Seq<u8> {
    match s {
        ServiceId::Aci(u) => be_bytes(u as nat, 16),
        ServiceId::Pni(u) => seq![1u8] + be_bytes(u as nat, 16),
    }
}

/// The identity of a binary form: 16 bytes are an account identity, 17 bytes that start with
/// the byte 1 a phone-number identity; anything else is none.
pub open spec fn parse_service_id(bs: Seq<u8>) -> Option<ServiceId> {
    if bs.len() == 16 {
        Some(ServiceId::Aci(from_be(bs) as u128))
    } else if bs.len() == 17 && bs[0] == 1 {
        Some(ServiceId::Pni(from_be(bs.drop_first()) as u128))
    } else {
        None
    }
}

/// Bytes give back the number that they were made of.
pub proof fn lemma_be_roundtrip(n: nat, k: nat)
    requires
        n < pow256(k),
    ensures
        be_bytes(n, k).len() == k,
        from_be(be_bytes(n, k)) == n,
    decreases k,
{
    if k > 0 {
        let p = pow256((k - 1) as nat);
        assert(n / 256 < p) by (nonlinear_arith)
            requires
                n < 256 * p,
        ;
        lemma_be_roundtrip(n / 256, (k - 1) as nat);
        let s = be_bytes(n, k);
        assert(s.drop_last() == be_bytes(n / 256, (k - 1) as nat));
        assert(n == (n / 256) * 256 + n % 256);
    }
}

/// What `k` bytes give is below `256` to the power `k`.
pub proof fn lemma_from_be_bound(bs: Seq<u8>)
    ensures
        from_be(bs) < pow256(bs.len()),
    decreases bs.len(),
{
    if bs.len() > 0 {
        lemma_from_be_bound(bs.drop_last());
        let a = from_be(bs.drop_last());
        let p = pow256((bs.len() - 1) as nat);
        let b = bs.last() as nat;
        assert(a * 256 + b < 256 * p) by (nonlinear_arith)
            requires
                a < p,
                b < 256,
        ;
    }
}

/// `256` to the power 16 is `2` to the power 128.
pub proof fn lemma_pow256_16()
    ensures
        pow256(16) == 0x1_0000_0000_0000_0000_0000_0000_0000_0000,
{
    reveal_with_fuel(pow256, 17);
}

/// Appends the `k` lowest bytes of `n`, the most significant first.
fn push_be(v: &mut Vec<u8>, n: u128, k: u32)
    ensures
        final(v)@ == old(v)@ + be_bytes(n as nat, k as nat),
    decreases k,
{
    if k > 0 {
        push_be(v, n / 256, k - 1);
        v.push((n % 256) as u8);
        assert(final(v)@ =~= old(v)@ + be_bytes(n as nat, k as nat));
    } else {
        assert(old(v)@ + be_bytes(n as nat, 0) =~= old(v)@);
    }
}

/// The number that the bytes of `bs` from position `lo` on give.
fn be_value(bs: &Vec<u8>, lo: usize) -> (r: u128)
    requires
        lo <= bs@.len(),
        bs@.len() - lo <= 16,
    ensures
        r == from_be(bs@.skip(lo as int)),
{
    let mut acc: u128 = 0;
    let mut i = lo;
    assert(bs@.subrange(lo as int, lo as int) =~= Seq::<u8>::empty());
    while i < bs.len()
        invariant
            lo <= i <= bs@.len(),
            bs@.len() - lo <= 16,
            acc == from_be(bs@.subrange(lo as int, i as int)),
        decreases bs.len() - i,
    {
        let ghost pre = bs@.subrange(lo as int, i as int);
        proof {
            lemma_from_be_bound(pre);
            lemma_pow256_16();
            lemma_pow256_mono(pre.len(), 15);
            assert(bs@.subrange(lo as int, i + 1).drop_last() =~= pre);
        }
        acc = acc * 256 + bs[i] as u128;
        i += 1;
    }
    assert(bs@.subrange(lo as int, bs@.len() as int) =~= bs@.skip(lo as int));
    acc
}

/// The binary form of a reaction's target author as the protocol carries it: the 16 bytes of a
/// UUID where there are exactly 16, else none.
pub fn author_bytes(bs: &Vec<u8>) -> (r: Option<[u8; 16]>)
    ensures
        match r {
            Some(a) => bs@.len() == 16 && a@ == bs@,
            None => bs@.len() != 16,
        },
{
    if bs.len() != 16 {
        return None;
    }
    let mut a: [u8; 16] = [0u8; 16];
    let mut i: usize = 0;
    while i < 16
        invariant
            i <= 16,
            bs@.len() == 16,
            forall|j: int| 0 <= j < i ==> a@[j] == bs@[j],
        decreases 16 - i,
    {
        a[i] = bs[i];
        i += 1;
    }
    assert(a@ =~= bs@);
    Some(a)
}

/// The UUID that 16 bytes give, the most significant first (see [from_be]).
pub fn uuid_of_bytes(bs: &[u8; 16]) -> (r: u128)
    ensures
        r == from_be(bs@),
{
    let mut acc: u128 = 0;
    let mut i: usize = 0;
    assert(bs@.subrange(0, 0) =~= Seq::<u8>::empty());
    while i < 16
        invariant
            i <= 16,
            bs@.len() == 16,
            acc == from_be(bs@.subrange(0, i as int)),
        decreases 16 - i,
    {
        let ghost pre = bs@.subrange(0, i as int);
        proof {
            lemma_from_be_bound(pre);
            lemma_pow256_16();
            lemma_pow256_mono(pre.len(), 15);
            assert(bs@.subrange(0, i + 1).drop_last() =~= pre);
        }
        acc = acc * 256 + bs[i] as u128;
        i += 1;
    }
    assert(bs@.subrange(0, 16) =~= bs@);
    acc
}

/// Powers of 256 grow with the exponent.
pub proof fn lemma_pow256_mono(a: nat, b: nat)
    requires
        a <= b,
    ensures
        pow256(a) <= pow256(b),
    decreases b,
{
    if a < b {
        lemma_pow256_mono(a, (b - 1) as nat);
    }
}

impl ServiceId {
    /// The binary form of the identity (see [service_id_bytes]).
    pub fn service_id_binary(&self) -> (r: Vec<u8>)
        ensures
            r@ == service_id_bytes(*self),
    {
        let mut v: Vec<u8> = Vec::new();
        match self {
            ServiceId::Aci(u) => {
                push_be(&mut v, *u, 16);
                assert(v@ =~= service_id_bytes(*self));
            },
            ServiceId::Pni(u) => {
                v.push(1u8);
                push_be(&mut v, *u, 16);
                assert(v@ =~= service_id_bytes(*self));
            },
        }
        v
    }

    /// The identity of a binary form (see [parse_service_id]).
    pub fn parse_from_service_id_binary(bs: &Vec<u8>) -> (r: Option<ServiceId>)
        ensures
            r == parse_service_id(bs@),
    {
        if bs.len() == 16 {
            let u = be_value(bs, 0);
            assert(bs@.skip(0) =~= bs@);
            proof {
                lemma_from_be_bound(bs@);
                lemma_pow256_16();
            }
            Some(ServiceId::Aci(u))
        } else if bs.len() == 17 && bs[0] == 1 {
            let u = be_value(bs, 1);
            assert(bs@.skip(1) =~= bs@.drop_first());
            Some(ServiceId::Pni(u))
        } else {
            None
        }
    }
}

/// An identity read back from its binary form is the identity itself.
pub proof fn lemma_service_id_roundtrip(s: ServiceId)
    ensures
        parse_service_id(service_id_bytes(s)) == Some(s),
{
    lemma_pow256_16();
    match s {
        ServiceId::Aci(u) => {
            lemma_be_roundtrip(u as nat, 16);
        },
        ServiceId::Pni(u) => {
            lemma_be_roundtrip(u as nat, 16);
            assert((seq![1u8] + be_bytes(u as nat, 16)).drop_first() =~= be_bytes(u as nat, 16));
        },
    }
}

/// Group context of a data message (group version 2).
#[derive(Debug)]
pub struct GroupContext {
    pub master_key: Option<Vec<u8>>,
}

/// A pointer to an attachment stored on the Signal servers.
#[derive(Debug)]
pub struct AttachmentPointer {
    pub content_type: Option<String>,
    pub file_name: Option<String>,
    pub size: Option<u32>,
    pub width: Option<u32>,
    pub height: Option<u32>,
    pub blur_hash: Option<String>,
    pub flags: Option<u32>,
}

impl Clone for AttachmentPointer {
    fn clone(&self) -> (r: Self)
        ensures
            r == *self,
    {
        AttachmentPointer {
            content_type: self.content_type.clone(),
            file_name: self.file_name.clone(),
            size: self.size,
            width: self.width,
            height: self.height,
            blur_hash: self.blur_hash.clone(),
            flags: self.flags,
        }
    }
}

/// A reaction (an emoji) to an earlier message.
#[derive(Debug)]
pub struct Reaction {
    pub emoji: Option<String>,
    pub remove: Option<bool>,
    /// The text form of the UUID of the reacted message's author.
    pub target_author_aci: Option<String>,
    /// The binary form of the UUID of the reacted message's author, where the protocol's bytes
    /// are the 16 of a UUID (see [author_bytes]); bytes of another length count as none.
    pub target_author_aci_binary: Option<[u8; 16]>,
    pub target_sent_timestamp: Option<u64>,
}

impl Clone for Reaction {
    fn clone(&self) -> (r: Self)
        ensures
            r == *self,
    {
        Reaction {
            emoji: self.emoji.clone(),
            remove: self.remove,
            target_author_aci: self.target_author_aci.clone(),
            target_author_aci_binary: self.target_author_aci_binary,
            target_sent_timestamp: self.target_sent_timestamp,
        }
    }
}

/// A quote of an earlier message.
#[derive(Debug)]
pub struct Quote {
    pub id: Option<u64>,
    pub author_aci: Option<String>,
    pub text: Option<String>,
}

/// A request to delete an earlier message.
#[derive(Clone, Copy, Debug)]
pub struct Delete {
    pub target_sent_timestamp: Option<u64>,
}

/// A range of a message body (in UTF-16 code units) that mentions an account.
#[derive(Debug)]
pub struct BodyRange {
    pub start: Option<u32>,
    pub length: Option<u32>,
    /// The mentioned account's identity, as text, where the range is a mention.
    pub mention_aci: Option<String>,
}

/// A data message: text, attachments, a reaction, a deletion, a quote, ...
#[derive(Debug)]
pub struct DataMessage {
    pub body: Option<String>,
    pub attachments: Vec<AttachmentPointer>,
    pub group_v2: Option<GroupContext>,
    pub reaction: Option<Reaction>,
    pub quote: Option<Quote>,
    pub has_sticker: bool,
    pub delete: Option<Delete>,
    pub timestamp: Option<u64>,
    pub body_ranges: Vec<BodyRange>,
}

/// A message that this account sent from another of its devices.
#[derive(Debug)]
pub struct Sent {
    pub message: Option<DataMessage>,
    pub destination: Option<ServiceId>,
}

/// A notice that a message was read on another device.
#[derive(Clone, Copy, Debug)]
pub struct ReadReceipt {
    pub timestamp: Option<u64>,
    pub sender_aci: Option<u128>,
}

/// A synchronisation message from another device of this account.
#[derive(Debug)]
pub struct SyncMessage {
    pub sent: Option<Sent>,
    pub read: Vec<ReadReceipt>,
    /// How many "viewed" notices the message holds.
    pub viewed: usize,
}

/// A call event; each flag tells whether the corresponding part is present.
#[derive(Clone, Copy, Debug)]
pub struct CallMessage {
    pub offer: bool,
    pub answer: bool,
    pub hangup: bool,
    pub busy: bool,
}

/// Whether a contact started or stopped typing.
#[derive(Clone, Copy, Debug, PartialEq, Eq, Structural)]
pub enum TypingAction {
    Started,
    Stopped,
}

/// A typing notification.
#[derive(Debug)]
pub struct TypingMessage {
    pub group_id: Option<Vec<u8>>,
    pub action: TypingAction,
    pub timestamp: Option<u64>,
}

/// The body of received content.
#[derive(Debug)]
pub enum ContentBody {
    DataMessage(DataMessage),
    SynchronizeMessage(SyncMessage),
    CallMessage(CallMessage),
    TypingMessage(TypingMessage),
    ReceiptMessage,
    /// Any other kind of content, which the client does not handle.
    Other,
}

/// Envelope data of received content.
#[derive(Debug)]
pub struct Metadata {
    pub sender: ServiceId,
    /// The sender as rendered by the protocol library's debug formatting.
    pub sender_label: String,
    pub timestamp: u64,
}

/// Received or stored content: envelope data and body.
#[derive(Debug)]
pub struct Content {
    pub metadata: Metadata,
    pub body: ContentBody,
}

/// Copies a sequence of attachment pointers.
pub fn clone_pointers(v: &Vec<AttachmentPointer>) -> (r: Vec<AttachmentPointer>)
    ensures
        r@ == v@,
{
    let mut r: Vec<AttachmentPointer> = Vec::new();
    let mut i: usize = 0;
    while i < v.len()
        invariant
            i <= v.len(),
            r@ == v@.take(i as int),
        decreases v.len() - i,
    {
        r.push(v[i].clone());
        assert(r@ =~= v@.take(i + 1));
        i += 1;
    }
    assert(v@.take(v.len() as int) =~= v@);
    r
}

} // verus!
