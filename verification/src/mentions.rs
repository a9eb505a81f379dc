//! Mentions in message bodies: Signal gives their places in UTF-16 code units; the client shows
//! each mention as `@` and the mentioned account's title, and marks where it stands in the
//! UTF-8 text.
use vstd::prelude::*;

use vstd::utf8::encode_utf8;

use crate::content::BodyRange;
use crate::message::TextMessage;
use crate::text::{owned, push_char, uuid_text};

verus! {

/// The UTF-16 code units of a character: one for a character below U+10000, else a high and a
/// low surrogate.
pub open spec fn utf16_char(c: char) -> Seq<u16> {
    let n = c as u32;
    if n < 0x10000 {
        seq![n as u16]
    } else {
        seq![(0xD800 + (n - 0x10000) / 0x400) as u16, (0xDC00 + (n - 0x10000) % 0x400) as u16]
    }
}

/// The UTF-16 encoding of a text, as `str::encode_utf16` gives it.
pub open spec fn utf16_of(s: Seq<char>) -> Seq<u16>
    decreases s.len(),
{
    if s.len() == 0 {
        seq![]
    } else {
        utf16_char(s[0]) + utf16_of(s.drop_first())
    }
}

/// Encoding one more character appends its code units.
pub proof fn lemma_utf16_push(s: Seq<char>, c: char)
    ensures
        utf16_of(s.push(c)) == utf16_of(s) + utf16_char(c),
    decreases s.len(),
{
    if s.len() == 0 {
        assert(s.push(c).drop_first() =~= Seq::<char>::empty());
        assert(s.push(c)[0] == c);
        assert(utf16_of(Seq::<char>::empty()) == Seq::<u16>::empty());
        assert(utf16_of(s.push(c)) == utf16_char(c) + Seq::<u16>::empty());
        assert(utf16_of(s.push(c)) =~= utf16_char(c));
        assert(utf16_of(s) == Seq::<u16>::empty());
    } else {
        lemma_utf16_push(s.drop_first(), c);
        assert(s.push(c).drop_first() =~= s.drop_first().push(c));
        assert(s.push(c)[0] == s[0]);
        assert(utf16_of(s.push(c)) =~= utf16_of(s) + utf16_char(c));
    }
}

/// The UTF-16 code units of a text (see [utf16_of]).
pub fn encode_utf16(s: &str) -> (r: Vec<u16>)
    ensures
        r@ == utf16_of(s@),
{
    let n = s.unicode_len();
    let mut out: Vec<u16> = Vec::new();
    let mut i: usize = 0;
    assert(s@.take(0) =~= Seq::<char>::empty());
    while i < n
        invariant
            n == s@.len(),
            i <= n,
            out@ == utf16_of(s@.take(i as int)),
        decreases n - i,
    {
        let c = s.get_char(i);
        let v = c as u32;
        proof {
            lemma_utf16_push(s@.take(i as int), c);
            assert(s@.take(i + 1) =~= s@.take(i as int).push(c));
        }
        if v < 0x10000 {
            #[verifier::truncate]
            let u = v as u16;
            out.push(u);
            assert(utf16_char(c) =~= seq![u]);
        } else {
            let m = v - 0x10000;
            let hi = (0xD800 + m / 0x400) as u16;
            let lo = (0xDC00 + m % 0x400) as u16;
            out.push(hi);
            out.push(lo);
            assert(utf16_char(c) =~= seq![hi, lo]);
        }
        i += 1;
    }
    assert(s@.take(n as int) =~= s@);
    out
}

/// A high surrogate.
pub open spec fn is_high(u: u16) -> bool {
    0xD800 <= u <= 0xDBFF
}

/// A low surrogate.
pub open spec fn is_low(u: u16) -> bool {
    0xDC00 <= u <= 0xDFFF
}

/// The character of a surrogate pair.
pub open spec fn pair_value(hi: u16, lo: u16) -> int {
    (hi - 0xD800) * 0x400 + (lo - 0xDC00) + 0x10000
}

/// A Unicode scalar value: a code point that is no surrogate.
pub open spec fn is_scalar(n: u32) -> bool {
    n < 0xD800 || (0xE000 <= n && n <= 0x10FFFF)
}

/// UTF-16 code units decoded as `String::from_utf16_lossy` does: a high surrogate followed by
/// a low one gives the character of the pair, any other surrogate the replacement character
/// U+FFFD, any other unit the character of that value.
pub open spec fn decode_lossy(u: Seq<u16>) -> Seq<char>
    decreases u.len(),
{
    if u.len() == 0 {
        seq![]
    } else if u.len() > 1 && is_high(u[0]) && is_low(u[1]) {
        seq![pair_value(u[0], u[1]) as char] + decode_lossy(u.skip(2))
    } else if is_high(u[0]) || is_low(u[0]) {
        seq!['\u{FFFD}'] + decode_lossy(u.skip(1))
    } else {
        seq![u[0] as char] + decode_lossy(u.skip(1))
    }
}

/// Decoding the UTF-16 encoding of a text gives the text back.
pub proof fn lemma_utf16_roundtrip(s: Seq<char>)
    ensures
        decode_lossy(utf16_of(s)) == s,
    decreases s.len(),
{
    if s.len() > 0 {
        let c = s[0];
        let n = c as u32;
        vstd::utf8::char_is_scalar(c);
        vstd::utf8::char_u32_cast(c, n);
        let rest = utf16_of(s.drop_first());
        lemma_utf16_roundtrip(s.drop_first());
        let u = utf16_of(s);
        assert(u == utf16_char(c) + rest);
        if n < 0x10000 {
            let v = n as u16;
            assert(v == n);
            assert(u[0] == v);
            assert(!is_high(v) && !is_low(v));
            assert(u.skip(1) =~= rest);
            assert(v as char == c);
            assert(decode_lossy(u) == seq![c] + decode_lossy(rest));
        } else {
            let m = n - 0x10000;
            assert(0 <= m < 0x100000);
            assert(m == (m / 0x400) * 0x400 + m % 0x400) by (nonlinear_arith)
                requires
                    0 <= m,
            ;
            assert(m / 0x400 < 0x400) by (nonlinear_arith)
                requires
                    0 <= m < 0x100000,
            ;
            let hi = (0xD800 + m / 0x400) as u16;
            let lo = (0xDC00 + m % 0x400) as u16;
            assert(hi == 0xD800 + m / 0x400);
            assert(lo == 0xDC00 + m % 0x400);
            assert(u[0] == hi && u[1] == lo);
            assert(is_high(hi) && is_low(lo));
            assert(pair_value(hi, lo) == n);
            assert(u.skip(2) =~= rest);
            assert(decode_lossy(u) == seq![c] + decode_lossy(rest));
        }
        assert(seq![c] + s.drop_first() =~= s);
    } else {
        assert(utf16_of(s) == Seq::<u16>::empty());
        assert(decode_lossy(Seq::<u16>::empty()) == Seq::<char>::empty());
    }
}

/// The character with the value `n`, with `char::from_u32`: none where `n` is no Unicode
/// scalar value (a surrogate, or above U+10FFFF).
#[verifier::external_body]
fn char_from_u32(n: u32) -> (r: Option<char>)
    ensures
        r == if is_scalar(n) {
            Some(n as char)
        } else {
            None
        },
{
    char::from_u32(n)
}

/// Decodes the code units from position `lo` up to, not including, `hi` (see [decode_lossy]).
pub fn decode_utf16_lossy(units: &Vec<u16>, lo: usize, hi: usize) -> (r: String)
    requires
        lo <= hi <= units@.len(),
    ensures
        r@ == decode_lossy(units@.subrange(lo as int, hi as int)),
{
    let mut res = String::new();
    let mut i = lo;
    assert(res@ + decode_lossy(units@.subrange(lo as int, hi as int)) =~= decode_lossy(
        units@.subrange(lo as int, hi as int),
    ));
    while i < hi
        invariant
            lo <= i <= hi <= units@.len(),
            res@ + decode_lossy(units@.subrange(i as int, hi as int)) == decode_lossy(
                units@.subrange(lo as int, hi as int),
            ),
        decreases hi - i,
    {
        let ghost rest = units@.subrange(i as int, hi as int);
        let u = units[i];
        assert(rest[0] == u);
        if i + 1 < hi && 0xD800 <= u && u <= 0xDBFF && 0xDC00 <= units[i + 1] && units[i + 1]
            <= 0xDFFF {
            let l = units[i + 1];
            assert(rest[1] == l);
            let v = ((u - 0xD800) as u32) * 0x400 + ((l - 0xDC00) as u32) + 0x10000;
            assert(v == pair_value(u, l));
            let c = char_from_u32(v).unwrap();
            assert(rest.skip(2) =~= units@.subrange(i + 2, hi as int));
            proof {
                assert(res@.push(c) + decode_lossy(rest.skip(2)) =~= res@ + decode_lossy(rest));
            }
            push_char(&mut res, c);
            i += 2;
        } else if 0xD800 <= u && u <= 0xDFFF {
            assert(rest.skip(1) =~= units@.subrange(i + 1, hi as int));
            proof {
                assert(res@.push('\u{FFFD}') + decode_lossy(rest.skip(1)) =~= res@ + decode_lossy(
                    rest,
                ));
            }
            push_char(&mut res, '\u{FFFD}');
            i += 1;
        } else {
            let c = char_from_u32(u as u32).unwrap();
            assert(rest.skip(1) =~= units@.subrange(i + 1, hi as int));
            proof {
                assert(res@.push(c) + decode_lossy(rest.skip(1)) =~= res@ + decode_lossy(rest));
            }
            push_char(&mut res, c);
            i += 1;
        }
    }
    assert(res@ + decode_lossy(units@.subrange(hi as int, hi as int)) =~= res@);
    res
}

/// The UUID that a text names, as `uuid::Uuid::parse_str` reads it (through `str::parse`) and
/// `Uuid::as_u128` gives it; none where it names none.
pub uninterp spec fn uuid_of_text(s: Seq<char>) -> Option<u128>;

/// Reads a UUID from text with `uuid::Uuid::parse_str` and `Uuid::as_u128`.
///
/// The result is named, [uuid_of_text]; the one fact stated is that the crate reads the
/// hyphenated lower-case form of a UUID ([uuid_text]) back as that UUID. The other forms that the
/// crate takes (32 digits without hyphens, braces, a `urn:uuid:` prefix, upper-case digits) are
/// left to the name.
#[verifier::external_body]
pub(crate) fn parse_uuid(s: &str) -> (r: Option<u128>)
    ensures
        r == uuid_of_text(s@),
        forall|u: u128| s@ == uuid_text(u) ==> r == Some(u),
{
    match s.parse::<uuid::Uuid>() {
        Ok(u) => Some(u.as_u128()),
        Err(_) => None,
    }
}

/// A range of a message body, as the client reads it: where it starts and how long it is, in
/// UTF-16 code units; the mentioned account, where the range mentions one whose identity reads
/// as a UUID; and the title by which that account is shown.
#[derive(Debug)]
pub struct Mention {
    pub start: u32,
    pub length: u32,
    pub uuid: Option<u128>,
    pub title: String,
}

/// The mention that a body range is, without a title yet: its start and length (0 where the
/// range gives none), and the UUID of its mentioned account (see [uuid_of_text]).
pub open spec fn mention_of(r: BodyRange, m: Mention) -> bool {
    &&& m.start == match r.start {
        Some(s) => s,
        None => 0,
    }
    &&& m.length == match r.length {
        Some(l) => l,
        None => 0,
    }
    &&& m.uuid == match r.mention_aci {
        Some(a) => uuid_of_text(a@),
        None => None,
    }
    &&& m.title@.len() == 0
}

/// The mentions of body ranges, in their order (see [mention_of]); their titles are still to
/// be found.
pub fn mentions_of(ranges: &Vec<BodyRange>) -> (r: Vec<Mention>)
    ensures
        r@.len() == ranges@.len(),
        forall|i: int| 0 <= i < ranges@.len() ==> mention_of(ranges@[i], #[trigger] r@[i]),
{
    let mut out: Vec<Mention> = Vec::new();
    let mut i: usize = 0;
    while i < ranges.len()
        invariant
            i <= ranges@.len(),
            out@.len() == i,
            forall|j: int| 0 <= j < i ==> mention_of(ranges@[j], #[trigger] out@[j]),
        decreases ranges.len() - i,
    {
        let r = &ranges[i];
        let start = match r.start {
            Some(s) => s,
            None => 0,
        };
        let length = match r.length {
            Some(l) => l,
            None => 0,
        };
        let uuid = match &r.mention_aci {
            Some(a) => parse_uuid(a.as_str()),
            None => None,
        };
        out.push(Mention { start, length, uuid, title: String::new() });
        i += 1;
    }
    out
}

impl Clone for Mention {
    fn clone(&self) -> (r: Self)
        ensures
            r == *self,
    {
        Mention { start: self.start, length: self.length, uuid: self.uuid, title: self.title.clone() }
    }
}

/// Copies mentions.
fn copy_mentions(ms: &Vec<Mention>) -> (r: Vec<Mention>)
    ensures
        r@ == ms@,
{
    let mut out: Vec<Mention> = Vec::new();
    let mut i: usize = 0;
    while i < ms.len()
        invariant
            i <= ms@.len(),
            out@ == ms@.take(i as int),
        decreases ms.len() - i,
    {
        out.push(ms[i].clone());
        assert(out@ =~= ms@.take(i + 1));
        i += 1;
    }
    assert(ms@.take(ms@.len() as int) =~= ms@);
    out
}

/// `m` inserted into `s` after the mentions that do not start after it.
pub open spec fn insert_by_start(s: Seq<Mention>, m: Mention) -> Seq<Mention>
    decreases s.len(),
{
    if s.len() == 0 {
        seq![m]
    } else if m.start < s[0].start {
        seq![m] + s
    } else {
        seq![s[0]] + insert_by_start(s.drop_first(), m)
    }
}

/// The mentions ordered by their starts, stably: mentions with the same start keep their order.
pub open spec fn sorted_by_start(s: Seq<Mention>) -> Seq<Mention>
    decreases s.len(),
{
    if s.len() == 0 {
        seq![]
    } else {
        insert_by_start(sorted_by_start(s.drop_last()), s.last())
    }
}

/// Inserting at the first position whose mention starts after `m` is [insert_by_start].
proof fn lemma_insert_at(s: Seq<Mention>, m: Mention, p: int)
    requires
        0 <= p <= s.len(),
        forall|j: int| 0 <= j < p ==> !(m.start < #[trigger] s[j].start),
        p < s.len() ==> m.start < s[p].start,
    ensures
        s.insert(p, m) == insert_by_start(s, m),
    decreases s.len(),
{
    if s.len() == 0 {
        assert(s.insert(p, m) =~= seq![m]);
    } else if p == 0 {
        assert(s.insert(p, m) =~= seq![m] + s);
    } else {
        assert forall|j: int| 0 <= j < p - 1 implies !(m.start < #[trigger] s.drop_first()[j].start) by {
            assert(s.drop_first()[j] == s[j + 1]);
        }
        lemma_insert_at(s.drop_first(), m, p - 1);
        assert(s.insert(p, m) =~= seq![s[0]] + s.drop_first().insert(p - 1, m));
    }
}

/// The mentions ordered by their starts, stably (see [sorted_by_start]).
fn sort_by_start(ms: Vec<Mention>) -> (r: Vec<Mention>)
    ensures
        r@ == sorted_by_start(ms@),
{
    let ghost orig = ms@;
    let mut rest = ms;
    let mut out: Vec<Mention> = Vec::new();
    let n = rest.len();
    let mut i: usize = 0;
    assert(orig.take(0) =~= Seq::<Mention>::empty());
    while rest.len() > 0
        invariant
            n == orig.len(),
            i + rest@.len() == n,
            rest@ == orig.subrange(i as int, n as int),
            out@ == sorted_by_start(orig.take(i as int)),
        decreases rest.len(),
    {
        let m = rest.remove(0);
        assert(m == orig[i as int]);
        let mut p: usize = 0;
        while p < out.len() && !(m.start < out[p].start)
            invariant
                p <= out@.len(),
                forall|j: int| 0 <= j < p ==> !(m.start < #[trigger] out@[j].start),
            decreases out.len() - p,
        {
            p += 1;
        }
        proof {
            lemma_insert_at(out@, m, p as int);
            assert(orig.take(i + 1).drop_last() =~= orig.take(i as int));
            assert(orig.take(i + 1).last() == m);
        }
        out.insert(p, m);
        i += 1;
        assert(rest@ =~= orig.subrange(i as int, n as int));
    }
    assert(orig.take(n as int) =~= orig);
    out
}

/// The mentions fit the body of `len` code units, starting at position `idx`: each mention of
/// an account starts neither before the end of the mention before it (`idx` for the first)
/// nor after the end of the body. Ranges that mention no account are passed over.
pub open spec fn mentions_fit(ms: Seq<Mention>, idx: int, len: int) -> bool
    decreases ms.len(),
{
    if ms.len() == 0 {
        true
    } else if ms[0].uuid is Some {
        idx <= ms[0].start <= len && mentions_fit(ms.drop_first(), ms[0].start + ms[0].length, len)
    } else {
        mentions_fit(ms.drop_first(), idx, len)
    }
}

/// The position in bytes at the end of a text, as its UTF-8 length, cut to 32 bits as the
/// marks take it.
pub open spec fn byte_mark(s: Seq<char>) -> u32 {
    (encode_utf8(s).len() as usize) as u32
}

/// The text and marks that the mentions `ms` (ordered by start) make of the body's code units
/// `units`, from position `idx` on, after the text `acc`: for each mention of an account, the
/// units from `idx` up to its start decoded (see [decode_lossy]), then `@` and the account's
/// title, marked from where the `@` starts to where the title ends (in bytes); the units after
/// the end of the last mention close the text.
pub open spec fn rendered(ms: Seq<Mention>, units: Seq<u16>, idx: int, acc: Seq<char>) -> (
    Seq<char>,
    Seq<(u32, u32)>,
)
    decreases ms.len(),
{
    if ms.len() == 0 {
        (
            if idx < units.len() {
                acc + decode_lossy(units.subrange(idx, units.len() as int))
            } else {
                acc
            },
            seq![],
        )
    } else if ms[0].uuid is Some {
        let before = acc + decode_lossy(units.subrange(idx, ms[0].start as int));
        let after = before + "@"@ + ms[0].title@;
        let rest = rendered(ms.drop_first(), units, ms[0].start + ms[0].length, after);
        (rest.0, seq![(byte_mark(before), byte_mark(after))] + rest.1)
    } else {
        rendered(ms.drop_first(), units, idx, acc)
    }
}

/// The body with its mentions, and the marks of the mentions: see [rendered], over the
/// mentions ordered by start ([sorted_by_start]) and the UTF-16 code units of the body.
pub open spec fn body_with_mentions(body: Seq<char>, ms: Seq<Mention>) -> (Seq<char>, Seq<(u32, u32)>) {
    rendered(sorted_by_start(ms), utf16_of(body), 0, seq![])
}

/// The mentions fit the body (see [mentions_fit]), ordered by start.
pub open spec fn mentions_fit_body(body: Seq<char>, ms: Seq<Mention>) -> bool {
    mentions_fit(sorted_by_start(ms), 0, utf16_of(body).len() as int)
}

/// Whether the mentions fit the body (see [mentions_fit_body]); where they do not, the body
/// cannot be shown with them.
pub fn mentions_fit_in(body: &str, ms: &Vec<Mention>) -> (r: bool)
    ensures
        r == mentions_fit_body(body@, ms@),
{
    let units = encode_utf16(body);
    let sorted = sort_by_start(copy_mentions(ms));
    let len = units.len() as u64;
    let mut idx: u64 = 0;
    let mut i: usize = 0;
    assert(sorted@.skip(0) =~= sorted@);
    while i < sorted.len()
        invariant
            i <= sorted@.len(),
            len == units@.len(),
            units@ == utf16_of(body@),
            sorted@ == sorted_by_start(ms@),
            idx <= 0x2_0000_0000,
            mentions_fit_body(body@, ms@) == mentions_fit(sorted@.skip(i as int), idx as int, len as int),
        decreases sorted.len() - i,
    {
        let m = &sorted[i];
        assert(sorted@.skip(i as int)[0] == *m);
        assert(sorted@.skip(i as int).drop_first() =~= sorted@.skip(i + 1));
        if m.uuid.is_some() {
            if !(idx <= m.start as u64 && m.start as u64 <= len) {
                return false;
            }
            idx = m.start as u64 + m.length as u64;
        }
        i += 1;
    }
    true
}

/// The body with its mentions, and the marks of the mentions (see [body_with_mentions]); the
/// mentions must fit the body ([mentions_fit_body]).
pub fn format_body(body: &str, ms: Vec<Mention>) -> (r: (String, Vec<(u32, u32)>))
    requires
        mentions_fit_body(body@, ms@),
    ensures
        (r.0@, r.1@) == body_with_mentions(body@, ms@),
{
    let ghost orig = ms@;
    let units = encode_utf16(body);
    let sorted = sort_by_start(ms);
    let len = units.len() as u64;
    let mut result = String::new();
    let mut marks: Vec<(u32, u32)> = Vec::new();
    let mut idx: u64 = 0;
    let mut i: usize = 0;
    assert(sorted@.skip(0) =~= sorted@);
    assert(marks@ + rendered(sorted@, units@, 0, result@).1 =~= rendered(sorted@, units@, 0, result@).1);
    while i < sorted.len()
        invariant
            i <= sorted@.len(),
            len == units@.len(),
            units@ == utf16_of(body@),
            sorted@ == sorted_by_start(orig),
            idx <= 0x2_0000_0000,
            mentions_fit(sorted@.skip(i as int), idx as int, len as int),
            body_with_mentions(body@, orig) == ({
                let rest = rendered(sorted@.skip(i as int), units@, idx as int, result@);
                (rest.0, marks@ + rest.1)
            }),
        decreases sorted.len() - i,
    {
        let m = &sorted[i];
        let ghost tail = sorted@.skip(i as int);
        assert(tail[0] == *m);
        assert(tail.drop_first() =~= sorted@.skip(i + 1));
        if m.uuid.is_some() {
            let ghost acc = result@;
            let piece = decode_utf16_lossy(&units, idx as usize, m.start as usize);
            result.append(piece.as_str());
            let ghost before = result@;
            #[verifier::truncate]
            let s = result.as_str().len() as u32;
            result.append("@");
            result.append(m.title.as_str());
            let ghost after = result@;
            #[verifier::truncate]
            let e = result.as_str().len() as u32;
            proof {
                assert(before == acc + decode_lossy(units@.subrange(idx as int, m.start as int)));
                assert(after == before + "@"@ + m.title@);
                assert(s == byte_mark(before));
                assert(e == byte_mark(after));
                let rest = rendered(tail.drop_first(), units@, m.start + m.length, after);
                assert(rendered(tail, units@, idx as int, acc) == (
                    rest.0,
                    seq![(byte_mark(before), byte_mark(after))] + rest.1,
                ));
                assert(marks@.push((s, e)) + rest.1 =~= marks@ + (seq![(s, e)] + rest.1));
            }
            marks.push((s, e));
            idx = m.start as u64 + m.length as u64;
        } else {
            assert(rendered(tail, units@, idx as int, result@) == rendered(
                tail.drop_first(),
                units@,
                idx as int,
                result@,
            ));
        }
        i += 1;
    }
    assert(sorted@.skip(i as int) =~= Seq::<Mention>::empty());
    if idx < len {
        let piece = decode_utf16_lossy(&units, idx as usize, units.len());
        result.append(piece.as_str());
    }
    assert(marks@ + Seq::<(u32, u32)>::empty() =~= marks@);
    (result, marks)
}

/// Every mention of `insert_by_start(s, m)` is `m` or one of `s`.
proof fn lemma_insert_members(s: Seq<Mention>, m: Mention)
    ensures
        forall|x: Mention| #[trigger] insert_by_start(s, m).contains(x) ==> x == m || s.contains(x),
    decreases s.len(),
{
    if s.len() > 0 && !(m.start < s[0].start) {
        lemma_insert_members(s.drop_first(), m);
        assert forall|x: Mention| #[trigger] insert_by_start(s, m).contains(x) implies x == m
            || s.contains(x) by {
            let r = insert_by_start(s, m);
            let k = choose|k: int| 0 <= k < r.len() && r[k] == x;
            if k > 0 {
                assert(insert_by_start(s.drop_first(), m)[k - 1] == x);
                assert(insert_by_start(s.drop_first(), m).contains(x));
                if x != m {
                    let j = choose|j: int| 0 <= j < s.drop_first().len() && s.drop_first()[j] == x;
                    assert(s[j + 1] == x);
                }
            } else {
                assert(s[0] == x);
            }
        }
    } else if s.len() > 0 {
        assert forall|x: Mention| #[trigger] insert_by_start(s, m).contains(x) implies x == m
            || s.contains(x) by {
            let r = insert_by_start(s, m);
            let k = choose|k: int| 0 <= k < r.len() && r[k] == x;
            if k > 0 {
                assert(s[k - 1] == x);
            }
        }
    } else {
        assert forall|x: Mention| #[trigger] insert_by_start(s, m).contains(x) implies x == m
            || s.contains(x) by {
            assert(insert_by_start(s, m) =~= seq![m]);
        }
    }
}

/// Every mention of `sorted_by_start(s)` is one of `s`.
proof fn lemma_sorted_members(s: Seq<Mention>)
    ensures
        forall|x: Mention| #[trigger] sorted_by_start(s).contains(x) ==> s.contains(x),
    decreases s.len(),
{
    if s.len() > 0 {
        lemma_sorted_members(s.drop_last());
        lemma_insert_members(sorted_by_start(s.drop_last()), s.last());
        assert forall|x: Mention| #[trigger] sorted_by_start(s).contains(x) implies s.contains(x) by {
            if x != s.last() {
                assert(sorted_by_start(s.drop_last()).contains(x));
                assert(s.drop_last().contains(x));
                let j = choose|j: int| 0 <= j < s.drop_last().len() && s.drop_last()[j] == x;
                assert(s[j] == x);
            } else {
                assert(s[s.len() - 1] == x);
            }
        }
    }
}

/// The mentions are ordered by their starts.
pub open spec fn starts_ordered(s: Seq<Mention>) -> bool {
    forall|i: int, j: int| 0 <= i < j < s.len() ==> (#[trigger] s[i]).start <= (#[trigger] s[j]).start
}

/// Inserting by start keeps mentions ordered by their starts.
proof fn lemma_insert_ordered(s: Seq<Mention>, m: Mention)
    requires
        starts_ordered(s),
    ensures
        starts_ordered(insert_by_start(s, m)),
        insert_by_start(s, m).len() == s.len() + 1,
        insert_by_start(s, m)[0].start == if s.len() > 0 && s[0].start <= m.start {
            s[0].start
        } else {
            m.start
        },
    decreases s.len(),
{
    if s.len() == 0 {
    } else if m.start < s[0].start {
        let r = seq![m] + s;
        assert forall|i: int, j: int| 0 <= i < j < r.len() implies (#[trigger] r[i]).start <= (
        #[trigger] r[j]).start by {
            if i > 0 {
                assert(r[i] == s[i - 1] && r[j] == s[j - 1]);
            } else {
                assert(r[j] == s[j - 1]);
                assert(s[0].start <= s[j - 1].start || j - 1 == 0);
            }
        }
    } else {
        let t = s.drop_first();
        assert forall|i: int, j: int| 0 <= i < j < t.len() implies (#[trigger] t[i]).start <= (
        #[trigger] t[j]).start by {
            assert(t[i] == s[i + 1] && t[j] == s[j + 1]);
        }
        lemma_insert_ordered(t, m);
        let rest = insert_by_start(t, m);
        let r = seq![s[0]] + rest;
        assert(insert_by_start(s, m) == r);
        assert forall|i: int, j: int| 0 <= i < j < r.len() implies (#[trigger] r[i]).start <= (
        #[trigger] r[j]).start by {
            if i > 0 {
                assert(r[i] == rest[i - 1] && r[j] == rest[j - 1]);
            } else {
                assert(r[j] == rest[j - 1]);
                if j - 1 > 0 {
                    assert(rest[0].start <= rest[j - 1].start);
                }
                if t.len() > 0 {
                    assert(s[0].start <= t[0].start);
                }
            }
        }
    }
}

/// The mentions are handled by growing start: [sorted_by_start] orders them by their starts,
/// keeps their number, and takes each of its mentions from them.
pub proof fn lemma_sorted_by_start(s: Seq<Mention>)
    ensures
        starts_ordered(sorted_by_start(s)),
        sorted_by_start(s).len() == s.len(),
        forall|x: Mention| #[trigger] sorted_by_start(s).contains(x) ==> s.contains(x),
    decreases s.len(),
{
    lemma_sorted_members(s);
    if s.len() > 0 {
        lemma_sorted_by_start(s.drop_last());
        lemma_insert_ordered(sorted_by_start(s.drop_last()), s.last());
    }
}

/// Where no mention names an account, the rest of the body is taken as it is.
proof fn lemma_rendered_plain(ms: Seq<Mention>, units: Seq<u16>, acc: Seq<char>)
    requires
        forall|i: int| 0 <= i < ms.len() ==> (#[trigger] ms[i]).uuid is None,
    ensures
        rendered(ms, units, 0, acc) == rendered(Seq::<Mention>::empty(), units, 0, acc),
    decreases ms.len(),
{
    if ms.len() > 0 {
        assert(ms[0].uuid is None);
        assert forall|i: int| 0 <= i < ms.drop_first().len() implies (
        #[trigger] ms.drop_first()[i]).uuid is None by {
            assert(ms.drop_first()[i] == ms[i + 1]);
        }
        lemma_rendered_plain(ms.drop_first(), units, acc);
    }
}

/// A body whose ranges mention no account (none at all, or none that reads as a UUID) is shown
/// as it is, without marks.
pub proof fn lemma_body_without_mentions(body: Seq<char>, ms: Seq<Mention>)
    requires
        forall|i: int| 0 <= i < ms.len() ==> (#[trigger] ms[i]).uuid is None,
    ensures
        body_with_mentions(body, ms) == (body, Seq::<(u32, u32)>::empty()),
{
    let sorted = sorted_by_start(ms);
    lemma_sorted_members(ms);
    assert forall|i: int| 0 <= i < sorted.len() implies (#[trigger] sorted[i]).uuid is None by {
        assert(sorted.contains(sorted[i]));
        let j = choose|j: int| 0 <= j < ms.len() && ms[j] == sorted[i];
        assert(ms[j].uuid is None);
    }
    let units = utf16_of(body);
    lemma_rendered_plain(sorted, units, seq![]);
    lemma_utf16_roundtrip(body);
    assert(units.subrange(0, units.len() as int) =~= units);
    if units.len() == 0 {
        if body.len() > 0 {
            assert(utf16_char(body[0]).len() > 0);
            assert(units.len() >= utf16_char(body[0]).len());
        }
        assert(body =~= Seq::<char>::empty());
    }
    assert(Seq::<char>::empty() + decode_lossy(units) =~= decode_lossy(units));
}

impl TextMessage {
    /// The mentions of the message's body ranges, without titles yet (see [mentions_of]).
    pub fn mentions(&self) -> (r: Vec<Mention>)
        ensures
            r@.len() == self.data.body_ranges@.len(),
            forall|i: int|
                0 <= i < self.data.body_ranges@.len() ==> mention_of(
                    self.data.body_ranges@[i],
                    #[trigger] r@[i],
                ),
    {
        mentions_of(&self.data.body_ranges)
    }

    /// The body as it is shown, with the marks of its mentions: none without a body; the body
    /// itself where it has no ranges; else the body with the mentions `ms` (its
    /// [mentions](TextMessage::mentions) with the titles of their accounts; see
    /// [body_with_mentions]), which must fit it.
    pub fn format_body(&self, ms: Vec<Mention>) -> (r: (Option<String>, Vec<(u32, u32)>))
        requires
            self.data.body is Some && self.data.body_ranges@.len() > 0 ==> mentions_fit_body(
                self.data.body->0@,
                ms@,
            ),
        ensures
            match self.data.body {
                None => r.0 is None && r.1@.len() == 0,
                Some(b) => if self.data.body_ranges@.len() == 0 {
                    r.0 matches Some(t) && t@ == b@ && r.1@.len() == 0
                } else {
                    r.0 matches Some(t) && (t@, r.1@) == body_with_mentions(b@, ms@)
                },
            },
    {
        match &self.data.body {
            None => (None, Vec::new()),
            Some(b) => if self.data.body_ranges.len() == 0 {
                (Some(owned(b.as_str())), Vec::new())
            } else {
                let (t, marks) = format_body(b.as_str(), ms);
                (Some(t), marks)
            },
        }
    }
}

} // verus!
