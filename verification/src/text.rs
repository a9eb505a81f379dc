//! Character-sequence helpers shared by the formatting code of the library.
use vstd::prelude::*;
use vstd::string::*;

verus! {

/// `p` is a prefix of `s`.
pub open spec fn starts_with(s: Seq<char>, p: Seq<char>) -> bool {
    p.len() <= s.len() && s.subrange(0, p.len() as int) == p
}

/// `p` occurs somewhere inside `s`.
pub open spec fn contains_seq(s: Seq<char>, p: Seq<char>) -> bool {
    exists|i: int| 0 <= i <= s.len() - p.len() && #[trigger] s.subrange(i, i + p.len()) == p
}

/// Appends one character to a string.
#[verifier::external_body]
pub(crate) fn push_char(s: &mut String, c: char)
    ensures
        final(s)@ == old(s)@.push(c),
{
    s.push(c)
}

/// Builds an owned string from a string slice.
pub fn owned(s: &str) -> (r: String)
    ensures
        r@ == s@,
{
    String::from_str(s)
}

/// Whether the string slice `s` starts with `p`.
pub fn str_starts_with(s: &str, p: &str) -> (r: bool)
    ensures
        r == starts_with(s@, p@),
{
    let n = s.unicode_len();
    let m = p.unicode_len();
    if m > n {
        return false;
    }
    let mut i: usize = 0;
    while i < m
        invariant
            i <= m <= n,
            n == s@.len(),
            m == p@.len(),
            forall|j: int| 0 <= j < i ==> s@[j] == p@[j],
        decreases m - i,
    {
        if s.get_char(i) != p.get_char(i) {
            assert(s@.subrange(0, m as int)[i as int] != p@[i as int]);
            return false;
        }
        i += 1;
    }
    assert(s@.subrange(0, m as int) =~= p@);
    true
}

/// Whether `s` occurs at position `at` of `t`.
fn occurs_at(t: &str, at: usize, s: &str) -> (r: bool)
    requires
        at <= t@.len(),
    ensures
        r == (at + s@.len() <= t@.len() && t@.subrange(at as int, at + s@.len()) == s@),
{
    let n = t.unicode_len();
    let m = s.unicode_len();
    if m > n - at {
        return false;
    }
    let mut i: usize = 0;
    while i < m
        invariant
            at <= n,
            i <= m <= n - at,
            n == t@.len(),
            m == s@.len(),
            forall|j: int| 0 <= j < i ==> t@[at + j] == s@[j],
        decreases m - i,
    {
        if t.get_char(at + i) != s.get_char(i) {
            assert(t@.subrange(at as int, at + m)[i as int] != s@[i as int]);
            return false;
        }
        i += 1;
    }
    assert(t@.subrange(at as int, at + m) =~= s@);
    true
}

/// Whether two string slices hold the same characters.
pub fn str_eq(a: &str, b: &str) -> (r: bool)
    ensures
        r == (a@ == b@),
{
    if a.unicode_len() != b.unicode_len() {
        return false;
    }
    let r = str_starts_with(a, b);
    assert(r ==> a@.subrange(0, b@.len() as int) == b@);
    assert(a@.subrange(0, a@.len() as int) =~= a@);
    r
}

/// Whether `p` occurs anywhere in `s`.
pub fn str_contains(s: &str, p: &str) -> (r: bool)
    ensures
        r == contains_seq(s@, p@),
{
    let n = s.unicode_len();
    let m = p.unicode_len();
    if m > n {
        return false;
    }
    let mut i: usize = 0;
    while i <= n - m
        invariant
            m <= n,
            n == s@.len(),
            m == p@.len(),
            i <= n - m + 1,
            forall|j: int| 0 <= j < i ==> #[trigger] s@.subrange(j, j + m) != p@,
        decreases n - m + 1 - i,
    {
        if occurs_at(s, i, p) {
            return true;
        }
        if i == n - m {
            return false;
        }
        i += 1;
    }
    false
}

/// The ASCII digit for `d` (taken modulo 16), lower-case for the letters.
pub open spec fn digit_char(d: nat) -> char {
    let d = d % 16;
    if d < 10 {
        (48 + d) as char
    } else {
        (87 + d) as char
    }
}

fn digit_exec(d: u64) -> (c: char)
    requires
        d < 16,
    ensures
        c == digit_char(d as nat),
{
    let b: u8 = if d < 10 {
        48u8 + d as u8
    } else {
        87u8 + d as u8
    };
    b as char
}

/// Decimal representation of `n`, without leading zeros.
pub open spec fn decimal(n: nat) -> Seq<char>
    decreases n,
{
    if n < 10 {
        seq![digit_char(n)]
    } else {
        decimal(n / 10).push(digit_char(n % 10))
    }
}

/// Lower-case hexadecimal representation of `n`, without leading zeros.
pub open spec fn hex(n: nat) -> Seq<char>
    decreases n,
{
    if n < 16 {
        seq![digit_char(n)]
    } else {
        hex(n / 16).push(digit_char(n % 16))
    }
}

/// Lower-case hexadecimal representation of `n` padded with zeros to `width` digits
/// (the lowest `width` digits).
pub open spec fn hex_fixed(n: nat, width: nat) -> Seq<char>
    decreases width,
{
    if width == 0 {
        seq![]
    } else {
        hex_fixed(n / 16, (width - 1) as nat).push(digit_char(n % 16))
    }
}

/// Appends the decimal representation of `n`.
pub fn push_decimal(s: &mut String, n: u64)
    ensures
        final(s)@ == old(s)@ + decimal(n as nat),
    decreases n,
{
    if n >= 10 {
        push_decimal(s, n / 10);
    }
    let c = digit_exec(n % 10);
    push_char(s, c);
    proof {
        if n < 10 {
            assert(n % 10 == n);
        }
    }
}

/// The decimal representation of `n` as a string.
pub fn decimal_string(n: u64) -> (r: String)
    ensures
        r@ == decimal(n as nat),
{
    let mut s = String::new();
    push_decimal(&mut s, n);
    assert(s@ =~= Seq::<char>::empty() + decimal(n as nat));
    s
}

/// Appends the lower-case hexadecimal representation of `n`.
pub fn push_hex(s: &mut String, n: u64)
    ensures
        final(s)@ == old(s)@ + hex(n as nat),
    decreases n,
{
    if n >= 16 {
        push_hex(s, n / 16);
    }
    let c = digit_exec(n % 16);
    push_char(s, c);
    proof {
        if n < 16 {
            assert(n % 16 == n);
            assert(digit_char(n as nat) == digit_char((n % 16) as nat));
        }
    }
}

/// Appends the lowest `width` hexadecimal digits of `n`, padded with zeros.
pub fn push_hex_fixed(s: &mut String, n: u128, width: u32)
    ensures
        final(s)@ == old(s)@ + hex_fixed(n as nat, width as nat),
    decreases width,
{
    if width > 0 {
        push_hex_fixed(s, n / 16, width - 1);
        let d = (n % 16) as u64;
        let c = digit_exec(d);
        push_char(s, c);
    } else {
        assert(old(s)@ + hex_fixed(n as nat, 0) =~= old(s)@);
    }
}

/// `parts` joined with `sep` between consecutive elements.
pub open spec fn join(parts: Seq<Seq<char>>, sep: Seq<char>) -> Seq<char>
    decreases parts.len(),
{
    if parts.len() == 0 {
        seq![]
    } else if parts.len() == 1 {
        parts[0]
    } else {
        join(parts.drop_last(), sep) + sep + parts.last()
    }
}

/// The views of a sequence of strings.
pub open spec fn views(v: Seq<String>) -> Seq<Seq<char>> {
    v.map_values(|s: String| s@)
}

/// Joins the strings of `parts` with `sep` between them.
pub fn join_strings(parts: &Vec<String>, sep: &str) -> (r: String)
    ensures
        r@ == join(views(parts@), sep@),
{
    let mut res = String::new();
    let ghost vs = views(parts@);
    let mut i: usize = 0;
    while i < parts.len()
        invariant
            i <= parts.len(),
            vs == views(parts@),
            res@ == join(vs.take(i as int), sep@),
        decreases parts.len() - i,
    {
        if i != 0 {
            res.append(sep);
        }
        res.append(parts[i].as_str());
        assert(vs.take(i + 1).drop_last() =~= vs.take(i as int));
        proof {
            if i == 0 {
                assert(res@ =~= vs.take(1)[0]);
            }
        }
        i += 1;
    }
    assert(vs.take(parts.len() as int) =~= vs);
    res
}

/// `s` with every occurrence of the non-empty pattern `pat` replaced by `rep`,
/// scanning from the left without overlaps.
pub open spec fn replace_all(s: Seq<char>, pat: Seq<char>, rep: Seq<char>) -> Seq<char>
    recommends
        pat.len() > 0,
    decreases s.len(),
{
    if pat.len() == 0 || s.len() < pat.len() {
        s
    } else if s.subrange(0, pat.len() as int) == pat {
        rep + replace_all(s.skip(pat.len() as int), pat, rep)
    } else {
        seq![s[0]] + replace_all(s.skip(1), pat, rep)
    }
}

/// Replaces every occurrence of the non-empty pattern `pat` in `s` by `rep`.
pub fn replace(s: &str, pat: &str, rep: &str) -> (r: String)
    requires
        pat@.len() > 0,
    ensures
        r@ == replace_all(s@, pat@, rep@),
{
    let n = s.unicode_len();
    let m = pat.unicode_len();
    let mut res = String::new();
    let mut i: usize = 0;
    assert(s@.skip(0) =~= s@);
    assert(res@ + replace_all(s@, pat@, rep@) =~= replace_all(s@, pat@, rep@));
    while i < n
        invariant
            n == s@.len(),
            m == pat@.len(),
            m > 0,
            i <= n,
            res@ + replace_all(s@.skip(i as int), pat@, rep@) == replace_all(s@, pat@, rep@),
        decreases n - i,
    {
        let ghost rest = s@.skip(i as int);
        let ghost before = res@;
        if occurs_at(s, i, pat) {
            assert(rest.subrange(0, m as int) =~= s@.subrange(i as int, i + m));
            assert(rest.skip(m as int) =~= s@.skip(i + m));
            assert(replace_all(rest, pat@, rep@) == rep@ + replace_all(s@.skip(i + m), pat@, rep@));
            res.append(rep);
            assert(res@ + replace_all(s@.skip(i + m), pat@, rep@) =~= before + (rep@
                + replace_all(s@.skip(i + m), pat@, rep@)));
            i += m;
        } else {
            let c = s.get_char(i);
            proof {
                if rest.len() >= m {
                    assert(rest.subrange(0, m as int) =~= s@.subrange(i as int, i + m));
                }
                assert(rest.skip(1) =~= s@.skip(i + 1));
                assert(rest[0] == c);
                assert(replace_all(rest, pat@, rep@) == seq![c] + replace_all(
                    s@.skip(i + 1),
                    pat@,
                    rep@,
                ));
            }
            push_char(&mut res, c);
            assert(res@ + replace_all(s@.skip(i + 1), pat@, rep@) =~= before + (seq![c]
                + replace_all(s@.skip(i + 1), pat@, rep@)));
            i += 1;
        }
    }
    assert(s@.skip(n as int) =~= Seq::<char>::empty());
    assert(res@ + Seq::<char>::empty() =~= res@);
    res
}

/// `s` without the Unicode isolate marks U+2068 and U+2069.
pub open spec fn strip_isolates(s: Seq<char>) -> Seq<char> {
    s.filter(|c: char| c != '\u{2068}' && c != '\u{2069}')
}

/// Removes the Unicode isolate marks U+2068 and U+2069 that Signal puts around some names.
pub fn remove_isolates(s: &str) -> (r: String)
    ensures
        r@ == strip_isolates(s@),
{
    let n = s.unicode_len();
    let mut res = String::new();
    let mut i: usize = 0;
    while i < n
        invariant
            n == s@.len(),
            i <= n,
            res@ == strip_isolates(s@.take(i as int)),
        decreases n - i,
    {
        let c = s.get_char(i);
        reveal_with_fuel(Seq::filter, 1);
        assert(s@.take(i + 1).drop_last() =~= s@.take(i as int));
        if c != '\u{2068}' && c != '\u{2069}' {
            push_char(&mut res, c);
        }
        i += 1;
    }
    assert(s@.take(n as int) =~= s@);
    res
}

/// Number of bytes that the UTF-8 encoding of `c` takes.
pub open spec fn utf8_char_len(c: char) -> nat {
    if (c as u32) < 0x80 {
        1
    } else if (c as u32) < 0x800 {
        2
    } else if (c as u32) < 0x10000 {
        3
    } else {
        4
    }
}

/// Number of bytes that the UTF-8 encoding of `s` takes.
pub open spec fn utf8_len(s: Seq<char>) -> nat
    decreases s.len(),
{
    if s.len() == 0 {
        0
    } else {
        utf8_len(s.drop_last()) + utf8_char_len(s.last())
    }
}

/// The hyphenated lower-case text form of a UUID (8-4-4-4-12 hexadecimal digits).
pub open spec fn uuid_text(u: u128) -> Seq<char> {
    hex_fixed(u as nat / 0x1_0000_0000_0000_0000_0000_0000, 8) + "-"@ + hex_fixed(
        u as nat / 0x1_0000_0000_0000_0000_0000,
        4,
    ) + "-"@ + hex_fixed(u as nat / 0x1_0000_0000_0000_0000, 4) + "-"@ + hex_fixed(
        u as nat / 0x1_0000_0000_0000,
        4,
    ) + "-"@ + hex_fixed(u as nat, 12)
}

/// The hyphenated lower-case text form of a UUID.
pub fn uuid_string(u: u128) -> (r: String)
    ensures
        r@ == uuid_text(u),
{
    let mut s = String::new();
    push_hex_fixed(&mut s, u / 0x1_0000_0000_0000_0000_0000_0000, 8);
    s.append("-");
    push_hex_fixed(&mut s, u / 0x1_0000_0000_0000_0000_0000, 4);
    s.append("-");
    push_hex_fixed(&mut s, u / 0x1_0000_0000_0000_0000, 4);
    s.append("-");
    push_hex_fixed(&mut s, u / 0x1_0000_0000_0000, 4);
    s.append("-");
    push_hex_fixed(&mut s, u, 12);
    assert(s@ =~= uuid_text(u));
    s
}

/// Position of the last occurrence of `c` in `s` (-1 where there is none).
pub open spec fn last_index_of(s: Seq<char>, c: char) -> int
    decreases s.len(),
{
    if s.len() == 0 {
        -1
    } else if s.last() == c {
        s.len() - 1
    } else {
        last_index_of(s.drop_last(), c)
    }
}

/// The last occurrence is an occurrence, and no later one exists.
pub proof fn lemma_last_index_of(s: Seq<char>, c: char)
    ensures
        -1 <= last_index_of(s, c) < s.len(),
        last_index_of(s, c) >= 0 ==> s[last_index_of(s, c)] == c,
        forall|j: int| last_index_of(s, c) < j < s.len() ==> s[j] != c,
    decreases s.len(),
{
    if s.len() > 0 && s.last() != c {
        lemma_last_index_of(s.drop_last(), c);
        assert forall|j: int| last_index_of(s, c) < j < s.len() implies s[j] != c by {
            if j < s.len() - 1 {
                assert(s[j] == s.drop_last()[j]);
            }
        }
    }
}

/// Position of the last occurrence of `c` in `s`, if any.
pub fn find_last(s: &str, c: char) -> (r: Option<usize>)
    ensures
        match r {
            Some(i) => i == last_index_of(s@, c),
            None => last_index_of(s@, c) == -1,
        },
{
    let mut k = s.unicode_len();
    assert(s@.take(k as int) =~= s@);
    while k > 0
        invariant
            k <= s@.len(),
            last_index_of(s@, c) == last_index_of(s@.take(k as int), c),
        decreases k,
    {
        assert(s@.take(k as int).last() == s@[k - 1]);
        if s.get_char(k - 1) == c {
            return Some(k - 1);
        }
        assert(s@.take(k as int).drop_last() =~= s@.take(k - 1));
        k -= 1;
    }
    assert(s@.take(0) =~= Seq::<char>::empty());
    None
}

/// The characters of `s` from position `lo` up to, not including, `hi`.
pub fn sub_string(s: &str, lo: usize, hi: usize) -> (r: String)
    requires
        lo <= hi <= s@.len(),
    ensures
        r@ == s@.subrange(lo as int, hi as int),
{
    let mut res = String::new();
    let mut i = lo;
    while i < hi
        invariant
            lo <= i <= hi <= s@.len(),
            res@ == s@.subrange(lo as int, i as int),
        decreases hi - i,
    {
        let ch = s.get_char(i);
        push_char(&mut res, ch);
        assert(res@ =~= s@.subrange(lo as int, i + 1));
        i += 1;
    }
    res
}

/// `a` comes before `b` in the lexicographic order of code points, the order of Rust's
/// strings.
pub open spec fn seq_lt(a: Seq<char>, b: Seq<char>) -> bool
    decreases a.len(),
{
    if b.len() == 0 {
        false
    } else if a.len() == 0 {
        true
    } else if a[0] != b[0] {
        (a[0] as int) < (b[0] as int)
    } else {
        seq_lt(a.drop_first(), b.drop_first())
    }
}

/// The order is strict and total: of two different texts exactly one comes first.
pub proof fn lemma_seq_lt_total(a: Seq<char>, b: Seq<char>)
    ensures
        !(seq_lt(a, b) && seq_lt(b, a)),
        !seq_lt(a, a),
        a != b ==> seq_lt(a, b) || seq_lt(b, a),
    decreases a.len(),
{
    if a.len() > 0 && b.len() > 0 && a[0] == b[0] {
        lemma_seq_lt_total(a.drop_first(), b.drop_first());
        if a != b {
            assert(a.drop_first() != b.drop_first()) by {
                if a.drop_first() == b.drop_first() {
                    assert(a =~= seq![a[0]] + a.drop_first());
                    assert(b =~= seq![b[0]] + b.drop_first());
                }
            }
        }
    }
    if a.len() > 0 {
        lemma_seq_lt_total(a.drop_first(), a.drop_first());
    }
    if a.len() > 0 && b.len() > 0 && a[0] != b[0] {
        assert((a[0] as int) != (b[0] as int));
    }
    if a.len() == 0 && b.len() == 0 {
        assert(a =~= b);
    }
}

/// The order is transitive.
pub proof fn lemma_seq_lt_transitive(a: Seq<char>, b: Seq<char>, c: Seq<char>)
    requires
        seq_lt(a, b),
        seq_lt(b, c),
    ensures
        seq_lt(a, c),
    decreases a.len(),
{
    if a.len() > 0 && b.len() > 0 && c.len() > 0 && a[0] == b[0] && b[0] == c[0] {
        lemma_seq_lt_transitive(a.drop_first(), b.drop_first(), c.drop_first());
    }
}

/// Whether `a` comes before `b` (see [seq_lt]).
pub fn str_lt(a: &str, b: &str) -> (r: bool)
    ensures
        r == seq_lt(a@, b@),
{
    let n = a.unicode_len();
    let m = b.unicode_len();
    let mut i: usize = 0;
    assert(a@.skip(0) =~= a@);
    assert(b@.skip(0) =~= b@);
    while i < n && i < m
        invariant
            n == a@.len(),
            m == b@.len(),
            i <= n,
            i <= m,
            seq_lt(a@, b@) == seq_lt(a@.skip(i as int), b@.skip(i as int)),
        decreases n - i,
    {
        let ca = a.get_char(i);
        let cb = b.get_char(i);
        assert(a@.skip(i as int)[0] == ca);
        assert(b@.skip(i as int)[0] == cb);
        if ca != cb {
            return (ca as u32) < (cb as u32);
        }
        assert(a@.skip(i as int).drop_first() =~= a@.skip(i + 1));
        assert(b@.skip(i as int).drop_first() =~= b@.skip(i + 1));
        i += 1;
    }
    i == n && i < m
}

/// The texts are ordered strictly ascending.
pub open spec fn strictly_ascending(v: Seq<Seq<char>>) -> bool {
    forall|i: int, j: int| 0 <= i < j < v.len() ==> seq_lt(#[trigger] v[i], #[trigger] v[j])
}

/// Inserts `x` into a strictly ascending list of strings where it is not there yet.
pub fn insert_sorted_unique(v: &mut Vec<String>, x: String)
    requires
        strictly_ascending(views(old(v)@)),
    ensures
        strictly_ascending(views(final(v)@)),
        forall|t: Seq<char>|
            #[trigger] views(final(v)@).contains(t) <==> (views(old(v)@).contains(t) || t == x@),
{
    let ghost vs = views(v@);
    let n = v.len();
    let mut i: usize = 0;
    while i < n && str_lt(v[i].as_str(), x.as_str())
        invariant
            n == v@.len(),
            vs == views(v@),
            i <= n,
            forall|j: int| 0 <= j < i ==> seq_lt(#[trigger] vs[j], x@),
        decreases n - i,
    {
        i += 1;
    }
    if i < n && !str_lt(x.as_str(), v[i].as_str()) {
        proof {
            lemma_seq_lt_total(vs[i as int], x@);
            assert(vs[i as int] == x@);
        }
        return;
    }
    proof {
        if i < n {
            assert forall|j: int| i <= j < n implies seq_lt(x@, #[trigger] vs[j]) by {
                if j > i {
                    lemma_seq_lt_transitive(x@, vs[i as int], vs[j]);
                }
            }
        }
    }
    v.insert(i, x);
    proof {
        let ws = views(v@);
        assert(ws =~= vs.insert(i as int, x@));
        assert forall|a: int, b: int| 0 <= a < b < ws.len() implies seq_lt(
            #[trigger] ws[a],
            #[trigger] ws[b],
        ) by {
            if b < i {
                assert(ws[a] == vs[a] && ws[b] == vs[b]);
            } else if b == i {
                assert(ws[a] == vs[a]);
            } else if a < i {
                assert(ws[a] == vs[a] && ws[b] == vs[b - 1]);
                lemma_seq_lt_transitive(vs[a], x@, vs[b - 1]);
            } else if a == i {
                assert(ws[b] == vs[b - 1]);
            } else {
                assert(ws[a] == vs[a - 1] && ws[b] == vs[b - 1]);
            }
        }
        assert forall|t: Seq<char>| #[trigger] ws.contains(t) <==> (vs.contains(t) || t == x@) by {
            if ws.contains(t) {
                let k = choose|k: int| 0 <= k < ws.len() && ws[k] == t;
                if k < i {
                    assert(vs[k] == t);
                } else if k > i {
                    assert(vs[k - 1] == t);
                }
            }
            if vs.contains(t) {
                let k = choose|k: int| 0 <= k < vs.len() && vs[k] == t;
                if k < i {
                    assert(ws[k] == t);
                } else {
                    assert(ws[k + 1] == t);
                }
            }
            if t == x@ {
                assert(ws[i as int] == t);
            }
        }
    }
}

} // verus!
