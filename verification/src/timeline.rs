//! The timeline of a channel: its shown messages, ordered by timestamp, with the flags that tell
//! which message shows its sender and which shows its time.
use vstd::prelude::*;

use crate::content::Reaction;
use crate::text::views;
use crate::message::{
    display_uid, header_rule, is_removal, reacted_entries, reaction_map, show_header, show_timestamp,
    timestamp_rule, DisplayMessage, TextMessage,
};

verus! {

/// How many messages [Timeline::trim_old] keeps.
pub const TRIM_SIZE: usize = 1;

/// Milliseconds in a day.
pub const DAY_MILLIS: u64 = 86400000;

/// The timestamp and sender of the message at position `k`.
pub open spec fn key_at(s: Seq<DisplayMessage>, k: int) -> (u64, u128) {
    (s[k].ts(), s[k].from())
}

/// The messages are ordered by strictly increasing timestamps.
pub open spec fn strictly_sorted(s: Seq<DisplayMessage>) -> bool {
    forall|i: int, j: int| 0 <= i < j < s.len() ==> #[trigger] s[i].ts() < #[trigger] s[j].ts()
}

/// Whether the message at position `k` shows its sender (see [header_rule]).
pub open spec fn expected_header(s: Seq<DisplayMessage>, own: u128, k: int) -> bool {
    header_rule(
        if k == 0 {
            None
        } else {
            Some(key_at(s, k - 1))
        },
        key_at(s, k),
        own,
    )
}

/// Whether the message at position `k` shows its time (see [timestamp_rule]).
pub open spec fn expected_stamp(s: Seq<DisplayMessage>, k: int) -> bool {
    timestamp_rule(
        key_at(s, k),
        if k == s.len() - 1 {
            None
        } else {
            Some(key_at(s, k + 1))
        },
    )
}

/// Some message has timestamp `t`.
pub open spec fn has_ts(s: Seq<DisplayMessage>, t: u64) -> bool {
    exists|i: int| 0 <= i < s.len() && #[trigger] s[i].ts() == t
}

/// The messages by timestamp.
pub open spec fn by_ts(s: Seq<DisplayMessage>) -> Map<u64, DisplayMessage> {
    Map::new(
        |t: u64| has_ts(s, t),
        |t: u64| s[choose|i: int| 0 <= i < s.len() && #[trigger] s[i].ts() == t],
    )
}

/// The day (counted from 1970-01-01) of a timestamp in milliseconds.
pub open spec fn day_of(ts: u64) -> int {
    ts as int / DAY_MILLIS as int
}

/// Number of messages at the start of `s` whose day comes before `d`.
pub open spec fn count_days_before(s: Seq<DisplayMessage>, d: int) -> int
    decreases s.len(),
{
    if s.len() == 0 {
        0
    } else if day_of(s[0].ts()) < d {
        1 + count_days_before(s.drop_first(), d)
    } else {
        0
    }
}

/// The ordered messages of a channel with their display flags.
pub struct Timeline {
    messages: Vec<DisplayMessage>,
    headers: Vec<bool>,
    stamps: Vec<bool>,
    own_uuid: u128,
}

impl Timeline {
    /// The messages, in order.
    pub closed spec fn items(&self) -> Seq<DisplayMessage> {
        self.messages@
    }

    /// The UUID of this account.
    pub closed spec fn own(&self) -> u128 {
        self.own_uuid
    }

    /// The flags agree with the messages: every message shows its sender and its time as
    /// [expected_header] and [expected_stamp] say, and the messages are ordered by strictly
    /// increasing timestamps.
    pub closed spec fn wf(&self) -> bool {
        &&& self.headers@.len() == self.messages@.len()
        &&& self.stamps@.len() == self.messages@.len()
        &&& strictly_sorted(self.messages@)
        &&& forall|k: int|
            0 <= k < self.messages@.len() ==> #[trigger] self.headers@[k] == expected_header(
                self.messages@,
                self.own_uuid,
                k,
            )
        &&& forall|k: int|
            0 <= k < self.messages@.len() ==> #[trigger] self.stamps@[k] == expected_stamp(
                self.messages@,
                k,
            )
    }

    /// A well-formed timeline is ordered by strictly increasing timestamps.
    pub proof fn lemma_wf_sorted(&self)
        requires
            self.wf(),
        ensures
            strictly_sorted(self.items()),
    {
    }

    /// An empty timeline of the account with UUID `own_uuid`.
    pub fn new(own_uuid: u128) -> (r: Self)
        ensures
            r.wf(),
            r.items() == Seq::<DisplayMessage>::empty(),
            r.own() == own_uuid,
    {
        Timeline { messages: Vec::new(), headers: Vec::new(), stamps: Vec::new(), own_uuid }
    }

    /// The UUID of this account.
    pub fn own_uuid(&self) -> (r: u128)
        ensures
            r == self.own(),
    {
        self.own_uuid
    }

    /// Number of messages.
    pub fn len(&self) -> (r: usize)
        ensures
            r == self.items().len(),
    {
        self.messages.len()
    }

    /// The message at position `i`.
    pub fn get(&self, i: usize) -> (r: &DisplayMessage)
        requires
            i < self.items().len(),
        ensures
            *r == self.items()[i as int],
    {
        &self.messages[i]
    }

    /// Whether the message at position `i` shows its sender.
    pub fn show_header_at(&self, i: usize) -> (r: bool)
        requires
            self.wf(),
            i < self.items().len(),
        ensures
            r == expected_header(self.items(), self.own(), i as int),
    {
        self.headers[i]
    }

    /// Whether the message at position `i` shows its time.
    pub fn show_timestamp_at(&self, i: usize) -> (r: bool)
        requires
            self.wf(),
            i < self.items().len(),
        ensures
            r == expected_stamp(self.items(), i as int),
    {
        self.stamps[i]
    }

    /// Finds the position of the message with timestamp `ts`, or where one would be inserted.
    pub fn search(&self, ts: u64) -> (r: Result<usize, usize>)
        requires
            self.wf(),
        ensures
            match r {
                Ok(i) => i < self.items().len() && self.items()[i as int].ts() == ts,
                Err(i) => i <= self.items().len() && (forall|j: int|
                    0 <= j < i ==> #[trigger] self.items()[j].ts() < ts) && (forall|j: int|
                    i <= j < self.items().len() ==> #[trigger] self.items()[j].ts() > ts),
            },
    {
        let mut lo: usize = 0;
        let mut hi: usize = self.messages.len();
        while lo < hi
            invariant
                self.wf(),
                lo <= hi <= self.messages@.len(),
                forall|j: int| 0 <= j < lo ==> #[trigger] self.messages@[j].ts() < ts,
                forall|j: int| hi <= j < self.messages@.len() ==> #[trigger] self.messages@[j].ts() > ts,
            decreases hi - lo,
        {
            let mid = lo + (hi - lo) / 2;
            let t = self.messages[mid].timestamp();
            if t == ts {
                return Ok(mid);
            } else if t < ts {
                assert forall|j: int| 0 <= j < mid + 1 implies #[trigger] self.messages@[j].ts()
                    < ts by {
                    if j < mid {
                        assert(self.messages@[j].ts() < self.messages@[mid as int].ts());
                    }
                }
                lo = mid + 1;
            } else {
                assert forall|j: int|
                    mid <= j < self.messages@.len() implies #[trigger] self.messages@[j].ts()
                    > ts by {
                    if j > mid {
                        assert(self.messages@[mid as int].ts() < self.messages@[j].ts());
                    }
                }
                hi = mid;
            }
        }
        Err(lo)
    }

    /// The message with timestamp `ts`, if there is one.
    pub fn get_by_timestamp(&self, ts: u64) -> (r: Option<&DisplayMessage>)
        requires
            self.wf(),
        ensures
            match r {
                Some(m) => by_ts(self.items()).dom().contains(ts) && *m == by_ts(self.items())[ts],
                None => !by_ts(self.items()).dom().contains(ts),
            },
    {
        match self.search(ts) {
            Ok(i) => {
                proof {
                    lemma_by_ts_at(self.items(), i as int);
                }
                Some(&self.messages[i])
            },
            Err(i) => {
                proof {
                    if has_ts(self.items(), ts) {
                        let j = choose|j: int|
                            0 <= j < self.items().len() && #[trigger] self.items()[j].ts() == ts;
                        if j < i {
                        } else {
                        }
                    }
                }
                None
            },
        }
    }

    /// Recomputes the sender flags of the positions `lo..hi`.
    fn refresh_headers(&mut self, lo: usize, hi: usize)
        requires
            old(self).headers@.len() == old(self).messages@.len(),
            lo <= hi <= old(self).messages@.len(),
        ensures
            final(self).messages@ == old(self).messages@,
            final(self).stamps@ == old(self).stamps@,
            final(self).own_uuid == old(self).own_uuid,
            final(self).headers@.len() == old(self).headers@.len(),
            forall|k: int|
                lo <= k < hi ==> #[trigger] final(self).headers@[k] == expected_header(
                    final(self).messages@,
                    final(self).own_uuid,
                    k,
                ),
            forall|k: int|
                0 <= k < final(self).headers@.len() && !(lo <= k < hi) ==> #[trigger] final(self).headers@[k] == old(self).headers@[k],
    {
        let mut k = lo;
        while k < hi
            invariant
                lo <= k <= hi <= self.messages@.len(),
                self.headers@.len() == self.messages@.len(),
                self.messages@ == old(self).messages@,
                self.stamps@ == old(self).stamps@,
                self.own_uuid == old(self).own_uuid,
                forall|j: int|
                    lo <= j < k ==> #[trigger] self.headers@[j] == expected_header(
                        self.messages@,
                        self.own_uuid,
                        j,
                    ),
                forall|j: int|
                    0 <= j < self.headers@.len() && !(lo <= j < k) ==> #[trigger] self.headers@[j]
                        == old(self).headers@[j],
            decreases hi - k,
        {
            let cur = (self.messages[k].timestamp(), self.messages[k].sender());
            let prev = if k == 0 {
                None
            } else {
                Some((self.messages[k - 1].timestamp(), self.messages[k - 1].sender()))
            };
            let b = show_header(prev, cur, self.own_uuid);
            self.headers.set(k, b);
            k += 1;
        }
    }

    /// Recomputes the time flags of the positions `lo..hi`.
    fn refresh_stamps(&mut self, lo: usize, hi: usize)
        requires
            old(self).stamps@.len() == old(self).messages@.len(),
            lo <= hi <= old(self).messages@.len(),
        ensures
            final(self).messages@ == old(self).messages@,
            final(self).headers@ == old(self).headers@,
            final(self).own_uuid == old(self).own_uuid,
            final(self).stamps@.len() == old(self).stamps@.len(),
            forall|k: int|
                lo <= k < hi ==> #[trigger] final(self).stamps@[k] == expected_stamp(
                    final(self).messages@,
                    k,
                ),
            forall|k: int|
                0 <= k < final(self).stamps@.len() && !(lo <= k < hi) ==> #[trigger] final(self).stamps@[k] == old(self).stamps@[k],
    {
        let mut k = lo;
        while k < hi
            invariant
                lo <= k <= hi <= self.messages@.len(),
                self.stamps@.len() == self.messages@.len(),
                self.messages@ == old(self).messages@,
                self.headers@ == old(self).headers@,
                self.own_uuid == old(self).own_uuid,
                forall|j: int|
                    lo <= j < k ==> #[trigger] self.stamps@[j] == expected_stamp(
                        self.messages@,
                        j,
                    ),
                forall|j: int|
                    0 <= j < self.stamps@.len() && !(lo <= j < k) ==> #[trigger] self.stamps@[j]
                        == old(self).stamps@[j],
            decreases hi - k,
        {
            let cur = (self.messages[k].timestamp(), self.messages[k].sender());
            let next = if k + 1 == self.messages.len() {
                None
            } else {
                Some((self.messages[k + 1].timestamp(), self.messages[k + 1].sender()))
            };
            let b = show_timestamp(cur, next);
            self.stamps.set(k, b);
            k += 1;
        }
    }

    /// Updates the flags after `added` messages were put at `position`: the sender flags of
    /// the added messages and the one after them, and the time flags of the added messages and
    /// the one before them.
    fn items_changed(&mut self, position: usize, added: usize)
        requires
            old(self).headers@.len() == old(self).messages@.len(),
            old(self).stamps@.len() == old(self).messages@.len(),
            position + added <= old(self).messages@.len(),
        ensures
            final(self).messages@ == old(self).messages@,
            final(self).own_uuid == old(self).own_uuid,
            final(self).headers@.len() == old(self).headers@.len(),
            final(self).stamps@.len() == old(self).stamps@.len(),
            forall|k: int|
                0 <= k < final(self).messages@.len() ==> #[trigger] final(self).headers@[k] == if position
                    <= k <= position + added {
                    expected_header(final(self).messages@, final(self).own_uuid, k)
                } else {
                    old(self).headers@[k]
                },
            forall|k: int|
                0 <= k < final(self).messages@.len() ==> #[trigger] final(self).stamps@[k] == if position
                    - 1 <= k < position + added || (position + added == final(self).messages@.len()
                    && k == final(self).messages@.len() - 1) {
                    expected_stamp(final(self).messages@, k)
                } else {
                    old(self).stamps@[k]
                },
    {
        let len = self.messages.len();
        let hi_h = if position + added < len {
            position + added + 1
        } else {
            len
        };
        self.refresh_headers(position, hi_h);
        if position + added == len {
            let lo_s = if added < len {
                len - added - 1
            } else {
                0
            };
            self.refresh_stamps(lo_s, len);
        } else {
            let lo_s = if position == 0 {
                0
            } else {
                position - 1
            };
            self.refresh_stamps(lo_s, position + added);
        }
    }

    /// Inserts a message that probably belongs at the end. A message with the same timestamp
    /// as one already there replaces it, at its position; otherwise the message is inserted at
    /// its place in the order, and the timeline grows by one.
    pub fn append(&mut self, item: DisplayMessage)
        requires
            old(self).wf(),
        ensures
            final(self).wf(),
            final(self).own() == old(self).own(),
            by_ts(final(self).items()) == by_ts(old(self).items()).insert(item.ts(), item),
            has_ts(old(self).items(), item.ts()) ==> exists|i: int|
                0 <= i < old(self).items().len() && #[trigger] old(self).items()[i].ts() == item.ts()
                    && final(self).items() == old(self).items().update(i, item),
            !has_ts(old(self).items(), item.ts()) ==> exists|i: int|
                0 <= i <= old(self).items().len() && final(self).items() == #[trigger] old(
                    self,
                ).items().insert(i, item),
    {
        let ts = item.timestamp();
        let n = self.messages.len();
        let last_smaller = if n == 0 {
            0 < ts
        } else {
            self.messages[n - 1].timestamp() < ts
        };
        proof {
            self.lemma_wf_sorted();
        }
        if last_smaller {
            proof {
                lemma_insert_sorted(self.messages@, n as int, item);
                if has_ts(self.items(), ts) {
                    let j = choose|j: int| 0 <= j < self.items().len() && #[trigger] self.items()[j].ts() == ts;
                    if j < n - 1 {
                        assert(self.items()[j].ts() < self.items()[n - 1].ts());
                    }
                }
            }
            self.insert_at(n, item);
        } else {
            match self.search(ts) {
                Ok(idx) => {
                    self.replace_at(idx, item);
                },
                Err(idx) => {
                    proof {
                        lemma_insert_sorted(self.messages@, idx as int, item);
                        if has_ts(self.items(), ts) {
                            let j = choose|j: int|
                                0 <= j < self.items().len() && #[trigger] self.items()[j].ts() == ts;
                            if j < idx {
                            } else {
                            }
                        }
                    }
                    self.insert_at(idx, item);
                },
            }
        }
    }

    /// Puts `item` at position `idx`, where it keeps the order.
    fn insert_at(&mut self, idx: usize, item: DisplayMessage)
        requires
            old(self).wf(),
            idx <= old(self).items().len(),
            forall|j: int| 0 <= j < idx ==> #[trigger] old(self).items()[j].ts() < item.ts(),
            forall|j: int|
                idx <= j < old(self).items().len() ==> #[trigger] old(self).items()[j].ts()
                    > item.ts(),
        ensures
            final(self).wf(),
            final(self).own() == old(self).own(),
            final(self).items() == old(self).items().insert(idx as int, item),
            by_ts(final(self).items()) == by_ts(old(self).items()).insert(item.ts(), item),
    {
        let ghost old_s = self.messages@;
        let ghost oh = self.headers@;
        let ghost os = self.stamps@;
        proof {
            lemma_insert_sorted(old_s, idx as int, item);
        }
        self.messages.insert(idx, item);
        self.headers.insert(idx, false);
        self.stamps.insert(idx, false);
        let ghost mid_h = self.headers@;
        let ghost mid_s = self.stamps@;
        self.items_changed(idx, 1);
        proof {
            let s = self.messages@;
            let own = self.own_uuid;
            assert forall|k: int| 0 <= k < s.len() implies #[trigger] self.headers@[k]
                == expected_header(s, own, k) by {
                if k < idx {
                    assert(s[k] == old_s[k]);
                    if k > 0 {
                        assert(s[k - 1] == old_s[k - 1]);
                    }
                    assert(mid_h[k] == oh[k]);
                } else if k > idx + 1 {
                    assert(s[k] == old_s[k - 1]);
                    assert(s[k - 1] == old_s[k - 2]);
                    assert(mid_h[k] == oh[k - 1]);
                }
            }
            assert forall|k: int| 0 <= k < s.len() implies #[trigger] self.stamps@[k]
                == expected_stamp(s, k) by {
                if k < idx - 1 {
                    assert(s[k] == old_s[k]);
                    assert(s[k + 1] == old_s[k + 1]);
                    assert(mid_s[k] == os[k]);
                } else if k > idx {
                    assert(s[k] == old_s[k - 1]);
                    if k < s.len() - 1 {
                        assert(s[k + 1] == old_s[k]);
                    }
                    assert(mid_s[k] == os[k - 1]);
                }
            }
        }
    }

    /// Replaces the message at position `idx` by `item`, which has the same timestamp.
    fn replace_at(&mut self, idx: usize, item: DisplayMessage)
        requires
            old(self).wf(),
            idx < old(self).items().len(),
            old(self).items()[idx as int].ts() == item.ts(),
        ensures
            final(self).wf(),
            final(self).own() == old(self).own(),
            final(self).items() == old(self).items().update(idx as int, item),
            by_ts(final(self).items()) == by_ts(old(self).items()).insert(item.ts(), item),
    {
        let ghost old_s = self.messages@;
        let ghost oh = self.headers@;
        let ghost os = self.stamps@;
        proof {
            lemma_update_sorted(old_s, idx as int, item);
        }
        self.messages.set(idx, item);
        self.items_changed(idx, 1);
        proof {
            let s = self.messages@;
            let own = self.own_uuid;
            assert forall|k: int| 0 <= k < s.len() implies #[trigger] self.headers@[k]
                == expected_header(s, own, k) by {
                if k < idx || k > idx + 1 {
                    assert(s[k] == old_s[k]);
                    if k > 0 {
                        assert(s[k - 1] == old_s[k - 1]);
                    }
                }
            }
            assert forall|k: int| 0 <= k < s.len() implies #[trigger] self.stamps@[k]
                == expected_stamp(s, k) by {
                if k < idx - 1 || k > idx {
                    assert(s[k] == old_s[k]);
                    if k < s.len() - 1 {
                        assert(s[k + 1] == old_s[k + 1]);
                    }
                }
            }
        }
    }
}


impl Timeline {
    /// Adds messages that probably belong at the start; they must come ordered by strictly
    /// increasing timestamps. A message with the same timestamp as one already there replaces
    /// it.
    pub fn prepend(&mut self, items: Vec<DisplayMessage>)
        requires
            old(self).wf(),
            strictly_sorted(items@),
        ensures
            final(self).wf(),
            final(self).own() == old(self).own(),
            by_ts(final(self).items()) == by_ts(old(self).items()).union_prefer_right(
                by_ts(items@),
            ),
    {
        let ghost all = items@;
        let ghost start = by_ts(self.items());
        let mut items = items;
        proof {
            assert(all.subrange(all.len() as int, all.len() as int) =~= Seq::<DisplayMessage>::empty());
            assert(by_ts(Seq::<DisplayMessage>::empty()) =~= Map::<u64, DisplayMessage>::empty());
            assert(start.union_prefer_right(Map::empty()) =~= start);
        }
        while items.len() > 0
            invariant
                self.wf(),
                self.own() == old(self).own(),
                strictly_sorted(all),
                items@.len() <= all.len(),
                items@ == all.subrange(0, items@.len() as int),
                by_ts(self.items()) == start.union_prefer_right(
                    by_ts(all.subrange(items@.len() as int, all.len() as int)),
                ),
            decreases items.len(),
        {
            let k = items.len();
            let ghost before = items@;
            let item = items.pop().unwrap();
            proof {
                assert(before[k - 1] == all[k - 1]);
                assert(items@ =~= all.subrange(0, k - 1));
                lemma_by_ts_prepend(all, (k - 1) as int);
                let b = by_ts(all.subrange(k as int, all.len() as int));
                assert(start.union_prefer_right(b.insert(item.ts(), item)) =~= start.union_prefer_right(
                    b,
                ).insert(item.ts(), item));
            }
            self.append(item);
        }
    }

    /// Keeps only the last [TRIM_SIZE] messages, to free memory.
    pub fn trim_old(&mut self)
        requires
            old(self).wf(),
        ensures
            final(self).wf(),
            final(self).own() == old(self).own(),
            final(self).items() == if old(self).items().len() > TRIM_SIZE {
                old(self).items().subrange(
                    old(self).items().len() - TRIM_SIZE,
                    old(self).items().len() as int,
                )
            } else {
                old(self).items()
            },
    {
        let len = self.messages.len();
        if len > TRIM_SIZE {
            let to_trim = len - TRIM_SIZE;
            let ghost old_s = self.messages@;
            let ghost oh = self.headers@;
            let ghost os = self.stamps@;
            let new_m = self.messages.split_off(to_trim);
            let new_h = self.headers.split_off(to_trim);
            let new_s = self.stamps.split_off(to_trim);
            self.messages = new_m;
            self.headers = new_h;
            self.stamps = new_s;
            proof {
                let s = self.messages@;
                assert(s =~= old_s.subrange(to_trim as int, len as int));
                assert forall|i: int, j: int| 0 <= i < j < s.len() implies #[trigger] s[i].ts()
                    < #[trigger] s[j].ts() by {
                    assert(s[i] == old_s[i + to_trim] && s[j] == old_s[j + to_trim]);
                }
            }
            self.items_changed(0, 0);
            proof {
                let s = self.messages@;
                let own = self.own_uuid;
                assert forall|k: int| 0 <= k < s.len() implies #[trigger] self.headers@[k]
                    == expected_header(s, own, k) by {
                    if k > 0 {
                        assert(s[k] == old_s[k + to_trim]);
                        assert(s[k - 1] == old_s[k + to_trim - 1]);
                        assert(self.headers@[k] == oh[k + to_trim]);
                    }
                }
                assert forall|k: int| 0 <= k < s.len() implies #[trigger] self.stamps@[k]
                    == expected_stamp(s, k) by {
                    assert(s[k] == old_s[k + to_trim]);
                    if k < s.len() - 1 {
                        assert(s[k + 1] == old_s[k + to_trim + 1]);
                    }
                    assert(self.stamps@[k] == os[k + to_trim]);
                }
            }
        }
    }

    /// Removes every message.
    pub fn clear(&mut self)
        ensures
            final(self).wf(),
            final(self).own() == old(self).own(),
            final(self).items() == Seq::<DisplayMessage>::empty(),
    {
        self.messages.clear();
        self.headers.clear();
        self.stamps.clear();
    }

    /// Position of the first message whose day is not before `d` (`d` may be one past the
    /// last day).
    fn day_partition(&self, d: u64) -> (r: usize)
        requires
            self.wf(),
        ensures
            r <= self.items().len(),
            forall|j: int| 0 <= j < r ==> day_of(#[trigger] self.items()[j].ts()) < d,
            forall|j: int|
                r <= j < self.items().len() ==> day_of(#[trigger] self.items()[j].ts()) >= d,
    {
        let mut lo: usize = 0;
        let mut hi: usize = self.messages.len();
        while lo < hi
            invariant
                self.wf(),
                lo <= hi <= self.messages@.len(),
                forall|j: int| 0 <= j < lo ==> day_of(#[trigger] self.messages@[j].ts()) < d,
                forall|j: int|
                    hi <= j < self.messages@.len() ==> day_of(#[trigger] self.messages@[j].ts())
                        >= d,
            decreases hi - lo,
        {
            let mid = lo + (hi - lo) / 2;
            let day = self.messages[mid].timestamp() / DAY_MILLIS;
            if day < d {
                assert forall|j: int| 0 <= j < mid + 1 implies day_of(
                    #[trigger] self.messages@[j].ts(),
                ) < d by {
                    if j < mid {
                        assert(self.messages@[j].ts() < self.messages@[mid as int].ts());
                        lemma_day_monotone(self.messages@[j].ts(), self.messages@[mid as int].ts());
                    }
                }
                lo = mid + 1;
            } else {
                assert forall|j: int|
                    mid <= j < self.messages@.len() implies day_of(
                    #[trigger] self.messages@[j].ts(),
                ) >= d by {
                    if j > mid {
                        assert(self.messages@[mid as int].ts() < self.messages@[j].ts());
                        lemma_day_monotone(self.messages@[mid as int].ts(), self.messages@[j].ts());
                    }
                }
                hi = mid;
            }
        }
        lo
    }

    /// The section (a day of messages) around position `pos`: the first position of that day
    /// and the first position after it. For a position past the end it is the range from the
    /// number of messages to `u32::MAX`. Positions that do not fit a `u32` count as 0.
    pub fn section(&self, pos: u32) -> (r: (u32, u32))
        requires
            self.wf(),
        ensures
            ({
                let n = self.items().len();
                let n32 = if n <= u32::MAX {
                    n as int
                } else {
                    0
                };
                if pos >= n32 {
                    r == (n32 as u32, u32::MAX)
                } else {
                    let d = day_of(self.items()[pos as int].ts());
                    let fits = |x: int| if x <= u32::MAX {
                        x
                    } else {
                        0
                    };
                    &&& r.0 as int == fits(r.0 as int)
                    &&& (r.0 as int <= u32::MAX ==> (forall|j: int|
                        0 <= j < r.0 ==> day_of(#[trigger] self.items()[j].ts()) < d))
                    &&& (forall|j: int|
                        0 <= j < n && day_of(#[trigger] self.items()[j].ts()) < d ==> j < r.0
                            || n > u32::MAX)
                    &&& (forall|j: int|
                        0 <= j < r.1 ==> day_of(#[trigger] self.items()[j].ts()) <= d)
                    &&& (forall|j: int|
                        0 <= j < n && day_of(#[trigger] self.items()[j].ts()) <= d ==> j < r.1
                            || n > u32::MAX)
                }
            }),
    {
        let n = self.messages.len();
        let n32: u32 = if n <= 0xffff_ffff {
            n as u32
        } else {
            0
        };
        if pos >= n32 {
            return (n32, 0xffff_ffffu32);
        }
        let day = self.messages[pos as usize].timestamp() / DAY_MILLIS;
        let first_in = self.day_partition(day);
        let first_out = self.day_partition(day + 1);
        let a: u32 = if first_in <= 0xffff_ffff {
            first_in as u32
        } else {
            0
        };
        let b: u32 = if first_out <= 0xffff_ffff {
            first_out as u32
        } else {
            0
        };
        (a, b)
    }
}


/// The message is a deleted text message.
pub open spec fn is_deleted_text(m: DisplayMessage) -> bool {
    match m {
        DisplayMessage::Text(t) => t.is_deleted,
        DisplayMessage::Call(_) => false,
    }
}

/// Two sequences of messages have the same timestamps and senders at every position.
pub open spec fn same_keys(s: Seq<DisplayMessage>, t: Seq<DisplayMessage>) -> bool {
    s.len() == t.len() && forall|k: int| 0 <= k < s.len() ==> #[trigger] key_at(s, k) == key_at(t, k)
}

impl Timeline {
    /// Puts back a changed message with the same timestamp and sender at position `i`.
    fn put_back(&mut self, i: usize, m: DisplayMessage)
        requires
            old(self).headers@.len() == old(self).messages@.len() + 1,
            old(self).stamps@.len() == old(self).messages@.len() + 1,
            i <= old(self).messages@.len(),
        ensures
            final(self).messages@ == old(self).messages@.insert(i as int, m),
            final(self).headers@ == old(self).headers@,
            final(self).stamps@ == old(self).stamps@,
            final(self).own_uuid == old(self).own_uuid,
    {
        self.messages.insert(i, m);
    }

    /// A message changed in place without changing its timestamp or sender keeps the timeline
    /// well-formed.
    proof fn lemma_same_keys_wf(&self, old_t: Timeline)
        requires
            old_t.wf(),
            same_keys(old_t.messages@, self.messages@),
            self.headers@ == old_t.headers@,
            self.stamps@ == old_t.stamps@,
            self.own_uuid == old_t.own_uuid,
        ensures
            self.wf(),
    {
        let s = self.messages@;
        let o = old_t.messages@;
        assert forall|i: int, j: int| 0 <= i < j < s.len() implies #[trigger] s[i].ts()
            < #[trigger] s[j].ts() by {
            assert(key_at(s, i) == key_at(o, i) && key_at(s, j) == key_at(o, j));
        }
        assert forall|k: int| 0 <= k < s.len() implies #[trigger] self.headers@[k]
            == expected_header(s, self.own_uuid, k) by {
            assert(key_at(s, k) == key_at(o, k));
            if k > 0 {
                assert(key_at(s, k - 1) == key_at(o, k - 1));
            }
        }
        assert forall|k: int| 0 <= k < s.len() implies #[trigger] self.stamps@[k]
            == expected_stamp(s, k) by {
            assert(key_at(s, k) == key_at(o, k));
            if k < s.len() - 1 {
                assert(key_at(s, k + 1) == key_at(o, k + 1));
            }
        }
    }

    /// Marks the message at position `i` as read; tells whether it was unread before.
    pub fn mark_read_at(&mut self, i: usize) -> (r: bool)
        requires
            old(self).wf(),
            i < old(self).items().len(),
        ensures
            final(self).wf(),
            final(self).own() == old(self).own(),
            r == !old(self).items()[i as int].is_read(),
            final(self).items() == old(self).items().update(
                i as int,
                old(self).items()[i as int].with_read(),
            ),
    {
        let ghost old_t = *self;
        let mut m = self.messages.remove(i);
        let r = m.mark_as_read();
        self.put_back(i, m);
        proof {
            assert(self.messages@ =~= old_t.messages@.update(i as int, old_t.messages@[i as int].with_read()));
            assert forall|k: int| 0 <= k < self.messages@.len() implies #[trigger] key_at(
                old_t.messages@,
                k,
            ) == key_at(self.messages@, k) by {}
            self.lemma_same_keys_wf(old_t);
        }
        r
    }

    /// Applies a reaction of `sender` to the message at position `i` where it is a text
    /// message; tells whether it is one.
    pub fn react_at(&mut self, i: usize, sender: u128, reaction: Reaction) -> (r: bool)
        requires
            old(self).wf(),
            i < old(self).items().len(),
        ensures
            final(self).wf(),
            final(self).own() == old(self).own(),
            r == old(self).items()[i as int] is Text,
            final(self).items().len() == old(self).items().len(),
            forall|k: int|
                0 <= k < old(self).items().len() && k != i ==> #[trigger] final(self).items()[k]
                    == old(self).items()[k],
            match (old(self).items()[i as int], final(self).items()[i as int]) {
                (DisplayMessage::Text(a), DisplayMessage::Text(b)) => {
                    &&& b.reactions@ == reacted_entries(a.reactions@, sender, reaction)
                    &&& reaction_map(b.reactions@) == if is_removal(reaction) {
                        reaction_map(a.reactions@).remove(sender)
                    } else {
                        reaction_map(a.reactions@).insert(sender, reaction)
                    }
                    &&& b.sender == a.sender && b.timestamp == a.timestamp && b.read == a.read
                    &&& b.data == a.data && b.is_deleted == a.is_deleted && b.quote == a.quote
                },
                (a, b) => a == b,
            },
    {
        let ghost old_t = *self;
        let m = self.messages.remove(i);
        let (m, r) = match m {
            DisplayMessage::Text(t) => {
                let mut t = t;
                t.react(sender, reaction);
                (DisplayMessage::Text(t), true)
            },
            other => (other, false),
        };
        self.put_back(i, m);
        proof {
            assert forall|k: int| 0 <= k < self.messages@.len() implies #[trigger] key_at(
                old_t.messages@,
                k,
            ) == key_at(self.messages@, k) by {
                if k != i {
                    assert(self.messages@[k] == old_t.messages@[k]);
                }
            }
            self.lemma_same_keys_wf(old_t);
        }
        r
    }

    /// Marks the message at position `i` as deleted where it is a text message; tells whether
    /// it is one.
    pub fn mark_deleted_at(&mut self, i: usize) -> (r: bool)
        requires
            old(self).wf(),
            i < old(self).items().len(),
        ensures
            final(self).wf(),
            final(self).own() == old(self).own(),
            r == old(self).items()[i as int] is Text,
            final(self).items() == match old(self).items()[i as int] {
                DisplayMessage::Text(t) => old(self).items().update(
                    i as int,
                    DisplayMessage::Text(TextMessage { is_deleted: true, ..t }),
                ),
                _ => old(self).items(),
            },
    {
        let ghost old_t = *self;
        let m = self.messages.remove(i);
        let (m, r) = match m {
            DisplayMessage::Text(t) => {
                let mut t = t;
                t.is_deleted = true;
                (DisplayMessage::Text(t), true)
            },
            other => (other, false),
        };
        self.put_back(i, m);
        proof {
            assert forall|k: int| 0 <= k < self.messages@.len() implies #[trigger] key_at(
                old_t.messages@,
                k,
            ) == key_at(self.messages@, k) by {
                if k != i {
                    assert(self.messages@[k] == old_t.messages@[k]);
                }
            }
            self.lemma_same_keys_wf(old_t);
            assert(self.messages@ =~= match old_t.messages@[i as int] {
                DisplayMessage::Text(t) => old_t.messages@.update(
                    i as int,
                    DisplayMessage::Text(TextMessage { is_deleted: true, ..t }),
                ),
                _ => old_t.messages@,
            });
        }
        r
    }

    /// Position of the last message that is not a deleted text message.
    pub fn last_message_index(&self) -> (r: Option<usize>)
        ensures
            match r {
                Some(k) => k < self.items().len() && !is_deleted_text(self.items()[k as int])
                    && forall|j: int|
                    k < j < self.items().len() ==> is_deleted_text(#[trigger] self.items()[j]),
                None => forall|j: int|
                    0 <= j < self.items().len() ==> is_deleted_text(#[trigger] self.items()[j]),
            },
    {
        let mut k = self.messages.len();
        while k > 0
            invariant
                k <= self.messages@.len(),
                forall|j: int|
                    k <= j < self.messages@.len() ==> is_deleted_text(#[trigger] self.messages@[j]),
            decreases k,
        {
            let deleted = match &self.messages[k - 1] {
                DisplayMessage::Text(t) => t.is_deleted,
                DisplayMessage::Call(_) => false,
            };
            if !deleted {
                return Some(k - 1);
            }
            k -= 1;
        }
        None
    }

    /// The earliest message of the unread messages at the end: the position from which on
    /// every message is unread, where the last message is unread.
    pub fn first_unread_index(&self) -> (r: Option<usize>)
        ensures
            match r {
                Some(k) => k < self.items().len() && (forall|j: int|
                    k <= j < self.items().len() ==> !(#[trigger] self.items()[j]).is_read()) && (
                k == 0 || self.items()[k - 1].is_read()),
                None => self.items().len() == 0 || self.items().last().is_read(),
            },
    {
        let n = self.messages.len();
        let mut k = n;
        while k > 0 && !self.messages[k - 1].read()
            invariant
                k <= n == self.messages@.len(),
                forall|j: int| k <= j < n ==> !(#[trigger] self.messages@[j]).is_read(),
            decreases k,
        {
            k -= 1;
        }
        if k == n {
            None
        } else {
            Some(k)
        }
    }

    /// Marks the unread messages at the end as read, from the last one backwards until the
    /// first read one. Gives the identifiers of the messages that were marked and have one, in
    /// that order.
    pub fn mark_all_read(&mut self) -> (r: Vec<String>)
        requires
            old(self).wf(),
        ensures
            final(self).wf(),
            final(self).own() == old(self).own(),
            final(self).items().len() == old(self).items().len(),
            ({
                let k = unread_from(old(self).items(), old(self).items().len() as int);
                &&& forall|j: int|
                    0 <= j < k ==> #[trigger] final(self).items()[j] == old(self).items()[j]
                &&& forall|j: int|
                    k <= j < old(self).items().len() ==> #[trigger] final(self).items()[j] == old(
                        self,
                    ).items()[j].with_read()
                &&& views(r@) == uids_between(old(self).items(), k, old(self).items().len() as int)
            }),
    {
        let ghost o = self.messages@;
        let n = self.messages.len();
        let mut uids: Vec<String> = Vec::new();
        let mut k = n;
        while k > 0
            invariant
                self.wf(),
                self.own() == old(self).own(),
                o == old(self).items(),
                k <= n == self.messages@.len() == o.len(),
                forall|j: int| k <= j < n ==> !(#[trigger] o[j]).is_read(),
                forall|j: int| 0 <= j < k ==> #[trigger] self.messages@[j] == o[j],
                forall|j: int| k <= j < n ==> #[trigger] self.messages@[j] == o[j].with_read(),
                views(uids@) == uids_between(o, k as int, n as int),
            decreases k,
        {
            let ghost before = views(uids@);
            let newly = self.mark_read_at(k - 1);
            if !newly {
                proof {
                    lemma_unread_from(o, k as int);
                    assert(o[k - 1].with_read() == o[k - 1]);
                }
                return uids;
            }
            match self.messages[k - 1].uid() {
                Some(u) => {
                    uids.push(u);
                    assert(views(uids@) =~= before.push(u@));
                },
                None => {},
            }
            assert(display_uid(o[k - 1].with_read()) == display_uid(o[k - 1]));
            k -= 1;
        }
        proof {
            lemma_unread_from(o, 0);
        }
        uids
    }
}

/// The identifiers of the messages at positions `n - 1` down to `k` that have one, in that
/// order.
pub open spec fn uids_between(s: Seq<DisplayMessage>, k: int, n: int) -> Seq<Seq<char>>
    decreases n - k,
{
    if k >= n {
        seq![]
    } else {
        let rest = uids_between(s, k + 1, n);
        match display_uid(s[k]) {
            Some(u) => rest.push(u),
            None => rest,
        }
    }
}

/// The position from which on every message up to position `n` is unread.
pub open spec fn unread_from(s: Seq<DisplayMessage>, n: int) -> int
    decreases n,
{
    if n <= 0 {
        0
    } else if s[n - 1].is_read() {
        n
    } else {
        unread_from(s, n - 1)
    }
}

/// Where the unread messages at the end start.
pub proof fn lemma_unread_from(s: Seq<DisplayMessage>, k: int)
    requires
        0 <= k <= s.len(),
        forall|j: int| k <= j < s.len() ==> !(#[trigger] s[j]).is_read(),
        k == 0 || s[k - 1].is_read(),
    ensures
        unread_from(s, s.len() as int) == k,
    decreases s.len() - k,
{
    lemma_unread_from_n(s, k, s.len() as int);
}

proof fn lemma_unread_from_n(s: Seq<DisplayMessage>, k: int, n: int)
    requires
        0 <= k <= n <= s.len(),
        forall|j: int| k <= j < n ==> !(#[trigger] s[j]).is_read(),
        k == 0 || s[k - 1].is_read(),
    ensures
        unread_from(s, n) == k,
    decreases n - k,
{
    if n > k {
        lemma_unread_from_n(s, k, n - 1);
    }
}


/// Later timestamps fall on the same or a later day.
pub proof fn lemma_day_monotone(a: u64, b: u64)
    requires
        a <= b,
    ensures
        day_of(a) <= day_of(b),
{
    vstd::arithmetic::div_mod::lemma_div_is_ordered(a as int, b as int, DAY_MILLIS as int);
}

/// Adding the element before a suffix of strictly sorted messages adds it to the map by
/// timestamp.
pub proof fn lemma_by_ts_prepend(s: Seq<DisplayMessage>, k: int)
    requires
        strictly_sorted(s),
        0 <= k < s.len(),
    ensures
        by_ts(s.subrange(k, s.len() as int)) == by_ts(s.subrange(k + 1, s.len() as int)).insert(
            s[k].ts(),
            s[k],
        ),
{
    let a = s.subrange(k + 1, s.len() as int);
    assert(s.subrange(k, s.len() as int) =~= a.insert(0, s[k]));
    assert forall|i: int, j: int| 0 <= i < j < a.len() implies #[trigger] a[i].ts()
        < #[trigger] a[j].ts() by {
        assert(a[i] == s[i + k + 1] && a[j] == s[j + k + 1]);
    }
    assert forall|j: int| 0 <= j < a.len() implies #[trigger] a[j].ts() > s[k].ts() by {
        assert(a[j] == s[j + k + 1]);
    }
    lemma_insert_sorted(a, 0, s[k]);
}

/// In strictly sorted messages, the map by timestamp gives each message at its own timestamp.
pub proof fn lemma_by_ts_at(s: Seq<DisplayMessage>, i: int)
    requires
        strictly_sorted(s),
        0 <= i < s.len(),
    ensures
        by_ts(s).dom().contains(s[i].ts()),
        by_ts(s)[s[i].ts()] == s[i],
{
    assert(has_ts(s, s[i].ts()));
    let j = choose|j: int| 0 <= j < s.len() && #[trigger] s[j].ts() == s[i].ts();
    if j < i {
        assert(s[j].ts() < s[i].ts());
    } else if j > i {
        assert(s[i].ts() < s[j].ts());
    }
}

/// Inserting a message at the position where it keeps the order keeps strict sortedness and
/// adds the message to the map by timestamp.
pub proof fn lemma_insert_sorted(s: Seq<DisplayMessage>, idx: int, m: DisplayMessage)
    requires
        strictly_sorted(s),
        0 <= idx <= s.len(),
        forall|j: int| 0 <= j < idx ==> #[trigger] s[j].ts() < m.ts(),
        forall|j: int| idx <= j < s.len() ==> #[trigger] s[j].ts() > m.ts(),
    ensures
        strictly_sorted(s.insert(idx, m)),
        by_ts(s.insert(idx, m)) == by_ts(s).insert(m.ts(), m),
{
    let r = s.insert(idx, m);
    assert forall|i: int, j: int| 0 <= i < j < r.len() implies #[trigger] r[i].ts()
        < #[trigger] r[j].ts() by {
        if i < idx && j < idx {
            assert(r[i] == s[i] && r[j] == s[j]);
        } else if i < idx && j == idx {
            assert(r[i] == s[i]);
        } else if i < idx {
            assert(r[i] == s[i] && r[j] == s[j - 1]);
        } else if i == idx {
            assert(r[j] == s[j - 1]);
        } else {
            assert(r[i] == s[i - 1] && r[j] == s[j - 1]);
        }
    }
    lemma_by_ts_at(r, idx);
    assert forall|t: u64| #[trigger] has_ts(r, t) == (has_ts(s, t) || t == m.ts()) by {
        if has_ts(s, t) {
            let j = choose|j: int| 0 <= j < s.len() && #[trigger] s[j].ts() == t;
            if j < idx {
                assert(r[j] == s[j]);
            } else {
                assert(r[j + 1] == s[j]);
            }
        }
        if has_ts(r, t) {
            let j = choose|j: int| 0 <= j < r.len() && #[trigger] r[j].ts() == t;
            if j < idx {
                assert(r[j] == s[j]);
            } else if j > idx {
                assert(r[j] == s[j - 1]);
            }
        }
    }
    assert forall|t: u64| #[trigger] by_ts(r).dom().contains(t) && t != m.ts() implies by_ts(r)[t]
        == by_ts(s)[t] by {
        let j = choose|j: int| 0 <= j < s.len() && #[trigger] s[j].ts() == t;
        lemma_by_ts_at(s, j);
        if j < idx {
            assert(r[j] == s[j]);
            lemma_by_ts_at(r, j);
        } else {
            assert(r[j + 1] == s[j]);
            lemma_by_ts_at(r, j + 1);
        }
    }
    assert(by_ts(r) =~= by_ts(s).insert(m.ts(), m));
}

/// Replacing a message by one with the same timestamp keeps strict sortedness and replaces
/// the message in the map by timestamp.
pub proof fn lemma_update_sorted(s: Seq<DisplayMessage>, idx: int, m: DisplayMessage)
    requires
        strictly_sorted(s),
        0 <= idx < s.len(),
        s[idx].ts() == m.ts(),
    ensures
        strictly_sorted(s.update(idx, m)),
        by_ts(s.update(idx, m)) == by_ts(s).insert(m.ts(), m),
{
    let r = s.update(idx, m);
    assert forall|i: int, j: int| 0 <= i < j < r.len() implies #[trigger] r[i].ts()
        < #[trigger] r[j].ts() by {
        assert(s[i].ts() < s[j].ts());
    }
    lemma_by_ts_at(r, idx);
    assert forall|t: u64| #[trigger] has_ts(r, t) == has_ts(s, t) by {
        if has_ts(s, t) {
            let j = choose|j: int| 0 <= j < s.len() && #[trigger] s[j].ts() == t;
            assert(r[j].ts() == t);
        }
        if has_ts(r, t) {
            let j = choose|j: int| 0 <= j < r.len() && #[trigger] r[j].ts() == t;
            assert(s[j].ts() == t);
        }
    }
    assert(has_ts(s, m.ts())) by {
        assert(s[idx].ts() == m.ts());
    }
    assert forall|t: u64| #[trigger] by_ts(r).dom().contains(t) && t != m.ts() implies by_ts(r)[t]
        == by_ts(s)[t] by {
        let j = choose|j: int| 0 <= j < s.len() && #[trigger] s[j].ts() == t;
        lemma_by_ts_at(s, j);
        assert(r[j] == s[j]);
        lemma_by_ts_at(r, j);
    }
    assert(by_ts(r) =~= by_ts(s).insert(m.ts(), m));
}


/// Changing the message at one position without changing its timestamp changes only the entry
/// of that timestamp.
pub proof fn lemma_by_ts_update(s: Seq<DisplayMessage>, s2: Seq<DisplayMessage>, i: int)
    requires
        strictly_sorted(s),
        s2.len() == s.len(),
        0 <= i < s.len(),
        s2[i].ts() == s[i].ts(),
        forall|k: int| 0 <= k < s.len() && k != i ==> #[trigger] s2[k] == s[k],
    ensures
        strictly_sorted(s2),
        by_ts(s2) == by_ts(s).insert(s[i].ts(), s2[i]),
{
    assert forall|a: int, b: int| 0 <= a < b < s2.len() implies #[trigger] s2[a].ts()
        < #[trigger] s2[b].ts() by {
        assert(s[a].ts() < s[b].ts());
        if a != i {
            assert(s2[a] == s[a]);
        }
        if b != i {
            assert(s2[b] == s[b]);
        }
    }
    let m = by_ts(s);
    let m2 = by_ts(s2);
    let e = m.insert(s[i].ts(), s2[i]);
    lemma_by_ts_at(s, i);
    lemma_by_ts_at(s2, i);
    assert forall|t: u64| #[trigger] m2.dom().contains(t) <==> e.dom().contains(t) by {
        if has_ts(s, t) {
            let j = choose|j: int| 0 <= j < s.len() && #[trigger] s[j].ts() == t;
            if j != i {
                assert(s2[j] == s[j]);
            }
            assert(s2[j].ts() == t);
        }
        if has_ts(s2, t) {
            let j = choose|j: int| 0 <= j < s2.len() && #[trigger] s2[j].ts() == t;
            if j != i {
                assert(s2[j] == s[j]);
            }
            assert(s[j].ts() == t);
        }
    }
    assert forall|t: u64| #[trigger] m2.dom().contains(t) implies m2[t] == e[t] by {
        let j = choose|j: int| 0 <= j < s2.len() && #[trigger] s2[j].ts() == t;
        lemma_by_ts_at(s2, j);
        if j != i {
            assert(s2[j] == s[j]);
            lemma_by_ts_at(s, j);
            assert(s[j].ts() != s[i].ts());
        }
    }
    assert(m2 =~= e);
}

/// What a write puts into the timeline is what a read by its timestamp gives back: after a
/// message was appended (the map by timestamp takes it, see [Timeline::append]), the message
/// with its timestamp is that message.
pub proof fn lemma_append_then_get(before: Seq<DisplayMessage>, after: Seq<DisplayMessage>, m: DisplayMessage)
    requires
        by_ts(after) == by_ts(before).insert(m.ts(), m),
    ensures
        by_ts(after).dom().contains(m.ts()),
        by_ts(after)[m.ts()] == m,
        forall|t: u64| t != m.ts() ==> (#[trigger] by_ts(after).dom().contains(t)) == by_ts(
            before,
        ).dom().contains(t),
{
}

/// The position from which on the messages are unread is no later than the end, and the
/// message before it, where there is one, was read.
proof fn lemma_unread_from_bounds(s: Seq<DisplayMessage>, n: int)
    requires
        0 <= n <= s.len(),
    ensures
        0 <= unread_from(s, n) <= n,
        unread_from(s, n) == n ==> (n == 0 || s[n - 1].is_read()),
    decreases n,
{
    if n > 0 && !s[n - 1].is_read() {
        lemma_unread_from_bounds(s, n - 1);
    }
}

/// After the unread messages at the end were marked read (see [Timeline::mark_all_read]), the
/// last message, where there is one, is read: nothing at the end is left unread.
pub proof fn lemma_marked_all_read(s: Seq<DisplayMessage>, s2: Seq<DisplayMessage>)
    requires
        s2.len() == s.len(),
        forall|j: int|
            0 <= j < unread_from(s, s.len() as int) ==> #[trigger] s2[j] == s[j],
        forall|j: int|
            unread_from(s, s.len() as int) <= j < s.len() ==> #[trigger] s2[j] == s[j].with_read(),
    ensures
        s2.len() == 0 || s2.last().is_read(),
{
    lemma_unread_from_bounds(s, s.len() as int);
    if s2.len() > 0 {
        let n = s.len() as int;
        if unread_from(s, n) <= n - 1 {
            assert(s2[n - 1] == s[n - 1].with_read());
        } else {
            assert(s2[n - 1] == s[n - 1]);
        }
    }
}

} // verus!
