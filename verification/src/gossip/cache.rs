//! Duplicate suppression and the store of recent messages. Both are kept in
//! insertion order; eviction first drops entries older than an hour, then,
//! when still full, the oldest quarter of the capacity, and at least one
//! entry (the earlier entry first among entries of equal age), so that
//! neither store outgrows its capacity.

use crate::gossip::messages_model;
use crate::message::{Message, MessageModel};
use crate::platform::unix_time_secs;
use vstd::prelude::*;
use vstd::relations::injective_on;
use vstd::set_lib::{
    lemma_int_range, lemma_len_subset, lemma_map_size, lemma_set_disjoint_lens, lemma_subset_equality,
    set_int_range,
};

verus! {

/// Entries at least this many seconds old are dropped by eviction.
pub const EVICTION_AGE: u64 = 3600;

/// Position of the last occurrence of `k` in `ids`, or -1.
pub open spec fn id_position(ids: Seq<u64>, k: u64) -> int
    decreases ids.len(),
{
    if ids.len() == 0 {
        -1
    } else if ids.last() == k {
        ids.len() - 1
    } else {
        id_position(ids.drop_last(), k)
    }
}

pub proof fn lemma_id_position(ids: Seq<u64>, k: u64)
    ensures
        -1 <= id_position(ids, k) < ids.len(),
        id_position(ids, k) >= 0 ==> ids[id_position(ids, k)] == k,
        id_position(ids, k) == -1 <==> !ids.contains(k),
    decreases ids.len(),
{
    if ids.len() > 0 {
        lemma_id_position(ids.drop_last(), k);
        if ids.last() == k {
            assert(ids[ids.len() - 1] == k);
        } else {
            if ids.contains(k) {
                let w = choose|w: int| 0 <= w < ids.len() && ids[w] == k;
                assert(ids.drop_last()[w] == k);
            }
            if ids.drop_last().contains(k) {
                let w = choose|w: int| 0 <= w < ids.drop_last().len() && ids.drop_last()[w] == k;
                assert(ids[w] == k);
            }
        }
    }
}

/// The ids of seen-message records.
pub open spec fn seen_ids(s: Seq<(u64, u64)>) -> Seq<u64> {
    s.map_values(|e: (u64, u64)| e.0)
}

/// The timestamps of seen-message records.
pub open spec fn seen_stamps(s: Seq<(u64, u64)>) -> Seq<u64> {
    s.map_values(|e: (u64, u64)| e.1)
}

/// The ids of messages.
pub open spec fn message_ids(s: Seq<MessageModel>) -> Seq<u64> {
    s.map_values(|m: MessageModel| m.id)
}

/// The timestamps of messages.
pub open spec fn message_stamps(s: Seq<MessageModel>) -> Seq<u64> {
    s.map_values(|m: MessageModel| m.timestamp)
}

/// Which of the timestamps `t` are younger than an hour at time `now`
/// (a timestamp after `now` counts as age 0).
pub open spec fn fresh_mask(t: Seq<u64>, now: u64) -> Seq<bool> {
    Seq::new(t.len(), |i: int| now < t[i] + EVICTION_AGE)
}

/// Number of entries among the first `n` of `t` that come before entry `i`
/// in age order: older, or as old and earlier.
pub open spec fn older_count(t: Seq<u64>, i: int, n: int) -> nat
    decreases n,
{
    if n <= 0 {
        0
    } else {
        older_count(t, i, n - 1) + if older_than(t, n - 1, i) {
            1nat
        } else {
            0nat
        }
    }
}

/// Which entries of `t` survive dropping the `k` oldest (the earlier entry
/// first among equals).
pub open spec fn newest_mask(t: Seq<u64>, k: nat) -> Seq<bool> {
    Seq::new(t.len(), |i: int| older_count(t, i, t.len() as int) >= k)
}

/// The entries of `s` whose flag in `m` is set, in order.
pub open spec fn masked<T>(s: Seq<T>, m: Seq<bool>) -> Seq<T>
    decreases s.len(),
{
    if s.len() == 0 {
        seq![]
    } else if m.last() {
        masked(s.drop_last(), m.drop_last()).push(s.last())
    } else {
        masked(s.drop_last(), m.drop_last())
    }
}

pub proof fn lemma_masked_len<T>(s: Seq<T>, m: Seq<bool>)
    ensures
        masked(s, m).len() <= s.len(),
    decreases s.len(),
{
    if s.len() > 0 {
        lemma_masked_len(s.drop_last(), m.drop_last());
    }
}

/// How many of the oldest entries a full store drops: a quarter of the
/// capacity `max`, and at least one.
pub open spec fn eviction_quota(max: usize) -> nat {
    if max / 4 < 1 {
        1
    } else {
        (max / 4) as nat
    }
}

/// Seen-message records after eviction at time `now` with capacity `max`:
/// records an hour old are dropped; if at least `max` remain, the
/// `eviction_quota(max)` oldest go too.
pub open spec fn seen_after_evict(s: Seq<(u64, u64)>, now: u64, max: usize) -> Seq<(u64, u64)> {
    let a = masked(s, fresh_mask(seen_stamps(s), now));
    if a.len() >= max {
        masked(a, newest_mask(seen_stamps(a), eviction_quota(max)))
    } else {
        a
    }
}

/// Entry `j` comes before entry `i` in age order: it is older, or as old
/// and earlier.
pub open spec fn older_than(t: Seq<u64>, j: int, i: int) -> bool {
    t[j] < t[i] || (t[j] == t[i] && j < i)
}

/// The age rank of entry `i`: how many entries come before it.
pub open spec fn age_rank(t: Seq<u64>, i: int) -> nat {
    older_count(t, i, t.len() as int)
}

proof fn lemma_older_count_bound(t: Seq<u64>, i: int, m: int)
    requires
        0 <= m <= t.len(),
    ensures
        older_count(t, i, m) + (if 0 <= i < m {
            1int
        } else {
            0int
        }) <= m,
    decreases m,
{
    if m > 0 {
        lemma_older_count_bound(t, i, m - 1);
    }
}

proof fn lemma_older_count_order(t: Seq<u64>, i: int, j: int, m: int)
    requires
        0 <= i < t.len(),
        0 <= j < t.len(),
        older_than(t, j, i),
        0 <= m <= t.len(),
    ensures
        older_count(t, i, m) >= older_count(t, j, m) + (if j < m {
            1int
        } else {
            0int
        }),
    decreases m,
{
    if m > 0 {
        lemma_older_count_order(t, i, j, m - 1);
    }
}

proof fn lemma_ranks_distinct(t: Seq<u64>, i: int, j: int)
    requires
        0 <= i < t.len(),
        0 <= j < t.len(),
        i != j,
    ensures
        age_rank(t, i) != age_rank(t, j),
{
    if older_than(t, j, i) {
        lemma_older_count_order(t, i, j, t.len() as int);
    } else {
        assert(older_than(t, i, j));
        lemma_older_count_order(t, j, i, t.len() as int);
    }
}

/// Exactly `min(k, n)` of the `n` entries have an age rank below `k`.
proof fn lemma_low_ranks(t: Seq<u64>, k: nat)
    ensures
        Set::new(|i: int| 0 <= i < t.len() && age_rank(t, i) < k).finite(),
        Set::new(|i: int| 0 <= i < t.len() && age_rank(t, i) < k).len() == if k < t.len() {
            k
        } else {
            t.len()
        },
{
    let n = t.len() as int;
    let x = set_int_range(0, n);
    let f = |i: int| age_rank(t, i) as int;
    lemma_int_range(0, n);
    assert(injective_on(f, x)) by {
        assert forall|a: int, b: int| x.contains(a) && x.contains(b) && #[trigger] f(a) == #[trigger] f(b) implies a
            == b by {
            if a != b {
                lemma_ranks_distinct(t, a, b);
            }
        }
    }
    let img = x.map(f);
    lemma_map_size(x, img, f);
    assert(img.subset_of(x)) by {
        assert forall|v: int| img.contains(v) implies x.contains(v) by {
            let a = choose|a: int| x.contains(a) && f(a) == v;
            lemma_older_count_bound(t, a, n);
        }
    }
    lemma_subset_equality(img, x);
    let m: int = if k < n {
        k as int
    } else {
        n
    };
    let y = Set::new(|i: int| 0 <= i < t.len() && age_rank(t, i) < k);
    assert(y.subset_of(x));
    lemma_len_subset(y, x);
    let low = set_int_range(0, m);
    lemma_int_range(0, m);
    assert(y.map(f) == low) by {
        assert forall|v: int| y.map(f).contains(v) implies low.contains(v) by {
            let a = choose|a: int| y.contains(a) && f(a) == v;
            lemma_older_count_bound(t, a, n);
        }
        assert forall|v: int| low.contains(v) implies y.map(f).contains(v) by {
            assert(img.contains(v));
            let a = choose|a: int| x.contains(a) && f(a) == v;
            assert(y.contains(a));
        }
        assert(y.map(f) =~= low);
    }
    lemma_map_size(y, low, f);
}

/// The number of entries of `s` whose flag in `m` is set.
proof fn lemma_masked_count<T>(s: Seq<T>, m: Seq<bool>)
    requires
        m.len() == s.len(),
    ensures
        Set::new(|i: int| 0 <= i < s.len() && m[i]).finite(),
        masked(s, m).len() == Set::new(|i: int| 0 <= i < s.len() && m[i]).len(),
    decreases s.len(),
{
    let all = Set::new(|i: int| 0 <= i < s.len() && m[i]);
    if s.len() == 0 {
        assert(all =~= Set::empty());
    } else {
        let n = s.len() as int;
        lemma_masked_count(s.drop_last(), m.drop_last());
        let prev = Set::new(|i: int| 0 <= i < s.drop_last().len() && m.drop_last()[i]);
        if m.last() {
            assert(all =~= prev.insert(n - 1));
        } else {
            assert(all =~= prev);
        }
    }
}

/// Dropping the `k` oldest of the entries of `s`, stamped `t`, keeps all
/// but `min(k, |s|)` of them.
pub proof fn lemma_drop_oldest_count<T>(s: Seq<T>, t: Seq<u64>, k: nat)
    requires
        t.len() == s.len(),
    ensures
        masked(s, newest_mask(t, k)).len() == s.len() - if k < s.len() {
            k
        } else {
            s.len()
        },
{
    let n = s.len() as int;
    let m = newest_mask(t, k);
    lemma_masked_count(s, m);
    lemma_low_ranks(t, k);
    let kept = Set::new(|i: int| 0 <= i < s.len() && m[i]);
    let dropped = Set::new(|i: int| 0 <= i < t.len() && age_rank(t, i) < k);
    lemma_int_range(0, n);
    assert(kept.disjoint(dropped));
    assert(kept + dropped =~= set_int_range(0, n));
    assert(kept.subset_of(set_int_range(0, n)));
    lemma_len_subset(kept, set_int_range(0, n));
    lemma_set_disjoint_lens(kept, dropped);
}

/// Eviction of a full set of seen-message records drops the quarter of
/// the capacity that is oldest, and at least one record, exactly: after
/// the hour-old records go, when `r` remain and `r >= max`,
/// `min(eviction_quota(max), r)` more are dropped.
pub proof fn lemma_seen_eviction_count(s: Seq<(u64, u64)>, now: u64, max: usize)
    ensures
        ({
            let a = masked(s, fresh_mask(seen_stamps(s), now));
            a.len() >= max ==> seen_after_evict(s, now, max).len() == a.len() - if eviction_quota(max) < a.len() {
                eviction_quota(max) as int
            } else {
                a.len() as int
            }
        }),
{
    let a = masked(s, fresh_mask(seen_stamps(s), now));
    lemma_drop_oldest_count(a, seen_stamps(a), eviction_quota(max));
}

/// Eviction of an over-full message cache drops the quarter of the
/// capacity that is oldest, and at least one message, exactly: after the
/// hour-old messages go, when `r` remain and `r > max`,
/// `min(eviction_quota(max), r)` more are dropped.
pub proof fn lemma_cache_eviction_count(s: Seq<MessageModel>, now: u64, max: usize)
    ensures
        ({
            let a = masked(s, fresh_mask(message_stamps(s), now));
            a.len() > max ==> cache_after_evict(s, now, max).len() == a.len() - if eviction_quota(max) < a.len() {
                eviction_quota(max) as int
            } else {
                a.len() as int
            }
        }),
{
    let a = masked(s, fresh_mask(message_stamps(s), now));
    lemma_drop_oldest_count(a, message_stamps(a), eviction_quota(max));
}

/// Eviction drops the oldest: among entries stamped `t`, dropping the `k`
/// oldest leaves no dropped entry newer than a kept one.
pub proof fn lemma_evicts_oldest(t: Seq<u64>, k: nat)
    ensures
        forall|i: int, j: int|
            0 <= i < t.len() && 0 <= j < t.len() && !#[trigger] newest_mask(t, k)[i] && #[trigger] newest_mask(t, k)[j]
                ==> t[i] <= t[j],
{
    assert forall|i: int, j: int|
        0 <= i < t.len() && 0 <= j < t.len() && !#[trigger] newest_mask(t, k)[i] && #[trigger] newest_mask(t, k)[j]
            implies t[i] <= t[j] by {
        if t[i] > t[j] {
            assert(older_than(t, j, i));
            lemma_older_count_order(t, i, j, t.len() as int);
        }
    }
}

/// A full set of seen-message records, evicted, leaves room for one more:
/// with capacity `max >= 1` and at most `max` records, eviction leaves
/// fewer than `max`.
pub proof fn lemma_seen_eviction_room(s: Seq<(u64, u64)>, now: u64, max: usize)
    requires
        1 <= max,
        s.len() <= max,
    ensures
        seen_after_evict(s, now, max).len() < max,
{
    let a = masked(s, fresh_mask(seen_stamps(s), now));
    lemma_masked_len(s, fresh_mask(seen_stamps(s), now));
    lemma_seen_eviction_count(s, now, max);
}

/// The seen-message records never outgrow their capacity: with capacity
/// `max >= 1` and at most `max` records, recording any id leaves at most
/// `max`.
pub proof fn lemma_seen_bounded(s: Seq<(u64, u64)>, id: u64, ts: u64, now: u64, max: usize)
    requires
        1 <= max,
        s.len() <= max,
    ensures
        seen_after_mark(s, id, ts, now, max).len() <= max,
{
    let e = if s.len() >= max {
        seen_after_evict(s, now, max)
    } else {
        s
    };
    if s.len() >= max {
        lemma_seen_eviction_room(s, now, max);
    }
    lemma_id_position(seen_ids(e), id);
}

/// The message cache never outgrows its capacity: with capacity
/// `max >= 1` and at most `max` messages, storing any message leaves at
/// most `max`.
pub proof fn lemma_cache_bounded(s: Seq<MessageModel>, m: MessageModel, now: u64, max: usize)
    requires
        1 <= max,
        s.len() <= max,
    ensures
        cache_after_insert(s, m, now, max).len() <= max,
{
    let a = message_upsert(s, m);
    lemma_id_position(message_ids(s), m.id);
    if a.len() > max {
        lemma_masked_len(a, fresh_mask(message_stamps(a), now));
        lemma_cache_eviction_count(a, now, max);
    }
}

/// Records `s` with `(id, ts)` stored under `id`: replacing the record for
/// `id` in place, or appended.
pub open spec fn seen_upsert(s: Seq<(u64, u64)>, id: u64, ts: u64) -> Seq<(u64, u64)> {
    if id_position(seen_ids(s), id) >= 0 {
        s.update(id_position(seen_ids(s), id), (id, ts))
    } else {
        s.push((id, ts))
    }
}

/// Seen-message records after recording `id` at `ts`, at time `now`, with
/// capacity `max`: a full record set is evicted first.
pub open spec fn seen_after_mark(s: Seq<(u64, u64)>, id: u64, ts: u64, now: u64, max: usize) -> Seq<(u64, u64)> {
    seen_upsert(
        if s.len() >= max {
            seen_after_evict(s, now, max)
        } else {
            s
        },
        id,
        ts,
    )
}

/// Cached messages after eviction at time `now` with capacity `max`:
/// messages an hour old are dropped; if more than `max` remain, the
/// `eviction_quota(max)` oldest go too.
pub open spec fn cache_after_evict(s: Seq<MessageModel>, now: u64, max: usize) -> Seq<MessageModel> {
    let a = masked(s, fresh_mask(message_stamps(s), now));
    if a.len() > max {
        masked(a, newest_mask(message_stamps(a), eviction_quota(max)))
    } else {
        a
    }
}

/// Messages `s` with `m` stored under its id: replacing the message with
/// that id in place, or appended.
pub open spec fn message_upsert(s: Seq<MessageModel>, m: MessageModel) -> Seq<MessageModel> {
    if id_position(message_ids(s), m.id) >= 0 {
        s.update(id_position(message_ids(s), m.id), m)
    } else {
        s.push(m)
    }
}

/// Cached messages after storing `m` at time `now` with capacity `max`: an
/// over-full cache is evicted after the insertion.
pub open spec fn cache_after_insert(s: Seq<MessageModel>, m: MessageModel, now: u64, max: usize) -> Seq<MessageModel> {
    let a = message_upsert(s, m);
    if a.len() > max {
        cache_after_evict(a, now, max)
    } else {
        a
    }
}

/// The messages of `cached` whose ids are not in `known`, in order.
pub open spec fn missing_of(cached: Seq<MessageModel>, known: Seq<u64>) -> Seq<MessageModel>
    decreases cached.len(),
{
    if cached.len() == 0 {
        seq![]
    } else if known.contains(cached.last().id) {
        missing_of(cached.drop_last(), known)
    } else {
        missing_of(cached.drop_last(), known).push(cached.last())
    }
}

/// Which of `stamps` are younger than an hour at `now`.
pub fn fresh_flags(stamps: &Vec<u64>, now: u64) -> (f: Vec<bool>)
    ensures
        f@ == fresh_mask(stamps@, now),
{
    let mut f: Vec<bool> = Vec::new();
    let mut i: usize = 0;
    while i < stamps.len()
        invariant
            i <= stamps.len(),
            f@.len() == i,
            forall|j: int| 0 <= j < i ==> #[trigger] f@[j] == (now < stamps@[j] + EVICTION_AGE),
        decreases stamps.len() - i,
    {
        f.push(now.saturating_sub(stamps[i]) < EVICTION_AGE);
        i = i + 1;
    }
    assert(f@ =~= fresh_mask(stamps@, now));
    f
}

/// Which of `stamps` survive dropping the `k` oldest.
pub fn newest_flags(stamps: &Vec<u64>, k: usize) -> (f: Vec<bool>)
    ensures
        f@ == newest_mask(stamps@, k as nat),
{
    let n = stamps.len();
    let mut f: Vec<bool> = Vec::new();
    let mut i: usize = 0;
    while i < n
        invariant
            i <= n,
            n == stamps@.len(),
            f@.len() == i,
            forall|j: int| 0 <= j < i ==> #[trigger] f@[j] == (older_count(stamps@, j, n as int) >= k),
        decreases n - i,
    {
        let mut c: usize = 0;
        let mut j: usize = 0;
        while j < n
            invariant
                j <= n,
                i < n,
                n == stamps@.len(),
                c == older_count(stamps@, i as int, j as int),
                c <= j,
            decreases n - j,
        {
            if stamps[j] < stamps[i] || (stamps[j] == stamps[i] && j < i) {
                c = c + 1;
            }
            j = j + 1;
        }
        f.push(c >= k);
        i = i + 1;
    }
    assert(f@ =~= newest_mask(stamps@, k as nat));
    f
}

/// The timestamps of `v`, in order.
fn stamp_list(v: &Vec<Message>) -> (t: Vec<u64>)
    ensures
        t@ == message_stamps(messages_model(v@)),
{
    let mut t: Vec<u64> = Vec::new();
    let mut i: usize = 0;
    while i < v.len()
        invariant
            i <= v@.len(),
            t@ == message_stamps(messages_model(v@)).take(i as int),
        decreases v.len() - i,
    {
        t.push(v[i].timestamp);
        i = i + 1;
        assert(t@ =~= message_stamps(messages_model(v@)).take(i as int));
    }
    assert(t@ =~= message_stamps(messages_model(v@)));
    t
}

/// The timestamps of seen-message records `v`, in order.
fn seen_stamp_list(v: &Vec<(u64, u64)>) -> (t: Vec<u64>)
    ensures
        t@ == seen_stamps(v@),
{
    let mut t: Vec<u64> = Vec::new();
    let mut i: usize = 0;
    while i < v.len()
        invariant
            i <= v@.len(),
            t@ == seen_stamps(v@).take(i as int),
        decreases v.len() - i,
    {
        t.push(v[i].1);
        i = i + 1;
        assert(t@ =~= seen_stamps(v@).take(i as int));
    }
    assert(t@ =~= seen_stamps(v@));
    t
}

/// Keeps the entries of `v` whose flag is set, in order.
pub fn retain_flagged<T>(v: &mut Vec<T>, flags: &Vec<bool>)
    requires
        old(v)@.len() == flags@.len(),
    ensures
        final(v)@ == masked(old(v)@, flags@),
{
    let ghost s0 = v@;
    let n = flags.len();
    let mut i: usize = 0;
    let mut j: usize = 0;
    while j < n
        invariant
            j <= n,
            n == s0.len(),
            n == flags@.len(),
            i <= j,
            i == masked(s0.take(j as int), flags@.take(j as int)).len(),
            v@ == masked(s0.take(j as int), flags@.take(j as int)) + s0.skip(j as int),
        decreases n - j,
    {
        proof {
            lemma_masked_len(s0.take(j as int), flags@.take(j as int));
            assert(s0.take(j as int + 1).drop_last() =~= s0.take(j as int));
            assert(flags@.take(j as int + 1).drop_last() =~= flags@.take(j as int));
            assert(s0.take(j as int + 1).last() == s0[j as int]);
            assert(flags@.take(j as int + 1).last() == flags@[j as int]);
            assert(v@[i as int] == s0[j as int]);
        }
        if flags[j] {
            i = i + 1;
        } else {
            v.remove(i);
        }
        assert(v@ =~= masked(s0.take(j as int + 1), flags@.take(j as int + 1)) + s0.skip(j as int + 1));
        j = j + 1;
    }
    assert(s0.take(n as int) =~= s0);
    assert(flags@.take(n as int) =~= flags@);
    assert(v@ =~= masked(s0, flags@));
}

proof fn lemma_masked_messages(s: Seq<Message>, m: Seq<bool>)
    ensures
        messages_model(masked(s, m)) == masked(messages_model(s), m),
    decreases s.len(),
{
    if s.len() > 0 {
        lemma_masked_messages(s.drop_last(), m.drop_last());
        assert(messages_model(s).drop_last() =~= messages_model(s.drop_last()));
        assert(messages_model(masked(s.drop_last(), m.drop_last()).push(s.last())) =~= messages_model(
            masked(s.drop_last(), m.drop_last()),
        ).push(s.last()@));
    } else {
        assert(messages_model(masked(s, m)) =~= masked(messages_model(s), m));
    }
}

/// Keeping some of a sequence of messages with distinct ids keeps the ids
/// distinct, and keeps only ids that were there.
proof fn lemma_masked_ids_distinct(s: Seq<MessageModel>, m: Seq<bool>)
    requires
        message_ids(s).no_duplicates(),
    ensures
        message_ids(masked(s, m)).no_duplicates(),
        forall|k: u64| message_ids(masked(s, m)).contains(k) ==> message_ids(s).contains(k),
    decreases s.len(),
{
    if s.len() > 0 {
        let rest = s.drop_last();
        let n = s.len() as int;
        assert(message_ids(rest) =~= message_ids(s).drop_last());
        assert(message_ids(rest).no_duplicates()) by {
            assert forall|i: int, j: int|
                0 <= i < message_ids(rest).len() && 0 <= j < message_ids(rest).len() && i != j implies message_ids(
                rest,
            )[i] != message_ids(rest)[j] by {
                assert(message_ids(rest)[i] == message_ids(s)[i]);
                assert(message_ids(rest)[j] == message_ids(s)[j]);
            }
        }
        lemma_masked_ids_distinct(rest, m.drop_last());
        let inner = masked(rest, m.drop_last());
        if m.last() {
            let l = s.last();
            assert(message_ids(masked(s, m)) =~= message_ids(inner).push(l.id));
            assert(message_ids(s)[n - 1] == l.id);
            if message_ids(inner).contains(l.id) {
                assert(message_ids(rest).contains(l.id));
                let j = choose|j: int| 0 <= j < message_ids(rest).len() && message_ids(rest)[j] == l.id;
                assert(message_ids(rest)[j] == message_ids(s)[j]);
                assert(message_ids(s)[j] == message_ids(s)[n - 1]);
                assert(false);
            }
            assert forall|k: u64| message_ids(masked(s, m)).contains(k) implies message_ids(s).contains(k) by {
                let w = choose|w: int| 0 <= w < message_ids(masked(s, m)).len() && message_ids(masked(s, m))[w] == k;
                if w < message_ids(inner).len() {
                    assert(message_ids(inner)[w] == k);
                    assert(message_ids(inner).contains(k));
                    assert(message_ids(rest).contains(k));
                    let j = choose|j: int| 0 <= j < message_ids(rest).len() && message_ids(rest)[j] == k;
                    assert(message_ids(rest)[j] == message_ids(s)[j]);
                    assert(message_ids(s)[j] == k);
                } else {
                    assert(message_ids(s)[n - 1] == k);
                }
            }
        } else {
            assert forall|k: u64| message_ids(masked(s, m)).contains(k) implies message_ids(s).contains(k) by {
                assert(message_ids(masked(s, m)) == message_ids(inner));
                assert(message_ids(rest).contains(k));
                let j = choose|j: int| 0 <= j < message_ids(rest).len() && message_ids(rest)[j] == k;
                assert(message_ids(rest)[j] == message_ids(s)[j]);
                assert(message_ids(s)[j] == k);
            }
        }
    }
}

/// Storing a message under its id keeps the ids distinct.
proof fn lemma_upsert_ids_distinct(s: Seq<MessageModel>, m: MessageModel)
    requires
        message_ids(s).no_duplicates(),
    ensures
        message_ids(message_upsert(s, m)).no_duplicates(),
{
    lemma_id_position(message_ids(s), m.id);
    let p = id_position(message_ids(s), m.id);
    if p >= 0 {
        assert(message_ids(message_upsert(s, m)) =~= message_ids(s));
    } else {
        assert(message_ids(message_upsert(s, m)) =~= message_ids(s).push(m.id));
    }
}

/// Eviction keeps the cached ids distinct.
proof fn lemma_evict_ids_distinct(s: Seq<MessageModel>, now: u64, max: usize)
    requires
        message_ids(s).no_duplicates(),
    ensures
        message_ids(cache_after_evict(s, now, max)).no_duplicates(),
{
    let f = fresh_mask(message_stamps(s), now);
    lemma_masked_ids_distinct(s, f);
    let a = masked(s, f);
    lemma_masked_ids_distinct(a, newest_mask(message_stamps(a), eviction_quota(max)));
}

/// Abstract value of a [`MessageCache`].
pub struct CacheModel {
    /// Seen-message ids with the time each was recorded.
    pub seen: Seq<(u64, u64)>,
    /// Cached messages.
    pub cached: Seq<MessageModel>,
    /// Capacity of each.
    pub max_size: usize,
}

/// Message cache for deduplication and anti-entropy.
#[derive(Debug)]
pub struct MessageCache {
    /// Known message ids with timestamps, in insertion order.
    known_messages: Vec<(u64, u64)>,
    /// Cached messages, in insertion order.
    message_cache: Vec<Message>,
    /// Maximum cache size.
    max_size: usize,
}

impl View for MessageCache {
    type V = CacheModel;

    closed spec fn view(&self) -> CacheModel {
        CacheModel {
            seen: self.known_messages@,
            cached: messages_model(self.message_cache@),
            max_size: self.max_size,
        }
    }
}

impl MessageCache {
    /// No two cached messages share an id.
    #[verifier::type_invariant]
    spec fn cached_ids_distinct(self) -> bool {
        message_ids(messages_model(self.message_cache@)).no_duplicates()
    }

    /// An empty cache holding up to `max_size` entries.
    pub fn new(max_size: usize) -> (c: Self)
        ensures
            c@.seen == Seq::<(u64, u64)>::empty(),
            c@.cached == Seq::<MessageModel>::empty(),
            c@.max_size == max_size,
    {
        let c = MessageCache { known_messages: Vec::new(), message_cache: Vec::new(), max_size };
        assert(c@.cached =~= Seq::<MessageModel>::empty());
        c
    }

    /// Whether the message `message_id` has been seen.
    pub fn has_seen(&self, message_id: u64) -> (b: bool)
        ensures
            b == seen_ids(self@.seen).contains(message_id),
    {
        let mut i: usize = 0;
        while i < self.known_messages.len()
            invariant
                i <= self.known_messages@.len(),
                forall|j: int| 0 <= j < i ==> #[trigger] self.known_messages@[j].0 != message_id,
            decreases self.known_messages.len() - i,
        {
            if self.known_messages[i].0 == message_id {
                assert(seen_ids(self@.seen)[i as int] == message_id);
                return true;
            }
            i = i + 1;
        }
        proof {
            if seen_ids(self@.seen).contains(message_id) {
                let w = choose|w: int| 0 <= w < seen_ids(self@.seen).len() && seen_ids(self@.seen)[w] == message_id;
                assert(self.known_messages@[w].0 == message_id);
            }
        }
        false
    }

    /// How many of the oldest entries a full store drops.
    fn quota(&self) -> (q: usize)
        ensures
            q == eviction_quota(self.max_size),
    {
        if self.max_size / 4 < 1 {
            1
        } else {
            self.max_size / 4
        }
    }

    /// Number of seen-message records.
    pub fn seen_count(&self) -> (n: usize)
        ensures
            n == self@.seen.len(),
    {
        self.known_messages.len()
    }

    /// Number of cached messages.
    pub fn cached_count(&self) -> (n: usize)
        ensures
            n == self@.cached.len(),
    {
        self.message_cache.len()
    }

    /// Drop seen-message records as eviction at time `now` does.
    pub fn evict_old_messages_at(&mut self, now: u64)
        ensures
            final(self)@ == (CacheModel { seen: seen_after_evict(old(self)@.seen, now, old(self)@.max_size), ..old(self)@ }),
    {
        proof {
            use_type_invariant(&*self);
        }
        let mut seen: Vec<(u64, u64)> = Vec::new();
        std::mem::swap(&mut seen, &mut self.known_messages);
        let stamps = seen_stamp_list(&seen);
        let fresh = fresh_flags(&stamps, now);
        retain_flagged(&mut seen, &fresh);
        if seen.len() >= self.max_size {
            let stamps2 = seen_stamp_list(&seen);
            let keep = newest_flags(&stamps2, self.quota());
            retain_flagged(&mut seen, &keep);
        }
        self.known_messages = seen;
    }

    /// Drop seen-message records as eviction by the current clock does.
    pub fn evict_old_messages(&mut self)
        ensures
            exists|now: u64| #[trigger] seen_after_evict(old(self)@.seen, now, old(self)@.max_size) == final(self)@.seen,
            final(self)@.cached == old(self)@.cached,
            final(self)@.max_size == old(self)@.max_size,
    {
        let now = unix_time_secs();
        self.evict_old_messages_at(now);
    }

    /// Record that `message_id` was seen at `timestamp`, evicting first
    /// (at time `now`) when the records are full.
    pub fn mark_seen_at(&mut self, message_id: u64, timestamp: u64, now: u64)
        ensures
            final(self)@ == (CacheModel {
                seen: seen_after_mark(old(self)@.seen, message_id, timestamp, now, old(self)@.max_size),
                ..old(self)@
            }),
            seen_ids(final(self)@.seen).contains(message_id),
            1 <= old(self)@.max_size && old(self)@.seen.len() <= old(self)@.max_size ==> final(self)@.seen.len()
                <= final(self)@.max_size,
    {
        proof {
            if 1 <= self.max_size && self.known_messages@.len() <= self.max_size {
                lemma_seen_bounded(self.known_messages@, message_id, timestamp, now, self.max_size);
            }
        }
        if self.known_messages.len() >= self.max_size {
            self.evict_old_messages_at(now);
        }
        let ghost s = self.known_messages@;
        let mut i: usize = 0;
        let mut found: Option<usize> = None;
        while i < self.known_messages.len()
            invariant
                i <= self.known_messages@.len(),
                self.known_messages@ == s,
                match found {
                    Some(p) => p < i && p == id_position(seen_ids(s).take(i as int), message_id),
                    None => id_position(seen_ids(s).take(i as int), message_id) == -1,
                },
            decreases self.known_messages.len() - i,
        {
            proof {
                assert(seen_ids(s).take(i as int + 1).drop_last() =~= seen_ids(s).take(i as int));
            }
            if self.known_messages[i].0 == message_id {
                found = Some(i);
            }
            i = i + 1;
        }
        proof {
            assert(seen_ids(s).take(s.len() as int) =~= seen_ids(s));
            lemma_id_position(seen_ids(s), message_id);
        }
        proof {
            use_type_invariant(&*self);
        }
        let mut seen: Vec<(u64, u64)> = Vec::new();
        std::mem::swap(&mut seen, &mut self.known_messages);
        match found {
            Some(p) => {
                seen.set(p, (message_id, timestamp));
                assert(seen_ids(seen@)[p as int] == message_id);
            },
            None => {
                seen.push((message_id, timestamp));
                assert(seen_ids(seen@)[s.len() as int] == message_id);
            },
        }
        self.known_messages = seen;
    }

    /// Record that `message_id` was seen at `timestamp`, evicting first (by
    /// the current clock) when the records are full.
    pub fn mark_seen(&mut self, message_id: u64, timestamp: u64)
        ensures
            exists|now: u64|
                #[trigger] seen_after_mark(old(self)@.seen, message_id, timestamp, now, old(self)@.max_size)
                    == final(self)@.seen,
            final(self)@.cached == old(self)@.cached,
            final(self)@.max_size == old(self)@.max_size,
            seen_ids(final(self)@.seen).contains(message_id),
            1 <= old(self)@.max_size && old(self)@.seen.len() <= old(self)@.max_size ==> final(self)@.seen.len()
                <= final(self)@.max_size,
    {
        let now = unix_time_secs();
        self.mark_seen_at(message_id, timestamp, now);
    }

    /// Position of the cached message with id `hash`, if any.
    fn find_message(&self, hash: u64) -> (r: Option<usize>)
        ensures
            match r {
                Some(p) => p == id_position(message_ids(self@.cached), hash) && p < self@.cached.len(),
                None => id_position(message_ids(self@.cached), hash) == -1,
            },
    {
        let ghost s = message_ids(self@.cached);
        let mut i: usize = 0;
        let mut found: Option<usize> = None;
        while i < self.message_cache.len()
            invariant
                i <= self.message_cache@.len(),
                s == message_ids(messages_model(self.message_cache@)),
                match found {
                    Some(p) => p < i && p == id_position(s.take(i as int), hash),
                    None => id_position(s.take(i as int), hash) == -1,
                },
            decreases self.message_cache.len() - i,
        {
            proof {
                assert(s.take(i as int + 1).drop_last() =~= s.take(i as int));
            }
            if self.message_cache[i].id == hash {
                found = Some(i);
            }
            i = i + 1;
        }
        proof {
            assert(s.take(s.len() as int) =~= s);
        }
        found
    }

    /// The cached message with id `hash`.
    pub fn get_message(&self, hash: u64) -> (m: Option<&Message>)
        ensures
            id_position(message_ids(self@.cached), hash) == -1 ==> m is None,
            id_position(message_ids(self@.cached), hash) >= 0 ==> (m matches Some(x) && x@
                == self@.cached[id_position(message_ids(self@.cached), hash)]),
    {
        match self.find_message(hash) {
            Some(p) => Some(&self.message_cache[p]),
            None => None,
        }
    }

    /// The ids of the cached messages, in order.
    pub fn known_message_hashes(&self) -> (v: Vec<u64>)
        ensures
            v@ == message_ids(self@.cached),
            v@.no_duplicates(),
    {
        proof {
            use_type_invariant(self);
        }
        let mut v: Vec<u64> = Vec::new();
        let mut i: usize = 0;
        while i < self.message_cache.len()
            invariant
                i <= self.message_cache@.len(),
                v@ == message_ids(self@.cached).take(i as int),
            decreases self.message_cache.len() - i,
        {
            v.push(self.message_cache[i].id);
            i = i + 1;
            assert(v@ =~= message_ids(self@.cached).take(i as int));
        }
        assert(v@ =~= message_ids(self@.cached));
        v
    }

    /// Drop cached messages as eviction at time `now` does.
    pub fn evict_old_messages_from_cache_at(&mut self, now: u64)
        ensures
            final(self)@ == (CacheModel { cached: cache_after_evict(old(self)@.cached, now, old(self)@.max_size), ..old(self)@ }),
    {
        proof {
            use_type_invariant(&*self);
            lemma_evict_ids_distinct(self@.cached, now, self.max_size);
        }
        let ghost old_cached = self@.cached;
        let stamps = self.message_stamp_list();
        let fresh = fresh_flags(&stamps, now);
        let q = self.quota();
        let mut cache: Vec<Message> = Vec::new();
        std::mem::swap(&mut cache, &mut self.message_cache);
        let ghost before = cache@;
        retain_flagged(&mut cache, &fresh);
        proof {
            lemma_masked_messages(before, fresh@);
        }
        if cache.len() > self.max_size {
            let stamps2 = stamp_list(&cache);
            let keep = newest_flags(&stamps2, q);
            let ghost mid = cache@;
            retain_flagged(&mut cache, &keep);
            proof {
                lemma_masked_messages(mid, keep@);
            }
        }
        assert(messages_model(cache@) == cache_after_evict(old_cached, now, self.max_size));
        self.message_cache = cache;
    }

    /// Drop cached messages as eviction by the current clock does.
    pub fn evict_old_messages_from_cache(&mut self)
        ensures
            exists|now: u64| #[trigger] cache_after_evict(old(self)@.cached, now, old(self)@.max_size) == final(self)@.cached,
            final(self)@.seen == old(self)@.seen,
            final(self)@.max_size == old(self)@.max_size,
    {
        let now = unix_time_secs();
        self.evict_old_messages_from_cache_at(now);
    }

    /// The timestamps of the cached messages, in order.
    fn message_stamp_list(&self) -> (v: Vec<u64>)
        ensures
            v@ == message_stamps(self@.cached),
    {
        let mut v: Vec<u64> = Vec::new();
        let mut i: usize = 0;
        while i < self.message_cache.len()
            invariant
                i <= self.message_cache@.len(),
                v@ == message_stamps(self@.cached).take(i as int),
            decreases self.message_cache.len() - i,
        {
            v.push(self.message_cache[i].timestamp);
            i = i + 1;
            assert(v@ =~= message_stamps(self@.cached).take(i as int));
        }
        assert(v@ =~= message_stamps(self@.cached));
        v
    }

    /// Store `message` under its id, then evict (at time `now`) if the
    /// cache holds more than its capacity.
    pub fn cache_message_at(&mut self, message: Message, now: u64)
        ensures
            final(self)@ == (CacheModel {
                cached: cache_after_insert(old(self)@.cached, message@, now, old(self)@.max_size),
                ..old(self)@
            }),
            1 <= old(self)@.max_size && old(self)@.cached.len() <= old(self)@.max_size ==> final(self)@.cached.len()
                <= final(self)@.max_size,
    {
        proof {
            if 1 <= self.max_size && self@.cached.len() <= self.max_size {
                lemma_cache_bounded(self@.cached, message@, now, self.max_size);
            }
        }
        proof {
            use_type_invariant(&*self);
            lemma_upsert_ids_distinct(self@.cached, message@);
        }
        let ghost before = self.message_cache@;
        let ghost m = message@;
        let found = self.find_message(message.id);
        let mut cache: Vec<Message> = Vec::new();
        std::mem::swap(&mut cache, &mut self.message_cache);
        match found {
            Some(p) => {
                cache.set(p, message);
            },
            None => {
                cache.push(message);
            },
        }
        assert(messages_model(cache@) =~= message_upsert(messages_model(before), m));
        self.message_cache = cache;
        if self.message_cache.len() > self.max_size {
            self.evict_old_messages_from_cache_at(now);
        }
    }

    /// Store `message` under its id, then evict (by the current clock) if
    /// the cache holds more than its capacity.
    pub fn cache_message(&mut self, message: Message)
        ensures
            exists|now: u64|
                #[trigger] cache_after_insert(old(self)@.cached, message@, now, old(self)@.max_size)
                    == final(self)@.cached,
            final(self)@.seen == old(self)@.seen,
            final(self)@.max_size == old(self)@.max_size,
            1 <= old(self)@.max_size && old(self)@.cached.len() <= old(self)@.max_size ==> final(self)@.cached.len()
                <= final(self)@.max_size,
    {
        let now = unix_time_secs();
        self.cache_message_at(message, now);
    }

    /// Copies of the cached messages whose ids are not in `known`, in order.
    pub fn missing_from(&self, known: &Vec<u64>) -> (v: Vec<Message>)
        ensures
            messages_model(v@) == missing_of(self@.cached, known@),
    {
        let mut v: Vec<Message> = Vec::new();
        let mut i: usize = 0;
        while i < self.message_cache.len()
            invariant
                i <= self.message_cache@.len(),
                messages_model(v@) == missing_of(self@.cached.take(i as int), known@),
            decreases self.message_cache.len() - i,
        {
            let m = &self.message_cache[i];
            let mut present = false;
            let mut j: usize = 0;
            while j < known.len()
                invariant
                    j <= known@.len(),
                    present == known@.take(j as int).contains(m.id),
                decreases known.len() - j,
            {
                proof {
                    let t = known@.take(j as int + 1);
                    if t.contains(m.id) {
                        let w = choose|w: int| 0 <= w < t.len() && t[w] == m.id;
                        if w < j {
                            assert(known@.take(j as int)[w] == m.id);
                        }
                    }
                    if known@.take(j as int).contains(m.id) {
                        let w = choose|w: int| 0 <= w < j && known@.take(j as int)[w] == m.id;
                        assert(t[w] == m.id);
                    }
                    if known@[j as int] == m.id {
                        assert(t[j as int] == m.id);
                    }
                }
                if known[j] == m.id {
                    present = true;
                }
                j = j + 1;
            }
            proof {
                assert(known@.take(known@.len() as int) =~= known@);
                let t = self@.cached.take(i as int + 1);
                assert(t.drop_last() =~= self@.cached.take(i as int));
                assert(t.last() == m@);
            }
            let ghost before = v@;
            if !present {
                v.push(m.clone());
                assert(messages_model(v@) =~= messages_model(before).push(m@));
            }
            i = i + 1;
        }
        assert(self@.cached.take(self@.cached.len() as int) =~= self@.cached);
        v
    }
}

/// Law: a sync reply carries exactly the cached messages the requester
/// does not know. Every message it carries is cached and has an id not
/// among `known`; every cached message whose id is not among `known` is
/// carried.
pub proof fn lemma_missing_of(cached: Seq<MessageModel>, known: Seq<u64>)
    ensures
        forall|i: int|
            0 <= i < missing_of(cached, known).len() ==> !known.contains((#[trigger] missing_of(cached, known)[i]).id)
                && cached.contains(missing_of(cached, known)[i]),
        forall|m: MessageModel| cached.contains(m) && !known.contains(m.id) ==> #[trigger] missing_of(cached, known).contains(m),
    decreases cached.len(),
{
    if cached.len() > 0 {
        let rest = cached.drop_last();
        let l = cached.last();
        lemma_missing_of(rest, known);
        let inner = missing_of(rest, known);
        let r = missing_of(cached, known);
        assert forall|i: int| 0 <= i < r.len() implies !known.contains((#[trigger] r[i]).id) && cached.contains(r[i]) by {
            if i < inner.len() {
                assert(r[i] == inner[i]);
                let w = choose|w: int| 0 <= w < rest.len() && rest[w] == inner[i];
                assert(cached[w] == inner[i]);
            } else {
                assert(r[i] == l);
                assert(cached[cached.len() - 1] == l);
            }
        }
        assert forall|m: MessageModel| cached.contains(m) && !known.contains(m.id) implies #[trigger] r.contains(m) by {
            let w = choose|w: int| 0 <= w < cached.len() && cached[w] == m;
            if w < cached.len() - 1 {
                assert(rest[w] == m);
                assert(inner.contains(m));
                let v = choose|v: int| 0 <= v < inner.len() && inner[v] == m;
                assert(r[v] == m);
            } else {
                assert(r[r.len() - 1] == m);
            }
        }
    }
}

} // verus!
