//! A sliding-window byte counter: it remembers how many bytes were seen at
//! which instant and forgets samples once they are older than its interval.
//!
//! Instants and intervals are nanoseconds since the UNIX epoch.

use crate::clock;
use std::collections::VecDeque;
use vstd::prelude::*;

verus! {

broadcast use vstd::std_specs::vecdeque::group_vec_dequeue_axioms;

/// One second, in nanoseconds: the interval of a counter made by `new`.
pub const DEFAULT_SAMPLE_INTERVAL_NANOS: u128 = 1_000_000_000;

/// A sample taken at `now` of an event at `at` is out of the window when more
/// than `interval` has passed since `at` (an event in the future never is).
pub open spec fn expired(now: u128, at: u128, interval: u128) -> bool {
    now - at > interval
}

/// The sum of the byte counts of the samples.
pub open spec fn window_sum(samples: Seq<(u128, usize)>) -> int
    decreases samples.len(),
{
    if samples.len() == 0 {
        0
    } else {
        samples[0].1 + window_sum(samples.drop_first())
    }
}

/// How many samples at the front of the sequence are expired at `now`.
pub open spec fn expired_prefix_len(samples: Seq<(u128, usize)>, now: u128, interval: u128) -> nat
    decreases samples.len(),
{
    if samples.len() == 0 {
        0
    } else if expired(now, samples[0].0, interval) {
        1 + expired_prefix_len(samples.drop_first(), now, interval)
    } else {
        0
    }
}

/// The samples left after dropping, from the front, every sample that is
/// expired at `now`, up to the first one that is not.
pub open spec fn trimmed(samples: Seq<(u128, usize)>, now: u128, interval: u128) -> Seq<(u128, usize)> {
    samples.skip(expired_prefix_len(samples, now, interval) as int)
}

pub struct ByteRateCounter {
    samples: VecDeque<(u128, usize)>,
    sample_interval: u128,
    total: usize,
}

impl ByteRateCounter {
    /// The samples currently in the window, oldest first: instant and byte count.
    pub closed spec fn samples(&self) -> Seq<(u128, usize)> {
        self.samples@
    }

    /// The length of the window, in nanoseconds.
    pub closed spec fn interval(&self) -> u128 {
        self.sample_interval
    }

    /// The running total kept beside the samples.
    pub closed spec fn total(&self) -> usize {
        self.total
    }

    /// The running total is the sum of the samples in the window.
    pub open spec fn wf(&self) -> bool {
        self.total() == window_sum(self.samples())
    }

    /// A counter with an empty window of one second.
    pub fn new() -> (c: Self)
        ensures
            c.wf(),
            c.samples() == Seq::<(u128, usize)>::empty(),
            c.total() == 0,
            c.interval() == DEFAULT_SAMPLE_INTERVAL_NANOS,
    {
        Self::default()
    }

    /// A counter with an empty window of the given length.
    pub fn over_internal(sample_interval_nanos: u128) -> (c: Self)
        ensures
            c.wf(),
            c.samples() == Seq::<(u128, usize)>::empty(),
            c.total() == 0,
            c.interval() == sample_interval_nanos,
    {
        ByteRateCounter { samples: VecDeque::new(), sample_interval: sample_interval_nanos, total: 0 }
    }

    /// The length of the window, in nanoseconds.
    pub fn sample_interval_nanos(&self) -> (n: u128)
        ensures
            n == self.interval(),
    {
        self.sample_interval
    }

    /// The bytes in the window as it stands, without dropping anything.
    pub fn running_total(&self) -> (n: usize)
        ensures
            n == self.total(),
    {
        self.total
    }

    /// Records `count` bytes seen at `now`, then drops what is expired at `now`.
    pub fn update_at(&mut self, now: u128, count: usize)
        requires
            old(self).wf(),
            old(self).total() + count <= usize::MAX,
        ensures
            final(self).wf(),
            final(self).interval() == old(self).interval(),
            final(self).samples() == trimmed(old(self).samples().push((now, count)), now, old(self).interval()),
            final(self).samples().len() > 0,
            final(self).samples().last() == (now, count),
            final(self).total() >= count,
    {
        let ghost before = self.samples@;
        self.samples.push_back((now, count));
        proof {
            lemma_window_sum_push(before, (now, count));
        }
        self.total = self.total + count;
        self.trim(now);
        proof {
            let pushed = before.push((now, count));
            lemma_trimmed_keeps_unexpired(pushed, now, self.sample_interval, pushed.len() - 1);
            lemma_window_sum_last_le(self.samples@);
        }
    }

    /// Records `count` bytes seen now, by the system clock.
    pub fn update(&mut self, count: usize)
        requires
            old(self).wf(),
            old(self).total() + count <= usize::MAX,
        ensures
            final(self).wf(),
            final(self).interval() == old(self).interval(),
            exists|now: u128|
                #[trigger] trimmed(old(self).samples().push((now, count)), now, old(self).interval())
                    == final(self).samples(),
    {
        let now = get_timestamp();
        self.update_at(now, count);
    }

    /// Drops what is expired at `now` and returns the bytes left in the window.
    pub fn count_at(&mut self, now: u128) -> (n: usize)
        requires
            old(self).wf(),
        ensures
            final(self).wf(),
            final(self).interval() == old(self).interval(),
            final(self).samples() == trimmed(old(self).samples(), now, old(self).interval()),
            n == window_sum(final(self).samples()),
    {
        self.trim(now);
        self.total
    }

    /// Drops what is expired now, by the system clock, and returns the bytes
    /// left in the window.
    pub fn count(&mut self) -> (n: usize)
        requires
            old(self).wf(),
        ensures
            final(self).wf(),
            final(self).interval() == old(self).interval(),
            exists|now: u128|
                #[trigger] trimmed(old(self).samples(), now, old(self).interval()) == final(self).samples(),
            n == window_sum(final(self).samples()),
    {
        let now = get_timestamp();
        self.count_at(now)
    }

    /// Drops, from the front, the samples that are expired at `now`, up to
    /// the first that is not; the running total follows.
    pub fn trim(&mut self, now: u128)
        requires
            old(self).wf(),
        ensures
            final(self).wf(),
            final(self).interval() == old(self).interval(),
            final(self).samples() == trimmed(old(self).samples(), now, old(self).interval()),
    {
        let ghost start = self.samples@;
        let ghost interval = self.sample_interval;
        loop
            invariant_except_break
                self.wf(),
                self.sample_interval == interval,
                trimmed(self.samples@, now, interval) == trimmed(start, now, interval),
            ensures
                self.wf(),
                self.sample_interval == interval,
                self.samples@ == trimmed(start, now, interval),
            decreases self.samples@.len(),
        {
            if self.samples.len() == 0 {
                assert(self.samples@.skip(0) =~= self.samples@);
                break;
            }
            let (at, _) = self.samples[0];
            if now.saturating_sub(at) > self.sample_interval {
                let ghost cur = self.samples@;
                assert(expired(now, cur[0].0, interval));
                let popped = self.samples.pop_front();
                proof {
                    assert(self.samples@ =~= cur.drop_first());
                    lemma_window_sum_nonneg(cur.drop_first());
                    lemma_expired_prefix_len_bound(cur.drop_first(), now, interval);
                    assert(expired_prefix_len(cur, now, interval)
                        == 1 + expired_prefix_len(cur.drop_first(), now, interval));
                    assert(cur.skip(expired_prefix_len(cur, now, interval) as int)
                        =~= cur.drop_first().skip(expired_prefix_len(cur.drop_first(), now, interval) as int));
                }
                match popped {
                    Some((_, count)) => {
                        self.total = self.total - count;
                    },
                    None => {},
                }
            } else {
                assert(self.samples@.skip(0) =~= self.samples@);
                break;
            }
        }
    }
}

impl Default for ByteRateCounter {
    fn default() -> (c: Self)
        ensures
            c.wf(),
            c.samples() == Seq::<(u128, usize)>::empty(),
            c.total() == 0,
            c.interval() == DEFAULT_SAMPLE_INTERVAL_NANOS,
    {
        ByteRateCounter {
            samples: VecDeque::new(),
            sample_interval: DEFAULT_SAMPLE_INTERVAL_NANOS,
            total: 0,
        }
    }
}

/// The current time by the system clock, in nanoseconds since the UNIX epoch.
pub(crate) fn get_timestamp() -> (n: u128)
    ensures
        exists|t: clock::UnixTime| t.wf() && #[trigger] t.spec_total_nanos() == n,
{
    let t = clock::unix_time_now();
    t.total_nanos()
}

/// Counting twice at the same instant counts the same: trimming a window at
/// `now` leaves nothing that a second trim at `now` would drop.
pub proof fn lemma_trim_idempotent(samples: Seq<(u128, usize)>, now: u128, interval: u128)
    ensures
        trimmed(trimmed(samples, now, interval), now, interval) == trimmed(samples, now, interval),
{
    let k = expired_prefix_len(samples, now, interval);
    let t = trimmed(samples, now, interval);
    lemma_expired_prefix_len_bound(samples, now, interval);
    lemma_first_after_prefix_unexpired(samples, now, interval);
    if t.len() > 0 {
        assert(t[0] == samples[k as int]);
        assert(expired_prefix_len(t, now, interval) == 0);
    }
    assert(t.skip(0) =~= t);
}

/// Time only shrinks a window that receives no new samples: trimming at
/// `earlier` and then at `later` drops exactly what trimming at `later`
/// alone drops, and the bytes counted at `later` are no more than those
/// counted at `earlier`.
pub proof fn lemma_later_trim_subsumes(samples: Seq<(u128, usize)>, earlier: u128, later: u128, interval: u128)
    requires
        earlier <= later,
    ensures
        trimmed(trimmed(samples, earlier, interval), later, interval) == trimmed(samples, later, interval),
        window_sum(trimmed(samples, later, interval)) <= window_sum(trimmed(samples, earlier, interval)),
{
    let k1 = expired_prefix_len(samples, earlier, interval);
    let k2 = expired_prefix_len(samples, later, interval);
    lemma_expired_prefix_len_bound(samples, earlier, interval);
    lemma_expired_prefix_len_bound(samples, later, interval);
    lemma_expired_prefix_monotone(samples, earlier, later, interval);
    lemma_expired_prefix_split(samples, later, interval, k1);
    assert(samples.skip(k1 as int).skip((k2 - k1) as int) =~= samples.skip(k2 as int));
    lemma_window_sum_skip_monotone(samples, k1 as int, k2 as int);
}

/// Bytes recorded at `recorded` are still counted at any instant up to one
/// interval later: the window then holds at least those bytes.
pub proof fn lemma_recorded_bytes_counted_within_interval(
    samples: Seq<(u128, usize)>,
    recorded: u128,
    n: usize,
    later: u128,
    interval: u128,
)
    requires
        recorded <= later <= recorded + interval,
    ensures
        window_sum(
            trimmed(trimmed(samples.push((recorded, n)), recorded, interval), later, interval),
        ) >= n,
{
    let pushed = samples.push((recorded, n));
    lemma_expired_prefix_len_bound(pushed, recorded, interval);
    lemma_trimmed_keeps_unexpired(pushed, recorded, interval, pushed.len() - 1);
    let w = trimmed(pushed, recorded, interval);
    assert(w.len() > 0 && w.last() == (recorded, n));
    lemma_expired_prefix_len_bound(w, later, interval);
    lemma_trimmed_keeps_unexpired(w, later, interval, w.len() - 1);
    let w2 = trimmed(w, later, interval);
    assert(w2.len() > 0 && w2.last() == (recorded, n));
    lemma_window_sum_last_le(w2);
}

/// Trimming at `now` drops exactly the longest run of samples at the front
/// that are expired at `now`: every dropped sample is expired, and the first
/// kept one, if any, is not.
pub proof fn lemma_trim_drops_expired_prefix(samples: Seq<(u128, usize)>, now: u128, interval: u128)
    ensures
        expired_prefix_len(samples, now, interval) <= samples.len(),
        trimmed(samples, now, interval) == samples.skip(expired_prefix_len(samples, now, interval) as int),
        forall|i: int|
            0 <= i < expired_prefix_len(samples, now, interval) ==> expired(now, #[trigger] samples[i].0, interval),
        expired_prefix_len(samples, now, interval) < samples.len() ==> !expired(
            now,
            samples[expired_prefix_len(samples, now, interval) as int].0,
            interval,
        ),
    decreases samples.len(),
{
    lemma_expired_prefix_len_bound(samples, now, interval);
    lemma_first_after_prefix_unexpired(samples, now, interval);
    if samples.len() > 0 && expired(now, samples[0].0, interval) {
        let rest = samples.drop_first();
        lemma_trim_drops_expired_prefix(rest, now, interval);
        assert forall|i: int| 0 <= i < expired_prefix_len(samples, now, interval) implies expired(
            now,
            #[trigger] samples[i].0,
            interval,
        ) by {
            if i > 0 {
                assert(samples[i] == rest[i - 1]);
            }
        }
    }
}

/// The first sample kept by a trim is not expired.
proof fn lemma_first_after_prefix_unexpired(s: Seq<(u128, usize)>, now: u128, interval: u128)
    ensures
        expired_prefix_len(s, now, interval) < s.len() ==>
            !expired(now, s[expired_prefix_len(s, now, interval) as int].0, interval),
    decreases s.len(),
{
    if s.len() > 0 && expired(now, s[0].0, interval) {
        lemma_first_after_prefix_unexpired(s.drop_first(), now, interval);
    }
}

/// A sample expired at some instant is expired at every later instant.
proof fn lemma_expired_prefix_monotone(s: Seq<(u128, usize)>, earlier: u128, later: u128, interval: u128)
    requires
        earlier <= later,
    ensures
        expired_prefix_len(s, earlier, interval) <= expired_prefix_len(s, later, interval),
    decreases s.len(),
{
    if s.len() > 0 && expired(earlier, s[0].0, interval) {
        lemma_expired_prefix_monotone(s.drop_first(), earlier, later, interval);
    }
}

/// Dropping `k` leading expired samples leaves the rest of the expired prefix.
proof fn lemma_expired_prefix_split(s: Seq<(u128, usize)>, now: u128, interval: u128, k: nat)
    requires
        k <= expired_prefix_len(s, now, interval),
    ensures
        expired_prefix_len(s, now, interval) == k + expired_prefix_len(s.skip(k as int), now, interval),
    decreases k,
{
    lemma_expired_prefix_len_bound(s, now, interval);
    if k == 0 {
        assert(s.skip(0) =~= s);
    } else {
        lemma_expired_prefix_split(s.drop_first(), now, interval, (k - 1) as nat);
        assert(s.drop_first().skip(k - 1) =~= s.skip(k as int));
    }
}

proof fn lemma_window_sum_skip_monotone(s: Seq<(u128, usize)>, a: int, b: int)
    requires
        0 <= a <= b <= s.len(),
    ensures
        window_sum(s.skip(b)) <= window_sum(s.skip(a)),
    decreases b - a,
{
    if a < b {
        lemma_window_sum_skip_monotone(s, a + 1, b);
        assert(s.skip(a).drop_first() =~= s.skip(a + 1));
        assert(s.skip(a).len() > 0);
    }
}

proof fn lemma_window_sum_nonneg(s: Seq<(u128, usize)>)
    ensures
        window_sum(s) >= 0,
    decreases s.len(),
{
    if s.len() > 0 {
        lemma_window_sum_nonneg(s.drop_first());
    }
}

proof fn lemma_window_sum_push(s: Seq<(u128, usize)>, x: (u128, usize))
    ensures
        window_sum(s.push(x)) == window_sum(s) + x.1,
    decreases s.len(),
{
    if s.len() > 0 {
        lemma_window_sum_push(s.drop_first(), x);
        assert(s.push(x).drop_first() =~= s.drop_first().push(x));
        assert(s.push(x)[0] == s[0]);
    } else {
        assert(s.push(x).drop_first() =~= Seq::<(u128, usize)>::empty());
        assert(s.push(x)[0] == x);
        assert(window_sum(Seq::<(u128, usize)>::empty()) == 0);
    }
}

proof fn lemma_window_sum_last_le(s: Seq<(u128, usize)>)
    requires
        s.len() > 0,
    ensures
        window_sum(s) >= s.last().1,
    decreases s.len(),
{
    lemma_window_sum_nonneg(s.drop_first());
    if s.len() > 1 {
        lemma_window_sum_last_le(s.drop_first());
        assert(s.drop_first().last() == s.last());
    }
}

proof fn lemma_expired_prefix_len_bound(s: Seq<(u128, usize)>, now: u128, interval: u128)
    ensures
        expired_prefix_len(s, now, interval) <= s.len(),
    decreases s.len(),
{
    if s.len() > 0 {
        lemma_expired_prefix_len_bound(s.drop_first(), now, interval);
    }
}

/// No sample that is unexpired at `now` is dropped by trimming at `now`.
proof fn lemma_trimmed_keeps_unexpired(s: Seq<(u128, usize)>, now: u128, interval: u128, i: int)
    requires
        0 <= i < s.len(),
        !expired(now, s[i].0, interval),
    ensures
        expired_prefix_len(s, now, interval) <= i,
    decreases s.len(),
{
    if i > 0 && expired(now, s[0].0, interval) {
        lemma_trimmed_keeps_unexpired(s.drop_first(), now, interval, i - 1);
    }
}

} // verus!
