//! The scroll-back of the ground station's log pane: the most recent lines,
//! at most `LOG_HISTORY_CAPACITY` of them, oldest first.

use std::collections::VecDeque;
use vstd::prelude::*;

verus! {

broadcast use vstd::std_specs::vecdeque::group_vec_dequeue_axioms;

/// How many lines the log pane keeps.
pub const LOG_HISTORY_CAPACITY: usize = 200;

/// The last `n` elements of `s`, or all of them when there are fewer.
pub open spec fn keep_last<T>(s: Seq<T>, n: nat) -> Seq<T> {
    if s.len() <= n {
        s
    } else {
        s.skip(s.len() - n)
    }
}

pub struct LogHistory<T> {
    inner: VecDeque<T>,
}

impl<T> View for LogHistory<T> {
    type V = Seq<T>;

    closed spec fn view(&self) -> Seq<T> {
        self.inner@
    }
}

impl<T> LogHistory<T> {
    /// An empty history.
    pub fn new() -> (h: Self)
        ensures
            h@ == Seq::<T>::empty(),
    {
        LogHistory { inner: VecDeque::new() }
    }

    /// Number of lines kept.
    pub fn len(&self) -> (n: usize)
        ensures
            n == self@.len(),
    {
        self.inner.len()
    }

    /// The line at position `i`, oldest first.
    pub fn get(&self, i: usize) -> (line: &T)
        requires
            i < self@.len(),
        ensures
            *line == self@[i as int],
    {
        &self.inner[i]
    }

    /// Drops the oldest lines until at most the capacity is left.
    fn trim_to_capacity(&mut self)
        ensures
            final(self)@ == keep_last(old(self)@, LOG_HISTORY_CAPACITY as nat),
    {
        let ghost start = self.inner@;
        while self.inner.len() > LOG_HISTORY_CAPACITY
            invariant
                keep_last(self.inner@, LOG_HISTORY_CAPACITY as nat) == keep_last(start, LOG_HISTORY_CAPACITY as nat),
            decreases self.inner@.len(),
        {
            let ghost cur = self.inner@;
            let _ = self.inner.pop_front();
            assert(cur.skip(cur.len() - LOG_HISTORY_CAPACITY) =~= self.inner@.skip(
                self.inner@.len() - LOG_HISTORY_CAPACITY,
            ));
            proof {
                if self.inner@.len() <= LOG_HISTORY_CAPACITY {
                    assert(self.inner@.skip(0) =~= self.inner@);
                }
            }
        }
    }

    /// Appends a line, dropping the oldest ones beyond the capacity.
    pub fn add_log(&mut self, line: T)
        ensures
            final(self)@ == keep_last(old(self)@.push(line), LOG_HISTORY_CAPACITY as nat),
    {
        self.inner.push_back(line);
        self.trim_to_capacity();
    }

    /// Appends lines in order, then drops the oldest ones beyond the capacity.
    pub fn add_logs(&mut self, lines: Vec<T>)
        ensures
            final(self)@ == keep_last(old(self)@ + lines@, LOG_HISTORY_CAPACITY as nat),
    {
        let ghost start = self.inner@;
        let ghost all = lines@;
        let mut lines = lines;
        while lines.len() > 0
            invariant
                lines@.len() <= all.len(),
                self.inner@ == start + all.take(all.len() - lines@.len()),
                lines@ == all.skip(all.len() - lines@.len()),
            decreases lines@.len(),
        {
            let ghost k = all.len() - lines@.len();
            let line = lines.remove(0);
            assert(line == all[k]);
            self.inner.push_back(line);
            assert(all.take(k + 1) =~= all.take(k).push(all[k]));
            assert(lines@ =~= all.skip(k + 1));
        }
        assert(all.take(all.len() as int) =~= all);
        self.trim_to_capacity();
    }
}

/// The log pane never holds more lines than its capacity, and the newest
/// line is always the last one kept.
pub proof fn lemma_add_log_bounded<T>(history: Seq<T>, line: T)
    ensures
        keep_last(history.push(line), LOG_HISTORY_CAPACITY as nat).len() <= LOG_HISTORY_CAPACITY,
        keep_last(history.push(line), LOG_HISTORY_CAPACITY as nat).last() == line,
{
}

/// Trimming as lines arrive loses nothing that trimming once at the end
/// would keep: adding a line to the kept history keeps the same lines as
/// adding it to the whole history. So `add_log` line by line and `add_logs`
/// at once leave the same history.
pub proof fn lemma_keep_last_push<T>(s: Seq<T>, x: T, n: nat)
    requires
        n > 0,
    ensures
        keep_last(keep_last(s, n).push(x), n) == keep_last(s.push(x), n),
{
    let k = keep_last(s, n);
    if s.len() <= n {
        assert(k =~= s);
    } else {
        assert(k.push(x).skip(k.push(x).len() - n) =~= s.push(x).skip(s.push(x).len() - n));
    }
}

} // verus!
