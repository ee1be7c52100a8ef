//! Byte rates of the radio link, up (commands to the plane) and down
//! (telemetry from it). Each direction gets its own counter over a quarter
//! second the first time bytes are recorded for it.

use crate::byte_rate_counter::{
    get_timestamp, lemma_recorded_bytes_counted_within_interval, trimmed, window_sum, ByteRateCounter,
};
use vstd::prelude::*;

verus! {

/// A quarter of a second, in nanoseconds: the window of each link counter.
pub const LINK_RATE_WINDOW_NANOS: u128 = 250_000_000;

/// The counters of both link directions; `None` until bytes were recorded.
pub struct LinkRates {
    pub up: Option<ByteRateCounter>,
    pub down: Option<ByteRateCounter>,
}

/// The counter as it stands before a record: the existing one, or a fresh
/// one over a quarter second.
pub open spec fn samples_before(c: Option<ByteRateCounter>) -> Seq<(u128, usize)> {
    match c {
        Some(c) => c.samples(),
        None => Seq::empty(),
    }
}

pub open spec fn interval_before(c: Option<ByteRateCounter>) -> u128 {
    match c {
        Some(c) => c.interval(),
        None => LINK_RATE_WINDOW_NANOS,
    }
}

/// Whether `n` more bytes fit the running total of the counter.
pub open spec fn room_for(c: Option<ByteRateCounter>, n: usize) -> bool {
    match c {
        Some(c) => c.total() + n <= usize::MAX,
        None => true,
    }
}

/// The counter after recording `n` bytes at the instant `now`.
pub open spec fn recorded_at(before: Option<ByteRateCounter>, after: Option<ByteRateCounter>, n: usize, now: u128) -> bool {
    match after {
        Some(c) => {
            &&& c.wf()
            &&& c.interval() == interval_before(before)
            &&& c.samples() == trimmed(samples_before(before).push((now, n)), now, interval_before(before))
        },
        None => false,
    }
}

/// The counter after recording `n` bytes at some instant.
pub open spec fn recorded(before: Option<ByteRateCounter>, after: Option<ByteRateCounter>, n: usize) -> bool {
    exists|now: u128| #[trigger] recorded_at(before, after, n, now)
}

impl LinkRates {
    /// Both counters, once made, are well formed and count over a quarter
    /// second.
    pub open spec fn wf(&self) -> bool {
        &&& self.up matches Some(c) ==> c.wf() && c.interval() == LINK_RATE_WINDOW_NANOS
        &&& self.down matches Some(c) ==> c.wf() && c.interval() == LINK_RATE_WINDOW_NANOS
    }

    /// No bytes recorded yet in either direction.
    pub fn new() -> (r: Self)
        ensures
            r.wf(),
            r.up is None,
            r.down is None,
    {
        LinkRates { up: None, down: None }
    }
}

fn record_at(counter: &mut Option<ByteRateCounter>, n: usize, now: u128)
    requires
        *old(counter) matches Some(c) ==> c.wf(),
        room_for(*old(counter), n),
    ensures
        recorded_at(*old(counter), *final(counter), n, now),
{
    let ghost before = *counter;
    let mut c = match counter.take() {
        Some(c) => c,
        None => ByteRateCounter::over_internal(LINK_RATE_WINDOW_NANOS),
    };
    assert(c.samples() == samples_before(before) && c.interval() == interval_before(before));
    c.update_at(now, n);
    *counter = Some(c);
}

/// Records `n` bytes sent to the plane at the instant `now`.
pub fn add_bytes_up_at(rates: &mut LinkRates, n: usize, now: u128)
    requires
        old(rates).wf(),
        room_for(old(rates).up, n),
    ensures
        final(rates).wf(),
        recorded_at(old(rates).up, final(rates).up, n, now),
        final(rates).down == old(rates).down,
{
    record_at(&mut rates.up, n, now);
}

/// Records `n` bytes received from the plane at the instant `now`.
pub fn add_bytes_down_at(rates: &mut LinkRates, n: usize, now: u128)
    requires
        old(rates).wf(),
        room_for(old(rates).down, n),
    ensures
        final(rates).wf(),
        recorded_at(old(rates).down, final(rates).down, n, now),
        final(rates).up == old(rates).up,
{
    record_at(&mut rates.down, n, now);
}

/// Records `n` bytes sent to the plane, now by the system clock.
pub fn add_bytes_up(rates: &mut LinkRates, n: usize)
    requires
        old(rates).wf(),
        room_for(old(rates).up, n),
    ensures
        final(rates).wf(),
        recorded(old(rates).up, final(rates).up, n),
        final(rates).down == old(rates).down,
{
    let now = get_timestamp();
    add_bytes_up_at(rates, n, now);
}

/// Records `n` bytes received from the plane, now by the system clock.
pub fn add_bytes_down(rates: &mut LinkRates, n: usize)
    requires
        old(rates).wf(),
        room_for(old(rates).down, n),
    ensures
        final(rates).wf(),
        recorded(old(rates).down, final(rates).down, n),
        final(rates).up == old(rates).up,
{
    let now = get_timestamp();
    add_bytes_down_at(rates, n, now);
}

/// Bytes recorded in a direction are counted for a quarter second: counting
/// that direction's counter at any instant from the recording up to
/// `LINK_RATE_WINDOW_NANOS` later finds at least those bytes.
pub proof fn lemma_recorded_bytes_counted(
    before: Option<ByteRateCounter>,
    after: Option<ByteRateCounter>,
    n: usize,
    at: u128,
    later: u128,
)
    requires
        before matches Some(c) ==> c.interval() == LINK_RATE_WINDOW_NANOS,
        recorded_at(before, after, n, at),
        at <= later <= at + LINK_RATE_WINDOW_NANOS,
    ensures
        after matches Some(c) && window_sum(trimmed(c.samples(), later, c.interval())) >= n,
{
    lemma_recorded_bytes_counted_within_interval(samples_before(before), at, n, later, LINK_RATE_WINDOW_NANOS);
}

} // verus!
