//! The flight controller's record of its async tasks' names, and the lock
//! that keeps its log encoder from being entered twice.

use vstd::prelude::*;
use crate::async_stats::MAX_ASYNC_TASKS;
use crate::defmt_log::{drop_leading_zeros, first_zero, frames, leftover, received_buffer};

verus! {

/// Why a task could not be spawned.
#[derive(Debug, Clone, Copy, PartialEq, Eq, Structural)]
pub enum SpawnError {
    /// The table of task names is full.
    Busy,
}

/// No task id occurs twice.
pub open spec fn ids_distinct<N>(s: Seq<(u32, N)>) -> bool {
    forall|i: int, j: int| 0 <= i < j < s.len() ==> #[trigger] s[i].0 != #[trigger] s[j].0
}

/// The name recorded for each task id.
pub open spec fn name_map<N>(s: Seq<(u32, N)>) -> Map<u32, N> {
    Map::new(
        |k: u32| exists|i: int| 0 <= i < s.len() && #[trigger] s[i].0 == k,
        |k: u32| s[choose|i: int| 0 <= i < s.len() && #[trigger] s[i].0 == k].1,
    )
}

/// With distinct ids, the entry at index `i` is what the map holds for its id.
proof fn lemma_name_map_at<N>(s: Seq<(u32, N)>, i: int)
    requires
        ids_distinct(s),
        0 <= i < s.len(),
    ensures
        name_map(s).dom().contains(s[i].0),
        name_map(s)[s[i].0] == s[i].1,
{
    let k = s[i].0;
    assert(exists|j: int| 0 <= j < s.len() && #[trigger] s[j].0 == k);
    let c = choose|j: int| 0 <= j < s.len() && #[trigger] s[j].0 == k;
    if c != i {
        if c < i {
            assert(s[c].0 != s[i].0);
        } else {
            assert(s[i].0 != s[c].0);
        }
    }
}

/// With distinct ids, the map has one key per entry.
proof fn lemma_name_map_len<N>(s: Seq<(u32, N)>)
    requires
        ids_distinct(s),
    ensures
        name_map(s).dom().finite(),
        name_map(s).dom().len() == s.len(),
{
    let ids = s.map_values(|p: (u32, N)| p.0);
    assert forall|i: int, j: int|
        0 <= i < ids.len() && 0 <= j < ids.len() && i != j implies ids[i] != ids[j] by {
        if i < j {
            assert(s[i].0 != s[j].0);
        } else {
            assert(s[j].0 != s[i].0);
        }
    }
    ids.unique_seq_to_set();
    vstd::seq_lib::seq_to_set_is_finite(ids);
    assert forall|k: u32| name_map(s).dom().contains(k) <==> ids.to_set().contains(k) by {
        if name_map(s).dom().contains(k) {
            let i = choose|i: int| 0 <= i < s.len() && #[trigger] s[i].0 == k;
            assert(ids[i] == k);
        }
        if ids.contains(k) {
            let i = choose|i: int| 0 <= i < ids.len() && ids[i] == k;
            assert(s[i].0 == k);
        }
    }
    assert(name_map(s).dom() =~= ids.to_set());
}

/// Spawns the firmware's async tasks, recording under each task's id the
/// name it was spawned with, for at most `MAX_ASYNC_TASKS` tasks, so that the
/// executor's trace hooks can report tasks by name.
pub struct Spawner<N> {
    names: Vec<(u32, N)>,
}

impl<N> View for Spawner<N> {
    type V = Map<u32, N>;

    closed spec fn view(&self) -> Map<u32, N> {
        name_map(self.names@)
    }
}

impl<N: Copy> Spawner<N> {
    /// Every id is recorded once, and no more than `MAX_ASYNC_TASKS` are.
    pub closed spec fn wf(&self) -> bool {
        &&& ids_distinct(self.names@)
        &&& self.names@.len() <= MAX_ASYNC_TASKS
    }

    /// A spawner that has recorded no task.
    pub fn new() -> (s: Self)
        ensures
            s.wf(),
            s@ == Map::<u32, N>::empty(),
    {
        let s = Spawner { names: Vec::new() };
        assert(s@ =~= Map::<u32, N>::empty());
        s
    }

    /// A well-formed spawner records finitely many tasks, at most
    /// `MAX_ASYNC_TASKS`.
    pub proof fn lemma_within_capacity(&self)
        requires
            self.wf(),
        ensures
            self@.dom().finite(),
            self@.dom().len() <= MAX_ASYNC_TASKS,
    {
        lemma_name_map_len(self.names@);
    }

    /// Records `name` as the name of the task `task_id` before the task is
    /// handed to the executor. A task id that is already recorded gets the
    /// new name; a new one is refused with `Busy` when `MAX_ASYNC_TASKS` are
    /// recorded, and then nothing changes.
    pub fn spawn(&mut self, task_id: u32, name: N) -> (r: Result<(), SpawnError>)
        requires
            old(self).wf(),
        ensures
            final(self).wf(),
            r is Ok <==> (old(self)@.dom().contains(task_id) || old(self)@.dom().len()
                < MAX_ASYNC_TASKS),
            r is Ok ==> final(self)@ == old(self)@.insert(task_id, name),
            r is Err ==> r == Err::<(), SpawnError>(SpawnError::Busy) && final(self)@ == old(self)@,
    {
        proof {
            lemma_name_map_len(self.names@);
        }
        let ghost s0 = self.names@;
        let n = self.names.len();
        for i in 0..n
            invariant
                n == self.names@.len(),
                self.names@ == s0,
                old(self).names@ == s0,
                ids_distinct(s0),
                s0.len() <= MAX_ASYNC_TASKS,
                forall|j: int| 0 <= j < i ==> #[trigger] s0[j].0 != task_id,
        {
            if self.names[i].0 == task_id {
                self.names.set(i, (task_id, name));
                proof {
                    lemma_name_map_at(s0, i as int);
                    let s1 = self.names@;
                    assert(s1 == s0.update(i as int, (task_id, name)));
                    assert(ids_distinct(s1)) by {
                        assert forall|a: int, b: int| 0 <= a < b < s1.len() implies #[trigger] s1[a].0
                            != #[trigger] s1[b].0 by {
                            assert(s0[a].0 != s0[b].0);
                        }
                    }
                    assert forall|k: u32|
                        name_map(s1).dom().contains(k) <==> name_map(s0).insert(
                            task_id,
                            name,
                        ).dom().contains(k) by {
                        if name_map(s1).dom().contains(k) {
                            let j = choose|j: int| 0 <= j < s1.len() && #[trigger] s1[j].0 == k;
                            if j != i {
                                lemma_name_map_at(s0, j);
                            }
                        }
                        if name_map(s0).dom().contains(k) {
                            let j = choose|j: int| 0 <= j < s0.len() && #[trigger] s0[j].0 == k;
                            lemma_name_map_at(s1, j);
                        }
                        lemma_name_map_at(s1, i as int);
                    }
                    assert forall|k: u32| #[trigger] name_map(s1).dom().contains(k) implies name_map(
                        s1,
                    )[k] == name_map(s0).insert(task_id, name)[k] by {
                        let j = choose|j: int| 0 <= j < s1.len() && #[trigger] s1[j].0 == k;
                        lemma_name_map_at(s1, j);
                        if j != i {
                            lemma_name_map_at(s0, j);
                        }
                    }
                    assert(name_map(s1) =~= name_map(s0).insert(task_id, name));
                }
                return Ok(());
            }
        }
        assert(!name_map(s0).dom().contains(task_id));
        if n < MAX_ASYNC_TASKS {
            self.names.push((task_id, name));
            proof {
                let s1 = self.names@;
                assert(s1 == s0.push((task_id, name)));
                assert(ids_distinct(s1)) by {
                    assert forall|a: int, b: int| 0 <= a < b < s1.len() implies #[trigger] s1[a].0
                        != #[trigger] s1[b].0 by {
                        if b < s0.len() {
                            assert(s0[a].0 != s0[b].0);
                        }
                    }
                }
                assert forall|k: u32|
                    name_map(s1).dom().contains(k) <==> name_map(s0).insert(
                        task_id,
                        name,
                    ).dom().contains(k) by {
                    if name_map(s1).dom().contains(k) {
                        let j = choose|j: int| 0 <= j < s1.len() && #[trigger] s1[j].0 == k;
                        if j < s0.len() {
                            lemma_name_map_at(s0, j);
                        }
                    }
                    if name_map(s0).dom().contains(k) {
                        let j = choose|j: int| 0 <= j < s0.len() && #[trigger] s0[j].0 == k;
                        lemma_name_map_at(s1, j);
                    }
                    lemma_name_map_at(s1, n as int);
                }
                assert forall|k: u32| #[trigger] name_map(s1).dom().contains(k) implies name_map(
                    s1,
                )[k] == name_map(s0).insert(task_id, name)[k] by {
                    let j = choose|j: int| 0 <= j < s1.len() && #[trigger] s1[j].0 == k;
                    lemma_name_map_at(s1, j);
                    if j < s0.len() {
                        lemma_name_map_at(s0, j);
                    }
                }
                assert(name_map(s1) =~= name_map(s0).insert(task_id, name));
            }
            Ok(())
        } else {
            Err(SpawnError::Busy)
        }
    }

    /// Whether the task `task_id` was spawned with a name. The executor's
    /// hook for a new task treats a task without one as a fault.
    pub fn is_named(&self, task_id: u32) -> (b: bool)
        requires
            self.wf(),
        ensures
            b == self@.dom().contains(task_id),
    {
        for i in 0..self.names.len()
            invariant
                self.wf(),
                forall|j: int| 0 <= j < i ==> #[trigger] self.names@[j].0 != task_id,
        {
            if self.names[i].0 == task_id {
                proof {
                    lemma_name_map_at(self.names@, i as int);
                }
                return true;
            }
        }
        false
    }

    /// The name the task `task_id` was spawned with, or `unknown` for a task
    /// that was not recorded.
    pub fn task_name(&self, task_id: u32, unknown: N) -> (name: N)
        requires
            self.wf(),
        ensures
            name == (if self@.dom().contains(task_id) {
                self@[task_id]
            } else {
                unknown
            }),
    {
        for i in 0..self.names.len()
            invariant
                self.wf(),
                forall|j: int| 0 <= j < i ==> #[trigger] self.names@[j].0 != task_id,
        {
            if self.names[i].0 == task_id {
                proof {
                    lemma_name_map_at(self.names@, i as int);
                }
                return self.names[i].1;
            }
        }
        unknown
    }
}

/// A task that was spawned is reported by the name it was last spawned with.
pub proof fn lemma_spawned_task_is_named<N: Copy>(
    before: Spawner<N>,
    after: Spawner<N>,
    task_id: u32,
    name: N,
)
    requires
        after@ == before@.insert(task_id, name),
    ensures
        after@.dom().contains(task_id),
        after@[task_id] == name,
{
}

/// Appends `bytes` to `out`.
pub fn append_bytes(out: &mut Vec<u8>, bytes: &[u8])
    ensures
        final(out)@ == old(out)@ + bytes@,
{
    for i in 0..bytes.len()
        invariant
            out@ == old(out)@ + bytes@.take(i as int),
    {
        out.push(bytes[i]);
        assert(bytes@.take(i + 1) =~= bytes@.take(i as int).push(bytes@[i as int]));
    }
    assert(bytes@.take(bytes@.len() as int) =~= bytes@);
}

/// The firmware's defmt log encoder, with the rzCOBS encoding this crate's
/// defmt is built with.
#[verifier::external_body]
pub struct FrameEncoder {
    inner: defmt::Encoder,
}

/// Whether the encoder has started a frame before (it then no longer writes
/// the separator that precedes the first frame).
pub uninterp spec fn encoder_started(e: FrameEncoder) -> bool;

/// How many bytes of the current rzCOBS symbol the encoder holds back.
pub uninterp spec fn encoder_run(e: FrameEncoder) -> u8;

/// Which of the bytes held back are zeros, one bit each.
pub uninterp spec fn encoder_zeros(e: FrameEncoder) -> u8;

/// What the rzCOBS encoder writes for `data`, starting from the symbol
/// state `run` and `zeros`.
pub uninterp spec fn rzcobs_write_out(run: u8, zeros: u8, data: Seq<u8>) -> Seq<u8>;

/// The symbol state the rzCOBS encoder is left in after writing `data`,
/// starting from `run` and `zeros`.
pub uninterp spec fn rzcobs_write_state(run: u8, zeros: u8, data: Seq<u8>) -> (u8, u8);

/// What the rzCOBS encoder writes to end a frame from the symbol state
/// `run` and `zeros`: the pending symbol, if any, then the zero separator.
pub open spec fn rzcobs_end_out(run: u8, zeros: u8) -> Seq<u8> {
    if run == 0 {
        seq![0u8]
    } else if run <= 6 {
        seq![((zeros | (0xFFu8 << run)) & 0x7Fu8) as u8, 0u8]
    } else {
        seq![((run - 7) as u8 | 0x80u8) as u8, 0u8]
    }
}

/// What the rzCOBS encoder writes to start a frame: a zero separator before
/// its first frame, nothing after.
pub open spec fn rzcobs_start_out(started: bool) -> Seq<u8> {
    if started {
        Seq::empty()
    } else {
        seq![0u8]
    }
}

/// Starting bytes: at most one byte, the zero that separates frames.
pub open spec fn frame_start_bytes(out: Seq<u8>) -> bool {
    out.len() <= 1 && forall|i: int| 0 <= i < out.len() ==> out[i] == 0
}

/// Bytes inside a frame: no zero byte.
pub open spec fn frame_body_bytes(out: Seq<u8>) -> bool {
    forall|i: int| 0 <= i < out.len() ==> out[i] != 0
}

/// Ending bytes: no zero byte, then the zero that ends the frame.
pub open spec fn frame_end_bytes(out: Seq<u8>) -> bool {
    &&& out.len() >= 1
    &&& out.last() == 0
    &&& forall|i: int| 0 <= i < out.len() - 1 ==> out[i] != 0
}

/// The bytes that end a frame hold no zero before the separator.
pub proof fn lemma_end_out_shape(run: u8, zeros: u8)
    ensures
        frame_end_bytes(rzcobs_end_out(run, zeros)),
{
    if 1 <= run <= 6 {
        assert(((zeros | (0xFFu8 << run)) & 0x7Fu8) as u8 != 0) by (bit_vector)
            requires
                1 <= run <= 6,
        ;
    } else if run > 6 {
        assert(((run - 7) as u8 | 0x80u8) as u8 != 0) by (bit_vector)
            requires
                run > 6,
        ;
    }
}

/// `defmt::Encoder::new`: an encoder that has written nothing and holds no
/// pending symbol.
#[verifier::external_body]
fn new_encoder() -> (e: FrameEncoder)
    ensures
        !encoder_started(e),
        encoder_run(e) == 0,
        encoder_zeros(e) == 0,
{
    FrameEncoder { inner: defmt::Encoder::new() }
}

/// `defmt::Encoder::start_frame`, collecting the bytes it writes: a zero
/// before the first frame, nothing after. The symbol state is untouched.
#[verifier::external_body]
fn encoder_start_frame(encoder: &mut FrameEncoder) -> (out: Vec<u8>)
    ensures
        out@ == rzcobs_start_out(encoder_started(*old(encoder))),
        encoder_started(*final(encoder)),
        encoder_run(*final(encoder)) == encoder_run(*old(encoder)),
        encoder_zeros(*final(encoder)) == encoder_zeros(*old(encoder)),
{
    let mut out: Vec<u8> = Vec::new();
    encoder.inner.start_frame(|b: &[u8]| append_bytes(&mut out, b));
    out
}

/// `defmt::Encoder::write` on `data`, collecting the bytes it writes: the
/// rzCOBS encoding of the data from the encoder's symbol state, by name,
/// which holds no zero byte; the state moves on as named.
#[verifier::external_body]
fn encoder_write(encoder: &mut FrameEncoder, data: &[u8]) -> (out: Vec<u8>)
    ensures
        out@ == rzcobs_write_out(encoder_run(*old(encoder)), encoder_zeros(*old(encoder)), data@),
        (encoder_run(*final(encoder)), encoder_zeros(*final(encoder))) == rzcobs_write_state(
            encoder_run(*old(encoder)),
            encoder_zeros(*old(encoder)),
            data@,
        ),
        encoder_started(*final(encoder)) == encoder_started(*old(encoder)),
        frame_body_bytes(out@),
{
    let mut out: Vec<u8> = Vec::new();
    encoder.inner.write(data, |b: &[u8]| append_bytes(&mut out, b));
    out
}

/// `defmt::Encoder::end_frame`, collecting the bytes it writes:
/// `rzcobs_end_out` of the symbol state, which it then clears.
#[verifier::external_body]
fn encoder_end_frame(encoder: &mut FrameEncoder) -> (out: Vec<u8>)
    ensures
        out@ == rzcobs_end_out(encoder_run(*old(encoder)), encoder_zeros(*old(encoder))),
        encoder_run(*final(encoder)) == 0,
        encoder_zeros(*final(encoder)) == 0,
        encoder_started(*final(encoder)) == encoder_started(*old(encoder)),
{
    let mut out: Vec<u8> = Vec::new();
    encoder.inner.end_frame(|b: &[u8]| append_bytes(&mut out, b));
    out
}

/// The firmware's global log encoder: a lock that is taken for the span of
/// one log frame, the defmt encoder, and the spawner that is handed to it
/// once the executor runs. Each operation returns the encoded bytes to send.
pub struct LogEncoder<S> {
    taken: bool,
    encoder: FrameEncoder,
    spawner: Option<S>,
}

impl<S> LogEncoder<S> {
    /// Whether a log frame is being written.
    pub closed spec fn is_taken(&self) -> bool {
        self.taken
    }

    /// The spawner handed to the encoder, if any.
    pub closed spec fn spawner(&self) -> Option<S> {
        self.spawner
    }

    /// Whether a frame was started before.
    pub closed spec fn started(&self) -> bool {
        encoder_started(self.encoder)
    }

    /// The encoder's pending rzCOBS symbol: its length and its zero bits.
    pub closed spec fn symbol(&self) -> (u8, u8) {
        (encoder_run(self.encoder), encoder_zeros(self.encoder))
    }

    /// An encoder that is not taken, has no spawner, has started no frame
    /// and holds no pending symbol.
    pub fn new() -> (e: Self)
        ensures
            !e.is_taken(),
            e.spawner() is None,
            !e.started(),
            e.symbol() == (0u8, 0u8),
    {
        LogEncoder { taken: false, encoder: new_encoder(), spawner: None }
    }

    /// Hands the encoder its spawner. Doing so while a log frame is being
    /// written is a fault of the firmware, so it is not accepted.
    pub fn set_spawner(&mut self, spawner: S)
        requires
            !old(self).is_taken(),
        ensures
            !final(self).is_taken(),
            final(self).spawner() == Some(spawner),
            final(self).started() == old(self).started(),
            final(self).symbol() == old(self).symbol(),
    {
        self.spawner = Some(spawner);
    }

    /// Takes the lock and starts a log frame: the bytes are the separator
    /// before the very first frame, and nothing later. Taking it again
    /// before it is released is a fault of the firmware, so it is not
    /// accepted.
    pub fn acquire(&mut self) -> (out: Vec<u8>)
        requires
            !old(self).is_taken(),
        ensures
            final(self).is_taken(),
            final(self).spawner() == old(self).spawner(),
            final(self).started(),
            final(self).symbol() == old(self).symbol(),
            out@ == rzcobs_start_out(old(self).started()),
            frame_start_bytes(out@),
    {
        self.taken = true;
        encoder_start_frame(&mut self.encoder)
    }

    /// Encodes part of the current log frame; only while the lock is taken.
    /// The bytes are the rzCOBS encoding of `bytes` from the pending symbol.
    pub fn write(&mut self, bytes: &[u8]) -> (out: Vec<u8>)
        requires
            old(self).is_taken(),
        ensures
            final(self).is_taken(),
            final(self).spawner() == old(self).spawner(),
            final(self).started() == old(self).started(),
            out@ == rzcobs_write_out(old(self).symbol().0, old(self).symbol().1, bytes@),
            final(self).symbol() == rzcobs_write_state(old(self).symbol().0, old(self).symbol().1, bytes@),
            frame_body_bytes(out@),
    {
        encoder_write(&mut self.encoder, bytes)
    }

    /// Ends the current log frame and releases the lock; only while the lock
    /// is taken. The bytes finish the pending symbol and end the frame.
    pub fn release(&mut self) -> (out: Vec<u8>)
        requires
            old(self).is_taken(),
        ensures
            !final(self).is_taken(),
            final(self).spawner() == old(self).spawner(),
            final(self).started() == old(self).started(),
            final(self).symbol() == (0u8, 0u8),
            out@ == rzcobs_end_out(old(self).symbol().0, old(self).symbol().1),
            frame_end_bytes(out@),
    {
        let out = encoder_end_frame(&mut self.encoder);
        proof {
            lemma_end_out_shape(old(self).symbol().0, old(self).symbol().1);
        }
        self.taken = false;
        out
    }
}

/// Hands the global log encoder its spawner; see `LogEncoder::set_spawner`.
pub fn set_spawner<S>(encoder: &mut LogEncoder<S>, spawner: S)
    requires
        !old(encoder).is_taken(),
    ensures
        !final(encoder).is_taken(),
        final(encoder).spawner() == Some(spawner),
        final(encoder).started() == old(encoder).started(),
        final(encoder).symbol() == old(encoder).symbol(),
{
    encoder.set_spawner(spawner);
}

/// A non-empty log frame, as the encoder writes it between `acquire` and
/// `release`, reaches a ground-station rzCOBS stream that holds nothing as
/// exactly one frame, holding what was written before the closing zero, and
/// leaves nothing behind.
pub proof fn lemma_encoded_frame_received_whole(start: Seq<u8>, body: Seq<u8>, end: Seq<u8>)
    requires
        frame_start_bytes(start),
        frame_body_bytes(body),
        frame_end_bytes(end),
        (body + end.drop_last()).len() > 0,
    ensures
        frames(received_buffer(true, Seq::empty(), start + body + end)) == seq![body + end.drop_last()],
        leftover(received_buffer(true, Seq::empty(), start + body + end)).len() == 0,
{
    let rest = body + end;
    assert(start + body + end =~= start + rest);
    assert(rest[0] != 0);
    assert(drop_leading_zeros(rest) == rest);
    assert(drop_leading_zeros(start).len() == 0) by {
        if start.len() == 1 {
            assert(start[0] == 0);
            assert(start.drop_first().len() == 0);
            assert(drop_leading_zeros(start.drop_first()) == start.drop_first());
            assert(drop_leading_zeros(start) == drop_leading_zeros(start.drop_first()));
        }
    }
    crate::defmt_log::lemma_drop_leading_zeros_concat(start, rest);
    assert(received_buffer(true, Seq::empty(), start + rest) == rest);
    crate::defmt_log::lemma_first_zero(rest);
    let n = rest.len() - 1;
    assert(rest[n] == 0);
    assert(rest.contains(0));
    assert(first_zero(rest) == n);
    let tail = rest.skip(n);
    assert(tail =~= seq![0u8]);
    assert(drop_leading_zeros(tail.drop_first()) == tail.drop_first());
    assert(drop_leading_zeros(tail).len() == 0);
    let a = drop_leading_zeros(tail);
    assert(first_zero(a) == a.len());
    assert(frames(a) =~= Seq::<Seq<u8>>::empty());
    assert(rest.take(n) =~= body + end.drop_last());
    assert(frames(rest) =~= seq![body + end.drop_last()]);
    assert(leftover(rest) == leftover(a));
}

} // verus!
