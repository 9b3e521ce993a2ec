//! The recorder facade: buffers snapshots and events by tick, decides when a
//! chunk of older entries is handed to the writer thread, and flushes
//! everything that is left when the recording ends.
use crate::tick_map::{upsert, values_at, TickMap};
use std::sync::mpsc::Sender;
use vstd::prelude::*;

verus! {

/// Number of entries written at once: thirty seconds at the usual rate of
/// fifty snapshots a second.
pub const DATA_PER_CHUNK_TO_WRITE: u64 = 30 * 50;

/// Seconds that late entries may trail the newest one and still be taken.
pub const SECONDS_UNTIL_WRITE: u64 = 3;

/// A snapshot: the game state, already serialized.
pub type DemoSnapshot = Vec<u8>;

/// One event in its encoded form.
pub type DemoEvent = Vec<u8>;

/// The events of one tick, in the order they were added.
pub type DemoEvents = Vec<DemoEvent>;

/// Makes `std::sync::mpsc::Sender` known, as an opaque type: the recorder
/// only hands chunks to it.
#[verifier::external_type_specification]
#[verifier::external_body]
#[verifier::reject_recursive_types(T)]
pub struct ExSender<T>(Sender<T>);

/// The descriptive record written once after the fixed header.
pub struct DemoHeaderExt {
    /// Name of the map that is played.
    pub map: String,
    /// Simulation ticks per second; never zero.
    pub ticks_per_second: u64,
    /// The whole record in the demo's variable-size encoding.
    pub serialized: Vec<u8>,
}

/// What the recorder hands to the writer thread.
pub enum DemoRecorderEvent {
    Snapshots { snaps: TickMap<DemoSnapshot> },
    Events { events: TickMap<DemoEvents> },
    Cancel,
}

/// A message to the writer thread, with its chunk in its view.
pub enum SentChunk {
    Snapshots(Seq<(u64, Seq<u8>)>),
    Events(Seq<(u64, Seq<Seq<u8>>)>),
    Cancel,
}

/// The view of a message to the writer thread.
pub open spec fn sent_view(e: DemoRecorderEvent) -> SentChunk {
    match e {
        DemoRecorderEvent::Snapshots { snaps } => SentChunk::Snapshots(snaps@),
        DemoRecorderEvent::Events { events } => SentChunk::Events(events@),
        DemoRecorderEvent::Cancel => SentChunk::Cancel,
    }
}

/// The sending end of the channel to the writer thread, with a log of every
/// message handed to it.
pub struct ChunkSender {
    sender: Sender<DemoRecorderEvent>,
    sent: Ghost<Seq<SentChunk>>,
}

impl ChunkSender {
    /// The messages handed over so far, in order.
    pub closed spec fn sent_log(&self) -> Seq<SentChunk> {
        self.sent@
    }

    /// A sender that has handed over nothing yet.
    pub fn new(sender: Sender<DemoRecorderEvent>) -> (r: Self)
        ensures
            r.sent_log() == Seq::<SentChunk>::empty(),
    {
        ChunkSender { sender, sent: Ghost(Seq::empty()) }
    }

    /// Relies on `Sender::send`: the message is handed to the channel. When
    /// the writer thread is gone the channel gives it back and it is dropped:
    /// the recording cannot be saved then.
    #[verifier::external_body]
    pub fn send(&mut self, e: DemoRecorderEvent)
        ensures
            final(self).sent_log() == old(self).sent_log().push(sent_view(e)),
    {
        let _ = self.sender.send(e);
    }
}

/// The span of three seconds in ticks.
pub open spec fn window(ticks_per_second: u64) -> int {
    ticks_per_second * SECONDS_UNTIL_WRITE
}

/// A tick is taken if nothing is buffered, or if it is not older than the
/// newest buffered tick by more than the window.
pub open spec fn can_add<W>(tick: u64, s: Seq<(u64, W)>, ticks_per_second: u64) -> bool {
    s.len() == 0 || tick >= s.last().0 || s.last().0 - tick <= window(ticks_per_second)
}

/// Buffered entries are flushed once there are more than a batch of them and
/// the entries from the batch-size-th on span more than the window.
pub open spec fn should_flush<W>(s: Seq<(u64, W)>, ticks_per_second: u64) -> bool {
    s.len() > DATA_PER_CHUNK_TO_WRITE && s.last().0 - s[DATA_PER_CHUNK_TO_WRITE as int].0
        > window(ticks_per_second)
}

/// The entries left buffered after the flush decision.
pub open spec fn after_flush<W>(s: Seq<(u64, W)>, ticks_per_second: u64) -> Seq<(u64, W)> {
    if should_flush(s, ticks_per_second) {
        s.skip(DATA_PER_CHUNK_TO_WRITE as int)
    } else {
        s
    }
}

/// The entries buffered after an add of `w` for `tick`.
pub open spec fn after_add<W>(s: Seq<(u64, W)>, tick: u64, w: W, ticks_per_second: u64) -> Seq<
    (u64, W),
> {
    let f = after_flush(s, ticks_per_second);
    if can_add(tick, f, ticks_per_second) {
        upsert(f, tick, w)
    } else {
        f
    }
}

/// Batches in order, each of one to a batch size of entries, and all but
/// the last of exactly a batch size.
pub open spec fn batches_fit<W>(b: Seq<Seq<(u64, W)>>) -> bool {
    forall|i: int|
        0 <= i < b.len() ==> 1 <= #[trigger] b[i].len() <= DATA_PER_CHUNK_TO_WRITE && (i + 1
            < b.len() ==> b[i].len() == DATA_PER_CHUNK_TO_WRITE)
}

/// Consecutive batches of a batch size, the last one possibly shorter; none
/// for no entries.
pub open spec fn batches_of<W>(s: Seq<(u64, W)>) -> Seq<Seq<(u64, W)>>
    decreases s.len(),
{
    if s.len() == 0 {
        Seq::empty()
    } else if s.len() <= DATA_PER_CHUNK_TO_WRITE {
        seq![s]
    } else {
        seq![s.take(DATA_PER_CHUNK_TO_WRITE as int)] + batches_of(
            s.skip(DATA_PER_CHUNK_TO_WRITE as int),
        )
    }
}

/// The batches rejoin to the entries and each fits a chunk.
pub proof fn lemma_batches_of<W>(s: Seq<(u64, W)>)
    ensures
        batches_of(s).flatten() == s,
        batches_fit(batches_of(s)),
    decreases s.len(),
{
    if s.len() == 0 {
    } else if s.len() <= DATA_PER_CHUNK_TO_WRITE {
        let b = batches_of(s);
        b.lemma_flatten_singleton();
    } else {
        let h = s.take(DATA_PER_CHUNK_TO_WRITE as int);
        let t = s.skip(DATA_PER_CHUNK_TO_WRITE as int);
        lemma_batches_of(t);
        let b = batches_of(s);
        assert(b.first() == h);
        assert(b.drop_first() =~= batches_of(t));
        assert(b.flatten() =~= s);
        assert forall|i: int| 0 <= i < b.len() implies 1 <= #[trigger] b[i].len()
            <= DATA_PER_CHUNK_TO_WRITE && (i + 1 < b.len() ==> b[i].len()
            == DATA_PER_CHUNK_TO_WRITE) by {
            if i > 0 {
                assert(b[i] == batches_of(t)[i - 1]);
            }
        }
    }
}

/// Messages carrying snapshot batches.
pub open spec fn snapshot_messages(b: Seq<Seq<(u64, Seq<u8>)>>) -> Seq<SentChunk> {
    b.map_values(|c: Seq<(u64, Seq<u8>)>| SentChunk::Snapshots(c))
}

/// Messages carrying event batches.
pub open spec fn event_messages(b: Seq<Seq<(u64, Seq<Seq<u8>>)>>) -> Seq<SentChunk> {
    b.map_values(|c: Seq<(u64, Seq<Seq<u8>>)>| SentChunk::Events(c))
}

/// The views of a sequence of maps.
pub open spec fn views<V: DeepView>(b: Seq<TickMap<V>>) -> Seq<Seq<(u64, V::V)>> {
    b.map_values(|m: TickMap<V>| m@)
}

/// The window in ticks, computed without overflow.
fn window_ticks(ticks_per_second: u64) -> (r: u128)
    ensures
        r == window(ticks_per_second),
{
    let t = ticks_per_second as u128;
    assert(t * 3 <= 3 * 0xffff_ffff_ffff_ffffu128) by (nonlinear_arith)
        requires
            t <= 0xffff_ffff_ffff_ffffu128,
    ;
    t * (SECONDS_UNTIL_WRITE as u128)
}

/// Whether `tick` may still be buffered next to `data`.
pub fn can_add_chunk<V: DeepView>(
    monotonic_tick: u64,
    data: &TickMap<V>,
    demo_header_ext: &DemoHeaderExt,
) -> (r: bool)
    ensures
        r == can_add(monotonic_tick, data@, demo_header_ext.ticks_per_second),
{
    match data.last_tick() {
        None => true,
        Some(key) => monotonic_tick >= key || ((key - monotonic_tick) as u128) <= window_ticks(
            demo_header_ext.ticks_per_second,
        ),
    }
}

/// Splits off the oldest batch of entries when the flush policy says so.
pub fn split_flushable<V: DeepView>(data: &mut TickMap<V>, demo_header_ext: &DemoHeaderExt) -> (r:
    Option<TickMap<V>>)
    requires
        old(data).wf(),
    ensures
        final(data).wf(),
        final(data)@ == after_flush(old(data)@, demo_header_ext.ticks_per_second),
        should_flush(old(data)@, demo_header_ext.ticks_per_second) ==> (r matches Some(c)
            && c.wf() && c@ == old(data)@.take(DATA_PER_CHUNK_TO_WRITE as int)),
        !should_flush(old(data)@, demo_header_ext.ticks_per_second) ==> r is None,
{
    let count = data.len();
    if count > DATA_PER_CHUNK_TO_WRITE as usize {
        let key = data.tick_at(DATA_PER_CHUNK_TO_WRITE as usize);
        let last = data.tick_at(count - 1);
        proof {
            assert(data@.last() == data@[count - 1]);
            if DATA_PER_CHUNK_TO_WRITE < count - 1 {
                assert(data@[DATA_PER_CHUNK_TO_WRITE as int].0 < data@[count - 1].0);
            }
        }
        if ((last - key) as u128) > window_ticks(demo_header_ext.ticks_per_second) {
            let mut chunk = data.split_off(DATA_PER_CHUNK_TO_WRITE as usize);
            std::mem::swap(data, &mut chunk);
            return Some(chunk);
        }
    }
    None
}

/// Cuts the entries into batches of a batch size each, the last one possibly
/// shorter, in order.
pub fn split_into_batches<V: DeepView>(data: TickMap<V>) -> (r: Vec<TickMap<V>>)
    requires
        data.wf(),
    ensures
        views(r@) == batches_of(data@),
        forall|i: int| 0 <= i < r@.len() ==> (#[trigger] r@[i]).wf(),
{
    let mut batches: Vec<TickMap<V>> = Vec::new();
    let mut rest = data;
    while !rest.is_empty()
        invariant
            rest.wf(),
            views(batches@) + batches_of(rest@) == batches_of(data@),
            forall|i: int| 0 <= i < batches@.len() ==> (#[trigger] batches@[i]).wf(),
        decreases rest@.len(),
    {
        let ghost before = batches@;
        let ghost rv = rest@;
        let mut batch = if rest.len() > DATA_PER_CHUNK_TO_WRITE as usize {
            rest.split_off(DATA_PER_CHUNK_TO_WRITE as usize)
        } else {
            TickMap::new()
        };
        std::mem::swap(&mut rest, &mut batch);
        proof {
            if rv.len() > DATA_PER_CHUNK_TO_WRITE {
                assert(batches_of(rv) == seq![batch@] + batches_of(rest@));
            } else {
                assert(batch@ == rv);
                assert(rest@ =~= Seq::<(u64, V::V)>::empty());
                assert(batches_of(rv) == seq![batch@]);
                assert(batches_of(rv) =~= seq![batch@] + batches_of(rest@));
            }
        }
        batches.push(batch);
        proof {
            assert(views(batches@) =~= views(before).push(batch@));
            assert(views(batches@) + batches_of(rest@) =~= views(before) + batches_of(rv));
        }
    }
    proof {
        assert(rest@ =~= Seq::<(u64, V::V)>::empty());
        assert(views(batches@) =~= views(batches@) + batches_of(rest@));
    }
    batches
}

/// Records demos from snapshots and events.
pub struct DemoRecorder {
    /// The descriptive record, written only once.
    pub demo_header_ext: DemoHeaderExt,
    /// Buffered snapshots.
    pub snapshots: TickMap<DemoSnapshot>,
    /// Buffered events.
    pub events: TickMap<DemoEvents>,
    /// Sender to the thread that writes the demo.
    pub thread_sender: ChunkSender,
}

impl DemoRecorder {
    /// Both buffers are well formed.
    pub open spec fn wf(&self) -> bool {
        self.snapshots.wf() && self.events.wf()
    }

    /// The tick rate of the recording.
    pub open spec fn tps(&self) -> u64 {
        self.demo_header_ext.ticks_per_second
    }

    /// The messages handed to the writer thread so far.
    pub open spec fn sent(&self) -> Seq<SentChunk> {
        self.thread_sender.sent_log()
    }

    /// A recorder with empty buffers that hands its chunks to `thread_sender`.
    pub fn new(demo_header_ext: DemoHeaderExt, thread_sender: Sender<DemoRecorderEvent>) -> (r:
        Self)
        requires
            demo_header_ext.ticks_per_second > 0,
        ensures
            r.wf(),
            r.demo_header_ext == demo_header_ext,
            r.sent() == Seq::<SentChunk>::empty(),
            r.snapshots@.len() == 0,
            r.events@.len() == 0,
    {
        DemoRecorder {
            demo_header_ext,
            snapshots: TickMap::new(),
            events: TickMap::new(),
            thread_sender: ChunkSender::new(thread_sender),
        }
    }

    /// Flushes a chunk of old snapshots if due: the batch-size oldest ones
    /// go to the writer thread as one message. Then keeps `snapshot` for
    /// `monotonic_tick` if the tick is in the accept window, replacing an
    /// earlier snapshot of the same tick.
    pub fn add_snapshot(&mut self, monotonic_tick: u64, snapshot: Vec<u8>)
        requires
            old(self).wf(),
        ensures
            final(self).wf(),
            final(self).demo_header_ext == old(self).demo_header_ext,
            final(self).events == old(self).events,
            final(self).snapshots@ == after_add(
                old(self).snapshots@,
                monotonic_tick,
                snapshot@,
                old(self).tps(),
            ),
            final(self).sent() == if should_flush(old(self).snapshots@, old(self).tps()) {
                old(self).sent().push(
                    SentChunk::Snapshots(old(self).snapshots@.take(DATA_PER_CHUNK_TO_WRITE as int)),
                )
            } else {
                old(self).sent()
            },
    {
        if let Some(snaps) = split_flushable(&mut self.snapshots, &self.demo_header_ext) {
            self.thread_sender.send(DemoRecorderEvent::Snapshots { snaps });
        }
        if can_add_chunk(monotonic_tick, &self.snapshots, &self.demo_header_ext) {
            assert(snapshot.deep_view() =~= snapshot@);
            self.snapshots.insert(monotonic_tick, snapshot);
        }
    }

    /// Flushes a chunk of old events if due: the batch-size oldest ones go to
    /// the writer thread as one message. Then appends `event` to the events
    /// of `monotonic_tick` if the tick is in the accept window.
    pub fn add_event(&mut self, monotonic_tick: u64, event: DemoEvent)
        requires
            old(self).wf(),
        ensures
            final(self).wf(),
            final(self).demo_header_ext == old(self).demo_header_ext,
            final(self).snapshots == old(self).snapshots,
            ({
                let f = after_flush(old(self).events@, old(self).tps());
                final(self).events@ == if can_add(monotonic_tick, f, old(self).tps()) {
                    upsert(f, monotonic_tick, values_at(f, monotonic_tick).push(event@))
                } else {
                    f
                }
            }),
            final(self).sent() == if should_flush(old(self).events@, old(self).tps()) {
                old(self).sent().push(
                    SentChunk::Events(old(self).events@.take(DATA_PER_CHUNK_TO_WRITE as int)),
                )
            } else {
                old(self).sent()
            },
    {
        if let Some(events) = split_flushable(&mut self.events, &self.demo_header_ext) {
            self.thread_sender.send(DemoRecorderEvent::Events { events });
        }
        if can_add_chunk(monotonic_tick, &self.events, &self.demo_header_ext) {
            assert(event.deep_view() =~= event@);
            self.events.push_at(monotonic_tick, event);
        }
    }

    /// Tells the writer thread to drop the demo. `Cancel` is the last message
    /// handed over: the recorder is consumed and nothing buffered is sent.
    /// Returns the messages handed over, in order.
    pub fn cancel(self) -> (sent: Ghost<Seq<SentChunk>>)
        ensures
            sent@ == self.sent().push(SentChunk::Cancel),
    {
        let mut thread_sender = self.thread_sender;
        thread_sender.send(DemoRecorderEvent::Cancel);
        Ghost(thread_sender.sent_log())
    }

    /// Hands every buffered entry to the writer thread: the snapshots in
    /// batches of a batch size (the last possibly shorter), then the events
    /// likewise; nothing for an empty buffer. Both buffers are empty
    /// afterwards.
    pub fn finalize(&mut self)
        requires
            old(self).wf(),
        ensures
            final(self).wf(),
            final(self).demo_header_ext == old(self).demo_header_ext,
            final(self).snapshots@.len() == 0,
            final(self).events@.len() == 0,
            final(self).sent() == old(self).sent() + snapshot_messages(
                batches_of(old(self).snapshots@),
            ) + event_messages(batches_of(old(self).events@)),
    {
        let ghost log0 = self.sent();
        let mut snaps = TickMap::new();
        std::mem::swap(&mut self.snapshots, &mut snaps);
        let ghost all = batches_of(snaps@);
        let mut batches = split_into_batches(snaps);
        let ghost mut k: int = 0;
        while batches.len() > 0
            invariant
                0 <= k <= all.len(),
                views(batches@) == all.skip(k),
                self.sent() == log0 + snapshot_messages(all.take(k)),
                self.snapshots@.len() == 0,
                self.snapshots.wf(),
                self.events == old(self).events,
                self.demo_header_ext == old(self).demo_header_ext,
            decreases batches@.len(),
        {
            let ghost vb = views(batches@);
            assert(vb.len() == batches@.len());
            assert(vb[0] == batches@[0]@);
            let snaps = batches.remove(0);
            proof {
                assert(snaps@ == all[k]);
            }
            let ghost before = self.sent();
            self.thread_sender.send(DemoRecorderEvent::Snapshots { snaps });
            proof {
                assert(all.take(k + 1) =~= all.take(k).push(all[k]));
                assert(snapshot_messages(all.take(k + 1)) =~= snapshot_messages(all.take(k)).push(
                    SentChunk::Snapshots(all[k]),
                ));
                k = k + 1;
                assert(views(batches@) =~= vb.drop_first());
                assert(views(batches@) =~= all.skip(k));
            }
        }
        proof {
            assert(views(batches@).len() == 0);
            assert(all.take(k) =~= all);
        }
        let ghost log1 = self.sent();
        let mut events = TickMap::new();
        std::mem::swap(&mut self.events, &mut events);
        let ghost alle = batches_of(events@);
        let mut batches = split_into_batches(events);
        let ghost mut j: int = 0;
        while batches.len() > 0
            invariant
                0 <= j <= alle.len(),
                views(batches@) == alle.skip(j),
                self.sent() == log1 + event_messages(alle.take(j)),
                self.snapshots@.len() == 0,
                self.snapshots.wf(),
                self.events@.len() == 0,
                self.events.wf(),
                self.demo_header_ext == old(self).demo_header_ext,
            decreases batches@.len(),
        {
            let ghost vb = views(batches@);
            assert(vb.len() == batches@.len());
            assert(vb[0] == batches@[0]@);
            let events = batches.remove(0);
            proof {
                assert(events@ == alle[j]);
            }
            self.thread_sender.send(DemoRecorderEvent::Events { events });
            proof {
                assert(alle.take(j + 1) =~= alle.take(j).push(alle[j]));
                assert(event_messages(alle.take(j + 1)) =~= event_messages(alle.take(j)).push(
                    SentChunk::Events(alle[j]),
                ));
                j = j + 1;
                assert(views(batches@) =~= vb.drop_first());
                assert(views(batches@) =~= alle.skip(j));
            }
        }
        proof {
            assert(views(batches@).len() == 0);
            assert(alle.take(j) =~= alle);
        }
    }
}

} // verus!
