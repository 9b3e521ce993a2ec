//! The writer side of the demo format: it serializes and frames chunks, keeps
//! the index of where each chunk starts, and produces the tail and the final
//! header once the recording ends.
//!
//! The layout is
//! `[header][header extension][chunk]*[tail]`, where the header is fixed-size
//! and its `size_chunks` stays zero until the demo is finished.
use crate::codec::{
    compress, extend, fixed_u32, fixed_u64, varint, write_fixed_u32, write_fixed_u64,
    write_varint, zstd_compressed, zstd_decoded,
};
use crate::recorder::{DemoEvents, DemoHeaderExt, DemoSnapshot};
use crate::tick_map::{has_tick, upsert, TickMap};
use vstd::prelude::*;

verus! {

/// Nanoseconds in one second.
pub const NANOS_PER_SEC: u64 = 1_000_000_000;

/// A snapshot as it is serialized: its length, then its bytes.
pub open spec fn snapshot_serialized(p: Seq<u8>) -> Seq<u8> {
    varint(p.len() as u64) + p
}

/// The events of a tick as they are serialized: their count, then each
/// encoded event.
pub open spec fn events_serialized(evs: Seq<Seq<u8>>) -> Seq<u8> {
    varint(evs.len() as u64) + evs.flatten_alt()
}

/// One record of a chunk: tick, size of the stored payload, payload.
pub open spec fn record_bytes(tick: u64, stored: Seq<u8>) -> Seq<u8> {
    fixed_u64(tick) + fixed_u64(stored.len() as u64) + stored
}

/// The records of a chunk, in order.
pub open spec fn records_bytes(ticks: Seq<u64>, stored: Seq<Seq<u8>>) -> Seq<u8>
    decreases ticks.len(),
{
    if ticks.len() == 0 {
        Seq::empty()
    } else {
        records_bytes(ticks.drop_last(), stored.drop_last()) + record_bytes(
            ticks.last(),
            stored.last(),
        )
    }
}

/// The uncompressed body of a chunk: the record count, then the records.
pub open spec fn chunk_body(ticks: Seq<u64>, stored: Seq<Seq<u8>>) -> Seq<u8> {
    fixed_u64(ticks.len() as u64) + records_bytes(ticks, stored)
}

/// The payloads a chunk stores: the first serialized payload compressed on
/// its own, then the binary diffs of each payload against the one before.
pub open spec fn stored_payloads(first: Seq<u8>, patches: Seq<Seq<u8>>) -> Seq<Seq<u8>> {
    seq![zstd_compressed(first)] + patches
}

/// A chunk as it is written: the byte length of the compressed body, then
/// the compressed body.
pub open spec fn chunk_frame(body: Seq<u8>) -> Seq<u8> {
    fixed_u64(zstd_compressed(body).len() as u64) + zstd_compressed(body)
}

/// The fixed-size header.
pub open spec fn header_bytes(secs: u64, nanos: u32, size_ext: u64, size_chunks: u64) -> Seq<u8> {
    fixed_u64(secs) + fixed_u32(nanos) + fixed_u64(size_ext) + fixed_u64(size_chunks)
}

/// The entries of an index map, each as key and value.
pub open spec fn index_entries_bytes(s: Seq<(u64, u64)>) -> Seq<u8>
    decreases s.len(),
{
    if s.len() == 0 {
        Seq::empty()
    } else {
        index_entries_bytes(s.drop_last()) + varint(s.last().0) + varint(s.last().1)
    }
}

/// An index map as it is serialized: its length, then its entries.
pub open spec fn index_bytes(s: Seq<(u64, u64)>) -> Seq<u8> {
    varint(s.len() as u64) + index_entries_bytes(s)
}

/// The serialized tail: the snapshot index, then the event index.
pub open spec fn tail_serialized(snapshots_index: Seq<(u64, u64)>, events_index: Seq<(u64, u64)>) -> Seq<u8> {
    index_bytes(snapshots_index) + index_bytes(events_index)
}

/// Whole seconds of a span of ticks.
pub open spec fn span_secs(first: u64, last: u64, tps: u64) -> u64 {
    ((last - first) / (tps as int)) as u64
}

/// The nanoseconds beyond the whole seconds of a span of ticks.
pub open spec fn span_nanos(first: u64, last: u64, tps: u64) -> u32 {
    (((last - first) % (tps as int)) * (NANOS_PER_SEC / tps) as int) as u32
}

/// The earliest of two optional ticks, preferring whichever is known.
pub open spec fn earliest(a: Option<u64>, b: Option<u64>) -> Option<u64> {
    match (a, b) {
        (Some(x), Some(y)) => Some(if x <= y { x } else { y }),
        (Some(x), None) => Some(x),
        (None, y) => y,
    }
}

/// The latest of two optional ticks, preferring whichever is known.
pub open spec fn latest(a: Option<u64>, b: Option<u64>) -> Option<u64> {
    match (a, b) {
        (Some(x), Some(y)) => Some(if x >= y { x } else { y }),
        (Some(x), None) => Some(x),
        (None, y) => y,
    }
}

/// Serializes a snapshot.
pub fn serialize_snapshot(p: &Vec<u8>) -> (r: Vec<u8>)
    ensures
        r@ == snapshot_serialized(p@),
{
    let mut out: Vec<u8> = Vec::new();
    write_varint(&mut out, p.len() as u64);
    extend(&mut out, p.as_slice());
    out
}

/// Serializes the events of one tick.
pub fn serialize_events(evs: &Vec<Vec<u8>>) -> (r: Vec<u8>)
    ensures
        r@ == events_serialized(evs.deep_view()),
{
    let mut out: Vec<u8> = Vec::new();
    write_varint(&mut out, evs.len() as u64);
    let ghost start = out@;
    let mut i: usize = 0;
    while i < evs.len()
        invariant
            i <= evs@.len(),
            out@ == start + evs.deep_view().take(i as int).flatten_alt(),
        decreases evs@.len() - i,
    {
        extend(&mut out, evs[i].as_slice());
        proof {
            let d = evs.deep_view();
            assert(d.take(i + 1).drop_last() =~= d.take(i as int));
            assert(d[i as int] == evs@[i as int]@);
        }
        i = i + 1;
    }
    assert(evs.deep_view().take(i as int) =~= evs.deep_view());
    out
}

/// Which buffer a chunk came from.
#[derive(Clone, Copy, PartialEq, Eq, Structural)]
pub enum ChunkKind {
    Snapshots,
    Events,
}

/// The entries of a chunk, with each payload serialized.
pub struct PreparedChunk {
    ticks: Vec<u64>,
    serialized: Vec<Vec<u8>>,
}

impl PreparedChunk {
    /// The ticks, ascending.
    pub closed spec fn ticks_view(&self) -> Seq<u64> {
        self.ticks@
    }

    /// The serialized payloads, one for each tick.
    pub closed spec fn serialized_view(&self) -> Seq<Seq<u8>> {
        self.serialized.deep_view()
    }

    /// Ticks ascend and each has its payload.
    pub open spec fn wf(&self) -> bool {
        &&& self.ticks_view().len() == self.serialized_view().len()
        &&& forall|i: int, j: int|
            0 <= i < j < self.ticks_view().len() ==> self.ticks_view()[i] < self.ticks_view()[j]
    }

    /// The ticks, ascending.
    pub fn ticks(&self) -> (r: &Vec<u64>)
        ensures
            r@ == self.ticks_view(),
    {
        &self.ticks
    }

    /// The serialized payloads; consecutive ones are what the binary diffs of
    /// a chunk are taken between.
    pub fn serialized(&self) -> (r: &Vec<Vec<u8>>)
        ensures
            r.deep_view() == self.serialized_view(),
    {
        &self.serialized
    }
}

/// Serializes the payloads of a chunk of snapshots.
pub fn prepare_snapshots(chunk: &TickMap<DemoSnapshot>) -> (r: PreparedChunk)
    requires
        chunk.wf(),
    ensures
        r.wf(),
        r.ticks_view() == chunk@.map_values(|e: (u64, Seq<u8>)| e.0),
        r.serialized_view() == chunk@.map_values(|e: (u64, Seq<u8>)| snapshot_serialized(e.1)),
{
    let mut ticks: Vec<u64> = Vec::new();
    let mut serialized: Vec<Vec<u8>> = Vec::new();
    let mut i: usize = 0;
    while i < chunk.len()
        invariant
            chunk.wf(),
            i <= chunk@.len(),
            ticks@ == chunk@.take(i as int).map_values(|e: (u64, Seq<u8>)| e.0),
            serialized.deep_view() == chunk@.take(i as int).map_values(
                |e: (u64, Seq<u8>)| snapshot_serialized(e.1),
            ),
        decreases chunk@.len() - i,
    {
        let p = chunk.value_at(i);
        assert(p.deep_view() =~= p@);
        let v = serialize_snapshot(p);
        let t = chunk.tick_at(i);
        let ghost sb = serialized.deep_view();
        assert(v.deep_view() =~= v@);
        ticks.push(t);
        serialized.push(v);
        proof {
            let c = chunk@;
            assert(c.take(i + 1) =~= c.take(i as int).push(c[i as int]));
            assert(ticks@ =~= c.take(i + 1).map_values(|e: (u64, Seq<u8>)| e.0));
            assert(serialized.deep_view() =~= sb.push(v@));
            assert(serialized.deep_view() =~= c.take(i + 1).map_values(
                |e: (u64, Seq<u8>)| snapshot_serialized(e.1),
            ));
        }
        i = i + 1;
    }
    proof {
        assert(chunk@.take(i as int) =~= chunk@);
    }
    PreparedChunk { ticks, serialized }
}

/// Serializes the payloads of a chunk of events.
pub fn prepare_events(chunk: &TickMap<DemoEvents>) -> (r: PreparedChunk)
    requires
        chunk.wf(),
    ensures
        r.wf(),
        r.ticks_view() == chunk@.map_values(|e: (u64, Seq<Seq<u8>>)| e.0),
        r.serialized_view() == chunk@.map_values(
            |e: (u64, Seq<Seq<u8>>)| events_serialized(e.1),
        ),
{
    let mut ticks: Vec<u64> = Vec::new();
    let mut serialized: Vec<Vec<u8>> = Vec::new();
    let mut i: usize = 0;
    while i < chunk.len()
        invariant
            chunk.wf(),
            i <= chunk@.len(),
            ticks@ == chunk@.take(i as int).map_values(|e: (u64, Seq<Seq<u8>>)| e.0),
            serialized.deep_view() == chunk@.take(i as int).map_values(
                |e: (u64, Seq<Seq<u8>>)| events_serialized(e.1),
            ),
        decreases chunk@.len() - i,
    {
        let v = serialize_events(chunk.value_at(i));
        let t = chunk.tick_at(i);
        let ghost sb = serialized.deep_view();
        assert(v.deep_view() =~= v@);
        ticks.push(t);
        serialized.push(v);
        proof {
            let c = chunk@;
            assert(c.take(i + 1) =~= c.take(i as int).push(c[i as int]));
            assert(ticks@ =~= c.take(i + 1).map_values(|e: (u64, Seq<Seq<u8>>)| e.0));
            assert(serialized.deep_view() =~= sb.push(v@));
            assert(serialized.deep_view() =~= c.take(i + 1).map_values(
                |e: (u64, Seq<Seq<u8>>)| events_serialized(e.1),
            ));
        }
        i = i + 1;
    }
    proof {
        assert(chunk@.take(i as int) =~= chunk@);
    }
    PreparedChunk { ticks, serialized }
}

/// Writes the uncompressed body of a chunk.
fn encode_chunk_body(ticks: &Vec<u64>, first: &Vec<u8>, patches: &Vec<Vec<u8>>) -> (r: Vec<u8>)
    requires
        ticks@.len() == patches@.len() + 1,
    ensures
        r@ == chunk_body(ticks@, seq![first@] + patches.deep_view()),
{
    let ghost stored = seq![first@] + patches.deep_view();
    let mut out: Vec<u8> = Vec::new();
    write_fixed_u64(&mut out, ticks.len() as u64);
    let ghost start = out@;
    let mut i: usize = 0;
    while i < ticks.len()
        invariant
            i <= ticks@.len(),
            ticks@.len() == patches@.len() + 1,
            stored == seq![first@] + patches.deep_view(),
            out@ == start + records_bytes(ticks@.take(i as int), stored.take(i as int)),
        decreases ticks@.len() - i,
    {
        let payload: &Vec<u8> = if i == 0 {
            first
        } else {
            &patches[i - 1]
        };
        assert(payload@ == stored[i as int]);
        write_fixed_u64(&mut out, ticks[i]);
        write_fixed_u64(&mut out, payload.len() as u64);
        extend(&mut out, payload.as_slice());
        proof {
            assert(ticks@.take(i + 1).drop_last() =~= ticks@.take(i as int));
            assert(stored.take(i + 1).drop_last() =~= stored.take(i as int));
            assert(out@ =~= start + records_bytes(ticks@.take(i + 1), stored.take(i + 1)));
        }
        i = i + 1;
    }
    proof {
        assert(ticks@.take(i as int) =~= ticks@);
        assert(stored.take(i as int) =~= stored);
    }
    out
}

/// Writes the serialized entries of an index map.
fn encode_index(index: &TickMap<u64>, out: &mut Vec<u8>)
    ensures
        final(out)@ == old(out)@ + index_bytes(index@),
{
    write_varint(out, index.len() as u64);
    let ghost start = out@;
    let mut i: usize = 0;
    while i < index.len()
        invariant
            i <= index@.len(),
            out@ == start + index_entries_bytes(index@.take(i as int)),
        decreases index@.len() - i,
    {
        let k = index.tick_at(i);
        let v = *index.value_at(i);
        write_varint(out, k);
        write_varint(out, v);
        proof {
            assert(index@.take(i + 1).drop_last() =~= index@.take(i as int));
            assert(out@ =~= start + index_entries_bytes(index@.take(i + 1)));
        }
        i = i + 1;
    }
    assert(index@.take(i as int) =~= index@);
}

/// Why the writer gave up.
#[derive(Clone, Copy, PartialEq, Eq, Structural, Debug)]
pub enum DemoWriteError {
    /// A chunk without entries.
    EmptyChunk,
    /// The diffs handed in do not match the entries of the chunk.
    PatchCountMismatch,
    /// The chunk starts before the first chunk of its kind did.
    FirstTickNotMonotonic,
    /// The chunk ends before the previous chunk of its kind did.
    LastTickNotMonotonic,
    /// The compressor failed.
    Compression,
    /// The chunk region grew past what its size field can hold.
    TooLarge,
}

/// Whether a chunk with these ticks may follow the chunks of its kind so far.
pub open spec fn chunk_acceptable(first: Option<u64>, last: Option<u64>, ticks: Seq<u64>) -> bool {
    &&& ticks.len() > 0
    &&& (first matches Some(f) ==> f <= ticks[0])
    &&& (last matches Some(l) ==> l <= ticks.last())
}

/// The state of the writer thread between chunks.
pub struct DemoWriter {
    /// Simulation ticks per second; never zero.
    pub ticks_per_second: u64,
    /// Byte length of the compressed header extension.
    pub header_ext_len: u64,
    /// Bytes of chunks written so far.
    pub chunks_size: u64,
    /// First tick of the first snapshot chunk.
    pub first_monotonic_snaps: Option<u64>,
    /// Last tick of the latest snapshot chunk.
    pub last_monotonic_snaps: Option<u64>,
    /// First tick of the first event chunk.
    pub first_monotonic_events: Option<u64>,
    /// Last tick of the latest event chunk.
    pub last_monotonic_events: Option<u64>,
    /// Where each snapshot chunk starts, by its first tick, relative to the
    /// start of the chunk region.
    pub snapshots_index: TickMap<u64>,
    /// Where each event chunk starts, by its first tick.
    pub events_index: TickMap<u64>,
    /// Every chunk byte written so far.
    pub chunk_region: Ghost<Seq<u8>>,
    /// The first ticks of the snapshot chunks written so far.
    pub snapshot_chunk_starts: Ghost<Set<u64>>,
    /// The first ticks of the event chunks written so far.
    pub event_chunk_starts: Ghost<Set<u64>>,
}

/// What is left to write once the channel closed: the tail, to append, and
/// the final header, to write over the placeholder at the start.
pub struct DemoFinish {
    pub tail: Vec<u8>,
    pub header: Vec<u8>,
}

impl DemoWriter {
    /// The writer's bookkeeping agrees with itself.
    pub open spec fn wf(&self) -> bool {
        &&& self.ticks_per_second > 0
        &&& self.snapshots_index.wf()
        &&& self.events_index.wf()
        &&& self.chunks_size == self.chunk_region@.len()
        &&& forall|k: u64|
            #[trigger] has_tick(self.snapshots_index@, k)
                <==> self.snapshot_chunk_starts@.contains(k)
        &&& forall|k: u64|
            #[trigger] has_tick(self.events_index@, k) <==> self.event_chunk_starts@.contains(
                k,
            )
        &&& self.first_monotonic_snaps.is_some() == self.last_monotonic_snaps.is_some()
        &&& self.first_monotonic_events.is_some() == self.last_monotonic_events.is_some()
        &&& self.first_monotonic_snaps.is_some() == (self.snapshots_index@.len() > 0)
        &&& self.first_monotonic_events.is_some() == (self.events_index@.len() > 0)
        &&& (self.first_monotonic_snaps.is_some() || self.first_monotonic_events.is_some())
            ==> self.chunks_size >= 8
        &&& (self.first_monotonic_snaps matches Some(f) ==> self.last_monotonic_snaps matches Some(
            l,
        ) && f <= l)
        &&& (self.first_monotonic_events matches Some(f) ==> self.last_monotonic_events matches Some(
            l,
        ) && f <= l)
    }

    /// First tick of the first chunk of a kind.
    pub open spec fn kind_first(&self, kind: ChunkKind) -> Option<u64> {
        match kind {
            ChunkKind::Snapshots => self.first_monotonic_snaps,
            ChunkKind::Events => self.first_monotonic_events,
        }
    }

    /// Last tick of the latest chunk of a kind.
    pub open spec fn kind_last(&self, kind: ChunkKind) -> Option<u64> {
        match kind {
            ChunkKind::Snapshots => self.last_monotonic_snaps,
            ChunkKind::Events => self.last_monotonic_events,
        }
    }

    /// The index of a kind.
    pub open spec fn kind_index(&self, kind: ChunkKind) -> Seq<(u64, u64)> {
        match kind {
            ChunkKind::Snapshots => self.snapshots_index@,
            ChunkKind::Events => self.events_index@,
        }
    }

    /// The first ticks of the chunks of a kind written so far.
    pub open spec fn kind_starts(&self, kind: ChunkKind) -> Set<u64> {
        match kind {
            ChunkKind::Snapshots => self.snapshot_chunk_starts@,
            ChunkKind::Events => self.event_chunk_starts@,
        }
    }

    /// The bookkeeping of a kind did not change.
    pub open spec fn kind_unchanged(&self, other: &DemoWriter, kind: ChunkKind) -> bool {
        &&& self.kind_first(kind) == other.kind_first(kind)
        &&& self.kind_last(kind) == other.kind_last(kind)
        &&& self.kind_index(kind) == other.kind_index(kind)
        &&& self.kind_starts(kind) == other.kind_starts(kind)
    }

    /// Whether any chunk was written.
    pub open spec fn has_chunks(&self) -> bool {
        self.first_monotonic_snaps.is_some() || self.first_monotonic_events.is_some()
    }

    /// Starts a demo: returns the writer and the bytes that open the file,
    /// a header whose `size_chunks` is zero followed by the compressed
    /// header extension.
    pub fn new(header_ext: &DemoHeaderExt) -> (r: Result<(DemoWriter, Vec<u8>), DemoWriteError>)
        requires
            header_ext.ticks_per_second > 0,
        ensures
            r matches Ok((w, bytes)) ==> {
                &&& w.wf()
                &&& !w.has_chunks()
                &&& w.chunks_size == 0
                &&& w.ticks_per_second == header_ext.ticks_per_second
                &&& w.header_ext_len == zstd_compressed(header_ext.serialized@).len()
                &&& bytes@ == header_bytes(0, 0, w.header_ext_len, 0) + zstd_compressed(
                    header_ext.serialized@,
                )
            },
            r matches Err(e) ==> e == DemoWriteError::Compression,
    {
        let ext = match compress(header_ext.serialized.as_slice()) {
            Some(c) => c,
            None => return Err(DemoWriteError::Compression),
        };
        let ext_len = ext.len() as u64;
        let mut bytes: Vec<u8> = Vec::new();
        write_fixed_u64(&mut bytes, 0);
        write_fixed_u32(&mut bytes, 0);
        write_fixed_u64(&mut bytes, ext_len);
        write_fixed_u64(&mut bytes, 0);
        extend(&mut bytes, ext.as_slice());
        let w = DemoWriter {
            ticks_per_second: header_ext.ticks_per_second,
            header_ext_len: ext_len,
            chunks_size: 0,
            first_monotonic_snaps: None,
            last_monotonic_snaps: None,
            first_monotonic_events: None,
            last_monotonic_events: None,
            snapshots_index: TickMap::new(),
            events_index: TickMap::new(),
            chunk_region: Ghost(Seq::empty()),
            snapshot_chunk_starts: Ghost(Set::empty()),
            event_chunk_starts: Ghost(Set::empty()),
        };
        Ok((w, bytes))
    }

    /// Frames a chunk and records where it starts. `patches[i]` is the binary
    /// diff from the serialized payload `i` to payload `i + 1`. Returns the
    /// bytes to append to the demo.
    ///
    /// Fails without a change if the chunk is empty, if the diffs do not fit
    /// the entries, if the chunk starts before the first chunk of its kind,
    /// or if it ends before the previous chunk of its kind; and if the
    /// compressor fails or the chunk region would outgrow its size field.
    pub fn write_chunk(
        &mut self,
        kind: ChunkKind,
        chunk: &PreparedChunk,
        patches: &Vec<Vec<u8>>,
    ) -> (r: Result<Vec<u8>, DemoWriteError>)
        requires
            old(self).wf(),
            chunk.wf(),
        ensures
            final(self).wf(),
            r is Err ==> *final(self) == *old(self),
            chunk.ticks_view().len() == 0 ==> r == Err::<Vec<u8>, _>(DemoWriteError::EmptyChunk),
            chunk.ticks_view().len() > 0 && patches@.len() + 1 != chunk.ticks_view().len() ==> r
                == Err::<Vec<u8>, _>(DemoWriteError::PatchCountMismatch),
            chunk.ticks_view().len() > 0 && patches@.len() + 1 == chunk.ticks_view().len() && (
            old(self).kind_first(kind) matches Some(f) && chunk.ticks_view()[0] < f) ==> r == Err::<
                Vec<u8>,
                _,
            >(DemoWriteError::FirstTickNotMonotonic),
            chunk.ticks_view().len() > 0 && patches@.len() + 1 == chunk.ticks_view().len() && !(old(
                self,
            ).kind_first(kind) matches Some(f) && chunk.ticks_view()[0] < f) && (old(self).kind_last(
                kind,
            ) matches Some(l) && chunk.ticks_view().last() < l) ==> r == Err::<Vec<u8>, _>(
                DemoWriteError::LastTickNotMonotonic,
            ),
            chunk.ticks_view().len() > 0 && patches@.len() + 1 == chunk.ticks_view().len()
                && chunk_acceptable(old(self).kind_first(kind), old(self).kind_last(kind), chunk.ticks_view())
                ==> (r is Ok || r == Err::<Vec<u8>, _>(DemoWriteError::Compression) || r == Err::<
                Vec<u8>,
                _,
            >(DemoWriteError::TooLarge)),
            r == Err::<Vec<u8>, _>(DemoWriteError::TooLarge) ==> old(self).chunks_size + 8
                + zstd_compressed(
                chunk_body(
                    chunk.ticks_view(),
                    stored_payloads(chunk.serialized_view()[0], patches.deep_view()),
                ),
            ).len() > u64::MAX,
            r matches Ok(bytes) ==> {
                let t = chunk.ticks_view();
                &&& t.len() > 0
                &&& patches@.len() + 1 == t.len()
                &&& chunk_acceptable(old(self).kind_first(kind), old(self).kind_last(kind), t)
                &&& bytes@ == chunk_frame(
                    chunk_body(t, stored_payloads(chunk.serialized_view()[0], patches.deep_view())),
                )
                &&& zstd_decoded(
                    zstd_compressed(
                        chunk_body(t, stored_payloads(chunk.serialized_view()[0], patches.deep_view())),
                    ),
                ) == Some(
                    chunk_body(t, stored_payloads(chunk.serialized_view()[0], patches.deep_view())),
                )
                &&& zstd_decoded(zstd_compressed(chunk.serialized_view()[0])) == Some(
                    chunk.serialized_view()[0],
                )
                &&& final(self).kind_starts(kind) == old(self).kind_starts(kind).insert(t[0])
                &&& final(self).chunk_region@ == old(self).chunk_region@ + bytes@
                &&& final(self).chunks_size == old(self).chunks_size + bytes@.len()
                &&& final(self).kind_index(kind) == upsert(
                    old(self).kind_index(kind),
                    t[0],
                    old(self).chunks_size,
                )
                &&& final(self).kind_first(kind) == Some(
                    match old(self).kind_first(kind) {
                        Some(f) => f,
                        None => t[0],
                    },
                )
                &&& final(self).kind_last(kind) == Some(t.last())
                &&& final(self).kind_unchanged(
                    old(self),
                    match kind {
                        ChunkKind::Snapshots => ChunkKind::Events,
                        ChunkKind::Events => ChunkKind::Snapshots,
                    },
                )
                &&& final(self).ticks_per_second == old(self).ticks_per_second
                &&& final(self).header_ext_len == old(self).header_ext_len
            },
    {
        let ticks = chunk.ticks();
        let serialized = chunk.serialized();
        let n = ticks.len();
        if n == 0 {
            return Err(DemoWriteError::EmptyChunk);
        }
        if patches.len() != n - 1 {
            return Err(DemoWriteError::PatchCountMismatch);
        }
        let first_tick = ticks[0];
        let last_tick = ticks[n - 1];
        let (first_mono, last_mono) = match kind {
            ChunkKind::Snapshots => (self.first_monotonic_snaps, self.last_monotonic_snaps),
            ChunkKind::Events => (self.first_monotonic_events, self.last_monotonic_events),
        };
        if let Some(f) = first_mono {
            if first_tick < f {
                return Err(DemoWriteError::FirstTickNotMonotonic);
            }
        }
        if let Some(l) = last_mono {
            if last_tick < l {
                return Err(DemoWriteError::LastTickNotMonotonic);
            }
        }
        let first_serialized: &Vec<u8> = &serialized[0];
        assert(first_serialized@ == chunk.serialized_view()[0]);
        let first_stored = match compress(first_serialized.as_slice()) {
            Some(c) => c,
            None => return Err(DemoWriteError::Compression),
        };
        let body = encode_chunk_body(ticks, &first_stored, patches);
        let compressed = match compress(body.as_slice()) {
            Some(c) => c,
            None => return Err(DemoWriteError::Compression),
        };
        let mut bytes: Vec<u8> = Vec::new();
        write_fixed_u64(&mut bytes, compressed.len() as u64);
        extend(&mut bytes, compressed.as_slice());
        proof {
            vstd::bytes::lemma_auto_spec_u64_to_from_le_bytes();
            assert(seq![first_stored@] + patches.deep_view() == stored_payloads(
                chunk.serialized_view()[0],
                patches.deep_view(),
            ));
            assert(bytes@.len() == 8 + compressed@.len());
        }
        let new_size = match self.chunks_size.checked_add(bytes.len() as u64) {
            Some(s) => s,
            None => return Err(DemoWriteError::TooLarge),
        };
        proof {
            assert(seq![first_stored@] + patches.deep_view() == stored_payloads(
                chunk.serialized_view()[0],
                patches.deep_view(),
            ));
            if n > 1 {
                assert(ticks@[0] < ticks@[n - 1]);
            }
        }
        let offset = self.chunks_size;
        match kind {
            ChunkKind::Snapshots => {
                self.snapshots_index.insert(first_tick, offset);
                self.snapshot_chunk_starts = Ghost(self.snapshot_chunk_starts@.insert(first_tick));
                self.first_monotonic_snaps = Some(
                    match first_mono {
                        Some(f) => f,
                        None => first_tick,
                    },
                );
                self.last_monotonic_snaps = Some(last_tick);
            },
            ChunkKind::Events => {
                self.events_index.insert(first_tick, offset);
                self.event_chunk_starts = Ghost(self.event_chunk_starts@.insert(first_tick));
                self.first_monotonic_events = Some(
                    match first_mono {
                        Some(f) => f,
                        None => first_tick,
                    },
                );
                self.last_monotonic_events = Some(last_tick);
            },
        }
        self.chunks_size = new_size;
        self.chunk_region = Ghost(self.chunk_region@ + bytes@);
        proof {
            vstd::bytes::lemma_auto_spec_u64_to_from_le_bytes();
            crate::tick_map::lemma_upsert_ascending(
                old(self).kind_index(kind),
                first_tick,
                offset,
            );
        }
        Ok(bytes)
    }

    /// Ends a demo whose channel closed. Without any chunk there is nothing
    /// more to write: the header keeps `size_chunks` at zero and no tail
    /// follows. Otherwise returns the compressed tail and the final header,
    /// with the length of the span of ticks and the size of the chunk region.
    pub fn finish(&self) -> (r: Result<Option<DemoFinish>, DemoWriteError>)
        requires
            self.wf(),
        ensures
            !self.has_chunks() ==> r matches Ok(None),
            self.has_chunks() ==> (r matches Ok(Some(_)) || r == Err::<Option<DemoFinish>, _>(
                DemoWriteError::Compression,
            )),
            r matches Ok(Some(f)) ==> {
                let first = earliest(self.first_monotonic_snaps, self.first_monotonic_events)->0;
                let last = latest(self.last_monotonic_snaps, self.last_monotonic_events)->0;
                &&& self.has_chunks()
                &&& first <= last
                &&& f.tail@ == zstd_compressed(
                    tail_serialized(self.snapshots_index@, self.events_index@),
                )
                &&& f.header@ == header_bytes(
                    span_secs(first, last, self.ticks_per_second),
                    span_nanos(first, last, self.ticks_per_second),
                    self.header_ext_len,
                    self.chunks_size,
                )
            },
    {
        let first = match (self.first_monotonic_snaps, self.first_monotonic_events) {
            (Some(x), Some(y)) => Some(
                if x <= y {
                    x
                } else {
                    y
                },
            ),
            (Some(x), None) => Some(x),
            (None, y) => y,
        };
        let last = match (self.last_monotonic_snaps, self.last_monotonic_events) {
            (Some(x), Some(y)) => Some(
                if x >= y {
                    x
                } else {
                    y
                },
            ),
            (Some(x), None) => Some(x),
            (None, y) => y,
        };
        let (first, last) = match (first, last) {
            (Some(f), Some(l)) => (f, l),
            _ => return Ok(None),
        };
        let mut tail_plain: Vec<u8> = Vec::new();
        encode_index(&self.snapshots_index, &mut tail_plain);
        encode_index(&self.events_index, &mut tail_plain);
        let tail = match compress(tail_plain.as_slice()) {
            Some(c) => c,
            None => return Err(DemoWriteError::Compression),
        };
        let tps = self.ticks_per_second;
        let span = last - first;
        let secs = span / tps;
        let rem = span % tps;
        let per_tick = NANOS_PER_SEC / tps;
        assert(rem * per_tick <= NANOS_PER_SEC) by (nonlinear_arith)
            requires
                rem < tps,
                per_tick == NANOS_PER_SEC / tps,
                tps > 0,
        ;
        let nanos = (rem * per_tick) as u32;
        let mut header: Vec<u8> = Vec::new();
        write_fixed_u64(&mut header, secs);
        write_fixed_u32(&mut header, nanos);
        write_fixed_u64(&mut header, self.header_ext_len);
        write_fixed_u64(&mut header, self.chunks_size);
        Ok(Some(DemoFinish { tail, header }))
    }
}

/// Once any chunk was written, the size that the final header records for
/// the chunk region is not zero and is the number of chunk bytes written, and
/// the keys of the two indices of the tail are exactly the first ticks of the
/// chunks written.
pub proof fn lemma_finished_demo_accounts_for_chunks(w: &DemoWriter)
    requires
        w.wf(),
        w.has_chunks(),
    ensures
        w.chunks_size == w.chunk_region@.len(),
        w.chunks_size > 0,
        forall|k: u64|
            #[trigger] has_tick(w.snapshots_index@, k) <==> w.snapshot_chunk_starts@.contains(
                k,
            ),
        forall|k: u64|
            #[trigger] has_tick(w.events_index@, k) <==> w.event_chunk_starts@.contains(k),
{
}

} // verus!
