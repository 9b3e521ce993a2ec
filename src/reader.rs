//! Reading back what the writer produced: the fixed header and the chunks.
use crate::codec::{decompress, fixed_u64, varint, zstd_compressed, zstd_decoded};
use crate::writer::{
    chunk_body, chunk_frame, header_bytes, record_bytes, records_bytes, snapshot_serialized,
    stored_payloads,
};
use vstd::bytes::{
    lemma_auto_spec_u16_to_from_le_bytes, lemma_auto_spec_u32_to_from_le_bytes,
    lemma_auto_spec_u64_to_from_le_bytes, spec_u16_from_le_bytes, spec_u32_from_le_bytes,
    spec_u64_from_le_bytes, u16_from_le_bytes, u32_from_le_bytes, u64_from_le_bytes,
};
use vstd::prelude::*;
use vstd::slice::{slice_subrange, slice_to_vec};

verus! {

/// Reads `n` records from `b`, which must hold exactly those records.
pub open spec fn parse_records(b: Seq<u8>, n: nat) -> Option<(Seq<u64>, Seq<Seq<u8>>)>
    decreases n,
{
    if n == 0 {
        if b.len() == 0 {
            Some((Seq::empty(), Seq::empty()))
        } else {
            None
        }
    } else if b.len() < 16 {
        None
    } else {
        let tick = spec_u64_from_le_bytes(b.subrange(0, 8));
        let size = spec_u64_from_le_bytes(b.subrange(8, 16));
        if b.len() - 16 < size {
            None
        } else {
            match parse_records(b.subrange(16 + size, b.len() as int), (n - 1) as nat) {
                Some(r) => Some((seq![tick] + r.0, seq![b.subrange(16, 16 + size)] + r.1)),
                None => None,
            }
        }
    }
}

/// Reads an uncompressed chunk body: the record count, then the records.
pub open spec fn parse_chunk_body(b: Seq<u8>) -> Option<(Seq<u64>, Seq<Seq<u8>>)> {
    if b.len() < 8 {
        None
    } else {
        parse_records(b.skip(8), spec_u64_from_le_bytes(b.take(8)) as nat)
    }
}

/// Reads a chunk as written: its length, then the compressed body.
pub open spec fn parse_chunk_frame(f: Seq<u8>) -> Option<(Seq<u64>, Seq<Seq<u8>>)> {
    if f.len() < 8 || spec_u64_from_le_bytes(f.take(8)) != f.len() - 8 {
        None
    } else {
        match zstd_decoded(f.skip(8)) {
            Some(body) => parse_chunk_body(body),
            None => None,
        }
    }
}

/// The records read so far, followed by what the rest gives.
pub open spec fn prepend(
    ticks: Seq<u64>,
    stored: Seq<Seq<u8>>,
    rest: Option<(Seq<u64>, Seq<Seq<u8>>)>,
) -> Option<(Seq<u64>, Seq<Seq<u8>>)> {
    match rest {
        Some(r) => Some((ticks + r.0, stored + r.1)),
        None => None,
    }
}

/// The records of a chunk split off at the front.
pub proof fn lemma_records_front(ticks: Seq<u64>, stored: Seq<Seq<u8>>)
    requires
        ticks.len() == stored.len(),
        ticks.len() > 0,
    ensures
        records_bytes(ticks, stored) == record_bytes(ticks[0], stored[0]) + records_bytes(
            ticks.drop_first(),
            stored.drop_first(),
        ),
    decreases ticks.len(),
{
    if ticks.len() == 1 {
        assert(ticks.drop_last() =~= Seq::<u64>::empty());
        assert(stored.drop_last() =~= Seq::<Seq<u8>>::empty());
        assert(ticks.drop_first() =~= Seq::<u64>::empty());
        assert(stored.drop_first() =~= Seq::<Seq<u8>>::empty());
        assert(records_bytes(ticks.drop_last(), stored.drop_last()) == Seq::<u8>::empty());
        assert(records_bytes(ticks, stored) =~= record_bytes(ticks[0], stored[0]));
        assert(record_bytes(ticks[0], stored[0]) + records_bytes(
            ticks.drop_first(),
            stored.drop_first(),
        ) =~= record_bytes(ticks[0], stored[0]));
    } else {
        let t = ticks.drop_last();
        let s = stored.drop_last();
        lemma_records_front(t, s);
        assert(t.drop_first() =~= ticks.drop_first().drop_last());
        assert(s.drop_first() =~= stored.drop_first().drop_last());
        assert(records_bytes(ticks.drop_first(), stored.drop_first()) == records_bytes(
            t.drop_first(),
            s.drop_first(),
        ) + record_bytes(ticks.last(), stored.last()));
        assert(records_bytes(ticks, stored) =~= record_bytes(ticks[0], stored[0]) + records_bytes(
            ticks.drop_first(),
            stored.drop_first(),
        ));
    }
}

/// Reading records back gives the ticks and stored payloads they were
/// written from.
pub proof fn lemma_records_round_trip(ticks: Seq<u64>, stored: Seq<Seq<u8>>)
    requires
        ticks.len() == stored.len(),
        forall|i: int| 0 <= i < stored.len() ==> #[trigger] stored[i].len() <= u64::MAX,
    ensures
        parse_records(records_bytes(ticks, stored), ticks.len()) == Some((ticks, stored)),
    decreases ticks.len(),
{
    lemma_auto_spec_u64_to_from_le_bytes();
    if ticks.len() == 0 {
        assert(ticks =~= Seq::<u64>::empty());
        assert(stored =~= Seq::<Seq<u8>>::empty());
    } else {
        lemma_records_front(ticks, stored);
        let t1 = ticks.drop_first();
        let s1 = stored.drop_first();
        assert forall|i: int| 0 <= i < s1.len() implies #[trigger] s1[i].len() <= u64::MAX by {
            assert(s1[i] == stored[i + 1]);
        }
        lemma_records_round_trip(t1, s1);
        let b = records_bytes(ticks, stored);
        let p = stored[0];
        assert(stored[0].len() <= u64::MAX);
        let size = p.len() as u64;
        assert(b.subrange(0, 8) =~= fixed_u64(ticks[0]));
        assert(b.subrange(8, 16) =~= fixed_u64(size));
        assert(b.subrange(16, 16 + size) =~= p);
        assert(b.subrange(16 + size, b.len() as int) =~= records_bytes(t1, s1));
        assert(seq![ticks[0]] + t1 =~= ticks);
        assert(seq![p] + s1 =~= stored);
    }
}

/// A chunk body reads back as the ticks and stored payloads it was made of.
pub proof fn lemma_chunk_body_round_trip(ticks: Seq<u64>, stored: Seq<Seq<u8>>)
    requires
        ticks.len() == stored.len(),
        ticks.len() <= u64::MAX,
        forall|i: int| 0 <= i < stored.len() ==> #[trigger] stored[i].len() <= u64::MAX,
    ensures
        parse_chunk_body(chunk_body(ticks, stored)) == Some((ticks, stored)),
{
    lemma_auto_spec_u64_to_from_le_bytes();
    lemma_records_round_trip(ticks, stored);
    let b = chunk_body(ticks, stored);
    assert(b.take(8) =~= fixed_u64(ticks.len() as u64));
    assert(b.skip(8) =~= records_bytes(ticks, stored));
}

/// A framed chunk reads back as the ticks it holds and the payloads it
/// stores, in order, once its compressed body decodes to what was compressed
/// (which `write_chunk` guarantees of every chunk it returns).
pub proof fn lemma_chunk_frame_round_trip(ticks: Seq<u64>, stored: Seq<Seq<u8>>)
    requires
        ticks.len() == stored.len(),
        ticks.len() <= u64::MAX,
        forall|i: int| 0 <= i < stored.len() ==> #[trigger] stored[i].len() <= u64::MAX,
        zstd_compressed(chunk_body(ticks, stored)).len() <= u64::MAX,
        zstd_decoded(zstd_compressed(chunk_body(ticks, stored))) == Some(chunk_body(ticks, stored)),
    ensures
        parse_chunk_frame(chunk_frame(chunk_body(ticks, stored))) == Some((ticks, stored)),
{
    lemma_auto_spec_u64_to_from_le_bytes();
    lemma_chunk_body_round_trip(ticks, stored);
    let body = chunk_body(ticks, stored);
    let f = chunk_frame(body);
    let c = zstd_compressed(body);
    assert(f.take(8) =~= fixed_u64(c.len() as u64));
    assert(f.skip(8) =~= c);
}

/// Reads an 8-byte little endian integer at `pos`.
fn read_u64_at(b: &[u8], pos: usize) -> (r: u64)
    requires
        pos + 8 <= b@.len(),
    ensures
        r == spec_u64_from_le_bytes(b@.subrange(pos as int, pos + 8)),
{
    let l = b.len();
    assert(pos + 8 <= l);
    let s = slice_subrange(b, pos, pos + 8);
    u64_from_le_bytes(s)
}

/// Reads an uncompressed chunk body into its ticks and stored payloads.
pub fn read_chunk_body(body: &[u8]) -> (r: Option<(Vec<u64>, Vec<Vec<u8>>)>)
    ensures
        r matches Some((t, s)) ==> parse_chunk_body(body@) == Some((t@, s.deep_view())),
        r is None ==> parse_chunk_body(body@) is None,
{
    if body.len() < 8 {
        return None;
    }
    let n = read_u64_at(body, 0);
    assert(body@.subrange(0, 8) =~= body@.take(8));
    let ghost all = body@.skip(8);
    let mut ticks: Vec<u64> = Vec::new();
    let mut stored: Vec<Vec<u8>> = Vec::new();
    let mut pos: usize = 8;
    let mut i: u64 = 0;
    while i < n
        invariant
            8 <= pos <= body@.len(),
            i <= n,
            all == body@.skip(8),
            n == spec_u64_from_le_bytes(body@.take(8)),
            parse_records(all, n as nat) == prepend(
                ticks@,
                stored.deep_view(),
                parse_records(body@.subrange(pos as int, body@.len() as int), (n - i) as nat),
            ),
        decreases n - i,
    {
        let ghost rest = body@.subrange(pos as int, body@.len() as int);
        if body.len() - pos < 16 {
            return None;
        }
        let tick = read_u64_at(body, pos);
        let size = read_u64_at(body, pos + 8);
        assert(rest.subrange(0, 8) =~= body@.subrange(pos as int, pos + 8));
        assert(rest.subrange(8, 16) =~= body@.subrange(pos + 8, pos + 16));
        if ((body.len() - pos - 16) as u64) < size {
            return None;
        }
        let start = pos + 16;
        let end = start + size as usize;
        let payload = slice_to_vec(slice_subrange(body, start, end));
        assert(rest.subrange(16, 16 + size) =~= payload@);
        assert(rest.subrange(16 + size, rest.len() as int) =~= body@.subrange(
            end as int,
            body@.len() as int,
        ));
        let ghost tb = ticks@;
        let ghost sb = stored.deep_view();
        ticks.push(tick);
        assert(payload.deep_view() =~= payload@);
        stored.push(payload);
        proof {
            assert(ticks@ =~= tb + seq![tick]);
            assert(stored.deep_view() =~= sb + seq![payload@]);
            let tail = parse_records(body@.subrange(end as int, body@.len() as int), (n - i - 1) as nat);
            if let Some(tr) = tail {
                assert(tb + (seq![tick] + tr.0) =~= (tb + seq![tick]) + tr.0);
                assert(sb + (seq![payload@] + tr.1) =~= (sb + seq![payload@]) + tr.1);
            }
        }
        pos = end;
        i = i + 1;
    }
    if pos != body.len() {
        return None;
    }
    proof {
        assert(body@.subrange(pos as int, body@.len() as int) =~= Seq::<u8>::empty());
        assert(ticks@ + Seq::<u64>::empty() =~= ticks@);
        assert(stored.deep_view() + Seq::<Seq<u8>>::empty() =~= stored.deep_view());
    }
    Some((ticks, stored))
}

/// Reads a chunk as written into its ticks and stored payloads.
pub fn read_chunk(frame: &[u8]) -> (r: Option<(Vec<u64>, Vec<Vec<u8>>)>)
    ensures
        r matches Some((t, s)) ==> parse_chunk_frame(frame@) == Some((t@, s.deep_view())),
        r is None ==> parse_chunk_frame(frame@) is None,
{
    if frame.len() < 8 {
        return None;
    }
    let len = read_u64_at(frame, 0);
    assert(frame@.subrange(0, 8) =~= frame@.take(8));
    if len != (frame.len() - 8) as u64 {
        return None;
    }
    let compressed = slice_subrange(frame, 8, frame.len());
    assert(compressed@ =~= frame@.skip(8));
    match decompress(compressed) {
        Some(body) => read_chunk_body(body.as_slice()),
        None => None,
    }
}

/// Size in bytes of the fixed header.
pub const DEMO_HEADER_SIZE: usize = 28;

/// The fixed-size header at the start of a demo.
pub struct DemoHeader {
    /// Whole seconds the demo spans.
    pub len_secs: u64,
    /// Nanoseconds beyond the whole seconds.
    pub len_nanos: u32,
    /// Byte length of the compressed header extension.
    pub size_ext: u64,
    /// Byte length of the chunk region; zero while the demo is unfinished.
    pub size_chunks: u64,
}

impl DemoHeader {
    /// A demo is only valid once it was finished, which sets the size of its
    /// chunk region.
    pub fn is_complete(&self) -> (r: bool)
        ensures
            r == (self.size_chunks != 0),
    {
        self.size_chunks != 0
    }
}

/// Reads the fixed header at the start of `b`.
pub fn read_header(b: &[u8]) -> (r: Option<DemoHeader>)
    ensures
        r is None <==> b@.len() < DEMO_HEADER_SIZE,
        r matches Some(h) ==> b@.take(DEMO_HEADER_SIZE as int) == header_bytes(
            h.len_secs,
            h.len_nanos,
            h.size_ext,
            h.size_chunks,
        ),
{
    if b.len() < DEMO_HEADER_SIZE {
        return None;
    }
    let len_secs = read_u64_at(b, 0);
    let len_nanos = u32_from_le_bytes(slice_subrange(b, 8, 12));
    let size_ext = read_u64_at(b, 12);
    let size_chunks = read_u64_at(b, 20);
    proof {
        lemma_auto_spec_u64_to_from_le_bytes();
        lemma_auto_spec_u32_to_from_le_bytes();
        let s = b@;
        assert(s.take(28) =~= s.subrange(0, 8) + s.subrange(8, 12) + s.subrange(12, 20)
            + s.subrange(20, 28));
    }
    Some(DemoHeader { len_secs, len_nanos, size_ext, size_chunks })
}

/// Reads a variable-length integer at the start of `b`: its value and the
/// number of bytes it takes.
pub open spec fn parse_varint(b: Seq<u8>) -> Option<(u64, int)> {
    if b.len() < 1 {
        None
    } else if b[0] <= 250 {
        Some((b[0] as u64, 1))
    } else if b[0] == 251 {
        if b.len() < 3 {
            None
        } else {
            Some((spec_u16_from_le_bytes(b.subrange(1, 3)) as u64, 3))
        }
    } else if b[0] == 252 {
        if b.len() < 5 {
            None
        } else {
            Some((spec_u32_from_le_bytes(b.subrange(1, 5)) as u64, 5))
        }
    } else if b[0] == 253 {
        if b.len() < 9 {
            None
        } else {
            Some((spec_u64_from_le_bytes(b.subrange(1, 9)), 9))
        }
    } else {
        None
    }
}

/// Reads a serialized snapshot: its length, then exactly that many bytes.
pub open spec fn parse_snapshot(b: Seq<u8>) -> Option<Seq<u8>> {
    match parse_varint(b) {
        Some((n, k)) => if b.len() - k == n {
            Some(b.skip(k))
        } else {
            None
        },
        None => None,
    }
}

/// A variable-length integer reads back as its value.
pub proof fn lemma_varint_round_trip(n: u64, rest: Seq<u8>)
    ensures
        parse_varint(varint(n) + rest) == Some((n, varint(n).len() as int)),
{
    lemma_auto_spec_u16_to_from_le_bytes();
    lemma_auto_spec_u32_to_from_le_bytes();
    lemma_auto_spec_u64_to_from_le_bytes();
    let b = varint(n) + rest;
    if n <= 250 {
    } else if n <= 0xffff {
        assert(b.subrange(1, 3) =~= vstd::bytes::spec_u16_to_le_bytes(n as u16));
    } else if n <= 0xffff_ffff {
        assert(b.subrange(1, 5) =~= vstd::bytes::spec_u32_to_le_bytes(n as u32));
    } else {
        assert(b.subrange(1, 9) =~= vstd::bytes::spec_u64_to_le_bytes(n));
    }
}

/// A serialized snapshot reads back as the snapshot.
pub proof fn lemma_snapshot_round_trip(p: Seq<u8>)
    requires
        p.len() <= u64::MAX,
    ensures
        parse_snapshot(snapshot_serialized(p)) == Some(p),
{
    let n = p.len() as u64;
    lemma_varint_round_trip(n, p);
    assert(snapshot_serialized(p).skip(varint(n).len() as int) =~= p);
}

/// Reads a variable-length integer at the start of `b`.
fn read_varint(b: &[u8]) -> (r: Option<(u64, usize)>)
    ensures
        r matches Some((n, k)) ==> parse_varint(b@) == Some((n, k as int)),
        r is None ==> parse_varint(b@) is None,
{
    let l = b.len();
    if l < 1 {
        return None;
    }
    let first = b[0];
    if first <= 250 {
        Some((first as u64, 1))
    } else if first == 251 {
        if l < 3 {
            None
        } else {
            Some((u16_from_le_bytes(slice_subrange(b, 1, 3)) as u64, 3))
        }
    } else if first == 252 {
        if l < 5 {
            None
        } else {
            Some((u32_from_le_bytes(slice_subrange(b, 1, 5)) as u64, 5))
        }
    } else if first == 253 {
        if l < 9 {
            None
        } else {
            Some((u64_from_le_bytes(slice_subrange(b, 1, 9)), 9))
        }
    } else {
        None
    }
}

/// Reads a serialized snapshot back into its bytes.
pub fn read_snapshot(b: &[u8]) -> (r: Option<Vec<u8>>)
    ensures
        r matches Some(v) ==> parse_snapshot(b@) == Some(v@),
        r is None ==> parse_snapshot(b@) is None,
{
    match read_varint(b) {
        Some((n, k)) => {
            if ((b.len() - k) as u64) == n {
                let v = slice_to_vec(slice_subrange(b, k, b.len()));
                assert(v@ =~= b@.skip(k as int));
                Some(v)
            } else {
                None
            }
        },
        None => None,
    }
}

/// Reads a chunk of snapshots as written: its ticks, the first snapshot,
/// and the binary diffs that lead from each serialized snapshot to the next.
pub open spec fn parse_snapshot_chunk(frame: Seq<u8>) -> Option<(Seq<u64>, Seq<u8>, Seq<Seq<u8>>)> {
    match parse_chunk_frame(frame) {
        Some((t, s)) => if s.len() == 0 {
            None
        } else {
            match zstd_decoded(s[0]) {
                Some(ser) => match parse_snapshot(ser) {
                    Some(p) => Some((t, p, s.drop_first())),
                    None => None,
                },
                None => None,
            }
        },
        None => None,
    }
}

/// A chunk of snapshots that the writer framed reads back as its ticks, its
/// first snapshot and its diffs, once both compressions decode to what was
/// compressed (which `write_chunk` guarantees of every chunk it returns).
pub proof fn lemma_snapshot_chunk_round_trip(
    ticks: Seq<u64>,
    first: Seq<u8>,
    patches: Seq<Seq<u8>>,
)
    requires
        ticks.len() == patches.len() + 1,
        ticks.len() <= u64::MAX,
        first.len() <= u64::MAX,
        forall|i: int| 0 <= i < patches.len() ==> #[trigger] patches[i].len() <= u64::MAX,
        zstd_compressed(snapshot_serialized(first)).len() <= u64::MAX,
        zstd_decoded(zstd_compressed(snapshot_serialized(first))) == Some(snapshot_serialized(first)),
        ({
            let body = chunk_body(ticks, stored_payloads(snapshot_serialized(first), patches));
            &&& zstd_compressed(body).len() <= u64::MAX
            &&& zstd_decoded(zstd_compressed(body)) == Some(body)
        }),
    ensures
        parse_snapshot_chunk(
            chunk_frame(chunk_body(ticks, stored_payloads(snapshot_serialized(first), patches))),
        ) == Some((ticks, first, patches)),
{
    let stored = stored_payloads(snapshot_serialized(first), patches);
    assert forall|i: int| 0 <= i < stored.len() implies #[trigger] stored[i].len() <= u64::MAX by {
        if i > 0 {
            assert(stored[i] == patches[i - 1]);
        }
    }
    lemma_chunk_frame_round_trip(ticks, stored);
    lemma_snapshot_round_trip(first);
    assert(stored.drop_first() =~= patches);
}

/// A chunk of snapshots, read back.
pub struct SnapshotChunk {
    /// The ticks, ascending.
    pub ticks: Vec<u64>,
    /// The first snapshot of the chunk.
    pub first: Vec<u8>,
    /// The binary diff from each serialized snapshot to the next.
    pub patches: Vec<Vec<u8>>,
}

/// Reads a chunk of snapshots as written.
pub fn read_snapshot_chunk(frame: &[u8]) -> (r: Option<SnapshotChunk>)
    ensures
        r matches Some(c) ==> parse_snapshot_chunk(frame@) == Some(
            (c.ticks@, c.first@, c.patches.deep_view()),
        ),
        r is None ==> parse_snapshot_chunk(frame@) is None,
{
    let (ticks, mut stored) = match read_chunk(frame) {
        Some(c) => c,
        None => return None,
    };
    if stored.len() == 0 {
        return None;
    }
    let ghost all = stored.deep_view();
    let first_stored = stored.remove(0);
    assert(first_stored@ == all[0]);
    assert(stored.deep_view() =~= all.drop_first());
    let serialized = match decompress(first_stored.as_slice()) {
        Some(s) => s,
        None => return None,
    };
    match read_snapshot(serialized.as_slice()) {
        Some(first) => Some(SnapshotChunk { ticks, first, patches: stored }),
        None => None,
    }
}

} // verus!
