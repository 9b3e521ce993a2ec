use demo::codec::{write_fixed_u64, write_varint};
use demo::reader::{read_chunk, read_header, read_snapshot, read_snapshot_chunk, DEMO_HEADER_SIZE};
use demo::recorder::DemoHeaderExt;
use demo::tick_map::TickMap;
use demo::writer::{
    prepare_events, prepare_snapshots, serialize_events, serialize_snapshot, ChunkKind,
    DemoWriteError, DemoWriter,
};

fn header_ext(tps: u64) -> DemoHeaderExt {
    DemoHeaderExt { map: "dm1".to_string(), ticks_per_second: tps, serialized: vec![7; 40] }
}

fn snaps(ticks: &[u64]) -> TickMap<Vec<u8>> {
    let mut m = TickMap::new();
    for &t in ticks {
        m.insert(t, vec![t as u8, 1, 2, 3]);
    }
    m
}

/// Stand-in diffs: any bytes are stored as they are given.
fn patches_for(n: usize) -> Vec<Vec<u8>> {
    (1..n).map(|i| vec![0xd0, i as u8]).collect()
}

fn write_snaps(w: &mut DemoWriter, ticks: &[u64]) -> Result<Vec<u8>, DemoWriteError> {
    let p = prepare_snapshots(&snaps(ticks));
    w.write_chunk(ChunkKind::Snapshots, &p, &patches_for(ticks.len()))
}

#[test]
fn varint_matches_bincode() {
    for n in [0u64, 1, 250, 251, 65535, 65536, 4294967295, 4294967296, u64::MAX] {
        let mut ours = Vec::new();
        write_varint(&mut ours, n);
        let theirs = bincode::encode_to_vec(n, bincode::config::standard()).unwrap();
        assert_eq!(ours, theirs, "{n}");
    }
    let mut one = Vec::new();
    write_varint(&mut one, 300);
    assert_eq!(one, vec![251, 0x2c, 0x01]);
}

#[test]
fn fixed_matches_bincode() {
    for n in [0u64, 1, 0x0102030405060708, u64::MAX] {
        let mut ours = Vec::new();
        write_fixed_u64(&mut ours, n);
        let cfg = bincode::config::standard().with_fixed_int_encoding();
        assert_eq!(ours, bincode::encode_to_vec(n, cfg).unwrap());
    }
}

#[test]
fn payload_serialization_matches_bincode() {
    let p: Vec<u8> = (0..300u32).map(|i| (i % 256) as u8).collect();
    let cfg = bincode::config::standard();
    assert_eq!(serialize_snapshot(&p), bincode::serde::encode_to_vec(&p, cfg).unwrap());
    let evs: Vec<Vec<u8>> = vec![vec![1, 2], vec![], vec![3]];
    assert_eq!(serialize_events(&evs), vec![3, 1, 2, 3]);
}

fn unzstd(data: &[u8]) -> Vec<u8> {
    zstd::stream::decode_all(data).unwrap()
}

#[test]
fn header_extension_is_compressed() {
    let ext = header_ext(50);
    let (_, start) = DemoWriter::new(&ext).unwrap();
    let compressed = &start[DEMO_HEADER_SIZE..];
    assert_ne!(compressed, &ext.serialized[..]);
    assert_eq!(unzstd(compressed), ext.serialized);
    // a frame that does not decode is refused
    let mut broken = vec![3, 0, 0, 0, 0, 0, 0, 0];
    broken.extend([1, 2, 3]);
    assert!(read_chunk(&broken).is_none());
}

#[test]
fn chunk_round_trip() {
    let mut w = DemoWriter::new(&header_ext(50)).unwrap().0;
    let ticks = [3u64, 4, 9, 12];
    let m = snaps(&ticks);
    let p = prepare_snapshots(&m);
    let patches = patches_for(ticks.len());
    let frame = w.write_chunk(ChunkKind::Snapshots, &p, &patches).unwrap();
    let (t, stored) = read_chunk(&frame).unwrap();
    assert_eq!(t, ticks.to_vec());
    assert_eq!(stored.len(), 4);
    let first = unzstd(&stored[0]);
    assert_eq!(first, serialize_snapshot(&vec![3, 1, 2, 3]));
    assert_eq!(read_snapshot(&first), Some(vec![3, 1, 2, 3]));
    let c = read_snapshot_chunk(&frame).unwrap();
    assert_eq!(c.ticks, ticks.to_vec());
    assert_eq!(c.first, vec![3, 1, 2, 3]);
    assert_eq!(c.patches, patches);
    assert_eq!(&stored[1..], &patches[..]);
    assert_eq!(u64::from_le_bytes(frame[0..8].try_into().unwrap()) as usize, frame.len() - 8);
}

#[test]
fn event_chunk_round_trip() {
    let mut w = DemoWriter::new(&header_ext(50)).unwrap().0;
    let mut m: TickMap<Vec<Vec<u8>>> = TickMap::new();
    m.push_at(8, vec![1]);
    m.push_at(8, vec![2, 2]);
    let p = prepare_events(&m);
    let frame = w.write_chunk(ChunkKind::Events, &p, &vec![]).unwrap();
    let (t, stored) = read_chunk(&frame).unwrap();
    assert_eq!(t, vec![8]);
    // the count, then the two encoded events as they are
    assert_eq!(unzstd(&stored[0]), vec![2, 1, 2, 2]);
}

#[test]
fn empty_chunk_is_rejected() {
    let mut w = DemoWriter::new(&header_ext(50)).unwrap().0;
    let p = prepare_snapshots(&TickMap::new());
    assert_eq!(w.write_chunk(ChunkKind::Snapshots, &p, &vec![]), Err(DemoWriteError::EmptyChunk));
    assert_eq!(w.chunks_size, 0);
}

#[test]
fn patch_count_must_fit() {
    let mut w = DemoWriter::new(&header_ext(50)).unwrap().0;
    let p = prepare_snapshots(&snaps(&[1, 2]));
    assert_eq!(
        w.write_chunk(ChunkKind::Snapshots, &p, &vec![]),
        Err(DemoWriteError::PatchCountMismatch)
    );
}

#[test]
fn chunks_must_be_monotonic() {
    let mut w = DemoWriter::new(&header_ext(50)).unwrap().0;
    let c1: Vec<u64> = (10..=20).collect();
    let c2: Vec<u64> = (5..=15).collect();
    let c3: Vec<u64> = (21..=30).collect();
    write_snaps(&mut w, &c1).unwrap();
    let size = w.chunks_size;
    assert_eq!(write_snaps(&mut w, &c2), Err(DemoWriteError::FirstTickNotMonotonic));
    assert_eq!(w.chunks_size, size);
    write_snaps(&mut w, &c3).unwrap();
    // starts after the first chunk but ends before the latest one
    assert_eq!(write_snaps(&mut w, &[12, 13]), Err(DemoWriteError::LastTickNotMonotonic));
    // each kind keeps its own bounds
    let p = prepare_events(&{
        let mut m = TickMap::new();
        m.push_at(1, vec![1]);
        m
    });
    assert!(w.write_chunk(ChunkKind::Events, &p, &vec![]).is_ok());
}

#[test]
fn demo_without_chunks_stays_unfinished() {
    let (w, start) = DemoWriter::new(&header_ext(50)).unwrap();
    let h = read_header(&start).unwrap();
    assert_eq!(h.size_chunks, 0);
    assert!(!h.is_complete());
    assert_eq!(h.size_ext as usize, start.len() - DEMO_HEADER_SIZE);
    assert!(w.finish().unwrap().is_none());
}

#[test]
fn finished_demo_records_chunk_region() {
    let (mut w, mut file) = DemoWriter::new(&header_ext(50)).unwrap();
    let start_len = file.len();
    let first: Vec<u64> = (100..200).collect();
    let second: Vec<u64> = (200..350).collect();
    let f1 = write_snaps(&mut w, &first).unwrap();
    let f2 = write_snaps(&mut w, &second).unwrap();
    let mut ev: TickMap<Vec<Vec<u8>>> = TickMap::new();
    ev.push_at(120, vec![5]);
    ev.push_at(400, vec![6]);
    let p = prepare_events(&ev);
    let f3 = w.write_chunk(ChunkKind::Events, &p, &patches_for(2)).unwrap();
    file.extend(&f1);
    file.extend(&f2);
    file.extend(&f3);
    let chunk_region = file.len() - start_len;
    let fin = w.finish().unwrap().unwrap();
    file.extend(&fin.tail);
    file[0..DEMO_HEADER_SIZE].copy_from_slice(&fin.header);
    let h = read_header(&file).unwrap();
    assert!(h.is_complete());
    assert_eq!(h.size_chunks as usize, chunk_region);
    assert_eq!(w.chunks_size as usize, chunk_region);
    // ticks 100 to 400 at 50 per second
    assert_eq!(h.len_secs, 6);
    assert_eq!(h.len_nanos, 0);
    // the index keys are the first ticks of the chunks, the values their offsets
    assert_eq!(w.snapshots_index.len(), 2);
    assert_eq!(w.snapshots_index.get(100), Some(&0));
    assert_eq!(w.snapshots_index.get(200), Some(&(f1.len() as u64)));
    assert_eq!(w.events_index.len(), 1);
    assert_eq!(w.events_index.get(120), Some(&((f1.len() + f2.len()) as u64)));
    let tail = unzstd(&fin.tail);
    let mut expected = vec![2, 100, 0, 200];
    write_varint(&mut expected, f1.len() as u64);
    expected.extend([1, 120]);
    write_varint(&mut expected, (f1.len() + f2.len()) as u64);
    assert_eq!(tail, expected);
}

#[test]
fn span_with_fraction_of_second() {
    let mut w = DemoWriter::new(&header_ext(50)).unwrap().0;
    write_snaps(&mut w, &[0, 75]).unwrap();
    let fin = w.finish().unwrap().unwrap();
    let h = read_header(&fin.header).unwrap();
    assert_eq!(h.len_secs, 1);
    assert_eq!(h.len_nanos, 500_000_000);
}

#[test]
fn snapshot_reads_back() {
    let long: Vec<u8> = (0..70000u32).map(|i| (i % 253) as u8).collect();
    for p in [vec![], vec![9u8], long] {
        assert_eq!(read_snapshot(&serialize_snapshot(&p)), Some(p.clone()));
    }
    assert_eq!(read_snapshot(&[3, 1, 2]), None);
    assert_eq!(read_snapshot(&[255]), None);
}
