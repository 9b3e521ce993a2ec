use demo::recorder::{
    split_flushable, split_into_batches, DemoHeaderExt, DemoRecorder, DemoRecorderEvent,
};
use demo::tick_map::TickMap;
use std::sync::mpsc::{channel, Receiver};

fn header_ext(tps: u64) -> DemoHeaderExt {
    DemoHeaderExt { map: "ctf1".to_string(), ticks_per_second: tps, serialized: vec![1, 2, 3] }
}

fn recorder(tps: u64) -> (DemoRecorder, Receiver<DemoRecorderEvent>) {
    let (tx, rx) = channel();
    (DemoRecorder::new(header_ext(tps), tx), rx)
}

fn snapshot_ticks(m: &TickMap<Vec<u8>>) -> Vec<u64> {
    (0..m.len()).map(|i| m.tick_at(i)).collect()
}

#[test]
fn snapshot_same_tick_replaces() {
    let (mut rec, rx) = recorder(50);
    rec.add_snapshot(100, vec![0xA]);
    rec.add_snapshot(100, vec![0xB]);
    assert_eq!(rec.snapshots.len(), 1);
    assert_eq!(rec.snapshots.get(100), Some(&vec![0xB]));
    assert!(rx.try_recv().is_err());
}

#[test]
fn event_same_tick_appends_in_order() {
    let (mut rec, rx) = recorder(50);
    rec.add_event(100, vec![1]);
    rec.add_event(100, vec![2]);
    assert_eq!(rec.events.len(), 1);
    assert_eq!(rec.events.get(100), Some(&vec![vec![1], vec![2]]));
    assert!(rx.try_recv().is_err());
}

#[test]
fn late_ticks_outside_window_are_dropped() {
    let (mut rec, _rx) = recorder(50);
    rec.add_snapshot(1000, vec![1]);
    // 150 ticks behind at 50 ticks per second: still within three seconds
    rec.add_snapshot(850, vec![2]);
    // 151 ticks behind: too late
    rec.add_snapshot(849, vec![3]);
    assert_eq!(snapshot_ticks(&rec.snapshots), vec![850, 1000]);
    rec.add_event(2000, vec![9]);
    rec.add_event(1849, vec![8]);
    assert_eq!(rec.events.len(), 1);
    assert_eq!(rec.events.get(1849), None);
}

#[test]
fn entries_are_kept_in_tick_order() {
    let (mut rec, _rx) = recorder(50);
    rec.add_snapshot(10, vec![1]);
    rec.add_snapshot(5, vec![2]);
    rec.add_snapshot(7, vec![3]);
    assert_eq!(snapshot_ticks(&rec.snapshots), vec![5, 7, 10]);
    assert_eq!(rec.snapshots.first_tick(), Some(5));
    assert_eq!(rec.snapshots.last_tick(), Some(10));
}

#[test]
fn batch_size_entries_do_not_flush() {
    let (mut rec, rx) = recorder(50);
    for t in 0..1500u64 {
        rec.add_snapshot(t * 100, vec![t as u8]);
    }
    rec.add_snapshot(150_000, vec![0]);
    assert!(rx.try_recv().is_err());
    assert_eq!(rec.snapshots.len(), 1501);
}

#[test]
fn flush_needs_span_beyond_window_from_split_point() {
    let (mut rec, rx) = recorder(50);
    for t in 0..=1500u64 {
        rec.add_snapshot(t, vec![1]);
    }
    // the split point is the newest entry: no span, no flush
    rec.add_snapshot(1700, vec![2]);
    assert!(rx.try_recv().is_err());
    assert_eq!(rec.snapshots.len(), 1502);
    // now the split point (tick 1500) lies 200 ticks before the newest one
    rec.add_snapshot(1701, vec![3]);
    match rx.try_recv() {
        Ok(DemoRecorderEvent::Snapshots { snaps }) => {
            assert_eq!(snaps.len(), 1500);
            assert_eq!(snaps.first_tick(), Some(0));
            assert_eq!(snaps.last_tick(), Some(1499));
        }
        _ => panic!("expected one chunk of snapshots"),
    }
    assert!(rx.try_recv().is_err());
    assert_eq!(snapshot_ticks(&rec.snapshots), vec![1500, 1700, 1701]);
}

#[test]
fn span_of_exactly_the_window_does_not_flush() {
    let ext = header_ext(50);
    let mut m: TickMap<Vec<u8>> = TickMap::new();
    for t in 0..=1500u64 {
        m.insert(t, vec![]);
    }
    m.insert(1650, vec![]);
    assert!(split_flushable(&mut m, &ext).is_none());
    m.insert(1651, vec![]);
    let c = split_flushable(&mut m, &ext).expect("flush");
    assert_eq!(c.len(), 1500);
    assert_eq!(m.len(), 3);
}

#[test]
fn finalize_flushes_everything_in_batches() {
    let (mut rec, rx) = recorder(1000);
    for t in 0..3200u64 {
        rec.add_snapshot(t, vec![(t % 251) as u8]);
    }
    for t in 0..10u64 {
        rec.add_event(t * 3, vec![t as u8]);
        rec.add_event(t * 3, vec![0xff]);
    }
    assert!(rx.try_recv().is_err());
    rec.finalize();
    assert_eq!(rec.snapshots.len(), 0);
    assert_eq!(rec.events.len(), 0);
    let mut sizes = Vec::new();
    let mut firsts = Vec::new();
    let mut event_entries = 0;
    while let Ok(ev) = rx.try_recv() {
        match ev {
            DemoRecorderEvent::Snapshots { snaps } => {
                sizes.push(snaps.len());
                firsts.push(snaps.first_tick().unwrap());
            }
            DemoRecorderEvent::Events { events } => {
                event_entries += events.len();
                assert_eq!(events.get(3), Some(&vec![vec![1], vec![0xff]]));
            }
            DemoRecorderEvent::Cancel => panic!("no cancel expected"),
        }
    }
    assert_eq!(sizes, vec![1500, 1500, 200]);
    assert_eq!(firsts, vec![0, 1500, 3000]);
    assert_eq!(event_entries, 10);
}

#[test]
fn batches_of_empty_map_are_none() {
    let m: TickMap<Vec<u8>> = TickMap::new();
    assert!(split_into_batches(m).is_empty());
}

#[test]
fn cancel_sends_cancel() {
    let (mut rec, rx) = recorder(50);
    rec.add_snapshot(1, vec![1]);
    rec.add_snapshot(2, vec![2]);
    rec.cancel();
    assert!(matches!(rx.try_recv(), Ok(DemoRecorderEvent::Cancel)));
    assert!(rx.try_recv().is_err());
}

#[test]
fn dead_writer_is_ignored() {
    let (mut rec, rx) = recorder(1);
    drop(rx);
    for t in 0..1600u64 {
        rec.add_snapshot(t, vec![]);
    }
    assert!(rec.snapshots.len() < 1600);
    rec.finalize();
    assert_eq!(rec.snapshots.len(), 0);
}

#[test]
fn finalize_of_empty_buffers_sends_nothing() {
    let (mut rec, rx) = recorder(50);
    rec.finalize();
    assert!(rx.try_recv().is_err());
}

#[test]
fn new_layer_corners_are_empty() {
    let l = demo::map_render::TileLayerVisualsBase::new();
    for t in [l.corner_top_left, l.corner_top_right, l.corner_bottom_right, l.corner_bottom_left, l.border_kill_tile] {
        assert!(!t.drawable());
        assert_eq!(t.quad_offset(), 0);
    }
}
