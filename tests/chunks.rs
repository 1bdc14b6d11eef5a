use tropy::chunks::{chunk_records, ChunkReader};

#[test]
fn ten_bytes_in_chunks_of_four_give_two_records() {
    let data = [0u8, 0, 0, 1, 7, 7, 8, 8, 9, 9];
    let recs = chunk_records(&data, 4);
    assert_eq!(recs.len(), 2);
    assert_eq!(recs[0].start, 0);
    assert_eq!(recs[1].start, 4);
    assert_eq!(recs[0].histogram.count(0), 3);
    assert_eq!(recs[0].histogram.count(1), 1);
    assert_eq!(recs[1].histogram.count(7), 2);
    assert_eq!(recs[1].histogram.count(8), 2);
    assert_eq!(recs[1].histogram.count(9), 0);
    assert_eq!(recs[1].histogram.total(), 4);
}

#[test]
fn input_shorter_than_a_chunk_gives_nothing() {
    assert_eq!(chunk_records(&[1, 2, 3], 4).len(), 0);
    assert_eq!(chunk_records(&[], 1).len(), 0);
}

#[test]
fn exact_multiple_keeps_every_chunk() {
    let data: Vec<u8> = (0..12u8).collect();
    let recs = chunk_records(&data, 3);
    assert_eq!(recs.len(), 4);
    for (i, r) in recs.iter().enumerate() {
        assert_eq!(r.start, 3 * i as u64);
        assert_eq!(r.histogram.total(), 3);
        assert_eq!(r.histogram.count(3 * i as u8), 1);
    }
}

#[test]
fn same_input_twice_gives_same_records() {
    let data: Vec<u8> = (0..100u32).map(|i| (i * 37 % 251) as u8).collect();
    let a = chunk_records(&data, 16);
    let b = chunk_records(&data, 16);
    assert_eq!(a.len(), 6);
    assert_eq!(a.len(), b.len());
    for (x, y) in a.iter().zip(b.iter()) {
        assert_eq!(x.start, y.start);
        for v in 0..=255u8 {
            assert_eq!(x.histogram.count(v), y.histogram.count(v));
        }
    }
}

#[test]
fn reader_stops_at_a_short_read() {
    let mut r = ChunkReader::new(4);
    assert_eq!(r.chunk_size(), 4);
    let first = r.feed(&[1, 1, 2, 2]).unwrap();
    assert_eq!(first.start, 0);
    assert_eq!(first.histogram.count(2), 2);
    let second = r.feed(&[3, 3, 3, 3]).unwrap();
    assert_eq!(second.start, 4);
    assert_eq!(r.chunks_read(), 2);
    assert_eq!(r.next_start(), 8);
    assert!(!r.is_done());
    assert!(r.feed(&[9, 9]).is_none());
    assert!(r.is_done());
    assert!(r.feed(&[1, 2, 3, 4]).is_none());
    assert_eq!(r.chunks_read(), 2);
}
